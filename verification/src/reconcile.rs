//! The accounts that are followed and do not follow back.

use crate::account_set::AccountSet;
use crate::ordering::{
    ascending_sequence, lemma_ascending_sequence_exists, lemma_ascending_sequence_unique,
    lemma_sorted_no_duplicates, lemma_sorted_unique, strictly_sorted,
};
use crate::records::{
    account_names, lemma_account_names_push, lemma_record_names_finite, Entry, FollowerEntry,
};
use vstd::prelude::*;

verus! {

/// The names that occur among `following` and not among `followers`.
pub open spec fn non_mutual_names(followers: Seq<Entry>, following: Seq<Entry>) -> Set<Seq<char>> {
    account_names(following).difference(account_names(followers))
}

/// The result list: the non-mutual names in ascending order, each once.
pub open spec fn result_list(followers: Seq<Entry>, following: Seq<Entry>) -> Seq<Seq<char>> {
    ascending_sequence(non_mutual_names(followers, following))
}

/// The outcome of a reconciliation: the result list, and how many distinct
/// names each side holds.
#[derive(Debug, Clone, PartialEq, Eq)]
pub struct Analysis {
    pub non_mutual_follows: Vec<String>,
    pub following_count: usize,
    pub follower_count: usize,
}

/// Model of an `Analysis`.
pub struct Summary {
    pub non_mutual_follows: Seq<Seq<char>>,
    pub following_count: nat,
    pub follower_count: nat,
}

impl DeepView for Analysis {
    type V = Summary;

    open spec fn deep_view(&self) -> Summary {
        Summary {
            non_mutual_follows: self.non_mutual_follows.deep_view(),
            following_count: self.following_count as nat,
            follower_count: self.follower_count as nat,
        }
    }
}

/// The summary that the two sides come to.
pub open spec fn summary_of(followers: Seq<Entry>, following: Seq<Entry>) -> Summary {
    Summary {
        non_mutual_follows: result_list(followers, following),
        following_count: account_names(following).len(),
        follower_count: account_names(followers).len(),
    }
}

/// Reconciles the two sides and counts the distinct names of each.
pub fn summarize(followers: &Vec<FollowerEntry>, following: &Vec<FollowerEntry>) -> (analysis:
    Analysis)
    ensures
        analysis.deep_view() == summary_of(followers.deep_view(), following.deep_view()),
        strictly_sorted(analysis.non_mutual_follows.deep_view()),
        analysis.non_mutual_follows.deep_view().to_set() == non_mutual_names(
            followers.deep_view(),
            following.deep_view(),
        ),
{
    let follower_names = AccountSet::from_entries(followers);
    let following_names = AccountSet::from_entries(following);
    let non_mutual_follows = following_names.difference(&follower_names);
    proof {
        lemma_ascending_sequence_unique(
            non_mutual_names(followers.deep_view(), following.deep_view()),
            non_mutual_follows.deep_view(),
        );
    }
    Analysis {
        non_mutual_follows,
        following_count: following_names.len(),
        follower_count: follower_names.len(),
    }
}

/// The names that occur among `following` and not among `followers`, in
/// ascending order and each once.
pub fn reconcile(followers: &Vec<FollowerEntry>, following: &Vec<FollowerEntry>) -> (result: Vec<
    String,
>)
    ensures
        result.deep_view() == result_list(followers.deep_view(), following.deep_view()),
        strictly_sorted(result.deep_view()),
        result.deep_view().no_duplicates(),
        result.deep_view().to_set() == non_mutual_names(
            followers.deep_view(),
            following.deep_view(),
        ),
{
    let analysis = summarize(followers, following);
    proof {
        lemma_sorted_no_duplicates(analysis.non_mutual_follows.deep_view());
    }
    analysis.non_mutual_follows
}

/// The result list is strictly sorted, holds no name twice, and holds the
/// non-mutual names and no others.
pub proof fn lemma_result_list(followers: Seq<Entry>, following: Seq<Entry>)
    ensures
        strictly_sorted(result_list(followers, following)),
        result_list(followers, following).no_duplicates(),
        result_list(followers, following).to_set() == non_mutual_names(followers, following),
{
    lemma_account_names_finite(following);
    lemma_ascending_sequence_exists(non_mutual_names(followers, following));
    lemma_sorted_no_duplicates(result_list(followers, following));
}

/// Sorting the result list again changes nothing: every strictly sorted
/// sequence of its names is the list itself.
pub proof fn lemma_result_list_sorted_again(
    followers: Seq<Entry>,
    following: Seq<Entry>,
    again: Seq<Seq<char>>,
)
    requires
        strictly_sorted(again),
        again.to_set() == result_list(followers, following).to_set(),
    ensures
        again == result_list(followers, following),
{
    lemma_result_list(followers, following);
    lemma_sorted_unique(again, result_list(followers, following));
}

/// Where both sides are the same, the result list is empty.
pub proof fn lemma_identical_sides(entries: Seq<Entry>)
    ensures
        result_list(entries, entries) == Seq::<Seq<char>>::empty(),
{
    let none = Seq::<Seq<char>>::empty();
    assert(none.to_set() =~= non_mutual_names(entries, entries));
    lemma_ascending_sequence_unique(non_mutual_names(entries, entries), none);
}

/// Where nobody is followed, the result list is empty.
pub proof fn lemma_empty_following(followers: Seq<Entry>)
    ensures
        result_list(followers, Seq::<Entry>::empty()) == Seq::<Seq<char>>::empty(),
{
    let none = Seq::<Seq<char>>::empty();
    let nobody = Seq::<Entry>::empty();
    assert(none.to_set() =~= non_mutual_names(followers, nobody));
    lemma_ascending_sequence_unique(non_mutual_names(followers, nobody), none);
}

/// Where there are no followers, the result list is the ascending sequence
/// of all names that are followed.
pub proof fn lemma_empty_followers(following: Seq<Entry>)
    ensures
        result_list(Seq::<Entry>::empty(), following) == ascending_sequence(
            account_names(following),
        ),
        strictly_sorted(result_list(Seq::<Entry>::empty(), following)),
        result_list(Seq::<Entry>::empty(), following).to_set() == account_names(following),
{
    let nobody = Seq::<Entry>::empty();
    assert(non_mutual_names(nobody, following) =~= account_names(following));
    lemma_result_list(nobody, following);
}

/// The names of finitely many entries are finitely many.
pub proof fn lemma_account_names_finite(entries: Seq<Entry>)
    ensures
        account_names(entries).finite(),
    decreases entries.len(),
{
    if entries.len() == 0 {
        assert(account_names(entries) =~= Set::<Seq<char>>::empty());
    } else {
        let shorter = entries.drop_last();
        lemma_account_names_finite(shorter);
        lemma_account_names_push(shorter, entries.last());
        assert(shorter.push(entries.last()) =~= entries);
        lemma_record_names_finite(entries.last().identifiers);
    }
}

} // verus!
