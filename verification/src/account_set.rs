//! A set of account names, kept as a strictly ascending list.

use crate::ordering::{
    lemma_insert_sorted, lemma_precedes_connected, lemma_precedes_irreflexive,
    lemma_precedes_transitive, lemma_sorted_no_duplicates, name_less, precedes, strictly_sorted,
};
use crate::records::{
    account_names, lemma_account_names_push, lemma_record_names_push, record_names, FollowerEntry,
};
use vstd::prelude::*;

verus! {

/// The position in the strictly sorted `names` of the first name that does
/// not come before `name`.
fn lower_bound(names: &Vec<String>, name: &str) -> (at: usize)
    requires
        strictly_sorted(names.deep_view()),
    ensures
        at <= names.len(),
        forall|i: int| 0 <= i < at ==> precedes(#[trigger] names.deep_view()[i], name@),
        forall|i: int| at <= i < names.len() ==> !precedes(#[trigger] names.deep_view()[i], name@),
{
    let ghost sorted = names.deep_view();
    let mut low: usize = 0;
    let mut high: usize = names.len();
    while low < high
        invariant
            strictly_sorted(sorted),
            sorted == names.deep_view(),
            low <= high <= names.len(),
            forall|i: int| 0 <= i < low ==> precedes(#[trigger] sorted[i], name@),
            forall|i: int| high <= i < sorted.len() ==> !precedes(#[trigger] sorted[i], name@),
        decreases high - low,
    {
        let middle: usize = low + (high - low) / 2;
        if name_less(names[middle].as_str(), name) {
            proof {
                assert forall|i: int| 0 <= i < middle + 1 implies precedes(
                    #[trigger] sorted[i],
                    name@,
                ) by {
                    if i < middle {
                        assert(precedes(sorted[i], sorted[middle as int]));
                        lemma_precedes_transitive(sorted[i], sorted[middle as int], name@);
                    }
                }
            }
            low = middle + 1;
        } else {
            proof {
                assert forall|i: int| middle <= i < sorted.len() implies !precedes(
                    #[trigger] sorted[i],
                    name@,
                ) by {
                    if i > middle && precedes(sorted[i], name@) {
                        assert(precedes(sorted[middle as int], sorted[i]));
                        lemma_precedes_transitive(sorted[middle as int], sorted[i], name@);
                    }
                }
            }
            high = middle;
        }
    }
    low
}

/// Puts `name` at its place in the strictly sorted `names`, unless it is
/// there already.
fn insert_sorted(names: &mut Vec<String>, name: String)
    requires
        strictly_sorted(old(names).deep_view()),
    ensures
        strictly_sorted(final(names).deep_view()),
        final(names).deep_view().to_set() == old(names).deep_view().to_set().insert(name@),
{
    let at: usize = lower_bound(names, name.as_str());
    let ghost before = names.deep_view();
    if at < names.len() && !name_less(name.as_str(), names[at].as_str()) {
        proof {
            lemma_precedes_connected(before[at as int], name@);
            assert(before.contains(name@));
            assert(before.to_set() =~= before.to_set().insert(name@));
        }
    } else {
        names.insert(at, name);
        proof {
            assert(names.deep_view() =~= before.insert(at as int, name@));
            assert forall|i: int| at <= i < before.len() implies precedes(
                name@,
                #[trigger] before[i],
            ) by {
                if i > at {
                    lemma_precedes_transitive(name@, before[at as int], before[i]);
                }
            }
            lemma_insert_sorted(before, at as int, name@);
        }
    }
}

/// The names of one side of the relationship, each held once.
pub struct AccountSet {
    names: Vec<String>,
}

impl View for AccountSet {
    type V = Set<Seq<char>>;

    open spec fn view(&self) -> Set<Seq<char>> {
        self.ascending().to_set()
    }
}

impl AccountSet {
    /// The names in the order in which the set holds them.
    pub closed spec fn ascending(&self) -> Seq<Seq<char>> {
        self.names.deep_view()
    }

    /// The names stand in strictly ascending order.
    #[verifier::type_invariant]
    spec fn names_ascend(&self) -> bool {
        strictly_sorted(self.names.deep_view())
    }

    /// The empty set.
    pub fn new() -> (set: Self)
        ensures
            set@ == Set::<Seq<char>>::empty(),
    {
        let set = AccountSet { names: Vec::new() };
        assert(set@ =~= Set::<Seq<char>>::empty());
        set
    }

    /// The number of names.
    pub fn len(&self) -> (n: usize)
        ensures
            n == self@.len(),
    {
        proof {
            use_type_invariant(self);
            lemma_sorted_no_duplicates(self.ascending());
            self.ascending().unique_seq_to_set();
        }
        self.names.len()
    }

    /// Whether the set holds `name`.
    pub fn contains(&self, name: &str) -> (found: bool)
        ensures
            found == self@.contains(name@),
    {
        proof {
            use_type_invariant(self);
        }
        let at: usize = lower_bound(&self.names, name);
        let ghost names = self.ascending();
        if at < self.names.len() && !name_less(name, self.names[at].as_str()) {
            proof {
                lemma_precedes_connected(names[at as int], name@);
                assert(names.contains(name@));
            }
            true
        } else {
            proof {
                if names.contains(name@) {
                    let i = choose|i: int| 0 <= i < names.len() && names[i] == name@;
                    lemma_precedes_irreflexive(name@);
                    if i > at {
                        assert(precedes(names[at as int], names[i]));
                    }
                }
            }
            false
        }
    }

    /// The set with `name` added; a name that the set holds already changes
    /// nothing.
    pub fn insert(self, name: String) -> (set: Self)
        ensures
            set@ == self@.insert(name@),
    {
        proof {
            use_type_invariant(&self);
        }
        let mut names = self.names;
        insert_sorted(&mut names, name);
        AccountSet { names }
    }

    /// The names of all identifier records of `entries`.
    pub fn from_entries(entries: &Vec<FollowerEntry>) -> (set: Self)
        ensures
            set@ == account_names(entries.deep_view()),
    {
        let ghost all = entries.deep_view();
        let mut names: Vec<String> = Vec::new();
        let mut i: usize = 0;
        proof {
            assert(names.deep_view().to_set() =~= account_names(all.take(0)));
        }
        while i < entries.len()
            invariant
                i <= entries.len(),
                all == entries.deep_view(),
                strictly_sorted(names.deep_view()),
                names.deep_view().to_set() == account_names(all.take(i as int)),
            decreases entries.len() - i,
        {
            let entry = &entries[i];
            let ghost records = all[i as int].identifiers;
            let mut j: usize = 0;
            proof {
                assert(names.deep_view().to_set() =~= account_names(all.take(i as int)).union(
                    record_names(records.take(0)),
                ));
            }
            while j < entry.string_list_data.len()
                invariant
                    j <= entry.string_list_data.len(),
                    records == entry.string_list_data.deep_view(),
                    strictly_sorted(names.deep_view()),
                    names.deep_view().to_set() == account_names(all.take(i as int)).union(
                        record_names(records.take(j as int)),
                    ),
                decreases entry.string_list_data.len() - j,
            {
                let name = entry.string_list_data[j].value.clone();
                proof {
                    lemma_record_names_push(records.take(j as int), records[j as int]);
                    assert(records.take(j as int).push(records[j as int]) =~= records.take(j + 1));
                }
                insert_sorted(&mut names, name);
                proof {
                    assert(names.deep_view().to_set() =~= account_names(all.take(i as int)).union(
                        record_names(records.take(j + 1)),
                    ));
                }
                j = j + 1;
            }
            proof {
                assert(records.take(j as int) =~= records);
                lemma_account_names_push(all.take(i as int), all[i as int]);
                assert(all.take(i as int).push(all[i as int]) =~= all.take(i + 1));
            }
            i = i + 1;
        }
        proof {
            assert(all.take(i as int) =~= all);
        }
        AccountSet { names }
    }

    /// The names of this set that `other` does not hold, in ascending order.
    pub fn difference(&self, other: &AccountSet) -> (rest: Vec<String>)
        ensures
            strictly_sorted(rest.deep_view()),
            rest.deep_view().to_set() == self@.difference(other@),
    {
        proof {
            use_type_invariant(self);
        }
        let ghost names = self.ascending();
        let mut rest: Vec<String> = Vec::new();
        let mut i: usize = 0;
        proof {
            assert(rest.deep_view().to_set() =~= names.take(0).to_set().difference(other@));
        }
        while i < self.names.len()
            invariant
                i <= self.names.len(),
                strictly_sorted(names),
                names == self.ascending(),
                names.len() == self.names.len(),
                strictly_sorted(rest.deep_view()),
                rest.deep_view().to_set() == names.take(i as int).to_set().difference(other@),
                forall|r: int, t: int|
                    0 <= r < rest.deep_view().len() && i <= t < names.len() ==> precedes(
                        #[trigger] rest.deep_view()[r],
                        #[trigger] names[t],
                    ),
            decreases self.names.len() - i,
        {
            let ghost kept = rest.deep_view();
            proof {
                assert(names.take(i as int).push(names[i as int]) =~= names.take(i + 1));
                names.take(i as int).lemma_push_to_set_commute(names[i as int]);
            }
            if !other.contains(self.names[i].as_str()) {
                rest.push(self.names[i].clone());
                proof {
                    let longer = rest.deep_view();
                    assert(longer =~= kept.push(names[i as int]));
                    kept.lemma_push_to_set_commute(names[i as int]);
                    assert(longer.to_set() =~= names.take(i + 1).to_set().difference(other@));
                    assert forall|r: int, t: int|
                        0 <= r < longer.len() && i + 1 <= t < names.len() implies precedes(
                        #[trigger] longer[r],
                        #[trigger] names[t],
                    ) by {
                        if r < kept.len() {
                            assert(precedes(kept[r], names[t]));
                        } else {
                            assert(precedes(names[i as int], names[t]));
                        }
                    }
                    assert forall|r: int, t: int| 0 <= r < t < longer.len() implies precedes(
                        #[trigger] longer[r],
                        #[trigger] longer[t],
                    ) by {
                        if t < kept.len() {
                            assert(precedes(kept[r], kept[t]));
                        } else {
                            assert(precedes(kept[r], names[i as int]));
                        }
                    }
                }
            } else {
                proof {
                    assert(kept.to_set() =~= names.take(i + 1).to_set().difference(other@));
                }
            }
            i = i + 1;
        }
        proof {
            assert(names.take(i as int) =~= names);
        }
        rest
    }
}

} // verus!
