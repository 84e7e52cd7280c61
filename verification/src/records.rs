//! Relationship records as they stand in an export, and their models.

use vstd::prelude::*;

verus! {

/// Model of one identifier record: a reference, a name and a time.
pub struct IdentifierRecord {
    pub reference_url: Seq<char>,
    pub account_name: Seq<char>,
    pub recorded_at: i64,
}

/// Model of one relationship entry: a label and its identifier records.
pub struct Entry {
    pub label: Seq<char>,
    pub identifiers: Seq<IdentifierRecord>,
}

/// One identifier record of an entry. Only `value`, the account name, is
/// used for matching.
#[derive(Debug, Clone, PartialEq, Eq)]
pub struct StringListData {
    pub href: String,
    pub value: String,
    pub timestamp: i64,
}

/// One relationship entry. It may hold any number of identifier records.
#[derive(Debug, Clone, PartialEq, Eq)]
pub struct FollowerEntry {
    pub title: String,
    pub string_list_data: Vec<StringListData>,
}

/// The wrapped form of a collection: the entries under one named field.
#[derive(Debug, Clone, PartialEq, Eq)]
pub struct FollowingData {
    pub relationships_following: Vec<FollowerEntry>,
}

/// The two forms in which a collection of entries is accepted.
#[derive(Debug, Clone, PartialEq, Eq)]
pub enum RelationshipCollection {
    /// A bare list of entries.
    Bare(Vec<FollowerEntry>),
    /// An object that holds the list under a named field.
    Wrapped(FollowingData),
}

impl DeepView for StringListData {
    type V = IdentifierRecord;

    open spec fn deep_view(&self) -> IdentifierRecord {
        IdentifierRecord {
            reference_url: self.href@,
            account_name: self.value@,
            recorded_at: self.timestamp,
        }
    }
}

impl DeepView for FollowerEntry {
    type V = Entry;

    open spec fn deep_view(&self) -> Entry {
        Entry { label: self.title@, identifiers: self.string_list_data.deep_view() }
    }
}

impl DeepView for FollowingData {
    type V = Seq<Entry>;

    open spec fn deep_view(&self) -> Seq<Entry> {
        self.relationships_following.deep_view()
    }
}

impl DeepView for RelationshipCollection {
    type V = Seq<Entry>;

    open spec fn deep_view(&self) -> Seq<Entry> {
        match self {
            RelationshipCollection::Bare(entries) => entries.deep_view(),
            RelationshipCollection::Wrapped(data) => data.deep_view(),
        }
    }
}

impl RelationshipCollection {
    /// The entries, whichever form held them.
    pub fn entries(&self) -> (entries: &Vec<FollowerEntry>)
        ensures
            entries.deep_view() == self.deep_view(),
    {
        match self {
            RelationshipCollection::Bare(entries) => entries,
            RelationshipCollection::Wrapped(data) => &data.relationships_following,
        }
    }

    /// Gives up the form and keeps the entries.
    pub fn into_entries(self) -> (entries: Vec<FollowerEntry>)
        ensures
            entries.deep_view() == self.deep_view(),
    {
        match self {
            RelationshipCollection::Bare(entries) => entries,
            RelationshipCollection::Wrapped(data) => data.relationships_following,
        }
    }
}

/// The names that `identifiers` hold, as a set.
pub open spec fn record_names(identifiers: Seq<IdentifierRecord>) -> Set<Seq<char>> {
    Set::new(
        |name: Seq<char>|
            exists|j: int|
                0 <= j < identifiers.len() && (#[trigger] identifiers[j]).account_name == name,
    )
}

/// The names that the identifier records of `entries` hold, as a set: every
/// record of every entry counts, and a name that occurs twice counts once.
pub open spec fn account_names(entries: Seq<Entry>) -> Set<Seq<char>> {
    Set::new(
        |name: Seq<char>|
            exists|i: int|
                0 <= i < entries.len() && record_names((#[trigger] entries[i]).identifiers).contains(
                    name,
                ),
    )
}

/// One more record adds its name to the names of the records before it.
pub proof fn lemma_record_names_push(identifiers: Seq<IdentifierRecord>, record: IdentifierRecord)
    ensures
        record_names(identifiers.push(record)) == record_names(identifiers).insert(
            record.account_name,
        ),
{
    let longer = identifiers.push(record);
    assert forall|name: Seq<char>|
        record_names(longer).contains(name) == record_names(identifiers).insert(
            record.account_name,
        ).contains(name) by {
        if record_names(longer).contains(name) {
            let j = choose|j: int| 0 <= j < longer.len() && (#[trigger] longer[j]).account_name == name;
            if j < identifiers.len() {
                assert(identifiers[j].account_name == name);
            }
        }
        if record_names(identifiers).contains(name) {
            let j = choose|j: int|
                0 <= j < identifiers.len() && (#[trigger] identifiers[j]).account_name == name;
            assert(longer[j].account_name == name);
        }
        if name == record.account_name {
            assert(longer[identifiers.len() as int].account_name == name);
        }
    }
    assert(record_names(longer) =~= record_names(identifiers).insert(record.account_name));
}

/// The names of finitely many records are finitely many.
pub proof fn lemma_record_names_finite(identifiers: Seq<IdentifierRecord>)
    ensures
        record_names(identifiers).finite(),
    decreases identifiers.len(),
{
    if identifiers.len() == 0 {
        assert(record_names(identifiers) =~= Set::<Seq<char>>::empty());
    } else {
        let shorter = identifiers.drop_last();
        lemma_record_names_finite(shorter);
        lemma_record_names_push(shorter, identifiers.last());
        assert(shorter.push(identifiers.last()) =~= identifiers);
    }
}

/// One more entry adds the names of its records to those of the entries
/// before it.
pub proof fn lemma_account_names_push(entries: Seq<Entry>, entry: Entry)
    ensures
        account_names(entries.push(entry)) == account_names(entries).union(
            record_names(entry.identifiers),
        ),
{
    let longer = entries.push(entry);
    let joined = account_names(entries).union(record_names(entry.identifiers));
    assert forall|name: Seq<char>| account_names(longer).contains(name) == joined.contains(
        name,
    ) by {
        if account_names(longer).contains(name) {
            let i = choose|i: int|
                0 <= i < longer.len() && record_names((#[trigger] longer[i]).identifiers).contains(
                    name,
                );
            if i < entries.len() {
                assert(record_names(entries[i].identifiers).contains(name));
            }
        }
        if account_names(entries).contains(name) {
            let i = choose|i: int|
                0 <= i < entries.len() && record_names(
                    (#[trigger] entries[i]).identifiers,
                ).contains(name);
            assert(record_names(longer[i].identifiers).contains(name));
        }
        if record_names(entry.identifiers).contains(name) {
            assert(record_names(longer[entries.len() as int].identifiers).contains(name));
        }
    }
    assert(account_names(longer) =~= joined);
}

/// An entry without identifier records adds no name, wherever it stands.
pub proof fn lemma_empty_entry_adds_nothing(entries: Seq<Entry>, at: int, entry: Entry)
    requires
        0 <= at <= entries.len(),
        entry.identifiers.len() == 0,
    ensures
        account_names(entries.insert(at, entry)) == account_names(entries),
{
    let longer = entries.insert(at, entry);
    assert forall|name: Seq<char>| account_names(longer).contains(name) == account_names(
        entries,
    ).contains(name) by {
        if account_names(longer).contains(name) {
            let i = choose|i: int|
                0 <= i < longer.len() && record_names((#[trigger] longer[i]).identifiers).contains(
                    name,
                );
            if i < at {
                assert(record_names(entries[i].identifiers).contains(name));
            } else if i > at {
                assert(longer[i] == entries[i - 1]);
                assert(record_names(entries[i - 1].identifiers).contains(name));
            }
        }
        if account_names(entries).contains(name) {
            let i = choose|i: int|
                0 <= i < entries.len() && record_names(
                    (#[trigger] entries[i]).identifiers,
                ).contains(name);
            if i < at {
                assert(record_names(longer[i].identifiers).contains(name));
            } else {
                assert(longer[i + 1] == entries[i]);
                assert(record_names(longer[i + 1].identifiers).contains(name));
            }
        }
    }
    assert(account_names(longer) =~= account_names(entries));
}

} // verus!
