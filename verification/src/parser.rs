//! Reads a collection of relationship entries from JSON text.
//!
//! A collection is either a JSON array of entries, or a JSON object that
//! holds such an array under `relationships_following`. An entry is an
//! object with a string `title` and an array `string_list_data`; each of
//! its elements is an object with strings `href` and `value` and an
//! integer `timestamp`. Other members are passed over.

use crate::error::{AnalysisError, Failure, InputBlob};
use crate::json::{
    error_to_string, json_document, json_of, jsons_of, parse_json, value_as_array, value_as_i64,
    value_as_str, value_member, Json,
};
use crate::records::{
    Entry, FollowerEntry, FollowingData, IdentifierRecord, RelationshipCollection, StringListData,
};
use vstd::prelude::*;

verus! {

/// The text of the string member `key` of `value`.
pub open spec fn text_member(value: Json, key: Seq<char>) -> Option<Seq<char>> {
    match value.member(key) {
        Some(inner) => inner.text(),
        None => None,
    }
}

/// The number of the integer member `key` of `value`.
pub open spec fn integer_member(value: Json, key: Seq<char>) -> Option<i64> {
    match value.member(key) {
        Some(inner) => inner.integer(),
        None => None,
    }
}

/// The elements of the array member `key` of `value`.
pub open spec fn list_member(value: Json, key: Seq<char>) -> Option<Seq<Json>> {
    match value.member(key) {
        Some(inner) => inner.items(),
        None => None,
    }
}

/// The identifier record that `value` stands for, if it has the shape of one.
pub open spec fn decoded_identifier(value: Json) -> Option<IdentifierRecord> {
    match (
        text_member(value, "href"@),
        text_member(value, "value"@),
        integer_member(value, "timestamp"@),
    ) {
        (Some(href), Some(name), Some(at)) => Some(
            IdentifierRecord { reference_url: href, account_name: name, recorded_at: at },
        ),
        _ => None,
    }
}

/// The identifier records that `items` stand for, if each has the shape of one.
pub open spec fn decoded_identifiers(items: Seq<Json>) -> Option<Seq<IdentifierRecord>> {
    if forall|i: int| 0 <= i < items.len() ==> (#[trigger] decoded_identifier(items[i])) is Some {
        Some(Seq::new(items.len(), |i: int| decoded_identifier(items[i]).unwrap()))
    } else {
        None
    }
}

/// The entry that `value` stands for, if it has the shape of one.
pub open spec fn decoded_entry(value: Json) -> Option<Entry> {
    match (text_member(value, "title"@), list_member(value, "string_list_data"@)) {
        (Some(label), Some(items)) => match decoded_identifiers(items) {
            Some(identifiers) => Some(Entry { label, identifiers }),
            None => None,
        },
        _ => None,
    }
}

/// The entries that `items` stand for, if each has the shape of one.
pub open spec fn decoded_entries(items: Seq<Json>) -> Option<Seq<Entry>> {
    if forall|i: int| 0 <= i < items.len() ==> (#[trigger] decoded_entry(items[i])) is Some {
        Some(Seq::new(items.len(), |i: int| decoded_entry(items[i]).unwrap()))
    } else {
        None
    }
}

/// Whether `document` holds its entries under the wrapper field.
pub open spec fn is_wrapped(document: Json) -> bool {
    document.member("relationships_following"@) is Some
}

/// The elements of the collection in `document`: those under the wrapper
/// field where there is one, else those of the document itself.
pub open spec fn collection_items(document: Json) -> Option<Seq<Json>> {
    match document.member("relationships_following"@) {
        Some(inner) => inner.items(),
        None => document.items(),
    }
}

/// The entries that `document` stands for, if it has the shape of a collection.
pub open spec fn decoded_collection(document: Json) -> Option<Seq<Entry>> {
    match collection_items(document) {
        Some(items) => decoded_entries(items),
        None => None,
    }
}

/// An object without the wrapper field is no collection.
pub proof fn lemma_object_without_wrapper_field(members: Map<Seq<char>, Json>)
    requires
        !members.contains_key("relationships_following"@),
    ensures
        decoded_collection(Json::Object(members)) is None,
{
}

/// A document that is neither an array nor an object is no collection.
pub proof fn lemma_scalar_document(document: Json)
    requires
        !(document is Array),
        !(document is Object),
    ensures
        decoded_collection(document) is None,
{
}

/// The two forms of a collection hold the same entries.
pub proof fn lemma_forms_agree(items: Seq<Json>, members: Map<Seq<char>, Json>)
    requires
        members.contains_key("relationships_following"@),
        members["relationships_following"@] == Json::Array(items),
    ensures
        decoded_collection(Json::Object(members)) == decoded_collection(Json::Array(items)),
        is_wrapped(Json::Object(members)),
        !is_wrapped(Json::Array(items)),
{
}

/// An empty array is a collection without entries.
pub proof fn lemma_empty_collection()
    ensures
        decoded_collection(Json::Array(Seq::empty())) == Some(Seq::<Entry>::empty()),
{
    let entries = decoded_collection(Json::Array(Seq::empty()));
    assert(entries is Some);
    assert(entries->Some_0 =~= Seq::<Entry>::empty());
}

/// An entry whose list of identifier records is empty is valid, and has none.
pub proof fn lemma_entry_without_identifiers(members: Map<Seq<char>, Json>, label: Seq<char>)
    requires
        members.contains_key("title"@),
        members["title"@] == Json::Text(label),
        members.contains_key("string_list_data"@),
        members["string_list_data"@] == Json::Array(Seq::empty()),
    ensures
        decoded_entry(Json::Object(members)) == Some(
            Entry { label, identifiers: Seq::<IdentifierRecord>::empty() },
        ),
{
    let identifiers = decoded_identifiers(Seq::empty());
    assert(identifiers is Some);
    assert(identifiers->Some_0 =~= Seq::<IdentifierRecord>::empty());
}

/// A member that the shape of an identifier record does not name changes
/// nothing.
pub proof fn lemma_identifier_passes_over_members(
    members: Map<Seq<char>, Json>,
    key: Seq<char>,
    extra: Json,
)
    requires
        key != "href"@,
        key != "value"@,
        key != "timestamp"@,
    ensures
        decoded_identifier(Json::Object(members.insert(key, extra))) == decoded_identifier(
            Json::Object(members),
        ),
{
}

/// A member that the shape of an entry does not name changes nothing.
pub proof fn lemma_entry_passes_over_members(
    members: Map<Seq<char>, Json>,
    key: Seq<char>,
    extra: Json,
)
    requires
        key != "title"@,
        key != "string_list_data"@,
    ensures
        decoded_entry(Json::Object(members.insert(key, extra))) == decoded_entry(
            Json::Object(members),
        ),
{
}

/// A member beside the wrapper field changes nothing.
pub proof fn lemma_wrapper_passes_over_members(
    members: Map<Seq<char>, Json>,
    key: Seq<char>,
    extra: Json,
)
    requires
        key != "relationships_following"@,
    ensures
        decoded_collection(Json::Object(members.insert(key, extra))) == decoded_collection(
            Json::Object(members),
        ),
{
}

/// Reads one identifier record.
fn decode_identifier(value: &serde_json::Value) -> (record: Option<StringListData>)
    ensures
        match record {
            Some(data) => decoded_identifier(json_of(*value)) == Some(data.deep_view()),
            None => decoded_identifier(json_of(*value)) is None,
        },
{
    let href = match value_member(value, "href") {
        Some(inner) => value_as_str(inner),
        None => None,
    };
    let name = match value_member(value, "value") {
        Some(inner) => value_as_str(inner),
        None => None,
    };
    let at = match value_member(value, "timestamp") {
        Some(inner) => value_as_i64(inner),
        None => None,
    };
    match (href, name, at) {
        (Some(href), Some(name), Some(at)) => Some(
            StringListData { href: href.to_owned(), value: name.to_owned(), timestamp: at },
        ),
        _ => None,
    }
}

/// Reads the identifier records of one entry.
fn decode_identifiers(items: &Vec<serde_json::Value>) -> (records: Option<Vec<StringListData>>)
    ensures
        match records {
            Some(list) => decoded_identifiers(jsons_of(items@)) == Some(list.deep_view()),
            None => decoded_identifiers(jsons_of(items@)) is None,
        },
{
    let mut list: Vec<StringListData> = Vec::new();
    let mut i: usize = 0;
    while i < items.len()
        invariant
            i <= items.len(),
            list.len() == i,
            forall|k: int|
                0 <= k < i ==> decoded_identifier(#[trigger] jsons_of(items@)[k]) == Some(
                    list@[k].deep_view(),
                ),
        decreases items.len() - i,
    {
        assert(jsons_of(items@)[i as int] == json_of(items@[i as int]));
        match decode_identifier(&items[i]) {
            Some(data) => {
                list.push(data);
            },
            None => {
                return None;
            },
        }
        i = i + 1;
    }
    assert(list.deep_view() =~= decoded_identifiers(jsons_of(items@)).unwrap());
    Some(list)
}

/// Reads one entry.
fn decode_entry(value: &serde_json::Value) -> (entry: Option<FollowerEntry>)
    ensures
        match entry {
            Some(e) => decoded_entry(json_of(*value)) == Some(e.deep_view()),
            None => decoded_entry(json_of(*value)) is None,
        },
{
    let label = match value_member(value, "title") {
        Some(inner) => value_as_str(inner),
        None => None,
    };
    let items = match value_member(value, "string_list_data") {
        Some(inner) => value_as_array(inner),
        None => None,
    };
    match (label, items) {
        (Some(label), Some(items)) => match decode_identifiers(items) {
            Some(list) => Some(FollowerEntry { title: label.to_owned(), string_list_data: list }),
            None => None,
        },
        _ => None,
    }
}

/// Reads the entries of a collection.
fn decode_entries(items: &Vec<serde_json::Value>) -> (entries: Option<Vec<FollowerEntry>>)
    ensures
        match entries {
            Some(list) => decoded_entries(jsons_of(items@)) == Some(list.deep_view()),
            None => decoded_entries(jsons_of(items@)) is None,
        },
{
    let mut list: Vec<FollowerEntry> = Vec::new();
    let mut i: usize = 0;
    while i < items.len()
        invariant
            i <= items.len(),
            list.len() == i,
            forall|k: int|
                0 <= k < i ==> decoded_entry(#[trigger] jsons_of(items@)[k]) == Some(
                    list@[k].deep_view(),
                ),
        decreases items.len() - i,
    {
        assert(jsons_of(items@)[i as int] == json_of(items@[i as int]));
        match decode_entry(&items[i]) {
            Some(entry) => {
                list.push(entry);
            },
            None => {
                return None;
            },
        }
        i = i + 1;
    }
    assert(list.deep_view() =~= decoded_entries(jsons_of(items@)).unwrap());
    Some(list)
}

/// Reads a collection of entries from a parsed document, in either of its
/// two forms. The result is `Ok` exactly when the document has the shape
/// of a collection, and then holds its entries in the document's form;
/// otherwise it is `UnexpectedShape` for `blob`.
pub fn decode_collection(blob: InputBlob, document: &serde_json::Value) -> (outcome: Result<
    RelationshipCollection,
    AnalysisError,
>)
    ensures
        match outcome {
            Ok(collection) => {
                &&& decoded_collection(json_of(*document)) == Some(collection.deep_view())
                &&& collection is Wrapped <==> is_wrapped(json_of(*document))
            },
            Err(error) => {
                &&& decoded_collection(json_of(*document)) is None
                &&& error.deep_view() == (Failure::UnexpectedShape { blob })
            },
        },
{
    match value_member(document, "relationships_following") {
        Some(inner) => {
            let entries = match value_as_array(inner) {
                Some(items) => decode_entries(items),
                None => None,
            };
            match entries {
                Some(list) => Ok(
                    RelationshipCollection::Wrapped(FollowingData { relationships_following: list }),
                ),
                None => Err(AnalysisError::UnexpectedShape { blob }),
            }
        },
        None => {
            let entries = match value_as_array(document) {
                Some(items) => decode_entries(items),
                None => None,
            };
            match entries {
                Some(list) => Ok(RelationshipCollection::Bare(list)),
                None => Err(AnalysisError::UnexpectedShape { blob }),
            }
        },
    }
}

/// What reading `text` as the collection `blob` comes to: text that is no
/// JSON is malformed, JSON that is no collection has an unexpected shape,
/// and every other text gives its entries.
pub open spec fn parsed_collection(blob: InputBlob, text: Seq<char>) -> Result<Seq<Entry>, Failure> {
    match json_document(text) {
        Ok(document) => match decoded_collection(document) {
            Some(entries) => Ok(entries),
            None => Err(Failure::UnexpectedShape { blob }),
        },
        Err(detail) => Err(Failure::MalformedInput { blob, detail }),
    }
}

/// Reads the collection `blob` from JSON text, in either of its two forms.
pub fn parse_relationships(blob: InputBlob, text: &str) -> (outcome: Result<
    RelationshipCollection,
    AnalysisError,
>)
    ensures
        match outcome {
            Ok(collection) => {
                &&& parsed_collection(blob, text@) == Ok::<Seq<Entry>, Failure>(
                    collection.deep_view(),
                )
                &&& collection is Wrapped <==> is_wrapped(json_document(text@)->Ok_0)
            },
            Err(error) => parsed_collection(blob, text@) == Err::<Seq<Entry>, Failure>(
                error.deep_view(),
            ),
        },
{
    match parse_json(text) {
        Ok(document) => decode_collection(blob, &document),
        Err(error) => Err(AnalysisError::MalformedInput { blob, detail: error_to_string(&error) }),
    }
}

} // verus!
