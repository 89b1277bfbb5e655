//! TOML documents, as far as a fragment reads them.
//!
//! The text of a fragment is parsed by the `toml` crate. Its tables and values
//! are opaque here; what the fragment decoder reads of them is modelled by
//! [`Item`] and reached through the trusted functions of this module, none of
//! which is verified against the crate's code.

use vstd::prelude::*;

verus! {

/// `toml::map::Map`, the table type of the `toml` crate.
#[verifier::external_type_specification]
#[verifier::external_body]
#[verifier::reject_recursive_types(K)]
#[verifier::reject_recursive_types(V)]
pub struct ExTomlMap<K, V>(toml::map::Map<K, V>);

/// `toml::Value`, one value of a document.
#[verifier::external_type_specification]
#[verifier::external_body]
pub struct ExTomlValue(toml::Value);

/// `toml::de::Error`, the reason a text was refused.
#[verifier::external_type_specification]
#[verifier::external_body]
pub struct ExTomlError(toml::de::Error);

/// What a fragment reads of a value: its text if it is a string, its elements
/// if it is an array, and otherwise only that it is neither.
pub enum Item {
    Text(Seq<char>),
    List(Seq<Item>),
    Other,
}

/// The entries of a table, by key.
pub type Entries = Map<Seq<char>, Item>;

/// The top-level table that `toml::from_str` reads from a text, or `None`
/// where it refuses the text.
pub uninterp spec fn document_of(text: Seq<char>) -> Option<Entries>;

/// What a table holds.
pub uninterp spec fn table_entries(table: toml::map::Map<String, toml::Value>) -> Entries;

/// What a value holds.
pub uninterp spec fn value_item(value: toml::Value) -> Item;

/// The items of a sequence of values.
pub open spec fn value_items(values: Seq<toml::Value>) -> Seq<Item> {
    values.map_values(|v: toml::Value| value_item(v))
}

/// Calls `toml::from_str` to read `text` as a document, that is as its
/// top-level table. Trusted: the call succeeds exactly on the texts for which
/// `document_of` is defined, and the table it returns holds those entries.
#[verifier::external_body]
pub(crate) fn parse_document(text: &str) -> (parsed: Result<
    toml::map::Map<String, toml::Value>,
    toml::de::Error,
>)
    ensures
        parsed is Ok <==> document_of(text@) is Some,
        parsed matches Ok(table) ==> Some(table_entries(table)) == document_of(text@),
{
    toml::from_str::<toml::map::Map<String, toml::Value>>(text)
}

/// Calls `toml::map::Map::get` to look `key` up in `table`. Trusted: a value
/// comes back exactly where the table has an entry under that key, and it is
/// that entry.
#[verifier::external_body]
pub(crate) fn table_get<'a>(table: &'a toml::map::Map<String, toml::Value>, key: &str) -> (found:
    Option<&'a toml::Value>)
    ensures
        found is Some <==> table_entries(*table).contains_key(key@),
        found matches Some(value) ==> value_item(*value) == table_entries(*table)[key@],
{
    table.get(key)
}

/// Calls `toml::Value::as_array`. Trusted: the elements come back exactly
/// where the value is an array, in the array's order.
#[verifier::external_body]
pub(crate) fn value_as_array(value: &toml::Value) -> (elements: Option<&Vec<toml::Value>>)
    ensures
        elements is Some <==> value_item(*value) is List,
        elements matches Some(list) ==> value_item(*value) == Item::List(value_items(list@)),
{
    value.as_array()
}

/// Calls `toml::Value::as_str`. Trusted: the text comes back exactly where the
/// value is a string, and it is the string's text.
#[verifier::external_body]
pub(crate) fn value_as_str(value: &toml::Value) -> (text: Option<&str>)
    ensures
        text is Some <==> value_item(*value) is Text,
        text matches Some(s) ==> value_item(*value) == Item::Text(s@),
{
    value.as_str()
}

} // verus!
