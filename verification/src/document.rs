//! TOML documents as plain values.

use vstd::prelude::*;

use crate::text::same_text;

verus! {

/// The value type of the TOML parser.
#[verifier::external_type_specification]
#[verifier::external_body]
pub struct ExTomlValue(toml::Value);

/// A TOML value, reduced to what a configuration source is read for.
#[derive(Debug)]
pub enum TomlValue {
    Text(String),
    Flag(bool),
    List(Vec<TomlValue>),
    Table(Vec<TomlEntry>),
    Other,
}

/// One key of a TOML table, with its value.
#[derive(Debug)]
pub struct TomlEntry {
    pub key: String,
    pub value: TomlValue,
}

/// A TOML value, as sequences.
pub enum TomlView {
    Text(Seq<char>),
    Flag(bool),
    List(Seq<TomlView>),
    Table(Seq<(Seq<char>, TomlView)>),
    Other,
}

/// The view of a TOML value.
pub open spec fn toml_view(value: TomlValue) -> TomlView
    decreases value,
{
    match value {
        TomlValue::Text(text) => TomlView::Text(text@),
        TomlValue::Flag(flag) => TomlView::Flag(flag),
        TomlValue::List(items) => TomlView::List(
            Seq::new(
                items@.len(),
                |i: int|
                    if 0 <= i < items@.len() {
                        toml_view(items@[i])
                    } else {
                        TomlView::Other
                    },
            ),
        ),
        TomlValue::Table(entries) => TomlView::Table(
            Seq::new(
                entries@.len(),
                |i: int|
                    if 0 <= i < entries@.len() {
                        (entries@[i].key@, toml_view(entries@[i].value))
                    } else {
                        (Seq::<char>::empty(), TomlView::Other)
                    },
            ),
        ),
        TomlValue::Other => TomlView::Other,
    }
}

/// The document that the TOML parser reads from a text, or the parser's message.
pub uninterp spec fn toml_document(text: Seq<char>) -> Result<TomlView, Seq<char>>;

/// What a value of the TOML parser holds.
pub uninterp spec fn toml_contents(value: toml::Value) -> TomlView;

/// Takes a value of the TOML parser (`toml::Value`) apart, variant by variant. The contract
/// claims that the plain value holds what the parser's value holds.
#[verifier::external_body]
pub(crate) fn plain_value(value: toml::Value) -> (plain: TomlValue)
    ensures
        toml_view(plain) == toml_contents(value),
{
    match value {
        toml::Value::String(text) => TomlValue::Text(text),
        toml::Value::Boolean(flag) => TomlValue::Flag(flag),
        toml::Value::Array(items) => TomlValue::List(items.into_iter().map(plain_value).collect()),
        toml::Value::Table(table) => TomlValue::Table(
            table
                .into_iter()
                .map(|(key, value)| TomlEntry { key, value: plain_value(value) })
                .collect(),
        ),
        _ => TomlValue::Other,
    }
}

/// Parses a text with `toml::from_str` into a `toml::Value`. The contract claims that the
/// outcome, a value or a message, is a function of the text.
#[verifier::external_body]
pub(crate) fn parse_toml(text: &str) -> (outcome: Result<toml::Value, String>)
    ensures
        match outcome {
            Ok(value) => toml_document(text@) == Ok::<TomlView, Seq<char>>(toml_contents(value)),
            Err(message) => toml_document(text@) == Err::<TomlView, Seq<char>>(message@),
        },
{
    toml::from_str::<toml::Value>(text).map_err(|error| error.to_string())
}

/// Reads a text as a TOML document.
pub fn read_document(text: &str) -> (document: Result<TomlValue, String>)
    ensures
        match document {
            Ok(value) => toml_document(text@) == Ok::<TomlView, Seq<char>>(toml_view(value)),
            Err(message) => toml_document(text@) == Err::<TomlView, Seq<char>>(message@),
        },
{
    match parse_toml(text) {
        Ok(value) => Ok(plain_value(value)),
        Err(message) => Err(message),
    }
}

/// The value of the first entry with this key, at or after `from`.
pub open spec fn entry_from(
    entries: Seq<(Seq<char>, TomlView)>,
    key: Seq<char>,
    from: int,
) -> Option<TomlView>
    decreases entries.len() - from,
{
    if from < 0 || from >= entries.len() {
        None
    } else if entries[from].0 == key {
        Some(entries[from].1)
    } else {
        entry_from(entries, key, from + 1)
    }
}

/// The value under a key, when `value` is a table that has the key.
pub open spec fn entry_of(value: TomlView, key: Seq<char>) -> Option<TomlView> {
    match value {
        TomlView::Table(entries) => entry_from(entries, key, 0),
        _ => None,
    }
}

/// The view of an optional TOML value.
pub open spec fn optional_toml(value: Option<&TomlValue>) -> Option<TomlView> {
    match value {
        Some(found) => Some(toml_view(*found)),
        None => None,
    }
}

/// Finds the value under a key of table entries.
pub fn find_entry<'a>(entries: &'a Vec<TomlEntry>, key: &str) -> (value: Option<&'a TomlValue>)
    ensures
        optional_toml(value) == entry_of(toml_view(TomlValue::Table(*entries)), key@),
{
    let ghost views = toml_view(TomlValue::Table(*entries))->Table_0;
    let mut index: usize = 0;
    while index < entries.len()
        invariant
            index <= entries@.len(),
            views == toml_view(TomlValue::Table(*entries))->Table_0,
            views.len() == entries@.len(),
            entry_from(views, key@, 0) == entry_from(views, key@, index as int),
        decreases entries@.len() - index,
    {
        assert(views[index as int] == (
            entries@[index as int].key@,
            toml_view(entries@[index as int].value),
        ));
        if same_text(entries[index].key.as_str(), key) {
            return Some(&entries[index].value);
        }
        index = index + 1;
    }
    None
}

/// Finds the value under a key, when `value` is a table that has the key.
pub fn get<'a>(value: &'a TomlValue, key: &str) -> (found: Option<&'a TomlValue>)
    ensures
        optional_toml(found) == entry_of(toml_view(*value), key@),
{
    match value {
        TomlValue::Table(entries) => find_entry(entries, key),
        _ => None,
    }
}

} // verus!
