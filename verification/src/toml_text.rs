//! Reading record text with the `toml` crate.
//!
//! The crate's parser is not verified here. This module states what is taken
//! on trust about it and turns its result into a [`Field`] list.

use crate::document::fields_view;
use crate::document::Field;
use crate::document::FieldView;
use crate::document::Item;
use crate::document::ItemView;
use indexmap::IndexMap;
use vstd::prelude::*;

verus! {

/// A value as the `toml` crate represents it.
#[verifier::external_type_specification]
#[verifier::external_body]
pub struct ExTomlValue(toml::Value);

/// The error with which the `toml` crate rejects a text.
#[verifier::external_type_specification]
#[verifier::external_body]
pub struct ExTomlError(toml::de::Error);

/// What `toml::from_str` makes of a text: the top-level fields in the order
/// in which their keys first appear, or the rendered error.
pub uninterp spec fn toml_document(text: Seq<char>) -> Result<Seq<FieldView>, Seq<char>>;

/// The content of a `toml::Value`.
pub uninterp spec fn toml_item(value: toml::Value) -> ItemView;

/// The rendering of a `toml::de::Error` by its `Display` implementation.
pub uninterp spec fn toml_error_text(error: toml::de::Error) -> Seq<char>;

/// The field that a parsed top-level entry stands for.
pub open spec fn entry_view(entry: (String, toml::Value)) -> FieldView {
    FieldView { name: entry.0@, value: toml_item(entry.1) }
}

/// Calls `toml::from_str` with an `IndexMap<String, toml::Value>` as the
/// target, so that the entries come back in document order. Trusted: the
/// outcome is a function of the text alone, named [`toml_document`].
#[verifier::external_body]
fn parse_entries(text: &str) -> (parsed: Result<Vec<(String, toml::Value)>, toml::de::Error>)
    ensures
        match parsed {
            Ok(entries) => toml_document(text@) == Ok::<Seq<FieldView>, Seq<char>>(
                entries@.map_values(|entry: (String, toml::Value)| entry_view(entry)),
            ),
            Err(error) => toml_document(text@) == Err::<Seq<FieldView>, Seq<char>>(
                toml_error_text(error),
            ),
        },
{
    let table: IndexMap<String, toml::Value> = toml::from_str(text)?;
    Ok(table.into_iter().collect())
}

/// Moves a `toml::Value` into an [`Item`], variant by variant. Trusted: the
/// item's content is the value's content, named [`toml_item`].
#[verifier::external_body]
fn item_from_toml(value: toml::Value) -> (item: Item)
    ensures
        item@ == toml_item(value),
{
    match value {
        toml::Value::String(s) => Item::Text(s),
        toml::Value::Integer(i) => Item::Integer(i),
        toml::Value::Float(x) => Item::Float(x.to_bits()),
        toml::Value::Boolean(b) => Item::Boolean(b),
        toml::Value::Datetime(d) => Item::Datetime(d.to_string()),
        toml::Value::Array(a) => Item::Array(a.into_iter().map(item_from_toml).collect()),
        toml::Value::Table(t) => Item::Table(
            t.into_iter().map(|(name, v)| Field { name, value: item_from_toml(v) }).collect(),
        ),
    }
}

/// Calls `to_string` on a `toml::de::Error`. Trusted: the text is the
/// error's rendering, named [`toml_error_text`].
#[verifier::external_body]
fn error_text(error: &toml::de::Error) -> (text: String)
    ensures
        text@ == toml_error_text(*error),
{
    error.to_string()
}

/// Parses a record text into its top-level fields, in document order.
///
/// Fails with the parser's message when the text is not valid TOML.
pub fn parse_document(text: &str) -> (parsed: Result<Vec<Field>, String>)
    ensures
        match parsed {
            Ok(fields) => toml_document(text@) == Ok::<Seq<FieldView>, Seq<char>>(
                fields_view(fields@),
            ),
            Err(message) => toml_document(text@) == Err::<Seq<FieldView>, Seq<char>>(message@),
        },
{
    match parse_entries(text) {
        Err(error) => Err(error_text(&error)),
        Ok(entries) => {
            let ghost all = entries@;
            let mut fields: Vec<Field> = Vec::new();
            for entry in it: entries
                invariant
                    it.seq() == all,
                    fields.len() == it.index(),
                    forall|j: int| 0 <= j < fields.len() ==> fields@[j]@ == entry_view(all[j]),
            {
                let (name, value) = entry;
                fields.push(Field { name, value: item_from_toml(value) });
            }
            assert(fields_view(fields@) =~= all.map_values(
                |entry: (String, toml::Value)| entry_view(entry),
            ));
            Ok(fields)
        },
    }
}

} // verus!
