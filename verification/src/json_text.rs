//! Reading a schema document with the `serde_json` crate.
//!
//! The crate's parser is not verified here. This module states what is taken
//! on trust about it and turns its result into a [`Member`] list.

use crate::document::strings_view;
use indexmap::IndexMap;
use vstd::prelude::*;

verus! {

/// A value as the `serde_json` crate represents it.
#[verifier::external_type_specification]
#[verifier::external_body]
pub struct ExJsonValue(serde_json::Value);

/// The error with which the `serde_json` crate rejects a text.
#[verifier::external_type_specification]
#[verifier::external_body]
pub struct ExJsonError(serde_json::Error);

/// A member of a JSON object: its name and, where its value is an object in
/// turn, the names of that object's members in the order in which they stand.
#[derive(Debug, PartialEq, Eq)]
pub struct Member {
    pub name: String,
    pub keys: Option<Vec<String>>,
}

/// Mathematical content of a [`Member`].
pub struct MemberView {
    pub name: Seq<char>,
    pub keys: Option<Seq<Seq<char>>>,
}

impl View for Member {
    type V = MemberView;

    open spec fn view(&self) -> MemberView {
        MemberView {
            name: self.name@,
            keys: match self.keys {
                Some(keys) => Some(strings_view(keys@)),
                None => None,
            },
        }
    }
}

/// Contents of a list of members.
pub open spec fn members_view(members: Seq<Member>) -> Seq<MemberView> {
    members.map_values(|member: Member| member@)
}

/// What `serde_json::from_str` makes of a text that is to be a JSON object:
/// its members in the order in which their names first appear, or the
/// rendered error.
pub uninterp spec fn json_object(text: Seq<char>) -> Result<Seq<MemberView>, Seq<char>>;

/// The member names of a `serde_json::Value` that is an object, in the
/// order in which the value holds them; `None` for any other value.
pub uninterp spec fn json_member_names(value: serde_json::Value) -> Option<Seq<Seq<char>>>;

/// The rendering of a `serde_json::Error` by its `Display` implementation.
pub uninterp spec fn json_error_text(error: serde_json::Error) -> Seq<char>;

/// The member that a parsed entry stands for.
pub open spec fn entry_view(entry: (String, serde_json::Value)) -> MemberView {
    MemberView { name: entry.0@, keys: json_member_names(entry.1) }
}

/// Calls `serde_json::from_str` with an `IndexMap<String, serde_json::Value>`
/// as the target, so that the members come back in document order. Trusted:
/// the outcome is a function of the text alone, named [`json_object`].
#[verifier::external_body]
fn parse_entries(text: &str) -> (parsed: Result<
    Vec<(String, serde_json::Value)>,
    serde_json::Error,
>)
    ensures
        match parsed {
            Ok(entries) => json_object(text@) == Ok::<Seq<MemberView>, Seq<char>>(
                entries@.map_values(|entry: (String, serde_json::Value)| entry_view(entry)),
            ),
            Err(error) => json_object(text@) == Err::<Seq<MemberView>, Seq<char>>(
                json_error_text(error),
            ),
        },
{
    let object: IndexMap<String, serde_json::Value> = serde_json::from_str(text)?;
    Ok(object.into_iter().collect())
}

/// Calls `as_object` on a `serde_json::Value` and `keys` on the map that it
/// gives. Trusted: the names are those that the value holds, in its order,
/// named [`json_member_names`].
#[verifier::external_body]
fn member_names(value: &serde_json::Value) -> (names: Option<Vec<String>>)
    ensures
        match names {
            Some(list) => json_member_names(*value) == Some(strings_view(list@)),
            None => json_member_names(*value) is None,
        },
{
    value.as_object().map(|members| members.keys().cloned().collect())
}

/// Calls `to_string` on a `serde_json::Error`. Trusted: the text is the
/// error's rendering, named [`json_error_text`].
#[verifier::external_body]
fn error_text(error: &serde_json::Error) -> (text: String)
    ensures
        text@ == json_error_text(*error),
{
    error.to_string()
}

/// Parses a JSON object into its members, in document order.
///
/// Fails with the parser's message when the text is not a JSON object.
pub fn parse_object(text: &str) -> (parsed: Result<Vec<Member>, String>)
    ensures
        match parsed {
            Ok(members) => json_object(text@) == Ok::<Seq<MemberView>, Seq<char>>(
                members_view(members@),
            ),
            Err(message) => json_object(text@) == Err::<Seq<MemberView>, Seq<char>>(message@),
        },
{
    match parse_entries(text) {
        Err(error) => Err(error_text(&error)),
        Ok(entries) => {
            let ghost all = entries@;
            let mut members: Vec<Member> = Vec::new();
            for entry in it: entries
                invariant
                    it.seq() == all,
                    members.len() == it.index(),
                    forall|j: int| 0 <= j < members.len() ==> members@[j]@ == entry_view(all[j]),
            {
                let (name, value) = entry;
                let keys = member_names(&value);
                members.push(Member { name, keys });
            }
            assert(members_view(members@) =~= all.map_values(
                |entry: (String, serde_json::Value)| entry_view(entry),
            ));
            Ok(members)
        },
    }
}

} // verus!
