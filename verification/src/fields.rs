//! Checks on the text fields that callers hand in.
use vstd::prelude::*;

use crate::text::{push_str, trim, trim_spec};

verus! {

/// Whether `s` is empty once whitespace is trimmed.
pub open spec fn is_blank(s: Seq<char>) -> bool {
    trim_spec(s).len() == 0
}

/// The error for a missing required field: `<key> is required`.
pub open spec fn required_message(key: Seq<char>) -> Seq<char> {
    key + " is required"@
}

/// The error for a missing argument: `missing <key>`.
pub open spec fn missing_message(key: Seq<char>) -> Seq<char> {
    "missing "@ + key
}

/// A required text field: its trimmed value, or `<key> is required` when
/// nothing but whitespace was given.
pub fn required_non_empty(value: String, key: &str) -> (res: Result<String, String>)
    ensures
        res is Ok <==> !is_blank(value@),
        res matches Ok(v) ==> v@ == trim_spec(value@),
        res matches Err(e) ==> e@ == required_message(key@),
{
    let trimmed = trim(value.as_str());
    if trimmed.as_str().is_empty() {
        let mut e = String::new();
        push_str(&mut e, key);
        push_str(&mut e, " is required");
        assert(e@ =~= required_message(key@));
        Err(e)
    } else {
        Ok(trimmed)
    }
}

/// A required string argument, as given (untrimmed), when it is present and
/// not blank; otherwise `missing <key>`.
pub fn required_string(value: Option<&str>, key: &str) -> (res: Result<String, String>)
    ensures
        res is Ok <==> (value matches Some(v) && !is_blank(v@)),
        res matches Ok(v) ==> v@ == value->Some_0@,
        res matches Err(e) ==> e@ == missing_message(key@),
{
    match value {
        Some(v) => {
            let t = trim(v);
            if !t.as_str().is_empty() {
                return Ok(String::from_str(v));
            }
        },
        None => {},
    }
    let mut e = String::new();
    push_str(&mut e, "missing ");
    push_str(&mut e, key);
    assert(e@ =~= missing_message(key@));
    Err(e)
}

/// A surface is ephemeral unless the caller says otherwise.
pub fn default_ephemeral() -> (res: bool)
    ensures
        res,
{
    true
}

} // verus!
