//! Body validation: a body draft is valid when it is blank or parses as
//! syntactically well-formed JSON.

use vstd::prelude::*;

use crate::text::{blank, is_blank};

verus! {

/// Syntactic JSON well-formedness of a string.
pub uninterp spec fn json_wellformed(s: Seq<char>) -> bool;

/// A body draft is valid when it is empty or whitespace-only, and otherwise
/// exactly when it is well-formed JSON.
pub open spec fn body_valid(s: Seq<char>) -> bool {
    blank(s) || json_wellformed(s)
}

/// The validity flag derived from a body draft, recomputed on every edit.
pub fn body_is_valid(s: &str) -> (r: bool)
    ensures
        r == body_valid(s@),
{
    if is_blank(s) {
        true
    } else {
        json_parses(s)
    }
}

/// Relies on `serde_json::from_str::<Value>`: whether a string is accepted
/// as JSON is a function of its characters alone.
#[verifier::external_body]
pub(crate) fn json_parses(s: &str) -> (r: bool)
    ensures
        r == json_wellformed(s@),
{
    serde_json::from_str::<serde_json::Value>(s).is_ok()
}

} // verus!
