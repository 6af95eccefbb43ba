//! The workspace root that the file-reading extensions are confined to.
use vstd::prelude::*;
use crate::text::{chars_of, trim, trim_chars, string_of, owned};
use crate::paths::is_absolute;

verus! {

/// What `IMPETUS_WORKSPACE_ROOT` must look like before it is canonicalized: set,
/// non-blank, absolute once trimmed. The result is the trimmed value.
pub open spec fn workspace_root_spec(raw: Option<Seq<char>>) -> Result<Seq<char>, Seq<char>> {
    match raw {
        None => Err("IMPETUS_WORKSPACE_ROOT is required"@),
        Some(r) => {
            let t = trim(r);
            if t.len() == 0 {
                Err("IMPETUS_WORKSPACE_ROOT must be non-empty"@)
            } else if !is_absolute(t) {
                Err("IMPETUS_WORKSPACE_ROOT must be an absolute path"@)
            } else {
                Ok(t)
            }
        },
    }
}

pub open spec fn str_result(r: Result<String, String>) -> Result<Seq<char>, Seq<char>> {
    match r {
        Ok(s) => Ok(s@),
        Err(e) => Err(e@),
    }
}

/// Checks the raw value of `IMPETUS_WORKSPACE_ROOT` (`None` when unset) and
/// returns it trimmed.
pub fn workspace_root_candidate(raw: Option<&str>) -> (r: Result<String, String>)
    ensures
        str_result(r) == workspace_root_spec(match raw { Some(s) => Some(s@), None => None }),
{
    match raw {
        None => Err(owned("IMPETUS_WORKSPACE_ROOT is required")),
        Some(r) => {
            let c = chars_of(r);
            let t = trim_chars(c.as_slice());
            if t.len() == 0 {
                Err(owned("IMPETUS_WORKSPACE_ROOT must be non-empty"))
            } else if t[0] != '/' {
                Err(owned("IMPETUS_WORKSPACE_ROOT must be an absolute path"))
            } else {
                Ok(string_of(t.as_slice()))
            }
        },
    }
}

/// The error when the canonical workspace root is not a directory.
pub fn not_a_directory() -> (r: String)
    ensures
        r@ == "IMPETUS_WORKSPACE_ROOT is not a directory"@,
{
    owned("IMPETUS_WORKSPACE_ROOT is not a directory")
}

} // verus!
