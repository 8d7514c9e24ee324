//! Resolution of filesystem paths, as far as it is decided by the library.
use vstd::prelude::*;
use vstd::string::*;
use crate::errors::MaggError;

verus! {

pub open spec fn canonicalize_message(path: Seq<char>, reason: Seq<char>) -> Seq<char> {
    "failed to canonicalize path: "@ + path + ", reason: "@ + reason
}

/// Turns the operating system's answer on resolving `path` (the absolute
/// path, or the reason it could not be resolved) into the library's result.
pub fn canonicalize(path: &str, resolved: Result<String, String>) -> (r: Result<String, MaggError>)
    ensures
        match resolved {
            Ok(p) => r matches Ok(q) && q@ == p@,
            Err(reason) => r matches Err(e) && e@ == canonicalize_message(path@, reason@),
        },
{
    match resolved {
        Ok(p) => Ok(p),
        Err(reason) => Err(
            MaggError::from_message(
                String::from_str("failed to canonicalize path: ").concat(path).concat(", reason: ").concat(
                    reason.as_str(),
                ),
            ),
        ),
    }
}

} // verus!
