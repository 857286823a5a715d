//! Host facilities reached through trusted declarations: random
//! identifiers, executable lookup, and file presence.  Each wrapper
//! makes one outside call and converts the result to a plain value; nothing
//! here is verified beyond what the named crate documents.

use vstd::prelude::*;

verus! {

/// Relies on uuid::Uuid::new_v4 and its Display impl: a fresh random
/// identifier rendered in the hyphenated form, which is always 36 characters
/// of ASCII hex digits and hyphens.  The value itself is random, so only its
/// shape is stated.
#[verifier::external_body]
pub(crate) fn random_identifier() -> (r: String)
    ensures
        r@.len() == 36,
{
    uuid::Uuid::new_v4().to_string()
}

/// Relies on which::which: whether an executable of that name is found on
/// the search path.  The answer depends on the machine, so nothing is
/// promised of it.
#[verifier::external_body]
pub(crate) fn executable_on_path(name: &str) -> (r: bool) {
    which::which(name).is_ok()
}

/// Relies on std::path::Path::exists: whether the path names an existing
/// file or directory.  The answer depends on the disk, so nothing is
/// promised of it.
#[verifier::external_body]
pub(crate) fn path_exists(path: &str) -> (r: bool) {
    std::path::Path::new(path).exists()
}

} // verus!
