//! The failure taxonomy shared by every operation.  Each operation's
//! contract states exactly which inputs produce which variant; on any
//! error the operation leaves the store untouched.

use vstd::prelude::*;

verus! {

#[derive(Clone, Copy, Debug, PartialEq, Eq, Structural)]
pub enum FsError {
    /// A path, parent folder, or account that does not resolve.
    NotFound,
    /// A name collision at a create or move destination.
    AlreadyExists,
    /// The caller fails an ownership or allow-list check.
    Unauthorized,
    /// A viewing key that does not match, reported identically whether the
    /// account is missing or the token is wrong.
    InvalidCredential,
    /// Empty path segments, mismatched list lengths, or an unusable target.
    MalformedInput,
}

} // verus!
