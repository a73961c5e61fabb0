//! Types of the `git2` crate that pass through the library unopened.

use vstd::prelude::*;

verus! {

/// The error type of `git2`. It passes through the library unopened:
/// nothing is claimed of what it holds.
#[verifier::external_type_specification]
#[verifier::external_body]
pub struct ExGitError(git2::Error);

} // verus!
