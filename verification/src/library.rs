//! The dynamic-library loader, as far as the host relies on it.
//!
//! Nothing in this file is proved. Each item says what the host takes on
//! trust from `libloading` or from the standard library.

use std::sync::Arc;
use vstd::prelude::*;

verus! {

/// `libloading::Library`: the owning handle of a loaded module. Dropping it
/// closes the module. The host only carries such a handle around.
#[verifier::external_type_specification]
#[verifier::external_body]
pub struct ExLibrary(libloading::Library);

/// `libloading::Error`: why a module could not be opened or a symbol in it
/// could not be found. The host only reads its text.
#[verifier::external_type_specification]
#[verifier::external_body]
pub struct ExError(libloading::Error);

/// The text that `libloading::Error`'s `Display` impl writes for `error`.
pub uninterp spec fn error_text(error: libloading::Error) -> Seq<char>;

/// Calls `libloading::Library::new` on `path`. Whether the file opens as a
/// module depends on what is on disk, so nothing is claimed of the outcome.
#[verifier::external_body]
pub(crate) fn open(path: &str) -> (opened: Result<libloading::Library, libloading::Error>) {
    libloading::Library::new(path)
}

/// Formats `error` with the `Display` impl that `libloading` gives it. The
/// impl writes a text that depends on the error value alone; the contract
/// gives that text its name and claims nothing else.
#[verifier::external_body]
pub(crate) fn describe(error: &libloading::Error) -> (text: String)
    ensures
        text@ == error_text(*error),
{
    format!("{}", error)
}

/// Calls `Arc::clone`, which hands out one more pointer to the same
/// allocation: the new handle stands for the same value as the old one.
#[verifier::external_body]
pub(crate) fn share<T>(handle: &Arc<T>) -> (shared: Arc<T>)
    ensures
        shared == *handle,
{
    Arc::clone(handle)
}

} // verus!
