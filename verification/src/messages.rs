//! The texts of the host's failures.
//!
//! Every failure while loading a candidate is reported as one line: a fixed
//! phrase that names the stage, then the detail that the stage gave.

use vstd::prelude::*;

verus! {

/// The symbol that every plugin library exports to build its instance.
pub open spec fn entry_symbol_text() -> Seq<char> {
    "_plugin_create"@
}

/// The report for a file that could not be opened as a library.
pub open spec fn open_failure_text(detail: Seq<char>) -> Seq<char> {
    "unable to load plugin: "@ + detail
}

/// The report for a library that does not export the entry symbol.
pub open spec fn symbol_failure_text(detail: Seq<char>) -> Seq<char> {
    "the '_plugin_create' symbol was not found: "@ + detail
}

/// The report for an instance whose load hook failed.
pub open spec fn init_failure_text(detail: Seq<char>) -> Seq<char> {
    "plugin load error: "@ + detail
}

/// The name of the symbol that the host resolves in every plugin library.
pub fn entry_symbol() -> (symbol: &'static str)
    ensures
        symbol@ == entry_symbol_text(),
{
    "_plugin_create"
}

/// Builds the report for a file that could not be opened as a library.
pub fn open_failure(detail: &str) -> (message: String)
    ensures
        message@ == open_failure_text(detail@),
{
    String::from_str("unable to load plugin: ").concat(detail)
}

/// Builds the report for a library that does not export the entry symbol.
pub fn symbol_failure(detail: &str) -> (message: String)
    ensures
        message@ == symbol_failure_text(detail@),
{
    String::from_str("the '_plugin_create' symbol was not found: ").concat(detail)
}

/// Builds the report for an instance whose load hook failed.
pub fn init_failure(detail: &str) -> (message: String)
    ensures
        message@ == init_failure_text(detail@),
{
    String::from_str("plugin load error: ").concat(detail)
}

} // verus!
