//! The default configuration document.
//!
//! When no configuration file exists at startup, the embedding writes
//! this document before loading, so a run always has a document to
//! read. Its two example entries name placeholder paths that do not
//! exist; spawning them legitimately fails and is logged as such.

use vstd::prelude::*;

verus! {

/// The exact text of the default configuration document: a `process`
/// table with the two documented example entries.
pub open spec fn spec_default_config_text() -> Seq<char> {
    "[process.example]\npath = 'C:\\Example\\Path\\To\\file.exe'\nargs = \"-e -x -a -m -p -l -e\"\nhide = false\n\n[process.another_example]\npath = 'C:\\Example2\\Path\\To\\file.exe'\nargs = \"\"\nhide = true"@
}

/// The default configuration document to write when none exists.
pub fn default_config_text() -> (r: &'static str)
    ensures
        r@ == spec_default_config_text(),
{
    "[process.example]\npath = 'C:\\Example\\Path\\To\\file.exe'\nargs = \"-e -x -a -m -p -l -e\"\nhide = false\n\n[process.another_example]\npath = 'C:\\Example2\\Path\\To\\file.exe'\nargs = \"\"\nhide = true"
}

} // verus!
