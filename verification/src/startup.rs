//! Auto-launch registration support.
//!
//! Registering the program to run at user login is a startup-only,
//! best-effort side effect performed outside this library: a shortcut
//! to the program's binary is placed in the platform's startup folder.
//! The library's part is the name of that shortcut file.

use vstd::prelude::*;

verus! {

/// File name of the auto-launch shortcut for the given display name:
/// the display name with the shortcut extension appended.
pub fn shortcut_file_name(display_name: &str) -> (r: String)
    ensures
        r@ == display_name@ + ".lnk"@,
{
    let mut r = display_name.to_owned();
    r.append(".lnk");
    r
}

} // verus!
