//! Power-off and restart go through the system's `shutdown` program, at once
//! (no elevation needed); sleep and lock are single system calls made by the
//! host.

use vstd::prelude::*;

use crate::text::{owned_strings, string_views};

verus! {

/// Arguments of `shutdown` that power the machine off now.
pub fn shutdown_args() -> (r: Vec<String>)
    ensures
        string_views(r@) == seq!["/s"@, "/t"@, "0"@],
{
    owned_strings(&["/s", "/t", "0"])
}

/// Arguments of `shutdown` that restart the machine now.
pub fn reboot_args() -> (r: Vec<String>)
    ensures
        string_views(r@) == seq!["/r"@, "/t"@, "0"@],
{
    owned_strings(&["/r", "/t", "0"])
}

} // verus!
