//! The interception rule as first validated on its own (before the remote's
//! volume, sleep and home keys were added), with Ctrl+Esc also swallowed, and
//! the naming of keyboard messages used in its trace output.

use vstd::prelude::*;

use crate::keyhook::{
    VK_D, VK_ESCAPE, VK_F4, VK_LWIN, VK_RWIN, VK_TAB, WM_KEYDOWN, WM_KEYUP, WM_SYSKEYDOWN,
    WM_SYSKEYUP,
};

verus! {

/// The shortcut that a key stroke makes under this rule, if swallowed.
pub open spec fn probe_intercept(vk: u16, win: bool, alt: bool, ctrl: bool, shift: bool) -> Option<
    Seq<char>,
> {
    if win {
        if vk == VK_D {
            Some("WIN+D"@)
        } else if vk == VK_TAB {
            Some("WIN+TAB"@)
        } else if vk == VK_LWIN || vk == VK_RWIN {
            Some("WIN"@)
        } else {
            None
        }
    } else if alt && vk == VK_F4 {
        Some("ALT+F4"@)
    } else if ctrl && shift && vk == VK_ESCAPE {
        Some("CTRL+SHIFT+ESC"@)
    } else if ctrl && !shift && vk == VK_ESCAPE {
        Some("CTRL+ESC"@)
    } else {
        None
    }
}

/// Classifies a key stroke under this rule.
pub fn classify(vk: u16, win: bool, alt: bool, ctrl: bool, shift: bool) -> (r: Option<
    &'static str,
>)
    ensures
        match r {
            Some(name) => probe_intercept(vk, win, alt, ctrl, shift) == Some(name@),
            None => probe_intercept(vk, win, alt, ctrl, shift) is None,
        },
{
    if win {
        if vk == VK_D {
            Some("WIN+D")
        } else if vk == VK_TAB {
            Some("WIN+TAB")
        } else if vk == VK_LWIN || vk == VK_RWIN {
            Some("WIN")
        } else {
            None
        }
    } else if alt && vk == VK_F4 {
        Some("ALT+F4")
    } else if ctrl && shift && vk == VK_ESCAPE {
        Some("CTRL+SHIFT+ESC")
    } else if ctrl && !shift && vk == VK_ESCAPE {
        Some("CTRL+ESC")
    } else {
        None
    }
}

/// "DOWN" for key-down messages, "UP" for key-up messages, "?" otherwise.
pub open spec fn message_kind(m: u32) -> Seq<char> {
    if m == WM_KEYDOWN || m == WM_SYSKEYDOWN {
        "DOWN"@
    } else if m == WM_KEYUP || m == WM_SYSKEYUP {
        "UP"@
    } else {
        "?"@
    }
}

/// Names the kind of a keyboard message.
pub fn msg_kind(m: u32) -> (r: &'static str)
    ensures
        r@ == message_kind(m),
{
    if m == WM_KEYDOWN || m == WM_SYSKEYDOWN {
        "DOWN"
    } else if m == WM_KEYUP || m == WM_SYSKEYUP {
        "UP"
    } else {
        "?"
    }
}

} // verus!
