//! Unified semantic keys: every physical source (remote, IR receiver,
//! air mouse, gamepad, keyboard) is folded into one `Action` vocabulary.

use vstd::prelude::*;

verus! {

/// Semantic key consumed by the front end, independent of the physical device.
#[derive(Debug, Clone, Copy, PartialEq, Eq)]
pub enum Action {
    Up,
    Down,
    Left,
    Right,
    Confirm,
    Back,
    Menu,
    VolUp,
    VolDown,
    Power,
}

/// The name of each semantic key.
pub open spec fn action_name(a: Action) -> Seq<char> {
    match a {
        Action::Up => "Up"@,
        Action::Down => "Down"@,
        Action::Left => "Left"@,
        Action::Right => "Right"@,
        Action::Confirm => "Ok"@,
        Action::Back => "Back"@,
        Action::Menu => "Menu"@,
        Action::VolUp => "VolUp"@,
        Action::VolDown => "VolDown"@,
        Action::Power => "Power"@,
    }
}

impl Action {
    /// The name of this key, as shown in logs and test output.
    pub fn as_str(&self) -> (s: &'static str)
        ensures
            s@ == action_name(*self),
    {
        match self {
            Action::Up => "Up",
            Action::Down => "Down",
            Action::Left => "Left",
            Action::Right => "Right",
            Action::Confirm => "Ok",
            Action::Back => "Back",
            Action::Menu => "Menu",
            Action::VolUp => "VolUp",
            Action::VolDown => "VolDown",
            Action::Power => "Power",
        }
    }
}

/// Windows virtual-key codes of the keys that map onto semantic keys.
pub const VK_BACK: u16 = 0x08;
pub const VK_RETURN: u16 = 0x0d;
pub const VK_ESCAPE: u16 = 0x1b;
pub const VK_PRIOR: u16 = 0x21;
pub const VK_NEXT: u16 = 0x22;
pub const VK_LEFT: u16 = 0x25;
pub const VK_UP: u16 = 0x26;
pub const VK_RIGHT: u16 = 0x27;
pub const VK_DOWN: u16 = 0x28;
pub const VK_A: u16 = 0x41;
pub const VK_D: u16 = 0x44;
pub const VK_S: u16 = 0x53;
pub const VK_W: u16 = 0x57;
pub const VK_F1: u16 = 0x70;

/// Keyboard (and remote, IR, air mouse) key to semantic key: arrows and WASD
/// move, Enter confirms, Backspace and Esc go back, F1 opens the menu, Page
/// Up / Page Down change the volume.
pub open spec fn key_action_of(vk: u16) -> Option<Action> {
    if vk == VK_UP || vk == VK_W {
        Some(Action::Up)
    } else if vk == VK_DOWN || vk == VK_S {
        Some(Action::Down)
    } else if vk == VK_LEFT || vk == VK_A {
        Some(Action::Left)
    } else if vk == VK_RIGHT || vk == VK_D {
        Some(Action::Right)
    } else if vk == VK_RETURN {
        Some(Action::Confirm)
    } else if vk == VK_BACK || vk == VK_ESCAPE {
        Some(Action::Back)
    } else if vk == VK_F1 {
        Some(Action::Menu)
    } else if vk == VK_PRIOR {
        Some(Action::VolUp)
    } else if vk == VK_NEXT {
        Some(Action::VolDown)
    } else {
        None
    }
}

/// Maps a virtual-key code onto a semantic key.
pub fn map_key(vk: u16) -> (r: Option<Action>)
    ensures
        r == key_action_of(vk),
{
    if vk == VK_UP || vk == VK_W {
        Some(Action::Up)
    } else if vk == VK_DOWN || vk == VK_S {
        Some(Action::Down)
    } else if vk == VK_LEFT || vk == VK_A {
        Some(Action::Left)
    } else if vk == VK_RIGHT || vk == VK_D {
        Some(Action::Right)
    } else if vk == VK_RETURN {
        Some(Action::Confirm)
    } else if vk == VK_BACK || vk == VK_ESCAPE {
        Some(Action::Back)
    } else if vk == VK_F1 {
        Some(Action::Menu)
    } else if vk == VK_PRIOR {
        Some(Action::VolUp)
    } else if vk == VK_NEXT {
        Some(Action::VolDown)
    } else {
        None
    }
}

/// A gamepad button, by its position on a standard pad.
#[derive(Debug, Clone, Copy, PartialEq, Eq)]
pub enum GamepadButton {
    /// Bottom face button (A on an Xbox pad).
    South,
    /// Right face button (B).
    East,
    /// Top face button (Y).
    North,
    /// Left face button (X).
    West,
    C,
    Z,
    LeftTrigger,
    LeftTrigger2,
    RightTrigger,
    RightTrigger2,
    Select,
    Start,
    Mode,
    LeftThumb,
    RightThumb,
    DPadUp,
    DPadDown,
    DPadLeft,
    DPadRight,
    Unknown,
}

/// Gamepad button to semantic key: the D-pad moves, A confirms, B goes back,
/// Start opens the menu, the right and left lower triggers change the volume.
pub open spec fn button_action_of(b: GamepadButton) -> Option<Action> {
    match b {
        GamepadButton::DPadUp => Some(Action::Up),
        GamepadButton::DPadDown => Some(Action::Down),
        GamepadButton::DPadLeft => Some(Action::Left),
        GamepadButton::DPadRight => Some(Action::Right),
        GamepadButton::South => Some(Action::Confirm),
        GamepadButton::East => Some(Action::Back),
        GamepadButton::Start => Some(Action::Menu),
        GamepadButton::RightTrigger2 => Some(Action::VolUp),
        GamepadButton::LeftTrigger2 => Some(Action::VolDown),
        _ => None,
    }
}

/// Maps a gamepad button onto a semantic key.
pub fn map_button(btn: GamepadButton) -> (r: Option<Action>)
    ensures
        r == button_action_of(btn),
{
    match btn {
        GamepadButton::DPadUp => Some(Action::Up),
        GamepadButton::DPadDown => Some(Action::Down),
        GamepadButton::DPadLeft => Some(Action::Left),
        GamepadButton::DPadRight => Some(Action::Right),
        GamepadButton::South => Some(Action::Confirm),
        GamepadButton::East => Some(Action::Back),
        GamepadButton::Start => Some(Action::Menu),
        GamepadButton::RightTrigger2 => Some(Action::VolUp),
        GamepadButton::LeftTrigger2 => Some(Action::VolDown),
        _ => None,
    }
}

/// Keyboard and gamepad reach the same semantic keys: every action that a
/// gamepad button gives, some key gives too.
pub proof fn lemma_gamepad_keys_reachable_by_keyboard(b: GamepadButton)
    ensures
        button_action_of(b) is Some ==> exists|vk: u16| key_action_of(vk) == button_action_of(b),
{
    match b {
        GamepadButton::DPadUp => assert(key_action_of(VK_UP) == button_action_of(b)),
        GamepadButton::DPadDown => assert(key_action_of(VK_DOWN) == button_action_of(b)),
        GamepadButton::DPadLeft => assert(key_action_of(VK_LEFT) == button_action_of(b)),
        GamepadButton::DPadRight => assert(key_action_of(VK_RIGHT) == button_action_of(b)),
        GamepadButton::South => assert(key_action_of(VK_RETURN) == button_action_of(b)),
        GamepadButton::East => assert(key_action_of(VK_ESCAPE) == button_action_of(b)),
        GamepadButton::Start => assert(key_action_of(VK_F1) == button_action_of(b)),
        GamepadButton::RightTrigger2 => assert(key_action_of(VK_PRIOR) == button_action_of(b)),
        GamepadButton::LeftTrigger2 => assert(key_action_of(VK_NEXT) == button_action_of(b)),
        _ => {},
    }
}

} // verus!
