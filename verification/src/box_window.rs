//! Window styles and message handling that keep a box window on the desktop: out of
//! Alt+Tab, never topmost, and never minimised or hidden by "show desktop" (Win+D).

use vstd::prelude::*;

verus! {

/// `WS_EX_TOPMOST`.
pub const WS_EX_TOPMOST: isize = 0x8;
/// `WS_EX_TOOLWINDOW`: the window stays out of the Alt+Tab list.
pub const WS_EX_TOOLWINDOW: isize = 0x80;
/// `WS_MINIMIZEBOX`.
pub const WS_MINIMIZEBOX: isize = 0x20000;
/// `WS_MAXIMIZEBOX`.
pub const WS_MAXIMIZEBOX: isize = 0x10000;

/// The extended style without `WS_EX_TOPMOST`, when it was set; nothing to change
/// otherwise.
pub fn without_topmost(ex_style: isize) -> (r: Option<isize>)
    ensures
        ex_style & WS_EX_TOPMOST == 0 ==> r is None,
        ex_style & WS_EX_TOPMOST != 0 ==> r == Some(ex_style & !WS_EX_TOPMOST),
{
    if ex_style & WS_EX_TOPMOST != 0 {
        Some(ex_style & !WS_EX_TOPMOST)
    } else {
        None
    }
}

/// The extended style of a tool window, which Alt+Tab does not list.
pub fn toolwindow_ex_style(ex_style: isize) -> (r: isize)
    ensures
        r == ex_style | WS_EX_TOOLWINDOW,
{
    ex_style | WS_EX_TOOLWINDOW
}

/// The style without minimise and maximise boxes, so that "show desktop" treats the
/// window as a resident desktop component.
pub fn resident_style(style: isize) -> (r: isize)
    ensures
        r == style & !(WS_MINIMIZEBOX | WS_MAXIMIZEBOX),
{
    style & !(WS_MINIMIZEBOX | WS_MAXIMIZEBOX)
}

/// `WM_SIZE`.
pub const WM_SIZE: u32 = 5;
/// `WM_SHOWWINDOW`.
pub const WM_SHOWWINDOW: u32 = 24;
/// `WM_WINDOWPOSCHANGING`.
pub const WM_WINDOWPOSCHANGING: u32 = 70;
/// `WM_WINDOWPOSCHANGED`.
pub const WM_WINDOWPOSCHANGED: u32 = 71;
/// `WM_SYSCOMMAND`.
pub const WM_SYSCOMMAND: u32 = 274;
/// `SC_MINIMIZE`.
pub const SC_MINIMIZE: usize = 0xF020;
/// `SIZE_MINIMIZED`.
pub const SIZE_MINIMIZED: usize = 1;
/// `SWP_NOSIZE`.
pub const SWP_NOSIZE: u32 = 0x1;
/// `SWP_NOMOVE`.
pub const SWP_NOMOVE: u32 = 0x2;
/// `SWP_SHOWWINDOW`.
pub const SWP_SHOWWINDOW: u32 = 0x40;
/// `SWP_HIDEWINDOW`.
pub const SWP_HIDEWINDOW: u32 = 0x80;
/// Coordinates at or below this are where Windows parks minimised windows.
pub const OFFSCREEN_COORDINATE: i32 = -30000;

/// The fields of a `WINDOWPOS` that the handler reads and may change.
#[derive(Clone, Copy, PartialEq, Eq, Structural, Debug)]
pub struct WindowPosition {
    pub x: i32,
    pub y: i32,
    pub flags: u32,
}

/// What the subclass procedure does with a message.
#[derive(Clone, Copy, PartialEq, Eq, Structural, Debug)]
pub enum BoxWindowAction {
    /// Pass the message on to the default procedure.
    Default,
    /// Swallow the message (return 0).
    Swallow,
    /// Restore the window, show it without activation, and swallow the message.
    RestoreAndSwallow,
    /// Store these flags back into the `WINDOWPOS` and swallow the message.
    AdjustPosition(u32),
}

/// The flags of a position change once moves off screen and hiding are taken out, when
/// anything had to change.
pub open spec fn adjusted_flags(pos: WindowPosition) -> Option<u32> {
    if pos.x <= OFFSCREEN_COORDINATE || pos.y <= OFFSCREEN_COORDINATE {
        Some((pos.flags | SWP_NOMOVE | SWP_NOSIZE) & !SWP_HIDEWINDOW)
    } else if pos.flags & SWP_HIDEWINDOW != 0 {
        Some((pos.flags & !SWP_HIDEWINDOW) | SWP_SHOWWINDOW)
    } else {
        None
    }
}

/// What to do with a message so that the box stays on the desktop: minimise commands,
/// hide requests and minimised sizes are refused, position changes that park the window
/// off screen or hide it are neutralised, and a window found minimised or hidden after a
/// position change is restored. `position` is the `WINDOWPOS` of a position change, if
/// the message carries one; `iconic` and `visible` are the window's current state.
pub open spec fn box_window_action(
    msg: u32,
    wparam: usize,
    position: Option<WindowPosition>,
    iconic: bool,
    visible: bool,
) -> BoxWindowAction {
    if msg == WM_SYSCOMMAND {
        if wparam & 0xFFF0 == SC_MINIMIZE {
            BoxWindowAction::Swallow
        } else {
            BoxWindowAction::Default
        }
    } else if msg == WM_SHOWWINDOW {
        if wparam == 0 {
            BoxWindowAction::Swallow
        } else {
            BoxWindowAction::Default
        }
    } else if msg == WM_SIZE {
        if wparam == SIZE_MINIMIZED {
            BoxWindowAction::RestoreAndSwallow
        } else {
            BoxWindowAction::Default
        }
    } else if msg == WM_WINDOWPOSCHANGING {
        match position {
            Some(pos) => match adjusted_flags(pos) {
                Some(flags) => BoxWindowAction::AdjustPosition(flags),
                None => BoxWindowAction::Default,
            },
            None => BoxWindowAction::Default,
        }
    } else if msg == WM_WINDOWPOSCHANGED {
        if iconic || !visible {
            BoxWindowAction::RestoreAndSwallow
        } else {
            BoxWindowAction::Default
        }
    } else {
        BoxWindowAction::Default
    }
}

/// Decides what the box window's subclass procedure does with a message.
pub fn box_window_subclass_action(
    msg: u32,
    wparam: usize,
    position: Option<WindowPosition>,
    iconic: bool,
    visible: bool,
) -> (r: BoxWindowAction)
    ensures
        r == box_window_action(msg, wparam, position, iconic, visible),
{
    if msg == WM_SYSCOMMAND {
        if wparam & 0xFFF0 == SC_MINIMIZE {
            return BoxWindowAction::Swallow;
        }
    } else if msg == WM_SHOWWINDOW {
        if wparam == 0 {
            return BoxWindowAction::Swallow;
        }
    } else if msg == WM_SIZE {
        if wparam == SIZE_MINIMIZED {
            return BoxWindowAction::RestoreAndSwallow;
        }
    } else if msg == WM_WINDOWPOSCHANGING {
        if let Some(pos) = position {
            let mut flags = pos.flags;
            let mut modified = false;
            if pos.x <= OFFSCREEN_COORDINATE || pos.y <= OFFSCREEN_COORDINATE {
                flags = flags | SWP_NOMOVE | SWP_NOSIZE;
                flags = flags & !SWP_HIDEWINDOW;
                modified = true;
                let f = pos.flags;
                assert(((f | 2u32 | 1u32) & !128u32) & 128u32 == 0) by (bit_vector);
            }
            if flags & SWP_HIDEWINDOW != 0 {
                flags = flags & !SWP_HIDEWINDOW;
                flags = flags | SWP_SHOWWINDOW;
                modified = true;
            }
            if modified {
                return BoxWindowAction::AdjustPosition(flags);
            }
        }
    } else if msg == WM_WINDOWPOSCHANGED {
        if iconic || !visible {
            return BoxWindowAction::RestoreAndSwallow;
        }
    }
    BoxWindowAction::Default
}

/// A box window never lets a message minimise or hide it: every `SC_MINIMIZE` command
/// and every hide request is swallowed, and a position change keeps no hide flag.
pub proof fn lemma_never_hidden(msg: u32, wparam: usize, pos: WindowPosition, iconic: bool, visible: bool)
    ensures
        msg == WM_SYSCOMMAND && wparam & 0xFFF0 == SC_MINIMIZE ==> box_window_action(
            msg,
            wparam,
            Some(pos),
            iconic,
            visible,
        ) == BoxWindowAction::Swallow,
        msg == WM_SHOWWINDOW && wparam == 0 ==> box_window_action(
            msg,
            wparam,
            Some(pos),
            iconic,
            visible,
        ) == BoxWindowAction::Swallow,
        adjusted_flags(pos) matches Some(flags) ==> flags & SWP_HIDEWINDOW == 0,
        pos.flags & SWP_HIDEWINDOW != 0 ==> adjusted_flags(pos) is Some,
{
    let f = pos.flags;
    assert(((f | 2u32 | 1u32) & !128u32) & 128u32 == 0) by (bit_vector);
    assert(((f & !128u32) | 64u32) & 128u32 == 0) by (bit_vector);
}

/// `GetAsyncKeyState` reports a key as down when the high bit of its state is set,
/// that is when the state is negative.
pub fn is_primary_mouse_button_pressed(left_button_state: i16) -> (r: bool)
    ensures
        r == (left_button_state < 0),
{
    left_button_state < 0
}

} // verus!
