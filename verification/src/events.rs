//! The event translator and injection queue.
//!
//! Events reach the host in one canonical model, from two sources: a FIFO
//! queue of synthetic events injected for deterministic testing, and the
//! live terminal backend. Polling drains the queue first; with no live
//! backend an empty queue means "no event" at once; otherwise the caller
//! is told to consult the backend. Key translation is bidirectional over
//! a fixed token vocabulary; unrecognised inbound tokens decode to the
//! null key, while a malformed injection (missing fields, unknown kinds)
//! fails loudly.

use vstd::prelude::*;

use crate::error::{BridgeError, Field};
use crate::strutil::str_eq;

verus! {

/// A key, over the fixed vocabulary of the bridge.
#[derive(Clone, Copy, Debug, PartialEq, Eq, Structural)]
pub enum KeyCode {
    Up,
    Down,
    Left,
    Right,
    Enter,
    Esc,
    Backspace,
    Tab,
    BackTab,
    Home,
    End,
    PageUp,
    PageDown,
    Insert,
    Delete,
    CapsLock,
    ScrollLock,
    NumLock,
    PrintScreen,
    Pause,
    Menu,
    /// A function key; the vocabulary covers `f1` to `f12`.
    F(u8),
    MediaPlay,
    MediaPause,
    MediaPlayPause,
    MediaStop,
    MediaRewind,
    MediaFastForward,
    MediaNext,
    MediaPrevious,
    MediaRecord,
    MediaLowerVolume,
    MediaRaiseVolume,
    MediaMute,
    LeftShift,
    LeftCtrl,
    LeftAlt,
    LeftSuper,
    RightShift,
    RightCtrl,
    RightAlt,
    RightSuper,
    /// A single printable character.
    Char(char),
    /// The null key: what an unrecognised token decodes to.
    Null,
}

/// The modifier keys held during a key or mouse event.
#[derive(Clone, Copy, Debug, PartialEq, Eq, Structural)]
pub struct KeyMods {
    pub ctrl: bool,
    pub alt: bool,
    pub shift: bool,
}

impl KeyMods {
    pub open spec fn spec_none() -> KeyMods {
        KeyMods { ctrl: false, alt: false, shift: false }
    }

    pub fn none() -> (r: KeyMods)
        ensures
            r == KeyMods::spec_none(),
    {
        KeyMods { ctrl: false, alt: false, shift: false }
    }
}

/// A mouse button; `NoButton` is the explicit sentinel reported for
/// kinds that carry no button.
#[derive(Clone, Copy, Debug, PartialEq, Eq, Structural)]
pub enum MouseButton {
    Left,
    Right,
    Middle,
    NoButton,
}

/// What a mouse event reports happened.
#[derive(Clone, Copy, Debug, PartialEq, Eq, Structural)]
pub enum MouseKind {
    Down,
    Up,
    Drag,
    Moved,
    ScrollDown,
    ScrollUp,
    ScrollLeft,
    ScrollRight,
}

/// A canonical event, as the host consumes it.
#[derive(Clone, Debug, PartialEq, Eq)]
pub enum Event {
    Key { code: KeyCode, modifiers: KeyMods },
    Mouse { kind: MouseKind, button: MouseButton, x: u16, y: u16, modifiers: KeyMods },
    Resize { width: u16, height: u16 },
    Paste { content: String },
    FocusGained,
    FocusLost,
}

/// Is the key one of the named tokens of the vocabulary (as opposed to a
/// character, the null key, or a function key outside `f1..f12`)?
pub open spec fn spec_is_named_key(k: KeyCode) -> bool {
    match k {
        KeyCode::Char(_) => false,
        KeyCode::Null => false,
        KeyCode::F(n) => 1 <= n <= 12,
        _ => true,
    }
}

/// The token a key encodes to.
pub open spec fn spec_key_token(k: KeyCode) -> Seq<char> {
    match k {
        KeyCode::Up => "up"@,
        KeyCode::Down => "down"@,
        KeyCode::Left => "left"@,
        KeyCode::Right => "right"@,
        KeyCode::Enter => "enter"@,
        KeyCode::Esc => "esc"@,
        KeyCode::Backspace => "backspace"@,
        KeyCode::Tab => "tab"@,
        KeyCode::BackTab => "back_tab"@,
        KeyCode::Home => "home"@,
        KeyCode::End => "end"@,
        KeyCode::PageUp => "page_up"@,
        KeyCode::PageDown => "page_down"@,
        KeyCode::Insert => "insert"@,
        KeyCode::Delete => "delete"@,
        KeyCode::CapsLock => "caps_lock"@,
        KeyCode::ScrollLock => "scroll_lock"@,
        KeyCode::NumLock => "num_lock"@,
        KeyCode::PrintScreen => "print_screen"@,
        KeyCode::Pause => "pause"@,
        KeyCode::Menu => "menu"@,
        KeyCode::F(n) => if n == 1 {
            "f1"@
        } else if n == 2 {
            "f2"@
        } else if n == 3 {
            "f3"@
        } else if n == 4 {
            "f4"@
        } else if n == 5 {
            "f5"@
        } else if n == 6 {
            "f6"@
        } else if n == 7 {
            "f7"@
        } else if n == 8 {
            "f8"@
        } else if n == 9 {
            "f9"@
        } else if n == 10 {
            "f10"@
        } else if n == 11 {
            "f11"@
        } else if n == 12 {
            "f12"@
        } else {
            "null"@
        },
        KeyCode::MediaPlay => "media_play"@,
        KeyCode::MediaPause => "media_pause"@,
        KeyCode::MediaPlayPause => "media_play_pause"@,
        KeyCode::MediaStop => "media_stop"@,
        KeyCode::MediaRewind => "media_rewind"@,
        KeyCode::MediaFastForward => "media_fast_forward"@,
        KeyCode::MediaNext => "media_next"@,
        KeyCode::MediaPrevious => "media_previous"@,
        KeyCode::MediaRecord => "media_record"@,
        KeyCode::MediaLowerVolume => "media_lower_volume"@,
        KeyCode::MediaRaiseVolume => "media_raise_volume"@,
        KeyCode::MediaMute => "media_mute"@,
        KeyCode::LeftShift => "left_shift"@,
        KeyCode::LeftCtrl => "left_ctrl"@,
        KeyCode::LeftAlt => "left_alt"@,
        KeyCode::LeftSuper => "left_super"@,
        KeyCode::RightShift => "right_shift"@,
        KeyCode::RightCtrl => "right_ctrl"@,
        KeyCode::RightAlt => "right_alt"@,
        KeyCode::RightSuper => "right_super"@,
        KeyCode::Char(c) => seq![c],
        KeyCode::Null => "null"@,
    }
}

/// The key a token decodes to: a single character is that character key;
/// a named token is its key; anything else is the null key.
pub open spec fn spec_key_code_of(s: Seq<char>) -> KeyCode {
    if s.len() == 1 {
        KeyCode::Char(s[0])
    } else if s == "up"@ {
        KeyCode::Up
    } else if s == "down"@ {
        KeyCode::Down
    } else if s == "left"@ {
        KeyCode::Left
    } else if s == "right"@ {
        KeyCode::Right
    } else if s == "enter"@ {
        KeyCode::Enter
    } else if s == "esc"@ {
        KeyCode::Esc
    } else if s == "backspace"@ {
        KeyCode::Backspace
    } else if s == "tab"@ {
        KeyCode::Tab
    } else if s == "back_tab"@ {
        KeyCode::BackTab
    } else if s == "home"@ {
        KeyCode::Home
    } else if s == "end"@ {
        KeyCode::End
    } else if s == "page_up"@ {
        KeyCode::PageUp
    } else if s == "page_down"@ {
        KeyCode::PageDown
    } else if s == "insert"@ {
        KeyCode::Insert
    } else if s == "delete"@ {
        KeyCode::Delete
    } else if s == "caps_lock"@ {
        KeyCode::CapsLock
    } else if s == "scroll_lock"@ {
        KeyCode::ScrollLock
    } else if s == "num_lock"@ {
        KeyCode::NumLock
    } else if s == "print_screen"@ {
        KeyCode::PrintScreen
    } else if s == "pause"@ {
        KeyCode::Pause
    } else if s == "menu"@ {
        KeyCode::Menu
    } else if s == "f1"@ {
        KeyCode::F(1)
    } else if s == "f2"@ {
        KeyCode::F(2)
    } else if s == "f3"@ {
        KeyCode::F(3)
    } else if s == "f4"@ {
        KeyCode::F(4)
    } else if s == "f5"@ {
        KeyCode::F(5)
    } else if s == "f6"@ {
        KeyCode::F(6)
    } else if s == "f7"@ {
        KeyCode::F(7)
    } else if s == "f8"@ {
        KeyCode::F(8)
    } else if s == "f9"@ {
        KeyCode::F(9)
    } else if s == "f10"@ {
        KeyCode::F(10)
    } else if s == "f11"@ {
        KeyCode::F(11)
    } else if s == "f12"@ {
        KeyCode::F(12)
    } else if s == "media_play"@ {
        KeyCode::MediaPlay
    } else if s == "media_pause"@ {
        KeyCode::MediaPause
    } else if s == "media_play_pause"@ {
        KeyCode::MediaPlayPause
    } else if s == "media_stop"@ {
        KeyCode::MediaStop
    } else if s == "media_rewind"@ {
        KeyCode::MediaRewind
    } else if s == "media_fast_forward"@ {
        KeyCode::MediaFastForward
    } else if s == "media_next"@ {
        KeyCode::MediaNext
    } else if s == "media_previous"@ {
        KeyCode::MediaPrevious
    } else if s == "media_record"@ {
        KeyCode::MediaRecord
    } else if s == "media_lower_volume"@ {
        KeyCode::MediaLowerVolume
    } else if s == "media_raise_volume"@ {
        KeyCode::MediaRaiseVolume
    } else if s == "media_mute"@ {
        KeyCode::MediaMute
    } else if s == "left_shift"@ {
        KeyCode::LeftShift
    } else if s == "left_ctrl"@ {
        KeyCode::LeftCtrl
    } else if s == "left_alt"@ {
        KeyCode::LeftAlt
    } else if s == "left_super"@ {
        KeyCode::LeftSuper
    } else if s == "right_shift"@ {
        KeyCode::RightShift
    } else if s == "right_ctrl"@ {
        KeyCode::RightCtrl
    } else if s == "right_alt"@ {
        KeyCode::RightAlt
    } else if s == "right_super"@ {
        KeyCode::RightSuper
    } else {
        KeyCode::Null
    }
}

/// Encodes a key as its token.
pub fn key_token(k: KeyCode) -> (r: String)
    ensures
        r@ == spec_key_token(k),
{
    match k {
        KeyCode::Up => String::from_str("up"),
        KeyCode::Down => String::from_str("down"),
        KeyCode::Left => String::from_str("left"),
        KeyCode::Right => String::from_str("right"),
        KeyCode::Enter => String::from_str("enter"),
        KeyCode::Esc => String::from_str("esc"),
        KeyCode::Backspace => String::from_str("backspace"),
        KeyCode::Tab => String::from_str("tab"),
        KeyCode::BackTab => String::from_str("back_tab"),
        KeyCode::Home => String::from_str("home"),
        KeyCode::End => String::from_str("end"),
        KeyCode::PageUp => String::from_str("page_up"),
        KeyCode::PageDown => String::from_str("page_down"),
        KeyCode::Insert => String::from_str("insert"),
        KeyCode::Delete => String::from_str("delete"),
        KeyCode::CapsLock => String::from_str("caps_lock"),
        KeyCode::ScrollLock => String::from_str("scroll_lock"),
        KeyCode::NumLock => String::from_str("num_lock"),
        KeyCode::PrintScreen => String::from_str("print_screen"),
        KeyCode::Pause => String::from_str("pause"),
        KeyCode::Menu => String::from_str("menu"),
        KeyCode::F(n) => {
            if n == 1 {
                String::from_str("f1")
            } else if n == 2 {
                String::from_str("f2")
            } else if n == 3 {
                String::from_str("f3")
            } else if n == 4 {
                String::from_str("f4")
            } else if n == 5 {
                String::from_str("f5")
            } else if n == 6 {
                String::from_str("f6")
            } else if n == 7 {
                String::from_str("f7")
            } else if n == 8 {
                String::from_str("f8")
            } else if n == 9 {
                String::from_str("f9")
            } else if n == 10 {
                String::from_str("f10")
            } else if n == 11 {
                String::from_str("f11")
            } else if n == 12 {
                String::from_str("f12")
            } else {
                String::from_str("null")
            }
        },
        KeyCode::MediaPlay => String::from_str("media_play"),
        KeyCode::MediaPause => String::from_str("media_pause"),
        KeyCode::MediaPlayPause => String::from_str("media_play_pause"),
        KeyCode::MediaStop => String::from_str("media_stop"),
        KeyCode::MediaRewind => String::from_str("media_rewind"),
        KeyCode::MediaFastForward => String::from_str("media_fast_forward"),
        KeyCode::MediaNext => String::from_str("media_next"),
        KeyCode::MediaPrevious => String::from_str("media_previous"),
        KeyCode::MediaRecord => String::from_str("media_record"),
        KeyCode::MediaLowerVolume => String::from_str("media_lower_volume"),
        KeyCode::MediaRaiseVolume => String::from_str("media_raise_volume"),
        KeyCode::MediaMute => String::from_str("media_mute"),
        KeyCode::LeftShift => String::from_str("left_shift"),
        KeyCode::LeftCtrl => String::from_str("left_ctrl"),
        KeyCode::LeftAlt => String::from_str("left_alt"),
        KeyCode::LeftSuper => String::from_str("left_super"),
        KeyCode::RightShift => String::from_str("right_shift"),
        KeyCode::RightCtrl => String::from_str("right_ctrl"),
        KeyCode::RightAlt => String::from_str("right_alt"),
        KeyCode::RightSuper => String::from_str("right_super"),
        KeyCode::Char(c) => {
            let mut s = String::new();
            s.push(c);
            proof {
                assert(s@ =~= seq![c]);
            }
            s
        },
        KeyCode::Null => String::from_str("null"),
    }
}

/// Decodes a token to its key; unrecognised tokens give the null key.
pub fn key_code_from_token(s: &str) -> (r: KeyCode)
    ensures
        r == spec_key_code_of(s@),
{
    if s.unicode_len() == 1 {
        KeyCode::Char(s.get_char(0))
    } else if str_eq(s, "up") {
        KeyCode::Up
    } else if str_eq(s, "down") {
        KeyCode::Down
    } else if str_eq(s, "left") {
        KeyCode::Left
    } else if str_eq(s, "right") {
        KeyCode::Right
    } else if str_eq(s, "enter") {
        KeyCode::Enter
    } else if str_eq(s, "esc") {
        KeyCode::Esc
    } else if str_eq(s, "backspace") {
        KeyCode::Backspace
    } else if str_eq(s, "tab") {
        KeyCode::Tab
    } else if str_eq(s, "back_tab") {
        KeyCode::BackTab
    } else if str_eq(s, "home") {
        KeyCode::Home
    } else if str_eq(s, "end") {
        KeyCode::End
    } else if str_eq(s, "page_up") {
        KeyCode::PageUp
    } else if str_eq(s, "page_down") {
        KeyCode::PageDown
    } else if str_eq(s, "insert") {
        KeyCode::Insert
    } else if str_eq(s, "delete") {
        KeyCode::Delete
    } else if str_eq(s, "caps_lock") {
        KeyCode::CapsLock
    } else if str_eq(s, "scroll_lock") {
        KeyCode::ScrollLock
    } else if str_eq(s, "num_lock") {
        KeyCode::NumLock
    } else if str_eq(s, "print_screen") {
        KeyCode::PrintScreen
    } else if str_eq(s, "pause") {
        KeyCode::Pause
    } else if str_eq(s, "menu") {
        KeyCode::Menu
    } else if str_eq(s, "f1") {
        KeyCode::F(1)
    } else if str_eq(s, "f2") {
        KeyCode::F(2)
    } else if str_eq(s, "f3") {
        KeyCode::F(3)
    } else if str_eq(s, "f4") {
        KeyCode::F(4)
    } else if str_eq(s, "f5") {
        KeyCode::F(5)
    } else if str_eq(s, "f6") {
        KeyCode::F(6)
    } else if str_eq(s, "f7") {
        KeyCode::F(7)
    } else if str_eq(s, "f8") {
        KeyCode::F(8)
    } else if str_eq(s, "f9") {
        KeyCode::F(9)
    } else if str_eq(s, "f10") {
        KeyCode::F(10)
    } else if str_eq(s, "f11") {
        KeyCode::F(11)
    } else if str_eq(s, "f12") {
        KeyCode::F(12)
    } else if str_eq(s, "media_play") {
        KeyCode::MediaPlay
    } else if str_eq(s, "media_pause") {
        KeyCode::MediaPause
    } else if str_eq(s, "media_play_pause") {
        KeyCode::MediaPlayPause
    } else if str_eq(s, "media_stop") {
        KeyCode::MediaStop
    } else if str_eq(s, "media_rewind") {
        KeyCode::MediaRewind
    } else if str_eq(s, "media_fast_forward") {
        KeyCode::MediaFastForward
    } else if str_eq(s, "media_next") {
        KeyCode::MediaNext
    } else if str_eq(s, "media_previous") {
        KeyCode::MediaPrevious
    } else if str_eq(s, "media_record") {
        KeyCode::MediaRecord
    } else if str_eq(s, "media_lower_volume") {
        KeyCode::MediaLowerVolume
    } else if str_eq(s, "media_raise_volume") {
        KeyCode::MediaRaiseVolume
    } else if str_eq(s, "media_mute") {
        KeyCode::MediaMute
    } else if str_eq(s, "left_shift") {
        KeyCode::LeftShift
    } else if str_eq(s, "left_ctrl") {
        KeyCode::LeftCtrl
    } else if str_eq(s, "left_alt") {
        KeyCode::LeftAlt
    } else if str_eq(s, "left_super") {
        KeyCode::LeftSuper
    } else if str_eq(s, "right_shift") {
        KeyCode::RightShift
    } else if str_eq(s, "right_ctrl") {
        KeyCode::RightCtrl
    } else if str_eq(s, "right_alt") {
        KeyCode::RightAlt
    } else if str_eq(s, "right_super") {
        KeyCode::RightSuper
    } else {
        KeyCode::Null
    }
}

/// Key round trip: every named token of the vocabulary survives
/// encode-then-decode unchanged — injecting a named key, polling it and
/// encoding it again yields the same token.
pub proof fn lemma_key_token_round_trip(k: KeyCode)
    requires
        spec_is_named_key(k),
    ensures
        spec_key_code_of(spec_key_token(k)) == k,
{
    reveal_strlit("up");
    reveal_strlit("down");
    reveal_strlit("left");
    reveal_strlit("right");
    reveal_strlit("enter");
    reveal_strlit("esc");
    reveal_strlit("backspace");
    reveal_strlit("tab");
    reveal_strlit("back_tab");
    reveal_strlit("home");
    reveal_strlit("end");
    reveal_strlit("page_up");
    reveal_strlit("page_down");
    reveal_strlit("insert");
    reveal_strlit("delete");
    reveal_strlit("caps_lock");
    reveal_strlit("scroll_lock");
    reveal_strlit("num_lock");
    reveal_strlit("print_screen");
    reveal_strlit("pause");
    reveal_strlit("menu");
    reveal_strlit("f1");
    reveal_strlit("f2");
    reveal_strlit("f3");
    reveal_strlit("f4");
    reveal_strlit("f5");
    reveal_strlit("f6");
    reveal_strlit("f7");
    reveal_strlit("f8");
    reveal_strlit("f9");
    reveal_strlit("f10");
    reveal_strlit("f11");
    reveal_strlit("f12");
    reveal_strlit("media_play");
    reveal_strlit("media_pause");
    reveal_strlit("media_play_pause");
    reveal_strlit("media_stop");
    reveal_strlit("media_rewind");
    reveal_strlit("media_fast_forward");
    reveal_strlit("media_next");
    reveal_strlit("media_previous");
    reveal_strlit("media_record");
    reveal_strlit("media_lower_volume");
    reveal_strlit("media_raise_volume");
    reveal_strlit("media_mute");
    reveal_strlit("left_shift");
    reveal_strlit("left_ctrl");
    reveal_strlit("left_alt");
    reveal_strlit("left_super");
    reveal_strlit("right_shift");
    reveal_strlit("right_ctrl");
    reveal_strlit("right_alt");
    reveal_strlit("right_super");
    reveal_strlit("null");
    assert("up"@[0] != "f1"@[0]);
    assert("up"@[0] != "f2"@[0]);
    assert("up"@[0] != "f3"@[0]);
    assert("up"@[0] != "f4"@[0]);
    assert("up"@[0] != "f5"@[0]);
    assert("up"@[0] != "f6"@[0]);
    assert("up"@[0] != "f7"@[0]);
    assert("up"@[0] != "f8"@[0]);
    assert("up"@[0] != "f9"@[0]);
    assert("down"@[0] != "left"@[0]);
    assert("down"@[0] != "home"@[0]);
    assert("down"@[0] != "menu"@[0]);
    assert("down"@[0] != "null"@[0]);
    assert("left"@[0] != "home"@[0]);
    assert("left"@[0] != "menu"@[0]);
    assert("left"@[0] != "null"@[0]);
    assert("right"@[0] != "enter"@[0]);
    assert("right"@[0] != "pause"@[0]);
    assert("enter"@[0] != "pause"@[0]);
    assert("esc"@[0] != "tab"@[0]);
    assert("esc"@[1] != "end"@[1]);
    assert("esc"@[0] != "f10"@[0]);
    assert("esc"@[0] != "f11"@[0]);
    assert("esc"@[0] != "f12"@[0]);
    assert("backspace"@[0] != "page_down"@[0]);
    assert("backspace"@[0] != "caps_lock"@[0]);
    assert("backspace"@[0] != "left_ctrl"@[0]);
    assert("backspace"@[0] != "right_alt"@[0]);
    assert("tab"@[0] != "end"@[0]);
    assert("tab"@[0] != "f10"@[0]);
    assert("tab"@[0] != "f11"@[0]);
    assert("tab"@[0] != "f12"@[0]);
    assert("back_tab"@[0] != "num_lock"@[0]);
    assert("back_tab"@[0] != "left_alt"@[0]);
    assert("home"@[0] != "menu"@[0]);
    assert("home"@[0] != "null"@[0]);
    assert("end"@[0] != "f10"@[0]);
    assert("end"@[0] != "f11"@[0]);
    assert("end"@[0] != "f12"@[0]);
    assert("page_down"@[0] != "caps_lock"@[0]);
    assert("page_down"@[0] != "left_ctrl"@[0]);
    assert("page_down"@[0] != "right_alt"@[0]);
    assert("insert"@[0] != "delete"@[0]);
    assert("caps_lock"@[0] != "left_ctrl"@[0]);
    assert("caps_lock"@[0] != "right_alt"@[0]);
    assert("scroll_lock"@[0] != "media_pause"@[0]);
    assert("scroll_lock"@[0] != "right_shift"@[0]);
    assert("scroll_lock"@[0] != "right_super"@[0]);
    assert("num_lock"@[0] != "left_alt"@[0]);
    assert("print_screen"@[0] != "media_rewind"@[0]);
    assert("print_screen"@[0] != "media_record"@[0]);
    assert("menu"@[0] != "null"@[0]);
    assert("f1"@[1] != "f2"@[1]);
    assert("f1"@[1] != "f3"@[1]);
    assert("f1"@[1] != "f4"@[1]);
    assert("f1"@[1] != "f5"@[1]);
    assert("f1"@[1] != "f6"@[1]);
    assert("f1"@[1] != "f7"@[1]);
    assert("f1"@[1] != "f8"@[1]);
    assert("f1"@[1] != "f9"@[1]);
    assert("f2"@[1] != "f3"@[1]);
    assert("f2"@[1] != "f4"@[1]);
    assert("f2"@[1] != "f5"@[1]);
    assert("f2"@[1] != "f6"@[1]);
    assert("f2"@[1] != "f7"@[1]);
    assert("f2"@[1] != "f8"@[1]);
    assert("f2"@[1] != "f9"@[1]);
    assert("f3"@[1] != "f4"@[1]);
    assert("f3"@[1] != "f5"@[1]);
    assert("f3"@[1] != "f6"@[1]);
    assert("f3"@[1] != "f7"@[1]);
    assert("f3"@[1] != "f8"@[1]);
    assert("f3"@[1] != "f9"@[1]);
    assert("f4"@[1] != "f5"@[1]);
    assert("f4"@[1] != "f6"@[1]);
    assert("f4"@[1] != "f7"@[1]);
    assert("f4"@[1] != "f8"@[1]);
    assert("f4"@[1] != "f9"@[1]);
    assert("f5"@[1] != "f6"@[1]);
    assert("f5"@[1] != "f7"@[1]);
    assert("f5"@[1] != "f8"@[1]);
    assert("f5"@[1] != "f9"@[1]);
    assert("f6"@[1] != "f7"@[1]);
    assert("f6"@[1] != "f8"@[1]);
    assert("f6"@[1] != "f9"@[1]);
    assert("f7"@[1] != "f8"@[1]);
    assert("f7"@[1] != "f9"@[1]);
    assert("f8"@[1] != "f9"@[1]);
    assert("f10"@[2] != "f11"@[2]);
    assert("f10"@[2] != "f12"@[2]);
    assert("f11"@[2] != "f12"@[2]);
    assert("media_play"@[6] != "media_stop"@[6]);
    assert("media_play"@[6] != "media_next"@[6]);
    assert("media_play"@[6] != "media_mute"@[6]);
    assert("media_play"@[0] != "left_shift"@[0]);
    assert("media_play"@[0] != "left_super"@[0]);
    assert("media_play"@[0] != "right_ctrl"@[0]);
    assert("media_pause"@[0] != "right_shift"@[0]);
    assert("media_pause"@[0] != "right_super"@[0]);
    assert("media_stop"@[6] != "media_next"@[6]);
    assert("media_stop"@[6] != "media_mute"@[6]);
    assert("media_stop"@[0] != "left_shift"@[0]);
    assert("media_stop"@[0] != "left_super"@[0]);
    assert("media_stop"@[0] != "right_ctrl"@[0]);
    assert("media_rewind"@[8] != "media_record"@[8]);
    assert("media_fast_forward"@[6] != "media_lower_volume"@[6]);
    assert("media_fast_forward"@[6] != "media_raise_volume"@[6]);
    assert("media_next"@[6] != "media_mute"@[6]);
    assert("media_next"@[0] != "left_shift"@[0]);
    assert("media_next"@[0] != "left_super"@[0]);
    assert("media_next"@[0] != "right_ctrl"@[0]);
    assert("media_lower_volume"@[6] != "media_raise_volume"@[6]);
    assert("media_mute"@[0] != "left_shift"@[0]);
    assert("media_mute"@[0] != "left_super"@[0]);
    assert("media_mute"@[0] != "right_ctrl"@[0]);
    assert("left_shift"@[6] != "left_super"@[6]);
    assert("left_shift"@[0] != "right_ctrl"@[0]);
    assert("left_ctrl"@[0] != "right_alt"@[0]);
    assert("left_super"@[0] != "right_ctrl"@[0]);
    assert("right_shift"@[7] != "right_super"@[7]);
    match k {
        KeyCode::Up => {
            assert(spec_key_code_of("up"@) == KeyCode::Up);
        },
        KeyCode::Down => {
            assert(spec_key_code_of("down"@) == KeyCode::Down);
        },
        KeyCode::Left => {
            assert(spec_key_code_of("left"@) == KeyCode::Left);
        },
        KeyCode::Right => {
            assert(spec_key_code_of("right"@) == KeyCode::Right);
        },
        KeyCode::Enter => {
            assert(spec_key_code_of("enter"@) == KeyCode::Enter);
        },
        KeyCode::Esc => {
            assert(spec_key_code_of("esc"@) == KeyCode::Esc);
        },
        KeyCode::Backspace => {
            assert(spec_key_code_of("backspace"@) == KeyCode::Backspace);
        },
        KeyCode::Tab => {
            assert(spec_key_code_of("tab"@) == KeyCode::Tab);
        },
        KeyCode::BackTab => {
            assert(spec_key_code_of("back_tab"@) == KeyCode::BackTab);
        },
        KeyCode::Home => {
            assert(spec_key_code_of("home"@) == KeyCode::Home);
        },
        KeyCode::End => {
            assert(spec_key_code_of("end"@) == KeyCode::End);
        },
        KeyCode::PageUp => {
            assert(spec_key_code_of("page_up"@) == KeyCode::PageUp);
        },
        KeyCode::PageDown => {
            assert(spec_key_code_of("page_down"@) == KeyCode::PageDown);
        },
        KeyCode::Insert => {
            assert(spec_key_code_of("insert"@) == KeyCode::Insert);
        },
        KeyCode::Delete => {
            assert(spec_key_code_of("delete"@) == KeyCode::Delete);
        },
        KeyCode::CapsLock => {
            assert(spec_key_code_of("caps_lock"@) == KeyCode::CapsLock);
        },
        KeyCode::ScrollLock => {
            assert(spec_key_code_of("scroll_lock"@) == KeyCode::ScrollLock);
        },
        KeyCode::NumLock => {
            assert(spec_key_code_of("num_lock"@) == KeyCode::NumLock);
        },
        KeyCode::PrintScreen => {
            assert(spec_key_code_of("print_screen"@) == KeyCode::PrintScreen);
        },
        KeyCode::Pause => {
            assert(spec_key_code_of("pause"@) == KeyCode::Pause);
        },
        KeyCode::Menu => {
            assert(spec_key_code_of("menu"@) == KeyCode::Menu);
        },
        KeyCode::MediaPlay => {
            assert(spec_key_code_of("media_play"@) == KeyCode::MediaPlay);
        },
        KeyCode::MediaPause => {
            assert(spec_key_code_of("media_pause"@) == KeyCode::MediaPause);
        },
        KeyCode::MediaPlayPause => {
            assert(spec_key_code_of("media_play_pause"@) == KeyCode::MediaPlayPause);
        },
        KeyCode::MediaStop => {
            assert(spec_key_code_of("media_stop"@) == KeyCode::MediaStop);
        },
        KeyCode::MediaRewind => {
            assert(spec_key_code_of("media_rewind"@) == KeyCode::MediaRewind);
        },
        KeyCode::MediaFastForward => {
            assert(spec_key_code_of("media_fast_forward"@) == KeyCode::MediaFastForward);
        },
        KeyCode::MediaNext => {
            assert(spec_key_code_of("media_next"@) == KeyCode::MediaNext);
        },
        KeyCode::MediaPrevious => {
            assert(spec_key_code_of("media_previous"@) == KeyCode::MediaPrevious);
        },
        KeyCode::MediaRecord => {
            assert(spec_key_code_of("media_record"@) == KeyCode::MediaRecord);
        },
        KeyCode::MediaLowerVolume => {
            assert(spec_key_code_of("media_lower_volume"@) == KeyCode::MediaLowerVolume);
        },
        KeyCode::MediaRaiseVolume => {
            assert(spec_key_code_of("media_raise_volume"@) == KeyCode::MediaRaiseVolume);
        },
        KeyCode::MediaMute => {
            assert(spec_key_code_of("media_mute"@) == KeyCode::MediaMute);
        },
        KeyCode::LeftShift => {
            assert(spec_key_code_of("left_shift"@) == KeyCode::LeftShift);
        },
        KeyCode::LeftCtrl => {
            assert(spec_key_code_of("left_ctrl"@) == KeyCode::LeftCtrl);
        },
        KeyCode::LeftAlt => {
            assert(spec_key_code_of("left_alt"@) == KeyCode::LeftAlt);
        },
        KeyCode::LeftSuper => {
            assert(spec_key_code_of("left_super"@) == KeyCode::LeftSuper);
        },
        KeyCode::RightShift => {
            assert(spec_key_code_of("right_shift"@) == KeyCode::RightShift);
        },
        KeyCode::RightCtrl => {
            assert(spec_key_code_of("right_ctrl"@) == KeyCode::RightCtrl);
        },
        KeyCode::RightAlt => {
            assert(spec_key_code_of("right_alt"@) == KeyCode::RightAlt);
        },
        KeyCode::RightSuper => {
            assert(spec_key_code_of("right_super"@) == KeyCode::RightSuper);
        },
        KeyCode::F(n) => {
            if n == 1 {
                assert(spec_key_code_of("f1"@) == KeyCode::F(1));
            } else if n == 2 {
                assert(spec_key_code_of("f2"@) == KeyCode::F(2));
            } else if n == 3 {
                assert(spec_key_code_of("f3"@) == KeyCode::F(3));
            } else if n == 4 {
                assert(spec_key_code_of("f4"@) == KeyCode::F(4));
            } else if n == 5 {
                assert(spec_key_code_of("f5"@) == KeyCode::F(5));
            } else if n == 6 {
                assert(spec_key_code_of("f6"@) == KeyCode::F(6));
            } else if n == 7 {
                assert(spec_key_code_of("f7"@) == KeyCode::F(7));
            } else if n == 8 {
                assert(spec_key_code_of("f8"@) == KeyCode::F(8));
            } else if n == 9 {
                assert(spec_key_code_of("f9"@) == KeyCode::F(9));
            } else if n == 10 {
                assert(spec_key_code_of("f10"@) == KeyCode::F(10));
            } else if n == 11 {
                assert(spec_key_code_of("f11"@) == KeyCode::F(11));
            } else if n == 12 {
                assert(spec_key_code_of("f12"@) == KeyCode::F(12));
            } else {
            }
        },
        _ => {},
    }
}

/// Which of the modifier tokens `ctrl`, `alt` and `shift` occur in a
/// token list; unknown tokens are ignored.
pub open spec fn spec_mods_of(tokens: Seq<Seq<char>>) -> KeyMods
    decreases tokens.len(),
{
    if tokens.len() == 0 {
        KeyMods::spec_none()
    } else {
        let rest = spec_mods_of(tokens.drop_last());
        let t = tokens.last();
        KeyMods {
            ctrl: rest.ctrl || t == "ctrl"@,
            alt: rest.alt || t == "alt"@,
            shift: rest.shift || t == "shift"@,
        }
    }
}

/// Folds a modifier token list into flags.
pub fn parse_mods(tokens: &Vec<String>) -> (r: KeyMods)
    ensures
        r == spec_mods_of(tokens@.map_values(|t: String| t@)),
{
    let ghost toks = tokens@.map_values(|t: String| t@);
    let mut mods = KeyMods::none();
    let mut i: usize = 0;
    while i < tokens.len()
        invariant
            i <= tokens@.len(),
            toks == tokens@.map_values(|t: String| t@),
            mods == spec_mods_of(toks.subrange(0, i as int)),
        decreases tokens@.len() - i,
    {
        proof {
            reveal_strlit("ctrl");
            reveal_strlit("alt");
            reveal_strlit("shift");
        }
        let t = tokens[i].as_str();
        if str_eq(t, "ctrl") {
            mods.ctrl = true;
        } else if str_eq(t, "alt") {
            mods.alt = true;
        } else if str_eq(t, "shift") {
            mods.shift = true;
        }
        proof {
            let pre = toks.subrange(0, i as int + 1);
            assert(pre.drop_last() =~= toks.subrange(0, i as int));
            assert(pre.last() == toks[i as int]);
        }
        i = i + 1;
    }
    proof {
        assert(toks.subrange(0, toks.len() as int) =~= toks);
    }
    mods
}

/// The mouse kind a token names.
pub open spec fn spec_mouse_kind_of(s: Seq<char>) -> Option<MouseKind> {
    if s == "down"@ {
        Option::Some(MouseKind::Down)
    } else if s == "up"@ {
        Option::Some(MouseKind::Up)
    } else if s == "drag"@ {
        Option::Some(MouseKind::Drag)
    } else if s == "moved"@ {
        Option::Some(MouseKind::Moved)
    } else if s == "scroll_down"@ {
        Option::Some(MouseKind::ScrollDown)
    } else if s == "scroll_up"@ {
        Option::Some(MouseKind::ScrollUp)
    } else if s == "scroll_left"@ {
        Option::Some(MouseKind::ScrollLeft)
    } else if s == "scroll_right"@ {
        Option::Some(MouseKind::ScrollRight)
    } else {
        Option::None
    }
}

/// Parses a mouse kind token.
pub fn mouse_kind_from_token(s: &str) -> (r: Option<MouseKind>)
    ensures
        r == spec_mouse_kind_of(s@),
{
    if str_eq(s, "down") {
        Option::Some(MouseKind::Down)
    } else if str_eq(s, "up") {
        Option::Some(MouseKind::Up)
    } else if str_eq(s, "drag") {
        Option::Some(MouseKind::Drag)
    } else if str_eq(s, "moved") {
        Option::Some(MouseKind::Moved)
    } else if str_eq(s, "scroll_down") {
        Option::Some(MouseKind::ScrollDown)
    } else if str_eq(s, "scroll_up") {
        Option::Some(MouseKind::ScrollUp)
    } else if str_eq(s, "scroll_left") {
        Option::Some(MouseKind::ScrollLeft)
    } else if str_eq(s, "scroll_right") {
        Option::Some(MouseKind::ScrollRight)
    } else {
        Option::None
    }
}

/// The button a token names; anything unrecognised (or absent) defaults
/// to the left button.
pub open spec fn spec_button_of(t: Option<String>) -> MouseButton {
    match t {
        Option::None => MouseButton::Left,
        Option::Some(s) => if s@ == "right"@ {
            MouseButton::Right
        } else if s@ == "middle"@ {
            MouseButton::Middle
        } else {
            MouseButton::Left
        },
    }
}

/// The fields of a synthetic event, as plain values; what a kind does
/// not need stays absent.
#[derive(Clone, Debug)]
pub struct EventData {
    pub code: Option<String>,
    pub modifiers: Option<Vec<String>>,
    pub kind: Option<String>,
    pub button: Option<String>,
    pub x: Option<u16>,
    pub y: Option<u16>,
    pub width: Option<u16>,
    pub height: Option<u16>,
    pub content: Option<String>,
}

impl EventData {
    /// A descriptor with every field absent.
    pub fn new_empty() -> (r: EventData)
        ensures
            r.code is None,
            r.modifiers is None,
            r.kind is None,
            r.button is None,
            r.x is None,
            r.y is None,
            r.width is None,
            r.height is None,
            r.content is None,
    {
        EventData {
            code: Option::None,
            modifiers: Option::None,
            kind: Option::None,
            button: Option::None,
            x: Option::None,
            y: Option::None,
            width: Option::None,
            height: Option::None,
            content: Option::None,
        }
    }
}

pub open spec fn spec_data_mods(data: EventData) -> KeyMods {
    match data.modifiers {
        Option::None => KeyMods::spec_none(),
        Option::Some(v) => spec_mods_of(v@.map_values(|t: String| t@)),
    }
}

/// What a synthetic event descriptor parses to: the canonical event, or
/// the loud failure for a malformed shape — a missing required field or
/// an unknown kind.
pub open spec fn spec_parse_event(event_type: Seq<char>, data: EventData) -> Result<
    Event,
    BridgeError,
> {
    if event_type == "key"@ {
        match data.code {
            Option::None => Result::Err(BridgeError::MissingField(Field::Code)),
            Option::Some(c) => Result::Ok(
                Event::Key { code: spec_key_code_of(c@), modifiers: spec_data_mods(data) },
            ),
        }
    } else if event_type == "mouse"@ {
        match data.kind {
            Option::None => Result::Err(BridgeError::MissingField(Field::Kind)),
            Option::Some(k) => match spec_mouse_kind_of(k@) {
                Option::None => Result::Err(BridgeError::UnknownMouseKind),
                Option::Some(kind) => match data.x {
                    Option::None => Result::Err(BridgeError::MissingField(Field::X)),
                    Option::Some(x) => match data.y {
                        Option::None => Result::Err(BridgeError::MissingField(Field::Y)),
                        Option::Some(y) => Result::Ok(
                            Event::Mouse {
                                kind,
                                button: spec_button_of(data.button),
                                x,
                                y,
                                modifiers: spec_data_mods(data),
                            },
                        ),
                    },
                },
            },
        }
    } else if event_type == "resize"@ {
        match data.width {
            Option::None => Result::Err(BridgeError::MissingField(Field::Width)),
            Option::Some(w) => match data.height {
                Option::None => Result::Err(BridgeError::MissingField(Field::Height)),
                Option::Some(h) => Result::Ok(Event::Resize { width: w, height: h }),
            },
        }
    } else if event_type == "paste"@ {
        match data.content {
            Option::None => Result::Err(BridgeError::MissingField(Field::Content)),
            Option::Some(c) => Result::Ok(Event::Paste { content: c }),
        }
    } else if event_type == "focus_gained"@ {
        Result::Ok(Event::FocusGained)
    } else if event_type == "focus_lost"@ {
        Result::Ok(Event::FocusLost)
    } else {
        Result::Err(BridgeError::UnknownEventType)
    }
}

/// Parses one synthetic event descriptor.
pub fn parse_event(event_type: &str, data: &EventData) -> (r: Result<Event, BridgeError>)
    ensures
        r == spec_parse_event(event_type@, *data),
{
    let mods: KeyMods = match &data.modifiers {
        Option::None => KeyMods::none(),
        Option::Some(v) => parse_mods(v),
    };
    if str_eq(event_type, "key") {
        match &data.code {
            Option::None => Result::Err(BridgeError::MissingField(Field::Code)),
            Option::Some(c) => Result::Ok(
                Event::Key { code: key_code_from_token(c.as_str()), modifiers: mods },
            ),
        }
    } else if str_eq(event_type, "mouse") {
        match &data.kind {
            Option::None => Result::Err(BridgeError::MissingField(Field::Kind)),
            Option::Some(k) => match mouse_kind_from_token(k.as_str()) {
                Option::None => Result::Err(BridgeError::UnknownMouseKind),
                Option::Some(kind) => match (data.x, data.y) {
                    (Option::None, _) => Result::Err(BridgeError::MissingField(Field::X)),
                    (_, Option::None) => Result::Err(BridgeError::MissingField(Field::Y)),
                    (Option::Some(x), Option::Some(y)) => {
                        let button: MouseButton = match &data.button {
                            Option::None => MouseButton::Left,
                            Option::Some(s) => {
                                if str_eq(s.as_str(), "right") {
                                    MouseButton::Right
                                } else if str_eq(s.as_str(), "middle") {
                                    MouseButton::Middle
                                } else {
                                    MouseButton::Left
                                }
                            },
                        };
                        Result::Ok(Event::Mouse { kind, button, x, y, modifiers: mods })
                    },
                },
            },
        }
    } else if str_eq(event_type, "resize") {
        match (data.width, data.height) {
            (Option::None, _) => Result::Err(BridgeError::MissingField(Field::Width)),
            (_, Option::None) => Result::Err(BridgeError::MissingField(Field::Height)),
            (Option::Some(w), Option::Some(h)) => Result::Ok(Event::Resize { width: w, height: h }),
        }
    } else if str_eq(event_type, "paste") {
        match &data.content {
            Option::None => Result::Err(BridgeError::MissingField(Field::Content)),
            Option::Some(c) => Result::Ok(Event::Paste { content: c.clone() }),
        }
    } else if str_eq(event_type, "focus_gained") {
        Result::Ok(Event::FocusGained)
    } else if str_eq(event_type, "focus_lost") {
        Result::Ok(Event::FocusLost)
    } else {
        Result::Err(BridgeError::UnknownEventType)
    }
}

/// What a poll decides.
#[derive(Clone, Debug, PartialEq, Eq)]
pub enum Poll {
    /// An event is ready.
    Ready(Event),
    /// No event, and none will come without a live backend.
    NoEvent,
    /// The queue is empty; the caller should wait on the live backend
    /// (honouring its timeout) and translate what arrives.
    AskBackend,
}

/// The FIFO queue of synthetic events. A host owns one per session and
/// passes it explicitly; there is no ambient global queue.
#[derive(Clone, Debug)]
pub struct EventQueue {
    items: Vec<Event>,
}

impl EventQueue {
    /// The queued events, oldest first.
    pub closed spec fn spec_events(self) -> Seq<Event> {
        self.items@
    }

    /// A fresh, empty queue.
    pub fn new() -> (r: EventQueue)
        ensures
            r.spec_events().len() == 0,
    {
        EventQueue { items: Vec::new() }
    }

    /// Empties the queue.
    pub fn clear_events(&mut self)
        ensures
            final(self).spec_events().len() == 0,
    {
        self.items.clear();
    }

    /// Parses a synthetic event and appends it to the queue. A malformed
    /// descriptor fails loudly and leaves the queue unchanged.
    pub fn inject_test_event(&mut self, event_type: &str, data: &EventData) -> (r: Result<
        (),
        BridgeError,
    >)
        ensures
            (match spec_parse_event(event_type@, *data) {
                Result::Ok(e) => r == Result::<(), BridgeError>::Ok(())
                    && final(self).spec_events() == old(self).spec_events().push(e),
                Result::Err(e) => r == Result::<(), BridgeError>::Err(e)
                    && final(self).spec_events() == old(self).spec_events(),
            }),
    {
        match parse_event(event_type, data) {
            Result::Ok(e) => {
                self.items.push(e);
                Result::Ok(())
            },
            Result::Err(e) => Result::Err(e),
        }
    }

    /// Polls for the next event. The queue is drained first, oldest
    /// entry first, ignoring any timeout; an empty queue yields
    /// `NoEvent` at once when no live backend exists, and `AskBackend`
    /// when one does.
    pub fn poll_event(&mut self, live_backend: bool) -> (r: Poll)
        ensures
            old(self).spec_events().len() > 0 ==> r == Poll::Ready(old(self).spec_events()[0])
                && final(self).spec_events() == old(self).spec_events().skip(1),
            old(self).spec_events().len() == 0 ==> final(self).spec_events() == old(
                self,
            ).spec_events() && r == (if live_backend {
                Poll::AskBackend
            } else {
                Poll::NoEvent
            }),
    {
        if self.items.len() > 0 {
            let e = self.items.remove(0);
            Poll::Ready(e)
        } else if live_backend {
            Poll::AskBackend
        } else {
            Poll::NoEvent
        }
    }
}

/// Event FIFO: two injected events come back in injection order, and a
/// cleared queue has nothing to yield.
pub proof fn lemma_event_fifo(q: Seq<Event>, e1: Event, e2: Event)
    requires
        q.len() == 0,
    ensures
        ({
            let q2 = q.push(e1).push(e2);
            &&& q2[0] == e1
            &&& q2.skip(1)[0] == e2
            &&& q2.skip(1).skip(1).len() == 0
        }),
{
    let q2 = q.push(e1).push(e2);
    assert(q2.skip(1) =~= seq![e2]);
    assert(q2.skip(1).skip(1) =~= Seq::<Event>::empty());
}

/// Translates a key event of the live backend: only presses surface;
/// repeats and releases are swallowed.
pub fn translate_backend_key(code: KeyCode, modifiers: KeyMods, is_press: bool) -> (r: Option<
    Event,
>)
    ensures
        is_press ==> r == Option::Some(Event::Key { code, modifiers }),
        !is_press ==> r is None,
{
    if is_press {
        Option::Some(Event::Key { code, modifiers })
    } else {
        Option::None
    }
}

/// A canonical event flattened to plain output fields, as the host sees
/// it.
#[derive(Clone, Debug)]
pub struct EventRecord {
    /// `key`, `mouse`, `resize`, `paste`, `focus_gained` or `focus_lost`.
    pub event_type: String,
    /// The key token, for key events.
    pub code: Option<String>,
    /// The mouse kind token, for mouse events.
    pub mouse_kind: Option<String>,
    /// The button token; `none` for kinds that carry no button.
    pub button: Option<String>,
    pub x: Option<u16>,
    pub y: Option<u16>,
    pub width: Option<u16>,
    pub height: Option<u16>,
    /// The pasted text, for paste events.
    pub content: Option<String>,
    /// The modifier tokens held, in the order `ctrl`, `alt`, `shift`.
    pub modifiers: Vec<String>,
}

/// The modifier tokens a flag set reports, in order.
pub open spec fn spec_mod_tokens(m: KeyMods) -> Seq<Seq<char>> {
    let s0 = Seq::<Seq<char>>::empty();
    let s1 = if m.ctrl {
        s0.push("ctrl"@)
    } else {
        s0
    };
    let s2 = if m.alt {
        s1.push("alt"@)
    } else {
        s1
    };
    if m.shift {
        s2.push("shift"@)
    } else {
        s2
    }
}

fn mod_tokens(m: KeyMods) -> (r: Vec<String>)
    ensures
        r@.map_values(|t: String| t@) == spec_mod_tokens(m),
{
    let mut v: Vec<String> = Vec::new();
    if m.ctrl {
        v.push(String::from_str("ctrl"));
    }
    if m.alt {
        v.push(String::from_str("alt"));
    }
    if m.shift {
        v.push(String::from_str("shift"));
    }
    proof {
        assert(v@.map_values(|t: String| t@) =~= spec_mod_tokens(m));
    }
    v
}

/// The mouse kind token an event reports.
pub open spec fn spec_mouse_kind_token(k: MouseKind) -> Seq<char> {
    match k {
        MouseKind::Down => "down"@,
        MouseKind::Up => "up"@,
        MouseKind::Drag => "drag"@,
        MouseKind::Moved => "moved"@,
        MouseKind::ScrollDown => "scroll_down"@,
        MouseKind::ScrollUp => "scroll_up"@,
        MouseKind::ScrollLeft => "scroll_left"@,
        MouseKind::ScrollRight => "scroll_right"@,
    }
}

/// Does the mouse kind carry a button?
pub open spec fn spec_kind_has_button(k: MouseKind) -> bool {
    k == MouseKind::Down || k == MouseKind::Up || k == MouseKind::Drag
}

/// The button token reported on output: the button itself for kinds that
/// carry one, the explicit `none` sentinel otherwise.
pub open spec fn spec_button_token(k: MouseKind, b: MouseButton) -> Seq<char> {
    if spec_kind_has_button(k) {
        match b {
            MouseButton::Left => "left"@,
            MouseButton::Right => "right"@,
            MouseButton::Middle => "middle"@,
            MouseButton::NoButton => "none"@,
        }
    } else {
        "none"@
    }
}

/// Flattens a canonical event to its output record: the key token, the
/// mouse kind and button tokens (button `none` for moved and scroll
/// kinds), coordinates, sizes, text and modifier tokens, each exactly
/// where its event type puts them.
pub fn event_record(e: &Event) -> (r: EventRecord)
    ensures
        (match *e {
            Event::Key { code, modifiers } => r.event_type@ == "key"@ && (r.code matches Option::Some(c)
                && c@ == spec_key_token(code)) && r.modifiers@.map_values(|t: String| t@)
                == spec_mod_tokens(modifiers) && r.mouse_kind is None && r.button is None
                && r.x is None && r.y is None && r.width is None && r.height is None
                && r.content is None,
            Event::Mouse { kind, button, x, y, modifiers } => r.event_type@ == "mouse"@ && (
            r.mouse_kind matches Option::Some(k) && k@ == spec_mouse_kind_token(kind)) && (
            r.button matches Option::Some(b) && b@ == spec_button_token(kind, button)) && r.x
                == Option::Some(x) && r.y == Option::Some(y) && r.modifiers@.map_values(
                |t: String| t@,
            ) == spec_mod_tokens(modifiers) && r.code is None && r.width is None
                && r.height is None && r.content is None,
            Event::Resize { width, height } => r.event_type@ == "resize"@ && r.width
                == Option::Some(width) && r.height == Option::Some(height) && r.code is None
                && r.mouse_kind is None && r.button is None && r.x is None && r.y is None
                && r.content is None && r.modifiers@.len() == 0,
            Event::Paste { content } => r.event_type@ == "paste"@ && (r.content matches Option::Some(
                c,
            ) && c@ == content@) && r.code is None && r.mouse_kind is None && r.button is None
                && r.x is None && r.y is None && r.width is None && r.height is None
                && r.modifiers@.len() == 0,
            Event::FocusGained => r.event_type@ == "focus_gained"@ && r.code is None
                && r.mouse_kind is None && r.button is None && r.x is None && r.y is None
                && r.width is None && r.height is None && r.content is None && r.modifiers@.len()
                == 0,
            Event::FocusLost => r.event_type@ == "focus_lost"@ && r.code is None
                && r.mouse_kind is None && r.button is None && r.x is None && r.y is None
                && r.width is None && r.height is None && r.content is None && r.modifiers@.len()
                == 0,
        }),
{
    let empty = EventRecord {
        event_type: String::new(),
        code: Option::None,
        mouse_kind: Option::None,
        button: Option::None,
        x: Option::None,
        y: Option::None,
        width: Option::None,
        height: Option::None,
        content: Option::None,
        modifiers: Vec::new(),
    };
    match e {
        Event::Key { code, modifiers } => EventRecord {
            event_type: String::from_str("key"),
            code: Option::Some(key_token(*code)),
            modifiers: mod_tokens(*modifiers),
            ..empty
        },
        Event::Mouse { kind, button, x, y, modifiers } => {
            let kind_token: String = match kind {
                MouseKind::Down => String::from_str("down"),
                MouseKind::Up => String::from_str("up"),
                MouseKind::Drag => String::from_str("drag"),
                MouseKind::Moved => String::from_str("moved"),
                MouseKind::ScrollDown => String::from_str("scroll_down"),
                MouseKind::ScrollUp => String::from_str("scroll_up"),
                MouseKind::ScrollLeft => String::from_str("scroll_left"),
                MouseKind::ScrollRight => String::from_str("scroll_right"),
            };
            let has_button = match kind {
                MouseKind::Down => true,
                MouseKind::Up => true,
                MouseKind::Drag => true,
                _ => false,
            };
            let button_token: String = if has_button {
                match button {
                    MouseButton::Left => String::from_str("left"),
                    MouseButton::Right => String::from_str("right"),
                    MouseButton::Middle => String::from_str("middle"),
                    MouseButton::NoButton => String::from_str("none"),
                }
            } else {
                String::from_str("none")
            };
            EventRecord {
                event_type: String::from_str("mouse"),
                mouse_kind: Option::Some(kind_token),
                button: Option::Some(button_token),
                x: Option::Some(*x),
                y: Option::Some(*y),
                modifiers: mod_tokens(*modifiers),
                ..empty
            }
        },
        Event::Resize { width, height } => EventRecord {
            event_type: String::from_str("resize"),
            width: Option::Some(*width),
            height: Option::Some(*height),
            ..empty
        },
        Event::Paste { content } => EventRecord {
            event_type: String::from_str("paste"),
            content: Option::Some(content.clone()),
            ..empty
        },
        Event::FocusGained => EventRecord {
            event_type: String::from_str("focus_gained"),
            ..empty
        },
        Event::FocusLost => EventRecord { event_type: String::from_str("focus_lost"), ..empty },
    }
}

} // verus!
