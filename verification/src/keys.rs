//! A key press, as the terminal reports it: which key, and which of
//! `ctrl`, `alt` and `shift` were held.
use vstd::prelude::*;

verus! {

#[derive(Debug, Clone, Copy, PartialEq, Eq, Structural)]
pub enum KeyCode {
    Char(char),
    Enter,
    Esc,
    Tab,
    BackTab,
    Backspace,
    Delete,
    Insert,
    Home,
    End,
    PageUp,
    PageDown,
    Up,
    Down,
    Left,
    Right,
    F(u8),
    /// The menu key.
    Menu,
}

/// The modifiers held with a key.
#[derive(Debug, Clone, Copy, PartialEq, Eq, Structural)]
pub struct Mods {
    pub ctrl: bool,
    pub alt: bool,
    pub shift: bool,
}

impl Mods {
    pub fn none() -> (m: Mods)
        ensures
            !m.ctrl && !m.alt && !m.shift,
    {
        Mods { ctrl: false, alt: false, shift: false }
    }

    pub fn ctrl() -> (m: Mods)
        ensures
            m.ctrl && !m.alt && !m.shift,
    {
        Mods { ctrl: true, alt: false, shift: false }
    }

    pub fn alt() -> (m: Mods)
        ensures
            !m.ctrl && m.alt && !m.shift,
    {
        Mods { ctrl: false, alt: true, shift: false }
    }

    pub fn shift() -> (m: Mods)
        ensures
            !m.ctrl && !m.alt && m.shift,
    {
        Mods { ctrl: false, alt: false, shift: true }
    }

    pub open spec fn is_empty(self) -> bool {
        !self.ctrl && !self.alt && !self.shift
    }
}

/// One key press.
#[derive(Debug, Clone, Copy, PartialEq, Eq, Structural)]
pub struct Key {
    pub code: KeyCode,
    pub mods: Mods,
}

impl Key {
    pub fn new(code: KeyCode, mods: Mods) -> (k: Key)
        ensures
            k == (Key { code, mods }),
    {
        Key { code, mods }
    }

    /// The key with no modifier held.
    pub fn plain(code: KeyCode) -> (k: Key)
        ensures
            k.code == code,
            k.mods.is_empty(),
    {
        Key { code, mods: Mods::none() }
    }

    /// `ctrl+c`, the one way out that works everywhere.
    pub open spec fn is_ctrl_c(self) -> bool {
        self.mods.ctrl && self.code == KeyCode::Char('c')
    }
}

/// Whether `k` is `ctrl+c`.
pub fn is_ctrl_c(k: Key) -> (b: bool)
    ensures
        b == k.is_ctrl_c(),
{
    k.mods.ctrl && match k.code {
        KeyCode::Char(c) => c == 'c',
        _ => false,
    }
}

/// Whether `k` is `esc`, whatever modifiers it carries.
pub fn is_esc(k: Key) -> (b: bool)
    ensures
        b == (k.code == KeyCode::Esc),
{
    match k.code {
        KeyCode::Esc => true,
        _ => false,
    }
}

} // verus!
