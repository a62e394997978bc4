//! Keys that sound effects and actions can be bound to.
use vstd::prelude::*;

verus! {

/// A key or key combination.
#[derive(Debug, Clone, Copy, PartialEq, Eq, Hash, Structural)]
pub enum KeyCode {
    F1, F2, F3, F4, F5, F6, F7, F8, F9, F10,
    F11, F12, Num1, Num2, Num3, Num4, Num5, Num6, Num7, Num8,
    Num9, Num0, A, B, C, D, E, F, G, H,
    I, J, K, L, M, N, O, P, Q, R,
    S, T, U, V, W, X, Y, Z, Space, Enter,
    Escape, Tab, Backspace, Delete, Up, Down, Left, Right, Home, End,
    PageUp, PageDown, Insert, PrintScreen, ScrollLock, Pause, CtrlA, CtrlB, CtrlC, CtrlD,
    CtrlE, CtrlF, CtrlG, CtrlH, CtrlI, CtrlJ, CtrlK, CtrlL, CtrlM, CtrlN,
    CtrlO, CtrlP, CtrlQ, CtrlR, CtrlS, CtrlT, CtrlU, CtrlV, CtrlW, CtrlX,
    CtrlY, CtrlZ, AltA, AltB, AltC, AltD, AltE, AltF, AltG, AltH,
    AltI, AltJ, AltK, AltL, AltM, AltN, AltO, AltP, AltQ, AltR,
    AltS, AltT, AltU, AltV, AltW, AltX, AltY, AltZ, ShiftF1, ShiftF2,
    ShiftF3, ShiftF4, ShiftF5, ShiftF6, ShiftF7, ShiftF8, ShiftF9, ShiftF10, ShiftF11, ShiftF12,
}

/// The label of each key.
pub open spec fn key_label(k: KeyCode) -> &'static str {
    match k {
        KeyCode::F1 => "F1",
        KeyCode::F2 => "F2",
        KeyCode::F3 => "F3",
        KeyCode::F4 => "F4",
        KeyCode::F5 => "F5",
        KeyCode::F6 => "F6",
        KeyCode::F7 => "F7",
        KeyCode::F8 => "F8",
        KeyCode::F9 => "F9",
        KeyCode::F10 => "F10",
        KeyCode::F11 => "F11",
        KeyCode::F12 => "F12",
        KeyCode::Num1 => "1",
        KeyCode::Num2 => "2",
        KeyCode::Num3 => "3",
        KeyCode::Num4 => "4",
        KeyCode::Num5 => "5",
        KeyCode::Num6 => "6",
        KeyCode::Num7 => "7",
        KeyCode::Num8 => "8",
        KeyCode::Num9 => "9",
        KeyCode::Num0 => "0",
        KeyCode::A => "A",
        KeyCode::B => "B",
        KeyCode::C => "C",
        KeyCode::D => "D",
        KeyCode::E => "E",
        KeyCode::F => "F",
        KeyCode::G => "G",
        KeyCode::H => "H",
        KeyCode::I => "I",
        KeyCode::J => "J",
        KeyCode::K => "K",
        KeyCode::L => "L",
        KeyCode::M => "M",
        KeyCode::N => "N",
        KeyCode::O => "O",
        KeyCode::P => "P",
        KeyCode::Q => "Q",
        KeyCode::R => "R",
        KeyCode::S => "S",
        KeyCode::T => "T",
        KeyCode::U => "U",
        KeyCode::V => "V",
        KeyCode::W => "W",
        KeyCode::X => "X",
        KeyCode::Y => "Y",
        KeyCode::Z => "Z",
        KeyCode::Space => "Space",
        KeyCode::Enter => "Enter",
        KeyCode::Escape => "Esc",
        KeyCode::Tab => "Tab",
        KeyCode::Backspace => "Backspace",
        KeyCode::Delete => "Delete",
        KeyCode::Up => "↑",
        KeyCode::Down => "↓",
        KeyCode::Left => "←",
        KeyCode::Right => "→",
        KeyCode::Home => "Home",
        KeyCode::End => "End",
        KeyCode::PageUp => "PgUp",
        KeyCode::PageDown => "PgDn",
        KeyCode::Insert => "Insert",
        KeyCode::PrintScreen => "PrtSc",
        KeyCode::ScrollLock => "ScrLk",
        KeyCode::Pause => "Pause",
        KeyCode::CtrlA => "Ctrl+A",
        KeyCode::CtrlB => "Ctrl+B",
        KeyCode::CtrlC => "Ctrl+C",
        KeyCode::CtrlD => "Ctrl+D",
        KeyCode::CtrlE => "Ctrl+E",
        KeyCode::CtrlF => "Ctrl+F",
        KeyCode::CtrlG => "Ctrl+G",
        KeyCode::CtrlH => "Ctrl+H",
        KeyCode::CtrlI => "Ctrl+I",
        KeyCode::CtrlJ => "Ctrl+J",
        KeyCode::CtrlK => "Ctrl+K",
        KeyCode::CtrlL => "Ctrl+L",
        KeyCode::CtrlM => "Ctrl+M",
        KeyCode::CtrlN => "Ctrl+N",
        KeyCode::CtrlO => "Ctrl+O",
        KeyCode::CtrlP => "Ctrl+P",
        KeyCode::CtrlQ => "Ctrl+Q",
        KeyCode::CtrlR => "Ctrl+R",
        KeyCode::CtrlS => "Ctrl+S",
        KeyCode::CtrlT => "Ctrl+T",
        KeyCode::CtrlU => "Ctrl+U",
        KeyCode::CtrlV => "Ctrl+V",
        KeyCode::CtrlW => "Ctrl+W",
        KeyCode::CtrlX => "Ctrl+X",
        KeyCode::CtrlY => "Ctrl+Y",
        KeyCode::CtrlZ => "Ctrl+Z",
        KeyCode::AltA => "Alt+A",
        KeyCode::AltB => "Alt+B",
        KeyCode::AltC => "Alt+C",
        KeyCode::AltD => "Alt+D",
        KeyCode::AltE => "Alt+E",
        KeyCode::AltF => "Alt+F",
        KeyCode::AltG => "Alt+G",
        KeyCode::AltH => "Alt+H",
        KeyCode::AltI => "Alt+I",
        KeyCode::AltJ => "Alt+J",
        KeyCode::AltK => "Alt+K",
        KeyCode::AltL => "Alt+L",
        KeyCode::AltM => "Alt+M",
        KeyCode::AltN => "Alt+N",
        KeyCode::AltO => "Alt+O",
        KeyCode::AltP => "Alt+P",
        KeyCode::AltQ => "Alt+Q",
        KeyCode::AltR => "Alt+R",
        KeyCode::AltS => "Alt+S",
        KeyCode::AltT => "Alt+T",
        KeyCode::AltU => "Alt+U",
        KeyCode::AltV => "Alt+V",
        KeyCode::AltW => "Alt+W",
        KeyCode::AltX => "Alt+X",
        KeyCode::AltY => "Alt+Y",
        KeyCode::AltZ => "Alt+Z",
        KeyCode::ShiftF1 => "Shift+F1",
        KeyCode::ShiftF2 => "Shift+F2",
        KeyCode::ShiftF3 => "Shift+F3",
        KeyCode::ShiftF4 => "Shift+F4",
        KeyCode::ShiftF5 => "Shift+F5",
        KeyCode::ShiftF6 => "Shift+F6",
        KeyCode::ShiftF7 => "Shift+F7",
        KeyCode::ShiftF8 => "Shift+F8",
        KeyCode::ShiftF9 => "Shift+F9",
        KeyCode::ShiftF10 => "Shift+F10",
        KeyCode::ShiftF11 => "Shift+F11",
        KeyCode::ShiftF12 => "Shift+F12",
    }
}

/// The keys offered for binding, in the order they are listed.
pub open spec fn offered_keys() -> Seq<KeyCode> {
    seq![
        KeyCode::F1,
        KeyCode::F2,
        KeyCode::F3,
        KeyCode::F4,
        KeyCode::F5,
        KeyCode::F6,
        KeyCode::F7,
        KeyCode::F8,
        KeyCode::F9,
        KeyCode::F10,
        KeyCode::F11,
        KeyCode::F12,
        KeyCode::Num1,
        KeyCode::Num2,
        KeyCode::Num3,
        KeyCode::Num4,
        KeyCode::Num5,
        KeyCode::Num6,
        KeyCode::Num7,
        KeyCode::Num8,
        KeyCode::Num9,
        KeyCode::Num0,
        KeyCode::CtrlA,
        KeyCode::CtrlB,
        KeyCode::CtrlC,
        KeyCode::CtrlD,
        KeyCode::CtrlE,
        KeyCode::CtrlF,
        KeyCode::CtrlG,
        KeyCode::CtrlH,
        KeyCode::CtrlI,
        KeyCode::CtrlJ,
        KeyCode::AltA,
        KeyCode::AltB,
        KeyCode::AltC,
        KeyCode::AltD,
        KeyCode::AltE,
        KeyCode::AltF,
        KeyCode::AltG,
        KeyCode::AltH,
        KeyCode::AltI,
        KeyCode::AltJ,
        KeyCode::ShiftF1,
        KeyCode::ShiftF2,
        KeyCode::ShiftF3,
        KeyCode::ShiftF4,
        KeyCode::ShiftF5,
        KeyCode::ShiftF6,
        KeyCode::ShiftF7,
        KeyCode::ShiftF8,
    ]
}

/// The key that an upper-case name stands for, where it stands for one.
pub open spec fn key_named(name: Seq<char>) -> Option<KeyCode> {
    if name == "F1"@ {
        Some(KeyCode::F1)
    } else if name == "F2"@ {
        Some(KeyCode::F2)
    } else if name == "F3"@ {
        Some(KeyCode::F3)
    } else if name == "F4"@ {
        Some(KeyCode::F4)
    } else if name == "F5"@ {
        Some(KeyCode::F5)
    } else if name == "F6"@ {
        Some(KeyCode::F6)
    } else if name == "F7"@ {
        Some(KeyCode::F7)
    } else if name == "F8"@ {
        Some(KeyCode::F8)
    } else if name == "F9"@ {
        Some(KeyCode::F9)
    } else if name == "F10"@ {
        Some(KeyCode::F10)
    } else if name == "F11"@ {
        Some(KeyCode::F11)
    } else if name == "F12"@ {
        Some(KeyCode::F12)
    } else if name == "1"@ {
        Some(KeyCode::Num1)
    } else if name == "2"@ {
        Some(KeyCode::Num2)
    } else if name == "3"@ {
        Some(KeyCode::Num3)
    } else if name == "4"@ {
        Some(KeyCode::Num4)
    } else if name == "5"@ {
        Some(KeyCode::Num5)
    } else if name == "6"@ {
        Some(KeyCode::Num6)
    } else if name == "7"@ {
        Some(KeyCode::Num7)
    } else if name == "8"@ {
        Some(KeyCode::Num8)
    } else if name == "9"@ {
        Some(KeyCode::Num9)
    } else if name == "0"@ {
        Some(KeyCode::Num0)
    } else if name == "CTRL+A"@ {
        Some(KeyCode::CtrlA)
    } else if name == "CTRL+B"@ {
        Some(KeyCode::CtrlB)
    } else if name == "CTRL+C"@ {
        Some(KeyCode::CtrlC)
    } else if name == "CTRL+D"@ {
        Some(KeyCode::CtrlD)
    } else if name == "CTRL+E"@ {
        Some(KeyCode::CtrlE)
    } else if name == "ALT+A"@ {
        Some(KeyCode::AltA)
    } else if name == "ALT+B"@ {
        Some(KeyCode::AltB)
    } else if name == "ALT+C"@ {
        Some(KeyCode::AltC)
    } else if name == "ALT+D"@ {
        Some(KeyCode::AltD)
    } else if name == "ALT+E"@ {
        Some(KeyCode::AltE)
    } else if name == "SPACE"@ {
        Some(KeyCode::Space)
    } else if name == "ENTER"@ {
        Some(KeyCode::Enter)
    } else if name == "ESC"@ {
        Some(KeyCode::Escape)
    } else if name == "ESCAPE"@ {
        Some(KeyCode::Escape)
    } else {
        None
    }
}

/// What `str::to_uppercase` makes of a string.
pub uninterp spec fn upper_of(s: Seq<char>) -> Seq<char>;

/// Relies on `str::to_uppercase`: the upper-case form of the string, a
/// function of its characters alone.
#[verifier::external_body]
fn uppercase(s: &str) -> (r: String)
    ensures
        r@ == upper_of(s@),
{
    s.to_uppercase()
}

impl KeyCode {
    /// The label of this key.
    pub fn display_name(&self) -> (r: &'static str)
        ensures
            r == key_label(*self),
    {
        match self {
            KeyCode::F1 => "F1",
            KeyCode::F2 => "F2",
            KeyCode::F3 => "F3",
            KeyCode::F4 => "F4",
            KeyCode::F5 => "F5",
            KeyCode::F6 => "F6",
            KeyCode::F7 => "F7",
            KeyCode::F8 => "F8",
            KeyCode::F9 => "F9",
            KeyCode::F10 => "F10",
            KeyCode::F11 => "F11",
            KeyCode::F12 => "F12",
            KeyCode::Num1 => "1",
            KeyCode::Num2 => "2",
            KeyCode::Num3 => "3",
            KeyCode::Num4 => "4",
            KeyCode::Num5 => "5",
            KeyCode::Num6 => "6",
            KeyCode::Num7 => "7",
            KeyCode::Num8 => "8",
            KeyCode::Num9 => "9",
            KeyCode::Num0 => "0",
            KeyCode::A => "A",
            KeyCode::B => "B",
            KeyCode::C => "C",
            KeyCode::D => "D",
            KeyCode::E => "E",
            KeyCode::F => "F",
            KeyCode::G => "G",
            KeyCode::H => "H",
            KeyCode::I => "I",
            KeyCode::J => "J",
            KeyCode::K => "K",
            KeyCode::L => "L",
            KeyCode::M => "M",
            KeyCode::N => "N",
            KeyCode::O => "O",
            KeyCode::P => "P",
            KeyCode::Q => "Q",
            KeyCode::R => "R",
            KeyCode::S => "S",
            KeyCode::T => "T",
            KeyCode::U => "U",
            KeyCode::V => "V",
            KeyCode::W => "W",
            KeyCode::X => "X",
            KeyCode::Y => "Y",
            KeyCode::Z => "Z",
            KeyCode::Space => "Space",
            KeyCode::Enter => "Enter",
            KeyCode::Escape => "Esc",
            KeyCode::Tab => "Tab",
            KeyCode::Backspace => "Backspace",
            KeyCode::Delete => "Delete",
            KeyCode::Up => "↑",
            KeyCode::Down => "↓",
            KeyCode::Left => "←",
            KeyCode::Right => "→",
            KeyCode::Home => "Home",
            KeyCode::End => "End",
            KeyCode::PageUp => "PgUp",
            KeyCode::PageDown => "PgDn",
            KeyCode::Insert => "Insert",
            KeyCode::PrintScreen => "PrtSc",
            KeyCode::ScrollLock => "ScrLk",
            KeyCode::Pause => "Pause",
            KeyCode::CtrlA => "Ctrl+A",
            KeyCode::CtrlB => "Ctrl+B",
            KeyCode::CtrlC => "Ctrl+C",
            KeyCode::CtrlD => "Ctrl+D",
            KeyCode::CtrlE => "Ctrl+E",
            KeyCode::CtrlF => "Ctrl+F",
            KeyCode::CtrlG => "Ctrl+G",
            KeyCode::CtrlH => "Ctrl+H",
            KeyCode::CtrlI => "Ctrl+I",
            KeyCode::CtrlJ => "Ctrl+J",
            KeyCode::CtrlK => "Ctrl+K",
            KeyCode::CtrlL => "Ctrl+L",
            KeyCode::CtrlM => "Ctrl+M",
            KeyCode::CtrlN => "Ctrl+N",
            KeyCode::CtrlO => "Ctrl+O",
            KeyCode::CtrlP => "Ctrl+P",
            KeyCode::CtrlQ => "Ctrl+Q",
            KeyCode::CtrlR => "Ctrl+R",
            KeyCode::CtrlS => "Ctrl+S",
            KeyCode::CtrlT => "Ctrl+T",
            KeyCode::CtrlU => "Ctrl+U",
            KeyCode::CtrlV => "Ctrl+V",
            KeyCode::CtrlW => "Ctrl+W",
            KeyCode::CtrlX => "Ctrl+X",
            KeyCode::CtrlY => "Ctrl+Y",
            KeyCode::CtrlZ => "Ctrl+Z",
            KeyCode::AltA => "Alt+A",
            KeyCode::AltB => "Alt+B",
            KeyCode::AltC => "Alt+C",
            KeyCode::AltD => "Alt+D",
            KeyCode::AltE => "Alt+E",
            KeyCode::AltF => "Alt+F",
            KeyCode::AltG => "Alt+G",
            KeyCode::AltH => "Alt+H",
            KeyCode::AltI => "Alt+I",
            KeyCode::AltJ => "Alt+J",
            KeyCode::AltK => "Alt+K",
            KeyCode::AltL => "Alt+L",
            KeyCode::AltM => "Alt+M",
            KeyCode::AltN => "Alt+N",
            KeyCode::AltO => "Alt+O",
            KeyCode::AltP => "Alt+P",
            KeyCode::AltQ => "Alt+Q",
            KeyCode::AltR => "Alt+R",
            KeyCode::AltS => "Alt+S",
            KeyCode::AltT => "Alt+T",
            KeyCode::AltU => "Alt+U",
            KeyCode::AltV => "Alt+V",
            KeyCode::AltW => "Alt+W",
            KeyCode::AltX => "Alt+X",
            KeyCode::AltY => "Alt+Y",
            KeyCode::AltZ => "Alt+Z",
            KeyCode::ShiftF1 => "Shift+F1",
            KeyCode::ShiftF2 => "Shift+F2",
            KeyCode::ShiftF3 => "Shift+F3",
            KeyCode::ShiftF4 => "Shift+F4",
            KeyCode::ShiftF5 => "Shift+F5",
            KeyCode::ShiftF6 => "Shift+F6",
            KeyCode::ShiftF7 => "Shift+F7",
            KeyCode::ShiftF8 => "Shift+F8",
            KeyCode::ShiftF9 => "Shift+F9",
            KeyCode::ShiftF10 => "Shift+F10",
            KeyCode::ShiftF11 => "Shift+F11",
            KeyCode::ShiftF12 => "Shift+F12",
        }
    }

    /// The keys offered for binding.
    pub fn all_keys() -> (r: Vec<KeyCode>)
        ensures
            r@ == offered_keys(),
    {
        let mut r: Vec<KeyCode> = Vec::new();
        r.push(KeyCode::F1);
        r.push(KeyCode::F2);
        r.push(KeyCode::F3);
        r.push(KeyCode::F4);
        r.push(KeyCode::F5);
        r.push(KeyCode::F6);
        r.push(KeyCode::F7);
        r.push(KeyCode::F8);
        r.push(KeyCode::F9);
        r.push(KeyCode::F10);
        r.push(KeyCode::F11);
        r.push(KeyCode::F12);
        r.push(KeyCode::Num1);
        r.push(KeyCode::Num2);
        r.push(KeyCode::Num3);
        r.push(KeyCode::Num4);
        r.push(KeyCode::Num5);
        r.push(KeyCode::Num6);
        r.push(KeyCode::Num7);
        r.push(KeyCode::Num8);
        r.push(KeyCode::Num9);
        r.push(KeyCode::Num0);
        r.push(KeyCode::CtrlA);
        r.push(KeyCode::CtrlB);
        r.push(KeyCode::CtrlC);
        r.push(KeyCode::CtrlD);
        r.push(KeyCode::CtrlE);
        r.push(KeyCode::CtrlF);
        r.push(KeyCode::CtrlG);
        r.push(KeyCode::CtrlH);
        r.push(KeyCode::CtrlI);
        r.push(KeyCode::CtrlJ);
        r.push(KeyCode::AltA);
        r.push(KeyCode::AltB);
        r.push(KeyCode::AltC);
        r.push(KeyCode::AltD);
        r.push(KeyCode::AltE);
        r.push(KeyCode::AltF);
        r.push(KeyCode::AltG);
        r.push(KeyCode::AltH);
        r.push(KeyCode::AltI);
        r.push(KeyCode::AltJ);
        r.push(KeyCode::ShiftF1);
        r.push(KeyCode::ShiftF2);
        r.push(KeyCode::ShiftF3);
        r.push(KeyCode::ShiftF4);
        r.push(KeyCode::ShiftF5);
        r.push(KeyCode::ShiftF6);
        r.push(KeyCode::ShiftF7);
        r.push(KeyCode::ShiftF8);
        assert(r@ =~= offered_keys());
        r
    }

    /// The key that a name stands for, case aside.
    pub fn from_string(s: &str) -> (r: Option<KeyCode>)
        ensures
            r == key_named(upper_of(s@)),
    {
        let upper = uppercase(s);
        Self::from_upper_name(upper.as_str())
    }

    /// The key that an upper-case name stands for.
    pub fn from_upper_name(name: &str) -> (r: Option<KeyCode>)
        ensures
            r == key_named(name@),
    {
        if name.eq("F1") {
            Some(KeyCode::F1)
        } else if name.eq("F2") {
            Some(KeyCode::F2)
        } else if name.eq("F3") {
            Some(KeyCode::F3)
        } else if name.eq("F4") {
            Some(KeyCode::F4)
        } else if name.eq("F5") {
            Some(KeyCode::F5)
        } else if name.eq("F6") {
            Some(KeyCode::F6)
        } else if name.eq("F7") {
            Some(KeyCode::F7)
        } else if name.eq("F8") {
            Some(KeyCode::F8)
        } else if name.eq("F9") {
            Some(KeyCode::F9)
        } else if name.eq("F10") {
            Some(KeyCode::F10)
        } else if name.eq("F11") {
            Some(KeyCode::F11)
        } else if name.eq("F12") {
            Some(KeyCode::F12)
        } else if name.eq("1") {
            Some(KeyCode::Num1)
        } else if name.eq("2") {
            Some(KeyCode::Num2)
        } else if name.eq("3") {
            Some(KeyCode::Num3)
        } else if name.eq("4") {
            Some(KeyCode::Num4)
        } else if name.eq("5") {
            Some(KeyCode::Num5)
        } else if name.eq("6") {
            Some(KeyCode::Num6)
        } else if name.eq("7") {
            Some(KeyCode::Num7)
        } else if name.eq("8") {
            Some(KeyCode::Num8)
        } else if name.eq("9") {
            Some(KeyCode::Num9)
        } else if name.eq("0") {
            Some(KeyCode::Num0)
        } else if name.eq("CTRL+A") {
            Some(KeyCode::CtrlA)
        } else if name.eq("CTRL+B") {
            Some(KeyCode::CtrlB)
        } else if name.eq("CTRL+C") {
            Some(KeyCode::CtrlC)
        } else if name.eq("CTRL+D") {
            Some(KeyCode::CtrlD)
        } else if name.eq("CTRL+E") {
            Some(KeyCode::CtrlE)
        } else if name.eq("ALT+A") {
            Some(KeyCode::AltA)
        } else if name.eq("ALT+B") {
            Some(KeyCode::AltB)
        } else if name.eq("ALT+C") {
            Some(KeyCode::AltC)
        } else if name.eq("ALT+D") {
            Some(KeyCode::AltD)
        } else if name.eq("ALT+E") {
            Some(KeyCode::AltE)
        } else if name.eq("SPACE") {
            Some(KeyCode::Space)
        } else if name.eq("ENTER") {
            Some(KeyCode::Enter)
        } else if name.eq("ESC") {
            Some(KeyCode::Escape)
        } else if name.eq("ESCAPE") {
            Some(KeyCode::Escape)
        } else {
            None
        }
    }
}

} // verus!
