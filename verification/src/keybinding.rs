//! Key bindings of runbook commands and API entries: parsing from
//! configuration text, display, and matching against key presses.

use vstd::prelude::*;
use crate::text::{
    all_ascii, ascii_lower, ascii_lower_seq, char_ascii_lower, chars_of, is_prefix_of, lower_text,
    matches_at, push_char, push_str, to_lowercase, trim, trim_back, trim_front, trim_spec, white_space,
};
use crate::num::{decimal, decimal_spec, digits_value, parse_u8_radix, parse_u8_spec};

verus! {

/// A key binding: a plain character, a function key `F1`..`F12`, or a
/// Control combination.
#[derive(Debug, Clone, Copy, PartialEq, Eq, Structural)]
pub enum KeyBinding {
    Char(char),
    F(u8),
    Ctrl(char),
}

/// The key of a key press.
#[derive(Debug, Clone, Copy, PartialEq, Eq, Structural)]
pub enum KeyCode {
    Char(char),
    F(u8),
    Enter,
    Esc,
    Up,
    Down,
    Left,
    Right,
    PageUp,
    PageDown,
    Home,
    End,
    Tab,
    BackTab,
    Backspace,
    Other,
}

/// Whether a key event is a press, a repeat or a release.
#[derive(Debug, Clone, Copy, PartialEq, Eq, Structural)]
pub enum KeyEventKind {
    Press,
    Repeat,
    Release,
}

/// A key event: the key, the held modifiers and the event kind.
#[derive(Debug, Clone, Copy, PartialEq, Eq, Structural)]
pub struct KeyInput {
    pub code: KeyCode,
    pub control: bool,
    pub alt: bool,
    pub shift: bool,
    pub kind: KeyEventKind,
}

/// The characters `ctrl+`.
pub open spec fn ctrl_prefix() -> Seq<char> {
    seq!['c', 't', 'r', 'l', '+']
}

/// What `KeyBinding::parse` returns for the text `s`: the text is trimmed;
/// `ctrl+x` and `^x` (case-insensitive) bind Control with the first
/// character after the prefix (lower-cased); `f1`..`f12` bind a function
/// key; a single character binds that character; anything else, and the
/// empty text, binds nothing.
pub open spec fn parse_spec(s: Seq<char>) -> Option<KeyBinding> {
    let t = trim_spec(s);
    let lower = lower_text(t);
    if t.len() == 0 {
        None
    } else if is_prefix_of(ctrl_prefix(), lower) {
        if lower.len() > 5 {
            Some(KeyBinding::Ctrl(lower[5]))
        } else {
            None
        }
    } else if lower.len() > 0 && lower[0] == '^' {
        if lower.len() > 1 {
            Some(KeyBinding::Ctrl(lower[1]))
        } else {
            None
        }
    } else if lower.len() > 0 && lower[0] == 'f' && parse_u8_spec(lower.drop_first(), 10) is Some
        && 1 <= parse_u8_spec(lower.drop_first(), 10)->0 <= 12 {
        Some(KeyBinding::F(parse_u8_spec(lower.drop_first(), 10)->0))
    } else if t.len() == 1 {
        Some(KeyBinding::Char(t[0]))
    } else {
        None
    }
}

/// What `KeyBinding::display` shows: the character, `F<n>`, or `Ctrl+<c>`.
pub open spec fn display_spec(k: KeyBinding) -> Seq<char> {
    match k {
        KeyBinding::Char(c) => seq![c],
        KeyBinding::F(n) => seq!['F'] + decimal_spec(n as nat),
        KeyBinding::Ctrl(c) => seq!['C', 't', 'r', 'l', '+', c],
    }
}

/// Whether the key binding `k` is triggered by the key press `key`: plain
/// characters match case-insensitively (ASCII) when neither Control nor Alt
/// is held; Control bindings match case-insensitively with Control held;
/// function keys match the same function key.
pub open spec fn matches_spec(k: KeyBinding, key: KeyInput) -> bool {
    match k {
        KeyBinding::Char(c) => match key.code {
            KeyCode::Char(x) => ascii_lower(x) == ascii_lower(c) && !key.control && !key.alt,
            _ => false,
        },
        KeyBinding::Ctrl(c) => match key.code {
            KeyCode::Char(x) => ascii_lower(x) == ascii_lower(c) && key.control,
            _ => false,
        },
        KeyBinding::F(n) => match key.code {
            KeyCode::F(x) => x == n,
            _ => false,
        },
    }
}

impl KeyBinding {
    /// Parses a key binding from configuration text (see `parse_spec`).
    pub fn parse(s: &str) -> (r: Option<KeyBinding>)
        ensures
            r == parse_spec(s@),
    {
        let t = trim(s);
        let tv = chars_of(t.as_str());
        if tv.len() == 0 {
            return None;
        }
        let lower = to_lowercase(t.as_str());
        assert(lower@ == lower_text(t@));
        let lv = chars_of(lower.as_str());
        let prefix: Vec<char> = vec!['c', 't', 'r', 'l', '+'];
        assert(prefix@ =~= ctrl_prefix());
        if matches_at(&lv, &prefix, 0) {
            if lv.len() > 5 {
                return Some(KeyBinding::Ctrl(lv[5]));
            }
            return None;
        }
        if lv.len() > 0 && lv[0] == '^' {
            if lv.len() > 1 {
                return Some(KeyBinding::Ctrl(lv[1]));
            }
            return None;
        }
        if lv.len() > 0 && lv[0] == 'f' {
            let mut rest: Vec<char> = Vec::new();
            let mut i: usize = 1;
            while i < lv.len()
                invariant
                    1 <= i <= lv.len(),
                    rest@ == lv@.subrange(1, i as int),
                decreases lv.len() - i,
            {
                rest.push(lv[i]);
                i = i + 1;
                assert(rest@ =~= lv@.subrange(1, i as int));
            }
            assert(rest@ =~= lv@.drop_first());
            if let Some(n) = parse_u8_radix(&rest, 10) {
                if 1 <= n && n <= 12 {
                    return Some(KeyBinding::F(n));
                }
            }
        }
        if tv.len() == 1 {
            return Some(KeyBinding::Char(tv[0]));
        }
        None
    }

    /// The text shown for this key binding.
    pub fn display(&self) -> (s: String)
        ensures
            s@ == display_spec(*self),
    {
        match self {
            KeyBinding::Char(c) => {
                let mut s = String::new();
                push_char(&mut s, *c);
                assert(s@ =~= seq![*c]);
                s
            },
            KeyBinding::F(n) => {
                let mut s = String::new();
                push_char(&mut s, 'F');
                let d = decimal(*n as u64);
                push_str(&mut s, d.as_str());
                assert(s@ =~= seq!['F'] + decimal_spec(*n as nat));
                s
            },
            KeyBinding::Ctrl(c) => {
                let mut s = String::new();
                push_char(&mut s, 'C');
                push_char(&mut s, 't');
                push_char(&mut s, 'r');
                push_char(&mut s, 'l');
                push_char(&mut s, '+');
                push_char(&mut s, *c);
                assert(s@ =~= seq!['C', 't', 'r', 'l', '+', *c]);
                s
            },
        }
    }

    /// Whether this binding is triggered by `key` (see `matches_spec`).
    pub fn matches(&self, key: &KeyInput) -> (b: bool)
        ensures
            b == matches_spec(*self, *key),
    {
        match self {
            KeyBinding::Char(c) => match key.code {
                KeyCode::Char(x) => char_ascii_lower(x) == char_ascii_lower(*c) && !key.control
                    && !key.alt,
                _ => false,
            },
            KeyBinding::Ctrl(c) => match key.code {
                KeyCode::Char(x) => char_ascii_lower(x) == char_ascii_lower(*c) && key.control,
                _ => false,
            },
            KeyBinding::F(n) => match key.code {
                KeyCode::F(x) => x == *n,
                _ => false,
            },
        }
    }
}

/// A key binding that configuration text can name and that its display
/// names again: a plain ASCII character that is not white space or `^`; a
/// Control combination with an ASCII character that is not white space or
/// an upper-case letter; a function key from F1 to F12.
pub open spec fn writable_binding(k: KeyBinding) -> bool {
    match k {
        KeyBinding::Char(c) => c <= '\u{7f}' && !white_space(c) && c != '^',
        KeyBinding::Ctrl(c) => c <= '\u{7f}' && !white_space(c) && ascii_lower(c) == c,
        KeyBinding::F(n) => 1 <= n <= 12,
    }
}

/// The decimal text of a function key number is ASCII digits and parses
/// back to the number.
proof fn lemma_function_key_digits(n: u8)
    requires
        1 <= n <= 12,
    ensures
        all_ascii(decimal_spec(n as nat)),
        decimal_spec(n as nat).len() > 0,
        decimal_spec(n as nat)[0] != '+',
        ascii_lower_seq(decimal_spec(n as nat)) == decimal_spec(n as nat),
        white_space(decimal_spec(n as nat).last()) == false,
        parse_u8_spec(decimal_spec(n as nat), 10) == Some(n),
{
    let d = decimal_spec(n as nat);
    reveal_with_fuel(decimal_spec, 2);
    reveal_with_fuel(digits_value, 3);
    assert(ascii_lower_seq(d) =~= d);
}

/// Writing a key binding out and parsing the text gives the same binding
/// back.
pub proof fn lemma_display_parse_round_trip(k: KeyBinding)
    requires
        writable_binding(k),
    ensures
        parse_spec(display_spec(k)) == Some(k),
{
    let s = display_spec(k);
    assert(trim_front(s) == s);
    assert(trim_back(s) == s);
    let lower = lower_text(s);
    match k {
        KeyBinding::Char(c) => {
            assert(all_ascii(s));
            assert(lower =~= seq![ascii_lower(c)]);
        },
        KeyBinding::Ctrl(c) => {
            assert(all_ascii(s));
            assert(lower =~= ctrl_prefix().push(c));
            assert(lower.subrange(0, 5) =~= ctrl_prefix());
        },
        KeyBinding::F(n) => {
            lemma_function_key_digits(n);
            let d = decimal_spec(n as nat);
            assert(all_ascii(s));
            assert(lower =~= seq!['f'] + d);
            assert(lower.drop_first() =~= d);
        },
    }
}

} // verus!
