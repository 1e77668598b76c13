use vstd::prelude::*;

use crate::history::{drop_last_word, trim_last_word};
use crate::text::{chars_of, spec_trim_end, string_from_chars};

verus! {

/// The named keys that the terminal treats specially.
#[derive(Clone, Copy, PartialEq, Eq, Structural, Debug)]
pub enum NamedKey {
    ArrowUp,
    ArrowDown,
    ArrowRight,
    ArrowLeft,
    Backspace,
    Tab,
    Enter,
    Escape,
    Space,
    Delete,
    Home,
    End,
    PageUp,
    PageDown,
    F1,
    F2,
    F3,
    F4,
    F5,
    F6,
    F7,
    F8,
    F9,
    F10,
    F11,
    F12,
    /// Any other named key.
    Other,
}

/// A pressed key, as the window reports it.
#[derive(Clone, Debug)]
pub enum KeyInput {
    Named(NamedKey),
    /// A key that produces text.
    Character(String),
    /// A key the terminal has no use for.
    Unidentified,
}

/// The modifier keys held.
#[derive(Clone, Copy, PartialEq, Eq, Structural, Debug)]
pub struct Modifiers {
    pub alt: bool,
    pub control: bool,
    pub super_key: bool,
    pub shift: bool,
}

/// A command that a keyboard shortcut stands for.
#[derive(Clone, Copy, PartialEq, Eq, Structural, Debug)]
pub enum ShortcutIntent {
    CloseSettings,
    Paste,
    ToggleFullscreen,
    ToggleSettingsPanel,
    /// Change the font size by this many points.
    FontSizeStep(i32),
    FontSizeReset,
    NewTab,
    CloseTab,
    Copy,
    SelectAll,
    SwitchToTab(usize),
}

/// What `str::to_lowercase` makes of `s`.
pub uninterp spec fn spec_to_lowercase(s: Seq<char>) -> Seq<char>;

pub open spec fn ascii_lower(c: char) -> char {
    if 'A' <= c && c <= 'Z' {
        ((c as u32) + 32) as char
    } else {
        c
    }
}

/// `str::to_lowercase`: the Unicode lowercase of `s`; a single ASCII
/// character maps to its ASCII lowercase.
#[verifier::external_body]
fn to_lowercase(s: &str) -> (r: String)
    ensures
        r@ == spec_to_lowercase(s@),
        s@.len() == 1 && (s@[0] as u32) < 128 ==> r@ == seq![ascii_lower(s@[0])],
{
    s.to_lowercase()
}

/// Whether `s` is the one character `c`.
pub open spec fn is_char(s: Seq<char>, c: char) -> bool {
    s.len() == 1 && s[0] == c
}

/// The command that a key pressed with Super stands for, by the key's
/// text: `,` settings, `+`/`=` and `-` font size, `0` font size reset, `t`
/// new tab, `w` close tab, `c` copy, `a` select all, a digit 1-9 a tab.
pub open spec fn spec_super_char_intent(c: Seq<char>) -> Option<ShortcutIntent> {
    spec_intent_from(spec_to_lowercase(c), c)
}

/// The text of a key, empty for a key without text.
pub open spec fn key_text(key: KeyInput) -> Seq<char> {
    match key {
        KeyInput::Character(c) => c@,
        _ => Seq::empty(),
    }
}

/// The command of a key with text `c` whose lowercase is `l`.
pub open spec fn spec_intent_from(l: Seq<char>, c: Seq<char>) -> Option<ShortcutIntent> {
    if is_char(l, ',') {
        Some(ShortcutIntent::ToggleSettingsPanel)
    } else if is_char(l, '+') || is_char(l, '=') {
        Some(ShortcutIntent::FontSizeStep(2))
    } else if is_char(l, '-') {
        Some(ShortcutIntent::FontSizeStep(-2i32))
    } else if is_char(l, '0') {
        Some(ShortcutIntent::FontSizeReset)
    } else if is_char(l, 't') {
        Some(ShortcutIntent::NewTab)
    } else if is_char(l, 'w') {
        Some(ShortcutIntent::CloseTab)
    } else if is_char(l, 'c') {
        Some(ShortcutIntent::Copy)
    } else if is_char(l, 'a') {
        Some(ShortcutIntent::SelectAll)
    } else if c.len() == 1 && '1' <= c[0] && c[0] <= '9' {
        Some(ShortcutIntent::SwitchToTab((c[0] as u32 - '1' as u32) as usize))
    } else {
        None
    }
}

fn one_char(s: &Vec<char>, c: char) -> (r: bool)
    ensures
        r == is_char(s@, c),
{
    s.len() == 1 && s[0] == c
}

pub fn shortcut_intent_for_super_char(c: &str) -> (r: Option<ShortcutIntent>)
    ensures
        r == spec_super_char_intent(c@),
        c@.len() == 1 && (c@[0] as u32) < 128 ==> r == spec_intent_from(seq![ascii_lower(c@[0])], c@),
{
    let lower = to_lowercase(c);
    let l = chars_of(lower.as_str());
    if one_char(&l, ',') {
        Some(ShortcutIntent::ToggleSettingsPanel)
    } else if one_char(&l, '+') || one_char(&l, '=') {
        Some(ShortcutIntent::FontSizeStep(2))
    } else if one_char(&l, '-') {
        Some(ShortcutIntent::FontSizeStep(-2i32))
    } else if one_char(&l, '0') {
        Some(ShortcutIntent::FontSizeReset)
    } else if one_char(&l, 't') {
        Some(ShortcutIntent::NewTab)
    } else if one_char(&l, 'w') {
        Some(ShortcutIntent::CloseTab)
    } else if one_char(&l, 'c') {
        Some(ShortcutIntent::Copy)
    } else if one_char(&l, 'a') {
        Some(ShortcutIntent::SelectAll)
    } else {
        let v = chars_of(c);
        if v.len() == 1 && '1' <= v[0] && v[0] <= '9' {
            Some(ShortcutIntent::SwitchToTab((v[0] as u32 - '1' as u32) as usize))
        } else {
            None
        }
    }
}

/// The command that a key press stands for, if any: Escape closes an open
/// settings panel; Super+V pastes; Super+Enter toggles fullscreen; other
/// Super+key combinations go by the key's text.
pub open spec fn spec_shortcut_intent(key: KeyInput, pressed: bool, mods: Modifiers, settings_open: bool) -> Option<
    ShortcutIntent,
> {
    if !pressed {
        None
    } else if key == KeyInput::Named(NamedKey::Escape) && settings_open {
        Some(ShortcutIntent::CloseSettings)
    } else if mods.super_key && (key matches KeyInput::Character(c) && (is_char(c@, 'v') || is_char(
        c@,
        'V',
    ))) {
        Some(ShortcutIntent::Paste)
    } else if key == KeyInput::Named(NamedKey::Enter) && mods.super_key {
        Some(ShortcutIntent::ToggleFullscreen)
    } else if !mods.super_key {
        None
    } else {
        match key {
            KeyInput::Character(c) => spec_super_char_intent(c@),
            _ => None,
        }
    }
}

pub fn shortcut_intent_for_key(key: &KeyInput, pressed: bool, mods: Modifiers, settings_panel_open: bool) -> (r:
    Option<ShortcutIntent>)
    ensures
        r == spec_shortcut_intent(*key, pressed, mods, settings_panel_open),
        key is Character && pressed && mods.super_key && key_text(*key).len() == 1 && (key_text(*key)[0] as u32)
            < 128 && key_text(*key)[0] != 'v' && key_text(*key)[0] != 'V' ==> r == spec_intent_from(
            seq![ascii_lower(key_text(*key)[0])],
            key_text(*key),
        ),
{
    if !pressed {
        return None;
    }
    let escape = match key {
        KeyInput::Named(NamedKey::Escape) => true,
        _ => false,
    };
    if escape && settings_panel_open {
        return Some(ShortcutIntent::CloseSettings);
    }
    if mods.super_key {
        match key {
            KeyInput::Character(c) => {
                let v = chars_of(c.as_str());
                if one_char(&v, 'v') || one_char(&v, 'V') {
                    return Some(ShortcutIntent::Paste);
                }
            },
            _ => {},
        }
    }
    let enter = match key {
        KeyInput::Named(NamedKey::Enter) => true,
        _ => false,
    };
    if enter && mods.super_key {
        return Some(ShortcutIntent::ToggleFullscreen);
    }
    if !mods.super_key {
        return None;
    }
    match key {
        KeyInput::Character(c) => shortcut_intent_for_super_char(c.as_str()),
        _ => None,
    }
}

/// The control byte that Ctrl plus a key with (lowercased) text `l` sends:
/// `a`-`z` give 1-26, `[` `\` `]` give 27-29.
pub open spec fn control_byte(l: Seq<char>) -> Option<u8> {
    if l.len() == 1 && 'a' <= l[0] && l[0] <= 'z' {
        Some((l[0] as u32 - 'a' as u32 + 1) as u8)
    } else if is_char(l, '[') {
        Some(0x1b)
    } else if is_char(l, '\\') {
        Some(0x1c)
    } else if is_char(l, ']') {
        Some(0x1d)
    } else {
        None
    }
}

/// The bytes a named key sends without modifiers that change it.
pub open spec fn named_key_bytes(k: NamedKey) -> Option<Seq<u8>> {
    match k {
        NamedKey::Enter => Some(seq![13u8]),
        NamedKey::Backspace => Some(seq![0x7fu8]),
        NamedKey::Escape => Some(seq![0x1bu8]),
        NamedKey::Tab => Some(seq![9u8]),
        NamedKey::Space => Some(seq![32u8]),
        NamedKey::Delete => Some(seq![0x1bu8, 91, 51, 126]),
        NamedKey::ArrowUp => Some(seq![0x1bu8, 91, 65]),
        NamedKey::ArrowDown => Some(seq![0x1bu8, 91, 66]),
        NamedKey::ArrowRight => Some(seq![0x1bu8, 91, 67]),
        NamedKey::ArrowLeft => Some(seq![0x1bu8, 91, 68]),
        NamedKey::Home => Some(seq![0x1bu8, 91, 72]),
        NamedKey::End => Some(seq![0x1bu8, 91, 70]),
        NamedKey::PageUp => Some(seq![0x1bu8, 91, 53, 126]),
        NamedKey::PageDown => Some(seq![0x1bu8, 91, 54, 126]),
        NamedKey::F1 => Some(seq![0x1bu8, 79, 80]),
        NamedKey::F2 => Some(seq![0x1bu8, 79, 81]),
        NamedKey::F3 => Some(seq![0x1bu8, 79, 82]),
        NamedKey::F4 => Some(seq![0x1bu8, 79, 83]),
        NamedKey::F5 => Some(seq![0x1bu8, 91, 49, 53, 126]),
        NamedKey::F6 => Some(seq![0x1bu8, 91, 49, 55, 126]),
        NamedKey::F7 => Some(seq![0x1bu8, 91, 49, 56, 126]),
        NamedKey::F8 => Some(seq![0x1bu8, 91, 49, 57, 126]),
        NamedKey::F9 => Some(seq![0x1bu8, 91, 50, 48, 126]),
        NamedKey::F10 => Some(seq![0x1bu8, 91, 50, 49, 126]),
        NamedKey::F11 => Some(seq![0x1bu8, 91, 50, 51, 126]),
        NamedKey::F12 => Some(seq![0x1bu8, 91, 50, 52, 126]),
        NamedKey::Other => None,
    }
}

/// The bytes a key press sends to the shell: Alt+arrows send the xterm
/// modified cursor keys and Alt+Backspace deletes a word; Ctrl+letter sends
/// its control byte; Super+Backspace clears the line; Shift+Tab is back-tab;
/// other named keys send their usual sequences.
pub open spec fn spec_key_bytes(key: KeyInput, mods: Modifiers) -> Option<Seq<u8>> {
    match key {
        KeyInput::Named(k) => if mods.alt && k == NamedKey::ArrowUp {
            Some(seq![0x1bu8, 91, 49, 59, 51, 65])
        } else if mods.alt && k == NamedKey::ArrowDown {
            Some(seq![0x1bu8, 91, 49, 59, 51, 66])
        } else if mods.alt && k == NamedKey::ArrowRight {
            Some(seq![0x1bu8, 91, 49, 59, 51, 67])
        } else if mods.alt && k == NamedKey::ArrowLeft {
            Some(seq![0x1bu8, 91, 49, 59, 51, 68])
        } else if mods.alt && k == NamedKey::Backspace {
            Some(seq![0x1bu8, 0x7f])
        } else if mods.super_key && k == NamedKey::Backspace {
            Some(seq![0x15u8])
        } else if mods.shift && k == NamedKey::Tab {
            Some(seq![0x1bu8, 91, 90])
        } else {
            named_key_bytes(k)
        },
        KeyInput::Character(c) => if mods.control {
            match control_byte(spec_to_lowercase(c@)) {
                Some(b) => Some(seq![b]),
                None => None,
            }
        } else {
            None
        },
        KeyInput::Unidentified => None,
    }
}

fn bytes_of(s: &[u8]) -> (v: Vec<u8>)
    ensures
        v@ == s@,
{
    let mut v: Vec<u8> = Vec::new();
    crate::text::push_bytes(&mut v, s);
    v
}

fn named_bytes(k: NamedKey) -> (r: Option<Vec<u8>>)
    ensures
        match named_key_bytes(k) {
            Some(b) => r is Some && r->0@ == b,
            None => r is None,
        },
{
    let b: &[u8] = match k {
        NamedKey::Enter => &[13],
        NamedKey::Backspace => &[0x7f],
        NamedKey::Escape => &[0x1b],
        NamedKey::Tab => &[9],
        NamedKey::Space => &[32],
        NamedKey::Delete => &[0x1b, 91, 51, 126],
        NamedKey::ArrowUp => &[0x1b, 91, 65],
        NamedKey::ArrowDown => &[0x1b, 91, 66],
        NamedKey::ArrowRight => &[0x1b, 91, 67],
        NamedKey::ArrowLeft => &[0x1b, 91, 68],
        NamedKey::Home => &[0x1b, 91, 72],
        NamedKey::End => &[0x1b, 91, 70],
        NamedKey::PageUp => &[0x1b, 91, 53, 126],
        NamedKey::PageDown => &[0x1b, 91, 54, 126],
        NamedKey::F1 => &[0x1b, 79, 80],
        NamedKey::F2 => &[0x1b, 79, 81],
        NamedKey::F3 => &[0x1b, 79, 82],
        NamedKey::F4 => &[0x1b, 79, 83],
        NamedKey::F5 => &[0x1b, 91, 49, 53, 126],
        NamedKey::F6 => &[0x1b, 91, 49, 55, 126],
        NamedKey::F7 => &[0x1b, 91, 49, 56, 126],
        NamedKey::F8 => &[0x1b, 91, 49, 57, 126],
        NamedKey::F9 => &[0x1b, 91, 50, 48, 126],
        NamedKey::F10 => &[0x1b, 91, 50, 49, 126],
        NamedKey::F11 => &[0x1b, 91, 50, 51, 126],
        NamedKey::F12 => &[0x1b, 91, 50, 52, 126],
        NamedKey::Other => {
            return None;
        },
    };
    let v = bytes_of(b);
    assert(v@ =~= named_key_bytes(k)->0);
    Some(v)
}

fn control_byte_of(l: &Vec<char>) -> (r: Option<u8>)
    ensures
        r == control_byte(l@),
{
    if l.len() == 1 && 'a' <= l[0] && l[0] <= 'z' {
        Some((l[0] as u32 - 'a' as u32 + 1) as u8)
    } else if one_char(l, '[') {
        Some(0x1b)
    } else if one_char(l, '\\') {
        Some(0x1c)
    } else if one_char(l, ']') {
        Some(0x1d)
    } else {
        None
    }
}

/// The bytes that a key press sends to the shell, if any.
pub fn map_key_to_bytes(key: &KeyInput, mods: Modifiers) -> (r: Option<Vec<u8>>)
    ensures
        match spec_key_bytes(*key, mods) {
            Some(b) => r is Some && r->0@ == b,
            None => r is None,
        },
{
    match key {
        KeyInput::Named(k) => {
            let k = *k;
            if mods.alt && k == NamedKey::ArrowUp {
                Some(bytes_of(&[0x1b, 91, 49, 59, 51, 65]))
            } else if mods.alt && k == NamedKey::ArrowDown {
                Some(bytes_of(&[0x1b, 91, 49, 59, 51, 66]))
            } else if mods.alt && k == NamedKey::ArrowRight {
                Some(bytes_of(&[0x1b, 91, 49, 59, 51, 67]))
            } else if mods.alt && k == NamedKey::ArrowLeft {
                Some(bytes_of(&[0x1b, 91, 49, 59, 51, 68]))
            } else if mods.alt && k == NamedKey::Backspace {
                Some(bytes_of(&[0x1b, 0x7f]))
            } else if mods.super_key && k == NamedKey::Backspace {
                Some(bytes_of(&[0x15]))
            } else if mods.shift && k == NamedKey::Tab {
                Some(bytes_of(&[0x1b, 91, 90]))
            } else {
                named_bytes(k)
            }
        },
        KeyInput::Character(c) => {
            if mods.control {
                let lower = to_lowercase(c.as_str());
                let l = chars_of(lower.as_str());
                match control_byte_of(&l) {
                    Some(b) => {
                        let mut v: Vec<u8> = Vec::new();
                        v.push(b);
                        Some(v)
                    },
                    None => None,
                }
            } else {
                None
            }
        },
        KeyInput::Unidentified => None,
    }
}

/// Shift+Tab cycles through history completions.
pub fn is_history_completion_key(key: &KeyInput, mods: Modifiers) -> (r: bool)
    ensures
        r == (*key == KeyInput::Named(NamedKey::Tab) && mods.shift),
{
    match key {
        KeyInput::Named(NamedKey::Tab) => mods.shift,
        _ => false,
    }
}

/// How a key press changes the tracked command line: Enter and line-clearing
/// keys empty it, Backspace drops a character, Ctrl+W drops a word.
pub open spec fn spec_line_after_key(line: Seq<char>, key: KeyInput, mods: Modifiers, bytes: Seq<u8>) -> Seq<char> {
    match key {
        KeyInput::Named(k) => if k == NamedKey::Enter {
            Seq::empty()
        } else if k == NamedKey::Backspace && mods.super_key {
            Seq::empty()
        } else if k == NamedKey::Backspace {
            if line.len() > 0 {
                line.drop_last()
            } else {
                line
            }
        } else if k == NamedKey::Delete || k == NamedKey::ArrowUp || k == NamedKey::ArrowDown || k
            == NamedKey::ArrowRight || k == NamedKey::ArrowLeft || k == NamedKey::Home || k
            == NamedKey::End || k == NamedKey::PageUp || k == NamedKey::PageDown {
            Seq::empty()
        } else if bytes == seq![0x15u8] {
            Seq::empty()
        } else {
            line
        },
        KeyInput::Character(c) => if mods.control {
            if is_char(spec_to_lowercase(c@), 'u') {
                Seq::empty()
            } else if is_char(spec_to_lowercase(c@), 'w') {
                drop_last_word(spec_trim_end(line))
            } else {
                line
            }
        } else if bytes == seq![0x15u8] {
            Seq::empty()
        } else {
            line
        },
        KeyInput::Unidentified => if bytes == seq![0x15u8] {
            Seq::empty()
        } else {
            line
        },
    }
}

fn is_ctrl_u(bytes: &[u8]) -> (r: bool)
    ensures
        r == (bytes@ == seq![0x15u8]),
{
    let r = bytes.len() == 1 && bytes[0] == 0x15;
    assert(r ==> bytes@ =~= seq![0x15u8]);
    r
}

/// The tracked command line after a key press that sent `bytes`.
pub fn input_line_after_key(line: &mut String, key: &KeyInput, mods: Modifiers, bytes: &[u8])
    ensures
        final(line)@ == spec_line_after_key(old(line)@, *key, mods, bytes@),
{
    let ctrl_u = is_ctrl_u(bytes);
    match key {
        KeyInput::Named(k) => {
            let k = *k;
            if k == NamedKey::Enter || (k == NamedKey::Backspace && mods.super_key) {
                *line = String::new();
            } else if k == NamedKey::Backspace {
                let v = chars_of(line.as_str());
                if v.len() > 0 {
                    let t = crate::history::slice_chars(&v, 0, v.len() - 1);
                    assert(t@ =~= v@.drop_last());
                    *line = string_from_chars(t.as_slice());
                }
            } else if k == NamedKey::Delete || k == NamedKey::ArrowUp || k == NamedKey::ArrowDown || k
                == NamedKey::ArrowRight || k == NamedKey::ArrowLeft || k == NamedKey::Home || k
                == NamedKey::End || k == NamedKey::PageUp || k == NamedKey::PageDown || ctrl_u {
                *line = String::new();
            }
        },
        KeyInput::Character(c) => {
            if mods.control {
                let lower = to_lowercase(c.as_str());
                let l = chars_of(lower.as_str());
                if one_char(&l, 'u') {
                    *line = String::new();
                } else if one_char(&l, 'w') {
                    trim_last_word(line);
                }
            } else if ctrl_u {
                *line = String::new();
            }
        },
        KeyInput::Unidentified => {
            if ctrl_u {
                *line = String::new();
            }
        },
    }
}

/// The final byte of the cursor key `k`'s sequence: `A` up, `B` down, `C`
/// right, `D` left.
pub open spec fn arrow_final(k: NamedKey) -> u8 {
    match k {
        NamedKey::ArrowUp => 65u8,
        NamedKey::ArrowDown => 66u8,
        NamedKey::ArrowRight => 67u8,
        _ => 68u8,
    }
}

/// Law: a cursor key sends `ESC [` and its final byte (`A` up, `B` down,
/// `C` right, `D` left) with no modifier, and with Alt, whatever else is
/// held, the xterm Alt form `ESC [ 1 ; 3` followed by the same final byte.
/// So Alt+Left moves a word left and Alt+Right a word right, never the
/// other way round.
pub proof fn law_alt_arrow_keys(k: NamedKey, mods: Modifiers)
    requires
        k == NamedKey::ArrowUp || k == NamedKey::ArrowDown || k == NamedKey::ArrowRight || k
            == NamedKey::ArrowLeft,
    ensures
        spec_key_bytes(KeyInput::Named(k), Modifiers { alt: false, control: false, super_key: false, shift: false })
            == Some(seq![0x1bu8, 0x5bu8, arrow_final(k)]),
        mods.alt ==> spec_key_bytes(KeyInput::Named(k), mods) == Some(
            seq![0x1bu8, 0x5bu8, 0x31u8, 0x3bu8, 0x33u8, arrow_final(k)],
        ),
        mods.alt ==> spec_key_bytes(KeyInput::Named(k), mods)->0.last() == spec_key_bytes(
            KeyInput::Named(k),
            Modifiers { alt: false, ..mods },
        )->0.last(),
        arrow_final(NamedKey::ArrowUp) == 0x41 && arrow_final(NamedKey::ArrowDown) == 0x42
            && arrow_final(NamedKey::ArrowRight) == 0x43 && arrow_final(NamedKey::ArrowLeft) == 0x44,
{
}

/// Law: the editing and function keys send their usual bytes whatever the
/// modifiers, but for these: Alt+Backspace sends `ESC DEL` (delete a word),
/// Super+Backspace `^U` (clear the line), Shift+Tab `ESC [ Z` (back-tab).
/// Text keys send nothing unless Control is held, and a key the terminal
/// has no use for sends nothing.
pub proof fn law_key_bytes(k: NamedKey, mods: Modifiers, c: String)
    ensures
        mods.alt ==> spec_key_bytes(KeyInput::Named(NamedKey::Backspace), mods) == Some(seq![0x1bu8, 0x7fu8]),
        !mods.alt && mods.super_key ==> spec_key_bytes(KeyInput::Named(NamedKey::Backspace), mods) == Some(
            seq![0x15u8],
        ),
        !mods.alt && !mods.super_key ==> spec_key_bytes(KeyInput::Named(NamedKey::Backspace), mods) == Some(
            seq![0x7fu8],
        ),
        mods.shift ==> spec_key_bytes(KeyInput::Named(NamedKey::Tab), mods) == Some(seq![0x1bu8, 0x5bu8, 0x5au8]),
        !mods.shift ==> spec_key_bytes(KeyInput::Named(NamedKey::Tab), mods) == Some(seq![9u8]),
        spec_key_bytes(KeyInput::Named(NamedKey::Enter), mods) == Some(seq![13u8]),
        spec_key_bytes(KeyInput::Named(NamedKey::Escape), mods) == Some(seq![0x1bu8]),
        spec_key_bytes(KeyInput::Named(NamedKey::Space), mods) == Some(seq![0x20u8]),
        spec_key_bytes(KeyInput::Named(NamedKey::Delete), mods) == Some(seq![0x1bu8, 0x5bu8, 0x33u8, 0x7eu8]),
        spec_key_bytes(KeyInput::Named(NamedKey::Home), mods) == Some(seq![0x1bu8, 0x5bu8, 0x48u8]),
        spec_key_bytes(KeyInput::Named(NamedKey::End), mods) == Some(seq![0x1bu8, 0x5bu8, 0x46u8]),
        spec_key_bytes(KeyInput::Named(NamedKey::PageUp), mods) == Some(seq![0x1bu8, 0x5bu8, 0x35u8, 0x7eu8]),
        spec_key_bytes(KeyInput::Named(NamedKey::PageDown), mods) == Some(seq![0x1bu8, 0x5bu8, 0x36u8, 0x7eu8]),
        spec_key_bytes(KeyInput::Named(NamedKey::F1), mods) == Some(seq![0x1bu8, 0x4fu8, 0x50u8]),
        spec_key_bytes(KeyInput::Named(NamedKey::F4), mods) == Some(seq![0x1bu8, 0x4fu8, 0x53u8]),
        spec_key_bytes(KeyInput::Named(NamedKey::F5), mods) == Some(seq![0x1bu8, 0x5bu8, 0x31u8, 0x35u8, 0x7eu8]),
        spec_key_bytes(KeyInput::Named(NamedKey::F12), mods) == Some(seq![0x1bu8, 0x5bu8, 0x32u8, 0x34u8, 0x7eu8]),
        spec_key_bytes(KeyInput::Named(NamedKey::Other), mods) is None,
        !mods.control ==> spec_key_bytes(KeyInput::Character(c), mods) is None,
        spec_key_bytes(KeyInput::Unidentified, mods) is None,
{
}

/// Law: with Control held, a text key whose lowercase form is a letter
/// sends that letter's control byte (`a` 1 through `z` 26), `[` sends ESC,
/// `\` 28 and `]` 29; any other text sends nothing.
pub proof fn law_control_keys(c: String, mods: Modifiers)
    requires
        mods.control,
    ensures
        spec_to_lowercase(c@).len() == 1 && 'a' <= spec_to_lowercase(c@)[0] <= 'z' ==> spec_key_bytes(
            KeyInput::Character(c),
            mods,
        ) == Some(seq![(spec_to_lowercase(c@)[0] as u32 - 0x60) as u8]),
        spec_to_lowercase(c@) == seq!['['] ==> spec_key_bytes(KeyInput::Character(c), mods) == Some(seq![0x1bu8]),
        spec_to_lowercase(c@) == seq!['\\'] ==> spec_key_bytes(KeyInput::Character(c), mods) == Some(seq![0x1cu8]),
        spec_to_lowercase(c@) == seq![']'] ==> spec_key_bytes(KeyInput::Character(c), mods) == Some(seq![0x1du8]),
        !(spec_to_lowercase(c@).len() == 1 && ('a' <= spec_to_lowercase(c@)[0] <= 'z' || spec_to_lowercase(c@)[0]
            == '[' || spec_to_lowercase(c@)[0] == '\\' || spec_to_lowercase(c@)[0] == ']')) ==> spec_key_bytes(
            KeyInput::Character(c),
            mods,
        ) is None,
{
}

} // verus!
