use vstd::prelude::*;

use crate::text::{chars_of, trim_whitespace};

verus! {

/// An RGBA color with 8-bit channels.
#[derive(Clone, Copy, PartialEq, Eq, Structural, Debug)]
pub struct Color {
    pub r: u8,
    pub g: u8,
    pub b: u8,
    pub a: u8,
}

/// Opaque color from its three channels.
pub open spec fn spec_rgb(r: u8, g: u8, b: u8) -> Color {
    Color { r, g, b, a: 255 }
}

impl Color {
    /// An opaque color.
    pub fn rgb(r: u8, g: u8, b: u8) -> (c: Color)
        ensures
            c == spec_rgb(r, g, b),
    {
        Color { r, g, b, a: 255 }
    }

    /// A color with an explicit alpha channel.
    pub fn rgba(r: u8, g: u8, b: u8, a: u8) -> (c: Color)
        ensures
            c == (Color { r, g, b, a }),
    {
        Color { r, g, b, a }
    }
}

/// The number of rows kept in the scrollback buffer.
pub const MAX_SCROLLBACK: usize = 1500;

pub open spec fn spec_default_fg() -> Color {
    spec_rgb(229, 229, 229)
}

pub open spec fn spec_default_bg() -> Color {
    spec_rgb(20, 25, 31)
}

/// The default foreground color of a fresh terminal.
#[verifier::when_used_as_spec(spec_default_fg)]
pub fn default_fg() -> (c: Color)
    ensures
        c == spec_default_fg(),
{
    Color::rgb(229, 229, 229)
}

/// The default background color of a fresh terminal.
#[verifier::when_used_as_spec(spec_default_bg)]
pub fn default_bg() -> (c: Color)
    ensures
        c == spec_default_bg(),
{
    Color::rgb(20, 25, 31)
}

/// Channel level of one step of the 6x6x6 color cube.
pub open spec fn cube_level(v: int) -> int {
    if v == 0 {
        0
    } else {
        55 + v * 40
    }
}

/// The xterm 256-color palette entry `n`: sixteen named colors, the 6x6x6
/// color cube, and the 24-step gray ramp.
pub open spec fn xterm_color(n: u8) -> Color {
    if n == 0 {
        spec_rgb(0, 0, 0)
    } else if n == 1 {
        spec_rgb(205, 0, 0)
    } else if n == 2 {
        spec_rgb(0, 205, 0)
    } else if n == 3 {
        spec_rgb(205, 205, 0)
    } else if n == 4 {
        spec_rgb(0, 0, 238)
    } else if n == 5 {
        spec_rgb(205, 0, 205)
    } else if n == 6 {
        spec_rgb(0, 205, 205)
    } else if n == 7 {
        spec_rgb(229, 229, 229)
    } else if n == 8 {
        spec_rgb(127, 127, 127)
    } else if n == 9 {
        spec_rgb(255, 85, 85)
    } else if n == 10 {
        spec_rgb(85, 255, 85)
    } else if n == 11 {
        spec_rgb(255, 255, 85)
    } else if n == 12 {
        spec_rgb(85, 85, 255)
    } else if n == 13 {
        spec_rgb(255, 85, 255)
    } else if n == 14 {
        spec_rgb(85, 255, 255)
    } else if n == 15 {
        spec_rgb(255, 255, 255)
    } else if n <= 231 {
        let m = n - 16;
        spec_rgb(
            cube_level(m / 36) as u8,
            cube_level((m / 6) % 6) as u8,
            cube_level(m % 6) as u8,
        )
    } else {
        let v = 8 + (n - 232) * 10;
        spec_rgb(v as u8, v as u8, v as u8)
    }
}

fn cube_level_exec(v: u8) -> (r: u8)
    requires
        v < 6,
    ensures
        r == cube_level(v as int),
{
    if v == 0 {
        0
    } else {
        55 + v * 40
    }
}

/// The xterm palette entry for index `n`.
pub fn xterm_color_from_256(n: u8) -> (c: Color)
    ensures
        c == xterm_color(n),
{
    match n {
        0 => Color::rgb(0, 0, 0),
        1 => Color::rgb(205, 0, 0),
        2 => Color::rgb(0, 205, 0),
        3 => Color::rgb(205, 205, 0),
        4 => Color::rgb(0, 0, 238),
        5 => Color::rgb(205, 0, 205),
        6 => Color::rgb(0, 205, 205),
        7 => Color::rgb(229, 229, 229),
        8 => Color::rgb(127, 127, 127),
        9 => Color::rgb(255, 85, 85),
        10 => Color::rgb(85, 255, 85),
        11 => Color::rgb(255, 255, 85),
        12 => Color::rgb(85, 85, 255),
        13 => Color::rgb(255, 85, 255),
        14 => Color::rgb(85, 255, 255),
        15 => Color::rgb(255, 255, 255),
        16..=231 => {
            let m = n - 16;
            let b = m % 6;
            let g = (m / 6) % 6;
            let r = m / 36;
            Color::rgb(cube_level_exec(r), cube_level_exec(g), cube_level_exec(b))
        },
        _ => {
            let v = 8 + (n - 232) * 10;
            Color::rgb(v, v, v)
        },
    }
}

/// The whole default palette, entry `i` at index `i`.
pub fn default_palette_256() -> (palette: Vec<Color>)
    ensures
        palette@.len() == 256,
        forall|i: int| 0 <= i < 256 ==> #[trigger] palette@[i] == xterm_color(i as u8),
{
    let mut palette: Vec<Color> = Vec::new();
    let mut i: usize = 0;
    while i < 256
        invariant
            i <= 256,
            palette@.len() == i,
            forall|j: int| 0 <= j < i ==> #[trigger] palette@[j] == xterm_color(j as u8),
        decreases 256 - i,
    {
        palette.push(xterm_color_from_256(i as u8));
        i = i + 1;
    }
    palette
}

/// Saturating narrowing of a parameter to a channel value.
pub fn clamp_u16_to_u8(v: u16) -> (r: u8)
    ensures
        r == (if v <= 255 { v as int } else { 255 }),
        r == spec_clamp(v),
{
    if v <= 255 {
        v as u8
    } else {
        255
    }
}

pub open spec fn spec_clamp(v: u16) -> u8 {
    if v <= 255 {
        v as u8
    } else {
        255
    }
}

/// The color named by a colon-form extended color group `38:5:n`,
/// `38:2:R:G:B`, `38:2::R:G:B` or `38:2:cs:R:G:B` (likewise for 48).
pub open spec fn spec_extended_color_group(group: Seq<u16>, palette: Seq<Color>) -> Option<Color> {
    if group.len() >= 2 && group[1] == 5 {
        if group.len() >= 3 {
            Some(palette[spec_clamp(group[2]) as int])
        } else {
            None
        }
    } else if group.len() >= 2 && group[1] == 2 {
        if group.len() >= 6 {
            Some(spec_rgb(spec_clamp(group[3]), spec_clamp(group[4]), spec_clamp(group[5])))
        } else if group.len() >= 5 {
            Some(spec_rgb(spec_clamp(group[2]), spec_clamp(group[3]), spec_clamp(group[4])))
        } else {
            None
        }
    } else {
        None
    }
}

/// Decodes a colon-form extended color group against a 256-entry palette.
pub fn parse_sgr_extended_color_group(group: &[u16], palette_256: &Vec<Color>) -> (r: Option<Color>)
    requires
        palette_256@.len() == 256,
    ensures
        r == spec_extended_color_group(group@, palette_256@),
{
    if group.len() >= 2 && group[1] == 5 {
        if group.len() >= 3 {
            let idx = clamp_u16_to_u8(group[2]);
            Some(palette_256[idx as usize])
        } else {
            None
        }
    } else if group.len() >= 2 && group[1] == 2 {
        if group.len() >= 6 {
            Some(
                Color::rgb(
                    clamp_u16_to_u8(group[3]),
                    clamp_u16_to_u8(group[4]),
                    clamp_u16_to_u8(group[5]),
                ),
            )
        } else if group.len() >= 5 {
            Some(
                Color::rgb(
                    clamp_u16_to_u8(group[2]),
                    clamp_u16_to_u8(group[3]),
                    clamp_u16_to_u8(group[4]),
                ),
            )
        } else {
            None
        }
    } else {
        None
    }
}

/// Value of a hexadecimal digit.
pub open spec fn hex_digit_value(c: char) -> Option<u8> {
    if '0' <= c && c <= '9' {
        Some((c as u32 - '0' as u32) as u8)
    } else if 'a' <= c && c <= 'f' {
        Some((c as u32 - 'a' as u32 + 10) as u8)
    } else if 'A' <= c && c <= 'F' {
        Some((c as u32 - 'A' as u32 + 10) as u8)
    } else {
        None
    }
}

/// Value of a run of one or two hex digits, as the standard unsigned
/// radix-16 parse reads it: an optional leading `+` followed by at least one
/// digit.
pub open spec fn spec_parse_hex_u8(s: Seq<char>) -> Option<u8> {
    let digits = if s.len() >= 1 && s[0] == '+' {
        s.subrange(1, s.len() as int)
    } else {
        s
    };
    if digits.len() == 1 {
        match hex_digit_value(digits[0]) {
            Some(d) => Some(d),
            None => None,
        }
    } else if digits.len() == 2 {
        match (hex_digit_value(digits[0]), hex_digit_value(digits[1])) {
            (Some(h), Some(l)) => Some((h * 16 + l) as u8),
            _ => None,
        }
    } else {
        None
    }
}

fn hex_digit(c: char) -> (r: Option<u8>)
    ensures
        r == hex_digit_value(c),
{
    if '0' <= c && c <= '9' {
        Some((c as u32 - '0' as u32) as u8)
    } else if 'a' <= c && c <= 'f' {
        Some((c as u32 - 'a' as u32 + 10) as u8)
    } else if 'A' <= c && c <= 'F' {
        Some((c as u32 - 'A' as u32 + 10) as u8)
    } else {
        None
    }
}

/// Parses `s[start..end]` (at most two characters after an optional `+`).
fn parse_hex_u8(s: &Vec<char>, start: usize, end: usize) -> (r: Option<u8>)
    requires
        start <= end <= s@.len(),
        end - start <= 3,
    ensures
        r == spec_parse_hex_u8(s@.subrange(start as int, end as int)),
{
    let ghost sub = s@.subrange(start as int, end as int);
    let mut i = start;
    if i < end && s[i] == '+' {
        i = i + 1;
    }
    let ghost digits = s@.subrange(i as int, end as int);
    assert(digits =~= (if sub.len() >= 1 && sub[0] == '+' {
        sub.subrange(1, sub.len() as int)
    } else {
        sub
    }));
    if end - i == 1 {
        hex_digit(s[i])
    } else if end - i == 2 {
        match (hex_digit(s[i]), hex_digit(s[i + 1])) {
            (Some(h), Some(l)) => Some(h * 16 + l),
            _ => None,
        }
    } else {
        None
    }
}

/// Decodes one `#rgb`, `#rrggbb` or `rgb:r/g/b` component list of an X11
/// color specification, leading and trailing white space ignored. Each
/// `rgb:` component keeps its first two characters.
pub open spec fn spec_parse_color_spec(s: Seq<char>) -> Option<Color> {
    let t = crate::text::spec_trim(s);
    if t.len() >= 1 && t[0] == '#' {
        let hex = t.subrange(1, t.len() as int);
        if hex.len() == 3 {
            match (
                spec_parse_hex_u8(seq![hex[0], hex[0]]),
                spec_parse_hex_u8(seq![hex[1], hex[1]]),
                spec_parse_hex_u8(seq![hex[2], hex[2]]),
            ) {
                (Some(r), Some(g), Some(b)) => Some(spec_rgb(r, g, b)),
                _ => None,
            }
        } else if hex.len() == 6 {
            match (
                spec_parse_hex_u8(hex.subrange(0, 2)),
                spec_parse_hex_u8(hex.subrange(2, 4)),
                spec_parse_hex_u8(hex.subrange(4, 6)),
            ) {
                (Some(r), Some(g), Some(b)) => Some(spec_rgb(r, g, b)),
                _ => None,
            }
        } else {
            None
        }
    } else if t.len() >= 4 && t.subrange(0, 4) == seq!['r', 'g', 'b', ':'] {
        let parts = crate::text::spec_split(t.subrange(4, t.len() as int), '/');
        if parts.len() != 3 {
            None
        } else {
            match (
                spec_parse_hex_u8(crate::text::spec_prefix(parts[0], 2)),
                spec_parse_hex_u8(crate::text::spec_prefix(parts[1], 2)),
                spec_parse_hex_u8(crate::text::spec_prefix(parts[2], 2)),
            ) {
                (Some(r), Some(g), Some(b)) => Some(spec_rgb(r, g, b)),
                _ => None,
            }
        }
    } else {
        None
    }
}

fn doubled_hex(c: char) -> (r: Option<u8>)
    ensures
        r == spec_parse_hex_u8(seq![c, c]),
{
    let v = vec![c, c];
    assert(v@.subrange(0, 2) =~= seq![c, c]);
    parse_hex_u8(&v, 0, 2)
}

/// Parses an X11 / xterm color specification such as `#rrggbb` or
/// `rgb:rr/gg/bb`.
pub fn parse_color_spec(s: &str) -> (r: Option<Color>)
    ensures
        r == spec_parse_color_spec(s@),
{
    let all = chars_of(s);
    parse_color_chars(&all)
}

/// `parse_color_spec` on the characters of the specification.
pub fn parse_color_chars(all: &Vec<char>) -> (r: Option<Color>)
    ensures
        r == spec_parse_color_spec(all@),
{
    let (from, to) = trim_whitespace(all);
    let ghost t = all@.subrange(from as int, to as int);
    if from < to && all[from] == '#' {
        let hs = from + 1;
        let ghost hex = t.subrange(1, t.len() as int);
        assert(hex =~= all@.subrange(hs as int, to as int));
        if to - hs == 3 {
            match (doubled_hex(all[hs]), doubled_hex(all[hs + 1]), doubled_hex(all[hs + 2])) {
                (Some(r), Some(g), Some(b)) => Some(Color::rgb(r, g, b)),
                _ => None,
            }
        } else if to - hs == 6 {
            let r = parse_hex_u8(all, hs, hs + 2);
            let g = parse_hex_u8(all, hs + 2, hs + 4);
            let b = parse_hex_u8(all, hs + 4, hs + 6);
            assert(hex.subrange(0, 2) =~= all@.subrange(hs as int, hs + 2));
            assert(hex.subrange(2, 4) =~= all@.subrange(hs + 2, hs + 4));
            assert(hex.subrange(4, 6) =~= all@.subrange(hs + 4, hs + 6));
            match (r, g, b) {
                (Some(r), Some(g), Some(b)) => Some(Color::rgb(r, g, b)),
                _ => None,
            }
        } else {
            None
        }
    } else if to - from >= 4 && all[from] == 'r' && all[from + 1] == 'g' && all[from + 2] == 'b'
        && all[from + 3] == ':' {
        assert(t.subrange(0, 4) =~= seq!['r', 'g', 'b', ':']);
        let rest_start = from + 4;
        assert(t.subrange(4, t.len() as int) =~= all@.subrange(rest_start as int, to as int));
        let parts = crate::text::split_ranges(all, rest_start, to, '/');
        if parts.len() != 3 {
            None
        } else {
            let (a0, b0) = parts[0];
            let (a1, b1) = parts[1];
            let (a2, b2) = parts[2];
            let e0 = if b0 - a0 <= 2 { b0 } else { a0 + 2 };
            let e1 = if b1 - a1 <= 2 { b1 } else { a1 + 2 };
            let e2 = if b2 - a2 <= 2 { b2 } else { a2 + 2 };
            let ghost ps = crate::text::spec_split(all@.subrange(rest_start as int, to as int), '/');
            assert(crate::text::spec_prefix(ps[0], 2) =~= all@.subrange(a0 as int, e0 as int));
            assert(crate::text::spec_prefix(ps[1], 2) =~= all@.subrange(a1 as int, e1 as int));
            assert(crate::text::spec_prefix(ps[2], 2) =~= all@.subrange(a2 as int, e2 as int));
            match (
                parse_hex_u8(all, a0, e0),
                parse_hex_u8(all, a1, e1),
                parse_hex_u8(all, a2, e2),
            ) {
                (Some(r), Some(g), Some(b)) => Some(Color::rgb(r, g, b)),
                _ => None,
            }
        }
    } else {
        None
    }
}

/// Whether every character of `s` is a hexadecimal digit.
pub open spec fn all_hex(s: Seq<char>) -> bool {
    forall|i: int| 0 <= i < s.len() ==> (#[trigger] hex_digit_value(s[i])) is Some
}

/// The value of the hexadecimal digit `c` (0 for anything else).
pub open spec fn hex_of(c: char) -> int {
    match hex_digit_value(c) {
        Some(d) => d as int,
        None => 0,
    }
}

/// Law: once white space is trimmed, `#` and six hex digits give the color
/// whose components are the three digit pairs; `#` and three hex digits
/// give each digit doubled (`#abc` is `#aabbcc`); `#` and any other number
/// of characters, or a character that is neither a hex digit nor `+`, give
/// nothing (a `+` may lead a digit pair, as in a radix-16 parse); and text that
/// starts with neither `#` nor `rgb:` gives nothing.
pub proof fn law_parse_color_hash(s: Seq<char>)
    ensures
        ({
            let t = crate::text::spec_trim(s);
            let h = t.subrange(1, t.len() as int);
            &&& t.len() >= 1 && t[0] == '#' && h.len() == 6 && all_hex(h) ==> spec_parse_color_spec(s) == Some(
                spec_rgb(
                    (16 * hex_of(h[0]) + hex_of(h[1])) as u8,
                    (16 * hex_of(h[2]) + hex_of(h[3])) as u8,
                    (16 * hex_of(h[4]) + hex_of(h[5])) as u8,
                ),
            )
            &&& t.len() >= 1 && t[0] == '#' && h.len() == 3 && all_hex(h) ==> spec_parse_color_spec(s) == Some(
                spec_rgb((17 * hex_of(h[0])) as u8, (17 * hex_of(h[1])) as u8, (17 * hex_of(h[2])) as u8),
            )
            &&& t.len() >= 1 && t[0] == '#' && (exists|i: int| 0 <= i < h.len() && (#[trigger] hex_digit_value(h[i])) is None && h[i] != '+')
                ==> spec_parse_color_spec(s) is None
            &&& t.len() >= 1 && t[0] == '#' && h.len() != 3 && h.len() != 6 ==> spec_parse_color_spec(s) is None
            &&& !(t.len() >= 1 && t[0] == '#') && !(t.len() >= 4 && t.subrange(0, 4) == seq!['r', 'g', 'b', ':'])
                ==> spec_parse_color_spec(s) is None
        }),
{
    let t = crate::text::spec_trim(s);
    let h = t.subrange(1, t.len() as int);
    if t.len() >= 1 && t[0] == '#' {
        if h.len() == 6 {
            assert(h.subrange(0, 2) =~= seq![h[0], h[1]]);
            assert(h.subrange(2, 4) =~= seq![h[2], h[3]]);
            assert(h.subrange(4, 6) =~= seq![h[4], h[5]]);
            if all_hex(h) {
                assert(hex_digit_value(h[0]) is Some && hex_digit_value(h[1]) is Some);
                assert(hex_digit_value(h[2]) is Some && hex_digit_value(h[3]) is Some);
                assert(hex_digit_value(h[4]) is Some && hex_digit_value(h[5]) is Some);
            }
            if exists|i: int| 0 <= i < h.len() && (#[trigger] hex_digit_value(h[i])) is None && h[i] != '+' {
                let i = choose|i: int| 0 <= i < h.len() && (#[trigger] hex_digit_value(h[i])) is None && h[i] != '+';
                assert(0 <= i < 6);
            }
        } else if h.len() == 3 {
            if all_hex(h) {
                assert(hex_digit_value(h[0]) is Some && hex_digit_value(h[1]) is Some);
                assert(hex_digit_value(h[2]) is Some);
            }
            if exists|i: int| 0 <= i < h.len() && (#[trigger] hex_digit_value(h[i])) is None && h[i] != '+' {
                let i = choose|i: int| 0 <= i < h.len() && (#[trigger] hex_digit_value(h[i])) is None && h[i] != '+';
                assert(0 <= i < 3);
            }
        }
    }
}

/// The value an `rgb:` component `p` gives when its first one or two
/// characters are hex digits: those digits read in radix 16.
pub open spec fn component_value(p: Seq<char>) -> int {
    if p.len() == 1 {
        hex_of(p[0])
    } else {
        16 * hex_of(p[0]) + hex_of(p[1])
    }
}

/// Law: once white space is trimmed, `rgb:` and three parts cut at `/`
/// whose first two characters (or only one) are hex digits give the color
/// of those digits, anything after them in a part ignored (`a` is `0a`,
/// `ffff` is `ff`); an empty part, or a count of parts other than three,
/// gives nothing.
pub proof fn law_parse_color_rgb(s: Seq<char>)
    ensures
        ({
            let t = crate::text::spec_trim(s);
            let parts = crate::text::spec_split(t.subrange(4, t.len() as int), '/');
            let is_rgb = t.len() >= 4 && t.subrange(0, 4) == seq!['r', 'g', 'b', ':'];
            &&& is_rgb && parts.len() == 3 && (forall|k: int| 0 <= k < 3 ==> parts[k].len() >= 1 && all_hex(
                #[trigger] crate::text::spec_prefix(parts[k], 2),
            )) ==> spec_parse_color_spec(s) == Some(
                spec_rgb(
                    component_value(parts[0]) as u8,
                    component_value(parts[1]) as u8,
                    component_value(parts[2]) as u8,
                ),
            )
            &&& is_rgb && parts.len() != 3 ==> spec_parse_color_spec(s) is None
            &&& is_rgb && parts.len() == 3 && (exists|k: int| 0 <= k < 3 && #[trigger] parts[k].len() == 0)
                ==> spec_parse_color_spec(s) is None
        }),
{
    let t = crate::text::spec_trim(s);
    let parts = crate::text::spec_split(t.subrange(4, t.len() as int), '/');
    if t.len() >= 4 && t.subrange(0, 4) == seq!['r', 'g', 'b', ':'] && parts.len() == 3 {
        assert(!(t[0] == '#')) by {
            assert(t.subrange(0, 4)[0] == 'r');
        }
        if forall|k: int| 0 <= k < 3 ==> parts[k].len() >= 1 && all_hex(
            #[trigger] crate::text::spec_prefix(parts[k], 2),
        ) {
            assert forall|k: int| 0 <= k < 3 implies #[trigger] spec_parse_hex_u8(crate::text::spec_prefix(parts[k], 2))
                == Some(component_value(parts[k]) as u8) by {
                let q = crate::text::spec_prefix(parts[k], 2);
                assert(parts[k].len() >= 1 && all_hex(q));
                assert(hex_digit_value(q[0]) is Some);
                if q.len() == 2 {
                    assert(hex_digit_value(q[1]) is Some);
                }
            }
        }
    } else if t.len() >= 4 && t.subrange(0, 4) == seq!['r', 'g', 'b', ':'] {
        assert(t.subrange(0, 4)[0] == 'r');
    }
}

} // verus!
