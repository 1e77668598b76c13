use vstd::prelude::*;

verus! {

/// A character set that can be designated into G0 or G1.
#[derive(Clone, Copy, PartialEq, Eq, Structural, Debug)]
pub enum Charset {
    Ascii,
    DecSpecialGraphics,
}

/// The charset that an `ESC ( x` / `ESC ) x` designator names: `0` is the
/// DEC special graphics set, anything else plain ASCII.
pub fn charset_from_designator(designator: u8) -> (c: Charset)
    ensures
        c == (if designator == 48 { Charset::DecSpecialGraphics } else { Charset::Ascii }),
{
    match designator {
        48 => Charset::DecSpecialGraphics,
        _ => Charset::Ascii,
    }
}

/// The line-drawing glyph that DEC special graphics shows for `c`.
pub open spec fn spec_dec_special_graphics(c: char) -> char {
    if c == 'j' {
        '┘'
    } else if c == 'k' {
        '┐'
    } else if c == 'l' {
        '┌'
    } else if c == 'm' {
        '└'
    } else if c == 'n' {
        '┼'
    } else if c == 'q' {
        '─'
    } else if c == 't' {
        '├'
    } else if c == 'u' {
        '┤'
    } else if c == 'v' {
        '┴'
    } else if c == 'w' {
        '┬'
    } else if c == 'x' {
        '│'
    } else if c == 'y' {
        '≤'
    } else if c == 'z' {
        '≥'
    } else if c == '{' {
        'π'
    } else if c == '|' {
        '≠'
    } else if c == '}' {
        '£'
    } else if c == '~' {
        '·'
    } else {
        c
    }
}

/// Maps `c` through the DEC special graphics table; characters outside the
/// table are unchanged.
pub fn map_dec_special_graphics(c: char) -> (r: char)
    ensures
        r == spec_dec_special_graphics(c),
{
    match c {
        'j' => '┘',
        'k' => '┐',
        'l' => '┌',
        'm' => '└',
        'n' => '┼',
        'q' => '─',
        't' => '├',
        'u' => '┤',
        'v' => '┴',
        'w' => '┬',
        'x' => '│',
        'y' => '≤',
        'z' => '≥',
        '{' => 'π',
        '|' => '≠',
        '}' => '£',
        '~' => '·',
        _ => c,
    }
}

/// Law: DEC special graphics draws boxes from the lowercase letters `j` to
/// `x` (corners `j` lower right, `k` upper right, `l` upper left, `m` lower
/// left, crossing `n`, horizontal line `q`, tees `t u v w`, vertical line
/// `x`) and shows a few symbols for `y` to `~`; every other character,
/// letters outside the table and all of ASCII below `j` included, is shown
/// as itself.
pub proof fn law_dec_special_graphics(c: char)
    ensures
        spec_dec_special_graphics('j') == '\u{2518}' && spec_dec_special_graphics('k') == '\u{2510}'
            && spec_dec_special_graphics('l') == '\u{250c}' && spec_dec_special_graphics('m') == '\u{2514}',
        spec_dec_special_graphics('n') == '\u{253c}' && spec_dec_special_graphics('q') == '\u{2500}'
            && spec_dec_special_graphics('x') == '\u{2502}',
        spec_dec_special_graphics('t') == '\u{251c}' && spec_dec_special_graphics('u') == '\u{2524}'
            && spec_dec_special_graphics('v') == '\u{2534}' && spec_dec_special_graphics('w') == '\u{252c}',
        spec_dec_special_graphics('y') == '\u{2264}' && spec_dec_special_graphics('z') == '\u{2265}'
            && spec_dec_special_graphics('{') == '\u{3c0}' && spec_dec_special_graphics('|') == '\u{2260}'
            && spec_dec_special_graphics('}') == '\u{a3}' && spec_dec_special_graphics('~') == '\u{b7}',
        (c < 'j' || c > '~' || c == 'o' || c == 'p' || c == 'r' || c == 's') ==> spec_dec_special_graphics(c) == c,
{
}

} // verus!
