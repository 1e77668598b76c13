use vstd::prelude::*;
use vstd::utf8::{decode_utf8, valid_utf8};

verus! {

/// Unicode `White_Space` property, the set that `char::is_whitespace`
/// tests.
pub open spec fn spec_is_whitespace(c: char) -> bool {
    ||| ('\u{9}' <= c && c <= '\u{d}')
    ||| c == ' '
    ||| c == '\u{85}'
    ||| c == '\u{a0}'
    ||| c == '\u{1680}'
    ||| ('\u{2000}' <= c && c <= '\u{200a}')
    ||| c == '\u{2028}'
    ||| c == '\u{2029}'
    ||| c == '\u{202f}'
    ||| c == '\u{205f}'
    ||| c == '\u{3000}'
}

/// Whether `c` is Unicode white space.
#[verifier::when_used_as_spec(spec_is_whitespace)]
pub fn is_whitespace(c: char) -> (r: bool)
    ensures
        r == spec_is_whitespace(c),
{
    ('\u{9}' <= c && c <= '\u{d}') || c == ' ' || c == '\u{85}' || c == '\u{a0}' || c
        == '\u{1680}' || ('\u{2000}' <= c && c <= '\u{200a}') || c == '\u{2028}' || c
        == '\u{2029}' || c == '\u{202f}' || c == '\u{205f}' || c == '\u{3000}'
}

/// `s` without its leading white space.
pub open spec fn spec_trim_start(s: Seq<char>) -> Seq<char>
    decreases s.len(),
{
    if s.len() > 0 && spec_is_whitespace(s[0]) {
        spec_trim_start(s.drop_first())
    } else {
        s
    }
}

/// `s` without its trailing white space.
pub open spec fn spec_trim_end(s: Seq<char>) -> Seq<char>
    decreases s.len(),
{
    if s.len() > 0 && spec_is_whitespace(s.last()) {
        spec_trim_end(s.drop_last())
    } else {
        s
    }
}

/// `s` without leading and trailing white space.
pub open spec fn spec_trim(s: Seq<char>) -> Seq<char> {
    spec_trim_end(spec_trim_start(s))
}

/// The first `n` characters of `s` (all of it when shorter).
pub open spec fn spec_prefix(s: Seq<char>, n: int) -> Seq<char> {
    if s.len() <= n {
        s
    } else {
        s.subrange(0, n)
    }
}

/// Bounds `(from, to)` such that `v[from..to]` is `v` trimmed of white space.
pub fn trim_whitespace(v: &Vec<char>) -> (r: (usize, usize))
    ensures
        r.0 <= r.1 <= v@.len(),
        v@.subrange(r.0 as int, r.1 as int) == spec_trim(v@),
{
    let mut from: usize = 0;
    assert(v@.subrange(0, v@.len() as int) =~= v@);
    while from < v.len() && is_whitespace(v[from])
        invariant
            from <= v@.len(),
            spec_trim_start(v@) == spec_trim_start(v@.subrange(from as int, v@.len() as int)),
        decreases v@.len() - from,
    {
        assert(v@.subrange(from as int, v@.len() as int).drop_first() =~= v@.subrange(
            from + 1,
            v@.len() as int,
        ));
        from = from + 1;
    }
    assert(spec_trim_start(v@.subrange(from as int, v@.len() as int)) == v@.subrange(
        from as int,
        v@.len() as int,
    ));
    let mut to: usize = v.len();
    assert(spec_trim(v@) == spec_trim_end(v@.subrange(from as int, to as int)));
    while to > from && is_whitespace(v[to - 1])
        invariant
            from <= to <= v@.len(),
            spec_trim(v@) == spec_trim_end(v@.subrange(from as int, to as int)),
        decreases to,
    {
        assert(v@.subrange(from as int, to as int).drop_last() =~= v@.subrange(
            from as int,
            to - 1,
        ));
        to = to - 1;
    }
    (from, to)
}

/// The pieces of `s` between separators, scanning from position `i` with the
/// current piece starting at `seg`.
pub open spec fn split_from(s: Seq<char>, sep: char, seg: int, i: int) -> Seq<Seq<char>>
    decreases s.len() - i,
{
    if i >= s.len() {
        seq![s.subrange(seg, s.len() as int)]
    } else if s[i] == sep {
        seq![s.subrange(seg, i)] + split_from(s, sep, i + 1, i + 1)
    } else {
        split_from(s, sep, seg, i + 1)
    }
}

/// `s` cut at every occurrence of `sep`, as `str::split` cuts it: always at
/// least one piece, empty pieces kept.
pub open spec fn spec_split(s: Seq<char>, sep: char) -> Seq<Seq<char>> {
    split_from(s, sep, 0, 0)
}

pub open spec fn ranges_text(v: Seq<char>, r: Seq<(usize, usize)>) -> Seq<Seq<char>> {
    r.map_values(|p: (usize, usize)| v.subrange(p.0 as int, p.1 as int))
}

/// The bounds, in `v`, of the pieces of `v[start..end]` cut at `sep`.
pub fn split_ranges(v: &Vec<char>, start: usize, end: usize, sep: char) -> (r: Vec<(usize, usize)>)
    requires
        start <= end <= v@.len(),
    ensures
        r@.len() == spec_split(v@.subrange(start as int, end as int), sep).len(),
        forall|k: int|
            0 <= k < r@.len() ==> start <= (#[trigger] r@[k]).0 <= r@[k].1 <= end && v@.subrange(
                r@[k].0 as int,
                r@[k].1 as int,
            ) == spec_split(v@.subrange(start as int, end as int), sep)[k],
{
    let ghost s = v@.subrange(start as int, end as int);
    let mut r: Vec<(usize, usize)> = Vec::new();
    let mut seg = start;
    let mut i = start;
    while i < end
        invariant
            start <= seg <= i <= end <= v@.len(),
            s == v@.subrange(start as int, end as int),
            ranges_text(v@, r@) + split_from(s, sep, seg - start, i - start) == spec_split(s, sep),
            forall|k: int| 0 <= k < r@.len() ==> start <= (#[trigger] r@[k]).0 <= r@[k].1 <= end,
        decreases end - i,
    {
        if v[i] == sep {
            let ghost before = ranges_text(v@, r@);
            assert(s.subrange(seg - start, i - start) =~= v@.subrange(seg as int, i as int));
            r.push((seg, i));
            assert(ranges_text(v@, r@) =~= before.push(v@.subrange(seg as int, i as int)));
            assert(ranges_text(v@, r@) + split_from(s, sep, i + 1 - start, i + 1 - start)
                =~= before + split_from(s, sep, seg - start, i - start));
            seg = i + 1;
        }
        i = i + 1;
    }
    let ghost before = ranges_text(v@, r@);
    assert(s.subrange(seg - start, s.len() as int) =~= v@.subrange(seg as int, end as int));
    r.push((seg, end));
    assert(ranges_text(v@, r@) =~= before.push(v@.subrange(seg as int, end as int)));
    assert(ranges_text(v@, r@) =~= spec_split(s, sep));
    assert forall|k: int| 0 <= k < r@.len() implies v@.subrange(
        (#[trigger] r@[k]).0 as int,
        r@[k].1 as int,
    ) == spec_split(s, sep)[k] by {
        assert(ranges_text(v@, r@)[k] == v@.subrange(r@[k].0 as int, r@[k].1 as int));
    }
    r
}

/// ASCII decimal digits of `n`, most significant first.
pub open spec fn decimal(n: nat) -> Seq<u8>
    decreases n,
{
    if n < 10 {
        seq![(48 + n) as u8]
    } else {
        decimal(n / 10).push((48 + n % 10) as u8)
    }
}

/// Appends the decimal digits of `n` to `out`.
pub fn push_decimal(out: &mut Vec<u8>, n: usize)
    ensures
        final(out)@ == old(out)@ + decimal(n as nat),
    decreases n,
{
    if n < 10 {
        out.push(48 + n as u8);
    } else {
        push_decimal(out, n / 10);
        out.push(48 + (n % 10) as u8);
    }
}

/// Appends the bytes of `s` to `out`.
pub fn push_bytes(out: &mut Vec<u8>, s: &[u8])
    ensures
        final(out)@ == old(out)@ + s@,
{
    let mut i: usize = 0;
    while i < s.len()
        invariant
            i <= s@.len(),
            out@ == old(out)@ + s@.subrange(0, i as int),
        decreases s@.len() - i,
    {
        out.push(s[i]);
        i = i + 1;
        assert(s@.subrange(0, i as int) =~= s@.subrange(0, i - 1).push(s@[i - 1]));
    }
    assert(s@.subrange(0, s@.len() as int) =~= s@);
}

/// Whether every byte of `s` is an ASCII digit.
pub open spec fn all_digits(s: Seq<u8>) -> bool {
    forall|i: int| 0 <= i < s.len() ==> 48 <= #[trigger] s[i] <= 57
}

/// The decimal value of the ASCII digits `s`.
pub open spec fn digits_value(s: Seq<u8>) -> nat
    decreases s.len(),
{
    if s.len() == 0 {
        0
    } else {
        digits_value(s.drop_last()) * 10 + (s.last() - 48) as nat
    }
}

/// What `str::parse` gives for an unsigned integer type whose largest value
/// is `max`: an optional `+` and at least one ASCII digit, with a value that
/// fits.
pub open spec fn spec_parse_unsigned(s: Seq<u8>, max: nat) -> Option<nat> {
    let d = if s.len() > 0 && s[0] == 43 {
        s.drop_first()
    } else {
        s
    };
    if d.len() > 0 && all_digits(d) && digits_value(d) <= max {
        Some(digits_value(d))
    } else {
        None
    }
}

/// Parses the unsigned decimal number in `s` (as `str::parse::<u32>` or
/// `str::parse::<u8>` does on the same text), refusing values above `max`.
pub fn parse_unsigned(s: &[u8], max: u32) -> (r: Option<u32>)
    ensures
        match spec_parse_unsigned(s@, max as nat) {
            Some(v) => r == Some(v as u32),
            None => r is None,
        },
{
    let start: usize = if s.len() > 0 && s[0] == 43 {
        1
    } else {
        0
    };
    let ghost d = if s@.len() > 0 && s@[0] == 43 {
        s@.drop_first()
    } else {
        s@
    };
    assert(d =~= s@.subrange(start as int, s@.len() as int));
    if start >= s.len() {
        return None;
    }
    let cap: u64 = max as u64 + 1;
    let mut v: u64 = 0;
    let mut i = start;
    while i < s.len()
        invariant
            start <= i <= s@.len(),
            d == s@.subrange(start as int, s@.len() as int),
            d == (if s@.len() > 0 && s@[0] == 43 {
                s@.drop_first()
            } else {
                s@
            }),
            cap == max + 1,
            all_digits(s@.subrange(start as int, i as int)),
            v as int == (if digits_value(s@.subrange(start as int, i as int)) < cap {
                digits_value(s@.subrange(start as int, i as int)) as int
            } else {
                cap as int
            }),
        decreases s@.len() - i,
    {
        let b = s[i];
        if b < 48 || b > 57 {
            assert(!all_digits(d)) by {
                assert(d[i - start] == b);
            }
            return None;
        }
        let ghost pre = s@.subrange(start as int, i as int);
        let ghost next = s@.subrange(start as int, i + 1);
        assert(next.drop_last() =~= pre);
        assert(next.last() == b);
        v = if v >= cap {
            cap
        } else {
            let w = v * 10 + (b - 48) as u64;
            if w >= cap {
                cap
            } else {
                w
            }
        };
        i = i + 1;
    }
    assert(s@.subrange(start as int, i as int) =~= d);
    if v >= cap {
        None
    } else {
        Some(v as u32)
    }
}

/// The characters of `s`, in order (`str::chars`).
#[verifier::external_body]
pub(crate) fn chars_of(s: &str) -> (v: Vec<char>)
    ensures
        v@ == s@,
{
    s.chars().collect()
}

/// A string made of the characters `v` (collecting into `String`).
#[verifier::external_body]
pub(crate) fn string_from_chars(v: &[char]) -> (s: String)
    ensures
        s@ == v@,
{
    v.iter().collect()
}

/// Appends `c` to `s` (`String::push`).
#[verifier::external_body]
pub(crate) fn string_push(s: &mut String, c: char)
    ensures
        final(s)@ == old(s)@.push(c),
{
    s.push(c)
}

/// The one-character string `c` (`char::to_string`).
#[verifier::external_body]
pub(crate) fn char_to_string(c: char) -> (s: String)
    ensures
        s@ == seq![c],
{
    c.to_string()
}

/// The characters that `bytes` encode in UTF-8, or `None` when `bytes` is not
/// valid UTF-8 (`std::str::from_utf8`).
#[verifier::external_body]
pub(crate) fn utf8_decode(bytes: &[u8]) -> (r: Option<Vec<char>>)
    ensures
        r is Some <==> valid_utf8(bytes@),
        r matches Some(v) ==> v@ == decode_utf8(bytes@),
{
    match std::str::from_utf8(bytes) {
        Ok(s) => Some(s.chars().collect()),
        Err(_) => None,
    }
}

/// What `String::from_utf8_lossy` makes of `bytes`.
pub uninterp spec fn spec_utf8_lossy(bytes: Seq<u8>) -> Seq<char>;

/// `String::from_utf8_lossy`: the text of `bytes` with each invalid sequence
/// replaced by U+FFFD; valid UTF-8 is decoded unchanged.
#[verifier::external_body]
pub(crate) fn utf8_lossy(bytes: &[u8]) -> (s: String)
    ensures
        s@ == spec_utf8_lossy(bytes@),
        valid_utf8(bytes@) ==> s@ == decode_utf8(bytes@),
{
    String::from_utf8_lossy(bytes).into_owned()
}

/// The display width that `unicode_width::UnicodeWidthChar::width` gives `c`.
pub uninterp spec fn spec_char_width(c: char) -> Option<usize>;

/// Column width of `c` (`UnicodeWidthChar::width`): `None` for the C0 and
/// C1 control characters and DEL, one column for printable ASCII, otherwise
/// a width from the Unicode East Asian Width tables.
#[verifier::external_body]
pub(crate) fn char_width(c: char) -> (w: Option<usize>)
    ensures
        w == spec_char_width(c),
        ('\u{20}' <= c && c < '\u{7f}') ==> w == Some(1usize),
        (c < '\u{20}' || ('\u{7f}' <= c && c < '\u{a0}')) ==> w is None,
        '\u{a0}' <= c ==> w is Some,
{
    unicode_width::UnicodeWidthChar::width(c)
}

/// Law: the decimal form of `n` is made of ASCII digits, has no leading
/// zero, and reads back as `n`.
pub proof fn law_decimal(n: nat)
    ensures
        decimal(n).len() >= 1,
        all_digits(decimal(n)),
        decimal(n).len() > 1 ==> decimal(n)[0] != 48,
        (decimal(n).len() == 1) == (n < 10),
        digits_value(decimal(n)) == n,
    decreases n,
{
    if n >= 10 {
        law_decimal(n / 10);
        let d = decimal(n / 10);
        let e = decimal(n);
        assert(e == d.push((48 + n % 10) as u8));
        assert(e.drop_last() =~= d);
        assert(e.last() == (48 + n % 10) as u8);
        assert(n == (n / 10) * 10 + n % 10) by (nonlinear_arith);
        assert(n / 10 >= 1);
        assert(digits_value(e) == digits_value(d) * 10 + (e.last() - 48) as nat);
        if d.len() == 1 {
            assert(d == seq![(48 + n / 10) as u8]);
            assert(d[0] != 48);
        }
        assert(e[0] == d[0]);
    } else {
        let e = decimal(n);
        assert(e.drop_last() =~= Seq::<u8>::empty());
        assert(digits_value(e) == digits_value(e.drop_last()) * 10 + (e.last() - 48) as nat);
    }
}

} // verus!
