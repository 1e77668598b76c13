use vstd::prelude::*;

use crate::cell::{spec_display_text, Cell, CellView};
use crate::history::{find_char, row_cells, slice_chars, starts_with};
use crate::selection::cells_text;
use crate::text::{chars_of, is_whitespace, spec_is_whitespace, spec_trim, string_from_chars, trim_whitespace};

verus! {

/// How double-click word selection groups characters.
#[derive(Clone, Copy, PartialEq, Eq, Structural, Debug)]
pub enum CharClass {
    Word,
    Whitespace,
    Symbol,
}

pub open spec fn spec_is_ascii_alphanumeric(c: char) -> bool {
    ('0' <= c && c <= '9') || ('a' <= c && c <= 'z') || ('A' <= c && c <= 'Z')
}

pub open spec fn spec_char_class(c: char) -> CharClass {
    if spec_is_ascii_alphanumeric(c) || c == '_' {
        CharClass::Word
    } else if spec_is_whitespace(c) {
        CharClass::Whitespace
    } else {
        CharClass::Symbol
    }
}

/// The class of `c`: ASCII letters, digits and `_` make words, white space
/// separates, anything else is a symbol.
pub fn char_class(c: char) -> (r: CharClass)
    ensures
        r == spec_char_class(c),
{
    if ('0' <= c && c <= '9') || ('a' <= c && c <= 'z') || ('A' <= c && c <= 'Z') || c == '_' {
        CharClass::Word
    } else if is_whitespace(c) {
        CharClass::Whitespace
    } else {
        CharClass::Symbol
    }
}

/// The first character that a cell shows, a space when it shows nothing.
pub open spec fn spec_head_char(cell: CellView) -> char {
    if spec_display_text(cell).len() > 0 {
        spec_display_text(cell)[0]
    } else {
        ' '
    }
}

pub fn cell_head_char(cell: &Cell) -> (r: char)
    ensures
        r == spec_head_char(cell@),
{
    let v = chars_of(cell.display_text());
    if v.len() > 0 {
        v[0]
    } else {
        ' '
    }
}

/// A cell that ends a plain-text link: it shows nothing or only white
/// space.
pub open spec fn spec_is_break(cell: CellView) -> bool {
    forall|i: int| 0 <= i < spec_display_text(cell).len() ==> spec_is_whitespace(#[trigger] spec_display_text(cell)[i])
}

pub fn is_link_break_cell(cell: &Cell) -> (r: bool)
    ensures
        r == spec_is_break(cell@),
{
    let v = chars_of(cell.display_text());
    let mut i: usize = 0;
    while i < v.len()
        invariant
            i <= v@.len(),
            v@ == spec_display_text(cell@),
            forall|j: int| 0 <= j < i ==> spec_is_whitespace(v@[j]),
        decreases v@.len() - i,
    {
        if !is_whitespace(v[i]) {
            return false;
        }
        i = i + 1;
    }
    true
}

pub open spec fn spec_leading_trim(c: char) -> bool {
    c == '(' || c == '[' || c == '{' || c == '<' || c == '"' || c == '\''
}

pub open spec fn spec_trailing_trim(c: char) -> bool {
    c == ')' || c == ']' || c == '}' || c == '>' || c == ',' || c == '.' || c == ';' || c == ':'
        || c == '!' || c == '?' || c == '"' || c == '\''
}

/// An opening bracket or quote that is not part of a link before it.
pub fn is_leading_trim_char(c: char) -> (r: bool)
    ensures
        r == spec_leading_trim(c),
{
    c == '(' || c == '[' || c == '{' || c == '<' || c == '"' || c == '\''
}

/// Closing punctuation that is not part of a link after it.
pub fn is_trailing_trim_char(c: char) -> (r: bool)
    ensures
        r == spec_trailing_trim(c),
{
    c == ')' || c == ']' || c == '}' || c == '>' || c == ',' || c == '.' || c == ';' || c == ':' || c
        == '!' || c == '?' || c == '"' || c == '\''
}

/// Whether `p` occurs in `s`.
pub open spec fn has_substring(s: Seq<char>, p: Seq<char>) -> bool {
    exists|i: int| 0 <= i <= s.len() - p.len() && #[trigger] s.subrange(i, i + p.len()) == p
}

/// `s` up to its first `/`.
pub open spec fn before_slash(s: Seq<char>) -> Seq<char> {
    match find_char(s, '/', 0) {
        Some(i) => s.subrange(0, i),
        None => s,
    }
}

pub open spec fn scheme_sep() -> Seq<char> {
    seq![':', '/', '/']
}

pub open spec fn www_prefix() -> Seq<char> {
    seq!['w', 'w', 'w', '.']
}

pub open spec fn localhost() -> Seq<char> {
    seq!['l', 'o', 'c', 'a', 'l', 'h', 'o', 's', 't']
}

/// Whether `s` is made of digits, dots and colons, with a digit and a dot.
pub open spec fn ip_like(s: Seq<char>) -> bool {
    &&& forall|i: int| 0 <= i < s.len() ==> ('0' <= #[trigger] s[i] <= '9' || s[i] == '.' || s[i] == ':')
    &&& exists|i: int| 0 <= i < s.len() && '0' <= #[trigger] s[i] <= '9'
    &&& s.contains('.')
}

/// Whether a trimmed token reads as a URL: it has a scheme separator,
/// starts with `www.`, is `localhost` (with a port or path), or its host
/// part is an IP address (optionally with a port).
pub open spec fn spec_looks_like_url(token: Seq<char>) -> bool {
    let t = spec_trim(token);
    if t.len() == 0 {
        false
    } else if has_substring(t, scheme_sep()) || starts_with(t, www_prefix()) {
        true
    } else if starts_with(t, localhost()) {
        t == localhost() || starts_with(t, localhost().push(':')) || starts_with(t, localhost().push('/'))
    } else {
        ip_like(before_slash(t))
    }
}

/// Whether `s[from..to]` contains `p` at some position.
fn find_sub(s: &Vec<char>, from: usize, to: usize, pv: &Vec<char>) -> (r: bool)
    requires
        from <= to <= s@.len(),
    ensures
        r == has_substring(s@.subrange(from as int, to as int), pv@),
{
    let ghost p = pv@;
    let ghost t = s@.subrange(from as int, to as int);
    if pv.len() > to - from {
        return false;
    }
    let last = to - pv.len();
    let mut i = from;
    while i <= last
        invariant
            from <= i <= last + 1,
            last + pv@.len() == to,
            to <= s@.len(),
            t == s@.subrange(from as int, to as int),
            pv@ == p,
            forall|k: int| 0 <= k < i - from ==> #[trigger] t.subrange(k, k + p.len()) != p,
        decreases last + 1 - i,
    {
        let mut j: usize = 0;
        let mut ok = true;
        while j < pv.len()
            invariant
                j <= pv@.len(),
                i + pv@.len() <= to,
                to <= s@.len(),
                ok == (forall|m: int| 0 <= m < j ==> s@[i + m] == pv@[m]),
            decreases pv@.len() - j,
        {
            if s[i + j] != pv[j] {
                ok = false;
            }
            j = j + 1;
        }
        if ok {
            assert(t.subrange(i - from, i - from + p.len()) =~= p);
            return true;
        }
        assert(t.subrange(i - from, i - from + p.len()) != p) by {
            let m = choose|m: int| 0 <= m < pv@.len() && s@[i + m] != pv@[m];
            assert(t.subrange(i - from, i - from + p.len())[m] == s@[i + m]);
        }
        i = i + 1;
    }
    assert forall|k: int| 0 <= k <= t.len() - p.len() implies #[trigger] t.subrange(k, k + p.len()) != p by {
        assert(k < i - from);
    }
    false
}

/// Whether `s[from..to]` begins with `p`.
fn prefix_at(s: &Vec<char>, from: usize, to: usize, pv: &Vec<char>) -> (r: bool)
    requires
        from <= to <= s@.len(),
    ensures
        r == starts_with(s@.subrange(from as int, to as int), pv@),
{
    if pv.len() > to - from {
        return false;
    }
    let mut j: usize = 0;
    while j < pv.len()
        invariant
            j <= pv@.len(),
            from + pv@.len() <= to <= s@.len(),
            forall|m: int| 0 <= m < j ==> s@[from + m] == pv@[m],
        decreases pv@.len() - j,
    {
        if s[from + j] != pv[j] {
            assert(s@.subrange(from as int, to as int).subrange(0, pv@.len() as int)[j as int] != pv@[j as int]);
            return false;
        }
        j = j + 1;
    }
    assert(s@.subrange(from as int, to as int).subrange(0, pv@.len() as int) =~= pv@);
    true
}

fn literal(s: &str) -> (v: Vec<char>)
    ensures
        v@ == s@,
{
    chars_of(s)
}

/// Whether a token of terminal text reads as a URL.
pub fn looks_like_url(token: &str) -> (r: bool)
    ensures
        r == spec_looks_like_url(token@),
{
    let all = chars_of(token);
    let (from, to) = trim_whitespace(&all);
    let ghost t = all@.subrange(from as int, to as int);
    if from == to {
        return false;
    }
    let sep = literal("://");
    let www = literal("www.");
    let local = literal("localhost");
    let local_colon = literal("localhost:");
    let local_slash = literal("localhost/");
    proof {
        reveal_strlit("://");
        reveal_strlit("www.");
        reveal_strlit("localhost");
        reveal_strlit("localhost:");
        reveal_strlit("localhost/");
        assert(sep@ =~= scheme_sep());
        assert(www@ =~= www_prefix());
        assert(local@ =~= localhost());
        assert(local_colon@ =~= localhost().push(':'));
        assert(local_slash@ =~= localhost().push('/'));
    }
    if find_sub(&all, from, to, &sep) || prefix_at(&all, from, to, &www) {
        return true;
    }
    if prefix_at(&all, from, to, &local) {
        let exact = to - from == 9;
        proof {
            if exact {
                assert(t =~= localhost());
            }
        }
        return exact || prefix_at(&all, from, to, &local_colon) || prefix_at(&all, from, to, &local_slash);
    }
    let host_end = first_slash(&all, from, to);
    let mut i = from;
    let mut only = true;
    let mut digit = false;
    let mut dot = false;
    let ghost h = t.subrange(0, host_end - from);
    while i < host_end
        invariant
            from <= i <= host_end <= to <= all@.len(),
            h == all@.subrange(from as int, host_end as int),
            only == (forall|k: int| 0 <= k < i - from ==> ('0' <= #[trigger] h[k] <= '9' || h[k] == '.' || h[k] == ':')),
            digit == (exists|k: int| 0 <= k < i - from && '0' <= #[trigger] h[k] <= '9'),
            dot == h.subrange(0, i - from).contains('.'),
        decreases host_end - i,
    {
        let c = all[i];
        assert(h[i - from] == c);
        let is_digit = '0' <= c && c <= '9';
        if !(is_digit || c == '.' || c == ':') {
            only = false;
        }
        if is_digit {
            digit = true;
        }
        proof {
            assert(h.subrange(0, i + 1 - from) =~= h.subrange(0, i - from).push(c));
            if c == '.' {
                assert(h.subrange(0, i + 1 - from)[i - from] == '.');
            }
        }
        if c == '.' {
            dot = true;
        }
        i = i + 1;
    }
    assert(h.subrange(0, i - from) =~= h);
    only && digit && dot
}

/// The end of the part of `s[from..to]` before its first `/`.
fn first_slash(s: &Vec<char>, from: usize, to: usize) -> (e: usize)
    requires
        from <= to <= s@.len(),
    ensures
        from <= e <= to,
        before_slash(s@.subrange(from as int, to as int)) == s@.subrange(from as int, e as int),
{
    let ghost t = s@.subrange(from as int, to as int);
    let mut e = from;
    while e < to && s[e] != '/'
        invariant
            from <= e <= to <= s@.len(),
            t == s@.subrange(from as int, to as int),
            find_char(t, '/', 0) == find_char(t, '/', e - from),
        decreases to - e,
    {
        assert(t[e - from] == s@[e as int]);
        e = e + 1;
    }
    proof {
        if e < to {
            assert(t[e - from] == '/');
            assert(t.subrange(0, e - from) =~= s@.subrange(from as int, e as int));
        } else {
            assert(t =~= s@.subrange(from as int, e as int));
        }
    }
    e
}

pub open spec fn http_prefix() -> Seq<char> {
    seq!['h', 't', 't', 'p', ':', '/', '/']
}

/// The URL to hand to a browser: one without a scheme gets `http://` when
/// it starts with `localhost` or `www.` or its host part has a dot.
pub open spec fn spec_normalize_url(url: Seq<char>) -> Seq<char> {
    if has_substring(url, scheme_sep()) {
        url
    } else if starts_with(url, localhost()) || starts_with(url, www_prefix()) || before_slash(url).contains(
        '.',
    ) {
        http_prefix() + url
    } else {
        url
    }
}

/// Whether `s[from..to]` contains `c`.
fn contains_char(s: &Vec<char>, from: usize, to: usize, c: char) -> (r: bool)
    requires
        from <= to <= s@.len(),
    ensures
        r == s@.subrange(from as int, to as int).contains(c),
{
    let mut i = from;
    while i < to
        invariant
            from <= i <= to <= s@.len(),
            forall|k: int| from <= k < i ==> s@[k] != c,
        decreases to - i,
    {
        if s[i] == c {
            assert(s@.subrange(from as int, to as int)[i - from] == c);
            return true;
        }
        i = i + 1;
    }
    false
}

pub fn normalize_url_for_open(url: &str) -> (r: String)
    ensures
        r@ == spec_normalize_url(url@),
{
    let v = chars_of(url);
    let n = v.len();
    let sep = literal("://");
    let www = literal("www.");
    let local = literal("localhost");
    proof {
        reveal_strlit("://");
        reveal_strlit("www.");
        reveal_strlit("localhost");
        assert(sep@ =~= scheme_sep());
        assert(www@ =~= www_prefix());
        assert(local@ =~= localhost());
        assert(v@.subrange(0, n as int) =~= v@);
    }
    if find_sub(&v, 0, n, &sep) {
        return string_from_chars(v.as_slice());
    }
    let host_end = first_slash(&v, 0, n);
    if prefix_at(&v, 0, n, &local) || prefix_at(&v, 0, n, &www) || contains_char(&v, 0, host_end, '.') {
        let mut out = literal("http://");
        proof {
            reveal_strlit("http://");
            assert(out@ =~= http_prefix());
        }
        let mut i: usize = 0;
        while i < n
            invariant
                i <= n,
                n == v@.len(),
                out@ == http_prefix() + v@.subrange(0, i as int),
            decreases n - i,
        {
            out.push(v[i]);
            i = i + 1;
            assert(out@ =~= http_prefix() + v@.subrange(0, i as int));
        }
        return string_from_chars(out.as_slice());
    }
    string_from_chars(v.as_slice())
}

/// Back from `col` over the trailing halves of wide characters.
pub open spec fn back_over_wide(row: Seq<CellView>, col: int) -> int
    decreases col,
{
    if col > 0 && row[col].wide_continuation {
        back_over_wide(row, col - 1)
    } else {
        col
    }
}

/// The first cell of the run of cells carrying the link `url` that ends at
/// `s`.
pub open spec fn link_start(row: Seq<CellView>, url: Seq<char>, s: int) -> int
    decreases s,
{
    if s > 0 && row[s - 1].hyperlink == Some(url) {
        link_start(row, url, s - 1)
    } else {
        s
    }
}

/// The last cell of the run of cells carrying `url` that starts at `e`.
pub open spec fn link_end(row: Seq<CellView>, url: Seq<char>, e: int) -> int
    decreases row.len() - e,
{
    if e + 1 < row.len() && row[e + 1].hyperlink == Some(url) {
        link_end(row, url, e + 1)
    } else {
        e
    }
}

/// `e` extended over the trailing halves of wide characters after it.
pub open spec fn wide_end(row: Seq<CellView>, e: int) -> int
    decreases row.len() - e,
{
    if e + 1 < row.len() && row[e + 1].wide_continuation {
        wide_end(row, e + 1)
    } else {
        e
    }
}

/// The first cell of the run of non-break cells that ends at `s`.
pub open spec fn word_start(row: Seq<CellView>, s: int) -> int
    decreases s,
{
    if s > 0 && !spec_is_break(row[s - 1]) {
        word_start(row, s - 1)
    } else {
        s
    }
}

/// The last cell of the run of non-break cells that starts at `e`.
pub open spec fn word_end(row: Seq<CellView>, e: int) -> int
    decreases row.len() - e,
{
    if e + 1 < row.len() && !spec_is_break(row[e + 1]) {
        word_end(row, e + 1)
    } else {
        e
    }
}

/// `s` moved past opening brackets and quotes, up to `e + 1`.
pub open spec fn trim_leading(row: Seq<CellView>, s: int, e: int) -> int
    decreases e + 1 - s,
{
    if s <= e && spec_leading_trim(spec_head_char(row[s])) {
        trim_leading(row, s + 1, e)
    } else {
        s
    }
}

/// `e` moved back past closing punctuation, not below `s` or 0.
pub open spec fn trim_trailing(row: Seq<CellView>, s: int, e: int) -> int
    decreases e,
{
    if e >= s && e > 0 && spec_trailing_trim(spec_head_char(row[e])) {
        trim_trailing(row, s, e - 1)
    } else {
        e
    }
}

/// The link under column `col` of `row`: the run of cells carrying the
/// same hyperlink, or (when plain-text links are allowed) the word there,
/// stripped of surrounding brackets and punctuation, when it reads as a
/// URL. Gives the first and last column and the URL.
pub open spec fn spec_link_span(row: Seq<CellView>, col: int, plain: bool) -> Option<(int, int, Seq<char>)> {
    if col >= row.len() || row.len() == 0 {
        None
    } else {
        let c = back_over_wide(row, col);
        match row[c].hyperlink {
            Some(url) => Some((link_start(row, url, c), wide_end(row, link_end(row, url, c)), url)),
            None => if !plain || spec_is_break(row[c]) {
                None
            } else {
                let s = trim_leading(row, word_start(row, c), word_end(row, c));
                let e = trim_trailing(row, s, word_end(row, c));
                if s > e {
                    None
                } else {
                    let token = cells_text(row.subrange(s, e + 1));
                    if spec_looks_like_url(token) {
                        Some((s, e, token))
                    } else {
                        None
                    }
                }
            },
        }
    }
}

fn same_link(cell: &Cell, url: &String) -> (r: bool)
    ensures
        r == (cell@.hyperlink == Some(url@)),
{
    match &cell.hyperlink {
        Some(h) => *h == *url,
        None => false,
    }
}

/// Finds the link under column `col` of `row`.
pub fn link_span_in_row_at_col(row: &Vec<Cell>, col: usize, allow_plaintext_links: bool) -> (r: Option<
    (usize, usize, String),
>)
    ensures
        match spec_link_span(row_cells(*row), col as int, allow_plaintext_links) {
            Some(t) => r matches Some((a, b, u)) && a == t.0 && b == t.1 && u@ == t.2,
            None => r is None,
        },
{
    let ghost cells = row_cells(*row);
    let n = row.len();
    if col >= n || n == 0 {
        return None;
    }
    let mut c = col;
    while c > 0 && row[c].wide_continuation
        invariant
            c <= col < n,
            n == row@.len(),
            cells == row_cells(*row),
            back_over_wide(cells, c as int) == back_over_wide(cells, col as int),
        decreases c,
    {
        assert(cells[c as int] == row@[c as int]@);
        c = c - 1;
    }
    assert(cells[c as int] == row@[c as int]@);
    match &row[c].hyperlink {
        Some(url) => {
            let mut start = c;
            while start > 0 && same_link(&row[start - 1], url)
                invariant
                    start <= c < n,
                    n == row@.len(),
                    cells == row_cells(*row),
                    link_start(cells, url@, start as int) == link_start(cells, url@, c as int),
                decreases start,
            {
                assert(cells[start - 1] == row@[start - 1]@);
                start = start - 1;
            }
            assert(start > 0 ==> cells[start - 1] == row@[start - 1]@);
            let mut end = c;
            while end + 1 < n && same_link(&row[end + 1], url)
                invariant
                    c <= end < n,
                    n == row@.len(),
                    cells == row_cells(*row),
                    link_end(cells, url@, end as int) == link_end(cells, url@, c as int),
                decreases n - end,
            {
                assert(cells[end + 1] == row@[end + 1]@);
                end = end + 1;
            }
            assert(end + 1 < n ==> cells[end + 1] == row@[end + 1]@);
            let ghost le = end as int;
            while end + 1 < n && row[end + 1].wide_continuation
                invariant
                    le <= end < n,
                    n == row@.len(),
                    cells == row_cells(*row),
                    wide_end(cells, end as int) == wide_end(cells, le),
                decreases n - end,
            {
                assert(cells[end + 1] == row@[end + 1]@);
                end = end + 1;
            }
            assert(end + 1 < n ==> cells[end + 1] == row@[end + 1]@);
            Some((start, end, url.clone()))
        },
        None => {
            if !allow_plaintext_links || is_link_break_cell(&row[c]) {
                return None;
            }
            plain_link_span(row, c)
        },
    }
}

fn plain_link_span(row: &Vec<Cell>, c: usize) -> (r: Option<(usize, usize, String)>)
    requires
        c < row@.len(),
        !spec_is_break(row_cells(*row)[c as int]),
    ensures
        ({
            let cells = row_cells(*row);
            let s = trim_leading(cells, word_start(cells, c as int), word_end(cells, c as int));
            let e = trim_trailing(cells, s, word_end(cells, c as int));
            if s > e {
                r is None
            } else if spec_looks_like_url(cells_text(cells.subrange(s, e + 1))) {
                r matches Some((a, b, u)) && a == s && b == e && u@ == cells_text(cells.subrange(s, e + 1))
            } else {
                r is None
            }
        }),
{
    let ghost cells = row_cells(*row);
    let n = row.len();
    let mut start = c;
    while start > 0 && !is_link_break_cell(&row[start - 1])
        invariant
            start <= c < n,
            n == row@.len(),
            cells == row_cells(*row),
            word_start(cells, start as int) == word_start(cells, c as int),
        decreases start,
    {
        assert(cells[start - 1] == row@[start - 1]@);
        start = start - 1;
    }
    assert(start > 0 ==> cells[start - 1] == row@[start - 1]@);
    let mut end = c;
    while end + 1 < n && !is_link_break_cell(&row[end + 1])
        invariant
            c <= end < n,
            n == row@.len(),
            cells == row_cells(*row),
            word_end(cells, end as int) == word_end(cells, c as int),
        decreases n - end,
    {
        assert(cells[end + 1] == row@[end + 1]@);
        end = end + 1;
    }
    assert(end + 1 < n ==> cells[end + 1] == row@[end + 1]@);
    let ghost we = end as int;
    while start <= end && is_leading_trim_char(cell_head_char(&row[start]))
        invariant
            start <= end + 1,
            end == we,
            we < n,
            n == row@.len(),
            cells == row_cells(*row),
            trim_leading(cells, start as int, we) == trim_leading(cells, word_start(cells, c as int), we),
        decreases end + 1 - start,
    {
        assert(cells[start as int] == row@[start as int]@);
        start = start + 1;
    }
    assert(start <= end ==> cells[start as int] == row@[start as int]@);
    assert(trim_leading(cells, start as int, we) == start as int);
    let ghost s = start as int;
    while end >= start && is_trailing_trim_char(cell_head_char(&row[end]))
        invariant
            end <= we,
            we < n,
            start == s,
            n == row@.len(),
            cells == row_cells(*row),
            trim_trailing(cells, s, end as int) == trim_trailing(cells, s, we),
        ensures
            end <= we,
            start == s,
            trim_trailing(cells, s, end as int) == trim_trailing(cells, s, we),
            trim_trailing(cells, s, end as int) == end as int,
        decreases end,
    {
        assert(cells[end as int] == row@[end as int]@);
        if end == 0 {
            break;
        }
        end = end - 1;
    }
    proof {
        if end >= start {
            assert(cells[end as int] == row@[end as int]@);
        }
    }
    if start > end {
        return None;
    }
    let mut text: Vec<char> = Vec::new();
    let mut i = start;
    assert(cells.subrange(s, s) =~= Seq::<CellView>::empty());
    while i <= end
        invariant
            start <= i <= end + 1,
            end < n,
            n == row@.len(),
            cells == row_cells(*row),
            text@ == cells_text(cells.subrange(start as int, i as int)),
        decreases end + 1 - i,
    {
        let piece = chars_of(row[i].display_text());
        let ghost before = text@;
        let mut k: usize = 0;
        while k < piece.len()
            invariant
                k <= piece@.len(),
                text@ == before + piece@.subrange(0, k as int),
            decreases piece@.len() - k,
        {
            text.push(piece[k]);
            k = k + 1;
            assert(text@ =~= before + piece@.subrange(0, k as int));
        }
        assert(piece@.subrange(0, k as int) =~= piece@);
        assert(cells.subrange(start as int, i + 1).drop_last() =~= cells.subrange(start as int, i as int));
        assert(cells[i as int] == row@[i as int]@);
        i = i + 1;
    }
    let token = string_from_chars(text.as_slice());
    if !looks_like_url(token.as_str()) {
        return None;
    }
    Some((start, end, token))
}

proof fn lemma_back_over_wide_bounds(row: Seq<CellView>, col: int)
    requires
        col >= 0,
    ensures
        0 <= back_over_wide(row, col) <= col,
    decreases col,
{
    if col > 0 && row[col].wide_continuation {
        lemma_back_over_wide_bounds(row, col - 1);
    }
}

proof fn lemma_link_start_bounds(row: Seq<CellView>, url: Seq<char>, s: int)
    requires
        s >= 0,
    ensures
        0 <= link_start(row, url, s) <= s,
    decreases s,
{
    if s > 0 && row[s - 1].hyperlink == Some(url) {
        lemma_link_start_bounds(row, url, s - 1);
    }
}

proof fn lemma_link_end_bounds(row: Seq<CellView>, url: Seq<char>, e: int)
    requires
        e < row.len(),
    ensures
        e <= link_end(row, url, e) < row.len(),
    decreases row.len() - e,
{
    if e + 1 < row.len() && row[e + 1].hyperlink == Some(url) {
        lemma_link_end_bounds(row, url, e + 1);
    }
}

proof fn lemma_wide_end_bounds(row: Seq<CellView>, e: int)
    requires
        e < row.len(),
    ensures
        e <= wide_end(row, e) < row.len(),
    decreases row.len() - e,
{
    if e + 1 < row.len() && row[e + 1].wide_continuation {
        lemma_wide_end_bounds(row, e + 1);
    }
}

proof fn lemma_word_bounds(row: Seq<CellView>, c: int)
    requires
        0 <= c < row.len(),
    ensures
        0 <= word_start(row, c) <= c,
        c <= word_end(row, c) < row.len(),
    decreases row.len() - c,
{
    lemma_word_start_bounds(row, c);
    if c + 1 < row.len() && !spec_is_break(row[c + 1]) {
        lemma_word_bounds(row, c + 1);
    }
}

proof fn lemma_word_start_bounds(row: Seq<CellView>, s: int)
    requires
        s >= 0,
    ensures
        0 <= word_start(row, s) <= s,
    decreases s,
{
    if s > 0 && !spec_is_break(row[s - 1]) {
        lemma_word_start_bounds(row, s - 1);
    }
}

proof fn lemma_trim_bounds(row: Seq<CellView>, s: int, e: int)
    ensures
        s <= trim_leading(row, s, e),
        trim_trailing(row, s, e) <= e,
    decreases e + 1 - s,
{
    lemma_trim_trailing_bound(row, s, e);
    if s <= e && spec_leading_trim(spec_head_char(row[s])) {
        lemma_trim_bounds(row, s + 1, e);
    }
}

proof fn lemma_trim_trailing_bound(row: Seq<CellView>, s: int, e: int)
    ensures
        trim_trailing(row, s, e) <= e,
    decreases e,
{
    if e >= s && e > 0 && spec_trailing_trim(spec_head_char(row[e])) {
        lemma_trim_trailing_bound(row, s, e - 1);
    }
}

/// Law: past the end of the row there is no link. A link that is found
/// lies inside the row, first column not after the last. Where the cell
/// under the column (moved left off the trailing halves of wide
/// characters) carries a hyperlink, that hyperlink is found, over a span
/// that covers the cell. Otherwise there is no link unless plain-text links
/// are allowed, and then the text of the span found reads as a URL and is
/// what the URL is.
pub proof fn law_link_span(row: Seq<CellView>, col: nat, plain: bool)
    ensures
        col >= row.len() ==> spec_link_span(row, col as int, plain) is None,
        spec_link_span(row, col as int, plain) matches Some((s, e, u)) ==> 0 <= s <= e < row.len(),
        col < row.len() ==> (row[back_over_wide(row, col as int)].hyperlink matches Some(h) ==> (
        spec_link_span(row, col as int, plain) matches Some((s, e, u)) && u == h && s <= back_over_wide(
            row,
            col as int,
        ) <= e)),
        col < row.len() && row[back_over_wide(row, col as int)].hyperlink is None ==> (!plain
            ==> spec_link_span(row, col as int, plain) is None) && (spec_link_span(
            row,
            col as int,
            plain,
        ) matches Some((s, e, u)) ==> spec_looks_like_url(u) && u == cells_text(row.subrange(s, e + 1))),
{
    if col < row.len() {
        let c = back_over_wide(row, col as int);
        lemma_back_over_wide_bounds(row, col as int);
        match row[c].hyperlink {
            Some(url) => {
                lemma_link_start_bounds(row, url, c);
                lemma_link_end_bounds(row, url, c);
                lemma_wide_end_bounds(row, link_end(row, url, c));
            },
            None => {
                lemma_word_bounds(row, c);
                let ws = word_start(row, c);
                let we = word_end(row, c);
                lemma_trim_bounds(row, ws, we);
                let s = trim_leading(row, ws, we);
                lemma_trim_bounds(row, s, we);
            },
        }
    }
}

/// Law: a token reads as a URL, once trimmed, when it is `localhost`, or
/// `localhost/` or `localhost:` followed by anything (a path or a port),
/// when it starts with `www.`, or when `://` occurs in it.
pub proof fn law_url_forms(token: Seq<char>, q: Seq<char>, p: Seq<char>)
    ensures
        spec_trim(token) == seq!['l', 'o', 'c', 'a', 'l', 'h', 'o', 's', 't'] ==> spec_looks_like_url(token),
        spec_trim(token) == seq!['l', 'o', 'c', 'a', 'l', 'h', 'o', 's', 't', '/'] + p ==> spec_looks_like_url(token),
        spec_trim(token) == seq!['l', 'o', 'c', 'a', 'l', 'h', 'o', 's', 't', ':'] + p ==> spec_looks_like_url(token),
        spec_trim(token) == seq!['w', 'w', 'w', '.'] + p ==> spec_looks_like_url(token),
        spec_trim(token) == q + seq![':', '/', '/'] + p ==> spec_looks_like_url(token),
{
    let t = spec_trim(token);
    let l = seq!['l', 'o', 'c', 'a', 'l', 'h', 'o', 's', 't'];
    if t == seq!['l', 'o', 'c', 'a', 'l', 'h', 'o', 's', 't', '/'] + p {
        assert(t.subrange(0, 9) =~= localhost());
        assert(t.subrange(0, 10) =~= localhost().push('/'));
    }
    if t == seq!['l', 'o', 'c', 'a', 'l', 'h', 'o', 's', 't', ':'] + p {
        assert(t.subrange(0, 9) =~= localhost());
        assert(t.subrange(0, 10) =~= localhost().push(':'));
    }
    if t == l {
        assert(t =~= localhost());
        assert(t.subrange(0, 9) =~= localhost());
    }
    if t == seq!['w', 'w', 'w', '.'] + p {
        assert(t.subrange(0, 4) =~= www_prefix());
    }
    if t == q + seq![':', '/', '/'] + p {
        assert(t.subrange(q.len() as int, q.len() + 3int) =~= scheme_sep());
        assert(has_substring(t, scheme_sep()));
    }
}

/// Looking for `c` from `i` in `h + [c] + p`, where `h` holds no `c` from
/// `i` on, finds the one after `h`.
proof fn lemma_find_char_after(h: Seq<char>, c: char, p: Seq<char>, i: int)
    requires
        0 <= i <= h.len(),
        forall|j: int| i <= j < h.len() ==> h[j] != c,
    ensures
        find_char(h + seq![c] + p, c, i) == Some(h.len() as int),
    decreases h.len() - i,
{
    if i < h.len() {
        lemma_find_char_after(h, c, p, i + 1);
    }
}

/// What looking for `c` from `i` finds lies in the text, not before `i`.
proof fn lemma_find_char_bound(t: Seq<char>, c: char, i: int)
    ensures
        find_char(t, c, i) matches Some(q) ==> i <= q < t.len() && t[q] == c,
    decreases t.len() - i,
{
    if 0 <= i < t.len() && t[i] != c {
        lemma_find_char_bound(t, c, i + 1);
    }
}

/// Looking for `c` from `i` in a text with no `c` from `i` on finds none.
proof fn lemma_find_char_none(t: Seq<char>, c: char, i: int)
    requires
        0 <= i,
        forall|j: int| i <= j < t.len() ==> t[j] != c,
    ensures
        find_char(t, c, i) is None,
    decreases t.len() - i,
{
    if i < t.len() {
        lemma_find_char_none(t, c, i + 1);
    }
}

/// Law: a token whose host part (before any `/`) is an IP address, made
/// of digits, dots and colons with at least one digit and one dot, reads
/// as a URL, with or without a path. A token with neither a dot nor a
/// colon in it, and not `localhost` with a port or path, is no URL.
pub proof fn law_url_hosts(token: Seq<char>, h: Seq<char>, p: Seq<char>)
    ensures
        ({
            let host_ok = (forall|j: int| 0 <= j < h.len() ==> ('0' <= #[trigger] h[j] <= '9' || h[j] == '.' || h[j]
                == ':')) && (exists|j: int| 0 <= j < h.len() && '0' <= #[trigger] h[j] <= '9') && h.contains('.');
            &&& host_ok && (spec_trim(token) == h || spec_trim(token) == h + seq!['/'] + p) ==> spec_looks_like_url(token)
            &&& (forall|j: int| 0 <= j < spec_trim(token).len() ==> #[trigger] spec_trim(token)[j] != '.' && spec_trim(token)[j] != ':')
                && !starts_with(spec_trim(token), seq!['l', 'o', 'c', 'a', 'l', 'h', 'o', 's', 't'])
                ==> !spec_looks_like_url(token)
        }),
{
    let t = spec_trim(token);
    let host_ok = (forall|j: int| 0 <= j < h.len() ==> ('0' <= #[trigger] h[j] <= '9' || h[j] == '.' || h[j]
        == ':')) && (exists|j: int| 0 <= j < h.len() && '0' <= #[trigger] h[j] <= '9') && h.contains('.');
    if host_ok {
        let k = choose|j: int| 0 <= j < h.len() && h[j] == '.';
        if t == h {
            lemma_find_char_none(h, '/', 0);
            assert(before_slash(t) == h);
        } else if t == h + seq!['/'] + p {
            lemma_find_char_after(h, '/', p, 0);
            assert(before_slash(t) =~= h);
        }
        if t == h || t == h + seq!['/'] + p {
            assert(t[k] == '.');
            if starts_with(t, www_prefix()) {
                assert(t[0] == 'w');
                assert(h[0] == 'w');
            }
            if starts_with(t, localhost()) {
                assert(t[0] == 'l');
                assert(h[0] == 'l');
            }
        }
    }
    if (forall|j: int| 0 <= j < t.len() ==> #[trigger] t[j] != '.' && t[j] != ':') && !starts_with(t, localhost()) {
        if has_substring(t, scheme_sep()) {
            let i = choose|i: int| 0 <= i <= t.len() - scheme_sep().len() && #[trigger] t.subrange(i, i + scheme_sep().len()) == scheme_sep();
            assert(t.subrange(i, i + 3)[0] == ':');
            assert(t[i] == ':');
        }
        if starts_with(t, www_prefix()) {
            assert(t.subrange(0, 4)[3] == '.');
            assert(t[3] == '.');
        }
        let bs = before_slash(t);
        if bs.contains('.') {
            let i = choose|i: int| 0 <= i < bs.len() && bs[i] == '.';
            match find_char(t, '/', 0) {
                Some(q) => {
                    lemma_find_char_bound(t, '/', 0);
                    assert(bs[i] == t[i]);
                },
                None => {},
            }
        }
    }
}

} // verus!

verus! {

/// Law: a URL made ready for opening is left alone when made ready again.
pub proof fn law_normalize_url_idempotent(url: Seq<char>)
    ensures
        spec_normalize_url(spec_normalize_url(url)) == spec_normalize_url(url),
{
    let n = spec_normalize_url(url);
    if !has_substring(url, scheme_sep()) && n != url {
        assert(n.subrange(4, 4 + scheme_sep().len() as int) =~= scheme_sep());
        assert(has_substring(n, scheme_sep()));
    }
}

} // verus!
