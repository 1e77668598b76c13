use vstd::prelude::*;
use vstd::utf8::encode_utf8;

use crate::cell::{Cell, CellView};
use crate::color::{spec_rgb, Color};
use crate::performer::strings_view;
use crate::text::{
    char_to_string, chars_of, is_whitespace, push_bytes, spec_is_whitespace, spec_trim, spec_trim_end,
    string_from_chars, trim_whitespace,
};

verus! {

/// At most this many completions are offered for one prefix.
pub const MAX_HISTORY_MATCHES: usize = 200;

/// At most this many recent commands are kept.
pub const HISTORY_CACHE_LIMIT: usize = 1000;

/// Color of the completion preview drawn after the cursor.
pub open spec fn preview_fg() -> Color {
    spec_rgb(120, 126, 138)
}

/// Where cycling through history completions stands.
pub struct HistoryCompletionState {
    /// What the user typed before cycling started.
    pub prefix: String,
    /// The completions offered, most recent first.
    pub matches: Vec<String>,
    /// The completion now shown.
    pub index: usize,
}

/// Whether `s` begins with `p`.
pub open spec fn starts_with(s: Seq<char>, p: Seq<char>) -> bool {
    p.len() <= s.len() && s.subrange(0, p.len() as int) == p
}

/// `s` in reverse order.
pub open spec fn reversed<T>(s: Seq<T>) -> Seq<T> {
    Seq::new(s.len(), |i: int| s[s.len() - 1 - i])
}

/// The commands searched for completions: the live history newest first,
/// then the history files newest first.
pub open spec fn candidates(live: Seq<Seq<char>>, file: Seq<Seq<char>>) -> Seq<Seq<char>> {
    reversed(live) + reversed(file)
}

/// Completions of `prefix` among `cands`, appended to `acc`: each command
/// that extends the prefix, once, until there are `MAX_HISTORY_MATCHES`.
pub open spec fn collect_matches(cands: Seq<Seq<char>>, prefix: Seq<char>, acc: Seq<Seq<char>>) -> Seq<
    Seq<char>,
>
    decreases cands.len(),
{
    if cands.len() == 0 || acc.len() >= MAX_HISTORY_MATCHES {
        acc
    } else {
        let c = cands[0];
        let acc2 = if c == prefix || !starts_with(c, prefix) || acc.contains(c) {
            acc
        } else {
            acc.push(c)
        };
        collect_matches(cands.drop_first(), prefix, acc2)
    }
}

/// The completions offered for `prefix` (none for a blank prefix).
pub open spec fn spec_history_matches(prefix: Seq<char>, live: Seq<Seq<char>>, file: Seq<Seq<char>>) -> Seq<
    Seq<char>,
> {
    if spec_trim(prefix).len() == 0 {
        Seq::empty()
    } else {
        collect_matches(candidates(live, file), prefix, Seq::empty())
    }
}

/// `h` with each of `cmds` appended unless it repeats the last command.
pub open spec fn push_dedup(h: Seq<Seq<char>>, cmds: Seq<Seq<char>>) -> Seq<Seq<char>>
    decreases cmds.len(),
{
    if cmds.len() == 0 {
        h
    } else {
        let h2 = if h.len() > 0 && h.last() == cmds[0] {
            h
        } else {
            h.push(cmds[0])
        };
        push_dedup(h2, cmds.drop_first())
    }
}

/// The last `n` entries of `h`.
pub open spec fn keep_last<T>(h: Seq<T>, n: nat) -> Seq<T> {
    if h.len() > n {
        h.subrange(h.len() - n, h.len() as int)
    } else {
        h
    }
}

/// No two neighbouring entries of `h` are equal.
pub open spec fn no_adjacent_duplicates(h: Seq<Seq<char>>) -> bool {
    forall|i: int| 0 <= i < h.len() - 1 ==> #[trigger] h[i] != h[i + 1]
}

/// The index of the first `c` in `s` at or after `i`.
pub open spec fn find_char(s: Seq<char>, c: char, i: int) -> Option<int>
    decreases s.len() - i,
{
    if i < 0 || i >= s.len() {
        None
    } else if s[i] == c {
        Some(i)
    } else {
        find_char(s, c, i + 1)
    }
}

/// The command on one line of a shell history file: zsh's extended
/// format `: <time>:<duration>;<command>` or a plain command, trimmed; none
/// when blank (or when an extended line has no `;`).
pub open spec fn spec_parse_history_line(line: Seq<char>) -> Option<Seq<char>> {
    let cmd = if line.len() >= 2 && line[0] == ':' && line[1] == ' ' {
        match find_char(line, ';', 0) {
            Some(i) => Some(line.subrange(i + 1, line.len() as int)),
            None => None,
        }
    } else {
        Some(line)
    };
    match cmd {
        Some(c) => if spec_trim(c).len() == 0 {
            None
        } else {
            Some(spec_trim(c))
        },
        None => None,
    }
}

/// `s` without its last word: trailing white space dropped, then the
/// characters back to the previous white space.
pub open spec fn drop_last_word(s: Seq<char>) -> Seq<char>
    decreases s.len(),
{
    if s.len() > 0 && !spec_is_whitespace(s.last()) {
        drop_last_word(s.drop_last())
    } else {
        s
    }
}

/// The characters `v[from..to]`.
pub fn slice_chars(v: &Vec<char>, from: usize, to: usize) -> (r: Vec<char>)
    requires
        from <= to <= v@.len(),
    ensures
        r@ == v@.subrange(from as int, to as int),
{
    let mut r: Vec<char> = Vec::new();
    let mut i = from;
    while i < to
        invariant
            from <= i <= to <= v@.len(),
            r@ == v@.subrange(from as int, i as int),
        decreases to - i,
    {
        r.push(v[i]);
        i = i + 1;
        assert(r@ =~= v@.subrange(from as int, i as int));
    }
    r
}

/// Parses one line of a shell history file.
pub fn parse_history_line(line: &str) -> (r: Option<String>)
    ensures
        match spec_parse_history_line(line@) {
            Some(c) => r is Some && r->0@ == c,
            None => r is None,
        },
{
    let v = chars_of(line);
    let mut start: usize = 0;
    if v.len() >= 2 && v[0] == ':' && v[1] == ' ' {
        let mut i: usize = 0;
        while i < v.len() && v[i] != ';'
            invariant
                i <= v@.len(),
                find_char(v@, ';', 0) == find_char(v@, ';', i as int),
            decreases v@.len() - i,
        {
            i = i + 1;
        }
        if i == v.len() {
            return None;
        }
        start = i + 1;
    }
    let sub = slice_chars(&v, start, v.len());
    assert(start == 0 ==> sub@ =~= v@);
    let (from, to) = trim_whitespace(&sub);
    if from == to {
        return None;
    }
    let t = slice_chars(&sub, from, to);
    Some(string_from_chars(t.as_slice()))
}

/// The bytes that replace the shell's line with `command`: Ctrl-U, which
/// clears the line being edited, then the command.
pub fn replace_shell_line_bytes(command: &str) -> (r: Vec<u8>)
    ensures
        r@ == seq![0x15u8] + encode_utf8(command@),
{
    let mut bytes: Vec<u8> = Vec::new();
    bytes.push(0x15);
    push_bytes(&mut bytes, command.as_bytes());
    bytes
}

/// Removes the last word of `line`, as Ctrl-W does in a shell.
pub fn trim_last_word(line: &mut String)
    ensures
        final(line)@ == drop_last_word(spec_trim_end(old(line)@)),
{
    let v = chars_of(line.as_str());
    let mut end = v.len();
    assert(spec_trim_end(v@) == spec_trim_end(v@.subrange(0, end as int))) by {
        assert(v@.subrange(0, end as int) =~= v@);
    }
    while end > 0 && is_whitespace(v[end - 1])
        invariant
            end <= v@.len(),
            spec_trim_end(v@) == spec_trim_end(v@.subrange(0, end as int)),
        decreases end,
    {
        assert(v@.subrange(0, end as int).drop_last() =~= v@.subrange(0, end - 1));
        end = end - 1;
    }
    let ghost t = v@.subrange(0, end as int);
    assert(spec_trim_end(t) == t);
    while end > 0 && !is_whitespace(v[end - 1])
        invariant
            end <= t.len(),
            t == spec_trim_end(v@),
            t.len() <= v@.len(),
            t == v@.subrange(0, t.len() as int),
            drop_last_word(t) == drop_last_word(v@.subrange(0, end as int)),
        decreases end,
    {
        assert(v@.subrange(0, end as int).drop_last() =~= v@.subrange(0, end - 1));
        end = end - 1;
    }
    let r = slice_chars(&v, 0, end);
    *line = string_from_chars(r.as_slice());
}

/// Appends `commands` to `history`, skipping each one that repeats the
/// command before it, and keeps the newest `HISTORY_CACHE_LIMIT` entries.
pub fn append_history_commands(history: &mut Vec<String>, commands: Vec<String>)
    ensures
        strings_view(final(history)@) == keep_last(
            push_dedup(strings_view(old(history)@), strings_view(commands@)),
            HISTORY_CACHE_LIMIT as nat,
        ),
{
    let ghost h0 = strings_view(history@);
    let ghost cs = strings_view(commands@);
    let mut i: usize = 0;
    assert(cs.skip(0) =~= cs);
    while i < commands.len()
        invariant
            i <= commands@.len(),
            cs == strings_view(commands@),
            push_dedup(strings_view(history@), cs.skip(i as int)) == push_dedup(h0, cs),
        decreases commands@.len() - i,
    {
        let ghost hb = strings_view(history@);
        assert(cs.skip(i as int).drop_first() =~= cs.skip(i + 1));
        assert(cs.skip(i as int)[0] == commands@[i as int]@);
        let n = history.len();
        let repeat = n > 0 && history[n - 1] == commands[i];
        if !repeat {
            history.push(commands[i].clone());
            assert(strings_view(history@) =~= hb.push(commands@[i as int]@));
        } else {
            assert(hb.last() == history@[n - 1]@);
        }
        i = i + 1;
    }
    assert(cs.skip(i as int) =~= Seq::<Seq<char>>::empty());
    if history.len() > HISTORY_CACHE_LIMIT {
        let ghost full = strings_view(history@);
        let drop = history.len() - HISTORY_CACHE_LIMIT;
        let mut kept: Vec<String> = Vec::new();
        let mut k = drop;
        while k < history.len()
            invariant
                drop <= k <= history@.len(),
                full == strings_view(history@),
                strings_view(kept@) == full.subrange(drop as int, k as int),
            decreases history@.len() - k,
        {
            let ghost before = strings_view(kept@);
            let item = history[k].clone();
            assert(item@ == full[k as int]);
            kept.push(item);
            assert(strings_view(kept@) =~= before.push(full[k as int]));
            k = k + 1;
            assert(strings_view(kept@) =~= full.subrange(drop as int, k as int));
        }
        *history = kept;
    }
}

/// The completions offered for `prefix`: commands from the live history
/// (newest first) and then the history files (newest first) that extend
/// it, each once, at most `MAX_HISTORY_MATCHES`; none for a blank prefix.
pub fn history_matches_for_prefix(prefix: &str, live_history: &[String], file_history: &[String]) -> (r: Vec<
    String,
>)
    ensures
        strings_view(r@) == spec_history_matches(prefix@, strings_view(live_history@), strings_view(file_history@)),
{
    let p = chars_of(prefix);
    let (from, to) = trim_whitespace(&p);
    if from == to {
        return Vec::new();
    }
    let ghost live = strings_view(live_history@);
    let ghost file = strings_view(file_history@);
    let ghost cands = candidates(live, file);
    let nl = live_history.len();
    let nf = file_history.len();
    let mut matches: Vec<String> = Vec::new();
    assert(cands.skip(0) =~= cands);
    assert(strings_view(matches@) =~= Seq::<Seq<char>>::empty());
    let mut k: usize = 0;
    while k < nl
        invariant
            nl == live_history@.len(),
            live == strings_view(live_history@),
            file == strings_view(file_history@),
            cands == candidates(live, file),
            p@ == prefix@,
            k <= nl,
            collect_matches(cands.skip(k as int), prefix@, strings_view(matches@)) == collect_matches(
                cands,
                prefix@,
                Seq::empty(),
            ),
        ensures
            k == nl || matches@.len() >= MAX_HISTORY_MATCHES,
            k <= nl,
            collect_matches(cands.skip(k as int), prefix@, strings_view(matches@)) == collect_matches(
                cands,
                prefix@,
                Seq::empty(),
            ),
        decreases nl - k,
    {
        if matches.len() >= MAX_HISTORY_MATCHES {
            break;
        }
        let cmd: &String = &live_history[nl - 1 - k];
        assert(cands[k as int] == cmd@);
        assert(cands.skip(k as int).drop_first() =~= cands.skip(k + 1));
        assert(cands.skip(k as int)[0] == cmd@);
        consider_match(&mut matches, cmd, &p);
        k = k + 1;
    }
    let mut j: usize = 0;
    if matches.len() < MAX_HISTORY_MATCHES {
        assert(k == nl);
        while j < nf
            invariant
                nl == live_history@.len(),
                nf == file_history@.len(),
                live == strings_view(live_history@),
                file == strings_view(file_history@),
                cands == candidates(live, file),
                p@ == prefix@,
                j <= nf,
                collect_matches(cands.skip(nl + j), prefix@, strings_view(matches@)) == collect_matches(
                    cands,
                    prefix@,
                    Seq::empty(),
                ),
            ensures
                j == nf || matches@.len() >= MAX_HISTORY_MATCHES,
                j <= nf,
                collect_matches(cands.skip(nl + j), prefix@, strings_view(matches@)) == collect_matches(
                    cands,
                    prefix@,
                    Seq::empty(),
                ),
            decreases nf - j,
        {
            if matches.len() >= MAX_HISTORY_MATCHES {
                break;
            }
            let cmd: &String = &file_history[nf - 1 - j];
            assert(cands[nl + j] == cmd@);
            assert(cands.skip(nl + j).drop_first() =~= cands.skip(nl + j + 1));
            assert(cands.skip(nl + j)[0] == cmd@);
            consider_match(&mut matches, cmd, &p);
            j = j + 1;
        }
    }
    proof {
        let acc = strings_view(matches@);
        if acc.len() < MAX_HISTORY_MATCHES {
            assert(k == nl && j == nf);
            assert(cands.skip(nl + j) =~= Seq::<Seq<char>>::empty());
            assert(collect_matches(cands.skip(nl + j), prefix@, acc) == acc);
        } else if k == nl {
            assert(collect_matches(cands.skip(nl + j), prefix@, acc) == acc);
        } else {
            assert(collect_matches(cands.skip(k as int), prefix@, acc) == acc);
        }
    }
    matches
}

/// Adds `cmd` to the completions when it extends `p`, differs from it and
/// is not there yet.
fn consider_match(matches: &mut Vec<String>, cmd: &String, p: &Vec<char>)
    ensures
        strings_view(final(matches)@) == (if cmd@ == p@ || !starts_with(cmd@, p@) || strings_view(
            old(matches)@,
        ).contains(cmd@) {
            strings_view(old(matches)@)
        } else {
            strings_view(old(matches)@).push(cmd@)
        }),
{
    let keep = !(chars_equal_str(cmd, p) || !string_starts_with(cmd, p) || contains_string(matches, cmd));
    if keep {
        let ghost acc = strings_view(matches@);
        let c = cmd.clone();
        matches.push(c);
        assert(strings_view(matches@) =~= acc.push(cmd@));
    }
}

/// Whether `s` spells exactly `p`.
fn chars_equal_str(s: &String, p: &Vec<char>) -> (r: bool)
    ensures
        r == (s@ == p@),
{
    let v = chars_of(s.as_str());
    if v.len() != p.len() {
        return false;
    }
    let mut i: usize = 0;
    while i < v.len()
        invariant
            i <= v@.len(),
            v@.len() == p@.len(),
            v@ == s@,
            forall|j: int| 0 <= j < i ==> v@[j] == p@[j],
        decreases v@.len() - i,
    {
        if v[i] != p[i] {
            return false;
        }
        i = i + 1;
    }
    assert(v@ =~= p@);
    true
}

/// Whether `s` begins with the characters `p`.
fn string_starts_with(s: &String, p: &Vec<char>) -> (r: bool)
    ensures
        r == starts_with(s@, p@),
{
    let v = chars_of(s.as_str());
    if p.len() > v.len() {
        return false;
    }
    let mut i: usize = 0;
    while i < p.len()
        invariant
            i <= p@.len() <= v@.len(),
            v@ == s@,
            forall|j: int| 0 <= j < i ==> v@[j] == p@[j],
        decreases p@.len() - i,
    {
        if v[i] != p[i] {
            return false;
        }
        i = i + 1;
    }
    assert(v@.subrange(0, p@.len() as int) =~= p@);
    true
}

/// Whether `list` holds a string equal to `s`.
fn contains_string(list: &Vec<String>, s: &String) -> (r: bool)
    ensures
        r == strings_view(list@).contains(s@),
{
    let mut i: usize = 0;
    while i < list.len()
        invariant
            i <= list@.len(),
            forall|j: int| 0 <= j < i ==> list@[j]@ != s@,
        decreases list@.len() - i,
    {
        if list[i] == *s {
            assert(strings_view(list@)[i as int] == s@);
            return true;
        }
        i = i + 1;
    }
    assert forall|j: int| 0 <= j < strings_view(list@).len() implies strings_view(list@)[j] != s@ by {
        assert(strings_view(list@)[j] == list@[j]@);
    }
    false
}

/// The first completion offered for `prefix`, if any.
pub fn first_history_match(prefix: &str, live_history: &[String], file_history: &[String]) -> (r: Option<
    String,
>)
    ensures
        ({
            let m = spec_history_matches(prefix@, strings_view(live_history@), strings_view(file_history@));
            if m.len() == 0 {
                r is None
            } else {
                r is Some && r->0@ == m[0]
            }
        }),
{
    let mut m = history_matches_for_prefix(prefix, live_history, file_history);
    if m.len() == 0 {
        None
    } else {
        let first = m[0].clone();
        Some(first)
    }
}

/// What collecting completions keeps: the entries already there stay first,
/// each entry extends the prefix (and is not the prefix itself), comes from
/// the candidates or was there before, and occurs once; there are at most
/// `MAX_HISTORY_MATCHES`; and while there are fewer, every candidate that
/// extends the prefix is among them.
proof fn lemma_collect_matches(cands: Seq<Seq<char>>, prefix: Seq<char>, acc: Seq<Seq<char>>)
    requires
        acc.len() <= MAX_HISTORY_MATCHES,
        forall|i: int| 0 <= i < acc.len() ==> #[trigger] acc[i] != prefix && starts_with(acc[i], prefix),
        forall|i: int, j: int| 0 <= i < j < acc.len() ==> acc[i] != acc[j],
    ensures
        ({
            let r = collect_matches(cands, prefix, acc);
            &&& r.len() <= MAX_HISTORY_MATCHES
            &&& acc.len() <= r.len() && r.subrange(0, acc.len() as int) == acc
            &&& forall|i: int| 0 <= i < r.len() ==> #[trigger] r[i] != prefix && starts_with(r[i], prefix)
                && (acc.contains(r[i]) || cands.contains(r[i]))
            &&& forall|i: int, j: int| 0 <= i < j < r.len() ==> r[i] != r[j]
            &&& r.len() < MAX_HISTORY_MATCHES ==> forall|k: int| 0 <= k < cands.len() && cands[k]
                != prefix && starts_with(cands[k], prefix) ==> r.contains(#[trigger] cands[k])
        }),
    decreases cands.len(),
{
    let r = collect_matches(cands, prefix, acc);
    if cands.len() == 0 || acc.len() >= MAX_HISTORY_MATCHES {
        assert(r.subrange(0, acc.len() as int) =~= acc);
    } else {
        let c = cands[0];
        let rest = cands.drop_first();
        let acc2 = if c == prefix || !starts_with(c, prefix) || acc.contains(c) {
            acc
        } else {
            acc.push(c)
        };
        if acc2 != acc {
            assert forall|i: int, j: int| 0 <= i < j < acc2.len() implies acc2[i] != acc2[j] by {
                if j == acc.len() {
                    assert(acc.contains(acc[i]));
                }
            }
            assert forall|i: int| 0 <= i < acc2.len() implies #[trigger] acc2[i] != prefix && starts_with(acc2[i], prefix) by {
                if i < acc.len() {
                    assert(acc2[i] == acc[i]);
                }
            }
        }
        lemma_collect_matches(rest, prefix, acc2);
        assert(r == collect_matches(rest, prefix, acc2));
        assert(r.subrange(0, acc.len() as int) =~= acc2.subrange(0, acc.len() as int));
        assert(acc2.subrange(0, acc.len() as int) =~= acc);
        assert forall|i: int| 0 <= i < r.len() implies #[trigger] r[i] != prefix && starts_with(r[i], prefix)
            && (acc.contains(r[i]) || cands.contains(r[i])) by {
            if acc2.contains(r[i]) {
                let j = choose|j: int| 0 <= j < acc2.len() && acc2[j] == r[i];
                if j < acc.len() {
                    assert(acc.contains(r[i]));
                } else {
                    assert(cands[0] == r[i]);
                    assert(cands.contains(r[i]));
                }
            } else {
                let j = choose|j: int| 0 <= j < rest.len() && rest[j] == r[i];
                assert(cands[j + 1] == r[i]);
                assert(cands.contains(r[i]));
            }
        }
        if r.len() < MAX_HISTORY_MATCHES {
            assert forall|k: int| 0 <= k < cands.len() && cands[k] != prefix && starts_with(cands[k], prefix)
                implies r.contains(#[trigger] cands[k]) by {
                if k == 0 {
                    let j = if acc2 == acc {
                        choose|j: int| 0 <= j < acc.len() && acc[j] == c
                    } else {
                        acc.len() as int
                    };
                    assert(acc2[j] == c);
                    assert(r[j] == acc2[j]);
                } else {
                    assert(rest[k - 1] == cands[k]);
                }
            }
        }
    }
}

/// Law: a blank prefix has no completions; otherwise the completions are
/// at most `MAX_HISTORY_MATCHES` distinct commands of the live or file
/// history, each a strict extension of the prefix; and when there are
/// fewer than that, every such command of either history is among them.
pub proof fn law_history_matches(prefix: Seq<char>, live: Seq<Seq<char>>, file: Seq<Seq<char>>)
    ensures
        spec_trim(prefix).len() == 0 ==> spec_history_matches(prefix, live, file).len() == 0,
        spec_history_matches(prefix, live, file).len() <= MAX_HISTORY_MATCHES,
        forall|i: int| 0 <= i < spec_history_matches(prefix, live, file).len() ==> {
            let c = #[trigger] spec_history_matches(prefix, live, file)[i];
            c != prefix && starts_with(c, prefix) && (live.contains(c) || file.contains(c))
        },
        forall|i: int, j: int| 0 <= i < j < spec_history_matches(prefix, live, file).len()
            ==> spec_history_matches(prefix, live, file)[i] != spec_history_matches(prefix, live, file)[j],
        spec_trim(prefix).len() > 0 && spec_history_matches(prefix, live, file).len() < MAX_HISTORY_MATCHES
            ==> forall|c: Seq<char>| (live.contains(c) || file.contains(c)) && c != prefix && starts_with(c, prefix)
            ==> #[trigger] spec_history_matches(prefix, live, file).contains(c),
{
    let cands = candidates(live, file);
    let r = spec_history_matches(prefix, live, file);
    if spec_trim(prefix).len() > 0 {
        lemma_collect_matches(cands, prefix, Seq::empty());
        assert forall|i: int| 0 <= i < r.len() implies ({
            let c = #[trigger] r[i];
            c != prefix && starts_with(c, prefix) && (live.contains(c) || file.contains(c))
        }) by {
            let c = r[i];
            assert(cands.contains(c));
            let k = choose|k: int| 0 <= k < cands.len() && cands[k] == c;
            if k < live.len() {
                assert(live[live.len() - 1 - k] == c);
            } else {
                assert(file[file.len() - 1 - (k - live.len())] == c);
            }
        }
        if r.len() < MAX_HISTORY_MATCHES {
            assert forall|c: Seq<char>| (live.contains(c) || file.contains(c)) && c != prefix && starts_with(c, prefix)
                implies #[trigger] r.contains(c) by {
                if live.contains(c) {
                    let j = choose|j: int| 0 <= j < live.len() && live[j] == c;
                    assert(cands[live.len() - 1 - j] == c);
                } else {
                    let j = choose|j: int| 0 <= j < file.len() && file[j] == c;
                    assert(cands[live.len() + file.len() - 1 - j] == c);
                }
            }
        }
    }
}

} // verus!

verus! {

/// The suffix that the first completion of `input` adds to it, shown greyed
/// after the cursor; none when there is no completion.
pub open spec fn spec_history_preview(input: Seq<char>, live: Seq<Seq<char>>, file: Seq<Seq<char>>) -> Option<
    Seq<char>,
> {
    let m = spec_history_matches(input, live, file);
    if m.len() == 0 || !starts_with(m[0], input) || m[0].len() == input.len() {
        None
    } else {
        Some(m[0].subrange(input.len() as int, m[0].len() as int))
    }
}

/// The preview of the completion of `input_line`.
pub fn history_preview(input_line: &str, live_history: &[String], file_history: &[String]) -> (r: Option<
    String,
>)
    ensures
        match spec_history_preview(input_line@, strings_view(live_history@), strings_view(file_history@)) {
            Some(p) => r is Some && r->0@ == p,
            None => r is None,
        },
{
    match first_history_match(input_line, live_history, file_history) {
        Some(cmd) => {
            let p = chars_of(input_line);
            if !string_starts_with(&cmd, &p) {
                return None;
            }
            let v = chars_of(cmd.as_str());
            if v.len() == p.len() {
                return None;
            }
            let rest = slice_chars(&v, p.len(), v.len());
            Some(string_from_chars(rest.as_slice()))
        },
        None => None,
    }
}

/// A cell of the completion preview: `c` in the preview color over `bg`.
pub open spec fn preview_cell(c: char, bg: Color) -> CellView {
    CellView {
        c,
        text: seq![c],
        wide_continuation: false,
        hyperlink: None,
        is_link_hovered: false,
        fg: preview_fg(),
        bg,
        is_selected: false,
        style: 0,
    }
}

/// `row` with the characters of `preview` drawn from column `x` on, as far
/// as the row reaches; each keeps its cell's background.
pub open spec fn spec_draw_preview(row: Seq<CellView>, x: int, preview: Seq<char>) -> Seq<CellView> {
    Seq::new(
        row.len(),
        |i: int|
            if x <= i < x + preview.len() {
                preview_cell(preview[i - x], row[i].bg)
            } else {
                row[i]
            },
    )
}

/// Draws the completion preview into `row` after the cursor column.
pub fn draw_history_preview(row: &mut Vec<Cell>, cursor_x: usize, preview: &str)
    ensures
        row_cells(*final(row)) == (if preview@.len() == 0 || cursor_x >= old(row)@.len() {
            row_cells(*old(row))
        } else {
            spec_draw_preview(row_cells(*old(row)), cursor_x as int, preview@)
        }),
{
    let p = chars_of(preview);
    if p.len() == 0 || cursor_x >= row.len() {
        return;
    }
    let ghost r0 = row_cells(*row);
    let n = if p.len() <= row.len() - cursor_x {
        p.len()
    } else {
        row.len() - cursor_x
    };
    let len0 = row.len();
    let mut i: usize = 0;
    while i < n
        invariant
            i <= n,
            n <= p@.len(),
            row@.len() == len0,
            cursor_x + n <= len0,
            p@ == preview@,
            row@.len() == r0.len(),
            forall|j: int|
                0 <= j < row@.len() ==> (#[trigger] row@[j])@ == (if cursor_x <= j < cursor_x + i {
                    preview_cell(p@[j - cursor_x], r0[j].bg)
                } else {
                    r0[j]
                }),
        decreases n - i,
    {
        let x = cursor_x + i;
        let bg = row[x].bg;
        let cell = Cell {
            c: p[i],
            text: char_to_string(p[i]),
            wide_continuation: false,
            hyperlink: None,
            is_link_hovered: false,
            fg: Color::rgb(120, 126, 138),
            bg,
            is_selected: false,
            style: 0,
        };
        row[x] = cell;
        i = i + 1;
    }
    assert(row_cells(*row) =~= spec_draw_preview(r0, cursor_x as int, preview@));
}

/// The view of a row of cells.
pub open spec fn row_cells(row: Vec<Cell>) -> Seq<CellView> {
    row@.map_values(|c: Cell| c@)
}

/// The mathematical value of a completion state.
pub struct CompletionView {
    pub prefix: Seq<char>,
    pub matches: Seq<Seq<char>>,
    pub index: nat,
}

pub open spec fn completion_view(s: Option<HistoryCompletionState>) -> Option<CompletionView> {
    match s {
        Some(st) => Some(
            CompletionView { prefix: st.prefix@, matches: strings_view(st.matches@), index: st.index as nat },
        ),
        None => None,
    }
}

/// What one press of the completion key does.
pub struct CompletionStep {
    /// The completion state afterwards.
    pub state: Option<HistoryCompletionState>,
    /// The command to put on the shell's line, if any.
    pub command: Option<String>,
    /// Whether the greyed preview is to be cleared.
    pub clear_preview: bool,
}

/// The prefix being completed: the one of the ongoing completion when the
/// line still shows its current match, else the line itself.
pub open spec fn completion_prefix(state: Option<CompletionView>, line: Seq<char>) -> Seq<char> {
    match state {
        Some(st) => if st.index < st.matches.len() && st.matches[st.index as int] == line {
            st.prefix
        } else {
            line
        },
        None => line,
    }
}

/// One press of the completion key: with a blank prefix nothing happens
/// and completion stops; while cycling through the matches of the same
/// prefix the next one (wrapping around) is taken; otherwise the matches
/// of the prefix are looked up and the first taken, or completion stops
/// (and the preview clears) when there are none.
pub open spec fn spec_cycle(
    state: Option<CompletionView>,
    line: Seq<char>,
    live: Seq<Seq<char>>,
    file: Seq<Seq<char>>,
) -> (Option<CompletionView>, Option<Seq<char>>, bool) {
    let prefix = completion_prefix(state, line);
    if spec_trim(prefix).len() == 0 {
        (None, None, false)
    } else {
        match state {
            Some(st) => if st.prefix == prefix && st.matches.len() > 0 {
                let i = ((st.index + 1) % st.matches.len()) as nat;
                (Some(CompletionView { index: i, ..st }), Some(st.matches[i as int]), true)
            } else {
                fresh_completion(prefix, live, file)
            },
            None => fresh_completion(prefix, live, file),
        }
    }
}

pub open spec fn fresh_completion(prefix: Seq<char>, live: Seq<Seq<char>>, file: Seq<Seq<char>>) -> (
    Option<CompletionView>,
    Option<Seq<char>>,
    bool,
) {
    let m = spec_history_matches(prefix, live, file);
    if m.len() == 0 {
        (None, None, true)
    } else {
        (Some(CompletionView { prefix, matches: m, index: 0 }), Some(m[0]), true)
    }
}

fn clone_strings(v: &Vec<String>) -> (r: Vec<String>)
    ensures
        strings_view(r@) == strings_view(v@),
{
    let mut r: Vec<String> = Vec::new();
    let mut i: usize = 0;
    while i < v.len()
        invariant
            i <= v@.len(),
            strings_view(r@) == strings_view(v@).subrange(0, i as int),
        decreases v@.len() - i,
    {
        let ghost before = strings_view(r@);
        let s = v[i].clone();
        r.push(s);
        assert(strings_view(r@) =~= before.push(v@[i as int]@));
        i = i + 1;
        assert(strings_view(r@) =~= strings_view(v@).subrange(0, i as int));
    }
    assert(strings_view(v@).subrange(0, i as int) =~= strings_view(v@));
    r
}

fn fresh_completion_exec(prefix: String, live_history: &[String], file_history: &[String]) -> (r: CompletionStep)
    ensures
        (completion_view(r.state), opt_string_view(r.command), r.clear_preview) == fresh_completion(
            prefix@,
            strings_view(live_history@),
            strings_view(file_history@),
        ),
{
    let m = history_matches_for_prefix(prefix.as_str(), live_history, file_history);
    if m.len() == 0 {
        CompletionStep { state: None, command: None, clear_preview: true }
    } else {
        let first = m[0].clone();
        CompletionStep {
            state: Some(HistoryCompletionState { prefix, matches: m, index: 0 }),
            command: Some(first),
            clear_preview: true,
        }
    }
}

pub open spec fn opt_string_view(o: Option<String>) -> Option<Seq<char>> {
    match o {
        Some(s) => Some(s@),
        None => None,
    }
}

/// One press of the history completion key with the shell line
/// `input_line`.
pub fn cycle_history_completion(
    state: Option<HistoryCompletionState>,
    input_line: &str,
    live_history: &[String],
    file_history: &[String],
) -> (r: CompletionStep)
    ensures
        (completion_view(r.state), opt_string_view(r.command), r.clear_preview) == spec_cycle(
            completion_view(state),
            input_line@,
            strings_view(live_history@),
            strings_view(file_history@),
        ),
{
    let line = chars_of(input_line);
    let line_s = string_from_chars(line.as_slice());
    let ghost sv = completion_view(state);
    let prefix: String = match &state {
        Some(st) => {
            if st.index < st.matches.len() && st.matches[st.index] == line_s {
                proof {
                    assert(strings_view(st.matches@)[st.index as int] == st.matches@[st.index as int]@);
                }
                st.prefix.clone()
            } else {
                proof {
                    if st.index < st.matches@.len() {
                        assert(strings_view(st.matches@)[st.index as int] == st.matches@[st.index as int]@);
                    }
                }
                string_from_chars(line.as_slice())
            }
        },
        None => string_from_chars(line.as_slice()),
    };
    assert(prefix@ == completion_prefix(sv, input_line@));
    let pc = chars_of(prefix.as_str());
    let (from, to) = trim_whitespace(&pc);
    if from == to {
        return CompletionStep { state: None, command: None, clear_preview: false };
    }
    match state {
        Some(st) => {
            if st.prefix == prefix && st.matches.len() > 0 {
                let n = st.matches.len();
                let i = (st.index % n + 1) % n;
                proof {
                    let a = st.index as int;
                    let m = n as int;
                    vstd::arithmetic::div_mod::lemma_add_mod_noop(a, 1, m);
                    if m > 1 {
                        vstd::arithmetic::div_mod::lemma_small_mod(1nat, m as nat);
                    } else {
                        assert((a + 1) % m == 0);
                        assert(((a % m) + 1) % m == 0);
                    }
                    assert(((a % m) + 1) % m == (a + 1) % m);
                }
                let cmd = st.matches[i].clone();
                proof {
                    assert(strings_view(st.matches@)[i as int] == st.matches@[i as int]@);
                }
                CompletionStep {
                    state: Some(HistoryCompletionState { prefix: st.prefix, matches: st.matches, index: i }),
                    command: Some(cmd),
                    clear_preview: true,
                }
            } else {
                fresh_completion_exec(prefix, live_history, file_history)
            }
        },
        None => fresh_completion_exec(prefix, live_history, file_history),
    }
}

/// Appending keeps the history free of neighbouring repeats when it was
/// free of them.
pub proof fn lemma_push_dedup_no_adjacent(h: Seq<Seq<char>>, cmds: Seq<Seq<char>>)
    requires
        no_adjacent_duplicates(h),
    ensures
        no_adjacent_duplicates(push_dedup(h, cmds)),
    decreases cmds.len(),
{
    if cmds.len() > 0 {
        let h2 = if h.len() > 0 && h.last() == cmds[0] {
            h
        } else {
            h.push(cmds[0])
        };
        assert(no_adjacent_duplicates(h2)) by {
            if !(h.len() > 0 && h.last() == cmds[0]) {
                assert forall|i: int| 0 <= i < h2.len() - 1 implies #[trigger] h2[i] != h2[i + 1] by {
                    if i < h.len() - 1 {
                        assert(h[i] != h[i + 1]);
                    }
                }
            }
        };
        lemma_push_dedup_no_adjacent(h2, cmds.drop_first());
    }
}

/// Law: appending commands to a history without neighbouring repeats
/// leaves it without neighbouring repeats and at most
/// `HISTORY_CACHE_LIMIT` long, ending with the last appended command.
pub proof fn law_append_history(h: Seq<Seq<char>>, cmds: Seq<Seq<char>>)
    requires
        no_adjacent_duplicates(h),
    ensures
        no_adjacent_duplicates(keep_last(push_dedup(h, cmds), HISTORY_CACHE_LIMIT as nat)),
        keep_last(push_dedup(h, cmds), HISTORY_CACHE_LIMIT as nat).len() <= HISTORY_CACHE_LIMIT,
        cmds.len() > 0 ==> keep_last(push_dedup(h, cmds), HISTORY_CACHE_LIMIT as nat).last() == cmds.last(),
{
    lemma_push_dedup_no_adjacent(h, cmds);
    let full = push_dedup(h, cmds);
    let k = keep_last(full, HISTORY_CACHE_LIMIT as nat);
    assert forall|i: int| 0 <= i < k.len() - 1 implies #[trigger] k[i] != k[i + 1] by {
        if full.len() > HISTORY_CACHE_LIMIT {
            assert(k[i] == full[full.len() - HISTORY_CACHE_LIMIT + i]);
            assert(k[i + 1] == full[full.len() - HISTORY_CACHE_LIMIT + i + 1]);
        }
    }
    if cmds.len() > 0 {
        lemma_push_dedup_last(h, cmds);
    }
}

/// After appending, the history ends with the last appended command.
pub proof fn lemma_push_dedup_last(h: Seq<Seq<char>>, cmds: Seq<Seq<char>>)
    requires
        cmds.len() > 0,
    ensures
        push_dedup(h, cmds).len() > 0,
        push_dedup(h, cmds).last() == cmds.last(),
    decreases cmds.len(),
{
    let h2 = if h.len() > 0 && h.last() == cmds[0] {
        h
    } else {
        h.push(cmds[0])
    };
    if cmds.len() == 1 {
        assert(cmds.drop_first().len() == 0);
    } else {
        assert(cmds.drop_first().last() == cmds.last());
        lemma_push_dedup_last(h2, cmds.drop_first());
    }
}

/// Law: a zsh extended history line `: <time>:<duration>;<command>` gives
/// its command, trimmed, whatever the time part holds (up to the first
/// `;`), and a line not in that format gives itself, trimmed; a command
/// that is blank gives nothing.
pub proof fn law_parse_history_line(line: Seq<char>, meta: Seq<char>, cmd: Seq<char>)
    ensures
        line == seq![':', ' '] + meta + seq![';'] + cmd && !meta.contains(';') ==> spec_parse_history_line(line) == (if spec_trim(
            cmd,
        ).len() == 0 {
            None
        } else {
            Some(spec_trim(cmd))
        }),
        !(line.len() >= 2 && line[0] == ':' && line[1] == ' ') ==> spec_parse_history_line(line) == (if spec_trim(line).len()
            == 0 {
            None
        } else {
            Some(spec_trim(line))
        }),
{
    if line == seq![':', ' '] + meta + seq![';'] + cmd && !meta.contains(';') {
        lemma_find_first_semicolon(line, meta, cmd, 0);
        assert(line.subrange(meta.len() + 3int, line.len() as int) =~= cmd);
    }
}

proof fn lemma_find_first_semicolon(line: Seq<char>, meta: Seq<char>, cmd: Seq<char>, i: int)
    requires
        line == seq![':', ' '] + meta + seq![';'] + cmd,
        !meta.contains(';'),
        0 <= i <= meta.len() + 2,
    ensures
        find_char(line, ';', i) == Some(meta.len() + 2int),
    decreases meta.len() + 2 - i,
{
    if i < meta.len() + 2 {
        if i >= 2 {
            assert(line[i] == meta[i - 2]);
            if line[i] == ';' {
                assert(meta.contains(';'));
            }
        }
        lemma_find_first_semicolon(line, meta, cmd, i + 1);
    }
}

/// Law: dropping the last word (Ctrl+W) keeps a prefix of the line that is
/// empty or ends in white space, and what it drops holds no white space.
pub proof fn law_drop_last_word(s: Seq<char>)
    ensures
        drop_last_word(s).len() <= s.len(),
        drop_last_word(s) == s.subrange(0, drop_last_word(s).len() as int),
        drop_last_word(s).len() == 0 || spec_is_whitespace(drop_last_word(s).last()),
        forall|i: int| drop_last_word(s).len() <= i < s.len() ==> !spec_is_whitespace(#[trigger] s[i]),
    decreases s.len(),
{
    if s.len() > 0 && !spec_is_whitespace(s.last()) {
        law_drop_last_word(s.drop_last());
        assert(s.drop_last().subrange(0, drop_last_word(s).len() as int) =~= s.subrange(0, drop_last_word(s).len() as int));
        assert forall|i: int| drop_last_word(s).len() <= i < s.len() implies !spec_is_whitespace(#[trigger] s[i]) by {
            if i < s.len() - 1 {
                assert(s[i] == s.drop_last()[i]);
            }
        }
    } else {
        assert(s.subrange(0, s.len() as int) =~= s);
    }
}

/// Law: a history preview, when there is one, is what the first
/// completion adds to the input: the input followed by the preview is that
/// completion, and the preview is not empty.
pub proof fn law_history_preview(input: Seq<char>, live: Seq<Seq<char>>, file: Seq<Seq<char>>)
    ensures
        spec_history_preview(input, live, file) matches Some(p) ==> p.len() > 0 && input + p == spec_history_matches(
            input,
            live,
            file,
        )[0],
        spec_history_matches(input, live, file).len() == 0 ==> spec_history_preview(input, live, file) is None,
{
    let m = spec_history_matches(input, live, file);
    if spec_history_preview(input, live, file) is Some {
        let p = m[0].subrange(input.len() as int, m[0].len() as int);
        assert(m[0].subrange(0, input.len() as int) == input);
        assert(input + p =~= m[0]);
    }
}

} // verus!
