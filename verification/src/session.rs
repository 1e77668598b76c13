use vstd::prelude::*;

use crate::text::{chars_of, decimal, push_decimal, string_from_chars};

verus! {

/// What the front end sends to a PTY task.
#[derive(Clone, Debug)]
pub enum PtyInput {
    Data(Vec<u8>),
    Resize { cols: u16, rows: u16 },
    Shutdown,
}

/// Events the PTY tasks send back to the window's event loop.
#[derive(Clone, Debug)]
pub enum Message {
    /// Output of the PTY of the tab with this id.
    PtyDataReceived(usize, Vec<u8>),
    /// The PTY of the tab with this id has closed.
    PtyExited(usize),
    Exit,
}

/// Which link features are turned on.
#[derive(Clone, Copy, PartialEq, Eq, Structural, Debug)]
pub struct LinkInteractionSettings {
    pub enable_hyperlinks: bool,
    pub enable_plaintext_links: bool,
    pub enable_hover_underline: bool,
    pub enable_cmd_click_open: bool,
    pub disable_in_alt_screen: bool,
}

impl Default for LinkInteractionSettings {
    /// Every link feature on.
    fn default() -> (r: Self)
        ensures
            r == (LinkInteractionSettings {
                enable_hyperlinks: true,
                enable_plaintext_links: true,
                enable_hover_underline: true,
                enable_cmd_click_open: true,
                disable_in_alt_screen: true,
            }),
    {
        LinkInteractionSettings {
            enable_hyperlinks: true,
            enable_plaintext_links: true,
            enable_hover_underline: true,
            enable_cmd_click_open: true,
            disable_in_alt_screen: true,
        }
    }
}

impl LinkInteractionSettings {
    /// Whether links respond to the pointer: turned on, and not in the
    /// alternate screen when they are kept out of it.
    pub fn hyperlinks_active(&self, in_alt_screen: bool) -> (r: bool)
        ensures
            r == (self.enable_hyperlinks && !(self.disable_in_alt_screen && in_alt_screen)),
    {
        self.enable_hyperlinks && !(self.disable_in_alt_screen && in_alt_screen)
    }

    /// Whether URLs in plain text are detected as links too.
    pub fn plaintext_links_active(&self, in_alt_screen: bool) -> (r: bool)
        ensures
            r == (self.enable_hyperlinks && !(self.disable_in_alt_screen && in_alt_screen)
                && self.enable_plaintext_links),
    {
        self.hyperlinks_active(in_alt_screen) && self.enable_plaintext_links
    }
}

/// The title of the tab at `index` in the tab bar: the shortcut that
/// selects it (`⌘ + ` and its position from 1) and the terminal's title,
/// `~` when that is empty.
pub open spec fn spec_tab_title(index: nat, title: Seq<char>) -> Seq<char> {
    seq!['\u{2318}', ' ', '+', ' '] + decimal(index + 1).map_values(|b: u8| b as char) + seq![' ', ' '] + (if title.len()
        == 0 {
        seq!['~']
    } else {
        title
    })
}

pub fn tab_title(index: usize, title: &str) -> (r: String)
    requires
        index < usize::MAX,
    ensures
        r@ == spec_tab_title(index as nat, title@),
{
    let mut digits: Vec<u8> = Vec::new();
    push_decimal(&mut digits, index + 1);
    let mut out: Vec<char> = Vec::new();
    out.push('\u{2318}');
    out.push(' ');
    out.push('+');
    out.push(' ');
    let mut i: usize = 0;
    while i < digits.len()
        invariant
            i <= digits@.len(),
            digits@ == decimal((index + 1) as nat),
            out@ == seq!['\u{2318}', ' ', '+', ' '] + digits@.subrange(0, i as int).map_values(|b: u8| b as char),
        decreases digits@.len() - i,
    {
        let ghost before = out@;
        out.push(digits[i] as char);
        assert(digits@.subrange(0, i + 1).map_values(|b: u8| b as char) =~= digits@.subrange(0, i as int).map_values(
            |b: u8| b as char,
        ).push(digits@[i as int] as char));
        i = i + 1;
    }
    assert(digits@.subrange(0, digits@.len() as int) =~= digits@);
    out.push(' ');
    out.push(' ');
    let t = chars_of(title);
    if t.len() == 0 {
        out.push('~');
    } else {
        let mut k: usize = 0;
        let ghost base = out@;
        while k < t.len()
            invariant
                k <= t@.len(),
                t@ == title@,
                out@ == base + t@.subrange(0, k as int),
            decreases t@.len() - k,
        {
            out.push(t[k]);
            assert(t@.subrange(0, k + 1) =~= t@.subrange(0, k as int).push(t@[k as int]));
            k = k + 1;
        }
        assert(t@.subrange(0, t@.len() as int) =~= t@);
    }
    let r = string_from_chars(out.as_slice());
    assert(r@ =~= spec_tab_title(index as nat, title@));
    r
}

/// The active tab index pulled back onto the `tab_count` tabs; none when
/// there are no tabs.
pub fn normalize_active_tab(active: usize, tab_count: usize) -> (r: Option<usize>)
    ensures
        tab_count == 0 ==> r is None,
        tab_count > 0 ==> r == Some(if active < tab_count { active } else { (tab_count - 1) as usize }),
{
    if tab_count == 0 {
        None
    } else if active >= tab_count {
        Some(tab_count - 1)
    } else {
        Some(active)
    }
}

/// The largest of `ids`.
pub open spec fn max_id(ids: Seq<usize>) -> int
    decreases ids.len(),
{
    if ids.len() == 0 {
        -1
    } else {
        let m = max_id(ids.drop_last());
        if ids.last() > m {
            ids.last() as int
        } else {
            m
        }
    }
}

/// The id for a new tab: one more than the largest id in use, 0 when there
/// are no tabs.
pub fn next_tab_id(ids: &[usize]) -> (r: usize)
    requires
        max_id(ids@) < usize::MAX,
    ensures
        r == max_id(ids@) + 1,
{
    let mut best: Option<usize> = None;
    let mut i: usize = 0;
    while i < ids.len()
        invariant
            i <= ids@.len(),
            max_id(ids@) < usize::MAX,
            match best {
                Some(b) => b == max_id(ids@.subrange(0, i as int)),
                None => max_id(ids@.subrange(0, i as int)) == -1,
            },
        decreases ids@.len() - i,
    {
        assert(ids@.subrange(0, i + 1).drop_last() =~= ids@.subrange(0, i as int));
        let v = ids[i];
        best = match best {
            Some(b) => Some(if v > b { v } else { b }),
            None => Some(v),
        };
        i = i + 1;
        proof {
            lemma_max_id_prefix(ids@, i as int);
        }
    }
    assert(ids@.subrange(0, i as int) =~= ids@);
    match best {
        Some(b) => b + 1,
        None => 0,
    }
}

pub proof fn lemma_max_id_prefix(ids: Seq<usize>, i: int)
    requires
        0 <= i <= ids.len(),
    ensures
        max_id(ids.subrange(0, i)) <= max_id(ids),
        max_id(ids.subrange(0, i)) >= -1,
    decreases ids.len() - i,
{
    if i < ids.len() {
        lemma_max_id_prefix(ids.drop_last(), if i <= ids.len() - 1 { i } else { ids.len() - 1 });
        assert(ids.drop_last().subrange(0, i) =~= ids.subrange(0, i)) by {
            if i <= ids.len() - 1 {
            }
        };
    } else {
        assert(ids.subrange(0, i) =~= ids);
        lemma_max_id_bound(ids);
    }
}

pub proof fn lemma_max_id_bound(ids: Seq<usize>)
    ensures
        max_id(ids) >= -1,
    decreases ids.len(),
{
    if ids.len() > 0 {
        lemma_max_id_bound(ids.drop_last());
    }
}

/// The active tab after closing the active one of `tab_count` tabs (there
/// must be more than one): the same index, or the new last tab.
pub fn active_after_close(active: usize, tab_count: usize) -> (r: usize)
    requires
        tab_count > 1,
        active < tab_count,
    ensures
        r == (if active < tab_count - 1 { active } else { (tab_count - 2) as usize }),
        r < tab_count - 1,
{
    if active >= tab_count - 1 {
        tab_count - 2
    } else {
        active
    }
}

/// At most this many PTY bytes are parsed in one chunk.
pub const PARSE_CHUNK_BYTES: usize = 16384;

/// Parsed bytes are dropped from the front of the pending buffer once this
/// many have accumulated.
pub const COMPACT_THRESHOLD: usize = 65536;

/// How many of the `available` pending bytes to parse now, within the
/// `remaining` budget and one chunk.
pub fn parse_chunk_len(available: usize, remaining: usize) -> (r: usize)
    ensures
        r == ({
            let a = if available <= remaining {
                available
            } else {
                remaining
            };
            if a <= PARSE_CHUNK_BYTES {
                a
            } else {
                PARSE_CHUNK_BYTES
            }
        }),
{
    let a = if available <= remaining {
        available
    } else {
        remaining
    };
    if a <= PARSE_CHUNK_BYTES {
        a
    } else {
        PARSE_CHUNK_BYTES
    }
}

/// Law: the largest id is at least every id and is one of them (there
/// being any), so a new tab's id, one more, is used by no tab.
pub proof fn law_max_id(ids: Seq<usize>)
    ensures
        forall|i: int| 0 <= i < ids.len() ==> #[trigger] ids[i] <= max_id(ids),
        ids.len() > 0 ==> exists|i: int| 0 <= i < ids.len() && ids[i] == max_id(ids),
        ids.len() == 0 ==> max_id(ids) == -1,
        forall|i: int| 0 <= i < ids.len() ==> #[trigger] ids[i] != max_id(ids) + 1,
    decreases ids.len(),
{
    if ids.len() > 0 {
        let d = ids.drop_last();
        law_max_id(d);
        assert forall|i: int| 0 <= i < ids.len() implies #[trigger] ids[i] <= max_id(ids) by {
            if i < d.len() {
                assert(ids[i] == d[i]);
            }
        }
        if ids.last() > max_id(d) {
            assert(ids[ids.len() - 1] == max_id(ids));
        } else {
            let j = choose|j: int| 0 <= j < d.len() && d[j] == max_id(d);
            assert(ids[j] == max_id(ids));
        }
    }
}

} // verus!

verus! {

/// The focus report sent when the window gains (`ESC [ I`) or loses
/// (`ESC [ O`) focus.
pub fn focus_report(has_focus: bool) -> (r: Vec<u8>)
    ensures
        r@ == seq![0x1bu8, 91, if has_focus { 73u8 } else { 79u8 }],
{
    let mut r: Vec<u8> = Vec::new();
    r.push(0x1b);
    r.push(91);
    r.push(if has_focus {
        73
    } else {
        79
    });
    assert(r@ =~= seq![0x1bu8, 91, if has_focus { 73u8 } else { 79u8 }]);
    r
}

/// The scrollback offset after scrolling `amount` rows (up when positive),
/// kept within 0 and `max`.
pub fn scrolled_offset(current: i32, amount: i32, max: i32) -> (r: i32)
    requires
        i32::MIN <= current + amount <= i32::MAX,
    ensures
        r == (if current + amount < 0 {
            0
        } else if current + amount > max {
            if max > 0 { max as int } else { 0 }
        } else {
            current + amount
        }),
{
    let v = current + amount;
    let low = if v > 0 {
        v
    } else {
        0
    };
    if low > max {
        if max > 0 {
            max
        } else {
            0
        }
    } else {
        low
    }
}

/// The mouse button a wheel step reports: 64 up, 65 down.
pub fn wheel_button(amount: i32) -> (r: u8)
    ensures
        r == (if amount > 0 { 64u8 } else { 65u8 }),
{
    if amount > 0 {
        64
    } else {
        65
    }
}

} // verus!
