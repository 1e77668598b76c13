use vstd::prelude::*;
use vstd::utf8::{decode_utf8, valid_utf8};

use crate::color::{parse_color_chars, spec_parse_color_spec, Color};
use crate::text::{decimal, parse_unsigned, push_bytes, spec_parse_unsigned, spec_utf8_lossy, utf8_decode, utf8_lossy};

use super::model::PerformerView;
use super::{bytes_view, strings_view, Performer};

verus! {

/// `parts` joined with `;` between them.
pub open spec fn join_semicolon(parts: Seq<Seq<u8>>) -> Seq<u8>
    decreases parts.len(),
{
    if parts.len() == 0 {
        Seq::empty()
    } else if parts.len() == 1 {
        parts[0]
    } else {
        join_semicolon(parts.drop_last()) + seq![59u8] + parts.last()
    }
}

/// OSC argument `i`, empty when absent.
pub open spec fn osc_arg(p: Seq<Seq<u8>>, i: int) -> Seq<u8> {
    if 0 <= i < p.len() {
        p[i]
    } else {
        Seq::empty()
    }
}

/// The bytes of `history`.
pub open spec fn history_tag() -> Seq<u8> {
    seq![104u8, 105, 115, 116, 111, 114, 121]
}

/// The color that a color-setting argument names: valid UTF-8 other than
/// `?` that parses as a color specification.
pub open spec fn osc_color(b: Seq<u8>) -> Option<Color> {
    if valid_utf8(b) && decode_utf8(b) != seq!['?'] {
        spec_parse_color_spec(decode_utf8(b))
    } else {
        None
    }
}

/// The reply to a clipboard query: `ESC ] 52 ; target ; BEL`, the target
/// defaulting to `c` when it is not valid UTF-8.
pub open spec fn clipboard_reply(target: Seq<u8>) -> Seq<u8> {
    seq![27u8, 93, 53, 50, 59] + (if valid_utf8(target) {
        target
    } else {
        seq![99u8]
    }) + seq![59u8, 7]
}

impl PerformerView {
    /// The window title from OSC 0-2: the arguments after the command,
    /// rejoined with `;`.
    pub open spec fn set_title(self, p: Seq<Seq<u8>>) -> Self {
        PerformerView {
            title: if p.len() <= 1 {
                Seq::empty()
            } else {
                spec_utf8_lossy(join_semicolon(p.skip(1)))
            },
            ..self
        }
    }

    /// One OSC 4 pair: palette index `idx` (0-255) set to color `spec`.
    pub open spec fn palette_entry(self, idx: Seq<u8>, spec: Seq<u8>) -> Self {
        if valid_utf8(idx) && valid_utf8(spec) {
            match (spec_parse_unsigned(idx, 255), spec_parse_color_spec(decode_utf8(spec))) {
                (Some(n), Some(c)) => PerformerView { palette_256: self.palette_256.update(n as int, c), ..self },
                _ => self,
            }
        } else {
            self
        }
    }

    /// OSC 4 pairs from argument `i` on.
    pub open spec fn palette_from(self, p: Seq<Seq<u8>>, i: int) -> Self
        decreases p.len() - i,
    {
        if i >= 1 && i + 1 < p.len() {
            self.palette_entry(p[i], p[i + 1]).palette_from(p, i + 2)
        } else {
            self
        }
    }

    /// OSC 8: the link that following text carries (none for an empty URI).
    pub open spec fn set_hyperlink(self, uri: Seq<u8>) -> Self {
        PerformerView {
            current_hyperlink: if uri.len() == 0 {
                None
            } else {
                Some(spec_utf8_lossy(uri))
            },
            ..self
        }
    }

    /// OSC 10: a new default foreground; the current foreground follows it
    /// when it was the default.
    pub open spec fn set_default_fg(self, b: Seq<u8>) -> Self {
        match osc_color(b) {
            Some(c) => PerformerView {
                default_fg: c,
                current_fg: if self.current_fg == self.default_fg {
                    c
                } else {
                    self.current_fg
                },
                ..self
            },
            None => self,
        }
    }

    /// OSC 11: a new default background, likewise.
    pub open spec fn set_default_bg(self, b: Seq<u8>) -> Self {
        match osc_color(b) {
            Some(c) => PerformerView {
                default_bg: c,
                current_bg: if self.current_bg == self.default_bg {
                    c
                } else {
                    self.current_bg
                },
                ..self
            },
            None => self,
        }
    }

    /// OSC 52 answers a clipboard query (`?`) with an empty selection.
    pub open spec fn clipboard_query(self, p: Seq<Seq<u8>>) -> Self {
        let data = osc_arg(p, 2);
        if valid_utf8(data) && decode_utf8(data) == seq!['?'] {
            self.with_reply(clipboard_reply(osc_arg(p, 1)))
        } else {
            self
        }
    }

    /// OSC 777 `history`: the rest of the arguments, rejoined with `;`, is a
    /// command the shell ran.
    pub open spec fn record_history(self, p: Seq<Seq<u8>>) -> Self {
        if p.len() > 2 && p[1] == history_tag() {
            PerformerView {
                history_commands: self.history_commands.push(spec_utf8_lossy(join_semicolon(p.skip(2)))),
                ..self
            }
        } else {
            self
        }
    }

    /// An operating system command with arguments `p`, the first being the
    /// command number.
    pub open spec fn osc(self, p: Seq<Seq<u8>>) -> Self {
        match (if p.len() > 0 {
            spec_parse_unsigned(p[0], 0xffff_ffff)
        } else {
            None
        }) {
            Some(cmd) => if cmd <= 2 {
                self.set_title(p)
            } else if cmd == 4 {
                self.palette_from(p, 1)
            } else if cmd == 8 {
                self.set_hyperlink(osc_arg(p, 2))
            } else if cmd == 10 {
                self.set_default_fg(osc_arg(p, 1))
            } else if cmd == 11 {
                self.set_default_bg(osc_arg(p, 1))
            } else if cmd == 52 {
                self.clipboard_query(p)
            } else if cmd == 777 {
                self.record_history(p)
            } else {
                self
            },
            None => self,
        }
    }
}

/// The arguments from `from` on, joined with `;`.
fn join_from(p: &Vec<Vec<u8>>, from: usize) -> (out: Vec<u8>)
    requires
        from <= p@.len(),
    ensures
        out@ == join_semicolon(bytes_view(p@).skip(from as int)),
{
    let ghost pv = bytes_view(p@);
    let mut out: Vec<u8> = Vec::new();
    let mut i = from;
    while i < p.len()
        invariant
            from <= i <= p@.len(),
            pv == bytes_view(p@),
            out@ == join_semicolon(pv.subrange(from as int, i as int)),
        decreases p@.len() - i,
    {
        let ghost before = pv.subrange(from as int, i as int);
        let ghost after = pv.subrange(from as int, i + 1);
        assert(after.drop_last() =~= before);
        assert(after.last() == p@[i as int]@);
        if i > from {
            out.push(59);
        } else {
            assert(before.len() == 0);
        }
        push_bytes(&mut out, p[i].as_slice());
        proof {
            if i > from {
                assert(out@ =~= join_semicolon(before) + seq![59u8] + after.last());
            } else {
                assert(after.len() == 1);
                assert(out@ =~= after[0]);
            }
        }
        i = i + 1;
    }
    assert(pv.subrange(from as int, i as int) =~= pv.skip(from as int));
    out
}

/// OSC argument `i` (empty when absent).
fn arg_at(p: &Vec<Vec<u8>>, i: usize) -> (r: Vec<u8>)
    ensures
        r@ == osc_arg(bytes_view(p@), i as int),
{
    if i < p.len() {
        p[i].clone()
    } else {
        Vec::new()
    }
}

/// The color that a color-setting argument names.
fn color_arg(b: &Vec<u8>) -> (r: Option<Color>)
    ensures
        r == osc_color(b@),
{
    match utf8_decode(b.as_slice()) {
        Some(chars) => {
            if chars.len() == 1 && chars[0] == '?' {
                assert(chars@ =~= seq!['?']);
                None
            } else {
                assert(chars@ != seq!['?']);
                parse_color_chars(&chars)
            }
        },
        None => None,
    }
}

/// Whether `b` is the UTF-8 text `?`.
fn is_query(b: &Vec<u8>) -> (r: bool)
    ensures
        r == (valid_utf8(b@) && decode_utf8(b@) == seq!['?']),
{
    match utf8_decode(b.as_slice()) {
        Some(chars) => {
            let r = chars.len() == 1 && chars[0] == '?';
            assert(r ==> chars@ =~= seq!['?']);
            r
        },
        None => false,
    }
}

impl Performer {
    #[verifier::spinoff_prover]
    #[verifier::rlimit(50)]
    fn set_title(&mut self, p: &Vec<Vec<u8>>)
        requires
            old(self)@.wf(),
        ensures
            final(self)@.wf(),
            final(self)@ == old(self)@.set_title(bytes_view(p@)),
    {
        let ghost s0 = self@;
        let t = if p.len() <= 1 {
            String::new()
        } else {
            let joined = join_from(p, 1);
            utf8_lossy(joined.as_slice())
        };
        self.title = t;
        proof {
            assert(self@ == s0.set_title(bytes_view(p@)));
            assert(self@.wf());
        }
    }

    #[verifier::spinoff_prover]
    #[verifier::rlimit(50)]
    fn palette_entry(&mut self, idx: &Vec<u8>, spec: &Vec<u8>)
        requires
            old(self)@.wf(),
        ensures
            final(self)@.wf(),
            final(self)@ == old(self)@.palette_entry(idx@, spec@),
    {
        let ghost s0 = self@;
        let idx_ok = utf8_decode(idx.as_slice()).is_some();
        let chars = utf8_decode(spec.as_slice());
        match chars {
            Some(cs) => {
                if idx_ok {
                    match (parse_unsigned(idx.as_slice(), 255), parse_color_chars(&cs)) {
                        (Some(n), Some(c)) => {
                            self.palette_256.set(n as usize, c);
                        },
                        _ => {},
                    }
                }
            },
            None => {},
        }
        proof {
            assert(self@ == s0.palette_entry(idx@, spec@));
            assert(self@.wf());
        }
    }

    /// OSC 4: each `index ; color` pair sets a palette entry.
    fn set_palette_entries(&mut self, p: &Vec<Vec<u8>>)
        requires
            old(self)@.wf(),
        ensures
            final(self)@.wf(),
            final(self)@ == old(self)@.palette_from(bytes_view(p@), 1),
    {
        let ghost pv = bytes_view(p@);
        let mut i: usize = 1;
        while i < p.len() && p.len() - i > 1
            invariant
                i >= 1,
                pv == bytes_view(p@),
                self@.wf(),
                self@.palette_from(pv, i as int) == old(self)@.palette_from(pv, 1),
            decreases p@.len() - i,
        {
            assert(pv[i as int] == p@[i as int]@);
            assert(pv[i + 1] == p@[i + 1]@);
            self.palette_entry(&p[i], &p[i + 1]);
            i = i + 2;
        }
    }

    #[verifier::spinoff_prover]
    #[verifier::rlimit(50)]
    fn set_hyperlink(&mut self, uri: &Vec<u8>)
        requires
            old(self)@.wf(),
        ensures
            final(self)@.wf(),
            final(self)@ == old(self)@.set_hyperlink(uri@),
    {
        let ghost s0 = self@;
        let link = if uri.len() == 0 {
            None
        } else {
            Some(utf8_lossy(uri.as_slice()))
        };
        self.current_hyperlink = link;
        proof {
            assert(self@ == s0.set_hyperlink(uri@));
            assert(self@.wf());
        }
    }

    #[verifier::spinoff_prover]
    #[verifier::rlimit(50)]
    fn set_default_fg(&mut self, b: &Vec<u8>)
        requires
            old(self)@.wf(),
        ensures
            final(self)@.wf(),
            final(self)@ == old(self)@.set_default_fg(b@),
    {
        let ghost s0 = self@;
        match color_arg(b) {
            Some(c) => {
                let follow = self.current_fg == self.default_fg;
                self.default_fg = c;
                self.current_fg = if follow {
                    c
                } else {
                    self.current_fg
                };
            },
            None => {},
        }
        proof {
            assert(self@ == s0.set_default_fg(b@));
            assert(self@.wf());
        }
    }

    #[verifier::spinoff_prover]
    #[verifier::rlimit(50)]
    fn set_default_bg(&mut self, b: &Vec<u8>)
        requires
            old(self)@.wf(),
        ensures
            final(self)@.wf(),
            final(self)@ == old(self)@.set_default_bg(b@),
    {
        let ghost s0 = self@;
        match color_arg(b) {
            Some(c) => {
                let follow = self.current_bg == self.default_bg;
                self.default_bg = c;
                self.current_bg = if follow {
                    c
                } else {
                    self.current_bg
                };
            },
            None => {},
        }
        proof {
            assert(self@ == s0.set_default_bg(b@));
            assert(self@.wf());
        }
    }

    fn clipboard_query(&mut self, p: &Vec<Vec<u8>>)
        requires
            old(self)@.wf(),
        ensures
            final(self)@.wf(),
            final(self)@ == old(self)@.clipboard_query(bytes_view(p@)),
    {
        let data = arg_at(p, 2);
        if is_query(&data) {
            let target = arg_at(p, 1);
            let mut r: Vec<u8> = Vec::new();
            r.push(27);
            r.push(93);
            r.push(53);
            r.push(50);
            r.push(59);
            let ghost head = r@;
            if utf8_decode(target.as_slice()).is_some() {
                push_bytes(&mut r, target.as_slice());
            } else {
                r.push(99);
            }
            r.push(59);
            r.push(7);
            assert(r@ =~= clipboard_reply(target@));
            self.queue_pty_reply(r);
        }
    }

    #[verifier::spinoff_prover]
    #[verifier::rlimit(50)]
    fn record_history(&mut self, p: &Vec<Vec<u8>>)
        requires
            old(self)@.wf(),
        ensures
            final(self)@.wf(),
            final(self)@ == old(self)@.record_history(bytes_view(p@)),
    {
        let ghost s0 = self@;
        if p.len() > 2 && p[1].len() == 7 && p[1][0] == 104 && p[1][1] == 105 && p[1][2] == 115
            && p[1][3] == 116 && p[1][4] == 111 && p[1][5] == 114 && p[1][6] == 121 {
            assert(p@[1]@ =~= history_tag());
            let joined = join_from(p, 2);
            let cmd = utf8_lossy(joined.as_slice());
            let ghost c = cmd@;
            self.history_commands.push(cmd);
            proof {
                assert(strings_view(self.history_commands@) =~= s0.history_commands.push(c));
            }
        } else {
            proof {
                if p@.len() > 2 && bytes_view(p@)[1] == history_tag() {
                    assert(p@[1]@ == history_tag());
                    assert(p@[1]@[0] == 104);
                }
            }
        }
        proof {
            assert(self@ == s0.record_history(bytes_view(p@)));
            assert(self@.wf());
        }
    }

    /// Carries out an operating system command: window title (0-2),
    /// palette (4), hyperlink (8), default colors (10, 11), clipboard query
    /// (52) and shell history (777).
    pub fn dispatch_osc(&mut self, p: &Vec<Vec<u8>>)
        requires
            old(self)@.wf(),
        ensures
            final(self)@.wf(),
            final(self)@ == old(self)@.osc(bytes_view(p@)),
    {
        let ghost pv = bytes_view(p@);
        if p.len() == 0 {
            return;
        }
        assert(pv[0] == p@[0]@);
        let cmd = match parse_unsigned(p[0].as_slice(), 0xffff_ffff) {
            Some(c) => c,
            None => {
                return;
            },
        };
        if cmd <= 2 {
            self.set_title(p);
        } else if cmd == 4 {
            self.set_palette_entries(p);
        } else if cmd == 8 {
            let uri = arg_at(p, 2);
            self.set_hyperlink(&uri);
        } else if cmd == 10 {
            let b = arg_at(p, 1);
            self.set_default_fg(&b);
        } else if cmd == 11 {
            let b = arg_at(p, 1);
            self.set_default_bg(&b);
        } else if cmd == 52 {
            self.clipboard_query(p);
        } else if cmd == 777 {
            self.record_history(p);
        }
    }
}

/// Law: two arguments rejoined are the first, `;`, and the second; one
/// argument is itself.
pub proof fn law_join_semicolon(a: Seq<u8>, b: Seq<u8>)
    ensures
        join_semicolon(seq![a]) == a,
        join_semicolon(seq![a, b]) == a + seq![59u8] + b,
{
    assert(seq![a, b].drop_last() =~= seq![a]);
}

/// Law: an operating system command numbered `n` (written in decimal)
/// does what that number says and changes nothing else. `0`-`2` set the
/// title to the other arguments rejoined with `;`; `8` sets the link that
/// following text carries to its URI argument, or to none when that is
/// empty; `10` and `11` set the default foreground and background to the
/// color named, the current one following when it was the default; `52`
/// with `?` answers `ESC ] 52 ; target ; BEL`; any number not handled
/// changes nothing.
pub proof fn law_osc_commands(s: PerformerView, p: Seq<Seq<u8>>, n: nat)
    requires
        p.len() > 0,
        p[0] == decimal(n),
        n <= 0xffff_ffff,
    ensures
        n <= 2 ==> s.osc(p) == (PerformerView {
            title: if p.len() <= 1 {
                Seq::empty()
            } else {
                spec_utf8_lossy(join_semicolon(p.skip(1)))
            },
            ..s
        }),
        n == 8 ==> s.osc(p) == (PerformerView {
            current_hyperlink: if p.len() <= 2 || p[2].len() == 0 {
                None
            } else {
                Some(spec_utf8_lossy(p[2]))
            },
            ..s
        }),
        n == 10 && p.len() > 1 ==> (osc_color(p[1]) matches Some(c) ==> s.osc(p) == (PerformerView {
            default_fg: c,
            current_fg: if s.current_fg == s.default_fg {
                c
            } else {
                s.current_fg
            },
            ..s
        })),
        n == 11 && p.len() > 1 ==> (osc_color(p[1]) matches Some(c) ==> s.osc(p) == (PerformerView {
            default_bg: c,
            current_bg: if s.current_bg == s.default_bg {
                c
            } else {
                s.current_bg
            },
            ..s
        })),
        (n == 10 || n == 11) && (p.len() <= 1 || osc_color(p[1]) is None) ==> s.osc(p) == s,
        n == 52 && p.len() > 2 && valid_utf8(p[2]) && decode_utf8(p[2]) == seq!['?'] && valid_utf8(p[1]) ==> s.osc(p) == (PerformerView {
            pty_replies: s.pty_replies.push(seq![27u8, 93, 53, 50, 59] + p[1] + seq![59u8, 7]),
            ..s
        }),
        n == 3 || (5 <= n <= 7) || n == 9 || (12 <= n <= 51) || (53 <= n <= 776) ==> s.osc(p) == s,
{
    crate::text::law_decimal(n);
    assert(p[0].len() == 0 || p[0][0] != 43);
    assert(spec_parse_unsigned(p[0], 0xffff_ffff) == Some(n));
}

} // verus!
