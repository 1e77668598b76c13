use vstd::prelude::*;

use crate::action::{spec_vte_parse, vte_parse, Action};
use crate::charset::charset_from_designator;
use crate::text::{decimal, push_decimal};

use super::model::{designated, imin, initial_view, MouseMode, PerformerView};
use super::sgr::groups_view;
use super::{bytes_view, strings_view, Performer};

verus! {

/// `s` with each doubled escape byte (`ESC ESC`) collapsed to one.
pub open spec fn unescape_esc(s: Seq<u8>) -> Seq<u8>
    decreases s.len(),
{
    if s.len() == 0 {
        Seq::empty()
    } else if s.len() >= 2 && s[0] == 27 && s[1] == 27 {
        seq![27u8] + unescape_esc(s.subrange(2, s.len() as int))
    } else {
        seq![s[0]] + unescape_esc(s.subrange(1, s.len() as int))
    }
}

/// The bytes that a tmux passthrough string (`DCS tmux; ... ST`, its `t`
/// already taken as the final character) carries: what follows `mux;`,
/// unescaped; nothing when the prefix is missing.
pub open spec fn tmux_decode(b: Seq<u8>) -> Option<Seq<u8>> {
    if b.len() >= 4 && b[0] == 109 && b[1] == 117 && b[2] == 120 && b[3] == 59 {
        Some(unescape_esc(b.subrange(4, b.len() as int)))
    } else {
        None
    }
}

/// UTF-8 bytes of the character with code `b` (below 256).
pub open spec fn latin1_utf8(b: u8) -> Seq<u8> {
    if b < 128 {
        seq![b]
    } else {
        seq![(0xc0 | (b >> 6)) as u8, (0x80 | (b & 0x3f)) as u8]
    }
}

/// The byte that the X10 encoding uses for a 1-based coordinate `v`: 32 plus
/// its low eight bits.
pub open spec fn x10_coord(v: nat) -> u8 {
    (32 + v % 256) as u8
}

/// A mouse report for a button event at the 0-based cell (`x`, `y`): SGR
/// `ESC [ < b ; x ; y M` (`m` on release), else X10 `ESC [ M` and three
/// characters.
pub open spec fn mouse_reply(sgr: bool, x: nat, y: nat, button: u8, pressed: bool) -> Seq<u8> {
    if sgr {
        seq![27u8, 91, 60] + decimal(button as nat) + seq![59u8] + decimal(x + 1) + seq![59u8] + decimal(
            y + 1,
        ) + seq![
            if pressed {
                77u8
            } else {
                109u8
            },
        ]
    } else {
        seq![27u8, 91, 77] + latin1_utf8((32 + button) as u8) + latin1_utf8(x10_coord(x + 1))
            + latin1_utf8(x10_coord(y + 1))
    }
}

impl PerformerView {
    /// A mouse event reported to the application, when it asked for them.
    pub open spec fn report_mouse(self, x: nat, y: nat, button: u8, pressed: bool) -> Self {
        if self.mouse_mode == MouseMode::Off {
            self
        } else {
            self.with_reply(mouse_reply(self.sgr_mouse, x, y, button, pressed))
        }
    }

    /// The start of a device control string: a tmux passthrough (final
    /// `t`) is collected, anything else ignored.
    pub open spec fn hook(self, action: char) -> Self {
        PerformerView {
            tmux_dcs_buffer: if action == 't' {
                Some(Seq::empty())
            } else {
                None
            },
            ..self
        }
    }

    /// One byte of a device control string, kept when one is collected.
    pub open spec fn put(self, byte: u8) -> Self {
        match self.tmux_dcs_buffer {
            Some(b) => PerformerView { tmux_dcs_buffer: Some(b.push(byte)), ..self },
            None => self,
        }
    }

    /// The effect of one parser action. A finished tmux passthrough is
    /// decoded and fed to a fresh parser, whose actions are carried out in
    /// turn; `fuel` bounds how deeply such strings may nest.
    pub open spec fn step(self, a: Action, fuel: nat) -> Self
        decreases fuel, 0nat, 0nat,
    {
        match a {
            Action::Print(c) => self.print(c),
            Action::Execute(b) => self.execute_control(b),
            Action::Hook { action, .. } => self.hook(action),
            Action::Put(b) => self.put(b),
            Action::Unhook => match self.tmux_dcs_buffer {
                Some(buf) => {
                    let s1 = PerformerView { tmux_dcs_buffer: None, ..self };
                    match tmux_decode(buf) {
                        Some(d) => if fuel == 0 {
                            s1
                        } else {
                            s1.run(spec_vte_parse(d), (fuel - 1) as nat)
                        },
                        None => s1,
                    }
                },
                None => self,
            },
            Action::OscDispatch { params, .. } => self.osc(bytes_view(params@)),
            Action::CsiDispatch { params, intermediates, action, .. } => self.csi(
                groups_view(params@),
                intermediates@,
                action,
            ),
            Action::EscDispatch { intermediates, byte, .. } => self.dispatch_escape(intermediates@, byte),
        }
    }

    /// The actions `acts` carried out in order.
    pub open spec fn run(self, acts: Seq<Action>, fuel: nat) -> Self
        decreases fuel, 1nat, acts.len(),
    {
        if acts.len() == 0 {
            self
        } else {
            self.step(acts[0], fuel).run(acts.drop_first(), fuel)
        }
    }

    /// The fuel that an action gets: one more than the bytes of a pending
    /// passthrough string (as far as `usize` reaches). Each nested string is
    /// at least five bytes shorter than the one that holds it, so this never
    /// runs out.
    pub open spec fn fuel(self) -> nat {
        match self.tmux_dcs_buffer {
            Some(b) => imin(b.len() + 1int, usize::MAX as int) as nat,
            None => 1,
        }
    }

    /// One parser action carried out.
    pub open spec fn perform(self, a: Action) -> Self {
        self.step(a, self.fuel())
    }

    /// A sequence of parser actions carried out in order.
    pub open spec fn perform_all(self, acts: Seq<Action>) -> Self
        decreases acts.len(),
    {
        if acts.len() == 0 {
            self
        } else {
            self.perform(acts[0]).perform_all(acts.drop_first())
        }
    }
}

/// Decodes a tmux passthrough string.
pub fn decode_tmux_dcs_passthrough(bytes: &[u8]) -> (r: Option<Vec<u8>>)
    ensures
        match tmux_decode(bytes@) {
            Some(d) => r is Some && r->0@ == d,
            None => r is None,
        },
{
    if !(bytes.len() >= 4 && bytes[0] == 109 && bytes[1] == 117 && bytes[2] == 120 && bytes[3] == 59) {
        return None;
    }
    let mut out: Vec<u8> = Vec::new();
    let mut i: usize = 4;
    while i < bytes.len()
        invariant
            4 <= i <= bytes@.len(),
            out@ + unescape_esc(bytes@.subrange(i as int, bytes@.len() as int)) == unescape_esc(
                bytes@.subrange(4, bytes@.len() as int),
            ),
        decreases bytes@.len() - i,
    {
        let ghost rest = bytes@.subrange(i as int, bytes@.len() as int);
        if bytes[i] == 27 && bytes.len() - i >= 2 && bytes[i + 1] == 27 {
            assert(rest.subrange(2, rest.len() as int) =~= bytes@.subrange(i + 2, bytes@.len() as int));
            out.push(27);
            i = i + 2;
        } else {
            assert(rest.subrange(1, rest.len() as int) =~= bytes@.subrange(i + 1, bytes@.len() as int));
            out.push(bytes[i]);
            i = i + 1;
        }
        assert(out@ + unescape_esc(bytes@.subrange(i as int, bytes@.len() as int)) =~= unescape_esc(
            bytes@.subrange(4, bytes@.len() as int),
        ));
    }
    assert(bytes@.subrange(i as int, bytes@.len() as int) =~= Seq::<u8>::empty());
    assert(out@ =~= unescape_esc(bytes@.subrange(4, bytes@.len() as int)));
    Some(out)
}

/// Appends the UTF-8 bytes of the character with code `b`.
fn push_latin1(out: &mut Vec<u8>, b: u8)
    ensures
        final(out)@ == old(out)@ + latin1_utf8(b),
{
    if b < 128 {
        out.push(b);
    } else {
        out.push(0xc0 | (b >> 6));
        out.push(0x80 | (b & 0x3f));
    }
    assert(final(out)@ =~= old(out)@ + latin1_utf8(b));
}

impl Performer {
    #[verifier::spinoff_prover]
    #[verifier::rlimit(50)]
    fn designate(&mut self, g1: bool, byte: u8)
        requires
            old(self)@.wf(),
        ensures
            final(self)@.wf(),
            final(self)@ == (if g1 {
                PerformerView { g1_charset: designated(byte), ..old(self)@ }
            } else {
                PerformerView { g0_charset: designated(byte), ..old(self)@ }
            }),
    {
        let ghost s0 = self@;
        let set = charset_from_designator(byte);
        self.g0_charset = if g1 {
            self.g0_charset
        } else {
            set
        };
        self.g1_charset = if g1 {
            set
        } else {
            self.g1_charset
        };
        proof {
            assert(self@.wf());
        }
    }

    #[verifier::spinoff_prover]
    #[verifier::rlimit(50)]
    fn set_tab_stop(&mut self)
        requires
            old(self)@.wf(),
        ensures
            final(self)@.wf(),
            final(self)@ == old(self)@.set_tab_stop(),
    {
        let ghost s0 = self@;
        if self.cursor_x < self.tab_stops.len() {
            let x = self.cursor_x;
            self.tab_stops.set(x, true);
        }
        proof {
            assert(self@ == s0.set_tab_stop());
            assert(self@.wf());
        }
    }

    /// Resets the terminal to its initial state (`ESC c`).
    pub fn reset(&mut self)
        ensures
            final(self)@ == initial_view(),
            final(self)@.wf(),
    {
        *self = Performer::new();
    }

    /// Carries out an escape sequence.
    pub fn dispatch_escape(&mut self, intermediates: &Vec<u8>, byte: u8)
        requires
            old(self)@.wf(),
        ensures
            final(self)@.wf(),
            final(self)@ == old(self)@.dispatch_escape(intermediates@, byte),
    {
        if intermediates.len() == 0 {
            if byte == 55 {
                self.save_cursor();
            } else if byte == 56 {
                self.restore_cursor();
            } else if byte == 68 {
                self.index_line();
            } else if byte == 69 {
                self.column_zero();
                self.index_line();
            } else if byte == 77 {
                self.reverse_index();
            } else if byte == 72 {
                self.set_tab_stop();
            } else if byte == 99 {
                self.reset();
            }
        } else if intermediates[0] == 35 && byte == 56 {
            self.alignment_pattern();
        } else if intermediates[0] == 40 {
            self.designate(false, byte);
        } else if intermediates[0] == 41 {
            self.designate(true, byte);
        }
    }

    /// Reports a mouse event at the 0-based cell (`x`, `y`) to the
    /// application, if it enabled mouse reporting. The X10 encoding cannot
    /// carry a button above 223, and keeps only the low eight bits of each
    /// coordinate, which must then stay within 223 as well.
    pub fn report_mouse(&mut self, x: usize, y: usize, button: u8, pressed: bool)
        requires
            old(self)@.wf(),
            x < usize::MAX,
            y < usize::MAX,
            old(self)@.mouse_mode != MouseMode::Off && !old(self)@.sgr_mouse ==> button <= 223 && (x
                + 1) % 256 <= 223 && (y + 1) % 256 <= 223,
        ensures
            final(self)@.wf(),
            final(self)@ == old(self)@.report_mouse(x as nat, y as nat, button, pressed),
    {
        if self.mouse_mode == MouseMode::Off {
            return;
        }
        let mut r: Vec<u8> = Vec::new();
        if self.sgr_mouse {
            r.push(27);
            r.push(91);
            r.push(60);
            push_decimal(&mut r, button as usize);
            r.push(59);
            push_decimal(&mut r, x + 1);
            r.push(59);
            push_decimal(&mut r, y + 1);
            r.push(if pressed {
                77
            } else {
                109
            });
            assert(r@ =~= mouse_reply(true, x as nat, y as nat, button, pressed));
        } else {
            r.push(27);
            r.push(91);
            r.push(77);
            push_latin1(&mut r, 32 + button);
            let bx = ((x + 1) % 256) as u8;
            let by = ((y + 1) % 256) as u8;
            push_latin1(&mut r, 32 + bx);
            push_latin1(&mut r, 32 + by);
            assert(r@ =~= mouse_reply(false, x as nat, y as nat, button, pressed));
        }
        self.queue_pty_reply(r);
    }

    /// Takes the replies queued for the PTY, leaving none.
    #[verifier::spinoff_prover]
    #[verifier::rlimit(50)]
    pub fn drain_pty_replies(&mut self) -> (r: Vec<Vec<u8>>)
        requires
            old(self)@.wf(),
        ensures
            final(self)@.wf(),
            bytes_view(r@) == old(self)@.pty_replies,
            final(self)@ == (PerformerView { pty_replies: Seq::empty(), ..old(self)@ }),
    {
        let ghost s0 = self@;
        let mut r: Vec<Vec<u8>> = Vec::new();
        std::mem::swap(&mut r, &mut self.pty_replies);
        proof {
            assert(bytes_view(self.pty_replies@) =~= Seq::<Seq<u8>>::empty());
            assert(self@ == PerformerView { pty_replies: Seq::empty(), ..s0 });
            assert(self@.wf());
        }
        r
    }

    /// Takes the commands reported through the shell history OSC, leaving
    /// none.
    #[verifier::spinoff_prover]
    #[verifier::rlimit(50)]
    pub fn drain_history_commands(&mut self) -> (r: Vec<String>)
        requires
            old(self)@.wf(),
        ensures
            final(self)@.wf(),
            strings_view(r@) == old(self)@.history_commands,
            final(self)@ == (PerformerView { history_commands: Seq::empty(), ..old(self)@ }),
    {
        let ghost s0 = self@;
        let mut r: Vec<String> = Vec::new();
        std::mem::swap(&mut r, &mut self.history_commands);
        proof {
            assert(strings_view(self.history_commands@) =~= Seq::<Seq<char>>::empty());
            assert(self@ == PerformerView { history_commands: Seq::empty(), ..s0 });
            assert(self@.wf());
        }
        r
    }

    #[verifier::spinoff_prover]
    #[verifier::rlimit(50)]
    fn hook(&mut self, action: char)
        requires
            old(self)@.wf(),
        ensures
            final(self)@.wf(),
            final(self)@ == old(self)@.hook(action),
    {
        let ghost s0 = self@;
        let b = if action == 't' {
            Some(Vec::new())
        } else {
            None
        };
        self.tmux_dcs_buffer = b;
        proof {
            assert(self@ == s0.hook(action));
            assert(self@.wf());
        }
    }

    #[verifier::spinoff_prover]
    #[verifier::rlimit(50)]
    fn put(&mut self, byte: u8)
        requires
            old(self)@.wf(),
        ensures
            final(self)@.wf(),
            final(self)@ == old(self)@.put(byte),
    {
        let ghost s0 = self@;
        let mut b: Option<Vec<u8>> = None;
        std::mem::swap(&mut b, &mut self.tmux_dcs_buffer);
        let nb = match b {
            Some(mut v) => {
                v.push(byte);
                Some(v)
            },
            None => None,
        };
        self.tmux_dcs_buffer = nb;
        proof {
            assert(self@ == s0.put(byte));
            assert(self@.wf());
        }
    }

    #[verifier::spinoff_prover]
    #[verifier::rlimit(50)]
    fn take_dcs_buffer(&mut self) -> (r: Option<Vec<u8>>)
        requires
            old(self)@.wf(),
        ensures
            final(self)@.wf(),
            final(self)@ == (PerformerView { tmux_dcs_buffer: None, ..old(self)@ }),
            match old(self)@.tmux_dcs_buffer {
                Some(b) => r is Some && r->0@ == b,
                None => r is None,
            },
    {
        let ghost s0 = self@;
        let mut b: Option<Vec<u8>> = None;
        std::mem::swap(&mut b, &mut self.tmux_dcs_buffer);
        proof {
            assert(self@ == PerformerView { tmux_dcs_buffer: None, ..s0 });
            assert(self@.wf());
        }
        b
    }

    /// The end of a device control string: a tmux passthrough is decoded and
    /// its contents carried out.
    fn unhook(&mut self, fuel: usize)
        requires
            old(self)@.wf(),
        ensures
            final(self)@.wf(),
            final(self)@ == old(self)@.step(Action::Unhook, fuel as nat),
        decreases fuel, 0nat,
    {
        let b = self.take_dcs_buffer();
        match b {
            Some(buf) => {
                match decode_tmux_dcs_passthrough(buf.as_slice()) {
                    Some(d) => {
                        if fuel > 0 {
                            let acts = vte_parse(d.as_slice());
                            self.run(&acts, fuel - 1);
                        }
                    },
                    None => {},
                }
            },
            None => {},
        }
    }

    /// Carries out `acts` in order.
    fn run(&mut self, acts: &Vec<Action>, fuel: usize)
        requires
            old(self)@.wf(),
        ensures
            final(self)@.wf(),
            final(self)@ == old(self)@.run(acts@, fuel as nat),
        decreases fuel, 2nat,
    {
        let mut i: usize = 0;
        assert(acts@.skip(0) =~= acts@);
        while i < acts.len()
            invariant
                i <= acts@.len(),
                self@.wf(),
                self@.run(acts@.skip(i as int), fuel as nat) == old(self)@.run(acts@, fuel as nat),
            decreases acts@.len() - i,
        {
            assert(acts@.skip(i as int).drop_first() =~= acts@.skip(i + 1));
            assert(acts@.skip(i as int)[0] == acts@[i as int]);
            self.step(&acts[i], fuel);
            i = i + 1;
        }
        assert(acts@.skip(i as int) =~= Seq::<Action>::empty());
    }

    /// Carries out one parser action with the given nesting fuel.
    fn step(&mut self, a: &Action, fuel: usize)
        requires
            old(self)@.wf(),
        ensures
            final(self)@.wf(),
            final(self)@ == old(self)@.step(*a, fuel as nat),
        decreases fuel, 1nat,
    {
        match a {
            Action::Print(c) => self.print_char(*c),
            Action::Execute(b) => self.execute_control(*b),
            Action::Hook { action, .. } => self.hook(*action),
            Action::Put(b) => self.put(*b),
            Action::Unhook => self.unhook(fuel),
            Action::OscDispatch { params, .. } => self.dispatch_osc(params),
            Action::CsiDispatch { params, intermediates, action, .. } => self.dispatch_csi(
                params,
                intermediates,
                *action,
            ),
            Action::EscDispatch { intermediates, byte, .. } => self.dispatch_escape(intermediates, *byte),
        }
    }

    /// Carries out one action of the VT parser (the `vte::Perform`
    /// callbacks).
    pub fn perform(&mut self, a: &Action)
        requires
            old(self)@.wf(),
        ensures
            final(self)@.wf(),
            final(self)@ == old(self)@.perform(*a),
    {
        let fuel = match &self.tmux_dcs_buffer {
            Some(b) => {
                if b.len() < usize::MAX {
                    b.len() + 1
                } else {
                    b.len()
                }
            },
            None => 1,
        };
        self.step(a, fuel);
    }
}

/// Law: with mouse reporting off, a mouse event changes nothing. Otherwise
/// one reply is queued. In SGR form it starts `ESC [ <`, ends with `M` for
/// a press and `m` for a release, and is otherwise the same for both; it
/// carries the button and the 1-based column and row, in decimal. In X10
/// form, for buttons and cells small enough to stay ASCII, it is
/// `ESC [ M` and three bytes: 32 plus the button, 33 plus the column and 33
/// plus the row.
pub proof fn law_mouse_reports(p: PerformerView, x: nat, y: nat, b: u8)
    ensures
        p.mouse_mode == MouseMode::Off ==> p.report_mouse(x, y, b, true) == p && p.report_mouse(x, y, b, false) == p,
        p.mouse_mode != MouseMode::Off ==> p.report_mouse(x, y, b, true) == (PerformerView {
            pty_replies: p.pty_replies.push(p.report_mouse(x, y, b, true).pty_replies.last()),
            ..p
        }),
        ({
            let press = mouse_reply(true, x, y, b, true);
            let release = mouse_reply(true, x, y, b, false);
            &&& press.subrange(0, 3) == seq![27u8, 91, 60]
            &&& press.last() == 77u8 && release.last() == 109u8
            &&& press.drop_last() == release.drop_last()
            &&& press.drop_last() == seq![27u8, 91, 60] + decimal(b as nat) + seq![59u8] + decimal(x + 1) + seq![59u8]
                + decimal(y + 1)
        }),
        b < 96 && x < 94 && y < 94 ==> mouse_reply(false, x, y, b, true) == seq![
            27u8,
            91,
            77,
            (32 + b) as u8,
            (33 + x) as u8,
            (33 + y) as u8,
        ],
{
    let press = mouse_reply(true, x, y, b, true);
    let release = mouse_reply(true, x, y, b, false);
    let body = seq![27u8, 91, 60] + decimal(b as nat) + seq![59u8] + decimal(x + 1) + seq![59u8] + decimal(y + 1);
    assert(press == body + seq![77u8]);
    assert(release == body + seq![109u8]);
    assert(press.drop_last() =~= body);
    assert(release.drop_last() =~= body);
    assert(press.subrange(0, 3) =~= seq![27u8, 91, 60]);
    if p.mouse_mode != MouseMode::Off {
        let r = p.report_mouse(x, y, b, true);
        assert(r.pty_replies.last() == mouse_reply(p.sgr_mouse, x, y, b, true));
        assert(p.pty_replies.push(r.pty_replies.last()) == r.pty_replies);
    }
    if b < 96 && x < 94 && y < 94 {
        assert(x10_coord(x + 1) == (33 + x) as u8);
        assert(x10_coord(y + 1) == (33 + y) as u8);
        assert(mouse_reply(false, x, y, b, true) =~= seq![27u8, 91, 77, (32 + b) as u8, (33 + x) as u8, (33 + y) as u8]);
    }
}

} // verus!
