use vstd::prelude::*;

use crate::text::push_decimal;

use super::model::{
    csi_prefix, dsr_reply, imax, imin, next_tab_stop, MouseMode, PerformerView,
};
use super::{bytes_view, Performer};

verus! {

impl Performer {
    /// Queues `bytes` to be written back to the PTY.
    #[verifier::spinoff_prover]
    #[verifier::rlimit(50)]
    pub fn queue_pty_reply(&mut self, bytes: Vec<u8>)
        requires
            old(self)@.wf(),
        ensures
            final(self)@.wf(),
            final(self)@ == old(self)@.with_reply(bytes@),
    {
        let ghost s0 = self@;
        let ghost b = bytes@;
        self.pty_replies.push(bytes);
        proof {
            assert(bytes_view(self.pty_replies@) =~= s0.pty_replies.push(b));
            assert(self@ == s0.with_reply(b));
            assert(self@.wf());
        }
    }

    #[verifier::spinoff_prover]
    #[verifier::rlimit(50)]
    fn set_flag_mode(&mut self, mode: u16, enable: bool)
        requires
            old(self)@.wf(),
        ensures
            final(self)@.wf(),
            final(self)@ == old(self)@.set_flag_mode(mode, enable),
    {
        let ghost s0 = self@;
        self.app_cursor_keys = if mode == 1 { enable } else { self.app_cursor_keys };
        self.auto_wrap = if mode == 7 { enable } else { self.auto_wrap };
        self.cursor_blinking = if mode == 12 { enable } else { self.cursor_blinking };
        self.cursor_visible = if mode == 25 { enable } else { self.cursor_visible };
        self.focus_enable = if mode == 1004 { enable } else { self.focus_enable };
        self.sgr_mouse = if mode == 1006 { enable } else { self.sgr_mouse };
        self.bracketed_paste = if mode == 2004 { enable } else { self.bracketed_paste };
        proof {
            assert(self@ == s0.set_flag_mode(mode, enable));
            assert(self@.wf());
        }
    }

    #[verifier::spinoff_prover]
    #[verifier::rlimit(50)]
    fn set_mouse_mode(&mut self, mode: u16, enable: bool)
        requires
            old(self)@.wf(),
        ensures
            final(self)@.wf(),
            final(self)@ == old(self)@.set_mouse_mode(mode, enable),
    {
        let ghost s0 = self@;
        self.mouse_mode = if !enable {
            MouseMode::Off
        } else if mode == 9 {
            MouseMode::X10
        } else if mode == 1000 {
            MouseMode::Normal
        } else if mode == 1002 {
            MouseMode::ButtonEvent
        } else {
            MouseMode::AnyEvent
        };
        proof {
            assert(self@ == s0.set_mouse_mode(mode, enable));
            assert(self@.wf());
        }
    }

    #[verifier::spinoff_prover]
    #[verifier::rlimit(50)]
    fn set_origin_mode(&mut self, enable: bool)
        requires
            old(self)@.wf(),
        ensures
            final(self)@.wf(),
            final(self)@ == old(self)@.set_origin_mode(enable),
    {
        let ghost s0 = self@;
        self.origin_mode = enable;
        self.cursor_x = 0;
        self.cursor_y = if enable {
            self.scroll_top
        } else {
            0
        };
        self.pending_wrap = false;
        proof {
            assert(self@ == s0.set_origin_mode(enable));
            assert(self@.wf());
        }
    }

    /// Sets (`enable`) or resets the DEC private mode `mode`.
    pub fn set_dec_mode(&mut self, mode: u16, enable: bool)
        requires
            old(self)@.wf(),
        ensures
            final(self)@.wf(),
            final(self)@ == old(self)@.set_dec_mode(mode, enable),
    {
        if mode == 6 {
            self.set_origin_mode(enable);
        } else if mode == 9 || mode == 1000 || mode == 1002 || mode == 1003 {
            self.set_mouse_mode(mode, enable);
        } else if mode == 1049 {
            if enable {
                self.save_cursor();
                self.enter_alt_screen();
            } else {
                self.exit_alt_screen();
                self.restore_cursor();
            }
        } else {
            self.set_flag_mode(mode, enable);
        }
    }

    /// Sets or resets each of `modes` in turn.
    pub fn set_dec_modes(&mut self, modes: &[u16], enable: bool)
        requires
            old(self)@.wf(),
        ensures
            final(self)@.wf(),
            final(self)@ == old(self)@.set_dec_modes(modes@, enable),
    {
        let mut i: usize = 0;
        assert(modes@.skip(0) =~= modes@);
        while i < modes.len()
            invariant
                i <= modes@.len(),
                self@.wf(),
                self@.set_dec_modes(modes@.skip(i as int), enable) == old(self)@.set_dec_modes(
                    modes@,
                    enable,
                ),
            decreases modes@.len() - i,
        {
            assert(modes@.skip(i as int).drop_first() =~= modes@.skip(i + 1));
            self.set_dec_mode(modes[i], enable);
            i = i + 1;
        }
        assert(modes@.skip(i as int) =~= Seq::<u16>::empty());
    }

    /// Public modes: only insert mode (`4`) is recognized.
    pub fn set_public_modes(&mut self, modes: &[u16], enable: bool)
        requires
            old(self)@.wf(),
        ensures
            final(self)@.wf(),
            final(self)@ == old(self)@.set_public_modes(modes@, enable),
    {
        let mut i: usize = 0;
        let mut found = false;
        while i < modes.len()
            invariant
                i <= modes@.len(),
                found == modes@.subrange(0, i as int).contains(4u16),
            decreases modes@.len() - i,
        {
            if modes[i] == 4 {
                found = true;
                assert(modes@.subrange(0, i + 1)[i as int] == 4u16);
            }
            assert(modes@.subrange(0, i + 1) =~= modes@.subrange(0, i as int).push(modes@[i as int]));
            i = i + 1;
        }
        assert(modes@.subrange(0, i as int) =~= modes@);
        let ghost s0 = self@;
        if found {
            self.insert_mode = enable;
        }
        proof {
            assert(self@ == s0.set_public_modes(modes@, enable));
            assert(self@.wf());
        }
    }

    /// The reply to device status request `code`, if it has one.
    fn device_status_reply(&self, code: u16, private: bool) -> (r: Option<Vec<u8>>)
        requires
            self@.wf(),
        ensures
            match dsr_reply(code, private, self.cursor_x, self.cursor_y) {
                Some(b) => r is Some && r->0@ == b,
                None => r is None,
            },
    {
        if code != 5 && code != 6 {
            return None;
        }
        let mut out: Vec<u8> = Vec::new();
        out.push(27);
        out.push(91);
        if private {
            out.push(63);
        }
        assert(out@ == csi_prefix(private));
        if code == 5 {
            out.push(48);
            out.push(110);
            assert(out@ =~= csi_prefix(private) + seq![48u8, 110]);
        } else {
            push_decimal(&mut out, self.cursor_y + 1);
            out.push(59);
            push_decimal(&mut out, self.cursor_x + 1);
            out.push(82);
            assert(out@ =~= csi_prefix(private) + crate::text::decimal((self.cursor_y + 1) as nat)
                + seq![59u8] + crate::text::decimal((self.cursor_x + 1) as nat) + seq![82u8]);
        }
        Some(out)
    }

    /// Answers each device status request among `codes`: `5` with "OK",
    /// `6` with the cursor position.
    pub fn report_device_status(&mut self, codes: &[u16], private: bool)
        requires
            old(self)@.wf(),
        ensures
            final(self)@.wf(),
            final(self)@ == old(self)@.report_device_status(codes@, private),
    {
        let mut i: usize = 0;
        assert(codes@.skip(0) =~= codes@);
        while i < codes.len()
            invariant
                i <= codes@.len(),
                self@.wf(),
                self@.report_device_status(codes@.skip(i as int), private)
                    == old(self)@.report_device_status(codes@, private),
            decreases codes@.len() - i,
        {
            assert(codes@.skip(i as int).drop_first() =~= codes@.skip(i + 1));
            match self.device_status_reply(codes[i], private) {
                Some(r) => self.queue_pty_reply(r),
                None => {},
            }
            i = i + 1;
        }
        assert(codes@.skip(i as int) =~= Seq::<u16>::empty());
    }

    /// The column that a horizontal tab moves to: the next tab stop after
    /// the cursor, else the last column.
    fn next_tab_column(&self) -> (x: usize)
        requires
            self@.wf(),
        ensures
            x == next_tab_stop(self@.tab_stops, self.cursor_x + 1, self.cols as int),
    {
        let mut i = self.cursor_x + 1;
        while i < self.cols
            invariant
                self@.wf(),
                self.cursor_x + 1 <= i <= self.cols,
                next_tab_stop(self@.tab_stops, i as int, self.cols as int) == next_tab_stop(
                    self@.tab_stops,
                    self.cursor_x + 1,
                    self.cols as int,
                ),
            decreases self.cols - i,
        {
            if i < self.tab_stops.len() && self.tab_stops[i] {
                return i;
            }
            i = i + 1;
        }
        self.cols - 1
    }

    #[verifier::spinoff_prover]
    #[verifier::rlimit(50)]
    fn carriage_return(&mut self)
        requires
            old(self)@.wf(),
        ensures
            final(self)@.wf(),
            final(self)@ == old(self)@.carriage_return(),
    {
        let ghost s0 = self@;
        self.cursor_x = 0;
        self.pending_wrap = false;
        proof {
            assert(self@ == s0.carriage_return());
            assert(self@.wf());
        }
    }

    #[verifier::spinoff_prover]
    #[verifier::rlimit(50)]
    fn horizontal_tab(&mut self)
        requires
            old(self)@.wf(),
        ensures
            final(self)@.wf(),
            final(self)@ == old(self)@.horizontal_tab(),
    {
        let ghost s0 = self@;
        let x = self.next_tab_column();
        proof {
            super::model::lemma_next_tab_stop_bound(s0.tab_stops, s0.cursor_x + 1, s0.cols as int);
        }
        self.cursor_x = x;
        self.pending_wrap = false;
        proof {
            assert(self@ == s0.horizontal_tab());
            assert(self@.wf());
        }
    }

    #[verifier::spinoff_prover]
    #[verifier::rlimit(50)]
    fn backspace(&mut self)
        requires
            old(self)@.wf(),
        ensures
            final(self)@.wf(),
            final(self)@ == old(self)@.backspace(),
    {
        let ghost s0 = self@;
        if self.cursor_x > 0 {
            self.cursor_x = self.cursor_x - 1;
        }
        self.pending_wrap = false;
        proof {
            assert(self@ == s0.backspace());
            assert(self@.wf());
        }
    }

    #[verifier::spinoff_prover]
    #[verifier::rlimit(50)]
    fn shift_charset(&mut self, g1: bool)
        requires
            old(self)@.wf(),
        ensures
            final(self)@.wf(),
            final(self)@ == (PerformerView { use_g1_charset: g1, ..old(self)@ }),
    {
        let ghost s0 = self@;
        self.use_g1_charset = g1;
        proof {
            assert(self@ == PerformerView { use_g1_charset: g1, ..s0 });
            assert(self@.wf());
        }
    }

    #[verifier::spinoff_prover]
    #[verifier::rlimit(50)]
    fn line_feed(&mut self)
        requires
            old(self)@.wf(),
        ensures
            final(self)@.wf(),
            final(self)@ == old(self)@.no_pending().index_line(),
    {
        let ghost s0 = self@;
        self.pending_wrap = false;
        proof {
            assert(self@ == s0.no_pending());
        }
        self.index_line();
    }

    /// Executes a C0 control byte: line feed (also VT and FF), carriage
    /// return, horizontal tab, backspace, and the SO / SI charset shifts.
    pub fn execute_control(&mut self, byte: u8)
        requires
            old(self)@.wf(),
        ensures
            final(self)@.wf(),
            final(self)@ == old(self)@.execute_control(byte),
    {
        if byte == 10 || byte == 11 || byte == 12 {
            self.line_feed();
        } else if byte == 13 {
            self.carriage_return();
        } else if byte == 9 {
            self.horizontal_tab();
        } else if byte == 8 {
            self.backspace();
        } else if byte == 14 {
            self.shift_charset(true);
        } else if byte == 15 {
            self.shift_charset(false);
        }
    }
}

} // verus!
