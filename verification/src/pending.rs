use vstd::prelude::*;
use vstd::slice::{slice_subrange, slice_to_vec};

use crate::performer::bytes_view;
use crate::performer::model::PerformerView;
use crate::session::{parse_chunk_len, COMPACT_THRESHOLD, PARSE_CHUNK_BYTES};
use crate::terminal::{spec_process, Terminal};

verus! {

/// PTY output of a tab that waits to be parsed: the bytes received and how
/// many of them were parsed already.
pub struct PendingOutput {
    pub bytes: Vec<u8>,
    pub offset: usize,
}

pub open spec fn min_nat(a: nat, b: nat) -> nat {
    if a <= b {
        a
    } else {
        b
    }
}

/// Law: parsing the waiting output in two steps with budgets `a` and `b`
/// takes the same bytes, and leaves the same bytes waiting, as one step
/// with budget `a + b`.
pub proof fn law_feed_in_parts(u: Seq<u8>, a: nat, b: nat)
    ensures
        ({
            let c1 = min_nat(u.len(), a);
            let u1 = u.subrange(c1 as int, u.len() as int);
            let c2 = min_nat(u1.len(), b);
            let u2 = u1.subrange(c2 as int, u1.len() as int);
            &&& c1 + c2 == min_nat(u.len(), a + b)
            &&& u2 == u.subrange(min_nat(u.len(), a + b) as int, u.len() as int)
        }),
{
    let c1 = min_nat(u.len(), a);
    let u1 = u.subrange(c1 as int, u.len() as int);
    let c2 = min_nat(u1.len(), b);
    assert(u1.subrange(c2 as int, u1.len() as int) =~= u.subrange(min_nat(u.len(), a + b) as int, u.len() as int));
}


/// How many bytes the next chunk takes: all that wait, within the budget
/// and `PARSE_CHUNK_BYTES`.
pub open spec fn chunk_len(available: nat, budget: nat) -> nat {
    min_nat(min_nat(available, budget), PARSE_CHUNK_BYTES as nat)
}

/// What parsing at most `budget` of the waiting bytes `u` does to a terminal
/// whose screen is `p` and whose parser has consumed `consumed`: chunk after
/// chunk goes through the terminal, and the replies of the chunks are
/// returned in order.
#[verifier::opaque]
pub open spec fn spec_feed(p: PerformerView, consumed: Seq<u8>, u: Seq<u8>, budget: nat) -> (PerformerView, Seq<
    Seq<u8>,
>)
    decreases u.len(),
{
    if budget == 0 || u.len() == 0 {
        (p, Seq::empty())
    } else {
        let take = chunk_len(u.len(), budget);
        let chunk = u.subrange(0, take as int);
        let first = spec_process(p, consumed, chunk);
        let rest = spec_feed(first.0, consumed + chunk, u.subrange(take as int, u.len() as int), (budget - take) as nat);
        (rest.0, first.1 + rest.1)
    }
}

/// The part of `spec_feed` still to come, after `consumed` of the waiting
/// bytes `u0` went through and the terminal stands at (`p`, `c`) with
/// `replies` returned so far, agrees with the whole.
#[verifier::opaque]
pub open spec fn feed_so_far(
    p0: PerformerView,
    c0: Seq<u8>,
    u0: Seq<u8>,
    budget: nat,
    p: PerformerView,
    c: Seq<u8>,
    consumed: nat,
    replies: Seq<Seq<u8>>,
) -> bool {
    let rest = spec_feed(p, c, u0.subrange(consumed as int, u0.len() as int), (budget - consumed) as nat);
    spec_feed(p0, c0, u0, budget) == (rest.0, replies + rest.1)
}

/// One more chunk through the terminal keeps `feed_so_far`.
proof fn lemma_feed_advance(
    p0: PerformerView,
    c0: Seq<u8>,
    u0: Seq<u8>,
    budget: nat,
    p: PerformerView,
    c: Seq<u8>,
    consumed: nat,
    replies: Seq<Seq<u8>>,
    take: nat,
    p1: PerformerView,
    r1: Seq<Seq<u8>>,
)
    requires
        feed_so_far(p0, c0, u0, budget, p, c, consumed, replies),
        consumed < budget,
        consumed < u0.len(),
        take == chunk_len((u0.len() - consumed) as nat, (budget - consumed) as nat),
        (p1, r1) == spec_process(p, c, u0.subrange(consumed as int, (consumed + take) as int)),
    ensures
        feed_so_far(
            p0,
            c0,
            u0,
            budget,
            p1,
            c + u0.subrange(consumed as int, (consumed + take) as int),
            consumed + take,
            replies + r1,
        ),
{
    reveal(feed_so_far);
    let rem = u0.subrange(consumed as int, u0.len() as int);
    assert(rem.subrange(0, take as int) =~= u0.subrange(consumed as int, (consumed + take) as int));
    assert(rem.subrange(take as int, rem.len() as int) =~= u0.subrange((consumed + take) as int, u0.len() as int));
    lemma_feed_step(p, c, rem, (budget - consumed) as nat);
    let rest = spec_feed(
        p1,
        c + u0.subrange(consumed as int, (consumed + take) as int),
        u0.subrange((consumed + take) as int, u0.len() as int),
        (budget - ((consumed + take) as int)) as nat,
    );
    assert(replies + (r1 + rest.1) =~= (replies + r1) + rest.1);
}

/// Nothing is left to parse, or no budget: `feed_so_far` is the whole.
proof fn lemma_feed_done(
    p0: PerformerView,
    c0: Seq<u8>,
    u0: Seq<u8>,
    budget: nat,
    p: PerformerView,
    c: Seq<u8>,
    consumed: nat,
    replies: Seq<Seq<u8>>,
)
    requires
        feed_so_far(p0, c0, u0, budget, p, c, consumed, replies),
        consumed == budget || consumed == u0.len(),
        consumed <= u0.len(),
    ensures
        spec_feed(p0, c0, u0, budget) == (p, replies),
{
    reveal(feed_so_far);
    reveal(spec_feed);
    let rest = spec_feed(p, c, u0.subrange(consumed as int, u0.len() as int), (budget - consumed) as nat);
    assert(rest.1 =~= Seq::<Seq<u8>>::empty());
    assert(replies + rest.1 =~= replies);
}

/// The start: nothing parsed yet.
proof fn lemma_feed_start(p0: PerformerView, c0: Seq<u8>, u0: Seq<u8>, budget: nat)
    ensures
        feed_so_far(p0, c0, u0, budget, p0, c0, 0, Seq::empty()),
{
    reveal(feed_so_far);
    assert(u0.subrange(0, u0.len() as int) =~= u0);
    let all = spec_feed(p0, c0, u0, budget);
    assert(Seq::<Seq<u8>>::empty() + all.1 =~= all.1);
}

/// One chunk of `spec_feed`.
proof fn lemma_feed_step(p: PerformerView, c: Seq<u8>, u: Seq<u8>, budget: nat)
    requires
        budget > 0,
        u.len() > 0,
    ensures
        ({
            let take = chunk_len(u.len(), budget);
            let first = spec_process(p, c, u.subrange(0, take as int));
            let rest = spec_feed(
                first.0,
                c + u.subrange(0, take as int),
                u.subrange(take as int, u.len() as int),
                (budget - take) as nat,
            );
            spec_feed(p, c, u, budget) == (rest.0, first.1 + rest.1)
        }),
{
    reveal(spec_feed);
}

impl PendingOutput {
    /// The parsed part never runs past the bytes.
    pub open spec fn wf(&self) -> bool {
        self.offset <= self.bytes@.len()
    }

    /// The bytes not parsed yet.
    pub open spec fn unparsed(&self) -> Seq<u8> {
        self.bytes@.subrange(self.offset as int, self.bytes@.len() as int)
    }

    /// Nothing waiting.
    pub fn new() -> (r: Self)
        ensures
            r.wf(),
            r.unparsed() == Seq::<u8>::empty(),
            r.bytes@.len() == 0,
    {
        PendingOutput { bytes: Vec::new(), offset: 0 }
    }

    /// Appends bytes received from the PTY.
    pub fn push(&mut self, data: &[u8])
        requires
            old(self).wf(),
        ensures
            final(self).wf(),
            final(self).unparsed() == old(self).unparsed() + data@,
    {
        let ghost u0 = self.unparsed();
        self.bytes.extend_from_slice(data);
        assert(self.unparsed() =~= u0 + data@);
    }

    /// Whether any byte waits to be parsed.
    pub fn has_pending(&self) -> (r: bool)
        requires
            self.wf(),
        ensures
            r == (self.unparsed().len() > 0),
    {
        self.offset < self.bytes.len()
    }

    /// Forgets the parsed bytes once all are parsed, or once
    /// `COMPACT_THRESHOLD` of them have piled up.
    fn compact(&mut self)
        requires
            old(self).wf(),
        ensures
            final(self).wf(),
            final(self).unparsed() == old(self).unparsed(),
            final(self).offset < COMPACT_THRESHOLD,
            final(self).unparsed().len() == 0 ==> final(self).bytes@.len() == 0,
    {
        let ghost u0 = self.unparsed();
        if self.offset == self.bytes.len() {
            self.bytes.clear();
            self.offset = 0;
            assert(self.unparsed() =~= u0);
        } else if self.offset >= COMPACT_THRESHOLD {
            let rest = slice_to_vec(slice_subrange(self.bytes.as_slice(), self.offset, self.bytes.len()));
            self.bytes = rest;
            self.offset = 0;
            assert(self.unparsed() =~= u0);
        }
    }

    /// Parses at most `budget` of the waiting bytes into `terminal`, in
    /// chunks of at most `PARSE_CHUNK_BYTES`, and returns the replies due to
    /// the PTY and how many bytes were parsed; the rest keeps waiting.
    #[verifier::spinoff_prover]
    #[verifier::rlimit(50)]
    pub fn feed(&mut self, terminal: &mut Terminal, budget: usize) -> (r: (Vec<Vec<u8>>, usize))
        requires
            old(self).wf(),
            old(terminal).performer@.wf(),
        ensures
            final(self).wf(),
            final(terminal).performer@.wf(),
            r.1 == min_nat(old(self).unparsed().len(), budget as nat),
            final(self).unparsed() == old(self).unparsed().subrange(r.1 as int, old(self).unparsed().len() as int),
            r.1 > 0 ==> final(self).offset < COMPACT_THRESHOLD,
            r.1 > 0 && final(self).unparsed().len() == 0 ==> final(self).bytes@.len() == 0,
            final(terminal).parser@ == old(terminal).parser@ + old(self).unparsed().subrange(0, r.1 as int),
            (final(terminal).performer@, bytes_view(r.0@)) == spec_feed(
                old(terminal).performer@,
                old(terminal).parser@,
                old(self).unparsed(),
                budget as nat,
            ),
    {
        let ghost u0 = self.unparsed();
        let ghost p0 = terminal.performer@;
        let ghost c0 = terminal.parser@;
        let mut replies: Vec<Vec<u8>> = Vec::new();
        let mut consumed: usize = 0;
        assert(u0.subrange(0, u0.len() as int) =~= u0);
        assert(c0 + u0.subrange(0, 0) =~= c0);
        assert(bytes_view(replies@) =~= Seq::<Seq<u8>>::empty());
        proof {
            lemma_feed_start(p0, c0, u0, budget as nat);
        }
        while consumed < budget && self.offset < self.bytes.len()
            invariant
                self.wf(),
                terminal.performer@.wf(),
                consumed <= budget,
                consumed <= u0.len(),
                self.unparsed() == u0.subrange(consumed as int, u0.len() as int),
                consumed > 0 ==> self.offset < COMPACT_THRESHOLD,
                consumed > 0 && self.unparsed().len() == 0 ==> self.bytes@.len() == 0,
                terminal.parser@ == c0 + u0.subrange(0, consumed as int),
                feed_so_far(p0, c0, u0, budget as nat, terminal.performer@, terminal.parser@, consumed as nat, bytes_view(replies@)),
            decreases u0.len() - consumed,
        {
            let ghost rem = self.unparsed();
            let ghost pc = terminal.performer@;
            let ghost cc = terminal.parser@;
            let ghost rv = bytes_view(replies@);
            let available = self.bytes.len() - self.offset;
            let take = parse_chunk_len(available, budget - consumed);
            let start = self.offset;
            let end = start + take;
            let chunk = slice_subrange(self.bytes.as_slice(), start, end);
            assert(chunk@ =~= rem.subrange(0, take as int));
            assert(take <= rem.len());
            assert(take == chunk_len(rem.len(), (budget - consumed) as nat));
            assert(rem.subrange(0, take as int) =~= u0.subrange(consumed as int, consumed + take));
            assert(cc + u0.subrange(consumed as int, consumed + take) =~= c0 + u0.subrange(0, consumed + take));
            let mut rep = terminal.process(chunk);
            let ghost rep_v = bytes_view(rep@);
            replies.append(&mut rep);
            proof {
                assert(bytes_view(replies@) =~= rv + rep_v);
                lemma_feed_advance(
                    p0,
                    c0,
                    u0,
                    budget as nat,
                    pc,
                    cc,
                    consumed as nat,
                    rv,
                    take as nat,
                    terminal.performer@,
                    rep_v,
                );
            }
            let ghost before = self.unparsed();
            self.offset = end;
            assert(self.unparsed() =~= before.subrange(take as int, before.len() as int));
            assert(self.unparsed() =~= u0.subrange(consumed + take, u0.len() as int));
            consumed = consumed + take;
            self.compact();
        }
        proof {
            lemma_feed_done(
                p0,
                c0,
                u0,
                budget as nat,
                terminal.performer@,
                terminal.parser@,
                consumed as nat,
                bytes_view(replies@),
            );
        }
        (replies, consumed)
    }
}

} // verus!
