//! Framing a raw byte stream into discrete lines.
//!
//! A single read from the channel may deliver a partial line, several lines,
//! or a line split across two reads: the framer never assumes read boundaries
//! align with line boundaries. It accumulates bytes in a private buffer and
//! emits a completed line each time a terminator arrives; the terminator
//! itself is not part of the emitted line.

use vstd::prelude::*;

verus! {

/// The line terminator byte.
pub const LINE_TERMINATOR: u8 = 10;

/// Whether `s` contains the line terminator.
pub open spec fn has_terminator(s: Seq<u8>) -> bool {
    exists|i: int| 0 <= i < s.len() && s[i] == LINE_TERMINATOR
}

/// The framing fold. Feeding the bytes `s` into a framer whose buffer already
/// holds `pending` completes the lines `feed(pending, s).0`, in arrival
/// order and with terminators excluded, and leaves `feed(pending, s).1`
/// buffered.
pub open spec fn feed(pending: Seq<u8>, s: Seq<u8>) -> (Seq<Seq<u8>>, Seq<u8>)
    decreases s.len(),
{
    if s.len() == 0 {
        (Seq::<Seq<u8>>::empty(), pending)
    } else if s.first() == LINE_TERMINATOR {
        let rest = feed(Seq::<u8>::empty(), s.drop_first());
        (seq![pending] + rest.0, rest.1)
    } else {
        feed(pending.push(s.first()), s.drop_first())
    }
}

/// Restores terminators: the concatenation of `lines` with one terminator
/// appended to each.
pub open spec fn join_terminated(lines: Seq<Seq<u8>>) -> Seq<u8>
    decreases lines.len(),
{
    if lines.len() == 0 {
        Seq::<u8>::empty()
    } else {
        lines.first() + seq![LINE_TERMINATOR] + join_terminated(lines.drop_first())
    }
}

/// No data loss and no reordering: restoring the terminator after each
/// completed line and appending the retained remainder reassembles exactly
/// the bytes that went in — the previously buffered prefix followed by the
/// new chunk.
pub proof fn lemma_feed_reassembles(pending: Seq<u8>, s: Seq<u8>)
    ensures
        join_terminated(feed(pending, s).0) + feed(pending, s).1 == pending + s,
    decreases s.len(),
{
    if s.len() == 0 {
        assert(join_terminated(feed(pending, s).0) + feed(pending, s).1 =~= pending + s);
    } else if s.first() == LINE_TERMINATOR {
        let rest = feed(Seq::<u8>::empty(), s.drop_first());
        lemma_feed_reassembles(Seq::<u8>::empty(), s.drop_first());
        let lines = seq![pending] + rest.0;
        assert(lines.first() == pending);
        assert(lines.drop_first() =~= rest.0);
        assert(join_terminated(rest.0) + rest.1 =~= s.drop_first());
        assert(join_terminated(lines)
            == lines.first() + seq![LINE_TERMINATOR] + join_terminated(lines.drop_first()));
        let joined = join_terminated(rest.0);
        assert(join_terminated(lines) + rest.1
            =~= (pending + seq![LINE_TERMINATOR]) + (joined + rest.1));
        assert((pending + seq![LINE_TERMINATOR]) + s.drop_first() =~= pending + s);
        assert(join_terminated(lines) + rest.1 =~= pending + s);
    } else {
        lemma_feed_reassembles(pending.push(s.first()), s.drop_first());
        assert(pending.push(s.first()) + s.drop_first() =~= pending + s);
    }
}

/// A chunk without a terminator completes nothing: its bytes are only
/// retained, to be dispatched once a terminator arrives.
pub proof fn lemma_no_terminator_no_lines(pending: Seq<u8>, s: Seq<u8>)
    requires
        !has_terminator(s),
    ensures
        feed(pending, s).0 == Seq::<Seq<u8>>::empty(),
        feed(pending, s).1 == pending + s,
    decreases s.len(),
{
    if s.len() == 0 {
        assert(feed(pending, s).1 =~= pending + s);
    } else {
        assert(s[0] != LINE_TERMINATOR);
        assert(!has_terminator(s.drop_first())) by {
            if has_terminator(s.drop_first()) {
                let i = choose|i: int|
                    0 <= i < s.drop_first().len() && s.drop_first()[i] == LINE_TERMINATOR;
                assert(s[i + 1] == LINE_TERMINATOR);
            }
        }
        lemma_no_terminator_no_lines(pending.push(s.first()), s.drop_first());
        assert(pending.push(s.first()) + s.drop_first() =~= pending + s);
    }
}

/// Framing does not depend on read boundaries: feeding one chunk and then
/// another, carrying the buffer in between, completes exactly the lines of
/// the two chunks fed as one — so a line split across two reads is framed as
/// the single line it is.
pub proof fn lemma_feed_split_read(pending: Seq<u8>, s1: Seq<u8>, s2: Seq<u8>)
    ensures
        feed(pending, s1 + s2).0 == feed(pending, s1).0 + feed(feed(pending, s1).1, s2).0,
        feed(pending, s1 + s2).1 == feed(feed(pending, s1).1, s2).1,
    decreases s1.len(),
{
    if s1.len() == 0 {
        assert(s1 + s2 =~= s2);
        assert(feed(pending, s1).0 + feed(feed(pending, s1).1, s2).0 =~= feed(pending, s2).0);
    } else {
        let whole = s1 + s2;
        assert(whole.first() == s1.first());
        assert(whole.drop_first() =~= s1.drop_first() + s2);
        if s1.first() == LINE_TERMINATOR {
            lemma_feed_split_read(Seq::<u8>::empty(), s1.drop_first(), s2);
            let rest1 = feed(Seq::<u8>::empty(), s1.drop_first());
            assert(feed(pending, whole).0 =~= (seq![pending] + rest1.0) + feed(rest1.1, s2).0);
        } else {
            lemma_feed_split_read(pending.push(s1.first()), s1.drop_first(), s2);
        }
    }
}

/// A completed line never contains a terminator, and neither does the
/// retained remainder: each line is a maximal terminator-free run.
pub proof fn lemma_frames_unterminated(pending: Seq<u8>, s: Seq<u8>)
    requires
        !has_terminator(pending),
    ensures
        forall|i: int|
            0 <= i < feed(pending, s).0.len() ==> !has_terminator(#[trigger] feed(pending, s).0[i]),
        !has_terminator(feed(pending, s).1),
    decreases s.len(),
{
    if s.len() == 0 {
    } else if s.first() == LINE_TERMINATOR {
        lemma_frames_unterminated(Seq::<u8>::empty(), s.drop_first());
        let rest = feed(Seq::<u8>::empty(), s.drop_first());
        let lines = seq![pending] + rest.0;
        assert forall|i: int| 0 <= i < lines.len() implies !has_terminator(#[trigger] lines[i]) by {
            if i == 0 {
                assert(lines[i] == pending);
            } else {
                assert(lines[i] == rest.0[i - 1]);
            }
        }
    } else {
        assert(!has_terminator(pending.push(s.first()))) by {
            if has_terminator(pending.push(s.first())) {
                let k = choose|k: int|
                    0 <= k < pending.push(s.first()).len()
                        && pending.push(s.first())[k] == LINE_TERMINATOR;
                if k < pending.len() {
                    assert(pending[k] == LINE_TERMINATOR);
                } else {
                    assert(pending.push(s.first())[k] == s.first());
                }
            }
        }
        lemma_frames_unterminated(pending.push(s.first()), s.drop_first());
    }
}

/// Accumulates raw channel bytes and splits out complete lines. The buffer
/// holds the bytes of the current, still unterminated line.
pub struct LineFramer {
    buf: Vec<u8>,
}

impl View for LineFramer {
    type V = Seq<u8>;

    closed spec fn view(&self) -> Seq<u8> {
        self.buf@
    }
}

impl LineFramer {
    /// The buffer never holds a terminator: a terminator always completes a
    /// line at once.
    pub open spec fn wf(self) -> bool {
        !has_terminator(self@)
    }

    /// A fresh framer with an empty buffer.
    pub fn new() -> (framer: LineFramer)
        ensures
            framer.wf(),
            framer@ == Seq::<u8>::empty(),
    {
        LineFramer { buf: Vec::new() }
    }

    /// The number of bytes of the partial line retained so far.
    pub fn pending_len(&self) -> (n: usize)
        ensures
            n == self@.len(),
    {
        self.buf.len()
    }

    /// Feeds a chunk of bytes read from the channel. Returns the lines the
    /// chunk completes, in arrival order, terminators excluded; the trailing
    /// partial line stays buffered.
    pub fn push_bytes(&mut self, chunk: &[u8]) -> (lines: Vec<Vec<u8>>)
        requires
            old(self).wf(),
        ensures
            final(self).wf(),
            lines@.map_values(|l: Vec<u8>| l@) == feed(old(self)@, chunk@).0,
            final(self)@ == feed(old(self)@, chunk@).1,
    {
        let ghost all = feed(self@, chunk@);
        let mut lines: Vec<Vec<u8>> = Vec::new();
        let mut i: usize = 0;
        proof {
            assert(chunk@.subrange(0, chunk@.len() as int) =~= chunk@);
            assert(lines@.map_values(|l: Vec<u8>| l@) =~= Seq::<Seq<u8>>::empty());
        }
        while i < chunk.len()
            invariant
                i <= chunk@.len(),
                !has_terminator(self@),
                all == feed(old(self)@, chunk@),
                all.0 =~= lines@.map_values(|l: Vec<u8>| l@)
                    + feed(self@, chunk@.subrange(i as int, chunk@.len() as int)).0,
                all.1 == feed(self@, chunk@.subrange(i as int, chunk@.len() as int)).1,
            decreases chunk@.len() - i,
        {
            let ghost pre = self@;
            let ghost tail = chunk@.subrange(i as int, chunk@.len() as int);
            proof {
                assert(tail.first() == chunk@[i as int]);
                assert(tail.drop_first() =~= chunk@.subrange(i as int + 1, chunk@.len() as int));
            }
            let b: u8 = chunk[i];
            if b == LINE_TERMINATOR {
                let mut line: Vec<u8> = Vec::new();
                core::mem::swap(&mut line, &mut self.buf);
                lines.push(line);
                proof {
                    assert(lines@.map_values(|l: Vec<u8>| l@)
                        =~= lines@.drop_last().map_values(|l: Vec<u8>| l@).push(line@));
                }
            } else {
                self.buf.push(b);
                proof {
                    assert(self@ == pre.push(b));
                    assert(!has_terminator(self@)) by {
                        if has_terminator(self@) {
                            let k = choose|k: int|
                                0 <= k < self@.len() && self@[k] == LINE_TERMINATOR;
                            if k < pre.len() {
                                assert(pre[k] == LINE_TERMINATOR);
                            } else {
                                assert(self@[k] == b);
                            }
                        }
                    }
                }
            }
            i = i + 1;
        }
        proof {
            assert(chunk@.subrange(i as int, chunk@.len() as int) =~= Seq::<u8>::empty());
            assert(lines@.map_values(|l: Vec<u8>| l@) =~= all.0);
        }
        lines
    }
}

} // verus!
