//! Line framing over a chunked byte stream: bytes go in chunk by chunk, whole
//! lines come out, and an unterminated tail waits for the next chunk.

use vstd::prelude::*;

verus! {

/// The line feed that ends a line.
pub const LINE_FEED: u8 = 0x0A;

/// The carriage return that may precede a line feed.
pub const CARRIAGE_RETURN: u8 = 0x0D;

/// Whether `s` holds no line feed.
pub open spec fn newline_free(s: Seq<u8>) -> bool {
    forall|i: int| 0 <= i < s.len() ==> #[trigger] s[i] != LINE_FEED
}

/// Index of the first line feed in `s`, or `s.len()` if there is none.
pub open spec fn first_newline(s: Seq<u8>) -> int
    decreases s.len(),
{
    if s.len() == 0 || s[0] == LINE_FEED {
        0
    } else {
        1 + first_newline(s.drop_first())
    }
}

/// A line without the carriage return that came before its line feed.
pub open spec fn strip_cr(line: Seq<u8>) -> Seq<u8> {
    if line.len() > 0 && line.last() == CARRIAGE_RETURN {
        line.drop_last()
    } else {
        line
    }
}

/// The terminated lines of `s`, in order, each without its terminator.
pub open spec fn complete_lines(s: Seq<u8>) -> Seq<Seq<u8>>
    decreases s.len(),
{
    let at = first_newline(s);
    if 0 <= at < s.len() {
        seq![strip_cr(s.take(at))] + complete_lines(s.skip(at + 1))
    } else {
        Seq::empty()
    }
}

/// What follows the last line feed of `s` (all of `s` if it has none).
pub open spec fn remainder(s: Seq<u8>) -> Seq<u8>
    decreases s.len(),
{
    let at = first_newline(s);
    if 0 <= at < s.len() {
        remainder(s.skip(at + 1))
    } else {
        s
    }
}

/// The line that an unterminated tail makes when the stream ends: the tail
/// as it stands, or nothing if it is empty.
pub open spec fn final_lines(tail: Seq<u8>) -> Seq<Seq<u8>> {
    if tail.len() > 0 {
        seq![tail]
    } else {
        Seq::empty()
    }
}

/// Every line of a finished stream: the terminated ones, then the tail.
pub open spec fn all_lines(s: Seq<u8>) -> Seq<Seq<u8>> {
    complete_lines(s) + final_lines(remainder(s))
}

/// `first_newline` is in range, skips no line feed and stops on one.
pub proof fn lemma_first_newline(s: Seq<u8>)
    ensures
        0 <= first_newline(s) <= s.len(),
        newline_free(s.take(first_newline(s))),
        first_newline(s) < s.len() ==> s[first_newline(s)] == LINE_FEED,
    decreases s.len(),
{
    if s.len() == 0 || s[0] == LINE_FEED {
    } else {
        let rest = s.drop_first();
        lemma_first_newline(rest);
        let at = first_newline(s);
        assert forall|i: int| 0 <= i < s.take(at).len() implies #[trigger] s.take(at)[i]
            != LINE_FEED by {
            if i > 0 {
                assert(s.take(at)[i] == rest.take(at - 1)[i - 1]);
            }
        }
    }
}

/// A line feed at `at` with none before it is the first one.
pub proof fn lemma_first_newline_at(s: Seq<u8>, at: int)
    requires
        0 <= at < s.len(),
        s[at] == LINE_FEED,
        newline_free(s.take(at)),
    ensures
        first_newline(s) == at,
    decreases at,
{
    if at > 0 {
        assert(s.take(at)[0] == s[0]);
        let rest = s.drop_first();
        assert forall|i: int| 0 <= i < rest.take(at - 1).len() implies #[trigger] rest.take(
            at - 1,
        )[i] != LINE_FEED by {
            assert(rest.take(at - 1)[i] == s.take(at)[i + 1]);
        }
        lemma_first_newline_at(rest, at - 1);
    }
}

/// Bytes without a line feed hold no terminated line and are their own tail.
pub proof fn lemma_newline_free(s: Seq<u8>)
    requires
        newline_free(s),
    ensures
        first_newline(s) == s.len(),
        complete_lines(s) == Seq::<Seq<u8>>::empty(),
        remainder(s) == s,
    decreases s.len(),
{
    if s.len() > 0 {
        let rest = s.drop_first();
        assert forall|i: int| 0 <= i < rest.len() implies #[trigger] rest[i] != LINE_FEED by {
            assert(rest[i] == s[i + 1]);
        }
        lemma_newline_free(rest);
    }
}

/// The tail holds no line feed.
pub proof fn lemma_remainder_newline_free(s: Seq<u8>)
    ensures
        newline_free(remainder(s)),
    decreases s.len(),
{
    lemma_first_newline(s);
    let at = first_newline(s);
    if at < s.len() {
        lemma_remainder_newline_free(s.skip(at + 1));
    } else {
        assert(s.take(at) =~= s);
    }
}

/// Framing is incremental: the lines of `a + b` are those of `a`, then those
/// that `b` completes after the tail of `a`; the tails agree too.
pub proof fn lemma_lines_concat(a: Seq<u8>, b: Seq<u8>)
    ensures
        complete_lines(a + b) == complete_lines(a) + complete_lines(remainder(a) + b),
        remainder(a + b) == remainder(remainder(a) + b),
    decreases a.len(),
{
    lemma_first_newline(a);
    let at = first_newline(a);
    if at < a.len() {
        assert forall|i: int| 0 <= i < (a + b).take(at).len() implies #[trigger] (a + b).take(
            at,
        )[i] != LINE_FEED by {
            assert((a + b).take(at)[i] == a.take(at)[i]);
        }
        lemma_first_newline_at(a + b, at);
        assert((a + b).take(at) =~= a.take(at));
        assert((a + b).skip(at + 1) =~= a.skip(at + 1) + b);
        lemma_lines_concat(a.skip(at + 1), b);
        assert(complete_lines(a + b) =~= complete_lines(a) + complete_lines(remainder(a) + b));
    } else {
        assert(a.take(at) =~= a);
        lemma_newline_free(a);
        assert(complete_lines(a) + complete_lines(a + b) =~= complete_lines(a + b));
    }
}

/// The views of a run of byte vectors.
pub open spec fn lines_view(lines: Seq<Vec<u8>>) -> Seq<Seq<u8>> {
    Seq::new(lines.len(), |i: int| lines[i]@)
}

/// Reassembles lines from chunks of bytes.
pub struct LineBuffer {
    pending: Vec<u8>,
}

impl View for LineBuffer {
    type V = Seq<u8>;

    /// The bytes received after the last line feed.
    closed spec fn view(&self) -> Seq<u8> {
        self.pending@
    }
}

impl LineBuffer {
    /// A buffer with nothing pending.
    pub fn new() -> (out: LineBuffer)
        ensures
            out@ == Seq::<u8>::empty(),
    {
        LineBuffer { pending: Vec::new() }
    }

    /// Number of pending bytes.
    pub fn pending_len(&self) -> (n: usize)
        ensures
            n == self@.len(),
    {
        self.pending.len()
    }

    /// Takes in one chunk and hands out the lines that it completes; what
    /// follows the last line feed stays pending.
    pub fn push(&mut self, chunk: &[u8]) -> (lines: Vec<Vec<u8>>)
        ensures
            lines_view(lines@) == complete_lines(old(self)@ + chunk@),
            final(self)@ == remainder(old(self)@ + chunk@),
    {
        let mut buf: Vec<u8> = Vec::new();
        std::mem::swap(&mut buf, &mut self.pending);
        assert(buf@ == old(self)@);
        buf.extend_from_slice(chunk);
        let ghost all = buf@;
        assert(all == old(self)@ + chunk@);
        let mut lines: Vec<Vec<u8>> = Vec::new();
        let mut current: Vec<u8> = Vec::new();
        let ghost mut start: int = 0;
        let mut k: usize = 0;
        proof {
            assert(all.skip(0) =~= all);
            assert(lines_view(lines@) =~= Seq::<Seq<u8>>::empty());
            assert(lines_view(lines@) + complete_lines(all) =~= complete_lines(all));
            assert(current@ =~= all.subrange(0, 0));
        }
        while k < buf.len()
            invariant
                buf@ == all,
                0 <= start <= k <= all.len(),
                current@ == all.subrange(start, k as int),
                newline_free(current@),
                complete_lines(all) == lines_view(lines@) + complete_lines(all.skip(start)),
                remainder(all) == remainder(all.skip(start)),
            decreases all.len() - k,
        {
            let b = buf[k];
            if b == LINE_FEED {
                proof {
                    let rest = all.skip(start);
                    assert(rest.take(k - start) =~= current@);
                    lemma_first_newline_at(rest, k - start);
                    assert(rest.skip(k - start + 1) =~= all.skip(k + 1));
                }
                let n = current.len();
                if n > 0 && current[n - 1] == CARRIAGE_RETURN {
                    current.pop();
                    assert(current@ =~= strip_cr(all.subrange(start, k as int)));
                }
                proof {
                    assert(lines_view(lines@.push(current)) =~= lines_view(lines@).push(current@));
                    assert(lines_view(lines@).push(current@) + complete_lines(all.skip(k + 1))
                        =~= lines_view(lines@) + (seq![current@] + complete_lines(
                        all.skip(k + 1),
                    )));
                    start = k + 1;
                }
                lines.push(current);
                current = Vec::new();
                assert(current@ =~= all.subrange(start, k + 1));
            } else {
                current.push(b);
                assert(current@ =~= all.subrange(start, k + 1));
            }
            k += 1;
        }
        proof {
            assert(all.skip(start) =~= current@);
            lemma_newline_free(current@);
            assert(lines_view(lines@) + Seq::<Seq<u8>>::empty() =~= lines_view(lines@));
            assert(complete_lines(all) == lines_view(lines@));
            assert(remainder(all) == current@);
        }
        self.pending = current;
        lines
    }

    /// Hands out the pending bytes as the stream's last line, if there are
    /// any, and leaves nothing pending.
    pub fn finish(&mut self) -> (lines: Vec<Vec<u8>>)
        ensures
            lines_view(lines@) == final_lines(old(self)@),
            final(self)@ == Seq::<u8>::empty(),
    {
        let mut tail: Vec<u8> = Vec::new();
        std::mem::swap(&mut tail, &mut self.pending);
        let mut lines: Vec<Vec<u8>> = Vec::new();
        if tail.len() > 0 {
            proof {
                assert(lines_view(lines@.push(tail)) =~= seq![tail@]);
            }
            lines.push(tail);
        } else {
            assert(lines_view(lines@) =~= Seq::<Seq<u8>>::empty());
        }
        lines
    }

    /// Drops the pending bytes.
    pub fn discard(&mut self)
        ensures
            final(self)@ == Seq::<u8>::empty(),
    {
        self.pending = Vec::new();
    }
}

} // verus!
