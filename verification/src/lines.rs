//! Splitting an incrementally delivered byte stream into lines.
//!
//! A [`LineReader`] consumes the byte chunks of a response body one at a
//! time, in any sizes the transport happens to deliver, and hands back the
//! complete lines they contain, with the terminating `\n` stripped. Bytes
//! after the last newline are kept as the partial line and joined with the
//! next chunk, so a line that spans several chunks is reconstructed intact.
//! At end of input, [`LineReader::finish`] surfaces a non-empty trailing
//! partial line as the final line; an empty one simply ends the sequence.
//!
//! `\n` is the only delimiter: a `\r` before it is treated as part of the
//! line's text, matching the observed behaviour of the wire format handled
//! here.

use vstd::prelude::*;

use crate::NEWLINE;
use crate::copy_bytes;

verus! {

/// Whether `l` is free of newline bytes, as every emitted line is.
pub open spec fn no_newline(l: Seq<u8>) -> bool {
    forall|i: int| 0 <= i < l.len() ==> l[i] != NEWLINE
}

/// The bytes that a sequence of complete lines followed by a partial line
/// `rest` came from: each line with its `\n` terminator restored, then
/// `rest`.
pub open spec fn joined_lines(lines: Seq<Seq<u8>>, rest: Seq<u8>) -> Seq<u8>
    decreases lines.len(),
{
    if lines.len() == 0 {
        rest
    } else {
        lines[0] + seq![NEWLINE] + joined_lines(lines.drop_first(), rest)
    }
}

proof fn lemma_joined_lines_rest(lines: Seq<Seq<u8>>, rest: Seq<u8>)
    ensures
        joined_lines(lines, rest) == joined_lines(lines, Seq::empty()) + rest,
    decreases lines.len(),
{
    if lines.len() == 0 {
        assert(joined_lines(lines, rest) =~= joined_lines(lines, Seq::empty()) + rest);
    } else {
        lemma_joined_lines_rest(lines.drop_first(), rest);
        assert(joined_lines(lines, rest) =~= joined_lines(lines, Seq::empty()) + rest);
    }
}

proof fn lemma_joined_lines_push(lines: Seq<Seq<u8>>, line: Seq<u8>, rest: Seq<u8>)
    ensures
        joined_lines(lines.push(line), rest) == joined_lines(lines, line + seq![NEWLINE] + rest),
    decreases lines.len(),
{
    let p = lines.push(line);
    if lines.len() == 0 {
        assert(p.drop_first() =~= Seq::<Seq<u8>>::empty());
        assert(joined_lines(p.drop_first(), rest) == rest);
        assert(p[0] == line);
        assert(joined_lines(p, rest) == line + seq![NEWLINE] + rest);
        assert(joined_lines(lines, line + seq![NEWLINE] + rest) == line + seq![NEWLINE] + rest);
    } else {
        assert(p.drop_first() =~= lines.drop_first().push(line));
        lemma_joined_lines_push(lines.drop_first(), line, rest);
        assert(p[0] == lines[0]);
        assert(joined_lines(p, rest) == p[0] + seq![NEWLINE] + joined_lines(p.drop_first(), rest));
        assert(joined_lines(lines, line + seq![NEWLINE] + rest) == lines[0] + seq![NEWLINE]
            + joined_lines(lines.drop_first(), line + seq![NEWLINE] + rest));
    }
}

/// The decomposition into newline-free lines and a newline-free remainder
/// is unique: any two such decompositions of the same bytes agree. Together
/// with the contract of [`LineReader::push_chunk`] this says that the lines
/// a reader produces depend only on the bytes consumed so far, never on how
/// the transport happened to chunk them.
pub proof fn lemma_lines_unique(l1: Seq<Seq<u8>>, r1: Seq<u8>, l2: Seq<Seq<u8>>, r2: Seq<u8>)
    requires
        forall|i: int| 0 <= i < l1.len() ==> no_newline(#[trigger] l1[i]),
        forall|i: int| 0 <= i < l2.len() ==> no_newline(#[trigger] l2[i]),
        no_newline(r1),
        no_newline(r2),
        joined_lines(l1, r1) == joined_lines(l2, r2),
    ensures
        l1 == l2,
        r1 == r2,
    decreases l1.len(),
{
    if l1.len() == 0 && l2.len() == 0 {
    } else if l1.len() == 0 {
        assert(joined_lines(l2, r2) == l2[0] + seq![NEWLINE] + joined_lines(l2.drop_first(), r2));
        assert(r1[l2[0].len() as int] == NEWLINE);
        assert(false);
    } else if l2.len() == 0 {
        assert(joined_lines(l1, r1) == l1[0] + seq![NEWLINE] + joined_lines(l1.drop_first(), r1));
        assert(r2[l1[0].len() as int] == NEWLINE);
        assert(false);
    } else {
        let a = l1[0];
        let b = l2[0];
        let j = joined_lines(l1, r1);
        let t1 = joined_lines(l1.drop_first(), r1);
        let t2 = joined_lines(l2.drop_first(), r2);
        assert(j == a + seq![NEWLINE] + t1);
        assert(j == b + seq![NEWLINE] + t2);
        if a.len() < b.len() {
            assert(j[a.len() as int] == NEWLINE);
            assert(j[a.len() as int] == b[a.len() as int]);
            assert(false);
        }
        if b.len() < a.len() {
            assert(j[b.len() as int] == NEWLINE);
            assert(j[b.len() as int] == a[b.len() as int]);
            assert(false);
        }
        assert(forall|i: int| 0 <= i < a.len() ==> a[i] == j[i]);
        assert(forall|i: int| 0 <= i < b.len() ==> b[i] == j[i]);
        assert(a =~= b);
        assert(t1 =~= j.subrange(a.len() as int + 1, j.len() as int));
        assert(t2 =~= j.subrange(b.len() as int + 1, j.len() as int));
        lemma_lines_unique(l1.drop_first(), r1, l2.drop_first(), r2);
        assert forall|i: int| 0 <= i < l1.len() implies l1[i] == l2[i] by {
            if i > 0 {
                assert(l1[i] == l1.drop_first()[i - 1]);
                assert(l2[i] == l2.drop_first()[i - 1]);
            }
        }
        assert(l1 =~= l2);
    }
}

/// Adapter from byte chunks to text lines: buffers the bytes after the last
/// newline seen, so lines split across chunks come out whole.
pub struct LineReader {
    partial: Vec<u8>,
}

impl View for LineReader {
    type V = Seq<u8>;

    /// The buffered partial line: bytes received but not yet terminated.
    closed spec fn view(&self) -> Seq<u8> {
        self.partial@
    }
}

impl LineReader {
    /// The buffered partial line never contains a newline.
    pub open spec fn wf(&self) -> bool {
        no_newline(self@)
    }

    /// A reader with nothing buffered.
    pub fn new() -> (r: Self)
        ensures
            r@ == Seq::<u8>::empty(),
            r.wf(),
    {
        LineReader { partial: Vec::new() }
    }

    /// Consumes one chunk and returns the complete lines it closes, in
    /// order, each stripped of its terminating newline. Everything the
    /// reader has consumed is accounted for: restoring the terminators of
    /// the returned lines and appending the new partial line reproduces the
    /// old partial line followed by the chunk.
    pub fn push_chunk(&mut self, chunk: &Vec<u8>) -> (lines: Vec<Vec<u8>>)
        requires
            old(self).wf(),
        ensures
            final(self).wf(),
            forall|i: int| 0 <= i < lines@.len() ==> no_newline(#[trigger] lines.deep_view()[i]),
            joined_lines(lines.deep_view(), final(self)@) == old(self)@ + chunk@,
    {
        let mut out: Vec<Vec<u8>> = Vec::new();
        let mut i: usize = 0;
        proof {
            assert(joined_lines(out.deep_view(), Seq::empty()) + self@ =~= old(self)@
                + chunk@.subrange(0, 0));
        }
        while i < chunk.len()
            invariant
                i <= chunk@.len(),
                self.wf(),
                forall|k: int| 0 <= k < out@.len() ==> no_newline(#[trigger] out.deep_view()[k]),
                joined_lines(out.deep_view(), Seq::empty()) + self@ == old(self)@ + chunk@.subrange(
                    0,
                    i as int,
                ),
            decreases chunk@.len() - i,
        {
            let b = chunk[i];
            let ghost prev_out = out.deep_view();
            let ghost prev_partial = self@;
            if b == NEWLINE {
                let line = copy_bytes(&self.partial);
                self.partial.clear();
                out.push(line);
                proof {
                    assert(out.deep_view() =~~= prev_out.push(prev_partial));
                    lemma_joined_lines_push(prev_out, prev_partial, Seq::empty());
                    lemma_joined_lines_rest(prev_out, prev_partial + seq![NEWLINE] + Seq::empty());
                    assert(joined_lines(out.deep_view(), Seq::empty()) == joined_lines(
                        prev_out,
                        Seq::empty(),
                    ) + (prev_partial + seq![NEWLINE] + Seq::empty()));
                    assert(self@ =~= Seq::<u8>::empty());
                    assert(joined_lines(out.deep_view(), Seq::empty()) + self@ =~= (joined_lines(
                        prev_out,
                        Seq::empty(),
                    ) + prev_partial).push(NEWLINE));
                    assert((old(self)@ + chunk@.subrange(0, i as int)).push(b) =~= old(self)@
                        + chunk@.subrange(0, i + 1));
                    assert(joined_lines(out.deep_view(), Seq::empty()) + self@ == old(self)@
                        + chunk@.subrange(0, i + 1));
                }
            } else {
                self.partial.push(b);
                proof {
                    assert(joined_lines(out.deep_view(), Seq::empty()) + self@ =~= (joined_lines(
                        prev_out,
                        Seq::empty(),
                    ) + prev_partial).push(b));
                    assert((old(self)@ + chunk@.subrange(0, i as int)).push(b) =~= old(self)@
                        + chunk@.subrange(0, i + 1));
                    assert(joined_lines(out.deep_view(), Seq::empty()) + self@ == old(self)@
                        + chunk@.subrange(0, i + 1));
                }
            }
            i += 1;
        }
        proof {
            assert(chunk@.subrange(0, chunk@.len() as int) =~= chunk@);
            lemma_joined_lines_rest(out.deep_view(), self@);
        }
        out
    }

    /// Ends the stream: a non-empty buffered partial line comes out as the
    /// final, unterminated line; an empty buffer yields nothing. The reader
    /// is left empty either way, so asking again yields nothing, as a
    /// single-pass sequence must.
    pub fn finish(&mut self) -> (r: Option<Vec<u8>>)
        requires
            old(self).wf(),
        ensures
            final(self)@ == Seq::<u8>::empty(),
            final(self).wf(),
            old(self)@.len() == 0 ==> r is None,
            old(self)@.len() > 0 ==> (r matches Some(l) && l@ == old(self)@ && no_newline(l@)),
    {
        if self.partial.len() == 0 {
            None
        } else {
            let line = copy_bytes(&self.partial);
            self.partial.clear();
            Some(line)
        }
    }
}

} // verus!
