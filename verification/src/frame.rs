//! The framed reader: an accumulation buffer over a byte stream, with
//! extraction of the three protocol units — a CRLF-terminated line, a
//! folded header block, and a dot-terminated body.
//!
//! All extraction is a pure function of the bytes accumulated so far.
//! The caller feeds bytes as they arrive (in chunks of any size, down to
//! one byte at a time) and retries an extraction whenever it reports
//! that more input is needed.  Each scan resumes where the previous one
//! stopped, so a unit is never scanned for twice over the same bytes.

use vstd::prelude::*;

use crate::scan::{
    find_crlf, find_terminator, is_crlf_at, is_terminator_at, no_crlf_before,
    no_terminator_before, sub_bytes, utf8_to_string, CR, DOT, LF,
};
use vstd::utf8::valid_utf8;

verus! {

/// True when a line could end at position `i` of `s`: a complete CRLF
/// pair closes the previous line at `i - 2`, and the byte at `i` does
/// not indent a folded continuation.
pub open spec fn is_boundary(s: Seq<u8>, i: int) -> bool {
    &&& 2 <= i < s.len()
    &&& is_crlf_at(s, i - 2)
    &&& s[i] != 32u8
    &&& s[i] != 9u8
}

/// True when no block boundary lies before position `n` of `s`.
pub open spec fn no_boundary_before(s: Seq<u8>, n: int) -> bool {
    forall|j: int| 0 <= j < n ==> !is_boundary(s, j)
}

/// True when `s` holds a complete CRLF pair.
pub open spec fn line_ready(s: Seq<u8>) -> bool {
    exists|i: int| is_crlf_at(s, i)
}

/// The position of the first CRLF pair in `s`.
pub open spec fn first_crlf_pos(s: Seq<u8>) -> int {
    choose|i: int| is_crlf_at(s, i) && no_crlf_before(s, i)
}

/// True when `s` holds the body terminator.
pub open spec fn term_ready(s: Seq<u8>) -> bool {
    exists|i: int| is_terminator_at(s, i)
}

/// The position of the first body terminator in `s`.
pub open spec fn first_term_pos(s: Seq<u8>) -> int {
    choose|i: int| is_terminator_at(s, i) && no_terminator_before(s, i)
}

/// True when `s` holds a block boundary.
pub open spec fn block_ready(s: Seq<u8>) -> bool {
    exists|i: int| is_boundary(s, i)
}

/// The position of the first block boundary in `s`.
pub open spec fn first_boundary_pos(s: Seq<u8>) -> int {
    choose|i: int| is_boundary(s, i) && no_boundary_before(s, i)
}

/// Pins down `first_crlf_pos`: a first CRLF pair at `i` is the one the
/// spec speaks of.
pub proof fn lemma_first_crlf_pos(s: Seq<u8>, i: int)
    requires
        is_crlf_at(s, i),
        no_crlf_before(s, i),
    ensures
        line_ready(s),
        first_crlf_pos(s) == i,
{
    let w = first_crlf_pos(s);
    assert(is_crlf_at(s, w) && no_crlf_before(s, w));
    if w < i {
        assert(!is_crlf_at(s, w));
    }
    if i < w {
        assert(!is_crlf_at(s, i));
    }
}

/// Pins down `first_term_pos` in the same way.
pub proof fn lemma_first_term_pos(s: Seq<u8>, i: int)
    requires
        is_terminator_at(s, i),
        no_terminator_before(s, i),
    ensures
        term_ready(s),
        first_term_pos(s) == i,
{
    let w = first_term_pos(s);
    assert(is_terminator_at(s, w) && no_terminator_before(s, w));
    if w < i {
        assert(!is_terminator_at(s, w));
    }
    if i < w {
        assert(!is_terminator_at(s, i));
    }
}

/// Pins down `first_boundary_pos` in the same way.
pub proof fn lemma_first_boundary_pos(s: Seq<u8>, i: int)
    requires
        is_boundary(s, i),
        no_boundary_before(s, i),
    ensures
        block_ready(s),
        first_boundary_pos(s) == i,
{
    let w = first_boundary_pos(s);
    assert(is_boundary(s, w) && no_boundary_before(s, w));
    if w < i {
        assert(!is_boundary(s, w));
    }
    if i < w {
        assert(!is_boundary(s, i));
    }
}

/// The outcome of one attempt to take a line out of the buffer.
pub enum LineStep {
    /// A complete line was taken; its bytes are valid UTF-8.
    Line(Vec<u8>),
    /// A complete line was taken but its bytes are not valid UTF-8.
    Invalid,
    /// No complete line is buffered yet; feed more bytes.
    NeedMore,
}

/// What `try_line` guarantees, as a relation between the buffered bytes
/// before the call, the buffered bytes after it, and the outcome.
pub open spec fn line_step_post(pre: Seq<u8>, post: Seq<u8>, r: LineStep) -> bool {
    if line_ready(pre) {
        let i = first_crlf_pos(pre);
        &&& post == pre.skip(i + 2)
        &&& match r {
            LineStep::Line(line) => valid_utf8(pre.take(i)) && line@ == pre.take(i),
            LineStep::Invalid => !valid_utf8(pre.take(i)),
            LineStep::NeedMore => false,
        }
    } else {
        &&& r is NeedMore
        &&& post == pre
    }
}

/// True when the line starting at boundary `i` begins with the dot of a
/// possible body terminator, but the bytes that decide between an
/// ordinary line and the terminator have not arrived yet.
pub open spec fn boundary_undecided(s: Seq<u8>, i: int) -> bool {
    s[i] == 46u8 && (i + 1 == s.len() || (i + 2 == s.len() && s[i + 1] == 13u8))
}

/// What `try_folded_block` guarantees.  A block ends at the first line
/// that does not continue the previous one.  When that line begins the
/// body terminator, the block is handed out but the terminator is left
/// in the buffer, CRLF included, for the body reader to find.
pub open spec fn block_step_post(pre: Seq<u8>, post: Seq<u8>, r: Option<Vec<u8>>) -> bool {
    if block_ready(pre) {
        let i = first_boundary_pos(pre);
        if boundary_undecided(pre, i) {
            &&& r is None
            &&& post == pre
        } else if pre[i] == 46u8 && is_crlf_at(pre, i + 1) {
            &&& (match r {
                Some(b) => b@ == pre.take(i - 2),
                None => false,
            })
            &&& post == pre.skip(i - 2)
        } else {
            &&& (match r {
                Some(b) => b@ == pre.take(i - 2),
                None => false,
            })
            &&& post == pre.skip(i)
        }
    } else {
        &&& r is None
        &&& post == pre
    }
}

/// What `try_body` guarantees: the first terminator ends the body, the
/// returned bytes exclude it and contain no terminator of their own,
/// and everything after it stays buffered.
pub open spec fn body_step_post(pre: Seq<u8>, post: Seq<u8>, r: Option<Vec<u8>>) -> bool {
    if term_ready(pre) {
        let i = first_term_pos(pre);
        &&& (match r {
            Some(b) => b@ == pre.take(i) && (forall|j: int| !is_terminator_at(b@, j)),
            None => false,
        })
        &&& post == pre.skip(i + 5)
    } else {
        &&& r is None
        &&& post == pre
    }
}

/// The accumulation buffer of one connection, with the resume offsets
/// that keep each scan from re-reading bytes it has already rejected.
pub struct FrameBuffer {
    buf: Vec<u8>,
    line_hint: usize,
    block_hint: usize,
    body_hint: usize,
}

impl View for FrameBuffer {
    type V = Seq<u8>;

    closed spec fn view(&self) -> Seq<u8> {
        self.buf@
    }
}

impl FrameBuffer {
    /// The resume offsets never point past anything they have not
    /// cleared: no delimiter starts below an offset, and each offset
    /// stays low enough that bytes fed later cannot complete a
    /// delimiter below it.
    pub closed spec fn wf(&self) -> bool {
        &&& no_crlf_before(self.buf@, self.line_hint as int)
        &&& (self.line_hint == 0 || self.line_hint + 1 <= self.buf@.len())
        &&& no_boundary_before(self.buf@, self.block_hint as int)
        &&& self.block_hint <= self.buf@.len()
        &&& no_terminator_before(self.buf@, self.body_hint as int)
        &&& (self.body_hint == 0 || self.body_hint + 4 <= self.buf@.len())
    }

    /// An empty buffer.
    pub fn new() -> (fb: FrameBuffer)
        ensures
            fb.wf(),
            fb@ == Seq::<u8>::empty(),
    {
        FrameBuffer { buf: Vec::new(), line_hint: 0, block_hint: 0, body_hint: 0 }
    }

    /// How many bytes are buffered.
    pub fn buffered(&self) -> (n: usize)
        ensures
            n == self@.len(),
    {
        self.buf.len()
    }

    /// Appends one chunk of stream input to the buffer.  Extraction
    /// afterwards sees exactly the concatenation, so it cannot depend on
    /// how the stream split the bytes into chunks.
    pub fn feed(&mut self, chunk: &[u8])
        requires
            old(self).wf(),
        ensures
            final(self).wf(),
            final(self)@ == old(self)@ + chunk@,
    {
        let ghost pre = self.buf@;
        self.buf.extend_from_slice(chunk);
        proof {
            let post = self.buf@;
            assert(forall|j: int| 0 <= j < pre.len() ==> post[j] == pre[j]);
            assert forall|j: int| 0 <= j < self.line_hint as int implies !is_crlf_at(post, j) by {
                if self.line_hint > 0 {
                    assert(j + 2 <= pre.len());
                    assert(!is_crlf_at(pre, j));
                }
            }
            assert forall|j: int| 0 <= j < self.body_hint as int implies !is_terminator_at(
                post,
                j,
            ) by {
                if self.body_hint > 0 {
                    assert(j + 5 <= pre.len());
                    assert(!is_terminator_at(pre, j));
                }
            }
            assert forall|j: int| 0 <= j < self.block_hint as int implies !is_boundary(post, j) by {
                assert(j < pre.len());
                assert(!is_boundary(pre, j));
                if is_boundary(post, j) {
                    assert(j - 2 + 2 <= pre.len());
                    assert(is_crlf_at(pre, j - 2));
                }
            }
        }
    }

    /// Drops the first `k` buffered bytes and restarts every scan.
    fn consume(&mut self, k: usize)
        requires
            old(self).wf(),
            k <= old(self)@.len(),
        ensures
            final(self).wf(),
            final(self)@ == old(self)@.skip(k as int),
    {
        let n: usize = self.buf.len();
        let rest = sub_bytes(&self.buf, k, n);
        self.buf = rest;
        self.line_hint = 0;
        self.block_hint = 0;
        self.body_hint = 0;
    }

    /// Takes one CRLF-terminated line out of the buffer, if a complete
    /// one is there.  The line excludes the CRLF; both are consumed.
    pub fn try_line(&mut self) -> (r: LineStep)
        requires
            old(self).wf(),
        ensures
            final(self).wf(),
            line_step_post(old(self)@, final(self)@, r),
    {
        let ghost pre = self.buf@;
        match find_crlf(&self.buf, self.line_hint) {
            Some(i) => {
                let n: usize = self.buf.len();
                proof {
                    lemma_first_crlf_pos(pre, i as int);
                    assert(i + 2 <= n);
                }
                let line = sub_bytes(&self.buf, 0, i);
                self.consume(i + 2);
                proof {
                    assert(line@ =~= pre.take(i as int));
                }
                match utf8_to_string(line.as_slice()) {
                    Some(_) => LineStep::Line(line),
                    None => LineStep::Invalid,
                }
            },
            None => {
                let n: usize = self.buf.len();
                if n >= 1 {
                    self.line_hint = n - 1;
                }
                proof {
                    if line_ready(pre) {
                        let e = choose|i: int| is_crlf_at(pre, i);
                        assert(is_crlf_at(pre, e));
                        assert(false);
                    }
                }
                LineStep::NeedMore
            },
        }
    }

    /// Takes one folded header block out of the buffer, if the line
    /// after it has begun.  Continuation lines (indented with a space or
    /// tab) stay inside the block; the block keeps its interior CRLFs
    /// and loses the final one.
    pub fn try_folded_block(&mut self) -> (r: Option<Vec<u8>>)
        requires
            old(self).wf(),
        ensures
            final(self).wf(),
            block_step_post(old(self)@, final(self)@, r),
    {
        let ghost pre = self.buf@;
        let n: usize = self.buf.len();
        let mut i: usize = self.block_hint;
        loop
            invariant
                self == old(self),
                self.wf(),
                pre == self.buf@,
                n == pre.len(),
                i <= n,
                no_boundary_before(pre, i as int),
            decreases n - i,
        {
            if i >= n {
                proof {
                    if block_ready(pre) {
                        let e = choose|k: int| is_boundary(pre, k);
                        assert(is_boundary(pre, e));
                        assert(false);
                    }
                }
                self.block_hint = n;
                return None;
            }
            if i >= 2 && self.buf[i - 2] == CR && self.buf[i - 1] == LF && self.buf[i] != 32
                && self.buf[i] != 9 {
                proof {
                    lemma_first_boundary_pos(pre, i as int);
                }
                if self.buf[i] == DOT && (i + 1 == n || (i + 2 == n && self.buf[i + 1] == CR)) {
                    // Cannot yet tell a dot-starting line from the body
                    // terminator: wait for the deciding bytes.
                    self.block_hint = i;
                    return None;
                }
                let block = sub_bytes(&self.buf, 0, i - 2);
                proof {
                    assert(block@ =~= pre.take(i - 2));
                }
                if self.buf[i] == DOT && i + 2 < n && self.buf[i + 1] == CR && self.buf[i + 2]
                    == LF {
                    // The block ends at the body terminator: hand the
                    // block out but leave the whole terminator buffered.
                    self.consume(i - 2);
                    return Some(block);
                }
                proof {
                    if pre[i as int] == 46u8 {
                        assert(i + 2 < n ==> pre[i as int + 1] != 13u8 || pre[i as int + 2]
                            != 10u8);
                        assert(!is_crlf_at(pre, i as int + 1));
                    }
                }
                self.consume(i);
                return Some(block);
            }
            i = i + 1;
        }
    }

    /// Takes the terminated body out of the buffer, if the five-byte
    /// terminator has arrived.  The body excludes the terminator; bytes
    /// after the terminator stay buffered.
    pub fn try_body(&mut self) -> (r: Option<Vec<u8>>)
        requires
            old(self).wf(),
        ensures
            final(self).wf(),
            body_step_post(old(self)@, final(self)@, r),
    {
        let ghost pre = self.buf@;
        match find_terminator(&self.buf, self.body_hint) {
            Some(i) => {
                let n: usize = self.buf.len();
                proof {
                    lemma_first_term_pos(pre, i as int);
                    assert(i + 5 <= n);
                }
                let body = sub_bytes(&self.buf, 0, i);
                self.consume(i + 5);
                proof {
                    assert(body@ =~= pre.take(i as int));
                    assert forall|j: int| !is_terminator_at(body@, j) by {
                        if is_terminator_at(body@, j) {
                            assert(j + 5 <= i);
                            assert(is_terminator_at(pre, j));
                        }
                    }
                }
                Some(body)
            },
            None => {
                let n: usize = self.buf.len();
                if n >= 4 {
                    self.body_hint = n - 4;
                }
                proof {
                    if term_ready(pre) {
                        let e = choose|k: int| is_terminator_at(pre, k);
                        assert(!is_terminator_at(pre, e));
                    }
                }
                None
            },
        }
    }
}

/// The buffer contents after feeding each chunk in order.
pub open spec fn fed(chunks: Seq<Seq<u8>>) -> Seq<u8>
    decreases chunks.len(),
{
    if chunks.len() == 0 {
        Seq::empty()
    } else {
        fed(chunks.drop_last()) + chunks.last()
    }
}

/// However a stream splits its bytes into chunks — down to one byte per
/// read — feeding the chunks in order leaves the buffer holding exactly
/// their concatenation.  Extraction is a function of the buffer alone,
/// so every chunking of the same bytes yields the same frames.
pub proof fn lemma_chunking_irrelevant(chunks: Seq<Seq<u8>>)
    ensures
        fed(chunks) == chunks.flatten_alt(),
    decreases chunks.len(),
{
    if chunks.len() == 0 {
        assert(chunks.flatten_alt() =~= Seq::<u8>::empty());
    } else {
        lemma_chunking_irrelevant(chunks.drop_last());
    }
}

/// Two extractions from the same buffered bytes take the same line and
/// leave the same remainder: the outcome is determined by the bytes.
pub proof fn lemma_line_step_deterministic(
    pre: Seq<u8>,
    post1: Seq<u8>,
    post2: Seq<u8>,
    r1: LineStep,
    r2: LineStep,
)
    requires
        line_step_post(pre, post1, r1),
        line_step_post(pre, post2, r2),
    ensures
        post1 == post2,
        match (r1, r2) {
            (LineStep::Line(a), LineStep::Line(b)) => a@ == b@,
            (LineStep::Invalid, LineStep::Invalid) => true,
            (LineStep::NeedMore, LineStep::NeedMore) => true,
            _ => false,
        },
{
}

/// The same, for folded blocks: the bytes alone decide the block.
pub proof fn lemma_block_step_deterministic(
    pre: Seq<u8>,
    post1: Seq<u8>,
    post2: Seq<u8>,
    r1: Option<Vec<u8>>,
    r2: Option<Vec<u8>>,
)
    requires
        block_step_post(pre, post1, r1),
        block_step_post(pre, post2, r2),
    ensures
        post1 == post2,
        match (r1, r2) {
            (Some(a), Some(b)) => a@ == b@,
            (None, None) => true,
            _ => false,
        },
{
}

/// The same, for bodies: the bytes alone decide the body.
pub proof fn lemma_body_step_deterministic(
    pre: Seq<u8>,
    post1: Seq<u8>,
    post2: Seq<u8>,
    r1: Option<Vec<u8>>,
    r2: Option<Vec<u8>>,
)
    requires
        body_step_post(pre, post1, r1),
        body_step_post(pre, post2, r2),
    ensures
        post1 == post2,
        match (r1, r2) {
            (Some(a), Some(b)) => a@ == b@,
            (None, None) => true,
            _ => false,
        },
{
}

} // verus!
