//! Frame reassembly: a stateful accumulator over a bounded byte buffer that
//! turns an arbitrarily chunked byte stream into delimited frames. It knows
//! nothing of message semantics.
//!
//! The discard of a returned frame is two-phase on purpose: `next_frame`
//! only marks the delimiter of the frame it hands out, and the bytes are
//! compacted away at the start of the *next* operation, so a caller may
//! finish reading the frame before the buffer is touched again.

use vstd::prelude::*;
use crate::codec::DELIMITER;

verus! {

/// One delimited frame as the receiver delivers it: at least the delimiter,
/// which ends it, and a delimiter-free body before it.
pub open spec fn is_frame(f: Seq<u8>) -> bool {
    &&& f.len() >= 1
    &&& f.last() == DELIMITER
    &&& forall|i: int| 0 <= i < f.len() - 1 ==> f[i] != DELIMITER
}

/// Whether a delimiter occurs anywhere in the bytes.
pub open spec fn has_delimiter(s: Seq<u8>) -> bool {
    exists|i: int| 0 <= i < s.len() && s[i] == DELIMITER
}

/// What one `next_frame` call yields.
#[derive(Debug, PartialEq, Eq)]
pub enum FrameStep {
    /// A complete frame, delimiter included.
    Frame(Vec<u8>),
    /// No delimiter yet and the buffer still has room: read more first.
    NeedMore,
    /// The buffer filled without a delimiter: it was reset, losing the bytes
    /// in flight. Non-fatal; the stream goes on.
    Overflow,
}

/// The receiver: a fixed-capacity buffer, a write cursor, and the pending
/// discard marker of the most recently returned frame.
pub struct FrameReceiver {
    buf: Vec<u8>,
    len: usize,
    reset_pos: Option<usize>,
}

impl FrameReceiver {
    /// Internal consistency: the cursor stays in bounds and the discard
    /// marker, when set, points at a delimiter before the cursor.
    pub closed spec fn wf(&self) -> bool {
        &&& self.len <= self.buf@.len()
        &&& match self.reset_pos {
            Some(z) => z < self.len,
            None => true,
        }
    }

    /// The buffer's capacity: the bound on unconsumed stream data.
    pub closed spec fn cap(&self) -> nat {
        self.buf@.len()
    }

    /// The unconsumed stream bytes: everything held that has not been handed
    /// out as a frame yet.
    pub closed spec fn pending(&self) -> Seq<u8> {
        match self.reset_pos {
            Some(z) => self.buf@.subrange(z + 1, self.len as int),
            None => self.buf@.subrange(0, self.len as int),
        }
    }

    /// A fresh receiver holding nothing.
    pub fn new(capacity: usize) -> (r: FrameReceiver)
        ensures
            r.wf(),
            r.cap() == capacity,
            r.pending() == Seq::<u8>::empty(),
    {
        let mut buf: Vec<u8> = Vec::new();
        let mut i: usize = 0;
        while i < capacity
            invariant
                i <= capacity,
                buf@.len() == i,
            decreases capacity - i,
        {
            buf.push(0u8);
            i += 1;
        }
        let r = FrameReceiver { buf, len: 0, reset_pos: None };
        proof {
            assert(r.pending() =~= Seq::<u8>::empty());
        }
        r
    }

    /// Carries out the deferred discard: moves the bytes after the marked
    /// delimiter to the front of the buffer and clears the marker.
    fn compact(&mut self)
        requires
            old(self).wf(),
        ensures
            final(self).wf(),
            final(self).cap() == old(self).cap(),
            final(self).pending() == old(self).pending(),
            final(self).reset_pos is None,
            final(self).len == old(self).pending().len(),
    {
        match self.reset_pos {
            None => {},
            Some(z) => {
                let m = self.len - z - 1;
                let mut k: usize = 0;
                while k < m
                    invariant
                        k <= m,
                        z + 1 + m == self.len,
                        self.len <= self.buf@.len(),
                        self.buf@.len() == old(self).buf@.len(),
                        self.len == old(self).len,
                        forall|j: int| 0 <= j < k ==> self.buf@[j] == old(self).buf@[z + 1 + j],
                        forall|j: int|
                            k <= j < self.buf@.len() ==> self.buf@[j] == old(self).buf@[j],
                    decreases m - k,
                {
                    let b = self.buf[z + 1 + k];
                    self.buf.set(k, b);
                    k += 1;
                }
                self.len = m;
                self.reset_pos = None;
                proof {
                    assert(self.pending() =~= old(self).pending());
                }
            },
        }
    }

    /// Room left for new stream bytes.
    pub fn free_space(&self) -> (r: usize)
        requires
            self.wf(),
        ensures
            r == self.cap() - self.pending().len(),
    {
        match self.reset_pos {
            Some(z) => self.buf.len() - (self.len - z - 1),
            None => self.buf.len() - self.len,
        }
    }

    /// Takes in the bytes one transport read delivered, as many of them as
    /// the buffer has room for, and says how many it took. A zero-length
    /// chunk is a quiet poll, never end-of-stream: nothing changes and the
    /// caller polls again.
    pub fn absorb(&mut self, chunk: &[u8]) -> (taken: usize)
        requires
            old(self).wf(),
        ensures
            final(self).wf(),
            final(self).cap() == old(self).cap(),
            taken == if chunk@.len() + old(self).pending().len() <= old(self).cap() {
                chunk@.len() as int
            } else {
                old(self).cap() - old(self).pending().len()
            },
            final(self).pending() == old(self).pending() + chunk@.take(taken as int),
    {
        self.compact();
        let room = self.buf.len() - self.len;
        let taken: usize = if chunk.len() <= room {
            chunk.len()
        } else {
            room
        };
        let ghost mid = *self;
        let mut k: usize = 0;
        while k < taken
            invariant
                k <= taken,
                taken <= chunk@.len(),
                mid.len + taken <= self.buf@.len(),
                mid.len + taken <= usize::MAX,
                self.buf@.len() == mid.buf@.len(),
                self.len == mid.len,
                self.reset_pos == mid.reset_pos,
                mid.reset_pos is None,
                forall|j: int| 0 <= j < mid.len ==> self.buf@[j] == mid.buf@[j],
                forall|j: int| 0 <= j < k ==> self.buf@[mid.len + j] == chunk@[j],
            decreases taken - k,
        {
            self.buf.set(self.len + k, chunk[k]);
            k += 1;
        }
        self.len = self.len + taken;
        proof {
            assert(self.pending() =~= mid.pending() + chunk@.take(taken as int));
        }
        taken
    }

    /// Scans the whole unconsumed region for a delimiter and hands out the
    /// first complete frame, if any.
    ///
    /// The returned frame is the shortest delimiter-terminated prefix of the
    /// unconsumed bytes, and exactly those bytes are consumed. With no
    /// delimiter in sight the call either asks for more bytes or, when the
    /// buffer is full, resets it: a framing overflow, reported and survived,
    /// with the bytes in flight lost.
    pub fn next_frame(&mut self) -> (r: FrameStep)
        requires
            old(self).wf(),
        ensures
            final(self).wf(),
            final(self).cap() == old(self).cap(),
            match r {
                FrameStep::Frame(f) => {
                    &&& 1 <= f@.len() <= old(self).pending().len()
                    &&& f@ == old(self).pending().take(f@.len() as int)
                    &&& is_frame(f@)
                    &&& final(self).pending() == old(self).pending().skip(f@.len() as int)
                },
                FrameStep::NeedMore => {
                    &&& !has_delimiter(old(self).pending())
                    &&& old(self).pending().len() < old(self).cap()
                    &&& final(self).pending() == old(self).pending()
                },
                FrameStep::Overflow => {
                    &&& !has_delimiter(old(self).pending())
                    &&& old(self).pending().len() == old(self).cap()
                    &&& final(self).pending() == Seq::<u8>::empty()
                },
            },
    {
        self.compact();
        match find_delimiter(&self.buf, self.len) {
            Some(z) => {
                let mut f: Vec<u8> = Vec::new();
                let mut k: usize = 0;
                while k < z + 1
                    invariant
                        k <= z + 1,
                        z < self.len <= self.buf@.len(),
                        f@ == self.buf@.subrange(0, k as int),
                    decreases z + 1 - k,
                {
                    f.push(self.buf[k]);
                    proof {
                        assert(self.buf@.subrange(0, k + 1) =~= self.buf@.subrange(0, k as int)
                            .push(self.buf@[k as int]));
                    }
                    k += 1;
                }
                self.reset_pos = Some(z);
                proof {
                    let p = old(self).pending();
                    assert(f@ =~= p.take(z + 1));
                    assert(self.pending() =~= p.skip(z + 1));
                    assert(f@.last() == DELIMITER);
                }
                FrameStep::Frame(f)
            },
            None => {
                proof {
                    assert(old(self).pending() =~= self.buf@.subrange(0, self.len as int));
                }
                if self.len == self.buf.len() {
                    self.len = 0;
                    proof {
                        assert(self.pending() =~= Seq::<u8>::empty());
                    }
                    FrameStep::Overflow
                } else {
                    FrameStep::NeedMore
                }
            },
        }
    }
}

/// Index of the first delimiter in the bytes; meaningful only when one is
/// there.
pub open spec fn first_delimiter(s: Seq<u8>) -> int
    decreases s.len(),
{
    if s.len() == 0 {
        0
    } else if s[0] == DELIMITER {
        0
    } else {
        1 + first_delimiter(s.skip(1))
    }
}

/// The frames a receiver will deliver from a byte stream: the shortest
/// delimiter-terminated prefix, then the frames of what follows. Bytes after
/// the last delimiter are still in flight and yield nothing yet.
pub open spec fn extract_frames(s: Seq<u8>) -> Seq<Seq<u8>>
    decreases s.len(),
{
    let z = first_delimiter(s);
    if has_delimiter(s) && 0 <= z < s.len() {
        seq![s.take(z + 1)] + extract_frames(s.skip(z + 1))
    } else {
        Seq::empty()
    }
}

/// A whole frame at the front of a stream owns its first delimiter.
pub proof fn lemma_first_delimiter_frame(f: Seq<u8>, t: Seq<u8>)
    requires
        is_frame(f),
    ensures
        has_delimiter(f + t),
        first_delimiter(f + t) == f.len() - 1,
    decreases f.len(),
{
    let s = f + t;
    assert(s[f.len() - 1] == DELIMITER);
    if f.len() == 1 {
        assert(s[0] == DELIMITER);
    } else {
        assert(s[0] == f[0]);
        assert(f[0] != DELIMITER);
        let g = f.skip(1);
        assert(g.last() == f.last());
        assert(is_frame(g));
        lemma_first_delimiter_frame(g, t);
        assert(s.skip(1) =~= g + t);
    }
}

/// Reassembly correctness: a stream that is the concatenation of whole
/// frames — however the transport chunked it on the way in, since the
/// receiver's buffer accumulates exactly the concatenation of what it
/// absorbed — yields exactly those frames, in order, bit for bit.
pub proof fn lemma_reassembly(fs: Seq<Seq<u8>>)
    requires
        forall|k: int| 0 <= k < fs.len() ==> is_frame(#[trigger] fs[k]),
    ensures
        extract_frames(fs.flatten()) == fs,
    decreases fs.len(),
{
    if fs.len() == 0 {
        assert(!has_delimiter(fs.flatten()));
        assert(extract_frames(fs.flatten()) =~= fs);
    } else {
        let f = fs[0];
        let rest = fs.drop_first();
        let s = fs.flatten();
        assert(s == f + rest.flatten());
        lemma_first_delimiter_frame(f, rest.flatten());
        let z = first_delimiter(s);
        assert(z == f.len() - 1);
        assert(s.take(z + 1) =~= f);
        assert(s.skip(z + 1) =~= rest.flatten());
        assert(forall|k: int| 0 <= k < rest.len() ==> is_frame(#[trigger] rest[k]));
        lemma_reassembly(rest);
        assert(seq![f] + rest =~= fs);
    }
}

/// Coalescing: two whole frames arriving together are delivered as two
/// successive frames before any further read is needed.
pub proof fn lemma_coalescing(f1: Seq<u8>, f2: Seq<u8>)
    requires
        is_frame(f1),
        is_frame(f2),
    ensures
        extract_frames(f1 + f2) == seq![f1, f2],
{
    let fs = seq![f1, f2];
    lemma_reassembly(fs);
    assert(fs.drop_first() =~= seq![f2]);
    seq![f2].lemma_flatten_one_element();
    assert(fs.flatten() =~= f1 + f2);
}

/// Overflow recovery: after a framing overflow empties the buffer — as
/// `next_frame` says it does — a subsequent well-formed frame is still
/// reassembled whole: on its own it is exactly the one frame the stream
/// yields.
pub proof fn lemma_overflow_recovery(f: Seq<u8>)
    requires
        is_frame(f),
    ensures
        extract_frames(f) == seq![f],
{
    let fs = seq![f];
    lemma_reassembly(fs);
    fs.lemma_flatten_one_element();
}

/// A frame standing at the front of the unconsumed bytes — what `next_frame`
/// hands out — is the stream model's first frame, and consuming it leaves
/// the model's remainder.
pub proof fn lemma_frame_prefix(s: Seq<u8>, f: Seq<u8>)
    requires
        is_frame(f),
        f.len() <= s.len(),
        f == s.take(f.len() as int),
    ensures
        has_delimiter(s),
        first_delimiter(s) == f.len() - 1,
        extract_frames(s) == seq![f] + extract_frames(s.skip(f.len() as int)),
{
    assert(s =~= f + s.skip(f.len() as int));
    lemma_first_delimiter_frame(f, s.skip(f.len() as int));
    let z = first_delimiter(s);
    assert(s.take(z + 1) =~= f);
}

/// First delimiter in the held region, scanning from the front.
fn find_delimiter(v: &Vec<u8>, len: usize) -> (r: Option<usize>)
    requires
        len <= v@.len(),
    ensures
        match r {
            Some(z) => {
                &&& z < len
                &&& v@[z as int] == DELIMITER
                &&& forall|i: int| 0 <= i < z ==> v@[i] != DELIMITER
            },
            None => forall|i: int| 0 <= i < len ==> v@[i] != DELIMITER,
        },
{
    let mut z: usize = 0;
    while z < len
        invariant
            z <= len,
            len <= v@.len(),
            forall|i: int| 0 <= i < z ==> v@[i] != DELIMITER,
        decreases len - z,
    {
        if v[z] == DELIMITER {
            return Some(z);
        }
        z += 1;
    }
    None
}

} // verus!
