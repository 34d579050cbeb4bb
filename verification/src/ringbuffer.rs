//! A bounded FIFO byte buffer over a fixed-capacity backing array.
//!
//! The buffer is a classic ring: a read index, a write index and a fill
//! count, all kept inside the backing array's bounds. It can pull bytes from
//! a [`ByteSource`] and drain bytes into a [`ByteSink`]; transient conditions
//! (a source that would block, an interrupted call) surface as "zero bytes
//! this call", a source that is exhausted surfaces as end-of-input.

use vstd::prelude::*;
use vstd::arithmetic::div_mod::lemma_fundamental_div_mod_converse_mod;

verus! {

/// What one pull from a byte source produced.
pub enum IoChunk {
    /// At least one byte arrived.
    Data(Vec<u8>),
    /// The source is exhausted (a successful read of zero bytes).
    Eof,
    /// Nothing this call: the source would block or the call was interrupted.
    Transient,
    /// A permanent error.
    Fatal,
}

impl IoChunk {
    /// A chunk produced for a request of up to `max` bytes carries between
    /// one and `max` bytes.
    pub open spec fn wf(&self, max: nat) -> bool {
        match self {
            IoChunk::Data(v) => 1 <= v@.len() <= max,
            _ => true,
        }
    }
}

/// What one push into a byte sink produced.
pub enum IoWrite {
    /// At least one byte was accepted.
    Written(usize),
    /// The sink accepted zero bytes: it is closed.
    Closed,
    /// Nothing this call: the sink would block or the call was interrupted.
    Transient,
    /// A permanent error.
    Fatal,
}

impl IoWrite {
    /// An outcome for an offer of `len` bytes accepts between one and `len`
    /// of them.
    pub open spec fn wf(&self, len: nat) -> bool {
        match self {
            IoWrite::Written(n) => 1 <= *n <= len,
            _ => true,
        }
    }
}

/// A producer of bytes, read at most one call per buffer operation. The
/// standard input and the pseudo-terminal implement this outside the
/// library; [`SliceSource`] implements it over an in-memory byte slice.
pub trait ByteSource {
    /// Pull up to `max` bytes from the source.
    fn read_some(&mut self, max: usize) -> (r: IoChunk)
        requires
            max >= 1,
        ensures
            r.wf(max as nat),
    ;
}

/// A consumer of bytes, written at most one call per buffer operation.
pub trait ByteSink {
    /// Offer `data` to the sink; it accepts a prefix.
    fn write_some(&mut self, data: &[u8]) -> (r: IoWrite)
        requires
            data@.len() >= 1,
        ensures
            r.wf(data@.len()),
    ;
}

/// An in-order view of bytes that one buffer operation moved.
pub struct Bytes {
    data: Vec<u8>,
    cur: usize,
}

impl Bytes {
    /// The cursor never passes the end.
    pub closed spec fn wf(&self) -> bool {
        self.cur <= self.data@.len()
    }

    /// The bytes not yet yielded.
    pub closed spec fn view(&self) -> Seq<u8> {
        self.data@.skip(self.cur as int)
    }

    /// A view over no bytes.
    pub fn empty() -> (r: Bytes)
        ensures
            r.wf(),
            r@ == Seq::<u8>::empty(),
    {
        Bytes { data: Vec::new(), cur: 0 }
    }

    /// A view over all of `data`.
    pub fn from_vec(data: Vec<u8>) -> (r: Bytes)
        ensures
            r.wf(),
            r@ == data@,
    {
        let ghost d = data@;
        let r = Bytes { data, cur: 0 };
        proof {
            assert(r@ =~= d);
        }
        r
    }

    /// How many bytes are left.
    pub fn len(&self) -> (n: usize)
        requires
            self.wf(),
        ensures
            n == self@.len(),
    {
        self.data.len() - self.cur
    }

    /// Whether any bytes are left.
    pub fn is_empty(&self) -> (r: bool)
        requires
            self.wf(),
        ensures
            r == (self@.len() == 0),
    {
        self.len() == 0
    }

    /// Yield the next byte, advancing the cursor.
    pub fn next(&mut self) -> (r: Option<u8>)
        requires
            old(self).wf(),
        ensures
            final(self).wf(),
            old(self)@.len() == 0 ==> r is None && final(self)@ == old(self)@,
            old(self)@.len() > 0 ==> r == Some(old(self)@[0]) && final(self)@ == old(self)@.skip(
                1,
            ),
    {
        if self.cur < self.data.len() {
            let b = self.data[self.cur];
            self.cur = self.cur + 1;
            proof {
                assert(final(self)@ =~= old(self)@.skip(1));
            }
            Some(b)
        } else {
            None
        }
    }

    /// The last byte, if any.
    pub fn last(&self) -> (r: Option<u8>)
        requires
            self.wf(),
        ensures
            self@.len() == 0 ==> r is None,
            self@.len() > 0 ==> r == Some(self@[self@.len() - 1]),
    {
        if self.cur < self.data.len() {
            Some(self.data[self.data.len() - 1])
        } else {
            None
        }
    }

    /// The remaining bytes as a vector.
    pub fn to_vec(&self) -> (r: Vec<u8>)
        requires
            self.wf(),
        ensures
            r@ == self@,
    {
        let mut out: Vec<u8> = Vec::new();
        let mut i: usize = self.cur;
        while i < self.data.len()
            invariant
                self.cur <= i <= self.data@.len(),
                out@ == self.data@.subrange(self.cur as int, i as int),
            decreases self.data@.len() - i,
        {
            out.push(self.data[i]);
            proof {
                assert(out@ =~= self.data@.subrange(self.cur as int, i + 1));
            }
            i = i + 1;
        }
        proof {
            assert(out@ =~= self@);
        }
        out
    }
}

/// The status of one buffer operation: how it ended, and which bytes moved.
pub enum IoResult {
    /// The operation moved the bytes; more may follow.
    Moved(Bytes),
    /// The operation moved the bytes and the other end is done.
    EOF(Bytes),
    /// The operation failed after moving the bytes.
    Error { bytes: Bytes },
}

impl IoResult {
    /// The carried [`Bytes`] are well formed.
    pub open spec fn wf(&self) -> bool {
        match self {
            IoResult::Moved(b) => b.wf(),
            IoResult::EOF(b) => b.wf(),
            IoResult::Error { bytes } => bytes.wf(),
        }
    }

    /// The bytes the operation moved.
    pub open spec fn bytes_view(&self) -> Seq<u8> {
        match self {
            IoResult::Moved(b) => b@,
            IoResult::EOF(b) => b@,
            IoResult::Error { bytes } => bytes@,
        }
    }

    /// The bytes the operation moved.
    pub fn bytes(&self) -> (r: Bytes)
        requires
            self.wf(),
        ensures
            r.wf(),
            r@ == self.bytes_view(),
    {
        match self {
            IoResult::Moved(b) => Bytes::from_vec(b.to_vec()),
            IoResult::EOF(b) => Bytes::from_vec(b.to_vec()),
            IoResult::Error { bytes } => Bytes::from_vec(bytes.to_vec()),
        }
    }
}

/// Where `x` lands in `[0, cap)` after subtracting `cap` at most once.
spec fn wrapped(cap: int, x: int) -> int {
    if x < cap {
        x
    } else {
        x - cap
    }
}

/// For `x` in `[0, 2 cap)`, reduction modulo `cap` subtracts `cap` at most
/// once.
proof fn lemma_wrap_mod(cap: int, x: int)
    requires
        1 <= cap,
        0 <= x < 2 * cap,
    ensures
        x % cap == wrapped(cap, x),
        0 <= x % cap < cap,
{
    if x < cap {
        lemma_fundamental_div_mod_converse_mod(x, cap, 0, x);
    } else {
        lemma_fundamental_div_mod_converse_mod(x, cap, 1, x - cap);
    }
}

/// A ring buffer: a bounded FIFO of bytes over a fixed backing array.
pub struct Ringbuffer {
    buf: Vec<u8>,
    read_idx: usize,
    write_idx: usize,
    count: usize,
}

impl Ringbuffer {
    /// Indices stay inside the backing array; the write index is the read
    /// index advanced by the fill count, modulo the capacity.
    pub closed spec fn wf(&self) -> bool {
        &&& self.buf@.len() <= usize::MAX / 2
        &&& self.read_idx < self.buf@.len() || (self.buf@.len() == 0 && self.read_idx == 0)
        &&& self.count <= self.buf@.len()
        &&& self.buf@.len() > 0 ==> self.write_idx == (self.read_idx + self.count) % (
        self.buf@.len() as int)
        &&& self.buf@.len() == 0 ==> self.write_idx == 0
    }

    /// The capacity of the buffer.
    pub closed spec fn spec_capacity(&self) -> nat {
        self.buf@.len()
    }

    /// The unread bytes, in first-in first-out order.
    pub closed spec fn view(&self) -> Seq<u8> {
        Seq::new(
            self.count as nat,
            |i: int| self.buf@[(self.read_idx + i) % (self.buf@.len() as int)],
        )
    }

    /// A fresh, empty buffer of the given capacity.
    pub fn new(capacity: usize) -> (r: Ringbuffer)
        requires
            capacity <= usize::MAX / 2,
        ensures
            r.wf(),
            r.spec_capacity() == capacity,
            r@ == Seq::<u8>::empty(),
    {
        let mut buf: Vec<u8> = Vec::new();
        let mut i: usize = 0;
        while i < capacity
            invariant
                buf@.len() == i,
                i <= capacity,
            decreases capacity - i,
        {
            buf.push(0);
            i = i + 1;
        }
        let r = Ringbuffer { buf, read_idx: 0, write_idx: 0, count: 0 };
        proof {
            if capacity > 0 {
                lemma_wrap_mod(capacity as int, 0);
            }
            assert(r@ =~= Seq::<u8>::empty());
        }
        r
    }

    /// The capacity of the buffer.
    pub fn capacity(&self) -> (r: usize)
        ensures
            r == self.spec_capacity(),
    {
        self.buf.len()
    }

    /// The number of unread bytes written to the buffer.
    pub fn len(&self) -> (r: usize)
        requires
            self.wf(),
        ensures
            r == self@.len(),
    {
        self.count
    }

    /// Returns `true` if the buffer contains no unread bytes.
    pub fn is_empty(&self) -> (r: bool)
        requires
            self.wf(),
        ensures
            r == (self@.len() == 0),
    {
        self.count == 0
    }

    /// Returns `true` if the buffer is full.
    pub fn is_full(&self) -> (r: bool)
        requires
            self.wf(),
        ensures
            r == (self@.len() == self.spec_capacity()),
    {
        self.count == self.buf.len()
    }

    /// Append as much of `data` as fits; the buffer takes exactly the prefix
    /// that fits.
    pub fn push_slice(&mut self, data: &[u8]) -> (n: usize)
        requires
            old(self).wf(),
        ensures
            final(self).wf(),
            final(self).spec_capacity() == old(self).spec_capacity(),
            n == if data@.len() <= old(self).spec_capacity() - old(self)@.len() {
                data@.len() as int
            } else {
                old(self).spec_capacity() - old(self)@.len()
            },
            final(self)@ == old(self)@ + data@.take(n as int),
    {
        let cap = self.buf.len();
        let avail = cap - self.count;
        let n = if data.len() < avail {
            data.len()
        } else {
            avail
        };
        let ghost orig = *self;
        let mut i: usize = 0;
        while i < n
            invariant
                self.wf(),
                i <= n,
                n <= data@.len(),
                n <= cap - orig@.len(),
                cap == self.buf@.len(),
                cap == orig.spec_capacity(),
                self.read_idx == orig.read_idx,
                self.count == orig@.len() + i,
                self@ == orig@ + data@.take(i as int),
            decreases n - i,
        {
            let w = self.write_idx;
            let ghost prev = self@;
            let ghost prev_buf = self.buf@;
            proof {
                lemma_wrap_mod(cap as int, self.read_idx + self.count);
            }
            self.buf.set(w, data[i]);
            self.write_idx = if w + 1 == cap {
                0
            } else {
                w + 1
            };
            self.count = self.count + 1;
            proof {
                let c = cap as int;
                let r = self.read_idx as int;
                let k = prev.len() as int;
                let b = data@[i as int];
                lemma_wrap_mod(c, r + k);
                lemma_wrap_mod(c, r + k + 1);
                assert(self.buf@ == prev_buf.update(w as int, b));
                assert forall|m: int| 0 <= m <= k implies #[trigger] self@[m] == prev.push(b)[m] by {
                    lemma_wrap_mod(c, r + m);
                    lemma_wrap_mod(c, r + k);
                    if m < k {
                        assert((r + m) % c != (r + k) % c);
                        assert(self.buf@[(r + m) % c] == prev_buf[(r + m) % c]);
                        assert(prev[m] == prev_buf[(r + m) % c]);
                    } else {
                        assert((r + m) % c == w);
                    }
                }
                assert(self@ =~= prev.push(b));
                assert(prev.push(b) =~= orig@ + data@.take(i + 1));
            }
            i = i + 1;
        }
        n
    }

    /// Drop the `n` oldest unread bytes.
    pub fn advance_read(&mut self, n: usize) -> (r: ())
        requires
            old(self).wf(),
            n <= old(self)@.len(),
        ensures
            final(self).wf(),
            final(self).spec_capacity() == old(self).spec_capacity(),
            final(self)@ == old(self)@.skip(n as int),
    {
        if n == 0 {
            proof {
                assert(final(self)@ =~= old(self)@.skip(0));
            }
            return ;
        }
        let cap = self.buf.len();
        let idx = self.read_idx + n;
        self.read_idx = if idx >= cap {
            idx - cap
        } else {
            idx
        };
        self.count = self.count - n;
        proof {
            let c = cap as int;
            let r0 = old(self).read_idx as int;
            lemma_wrap_mod(c, r0 + n);
            lemma_wrap_mod(c, r0 + old(self).count);
            lemma_wrap_mod(c, self.read_idx + self.count);
            assert forall|k: int| 0 <= k < self.count implies self.buf@[(self.read_idx + k) % c]
                == old(self)@.skip(n as int)[k] by {
                lemma_wrap_mod(c, self.read_idx + k);
                lemma_wrap_mod(c, r0 + n + k);
            }
            assert(self@ =~= old(self)@.skip(n as int));
        }
    }

    /// Copy out all unread bytes in order, leaving the buffer unchanged.
    pub fn peek_all(&self) -> (r: Vec<u8>)
        requires
            self.wf(),
        ensures
            r@ == self@,
    {
        let cap = self.buf.len();
        let mut out: Vec<u8> = Vec::new();
        let mut j: usize = 0;
        while j < self.count
            invariant
                self.wf(),
                j <= self.count,
                cap == self.buf@.len(),
                out@ == self@.take(j as int),
            decreases self.count - j,
        {
            let idx = self.read_idx + j;
            let pos = if idx >= cap {
                idx - cap
            } else {
                idx
            };
            proof {
                lemma_wrap_mod(cap as int, self.read_idx + j);
            }
            out.push(self.buf[pos]);
            proof {
                assert(out@ =~= self@.take(j + 1));
            }
            j = j + 1;
        }
        proof {
            assert(self@.take(self.count as int) =~= self@);
        }
        out
    }

    /// Fold one source outcome into the buffer. The result variant mirrors
    /// the outcome exactly: data is appended — at most the free space, and
    /// the appended prefix is reported as moved — end-of-input is reported
    /// as [`IoResult::EOF`], a transient condition as zero bytes moved, and
    /// a permanent error as [`IoResult::Error`]; none of the last three
    /// changes the buffer.
    pub fn apply_chunk(&mut self, chunk: IoChunk) -> (r: IoResult)
        requires
            old(self).wf(),
        ensures
            final(self).wf(),
            final(self).spec_capacity() == old(self).spec_capacity(),
            r.wf(),
            final(self)@ == old(self)@ + r.bytes_view(),
            chunk matches IoChunk::Data(v) ==> r is Moved && r.bytes_view() == v@.take(
                if v@.len() <= old(self).spec_capacity() - old(self)@.len() {
                    v@.len() as int
                } else {
                    old(self).spec_capacity() - old(self)@.len()
                },
            ),
            chunk is Eof ==> r is EOF && r.bytes_view().len() == 0,
            chunk is Transient ==> r is Moved && r.bytes_view().len() == 0,
            chunk is Fatal ==> (r matches IoResult::Error { .. }) && r.bytes_view().len() == 0,
    {
        match chunk {
            IoChunk::Data(v) => {
                let n = self.push_slice(v.as_slice());
                let mut moved = v;
                moved.truncate(n);
                IoResult::Moved(Bytes::from_vec(moved))
            },
            IoChunk::Eof => {
                proof {
                    assert(final(self)@ =~= old(self)@ + Seq::<u8>::empty());
                }
                IoResult::EOF(Bytes::empty())
            },
            IoChunk::Transient => {
                proof {
                    assert(final(self)@ =~= old(self)@ + Seq::<u8>::empty());
                }
                IoResult::Moved(Bytes::empty())
            },
            IoChunk::Fatal => {
                proof {
                    assert(final(self)@ =~= old(self)@ + Seq::<u8>::empty());
                }
                IoResult::Error { bytes: Bytes::empty() }
            },
        }
    }

    /// Pull bytes from the source into the buffer, in a single pull of at
    /// most the free space. The result mirrors the source's outcome as
    /// [`Ringbuffer::apply_chunk`] states: data is appended and reported as
    /// moved, a transient condition surfaces as zero bytes read, an
    /// exhausted source as [`IoResult::EOF`], a permanent failure as
    /// [`IoResult::Error`]. A full buffer reads nothing and reports zero
    /// bytes.
    pub fn read<S: ByteSource>(&mut self, source: &mut S) -> (r: IoResult)
        requires
            old(self).wf(),
        ensures
            final(self).wf(),
            final(self).spec_capacity() == old(self).spec_capacity(),
            r.wf(),
            final(self)@ == old(self)@ + r.bytes_view(),
            r.bytes_view().len() <= old(self).spec_capacity() - old(self)@.len(),
            r is EOF ==> final(self)@ == old(self)@,
            (r matches IoResult::Error { .. }) ==> final(self)@ == old(self)@,
            old(self)@.len() == old(self).spec_capacity() ==> r is Moved && r.bytes_view().len()
                == 0,
    {
        let cap = self.buf.len();
        if self.count == cap {
            proof {
                assert(final(self)@ =~= old(self)@ + Seq::<u8>::empty());
            }
            return IoResult::Moved(Bytes::empty());
        }
        let chunk = source.read_some(cap - self.count);
        let ghost c = chunk;
        let r = self.apply_chunk(chunk);
        proof {
            if r is EOF || (r matches IoResult::Error { .. }) {
                assert(r.bytes_view().len() == 0) by {
                    match c {
                        IoChunk::Data(v) => {},
                        IoChunk::Eof => {},
                        IoChunk::Transient => {},
                        IoChunk::Fatal => {},
                    }
                }
                assert(final(self)@ =~= old(self)@);
            }
        }
        r
    }

    /// Fold one sink outcome into the buffer. The result variant mirrors
    /// the outcome exactly: an accepted count removes exactly that many of
    /// the oldest unread bytes — clamped to what the buffer holds — and
    /// reports them as moved, in order; a closed sink is reported as
    /// [`IoResult::EOF`], a transient condition as zero bytes moved, and a
    /// permanent error as [`IoResult::Error`]; none of the last three
    /// changes the buffer.
    pub fn apply_write(&mut self, outcome: IoWrite) -> (r: IoResult)
        requires
            old(self).wf(),
        ensures
            final(self).wf(),
            final(self).spec_capacity() == old(self).spec_capacity(),
            r.wf(),
            r.bytes_view().len() <= old(self)@.len(),
            r.bytes_view() == old(self)@.take(r.bytes_view().len() as int),
            final(self)@ == old(self)@.skip(r.bytes_view().len() as int),
            outcome matches IoWrite::Written(n) ==> r is Moved && r.bytes_view().len() == (
            if n <= old(self)@.len() {
                n as int
            } else {
                old(self)@.len() as int
            }),
            outcome is Closed ==> r is EOF && r.bytes_view().len() == 0,
            outcome is Transient ==> r is Moved && r.bytes_view().len() == 0,
            outcome is Fatal ==> (r matches IoResult::Error { .. }) && r.bytes_view().len() == 0,
    {
        match outcome {
            IoWrite::Written(n) => {
                let n = if n > self.count {
                    self.count
                } else {
                    n
                };
                let mut moved = self.peek_all();
                moved.truncate(n);
                self.advance_read(n);
                proof {
                    assert(moved@ =~= old(self)@.take(n as int));
                }
                IoResult::Moved(Bytes::from_vec(moved))
            },
            IoWrite::Closed => {
                proof {
                    assert(final(self)@ =~= old(self)@.skip(0));
                    assert(Seq::<u8>::empty() =~= old(self)@.take(0));
                }
                IoResult::EOF(Bytes::empty())
            },
            IoWrite::Transient => {
                proof {
                    assert(final(self)@ =~= old(self)@.skip(0));
                    assert(Seq::<u8>::empty() =~= old(self)@.take(0));
                }
                IoResult::Moved(Bytes::empty())
            },
            IoWrite::Fatal => {
                proof {
                    assert(final(self)@ =~= old(self)@.skip(0));
                    assert(Seq::<u8>::empty() =~= old(self)@.take(0));
                }
                IoResult::Error { bytes: Bytes::empty() }
            },
        }
    }

    /// Drain bytes from the buffer into the sink, in a single offer of all
    /// unread bytes. The result mirrors the sink's outcome as
    /// [`Ringbuffer::apply_write`] states: exactly the bytes the sink
    /// accepted leave the buffer and are reported as moved, in order; a
    /// transient condition surfaces as zero bytes written, a closed sink as
    /// [`IoResult::EOF`], a permanent failure as [`IoResult::Error`]. An
    /// empty buffer writes nothing and reports zero bytes.
    pub fn write<S: ByteSink>(&mut self, sink: &mut S) -> (r: IoResult)
        requires
            old(self).wf(),
        ensures
            final(self).wf(),
            final(self).spec_capacity() == old(self).spec_capacity(),
            r.wf(),
            r.bytes_view().len() <= old(self)@.len(),
            r.bytes_view() == old(self)@.take(r.bytes_view().len() as int),
            final(self)@ == old(self)@.skip(r.bytes_view().len() as int),
            r is EOF ==> final(self)@ == old(self)@,
            (r matches IoResult::Error { .. }) ==> final(self)@ == old(self)@,
            old(self)@.len() == 0 ==> r is Moved && r.bytes_view().len() == 0 && final(self)@
                == old(self)@,
    {
        if self.count == 0 {
            proof {
                assert(final(self)@ =~= old(self)@.skip(0));
                assert(Seq::<u8>::empty() =~= old(self)@.take(0));
            }
            return IoResult::Moved(Bytes::empty());
        }
        let all = self.peek_all();
        let outcome = sink.write_some(all.as_slice());
        let ghost oc = outcome;
        let r = self.apply_write(outcome);
        proof {
            if r is EOF || (r matches IoResult::Error { .. }) {
                assert(r.bytes_view().len() == 0) by {
                    match oc {
                        IoWrite::Written(n) => {},
                        IoWrite::Closed => {},
                        IoWrite::Transient => {},
                        IoWrite::Fatal => {},
                    }
                }
                assert(final(self)@ =~= old(self)@);
            }
        }
        r
    }
}

/// A [`ByteSource`] over an in-memory byte sequence; it yields the bytes
/// from front to back, then reports end-of-input.
pub struct SliceSource {
    data: Vec<u8>,
    pos: usize,
}

impl SliceSource {
    /// A source over all of `data`.
    pub fn new(data: Vec<u8>) -> (r: SliceSource) {
        SliceSource { data, pos: 0 }
    }
}

impl ByteSource for SliceSource {
    fn read_some(&mut self, max: usize) -> (r: IoChunk) {
        if self.pos >= self.data.len() {
            return IoChunk::Eof;
        }
        let avail = self.data.len() - self.pos;
        let n = if max < avail {
            max
        } else {
            avail
        };
        let mut v: Vec<u8> = Vec::new();
        let mut i: usize = 0;
        while i < n
            invariant
                v@.len() == i,
                i <= n,
                self.pos + n <= self.data@.len(),
                self.data@.len() <= usize::MAX,
            decreases n - i,
        {
            assert(self.pos + i < self.data@.len());
            v.push(self.data[self.pos + i]);
            i = i + 1;
        }
        self.pos = self.pos + n;
        IoChunk::Data(v)
    }
}

/// A [`ByteSink`] that accepts every byte into a growing vector.
pub struct VecSink {
    data: Vec<u8>,
}

impl VecSink {
    /// All bytes accepted so far.
    pub closed spec fn view(&self) -> Seq<u8> {
        self.data@
    }

    /// A fresh, empty sink.
    pub fn new() -> (r: VecSink)
        ensures
            r@ == Seq::<u8>::empty(),
    {
        VecSink { data: Vec::new() }
    }

    /// All bytes accepted so far.
    pub fn contents(&self) -> (r: &Vec<u8>)
        ensures
            r@ == self@,
    {
        &self.data
    }
}

impl ByteSink for VecSink {
    fn write_some(&mut self, data: &[u8]) -> (r: IoWrite) {
        let mut i: usize = 0;
        while i < data.len()
            invariant
                i <= data@.len(),
            decreases data@.len() - i,
        {
            self.data.push(data[i]);
            i = i + 1;
        }
        IoWrite::Written(data.len())
    }
}

} // verus!
