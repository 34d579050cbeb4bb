//! Tests of the ring buffer: FIFO order, wrap-around, fullness, and the
//! source/sink status reporting.

use termsnap::ringbuffer::{
    ByteSink, ByteSource, IoChunk, IoResult, IoWrite, Ringbuffer, SliceSource, VecSink,
};

#[test]
fn len_tracks_pushes_and_pops() {
    // The fill level is the sum of pushes minus the sum of pops.
    let mut rb = Ringbuffer::new(8);
    assert_eq!(rb.capacity(), 8);
    assert!(rb.is_empty());
    let n = rb.push_slice(&[1, 2, 3]);
    assert_eq!(n, 3);
    assert_eq!(rb.len(), 3);
    let n = rb.push_slice(&[4, 5]);
    assert_eq!(n, 2);
    assert_eq!(rb.len(), 5);
    rb.advance_read(2);
    assert_eq!(rb.len(), 3);
    let n = rb.push_slice(&[6, 7, 8, 9, 10, 11, 12]);
    // only the free space is taken
    assert_eq!(n, 5);
    assert_eq!(rb.len(), 8);
    assert!(rb.is_full());
    assert_eq!(rb.peek_all(), vec![3, 4, 5, 6, 7, 8, 9, 10]);
}

#[test]
fn wrap_around_keeps_order() {
    let mut rb = Ringbuffer::new(4);
    assert_eq!(rb.push_slice(&[1, 2, 3]), 3);
    rb.advance_read(2);
    assert_eq!(rb.push_slice(&[4, 5, 6]), 3);
    assert_eq!(rb.peek_all(), vec![3, 4, 5, 6]);
    assert!(rb.is_full());
}

#[test]
fn full_ring_reads_zero_bytes_ok() {
    // An exactly-full ring reports full, and the next read moves zero
    // bytes with an ok status.
    let mut rb = Ringbuffer::new(4);
    let mut source = SliceSource::new(vec![9, 9, 9, 9, 9, 9]);
    let res = rb.read(&mut source);
    assert!(matches!(res, IoResult::Moved(_)));
    assert_eq!(res.bytes().len(), 4);
    assert!(rb.is_full());
    let res = rb.read(&mut source);
    assert!(matches!(res, IoResult::Moved(_)));
    assert_eq!(res.bytes().len(), 0);
    assert!(rb.is_full());
}

#[test]
fn read_reports_eof_when_source_dry() {
    let mut rb = Ringbuffer::new(16);
    let mut source = SliceSource::new(vec![1, 2, 3]);
    let res = rb.read(&mut source);
    assert!(matches!(res, IoResult::Moved(_)));
    assert_eq!(res.bytes().to_vec(), vec![1, 2, 3]);
    let res = rb.read(&mut source);
    assert!(matches!(res, IoResult::EOF(_)));
    assert_eq!(res.bytes().len(), 0);
    assert_eq!(rb.len(), 3);
}

#[test]
fn write_drains_into_sink_in_order() {
    let mut rb = Ringbuffer::new(8);
    rb.push_slice(&[10, 20, 30]);
    rb.advance_read(1);
    rb.push_slice(&[40]);
    let mut sink = VecSink::new();
    let res = rb.write(&mut sink);
    assert!(matches!(res, IoResult::Moved(_)));
    assert_eq!(res.bytes().to_vec(), vec![20, 30, 40]);
    assert_eq!(sink.contents().as_slice(), &[20, 30, 40]);
    assert!(rb.is_empty());
    // an empty buffer does not consult the sink and reports ok
    let res = rb.write(&mut ClosedSink);
    assert!(matches!(res, IoResult::Moved(_)));
    assert_eq!(res.bytes().len(), 0);
}

struct TransientOnce {
    served: bool,
}

impl ByteSource for TransientOnce {
    fn read_some(&mut self, _max: usize) -> IoChunk {
        if self.served {
            IoChunk::Data(vec![7])
        } else {
            self.served = true;
            IoChunk::Transient
        }
    }
}

#[test]
fn transient_read_moves_zero_bytes() {
    // A source that would block surfaces as zero bytes this call, not as
    // an end or an error.
    let mut rb = Ringbuffer::new(4);
    let mut source = TransientOnce { served: false };
    let res = rb.read(&mut source);
    assert!(matches!(res, IoResult::Moved(_)));
    assert_eq!(res.bytes().len(), 0);
    let res = rb.read(&mut source);
    assert_eq!(res.bytes().to_vec(), vec![7]);
}

struct ClosedSink;

impl ByteSink for ClosedSink {
    fn write_some(&mut self, _data: &[u8]) -> IoWrite {
        IoWrite::Closed
    }
}

#[test]
fn closed_sink_reports_eof() {
    let mut rb = Ringbuffer::new(4);
    rb.push_slice(&[1]);
    let res = rb.write(&mut ClosedSink);
    assert!(matches!(res, IoResult::EOF(_)));
    assert_eq!(rb.len(), 1);
}

#[test]
fn bytes_iteration() {
    let mut rb = Ringbuffer::new(8);
    let mut source = SliceSource::new(vec![5, 6, 7]);
    let res = rb.read(&mut source);
    let mut bytes = res.bytes();
    assert_eq!(bytes.len(), 3);
    assert_eq!(bytes.last(), Some(7));
    assert_eq!(bytes.next(), Some(5));
    assert_eq!(bytes.next(), Some(6));
    assert_eq!(bytes.next(), Some(7));
    assert_eq!(bytes.next(), None);
    assert!(bytes.is_empty());
}

#[test]
fn apply_chunk_maps_each_outcome() {
    // The result variant mirrors the source's outcome: data is appended up
    // to the free space, end-of-input gives EOF, a transient condition
    // gives zero bytes ok, a permanent error gives Error; only data
    // changes the buffer.
    let mut rb = Ringbuffer::new(4);
    let res = rb.apply_chunk(IoChunk::Data(vec![1, 2, 3]));
    assert!(matches!(res, IoResult::Moved(_)));
    assert_eq!(res.bytes().to_vec(), vec![1, 2, 3]);
    assert_eq!(rb.peek_all(), vec![1, 2, 3]);

    // only the prefix that fits is taken and reported
    let res = rb.apply_chunk(IoChunk::Data(vec![4, 5, 6]));
    assert_eq!(res.bytes().to_vec(), vec![4]);
    assert!(rb.is_full());

    let res = rb.apply_chunk(IoChunk::Eof);
    assert!(matches!(res, IoResult::EOF(_)));
    assert_eq!(res.bytes().len(), 0);
    assert_eq!(rb.peek_all(), vec![1, 2, 3, 4]);

    let res = rb.apply_chunk(IoChunk::Transient);
    assert!(matches!(res, IoResult::Moved(_)));
    assert_eq!(res.bytes().len(), 0);

    let res = rb.apply_chunk(IoChunk::Fatal);
    assert!(matches!(res, IoResult::Error { .. }));
    assert_eq!(res.bytes().len(), 0);
    assert_eq!(rb.peek_all(), vec![1, 2, 3, 4]);
}

#[test]
fn apply_write_removes_exactly_the_accepted_count() {
    // An accepted count removes exactly the oldest bytes, in order; the
    // other outcomes leave the buffer unchanged.
    let mut rb = Ringbuffer::new(8);
    rb.push_slice(&[10, 20, 30, 40]);

    let res = rb.apply_write(IoWrite::Written(2));
    assert!(matches!(res, IoResult::Moved(_)));
    assert_eq!(res.bytes().to_vec(), vec![10, 20]);
    assert_eq!(rb.peek_all(), vec![30, 40]);

    let res = rb.apply_write(IoWrite::Transient);
    assert!(matches!(res, IoResult::Moved(_)));
    assert_eq!(res.bytes().len(), 0);
    assert_eq!(rb.peek_all(), vec![30, 40]);

    let res = rb.apply_write(IoWrite::Closed);
    assert!(matches!(res, IoResult::EOF(_)));
    assert_eq!(rb.peek_all(), vec![30, 40]);

    let res = rb.apply_write(IoWrite::Fatal);
    assert!(matches!(res, IoResult::Error { .. }));
    assert_eq!(rb.peek_all(), vec![30, 40]);

    // a count beyond the fill level is clamped to what the buffer holds
    let res = rb.apply_write(IoWrite::Written(9));
    assert_eq!(res.bytes().to_vec(), vec![30, 40]);
    assert!(rb.is_empty());
}

struct CountingSink {
    accept: usize,
    offers: Vec<Vec<u8>>,
}

impl ByteSink for CountingSink {
    fn write_some(&mut self, data: &[u8]) -> IoWrite {
        self.offers.push(data.to_vec());
        IoWrite::Written(self.accept.min(data.len()))
    }
}

#[test]
fn write_removes_what_the_sink_accepted() {
    // A sink that accepts only part of the offer: exactly the accepted
    // prefix leaves the buffer; the rest stays for the next call.
    let mut rb = Ringbuffer::new(8);
    rb.push_slice(&[1, 2, 3, 4, 5]);
    let mut sink = CountingSink { accept: 2, offers: Vec::new() };
    let res = rb.write(&mut sink);
    assert_eq!(res.bytes().to_vec(), vec![1, 2]);
    assert_eq!(rb.peek_all(), vec![3, 4, 5]);
    assert_eq!(sink.offers, vec![vec![1, 2, 3, 4, 5]]);
    let res = rb.write(&mut sink);
    assert_eq!(res.bytes().to_vec(), vec![3, 4]);
    assert_eq!(rb.peek_all(), vec![5]);
    assert_eq!(sink.offers, vec![vec![1, 2, 3, 4, 5], vec![3, 4, 5]]);
}

struct FatalSource;

impl ByteSource for FatalSource {
    fn read_some(&mut self, _max: usize) -> IoChunk {
        IoChunk::Fatal
    }
}

#[test]
fn fatal_read_reports_error_and_keeps_buffer() {
    let mut rb = Ringbuffer::new(4);
    rb.push_slice(&[8]);
    let res = rb.read(&mut FatalSource);
    assert!(matches!(res, IoResult::Error { .. }));
    assert_eq!(res.bytes().len(), 0);
    assert_eq!(rb.peek_all(), vec![8]);
}
