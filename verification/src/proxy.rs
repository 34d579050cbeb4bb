//! The decision logic of the proxy event loops.
//!
//! The loops themselves perform input and output and live outside the
//! library; everything they decide — which descriptors to wait on, when the
//! end-of-transmission byte is due and what exactly to send, and how the
//! emulator's outbound responses are spliced into the stream bound for the
//! child — is computed here, with exact contracts.

use vstd::prelude::*;
use vstd::string::StrSliceExecFns;
use crate::ringbuffer::Ringbuffer;
use crate::term::PtyWriter;

verus! {

/// The ASCII end-of-transmission byte (what a terminal sends for Ctrl-D).
pub const EOT_BYTE: u8 = 0x04;

/// The ASCII carriage-return byte.
pub const CR_BYTE: u8 = 0x0d;

/// How often an unanswered end-of-transmission is retransmitted, in
/// milliseconds.
pub const EOT_RETRANSMIT_MS: u64 = 500;

/// The grid dimension the emulator starts with: an explicit flag wins,
/// else the environment's value, else the built-in default.
pub fn effective_dimension(flag: Option<u16>, env: Option<u16>, fallback: u16) -> (r: u16)
    ensures
        flag is Some ==> r == flag.unwrap(),
        flag is None && env is Some ==> r == env.unwrap(),
        flag is None && env is None ==> r == fallback,
{
    match flag {
        Some(v) => v,
        None => match env {
            Some(v) => v,
            None => fallback,
        },
    }
}

/// Where the end-of-transmission protocol stands.
#[derive(Clone, Copy, Debug, PartialEq, Eq, Structural)]
pub enum EotState {
    /// The parent's input is still open; nothing to send.
    Inactive,
    /// The parent's input ended; the end-of-transmission byte is due.
    SendEot,
    /// The end-of-transmission byte was sent at the given time, in
    /// milliseconds; it is re-sent if the child keeps running long enough.
    SentEot(u64),
}

/// Whether the end-of-transmission sequence should be sent now: it is due
/// when freshly requested, and again each time the retransmission interval
/// has passed since the last send.
pub open spec fn should_send_eot_spec(state: EotState, now_ms: u64) -> bool {
    match state {
        EotState::Inactive => false,
        EotState::SendEot => true,
        EotState::SentEot(t) => now_ms >= t + EOT_RETRANSMIT_MS,
    }
}

/// Whether the end-of-transmission sequence should be sent now.
pub fn should_send_eot(state: &EotState, now_ms: u64) -> (r: bool)
    ensures
        r == should_send_eot_spec(*state, now_ms),
{
    match state {
        EotState::Inactive => false,
        EotState::SendEot => true,
        EotState::SentEot(t) => now_ms >= *t && now_ms - *t >= EOT_RETRANSMIT_MS,
    }
}

/// The bytes that carry the end-of-transmission: the byte itself, preceded
/// by a carriage return unless one was just written.
pub open spec fn eot_sequence_spec(last_written: u8) -> Seq<u8> {
    if last_written == CR_BYTE {
        seq![EOT_BYTE]
    } else {
        seq![CR_BYTE, EOT_BYTE]
    }
}

/// The bytes that carry the end-of-transmission.
pub fn eot_sequence(last_written: u8) -> (r: Vec<u8>)
    ensures
        r@ == eot_sequence_spec(last_written),
{
    let mut r: Vec<u8> = Vec::new();
    if last_written != CR_BYTE {
        r.push(CR_BYTE);
    }
    r.push(EOT_BYTE);
    proof {
        assert(r@ =~= eot_sequence_spec(last_written));
    }
    r
}

/// The bounded queue of responses the emulator wants sent to the child:
/// ordered byte fragments, capped at 128 entries, overflow dropped
/// silently.
pub struct ResponseQueue {
    items: Vec<Vec<u8>>,
}

/// The capacity of a [`ResponseQueue`].
pub const RESPONSE_QUEUE_CAP: usize = 128;

impl ResponseQueue {
    /// The queued fragments, oldest first.
    pub closed spec fn view(&self) -> Seq<Seq<u8>> {
        Seq::new(self.items@.len(), |i: int| self.items@[i]@)
    }

    /// A fresh, empty queue.
    pub fn new() -> (r: ResponseQueue)
        ensures
            r@ == Seq::<Seq<u8>>::empty(),
    {
        let r = ResponseQueue { items: Vec::new() };
        proof {
            assert(r@ =~= Seq::<Seq<u8>>::empty());
        }
        r
    }

    /// The number of queued fragments.
    pub fn len(&self) -> (n: usize)
        ensures
            n == self@.len(),
    {
        self.items.len()
    }

    /// Whether the queue holds no fragment.
    pub fn is_empty(&self) -> (r: bool)
        ensures
            r == (self@.len() == 0),
    {
        self.items.len() == 0
    }

    /// Append one fragment; a full queue drops it silently.
    pub fn push(&mut self, text: Vec<u8>)
        ensures
            old(self)@.len() < RESPONSE_QUEUE_CAP ==> final(self)@ == old(self)@.push(text@),
            old(self)@.len() >= RESPONSE_QUEUE_CAP ==> final(self)@ == old(self)@,
    {
        if self.items.len() < RESPONSE_QUEUE_CAP {
            let ghost t = text@;
            self.items.push(text);
            proof {
                assert(self@ =~= old(self)@.push(t));
            }
        }
    }

    /// Remove and return the oldest fragment, if any.
    pub fn pop_front(&mut self) -> (r: Option<Vec<u8>>)
        ensures
            old(self)@.len() == 0 ==> r is None && final(self)@ == old(self)@,
            old(self)@.len() > 0 ==> final(self)@ == old(self)@.skip(1) && (r matches Some(v)
                && v@ == old(self)@[0]),
    {
        if self.items.len() == 0 {
            None
        } else {
            let v = self.items.remove(0);
            proof {
                assert(self@ =~= old(self)@.skip(1));
            }
            Some(v)
        }
    }
}

impl PtyWriter for ResponseQueue {
    /// Queue one emulator response, as bytes.
    fn write(&mut self, text: String) {
        self.push(text.as_str().as_bytes_vec());
    }
}

/// Which descriptors the non-interactive loop should wait on: the parent's
/// input only while there is room and no special transmission is pending,
/// the child's output always, and the child's input whenever there is
/// something to send.
#[derive(Clone, Copy, Debug, PartialEq, Eq, Structural)]
pub struct NonInteractivePoll {
    /// Wait for the parent's standard input to become readable.
    pub stdin_read: bool,
    /// Wait for the pseudo-terminal to become readable.
    pub pty_read: bool,
    /// Wait for the pseudo-terminal to become writable.
    pub pty_write: bool,
}

/// Decide the poll set of one non-interactive iteration.
pub fn non_interactive_poll(
    stdin_full: bool,
    eot: &EotState,
    responses_empty: bool,
    stdin_buf_empty: bool,
    send_eot: bool,
) -> (r: NonInteractivePoll)
    ensures
        r.stdin_read == (!stdin_full && *eot is Inactive && responses_empty),
        r.pty_read == true,
        r.pty_write == (!stdin_buf_empty || send_eot || !responses_empty),
{
    NonInteractivePoll {
        stdin_read: !stdin_full && matches!(eot, EotState::Inactive) && responses_empty,
        pty_read: true,
        pty_write: !stdin_buf_empty || send_eot || !responses_empty,
    }
}

/// Which descriptors the interactive loop should wait on: each side is read
/// while its buffer has room and written while its buffer has data.
#[derive(Clone, Copy, Debug, PartialEq, Eq, Structural)]
pub struct InteractivePoll {
    /// Wait for the parent's standard input to become readable.
    pub stdin_read: bool,
    /// Wait for the pseudo-terminal to become readable.
    pub pty_read: bool,
    /// Wait for the pseudo-terminal to become writable.
    pub pty_write: bool,
    /// Wait for the parent's standard output to become writable.
    pub stdout_write: bool,
}

/// Decide the poll set of one interactive iteration.
pub fn interactive_poll(
    stdin_full: bool,
    stdout_full: bool,
    stdin_empty: bool,
    stdout_empty: bool,
) -> (r: InteractivePoll)
    ensures
        r.stdin_read == !stdin_full,
        r.pty_read == !stdout_full,
        r.pty_write == !stdin_empty,
        r.stdout_write == !stdout_empty,
{
    InteractivePoll {
        stdin_read: !stdin_full,
        pty_read: !stdout_full,
        pty_write: !stdin_empty,
        stdout_write: !stdout_empty,
    }
}

/// Refill the stream bound for the child when it has run dry: an outbound
/// emulator response first; otherwise, if the end-of-transmission is due,
/// its byte sequence, recording the send time. A non-empty buffer is left
/// alone. A response longer than the whole buffer — none is, in practice —
/// is truncated to the buffer's capacity.
pub fn stdin_feed_step(
    stdin_buf: &mut Ringbuffer,
    queue: &mut ResponseQueue,
    eot: &mut EotState,
    last_written: u8,
    send_eot: bool,
    now_ms: u64,
)
    requires
        old(stdin_buf).wf(),
        old(stdin_buf).spec_capacity() >= 2,
    ensures
        final(stdin_buf).wf(),
        final(stdin_buf).spec_capacity() == old(stdin_buf).spec_capacity(),
        old(stdin_buf)@.len() > 0 ==> final(stdin_buf)@ == old(stdin_buf)@ && final(queue)@
            == old(queue)@ && *final(eot) == *old(eot),
        old(stdin_buf)@.len() == 0 && old(queue)@.len() > 0 ==> final(stdin_buf)@ == old(
            queue,
        )@[0].take(
            if old(queue)@[0].len() <= old(stdin_buf).spec_capacity() {
                old(queue)@[0].len() as int
            } else {
                old(stdin_buf).spec_capacity() as int
            },
        ) && final(queue)@ == old(queue)@.skip(1) && *final(eot) == *old(eot),
        old(stdin_buf)@.len() == 0 && old(queue)@.len() == 0 && send_eot ==> final(stdin_buf)@
            == eot_sequence_spec(last_written) && final(queue)@ == old(queue)@ && *final(eot)
            == EotState::SentEot(now_ms),
        old(stdin_buf)@.len() == 0 && old(queue)@.len() == 0 && !send_eot ==> final(stdin_buf)@
            == old(stdin_buf)@ && final(queue)@ == old(queue)@ && *final(eot) == *old(eot),
{
    if !stdin_buf.is_empty() {
        return ;
    }
    match queue.pop_front() {
        Some(text) => {
            let n = stdin_buf.push_slice(text.as_slice());
            proof {
                assert(Seq::<u8>::empty() + text@.take(n as int) =~= text@.take(n as int));
            }
        },
        None => {
            if send_eot {
                let seq_bytes = eot_sequence(last_written);
                let n = stdin_buf.push_slice(seq_bytes.as_slice());
                *eot = EotState::SentEot(now_ms);
                proof {
                    assert(seq_bytes@.take(n as int) =~= seq_bytes@);
                    assert(Seq::<u8>::empty() + seq_bytes@ =~= seq_bytes@);
                }
            }
        },
    }
}

} // verus!
