//! Tests of the proxy-loop decision logic: the end-of-transmission
//! protocol, the outbound response queue, and the poll-set bookkeeping.

use termsnap::pollset::{clamp_timeout_ms, gather_indices, scatter_results};
use termsnap::proxy::{
    eot_sequence, interactive_poll, non_interactive_poll, should_send_eot, stdin_feed_step,
    EotState, ResponseQueue,
};
use termsnap::ringbuffer::Ringbuffer;
use termsnap::PtyWriter;

#[test]
fn eot_retransmits_every_interval() {
    // The end-of-transmission is due when requested, then again each time
    // the interval elapses after a send, indefinitely.
    assert!(!should_send_eot(&EotState::Inactive, 0));
    assert!(!should_send_eot(&EotState::Inactive, 10_000));
    assert!(should_send_eot(&EotState::SendEot, 0));
    assert!(!should_send_eot(&EotState::SentEot(1000), 1000));
    assert!(!should_send_eot(&EotState::SentEot(1000), 1499));
    assert!(should_send_eot(&EotState::SentEot(1000), 1500));
    assert!(should_send_eot(&EotState::SentEot(1000), 99_000));
}

#[test]
fn eot_sequence_depends_on_last_byte() {
    // A carriage return is prefixed unless one was just written.
    assert_eq!(eot_sequence(0), vec![0x0d, 0x04]);
    assert_eq!(eot_sequence(b'a'), vec![0x0d, 0x04]);
    assert_eq!(eot_sequence(0x0d), vec![0x04]);
}

#[test]
fn eot_sent_once_until_interval_passes() {
    // After input ends, exactly one sequence goes into the stream; the
    // state then waits out the interval before the next send.
    let mut rb = Ringbuffer::new(16);
    let mut queue = ResponseQueue::new();
    let mut eot = EotState::SendEot;

    let send = should_send_eot(&eot, 2000);
    assert!(send);
    stdin_feed_step(&mut rb, &mut queue, &mut eot, 0, send, 2000);
    assert_eq!(rb.peek_all(), vec![0x0d, 0x04]);
    assert_eq!(eot, EotState::SentEot(2000));

    // drained by the child; still inside the interval: nothing new
    rb.advance_read(2);
    let send = should_send_eot(&eot, 2400);
    assert!(!send);
    stdin_feed_step(&mut rb, &mut queue, &mut eot, 0x04, send, 2400);
    assert!(rb.is_empty());

    // interval over: retransmitted
    let send = should_send_eot(&eot, 2500);
    assert!(send);
    stdin_feed_step(&mut rb, &mut queue, &mut eot, 0x04, send, 2500);
    assert_eq!(rb.peek_all(), vec![0x0d, 0x04]);
    assert_eq!(eot, EotState::SentEot(2500));
}

#[test]
fn responses_take_priority_over_eot() {
    // A queued emulator response is spliced in before any
    // end-of-transmission, and only when the stream has run dry.
    let mut rb = Ringbuffer::new(16);
    let mut queue = ResponseQueue::new();
    queue.write("\x1b[?6c".to_string());
    let mut eot = EotState::SendEot;
    stdin_feed_step(&mut rb, &mut queue, &mut eot, 0, true, 777);
    assert_eq!(rb.peek_all(), b"\x1b[?6c".to_vec());
    assert!(queue.is_empty());
    assert_eq!(eot, EotState::SendEot);
}

#[test]
fn nonempty_stream_left_alone() {
    let mut rb = Ringbuffer::new(16);
    rb.push_slice(&[42]);
    let mut queue = ResponseQueue::new();
    queue.write("x".to_string());
    let mut eot = EotState::SendEot;
    stdin_feed_step(&mut rb, &mut queue, &mut eot, 0, true, 1);
    assert_eq!(rb.peek_all(), vec![42]);
    assert_eq!(queue.len(), 1);
    assert_eq!(eot, EotState::SendEot);
}

#[test]
fn response_queue_caps_at_128() {
    // Overflow beyond 128 queued responses is dropped silently.
    let mut queue = ResponseQueue::new();
    for i in 0..200u32 {
        queue.write(format!("r{i}"));
    }
    assert_eq!(queue.len(), 128);
    let first = queue.pop_front().unwrap();
    assert_eq!(first, b"r0".to_vec());
    assert_eq!(queue.len(), 127);
}

#[test]
fn non_interactive_poll_slots() {
    // Parent stdin only while there is room and nothing special pending;
    // the child's output always; the child's input whenever data waits.
    let p = non_interactive_poll(false, &EotState::Inactive, true, true, false);
    assert!(p.stdin_read && p.pty_read && !p.pty_write);
    let p = non_interactive_poll(true, &EotState::Inactive, true, true, false);
    assert!(!p.stdin_read);
    let p = non_interactive_poll(false, &EotState::SendEot, true, true, true);
    assert!(!p.stdin_read && p.pty_write);
    let p = non_interactive_poll(false, &EotState::Inactive, false, true, false);
    assert!(!p.stdin_read && p.pty_write);
    let p = non_interactive_poll(false, &EotState::Inactive, true, false, false);
    assert!(p.stdin_read && p.pty_write);
}

#[test]
fn interactive_poll_slots() {
    let p = interactive_poll(false, false, true, true);
    assert!(p.stdin_read && p.pty_read && !p.pty_write && !p.stdout_write);
    let p = interactive_poll(true, true, false, false);
    assert!(!p.stdin_read && !p.pty_read && p.pty_write && p.stdout_write);
}

#[test]
fn poll_set_packing_round_trip() {
    // Packing keeps order; scattering restores the original positions and
    // reports empty slots as not ready.
    let present = vec![true, false, true, true, false];
    let packed = gather_indices(&present);
    assert_eq!(packed, vec![0, 2, 3]);
    let ready = vec![true, false, true];
    let scattered = scatter_results(5, &packed, &ready);
    assert_eq!(scattered, vec![true, false, false, true, false]);
}

#[test]
fn timeout_clamped_to_poll_range() {
    assert_eq!(clamp_timeout_ms(0), 0);
    assert_eq!(clamp_timeout_ms(500), 500);
    assert_eq!(clamp_timeout_ms(u64::MAX), i32::MAX);
}
