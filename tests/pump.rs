use tcprelay::pump::{
    worse, Flow, Pump, PumpAction, PumpError, ReadOutcome, Verdict, WriteOutcome, BACKLOG_LIMIT, GROWTH,
    INITIAL_CAPACITY,
};

fn read(p: &mut Pump, bytes: &[u8]) -> PumpAction {
    p.on_read(ReadOutcome::Data, bytes)
}

#[test]
fn fresh_pump_asks_for_a_full_buffer() {
    let p = Pump::new(true, Flow::new());
    assert_eq!(p.action(), PumpAction::Read(4096));
    assert_eq!(INITIAL_CAPACITY, 4096);
    assert!(p.pending().is_empty());
}

#[test]
fn unreadable_event_leaves_session_open() {
    let p = Pump::new(false, Flow::new());
    assert_eq!(p.action(), PumpAction::Finish(Verdict::Open));
}

#[test]
fn ping_is_forwarded_then_session_stays_open() {
    let mut p = Pump::new(true, Flow::new());
    assert_eq!(read(&mut p, b"ping"), PumpAction::Read(4092));
    assert_eq!(p.on_read(ReadOutcome::WouldBlock, &[]), PumpAction::Write);
    assert_eq!(p.pending(), b"ping");
    assert_eq!(p.on_write(WriteOutcome::Wrote(4)), PumpAction::Finish(Verdict::Open));
}

#[test]
fn echoed_ping_comes_back_to_client() {
    // upstream's reply travels through a pump of its own
    let mut p = Pump::new(true, Flow::new());
    read(&mut p, b"ping");
    p.on_read(ReadOutcome::WouldBlock, &[]);
    assert_eq!(p.pending(), b"ping");
    let mut back = Pump::new(true, Flow::new());
    read(&mut back, p.pending());
    assert_eq!(back.on_read(ReadOutcome::WouldBlock, &[]), PumpAction::Write);
    assert_eq!(back.pending(), b"ping");
}

#[test]
fn data_then_close_is_forwarded_before_teardown() {
    let mut p = Pump::new(true, Flow::new());
    read(&mut p, b"hello ");
    read(&mut p, b"world");
    assert_eq!(read(&mut p, b""), PumpAction::Write);
    assert_eq!(p.pending(), b"hello world");
    assert_eq!(p.on_write(WriteOutcome::Wrote(11)), PumpAction::Finish(Verdict::Closed));
}

#[test]
fn close_with_nothing_read_closes_at_once() {
    let mut p = Pump::new(true, Flow::new());
    assert_eq!(read(&mut p, b""), PumpAction::Finish(Verdict::Closed));
}

#[test]
fn would_block_with_nothing_read_stays_open() {
    let mut p = Pump::new(true, Flow::new());
    assert_eq!(p.on_read(ReadOutcome::WouldBlock, &[]), PumpAction::Finish(Verdict::Open));
}

#[test]
fn interrupted_read_is_retried() {
    let mut p = Pump::new(true, Flow::new());
    read(&mut p, b"ab");
    assert_eq!(p.on_read(ReadOutcome::Interrupted, &[]), PumpAction::Read(4094));
    read(&mut p, b"c");
    p.on_read(ReadOutcome::WouldBlock, &[]);
    assert_eq!(p.pending(), b"abc");
}

#[test]
fn read_error_fails_the_session() {
    let mut p = Pump::new(true, Flow::new());
    read(&mut p, b"ab");
    assert_eq!(
        p.on_read(ReadOutcome::Failed, &[]),
        PumpAction::Finish(Verdict::Failed(PumpError::ReadFailed))
    );
}

#[test]
fn short_write_keeps_the_rest_for_later() {
    let mut p = Pump::new(true, Flow::new());
    read(&mut p, b"abcd");
    p.on_read(ReadOutcome::WouldBlock, &[]);
    assert_eq!(p.on_write(WriteOutcome::Wrote(3)), PumpAction::Finish(Verdict::Open));
    let flow = p.into_flow();
    assert_eq!(flow.backlog, b"d".to_vec());
    assert!(!flow.ended);
    assert!(flow.is_backlogged());
}

#[test]
fn zero_byte_write_fails_the_session() {
    let mut p = Pump::new(true, Flow::new());
    read(&mut p, b"abcd");
    p.on_read(ReadOutcome::WouldBlock, &[]);
    assert_eq!(
        p.on_write(WriteOutcome::Wrote(0)),
        PumpAction::Finish(Verdict::Failed(PumpError::WriteZero))
    );
}

#[test]
fn backlog_is_written_first_when_destination_is_writable() {
    let flow = Flow { backlog: b"xy".to_vec(), ended: false };
    let mut p = Pump::new(false, flow);
    assert_eq!(p.action(), PumpAction::Write);
    assert_eq!(p.pending(), b"xy");
    assert_eq!(p.on_write(WriteOutcome::Wrote(2)), PumpAction::Finish(Verdict::Open));
    assert!(!p.into_flow().is_backlogged());
}

#[test]
fn new_bytes_queue_behind_the_backlog() {
    let flow = Flow { backlog: b"ab".to_vec(), ended: false };
    let mut p = Pump::new(true, flow);
    assert_eq!(p.action(), PumpAction::Read(4096));
    read(&mut p, b"cd");
    p.on_read(ReadOutcome::WouldBlock, &[]);
    assert_eq!(p.pending(), b"abcd");
}

#[test]
fn large_backlog_stops_reading() {
    let flow = Flow { backlog: vec![1u8; BACKLOG_LIMIT], ended: false };
    let p = Pump::new(true, flow);
    assert_eq!(BACKLOG_LIMIT, 65536);
    assert_eq!(p.action(), PumpAction::Write);
}

#[test]
fn ended_source_closes_once_backlog_is_written() {
    let mut p = Pump::new(true, Flow::new());
    read(&mut p, b"abcd");
    read(&mut p, b"");
    assert_eq!(p.on_write(WriteOutcome::Wrote(1)), PumpAction::Finish(Verdict::Open));
    let flow = p.into_flow();
    assert!(flow.ended);
    assert_eq!(flow.backlog, b"bcd".to_vec());
    let mut q = Pump::new(true, flow);
    assert_eq!(q.action(), PumpAction::Write);
    assert_eq!(q.on_write(WriteOutcome::Wrote(3)), PumpAction::Finish(Verdict::Closed));
}

#[test]
fn ended_source_with_nothing_left_closes() {
    let flow = Flow { backlog: Vec::new(), ended: true };
    let p = Pump::new(true, flow);
    assert_eq!(p.action(), PumpAction::Finish(Verdict::Closed));
}

#[test]
fn write_error_fails_the_session() {
    let mut p = Pump::new(true, Flow::new());
    read(&mut p, b"abcd");
    p.on_read(ReadOutcome::WouldBlock, &[]);
    assert_eq!(
        p.on_write(WriteOutcome::Failed),
        PumpAction::Finish(Verdict::Failed(PumpError::WriteFailed))
    );
}

#[test]
fn interrupted_write_is_retried_and_would_block_keeps_everything() {
    let mut p = Pump::new(true, Flow::new());
    read(&mut p, b"abcd");
    read(&mut p, b"");
    assert_eq!(p.on_write(WriteOutcome::Interrupted), PumpAction::Write);
    assert_eq!(p.on_write(WriteOutcome::WouldBlock), PumpAction::Finish(Verdict::Open));
    let flow = p.into_flow();
    assert_eq!(flow.backlog, b"abcd".to_vec());
    assert!(flow.ended);
}

#[test]
fn full_buffer_grows_and_keeps_draining() {
    let mut p = Pump::new(true, Flow::new());
    let big = vec![7u8; 4096];
    assert_eq!(read(&mut p, &big), PumpAction::Read(GROWTH));
    assert_eq!(GROWTH, 1024);
    let more = vec![9u8; 1024];
    assert_eq!(read(&mut p, &more), PumpAction::Read(1024));
    read(&mut p, b"z");
    assert_eq!(p.on_read(ReadOutcome::WouldBlock, &[]), PumpAction::Write);
    assert_eq!(p.pending().len(), 4096 + 1024 + 1);
    assert_eq!(p.pending()[4095], 7);
    assert_eq!(p.pending()[4096], 9);
    assert_eq!(p.pending()[5120], b'z');
}

#[test]
fn finished_pump_ignores_further_outcomes() {
    let mut p = Pump::new(true, Flow::new());
    read(&mut p, b"");
    assert_eq!(read(&mut p, b"late"), PumpAction::Finish(Verdict::Closed));
    assert_eq!(p.on_write(WriteOutcome::Wrote(4)), PumpAction::Finish(Verdict::Closed));
    assert!(p.pending().is_empty());
}

#[test]
fn flow_wants_reading_until_ended_or_full() {
    assert!(Flow::new().wants_reading());
    assert!(!Flow { backlog: Vec::new(), ended: true }.wants_reading());
    assert!(!Flow { backlog: vec![0u8; BACKLOG_LIMIT], ended: false }.wants_reading());
    assert!(Flow { backlog: vec![0u8; BACKLOG_LIMIT - 1], ended: false }.wants_reading());
}

#[test]
fn worse_verdict_wins() {
    let failed = Verdict::Failed(PumpError::ReadFailed);
    assert_eq!(worse(Verdict::Open, Verdict::Open), Verdict::Open);
    assert_eq!(worse(Verdict::Open, Verdict::Closed), Verdict::Closed);
    assert_eq!(worse(Verdict::Closed, Verdict::Open), Verdict::Closed);
    assert_eq!(worse(Verdict::Closed, failed), failed);
    assert_eq!(worse(failed, Verdict::Open), failed);
    assert_eq!(
        worse(Verdict::Failed(PumpError::WriteZero), failed),
        Verdict::Failed(PumpError::WriteZero)
    );
}
