use std::io::{ErrorKind, Write};

use minishell::session::{
    drain_step, flush_pending, Channel, flush_step, pending_input_overflows, DrainStep, FlushStep, ReadOutcome, WriteOutcome, MAX_PENDING_INPUT, SOCK_KEEPALIVE_CNT, SOCK_KEEPALIVE_IDLE_SECS,
    SOCK_KEEPALIVE_INTVL_SECS, SOCK_USER_TIMEOUT_MS,
};

/// Accepts at most `budget` bytes, then reports `WouldBlock`.
struct BudgetWriter {
    accepted: Vec<u8>,
    budget: usize,
}

impl BudgetWriter {
    fn new(budget: usize) -> Self {
        Self { accepted: Vec::new(), budget }
    }
}

impl Write for BudgetWriter {
    fn write(&mut self, buf: &[u8]) -> std::io::Result<usize> {
        if self.budget == 0 {
            return Err(std::io::Error::new(ErrorKind::WouldBlock, "send buffer full"));
        }
        let n = buf.len().min(self.budget);
        self.accepted.extend_from_slice(&buf[..n]);
        self.budget -= n;
        Ok(n)
    }

    fn flush(&mut self) -> std::io::Result<()> {
        Ok(())
    }
}

#[test]
fn flush_pending_keeps_every_byte_across_would_block() {
    let typed = b"ssh root@10.0.0.1\r\n";
    let mut pending = typed.to_vec();

    let mut writer = Channel::new(BudgetWriter::new(5));
    flush_pending(&mut writer, &mut pending).unwrap();
    assert_eq!(writer.inner.accepted, typed[..5].to_vec());
    assert_eq!(
        pending,
        typed[5..].to_vec(),
        "bytes the channel refused must be retained, not dropped",
    );

    flush_pending(&mut writer, &mut pending).unwrap();
    assert_eq!(pending, typed[5..].to_vec());

    writer.inner.budget = usize::MAX;
    flush_pending(&mut writer, &mut pending).unwrap();
    assert!(pending.is_empty());
    assert_eq!(writer.inner.accepted, typed.to_vec());
}

struct FailingWriter;

impl Write for FailingWriter {
    fn write(&mut self, _buf: &[u8]) -> std::io::Result<usize> {
        Err(std::io::Error::new(ErrorKind::BrokenPipe, "peer gone"))
    }

    fn flush(&mut self) -> std::io::Result<()> {
        Ok(())
    }
}

#[test]
fn flush_pending_propagates_transport_errors() {
    let mut pending = b"x".to_vec();
    let err = flush_pending(&mut Channel::new(FailingWriter), &mut pending).unwrap_err();
    assert_eq!(err.kind(), ErrorKind::BrokenPipe);
    assert_eq!(pending, b"x".to_vec(), "nothing was written, so nothing may be discarded");
}

struct ClosedWriter;

impl Write for ClosedWriter {
    fn write(&mut self, _buf: &[u8]) -> std::io::Result<usize> {
        Ok(0)
    }

    fn flush(&mut self) -> std::io::Result<()> {
        Ok(())
    }
}

#[test]
fn flush_pending_treats_zero_write_as_closed_channel() {
    let mut pending = b"x".to_vec();
    let err = flush_pending(&mut Channel::new(ClosedWriter), &mut pending).unwrap_err();
    assert_eq!(err.kind(), ErrorKind::WriteZero);
}

#[test]
fn flush_pending_with_nothing_pending_writes_nothing() {
    let mut pending: Vec<u8> = Vec::new();
    let mut writer = Channel::new(BudgetWriter::new(10));
    flush_pending(&mut writer, &mut pending).unwrap();
    assert!(writer.inner.accepted.is_empty());
    assert!(pending.is_empty());
}

#[test]
fn dead_peer_detection_is_bounded() {
    let worst_case_secs = SOCK_USER_TIMEOUT_MS / 1000
        + SOCK_KEEPALIVE_IDLE_SECS
        + SOCK_KEEPALIVE_INTVL_SECS * SOCK_KEEPALIVE_CNT;
    assert!(worst_case_secs <= 90);
}

#[test]
fn pending_input_bound() {
    assert!(!pending_input_overflows(0, MAX_PENDING_INPUT));
    assert!(pending_input_overflows(1, MAX_PENDING_INPUT));
    assert!(!pending_input_overflows(MAX_PENDING_INPUT - 10, 10));
}

#[test]
fn flush_step_follows_each_answer() {
    assert_eq!(flush_step(0, 19, WriteOutcome::Wrote(5)), FlushStep::Continue(5));
    assert_eq!(flush_step(5, 19, WriteOutcome::Wrote(14)), FlushStep::Continue(19));
    assert_eq!(flush_step(5, 19, WriteOutcome::Wrote(0)), FlushStep::Closed);
    assert_eq!(flush_step(5, 19, WriteOutcome::WouldBlock), FlushStep::Stop);
    assert_eq!(flush_step(0, 1, WriteOutcome::Failed), FlushStep::Fail);
}

#[test]
fn drain_step_stops_only_at_end_of_file_or_would_block() {
    assert_eq!(drain_step(ReadOutcome::Read(0)), DrainStep::Eof);
    assert_eq!(drain_step(ReadOutcome::Read(4096)), DrainStep::Forward(4096));
    assert_eq!(drain_step(ReadOutcome::Read(7)), DrainStep::Forward(7));
    assert_eq!(drain_step(ReadOutcome::WouldBlock), DrainStep::Stop);
    assert_eq!(drain_step(ReadOutcome::Failed), DrainStep::Fail);
}
