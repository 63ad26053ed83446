//! The scripted transport.

use ezrama::time::Duration;
use ezrama::transport::{MockTransport, ReadError, Transport, WriteError};

const T: Duration = 10_000_000;

#[test]
fn mock_records_writes_and_succeeds_by_default() {
    let mut mock = MockTransport::new();
    assert_eq!(mock.write(b"one", T), Ok(()));
    assert_eq!(mock.write(b"two", T), Ok(()));
    assert_eq!(mock.writes, vec![b"one".to_vec(), b"two".to_vec()]);
}

#[test]
fn mock_serves_scripted_write_results_in_order() {
    let mut mock = MockTransport::new();
    mock.queue_write_result(Err(WriteError::TimedOut))
        .queue_write_result(Ok(()));
    assert_eq!(mock.write(b"a", T), Err(WriteError::TimedOut));
    assert_eq!(mock.write(b"b", T), Ok(()));
    assert_eq!(mock.write(b"c", T), Ok(()));
}

#[test]
fn mock_serves_reads_timeouts_and_errors() {
    let mut mock = MockTransport::new();
    mock.queue_read(b"TRYX".to_vec())
        .queue_timeout()
        .queue_read_error(ReadError::Lost("unplugged".into()));
    assert_eq!(mock.pending_reads(), 3);
    assert_eq!(mock.read(T), Ok(b"TRYX".to_vec()));
    assert_eq!(mock.read(T), Ok(Vec::new()));
    assert_eq!(mock.read(T), Err(ReadError::Lost("unplugged".into())));
    assert_eq!(mock.read(T), Ok(Vec::new()));
    assert_eq!(mock.pending_reads(), 0);
}

#[test]
fn mock_holds_reads_until_a_write_happens() {
    let mut mock = MockTransport::new();
    mock.queue_read(b"stale".to_vec())
        .queue_after_write(b"reply".to_vec());
    assert_eq!(mock.read(T), Ok(b"stale".to_vec()));
    assert_eq!(mock.read(T), Ok(Vec::new()));
    assert_eq!(mock.read(T), Ok(Vec::new()));
    assert_eq!(mock.pending_reads(), 2);
    assert_eq!(mock.write(b"request", T), Ok(()));
    assert_eq!(mock.read(T), Ok(b"reply".to_vec()));
    assert_eq!(mock.pending_reads(), 0);
}

#[test]
fn errors_render() {
    assert_eq!(
        WriteError::Partial { written: 3 }.describe(),
        "write stopped after 3 bytes"
    );
    assert_eq!(
        WriteError::Failed {
            written: 0,
            reason: "x".into()
        }
        .describe(),
        "write failed after 0 bytes: x"
    );
    assert_eq!(ReadError::Failed("y".into()).describe(), "read failed: y");
}

#[test]
fn every_transport_error_has_its_own_words() {
    let lost = WriteError::Lost("gone".into());
    assert_eq!(lost.describe(), "device lost: gone");
    assert_eq!(ReadError::Lost("gone".into()).describe(), "device lost: gone");
    assert_eq!(ReadError::Interrupted.describe(), "read interrupted");
    assert_ne!(WriteError::TimedOut.describe(), lost.describe());
}
