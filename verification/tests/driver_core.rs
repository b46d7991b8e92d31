//! The stream-slot table, the retry policy, the prepared registry, and
//! the request body builders.

use scylla_rs::access::{BatchCollector, Keyspace, PrepareRequest, SelectBuilder};
use scylla_rs::error::{parse_error_body, DriverError};
use scylla_rs::query::{BatchType, Consistency, ExecuteFrameBuilder, QueryFrameBuilder};
use scylla_rs::registry::{parse_prepared_result, statement_id, PreparedRegistry};
use scylla_rs::reporter::{SlotState, StreamIds};
use scylla_rs::token::token_of;
use scylla_rs::worker::{
    classify_error, handle_unprepared_error, BasicRetryWorker, RetryAction, SelectWorker,
};

#[test]
fn stream_ids_allocate_and_release() {
    let mut ids = StreamIds::new(4);
    assert_eq!(ids.available(), 4);
    let a = ids.allocate().unwrap();
    let b = ids.allocate().unwrap();
    assert_ne!(a, b);
    assert_eq!(ids.available(), 2);
    // Releasing an id returns its slot to free exactly once.
    assert!(ids.release(a).is_ok());
    assert_eq!(ids.available(), 3);
    // A second release of the same id is a protocol violation.
    assert_eq!(ids.release(a), Err(DriverError::Protocol));
    assert_eq!(ids.available(), 3);
    // A release of an id that was never assigned is refused too.
    assert_eq!(ids.release(3), Err(DriverError::Protocol));
}

#[test]
fn stream_ids_exhaustion_signals_backpressure() {
    let mut ids = StreamIds::new(3);
    let mut got = Vec::new();
    for _ in 0..3 {
        got.push(ids.allocate().unwrap());
    }
    got.sort();
    assert_eq!(got, vec![0, 1, 2]);
    // Every slot is occupied: the next assignment reports backpressure.
    assert_eq!(ids.allocate(), None);
    // After a response frees a slot, assignment works again.
    ids.release(1).unwrap();
    assert_eq!(ids.allocate(), Some(1));
}

#[test]
fn stream_ids_full_connection() {
    // A full connection carries 32768 in-flight requests; the next
    // assignment signals backpressure at once.
    let mut ids = StreamIds::new(scylla_rs::reporter::MAX_STREAMS);
    for _ in 0..scylla_rs::reporter::MAX_STREAMS {
        assert!(ids.allocate().is_some());
    }
    assert_eq!(ids.allocate(), None);
    ids.release(12345).unwrap();
    assert_eq!(ids.allocate(), Some(12345));
}

#[test]
fn stream_ids_shutdown_drains_pending() {
    let mut ids = StreamIds::new(4);
    let a = ids.allocate().unwrap();
    let b = ids.allocate().unwrap();
    let mut pending = ids.shutdown();
    pending.sort();
    let mut expected = vec![a, b];
    expected.sort();
    assert_eq!(pending, expected);
    // The table is closed: no new assignment.
    assert_eq!(ids.allocate(), None);
}

#[test]
fn stream_ids_track_slot_states() {
    let mut ids = StreamIds::new(2);
    let a = ids.allocate().unwrap();
    assert_eq!(ids.slots[a as usize], SlotState::AwaitingHeader);
    ids.body_pending(a).unwrap();
    assert_eq!(ids.slots[a as usize], SlotState::AwaitingBody);
    // A header for a free stream id is a protocol violation.
    let free_id = ids.allocate().unwrap();
    ids.release(free_id).unwrap();
    assert_eq!(ids.body_pending(free_id), Err(DriverError::Protocol));
}

#[test]
fn retry_counter_strictly_decreases() {
    let mut w = BasicRetryWorker::new("request").with_retries(2);
    assert_eq!(w.retries(), 2);
    assert!(w.retry());
    assert_eq!(w.retries(), 1);
    assert!(w.retry());
    assert_eq!(w.retries(), 0);
    // At zero the worker stops retrying.
    assert!(!w.retry());
    assert_eq!(w.retries(), 0);
}

#[test]
fn retry_policy_classification() {
    // Unprepared is recovered by repreparing, never surfaced directly.
    assert_eq!(classify_error(0x2500, false, 0), RetryAction::Reprepare);
    // Transient classes retry while attempts remain.
    for &code in &[0x1000u32, 0x1001, 0x1002, 0x1200, 0x0000] {
        assert_eq!(classify_error(code, false, 1), RetryAction::Retry);
        assert_eq!(classify_error(code, false, 0), RetryAction::Surface);
    }
    // A write timeout is retried only for idempotent requests.
    assert_eq!(classify_error(0x1100, true, 1), RetryAction::Retry);
    assert_eq!(classify_error(0x1100, false, 1), RetryAction::Surface);
    // The fatal classes surface at once.
    for &code in &[0x2000u32, 0x2100, 0x2200, 0x2300, 0x2400, 0x000A, 0x0100, 0x1003] {
        assert_eq!(classify_error(code, true, 5), RetryAction::Surface);
    }
}

#[test]
fn retry_policy_consumes_attempts() {
    let mut w = BasicRetryWorker::new(7u32).with_retries(1);
    assert_eq!(w.handle_error(0x1001, false), RetryAction::Retry);
    assert_eq!(w.retries(), 0);
    assert_eq!(w.handle_error(0x1001, false), RetryAction::Surface);
    assert_eq!(w.retries(), 0);
}

#[test]
fn select_worker_reprepare_then_retry() {
    let mut w = *SelectWorker::new(0u8).with_retries(1);
    // An unprepared id asks for a reprepare without consuming a retry.
    assert_eq!(w.handle_error(0x2500, false), RetryAction::Reprepare);
    assert_eq!(w.retries, 1);
    assert_eq!(w.handle_error(0x1200, false), RetryAction::Retry);
    assert_eq!(w.retries, 0);
    assert_eq!(w.handle_error(0x1200, false), RetryAction::Surface);
}

#[test]
fn select_worker_paging() {
    let w = SelectWorker::new(1u8).with_retries(3).with_paging(100, Some(vec![1, 2]));
    assert_eq!(w.retries, 3);
    assert_eq!(w.page_size, Some(100));
    assert_eq!(w.paging_state, Some(vec![1, 2]));
}

#[test]
fn error_body_decoding() {
    // An overloaded error with the message "busy".
    let mut body = vec![0x00, 0x00, 0x10, 0x01, 0x00, 0x04];
    body.extend_from_slice(b"busy");
    let e = parse_error_body(&body).unwrap();
    assert_eq!(e.code(), 0x1001);
    assert_eq!(e.message, b"busy".to_vec());
    assert!(e.unprepared_id.is_none());
    // An unprepared error carries the prepared id that failed.
    let id = statement_id("SELECT v FROM t WHERE k = ?");
    let mut unprep = vec![0x00, 0x00, 0x25, 0x00, 0x00, 0x00, 0x00, 0x10];
    unprep.extend_from_slice(&id);
    let mut e2 = parse_error_body(&unprep).unwrap();
    assert_eq!(e2.take_unprepared_id(), Some(id));
    assert_eq!(e2.take_unprepared_id(), None);
    // An unknown code is a protocol violation.
    let bad = vec![0x00, 0x00, 0x99, 0x99, 0x00, 0x00];
    assert!(parse_error_body(&bad).is_err());
    // An empty message is the shortest well-formed body.
    let empty_msg = parse_error_body(&[0x00, 0x00, 0x10, 0x01, 0x00, 0x00]).unwrap();
    assert_eq!(empty_msg.code(), 0x1001);
    assert!(empty_msg.message.is_empty());
}

#[test]
fn registry_checks_md5_of_statement() {
    // md5("SELECT v FROM t WHERE k = ?")
    let expected: [u8; 16] = [
        31, 199, 224, 28, 137, 183, 241, 135, 93, 17, 99, 137, 91, 25, 24, 128,
    ];
    let stmt = "SELECT v FROM t WHERE k = ?";
    assert_eq!(statement_id(stmt), expected);
    let mut reg = PreparedRegistry::new();
    // A server answer whose id matches the digest is stored.
    reg.insert(stmt.to_string(), &expected, vec![0]).unwrap();
    assert_eq!(reg.len(), 1);
    let entry = reg.get(&expected).unwrap();
    assert_eq!(entry.statement, stmt);
    assert_eq!(entry.pk_indexes, vec![0]);
    // A mismatching id is a protocol violation and is not stored.
    let wrong = [0u8; 16];
    assert_eq!(reg.insert("other".to_string(), &wrong, vec![]), Err(DriverError::Protocol));
    assert!(reg.get(&wrong).is_none());
}

#[test]
fn prepared_response_round_trip() {
    // A Prepared RESULT: kind 4, the id as short bytes, empty metadata
    // flags and column count, and one partition-key index.
    let stmt = "INSERT INTO t (k, v) VALUES (?, ?)";
    let id = statement_id(stmt);
    let mut body = vec![0, 0, 0, 4, 0, 16];
    body.extend_from_slice(&id);
    body.extend_from_slice(&[0, 0, 0, 0]); // metadata flags
    body.extend_from_slice(&[0, 0, 0, 2]); // two columns
    body.extend_from_slice(&[0, 0, 0, 1]); // one partition-key index
    body.extend_from_slice(&[0, 0]); // index 0
    let parsed = parse_prepared_result(&body).unwrap();
    assert_eq!(parsed.id, id);
    assert_eq!(parsed.pk_indexes, vec![0]);
    // The registry accepts it because the id matches the MD5.
    let mut reg = PreparedRegistry::new();
    let stored = reg.insert_prepared_response(stmt.to_string(), &body).unwrap();
    assert_eq!(stored.id, id);
    assert_eq!(reg.get(&id).unwrap().pk_indexes, vec![0]);
    // The same body under a different statement is a mismatching digest.
    let mut reg2 = PreparedRegistry::new();
    assert!(reg2.insert_prepared_response("other".to_string(), &body).is_err());
    // A body of the wrong kind is refused.
    assert!(parse_prepared_result(&[0, 0, 0, 2, 0, 16]).is_err());
}

#[test]
fn registry_md5_more_vectors() {
    assert_eq!(
        statement_id("abc"),
        [144, 1, 80, 152, 60, 210, 79, 176, 214, 150, 63, 125, 40, 225, 127, 114]
    );
    assert_eq!(
        statement_id("INSERT INTO t (k, v) VALUES (?, ?)"),
        [0, 209, 233, 75, 48, 109, 225, 27, 27, 19, 73, 30, 199, 4, 90, 122]
    );
}

#[test]
fn unprepared_recovery_uses_registry() {
    let stmt = "SELECT v FROM t WHERE k = ?";
    let id = statement_id(stmt);
    let mut reg = PreparedRegistry::new();
    reg.insert(stmt.to_string(), &id, vec![0]).unwrap();
    // A known id yields the prepare worker for the original statement.
    let w = handle_unprepared_error(&reg, &id).unwrap();
    assert_eq!(w.statement, stmt);
    assert_eq!(w.id, id);
    // An unknown id escalates.
    assert!(handle_unprepared_error(&reg, &[7u8; 16]).is_none());
}

#[test]
fn query_body_layout() {
    let mut b = QueryFrameBuilder::new("SELECT 1");
    b.consistency(Consistency::Quorum);
    b.value(vec![0xaa, 0xbb]);
    let body = b.build();
    let mut expected = vec![0, 0, 0, 8];
    expected.extend_from_slice(b"SELECT 1");
    expected.extend_from_slice(&[0x00, 0x04]); // quorum
    expected.push(0x01); // values flag
    expected.extend_from_slice(&[0x00, 0x01]); // one value
    expected.extend_from_slice(&[0, 0, 0, 2, 0xaa, 0xbb]);
    assert_eq!(body, expected);
}

#[test]
fn query_body_optional_fields() {
    let mut b = QueryFrameBuilder::new("Q");
    b.consistency(Consistency::One);
    b.page_size(500);
    b.timestamp(2);
    let body = b.build();
    let expected = vec![
        0, 0, 0, 1, b'Q', 0x00, 0x01, 0x24, // flags: page size | timestamp
        0, 0, 0x01, 0xf4, // page size 500
        0, 0, 0, 0, 0, 0, 0, 2, // timestamp 2
    ];
    assert_eq!(body, expected);
}

#[test]
fn execute_body_layout() {
    let id = statement_id("abc");
    let mut b = ExecuteFrameBuilder::new(id);
    b.consistency(Consistency::One);
    b.null_value();
    let body = b.build();
    let mut expected = vec![0x00, 0x10];
    expected.extend_from_slice(&id);
    expected.extend_from_slice(&[0x00, 0x01, 0x01, 0x00, 0x01]);
    expected.extend_from_slice(&[0xff, 0xff, 0xff, 0xff]);
    assert_eq!(body, expected);
}

struct TestKeyspace;

impl Keyspace for TestKeyspace {
    fn name(&self) -> String {
        "movies".to_string()
    }

    fn send_local(&self, _token: i64, _payload: Vec<u8>) -> Result<(), DriverError> {
        Ok(())
    }

    fn send_global(&self, _token: i64, _payload: Vec<u8>) -> Result<(), DriverError> {
        Ok(())
    }
}

#[test]
fn batch_collector_builds_batch_body() {
    let mut c = BatchCollector::new(&TestKeyspace);
    c.unlogged();
    c.insert("INSERT INTO t (k) VALUES (?)", &vec![vec![1, 2]]).unwrap();
    c.consistency(Consistency::One);
    let req = c.build();
    let body = &req.payload;
    assert_eq!(body[0], 1); // unlogged
    assert_eq!(&body[1..3], &[0, 1]); // one entry
    assert_eq!(body[3], 0); // statement by text
    // After the statement text: one value of two bytes.
    let stmt_len = u32::from_be_bytes([body[4], body[5], body[6], body[7]]) as usize;
    let after_stmt = 8 + stmt_len;
    assert_eq!(&body[after_stmt..after_stmt + 2], &[0, 1]);
    assert_eq!(&body[after_stmt + 2..after_stmt + 8], &[0, 0, 0, 2, 1, 2]);
    // Tail: consistency one, no optional flags.
    assert_eq!(&body[after_stmt + 8..], &[0x00, 0x01, 0x00]);
}

#[test]
fn batch_collector_remembers_prepared_statements() {
    let stmt = "INSERT INTO t (k, v) VALUES (?, ?)";
    let mut c = BatchCollector::new(&TestKeyspace);
    c.logged();
    c.insert_prepared(stmt, &vec![vec![9]]).unwrap();
    let req = c.build();
    let id = statement_id(stmt);
    assert_eq!(req.get_statement(&id).unwrap(), stmt);
    assert!(req.get_statement(&[0u8; 16]).is_none());
    // The payload carries the id, not the text.
    assert_eq!(req.payload[3], 1);
    assert_eq!(&req.payload[4..6], &[0, 16]);
    assert_eq!(&req.payload[6..22], &id);
}

#[test]
fn batch_request_token_from_key() {
    let mut c = BatchCollector::new(&TestKeyspace);
    c.insert("INSERT INTO t (k) VALUES (?)", &vec![vec![7]]).unwrap();
    let req = c.build().compute_token(b"Key 7");
    assert_eq!(req.token(), token_of(b"Key 7"));
}

#[test]
fn select_builder_computes_token_from_indexes() {
    let mut b = SelectBuilder::new("SELECT v FROM t WHERE k = ?", vec![0], None);
    b.consistency(Consistency::One);
    b.bind(b"Key 7".to_vec()).unwrap();
    let req = b.build().unwrap();
    assert_eq!(req.token, token_of(b"Key 7"));
    // An index past the bound values is refused.
    let mut bad = SelectBuilder::new("SELECT v FROM t WHERE k = ?", vec![3], None);
    bad.bind(b"x".to_vec()).unwrap();
    assert!(bad.build().is_err());
}

#[test]
fn prepare_request_payload_and_worker() {
    let stmt = "SELECT v FROM t WHERE k = ?";
    let req = PrepareRequest::new(stmt.to_string());
    let payload = req.payload();
    assert_eq!(&payload[0..4], &(stmt.len() as u32).to_be_bytes());
    assert_eq!(&payload[4..], stmt.as_bytes());
    let worker = req.worker();
    assert_eq!(worker.id, statement_id(stmt));
    assert_eq!(worker.statement, stmt);
}

#[test]
fn batch_collector_types() {
    let mut c = BatchCollector::new(&TestKeyspace);
    c.counter();
    c.update("UPDATE t SET v = ? WHERE k = ?", &vec![vec![1], vec![2]]).unwrap();
    c.serial_consistency(Consistency::Serial);
    c.timestamp(42);
    let req = c.build();
    assert_eq!(req.payload[0], BatchType::Counter as u8);
}
