//! Decoding RESULT bodies: void results, rows metadata, and the row
//! iterator.

use scylla_rs::access::{AsDynamicSelectRequest, DecodeRows, DecodeVoid};
use scylla_rs::dml::SelectStatement;
use scylla_rs::parse::StatementStream;
use scylla_rs::registry::statement_id;
use scylla_rs::rows::{parse_rows_metadata, Flags, Iter, Metadata, PagingState};

#[test]
fn void_result() {
    let void = DecodeVoid;
    assert!(void.decode(&[0, 0, 0, 1]).is_ok());
    assert!(void.decode(&[0, 0, 0, 2]).is_err());
    assert!(void.decode(&[0, 0]).is_err());
}

/// A rows RESULT body with no metadata flag set: one text column, two
/// rows holding "a" and "bc".
fn sample_rows_body() -> Vec<u8> {
    let mut body = vec![
        0, 0, 0, 2, // kind: rows
        0, 0, 0, 4, // flags: no_metadata
        0, 0, 0, 1, // one column
        0, 0, 0, 2, // two rows
    ];
    body.extend_from_slice(&[0, 0, 0, 1, b'a']);
    body.extend_from_slice(&[0, 0, 0, 2, b'b', b'c']);
    body
}

#[test]
fn rows_metadata_and_iteration() {
    let body = sample_rows_body();
    let metadata = parse_rows_metadata(&body).unwrap();
    assert!(metadata.flags.no_metadata);
    assert!(!metadata.flags.has_more_pages());
    assert_eq!(metadata.columns_count, 1);
    assert_eq!(metadata.rows_start(), 12);
    let mut iter = Iter::new(body, metadata).unwrap();
    assert_eq!(iter.rows_count(), 2);
    assert_eq!(iter.next_row().unwrap(), vec![b"a".to_vec()]);
    assert_eq!(iter.remaining_rows_count(), 1);
    assert_eq!(iter.next_row().unwrap(), vec![b"bc".to_vec()]);
    assert!(iter.next_row().is_none());
}

#[test]
fn rows_decoder_end_to_end() {
    let rows = DecodeRows;
    let mut iter = rows.decode(sample_rows_body()).unwrap();
    assert_eq!(iter.rows_count(), 2);
    assert_eq!(iter.next_row().unwrap(), vec![b"a".to_vec()]);
}

#[test]
fn rows_metadata_with_column_specs() {
    // Global table spec plus one column named "v" of type int (0x0009).
    let mut body = vec![
        0, 0, 0, 2, // kind: rows
        0, 0, 0, 1, // flags: global table spec
        0, 0, 0, 1, // one column
    ];
    body.extend_from_slice(&[0, 2, b'k', b's']);
    body.extend_from_slice(&[0, 1, b't']);
    body.extend_from_slice(&[0, 1, b'v']);
    body.extend_from_slice(&[0x00, 0x09]);
    let rows_start = body.len();
    body.extend_from_slice(&[0, 0, 0, 0]); // zero rows
    let metadata = parse_rows_metadata(&body).unwrap();
    assert_eq!(metadata.rows_start(), rows_start);
    assert!(metadata.flags.global_table_spec);
}

#[test]
fn rows_metadata_walks_udt_and_custom_columns() {
    // Two columns without a global table spec: a UDT with one int field,
    // and a custom type named by its class string.
    let mut body = vec![
        0, 0, 0, 2, // kind: rows
        0, 0, 0, 0, // flags: per-column specs
        0, 0, 0, 2, // two columns
    ];
    // First column: ks, table, name, then a UDT of one field.
    body.extend_from_slice(&[0, 1, b'k']);
    body.extend_from_slice(&[0, 1, b't']);
    body.extend_from_slice(&[0, 1, b'u']);
    body.extend_from_slice(&[0x00, 0x30]); // user-defined type
    body.extend_from_slice(&[0, 1, b'k']); // its keyspace
    body.extend_from_slice(&[0, 2, b'u', b't']); // its name
    body.extend_from_slice(&[0, 1]); // one field
    body.extend_from_slice(&[0, 1, b'f']); // field name
    body.extend_from_slice(&[0x00, 0x09]); // field type: int
    // Second column: ks, table, name, then a custom type.
    body.extend_from_slice(&[0, 1, b'k']);
    body.extend_from_slice(&[0, 1, b't']);
    body.extend_from_slice(&[0, 1, b'c']);
    body.extend_from_slice(&[0x00, 0x00]); // custom type
    body.extend_from_slice(&[0, 3, b'c', b'l', b's']); // its class name
    let rows_start = body.len();
    body.extend_from_slice(&[0, 0, 0, 0]); // zero rows
    let metadata = parse_rows_metadata(&body).unwrap();
    assert_eq!(metadata.rows_start(), rows_start);
    assert_eq!(metadata.columns_count, 2);
}

#[test]
fn rows_metadata_rejects_malformed_bodies() {
    assert!(parse_rows_metadata(&[0, 0, 0, 2]).is_err());
    // A void kind is not a rows body.
    assert!(parse_rows_metadata(&[0, 0, 0, 1, 0, 0, 0, 4, 0, 0, 0, 0]).is_err());
}

#[test]
fn metadata_take_paging_state() {
    let flags = Flags::from_i32(2);
    let mut m = Metadata::new(flags, 1, PagingState::new(Some(vec![9, 9]), 8));
    assert_eq!(m.take_paging_state(), Some(vec![9, 9]));
    assert_eq!(m.take_paging_state(), None);
}

#[test]
fn dynamic_select_prepared_uses_statement_id() {
    let text = "SELECT movie FROM movies.NerdMovies WHERE main_actor = 'Nathan Fillion'";
    let mut stream = StatementStream::new(text);
    let statement = SelectStatement::parse(&mut stream).unwrap();
    let exec = statement.query_prepared();
    assert_eq!(exec.id, statement_id(&statement.to_cql()));
    let query = statement.query().unwrap();
    let req = query.build().unwrap();
    assert!(!req.payload.is_empty());
}
