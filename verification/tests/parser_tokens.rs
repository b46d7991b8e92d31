//! The lexical layer: names, literals, numbers, hexadecimal bytes, and
//! option fragments.

use scylla_rs::options::{Caching, Keys, PartitionKey, Replication, RowsPerPartition};
use scylla_rs::parse::{render_i32, render_i64, render_u64, ParseError, StatementStream};
use scylla_rs::terms::{Constant, Term};
use scylla_rs::error::DriverError;
use scylla_rs::tokens::{
    Hex, LitStr, LitStrKind, Name, Number, Operator, ReservedKeyword, SignedNumber,
};

#[test]
fn name_parsing() {
    let mut s = StatementStream::new("  NerdMovies rest");
    let n = Name::parse(&mut s).unwrap();
    assert_eq!(n, Name::Unquoted("NerdMovies".to_string()));
    assert_eq!(n.to_cql(), "NerdMovies");
    let mut q = StatementStream::new("\"quoted name\"");
    let n2 = Name::parse(&mut q).unwrap();
    assert_eq!(n2, Name::Quoted("quoted name".to_string()));
    assert_eq!(n2.to_cql(), "\"quoted name\"");
    // A reserved keyword is not a name.
    let mut k = StatementStream::new("WHERE");
    assert_eq!(Name::parse(&mut k), Err(ParseError::Invalid));
    // The empty input ends the statement.
    let mut e = StatementStream::new("   ");
    assert_eq!(Name::parse(&mut e), Err(ParseError::End));
}

#[test]
fn litstr_parsing() {
    let mut s = StatementStream::new("'Nathan Fillion' tail");
    let l = LitStr::parse(&mut s).unwrap();
    assert_eq!(l.kind, LitStrKind::Quoted);
    assert_eq!(l.value, "Nathan Fillion");
    assert_eq!(l.to_cql(), "'Nathan Fillion'");
    let mut d = StatementStream::new("$$it's escaped$$");
    let l2 = LitStr::parse(&mut d).unwrap();
    assert_eq!(l2.kind, LitStrKind::Escaped);
    assert_eq!(l2.value, "it's escaped");
    assert_eq!(l2.to_cql(), "$$it's escaped$$");
    // An unterminated literal ends the statement.
    let mut u = StatementStream::new("'open");
    assert_eq!(LitStr::parse(&mut u), Err(ParseError::End));
}

#[test]
fn number_tokens() {
    let mut s = StatementStream::new("2011 and");
    assert_eq!(Number::parse(&mut s).unwrap().0, "2011");
    let mut n = StatementStream::new("-86400");
    assert_eq!(SignedNumber::parse(&mut n).unwrap().0, "-86400");
    // A second minus sign is not part of the number.
    let mut b = StatementStream::new("--1");
    assert!(SignedNumber::parse(&mut b).is_err());
}

#[test]
fn hex_decoding() {
    // The hexadecimal text becomes bytes; this fails if the decode hands
    // its argument back unchanged.
    let mut s = StatementStream::new("deadBEEF");
    assert_eq!(Hex::parse(&mut s).unwrap().0, vec![0xde, 0xad, 0xbe, 0xef]);
    // An odd number of digits is refused.
    let mut odd = StatementStream::new("abc");
    assert!(Hex::parse(&mut odd).is_err());
    // A character outside the hexadecimal alphabet is refused.
    let mut bad = StatementStream::new("zz");
    assert!(Hex::parse(&mut bad).is_err());
}

#[test]
fn reserved_keywords() {
    let mut s = StatementStream::new("select");
    assert_eq!(ReservedKeyword::parse(&mut s).unwrap(), ReservedKeyword::SELECT);
    let mut t = StatementStream::new("movie");
    assert!(ReservedKeyword::parse(&mut t).is_err());
    assert_eq!(ReservedKeyword::BATCH.to_cql(), "BATCH");
}

#[test]
fn operators() {
    for (text, op) in [
        ("=", Operator::Equal),
        ("!=", Operator::NotEqual),
        ("<", Operator::Less),
        ("<=", Operator::LessEqual),
        (">", Operator::Greater),
        (">=", Operator::GreaterEqual),
        ("IN", Operator::In),
        ("CONTAINS", Operator::Contains),
        ("CONTAINS KEY", Operator::ContainsKey),
        ("LIKE", Operator::Like),
    ] {
        let mut s = StatementStream::new(text);
        assert_eq!(Operator::parse(&mut s).unwrap(), op);
        assert_eq!(op.to_cql(), text);
    }
}

#[test]
fn terms_round_trip() {
    for text in [
        "'Serenity'",
        "2005",
        "-7",
        "3.5",
        "TRUE",
        "NULL",
        "?",
        ":named",
        "[1, 2, 3]",
        "{1, 2}",
        "{'a': 1, 'b': 2}",
        "('Serenity', 2005)",
    ] {
        let mut s = StatementStream::new(text);
        let t = Term::parse(&mut s).unwrap();
        assert_eq!(t.to_cql(), text);
    }
}

#[test]
fn constant_booleans_and_null() {
    let mut s = StatementStream::new("false");
    match Constant::parse(&mut s).unwrap() {
        Constant::Boolean(b) => assert!(!b),
        other => panic!("expected a boolean, got {:?}", other),
    }
    assert_eq!(Constant::Null.to_cql(), "NULL");
}

#[test]
fn decimal_rendering() {
    assert_eq!(render_u64(0), "0");
    assert_eq!(render_u64(86400), "86400");
    assert_eq!(render_u64(u64::MAX), "18446744073709551615");
    assert_eq!(render_i64(-1), "-1");
    assert_eq!(render_i64(i64::MIN), "-9223372036854775808");
    assert_eq!(render_i32(i32::MIN), "-2147483648");
    assert_eq!(render_i32(2012), "2012");
}

#[test]
fn replication_rendering() {
    assert_eq!(
        Replication::simple(3).to_cql(),
        "{'class': 'SimpleStrategy', 'replication_factor': 3}"
    );
    let nts = Replication::network_topology(vec![
        ("dc1".to_string(), 3),
        ("dc2".to_string(), 2),
    ]);
    assert_eq!(
        nts.to_cql(),
        "{'class': 'NetworkTopologyStrategy', 'dc1': 3, 'dc2': 2}"
    );
}

#[test]
fn replication_from_map_literal() {
    let mut s =
        StatementStream::new("{'class': 'SimpleStrategy', 'replication_factor': 3}");
    let m = match Term::parse(&mut s).unwrap() {
        Term::MapLit(m) => m,
        other => panic!("expected a map literal, got {:?}", other),
    };
    match Replication::try_from_map(&m).unwrap() {
        Replication::SimpleStrategy(f) => assert_eq!(f, 3),
        other => panic!("expected the simple strategy, got {:?}", other),
    }
    let mut s2 =
        StatementStream::new("{'class': 'NetworkTopologyStrategy', 'dc1': 3, 'dc2': 2}");
    let m2 = match Term::parse(&mut s2).unwrap() {
        Term::MapLit(m) => m,
        other => panic!("expected a map literal, got {:?}", other),
    };
    match Replication::try_from_map(&m2).unwrap() {
        Replication::NetworkTopologyStrategy(map) => {
            assert_eq!(map, vec![("dc1".to_string(), 3), ("dc2".to_string(), 2)]);
        }
        other => panic!("expected the network topology strategy, got {:?}", other),
    }
    // A map without a class entry is refused.
    let mut s3 = StatementStream::new("{'replication_factor': 3}");
    let m3 = match Term::parse(&mut s3).unwrap() {
        Term::MapLit(m) => m,
        other => panic!("expected a map literal, got {:?}", other),
    };
    assert!(Replication::try_from_map(&m3).is_err());
}

#[test]
fn caching_rendering() {
    let mut b = Caching::build();
    b.keys(Keys::All);
    b.rows_per_partition(RowsPerPartition::Count(10));
    let c = b.finish();
    assert_eq!(c.to_cql(), "{'keys': 'ALL', 'rows_per_partition': 10}");
    let empty = Caching::build().finish();
    assert_eq!(empty.to_cql(), "{}");
}

#[test]
fn partition_key_rendering() {
    let mut s = StatementStream::new("(a, b)");
    let pk = PartitionKey::parse(&mut s).unwrap();
    assert_eq!(pk.to_cql(), "(a, b)");
    let mut single = StatementStream::new("k");
    assert_eq!(PartitionKey::parse(&mut single).unwrap().to_cql(), "k");
}

#[test]
fn error_labels() {
    assert_eq!(DriverError::Protocol.label(), "protocol violation");
    assert_eq!(DriverError::NoHost.label(), "no host available");
    assert_eq!(DriverError::Cql(0x2500).label(), "cql error");
}
