//! A verified core of a token-aware, shard-aware driver for a
//! Cassandra/Scylla-compatible database speaking the CQL native protocol v4.
//!
//! The crate provides:
//! - the frame codec: a nine-byte header plus body, with opcode set and flags;
//! - the Murmur3 token encoder used to place partition keys on the ring;
//! - the token ring with binary-search lookup and shard derivation;
//! - the per-connection stream-slot table that multiplexes in-flight requests;
//! - the retry worker protocol and the prepared-statement registry;
//! - a CQL statement parser and renderer for data-manipulation statements.

pub mod error;
pub mod opcode;
pub mod header;
pub mod frame;
pub mod token;
pub mod ring;
pub mod router;
pub mod reporter;
pub mod worker;
pub mod registry;
pub mod parse;
pub mod tokens;
pub mod terms;
pub mod options;
pub mod dml;
pub mod query;
pub mod rows;
pub mod access;
pub mod connect;

pub use error::DriverError;
pub use frame::{Blob, Frame, FrameBuilder};
pub use header::{Direction, Header, HeaderFlags, Version};
pub use opcode::OpCode;
pub use registry::PreparedRegistry;
pub use reporter::StreamIds;
pub use ring::{build_ring, NodeInfo, Ring};
pub use token::{shard_of, token_of, TokenEncodeChain};
