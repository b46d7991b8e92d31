//! The access layer: keyspace definitions, request builders that carry a
//! routing token, the batch collector, and the prepare request.

use vstd::prelude::*;
use vstd::string::StringSliceAdditionalSpecFns;
use vstd::utf8::encode_utf8;
use crate::error::DriverError;
use crate::query::{
    push_be32, push_bytes, spec_be32, BatchBuilder, BatchType, BoundValue, Consistency,
    ExecuteFrameBuilder, QueryFrameBuilder,
};
use crate::registry::{id_eq, md5_of, statement_id};
use crate::token::{spec_chain_bytes, spec_token_of, token_of, TokenEncodeChain};
use crate::worker::BasicRetryWorker;

verus! {

/// Relies on rand::random: an arbitrary token for a request that carries
/// no partition key, so it lands on an arbitrary replica.
#[verifier::external_body]
fn random_token() -> (r: i64) {
    rand::random::<i64>()
}

/// A keyspace definition. Implementations name the keyspace and carry
/// the requests that the driver hands them to a connection.
pub trait Keyspace {
    /// The name of the keyspace as the database knows it.
    fn name(&self) -> String;

    /// Send a request to a replica in the local datacenter.
    fn send_local(&self, token: i64, payload: Vec<u8>) -> Result<(), DriverError>;

    /// Send a request to a replica in any datacenter.
    fn send_global(&self, token: i64, payload: Vec<u8>) -> Result<(), DriverError>;
}

/// Whether a request carries its statement as text or as a prepared id.
#[derive(Copy, Clone, Debug, PartialEq, Eq, Structural)]
pub enum QueryType {
    Dynamic,
    Prepared,
}

/// A marker for decoding a rows result.
#[derive(Copy, Clone, Debug, Default)]
pub struct DecodeRows;

/// A marker for decoding a void result.
#[derive(Copy, Clone, Debug, Default)]
pub struct DecodeVoid;

/// The decode marker returned when a request is sent, remembering the
/// statement it came from.
#[derive(Clone, Debug)]
pub struct DecodeResult<T> {
    pub inner: T,
    pub cql: String,
}

impl<T> DecodeResult<T> {
    /// The statement this result belongs to.
    pub fn cql(&self) -> (r: &String)
        ensures
            r == &self.cql,
    {
        &self.cql
    }

    /// The decoder marker.
    pub fn decoder(&self) -> (r: &T)
        ensures
            r == &self.inner,
    {
        &self.inner
    }
}

/// A select request ready for routing: the frame payload and the token
/// that places it on the ring.
#[derive(Clone, Debug)]
pub struct SelectRequest {
    pub token: i64,
    pub payload: Vec<u8>,
    pub query_type: QueryType,
}

impl SelectRequest {
    /// A request from a QUERY payload.
    pub fn from_query(payload: Vec<u8>, token: i64) -> (r: Self)
        ensures
            r.token == token,
            r.payload@ == payload@,
            r.query_type == QueryType::Dynamic,
    {
        SelectRequest { token, payload, query_type: QueryType::Dynamic }
    }

    /// A request from an EXECUTE payload.
    pub fn from_prepared(payload: Vec<u8>, token: i64) -> (r: Self)
        ensures
            r.token == token,
            r.payload@ == payload@,
            r.query_type == QueryType::Prepared,
    {
        SelectRequest { token, payload, query_type: QueryType::Prepared }
    }

    /// Send through the keyspace to a local-datacenter replica. Success
    /// is the keyspace implementation's to give; on success the decode
    /// marker remembers the statement it was made for.
    pub fn send_local<S: Keyspace>(self, keyspace: &S, cql: String) -> (r: Result<
        DecodeResult<DecodeRows>,
        DriverError,
    >)
        ensures
            r matches Ok(d) ==> d.cql == cql,
    {
        match keyspace.send_local(self.token, self.payload) {
            Ok(()) => Ok(DecodeResult { inner: DecodeRows, cql }),
            Err(e) => Err(e),
        }
    }

    /// Send through the keyspace to any replica. Success is the keyspace
    /// implementation's to give; on success the decode marker remembers
    /// the statement it was made for.
    pub fn send_global<S: Keyspace>(self, keyspace: &S, cql: String) -> (r: Result<
        DecodeResult<DecodeRows>,
        DriverError,
    >)
        ensures
            r matches Ok(d) ==> d.cql == cql,
    {
        match keyspace.send_global(self.token, self.payload) {
            Ok(()) => Ok(DecodeResult { inner: DecodeRows, cql }),
            Err(e) => Err(e),
        }
    }
}

/// A request to prepare a statement on some node; it carries an
/// arbitrary token since any node may prepare it.
#[derive(Clone, Debug)]
pub struct PrepareRequest {
    pub statement: String,
    pub token: i64,
}

impl PrepareRequest {
    /// A prepare request for a statement.
    pub fn new(statement: String) -> (r: Self)
        ensures
            r.statement@ == statement@,
    {
        let token = random_token();
        PrepareRequest { statement, token }
    }

    /// The routing token of this request.
    pub fn token(&self) -> (r: i64)
        ensures
            r == self.token,
    {
        self.token
    }

    /// The PREPARE body: the statement as a `[long string]` over its
    /// UTF-8 bytes.
    pub fn payload(&self) -> (r: Vec<u8>)
        requires
            encode_utf8(self.statement@).len() <= 0x7fffffff,
        ensures
            r@ == spec_be32(encode_utf8(self.statement@).len() as u32) + encode_utf8(
                self.statement@),
    {
        let mut out: Vec<u8> = Vec::new();
        let bytes = self.statement.as_str().as_bytes();
        push_be32(&mut out, bytes.len() as u32);
        push_bytes(&mut out, bytes);
        out
    }

    /// The prepare worker for this request, carrying the expected MD5
    /// id and no retries yet.
    pub fn worker(&self) -> (r: Box<crate::worker::PrepareWorker>)
        ensures
            r.id@ == md5_of(self.statement@),
            r.statement@ == self.statement@,
            r.retries == 0,
    {
        let id = statement_id(self.statement.as_str());
        crate::worker::PrepareWorker::new(id, self.statement.clone())
    }
}

/// Builds a routed select request: a frame builder plus the positions of
/// the bound values that together form the partition key.
#[derive(Debug, Clone)]
pub struct SelectBuilder {
    pub builder: QueryFrameBuilder,
    pub token_indexes: Vec<usize>,
    pub keyspace: Option<String>,
}

impl SelectBuilder {
    /// A builder over a statement with the partition-key value
    /// positions.
    pub fn new(statement: &str, token_indexes: Vec<usize>, keyspace: Option<String>) -> (r:
        Self)
        requires
            statement.spec_bytes().len() <= 0x7fffffff,
        ensures
            r.builder.statement@ == statement.spec_bytes(),
            r.builder.values@.len() == 0,
            r.builder.consistency == Consistency::One,
            r.builder.page_size is None,
            r.builder.paging_state is None,
            r.builder.serial_consistency is None,
            r.builder.timestamp is None,
            r.builder.wf(),
            r.token_indexes@ == token_indexes@,
            r.keyspace == keyspace,
    {
        SelectBuilder {
            builder: QueryFrameBuilder::new(statement),
            token_indexes,
            keyspace,
        }
    }

    /// Set the consistency level; everything else is untouched.
    pub fn consistency(&mut self, consistency: Consistency)
        ensures
            *final(self) == (SelectBuilder {
                builder: (QueryFrameBuilder { consistency, ..old(self).builder }),
                ..*old(self)
            }),
    {
        self.builder.consistency(consistency);
    }

    /// Request a page size; everything else is untouched.
    pub fn page_size(&mut self, page_size: i32)
        ensures
            *final(self) == (SelectBuilder {
                builder: (QueryFrameBuilder {
                    page_size: Some(page_size),
                    ..old(self).builder
                }),
                ..*old(self)
            }),
    {
        self.builder.page_size(page_size);
    }

    /// Resume from a paging state; everything else is untouched.
    pub fn paging_state(&mut self, paging_state: Vec<u8>)
        requires
            paging_state@.len() <= 0x7fffffff,
        ensures
            *final(self) == (SelectBuilder {
                builder: (QueryFrameBuilder {
                    paging_state: Some(paging_state),
                    ..old(self).builder
                }),
                ..*old(self)
            }),
    {
        self.builder.paging_state(paging_state);
    }

    /// Set the default timestamp; everything else is untouched.
    pub fn timestamp(&mut self, timestamp: i64)
        ensures
            *final(self) == (SelectBuilder {
                builder: (QueryFrameBuilder {
                    timestamp: Some(timestamp),
                    ..old(self).builder
                }),
                ..*old(self)
            }),
    {
        self.builder.timestamp(timestamp);
    }

    /// Bind one value's wire bytes. Fails exactly when the value row is
    /// full or the value is too long for its length field; on failure
    /// nothing changes.
    pub fn bind(&mut self, bytes: Vec<u8>) -> (r: Result<(), DriverError>)
        ensures
            r is Err <==> (old(self).builder.values@.len() >= 0xffff || bytes@.len()
                > 0x7fffffff),
            match r {
                Ok(()) => *final(self) == (SelectBuilder {
                    builder: (QueryFrameBuilder {
                        values: final(self).builder.values,
                        ..old(self).builder
                    }),
                    ..*old(self)
                }) && final(self).builder.values@ == old(self).builder.values@.push(
                    BoundValue::Bytes(bytes)),
                Err(e) => e == DriverError::Other && *final(self) == *old(self),
            },
    {
        if self.builder.values.len() >= 0xffff {
            return Err(DriverError::Other);
        }
        if bytes.len() > 0x7fffffff {
            return Err(DriverError::Other);
        }
        self.builder.value(bytes);
        Ok(())
    }

    /// The partition-key bytes that the token indexes select, in order.
    pub open spec fn spec_key_parts(self) -> Seq<Seq<u8>> {
        Seq::new(self.token_indexes@.len(), |k: int|
            self.builder.values@[self.token_indexes@[k] as int]->Bytes_0@)
    }

    /// Whether token index `k` cannot be used for routing: it is out of
    /// range, names a NULL or UNSET value, or names a value too long for
    /// the composite two-byte length prefix.
    pub open spec fn spec_bad_index(self, k: int) -> bool {
        ||| self.token_indexes@[k] >= self.builder.values@.len()
        ||| !(self.builder.values@[self.token_indexes@[k] as int] is Bytes)
        ||| self.builder.values@[self.token_indexes@[k] as int]->Bytes_0@.len() > 0xffff
    }

    /// Whether the build must be refused: too many components for the
    /// token encoder, or some unusable token index.
    pub open spec fn spec_build_rejected(self) -> bool {
        ||| self.token_indexes@.len() > 0xffff
        ||| exists|k: int|
            0 <= k < self.token_indexes@.len() && #[trigger] self.spec_bad_index(k)
    }

    /// Build the request: the QUERY payload plus the token computed from
    /// the partition-key values, laid out exactly as the token encoder
    /// prescribes. Refused exactly when a token index is out of range,
    /// names an unset or null value, or names a value too long for a
    /// composite component; with no token indexes the request is
    /// unrouted and gets an arbitrary token.
    pub fn build(&self) -> (r: Result<SelectRequest, DriverError>)
        requires
            self.builder.wf(),
        ensures
            r is Err <==> self.spec_build_rejected(),
            match r {
                Ok(req) => {
                    &&& req.payload@ == self.builder.spec_body()
                    &&& req.query_type == QueryType::Dynamic
                    &&& self.token_indexes@.len() > 0 ==> req.token == spec_token_of(
                        spec_chain_bytes(self.spec_key_parts()))
                },
                Err(e) => e == DriverError::Other,
            },
    {
        let payload = self.builder.build();
        if self.token_indexes.len() == 0 {
            let token = random_token();
            return Ok(SelectRequest { token, payload, query_type: QueryType::Dynamic });
        }
        if self.token_indexes.len() > 0xffff {
            return Err(DriverError::Other);
        }
        let mut chain = TokenEncodeChain::new();
        let mut i: usize = 0;
        while i < self.token_indexes.len()
            invariant
                i <= self.token_indexes@.len(),
                self.token_indexes@.len() <= 0xffff,
                chain.wf(),
                chain@.len() == i,
                self.builder.wf(),
                forall|k: int| 0 <= k < i ==> !(#[trigger] self.spec_bad_index(k)),
                forall|k: int|
                    0 <= k < i ==> (#[trigger] chain@[k]) == self.builder.values@[
                        self.token_indexes@[k] as int]->Bytes_0@,
            decreases self.token_indexes@.len() - i,
        {
            let idx = self.token_indexes[i];
            if idx >= self.builder.values.len() {
                proof {
                    assert(self.spec_bad_index(i as int));
                }
                return Err(DriverError::Other);
            }
            match &self.builder.values[idx] {
                BoundValue::Bytes(b) => {
                    if b.len() > 0xffff {
                        proof {
                            assert(self.spec_bad_index(i as int));
                        }
                        return Err(DriverError::Other);
                    }
                    chain.append(b.as_slice());
                },
                _ => {
                    proof {
                        assert(self.spec_bad_index(i as int));
                    }
                    return Err(DriverError::Other);
                },
            }
            i = i + 1;
        }
        let token = chain.finish();
        proof {
            assert(chain@ =~= self.spec_key_parts());
        }
        Ok(SelectRequest { token, payload, query_type: QueryType::Dynamic })
    }
}

/// Two prepared-statement maps agree entry by entry on id and statement
/// text.
pub open spec fn spec_map_entries_match(a: Seq<BatchMapEntry>, b: Seq<BatchMapEntry>)
    -> bool {
    a.len() == b.len() && forall|i: int|
        0 <= i < a.len() ==> (#[trigger] a[i]).id@ == b[i].id@ && a[i].statement@ == b[
            i].statement@
}

/// Whether a value row fits the wire: at most 0xffff values, each short
/// enough for its four-byte length field.
pub open spec fn spec_values_fit(values: Seq<Vec<u8>>) -> bool {
    values.len() <= 0xffff && forall|k: int|
        0 <= k < values.len() ==> (#[trigger] values[k])@.len() <= 0x7fffffff
}

/// The bound values of an entry are exactly the given byte rows, in
/// order.
pub open spec fn spec_entry_values(bound: Seq<BoundValue>, values: Seq<Vec<u8>>) -> bool {
    bound.len() == values.len() && forall|k: int|
        0 <= k < values.len() ==> (#[trigger] bound[k]) is Bytes && bound[k]->Bytes_0@
            == values[k]@
}

/// One entry holding the statement text and the given values was
/// appended; prior entries are untouched.
pub open spec fn spec_text_entry_appended(
    pre: BatchBuilder,
    post: BatchBuilder,
    stmt_bytes: Seq<u8>,
    values: Seq<Vec<u8>>,
) -> bool {
    &&& post.entries@.len() == pre.entries@.len() + 1
    &&& forall|k: int| 0 <= k < pre.entries@.len() ==> post.entries@[k] == pre.entries@[k]
    &&& post.entries@.last().statement is Text
    &&& post.entries@.last().statement->Text_0@ == stmt_bytes
    &&& spec_entry_values(post.entries@.last().values@, values)
}

/// One entry holding the prepared id and the given values was appended;
/// prior entries are untouched.
pub open spec fn spec_prepared_entry_appended(
    pre: BatchBuilder,
    post: BatchBuilder,
    id: Seq<u8>,
    values: Seq<Vec<u8>>,
) -> bool {
    &&& post.entries@.len() == pre.entries@.len() + 1
    &&& forall|k: int| 0 <= k < pre.entries@.len() ==> post.entries@[k] == pre.entries@[k]
    &&& post.entries@.last().statement is Prepared
    &&& post.entries@.last().statement->Prepared_0@ == id
    &&& spec_entry_values(post.entries@.last().values@, values)
}

/// The collector's batch type, consistency settings, timestamp and
/// keyspace are unchanged.
pub open spec fn spec_collector_settings_kept(pre: BatchCollector, post: BatchCollector)
    -> bool {
    &&& post.builder.batch_type == pre.builder.batch_type
    &&& post.builder.consistency == pre.builder.consistency
    &&& post.builder.serial_consistency == pre.builder.serial_consistency
    &&& post.builder.timestamp == pre.builder.timestamp
    &&& post.keyspace_name == pre.keyspace_name
}

/// One remembered batched statement: its prepared id and its text, kept
/// so that an unprepared error can be recovered.
#[derive(Debug, Clone)]
pub struct BatchMapEntry {
    pub id: [u8; 16],
    pub statement: String,
}

/// Collects statements and values into a batch and remembers the
/// prepared ids it used.
#[derive(Debug, Clone)]
pub struct BatchCollector {
    pub builder: BatchBuilder,
    pub map: Vec<BatchMapEntry>,
    pub keyspace_name: String,
}

impl BatchCollector {
    /// Every remembered id is the MD5 of its statement.
    pub open spec fn wf(self) -> bool {
        &&& self.builder.wf()
        &&& forall|i: int|
            0 <= i < self.map@.len() ==> (#[trigger] self.map@[i]).id@ == md5_of(
                self.map@[i].statement@)
    }

    /// An empty logged batch at consistency ONE for a keyspace.
    pub fn new<S: Keyspace>(keyspace: &S) -> (r: Self)
        ensures
            r.wf(),
            r.builder.entries@.len() == 0,
            r.builder.batch_type == BatchType::Logged,
            r.builder.consistency == Consistency::One,
            r.builder.serial_consistency is None,
            r.builder.timestamp is None,
            r.map@.len() == 0,
    {
        BatchCollector {
            builder: BatchBuilder::new(),
            map: Vec::new(),
            keyspace_name: keyspace.name(),
        }
    }

    /// Set the batch type; everything else is untouched.
    pub fn batch_type(&mut self, batch_type: BatchType)
        ensures
            *final(self) == (BatchCollector {
                builder: (BatchBuilder { batch_type, ..old(self).builder }),
                ..*old(self)
            }),
    {
        self.builder.batch_type(batch_type);
    }

    /// Make this a logged batch; everything else is untouched.
    pub fn logged(&mut self)
        ensures
            *final(self) == (BatchCollector {
                builder: (BatchBuilder {
                    batch_type: BatchType::Logged,
                    ..old(self).builder
                }),
                ..*old(self)
            }),
    {
        self.batch_type(BatchType::Logged);
    }

    /// Make this an unlogged batch; everything else is untouched.
    pub fn unlogged(&mut self)
        ensures
            *final(self) == (BatchCollector {
                builder: (BatchBuilder {
                    batch_type: BatchType::Unlogged,
                    ..old(self).builder
                }),
                ..*old(self)
            }),
    {
        self.batch_type(BatchType::Unlogged);
    }

    /// Make this a counter batch; everything else is untouched.
    pub fn counter(&mut self)
        ensures
            *final(self) == (BatchCollector {
                builder: (BatchBuilder {
                    batch_type: BatchType::Counter,
                    ..old(self).builder
                }),
                ..*old(self)
            }),
    {
        self.batch_type(BatchType::Counter);
    }

    /// Whether every given value fits the wire.
    fn values_fit(values: &Vec<Vec<u8>>) -> (r: bool)
        ensures
            r == spec_values_fit(values@),
    {
        if values.len() > 0xffff {
            return false;
        }
        let mut i: usize = 0;
        while i < values.len()
            invariant
                i <= values@.len(),
                values@.len() <= 0xffff,
                forall|k: int| 0 <= k < i ==> (#[trigger] values@[k])@.len() <= 0x7fffffff,
            decreases values@.len() - i,
        {
            if values[i].len() > 0x7fffffff {
                return false;
            }
            i = i + 1;
        }
        true
    }

    /// Bind the given values, in order, to the entry just opened.
    fn append_values(&mut self, values: &Vec<Vec<u8>>)
        requires
            old(self).wf(),
            old(self).builder.entries@.len() > 0,
            old(self).builder.entries@.last().values@.len() == 0,
            spec_values_fit(values@),
        ensures
            final(self).wf(),
            final(self).map@ == old(self).map@,
            spec_collector_settings_kept(*old(self), *final(self)),
            final(self).builder.entries@.len() == old(self).builder.entries@.len(),
            forall|k: int|
                0 <= k < old(self).builder.entries@.len() - 1 ==> final(
                    self).builder.entries@[k] == old(self).builder.entries@[k],
            final(self).builder.entries@.last().statement == old(
                self).builder.entries@.last().statement,
            spec_entry_values(final(self).builder.entries@.last().values@, values@),
    {
        let mut i: usize = 0;
        while i < values.len()
            invariant
                i <= values@.len(),
                spec_values_fit(values@),
                self.wf(),
                self.map@ == old(self).map@,
                spec_collector_settings_kept(*old(self), *self),
                self.builder.entries@.len() == old(self).builder.entries@.len(),
                self.builder.entries@.len() > 0,
                forall|k: int|
                    0 <= k < old(self).builder.entries@.len() - 1 ==> self.builder.entries@[
                        k] == old(self).builder.entries@[k],
                self.builder.entries@.last().statement == old(
                    self).builder.entries@.last().statement,
                self.builder.entries@.last().values@.len() == i,
                forall|k: int|
                    0 <= k < i ==> (#[trigger] self.builder.entries@.last().values@[k])
                        is Bytes && self.builder.entries@.last().values@[k]->Bytes_0@
                        == values@[k]@,
            decreases values@.len() - i,
        {
            let copied = vstd::slice::slice_to_vec(values[i].as_slice());
            match self.builder.value(copied) {
                Ok(()) => {},
                Err(_) => {
                    proof {
                        assert(false);
                    }
                },
            }
            i = i + 1;
        }
    }

    /// Append a statement as text with its bound values. Refused exactly
    /// when the batch already holds 0xffff entries, the statement is too
    /// long for its length field, or a value row does not fit; a refusal
    /// changes nothing.
    fn add_text(&mut self, statement: &str, values: &Vec<Vec<u8>>) -> (r: Result<
        (),
        DriverError,
    >)
        requires
            old(self).wf(),
        ensures
            final(self).wf(),
            final(self).map@ == old(self).map@,
            spec_collector_settings_kept(*old(self), *final(self)),
            r is Err <==> (old(self).builder.entries@.len() >= 0xffff
                || statement.spec_bytes().len() > 0x7fffffff || !spec_values_fit(values@)),
            match r {
                Ok(()) => spec_text_entry_appended(old(self).builder, final(self).builder,
                    statement.spec_bytes(), values@),
                Err(e) => e == DriverError::Other && *final(self) == *old(self),
            },
    {
        if self.builder.entries.len() >= 0xffff {
            return Err(DriverError::Other);
        }
        if statement.as_bytes().len() > 0x7fffffff {
            return Err(DriverError::Other);
        }
        if !Self::values_fit(values) {
            return Err(DriverError::Other);
        }
        self.builder.statement(statement);
        self.append_values(values);
        Ok(())
    }

    /// Append a prepared statement, remembering its id, with its bound
    /// values. Refused exactly when the batch already holds 0xffff
    /// entries or a value row does not fit; a refusal changes nothing.
    fn add_prepared(&mut self, statement: &str, values: &Vec<Vec<u8>>) -> (r: Result<
        (),
        DriverError,
    >)
        requires
            old(self).wf(),
        ensures
            final(self).wf(),
            spec_collector_settings_kept(*old(self), *final(self)),
            r is Err <==> (old(self).builder.entries@.len() >= 0xffff || !spec_values_fit(
                values@)),
            match r {
                Ok(()) => {
                    &&& spec_prepared_entry_appended(old(self).builder, final(self).builder,
                        md5_of(statement@), values@)
                    &&& final(self).map@.len() == old(self).map@.len() + 1
                    &&& forall|k: int|
                        0 <= k < old(self).map@.len() ==> final(self).map@[k] == old(
                            self).map@[k]
                    &&& final(self).map@.last().id@ == md5_of(statement@)
                    &&& final(self).map@.last().statement@ == statement@
                },
                Err(e) => e == DriverError::Other && *final(self) == *old(self),
            },
    {
        if self.builder.entries.len() >= 0xffff {
            return Err(DriverError::Other);
        }
        if !Self::values_fit(values) {
            return Err(DriverError::Other);
        }
        let id = statement_id(statement);
        self.map.push(BatchMapEntry { id, statement: String::from_str(statement) });
        self.builder.id(&id);
        self.append_values(values);
        Ok(())
    }

    /// Append an unprepared insert: one entry with the statement text
    /// and its values. Refused exactly on the wire bounds, changing
    /// nothing.
    pub fn insert(&mut self, statement: &str, values: &Vec<Vec<u8>>) -> (r: Result<
        (),
        DriverError,
    >)
        requires
            old(self).wf(),
        ensures
            final(self).wf(),
            final(self).map@ == old(self).map@,
            spec_collector_settings_kept(*old(self), *final(self)),
            r is Err <==> (old(self).builder.entries@.len() >= 0xffff
                || statement.spec_bytes().len() > 0x7fffffff || !spec_values_fit(values@)),
            match r {
                Ok(()) => spec_text_entry_appended(old(self).builder, final(self).builder,
                    statement.spec_bytes(), values@),
                Err(e) => e == DriverError::Other && *final(self) == *old(self),
            },
    {
        self.add_text(statement, values)
    }

    /// Append a prepared insert: one entry with the statement's MD5 id,
    /// remembered for unprepared-error recovery. Refused exactly on the
    /// wire bounds, changing nothing.
    pub fn insert_prepared(&mut self, statement: &str, values: &Vec<Vec<u8>>) -> (r: Result<
        (),
        DriverError,
    >)
        requires
            old(self).wf(),
        ensures
            final(self).wf(),
            spec_collector_settings_kept(*old(self), *final(self)),
            r is Err <==> (old(self).builder.entries@.len() >= 0xffff || !spec_values_fit(
                values@)),
            match r {
                Ok(()) => {
                    &&& spec_prepared_entry_appended(old(self).builder, final(self).builder,
                        md5_of(statement@), values@)
                    &&& final(self).map@.len() == old(self).map@.len() + 1
                    &&& forall|k: int|
                        0 <= k < old(self).map@.len() ==> final(self).map@[k] == old(
                            self).map@[k]
                    &&& final(self).map@.last().id@ == md5_of(statement@)
                    &&& final(self).map@.last().statement@ == statement@
                },
                Err(e) => e == DriverError::Other && *final(self) == *old(self),
            },
    {
        self.add_prepared(statement, values)
    }

    /// Append an unprepared update, exactly as `insert` appends.
    pub fn update(&mut self, statement: &str, values: &Vec<Vec<u8>>) -> (r: Result<
        (),
        DriverError,
    >)
        requires
            old(self).wf(),
        ensures
            final(self).wf(),
            final(self).map@ == old(self).map@,
            spec_collector_settings_kept(*old(self), *final(self)),
            r is Err <==> (old(self).builder.entries@.len() >= 0xffff
                || statement.spec_bytes().len() > 0x7fffffff || !spec_values_fit(values@)),
            match r {
                Ok(()) => spec_text_entry_appended(old(self).builder, final(self).builder,
                    statement.spec_bytes(), values@),
                Err(e) => e == DriverError::Other && *final(self) == *old(self),
            },
    {
        self.add_text(statement, values)
    }

    /// Append a prepared update, exactly as `insert_prepared` appends.
    pub fn update_prepared(&mut self, statement: &str, values: &Vec<Vec<u8>>) -> (r: Result<
        (),
        DriverError,
    >)
        requires
            old(self).wf(),
        ensures
            final(self).wf(),
            spec_collector_settings_kept(*old(self), *final(self)),
            r is Err <==> (old(self).builder.entries@.len() >= 0xffff || !spec_values_fit(
                values@)),
            match r {
                Ok(()) => {
                    &&& spec_prepared_entry_appended(old(self).builder, final(self).builder,
                        md5_of(statement@), values@)
                    &&& final(self).map@.len() == old(self).map@.len() + 1
                    &&& forall|k: int|
                        0 <= k < old(self).map@.len() ==> final(self).map@[k] == old(
                            self).map@[k]
                    &&& final(self).map@.last().id@ == md5_of(statement@)
                    &&& final(self).map@.last().statement@ == statement@
                },
                Err(e) => e == DriverError::Other && *final(self) == *old(self),
            },
    {
        self.add_prepared(statement, values)
    }

    /// Append an unprepared delete, exactly as `insert` appends.
    pub fn delete(&mut self, statement: &str, values: &Vec<Vec<u8>>) -> (r: Result<
        (),
        DriverError,
    >)
        requires
            old(self).wf(),
        ensures
            final(self).wf(),
            final(self).map@ == old(self).map@,
            spec_collector_settings_kept(*old(self), *final(self)),
            r is Err <==> (old(self).builder.entries@.len() >= 0xffff
                || statement.spec_bytes().len() > 0x7fffffff || !spec_values_fit(values@)),
            match r {
                Ok(()) => spec_text_entry_appended(old(self).builder, final(self).builder,
                    statement.spec_bytes(), values@),
                Err(e) => e == DriverError::Other && *final(self) == *old(self),
            },
    {
        self.add_text(statement, values)
    }

    /// Append a prepared delete, exactly as `insert_prepared` appends.
    pub fn delete_prepared(&mut self, statement: &str, values: &Vec<Vec<u8>>) -> (r: Result<
        (),
        DriverError,
    >)
        requires
            old(self).wf(),
        ensures
            final(self).wf(),
            spec_collector_settings_kept(*old(self), *final(self)),
            r is Err <==> (old(self).builder.entries@.len() >= 0xffff || !spec_values_fit(
                values@)),
            match r {
                Ok(()) => {
                    &&& spec_prepared_entry_appended(old(self).builder, final(self).builder,
                        md5_of(statement@), values@)
                    &&& final(self).map@.len() == old(self).map@.len() + 1
                    &&& forall|k: int|
                        0 <= k < old(self).map@.len() ==> final(self).map@[k] == old(
                            self).map@[k]
                    &&& final(self).map@.last().id@ == md5_of(statement@)
                    &&& final(self).map@.last().statement@ == statement@
                },
                Err(e) => e == DriverError::Other && *final(self) == *old(self),
            },
    {
        self.add_prepared(statement, values)
    }

    /// Set the consistency for this batch; everything else is untouched.
    pub fn consistency(&mut self, consistency: Consistency)
        ensures
            *final(self) == (BatchCollector {
                builder: (BatchBuilder { consistency, ..old(self).builder }),
                ..*old(self)
            }),
    {
        self.builder.consistency(consistency);
    }

    /// Set the serial consistency for this batch; everything else is
    /// untouched.
    pub fn serial_consistency(&mut self, consistency: Consistency)
        ensures
            *final(self) == (BatchCollector {
                builder: (BatchBuilder {
                    serial_consistency: Some(consistency),
                    ..old(self).builder
                }),
                ..*old(self)
            }),
    {
        self.builder.serial_consistency(consistency);
    }

    /// Set the default timestamp for this batch; everything else is
    /// untouched.
    pub fn timestamp(&mut self, timestamp: i64)
        ensures
            *final(self) == (BatchCollector {
                builder: (BatchBuilder { timestamp: Some(timestamp), ..old(self).builder }),
                ..*old(self)
            }),
    {
        self.builder.timestamp(timestamp);
    }

    /// Build the batch request: the BATCH payload, the remembered
    /// prepared statements, the keyspace's name, and an arbitrary token
    /// until one is computed from a key.
    pub fn build(&self) -> (r: BatchRequest)
        requires
            self.wf(),
        ensures
            r.payload@ == self.builder.spec_body(),
            spec_map_entries_match(r.map@, self.map@),
            r.keyspace matches Some(n) && n@ == self.keyspace_name@,
            r.wf(),
    {
        let payload = self.builder.build();
        let token = random_token();
        BatchRequest {
            token,
            payload,
            map: clone_map_entries(&self.map),
            keyspace: Some(self.keyspace_name.clone()),
        }
    }
}

/// Copy a prepared-statement map entry by entry.
fn clone_map_entries(v: &Vec<BatchMapEntry>) -> (r: Vec<BatchMapEntry>)
    ensures
        spec_map_entries_match(r@, v@),
{
    let mut out: Vec<BatchMapEntry> = Vec::new();
    let mut i: usize = 0;
    while i < v.len()
        invariant
            i <= v@.len(),
            out@.len() == i,
            forall|k: int|
                0 <= k < i ==> (#[trigger] out@[k]).id@ == v@[k].id@ && out@[k].statement@
                    == v@[k].statement@,
        decreases v@.len() - i,
    {
        out.push(BatchMapEntry { id: v[i].id, statement: v[i].statement.clone() });
        i = i + 1;
    }
    out
}

/// A batch request ready for routing, with the map from prepared ids to
/// statements for unprepared-error recovery.
#[derive(Debug, Clone)]
pub struct BatchRequest {
    pub token: i64,
    pub payload: Vec<u8>,
    pub map: Vec<BatchMapEntry>,
    pub keyspace: Option<String>,
}

impl BatchRequest {
    /// Every remembered id is the MD5 of its statement.
    pub open spec fn wf(self) -> bool {
        forall|i: int|
            0 <= i < self.map@.len() ==> (#[trigger] self.map@[i]).id@ == md5_of(
                self.map@[i].statement@)
    }

    /// The routing token of this request.
    pub fn token(&self) -> (r: i64)
        ensures
            r == self.token,
    {
        self.token
    }

    /// Compute the routing token from a partition key's byte
    /// representation; everything else is untouched.
    pub fn compute_token(self, key: &[u8]) -> (r: Self)
        ensures
            r.token == spec_token_of(key@),
            r.payload@ == self.payload@,
            r.map@ == self.map@,
            r.keyspace == self.keyspace,
            self.wf() ==> r.wf(),
    {
        let token = token_of(key);
        BatchRequest { token, ..self }
    }

    /// Clone the prepared-statement map.
    pub fn clone_map(&self) -> (r: Vec<BatchMapEntry>)
        ensures
            spec_map_entries_match(r@, self.map@),
    {
        clone_map_entries(&self.map)
    }

    /// Take the prepared-statement map, leaving an empty one;
    /// everything else is untouched.
    pub fn take_map(&mut self) -> (r: Vec<BatchMapEntry>)
        ensures
            r@ == old(self).map@,
            final(self).map@.len() == 0,
            final(self).token == old(self).token,
            final(self).payload@ == old(self).payload@,
            final(self).keyspace == old(self).keyspace,
    {
        let mut taken: Vec<BatchMapEntry> = Vec::new();
        core::mem::swap(&mut taken, &mut self.map);
        taken
    }

    /// The statement remembered under a prepared id: one of the map's
    /// entries whose id is `id`, or `None` exactly when no entry carries
    /// that id.
    pub fn get_statement(&self, id: &[u8; 16]) -> (r: Option<&String>)
        requires
            self.wf(),
        ensures
            match r {
                Some(st) => md5_of(st@) == id@ && exists|i: int|
                    0 <= i < self.map@.len() && (#[trigger] self.map@[i]).id@ == id@
                        && self.map@[i].statement@ == st@,
                None => forall|i: int|
                    0 <= i < self.map@.len() ==> (#[trigger] self.map@[i]).id@ != id@,
            },
    {
        let mut i: usize = 0;
        while i < self.map.len()
            invariant
                i <= self.map@.len(),
                self.wf(),
                forall|k: int| 0 <= k < i ==> (#[trigger] self.map@[k]).id@ != id@,
            decreases self.map@.len() - i,
        {
            if id_eq(&self.map[i].id, id) {
                return Some(&self.map[i].statement);
            }
            i = i + 1;
        }
        None
    }

    /// A basic retrying worker for this request.
    pub fn worker(self) -> (r: Box<BasicRetryWorker<BatchRequest>>)
        ensures
            r.retries == 0,
    {
        BasicRetryWorker::new(self)
    }
}

impl DecodeVoid {
    /// Decode a void RESULT body: exactly a four-byte kind of 1.
    pub fn decode(&self, body: &[u8]) -> (r: Result<(), DriverError>)
        ensures
            r matches Ok(_) <==> (body@.len() >= 4 && body@[0] == 0 && body@[1] == 0
                && body@[2] == 0 && body@[3] == 1),
            r matches Err(e) ==> e == DriverError::Protocol,
    {
        if body.len() < 4 {
            return Err(DriverError::Protocol);
        }
        if body[0] == 0 && body[1] == 0 && body[2] == 0 && body[3] == 1 {
            Ok(())
        } else {
            Err(DriverError::Protocol)
        }
    }
}

impl DecodeRows {
    /// Decode a rows RESULT body into an iterator over its rows.
    /// Succeeds exactly when the body parses as rows metadata followed
    /// by a row count; the iterator then stands at the first column of
    /// the first row.
    pub fn decode(&self, body: Vec<u8>) -> (r: Result<crate::rows::Iter, DriverError>)
        ensures
            r is Ok <==> (crate::rows::spec_rows_metadata(body@) matches Some(t) && t.3 + 4
                <= body@.len() && crate::query::spec_read_u32(body@, t.3) <= 0x7fffffff),
            match r {
                Ok(it) => ({
                    let t = crate::rows::spec_rows_metadata(body@)->Some_0;
                    &&& it.buffer@ == body@
                    &&& it.rows_count == crate::query::spec_read_u32(body@, t.3)
                    &&& it.remaining_rows_count == it.rows_count
                    &&& it.column_start == t.3 + 4
                    &&& it.metadata.flags == t.0
                    &&& it.metadata.columns_count == t.1 as i32
                }),
                Err(e) => e == DriverError::Protocol,
            },
    {
        let metadata = match crate::rows::parse_rows_metadata(body.as_slice()) {
            Ok(m) => m,
            Err(e) => {
                return Err(e);
            },
        };
        crate::rows::Iter::new(body, metadata)
    }
}

/// A routed QUERY select request with its decode marker.
#[derive(Clone, Debug)]
pub struct QuerySelectRequest {
    pub payload: Vec<u8>,
    pub token: i64,
    pub keyspace: Option<String>,
}

impl QuerySelectRequest {
    /// A request from a QUERY payload and its routing token.
    pub fn new(payload: Vec<u8>, token: i64, keyspace: Option<String>) -> (r: Self)
        ensures
            r.payload@ == payload@,
            r.token == token,
            r.keyspace == keyspace,
    {
        QuerySelectRequest { payload, token, keyspace }
    }

    /// The rows decoder for the eventual response.
    pub fn result_decoder(&self) -> (r: DecodeRows)
    {
        DecodeRows
    }
}

/// A routed EXECUTE select request, keeping the statement text so that an
/// unprepared error can be recovered.
#[derive(Clone, Debug)]
pub struct ExecuteSelectRequest {
    pub payload: Vec<u8>,
    pub token: i64,
    pub keyspace: Option<String>,
    pub statement: String,
}

impl ExecuteSelectRequest {
    /// A request from an EXECUTE payload, its routing token, and the
    /// statement it executes.
    pub fn new(payload: Vec<u8>, token: i64, keyspace: Option<String>, statement: String)
        -> (r: Self)
        ensures
            r.payload@ == payload@,
            r.token == token,
            r.keyspace == keyspace,
            r.statement@ == statement@,
    {
        ExecuteSelectRequest { payload, token, keyspace, statement }
    }

    /// The rows decoder for the eventual response.
    pub fn result_decoder(&self) -> (r: DecodeRows)
    {
        DecodeRows
    }
}

/// Dynamic select requests from a parsed statement.
pub trait AsDynamicSelectRequest {
    /// The statement text this request is made from.
    spec fn spec_rendered(&self) -> Seq<char>;

    /// A select builder over this statement's text, with no known
    /// partition-key positions. Refused exactly when the text is too
    /// long for the frame's length field.
    fn query(&self) -> (r: Result<SelectBuilder, DriverError>)
        ensures
            r is Err <==> encode_utf8(self.spec_rendered()).len() > 0x7fffffff,
            match r {
                Ok(b) => {
                    &&& b.builder.statement@ == encode_utf8(self.spec_rendered())
                    &&& b.builder.values@.len() == 0
                    &&& b.token_indexes@.len() == 0
                    &&& b.builder.consistency == Consistency::One
                },
                Err(e) => e == DriverError::Other,
            },
    ;

    /// An EXECUTE builder over this statement's MD5 prepared id.
    fn query_prepared(&self) -> (r: ExecuteFrameBuilder)
        ensures
            r.id@ == md5_of(self.spec_rendered()),
            r.values@.len() == 0,
            r.consistency == Consistency::One,
    ;
}

impl AsDynamicSelectRequest for crate::dml::SelectStatement {
    open spec fn spec_rendered(&self) -> Seq<char> {
        self.render()
    }

    fn query(&self) -> (r: Result<SelectBuilder, DriverError>) {
        let text = self.to_cql();
        let st = text.as_str();
        if st.as_bytes().len() > 0x7fffffff {
            return Err(DriverError::Other);
        }
        Ok(SelectBuilder::new(st, Vec::new(), None))
    }

    fn query_prepared(&self) -> (r: ExecuteFrameBuilder) {
        let text = self.to_cql();
        ExecuteFrameBuilder::new(statement_id(text.as_str()))
    }
}

/// Dynamic prepare requests from a keyspace.
pub trait GetDynamicPrepareRequest {
    /// A prepare request for a statement given as text.
    fn prepare_with(&self, statement: &str) -> (r: PrepareRequest)
        ensures
            r.statement@ == statement@,
    ;
}

impl<S: Keyspace> GetDynamicPrepareRequest for S {
    fn prepare_with(&self, statement: &str) -> (r: PrepareRequest) {
        PrepareRequest::new(String::from_str(statement))
    }
}

/// Dynamic prepare requests from a parsed statement.
pub trait AsDynamicPrepareRequest {
    /// The statement text this request is made from.
    spec fn spec_rendered(&self) -> Seq<char>;

    /// A prepare request for this statement.
    fn prepare(&self) -> (r: PrepareRequest)
        ensures
            r.statement@ == self.spec_rendered(),
    ;
}

impl AsDynamicPrepareRequest for crate::dml::SelectStatement {
    open spec fn spec_rendered(&self) -> Seq<char> {
        self.render()
    }

    fn prepare(&self) -> (r: PrepareRequest) {
        PrepareRequest::new(self.to_cql())
    }
}

/// Update requests carried by a keyspace definition.
pub trait Update {
    /// Send an UPDATE payload routed by its token.
    fn update(&self, token: i64, payload: Vec<u8>) -> Result<(), DriverError>;
}

} // verus!
