//! The process-wide prepared-statement registry: a map from the 16-byte
//! MD5 id of a statement to the statement itself and the positions of its
//! partition-key values. Every stored id is the MD5 of its statement.

use vstd::prelude::*;
use crate::query::{spec_read_u16, spec_read_u32};
use crate::error::DriverError;

verus! {

/// The MD5 digest of a statement's UTF-8 bytes; the digest depends on
/// the characters alone.
pub uninterp spec fn md5_of(s: Seq<char>) -> Seq<u8>;

/// Relies on md5::compute: the 16-byte MD5 digest of the statement's
/// UTF-8 bytes.
#[verifier::external_body]
fn md5_digest(statement: &str) -> (r: [u8; 16])
    ensures
        r@ == md5_of(statement@),
        r@.len() == 16,
{
    md5::compute(statement.as_bytes()).into()
}

/// The prepared id of a statement: the MD5 digest of its UTF-8 bytes.
pub fn statement_id(statement: &str) -> (r: [u8; 16])
    ensures
        r@ == md5_of(statement@),
{
    md5_digest(statement)
}

/// Compare two prepared ids byte for byte.
pub fn id_eq(a: &[u8; 16], b: &[u8; 16]) -> (r: bool)
    ensures
        r == (a@ == b@),
{
    let mut i: usize = 0;
    let mut eq = true;
    while i < 16
        invariant
            i <= 16,
            eq == (forall|j: int| 0 <= j < i ==> a@[j] == b@[j]),
        decreases 16 - i,
    {
        if a[i] != b[i] {
            eq = false;
        }
        i = i + 1;
    }
    proof {
        if eq {
            assert(a@ =~= b@);
        }
    }
    eq
}

/// One prepared statement: its id, its text, and the positions within the
/// bound values that together form the partition key.
#[derive(Debug, Clone)]
pub struct PreparedEntry {
    pub id: [u8; 16],
    pub statement: String,
    pub pk_indexes: Vec<u16>,
}

/// The registry of prepared statements. Its invariant carries the
/// correspondence that callers rely on: every stored id is exactly the
/// MD5 of the stored statement's bytes, and ids are unique.
#[derive(Debug, Clone)]
pub struct PreparedRegistry {
    pub entries: Vec<PreparedEntry>,
}

impl PreparedRegistry {
    /// Every entry's id is the MD5 of its statement, and no id occurs
    /// twice.
    pub open spec fn wf(self) -> bool {
        &&& forall|i: int|
            0 <= i < self.entries@.len() ==> (#[trigger] self.entries@[i]).id@ == md5_of(
                self.entries@[i].statement@)
        &&& forall|i: int, j: int|
            0 <= i < j < self.entries@.len() ==> self.entries@[i].id@ != self.entries@[j].id@
    }

    /// Whether some entry stores `id`.
    pub open spec fn spec_contains(self, id: Seq<u8>) -> bool {
        exists|i: int| 0 <= i < self.entries@.len() && (#[trigger] self.entries@[i]).id@ == id
    }

    /// An empty registry.
    pub fn new() -> (r: Self)
        ensures
            r.wf(),
            r.entries@.len() == 0,
    {
        PreparedRegistry { entries: Vec::new() }
    }

    /// The number of statements stored.
    pub fn len(&self) -> (r: usize)
        ensures
            r == self.entries@.len(),
    {
        self.entries.len()
    }

    /// Find the position of `id`, if it is stored.
    fn position(&self, id: &[u8; 16]) -> (r: Option<usize>)
        ensures
            match r {
                Some(i) => (i as int) < self.entries@.len() && self.entries@[i as int].id@
                    == id@,
                None => !self.spec_contains(id@),
            },
    {
        let mut i: usize = 0;
        while i < self.entries.len()
            invariant
                i <= self.entries@.len(),
                forall|j: int| 0 <= j < i ==> (#[trigger] self.entries@[j]).id@ != id@,
            decreases self.entries@.len() - i,
        {
            if id_eq(&self.entries[i].id, id) {
                return Some(i);
            }
            i = i + 1;
        }
        None
    }

    /// Record a statement that the server confirmed prepared under
    /// `server_id`. Succeeds exactly when the server's id matches the MD5
    /// of the statement bytes, which the wire contract promises; a
    /// mismatch is a protocol violation and leaves the registry unchanged.
    pub fn insert(&mut self, statement: String, server_id: &[u8; 16], pk_indexes: Vec<u16>)
        -> (r: Result<(), DriverError>)
        requires
            old(self).wf(),
        ensures
            final(self).wf(),
            r is Err <==> server_id@ != md5_of(statement@),
            match r {
                Ok(()) => {
                    &&& server_id@ == md5_of(statement@)
                    &&& final(self).spec_contains(server_id@)
                    &&& exists|i: int|
                        0 <= i < final(self).entries@.len() && (#[trigger] final(
                        self).entries@[i]).id@ == server_id@ && final(self).entries@[
                        i].statement@ == statement@ && final(self).entries@[i].pk_indexes@
                            == pk_indexes@
                },
                Err(e) => {
                    &&& e == DriverError::Protocol
                    &&& *final(self) == *old(self)
                },
            },
    {
        let local = statement_id(statement.as_str());
        if !id_eq(&local, server_id) {
            return Err(DriverError::Protocol);
        }
        match self.position(server_id) {
            Some(i) => {
                self.entries.set(i, PreparedEntry { id: local, statement, pk_indexes });
                proof {
                    assert(final(self).entries@[i as int].id@ == server_id@);
                    assert(final(self).entries@[i as int].pk_indexes@ == pk_indexes@);
                }
                Ok(())
            },
            None => {
                self.entries.push(PreparedEntry { id: local, statement, pk_indexes });
                proof {
                    let n = self.entries@.len() - 1;
                    assert(self.entries@[n].id@ == server_id@);
                    assert(self.entries@[n].pk_indexes@ == pk_indexes@);
                }
                Ok(())
            },
        }
    }

    /// Look a statement up by its prepared id, as the reporter does when
    /// it recovers from an unprepared error. A returned entry is one of
    /// the registry's own and satisfies `id == md5(statement bytes)`;
    /// `None` comes exactly when no entry stores the id.
    pub fn get(&self, id: &[u8; 16]) -> (r: Option<&PreparedEntry>)
        requires
            self.wf(),
        ensures
            match r {
                Some(e) => {
                    &&& e.id@ == id@
                    &&& e.id@ == md5_of(e.statement@)
                    &&& exists|i: int|
                        0 <= i < self.entries@.len() && *e == (#[trigger] self.entries@[i])
                },
                None => !self.spec_contains(id@),
            },
    {
        match self.position(id) {
            Some(i) => Some(&self.entries[i]),
            None => None,
        }
    }
}


/// A decoded RESULT body of kind Prepared: the 16-byte id the server
/// assigned and the positions of the partition-key values.
#[derive(Debug, Clone)]
pub struct PreparedResult {
    pub id: [u8; 16],
    pub pk_indexes: Vec<u16>,
}

/// Whether a Prepared RESULT body is well formed: a four-byte kind of
/// 4, the id as `[short bytes]` of length 16, and a partition-key index
/// list that lies inside the body.
pub open spec fn spec_prepared_result_ok(b: Seq<u8>) -> bool {
    &&& b.len() >= 34
    &&& spec_read_u32(b, 0) == 4
    &&& b[4] == 0
    &&& b[5] == 16
    &&& spec_read_u32(b, 30) <= 0xffff
    &&& 34 + 2 * spec_read_u32(b, 30) <= b.len()
}

/// Decode a RESULT body of kind Prepared: a four-byte kind of 4, the id
/// as `[short bytes]` of length 16, then the result metadata, of which
/// the partition-key indexes are kept. Succeeds exactly on a well-formed
/// body, yielding exactly the id and index bytes the body holds.
pub fn parse_prepared_result(body: &[u8]) -> (r: Result<PreparedResult, DriverError>)
    ensures
        r is Ok <==> spec_prepared_result_ok(body@),
        match r {
            Ok(p) => {
                &&& p.id@ == body@.subrange(6, 22)
                &&& p.pk_indexes@.len() == spec_read_u32(body@, 30)
                &&& forall|k: int|
                    0 <= k < p.pk_indexes@.len() ==> (#[trigger] p.pk_indexes@[k])
                        == spec_read_u16(body@, 34 + 2 * k)
            },
            Err(e) => e == DriverError::Protocol,
        },
{
    let n = body.len();
    // kind (4) + id length (2) + id (16) + flags, columns, pk count (12).
    if n < 34 {
        return Err(DriverError::Protocol);
    }
    let kind = ((body[0] as u32) << 24) | ((body[1] as u32) << 16) | ((body[2] as u32) << 8)
        | (body[3] as u32);
    if kind != 4 {
        return Err(DriverError::Protocol);
    }
    if body[4] != 0 || body[5] != 16 {
        return Err(DriverError::Protocol);
    }
    let mut id = [0u8; 16];
    let mut i: usize = 0;
    while i < 16
        invariant
            i <= 16,
            n >= 34,
            n == body@.len(),
            forall|k: int| 0 <= k < i ==> id@[k] == body@[6 + k],
        decreases 16 - i,
    {
        id.set(i, body[6 + i]);
        i = i + 1;
    }
    proof {
        assert(id@ =~= body@.subrange(6, 22));
    }
    // The metadata: flags and columns count are not needed here.
    let pk_count = ((body[30] as u32) << 24) | ((body[31] as u32) << 16) | ((body[32]
        as u32) << 8) | (body[33] as u32);
    if pk_count > 0xffff {
        return Err(DriverError::Protocol);
    }
    let count = pk_count as usize;
    if (n - 34) / 2 < count {
        return Err(DriverError::Protocol);
    }
    let mut pk_indexes: Vec<u16> = Vec::new();
    let mut j: usize = 0;
    while j < count
        invariant
            j <= count,
            count <= 0xffff,
            count == spec_read_u32(body@, 30),
            n == body@.len(),
            34 + 2 * count <= n,
            pk_indexes@.len() == j,
            forall|k: int|
                0 <= k < j ==> (#[trigger] pk_indexes@[k]) == spec_read_u16(body@, 34 + 2
                    * k),
        decreases count - j,
    {
        let off = 34 + 2 * j;
        let idx = ((body[off] as u16) << 8) | (body[off + 1] as u16);
        pk_indexes.push(idx);
        j = j + 1;
    }
    Ok(PreparedResult { id, pk_indexes })
}

impl PreparedRegistry {
    /// Record a server's Prepared response for a statement: decode the
    /// body, check the returned id against the MD5 of the statement, and
    /// store the statement with its partition-key indexes. A mismatching
    /// id or a malformed body is a protocol violation.
    pub fn insert_prepared_response(&mut self, statement: String, body: &[u8]) -> (r: Result<
        PreparedResult,
        DriverError,
    >)
        requires
            old(self).wf(),
        ensures
            final(self).wf(),
            match r {
                Ok(p) => {
                    &&& p.id@ == md5_of(statement@)
                    &&& final(self).spec_contains(p.id@)
                    &&& exists|i: int|
                        0 <= i < final(self).entries@.len() && (#[trigger] final(
                        self).entries@[i]).id@ == p.id@ && final(self).entries@[
                        i].statement@ == statement@ && final(self).entries@[i].pk_indexes@
                            == p.pk_indexes@
                },
                Err(e) => e == DriverError::Protocol && *final(self) == *old(self),
            },
    {
        let parsed = parse_prepared_result(body)?;
        let indexes = vstd::slice::slice_to_vec(parsed.pk_indexes.as_slice());
        match self.insert(statement, &parsed.id, indexes) {
            Ok(()) => Ok(parsed),
            Err(e) => Err(e),
        }
    }
}

/// For every prepared statement in a well-formed registry, the stored id
/// equals the MD5 digest of the statement's bytes.
pub proof fn lemma_registry_ids_are_digests(reg: PreparedRegistry, i: int)
    requires
        reg.wf(),
        0 <= i < reg.entries@.len(),
    ensures
        reg.entries@[i].id@ == md5_of(reg.entries@[i].statement@),
{
}

} // verus!
