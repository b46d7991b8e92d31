//! Decoding the rows of a RESULT body: the result flags, the paging
//! state, and an iterator over length-prefixed column values. The walk
//! over the metadata is mirrored by spec functions, so every decoder
//! states exactly what it reads.

use vstd::prelude::*;
use vstd::slice::{slice_subrange, slice_to_vec};
use crate::query::{spec_read_u16, spec_read_u32};

verus! {

/// The flags of a rows result.
#[derive(Debug, Clone, Copy, PartialEq, Eq, Structural)]
pub struct Flags {
    pub global_table_spec: bool,
    pub has_more_pages: bool,
    pub no_metadata: bool,
}

/// The three known flag bits of a rows result.
pub open spec fn spec_flags_of(bits: u32) -> Flags {
    Flags {
        global_table_spec: bits & 1 == 1,
        has_more_pages: bits & 2 == 2,
        no_metadata: bits & 4 == 4,
    }
}

impl Flags {
    /// Decode the three known flag bits out of the wire value.
    pub fn from_i32(flags: i32) -> (r: Self)
        ensures
            r.global_table_spec == ((flags & 1) == 1),
            r.has_more_pages == ((flags & 2) == 2),
            r.no_metadata == ((flags & 4) == 4),
    {
        Flags {
            global_table_spec: (flags & 1) == 1,
            has_more_pages: (flags & 2) == 2,
            no_metadata: (flags & 4) == 4,
        }
    }

    /// Whether more pages follow this one.
    pub fn has_more_pages(&self) -> (r: bool)
        ensures
            r == self.has_more_pages,
    {
        self.has_more_pages
    }
}

/// The paging state of a rows result, and where the metadata ended.
#[derive(Debug, Clone)]
pub struct PagingState {
    pub paging_state: Option<Vec<u8>>,
    pub end: usize,
}

impl PagingState {
    /// A paging state ending at offset `end` of the body.
    pub fn new(paging_state: Option<Vec<u8>>, end: usize) -> (r: Self)
        ensures
            r.paging_state == paging_state,
            r.end == end,
    {
        PagingState { paging_state, end }
    }
}

/// The decoded metadata of a rows result.
#[derive(Debug, Clone)]
pub struct Metadata {
    pub flags: Flags,
    pub columns_count: i32,
    pub paging_state: PagingState,
}

impl Metadata {
    /// Metadata from its parts.
    pub fn new(flags: Flags, columns_count: i32, paging_state: PagingState) -> (r: Self)
        ensures
            r.flags == flags,
            r.columns_count == columns_count,
            r.paging_state == paging_state,
    {
        Metadata { flags, columns_count, paging_state }
    }

    /// Where the rows start: right after the metadata.
    pub fn rows_start(&self) -> (r: usize)
        ensures
            r == self.paging_state.end,
    {
        self.paging_state.end
    }

    /// Take the paging state out of the metadata, leaving none.
    pub fn take_paging_state(&mut self) -> (r: Option<Vec<u8>>)
        ensures
            r == old(self).paging_state.paging_state,
            final(self).paging_state.paging_state is None,
            final(self).paging_state.end == old(self).paging_state.end,
            final(self).flags == old(self).flags,
            final(self).columns_count == old(self).columns_count,
    {
        let r = self.paging_state.paging_state.take();
        r
    }
}

/// A decoder that yields rows.
pub trait Rows {
    /// Take the paging state of the underlying result, if any remains.
    fn take_paging_state(&mut self) -> Option<Vec<u8>>;
}

/// A row assembled from its column byte strings.
pub trait Row: Sized {
    /// Assemble the row from the raw column values, in column order.
    fn decode_row(columns: &Vec<Vec<u8>>) -> Option<Self>;
}

/// A source of raw column values.
pub trait ColumnValue {
    /// The next column's bytes; an absent or NULL column yields an empty
    /// byte string.
    fn column_value(&mut self) -> Option<Vec<u8>>;
}

/// One column read at offset `p` of a rows body: its bytes and the
/// cursor after it. A negative length denotes NULL and yields empty
/// bytes; when the buffer ends before the column, the bytes are empty
/// and the cursor does not move.
pub open spec fn spec_column_at(b: Seq<u8>, p: int) -> (Seq<u8>, int) {
    if p + 4 > b.len() {
        (Seq::empty(), p)
    } else {
        let lb = spec_read_u32(b, p);
        if lb > 0x7fffffff {
            (Seq::empty(), p + 4)
        } else if p + 4 + lb > b.len() {
            (Seq::empty(), p)
        } else {
            (b.subrange(p + 4, p + 4 + lb), p + 4 + lb)
        }
    }
}

/// The first `k` columns read in order from offset `p`, and the cursor
/// after them.
pub open spec fn spec_columns_at(b: Seq<u8>, p: int, k: nat) -> (Seq<Seq<u8>>, int)
    decreases k,
{
    if k == 0 {
        (Seq::empty(), p)
    } else {
        let prev = spec_columns_at(b, p, (k - 1) as nat);
        let cur = spec_column_at(b, prev.1);
        (prev.0.push(cur.0), cur.1)
    }
}

/// How many columns a row of this metadata holds.
pub open spec fn spec_column_count(columns_count: i32) -> nat {
    if columns_count > 0 {
        columns_count as nat
    } else {
        0
    }
}

/// Iterates over the rows of a rows body: each column is read as a
/// four-byte signed length and that many bytes.
#[derive(Debug, Clone)]
pub struct Iter {
    pub buffer: Vec<u8>,
    pub rows_count: usize,
    pub remaining_rows_count: usize,
    pub column_start: usize,
    pub metadata: Metadata,
}

impl Iter {
    /// An iterator over a rows body whose rows begin at the metadata's
    /// end with a four-byte big-endian row count. Refused exactly when
    /// fewer than four bytes follow the metadata or the count does not
    /// fit the signed field.
    pub fn new(buffer: Vec<u8>, metadata: Metadata) -> (r: Result<
        Iter,
        crate::error::DriverError,
    >)
        ensures
            r is Ok <==> (metadata.paging_state.end + 4 <= buffer@.len() && spec_read_u32(
                buffer@, metadata.paging_state.end as int) <= 0x7fffffff),
            match r {
                Ok(it) => {
                    &&& it.buffer@ == buffer@
                    &&& it.metadata == metadata
                    &&& it.rows_count == spec_read_u32(buffer@, metadata.paging_state.end
                        as int)
                    &&& it.remaining_rows_count == it.rows_count
                    &&& it.column_start == metadata.paging_state.end + 4
                },
                Err(e) => e == crate::error::DriverError::Protocol,
            },
    {
        let start = metadata.rows_start();
        if start > buffer.len() || buffer.len() - start < 4 {
            return Err(crate::error::DriverError::Protocol);
        }
        let b0 = buffer[start] as u32;
        let b1 = buffer[start + 1] as u32;
        let b2 = buffer[start + 2] as u32;
        let b3 = buffer[start + 3] as u32;
        let count = (b0 << 24) | (b1 << 16) | (b2 << 8) | b3;
        if count > 0x7fffffff {
            return Err(crate::error::DriverError::Protocol);
        }
        Ok(Iter {
            buffer,
            rows_count: count as usize,
            remaining_rows_count: count as usize,
            column_start: start + 4,
            metadata,
        })
    }

    /// How many rows the body holds.
    pub fn rows_count(&self) -> (r: usize)
        ensures
            r == self.rows_count,
    {
        self.rows_count
    }

    /// How many rows have not yet been yielded.
    pub fn remaining_rows_count(&self) -> (r: usize)
        ensures
            r == self.remaining_rows_count,
    {
        self.remaining_rows_count
    }

    /// Read the next column value: exactly the bytes under the four-byte
    /// signed length at the cursor, with the cursor advanced past them;
    /// a negative length denotes NULL and yields empty bytes. `None`
    /// exactly when the buffer ends before the column, changing nothing.
    pub fn column_value(&mut self) -> (r: Option<Vec<u8>>)
        ensures
            final(self).buffer@ == old(self).buffer@,
            final(self).rows_count == old(self).rows_count,
            final(self).remaining_rows_count == old(self).remaining_rows_count,
            final(self).metadata == old(self).metadata,
            r is None <==> spec_column_at(old(self).buffer@, old(self).column_start
                as int).1 == old(self).column_start,
            r matches Some(col) ==> col@ == spec_column_at(old(self).buffer@, old(
                self).column_start as int).0 && final(self).column_start == spec_column_at(
                old(self).buffer@, old(self).column_start as int).1,
            r is None ==> *final(self) == *old(self),
    {
        let start = self.column_start;
        if start > self.buffer.len() || self.buffer.len() - start < 4 {
            return None;
        }
        let b0 = self.buffer[start] as u32;
        let b1 = self.buffer[start + 1] as u32;
        let b2 = self.buffer[start + 2] as u32;
        let b3 = self.buffer[start + 3] as u32;
        let len_bits = (b0 << 24) | (b1 << 16) | (b2 << 8) | b3;
        let after_len = start + 4;
        if len_bits > 0x7fffffff {
            // A negative length: NULL or unset, with no bytes following.
            self.column_start = after_len;
            return Some(Vec::new());
        }
        let len = len_bits as usize;
        if self.buffer.len() - after_len < len {
            return None;
        }
        let col = slice_to_vec(slice_subrange(self.buffer.as_slice(), after_len, after_len
            + len));
        self.column_start = after_len + len;
        Some(col)
    }

    /// Yield the raw columns of the next row: exactly the next
    /// `columns_count` column values in order, or `None` when every row
    /// has been yielded.
    pub fn next_row(&mut self) -> (r: Option<Vec<Vec<u8>>>)
        ensures
            final(self).buffer@ == old(self).buffer@,
            final(self).rows_count == old(self).rows_count,
            final(self).metadata == old(self).metadata,
            r is None <==> old(self).remaining_rows_count == 0,
            r is None ==> *final(self) == *old(self),
            r matches Some(row) ==> {
                &&& final(self).remaining_rows_count == old(self).remaining_rows_count - 1
                &&& row@.map_values(|c: Vec<u8>| c@) == spec_columns_at(old(self).buffer@,
                    old(self).column_start as int, spec_column_count(
                    old(self).metadata.columns_count)).0
                &&& final(self).column_start == spec_columns_at(old(self).buffer@, old(
                    self).column_start as int, spec_column_count(
                    old(self).metadata.columns_count)).1
            },
    {
        if self.remaining_rows_count == 0 {
            return None;
        }
        let cols_i32 = self.metadata.columns_count;
        let cols: usize = if cols_i32 > 0 {
            cols_i32 as usize
        } else {
            0
        };
        let ghost b = self.buffer@;
        let ghost p0 = self.column_start as int;
        let mut row: Vec<Vec<u8>> = Vec::new();
        let mut i: usize = 0;
        while i < cols
            invariant
                i <= cols,
                cols == spec_column_count(old(self).metadata.columns_count),
                b == old(self).buffer@,
                p0 == old(self).column_start as int,
                self.buffer@ == old(self).buffer@,
                self.rows_count == old(self).rows_count,
                self.remaining_rows_count == old(self).remaining_rows_count,
                self.metadata == old(self).metadata,
                row@.map_values(|c: Vec<u8>| c@) == spec_columns_at(b, p0, i as nat).0,
                self.column_start == spec_columns_at(b, p0, i as nat).1,
            decreases cols - i,
        {
            match self.column_value() {
                Some(col) => {
                    row.push(col);
                },
                None => {
                    row.push(Vec::new());
                },
            }
            i = i + 1;
            proof {
                assert(row@.map_values(|c: Vec<u8>| c@) =~= spec_columns_at(b, p0,
                    i as nat).0);
            }
        }
        self.remaining_rows_count = self.remaining_rows_count - 1;
        Some(row)
    }
}

impl Rows for Iter {
    fn take_paging_state(&mut self) -> (r: Option<Vec<u8>>) {
        self.metadata.take_paging_state()
    }
}

impl ColumnValue for Iter {
    fn column_value(&mut self) -> (r: Option<Vec<u8>>) {
        Iter::column_value(self)
    }
}

/// The offset after one `[string]` at `off`, when it lies inside `b`.
pub open spec fn spec_skip_string(b: Seq<u8>, off: int) -> Option<int> {
    if off + 2 > b.len() {
        None
    } else {
        let l = spec_read_u16(b, off) as int;
        if off + 2 + l > b.len() {
            None
        } else {
            Some(off + 2 + l)
        }
    }
}

/// The offset after one column type at `off`: a two-byte option id and
/// the parameters it announces — the class name of a custom type, the
/// element types of a list, set, map or tuple, and the keyspace, name
/// and fields of a user-defined type. `depth` bounds the nesting.
pub open spec fn spec_skip_column_type(b: Seq<u8>, off: int, depth: nat) -> Option<int>
    decreases depth, 0nat, 0nat,
{
    if off + 2 > b.len() {
        None
    } else {
        let id = spec_read_u16(b, off);
        let after = off + 2;
        if depth == 0 {
            None
        } else if id == 0x0000 {
            spec_skip_string(b, after)
        } else if id == 0x0020 || id == 0x0022 {
            spec_skip_column_type(b, after, (depth - 1) as nat)
        } else if id == 0x0021 {
            match spec_skip_column_type(b, after, (depth - 1) as nat) {
                Some(mid) => spec_skip_column_type(b, mid, (depth - 1) as nat),
                None => None,
            }
        } else if id == 0x0030 {
            match spec_skip_string(b, after) {
                Some(p1) => match spec_skip_string(b, p1) {
                    Some(p2) => {
                        if p2 + 2 > b.len() {
                            None
                        } else {
                            spec_skip_udt_fields(b, p2 + 2, spec_read_u16(b, p2) as nat, (
                            depth - 1) as nat)
                        }
                    },
                    None => None,
                },
                None => None,
            }
        } else if id == 0x0031 {
            if after + 2 > b.len() {
                None
            } else {
                spec_skip_types(b, after + 2, spec_read_u16(b, after) as nat, (depth
                    - 1) as nat)
            }
        } else {
            Some(after)
        }
    }
}

/// The offset after `n` consecutive column types.
pub open spec fn spec_skip_types(b: Seq<u8>, off: int, n: nat, depth: nat) -> Option<int>
    decreases depth, 1nat, n,
{
    if n == 0 {
        Some(off)
    } else {
        match spec_skip_column_type(b, off, depth) {
            Some(p) => spec_skip_types(b, p, (n - 1) as nat, depth),
            None => None,
        }
    }
}

/// The offset after `n` named fields of a user-defined type, each a
/// `[string]` name and a column type.
pub open spec fn spec_skip_udt_fields(b: Seq<u8>, off: int, n: nat, depth: nat) -> Option<
    int,
>
    decreases depth, 1nat, n,
{
    if n == 0 {
        Some(off)
    } else {
        match spec_skip_string(b, off) {
            Some(p1) => match spec_skip_column_type(b, p1, depth) {
                Some(p2) => spec_skip_udt_fields(b, p2, (n - 1) as nat, depth),
                None => None,
            },
            None => None,
        }
    }
}

/// The offset after `n` column specifications: per column, the keyspace
/// and table names unless a global table spec was given, then the column
/// name and its type.
pub open spec fn spec_skip_columns(b: Seq<u8>, off: int, n: nat, global: bool) -> Option<
    int,
>
    decreases n,
{
    if n == 0 {
        Some(off)
    } else {
        let q0 = if global {
            Some(off)
        } else {
            match spec_skip_string(b, off) {
                Some(a) => spec_skip_string(b, a),
                None => None,
            }
        };
        match q0 {
            Some(q1) => match spec_skip_string(b, q1) {
                Some(q2) => match spec_skip_column_type(b, q2, 16) {
                    Some(q3) => spec_skip_columns(b, q3, (n - 1) as nat, global),
                    None => None,
                },
                None => None,
            },
            None => None,
        }
    }
}

/// The fixed head of a rows RESULT body: the kind must be 2 and the
/// column count must fit the signed field; the flags and count are
/// returned.
pub open spec fn spec_metadata_head(b: Seq<u8>) -> Option<(Flags, u32)> {
    if b.len() < 12 {
        None
    } else if spec_read_u32(b, 0) != 2 {
        None
    } else {
        let cc = spec_read_u32(b, 8);
        if cc > 0x7fffffff {
            None
        } else {
            Some((spec_flags_of(spec_read_u32(b, 4)), cc))
        }
    }
}

/// The paging-state bytes announced by the flags, and the offset after
/// them.
pub open spec fn spec_metadata_paging(b: Seq<u8>, flags: Flags) -> Option<(
    Option<Seq<u8>>,
    int,
)> {
    if flags.has_more_pages {
        if b.len() < 16 {
            None
        } else {
            let pl = spec_read_u32(b, 12);
            if pl > 0x7fffffff || 16 + pl > b.len() {
                None
            } else {
                Some((Some(b.subrange(16, 16 + pl)), 16 + pl))
            }
        }
    } else {
        Some((None, 12))
    }
}

/// The offset after the table and column specifications that follow the
/// paging state at `p0`.
pub open spec fn spec_metadata_specs(b: Seq<u8>, flags: Flags, cc: u32, p0: int) -> Option<
    int,
> {
    let p1 = if flags.global_table_spec {
        match spec_skip_string(b, p0) {
            Some(q) => spec_skip_string(b, q),
            None => None,
        }
    } else {
        Some(p0)
    };
    match p1 {
        None => None,
        Some(p2) => if !flags.no_metadata {
            spec_skip_columns(b, p2, cc as nat, flags.global_table_spec)
        } else {
            Some(p2)
        },
    }
}

/// What the metadata of a rows RESULT body denotes: the flags, the
/// column count, the paging state bytes, and the offset where the rows
/// begin; `None` on malformed content.
pub open spec fn spec_rows_metadata(b: Seq<u8>) -> Option<(Flags, u32, Option<Seq<u8>>, int)> {
    match spec_metadata_head(b) {
        None => None,
        Some((flags, cc)) => match spec_metadata_paging(b, flags) {
            None => None,
            Some((paging, p0)) => match spec_metadata_specs(b, flags, cc, p0) {
                None => None,
                Some(end) => Some((flags, cc, paging, end)),
            },
        },
    }
}

/// Read a big-endian 16-bit value at `off`.
fn read_u16(b: &[u8], off: usize) -> (r: Option<u16>)
    ensures
        r matches Some(v) ==> off + 2 <= b@.len() && v == spec_read_u16(b@, off as int),
        r is None <==> off + 2 > b@.len(),
{
    if off > b.len() || b.len() - off < 2 {
        return None;
    }
    Some(((b[off] as u16) << 8) | (b[off + 1] as u16))
}

/// Read a big-endian 32-bit value at `off`.
fn read_u32(b: &[u8], off: usize) -> (r: Option<u32>)
    ensures
        r matches Some(v) ==> off + 4 <= b@.len() && v == spec_read_u32(b@, off as int),
        r is None <==> off + 4 > b@.len(),
{
    if off > b.len() || b.len() - off < 4 {
        return None;
    }
    Some(((b[off] as u32) << 24) | ((b[off + 1] as u32) << 16) | ((b[off + 2] as u32) << 8)
        | (b[off + 3] as u32))
}

/// Skip a `[string]`: a two-byte length and that many bytes. Returns the
/// offset after it.
fn skip_string(b: &[u8], off: usize) -> (r: Option<usize>)
    ensures
        match r {
            Some(end) => spec_skip_string(b@, off as int) == Some(end as int) && off < end
                <= b@.len(),
            None => spec_skip_string(b@, off as int) is None,
        },
{
    let n = b.len();
    let len = match read_u16(b, off) {
        Some(l) => l as usize,
        None => {
            return None;
        },
    };
    proof {
        assert(off + 2 <= n);
    }
    let after = off + 2;
    if b.len() - after < len {
        return None;
    }
    Some(after + len)
}

/// Skip one column type, walking the parameters of parameterized
/// options. `depth` bounds the nesting. Returns the offset after the
/// type.
fn skip_column_type(b: &[u8], off: usize, depth: usize) -> (r: Option<usize>)
    ensures
        match r {
            Some(end) => spec_skip_column_type(b@, off as int, depth as nat) == Some(end
                as int) && off < end <= b@.len(),
            None => spec_skip_column_type(b@, off as int, depth as nat) is None,
        },
    decreases depth,
{
    let n = b.len();
    let id = match read_u16(b, off) {
        Some(v) => v,
        None => {
            return None;
        },
    };
    proof {
        assert(off + 2 <= n);
    }
    let after = off + 2;
    if depth == 0 {
        return None;
    }
    if id == 0x0000 {
        // A custom type carries the server's class name.
        skip_string(b, after)
    } else if id == 0x0020 || id == 0x0022 {
        // A list or a set carries one element type.
        skip_column_type(b, after, depth - 1)
    } else if id == 0x0021 {
        // A map carries a key type and a value type.
        match skip_column_type(b, after, depth - 1) {
            Some(mid) => skip_column_type(b, mid, depth - 1),
            None => None,
        }
    } else if id == 0x0030 {
        // A user-defined type carries its keyspace, its name, and its
        // named fields.
        let p1 = match skip_string(b, after) {
            Some(p) => p,
            None => {
                return None;
            },
        };
        let p2 = match skip_string(b, p1) {
            Some(p) => p,
            None => {
                return None;
            },
        };
        let count = match read_u16(b, p2) {
            Some(v) => v as usize,
            None => {
                return None;
            },
        };
        proof {
            assert(p2 + 2 <= n);
        }
        let mut pos = p2 + 2;
        let ghost fields_start = pos as int;
        proof {
            assert(spec_skip_column_type(b@, off as int, depth as nat)
                == spec_skip_udt_fields(b@, fields_start, count as nat, (depth - 1) as nat));
        }
        let mut i: usize = 0;
        while i < count
            invariant
                i <= count,
                off < pos <= b@.len(),
                depth >= 1,
                spec_skip_column_type(b@, off as int, depth as nat) == spec_skip_udt_fields(
                    b@, pos as int, (count - i) as nat, (depth - 1) as nat),
            decreases count - i,
        {
            let p3 = match skip_string(b, pos) {
                Some(p) => p,
                None => {
                    proof {
                        assert(spec_skip_udt_fields(b@, pos as int, (count - i) as nat, (
                        depth - 1) as nat) is None);
                    }
                    return None;
                },
            };
            match skip_column_type(b, p3, depth - 1) {
                Some(next) => {
                    pos = next;
                },
                None => {
                    proof {
                        assert(spec_skip_udt_fields(b@, pos as int, (count - i) as nat, (
                        depth - 1) as nat) is None);
                    }
                    return None;
                },
            }
            i = i + 1;
        }
        proof {
            assert(spec_skip_udt_fields(b@, pos as int, 0, (depth - 1) as nat) == Some(
                pos as int));
        }
        Some(pos)
    } else if id == 0x0031 {
        // A tuple carries a count and that many member types.
        let count = match read_u16(b, after) {
            Some(v) => v as usize,
            None => {
                return None;
            },
        };
        proof {
            assert(after + 2 <= n);
        }
        let mut pos = after + 2;
        let ghost members_start = pos as int;
        proof {
            assert(spec_skip_column_type(b@, off as int, depth as nat) == spec_skip_types(
                b@, members_start, count as nat, (depth - 1) as nat));
        }
        let mut i: usize = 0;
        while i < count
            invariant
                i <= count,
                off < pos <= b@.len(),
                depth >= 1,
                spec_skip_column_type(b@, off as int, depth as nat) == spec_skip_types(b@,
                    pos as int, (count - i) as nat, (depth - 1) as nat),
            decreases count - i,
        {
            match skip_column_type(b, pos, depth - 1) {
                Some(next) => {
                    pos = next;
                },
                None => {
                    proof {
                        assert(spec_skip_types(b@, pos as int, (count - i) as nat, (depth
                            - 1) as nat) is None);
                    }
                    return None;
                },
            }
            i = i + 1;
        }
        proof {
            assert(spec_skip_types(b@, pos as int, 0, (depth - 1) as nat) == Some(
                pos as int));
        }
        Some(pos)
    } else {
        Some(after)
    }
}

/// Parse the metadata of a rows RESULT body: the kind, the flags, the
/// column count, the paging state, and the column specifications, which
/// are walked but not kept. Succeeds exactly on a well-formed metadata
/// and yields exactly the fields the body holds.
pub fn parse_rows_metadata(body: &[u8]) -> (r: Result<Metadata, crate::error::DriverError>)
    ensures
        r is Ok <==> spec_rows_metadata(body@) is Some,
        match r {
            Ok(m) => ({
                let t = spec_rows_metadata(body@)->Some_0;
                &&& m.flags == t.0
                &&& m.columns_count == t.1 as i32
                &&& (match (m.paging_state.paging_state, t.2) {
                    (Some(ps), Some(tb)) => ps@ == tb,
                    (None, None) => true,
                    _ => false,
                })
                &&& m.paging_state.end == t.3
                &&& m.paging_state.end <= body@.len()
            }),
            Err(e) => e == crate::error::DriverError::Protocol,
        },
{
    // The fixed head: the RESULT kind must be 2, rows.
    let kind = match read_u32(body, 0) {
        Some(k) => k,
        None => {
            return Err(crate::error::DriverError::Protocol);
        },
    };
    if kind != 2 {
        return Err(crate::error::DriverError::Protocol);
    }
    let flags_bits = match read_u32(body, 4) {
        Some(f) => f,
        None => {
            return Err(crate::error::DriverError::Protocol);
        },
    };
    let flags = Flags::from_i32(#[verifier::truncate] (flags_bits as i32));
    proof {
        let fb = flags_bits;
        assert((((fb as i32) & 1) == 1) == (fb & 1 == 1) && (((fb as i32) & 2) == 2) == (fb
            & 2 == 2) && (((fb as i32) & 4) == 4) == (fb & 4 == 4)) by (bit_vector);
        assert(flags == spec_flags_of(flags_bits));
    }
    let columns_count_bits = match read_u32(body, 8) {
        Some(c) => c,
        None => {
            return Err(crate::error::DriverError::Protocol);
        },
    };
    if columns_count_bits > 0x7fffffff {
        return Err(crate::error::DriverError::Protocol);
    }
    proof {
        assert(spec_metadata_head(body@) == Some((flags, columns_count_bits)));
    }
    let columns_count = columns_count_bits as usize;
    // The paging state, when the flags announce one.
    let mut pos: usize = 12;
    let mut paging: Option<Vec<u8>> = None;
    if flags.has_more_pages {
        let len_bits = match read_u32(body, pos) {
            Some(l) => l,
            None => {
                proof {
                    assert(spec_metadata_paging(body@, flags) is None);
                }
                return Err(crate::error::DriverError::Protocol);
            },
        };
        if len_bits > 0x7fffffff {
            return Err(crate::error::DriverError::Protocol);
        }
        let len = len_bits as usize;
        let after = pos + 4;
        if body.len() - after < len {
            return Err(crate::error::DriverError::Protocol);
        }
        paging = Some(slice_to_vec(slice_subrange(body, after, after + len)));
        pos = after + len;
    }
    let ghost paging_view: Option<Seq<u8>> = match paging {
        Some(ref ps) => Some(ps@),
        None => None,
    };
    let ghost p0 = pos as int;
    proof {
        assert(spec_metadata_paging(body@, flags) == Some((paging_view, p0)));
    }
    // The table specification shared by every column, when global.
    if flags.global_table_spec {
        pos = match skip_string(body, pos) {
            Some(p) => p,
            None => {
                proof {
                    assert(spec_metadata_specs(body@, flags, columns_count_bits, p0)
                        is None);
                }
                return Err(crate::error::DriverError::Protocol);
            },
        };
        pos = match skip_string(body, pos) {
            Some(p) => p,
            None => {
                proof {
                    assert(spec_metadata_specs(body@, flags, columns_count_bits, p0)
                        is None);
                }
                return Err(crate::error::DriverError::Protocol);
            },
        };
    }
    let ghost p2 = pos as int;
    // The per-column specifications, walked but not kept.
    if !flags.no_metadata {
        let mut i: usize = 0;
        while i < columns_count
            invariant
                pos <= body@.len(),
                i <= columns_count,
                columns_count == columns_count_bits,
                !flags.no_metadata,
                spec_metadata_head(body@) == Some((flags, columns_count_bits)),
                spec_metadata_paging(body@, flags) == Some((paging_view, p0)),
                flags.global_table_spec ==> (match spec_skip_string(body@, p0) {
                    Some(q) => spec_skip_string(body@, q),
                    None => None,
                }) == Some(p2),
                !flags.global_table_spec ==> p2 == p0,
                spec_skip_columns(body@, pos as int, (columns_count - i) as nat,
                    flags.global_table_spec) == spec_skip_columns(body@, p2, columns_count
                    as nat, flags.global_table_spec),
            decreases columns_count - i,
        {
            let ghost col_start = pos as int;
            if !flags.global_table_spec {
                pos = match skip_string(body, pos) {
                    Some(p) => p,
                    None => {
                        proof {
                            assert(spec_skip_columns(body@, col_start, (columns_count
                                - i) as nat, flags.global_table_spec) is None);
                            assert(spec_skip_columns(body@, p2, columns_count as nat,
                                flags.global_table_spec) is None);
                            assert(spec_metadata_specs(body@, flags, columns_count_bits,
                                p0) is None);
                            assert(spec_rows_metadata(body@) is None);
                        }
                        return Err(crate::error::DriverError::Protocol);
                    },
                };
                pos = match skip_string(body, pos) {
                    Some(p) => p,
                    None => {
                        proof {
                            assert(spec_skip_columns(body@, col_start, (columns_count
                                - i) as nat, flags.global_table_spec) is None);
                            assert(spec_skip_columns(body@, p2, columns_count as nat,
                                flags.global_table_spec) is None);
                            assert(spec_metadata_specs(body@, flags, columns_count_bits,
                                p0) is None);
                            assert(spec_rows_metadata(body@) is None);
                        }
                        return Err(crate::error::DriverError::Protocol);
                    },
                };
            }
            let ghost pair_end = pos as int;
            proof {
                if flags.global_table_spec {
                    assert(pair_end == col_start);
                } else {
                    assert((match spec_skip_string(body@, col_start) {
                        Some(a) => spec_skip_string(body@, a),
                        None => None,
                    }) == Some(pair_end));
                }
            }
            pos = match skip_string(body, pos) {
                Some(p) => p,
                None => {
                    proof {
                        assert(spec_skip_string(body@, pair_end) is None);
                        assert(spec_skip_columns(body@, col_start, (columns_count
                            - i) as nat, flags.global_table_spec) is None);
                        assert(spec_skip_columns(body@, p2, columns_count as nat,
                            flags.global_table_spec) is None);
                        assert(spec_metadata_specs(body@, flags, columns_count_bits, p0)
                            is None);
                        assert(spec_rows_metadata(body@) is None);
                    }
                    return Err(crate::error::DriverError::Protocol);
                },
            };
            let ghost name_end = pos as int;
            proof {
                assert(spec_skip_string(body@, pair_end) == Some(name_end));
            }
            pos = match skip_column_type(body, pos, 16) {
                Some(p) => p,
                None => {
                    proof {
                        assert(spec_skip_column_type(body@, name_end, 16) is None);
                        assert(spec_skip_columns(body@, col_start, (columns_count
                            - i) as nat, flags.global_table_spec) is None);
                        assert(spec_skip_columns(body@, p2, columns_count as nat,
                            flags.global_table_spec) is None);
                        assert(spec_metadata_specs(body@, flags, columns_count_bits, p0)
                            is None);
                        assert(spec_rows_metadata(body@) is None);
                    }
                    return Err(crate::error::DriverError::Protocol);
                },
            };
            i = i + 1;
            proof {
                assert(spec_skip_column_type(body@, name_end, 16) == Some(pos as int));
                assert(spec_skip_columns(body@, col_start, (columns_count - i
                    + 1) as nat, flags.global_table_spec) == spec_skip_columns(body@,
                    pos as int, (columns_count - i) as nat, flags.global_table_spec));
            }
        }
        proof {
            assert(spec_skip_columns(body@, pos as int, 0, flags.global_table_spec)
                == Some(pos as int));
        }
    }
    proof {
        assert(spec_metadata_specs(body@, flags, columns_count_bits, p0) == Some(
            pos as int));
        assert(spec_rows_metadata(body@) == Some((flags, columns_count_bits, paging_view,
            pos as int)));
    }
    Ok(Metadata {
        flags,
        columns_count: #[verifier::truncate] (columns_count_bits as i32),
        paging_state: PagingState { paging_state: paging, end: pos },
    })
}

} // verus!
