//! Typed construction of QUERY, EXECUTE and BATCH request bodies, byte
//! exact against protocol v4: a `[long string]` or `[short bytes]`
//! statement, consistency, a flags byte, and the optional parameter
//! fields that the flags announce.

use vstd::prelude::*;
use vstd::string::StringSliceAdditionalSpecFns;

verus! {

/// A consistency level, as its wire code.
#[derive(Copy, Clone, Debug, PartialEq, Eq, Structural)]
pub enum Consistency {
    Any,
    One,
    Two,
    Three,
    Quorum,
    All,
    LocalQuorum,
    EachQuorum,
    Serial,
    LocalSerial,
    LocalOne,
}

impl Consistency {
    /// The two-byte wire code of the level.
    pub open spec fn spec_code(self) -> u16 {
        match self {
            Consistency::Any => 0x0000,
            Consistency::One => 0x0001,
            Consistency::Two => 0x0002,
            Consistency::Three => 0x0003,
            Consistency::Quorum => 0x0004,
            Consistency::All => 0x0005,
            Consistency::LocalQuorum => 0x0006,
            Consistency::EachQuorum => 0x0007,
            Consistency::Serial => 0x0008,
            Consistency::LocalSerial => 0x0009,
            Consistency::LocalOne => 0x000A,
        }
    }

    /// Encode the level as its wire code.
    pub fn code(self) -> (r: u16)
        ensures
            r == self.spec_code(),
    {
        match self {
            Consistency::Any => 0x0000,
            Consistency::One => 0x0001,
            Consistency::Two => 0x0002,
            Consistency::Three => 0x0003,
            Consistency::Quorum => 0x0004,
            Consistency::All => 0x0005,
            Consistency::LocalQuorum => 0x0006,
            Consistency::EachQuorum => 0x0007,
            Consistency::Serial => 0x0008,
            Consistency::LocalSerial => 0x0009,
            Consistency::LocalOne => 0x000A,
        }
    }
}

/// The two big-endian bytes of a 16-bit value.
pub open spec fn spec_be16(v: u16) -> Seq<u8> {
    seq![(v >> 8) as u8, v as u8]
}

/// The 16-bit value of two big-endian bytes at `off`.
pub open spec fn spec_read_u16(b: Seq<u8>, off: int) -> u16 {
    (((b[off] as u16) << 8) | (b[off + 1] as u16)) as u16
}

/// The 32-bit value of four big-endian bytes at `off`.
pub open spec fn spec_read_u32(b: Seq<u8>, off: int) -> u32 {
    (((b[off] as u32) << 24) | ((b[off + 1] as u32) << 16) | ((b[off + 2] as u32) << 8) | (b[
        off + 3] as u32)) as u32
}

/// The four big-endian bytes of a 32-bit value.
pub open spec fn spec_be32(v: u32) -> Seq<u8> {
    seq![(v >> 24) as u8, (v >> 16) as u8, (v >> 8) as u8, v as u8]
}

/// The eight big-endian bytes of a 64-bit value.
pub open spec fn spec_be64(v: u64) -> Seq<u8> {
    seq![
        (v >> 56) as u8,
        (v >> 48) as u8,
        (v >> 40) as u8,
        (v >> 32) as u8,
        (v >> 24) as u8,
        (v >> 16) as u8,
        (v >> 8) as u8,
        v as u8,
    ]
}

/// Append two big-endian bytes.
pub fn push_be16(out: &mut Vec<u8>, v: u16)
    ensures
        final(out)@ == old(out)@ + spec_be16(v),
{
    out.push((v >> 8) as u8);
    out.push((v & 0xff) as u8);
    proof {
        assert((v & 0xff) as u8 == v as u8) by (bit_vector);
        assert(final(out)@ =~= old(out)@ + spec_be16(v));
    }
}

/// Append four big-endian bytes.
pub fn push_be32(out: &mut Vec<u8>, v: u32)
    ensures
        final(out)@ == old(out)@ + spec_be32(v),
{
    out.push((v >> 24) as u8);
    out.push(((v >> 16) & 0xff) as u8);
    out.push(((v >> 8) & 0xff) as u8);
    out.push((v & 0xff) as u8);
    proof {
        assert(((v >> 16) & 0xff) as u8 == (v >> 16) as u8 && ((v >> 8) & 0xff) as u8 == (v
            >> 8) as u8 && (v & 0xff) as u8 == v as u8) by (bit_vector);
        assert(final(out)@ =~= old(out)@ + spec_be32(v));
    }
}

/// Append eight big-endian bytes.
pub fn push_be64(out: &mut Vec<u8>, v: u64)
    ensures
        final(out)@ == old(out)@ + spec_be64(v),
{
    out.push((v >> 56) as u8);
    out.push(((v >> 48) & 0xff) as u8);
    out.push(((v >> 40) & 0xff) as u8);
    out.push(((v >> 32) & 0xff) as u8);
    out.push(((v >> 24) & 0xff) as u8);
    out.push(((v >> 16) & 0xff) as u8);
    out.push(((v >> 8) & 0xff) as u8);
    out.push((v & 0xff) as u8);
    proof {
        assert(((v >> 48) & 0xff) as u8 == (v >> 48) as u8 && ((v >> 40) & 0xff) as u8 == (v
            >> 40) as u8 && ((v >> 32) & 0xff) as u8 == (v >> 32) as u8 && ((v >> 24)
            & 0xff) as u8 == (v >> 24) as u8 && ((v >> 16) & 0xff) as u8 == (v >> 16) as u8
            && ((v >> 8) & 0xff) as u8 == (v >> 8) as u8 && (v & 0xff) as u8 == v as u8)
            by (bit_vector);
        assert(final(out)@ =~= old(out)@ + spec_be64(v));
    }
}

/// Append a byte slice.
pub fn push_bytes(out: &mut Vec<u8>, b: &[u8])
    ensures
        final(out)@ == old(out)@ + b@,
{
    let ghost prefix = out@;
    let mut i: usize = 0;
    while i < b.len()
        invariant
            i <= b@.len(),
            out@ == prefix + b@.subrange(0, i as int),
        decreases b@.len() - i,
    {
        out.push(b[i]);
        i = i + 1;
        proof {
            assert(out@ =~= prefix + b@.subrange(0, i as int));
        }
    }
    proof {
        assert(b@.subrange(0, b@.len() as int) =~= b@);
    }
}

/// Append a single byte.
pub fn push_u8(out: &mut Vec<u8>, b: u8)
    ensures
        final(out)@ == old(out)@ + seq![b],
{
    out.push(b);
    proof {
        assert(final(out)@ =~= old(out)@ + seq![b]);
    }
}

/// One bound value of a request: bytes, an explicit NULL, or UNSET.
#[derive(Debug, Clone)]
pub enum BoundValue {
    Bytes(Vec<u8>),
    Null,
    Unset,
}

impl BoundValue {
    /// A value fits the wire when its length fits the four-byte signed
    /// length field.
    pub open spec fn wf(self) -> bool {
        match self {
            BoundValue::Bytes(b) => b@.len() <= 0x7fffffff,
            _ => true,
        }
    }

    /// The wire bytes of the value: a signed length, then the bytes;
    /// length -1 means NULL and -2 means UNSET.
    pub open spec fn spec_bytes(self) -> Seq<u8> {
        match self {
            BoundValue::Bytes(b) => spec_be32(b@.len() as u32) + b@,
            BoundValue::Null => spec_be32(0xffffffffu32),
            BoundValue::Unset => spec_be32(0xfffffffeu32),
        }
    }
}

/// The wire bytes of a row of bound values, in order.
pub open spec fn spec_values_bytes(vs: Seq<BoundValue>) -> Seq<u8>
    decreases vs.len(),
{
    if vs.len() == 0 {
        Seq::empty()
    } else {
        spec_values_bytes(vs.drop_last()) + vs.last().spec_bytes()
    }
}

/// Appending one more value appends its bytes.
pub proof fn lemma_values_bytes_push(vs: Seq<BoundValue>, v: BoundValue)
    ensures
        spec_values_bytes(vs.push(v)) == spec_values_bytes(vs) + v.spec_bytes(),
{
    assert(vs.push(v).drop_last() =~= vs);
    assert(vs.push(v).last() == v);
}

/// Append the wire bytes of every value.
pub fn push_values(out: &mut Vec<u8>, vs: &Vec<BoundValue>)
    requires
        forall|i: int| 0 <= i < vs@.len() ==> (#[trigger] vs@[i]).wf(),
    ensures
        final(out)@ == old(out)@ + spec_values_bytes(vs@),
{
    let ghost prefix = out@;
    let mut i: usize = 0;
    while i < vs.len()
        invariant
            i <= vs@.len(),
            forall|k: int| 0 <= k < vs@.len() ==> (#[trigger] vs@[k]).wf(),
            out@ == prefix + spec_values_bytes(vs@.take(i as int)),
        decreases vs@.len() - i,
    {
        match &vs[i] {
            BoundValue::Bytes(b) => {
                push_be32(out, b.len() as u32);
                push_bytes(out, b.as_slice());
            },
            BoundValue::Null => {
                push_be32(out, 0xffffffffu32);
            },
            BoundValue::Unset => {
                push_be32(out, 0xfffffffeu32);
            },
        }
        i = i + 1;
        proof {
            assert(vs@.take(i as int) =~= vs@.take(i as int - 1).push(vs@[i as int - 1]));
            lemma_values_bytes_push(vs@.take(i as int - 1), vs@[i as int - 1]);
            assert(out@ =~= prefix + spec_values_bytes(vs@.take(i as int)));
        }
    }
    proof {
        assert(vs@.take(vs@.len() as int) =~= vs@);
    }
}

/// The flags byte of a query-parameters block: bit 0 values, bit 2 page
/// size, bit 3 paging state, bit 4 serial consistency, bit 5 default
/// timestamp.
pub open spec fn spec_query_flags(
    has_values: bool,
    has_page_size: bool,
    has_paging_state: bool,
    has_serial: bool,
    has_timestamp: bool,
) -> u8 {
    (if has_values {
        0x01u8
    } else {
        0u8
    }) | (if has_page_size {
        0x04u8
    } else {
        0u8
    }) | (if has_paging_state {
        0x08u8
    } else {
        0u8
    }) | (if has_serial {
        0x10u8
    } else {
        0u8
    }) | (if has_timestamp {
        0x20u8
    } else {
        0u8
    })
}

/// The `<query_parameters>` block shared by QUERY and EXECUTE bodies:
/// consistency, flags, then each optional field that its flag announces.
pub open spec fn spec_query_parameters(
    consistency: Consistency,
    values: Seq<BoundValue>,
    page_size: Option<i32>,
    paging_state: Option<Seq<u8>>,
    serial_consistency: Option<Consistency>,
    timestamp: Option<i64>,
) -> Seq<u8> {
    spec_be16(consistency.spec_code()) + seq![
        spec_query_flags(values.len() > 0, page_size is Some, paging_state is Some,
            serial_consistency is Some, timestamp is Some),
    ] + (if values.len() > 0 {
        spec_be16(values.len() as u16)
    } else {
        Seq::<u8>::empty()
    }) + (if values.len() > 0 {
        spec_values_bytes(values)
    } else {
        Seq::<u8>::empty()
    }) + (match page_size {
        Some(p) => spec_be32(p as u32),
        None => Seq::<u8>::empty(),
    }) + (match paging_state {
        Some(ps) => spec_be32(ps.len() as u32),
        None => Seq::<u8>::empty(),
    }) + (match paging_state {
        Some(ps) => ps,
        None => Seq::<u8>::empty(),
    }) + (match serial_consistency {
        Some(c) => spec_be16(c.spec_code()),
        None => Seq::<u8>::empty(),
    }) + (match timestamp {
        Some(t) => spec_be64(t as u64),
        None => Seq::<u8>::empty(),
    })
}

/// Builds a QUERY body: the statement as a `[long string]`, then the
/// query parameters.
#[derive(Debug, Clone)]
pub struct QueryFrameBuilder {
    pub statement: Vec<u8>,
    pub consistency: Consistency,
    pub values: Vec<BoundValue>,
    pub page_size: Option<i32>,
    pub paging_state: Option<Vec<u8>>,
    pub serial_consistency: Option<Consistency>,
    pub timestamp: Option<i64>,
}

impl QueryFrameBuilder {
    /// The builder is within wire bounds: the statement and every value
    /// fit their length fields, and the value count fits two bytes.
    pub open spec fn wf(self) -> bool {
        &&& self.statement@.len() <= 0x7fffffff
        &&& self.values@.len() <= 0xffff
        &&& forall|i: int| 0 <= i < self.values@.len() ==> (#[trigger] self.values@[i]).wf()
        &&& match self.paging_state {
            Some(ps) => ps@.len() <= 0x7fffffff,
            None => true,
        }
    }

    /// The QUERY body this builder denotes.
    pub open spec fn spec_body(self) -> Seq<u8> {
        spec_be32(self.statement@.len() as u32) + self.statement@ + spec_query_parameters(
            self.consistency,
            self.values@, self.page_size, match self.paging_state {
            Some(ps) => Some(ps@),
            None => None,
        }, self.serial_consistency, self.timestamp)
    }

    /// An empty builder for a statement, at consistency ONE.
    pub fn new(statement: &str) -> (r: Self)
        requires
            statement.spec_bytes().len() <= 0x7fffffff,
        ensures
            r.statement@ == statement.spec_bytes(),
            r.consistency == Consistency::One,
            r.values@.len() == 0,
            r.page_size is None,
            r.paging_state is None,
            r.serial_consistency is None,
            r.timestamp is None,
            r.wf(),
    {
        QueryFrameBuilder {
            statement: vstd::slice::slice_to_vec(statement.as_bytes()),
            consistency: Consistency::One,
            values: Vec::new(),
            page_size: None,
            paging_state: None,
            serial_consistency: None,
            timestamp: None,
        }
    }

    /// Set the consistency level.
    pub fn consistency(&mut self, consistency: Consistency)
        ensures
            *final(self) == (QueryFrameBuilder { consistency, ..*old(self) }),
    {
        self.consistency = consistency;
    }

    /// Bind one value's wire bytes.
    pub fn value(&mut self, bytes: Vec<u8>)
        requires
            old(self).values@.len() < 0xffff,
            bytes@.len() <= 0x7fffffff,
        ensures
            final(self).values@ == old(self).values@.push(BoundValue::Bytes(bytes)),
            *final(self) == (QueryFrameBuilder {
                values: final(self).values,
                ..*old(self)
            }),
    {
        self.values.push(BoundValue::Bytes(bytes));
    }

    /// Bind an explicit NULL.
    pub fn null_value(&mut self)
        requires
            old(self).values@.len() < 0xffff,
        ensures
            final(self).values@ == old(self).values@.push(BoundValue::Null),
            *final(self) == (QueryFrameBuilder {
                values: final(self).values,
                ..*old(self)
            }),
    {
        self.values.push(BoundValue::Null);
    }

    /// Bind an UNSET value.
    pub fn unset_value(&mut self)
        requires
            old(self).values@.len() < 0xffff,
        ensures
            final(self).values@ == old(self).values@.push(BoundValue::Unset),
            *final(self) == (QueryFrameBuilder {
                values: final(self).values,
                ..*old(self)
            }),
    {
        self.values.push(BoundValue::Unset);
    }

    /// Request a page size.
    pub fn page_size(&mut self, page_size: i32)
        ensures
            *final(self) == (QueryFrameBuilder { page_size: Some(page_size), ..*old(self) }),
    {
        self.page_size = Some(page_size);
    }

    /// Resume from a paging state.
    pub fn paging_state(&mut self, paging_state: Vec<u8>)
        requires
            paging_state@.len() <= 0x7fffffff,
        ensures
            *final(self) == (QueryFrameBuilder {
                paging_state: Some(paging_state),
                ..*old(self)
            }),
    {
        self.paging_state = Some(paging_state);
    }

    /// Set the serial consistency level.
    pub fn serial_consistency(&mut self, consistency: Consistency)
        ensures
            *final(self) == (QueryFrameBuilder {
                serial_consistency: Some(consistency),
                ..*old(self)
            }),
    {
        self.serial_consistency = Some(consistency);
    }

    /// Set the default timestamp.
    pub fn timestamp(&mut self, timestamp: i64)
        ensures
            *final(self) == (QueryFrameBuilder { timestamp: Some(timestamp), ..*old(self) }),
    {
        self.timestamp = Some(timestamp);
    }

    /// Build the QUERY body, byte exact.
    pub fn build(&self) -> (r: Vec<u8>)
        requires
            self.wf(),
        ensures
            r@ == self.spec_body(),
    {
        let mut out: Vec<u8> = Vec::new();
        push_be32(&mut out, self.statement.len() as u32);
        push_bytes(&mut out, self.statement.as_slice());
        push_query_parameters(&mut out, self.consistency, &self.values, self.page_size,
            &self.paging_state, self.serial_consistency, self.timestamp);
        proof {
            assert(out@ =~= self.spec_body());
        }
        out
    }
}

/// Append the value count and values when any value is bound.
fn push_values_block(out: &mut Vec<u8>, values: &Vec<BoundValue>)
    requires
        values@.len() <= 0xffff,
        forall|i: int| 0 <= i < values@.len() ==> (#[trigger] values@[i]).wf(),
    ensures
        final(out)@ == old(out)@ + (if values@.len() > 0 {
            spec_be16(values@.len() as u16)
        } else {
            Seq::<u8>::empty()
        }) + (if values@.len() > 0 {
            spec_values_bytes(values@)
        } else {
            Seq::<u8>::empty()
        }),
{
    if values.len() > 0 {
        push_be16(out, values.len() as u16);
        push_values(out, values);
    } else {
        proof {
            assert(old(out)@ + Seq::<u8>::empty() =~= old(out)@);
            assert(old(out)@ + Seq::<u8>::empty() + Seq::<u8>::empty() =~= old(out)@);
        }
    }
}

/// Append the page size field when requested.
fn push_opt_page_size(out: &mut Vec<u8>, page_size: Option<i32>)
    ensures
        final(out)@ == old(out)@ + (match page_size {
            Some(p) => spec_be32(p as u32),
            None => Seq::<u8>::empty(),
        }),
{
    match page_size {
        Some(p) => {
            push_be32(out, #[verifier::truncate] (p as u32));
        },
        None => {
            proof {
                assert(old(out)@ + Seq::<u8>::empty() =~= old(out)@);
            }
        },
    }
}

/// Append the paging state field when present.
fn push_opt_paging_state(out: &mut Vec<u8>, paging_state: &Option<Vec<u8>>)
    requires
        match paging_state {
            Some(ps) => ps@.len() <= 0x7fffffff,
            None => true,
        },
    ensures
        final(out)@ == old(out)@ + (match paging_state {
            Some(ps) => spec_be32(ps@.len() as u32),
            None => Seq::<u8>::empty(),
        }) + (match paging_state {
            Some(ps) => ps@,
            None => Seq::<u8>::empty(),
        }),
{
    match paging_state {
        Some(ps) => {
            push_be32(out, ps.len() as u32);
            push_bytes(out, ps.as_slice());
        },
        None => {
            proof {
                assert(old(out)@ + Seq::<u8>::empty() =~= old(out)@);
                assert(old(out)@ + Seq::<u8>::empty() + Seq::<u8>::empty() =~= old(out)@);
            }
        },
    }
}

/// Append the serial consistency field when present.
fn push_opt_serial(out: &mut Vec<u8>, serial_consistency: Option<Consistency>)
    ensures
        final(out)@ == old(out)@ + (match serial_consistency {
            Some(c) => spec_be16(c.spec_code()),
            None => Seq::<u8>::empty(),
        }),
{
    match serial_consistency {
        Some(c) => {
            push_be16(out, c.code());
        },
        None => {
            proof {
                assert(old(out)@ + Seq::<u8>::empty() =~= old(out)@);
            }
        },
    }
}

/// Append the default timestamp field when present.
fn push_opt_timestamp(out: &mut Vec<u8>, timestamp: Option<i64>)
    ensures
        final(out)@ == old(out)@ + (match timestamp {
            Some(t) => spec_be64(t as u64),
            None => Seq::<u8>::empty(),
        }),
{
    match timestamp {
        Some(t) => {
            push_be64(out, #[verifier::truncate] (t as u64));
        },
        None => {
            proof {
                assert(old(out)@ + Seq::<u8>::empty() =~= old(out)@);
            }
        },
    }
}

/// Append the shared `<query_parameters>` block.
#[verifier::rlimit(100)]
pub fn push_query_parameters(
    out: &mut Vec<u8>,
    consistency: Consistency,
    values: &Vec<BoundValue>,
    page_size: Option<i32>,
    paging_state: &Option<Vec<u8>>,
    serial_consistency: Option<Consistency>,
    timestamp: Option<i64>,
)
    requires
        values@.len() <= 0xffff,
        forall|i: int| 0 <= i < values@.len() ==> (#[trigger] values@[i]).wf(),
        match paging_state {
            Some(ps) => ps@.len() <= 0x7fffffff,
            None => true,
        },
    ensures
        final(out)@ == old(out)@ + spec_query_parameters(consistency, values@, page_size,
            match paging_state {
                Some(ps) => Some(ps@),
                None => None,
            }, serial_consistency, timestamp),
{
    push_be16(out, consistency.code());
    let flags: u8 = (if values.len() > 0 {
        0x01u8
    } else {
        0u8
    }) | (if page_size.is_some() {
        0x04u8
    } else {
        0u8
    }) | (if paging_state.is_some() {
        0x08u8
    } else {
        0u8
    }) | (if serial_consistency.is_some() {
        0x10u8
    } else {
        0u8
    }) | (if timestamp.is_some() {
        0x20u8
    } else {
        0u8
    });
    push_u8(out, flags);
    push_values_block(out, values);
    push_opt_page_size(out, page_size);
    push_opt_paging_state(out, paging_state);
    push_opt_serial(out, serial_consistency);
    push_opt_timestamp(out, timestamp);
}

/// Builds an EXECUTE body: the prepared id as `[short bytes]`, then the
/// query parameters.
#[derive(Debug, Clone)]
pub struct ExecuteFrameBuilder {
    pub id: [u8; 16],
    pub consistency: Consistency,
    pub values: Vec<BoundValue>,
    pub page_size: Option<i32>,
    pub paging_state: Option<Vec<u8>>,
    pub serial_consistency: Option<Consistency>,
    pub timestamp: Option<i64>,
}

impl ExecuteFrameBuilder {
    /// The builder is within wire bounds.
    pub open spec fn wf(self) -> bool {
        &&& self.values@.len() <= 0xffff
        &&& forall|i: int| 0 <= i < self.values@.len() ==> (#[trigger] self.values@[i]).wf()
        &&& match self.paging_state {
            Some(ps) => ps@.len() <= 0x7fffffff,
            None => true,
        }
    }

    /// The EXECUTE body this builder denotes: a two-byte length 16, the
    /// MD5 id, then the query parameters.
    pub open spec fn spec_body(self) -> Seq<u8> {
        spec_be16(16u16) + self.id@ + spec_query_parameters(self.consistency, self.values@,
            self.page_size, match self.paging_state {
            Some(ps) => Some(ps@),
            None => None,
        }, self.serial_consistency, self.timestamp)
    }

    /// An empty builder for a prepared id, at consistency ONE.
    pub fn new(id: [u8; 16]) -> (r: Self)
        ensures
            r.id@ == id@,
            r.consistency == Consistency::One,
            r.values@.len() == 0,
            r.page_size is None,
            r.paging_state is None,
            r.serial_consistency is None,
            r.timestamp is None,
            r.wf(),
    {
        ExecuteFrameBuilder {
            id,
            consistency: Consistency::One,
            values: Vec::new(),
            page_size: None,
            paging_state: None,
            serial_consistency: None,
            timestamp: None,
        }
    }

    /// Set the consistency level.
    pub fn consistency(&mut self, consistency: Consistency)
        ensures
            *final(self) == (ExecuteFrameBuilder { consistency, ..*old(self) }),
    {
        self.consistency = consistency;
    }

    /// Bind one value's wire bytes.
    pub fn value(&mut self, bytes: Vec<u8>)
        requires
            old(self).values@.len() < 0xffff,
            bytes@.len() <= 0x7fffffff,
        ensures
            final(self).values@ == old(self).values@.push(BoundValue::Bytes(bytes)),
            *final(self) == (ExecuteFrameBuilder {
                values: final(self).values,
                ..*old(self)
            }),
    {
        self.values.push(BoundValue::Bytes(bytes));
    }

    /// Bind an explicit NULL.
    pub fn null_value(&mut self)
        requires
            old(self).values@.len() < 0xffff,
        ensures
            final(self).values@ == old(self).values@.push(BoundValue::Null),
            *final(self) == (ExecuteFrameBuilder {
                values: final(self).values,
                ..*old(self)
            }),
    {
        self.values.push(BoundValue::Null);
    }

    /// Bind an UNSET value.
    pub fn unset_value(&mut self)
        requires
            old(self).values@.len() < 0xffff,
        ensures
            final(self).values@ == old(self).values@.push(BoundValue::Unset),
            *final(self) == (ExecuteFrameBuilder {
                values: final(self).values,
                ..*old(self)
            }),
    {
        self.values.push(BoundValue::Unset);
    }

    /// Request a page size.
    pub fn page_size(&mut self, page_size: i32)
        ensures
            *final(self) == (ExecuteFrameBuilder {
                page_size: Some(page_size),
                ..*old(self)
            }),
    {
        self.page_size = Some(page_size);
    }

    /// Resume from a paging state.
    pub fn paging_state(&mut self, paging_state: Vec<u8>)
        requires
            paging_state@.len() <= 0x7fffffff,
        ensures
            *final(self) == (ExecuteFrameBuilder {
                paging_state: Some(paging_state),
                ..*old(self)
            }),
    {
        self.paging_state = Some(paging_state);
    }

    /// Set the serial consistency level.
    pub fn serial_consistency(&mut self, consistency: Consistency)
        ensures
            *final(self) == (ExecuteFrameBuilder {
                serial_consistency: Some(consistency),
                ..*old(self)
            }),
    {
        self.serial_consistency = Some(consistency);
    }

    /// Set the default timestamp.
    pub fn timestamp(&mut self, timestamp: i64)
        ensures
            *final(self) == (ExecuteFrameBuilder {
                timestamp: Some(timestamp),
                ..*old(self)
            }),
    {
        self.timestamp = Some(timestamp);
    }

    /// Build the EXECUTE body, byte exact.
    pub fn build(&self) -> (r: Vec<u8>)
        requires
            self.wf(),
        ensures
            r@ == self.spec_body(),
    {
        let mut out: Vec<u8> = Vec::new();
        push_be16(&mut out, 16);
        push_bytes(&mut out, &self.id);
        push_query_parameters(&mut out, self.consistency, &self.values, self.page_size,
            &self.paging_state, self.serial_consistency, self.timestamp);
        proof {
            assert(out@ =~= self.spec_body());
        }
        out
    }
}

/// One entry of a batch: a statement as text or as a prepared id, with
/// its bound values.
#[derive(Debug, Clone)]
pub enum BatchStatementRef {
    Text(Vec<u8>),
    Prepared([u8; 16]),
}

/// One batched statement with its values.
#[derive(Debug, Clone)]
pub struct BatchEntry {
    pub statement: BatchStatementRef,
    pub values: Vec<BoundValue>,
}

impl BatchEntry {
    pub open spec fn wf(self) -> bool {
        &&& match self.statement {
            BatchStatementRef::Text(t) => t@.len() <= 0x7fffffff,
            BatchStatementRef::Prepared(_) => true,
        }
        &&& self.values@.len() <= 0xffff
        &&& forall|i: int| 0 <= i < self.values@.len() ==> (#[trigger] self.values@[i]).wf()
    }

    /// The wire bytes of the entry: a kind byte, the statement or id,
    /// the value count, and the values.
    pub open spec fn spec_bytes(self) -> Seq<u8> {
        (match self.statement {
            BatchStatementRef::Text(t) => seq![0u8] + spec_be32(t@.len() as u32) + t@,
            BatchStatementRef::Prepared(id) => seq![1u8] + spec_be16(16u16) + id@,
        }) + spec_be16(self.values@.len() as u16) + spec_values_bytes(self.values@)
    }
}

/// The wire bytes of every batch entry, in order.
pub open spec fn spec_entries_bytes(es: Seq<BatchEntry>) -> Seq<u8>
    decreases es.len(),
{
    if es.len() == 0 {
        Seq::empty()
    } else {
        spec_entries_bytes(es.drop_last()) + es.last().spec_bytes()
    }
}

/// The kind byte of a batch.
#[derive(Copy, Clone, Debug, PartialEq, Eq, Structural)]
pub enum BatchType {
    Logged,
    Unlogged,
    Counter,
}

impl BatchType {
    pub open spec fn spec_code(self) -> u8 {
        match self {
            BatchType::Logged => 0,
            BatchType::Unlogged => 1,
            BatchType::Counter => 2,
        }
    }

    pub fn code(self) -> (r: u8)
        ensures
            r == self.spec_code(),
    {
        match self {
            BatchType::Logged => 0,
            BatchType::Unlogged => 1,
            BatchType::Counter => 2,
        }
    }
}

/// Builds a BATCH body: the kind, the entries, then consistency, flags,
/// and the optional serial consistency and timestamp.
#[derive(Debug, Clone)]
pub struct BatchBuilder {
    pub batch_type: BatchType,
    pub entries: Vec<BatchEntry>,
    pub consistency: Consistency,
    pub serial_consistency: Option<Consistency>,
    pub timestamp: Option<i64>,
}

impl BatchBuilder {
    pub open spec fn wf(self) -> bool {
        &&& self.entries@.len() <= 0xffff
        &&& forall|i: int| 0 <= i < self.entries@.len() ==> (#[trigger] self.entries@[i]).wf()
    }

    /// The flags byte of the batch: bit 4 serial consistency, bit 5
    /// default timestamp.
    pub open spec fn spec_flags(self) -> u8 {
        (if self.serial_consistency is Some {
            0x10u8
        } else {
            0u8
        }) | (if self.timestamp is Some {
            0x20u8
        } else {
            0u8
        })
    }

    /// The BATCH body this builder denotes.
    pub open spec fn spec_body(self) -> Seq<u8> {
        seq![self.batch_type.spec_code()] + spec_be16(self.entries@.len() as u16)
            + spec_entries_bytes(self.entries@) + spec_be16(self.consistency.spec_code())
            + seq![self.spec_flags()] + (match self.serial_consistency {
            Some(c) => spec_be16(c.spec_code()),
            None => Seq::<u8>::empty(),
        }) + (match self.timestamp {
            Some(t) => spec_be64(t as u64),
            None => Seq::<u8>::empty(),
        })
    }

    /// An empty logged batch at consistency ONE.
    pub fn new() -> (r: Self)
        ensures
            r.batch_type == BatchType::Logged,
            r.entries@.len() == 0,
            r.consistency == Consistency::One,
            r.serial_consistency is None,
            r.timestamp is None,
            r.wf(),
    {
        BatchBuilder {
            batch_type: BatchType::Logged,
            entries: Vec::new(),
            consistency: Consistency::One,
            serial_consistency: None,
            timestamp: None,
        }
    }

    /// Set the batch type.
    pub fn batch_type(&mut self, batch_type: BatchType)
        ensures
            *final(self) == (BatchBuilder { batch_type, ..*old(self) }),
    {
        self.batch_type = batch_type;
    }

    /// Open a new entry for a statement given as text.
    pub fn statement(&mut self, statement: &str)
        requires
            old(self).wf(),
            old(self).entries@.len() < 0xffff,
            statement.spec_bytes().len() <= 0x7fffffff,
        ensures
            final(self).wf(),
            final(self).entries@.len() == old(self).entries@.len() + 1,
            final(self).entries@.last().statement is Text,
            final(self).entries@.last().statement->Text_0@ == statement.spec_bytes(),
            final(self).entries@.last().values@.len() == 0,
            forall|i: int|
                0 <= i < old(self).entries@.len() ==> final(self).entries@[i] == old(
                    self).entries@[i],
            final(self).batch_type == old(self).batch_type,
            final(self).consistency == old(self).consistency,
            final(self).serial_consistency == old(self).serial_consistency,
            final(self).timestamp == old(self).timestamp,
    {
        self.entries.push(BatchEntry {
            statement: BatchStatementRef::Text(vstd::slice::slice_to_vec(statement.as_bytes())),
            values: Vec::new(),
        });
    }

    /// Open a new entry for a prepared statement id.
    pub fn id(&mut self, id: &[u8; 16])
        requires
            old(self).wf(),
            old(self).entries@.len() < 0xffff,
        ensures
            final(self).wf(),
            final(self).entries@.len() == old(self).entries@.len() + 1,
            final(self).entries@.last().statement is Prepared,
            final(self).entries@.last().statement->Prepared_0@ == id@,
            final(self).entries@.last().values@.len() == 0,
            forall|i: int|
                0 <= i < old(self).entries@.len() ==> final(self).entries@[i] == old(
                    self).entries@[i],
            final(self).batch_type == old(self).batch_type,
            final(self).consistency == old(self).consistency,
            final(self).serial_consistency == old(self).serial_consistency,
            final(self).timestamp == old(self).timestamp,
    {
        self.entries.push(BatchEntry {
            statement: BatchStatementRef::Prepared(*id),
            values: Vec::new(),
        });
    }

    /// Bind one value's wire bytes to the open entry.
    pub fn value(&mut self, bytes: Vec<u8>) -> (r: Result<(), crate::error::DriverError>)
        requires
            old(self).wf(),
            bytes@.len() <= 0x7fffffff,
        ensures
            final(self).wf(),
            r is Err <==> (old(self).entries@.len() == 0 || old(
                self).entries@.last().values@.len() >= 0xffff),
            match r {
                Ok(()) => {
                    &&& old(self).entries@.len() > 0
                    &&& old(self).entries@.last().values@.len() < 0xffff
                    &&& final(self).entries@.len() == old(self).entries@.len()
                    &&& final(self).entries@.last().statement == old(
                        self).entries@.last().statement
                    &&& final(self).entries@.last().values@ == old(
                        self).entries@.last().values@.push(BoundValue::Bytes(bytes))
                    &&& forall|i: int|
                        0 <= i < old(self).entries@.len() - 1 ==> final(self).entries@[i]
                            == old(self).entries@[i]
                },
                Err(e) => e == crate::error::DriverError::Other && *final(self) == *old(
                    self),
            },
            final(self).batch_type == old(self).batch_type,
            final(self).consistency == old(self).consistency,
            final(self).serial_consistency == old(self).serial_consistency,
            final(self).timestamp == old(self).timestamp,
    {
        let n = self.entries.len();
        if n == 0 {
            return Err(crate::error::DriverError::Other);
        }
        let last = &self.entries[n - 1];
        if last.values.len() >= 0xffff {
            return Err(crate::error::DriverError::Other);
        }
        let mut entry = self.entries.remove(n - 1);
        entry.values.push(BoundValue::Bytes(bytes));
        self.entries.push(entry);
        Ok(())
    }

    /// Set the consistency level.
    pub fn consistency(&mut self, consistency: Consistency)
        ensures
            *final(self) == (BatchBuilder { consistency, ..*old(self) }),
    {
        self.consistency = consistency;
    }

    /// Set the serial consistency level.
    pub fn serial_consistency(&mut self, consistency: Consistency)
        ensures
            *final(self) == (BatchBuilder {
                serial_consistency: Some(consistency),
                ..*old(self)
            }),
    {
        self.serial_consistency = Some(consistency);
    }

    /// Set the default timestamp.
    pub fn timestamp(&mut self, timestamp: i64)
        ensures
            *final(self) == (BatchBuilder { timestamp: Some(timestamp), ..*old(self) }),
    {
        self.timestamp = Some(timestamp);
    }

    /// Build the BATCH body, byte exact.
    pub fn build(&self) -> (r: Vec<u8>)
        requires
            self.wf(),
        ensures
            r@ == self.spec_body(),
    {
        broadcast use vstd::seq::Seq::add_empty_right;

        let mut out: Vec<u8> = Vec::new();
        out.push(self.batch_type.code());
        push_be16(&mut out, self.entries.len() as u16);
        let ghost prefix = out@;
        let mut i: usize = 0;
        while i < self.entries.len()
            invariant
                i <= self.entries@.len(),
                self.wf(),
                out@ == prefix + spec_entries_bytes(self.entries@.take(i as int)),
            decreases self.entries@.len() - i,
        {
            let entry = &self.entries[i];
            match &entry.statement {
                BatchStatementRef::Text(t) => {
                    out.push(0);
                    push_be32(&mut out, t.len() as u32);
                    push_bytes(&mut out, t.as_slice());
                },
                BatchStatementRef::Prepared(id) => {
                    out.push(1);
                    push_be16(&mut out, 16);
                    push_bytes(&mut out, id);
                },
            }
            push_be16(&mut out, entry.values.len() as u16);
            push_values(&mut out, &entry.values);
            i = i + 1;
            proof {
                let taken = self.entries@.take(i as int);
                assert(taken =~= self.entries@.take(i as int - 1).push(self.entries@[i as int
                    - 1]));
                assert(taken.drop_last() =~= self.entries@.take(i as int - 1));
                assert(out@ =~= prefix + spec_entries_bytes(taken));
            }
        }
        proof {
            assert(self.entries@.take(self.entries@.len() as int) =~= self.entries@);
        }
        push_be16(&mut out, self.consistency.code());
        let flags: u8 = (if self.serial_consistency.is_some() {
            0x10u8
        } else {
            0u8
        }) | (if self.timestamp.is_some() {
            0x20u8
        } else {
            0u8
        });
        out.push(flags);
        match self.serial_consistency {
            Some(c) => {
                push_be16(&mut out, c.code());
            },
            None => {},
        }
        match self.timestamp {
            Some(t) => {
                push_be64(&mut out, #[verifier::truncate] (t as u64));
            },
            None => {},
        }
        proof {
            assert(out@ =~= self.spec_body());
        }
        out
    }
}

/// The value-binding interface that the frame builders share: one call
/// per bound value, in order. A binding fails exactly when the value
/// row is full or the value is too long for its length field, changing
/// nothing.
pub trait Binder: Sized {
    /// The values bound so far.
    spec fn spec_values(&self) -> Seq<BoundValue>;

    /// Bind one value's wire bytes.
    fn value(&mut self, bytes: Vec<u8>) -> (r: Result<(), crate::error::DriverError>)
        ensures
            r is Err <==> (old(self).spec_values().len() >= 0xffff || bytes@.len()
                > 0x7fffffff),
            r matches Ok(_) ==> final(self).spec_values() == old(self).spec_values().push(
                BoundValue::Bytes(bytes)),
            r matches Err(e) ==> e == crate::error::DriverError::Other && *final(self)
                == *old(self),
    ;

    /// Bind an explicit NULL.
    fn null_value(&mut self) -> (r: Result<(), crate::error::DriverError>)
        ensures
            r is Err <==> old(self).spec_values().len() >= 0xffff,
            r matches Ok(_) ==> final(self).spec_values() == old(self).spec_values().push(
                BoundValue::Null),
            r matches Err(e) ==> e == crate::error::DriverError::Other && *final(self)
                == *old(self),
    ;

    /// Bind an UNSET value.
    fn unset_value(&mut self) -> (r: Result<(), crate::error::DriverError>)
        ensures
            r is Err <==> old(self).spec_values().len() >= 0xffff,
            r matches Ok(_) ==> final(self).spec_values() == old(self).spec_values().push(
                BoundValue::Unset),
            r matches Err(e) ==> e == crate::error::DriverError::Other && *final(self)
                == *old(self),
    ;
}

/// A value that knows how to bind itself to a frame builder.
pub trait Bindable {
    /// Bind this value through the binder: on success one value holding
    /// these bytes is appended.
    fn bind<B: Binder>(&self, binder: &mut B) -> (r: Result<(), crate::error::DriverError>);
}

impl Bindable for Vec<u8> {
    fn bind<B: Binder>(&self, binder: &mut B) -> (r: Result<(), crate::error::DriverError>) {
        binder.value(vstd::slice::slice_to_vec(self.as_slice()))
    }
}

impl Binder for QueryFrameBuilder {
    open spec fn spec_values(&self) -> Seq<BoundValue> {
        self.values@
    }

    fn value(&mut self, bytes: Vec<u8>) -> (r: Result<(), crate::error::DriverError>) {
        if self.values.len() >= 0xffff || bytes.len() > 0x7fffffff {
            return Err(crate::error::DriverError::Other);
        }
        QueryFrameBuilder::value(self, bytes);
        Ok(())
    }

    fn null_value(&mut self) -> (r: Result<(), crate::error::DriverError>) {
        if self.values.len() >= 0xffff {
            return Err(crate::error::DriverError::Other);
        }
        QueryFrameBuilder::null_value(self);
        Ok(())
    }

    fn unset_value(&mut self) -> (r: Result<(), crate::error::DriverError>) {
        if self.values.len() >= 0xffff {
            return Err(crate::error::DriverError::Other);
        }
        QueryFrameBuilder::unset_value(self);
        Ok(())
    }
}

impl Binder for ExecuteFrameBuilder {
    open spec fn spec_values(&self) -> Seq<BoundValue> {
        self.values@
    }

    fn value(&mut self, bytes: Vec<u8>) -> (r: Result<(), crate::error::DriverError>) {
        if self.values.len() >= 0xffff || bytes.len() > 0x7fffffff {
            return Err(crate::error::DriverError::Other);
        }
        ExecuteFrameBuilder::value(self, bytes);
        Ok(())
    }

    fn null_value(&mut self) -> (r: Result<(), crate::error::DriverError>) {
        if self.values.len() >= 0xffff {
            return Err(crate::error::DriverError::Other);
        }
        ExecuteFrameBuilder::null_value(self);
        Ok(())
    }

    fn unset_value(&mut self) -> (r: Result<(), crate::error::DriverError>) {
        if self.values.len() >= 0xffff {
            return Err(crate::error::DriverError::Other);
        }
        ExecuteFrameBuilder::unset_value(self);
        Ok(())
    }
}

/// The statement-receiving interface of a batch: a statement as text or
/// as a prepared id opens each entry. Opening fails exactly when the
/// batch is full, the text is too long for its length field, or the
/// builder is out of wire bounds, changing nothing.
pub trait Statements: Sized {
    /// The entries collected so far.
    spec fn spec_entries(&self) -> Seq<BatchEntry>;

    /// Whether the collected entries are within wire bounds.
    spec fn spec_wf(&self) -> bool;

    /// Open an entry for a statement given as text.
    fn statement(&mut self, statement: &str) -> (r: Result<(), crate::error::DriverError>)
        ensures
            r is Err <==> (old(self).spec_entries().len() >= 0xffff
                || statement.spec_bytes().len() > 0x7fffffff || !old(self).spec_wf()),
            r matches Ok(_) ==> {
                &&& final(self).spec_entries().len() == old(self).spec_entries().len() + 1
                &&& final(self).spec_entries().last().statement is Text
                &&& final(self).spec_entries().last().statement->Text_0@
                    == statement.spec_bytes()
                &&& final(self).spec_entries().last().values@.len() == 0
                &&& forall|i: int|
                    0 <= i < old(self).spec_entries().len() ==> final(self).spec_entries()[
                    i] == old(self).spec_entries()[i]
            },
            r matches Err(e) ==> e == crate::error::DriverError::Other && *final(self)
                == *old(self),
    ;

    /// Open an entry for a prepared statement id.
    fn id(&mut self, id: &[u8; 16]) -> (r: Result<(), crate::error::DriverError>)
        ensures
            r is Err <==> (old(self).spec_entries().len() >= 0xffff || !old(
                self).spec_wf()),
            r matches Ok(_) ==> {
                &&& final(self).spec_entries().len() == old(self).spec_entries().len() + 1
                &&& final(self).spec_entries().last().statement is Prepared
                &&& final(self).spec_entries().last().statement->Prepared_0@ == id@
                &&& final(self).spec_entries().last().values@.len() == 0
                &&& forall|i: int|
                    0 <= i < old(self).spec_entries().len() ==> final(self).spec_entries()[
                    i] == old(self).spec_entries()[i]
            },
            r matches Err(e) ==> e == crate::error::DriverError::Other && *final(self)
                == *old(self),
    ;
}

impl Statements for BatchBuilder {
    open spec fn spec_entries(&self) -> Seq<BatchEntry> {
        self.entries@
    }

    open spec fn spec_wf(&self) -> bool {
        self.wf()
    }

    fn statement(&mut self, statement: &str) -> (r: Result<(), crate::error::DriverError>) {
        if self.entries.len() >= 0xffff || statement.as_bytes().len() > 0x7fffffff {
            return Err(crate::error::DriverError::Other);
        }
        let ok = builder_wf_check(self);
        if !ok {
            return Err(crate::error::DriverError::Other);
        }
        BatchBuilder::statement(self, statement);
        Ok(())
    }

    fn id(&mut self, id: &[u8; 16]) -> (r: Result<(), crate::error::DriverError>) {
        if self.entries.len() >= 0xffff {
            return Err(crate::error::DriverError::Other);
        }
        let ok = builder_wf_check(self);
        if !ok {
            return Err(crate::error::DriverError::Other);
        }
        BatchBuilder::id(self, id);
        Ok(())
    }
}

/// Whether a batch builder is within wire bounds, checked at run time
/// for callers that hold no proof of it.
fn builder_wf_check(b: &BatchBuilder) -> (r: bool)
    ensures
        r == b.wf(),
{
    if b.entries.len() > 0xffff {
        return false;
    }
    let mut i: usize = 0;
    while i < b.entries.len()
        invariant
            i <= b.entries@.len(),
            b.entries@.len() <= 0xffff,
            forall|k: int| 0 <= k < i ==> (#[trigger] b.entries@[k]).wf(),
        decreases b.entries@.len() - i,
    {
        let e = &b.entries[i];
        match &e.statement {
            BatchStatementRef::Text(t) => {
                if t.len() > 0x7fffffff {
                    proof {
                        assert(!b.entries@[i as int].wf());
                    }
                    return false;
                }
            },
            BatchStatementRef::Prepared(_) => {},
        }
        if e.values.len() > 0xffff {
            proof {
                assert(!b.entries@[i as int].wf());
            }
            return false;
        }
        let mut j: usize = 0;
        while j < e.values.len()
            invariant
                j <= e.values@.len(),
                e.values@.len() <= 0xffff,
                i < b.entries@.len(),
                *e == b.entries@[i as int],
                (match e.statement {
                    BatchStatementRef::Text(t) => t@.len() <= 0x7fffffff,
                    BatchStatementRef::Prepared(_) => true,
                }),
                forall|k: int| 0 <= k < j ==> (#[trigger] e.values@[k]).wf(),
            decreases e.values@.len() - j,
        {
            match &e.values[j] {
                BoundValue::Bytes(bb) => {
                    if bb.len() > 0x7fffffff {
                        proof {
                            assert(!e.values@[j as int].wf());
                            assert(!b.entries@[i as int].wf());
                        }
                        return false;
                    }
                },
                _ => {},
            }
            j = j + 1;
        }
        proof {
            assert(e.wf());
            assert(b.entries@[i as int].wf());
        }
        i = i + 1;
    }
    true
}

} // verus!
