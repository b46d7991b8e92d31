//! The error taxonomy that the driver surfaces to callers.

use vstd::prelude::*;
use crate::query::{spec_read_u16, spec_read_u32};

verus! {

/// An error propagated to the caller of the driver.
///
/// `Protocol` marks malformed wire content and is never retried. `Io` stands
/// for connection loss. `Cql` carries a server-side error code. `Overloaded`
/// is backpressure from a saturated connection. `Timeout` is an expired
/// per-request deadline. `NoHost` means no live replica. `Cancelled` is a
/// driver shutdown. `Other` covers user-visible decoding failures.
#[derive(Clone, Debug, PartialEq, Eq, Structural)]
pub enum DriverError {
    Protocol,
    Io,
    Cql(u32),
    Overloaded,
    Timeout,
    NoHost,
    Cancelled,
    Other,
}

impl DriverError {
    /// A short human-readable label for the error, usable in logs.
    pub fn label(&self) -> (r: &'static str)
        ensures
            r@.len() > 0,
    {
        proof {
            reveal_strlit("protocol violation");
            reveal_strlit("io error");
            reveal_strlit("cql error");
            reveal_strlit("overloaded");
            reveal_strlit("timeout");
            reveal_strlit("no host available");
            reveal_strlit("cancelled");
            reveal_strlit("other error");
        }
        match self {
            DriverError::Protocol => "protocol violation",
            DriverError::Io => "io error",
            DriverError::Cql(_) => "cql error",
            DriverError::Overloaded => "overloaded",
            DriverError::Timeout => "timeout",
            DriverError::NoHost => "no host available",
            DriverError::Cancelled => "cancelled",
            DriverError::Other => "other error",
        }
    }
}

/// A decoded server-side ERROR body: the error code, the raw message
/// bytes, and, for an unprepared error, the prepared id it names.
#[derive(Clone, Debug)]
pub struct CqlError {
    pub code: u32,
    pub message: Vec<u8>,
    pub unprepared_id: Option<[u8; 16]>,
}

impl CqlError {
    /// The error code of this error.
    pub fn code(&self) -> (r: u32)
        ensures
            r == self.code,
    {
        self.code
    }

    /// Take the prepared id of an unprepared error, leaving none.
    pub fn take_unprepared_id(&mut self) -> (r: Option<[u8; 16]>)
        ensures
            r == old(self).unprepared_id,
            final(self).unprepared_id is None,
            final(self).code == old(self).code,
    {
        self.unprepared_id.take()
    }
}

/// Whether a code belongs to the closed set of recognized server error
/// codes.
pub open spec fn spec_known_error_code(code: u32) -> bool {
    ||| code == 0x0000
    ||| code == 0x000A
    ||| code == 0x0100
    ||| code == 0x1000
    ||| code == 0x1001
    ||| code == 0x1002
    ||| code == 0x1003
    ||| code == 0x1100
    ||| code == 0x1200
    ||| code == 0x1300
    ||| code == 0x1400
    ||| code == 0x1500
    ||| code == 0x2000
    ||| code == 0x2100
    ||| code == 0x2200
    ||| code == 0x2300
    ||| code == 0x2400
    ||| code == 0x2500
}

/// Whether a code belongs to the recognized set.
pub fn is_known_error_code(code: u32) -> (r: bool)
    ensures
        r == spec_known_error_code(code),
{
    code == 0x0000 || code == 0x000A || code == 0x0100 || code == 0x1000 || code == 0x1001
        || code == 0x1002 || code == 0x1003 || code == 0x1100 || code == 0x1200 || code
        == 0x1300 || code == 0x1400 || code == 0x1500 || code == 0x2000 || code == 0x2100
        || code == 0x2200 || code == 0x2300 || code == 0x2400 || code == 0x2500
}

/// Whether an ERROR body is well formed: a known four-byte code, a
/// `[string]` message that lies inside the body, and, for the
/// unprepared code, a sixteen-byte prepared id behind its two-byte
/// length.
pub open spec fn spec_error_body_ok(b: Seq<u8>) -> bool {
    &&& b.len() >= 6
    &&& spec_known_error_code(spec_read_u32(b, 0))
    &&& 6 + spec_read_u16(b, 4) <= b.len()
    &&& (spec_read_u32(b, 0) == 0x2500 ==> ({
        let after = 6 + spec_read_u16(b, 4) as int;
        &&& after + 18 <= b.len()
        &&& b[after] == 0
        &&& b[after + 1] == 16
    }))
}

/// Decode an ERROR body: a four-byte code, a `[string]` message, and,
/// for the unprepared code, the `[short bytes]` prepared id that failed.
/// Succeeds exactly on a well-formed body, yielding exactly the fields
/// the body holds; an unknown code or a short body is a protocol
/// violation.
pub fn parse_error_body(body: &[u8]) -> (r: Result<CqlError, DriverError>)
    ensures
        r is Ok <==> spec_error_body_ok(body@),
        match r {
            Ok(e) => ({
                let msg_end = 6 + spec_read_u16(body@, 4) as int;
                &&& e.code == spec_read_u32(body@, 0)
                &&& e.message@ == body@.subrange(6, msg_end)
                &&& (e.code == 0x2500 ==> (e.unprepared_id matches Some(id) && id@ == body@
                    .subrange(msg_end + 2, msg_end + 18)))
                &&& (e.code != 0x2500 ==> e.unprepared_id is None)
            }),
            Err(err) => err == DriverError::Protocol,
        },
{
    let n = body.len();
    if n < 6 {
        return Err(DriverError::Protocol);
    }
    let code = ((body[0] as u32) << 24) | ((body[1] as u32) << 16) | ((body[2] as u32) << 8)
        | (body[3] as u32);
    if !is_known_error_code(code) {
        return Err(DriverError::Protocol);
    }
    let msg_len = (((body[4] as u16) << 8) | (body[5] as u16)) as usize;
    let msg_start: usize = 6;
    if n - msg_start < msg_len {
        return Err(DriverError::Protocol);
    }
    let message = vstd::slice::slice_to_vec(vstd::slice::slice_subrange(body, msg_start,
        msg_start + msg_len));
    let after_msg = msg_start + msg_len;
    let mut unprepared_id: Option<[u8; 16]> = None;
    if code == 0x2500 {
        // The unprepared payload is a two-byte length of 16, then the id.
        if n - after_msg < 18 {
            return Err(DriverError::Protocol);
        }
        if body[after_msg] != 0 || body[after_msg + 1] != 16 {
            return Err(DriverError::Protocol);
        }
        let mut id = [0u8; 16];
        let mut i: usize = 0;
        while i < 16
            invariant
                i <= 16,
                after_msg + 18 <= n,
                n == body@.len(),
                after_msg == 6 + spec_read_u16(body@, 4),
                forall|k: int| 0 <= k < i ==> id@[k] == body@[after_msg + 2 + k],
            decreases 16 - i,
        {
            id.set(i, body[after_msg + 2 + i]);
            i = i + 1;
        }
        proof {
            assert(id@ =~= body@.subrange(after_msg + 2, after_msg + 18));
        }
        unprepared_id = Some(id);
    }
    Ok(CqlError { code, message, unprepared_id })
}

} // verus!
