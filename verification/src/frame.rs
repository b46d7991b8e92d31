//! Whole-frame encoding and decoding: a nine-byte header followed by the
//! body, with the header's body length equal to the bytes of the body
//! actually sent.

use vstd::prelude::*;
use vstd::slice::{slice_subrange, slice_to_vec};
use crate::error::DriverError;
use crate::header::{Header, HeaderFlags, Version};
use crate::opcode::OpCode;

verus! {

/// A reusable byte buffer for frame bodies.
#[derive(Debug, Clone)]
pub struct Blob(pub Vec<u8>);

impl Blob {
    /// Wrap a byte vector.
    pub fn new(data: Vec<u8>) -> (r: Self)
        ensures
            r.0@ == data@,
    {
        Blob(data)
    }

    /// Unwrap into the underlying byte vector.
    pub fn into_inner(self) -> (r: Vec<u8>)
        ensures
            r@ == self.0@,
    {
        self.0
    }
}

/// A decoded frame: the header fields except the body length, and the body
/// itself. The body length of the wire header is derived from the body.
#[derive(Debug, Clone)]
pub struct Frame {
    pub version: Version,
    pub flags: HeaderFlags,
    pub stream: u16,
    pub opcode: OpCode,
    pub body: Vec<u8>,
}

impl Frame {
    /// A frame is well formed when its body length fits the header's
    /// four-byte length field.
    pub open spec fn wf(self) -> bool {
        self.body@.len() <= u32::MAX
    }

    /// The wire header of this frame.
    pub open spec fn spec_header(self) -> Header {
        Header {
            version: self.version,
            flags: self.flags,
            stream: self.stream,
            opcode: self.opcode,
            body_len: self.body@.len() as u32,
        }
    }

    /// The wire bytes of this frame: nine header bytes, then the body.
    pub open spec fn spec_bytes(self) -> Seq<u8> {
        self.spec_header().spec_bytes() + self.body@
    }

    /// Encode this frame as its wire bytes.
    pub fn encode(&self) -> (r: Vec<u8>)
        requires
            self.wf(),
        ensures
            r@ == self.spec_bytes(),
            r@.len() == 9 + self.body@.len(),
    {
        let header = Header {
            version: self.version,
            flags: self.flags,
            stream: self.stream,
            opcode: self.opcode,
            body_len: self.body.len() as u32,
        };
        let mut out = header.to_bytes();
        let ghost prefix = out@;
        let mut i: usize = 0;
        while i < self.body.len()
            invariant
                i <= self.body@.len(),
                out@ == prefix + self.body@.subrange(0, i as int),
            decreases self.body@.len() - i,
        {
            out.push(self.body[i]);
            i = i + 1;
            proof {
                assert(out@ =~= prefix + self.body@.subrange(0, i as int));
            }
        }
        proof {
            assert(self.body@.subrange(0, self.body@.len() as int) =~= self.body@);
            assert(header == self.spec_header());
        }
        out
    }

    /// Decode wire bytes into a frame. Succeeds exactly on buffers that are
    /// the encoding of some well-formed frame; otherwise the content is
    /// malformed and the error is `Protocol`.
    pub fn decode(bytes: &[u8]) -> (r: Result<Frame, DriverError>)
        ensures
            match r {
                Ok(f) => f.wf() && f.spec_bytes() == bytes@,
                Err(e) => e == DriverError::Protocol && (forall|f: Frame|
                    f.wf() ==> f.spec_bytes() != bytes@),
            },
    {
        if bytes.len() < 9 {
            return Err(DriverError::Protocol);
        }
        let head = slice_subrange(bytes, 0, 9);
        let header = match Header::from_bytes(head) {
            Ok(h) => h,
            Err(_) => {
                proof {
                    assert forall|f: Frame| f.wf() implies f.spec_bytes() != bytes@ by {
                        if f.spec_bytes() == bytes@ {
                            assert(bytes@[4] == f.opcode.spec_byte());
                            crate::opcode::lemma_opcode_byte_round_trip(f.opcode);
                        }
                    }
                }
                return Err(DriverError::Protocol);
            },
        };
        if bytes.len() - 9 != header.body_len() as usize {
            proof {
                assert forall|f: Frame| f.wf() implies f.spec_bytes() != bytes@ by {
                    if f.spec_bytes() == bytes@ {
                        let fl = f.body@.len() as u32;
                        let hl = header.body_len;
                        assert(bytes@[5] == (fl >> 24) as u8 && bytes@[6] == (fl >> 16) as u8
                            && bytes@[7] == (fl >> 8) as u8 && bytes@[8] == fl as u8);
                        assert(header.spec_bytes() == bytes@.subrange(0, 9));
                        assert(bytes@[5] == (hl >> 24) as u8 && bytes@[6] == (hl >> 16) as u8
                            && bytes@[7] == (hl >> 8) as u8 && bytes@[8] == hl as u8);
                        assert(((fl >> 24) as u8 == (hl >> 24) as u8 && (fl >> 16) as u8 == (hl
                            >> 16) as u8 && (fl >> 8) as u8 == (hl >> 8) as u8 && fl as u8 == hl
                            as u8) ==> fl == hl) by (bit_vector);
                        assert(bytes@.len() == 9 + f.body@.len());
                    }
                }
            }
            return Err(DriverError::Protocol);
        }
        let body = slice_to_vec(slice_subrange(bytes, 9, bytes.len()));
        let f = Frame {
            version: header.version,
            flags: header.flags,
            stream: header.stream,
            opcode: header.opcode,
            body,
        };
        proof {
            assert(f.spec_header() == header);
            assert(f.spec_bytes() =~= bytes@);
        }
        Ok(f)
    }
}

/// Round trip: any two well-formed frames with the same wire bytes agree on
/// every field. Together with the contracts of `encode` and `decode`, this
/// says that decoding the encoding of a well-formed frame yields exactly
/// that frame.
pub proof fn lemma_frame_round_trip(f: Frame)
    requires
        f.wf(),
    ensures
        forall|g: Frame|
            g.spec_bytes() == f.spec_bytes() ==> g.version == f.version && g.flags == f.flags
                && g.stream == f.stream && g.opcode == f.opcode && g.body@ =~= f.body@,
{
    assert forall|g: Frame| g.spec_bytes() == f.spec_bytes() implies g.version == f.version
        && g.flags == f.flags && g.stream == f.stream && g.opcode == f.opcode && g.body@
        =~= f.body@ by {
        let fb = f.spec_bytes();
        let gb = g.spec_bytes();
        assert(gb[0] == g.version.0 && fb[0] == f.version.0);
        assert(gb[1] == g.flags.0 && fb[1] == f.flags.0);
        assert(gb[4] == g.opcode.spec_byte() && fb[4] == f.opcode.spec_byte());
        crate::opcode::lemma_opcode_byte_round_trip(f.opcode);
        crate::opcode::lemma_opcode_byte_round_trip(g.opcode);
        let fs = f.stream;
        let gs = g.stream;
        assert(gb[2] == (gs >> 8) as u8 && gb[3] == gs as u8);
        assert(fb[2] == (fs >> 8) as u8 && fb[3] == fs as u8);
        assert(((gs >> 8) as u8 == (fs >> 8) as u8 && gs as u8 == fs as u8) ==> gs == fs)
            by (bit_vector);
        assert(gb.len() == fb.len());
        assert(g.body@.len() == f.body@.len());
        assert forall|i: int| 0 <= i < f.body@.len() implies g.body@[i] == f.body@[i] by {
            assert(gb[9 + i] == g.body@[i] && fb[9 + i] == f.body@[i]);
        }
    }
}

/// Builds a full frame buffer from the first five header bytes and a body:
/// the four-byte big-endian body length is inserted between them.
pub struct FrameBuilder;

impl FrameBuilder {
    /// Assemble `header (5 bytes) + body_len (4 bytes BE) + body`.
    pub fn build(header: [u8; 5], body: Vec<u8>) -> (r: Vec<u8>)
        requires
            body@.len() <= u32::MAX,
        ensures
            r@.len() == 9 + body@.len(),
            r@.subrange(0, 5) =~= header@,
            r@[5] == ((body@.len() as u32) >> 24) as u8,
            r@[6] == ((body@.len() as u32) >> 16) as u8,
            r@[7] == ((body@.len() as u32) >> 8) as u8,
            r@[8] == (body@.len() as u32) as u8,
            r@.subrange(9, r@.len() as int) =~= body@,
    {
        let len = body.len() as u32;
        let mut out: Vec<u8> = Vec::new();
        out.push(header[0]);
        out.push(header[1]);
        out.push(header[2]);
        out.push(header[3]);
        out.push(header[4]);
        out.push((len >> 24) as u8);
        out.push(((len >> 16) & 0xff) as u8);
        out.push(((len >> 8) & 0xff) as u8);
        out.push((len & 0xff) as u8);
        proof {
            assert(((len >> 16) & 0xff) as u8 == (len >> 16) as u8 && ((len >> 8) & 0xff) as u8
                == (len >> 8) as u8 && (len & 0xff) as u8 == len as u8) by (bit_vector);
        }
        let ghost prefix = out@;
        let mut i: usize = 0;
        while i < body.len()
            invariant
                i <= body@.len(),
                out@ == prefix + body@.subrange(0, i as int),
            decreases body@.len() - i,
        {
            out.push(body[i]);
            i = i + 1;
            proof {
                assert(out@ =~= prefix + body@.subrange(0, i as int));
            }
        }
        proof {
            assert(body@.subrange(0, body@.len() as int) =~= body@);
            assert(out@.subrange(0, 5) =~= header@);
            assert(out@.subrange(9, out@.len() as int) =~= body@);
        }
        out
    }
}

} // verus!
