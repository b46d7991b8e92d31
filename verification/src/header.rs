//! The nine-byte frame header of CQL native protocol v4: version byte,
//! flags byte, stream id, opcode and body length.

use vstd::prelude::*;
use crate::opcode::OpCode;

verus! {

/// Direction of a frame, carried in the high bit of the version byte.
#[derive(Copy, Clone, Debug, PartialEq, Eq, Structural)]
pub enum Direction {
    Request,
    Response,
}

/// The version byte: the most significant bit is the direction (0 request,
/// 1 response), the low seven bits are the protocol version, 4 here.
#[derive(Copy, Clone, Debug, PartialEq, Eq, Structural)]
pub struct Version(pub u8);

impl Default for Version {
    /// The default version byte is a request frame of protocol version 4.
    fn default() -> (r: Self)
        ensures
            r.0 == 0x04u8,
    {
        Version(0x04)
    }
}

impl Version {
    /// The direction encoded in the high bit.
    pub open spec fn spec_direction(self) -> Direction {
        if self.0 & 0x80 == 0 {
            Direction::Request
        } else {
            Direction::Response
        }
    }

    /// The direction of the frame, either request or response.
    pub fn direction(&self) -> (r: Direction)
        ensures
            r == self.spec_direction(),
    {
        if self.0 & 0x80 == 0 {
            Direction::Request
        } else {
            Direction::Response
        }
    }

    /// The protocol version in the low seven bits.
    pub fn version(&self) -> (r: u8)
        ensures
            r == self.0 & 0x7f,
    {
        self.0 & 0x7f
    }
}

/// The flags byte. Bit 0 is compression, bit 1 tracing, bit 2 custom
/// payload, bit 3 warning; the rest is unused and ignored.
#[derive(Copy, Clone, Debug, PartialEq, Eq, Structural)]
pub struct HeaderFlags(pub u8);

impl Default for HeaderFlags {
    /// The default flags byte has no flag set.
    fn default() -> (r: Self)
        ensures
            r.0 == 0u8,
    {
        HeaderFlags(0)
    }
}

impl HeaderFlags {
    pub open spec fn spec_compression(self) -> bool {
        self.0 & 0x01 != 0
    }

    pub open spec fn spec_tracing(self) -> bool {
        self.0 & 0x02 != 0
    }

    pub open spec fn spec_custom_payload(self) -> bool {
        self.0 & 0x04 != 0
    }

    pub open spec fn spec_warning(self) -> bool {
        self.0 & 0x08 != 0
    }

    /// Whether the frame body is compressed.
    pub fn compression(&self) -> (r: bool)
        ensures
            r == self.spec_compression(),
    {
        self.0 & 0x01 != 0
    }

    /// Set or clear the compression flag, leaving the other flags as they are.
    pub fn set_compression(&mut self, value: bool)
        ensures
            final(self).spec_compression() == value,
            final(self).spec_tracing() == old(self).spec_tracing(),
            final(self).spec_custom_payload() == old(self).spec_custom_payload(),
            final(self).spec_warning() == old(self).spec_warning(),
    {
        let b = self.0;
        if value {
            assert((b | 0x01) & 0x01 != 0 && ((b | 0x01) & 0x02 == b & 0x02) && ((b | 0x01)
                & 0x04 == b & 0x04) && ((b | 0x01) & 0x08 == b & 0x08)) by (bit_vector);
            self.0 = b | 0x01;
        } else {
            assert((b & 0xfe) & 0x01 == 0 && ((b & 0xfe) & 0x02 == b & 0x02) && ((b & 0xfe)
                & 0x04 == b & 0x04) && ((b & 0xfe) & 0x08 == b & 0x08)) by (bit_vector);
            self.0 = b & 0xfe;
        }
    }

    /// Whether the frame requests or carries tracing information.
    pub fn tracing(&self) -> (r: bool)
        ensures
            r == self.spec_tracing(),
    {
        self.0 & 0x02 != 0
    }

    /// Set or clear the tracing flag, leaving the other flags as they are.
    pub fn set_tracing(&mut self, value: bool)
        ensures
            final(self).spec_tracing() == value,
            final(self).spec_compression() == old(self).spec_compression(),
            final(self).spec_custom_payload() == old(self).spec_custom_payload(),
            final(self).spec_warning() == old(self).spec_warning(),
    {
        let b = self.0;
        if value {
            assert((b | 0x02) & 0x02 != 0 && ((b | 0x02) & 0x01 == b & 0x01) && ((b | 0x02)
                & 0x04 == b & 0x04) && ((b | 0x02) & 0x08 == b & 0x08)) by (bit_vector);
            self.0 = b | 0x02;
        } else {
            assert((b & 0xfd) & 0x02 == 0 && ((b & 0xfd) & 0x01 == b & 0x01) && ((b & 0xfd)
                & 0x04 == b & 0x04) && ((b & 0xfd) & 0x08 == b & 0x08)) by (bit_vector);
            self.0 = b & 0xfd;
        }
    }

    /// Whether a custom key-value payload is present in the frame.
    pub fn custom_payload(&self) -> (r: bool)
        ensures
            r == self.spec_custom_payload(),
    {
        self.0 & 0x04 != 0
    }

    /// Set or clear the custom payload flag, leaving the other flags as they
    /// are.
    pub fn set_custom_payload(&mut self, value: bool)
        ensures
            final(self).spec_custom_payload() == value,
            final(self).spec_compression() == old(self).spec_compression(),
            final(self).spec_tracing() == old(self).spec_tracing(),
            final(self).spec_warning() == old(self).spec_warning(),
    {
        let b = self.0;
        if value {
            assert((b | 0x04) & 0x04 != 0 && ((b | 0x04) & 0x01 == b & 0x01) && ((b | 0x04)
                & 0x02 == b & 0x02) && ((b | 0x04) & 0x08 == b & 0x08)) by (bit_vector);
            self.0 = b | 0x04;
        } else {
            assert((b & 0xfb) & 0x04 == 0 && ((b & 0xfb) & 0x01 == b & 0x01) && ((b & 0xfb)
                & 0x02 == b & 0x02) && ((b & 0xfb) & 0x08 == b & 0x08)) by (bit_vector);
            self.0 = b & 0xfb;
        }
    }

    /// Whether the response carries server warnings.
    pub fn warning(&self) -> (r: bool)
        ensures
            r == self.spec_warning(),
    {
        self.0 & 0x08 != 0
    }

    /// Set or clear the warning flag, leaving the other flags as they are.
    pub fn set_warning(&mut self, value: bool)
        ensures
            final(self).spec_warning() == value,
            final(self).spec_compression() == old(self).spec_compression(),
            final(self).spec_tracing() == old(self).spec_tracing(),
            final(self).spec_custom_payload() == old(self).spec_custom_payload(),
    {
        let b = self.0;
        if value {
            assert((b | 0x08) & 0x08 != 0 && ((b | 0x08) & 0x01 == b & 0x01) && ((b | 0x08)
                & 0x02 == b & 0x02) && ((b | 0x08) & 0x04 == b & 0x04)) by (bit_vector);
            self.0 = b | 0x08;
        } else {
            assert((b & 0xf7) & 0x08 == 0 && ((b & 0xf7) & 0x01 == b & 0x01) && ((b & 0xf7)
                & 0x02 == b & 0x02) && ((b & 0xf7) & 0x04 == b & 0x04)) by (bit_vector);
            self.0 = b & 0xf7;
        }
    }
}

/// The full header of a frame: protocol version, flags, stream id, opcode
/// and body length.
#[derive(Copy, Clone, Debug, PartialEq, Eq, Structural)]
pub struct Header {
    pub version: Version,
    pub flags: HeaderFlags,
    pub stream: u16,
    pub opcode: OpCode,
    pub body_len: u32,
}

impl Header {
    pub open spec fn spec_version(self) -> Version {
        self.version
    }

    pub open spec fn spec_flags(self) -> HeaderFlags {
        self.flags
    }

    pub open spec fn spec_stream(self) -> u16 {
        self.stream
    }

    pub open spec fn spec_opcode(self) -> OpCode {
        self.opcode
    }

    pub open spec fn spec_body_len(self) -> u32 {
        self.body_len
    }

    /// The direction of the frame, read from the version byte.
    pub fn direction(&self) -> (r: Direction)
        ensures
            r == self.version.spec_direction(),
    {
        self.version.direction()
    }

    /// The protocol version of the frame.
    pub fn version(&self) -> (r: u8)
        ensures
            r == self.version.0 & 0x7f,
    {
        self.version.version()
    }

    /// The mutable version byte of the frame.
    pub fn version_mut(&mut self) -> (r: &mut Version)
        ensures
            *r == old(self).version,
            *final(self) == (Header { version: *final(r), ..*old(self) }),
    {
        &mut self.version
    }

    /// The flags of the frame.
    pub fn flags(&self) -> (r: &HeaderFlags)
        ensures
            *r == self.flags,
    {
        &self.flags
    }

    /// The mutable flags of the frame.
    pub fn flags_mut(&mut self) -> (r: &mut HeaderFlags)
        ensures
            *r == old(self).flags,
            *final(self) == (Header { flags: *final(r), ..*old(self) }),
    {
        &mut self.flags
    }

    /// The compression flag of the frame.
    pub fn compression(&self) -> (r: bool)
        ensures
            r == self.flags.spec_compression(),
    {
        self.flags.compression()
    }

    /// Set the compression flag of the frame.
    pub fn set_compression(&mut self, value: bool)
        ensures
            final(self).flags.spec_compression() == value,
            final(self).flags.spec_tracing() == old(self).flags.spec_tracing(),
            final(self).flags.spec_custom_payload() == old(self).flags.spec_custom_payload(),
            final(self).flags.spec_warning() == old(self).flags.spec_warning(),
            final(self).version == old(self).version,
            final(self).stream == old(self).stream,
            final(self).opcode == old(self).opcode,
            final(self).body_len == old(self).body_len,
    {
        self.flags.set_compression(value);
    }

    /// The tracing flag of the frame.
    pub fn tracing(&self) -> (r: bool)
        ensures
            r == self.flags.spec_tracing(),
    {
        self.flags.tracing()
    }

    /// Set the tracing flag of the frame.
    pub fn set_tracing(&mut self, value: bool)
        ensures
            final(self).flags.spec_tracing() == value,
            final(self).flags.spec_compression() == old(self).flags.spec_compression(),
            final(self).flags.spec_custom_payload() == old(self).flags.spec_custom_payload(),
            final(self).flags.spec_warning() == old(self).flags.spec_warning(),
            final(self).version == old(self).version,
            final(self).stream == old(self).stream,
            final(self).opcode == old(self).opcode,
            final(self).body_len == old(self).body_len,
    {
        self.flags.set_tracing(value);
    }

    /// The custom payload flag of the frame.
    pub fn custom_payload(&self) -> (r: bool)
        ensures
            r == self.flags.spec_custom_payload(),
    {
        self.flags.custom_payload()
    }

    /// Set the custom payload flag of the frame.
    pub fn set_custom_payload(&mut self, value: bool)
        ensures
            final(self).flags.spec_custom_payload() == value,
            final(self).flags.spec_compression() == old(self).flags.spec_compression(),
            final(self).flags.spec_tracing() == old(self).flags.spec_tracing(),
            final(self).flags.spec_warning() == old(self).flags.spec_warning(),
            final(self).version == old(self).version,
            final(self).stream == old(self).stream,
            final(self).opcode == old(self).opcode,
            final(self).body_len == old(self).body_len,
    {
        self.flags.set_custom_payload(value);
    }

    /// The warning flag of the frame.
    pub fn warning(&self) -> (r: bool)
        ensures
            r == self.flags.spec_warning(),
    {
        self.flags.warning()
    }

    /// Set the warning flag of the frame.
    pub fn set_warning(&mut self, value: bool)
        ensures
            final(self).flags.spec_warning() == value,
            final(self).flags.spec_compression() == old(self).flags.spec_compression(),
            final(self).flags.spec_tracing() == old(self).flags.spec_tracing(),
            final(self).flags.spec_custom_payload() == old(self).flags.spec_custom_payload(),
            final(self).version == old(self).version,
            final(self).stream == old(self).stream,
            final(self).opcode == old(self).opcode,
            final(self).body_len == old(self).body_len,
    {
        self.flags.set_warning(value);
    }

    /// The stream id of the frame; a client sets a non-negative value, and
    /// the response to a request on stream `X` arrives on stream `X`.
    pub fn stream(&self) -> (r: u16)
        ensures
            r == self.stream,
    {
        self.stream
    }

    /// Set the stream id of the frame.
    pub fn set_stream(&mut self, stream: u16)
        ensures
            *final(self) == (Header { stream, ..*old(self) }),
    {
        self.stream = stream;
    }

    /// The opcode that distinguishes the message.
    pub fn opcode(&self) -> (r: OpCode)
        ensures
            r == self.opcode,
    {
        self.opcode
    }

    /// Set the opcode of the frame.
    pub fn set_opcode(&mut self, opcode: OpCode)
        ensures
            *final(self) == (Header { opcode, ..*old(self) }),
    {
        self.opcode = opcode;
    }

    /// The length of the body of the frame.
    pub fn body_len(&self) -> (r: u32)
        ensures
            r == self.body_len,
    {
        self.body_len
    }

    /// Set the length of the body of the frame.
    pub fn set_body_len(&mut self, body_len: u32)
        ensures
            *final(self) == (Header { body_len, ..*old(self) }),
    {
        self.body_len = body_len;
    }

    /// Create a default request header for a frame given an opcode.
    pub fn from_opcode(opcode: OpCode) -> (r: Self)
        ensures
            r.version.0 == 0x04u8,
            r.flags.0 == 0u8,
            r.stream == 0u16,
            r.opcode == opcode,
            r.body_len == 0u32,
    {
        Header {
            version: Version(0x04),
            flags: HeaderFlags(0),
            stream: 0,
            opcode,
            body_len: 0,
        }
    }

    /// The nine wire bytes of this header.
    pub open spec fn spec_bytes(self) -> Seq<u8> {
        seq![
            self.version.0,
            self.flags.0,
            (self.stream >> 8) as u8,
            self.stream as u8,
            self.opcode.spec_byte(),
            (self.body_len >> 24) as u8,
            (self.body_len >> 16) as u8,
            (self.body_len >> 8) as u8,
            self.body_len as u8,
        ]
    }

    /// Encode this header as its nine wire bytes, big-endian.
    pub fn to_bytes(&self) -> (r: Vec<u8>)
        ensures
            r@ == self.spec_bytes(),
            r@.len() == 9,
    {
        let mut out: Vec<u8> = Vec::new();
        out.push(self.version.0);
        out.push(self.flags.0);
        out.push((self.stream >> 8) as u8);
        out.push((self.stream & 0xff) as u8);
        out.push(self.opcode.to_byte());
        out.push((self.body_len >> 24) as u8);
        out.push(((self.body_len >> 16) & 0xff) as u8);
        out.push(((self.body_len >> 8) & 0xff) as u8);
        out.push((self.body_len & 0xff) as u8);
        proof {
            let s = self.stream;
            let b = self.body_len;
            assert((s & 0xff) as u8 == s as u8) by (bit_vector);
            assert(((b >> 16) & 0xff) as u8 == (b >> 16) as u8) by (bit_vector);
            assert(((b >> 8) & 0xff) as u8 == (b >> 8) as u8) by (bit_vector);
            assert((b & 0xff) as u8 == b as u8) by (bit_vector);
            assert(out@ =~= self.spec_bytes());
        }
        out
    }

    /// Decode nine wire bytes into a header. Fails exactly when the slice is
    /// not nine bytes long or the opcode byte is unknown.
    pub fn from_bytes(bytes: &[u8]) -> (r: Result<Self, crate::error::DriverError>)
        ensures
            match r {
                Ok(h) => bytes@.len() == 9 && OpCode::spec_from_byte(bytes@[4]) == Some(h.opcode)
                    && h.spec_bytes() == bytes@,
                Err(e) => e == crate::error::DriverError::Protocol && (bytes@.len() != 9
                    || OpCode::spec_from_byte(bytes@[4]) is None),
            },
    {
        if bytes.len() != 9 {
            return Err(crate::error::DriverError::Protocol);
        }
        let opcode = match OpCode::from_byte(bytes[4]) {
            Some(op) => op,
            None => {
                return Err(crate::error::DriverError::Protocol);
            },
        };
        let stream: u16 = ((bytes[2] as u16) << 8) | (bytes[3] as u16);
        let body_len: u32 = ((bytes[5] as u32) << 24) | ((bytes[6] as u32) << 16) | ((bytes[7]
            as u32) << 8) | (bytes[8] as u32);
        let h = Header {
            version: Version(bytes[0]),
            flags: HeaderFlags(bytes[1]),
            stream,
            opcode,
            body_len,
        };
        proof {
            let b2 = bytes@[2];
            let b3 = bytes@[3];
            let b5 = bytes@[5];
            let b6 = bytes@[6];
            let b7 = bytes@[7];
            let b8 = bytes@[8];
            let s = (((b2 as u16) << 8) | (b3 as u16)) as u16;
            let bl = ((((b5 as u32) << 24) | ((b6 as u32) << 16) | ((b7 as u32) << 8) | (b8
                as u32))) as u32;
            assert((s >> 8) as u8 == b2 && s as u8 == b3) by (bit_vector)
                requires
                    s == (((b2 as u16) << 8) | (b3 as u16)) as u16,
            ;
            assert((bl >> 24) as u8 == b5 && (bl >> 16) as u8 == b6 && (bl >> 8) as u8 == b7
                && bl as u8 == b8) by (bit_vector)
                requires
                    bl == ((((b5 as u32) << 24) | ((b6 as u32) << 16) | ((b7 as u32) << 8) | (b8
                        as u32))) as u32,
            ;
            crate::opcode::lemma_opcode_byte_round_trip(h.opcode);
            assert(h.spec_bytes() =~= bytes@);
        }
        Ok(h)
    }
}

} // verus!
