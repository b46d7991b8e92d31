//! The closed opcode set of CQL native protocol v4.

use vstd::prelude::*;

verus! {

/// A frame opcode. The set is closed: an unknown byte on decode is a
/// protocol violation.
#[derive(Copy, Clone, Debug, PartialEq, Eq, Structural)]
pub enum OpCode {
    Error,
    Startup,
    Ready,
    Authenticate,
    Options,
    Supported,
    Query,
    Result,
    Prepare,
    Execute,
    Register,
    Event,
    Batch,
    AuthChallenge,
    AuthResponse,
    AuthSuccess,
}

impl OpCode {
    /// The wire byte of this opcode.
    pub open spec fn spec_byte(self) -> u8 {
        match self {
            OpCode::Error => 0x00,
            OpCode::Startup => 0x01,
            OpCode::Ready => 0x02,
            OpCode::Authenticate => 0x03,
            OpCode::Options => 0x05,
            OpCode::Supported => 0x06,
            OpCode::Query => 0x07,
            OpCode::Result => 0x08,
            OpCode::Prepare => 0x09,
            OpCode::Execute => 0x0A,
            OpCode::Register => 0x0B,
            OpCode::Event => 0x0C,
            OpCode::Batch => 0x0D,
            OpCode::AuthChallenge => 0x0E,
            OpCode::AuthResponse => 0x0F,
            OpCode::AuthSuccess => 0x10,
        }
    }

    /// The opcode, if any, that a wire byte denotes.
    pub open spec fn spec_from_byte(b: u8) -> Option<OpCode> {
        if b == 0x00 {
            Some(OpCode::Error)
        } else if b == 0x01 {
            Some(OpCode::Startup)
        } else if b == 0x02 {
            Some(OpCode::Ready)
        } else if b == 0x03 {
            Some(OpCode::Authenticate)
        } else if b == 0x05 {
            Some(OpCode::Options)
        } else if b == 0x06 {
            Some(OpCode::Supported)
        } else if b == 0x07 {
            Some(OpCode::Query)
        } else if b == 0x08 {
            Some(OpCode::Result)
        } else if b == 0x09 {
            Some(OpCode::Prepare)
        } else if b == 0x0A {
            Some(OpCode::Execute)
        } else if b == 0x0B {
            Some(OpCode::Register)
        } else if b == 0x0C {
            Some(OpCode::Event)
        } else if b == 0x0D {
            Some(OpCode::Batch)
        } else if b == 0x0E {
            Some(OpCode::AuthChallenge)
        } else if b == 0x0F {
            Some(OpCode::AuthResponse)
        } else if b == 0x10 {
            Some(OpCode::AuthSuccess)
        } else {
            None
        }
    }

    /// Encode this opcode as its wire byte.
    pub fn to_byte(self) -> (r: u8)
        ensures
            r == self.spec_byte(),
    {
        match self {
            OpCode::Error => 0x00,
            OpCode::Startup => 0x01,
            OpCode::Ready => 0x02,
            OpCode::Authenticate => 0x03,
            OpCode::Options => 0x05,
            OpCode::Supported => 0x06,
            OpCode::Query => 0x07,
            OpCode::Result => 0x08,
            OpCode::Prepare => 0x09,
            OpCode::Execute => 0x0A,
            OpCode::Register => 0x0B,
            OpCode::Event => 0x0C,
            OpCode::Batch => 0x0D,
            OpCode::AuthChallenge => 0x0E,
            OpCode::AuthResponse => 0x0F,
            OpCode::AuthSuccess => 0x10,
        }
    }

    /// Decode a wire byte into an opcode; an unknown byte yields `None`.
    pub fn from_byte(b: u8) -> (r: Option<OpCode>)
        ensures
            r == OpCode::spec_from_byte(b),
    {
        if b == 0x00 {
            Some(OpCode::Error)
        } else if b == 0x01 {
            Some(OpCode::Startup)
        } else if b == 0x02 {
            Some(OpCode::Ready)
        } else if b == 0x03 {
            Some(OpCode::Authenticate)
        } else if b == 0x05 {
            Some(OpCode::Options)
        } else if b == 0x06 {
            Some(OpCode::Supported)
        } else if b == 0x07 {
            Some(OpCode::Query)
        } else if b == 0x08 {
            Some(OpCode::Result)
        } else if b == 0x09 {
            Some(OpCode::Prepare)
        } else if b == 0x0A {
            Some(OpCode::Execute)
        } else if b == 0x0B {
            Some(OpCode::Register)
        } else if b == 0x0C {
            Some(OpCode::Event)
        } else if b == 0x0D {
            Some(OpCode::Batch)
        } else if b == 0x0E {
            Some(OpCode::AuthChallenge)
        } else if b == 0x0F {
            Some(OpCode::AuthResponse)
        } else if b == 0x10 {
            Some(OpCode::AuthSuccess)
        } else {
            None
        }
    }
}

/// Decoding the encoded byte of any opcode yields that opcode back.
pub proof fn lemma_opcode_byte_round_trip(op: OpCode)
    ensures
        OpCode::spec_from_byte(op.spec_byte()) == Some(op),
{
}

} // verus!
