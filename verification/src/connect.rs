//! The bodies a connection sends while it negotiates: OPTIONS is empty,
//! STARTUP carries a string map with the CQL version and an optional
//! compression, and AUTH_RESPONSE carries the plaintext token
//! `0 user 0 password` as `[bytes]`.

use vstd::prelude::*;
use vstd::utf8::encode_utf8;
use crate::query::{push_be16, push_be32, push_bytes, spec_be16, spec_be32};

verus! {

/// The wire form of one `[string]`: a two-byte length and the UTF-8
/// bytes.
pub open spec fn spec_string_bytes(s: Seq<char>) -> Seq<u8> {
    spec_be16(encode_utf8(s).len() as u16) + encode_utf8(s)
}

/// Append one `[string]`.
fn push_string(out: &mut Vec<u8>, s: &str)
    requires
        encode_utf8(s@).len() <= 0xffff,
    ensures
        final(out)@ == old(out)@ + spec_string_bytes(s@),
{
    let bytes = s.as_bytes();
    push_be16(out, bytes.len() as u16);
    push_bytes(out, bytes);
}

/// The OPTIONS body: empty.
pub fn options_body() -> (r: Vec<u8>)
    ensures
        r@.len() == 0,
{
    Vec::new()
}

/// The STARTUP body: a string map holding `CQL_VERSION = 3.0.0` and,
/// when compression is chosen, `COMPRESSION` with its name.
pub fn startup_body(compression: Option<&str>) -> (r: Vec<u8>)
    requires
        match compression {
            Some(c) => encode_utf8(c@).len() <= 0xffff,
            None => true,
        },
    ensures
        r@ == spec_be16(match compression {
            Some(_) => 2u16,
            None => 1u16,
        }) + spec_string_bytes("CQL_VERSION"@) + spec_string_bytes("3.0.0"@) + (
        match compression {
            Some(c) => spec_string_bytes("COMPRESSION"@) + spec_string_bytes(c@),
            None => Seq::<u8>::empty(),
        }),
{
    broadcast use vstd::seq::Seq::add_empty_right;

    proof {
        reveal_strlit("CQL_VERSION");
        reveal_strlit("3.0.0");
        reveal_strlit("COMPRESSION");
        assert(vstd::utf8::is_ascii_chars("CQL_VERSION"@));
        assert(vstd::utf8::is_ascii_chars("3.0.0"@));
        assert(vstd::utf8::is_ascii_chars("COMPRESSION"@));
        vstd::utf8::is_ascii_chars_encode_utf8("CQL_VERSION"@);
        vstd::utf8::is_ascii_chars_encode_utf8("3.0.0"@);
        vstd::utf8::is_ascii_chars_encode_utf8("COMPRESSION"@);
    }
    let mut out: Vec<u8> = Vec::new();
    let entries: u16 = match compression {
        Some(_) => 2,
        None => 1,
    };
    push_be16(&mut out, entries);
    push_string(&mut out, "CQL_VERSION");
    push_string(&mut out, "3.0.0");
    match compression {
        Some(c) => {
            push_string(&mut out, "COMPRESSION");
            push_string(&mut out, c);
        },
        None => {},
    }
    out
}

/// The AUTH_RESPONSE body for plaintext authentication: the token
/// `0 user 0 password` over the UTF-8 bytes of the credentials, framed
/// as `[bytes]` with its four-byte length.
pub fn auth_response_plain(user: &str, password: &str) -> (r: Vec<u8>)
    requires
        encode_utf8(user@).len() + encode_utf8(password@).len() + 2 <= 0x7fffffff,
    ensures
        r@ == spec_be32((encode_utf8(user@).len() + encode_utf8(password@).len() + 2)
            as u32) + seq![0u8] + encode_utf8(user@) + seq![0u8] + encode_utf8(password@),
{
    let user_bytes = user.as_bytes();
    let pass_bytes = password.as_bytes();
    let mut out: Vec<u8> = Vec::new();
    let token_len = user_bytes.len() + pass_bytes.len() + 2;
    push_be32(&mut out, token_len as u32);
    crate::query::push_u8(&mut out, 0);
    push_bytes(&mut out, user_bytes);
    crate::query::push_u8(&mut out, 0);
    push_bytes(&mut out, pass_bytes);
    out
}

} // verus!
