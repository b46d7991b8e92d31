//! The token encoder: Murmur3-x64-128 with seed 0 over the partition key's
//! byte representation, taking the low 64 bits as a signed token, and the
//! composite-key buffer layout with two-byte length prefixes.

use vstd::prelude::*;

verus! {

/// First multiplicative constant of Murmur3-x64-128.
pub const MURMUR_C1: u64 = 0x87c37b91114253d5;

/// Second multiplicative constant of Murmur3-x64-128.
pub const MURMUR_C2: u64 = 0x4cf5ad432745937f;

/// Rotate a 64-bit value left by `r` bits, `0 < r < 64`.
pub open spec fn spec_rotl64(x: u64, r: u64) -> u64 {
    (x << r) | (x >> ((64 - r) as u64))
}

/// Rotate a 64-bit value left by `r` bits.
pub fn rotl64(x: u64, r: u64) -> (res: u64)
    requires
        0 < r < 64,
    ensures
        res == spec_rotl64(x, r),
{
    (x << r) | (x >> (64 - r))
}

/// The little-endian value of `m` bytes of `b` starting at `off`.
pub open spec fn spec_le_bytes(b: Seq<u8>, off: int, m: int) -> u64
    decreases m,
{
    if m <= 0 {
        0u64
    } else {
        spec_le_bytes(b, off, m - 1) | ((b[off + m - 1] as u64) << ((8 * (m - 1)) as u64))
    }
}

/// The mixing applied to the first lane of a block.
pub open spec fn spec_mix_k1(k: u64) -> u64 {
    spec_rotl64(k.wrapping_mul(MURMUR_C1), 31).wrapping_mul(MURMUR_C2)
}

/// The mixing applied to the second lane of a block.
pub open spec fn spec_mix_k2(k: u64) -> u64 {
    spec_rotl64(k.wrapping_mul(MURMUR_C2), 33).wrapping_mul(MURMUR_C1)
}

/// One sixteen-byte round over the running state.
pub open spec fn spec_round(h1: u64, h2: u64, k1: u64, k2: u64) -> (u64, u64) {
    let h1a = h1 ^ spec_mix_k1(k1);
    let h1b = spec_rotl64(h1a, 27).wrapping_add(h2).wrapping_mul(5).wrapping_add(0x52dce729);
    let h2a = h2 ^ spec_mix_k2(k2);
    let h2b = spec_rotl64(h2a, 31).wrapping_add(h1b).wrapping_mul(5).wrapping_add(0x38495ab5);
    (h1b, h2b)
}

/// The state after the first `n` sixteen-byte blocks of `b`.
pub open spec fn spec_body(b: Seq<u8>, n: int) -> (u64, u64)
    decreases n,
{
    if n <= 0 {
        (0u64, 0u64)
    } else {
        let prev = spec_body(b, n - 1);
        spec_round(
            prev.0,
            prev.1,
            spec_le_bytes(b, 16 * (n - 1), 8),
            spec_le_bytes(b, 16 * (n - 1) + 8, 8),
        )
    }
}

/// The final avalanche of Murmur3-x64-128.
pub open spec fn spec_fmix64(k: u64) -> u64 {
    let a = k ^ (k >> 33);
    let b = a.wrapping_mul(0xff51afd7ed558ccd);
    let c = b ^ (b >> 33);
    let d = c.wrapping_mul(0xc4ceb9fe1a85ec53);
    d ^ (d >> 33)
}

/// The full 128-bit Murmur3-x64 hash of `b` with seed 0, as two 64-bit
/// halves.
pub open spec fn spec_murmur3_x64_128(b: Seq<u8>) -> (u64, u64) {
    let len = b.len() as int;
    let nblocks = len / 16;
    let body = spec_body(b, nblocks);
    let t = len % 16;
    let off = nblocks * 16;
    let h2t = if t > 8 {
        body.1 ^ spec_mix_k2(spec_le_bytes(b, off + 8, t - 8))
    } else {
        body.1
    };
    let h1t = if t > 0 {
        body.0 ^ spec_mix_k1(spec_le_bytes(b, off, if t > 8 { 8int } else { t }))
    } else {
        body.0
    };
    let h1a = h1t ^ (b.len() as u64);
    let h2a = h2t ^ (b.len() as u64);
    let h1b = h1a.wrapping_add(h2a);
    let h2b = h2a.wrapping_add(h1b);
    let h1c = spec_fmix64(h1b);
    let h2c = spec_fmix64(h2b);
    let h1d = h1c.wrapping_add(h2c);
    let h2d = h2c.wrapping_add(h1d);
    (h1d, h2d)
}

/// The token of a partition-key byte string: the low 64 bits of its
/// Murmur3-x64-128 hash, interpreted as a signed value.
pub open spec fn spec_token_of(b: Seq<u8>) -> i64 {
    spec_murmur3_x64_128(b).0 as i64
}

/// Read eight little-endian bytes of `b` starting at `off`.
fn read_le_u64(b: &[u8], off: usize) -> (r: u64)
    requires
        off + 8 <= b@.len(),
    ensures
        r == spec_le_bytes(b@, off as int, 8),
{
    let blen = b.len();
    let mut acc: u64 = 0;
    let mut j: usize = 0;
    while j < 8
        invariant
            j <= 8,
            off + 8 <= blen,
            blen == b@.len(),
            acc == spec_le_bytes(b@, off as int, j as int),
        decreases 8 - j,
    {
        acc = acc | ((b[off + j] as u64) << (8 * (j as u64)));
        j = j + 1;
    }
    acc
}

/// Read `m` little-endian bytes of `b` starting at `off`, `m <= 8`.
fn read_le_partial(b: &[u8], off: usize, m: usize) -> (r: u64)
    requires
        off + m <= b@.len(),
        m <= 8,
    ensures
        r == spec_le_bytes(b@, off as int, m as int),
{
    let blen = b.len();
    let mut acc: u64 = 0;
    let mut j: usize = 0;
    while j < m
        invariant
            j <= m,
            m <= 8,
            off + m <= blen,
            blen == b@.len(),
            acc == spec_le_bytes(b@, off as int, j as int),
        decreases m - j,
    {
        acc = acc | ((b[off + j] as u64) << (8 * (j as u64)));
        j = j + 1;
    }
    acc
}

/// Compute the Murmur3-x64-128 hash of `b` with seed 0.
pub fn murmur3_x64_128(b: &[u8]) -> (r: (u64, u64))
    ensures
        r == spec_murmur3_x64_128(b@),
{
    let len = b.len();
    let nblocks = len / 16;
    let mut h1: u64 = 0;
    let mut h2: u64 = 0;
    let mut i: usize = 0;
    while i < nblocks
        invariant
            i <= nblocks,
            nblocks == b@.len() / 16,
            len == b@.len(),
            (h1, h2) == spec_body(b@, i as int),
        decreases nblocks - i,
    {
        proof {
            assert(16 * (i as int) + 16 <= b@.len()) by (nonlinear_arith)
                requires
                    (i as int) < b@.len() / 16,
            ;
            assert(16 * (i as int) + 16 <= len as int);
        }
        let k1 = read_le_u64(b, 16 * i);
        let k2 = read_le_u64(b, 16 * i + 8);
        h1 = h1 ^ rotl64(k1.wrapping_mul(MURMUR_C1), 31).wrapping_mul(MURMUR_C2);
        h1 = rotl64(h1, 27).wrapping_add(h2).wrapping_mul(5).wrapping_add(0x52dce729);
        h2 = h2 ^ rotl64(k2.wrapping_mul(MURMUR_C2), 33).wrapping_mul(MURMUR_C1);
        h2 = rotl64(h2, 31).wrapping_add(h1).wrapping_mul(5).wrapping_add(0x38495ab5);
        i = i + 1;
    }
    let t = len % 16;
    let off = nblocks * 16;
    proof {
        assert(off == 16 * (b@.len() / 16) && off + t == b@.len() && off >= 0) by (nonlinear_arith)
            requires
                off == (b@.len() / 16) * 16,
                t == b@.len() % 16,
                nblocks == b@.len() / 16,
        ;
    }
    if t > 8 {
        let k2 = read_le_partial(b, off + 8, t - 8);
        h2 = h2 ^ rotl64(k2.wrapping_mul(MURMUR_C2), 33).wrapping_mul(MURMUR_C1);
    }
    if t > 0 {
        let m = if t > 8 {
            8
        } else {
            t
        };
        let k1 = read_le_partial(b, off, m);
        h1 = h1 ^ rotl64(k1.wrapping_mul(MURMUR_C1), 31).wrapping_mul(MURMUR_C2);
    }
    h1 = h1 ^ (len as u64);
    h2 = h2 ^ (len as u64);
    h1 = h1.wrapping_add(h2);
    h2 = h2.wrapping_add(h1);
    h1 = {
        let a = h1 ^ (h1 >> 33);
        let bb = a.wrapping_mul(0xff51afd7ed558ccd);
        let c = bb ^ (bb >> 33);
        let d = c.wrapping_mul(0xc4ceb9fe1a85ec53);
        d ^ (d >> 33)
    };
    h2 = {
        let a = h2 ^ (h2 >> 33);
        let bb = a.wrapping_mul(0xff51afd7ed558ccd);
        let c = bb ^ (bb >> 33);
        let d = c.wrapping_mul(0xc4ceb9fe1a85ec53);
        d ^ (d >> 33)
    };
    h1 = h1.wrapping_add(h2);
    h2 = h2.wrapping_add(h1);
    (h1, h2)
}

/// The token of a partition-key byte string.
pub fn token_of(b: &[u8]) -> (r: i64)
    ensures
        r == spec_token_of(b@),
{
    let (h1, _) = murmur3_x64_128(b);
    h1 as i64
}

/// The composite-key buffer of a sequence of component byte strings: each
/// component is prefixed by its two-byte big-endian length and followed by
/// one zero byte.
pub open spec fn spec_composite(parts: Seq<Seq<u8>>) -> Seq<u8>
    decreases parts.len(),
{
    if parts.len() == 0 {
        Seq::<u8>::empty()
    } else {
        let rest = spec_composite(parts.drop_last());
        let last = parts.last();
        rest + seq![
            (((last.len() as u16) >> 8) as u8),
            ((last.len() as u16) as u8),
        ] + last + seq![0u8]
    }
}

/// The byte string that a chain of `n` appended components hashes: the sole
/// component itself when `n == 1`, else the composite buffer.
pub open spec fn spec_chain_bytes(parts: Seq<Seq<u8>>) -> Seq<u8> {
    if parts.len() == 1 {
        parts[0]
    } else {
        spec_composite(parts)
    }
}

/// Accumulates the byte representations of the partition-key components and
/// hashes them into a token.
pub struct TokenEncodeChain {
    pub parts: Vec<Vec<u8>>,
}

impl TokenEncodeChain {
    /// The components appended so far.
    pub open spec fn view(self) -> Seq<Seq<u8>> {
        self.parts@.map_values(|p: Vec<u8>| p@)
    }

    /// A chain is well formed while each component fits its two-byte length
    /// prefix and the component count stays small enough that the composite
    /// buffer length cannot overflow.
    pub open spec fn wf(self) -> bool {
        &&& forall|i: int| 0 <= i < self@.len() ==> (#[trigger] self@[i]).len() <= 0xffff
        &&& self@.len() <= 0x10000
    }

    /// An empty chain.
    pub fn new() -> (r: Self)
        ensures
            r@.len() == 0,
            r.wf(),
    {
        TokenEncodeChain { parts: Vec::new() }
    }

    /// Append one component's bytes to the chain.
    pub fn append(&mut self, bytes: &[u8])
        requires
            old(self).wf(),
            old(self)@.len() < 0x10000,
            bytes@.len() <= 0xffff,
        ensures
            final(self).wf(),
            final(self)@ == old(self)@.push(bytes@),
    {
        let part = vstd::slice::slice_to_vec(bytes);
        self.parts.push(part);
        proof {
            assert(final(self)@ =~= old(self)@.push(bytes@));
        }
    }

    /// The number of components appended so far.
    pub fn len(&self) -> (r: usize)
        ensures
            r == self@.len(),
    {
        self.parts.len()
    }

    /// Hash the chain into a token: a single component is hashed as its own
    /// bytes, several components are hashed as the composite buffer.
    pub fn finish(&self) -> (r: i64)
        requires
            self.wf(),
            self@.len() > 0,
        ensures
            r == spec_token_of(spec_chain_bytes(self@)),
    {
        if self.parts.len() == 1 {
            proof {
                assert(self@[0] == self.parts@[0]@);
            }
            return token_of(self.parts[0].as_slice());
        }
        let mut buf: Vec<u8> = Vec::new();
        let mut i: usize = 0;
        while i < self.parts.len()
            invariant
                i <= self.parts@.len(),
                self.wf(),
                buf@ == spec_composite(self@.take(i as int)),
                buf@.len() <= i * (0xffff + 3),
            decreases self.parts@.len() - i,
        {
            let part = &self.parts[i];
            let plen = part.len() as u16;
            proof {
                assert(self@[i as int] == self.parts@[i as int]@);
                assert(self@[i as int].len() <= 0xffff);
                assert((i + 1) * (0xffff + 3) == i * (0xffff + 3) + (0xffff + 3))
                    by (nonlinear_arith);
            }
            buf.push((plen >> 8) as u8);
            buf.push((plen & 0xff) as u8);
            let mut j: usize = 0;
            let ghost mid = buf@;
            while j < part.len()
                invariant
                    j <= part@.len(),
                    buf@ == mid + part@.subrange(0, j as int),
                decreases part@.len() - j,
            {
                buf.push(part[j]);
                j = j + 1;
                proof {
                    assert(buf@ =~= mid + part@.subrange(0, j as int));
                }
            }
            buf.push(0);
            i = i + 1;
            proof {
                let taken = self@.take(i as int);
                assert(taken.drop_last() =~= self@.take(i as int - 1));
                assert(taken.last() == self@[i as int - 1]);
                assert(part@.subrange(0, part@.len() as int) =~= part@);
                assert((plen & 0xff) as u8 == plen as u8) by (bit_vector);
                assert(buf@ =~= spec_composite(self@.take(i as int)));
            }
        }
        proof {
            assert(self@.take(self@.len() as int) =~= self@);
        }
        token_of(buf.as_slice())
    }
}

/// Token composite hashing: the token of a chain of two or more components
/// is exactly the Murmur3 token of the buffer that lays out each component
/// as `length (2 bytes, big endian) || bytes || 0`.
pub proof fn lemma_composite_token(parts: Seq<Seq<u8>>)
    requires
        parts.len() >= 2,
    ensures
        spec_token_of(spec_chain_bytes(parts)) == spec_token_of(spec_composite(parts)),
{
}

/// Shard derivation is a function of the token, the shard count and the
/// ignore-msb count alone: the biased token is shifted left by `msb`, and
/// the high 64 bits of its 128-bit product with the shard count select the
/// shard.
pub open spec fn spec_shard_of(token: i64, shard_count: u16, msb: u8) -> u64 {
    let biased = (token as u64) ^ 0x8000000000000000u64;
    let shifted = biased << (msb as u64);
    let product = ((shifted as u128) * (shard_count as u128)) as u128;
    (product >> 64u128) as u64
}

/// Derive the shard that owns `token` on a node with `shard_count` shards
/// and `msb` ignored most-significant bits. The result is always a valid
/// shard index below `shard_count`.
pub fn shard_of(token: i64, shard_count: u16, msb: u8) -> (r: u64)
    requires
        shard_count > 0,
        msb < 64,
    ensures
        r == spec_shard_of(token, shard_count, msb),
        r < shard_count,
{
    let biased = #[verifier::truncate] (token as u64) ^ 0x8000000000000000u64;
    let shifted = biased << (msb as u64);
    proof {
        let s = shard_count as int;
        let x = shifted as int;
        assert(x * s < 0x10000000000000000 * s) by (nonlinear_arith)
            requires
                0 <= x < 0x10000000000000000,
                s > 0,
        ;
        assert(x * s >= 0) by (nonlinear_arith)
            requires
                x >= 0,
                s > 0,
        ;
        assert(0x10000000000000000 * s <= 0x10000000000000000 * 0x10000) by (nonlinear_arith)
            requires
                0 < s <= 0x10000,
        ;
    }
    let product = (shifted as u128) * (shard_count as u128);
    let high = product >> 64u128;
    proof {
        let s = shard_count as int;
        let x = shifted as int;
        assert(product == x * s);
        vstd::bits::lemma_u128_shr_is_div(product, 64u128);
        vstd::arithmetic::power2::lemma2_to64();
        assert((x * s) / 0x10000000000000000 < s) by (nonlinear_arith)
            requires
                x * s < 0x10000000000000000 * s,
                s > 0,
        ;
        assert(high == (x * s) / 0x10000000000000000);
    }
    high as u64
}

/// Shard derivation is deterministic: the same token, shard count and msb
/// always select the same shard.
pub proof fn lemma_shard_deterministic(t1: i64, t2: i64, c1: u16, c2: u16, m1: u8, m2: u8)
    requires
        t1 == t2,
        c1 == c2,
        m1 == m2,
    ensures
        spec_shard_of(t1, c1, m1) == spec_shard_of(t2, c2, m2),
{
}

} // verus!
