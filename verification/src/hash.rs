//! Message expansion and hashing to extension-field elements.
//!
//! `expand_message_xmd` turns a message and a domain-separation tag of at
//! most 255 bytes into 256 uniform bytes by iterated SHA-256;
//! `hash_to_field_fq2` slices those bytes into two extension-field
//! elements, reading each 64-byte half as a pair of big-endian integers.

use vstd::prelude::*;

use crate::field::{fq2v, fq_modulus, Fq, Fq2, Fq2V};
use crate::arith::{fq_add, fq_mul};
use crate::ops::{sha256, sha256_of};
use crate::HashToCurveError;

verus! {

/// 256 to the power `n`.
pub open spec fn pow256(n: nat) -> int
    decreases n,
{
    if n == 0 {
        1
    } else {
        256 * pow256((n - 1) as nat)
    }
}

/// The big-endian integer value of a byte string.
pub open spec fn be_val(s: Seq<u8>) -> int
    decreases s.len(),
{
    if s.len() == 0 {
        0
    } else {
        be_val(s.drop_last()) * 256 + s.last()
    }
}

/// A byte string's value is nonnegative and below 256 to its length.
pub proof fn lemma_be_val_bounds(s: Seq<u8>)
    ensures
        0 <= be_val(s),
        be_val(s) < pow256(s.len()),
    decreases s.len(),
{
    if s.len() > 0 {
        lemma_be_val_bounds(s.drop_last());
    }
}

/// Concatenation splits the value: the left part is shifted by the
/// length of the right part.
pub proof fn lemma_be_val_concat(a: Seq<u8>, b: Seq<u8>)
    ensures
        be_val(a + b) == be_val(a) * pow256(b.len()) + be_val(b),
    decreases b.len(),
{
    if b.len() == 0 {
        assert(a + b =~= a);
    } else {
        lemma_be_val_concat(a, b.drop_last());
        assert((a + b).drop_last() =~= a + b.drop_last());
        assert((a + b).last() == b.last());
        assert(be_val(a + b) == (be_val(a) * pow256((b.len() - 1) as nat) + be_val(b.drop_last()))
            * 256 + b.last());
        assert((be_val(a) * pow256((b.len() - 1) as nat)) * 256 == be_val(a) * (pow256(
            (b.len() - 1) as nat,
        ) * 256)) by (nonlinear_arith);
        assert((be_val(a) * pow256((b.len() - 1) as nat) + be_val(b.drop_last())) * 256 == (be_val(
            a,
        ) * pow256((b.len() - 1) as nat)) * 256 + be_val(b.drop_last()) * 256) by (nonlinear_arith);
        assert(pow256((b.len() - 1) as nat) * 256 == pow256(b.len()));
    }
}

/// The tag with its length appended as one byte.
pub open spec fn dst_prime_spec(dst: Seq<u8>) -> Seq<u8>
    recommends
        dst.len() <= 255,
{
    dst + seq![dst.len() as u8]
}

/// 64 zero bytes: the input-block padding of SHA-256.
pub open spec fn z_pad_spec() -> Seq<u8> {
    Seq::new(64, |i: int| 0u8)
}

/// Bytewise xor of two 32-byte blocks.
pub open spec fn xor32(a: Seq<u8>, b: Seq<u8>) -> Seq<u8>
    recommends
        a.len() == 32,
        b.len() == 32,
{
    Seq::new(32, |i: int| a[i] ^ b[i])
}

/// Block `i` of the expansion. Block 0 seeds the others and is not part
/// of the output; blocks 1 through 8 are concatenated to form it.
pub open spec fn expand_block(msg: Seq<u8>, dst: Seq<u8>, i: nat) -> Seq<u8>
    decreases i,
{
    if i == 0 {
        sha256_of(z_pad_spec() + msg + seq![1u8, 0u8] + seq![0u8] + dst_prime_spec(dst))
    } else if i == 1 {
        sha256_of(expand_block(msg, dst, 0) + seq![1u8] + dst_prime_spec(dst))
    } else {
        sha256_of(
            xor32(expand_block(msg, dst, 0), expand_block(msg, dst, (i - 1) as nat)) + seq![
                i as u8,
            ] + dst_prime_spec(dst),
        )
    }
}

/// Blocks 1 through `k`, concatenated.
pub open spec fn expand_upto(msg: Seq<u8>, dst: Seq<u8>, k: nat) -> Seq<u8>
    decreases k,
{
    if k == 0 {
        Seq::<u8>::empty()
    } else {
        expand_upto(msg, dst, (k - 1) as nat) + expand_block(msg, dst, k)
    }
}

/// The full 256-byte expansion: blocks 1 through 8.
pub open spec fn expand_spec(msg: Seq<u8>, dst: Seq<u8>) -> Seq<u8> {
    expand_upto(msg, dst, 8)
}

/// Expand a message and a domain-separation tag into 256 uniform bytes
/// by iterated SHA-256. A tag longer than 255 bytes is rejected before
/// any hashing; every accepted input yields exactly 256 bytes.
pub fn expand_message_xmd(msg: &[u8], dst: &[u8]) -> (r: Result<Vec<u8>, HashToCurveError>)
    ensures
        match r {
            Ok(b) => {
                &&& dst@.len() <= 255
                &&& b@ == expand_spec(msg@, dst@)
                &&& b@.len() == 256
            },
            Err(e) => {
                &&& e == HashToCurveError::DstTooLong
                &&& dst@.len() > 255
            },
        },
{
    if dst.len() > 255 {
        return Err(HashToCurveError::DstTooLong);
    }
    // DST' = DST || I2OSP(len(DST), 1)
    let mut dst_prime: Vec<u8> = Vec::new();
    dst_prime.extend_from_slice(dst);
    dst_prime.push(dst.len() as u8);
    proof {
        assert(dst_prime@ =~= dst_prime_spec(dst@));
    }
    // b_0 = H(Z_pad || msg || I2OSP(256, 2) || I2OSP(0, 1) || DST')
    let mut m0: Vec<u8> = Vec::new();
    let zeros: Vec<u8> = vec![0u8; 64];
    proof {
        assert(zeros@ =~= z_pad_spec());
    }
    m0.extend_from_slice(zeros.as_slice());
    m0.extend_from_slice(msg);
    m0.push(1u8);
    m0.push(0u8);
    m0.push(0u8);
    m0.extend_from_slice(dst_prime.as_slice());
    proof {
        assert(m0@ =~= z_pad_spec() + msg@ + seq![1u8, 0u8] + seq![0u8] + dst_prime_spec(dst@));
    }
    let b0 = sha256(m0.as_slice());
    // b_1 = H(b_0 || I2OSP(1, 1) || DST')
    let mut m1: Vec<u8> = Vec::new();
    m1.extend_from_slice(b0.as_slice());
    m1.push(1u8);
    m1.extend_from_slice(dst_prime.as_slice());
    proof {
        assert(m1@ =~= expand_block(msg@, dst@, 0) + seq![1u8] + dst_prime_spec(dst@));
    }
    let mut cur = sha256(m1.as_slice());
    let mut out: Vec<u8> = Vec::new();
    out.extend_from_slice(cur.as_slice());
    proof {
        assert(expand_upto(msg@, dst@, 0) == Seq::<u8>::empty());
        assert(cur@ == expand_block(msg@, dst@, 1));
        assert(out@ =~= expand_upto(msg@, dst@, 1));
    }
    // b_i = H(strxor(b_0, b_{i-1}) || I2OSP(i, 1) || DST')
    let mut i: usize = 2;
    while i <= 8
        invariant
            2 <= i <= 9,
            b0@ == expand_block(msg@, dst@, 0),
            b0@.len() == 32,
            cur@ == expand_block(msg@, dst@, (i - 1) as nat),
            cur@.len() == 32,
            out@ == expand_upto(msg@, dst@, (i - 1) as nat),
            out@.len() == 32 * (i - 1),
            dst@.len() <= 255,
            dst_prime@ == dst_prime_spec(dst@),
        decreases 9 - i,
    {
        let mut xorv: Vec<u8> = Vec::new();
        let mut j: usize = 0;
        while j < 32
            invariant
                0 <= j <= 32,
                b0@.len() == 32,
                cur@.len() == 32,
                xorv@ == Seq::new(j as nat, |k: int| b0@[k] ^ cur@[k]),
            decreases 32 - j,
        {
            let x = b0[j] ^ cur[j];
            xorv.push(x);
            proof {
                assert(xorv@ =~= Seq::new((j + 1) as nat, |k: int| b0@[k] ^ cur@[k]));
            }
            j = j + 1;
        }
        proof {
            assert(xorv@ =~= xor32(b0@, cur@));
        }
        let mut m: Vec<u8> = Vec::new();
        m.extend_from_slice(xorv.as_slice());
        m.push(i as u8);
        m.extend_from_slice(dst_prime.as_slice());
        proof {
            assert(m@ =~= xor32(
                expand_block(msg@, dst@, 0),
                expand_block(msg@, dst@, (i - 1) as nat),
            ) + seq![i as u8] + dst_prime_spec(dst@));
        }
        cur = sha256(m.as_slice());
        out.extend_from_slice(cur.as_slice());
        i = i + 1;
    }
    Ok(out)
}

/// 2^256, the shift between the two 32-byte halves of a coordinate.
pub open spec fn two_pow_256() -> int {
    0x10000000000000000000000000000000000000000000000000000000000000000int
}

/// The base-field element read from two 32-byte big-endian chunks:
/// `left * 2^256 + right`, reduced.
pub open spec fn fq_from_chunks_v(left: Seq<u8>, right: Seq<u8>) -> int {
    (be_val(left) * two_pow_256() + be_val(right)) % fq_modulus()
}

/// Read eight big-endian bytes as a 64-bit integer.
pub fn u64_from_be(chunk: &[u8], off: usize) -> (r: u64)
    requires
        off + 8 <= chunk@.len(),
    ensures
        r == be_val(chunk@.subrange(off as int, off + 8)),
{
    let ghost s = chunk@.subrange(off as int, off + 8);
    let n = chunk.len();
    proof {
        lemma_be_val_bounds(s);
        lemma_pow256_8();
    }
    let mut x: u64 = 0;
    let mut j: usize = 0;
    while j < 8
        invariant
            0 <= j <= 8,
            off + 8 <= chunk@.len(),
            n == chunk@.len(),
            s == chunk@.subrange(off as int, off + 8),
            x == be_val(s.take(j as int)),
            0 <= x < pow256(j as nat),
            pow256(8) == 0x10000000000000000int,
        decreases 8 - j,
    {
        proof {
            assert(s.take(j + 1).drop_last() =~= s.take(j as int));
            assert(s.take(j + 1).last() == chunk@[off + j]);
            lemma_be_val_bounds(s.take(j + 1));
            assert(pow256((j + 1) as nat) == 256 * pow256(j as nat));
            assert(pow256(j as nat) * 256 <= pow256(8)) by {
                lemma_pow256_le(( j + 1) as nat, 8);
            }
        }
        x = x * 256 + (chunk[off + j] as u64);
        j = j + 1;
    }
    proof {
        assert(s.take(8) =~= s);
    }
    x
}

/// The eighth power of 256, written out.
pub proof fn lemma_pow256_8()
    ensures
        pow256(8) == 0x10000000000000000int,
{
    reveal_with_fuel(pow256, 9);
}

/// 256^a divides 256^b when `a <= b`; stated as an inequality on the
/// positive powers.
pub proof fn lemma_pow256_le(a: nat, b: nat)
    requires
        a <= b,
    ensures
        pow256(a) <= pow256(b),
        0 < pow256(a),
    decreases b,
{
    if a < b {
        lemma_pow256_le(a, (b - 1) as nat);
        assert(pow256(b) == 256 * pow256((b - 1) as nat));
    } else if b == 0 {
    } else {
        lemma_pow256_le((a - 1) as nat, (b - 1) as nat);
    }
}

/// Interpret two 32-byte chunks as big-endian integers and return
/// `left * 2^256 + right` as a base-field element.
pub fn fq_from_bytes(left_bytes: &[u8], right_bytes: &[u8]) -> (r: Fq)
    requires
        left_bytes@.len() == 32,
        right_bytes@.len() == 32,
    ensures
        r.wf(),
        r@ == fq_from_chunks_v(left_bytes@, right_bytes@),
{
    let left_fq = le_u64s_from_be_bytes(left_bytes);
    let right_fq = le_u64s_from_be_bytes(right_bytes);
    // 2^256 as a base-field element.
    let two_to_256_fq = Fq { limbs: [0, 0, 0, 0, 1, 0] };
    assert(two_to_256_fq@ == two_pow_256());
    let shifted = fq_mul(&left_fq, &two_to_256_fq);
    let r = fq_add(&shifted, &right_fq);
    proof {
        lemma_be_val_bounds(left_bytes@);
        lemma_be_val_bounds(right_bytes@);
        let p = fq_modulus();
        let lv = be_val(left_bytes@);
        let rv = be_val(right_bytes@);
        assert(shifted@ == (lv * two_pow_256()) % p);
        vstd::arithmetic::div_mod::lemma_add_mod_noop(lv * two_pow_256(), rv, p);
        assert(rv % p == rv);
        assert(r@ == ((lv * two_pow_256()) % p + rv) % p);
        assert(((lv * two_pow_256()) % p + rv % p) % p == (lv * two_pow_256() + rv) % p);
    }
    r
}

/// Read 32 big-endian bytes into a base-field element (the value is
/// below 2^256, hence canonical).
fn le_u64s_from_be_bytes(bytes: &[u8]) -> (r: Fq)
    requires
        bytes@.len() == 32,
    ensures
        r.wf(),
        r@ == be_val(bytes@),
{
    let l3 = u64_from_be(bytes, 0);
    let l2 = u64_from_be(bytes, 8);
    let l1 = u64_from_be(bytes, 16);
    let l0 = u64_from_be(bytes, 24);
    let r = Fq { limbs: [l0, l1, l2, l3, 0, 0] };
    proof {
        let s = bytes@;
        let c3 = s.subrange(0, 8);
        let c2 = s.subrange(8, 16);
        let c1 = s.subrange(16, 24);
        let c0 = s.subrange(24, 32);
        assert(s =~= c3 + c2 + c1 + c0);
        lemma_be_val_concat(c3 + c2 + c1, c0);
        lemma_be_val_concat(c3 + c2, c1);
        lemma_be_val_concat(c3, c2);
        lemma_pow256_8();
        lemma_be_val_bounds(c0);
        lemma_be_val_bounds(c1);
        lemma_be_val_bounds(c2);
        lemma_be_val_bounds(c3);
        assert(be_val(c3 + c2) == be_val(c3) * 0x10000000000000000int + be_val(c2));
        assert(be_val((c3 + c2) + c1) == be_val(c3 + c2) * 0x10000000000000000int + be_val(c1));
        assert(be_val(((c3 + c2) + c1) + c0) == be_val((c3 + c2) + c1) * 0x10000000000000000int
            + be_val(c0));
        assert(r@ == be_val(s)) by (nonlinear_arith)
            requires
                r@ == l0 + l1 * 0x10000000000000000int + l2
                    * 0x100000000000000000000000000000000int + l3
                    * 0x1000000000000000000000000000000000000000000000000int,
                l0 == be_val(c0),
                l1 == be_val(c1),
                l2 == be_val(c2),
                l3 == be_val(c3),
                be_val(c3 + c2) == be_val(c3) * 0x10000000000000000int + be_val(c2),
                be_val((c3 + c2) + c1) == be_val(c3 + c2) * 0x10000000000000000int + be_val(c1),
                be_val(s) == be_val((c3 + c2) + c1) * 0x10000000000000000int + be_val(c0),
        ;
    }
    r
}

/// The first extension-field element of the hash: chunks 0 and 1 give
/// its first coordinate, chunks 2 and 3 the second.
pub open spec fn u0_spec(e: Seq<u8>) -> Fq2V {
    fq2v(
        fq_from_chunks_v(e.subrange(0, 32), e.subrange(32, 64)),
        fq_from_chunks_v(e.subrange(64, 96), e.subrange(96, 128)),
    )
}

/// The second extension-field element of the hash: chunks 4 and 5 give
/// its first coordinate, chunks 6 and 7 the second.
pub open spec fn u1_spec(e: Seq<u8>) -> Fq2V {
    fq2v(
        fq_from_chunks_v(e.subrange(128, 160), e.subrange(160, 192)),
        fq_from_chunks_v(e.subrange(192, 224), e.subrange(224, 256)),
    )
}

/// Hash a message and a domain-separation tag to two extension-field
/// elements, by slicing the 256-byte expansion into eight 32-byte
/// chunks. Fails exactly when the tag is longer than 255 bytes.
pub fn hash_to_field_fq2(msg: &[u8], dst: &[u8]) -> (r: Result<(Fq2, Fq2), HashToCurveError>)
    ensures
        match r {
            Ok((u0, u1)) => {
                &&& dst@.len() <= 255
                &&& u0.wf() && u1.wf()
                &&& u0@ == u0_spec(expand_spec(msg@, dst@))
                &&& u1@ == u1_spec(expand_spec(msg@, dst@))
            },
            Err(e) => {
                &&& e == HashToCurveError::DstTooLong
                &&& dst@.len() > 255
            },
        },
{
    let b = match expand_message_xmd(msg, dst) {
        Ok(b) => b,
        Err(e) => {
            return Err(e);
        },
    };
    let c0 = chunk32(&b, 0);
    let c1 = chunk32(&b, 1);
    let c2 = chunk32(&b, 2);
    let c3 = chunk32(&b, 3);
    let c4 = chunk32(&b, 4);
    let c5 = chunk32(&b, 5);
    let c6 = chunk32(&b, 6);
    let c7 = chunk32(&b, 7);
    let u0 = Fq2 {
        c0: fq_from_bytes(c0.as_slice(), c1.as_slice()),
        c1: fq_from_bytes(c2.as_slice(), c3.as_slice()),
    };
    let u1 = Fq2 {
        c0: fq_from_bytes(c4.as_slice(), c5.as_slice()),
        c1: fq_from_bytes(c6.as_slice(), c7.as_slice()),
    };
    Ok((u0, u1))
}

/// Copy 32-byte chunk `k` out of the expansion.
fn chunk32(b: &Vec<u8>, k: usize) -> (r: Vec<u8>)
    requires
        k < 8,
        b@.len() == 256,
    ensures
        r@ == b@.subrange(32 * k as int, 32 * k as int + 32),
{
    let mut r: Vec<u8> = Vec::new();
    let mut j: usize = 0;
    while j < 32
        invariant
            0 <= j <= 32,
            k < 8,
            b@.len() == 256,
            r@ == b@.subrange(32 * k as int, 32 * k as int + j),
        decreases 32 - j,
    {
        r.push(b[32 * k + j]);
        proof {
            assert(r@ =~= b@.subrange(32 * k as int, 32 * k as int + j + 1));
        }
        j = j + 1;
    }
    r
}

} // verus!
