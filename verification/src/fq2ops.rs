//! Verified arithmetic on the quadratic extension field, built on the
//! base-field limb arithmetic: ring operations, binary exponentiation,
//! and inversion and square roots whose results are checked by a
//! verified multiplication before they are returned.

use vstd::prelude::*;

use crate::arith::{fq_add, fq_mul, fq_sub};
use crate::field::{
    fq2_add_v, fq2_mul_v, fq2_neg_v, fq2_sub_v, fq2v, fq_modulus, lemma_limbs_unique, Fq, Fq2,
    Fq2V,
};

verus! {

/// Componentwise addition.
pub fn fq2_add(a: &Fq2, b: &Fq2) -> (r: Fq2)
    requires
        a.wf(),
        b.wf(),
    ensures
        r.wf(),
        r@ == fq2_add_v(a@, b@),
{
    Fq2 { c0: fq_add(&a.c0, &b.c0), c1: fq_add(&a.c1, &b.c1) }
}

/// Componentwise subtraction.
pub fn fq2_sub(a: &Fq2, b: &Fq2) -> (r: Fq2)
    requires
        a.wf(),
        b.wf(),
    ensures
        r.wf(),
        r@ == fq2_sub_v(a@, b@),
{
    Fq2 { c0: fq_sub(&a.c0, &b.c0), c1: fq_sub(&a.c1, &b.c1) }
}

/// Componentwise negation.
pub fn fq2_negate(a: &Fq2) -> (r: Fq2)
    requires
        a.wf(),
    ensures
        r.wf(),
        r@ == fq2_neg_v(a@),
{
    let zero = Fq::zero();
    let r = Fq2 { c0: fq_sub(&zero, &a.c0), c1: fq_sub(&zero, &a.c1) };
    proof {
        vstd::arithmetic::div_mod::lemma_mod_multiples_vanish(1, 0 - a@.c0, fq_modulus());
        vstd::arithmetic::div_mod::lemma_mod_multiples_vanish(1, 0 - a@.c1, fq_modulus());
    }
    r
}

/// Multiplication in `Fq[i] / (i*i + 1)`:
/// `(a0 b0 - a1 b1) + (a0 b1 + a1 b0) i`, each product reduced.
pub fn fq2_mul(a: &Fq2, b: &Fq2) -> (r: Fq2)
    requires
        a.wf(),
        b.wf(),
    ensures
        r.wf(),
        r@ == fq2_mul_v(a@, b@),
{
    let t00 = fq_mul(&a.c0, &b.c0);
    let t11 = fq_mul(&a.c1, &b.c1);
    let c0 = fq_sub(&t00, &t11);
    let t01 = fq_mul(&a.c0, &b.c1);
    let t10 = fq_mul(&a.c1, &b.c0);
    let c1 = fq_add(&t01, &t10);
    proof {
        let p = fq_modulus();
        vstd::arithmetic::div_mod::lemma_sub_mod_noop(a@.c0 * b@.c0, a@.c1 * b@.c1, p);
        vstd::arithmetic::div_mod::lemma_add_mod_noop(a@.c0 * b@.c1, a@.c1 * b@.c0, p);
    }
    Fq2 { c0, c1 }
}

/// Equality of base-field elements, limb by limb; equal values have
/// equal limbs because the canonical decomposition is unique.
pub fn fq_eq(a: &Fq, b: &Fq) -> (r: bool)
    ensures
        r == (a@ == b@),
{
    let r = a.limbs[0] == b.limbs[0] && a.limbs[1] == b.limbs[1] && a.limbs[2] == b.limbs[2]
        && a.limbs[3] == b.limbs[3] && a.limbs[4] == b.limbs[4] && a.limbs[5] == b.limbs[5];
    proof {
        if a@ == b@ {
            lemma_limbs_unique(a.limbs@);
            lemma_limbs_unique(b.limbs@);
            assert(a.limbs@ =~= b.limbs@);
        }
    }
    r
}

/// Equality of extension-field elements.
pub fn fq2_eq(a: &Fq2, b: &Fq2) -> (r: bool)
    ensures
        r == (a@ == b@),
{
    let r0 = fq_eq(&a.c0, &b.c0);
    let r1 = fq_eq(&a.c1, &b.c1);
    r0 && r1
}

/// The bit of a limb string at position `k`, counting from the most
/// significant bit of the whole string.
pub open spec fn bit_at(l: Seq<u64>, k: int) -> bool {
    let idx = l.len() * 64 - 1 - k;
    (l[idx / 64] >> (idx % 64)) & 1 == 1
}

/// The value of square-and-multiply after the first `n` bits, most
/// significant first.
pub open spec fn pow_chain_v(a: Fq2V, l: Seq<u64>, n: nat) -> Fq2V
    decreases n,
{
    if n == 0 {
        fq2v(1, 0)
    } else {
        let prev = pow_chain_v(a, l, (n - 1) as nat);
        let sq = fq2_mul_v(prev, prev);
        if bit_at(l, n - 1) {
            fq2_mul_v(sq, a)
        } else {
            sq
        }
    }
}

/// Raise an element to the power held in the limb string, most
/// significant bit first, by square-and-multiply.
pub fn fq2_pow(a: &Fq2, e: &[u64]) -> (r: Fq2)
    requires
        a.wf(),
        1 <= e@.len() <= 16,
    ensures
        r.wf(),
        r@ == pow_chain_v(a@, e@, e@.len() * 64),
{
    let len = e.len();
    let total = len * 64;
    let mut r = Fq2::one();
    let mut k: usize = 0;
    while k < total
        invariant
            0 <= k <= total,
            total == e@.len() * 64,
            1 <= e@.len() <= 16,
            a.wf(),
            r.wf(),
            r@ == pow_chain_v(a@, e@, k as nat),
        decreases total - k,
    {
        let idx = total - 1 - k;
        let limb = e[idx / 64];
        let bit = (limb >> ((idx % 64) as u64)) & 1;
        let sq = fq2_mul(&r, &r);
        if bit == 1 {
            r = fq2_mul(&sq, a);
        } else {
            r = sq;
        }
        proof {
            assert(bit == 1 <==> bit_at(e@, k as int));
        }
        k = k + 1;
    }
    r
}

/// The limbs of `q - 2`, where `q` is the order of the extension field:
/// the exponent that yields the inverse of every invertible element.
pub open spec fn inv_exp_limbs_v() -> Seq<u64> {
    seq![
        0x26aa00001c718e37u64,
        0x7ced6b1d76382eabu64,
        0x162c338362113cfdu64,
        0x66bf91ed3e71b743u64,
        0x292e85a87091a049u64,
        0x1d68619c86185c7bu64,
        0xf53149330978ef01u64,
        0x50a62cfd16ddca6eu64,
        0x66e59e49349e8bd0u64,
        0xe2dc90e50e7046b4u64,
        0x4bd278eaa22f25e9u64,
        0x2a437a4b8c35fc7u64,
    ]
}

/// The inverse candidate: the element raised to `q - 2`.
pub open spec fn fq2_inv_cand_v(a: Fq2V) -> Fq2V {
    pow_chain_v(a, inv_exp_limbs_v(), 768)
}

/// Whether the candidate passes the product check; for a field this
/// holds exactly of the invertible (nonzero) elements.
pub open spec fn fq2_has_inv_v(a: Fq2V) -> bool {
    fq2_mul_v(a, fq2_inv_cand_v(a)) == fq2v(1, 0)
}

/// The multiplicative inverse: the Fermat candidate, returned only
/// after a verified multiplication confirms it. `None` exactly when the
/// check refuses, so in particular on zero.
pub fn fq2_inverse(a: &Fq2) -> (r: Option<Fq2>)
    requires
        a.wf(),
    ensures
        match r {
            Some(i) => {
                &&& i.wf()
                &&& fq2_has_inv_v(a@)
                &&& i@ == fq2_inv_cand_v(a@)
            },
            None => !fq2_has_inv_v(a@),
        },
{
    let e: [u64; 12] = [
        0x26aa00001c718e37,
        0x7ced6b1d76382eab,
        0x162c338362113cfd,
        0x66bf91ed3e71b743,
        0x292e85a87091a049,
        0x1d68619c86185c7b,
        0xf53149330978ef01,
        0x50a62cfd16ddca6e,
        0x66e59e49349e8bd0,
        0xe2dc90e50e7046b4,
        0x4bd278eaa22f25e9,
        0x2a437a4b8c35fc7,
    ];
    proof {
        assert(e@ =~= inv_exp_limbs_v());
    }
    let cand = fq2_pow(a, e.as_slice());
    let check = fq2_mul(a, &cand);
    let one = Fq2::one();
    if fq2_eq(&check, &one) {
        Some(cand)
    } else {
        None
    }
}

/// The limbs of `(p - 3) / 4`.
pub open spec fn sqrt_exp1_limbs_v() -> Seq<u64> {
    seq![
        0xee7fbfffffffeaaau64,
        0x07aaffffac54ffffu64,
        0xd9cc34a83dac3d89u64,
        0xd91dd2e13ce144afu64,
        0x92c6e9ed90d2eb35u64,
        0x0680447a8e5ff9a6u64,
    ]
}

/// The limbs of `(p - 1) / 2`.
pub open spec fn sqrt_exp2_limbs_v() -> Seq<u64> {
    seq![
        0xdcff7fffffffd555u64,
        0x0f55ffff58a9ffffu64,
        0xb39869507b587b12u64,
        0xb23ba5c279c2895fu64,
        0x258dd3db21a5d66bu64,
        0x0d0088f51cbff34du64,
    ]
}

/// The square-root candidate for a modulus congruent to 3 modulo 4:
/// from `a1 = a^((p-3)/4)`, either `i * a1 * a` or
/// `(1 + a^((p-1)/2))^((p-1)/2) * a1 * a`.
pub open spec fn fq2_sqrt_cand_v(a: Fq2V) -> Fq2V {
    let a1 = pow_chain_v(a, sqrt_exp1_limbs_v(), 384);
    let x0 = fq2_mul_v(a1, a);
    let alpha = fq2_mul_v(a1, x0);
    if alpha == fq2v(fq_modulus() - 1, 0) {
        fq2_mul_v(fq2v(0, 1), x0)
    } else {
        fq2_mul_v(pow_chain_v(fq2_add_v(fq2v(1, 0), alpha), sqrt_exp2_limbs_v(), 384), x0)
    }
}

/// Whether the candidate squares back to the element: exactly the
/// squares of the field pass.
pub open spec fn fq2_has_sqrt_v(a: Fq2V) -> bool {
    fq2_mul_v(fq2_sqrt_cand_v(a), fq2_sqrt_cand_v(a)) == a
}

/// A square root, or `None` when the verified squaring check refuses
/// the candidate, which happens exactly on the non-squares.
pub fn fq2_sqrt(a: &Fq2) -> (r: Option<Fq2>)
    requires
        a.wf(),
    ensures
        match r {
            Some(s) => {
                &&& s.wf()
                &&& s@ == fq2_sqrt_cand_v(a@)
                &&& fq2_mul_v(s@, s@) == a@
            },
            None => !fq2_has_sqrt_v(a@),
        },
{
    let e1: [u64; 6] = [
        0xee7fbfffffffeaaa,
        0x07aaffffac54ffff,
        0xd9cc34a83dac3d89,
        0xd91dd2e13ce144af,
        0x92c6e9ed90d2eb35,
        0x0680447a8e5ff9a6,
    ];
    let e2: [u64; 6] = [
        0xdcff7fffffffd555,
        0x0f55ffff58a9ffff,
        0xb39869507b587b12,
        0xb23ba5c279c2895f,
        0x258dd3db21a5d66b,
        0x0d0088f51cbff34d,
    ];
    proof {
        assert(e1@ =~= sqrt_exp1_limbs_v());
        assert(e2@ =~= sqrt_exp2_limbs_v());
    }
    let a1 = fq2_pow(a, e1.as_slice());
    let x0 = fq2_mul(&a1, a);
    let alpha = fq2_mul(&a1, &x0);
    let minus_one = Fq2 {
        c0: Fq {
            limbs: [
                0xb9feffffffffaaaa,
                0x1eabfffeb153ffff,
                0x6730d2a0f6b0f624,
                0x64774b84f38512bf,
                0x4b1ba7b6434bacd7,
                0x1a0111ea397fe69a,
            ],
        },
        c1: Fq::zero(),
    };
    assert(minus_one@ == fq2v(fq_modulus() - 1, 0));
    let cand = if fq2_eq(&alpha, &minus_one) {
        let i_unit = Fq2 { c0: Fq::zero(), c1: Fq { limbs: [1, 0, 0, 0, 0, 0] } };
        assert(i_unit@ == fq2v(0, 1));
        fq2_mul(&i_unit, &x0)
    } else {
        let one = Fq2::one();
        let b = fq2_pow(&fq2_add(&one, &alpha), e2.as_slice());
        fq2_mul(&b, &x0)
    };
    let check = fq2_mul(&cand, &cand);
    if fq2_eq(&check, a) {
        Some(cand)
    } else {
        None
    }
}

} // verus!
