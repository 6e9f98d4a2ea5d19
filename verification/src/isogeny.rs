//! The fixed 3-isogeny from the auxiliary curve to the target curve:
//! four polynomials evaluated by Horner's method over a ladder of even
//! powers of `Z`, with the coefficient tables K1 through K4.

use vstd::prelude::*;

use crate::field::{fq2v, limbs6_val, Fq, Fq2, Fq2V};
use crate::fq2ops::{fq2_add, fq2_mul};

verus! {

/// The extension-field value with the given little-endian limbs.
#[verifier::opaque]
pub open spec fn fqv6(a: u64, b: u64, c: u64, d: u64, e: u64, f: u64) -> int {
    limbs6_val(seq![a, b, c, d, e, f])
}

/// K1: the coefficients of the x-numerator polynomial, constant term
/// first.
pub open spec fn k1_v() -> Seq<Fq2V> {
    seq![
        fq2v(
            fqv6(
                0x6238aaaaaaaa97d6,
                0x5c2638e343d9c71c,
                0x88b58423c50ae15d,
                0x32c52d39fd3a042a,
                0xbb5b7a9a47d7ed85,
                0x5c759507e8e333e,
            ),
            fqv6(
                0x6238aaaaaaaa97d6,
                0x5c2638e343d9c71c,
                0x88b58423c50ae15d,
                0x32c52d39fd3a042a,
                0xbb5b7a9a47d7ed85,
                0x5c759507e8e333e,
            ),
        ),
        fq2v(
            0,
            fqv6(
                0x26a9ffffffffc71a,
                0x1472aaa9cb8d5555,
                0x9a208c6b4f20a418,
                0x984f87adf7ae0c7f,
                0x32126fced787c88f,
                0x11560bf17baa99bc,
            ),
        ),
        fq2v(
            fqv6(
                0x26a9ffffffffc71e,
                0x1472aaa9cb8d5555,
                0x9a208c6b4f20a418,
                0x984f87adf7ae0c7f,
                0x32126fced787c88f,
                0x11560bf17baa99bc,
            ),
            fqv6(
                0x9354ffffffffe38d,
                0x0a395554e5c6aaaa,
                0xcd104635a790520c,
                0xcc27c3d6fbd7063f,
                0x190937e76bc3e447,
                0x8ab05f8bdd54cde,
            ),
        ),
        fq2v(
            fqv6(
                0x88e2aaaaaaaa5ed1,
                0x7098e38d0f671c71,
                0x22d6108f142b8575,
                0xcb14b4e7f4e810aa,
                0xed6dea691f5fb614,
                0x171d6541fa38ccfa,
            ),
            0,
        ),
    ]
}

/// K2: the coefficients of the x-denominator polynomial, constant term
/// first; the leading coefficient is one.
pub open spec fn k2_v() -> Seq<Fq2V> {
    seq![
        fq2v(
            0,
            fqv6(
                0xb9feffffffffaa63,
                0x1eabfffeb153ffff,
                0x6730d2a0f6b0f624,
                0x64774b84f38512bf,
                0x4b1ba7b6434bacd7,
                0x1a0111ea397fe69a,
            ),
        ),
        fq2v(
            0xc,
            fqv6(
                0xb9feffffffffaa9f,
                0x1eabfffeb153ffff,
                0x6730d2a0f6b0f624,
                0x64774b84f38512bf,
                0x4b1ba7b6434bacd7,
                0x1a0111ea397fe69a,
            ),
        ),
        fq2v(1, 0),
    ]
}

/// K3: the coefficients of the y-numerator polynomial, constant term
/// first.
pub open spec fn k3_v() -> Seq<Fq2V> {
    seq![
        fq2v(
            fqv6(
                0x12cfc71c71c6d706,
                0xfc8c25ebf8c92f68,
                0xf54439d87d27e500,
                0x0f7da5d4a07f649b,
                0x59a4c18b076d1193,
                0x1530477c7ab4113b,
            ),
            fqv6(
                0x12cfc71c71c6d706,
                0xfc8c25ebf8c92f68,
                0xf54439d87d27e500,
                0x0f7da5d4a07f649b,
                0x59a4c18b076d1193,
                0x1530477c7ab4113b,
            ),
        ),
        fq2v(
            0,
            fqv6(
                0x6238aaaaaaaa97be,
                0x5c2638e343d9c71c,
                0x88b58423c50ae15d,
                0x32c52d39fd3a042a,
                0xbb5b7a9a47d7ed85,
                0x5c759507e8e333e,
            ),
        ),
        fq2v(
            fqv6(
                0x26a9ffffffffc71c,
                0x1472aaa9cb8d5555,
                0x9a208c6b4f20a418,
                0x984f87adf7ae0c7f,
                0x32126fced787c88f,
                0x11560bf17baa99bc,
            ),
            fqv6(
                0x9354ffffffffe38f,
                0x0a395554e5c6aaaa,
                0xcd104635a790520c,
                0xcc27c3d6fbd7063f,
                0x190937e76bc3e447,
                0x8ab05f8bdd54cde,
            ),
        ),
        fq2v(
            fqv6(
                0xe1b371c71c718b10,
                0x4e79097a56dc4bd9,
                0xb0e977c69aa27452,
                0x761b0f37a1e26286,
                0xfbf7043de3811ad0,
                0x124c9ad43b6cf79b,
            ),
            0,
        ),
    ]
}

/// K4: the coefficients of the y-denominator polynomial, constant term
/// first; the leading coefficient is one.
pub open spec fn k4_v() -> Seq<Fq2V> {
    seq![
        fq2v(
            fqv6(
                0xb9feffffffffa8fb,
                0x1eabfffeb153ffff,
                0x6730d2a0f6b0f624,
                0x64774b84f38512bf,
                0x4b1ba7b6434bacd7,
                0x1a0111ea397fe69a,
            ),
            fqv6(
                0xb9feffffffffa8fb,
                0x1eabfffeb153ffff,
                0x6730d2a0f6b0f624,
                0x64774b84f38512bf,
                0x4b1ba7b6434bacd7,
                0x1a0111ea397fe69a,
            ),
        ),
        fq2v(
            0,
            fqv6(
                0xb9feffffffffa9d3,
                0x1eabfffeb153ffff,
                0x6730d2a0f6b0f624,
                0x64774b84f38512bf,
                0x4b1ba7b6434bacd7,
                0x1a0111ea397fe69a,
            ),
        ),
        fq2v(
            0x12,
            fqv6(
                0xb9feffffffffaa99,
                0x1eabfffeb153ffff,
                0x6730d2a0f6b0f624,
                0x64774b84f38512bf,
                0x4b1ba7b6434bacd7,
                0x1a0111ea397fe69a,
            ),
        ),
        fq2v(1, 0),
    ]
}

/// An extension-field element from two literal limb arrays.
fn fq2_of_limbs(c0: [u64; 6], c1: [u64; 6]) -> (r: Fq2)
    ensures
        r@ == fq2v(limbs6_val(c0@), limbs6_val(c1@)),
        r.c0.limbs@ == c0@,
        r.c1.limbs@ == c1@,
{
    Fq2 { c0: Fq { limbs: c0 }, c1: Fq { limbs: c1 } }
}

/// Build the K1 table.
fn k1_table() -> (r: Vec<Fq2>)
    ensures
        r@.len() == 4,
        forall|i: int| 0 <= i < 4 ==> (#[trigger] r@[i]).wf() && r@[i]@ == k1_v()[i],
{
    proof {
        reveal(fqv6);
    }
    let mut r: Vec<Fq2> = Vec::new();
    r.push(
        fq2_of_limbs(
            [
                0x6238aaaaaaaa97d6,
                0x5c2638e343d9c71c,
                0x88b58423c50ae15d,
                0x32c52d39fd3a042a,
                0xbb5b7a9a47d7ed85,
                0x5c759507e8e333e,
            ],
            [
                0x6238aaaaaaaa97d6,
                0x5c2638e343d9c71c,
                0x88b58423c50ae15d,
                0x32c52d39fd3a042a,
                0xbb5b7a9a47d7ed85,
                0x5c759507e8e333e,
            ],
        ),
    );
    r.push(
        fq2_of_limbs(
            [0, 0, 0, 0, 0, 0],
            [
                0x26a9ffffffffc71a,
                0x1472aaa9cb8d5555,
                0x9a208c6b4f20a418,
                0x984f87adf7ae0c7f,
                0x32126fced787c88f,
                0x11560bf17baa99bc,
            ],
        ),
    );
    r.push(
        fq2_of_limbs(
            [
                0x26a9ffffffffc71e,
                0x1472aaa9cb8d5555,
                0x9a208c6b4f20a418,
                0x984f87adf7ae0c7f,
                0x32126fced787c88f,
                0x11560bf17baa99bc,
            ],
            [
                0x9354ffffffffe38d,
                0x0a395554e5c6aaaa,
                0xcd104635a790520c,
                0xcc27c3d6fbd7063f,
                0x190937e76bc3e447,
                0x8ab05f8bdd54cde,
            ],
        ),
    );
    r.push(
        fq2_of_limbs(
            [
                0x88e2aaaaaaaa5ed1,
                0x7098e38d0f671c71,
                0x22d6108f142b8575,
                0xcb14b4e7f4e810aa,
                0xed6dea691f5fb614,
                0x171d6541fa38ccfa,
            ],
            [0, 0, 0, 0, 0, 0],
        ),
    );
    r
}

/// Build the K2 table.
fn k2_table() -> (r: Vec<Fq2>)
    ensures
        r@.len() == 3,
        forall|i: int| 0 <= i < 3 ==> (#[trigger] r@[i]).wf() && r@[i]@ == k2_v()[i],
{
    proof {
        reveal(fqv6);
    }
    let mut r: Vec<Fq2> = Vec::new();
    r.push(
        fq2_of_limbs(
            [0, 0, 0, 0, 0, 0],
            [
                0xb9feffffffffaa63,
                0x1eabfffeb153ffff,
                0x6730d2a0f6b0f624,
                0x64774b84f38512bf,
                0x4b1ba7b6434bacd7,
                0x1a0111ea397fe69a,
            ],
        ),
    );
    r.push(
        fq2_of_limbs(
            [0xc, 0, 0, 0, 0, 0],
            [
                0xb9feffffffffaa9f,
                0x1eabfffeb153ffff,
                0x6730d2a0f6b0f624,
                0x64774b84f38512bf,
                0x4b1ba7b6434bacd7,
                0x1a0111ea397fe69a,
            ],
        ),
    );
    r.push(fq2_of_limbs([1, 0, 0, 0, 0, 0], [0, 0, 0, 0, 0, 0]));
    r
}

/// Build the K3 table.
fn k3_table() -> (r: Vec<Fq2>)
    ensures
        r@.len() == 4,
        forall|i: int| 0 <= i < 4 ==> (#[trigger] r@[i]).wf() && r@[i]@ == k3_v()[i],
{
    proof {
        reveal(fqv6);
    }
    let mut r: Vec<Fq2> = Vec::new();
    r.push(
        fq2_of_limbs(
            [
                0x12cfc71c71c6d706,
                0xfc8c25ebf8c92f68,
                0xf54439d87d27e500,
                0x0f7da5d4a07f649b,
                0x59a4c18b076d1193,
                0x1530477c7ab4113b,
            ],
            [
                0x12cfc71c71c6d706,
                0xfc8c25ebf8c92f68,
                0xf54439d87d27e500,
                0x0f7da5d4a07f649b,
                0x59a4c18b076d1193,
                0x1530477c7ab4113b,
            ],
        ),
    );
    r.push(
        fq2_of_limbs(
            [0, 0, 0, 0, 0, 0],
            [
                0x6238aaaaaaaa97be,
                0x5c2638e343d9c71c,
                0x88b58423c50ae15d,
                0x32c52d39fd3a042a,
                0xbb5b7a9a47d7ed85,
                0x5c759507e8e333e,
            ],
        ),
    );
    r.push(
        fq2_of_limbs(
            [
                0x26a9ffffffffc71c,
                0x1472aaa9cb8d5555,
                0x9a208c6b4f20a418,
                0x984f87adf7ae0c7f,
                0x32126fced787c88f,
                0x11560bf17baa99bc,
            ],
            [
                0x9354ffffffffe38f,
                0x0a395554e5c6aaaa,
                0xcd104635a790520c,
                0xcc27c3d6fbd7063f,
                0x190937e76bc3e447,
                0x8ab05f8bdd54cde,
            ],
        ),
    );
    r.push(
        fq2_of_limbs(
            [
                0xe1b371c71c718b10,
                0x4e79097a56dc4bd9,
                0xb0e977c69aa27452,
                0x761b0f37a1e26286,
                0xfbf7043de3811ad0,
                0x124c9ad43b6cf79b,
            ],
            [0, 0, 0, 0, 0, 0],
        ),
    );
    r
}

/// Build the K4 table.
fn k4_table() -> (r: Vec<Fq2>)
    ensures
        r@.len() == 4,
        forall|i: int| 0 <= i < 4 ==> (#[trigger] r@[i]).wf() && r@[i]@ == k4_v()[i],
{
    proof {
        reveal(fqv6);
    }
    let mut r: Vec<Fq2> = Vec::new();
    r.push(
        fq2_of_limbs(
            [
                0xb9feffffffffa8fb,
                0x1eabfffeb153ffff,
                0x6730d2a0f6b0f624,
                0x64774b84f38512bf,
                0x4b1ba7b6434bacd7,
                0x1a0111ea397fe69a,
            ],
            [
                0xb9feffffffffa8fb,
                0x1eabfffeb153ffff,
                0x6730d2a0f6b0f624,
                0x64774b84f38512bf,
                0x4b1ba7b6434bacd7,
                0x1a0111ea397fe69a,
            ],
        ),
    );
    r.push(
        fq2_of_limbs(
            [0, 0, 0, 0, 0, 0],
            [
                0xb9feffffffffa9d3,
                0x1eabfffeb153ffff,
                0x6730d2a0f6b0f624,
                0x64774b84f38512bf,
                0x4b1ba7b6434bacd7,
                0x1a0111ea397fe69a,
            ],
        ),
    );
    r.push(
        fq2_of_limbs(
            [0x12, 0, 0, 0, 0, 0],
            [
                0xb9feffffffffaa99,
                0x1eabfffeb153ffff,
                0x6730d2a0f6b0f624,
                0x64774b84f38512bf,
                0x4b1ba7b6434bacd7,
                0x1a0111ea397fe69a,
            ],
        ),
    );
    r.push(fq2_of_limbs([1, 0, 0, 0, 0, 0], [0, 0, 0, 0, 0, 0]));
    r
}

/// The ladder of even powers `Z^2, Z^4, ..., Z^30`, combined exactly as
/// the evaluator computes them: by squaring and by multiplying an
/// earlier entry with `Z^2`.
pub open spec fn zpows_v(z: Fq2V) -> Seq<Fq2V> {
    let z2 = crate::field::fq2_mul_v(z, z);
    let z4 = crate::field::fq2_mul_v(z2, z2);
    let z6 = crate::field::fq2_mul_v(z4, z2);
    let z8 = crate::field::fq2_mul_v(z4, z4);
    let z10 = crate::field::fq2_mul_v(z8, z2);
    let z12 = crate::field::fq2_mul_v(z10, z2);
    let z14 = crate::field::fq2_mul_v(z12, z2);
    let z16 = crate::field::fq2_mul_v(z8, z8);
    let z18 = crate::field::fq2_mul_v(z16, z2);
    let z20 = crate::field::fq2_mul_v(z18, z2);
    let z22 = crate::field::fq2_mul_v(z20, z2);
    let z24 = crate::field::fq2_mul_v(z22, z2);
    let z26 = crate::field::fq2_mul_v(z24, z2);
    let z28 = crate::field::fq2_mul_v(z26, z2);
    let z30 = crate::field::fq2_mul_v(z28, z2);
    seq![z2, z4, z6, z8, z10, z12, z14, z16, z18, z20, z22, z24, z26, z28, z30]
}

/// Compute the ladder of even powers of `Z`.
fn zpows(z: &Fq2) -> (r: Vec<Fq2>)
    requires
        z.wf(),
    ensures
        r@.len() == 15,
        forall|i: int| 0 <= i < 15 ==> (#[trigger] r@[i]).wf() && r@[i]@ == zpows_v(z@)[i],
{
    let z2 = fq2_mul(z, z);
    let z4 = fq2_mul(&z2, &z2);
    let z6 = fq2_mul(&z4, &z2);
    let z8 = fq2_mul(&z4, &z4);
    let z10 = fq2_mul(&z8, &z2);
    let z12 = fq2_mul(&z10, &z2);
    let z14 = fq2_mul(&z12, &z2);
    let z16 = fq2_mul(&z8, &z8);
    let z18 = fq2_mul(&z16, &z2);
    let z20 = fq2_mul(&z18, &z2);
    let z22 = fq2_mul(&z20, &z2);
    let z24 = fq2_mul(&z22, &z2);
    let z26 = fq2_mul(&z24, &z2);
    let z28 = fq2_mul(&z26, &z2);
    let z30 = fq2_mul(&z28, &z2);
    let mut r: Vec<Fq2> = Vec::new();
    r.push(z2);
    r.push(z4);
    r.push(z6);
    r.push(z8);
    r.push(z10);
    r.push(z12);
    r.push(z14);
    r.push(z16);
    r.push(z18);
    r.push(z20);
    r.push(z22);
    r.push(z24);
    r.push(z26);
    r.push(z28);
    r.push(z30);
    r
}

/// One Horner step below coefficient index `i`: the value accumulated
/// after the coefficients from the top one down to index `i` have been
/// taken in, each lower one scaled by the matching power of `Z`.
pub open spec fn horner_from_v(coeffs: Seq<Fq2V>, zp: Seq<Fq2V>, x: Fq2V, i: int) -> Fq2V
    recommends
        coeffs.len() >= 1,
        0 <= i < coeffs.len(),
    decreases coeffs.len() - i,
{
    if i >= coeffs.len() - 1 {
        coeffs[coeffs.len() - 1]
    } else {
        crate::field::fq2_add_v(
            crate::field::fq2_mul_v(horner_from_v(coeffs, zp, x, i + 1), x),
            crate::field::fq2_mul_v(coeffs[i], zp[coeffs.len() - 2 - i]),
        )
    }
}

/// The homogenized Horner evaluation of a polynomial: coefficient `i`
/// is scaled by the ladder entry `Z^(2 * (degree - i))`.
pub open spec fn horner_v(coeffs: Seq<Fq2V>, zp: Seq<Fq2V>, x: Fq2V) -> Fq2V {
    horner_from_v(coeffs, zp, x, 0)
}

/// Evaluate one isogeny polynomial by Horner's method, scaling each
/// coefficient by the matching ladder entry.
fn horner(coefficients: &Vec<Fq2>, z_powers: &Vec<Fq2>, variable: &Fq2) -> (r: Fq2)
    requires
        coefficients@.len() >= 1,
        z_powers@.len() >= coefficients@.len() - 1,
        variable.wf(),
        forall|i: int| 0 <= i < coefficients@.len() ==> (#[trigger] coefficients@[i]).wf(),
        forall|i: int| 0 <= i < z_powers@.len() ==> (#[trigger] z_powers@[i]).wf(),
    ensures
        r.wf(),
        r@ == horner_v(
            coefficients@.map_values(|c: Fq2| c@),
            z_powers@.map_values(|c: Fq2| c@),
            variable@,
        ),
{
    let ghost cv = coefficients@.map_values(|c: Fq2| c@);
    let ghost zv = z_powers@.map_values(|c: Fq2| c@);
    let n = coefficients.len();
    let mut res = coefficients[n - 1];
    let mut j: usize = 1;
    while j < n
        invariant
            1 <= j <= n,
            n == coefficients@.len(),
            n >= 1,
            z_powers@.len() >= n - 1,
            cv == coefficients@.map_values(|c: Fq2| c@),
            zv == z_powers@.map_values(|c: Fq2| c@),
            variable.wf(),
            forall|i: int| 0 <= i < coefficients@.len() ==> (#[trigger] coefficients@[i]).wf(),
            forall|i: int| 0 <= i < z_powers@.len() ==> (#[trigger] z_powers@[i]).wf(),
            res.wf(),
            res@ == horner_from_v(cv, zv, variable@, n - j),
        decreases n - j,
    {
        let i = n - 1 - j;
        let scaled = fq2_mul(&coefficients[i], &z_powers[j - 1]);
        res = fq2_add(&fq2_mul(&res, variable), &scaled);
        proof {
            assert(zv[j - 1] == z_powers@[j - 1]@);
            assert(cv[i as int] == coefficients@[i as int]@);
            assert(res@ == horner_from_v(cv, zv, variable@, i as int));
        }
        j = j + 1;
    }
    res
}

/// Where the isogeny carries a point: the four Horner values combined
/// into Jacobian-style coordinates, with the doubled `Z_out` scaling
/// that the affine conversion expects.
#[verifier::opaque]
pub open spec fn iso_map_v(x: Fq2V, y: Fq2V, z: Fq2V) -> (Fq2V, Fq2V, Fq2V) {
    let zp = zpows_v(z);
    let x_num = horner_v(k1_v(), zp, x);
    let x_den = crate::field::fq2_mul_v(zp[0], horner_v(k2_v(), zp, x));
    let y_num = crate::field::fq2_mul_v(y, horner_v(k3_v(), zp, x));
    let y_den = crate::field::fq2_mul_v(
        crate::field::fq2_mul_v(zp[0], z),
        horner_v(k4_v(), zp, x),
    );
    let z_jac = crate::field::fq2_mul_v(x_den, y_den);
    let x_jac = crate::field::fq2_mul_v(crate::field::fq2_mul_v(x_num, y_den), z_jac);
    let y_jac = crate::field::fq2_mul_v(
        crate::field::fq2_mul_v(y_num, x_den),
        crate::field::fq2_mul_v(z_jac, z_jac),
    );
    (x_jac, y_jac, z_jac)
}

/// Apply the fixed 3-isogeny to a point of the auxiliary curve given in
/// projective form, returning Jacobian-style coordinates on the target
/// curve.
#[verifier::rlimit(100)]
pub fn iso_map(x: &Fq2, y: &Fq2, z: &Fq2) -> (r: (Fq2, Fq2, Fq2))
    requires
        x.wf(),
        y.wf(),
        z.wf(),
    ensures
        r.0.wf() && r.1.wf() && r.2.wf(),
        (r.0@, r.1@, r.2@) == iso_map_v(x@, y@, z@),
{
    proof {
        reveal(iso_map_v);
    }
    let zp = zpows(z);
    let k1 = k1_table();
    let k2 = k2_table();
    let k3 = k3_table();
    let k4 = k4_table();
    proof {
        assert(zp@.map_values(|c: Fq2| c@) =~= zpows_v(z@));
        assert(k1@.map_values(|c: Fq2| c@) =~= k1_v());
        assert(k2@.map_values(|c: Fq2| c@) =~= k2_v());
        assert(k3@.map_values(|c: Fq2| c@) =~= k3_v());
        assert(k4@.map_values(|c: Fq2| c@) =~= k4_v());
    }
    let x_num = horner(&k1, &zp, x);
    let x_den_ = horner(&k2, &zp, x);
    let x_den = fq2_mul(&zp[0], &x_den_);
    let y_num_ = horner(&k3, &zp, x);
    let y_num = fq2_mul(y, &y_num_);
    let y_den_ = horner(&k4, &zp, x);
    let y_den = fq2_mul(&fq2_mul(&zp[0], z), &y_den_);
    let z_jac = fq2_mul(&x_den, &y_den);
    let x_jac = fq2_mul(&fq2_mul(&x_num, &y_den), &z_jac);
    let z_jac_pow2 = fq2_mul(&z_jac, &z_jac);
    let y_jac = fq2_mul(&fq2_mul(&y_num, &x_den), &z_jac_pow2);
    (x_jac, y_jac, z_jac)
}

} // verus!
