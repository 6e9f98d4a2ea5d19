//! The verified group law of the target curve in Jacobian-style
//! coordinates: doubling, general addition, and scalar multiplication by
//! binary double-and-add. Each operation is pinned to a specification
//! that mirrors the standard formulas step by step.

use vstd::prelude::*;

use crate::field::{fq2_add_v, fq2_mul_v, fq2_sub_v, fq2v, Fq2, Fq2V};
use crate::fq2ops::{bit_at, fq2_add, fq2_eq, fq2_mul, fq2_sub};

verus! {

/// A projective point of the target curve; `z == 0` stands for the
/// point at infinity.
#[derive(Clone, Copy, Debug, PartialEq, Eq)]
pub struct G2Point {
    pub x: Fq2,
    pub y: Fq2,
    pub z: Fq2,
}

impl View for G2Point {
    type V = (Fq2V, Fq2V, Fq2V);

    open spec fn view(&self) -> (Fq2V, Fq2V, Fq2V) {
        (self.x@, self.y@, self.z@)
    }
}

impl G2Point {
    pub open spec fn wf(&self) -> bool {
        self.x.wf() && self.y.wf() && self.z.wf()
    }

    /// The point at infinity.
    pub fn zero() -> (r: G2Point)
        ensures
            r.wf(),
            r@ == g2_zero_v(),
    {
        G2Point { x: Fq2::zero(), y: Fq2::one(), z: Fq2::zero() }
    }
}

/// The coordinates standing for the point at infinity.
pub open spec fn g2_zero_v() -> (Fq2V, Fq2V, Fq2V) {
    (fq2v(0, 0), fq2v(1, 0), fq2v(0, 0))
}

/// Where doubling sends a point, by the standard Jacobian doubling
/// formulas for a curve with no linear term.
pub open spec fn g2_double_v(p: (Fq2V, Fq2V, Fq2V)) -> (Fq2V, Fq2V, Fq2V) {
    let a = fq2_mul_v(p.0, p.0);
    let b = fq2_mul_v(p.1, p.1);
    let c = fq2_mul_v(b, b);
    let xb = fq2_add_v(p.0, b);
    let d1 = fq2_sub_v(fq2_sub_v(fq2_mul_v(xb, xb), a), c);
    let d = fq2_add_v(d1, d1);
    let e = fq2_add_v(fq2_add_v(a, a), a);
    let f = fq2_mul_v(e, e);
    let x3 = fq2_sub_v(f, fq2_add_v(d, d));
    let c2 = fq2_add_v(c, c);
    let c4 = fq2_add_v(c2, c2);
    let c8 = fq2_add_v(c4, c4);
    let y3 = fq2_sub_v(fq2_mul_v(e, fq2_sub_v(d, x3)), c8);
    let yz = fq2_mul_v(p.1, p.2);
    let z3 = fq2_add_v(yz, yz);
    (x3, y3, z3)
}

/// Where addition sends two points: either argument at infinity yields
/// the other; matching abscissae yield a doubling or the point at
/// infinity; otherwise the standard Jacobian addition formulas apply.
pub open spec fn g2_add_point_v(p: (Fq2V, Fq2V, Fq2V), q: (Fq2V, Fq2V, Fq2V)) -> (
    Fq2V,
    Fq2V,
    Fq2V,
) {
    if p.2 == fq2v(0, 0) {
        q
    } else if q.2 == fq2v(0, 0) {
        p
    } else {
        let z1z1 = fq2_mul_v(p.2, p.2);
        let z2z2 = fq2_mul_v(q.2, q.2);
        let u1 = fq2_mul_v(p.0, z2z2);
        let u2 = fq2_mul_v(q.0, z1z1);
        let s1 = fq2_mul_v(fq2_mul_v(p.1, q.2), z2z2);
        let s2 = fq2_mul_v(fq2_mul_v(q.1, p.2), z1z1);
        if u1 == u2 && s1 == s2 {
            g2_double_v(p)
        } else {
            let h = fq2_sub_v(u2, u1);
            let hh = fq2_add_v(h, h);
            let i = fq2_mul_v(hh, hh);
            let j = fq2_mul_v(h, i);
            let sd = fq2_sub_v(s2, s1);
            let rr = fq2_add_v(sd, sd);
            let v = fq2_mul_v(u1, i);
            let x3 = fq2_sub_v(fq2_sub_v(fq2_mul_v(rr, rr), j), fq2_add_v(v, v));
            let sj = fq2_mul_v(s1, j);
            let y3 = fq2_sub_v(fq2_mul_v(rr, fq2_sub_v(v, x3)), fq2_add_v(sj, sj));
            let zz = fq2_add_v(p.2, q.2);
            let z3 = fq2_mul_v(fq2_sub_v(fq2_sub_v(fq2_mul_v(zz, zz), z1z1), z2z2), h);
            (x3, y3, z3)
        }
    }
}

/// Double a point.
pub fn g2_double(p: &G2Point) -> (r: G2Point)
    requires
        p.wf(),
    ensures
        r.wf(),
        r@ == g2_double_v(p@),
{
    let a = fq2_mul(&p.x, &p.x);
    let b = fq2_mul(&p.y, &p.y);
    let c = fq2_mul(&b, &b);
    let xb = fq2_add(&p.x, &b);
    let d1 = fq2_sub(&fq2_sub(&fq2_mul(&xb, &xb), &a), &c);
    let d = fq2_add(&d1, &d1);
    let e = fq2_add(&fq2_add(&a, &a), &a);
    let f = fq2_mul(&e, &e);
    let x3 = fq2_sub(&f, &fq2_add(&d, &d));
    let c2 = fq2_add(&c, &c);
    let c4 = fq2_add(&c2, &c2);
    let c8 = fq2_add(&c4, &c4);
    let y3 = fq2_sub(&fq2_mul(&e, &fq2_sub(&d, &x3)), &c8);
    let yz = fq2_mul(&p.y, &p.z);
    let z3 = fq2_add(&yz, &yz);
    G2Point { x: x3, y: y3, z: z3 }
}

/// Add two points.
pub fn g2_add_point(p: &G2Point, q: &G2Point) -> (r: G2Point)
    requires
        p.wf(),
        q.wf(),
    ensures
        r.wf(),
        r@ == g2_add_point_v(p@, q@),
{
    if p.z.is_zero() {
        return *q;
    }
    if q.z.is_zero() {
        return *p;
    }
    let z1z1 = fq2_mul(&p.z, &p.z);
    let z2z2 = fq2_mul(&q.z, &q.z);
    let u1 = fq2_mul(&p.x, &z2z2);
    let u2 = fq2_mul(&q.x, &z1z1);
    let s1 = fq2_mul(&fq2_mul(&p.y, &q.z), &z2z2);
    let s2 = fq2_mul(&fq2_mul(&q.y, &p.z), &z1z1);
    let ueq = fq2_eq(&u1, &u2);
    let seq_ = fq2_eq(&s1, &s2);
    if ueq && seq_ {
        return g2_double(p);
    }
    let h = fq2_sub(&u2, &u1);
    let hh = fq2_add(&h, &h);
    let i = fq2_mul(&hh, &hh);
    let j = fq2_mul(&h, &i);
    let sd = fq2_sub(&s2, &s1);
    let rr = fq2_add(&sd, &sd);
    let v = fq2_mul(&u1, &i);
    let x3 = fq2_sub(&fq2_sub(&fq2_mul(&rr, &rr), &j), &fq2_add(&v, &v));
    let sj = fq2_mul(&s1, &j);
    let y3 = fq2_sub(&fq2_mul(&rr, &fq2_sub(&v, &x3)), &fq2_add(&sj, &sj));
    let zz = fq2_add(&p.z, &q.z);
    let z3 = fq2_mul(&fq2_sub(&fq2_sub(&fq2_mul(&zz, &zz), &z1z1), &z2z2), &h);
    G2Point { x: x3, y: y3, z: z3 }
}

/// The value of double-and-add after the first `n` bits of the scalar,
/// most significant first.
pub open spec fn g2_mul_chain_v(p: (Fq2V, Fq2V, Fq2V), l: Seq<u64>, n: nat) -> (Fq2V, Fq2V, Fq2V)
    decreases n,
{
    if n == 0 {
        g2_zero_v()
    } else {
        let prev = g2_mul_chain_v(p, l, (n - 1) as nat);
        let d = g2_double_v(prev);
        if bit_at(l, n - 1) {
            g2_add_point_v(d, p)
        } else {
            d
        }
    }
}

/// Multiply a point by the scalar held in the limb string, most
/// significant bit first, by double-and-add.
pub fn g2_mul_limbs(p: &G2Point, e: &[u64]) -> (r: G2Point)
    requires
        p.wf(),
        1 <= e@.len() <= 16,
    ensures
        r.wf(),
        r@ == g2_mul_chain_v(p@, e@, e@.len() * 64),
{
    let len = e.len();
    let total = len * 64;
    let mut r = G2Point::zero();
    let mut k: usize = 0;
    while k < total
        invariant
            0 <= k <= total,
            total == e@.len() * 64,
            1 <= e@.len() <= 16,
            p.wf(),
            r.wf(),
            r@ == g2_mul_chain_v(p@, e@, k as nat),
        decreases total - k,
    {
        let idx = total - 1 - k;
        let limb = e[idx / 64];
        let bit = (limb >> ((idx % 64) as u64)) & 1;
        let d = g2_double(&r);
        if bit == 1 {
            r = g2_add_point(&d, p);
        } else {
            r = d;
        }
        proof {
            assert(bit == 1 <==> bit_at(e@, k as int));
        }
        k = k + 1;
    }
    r
}

} // verus!
