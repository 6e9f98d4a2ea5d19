//! The simplified Shallue–van de Woestijne–Ulas map: one extension-field
//! element to an affine point on the auxiliary curve
//! `E': y^2 = x^3 + A x + B`, with the sign of `y` fixed by `sgn0`.

use vstd::prelude::*;

use crate::field::{
    fq2v, fq2v_wf, fq2_add_v, fq2_mul_v, fq2_neg_v, fq_modulus, Fq, Fq2, Fq2V,
};
use crate::fq2ops::{
    fq2_add, fq2_has_inv_v, fq2_has_sqrt_v, fq2_inv_cand_v, fq2_inverse, fq2_mul, fq2_negate,
    fq2_sqrt, fq2_sqrt_cand_v,
};
use crate::HashToCurveError;

verus! {

/// The curve constant `A` of the auxiliary curve: `240 i`.
pub open spec fn sswu_a_v() -> Fq2V {
    fq2v(0, 240)
}

/// The curve constant `B` of the auxiliary curve: `1012 + 1012 i`.
pub open spec fn sswu_b_v() -> Fq2V {
    fq2v(1012, 1012)
}

/// The non-square constant `Z = -(2 + i)`.
pub open spec fn sswu_z_v() -> Fq2V {
    fq2_neg_v(fq2v(2, 1))
}

/// Zero in the extension field, written as a value.
pub open spec fn fq2_zero_v() -> Fq2V {
    fq2v(0, 0)
}

/// Inversion extended with `inv0(0) == 0`, so that it never fails: the
/// checked inverse where it exists, zero elsewhere.
pub open spec fn inv0_v(a: Fq2V) -> Fq2V {
    if fq2_has_inv_v(a) {
        fq2_inv_cand_v(a)
    } else {
        fq2_zero_v()
    }
}

/// The precomputed constant `c1 = -B / A`.
pub open spec fn sswu_c1_v() -> Fq2V {
    fq2_neg_v(fq2_mul_v(fq2_inv_cand_v(sswu_a_v()), sswu_b_v()))
}

/// The precomputed constant `c2 = -1 / Z`.
pub open spec fn sswu_c2_v() -> Fq2V {
    fq2_neg_v(fq2_inv_cand_v(sswu_z_v()))
}

/// `tv1 = Z * u^2`.
pub open spec fn sswu_tv1_v(u: Fq2V) -> Fq2V {
    fq2_mul_v(fq2_mul_v(u, u), sswu_z_v())
}

/// `tv2 = tv1^2`.
pub open spec fn sswu_tv2_v(u: Fq2V) -> Fq2V {
    fq2_mul_v(sswu_tv1_v(u), sswu_tv1_v(u))
}

/// The first candidate abscissa:
/// `x1 = c1 * (1 + inv0(tv1 + tv2))`, with `c2` replacing the parenthesis
/// when `tv1 + tv2 == 0`.
pub open spec fn sswu_x1_v(u: Fq2V) -> Fq2V {
    let s = fq2_add_v(sswu_tv1_v(u), sswu_tv2_v(u));
    let t = inv0_v(s);
    if t == fq2_zero_v() {
        fq2_mul_v(sswu_c2_v(), sswu_c1_v())
    } else {
        fq2_mul_v(fq2_add_v(t, fq2v(1, 0)), sswu_c1_v())
    }
}

/// The auxiliary curve's polynomial `g(x) = x^3 + A x + B`, evaluated as
/// the implementation does: `((x^2 + A) * x) + B`.
pub open spec fn g_iso_v(x: Fq2V) -> Fq2V {
    fq2_add_v(fq2_mul_v(fq2_add_v(fq2_mul_v(x, x), sswu_a_v()), x), sswu_b_v())
}

/// `g(x1)`.
pub open spec fn sswu_gx1_v(u: Fq2V) -> Fq2V {
    g_iso_v(sswu_x1_v(u))
}

/// The second candidate abscissa `x2 = tv1 * x1`.
pub open spec fn sswu_x2_v(u: Fq2V) -> Fq2V {
    fq2_mul_v(sswu_tv1_v(u), sswu_x1_v(u))
}

/// `g(x2)`, computed as `gx1 * (tv2 * tv1)`.
pub open spec fn sswu_gx2_v(u: Fq2V) -> Fq2V {
    fq2_mul_v(sswu_gx1_v(u), fq2_mul_v(sswu_tv2_v(u), sswu_tv1_v(u)))
}

/// The canonical sign of an extension-field value: the parity of its
/// first coordinate, with the second coordinate's parity breaking the
/// tie when the first is exactly zero.
pub open spec fn sgn0_v(a: Fq2V) -> u64 {
    if a.c0 % 2 == 1 {
        1
    } else if a.c0 == 0 && a.c1 % 2 == 1 {
        1
    } else {
        0
    }
}

/// Flip the sign of `y` when it disagrees with the sign of `u`.
pub open spec fn sswu_sign_fix_v(u: Fq2V, y: Fq2V) -> Fq2V {
    if sgn0_v(u) == sgn0_v(y) {
        y
    } else {
        fq2_neg_v(y)
    }
}

/// What the SSWU map returns: the point built from `x1` when `g(x1)` has
/// a square root, otherwise from `x2`; `None` when the arithmetic
/// refuses an inversion or both square roots, which the construction
/// rules out.
#[verifier::opaque]
pub open spec fn sswu_spec(u: Fq2V) -> Option<(Fq2V, Fq2V)> {
    if !fq2_has_inv_v(sswu_a_v()) || !fq2_has_inv_v(sswu_z_v()) {
        None
    } else if fq2_has_sqrt_v(sswu_gx1_v(u)) {
        Some((sswu_x1_v(u), sswu_sign_fix_v(u, fq2_sqrt_cand_v(sswu_gx1_v(u)))))
    } else if fq2_has_sqrt_v(sswu_gx2_v(u)) {
        Some((sswu_x2_v(u), sswu_sign_fix_v(u, fq2_sqrt_cand_v(sswu_gx2_v(u)))))
    } else {
        None
    }
}

/// Which squared ordinate the map selects.
pub open spec fn sswu_y2_v(u: Fq2V) -> Fq2V {
    if fq2_has_sqrt_v(sswu_gx1_v(u)) {
        sswu_gx1_v(u)
    } else {
        sswu_gx2_v(u)
    }
}

/// The value of the first limb decides the parity of the whole.
proof fn lemma_limb_parity(l: Seq<u64>)
    requires
        l.len() == 6,
    ensures
        crate::field::limbs6_val(l) % 2 == l[0] % 2,
{
    let k = l[1] * 0x8000000000000000 + l[2] * 0x80000000000000000000000000000000int + l[3]
        * 0x800000000000000000000000000000000000000000000000int + l[4]
        * 0x8000000000000000000000000000000000000000000000000000000000000000int + l[5]
        * 0x80000000000000000000000000000000000000000000000000000000000000000000000000000000int;
    assert(crate::field::limbs6_val(l) == 2 * k + l[0]);
    vstd::arithmetic::div_mod::lemma_mod_multiples_vanish(k, l[0] as int, 2);
}

/// The canonical sign of every extension-field element.
///
/// The result is always 0 or 1 (the first half of the sign-fixing
/// property); `lemma_sgn0_distinguishes` below gives the other half.
pub fn sgn0(x: &Fq2) -> (r: u64)
    requires
        x.wf(),
    ensures
        r == sgn0_v(x@),
        r == 0 || r == 1,
{
    let sign_0 = x.c0.limbs[0] % 2;
    let zero_0 = x.c0.is_zero();
    let sign_1 = x.c1.limbs[0] % 2;
    proof {
        lemma_limb_parity(x.c0.limbs@);
        lemma_limb_parity(x.c1.limbs@);
    }
    let zero_0_u: u64 = if zero_0 {
        1
    } else {
        0
    };
    let r = sign_0 | (zero_0_u & sign_1);
    proof {
        assert(r == if sign_0 == 1 {
            1u64
        } else if zero_0_u == 1 && sign_1 == 1 {
            1u64
        } else {
            0u64
        }) by (bit_vector)
            requires
                sign_0 < 2,
                sign_1 < 2,
                zero_0_u < 2,
                r == sign_0 | (zero_0_u & sign_1),
        ;
    }
    r
}

/// Negating an element does not change its square.
pub proof fn lemma_neg_square(y: Fq2V)
    requires
        fq2v_wf(y),
    ensures
        fq2_mul_v(fq2_neg_v(y), fq2_neg_v(y)) == fq2_mul_v(y, y),
{
    let p = fq_modulus();
    let n = fq2_neg_v(y);
    lemma_neg_val(y.c0);
    lemma_neg_val(y.c1);
    let k0: int = if y.c0 == 0 {
        0
    } else {
        p - 2 * y.c0
    };
    let k1: int = if y.c1 == 0 {
        0
    } else {
        p - 2 * y.c1
    };
    let km: int = if y.c0 == 0 || y.c1 == 0 {
        0
    } else {
        p - y.c0 - y.c1
    };
    assert(n.c0 * n.c0 == y.c0 * y.c0 + p * k0) by (nonlinear_arith)
        requires
            n.c0 == (if y.c0 == 0 {
                0int
            } else {
                p - y.c0
            }),
            k0 == (if y.c0 == 0 {
                0int
            } else {
                p - 2 * y.c0
            }),
    ;
    assert(n.c1 * n.c1 == y.c1 * y.c1 + p * k1) by (nonlinear_arith)
        requires
            n.c1 == (if y.c1 == 0 {
                0int
            } else {
                p - y.c1
            }),
            k1 == (if y.c1 == 0 {
                0int
            } else {
                p - 2 * y.c1
            }),
    ;
    assert(n.c0 * n.c1 == y.c0 * y.c1 + p * km) by (nonlinear_arith)
        requires
            n.c0 == (if y.c0 == 0 {
                0int
            } else {
                p - y.c0
            }),
            n.c1 == (if y.c1 == 0 {
                0int
            } else {
                p - y.c1
            }),
            km == (if y.c0 == 0 || y.c1 == 0 {
                0int
            } else {
                p - y.c0 - y.c1
            }),
    ;
    assert(n.c0 * n.c0 - n.c1 * n.c1 == p * (k0 - k1) + (y.c0 * y.c0 - y.c1 * y.c1)) by (nonlinear_arith)
        requires
            n.c0 * n.c0 == y.c0 * y.c0 + p * k0,
            n.c1 * n.c1 == y.c1 * y.c1 + p * k1,
    ;
    vstd::arithmetic::div_mod::lemma_mod_multiples_vanish(
        k0 - k1,
        y.c0 * y.c0 - y.c1 * y.c1,
        p,
    );
    assert(n.c0 * n.c1 + n.c1 * n.c0 == p * (2 * km) + (y.c0 * y.c1 + y.c1 * y.c0)) by (nonlinear_arith)
        requires
            n.c0 * n.c1 == y.c0 * y.c1 + p * km,
    ;
    vstd::arithmetic::div_mod::lemma_mod_multiples_vanish(
        2 * km,
        y.c0 * y.c1 + y.c1 * y.c0,
        p,
    );
}

/// The negation of a canonical coordinate, written without the final
/// reduction.
proof fn lemma_neg_val(c: int)
    requires
        0 <= c < fq_modulus(),
    ensures
        (fq_modulus() - c) % fq_modulus() == if c == 0 {
            0int
        } else {
            fq_modulus() - c
        },
{
    let p = fq_modulus();
    if c == 0 {
        vstd::arithmetic::div_mod::lemma_mod_self_0(p);
    } else {
        vstd::arithmetic::div_mod::lemma_small_mod((p - c) as nat, p as nat);
    }
}

/// Distinct opposite elements never share a sign: `sgn0` makes a
/// definite choice between `y` and `-y`.
pub proof fn lemma_sgn0_distinguishes(a: Fq2V)
    requires
        fq2v_wf(a),
        a != fq2_neg_v(a),
    ensures
        sgn0_v(a) != sgn0_v(fq2_neg_v(a)),
{
    let p = fq_modulus();
    let n = fq2_neg_v(a);
    lemma_neg_val(a.c0);
    lemma_neg_val(a.c1);
    assert(p % 2 == 1);
    if a.c0 != 0 {
        lemma_opposite_parity(a.c0);
    } else {
        assert(n.c0 == 0);
        if a.c1 != 0 {
            lemma_opposite_parity(a.c1);
        } else {
            assert(n == a);
        }
    }
}

/// A nonzero canonical value and its negation have different parities,
/// because the odd modulus is their sum.
proof fn lemma_opposite_parity(c: int)
    requires
        0 < c < fq_modulus(),
    ensures
        c % 2 != (fq_modulus() - c) % 2,
{
    let p = fq_modulus();
    let d = p - c;
    assert(p % 2 == 1);
    vstd::arithmetic::div_mod::lemma_add_mod_noop(c, d, 2);
    assert((c % 2 + d % 2) % 2 == 1);
}

/// Map an extension-field element to an affine point of the auxiliary
/// curve. The result is pinned to `sswu_spec`; its ordinate always
/// squares to the selected `g` value, so the point lies on the curve
/// whenever the first candidate is selected. The error is only reachable
/// if a checked inversion or both checked square roots refuse, which
/// the construction of the map rules out.
pub fn sswu(u: &Fq2) -> (r: Result<(Fq2, Fq2), HashToCurveError>)
    requires
        u.wf(),
    ensures
        match r {
            Ok((x, y)) => {
                &&& x.wf() && y.wf()
                &&& Some((x@, y@)) == sswu_spec(u@)
                &&& fq2_mul_v(y@, y@) == sswu_y2_v(u@)
                &&& (fq2_has_sqrt_v(sswu_gx1_v(u@)) ==> fq2_mul_v(y@, y@) == g_iso_v(x@))
            },
            Err(e) => {
                &&& e == HashToCurveError::InternalInvariant
                &&& sswu_spec(u@) is None
            },
        },
{
    proof {
        reveal(sswu_spec);
    }
    let a = Fq2 { c0: Fq::zero(), c1: Fq { limbs: [240, 0, 0, 0, 0, 0] } };
    let b = Fq2 {
        c0: Fq { limbs: [1012, 0, 0, 0, 0, 0] },
        c1: Fq { limbs: [1012, 0, 0, 0, 0, 0] },
    };
    let z_pre = Fq2 { c0: Fq { limbs: [2, 0, 0, 0, 0, 0] }, c1: Fq { limbs: [1, 0, 0, 0, 0, 0] } };
    assert(a@ == sswu_a_v() && b@ == sswu_b_v() && z_pre@ == fq2v(2, 1));
    let z = fq2_negate(&z_pre);
    // c1 = -B / A
    let a_inv = match fq2_inverse(&a) {
        Some(i) => i,
        None => {
            return Err(HashToCurveError::InternalInvariant);
        },
    };
    let c1 = fq2_negate(&fq2_mul(&a_inv, &b));
    // c2 = -1 / Z
    let z_inv = match fq2_inverse(&z) {
        Some(i) => i,
        None => {
            return Err(HashToCurveError::InternalInvariant);
        },
    };
    let c2 = fq2_negate(&z_inv);
    // tv1 = Z * u^2, tv2 = tv1^2
    let tv1 = fq2_mul(&fq2_mul(u, u), &z);
    let tv2 = fq2_mul(&tv1, &tv1);
    // x1 = inv0(tv1 + tv2)
    let s = fq2_add(&tv1, &tv2);
    let x1_pre = match fq2_inverse(&s) {
        Some(i) => i,
        None => Fq2::zero(),
    };
    proof {
        assert(x1_pre@ == inv0_v(s@));
    }
    // e1 = (x1 == 0); x1 = x1 + 1; if e1 { x1 = c2 }; x1 = x1 * c1
    let e1 = x1_pre.is_zero();
    let x1_mid = if e1 {
        c2
    } else {
        fq2_add(&x1_pre, &Fq2::one())
    };
    let x1 = fq2_mul(&x1_mid, &c1);
    proof {
        assert(x1@ == sswu_x1_v(u@));
    }
    // gx1 = g(x1) = ((x1^2 + A) * x1) + B
    let gx1 = fq2_add(&fq2_mul(&fq2_add(&fq2_mul(&x1, &x1), &a), &x1), &b);
    proof {
        assert(gx1@ == sswu_gx1_v(u@));
    }
    // x2 = tv1 * x1; gx2 = gx1 * (tv2 * tv1)
    let x2 = fq2_mul(&tv1, &x1);
    let tv2b = fq2_mul(&tv2, &tv1);
    let gx2 = fq2_mul(&gx1, &tv2b);
    proof {
        assert(x2@ == sswu_x2_v(u@));
        assert(gx2@ == sswu_gx2_v(u@));
    }
    // Select the candidate whose g value is a square, and its root.
    let (x, y_raw) = match fq2_sqrt(&gx1) {
        Some(y) => (x1, y),
        None => match fq2_sqrt(&gx2) {
            Some(y) => (x2, y),
            None => {
                return Err(HashToCurveError::InternalInvariant);
            },
        },
    };
    // Fix the sign of y to agree with the sign of u.
    let su = sgn0(u);
    let sy = sgn0(&y_raw);
    let y = if su == sy {
        y_raw
    } else {
        fq2_negate(&y_raw)
    };
    proof {
        if sgn0_v(u@) != sgn0_v(y_raw@) {
            lemma_neg_square(y_raw@);
        }
    }
    Ok((x, y))
}

} // verus!
