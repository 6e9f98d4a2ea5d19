//! The orchestrator: hash a message and a domain-separation tag to a
//! point of the prime-order subgroup of the target group, and encode
//! points in the group's canonical uncompressed form.

use vstd::prelude::*;

use crate::encode::{g2_coord_bytes, g2_encode_coords, g2_infinity_bytes, valid_g2_bytes};
use crate::field::{fq2_mul_v, fq2v, limbs_of, lemma_limbs_unique, Fq2, Fq2V};
use crate::fq2ops::{fq2_has_inv_v, fq2_inv_cand_v, fq2_inverse, fq2_mul};
use crate::g2ops::{g2_add_point, g2_add_point_v, g2_mul_chain_v, g2_mul_limbs, g2_zero_v, G2Point};
use crate::hash::{expand_spec, hash_to_field_fq2, u0_spec, u1_spec};
use crate::isogeny::{iso_map, iso_map_v};
use crate::sswu::{fq2_zero_v, sswu, sswu_spec};
use crate::HashToCurveError;

verus! {

/// The fixed cofactor that forces a point of the target curve into
/// the prime-order subgroup, as canonical little-endian limbs.
pub open spec fn h_eff_limbs_v() -> Seq<u64> {
    seq![
        0xe8020005aaa95551u64,
        0x59894c0adebbf6b4u64,
        0xe954cbc06689f6a3u64,
        0x2ec0ec69d7477c1au64,
        0x6d82bf015d1212b0u64,
        0x329c2f178731db95u64,
        0x9986ff031508ffe1u64,
        0x88e2a8e9145ad768u64,
        0x584c6a0ea91b3528u64,
        0x0bc69f08f2ee75b3u64,
    ]
}

/// The canonical uncompressed bytes of the projective point
/// `(x, y, z)`: the infinity form when `z` is zero, otherwise the four
/// affine coordinates `x.c1, x.c0, y.c1, y.c0`, each 48 bytes
/// big-endian.
#[verifier::opaque]
pub open spec fn point_bytes_v(p: (Fq2V, Fq2V, Fq2V)) -> Seq<u8> {
    if p.2 == fq2_zero_v() {
        g2_infinity_bytes()
    } else {
        let zi = fq2_inv_cand_v(p.2);
        let zi2 = fq2_mul_v(zi, zi);
        let ax = fq2_mul_v(p.0, zi2);
        let ay = fq2_mul_v(fq2_mul_v(p.1, zi), zi2);
        g2_coord_bytes(limbs_of(ax.c1), limbs_of(ax.c0), limbs_of(ay.c1), limbs_of(ay.c0))
    }
}

/// Whether the affine conversion of a projective point goes through:
/// it does unless the checked inversion of a nonzero `z` refuses, which
/// a correct inversion never does.
pub open spec fn point_encodable_v(p: (Fq2V, Fq2V, Fq2V)) -> bool {
    p.2 == fq2_zero_v() || fq2_has_inv_v(p.2)
}

/// The affine representative of a projective point: the point at
/// infinity stays put, any other point is rescaled to `z == 1`.
pub open spec fn to_affine_v(p: (Fq2V, Fq2V, Fq2V)) -> (Fq2V, Fq2V, Fq2V) {
    if p.2 == fq2_zero_v() {
        g2_zero_v()
    } else {
        let zi = fq2_inv_cand_v(p.2);
        let zi2 = fq2_mul_v(zi, zi);
        (fq2_mul_v(p.0, zi2), fq2_mul_v(fq2_mul_v(p.1, zi), zi2), fq2v(1, 0))
    }
}

/// Where the curve mapping sends one extension-field element: SSWU,
/// then the isogeny, then affine normalization. `None` only when a
/// checked inversion or square root refuses, which the construction
/// rules out.
#[verifier::opaque]
pub open spec fn map_to_curve_v(u: Fq2V) -> Option<(Fq2V, Fq2V, Fq2V)> {
    match sswu_spec(u) {
        Some(xy) => {
            let m = iso_map_v(xy.0, xy.1, fq2v(1, 0));
            if point_encodable_v(m) {
                Some(to_affine_v(m))
            } else {
                None
            }
        },
        None => None,
    }
}

/// The whole hash, as a point: expand, slice into two field elements,
/// map each to the curve, add the two points, and clear the cofactor.
pub open spec fn hash_to_curve_v(msg: Seq<u8>, dst: Seq<u8>) -> Option<(Fq2V, Fq2V, Fq2V)> {
    let e = expand_spec(msg, dst);
    match map_to_curve_v(u0_spec(e)) {
        Some(q0) => match map_to_curve_v(u1_spec(e)) {
            Some(q1) => Some(
                g2_mul_chain_v(g2_add_point_v(q0, q1), h_eff_limbs_v(), 640),
            ),
            None => None,
        },
        None => None,
    }
}

/// The whole hash, as canonical uncompressed bytes.
pub open spec fn hash_to_curve_bytes_v(msg: Seq<u8>, dst: Seq<u8>) -> Option<Seq<u8>> {
    match hash_to_curve_v(msg, dst) {
        Some(p) => if point_encodable_v(p) {
            Some(point_bytes_v(p))
        } else {
            None
        },
        None => None,
    }
}

/// Convert a projective point to its canonical uncompressed bytes: the
/// encoding of infinity when `z` is zero, otherwise the big-endian
/// affine coordinates. The point is not checked to lie on the curve or
/// in the prime-order subgroup. The error is only reachable if the
/// checked inversion of a nonzero `z` refuses.
pub fn from_coordinates_uncompressed(x: &Fq2, y: &Fq2, z: &Fq2) -> (r: Result<
    Vec<u8>,
    HashToCurveError,
>)
    requires
        x.wf(),
        y.wf(),
        z.wf(),
    ensures
        match r {
            Ok(b) => {
                &&& point_encodable_v((x@, y@, z@))
                &&& b@ == point_bytes_v((x@, y@, z@))
                &&& valid_g2_bytes(b@)
                &&& b@.len() == 192
            },
            Err(e) => {
                &&& e == HashToCurveError::InternalInvariant
                &&& !point_encodable_v((x@, y@, z@))
            },
        },
{
    proof {
        reveal(point_bytes_v);
    }
    if z.is_zero() {
        let mut out: Vec<u8> = Vec::new();
        out.push(0x40u8);
        let mut i: usize = 1;
        while i < 192
            invariant
                1 <= i <= 192,
                out@.len() == i,
                out@[0] == 0x40u8,
                forall|j: int| 1 <= j < i ==> out@[j] == 0u8,
            decreases 192 - i,
        {
            out.push(0u8);
            i = i + 1;
        }
        proof {
            assert(out@ =~= g2_infinity_bytes());
        }
        Ok(out)
    } else {
        let z_inv = match fq2_inverse(z) {
            Some(i) => i,
            None => {
                return Err(HashToCurveError::InternalInvariant);
            },
        };
        let z_inv2 = fq2_mul(&z_inv, &z_inv);
        let p_x = fq2_mul(x, &z_inv2);
        let p_y = fq2_mul(&fq2_mul(y, &z_inv), &z_inv2);
        let out = g2_encode_coords(&p_x, &p_y);
        proof {
            lemma_limbs_unique(p_x.c1.limbs@);
            lemma_limbs_unique(p_x.c0.limbs@);
            lemma_limbs_unique(p_y.c1.limbs@);
            lemma_limbs_unique(p_y.c0.limbs@);
        }
        Ok(out)
    }
}

/// Build a group element from projective coordinates: the affine
/// representative, or the point at infinity when `z` is zero. The point
/// is not checked to lie in the prime-order subgroup.
pub fn from_coordinates_unchecked(x: &Fq2, y: &Fq2, z: &Fq2) -> (r: Result<
    G2Point,
    HashToCurveError,
>)
    requires
        x.wf(),
        y.wf(),
        z.wf(),
    ensures
        match r {
            Ok(p) => {
                &&& p.wf()
                &&& point_encodable_v((x@, y@, z@))
                &&& p@ == to_affine_v((x@, y@, z@))
            },
            Err(e) => {
                &&& e == HashToCurveError::InternalInvariant
                &&& !point_encodable_v((x@, y@, z@))
            },
        },
{
    if z.is_zero() {
        Ok(G2Point::zero())
    } else {
        let z_inv = match fq2_inverse(z) {
            Some(i) => i,
            None => {
                return Err(HashToCurveError::InternalInvariant);
            },
        };
        let z_inv2 = fq2_mul(&z_inv, &z_inv);
        let p_x = fq2_mul(x, &z_inv2);
        let p_y = fq2_mul(&fq2_mul(y, &z_inv), &z_inv2);
        Ok(G2Point { x: p_x, y: p_y, z: Fq2::one() })
    }
}

/// Map one extension-field element to a point of the target curve (not
/// yet in the prime-order subgroup), in affine form.
pub fn map_to_curve_g2(u: &Fq2) -> (r: Result<G2Point, HashToCurveError>)
    requires
        u.wf(),
    ensures
        match r {
            Ok(p) => {
                &&& p.wf()
                &&& map_to_curve_v(u@) == Some(p@)
            },
            Err(e) => {
                &&& e == HashToCurveError::InternalInvariant
                &&& map_to_curve_v(u@) is None
            },
        },
{
    proof {
        reveal(map_to_curve_v);
    }
    let (x, y) = match sswu(u) {
        Ok(p) => p,
        Err(e) => {
            return Err(e);
        },
    };
    let one = Fq2::one();
    let (xj, yj, zj) = iso_map(&x, &y, &one);
    from_coordinates_unchecked(&xj, &yj, &zj)
}

/// The bytes of the curve mapping: the encoded affine point, where
/// both the mapping and the final affine conversion go through.
pub open spec fn map_to_curve_bytes_v(u: Fq2V) -> Option<Seq<u8>> {
    match map_to_curve_v(u) {
        Some(p) => if point_encodable_v(p) {
            Some(point_bytes_v(p))
        } else {
            None
        },
        None => None,
    }
}

/// Map one extension-field element to the canonical bytes of a point on
/// the target curve.
pub fn map_to_curve_g2_uncompressed(u: &Fq2) -> (r: Result<Vec<u8>, HashToCurveError>)
    requires
        u.wf(),
    ensures
        match r {
            Ok(b) => {
                &&& map_to_curve_bytes_v(u@) == Some(b@)
                &&& valid_g2_bytes(b@)
                &&& b@.len() == 192
            },
            Err(e) => {
                &&& e == HashToCurveError::InternalInvariant
                &&& map_to_curve_bytes_v(u@) is None
            },
        },
{
    let p = match map_to_curve_g2(u) {
        Ok(p) => p,
        Err(e) => {
            return Err(e);
        },
    };
    match from_coordinates_uncompressed(&p.x, &p.y, &p.z) {
        Ok(b) => Ok(b),
        Err(e) => Err(e),
    }
}

/// Hash a message and a domain-separation tag to a point in the
/// prime-order subgroup of the target group: two independent curve
/// mappings added, then the cofactor cleared. Rejects tags longer than
/// 255 bytes before any hashing; the internal error is unreachable for
/// correct field arithmetic.
pub fn hash_to_curve_g2(msg: &[u8], dst: &[u8]) -> (r: Result<G2Point, HashToCurveError>)
    ensures
        match r {
            Ok(p) => {
                &&& dst@.len() <= 255
                &&& p.wf()
                &&& hash_to_curve_v(msg@, dst@) == Some(p@)
            },
            Err(HashToCurveError::DstTooLong) => dst@.len() > 255,
            Err(HashToCurveError::InternalInvariant) => {
                &&& dst@.len() <= 255
                &&& hash_to_curve_v(msg@, dst@) is None
            },
        },
{
    let (u0, u1) = match hash_to_field_fq2(msg, dst) {
        Ok(u) => u,
        Err(e) => {
            return Err(e);
        },
    };
    let q0 = match map_to_curve_g2(&u0) {
        Ok(p) => p,
        Err(e) => {
            return Err(e);
        },
    };
    let q1 = match map_to_curve_g2(&u1) {
        Ok(p) => p,
        Err(e) => {
            return Err(e);
        },
    };
    let s = g2_add_point(&q0, &q1);
    let h_eff: [u64; 10] = [
        0xe8020005aaa95551,
        0x59894c0adebbf6b4,
        0xe954cbc06689f6a3,
        0x2ec0ec69d7477c1a,
        0x6d82bf015d1212b0,
        0x329c2f178731db95,
        0x9986ff031508ffe1,
        0x88e2a8e9145ad768,
        0x584c6a0ea91b3528,
        0x0bc69f08f2ee75b3,
    ];
    proof {
        assert(h_eff@ =~= h_eff_limbs_v());
    }
    let p = g2_mul_limbs(&s, h_eff.as_slice());
    Ok(p)
}

/// Determinism of the hash: the point is a function of the message and
/// the tag alone, so any two successful results for the same inputs are
/// the same point.
pub proof fn lemma_hash_to_curve_deterministic(
    msg: Seq<u8>,
    dst: Seq<u8>,
    p1: (Fq2V, Fq2V, Fq2V),
    p2: (Fq2V, Fq2V, Fq2V),
)
    requires
        hash_to_curve_v(msg, dst) == Some(p1),
        hash_to_curve_v(msg, dst) == Some(p2),
    ensures
        p1 == p2,
{
}

/// Hash a message and a domain-separation tag to the canonical
/// uncompressed bytes of a point in the prime-order subgroup.
pub fn hash_to_curve_g2_uncompressed(msg: &[u8], dst: &[u8]) -> (r: Result<
    Vec<u8>,
    HashToCurveError,
>)
    ensures
        match r {
            Ok(b) => {
                &&& dst@.len() <= 255
                &&& hash_to_curve_bytes_v(msg@, dst@) == Some(b@)
                &&& valid_g2_bytes(b@)
                &&& b@.len() == 192
            },
            Err(HashToCurveError::DstTooLong) => dst@.len() > 255,
            Err(HashToCurveError::InternalInvariant) => {
                &&& dst@.len() <= 255
                &&& hash_to_curve_bytes_v(msg@, dst@) is None
            },
        },
{
    let p = match hash_to_curve_g2(msg, dst) {
        Ok(p) => p,
        Err(e) => {
            return Err(e);
        },
    };
    match from_coordinates_uncompressed(&p.x, &p.y, &p.z) {
        Ok(b) => Ok(b),
        Err(e) => Err(e),
    }
}

} // verus!
