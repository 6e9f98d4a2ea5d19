//! Big-endian byte encodings of field elements and of uncompressed points
//! of the target group.
//!
//! A base-field element is encoded as 48 bytes: its six limbs from most to
//! least significant, each as eight big-endian bytes. An uncompressed
//! point is the 192-byte string `x.c1 || x.c0 || y.c1 || y.c0`; the point
//! at infinity is one flag byte `0x40` followed by zeros.

use vstd::prelude::*;

use crate::field::{limbs6_val, fq_modulus, Fq, Fq2};
use crate::serialize::{spec_u64_be, Serial, Buffer};

verus! {

/// The 48-byte big-endian encoding of a base-field element given by its
/// little-endian limbs.
pub open spec fn fq_be_bytes(l: Seq<u64>) -> Seq<u8>
    recommends
        l.len() == 6,
{
    spec_u64_be(l[5]) + spec_u64_be(l[4]) + spec_u64_be(l[3]) + spec_u64_be(l[2]) + spec_u64_be(
        l[1],
    ) + spec_u64_be(l[0])
}

/// The 192-byte uncompressed encoding of an affine point with the given
/// coordinate limbs.
pub open spec fn g2_coord_bytes(x1: Seq<u64>, x0: Seq<u64>, y1: Seq<u64>, y0: Seq<u64>) -> Seq<
    u8,
> {
    fq_be_bytes(x1) + fq_be_bytes(x0) + fq_be_bytes(y1) + fq_be_bytes(y0)
}

/// The 192-byte uncompressed encoding of the point at infinity: the
/// infinity flag bit in the first byte, zeros elsewhere.
pub open spec fn g2_infinity_bytes() -> Seq<u8> {
    Seq::new(192, |i: int| if i == 0 { 0x40u8 } else { 0u8 })
}

/// An uncompressed encoding made of four canonical coordinates. Since the
/// modulus is below 2^381, the first byte of each 48-byte block is below
/// 0x20, so none of the three flag bits can be set.
pub open spec fn valid_g2_coord_bytes(s: Seq<u8>) -> bool {
    exists|x1: Seq<u64>, x0: Seq<u64>, y1: Seq<u64>, y0: Seq<u64>|
        {
            &&& x1.len() == 6 && x0.len() == 6 && y1.len() == 6 && y0.len() == 6
            &&& limbs6_val(x1) < fq_modulus() && limbs6_val(x0) < fq_modulus() && limbs6_val(y1)
                < fq_modulus() && limbs6_val(y0) < fq_modulus()
            &&& s == g2_coord_bytes(x1, x0, y1, y0)
        }
}

/// A canonical uncompressed point encoding: either four canonical
/// coordinates, or the infinity form.
pub open spec fn valid_g2_bytes(s: Seq<u8>) -> bool {
    valid_g2_coord_bytes(s) || s == g2_infinity_bytes()
}

/// Append the 48-byte big-endian encoding of a base-field element.
pub fn fq_write_be(x: &Fq, out: &mut Vec<u8>)
    requires
        x.wf(),
    ensures
        final(out)@ == old(out)@ + fq_be_bytes(x.limbs@),
{
    let ghost base = out@;
    x.limbs[5].serial(out);
    x.limbs[4].serial(out);
    x.limbs[3].serial(out);
    x.limbs[2].serial(out);
    x.limbs[1].serial(out);
    x.limbs[0].serial(out);
    proof {
        assert(out@ =~= base + fq_be_bytes(x.limbs@));
    }
}

/// Build the 192-byte uncompressed encoding of the affine point
/// `(x, y)`.
#[verifier::rlimit(60)]
pub fn g2_encode_coords(x: &Fq2, y: &Fq2) -> (r: Vec<u8>)
    requires
        x.wf(),
        y.wf(),
    ensures
        r@ == g2_coord_bytes(x.c1.limbs@, x.c0.limbs@, y.c1.limbs@, y.c0.limbs@),
        valid_g2_coord_bytes(r@),
        r@.len() == 192,
{
    let mut out: Vec<u8> = Vec::new();
    fq_write_be(&x.c1, &mut out);
    proof {
        assert(out@ =~= fq_be_bytes(x.c1.limbs@));
    }
    fq_write_be(&x.c0, &mut out);
    fq_write_be(&y.c1, &mut out);
    fq_write_be(&y.c0, &mut out);
    proof {
        let w1 = x.c1.limbs@;
        let w0 = x.c0.limbs@;
        let v1 = y.c1.limbs@;
        let v0 = y.c0.limbs@;
        assert(out@ == g2_coord_bytes(w1, w0, v1, v0));
        assert(w1.len() == 6 && w0.len() == 6 && v1.len() == 6 && v0.len() == 6 && limbs6_val(w1)
            < fq_modulus() && limbs6_val(w0) < fq_modulus() && limbs6_val(v1) < fq_modulus()
            && limbs6_val(v0) < fq_modulus());
        assert(fq_be_bytes(w1).len() == 48);
        assert(out@.len() == 192);
    }
    out
}

} // verus!
