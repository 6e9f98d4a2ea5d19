//! Hash-to-curve for the G2 group of BLS12-381, together with the byte
//! serialization helpers that the surrounding protocols share.
//!
//! The whole pipeline is verified over a mathematical model of the
//! fields: limb-level base-field arithmetic, the quadratic extension,
//! the simplified SWU map, the fixed 3-isogeny, the group law, and the
//! canonical point encoding. Only the SHA-256 compression itself is
//! taken on trust from the `sha2` crate.

pub mod arith;
pub mod curve;
pub mod encode;
pub mod field;
pub mod fq2ops;
pub mod g2ops;
pub mod hash;
pub mod isogeny;
pub mod ops;
pub mod sswu;
pub mod serialize;

use vstd::prelude::*;

verus! {

/// How hashing to the curve can fail.
///
/// `DstTooLong` is a configuration error: the domain-separation tag does
/// not fit the one length byte that the expansion appends, and the call
/// is rejected before any hashing. `InternalInvariant` reports that a
/// checked square root or inversion inside the curve mapping was
/// refused; the construction guarantees both, so it signals a fault in
/// the arithmetic, never a normal input condition.
#[derive(Clone, Copy, Debug, PartialEq, Eq, Structural)]
pub enum HashToCurveError {
    DstTooLong,
    InternalInvariant,
}

} // verus!
