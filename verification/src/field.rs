//! The mathematical model of the BLS12-381 base field and its quadratic
//! extension.
//!
//! A base-field element is carried as six 64-bit limbs, least significant
//! first, holding the canonical representative (an integer below the
//! modulus). An extension-field element is a pair `c0 + c1 * i` with
//! `i * i == -1`. The arithmetic itself is verified
//! limb code in this crate; everything here states what it means on the
//! canonical integer values.

use vstd::prelude::*;

verus! {

/// The integer value of six little-endian 64-bit limbs.
pub open spec fn limbs6_val(l: Seq<u64>) -> int
    recommends
        l.len() == 6,
{
    l[0] + l[1] * 0x10000000000000000 + l[2] * 0x100000000000000000000000000000000int + l[3]
        * 0x1000000000000000000000000000000000000000000000000int + l[4]
        * 0x10000000000000000000000000000000000000000000000000000000000000000int + l[5]
        * 0x100000000000000000000000000000000000000000000000000000000000000000000000000000000int
}

/// The prime modulus of the BLS12-381 base field.
pub open spec fn fq_modulus() -> int {
    4002409555221667393417789825735904156556882819939007885332058136124031650490837864442687629129015664037894272559787int
}

/// A base-field element: the canonical representative held as six
/// little-endian 64-bit limbs.
#[derive(Clone, Copy, Debug, PartialEq, Eq)]
pub struct Fq {
    pub limbs: [u64; 6],
}

impl View for Fq {
    type V = int;

    open spec fn view(&self) -> int {
        limbs6_val(self.limbs@)
    }
}

impl Fq {
    /// A well-formed element holds a canonical representative: an integer
    /// in `[0, fq_modulus())`.
    pub open spec fn wf(&self) -> bool {
        0 <= self@ < fq_modulus()
    }

    /// The zero element.
    pub fn zero() -> (r: Fq)
        ensures
            r.wf(),
            r@ == 0,
    {
        Fq { limbs: [0, 0, 0, 0, 0, 0] }
    }

    /// Whether this element is zero.
    pub fn is_zero(&self) -> (r: bool)
        requires
            self.wf(),
        ensures
            r == (self@ == 0),
    {
        proof {
            lemma_limbs6_val_bounds(self.limbs@);
        }
        self.limbs[0] == 0 && self.limbs[1] == 0 && self.limbs[2] == 0 && self.limbs[3] == 0
            && self.limbs[4] == 0 && self.limbs[5] == 0
    }

    /// Build an element from limbs, checking that they are canonical.
    pub fn from_limbs(limbs: [u64; 6]) -> (r: Option<Fq>)
        ensures
            match r {
                Some(x) => x.wf() && x@ == limbs6_val(limbs@) && x.limbs@ == limbs@,
                None => limbs6_val(limbs@) >= fq_modulus(),
            },
    {
        let modulus: [u64; 6] = [
            0xb9feffffffffaaab,
            0x1eabfffeb153ffff,
            0x6730d2a0f6b0f624,
            0x64774b84f38512bf,
            0x4b1ba7b6434bacd7,
            0x1a0111ea397fe69a,
        ];
        proof {
            assert(limbs6_val(modulus@) == fq_modulus());
        }
        let mut i: usize = 6;
        loop
            invariant
                0 <= i <= 6,
                limbs6_val(modulus@) == fq_modulus(),
                forall|j: int| i <= j < 6 ==> limbs@[j] == modulus@[j],
            decreases i,
        {
            if i == 0 {
                proof {
                    assert(limbs@ =~= modulus@);
                }
                return None;
            }
            i = i - 1;
            if limbs[i] < modulus[i] {
                proof {
                    lemma_limbs6_lt(limbs@, modulus@, i as int);
                }
                return Some(Fq { limbs });
            }
            if limbs[i] > modulus[i] {
                proof {
                    lemma_limbs6_lt(modulus@, limbs@, i as int);
                }
                return None;
            }
        }
    }
}

/// Every six-limb value is nonnegative and below 2^384; moreover a value
/// is zero only when all limbs are zero.
pub proof fn lemma_limbs6_val_bounds(l: Seq<u64>)
    requires
        l.len() == 6,
    ensures
        0 <= limbs6_val(l),
        limbs6_val(l)
            < 0x1000000000000000000000000000000000000000000000000000000000000000000000000000000000000000000000000int,
        limbs6_val(l) == 0 <==> (l[0] == 0 && l[1] == 0 && l[2] == 0 && l[3] == 0 && l[4] == 0
            && l[5] == 0),
{
}

/// If two six-limb strings agree above position `i` and differ there in
/// favour of `b`, then `a`'s value is below `b`'s.
pub proof fn lemma_limbs6_lt(a: Seq<u64>, b: Seq<u64>, i: int)
    requires
        a.len() == 6,
        b.len() == 6,
        0 <= i < 6,
        a[i] < b[i],
        forall|j: int| i < j < 6 ==> a[j] == b[j],
    ensures
        limbs6_val(a) < limbs6_val(b),
{
}

/// 2^64 to the power `i`.
pub open spec fn pow64i(i: int) -> int
    decreases i,
{
    if i <= 0 {
        1
    } else {
        0x10000000000000000 * pow64i(i - 1)
    }
}

/// The canonical little-endian limb decomposition of a value.
pub open spec fn limbs_of(v: int) -> Seq<u64> {
    Seq::new(6, |i: int| ((v / pow64i(i)) % 0x10000000000000000) as u64)
}

/// A six-limb string is the canonical decomposition of its value: the
/// base-2^64 digits of an integer are unique.
pub proof fn lemma_limbs_unique(l: Seq<u64>)
    requires
        l.len() == 6,
    ensures
        limbs_of(limbs6_val(l)) == l,
{
    reveal_with_fuel(pow64i, 7);
    let v = limbs6_val(l);
    let k1 = l[1] + l[2] * 0x10000000000000000 + l[3] * 0x100000000000000000000000000000000int
        + l[4] * 0x1000000000000000000000000000000000000000000000000int + l[5]
        * 0x10000000000000000000000000000000000000000000000000000000000000000int;
    let k2 = l[2] + l[3] * 0x10000000000000000 + l[4] * 0x100000000000000000000000000000000int
        + l[5] * 0x1000000000000000000000000000000000000000000000000int;
    let k3 = l[3] + l[4] * 0x10000000000000000 + l[5] * 0x100000000000000000000000000000000int;
    let k4 = l[4] + l[5] * 0x10000000000000000;
    let k5 = l[5] as int;
    lemma_digit(v, 1, 0, 0, l[0] as int, k1);
    lemma_digit(v, 0x10000000000000000, l[0] as int, 1, l[1] as int, k2);
    lemma_digit(
        v,
        0x100000000000000000000000000000000int,
        l[0] + l[1] * 0x10000000000000000,
        2,
        l[2] as int,
        k3,
    );
    lemma_digit(
        v,
        0x1000000000000000000000000000000000000000000000000int,
        l[0] + l[1] * 0x10000000000000000 + l[2] * 0x100000000000000000000000000000000int,
        3,
        l[3] as int,
        k4,
    );
    lemma_digit(
        v,
        0x10000000000000000000000000000000000000000000000000000000000000000int,
        l[0] + l[1] * 0x10000000000000000 + l[2] * 0x100000000000000000000000000000000int
            + l[3] * 0x1000000000000000000000000000000000000000000000000int,
        4,
        l[4] as int,
        k5,
    );
    lemma_digit(
        v,
        0x100000000000000000000000000000000000000000000000000000000000000000000000000000000int,
        l[0] + l[1] * 0x10000000000000000 + l[2] * 0x100000000000000000000000000000000int
            + l[3] * 0x1000000000000000000000000000000000000000000000000int + l[4]
            * 0x10000000000000000000000000000000000000000000000000000000000000000int,
        5,
        l[5] as int,
        0,
    );
    assert(limbs_of(v) =~= l);
}

/// One base-2^64 digit of a value: if `v == p * (d + b * k) + r` with the
/// remainder `r` below `p` and the digit `d` below `b`, then dividing by
/// `p` and reducing modulo `b` recovers `d`.
proof fn lemma_digit(v: int, p: int, r: int, i: int, d: int, k: int)
    requires
        0 < p,
        p == pow64i(i),
        0 <= r < p,
        0 <= d < 0x10000000000000000,
        0 <= k,
        v == p * (d + 0x10000000000000000 * k) + r,
    ensures
        (v / pow64i(i)) % 0x10000000000000000 == d,
{
    let b = 0x10000000000000000int;
    assert(p * (d + b * k) == (d + b * k) * p) by (nonlinear_arith);
    vstd::arithmetic::div_mod::lemma_fundamental_div_mod_converse(v, p, d + b * k, r);
    assert(v / p == d + b * k);
    vstd::arithmetic::div_mod::lemma_mod_multiples_vanish(k, d, b);
    vstd::arithmetic::div_mod::lemma_small_mod(d as nat, b as nat);
}

/// The integer pair standing for an extension-field element
/// `c0 + c1 * i`.
pub struct Fq2V {
    pub c0: int,
    pub c1: int,
}

/// An extension-field element: a pair of base-field elements.
#[derive(Clone, Copy, Debug, PartialEq, Eq)]
pub struct Fq2 {
    pub c0: Fq,
    pub c1: Fq,
}

impl View for Fq2 {
    type V = Fq2V;

    open spec fn view(&self) -> Fq2V {
        Fq2V { c0: self.c0@, c1: self.c1@ }
    }
}

impl Fq2 {
    pub open spec fn wf(&self) -> bool {
        self.c0.wf() && self.c1.wf()
    }

    /// The zero element of the extension field.
    pub fn zero() -> (r: Fq2)
        ensures
            r.wf(),
            r@ == fq2v(0, 0),
    {
        Fq2 { c0: Fq::zero(), c1: Fq::zero() }
    }

    /// The one element of the extension field.
    pub fn one() -> (r: Fq2)
        ensures
            r.wf(),
            r@ == fq2v(1, 0),
    {
        Fq2 { c0: Fq { limbs: [1, 0, 0, 0, 0, 0] }, c1: Fq::zero() }
    }

    /// Whether this element is zero.
    pub fn is_zero(&self) -> (r: bool)
        requires
            self.wf(),
        ensures
            r == (self@ == fq2v(0, 0)),
    {
        let z0 = self.c0.is_zero();
        let z1 = self.c1.is_zero();
        z0 && z1
    }
}

/// Shorthand for building an extension-field value.
pub open spec fn fq2v(c0: int, c1: int) -> Fq2V {
    Fq2V { c0: c0, c1: c1 }
}

/// A valid extension-field value: both coordinates canonical.
pub open spec fn fq2v_wf(a: Fq2V) -> bool {
    0 <= a.c0 < fq_modulus() && 0 <= a.c1 < fq_modulus()
}

/// Componentwise addition in the extension field.
pub open spec fn fq2_add_v(a: Fq2V, b: Fq2V) -> Fq2V {
    fq2v((a.c0 + b.c0) % fq_modulus(), (a.c1 + b.c1) % fq_modulus())
}

/// Multiplication in the extension field `Fq[i] / (i*i + 1)`:
/// `(a0 + a1 i)(b0 + b1 i) == (a0 b0 - a1 b1) + (a0 b1 + a1 b0) i`.
pub open spec fn fq2_mul_v(a: Fq2V, b: Fq2V) -> Fq2V {
    fq2v((a.c0 * b.c0 - a.c1 * b.c1) % fq_modulus(), (a.c0 * b.c1 + a.c1 * b.c0) % fq_modulus())
}

/// Componentwise subtraction in the extension field.
pub open spec fn fq2_sub_v(a: Fq2V, b: Fq2V) -> Fq2V {
    fq2v((a.c0 - b.c0) % fq_modulus(), (a.c1 - b.c1) % fq_modulus())
}

/// Negation in the extension field.
pub open spec fn fq2_neg_v(a: Fq2V) -> Fq2V {
    fq2v((fq_modulus() - a.c0) % fq_modulus(), (fq_modulus() - a.c1) % fq_modulus())
}

} // verus!
