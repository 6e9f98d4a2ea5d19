//! Verified arithmetic on the base field: six-limb addition and
//! subtraction with carry chains, and modular multiplication by binary
//! double-and-add, all proved against the integer values of the limbs.

use vstd::prelude::*;

use crate::field::{fq_modulus, limbs6_val, Fq};

verus! {

/// The limbs of the modulus.
pub fn p_limbs() -> (r: [u64; 6])
    ensures
        limbs6_val(r@) == fq_modulus(),
{
    [
        0xb9feffffffffaaab,
        0x1eabfffeb153ffff,
        0x6730d2a0f6b0f624,
        0x64774b84f38512bf,
        0x4b1ba7b6434bacd7,
        0x1a0111ea397fe69a,
    ]
}

/// One limb addition with carry: split the 65-bit sum.
fn add_limb(a: u64, b: u64, c: u64) -> (r: (u64, u64))
    requires
        c <= 1,
    ensures
        r.0 + 0x10000000000000000 * r.1 == a + b + c,
        r.1 <= 1,
{
    let s: u128 = a as u128 + b as u128 + c as u128;
    let lo = (s & 0xffffffffffffffff) as u64;
    let hi = (s >> 64) as u64;
    proof {
        assert(s == (s & 0xffffffffffffffff) + 0x10000000000000000 * (s >> 64) && (s >> 64) <= 1
            && (s & 0xffffffffffffffff) < 0x10000000000000000) by (bit_vector)
            requires
                s < 0x20000000000000000,
        ;
    }
    (lo, hi)
}

/// One limb subtraction with borrow: `a - b - c` as a limb and a new
/// borrow.
fn sub_limb(a: u64, b: u64, c: u64) -> (r: (u64, u64))
    requires
        c <= 1,
    ensures
        a - b - c == r.0 - 0x10000000000000000 * r.1,
        r.1 <= 1,
{
    let t: u128 = 0x10000000000000000u128 + a as u128 - b as u128 - c as u128;
    let lo = (t & 0xffffffffffffffff) as u64;
    let hi = (t >> 64) as u64;
    proof {
        assert(t == (t & 0xffffffffffffffff) + 0x10000000000000000 * (t >> 64) && (t >> 64) <= 1
            && (t & 0xffffffffffffffff) < 0x10000000000000000) by (bit_vector)
            requires
                t < 0x20000000000000000,
        ;
    }
    (lo, 1 - hi)
}

/// Add two six-limb numbers whose sum stays below 2^384.
fn add6(a: &[u64; 6], b: &[u64; 6]) -> (r: [u64; 6])
    requires
        limbs6_val(a@) + limbs6_val(b@)
            < 0x1000000000000000000000000000000000000000000000000000000000000000000000000000000000000000000000000int,
    ensures
        limbs6_val(r@) == limbs6_val(a@) + limbs6_val(b@),
{
    let (r0, c0) = add_limb(a[0], b[0], 0);
    let (r1, c1) = add_limb(a[1], b[1], c0);
    let (r2, c2) = add_limb(a[2], b[2], c1);
    let (r3, c3) = add_limb(a[3], b[3], c2);
    let (r4, c4) = add_limb(a[4], b[4], c3);
    let (r5, c5) = add_limb(a[5], b[5], c4);
    let r = [r0, r1, r2, r3, r4, r5];
    proof {
        crate::field::lemma_limbs6_val_bounds(r@);
        assert(limbs6_val(r@) + c5
            * 0x1000000000000000000000000000000000000000000000000000000000000000000000000000000000000000000000000int
            == limbs6_val(a@) + limbs6_val(b@));
    }
    r
}

/// Subtract a smaller six-limb number from a larger one.
fn sub6(a: &[u64; 6], b: &[u64; 6]) -> (r: [u64; 6])
    requires
        limbs6_val(b@) <= limbs6_val(a@),
    ensures
        limbs6_val(r@) == limbs6_val(a@) - limbs6_val(b@),
{
    let (r0, c0) = sub_limb(a[0], b[0], 0);
    let (r1, c1) = sub_limb(a[1], b[1], c0);
    let (r2, c2) = sub_limb(a[2], b[2], c1);
    let (r3, c3) = sub_limb(a[3], b[3], c2);
    let (r4, c4) = sub_limb(a[4], b[4], c3);
    let (r5, c5) = sub_limb(a[5], b[5], c4);
    let r = [r0, r1, r2, r3, r4, r5];
    proof {
        crate::field::lemma_limbs6_val_bounds(r@);
        assert(limbs6_val(r@) - c5
            * 0x1000000000000000000000000000000000000000000000000000000000000000000000000000000000000000000000000int
            == limbs6_val(a@) - limbs6_val(b@));
    }
    r
}

/// Whether `a`'s value is at least `b`'s, by comparing limbs from the
/// most significant end.
fn geq6(a: &[u64; 6], b: &[u64; 6]) -> (r: bool)
    ensures
        r == (limbs6_val(a@) >= limbs6_val(b@)),
{
    let mut i: usize = 6;
    loop
        invariant
            0 <= i <= 6,
            forall|j: int| i <= j < 6 ==> a@[j] == b@[j],
        decreases i,
    {
        if i == 0 {
            proof {
                assert(a@ =~= b@);
            }
            return true;
        }
        i = i - 1;
        if a[i] > b[i] {
            proof {
                crate::field::lemma_limbs6_lt(b@, a@, i as int);
            }
            return true;
        }
        if a[i] < b[i] {
            proof {
                crate::field::lemma_limbs6_lt(a@, b@, i as int);
            }
            return false;
        }
    }
}

/// Addition in the base field: add, then subtract the modulus once if
/// needed.
pub fn fq_add(a: &Fq, b: &Fq) -> (r: Fq)
    requires
        a.wf(),
        b.wf(),
    ensures
        r.wf(),
        r@ == (a@ + b@) % fq_modulus(),
{
    let p = p_limbs();
    let s = add6(&a.limbs, &b.limbs);
    if geq6(&s, &p) {
        let d = sub6(&s, &p);
        proof {
            vstd::arithmetic::div_mod::lemma_mod_multiples_vanish(1, limbs6_val(d@), fq_modulus());
            vstd::arithmetic::div_mod::lemma_small_mod(
                limbs6_val(d@) as nat,
                fq_modulus() as nat,
            );
        }
        Fq { limbs: d }
    } else {
        proof {
            vstd::arithmetic::div_mod::lemma_small_mod(
                limbs6_val(s@) as nat,
                fq_modulus() as nat,
            );
        }
        Fq { limbs: s }
    }
}

/// Subtraction in the base field.
pub fn fq_sub(a: &Fq, b: &Fq) -> (r: Fq)
    requires
        a.wf(),
        b.wf(),
    ensures
        r.wf(),
        r@ == (a@ - b@) % fq_modulus(),
{
    let p = p_limbs();
    if geq6(&a.limbs, &b.limbs) {
        let d = sub6(&a.limbs, &b.limbs);
        proof {
            vstd::arithmetic::div_mod::lemma_small_mod(
                limbs6_val(d@) as nat,
                fq_modulus() as nat,
            );
        }
        Fq { limbs: d }
    } else {
        let s = add6(&a.limbs, &p);
        let d = sub6(&s, &b.limbs);
        proof {
            vstd::arithmetic::div_mod::lemma_mod_multiples_vanish(1, a@ - b@, fq_modulus());
            vstd::arithmetic::div_mod::lemma_small_mod(
                limbs6_val(d@) as nat,
                fq_modulus() as nat,
            );
        }
        Fq { limbs: d }
    }
}

/// Multiplication in the base field, by binary double-and-add over the
/// bits of the second factor, least significant first: only modular
/// additions are needed.
pub fn fq_mul(a: &Fq, b: &Fq) -> (r: Fq)
    requires
        a.wf(),
        b.wf(),
    ensures
        r.wf(),
        r@ == (a@ * b@) % fq_modulus(),
{
    let mut acc = Fq { limbs: [0, 0, 0, 0, 0, 0] };
    let mut apow = *a;
    let ghost mut consumed: int = 0;
    let ghost mut weight: int = 1;
    proof {
        vstd::arithmetic::div_mod::lemma_small_mod(0nat, fq_modulus() as nat);
        vstd::arithmetic::div_mod::lemma_small_mod(a@ as nat, fq_modulus() as nat);
        assert(a@ * consumed == 0) by (nonlinear_arith)
            requires
                consumed == 0,
        ;
        lemma_limb_tail_full(b.limbs@);
    }
    let mut i: usize = 0;
    while i < 6
        invariant
            0 <= i <= 6,
            a.wf(),
            b.wf(),
            acc.wf(),
            apow.wf(),
            weight > 0,
            acc@ == (a@ * consumed) % fq_modulus(),
            apow@ == (a@ * weight) % fq_modulus(),
            consumed + weight * limb_tail_val(b.limbs@, i as int) == b@,
        decreases 6 - i,
    {
        let mut t: u64 = b.limbs[i];
        let ghost tail = limb_tail_val(b.limbs@, i + 1);
        proof {
            lemma_limb_tail_nonneg(b.limbs@, i + 1);
            assert(limb_tail_val(b.limbs@, i as int) == b.limbs@[i as int] + 0x10000000000000000
                * limb_tail_val(b.limbs@, i + 1));
            lemma_pow2_of_64();
            assert(consumed + weight * (t + pow2_of(64) * tail) == b@) by (nonlinear_arith)
                requires
                    consumed + weight * (t + 0x10000000000000000 * tail) == b@,
                    pow2_of(64) == 0x10000000000000000,
            ;
        }
        let mut j: usize = 0;
        while j < 64
            invariant
                0 <= j <= 64,
                i < 6,
                a.wf(),
                b.wf(),
                acc.wf(),
                apow.wf(),
                weight > 0,
                tail == limb_tail_val(b.limbs@, i + 1),
                tail >= 0,
                acc@ == (a@ * consumed) % fq_modulus(),
                apow@ == (a@ * weight) % fq_modulus(),
                consumed + weight * (t + pow2_of(64 - j) * tail) == b@,
                t < pow2_of(64 - j),
            decreases 64 - j,
        {
            let bit = t & 1;
            let t2 = t >> 1;
            let ghost old_consumed = consumed;
            let ghost old_weight = weight;
            let ghost pw = pow2_of(63 - j);
            proof {
                assert(t == 2 * (t >> 1) + (t & 1) && (t & 1) <= 1) by (bit_vector);
                lemma_pow2_of_step(63 - j);
                assert(old_weight * (2 * t2 + bit + (2 * pw) * tail) == bit * old_weight + (2
                    * old_weight) * (t2 + pw * tail)) by (nonlinear_arith);
                assert(t + pow2_of(64 - j) * tail == 2 * t2 + bit + (2 * pw) * tail);
                assert(old_consumed + bit * old_weight + (2 * old_weight) * (t2 + pw * tail)
                    == b@);
            }
            if bit == 1 {
                let acc2 = fq_add(&acc, &apow);
                proof {
                    lemma_mul_step_add(a@, consumed, weight, acc@, apow@);
                    consumed = consumed + weight;
                }
                acc = acc2;
            }
            let apow2 = fq_add(&apow, &apow);
            proof {
                lemma_mul_step_double(a@, weight, apow@);
                weight = weight * 2;
                assert(consumed + weight * (t2 + pw * tail) == b@) by (nonlinear_arith)
                    requires
                        old_consumed + bit * old_weight + (2 * old_weight) * (t2 + pw * tail)
                            == b@,
                        consumed == old_consumed + (if bit == 1 {
                            old_weight
                        } else {
                            0int
                        }),
                        weight == old_weight * 2,
                        bit == 0 || bit == 1,
                ;
                assert(t2 < pow2_of(63 - j)) by (nonlinear_arith)
                    requires
                        t < pow2_of(64 - j),
                        t == 2 * t2 + bit,
                        bit == 0 || bit == 1,
                        pow2_of(64 - j) == 2 * pow2_of(63 - j),
                ;
            }
            apow = apow2;
            t = t2;
            j = j + 1;
        }
        proof {
            assert(pow2_of(0) == 1);
            assert(t == 0);
            assert(consumed + weight * limb_tail_val(b.limbs@, i + 1) == b@) by (nonlinear_arith)
                requires
                    consumed + weight * (t + pow2_of(0) * tail) == b@,
                    t == 0,
                    pow2_of(0) == 1,
                    tail == limb_tail_val(b.limbs@, i + 1),
            ;
        }
        i = i + 1;
    }
    proof {
        assert(limb_tail_val(b.limbs@, 6) == 0);
        assert(acc@ == (a@ * b@) % fq_modulus()) by (nonlinear_arith)
            requires
                acc@ == (a@ * consumed) % fq_modulus(),
                consumed + weight * limb_tail_val(b.limbs@, 6) == b@,
                limb_tail_val(b.limbs@, 6) == 0,
        ;
    }
    acc
}

/// Tail values are sums of limbs, hence nonnegative.
proof fn lemma_limb_tail_nonneg(l: Seq<u64>, i: int)
    requires
        l.len() == 6,
    ensures
        limb_tail_val(l, i) >= 0,
    decreases 6 - i,
{
    if 0 <= i < 6 {
        lemma_limb_tail_nonneg(l, i + 1);
    }
}

/// The whole value is the tail from position zero.
proof fn lemma_limb_tail_full(l: Seq<u64>)
    requires
        l.len() == 6,
    ensures
        limb_tail_val(l, 0) == limbs6_val(l),
{
    reveal_with_fuel(limb_tail_val, 8);
}

/// 2^64, by unfolding.
proof fn lemma_pow2_of_64()
    ensures
        pow2_of(64) == 0x10000000000000000,
{
    reveal_with_fuel(pow2_of, 66);
}

/// The value of the limbs from position `i` upward.
pub open spec fn limb_tail_val(l: Seq<u64>, i: int) -> int
    decreases 6 - i,
{
    if i < 0 || i >= 6 {
        0
    } else {
        l[i] + 0x10000000000000000 * limb_tail_val(l, i + 1)
    }
}

/// Two to the power `n`.
pub open spec fn pow2_of(n: int) -> int
    decreases n,
{
    if n <= 0 {
        1
    } else {
        2 * pow2_of(n - 1)
    }
}

proof fn lemma_pow2_of_step(n: int)
    requires
        n >= 0,
    ensures
        pow2_of(n + 1) == 2 * pow2_of(n),
{
}

/// Adding the current power into the accumulator tracks one more bit of
/// the factor.
proof fn lemma_mul_step_add(a: int, consumed: int, weight: int, acc: int, apow: int)
    requires
        0 < fq_modulus(),
        acc == (a * consumed) % fq_modulus(),
        apow == (a * weight) % fq_modulus(),
    ensures
        (acc + apow) % fq_modulus() == (a * (consumed + weight)) % fq_modulus(),
{
    let p = fq_modulus();
    vstd::arithmetic::div_mod::lemma_add_mod_noop(a * consumed, a * weight, p);
    assert(a * consumed + a * weight == a * (consumed + weight)) by (nonlinear_arith);
}

/// Doubling the current power moves to the next bit position.
proof fn lemma_mul_step_double(a: int, weight: int, apow: int)
    requires
        0 < fq_modulus(),
        apow == (a * weight) % fq_modulus(),
    ensures
        (apow + apow) % fq_modulus() == (a * (weight * 2)) % fq_modulus(),
{
    let p = fq_modulus();
    vstd::arithmetic::div_mod::lemma_add_mod_noop(a * weight, a * weight, p);
    assert(a * weight + a * weight == a * (weight * 2)) by (nonlinear_arith);
}

} // verus!
