//! Tests of the hash-to-curve pipeline against the published vectors
//! for the standard domain-separation tag, plus the boundary and
//! invariant checks of the expansion and of the curve mappings.

use g2hash::curve::{
    from_coordinates_uncompressed, from_coordinates_unchecked, hash_to_curve_g2,
    hash_to_curve_g2_uncompressed, map_to_curve_g2,
};
use g2hash::field::{Fq, Fq2};
use g2hash::fq2ops::{fq2_add, fq2_mul};
use g2hash::g2ops::g2_mul_limbs;
use g2hash::hash::{expand_message_xmd, hash_to_field_fq2};
use g2hash::fq2ops::fq2_negate;
use g2hash::sswu::{sgn0, sswu};
use g2hash::HashToCurveError;
use sha2::Digest;

const DST: &[u8] = b"QUUX-V01-CS02-with-BLS12381G2_XMD:SHA-256_SSWU_RO_";

fn limbs_from_dec(s: &str) -> [u64; 6] {
    let mut l = [0u64; 6];
    for ch in s.bytes() {
        assert!(ch.is_ascii_digit());
        let mut carry: u128 = (ch - b'0') as u128;
        for limb in l.iter_mut() {
            let v = (*limb as u128) * 10 + carry;
            *limb = v as u64;
            carry = v >> 64;
        }
        assert_eq!(carry, 0);
    }
    l
}

fn fq_from_dec(s: &str) -> Fq {
    Fq::from_limbs(limbs_from_dec(s)).unwrap()
}

fn fq2_from_dec(c0: &str, c1: &str) -> Fq2 {
    Fq2 { c0: fq_from_dec(c0), c1: fq_from_dec(c1) }
}

#[test]
fn test_hash_to_field_fq2() {
    let dst = DST;

    {
        let msg = b"";
        let (u0, u1) = hash_to_field_fq2(msg, dst).unwrap();
        assert_eq!(
            u0,
            fq2_from_dec(
                "593868448310005448561172252387029516360409945786457439875974315031640021389835649561235021338510064922970633805048",
                "867375309489067512797459860887365951877054038763818448057326190302701649888849997836339069389536967202878289851290",
            )
        );
        assert_eq!(
            u1,
            fq2_from_dec(
                "457889704519948843474026022562641969443315715595459159112874498082953431971323809145630315884223143822925947137684",
                "3132697209754082586339430915081913810572071485832539443682634025529375380328136128542015469873094481703191673087029",
            )
        );
    }

    {
        let msg = b"abc";
        let (u0, u1) = hash_to_field_fq2(msg, dst).unwrap();
        assert_eq!(
            u0,
            fq2_from_dec(
                "3381151350286428005095780827831774583653641216459357823974407145557165174365389989442078766443621078367363453769585",
                "274174695370444263853418070745339731640467919355184108253716879519695397069963034977795744692362177212201505728989",
            )
        );
        assert_eq!(
            u1,
            fq2_from_dec(
                "3761918608077574755256083960277010506684793456226386707192711779006489497410866269311252402421709839991039401264868",
                "1342131492846344403298252211066711749849099599627623100864413228392326132610002371925674088601653350525231531947366",
            )
        );
    }
}

#[test]
fn test_hash_to_curve_g2() {
    let dst = DST;

    let p_x = fq2_from_dec(
        "193548053368451749411421515628510806626565736652086807419354395577367693778571452628423727082668900187036482254730",
        "891930009643099423308102777951250899694559203647724988361022851024990473423938537113948850338098230396747396259901",
    );
    let p_y = fq2_from_dec(
        "771717272055834152378281705972671257005357145478800908373659404991537354153455452961747174765859335819766715637138",
        "2810310118582126634041133454180705304393079139103252956502404531123692847658283858246402311867775854528543237781718",
    );
    let one = Fq2::one();
    let p_should_be = from_coordinates_unchecked(&p_x, &p_y, &one).unwrap();
    let q0_x = fq2_from_dec(
        "247000889425909073323253760662594248478519539052718751429094202182751397921429811614953873291195197910072700650892",
        "3557179370195599083109501581838000826052321867195478666908439992121263526125384222649169667449608345548902519938077",
    );
    let q0_y = fq2_from_dec(
        "1789866621042807238102907475382506332034840965291028464945081245097279248221497616806901995510849528127582528143091",
        "2261920060396917200558995605865363952988463533408187402812091326590595155556733986360256617149524560595567798206730",
    );
    let q0_should_be = from_coordinates_unchecked(&q0_x, &q0_y, &one).unwrap();
    let q1_x = fq2_from_dec(
        "2653316741049867356846339142779301820246227038474367602164293991028731662252487887055483099994673757855056102033598",
        "3004540012464469496149443751502035824386563338581531881619960946487251912156763500062348703680303970725657264924210",
    );
    let q1_y = fq2_from_dec(
        "2436093761503339277710533452184041720241350573820092656898129088132931367043020801076222585008031239228777997258186",
        "836535538336124528574557550904612322806859485510882466665227695209180661987073534533776044142505491651567017359628",
    );
    let q1_should_be = from_coordinates_unchecked(&q1_x, &q1_y, &one).unwrap();

    let msg = b"";
    let (u0, u1) = hash_to_field_fq2(msg, dst).unwrap();

    let q0 = map_to_curve_g2(&u0).unwrap();
    assert_eq!(q0, q0_should_be);
    let q1 = map_to_curve_g2(&u1).unwrap();
    assert_eq!(q1, q1_should_be);

    let p = hash_to_curve_g2(msg, dst).unwrap();
    let p_bytes = from_coordinates_uncompressed(&p.x, &p.y, &p.z).unwrap();
    let p_should_be_bytes = from_coordinates_uncompressed(
        &p_should_be.x,
        &p_should_be.y,
        &p_should_be.z,
    )
    .unwrap();

    println!("P computed:  {:#x?}", p_bytes);
    println!("P specified: {:#x?}", p_should_be_bytes);

    assert_eq!(p_bytes, p_should_be_bytes);
}

#[test]
fn expansion_is_always_256_bytes() {
    assert_eq!(expand_message_xmd(b"", DST).unwrap().len(), 256);
    assert_eq!(expand_message_xmd(b"abc", DST).unwrap().len(), 256);
    let long = vec![0xa5u8; 10_000];
    assert_eq!(expand_message_xmd(&long, DST).unwrap().len(), 256);
}

#[test]
fn dst_boundary() {
    let dst_255 = vec![0x41u8; 255];
    let dst_256 = vec![0x41u8; 256];
    assert!(expand_message_xmd(b"msg", &dst_255).is_ok());
    assert_eq!(
        expand_message_xmd(b"msg", &dst_256).unwrap_err(),
        HashToCurveError::DstTooLong
    );
    assert!(hash_to_field_fq2(b"msg", &dst_255).is_ok());
    assert_eq!(
        hash_to_field_fq2(b"msg", &dst_256).unwrap_err(),
        HashToCurveError::DstTooLong
    );
    assert!(hash_to_curve_g2(b"msg", &dst_255).is_ok());
    assert_eq!(
        hash_to_curve_g2(b"msg", &dst_256).unwrap_err(),
        HashToCurveError::DstTooLong
    );
}

#[test]
fn hashing_is_deterministic() {
    let a = hash_to_curve_g2_uncompressed(b"determinism", DST).unwrap();
    let b = hash_to_curve_g2_uncompressed(b"determinism", DST).unwrap();
    assert_eq!(a, b);
    let p = hash_to_curve_g2(b"determinism", DST).unwrap();
    let q = hash_to_curve_g2(b"determinism", DST).unwrap();
    assert_eq!(p, q);
}

#[test]
fn result_is_in_the_prime_order_subgroup() {
    // Multiplying the hashed point by the group order must give the
    // point at infinity, whose canonical encoding is the flag byte
    // followed by zeros.
    let group_order: [u64; 4] = [
        0xffffffff00000001,
        0x53bda402fffe5bfe,
        0x3339d80809a1d805,
        0x73eda753299d7d48,
    ];
    for msg in [&b""[..], &b"abc"[..], &b"subgroup check"[..]] {
        let p = hash_to_curve_g2(msg, DST).unwrap();
        let m = g2_mul_limbs(&p, &group_order);
        let enc = from_coordinates_uncompressed(&m.x, &m.y, &m.z).unwrap();
        assert_eq!(enc[0], 0x40);
        assert!(enc[1..].iter().all(|&b| b == 0));
    }
}

#[test]
fn sswu_output_is_on_the_auxiliary_curve() {
    // y^2 == x^3 + A x + B on E', with A = 240 i and B = 1012 + 1012 i.
    let a = Fq2 { c0: Fq::zero(), c1: Fq::from_limbs([240, 0, 0, 0, 0, 0]).unwrap() };
    let b = Fq2 {
        c0: Fq::from_limbs([1012, 0, 0, 0, 0, 0]).unwrap(),
        c1: Fq::from_limbs([1012, 0, 0, 0, 0, 0]).unwrap(),
    };
    for msg in [&b""[..], &b"abc"[..], &b"sswu"[..]] {
        let (u0, u1) = hash_to_field_fq2(msg, DST).unwrap();
        for u in [u0, u1] {
            let (x, y) = sswu(&u).unwrap();
            let y2 = fq2_mul(&y, &y);
            let x3axb = fq2_add(&fq2_mul(&fq2_add(&fq2_mul(&x, &x), &a), &x), &b);
            assert_eq!(y2, x3axb);
        }
    }
}

#[test]
fn mapped_point_is_on_the_target_curve() {
    // The affine isogeny image satisfies y^2 == x^3 + 4 (1 + i) on E.
    let b = Fq2 {
        c0: Fq::from_limbs([4, 0, 0, 0, 0, 0]).unwrap(),
        c1: Fq::from_limbs([4, 0, 0, 0, 0, 0]).unwrap(),
    };
    for msg in [&b""[..], &b"abc"[..], &b"target curve"[..]] {
        let (u0, _) = hash_to_field_fq2(msg, DST).unwrap();
        let q = map_to_curve_g2(&u0).unwrap();
        let y2 = fq2_mul(&q.y, &q.y);
        let x3b = fq2_add(&fq2_mul(&fq2_mul(&q.x, &q.x), &q.x), &b);
        assert_eq!(y2, x3b);
    }
}

#[test]
fn sgn0_makes_a_definite_sign_choice() {
    // Always 0 or 1, and never the same for an element and its
    // negation unless the element is its own negation.
    let samples = [
        fq2_from_dec("5", "7"),
        fq2_from_dec("12", "0"),
        fq2_from_dec("0", "2"),
        fq2_from_dec(
            "893868448310005448561172252387029516360409945786457439875974315031640021389835649561235021338510064922970633805048",
            "867375309489067512797459860887365951877054038763818448057326190302701649888849997836339069389536967202878289851290",
        ),
    ];
    for y in samples {
        let s = sgn0(&y);
        assert!(s == 0 || s == 1);
        let n = fq2_negate(&y);
        assert_ne!(sgn0(&y), sgn0(&n));
    }
    // Zero is its own negation and keeps its sign.
    let z = fq2_from_dec("0", "0");
    assert_eq!(sgn0(&z), sgn0(&fq2_negate(&z)));
}

#[test]
fn expansion_blocks_come_from_sha256() {
    // Recompute the first output block with the hash directly: the
    // expansion's first 32 bytes are H(b_0 || 1 || DST').
    let msg = b"block check";
    let mut dst_prime = DST.to_vec();
    dst_prime.push(DST.len() as u8);
    let mut h = sha2::Sha256::new();
    h.update([0u8; 64]);
    h.update(msg);
    h.update([1u8, 0u8, 0u8]);
    h.update(&dst_prime);
    let b0 = h.finalize();
    let mut h = sha2::Sha256::new();
    h.update(b0);
    h.update([1u8]);
    h.update(&dst_prime);
    let b1 = h.finalize();
    let e = expand_message_xmd(msg, DST).unwrap();
    assert_eq!(&e[0..32], b1.as_slice());
}
