use dc_algebra::dc::fp::{as_limbs, Fp};
use dc_algebra::dc::wire::OutOfRange;
use dc_algebra::dc::hex::lower_hex;
use std::cmp::Ordering;

const P: u128 = (1 << 127) - 1;

fn fp(x: u128) -> Fp {
    assert!(x <= P);
    Fp::from_u127(x)
}

/// Values that sit at the edges of the representation.
fn samples() -> Vec<u128> {
    vec![
        0,
        1,
        2,
        5,
        17,
        291298091,
        (1 << 63) - 1,
        1 << 63,
        (1 << 64) - 1,
        1 << 64,
        (1 << 64) + 1,
        (1 << 126) - 1,
        1 << 126,
        14766549069271113692204649107775507741,
        75661398932549814984099328258351945610,
        153613967287097206589234951623852979690,
        154440289138086217180118920884960981429,
        P - 2,
        P - 1,
        P,
    ]
}

/// `a * b mod P` by doubling, with no product wider than 128 bits.
fn mul_mod(a: u128, b: u128) -> u128 {
    let mut acc: u128 = 0;
    let mut base = a % P;
    let mut k = b;
    while k > 0 {
        if k & 1 == 1 {
            acc = (acc + base) % P;
        }
        base = (base + base) % P;
        k >>= 1;
    }
    acc
}

#[test]
fn neg() {
    assert_eq!(-fp(0), fp(0));
    assert_eq!(-fp(5), fp(P - 5));
}

#[test]
fn add() {
    assert_eq!(fp(7) + fp(5), fp(12));
    assert_eq!(fp(P - 2) + fp(5), fp(3));
    assert_eq!(
        fp(75661398932549814984099328258351945610) + fp(154440289138086217180118920884960981429),
        fp(59960504610166800432530945427428821312)
    );
}

#[test]
fn sub() {
    assert_eq!(fp(7) - fp(5), fp(2));
    assert_eq!(fp(4) - fp(8), fp(P - 4));
}

#[test]
fn mul() {
    assert_eq!(fp(4) * fp(3), fp(12));
    assert_eq!(fp(P) * fp(291298091), fp(0));
    assert_eq!(
        fp(14766549069271113692204649107775507741) * fp(153613967287097206589234951623852979690),
        fp(113548737858505840193892055835373785352)
    );
    // Two reductions are necessary for the following example.
    assert_eq!(
        fp(75661398932549814984099328258351945610) * fp(154440289138086217180118920884960981429),
        fp(109146875586984049909139102289297416971)
    );
}

#[test]
fn eq() {
    assert_eq!(fp(0), fp(P));
    assert!(fp(17) != fp(4));
    assert!(fp(0) != fp(4));
    assert!(fp(P) != fp(17));
}

#[test]
fn ord() {
    assert!(fp(0) < fp(1));
    assert!(fp(17) > fp(0));
    assert!(fp(P) < fp(1));
    assert!(fp(23) > fp(P));
}

#[test]
fn assign() {
    let mut a = fp(17);

    a += fp(3);
    assert_eq!(a, fp(20));

    a -= fp(5);
    assert_eq!(a, fp(15));

    a *= fp(2);
    assert_eq!(a, fp(30));
}

#[test]
fn prime_is_two_to_the_127_minus_one() {
    assert_eq!(Fp::prime(), 170141183460469231731687303715884105727);
    assert_eq!(Fp::prime(), P);
}

#[test]
fn canonical_integer_of_both_zeros_is_zero() {
    assert_eq!(u128::from(fp(0)), 0);
    assert_eq!(u128::from(fp(P)), 0);
    assert_eq!(u128::from(fp(P - 1)), P - 1);
    assert_eq!(u128::from(fp(23)), 23);
}

#[test]
fn zero_has_two_representations() {
    let a = fp(P);
    let b = fp(0);
    assert!(a == b);
    assert_ne!(format!("{:?}", a), format!("{:?}", b));
    assert_eq!(format!("{:?}", b), "Fp(0)");
    assert_eq!(format!("{:?}", a), format!("Fp({})", P));
}

#[test]
fn default_is_zero() {
    assert_eq!(Fp::default(), fp(0));
    assert_eq!(format!("{:?}", Fp::default()), "Fp(0)");
}

#[test]
fn discard_msb_keeps_the_low_127_bits() {
    assert_eq!(Fp::from_u128_discard_msb(5), fp(5));
    assert_eq!(Fp::from_u128_discard_msb((1 << 127) | 5), fp(5));
    assert_eq!(Fp::from_u128_discard_msb(1 << 127), fp(0));
    assert_eq!(format!("{:?}", Fp::from_u128_discard_msb(1 << 127)), "Fp(0)");
    // Both all-ones inputs land on the second representation of zero.
    assert_eq!(Fp::from_u128_discard_msb(u128::MAX), fp(0));
    assert_eq!(format!("{:?}", Fp::from_u128_discard_msb(u128::MAX)), format!("Fp({})", P));
    assert_eq!(format!("{:?}", Fp::from_u128_discard_msb(P)), format!("Fp({})", P));
    for x in samples() {
        assert_eq!(u128::from(Fp::from_u128_discard_msb(x | (1 << 127))), u128::from(fp(x)));
    }
}

#[test]
fn limbs_of_a_word() {
    assert_eq!(as_limbs(0), (0, 0));
    assert_eq!(as_limbs(1), (0, 1));
    assert_eq!(as_limbs(1 << 64), (1, 0));
    assert_eq!(as_limbs((7 << 64) | 9), (7, 9));
    assert_eq!(as_limbs(u128::MAX), (u64::MAX, u64::MAX));
    assert_eq!(as_limbs(P), ((1 << 63) - 1, u64::MAX));
}

#[test]
fn negation_is_p_minus_the_representative() {
    // Zero stored as 0 negates to zero stored as P, and back.
    assert_eq!(format!("{:?}", -fp(0)), format!("Fp({})", P));
    assert_eq!(format!("{:?}", -fp(P)), "Fp(0)");
    assert_eq!(format!("{:?}", -fp(1)), format!("Fp({})", P - 1));
}

#[test]
fn negating_twice_gives_the_element_back() {
    for x in samples() {
        let a = fp(x);
        assert_eq!(-(-a), a);
        assert_eq!(format!("{:?}", -(-a)), format!("{:?}", a));
    }
}

#[test]
fn element_plus_its_negation_is_zero() {
    for x in samples() {
        let a = fp(x);
        assert_eq!(u128::from(a + (-a)), 0);
        assert_eq!(u128::from((-a) + a), 0);
    }
}

#[test]
fn element_minus_itself_is_zero() {
    for x in samples() {
        let a = fp(x);
        assert_eq!(u128::from(a - a), 0);
    }
}

#[test]
fn addition_is_addition_modulo_p() {
    for x in samples() {
        for y in samples() {
            let expected = ((x % P) + (y % P)) % P;
            assert_eq!(u128::from(fp(x) + fp(y)), expected);
        }
    }
}

#[test]
fn subtraction_is_subtraction_modulo_p() {
    for x in samples() {
        for y in samples() {
            let expected = ((x % P) + P - (y % P)) % P;
            assert_eq!(u128::from(fp(x) - fp(y)), expected);
        }
    }
}

#[test]
fn multiplication_is_multiplication_modulo_p() {
    for x in samples() {
        for y in samples() {
            assert_eq!(u128::from(fp(x) * fp(y)), mul_mod(x, y));
        }
    }
}

#[test]
fn modulus_times_anything_is_zero() {
    for x in samples() {
        assert_eq!(u128::from(fp(P) * fp(x)), 0);
        assert_eq!(u128::from(fp(x) * fp(P)), 0);
    }
}

#[test]
fn largest_operands_multiply_within_range() {
    // (P - 1)^2 = 1 modulo P, and P^2 = 0.
    assert_eq!(u128::from(fp(P - 1) * fp(P - 1)), 1);
    assert_eq!(u128::from(fp(P) * fp(P)), 0);
    assert_eq!(u128::from(fp(P - 1) * fp(P)), 0);
    assert_eq!(u128::from(fp(P - 1) * fp(2)), P - 2);
    assert_eq!(u128::from(fp(1 << 126) * fp(2)), 1);
    assert_eq!(u128::from(fp(1 << 64) * fp(1 << 63)), 1);
}

#[test]
fn addition_near_the_modulus() {
    assert_eq!(u128::from(fp(P - 2) + fp(5)), 3);
    assert_eq!(u128::from(fp(P) + fp(P)), 0);
    assert_eq!(u128::from(fp(P - 1) + fp(1)), 0);
    // The sum P comes out as the second representation of zero.
    assert_eq!(format!("{:?}", fp(P - 1) + fp(1)), format!("Fp({})", P));
    assert_eq!(format!("{:?}", fp(P) + fp(P)), format!("Fp({})", P));
    assert_eq!(format!("{:?}", fp(P) + fp(1)), "Fp(1)");
}

#[test]
fn comparison_is_by_canonical_value() {
    assert_eq!(fp(23).cmp(&fp(P)), Ordering::Greater);
    assert_eq!(fp(P).cmp(&fp(23)), Ordering::Less);
    assert_eq!(fp(P).cmp(&fp(0)), Ordering::Equal);
    assert_eq!(fp(0).cmp(&fp(P)), Ordering::Equal);
    assert_eq!(fp(17).cmp(&fp(17)), Ordering::Equal);
    assert_eq!(fp(P - 1).cmp(&fp(P)), Ordering::Greater);
    assert_eq!(fp(23).partial_cmp(&fp(P)), Some(Ordering::Greater));
    assert_eq!(fp(P).partial_cmp(&fp(0)), Some(Ordering::Equal));
    assert_eq!(fp(1).partial_cmp(&fp(2)), Some(Ordering::Less));
    assert!(fp(P) <= fp(0));
    assert!(fp(P) >= fp(0));
    assert!(!(fp(P) > fp(0)));
}

#[test]
fn copies_are_equal() {
    let a = fp(99);
    let b = a;
    let c = a.clone();
    assert_eq!(a, b);
    assert_eq!(a, c);
}

#[test]
fn canonical_integers_survive_the_wire() {
    for x in samples() {
        if x < P {
            let a = Fp::deserialize(x).unwrap();
            assert_eq!(a.serialize(), x);
            assert_eq!(a, fp(x));
        }
    }
}

#[test]
fn elements_survive_the_wire() {
    for x in samples() {
        let a = fp(x);
        let wire = a.serialize();
        assert!(wire < P);
        assert_eq!(Fp::deserialize(wire), Ok(a));
    }
    assert_eq!(fp(P).serialize(), 0);
    assert_eq!(fp(0).serialize(), 0);
    assert_eq!(fp(P - 1).serialize(), P - 1);
}

#[test]
fn integers_from_the_modulus_up_are_refused() {
    assert_eq!(Fp::deserialize(P), Err(OutOfRange { value: P }));
    assert_eq!(Fp::deserialize(P + 1), Err(OutOfRange { value: P + 1 }));
    assert_eq!(Fp::deserialize(1 << 127), Err(OutOfRange { value: 1 << 127 }));
    assert_eq!(Fp::deserialize(u128::MAX), Err(OutOfRange { value: u128::MAX }));
    assert!(Fp::deserialize(P - 1).is_ok());
    assert!(Fp::deserialize(0).is_ok());
}

#[test]
fn refusal_names_the_integer_and_the_range() {
    let e = Fp::deserialize(P).unwrap_err();
    assert_eq!(e.value, P);
    assert_eq!(
        e.unexpected(),
        "the u128 with value 7fffffffffffffffffffffffffffffff >= 2**127 - 1"
    );
    let e = Fp::deserialize(u128::MAX).unwrap_err();
    assert_eq!(e.unexpected(), format!("the u128 with value {:x} >= 2**127 - 1", u128::MAX));
    assert_eq!(
        OutOfRange::expecting(),
        "a u128 x such that 0 <= x < p where p = 2**127 - 1"
    );
}

#[test]
fn hexadecimal_digits() {
    assert_eq!(lower_hex(0), "0");
    assert_eq!(lower_hex(9), "9");
    assert_eq!(lower_hex(10), "a");
    assert_eq!(lower_hex(15), "f");
    assert_eq!(lower_hex(16), "10");
    assert_eq!(lower_hex(255), "ff");
    assert_eq!(lower_hex(0x1a0), "1a0");
    assert_eq!(lower_hex(0x0123456789abcdef), "123456789abcdef");
    assert_eq!(lower_hex(u128::MAX), "ffffffffffffffffffffffffffffffff");
    for x in samples() {
        assert_eq!(lower_hex(x), format!("{:x}", x));
    }
}
