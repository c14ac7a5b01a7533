use starknet_crypto_py::curve::{beta_element, generator};
use starknet_crypto_py::ecdsa::{get_public_key, sign, verify};
use starknet_crypto_py::error::CryptoError;
use starknet_crypto_py::field::FieldElement;
use starknet_crypto_py::pedersen::pedersen_hash;
use starknet_crypto_py::poseidon::{poseidon_hash, poseidon_hash_many, poseidon_hash_single};

fn hex_digit(c: u8) -> u8 {
    match c {
        b'0'..=b'9' => c - b'0',
        b'a'..=b'f' => c - b'a' + 10,
        b'A'..=b'F' => c - b'A' + 10,
        _ => panic!("not a hex digit"),
    }
}

fn felt_from_be_hex(s: &str) -> FieldElement {
    let digits: Vec<u8> = s.trim_start_matches("0x").bytes().map(hex_digit).collect();
    assert!(digits.len() <= 64);
    let mut bytes = [0u8; 32];
    for (i, d) in digits.iter().rev().enumerate() {
        bytes[i / 2] |= d << ((i % 2) * 4);
    }
    FieldElement::from_bytes_le(bytes).unwrap()
}

fn felt(x: u8) -> FieldElement {
    FieldElement::from_byte(x)
}

const MODULUS_LE: [u8; 32] = [
    1, 0, 0, 0, 0, 0, 0, 0, 0, 0, 0, 0, 0, 0, 0, 0, 0, 0, 0, 0, 0, 0, 0, 0, 0x11, 0, 0, 0, 0, 0,
    0, 0x08,
];

const ORDER_LE: [u8; 32] = [
    0x2f, 0x4d, 0xc6, 0xad, 0x41, 0xa2, 0x66, 0x1e, 0x32, 0xb2, 0xe7, 0xca, 0x6d, 0x12, 0x81,
    0xb7, 0xff, 0xff, 0xff, 0xff, 0xff, 0xff, 0xff, 0xff, 0x10, 0, 0, 0, 0, 0, 0, 0x08,
];

#[test]
fn strict_constructor_accepts_canonical_and_rejects_large() {
    assert_eq!(FieldElement::from_bytes_le([0u8; 32]).unwrap(), felt(0));
    let two = {
        let mut b = [0u8; 32];
        b[0] = 2;
        b
    };
    assert_eq!(FieldElement::from_bytes_le(two).unwrap(), felt(2));
    assert_eq!(
        FieldElement::from_bytes_le(MODULUS_LE),
        Err(CryptoError::OutOfRange)
    );
    assert_eq!(
        FieldElement::from_bytes_le([0xff; 32]),
        Err(CryptoError::OutOfRange)
    );
}

#[test]
fn reduce_constructor_wraps_modulo_p() {
    assert_eq!(FieldElement::from_bytes_le_reduced(&vec![]), felt(0));
    assert_eq!(
        FieldElement::from_bytes_le_reduced(&MODULUS_LE.to_vec()),
        felt(0)
    );
    let mut p_plus_one = MODULUS_LE.to_vec();
    p_plus_one[0] = 2;
    assert_eq!(FieldElement::from_bytes_le_reduced(&p_plus_one), felt(1));
    let mut long = vec![0u8; 40];
    long[0] = 9;
    assert_eq!(FieldElement::from_bytes_le_reduced(&long), felt(9));
}

#[test]
fn invert_zero_fails_with_division_by_zero() {
    assert_eq!(felt(0).invert(), Err(CryptoError::DivisionByZero));
}

#[test]
fn invert_cancels_under_multiplication() {
    let x = felt(5);
    assert_eq!(x.mul(&x.invert().unwrap()), felt(1));
    let y = felt_from_be_hex("0x03d937c035c878245caf64531a5756109c53068da139362728feb561405371cb");
    assert_eq!(y.mul(&y.invert().unwrap()), felt(1));
}

#[test]
fn field_arithmetic_basics() {
    assert_eq!(felt(3).add(&felt(4)), felt(7));
    assert_eq!(felt(5).mul(&felt(6)), felt(30));
    assert_eq!(felt(3).sub(&felt(5)).add(&felt(5)), felt(3));
    assert_eq!(felt(7).add(&felt(7).neg()), felt(0));
    let mut kilo = [0u8; 32];
    kilo[1] = 4;
    assert_eq!(
        felt(2).pow(&felt(10)),
        FieldElement::from_bytes_le(kilo).unwrap()
    );
}

#[test]
fn equality_and_zero_checks() {
    assert!(felt(0).is_zero());
    assert!(!felt(1).is_zero());
    assert!(felt(9).equals(&felt(9)));
    assert!(!felt(9).equals(&felt(8)));
}

#[test]
fn pedersen_known_vector_1() {
    let a = felt_from_be_hex("0x03d937c035c878245caf64531a5756109c53068da139362728feb561405371cb");
    let b = felt_from_be_hex("0x0208a0a10250e382e1e4bbe2880906c2791bf6275695e02fbbc6aeff9cd8b31a");
    let h = felt_from_be_hex("0x030e480bed5fe53fa909cc0f8c4d99b8f9f2c016be4c41e13a4848797979c662");
    assert_eq!(pedersen_hash(&a, &b), h);
}

#[test]
fn pedersen_known_vector_2() {
    let a = felt_from_be_hex("0x058f580910a6ca59b28927c08fe6c43e2e303ca384badc365795fc645d479d45");
    let b = felt_from_be_hex("0x078734f65a067be9bdb39de18434d71e79f7b6466a4b66bbd979ab9e7515fe0b");
    let h = felt_from_be_hex("0x068cc0b76cddd1dd4ed2301ada9b7c872b23875d5ff837b3a87993e0d9996b87");
    assert_eq!(pedersen_hash(&a, &b), h);
}

#[test]
fn pedersen_of_zero_zero_matches_published_constant() {
    let h = felt_from_be_hex("0x049ee3eba8c1600700ee1b87eb599f16716b0b1022947733551fde4050ca6804");
    assert_eq!(pedersen_hash(&felt(0), &felt(0)), h);
}

#[test]
fn pedersen_is_not_commutative_in_general() {
    assert_ne!(
        pedersen_hash(&felt(1), &felt(2)),
        pedersen_hash(&felt(2), &felt(1))
    );
}

#[test]
fn pedersen_is_deterministic() {
    let a = felt_from_be_hex("0x058f580910a6ca59b28927c08fe6c43e2e303ca384badc365795fc645d479d45");
    let b = felt(3);
    assert_eq!(pedersen_hash(&a, &b), pedersen_hash(&a, &b));
}

#[test]
fn poseidon_hash_known_vector() {
    let x = felt_from_be_hex("0xb662f9017fa7956fd70e26129b1833e10ad000fd37b4d9f4e0ce6884b7bbe");
    let y = felt_from_be_hex("0x1fe356bf76102cdae1bfbdc173602ead228b12904c00dad9cf16e035468bea");
    let h = felt_from_be_hex("0x75540825a6ecc5dc7d7c2f5f868164182742227f1367d66c43ee51ec7937a81");
    assert_eq!(poseidon_hash(&x, &y), h);
}

#[test]
fn poseidon_hash_single_known_vector() {
    let x = felt_from_be_hex("0x9dad5d6f502ccbcb6d34ede04f0337df3b98936aaf782f4cc07d147e3a4fd6");
    let h = felt_from_be_hex("0x11222854783f17f1c580ff64671bc3868de034c236f956216e8ed4ab7533455");
    assert_eq!(poseidon_hash_single(&x), h);
}

#[test]
fn poseidon_hash_many_three_elements_known_vector() {
    let inputs = vec![
        felt_from_be_hex("0x9bf52404586087391c5fbb42538692e7ca2149bac13c145ae4230a51a6fc47"),
        felt_from_be_hex("0x40304159ee9d2d611120fbd7c7fb8020cc8f7a599bfa108e0e085222b862c0"),
        felt_from_be_hex("0x46286e4f3c450761d960d6a151a9c0988f9e16f8a48d4c0a85817c009f806a"),
    ];
    let h = felt_from_be_hex("0x1ec38b38dc88bac7b0ed6ff6326f975a06a59ac601b417745fd412a5d38e4f7");
    assert_eq!(poseidon_hash_many(&inputs), h);
}

#[test]
fn poseidon_hash_many_four_elements_known_vector() {
    let inputs = vec![
        felt_from_be_hex("0xbdace8883922662601b2fd197bb660b081fcf383ede60725bd080d4b5f2fd3"),
        felt_from_be_hex("0x1eb1daaf3fdad326b959dec70ced23649cdf8786537cee0c5758a1a4229097"),
        felt_from_be_hex("0x869ca04071b779d6f940cdf33e62d51521e19223ab148ef571856ff3a44ff1"),
        felt_from_be_hex("0x533e6df8d7c4b634b1f27035c8676a7439c635e1fea356484de7f0de677930"),
    ];
    let h = felt_from_be_hex("0x2520b8f910174c3e650725baacad4efafaae7623c69a0b5513d75e500f36624");
    assert_eq!(poseidon_hash_many(&inputs), h);
}

#[test]
fn poseidon_hash_many_empty_is_defined_and_deterministic() {
    let first = poseidon_hash_many(&vec![]);
    let second = poseidon_hash_many(&vec![]);
    assert_eq!(first, second);
}

#[test]
fn poseidon_sponge_uses_its_own_padding_domain() {
    let x = felt_from_be_hex("0x9bf52404586087391c5fbb42538692e7ca2149bac13c145ae4230a51a6fc47");
    let y = felt_from_be_hex("0x40304159ee9d2d611120fbd7c7fb8020cc8f7a599bfa108e0e085222b862c0");
    assert_ne!(poseidon_hash_many(&vec![x, y]), poseidon_hash(&x, &y));
    assert_ne!(poseidon_hash_many(&vec![x]), poseidon_hash_single(&x));
}

#[test]
fn public_key_known_vector_1() {
    let d = felt_from_be_hex("0x03c1e9550e66958296d11b60f8e8e7a7ad990d07fa65d5f7652c4a6c87d4e3cc");
    let q = felt_from_be_hex("0x077a3b314db07c45076d11f62b6f9e748a39790441823307743cf00d6597ea43");
    assert_eq!(get_public_key(&d).unwrap(), q);
}

#[test]
fn public_key_known_vector_2() {
    let d = felt_from_be_hex("0x12");
    let q = felt_from_be_hex("0x019661066e96a8b9f06a1d136881ee924dfb6a885239caa5fd3f87a54c6b25c4");
    assert_eq!(get_public_key(&d).unwrap(), q);
}

#[test]
fn public_key_is_deterministic() {
    let d = felt_from_be_hex("0x03c1e9550e66958296d11b60f8e8e7a7ad990d07fa65d5f7652c4a6c87d4e3cc");
    assert_eq!(get_public_key(&d).unwrap(), get_public_key(&d).unwrap());
}

#[test]
fn public_key_rejects_zero_and_order() {
    assert_eq!(get_public_key(&felt(0)), Err(CryptoError::InvalidScalar));
    let n = FieldElement::from_bytes_le(ORDER_LE).unwrap();
    assert_eq!(get_public_key(&n), Err(CryptoError::InvalidScalar));
}

#[test]
fn verify_accepts_known_valid_signature() {
    let q = felt_from_be_hex("0x01ef15c18599971b7beced415a40f0c7deacfd9b0d1819e03d723d8bc943cfca");
    let m = felt_from_be_hex("0x02");
    let r = felt_from_be_hex("0x0411494b501a98abd8262b0da1351e17899a0c4ef23dd2f96fec5ba847310b20");
    let s = felt_from_be_hex("0x0405c3191ab3883ef2b763af35bc5f5d15b3b4e99461d70e84c654a351a7c81b");
    assert_eq!(verify(&q, &m, &r, &s), Ok(true));
}

#[test]
fn verify_rejects_known_invalid_signature() {
    let q = felt_from_be_hex("0x077a4b314db07c45076d11f62b6f9e748a39790441823307743cf00d6597ea43");
    let m = felt_from_be_hex("0x0397e76d1667c4454bfb83514e120583af836f8e32a516765497823eabe16a3f");
    let r = felt_from_be_hex("0x0173fd03d8b008ee7432977ac27d1e9d1a1f6c98b1a2f05fa84a21c84c44e882");
    let s = felt_from_be_hex("0x01f2c44a7798f55192f153b4c48ea5c1241fbb69e6132cc8a0da9c5b62a4286e");
    assert_eq!(verify(&q, &m, &r, &s), Ok(false));
}

#[test]
fn verify_rejects_public_key_off_the_curve() {
    let q = felt_from_be_hex("0x03ee9bffffffffff26ffffffff60ffffffffffffffffffffffffffff004accff");
    let m = felt_from_be_hex("0x02");
    let r = felt_from_be_hex("0x0411494b501a98abd8262b0da1351e17899a0c4ef23dd2f96fec5ba847310b20");
    let s = felt_from_be_hex("0x0405c3191ab3883ef2b763af35bc5f5d15b3b4e99461d70e84c654a351a7c81b");
    assert_eq!(verify(&q, &m, &r, &s), Err(CryptoError::InvalidPublicKey));
}

#[test]
fn sign_then_verify_succeeds() {
    let d = felt_from_be_hex("0x03c1e9550e66958296d11b60f8e8e7a7ad990d07fa65d5f7652c4a6c87d4e3cc");
    let m = felt_from_be_hex("0x02");
    let seed = felt(3);
    let sig = sign(&d, &m, &seed).unwrap();
    let q = get_public_key(&d).unwrap();
    assert_eq!(verify(&q, &m, &sig.r, &sig.s), Ok(true));
}

#[test]
fn sign_is_deterministic_for_a_fixed_seed() {
    let d = felt_from_be_hex("0x03c1e9550e66958296d11b60f8e8e7a7ad990d07fa65d5f7652c4a6c87d4e3cc");
    let m = felt_from_be_hex("0x05");
    let seed = felt(7);
    assert_eq!(sign(&d, &m, &seed).unwrap(), sign(&d, &m, &seed).unwrap());
}

#[test]
fn sign_feeds_the_seed_into_the_nonce() {
    let d = felt_from_be_hex("0x03c1e9550e66958296d11b60f8e8e7a7ad990d07fa65d5f7652c4a6c87d4e3cc");
    let m = felt_from_be_hex("0x05");
    assert_ne!(
        sign(&d, &m, &felt(3)).unwrap(),
        sign(&d, &m, &felt(4)).unwrap()
    );
}

#[test]
fn sign_rejects_message_hash_at_bound() {
    let mut bound = [0u8; 32];
    bound[31] = 0x08;
    let m = FieldElement::from_bytes_le(bound).unwrap();
    let d = felt(1);
    assert_eq!(sign(&d, &m, &felt(3)), Err(CryptoError::OutOfRange));
}

#[test]
fn verify_fails_after_flipping_a_message_bit() {
    let d = felt_from_be_hex("0x03c1e9550e66958296d11b60f8e8e7a7ad990d07fa65d5f7652c4a6c87d4e3cc");
    let m = felt_from_be_hex("0x02");
    let sig = sign(&d, &m, &felt(3)).unwrap();
    let q = get_public_key(&d).unwrap();
    let flipped = felt_from_be_hex("0x03");
    assert_eq!(verify(&q, &flipped, &sig.r, &sig.s), Ok(false));
}

#[test]
fn verify_fails_after_flipping_a_signature_bit() {
    let d = felt_from_be_hex("0x03c1e9550e66958296d11b60f8e8e7a7ad990d07fa65d5f7652c4a6c87d4e3cc");
    let m = felt_from_be_hex("0x02");
    let sig = sign(&d, &m, &felt(3)).unwrap();
    let q = get_public_key(&d).unwrap();
    let mut r_bytes = sig.r.to_bytes_le();
    r_bytes[0] ^= 1;
    let r_flipped = FieldElement::from_bytes_le(r_bytes).unwrap();
    assert_eq!(verify(&q, &m, &r_flipped, &sig.s), Ok(false));
    let mut s_bytes = sig.s.to_bytes_le();
    s_bytes[0] ^= 1;
    let s_flipped = FieldElement::from_bytes_le(s_bytes).unwrap();
    assert_eq!(verify(&q, &m, &sig.r, &s_flipped), Ok(false));
}

#[test]
fn sign_rejects_zero_and_out_of_order_private_key() {
    let m = felt_from_be_hex("0x02");
    let seed = felt(3);
    assert_eq!(sign(&felt(0), &m, &seed), Err(CryptoError::InvalidScalar));
    let n = FieldElement::from_bytes_le(ORDER_LE).unwrap();
    assert_eq!(sign(&n, &m, &seed), Err(CryptoError::InvalidScalar));
}

#[test]
fn verify_handles_identity_recombination() {
    // public key = x(G), msg = r = s = 1: one recombined point is 2G and the
    // other is the point at infinity, which matches nothing.
    let q = felt_from_be_hex("0x01ef15c18599971b7beced415a40f0c7deacfd9b0d1819e03d723d8bc943cfca");
    let one = felt(1);
    assert_eq!(verify(&q, &one, &one, &one), Ok(false));
}

#[test]
fn curve_beta_matches_published_constant() {
    let published =
        felt_from_be_hex("0x06f21413efbe40de150e596d72f7a8c5609ad26c15c915c1f4cdfcb99cee9e89");
    assert_eq!(beta_element(), published);
}

#[test]
fn generator_matches_published_coordinates() {
    let g = generator();
    assert!(!g.infinity);
    assert_eq!(
        g.x,
        felt_from_be_hex("0x01ef15c18599971b7beced415a40f0c7deacfd9b0d1819e03d723d8bc943cfca")
    );
    assert_eq!(
        g.y,
        felt_from_be_hex("0x005668060aa49730b7be4801df46ec62de53ecd11abe43a32873000c36e8dc1f")
    );
}

#[test]
fn verify_rejects_out_of_range_components() {
    let q = felt_from_be_hex("0x01ef15c18599971b7beced415a40f0c7deacfd9b0d1819e03d723d8bc943cfca");
    let m = felt_from_be_hex("0x02");
    let r = felt_from_be_hex("0x0411494b501a98abd8262b0da1351e17899a0c4ef23dd2f96fec5ba847310b20");
    let s = felt_from_be_hex("0x0405c3191ab3883ef2b763af35bc5f5d15b3b4e99461d70e84c654a351a7c81b");
    let n = FieldElement::from_bytes_le(ORDER_LE).unwrap();
    assert_eq!(verify(&q, &m, &felt(0), &s), Err(CryptoError::InvalidInput));
    assert_eq!(verify(&q, &m, &r, &felt(0)), Err(CryptoError::InvalidInput));
    assert_eq!(verify(&q, &m, &n, &s), Err(CryptoError::InvalidInput));
    assert_eq!(verify(&q, &m, &r, &n), Err(CryptoError::InvalidInput));
}
