use voprf_node::codec::ecpoint_to_projective;
use voprf_node::codec::limbs_to_hex;
use voprf_node::codec::parse_public_inputs;
use voprf_node::codec::projective_to_ecpoint;
use voprf_node::codec::ECPoint;
use voprf_node::curve::Point;
use voprf_node::curve::Scalar;
use voprf_node::error::Error;
use voprf_node::keys::KeyPair;
use voprf_node::registry::point_to_bytes32_array;
use voprf_node::registry::public_key_words;

const GX: &str = "79be667ef9dcbbac55a06295ce870b07029bfcdb2dce28d959f2815b16f81798";
const GY: &str = "483ada7726a3c4655da4fbfc0e1108a8fd17b448a68554199c47d08ffb10d4b8";
const G2X: &str = "c6047f9441ed7d6d3045406e95c07cd85c778e4b8cef3ca7abac09b95c709ee5";
const G2Y: &str = "1ae168fea63dc339a3c58419466ceaeef7f632653266d0e1236431a950cfe52a";

fn wire(x: &str, y: &str) -> ECPoint {
    ECPoint { x: x.to_string(), y: y.to_string() }
}

fn chunk(limb_hex: &str) -> Vec<u8> {
    let digits = format!("{:0>64}", limb_hex);
    hex::decode(digits).unwrap()
}

/// A proof whose public inputs hold the commitment `0x01 .. 0x20` and the
/// generator, with a payload of three bytes behind them.
fn proof_of_generator() -> Vec<u8> {
    let mut proof: Vec<u8> = (1u8..=32).collect();
    for limb in [
        "9bfcdb2dce28d959f2815b16f81798",
        "667ef9dcbbac55a06295ce870b0702",
        "79be",
        "17b448a68554199c47d08ffb10d4b8",
        "da7726a3c4655da4fbfc0e1108a8fd",
        "483a",
    ] {
        proof.extend(chunk(limb));
    }
    proof.extend([0xaa, 0xbb, 0xcc]);
    proof
}

fn limbs(a: &str, b: &str, c: &str) -> Vec<String> {
    vec![a.to_string(), b.to_string(), c.to_string()]
}

#[test]
fn wire_form_of_the_generator() {
    let w = projective_to_ecpoint(&Point::generator());
    assert_eq!(w.x, GX);
    assert_eq!(w.y, GY);
}

#[test]
fn wire_form_round_trip() {
    let mut two = [0u8; 32];
    two[31] = 2;
    let p = Point::generator().mul(&Scalar::from_bytes(&two).unwrap());
    let w = projective_to_ecpoint(&p);
    assert_eq!(w.x, G2X);
    assert_eq!(w.y, G2Y);
    let back = ecpoint_to_projective(&w).unwrap();
    assert_eq!(back.to_sec1(), p.to_sec1());
}

#[test]
fn decoding_accepts_either_case() {
    let p = ecpoint_to_projective(&wire(&GX.to_uppercase(), GY)).unwrap();
    assert_eq!(p.to_sec1(), Point::generator().to_sec1());
}

#[test]
fn decoding_refuses_an_off_curve_point() {
    let r = ecpoint_to_projective(&wire(GX, G2Y));
    assert!(matches!(r, Err(Error::InvalidPoint)));
}

#[test]
fn decoding_refuses_text_that_is_not_hexadecimal() {
    let bad = format!("{}g", &GX[..63]);
    assert!(matches!(ecpoint_to_projective(&wire(&bad, GY)), Err(Error::InvalidPoint)));
    assert!(matches!(ecpoint_to_projective(&wire(GX, &bad)), Err(Error::InvalidPoint)));
    let spaced = format!("{} ", &GX[..63]);
    assert!(matches!(ecpoint_to_projective(&wire(&spaced, GY)), Err(Error::InvalidPoint)));
}

#[test]
fn decoding_refuses_other_lengths() {
    assert!(matches!(ecpoint_to_projective(&wire("", "")), Err(Error::InvalidPoint)));
    assert!(matches!(ecpoint_to_projective(&wire(&GX[..63], GY)), Err(Error::InvalidPoint)));
    assert!(matches!(ecpoint_to_projective(&wire(&GX[2..], GY)), Err(Error::InvalidPoint)));
    let long = format!("00{}", GX);
    assert!(matches!(ecpoint_to_projective(&wire(&long, GY)), Err(Error::InvalidPoint)));
    // sixty-two and sixty-six digits make sixty-five bytes again, and are refused all the same
    let x = &GX[..62];
    let y = format!("{}{}", &GX[62..], GY);
    assert!(matches!(ecpoint_to_projective(&wire(x, &y)), Err(Error::InvalidPoint)));
}

#[test]
fn limbs_are_put_together() {
    assert_eq!(
        limbs_to_hex(&limbs("0x1", "0x2", "0x3")),
        "0003000000000000000000000000000002000000000000000000000000000001"
    );
    assert_eq!(
        limbs_to_hex(&limbs(
            "0x9bfcdb2dce28d959f2815b16f81798",
            "0x667ef9dcbbac55a06295ce870b0702",
            "0x79be"
        )),
        GX
    );
}

#[test]
fn limbs_of_zero() {
    assert_eq!(limbs_to_hex(&limbs("0", "0", "0")), "0".repeat(64));
    assert_eq!(limbs_to_hex(&limbs("0x0", "0", "0x00")), "0".repeat(64));
}

#[test]
fn limbs_in_other_spellings() {
    // no prefix, a repeated prefix, capitals, a sign, an underscore
    assert_eq!(limbs_to_hex(&limbs("ff", "0", "0")), format!("{}ff", "0".repeat(62)));
    assert_eq!(limbs_to_hex(&limbs("0x0xff", "0", "0")), format!("{}ff", "0".repeat(62)));
    assert_eq!(limbs_to_hex(&limbs("0xFF", "0", "0")), format!("{}ff", "0".repeat(62)));
    assert_eq!(limbs_to_hex(&limbs("+ff", "0", "0")), format!("{}ff", "0".repeat(62)));
    assert_eq!(limbs_to_hex(&limbs("f_f", "0", "0")), format!("{}ff", "0".repeat(62)));
}

#[test]
fn limbs_beyond_the_third_are_not_read() {
    let four = vec!["0x1".to_string(), "0".to_string(), "0".to_string(), "junk".to_string()];
    assert_eq!(limbs_to_hex(&four), format!("{}1", "0".repeat(63)));
}

#[test]
fn limbs_that_do_not_fit_make_longer_text() {
    let full = format!("0x{}", "f".repeat(64));
    let expected = format!(
        "{}{}",
        "1000000000000000000000000000001000000000000000000000000000000",
        "fffefffffffffffffffffffffffffffffeffffffffffffffffffffffffffffff"
    );
    assert_eq!(expected.len(), 125);
    assert_eq!(limbs_to_hex(&limbs(&full, &full, &full)), expected);
}

#[test]
fn public_inputs_of_a_proof() {
    let (commitment, point) = parse_public_inputs(&proof_of_generator()).unwrap();
    assert_eq!(
        commitment,
        "0x0102030405060708090a0b0c0d0e0f101112131415161718191a1b1c1d1e1f20"
    );
    assert_eq!(point.x, GX);
    assert_eq!(point.y, GY);
    let decoded = ecpoint_to_projective(&point).unwrap();
    assert_eq!(decoded.to_sec1(), Point::generator().to_sec1());
}

#[test]
fn public_inputs_of_exactly_224_bytes() {
    let mut proof = proof_of_generator();
    proof.truncate(224);
    let (_, point) = parse_public_inputs(&proof).unwrap();
    assert_eq!(point.x, GX);
    assert_eq!(point.y, GY);
}

#[test]
fn public_inputs_of_zeros() {
    let (commitment, point) = parse_public_inputs(&[0u8; 224]).unwrap();
    assert_eq!(commitment, format!("0x{}", "0".repeat(64)));
    assert_eq!(point.x, "0".repeat(64));
    assert_eq!(point.y, "0".repeat(64));
    assert!(matches!(ecpoint_to_projective(&point), Err(Error::InvalidPoint)));
}

#[test]
fn public_inputs_with_limbs_over_120_bits() {
    let mut proof = vec![0u8; 224];
    // the first limb of x is 2^120, which is the second limb's one
    proof[32 + 16] = 1;
    let (_, point) = parse_public_inputs(&proof).unwrap();
    assert_eq!(point.x, format!("{}1{}", "0".repeat(33), "0".repeat(30)));
    // a full chunk in the third limb of y does not fit in sixty-four digits
    let mut proof = vec![0u8; 224];
    for b in &mut proof[192..224] {
        *b = 0xff;
    }
    let (_, point) = parse_public_inputs(&proof).unwrap();
    assert_eq!(point.y, format!("{}{}", "f".repeat(64), "0".repeat(60)));
    assert!(matches!(ecpoint_to_projective(&point), Err(Error::InvalidPoint)));
}

#[test]
fn short_proofs_hold_no_point() {
    assert!(matches!(parse_public_inputs(&[]), Err(Error::InvalidPoint)));
    assert!(matches!(parse_public_inputs(&[0u8; 32]), Err(Error::InvalidPoint)));
    let mut proof = proof_of_generator();
    proof.truncate(223);
    assert!(matches!(parse_public_inputs(&proof), Err(Error::InvalidPoint)));
}

#[test]
fn registry_form_of_a_point() {
    let words = point_to_bytes32_array(&Point::generator());
    assert_eq!(hex::encode(words[0]), GX);
    assert_eq!(hex::encode(words[1]), GY);
}

#[test]
fn registry_form_of_a_public_key() {
    let mut two = [0u8; 32];
    two[31] = 2;
    let words = public_key_words(&KeyPair::from_bytes(&two).unwrap());
    assert_eq!(hex::encode(words[0]), G2X);
    assert_eq!(hex::encode(words[1]), G2Y);
}
