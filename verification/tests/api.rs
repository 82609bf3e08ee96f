use voprf_node::api::client_point;
use voprf_node::api::evaluate;
use voprf_node::api::evaluate_with_nonce;
use voprf_node::api::respond;
use voprf_node::api::EvaluateRequest;
use voprf_node::zk::arguments;
use voprf_node::zk::fresh_proof_path;
use voprf_node::zk::leaves_file;
use voprf_node::zk::proof_path;
use voprf_node::zk::verdict;
use voprf_node::zk::Outcome;
use voprf_node::zk::VERIFIER_PROGRAM;
use voprf_node::codec::ecpoint_to_projective;
use voprf_node::curve::Point;
use voprf_node::curve::Scalar;
use voprf_node::error::Error;
use voprf_node::keys::KeyPair;

const GX: &str = "79be667ef9dcbbac55a06295ce870b07029bfcdb2dce28d959f2815b16f81798";
const GY: &str = "483ada7726a3c4655da4fbfc0e1108a8fd17b448a68554199c47d08ffb10d4b8";
const G2X: &str = "c6047f9441ed7d6d3045406e95c07cd85c778e4b8cef3ca7abac09b95c709ee5";
const G2Y: &str = "1ae168fea63dc339a3c58419466ceaeef7f632653266d0e1236431a950cfe52a";

fn keys_with(v: u8) -> KeyPair {
    let mut bytes = [0u8; 32];
    bytes[31] = v;
    KeyPair::from_bytes(&bytes).unwrap()
}

fn scalar_with(v: u8) -> Scalar {
    let mut bytes = [0u8; 32];
    bytes[31] = v;
    Scalar::from_bytes(&bytes).unwrap()
}

/// The three chunks that hold a coordinate as limbs of 120 bits.
fn chunks_of(coordinate_hex: &str) -> Vec<u8> {
    let bytes = hex::decode(coordinate_hex).unwrap();
    let mut out = Vec::new();
    for limb in [&bytes[17..32], &bytes[2..17], &bytes[0..2]] {
        out.extend(vec![0u8; 32 - limb.len()]);
        out.extend(limb);
    }
    out
}

fn request_for(x: &str, y: &str) -> EvaluateRequest {
    let mut proof = vec![7u8; 32];
    proof.extend(chunks_of(x));
    proof.extend(chunks_of(y));
    proof.extend(vec![0x5a; 100]);
    EvaluateRequest { proof }
}

#[test]
fn happy_path_with_secret_one() {
    let keys = keys_with(1);
    let g = Point::generator();
    assert_eq!(keys.public().to_sec1(), g.to_sec1());
    let h = client_point(&request_for(GX, GY)).unwrap();
    assert_eq!(h.to_sec1(), g.to_sec1());
    let response = respond(&keys, &h, verdict(Outcome::Exited { success: true })).unwrap();
    assert_eq!(response.result.x, GX);
    assert_eq!(response.result.y, GY);
    assert!(response.dleq_proof.verify(&g, &g, &g, &g));
}

#[test]
fn scalar_multiplication_with_secret_two() {
    let keys = keys_with(2);
    let h = client_point(&request_for(GX, GY)).unwrap();
    let response = evaluate(&keys, &h).unwrap();
    assert_eq!(response.result.x, G2X);
    assert_eq!(response.result.y, G2Y);
    let z = ecpoint_to_projective(&response.result).unwrap();
    assert!(response.dleq_proof.verify(&Point::generator(), &h, keys.public(), &z));
}

#[test]
fn response_of_a_given_nonce() {
    let keys = keys_with(2);
    let h = Point::generator().mul(&scalar_with(3));
    let response = evaluate_with_nonce(&keys, &h, &scalar_with(5)).unwrap();
    assert_eq!(
        response.result.x,
        "fff97bd5755eeea420453a14355235d382f6472f8568a18b2f057a1460297556"
    );
    assert_eq!(
        response.result.y,
        "ae12777aacfbb620f3be96017f45c560de80f0f6518fe4a03c870c36b075f297"
    );
    assert_eq!(
        response.dleq_proof.c,
        "b0b3f1ab576e2be1c6f2b5da75308cd10f8252678a9a6d16f479b073df4319d0"
    );
    assert_eq!(
        response.dleq_proof.s,
        "9e981ca95123a83c721a944b159ee65b565914fe495c664996b15c31e1e64ee7"
    );
}

#[test]
fn malformed_point_is_a_bad_request() {
    let e = client_point(&request_for(GX, G2Y)).unwrap_err();
    assert!(matches!(e, Error::InvalidPoint));
    assert_eq!(e.status_code(), 400);
    assert_eq!(e.code(), "InvalidPoint");
    assert_eq!(e.message(), "Invalid point");
}

#[test]
fn short_request_is_a_bad_request() {
    for n in [0usize, 1, 32, 223] {
        let e = client_point(&EvaluateRequest { proof: vec![0u8; n] }).unwrap_err();
        assert!(matches!(e, Error::InvalidPoint));
    }
}

#[test]
fn rejected_proof_is_unauthorized() {
    let keys = keys_with(2);
    let h = client_point(&request_for(GX, GY)).unwrap();
    let e = respond(&keys, &h, verdict(Outcome::Exited { success: false })).unwrap_err();
    assert!(matches!(e, Error::InvalidProof));
    assert_eq!(e.status_code(), 401);
    assert_eq!(e.code(), "InvalidProof");
    assert_eq!(e.message(), "Invalid proof");
}

#[test]
fn refusal_is_handed_on_unchanged() {
    let keys = keys_with(2);
    let h = Point::generator();
    let e = respond(&keys, &h, Err(Error::Internal("disk".to_string()))).unwrap_err();
    assert!(matches!(&e, Error::Internal(detail) if detail == "disk"));
    assert_eq!(e.status_code(), 500);
    assert_eq!(e.code(), "Internal");
    assert_eq!(e.message(), "Internal error: disk");
}

#[test]
fn identity_cannot_be_answered() {
    let keys = keys_with(2);
    let identity = Point::generator().mul(&scalar_with(0));
    let e = evaluate(&keys, &identity).unwrap_err();
    assert!(matches!(e, Error::Internal(_)));
    assert_eq!(e.status_code(), 500);
}

#[test]
fn tampered_result_does_not_verify() {
    let keys = keys_with(2);
    let g = Point::generator();
    let h = g.mul(&scalar_with(3));
    let mut response = evaluate(&keys, &h).unwrap();
    let z = ecpoint_to_projective(&response.result).unwrap();
    assert!(response.dleq_proof.verify(&g, &h, keys.public(), &z));
    // one byte of result.x changed: most such points are off the curve
    let first = if response.result.x.starts_with("ff") { "fe" } else { "ff" };
    response.result.x.replace_range(0..2, first);
    match ecpoint_to_projective(&response.result) {
        Ok(other) => assert!(!response.dleq_proof.verify(&g, &h, keys.public(), &other)),
        Err(e) => assert!(matches!(e, Error::InvalidPoint)),
    }
    // another point of the curve in place of the result
    let other = g.mul(&scalar_with(7));
    assert!(!response.dleq_proof.verify(&g, &h, keys.public(), &other));
}

#[test]
fn persisted_key_serves_with_the_same_public_key() {
    let first = KeyPair::generate();
    let y = first.public().to_sec1();
    let file = first.to_bytes();
    let restarted = KeyPair::from_bytes(&file).unwrap();
    assert_eq!(restarted.public().to_sec1(), y);
    let h = Point::generator().mul(&scalar_with(9));
    let before = evaluate(&first, &h).unwrap();
    let after = evaluate(&restarted, &h).unwrap();
    assert_eq!(before.result.x, after.result.x);
    assert_eq!(before.result.y, after.result.y);
}

#[test]
fn outcomes_of_the_verifying_program() {
    assert!(verdict(Outcome::Exited { success: true }).is_ok());
    assert!(matches!(verdict(Outcome::Exited { success: false }), Err(Error::InvalidProof)));
    assert!(matches!(verdict(Outcome::SpawnFailed), Err(Error::InvalidProof)));
    assert!(matches!(verdict(Outcome::WriteFailed), Err(Error::InvalidProof)));
    assert!(!leaves_file(Outcome::WriteFailed));
    assert!(leaves_file(Outcome::SpawnFailed));
    assert!(leaves_file(Outcome::Exited { success: true }));
    assert!(leaves_file(Outcome::Exited { success: false }));
}

#[test]
fn command_line_of_the_verifying_program() {
    assert_eq!(VERIFIER_PROGRAM, "bb");
    assert_eq!(
        arguments("./packages/mpc/generated/vk", "/tmp/p"),
        vec!["verify", "-k", "./packages/mpc/generated/vk", "-p", "/tmp/p"]
    );
}

#[test]
fn paths_of_proof_files() {
    assert_eq!(
        proof_path("./packages/mpc/generated", "abc"),
        "./packages/mpc/generated/temp_proof_abc"
    );
    let a = fresh_proof_path("/tmp");
    let b = fresh_proof_path("/tmp");
    assert!(a.starts_with("/tmp/temp_proof_"));
    assert_eq!(a.len(), "/tmp/temp_proof_".len() + 36);
    assert_ne!(a, b);
}
