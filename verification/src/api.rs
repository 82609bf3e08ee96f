//! One evaluation: from the bytes of a request to the response.
//!
//! The steps are: read the client's point from the public inputs of the
//! proof, have the proof checked, multiply the point by the secret, and prove
//! that the secret of the public key was used. Checking the client's proof
//! is the work of an outside program; its verdict is handed in.

use vstd::prelude::*;
use vstd::string::StringExecFns;
use crate::codec::chunks_value;
use crate::codec::decoded_point;
use crate::codec::ecpoint_to_projective;
use crate::codec::parse_public_inputs;
use crate::codec::projective_to_ecpoint;
use crate::codec::public_inputs;
use crate::codec::law_coordinate_text;
use crate::codec::uncompressed;
use crate::codec::ECPoint;
use crate::curve::generator_encoding;
use crate::curve::on_curve;
use crate::curve::Point;
use crate::curve::Scalar;
use crate::dleq::accepts;
use crate::dleq::multiple;
use crate::dleq::DleqProof;
use crate::encoding::be_bytes;
use crate::encoding::byte_range;
use crate::encoding::hex_lower;
use crate::encoding::lemma_be_bytes_len;
use crate::encoding::lemma_be_nat_of_be_bytes;
use crate::encoding::lemma_byte_range_32;
use crate::encoding::lemma_hex_round_trip;
use crate::error::Error;
use crate::keys::KeyPair;

verus! {

/// The body of a request: the client's proof, whose first 224 bytes are its
/// public inputs.
#[derive(Debug)]
pub struct EvaluateRequest {
    pub proof: Vec<u8>,
}

/// The body of a response: `sk * H` and the proof that goes with it.
#[derive(Debug)]
pub struct EvaluateResponse {
    pub result: ECPoint,
    pub dleq_proof: DleqProof,
}

/// The encoding of the point that a request asks to have evaluated, where
/// its public inputs hold a point on the curve.
pub open spec fn requested_point(proof: Seq<u8>) -> Option<Seq<u8>> {
    match public_inputs(proof) {
        Some((_, x, y)) => decoded_point(x, y),
        None => None,
    }
}

/// The wire form of `sk * H`, for the point `H` that `h` encodes.
pub open spec fn evaluation(h: Seq<u8>, sk: nat) -> (Seq<char>, Seq<char>) {
    (hex_lower(multiple(h, sk).subrange(1, 33)), hex_lower(multiple(h, sk).subrange(33, 65)))
}

/// Reads the client's point from a request. A request that is too short, or
/// whose coordinates are no point on the curve, is refused as an invalid
/// point; an accepted point is never the identity.
pub fn client_point(request: &EvaluateRequest) -> (point: Result<Point, Error>)
    ensures
        point is Ok <==> requested_point(request.proof@) is Some,
        point matches Ok(h) ==> Some(h@) == requested_point(request.proof@) && h.log() != 0,
        point matches Err(e) ==> e is InvalidPoint,
{
    let (_, wire) = parse_public_inputs(request.proof.as_slice())?;
    ecpoint_to_projective(&wire)
}

/// Evaluates the function on `h` with the nonce `k` for the proof: the
/// response holds `sk * h` and the proof of `DleqProof::with_nonce`.
///
/// The product is the identity only where `h` is, which no client's point
/// is; the identity has no wire form, and is answered with an internal
/// error.
pub fn evaluate_with_nonce(keys: &KeyPair, h: &Point, k: &Scalar) -> (response: Result<
    EvaluateResponse,
    Error,
>)
    ensures
        response is Ok <==> h.log() != 0,
        response matches Ok(r) ==> {
            let sk = keys.spec_secret().value();
            &&& (r.result.x@, r.result.y@) == evaluation(h@, sk)
            &&& (r.dleq_proof.c@, r.dleq_proof.s@) == DleqProof::of_nonce(
                sk,
                generator_encoding(),
                h@,
                keys.spec_public()@,
                multiple(h@, sk),
                k.value(),
            )
            &&& accepts(
                r.dleq_proof.c@,
                r.dleq_proof.s@,
                generator_encoding(),
                h@,
                keys.spec_public()@,
                multiple(h@, sk),
            )
        },
        response matches Err(e) ==> e is Internal,
{
    keys.valid();
    let z = h.mul(keys.secret());
    z.valid();
    if z.is_identity() {
        return Err(Error::Internal(String::from_str("the evaluation is the identity")));
    }
    let result = projective_to_ecpoint(&z);
    let dleq_proof = DleqProof::with_nonce(keys, h, k);
    Ok(EvaluateResponse { result, dleq_proof })
}

/// Evaluates the function on `h`, with a nonce drawn for this response
/// alone. Whatever nonce was drawn, the response to a point other than the
/// identity holds `sk * h` and a proof that the verifier accepts.
pub fn evaluate(keys: &KeyPair, h: &Point) -> (response: Result<EvaluateResponse, Error>)
    ensures
        response is Ok <==> h.log() != 0,
        response matches Ok(r) ==> {
            let sk = keys.spec_secret().value();
            &&& (r.result.x@, r.result.y@) == evaluation(h@, sk)
            &&& accepts(
                r.dleq_proof.c@,
                r.dleq_proof.s@,
                generator_encoding(),
                h@,
                keys.spec_public()@,
                multiple(h@, sk),
            )
        },
        response matches Err(e) ==> e is Internal,
{
    let k = Scalar::random();
    evaluate_with_nonce(keys, h, &k)
}

/// Answers a request whose point `h` was read and whose proof was handed to
/// the verifying program: a refused proof ends the request with that error
/// and nothing is evaluated; an accepted one is evaluated.
pub fn respond(keys: &KeyPair, h: &Point, verdict: Result<(), Error>) -> (response: Result<
    EvaluateResponse,
    Error,
>)
    ensures
        verdict matches Err(refusal) ==> response == Err::<EvaluateResponse, Error>(refusal),
        verdict is Ok ==> {
            &&& response is Ok <==> h.log() != 0
            &&& response matches Ok(r) ==> {
                let sk = keys.spec_secret().value();
                &&& (r.result.x@, r.result.y@) == evaluation(h@, sk)
                &&& accepts(
                    r.dleq_proof.c@,
                    r.dleq_proof.s@,
                    generator_encoding(),
                    h@,
                    keys.spec_public()@,
                    multiple(h@, sk),
                )
            }
            &&& response matches Err(e) ==> e is Internal
        },
{
    match verdict {
        Err(refusal) => Err(refusal),
        Ok(_) => evaluate(keys, h),
    }
}

/// What a request asks for, in plain terms. Let `x` and `y` be the numbers
/// that the limbs of the public inputs make. A request of at least 224 bytes
/// whose `x` and `y` are reduced coordinates of a point on the curve asks for
/// that point; any other request asks for none.
pub proof fn law_requested_point(proof: Seq<u8>)
    ensures
        requested_point(proof) == if proof.len() >= 224 && on_curve(
            chunks_value(proof.subrange(32, 128)),
            chunks_value(proof.subrange(128, 224)),
        ) {
            Some(
                uncompressed(
                    be_bytes(chunks_value(proof.subrange(32, 128)), 32),
                    be_bytes(chunks_value(proof.subrange(128, 224)), 32),
                ),
            )
        } else {
            None
        },
{
    if proof.len() >= 224 {
        let x = chunks_value(proof.subrange(32, 128));
        let y = chunks_value(proof.subrange(128, 224));
        lemma_byte_range_32();
        law_coordinate_text(x);
        law_coordinate_text(y);
        if x < byte_range(32) {
            lemma_hex_round_trip(be_bytes(x, 32));
            lemma_be_bytes_len(x, 32);
            lemma_be_nat_of_be_bytes(x, 32);
        }
        if y < byte_range(32) {
            lemma_hex_round_trip(be_bytes(y, 32));
            lemma_be_bytes_len(y, 32);
            lemma_be_nat_of_be_bytes(y, 32);
        }
    }
}

} // verus!
