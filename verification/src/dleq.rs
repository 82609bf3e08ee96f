//! Chaum-Pedersen proofs that two pairs of points share a discrete
//! logarithm, made non-interactive by hashing the transcript.
//!
//! For bases `G` and `H` with images `Y = sk * G` and `Z = sk * H`, the prover
//! picks a nonce `k`, commits to `A = k * G` and `B = k * H`, derives the
//! challenge `c` from the SHA-256 digest of `G, H, Y, Z, A, B` in that order,
//! and answers with `s = k - c * sk`. The verifier recomputes the commitments
//! as `s * G + c * Y` and `s * H + c * Z` and accepts when they hash to `c`.

use vstd::prelude::*;
use crate::curve::generator_encoding;
use crate::curve::group_order;
use crate::curve::is_point;
use crate::curve::lemma_point_log;
use crate::curve::lemma_response_recombines;
use crate::curve::log_of;
use crate::curve::point_encoding;
use crate::curve::scalar_add;
use crate::curve::scalar_mul;
use crate::curve::scalar_sub;
use crate::curve::Point;
use crate::curve::Scalar;
use crate::encoding::append_bytes;
use crate::encoding::be_bytes;
use crate::encoding::be_nat;
use crate::encoding::byte_range;
use crate::encoding::hex_bytes;
use crate::encoding::hex_decode;
use crate::encoding::hex_encode;
use crate::encoding::hex_lower;
use crate::encoding::lemma_be_bytes_len;
use crate::encoding::lemma_be_bytes_of_be_nat;
use crate::encoding::lemma_be_nat_of_be_bytes;
use crate::encoding::lemma_byte_range_32;
use crate::encoding::lemma_hex_round_trip;
use crate::hash::sha256;
use crate::hash::sha256_digest;
use crate::keys::KeyPair;

verus! {

/// The bytes that are hashed: the six encodings in the order
/// `G, H, Y, Z, A, B`.
pub open spec fn transcript(
    g: Seq<u8>,
    h: Seq<u8>,
    y: Seq<u8>,
    z: Seq<u8>,
    a: Seq<u8>,
    b: Seq<u8>,
) -> Seq<u8> {
    g + h + y + z + a + b
}

/// The challenge of a transcript: its SHA-256 digest, read as a big-endian
/// integer and reduced modulo the group order.
pub open spec fn challenge(
    g: Seq<u8>,
    h: Seq<u8>,
    y: Seq<u8>,
    z: Seq<u8>,
    a: Seq<u8>,
    b: Seq<u8>,
) -> nat {
    be_nat(sha256_digest(transcript(g, h, y, z, a, b))) % group_order()
}

/// The encoding of `k * P`, for the point `P` that `base` encodes.
pub open spec fn multiple(base: Seq<u8>, k: nat) -> Seq<u8> {
    point_encoding(scalar_mul(log_of(base), k))
}

/// The encoding of `s * P + c * Q`, for the points that `base` and `image`
/// encode.
pub open spec fn recombined(base: Seq<u8>, s: nat, image: Seq<u8>, c: nat) -> Seq<u8> {
    point_encoding(scalar_add(scalar_mul(log_of(base), s), scalar_mul(log_of(image), c)))
}

/// The challenge that a prover with nonce `k` derives.
pub open spec fn prover_challenge(g: Seq<u8>, h: Seq<u8>, y: Seq<u8>, z: Seq<u8>, k: nat) -> nat {
    challenge(g, h, y, z, multiple(g, k), multiple(h, k))
}

/// The response `s = k - c * sk` in the scalar field.
pub open spec fn prover_response(sk: nat, k: nat, c: nat) -> nat {
    scalar_sub(k, scalar_mul(c, sk))
}

/// How a scalar is written in a proof: sixty-four lowercase hexadecimal
/// digits of its thirty-two big-endian bytes.
pub open spec fn scalar_text(v: nat) -> Seq<char> {
    hex_lower(be_bytes(v, 32))
}

/// Whether the verifier accepts the texts `c` and `s` for the bases `g`, `h`
/// and images `y`, `z`: both decode to thirty-two bytes of a canonical
/// scalar, and the recomputed commitments hash to `c`.
pub open spec fn accepts(
    c: Seq<char>,
    s: Seq<char>,
    g: Seq<u8>,
    h: Seq<u8>,
    y: Seq<u8>,
    z: Seq<u8>,
) -> bool {
    match (hex_bytes(c), hex_bytes(s)) {
        (Some(cb), Some(sb)) => {
            &&& cb.len() == 32
            &&& sb.len() == 32
            &&& be_nat(cb) < group_order()
            &&& be_nat(sb) < group_order()
            &&& be_nat(cb) == challenge(
                g,
                h,
                y,
                z,
                recombined(g, be_nat(sb), y, be_nat(cb)),
                recombined(h, be_nat(sb), z, be_nat(cb)),
            )
        },
        _ => false,
    }
}

/// A proof of discrete-logarithm equality: the challenge `c` and the
/// response `s`, each as sixty-four hexadecimal digits.
#[derive(Debug)]
pub struct DleqProof {
    pub c: String,
    pub s: String,
}

/// Derives the challenge scalar from the six points of a transcript.
fn derive_challenge(g: &Point, h: &Point, y: &Point, z: &Point, a: &Point, b: &Point) -> (c: Scalar)
    ensures
        c.value() == challenge(g@, h@, y@, z@, a@, b@),
{
    let mut message: Vec<u8> = Vec::new();
    append_bytes(&mut message, &g.to_sec1());
    append_bytes(&mut message, &h.to_sec1());
    append_bytes(&mut message, &y.to_sec1());
    append_bytes(&mut message, &z.to_sec1());
    append_bytes(&mut message, &a.to_sec1());
    append_bytes(&mut message, &b.to_sec1());
    let digest = sha256(message.as_slice());
    Scalar::reduce(digest.as_slice())
}

/// Writes a scalar as proof text.
fn write_scalar(v: &Scalar) -> (text: String)
    ensures
        text@ == scalar_text(v.value()),
{
    v.canonical();
    let bytes = v.to_bytes();
    proof {
        lemma_be_bytes_of_be_nat(bytes@);
    }
    hex_encode(bytes.as_slice())
}

/// Reads a scalar from proof text: hexadecimal digits of exactly thirty-two
/// bytes that hold a canonical scalar.
fn read_scalar(text: &str) -> (scalar: Option<Scalar>)
    ensures
        scalar is Some <==> (hex_bytes(text@) matches Some(bytes) && bytes.len() == 32
            && be_nat(bytes) < group_order()),
        scalar matches Some(v) ==> hex_bytes(text@) == Some(v@),
{
    match hex_decode(text) {
        Ok(bytes) => Scalar::from_bytes(bytes.as_slice()),
        Err(_) => None,
    }
}

impl DleqProof {
    /// The proof that the nonce `k` gives for the secret `sk`, the bases
    /// `g`, `h` and the images `y`, `z`.
    pub open spec fn of_nonce(
        sk: nat,
        g: Seq<u8>,
        h: Seq<u8>,
        y: Seq<u8>,
        z: Seq<u8>,
        k: nat,
    ) -> (Seq<char>, Seq<char>) {
        let c = prover_challenge(g, h, y, z, k);
        (scalar_text(c), scalar_text(prover_response(sk, k, c)))
    }

    /// Proves for `point`, with the nonce `k`, that `sk * point` was made
    /// with the secret of `keys`. The bases are the generator and `point`,
    /// the images the public key and `sk * point`.
    ///
    /// The nonce must be fresh for every proof and never zero: two proofs
    /// with one nonce give the secret away. `new` draws it.
    pub fn with_nonce(keys: &KeyPair, point: &Point, k: &Scalar) -> (proof: DleqProof)
        ensures
            (proof.c@, proof.s@) == DleqProof::of_nonce(
                keys.spec_secret().value(),
                generator_encoding(),
                point@,
                keys.spec_public()@,
                multiple(point@, keys.spec_secret().value()),
                k.value(),
            ),
            accepts(
                proof.c@,
                proof.s@,
                generator_encoding(),
                point@,
                keys.spec_public()@,
                multiple(point@, keys.spec_secret().value()),
            ),
    {
        keys.valid();
        point.valid();
        k.canonical();
        let sk = keys.secret();
        let g = Point::generator();
        let y = keys.public();
        let z = point.mul(sk);
        let a = g.mul(k);
        let b = point.mul(k);
        g.valid();
        y.valid();
        z.valid();
        a.valid();
        b.valid();
        let c = derive_challenge(&g, point, y, &z, &a, &b);
        let s = k.sub(&c.mul(sk));
        proof {
            law_honest_proof_is_accepted(sk.value(), g@, point@, y@, z@, k.value());
        }
        DleqProof { c: write_scalar(&c), s: write_scalar(&s) }
    }

    /// Proves for `point` that `sk * point` was made with the secret of
    /// `keys`, with a nonce drawn for this proof alone from the operating
    /// system's generator. Whatever nonce was drawn, the verifier accepts
    /// the proof.
    pub fn new(keys: &KeyPair, point: &Point) -> (proof: DleqProof)
        ensures
            exists|k: nat|
                1 <= k < group_order() && (proof.c@, proof.s@) == #[trigger] DleqProof::of_nonce(
                    keys.spec_secret().value(),
                    generator_encoding(),
                    point@,
                    keys.spec_public()@,
                    multiple(point@, keys.spec_secret().value()),
                    k,
                ),
            accepts(
                proof.c@,
                proof.s@,
                generator_encoding(),
                point@,
                keys.spec_public()@,
                multiple(point@, keys.spec_secret().value()),
            ),
    {
        let k = Scalar::random();
        DleqProof::with_nonce(keys, point, &k)
    }

    /// Checks the proof for the bases `g`, `h` and the images `y`, `z`.
    pub fn verify(&self, g: &Point, h: &Point, y: &Point, z: &Point) -> (accepted: bool)
        ensures
            accepted == accepts(self.c@, self.s@, g@, h@, y@, z@),
    {
        let c = match read_scalar(self.c.as_str()) {
            Some(c) => c,
            None => {
                return false;
            },
        };
        let s = match read_scalar(self.s.as_str()) {
            Some(s) => s,
            None => {
                return false;
            },
        };
        g.valid();
        h.valid();
        y.valid();
        z.valid();
        let a = g.mul(&s).add(&y.mul(&c));
        let b = h.mul(&s).add(&z.mul(&c));
        a.valid();
        b.valid();
        let expected = derive_challenge(g, h, y, z, &a, &b);
        c.same_value(&expected)
    }
}

/// The text of a canonical scalar reads back as that scalar.
pub proof fn lemma_scalar_text_round_trip(v: nat)
    requires
        v < group_order(),
    ensures
        hex_bytes(scalar_text(v)) == Some(be_bytes(v, 32)),
        be_bytes(v, 32).len() == 32,
        be_nat(be_bytes(v, 32)) == v,
{
    lemma_hex_round_trip(be_bytes(v, 32));
    lemma_be_bytes_len(v, 32);
    lemma_byte_range_32();
    lemma_be_nat_of_be_bytes(v, 32);
}

/// A proof made as the protocol says is accepted, whatever the nonce.
///
/// Let `g` and `h` encode points, `y` encode `sk * G'` and `z` encode
/// `sk * H'` for the points `G'`, `H'` that `g`, `h` encode, and let `(c, s)`
/// be the proof of a nonce `k`. Then the verifier's recomputed commitments
/// are the prover's: `s * G' + c * Y = k * G'` and `s * H' + c * Z = k * H'`,
/// and so the verifier accepts.
pub proof fn law_honest_proof_is_accepted(
    sk: nat,
    g: Seq<u8>,
    h: Seq<u8>,
    y: Seq<u8>,
    z: Seq<u8>,
    k: nat,
)
    requires
        is_point(g),
        is_point(h),
        is_point(y),
        is_point(z),
        log_of(y) == scalar_mul(log_of(g), sk),
        log_of(z) == scalar_mul(log_of(h), sk),
    ensures
        ({
            let c = prover_challenge(g, h, y, z, k);
            let s = prover_response(sk, k, c);
            &&& recombined(g, s, y, c) == multiple(g, k)
            &&& recombined(h, s, z, c) == multiple(h, k)
            &&& accepts(scalar_text(c), scalar_text(s), g, h, y, z)
        }),
{
    let c = prover_challenge(g, h, y, z, k);
    let s = prover_response(sk, k, c);
    lemma_response_recombines(log_of(g), sk, k, c);
    lemma_response_recombines(log_of(h), sk, k, c);
    lemma_scalar_text_round_trip(c);
    lemma_scalar_text_round_trip(s);
}

/// The two forms of an encoding: one zero byte, or the tag `0x04` and
/// sixty-four bytes.
pub open spec fn has_sec1_form(e: Seq<u8>) -> bool {
    (e.len() == 1 && e[0] == 0) || (e.len() == 65 && e[0] == 4)
}

/// The encoding of a point has one of the two forms.
pub proof fn lemma_point_form(e: Seq<u8>)
    requires
        is_point(e),
    ensures
        has_sec1_form(e),
{
    lemma_point_log(e);
}

/// An encoding says by its first byte how long it is, so bytes that start
/// with one encoding start with no other.
proof fn lemma_leading_point(a: Seq<u8>, rest_a: Seq<u8>, b: Seq<u8>, rest_b: Seq<u8>)
    requires
        has_sec1_form(a),
        has_sec1_form(b),
        a + rest_a == b + rest_b,
    ensures
        a == b,
        rest_a == rest_b,
{
    let whole = a + rest_a;
    assert(whole[0] == b[0]);
    assert(b =~= whole.subrange(0, a.len() as int));
    assert(rest_b =~= whole.skip(a.len() as int));
}

/// A transcript, put together from its end.
proof fn lemma_transcript_from_the_end(
    g: Seq<u8>,
    h: Seq<u8>,
    y: Seq<u8>,
    z: Seq<u8>,
    a: Seq<u8>,
    b: Seq<u8>,
)
    ensures
        transcript(g, h, y, z, a, b) == g + (h + (y + (z + (a + b)))),
{
}

/// The bytes that are hashed hold the six points in their order: two
/// transcripts of points are the same bytes only where they agree place by
/// place. Putting a point in the place of a different one changes the bytes
/// that are hashed.
pub proof fn law_transcript_keeps_the_order(p: Seq<Seq<u8>>, r: Seq<Seq<u8>>)
    requires
        p.len() == 6,
        r.len() == 6,
        forall|i: int| 0 <= i < 6 ==> is_point(#[trigger] p[i]),
        forall|i: int| 0 <= i < 6 ==> is_point(#[trigger] r[i]),
        transcript(p[0], p[1], p[2], p[3], p[4], p[5]) == transcript(
            r[0],
            r[1],
            r[2],
            r[3],
            r[4],
            r[5],
        ),
    ensures
        p == r,
{
    lemma_transcript_from_the_end(p[0], p[1], p[2], p[3], p[4], p[5]);
    lemma_transcript_from_the_end(r[0], r[1], r[2], r[3], r[4], r[5]);
    assert forall|i: int| 0 <= i < 6 implies has_sec1_form(#[trigger] p[i]) && has_sec1_form(
        r[i],
    ) by {
        lemma_point_form(p[i]);
        lemma_point_form(r[i]);
    }
    let p_ab = p[4] + p[5];
    let p_zab = p[3] + p_ab;
    let p_yzab = p[2] + p_zab;
    let p_hyzab = p[1] + p_yzab;
    let r_ab = r[4] + r[5];
    let r_zab = r[3] + r_ab;
    let r_yzab = r[2] + r_zab;
    let r_hyzab = r[1] + r_yzab;
    lemma_leading_point(p[0], p_hyzab, r[0], r_hyzab);
    lemma_leading_point(p[1], p_yzab, r[1], r_yzab);
    lemma_leading_point(p[2], p_zab, r[2], r_zab);
    lemma_leading_point(p[3], p_ab, r[3], r_ab);
    lemma_leading_point(p[4], p[5], r[4], r[5]);
}

} // verus!
