//! Scalars and points of secp256k1, held as their canonical encodings, and
//! the calls into `k256`.
//!
//! `k256` gives its points as elements of a group of prime order (its
//! `ProjectivePoint` is a `PrimeGroup`), with the order `q` that is written
//! out in `group_order` and the generator `G`. Such a group is cyclic, so
//! every point is `d * G` for exactly one `d` below `q`. Contracts speak of a
//! point through that `d`, its logarithm: scalar multiplication multiplies
//! logarithms modulo `q`, and point addition adds them. What `k256` computes
//! is taken on trust in these terms, in the private functions that call it;
//! the algebra on top of it is proved.

use vstd::prelude::*;
use k256::elliptic_curve::ops::Reduce;
use k256::elliptic_curve::rand_core::OsRng;
use k256::elliptic_curve::sec1::FromEncodedPoint;
use k256::elliptic_curve::sec1::ToEncodedPoint;
use k256::elliptic_curve::PrimeField;
use k256::EncodedPoint;
use k256::ProjectivePoint;
use crate::encoding::be_nat;
use crate::encoding::lemma_be_nat_injective;
use crate::encoding::lemma_be_nat_zero;
use vstd::arithmetic::div_mod::lemma_add_mod_noop;
use vstd::arithmetic::div_mod::lemma_mod_equivalence;
use vstd::arithmetic::div_mod::lemma_mul_mod_noop_left;
use vstd::arithmetic::div_mod::lemma_mul_mod_noop_right;
use vstd::arithmetic::div_mod::lemma_small_mod;
use vstd::arithmetic::mul::lemma_mul_is_associative;
use vstd::arithmetic::mul::lemma_mul_is_commutative;
use vstd::arithmetic::mul::lemma_mul_is_distributive_sub;

verus! {

/// The order `q` of the secp256k1 group, which is also the modulus of its
/// scalar field.
pub open spec fn group_order() -> nat {
    0xFFFFFFFFFFFFFFFFFFFFFFFFFFFFFFFEBAAEDCE6AF48A03BBFD25E8CD0364141nat
}

/// The product of two scalars in the field of order `q`.
pub open spec fn scalar_mul(a: nat, b: nat) -> nat {
    (a * b) % group_order()
}

/// The sum of two scalars in the field of order `q`.
pub open spec fn scalar_add(a: nat, b: nat) -> nat {
    (a + b) % group_order()
}

/// The difference of two scalars in the field of order `q`.
pub open spec fn scalar_sub(a: nat, b: nat) -> nat {
    ((a - b) % (group_order() as int)) as nat
}

/// The algebra behind a Chaum-Pedersen response. With `s = k - c * sk` in the
/// scalar field, `s * B + c * (sk * B) = k * B` for a point `B` of logarithm
/// `base`: on logarithms, `base * s + (base * sk) * c = base * k` modulo `q`.
pub proof fn lemma_response_recombines(base: nat, sk: nat, k: nat, c: nat)
    ensures
        scalar_add(
            scalar_mul(base, scalar_sub(k, scalar_mul(c, sk))),
            scalar_mul(scalar_mul(base, sk), c),
        ) == scalar_mul(base, k),
{
    let m = group_order() as int;
    let b = base as int;
    let t = scalar_mul(c, sk) as int;
    // base * s = base * (k - t) modulo q, for s = (k - t) mod q
    lemma_mul_mod_noop_right(b, k - t, m);
    // (base * sk mod q) * c = base * sk * c modulo q
    lemma_mul_mod_noop_left(b * sk, c as int, m);
    // base * t = base * (c * sk) modulo q, for t = c * sk mod q
    lemma_mul_mod_noop_right(b, (c * sk) as int, m);
    // so the sum is base * k - base * t + base * (c * sk), and the last two
    // cancel modulo q
    lemma_mul_is_associative(b, sk as int, c as int);
    lemma_mul_is_commutative(sk as int, c as int);
    lemma_mul_is_distributive_sub(b, k as int, t);
    lemma_add_mod_noop(b * (k - t), (b * sk) * c, m);
    lemma_mod_equivalence(b * (c * sk), b * t, m);
    lemma_add_mod_noop(b * k, b * (c * sk) - b * t, m);
    lemma_small_mod(((b * k) % m) as nat, m as nat);
}

/// The prime `p` of the field that the coordinates live in.
pub open spec fn field_modulus() -> nat {
    0xFFFFFFFFFFFFFFFFFFFFFFFFFFFFFFFFFFFFFFFFFFFFFFFFFFFFFFFEFFFFFC2Fnat
}

/// The curve equation `y^2 = x^3 + 7` over the field, on reduced coordinates.
pub open spec fn on_curve(x: nat, y: nat) -> bool {
    &&& x < field_modulus()
    &&& y < field_modulus()
    &&& (y * y) % field_modulus() == (x * x * x + 7) % field_modulus()
}

/// The SEC1 form of a point other than the identity: the tag `0x04`, then
/// the two coordinates in thirty-two big-endian bytes each, on the curve.
pub open spec fn is_affine_encoding(e: Seq<u8>) -> bool {
    &&& e.len() == 65
    &&& e[0] == 4
    &&& on_curve(be_nat(e.subrange(1, 33)), be_nat(e.subrange(33, 65)))
}

/// The uncompressed SEC1 encoding of `d * G`, as `k256` computes and writes
/// it.
pub uninterp spec fn point_encoding(d: nat) -> Seq<u8>;

/// `e` is the encoding of `d * G`, with `d` reduced.
pub open spec fn has_log(e: Seq<u8>, d: nat) -> bool {
    d < group_order() && point_encoding(d) == e
}

/// The logarithm of the point that `e` encodes.
pub open spec fn log_of(e: Seq<u8>) -> nat {
    choose|d: nat| has_log(e, d)
}

/// `e` encodes a point of the group: the single byte zero for the identity,
/// the uncompressed form for any other.
pub open spec fn is_point(e: Seq<u8>) -> bool {
    &&& exists|d: nat| has_log(e, d)
    &&& if log_of(e) == 0 {
        e == seq![0u8]
    } else {
        is_affine_encoding(e)
    }
}

/// A valid point is the encoding of its own logarithm.
pub proof fn lemma_point_log(e: Seq<u8>)
    requires
        is_point(e),
    ensures
        has_log(e, log_of(e)),
        e == point_encoding(log_of(e)),
        log_of(e) < group_order(),
        log_of(e) == 0 <==> e.len() == 1,
{
}

/// The encoding of the generator `G`.
pub open spec fn generator_encoding() -> Seq<u8> {
    seq![
        0x04u8, 0x79, 0xbe, 0x66, 0x7e, 0xf9, 0xdc, 0xbb, 0xac, 0x55, 0xa0, 0x62, 0x95, 0xce, 0x87,
        0x0b, 0x07, 0x02, 0x9b, 0xfc, 0xdb, 0x2d, 0xce, 0x28, 0xd9, 0x59, 0xf2, 0x81, 0x5b, 0x16,
        0xf8, 0x17, 0x98, 0x48, 0x3a, 0xda, 0x77, 0x26, 0xa3, 0xc4, 0x65, 0x5d, 0xa4, 0xfb, 0xfc,
        0x0e, 0x11, 0x08, 0xa8, 0xfd, 0x17, 0xb4, 0x48, 0xa6, 0x85, 0x54, 0x19, 0x9c, 0x47, 0xd0,
        0x8f, 0xfb, 0x10, 0xd4, 0xb8,
    ]
}

/// An element of the scalar field: thirty-two big-endian bytes whose value is
/// below the group order.
pub struct Scalar {
    bytes: [u8; 32],
}

impl View for Scalar {
    type V = Seq<u8>;

    closed spec fn view(&self) -> Seq<u8> {
        self.bytes@
    }
}

impl Clone for Scalar {
    fn clone(&self) -> (copy: Scalar)
        ensures
            copy@ == self@,
    {
        proof {
            use_type_invariant(self);
        }
        Scalar { bytes: self.bytes }
    }
}

impl Scalar {
    /// The value is below the group order.
    #[verifier::type_invariant]
    pub closed spec fn is_valid(&self) -> bool {
        be_nat(self.bytes@) < group_order()
    }

    /// The integer that the scalar stands for.
    pub open spec fn value(&self) -> nat {
        be_nat(self@)
    }

    /// A valid scalar has thirty-two bytes and a value below the group
    /// order.
    pub proof fn lemma_valid(self)
        requires
            self.is_valid(),
        ensures
            self@.len() == 32,
            self.value() < group_order(),
    {
    }

    /// Brings into a caller's proof what holds of every scalar: its width
    /// and its range.
    pub fn canonical(&self)
        ensures
            self.is_valid(),
            self@.len() == 32,
            self.value() < group_order(),
    {
        proof {
            use_type_invariant(self);
        }
    }

    /// Calls `PrimeField::from_repr` on `k256::Scalar`, which reads the bytes
    /// as a big-endian integer and accepts it exactly when it is below the
    /// group order.
    #[verifier::external_body]
    fn from_repr(bytes: &[u8]) -> (scalar: Option<Scalar>)
        requires
            bytes@.len() == 32,
        ensures
            scalar is Some <==> be_nat(bytes@) < group_order(),
            scalar matches Some(s) ==> s@ == bytes@,
    {
        let raw: [u8; 32] = bytes.try_into().unwrap();
        match Option::<k256::Scalar>::from(k256::Scalar::from_repr(raw.into())) {
            Some(s) => Some(Scalar { bytes: s.to_bytes().into() }),
            None => None,
        }
    }

    /// Calls `Reduce::<U256>::reduce_bytes` on `k256::Scalar`, which reads the
    /// bytes as a big-endian integer and subtracts the group order once where
    /// the integer is not below it: the integer modulo the order.
    #[verifier::external_body]
    fn reduce_repr(bytes: &[u8]) -> (scalar: Scalar)
        requires
            bytes@.len() == 32,
        ensures
            scalar.value() == be_nat(bytes@) % group_order(),
    {
        let raw: [u8; 32] = bytes.try_into().unwrap();
        let reduced = <k256::Scalar as Reduce<k256::U256>>::reduce_bytes(&raw.into());
        Scalar { bytes: reduced.to_bytes().into() }
    }

    /// Calls `NonZeroScalar::random` of `k256` on the operating system's
    /// generator. It draws by rejection until the scalar is canonical and not
    /// zero; nothing else is known of the outcome.
    #[verifier::external_body]
    fn draw_nonzero() -> (scalar: Scalar)
        ensures
            1 <= scalar.value() < group_order(),
    {
        let drawn = k256::NonZeroScalar::random(&mut OsRng);
        Scalar { bytes: drawn.to_bytes().into() }
    }

    /// Calls the `Mul` of `k256::Scalar`: the product modulo the group order.
    #[verifier::external_body]
    fn mul_mod(&self, rhs: &Scalar) -> (product: Scalar)
        ensures
            product.value() == scalar_mul(self.value(), rhs.value()),
    {
        let a = k256::Scalar::from_repr(self.bytes.into()).unwrap();
        let b = k256::Scalar::from_repr(rhs.bytes.into()).unwrap();
        Scalar { bytes: (a * b).to_bytes().into() }
    }

    /// Calls the `Sub` of `k256::Scalar`: the difference modulo the group
    /// order.
    #[verifier::external_body]
    fn sub_mod(&self, rhs: &Scalar) -> (difference: Scalar)
        ensures
            difference.value() == scalar_sub(self.value(), rhs.value()),
    {
        let a = k256::Scalar::from_repr(self.bytes.into()).unwrap();
        let b = k256::Scalar::from_repr(rhs.bytes.into()).unwrap();
        Scalar { bytes: (a - b).to_bytes().into() }
    }

    /// Reads a scalar from its canonical encoding: exactly thirty-two bytes
    /// whose big-endian value is below the group order.
    pub fn from_bytes(bytes: &[u8]) -> (scalar: Option<Scalar>)
        ensures
            scalar is Some <==> bytes@.len() == 32 && be_nat(bytes@) < group_order(),
            scalar matches Some(s) ==> s@ == bytes@,
    {
        if bytes.len() != 32 {
            return None;
        }
        Scalar::from_repr(bytes)
    }

    /// Reads thirty-two bytes as a big-endian integer and reduces it modulo
    /// the group order.
    pub fn reduce(bytes: &[u8]) -> (scalar: Scalar)
        requires
            bytes@.len() == 32,
        ensures
            scalar.value() == be_nat(bytes@) % group_order(),
    {
        Scalar::reduce_repr(bytes)
    }

    /// A fresh scalar from the operating system's generator, never zero.
    pub fn random() -> (scalar: Scalar)
        ensures
            1 <= scalar.value() < group_order(),
    {
        Scalar::draw_nonzero()
    }

    /// The product of two scalars in the field.
    pub fn mul(&self, rhs: &Scalar) -> (product: Scalar)
        ensures
            product.value() == scalar_mul(self.value(), rhs.value()),
    {
        self.mul_mod(rhs)
    }

    /// The difference of two scalars in the field.
    pub fn sub(&self, rhs: &Scalar) -> (difference: Scalar)
        ensures
            difference.value() == scalar_sub(self.value(), rhs.value()),
    {
        self.sub_mod(rhs)
    }

    /// The thirty-two bytes of the canonical encoding.
    pub fn to_bytes(&self) -> (bytes: Vec<u8>)
        ensures
            bytes@ == self@,
            bytes@.len() == 32,
    {
        let mut out: Vec<u8> = Vec::new();
        let mut i: usize = 0;
        while i < 32
            invariant
                i <= 32,
                out@ == self.bytes@.subrange(0, i as int),
            decreases 32 - i,
        {
            out.push(self.bytes[i]);
            i = i + 1;
        }
        out
    }

    /// Whether two scalars are the same element of the field. Every byte
    /// is read, whatever the scalars hold.
    pub fn same_value(&self, other: &Scalar) -> (same: bool)
        ensures
            same == (self.value() == other.value()),
    {
        let mut difference: u8 = 0;
        let mut i: usize = 0;
        while i < 32
            invariant
                i <= 32,
                difference == 0 <==> (forall|j: int|
                    0 <= j < i ==> self.bytes@[j] == other.bytes@[j]),
            decreases 32 - i,
        {
            let a = self.bytes[i];
            let b = other.bytes[i];
            let seen = difference;
            difference = difference | (a ^ b);
            assert((seen | (a ^ b)) == 0 <==> seen == 0 && a == b) by (bit_vector);
            i = i + 1;
        }
        proof {
            if difference == 0 {
                assert(self.bytes@ =~= other.bytes@);
            } else if self.value() == other.value() {
                lemma_be_nat_injective(self.bytes@, other.bytes@);
            }
        }
        difference == 0
    }

    /// Whether the scalar is zero. Every byte is read, whatever the scalar
    /// holds.
    pub fn is_zero(&self) -> (zero: bool)
        ensures
            zero == (self.value() == 0),
    {
        let mut seen: u8 = 0;
        let mut i: usize = 0;
        while i < 32
            invariant
                i <= 32,
                seen == 0 <==> (forall|j: int| 0 <= j < i ==> self.bytes@[j] == 0),
            decreases 32 - i,
        {
            let b = self.bytes[i];
            let before = seen;
            seen = seen | b;
            assert((before | b) == 0 <==> before == 0 && b == 0) by (bit_vector);
            i = i + 1;
        }
        proof {
            lemma_be_nat_zero(self.bytes@);
        }
        seen == 0
    }
}

/// A point of the group, the identity included, held as its SEC1 encoding.
#[derive(Debug)]
pub struct Point {
    encoded: Vec<u8>,
}

impl View for Point {
    type V = Seq<u8>;

    closed spec fn view(&self) -> Seq<u8> {
        self.encoded@
    }
}

impl Clone for Point {
    fn clone(&self) -> (copy: Point)
        ensures
            copy@ == self@,
    {
        proof {
            use_type_invariant(self);
        }
        Point { encoded: self.encoded.clone() }
    }
}

impl Point {
    /// The bytes encode a point of the group.
    #[verifier::type_invariant]
    pub closed spec fn is_valid(&self) -> bool {
        is_point(self.encoded@)
    }

    /// The `d` below the group order for which the point is `d * G`.
    pub open spec fn log(&self) -> nat {
        log_of(self@)
    }

    /// Brings into a caller's proof what holds of every point: it is the
    /// encoding of its logarithm, in one of the two SEC1 shapes.
    pub fn valid(&self)
        ensures
            self.is_valid(),
            is_point(self@),
            self@ == point_encoding(self.log()),
            self.log() < group_order(),
            self.log() == 0 <==> self@.len() == 1,
            self.log() != 0 ==> is_affine_encoding(self@),
    {
        proof {
            use_type_invariant(self);
            lemma_point_log(self@);
        }
    }

    /// Reads `ProjectivePoint::GENERATOR` of `k256`, whose source gives the
    /// coordinates written out in `generator_encoding`; it is `1 * G`.
    #[verifier::external_body]
    fn base_point() -> (g: Point)
        ensures
            is_point(g@),
            g@ == generator_encoding(),
            g@ == point_encoding(1),
            g.log() == 1,
    {
        Point { encoded: ProjectivePoint::GENERATOR.to_encoded_point(false).as_bytes().to_vec() }
    }

    /// Calls the `Mul<Scalar>` of `k256::ProjectivePoint`, the scalar
    /// multiplication of the group: `k * (d * G)` is `(d * k mod q) * G`.
    /// `k256` marks the group as one of prime order, so the product is the
    /// identity only where the point is the identity or the scalar is zero.
    #[verifier::external_body]
    fn mul_scalar(&self, k: &Scalar) -> (product: Point)
        ensures
            is_point(product@),
            product@ == point_encoding(scalar_mul(self.log(), k.value())),
            product.log() == scalar_mul(self.log(), k.value()),
            product.log() == 0 <==> self.log() == 0 || k.value() == 0,
    {
        let encoded = EncodedPoint::from_bytes(&self.encoded).unwrap();
        let p = ProjectivePoint::from_encoded_point(&encoded).unwrap();
        let s = k256::Scalar::from_repr(k.bytes.into()).unwrap();
        Point { encoded: (p * s).to_encoded_point(false).as_bytes().to_vec() }
    }

    /// Calls the `Add` of `k256::ProjectivePoint`, the operation of the
    /// group: `d * G + e * G` is `(d + e mod q) * G`.
    #[verifier::external_body]
    fn group_add(&self, rhs: &Point) -> (sum: Point)
        ensures
            is_point(sum@),
            sum@ == point_encoding(scalar_add(self.log(), rhs.log())),
            sum.log() == scalar_add(self.log(), rhs.log()),
    {
        let left = EncodedPoint::from_bytes(&self.encoded).unwrap();
        let right = EncodedPoint::from_bytes(&rhs.encoded).unwrap();
        let a = ProjectivePoint::from_encoded_point(&left).unwrap();
        let b = ProjectivePoint::from_encoded_point(&right).unwrap();
        Point { encoded: (a + b).to_encoded_point(false).as_bytes().to_vec() }
    }

    /// Calls `EncodedPoint::from_bytes` of `sec1` and then
    /// `FromEncodedPoint::from_encoded_point` on `k256::ProjectivePoint`.
    /// Under the tag `0x04` the first accepts exactly sixty-five bytes, and
    /// the second accepts exactly two reduced coordinates that satisfy the
    /// curve equation. Every such point is a multiple of `G` other than the
    /// identity, because the group of the curve has prime order.
    #[verifier::external_body]
    fn decode_uncompressed(encoded: &Vec<u8>) -> (point: Option<Point>)
        requires
            encoded@.len() > 0,
            encoded@[0] == 4,
        ensures
            point is Some <==> is_affine_encoding(encoded@),
            point matches Some(p) ==> p@ == encoded@ && is_point(p@) && p.log() != 0,
    {
        match EncodedPoint::from_bytes(encoded) {
            Ok(e) => match Option::<ProjectivePoint>::from(ProjectivePoint::from_encoded_point(&e)) {
                Some(p) => Some(Point { encoded: p.to_encoded_point(false).as_bytes().to_vec() }),
                None => None,
            },
            Err(_) => None,
        }
    }

    /// The generator `G` of the group.
    pub fn generator() -> (g: Point)
        ensures
            g@ == generator_encoding(),
            g.log() == 1,
    {
        Point::base_point()
    }

    /// The scalar multiple `k * self`. It is the identity only where the
    /// point is the identity or the scalar is zero.
    pub fn mul(&self, k: &Scalar) -> (product: Point)
        ensures
            product.log() == scalar_mul(self.log(), k.value()),
            product.log() == 0 <==> self.log() == 0 || k.value() == 0,
    {
        self.mul_scalar(k)
    }

    /// The sum of two points.
    pub fn add(&self, rhs: &Point) -> (sum: Point)
        ensures
            sum.log() == scalar_add(self.log(), rhs.log()),
    {
        self.group_add(rhs)
    }

    /// Reads a point other than the identity from its uncompressed SEC1
    /// encoding, and accepts it exactly when it lies on the curve.
    pub fn from_uncompressed(encoded: &Vec<u8>) -> (point: Option<Point>)
        ensures
            point is Some <==> is_affine_encoding(encoded@),
            point matches Some(p) ==> p@ == encoded@ && p.log() != 0,
    {
        if encoded.len() == 0 || encoded[0] != 4 {
            return None;
        }
        Point::decode_uncompressed(encoded)
    }

    /// Whether the point is the identity of the group.
    pub fn is_identity(&self) -> (identity: bool)
        ensures
            identity == (self.log() == 0),
    {
        self.valid();
        self.encoded.len() == 1
    }

    /// The SEC1 encoding: one zero byte for the identity, sixty-five bytes
    /// for any other point.
    pub fn to_sec1(&self) -> (encoded: Vec<u8>)
        ensures
            encoded@ == self@,
    {
        self.encoded.clone()
    }

    /// The big-endian `x` coordinate of a point other than the identity.
    pub fn x_bytes(&self) -> (x: Vec<u8>)
        requires
            self.log() != 0,
        ensures
            x@ == self@.subrange(1, 33),
    {
        self.valid();
        vstd::slice::slice_to_vec(&self.encoded.as_slice()[1..33])
    }

    /// The big-endian `y` coordinate of a point other than the identity.
    pub fn y_bytes(&self) -> (y: Vec<u8>)
        requires
            self.log() != 0,
        ensures
            y@ == self@.subrange(33, 65),
    {
        self.valid();
        vstd::slice::slice_to_vec(&self.encoded.as_slice()[33..65])
    }
}

} // verus!
