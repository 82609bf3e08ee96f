//! The wire form of points, and the public inputs at the head of a client's
//! proof.
//!
//! On the wire a point is two texts of sixty-four hexadecimal digits, its
//! coordinates. A client's proof starts with 224 bytes of public inputs: a
//! commitment of 32 bytes, then each coordinate of the client's point as
//! three limbs of 120 bits, every limb in a big-endian chunk of 32 bytes.

use vstd::prelude::*;
use vstd::arithmetic::power::lemma_pow_multiplies;
use vstd::arithmetic::power::pow;
use vstd::string::StrSliceExecFns;
use vstd::string::StringExecFns;
use crate::bignum::big_add;
use crate::bignum::big_format_hex64;
use crate::bignum::big_from_u32;
use crate::bignum::big_mul;
use crate::bignum::big_parse_hex;
use crate::bignum::big_pow;
use crate::bignum::digits_value;
use crate::bignum::hex_digits;
use crate::bignum::radix16_body;
use crate::bignum::radix16_digits;
use crate::bignum::radix16_value;
use crate::bignum::zero_padded;
use crate::curve::is_affine_encoding;
use crate::curve::is_point;
use crate::curve::lemma_point_log;
use crate::curve::log_of;
use crate::curve::on_curve;
use crate::curve::Point;
use crate::encoding::append_bytes;
use crate::encoding::be_bytes;
use crate::encoding::be_nat;
use crate::encoding::byte_range;
use crate::encoding::hex_bytes;
use crate::encoding::hex_decode;
use crate::encoding::hex_digit;
use crate::encoding::hex_encode;
use crate::encoding::hex_lower;
use crate::encoding::hex_val;
use crate::encoding::is_hex_text;
use crate::encoding::lemma_be_bytes_len;
use crate::encoding::lemma_hex_round_trip;
use crate::error::Error;

verus! {

/// A point as it travels: each coordinate as sixty-four hexadecimal digits.
#[derive(Debug)]
pub struct ECPoint {
    pub x: String,
    pub y: String,
}

/// The uncompressed SEC1 encoding of two coordinates.
pub open spec fn uncompressed(x: Seq<u8>, y: Seq<u8>) -> Seq<u8> {
    seq![4u8] + x + y
}

/// The encoding of the point that two coordinate texts stand for: both are
/// hexadecimal text of exactly thirty-two bytes, and the two values are
/// reduced coordinates of a point on the curve. Anything else stands for no
/// point.
pub open spec fn decoded_point(x: Seq<char>, y: Seq<char>) -> Option<Seq<u8>> {
    match (hex_bytes(x), hex_bytes(y)) {
        (Some(xb), Some(yb)) => if xb.len() == 32 && yb.len() == 32 && on_curve(
            be_nat(xb),
            be_nat(yb),
        ) {
            Some(uncompressed(xb, yb))
        } else {
            None
        },
        _ => None,
    }
}

/// Reads a point from its wire form. The point is accepted exactly when both
/// texts are sixty-four hexadecimal digits and the coordinates lie on the
/// curve; an accepted point is never the identity.
pub fn ecpoint_to_projective(point: &ECPoint) -> (decoded: Result<Point, Error>)
    ensures
        decoded is Ok <==> decoded_point(point.x@, point.y@) is Some,
        decoded matches Ok(p) ==> {
            &&& Some(p@) == decoded_point(point.x@, point.y@)
            &&& is_affine_encoding(p@)
            &&& p.log() != 0
        },
        decoded matches Err(e) ==> e is InvalidPoint,
{
    let x = match hex_decode(point.x.as_str()) {
        Ok(x) => x,
        Err(_) => {
            return Err(Error::InvalidPoint);
        },
    };
    let y = match hex_decode(point.y.as_str()) {
        Ok(y) => y,
        Err(_) => {
            return Err(Error::InvalidPoint);
        },
    };
    if x.len() != 32 || y.len() != 32 {
        return Err(Error::InvalidPoint);
    }
    let mut encoded: Vec<u8> = Vec::new();
    encoded.push(4);
    append_bytes(&mut encoded, &x);
    append_bytes(&mut encoded, &y);
    proof {
        let e = uncompressed(x@, y@);
        assert(e.subrange(1, 33) =~= x@);
        assert(e.subrange(33, 65) =~= y@);
    }
    match Point::from_uncompressed(&encoded) {
        Some(p) => Ok(p),
        None => Err(Error::InvalidPoint),
    }
}

/// Writes a point other than the identity in its wire form.
pub fn projective_to_ecpoint(point: &Point) -> (wire: ECPoint)
    requires
        point.log() != 0,
    ensures
        wire.x@ == hex_lower(point@.subrange(1, 33)),
        wire.y@ == hex_lower(point@.subrange(33, 65)),
{
    let x = point.x_bytes();
    let y = point.y_bytes();
    ECPoint { x: hex_encode(x.as_slice()), y: hex_encode(y.as_slice()) }
}

/// Writing a point other than the identity and reading the text again gives
/// the point back.
pub proof fn law_point_round_trip(p: Seq<u8>)
    requires
        is_point(p),
        log_of(p) != 0,
    ensures
        decoded_point(hex_lower(p.subrange(1, 33)), hex_lower(p.subrange(33, 65))) == Some(p),
{
    lemma_point_log(p);
    let x = p.subrange(1, 33);
    let y = p.subrange(33, 65);
    lemma_hex_round_trip(x);
    lemma_hex_round_trip(y);
}

/// Text that is not the wire form of a point on the curve is refused: a
/// text of another length than sixty-four, a text with a character that is
/// no hexadecimal digit, and coordinates off the curve all stand for no
/// point.
pub proof fn law_malformed_points_are_refused(x: Seq<char>, y: Seq<char>)
    ensures
        x.len() != 64 || y.len() != 64 ==> decoded_point(x, y) is None,
        !is_hex_text(x) || !is_hex_text(y) ==> decoded_point(x, y) is None,
        decoded_point(x, y) matches Some(e) ==> is_affine_encoding(e),
{
    if let Some(e) = decoded_point(x, y) {
        let xb = hex_bytes(x).unwrap();
        let yb = hex_bytes(y).unwrap();
        assert(e.subrange(1, 33) =~= xb);
        assert(e.subrange(33, 65) =~= yb);
    }
}

/// Text without the prefixes `0x` at its start, however many there are.
pub open spec fn strip_0x(s: Seq<char>) -> Seq<char>
    decreases s.len(),
{
    if s.len() >= 2 && s[0] == '0' && s[1] == 'x' {
        strip_0x(s.skip(2))
    } else {
        s
    }
}

/// Text without the zeros at its start.
pub open spec fn trim_zeros(s: Seq<char>) -> Seq<char>
    decreases s.len(),
{
    if s.len() >= 1 && s[0] == '0' {
        trim_zeros(s.skip(1))
    } else {
        s
    }
}

/// The number that a limb's text stands for: radix-16 text behind any
/// number of prefixes `0x`.
pub open spec fn limb_value(s: Seq<char>) -> Option<nat> {
    radix16_value(strip_0x(s))
}

/// Three limbs of 120 bits put together, least significant first:
/// `l0 + l1 * 2^120 + l2 * 2^240`.
pub open spec fn limbs_value(l0: nat, l1: nat, l2: nat) -> nat {
    (l0 + l1 * pow(2, 120) + l2 * pow(2, 240)) as nat
}

/// A coordinate as text: lowercase hexadecimal digits, filled up with zeros
/// on the left to sixty-four.
pub open spec fn coordinate_text(v: nat) -> Seq<char> {
    zero_padded(hex_digits(v), 64)
}

/// The coordinate that ninety-six bytes of public inputs hold: three chunks
/// of thirty-two bytes, each the big-endian value of one limb.
pub open spec fn chunks_value(chunks: Seq<u8>) -> nat {
    limbs_value(
        be_nat(chunks.subrange(0, 32)),
        be_nat(chunks.subrange(32, 64)),
        be_nat(chunks.subrange(64, 96)),
    )
}

/// The public inputs that a proof holds, where it has at least 224 bytes:
/// the commitment as `0x` and the digits of bytes 0 to 31, and the two
/// coordinates of the client's point, `x` from bytes 32 to 127 and `y` from
/// bytes 128 to 223.
pub open spec fn public_inputs(proof: Seq<u8>) -> Option<(Seq<char>, Seq<char>, Seq<char>)> {
    if proof.len() >= 224 {
        Some(
            (
                seq!['0', 'x'] + hex_lower(proof.subrange(0, 32)),
                coordinate_text(chunks_value(proof.subrange(32, 128))),
                coordinate_text(chunks_value(proof.subrange(128, 224))),
            ),
        )
    } else {
        None
    }
}

/// Takes the prefixes `0x` off the start of a text.
fn strip_prefix(s: &str) -> (rest: &str)
    ensures
        rest@ == strip_0x(s@),
{
    let n = s.unicode_len();
    let mut start: usize = 0;
    assert(s@.skip(0) =~= s@);
    while n - start >= 2 && s.get_char(start) == '0' && s.get_char(start + 1) == 'x'
        invariant
            start <= n,
            n == s@.len(),
            strip_0x(s@) == strip_0x(s@.skip(start as int)),
        decreases n - start,
    {
        proof {
            assert(s@.skip(start as int).skip(2) =~= s@.skip(start + 2));
        }
        start = start + 2;
    }
    s.substring_char(start, n)
}

/// Takes the zeros off the start of a text.
fn trim_leading_zeros(s: &str) -> (rest: &str)
    ensures
        rest@ == trim_zeros(s@),
{
    let n = s.unicode_len();
    let mut start: usize = 0;
    assert(s@.skip(0) =~= s@);
    while n - start >= 1 && s.get_char(start) == '0'
        invariant
            start <= n,
            n == s@.len(),
            trim_zeros(s@) == trim_zeros(s@.skip(start as int)),
        decreases n - start,
    {
        proof {
            assert(s@.skip(start as int).skip(1) =~= s@.skip(start + 1));
        }
        start = start + 1;
    }
    s.substring_char(start, n)
}

/// Puts three limbs of 120 bits together and writes the number as a
/// coordinate. Each of the first three texts must be a limb: radix-16 text
/// behind any number of prefixes `0x`.
pub fn limbs_to_hex(limbs: &[String]) -> (text: String)
    requires
        limbs@.len() >= 3,
        limb_value(limbs@[0]@) is Some,
        limb_value(limbs@[1]@) is Some,
        limb_value(limbs@[2]@) is Some,
    ensures
        text@ == coordinate_text(
            limbs_value(
                limb_value(limbs@[0]@).unwrap(),
                limb_value(limbs@[1]@).unwrap(),
                limb_value(limbs@[2]@).unwrap(),
            ),
        ),
{
    let limb0 = read_limb(limbs[0].as_str());
    let limb1 = read_limb(limbs[1].as_str());
    let limb2 = read_limb(limbs[2].as_str());
    let two = big_from_u32(2);
    let shift_120 = big_pow(&two, 120);
    let shift_240 = big_pow(&shift_120, 2);
    proof {
        lemma_pow_multiplies(2, 120, 2);
    }
    let low = big_add(&limb0, &big_mul(&limb1, &shift_120));
    let result = big_add(&low, &big_mul(&limb2, &shift_240));
    big_format_hex64(&result)
}

/// Reads one limb.
fn read_limb(s: &str) -> (n: Vec<u8>)
    requires
        limb_value(s@) is Some,
    ensures
        Some(be_nat(n@)) == limb_value(s@),
{
    match big_parse_hex(strip_prefix(s)) {
        Ok(n) => n,
        Err(_) => {
            proof {
                assert(false);
            }
            vstd::pervasive::unreached()
        },
    }
}

/// Every character is a hexadecimal digit.
pub open spec fn all_hex(s: Seq<char>) -> bool {
    forall|i: int| 0 <= i < s.len() ==> hex_val(#[trigger] s[i]) >= 0
}

/// The hexadecimal text of bytes is made of digits, and its value is the
/// big-endian value of the bytes.
pub proof fn lemma_hex_lower_value(bytes: Seq<u8>)
    ensures
        all_hex(hex_lower(bytes)),
        digits_value(hex_lower(bytes)) == be_nat(bytes),
    decreases bytes.len(),
{
    let s = hex_lower(bytes);
    assert forall|i: int| 0 <= i < s.len() implies hex_val(#[trigger] s[i]) >= 0 by {}
    if bytes.len() > 0 {
        // the last byte gives the last two digits
        let front = bytes.drop_last();
        lemma_hex_lower_value(front);
        assert(s.drop_last().drop_last() =~= hex_lower(front));
        assert(digits_value(s) == digits_value(s.drop_last()) * 16 + bytes.last() as int % 16);
    }
}

/// A zero in front does not change the value of digits.
pub proof fn lemma_leading_zero(s: Seq<char>)
    requires
        s.len() >= 1,
        s[0] == '0',
    ensures
        digits_value(s) == digits_value(s.skip(1)),
    decreases s.len(),
{
    if s.len() == 1 {
        assert(digits_value(s.drop_last()) == 0);
    } else {
        let front = s.drop_last();
        let rest = s.skip(1);
        lemma_leading_zero(front);
        assert(rest.drop_last() =~= front.skip(1));
    }
}

/// Taking the zeros off the start of digits keeps their value and leaves
/// digits that do not start with a zero.
pub proof fn lemma_trim_zeros_value(s: Seq<char>)
    requires
        all_hex(s),
    ensures
        all_hex(trim_zeros(s)),
        digits_value(trim_zeros(s)) == digits_value(s),
        trim_zeros(s).len() > 0 ==> trim_zeros(s)[0] != '0',
    decreases s.len(),
{
    if s.len() >= 1 && s[0] == '0' {
        let rest = s.skip(1);
        assert forall|i: int| 0 <= i < rest.len() implies hex_val(#[trigger] rest[i]) >= 0 by {}
        lemma_leading_zero(s);
        lemma_trim_zeros_value(rest);
    }
}

/// Digits that do not start with a zero, behind the prefix `0x`, are a limb
/// with the value of the digits.
pub proof fn lemma_prefixed_limb(t: Seq<char>)
    requires
        t.len() > 0,
        all_hex(t),
        t[0] != '0',
    ensures
        limb_value(seq!['0', 'x'] + t) == Some(digits_value(t)),
{
    let u = seq!['0', 'x'] + t;
    assert(u.skip(2) =~= t);
    assert(strip_0x(t) == t);
}

/// The single digit `0` is a limb of value zero.
pub proof fn lemma_zero_limb()
    ensures
        limb_value(seq!['0']) == Some(0nat),
{
    let z = seq!['0'];
    assert(digits_value(z) == digits_value(z.drop_last()) * 16 + 0);
}

/// Writes a chunk of the public inputs as a limb: its hexadecimal digits
/// without leading zeros behind `0x`, or `0` where nothing is left.
fn limb_of_chunk(chunk: &[u8]) -> (limb: String)
    ensures
        limb_value(limb@) == Some(be_nat(chunk@)),
{
    let hex = hex_encode(chunk);
    let trimmed = trim_leading_zeros(hex.as_str());
    proof {
        lemma_hex_lower_value(chunk@);
        lemma_trim_zeros_value(hex@);
        reveal_strlit("0");
        reveal_strlit("0x");
    }
    if trimmed.unicode_len() == 0 {
        proof {
            lemma_zero_limb();
            assert("0"@ =~= seq!['0']);
        }
        String::from_str("0")
    } else {
        proof {
            lemma_prefixed_limb(trimmed@);
            assert("0x"@ =~= seq!['0', 'x']);
        }
        String::from_str("0x").concat(trimmed)
    }
}

/// Reads one coordinate from its three chunks.
fn coordinate(chunks: &[u8]) -> (text: String)
    requires
        chunks@.len() == 96,
    ensures
        text@ == coordinate_text(chunks_value(chunks@)),
{
    let mut limbs: Vec<String> = Vec::new();
    let mut i: usize = 0;
    while i < 3
        invariant
            i <= 3,
            chunks@.len() == 96,
            limbs@.len() == i,
            forall|j: int|
                0 <= j < i ==> limb_value(#[trigger] limbs@[j]@) == Some(
                    be_nat(chunks@.subrange(32 * j, 32 * j + 32)),
                ),
        decreases 3 - i,
    {
        let limb = limb_of_chunk(&chunks[32 * i..32 * i + 32]);
        limbs.push(limb);
        i = i + 1;
    }
    limbs_to_hex(limbs.as_slice())
}

/// Reads the public inputs at the head of a client's proof: the commitment
/// in bytes 0 to 31, written as `0x` and its hexadecimal digits, and the
/// client's point, whose `x` is held in bytes 32 to 127 and whose `y` in
/// bytes 128 to 223. A proof of fewer than 224 bytes holds no point.
pub fn parse_public_inputs(proof: &[u8]) -> (parsed: Result<(String, ECPoint), Error>)
    ensures
        match parsed {
            Ok((commitment, point)) => public_inputs(proof@) == Some(
                (commitment@, point.x@, point.y@),
            ),
            Err(e) => e is InvalidPoint && public_inputs(proof@) is None,
        },
{
    if proof.len() < 224 {
        return Err(Error::InvalidPoint);
    }
    let digits = hex_encode(&proof[0..32]);
    let commitment = String::from_str("0x").concat(digits.as_str());
    proof {
        reveal_strlit("0x");
    }
    let x = coordinate(&proof[32..128]);
    let y = coordinate(&proof[128..224]);
    Ok((commitment, ECPoint { x, y }))
}

/// From 256 on, the digits of a number are the digits of its 256th part
/// and the two digits of its last byte.
pub proof fn lemma_hex_digits_by_byte(v: nat)
    requires
        v >= 256,
    ensures
        hex_digits(v) == hex_digits(v / 256).push(hex_digit(((v / 16) % 16) as int)).push(
            hex_digit((v % 16) as int),
        ),
{
    assert(hex_digits(v / 16) == hex_digits(v / 16 / 16).push(hex_digit(((v / 16) % 16) as int)));
}

/// `len` bytes hold at least one value.
pub proof fn lemma_byte_range_positive(len: nat)
    ensures
        byte_range(len) >= 1,
    decreases len,
{
    if len > 0 {
        lemma_byte_range_positive((len - 1) as nat);
    }
}

/// Every number has a digit.
pub proof fn lemma_hex_digits_nonempty(v: nat)
    ensures
        hex_digits(v).len() >= 1,
{
}

/// A number has at most twice as many digits as bytes it fits in, and more
/// where it does not fit.
pub proof fn lemma_hex_digits_len(v: nat, len: nat)
    requires
        len >= 1,
    ensures
        v < byte_range(len) ==> hex_digits(v).len() <= 2 * len,
        v >= byte_range(len) ==> hex_digits(v).len() > 2 * len,
    decreases len,
{
    reveal_with_fuel(hex_digits, 2);
    lemma_byte_range_positive((len - 1) as nat);
    if v >= 256 {
        lemma_hex_digits_by_byte(v);
        lemma_hex_digits_nonempty(v / 256);
        if len > 1 {
            lemma_hex_digits_len(v / 256, (len - 1) as nat);
        }
    }
}

/// A number that fits in `len` bytes, written with its digits and filled up
/// with zeros to two digits a byte, is the hexadecimal text of its
/// big-endian bytes.
pub proof fn lemma_padded_digits(v: nat, len: nat)
    requires
        len >= 1,
        v < byte_range(len),
    ensures
        zero_padded(hex_digits(v), 2 * len) == hex_lower(be_bytes(v, len)),
    decreases len,
{
    reveal_with_fuel(byte_range, 2);
    reveal_with_fuel(hex_digits, 2);
    reveal_with_fuel(be_bytes, 2);
    let width = 2 * len;
    let bytes = be_bytes(v, len);
    let text = hex_lower(bytes);
    let padded = zero_padded(hex_digits(v), width);
    let high = hex_digit(((v / 16) % 16) as int);
    let low = hex_digit((v % 16) as int);
    lemma_be_bytes_len(v, len);
    lemma_hex_digits_len(v, len);
    assert((width - 1) % 2 == 1 && (width - 1) / 2 == len - 1);
    if len == 1 {
        // one byte: one digit behind a zero, or two digits
        assert(v < 256);
        if v < 16 {
            assert(hex_digits(v) =~= seq![low]);
            assert(high == '0');
        }
    } else {
        // the bytes in front give the text in front, the last byte the last
        // two digits
        let front_len = (len - 1) as nat;
        lemma_padded_digits(v / 256, front_len);
        lemma_be_bytes_len(v / 256, front_len);
        lemma_hex_digits_len(v / 256, front_len);
        let front = zero_padded(hex_digits(v / 256), 2 * front_len);
        assert(bytes.drop_last() =~= be_bytes(v / 256, front_len));
        assert forall|i: int| 0 <= i < width - 2 implies text[i] == front[i] by {
            assert(bytes[i / 2] == bytes.drop_last()[i / 2]);
        }
        if v >= 256 {
            lemma_hex_digits_by_byte(v);
        } else {
            assert(v / 256 == 0);
            assert(hex_digits(0) =~= seq!['0']);
            if v < 16 {
                assert(hex_digits(v) =~= seq![low]);
                assert(high == '0');
            }
        }
        assert(padded.len() == width);
        assert forall|i: int| 0 <= i < width implies padded[i] == text[i] by {
            if i < width - 2 {
                assert(padded[i] == front[i]);
            }
        }
    }
}

/// A coordinate below `2^256` is written as the hexadecimal text of its
/// thirty-two big-endian bytes; from `2^256` on, the text has more than
/// sixty-four digits.
pub proof fn law_coordinate_text(v: nat)
    ensures
        v < byte_range(32) ==> coordinate_text(v) == hex_lower(be_bytes(v, 32)),
        v >= byte_range(32) ==> coordinate_text(v).len() > 64,
{
    lemma_hex_digits_len(v, 32);
    if v < byte_range(32) {
        lemma_padded_digits(v, 32);
    }
}

} // verus!
