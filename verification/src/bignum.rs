//! Natural numbers of any size, held as big-endian bytes, with the
//! arithmetic of `num-bigint`.

use vstd::prelude::*;
use vstd::arithmetic::power::pow;
use num_traits::FromPrimitive;
use num_traits::Num;
use crate::encoding::be_nat;
use crate::encoding::hex_digit;
use crate::encoding::hex_val;

verus! {

/// What is left of radix-16 text once one leading `+` is taken off; a `+`
/// that another `+` follows stays.
pub open spec fn radix16_body(s: Seq<char>) -> Seq<char> {
    if s.len() > 0 && s[0] == '+' && !(s.len() > 1 && s[1] == '+') {
        s.skip(1)
    } else {
        s
    }
}

/// The digits that are read: not empty, not starting with an underscore,
/// and made of hexadecimal digits of either case and underscores.
pub open spec fn radix16_digits(t: Seq<char>) -> bool {
    &&& t.len() > 0
    &&& t[0] != '_'
    &&& forall|i: int| 0 <= i < t.len() ==> #[trigger] t[i] == '_' || hex_val(t[i]) >= 0
}

/// The value of hexadecimal digits, most significant first; underscores
/// between them count for nothing.
pub open spec fn digits_value(t: Seq<char>) -> nat
    decreases t.len(),
{
    if t.len() == 0 {
        0
    } else if t.last() == '_' {
        digits_value(t.drop_last())
    } else {
        digits_value(t.drop_last()) * 16 + hex_val(t.last()) as nat
    }
}

/// The number that radix-16 text stands for, or `None` where the text is
/// not such a number.
pub open spec fn radix16_value(s: Seq<char>) -> Option<nat> {
    if radix16_digits(radix16_body(s)) {
        Some(digits_value(radix16_body(s)))
    } else {
        None
    }
}

/// The lowercase hexadecimal digits of a number, without leading zeros;
/// zero is the single digit `0`.
pub open spec fn hex_digits(n: nat) -> Seq<char>
    decreases n,
{
    if n < 16 {
        seq![hex_digit(n as int)]
    } else {
        hex_digits(n / 16).push(hex_digit((n % 16) as int))
    }
}

/// Text filled up with zeros on the left to `width` characters; longer text
/// stays as it is.
pub open spec fn zero_padded(s: Seq<char>, width: nat) -> Seq<char> {
    if s.len() >= width {
        s
    } else {
        Seq::new((width - s.len()) as nat, |i: int| '0') + s
    }
}

/// The error of `num-bigint`'s parser, carried through unread.
#[verifier::external_type_specification]
#[verifier::external_body]
pub struct ExParseBigIntError(num_bigint::ParseBigIntError);

/// Calls `Num::from_str_radix` on `BigUint` with radix 16. Its source takes
/// off one leading `+` unless another follows, refuses empty text and a
/// leading underscore, skips every other underscore, refuses any byte that
/// is no hexadecimal digit, and reads the digits most significant first.
#[verifier::external_body]
pub(crate) fn big_parse_hex(text: &str) -> (parsed: Result<Vec<u8>, num_bigint::ParseBigIntError>)
    ensures
        parsed is Ok <==> radix16_value(text@) is Some,
        parsed matches Ok(n) ==> radix16_value(text@) == Some(be_nat(n@)),
{
    match num_bigint::BigUint::from_str_radix(text, 16) {
        Ok(n) => Ok(n.to_bytes_be()),
        Err(e) => Err(e),
    }
}

/// Calls `FromPrimitive::from_u32` on `BigUint`, which always gives the
/// number itself.
#[verifier::external_body]
pub(crate) fn big_from_u32(v: u32) -> (n: Vec<u8>)
    ensures
        be_nat(n@) == v,
{
    num_bigint::BigUint::from_u32(v).unwrap().to_bytes_be()
}

/// Calls `BigUint::pow`: the base raised to the exponent.
#[verifier::external_body]
pub(crate) fn big_pow(base: &Vec<u8>, exponent: u32) -> (n: Vec<u8>)
    ensures
        be_nat(n@) == pow(be_nat(base@) as int, exponent as nat),
{
    num_bigint::BigUint::from_bytes_be(base).pow(exponent).to_bytes_be()
}

/// Calls the `Mul` of `BigUint`: the product.
#[verifier::external_body]
pub(crate) fn big_mul(a: &Vec<u8>, b: &Vec<u8>) -> (n: Vec<u8>)
    ensures
        be_nat(n@) == be_nat(a@) * be_nat(b@),
{
    (num_bigint::BigUint::from_bytes_be(a) * num_bigint::BigUint::from_bytes_be(b)).to_bytes_be()
}

/// Calls the `Add` of `BigUint`: the sum.
#[verifier::external_body]
pub(crate) fn big_add(a: &Vec<u8>, b: &Vec<u8>) -> (n: Vec<u8>)
    ensures
        be_nat(n@) == be_nat(a@) + be_nat(b@),
{
    (num_bigint::BigUint::from_bytes_be(a) + num_bigint::BigUint::from_bytes_be(b)).to_bytes_be()
}

/// Formats a `BigUint` with `{:064x}`: its `LowerHex` writes the lowercase
/// digits without leading zeros, and the width of 64 with the zero flag
/// fills shorter text up with zeros on the left.
#[verifier::external_body]
pub(crate) fn big_format_hex64(n: &Vec<u8>) -> (text: String)
    ensures
        text@ == zero_padded(hex_digits(be_nat(n@)), 64),
{
    format!("{:064x}", num_bigint::BigUint::from_bytes_be(n))
}

} // verus!
