//! Big-endian integers and hexadecimal text, as mathematical functions, and
//! the calls into the `hex` crate.

use vstd::prelude::*;

verus! {

/// The lowercase hexadecimal digit of a value below sixteen.
pub open spec fn hex_digit(v: int) -> char {
    if v == 0 {
        '0'
    } else if v == 1 {
        '1'
    } else if v == 2 {
        '2'
    } else if v == 3 {
        '3'
    } else if v == 4 {
        '4'
    } else if v == 5 {
        '5'
    } else if v == 6 {
        '6'
    } else if v == 7 {
        '7'
    } else if v == 8 {
        '8'
    } else if v == 9 {
        '9'
    } else if v == 10 {
        'a'
    } else if v == 11 {
        'b'
    } else if v == 12 {
        'c'
    } else if v == 13 {
        'd'
    } else if v == 14 {
        'e'
    } else {
        'f'
    }
}

/// The value of a hexadecimal digit of either case, or `-1` for any other
/// character.
pub open spec fn hex_val(c: char) -> int {
    if c == '0' {
        0
    } else if c == '1' {
        1
    } else if c == '2' {
        2
    } else if c == '3' {
        3
    } else if c == '4' {
        4
    } else if c == '5' {
        5
    } else if c == '6' {
        6
    } else if c == '7' {
        7
    } else if c == '8' {
        8
    } else if c == '9' {
        9
    } else if c == 'a' || c == 'A' {
        10
    } else if c == 'b' || c == 'B' {
        11
    } else if c == 'c' || c == 'C' {
        12
    } else if c == 'd' || c == 'D' {
        13
    } else if c == 'e' || c == 'E' {
        14
    } else if c == 'f' || c == 'F' {
        15
    } else {
        -1
    }
}

/// The big-endian value of a byte string; the empty string is zero.
pub open spec fn be_nat(bytes: Seq<u8>) -> nat
    decreases bytes.len(),
{
    if bytes.len() == 0 {
        0
    } else {
        be_nat(bytes.drop_last()) * 256 + bytes.last() as nat
    }
}

/// The big-endian encoding of `n` in exactly `len` bytes (the low `len`
/// bytes of `n` where it does not fit).
pub open spec fn be_bytes(n: nat, len: nat) -> Seq<u8>
    decreases len,
{
    if len == 0 {
        Seq::empty()
    } else {
        be_bytes(n / 256, (len - 1) as nat).push((n % 256) as u8)
    }
}

/// The number of values that `len` bytes can hold: `256^len`.
pub open spec fn byte_range(len: nat) -> nat
    decreases len,
{
    if len == 0 {
        1
    } else {
        256 * byte_range((len - 1) as nat)
    }
}

/// Lowercase hexadecimal text of a byte string: two digits per byte, high
/// nibble first.
pub open spec fn hex_lower(bytes: Seq<u8>) -> Seq<char> {
    Seq::new(
        2 * bytes.len(),
        |i: int|
            if i % 2 == 0 {
                hex_digit(bytes[i / 2] as int / 16)
            } else {
                hex_digit(bytes[i / 2] as int % 16)
            },
    )
}

/// Every character is a hexadecimal digit and there is an even number of them.
pub open spec fn is_hex_text(s: Seq<char>) -> bool {
    &&& s.len() % 2 == 0
    &&& forall|i: int| 0 <= i < s.len() ==> hex_val(#[trigger] s[i]) >= 0
}

/// The bytes that hexadecimal text of either case stands for, or `None` where
/// the text has an odd length or holds anything but hexadecimal digits.
pub open spec fn hex_bytes(s: Seq<char>) -> Option<Seq<u8>> {
    if is_hex_text(s) {
        Some(
            Seq::new(s.len() / 2, |i: int| (hex_val(s[2 * i]) * 16 + hex_val(s[2 * i + 1])) as u8),
        )
    } else {
        None
    }
}

/// A big-endian value is zero exactly when every byte is zero.
pub proof fn lemma_be_nat_zero(bytes: Seq<u8>)
    ensures
        be_nat(bytes) == 0 <==> (forall|i: int| 0 <= i < bytes.len() ==> bytes[i] == 0),
    decreases bytes.len(),
{
    if bytes.len() > 0 {
        let front = bytes.drop_last();
        lemma_be_nat_zero(front);
        if be_nat(bytes) == 0 {
            assert forall|i: int| 0 <= i < bytes.len() implies bytes[i] == 0 by {
                if i < front.len() {
                    assert(front[i] == bytes[i]);
                }
            }
        }
        if forall|i: int| 0 <= i < bytes.len() ==> bytes[i] == 0 {
            assert forall|i: int| 0 <= i < front.len() implies front[i] == 0 by {}
        }
    }
}

/// Byte strings of one length with one big-endian value are equal.
pub proof fn lemma_be_nat_injective(a: Seq<u8>, b: Seq<u8>)
    requires
        a.len() == b.len(),
        be_nat(a) == be_nat(b),
    ensures
        a == b,
    decreases a.len(),
{
    if a.len() > 0 {
        lemma_be_nat_injective(a.drop_last(), b.drop_last());
        assert(b =~= b.drop_last().push(b.last()));
    }
}

/// An encoding in `len` bytes has `len` bytes.
pub proof fn lemma_be_bytes_len(n: nat, len: nat)
    ensures
        be_bytes(n, len).len() == len,
    decreases len,
{
    if len > 0 {
        lemma_be_bytes_len(n / 256, (len - 1) as nat);
    }
}

/// Encoding the value of a byte string in as many bytes gives the string
/// back.
pub proof fn lemma_be_bytes_of_be_nat(bytes: Seq<u8>)
    ensures
        be_bytes(be_nat(bytes), bytes.len()) == bytes,
    decreases bytes.len(),
{
    if bytes.len() > 0 {
        lemma_be_bytes_of_be_nat(bytes.drop_last());
    }
}

/// A value that fits in `len` bytes is the value of its encoding.
pub proof fn lemma_be_nat_of_be_bytes(n: nat, len: nat)
    requires
        n < byte_range(len),
    ensures
        be_nat(be_bytes(n, len)) == n,
    decreases len,
{
    if len > 0 {
        lemma_be_nat_of_be_bytes(n / 256, (len - 1) as nat);
        let e = be_bytes(n, len);
        assert(e.drop_last() =~= be_bytes(n / 256, (len - 1) as nat));
    }
}

/// Thirty-two bytes hold the values below `2^256`.
pub proof fn lemma_byte_range_32()
    ensures
        byte_range(32) == 0x1_0000000000000000_0000000000000000_0000000000000000_0000000000000000nat,
{
    reveal_with_fuel(byte_range, 9);
    assert(byte_range(8) == 0x1_0000000000000000nat);
    assert(byte_range(16) == 0x1_0000000000000000_0000000000000000nat);
    assert(byte_range(24) == 0x1_0000000000000000_0000000000000000_0000000000000000nat);
}

/// Decoding what `hex_lower` wrote gives the bytes back.
pub proof fn lemma_hex_round_trip(bytes: Seq<u8>)
    ensures
        hex_bytes(hex_lower(bytes)) == Some(bytes),
{
    let s = hex_lower(bytes);
    assert forall|i: int| 0 <= i < s.len() implies hex_val(#[trigger] s[i]) >= 0 by {}
    let d = hex_bytes(s).unwrap();
    assert forall|i: int| 0 <= i < d.len() implies d[i] == bytes[i] by {}
}

/// Calls `hex::encode`. The crate documents, and its table-driven encoder
/// shows, that every byte becomes two lowercase digits, high nibble first.
#[verifier::external_body]
pub(crate) fn hex_encode(bytes: &[u8]) -> (text: String)
    ensures
        text@ == hex_lower(bytes@),
{
    hex::encode(bytes)
}

/// Appends `src` to `dst`.
pub(crate) fn append_bytes(dst: &mut Vec<u8>, src: &Vec<u8>)
    ensures
        final(dst)@ == old(dst)@ + src@,
{
    let mut i: usize = 0;
    while i < src.len()
        invariant
            i <= src.len(),
            dst@ == old(dst)@ + src@.subrange(0, i as int),
        decreases src.len() - i,
    {
        dst.push(src[i]);
        i = i + 1;
    }
}

/// The error of the `hex` crate's decoder, carried through unread.
#[verifier::external_type_specification]
#[verifier::external_body]
pub struct ExFromHexError(hex::FromHexError);

/// Calls `hex::decode`. Its source rejects an odd number of bytes, then maps
/// every pair of digits of either case to one byte and rejects any other byte;
/// a character outside ASCII is made of bytes that are no digits, so the
/// statement over characters holds of the bytes it reads.
#[verifier::external_body]
pub(crate) fn hex_decode(text: &str) -> (decoded: Result<Vec<u8>, hex::FromHexError>)
    ensures
        decoded is Ok <==> hex_bytes(text@) is Some,
        decoded matches Ok(bytes) ==> hex_bytes(text@) == Some(bytes@),
{
    hex::decode(text)
}

} // verus!
