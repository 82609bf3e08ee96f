//! The form in which the registry of nodes takes a public key.

use vstd::prelude::*;
use crate::codec::projective_to_ecpoint;
use crate::curve::Point;
use crate::encoding::hex_decode;
use crate::encoding::lemma_hex_round_trip;
use crate::keys::KeyPair;

verus! {

/// Bytes filled up with zeros on the left to thirty-two.
pub open spec fn left_padded(bytes: Seq<u8>) -> Seq<u8> {
    Seq::new((32 - bytes.len()) as nat, |i: int| 0u8) + bytes
}

/// Copies at most thirty-two bytes to the right end of a word of zeros.
fn pad_to_word(bytes: &Vec<u8>) -> (word: [u8; 32])
    requires
        bytes@.len() <= 32,
    ensures
        word@ == left_padded(bytes@),
{
    let mut word: [u8; 32] = [0u8; 32];
    let offset: usize = 32 - bytes.len();
    let mut i: usize = 0;
    while i < bytes.len()
        invariant
            i <= bytes@.len() <= 32,
            offset == 32 - bytes@.len(),
            forall|j: int| 0 <= j < offset + i ==> word@[j] == left_padded(bytes@)[j],
            forall|j: int| offset + i <= j < 32 ==> word@[j] == 0,
        decreases bytes.len() - i,
    {
        word[offset + i] = bytes[i];
        i = i + 1;
    }
    word
}

/// The public key as the registry takes it: the `x` and the `y` coordinate
/// of a point other than the identity, each as a word of thirty-two
/// big-endian bytes.
pub fn point_to_bytes32_array(point: &Point) -> (words: [[u8; 32]; 2])
    requires
        point.log() != 0,
    ensures
        words@[0]@ == point@.subrange(1, 33),
        words@[1]@ == point@.subrange(33, 65),
{
    let wire = projective_to_ecpoint(point);
    proof {
        lemma_hex_round_trip(point@.subrange(1, 33));
        lemma_hex_round_trip(point@.subrange(33, 65));
    }
    point.valid();
    match (hex_decode(wire.x.as_str()), hex_decode(wire.y.as_str())) {
        (Ok(x), Ok(y)) => {
            let x_word = pad_to_word(&x);
            let y_word = pad_to_word(&y);
            [x_word, y_word]
        },
        _ => {
            proof {
                assert(false);
            }
            vstd::pervasive::unreached()
        },
    }
}

/// The public key of a node as the registry takes it. A public key is
/// never the identity, so it always has the two words.
pub fn public_key_words(keys: &KeyPair) -> (words: [[u8; 32]; 2])
    ensures
        words@[0]@ == keys.spec_public()@.subrange(1, 33),
        words@[1]@ == keys.spec_public()@.subrange(33, 65),
{
    keys.valid();
    point_to_bytes32_array(keys.public())
}

} // verus!
