//! The node's long-term key pair and the policy of its store.

use vstd::prelude::*;
use crate::curve::group_order;
use crate::curve::point_encoding;
use crate::curve::Point;
use crate::curve::Scalar;
use crate::encoding::be_nat;

verus! {

/// Why no key pair could be had.
#[derive(Debug, Clone, Copy, PartialEq, Eq, Structural)]
pub enum KeyError {
    /// The persisted bytes are not thirty-two bytes of a canonical scalar
    /// other than zero.
    InvalidKey,
    /// Nothing is persisted where a key is needed.
    MissingKey,
}

/// What persisted bytes load as: exactly thirty-two bytes whose big-endian
/// value `sk` lies between one and `q - 1` give the secret with those bytes
/// and the public point `sk * G`, as its encoding; anything else gives
/// nothing.
pub open spec fn persisted_pair(bytes: Seq<u8>) -> Option<(Seq<u8>, Seq<u8>)> {
    if bytes.len() == 32 && 1 <= be_nat(bytes) < group_order() {
        Some((bytes, point_encoding(be_nat(bytes))))
    } else {
        None
    }
}

/// A secret scalar `sk` other than zero with its public point `Y = sk * G`.
pub struct KeyPair {
    secret: Scalar,
    public: Point,
}

impl Clone for KeyPair {
    fn clone(&self) -> (copy: KeyPair)
        ensures
            copy.spec_secret()@ == self.spec_secret()@,
            copy.spec_public()@ == self.spec_public()@,
    {
        proof {
            use_type_invariant(self);
        }
        let secret = self.secret.clone();
        let public = self.public.clone();
        secret.canonical();
        public.valid();
        KeyPair { secret, public }
    }
}

impl KeyPair {
    /// The secret lies between one and `q - 1` and the public point is
    /// `sk * G`.
    #[verifier::type_invariant]
    pub closed spec fn is_valid(&self) -> bool {
        &&& self.secret.is_valid()
        &&& self.public.is_valid()
        &&& 1 <= self.secret.value() < group_order()
        &&& self.public.log() == self.secret.value()
        &&& self.public@ == point_encoding(self.secret.value())
    }

    /// The secret scalar `sk`.
    pub closed spec fn spec_secret(&self) -> Scalar {
        self.secret
    }

    /// The public point `Y`.
    pub closed spec fn spec_public(&self) -> Point {
        self.public
    }

    /// In a valid pair both parts are valid, the secret lies between one and
    /// `q - 1`, and the public point is `sk * G`.
    pub proof fn lemma_valid(self)
        requires
            self.is_valid(),
        ensures
            self.spec_secret().is_valid(),
            self.spec_public().is_valid(),
            1 <= self.spec_secret().value() < group_order(),
            self.spec_public().log() == self.spec_secret().value(),
            self.spec_public()@ == point_encoding(self.spec_secret().value()),
    {
    }

    /// Brings into a caller's proof what holds of every key pair: the secret
    /// lies between one and `q - 1`, and the public point is `sk * G`.
    pub fn valid(&self)
        ensures
            self.is_valid(),
            1 <= self.spec_secret().value() < group_order(),
            self.spec_public().log() == self.spec_secret().value(),
            self.spec_public()@ == point_encoding(self.spec_secret().value()),
    {
        proof {
            use_type_invariant(self);
        }
    }

    /// Makes the pair of a secret, which must not be zero.
    pub fn from_scalar(secret: Scalar) -> (pair: Result<KeyPair, KeyError>)
        ensures
            pair is Ok <==> secret.value() != 0,
            pair matches Ok(keys) ==> {
                &&& keys.spec_secret() == secret
                &&& keys.spec_public().log() == secret.value()
                &&& keys.spec_public()@ == point_encoding(secret.value())
            },
            pair matches Err(e) ==> e == KeyError::InvalidKey,
    {
        secret.canonical();
        if secret.is_zero() {
            return Err(KeyError::InvalidKey);
        }
        let public = Point::generator().mul(&secret);
        public.valid();
        assert((1 * secret.value()) % group_order() == secret.value()) by {
            vstd::arithmetic::div_mod::lemma_small_mod(secret.value(), group_order());
        }
        Ok(KeyPair { secret, public })
    }

    /// Loads the pair from persisted bytes: exactly thirty-two bytes that
    /// hold a canonical scalar other than zero. Anything else is an invalid
    /// key.
    pub fn from_bytes(bytes: &[u8]) -> (pair: Result<KeyPair, KeyError>)
        ensures
            pair is Ok <==> persisted_pair(bytes@) is Some,
            pair matches Ok(keys) ==> persisted_pair(bytes@) == Some(
                (keys.spec_secret()@, keys.spec_public()@),
            ),
            pair matches Err(e) ==> e == KeyError::InvalidKey,
    {
        match Scalar::from_bytes(bytes) {
            Some(secret) => KeyPair::from_scalar(secret),
            None => Err(KeyError::InvalidKey),
        }
    }

    /// A fresh pair, its secret drawn from the operating system's generator.
    pub fn generate() -> (keys: KeyPair)
        ensures
            1 <= keys.spec_secret().value() < group_order(),
            keys.spec_public().log() == keys.spec_secret().value(),
            keys.spec_public()@ == point_encoding(keys.spec_secret().value()),
    {
        let secret = Scalar::random();
        match KeyPair::from_scalar(secret) {
            Ok(keys) => keys,
            Err(_) => {
                proof {
                    assert(false);
                }
                vstd::pervasive::unreached()
            },
        }
    }

    /// The secret scalar.
    pub fn secret(&self) -> (secret: &Scalar)
        ensures
            *secret == self.spec_secret(),
    {
        &self.secret
    }

    /// The public point.
    pub fn public(&self) -> (public: &Point)
        ensures
            *public == self.spec_public(),
    {
        &self.public
    }

    /// The thirty-two bytes to persist: the canonical encoding of the secret.
    pub fn to_bytes(&self) -> (bytes: Vec<u8>)
        ensures
            bytes@ == self.spec_secret()@,
    {
        self.secret.to_bytes()
    }
}

/// The key pair of a node on its first access, and the bytes to persist
/// where the pair is new. Persisted bytes are loaded and nothing is written;
/// bytes that are no key are an error, and no other key takes their place.
/// Where nothing is persisted, a fresh pair is made and its secret is to be
/// written.
pub fn open_store(persisted: Option<&[u8]>) -> (opened: Result<
    (KeyPair, Option<Vec<u8>>),
    KeyError,
>)
    ensures
        match persisted {
            Some(bytes) => match opened {
                Ok((keys, to_write)) => persisted_pair(bytes@) == Some(
                    (keys.spec_secret()@, keys.spec_public()@),
                ) && to_write is None,
                Err(e) => persisted_pair(bytes@) is None && e == KeyError::InvalidKey,
            },
            None => opened matches Ok((keys, to_write)) && to_write matches Some(bytes)
                && bytes@ == keys.spec_secret()@,
        },
{
    match persisted {
        Some(bytes) => match KeyPair::from_bytes(bytes) {
            Ok(keys) => Ok((keys, None)),
            Err(e) => Err(e),
        },
        None => {
            let keys = KeyPair::generate();
            let bytes = keys.to_bytes();
            Ok((keys, Some(bytes)))
        },
    }
}

/// The key pair of a node that is about to serve: the persisted one. A node
/// without a persisted key does not serve, and none is made for it.
pub fn ensure_ready(persisted: Option<&[u8]>) -> (ready: Result<KeyPair, KeyError>)
    ensures
        match persisted {
            Some(bytes) => match ready {
                Ok(keys) => persisted_pair(bytes@) == Some(
                    (keys.spec_secret()@, keys.spec_public()@),
                ),
                Err(e) => persisted_pair(bytes@) is None && e == KeyError::InvalidKey,
            },
            None => ready matches Err(e) && e == KeyError::MissingKey,
        },
{
    match persisted {
        Some(bytes) => KeyPair::from_bytes(bytes),
        None => Err(KeyError::MissingKey),
    }
}

/// Initializes a node: where a key is persisted and the call is not forced,
/// nothing happens; otherwise a fresh pair is made, to be announced and
/// persisted with the bytes that come with it.
pub fn initialize(key_persisted: bool, force: bool) -> (created: Option<(KeyPair, Vec<u8>)>)
    ensures
        created is None <==> key_persisted && !force,
        created matches Some((keys, bytes)) ==> bytes@ == keys.spec_secret()@,
{
    if key_persisted && !force {
        None
    } else {
        let keys = KeyPair::generate();
        let bytes = keys.to_bytes();
        Some((keys, bytes))
    }
}

/// Persisting a key pair and loading it again gives the same secret and the
/// same public point: what `to_bytes` writes of a valid pair, `from_bytes`
/// reads back as that pair.
pub proof fn law_persistence_round_trip(keys: KeyPair)
    requires
        keys.is_valid(),
    ensures
        persisted_pair(keys.spec_secret()@) == Some((keys.spec_secret()@, keys.spec_public()@)),
{
    keys.lemma_valid();
    keys.spec_secret().lemma_valid();
}

} // verus!
