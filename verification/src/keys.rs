//! Identities: a secret key and the public key derived from it, both as
//! lower-case hexadecimal strings.

use vstd::prelude::*;
use crate::error::NostrError;
use crate::hex::{is_canonical_hex64, is_hex64, lower_hex};

verus! {

/// A key pair in hexadecimal form.
#[derive(Debug, Clone)]
pub struct NostrKeys {
    pub public_key: String,
    pub private_key: String,
}

/// What secp256k1 makes of a secret key given in hexadecimal: `None` where
/// the text is no valid secret key, else the x-only public key derived from
/// it and the secret key itself, both in canonical hexadecimal form.
pub uninterp spec fn keys_of_secret(secret_hex: Seq<char>) -> Option<(Seq<char>, Seq<char>)>;

impl NostrKeys {
    /// The pair is what `keys_of_secret` derives from its own secret key,
    /// and both keys are in canonical form.
    pub open spec fn is_valid(&self) -> bool {
        &&& keys_of_secret(self.private_key@) == Some((self.public_key@, self.private_key@))
        &&& is_canonical_hex64(self.public_key@)
        &&& is_canonical_hex64(self.private_key@)
    }
}

/// Parses the secret key with `nostr::SecretKey::from_hex`, derives the pair
/// with `nostr::Keys::new`, and prints the public key with
/// `PublicKey::to_hex` and the secret key with `display_secret`.
///
/// Trusted: the outcome is `keys_of_secret` of the text. Only a text of 64
/// hexadecimal digits is accepted; the secret key that comes back is those
/// digits in lower case and parses to the same pair again, and the public
/// key is 64 lower-case hexadecimal digits. On failure the text of the
/// outside error is returned.
#[verifier::external_body]
pub(crate) fn derive_keys(secret_hex: &str) -> (r: Result<(String, String), String>)
    ensures
        r is Ok <==> keys_of_secret(secret_hex@) is Some,
        r matches Ok(k) ==> keys_of_secret(secret_hex@) == Some((k.0@, k.1@)),
        r matches Ok(k) ==> keys_of_secret(k.1@) == Some((k.0@, k.1@)),
        r matches Ok(k) ==> is_hex64(secret_hex@) && k.1@ == lower_hex(secret_hex@),
        r matches Ok(k) ==> is_canonical_hex64(k.0@),
{
    match nostr::SecretKey::from_hex(secret_hex) {
        Ok(secret) => {
            let keys = nostr::Keys::new(secret);
            Ok((keys.public_key().to_hex(), keys.secret_key().display_secret().to_string()))
        },
        Err(e) => Err(e.to_string()),
    }
}

/// Draws a fresh key pair with `nostr::Keys::generate`, which reads the
/// operating system's random source.
///
/// Trusted: whatever pair is drawn, its public key is the one that
/// `keys_of_secret` derives from its secret key, and both keys are 64
/// lower-case hexadecimal digits.
#[verifier::external_body]
fn random_keys() -> (r: (String, String))
    ensures
        keys_of_secret(r.1@) == Some((r.0@, r.1@)),
        is_canonical_hex64(r.0@) && is_canonical_hex64(r.1@),
{
    let keys = nostr::Keys::generate();
    (keys.public_key().to_hex(), keys.secret_key().display_secret().to_string())
}

/// A fresh random identity.
pub fn generate_keys() -> (keys: NostrKeys)
    ensures
        keys.is_valid(),
{
    let (public_key, private_key) = random_keys();
    NostrKeys { public_key, private_key }
}

/// The identity that belongs to a secret key given in hexadecimal.
///
/// Fails with `InvalidSecretKey` exactly when the text is not 64 hexadecimal
/// digits or lies outside the valid scalar range.
pub fn keys_from_secret_key(secret_key_hex: String) -> (r: Result<NostrKeys, NostrError>)
    ensures
        match r {
            Ok(keys) => keys_of_secret(secret_key_hex@) == Some((keys.public_key@, keys.private_key@))
                && is_hex64(secret_key_hex@) && keys.private_key@ == lower_hex(secret_key_hex@)
                && keys.is_valid(),
            Err(e) => keys_of_secret(secret_key_hex@) is None && e is InvalidSecretKey,
        },
        !is_hex64(secret_key_hex@) ==> r is Err,
{
    proof {
        if is_hex64(secret_key_hex@) {
            crate::hex::lemma_canonical_hex(secret_key_hex@);
        }
    }
    match derive_keys(secret_key_hex.as_str()) {
        Ok((public_key, private_key)) => Ok(NostrKeys { public_key, private_key }),
        Err(text) => Err(NostrError::InvalidSecretKey(text)),
    }
}

/// The public key, in hexadecimal, that belongs to a secret key given in
/// hexadecimal.
///
/// Fails with `InvalidSecretKey` on the same inputs as `keys_from_secret_key`.
pub fn pubkey_from_secret_key(secret_key_hex: String) -> (r: Result<String, NostrError>)
    ensures
        match r {
            Ok(public_key) => {
                &&& is_canonical_hex64(public_key@)
                &&& keys_of_secret(secret_key_hex@) matches Some(k) && k.0 == public_key@
            },
            Err(e) => keys_of_secret(secret_key_hex@) is None && e is InvalidSecretKey,
        },
        !is_hex64(secret_key_hex@) ==> r is Err,
{
    match derive_keys(secret_key_hex.as_str()) {
        Ok((public_key, _)) => Ok(public_key),
        Err(text) => Err(NostrError::InvalidSecretKey(text)),
    }
}

/// An identity: a key pair that is known to be valid. It is made once and
/// never changes.
pub struct Identity {
    keys: NostrKeys,
}

impl Identity {
    #[verifier::type_invariant]
    spec fn well_formed(self) -> bool {
        self.keys.is_valid()
    }

    /// The public key, in hexadecimal.
    pub closed spec fn public_key(&self) -> Seq<char> {
        self.keys.public_key@
    }

    /// The secret key, in hexadecimal.
    pub closed spec fn secret_key(&self) -> Seq<char> {
        self.keys.private_key@
    }

    /// A fresh random identity.
    pub fn generate() -> (identity: Identity)
        ensures
            keys_of_secret(identity.secret_key()) == Some(
                (identity.public_key(), identity.secret_key()),
            ),
            is_canonical_hex64(identity.public_key()),
            is_canonical_hex64(identity.secret_key()),
    {
        Identity { keys: generate_keys() }
    }

    /// The identity that belongs to a secret key given in hexadecimal.
    ///
    /// Fails with `InvalidSecretKey` exactly when the text is not a valid
    /// secret key.
    pub fn from_secret_hex(secret_key_hex: &str) -> (r: Result<Identity, NostrError>)
        ensures
            match r {
                Ok(identity) => keys_of_secret(secret_key_hex@) == Some(
                    (identity.public_key(), identity.secret_key()),
                ) && keys_of_secret(identity.secret_key()) == Some(
                    (identity.public_key(), identity.secret_key()),
                ) && is_hex64(secret_key_hex@) && identity.secret_key() == lower_hex(
                    secret_key_hex@,
                ) && is_canonical_hex64(identity.public_key()),
                Err(e) => keys_of_secret(secret_key_hex@) is None && e is InvalidSecretKey,
            },
    {
        proof {
            if is_hex64(secret_key_hex@) {
                crate::hex::lemma_canonical_hex(secret_key_hex@);
            }
        }
        match derive_keys(secret_key_hex) {
            Ok((public_key, private_key)) => Ok(
                Identity { keys: NostrKeys { public_key, private_key } },
            ),
            Err(text) => Err(NostrError::InvalidSecretKey(text)),
        }
    }

    /// The public key, in hexadecimal.
    pub fn public_key_hex(&self) -> (key: String)
        ensures
            key@ == self.public_key(),
    {
        self.keys.public_key.clone()
    }

    /// The secret key, in hexadecimal.
    pub fn secret_key_hex(&self) -> (key: String)
        ensures
            key@ == self.secret_key(),
    {
        self.keys.private_key.clone()
    }

    /// The key pair of the identity; it is valid.
    pub fn keys(&self) -> (keys: &NostrKeys)
        ensures
            keys.is_valid(),
            keys.public_key@ == self.public_key(),
            keys.private_key@ == self.secret_key(),
    {
        proof {
            use_type_invariant(self);
        }
        &self.keys
    }
}

/// Deriving the keys is a function of the secret key alone: whatever
/// `keys_from_secret_key` returned on a secret key once, it returns on it
/// again, and `pubkey_from_secret_key` returns the same public key.
pub proof fn lemma_derivation_is_stable(
    secret_hex: Seq<char>,
    first: NostrKeys,
    second: NostrKeys,
    public_key: String,
)
    requires
        keys_of_secret(secret_hex) == Some((first.public_key@, first.private_key@)),
        keys_of_secret(secret_hex) == Some((second.public_key@, second.private_key@)),
        keys_of_secret(secret_hex) matches Some(k) && k.0 == public_key@,
    ensures
        first.public_key@ == second.public_key@,
        first.private_key@ == second.private_key@,
        first.public_key@ == public_key@,
{
}

} // verus!
