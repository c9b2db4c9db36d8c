//! Ed25519 key pairs, signatures and their checking, through `ed25519_dalek`.

use ed25519_dalek::{Signature, Signer, SigningKey, Verifier, VerifyingKey};
use sha2::{Digest, Sha256};
use vstd::prelude::*;

verus! {

/// Length of an Ed25519 secret key, in bytes.
pub const SECRET_KEY_LEN: usize = 32;

/// Length of an Ed25519 public key, in bytes.
pub const PUBLIC_KEY_LEN: usize = 32;

/// Length of an Ed25519 signature, in bytes.
pub const SIGNATURE_LEN: usize = 64;

/// The public key that Ed25519 derives from a secret key.
pub uninterp spec fn ed25519_public_key(secret: Seq<u8>) -> Seq<u8>;

/// The Ed25519 signature of `message` under `secret` (Ed25519 signing is
/// deterministic).
pub uninterp spec fn ed25519_signature(secret: Seq<u8>, message: Seq<u8>) -> Seq<u8>;

/// Whether `signature` is accepted as a signature of `message` by `public`.
pub uninterp spec fn ed25519_accepts(public: Seq<u8>, message: Seq<u8>, signature: Seq<u8>) -> bool;

/// The SHA-256 digest of `data`.
pub uninterp spec fn sha256(data: Seq<u8>) -> Seq<u8>;

/// The SHA-256 digest of `data`.
/// Trusted: `sha2::Sha256::digest` is a function of its input alone and gives
/// 32 bytes.
#[verifier::external_body]
pub(crate) fn sha256_digest(data: &[u8]) -> (r: [u8; 32])
    ensures
        r@ == sha256(data@),
{
    Sha256::digest(data).into()
}

/// The public key of `secret`.
/// Trusted: `SigningKey::from_bytes(secret).verifying_key().to_bytes()` is a
/// function of the secret alone.
#[verifier::external_body]
fn derive_public_key(secret: &[u8; 32]) -> (r: [u8; 32])
    ensures
        r@ == ed25519_public_key(secret@),
{
    SigningKey::from_bytes(secret).verifying_key().to_bytes()
}

/// The signature of `message` under `secret`.
/// Trusted: `Signer::sign` of `ed25519_dalek::SigningKey` is deterministic in
/// the secret and the message, and the crate documents that such a signature
/// is accepted by `Verifier::verify` under the key's own public key.
#[verifier::external_body]
fn sign_bytes(secret: &[u8; 32], message: &[u8]) -> (r: [u8; 64])
    ensures
        r@ == ed25519_signature(secret@, message@),
        ed25519_accepts(ed25519_public_key(secret@), message@, r@),
{
    SigningKey::from_bytes(secret).sign(message).to_bytes()
}

/// Whether `signature` over `message` is accepted by `public`.
/// Trusted: `VerifyingKey::from_bytes` followed by `Verifier::verify`; a
/// public key that is not a curve point accepts nothing.
#[verifier::external_body]
fn check_signature(public: &[u8; 32], message: &[u8], signature: &[u8; 64]) -> (r: bool)
    ensures
        r == ed25519_accepts(public@, message@, signature@),
{
    match VerifyingKey::from_bytes(public) {
        Ok(key) => key.verify(message, &Signature::from_bytes(signature)).is_ok(),
        Err(_) => false,
    }
}

/// A fresh secret key drawn from the operating system's random source.
/// Trusted: `SigningKey::generate(&mut OsRng)`; nothing is claimed of the
/// bytes.
#[verifier::external_body]
fn random_secret_key() -> (r: [u8; 32]) {
    SigningKey::generate(&mut rand::rngs::OsRng).to_bytes()
}

/// An Ed25519 key pair: a secret key and the public key derived from it.
pub struct KeyPair {
    secret: [u8; 32],
    public: [u8; 32],
}

impl KeyPair {
    /// The secret key.
    pub closed spec fn secret_key(self) -> Seq<u8> {
        self.secret@
    }

    /// The public key.
    pub closed spec fn public_key(self) -> Seq<u8> {
        self.public@
    }

    #[verifier::type_invariant]
    spec fn public_matches_secret(self) -> bool {
        self.public@ == ed25519_public_key(self.secret@)
    }

    /// The key pair of the given secret key.
    pub fn from_secret(secret: [u8; 32]) -> (r: KeyPair)
        ensures
            r.secret_key() == secret@,
            r.public_key() == ed25519_public_key(secret@),
    {
        let public = derive_public_key(&secret);
        KeyPair { secret, public }
    }

    /// A key pair with a random secret key.
    pub fn generate() -> (r: KeyPair)
        ensures
            r.public_key() == ed25519_public_key(r.secret_key()),
            r.secret_key().len() == SECRET_KEY_LEN,
    {
        let secret = random_secret_key();
        KeyPair::from_secret(secret)
    }

    /// The bytes of the secret key.
    pub fn secret_bytes(&self) -> (r: [u8; 32])
        ensures
            r@ == self.secret_key(),
    {
        self.secret
    }

    /// The bytes of the public key.
    pub fn public_bytes(&self) -> (r: [u8; 32])
        ensures
            r@ == self.public_key(),
            r@ == ed25519_public_key(self.secret_key()),
    {
        proof {
            use_type_invariant(self);
        }
        self.public
    }

    /// Signs `message` with the secret key; the signature is accepted under
    /// the pair's own public key.
    pub fn sign(&self, message: &[u8]) -> (r: [u8; 64])
        ensures
            r@ == ed25519_signature(self.secret_key(), message@),
            ed25519_accepts(self.public_key(), message@, r@),
    {
        proof {
            use_type_invariant(self);
        }
        sign_bytes(&self.secret, message)
    }
}

/// Whether `signature` is a valid Ed25519 signature of `message` under
/// `public`.
pub fn verify_signature(public: &[u8; 32], message: &[u8], signature: &[u8; 64]) -> (r: bool)
    ensures
        r == ed25519_accepts(public@, message@, signature@),
{
    check_signature(public, message, signature)
}

} // verus!
