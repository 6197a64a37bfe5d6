//! Ed25519 keys and detached signatures, held as plain bytes.

use ed25519_dalek::Signer;
use ed25519_dalek::Verifier;
use vstd::prelude::*;

verus! {

/// The verifying key that `ed25519_dalek::SigningKey::verifying_key` derives
/// from the signing key with this seed.
pub uninterp spec fn ed25519_public(seed: Seq<u8>) -> Seq<u8>;

/// The signature that `sign` of `ed25519_dalek::SigningKey` gives for
/// `message` under the signing key with this seed.
pub uninterp spec fn ed25519_signature(seed: Seq<u8>, message: Seq<u8>) -> Seq<u8>;

/// Whether `ed25519_dalek::VerifyingKey::verify` accepts `signature` for
/// `message` under the key with these bytes. It is false where the bytes are
/// no key at all.
pub uninterp spec fn ed25519_accepts(public: Seq<u8>, message: Seq<u8>, signature: Seq<u8>) -> bool;

/// Whether `ed25519_dalek::VerifyingKey::from_bytes` accepts these bytes as a
/// key.
pub uninterp spec fn ed25519_is_key(public: Seq<u8>) -> bool;

/// A detached signature.
#[derive(Clone, Copy, Debug, PartialEq, Eq)]
pub struct Signature {
    pub bytes: [u8; 64],
}

/// The private half of a key pair, kept as its 32-byte seed.
#[derive(Clone, Copy)]
pub struct SigningKey {
    pub seed: [u8; 32],
}

/// The public half of a key pair: the trust anchor a host verifies against.
#[derive(Clone, Copy, Debug, PartialEq, Eq)]
pub struct VerifyingKey {
    pub bytes: [u8; 32],
}

impl View for Signature {
    type V = Seq<u8>;

    open spec fn view(&self) -> Seq<u8> {
        self.bytes@
    }
}

impl View for VerifyingKey {
    type V = Seq<u8>;

    open spec fn view(&self) -> Seq<u8> {
        self.bytes@
    }
}

/// Calls `ed25519_dalek::SigningKey::verifying_key` on the key built from
/// `seed` and hands out the key's bytes.
#[verifier::external_body]
fn dalek_public(seed: &[u8; 32]) -> (public: [u8; 32])
    ensures
        public@ == ed25519_public(seed@),
{
    ed25519_dalek::SigningKey::from_bytes(seed).verifying_key().to_bytes()
}

/// Calls `sign`, which `ed25519_dalek::SigningKey` has from the `Signer` trait,
/// on the key built from `seed`. Signing is deterministic and does not fail
/// for this key type; the signature it gives is one that verification under
/// the matching public key accepts.
#[verifier::external_body]
fn dalek_sign(seed: &[u8; 32], message: &[u8]) -> (signature: [u8; 64])
    ensures
        signature@ == ed25519_signature(seed@, message@),
        ed25519_accepts(ed25519_public(seed@), message@, signature@),
{
    ed25519_dalek::SigningKey::from_bytes(seed).sign(message).to_bytes()
}

/// Calls `ed25519_dalek::VerifyingKey::from_bytes` and reports whether it
/// succeeded.
#[verifier::external_body]
fn dalek_is_key(public: &[u8; 32]) -> (ok: bool)
    ensures
        ok == ed25519_is_key(public@),
{
    ed25519_dalek::VerifyingKey::from_bytes(public).is_ok()
}

/// Calls `ed25519_dalek::VerifyingKey::verify` with the key that
/// `VerifyingKey::from_bytes` makes of `public`; bytes that are no key are
/// reported as a failed verification.
#[verifier::external_body]
fn dalek_verify(public: &[u8; 32], message: &[u8], signature: &[u8; 64]) -> (ok: bool)
    ensures
        ok == ed25519_accepts(public@, message@, signature@),
        ok ==> ed25519_is_key(public@),
{
    match ed25519_dalek::VerifyingKey::from_bytes(public) {
        Ok(key) => key.verify(message, &ed25519_dalek::Signature::from_bytes(signature)).is_ok(),
        Err(_) => false,
    }
}

/// Calls `ed25519_dalek::SigningKey::generate` on the thread's generator and
/// hands out the seed of the key it made. Which seed comes is left to chance.
#[verifier::external_body]
fn dalek_generate() -> (seed: [u8; 32]) {
    ed25519_dalek::SigningKey::generate(&mut rand::thread_rng()).to_bytes()
}

impl SigningKey {
    /// A fresh signing key, drawn at random.
    pub fn generate() -> (key: SigningKey) {
        SigningKey { seed: dalek_generate() }
    }

    /// The signing key with this seed.
    pub fn from_bytes(seed: [u8; 32]) -> (key: SigningKey)
        ensures
            key.seed == seed,
    {
        SigningKey { seed }
    }

    /// The public key that verifies this key's signatures.
    pub fn verifying_key(&self) -> (public: VerifyingKey)
        ensures
            public@ == ed25519_public(self.seed@),
    {
        VerifyingKey { bytes: dalek_public(&self.seed) }
    }

    /// Signs `message`. The result is fixed by the key and the message, and
    /// the matching public key accepts it.
    pub fn sign(&self, message: &[u8]) -> (signature: Signature)
        ensures
            signature@ == ed25519_signature(self.seed@, message@),
            ed25519_accepts(ed25519_public(self.seed@), message@, signature@),
    {
        Signature { bytes: dalek_sign(&self.seed, message) }
    }
}

impl VerifyingKey {
    /// The verifying key with these bytes.
    pub fn from_bytes(bytes: [u8; 32]) -> (key: VerifyingKey)
        ensures
            key.bytes == bytes,
    {
        VerifyingKey { bytes }
    }

    /// Whether these bytes are a key at all. Under bytes that are none, no
    /// signature verifies.
    pub fn is_valid(&self) -> (ok: bool)
        ensures
            ok == ed25519_is_key(self@),
    {
        dalek_is_key(&self.bytes)
    }

    /// Whether `signature` is a valid signature of `message` under this key.
    pub fn verify(&self, message: &[u8], signature: &Signature) -> (ok: bool)
        ensures
            ok == ed25519_accepts(self@, message@, signature@),
            ok ==> ed25519_is_key(self@),
    {
        dalek_verify(&self.bytes, message, &signature.bytes)
    }
}

} // verus!
