use vstd::prelude::*;

use ed25519_dalek::{Signature, Signer, SigningKey, Verifier, VerifyingKey};
use rand::rngs::OsRng;

use crate::bytes::{array_32, array_64};
use crate::error::TextError;

verus! {

/// Length in bytes of a seed and of a public key.
pub const ED25519_KEY_LEN: usize = 32;

/// Length in bytes of a signature.
pub const ED25519_SIGNATURE_LEN: usize = 64;

/// The signature that ed25519-dalek makes of a message with the key pair
/// derived from a seed.
pub uninterp spec fn ed25519_signature_of(seed: Seq<u8>, message: Seq<u8>) -> [u8; 64];

/// The public key that ed25519-dalek derives from a seed.
pub uninterp spec fn ed25519_public_key_of(seed: Seq<u8>) -> [u8; 32];

/// Whether ed25519-dalek reads 32 bytes as a public key (a point on the curve).
pub uninterp spec fn is_ed25519_public_key(bytes: Seq<u8>) -> bool;

/// Whether ed25519-dalek accepts a signature of a message under a public key.
pub uninterp spec fn ed25519_accepts(public_key: Seq<u8>, message: Seq<u8>, signature: Seq<u8>) -> bool;

/// Relies on ed25519-dalek's `Signer::sign` for `SigningKey` (built from the
/// seed by `SigningKey::from_bytes`, read out by `Signature::to_bytes`): a
/// deterministic RFC 8032 signature, a function of seed and message, which
/// the verifying key of the same signing key accepts (as the crate's
/// documentation shows).
#[verifier::external_body]
fn ed25519_sign(seed: &[u8; 32], message: &[u8]) -> (r: [u8; 64])
    ensures
        r == ed25519_signature_of(seed@, message@),
        ed25519_accepts(ed25519_public_key_of(seed@)@, message@, r@),
{
    SigningKey::from_bytes(seed).sign(message).to_bytes()
}

/// Relies on ed25519-dalek's `SigningKey::verifying_key` (key built by
/// `SigningKey::from_bytes`, read out by `VerifyingKey::to_bytes`): the public
/// key of the pair derived from the seed, the compression of a curve point,
/// which `VerifyingKey::from_bytes` reads back.
#[verifier::external_body]
fn ed25519_public_key(seed: &[u8; 32]) -> (r: [u8; 32])
    ensures
        r == ed25519_public_key_of(seed@),
        is_ed25519_public_key(r@),
{
    SigningKey::from_bytes(seed).verifying_key().to_bytes()
}

/// Relies on ed25519-dalek's `VerifyingKey::from_bytes`: whether the bytes
/// decompress to a curve point.
#[verifier::external_body]
fn ed25519_key_is_valid(bytes: &[u8; 32]) -> (r: bool)
    ensures
        r == is_ed25519_public_key(bytes@),
{
    VerifyingKey::from_bytes(bytes).is_ok()
}

/// Relies on ed25519-dalek's `Verifier::verify` for `VerifyingKey` (key read by
/// `VerifyingKey::from_bytes`, signature by `Signature::from_bytes`): whether
/// the signature of the message checks out under the key.
#[verifier::external_body]
fn ed25519_verify(public_key: &[u8; 32], message: &[u8], signature: &[u8; 64]) -> (r: bool)
    requires
        is_ed25519_public_key(public_key@),
    ensures
        r == ed25519_accepts(public_key@, message@, signature@),
{
    match VerifyingKey::from_bytes(public_key) {
        Ok(key) => key.verify(message, &Signature::from_bytes(signature)).is_ok(),
        Err(_) => false,
    }
}

/// Relies on ed25519-dalek's `SigningKey::generate` with the operating
/// system's random source (`OsRng`): a fresh seed; nothing is known of its
/// value.
#[verifier::external_body]
fn ed25519_random_seed() -> (r: [u8; 32]) {
    SigningKey::generate(&mut OsRng).to_bytes()
}

/// Signer of the asymmetric scheme, holding the 32-byte seed of its key pair
/// and the public key derived from it.
pub struct Ed25519Signer {
    seed: [u8; 32],
    public_key: [u8; 32],
}

impl Ed25519Signer {
    /// The seed this signer holds.
    pub closed spec fn seed_view(&self) -> Seq<u8> {
        self.seed@
    }

    /// The public key held is the one derived from the seed, a curve point.
    pub closed spec fn wf(&self) -> bool {
        &&& self.public_key == ed25519_public_key_of(self.seed@)
        &&& is_ed25519_public_key(self.public_key@)
    }

    /// A signer with the key pair derived from `seed`.
    pub fn new(seed: [u8; 32]) -> (r: Ed25519Signer)
        ensures
            r.seed_view() == seed@,
            r.wf(),
    {
        let public_key = ed25519_public_key(&seed);
        Ed25519Signer { seed, public_key }
    }

    /// Reads `key` as a seed; any length but 32 is a key format error.
    pub fn try_new(key: &[u8]) -> (r: Result<Ed25519Signer, TextError>)
        ensures
            key@.len() != ED25519_KEY_LEN ==> r == Err::<Ed25519Signer, TextError>(TextError::KeyFormat),
            key@.len() == ED25519_KEY_LEN ==> (r matches Ok(s) && s.seed_view() == key@ && s.wf()),
    {
        if key.len() != ED25519_KEY_LEN {
            return Err(TextError::KeyFormat);
        }
        let seed = array_32(key);
        assert(seed@ =~= key@);
        Ok(Ed25519Signer::new(seed))
    }

    /// The 64-byte signature of the whole message, which the public key of
    /// this signer's pair accepts.
    pub fn sign(&self, message: &[u8]) -> (r: Vec<u8>)
        requires
            self.wf(),
        ensures
            r@ == ed25519_signature_of(self.seed_view(), message@)@,
            r@.len() == ED25519_SIGNATURE_LEN,
            is_ed25519_public_key(ed25519_public_key_of(self.seed_view())@),
            ed25519_accepts(ed25519_public_key_of(self.seed_view())@, message@, r@),
    {
        let signature = ed25519_sign(&self.seed, message);
        vstd::slice::slice_to_vec(&signature)
    }

    /// The public key of this signer's pair.
    pub fn public_key(&self) -> (r: Vec<u8>)
        requires
            self.wf(),
        ensures
            r@ == ed25519_public_key_of(self.seed_view())@,
            is_ed25519_public_key(r@),
    {
        vstd::slice::slice_to_vec(&self.public_key)
    }

    /// The key files of the pair derived from `seed`: the seed under
    /// `ed25519.sk`, then its public key under `ed25519.pk`.
    pub fn key_files(seed: [u8; 32]) -> (r: Vec<(&'static str, Vec<u8>)>)
        ensures
            r@.len() == 2,
            r@[0].0@ == "ed25519.sk"@,
            r@[0].1@ == seed@,
            r@[1].0@ == "ed25519.pk"@,
            r@[1].1@ == ed25519_public_key_of(seed@)@,
            is_ed25519_public_key(r@[1].1@),
    {
        let signer = Ed25519Signer::new(seed);
        let mut files: Vec<(&'static str, Vec<u8>)> = Vec::new();
        files.push(("ed25519.sk", vstd::slice::slice_to_vec(&seed)));
        files.push(("ed25519.pk", signer.public_key()));
        files
    }

    /// A fresh key pair from the system's random source, as key files.
    pub fn generate() -> (r: Vec<(&'static str, Vec<u8>)>)
        ensures
            r@.len() == 2,
            r@[0].0@ == "ed25519.sk"@,
            r@[0].1@.len() == ED25519_KEY_LEN,
            r@[1].0@ == "ed25519.pk"@,
            r@[1].1@ == ed25519_public_key_of(r@[0].1@)@,
            is_ed25519_public_key(r@[1].1@),
    {
        Ed25519Signer::key_files(ed25519_random_seed())
    }
}

/// Verifier of the asymmetric scheme, holding a 32-byte public key.
pub struct Ed25519Verifier {
    key: [u8; 32],
}

impl Ed25519Verifier {
    /// The public key this verifier holds.
    pub closed spec fn key_view(&self) -> Seq<u8> {
        self.key@
    }

    /// The key held is a curve point.
    pub closed spec fn wf(&self) -> bool {
        is_ed25519_public_key(self.key@)
    }

    /// A verifier under `key`, known to be a curve point.
    fn new(key: [u8; 32]) -> (r: Ed25519Verifier)
        requires
            is_ed25519_public_key(key@),
        ensures
            r.key_view() == key@,
            r.wf(),
    {
        Ed25519Verifier { key }
    }

    /// Reads `key` as a public key; a length other than 32, or bytes that are
    /// no curve point, are a key format error.
    pub fn try_new(key: &[u8]) -> (r: Result<Ed25519Verifier, TextError>)
        ensures
            key@.len() != ED25519_KEY_LEN ==> r == Err::<Ed25519Verifier, TextError>(TextError::KeyFormat),
            key@.len() == ED25519_KEY_LEN && !is_ed25519_public_key(key@) ==> r == Err::<
                Ed25519Verifier,
                TextError,
            >(TextError::KeyFormat),
            key@.len() == ED25519_KEY_LEN && is_ed25519_public_key(key@) ==> (r matches Ok(v)
                && v.key_view() == key@ && v.wf()),
    {
        if key.len() != ED25519_KEY_LEN {
            return Err(TextError::KeyFormat);
        }
        let bytes = array_32(key);
        assert(bytes@ =~= key@);
        if !ed25519_key_is_valid(&bytes) {
            return Err(TextError::KeyFormat);
        }
        Ok(Ed25519Verifier::new(bytes))
    }

    /// Checks `signature` against the message; a signature that is not 64
    /// bytes long is refused.
    pub fn verify(&self, message: &[u8], signature: &[u8]) -> (r: Result<bool, TextError>)
        requires
            self.wf(),
        ensures
            signature@.len() != ED25519_SIGNATURE_LEN ==> r == Err::<bool, TextError>(
                TextError::SignatureLength,
            ),
            signature@.len() == ED25519_SIGNATURE_LEN ==> r == Ok::<bool, TextError>(
                ed25519_accepts(self.key_view(), message@, signature@),
            ),
    {
        if signature.len() != ED25519_SIGNATURE_LEN {
            return Err(TextError::SignatureLength);
        }
        let sig = array_64(signature);
        assert(sig@ =~= signature@);
        Ok(ed25519_verify(&self.key, message, &sig))
    }
}

} // verus!
