use vstd::prelude::*;

use crate::bytes::{array_32, bytes_equal};
use crate::error::TextError;
use crate::gen_pass::{generate_password, is_password};

verus! {

/// Length in bytes of a keyed-hash key and of its tags.
pub const KEY_LEN: usize = 32;

/// What blake3's keyed hash returns for a key and a message.
pub uninterp spec fn keyed_hash_of(key: Seq<u8>, message: Seq<u8>) -> [u8; 32];

/// Relies on `blake3::keyed_hash` (and `Hash::as_bytes`): the 32-byte keyed
/// hash of the message, a function of the key and the message alone.
#[verifier::external_body]
fn blake3_keyed_hash(key: &[u8; 32], message: &[u8]) -> (r: [u8; 32])
    ensures
        r == keyed_hash_of(key@, message@),
{
    *blake3::keyed_hash(key, message).as_bytes()
}

/// Signer and verifier of the keyed-hash scheme.
pub struct Blake3 {
    key: [u8; 32],
}

impl Blake3 {
    /// The key this signer holds.
    pub closed spec fn key_view(&self) -> Seq<u8> {
        self.key@
    }

    /// A signer and verifier under `key`.
    pub fn new(key: [u8; 32]) -> (r: Blake3)
        ensures
            r.key_view() == key@,
    {
        Blake3 { key }
    }

    /// Takes the first 32 bytes of `key` as the key; fewer is a key format error.
    pub fn try_new(key: &[u8]) -> (r: Result<Blake3, TextError>)
        ensures
            key@.len() < KEY_LEN ==> r == Err::<Blake3, TextError>(TextError::KeyFormat),
            key@.len() >= KEY_LEN ==> (r matches Ok(b) && b.key_view() == key@.subrange(0, KEY_LEN as int)),
    {
        if key.len() < KEY_LEN {
            return Err(TextError::KeyFormat);
        }
        Ok(Blake3::new(array_32(key)))
    }

    /// The keyed hash of the whole message.
    pub fn sign(&self, message: &[u8]) -> (r: Vec<u8>)
        ensures
            r@ == keyed_hash_of(self.key_view(), message@)@,
            r@.len() == KEY_LEN,
    {
        let tag = blake3_keyed_hash(&self.key, message);
        vstd::slice::slice_to_vec(&tag)
    }

    /// A fresh random key of 32 printable characters, as the one key file
    /// `blake3.txt`.
    pub fn generate() -> (r: Vec<(&'static str, Vec<u8>)>)
        ensures
            r@.len() == 1,
            r@[0].0@ == "blake3.txt"@,
            is_password(r@[0].1@, KEY_LEN as u8, true, true, true, true),
    {
        let key = generate_password(32, true, true, true, true);
        let mut files: Vec<(&'static str, Vec<u8>)> = Vec::new();
        files.push(("blake3.txt", key));
        files
    }

    /// Recomputes the keyed hash of the message and compares it with
    /// `signature`; a signature that is not 32 bytes long is refused.
    pub fn verify(&self, message: &[u8], signature: &[u8]) -> (r: Result<bool, TextError>)
        ensures
            signature@.len() != KEY_LEN ==> r == Err::<bool, TextError>(TextError::SignatureLength),
            signature@.len() == KEY_LEN ==> r == Ok::<bool, TextError>(
                keyed_hash_of(self.key_view(), message@)@ == signature@,
            ),
    {
        if signature.len() != KEY_LEN {
            return Err(TextError::SignatureLength);
        }
        let tag = blake3_keyed_hash(&self.key, message);
        Ok(bytes_equal(&tag, signature))
    }
}

} // verus!
