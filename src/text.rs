use vstd::prelude::*;

use crate::bytes::str_equal;
use crate::codec::{base64_text, decode, decoded, encode, lemma_decode_encode};
use crate::ed25519::{
    ed25519_accepts, ed25519_public_key_of, ed25519_signature_of, is_ed25519_public_key, Ed25519Signer, Ed25519Verifier,
    ED25519_KEY_LEN, ED25519_SIGNATURE_LEN,
};
use crate::error::TextError;
use crate::gen_pass::is_password;
use crate::keyed::{keyed_hash_of, Blake3, KEY_LEN};

verus! {

/// The signing scheme, fixed for the whole of a request.
#[derive(Debug, Clone, Copy, PartialEq, Eq, Structural)]
pub enum TextSignFormat {
    /// blake3's keyed hash under one shared 32-byte key.
    Blake3,
    /// Ed25519 signatures under a key pair derived from a 32-byte seed.
    Ed25519,
}

impl TextSignFormat {
    /// The name of the scheme on the command line.
    pub fn as_str(&self) -> (r: &'static str)
        ensures
            r@ == format_name(*self),
    {
        match self {
            TextSignFormat::Blake3 => "blake3",
            TextSignFormat::Ed25519 => "ed25519",
        }
    }
}

/// The name of a scheme on the command line.
pub open spec fn format_name(format: TextSignFormat) -> Seq<char> {
    match format {
        TextSignFormat::Blake3 => "blake3"@,
        TextSignFormat::Ed25519 => "ed25519"@,
    }
}

/// Reads a scheme from its name.
pub fn parse_format(format: &str) -> (r: Result<TextSignFormat, &'static str>)
    ensures
        format@ == "blake3"@ ==> r == Ok::<TextSignFormat, &'static str>(TextSignFormat::Blake3),
        format@ == "ed25519"@ ==> r == Ok::<TextSignFormat, &'static str>(TextSignFormat::Ed25519),
        format@ != "blake3"@ && format@ != "ed25519"@ ==> (r matches Err(e) && e@ == "Invalid format"@),
{
    proof {
        reveal_strlit("blake3");
        reveal_strlit("ed25519");
        assert("blake3"@.len() != "ed25519"@.len());
    }
    if str_equal(format, "blake3") {
        Ok(TextSignFormat::Blake3)
    } else if str_equal(format, "ed25519") {
        Ok(TextSignFormat::Ed25519)
    } else {
        Err("Invalid format")
    }
}

/// The signature of `message` under `key` in the scheme, or why there is none.
pub open spec fn signature_of(format: TextSignFormat, key: Seq<u8>, message: Seq<u8>) -> Result<
    Seq<u8>,
    TextError,
> {
    match format {
        TextSignFormat::Blake3 => if key.len() < KEY_LEN {
            Err(TextError::KeyFormat)
        } else {
            Ok(keyed_hash_of(key.subrange(0, KEY_LEN as int), message)@)
        },
        TextSignFormat::Ed25519 => if key.len() != ED25519_KEY_LEN {
            Err(TextError::KeyFormat)
        } else {
            Ok(ed25519_signature_of(key, message)@)
        },
    }
}

/// Under Ed25519, the public key derived from `seed` is a curve point and
/// accepts the signature of `message` made with `seed`.
pub open spec fn ed25519_pair_signs(seed: Seq<u8>, message: Seq<u8>) -> bool {
    &&& is_ed25519_public_key(ed25519_public_key_of(seed)@)
    &&& ed25519_accepts(
        ed25519_public_key_of(seed)@,
        message,
        ed25519_signature_of(seed, message)@,
    )
}

/// Whether `signature` is a signature of `message` under `key` in the
/// scheme, or why the question cannot be asked.
pub open spec fn verdict_of(
    format: TextSignFormat,
    key: Seq<u8>,
    message: Seq<u8>,
    signature: Seq<u8>,
) -> Result<bool, TextError> {
    match format {
        TextSignFormat::Blake3 => if key.len() < KEY_LEN {
            Err(TextError::KeyFormat)
        } else if signature.len() != KEY_LEN {
            Err(TextError::SignatureLength)
        } else {
            Ok(keyed_hash_of(key.subrange(0, KEY_LEN as int), message)@ == signature)
        },
        TextSignFormat::Ed25519 => if key.len() != ED25519_KEY_LEN || !is_ed25519_public_key(key) {
            Err(TextError::KeyFormat)
        } else if signature.len() != ED25519_SIGNATURE_LEN {
            Err(TextError::SignatureLength)
        } else {
            Ok(ed25519_accepts(key, message, signature))
        },
    }
}

/// Signs the whole message with the key material of the scheme (the shared
/// key, or the seed of the pair) and returns the signature as text.
pub fn process_text_sign(input: &[u8], key: &[u8], format: TextSignFormat) -> (r: Result<
    String,
    TextError,
>)
    ensures
        match signature_of(format, key@, input@) {
            Ok(signature) => r matches Ok(text) && text@ == base64_text(true, false, signature),
            Err(e) => r == Err::<String, TextError>(e),
        },
        format is Ed25519 && key@.len() == ED25519_KEY_LEN ==> ed25519_pair_signs(key@, input@),
{
    let signature = match format {
        TextSignFormat::Blake3 => {
            let signer = Blake3::try_new(key)?;
            signer.sign(input)
        },
        TextSignFormat::Ed25519 => {
            let signer = Ed25519Signer::try_new(key)?;
            signer.sign(input)
        },
    };
    Ok(encode(signature.as_slice()))
}

/// Checks signature text against the whole message with the key material of
/// the scheme (the shared key, or the public key).
pub fn process_text_verify(input: &[u8], key: &[u8], format: TextSignFormat, sig: &str) -> (r:
    Result<bool, TextError>)
    ensures
        match decoded(true, false, sig@) {
            Some(signature) => r == verdict_of(format, key@, input@, signature),
            None => r == Err::<bool, TextError>(TextError::Decode),
        },
{
    let signature = decode(sig)?;
    match format {
        TextSignFormat::Blake3 => {
            let verifier = Blake3::try_new(key)?;
            verifier.verify(input, signature.as_slice())
        },
        TextSignFormat::Ed25519 => {
            let verifier = Ed25519Verifier::try_new(key)?;
            verifier.verify(input, signature.as_slice())
        },
    }
}

/// Fresh key material for the scheme, as files to write: `blake3.txt` for
/// the keyed hash, `ed25519.sk` and `ed25519.pk` for the pair.
pub fn process_text_key_generate(format: TextSignFormat) -> (r: Vec<(&'static str, Vec<u8>)>)
    ensures
        format is Blake3 ==> {
            &&& r@.len() == 1
            &&& r@[0].0@ == "blake3.txt"@
            &&& is_password(r@[0].1@, KEY_LEN as u8, true, true, true, true)
        },
        format is Ed25519 ==> {
            &&& r@.len() == 2
            &&& r@[0].0@ == "ed25519.sk"@
            &&& r@[0].1@.len() == ED25519_KEY_LEN
            &&& r@[1].0@ == "ed25519.pk"@
            &&& r@[1].1@ == ed25519_public_key_of(r@[0].1@)@
            &&& is_ed25519_public_key(r@[1].1@)
        },
{
    match format {
        TextSignFormat::Blake3 => Blake3::generate(),
        TextSignFormat::Ed25519 => Ed25519Signer::generate(),
    }
}

/// Under the keyed hash, with a 32-byte key, the signature text made of a
/// message decodes to the signature, and the signature verifies.
pub proof fn lemma_keyed_sign_then_verify(key: Seq<u8>, message: Seq<u8>)
    requires
        key.len() == KEY_LEN,
    ensures
        signature_of(TextSignFormat::Blake3, key, message) matches Ok(signature) && decoded(
            true,
            false,
            base64_text(true, false, signature),
        ) == Some(signature) && verdict_of(TextSignFormat::Blake3, key, message, signature) == Ok::<
            bool,
            TextError,
        >(true),
{
    let signature = keyed_hash_of(key.subrange(0, KEY_LEN as int), message)@;
    lemma_decode_encode(true, false, signature);
}

/// Under the keyed hash, changing any one byte of a signature makes it fail
/// to verify.
pub proof fn lemma_keyed_tampered_signature_rejected(key: Seq<u8>, message: Seq<u8>, i: int, b: u8)
    requires
        key.len() == KEY_LEN,
        0 <= i < KEY_LEN,
        b != signature_of(TextSignFormat::Blake3, key, message)->Ok_0[i],
    ensures
        verdict_of(
            TextSignFormat::Blake3,
            key,
            message,
            signature_of(TextSignFormat::Blake3, key, message)->Ok_0.update(i, b),
        ) == Ok::<bool, TextError>(false),
{
    let signature = signature_of(TextSignFormat::Blake3, key, message)->Ok_0;
    assert(signature.update(i, b)[i] != signature[i]);
}

/// Under Ed25519, the signature text made of a message with a 32-byte seed
/// decodes to the signature, and verifying it with the public key paired
/// with the seed gives `true` (the pair facts are what signing ensures).
pub proof fn lemma_ed25519_sign_then_verify(seed: Seq<u8>, message: Seq<u8>)
    requires
        seed.len() == ED25519_KEY_LEN,
        ed25519_pair_signs(seed, message),
    ensures
        signature_of(TextSignFormat::Ed25519, seed, message) matches Ok(signature) && decoded(
            true,
            false,
            base64_text(true, false, signature),
        ) == Some(signature) && verdict_of(
            TextSignFormat::Ed25519,
            ed25519_public_key_of(seed)@,
            message,
            signature,
        ) == Ok::<bool, TextError>(true),
{
    lemma_decode_encode(true, false, ed25519_signature_of(seed, message)@);
}

/// Under the keyed hash the signature depends on the message and the first
/// 32 key bytes alone: signing twice with them gives the same signature.
pub proof fn lemma_keyed_sign_deterministic(key1: Seq<u8>, key2: Seq<u8>, message: Seq<u8>)
    requires
        key1.len() >= KEY_LEN,
        key2.len() >= KEY_LEN,
        key1.subrange(0, KEY_LEN as int) == key2.subrange(0, KEY_LEN as int),
    ensures
        signature_of(TextSignFormat::Blake3, key1, message) == signature_of(
            TextSignFormat::Blake3,
            key2,
            message,
        ),
        signature_of(TextSignFormat::Blake3, key1, message) is Ok,
{
}

/// Key material of the wrong length is a key format error (for the keyed
/// hash: fewer than 32 bytes, as longer keys are cut to 32), and with a
/// usable key a signature of the wrong length is a signature length error.
pub proof fn lemma_length_validation(
    format: TextSignFormat,
    key: Seq<u8>,
    message: Seq<u8>,
    signature: Seq<u8>,
)
    ensures
        format is Blake3 && key.len() < KEY_LEN ==> signature_of(format, key, message) == Err::<
            Seq<u8>,
            TextError,
        >(TextError::KeyFormat) && verdict_of(format, key, message, signature) == Err::<
            bool,
            TextError,
        >(TextError::KeyFormat),
        format is Ed25519 && key.len() != ED25519_KEY_LEN ==> signature_of(format, key, message)
            == Err::<Seq<u8>, TextError>(TextError::KeyFormat) && verdict_of(
            format,
            key,
            message,
            signature,
        ) == Err::<bool, TextError>(TextError::KeyFormat),
        format is Blake3 && key.len() >= KEY_LEN && signature.len() != KEY_LEN ==> verdict_of(
            format,
            key,
            message,
            signature,
        ) == Err::<bool, TextError>(TextError::SignatureLength),
        format is Ed25519 && key.len() == ED25519_KEY_LEN && is_ed25519_public_key(key)
            && signature.len() != ED25519_SIGNATURE_LEN ==> verdict_of(format, key, message, signature)
            == Err::<bool, TextError>(TextError::SignatureLength),
{
}

} // verus!
