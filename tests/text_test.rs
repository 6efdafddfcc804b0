use rcli::{
    decode, encode, process_text_key_generate, process_text_sign, process_text_verify, Blake3,
    Ed25519Signer, Ed25519Verifier, TextError, TextSignFormat,
};

const HELLO: &[u8] = b"hello world";

fn hex(s: &str) -> Vec<u8> {
    (0..s.len())
        .step_by(2)
        .map(|i| u8::from_str_radix(&s[i..i + 2], 16).unwrap())
        .collect()
}

fn key_files(format: TextSignFormat) -> (Vec<u8>, Vec<u8>) {
    let files = process_text_key_generate(format);
    assert_eq!(files.len(), 2);
    assert_eq!(files[0].0, "ed25519.sk");
    assert_eq!(files[1].0, "ed25519.pk");
    (files[0].1.clone(), files[1].1.clone())
}

#[test]
fn test_blake3_sign_verify() {
    let blake3 = Blake3::try_new(b"1LNQ3ny#&Y@q^@8_5VDVzi9w4a_B!@6#").unwrap();
    let data = b"hello world";
    let sig = blake3.sign(&data[..]);
    println!("{}", encode(&sig));
    assert!(blake3.verify(&data[..], &sig).unwrap());
}

#[test]
fn test_blake3() {
    let signer = Blake3::try_new(b"1LNQ3ny#&Y@q^@8_5VDVzi9w4a_B!@6#").unwrap();
    let message = b"hello world";
    let sig = signer.sign(message);
    let sig1 = signer.sign(message);
    assert_eq!(sig, sig1);
}

#[test]
fn test_ed25519_sign_and_verify() {
    let (seed, public_key) = key_files(TextSignFormat::Ed25519);
    let signer = Ed25519Signer::try_new(&seed).unwrap();
    let message = b"hello world";
    let signature = signer.sign(message);
    let verifier = Ed25519Verifier::try_new(&public_key).unwrap();
    assert_eq!(verifier.verify(message, &signature), Ok(true));

    let (seed, _) = key_files(TextSignFormat::Ed25519);
    let signer = Ed25519Signer::try_new(&seed).unwrap();
    let verify_key = signer.public_key();
    let signature = signer.sign(message);
    let verifier = Ed25519Verifier::try_new(&verify_key).unwrap();
    assert_eq!(verifier.verify(message, &signature), Ok(true));
}

#[test]
fn text_test_ed25519() {
    let (key, public_key) = key_files(TextSignFormat::Ed25519);
    let signer = Ed25519Signer::try_new(&key).unwrap();
    let message = b"hello world";
    let signature = signer.sign(&message[..]);
    let result = encode(&signature);
    println!("{:?}", result);

    let verifier = Ed25519Verifier::try_new(&public_key).unwrap();
    let result = verifier.verify(&message[..], &signature).is_ok();
    println!("verify result = {}", result);
}

#[test]
fn keyed_scheme_zero_key_tag_is_pinned() {
    let key = [0u8; 32];
    let text = process_text_sign(HELLO, &key, TextSignFormat::Blake3).unwrap();
    assert_eq!(text, "9w1nUwM4JGplIurp2q2SwN_UvPTlEWAtlumv0dIhBHk");
    assert_eq!(
        decode(&text).unwrap(),
        hex("f70d67530338246a6522eae9daad92c0dfd4bcf4e511602d96e9afd1d2210479")
    );
    assert_eq!(process_text_verify(HELLO, &key, TextSignFormat::Blake3, &text), Ok(true));
}

#[test]
fn keyed_scheme_takes_first_32_bytes_of_longer_key() {
    let mut key = vec![0u8; 32];
    key.extend_from_slice(b"\n");
    let text = process_text_sign(HELLO, &key, TextSignFormat::Blake3).unwrap();
    assert_eq!(text, "9w1nUwM4JGplIurp2q2SwN_UvPTlEWAtlumv0dIhBHk");
}

#[test]
fn keyed_sign_then_verify_many_messages() {
    let key: Vec<u8> = (0u8..32).collect();
    for message in [&b""[..], b"a", b"hello world", &[0xffu8; 1000][..]] {
        let text = process_text_sign(message, &key, TextSignFormat::Blake3).unwrap();
        assert_eq!(process_text_verify(message, &key, TextSignFormat::Blake3, &text), Ok(true));
    }
}

#[test]
fn keyed_sign_is_deterministic() {
    let key = [7u8; 32];
    let a = process_text_sign(HELLO, &key, TextSignFormat::Blake3).unwrap();
    let b = process_text_sign(HELLO, &key, TextSignFormat::Blake3).unwrap();
    assert_eq!(a, b);
}

#[test]
fn keyed_tampered_message_or_signature_fails() {
    let key = [9u8; 32];
    let signer = Blake3::new(key);
    let sig = signer.sign(HELLO);
    for i in 0..HELLO.len() {
        let mut message = HELLO.to_vec();
        message[i] ^= 1;
        assert_eq!(signer.verify(&message, &sig), Ok(false));
    }
    for i in 0..sig.len() {
        let mut tampered = sig.clone();
        tampered[i] ^= 0x80;
        assert_eq!(signer.verify(HELLO, &tampered), Ok(false));
    }
}

#[test]
fn keyed_other_key_fails() {
    let text = process_text_sign(HELLO, &[1u8; 32], TextSignFormat::Blake3).unwrap();
    assert_eq!(process_text_verify(HELLO, &[2u8; 32], TextSignFormat::Blake3, &text), Ok(false));
}

#[test]
fn keyed_short_key_is_key_format_error() {
    let key = [0u8; 16];
    assert!(matches!(Blake3::try_new(&key), Err(TextError::KeyFormat)));
    assert_eq!(process_text_sign(HELLO, &key, TextSignFormat::Blake3), Err(TextError::KeyFormat));
    let text = encode(&[0u8; 32]);
    assert_eq!(
        process_text_verify(HELLO, &key, TextSignFormat::Blake3, &text),
        Err(TextError::KeyFormat)
    );
}

#[test]
fn keyed_wrong_signature_length_is_refused() {
    let signer = Blake3::new([3u8; 32]);
    assert_eq!(signer.verify(HELLO, &[0u8; 31]), Err(TextError::SignatureLength));
    assert_eq!(signer.verify(HELLO, &[0u8; 64]), Err(TextError::SignatureLength));
    let text = encode(&[0u8; 31]);
    assert_eq!(
        process_text_verify(HELLO, &[3u8; 32], TextSignFormat::Blake3, &text),
        Err(TextError::SignatureLength)
    );
}

#[test]
fn ed25519_pair_verifies_and_other_pair_does_not() {
    let (seed, public_key) = key_files(TextSignFormat::Ed25519);
    let (_, other_public_key) = key_files(TextSignFormat::Ed25519);
    assert_eq!(seed.len(), 32);
    assert_eq!(public_key.len(), 32);
    let text = process_text_sign(HELLO, &seed, TextSignFormat::Ed25519).unwrap();
    assert_eq!(process_text_verify(HELLO, &public_key, TextSignFormat::Ed25519, &text), Ok(true));
    assert_eq!(
        process_text_verify(HELLO, &other_public_key, TextSignFormat::Ed25519, &text),
        Ok(false)
    );
}

#[test]
fn ed25519_rfc8032_first_vector() {
    let seed = hex("9d61b19deffd5a60ba844af492ec2cc44449c5697b326919703bac031cae7f60");
    let signer = Ed25519Signer::try_new(&seed).unwrap();
    assert_eq!(
        signer.public_key(),
        hex("d75a980182b10ab7d54bfed3c964073a0ee172f3daa62325af021a68f707511a")
    );
    assert_eq!(
        signer.sign(b""),
        hex("e5564300c360ac729086e2cc806e828a84877f1eb8e5d974d873e065224901555fb8821590a33bacc61e39701cf9b46bd25bf5f0595bbe24655141438e7a100b")
    );
    let verifier = Ed25519Verifier::try_new(&signer.public_key()).unwrap();
    assert_eq!(verifier.verify(b"", &signer.sign(b"")), Ok(true));
}

#[test]
fn ed25519_key_files_hold_seed_and_its_public_key() {
    let seed = hex("9d61b19deffd5a60ba844af492ec2cc44449c5697b326919703bac031cae7f60");
    let mut array = [0u8; 32];
    array.copy_from_slice(&seed);
    let files = Ed25519Signer::key_files(array);
    assert_eq!(files[0], ("ed25519.sk", seed));
    assert_eq!(
        files[1],
        ("ed25519.pk", hex("d75a980182b10ab7d54bfed3c964073a0ee172f3daa62325af021a68f707511a"))
    );
}

#[test]
fn ed25519_tampered_message_or_signature_fails() {
    let (seed, public_key) = key_files(TextSignFormat::Ed25519);
    let signer = Ed25519Signer::try_new(&seed).unwrap();
    let verifier = Ed25519Verifier::try_new(&public_key).unwrap();
    let sig = signer.sign(HELLO);
    let mut message = HELLO.to_vec();
    message[0] ^= 1;
    assert_eq!(verifier.verify(&message, &sig), Ok(false));
    for i in [0usize, 31, 32, 63] {
        let mut tampered = sig.clone();
        tampered[i] ^= 1;
        assert_eq!(verifier.verify(HELLO, &tampered), Ok(false));
    }
}

#[test]
fn ed25519_key_lengths_are_checked() {
    assert!(matches!(Ed25519Signer::try_new(&[1u8; 31]), Err(TextError::KeyFormat)));
    assert!(matches!(Ed25519Signer::try_new(&[1u8; 33]), Err(TextError::KeyFormat)));
    assert!(matches!(Ed25519Verifier::try_new(&[1u8; 16]), Err(TextError::KeyFormat)));
    assert_eq!(process_text_sign(HELLO, &[1u8; 64], TextSignFormat::Ed25519), Err(TextError::KeyFormat));
}

#[test]
fn ed25519_invalid_point_is_key_format_error() {
    // y = 2 is not the y-coordinate of any curve point
    let mut bytes = [0u8; 32];
    bytes[0] = 2;
    assert!(matches!(Ed25519Verifier::try_new(&bytes), Err(TextError::KeyFormat)));
}

#[test]
fn ed25519_wrong_signature_length_is_refused() {
    let (_, public_key) = key_files(TextSignFormat::Ed25519);
    let verifier = Ed25519Verifier::try_new(&public_key).unwrap();
    assert_eq!(verifier.verify(HELLO, &[0u8; 32]), Err(TextError::SignatureLength));
    let text = encode(&[0u8; 63]);
    assert_eq!(
        process_text_verify(HELLO, &public_key, TextSignFormat::Ed25519, &text),
        Err(TextError::SignatureLength)
    );
}

#[test]
fn verify_with_bad_signature_text_is_decode_error() {
    assert_eq!(
        process_text_verify(HELLO, &[0u8; 32], TextSignFormat::Blake3, " AB@@ "),
        Err(TextError::Decode)
    );
}

#[test]
fn keyed_key_generation_gives_a_usable_printable_key() {
    let files = process_text_key_generate(TextSignFormat::Blake3);
    assert_eq!(files.len(), 1);
    assert_eq!(files[0].0, "blake3.txt");
    let key = &files[0].1;
    assert_eq!(key.len(), 32);
    assert!(key.iter().all(|b| b.is_ascii_graphic()));
    let text = process_text_sign(HELLO, key, TextSignFormat::Blake3).unwrap();
    assert_eq!(process_text_verify(HELLO, key, TextSignFormat::Blake3, &text), Ok(true));
}

#[test]
fn format_names_round_trip() {
    for format in [TextSignFormat::Blake3, TextSignFormat::Ed25519] {
        assert_eq!(rcli::text::parse_format(format.as_str()), Ok(format));
    }
    assert_eq!(rcli::text::parse_format("rsa"), Err("Invalid format"));
}
