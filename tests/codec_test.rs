use rcli::{decode, encode, process_decode, process_encode, Base64Format, TextError};

#[test]
fn test_base64_encode_decode() {
    let data = b"hello world";
    let encode = process_encode(data, Base64Format::Standard);
    println!("{}", encode);
    assert_eq!(encode, "aGVsbG8gd29ybGQ=");

    let decode = process_decode(&encode, Base64Format::Standard).unwrap();
    println!("{:?}", String::from_utf8(decode.clone()).unwrap());
    assert_eq!(decode, data.to_vec());
}

#[test]
fn test_process_encode() {
    let input = b"[package]\nname = \"rcli\"\n";
    let format = Base64Format::Standard;
    assert_eq!(process_encode(input, format), "W3BhY2thZ2VdCm5hbWUgPSAicmNsaSIK");
}

#[test]
fn test_process_decode() {
    let input = "aGVsbG8gd29ybGQ";
    let format = Base64Format::UrlSafe;
    assert_eq!(process_decode(input, format), Ok(b"hello world".to_vec()));
}

#[test]
fn alphabets_differ_in_last_two_symbols() {
    assert_eq!(process_encode(&[0xfb, 0xff], Base64Format::Standard), "+/8=");
    assert_eq!(process_encode(&[0xfb, 0xff], Base64Format::UrlSafe), "-_8");
    assert_eq!(encode(&[0xfb, 0xff]), "-_8");
}

#[test]
fn round_trip_of_many_lengths() {
    for len in 0..70usize {
        let bytes: Vec<u8> = (0..len).map(|i| (i * 37 + 11) as u8).collect();
        let text = encode(&bytes);
        assert!(!text.contains('='));
        assert_eq!(decode(&text), Ok(bytes.clone()));
        for format in [Base64Format::Standard, Base64Format::UrlSafe] {
            let text = process_encode(&bytes, format);
            assert_eq!(process_decode(&text, format), Ok(bytes.clone()));
        }
    }
}

#[test]
fn decode_rejects_invalid_character() {
    assert_eq!(decode(" AB@@ "), Err(TextError::Decode));
    assert_eq!(decode("AB@@"), Err(TextError::Decode));
    assert_eq!(decode("aGVs+G8"), Err(TextError::Decode));
    assert_eq!(decode("aGVsbG8\n"), Err(TextError::Decode));
}

#[test]
fn decode_rejects_non_canonical_text() {
    // padding is not part of the unpadded form
    assert_eq!(decode("aGVsbG8="), Err(TextError::Decode));
    // a lone final symbol encodes no byte
    assert_eq!(decode("aGVsb"), Err(TextError::Decode));
    // set trailing bits
    assert_eq!(decode("aGVsbG9"), Err(TextError::Decode));
    assert_eq!(process_decode("aGVsbG8", Base64Format::Standard), Err(TextError::Decode));
}

#[test]
fn empty_input_encodes_to_empty_text() {
    assert_eq!(encode(&[]), "");
    assert_eq!(decode(""), Ok(vec![]));
}

#[test]
fn format_names() {
    assert_eq!(Base64Format::Standard.as_str(), "standard");
    assert_eq!(rcli::parse_base64_format("urlSafe"), Ok(Base64Format::UrlSafe));
    assert_eq!(rcli::parse_base64_format("standard"), Ok(Base64Format::Standard));
    assert_eq!(rcli::parse_base64_format("hex"), Err("Invalid format"));
}
