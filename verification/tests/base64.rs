use contract_account::base64_url::{encode, EncodeError};

fn enc(src: &[u8]) -> String {
    let src_vec: Vec<u8> = src.to_vec();
    let mut dst: Vec<u8> = vec![0u8; (4 * src.len() + 2) / 3];
    encode(&mut dst, &src_vec).unwrap();
    String::from_utf8(dst).unwrap()
}

#[test]
fn encode_known_vectors() {
    assert_eq!(enc(b""), "");
    assert_eq!(enc(b"f"), "Zg");
    assert_eq!(enc(b"fo"), "Zm8");
    assert_eq!(enc(b"foo"), "Zm9v");
    assert_eq!(enc(b"foob"), "Zm9vYg");
    assert_eq!(enc(b"fooba"), "Zm9vYmE");
    assert_eq!(enc(b"foobar"), "Zm9vYmFy");
}

#[test]
fn encode_url_safe_alphabet() {
    // 0xfb 0xff picks indices 62 and 63: '-' and '_', never '+' or '/'.
    assert_eq!(enc(&[0xfb, 0xef, 0xbe]), "----");
    assert_eq!(enc(&[0xff, 0xff, 0xff]), "____");
}

#[test]
fn encode_lengths_match_ceil() {
    for len in 0usize..80 {
        let src: Vec<u8> = (0..len).map(|i| (i * 7 + 3) as u8).collect();
        let out = enc(&src);
        assert_eq!(out.len(), (4 * len + 2) / 3);
        assert!(!out.contains('='));
    }
}

#[test]
fn encode_32_zero_bytes_is_43_a_characters() {
    let out = enc(&[0u8; 32]);
    assert_eq!(out.len(), 43);
    assert_eq!(out, "A".repeat(43));
}

#[test]
fn encode_rejects_wrong_destination_length() {
    let src: Vec<u8> = vec![1, 2, 3, 4];
    let mut dst: Vec<u8> = vec![9u8; 8];  // needs exactly 6
    let r = encode(&mut dst, &src);
    assert_eq!(r, Err(EncodeError::WrongDestinationLength));
    assert_eq!(dst, vec![9u8; 8]);
}
