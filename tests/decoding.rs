use eth_token::abi::{read_string, read_uint32, DecodeError};

fn word(v: u64) -> Vec<u8> {
    let mut w = vec![0u8; 24];
    w.extend_from_slice(&v.to_be_bytes());
    w
}

fn abi_string(s: &str) -> Vec<u8> {
    let mut out = word(32);
    out.extend(word(s.len() as u64));
    let mut payload = s.as_bytes().to_vec();
    let padded = ((payload.len() + 31) / 32).max(1) * 32;
    payload.resize(padded, 0);
    out.extend(payload);
    out
}

#[test]
fn uint32_reads_low_bytes_of_first_word() {
    assert_eq!(read_uint32(&word(18)), Ok(18));
    assert_eq!(read_uint32(&word(0x01020304)), Ok(0x01020304));
}

#[test]
fn uint32_ignores_high_bytes_of_word() {
    let mut w = word(6);
    w[0] = 0xff;
    w[27] = 0xff;
    assert_eq!(read_uint32(&w), Ok(6));
}

#[test]
fn uint32_too_short() {
    assert_eq!(read_uint32(&[]), Err(DecodeError::TooShort));
    assert_eq!(read_uint32(&[0u8; 31]), Err(DecodeError::TooShort));
}

#[test]
fn string_decodes_payload() {
    assert_eq!(read_string(&abi_string("Wrapped Ether")), Ok(String::from("Wrapped Ether")));
    assert_eq!(read_string(&abi_string("WETH")), Ok(String::from("WETH")));
}

#[test]
fn string_empty_payload() {
    assert_eq!(read_string(&abi_string("")), Ok(String::new()));
}

#[test]
fn string_long_payload_spans_words() {
    let text = "a name that is longer than one thirty-two byte word";
    assert_eq!(read_string(&abi_string(text)), Ok(String::from(text)));
}

#[test]
fn string_too_short() {
    assert_eq!(read_string(&[0u8; 95]), Err(DecodeError::TooShort));
    assert_eq!(read_string(&word(32)), Err(DecodeError::TooShort));
}

#[test]
fn string_length_out_of_range() {
    let mut raw = abi_string("WETH");
    raw[63] = 33;
    assert_eq!(read_string(&raw), Err(DecodeError::LengthOutOfRange));
    let mut huge = abi_string("WETH");
    huge[32] = 1;
    assert_eq!(read_string(&huge), Err(DecodeError::LengthOutOfRange));
}

#[test]
fn string_length_exactly_available() {
    let mut raw = abi_string("WETH");
    raw[63] = 32;
    let decoded = read_string(&raw).unwrap();
    assert_eq!(decoded.len(), 32);
    assert!(decoded.starts_with("WETH"));
}

#[test]
fn string_invalid_utf8() {
    let mut raw = abi_string("ab");
    raw[64] = 0xff;
    assert_eq!(read_string(&raw), Err(DecodeError::InvalidUtf8));
}

#[test]
fn decoding_is_deterministic() {
    let raw = abi_string("Token");
    assert_eq!(read_string(&raw), read_string(&raw.clone()));
    let w = word(9);
    assert_eq!(read_uint32(&w), read_uint32(&w.clone()));
}
