use wordle_clone::{decode, encode, override_word, CodecError};

#[test]
fn encode_known_value() {
    assert_eq!(encode("CRANE".to_string()), "VmxaU1IxTXhSbk5WYmtwWFZWRQ");
}

#[test]
fn encode_raises_case_first() {
    assert_eq!(encode("crane".to_string()), encode("CRANE".to_string()));
    assert_ne!(encode("CRANE".to_string()), "CRANE");
}

#[test]
fn round_trip_words() {
    for w in ["CRANE", "ALLOY", "LLAMA", "ZESTY", "QUEUE"].iter() {
        assert_eq!(decode(encode(w.to_string())), Ok(w.to_string()));
    }
}

#[test]
fn decode_known_value() {
    assert_eq!(decode("VmxaU1IxTXhSbk5WYmtwWFZWRQ".to_string()), Ok("CRANE".to_string()));
}

#[test]
fn decode_rejects_malformed() {
    assert_eq!(decode("not base64!".to_string()), Err(CodecError::InvalidEncoding));
    assert_eq!(decode("A".to_string()), Err(CodecError::InvalidEncoding));
}

#[test]
fn override_from_plain_word() {
    assert_eq!(override_word(Some("crane".to_string()), None), Some("CRANE".to_string()));
    assert_eq!(
        override_word(Some("slate".to_string()), Some(encode("CRANE".to_string()))),
        Some("SLATE".to_string())
    );
}

#[test]
fn override_from_encoded_word() {
    assert_eq!(override_word(None, Some(encode("ghost".to_string()))), Some("GHOST".to_string()));
    assert_eq!(override_word(None, Some("not base64!".to_string())), None);
    assert_eq!(override_word(None, None), None);
}

#[test]
fn encoding_is_url_safe() {
    for w in ["CRANE", "ZESTY", "hello world?", "ünïcode"].iter() {
        let e = encode(w.to_string());
        assert!(e.chars().all(|c| c.is_ascii_alphanumeric() || c == '-' || c == '_'));
    }
}
