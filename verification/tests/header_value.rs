use http::HeaderValue;
use http_serde_ext::error::{DecodeError, EncodeError};
use http_serde_ext::header_value::{deserialize, serialize};
use http_serde_ext::wire::Scalar;

#[test]
fn test_header_value_roundtrip() {
    let value = HeaderValue::from_static("foo");
    let encoded = serialize(&value, true).expect("serialize");
    assert_eq!(encoded, Scalar::Text("foo".to_string()));
    assert_eq!(deserialize(&encoded), Ok(value.clone()));

    let encoded = serialize(&value, false).expect("serialize");
    assert_eq!(encoded, Scalar::Bytes(b"foo".to_vec()));
    assert_eq!(deserialize(&encoded), Ok(value));
}

#[test]
fn value_is_text_only_where_human_readable() {
    let value = HeaderValue::from_static("a b\tc");
    assert_eq!(serialize(&value, true), Ok(Scalar::Text("a b\tc".to_string())));
    assert_eq!(serialize(&value, false), Ok(Scalar::Bytes(b"a b\tc".to_vec())));
    let empty = HeaderValue::from_static("");
    assert_eq!(serialize(&empty, true), Ok(Scalar::Text(String::new())));
    assert_eq!(serialize(&empty, false), Ok(Scalar::Bytes(vec![])));
}

#[test]
fn value_that_does_not_show_as_text_is_encoded_as_bytes_only() {
    let opaque = HeaderValue::from_bytes(&[b'a', 0x80, 0xff]).unwrap();
    let failure = serialize(&opaque, true).unwrap_err();
    assert_eq!(failure, EncodeError::ValueNotText);
    assert_eq!(failure.message(), "failed to convert header to a str");
    let encoded = serialize(&opaque, false).unwrap();
    assert_eq!(encoded, Scalar::Bytes(vec![b'a', 0x80, 0xff]));
    assert_eq!(deserialize(&encoded), Ok(opaque));
}

#[test]
fn every_byte_is_accepted_or_refused_as_a_value_byte() {
    for byte in 0u8..=255 {
        let accepted = (byte >= 32 && byte != 127) || byte == b'\t';
        let shown = (32..127).contains(&byte) || byte == b'\t';
        let decoded = deserialize(&Scalar::Bytes(vec![b'x', byte]));
        assert_eq!(decoded.is_ok(), accepted, "byte {}", byte);
        if let Ok(value) = decoded {
            assert_eq!(value.as_bytes(), &[b'x', byte]);
            assert_eq!(serialize(&value, true).is_ok(), shown, "byte {}", byte);
            let encoded = serialize(&value, false).unwrap();
            assert_eq!(deserialize(&encoded), Ok(value.clone()));
            if shown {
                let encoded = serialize(&value, true).unwrap();
                assert_eq!(deserialize(&encoded), Ok(value));
            }
        } else {
            assert_eq!(decoded, Err(DecodeError::InvalidValue));
        }
    }
}

#[test]
fn text_is_decoded_to_its_utf8_bytes() {
    let decoded = deserialize(&Scalar::Text("caf\u{e9}".to_string())).unwrap();
    assert_eq!(decoded.as_bytes(), "caf\u{e9}".as_bytes());
    assert_eq!(decoded.as_bytes(), &[b'c', b'a', b'f', 0xc3, 0xa9]);
}

#[test]
fn invalid_value_is_refused() {
    let invalid = String::from_utf8(vec![127]).unwrap();
    let failure = deserialize(&Scalar::Text(invalid)).unwrap_err();
    assert_eq!(failure, DecodeError::InvalidValue);
    assert_eq!(failure.message(), "failed to parse header value");
    assert_eq!(deserialize(&Scalar::Bytes(vec![b'a', b'\n'])), Err(DecodeError::InvalidValue));
    assert_eq!(deserialize(&Scalar::Text("a\r\nb".to_string())), Err(DecodeError::InvalidValue));
}
