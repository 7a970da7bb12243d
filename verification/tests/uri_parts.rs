use http::uri::{Authority, PathAndQuery, Scheme};
use http_serde_ext::error::DecodeError;

#[test]
fn test_authority_roundtrip() {
    let authority = Authority::try_from("example.com:8080").unwrap();
    let encoded = http_serde_ext::authority::serialize(&authority);
    assert_eq!(encoded, "example.com:8080");
    assert_eq!(http_serde_ext::authority::deserialize(encoded), Ok(authority));
}

#[test]
fn test_scheme_roundtrip() {
    let scheme = Scheme::try_from("https").unwrap();
    let encoded = http_serde_ext::scheme::serialize(&scheme);
    assert_eq!(encoded, "https");
    assert_eq!(http_serde_ext::scheme::deserialize(encoded), Ok(scheme));
}

#[test]
fn test_path_and_query_roundtrip() {
    let path_and_query = PathAndQuery::try_from("/hello/world?key=value").unwrap();
    let encoded = http_serde_ext::path_and_query::serialize(&path_and_query);
    assert_eq!(encoded, "/hello/world?key=value");
    assert_eq!(http_serde_ext::path_and_query::deserialize(encoded), Ok(path_and_query));
}

#[test]
fn parts_are_parsed_as_the_http_crate_parses_them() {
    for text in ["example.com", "user@host:1", "[::1]:80", "", "\\", "a b", "host:port"] {
        let expected = Authority::try_from(text).ok();
        assert_eq!(http_serde_ext::authority::deserialize(text).ok(), expected, "{:?}", text);
    }
    for text in ["http", "HTTPS", "ws", "a+b-c.d", "", "has space", "http:"] {
        let expected = Scheme::try_from(text).ok();
        assert_eq!(http_serde_ext::scheme::deserialize(text).ok(), expected, "{:?}", text);
    }
    for text in ["/", "", "/a?b", "no-slash", "/a b", "/a#fragment", "*"] {
        let expected = PathAndQuery::try_from(text).ok();
        assert_eq!(http_serde_ext::path_and_query::deserialize(text).ok(), expected, "{:?}", text);
    }
}

#[test]
fn scheme_round_trips_through_its_text() {
    for text in ["http", "https", "HTTPS", "ws", "a+b-c.d"] {
        let scheme = http_serde_ext::scheme::deserialize(text).unwrap();
        let encoded = http_serde_ext::scheme::serialize(&scheme);
        assert_eq!(http_serde_ext::scheme::deserialize(encoded), Ok(scheme.clone()));
        assert_eq!(encoded, scheme.as_str());
    }
}

#[test]
fn every_byte_is_accepted_or_refused_as_a_scheme_character() {
    for byte in 0u8..128 {
        let expected = byte.is_ascii_alphanumeric() || b"+-.~".contains(&byte);
        for text in [vec![byte], vec![b'a', byte, b'z'], [vec![b'x'; 63], vec![byte]].concat()] {
            let text = String::from_utf8(text).unwrap();
            let decoded = http_serde_ext::scheme::deserialize(&text);
            assert_eq!(decoded.is_ok(), expected, "byte {}", byte);
            if let Ok(scheme) = decoded {
                assert_eq!(http_serde_ext::scheme::serialize(&scheme), text);
            }
        }
    }
    assert!(http_serde_ext::scheme::deserialize("sch\u{e9}me").is_err());
}

#[test]
fn scheme_has_at_most_64_bytes() {
    let empty = http_serde_ext::scheme::deserialize("").unwrap();
    assert_eq!(http_serde_ext::scheme::serialize(&empty), "");
    let longest = "a".repeat(64);
    let scheme = http_serde_ext::scheme::deserialize(&longest).unwrap();
    assert_eq!(http_serde_ext::scheme::serialize(&scheme), longest);
    let failure = http_serde_ext::scheme::deserialize(&"a".repeat(65)).unwrap_err();
    assert_eq!(failure, DecodeError::InvalidUri("scheme too long".to_string()));
}

#[test]
fn path_drops_its_fragment() {
    let path = http_serde_ext::path_and_query::deserialize("/a?b#c").unwrap();
    assert_eq!(http_serde_ext::path_and_query::serialize(&path), "/a?b");
}

#[test]
fn part_that_cannot_be_parsed_is_refused_with_the_reason() {
    let failure = http_serde_ext::authority::deserialize("\\").unwrap_err();
    assert_eq!(failure, DecodeError::InvalidUri("invalid uri character".to_string()));
    assert_eq!(failure.message(), "invalid uri character");
    let failure = http_serde_ext::scheme::deserialize("has space").unwrap_err();
    assert_eq!(failure, DecodeError::InvalidUri("invalid scheme".to_string()));
    let failure = http_serde_ext::path_and_query::deserialize("/a b").unwrap_err();
    assert_eq!(failure, DecodeError::InvalidUri("invalid uri character".to_string()));
}
