use http::Uri;
use http_serde_ext::error::DecodeError;
use http_serde_ext::uri::{deserialize, serialize};

#[test]
fn test_uri_roundtrip() {
    let uri = Uri::default();
    let encoded = serialize(&uri);
    assert_eq!(encoded, "/");
    assert_eq!(deserialize(&encoded), Ok(uri));

    let uri = Uri::try_from("https://example.com").unwrap();
    let encoded = serialize(&uri);
    assert_eq!(encoded, "https://example.com/");
    assert_eq!(deserialize(&encoded), Ok(uri));
}

#[test]
fn uri_with_path_and_query_round_trips() {
    for text in ["/a/b?c=d", "http://user@host:8080/p?q", "*", "example.com:443"] {
        let uri = deserialize(text).unwrap();
        assert_eq!(uri, Uri::try_from(text).unwrap());
        assert_eq!(deserialize(&serialize(&uri)), Ok(uri));
    }
}

#[test]
fn text_that_is_no_uri_is_refused_with_the_reason() {
    let failure = deserialize("").unwrap_err();
    assert_eq!(failure, DecodeError::InvalidUri("empty string".to_string()));
    assert_eq!(failure.message(), "empty string");
    let failure = deserialize("http://exa mple.com/").unwrap_err();
    assert_eq!(failure, DecodeError::InvalidUri("invalid uri character".to_string()));
}
