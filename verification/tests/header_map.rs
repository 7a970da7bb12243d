use http::{HeaderMap, HeaderName, HeaderValue};
use http_serde_ext::error::{DecodeError, EncodeError};
use http_serde_ext::header_map::{
    decode_entries, decode_values, deserialize, encode_values, insert_header_values, serialize,
};
use http_serde_ext::wire::{Either, Entry, Scalar};

fn text(s: &str) -> Scalar {
    Scalar::Text(s.to_string())
}

fn bytes(s: &str) -> Scalar {
    Scalar::Bytes(s.as_bytes().to_vec())
}

fn entry(key: &str, payload: Either<Scalar>) -> Entry<Scalar> {
    Entry { key: key.to_string(), payload }
}

fn sample_map() -> HeaderMap {
    let mut map = HeaderMap::new();
    map.insert("baz", HeaderValue::from_static("qux"));
    map.insert("foo", HeaderValue::from_static("bar"));
    map.append("two", HeaderValue::from_static("one"));
    map.append("two", HeaderValue::from_static("two"));
    map
}

fn groups_of(map: &HeaderMap) -> Vec<(String, Vec<Vec<u8>>)> {
    map.keys()
        .map(|k| {
            (
                k.as_str().to_string(),
                map.get_all(k).iter().map(|v| v.as_bytes().to_vec()).collect(),
            )
        })
        .collect()
}

#[test]
fn test_header_map_roundtrip() {
    // The empty map, in a human-readable format and in a binary one.
    let empty = HeaderMap::default();
    for human_readable in [true, false] {
        let encoded = serialize(&empty, human_readable).expect("serialize");
        assert_eq!(encoded, vec![]);
        let decoded = deserialize(&encoded, human_readable).expect("deserialize");
        assert_eq!(decoded, empty);
    }

    // One value, one value, two values.
    let map = sample_map();
    let encoded = serialize(&map, true).expect("serialize");
    assert_eq!(
        encoded,
        vec![
            entry("baz", Either::One(text("qux"))),
            entry("foo", Either::One(text("bar"))),
            entry("two", Either::Many(vec![text("one"), text("two")])),
        ]
    );
    let decoded = deserialize(&encoded, true).expect("deserialize");
    assert_eq!(decoded, map);
    assert_eq!(groups_of(&decoded), groups_of(&map));

    let encoded = serialize(&map, false).expect("serialize");
    assert_eq!(
        encoded,
        vec![
            entry("baz", Either::Many(vec![bytes("qux")])),
            entry("foo", Either::Many(vec![bytes("bar")])),
            entry("two", Either::Many(vec![bytes("one"), bytes("two")])),
        ]
    );
    let decoded = deserialize(&encoded, false).expect("deserialize");
    assert_eq!(decoded, map);
    assert_eq!(groups_of(&decoded), groups_of(&map));
}

#[test]
fn round_trip_keeps_order_of_names_and_values() {
    let mut map = HeaderMap::new();
    map.append("zeta", HeaderValue::from_static("3"));
    map.append("alpha", HeaderValue::from_static("1"));
    map.append("zeta", HeaderValue::from_static("1"));
    map.append("mid", HeaderValue::from_static(""));
    map.append("zeta", HeaderValue::from_static("2"));
    for human_readable in [true, false] {
        let encoded = serialize(&map, human_readable).unwrap();
        let keys: Vec<&str> = encoded.iter().map(|e| e.key.as_str()).collect();
        assert_eq!(keys, vec!["zeta", "alpha", "mid"]);
        let decoded = deserialize(&encoded, human_readable).unwrap();
        assert_eq!(
            groups_of(&decoded),
            vec![
                ("zeta".to_string(), vec![b"3".to_vec(), b"1".to_vec(), b"2".to_vec()]),
                ("alpha".to_string(), vec![b"1".to_vec()]),
                ("mid".to_string(), vec![b"".to_vec()]),
            ]
        );
    }
}

#[test]
fn single_value_is_bare_only_where_human_readable() {
    let value = HeaderValue::from_static("bar");
    assert_eq!(encode_values(&[&value], true), Ok(Either::One(text("bar"))));
    assert_eq!(encode_values(&[&value], false), Ok(Either::Many(vec![bytes("bar")])));
}

#[test]
fn several_values_are_a_sequence_in_every_format() {
    let one = HeaderValue::from_static("one");
    let two = HeaderValue::from_static("two");
    let three = HeaderValue::from_static("three");
    assert_eq!(
        encode_values(&[&one, &two], true),
        Ok(Either::Many(vec![text("one"), text("two")]))
    );
    assert_eq!(
        encode_values(&[&one, &two, &three], false),
        Ok(Either::Many(vec![bytes("one"), bytes("two"), bytes("three")]))
    );
}

#[test]
fn no_value_fails_to_encode() {
    assert_eq!(encode_values(&[], true), Err(EncodeError::EmptyValueGroup));
    assert_eq!(encode_values(&[], false), Err(EncodeError::EmptyValueGroup));
}

#[test]
fn opaque_value_is_encoded_as_bytes_only() {
    let opaque = HeaderValue::from_bytes(b"caf\xe9").unwrap();
    let plain = HeaderValue::from_static("tea");
    assert_eq!(encode_values(&[&opaque], true), Err(EncodeError::ValueNotText));
    assert_eq!(encode_values(&[&plain, &opaque], true), Err(EncodeError::ValueNotText));
    assert_eq!(
        encode_values(&[&opaque], false),
        Ok(Either::Many(vec![Scalar::Bytes(b"caf\xe9".to_vec())]))
    );

    let mut map = HeaderMap::new();
    map.insert("plain", plain);
    map.insert("opaque", opaque);
    assert_eq!(serialize(&map, true), Err(EncodeError::ValueNotText));
    let encoded = serialize(&map, false).unwrap();
    assert_eq!(deserialize(&encoded, false).unwrap(), map);
}

#[test]
fn decodes_sequence_of_two() {
    let encoded = vec![entry("two", Either::Many(vec![text("one"), text("two")]))];
    let decoded = deserialize(&encoded, true).unwrap();
    assert_eq!(decoded.keys_len(), 1);
    assert_eq!(
        groups_of(&decoded),
        vec![("two".to_string(), vec![b"one".to_vec(), b"two".to_vec()])]
    );
}

#[test]
fn human_readable_reads_one_value_from_both_shapes() {
    let bare = vec![entry("foo", Either::One(text("bar")))];
    let wrapped = vec![entry("foo", Either::Many(vec![text("bar")]))];
    let expected = deserialize(&bare, true).unwrap();
    assert_eq!(groups_of(&expected), vec![("foo".to_string(), vec![b"bar".to_vec()])]);
    assert_eq!(deserialize(&wrapped, true).unwrap(), expected);
    assert_eq!(deserialize(&wrapped, false).unwrap(), expected);
}

#[test]
fn bare_value_is_refused_where_not_human_readable() {
    let bare = vec![entry("foo", Either::One(bytes("bar")))];
    assert_eq!(deserialize(&bare, false), Err(DecodeError::UnexpectedShape));
    assert_eq!(decode_values(&Either::One(bytes("bar")), false), Err(DecodeError::UnexpectedShape));
}

#[test]
fn text_and_bytes_are_read_alike() {
    let encoded = vec![entry("mixed", Either::Many(vec![text("a"), bytes("b")]))];
    for human_readable in [true, false] {
        let decoded = deserialize(&encoded, human_readable).unwrap();
        assert_eq!(
            groups_of(&decoded),
            vec![("mixed".to_string(), vec![b"a".to_vec(), b"b".to_vec()])]
        );
    }
}

#[test]
fn key_is_decoded_in_lower_case() {
    let encoded = vec![entry("Content-Type", Either::One(text("text/plain")))];
    let decoded = deserialize(&encoded, true).unwrap();
    assert_eq!(
        groups_of(&decoded),
        vec![("content-type".to_string(), vec![b"text/plain".to_vec()])]
    );
}

#[test]
fn duplicate_key_keeps_first_occurrence() {
    let encoded = vec![
        entry("foo", Either::Many(vec![text("a"), text("b")])),
        entry("bar", Either::One(text("x"))),
        entry("foo", Either::Many(vec![text("c")])),
        entry("FOO", Either::One(text("d"))),
    ];
    let decoded = deserialize(&encoded, true).unwrap();
    assert_eq!(
        groups_of(&decoded),
        vec![
            ("foo".to_string(), vec![b"a".to_vec(), b"b".to_vec()]),
            ("bar".to_string(), vec![b"x".to_vec()]),
        ]
    );
    let without_duplicates = vec![
        entry("foo", Either::Many(vec![text("a"), text("b")])),
        entry("bar", Either::One(text("x"))),
    ];
    assert_eq!(deserialize(&without_duplicates, true).unwrap(), decoded);
}

#[test]
fn duplicate_bare_value_does_not_replace_first() {
    let encoded =
        vec![entry("foo", Either::One(text("first"))), entry("foo", Either::One(text("second")))];
    let decoded = deserialize(&encoded, true).unwrap();
    assert_eq!(groups_of(&decoded), vec![("foo".to_string(), vec![b"first".to_vec()])]);
}

#[test]
fn empty_sequence_adds_no_name() {
    let encoded = vec![
        entry("foo", Either::Many(vec![])),
        entry("foo", Either::One(text("later"))),
        entry("bar", Either::Many(vec![])),
    ];
    let decoded = deserialize(&encoded, true).unwrap();
    assert_eq!(groups_of(&decoded), vec![("foo".to_string(), vec![b"later".to_vec()])]);
}

#[test]
fn invalid_key_fails_with_the_key() {
    let invalid = String::from_utf8(vec![127]).unwrap();
    let encoded = vec![entry(&invalid, Either::One(text("hello")))];
    let failure = deserialize(&encoded, true).unwrap_err();
    assert_eq!(failure, DecodeError::InvalidKey(invalid.clone()));
    assert_eq!(failure.message(), "invalid HTTP header name");
    assert_eq!(deserialize(&encoded, false), Err(DecodeError::InvalidKey(invalid)));
    let empty = vec![entry("", Either::One(text("hello")))];
    assert_eq!(deserialize(&empty, true), Err(DecodeError::InvalidKey(String::new())));
}

#[test]
fn invalid_value_fails() {
    let encoded = vec![entry("foo", Either::Many(vec![text("fine"), text("line\nbreak")]))];
    let failure = deserialize(&encoded, true).unwrap_err();
    assert_eq!(failure, DecodeError::InvalidValue);
    assert_eq!(failure.message(), "failed to parse header value");
    let encoded = vec![entry("foo", Either::Many(vec![Scalar::Bytes(vec![127])]))];
    assert_eq!(deserialize(&encoded, false), Err(DecodeError::InvalidValue));
}

#[test]
fn invalid_value_in_a_dropped_entry_still_fails() {
    let encoded = vec![
        entry("foo", Either::One(text("kept"))),
        entry("foo", Either::One(text("bad\u{7f}"))),
    ];
    assert_eq!(deserialize(&encoded, true), Err(DecodeError::InvalidValue));
}

#[test]
fn first_failing_entry_decides_the_error() {
    let encoded = vec![
        entry("ok", Either::One(text("fine"))),
        entry("bad value", Either::One(text("\n"))),
        entry("later", Either::One(text("\n"))),
    ];
    assert_eq!(deserialize(&encoded, true), Err(DecodeError::InvalidKey("bad value".to_string())));
    let encoded = vec![
        entry("ok", Either::One(text("\n"))),
        entry("bad key", Either::One(text("fine"))),
    ];
    assert_eq!(deserialize(&encoded, true), Err(DecodeError::InvalidValue));
    let encoded = vec![entry("bad key", Either::One(bytes("\n")))];
    assert_eq!(deserialize(&encoded, false), Err(DecodeError::InvalidKey("bad key".to_string())));
    let encoded = vec![entry("ok", Either::One(bytes("\n")))];
    assert_eq!(deserialize(&encoded, false), Err(DecodeError::UnexpectedShape));
}

#[test]
fn decode_entries_keeps_every_entry() {
    let encoded = vec![
        entry("Foo", Either::One(text("a"))),
        entry("foo", Either::Many(vec![])),
        entry("foo", Either::Many(vec![text("b"), text("c")])),
    ];
    let decoded = decode_entries(&encoded, true).unwrap();
    assert_eq!(decoded.len(), 3);
    assert_eq!(decoded[0].name, HeaderName::from_static("foo"));
    assert_eq!(decoded[0].values, vec![HeaderValue::from_static("a")]);
    assert_eq!(decoded[1].values, Vec::<HeaderValue>::new());
    assert_eq!(
        decoded[2].values,
        vec![HeaderValue::from_static("b"), HeaderValue::from_static("c")]
    );
}

#[test]
fn insert_header_values_inserts_only_where_vacant() {
    let mut map = HeaderMap::new();
    let foo = HeaderName::from_static("foo");
    let values = vec![HeaderValue::from_static("a"), HeaderValue::from_static("b")];
    assert_eq!(insert_header_values(&mut map, foo.clone(), values), Ok(()));
    assert_eq!(groups_of(&map), vec![("foo".to_string(), vec![b"a".to_vec(), b"b".to_vec()])]);
    let more = vec![HeaderValue::from_static("c")];
    assert_eq!(insert_header_values(&mut map, foo.clone(), more), Ok(()));
    assert_eq!(groups_of(&map), vec![("foo".to_string(), vec![b"a".to_vec(), b"b".to_vec()])]);
    assert_eq!(insert_header_values(&mut map, HeaderName::from_static("bar"), vec![]), Ok(()));
    assert_eq!(map.keys_len(), 1);
}

#[test]
fn map_that_cannot_grow_fails_without_panic() {
    let mut encoded = Vec::new();
    for i in 0..40000 {
        encoded.push(entry(&format!("x-{}", i), Either::One(text("v"))));
    }
    assert_eq!(deserialize(&encoded, true), Err(DecodeError::MaxSizeReached));
}

#[test]
fn name_with_a_quote_does_not_round_trip() {
    let mut map = HeaderMap::new();
    map.insert(HeaderName::from_static("a\"b"), HeaderValue::from_static("v"));
    let encoded = serialize(&map, true).unwrap();
    assert_eq!(encoded, vec![entry("a\"b", Either::One(text("v")))]);
    assert_eq!(deserialize(&encoded, true), Err(DecodeError::InvalidKey("a\"b".to_string())));
}

/// A small generator of numbers that gives the same run every time.
struct Numbers(u64);

impl Numbers {
    fn next(&mut self, below: u64) -> u64 {
        self.0 = self.0.wrapping_mul(6364136223846793005).wrapping_add(1442695040888963407);
        (self.0 >> 33) % below
    }
}

/// What the entries are to be decoded to, worked out on plain lists.
fn expected_groups(entries: &[(String, Vec<String>)]) -> Vec<(String, Vec<Vec<u8>>)> {
    let mut groups: Vec<(String, Vec<Vec<u8>>)> = Vec::new();
    for (key, values) in entries {
        let name = key.to_ascii_lowercase();
        if values.is_empty() || groups.iter().any(|(taken, _)| *taken == name) {
            continue;
        }
        groups.push((name, values.iter().map(|v| v.as_bytes().to_vec()).collect()));
    }
    groups
}

#[test]
fn many_entries_are_decoded_as_on_plain_lists() {
    let mut numbers = Numbers(7);
    for human_readable in [true, false] {
        for _ in 0..20 {
            let count = numbers.next(400) as usize;
            let mut plain = Vec::new();
            let mut encoded = Vec::new();
            for _ in 0..count {
                let key = format!("X-Name-{}", numbers.next(150));
                let values: Vec<String> =
                    (0..numbers.next(4)).map(|_| format!("v{}", numbers.next(1000))).collect();
                let payload = if human_readable && values.len() == 1 && numbers.next(2) == 0 {
                    Either::One(text(&values[0]))
                } else if human_readable {
                    Either::Many(values.iter().map(|v| text(v)).collect())
                } else {
                    Either::Many(values.iter().map(|v| bytes(v)).collect())
                };
                encoded.push(entry(&key, payload));
                plain.push((key, values));
            }
            let decoded = deserialize(&encoded, human_readable).unwrap();
            assert_eq!(groups_of(&decoded), expected_groups(&plain));

            // What was decoded is encoded and decoded again without change.
            let again = serialize(&decoded, human_readable).unwrap();
            assert_eq!(again.len(), decoded.keys_len());
            let twice = deserialize(&again, human_readable).unwrap();
            assert_eq!(groups_of(&twice), groups_of(&decoded));
        }
    }
}

#[test]
fn order_of_names_survives_the_growth_of_the_map() {
    let mut numbers = Numbers(11);
    let mut map = HeaderMap::new();
    let mut plain: Vec<(String, Vec<Vec<u8>>)> = Vec::new();
    for _ in 0..6000 {
        let name = format!("h{}", numbers.next(3000));
        let value = format!("{}", numbers.next(10));
        map.append(
            HeaderName::from_bytes(name.as_bytes()).unwrap(),
            HeaderValue::from_str(&value).unwrap(),
        );
        match plain.iter_mut().find(|(taken, _)| *taken == name) {
            Some((_, values)) => values.push(value.into_bytes()),
            None => plain.push((name, vec![value.into_bytes()])),
        }
    }
    for human_readable in [true, false] {
        let encoded = serialize(&map, human_readable).unwrap();
        assert_eq!(encoded.len(), plain.len());
        for (entry, (name, values)) in encoded.iter().zip(plain.iter()) {
            assert_eq!(&entry.key, name);
            let scalars: Vec<Scalar> = values
                .iter()
                .map(|v| {
                    if human_readable {
                        Scalar::Text(String::from_utf8(v.clone()).unwrap())
                    } else {
                        Scalar::Bytes(v.clone())
                    }
                })
                .collect();
            let expected = if human_readable && scalars.len() == 1 {
                Either::One(scalars[0].clone())
            } else {
                Either::Many(scalars)
            };
            assert_eq!(entry.payload, expected);
        }
        let decoded = deserialize(&encoded, human_readable).unwrap();
        assert_eq!(groups_of(&decoded), plain);
    }
}
