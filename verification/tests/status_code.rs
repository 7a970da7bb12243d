use http::StatusCode;
use http_serde_ext::error::DecodeError;
use http_serde_ext::status_code::{deserialize, serialize, truncate, Integer};

#[test]
fn test_status_code_roundtrip() {
    let status = StatusCode::default();
    assert_eq!(serialize(&status), 200);
    assert_eq!(deserialize(Integer::Unsigned(200)), Ok(status));

    let status = StatusCode::NOT_MODIFIED;
    assert_eq!(serialize(&status), 304);
    assert_eq!(deserialize(Integer::Unsigned(304)), Ok(status));
    assert_eq!(deserialize(Integer::Signed(304)), Ok(status));
}

#[test]
fn every_status_code_round_trips() {
    for number in 100u16..=999 {
        let status = StatusCode::from_u16(number).unwrap();
        assert_eq!(serialize(&status), number);
        assert_eq!(deserialize(Integer::Unsigned(number as u64)), Ok(status));
        assert_eq!(deserialize(Integer::Signed(number as i64)), Ok(status));
    }
}

#[test]
fn number_outside_100_to_999_is_refused() {
    for number in [0u64, 1, 99, 1000, 1001, 65535] {
        let failure = deserialize(Integer::Unsigned(number)).unwrap_err();
        assert_eq!(failure, DecodeError::InvalidStatusCode);
        assert_eq!(failure.message(), "invalid status code");
    }
    assert_eq!(deserialize(Integer::Signed(-1)), Err(DecodeError::InvalidStatusCode));
    assert_eq!(deserialize(Integer::Signed(-200)), Err(DecodeError::InvalidStatusCode));
    assert_eq!(deserialize(Integer::Signed(i64::MIN)), Err(DecodeError::InvalidStatusCode));
}

#[test]
fn only_the_lowest_16_bits_count() {
    assert_eq!(truncate(Integer::Unsigned(0x1_0000 + 200)), 200);
    assert_eq!(truncate(Integer::Unsigned(u64::MAX)), 0xffff);
    assert_eq!(truncate(Integer::Signed(-1)), 0xffff);
    assert_eq!(truncate(Integer::Signed(-65536 + 404)), 404);
    assert_eq!(truncate(Integer::Signed(i64::MIN)), 0);
    assert_eq!(truncate(Integer::Signed(i64::MAX)), 0xffff);
    assert_eq!(deserialize(Integer::Unsigned(0x1_0000 + 200)), Ok(StatusCode::OK));
    assert_eq!(deserialize(Integer::Signed(-65536 + 404)), Ok(StatusCode::NOT_FOUND));
    let highest = StatusCode::from_u16(999).unwrap();
    assert_eq!(deserialize(Integer::Unsigned(0x5_0000_0000 + 999)), Ok(highest));
}

#[test]
fn truncation_agrees_with_the_cast_of_the_language() {
    let mut state: u64 = 3;
    for _ in 0..10000 {
        state = state.wrapping_mul(6364136223846793005).wrapping_add(1442695040888963407);
        assert_eq!(truncate(Integer::Unsigned(state)), state as u16);
        assert_eq!(truncate(Integer::Signed(state as i64)), state as i64 as u16);
        let small = (state >> 40) as i64 - (1 << 23);
        assert_eq!(truncate(Integer::Signed(small)), small as u16);
        let expected = StatusCode::from_u16(small as u16).ok();
        assert_eq!(deserialize(Integer::Signed(small)).ok(), expected);
    }
}
