use toki::codec::{decode_entry, encode_entry, u64_digits};
use toki::KvError;

#[test]
fn digits_of_small_and_large() {
    assert_eq!(u64_digits(0), "0");
    assert_eq!(u64_digits(7), "7");
    assert_eq!(u64_digits(10), "10");
    assert_eq!(u64_digits(1700000000), "1700000000");
    assert_eq!(u64_digits(u64::MAX), "18446744073709551615");
}

#[test]
fn encode_has_the_documented_shape() {
    assert_eq!(encode_entry("\"v\"", 42), "{\"data\":\"v\",\"expire\":42}");
    assert_eq!(encode_entry("null", 0), "{\"data\":null,\"expire\":0}");
}

#[test]
fn round_trip_plain() {
    let text = encode_entry("[1,2,3]", 1234);
    let entry = decode_entry(&text).unwrap();
    assert_eq!(entry.data, "[1,2,3]");
    assert_eq!(entry.expire, 1234);
}

#[test]
fn round_trip_empty_value_and_extreme_expires() {
    for expire in [0u64, 1, 9, 10, u64::MAX] {
        let text = encode_entry("", expire);
        let entry = decode_entry(&text).unwrap();
        assert_eq!(entry.data, "");
        assert_eq!(entry.expire, expire);
    }
}

#[test]
fn round_trip_value_that_mimics_the_marker() {
    // A value that itself contains `,"expire":9}` must come back whole: the
    // real expiration digits are the maximal run before the final brace.
    let tricky = "{\"x\":\",\\\"expire\\\":9}\"}";
    let text = encode_entry(tricky, 5);
    let entry = decode_entry(&text).unwrap();
    assert_eq!(entry.data, tricky);
    assert_eq!(entry.expire, 5);
}

#[test]
fn decode_rejects_non_entries() {
    for bad in [
        "",
        "{}",
        "null",
        "{\"data\":1}",
        "{\"data\":1,\"expire\":}",
        "{\"data\":1,\"expire\":1x}",
        "{\"data\":1,\"expire\":12",
        "[\"data\":1,\"expire\":12}",
        "{\"Data\":1,\"expire\":12}",
        "{\"data\":1,\"Expire\":12}",
    ] {
        assert_eq!(decode_entry(bad).unwrap_err(), KvError::Decode, "input: {bad}");
    }
}

#[test]
fn decode_rejects_expire_beyond_u64() {
    // One past u64::MAX.
    let text = "{\"data\":0,\"expire\":18446744073709551616}";
    assert_eq!(decode_entry(text).unwrap_err(), KvError::Decode);
    // u64::MAX itself is fine.
    let text = "{\"data\":0,\"expire\":18446744073709551615}";
    assert_eq!(decode_entry(text).unwrap().expire, u64::MAX);
}

#[test]
fn decode_tolerates_leading_zeros() {
    let entry = decode_entry("{\"data\":\"a\",\"expire\":007}").unwrap();
    assert_eq!(entry.data, "\"a\"");
    assert_eq!(entry.expire, 7);
}

#[test]
fn encoded_entry_is_real_json() {
    let text = encode_entry("{\"a\":[1,2]}", 7);
    let v: serde_json::Value = serde_json::from_str(&text).unwrap();
    assert_eq!(v["expire"], 7);
    assert_eq!(v["data"]["a"][1], 2);
}

#[test]
fn decode_reads_what_a_json_writer_writes() {
    // A JSON object printed with its keys in order `data`, `expire` is
    // exactly what the decoder expects.
    let mut obj = serde_json::Map::new();
    obj.insert("data".to_string(), serde_json::Value::from(31u64));
    obj.insert("expire".to_string(), serde_json::Value::from(99u64));
    let text = serde_json::to_string(&serde_json::Value::Object(obj)).unwrap();
    let entry = decode_entry(&text).unwrap();
    assert_eq!(entry.data, "31");
    assert_eq!(entry.expire, 99);
}
