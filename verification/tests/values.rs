use netband::digest::{digest, hex};
use netband::model::{EventId, RequestId, RunId, Scalar, timestamp_text};
use netband::scheduler::plan::{random_seed, seed_of};
use netband::string_map::StringMap;
use netband::text::{decimal, has_end, has_start, sorts_before};
use netband::time::{Duration, TOO_LARGE, Timestamp, is_countable};
use netband::tls::{check_authorities, private_authorities};

#[test]
fn times_are_written_in_utc_with_milliseconds() {
    assert_eq!(timestamp_text(Timestamp { nanos: 0 }), "1970-01-01T00:00:00.000Z");
    assert_eq!(
        timestamp_text(Timestamp { nanos: 1_789_646_400_123_456_789 }),
        "2026-09-17T12:00:00.123Z"
    );
    assert_eq!(
        timestamp_text(Timestamp { nanos: -1 }),
        "1969-12-31T23:59:59.999Z"
    );
    assert_eq!(Timestamp { nanos: 1_500_000_000 }.rfc3339_text(), "1970-01-01T00:00:01.500+00:00");
    assert_eq!(Timestamp { nanos: 1_500_000_000 }.stamp_text(), "19700101T000001.500Z");
    assert_eq!(Timestamp { nanos: -1 }.date().day, -1);
    assert_eq!(Timestamp { nanos: 86_400_000_000_000 }.date().day, 1);
}

#[test]
fn spans_of_time_are_read_and_written_for_people() {
    assert_eq!(Duration::parse("1h 30m"), Ok(Duration::from_secs(5400)));
    assert_eq!(Duration::parse("250ms"), Ok(Duration::from_millis(250)));
    assert!(Duration::parse("soon").is_err());
    assert_eq!(Duration::from_millis(1500).text(), "1s 500ms");
    assert_eq!(Duration::from_secs(90).as_secs(), 90);
    for text in [
        "1000000000000000ns",
        "18446744073709551614s",
        "18446744073709551615s",
        "9999999999999999.5s",
        "00000000000000000000000000005s",
        "0000000000000001.5h 000000000000000030m",
    ] {
        assert!(is_countable(text), "{text}");
        assert!(Duration::parse(text).is_ok(), "{text}");
    }
    assert_eq!(
        Duration::parse("18446744073709551615s"),
        Ok(Duration::from_secs(u64::MAX))
    );
}

#[test]
fn spans_of_time_that_are_too_long_are_refused() {
    for text in [
        "999999999999999y",
        "5845420460900000y",
        "1000 0000 0000 0000M",
        "18446744073709551615s 1000ms",
        "18446744073709551616s",
    ] {
        assert!(!is_countable(text), "{text}");
        assert_eq!(Duration::parse(text), Err(TOO_LARGE.to_owned()), "{text}");
    }
    assert!(is_countable("1000000000000000ms"));
    assert_eq!(Duration::parse("1000000000000000ms"), Err(TOO_LARGE.to_owned()));
}

#[test]
fn identifiers_are_random_and_read_back() {
    let first = RunId::new();
    let second = RunId::new();
    assert_ne!(first, second);
    assert_eq!(RunId::parse(&first.text()), Some(first));
    assert_eq!(first.text().len(), 36);
    assert_eq!(EventId::parse("not an id"), None);
    assert_eq!(
        RequestId { value: 0xff }.text(),
        "00000000-0000-0000-0000-0000000000ff"
    );
}

#[test]
fn digests_are_sha256_in_hexadecimal() {
    assert_eq!(
        digest(&b"abc".to_vec()),
        "ba7816bf8f01cfea414140de5dae2223b00361a396177a9cb410ff61f20015ad"
    );
    assert_eq!(hex(&vec![0x00, 0x1f, 0xff]), "001fff");
}

#[test]
fn seeds_are_never_zero() {
    assert_eq!(seed_of(Some(vec![0; 8]), 7), 1);
    assert_eq!(seed_of(Some(vec![1, 2, 0, 0, 0, 0, 0, 0x80]), 7), 0x8000_0000_0000_0201);
    assert_eq!(seed_of(None, 7), 7);
    assert_eq!(seed_of(None, 0), 1);
    assert_ne!(random_seed(1, 2), 0);
}

#[test]
fn texts_are_compared_by_their_characters() {
    assert_eq!(decimal(0), "0");
    assert_eq!(decimal(u128::MAX), "340282366920938463463374607431768211455");
    assert!(sorts_before("a", "b"));
    assert!(sorts_before("a", "ab"));
    assert!(!sorts_before("b", "a"));
    assert!(!sorts_before("a", "a"));
    assert!(has_start("netband-a.csv", "netband-"));
    assert!(!has_start("netb", "netband-"));
    assert!(has_end("netband-a.csv", ".csv"));
    assert!(!has_end("csv", ".csv"));
}

#[test]
fn maps_keep_their_keys_in_order() {
    let mut map: StringMap<u8> = StringMap::new();
    map.put("b".into(), 2);
    map.put("a".into(), 1);
    map.put("b".into(), 3);
    assert_eq!(map.len(), 2);
    assert_eq!(map.key_at(0), "a");
    assert_eq!(*map.value_at(1), 3);
    assert_eq!(map.get("a"), Some(&1));
    assert_eq!(map.get("c"), None);
}

#[test]
fn readings_are_ordered_as_numbers() {
    let scalar = |value: f64| {
        let bits = value.to_bits() as i64;
        Scalar { key: if bits >= 0 { bits } else { bits ^ i64::MAX } }
    };
    assert!(scalar(2.0).is_at_least(scalar(2.0)));
    assert!(scalar(-1.0).is_below(scalar(-0.5)));
    assert!(scalar(-0.0).is_at_least(scalar(0.0)));
    assert!(!scalar(f64::NAN).is_at_least(scalar(0.0)));
    assert!(!scalar(f64::NAN).is_below(scalar(0.0)));
    assert!(scalar(100.0).is_percentage());
    assert!(scalar(-0.0).is_percentage());
    assert!(!scalar(100.5).is_percentage());
    assert!(scalar(0.1).is_finite_positive());
    assert!(!scalar(f64::INFINITY).is_finite_positive());
    assert!(!scalar(0.0).is_finite_positive());
}

const CERTIFICATE: &str = "-----BEGIN CERTIFICATE-----\nAAAA\n-----END CERTIFICATE-----\n";

#[test]
fn authorities_must_be_certificates() {
    assert_eq!(
        private_authorities(&b"no certificates here".to_vec(), "ca.pem"),
        Err("private CA ca.pem contains no certificates".into())
    );
    let invalid = private_authorities(&CERTIFICATE.as_bytes().to_vec(), "ca.pem").unwrap_err();
    assert!(invalid.starts_with("invalid private CA ca.pem: "));
    let broken = b"-----BEGIN CERTIFICATE-----\n!!!!\n-----END CERTIFICATE-----\n".to_vec();
    let unread = private_authorities(&broken, "ca.pem").unwrap_err();
    assert!(unread.starts_with("invalid private CA ca.pem: "));
    assert_eq!(
        check_authorities(vec![Err("cut off".into())], "ca.pem"),
        Err("invalid private CA ca.pem: cut off".into())
    );
    assert_eq!(
        check_authorities(vec![], "ca.pem"),
        Err("private CA ca.pem contains no certificates".into())
    );
}
