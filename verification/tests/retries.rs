use netband::provider::{RetryAfter, parse_retry_after_value};
use netband::time::{Duration, MAX_UTC_NANOS, Timestamp};

const SECOND: i128 = 1_000_000_000;

#[test]
fn retry_deadlines_preserve_dates_and_check_numeric_boundaries() {
    let received = Timestamp { nanos: 120 * SECOND + 500_000_000 };
    let end = Timestamp { nanos: MAX_UTC_NANOS };
    for seconds in [0, 60, 172_800, u64::MAX] {
        let retry = parse_retry_after_value(&seconds.to_string(), received).unwrap();
        assert_eq!(retry.delay, Duration::from_secs(seconds));
        let expected = if seconds == u64::MAX {
            end
        } else {
            Timestamp { nanos: received.nanos + seconds as i128 * SECOND }
        };
        assert_eq!(retry.deadline, expected);
    }
    assert_eq!(parse_retry_after_value("1", end).unwrap().deadline, end);
    for (date, seconds, delay_ms) in [
        ("Thu, 01 Jan 1970 00:01:00 GMT", 60, 0),
        ("Thu, 01 Jan 1970 00:02:00 GMT", 120, 0),
        ("Thu, 01 Jan 1970 00:03:00 GMT", 180, 59_500),
    ] {
        let retry = parse_retry_after_value(date, received).unwrap();
        assert_eq!(
            retry,
            RetryAfter {
                deadline: Timestamp { nanos: seconds * SECOND },
                delay: Duration::from_millis(delay_ms),
            }
        );
    }
    for value in ["", "later", "-1", "+1", "1.5", "18446744073709551616"] {
        assert_eq!(parse_retry_after_value(value, received), None, "{value}");
    }
    assert_eq!(
        parse_retry_after_value(" 60 ", received),
        parse_retry_after_value("60", received)
    );
}
