use dbgen::timestamp::{current_timestamp, now_from_str, Timestamp, TimestampError};

#[test]
fn timestamp_is_read_in_utc() {
    assert_eq!(
        now_from_str("2019-03-04 05:06:07.125"),
        Ok(Timestamp {
            seconds: 1_551_675_967,
            nanoseconds: 125_000_000,
        })
    );
    assert_eq!(
        now_from_str("1970-01-01 00:00:00"),
        Ok(Timestamp {
            seconds: 0,
            nanoseconds: 0,
        })
    );
}

#[test]
fn timestamp_errors() {
    assert_eq!(now_from_str("2019-03-04"), Err(TimestampError::TooShort));
    assert_eq!(
        now_from_str("2019-03-04 05:06:07.125Z"),
        Err(TimestampError::TooLong)
    );
    assert_eq!(
        now_from_str("yesterday at noon"),
        Err(TimestampError::Invalid)
    );
    assert_eq!(
        now_from_str("2019-02-30 00:00:00"),
        Err(TimestampError::OutOfRange)
    );
    assert_eq!(
        now_from_str("2019-03-04 25:00:00"),
        Err(TimestampError::OutOfRange)
    );
}

#[test]
fn requested_timestamp_is_used() {
    let t = Timestamp {
        seconds: -5,
        nanoseconds: 17,
    };
    assert_eq!(current_timestamp(Some(t)), t);
}

#[test]
fn current_time_is_past_the_year_2020() {
    let t = current_timestamp(None);
    assert!(t.seconds > 1_577_836_800);
    assert!(t.nanoseconds < 2_000_000_000);
}
