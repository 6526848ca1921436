use jj_navi::timestamp::Timestamp;

#[test]
fn timestamps_write_rfc3339() {
    let epoch = Timestamp { unix_nanos: 0, offset_seconds: 0 };
    assert_eq!(epoch.format().unwrap(), "1970-01-01T00:00:00Z");
    let later = Timestamp { unix_nanos: 1_700_000_000_123_000_000, offset_seconds: 7200 };
    assert_eq!(later.format().unwrap(), "2023-11-15T00:13:20.123+02:00");
}

#[test]
fn timestamps_read_back() {
    for (unix_nanos, offset_seconds) in [
        (0, 0),
        (1, 0),
        (-1, 0),
        (1_700_000_000_123_456_789, -12_600),
        (1_700_000_000_000_000_000, -1_800),
        (1_700_000_000_000_000_000, 50_400),
        (-62_167_219_200_000_000_000, 0),
        (253_402_300_799_999_999_999, 0),
    ] {
        let time = Timestamp { unix_nanos, offset_seconds };
        let text = time.format().unwrap();
        assert_eq!(Timestamp::parse(&text), Ok(time), "{text}");
    }
}

#[test]
fn what_rfc3339_cannot_say_is_refused() {
    assert!(Timestamp { unix_nanos: 0, offset_seconds: 30 }.format().is_err());
    assert!(Timestamp { unix_nanos: i128::MAX, offset_seconds: 0 }.format().is_err());
    assert!(Timestamp { unix_nanos: 0, offset_seconds: i32::MAX }.format().is_err());
    assert!(Timestamp { unix_nanos: 253_402_300_800_000_000_000, offset_seconds: 0 }
        .format()
        .is_err());
}

#[test]
fn other_texts_are_refused() {
    for bad in ["", "yesterday", "2023-11-15", "2023-13-15T00:00:00Z", "2023-11-15T00:00:00"] {
        assert!(Timestamp::parse(bad).is_err(), "{bad}");
    }
    assert_eq!(
        Timestamp::parse("1970-01-01t00:00:00z"),
        Ok(Timestamp { unix_nanos: 0, offset_seconds: 0 })
    );
}
