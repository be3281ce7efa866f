use focus_tracker::timestamp::Timestamp;

fn stamp(secs: u64, nanos: u32) -> Timestamp {
    Timestamp::new(secs, nanos).unwrap()
}

#[test]
fn new_accepts_nanoseconds_below_one_second() {
    let t = stamp(12, 999_999_999);
    assert_eq!(t.secs(), 12);
    assert_eq!(t.subsec_nanos(), 999_999_999);
}

#[test]
fn new_rejects_a_full_second_of_nanoseconds() {
    assert_eq!(Timestamp::new(12, 1_000_000_000), None);
    assert_eq!(Timestamp::new(0, u32::MAX), None);
}

#[test]
fn text_has_twenty_digits_a_stop_and_nine_digits() {
    assert_eq!(stamp(1_700_000_000, 1).to_text(), "00000000001700000000.000000001");
    assert_eq!(stamp(0, 0).to_text(), "00000000000000000000.000000000");
    assert_eq!(stamp(u64::MAX, 999_999_999).to_text(), "18446744073709551615.999999999");
    assert_eq!(stamp(7, 120_000_000).to_text(), "00000000000000000007.120000000");
}

#[test]
fn text_reads_back_to_the_same_timestamp() {
    for (secs, nanos) in [(0, 0), (1, 0), (0, 1), (1_761_654_896, 123_456_789), (u64::MAX, 999_999_999)] {
        let t = stamp(secs, nanos);
        assert_eq!(Timestamp::from_text(&t.to_text()), Some(t));
    }
}

#[test]
fn from_text_reads_seconds_and_nanoseconds() {
    let t = Timestamp::from_text("00000000000000000042.000000007").unwrap();
    assert_eq!(t.secs(), 42);
    assert_eq!(t.subsec_nanos(), 7);
}

#[test]
fn from_text_rejects_other_lengths() {
    assert_eq!(Timestamp::from_text(""), None);
    assert_eq!(Timestamp::from_text("42.7"), None);
    assert_eq!(Timestamp::from_text("0000000000000000042.000000007"), None);
    assert_eq!(Timestamp::from_text("000000000000000000042.000000007"), None);
    assert_eq!(Timestamp::from_text("00000000000000000042.0000000070"), None);
}

#[test]
fn from_text_rejects_a_misplaced_stop() {
    assert_eq!(Timestamp::from_text("0000000000000000004.2000000007"), None);
    assert_eq!(Timestamp::from_text("00000000000000000042,000000007"), None);
    assert_eq!(Timestamp::from_text("000000000000000000420000000007"), None);
}

#[test]
fn from_text_rejects_characters_that_are_no_digits() {
    assert_eq!(Timestamp::from_text("0000000000000000004x.000000007"), None);
    assert_eq!(Timestamp::from_text("-0000000000000000042.000000007"), None);
    assert_eq!(Timestamp::from_text("00000000000000000042.00000000 "), None);
    assert_eq!(Timestamp::from_text("00000000000000000042.0000.0007"), None);
    assert_eq!(Timestamp::from_text("0000000000000000004\u{662}.000000007"), None);
}

#[test]
fn from_text_rejects_seconds_beyond_the_range() {
    assert_eq!(Timestamp::from_text("18446744073709551616.000000000"), None);
    assert_eq!(Timestamp::from_text("99999999999999999999.999999999"), None);
    assert!(Timestamp::from_text("18446744073709551615.000000000").is_some());
}

#[test]
fn texts_sort_as_their_instants() {
    let instants = [
        stamp(0, 0),
        stamp(0, 1),
        stamp(0, 999_999_999),
        stamp(1, 0),
        stamp(9, 5),
        stamp(10, 0),
        stamp(1_761_654_896, 123_456_789),
        stamp(u64::MAX, 0),
    ];
    for pair in instants.windows(2) {
        assert!(pair[0].to_text() < pair[1].to_text());
    }
}
