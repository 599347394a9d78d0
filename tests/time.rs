use zkattend::time::{decode_time, encode_time, format_date, format_iso, format_time, is_valid_stamp, Stamp};

fn stamp(year: u32, month: u32, day: u32, hour: u32, minute: u32, second: u32) -> Stamp {
    Stamp { year, month, day, hour, minute, second }
}

#[test]
fn zero_is_start_of_2000() {
    assert_eq!(decode_time(0), stamp(2000, 1, 1, 0, 0, 0));
}

#[test]
fn thirty_one_days_is_february_first() {
    assert_eq!(decode_time(2_678_400), stamp(2000, 2, 1, 0, 0, 0));
}

#[test]
fn packed_time_round_trip() {
    for s in [stamp(2000, 1, 1, 0, 0, 0), stamp(2024, 2, 29, 23, 59, 59), stamp(2099, 12, 31, 12, 30, 45)] {
        assert_eq!(decode_time(encode_time(&s)), s);
    }
}

#[test]
fn encode_time_formula() {
    let s = stamp(2001, 3, 4, 5, 6, 7);
    let expected = ((((1 * 12 + 2) * 31 + 3) * 24 + 5) * 60 + 6) * 60 + 7;
    assert_eq!(encode_time(&s), expected);
}

#[test]
fn text_forms_are_zero_padded() {
    let s = stamp(2024, 3, 5, 7, 8, 9);
    assert_eq!(format_date(&s), "2024-03-05");
    assert_eq!(format_time(&s), "07:08:09");
    assert_eq!(format_iso(&s), "2024-03-05T07:08:09");
}

#[test]
fn impossible_day_is_flagged() {
    let s = decode_time(60 * 86_400);
    assert_eq!(s, stamp(2000, 2, 30, 0, 0, 0));
    assert!(!is_valid_stamp(&s));
    assert!(is_valid_stamp(&stamp(2000, 2, 29, 0, 0, 0)));
    assert!(!is_valid_stamp(&stamp(2100, 2, 29, 0, 0, 0)));
    assert!(!is_valid_stamp(&stamp(2001, 4, 31, 0, 0, 0)));
}
