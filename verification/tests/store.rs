use code_clocker::file_handler::{
    parse_total, read_from_file, reset_file, save_to_file, StoreError, LOG_DIR, LOG_FILE,
};

#[test]
fn where_the_slot_lives() {
    assert_eq!(LOG_DIR, ".tmr");
    assert_eq!(LOG_FILE, "time_log.txt");
}

#[test]
fn a_total_is_persisted_as_one_line() {
    assert_eq!(save_to_file(0), "0\n");
    assert_eq!(save_to_file(3_600_000), "3600000\n");
    assert_eq!(save_to_file(-15), "-15\n");
    assert_eq!(save_to_file(i64::MAX), "9223372036854775807\n");
    assert_eq!(save_to_file(i64::MIN), "-9223372036854775808\n");
}

#[test]
fn a_reset_persists_zero() {
    assert_eq!(reset_file(), "0\n");
    assert_eq!(reset_file(), save_to_file(0));
}

#[test]
fn an_empty_slot_reads_as_zero() {
    assert_eq!(read_from_file(None), "0");
    assert_eq!(parse_total(&read_from_file(None)), Ok(0));
}

#[test]
fn content_is_read_without_its_margins() {
    assert_eq!(read_from_file(Some("42\n")), "42");
    assert_eq!(read_from_file(Some("  42  ")), "42");
    assert_eq!(read_from_file(Some("")), "");
    assert_eq!(read_from_file(Some("\n")), "");
    assert_eq!(read_from_file(Some("4 2\n")), "4 2");
}

#[test]
fn a_total_is_parsed_from_content() {
    assert_eq!(parse_total("42"), Ok(42));
    assert_eq!(parse_total("42\n"), Ok(42));
    assert_eq!(parse_total(" \t-7 \r\n"), Ok(-7));
    assert_eq!(parse_total("+7"), Ok(7));
    assert_eq!(parse_total("9223372036854775807"), Ok(i64::MAX));
}

#[test]
fn malformed_content_is_an_error() {
    assert_eq!(parse_total(""), Err(StoreError::Malformed));
    assert_eq!(parse_total("\n"), Err(StoreError::Malformed));
    assert_eq!(parse_total("abc"), Err(StoreError::Malformed));
    assert_eq!(parse_total("12 34"), Err(StoreError::Malformed));
    assert_eq!(parse_total("12.5"), Err(StoreError::Malformed));
    assert_eq!(parse_total("0x10"), Err(StoreError::Malformed));
    assert_eq!(parse_total("9223372036854775808"), Err(StoreError::Malformed));
    assert_eq!(parse_total("-9223372036854775809"), Err(StoreError::Malformed));
}

#[test]
fn what_is_written_is_what_is_read() {
    let mut v: i64 = 0;
    for step in 0..64 {
        let text = save_to_file(v);
        assert_eq!(parse_total(&read_from_file(Some(&text))), Ok(v));
        v = v.wrapping_mul(3).wrapping_add(step * 1_000_003 + 1);
        if v < 0 {
            v = v.wrapping_neg().max(0);
        }
    }
    for v in [0, 1, 999, 1000, 7_776_000_000, i64::MAX] {
        let text = save_to_file(v);
        assert_eq!(parse_total(&read_from_file(Some(&text))), Ok(v));
    }
}

#[test]
fn negative_totals_round_trip_too() {
    for v in [-1, -1000, i64::MIN] {
        let text = save_to_file(v);
        assert_eq!(parse_total(&read_from_file(Some(&text))), Ok(v));
    }
}

#[test]
fn after_a_reset_the_slot_reads_zero() {
    for before in ["", "garbage", "123456\n", "-5"] {
        let mut slot = String::from(before);
        slot.clear();
        slot.push_str(&reset_file());
        assert_eq!(parse_total(&read_from_file(Some(&slot))), Ok(0));
    }
}
