use clawchat::ids::new_id;
use clawchat::json::{column_list, normalise};
use clawchat::text::{
    eq_ignore_ascii_case, i64_text, is_whitespace, parse_i64, parse_u32, text_lt, trim,
};
use clawchat::time::{
    later, later_exists, now, parse_rfc3339, parse_timestamp, parse_timestamp_or, show, Timestamp,
    CLOCK_FORMAT, COLUMN_FORMAT, FULL_FORMAT,
};

#[test]
fn whitespace_is_what_the_standard_library_counts() {
    for c in '\0'..=char::MAX {
        assert_eq!(is_whitespace(c), c.is_whitespace(), "{:?}", c);
    }
}

#[test]
fn texts_are_trimmed_and_compared() {
    for s in ["", " ", "a", " a b\t\n", "\u{a0}x\u{3000}", "ä "] {
        assert_eq!(trim(s), s.trim());
    }
    let words = ["", "a", "ab", "b", "B", "ä", "z", "日本"];
    for a in words {
        for b in words {
            assert_eq!(text_lt(a, b), a < b);
            assert_eq!(eq_ignore_ascii_case(a, b), a.eq_ignore_ascii_case(b));
        }
    }
    assert!(eq_ignore_ascii_case("TiP", "tip"));
    assert!(!eq_ignore_ascii_case("Ä", "ä"));
}

#[test]
fn integers_are_read_and_written() {
    let texts = [
        "", "0", "-0", "+0", "7", "-7", "+7", "-", "+", "--1", "1-", " 1", "1 ", "007",
        "9223372036854775807", "9223372036854775808", "-9223372036854775808",
        "-9223372036854775809", "99999999999999999999999", "4294967295", "4294967296", "1_000",
        "٣",
    ];
    for s in texts {
        assert_eq!(parse_i64(s), s.parse::<i64>().ok(), "{:?}", s);
        assert_eq!(parse_u32(s), s.parse::<u32>().ok(), "{:?}", s);
    }
    for n in [0, 1, -1, 10, 4096, i64::MAX, i64::MIN] {
        assert_eq!(i64_text(n), n.to_string());
    }
}

#[test]
fn instants_are_shown_and_read() {
    let t = Timestamp { secs: 1704164645, nanos: 678_900_000 };
    assert_eq!(show(t, COLUMN_FORMAT), "2024-01-02T03:04:05.678Z");
    assert_eq!(show(t, CLOCK_FORMAT), "03:04:05");
    assert_eq!(show(t, FULL_FORMAT), "2024-01-02 03:04:05 UTC");
    assert_eq!(show(Timestamp { secs: i64::MAX, nanos: 0 }, CLOCK_FORMAT), "");
    let back = Timestamp { secs: 1704164645, nanos: 678_000_000 };
    assert_eq!(parse_timestamp("2024-01-02T03:04:05.678Z"), back);
    assert_eq!(parse_timestamp("2024-01-02T05:04:05.678+02:00"), back);
    assert_eq!(parse_rfc3339("2024-01-02T03:04:05.678Z"), Some(back));
    assert_eq!(parse_rfc3339("yesterday"), None);
    let fallback = Timestamp { secs: 5, nanos: 6 };
    assert_eq!(parse_timestamp_or("yesterday", fallback), fallback);
    let before = now();
    assert!(later_exists(before, 0));
    assert!(1704164645 < before.secs);
    let read = parse_timestamp("yesterday");
    assert!(before.secs <= read.secs);
}

#[test]
fn column_texts_are_in_the_order_of_time() {
    let mut instants: Vec<Timestamp> = Vec::new();
    for secs in [
        -62167219200, -62135596801, -12219292801, -86401, -1, 0, 1, 59, 86399, 951782399,
        951782400, 1704067199, 1704067200, 253402300799,
    ] {
        for nanos in [0, 999_999, 1_000_000, 500_000_000, 999_999_999] {
            instants.push(Timestamp { secs, nanos });
        }
    }
    let millis = |t: &Timestamp| t.secs as i128 * 1000 + (t.nanos / 1_000_000) as i128;
    for a in &instants {
        let text = show(*a, COLUMN_FORMAT);
        let start = Timestamp { secs: a.secs, nanos: a.nanos / 1_000_000 * 1_000_000 };
        assert_eq!(parse_rfc3339(&text), Some(start), "{text}");
        for b in &instants {
            let other = show(*b, COLUMN_FORMAT);
            assert_eq!(text < other, millis(a) < millis(b), "{text} {other}");
        }
        for secs in [-62167219201, -62167305600, -377705116800, -8334601228800] {
            let other = show(Timestamp { secs, nanos: 999_999_999 }, COLUMN_FORMAT);
            assert!(other.starts_with('-') && other < text, "{text} {other}");
        }
    }
}

#[test]
fn some_fractions_do_not_read_back_as_themselves() {
    let once = normalise("5.699993338763803e-16");
    assert_eq!(once, "5.699993338763804e-16");
    assert_ne!(normalise(&once), once);
}

#[test]
fn deadlines_stay_in_the_calendar() {
    let t = Timestamp { secs: 100, nanos: 7 };
    assert!(later_exists(t, 60));
    assert_eq!(later(t, 60), Timestamp { secs: 160, nanos: 7 });
    assert!(!later_exists(t, 8_210_266_876_800));
    assert!(later_exists(t, 8_210_266_876_699));
    assert!(later_exists(t, u64::MAX));
    assert_eq!(later(t, u64::MAX), Timestamp { secs: 99, nanos: 7 });
}

#[test]
fn json_lists_and_texts() {
    assert_eq!(column_list("[\"a\",\"b\"]"), vec!["a".to_string(), "b".to_string()]);
    assert!(column_list("[1]").is_empty());
    assert!(column_list("nothing").is_empty());
    assert_eq!(normalise("[ 1 , 2 ]"), "[1,2]");
    assert_eq!(normalise("nothing"), "{}");
}

#[test]
fn identifiers_are_fresh() {
    let a = new_id();
    assert_eq!(a.len(), 36);
    assert_ne!(a, new_id());
}
