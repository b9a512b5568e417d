use aks_tui::text::{
    after, before, begins, holds, in_order, in_sorted_order, is_blank, joined, lines_of, lowered,
    padded, print, print_signed, same_ignoring_case, split_at_first, trimmed, words_of,
};
use aks_tui::timestamp::{age, Timestamp};

const SAMPLES: [&str; 8] = [
    "",
    " ",
    "one",
    " one  two ",
    "a\nb\r\nc",
    "a\n\nb\n",
    "\u{2003}wide\u{3000}gap\u{a0}",
    "É É",
];

#[test]
fn a_blank_is_what_unicode_calls_white_space() {
    for c in ('\0'..='\u{ffff}').chain(['\u{10000}', '\u{10ffff}']) {
        assert_eq!(is_blank(c), c.is_whitespace(), "{c:?}");
    }
}

#[test]
fn a_text_is_cut_where_std_cuts_it() {
    for text in SAMPLES {
        assert_eq!(trimmed(text), text.trim());
        assert_eq!(lines_of(text), text.lines().collect::<Vec<_>>());
        assert_eq!(
            words_of(text),
            text.split_whitespace().collect::<Vec<_>>()
        );
        assert_eq!(lowered(text), text.to_ascii_lowercase());
        assert_eq!(padded(text, 5), format!("{text:<5}"));
        for other in SAMPLES {
            assert_eq!(begins(text, other), text.starts_with(other));
            assert_eq!(holds(text, other), text.contains(other));
            assert_eq!(after(text, other).as_deref(), text.strip_prefix(other));
            assert_eq!(before(text, other).as_deref(), text.strip_suffix(other));
            assert_eq!(in_order(text, other), text <= other);
            assert_eq!(
                same_ignoring_case(text, other),
                text.eq_ignore_ascii_case(other)
            );
        }
    }
}

#[test]
fn a_text_is_split_at_the_first_and_put_together_again() {
    assert_eq!(
        split_at_first("a:b:c", ':'),
        Some(("a".to_owned(), "b:c".to_owned()))
    );
    assert_eq!(split_at_first("abc", ':'), None);
    let parts = vec!["a".to_owned(), String::new(), "b".to_owned()];
    assert_eq!(joined(&parts, ", "), "a, , b");
    assert_eq!(joined(&Vec::new(), ", "), "");
}

#[test]
fn a_number_is_printed_as_std_prints_it() {
    for n in [0, 7, 10, 1234, u128::MAX] {
        assert_eq!(print(n), n.to_string());
    }
    for n in [0, -1, i64::MIN, i64::MAX] {
        assert_eq!(print_signed(n), n.to_string());
    }
}

#[test]
fn pairs_are_put_in_order() {
    let pair = |a: &str, b: &str| (a.to_owned(), b.to_owned());
    let held = vec![pair("b", "1"), pair("a", "2"), pair("b", "0"), pair("a", "2")];
    let mut sorted = held.clone();
    sorted.sort();
    assert_eq!(in_sorted_order(held), sorted);
}

#[test]
fn a_timestamp_is_printed_as_it_was_read() {
    for text in [
        "2026-08-30T10:00:00Z",
        "1970-01-01T00:00:00Z",
        "2000-02-29T23:59:59Z",
        "0000-01-01T00:00:00Z",
        "9999-12-31T23:59:59Z",
    ] {
        assert_eq!(Timestamp::parse(text).unwrap().to_rfc3339(), text);
    }
    for text in [
        "",
        "2026-08-30",
        "2026-02-29T00:00:00Z",
        "1900-02-29T00:00:00Z",
        "2026-13-01T00:00:00Z",
        "2026-01-01T24:00:00Z",
        "2026-01-01T00:00:60Z",
        "2026-01-0aT00:00:00Z",
        "2026-01-01T00:00:00+",
    ] {
        assert_eq!(Timestamp::parse(text), None, "{text}");
    }
    let stamp = Timestamp::parse("2026-08-30T10:00:00Z").unwrap();
    assert_eq!(stamp.seconds(), 1_788_084_000);
    assert_eq!(stamp.calendar_date(), "2026-08-30");
}

#[test]
fn an_age_is_in_the_largest_unit_that_counts_it() {
    let made = Timestamp::parse("2026-08-30T10:00:00Z");
    let at = |text: &str| age(made, Timestamp::parse(text).unwrap());
    assert_eq!(at("2026-08-30T10:00:00Z"), "0s");
    assert_eq!(at("2026-08-30T10:00:59Z"), "59s");
    assert_eq!(at("2026-08-30T10:59:59Z"), "59m");
    assert_eq!(at("2026-08-31T09:59:59Z"), "23h");
    assert_eq!(at("2026-10-10T10:00:00Z"), "41d");
    assert_eq!(at("2020-01-01T00:00:00Z"), "0s", "from the future");
    assert_eq!(age(None, made.unwrap()), "\u{2014}");
}

#[test]
fn a_moment_past_the_last_is_the_last() {
    assert_eq!(Timestamp::told(Some(0)).to_rfc3339(), "1970-01-01T00:00:00Z");
    assert_eq!(Timestamp::told(None).seconds(), 0);
    let last = "9999-12-31T23:59:59Z";
    assert_eq!(Timestamp::told(Some(u64::MAX)).to_rfc3339(), last);
}

#[test]
fn now_is_what_the_clock_says() {
    let held = std::time::SystemTime::UNIX_EPOCH.elapsed().unwrap();
    let now = Timestamp::now().seconds();
    assert!((now - held.as_secs() as i64).abs() <= 1);
    assert_eq!(Timestamp::now().seconds_since(Timestamp::now()), 0);
}
