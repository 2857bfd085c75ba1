use portunus_extensions::gh::render::fmt_count;
use portunus_extensions::gh::time::{humanize, parse_iso};

#[test]
fn timestamps_are_parsed() {
    assert_eq!(parse_iso("1970-01-01T00:00:00Z"), Some(0));
    assert_eq!(parse_iso("2024-05-01T12:30:00Z"), Some(1_714_566_600));
    assert_eq!(parse_iso("2000-02-29T23:59:59Z"), Some(951_868_799));
    assert_eq!(parse_iso("1969-12-31T23:59:59Z"), Some(-1));
    assert_eq!(parse_iso("0000-01-01T00:00:00Z"), Some(-62_167_219_200));
    assert_eq!(parse_iso("2024-05-01 12:30:00.5+02:00"), Some(1_714_566_600));
}

#[test]
fn what_is_no_timestamp_is_refused() {
    assert_eq!(parse_iso(""), None);
    assert_eq!(parse_iso("2024-05-01"), None);
    assert_eq!(parse_iso("2024/05/01T12:30:00Z"), None);
    assert_eq!(parse_iso("2024-05-xxT12:30:00Z"), None);
    assert_eq!(parse_iso("2024-05-01T12:3\u{e9}:0Z"), None);
    assert_eq!(parse_iso("2024-5--01T12:30:00Z"), None);
}

#[test]
fn odd_pieces_are_read_as_integers() {
    assert_eq!(parse_iso("2024-5-001T12:30:00Z"), parse_iso("2024-05-01T12:30:00Z"));
    assert_eq!(parse_iso("+2024-05-1T12:30:00Z"), parse_iso("2024-05-01T12:30:00Z"));
    assert_eq!(parse_iso("2024-05-+T12:30:00Z"), None);
    assert_eq!(parse_iso("1970-01-01T-1:00:00Z"), Some(-3_600));
}

#[test]
fn each_day_is_one_more_day() {
    let days = [31, 29, 31, 30, 31, 30, 31, 31, 30, 31, 30, 31];
    let mut previous = parse_iso("2023-12-31T00:00:00Z").unwrap();
    for m in 0..12 {
        for d in 1..=days[m] {
            let now = parse_iso(&format!("2024-{:02}-{d:02}T00:00:00Z", m + 1)).unwrap();
            assert_eq!(now - previous, 86_400);
            previous = now;
        }
    }
}

#[test]
fn ages_in_words() {
    let then = "2024-05-01T12:30:00Z";
    let base: u64 = 1_714_566_600;
    let at = |secs: u64| humanize(then, Some((base + secs) * 1_000));
    assert_eq!(at(0), "just now");
    assert_eq!(at(59), "just now");
    assert_eq!(at(60), "1 minute ago");
    assert_eq!(at(3_599), "59 minutes ago");
    assert_eq!(at(3_600), "1 hour ago");
    assert_eq!(at(86_399), "23 hours ago");
    assert_eq!(at(86_400 * 3), "3 days ago");
    assert_eq!(at(2_592_000), "1 month ago");
    assert_eq!(at(31_535_999), "12 months ago");
    assert_eq!(at(31_536_000 * 2), "2 years ago");
    assert_eq!(humanize(then, Some(0)), "just now");
    assert_eq!(humanize(then, None), "just now");
    assert_eq!(humanize("yesterday", Some(0)), "yesterday");
}

#[test]
fn counts_in_short() {
    assert_eq!(fmt_count(0), "0");
    assert_eq!(fmt_count(999), "999");
    assert_eq!(fmt_count(1_000), "1.0k");
    assert_eq!(fmt_count(12_345), "12.3k");
    assert_eq!(fmt_count(999_949), "999.9k");
    assert_eq!(fmt_count(999_950), "1.0M");
    assert_eq!(fmt_count(2_500_000), "2.5M");
}

#[test]
fn counts_are_rounded_as_doubles_are() {
    let mut n: u64 = 1_000;
    while n <= 999_949 {
        assert_eq!(fmt_count(n), format!("{:.1}k", n as f64 / 1_000.0));
        n += 37;
    }
    for n in [1_050, 1_150, 1_250, 1_350, 1_450, 2_750, 99_950, 999_850] {
        assert_eq!(fmt_count(n), format!("{:.1}k", n as f64 / 1_000.0));
    }
    let mut n: u64 = 999_950;
    while n < u64::MAX / 3 {
        for k in [n, n + 1, n * 2 + 50_000, n / 50_000 * 50_000] {
            assert_eq!(fmt_count(k), if k <= 999_949 {
                format!("{:.1}k", k as f64 / 1_000.0)
            } else {
                format!("{:.1}M", k as f64 / 1_000_000.0)
            });
        }
        n = n / 2 * 3 + 7;
    }
    assert_eq!(fmt_count(u64::MAX), format!("{:.1}M", u64::MAX as f64 / 1_000_000.0));
}

#[test]
fn timestamps_are_in_the_order_of_their_texts() {
    let stamps = [
        "0000-01-01T00:00:00Z",
        "1969-12-31T23:59:59Z",
        "1970-01-01T00:00:00Z",
        "1999-12-31T23:59:59Z",
        "2000-02-28T12:00:00Z",
        "2000-02-29T00:00:00Z",
        "2000-03-01T00:00:00Z",
        "2024-05-01T12:29:59Z",
        "2024-05-01T12:30:00Z",
        "9999-12-31T23:59:59Z",
    ];
    for a in stamps {
        for b in stamps {
            assert_eq!(parse_iso(a).unwrap() < parse_iso(b).unwrap(), a < b);
        }
    }
    let day = |ts: &str| parse_iso(ts).unwrap();
    assert_eq!(day("2000-02-29T07:08:09Z") - day("2000-02-28T07:08:09Z"), 86_400);
    assert_eq!(day("1900-03-01T07:08:09Z") - day("1900-02-28T07:08:09Z"), 86_400);
}
