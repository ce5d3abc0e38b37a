use chrono::{Datelike, Local, NaiveDate, NaiveDateTime, Timelike};
use journal::{truncate, truncate_clusters, Db, DbError, DbLocation, Entry, Timestamp};
use std::path::PathBuf;

fn ts(y: i32, mo: u32, d: u32, h: u32, mi: u32, s: u32) -> Timestamp {
    Timestamp::new(y, mo, d, h, mi, s, 0).unwrap()
}

fn entry(desc: &str, t: Timestamp) -> Entry {
    Entry::from_parts(desc.to_string(), t).unwrap()
}

fn descriptions(db: &Db) -> Vec<String> {
    let mut out = Vec::new();
    for i in 0..db.len() {
        out.push(db.get_entry_description(i).unwrap().to_string());
    }
    out
}

fn to_chrono(t: Timestamp) -> NaiveDateTime {
    NaiveDate::from_ymd_opt(t.year, t.month, t.day)
        .unwrap()
        .and_hms_nano_opt(t.hour, t.minute, t.second, t.nanosecond)
        .unwrap()
}

#[test]
fn timestamp_new_checks_calendar() {
    assert!(Timestamp::new(2024, 2, 29, 0, 0, 0, 0).is_some());
    assert!(Timestamp::new(2023, 2, 29, 0, 0, 0, 0).is_none());
    assert!(Timestamp::new(1900, 2, 29, 0, 0, 0, 0).is_none());
    assert!(Timestamp::new(2000, 2, 29, 0, 0, 0, 0).is_some());
    assert!(Timestamp::new(2023, 4, 31, 0, 0, 0, 0).is_none());
    assert!(Timestamp::new(2023, 13, 1, 0, 0, 0, 0).is_none());
    assert!(Timestamp::new(2023, 1, 1, 24, 0, 0, 0).is_none());
    assert!(Timestamp::new(2023, 1, 1, 23, 59, 59, 1_500_000_000).is_some());
    assert!(Timestamp::new(2023, 1, 1, 23, 59, 58, 1_500_000_000).is_none());
}

#[test]
fn timestamp_order_is_chronological() {
    let a = ts(2023, 5, 1, 10, 0, 0);
    let b = ts(2023, 5, 1, 10, 0, 1);
    let c = ts(2022, 12, 31, 23, 59, 59);
    assert!(a.le(&b));
    assert!(!b.le(&a));
    assert!(c.le(&a));
    assert!(a.le(&a));
}

#[test]
fn parse_fallback_trims_and_dates_now() {
    let before = Local::now().naive_local();
    let e = Entry::parse("  hello world  ");
    let after = Local::now().naive_local();
    assert_eq!(e.description(), "hello world");
    let t = to_chrono(e.timestamp());
    assert!(before <= t && t <= after);
}

#[test]
fn parse_with_front_matter_date() {
    let e = Entry::parse("2023-05-01\n  body text  \n");
    assert_eq!(e.description(), "body text");
    assert_eq!(e.timestamp(), ts(2023, 5, 1, 0, 0, 0));
}

#[test]
fn parse_with_front_matter_datetime() {
    let e = Entry::parse("\n2023-05-01T10:20:30\nfirst\nsecond");
    assert_eq!(e.description(), "first\nsecond");
    assert_eq!(e.timestamp(), ts(2023, 5, 1, 10, 20, 30));
}

#[test]
fn parse_single_line_date_is_a_description() {
    let now = ts(2020, 1, 2, 3, 4, 5);
    let e = Entry::parse_at("2023-05-01", now);
    assert_eq!(e.description(), "2023-05-01");
    assert_eq!(e.timestamp(), now);
}

#[test]
fn parse_bad_first_line_keeps_whole_text() {
    let now = ts(2020, 1, 2, 3, 4, 5);
    let e = Entry::parse_at(" not a date\nbody ", now);
    assert_eq!(e.description(), "not a date\nbody");
    assert_eq!(e.timestamp(), now);
}

#[test]
fn parse_at_uses_front_matter_over_now() {
    let now = ts(2020, 1, 2, 3, 4, 5);
    let e = Entry::parse_at("2021-07-08\nx", now);
    assert_eq!(e.description(), "x");
    assert_eq!(e.timestamp(), ts(2021, 7, 8, 0, 0, 0));
}

#[test]
fn parse_empty_text() {
    let now = ts(2020, 1, 2, 3, 4, 5);
    let e = Entry::parse_at("   \n  ", now);
    assert_eq!(e.description(), "");
    assert_eq!(e.timestamp(), now);
}

#[test]
fn push_entry_keeps_order() {
    let mut db = Db::new();
    let stamps = [
        ts(2023, 5, 3, 0, 0, 0),
        ts(2021, 1, 1, 0, 0, 0),
        ts(2023, 5, 3, 0, 0, 0),
        ts(2022, 6, 1, 12, 0, 0),
        ts(2024, 1, 1, 0, 0, 0),
        ts(2020, 2, 29, 0, 0, 0),
    ];
    for (i, t) in stamps.iter().enumerate() {
        db.push_entry(entry(&format!("e{}", i), *t));
        // Stored journals must be in order, so the bytes read back only if
        // the entries are sorted.
        let back = Db::from_bytes(&db.to_bytes()).unwrap();
        assert_eq!(back.len(), i + 1);
    }
    assert_eq!(descriptions(&db), vec!["e5", "e1", "e3", "e0", "e2", "e4"]);
}

#[test]
fn push_entry_equal_timestamps_keep_insertion_order() {
    let mut db = Db::new();
    let t = ts(2023, 1, 1, 0, 0, 0);
    db.push_entry(entry("first", t));
    db.push_entry(entry("second", t));
    db.push_entry(entry("third", t));
    assert_eq!(descriptions(&db), vec!["first", "second", "third"]);
}

fn three() -> Db {
    let mut db = Db::new();
    db.push_entry(entry("zero", ts(2023, 1, 1, 0, 0, 0)));
    db.push_entry(entry("one", ts(2023, 1, 2, 0, 0, 0)));
    db.push_entry(entry("two", ts(2023, 1, 3, 0, 0, 0)));
    db
}

#[test]
fn delete_shifts_indices() {
    let mut db = three();
    assert_eq!(db.delete_entry(1), Ok(()));
    assert_eq!(db.get_entry_description(1), Ok("two"));
    assert_eq!(db.len(), 2);
}

#[test]
fn delete_out_of_range_leaves_db() {
    let mut db = Db::new();
    db.push_entry(entry("a", ts(2023, 1, 1, 0, 0, 0)));
    db.push_entry(entry("b", ts(2023, 1, 2, 0, 0, 0)));
    assert_eq!(db.delete_entry(5), Err(DbError::OutOfRange));
    assert_eq!(db.delete_entry(2), Err(DbError::OutOfRange));
    assert_eq!(descriptions(&db), vec!["a", "b"]);
}

#[test]
fn replace_and_get_description() {
    let mut db = three();
    assert_eq!(db.replace_entry_description(2, "new".to_string()), Ok(()));
    assert_eq!(db.get_entry_description(2), Ok("new"));
    assert_eq!(
        db.replace_entry_description(3, "x".to_string()),
        Err(DbError::OutOfRange)
    );
    assert_eq!(db.get_entry_description(3), Err(DbError::OutOfRange));
    assert_eq!(descriptions(&db), vec!["zero", "one", "new"]);
}

#[test]
fn is_empty_and_default() {
    let mut db = Db::default();
    assert!(db.is_empty());
    db.push_entry(entry("a", ts(2023, 1, 1, 0, 0, 0)));
    assert!(!db.is_empty());
}

#[test]
fn markdown_lists_dates_and_descriptions() {
    let mut db = Db::new();
    db.push_entry(entry("later", ts(2023, 6, 2, 13, 45, 0)));
    db.push_entry(entry("earlier", ts(2023, 5, 1, 8, 0, 0)));
    assert_eq!(db.markdown(), "- 2023-05-01: earlier\n- 2023-06-02: later");
    assert_eq!(Db::new().markdown(), "");
}

#[test]
fn overview_numbers_and_truncates() {
    let mut db = Db::new();
    let long = "a".repeat(45);
    db.push_entry(entry(&long, ts(2023, 5, 1, 0, 0, 0)));
    db.push_entry(entry("short", ts(2023, 5, 2, 0, 0, 0)));
    let expected = format!(
        "[0000] 2023-05-01: {}...\n[0001] 2023-05-02: short",
        "a".repeat(37)
    );
    assert_eq!(db.entry_overview(), expected);
}

#[test]
fn truncate_below_limit_is_unchanged() {
    let s = "b".repeat(39);
    assert_eq!(truncate(&s, 40), s);
    assert_eq!(truncate("", 40), "");
}

#[test]
fn truncate_at_forty_ends_in_dots() {
    let s = "c".repeat(40);
    assert_eq!(truncate(&s, 40), format!("{}...", "c".repeat(37)));
}

#[test]
fn truncate_forty_one_gives_forty() {
    let s = "d".repeat(41);
    let r = truncate(&s, 40);
    assert_eq!(r, format!("{}...", "d".repeat(37)));
    assert_eq!(r.chars().count(), 40);
}

#[test]
fn truncate_counts_graphemes() {
    // "e" followed by a combining acute accent is one user-perceived character.
    let s = "e\u{301}".repeat(41);
    let r = truncate(&s, 40);
    assert_eq!(r, format!("{}...", "e\u{301}".repeat(37)));
    let flags = "\u{1F1EB}\u{1F1F7}".repeat(5);
    assert_eq!(truncate(&flags, 6), flags);
}

#[test]
fn truncate_small_limits() {
    assert_eq!(truncate("abcdef", 2), "..");
    assert_eq!(truncate("abcdef", 0), "");
    assert_eq!(truncate("abcdef", 3), "...");
    assert_eq!(truncate("abcdef", 4), "a...");
}

#[test]
fn truncate_clusters_joins_kept_clusters() {
    let clusters: Vec<String> = vec!["x".into(), "y\u{301}".into(), "z".into(), "w".into()];
    assert_eq!(truncate_clusters(&clusters, 4), "x...");
    assert_eq!(truncate_clusters(&clusters, 5), "xy\u{301}zw");
}

#[test]
fn round_trip_through_bytes() {
    let mut db = Db::new();
    db.push_entry(entry("héllo\nworld", ts(2023, 5, 1, 10, 20, 30)));
    db.push_entry(entry("", ts(1999, 12, 31, 23, 59, 59)));
    db.push_entry(entry("neg", Timestamp::new(-44, 3, 15, 0, 0, 0, 7).unwrap()));
    let bytes = db.to_bytes();
    let back = Db::from_bytes(&bytes).unwrap();
    assert_eq!(back.len(), 3);
    for i in 0..3 {
        assert_eq!(back.get_entry_description(i), db.get_entry_description(i));
    }
    assert_eq!(back.markdown(), db.markdown());
    assert_eq!(back.to_bytes(), bytes);
}

#[test]
fn bytes_use_bincode_layout() {
    assert_eq!(Db::new().to_bytes(), vec![0u8; 8]);
    let mut db = Db::new();
    db.push_entry(entry("ab", ts(2023, 5, 1, 10, 20, 30)));
    let expected = bincode::serialize(&vec![(
        "ab".to_string(),
        2023i32,
        5u32,
        1u32,
        10u32,
        20u32,
        30u32,
        0u32,
    )])
    .unwrap();
    assert_eq!(db.to_bytes(), expected);
    let mut want = vec![1, 0, 0, 0, 0, 0, 0, 0, 2, 0, 0, 0, 0, 0, 0, 0, b'a', b'b'];
    want.extend_from_slice(&2023i32.to_le_bytes());
    for n in [5u32, 1, 10, 20, 30, 0] {
        want.extend_from_slice(&n.to_le_bytes());
    }
    assert_eq!(db.to_bytes(), want);
}

#[test]
fn from_bytes_rejects_garbage() {
    assert_eq!(Db::from_bytes(&[1, 2, 3]).err(), Some(DbError::Decode));
    assert_eq!(Db::from_bytes(&[]).err(), Some(DbError::Decode));
    assert!(Db::from_bytes(&[0u8; 8]).unwrap().is_empty());
}

#[test]
fn from_bytes_rejects_invalid_dates() {
    let bytes =
        bincode::serialize(&vec![("x".to_string(), 2023i32, 2u32, 30u32, 0u32, 0u32, 0u32, 0u32)])
            .unwrap();
    assert_eq!(Db::from_bytes(&bytes).err(), Some(DbError::Decode));
}

#[test]
fn from_bytes_rejects_unordered_entries() {
    let bytes = bincode::serialize(&vec![
        ("late".to_string(), 2024i32, 1u32, 1u32, 0u32, 0u32, 0u32, 0u32),
        ("early".to_string(), 2023i32, 1u32, 1u32, 0u32, 0u32, 0u32, 0u32),
    ])
    .unwrap();
    assert_eq!(Db::from_bytes(&bytes).err(), Some(DbError::Decode));
}

#[test]
fn location_holds_its_path() {
    let loc = DbLocation::at(PathBuf::from("/tmp/journal/db"));
    assert_eq!(loc.path(), &PathBuf::from("/tmp/journal/db"));
}

#[test]
fn timestamp_of_parsed_entry_matches_chrono() {
    let e = Entry::parse("2023-05-01T10:20:30\nx");
    let t = e.timestamp();
    let c = NaiveDateTime::parse_from_str("2023-05-01T10:20:30", "%Y-%m-%dT%H:%M:%S").unwrap();
    assert_eq!((t.year, t.month, t.day), (c.year(), c.month(), c.day()));
    assert_eq!((t.hour, t.minute, t.second, t.nanosecond), (c.hour(), c.minute(), c.second(), c.nanosecond()));
}

#[test]
fn first_use_gives_empty_journal_and_its_bytes() {
    let (db, to_write) = Db::read_stored(None).unwrap();
    assert!(db.is_empty());
    let bytes = to_write.unwrap();
    assert_eq!(bytes, vec![0u8; 8]);
    let (again, nothing) = Db::read_stored(Some(&bytes)).unwrap();
    assert!(again.is_empty());
    assert!(nothing.is_none());
}

#[test]
fn read_stored_reports_decode_errors() {
    assert_eq!(Db::read_stored(Some(&[9, 9])).err(), Some(DbError::Decode));
    let mut db = Db::new();
    db.push_entry(entry("kept", ts(2023, 5, 1, 0, 0, 0)));
    let (back, nothing) = Db::read_stored(Some(&db.to_bytes())).unwrap();
    assert_eq!(back.get_entry_description(0), Ok("kept"));
    assert!(nothing.is_none());
}

#[test]
fn markdown_years_beyond_four_digits() {
    let mut db = Db::new();
    db.push_entry(entry("far", ts(12345, 6, 7, 0, 0, 0)));
    db.push_entry(entry("old", ts(5, 1, 2, 0, 0, 0)));
    assert_eq!(db.markdown(), "- 0005-01-02: old\n- +12345-06-07: far");
}

#[test]
fn entries_compare_by_description_and_timestamp() {
    let t = ts(2023, 5, 1, 0, 0, 0);
    assert_eq!(entry("a", t), entry("a", t));
    assert_ne!(entry("a", t), entry("b", t));
    assert_ne!(entry("a", t), entry("a", ts(2023, 5, 2, 0, 0, 0)));
}

#[test]
fn cut_short_bytes_do_not_read() {
    let mut db = Db::new();
    db.push_entry(entry("some text", ts(2023, 5, 1, 0, 0, 0)));
    let bytes = db.to_bytes();
    for n in 0..bytes.len() {
        assert_eq!(Db::from_bytes(&bytes[..n]).err(), Some(DbError::Decode));
    }
}

#[test]
fn shortening_a_short_preview_again_keeps_it() {
    let s = "short text";
    let once = truncate(s, 40);
    assert_eq!(truncate(&once, 40), once);
}
