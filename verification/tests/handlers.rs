use gabay::error::{Error, ErrorKind};
use gabay::handlers::compare_handler::Comparison;
use gabay::handlers::{add_handler, compare_handler, list_handler, reset_handler, rm_handler};
use gabay::helpers::Metadata;
use gabay::structs::{BackupEntry, BackupFile, Row};
use gabay::time::Timestamp;
use gabay::tree::Tree;

const TEN_DIGITS: &str = "84d89877f0d4041efb6bf91a16f0248f2fd573e6af05c19f96bedb9f882f7882";
const FIRST_SECOND: &str = "da83f63e1a473003712c18f5afc5a79044221943d1083c7c5a7ac7236d85e8d2";

fn at(secs: i64) -> Timestamp {
    Timestamp { secs, nanos: 0 }
}

fn file(name: &str, secs: i64, content: &[u8]) -> Tree {
    Tree::File { name: name.to_string(), modified: at(secs), content: content.to_vec() }
}

fn dir(name: &str, secs: i64, children: Vec<Tree>) -> Tree {
    Tree::Dir { name: name.to_string(), modified: at(secs), children }
}

fn report() -> Tree {
    file("report.txt", 100, b"0123456789")
}

#[test]
fn track_begins_the_registry() {
    let registry = add_handler::start(None, "/data/report.txt".to_string(), &report()).ok().unwrap();
    assert_eq!(
        registry.rows(),
        &vec![Row {
            path: "/data/report.txt".to_string(),
            entry: BackupEntry {
                hash: TEN_DIGITS.to_string(),
                last_backup: None,
                metadata: Metadata { size: 10, last_modified: at(100) },
            },
        }]
    );
}

#[test]
fn track_a_directory_records_its_stream_and_its_own_time() {
    let tree = dir("docs", 5, vec![file("a", 9, b"first"), dir("s", 8, vec![file("b", 7, b"second")])]);
    let registry = add_handler::start(None, "/data/docs".to_string(), &tree).ok().unwrap();
    let entry = registry.get("/data/docs").unwrap();
    assert_eq!(entry.hash, FIRST_SECOND);
    assert_eq!(entry.metadata, Metadata { size: 11, last_modified: at(5) });
    assert_eq!(entry.last_backup, None);
}

#[test]
fn track_then_enumerate_shows_one_entry_without_backup() {
    let registry = add_handler::start(None, "/data/report.txt".to_string(), &report()).ok().unwrap();
    let listing = list_handler::start(Some(&registry)).ok().unwrap();
    assert_eq!(listing.total_paths, 1);
    assert_eq!(listing.last_backup, None);
    let found: Vec<&Row> = listing.rows.iter().filter(|row| row.path == "/data/report.txt").collect();
    assert_eq!(found.len(), 1);
    assert_eq!(found[0].entry.last_backup, None);
}

#[test]
fn untrack_then_enumerate_shows_no_entry() {
    let registry = add_handler::start(None, "/data/report.txt".to_string(), &report()).ok().unwrap();
    let registry = rm_handler::start(Some(registry), "/data/report.txt").ok().unwrap();
    let listing = list_handler::start(Some(&registry)).ok().unwrap();
    assert_eq!(listing.total_paths, 0);
    assert!(listing.rows.is_empty());
    assert_eq!(listing.last_backup, None);
}

#[test]
fn track_twice_is_a_conflict() {
    let registry = add_handler::start(None, "/data/report.txt".to_string(), &report()).ok().unwrap();
    let again = add_handler::start(Some(registry), "/data/report.txt".to_string(), &file("report.txt", 1, b"x"));
    assert_eq!(again.as_ref().err(), Some(&Error::AlreadyTracked));
    assert_eq!(again.err().unwrap().kind(), ErrorKind::Conflict);
}

#[test]
fn untrack_an_untracked_path_is_not_found() {
    let registry = add_handler::start(None, "/data/report.txt".to_string(), &report()).ok().unwrap();
    let outcome = rm_handler::start(Some(registry), "/data/other.txt");
    assert_eq!(outcome.as_ref().err(), Some(&Error::NotTracked));
    assert_eq!(outcome.err().unwrap().kind(), ErrorKind::NotFound);
}

#[test]
fn untrack_without_a_document_is_not_found() {
    let outcome = rm_handler::start(None, "/data/report.txt");
    assert_eq!(outcome.as_ref().err(), Some(&Error::RegistryMissing));
    assert_eq!(outcome.err().unwrap().kind(), ErrorKind::NotFound);
}

#[test]
fn track_a_relative_path_is_invalid_input_and_changes_nothing() {
    let registry = add_handler::start(None, "/data/report.txt".to_string(), &report()).ok().unwrap();
    let before = registry.rows().clone();
    let outcome = add_handler::start(Some(BackupFile::from_entries(before.clone()).ok().unwrap()), "data/x".to_string(), &report());
    assert_eq!(outcome.as_ref().err(), Some(&Error::NotAbsolute));
    assert_eq!(outcome.err().unwrap().kind(), ErrorKind::InvalidInput);
    assert_eq!(registry.rows(), &before);
    let alone = add_handler::start(None, "relative".to_string(), &report());
    assert_eq!(alone.err(), Some(Error::NotAbsolute));
}

#[test]
fn untrack_a_relative_path_is_invalid_input_even_without_a_document() {
    assert_eq!(rm_handler::start(None, "x").err(), Some(Error::NotAbsolute));
    assert_eq!(rm_handler::start(Some(BackupFile::new()), "x").err(), Some(Error::NotAbsolute));
}

#[test]
fn untrack_keeps_the_other_paths() {
    let registry = add_handler::start(None, "/a".to_string(), &file("a", 1, b"1")).ok().unwrap();
    let registry = add_handler::start(Some(registry), "/b".to_string(), &file("b", 1, b"2")).ok().unwrap();
    let registry = add_handler::start(Some(registry), "/c".to_string(), &file("c", 1, b"3")).ok().unwrap();
    let registry = rm_handler::start(Some(registry), "/a").ok().unwrap();
    let paths: Vec<&str> = registry.rows().iter().map(|row| row.path.as_str()).collect();
    assert_eq!(paths, vec!["/b", "/c"]);
}

#[test]
fn enumerate_without_a_document_is_not_found() {
    assert_eq!(list_handler::start(None).err(), Some(Error::RegistryMissing));
}

#[test]
fn enumerate_reports_the_most_recent_backup() {
    let mut registry = BackupFile::new();
    let meta = Metadata { size: 1, last_modified: at(1) };
    registry.add("/a".to_string(), "a".to_string(), meta).unwrap();
    registry.add("/b".to_string(), "b".to_string(), meta).unwrap();
    registry.add("/c".to_string(), "c".to_string(), meta).unwrap();
    registry.add("/d".to_string(), "d".to_string(), meta).unwrap();
    registry.record_backup(0, "a".to_string(), Timestamp { secs: 20, nanos: 5 });
    registry.record_backup(2, "c".to_string(), Timestamp { secs: 20, nanos: 9 });
    registry.record_backup(3, "d".to_string(), Timestamp { secs: 19, nanos: 999 });
    let listing = list_handler::start(Some(&registry)).ok().unwrap();
    assert_eq!(listing.total_paths, 4);
    assert_eq!(listing.last_backup, Some(Timestamp { secs: 20, nanos: 9 }));
    assert_eq!(listing.rows.len(), 4);
}

#[test]
fn enumerate_an_empty_registry() {
    let registry = BackupFile::new();
    let listing = list_handler::start(Some(&registry)).ok().unwrap();
    assert_eq!(listing.total_paths, 0);
    assert_eq!(listing.last_backup, None);
}

#[test]
fn inspect_an_unmodified_file_finds_both_equal() {
    let registry = add_handler::start(None, "/data/report.txt".to_string(), &report()).ok().unwrap();
    let outcome = compare_handler::start(Some(&registry), "/data/report.txt", &report());
    assert_eq!(outcome, Ok(Comparison { hashes_equal: true, metadata_equal: true }));
}

#[test]
fn inspect_after_a_change_of_content_finds_the_hash_different() {
    let registry = add_handler::start(None, "/data/report.txt".to_string(), &report()).ok().unwrap();
    let touched = file("report.txt", 100, b"0123456780");
    let outcome = compare_handler::start(Some(&registry), "/data/report.txt", &touched);
    assert_eq!(outcome, Ok(Comparison { hashes_equal: false, metadata_equal: true }));
    let grown = file("report.txt", 200, b"0123456789a");
    let outcome = compare_handler::start(Some(&registry), "/data/report.txt", &grown);
    assert_eq!(outcome, Ok(Comparison { hashes_equal: false, metadata_equal: false }));
}

#[test]
fn inspect_after_a_change_of_time_alone_finds_the_metadata_different() {
    let registry = add_handler::start(None, "/data/report.txt".to_string(), &report()).ok().unwrap();
    let touched = file("report.txt", 101, b"0123456789");
    let outcome = compare_handler::start(Some(&registry), "/data/report.txt", &touched);
    assert_eq!(outcome, Ok(Comparison { hashes_equal: true, metadata_equal: false }));
}

#[test]
fn inspect_refuses_in_order() {
    let registry = add_handler::start(None, "/data/report.txt".to_string(), &report()).ok().unwrap();
    assert_eq!(compare_handler::start(Some(&registry), "data/report.txt", &report()), Err(Error::NotAbsolute));
    assert_eq!(compare_handler::start(None, "data/report.txt", &report()), Err(Error::NotAbsolute));
    assert_eq!(compare_handler::start(None, "/data/report.txt", &report()), Err(Error::RegistryMissing));
    assert_eq!(compare_handler::start(Some(&registry), "/data/other", &report()), Err(Error::NotTracked));
}

#[test]
fn clear_needs_a_document() {
    assert_eq!(reset_handler::start(true), Ok(()));
    assert_eq!(reset_handler::start(false), Err(Error::RegistryMissing));
    assert_eq!(reset_handler::start(false).err().unwrap().kind(), ErrorKind::NotFound);
}

#[test]
fn backup_times_are_shown_as_date_and_time() {
    assert_eq!(list_handler::format_last_backup(None), "None");
    assert_eq!(
        list_handler::format_last_backup(Some(Timestamp { secs: 1_431_648_000, nanos: 0 })),
        "2015-05-15 00:00:00"
    );
    assert_eq!(
        list_handler::format_last_backup(Some(Timestamp { secs: 0, nanos: 999_999_999 })),
        "1970-01-01 00:00:00"
    );
    assert_eq!(
        list_handler::format_last_backup(Some(Timestamp { secs: 1_700_000_000, nanos: 5 })),
        "2023-11-14 22:13:20"
    );
    assert_eq!(
        list_handler::format_last_backup(Some(Timestamp { secs: -1, nanos: 0 })),
        "1969-12-31 23:59:59"
    );
}

#[test]
fn a_time_without_a_date_is_shown_as_invalid() {
    assert_eq!(list_handler::format_last_backup(Some(Timestamp { secs: i64::MAX, nanos: 0 })), "Invalid");
    assert_eq!(list_handler::format_last_backup(Some(Timestamp { secs: 0, nanos: 2_000_000_000 })), "Invalid");
    assert_eq!(list_handler::label(None), "None");
    assert_eq!(list_handler::label(Some(None)), "Invalid");
    assert_eq!(list_handler::label(Some(Some("2015-05-15 00:00:00".to_string()))), "2015-05-15 00:00:00");
}
