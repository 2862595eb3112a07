use gabay::error::Error;
use gabay::handlers::{add_handler, backup_handler};
use gabay::helpers::fs::Operation;
use gabay::helpers::Metadata;
use gabay::structs::{BackupEntry, BackupFile};
use gabay::time::Timestamp;
use gabay::tree::Tree;

const TEN_DIGITS: &str = "84d89877f0d4041efb6bf91a16f0248f2fd573e6af05c19f96bedb9f882f7882";
const ELEVEN: &str = "73ceda67679033f468e81fc709c07fdb6bc02e0b6df5edf314dac5f4f6931b27";
const FIRST_SECOND: &str = "da83f63e1a473003712c18f5afc5a79044221943d1083c7c5a7ac7236d85e8d2";

fn at(secs: i64) -> Timestamp {
    Timestamp { secs, nanos: 0 }
}

fn file(name: &str, content: &[u8]) -> Tree {
    Tree::File { name: name.to_string(), modified: at(100), content: content.to_vec() }
}

fn dir(name: &str, children: Vec<Tree>) -> Tree {
    Tree::Dir { name: name.to_string(), modified: at(100), children }
}

fn replace(from: &str, to: &str) -> Operation {
    Operation::ReplaceFile { from: from.to_string(), to: to.to_string() }
}

fn ensure(path: &str) -> Operation {
    Operation::EnsureDir { path: path.to_string() }
}

#[test]
fn track_sync_modify_sync_and_sync_again() {
    let ten = file("report.txt", b"0123456789");
    let registry = add_handler::start(None, "/data/report.txt".to_string(), &ten).ok().unwrap();

    let first = backup_handler::start(Some(registry), &vec![file("report.txt", b"0123456789")], "/backup", at(1000)).ok().unwrap();
    assert_eq!(first.copied, vec!["/data/report.txt".to_string()]);
    assert_eq!(first.operations, vec![replace("/data/report.txt", "/backup/report.txt")]);
    let registry = first.document.unwrap();
    assert_eq!(
        registry.get("/data/report.txt"),
        Some(&BackupEntry {
            hash: TEN_DIGITS.to_string(),
            last_backup: Some(at(1000)),
            metadata: Metadata { size: 10, last_modified: at(100) },
        })
    );

    let eleven = vec![file("report.txt", b"0123456789a")];
    let second = backup_handler::start(Some(registry), &eleven, "/backup", at(2000)).ok().unwrap();
    assert_eq!(second.copied, vec!["/data/report.txt".to_string()]);
    assert_eq!(second.operations, vec![replace("/data/report.txt", "/backup/report.txt")]);
    let registry = second.document.unwrap();
    let entry = registry.get("/data/report.txt").unwrap();
    assert_eq!(entry.hash, ELEVEN);
    assert_eq!(entry.last_backup, Some(at(2000)));

    let third = backup_handler::start(Some(registry), &eleven, "/backup", at(3000)).ok().unwrap();
    assert!(third.copied.is_empty());
    assert!(third.operations.is_empty());
    assert!(third.document.is_none());
}

#[test]
fn first_sync_copies_even_what_did_not_change() {
    let source = file("a", b"0123456789");
    let registry = add_handler::start(None, "/a".to_string(), &source).ok().unwrap();
    assert_eq!(registry.get("/a").unwrap().hash, TEN_DIGITS);
    let report = backup_handler::start(Some(registry), &vec![source], "/backup", at(5)).ok().unwrap();
    assert_eq!(report.copied, vec!["/a".to_string()]);
    assert_eq!(report.document.unwrap().get("/a").unwrap().last_backup, Some(at(5)));
}

#[test]
fn sync_twice_copies_only_the_first_time() {
    let sources = vec![file("a", b"one"), dir("d", vec![file("x", b"first"), file("y", b"second")])];
    let registry = add_handler::start(None, "/a".to_string(), &sources[0]).ok().unwrap();
    let registry = add_handler::start(Some(registry), "/d".to_string(), &sources[1]).ok().unwrap();
    let first = backup_handler::start(Some(registry), &sources, "/backup", at(10)).ok().unwrap();
    assert_eq!(first.copied, vec!["/a".to_string(), "/d".to_string()]);
    let second = backup_handler::start(first.document, &sources, "/backup", at(20)).ok().unwrap();
    assert!(second.copied.is_empty());
    assert!(second.operations.is_empty());
    assert!(second.document.is_none());
}

#[test]
fn sync_copies_only_what_changed_and_stamps_only_that() {
    let a = file("a", b"one");
    let b = file("b", b"two");
    let registry = add_handler::start(None, "/x/a".to_string(), &a).ok().unwrap();
    let registry = add_handler::start(Some(registry), "/x/b".to_string(), &b).ok().unwrap();
    let first = backup_handler::start(Some(registry), &vec![a, b], "/backup/", at(10)).ok().unwrap();
    let changed = vec![file("a", b"one"), file("b", b"two!")];
    let second = backup_handler::start(first.document, &changed, "/backup/", at(20)).ok().unwrap();
    assert_eq!(second.copied, vec!["/x/b".to_string()]);
    assert_eq!(second.operations, vec![replace("/x/b", "/backup/b")]);
    let registry = second.document.unwrap();
    assert_eq!(registry.get("/x/a").unwrap().last_backup, Some(at(10)));
    assert_eq!(registry.get("/x/b").unwrap().last_backup, Some(at(20)));
    assert_eq!(registry.len(), 2);
}

#[test]
fn sync_copies_a_directory_in_depth() {
    let tree = dir("docs", vec![file("a.txt", b"first"), dir("sub", vec![file("b.txt", b"second")])]);
    let registry = add_handler::start(None, "/data/docs".to_string(), &tree).ok().unwrap();
    let report = backup_handler::start(Some(registry), &vec![tree], "/backup", at(7)).ok().unwrap();
    assert_eq!(
        report.operations,
        vec![
            ensure("/backup/docs"),
            replace("/data/docs/a.txt", "/backup/docs/a.txt"),
            ensure("/backup/docs/sub"),
            replace("/data/docs/sub/b.txt", "/backup/docs/sub/b.txt"),
        ]
    );
    assert_eq!(report.document.unwrap().get("/data/docs").unwrap().hash, FIRST_SECOND);
}

#[test]
fn sync_keeps_the_metadata_of_the_entry() {
    let registry = add_handler::start(None, "/a".to_string(), &file("a", b"one")).ok().unwrap();
    let grown = Tree::File { name: "a".to_string(), modified: at(900), content: b"one and more".to_vec() };
    let report = backup_handler::start(Some(registry), &vec![grown], "/backup", at(7)).ok().unwrap();
    let registry = report.document.unwrap();
    assert_eq!(registry.get("/a").unwrap().metadata, Metadata { size: 3, last_modified: at(100) });
}

#[test]
fn sync_without_a_document_is_not_found() {
    assert_eq!(backup_handler::start(None, &vec![], "/backup", at(1)).err(), Some(Error::RegistryMissing));
}

#[test]
fn sync_of_an_empty_registry_has_nothing_to_do() {
    let report = backup_handler::start(Some(BackupFile::new()), &vec![], "/backup", at(1)).ok().unwrap();
    assert!(report.copied.is_empty());
    assert!(report.operations.is_empty());
    assert!(report.document.is_none());
}

#[test]
fn sync_fails_where_sources_do_not_match_the_rows() {
    let registry = add_handler::start(None, "/a".to_string(), &file("a", b"one")).ok().unwrap();
    assert_eq!(backup_handler::start(Some(registry), &vec![], "/backup", at(1)).err(), Some(Error::Io));
    let two = vec![file("a", b"one"), file("b", b"two")];
    assert_eq!(backup_handler::start(Some(BackupFile::new()), &two, "/backup", at(1)).err(), Some(Error::Io));
}

#[test]
fn sync_fails_where_a_path_has_no_name() {
    let root = dir("", vec![file("a", b"one")]);
    let registry = add_handler::start(None, "/".to_string(), &root).ok().unwrap();
    assert_eq!(backup_handler::start(Some(registry), &vec![root], "/backup", at(1)).err(), Some(Error::Io));
}
