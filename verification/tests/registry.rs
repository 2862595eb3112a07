use gabay::error::{Error, ErrorKind};
use gabay::helpers::Metadata;
use gabay::structs::{BackupEntry, BackupFile, Row};
use gabay::time::Timestamp;

fn meta(size: u64) -> Metadata {
    Metadata { size, last_modified: Timestamp { secs: 10, nanos: 0 } }
}

fn row(path: &str, hash: &str) -> Row {
    Row {
        path: path.to_string(),
        entry: BackupEntry { hash: hash.to_string(), last_backup: None, metadata: meta(1) },
    }
}

#[test]
fn new_registry_is_empty() {
    let registry = BackupFile::new();
    assert_eq!(registry.len(), 0);
    assert!(registry.rows().is_empty());
    assert!(!registry.contains_key("/a"));
    assert_eq!(registry.get("/a"), None);
    assert_eq!(registry.position("/a"), None);
}

#[test]
fn add_inserts_with_no_backup() {
    let mut registry = BackupFile::new();
    assert_eq!(registry.add("/a".to_string(), "h1".to_string(), meta(3)), Ok(()));
    assert_eq!(registry.len(), 1);
    assert!(registry.contains_key("/a"));
    assert_eq!(
        registry.get("/a"),
        Some(&BackupEntry { hash: "h1".to_string(), last_backup: None, metadata: meta(3) })
    );
    assert_eq!(registry.row(0).path, "/a");
}

#[test]
fn add_keeps_the_order_of_arrival() {
    let mut registry = BackupFile::new();
    registry.add("/b".to_string(), "hb".to_string(), meta(1)).unwrap();
    registry.add("/a".to_string(), "ha".to_string(), meta(2)).unwrap();
    registry.add("/c".to_string(), "hc".to_string(), meta(3)).unwrap();
    let paths: Vec<&str> = registry.rows().iter().map(|row| row.path.as_str()).collect();
    assert_eq!(paths, vec!["/b", "/a", "/c"]);
    assert_eq!(registry.position("/a"), Some(1));
    assert_eq!(registry.position("/c"), Some(2));
}

#[test]
fn add_refuses_a_relative_path() {
    let mut registry = BackupFile::new();
    assert_eq!(registry.add("a/b".to_string(), "h".to_string(), meta(1)), Err(Error::NotAbsolute));
    assert_eq!(registry.add("".to_string(), "h".to_string(), meta(1)), Err(Error::NotAbsolute));
    assert_eq!(registry.len(), 0);
}

#[test]
fn add_refuses_a_path_twice() {
    let mut registry = BackupFile::new();
    registry.add("/a".to_string(), "h1".to_string(), meta(1)).unwrap();
    assert_eq!(registry.add("/a".to_string(), "h2".to_string(), meta(2)), Err(Error::AlreadyTracked));
    assert_eq!(registry.len(), 1);
    assert_eq!(registry.get("/a").unwrap().hash, "h1");
}

#[test]
fn remove_deletes_only_that_path() {
    let mut registry = BackupFile::new();
    registry.add("/a".to_string(), "ha".to_string(), meta(1)).unwrap();
    registry.add("/b".to_string(), "hb".to_string(), meta(2)).unwrap();
    registry.add("/c".to_string(), "hc".to_string(), meta(3)).unwrap();
    assert_eq!(registry.remove("/b"), Ok(()));
    let paths: Vec<&str> = registry.rows().iter().map(|row| row.path.as_str()).collect();
    assert_eq!(paths, vec!["/a", "/c"]);
    assert!(!registry.contains_key("/b"));
}

#[test]
fn remove_refuses_what_is_not_there() {
    let mut registry = BackupFile::new();
    registry.add("/a".to_string(), "ha".to_string(), meta(1)).unwrap();
    assert_eq!(registry.remove("/b"), Err(Error::NotTracked));
    assert_eq!(registry.remove("a"), Err(Error::NotAbsolute));
    assert_eq!(registry.len(), 1);
}

#[test]
fn record_backup_sets_hash_and_time_and_keeps_metadata() {
    let mut registry = BackupFile::new();
    registry.add("/a".to_string(), "old".to_string(), meta(7)).unwrap();
    registry.add("/b".to_string(), "hb".to_string(), meta(8)).unwrap();
    let now = Timestamp { secs: 50, nanos: 1 };
    registry.record_backup(0, "new".to_string(), now);
    assert_eq!(
        registry.get("/a"),
        Some(&BackupEntry { hash: "new".to_string(), last_backup: Some(now), metadata: meta(7) })
    );
    assert_eq!(registry.get("/b").unwrap().last_backup, None);
    assert_eq!(registry.get("/b").unwrap().hash, "hb");
}

#[test]
fn from_entries_takes_valid_rows() {
    let registry = BackupFile::from_entries(vec![row("/a", "1"), row("/b", "2")]).ok().unwrap();
    assert_eq!(registry.len(), 2);
    assert_eq!(registry.rows(), &vec![row("/a", "1"), row("/b", "2")]);
    assert!(BackupFile::from_entries(vec![]).is_ok());
}

#[test]
fn from_entries_refuses_a_relative_key() {
    assert_eq!(BackupFile::from_entries(vec![row("/a", "1"), row("b", "2")]).err(), Some(Error::Parse));
}

#[test]
fn from_entries_refuses_a_key_twice() {
    let rows = vec![row("/a", "1"), row("/b", "2"), row("/a", "3")];
    assert_eq!(BackupFile::from_entries(rows).err(), Some(Error::Parse));
}

#[test]
fn every_error_has_its_kind_and_message() {
    assert_eq!(Error::NotAbsolute.kind(), ErrorKind::InvalidInput);
    assert_eq!(Error::AlreadyTracked.kind(), ErrorKind::Conflict);
    assert_eq!(Error::RegistryMissing.kind(), ErrorKind::NotFound);
    assert_eq!(Error::NotTracked.kind(), ErrorKind::NotFound);
    assert_eq!(Error::Parse.kind(), ErrorKind::Parse);
    assert_eq!(Error::Io.kind(), ErrorKind::Io);
    assert_eq!(Error::NotAbsolute.message(), "Path must be absolute");
    assert_eq!(Error::AlreadyTracked.message(), "Path is already inside backup file");
    assert_eq!(Error::RegistryMissing.message(), "Backup file does not exist");
    assert_eq!(Error::NotTracked.message(), "Path is not inside backup file");
    assert_eq!(Error::Parse.message(), "Backup file is not a valid registry");
    assert_eq!(Error::Io.message(), "Path could not be read or copied");
}
