use file_sync::digest::{digest_text, hash_content};
use file_sync::listing::{
    meta_name, EntryMetadata, FileCacheEntry, FileItem, FileList, ScanEntry,
};
use file_sync::sorting::sort_by_path;
use file_sync::table::Table;
use file_sync::times::{calendar_reaches, timestamp_at, to_timestamp, utc_time, UtcTime};
use std::time::{Duration, SystemTime};

fn file(key: &str, size: u64, secs: i64, fresh: Option<&str>) -> ScanEntry {
    let name = key.rsplit('/').next().unwrap();
    ScanEntry {
        key: key.to_string(),
        name: name.to_string(),
        relative: key.trim_start_matches("/srv/").to_string(),
        is_dir: false,
        metadata: Some(EntryMetadata { size, modified: Some(UtcTime { secs, nanos: 5 }) }),
        fresh_hash: fresh.map(|h| h.to_string()),
    }
}

fn dir(key: &str) -> ScanEntry {
    ScanEntry { is_dir: true, ..file(key, 4096, 1, None) }
}

#[test]
fn entries_are_listed_by_path() {
    let mut cache: Table<FileCacheEntry> = Table::new();
    let list = FileList::scan(
        vec![
            file("/srv/b.txt", 3, 10, Some("hb")),
            dir("/srv/a"),
            ScanEntry {
                relative: "a\\c.txt".to_string(),
                ..file("/srv/a/c.txt", 7, 11, Some("hc"))
            },
        ],
        &mut cache,
    );
    let paths: Vec<&str> = list.items.iter().map(|i| i.path.as_str()).collect();
    assert_eq!(paths, vec!["a", "a/c.txt", "b.txt"]);
    let item = &list.items[1];
    assert_eq!(item.name, "c.txt");
    assert!(!item.is_dir && !item.is_partial);
    assert_eq!(item.size, 7);
    assert_eq!(item.modified_at, Some(UtcTime { secs: 11, nanos: 5 }));
    assert_eq!(item.hash, Some("hc".to_string()));
    assert!(list.items[0].is_dir);
    assert_eq!(list.items[0].hash, None);
    let kept = cache.get("/srv/a/c.txt").unwrap();
    assert_eq!((kept.size, kept.modified_ts, kept.hash.as_str()), (7, 11, "hc"));
    assert!(cache.get("/srv/a").is_none());
}

#[test]
fn hashes_are_reused_while_nothing_changes() {
    let mut cache: Table<FileCacheEntry> = Table::new();
    let seen = file("/srv/a", 1, 10, Some("h1"));
    assert!(FileList::needs_hash(&seen, &cache));
    FileList::scan(vec![seen], &mut cache);
    assert!(!FileList::needs_hash(&file("/srv/a", 1, 10, None), &cache));
    let list = FileList::scan(vec![file("/srv/a", 1, 10, Some("other"))], &mut cache);
    assert_eq!(list.items[0].hash, Some("h1".to_string()));
    assert!(FileList::needs_hash(&file("/srv/a", 2, 10, None), &cache));
    assert!(FileList::needs_hash(&file("/srv/a", 1, 11, None), &cache));
    let list = FileList::scan(vec![file("/srv/a", 2, 10, Some("h2"))], &mut cache);
    assert_eq!(list.items[0].hash, Some("h2".to_string()));
    assert_eq!(cache.get("/srv/a").unwrap().hash, "h2");
}

#[test]
fn files_that_cannot_be_hashed_are_listed_without_hash() {
    let mut cache: Table<FileCacheEntry> = Table::new();
    let list = FileList::scan(vec![file("/srv/a", 1, 10, None)], &mut cache);
    assert_eq!(list.items.len(), 1);
    assert_eq!(list.items[0].hash, None);
    assert!(cache.get("/srv/a").is_none());
}

#[test]
fn entries_without_metadata_have_size_and_time_zero() {
    let mut cache: Table<FileCacheEntry> = Table::new();
    let list = FileList::scan(
        vec![ScanEntry { metadata: None, ..file("/srv/a", 9, 9, Some("h")) }],
        &mut cache,
    );
    assert_eq!(list.items[0].size, 0);
    assert_eq!(list.items[0].modified_at, Some(UtcTime { secs: 0, nanos: 0 }));
    assert_eq!(cache.get("/srv/a").unwrap().modified_ts, 0);
}

#[test]
fn partial_files_are_marked_and_not_hashed() {
    let mut cache: Table<FileCacheEntry> = Table::new();
    let names = ["/srv/a.mysync_partial", "/srv/a.mysync_partial.hash", "/srv/a.mysync_meta"];
    for n in names {
        assert!(!FileList::needs_hash(&file(n, 1, 1, None), &cache));
    }
    let list = FileList::scan(
        names.iter().map(|n| file(n, 1, 1, Some("h"))).collect(),
        &mut cache,
    );
    assert!(meta_name("a.mysync_meta") && !meta_name("a.mysync_partial"));
    assert_eq!(list.items.len(), 2);
    assert!(list.items.iter().all(|i| i.is_partial && i.hash.is_none()));
    assert!(cache.keys().is_empty());
}

#[test]
fn a_second_scan_needs_no_hashes() {
    let mut cache: Table<FileCacheEntry> = Table::new();
    let seen = || vec![file("/srv/a", 1, 1, Some("x")), file("/srv/b", 2, 2, Some("y"))];
    let first = FileList::scan(seen(), &mut cache);
    assert!(seen().iter().all(|e| !FileList::needs_hash(e, &cache)));
    let unhashed = || seen().into_iter().map(|e| ScanEntry { fresh_hash: None, ..e }).collect();
    let second = FileList::scan(unhashed(), &mut cache);
    for (a, b) in first.items.iter().zip(second.items.iter()) {
        assert_eq!((&a.path, &a.hash, a.size), (&b.path, &b.hash, b.size));
    }
    assert_eq!(second.items.len(), 2);
    assert_eq!(cache.get("/srv/a").unwrap().hash, "x");
    assert_eq!(cache.keys().len(), 2);
}

fn item(path: &str, name: &str) -> FileItem {
    FileItem {
        name: name.to_string(),
        path: path.to_string(),
        is_dir: false,
        is_partial: false,
        size: 0,
        modified_at: None,
        hash: None,
    }
}

#[test]
fn sorting_is_stable() {
    let sorted = sort_by_path(vec![
        item("b", "1"),
        item("a", "2"),
        item("b", "3"),
        item("a/x", "4"),
        item("a", "5"),
        item("", "6"),
    ]);
    let names: String = sorted.iter().map(|i| i.name.clone()).collect();
    assert_eq!(names, "625413");
    assert!(sort_by_path(vec![]).is_empty());
}

#[test]
fn contents_are_hashed() {
    assert_eq!(
        FileList::compute_file_hash(&[]),
        "af1349b9f5f9a1a6a0404dea36dcc9499bcb25c9adc112b7cc9a93cae41f3262"
    );
    assert_eq!(
        hash_content(b"abc"),
        "6437b3ac38465133ffb63b75273a8db548c558465d79db03fd359c6cd5bd9d85"
    );
    assert_eq!(hash_content(b"abc").len(), 64);
    assert_ne!(hash_content(b"abc"), hash_content(b"abd"));
    assert_eq!(digest_text(&[0x00, 0x9a, 0xff]), "009aff");
}

#[test]
fn offsets_are_turned_to_seconds() {
    assert_eq!(timestamp_at(Ok((5, 9))), 5);
    assert_eq!(timestamp_at(Err((5, 9))), 0);
    assert_eq!(timestamp_at(Ok((u64::MAX, 0))), -1);
    assert!(calendar_reaches(Ok((8_210_266_876_799, 999_999_999))));
    assert!(!calendar_reaches(Ok((8_210_266_876_800, 0))));
    assert!(calendar_reaches(Err((8_334_601_228_800, 0))));
    assert!(!calendar_reaches(Err((8_334_601_228_800, 1))));
}

#[test]
fn times_are_read_in_seconds() {
    let t = SystemTime::UNIX_EPOCH + Duration::new(1700000000, 999_999_999);
    assert_eq!(to_timestamp(t), 1700000000);
    assert_eq!(utc_time(t), Some(UtcTime { secs: 1700000000, nanos: 999_999_999 }));
    assert_eq!(to_timestamp(SystemTime::UNIX_EPOCH), 0);
    assert_eq!(utc_time(SystemTime::UNIX_EPOCH), Some(UtcTime { secs: 0, nanos: 0 }));
}

#[test]
fn times_before_the_epoch_differ() {
    let t = SystemTime::UNIX_EPOCH - Duration::new(1, 500_000_000);
    assert_eq!(to_timestamp(t), 0);
    assert_eq!(utc_time(t), Some(UtcTime { secs: -2, nanos: 500_000_000 }));
    let whole = SystemTime::UNIX_EPOCH - Duration::new(3, 0);
    assert_eq!(utc_time(whole), Some(UtcTime { secs: -3, nanos: 0 }));
}
