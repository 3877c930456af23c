use file_sync::listing::FileItem;
use file_sync::status::{
    check_file_status, needs_local_hash, recalc_file_hash, remember_hash, DownloadStateItem,
    LocalCacheEntry, LocalFile, LocalMetadata, StatusReport,
};
use file_sync::table::Table;

fn listed(path: &str, size: u64, hash: Option<&str>) -> FileItem {
    FileItem {
        name: path.to_string(),
        path: path.to_string(),
        is_dir: false,
        is_partial: false,
        size,
        modified_at: None,
        hash: hash.map(|h| h.to_string()),
    }
}

fn seen(item: FileItem, size: u64, fresh: Option<&str>) -> LocalFile {
    LocalFile {
        key: format!("/dl/{}", item.path),
        item,
        exists: true,
        metadata: Some(LocalMetadata { size, modified_ts: 50 }),
        fresh_hash: fresh.map(|h| h.to_string()),
        temp_size: None,
    }
}

fn absent(item: FileItem, temp_size: Option<u64>) -> LocalFile {
    LocalFile { exists: false, metadata: None, temp_size, ..seen(item, 0, None) }
}

fn begun(path: &str, hash: &str) -> Table<DownloadStateItem> {
    let mut t = Table::new();
    t.insert(format!("/dl/{}", path), DownloadStateItem { server_hash: hash.to_string() });
    t
}

fn shown(r: &StatusReport, path: &str) -> Option<(String, Option<String>, u64)> {
    r.status.get(path).map(|d| (d.status.clone(), d.local_hash.clone(), d.local_size))
}

fn status(s: &str, hash: Option<&str>, size: u64) -> Option<(String, Option<String>, u64)> {
    Some((s.to_string(), hash.map(|h| h.to_string()), size))
}

#[test]
fn equal_files_are_synced() {
    let mut cache: Table<LocalCacheEntry> = Table::new();
    let file = seen(listed("a", 5, Some("h")), 5, Some("h"));
    assert!(needs_local_hash(&file, &cache));
    let r = check_file_status(vec![file], &mut cache, &Table::new());
    assert_eq!(shown(&r, "a"), status("synced", Some("h"), 5));
    assert!(r.cache_dirty);
    let kept = cache.get("/dl/a").unwrap();
    assert_eq!((kept.size, kept.modified_ts, kept.hash.as_str()), (5, 50, "h"));
}

#[test]
fn cached_hashes_are_used() {
    let mut cache: Table<LocalCacheEntry> = Table::new();
    remember_hash(
        "/dl/a".to_string(),
        LocalMetadata { size: 5, modified_ts: 50 },
        "h".to_string(),
        &mut cache,
    );
    let file = || seen(listed("a", 5, Some("h")), 5, Some("other"));
    assert!(!needs_local_hash(&file(), &cache));
    let r = check_file_status(vec![file()], &mut cache, &Table::new());
    assert_eq!(shown(&r, "a"), status("synced", Some("h"), 5));
    assert!(!r.cache_dirty);
    let touched = LocalFile {
        metadata: Some(LocalMetadata { size: 5, modified_ts: 51 }),
        ..file()
    };
    assert!(needs_local_hash(&touched, &cache));
}

#[test]
fn other_contents_are_outdated() {
    let mut cache: Table<LocalCacheEntry> = Table::new();
    let r = check_file_status(
        vec![
            seen(listed("a", 5, Some("h")), 5, Some("x")),
            seen(listed("b", 6, Some("h")), 5, None),
            seen(listed("c", 6, None), 5, None),
        ],
        &mut cache,
        &Table::new(),
    );
    assert_eq!(shown(&r, "a"), status("outdated", Some("x"), 5));
    assert_eq!(shown(&r, "b"), status("outdated", None, 5));
    assert_eq!(shown(&r, "c"), status("outdated", None, 5));
    assert!(r.cache_dirty);
    assert!(cache.get("/dl/b").is_none());
}

#[test]
fn files_of_another_size_are_not_hashed() {
    let mut cache: Table<LocalCacheEntry> = Table::new();
    remember_hash(
        "/dl/a".to_string(),
        LocalMetadata { size: 5, modified_ts: 50 },
        "k".to_string(),
        &mut cache,
    );
    let file = seen(listed("a", 6, Some("h")), 5, None);
    assert!(!needs_local_hash(&file, &cache));
    let r = check_file_status(vec![file], &mut cache, &Table::new());
    assert_eq!(shown(&r, "a"), status("outdated", Some("k"), 5));
}

#[test]
fn equal_size_is_enough_where_the_server_has_no_hash() {
    let mut cache: Table<LocalCacheEntry> = Table::new();
    let file = seen(listed("a", 5, None), 5, None);
    assert!(!needs_local_hash(&file, &cache));
    let r = check_file_status(vec![file], &mut cache, &Table::new());
    assert_eq!(shown(&r, "a"), status("synced", None, 5));
    assert!(!r.cache_dirty);
}

#[test]
fn unreadable_files_are_not_compared() {
    let mut cache: Table<LocalCacheEntry> = Table::new();
    let r = check_file_status(
        vec![
            seen(listed("a", 5, Some("h")), 5, None),
            LocalFile { metadata: None, ..seen(listed("b", 5, Some("h")), 5, Some("h")) },
        ],
        &mut cache,
        &Table::new(),
    );
    assert_eq!(shown(&r, "a"), None);
    assert_eq!(shown(&r, "b"), None);
    assert!(!r.cache_dirty);
}

#[test]
fn directories_are_synced_where_they_exist() {
    let mut cache: Table<LocalCacheEntry> = Table::new();
    let dir = |p: &str| FileItem { is_dir: true, ..listed(p, 0, None) };
    let r = check_file_status(
        vec![seen(dir("d"), 4096, None), absent(dir("e"), Some(1))],
        &mut cache,
        &begun("e", "h"),
    );
    assert_eq!(shown(&r, "d"), status("synced", None, 0));
    assert_eq!(shown(&r, "e"), None);
}

#[test]
fn begun_downloads_are_partial() {
    let mut cache: Table<LocalCacheEntry> = Table::new();
    let check = |file: LocalFile, state: &Table<DownloadStateItem>| {
        let mut c: Table<LocalCacheEntry> = Table::new();
        shown(&check_file_status(vec![file], &mut c, state), "a")
    };
    let state = begun("a", "h");
    let item = || listed("a", 9, Some("h"));
    assert_eq!(check(absent(item(), Some(4)), &state), status("partial", None, 4));
    assert_eq!(check(absent(item(), None), &state), None);
    assert_eq!(check(absent(listed("a", 9, Some("x")), Some(4)), &state), None);
    assert_eq!(check(absent(listed("a", 9, None), Some(4)), &state), None);
    assert_eq!(check(absent(item(), Some(4)), &Table::new()), None);
    let r = check_file_status(vec![absent(item(), None)], &mut cache, &state);
    assert!(r.status.keys().is_empty());
}

#[test]
fn a_second_comparison_needs_no_hashes() {
    let mut cache: Table<LocalCacheEntry> = Table::new();
    let files = || {
        vec![
            seen(listed("a", 5, Some("h")), 5, Some("h")),
            seen(listed("b", 6, Some("i")), 6, Some("j")),
        ]
    };
    check_file_status(files(), &mut cache, &Table::new());
    assert!(files().iter().all(|f| !needs_local_hash(f, &cache)));
    let r = check_file_status(files(), &mut cache, &Table::new());
    assert!(!r.cache_dirty);
    assert_eq!(shown(&r, "b"), status("outdated", Some("j"), 6));
}

#[test]
fn hashes_are_computed_anew() {
    let mut cache: Table<LocalCacheEntry> = Table::new();
    let m = Some(LocalMetadata { size: 5, modified_ts: 50 });
    let key = || "/dl/a".to_string();
    assert_eq!(
        recalc_file_hash(key(), false, Some("h".to_string()), m, &mut cache),
        Err("ファイルが見つかりません")
    );
    assert_eq!(
        recalc_file_hash(key(), true, None, m, &mut cache),
        Err("ハッシュ計算に失敗しました")
    );
    assert!(cache.get("/dl/a").is_none());
    assert_eq!(
        recalc_file_hash(key(), true, Some("h".to_string()), None, &mut cache),
        Ok("h".to_string())
    );
    assert!(cache.get("/dl/a").is_none());
    assert_eq!(
        recalc_file_hash(key(), true, Some("h".to_string()), m, &mut cache),
        Ok("h".to_string())
    );
    assert_eq!(cache.get("/dl/a").unwrap().hash, "h");
    let r = check_file_status(
        vec![seen(listed("a", 5, Some("h")), 5, None)],
        &mut cache,
        &Table::new(),
    );
    assert_eq!(shown(&r, "a"), status("synced", Some("h"), 5));
}
