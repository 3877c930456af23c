use file_sync::download::{
    DownloadAction, DownloadEvent, DownloadPhase, DownloadRequest, DownloadSession, FolderAction,
    FolderDownload,
};
use file_sync::listing::FileItem;
use file_sync::proto::{DownloadStartResponse, TransferCommand};
use file_sync::status::{DownloadStateItem, LocalCacheEntry, LocalMetadata};
use file_sync::table::Table;

fn session(hash: Option<&str>, size: u64, force: bool) -> DownloadSession {
    DownloadSession::begin(
        DownloadRequest {
            path: "/a.txt".to_string(),
            server_hash: hash.map(|h| h.to_string()),
            server_size: size,
            force,
        },
        "/dl/a.txt".to_string(),
    )
}

fn begun(hash: &str) -> Table<DownloadStateItem> {
    let mut t = Table::new();
    t.insert("/dl/a.txt".to_string(), DownloadStateItem { server_hash: hash.to_string() });
    t.insert("/dl/b.txt".to_string(), DownloadStateItem { server_hash: "b".to_string() });
    t
}

fn cached(size: u64, hash: &str) -> Table<LocalCacheEntry> {
    let mut t = Table::new();
    t.insert(
        "/dl/a.txt".to_string(),
        LocalCacheEntry { size, modified_ts: 1, hash: hash.to_string() },
    );
    t
}

fn failure(a: DownloadAction) -> String {
    match a {
        DownloadAction::Fail(m) => m,
        _ => panic!(),
    }
}

fn success(a: DownloadAction) -> String {
    match a {
        DownloadAction::Succeed(m) => m,
        _ => panic!(),
    }
}

fn text(s: &str) -> String {
    s.to_string()
}

/// A forced download at the point where the file is being opened.
fn opened(hash: Option<&str>, size: u64, state: Table<DownloadStateItem>, temp: Option<u64>) -> (
    DownloadSession,
    DownloadAction,
) {
    let mut s = session(hash, size, true);
    assert!(matches!(s.step(DownloadEvent::Done), DownloadAction::LookBegun));
    let a = s.step(DownloadEvent::BegunSeen { begun: state, temp_size: temp });
    (s, a)
}

/// A download at the point where the answer is being parsed.
fn parsing(offset: u64, force: bool) -> DownloadSession {
    let mut s = session(Some("h"), 10, force);
    s.step(DownloadEvent::Done);
    if !force {
        assert!(matches!(s.step(DownloadEvent::LocalSeen(None)), DownloadAction::LookBegun));
    }
    s.step(DownloadEvent::BegunSeen { begun: begun("h"), temp_size: Some(offset) });
    assert!(matches!(s.step(DownloadEvent::Done), DownloadAction::Connect));
    match s.step(DownloadEvent::Done) {
        DownloadAction::Send(TransferCommand::Download { path, offset: from }) => {
            assert_eq!(path, "/a.txt");
            assert_eq!(from, offset);
        }
        _ => panic!(),
    }
    assert!(matches!(s.step(DownloadEvent::Done), DownloadAction::ReadHeader));
    match s.step(DownloadEvent::HeaderRead(text("{}\n"))) {
        DownloadAction::ParseHeader(line) => assert_eq!(line, "{}\n"),
        _ => panic!(),
    }
    s
}

fn header(found: bool, size: u64, hash: Option<&str>) -> DownloadEvent {
    DownloadEvent::HeaderParsed {
        line: text("{}\n"),
        header: Ok(DownloadStartResponse { found, size, hash: hash.map(|h| h.to_string()) }),
    }
}

#[test]
fn synced_files_are_skipped() {
    let mut s = session(Some("h"), 10, false);
    assert!(matches!(s.step(DownloadEvent::Done), DownloadAction::LookLocal));
    assert!(matches!(s.step(DownloadEvent::LocalSeen(Some(10))), DownloadAction::LoadCache));
    let a = s.step(DownloadEvent::CacheLoaded(cached(10, "h")));
    assert_eq!(success(a), "スキップ: 同期済み");
    assert_eq!(s.phase, DownloadPhase::Closed);
}

#[test]
fn files_of_the_same_size_are_skipped_without_a_hash() {
    let mut s = session(None, 10, false);
    s.step(DownloadEvent::Done);
    let a = s.step(DownloadEvent::LocalSeen(Some(10)));
    assert_eq!(success(a), "スキップ: サイズ一致 (ハッシュなし)");
}

#[test]
fn other_files_are_not_skipped() {
    for cache in [cached(10, "x"), cached(9, "h"), Table::new()] {
        let mut s = session(Some("h"), 10, false);
        s.step(DownloadEvent::Done);
        s.step(DownloadEvent::LocalSeen(Some(10)));
        assert!(matches!(s.step(DownloadEvent::CacheLoaded(cache)), DownloadAction::LookBegun));
    }
    for size in [None, Some(9), Some(11)] {
        let mut s = session(None, 10, false);
        s.step(DownloadEvent::Done);
        assert!(matches!(s.step(DownloadEvent::LocalSeen(size)), DownloadAction::LookBegun));
    }
}

#[test]
fn begun_downloads_of_the_same_version_are_resumed() {
    for kept in [0, 4, 10] {
        let (s, a) = opened(Some("h"), 10, begun("h"), Some(kept));
        assert!(matches!(a, DownloadAction::OpenTemp { truncate: false, record: None }));
        assert_eq!(s.offset, kept);
    }
}

fn recorded(a: DownloadAction) -> Option<String> {
    match a {
        DownloadAction::OpenTemp { truncate, record } => {
            assert!(truncate);
            record.map(|t| {
                assert_eq!(t.get("/dl/a.txt").unwrap().server_hash, "h");
                t.get("/dl/b.txt").map(|i| i.server_hash.clone()).unwrap_or_default()
            })
        }
        _ => panic!(),
    }
}

#[test]
fn other_downloads_start_anew() {
    let (s, a) = opened(Some("h"), 10, begun("x"), Some(4));
    assert_eq!(s.offset, 0);
    assert_eq!(recorded(a), Some(text("b")));
    let (s, a) = opened(Some("h"), 10, begun("h"), Some(11));
    assert_eq!(s.offset, 0);
    assert_eq!(recorded(a), Some(text("b")));
    let (_, a) = opened(Some("h"), 10, begun("h"), None);
    assert_eq!(recorded(a), Some(text("b")));
    let (_, a) = opened(Some("h"), 10, Table::new(), Some(4));
    assert_eq!(recorded(a), Some(text("")));
    let (s, a) = opened(None, 10, begun("h"), Some(4));
    assert_eq!(s.offset, 0);
    assert_eq!(recorded(a), None);
}

#[test]
fn what_was_recorded_is_resumed() {
    let (_, a) = opened(Some("h"), 10, Table::new(), None);
    let record = match a {
        DownloadAction::OpenTemp { record: Some(r), .. } => r,
        _ => panic!(),
    };
    let (s, a) = opened(Some("h"), 10, record, Some(7));
    assert!(matches!(a, DownloadAction::OpenTemp { truncate: false, record: None }));
    assert_eq!(s.offset, 7);
}

#[test]
fn a_download_runs_through() {
    let mut s = parsing(4, false);
    match s.step(header(true, 10, Some("sent"))) {
        DownloadAction::Receive { offset, total } => assert_eq!((offset, total), (4, 10)),
        _ => panic!(),
    }
    assert!(matches!(s.step(DownloadEvent::Received(10)), DownloadAction::LookFinal));
    match s.step(DownloadEvent::FinalSeen { exists: false }) {
        DownloadAction::Rename { replace } => assert!(!replace),
        _ => panic!(),
    }
    assert!(matches!(s.step(DownloadEvent::Done), DownloadAction::LoadBegun));
    match s.step(DownloadEvent::BegunSeen { begun: begun("h"), temp_size: None }) {
        DownloadAction::SaveBegun(left) => {
            assert!(left.get("/dl/a.txt").is_none());
            assert_eq!(left.get("/dl/b.txt").unwrap().server_hash, "b");
        }
        _ => panic!(),
    }
    assert!(matches!(s.step(DownloadEvent::Done), DownloadAction::LookFile));
    let metadata = Some(LocalMetadata { size: 10, modified_ts: 77 });
    match s.step(DownloadEvent::FileSeen { metadata, cache: Table::new() }) {
        DownloadAction::SaveCache(cache) => {
            let e = cache.get("/dl/a.txt").unwrap();
            assert_eq!((e.size, e.modified_ts, e.hash.as_str()), (10, 77, "sent"));
        }
        _ => panic!(),
    }
    assert_eq!(success(s.step(DownloadEvent::Done)), "ダウンロード完了");
}

#[test]
fn whole_temporary_files_are_only_renamed() {
    let mut s = parsing(10, true);
    assert!(matches!(s.step(header(true, 10, None)), DownloadAction::LookFinal));
    match s.step(DownloadEvent::FinalSeen { exists: true }) {
        DownloadAction::Rename { replace } => assert!(replace),
        _ => panic!(),
    }
    s.step(DownloadEvent::Done);
    s.step(DownloadEvent::BegunSeen { begun: Table::new(), temp_size: None });
    s.step(DownloadEvent::Done);
    let metadata = Some(LocalMetadata { size: 10, modified_ts: 1 });
    match s.step(DownloadEvent::FileSeen { metadata, cache: Table::new() }) {
        DownloadAction::SaveCache(cache) => {
            assert_eq!(cache.get("/dl/a.txt").unwrap().hash, "h");
        }
        _ => panic!(),
    }
}

#[test]
fn empty_files_are_received() {
    let mut s = parsing(0, false);
    match s.step(header(true, 0, None)) {
        DownloadAction::Receive { offset, total } => assert_eq!((offset, total), (0, 0)),
        _ => panic!(),
    }
    assert!(matches!(s.step(DownloadEvent::Received(0)), DownloadAction::LookFinal));
}

#[test]
fn downloads_without_a_hash_are_not_remembered() {
    let mut s = session(None, 10, true);
    s.step(DownloadEvent::Done);
    s.step(DownloadEvent::BegunSeen { begun: Table::new(), temp_size: None });
    s.step(DownloadEvent::Done);
    s.step(DownloadEvent::Done);
    s.step(DownloadEvent::Done);
    s.step(DownloadEvent::HeaderRead(text("x")));
    s.step(header(true, 10, None));
    s.step(DownloadEvent::Received(10));
    s.step(DownloadEvent::FinalSeen { exists: false });
    s.step(DownloadEvent::Done);
    s.step(DownloadEvent::BegunSeen { begun: Table::new(), temp_size: None });
    assert_eq!(success(s.step(DownloadEvent::Done)), "ダウンロード完了");
}

#[test]
fn files_that_cannot_be_read_are_not_remembered() {
    let mut s = parsing(10, true);
    s.step(header(true, 10, None));
    s.step(DownloadEvent::FinalSeen { exists: false });
    s.step(DownloadEvent::Done);
    s.step(DownloadEvent::BegunSeen { begun: Table::new(), temp_size: None });
    s.step(DownloadEvent::Done);
    let a = s.step(DownloadEvent::FileSeen { metadata: None, cache: Table::new() });
    assert_eq!(success(a), "ダウンロード完了");
}

#[test]
fn failures_have_their_reasons() {
    let failed = || DownloadEvent::Failed(text("e"));
    assert_eq!(failure(session(None, 1, false).step(failed())), "ディレクトリ作成失敗: e");
    let (mut s, _) = opened(Some("h"), 10, Table::new(), None);
    assert_eq!(failure(s.step(failed())), "Temp file open error: e");
    let (mut s, _) = opened(Some("h"), 10, Table::new(), None);
    s.step(DownloadEvent::Done);
    assert_eq!(failure(s.step(failed())), "サーバー接続失敗: e");
    let (mut s, _) = opened(Some("h"), 10, Table::new(), None);
    s.step(DownloadEvent::Done);
    s.step(DownloadEvent::Done);
    assert_eq!(failure(s.step(failed())), "e");
    let (mut s, _) = opened(Some("h"), 10, Table::new(), None);
    s.step(DownloadEvent::Done);
    s.step(DownloadEvent::Done);
    s.step(DownloadEvent::Done);
    assert_eq!(failure(s.step(failed())), "ヘッダー受信エラー: e");
    let (mut s, _) = opened(Some("h"), 10, Table::new(), None);
    s.step(DownloadEvent::Done);
    s.step(DownloadEvent::Done);
    s.step(DownloadEvent::Done);
    let a = s.step(DownloadEvent::HeaderRead(text(" \n")));
    assert_eq!(failure(a), "サーバーから空の応答が返ってきました");
}

#[test]
fn failures_after_the_answer_have_their_reasons() {
    let bad = DownloadEvent::HeaderParsed { line: text("xx"), header: Err(text("e")) };
    assert_eq!(failure(parsing(0, false).step(bad)), "ヘッダー解析エラー (受信データ: xx): e");
    assert_eq!(
        failure(parsing(0, false).step(header(false, 0, None))),
        "サーバー上でファイルが見つかりません: /a.txt"
    );
    let receiving = || {
        let mut s = parsing(0, false);
        s.step(header(true, 10, None));
        s
    };
    assert_eq!(
        failure(receiving().step(DownloadEvent::Failed(text("キャンセルされました")))),
        "キャンセルされました"
    );
    assert_eq!(
        failure(receiving().step(DownloadEvent::FlushFailed(text("e")))),
        "書き込みフラッシュエラー: e"
    );
    assert_eq!(failure(receiving().step(DownloadEvent::Received(7))), "中断: 7/10 bytes");
    assert_eq!(failure(receiving().step(DownloadEvent::Received(11))), "中断: 11/10 bytes");
    let finishing = || {
        let mut s = receiving();
        s.step(DownloadEvent::Received(10));
        s
    };
    assert_eq!(
        failure(finishing().step(DownloadEvent::FinalSeen { exists: true })),
        "保存先に同名ファイルが既に存在します"
    );
    let mut s = finishing();
    s.step(DownloadEvent::FinalSeen { exists: false });
    let a = s.step(DownloadEvent::RenameFailed {
        from: text("\"t\""),
        to: text("\"f\""),
        reason: text("e"),
    });
    assert_eq!(failure(a), "リネーム失敗 (\"t\" -> \"f\"): e");
}

#[test]
fn stray_events_close_a_download() {
    let mut s = session(None, 1, false);
    assert!(matches!(s.step(DownloadEvent::Received(1)), DownloadAction::Close));
    assert!(matches!(s.step(DownloadEvent::Done), DownloadAction::Close));
}

fn item(path: &str, size: u64, hash: &str) -> FileItem {
    FileItem {
        name: path.to_string(),
        path: path.to_string(),
        is_dir: false,
        is_partial: false,
        size,
        modified_at: None,
        hash: Some(hash.to_string()),
    }
}

fn fetched(a: FolderAction) -> (String, Option<String>, u64, bool) {
    match a {
        FolderAction::Fetch(r) => (r.path, r.server_hash, r.server_size, r.force),
        _ => panic!(),
    }
}

#[test]
fn folders_are_downloaded_file_by_file() {
    let (mut f, a) = FolderDownload::start(vec![item("a", 1, "x"), item("b", 2, "y")]);
    assert_eq!(fetched(a), (text("a"), Some(text("x")), 1, false));
    assert_eq!(fetched(f.step(&None)), (text("b"), Some(text("y")), 2, false));
    match f.step(&None) {
        FolderAction::Succeed(m) => {
            assert_eq!(m, "フォルダ内の全 2 個のファイルの処理が完了しました");
        }
        _ => panic!(),
    }
}

#[test]
fn folders_stop_at_the_first_failure() {
    let (mut f, _) = FolderDownload::start(vec![item("a", 1, "x"), item("b", 2, "y")]);
    match f.step(&Some(text("e"))) {
        FolderAction::Fail(m) => assert_eq!(m, "ファイル 'a' でエラー発生: e"),
        _ => panic!(),
    }
}

#[test]
fn empty_folders_are_done_at_once() {
    match FolderDownload::start(vec![]).1 {
        FolderAction::Succeed(m) => {
            assert_eq!(m, "フォルダ内の全 0 個のファイルの処理が完了しました");
        }
        _ => panic!(),
    }
}
