use file_sync::digest::hash_content;
use file_sync::download::{DownloadAction, DownloadEvent, DownloadRequest, DownloadSession};
use file_sync::listing::{EntryMetadata, FileCacheEntry, FileItem, FileList, ScanEntry};
use file_sync::progress::TransferMeter;
use file_sync::proto::{TransferCommand, UploadResponse};
use file_sync::server::{
    answer_download, DownloadProbe, UploadAction, UploadEvent, UploadSession,
};
use file_sync::status::{
    check_file_status, DownloadStateItem, LocalCacheEntry, LocalFile, LocalMetadata,
};
use file_sync::table::Table;
use file_sync::times::{to_timestamp, utc_time, UtcTime};
use file_sync::upload::{OutgoingAction, OutgoingEvent, OutgoingUpload};
use std::time::{Duration, SystemTime};

/// What the server lists for one file with the given contents.
fn publish(contents: &[u8], cache: &mut Table<FileCacheEntry>) -> FileItem {
    let entry = ScanEntry {
        key: "/srv/a.txt".to_string(),
        name: "a.txt".to_string(),
        relative: "a.txt".to_string(),
        is_dir: false,
        metadata: Some(EntryMetadata {
            size: contents.len() as u64,
            modified: Some(UtcTime { secs: 7, nanos: 0 }),
        }),
        fresh_hash: Some(hash_content(contents)),
    };
    FileList::scan(vec![entry], cache).items.pop().unwrap()
}

fn local(item: FileItem, metadata: Option<LocalMetadata>, temp_size: Option<u64>) -> LocalFile {
    LocalFile {
        item,
        key: "/dl/a.txt".to_string(),
        exists: metadata.is_some(),
        metadata,
        fresh_hash: None,
        temp_size,
    }
}

fn status(
    file: LocalFile,
    cache: &mut Table<LocalCacheEntry>,
    begun: &Table<DownloadStateItem>,
) -> Option<(String, u64)> {
    let report = check_file_status(vec![file], cache, begun);
    report.status.get("a.txt").map(|d| (d.status.clone(), d.local_size))
}

/// Downloads from a server that breaks off after `upto` bytes of the file.
fn download(
    item: &FileItem,
    contents: &[u8],
    upto: usize,
    temp: &mut Option<Vec<u8>>,
    begun: &mut Table<DownloadStateItem>,
    server: &Table<FileCacheEntry>,
) -> Result<Table<LocalCacheEntry>, String> {
    let mut s = DownloadSession::begin(DownloadRequest::of_item(item), "/dl/a.txt".to_string());
    let mut cache = Table::new();
    let mut event = DownloadEvent::Done;
    loop {
        event = match s.step(event) {
            DownloadAction::LookLocal => DownloadEvent::LocalSeen(None),
            DownloadAction::LoadCache => DownloadEvent::CacheLoaded(Table::new()),
            DownloadAction::LookBegun | DownloadAction::LoadBegun => {
                let mut copy = Table::new();
                for k in begun.keys().clone() {
                    let server_hash = begun.get(&k).unwrap().server_hash.clone();
                    copy.insert(k, DownloadStateItem { server_hash });
                }
                let temp_size = temp.as_ref().map(|t| t.len() as u64);
                DownloadEvent::BegunSeen { begun: copy, temp_size }
            }
            DownloadAction::OpenTemp { truncate, record } => {
                if let Some(r) = record {
                    *begun = r;
                }
                if truncate || temp.is_none() {
                    *temp = Some(vec![]);
                }
                DownloadEvent::Done
            }
            DownloadAction::Send(TransferCommand::Download { path, offset }) => {
                assert_eq!(path, "a.txt");
                assert_eq!(offset, temp.as_ref().unwrap().len() as u64);
                DownloadEvent::Done
            }
            DownloadAction::ReadHeader => DownloadEvent::HeaderRead("{}\n".to_string()),
            DownloadAction::ParseHeader(line) => {
                let probe = DownloadProbe::Open { size: contents.len() as u64 };
                let header = Ok(answer_download(&probe, "/srv/a.txt", server));
                DownloadEvent::HeaderParsed { line, header }
            }
            DownloadAction::Receive { offset, .. } => {
                let t = temp.as_mut().unwrap();
                if (offset as usize) < upto {
                    t.extend_from_slice(&contents[offset as usize..upto]);
                }
                DownloadEvent::Received(t.len() as u64)
            }
            DownloadAction::LookFinal => DownloadEvent::FinalSeen { exists: false },
            DownloadAction::SaveBegun(left) => {
                *begun = left;
                DownloadEvent::Done
            }
            DownloadAction::LookFile => DownloadEvent::FileSeen {
                metadata: Some(LocalMetadata {
                    size: temp.as_ref().unwrap().len() as u64,
                    modified_ts: 99,
                }),
                cache: Table::new(),
            },
            DownloadAction::SaveCache(c) => {
                cache = c;
                DownloadEvent::Done
            }
            DownloadAction::Succeed(m) => {
                assert_eq!(m, "ダウンロード完了");
                return Ok(cache);
            }
            DownloadAction::Fail(reason) => return Err(reason),
            _ => DownloadEvent::Done,
        };
    }
}

#[test]
fn a_broken_off_download_is_taken_up_and_compares_as_synced() {
    let contents = b"0123456789";
    let mut server: Table<FileCacheEntry> = Table::new();
    let item = || publish(contents, &mut Table::new());
    publish(contents, &mut server);
    let mut begun = Table::new();
    let mut temp = None;

    let broken = download(&item(), contents, 4, &mut temp, &mut begun, &server);
    assert_eq!(broken.err().unwrap(), "中断: 4/10 bytes");
    assert_eq!(temp, Some(contents[..4].to_vec()));
    let partial = status(local(item(), None, Some(4)), &mut Table::new(), &begun);
    assert_eq!(partial, Some(("partial".to_string(), 4)));

    let done = download(&item(), contents, 10, &mut temp, &mut begun, &server);
    assert_eq!(temp, Some(contents.to_vec()));
    assert!(begun.keys().is_empty());
    let mut cache = done.ok().unwrap();
    let m = Some(LocalMetadata { size: 10, modified_ts: 99 });
    let synced = status(local(item(), m, None), &mut cache, &begun);
    assert_eq!(synced, Some(("synced".to_string(), 10)));

    let mut again = DownloadSession::begin(
        DownloadRequest::of_item(&item()),
        "/dl/a.txt".to_string(),
    );
    again.step(DownloadEvent::Done);
    again.step(DownloadEvent::LocalSeen(Some(10)));
    match again.step(DownloadEvent::CacheLoaded(cache)) {
        DownloadAction::Succeed(m) => assert_eq!(m, "スキップ: 同期済み"),
        _ => panic!(),
    }
}

#[test]
fn another_version_is_downloaded_from_the_start() {
    let mut begun = Table::new();
    let mut temp = None;
    let mut server: Table<FileCacheEntry> = Table::new();
    let first = publish(b"0123456789", &mut server);
    let _ = download(&first, b"0123456789", 4, &mut temp, &mut begun, &server);
    let mut server: Table<FileCacheEntry> = Table::new();
    let second = publish(b"abcdefghij", &mut server);
    assert!(download(&second, b"abcdefghij", 10, &mut temp, &mut begun, &server).is_ok());
    assert_eq!(temp, Some(b"abcdefghij".to_vec()));
}

#[test]
fn downloads_are_announced_with_the_listed_hash() {
    let mut cache: Table<FileCacheEntry> = Table::new();
    let item = publish(b"xyz", &mut cache);
    let answer = answer_download(&DownloadProbe::Open { size: 3 }, "/srv/a.txt", &cache);
    assert_eq!(answer.hash, item.hash);
    assert_eq!(answer.hash, Some(hash_content(b"xyz")));
}

/// Uploads `contents` to a server that kept `partial`, and gives what the server has then.
fn upload(contents: &[u8], partial: &[u8]) -> Vec<u8> {
    let names = vec!["a".to_string()];
    let mut server =
        UploadSession::begin(&names, contents.len() as u64, &None, None, &None).ok().unwrap();
    let mut client = OutgoingUpload::begin("a".to_string(), None);
    client.step(OutgoingEvent::Done);
    client.step(OutgoingEvent::SizeRead(contents.len() as u64));
    client.step(OutgoingEvent::Done);
    client.step(OutgoingEvent::Hashed(None));
    client.step(OutgoingEvent::Done);
    client.step(OutgoingEvent::ResponseRead("{}".to_string()));

    server.step(&UploadEvent::ParentMade(true));
    let mut kept = partial.to_vec();
    let response: UploadResponse = match server.step(&UploadEvent::Opened(Some(kept.len() as u64)))
    {
        UploadAction::Answer { truncate, offset, response } => {
            if truncate {
                kept.clear();
            }
            assert_eq!(offset, kept.len() as u64);
            response
        }
        _ => panic!(),
    };
    server.step(&UploadEvent::Answered(true));
    match client.step(OutgoingEvent::ResponseParsed(response)) {
        OutgoingAction::Seek(offset) => kept.extend_from_slice(&contents[offset as usize..]),
        OutgoingAction::Succeed { .. } => {}
        _ => panic!(),
    }
    assert!(matches!(
        server.step(&UploadEvent::Received(Some(kept.len() as u64))),
        UploadAction::Rename
    ));
    kept
}

#[test]
fn uploads_arrive_whole() {
    for partial in [&b""[..], b"012", b"0123456789", b"xxxxxxxxxxxxx"] {
        assert_eq!(upload(b"0123456789", partial), b"0123456789".to_vec());
    }
    assert_eq!(upload(b"", b""), Vec::<u8>::new());
}

#[test]
fn reports_add_up() {
    let mut m = TransferMeter::new(1000, 100);
    let mut sum = 0;
    for (bytes, elapsed) in [(100, 10), (100, 250), (300, 200), (1, 201), (399, 5)] {
        sum += m.advance(bytes, elapsed).unwrap_or(0);
    }
    assert_eq!(m.position(), 1000);
    assert_eq!(100 + sum, 1000);
}

#[test]
fn hashes_are_hexadecimal() {
    let h = hash_content(b"\x00\xff");
    assert!(h.chars().all(|c| c.is_ascii_digit() || ('a'..='f').contains(&c)));
    assert_eq!(h.len(), 64);
}

#[test]
fn the_calendar_has_an_end() {
    let after = |s: u64| SystemTime::UNIX_EPOCH.checked_add(Duration::from_secs(s)).unwrap();
    let last = 8_210_266_876_799;
    assert_eq!(utc_time(after(last)), Some(UtcTime { secs: last as i64, nanos: 0 }));
    assert_eq!(utc_time(after(last + 1)), None);
    assert_eq!(to_timestamp(after(last + 1)), last as i64 + 1);
    let before = |s: u64, n: u32| {
        SystemTime::UNIX_EPOCH.checked_sub(Duration::new(s, n)).unwrap()
    };
    let first = 8_334_601_228_800;
    assert_eq!(utc_time(before(first, 0)), Some(UtcTime { secs: -(first as i64), nanos: 0 }));
    assert_eq!(utc_time(before(first, 1)), None);
    assert_eq!(
        utc_time(before(first - 1, 1)),
        Some(UtcTime { secs: -(first as i64), nanos: 999_999_999 })
    );
}
