use file_sync::command::{plan_command, CommandPlan};
use file_sync::listing::FileCacheEntry;
use file_sync::paths::ResolveError;
use file_sync::proto::{
    frame, is_blank, judge_command_line, CommandLine, TransferCommand, COMMAND_LINE_LIMIT,
};
use file_sync::server::{
    answer_download, answer_mkdir, answer_removal, deny_change, download_complete, plan_removal,
    DownloadProbe, Removal, UploadAction, UploadEvent, UploadPhase, UploadSession,
};
use file_sync::table::Table;

fn some(s: &str) -> Option<String> {
    Some(s.to_string())
}

fn names(v: &[&str]) -> Vec<String> {
    v.iter().map(|s| s.to_string()).collect()
}

#[test]
fn command_lines_are_judged() {
    assert_eq!(judge_command_line(0, ""), CommandLine::Absent);
    assert_eq!(judge_command_line(3, "abc"), CommandLine::Unfinished);
    assert_eq!(judge_command_line(4, "abc\n"), CommandLine::Complete);
    assert_eq!(judge_command_line(1, "\n"), CommandLine::Complete);
    assert_eq!(COMMAND_LINE_LIMIT, 1024 * 1024);
}

#[test]
fn framed_messages_are_complete_lines() {
    assert_eq!(frame("{}"), "{}\n");
    let line = frame("{\"cmd\":\"mkdir\"}");
    assert_eq!(judge_command_line(line.len(), &line), CommandLine::Complete);
}

#[test]
fn blank_answers_are_told() {
    assert!(is_blank(""));
    assert!(is_blank(" \r\n"));
    assert!(!is_blank(" x\n"));
}

#[test]
fn downloads_are_answered() {
    let mut cache: Table<FileCacheEntry> = Table::new();
    cache.insert(
        "/srv/a".to_string(),
        FileCacheEntry { size: 5, modified_ts: 1, hash: "h".to_string() },
    );
    let a = answer_download(&DownloadProbe::Open { size: 5 }, "/srv/a", &cache);
    assert!(a.found);
    assert_eq!((a.size, a.hash), (5, some("h")));
    let b = answer_download(&DownloadProbe::Open { size: 6 }, "/srv/b", &cache);
    assert!(b.found);
    assert_eq!((b.size, b.hash), (6, None));
    for probe in [DownloadProbe::Refused, DownloadProbe::Missing, DownloadProbe::Unseekable] {
        let c = answer_download(&probe, "/srv/a", &cache);
        assert!(!c.found);
        assert_eq!((c.size, c.hash), (0, None));
    }
}

#[test]
fn complete_downloads_are_told() {
    assert!(download_complete(10, 4, 6));
    assert!(!download_complete(10, 4, 5));
    assert!(download_complete(0, 0, 0));
    assert!(!download_complete(u64::MAX, 0, 1));
}

fn upload(total: u64, hash: Option<&str>) -> UploadSession {
    UploadSession::begin(&names(&["a"]), total, &None, hash.map(|h| h.to_string()), &None)
        .ok()
        .unwrap()
}

#[test]
fn uploads_need_permission() {
    let denied = UploadSession::begin(&names(&["a"]), 1, &some("x"), None, &some("y"));
    let answer = denied.err().unwrap();
    assert_eq!(answer.status, "denied");
    assert_eq!(answer.start_offset, 0);
    assert_eq!(answer.message, some("権限がありません(パスワード不一致)"));
    let allowed = UploadSession::begin(&names(&["Public", "a"]), 1, &None, None, &some("y"));
    assert_eq!(allowed.ok().unwrap().phase, UploadPhase::Parent);
}

#[test]
fn a_new_upload_runs_through() {
    let mut s = upload(10, Some("h"));
    assert!(matches!(s.step(&UploadEvent::ParentMade(true)), UploadAction::ReadSavedHash));
    match s.step(&UploadEvent::SavedHash(None)) {
        UploadAction::OpenPartial { discard, record } => {
            assert!(!discard);
            assert_eq!(record, some("h"));
        }
        _ => panic!(),
    }
    match s.step(&UploadEvent::Opened(Some(0))) {
        UploadAction::Answer { truncate, offset, response } => {
            assert!(!truncate);
            assert_eq!(offset, 0);
            assert_eq!(response.status, "ready");
            assert_eq!(response.start_offset, 0);
            assert_eq!(response.message, None);
        }
        _ => panic!(),
    }
    assert!(matches!(s.step(&UploadEvent::Answered(true)), UploadAction::Receive));
    assert!(matches!(s.step(&UploadEvent::Received(Some(10))), UploadAction::Rename));
    assert!(matches!(s.step(&UploadEvent::Renamed(true)), UploadAction::RemoveSavedHash));
    assert_eq!(s.phase, UploadPhase::Closed);
}

#[test]
fn uploads_without_hash_skip_the_saved_one() {
    let mut s = upload(10, None);
    match s.step(&UploadEvent::ParentMade(true)) {
        UploadAction::OpenPartial { discard, record } => {
            assert!(!discard);
            assert_eq!(record, None);
        }
        _ => panic!(),
    }
}

fn discards(hash: &str, saved: &str) -> bool {
    let mut s = upload(10, Some(hash));
    s.step(&UploadEvent::ParentMade(true));
    match s.step(&UploadEvent::SavedHash(some(saved))) {
        UploadAction::OpenPartial { discard, record } => {
            assert_eq!(record, some(hash));
            discard
        }
        _ => panic!(),
    }
}

#[test]
fn partial_files_of_other_versions_are_discarded() {
    assert!(discards("h1", "h2"));
    assert!(!discards("h1", "h1"));
    assert!(!discards("h1", " h1\n"));
    assert!(discards("h1", ""));
}

fn start(total: u64, partial: u64) -> (bool, u64) {
    let mut s = upload(total, None);
    s.step(&UploadEvent::ParentMade(true));
    match s.step(&UploadEvent::Opened(Some(partial))) {
        UploadAction::Answer { truncate, offset, response } => {
            assert_eq!(response.start_offset, offset);
            (truncate, offset)
        }
        _ => panic!(),
    }
}

#[test]
fn uploads_resume_inside_the_file() {
    assert_eq!(start(10, 4), (false, 4));
    assert_eq!(start(10, 10), (false, 10));
    assert_eq!(start(10, 11), (true, 0));
    assert_eq!(start(0, 0), (false, 0));
}

#[test]
fn broken_uploads_are_closed() {
    let closes = |s: &mut UploadSession, e: UploadEvent| {
        matches!(s.step(&e), UploadAction::Close) && s.phase == UploadPhase::Closed
    };
    assert!(closes(&mut upload(1, None), UploadEvent::ParentMade(false)));
    let mut s = upload(10, None);
    s.step(&UploadEvent::ParentMade(true));
    assert!(closes(&mut s, UploadEvent::Opened(None)));
    let mut s = upload(10, None);
    s.step(&UploadEvent::ParentMade(true));
    s.step(&UploadEvent::Opened(Some(0)));
    assert!(closes(&mut s, UploadEvent::Answered(false)));
    for received in [None, Some(9), Some(11)] {
        let mut s = upload(10, None);
        s.step(&UploadEvent::ParentMade(true));
        s.step(&UploadEvent::Opened(Some(0)));
        s.step(&UploadEvent::Answered(true));
        assert!(closes(&mut s, UploadEvent::Received(received)));
    }
    let mut s = upload(10, None);
    s.step(&UploadEvent::ParentMade(true));
    s.step(&UploadEvent::Opened(Some(0)));
    s.step(&UploadEvent::Answered(true));
    s.step(&UploadEvent::Received(Some(10)));
    assert!(closes(&mut s, UploadEvent::Renamed(false)));
}

#[test]
fn changes_are_answered() {
    assert_eq!(deny_change(&names(&["a"]), &None, &None), None);
    assert_eq!(
        deny_change(&names(&["a"]), &None, &some("y")),
        Some("権限エラー: パスワードが違います")
    );
    assert_eq!(answer_mkdir(&None), "フォルダ作成完了");
    assert_eq!(answer_mkdir(&some("e")), "作成エラー: e");
    assert_eq!(answer_removal(&Removal::Nothing, &None), "ファイルが見つかりません");
    assert_eq!(answer_removal(&Removal::File, &None), "削除完了");
    assert_eq!(answer_removal(&Removal::Tree, &some("e")), "削除エラー: e");
}

#[test]
fn removals_are_planned() {
    assert_eq!(plan_removal(false, true), Removal::Nothing);
    assert_eq!(plan_removal(true, true), Removal::Tree);
    assert_eq!(plan_removal(true, false), Removal::File);
}

fn all_commands(key: Option<String>) -> Vec<TransferCommand> {
    vec![
        TransferCommand::Download { path: "p".to_string(), offset: 3 },
        TransferCommand::Upload {
            path: "p".to_string(),
            total_size: 9,
            auth_key: key.clone(),
            hash: some("h"),
        },
        TransferCommand::Mkdir { path: "p".to_string(), auth_key: key.clone() },
        TransferCommand::Remove { path: "p".to_string(), auth_key: key },
    ]
}

fn plan_names(
    key: Option<String>,
    resolved: Result<&Vec<String>, ResolveError>,
    password: &Option<String>,
) -> Vec<String> {
    all_commands(key)
        .into_iter()
        .map(|c| match plan_command(c, resolved, password) {
            CommandPlan::Close => "close".to_string(),
            CommandPlan::Missing(r) => format!("missing {} {} {:?}", r.found, r.size, r.hash),
            CommandPlan::Send { offset } => format!("send {}", offset),
            CommandPlan::Take(s) => format!("take {} {:?}", s.total_size, s.hash),
            CommandPlan::DenyUpload(r) => format!("deny {}", r.status),
            CommandPlan::MakeDir => "mkdir".to_string(),
            CommandPlan::Remove => "remove".to_string(),
            CommandPlan::DenyChange(t) => t.to_string(),
        })
        .collect()
}

#[test]
fn refused_paths_touch_nothing() {
    for e in [ResolveError::Traversal, ResolveError::Symlink] {
        assert_eq!(
            plan_names(None, Err(e), &None),
            vec!["missing false 0 None", "close", "close", "close"]
        );
    }
}

#[test]
fn commands_are_carried_out_with_permission() {
    let done = vec!["send 3", "take 9 Some(\"h\")", "mkdir", "remove"];
    assert_eq!(plan_names(None, Ok(&names(&["p"])), &None), done);
    assert_eq!(plan_names(some("k"), Ok(&names(&["p"])), &some("k")), done);
    assert_eq!(plan_names(None, Ok(&names(&["Public", "p"])), &some("k")), done);
}

#[test]
fn commands_are_denied_without_permission() {
    let denied = "権限エラー: パスワードが違います";
    assert_eq!(
        plan_names(some("x"), Ok(&names(&["p"])), &some("k")),
        vec!["send 3", "deny denied", denied, denied]
    );
}
