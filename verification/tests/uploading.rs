use file_sync::dropped::{prepare_upload_items, Dropped, FolderFile};
use file_sync::progress::TransferMeter;
use file_sync::proto::{TransferCommand, UploadResponse};
use file_sync::transfer::{LoopAction, LoopEvent, TransferLoop};
use file_sync::upload::{
    judge_reply, judge_reply_text, OutgoingAction, OutgoingEvent, OutgoingUpload,
};

fn text(s: &str) -> String {
    s.to_string()
}

fn begin() -> OutgoingUpload {
    OutgoingUpload::begin(text("dir/a.txt"), Some(text("k")))
}

/// An upload of ten bytes at the point where the command was sent.
fn sent() -> OutgoingUpload {
    let mut s = begin();
    assert!(matches!(s.step(OutgoingEvent::Done), OutgoingAction::ReadSize));
    assert!(matches!(s.step(OutgoingEvent::SizeRead(10)), OutgoingAction::Connect));
    assert!(matches!(s.step(OutgoingEvent::Done), OutgoingAction::Hash));
    match s.step(OutgoingEvent::Hashed(Some(text("h")))) {
        OutgoingAction::Send(TransferCommand::Upload { path, total_size, auth_key, hash }) => {
            assert_eq!(path, "dir/a.txt");
            assert_eq!(total_size, 10);
            assert_eq!(auth_key, Some(text("k")));
            assert_eq!(hash, Some(text("h")));
        }
        _ => panic!(),
    }
    s
}

/// An upload at the point where the answer is being parsed.
fn parsing() -> OutgoingUpload {
    let mut s = sent();
    assert!(matches!(s.step(OutgoingEvent::Done), OutgoingAction::ReadResponse));
    match s.step(OutgoingEvent::ResponseRead(text("{}\n"))) {
        OutgoingAction::ParseResponse(line) => assert_eq!(line, "{}\n"),
        _ => panic!(),
    }
    s
}

fn response(status: &str, start_offset: u64, message: Option<&str>) -> OutgoingEvent {
    OutgoingEvent::ResponseParsed(UploadResponse {
        status: text(status),
        start_offset,
        message: message.map(|m| m.to_string()),
    })
}

fn failure(a: OutgoingAction) -> String {
    match a {
        OutgoingAction::Fail(m) => m,
        _ => panic!(),
    }
}

#[test]
fn an_upload_runs_through() {
    let mut s = parsing();
    match s.step(response("ready", 4, None)) {
        OutgoingAction::Seek(n) => assert_eq!(n, 4),
        _ => panic!(),
    }
    match s.step(OutgoingEvent::Done) {
        OutgoingAction::Move { offset, total } => assert_eq!((offset, total), (4, 10)),
        _ => panic!(),
    }
    assert!(matches!(s.step(OutgoingEvent::Done), OutgoingAction::Flush));
    match s.step(OutgoingEvent::Done) {
        OutgoingAction::Succeed { report, message } => {
            assert!(report.is_none());
            assert_eq!(message, "アップロード完了");
        }
        _ => panic!(),
    }
    assert!(matches!(s.step(OutgoingEvent::Done), OutgoingAction::Close));
}

#[test]
fn files_that_are_there_are_not_sent() {
    for offset in [10, 11] {
        match parsing().step(response("ready", offset, None)) {
            OutgoingAction::Succeed { report, message } => {
                let p = report.unwrap();
                assert_eq!(p.path, "dir/a.txt");
                assert_eq!((p.total, p.current, p.percent, p.speed), (10, 10, 100, 0));
                assert_eq!(message, "既にサーバーに同サイズ以上のファイルが存在します");
            }
            _ => panic!(),
        }
    }
}

#[test]
fn denied_uploads_are_given_up() {
    assert_eq!(failure(parsing().step(response("denied", 0, Some("no")))), "no");
    assert_eq!(failure(parsing().step(response("denied", 0, None))), "Access Denied");
}

#[test]
fn failures_of_uploads_have_their_reasons() {
    let failed = || OutgoingEvent::Failed(text("e"));
    assert_eq!(failure(begin().step(failed())), "ローカルファイルが開けません: e");
    let mut s = begin();
    s.step(OutgoingEvent::Done);
    assert_eq!(failure(s.step(failed())), "e");
    let mut s = begin();
    s.step(OutgoingEvent::Done);
    s.step(OutgoingEvent::SizeRead(10));
    assert_eq!(failure(s.step(failed())), "サーバー接続失敗: e");
    assert_eq!(failure(sent().step(failed())), "e");
    let mut s = sent();
    s.step(OutgoingEvent::Done);
    assert_eq!(failure(s.step(failed())), "サーバー応答エラー: e");
    let mut s = sent();
    s.step(OutgoingEvent::Done);
    assert_eq!(
        failure(s.step(OutgoingEvent::ResponseRead(text("\n")))),
        "サーバーから空の応答が返ってきました"
    );
    assert_eq!(failure(parsing().step(failed())), "レスポンス解析エラー: e");
    let mut s = parsing();
    s.step(response("ready", 4, None));
    assert_eq!(failure(s.step(failed())), "シークエラー: e");
    let mut s = parsing();
    s.step(response("ready", 4, None));
    s.step(OutgoingEvent::Done);
    assert_eq!(failure(s.step(failed())), "e");
    let mut s = parsing();
    s.step(response("ready", 4, None));
    s.step(OutgoingEvent::Done);
    s.step(OutgoingEvent::Done);
    assert_eq!(failure(s.step(failed())), "e");
}

#[test]
fn replies_are_judged() {
    let denied = "権限エラー: パスワードが違います";
    assert_eq!(judge_reply(denied.as_bytes()), Err(text(denied)));
    assert_eq!(judge_reply("フォルダ作成完了".as_bytes()), Ok(text("フォルダ作成完了")));
    assert_eq!(judge_reply("作成エラー: x".as_bytes()), Ok(text("作成エラー: x")));
    assert_eq!(judge_reply(b""), Ok(text("")));
    assert_eq!(judge_reply(b"a\xffb"), Ok(text("a\u{fffd}b")));
    assert_eq!(judge_reply_text(text("x権限エラー")), Err(text("x権限エラー")));
}

#[test]
fn transfers_are_moved_chunk_by_chunk() {
    let mut l = TransferLoop::start(10, 4);
    assert!(matches!(l.step(&LoopEvent::Checked { cancelled: false }), LoopAction::Read));
    assert!(matches!(l.step(&LoopEvent::Read(5)), LoopAction::Write));
    assert!(matches!(
        l.step(&LoopEvent::Written { elapsed_ms: 200 }),
        LoopAction::Check { report: None }
    ));
    assert_eq!(l.position(), 9);
    l.step(&LoopEvent::Checked { cancelled: false });
    l.step(&LoopEvent::Read(1));
    assert!(matches!(
        l.step(&LoopEvent::Written { elapsed_ms: 0 }),
        LoopAction::Check { report: Some((10, 6)) }
    ));
    l.step(&LoopEvent::Checked { cancelled: false });
    assert!(matches!(l.step(&LoopEvent::Read(0)), LoopAction::Finish));
    assert_eq!(l.position(), 10);
}

#[test]
fn cancelled_transfers_stop() {
    let mut l = TransferLoop::start(10, 0);
    match l.step(&LoopEvent::Checked { cancelled: true }) {
        LoopAction::Fail(m) => assert_eq!(m, "キャンセルされました"),
        _ => panic!(),
    }
    assert!(matches!(l.step(&LoopEvent::Read(5)), LoopAction::Finish));
    assert_eq!(l.position(), 0);
    let mut l = TransferLoop::start(10, 0);
    l.step(&LoopEvent::Checked { cancelled: false });
    match l.step(&LoopEvent::Failed(text("e"))) {
        LoopAction::Fail(m) => assert_eq!(m, "e"),
        _ => panic!(),
    }
}

#[test]
fn reports_are_due_after_a_while_and_at_the_end() {
    let mut m = TransferMeter::new(100, 10);
    assert_eq!(m.advance(10, 200), None);
    assert_eq!(m.advance(10, 201), Some(20));
    assert_eq!(m.advance(10, 100), None);
    assert_eq!(m.advance(60, 100), Some(70));
    assert_eq!(m.position(), 100);
    assert_eq!(m.advance(5, 1), None);
}

fn items(dropped: Vec<Dropped>, target: &str) -> Vec<(String, String)> {
    prepare_upload_items(dropped, target)
        .into_iter()
        .map(|i| (i.local_path, i.remote_path))
        .collect()
}

fn folder(files: &[(&str, &str)]) -> Dropped {
    Dropped::Folder {
        files: files
            .iter()
            .map(|(l, r)| FolderFile { local_path: text(l), relative: text(r) })
            .collect(),
    }
}

#[test]
fn dropped_files_are_uploaded() {
    let file = || Dropped::File { path: text("C:\\x\\a.txt"), name: text("a.txt") };
    let local = text("C:\\x\\a.txt");
    assert_eq!(items(vec![file()], ""), vec![(local.clone(), text("a.txt"))]);
    assert_eq!(items(vec![file()], "/"), vec![(local.clone(), text("a.txt"))]);
    assert_eq!(items(vec![file()], "/d/e/"), vec![(local, text("d/e/a.txt"))]);
}

#[test]
fn dropped_folders_are_uploaded_in_order() {
    let dropped = vec![
        folder(&[("/f/a", "f\\a"), ("/f/s/b", "f\\s\\b")]),
        Dropped::Nothing,
        Dropped::File { path: text("/c"), name: text("c") },
    ];
    assert_eq!(
        items(dropped, "d"),
        vec![
            (text("/f/a"), text("d/f/a")),
            (text("/f/s/b"), text("d/f/s/b")),
            (text("/c"), text("d/c")),
        ]
    );
    assert_eq!(items(vec![folder(&[("/f/a", "f/a")])], ""), vec![(text("/f/a"), text("f/a"))]);
    assert_eq!(items(vec![], "d"), vec![]);
}
