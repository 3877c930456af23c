//! The client's side of uploads and of changes on the server.

use vstd::prelude::*;
use vstd::utf8::encode_utf8;

use crate::command::{plan, CommandPlanView};
use crate::encoding::{decode_lossy, lossy_text, sent_text_arrives};
use crate::progress::{ProgressPayload, ProgressPayloadView};
use crate::proto::{
    is_blank, TransferCommand, TransferCommandView, UploadResponse, UploadResponseView,
};
use crate::server::{
    change_denied, mkdir_answer, removal_answer, resume_offset, upload_denied, upload_next,
    upload_ready, Removal, UploadActionView, UploadEventView, UploadPhase, UploadSessionView,
};
use crate::text::{
    append, contains, has_infix, only_blank_text_is_trimmed_to_nothing, opt_text, same_text,
    trimmed, CharClass,
};

verus! {

/// Where an upload stands on the client's side.
#[derive(Clone, Copy, PartialEq, Eq, Structural, Debug)]
pub enum OutgoingPhase {
    /// The local file is being opened.
    Open,
    /// Its size is being read.
    Size,
    /// The server is being called.
    Connect,
    /// The local file is being hashed.
    Hash,
    /// The command is being sent.
    Send,
    /// The answer is being read.
    Response,
    /// The answer is being parsed.
    Parse,
    /// The offset is being looked up in the local file.
    Seek,
    /// The contents are being sent.
    Move,
    /// What was sent is being written out.
    Flush,
    /// Nothing is left to do.
    Closed,
}

/// An upload on its way, on the client's side.
pub struct OutgoingUpload {
    pub remote_path: String,
    pub auth_key: Option<String>,
    pub phase: OutgoingPhase,
    /// The size of the local file.
    pub total: u64,
    /// Where the server wants the upload to start.
    pub offset: u64,
}

/// An upload on its way, on the client's side, as a mathematical value.
pub struct OutgoingUploadView {
    pub remote_path: Seq<char>,
    pub auth_key: Option<Seq<char>>,
    pub phase: OutgoingPhase,
    pub total: u64,
    pub offset: u64,
}

impl View for OutgoingUpload {
    type V = OutgoingUploadView;

    open spec fn view(&self) -> OutgoingUploadView {
        OutgoingUploadView {
            remote_path: self.remote_path@,
            auth_key: opt_text(self.auth_key),
            phase: self.phase,
            total: self.total,
            offset: self.offset,
        }
    }
}

/// What became of the last action of an upload on the client's side.
pub enum OutgoingEvent {
    /// The action was done.
    Done,
    /// The action failed, for this reason.
    Failed(String),
    /// The size of the local file.
    SizeRead(u64),
    /// The hash of the local file, where it could be computed.
    Hashed(Option<String>),
    /// The line that the server answered.
    ResponseRead(String),
    /// The answer.
    ResponseParsed(UploadResponse),
}

/// An event of an upload on the client's side as a mathematical value.
pub enum OutgoingEventView {
    Done,
    Failed(Seq<char>),
    SizeRead(u64),
    Hashed(Option<Seq<char>>),
    ResponseRead(Seq<char>),
    ResponseParsed(UploadResponseView),
}

impl View for OutgoingEvent {
    type V = OutgoingEventView;

    open spec fn view(&self) -> OutgoingEventView {
        match self {
            OutgoingEvent::Done => OutgoingEventView::Done,
            OutgoingEvent::Failed(e) => OutgoingEventView::Failed(e@),
            OutgoingEvent::SizeRead(n) => OutgoingEventView::SizeRead(*n),
            OutgoingEvent::Hashed(h) => OutgoingEventView::Hashed(opt_text(*h)),
            OutgoingEvent::ResponseRead(line) => OutgoingEventView::ResponseRead(line@),
            OutgoingEvent::ResponseParsed(r) => OutgoingEventView::ResponseParsed(r@),
        }
    }
}

/// What is to be done next for an upload on the client's side.
pub enum OutgoingAction {
    /// Read the size of the local file.
    ReadSize,
    /// Call the server.
    Connect,
    /// Hash the local file.
    Hash,
    /// Send the command.
    Send(TransferCommand),
    /// Read the line that the server answers.
    ReadResponse,
    /// Parse the line that the server answered.
    ParseResponse(String),
    /// Go to this position of the local file.
    Seek(u64),
    /// Send the local file, from `offset` on up to `total`.
    Move { offset: u64, total: u64 },
    /// Write out what was sent.
    Flush,
    /// The upload is over, with this message, once the report, if there is one, was made.
    Succeed { report: Option<ProgressPayload>, message: String },
    /// The upload is over, for this reason.
    Fail(String),
    /// Nothing: the event does not belong to the last action.
    Close,
}

/// An action of an upload on the client's side as a mathematical value.
pub enum OutgoingActionView {
    ReadSize,
    Connect,
    Hash,
    Send(TransferCommandView),
    ReadResponse,
    ParseResponse(Seq<char>),
    Seek(u64),
    Move { offset: u64, total: u64 },
    Flush,
    Succeed { report: Option<ProgressPayloadView>, message: Seq<char> },
    Fail(Seq<char>),
    Close,
}

impl View for OutgoingAction {
    type V = OutgoingActionView;

    open spec fn view(&self) -> OutgoingActionView {
        match self {
            OutgoingAction::ReadSize => OutgoingActionView::ReadSize,
            OutgoingAction::Connect => OutgoingActionView::Connect,
            OutgoingAction::Hash => OutgoingActionView::Hash,
            OutgoingAction::Send(c) => OutgoingActionView::Send(c@),
            OutgoingAction::ReadResponse => OutgoingActionView::ReadResponse,
            OutgoingAction::ParseResponse(line) => OutgoingActionView::ParseResponse(line@),
            OutgoingAction::Seek(n) => OutgoingActionView::Seek(*n),
            OutgoingAction::Move { offset, total } => OutgoingActionView::Move {
                offset: *offset,
                total: *total,
            },
            OutgoingAction::Flush => OutgoingActionView::Flush,
            OutgoingAction::Succeed { report, message } => OutgoingActionView::Succeed {
                report: match report {
                    Some(p) => Some(p@),
                    None => None,
                },
                message: message@,
            },
            OutgoingAction::Fail(e) => OutgoingActionView::Fail(e@),
            OutgoingAction::Close => OutgoingActionView::Close,
        }
    }
}

impl OutgoingUploadView {
    /// The upload in another phase.
    pub open spec fn at(self, phase: OutgoingPhase) -> OutgoingUploadView {
        OutgoingUploadView { phase, ..self }
    }

    /// The upload as it is given up for a reason.
    pub open spec fn failing(self, reason: Seq<char>) -> (OutgoingUploadView, OutgoingActionView) {
        (self.at(OutgoingPhase::Closed), OutgoingActionView::Fail(reason))
    }

    /// The upload after the server's answer. Where the server has as many bytes as the local file
    /// or more, nothing is sent.
    pub open spec fn answered(self, response: UploadResponseView) -> (
        OutgoingUploadView,
        OutgoingActionView,
    ) {
        let s = OutgoingUploadView { offset: response.start_offset, ..self };
        if response.status == "denied"@ {
            s.failing(
                match response.message {
                    Some(m) => m,
                    None => "Access Denied"@,
                },
            )
        } else if response.start_offset >= self.total {
            (
                s.at(OutgoingPhase::Closed),
                OutgoingActionView::Succeed {
                    report: Some(
                        ProgressPayloadView {
                            path: self.remote_path,
                            total: self.total,
                            current: self.total,
                            percent: 100,
                            speed: 0,
                        },
                    ),
                    message: "既にサーバーに同サイズ以上のファイルが存在します"@,
                },
            )
        } else {
            (s.at(OutgoingPhase::Seek), OutgoingActionView::Seek(response.start_offset))
        }
    }
}

/// The action that follows an event, and the upload then.
pub open spec fn outgoing_next(s: OutgoingUploadView, e: OutgoingEventView) -> (
    OutgoingUploadView,
    OutgoingActionView,
) {
    match (s.phase, e) {
        (OutgoingPhase::Open, OutgoingEventView::Failed(reason)) => s.failing(
            "ローカルファイルが開けません: "@ + reason,
        ),
        (OutgoingPhase::Open, OutgoingEventView::Done) => (
            s.at(OutgoingPhase::Size),
            OutgoingActionView::ReadSize,
        ),
        (OutgoingPhase::Size, OutgoingEventView::Failed(reason)) => s.failing(reason),
        (OutgoingPhase::Size, OutgoingEventView::SizeRead(n)) => (
            OutgoingUploadView { total: n, ..s }.at(OutgoingPhase::Connect),
            OutgoingActionView::Connect,
        ),
        (OutgoingPhase::Connect, OutgoingEventView::Failed(reason)) => s.failing(
            "サーバー接続失敗: "@ + reason,
        ),
        (OutgoingPhase::Connect, OutgoingEventView::Done) => (
            s.at(OutgoingPhase::Hash),
            OutgoingActionView::Hash,
        ),
        (OutgoingPhase::Hash, OutgoingEventView::Hashed(hash)) => (
            s.at(OutgoingPhase::Send),
            OutgoingActionView::Send(
                TransferCommandView::Upload {
                    path: s.remote_path,
                    total_size: s.total,
                    auth_key: s.auth_key,
                    hash,
                },
            ),
        ),
        (OutgoingPhase::Send, OutgoingEventView::Failed(reason)) => s.failing(reason),
        (OutgoingPhase::Send, OutgoingEventView::Done) => (
            s.at(OutgoingPhase::Response),
            OutgoingActionView::ReadResponse,
        ),
        (OutgoingPhase::Response, OutgoingEventView::Failed(reason)) => s.failing(
            "サーバー応答エラー: "@ + reason,
        ),
        (OutgoingPhase::Response, OutgoingEventView::ResponseRead(line)) => if trimmed(
            line,
            CharClass::Whitespace,
        ).len() == 0 {
            s.failing("サーバーから空の応答が返ってきました"@)
        } else {
            (s.at(OutgoingPhase::Parse), OutgoingActionView::ParseResponse(line))
        },
        (OutgoingPhase::Parse, OutgoingEventView::Failed(reason)) => s.failing(
            "レスポンス解析エラー: "@ + reason,
        ),
        (OutgoingPhase::Parse, OutgoingEventView::ResponseParsed(r)) => s.answered(r),
        (OutgoingPhase::Seek, OutgoingEventView::Failed(reason)) => s.failing(
            "シークエラー: "@ + reason,
        ),
        (OutgoingPhase::Seek, OutgoingEventView::Done) => (
            s.at(OutgoingPhase::Move),
            OutgoingActionView::Move { offset: s.offset, total: s.total },
        ),
        (OutgoingPhase::Move, OutgoingEventView::Failed(reason)) => s.failing(reason),
        (OutgoingPhase::Move, OutgoingEventView::Done) => (
            s.at(OutgoingPhase::Flush),
            OutgoingActionView::Flush,
        ),
        (OutgoingPhase::Flush, OutgoingEventView::Failed(reason)) => s.failing(reason),
        (OutgoingPhase::Flush, OutgoingEventView::Done) => (
            s.at(OutgoingPhase::Closed),
            OutgoingActionView::Succeed { report: None, message: "アップロード完了"@ },
        ),
        _ => (s.at(OutgoingPhase::Closed), OutgoingActionView::Close),
    }
}

impl OutgoingUpload {
    /// Begins an upload to `remote_path`. The first action is to open the local file.
    pub fn begin(remote_path: String, auth_key: Option<String>) -> (r: OutgoingUpload)
        ensures
            r@ == (OutgoingUploadView {
                remote_path: remote_path@,
                auth_key: opt_text(auth_key),
                phase: OutgoingPhase::Open,
                total: 0,
                offset: 0,
            }),
    {
        OutgoingUpload { remote_path, auth_key, phase: OutgoingPhase::Open, total: 0, offset: 0 }
    }

    fn fail(&mut self, reason: String) -> (r: OutgoingAction)
        ensures
            (final(self)@, r@) == old(self)@.failing(reason@),
    {
        self.phase = OutgoingPhase::Closed;
        OutgoingAction::Fail(reason)
    }

    fn take_answer(&mut self, response: UploadResponse) -> (r: OutgoingAction)
        ensures
            (final(self)@, r@) == old(self)@.answered(response@),
    {
        self.offset = response.start_offset;
        if same_text(response.status.as_str(), "denied") {
            let reason = match response.message {
                Some(m) => m,
                None => "Access Denied".to_owned(),
            };
            self.fail(reason)
        } else if response.start_offset >= self.total {
            self.phase = OutgoingPhase::Closed;
            OutgoingAction::Succeed {
                report: Some(
                    ProgressPayload {
                        path: self.remote_path.clone(),
                        total: self.total,
                        current: self.total,
                        percent: 100,
                        speed: 0,
                    },
                ),
                message: "既にサーバーに同サイズ以上のファイルが存在します".to_owned(),
            }
        } else {
            self.phase = OutgoingPhase::Seek;
            OutgoingAction::Seek(response.start_offset)
        }
    }

    /// Takes the next step of an upload.
    pub fn step(&mut self, event: OutgoingEvent) -> (r: OutgoingAction)
        ensures
            (final(self)@, r@) == outgoing_next(old(self)@, event@),
    {
        match (self.phase, event) {
            (OutgoingPhase::Open, OutgoingEvent::Failed(reason)) => self.fail(
                append("ローカルファイルが開けません: ", reason.as_str()),
            ),
            (OutgoingPhase::Open, OutgoingEvent::Done) => {
                self.phase = OutgoingPhase::Size;
                OutgoingAction::ReadSize
            },
            (OutgoingPhase::Size, OutgoingEvent::Failed(reason)) => self.fail(reason),
            (OutgoingPhase::Size, OutgoingEvent::SizeRead(n)) => {
                self.total = n;
                self.phase = OutgoingPhase::Connect;
                OutgoingAction::Connect
            },
            (OutgoingPhase::Connect, OutgoingEvent::Failed(reason)) => self.fail(
                append("サーバー接続失敗: ", reason.as_str()),
            ),
            (OutgoingPhase::Connect, OutgoingEvent::Done) => {
                self.phase = OutgoingPhase::Hash;
                OutgoingAction::Hash
            },
            (OutgoingPhase::Hash, OutgoingEvent::Hashed(hash)) => {
                self.phase = OutgoingPhase::Send;
                OutgoingAction::Send(
                    TransferCommand::Upload {
                        path: self.remote_path.clone(),
                        total_size: self.total,
                        auth_key: self.auth_key.clone(),
                        hash,
                    },
                )
            },
            (OutgoingPhase::Send, OutgoingEvent::Failed(reason)) => self.fail(reason),
            (OutgoingPhase::Send, OutgoingEvent::Done) => {
                self.phase = OutgoingPhase::Response;
                OutgoingAction::ReadResponse
            },
            (OutgoingPhase::Response, OutgoingEvent::Failed(reason)) => self.fail(
                append("サーバー応答エラー: ", reason.as_str()),
            ),
            (OutgoingPhase::Response, OutgoingEvent::ResponseRead(line)) => if is_blank(
                line.as_str(),
            ) {
                self.fail("サーバーから空の応答が返ってきました".to_owned())
            } else {
                self.phase = OutgoingPhase::Parse;
                OutgoingAction::ParseResponse(line)
            },
            (OutgoingPhase::Parse, OutgoingEvent::Failed(reason)) => self.fail(
                append("レスポンス解析エラー: ", reason.as_str()),
            ),
            (OutgoingPhase::Parse, OutgoingEvent::ResponseParsed(response)) => self.take_answer(
                response,
            ),
            (OutgoingPhase::Seek, OutgoingEvent::Failed(reason)) => self.fail(
                append("シークエラー: ", reason.as_str()),
            ),
            (OutgoingPhase::Seek, OutgoingEvent::Done) => {
                self.phase = OutgoingPhase::Move;
                OutgoingAction::Move { offset: self.offset, total: self.total }
            },
            (OutgoingPhase::Move, OutgoingEvent::Failed(reason)) => self.fail(reason),
            (OutgoingPhase::Move, OutgoingEvent::Done) => {
                self.phase = OutgoingPhase::Flush;
                OutgoingAction::Flush
            },
            (OutgoingPhase::Flush, OutgoingEvent::Failed(reason)) => self.fail(reason),
            (OutgoingPhase::Flush, OutgoingEvent::Done) => {
                self.phase = OutgoingPhase::Closed;
                OutgoingAction::Succeed { report: None, message: "アップロード完了".to_owned() }
            },
            _ => {
                self.phase = OutgoingPhase::Closed;
                OutgoingAction::Close
            },
        }
    }
}

/// An upload that the server does not allow is given up with the server's message, and nothing is
/// sent.
pub proof fn denied_upload_is_given_up(s: OutgoingUploadView)
    requires
        s.phase == OutgoingPhase::Parse,
    ensures
        outgoing_next(s, OutgoingEventView::ResponseParsed(upload_denied())).1
            == OutgoingActionView::Fail("権限がありません(パスワード不一致)"@),
{
}

/// When the server allows an upload, the client sends from where the server says, or nothing where
/// the server has everything.
pub proof fn allowed_upload_starts_where_told(s: OutgoingUploadView, offset: u64)
    requires
        s.phase == OutgoingPhase::Parse,
    ensures
        ({
            let (s1, a1) = outgoing_next(
                s,
                OutgoingEventView::ResponseParsed(upload_ready(offset)),
            );
            let (_, a2) = outgoing_next(s1, OutgoingEventView::Done);
            if offset < s.total {
                &&& a1 == OutgoingActionView::Seek(offset)
                &&& a2 == (OutgoingActionView::Move { offset, total: s.total })
            } else {
                a1 is Succeed
            }
        }),
{
    reveal_strlit("denied");
    reveal_strlit("ready");
    assert("denied"@.len() != "ready"@.len());
}

/// An upload arrives whole: when the server kept the first bytes of the file, or nothing that is of
/// use, the client sends just what is missing, the server has the file that the client has, and
/// gives it its final name.
pub proof fn upload_arrives_whole(
    client: OutgoingUploadView,
    server: UploadSessionView,
    contents: Seq<u8>,
    partial: Seq<u8>,
)
    requires
        contents.len() <= u64::MAX,
        partial.len() <= u64::MAX,
        client.phase == OutgoingPhase::Parse,
        client.total == contents.len(),
        server.phase == UploadPhase::Open,
        server.total_size == contents.len(),
        partial.len() <= contents.len() ==> partial == contents.take(partial.len() as int),
    ensures
        ({
            let (p1, a1) = upload_next(
                server,
                UploadEventView::Opened(Some(partial.len() as u64)),
            );
            let offset = resume_offset(partial.len() as u64, server.total_size);
            let kept = partial.take(offset as int);
            let (_, b1) = outgoing_next(
                client,
                OutgoingEventView::ResponseParsed(upload_ready(offset)),
            );
            let sent = if b1 is Succeed {
                Seq::<u8>::empty()
            } else {
                contents.skip(offset as int)
            };
            let receiving = UploadSessionView { phase: UploadPhase::Receive, ..server };
            let whole = kept + sent;
            &&& a1 matches UploadActionView::Answer { truncate, offset: told, response }
            &&& told == offset && response == upload_ready(offset)
            &&& truncate <==> partial.len() > contents.len()
            &&& b1 is Succeed || b1 == OutgoingActionView::Seek(offset)
            &&& whole == contents
            &&& upload_next(receiving, UploadEventView::Received(Some(whole.len() as u64))).1
                is Rename
        }),
{
    let offset = resume_offset(partial.len() as u64, server.total_size);
    allowed_upload_starts_where_told(client, offset);
    let kept = partial.take(offset as int);
    if partial.len() <= contents.len() {
        assert(kept =~= contents.take(offset as int));
    } else {
        assert(kept =~= Seq::empty());
    }
    assert(kept + contents.skip(offset as int) =~= contents);
    if offset == contents.len() {
        assert(kept + Seq::<u8>::empty() =~= contents);
    }
}

/// An upload announces the local file: the command that it sends goes to the requested path with
/// the key that was given, and holds the size and the hash that were read of the local file. The
/// server that takes the upload then expects just that file.
pub proof fn uploads_announce_the_local_file(
    s: OutgoingUploadView,
    n: u64,
    hash: Option<Seq<char>>,
    names: Seq<Seq<char>>,
    admin_password: Option<Seq<char>>,
)
    requires
        s.phase == OutgoingPhase::Size,
    ensures
        ({
            let (s1, a1) = outgoing_next(s, OutgoingEventView::SizeRead(n));
            let (s2, a2) = outgoing_next(s1, OutgoingEventView::Done);
            let (s3, a3) = outgoing_next(s2, OutgoingEventView::Hashed(hash));
            &&& a1 is Connect
            &&& a2 is Hash
            &&& a3 == OutgoingActionView::Send(
                TransferCommandView::Upload {
                    path: s.remote_path,
                    total_size: n,
                    auth_key: s.auth_key,
                    hash,
                },
            )
            &&& s3.phase == OutgoingPhase::Send
            &&& s3.total == n
            &&& a3 matches OutgoingActionView::Send(command)
            &&& plan(command, Ok(names), admin_password) matches CommandPlanView::Take(server) ==> {
                &&& server.total_size == n
                &&& server.hash == hash
                &&& server.phase == UploadPhase::Parent
            }
        }),
{
}

/// An upload opens its file and reads its size first, and after the command was sent, reads the
/// answer and parses it as it came, unless it is blank.
pub proof fn uploads_wait_for_the_answer(s: OutgoingUploadView, line: Seq<char>)
    ensures
        s.phase == OutgoingPhase::Open ==> {
            let (next, a) = outgoing_next(s, OutgoingEventView::Done);
            a is ReadSize && next.phase == OutgoingPhase::Size
        },
        s.phase == OutgoingPhase::Send ==> {
            let (s1, a1) = outgoing_next(s, OutgoingEventView::Done);
            let (s2, a2) = outgoing_next(s1, OutgoingEventView::ResponseRead(line));
            let blank = forall|i: int|
                0 <= i < line.len() ==> CharClass::Whitespace.has(#[trigger] line[i]);
            &&& a1 is ReadResponse
            &&& !blank ==> a2 == OutgoingActionView::ParseResponse(line) && s2.phase
                == OutgoingPhase::Parse
            &&& blank ==> a2 == OutgoingActionView::Fail(
                "サーバーから空の応答が返ってきました"@,
            ) && s2.phase == OutgoingPhase::Closed
        },
{
    only_blank_text_is_trimmed_to_nothing(line, CharClass::Whitespace);
}

/// The server's answer is followed: an upload that is denied ends with the server's message, one
/// that the server has all of ends well with a full report, and any other is sent from where the
/// server says up to its end, and written out.
pub proof fn answers_are_followed(s: OutgoingUploadView, response: UploadResponseView)
    requires
        s.phase == OutgoingPhase::Parse,
    ensures
        ({
            let (s1, a1) = outgoing_next(s, OutgoingEventView::ResponseParsed(response));
            let (s2, a2) = outgoing_next(s1, OutgoingEventView::Done);
            let (s3, a3) = outgoing_next(s2, OutgoingEventView::Done);
            let (s4, a4) = outgoing_next(s3, OutgoingEventView::Done);
            let start = response.start_offset;
            &&& response.status == "denied"@ ==> {
                &&& s1.phase == OutgoingPhase::Closed
                &&& response.message matches Some(m) ==> a1 == OutgoingActionView::Fail(m)
                &&& response.message is None ==> a1 == OutgoingActionView::Fail("Access Denied"@)
            }
            &&& response.status != "denied"@ && start >= s.total ==> {
                &&& s1.phase == OutgoingPhase::Closed
                &&& a1 matches OutgoingActionView::Succeed { report, message }
                &&& message == "既にサーバーに同サイズ以上のファイルが存在します"@
                &&& report matches Some(p)
                &&& p.path == s.remote_path
                &&& p.total == s.total && p.current == s.total
                &&& p.percent == 100 && p.speed == 0
            }
            &&& response.status != "denied"@ && start < s.total ==> {
                &&& a1 == OutgoingActionView::Seek(start)
                &&& a2 == (OutgoingActionView::Move { offset: start, total: s.total })
                &&& a3 is Flush
                &&& a4 == (OutgoingActionView::Succeed {
                    report: None,
                    message: "アップロード完了"@,
                })
                &&& s4.phase == OutgoingPhase::Closed
            }
        }),
{
}

/// Path and key of an upload never change, its size only when it is read, and its offset only when
/// the server answers.
pub proof fn uploads_remember_what_they_know(s: OutgoingUploadView, e: OutgoingEventView)
    ensures
        ({
            let next = outgoing_next(s, e).0;
            &&& next.remote_path == s.remote_path
            &&& next.auth_key == s.auth_key
            &&& s.phase != OutgoingPhase::Size ==> next.total == s.total
            &&& s.phase != OutgoingPhase::Parse ==> next.offset == s.offset
        }),
{
}

/// Whatever fails ends the upload, with what failed and the reason for it.
pub proof fn failures_end_the_upload(s: OutgoingUploadView, reason: Seq<char>)
    ensures
        ({
            let (next, a) = outgoing_next(s, OutgoingEventView::Failed(reason));
            &&& next.phase == OutgoingPhase::Closed
            &&& s.phase == OutgoingPhase::Open ==> a == OutgoingActionView::Fail(
                "ローカルファイルが開けません: "@ + reason,
            )
            &&& s.phase == OutgoingPhase::Connect ==> a == OutgoingActionView::Fail(
                "サーバー接続失敗: "@ + reason,
            )
            &&& s.phase == OutgoingPhase::Response ==> a == OutgoingActionView::Fail(
                "サーバー応答エラー: "@ + reason,
            )
            &&& s.phase == OutgoingPhase::Parse ==> a == OutgoingActionView::Fail(
                "レスポンス解析エラー: "@ + reason,
            )
            &&& s.phase == OutgoingPhase::Seek ==> a == OutgoingActionView::Fail(
                "シークエラー: "@ + reason,
            )
            &&& s.phase == OutgoingPhase::Size || s.phase == OutgoingPhase::Send || s.phase
                == OutgoingPhase::Move || s.phase == OutgoingPhase::Flush ==> a
                == OutgoingActionView::Fail(reason)
        }),
{
}

/// An event that does not belong to the last action closes the upload, and nothing is done.
pub proof fn stray_events_close_the_upload(s: OutgoingUploadView, e: OutgoingEventView)
    ensures
        ({
            let (next, a) = outgoing_next(s, e);
            let fits = match e {
                OutgoingEventView::Done => {
                    s.phase == OutgoingPhase::Open || s.phase == OutgoingPhase::Connect || s.phase
                        == OutgoingPhase::Send || s.phase == OutgoingPhase::Seek || s.phase
                        == OutgoingPhase::Move || s.phase == OutgoingPhase::Flush
                },
                OutgoingEventView::Failed(_) => s.phase != OutgoingPhase::Hash && s.phase
                    != OutgoingPhase::Closed,
                OutgoingEventView::SizeRead(_) => s.phase == OutgoingPhase::Size,
                OutgoingEventView::Hashed(_) => s.phase == OutgoingPhase::Hash,
                OutgoingEventView::ResponseRead(_) => s.phase == OutgoingPhase::Response,
                OutgoingEventView::ResponseParsed(_) => s.phase == OutgoingPhase::Parse,
            };
            &&& !fits ==> a is Close && next.phase == OutgoingPhase::Closed
            &&& fits ==> a !is Close
        }),
{
}

/// A file is uploaded whole from its announcement on: the server that takes the upload announced
/// for `contents` tells the client to go on after what it kept of it, and once the client sent the
/// rest from there, the server has as many bytes as were announced and gives the file its name.
pub proof fn announced_uploads_arrive_whole(
    client: OutgoingUploadView,
    hash: Option<Seq<char>>,
    names: Seq<Seq<char>>,
    admin_password: Option<Seq<char>>,
    contents: Seq<u8>,
    kept: Seq<u8>,
)
    requires
        client.phase == OutgoingPhase::Size,
        contents.len() <= u64::MAX,
        kept.len() <= contents.len(),
        kept == contents.take(kept.len() as int),
    ensures
        ({
            let (c1, _) = outgoing_next(client, OutgoingEventView::SizeRead(contents.len() as u64));
            let (c2, _) = outgoing_next(c1, OutgoingEventView::Done);
            let (c3, a3) = outgoing_next(c2, OutgoingEventView::Hashed(hash));
            &&& a3 matches OutgoingActionView::Send(command)
            &&& plan(command, Ok(names), admin_password) matches CommandPlanView::Take(server) ==> {
                let open = UploadSessionView { phase: UploadPhase::Open, ..server };
                let receive = UploadSessionView { phase: UploadPhase::Receive, ..server };
                let (_, b1) = upload_next(open, UploadEventView::Opened(Some(kept.len() as u64)));
                &&& b1 matches UploadActionView::Answer { truncate, offset, response }
                &&& !truncate && offset == kept.len()
                &&& ({
                    let parsing = OutgoingUploadView { phase: OutgoingPhase::Parse, ..c3 };
                    let (c4, a4) = outgoing_next(
                        parsing,
                        OutgoingEventView::ResponseParsed(response),
                    );
                    let (_, a5) = outgoing_next(c4, OutgoingEventView::Done);
                    let sent = match a5 {
                        OutgoingActionView::Move { offset: from, total: to } => contents.subrange(
                            from as int,
                            to as int,
                        ),
                        _ => Seq::<u8>::empty(),
                    };
                    &&& kept.len() < contents.len() ==> a5 is Move
                    &&& kept.len() == contents.len() ==> a4 is Succeed
                    &&& kept + sent == contents
                    &&& upload_next(
                        receive,
                        UploadEventView::Received(Some((kept + sent).len() as u64)),
                    ).1 is Rename
                })
            }
        }),
{
    reveal_strlit("denied");
    reveal_strlit("ready");
    assert("denied"@.len() != "ready"@.len());
    let n = contents.len() as int;
    let k = kept.len() as int;
    assert(contents.take(k) + contents.subrange(k, n) =~= contents);
    if k == n {
        assert(contents.take(k) + Seq::<u8>::empty() =~= contents);
    }
}

/// Judges the server's reply to a change, as bytes: one that speaks of missing rights is an error.
pub fn judge_reply(bytes: &[u8]) -> (r: Result<String, String>)
    ensures
        ({
            let text = lossy_text(bytes@);
            match r {
                Ok(t) => !has_infix(text, "権限エラー"@) && t@ == text,
                Err(t) => has_infix(text, "権限エラー"@) && t@ == text,
            }
        }),
{
    judge_reply_text(decode_lossy(bytes))
}

/// Judges the server's reply to a change, as text.
pub fn judge_reply_text(text: String) -> (r: Result<String, String>)
    ensures
        match r {
            Ok(t) => !has_infix(text@, "権限エラー"@) && t@ == text@,
            Err(t) => has_infix(text@, "権限エラー"@) && t@ == text@,
        },
{
    if contains(text.as_str(), "権限エラー") {
        Err(text)
    } else {
        Ok(text)
    }
}

/// The answer to a change that is not allowed is an error to the client.
pub proof fn denied_change_is_an_error()
    ensures
        has_infix(lossy_text(encode_utf8(change_denied())), "権限エラー"@),
{
    sent_text_arrives(change_denied());
    reveal_strlit("権限エラー: パスワードが違います");
    reveal_strlit("権限エラー");
    let needle = "権限エラー"@;
    assert(change_denied().subrange(0, 0int + needle.len()) =~= needle);
}

/// The answers to a directory that was made, to something that was removed and to something that
/// does not exist are no errors to the client.
pub proof fn done_change_is_no_error(removal: Removal)
    ensures
        !has_infix(lossy_text(encode_utf8(mkdir_answer(None))), "権限エラー"@),
        !has_infix(lossy_text(encode_utf8(removal_answer(removal, None))), "権限エラー"@),
{
    let needle = "権限エラー"@;
    sent_text_arrives(mkdir_answer(None));
    sent_text_arrives(removal_answer(removal, None));
    reveal_strlit("権限エラー");
    reveal_strlit("フォルダ作成完了");
    reveal_strlit("削除完了");
    reveal_strlit("ファイルが見つかりません");
    assert(needle[0] == '権');
    let a = mkdir_answer(None);
    if has_infix(a, needle) {
        let i = choose|i: int|
            0 <= i <= a.len() - needle.len() && #[trigger] a.subrange(i, i + needle.len())
                == needle;
        assert(a.subrange(i, i + needle.len())[0] == a[i]);
    }
    let b = removal_answer(removal, None);
    if has_infix(b, needle) {
        let i = choose|i: int|
            0 <= i <= b.len() - needle.len() && #[trigger] b.subrange(i, i + needle.len())
                == needle;
        assert(b.subrange(i, i + needle.len())[0] == b[i]);
    }
}

} // verus!
