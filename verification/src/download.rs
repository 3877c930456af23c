//! The client's side of a download.

use vstd::prelude::*;

use crate::listing::{item_views, FileCacheEntryView, FileItem, FileItemView};
use crate::proto::{
    is_blank, DownloadStartResponse, DownloadStartResponseView, TransferCommand,
    TransferCommandView,
};
use crate::server::{download_answer, DownloadProbe};
use crate::status::{
    local_cache_view, partial_means_resumable, remember_hash, state_view, DownloadStateItem,
    LocalCacheEntry, LocalCacheEntryView, LocalFileView, LocalMetadata,
};
use crate::table::Table;
use crate::text::{
    append, decimal, decimal_text, only_blank_text_is_trimmed_to_nothing, opt_text, same_text,
    trimmed, CharClass,
};

verus! {

/// What is to be downloaded.
pub struct DownloadRequest {
    /// The path under which the server lists the file.
    pub path: String,
    /// The hash that the server lists.
    pub server_hash: Option<String>,
    /// The size that the server lists.
    pub server_size: u64,
    /// Whether a file that is there already is replaced.
    pub force: bool,
}

/// What is to be downloaded, as a mathematical value.
pub struct DownloadRequestView {
    pub path: Seq<char>,
    pub server_hash: Option<Seq<char>>,
    pub server_size: u64,
    pub force: bool,
}

impl View for DownloadRequest {
    type V = DownloadRequestView;

    open spec fn view(&self) -> DownloadRequestView {
        DownloadRequestView {
            path: self.path@,
            server_hash: opt_text(self.server_hash),
            server_size: self.server_size,
            force: self.force,
        }
    }
}

/// Where a download stands.
#[derive(Clone, Copy, PartialEq, Eq, Structural, Debug)]
pub enum DownloadPhase {
    /// The directory is being made.
    Parent,
    /// It is being looked whether the file is there already.
    Local,
    /// The cache is being read.
    Cache,
    /// It is being looked how far an earlier attempt got.
    Begun,
    /// The file that the download is kept in is being opened.
    Open,
    /// The server is being called.
    Connect,
    /// The command is being sent.
    Send,
    /// The answer is being read.
    Header,
    /// The answer is being parsed.
    Parse,
    /// The contents are being received.
    Receive,
    /// It is being looked whether the final place is free.
    Finish,
    /// The file is being given its final name.
    Rename,
    /// The downloads that have begun are being read.
    Forget,
    /// The downloads that have begun are being written.
    Forgotten,
    /// The finished file and the cache are being read.
    Remember,
    /// The cache is being written.
    Remembered,
    /// Nothing is left to do.
    Closed,
}

/// A download on its way.
pub struct DownloadSession {
    pub request: DownloadRequest,
    /// The full path of the local copy, by which it is remembered.
    pub key: String,
    pub phase: DownloadPhase,
    /// Where the download starts.
    pub offset: u64,
    /// The size that the server announced.
    pub total: u64,
    /// The hash that the server announced.
    pub hash: Option<String>,
}

/// A download on its way as a mathematical value.
pub struct DownloadSessionView {
    pub request: DownloadRequestView,
    pub key: Seq<char>,
    pub phase: DownloadPhase,
    pub offset: u64,
    pub total: u64,
    pub hash: Option<Seq<char>>,
}

impl View for DownloadSession {
    type V = DownloadSessionView;

    open spec fn view(&self) -> DownloadSessionView {
        DownloadSessionView {
            request: self.request@,
            key: self.key@,
            phase: self.phase,
            offset: self.offset,
            total: self.total,
            hash: opt_text(self.hash),
        }
    }
}

/// What became of the last action of a download.
pub enum DownloadEvent {
    /// The action was done.
    Done,
    /// The action failed, for this reason.
    Failed(String),
    /// The size of the file at the final place, where there is one that can be read.
    LocalSeen(Option<u64>),
    /// The cache.
    CacheLoaded(Table<LocalCacheEntry>),
    /// The downloads that have begun, and the size of the file that this one is kept in, where
    /// there is one that can be read.
    BegunSeen { begun: Table<DownloadStateItem>, temp_size: Option<u64> },
    /// The line that the server answered.
    HeaderRead(String),
    /// The answer, and the line that it was in.
    HeaderParsed { line: String, header: Result<DownloadStartResponse, String> },
    /// Everything that the server sent was written; the file that the download is kept in has this
    /// size now.
    Received(u64),
    /// Whatever was received could not be written out, for this reason.
    FlushFailed(String),
    /// Whether there is something at the final place.
    FinalSeen { exists: bool },
    /// The file could not be given its final name.
    RenameFailed { from: String, to: String, reason: String },
    /// Size and time of change of the finished file, where they can be read, and the cache.
    FileSeen { metadata: Option<LocalMetadata>, cache: Table<LocalCacheEntry> },
}

/// An event of a download as a mathematical value.
pub enum DownloadEventView {
    Done,
    Failed(Seq<char>),
    LocalSeen(Option<u64>),
    CacheLoaded(Map<Seq<char>, LocalCacheEntryView>),
    BegunSeen { begun: Map<Seq<char>, Seq<char>>, temp_size: Option<u64> },
    HeaderRead(Seq<char>),
    HeaderParsed { line: Seq<char>, header: Result<DownloadStartResponseView, Seq<char>> },
    Received(u64),
    FlushFailed(Seq<char>),
    FinalSeen { exists: bool },
    RenameFailed { from: Seq<char>, to: Seq<char>, reason: Seq<char> },
    FileSeen { metadata: Option<LocalMetadata>, cache: Map<Seq<char>, LocalCacheEntryView> },
}

impl View for DownloadEvent {
    type V = DownloadEventView;

    open spec fn view(&self) -> DownloadEventView {
        match self {
            DownloadEvent::Done => DownloadEventView::Done,
            DownloadEvent::Failed(e) => DownloadEventView::Failed(e@),
            DownloadEvent::LocalSeen(n) => DownloadEventView::LocalSeen(*n),
            DownloadEvent::CacheLoaded(c) => DownloadEventView::CacheLoaded(local_cache_view(c@)),
            DownloadEvent::BegunSeen { begun, temp_size } => DownloadEventView::BegunSeen {
                begun: state_view(begun@),
                temp_size: *temp_size,
            },
            DownloadEvent::HeaderRead(line) => DownloadEventView::HeaderRead(line@),
            DownloadEvent::HeaderParsed { line, header } => DownloadEventView::HeaderParsed {
                line: line@,
                header: match header {
                    Ok(h) => Ok(h@),
                    Err(e) => Err(e@),
                },
            },
            DownloadEvent::Received(n) => DownloadEventView::Received(*n),
            DownloadEvent::FlushFailed(e) => DownloadEventView::FlushFailed(e@),
            DownloadEvent::FinalSeen { exists } => DownloadEventView::FinalSeen {
                exists: *exists,
            },
            DownloadEvent::RenameFailed { from, to, reason } => DownloadEventView::RenameFailed {
                from: from@,
                to: to@,
                reason: reason@,
            },
            DownloadEvent::FileSeen { metadata, cache } => DownloadEventView::FileSeen {
                metadata: *metadata,
                cache: local_cache_view(cache@),
            },
        }
    }
}

/// What is to be done next for a download.
pub enum DownloadAction {
    /// Look whether the file is there already.
    LookLocal,
    /// Read the cache.
    LoadCache,
    /// Read the downloads that have begun, and look how far this one got.
    LookBegun,
    /// Write down the downloads that have begun, if there is a `record`, and open the file that the
    /// download is kept in, empty if `truncate`, else to append to it.
    OpenTemp { truncate: bool, record: Option<Table<DownloadStateItem>> },
    /// Call the server.
    Connect,
    /// Send the command.
    Send(TransferCommand),
    /// Read the line that the server answers.
    ReadHeader,
    /// Parse the line that the server answered.
    ParseHeader(String),
    /// Append what the server sends, from `offset` on up to `total`.
    Receive { offset: u64, total: u64 },
    /// Look whether there is something at the final place.
    LookFinal,
    /// Give the file its final name, after removing what is there if `replace`.
    Rename { replace: bool },
    /// Read the downloads that have begun.
    LoadBegun,
    /// Write down the downloads that have begun.
    SaveBegun(Table<DownloadStateItem>),
    /// Read size and time of change of the finished file, and the cache.
    LookFile,
    /// Write down the cache.
    SaveCache(Table<LocalCacheEntry>),
    /// The download is over, with this message.
    Succeed(String),
    /// The download is over, for this reason. What was received is kept.
    Fail(String),
    /// Nothing: the event does not belong to the last action.
    Close,
}

/// An action of a download as a mathematical value.
pub enum DownloadActionView {
    LookLocal,
    LoadCache,
    LookBegun,
    OpenTemp { truncate: bool, record: Option<Map<Seq<char>, Seq<char>>> },
    Connect,
    Send(TransferCommandView),
    ReadHeader,
    ParseHeader(Seq<char>),
    Receive { offset: u64, total: u64 },
    LookFinal,
    Rename { replace: bool },
    LoadBegun,
    SaveBegun(Map<Seq<char>, Seq<char>>),
    LookFile,
    SaveCache(Map<Seq<char>, LocalCacheEntryView>),
    Succeed(Seq<char>),
    Fail(Seq<char>),
    Close,
}

impl View for DownloadAction {
    type V = DownloadActionView;

    open spec fn view(&self) -> DownloadActionView {
        match self {
            DownloadAction::LookLocal => DownloadActionView::LookLocal,
            DownloadAction::LoadCache => DownloadActionView::LoadCache,
            DownloadAction::LookBegun => DownloadActionView::LookBegun,
            DownloadAction::OpenTemp { truncate, record } => DownloadActionView::OpenTemp {
                truncate: *truncate,
                record: match record {
                    Some(t) => Some(state_view(t@)),
                    None => None,
                },
            },
            DownloadAction::Connect => DownloadActionView::Connect,
            DownloadAction::Send(c) => DownloadActionView::Send(c@),
            DownloadAction::ReadHeader => DownloadActionView::ReadHeader,
            DownloadAction::ParseHeader(line) => DownloadActionView::ParseHeader(line@),
            DownloadAction::Receive { offset, total } => DownloadActionView::Receive {
                offset: *offset,
                total: *total,
            },
            DownloadAction::LookFinal => DownloadActionView::LookFinal,
            DownloadAction::Rename { replace } => DownloadActionView::Rename { replace: *replace },
            DownloadAction::LoadBegun => DownloadActionView::LoadBegun,
            DownloadAction::SaveBegun(t) => DownloadActionView::SaveBegun(state_view(t@)),
            DownloadAction::LookFile => DownloadActionView::LookFile,
            DownloadAction::SaveCache(t) => DownloadActionView::SaveCache(local_cache_view(t@)),
            DownloadAction::Succeed(m) => DownloadActionView::Succeed(m@),
            DownloadAction::Fail(m) => DownloadActionView::Fail(m@),
            DownloadAction::Close => DownloadActionView::Close,
        }
    }
}

/// Where a download goes on, if an earlier attempt can be taken up: that was of the version that the
/// server lists now, and does not hold more than the whole file.
pub open spec fn resume_at(
    request: DownloadRequestView,
    key: Seq<char>,
    begun: Map<Seq<char>, Seq<char>>,
    temp_size: Option<u64>,
) -> Option<u64> {
    if request.server_hash is Some && begun.contains_key(key) && Some(begun[key])
        == request.server_hash && temp_size is Some && temp_size->Some_0 <= request.server_size {
        temp_size
    } else {
        None
    }
}

/// The hash that the finished file is remembered with: what the server announced, or else what it
/// listed.
pub open spec fn final_hash(s: DownloadSessionView) -> Option<Seq<char>> {
    if s.hash is Some {
        s.hash
    } else {
        s.request.server_hash
    }
}

impl DownloadSessionView {
    /// The download in another phase.
    pub open spec fn at(self, phase: DownloadPhase) -> DownloadSessionView {
        DownloadSessionView { phase, ..self }
    }

    /// The download as it is given up for a reason.
    pub open spec fn failing(self, reason: Seq<char>) -> (DownloadSessionView, DownloadActionView) {
        (self.at(DownloadPhase::Closed), DownloadActionView::Fail(reason))
    }

    /// The download as it ends well.
    pub open spec fn succeeding(self, message: Seq<char>) -> (
        DownloadSessionView,
        DownloadActionView,
    ) {
        (self.at(DownloadPhase::Closed), DownloadActionView::Succeed(message))
    }

    /// The download as it looks how far an earlier attempt got.
    pub open spec fn looking_begun(self) -> (DownloadSessionView, DownloadActionView) {
        (self.at(DownloadPhase::Begun), DownloadActionView::LookBegun)
    }

    /// The download as it opens the file that it is kept in.
    pub open spec fn opening(
        self,
        begun: Map<Seq<char>, Seq<char>>,
        temp_size: Option<u64>,
    ) -> (DownloadSessionView, DownloadActionView) {
        let resumed = resume_at(self.request, self.key, begun, temp_size);
        (
            DownloadSessionView {
                phase: DownloadPhase::Open,
                offset: match resumed {
                    Some(n) => n,
                    None => 0,
                },
                ..self
            },
            DownloadActionView::OpenTemp {
                truncate: resumed is None,
                record: match (resumed, self.request.server_hash) {
                    (None, Some(h)) => Some(begun.insert(self.key, h)),
                    _ => None,
                },
            },
        )
    }

    /// The download after the server's answer.
    pub open spec fn answered(self, header: DownloadStartResponseView) -> (
        DownloadSessionView,
        DownloadActionView,
    ) {
        let s = DownloadSessionView { total: header.size, hash: header.hash, ..self };
        if !header.found {
            s.failing("サーバー上でファイルが見つかりません: "@ + self.request.path)
        } else if self.offset >= header.size && header.size > 0 {
            (s.at(DownloadPhase::Finish), DownloadActionView::LookFinal)
        } else {
            (
                s.at(DownloadPhase::Receive),
                DownloadActionView::Receive { offset: self.offset, total: header.size },
            )
        }
    }
}

/// The action that follows an event, and the download then.
pub open spec fn download_next(s: DownloadSessionView, e: DownloadEventView) -> (
    DownloadSessionView,
    DownloadActionView,
) {
    match (s.phase, e) {
        (DownloadPhase::Parent, DownloadEventView::Failed(reason)) => s.failing(
            "ディレクトリ作成失敗: "@ + reason,
        ),
        (DownloadPhase::Parent, DownloadEventView::Done) => if s.request.force {
            s.looking_begun()
        } else {
            (s.at(DownloadPhase::Local), DownloadActionView::LookLocal)
        },
        (DownloadPhase::Local, DownloadEventView::LocalSeen(size)) => if size != Some(
            s.request.server_size,
        ) {
            s.looking_begun()
        } else if s.request.server_hash is None {
            s.succeeding("スキップ: サイズ一致 (ハッシュなし)"@)
        } else {
            (s.at(DownloadPhase::Cache), DownloadActionView::LoadCache)
        },
        (DownloadPhase::Cache, DownloadEventView::CacheLoaded(cache)) => if cache.contains_key(
            s.key,
        ) && Some(cache[s.key].hash) == s.request.server_hash && cache[s.key].size
            == s.request.server_size {
            s.succeeding("スキップ: 同期済み"@)
        } else {
            s.looking_begun()
        },
        (DownloadPhase::Begun, DownloadEventView::BegunSeen { begun, temp_size }) => s.opening(
            begun,
            temp_size,
        ),
        (DownloadPhase::Open, DownloadEventView::Failed(reason)) => s.failing(
            "Temp file open error: "@ + reason,
        ),
        (DownloadPhase::Open, DownloadEventView::Done) => (
            s.at(DownloadPhase::Connect),
            DownloadActionView::Connect,
        ),
        (DownloadPhase::Connect, DownloadEventView::Failed(reason)) => s.failing(
            "サーバー接続失敗: "@ + reason,
        ),
        (DownloadPhase::Connect, DownloadEventView::Done) => (
            s.at(DownloadPhase::Send),
            DownloadActionView::Send(
                TransferCommandView::Download { path: s.request.path, offset: s.offset },
            ),
        ),
        (DownloadPhase::Send, DownloadEventView::Failed(reason)) => s.failing(reason),
        (DownloadPhase::Send, DownloadEventView::Done) => (
            s.at(DownloadPhase::Header),
            DownloadActionView::ReadHeader,
        ),
        (DownloadPhase::Header, DownloadEventView::Failed(reason)) => s.failing(
            "ヘッダー受信エラー: "@ + reason,
        ),
        (DownloadPhase::Header, DownloadEventView::HeaderRead(line)) => if trimmed(
            line,
            CharClass::Whitespace,
        ).len() == 0 {
            s.failing("サーバーから空の応答が返ってきました"@)
        } else {
            (s.at(DownloadPhase::Parse), DownloadActionView::ParseHeader(line))
        },
        (DownloadPhase::Parse, DownloadEventView::HeaderParsed { line, header: Err(reason) }) => {
            s.failing("ヘッダー解析エラー (受信データ: "@ + line + "): "@ + reason)
        },
        (DownloadPhase::Parse, DownloadEventView::HeaderParsed { line: _, header: Ok(h) }) => {
            s.answered(h)
        },
        (DownloadPhase::Receive, DownloadEventView::Failed(reason)) => s.failing(reason),
        (DownloadPhase::Receive, DownloadEventView::FlushFailed(reason)) => s.failing(
            "書き込みフラッシュエラー: "@ + reason,
        ),
        (DownloadPhase::Receive, DownloadEventView::Received(size)) => if size != s.total {
            s.failing(
                "中断: "@ + decimal_text(size as nat) + "/"@ + decimal_text(s.total as nat)
                    + " bytes"@,
            )
        } else {
            (s.at(DownloadPhase::Finish), DownloadActionView::LookFinal)
        },
        (DownloadPhase::Finish, DownloadEventView::FinalSeen { exists }) => if exists
            && !s.request.force {
            s.failing("保存先に同名ファイルが既に存在します"@)
        } else {
            (s.at(DownloadPhase::Rename), DownloadActionView::Rename { replace: exists })
        },
        (DownloadPhase::Rename, DownloadEventView::RenameFailed { from, to, reason }) => {
            s.failing("リネーム失敗 ("@ + from + " -> "@ + to + "): "@ + reason)
        },
        (DownloadPhase::Rename, DownloadEventView::Done) => (
            s.at(DownloadPhase::Forget),
            DownloadActionView::LoadBegun,
        ),
        (DownloadPhase::Forget, DownloadEventView::BegunSeen { begun, temp_size: _ }) => (
            s.at(DownloadPhase::Forgotten),
            DownloadActionView::SaveBegun(begun.remove(s.key)),
        ),
        (DownloadPhase::Forgotten, DownloadEventView::Done) => if final_hash(s) is None {
            s.succeeding("ダウンロード完了"@)
        } else {
            (s.at(DownloadPhase::Remember), DownloadActionView::LookFile)
        },
        (DownloadPhase::Remember, DownloadEventView::FileSeen { metadata, cache }) => {
            match (metadata, final_hash(s)) {
                (Some(m), Some(hash)) => (
                    s.at(DownloadPhase::Remembered),
                    DownloadActionView::SaveCache(
                        cache.insert(
                            s.key,
                            LocalCacheEntryView {
                                size: m.size,
                                modified_ts: m.modified_ts,
                                hash,
                            },
                        ),
                    ),
                ),
                _ => s.succeeding("ダウンロード完了"@),
            }
        },
        (DownloadPhase::Remembered, DownloadEventView::Done) => s.succeeding("ダウンロード完了"@),
        _ => (s.at(DownloadPhase::Closed), DownloadActionView::Close),
    }
}

proof fn lemma_state_insert(
    m: Map<Seq<char>, DownloadStateItem>,
    key: Seq<char>,
    e: DownloadStateItem,
)
    ensures
        state_view(m.insert(key, e)) == state_view(m).insert(key, e.server_hash@),
{
    assert(state_view(m.insert(key, e)) =~= state_view(m).insert(key, e.server_hash@));
}

proof fn lemma_state_remove(m: Map<Seq<char>, DownloadStateItem>, key: Seq<char>)
    ensures
        state_view(m.remove(key)) == state_view(m).remove(key),
{
    assert(state_view(m.remove(key)) =~= state_view(m).remove(key));
}

impl DownloadSession {
    /// Begins the download of a file whose local copy has the full path `key`. The first action is
    /// to make the directory of the file.
    pub fn begin(request: DownloadRequest, key: String) -> (r: DownloadSession)
        ensures
            r@ == (DownloadSessionView {
                request: request@,
                key: key@,
                phase: DownloadPhase::Parent,
                offset: 0,
                total: 0,
                hash: None,
            }),
    {
        DownloadSession {
            request,
            key,
            phase: DownloadPhase::Parent,
            offset: 0,
            total: 0,
            hash: None,
        }
    }

    fn fail(&mut self, reason: String) -> (r: DownloadAction)
        ensures
            (final(self)@, r@) == old(self)@.failing(reason@),
    {
        self.phase = DownloadPhase::Closed;
        DownloadAction::Fail(reason)
    }

    fn succeed(&mut self, message: &str) -> (r: DownloadAction)
        ensures
            (final(self)@, r@) == old(self)@.succeeding(message@),
    {
        self.phase = DownloadPhase::Closed;
        DownloadAction::Succeed(message.to_owned())
    }

    fn look_begun(&mut self) -> (r: DownloadAction)
        ensures
            (final(self)@, r@) == old(self)@.looking_begun(),
    {
        self.phase = DownloadPhase::Begun;
        DownloadAction::LookBegun
    }

    /// Where the download goes on, if an earlier attempt can be taken up.
    fn resume(&self, begun: &Table<DownloadStateItem>, temp_size: Option<u64>) -> (r: Option<u64>)
        ensures
            r == resume_at(self@.request, self@.key, state_view(begun@), temp_size),
    {
        match (&self.request.server_hash, begun.get(self.key.as_str()), temp_size) {
            (Some(h), Some(saved), Some(size)) => if same_text(
                saved.server_hash.as_str(),
                h.as_str(),
            ) && size <= self.request.server_size {
                Some(size)
            } else {
                None
            },
            _ => None,
        }
    }

    fn open(&mut self, begun: Table<DownloadStateItem>, temp_size: Option<u64>) -> (r:
        DownloadAction)
        ensures
            (final(self)@, r@) == old(self)@.opening(state_view(begun@), temp_size),
    {
        let resumed = self.resume(&begun, temp_size);
        self.phase = DownloadPhase::Open;
        match resumed {
            Some(n) => {
                self.offset = n;
                DownloadAction::OpenTemp { truncate: false, record: None }
            },
            None => {
                self.offset = 0;
                match &self.request.server_hash {
                    Some(h) => {
                        let mut record = begun;
                        let item = DownloadStateItem { server_hash: h.clone() };
                        proof {
                            lemma_state_insert(record@, self.key@, item);
                        }
                        record.insert(self.key.clone(), item);
                        DownloadAction::OpenTemp { truncate: true, record: Some(record) }
                    },
                    None => DownloadAction::OpenTemp { truncate: true, record: None },
                }
            },
        }
    }

    fn take_answer(&mut self, header: DownloadStartResponse) -> (r: DownloadAction)
        ensures
            (final(self)@, r@) == old(self)@.answered(header@),
    {
        self.total = header.size;
        self.hash = header.hash;
        if !header.found {
            let reason = append(
                "サーバー上でファイルが見つかりません: ",
                self.request.path.as_str(),
            );
            self.fail(reason)
        } else if self.offset >= header.size && header.size > 0 {
            self.phase = DownloadPhase::Finish;
            DownloadAction::LookFinal
        } else {
            self.phase = DownloadPhase::Receive;
            DownloadAction::Receive { offset: self.offset, total: header.size }
        }
    }

    /// Takes the next step of a download.
    pub fn step(&mut self, event: DownloadEvent) -> (r: DownloadAction)
        ensures
            (final(self)@, r@) == download_next(old(self)@, event@),
    {
        match (self.phase, event) {
            (DownloadPhase::Parent, DownloadEvent::Failed(reason)) => self.fail(
                append("ディレクトリ作成失敗: ", reason.as_str()),
            ),
            (DownloadPhase::Parent, DownloadEvent::Done) => if self.request.force {
                self.look_begun()
            } else {
                self.phase = DownloadPhase::Local;
                DownloadAction::LookLocal
            },
            (DownloadPhase::Local, DownloadEvent::LocalSeen(size)) => if size != Some(
                self.request.server_size,
            ) {
                self.look_begun()
            } else if self.request.server_hash.is_none() {
                self.succeed("スキップ: サイズ一致 (ハッシュなし)")
            } else {
                self.phase = DownloadPhase::Cache;
                DownloadAction::LoadCache
            },
            (DownloadPhase::Cache, DownloadEvent::CacheLoaded(cache)) => {
                let synced = match (&self.request.server_hash, cache.get(self.key.as_str())) {
                    (Some(h), Some(entry)) => same_text(entry.hash.as_str(), h.as_str())
                        && entry.size == self.request.server_size,
                    _ => false,
                };
                if synced {
                    self.succeed("スキップ: 同期済み")
                } else {
                    self.look_begun()
                }
            },
            (DownloadPhase::Begun, DownloadEvent::BegunSeen { begun, temp_size }) => self.open(
                begun,
                temp_size,
            ),
            (DownloadPhase::Open, DownloadEvent::Failed(reason)) => self.fail(
                append("Temp file open error: ", reason.as_str()),
            ),
            (DownloadPhase::Open, DownloadEvent::Done) => {
                self.phase = DownloadPhase::Connect;
                DownloadAction::Connect
            },
            (DownloadPhase::Connect, DownloadEvent::Failed(reason)) => self.fail(
                append("サーバー接続失敗: ", reason.as_str()),
            ),
            (DownloadPhase::Connect, DownloadEvent::Done) => {
                self.phase = DownloadPhase::Send;
                DownloadAction::Send(
                    TransferCommand::Download {
                        path: self.request.path.clone(),
                        offset: self.offset,
                    },
                )
            },
            (DownloadPhase::Send, DownloadEvent::Failed(reason)) => self.fail(reason),
            (DownloadPhase::Send, DownloadEvent::Done) => {
                self.phase = DownloadPhase::Header;
                DownloadAction::ReadHeader
            },
            (DownloadPhase::Header, DownloadEvent::Failed(reason)) => self.fail(
                append("ヘッダー受信エラー: ", reason.as_str()),
            ),
            (DownloadPhase::Header, DownloadEvent::HeaderRead(line)) => if is_blank(line.as_str()) {
                self.fail("サーバーから空の応答が返ってきました".to_owned())
            } else {
                self.phase = DownloadPhase::Parse;
                DownloadAction::ParseHeader(line)
            },
            (DownloadPhase::Parse, DownloadEvent::HeaderParsed { line, header }) => match header {
                Ok(h) => self.take_answer(h),
                Err(reason) => {
                    let text = append("ヘッダー解析エラー (受信データ: ", line.as_str());
                    let text = append(text.as_str(), "): ");
                    self.fail(append(text.as_str(), reason.as_str()))
                },
            },
            (DownloadPhase::Receive, DownloadEvent::Failed(reason)) => self.fail(reason),
            (DownloadPhase::Receive, DownloadEvent::FlushFailed(reason)) => self.fail(
                append("書き込みフラッシュエラー: ", reason.as_str()),
            ),
            (DownloadPhase::Receive, DownloadEvent::Received(size)) => if size != self.total {
                let text = append("中断: ", decimal(size).as_str());
                let text = append(text.as_str(), "/");
                let text = append(text.as_str(), decimal(self.total).as_str());
                self.fail(append(text.as_str(), " bytes"))
            } else {
                self.phase = DownloadPhase::Finish;
                DownloadAction::LookFinal
            },
            (DownloadPhase::Finish, DownloadEvent::FinalSeen { exists }) => if exists
                && !self.request.force {
                self.fail("保存先に同名ファイルが既に存在します".to_owned())
            } else {
                self.phase = DownloadPhase::Rename;
                DownloadAction::Rename { replace: exists }
            },
            (DownloadPhase::Rename, DownloadEvent::RenameFailed { from, to, reason }) => {
                let text = append("リネーム失敗 (", from.as_str());
                let text = append(text.as_str(), " -> ");
                let text = append(text.as_str(), to.as_str());
                let text = append(text.as_str(), "): ");
                self.fail(append(text.as_str(), reason.as_str()))
            },
            (DownloadPhase::Rename, DownloadEvent::Done) => {
                self.phase = DownloadPhase::Forget;
                DownloadAction::LoadBegun
            },
            (DownloadPhase::Forget, DownloadEvent::BegunSeen { begun, temp_size: _ }) => {
                let mut left = begun;
                proof {
                    lemma_state_remove(left@, self.key@);
                }
                left.remove(self.key.as_str());
                self.phase = DownloadPhase::Forgotten;
                DownloadAction::SaveBegun(left)
            },
            (DownloadPhase::Forgotten, DownloadEvent::Done) => if self.hash.is_none()
                && self.request.server_hash.is_none() {
                self.succeed("ダウンロード完了")
            } else {
                self.phase = DownloadPhase::Remember;
                DownloadAction::LookFile
            },
            (DownloadPhase::Remember, DownloadEvent::FileSeen { metadata, cache }) => {
                let hash = match &self.hash {
                    Some(h) => Some(h.clone()),
                    None => self.request.server_hash.clone(),
                };
                match (metadata, hash) {
                    (Some(m), Some(h)) => {
                        let mut kept = cache;
                        remember_hash(self.key.clone(), m, h, &mut kept);
                        self.phase = DownloadPhase::Remembered;
                        DownloadAction::SaveCache(kept)
                    },
                    _ => self.succeed("ダウンロード完了"),
                }
            },
            (DownloadPhase::Remembered, DownloadEvent::Done) => self.succeed("ダウンロード完了"),
            _ => {
                self.phase = DownloadPhase::Closed;
                DownloadAction::Close
            },
        }
    }
}

/// The request for a listed file.
pub open spec fn request_for(item: FileItemView, force: bool) -> DownloadRequestView {
    DownloadRequestView {
        path: item.path,
        server_hash: item.hash,
        server_size: item.size,
        force,
    }
}

/// No step changes what is downloaded, or where to.
pub proof fn request_is_kept(s: DownloadSessionView, e: DownloadEventView)
    ensures
        download_next(s, e).0.request == s.request,
        download_next(s, e).0.key == s.key,
{
}

/// A download that is over does nothing more.
pub proof fn closed_download_does_nothing(s: DownloadSessionView, e: DownloadEventView)
    requires
        s.phase == DownloadPhase::Closed,
    ensures
        download_next(s, e) == (s, DownloadActionView::Close),
{
}

/// An earlier attempt is taken up only if it was of the version that the server lists now, and then
/// where it stopped, which is inside the file. Else the download starts anew, and whatever was kept
/// is thrown away.
pub proof fn only_the_same_version_is_resumed(
    s: DownloadSessionView,
    begun: Map<Seq<char>, Seq<char>>,
    temp_size: Option<u64>,
)
    requires
        s.phase == DownloadPhase::Begun,
    ensures
        ({
            let (next, a) = download_next(s, DownloadEventView::BegunSeen { begun, temp_size });
            let same = s.request.server_hash is Some && begun.contains_key(s.key)
                && s.request.server_hash == Some(begun[s.key]);
            &&& a matches DownloadActionView::OpenTemp { truncate, record }
            &&& !truncate ==> same && temp_size == Some(next.offset) && record is None
            &&& truncate ==> next.offset == 0
            &&& same && temp_size is Some && temp_size->Some_0 <= s.request.server_size
                ==> !truncate
            &&& next.offset <= s.request.server_size
        }),
{
}

/// A file that is there already is replaced only by a forced download.
pub proof fn files_are_replaced_only_by_force(s: DownloadSessionView, e: DownloadEventView)
    ensures
        download_next(s, e).1 == (DownloadActionView::Rename { replace: true }) ==> s.request.force,
        s.phase == DownloadPhase::Finish && e == (DownloadEventView::FinalSeen { exists: true })
            && !s.request.force ==> download_next(s, e) == s.failing(
            "保存先に同名ファイルが既に存在します"@,
        ),
{
}

/// A file gets its final name only in the last steps of its download, and the download comes to
/// them only when it holds as many bytes as the server announced, or held at least as many before
/// anything was received.
pub proof fn only_complete_downloads_are_renamed(s: DownloadSessionView, e: DownloadEventView)
    ensures
        download_next(s, e).1 is Rename ==> s.phase == DownloadPhase::Finish,
        ({
            let next = download_next(s, e).0;
            next.phase == DownloadPhase::Finish ==> {
                ||| s.phase == DownloadPhase::Receive && e == DownloadEventView::Received(
                    next.total,
                )
                ||| s.phase == DownloadPhase::Parse && next.offset >= next.total > 0
            }
        }),
{
}

/// What the server sends completes a download: when the client kept the first bytes of the file, and
/// appends what lies behind the offset that it asked for, it has the whole file, and the download
/// comes to its last steps.
pub proof fn receiving_the_rest_completes_the_download(
    s: DownloadSessionView,
    line: Seq<char>,
    contents: Seq<u8>,
    server_key: Seq<char>,
    server_cache: Map<Seq<char>, FileCacheEntryView>,
)
    requires
        s.phase == DownloadPhase::Parse,
        s.offset <= contents.len() <= u64::MAX,
    ensures
        ({
            let kept = contents.take(s.offset as int);
            let whole = kept + contents.skip(s.offset as int);
            let size = contents.len() as u64;
            let header = download_answer(DownloadProbe::Open { size }, server_key, server_cache);
            let (s1, a1) = download_next(
                s,
                DownloadEventView::HeaderParsed { line, header: Ok(header) },
            );
            let (s2, a2) = download_next(s1, DownloadEventView::Received(whole.len() as u64));
            &&& whole == contents
            &&& if kept == contents && size > 0 {
                a1 is LookFinal && s1.phase == DownloadPhase::Finish
            } else {
                &&& a1 == (DownloadActionView::Receive { offset: s.offset, total: size })
                &&& a2 is LookFinal && s2.phase == DownloadPhase::Finish
            }
        }),
{
    let kept = contents.take(s.offset as int);
    assert(kept + contents.skip(s.offset as int) =~= contents);
    if s.offset == contents.len() {
        assert(kept =~= contents);
    }
}

/// When the server does not have the file, or refuses the path, the download is given up and nothing
/// is received.
pub proof fn missing_files_are_not_downloaded(
    s: DownloadSessionView,
    line: Seq<char>,
    probe: DownloadProbe,
    server_key: Seq<char>,
    server_cache: Map<Seq<char>, FileCacheEntryView>,
)
    requires
        s.phase == DownloadPhase::Parse,
        probe !is Open,
    ensures
        ({
            let header = download_answer(probe, server_key, server_cache);
            download_next(s, DownloadEventView::HeaderParsed { line, header: Ok(header) }).1
                == DownloadActionView::Fail(
                "サーバー上でファイルが見つかりません: "@ + s.request.path,
            )
        }),
{
}

/// A file that compares as synced is not downloaded again, unless that is forced.
pub proof fn synced_files_are_not_downloaded_again(
    f: LocalFileView,
    cache: Map<Seq<char>, LocalCacheEntryView>,
    state: Map<Seq<char>, Seq<char>>,
    s: DownloadSessionView,
)
    requires
        !f.item.is_dir,
        f.exists,
        f.status(cache, state) matches Some(d) && d.status == "synced"@,
        s.phase == DownloadPhase::Local,
        s.request == request_for(f.item, false),
        s.key == f.key,
    ensures
        ({
            let m = f.metadata->Some_0;
            let (s1, a1) = download_next(s, DownloadEventView::LocalSeen(Some(m.size)));
            let (_, a2) = download_next(
                s1,
                DownloadEventView::CacheLoaded(f.cache_after(cache)),
            );
            if f.item.hash is None {
                a1 == DownloadActionView::Succeed("スキップ: サイズ一致 (ハッシュなし)"@)
            } else {
                a1 is LoadCache && a2 == DownloadActionView::Succeed("スキップ: 同期済み"@)
            }
        }),
{
    reveal_strlit("synced");
    reveal_strlit("outdated");
    assert("synced"@.len() != "outdated"@.len());
}

/// A file that compares as partial is taken up where the comparison says, unless more is kept than
/// the whole file has.
pub proof fn partial_files_are_resumed(
    f: LocalFileView,
    cache: Map<Seq<char>, LocalCacheEntryView>,
    state: Map<Seq<char>, Seq<char>>,
    force: bool,
    s: DownloadSessionView,
)
    requires
        f.status(cache, state) matches Some(d) && d.status == "partial"@ && d.local_size
            <= f.item.size,
        s.phase == DownloadPhase::Begun,
        s.request == request_for(f.item, force),
        s.key == f.key,
    ensures
        ({
            let (next, a) = download_next(
                s,
                DownloadEventView::BegunSeen { begun: state, temp_size: f.temp_size },
            );
            &&& a == (DownloadActionView::OpenTemp { truncate: false, record: None })
            &&& next.offset == f.status(cache, state)->Some_0.local_size
        }),
{
    partial_means_resumable(f, cache, state);
}

/// A download that broke off can be taken up: what it wrote down when it began lets the next attempt
/// at the same version go on after the bytes that were kept.
pub proof fn broken_off_downloads_are_resumed(
    first: DownloadSessionView,
    begun: Map<Seq<char>, Seq<char>>,
    temp_size: Option<u64>,
    second: DownloadSessionView,
    kept: u64,
)
    requires
        first.phase == DownloadPhase::Begun,
        second.phase == DownloadPhase::Begun,
        first.key == second.key,
        first.request.server_hash is Some,
        first.request.server_hash == second.request.server_hash,
        kept <= second.request.server_size,
    ensures
        ({
            let (_, a) = download_next(
                first,
                DownloadEventView::BegunSeen { begun, temp_size },
            );
            let written = match a {
                DownloadActionView::OpenTemp { truncate: _, record: Some(r) } => r,
                _ => begun,
            };
            let (next, b) = download_next(
                second,
                DownloadEventView::BegunSeen { begun: written, temp_size: Some(kept) },
            );
            &&& b == (DownloadActionView::OpenTemp { truncate: false, record: None })
            &&& next.offset == kept
        }),
{
}

/// A finished download compares as synced, while the server lists the version that it announced.
pub proof fn finished_downloads_are_synced(
    s: DownloadSessionView,
    cache: Map<Seq<char>, LocalCacheEntryView>,
    f: LocalFileView,
    state: Map<Seq<char>, Seq<char>>,
)
    requires
        s.phase == DownloadPhase::Remember,
        f.key == s.key,
        f.compares_hash(),
        f.item.hash == final_hash(s),
    ensures
        ({
            let (_, a) = download_next(
                s,
                DownloadEventView::FileSeen { metadata: f.metadata, cache },
            );
            &&& a matches DownloadActionView::SaveCache(after)
            &&& !f.needs_hash(after)
            &&& f.status(after, state) matches Some(d)
            &&& d.status == "synced"@
        }),
{
}

/// A finished download is no longer among those that have begun, and the others stay.
pub proof fn finished_downloads_are_forgotten(
    s: DownloadSessionView,
    begun: Map<Seq<char>, Seq<char>>,
    temp_size: Option<u64>,
    other: Seq<char>,
)
    requires
        s.phase == DownloadPhase::Forget,
    ensures
        ({
            let (_, a) = download_next(s, DownloadEventView::BegunSeen { begun, temp_size });
            &&& a matches DownloadActionView::SaveBegun(left)
            &&& !left.contains_key(s.key)
            &&& other != s.key ==> left.contains_key(other) == begun.contains_key(other)
                && left[other] == begun[other]
        }),
{
}

/// Only files in sync are skipped. Where nothing of the listed size is there, the download goes on;
/// where something is and no hash is listed, it is skipped; else the cache decides, and the file is
/// skipped exactly when the cache has it with the listed hash and the listed size.
pub proof fn only_files_in_sync_are_skipped(
    s: DownloadSessionView,
    size: Option<u64>,
    cache: Map<Seq<char>, LocalCacheEntryView>,
)
    ensures
        s.phase == DownloadPhase::Local ==> {
            let (next, a) = download_next(s, DownloadEventView::LocalSeen(size));
            let same_size = size == Some(s.request.server_size);
            &&& !same_size ==> a is LookBegun && next.phase == DownloadPhase::Begun
            &&& same_size && s.request.server_hash is None ==> a is Succeed && next.phase
                == DownloadPhase::Closed
            &&& same_size && s.request.server_hash is Some ==> a is LoadCache && next.phase
                == DownloadPhase::Cache
            &&& a is Succeed ==> a == DownloadActionView::Succeed(
                "スキップ: サイズ一致 (ハッシュなし)"@,
            )
        },
        s.phase == DownloadPhase::Cache ==> {
            let (next, a) = download_next(s, DownloadEventView::CacheLoaded(cache));
            let in_sync = cache.contains_key(s.key) && s.request.server_hash == Some(
                cache[s.key].hash,
            ) && s.request.server_size == cache[s.key].size;
            &&& in_sync ==> a == DownloadActionView::Succeed("スキップ: 同期済み"@) && next.phase
                == DownloadPhase::Closed
            &&& !in_sync ==> a is LookBegun && next.phase == DownloadPhase::Begun
        },
{
}

/// A download ends well only if it was skipped or after its file got its final name.
pub proof fn downloads_succeed_only_when_done(s: DownloadSessionView, e: DownloadEventView)
    ensures
        download_next(s, e).1 is Succeed ==> {
            ||| s.phase == DownloadPhase::Local && e == DownloadEventView::LocalSeen(
                Some(s.request.server_size),
            ) && s.request.server_hash is None
            ||| s.phase == DownloadPhase::Cache && e is CacheLoaded
            ||| s.phase == DownloadPhase::Forgotten && e is Done
            ||| s.phase == DownloadPhase::Remember && e is FileSeen
            ||| s.phase == DownloadPhase::Remembered && e is Done
        },
        download_next(s, e).0.phase == DownloadPhase::Forgotten ==> s.phase
            == DownloadPhase::Forget && download_next(s, e).1 is SaveBegun,
        download_next(s, e).0.phase == DownloadPhase::Forget ==> s.phase == DownloadPhase::Rename
            && e is Done,
        download_next(s, e).0.phase == DownloadPhase::Remember ==> s.phase
            == DownloadPhase::Forgotten && e is Done,
        download_next(s, e).0.phase == DownloadPhase::Remembered ==> s.phase
            == DownloadPhase::Remember && download_next(s, e).1 is SaveCache,
{
}

/// A download that is forced looks at no file that is there, and any other looks first.
pub proof fn only_forced_downloads_do_not_look(s: DownloadSessionView)
    requires
        s.phase == DownloadPhase::Parent,
    ensures
        ({
            let (next, a) = download_next(s, DownloadEventView::Done);
            if s.request.force {
                a is LookBegun && next.phase == DownloadPhase::Begun
            } else {
                a is LookLocal && next.phase == DownloadPhase::Local
            }
        }),
{
}

/// What a download knows changes only where it is learned: the offset when an earlier attempt was
/// looked for, size and hash when the server answered.
pub proof fn downloads_remember_what_they_know(s: DownloadSessionView, e: DownloadEventView)
    ensures
        ({
            let next = download_next(s, e).0;
            &&& next.request == s.request
            &&& next.key == s.key
            &&& s.phase != DownloadPhase::Begun ==> next.offset == s.offset
            &&& s.phase != DownloadPhase::Parse ==> next.total == s.total && next.hash == s.hash
        }),
{
}

/// An earlier attempt is taken up exactly when it was of the listed version and holds no more than
/// the whole file: then the download goes on after what it holds and nothing is written down. Else
/// the file is begun anew, and that is written down for the listed hash, if there is one. What is
/// written down of other files stays.
pub proof fn attempts_are_taken_up_or_begun_anew(
    s: DownloadSessionView,
    begun: Map<Seq<char>, Seq<char>>,
    temp_size: Option<u64>,
    other: Seq<char>,
)
    requires
        s.phase == DownloadPhase::Begun,
    ensures
        ({
            let (next, a) = download_next(s, DownloadEventView::BegunSeen { begun, temp_size });
            let listed = s.request.server_hash;
            let same_version = listed is Some && begun.contains_key(s.key) && begun[s.key]
                == listed->Some_0;
            let fits = temp_size is Some && temp_size->Some_0 <= s.request.server_size;
            &&& next.phase == DownloadPhase::Open
            &&& a matches DownloadActionView::OpenTemp { truncate, record }
            &&& same_version && fits ==> !truncate && next.offset == temp_size->Some_0
                && record is None
            &&& !(same_version && fits) ==> truncate && next.offset == 0
            &&& !(same_version && fits) ==> (record is Some <==> listed is Some)
            &&& record matches Some(written) ==> {
                &&& written.contains_key(s.key) && Some(written[s.key]) == listed
                &&& other != s.key ==> written.contains_key(other) == begun.contains_key(other)
                    && written[other] == begun[other]
            }
        }),
{
}

/// The server is asked for the requested path, from the offset on that the download goes on at, and
/// its answer is read and parsed as it came, unless it is blank.
pub proof fn server_is_asked_for_the_rest(s: DownloadSessionView, line: Seq<char>)
    requires
        s.phase == DownloadPhase::Open,
    ensures
        ({
            let (s1, a1) = download_next(s, DownloadEventView::Done);
            let (s2, a2) = download_next(s1, DownloadEventView::Done);
            let (s3, a3) = download_next(s2, DownloadEventView::Done);
            let (s4, a4) = download_next(s3, DownloadEventView::HeaderRead(line));
            let blank = forall|i: int|
                0 <= i < line.len() ==> CharClass::Whitespace.has(#[trigger] line[i]);
            &&& a1 is Connect
            &&& a2 == DownloadActionView::Send(
                TransferCommandView::Download { path: s.request.path, offset: s.offset },
            )
            &&& a3 is ReadHeader
            &&& !blank ==> a4 == DownloadActionView::ParseHeader(line) && s4.phase
                == DownloadPhase::Parse
            &&& blank ==> a4 == DownloadActionView::Fail(
                "サーバーから空の応答が返ってきました"@,
            ) && s4.phase == DownloadPhase::Closed
        }),
{
    only_blank_text_is_trimmed_to_nothing(line, CharClass::Whitespace);
}

/// A file that the server has is received from the offset on up to the announced size, unless all
/// of it is there already.
pub proof fn announced_files_are_received(
    s: DownloadSessionView,
    line: Seq<char>,
    size: u64,
    hash: Option<Seq<char>>,
)
    requires
        s.phase == DownloadPhase::Parse,
    ensures
        ({
            let header = DownloadStartResponseView { found: true, size, hash };
            let (next, a) = download_next(
                s,
                DownloadEventView::HeaderParsed { line, header: Ok(header) },
            );
            &&& next.total == size && next.hash == hash
            &&& s.offset < size || size == 0 ==> a == (DownloadActionView::Receive {
                offset: s.offset,
                total: size,
            }) && next.phase == DownloadPhase::Receive
            &&& size > 0 && s.offset >= size ==> a is LookFinal && next.phase
                == DownloadPhase::Finish
        }),
{
}

/// A file that the server does not have ends the download, whatever else the answer holds, and so
/// does an answer that cannot be read.
pub proof fn other_answers_end_the_download(
    s: DownloadSessionView,
    line: Seq<char>,
    size: u64,
    hash: Option<Seq<char>>,
    reason: Seq<char>,
)
    requires
        s.phase == DownloadPhase::Parse,
    ensures
        ({
            let header = DownloadStartResponseView { found: false, size, hash };
            let (s1, a1) = download_next(
                s,
                DownloadEventView::HeaderParsed { line, header: Ok(header) },
            );
            let (s2, a2) = download_next(
                s,
                DownloadEventView::HeaderParsed { line, header: Err(reason) },
            );
            &&& s1.phase == DownloadPhase::Closed
            &&& a1 == DownloadActionView::Fail(
                "サーバー上でファイルが見つかりません: "@ + s.request.path,
            )
            &&& s2.phase == DownloadPhase::Closed
            &&& a2 == DownloadActionView::Fail(
                "ヘッダー解析エラー (受信データ: "@ + line + "): "@ + reason,
            )
        }),
{
}

/// A file is finished only once it has the announced size; what stands at its final place is
/// replaced by force only.
pub proof fn received_files_are_finished(s: DownloadSessionView, size: u64, there: bool)
    ensures
        s.phase == DownloadPhase::Receive ==> {
            let (next, a) = download_next(s, DownloadEventView::Received(size));
            &&& size == s.total ==> a is LookFinal && next.phase == DownloadPhase::Finish
            &&& size != s.total ==> next.phase == DownloadPhase::Closed && a
                == DownloadActionView::Fail(
                "中断: "@ + decimal_text(size as nat) + "/"@ + decimal_text(s.total as nat)
                    + " bytes"@,
            )
        },
        s.phase == DownloadPhase::Finish ==> {
            let (next, a) = download_next(s, DownloadEventView::FinalSeen { exists: there });
            &&& !there || s.request.force ==> a == (DownloadActionView::Rename {
                replace: there,
            }) && next.phase == DownloadPhase::Rename
            &&& there && !s.request.force ==> next.phase == DownloadPhase::Closed && a
                == DownloadActionView::Fail("保存先に同名ファイルが既に存在します"@)
        },
{
}

/// A file that got its final name is no longer among the downloads that have begun, and is
/// remembered with its size, its time of change and the hash that the server announced, or else
/// listed. Where neither is known, or the file cannot be looked at, nothing is remembered. What is
/// written down of other files stays. Either way the download ends well.
pub proof fn finished_files_are_remembered(
    s: DownloadSessionView,
    begun: Map<Seq<char>, Seq<char>>,
    temp_size: Option<u64>,
    metadata: Option<LocalMetadata>,
    cache: Map<Seq<char>, LocalCacheEntryView>,
    other: Seq<char>,
)
    requires
        s.phase == DownloadPhase::Rename,
    ensures
        ({
            let (s1, a1) = download_next(s, DownloadEventView::Done);
            let (s2, a2) = download_next(s1, DownloadEventView::BegunSeen { begun, temp_size });
            let (s3, a3) = download_next(s2, DownloadEventView::Done);
            let (s4, a4) = download_next(s3, DownloadEventView::FileSeen { metadata, cache });
            let (s5, a5) = download_next(s4, DownloadEventView::Done);
            let done = DownloadActionView::Succeed("ダウンロード完了"@);
            &&& a1 is LoadBegun
            &&& a2 == DownloadActionView::SaveBegun(begun.remove(s.key))
            &&& s.hash is None && s.request.server_hash is None ==> a3 == done && s3.phase
                == DownloadPhase::Closed
            &&& s.hash is Some || s.request.server_hash is Some ==> {
                &&& a3 is LookFile
                &&& metadata is None ==> a4 == done && s4.phase == DownloadPhase::Closed
                &&& metadata matches Some(m) ==> {
                    &&& a4 matches DownloadActionView::SaveCache(after)
                    &&& after.contains_key(s.key)
                    &&& after[s.key].size == m.size && after[s.key].modified_ts == m.modified_ts
                    &&& s.hash matches Some(h) ==> after[s.key].hash == h
                    &&& s.hash is None ==> Some(after[s.key].hash) == s.request.server_hash
                    &&& other != s.key ==> after.contains_key(other) == cache.contains_key(other)
                        && after[other] == cache[other]
                    &&& a5 == done && s5.phase == DownloadPhase::Closed
                }
            }
        }),
{
}

/// Whatever fails ends the download, with what failed and the reason for it.
pub proof fn failures_end_the_download(
    s: DownloadSessionView,
    from: Seq<char>,
    to: Seq<char>,
    reason: Seq<char>,
)
    ensures
        ({
            let (next, a) = download_next(s, DownloadEventView::Failed(reason));
            &&& next.phase == DownloadPhase::Closed
            &&& s.phase == DownloadPhase::Parent ==> a == DownloadActionView::Fail(
                "ディレクトリ作成失敗: "@ + reason,
            )
            &&& s.phase == DownloadPhase::Open ==> a == DownloadActionView::Fail(
                "Temp file open error: "@ + reason,
            )
            &&& s.phase == DownloadPhase::Connect ==> a == DownloadActionView::Fail(
                "サーバー接続失敗: "@ + reason,
            )
            &&& s.phase == DownloadPhase::Header ==> a == DownloadActionView::Fail(
                "ヘッダー受信エラー: "@ + reason,
            )
            &&& s.phase == DownloadPhase::Send || s.phase == DownloadPhase::Receive ==> a
                == DownloadActionView::Fail(reason)
        }),
        s.phase == DownloadPhase::Receive ==> {
            let (next, a) = download_next(s, DownloadEventView::FlushFailed(reason));
            &&& next.phase == DownloadPhase::Closed
            &&& a == DownloadActionView::Fail("書き込みフラッシュエラー: "@ + reason)
        },
        s.phase == DownloadPhase::Rename ==> {
            let (next, a) = download_next(s, DownloadEventView::RenameFailed { from, to, reason });
            &&& next.phase == DownloadPhase::Closed
            &&& a == DownloadActionView::Fail(
                "リネーム失敗 ("@ + from + " -> "@ + to + "): "@ + reason,
            )
        },
{
}

/// An event that does not belong to the last action closes the download, and nothing is done.
pub proof fn stray_events_close_the_download(s: DownloadSessionView, e: DownloadEventView)
    ensures
        ({
            let (next, a) = download_next(s, e);
            let fits = match e {
                DownloadEventView::Done => {
                    s.phase == DownloadPhase::Parent || s.phase == DownloadPhase::Open || s.phase
                        == DownloadPhase::Connect || s.phase == DownloadPhase::Send || s.phase
                        == DownloadPhase::Rename || s.phase == DownloadPhase::Forgotten || s.phase
                        == DownloadPhase::Remembered
                },
                DownloadEventView::Failed(_) => {
                    s.phase == DownloadPhase::Parent || s.phase == DownloadPhase::Open || s.phase
                        == DownloadPhase::Connect || s.phase == DownloadPhase::Send || s.phase
                        == DownloadPhase::Header || s.phase == DownloadPhase::Receive
                },
                DownloadEventView::LocalSeen(_) => s.phase == DownloadPhase::Local,
                DownloadEventView::CacheLoaded(_) => s.phase == DownloadPhase::Cache,
                DownloadEventView::BegunSeen { begun: _, temp_size: _ } => {
                    s.phase == DownloadPhase::Begun || s.phase == DownloadPhase::Forget
                },
                DownloadEventView::HeaderRead(_) => s.phase == DownloadPhase::Header,
                DownloadEventView::HeaderParsed { line: _, header: _ } => s.phase
                    == DownloadPhase::Parse,
                DownloadEventView::Received(_) => s.phase == DownloadPhase::Receive,
                DownloadEventView::FlushFailed(_) => s.phase == DownloadPhase::Receive,
                DownloadEventView::FinalSeen { exists: _ } => s.phase == DownloadPhase::Finish,
                DownloadEventView::RenameFailed { from: _, to: _, reason: _ } => s.phase
                    == DownloadPhase::Rename,
                DownloadEventView::FileSeen { metadata: _, cache: _ } => s.phase
                    == DownloadPhase::Remember,
            };
            &&& !fits ==> a is Close && next.phase == DownloadPhase::Closed
            &&& fits ==> a !is Close
        }),
{
}

/// A listed file is requested by its path, with the size and the hash that are listed.
pub proof fn files_are_requested_as_listed(item: FileItemView, force: bool)
    ensures
        ({
            let r = request_for(item, force);
            &&& r.path == item.path
            &&& r.server_hash == item.hash
            &&& r.server_size == item.size
            &&& r.force == force
        }),
{
}

impl DownloadRequest {
    /// The request for a listed file. A file that is there already is not replaced.
    pub fn of_item(item: &FileItem) -> (r: DownloadRequest)
        ensures
            r@ == request_for(item@, false),
    {
        DownloadRequest {
            path: item.path.clone(),
            server_hash: item.hash.clone(),
            server_size: item.size,
            force: false,
        }
    }
}

/// The download of several files, one after the other.
pub struct FolderDownload {
    pub files: Vec<FileItem>,
    /// How many files were downloaded.
    pub done: usize,
}

/// The download of several files as a mathematical value.
pub struct FolderDownloadView {
    pub files: Seq<FileItemView>,
    pub done: int,
}

impl View for FolderDownload {
    type V = FolderDownloadView;

    open spec fn view(&self) -> FolderDownloadView {
        FolderDownloadView {
            files: item_views(self.files@),
            done: self.done as int,
        }
    }
}

/// What is to be done next for the download of several files.
pub enum FolderAction {
    /// Download this file.
    Fetch(DownloadRequest),
    /// All are there.
    Succeed(String),
    /// One could not be downloaded, and the rest is left.
    Fail(String),
}

/// An action of the download of several files as a mathematical value.
pub enum FolderActionView {
    Fetch(DownloadRequestView),
    Succeed(Seq<char>),
    Fail(Seq<char>),
}

impl View for FolderAction {
    type V = FolderActionView;

    open spec fn view(&self) -> FolderActionView {
        match self {
            FolderAction::Fetch(r) => FolderActionView::Fetch(r@),
            FolderAction::Succeed(m) => FolderActionView::Succeed(m@),
            FolderAction::Fail(m) => FolderActionView::Fail(m@),
        }
    }
}

/// What is done after as many files as `s` says.
pub open spec fn folder_action(s: FolderDownloadView) -> FolderActionView {
    if s.done < s.files.len() {
        FolderActionView::Fetch(request_for(s.files[s.done], false))
    } else {
        FolderActionView::Succeed(
            "フォルダ内の全 "@ + decimal_text(s.files.len()) + " 個のファイルの処理が完了しました"@,
        )
    }
}

/// The action that follows the download of a file, which may have failed for a reason, and the
/// download of the files then.
pub open spec fn folder_next(s: FolderDownloadView, error: Option<Seq<char>>) -> (
    FolderDownloadView,
    FolderActionView,
) {
    match error {
        None => {
            let next = FolderDownloadView { files: s.files, done: s.done + 1 };
            (next, folder_action(next))
        },
        Some(reason) => (
            s,
            FolderActionView::Fail(
                "ファイル '"@ + s.files[s.done].path + "' でエラー発生: "@ + reason,
            ),
        ),
    }
}

impl FolderDownload {
    /// Begins with the first file.
    pub fn start(files: Vec<FileItem>) -> (r: (FolderDownload, FolderAction))
        ensures
            r.0@ == (FolderDownloadView { files: item_views(files@), done: 0 }),
            r.1@ == folder_action(r.0@),
    {
        let s = FolderDownload { files, done: 0 };
        let a = s.action();
        (s, a)
    }

    fn action(&self) -> (r: FolderAction)
        ensures
            r@ == folder_action(self@),
    {
        if self.done < self.files.len() {
            FolderAction::Fetch(DownloadRequest::of_item(&self.files[self.done]))
        } else {
            let text = append("フォルダ内の全 ", decimal(self.files.len() as u64).as_str());
            FolderAction::Succeed(
                append(text.as_str(), " 個のファイルの処理が完了しました"),
            )
        }
    }

    /// Goes on after the download of a file, which may have failed for a reason.
    pub fn step(&mut self, error: &Option<String>) -> (r: FolderAction)
        requires
            old(self)@.done < old(self)@.files.len(),
        ensures
            (final(self)@, r@) == folder_next(old(self)@, opt_text(*error)),
    {
        match error {
            None => {
                let n: usize = self.files.len();
                assert(self.done < n);
                self.done = self.done + 1;
                self.action()
            },
            Some(reason) => {
                let text = append("ファイル '", self.files[self.done].path.as_str());
                let text = append(text.as_str(), "' でエラー発生: ");
                FolderAction::Fail(append(text.as_str(), reason.as_str()))
            },
        }
    }
}

/// The download of several files after `n` of them were downloaded.
pub open spec fn folder_after(files: Seq<FileItemView>, n: nat) -> (
    FolderDownloadView,
    FolderActionView,
)
    decreases n,
{
    if n == 0 {
        let s = FolderDownloadView { files, done: 0 };
        (s, folder_action(s))
    } else {
        folder_next(folder_after(files, (n - 1) as nat).0, None)
    }
}

/// While no download fails, the files are downloaded in their order, each once, and then the folder
/// is done.
pub proof fn folder_is_downloaded_in_order(files: Seq<FileItemView>, n: nat)
    requires
        n <= files.len(),
    ensures
        folder_after(files, n).0 == (FolderDownloadView { files, done: n as int }),
        n < files.len() ==> folder_after(files, n).1 == FolderActionView::Fetch(
            request_for(files[n as int], false),
        ),
        n == files.len() ==> folder_after(files, n).1 is Succeed,
    decreases n,
{
    if n > 0 {
        folder_is_downloaded_in_order(files, (n - 1) as nat);
    }
}

/// A folder is done when none of its files is left, and each file is asked for without force. When
/// a file cannot be downloaded, the folder is given up with its path and the reason; else the next
/// one follows.
pub proof fn folders_stop_at_the_first_failure(s: FolderDownloadView, reason: Seq<char>)
    requires
        0 <= s.done <= s.files.len(),
    ensures
        s.done < s.files.len() ==> folder_action(s) == FolderActionView::Fetch(
            DownloadRequestView {
                path: s.files[s.done].path,
                server_hash: s.files[s.done].hash,
                server_size: s.files[s.done].size,
                force: false,
            },
        ),
        s.done == s.files.len() ==> folder_action(s) == FolderActionView::Succeed(
            "フォルダ内の全 "@ + decimal_text(s.files.len()) + " 個のファイルの処理が完了しました"@,
        ),
        s.done < s.files.len() ==> folder_next(s, Some(reason)) == (
            s,
            FolderActionView::Fail(
                "ファイル '"@ + s.files[s.done].path + "' でエラー発生: "@ + reason,
            ),
        ),
        s.done < s.files.len() ==> {
            let (next, a) = folder_next(s, None);
            &&& next.files == s.files
            &&& next.done == s.done + 1
            &&& a == folder_action(next)
        },
{
}

} // verus!
