//! What the server does with the commands of a client.

use vstd::prelude::*;

use crate::access::{allowed, AccessControl};
use crate::listing::{
    cache_view, distinct_keys, lemma_hash_is_remembered, scanned_cache, FileCacheEntry,
    FileCacheEntryView, ScanEntryView,
};
use crate::paths::{joined, name_views};
use crate::proto::{
    DownloadStartResponse, DownloadStartResponseView, UploadResponse, UploadResponseView,
};
use crate::table::Table;
use crate::text::{append, opt_text, replaced, same_text, trim, trimmed, CharClass};

verus! {

/// How far the server got with a file that a client wants.
#[derive(Clone, Copy, PartialEq, Eq, Structural, Debug)]
pub enum DownloadProbe {
    /// The path is refused.
    Refused,
    /// The file cannot be opened.
    Missing,
    /// The file cannot be read from the offset on.
    Unseekable,
    /// The file is open at the offset and has this size.
    Open { size: u64 },
}

/// The answer to a download. The hash is the one that the cache has for the path.
pub open spec fn download_answer(
    probe: DownloadProbe,
    key: Seq<char>,
    cache: Map<Seq<char>, FileCacheEntryView>,
) -> DownloadStartResponseView {
    match probe {
        DownloadProbe::Open { size } => DownloadStartResponseView {
            found: true,
            size,
            hash: if cache.contains_key(key) {
                Some(cache[key].hash)
            } else {
                None
            },
        },
        _ => DownloadStartResponseView { found: false, size: 0, hash: None },
    }
}

/// Answers a download of the file that the cache knows as `key`. The contents follow exactly when
/// the file was found.
pub fn answer_download(probe: &DownloadProbe, key: &str, cache: &Table<FileCacheEntry>) -> (r:
    DownloadStartResponse)
    ensures
        r@ == download_answer(*probe, key@, cache_view(cache@)),
{
    match probe {
        DownloadProbe::Open { size } => {
            let hash = match cache.get(key) {
                Some(e) => Some(e.hash.clone()),
                None => None,
            };
            DownloadStartResponse { found: true, size: *size, hash }
        },
        _ => DownloadStartResponse { found: false, size: 0, hash: None },
    }
}

/// A download is announced with the hash that the last scan listed for the file.
pub proof fn download_is_announced_with_listed_hash(
    entries: Seq<ScanEntryView>,
    cache: Map<Seq<char>, FileCacheEntryView>,
    i: int,
    size: u64,
)
    requires
        distinct_keys(entries),
        0 <= i < entries.len(),
        entries[i].listed_hash(scanned_cache(entries.take(i), cache)) is Some,
    ensures
        download_answer(
            DownloadProbe::Open { size },
            entries[i].key,
            scanned_cache(entries, cache),
        ).hash == entries[i].listed_hash(scanned_cache(entries.take(i), cache)),
{
    lemma_hash_is_remembered(entries, cache, i);
}

/// Tells whether everything from `offset` on was sent of a file of `total` bytes.
pub fn download_complete(total: u64, offset: u64, sent: u64) -> (r: bool)
    requires
        offset <= total,
    ensures
        r == (offset + sent == total),
{
    sent == total - offset
}

/// The answer to an upload that is not allowed.
pub open spec fn upload_denied() -> UploadResponseView {
    UploadResponseView {
        status: "denied"@,
        start_offset: 0,
        message: Some("権限がありません(パスワード不一致)"@),
    }
}

/// The answer to an upload that starts at `offset`.
pub open spec fn upload_ready(offset: u64) -> UploadResponseView {
    UploadResponseView { status: "ready"@, start_offset: offset, message: None }
}

/// Where an upload stands.
#[derive(Clone, Copy, PartialEq, Eq, Structural, Debug)]
pub enum UploadPhase {
    /// The directory is being made.
    Parent,
    /// The hash of an earlier attempt is being read.
    SavedHash,
    /// The partial file is being opened.
    Open,
    /// The client is being told where to start.
    Answer,
    /// The contents are being received.
    Receive,
    /// The partial file is being renamed.
    Rename,
    /// Nothing is left to do.
    Closed,
}

/// An upload on its way.
pub struct UploadSession {
    pub total_size: u64,
    pub hash: Option<String>,
    pub phase: UploadPhase,
}

/// An upload on its way as a mathematical value.
pub struct UploadSessionView {
    pub total_size: u64,
    pub hash: Option<Seq<char>>,
    pub phase: UploadPhase,
}

impl View for UploadSession {
    type V = UploadSessionView;

    open spec fn view(&self) -> UploadSessionView {
        UploadSessionView {
            total_size: self.total_size,
            hash: opt_text(self.hash),
            phase: self.phase,
        }
    }
}

/// What became of the last action of an upload.
pub enum UploadEvent {
    /// Whether the directory exists now.
    ParentMade(bool),
    /// The hash that an earlier attempt left, where it can be read.
    SavedHash(Option<String>),
    /// The size of the partial file, where it could be opened.
    Opened(Option<u64>),
    /// Whether the answer was sent.
    Answered(bool),
    /// The size of the partial file after the client closed its side, unless receiving failed.
    Received(Option<u64>),
    /// Whether the partial file has its final name now.
    Renamed(bool),
}

/// An event of an upload as a mathematical value.
pub enum UploadEventView {
    ParentMade(bool),
    SavedHash(Option<Seq<char>>),
    Opened(Option<u64>),
    Answered(bool),
    Received(Option<u64>),
    Renamed(bool),
}

impl View for UploadEvent {
    type V = UploadEventView;

    open spec fn view(&self) -> UploadEventView {
        match self {
            UploadEvent::ParentMade(b) => UploadEventView::ParentMade(*b),
            UploadEvent::SavedHash(h) => UploadEventView::SavedHash(opt_text(*h)),
            UploadEvent::Opened(n) => UploadEventView::Opened(*n),
            UploadEvent::Answered(b) => UploadEventView::Answered(*b),
            UploadEvent::Received(n) => UploadEventView::Received(*n),
            UploadEvent::Renamed(b) => UploadEventView::Renamed(*b),
        }
    }
}

/// What is to be done next for an upload.
pub enum UploadAction {
    /// Make the directory of the file.
    MakeParent,
    /// Read the hash that an earlier attempt left.
    ReadSavedHash,
    /// Remove the partial file and the hash of an earlier attempt if `discard`, write down the
    /// hash in `record`, and open the partial file.
    OpenPartial { discard: bool, record: Option<String> },
    /// Empty the partial file if `truncate`, go to `offset` in it and send the answer.
    Answer { truncate: bool, offset: u64, response: UploadResponse },
    /// Append what the client sends.
    Receive,
    /// Give the partial file its final name.
    Rename,
    /// Remove the recorded hash, and close.
    RemoveSavedHash,
    /// Close. What was received is kept.
    Close,
}

/// An action of an upload as a mathematical value.
pub enum UploadActionView {
    MakeParent,
    ReadSavedHash,
    OpenPartial { discard: bool, record: Option<Seq<char>> },
    Answer { truncate: bool, offset: u64, response: UploadResponseView },
    Receive,
    Rename,
    RemoveSavedHash,
    Close,
}

impl View for UploadAction {
    type V = UploadActionView;

    open spec fn view(&self) -> UploadActionView {
        match self {
            UploadAction::MakeParent => UploadActionView::MakeParent,
            UploadAction::ReadSavedHash => UploadActionView::ReadSavedHash,
            UploadAction::OpenPartial { discard, record } => UploadActionView::OpenPartial {
                discard: *discard,
                record: opt_text(*record),
            },
            UploadAction::Answer { truncate, offset, response } => UploadActionView::Answer {
                truncate: *truncate,
                offset: *offset,
                response: response@,
            },
            UploadAction::Receive => UploadActionView::Receive,
            UploadAction::Rename => UploadActionView::Rename,
            UploadAction::RemoveSavedHash => UploadActionView::RemoveSavedHash,
            UploadAction::Close => UploadActionView::Close,
        }
    }
}

/// Whether a partial file belongs to another version of the file: both hashes are known and differ
/// in more than the white space around them.
pub open spec fn is_stale(hash: Option<Seq<char>>, saved: Option<Seq<char>>) -> bool {
    match (hash, saved) {
        (Some(h), Some(s)) => trimmed(s, CharClass::Whitespace) != trimmed(
            h,
            CharClass::Whitespace,
        ),
        _ => false,
    }
}

/// Where an upload goes on: after what the partial file holds, or from the start when that is more
/// than the whole file.
pub open spec fn resume_offset(partial: u64, total: u64) -> u64 {
    if partial > total {
        0
    } else {
        partial
    }
}

/// The action that follows an event, and the phase that the upload is in then.
pub open spec fn upload_next(s: UploadSessionView, e: UploadEventView) -> (
    UploadPhase,
    UploadActionView,
) {
    match (s.phase, e) {
        (UploadPhase::Parent, UploadEventView::ParentMade(true)) => if s.hash is Some {
            (UploadPhase::SavedHash, UploadActionView::ReadSavedHash)
        } else {
            (UploadPhase::Open, UploadActionView::OpenPartial { discard: false, record: None })
        },
        (UploadPhase::SavedHash, UploadEventView::SavedHash(saved)) => (
            UploadPhase::Open,
            UploadActionView::OpenPartial { discard: is_stale(s.hash, saved), record: s.hash },
        ),
        (UploadPhase::Open, UploadEventView::Opened(Some(partial))) => (
            UploadPhase::Answer,
            UploadActionView::Answer {
                truncate: partial > s.total_size,
                offset: resume_offset(partial, s.total_size),
                response: upload_ready(resume_offset(partial, s.total_size)),
            },
        ),
        (UploadPhase::Answer, UploadEventView::Answered(true)) => (
            UploadPhase::Receive,
            UploadActionView::Receive,
        ),
        (UploadPhase::Receive, UploadEventView::Received(Some(size))) => if size == s.total_size {
            (UploadPhase::Rename, UploadActionView::Rename)
        } else {
            (UploadPhase::Closed, UploadActionView::Close)
        },
        (UploadPhase::Rename, UploadEventView::Renamed(true)) => (
            UploadPhase::Closed,
            UploadActionView::RemoveSavedHash,
        ),
        _ => (UploadPhase::Closed, UploadActionView::Close),
    }
}

impl UploadSession {
    /// Begins an upload to the place that `names` lead to: the first action is to make the
    /// directory. An upload that is not allowed is answered instead.
    pub fn begin(
        names: &Vec<String>,
        total_size: u64,
        auth_key: &Option<String>,
        hash: Option<String>,
        admin_password: &Option<String>,
    ) -> (r: Result<UploadSession, UploadResponse>)
        ensures
            ({
                let path = replaced(joined(name_views(names@)), '\\', '/');
                let may = allowed(path, opt_text(*auth_key), opt_text(*admin_password));
                match r {
                    Ok(s) => may && s@ == (UploadSessionView {
                        total_size,
                        hash: opt_text(hash),
                        phase: UploadPhase::Parent,
                    }),
                    Err(a) => !may && a@ == upload_denied(),
                }
            }),
    {
        if AccessControl::check(names, auth_key, admin_password) {
            Ok(UploadSession { total_size, hash, phase: UploadPhase::Parent })
        } else {
            Err(
                UploadResponse {
                    status: "denied".to_owned(),
                    start_offset: 0,
                    message: Some("権限がありません(パスワード不一致)".to_owned()),
                },
            )
        }
    }

    /// Takes the next step of an upload.
    pub fn step(&mut self, event: &UploadEvent) -> (r: UploadAction)
        ensures
            (final(self)@.phase, r@) == upload_next(old(self)@, event@),
            final(self)@.total_size == old(self)@.total_size,
            final(self)@.hash == old(self)@.hash,
    {
        match (self.phase, event) {
            (UploadPhase::Parent, UploadEvent::ParentMade(true)) => {
                if self.hash.is_some() {
                    self.phase = UploadPhase::SavedHash;
                    UploadAction::ReadSavedHash
                } else {
                    self.phase = UploadPhase::Open;
                    UploadAction::OpenPartial { discard: false, record: None }
                }
            },
            (UploadPhase::SavedHash, UploadEvent::SavedHash(saved)) => {
                let discard = match (&self.hash, saved) {
                    (Some(h), Some(s)) => {
                        let h = trim(h.as_str(), CharClass::Whitespace);
                        let s = trim(s.as_str(), CharClass::Whitespace);
                        !same_text(s.as_str(), h.as_str())
                    },
                    _ => false,
                };
                self.phase = UploadPhase::Open;
                UploadAction::OpenPartial { discard, record: self.hash.clone() }
            },
            (UploadPhase::Open, UploadEvent::Opened(Some(partial))) => {
                let truncate = *partial > self.total_size;
                let offset: u64 = if truncate {
                    0
                } else {
                    *partial
                };
                self.phase = UploadPhase::Answer;
                UploadAction::Answer {
                    truncate,
                    offset,
                    response: UploadResponse {
                        status: "ready".to_owned(),
                        start_offset: offset,
                        message: None,
                    },
                }
            },
            (UploadPhase::Answer, UploadEvent::Answered(true)) => {
                self.phase = UploadPhase::Receive;
                UploadAction::Receive
            },
            (UploadPhase::Receive, UploadEvent::Received(Some(size))) => {
                if *size == self.total_size {
                    self.phase = UploadPhase::Rename;
                    UploadAction::Rename
                } else {
                    self.phase = UploadPhase::Closed;
                    UploadAction::Close
                }
            },
            (UploadPhase::Rename, UploadEvent::Renamed(true)) => {
                self.phase = UploadPhase::Closed;
                UploadAction::RemoveSavedHash
            },
            _ => {
                self.phase = UploadPhase::Closed;
                UploadAction::Close
            },
        }
    }
}

/// An upload gets its final name only when the partial file has the size that the client announced.
pub proof fn only_complete_uploads_are_renamed(s: UploadSessionView, e: UploadEventView)
    ensures
        upload_next(s, e).1 is Rename <==> s.phase == UploadPhase::Receive && e
            == UploadEventView::Received(Some(s.total_size)),
{
}

/// The client is never told to start beyond the end of its file, and what the server keeps of the
/// partial file is exactly what lies before the offset.
pub proof fn uploads_resume_inside_the_file(s: UploadSessionView, partial: u64)
    requires
        s.phase == UploadPhase::Open,
    ensures
        ({
            let (_, a) = upload_next(s, UploadEventView::Opened(Some(partial)));
            &&& a matches UploadActionView::Answer { truncate, offset, response }
            &&& offset <= s.total_size
            &&& response == upload_ready(offset)
            &&& offset == if truncate {
                0
            } else {
                partial
            }
        }),
{
}

/// When the client sends everything from the offset on that it was told, the upload is complete.
pub proof fn sending_the_rest_completes_the_upload(s: UploadSessionView, partial: u64, sent: u64)
    requires
        resume_offset(partial, s.total_size) + sent == s.total_size,
        s.phase == UploadPhase::Receive,
    ensures
        upload_next(
            s,
            UploadEventView::Received(Some((resume_offset(partial, s.total_size) + sent) as u64)),
        ) == (UploadPhase::Rename, UploadActionView::Rename),
{
}

/// A partial file of another version of the file is thrown away before the upload goes on; one of
/// the same version is kept.
pub proof fn stale_partial_files_are_discarded(
    s: UploadSessionView,
    hash: Seq<char>,
    saved: Seq<char>,
)
    requires
        s.phase == UploadPhase::SavedHash,
        s.hash == Some(hash),
    ensures
        upload_next(s, UploadEventView::SavedHash(Some(saved))).1 == (
        UploadActionView::OpenPartial {
            discard: trimmed(saved, CharClass::Whitespace) != trimmed(hash, CharClass::Whitespace),
            record: Some(hash),
        }),
        hash == saved ==> !is_stale(s.hash, Some(saved)),
{
}

/// The answer to a change that is not allowed.
pub open spec fn change_denied() -> Seq<char> {
    "権限エラー: パスワードが違います"@
}

/// Judges a change to the place that `names` lead to: nothing where it is allowed, the answer to the
/// client where it is not.
pub fn deny_change(
    names: &Vec<String>,
    auth_key: &Option<String>,
    admin_password: &Option<String>,
) -> (r: Option<&'static str>)
    ensures
        ({
            let path = replaced(joined(name_views(names@)), '\\', '/');
            let may = allowed(path, opt_text(*auth_key), opt_text(*admin_password));
            match r {
                None => may,
                Some(a) => !may && a@ == change_denied(),
            }
        }),
{
    if AccessControl::check(names, auth_key, admin_password) {
        None
    } else {
        Some("権限エラー: パスワードが違います")
    }
}

/// What a client is told after a directory was made or could not be made.
pub open spec fn mkdir_answer(error: Option<Seq<char>>) -> Seq<char> {
    match error {
        None => "フォルダ作成完了"@,
        Some(e) => "作成エラー: "@ + e,
    }
}

/// Answers a client after a directory was made, or could not be made for the reason `error`.
pub fn answer_mkdir(error: &Option<String>) -> (r: String)
    ensures
        r@ == mkdir_answer(opt_text(*error)),
{
    match error {
        None => "フォルダ作成完了".to_owned(),
        Some(e) => append("作成エラー: ", e.as_str()),
    }
}

/// How something is removed.
#[derive(Clone, Copy, PartialEq, Eq, Structural, Debug)]
pub enum Removal {
    /// It does not exist.
    Nothing,
    /// A directory, with everything below it.
    Tree,
    /// A file.
    File,
}

/// Chooses how something is removed.
pub fn plan_removal(exists: bool, is_dir: bool) -> (r: Removal)
    ensures
        r is Nothing <==> !exists,
        r is Tree <==> exists && is_dir,
        r is File <==> exists && !is_dir,
{
    if !exists {
        Removal::Nothing
    } else if is_dir {
        Removal::Tree
    } else {
        Removal::File
    }
}

/// What a client is told after something was removed or could not be removed.
pub open spec fn removal_answer(removal: Removal, error: Option<Seq<char>>) -> Seq<char> {
    match (removal, error) {
        (Removal::Nothing, _) => "ファイルが見つかりません"@,
        (_, None) => "削除完了"@,
        (_, Some(e)) => "削除エラー: "@ + e,
    }
}

/// Answers a client after something was removed, or could not be removed for the reason `error`.
pub fn answer_removal(removal: &Removal, error: &Option<String>) -> (r: String)
    ensures
        r@ == removal_answer(*removal, opt_text(*error)),
{
    match removal {
        Removal::Nothing => "ファイルが見つかりません".to_owned(),
        _ => match error {
            None => "削除完了".to_owned(),
            Some(e) => append("削除エラー: ", e.as_str()),
        },
    }
}

/// A file that was opened is announced with its size and with the hash that the cache has for it,
/// if there is one; everything else is answered as not found.
pub proof fn only_open_files_are_announced(
    probe: DownloadProbe,
    key: Seq<char>,
    cache: Map<Seq<char>, FileCacheEntryView>,
)
    ensures
        ({
            let r = download_answer(probe, key, cache);
            &&& r.found <==> probe is Open
            &&& probe matches DownloadProbe::Open { size } ==> r.size == size
            &&& probe is Open ==> (r.hash is Some <==> cache.contains_key(key))
            &&& r.hash matches Some(h) ==> h == cache[key].hash
            &&& probe !is Open ==> r.size == 0 && r.hash is None
        }),
{
}

/// Before the partial file is opened, the hash of an earlier attempt is read, if the client sent
/// one. The partial file is thrown away exactly when both hashes are known and differ in more than
/// the white space around them, and the hash that the client sent is written down.
pub proof fn uploads_open_their_partial_file(s: UploadSessionView, saved: Option<Seq<char>>)
    ensures
        s.phase == UploadPhase::Parent ==> {
            let (phase, a) = upload_next(s, UploadEventView::ParentMade(true));
            if s.hash is Some {
                phase == UploadPhase::SavedHash && a is ReadSavedHash
            } else {
                phase == UploadPhase::Open && a == (UploadActionView::OpenPartial {
                    discard: false,
                    record: None,
                })
            }
        },
        s.phase == UploadPhase::SavedHash ==> {
            let (phase, a) = upload_next(s, UploadEventView::SavedHash(saved));
            &&& phase == UploadPhase::Open
            &&& a matches UploadActionView::OpenPartial { discard, record }
            &&& record == s.hash
            &&& saved is None || s.hash is None ==> !discard
            &&& saved is Some && s.hash is Some ==> (discard <==> trimmed(
                saved->Some_0,
                CharClass::Whitespace,
            ) != trimmed(s.hash->Some_0, CharClass::Whitespace))
        },
{
}

/// The client is told that the server is ready, and to start after what the partial file holds. A
/// partial file that holds more than the whole file is emptied first.
pub proof fn clients_are_told_where_to_start(s: UploadSessionView, partial: u64)
    requires
        s.phase == UploadPhase::Open,
    ensures
        ({
            let (phase, a) = upload_next(s, UploadEventView::Opened(Some(partial)));
            &&& phase == UploadPhase::Answer
            &&& a matches UploadActionView::Answer { truncate, offset, response }
            &&& partial <= s.total_size ==> !truncate && offset == partial
            &&& partial > s.total_size ==> truncate && offset == 0
            &&& response.status == "ready"@
            &&& response.start_offset == offset
            &&& response.message is None
        }),
{
}

/// After the answer the contents are received. When the partial file has the announced size, it gets
/// its final name, and then the recorded hash is removed; else the upload ends and what was received
/// is kept.
pub proof fn answered_uploads_are_received(s: UploadSessionView, size: u64)
    ensures
        s.phase == UploadPhase::Answer ==> upload_next(s, UploadEventView::Answered(true)) == (
            UploadPhase::Receive,
            UploadActionView::Receive,
        ),
        s.phase == UploadPhase::Receive && size == s.total_size ==> upload_next(
            s,
            UploadEventView::Received(Some(size)),
        ) == (UploadPhase::Rename, UploadActionView::Rename),
        s.phase == UploadPhase::Receive && size != s.total_size ==> upload_next(
            s,
            UploadEventView::Received(Some(size)),
        ) == (UploadPhase::Closed, UploadActionView::Close),
        s.phase == UploadPhase::Rename ==> upload_next(s, UploadEventView::Renamed(true)) == (
            UploadPhase::Closed,
            UploadActionView::RemoveSavedHash,
        ),
{
}

/// An action that failed, and an event that does not belong to the last action, close the upload;
/// what was received is kept.
pub proof fn failures_close_the_upload(s: UploadSessionView, e: UploadEventView)
    ensures
        ({
            let (phase, a) = upload_next(s, e);
            let went_on = match e {
                UploadEventView::ParentMade(made) => made && s.phase == UploadPhase::Parent,
                UploadEventView::SavedHash(_) => s.phase == UploadPhase::SavedHash,
                UploadEventView::Opened(size) => size is Some && s.phase == UploadPhase::Open,
                UploadEventView::Answered(sent) => sent && s.phase == UploadPhase::Answer,
                UploadEventView::Received(size) => size == Some(s.total_size) && s.phase
                    == UploadPhase::Receive,
                UploadEventView::Renamed(done) => done && s.phase == UploadPhase::Rename,
            };
            &&& a is Close <==> !went_on
            &&& !went_on ==> phase == UploadPhase::Closed
        }),
{
}

/// The answer to an upload that is not allowed says so, and the client starts nowhere.
pub proof fn denied_uploads_are_told_so()
    ensures
        upload_denied().status == "denied"@,
        upload_denied().start_offset == 0,
        upload_denied().message == Some("権限がありません(パスワード不一致)"@),
        upload_denied().status != "ready"@,
{
    reveal_strlit("denied");
    reveal_strlit("ready");
    assert("denied"@.len() != "ready"@.len());
}

/// A change that failed is answered with the reason at the end. A change that was made is answered
/// with the same words each time, and so is the removal of what does not exist.
pub proof fn changes_are_answered(removal: Removal, error: Option<Seq<char>>)
    ensures
        mkdir_answer(None) == "フォルダ作成完了"@,
        error matches Some(e) ==> mkdir_answer(error) == "作成エラー: "@ + e,
        removal is Nothing ==> removal_answer(removal, error) == "ファイルが見つかりません"@,
        removal !is Nothing ==> removal_answer(removal, None) == "削除完了"@,
        removal !is Nothing ==> (error matches Some(e) ==> removal_answer(removal, error)
            == "削除エラー: "@ + e),
        change_denied() == "権限エラー: パスワードが違います"@,
{
}

} // verus!
