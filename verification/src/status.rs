//! How the local copies of listed files compare with the server.

use vstd::prelude::*;

use crate::listing::{FileItem, FileItemView};
use crate::table::Table;
use crate::text::{opt_text, same_text};

verus! {

/// What the client remembers of a local file whose hash it knows.
pub struct LocalCacheEntry {
    pub size: u64,
    /// Time of the last change, in seconds.
    pub modified_ts: i64,
    pub hash: String,
}

/// A local cache entry as a mathematical value.
pub struct LocalCacheEntryView {
    pub size: u64,
    pub modified_ts: i64,
    pub hash: Seq<char>,
}

impl View for LocalCacheEntry {
    type V = LocalCacheEntryView;

    open spec fn view(&self) -> LocalCacheEntryView {
        LocalCacheEntryView { size: self.size, modified_ts: self.modified_ts, hash: self.hash@ }
    }
}

/// The local cache as a mathematical value.
pub open spec fn local_cache_view(m: Map<Seq<char>, LocalCacheEntry>) -> Map<
    Seq<char>,
    LocalCacheEntryView,
> {
    m.map_values(|e: LocalCacheEntry| e@)
}

/// What the client remembers of a download that has begun.
pub struct DownloadStateItem {
    /// The hash that the server listed when the download began.
    pub server_hash: String,
}

/// The downloads that have begun, with the hash of each, as a mathematical value.
pub open spec fn state_view(m: Map<Seq<char>, DownloadStateItem>) -> Map<Seq<char>, Seq<char>> {
    m.map_values(|e: DownloadStateItem| e.server_hash@)
}

/// How a local copy compares with the server.
pub struct FileStatusDetail {
    /// One of "synced", "outdated" and "partial".
    pub status: String,
    /// The hash of the local copy, where it is known.
    pub local_hash: Option<String>,
    pub local_size: u64,
}

/// A comparison as a mathematical value.
pub struct FileStatusDetailView {
    pub status: Seq<char>,
    pub local_hash: Option<Seq<char>>,
    pub local_size: u64,
}

impl View for FileStatusDetail {
    type V = FileStatusDetailView;

    open spec fn view(&self) -> FileStatusDetailView {
        FileStatusDetailView {
            status: self.status@,
            local_hash: opt_text(self.local_hash),
            local_size: self.local_size,
        }
    }
}

/// The comparisons as mathematical values.
pub open spec fn status_view(m: Map<Seq<char>, FileStatusDetail>) -> Map<
    Seq<char>,
    FileStatusDetailView,
> {
    m.map_values(|e: FileStatusDetail| e@)
}

/// Size and time of change of a local file.
#[derive(Clone, Copy, PartialEq, Eq, Structural, Debug)]
pub struct LocalMetadata {
    pub size: u64,
    /// Time of the last change, in seconds.
    pub modified_ts: i64,
}

/// A listed file and what is seen of it locally.
pub struct LocalFile {
    pub item: FileItem,
    /// The full path of the local copy, by which it is remembered.
    pub key: String,
    pub exists: bool,
    pub metadata: Option<LocalMetadata>,
    /// The hash of the local copy, where it was computed for this comparison.
    pub fresh_hash: Option<String>,
    /// The size of the file in which a download is kept, where there is one.
    pub temp_size: Option<u64>,
}

/// A listed file and what is seen of it locally, as a mathematical value.
pub struct LocalFileView {
    pub item: FileItemView,
    pub key: Seq<char>,
    pub exists: bool,
    pub metadata: Option<LocalMetadata>,
    pub fresh_hash: Option<Seq<char>>,
    pub temp_size: Option<u64>,
}

impl View for LocalFile {
    type V = LocalFileView;

    open spec fn view(&self) -> LocalFileView {
        LocalFileView {
            item: self.item@,
            key: self.key@,
            exists: self.exists,
            metadata: self.metadata,
            fresh_hash: opt_text(self.fresh_hash),
            temp_size: self.temp_size,
        }
    }
}

/// Listed files and what is seen of them, as mathematical values.
pub open spec fn local_views(v: Seq<LocalFile>) -> Seq<LocalFileView> {
    v.map_values(|f: LocalFile| f@)
}

/// The hash that the cache has for a file of this size and time of change.
pub open spec fn cached_hash(
    key: Seq<char>,
    m: LocalMetadata,
    cache: Map<Seq<char>, LocalCacheEntryView>,
) -> Option<Seq<char>> {
    if cache.contains_key(key) && cache[key].size == m.size && cache[key].modified_ts
        == m.modified_ts {
        Some(cache[key].hash)
    } else {
        None
    }
}

impl LocalFileView {
    /// Whether the hashes decide: a local copy of the listed size, of which the server has a hash.
    pub open spec fn compares_hash(self) -> bool {
        &&& !self.item.is_dir
        &&& self.exists
        &&& self.metadata is Some
        &&& self.metadata->Some_0.size == self.item.size
        &&& self.item.hash is Some
    }

    /// Whether the local copy must be hashed for the comparison: the hashes decide, and the cache
    /// has none.
    pub open spec fn needs_hash(self, cache: Map<Seq<char>, LocalCacheEntryView>) -> bool {
        self.compares_hash() && cached_hash(self.key, self.metadata->Some_0, cache) is None
    }

    /// The hash of the local copy: the one from the cache, or else the one that was computed.
    pub open spec fn local_hash(
        self,
        m: LocalMetadata,
        cache: Map<Seq<char>, LocalCacheEntryView>,
    ) -> Option<Seq<char>> {
        if cached_hash(self.key, m, cache) is Some {
            cached_hash(self.key, m, cache)
        } else {
            self.fresh_hash
        }
    }

    /// Whether a download of the listed version has begun and can go on.
    pub open spec fn is_resumable(self, state: Map<Seq<char>, Seq<char>>) -> bool {
        &&& self.temp_size is Some
        &&& state.contains_key(self.key)
        &&& self.item.hash == Some(state[self.key])
    }

    /// How the file compares with the server. There is no comparison for a file that is not there,
    /// nor for one that cannot be read.
    pub open spec fn status(
        self,
        cache: Map<Seq<char>, LocalCacheEntryView>,
        state: Map<Seq<char>, Seq<char>>,
    ) -> Option<FileStatusDetailView> {
        if self.item.is_dir {
            if self.exists {
                Some(FileStatusDetailView { status: "synced"@, local_hash: None, local_size: 0 })
            } else {
                None
            }
        } else if self.exists {
            match self.metadata {
                None => None,
                Some(m) => if m.size != self.item.size {
                    Some(
                        FileStatusDetailView {
                            status: "outdated"@,
                            local_hash: cached_hash(self.key, m, cache),
                            local_size: m.size,
                        },
                    )
                } else {
                    match self.item.hash {
                        None => Some(
                            FileStatusDetailView {
                                status: "synced"@,
                                local_hash: cached_hash(self.key, m, cache),
                                local_size: m.size,
                            },
                        ),
                        Some(server_hash) => match self.local_hash(m, cache) {
                            None => None,
                            Some(h) => Some(
                                FileStatusDetailView {
                                    status: if h == server_hash {
                                        "synced"@
                                    } else {
                                        "outdated"@
                                    },
                                    local_hash: Some(h),
                                    local_size: m.size,
                                },
                            ),
                        },
                    }
                },
            }
        } else if self.is_resumable(state) {
            Some(
                FileStatusDetailView {
                    status: "partial"@,
                    local_hash: None,
                    local_size: self.temp_size->Some_0,
                },
            )
        } else {
            None
        }
    }

    /// Whether the comparison adds to the cache: a hash that had to be computed is known now.
    pub open spec fn adds_hash(self, cache: Map<Seq<char>, LocalCacheEntryView>) -> bool {
        self.needs_hash(cache) && self.fresh_hash is Some
    }

    /// The cache after the comparison.
    pub open spec fn cache_after(
        self,
        cache: Map<Seq<char>, LocalCacheEntryView>,
    ) -> Map<Seq<char>, LocalCacheEntryView> {
        if self.adds_hash(cache) {
            cache.insert(
                self.key,
                LocalCacheEntryView {
                    size: self.metadata->Some_0.size,
                    modified_ts: self.metadata->Some_0.modified_ts,
                    hash: self.fresh_hash->Some_0,
                },
            )
        } else {
            cache
        }
    }
}

/// The cache after all files were compared in their order.
pub open spec fn checked_cache(
    files: Seq<LocalFileView>,
    cache: Map<Seq<char>, LocalCacheEntryView>,
) -> Map<Seq<char>, LocalCacheEntryView>
    decreases files.len(),
{
    if files.len() == 0 {
        cache
    } else {
        files.last().cache_after(checked_cache(files.drop_last(), cache))
    }
}

/// Whether comparing all files in their order added to the cache.
pub open spec fn cache_grew(
    files: Seq<LocalFileView>,
    cache: Map<Seq<char>, LocalCacheEntryView>,
) -> bool
    decreases files.len(),
{
    files.len() > 0 && (cache_grew(files.drop_last(), cache) || files.last().adds_hash(
        checked_cache(files.drop_last(), cache),
    ))
}

/// The comparisons of all files, by the path under which each is listed.
pub open spec fn checked_status(
    files: Seq<LocalFileView>,
    cache: Map<Seq<char>, LocalCacheEntryView>,
    state: Map<Seq<char>, Seq<char>>,
) -> Map<Seq<char>, FileStatusDetailView>
    decreases files.len(),
{
    if files.len() == 0 {
        Map::empty()
    } else {
        let front = checked_status(files.drop_last(), cache, state);
        match files.last().status(checked_cache(files.drop_last(), cache), state) {
            Some(s) => front.insert(files.last().item.path, s),
            None => front,
        }
    }
}

fn find_cached(key: &str, m: LocalMetadata, cache: &Table<LocalCacheEntry>) -> (r: Option<String>)
    ensures
        opt_text(r) == cached_hash(key@, m, local_cache_view(cache@)),
{
    match cache.get(key) {
        Some(e) => if e.size == m.size && e.modified_ts == m.modified_ts {
            Some(e.hash.clone())
        } else {
            None
        },
        None => None,
    }
}

/// Tells whether the local copy of a file must be hashed before the file is compared.
pub fn needs_local_hash(file: &LocalFile, cache: &Table<LocalCacheEntry>) -> (r: bool)
    ensures
        r == file@.needs_hash(local_cache_view(cache@)),
{
    match file.metadata {
        Some(m) => {
            !file.item.is_dir && file.exists && m.size == file.item.size && file.item.hash.is_some()
                && find_cached(file.key.as_str(), m, cache).is_none()
        },
        None => false,
    }
}

proof fn lemma_local_cache_insert(
    m: Map<Seq<char>, LocalCacheEntry>,
    key: Seq<char>,
    e: LocalCacheEntry,
)
    ensures
        local_cache_view(m.insert(key, e)) == local_cache_view(m).insert(key, e@),
{
    assert(local_cache_view(m.insert(key, e)) =~= local_cache_view(m).insert(key, e@));
}

/// Remembers the hash of a local file.
pub fn remember_hash(key: String, m: LocalMetadata, hash: String, cache: &mut Table<LocalCacheEntry>)
    ensures
        local_cache_view(final(cache)@) == local_cache_view(old(cache)@).insert(
            key@,
            LocalCacheEntryView { size: m.size, modified_ts: m.modified_ts, hash: hash@ },
        ),
{
    let entry = LocalCacheEntry { size: m.size, modified_ts: m.modified_ts, hash };
    proof {
        lemma_local_cache_insert(cache@, key@, entry);
    }
    cache.insert(key, entry);
}

fn check_existing(file: LocalFile, m: LocalMetadata, cache: &mut Table<LocalCacheEntry>) -> (r: (
    Option<FileStatusDetail>,
    bool,
))
    requires
        !file.item.is_dir,
        file.exists,
        file.metadata == Some(m),
    ensures
        ({
            let before = local_cache_view(old(cache)@);
            &&& local_cache_view(final(cache)@) == file@.cache_after(before)
            &&& r.1 == file@.adds_hash(before)
            &&& forall|state: Map<Seq<char>, Seq<char>>|
                #[trigger] file@.status(before, state) == match r.0 {
                    Some(s) => Some(s@),
                    None => None,
                }
        }),
{
    let known = find_cached(file.key.as_str(), m, cache);
    if m.size != file.item.size {
        let s = FileStatusDetail {
            status: "outdated".to_owned(),
            local_hash: known,
            local_size: m.size,
        };
        return (Some(s), false);
    }
    match file.item.hash {
        None => {
            let s = FileStatusDetail {
                status: "synced".to_owned(),
                local_hash: known,
                local_size: m.size,
            };
            (Some(s), false)
        },
        Some(server_hash) => {
            let mut added = false;
            let hash = match known {
                Some(h) => h,
                None => match file.fresh_hash {
                    Some(h) => {
                        remember_hash(file.key, m, h.clone(), cache);
                        added = true;
                        h
                    },
                    None => {
                        return (None, false);
                    },
                },
            };
            let status = if same_text(hash.as_str(), server_hash.as_str()) {
                "synced".to_owned()
            } else {
                "outdated".to_owned()
            };
            (Some(FileStatusDetail { status, local_hash: Some(hash), local_size: m.size }), added)
        },
    }
}

/// Compares one file, and tells whether the cache was added to.
fn check_file(
    file: LocalFile,
    cache: &mut Table<LocalCacheEntry>,
    state: &Table<DownloadStateItem>,
) -> (r: (Option<FileStatusDetail>, bool))
    ensures
        ({
            let before = local_cache_view(old(cache)@);
            &&& local_cache_view(final(cache)@) == file@.cache_after(before)
            &&& r.1 == file@.adds_hash(before)
            &&& file@.status(before, state_view(state@)) == match r.0 {
                Some(s) => Some(s@),
                None => None,
            }
        }),
{
    if file.item.is_dir {
        return if file.exists {
            let s = FileStatusDetail {
                status: "synced".to_owned(),
                local_hash: None,
                local_size: 0,
            };
            (Some(s), false)
        } else {
            (None, false)
        };
    }
    if file.exists {
        return match file.metadata {
            Some(m) => check_existing(file, m, cache),
            None => (None, false),
        };
    }
    match (file.temp_size, &file.item.hash, state.get(file.key.as_str())) {
        (Some(size), Some(server_hash), Some(begun)) => if same_text(
            begun.server_hash.as_str(),
            server_hash.as_str(),
        ) {
            let s = FileStatusDetail {
                status: "partial".to_owned(),
                local_hash: None,
                local_size: size,
            };
            (Some(s), false)
        } else {
            (None, false)
        },
        _ => (None, false),
    }
}

/// The comparisons of a set of files.
pub struct StatusReport {
    /// The comparisons, by the path under which each file is listed.
    pub status: Table<FileStatusDetail>,
    /// Whether the cache was added to, and is to be saved.
    pub cache_dirty: bool,
}

proof fn lemma_status_insert(
    m: Map<Seq<char>, FileStatusDetail>,
    key: Seq<char>,
    e: FileStatusDetail,
)
    ensures
        status_view(m.insert(key, e)) == status_view(m).insert(key, e@),
{
    assert(status_view(m.insert(key, e)) =~= status_view(m).insert(key, e@));
}

/// Compares listed files with the server, in their order, and remembers in `cache` the hashes that
/// were computed.
pub fn check_file_status(
    files: Vec<LocalFile>,
    cache: &mut Table<LocalCacheEntry>,
    state: &Table<DownloadStateItem>,
) -> (r: StatusReport)
    ensures
        ({
            let all = local_views(files@);
            let before = local_cache_view(old(cache)@);
            &&& local_cache_view(final(cache)@) == checked_cache(all, before)
            &&& status_view(r.status@) == checked_status(all, before, state_view(state@))
            &&& r.cache_dirty == cache_grew(all, before)
        }),
{
    let ghost all = local_views(files@);
    let ghost given = files@;
    let ghost before = local_cache_view(cache@);
    let mut status: Table<FileStatusDetail> = Table::new();
    let mut cache_dirty = false;
    assert(status_view(status@) =~= checked_status(all.take(0), before, state_view(state@)));
    for file in it: files
        invariant
            it.seq() == given,
            all == local_views(given),
            before == local_cache_view(old(cache)@),
            local_cache_view(cache@) == checked_cache(all.take(it.index() as int), before),
            status_view(status@) == checked_status(
                all.take(it.index() as int),
                before,
                state_view(state@),
            ),
            cache_dirty == cache_grew(all.take(it.index() as int), before),
    {
        let ghost i = it.index() as int;
        proof {
            assert(all.take(i + 1).drop_last() =~= all.take(i));
            assert(all.take(i + 1).last() == all[i]);
            assert(file@ == all[i]);
        }
        let path = file.item.path.clone();
        let (s, added) = check_file(file, cache, state);
        if added {
            cache_dirty = true;
        }
        match s {
            Some(s) => {
                proof {
                    lemma_status_insert(status@, path@, s);
                }
                status.insert(path, s);
            },
            None => {},
        }
    }
    assert(all.take(all.len() as int) =~= all);
    StatusReport { status, cache_dirty }
}

/// Takes over the hash of a local file that was computed anew. The cache keeps it, where size and
/// time of change of the file are known.
pub fn recalc_file_hash(
    key: String,
    exists: bool,
    fresh_hash: Option<String>,
    metadata: Option<LocalMetadata>,
    cache: &mut Table<LocalCacheEntry>,
) -> (r: Result<String, &'static str>)
    ensures
        match r {
            Ok(h) => exists && fresh_hash is Some && h@ == fresh_hash->Some_0@,
            Err(e) => if !exists {
                e@ == "ファイルが見つかりません"@
            } else {
                fresh_hash is None && e@ == "ハッシュ計算に失敗しました"@
            },
        },
        local_cache_view(final(cache)@) == if r is Ok && metadata is Some {
            local_cache_view(old(cache)@).insert(
                key@,
                LocalCacheEntryView {
                    size: metadata->Some_0.size,
                    modified_ts: metadata->Some_0.modified_ts,
                    hash: fresh_hash->Some_0@,
                },
            )
        } else {
            local_cache_view(old(cache)@)
        },
{
    if !exists {
        return Err("ファイルが見つかりません");
    }
    match fresh_hash {
        Some(h) => {
            match metadata {
                Some(m) => {
                    remember_hash(key, m, h.clone(), cache);
                },
                None => {},
            }
            Ok(h)
        },
        None => Err("ハッシュ計算に失敗しました"),
    }
}

/// Whether no two files share the local path by which they are remembered.
pub open spec fn distinct_files(files: Seq<LocalFileView>) -> bool {
    forall|a: int, b: int|
        0 <= a < b < files.len() ==> (#[trigger] files[a]).key != (#[trigger] files[b]).key
}

/// Whether no two files are listed under the same path.
pub open spec fn distinct_paths(files: Seq<LocalFileView>) -> bool {
    forall|a: int, b: int|
        0 <= a < b < files.len() ==> (#[trigger] files[a]).item.path != (
        #[trigger] files[b]).item.path
}

/// A file is "synced" only when it has the listed size and, where the server has a hash, the listed
/// hash; a file that differs in size or hash is "outdated".
pub proof fn synced_means_same_contents(
    f: LocalFileView,
    cache: Map<Seq<char>, LocalCacheEntryView>,
    state: Map<Seq<char>, Seq<char>>,
)
    requires
        !f.item.is_dir,
        f.exists,
        f.status(cache, state) is Some,
    ensures
        ({
            let s = f.status(cache, state)->Some_0;
            let same = s.local_size == f.item.size && (f.item.hash is Some ==> s.local_hash
                == f.item.hash);
            &&& s.status == "synced"@ <==> same
            &&& s.status == "outdated"@ <==> !same
        }),
{
    reveal_strlit("synced");
    reveal_strlit("outdated");
    assert("synced"@.len() != "outdated"@.len());
}

/// Only a file that is not there is "partial", and only while the server still lists the version
/// that the download began with.
pub proof fn partial_means_resumable(
    f: LocalFileView,
    cache: Map<Seq<char>, LocalCacheEntryView>,
    state: Map<Seq<char>, Seq<char>>,
)
    ensures
        (f.status(cache, state) matches Some(s) && s.status == "partial"@) <==> !f.item.is_dir
            && !f.exists && f.is_resumable(state),
{
    reveal_strlit("synced");
    reveal_strlit("outdated");
    reveal_strlit("partial");
    assert("synced"@.len() == 6 && "outdated"@.len() == 8 && "partial"@.len() == 7);
}

proof fn lemma_other_files_stay(
    files: Seq<LocalFileView>,
    cache: Map<Seq<char>, LocalCacheEntryView>,
    key: Seq<char>,
)
    requires
        forall|a: int| 0 <= a < files.len() ==> (#[trigger] files[a]).key != key,
    ensures
        ({
            let after = checked_cache(files, cache);
            &&& after.contains_key(key) == cache.contains_key(key)
            &&& cache.contains_key(key) ==> after[key] == cache[key]
        }),
    decreases files.len(),
{
    if files.len() > 0 {
        let front = files.drop_last();
        assert forall|a: int| 0 <= a < front.len() implies (#[trigger] front[a]).key != key by {
            assert(front[a] == files[a]);
        }
        lemma_other_files_stay(front, cache, key);
        assert(files[files.len() - 1].key != key);
    }
}

/// Each file is compared for itself: where no two files share a path, the comparison of a file does
/// not depend on the others, and nothing else is reported.
pub proof fn files_are_compared_one_by_one(
    files: Seq<LocalFileView>,
    cache: Map<Seq<char>, LocalCacheEntryView>,
    state: Map<Seq<char>, Seq<char>>,
    i: int,
)
    requires
        distinct_files(files),
        distinct_paths(files),
        0 <= i < files.len(),
    ensures
        ({
            let all = checked_status(files, cache, state);
            let f = files[i];
            match f.status(cache, state) {
                Some(s) => all.contains_key(f.item.path) && all[f.item.path] == s,
                None => !all.contains_key(f.item.path),
            }
        }),
    decreases files.len(),
{
    let n = files.len() - 1;
    let front = files.drop_last();
    assert forall|a: int, b: int| 0 <= a < b < front.len() implies (#[trigger] front[a]).key != (
    #[trigger] front[b]).key by {
        assert(front[a] == files[a] && front[b] == files[b]);
    }
    assert forall|a: int, b: int| 0 <= a < b < front.len() implies (#[trigger] front[a]).item.path
        != (#[trigger] front[b]).item.path by {
        assert(front[a] == files[a] && front[b] == files[b]);
    }
    if i < n {
        files_are_compared_one_by_one(front, cache, state, i);
        assert(front[i] == files[i]);
        assert(files[i].item.path != files[n].item.path);
    } else {
        assert forall|a: int| 0 <= a < front.len() implies (#[trigger] front[a]).key
            != files[n].key by {
            assert(front[a] == files[a]);
        }
        lemma_other_files_stay(front, cache, files[n].key);
        if checked_status(front, cache, state).contains_key(files[n].item.path) {
            only_listed_files_are_reported(front, cache, state, files[n].item.path);
            let a = choose|a: int|
                0 <= a < front.len() && (#[trigger] front[a]).item.path == files[n].item.path;
            assert(front[a] == files[a]);
        }
    }
}

/// Nothing is reported but comparisons of listed files.
pub proof fn only_listed_files_are_reported(
    files: Seq<LocalFileView>,
    cache: Map<Seq<char>, LocalCacheEntryView>,
    state: Map<Seq<char>, Seq<char>>,
    path: Seq<char>,
)
    requires
        checked_status(files, cache, state).contains_key(path),
    ensures
        exists|a: int| 0 <= a < files.len() && (#[trigger] files[a]).item.path == path,
    decreases files.len(),
{
    if files.len() > 0 {
        let n = files.len() - 1;
        let front = files.drop_last();
        if files[n].item.path != path {
            only_listed_files_are_reported(front, cache, state, path);
            let a = choose|a: int|
                0 <= a < front.len() && (#[trigger] front[a]).item.path == path;
            assert(files[a] == front[a]);
        }
    }
}

/// A second comparison of unchanged files hashes nothing, where the first one could hash what it
/// had to.
pub proof fn second_check_hashes_nothing(
    files: Seq<LocalFileView>,
    cache: Map<Seq<char>, LocalCacheEntryView>,
    i: int,
)
    requires
        distinct_files(files),
        0 <= i < files.len(),
        files[i].needs_hash(cache) ==> files[i].fresh_hash is Some,
    ensures
        !files[i].needs_hash(checked_cache(files, cache)),
    decreases files.len(),
{
    let n = files.len() - 1;
    let front = files.drop_last();
    if i < n {
        assert forall|a: int, b: int| 0 <= a < b < front.len() implies (#[trigger] front[a]).key
            != (#[trigger] front[b]).key by {
            assert(front[a] == files[a] && front[b] == files[b]);
        }
        second_check_hashes_nothing(front, cache, i);
        assert(front[i] == files[i]);
        assert(files[i].key != files[n].key);
    } else {
        assert forall|a: int| 0 <= a < front.len() implies (#[trigger] front[a]).key
            != files[n].key by {
            assert(front[a] == files[a]);
        }
        lemma_other_files_stay(front, cache, files[n].key);
    }
}

/// Whether `again` is seen of the same files as `files`: only the hashes that were computed may
/// differ, and what could not be hashed the first time cannot be hashed again.
pub open spec fn files_seen_again(
    files: Seq<LocalFileView>,
    again: Seq<LocalFileView>,
    cache: Map<Seq<char>, LocalCacheEntryView>,
) -> bool {
    &&& again.len() == files.len()
    &&& forall|i: int|
        0 <= i < files.len() ==> (#[trigger] again[i]) == (LocalFileView {
            fresh_hash: again[i].fresh_hash,
            ..files[i]
        }) && (files[i].needs_hash(cache) && files[i].fresh_hash is None
            ==> again[i].fresh_hash is None)
}

/// A second comparison of unchanged files gives the same report and leaves the cache as it is.
pub proof fn second_check_changes_nothing(
    files: Seq<LocalFileView>,
    again: Seq<LocalFileView>,
    cache: Map<Seq<char>, LocalCacheEntryView>,
    state: Map<Seq<char>, Seq<char>>,
)
    requires
        distinct_files(files),
        files_seen_again(files, again, cache),
    ensures
        ({
            let after = checked_cache(files, cache);
            &&& checked_cache(again, after) == after
            &&& !cache_grew(again, after)
            &&& checked_status(again, after, state) == checked_status(files, cache, state)
        }),
{
    lemma_second_check(files, again, cache, state, files.len() as int);
    assert(again.take(again.len() as int) =~= again);
    assert(files.take(files.len() as int) =~= files);
}

proof fn lemma_second_check(
    files: Seq<LocalFileView>,
    again: Seq<LocalFileView>,
    cache: Map<Seq<char>, LocalCacheEntryView>,
    state: Map<Seq<char>, Seq<char>>,
    n: int,
)
    requires
        distinct_files(files),
        files_seen_again(files, again, cache),
        0 <= n <= files.len(),
    ensures
        ({
            let after = checked_cache(files, cache);
            &&& checked_cache(again.take(n), after) == after
            &&& !cache_grew(again.take(n), after)
            &&& checked_status(again.take(n), after, state) == checked_status(
                files.take(n),
                cache,
                state,
            )
        }),
    decreases n,
{
    if n > 0 {
        let i = n - 1;
        lemma_second_check(files, again, cache, state, i);
        assert(again.take(n).drop_last() =~= again.take(i));
        assert(files.take(n).drop_last() =~= files.take(i));
        assert(again.take(n).last() == again[i] && files.take(n).last() == files[i]);
        lemma_file_is_remembered(files, cache, i);
        lemma_other_files_stay(files.take(i), cache, files[i].key);
    }
}

/// What the cache has for a file after a comparison is what it has once the file was compared alone.
proof fn lemma_file_is_remembered(
    files: Seq<LocalFileView>,
    cache: Map<Seq<char>, LocalCacheEntryView>,
    i: int,
)
    requires
        distinct_files(files),
        0 <= i < files.len(),
    ensures
        ({
            let after = checked_cache(files, cache);
            let alone = files[i].cache_after(cache);
            let key = files[i].key;
            &&& after.contains_key(key) == alone.contains_key(key)
            &&& alone.contains_key(key) ==> after[key] == alone[key]
        }),
    decreases files.len(),
{
    let n = files.len() - 1;
    let front = files.drop_last();
    if i < n {
        assert forall|a: int, b: int| 0 <= a < b < front.len() implies (#[trigger] front[a]).key
            != (#[trigger] front[b]).key by {
            assert(front[a] == files[a] && front[b] == files[b]);
        }
        lemma_file_is_remembered(front, cache, i);
        assert(front[i] == files[i]);
        assert(files[i].key != files[n].key);
    } else {
        assert forall|a: int| 0 <= a < front.len() implies (#[trigger] front[a]).key
            != files[n].key by {
            assert(front[a] == files[a]);
        }
        lemma_other_files_stay(front, cache, files[n].key);
    }
}

/// A hash that was computed anew is the one that files are compared by, while the file does not
/// change.
pub proof fn recalculated_hash_is_used(
    f: LocalFileView,
    hash: Seq<char>,
    cache: Map<Seq<char>, LocalCacheEntryView>,
    state: Map<Seq<char>, Seq<char>>,
)
    requires
        f.compares_hash(),
    ensures
        ({
            let m = f.metadata->Some_0;
            let after = cache.insert(
                f.key,
                LocalCacheEntryView { size: m.size, modified_ts: m.modified_ts, hash },
            );
            &&& !f.needs_hash(after)
            &&& f.status(after, state) matches Some(s) && s.local_hash == Some(hash)
        }),
{
}

/// Every local copy that can be compared is reported. A copy of another size than the server lists
/// is "outdated"; one of the listed size is "synced" where the server lists no hash; else the hash
/// of the copy decides, which the cache has for a file of that size and time of change, or which
/// was computed. Only where there is none nothing is reported.
pub proof fn comparable_files_are_reported(
    f: LocalFileView,
    m: LocalMetadata,
    cache: Map<Seq<char>, LocalCacheEntryView>,
    state: Map<Seq<char>, Seq<char>>,
)
    requires
        !f.item.is_dir,
        f.exists,
        f.metadata == Some(m),
    ensures
        ({
            let status = f.status(cache, state);
            let known = cache.contains_key(f.key) && cache[f.key].size == m.size
                && cache[f.key].modified_ts == m.modified_ts;
            let kept = if known {
                Some(cache[f.key].hash)
            } else {
                None
            };
            let hash = if known {
                kept
            } else {
                f.fresh_hash
            };
            &&& status is None <==> m.size == f.item.size && f.item.hash is Some && hash is None
            &&& status matches Some(d) ==> d.local_size == m.size
            &&& m.size != f.item.size ==> status == Some(
                FileStatusDetailView { status: "outdated"@, local_hash: kept, local_size: m.size },
            )
            &&& m.size == f.item.size && f.item.hash is None ==> status == Some(
                FileStatusDetailView { status: "synced"@, local_hash: kept, local_size: m.size },
            )
            &&& m.size == f.item.size && f.item.hash is Some && hash is Some && hash == f.item.hash
                ==> status == Some(
                FileStatusDetailView { status: "synced"@, local_hash: hash, local_size: m.size },
            )
            &&& m.size == f.item.size && f.item.hash is Some && hash is Some && hash != f.item.hash
                ==> status == Some(
                FileStatusDetailView { status: "outdated"@, local_hash: hash, local_size: m.size },
            )
        }),
{
}

/// A directory is reported as "synced" exactly when it is there. A file that is there but cannot be
/// looked at is not reported. A file that is not there is reported exactly when a download of the
/// listed version has begun, with the size of what was received.
pub proof fn other_files_are_reported(
    f: LocalFileView,
    cache: Map<Seq<char>, LocalCacheEntryView>,
    state: Map<Seq<char>, Seq<char>>,
)
    ensures
        ({
            let status = f.status(cache, state);
            &&& f.item.is_dir && f.exists ==> status == Some(
                FileStatusDetailView { status: "synced"@, local_hash: None, local_size: 0 },
            )
            &&& f.item.is_dir && !f.exists ==> status is None
            &&& !f.item.is_dir && f.exists && f.metadata is None ==> status is None
            &&& !f.item.is_dir && !f.exists ==> {
                let begun = state.contains_key(f.key) && f.item.hash == Some(state[f.key]);
                &&& f.temp_size is Some && begun ==> status == Some(
                    FileStatusDetailView {
                        status: "partial"@,
                        local_hash: None,
                        local_size: f.temp_size->Some_0,
                    },
                )
                &&& f.temp_size is None || !begun ==> status is None
            }
        }),
{
}

/// A local copy must be hashed exactly when it is there, the sizes agree, the server lists a hash
/// and the cache has none for the copy as it is. A hash that had to be computed is remembered with
/// the size and the time of change of the copy, and nothing else is written to the cache.
pub proof fn computed_hashes_are_kept(
    f: LocalFileView,
    cache: Map<Seq<char>, LocalCacheEntryView>,
    other: Seq<char>,
)
    ensures
        ({
            let after = f.cache_after(cache);
            let needed = {
                &&& !f.item.is_dir
                &&& f.exists
                &&& f.item.hash is Some
                &&& f.metadata matches Some(m)
                &&& m.size == f.item.size
                &&& !(cache.contains_key(f.key) && cache[f.key].size == m.size
                    && cache[f.key].modified_ts == m.modified_ts)
            };
            let added = needed && f.fresh_hash is Some;
            &&& f.needs_hash(cache) <==> needed
            &&& f.adds_hash(cache) <==> added
            &&& added ==> {
                &&& after.contains_key(f.key)
                &&& Some(after[f.key].hash) == f.fresh_hash
                &&& f.metadata == Some(
                    LocalMetadata {
                        size: after[f.key].size,
                        modified_ts: after[f.key].modified_ts,
                    },
                )
            }
            &&& !added ==> after == cache
            &&& other != f.key ==> after.contains_key(other) == cache.contains_key(other)
                && after[other] == cache[other]
        }),
{
}

/// The comparison of one file reports that file, under the path that it is listed under, and the
/// cache grew if its hash was added.
pub proof fn one_file_is_compared(
    f: LocalFileView,
    cache: Map<Seq<char>, LocalCacheEntryView>,
    state: Map<Seq<char>, Seq<char>>,
    path: Seq<char>,
)
    ensures
        ({
            let all = checked_status(seq![f], cache, state);
            &&& all.contains_key(path) <==> path == f.item.path && f.status(cache, state) is Some
            &&& all.contains_key(path) ==> Some(all[path]) == f.status(cache, state)
            &&& checked_cache(seq![f], cache) == f.cache_after(cache)
            &&& cache_grew(seq![f], cache) <==> f.adds_hash(cache)
        }),
{
    assert(seq![f].drop_last() =~= Seq::empty());
    assert(checked_cache(seq![f].drop_last(), cache) == cache);
    assert(!cache_grew(seq![f].drop_last(), cache));
    assert(checked_status(seq![f].drop_last(), cache, state) == Map::<
        Seq<char>,
        FileStatusDetailView,
    >::empty());
}

/// The comparison of two lists of files is that of the first and then of the second, with the cache
/// as the first left it. What is reported of a path by the second holds, and else what the first
/// reported. The cache grew if it grew in either.
pub proof fn comparisons_go_file_by_file(
    first: Seq<LocalFileView>,
    later: Seq<LocalFileView>,
    cache: Map<Seq<char>, LocalCacheEntryView>,
    state: Map<Seq<char>, Seq<char>>,
    path: Seq<char>,
)
    ensures
        checked_cache(Seq::empty(), cache) == cache,
        !cache_grew(Seq::empty(), cache),
        !checked_status(Seq::empty(), cache, state).contains_key(path),
        ({
            let between = checked_cache(first, cache);
            let a = checked_status(first, cache, state);
            let b = checked_status(later, between, state);
            let all = checked_status(first + later, cache, state);
            &&& checked_cache(first + later, cache) == checked_cache(later, between)
            &&& cache_grew(first + later, cache) <==> cache_grew(first, cache) || cache_grew(
                later,
                between,
            )
            &&& all.contains_key(path) <==> a.contains_key(path) || b.contains_key(path)
            &&& b.contains_key(path) ==> all[path] == b[path]
            &&& a.contains_key(path) && !b.contains_key(path) ==> all[path] == a[path]
        }),
    decreases later.len(),
{
    if later.len() == 0 {
        assert(first + later =~= first);
    } else {
        comparisons_go_file_by_file(first, later.drop_last(), cache, state, path);
        assert((first + later).drop_last() =~= first + later.drop_last());
    }
}

} // verus!
