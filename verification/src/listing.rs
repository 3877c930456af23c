//! The listing of a directory tree and the cache of file hashes behind it.

use vstd::prelude::*;

use crate::digest::{content_hash, hash_content};
use crate::sorting::{sort_by_path, sorting_keeps_items, sorts};
use crate::table::Table;
use crate::text::{ends_with, has_suffix, opt_text, replace_char, replaced};
use crate::times::UtcTime;

verus! {

/// What is remembered of a file whose hash was computed. While size and time of change stay the
/// same, so does the hash.
pub struct FileCacheEntry {
    pub size: u64,
    /// Time of the last change, in seconds.
    pub modified_ts: i64,
    pub hash: String,
}

/// A cache entry as a mathematical value.
pub struct FileCacheEntryView {
    pub size: u64,
    pub modified_ts: i64,
    pub hash: Seq<char>,
}

impl View for FileCacheEntry {
    type V = FileCacheEntryView;

    open spec fn view(&self) -> FileCacheEntryView {
        FileCacheEntryView { size: self.size, modified_ts: self.modified_ts, hash: self.hash@ }
    }
}

impl Clone for FileCacheEntry {
    fn clone(&self) -> (r: Self)
        ensures
            r == *self,
    {
        FileCacheEntry {
            size: self.size,
            modified_ts: self.modified_ts,
            hash: self.hash.clone(),
        }
    }
}

/// A listed file or directory.
pub struct FileItem {
    pub name: String,
    pub path: String,
    pub is_dir: bool,
    /// Whether the file is still being transferred.
    pub is_partial: bool,
    pub size: u64,
    pub modified_at: Option<UtcTime>,
    pub hash: Option<String>,
}

/// A listed file or directory as a mathematical value.
pub struct FileItemView {
    pub name: Seq<char>,
    pub path: Seq<char>,
    pub is_dir: bool,
    pub is_partial: bool,
    pub size: u64,
    pub modified_at: Option<UtcTime>,
    pub hash: Option<Seq<char>>,
}

impl View for FileItem {
    type V = FileItemView;

    open spec fn view(&self) -> FileItemView {
        FileItemView {
            name: self.name@,
            path: self.path@,
            is_dir: self.is_dir,
            is_partial: self.is_partial,
            size: self.size,
            modified_at: self.modified_at,
            hash: opt_text(self.hash),
        }
    }
}

/// The listing of a directory tree.
pub struct FileList {
    pub items: Vec<FileItem>,
}

/// The items of a listing as mathematical values.
pub open spec fn item_views(v: Seq<FileItem>) -> Seq<FileItemView> {
    v.map_values(|i: FileItem| i@)
}

/// Size and time of change of an entry, as far as the file system gives them.
#[derive(Clone, Copy, PartialEq, Eq, Structural, Debug)]
pub struct EntryMetadata {
    pub size: u64,
    pub modified: Option<UtcTime>,
}

/// What a walk through the tree sees of one entry.
pub struct ScanEntry {
    /// The full path, which the entry has in the cache.
    pub key: String,
    /// The name of the entry.
    pub name: String,
    /// The path from the root of the tree, with the separators of the system.
    pub relative: String,
    pub is_dir: bool,
    pub metadata: Option<EntryMetadata>,
    /// The hash of the contents, where it was computed for this scan.
    pub fresh_hash: Option<String>,
}

/// An entry of a walk as a mathematical value.
pub struct ScanEntryView {
    pub key: Seq<char>,
    pub name: Seq<char>,
    pub relative: Seq<char>,
    pub is_dir: bool,
    pub metadata: Option<EntryMetadata>,
    pub fresh_hash: Option<Seq<char>>,
}

impl View for ScanEntry {
    type V = ScanEntryView;

    open spec fn view(&self) -> ScanEntryView {
        ScanEntryView {
            key: self.key@,
            name: self.name@,
            relative: self.relative@,
            is_dir: self.is_dir,
            metadata: self.metadata,
            fresh_hash: opt_text(self.fresh_hash),
        }
    }
}

/// The entries of a walk as mathematical values.
pub open spec fn entry_views(v: Seq<ScanEntry>) -> Seq<ScanEntryView> {
    v.map_values(|e: ScanEntry| e@)
}

/// The cache as a mathematical value.
pub open spec fn cache_view(m: Map<Seq<char>, FileCacheEntry>) -> Map<
    Seq<char>,
    FileCacheEntryView,
> {
    m.map_values(|e: FileCacheEntry| e@)
}

/// Whether entries of this name are left out of the listing.
pub open spec fn is_meta_name(name: Seq<char>) -> bool {
    has_suffix(name, ".mysync_meta"@)
}

/// Whether a name belongs to a file that is still being transferred.
pub open spec fn is_partial_name(name: Seq<char>) -> bool {
    has_suffix(name, ".mysync_partial"@) || has_suffix(name, ".mysync_partial.hash"@)
}

impl ScanEntryView {
    /// The size of the entry; zero where it is not known.
    pub open spec fn size(self) -> u64 {
        match self.metadata {
            Some(m) => m.size,
            None => 0,
        }
    }

    /// The time of the last change; the start of 1970 where it is not known.
    pub open spec fn modified(self) -> UtcTime {
        match self.metadata {
            Some(EntryMetadata { size: _, modified: Some(t) }) => t,
            _ => UtcTime { secs: 0, nanos: 0 },
        }
    }

    /// Whether the listing gives a hash of the entry: for files that are not being transferred.
    pub open spec fn is_hashed(self) -> bool {
        !is_meta_name(self.name) && !self.is_dir && !is_partial_name(self.name)
    }

    /// The hash that the cache has for the entry as it is now.
    pub open spec fn cached(self, cache: Map<Seq<char>, FileCacheEntryView>) -> Option<Seq<char>> {
        if cache.contains_key(self.key) && cache[self.key].size == self.size()
            && cache[self.key].modified_ts == self.modified().secs {
            Some(cache[self.key].hash)
        } else {
            None
        }
    }

    /// Whether the contents must be hashed: the listing gives a hash and the cache has none.
    pub open spec fn needs_hash(self, cache: Map<Seq<char>, FileCacheEntryView>) -> bool {
        self.is_hashed() && self.cached(cache) is None
    }

    /// The hash that the listing gives.
    pub open spec fn listed_hash(
        self,
        cache: Map<Seq<char>, FileCacheEntryView>,
    ) -> Option<Seq<char>> {
        if !self.is_hashed() {
            None
        } else if self.cached(cache) is Some {
            self.cached(cache)
        } else {
            self.fresh_hash
        }
    }

    /// The item that the listing has for the entry.
    pub open spec fn item(self, cache: Map<Seq<char>, FileCacheEntryView>) -> FileItemView {
        FileItemView {
            name: self.name,
            path: replaced(self.relative, '\\', '/'),
            is_dir: self.is_dir,
            is_partial: is_partial_name(self.name),
            size: self.size(),
            modified_at: Some(self.modified()),
            hash: self.listed_hash(cache),
        }
    }

    /// The cache after the entry was seen: a hash that was computed is remembered.
    pub open spec fn cache_after(
        self,
        cache: Map<Seq<char>, FileCacheEntryView>,
    ) -> Map<Seq<char>, FileCacheEntryView> {
        if self.needs_hash(cache) && self.fresh_hash is Some {
            cache.insert(
                self.key,
                FileCacheEntryView {
                    size: self.size(),
                    modified_ts: self.modified().secs,
                    hash: self.fresh_hash->Some_0,
                },
            )
        } else {
            cache
        }
    }
}

/// The cache after all entries were seen in their order.
pub open spec fn scanned_cache(
    entries: Seq<ScanEntryView>,
    cache: Map<Seq<char>, FileCacheEntryView>,
) -> Map<Seq<char>, FileCacheEntryView>
    decreases entries.len(),
{
    if entries.len() == 0 {
        cache
    } else {
        entries.last().cache_after(scanned_cache(entries.drop_last(), cache))
    }
}

/// The items for the entries, in the order of the walk. Each hash comes from the cache as it is
/// when the entry is seen.
pub open spec fn scanned_items(
    entries: Seq<ScanEntryView>,
    cache: Map<Seq<char>, FileCacheEntryView>,
) -> Seq<FileItemView>
    decreases entries.len(),
{
    if entries.len() == 0 {
        Seq::empty()
    } else {
        let front = scanned_items(entries.drop_last(), cache);
        if is_meta_name(entries.last().name) {
            front
        } else {
            front.push(entries.last().item(scanned_cache(entries.drop_last(), cache)))
        }
    }
}

/// Tells whether entries of this name are left out of the listing.
pub fn meta_name(name: &str) -> (r: bool)
    ensures
        r == is_meta_name(name@),
{
    ends_with(name, ".mysync_meta")
}

fn partial(name: &str) -> (r: bool)
    ensures
        r == is_partial_name(name@),
{
    ends_with(name, ".mysync_partial") || ends_with(name, ".mysync_partial.hash")
}

fn entry_size(entry: &ScanEntry) -> (r: u64)
    ensures
        r == entry@.size(),
{
    match entry.metadata {
        Some(m) => m.size,
        None => 0,
    }
}

fn entry_modified(entry: &ScanEntry) -> (r: UtcTime)
    ensures
        r == entry@.modified(),
{
    match entry.metadata {
        Some(m) => match m.modified {
            Some(t) => t,
            None => UtcTime { secs: 0, nanos: 0 },
        },
        None => UtcTime { secs: 0, nanos: 0 },
    }
}

fn cached_hash(entry: &ScanEntry, cache: &Table<FileCacheEntry>) -> (r: Option<String>)
    ensures
        opt_text(r) == entry@.cached(cache_view(cache@)),
{
    match cache.get(entry.key.as_str()) {
        Some(c) => if c.size == entry_size(entry) && c.modified_ts == entry_modified(entry).secs {
            Some(c.hash.clone())
        } else {
            None
        },
        None => None,
    }
}

proof fn lemma_cache_insert(
    m: Map<Seq<char>, FileCacheEntry>,
    key: Seq<char>,
    e: FileCacheEntry,
)
    ensures
        cache_view(m.insert(key, e)) == cache_view(m).insert(key, e@),
{
    assert(cache_view(m.insert(key, e)) =~= cache_view(m).insert(key, e@));
}

/// Lists one entry and remembers its hash where it was computed.
fn list_entry(entry: ScanEntry, cache: &mut Table<FileCacheEntry>) -> (r: Option<FileItem>)
    ensures
        cache_view(final(cache)@) == entry@.cache_after(cache_view(old(cache)@)),
        match r {
            Some(item) => !is_meta_name(entry@.name) && item@ == entry@.item(cache_view(old(cache)@)),
            None => is_meta_name(entry@.name),
        },
{
    if meta_name(entry.name.as_str()) {
        return None;
    }
    let is_partial = partial(entry.name.as_str());
    let size: u64 = entry_size(&entry);
    let modified = entry_modified(&entry);
    let path = replace_char(entry.relative.as_str(), '\\', '/');
    let mut hash: Option<String> = None;
    if !entry.is_dir && !is_partial {
        hash = cached_hash(&entry, cache);
        if hash.is_none() {
            match entry.fresh_hash {
                Some(h) => {
                    hash = Some(h.clone());
                    let kept = FileCacheEntry { size, modified_ts: modified.secs, hash: h };
                    proof {
                        lemma_cache_insert(cache@, entry.key@, kept);
                    }
                    cache.insert(entry.key, kept);
                },
                None => {},
            }
        }
    }
    Some(
        FileItem {
            name: entry.name,
            path,
            is_dir: entry.is_dir,
            is_partial,
            size,
            modified_at: Some(modified),
            hash,
        },
    )
}

impl FileList {
    /// Tells whether the contents of an entry must be hashed before the entry is listed.
    pub fn needs_hash(entry: &ScanEntry, cache: &Table<FileCacheEntry>) -> (r: bool)
        ensures
            r == entry@.needs_hash(cache_view(cache@)),
    {
        if meta_name(entry.name.as_str()) || entry.is_dir || partial(entry.name.as_str()) {
            false
        } else {
            cached_hash(entry, cache).is_none()
        }
    }

    /// Lists the entries of a walk through a tree, sorted by path, and remembers in `cache` the
    /// hashes that were computed.
    pub fn scan(entries: Vec<ScanEntry>, cache: &mut Table<FileCacheEntry>) -> (r: FileList)
        ensures
            cache_view(final(cache)@) == scanned_cache(
                entry_views(entries@),
                cache_view(old(cache)@),
            ),
            sorts(
                scanned_items(entry_views(entries@), cache_view(old(cache)@)),
                item_views(r.items@),
            ),
    {
        let ghost all = entry_views(entries@);
        let ghost given = entries@;
        let ghost start = cache_view(cache@);
        let mut items: Vec<FileItem> = Vec::new();
        assert(item_views(items@) =~= scanned_items(all.take(0), start));
        for entry in it: entries
            invariant
                it.seq() == given,
                all == entry_views(given),
                start == cache_view(old(cache)@),
                cache_view(cache@) == scanned_cache(all.take(it.index() as int), start),
                item_views(items@) == scanned_items(all.take(it.index() as int), start),
        {
            let ghost i = it.index() as int;
            let ghost e = all[i];
            let ghost front = item_views(items@);
            proof {
                assert(all.take(i + 1).drop_last() =~= all.take(i));
                assert(all.take(i + 1).last() == e);
                assert(entry@ == e);
            }
            match list_entry(entry, cache) {
                Some(item) => {
                    let ghost x = item@;
                    items.push(item);
                    assert(item_views(items@) =~= front.push(x));
                },
                None => {},
            }
        }
        assert(all.take(all.len() as int) =~= all);
        FileList { items: sort_by_path(items) }
    }

    /// The hash of a file with the contents `content`.
    pub fn compute_file_hash(content: &[u8]) -> (r: String)
        ensures
            r@ == content_hash(content@),
            r@.len() == 64,
    {
        hash_content(content)
    }
}

/// The hash of a file that has not changed is not computed again: after a scan that computed it,
/// the cache has it.
pub proof fn unchanged_files_are_not_hashed_again(
    e: ScanEntryView,
    cache: Map<Seq<char>, FileCacheEntryView>,
)
    requires
        e.fresh_hash is Some,
    ensures
        !e.needs_hash(e.cache_after(cache)),
        e.is_hashed() ==> e.cached(e.cache_after(cache)) == e.listed_hash(cache),
{
}

/// A hash from the cache is listed only for a file whose size and time of change are those that it
/// was computed at.
pub proof fn changed_files_are_hashed_again(
    e: ScanEntryView,
    cache: Map<Seq<char>, FileCacheEntryView>,
)
    requires
        e.is_hashed(),
        cache.contains_key(e.key),
        cache[e.key].size != e.size() || cache[e.key].modified_ts != e.modified().secs,
    ensures
        e.needs_hash(cache),
        e.listed_hash(cache) == e.fresh_hash,
{
}

/// Which files must be hashed is settled before the scan: where no path occurs twice, the entries
/// seen before make no difference to it.
pub proof fn need_for_hash_is_settled(
    entries: Seq<ScanEntryView>,
    cache: Map<Seq<char>, FileCacheEntryView>,
    i: int,
)
    requires
        0 <= i < entries.len(),
        distinct_keys(entries),
    ensures
        entries[i].needs_hash(scanned_cache(entries.take(i), cache)) == entries[i].needs_hash(
            cache,
        ),
{
    lemma_other_keys_stay(entries.take(i), cache, entries[i].key);
}

/// Whether no path occurs twice.
pub open spec fn distinct_keys(entries: Seq<ScanEntryView>) -> bool {
    forall|a: int, b: int|
        0 <= a < b < entries.len() ==> (#[trigger] entries[a]).key != (#[trigger] entries[b]).key
}

/// A second scan of an unchanged tree hashes nothing, where the first one could hash what it had to.
pub proof fn second_scan_hashes_nothing(
    entries: Seq<ScanEntryView>,
    cache: Map<Seq<char>, FileCacheEntryView>,
    i: int,
)
    requires
        distinct_keys(entries),
        forall|a: int|
            0 <= a < entries.len() && (#[trigger] entries[a]).needs_hash(cache)
                ==> entries[a].fresh_hash is Some,
        0 <= i < entries.len(),
    ensures
        !entries[i].needs_hash(scanned_cache(entries, cache)),
{
    lemma_hash_is_remembered(entries, cache, i);
}

/// Whether `again` is seen of the same tree as `entries`: only the hashes that were computed may
/// differ, and what could not be hashed the first time cannot be hashed again.
pub open spec fn seen_again(
    entries: Seq<ScanEntryView>,
    again: Seq<ScanEntryView>,
    cache: Map<Seq<char>, FileCacheEntryView>,
) -> bool {
    &&& again.len() == entries.len()
    &&& forall|i: int|
        0 <= i < entries.len() ==> (#[trigger] again[i]) == (ScanEntryView {
            fresh_hash: again[i].fresh_hash,
            ..entries[i]
        }) && (entries[i].needs_hash(cache) && entries[i].fresh_hash is None
            ==> again[i].fresh_hash is None)
}

/// A second scan of an unchanged tree gives the same listing and leaves the cache as it is.
pub proof fn second_scan_changes_nothing(
    entries: Seq<ScanEntryView>,
    again: Seq<ScanEntryView>,
    cache: Map<Seq<char>, FileCacheEntryView>,
)
    requires
        distinct_keys(entries),
        seen_again(entries, again, cache),
    ensures
        ({
            let after = scanned_cache(entries, cache);
            &&& scanned_cache(again, after) == after
            &&& scanned_items(again, after) == scanned_items(entries, cache)
        }),
{
    lemma_second_scan(entries, again, cache, entries.len() as int);
    assert(again.take(again.len() as int) =~= again);
    assert(entries.take(entries.len() as int) =~= entries);
}

proof fn lemma_second_scan(
    entries: Seq<ScanEntryView>,
    again: Seq<ScanEntryView>,
    cache: Map<Seq<char>, FileCacheEntryView>,
    n: int,
)
    requires
        distinct_keys(entries),
        seen_again(entries, again, cache),
        0 <= n <= entries.len(),
    ensures
        ({
            let after = scanned_cache(entries, cache);
            &&& scanned_cache(again.take(n), after) == after
            &&& scanned_items(again.take(n), after) == scanned_items(entries.take(n), cache)
        }),
    decreases n,
{
    if n > 0 {
        let i = n - 1;
        let after = scanned_cache(entries, cache);
        lemma_second_scan(entries, again, cache, i);
        assert(again.take(n).drop_last() =~= again.take(i));
        assert(entries.take(n).drop_last() =~= entries.take(i));
        assert(again.take(n).last() == again[i] && entries.take(n).last() == entries[i]);
        lemma_entry_is_remembered(entries, cache, i);
        lemma_before_entry(entries, cache, i);
    }
}

proof fn lemma_before_entry(
    entries: Seq<ScanEntryView>,
    cache: Map<Seq<char>, FileCacheEntryView>,
    i: int,
)
    requires
        distinct_keys(entries),
        0 <= i < entries.len(),
    ensures
        ({
            let before = scanned_cache(entries.take(i), cache);
            let key = entries[i].key;
            &&& before.contains_key(key) == cache.contains_key(key)
            &&& cache.contains_key(key) ==> before[key] == cache[key]
        }),
{
    lemma_other_keys_stay(entries.take(i), cache, entries[i].key);
}

/// What the cache has for a file after a scan is what it has once the file was seen alone.
proof fn lemma_entry_is_remembered(
    entries: Seq<ScanEntryView>,
    cache: Map<Seq<char>, FileCacheEntryView>,
    i: int,
)
    requires
        distinct_keys(entries),
        0 <= i < entries.len(),
    ensures
        ({
            let after = scanned_cache(entries, cache);
            let alone = entries[i].cache_after(cache);
            let key = entries[i].key;
            &&& after.contains_key(key) == alone.contains_key(key)
            &&& alone.contains_key(key) ==> after[key] == alone[key]
        }),
    decreases entries.len(),
{
    let n = entries.len() - 1;
    let front = entries.drop_last();
    assert(entries.take(n) =~= front);
    if i < n {
        assert forall|a: int, b: int| 0 <= a < b < front.len() implies (#[trigger] front[a]).key
            != (#[trigger] front[b]).key by {
            assert(front[a] == entries[a] && front[b] == entries[b]);
        }
        lemma_entry_is_remembered(front, cache, i);
        assert(front[i] == entries[i]);
        assert(entries[i].key != entries[n].key);
    } else {
        lemma_before_entry(entries, cache, i);
    }
}

/// What a scan lists as the hash of a file is what the cache has for it afterwards.
pub proof fn lemma_hash_is_remembered(
    entries: Seq<ScanEntryView>,
    cache: Map<Seq<char>, FileCacheEntryView>,
    i: int,
)
    requires
        distinct_keys(entries),
        0 <= i < entries.len(),
    ensures
        ({
            let e = entries[i];
            let listed = e.listed_hash(scanned_cache(entries.take(i), cache));
            &&& listed is Some ==> e.cached(scanned_cache(entries, cache)) == listed
            &&& e.is_hashed() && listed is None ==> e.needs_hash(cache) && e.fresh_hash is None
        }),
    decreases entries.len(),
{
    let n = entries.len() - 1;
    let front = entries.drop_last();
    assert(entries.take(n) =~= front);
    if i < n {
        assert forall|a: int, b: int| 0 <= a < b < front.len() implies (#[trigger] front[a]).key
            != (#[trigger] front[b]).key by {
            assert(front[a] == entries[a] && front[b] == entries[b]);
        }
        lemma_hash_is_remembered(front, cache, i);
        assert(front[i] == entries[i]);
        assert(front.take(i) =~= entries.take(i));
        assert(entries[i].key != entries[n].key);
    } else {
        need_for_hash_is_settled(entries, cache, i);
    }
}

proof fn lemma_other_keys_stay(
    entries: Seq<ScanEntryView>,
    cache: Map<Seq<char>, FileCacheEntryView>,
    key: Seq<char>,
)
    requires
        forall|a: int| 0 <= a < entries.len() ==> (#[trigger] entries[a]).key != key,
    ensures
        ({
            let after = scanned_cache(entries, cache);
            &&& after.contains_key(key) == cache.contains_key(key)
            &&& cache.contains_key(key) ==> after[key] == cache[key]
        }),
    decreases entries.len(),
{
    if entries.len() > 0 {
        let front = entries.drop_last();
        assert forall|a: int| 0 <= a < front.len() implies (#[trigger] front[a]).key != key by {
            assert(front[a] == entries[a]);
        }
        lemma_other_keys_stay(front, cache, key);
        assert(entries[entries.len() - 1].key != key);
    }
}

/// The names under which a file is kept while it is uploaded are listed as partial, without a hash,
/// and none of them is left out.
pub proof fn uploads_are_listed_as_partial(
    e: ScanEntryView,
    name: Seq<char>,
    cache: Map<Seq<char>, FileCacheEntryView>,
)
    requires
        e.name == name + ".mysync_partial"@ || e.name == name + ".mysync_partial"@ + ".hash"@,
    ensures
        !is_meta_name(e.name),
        e.item(cache).is_partial,
        e.item(cache).hash is None,
        !e.needs_hash(cache),
{
    reveal_strlit(".mysync_partial");
    reveal_strlit(".hash");
    reveal_strlit(".mysync_partial.hash");
    reveal_strlit(".mysync_meta");
    let n = e.name;
    let tail = n.subrange(n.len() - ".mysync_meta"@.len(), n.len() as int);
    if n == name + ".mysync_partial"@ {
        assert(n.subrange(n.len() - 15, n.len() as int) =~= ".mysync_partial"@);
        assert(n.last() == 'l');
        assert(tail.last() == 'l');
    } else {
        assert(n.subrange(n.len() - 20, n.len() as int) =~= ".mysync_partial.hash"@);
        assert(n.last() == 'h');
        assert(tail.last() == 'h');
    }
    assert(".mysync_meta"@.last() == 'a');
}

/// The listing has an item for each entry that is not left out, and no other items.
pub proof fn listing_is_complete(
    entries: Seq<ScanEntryView>,
    cache: Map<Seq<char>, FileCacheEntryView>,
    r: Seq<FileItemView>,
    x: FileItemView,
)
    requires
        sorts(scanned_items(entries, cache), r),
    ensures
        r.contains(x) <==> exists|i: int|
            0 <= i < entries.len() && !is_meta_name((#[trigger] entries[i]).name) && x
                == entries[i].item(scanned_cache(entries.take(i), cache)),
{
    sorting_keeps_items(scanned_items(entries, cache), r, x);
    lemma_scanned_items(entries, cache, x);
}

proof fn lemma_scanned_items(
    entries: Seq<ScanEntryView>,
    cache: Map<Seq<char>, FileCacheEntryView>,
    x: FileItemView,
)
    ensures
        scanned_items(entries, cache).contains(x) <==> exists|i: int|
            0 <= i < entries.len() && !is_meta_name((#[trigger] entries[i]).name) && x
                == entries[i].item(scanned_cache(entries.take(i), cache)),
    decreases entries.len(),
{
    if entries.len() > 0 {
        let n = entries.len() - 1;
        let front = entries.drop_last();
        lemma_scanned_items(front, cache, x);
        assert(entries.take(n) =~= front);
        let before = scanned_items(front, cache);
        let all = scanned_items(entries, cache);
        if all.contains(x) {
            let k = all.index_of(x);
            if k < before.len() {
                assert(before[k] == x);
                let i = choose|i: int|
                    0 <= i < front.len() && !is_meta_name((#[trigger] front[i]).name) && x
                        == front[i].item(scanned_cache(front.take(i), cache));
                assert(entries[i] == front[i]);
                assert(entries.take(i) =~= front.take(i));
            } else {
                assert(entries[n].name == entries.last().name);
            }
        }
        if exists|i: int|
            0 <= i < entries.len() && !is_meta_name((#[trigger] entries[i]).name) && x
                == entries[i].item(scanned_cache(entries.take(i), cache)) {
            let i = choose|i: int|
                0 <= i < entries.len() && !is_meta_name((#[trigger] entries[i]).name) && x
                    == entries[i].item(scanned_cache(entries.take(i), cache));
            if i < n {
                assert(entries[i] == front[i]);
                assert(entries.take(i) =~= front.take(i));
                assert(before.contains(x));
                assert(all[before.index_of(x)] == x);
            } else {
                assert(all[all.len() - 1] == x);
            }
        }
    }
}

/// An item is listed under the path of its entry, be it a directory or a file: the path has the same
/// length and the same character at every position, except that a backslash is listed as a slash.
pub proof fn items_have_the_path_of_their_entry(
    e: ScanEntryView,
    cache: Map<Seq<char>, FileCacheEntryView>,
)
    ensures
        ({
            let path = e.item(cache).path;
            &&& path.len() == e.relative.len()
            &&& forall|i: int|
                0 <= i < path.len() ==> #[trigger] path[i] == if e.relative[i] == '\\' {
                    '/'
                } else {
                    e.relative[i]
                }
            &&& !e.relative.contains('\\') ==> path == e.relative
        }),
{
    if !e.relative.contains('\\') {
        assert(e.item(cache).path =~= e.relative);
    }
}

/// Entries with different paths are listed under different paths, where these have no backslashes.
pub proof fn different_entries_are_listed_apart(
    e: ScanEntryView,
    f: ScanEntryView,
    cache_e: Map<Seq<char>, FileCacheEntryView>,
    cache_f: Map<Seq<char>, FileCacheEntryView>,
)
    requires
        !e.relative.contains('\\'),
        !f.relative.contains('\\'),
        e.relative != f.relative,
    ensures
        e.item(cache_e).path != f.item(cache_f).path,
{
    items_have_the_path_of_their_entry(e, cache_e);
    items_have_the_path_of_their_entry(f, cache_f);
}

/// An item tells of its entry what was seen: the name, whether it is a directory, its size and its
/// time of change. What could not be seen is zero and the start of 1970. Names that end as those of
/// files in transfer do are marked.
pub proof fn items_tell_what_was_seen(e: ScanEntryView, cache: Map<Seq<char>, FileCacheEntryView>)
    ensures
        ({
            let item = e.item(cache);
            let start = UtcTime { secs: 0, nanos: 0 };
            &&& item.name == e.name
            &&& item.is_dir == e.is_dir
            &&& e.metadata is None ==> item.size == 0 && item.modified_at == Some(start)
            &&& e.metadata matches Some(m) ==> item.size == m.size && item.modified_at
                == if m.modified is Some {
                m.modified
            } else {
                Some(start)
            }
            &&& item.is_partial <==> has_suffix(e.name, ".mysync_partial"@) || has_suffix(
                e.name,
                ".mysync_partial.hash"@,
            )
        }),
{
}

/// A finished file is listed with the hash that the cache has for it, if the file has the size and
/// the time of change that it had then, and else with the one that was computed. Directories and
/// files in transfer have no hash. A hash is needed exactly where one is listed and the cache has
/// none for the file as it is.
pub proof fn finished_files_are_listed_with_their_hash(
    e: ScanEntryView,
    cache: Map<Seq<char>, FileCacheEntryView>,
)
    requires
        !has_suffix(e.name, ".mysync_meta"@),
    ensures
        ({
            let item = e.item(cache);
            let plain = !item.is_dir && !item.is_partial;
            let known = cache.contains_key(e.key) && cache[e.key].size == item.size && Some(
                cache[e.key].modified_ts,
            ) == (match item.modified_at {
                Some(t) => Some(t.secs),
                None => None,
            });
            &&& !plain ==> item.hash is None
            &&& plain && known ==> item.hash == Some(cache[e.key].hash)
            &&& plain && !known ==> item.hash == e.fresh_hash
            &&& e.needs_hash(cache) <==> plain && !known
        }),
{
}

/// Just the names that end as those of the server's own files do are left out, and their contents
/// are never hashed.
pub proof fn only_own_files_are_left_out(
    e: ScanEntryView,
    cache: Map<Seq<char>, FileCacheEntryView>,
)
    ensures
        is_meta_name(e.name) <==> has_suffix(e.name, ".mysync_meta"@),
        is_meta_name(e.name) ==> !e.needs_hash(cache) && e.cache_after(cache) == cache,
        is_meta_name(e.name) ==> scanned_items(seq![e], cache).len() == 0,
        !is_meta_name(e.name) ==> scanned_items(seq![e], cache) == seq![e.item(cache)],
{
    assert(seq![e].drop_last() =~= Seq::empty());
    assert(scanned_items(seq![e].drop_last(), cache) =~= Seq::empty());
    assert(scanned_cache(seq![e].drop_last(), cache) == cache);
    if !is_meta_name(e.name) {
        assert(scanned_items(seq![e], cache) =~= seq![e.item(cache)]);
    }
}

/// A hash that had to be computed is remembered with the size and the time of change that are
/// listed, and nothing else is written to the cache.
pub proof fn computed_hashes_are_remembered(
    e: ScanEntryView,
    cache: Map<Seq<char>, FileCacheEntryView>,
    other: Seq<char>,
)
    ensures
        ({
            let after = e.cache_after(cache);
            let item = e.item(cache);
            &&& e.needs_hash(cache) && e.fresh_hash is Some ==> {
                &&& after.contains_key(e.key)
                &&& Some(after[e.key].hash) == e.fresh_hash
                &&& after[e.key].size == item.size
                &&& item.modified_at matches Some(t) && after[e.key].modified_ts == t.secs
            }
            &&& !e.needs_hash(cache) || e.fresh_hash is None ==> after == cache
            &&& other != e.key ==> after.contains_key(other) == cache.contains_key(other)
                && after[other] == cache[other]
            &&& scanned_cache(seq![e], cache) == after
        }),
{
    assert(seq![e].drop_last() =~= Seq::empty());
    assert(scanned_cache(seq![e].drop_last(), cache) == cache);
}

/// A scan of two parts of a tree is the scan of the first and then of the second, with the cache as
/// the first left it.
pub proof fn scans_go_entry_by_entry(
    first: Seq<ScanEntryView>,
    later: Seq<ScanEntryView>,
    cache: Map<Seq<char>, FileCacheEntryView>,
)
    ensures
        scanned_cache(Seq::empty(), cache) == cache,
        scanned_items(Seq::empty(), cache).len() == 0,
        ({
            let between = scanned_cache(first, cache);
            &&& scanned_cache(first + later, cache) == scanned_cache(later, between)
            &&& scanned_items(first + later, cache) == scanned_items(first, cache)
                + scanned_items(later, between)
        }),
    decreases later.len(),
{
    let between = scanned_cache(first, cache);
    if later.len() == 0 {
        assert(first + later =~= first);
        assert(scanned_items(first, cache) + scanned_items(later, between) =~= scanned_items(
            first,
            cache,
        ));
    } else {
        scans_go_entry_by_entry(first, later.drop_last(), cache);
        assert((first + later).drop_last() =~= first + later.drop_last());
        assert(scanned_items(first + later, cache) =~= scanned_items(first, cache)
            + scanned_items(later, between));
    }
}

} // verus!
