//! Which files are uploaded, and to where, when files and folders are dropped.

use vstd::prelude::*;

use crate::text::{append, has_prefix, replace_char, replaced, trim, trimmed, CharClass};

verus! {

/// A file in a dropped folder.
pub struct FolderFile {
    pub local_path: String,
    /// The path from the directory that holds the folder, with the separators of the system.
    pub relative: String,
}

/// A file in a dropped folder as a mathematical value.
pub struct FolderFileView {
    pub local_path: Seq<char>,
    pub relative: Seq<char>,
}

impl View for FolderFile {
    type V = FolderFileView;

    open spec fn view(&self) -> FolderFileView {
        FolderFileView { local_path: self.local_path@, relative: self.relative@ }
    }
}

/// What was found at a dropped path.
pub enum Dropped {
    /// Nothing that can be uploaded.
    Nothing,
    /// A file of this name.
    File { path: String, name: String },
    /// A folder with these files, at any depth.
    Folder { files: Vec<FolderFile> },
}

/// What was found at a dropped path as a mathematical value.
pub enum DroppedView {
    Nothing,
    File { path: Seq<char>, name: Seq<char> },
    Folder { files: Seq<FolderFileView> },
}

/// The files of a folder as mathematical values.
pub open spec fn folder_views(v: Seq<FolderFile>) -> Seq<FolderFileView> {
    v.map_values(|f: FolderFile| f@)
}

impl View for Dropped {
    type V = DroppedView;

    open spec fn view(&self) -> DroppedView {
        match self {
            Dropped::Nothing => DroppedView::Nothing,
            Dropped::File { path, name } => DroppedView::File { path: path@, name: name@ },
            Dropped::Folder { files } => DroppedView::Folder { files: folder_views(files@) },
        }
    }
}

/// What was found at the dropped paths as mathematical values.
pub open spec fn dropped_views(v: Seq<Dropped>) -> Seq<DroppedView> {
    v.map_values(|d: Dropped| d@)
}

/// A file that is to be uploaded.
pub struct UploadItem {
    pub local_path: String,
    pub remote_path: String,
}

/// A file that is to be uploaded as a mathematical value.
pub struct UploadItemView {
    pub local_path: Seq<char>,
    pub remote_path: Seq<char>,
}

impl View for UploadItem {
    type V = UploadItemView;

    open spec fn view(&self) -> UploadItemView {
        UploadItemView { local_path: self.local_path@, remote_path: self.remote_path@ }
    }
}

/// The files that are to be uploaded as mathematical values.
pub open spec fn upload_views(v: Seq<UploadItem>) -> Seq<UploadItemView> {
    v.map_values(|i: UploadItem| i@)
}

/// The remote path of `rel` below the directory `base`, which is the top where it is empty.
pub open spec fn remote_path(base: Seq<char>, rel: Seq<char>) -> Seq<char> {
    if base.len() == 0 {
        rel
    } else {
        base + "/"@ + rel
    }
}

/// The upload of a file in a folder.
pub open spec fn folder_item(base: Seq<char>, f: FolderFileView) -> UploadItemView {
    UploadItemView {
        local_path: f.local_path,
        remote_path: remote_path(base, replaced(f.relative, '\\', '/')),
    }
}

impl DroppedView {
    /// The uploads for a dropped path.
    pub open spec fn items(self, base: Seq<char>) -> Seq<UploadItemView> {
        match self {
            DroppedView::Nothing => Seq::empty(),
            DroppedView::File { path, name } => seq![
                UploadItemView { local_path: path, remote_path: remote_path(base, name) },
            ],
            DroppedView::Folder { files } => files.map_values(
                |f: FolderFileView| folder_item(base, f),
            ),
        }
    }
}

/// The uploads for all dropped paths, in their order.
pub open spec fn upload_items(dropped: Seq<DroppedView>, base: Seq<char>) -> Seq<UploadItemView>
    decreases dropped.len(),
{
    if dropped.len() == 0 {
        Seq::empty()
    } else {
        upload_items(dropped.drop_last(), base) + dropped.last().items(base)
    }
}

fn remote(base: &str, rel: &str) -> (r: String)
    ensures
        r@ == remote_path(base@, rel@),
{
    if base.is_empty() {
        rel.to_owned()
    } else {
        let dir = append(base, "/");
        append(dir.as_str(), rel)
    }
}

fn add_folder(base: &str, files: Vec<FolderFile>, items: &mut Vec<UploadItem>)
    ensures
        upload_views(final(items)@) == upload_views(old(items)@) + folder_views(files@).map_values(
            |f: FolderFileView| folder_item(base@, f),
        ),
{
    let ghost all = folder_views(files@);
    let ghost given = files@;
    let ghost wanted = all.map_values(|f: FolderFileView| folder_item(base@, f));
    let ghost before = upload_views(items@);
    assert(before + wanted.take(0) =~= before);
    for file in it: files
        invariant
            it.seq() == given,
            all == folder_views(given),
            wanted == all.map_values(|f: FolderFileView| folder_item(base@, f)),
            before == upload_views(old(items)@),
            upload_views(items@) == before + wanted.take(it.index() as int),
    {
        let ghost i = it.index() as int;
        let ghost had = upload_views(items@);
        let rel = replace_char(file.relative.as_str(), '\\', '/');
        let item = UploadItem {
            remote_path: remote(base, rel.as_str()),
            local_path: file.local_path,
        };
        let ghost x = item@;
        items.push(item);
        proof {
            assert(file@ == all[i]);
            assert(x == wanted[i]);
            assert(upload_views(items@) =~= had.push(x));
            assert(wanted.take(i + 1) =~= wanted.take(i).push(x));
            assert(upload_views(items@) =~= before + wanted.take(i + 1));
        }
    }
    assert(wanted.take(all.len() as int) =~= wanted);
}

/// The uploads for dropped files and folders, into the directory `target_dir` of the server.
pub fn prepare_upload_items(dropped: Vec<Dropped>, target_dir: &str) -> (r: Vec<UploadItem>)
    ensures
        upload_views(r@) == upload_items(
            dropped_views(dropped@),
            trimmed(target_dir@, CharClass::Slash),
        ),
{
    let base = trim(target_dir, CharClass::Slash);
    let mut items: Vec<UploadItem> = Vec::new();
    let ghost all = dropped_views(dropped@);
    let ghost given = dropped@;
    assert(upload_views(items@) =~= upload_items(all.take(0), base@));
    for one in it: dropped
        invariant
            it.seq() == given,
            all == dropped_views(given),
            upload_views(items@) == upload_items(all.take(it.index() as int), base@),
    {
        let ghost i = it.index() as int;
        let ghost had = upload_views(items@);
        proof {
            assert(one@ == all[i]);
            assert(all.take(i + 1).drop_last() =~= all.take(i));
            assert(all.take(i + 1).last() == all[i]);
        }
        match one {
            Dropped::Nothing => {
                assert(had =~= had + all[i].items(base@));
            },
            Dropped::File { path, name } => {
                let item = UploadItem {
                    remote_path: remote(base.as_str(), name.as_str()),
                    local_path: path,
                };
                let ghost x = item@;
                items.push(item);
                assert(upload_views(items@) =~= had + seq![x]);
            },
            Dropped::Folder { files } => {
                add_folder(base.as_str(), files, &mut items);
            },
        }
    }
    assert(all.take(all.len() as int) =~= all);
    items
}

/// Everything that is uploaded goes into the target directory.
pub proof fn uploads_go_into_the_target_directory(
    dropped: Seq<DroppedView>,
    base: Seq<char>,
    i: int,
)
    requires
        base.len() > 0,
        0 <= i < upload_items(dropped, base).len(),
    ensures
        has_prefix(upload_items(dropped, base)[i].remote_path, base + "/"@),
    decreases dropped.len(),
{
    let front = upload_items(dropped.drop_last(), base);
    if i < front.len() {
        uploads_go_into_the_target_directory(dropped.drop_last(), base, i);
    } else {
        let last = dropped.last().items(base);
        let path = last[i - front.len()].remote_path;
        let dir = base + "/"@;
        assert(upload_items(dropped, base)[i] == last[i - front.len()]);
        assert(exists|rel: Seq<char>| path == dir + rel) by {
            match dropped.last() {
                DroppedView::Nothing => {},
                DroppedView::File { path: _, name } => {
                    assert(path == dir + name);
                },
                DroppedView::Folder { files } => {
                    let rel = replaced(files[i - front.len()].relative, '\\', '/');
                    assert(path == dir + rel);
                },
            }
        }
        let rel = choose|rel: Seq<char>| path == dir + rel;
        assert(path.subrange(0, dir.len() as int) =~= dir);
    }
}

/// The remote paths of files in folders have no separators but slashes, where the target directory
/// has none.
pub proof fn folders_are_uploaded_with_slashes(base: Seq<char>, f: FolderFileView)
    requires
        !base.contains('\\'),
    ensures
        !folder_item(base, f).remote_path.contains('\\'),
{
    reveal_strlit("/");
    let rel = replaced(f.relative, '\\', '/');
    let path = remote_path(base, rel);
    if path.contains('\\') {
        let i = path.index_of('\\');
        if base.len() == 0 {
            assert(rel[i] != '\\');
        } else if i < base.len() {
            assert(base[i] == '\\');
        } else if i > base.len() {
            assert(rel[i - base.len() - 1] != '\\');
        }
    }
}

/// A file in a dropped folder keeps its path. For every target directory its remote path ends with
/// the path from the folder on, character by character, except that a backslash is a slash. Where
/// the target directory is the top, that is the whole path; else the directory and one slash stand
/// before it. The file itself is the one that was found.
pub proof fn folder_files_keep_their_path(base: Seq<char>, f: FolderFileView)
    ensures
        ({
            let item = folder_item(base, f);
            let path = item.remote_path;
            let start = if base.len() == 0 {
                0
            } else {
                base.len() + 1
            };
            &&& item.local_path == f.local_path
            &&& path.len() == start + f.relative.len()
            &&& forall|i: int|
                0 <= i < f.relative.len() ==> #[trigger] path[start + i] == if f.relative[i]
                    == '\\' {
                    '/'
                } else {
                    f.relative[i]
                }
            &&& base.len() > 0 ==> path.take(base.len() as int) == base && path[base.len() as int]
                == '/'
        }),
{
    reveal_strlit("/");
    if base.len() > 0 {
        assert(folder_item(base, f).remote_path.take(base.len() as int) =~= base);
    }
}

/// Files of a folder with different paths are uploaded to different places, where their paths have
/// no backslashes.
pub proof fn folder_files_do_not_collide(base: Seq<char>, f: FolderFileView, g: FolderFileView)
    requires
        !f.relative.contains('\\'),
        !g.relative.contains('\\'),
        f.relative != g.relative,
    ensures
        folder_item(base, f).remote_path != folder_item(base, g).remote_path,
{
    folder_files_keep_their_path(base, f);
    folder_files_keep_their_path(base, g);
    let p = folder_item(base, f).remote_path;
    let q = folder_item(base, g).remote_path;
    if p == q {
        let start = if base.len() == 0 {
            0
        } else {
            base.len() + 1
        };
        assert forall|i: int| 0 <= i < f.relative.len() implies f.relative[i] == g.relative[i] by {
            assert(f.relative.contains(f.relative[i]) && g.relative.contains(g.relative[i]));
            assert(p[start + i] == q[start + i]);
        }
        assert(f.relative =~= g.relative);
    }
}

/// A dropped file is uploaded under its name, at the top or below the target directory; a dropped
/// folder is uploaded file by file, in the order in which they were found; and for anything else
/// nothing is uploaded.
pub proof fn dropped_paths_are_uploaded(d: DroppedView, base: Seq<char>)
    ensures
        d is Nothing ==> d.items(base).len() == 0,
        d matches DroppedView::File { path, name } ==> {
            &&& d.items(base).len() == 1
            &&& d.items(base)[0].local_path == path
            &&& base.len() == 0 ==> d.items(base)[0].remote_path == name
            &&& base.len() > 0 ==> d.items(base)[0].remote_path == base + seq!['/'] + name
        },
        d matches DroppedView::Folder { files } ==> {
            &&& d.items(base).len() == files.len()
            &&& forall|i: int|
                0 <= i < files.len() ==> (#[trigger] d.items(base)[i]).local_path
                    == files[i].local_path && d.items(base)[i].remote_path == folder_item(
                    base,
                    files[i],
                ).remote_path
        },
{
    reveal_strlit("/");
    assert("/"@ =~= seq!['/']);
}

/// What is dropped is uploaded in its order: first all of what was dropped first, and nothing more.
pub proof fn drops_are_uploaded_in_order(
    first: Seq<DroppedView>,
    later: Seq<DroppedView>,
    base: Seq<char>,
)
    ensures
        upload_items(Seq::empty(), base).len() == 0,
        first.len() == 1 ==> upload_items(first, base) == first[0].items(base),
        upload_items(first + later, base) == upload_items(first, base) + upload_items(later, base),
    decreases later.len(),
{
    if first.len() == 1 {
        assert(first.drop_last() =~= Seq::empty());
        assert(upload_items(first.drop_last(), base) =~= Seq::empty());
        assert(upload_items(first, base) =~= first[0].items(base));
    }
    if later.len() == 0 {
        assert(first + later =~= first);
        assert(upload_items(first, base) + upload_items(later, base) =~= upload_items(first, base));
    } else {
        drops_are_uploaded_in_order(first, later.drop_last(), base);
        assert((first + later).drop_last() =~= first + later.drop_last());
        assert(upload_items(first + later, base) =~= upload_items(first, base) + upload_items(
            later,
            base,
        ));
    }
}

} // verus!
