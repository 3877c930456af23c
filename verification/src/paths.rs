//! Paths: their parts, safe resolution below a base directory, and names derived from them.

use std::path::{Component, Path, PathBuf};

use vstd::prelude::*;

use crate::text::{
    append, has_prefix, has_suffix, lemma_leading_gone, opt_text, replace_char, replaced, split_on,
    texts_are_split_at_every_separator, trim_start, without_leading, CharClass,
};

verus! {

/// One part of a path.
pub enum PathPart {
    /// What stands before the root on some systems, such as a drive.
    Prefix(String),
    /// The root directory.
    RootDir,
    /// The current directory, `.`.
    CurDir,
    /// The parent directory, `..`.
    ParentDir,
    /// The name of a file or a directory.
    Normal(String),
}

/// One part of a path, as a mathematical value.
pub enum PathPartView {
    Prefix(Seq<char>),
    RootDir,
    CurDir,
    ParentDir,
    Normal(Seq<char>),
}

impl View for PathPart {
    type V = PathPartView;

    open spec fn view(&self) -> PathPartView {
        match self {
            PathPart::Prefix(s) => PathPartView::Prefix(s@),
            PathPart::RootDir => PathPartView::RootDir,
            PathPart::CurDir => PathPartView::CurDir,
            PathPart::ParentDir => PathPartView::ParentDir,
            PathPart::Normal(s) => PathPartView::Normal(s@),
        }
    }
}

/// The parts of a path, as mathematical values.
pub open spec fn part_views(v: Seq<PathPart>) -> Seq<PathPartView> {
    v.map_values(|p: PathPart| p@)
}

/// The parts that the pieces of a path between its slashes stand for, from the `i`th on.
pub open spec fn piece_parts(pieces: Seq<Seq<char>>, i: int) -> Seq<PathPartView>
    decreases pieces.len() - i,
{
    if i < 0 || i >= pieces.len() {
        Seq::empty()
    } else {
        let rest = piece_parts(pieces, i + 1);
        if pieces[i] == seq!['.', '.'] {
            seq![PathPartView::ParentDir] + rest
        } else if pieces[i] == seq!['.'] && i == 0 {
            seq![PathPartView::CurDir] + rest
        } else if pieces[i] == seq!['.'] || pieces[i].len() == 0 {
            rest
        } else {
            seq![PathPartView::Normal(pieces[i])] + rest
        }
    }
}

/// The parts of a path whose separators are slashes: a leading slash is the root, repeated and
/// trailing slashes count for nothing, and so does a `.` that does not begin the path.
pub open spec fn slash_parts(path: Seq<char>) -> Seq<PathPartView> {
    let parts = piece_parts(split_on(path, '/'), 0);
    if path.len() > 0 && path[0] == '/' {
        seq![PathPartView::RootDir] + parts
    } else {
        parts
    }
}

/// Whether a part can occur in a path: a name is not empty and is neither `.` nor `..`.
pub open spec fn proper_part(p: PathPartView) -> bool {
    p matches PathPartView::Normal(n) ==> n.len() > 0 && n != seq!['.'] && n != seq!['.', '.']
}

/// Whether a path begins with a separator of some system.
pub open spec fn starts_rooted(path: Seq<char>) -> bool {
    path.len() > 0 && CharClass::PathSeparator.has(path[0])
}

/// Whether a path begins with two separators.
pub open spec fn starts_twice(path: Seq<char>) -> bool {
    starts_rooted(path) && starts_rooted(path.skip(1))
}

/// Whether a path has the form in which some systems take every character as it stands.
pub open spec fn verbatim(path: Seq<char>) -> bool {
    has_prefix(path, "\\\\?\\"@)
}

/// Whether a path begins with a letter and a colon, which is a drive on some systems.
pub open spec fn has_drive(path: Seq<char>) -> bool {
    path.len() > 1 && path[1] == ':' && ('a' <= path[0] <= 'z' || 'A' <= path[0] <= 'Z')
}

/// The pieces behind the first two characters of a path.
pub open spec fn share_pieces(path: Seq<char>) -> Seq<Seq<char>> {
    split_on(replaced(path.skip(2), '\\', '/'), '/')
}

/// How long two separators and the two pieces behind them are.
pub open spec fn share_len(path: Seq<char>) -> int {
    3int + share_pieces(path)[0].len() + share_pieces(path)[1].len()
}

/// Whether a path begins with two separators and two pieces, which is a share of another computer
/// on some systems.
pub open spec fn has_share(path: Seq<char>) -> bool {
    &&& starts_twice(path)
    &&& share_pieces(path).len() > 1
    &&& share_pieces(path)[0].len() > 0
    &&& share_pieces(path)[1].len() > 0
}

/// Whether a path begins like the name of a device on some systems.
pub open spec fn has_device(path: Seq<char>) -> bool {
    starts_twice(path) && share_pieces(path).len() > 1 && share_pieces(path)[0] == seq!['.']
}

/// How a path is read. One system has only the first way. The others belong to a system of drives
/// and shares; which of them it takes goes by how the path begins.
#[derive(Clone, Copy, PartialEq, Eq, Structural, Debug)]
pub enum Reading {
    /// Slashes separate the parts, and no other character does.
    Slash,
    /// Slashes and backslashes separate the parts.
    Both,
    /// The path begins with a drive. Slashes and backslashes separate the parts behind it.
    Drive,
    /// The path begins with two separators and two pieces. Slashes and backslashes separate the
    /// parts behind them, which start at the root.
    Share,
}

/// Whether a path can be read in a way.
pub open spec fn fits(path: Seq<char>, way: Reading) -> bool {
    match way {
        Reading::Slash => true,
        Reading::Both => !verbatim(path) && !has_drive(path) && !has_share(path),
        Reading::Drive => has_drive(path),
        Reading::Share => !verbatim(path) && (has_share(path) || has_device(path)),
    }
}

/// The parts of a path that is read in a way.
pub open spec fn parts_by(path: Seq<char>, way: Reading) -> Seq<PathPartView> {
    match way {
        Reading::Slash => slash_parts(path),
        Reading::Both => slash_parts(replaced(path, '\\', '/')),
        Reading::Drive => seq![PathPartView::Prefix(path.take(2))] + slash_parts(
            replaced(path.skip(2), '\\', '/'),
        ),
        Reading::Share => seq![PathPartView::Prefix(path.take(share_len(path)))] + slash_parts(
            seq!['/'] + replaced(path.skip(share_len(path)), '\\', '/'),
        ),
    }
}

/// Whether `r` can be the parts of `path` on some system. How a verbatim path goes on behind its
/// prefix is left open.
pub open spec fn parts_of(path: Seq<char>, r: Seq<PathPartView>) -> bool {
    &&& forall|i: int| 0 <= i < r.len() ==> proper_part(#[trigger] r[i])
    &&& {
        ||| exists|way: Reading| #[trigger] fits(path, way) && r == parts_by(path, way)
        ||| verbatim(path) && r.len() > 0 && r[0] is Prefix
    }
}

/// `Path::components` of the standard library takes a path apart. Which characters separate the
/// parts, and what a prefix is, depends on the system: it reads the path in one of the ways that
/// fit. Where the system knows verbatim paths, nothing is said of what follows the prefix of one.
/// On every system a name is not empty and is neither `.` nor `..`.
#[verifier::external_body]
fn components(path: &str) -> (r: Vec<PathPart>)
    ensures
        parts_of(path@, part_views(r@)),
{
    Path::new(path).components().map(|c| match c {
        Component::Prefix(p) => PathPart::Prefix(p.as_os_str().to_string_lossy().into_owned()),
        Component::RootDir => PathPart::RootDir,
        Component::CurDir => PathPart::CurDir,
        Component::ParentDir => PathPart::ParentDir,
        Component::Normal(n) => PathPart::Normal(n.to_string_lossy().into_owned()),
    }).collect()
}

/// Why a path is refused.
#[derive(Clone, Copy, PartialEq, Eq, Structural, Debug)]
pub enum ResolveError {
    /// The path leads above the base directory.
    Traversal,
    /// The path leads through a symbolic link.
    Symlink,
}

impl ResolveError {
    /// The text that reports the error.
    pub open spec fn text(self) -> Seq<char> {
        match self {
            ResolveError::Traversal => "パストラバーサル攻撃を検知しました"@,
            ResolveError::Symlink => "シンボリックリンクを経由したアクセスはセキュリティのため禁止されています"@,
        }
    }

    /// The text that reports the error.
    pub fn message(&self) -> (r: &'static str)
        ensures
            r@ == self.text(),
    {
        match self {
            ResolveError::Traversal => "パストラバーサル攻撃を検知しました",
            ResolveError::Symlink => "シンボリックリンクを経由したアクセスはセキュリティのため禁止されています",
        }
    }
}

/// What resolving `parts` gives when the names `names` have been entered below the base directory
/// and `links` tells which chains of names lead to a symbolic link.
pub open spec fn resolve(
    parts: Seq<PathPartView>,
    names: Seq<Seq<char>>,
    links: spec_fn(Seq<Seq<char>>) -> bool,
) -> Result<Seq<Seq<char>>, ResolveError>
    decreases parts.len(),
{
    if parts.len() == 0 {
        Ok(names)
    } else {
        let rest = parts.drop_first();
        match parts[0] {
            PathPartView::Prefix(_) => resolve(rest, names, links),
            PathPartView::RootDir => resolve(rest, names, links),
            PathPartView::CurDir => resolve(rest, names, links),
            PathPartView::ParentDir => if names.len() == 0 {
                Err(ResolveError::Traversal)
            } else {
                resolve(rest, names.drop_last(), links)
            },
            PathPartView::Normal(n) => if links(names.push(n)) {
                Err(ResolveError::Symlink)
            } else {
                resolve(rest, names.push(n), links)
            },
        }
    }
}

/// What a resolver asks for next.
#[derive(Clone, Copy, PartialEq, Eq, Structural, Debug)]
pub enum ResolveStep {
    /// Find out whether the names entered so far lead to a symbolic link.
    Probe,
    /// The path is resolved: the names entered are the result.
    Done,
    /// The path is refused.
    Refused(ResolveError),
}

/// A path from a client on its way to a place below the base directory.
pub struct SafePathResolver {
    parts: Vec<PathPart>,
    next: usize,
    names: Vec<String>,
    probing: bool,
}

/// The names of a list, as mathematical values.
pub open spec fn name_views(v: Seq<String>) -> Seq<Seq<char>> {
    v.map_values(|s: String| s@)
}

impl SafePathResolver {
    #[verifier::type_invariant]
    spec fn inv(self) -> bool {
        self.next <= self.parts@.len()
    }

    /// The parts that are still to be entered.
    pub closed spec fn rest(self) -> Seq<PathPartView> {
        part_views(self.parts@).skip(self.next as int)
    }

    /// The names entered so far.
    pub closed spec fn entered(self) -> Seq<Seq<char>> {
        name_views(self.names@)
    }

    /// Whether the last name has been entered but not yet found to be no symbolic link.
    pub closed spec fn awaits(self) -> bool {
        self.probing
    }

    /// Where the path ends up when `links` tells which chains of names lead to a symbolic link.
    pub open spec fn outcome(
        self,
        links: spec_fn(Seq<Seq<char>>) -> bool,
    ) -> Result<Seq<Seq<char>>, ResolveError> {
        if self.awaits() && links(self.entered()) {
            Err(ResolveError::Symlink)
        } else {
            resolve(self.rest(), self.entered(), links)
        }
    }

    /// The names entered so far, from the base directory down.
    pub fn names(&self) -> (r: &Vec<String>)
        ensures
            name_views(r@) == self.entered(),
    {
        &self.names
    }

    /// Goes on to the next name. `is_symlink` answers the last `Probe`, and counts for nothing
    /// where none was asked.
    pub fn step(&mut self, is_symlink: bool) -> (r: ResolveStep)
        ensures
            match r {
                ResolveStep::Probe => {
                    &&& final(self).awaits()
                    &&& final(self).rest().len() < old(self).rest().len()
                    &&& forall|links: spec_fn(Seq<Seq<char>>) -> bool|
                        (old(self).awaits() ==> links(old(self).entered()) == is_symlink)
                            ==> #[trigger] old(self).outcome(links) == final(self).outcome(links)
                },
                ResolveStep::Done => {
                    &&& !final(self).awaits()
                    &&& forall|links: spec_fn(Seq<Seq<char>>) -> bool|
                        (old(self).awaits() ==> links(old(self).entered()) == is_symlink)
                            ==> #[trigger] old(self).outcome(links) == Ok::<
                            Seq<Seq<char>>,
                            ResolveError,
                        >(final(self).entered())
                },
                ResolveStep::Refused(e) => forall|links: spec_fn(Seq<Seq<char>>) -> bool|
                    (old(self).awaits() ==> links(old(self).entered()) == is_symlink)
                        ==> #[trigger] old(self).outcome(links) == Err::<
                        Seq<Seq<char>>,
                        ResolveError,
                    >(e),
            },
    {
        proof {
            use_type_invariant(&*self);
        }
        let ghost start = *self;
        if self.probing && is_symlink {
            return ResolveStep::Refused(ResolveError::Symlink);
        }
        self.probing = false;
        let mut names: Vec<String> = Vec::new();
        std::mem::swap(&mut names, &mut self.names);
        while self.next < self.parts.len()
            invariant
                start == *old(self),
                !self.probing,
                self.parts@ == start.parts@,
                start.next <= self.next <= self.parts@.len(),
                self.rest().len() <= start.rest().len(),
                forall|links: spec_fn(Seq<Seq<char>>) -> bool|
                    (start.awaits() ==> links(start.entered()) == is_symlink)
                        ==> #[trigger] start.outcome(links) == resolve(
                        self.rest(),
                        name_views(names@),
                        links,
                    ),
            decreases self.parts@.len() - self.next,
        {
            let ghost here = self.rest();
            let ghost had = name_views(names@);
            let at: usize = self.next;
            self.next = at + 1;
            proof {
                assert(here[0] == self.parts@[at as int]@);
                assert(here.drop_first() =~= self.rest());
            }
            match &self.parts[at] {
                PathPart::Prefix(_) => {},
                PathPart::RootDir => {},
                PathPart::CurDir => {},
                PathPart::ParentDir => {
                    if names.len() == 0 {
                        self.names = names;
                        return ResolveStep::Refused(ResolveError::Traversal);
                    }
                    names.pop();
                    assert(name_views(names@) =~= had.drop_last());
                },
                PathPart::Normal(n) => {
                    names.push(n.clone());
                    assert(name_views(names@) =~= had.push(n@));
                    self.names = names;
                    self.probing = true;
                    return ResolveStep::Probe;
                },
            }
        }
        assert(self.rest().len() == 0);
        self.names = names;
        ResolveStep::Done
    }
}

/// Begins to resolve a path that a client named.
pub fn resolve_safe_path(user_path: &str) -> (r: SafePathResolver)
    ensures
        parts_of(user_path@, r.rest()),
        r.entered() == Seq::<Seq<char>>::empty(),
        !r.awaits(),
{
    let parts = components(user_path);
    let r = SafePathResolver { parts, next: 0, names: Vec::new(), probing: false };
    assert(r.rest() =~= part_views(r.parts@));
    assert(r.entered() =~= Seq::<Seq<char>>::empty());
    r
}

/// Whether a part leaves the place in the tree unchanged.
pub open spec fn is_marker(p: PathPartView) -> bool {
    !(p is ParentDir) && !(p is Normal)
}

/// Prefixes, the root and the current directory count for nothing wherever they stand: an absolute
/// path leads to the same place as the relative one.
pub proof fn markers_count_for_nothing(
    parts: Seq<PathPartView>,
    i: int,
    p: PathPartView,
    names: Seq<Seq<char>>,
    links: spec_fn(Seq<Seq<char>>) -> bool,
)
    requires
        0 <= i <= parts.len(),
        is_marker(p),
    ensures
        resolve(parts.insert(i, p), names, links) == resolve(parts, names, links),
    decreases parts.len(),
{
    let longer = parts.insert(i, p);
    if i == 0 {
        assert(longer.drop_first() =~= parts);
    } else {
        let rest = parts.drop_first();
        assert(longer.drop_first() =~= rest.insert(i - 1, p));
        match parts[0] {
            PathPartView::ParentDir => {
                if names.len() > 0 {
                    markers_count_for_nothing(rest, i - 1, p, names.drop_last(), links);
                }
            },
            PathPartView::Normal(n) => {
                markers_count_for_nothing(rest, i - 1, p, names.push(n), links);
            },
            _ => {
                markers_count_for_nothing(rest, i - 1, p, names, links);
            },
        }
    }
}

proof fn lemma_split_slash(a: Seq<char>, b: Seq<char>)
    ensures
        split_on(a + seq!['/'] + b, '/') == split_on(a, '/') + split_on(b, '/'),
        split_on(a, '/').len() > 0,
        split_on(b, '/').len() > 0,
{
    texts_are_split_at_every_separator(a, b, '/');
    texts_are_split_at_every_separator(b, a, '/');
}

proof fn lemma_pieces_shifted(pieces: Seq<Seq<char>>, i: int)
    requires
        1 <= i,
    ensures
        piece_parts(seq![Seq::<char>::empty()] + pieces, i + 1) == piece_parts(pieces, i),
    decreases pieces.len() - i,
{
    if i < pieces.len() {
        lemma_pieces_shifted(pieces, i + 1);
    }
}

proof fn lemma_rooted_parts(
    path: Seq<char>,
    names: Seq<Seq<char>>,
    links: spec_fn(Seq<Seq<char>>) -> bool,
)
    ensures
        resolve(slash_parts(seq!['/'] + path), names, links) == resolve(
            slash_parts(path),
            names,
            links,
        ),
{
    let none = Seq::<char>::empty();
    let pieces = split_on(path, '/');
    let shifted = seq![none] + pieces;
    assert(none + seq!['/'] + path =~= seq!['/'] + path);
    lemma_split_slash(none, path);
    assert(split_on(none, '/') =~= seq![none]);
    lemma_pieces_shifted(pieces, 1);
    let rest = piece_parts(shifted, 1);
    assert(shifted[0].len() == 0 && shifted[1] == pieces[0]);
    assert(piece_parts(shifted, 0) == rest);
    assert(slash_parts(seq!['/'] + path) =~= rest.insert(0, PathPartView::RootDir));
    markers_count_for_nothing(rest, 0, PathPartView::RootDir, names, links);
    if path.len() > 0 && path[0] == '/' {
        let tail = path.drop_first();
        assert(none + seq!['/'] + tail =~= path);
        lemma_split_slash(none, tail);
        assert(pieces[0] == none);
        assert(slash_parts(path) =~= rest.insert(0, PathPartView::RootDir));
    } else if pieces[0] == seq!['.'] {
        assert(seq!['.'].len() != seq!['.', '.'].len());
        assert(slash_parts(path) =~= rest.insert(0, PathPartView::CurDir));
        markers_count_for_nothing(rest, 0, PathPartView::CurDir, names, links);
    } else {
        assert(slash_parts(path) =~= rest);
    }
}

/// A path leads to the same place with a slash before it, whether or not it begins with one already,
/// where both are read with slashes alone or both with slashes and backslashes.
pub proof fn absolute_path_is_taken_as_relative(
    path: Seq<char>,
    way: Reading,
    names: Seq<Seq<char>>,
    links: spec_fn(Seq<Seq<char>>) -> bool,
)
    requires
        way == Reading::Slash || way == Reading::Both,
    ensures
        resolve(parts_by(seq!['/'] + path, way), names, links) == resolve(
            parts_by(path, way),
            names,
            links,
        ),
{
    assert(replaced(seq!['/'] + path, '\\', '/') =~= seq!['/'] + replaced(path, '\\', '/'));
    lemma_rooted_parts(path, names, links);
    lemma_rooted_parts(replaced(path, '\\', '/'), names, links);
}

/// The parts that names stand for.
spec fn name_parts(names: Seq<Seq<char>>) -> Seq<PathPartView> {
    names.map_values(|n: Seq<char>| PathPartView::Normal(n))
}

/// Whether `names` are names of entries, none of which holds a slash.
spec fn plain_names(names: Seq<Seq<char>>) -> bool {
    forall|i: int|
        0 <= i < names.len() ==> proper_name(#[trigger] names[i]) && !names[i].contains('/')
}

proof fn lemma_split_name(n: Seq<char>)
    requires
        !n.contains('/'),
    ensures
        split_on(n, '/') == seq![n],
{
    texts_are_split_at_every_separator(n, n, '/');
}

proof fn lemma_split_joined(names: Seq<Seq<char>>)
    requires
        names.len() > 0,
        forall|i: int| 0 <= i < names.len() ==> !(#[trigger] names[i]).contains('/'),
    ensures
        split_on(joined(names), '/') == names,
    decreases names.len(),
{
    let last = names.last();
    assert(names[names.len() - 1] == last);
    lemma_split_name(last);
    if names.len() > 1 {
        let front = names.drop_last();
        assert forall|i: int| 0 <= i < front.len() implies !(#[trigger] front[i]).contains('/') by {
            assert(front[i] == names[i]);
        }
        lemma_split_joined(front);
        lemma_split_slash(joined(front), last);
        assert(front + seq![last] =~= names);
    } else {
        assert(seq![last] =~= names);
    }
}

proof fn lemma_plain_pieces(pieces: Seq<Seq<char>>, i: int)
    requires
        0 <= i <= pieces.len(),
        plain_names(pieces.skip(i)),
    ensures
        piece_parts(pieces, i) == name_parts(pieces.skip(i)),
    decreases pieces.len() - i,
{
    if i < pieces.len() {
        let rest = pieces.skip(i + 1);
        assert forall|k: int| 0 <= k < rest.len() implies proper_name(#[trigger] rest[k])
            && !rest[k].contains('/') by {
            assert(rest[k] == pieces.skip(i)[k + 1]);
        }
        lemma_plain_pieces(pieces, i + 1);
        assert(proper_name(pieces.skip(i)[0]));
        assert(name_parts(pieces.skip(i)) =~= seq![PathPartView::Normal(pieces[i])] + name_parts(
            rest,
        ));
    } else {
        assert(name_parts(pieces.skip(i)) =~= Seq::empty());
    }
}

proof fn lemma_names_resolve(
    names: Seq<Seq<char>>,
    i: int,
    links: spec_fn(Seq<Seq<char>>) -> bool,
)
    requires
        0 <= i <= names.len(),
        forall|k: int| 1 <= k <= names.len() ==> !links(#[trigger] names.take(k)),
    ensures
        resolve(name_parts(names.skip(i)), names.take(i), links) == Ok::<
            Seq<Seq<char>>,
            ResolveError,
        >(names),
    decreases names.len() - i,
{
    let parts = name_parts(names.skip(i));
    if i < names.len() {
        lemma_names_resolve(names, i + 1, links);
        assert(parts[0] == PathPartView::Normal(names[i]));
        assert(parts.drop_first() =~= name_parts(names.skip(i + 1)));
        assert(names.take(i).push(names[i]) =~= names.take(i + 1));
        assert(!links(names.take(i + 1)));
    } else {
        assert(names.take(i) =~= names);
    }
}

/// What names that were entered are written as leads to them, also with `./` before it.
proof fn lemma_joined_resolves(names: Seq<Seq<char>>, links: spec_fn(Seq<Seq<char>>) -> bool)
    requires
        plain_names(names),
        forall|k: int| 1 <= k <= names.len() ==> !links(#[trigger] names.take(k)),
    ensures
        resolve(slash_parts(joined(names)), Seq::empty(), links) == Ok::<
            Seq<Seq<char>>,
            ResolveError,
        >(names),
        resolve(slash_parts(seq!['.', '/'] + joined(names)), Seq::empty(), links) == Ok::<
            Seq<Seq<char>>,
            ResolveError,
        >(names),
{
    let text = joined(names);
    let dot = seq!['.'];
    let dotted = seq!['.', '/'] + text;
    let plain = name_parts(names);
    assert(names.skip(0) =~= names && names.take(0) =~= Seq::empty());
    lemma_names_resolve(names, 0, links);
    assert(dot + seq!['/'] + text =~= dotted);
    lemma_split_slash(dot, text);
    lemma_split_name(dot);
    let pieces = seq![dot] + split_on(text, '/');
    assert(dot.len() != seq!['.', '.'].len());
    if names.len() > 0 {
        lemma_split_joined(names);
        lemma_plain_pieces(names, 0);
        assert(pieces.skip(1) =~= names);
        lemma_plain_pieces(pieces, 1);
        assert(text.len() > 0 && text[0] != '/') by {
            lemma_joined_starts(names);
        }
        assert(slash_parts(text) == plain);
    } else {
        assert(text =~= Seq::empty());
        assert(split_on(text, '/') =~= seq![Seq::<char>::empty()]);
        assert(pieces[1].len() == 0);
        assert(piece_parts(pieces, 2) =~= Seq::empty());
        assert(piece_parts(pieces, 1) =~= plain);
        assert(piece_parts(split_on(text, '/'), 1) =~= Seq::empty());
        assert(slash_parts(text) =~= plain);
    }
    assert(slash_parts(dotted) =~= plain.insert(0, PathPartView::CurDir));
    markers_count_for_nothing(plain, 0, PathPartView::CurDir, Seq::empty(), links);
}

proof fn lemma_joined_starts(names: Seq<Seq<char>>)
    requires
        plain_names(names),
        names.len() > 0,
    ensures
        joined(names).len() > 0,
        joined(names)[0] == names[0][0],
        joined(names)[0] != '/',
    decreases names.len(),
{
    assert(proper_name(names[0]));
    assert(names[0].contains(names[0][0]));
    if names.len() > 1 {
        let front = names.drop_last();
        assert forall|i: int| 0 <= i < front.len() implies proper_name(#[trigger] front[i])
            && !front[i].contains('/') by {
            assert(front[i] == names[i]);
        }
        lemma_joined_starts(front);
    }
}

/// The names of a path that is taken apart at its slashes hold no slash, and no character that the
/// path does not hold.
proof fn lemma_resolved_names(
    path: Seq<char>,
    links: spec_fn(Seq<Seq<char>>) -> bool,
    names: Seq<Seq<char>>,
)
    requires
        resolve(slash_parts(path), Seq::empty(), links) == Ok::<Seq<Seq<char>>, ResolveError>(
            names,
        ),
    ensures
        plain_names(names),
        forall|k: int| 1 <= k <= names.len() ==> !links(#[trigger] names.take(k)),
        forall|i: int, c: char|
            0 <= i < names.len() && #[trigger] names[i].contains(c) ==> path.contains(c),
{
    let pieces = split_on(path, '/');
    let parts = slash_parts(path);
    let inner = piece_parts(pieces, 0);
    lemma_pieces(path, '/');
    lemma_piece_parts(pieces, 0);
    assert forall|i: int| 0 <= i < parts.len() implies proper_part(#[trigger] parts[i]) && (
    parts[i] matches PathPartView::Normal(n) ==> pieces.contains(n)) by {
        if parts.len() > inner.len() {
            if i > 0 {
                assert(parts[i] == inner[i - 1]);
            }
        } else {
            assert(parts[i] == inner[i]);
        }
    }
    resolved_path_is_safe(parts, links);
    lemma_names_from_parts(parts, Seq::empty(), links, pieces);
    assert forall|i: int| 0 <= i < names.len() implies proper_name(#[trigger] names[i])
        && !names[i].contains('/') by {
        assert(pieces.contains(names[i]));
        let j = pieces.index_of(names[i]);
        assert(!pieces[j].contains('/'));
    }
    assert forall|i: int, c: char|
        0 <= i < names.len() && #[trigger] names[i].contains(c) implies path.contains(c) by {
        assert(pieces.contains(names[i]));
        let j = pieces.index_of(names[i]);
        assert(pieces[j].contains(c));
    }
}

proof fn lemma_names_from_parts(
    parts: Seq<PathPartView>,
    names: Seq<Seq<char>>,
    links: spec_fn(Seq<Seq<char>>) -> bool,
    pieces: Seq<Seq<char>>,
)
    requires
        resolve(parts, names, links) is Ok,
        forall|i: int|
            0 <= i < parts.len() ==> ((#[trigger] parts[i]) matches PathPartView::Normal(n)
                ==> pieces.contains(n)),
        forall|i: int| 0 <= i < names.len() ==> pieces.contains(#[trigger] names[i]),
    ensures
        ({
            let r = resolve(parts, names, links)->Ok_0;
            forall|i: int| 0 <= i < r.len() ==> pieces.contains(#[trigger] r[i])
        }),
    decreases parts.len(),
{
    if parts.len() > 0 {
        let rest = parts.drop_first();
        assert forall|i: int| 0 <= i < rest.len() implies ((
        #[trigger] rest[i]) matches PathPartView::Normal(n) ==> pieces.contains(n)) by {
            assert(rest[i] == parts[i + 1]);
        }
        let next = match parts[0] {
            PathPartView::ParentDir => names.drop_last(),
            PathPartView::Normal(n) => names.push(n),
            _ => names,
        };
        assert forall|i: int| 0 <= i < next.len() implies pieces.contains(#[trigger] next[i]) by {
            if i < names.len() {
                assert(next[i] == names[i]);
            } else {
                assert(parts[0] == PathPartView::Normal(next[i]));
            }
        }
        lemma_names_from_parts(rest, next, links, pieces);
    }
}

/// A path that was resolved leads to the same place again: what was resolved, written with slashes,
/// does so, also with `./` before it, and so does the path with a slash before it. This holds of
/// paths that are read with slashes alone, and of paths that are read with slashes and backslashes.
pub proof fn resolved_path_resolves_to_itself(
    path: Seq<char>,
    way: Reading,
    links: spec_fn(Seq<Seq<char>>) -> bool,
    names: Seq<Seq<char>>,
)
    requires
        way == Reading::Slash || way == Reading::Both,
        resolve(parts_by(path, way), Seq::empty(), links) == Ok::<Seq<Seq<char>>, ResolveError>(
            names,
        ),
    ensures
        ({
            let same = Ok::<Seq<Seq<char>>, ResolveError>(names);
            let text = joined(names);
            &&& resolve(parts_by(text, way), Seq::empty(), links) == same
            &&& resolve(parts_by(seq!['.', '/'] + text, way), Seq::empty(), links) == same
            &&& resolve(parts_by(seq!['/'] + path, way), Seq::empty(), links) == same
        }),
{
    let read = match way {
        Reading::Slash => path,
        _ => replaced(path, '\\', '/'),
    };
    lemma_resolved_names(read, links, names);
    lemma_joined_resolves(names, links);
    absolute_path_is_taken_as_relative(path, way, Seq::empty(), links);
    if way == Reading::Both {
        let text = joined(names);
        assert(!read.contains('\\')) by {
            assert forall|i: int| 0 <= i < read.len() implies read[i] != '\\' by {}
        }
        lemma_joined_holds(names, '\\');
        let dotted = seq!['.', '/'] + text;
        assert forall|i: int| 0 <= i < text.len() implies text[i] != '\\' by {
            assert(text.contains(text[i]));
        }
        assert(replaced(text, '\\', '/') =~= text);
        assert(replaced(dotted, '\\', '/') =~= dotted);
    }
}

proof fn lemma_joined_holds(names: Seq<Seq<char>>, c: char)
    requires
        c != '/',
        forall|i: int| 0 <= i < names.len() ==> !(#[trigger] names[i]).contains(c),
    ensures
        !joined(names).contains(c),
    decreases names.len(),
{
    if names.len() > 1 {
        let front = names.drop_last();
        assert forall|i: int| 0 <= i < front.len() implies !(#[trigger] front[i]).contains(c) by {
            assert(front[i] == names[i]);
        }
        lemma_joined_holds(front, c);
        let a = joined(front);
        let text = joined(names);
        let last = names[names.len() - 1];
        assert(text == a + seq!['/'] + last);
        assert forall|i: int| 0 <= i < text.len() implies text[i] != c by {
            if i < a.len() {
                assert(a.contains(a[i]));
            } else if i > a.len() {
                assert(last.contains(last[i - a.len() - 1]));
            }
        }
    } else if names.len() == 1 {
        assert(!names[0].contains(c));
    }
}

/// Whether `n` is the name of an entry of a directory: not empty, neither `.` nor `..`.
pub open spec fn proper_name(n: Seq<char>) -> bool {
    proper_part(PathPartView::Normal(n))
}

/// A resolved path is made of proper names alone, and none of the directories on the way to it, nor
/// the place itself, is a symbolic link.
pub proof fn resolved_path_is_safe(
    parts: Seq<PathPartView>,
    links: spec_fn(Seq<Seq<char>>) -> bool,
)
    requires
        forall|i: int| 0 <= i < parts.len() ==> proper_part(#[trigger] parts[i]),
        resolve(parts, Seq::empty(), links) is Ok,
    ensures
        ({
            let names = resolve(parts, Seq::empty(), links)->Ok_0;
            &&& forall|i: int| 0 <= i < names.len() ==> proper_name(#[trigger] names[i])
            &&& forall|k: int| 1 <= k <= names.len() ==> !links(#[trigger] names.take(k))
        }),
{
    lemma_resolved_path_is_safe(parts, Seq::empty(), links);
}

proof fn lemma_resolved_path_is_safe(
    parts: Seq<PathPartView>,
    names: Seq<Seq<char>>,
    links: spec_fn(Seq<Seq<char>>) -> bool,
)
    requires
        forall|i: int| 0 <= i < parts.len() ==> proper_part(#[trigger] parts[i]),
        forall|i: int| 0 <= i < names.len() ==> proper_name(#[trigger] names[i]),
        forall|k: int| 1 <= k <= names.len() ==> !links(#[trigger] names.take(k)),
        resolve(parts, names, links) is Ok,
    ensures
        ({
            let r = resolve(parts, names, links)->Ok_0;
            &&& forall|i: int| 0 <= i < r.len() ==> proper_name(#[trigger] r[i])
            &&& forall|k: int| 1 <= k <= r.len() ==> !links(#[trigger] r.take(k))
        }),
    decreases parts.len(),
{
    if parts.len() > 0 {
        let rest = parts.drop_first();
        assert forall|i: int| 0 <= i < rest.len() implies proper_part(#[trigger] rest[i]) by {
            assert(rest[i] == parts[i + 1]);
        }
        match parts[0] {
            PathPartView::ParentDir => {
                let up = names.drop_last();
                assert forall|k: int| 1 <= k <= up.len() implies !links(#[trigger] up.take(k)) by {
                    assert(up.take(k) =~= names.take(k));
                }
                lemma_resolved_path_is_safe(rest, up, links);
            },
            PathPartView::Normal(n) => {
                let down = names.push(n);
                assert(proper_part(parts[0]));
                assert forall|k: int| 1 <= k <= down.len() implies !links(
                    #[trigger] down.take(k),
                ) by {
                    if k < down.len() {
                        assert(down.take(k) =~= names.take(k));
                    } else {
                        assert(down.take(k) =~= down);
                    }
                }
                lemma_resolved_path_is_safe(rest, down, links);
            },
            _ => {
                lemma_resolved_path_is_safe(rest, names, links);
            },
        }
    }
}

/// How many directories below its start a chain of parts ends; negative when above.
pub open spec fn depth(parts: Seq<PathPartView>) -> int
    decreases parts.len(),
{
    if parts.len() == 0 {
        0
    } else {
        let rest = depth(parts.drop_first());
        match parts[0] {
            PathPartView::ParentDir => rest - 1,
            PathPartView::Normal(_) => rest + 1,
            _ => rest,
        }
    }
}

/// Whether a chain of parts that starts `below` directories below the base leads above it.
pub open spec fn leads_above(parts: Seq<PathPartView>, below: nat) -> bool {
    exists|k: int| 0 <= k <= parts.len() && below + depth(#[trigger] parts.take(k)) < 0
}

/// The names that a chain of parts has entered, and not left again, when it starts at `names`.
pub open spec fn walk(parts: Seq<PathPartView>, names: Seq<Seq<char>>) -> Seq<Seq<char>>
    decreases parts.len(),
{
    if parts.len() == 0 {
        names
    } else {
        let front = walk(parts.drop_last(), names);
        match parts.last() {
            PathPartView::ParentDir => front.drop_last(),
            PathPartView::Normal(n) => front.push(n),
            _ => front,
        }
    }
}

/// Whether a chain of parts that starts at `names` enters a symbolic link with its part `k`, without
/// having led above the base directory before.
pub open spec fn enters_link(
    parts: Seq<PathPartView>,
    names: Seq<Seq<char>>,
    links: spec_fn(Seq<Seq<char>>) -> bool,
    k: int,
) -> bool {
    &&& 0 <= k < parts.len()
    &&& parts[k] is Normal
    &&& links(walk(parts.take(k + 1), names))
    &&& !leads_above(parts.take(k), names.len())
}

proof fn lemma_walk_front(parts: Seq<PathPartView>, names: Seq<Seq<char>>)
    requires
        parts.len() > 0,
    ensures
        walk(parts, names) == walk(parts.drop_first(), walk(parts.take(1), names)),
    decreases parts.len(),
{
    assert(parts.take(1).drop_last() =~= Seq::empty());
    if parts.len() > 1 {
        lemma_walk_front(parts.drop_last(), names);
        assert(parts.drop_last().drop_first() =~= parts.drop_first().drop_last());
        assert(parts.drop_last().take(1) =~= parts.take(1));
        assert(parts.drop_first().last() == parts.last());
    } else {
        assert(parts.take(1) =~= parts);
    }
}

proof fn lemma_walk_one(parts: Seq<PathPartView>, names: Seq<Seq<char>>)
    requires
        parts.len() > 0,
    ensures
        walk(parts.take(1), names) == match parts[0] {
            PathPartView::ParentDir => names.drop_last(),
            PathPartView::Normal(n) => names.push(n),
            _ => names,
        },
{
    let one = parts.take(1);
    assert(one.drop_last() =~= Seq::empty());
    assert(one.last() == parts[0]);
    assert(walk(one.drop_last(), names) == names);
}

proof fn lemma_leads_above(parts: Seq<PathPartView>, below: nat)
    requires
        parts.len() > 0,
    ensures
        ({
            let w: int = match parts[0] {
                PathPartView::ParentDir => -1,
                PathPartView::Normal(_) => 1,
                _ => 0,
            };
            &&& depth(parts) == w + depth(parts.drop_first())
            &&& below + w < 0 ==> leads_above(parts, below)
            &&& below + w >= 0 ==> (leads_above(parts, below) <==> leads_above(
                parts.drop_first(),
                (below + w) as nat,
            ))
        }),
{
    let rest = parts.drop_first();
    let w: int = match parts[0] {
        PathPartView::ParentDir => -1,
        PathPartView::Normal(_) => 1,
        _ => 0,
    };
    assert forall|k: int| 1 <= k <= parts.len() implies depth(#[trigger] parts.take(k)) == w + depth(
        rest.take(k - 1),
    ) by {
        assert(parts.take(k).drop_first() =~= rest.take(k - 1));
    }
    if below + w < 0 {
        assert(rest.take(0) =~= Seq::empty());
        assert(below + depth(parts.take(1)) < 0);
    } else {
        let next = (below + w) as nat;
        if leads_above(rest, next) {
            let k = choose|k: int|
                0 <= k <= rest.len() && next + depth(#[trigger] rest.take(k)) < 0;
            assert(depth(parts.take(k + 1)) == w + depth(rest.take(k + 1 - 1)));
        }
        if leads_above(parts, below) {
            let k = choose|k: int|
                0 <= k <= parts.len() && below + depth(#[trigger] parts.take(k)) < 0;
            assert(parts.take(0) =~= Seq::empty());
            assert(depth(rest.take(k - 1)) == depth(parts.take(k)) - w);
        }
    }
}

proof fn lemma_enters_link(
    parts: Seq<PathPartView>,
    names: Seq<Seq<char>>,
    links: spec_fn(Seq<Seq<char>>) -> bool,
    k: int,
)
    requires
        0 < k < parts.len(),
        !(parts[0] is ParentDir && names.len() == 0),
    ensures
        enters_link(parts, names, links, k) <==> enters_link(
            parts.drop_first(),
            walk(parts.take(1), names),
            links,
            k - 1,
        ),
{
    let rest = parts.drop_first();
    assert(parts[k] == rest[k - 1]);
    lemma_walk_front(parts.take(k + 1), names);
    assert(parts.take(k + 1).drop_first() =~= rest.take(k));
    assert(parts.take(k + 1).take(1) =~= parts.take(1));
    lemma_leads_above(parts.take(k), names.len());
    assert(parts.take(k).drop_first() =~= rest.take(k - 1));
    assert(parts.take(k)[0] == parts[0]);
    lemma_walk_one(parts, names);
}

/// A path is resolved exactly when it neither leads above the base directory nor enters a symbolic
/// link on the way; then it ends at the names that it has entered and not left again. It is refused
/// for a symbolic link exactly when it enters one before it leads above the base directory, and for
/// leading above the base directory exactly when it does so first.
pub proof fn traversal_is_refused(
    parts: Seq<PathPartView>,
    names: Seq<Seq<char>>,
    links: spec_fn(Seq<Seq<char>>) -> bool,
)
    ensures
        match resolve(parts, names, links) {
            Ok(r) => {
                &&& !leads_above(parts, names.len())
                &&& forall|k: int| !enters_link(parts, names, links, k)
                &&& r == walk(parts, names)
                &&& r.len() == names.len() + depth(parts)
            },
            Err(ResolveError::Traversal) => {
                &&& leads_above(parts, names.len())
                &&& forall|k: int| !enters_link(parts, names, links, k)
            },
            Err(ResolveError::Symlink) => exists|k: int| enters_link(parts, names, links, k),
        },
    decreases parts.len(),
{
    let below = names.len();
    if parts.len() == 0 {
        assert forall|k: int| 0 <= k <= parts.len() implies below + depth(#[trigger] parts.take(k))
            >= 0 by {}
    } else {
        let rest = parts.drop_first();
        let next = walk(parts.take(1), names);
        lemma_walk_one(parts, names);
        lemma_leads_above(parts, below);
        lemma_walk_front(parts, names);
        assert(!leads_above(parts.take(0), below)) by {
            assert forall|k: int| 0 <= k <= 0 implies below + depth(
                #[trigger] parts.take(0).take(k),
            ) >= 0 by {}
        }
        if parts[0] is ParentDir && below == 0 {
            assert forall|k: int| !enters_link(parts, names, links, k) by {
                if 0 < k < parts.len() {
                    lemma_leads_above(parts.take(k), below);
                    assert(parts.take(k)[0] == parts[0]);
                }
            }
        } else if parts[0] is Normal && links(next) {
            assert(enters_link(parts, names, links, 0));
        } else {
            traversal_is_refused(rest, next, links);
            assert(!enters_link(parts, names, links, 0));
            match resolve(parts, names, links) {
                Err(ResolveError::Symlink) => {
                    let k = choose|k: int| enters_link(rest, next, links, k);
                    lemma_enters_link(parts, names, links, k + 1);
                    assert(enters_link(parts, names, links, k + 1));
                },
                _ => {
                    assert forall|k: int| !enters_link(parts, names, links, k) by {
                        if 0 < k < parts.len() {
                            lemma_enters_link(parts, names, links, k);
                        }
                    }
                },
            }
        }
    }
}

/// The texts of `names` with a slash between each two.
pub open spec fn joined(names: Seq<Seq<char>>) -> Seq<char>
    decreases names.len(),
{
    if names.len() == 0 {
        Seq::empty()
    } else if names.len() == 1 {
        names[0]
    } else {
        joined(names.drop_last()) + seq!['/'] + names.last()
    }
}

/// Writes names as a path with slashes alone, whatever separator the system has.
pub fn relative_text(names: &Vec<String>) -> (r: String)
    ensures
        r@ == replaced(joined(name_views(names@)), '\\', '/'),
{
    let mut out = String::new();
    let ghost all = name_views(names@);
    for i in 0..names.len()
        invariant
            all == name_views(names@),
            out@ == joined(all.take(i as int)),
    {
        proof {
            assert(all.take(i + 1).drop_last() =~= all.take(i as int));
            assert(all.take(i + 1).last() == names@[i as int]@);
            assert(all.take(i as int).len() == i);
        }
        if i > 0 {
            out.push('/');
        }
        let ghost before = out@;
        out = append(out.as_str(), names[i].as_str());
        assert(out@ =~= joined(all.take(i + 1)));
    }
    assert(all.take(all.len() as int) =~= all);
    replace_char(out.as_str(), '\\', '/')
}

/// `parts` without `.`, and with each `..` taking away the name before it, where there is one.
pub open spec fn normalized(parts: Seq<PathPartView>) -> Seq<PathPartView>
    decreases parts.len(),
{
    if parts.len() == 0 {
        Seq::empty()
    } else {
        let front = normalized(parts.drop_last());
        match parts.last() {
            PathPartView::CurDir => front,
            PathPartView::ParentDir => if front.len() > 0 && front.last() is Normal {
                front.drop_last()
            } else {
                front
            },
            p => front.push(p),
        }
    }
}

/// Removes `.` and `..` from the parts of a path by their names alone.
pub fn normalize_parts(parts: Vec<PathPart>) -> (r: Vec<PathPart>)
    ensures
        part_views(r@) == normalized(part_views(parts@)),
{
    let ghost all = part_views(parts@);
    let mut out: Vec<PathPart> = Vec::new();
    assert(part_views(out@) =~= normalized(all.take(0)));
    for i in 0..parts.len()
        invariant
            all == part_views(parts@),
            part_views(out@) == normalized(all.take(i as int)),
    {
        let ghost front = part_views(out@);
        proof {
            assert(all.take(i + 1).drop_last() =~= all.take(i as int));
            assert(all.take(i + 1).last() == parts@[i as int]@);
        }
        match &parts[i] {
            PathPart::CurDir => {},
            PathPart::ParentDir => {
                let n: usize = out.len();
                if n > 0 {
                    assert(front.last() == out@[n - 1]@);
                    let named = match &out[n - 1] {
                        PathPart::Normal(_) => true,
                        _ => false,
                    };
                    if named {
                        out.pop();
                        assert(part_views(out@) =~= front.drop_last());
                    }
                }
            },
            PathPart::RootDir => {
                out.push(PathPart::RootDir);
                assert(part_views(out@) =~= front.push(PathPartView::RootDir));
            },
            PathPart::Prefix(s) => {
                out.push(PathPart::Prefix(s.clone()));
                assert(part_views(out@) =~= front.push(PathPartView::Prefix(s@)));
            },
            PathPart::Normal(s) => {
                out.push(PathPart::Normal(s.clone()));
                assert(part_views(out@) =~= front.push(PathPartView::Normal(s@)));
            },
        }
    }
    assert(all.take(all.len() as int) =~= all);
    out
}

/// Takes a path apart and removes `.` and `..` from it by their names alone.
pub fn normalize_path(path: &str) -> (r: Vec<PathPart>)
    ensures
        exists|parts: Seq<PathPartView>| #[trigger]
            parts_of(path@, parts) && part_views(r@) == normalized(parts),
{
    let parts = components(path);
    let ghost seen = part_views(parts@);
    let r = normalize_parts(parts);
    assert(parts_of(path@, seen));
    r
}

/// A normalised path has no `.` and no `..`, and normalising it again changes nothing.
pub proof fn normalized_path_is_plain(parts: Seq<PathPartView>)
    ensures
        ({
            let r = normalized(parts);
            &&& forall|i: int|
                0 <= i < r.len() ==> !(#[trigger] r[i] is CurDir) && !(r[i] is ParentDir)
            &&& normalized(r) == r
        }),
{
    lemma_normalized_is_plain(parts);
    lemma_plain_is_normalized(normalized(parts));
}

proof fn lemma_normalized_is_plain(parts: Seq<PathPartView>)
    ensures
        ({
            let r = normalized(parts);
            forall|i: int| 0 <= i < r.len() ==> !(#[trigger] r[i] is CurDir) && !(r[i] is ParentDir)
        }),
    decreases parts.len(),
{
    if parts.len() > 0 {
        lemma_normalized_is_plain(parts.drop_last());
    }
}

proof fn lemma_plain_is_normalized(parts: Seq<PathPartView>)
    requires
        forall|i: int|
            0 <= i < parts.len() ==> !(#[trigger] parts[i] is CurDir) && !(parts[i] is ParentDir),
    ensures
        normalized(parts) == parts,
    decreases parts.len(),
{
    if parts.len() > 0 {
        let front = parts.drop_last();
        assert forall|i: int| 0 <= i < front.len() implies !(#[trigger] front[i] is CurDir) && !(
        front[i] is ParentDir) by {
            assert(front[i] == parts[i]);
        }
        lemma_plain_is_normalized(front);
        assert(!(parts[parts.len() - 1] is CurDir));
        assert(front.push(parts.last()) =~= parts);
    } else {
        assert(normalized(parts) =~= parts);
    }
}

/// Whether `r` is `rel` below `base`: with a separator put between them where `base` does not end
/// with one. A backslash is a separator on some systems, and after a colon some put none.
pub open spec fn lies_below(base: Seq<char>, rel: Seq<char>, r: Seq<char>) -> bool {
    let beside = r == base + rel;
    let apart = r == base + seq!['/'] + rel || r == base + seq!['\\'] + rel;
    if base.len() == 0 || base.last() == '/' {
        beside
    } else if base.last() == '\\' || base.last() == ':' {
        beside || apart
    } else {
        apart
    }
}

/// `Path::join` of the standard library puts a relative path below another one, with the separator
/// of the system between them where one is missing. On some systems a path with a drive is not
/// relative and stands for itself. Nothing is said of a path that begins with a separator, nor of a
/// verbatim `base`, which some systems rewrite.
#[verifier::external_body]
fn join(base: &str, rel: &str) -> (r: String)
    ensures
        !starts_rooted(rel@) && !verbatim(base@) ==> lies_below(base@, rel@, r@) || (has_drive(rel@)
            && r@ == rel@),
{
    PathBuf::from(base).join(rel).to_string_lossy().into_owned()
}

/// The name that ends a chain of parts, where one does.
pub open spec fn last_name(parts: Seq<PathPartView>) -> Option<Seq<char>> {
    if parts.len() > 0 {
        match parts.last() {
            PathPartView::Normal(n) => Some(n),
            _ => None,
        }
    } else {
        None
    }
}

/// A chain of parts without the name that ends it.
pub open spec fn before_name(parts: Seq<PathPartView>) -> Seq<PathPartView> {
    if last_name(parts) is Some {
        parts.drop_last()
    } else {
        parts
    }
}

proof fn lemma_pieces(s: Seq<char>, sep: char)
    ensures
        split_on(s, sep).len() > 0,
        forall|i: int|
            0 <= i < split_on(s, sep).len() ==> !(#[trigger] split_on(s, sep)[i]).contains(sep),
        forall|i: int, c: char|
            0 <= i < split_on(s, sep).len() && #[trigger] split_on(s, sep)[i].contains(c)
                ==> s.contains(c),
    decreases s.len(),
{
    if s.len() > 0 {
        let front = split_on(s.drop_last(), sep);
        let all = split_on(s, sep);
        lemma_pieces(s.drop_last(), sep);
        let last = all.len() - 1;
        assert forall|i: int| 0 <= i < all.len() implies !(#[trigger] all[i]).contains(sep) by {
            if i < last {
                assert(all[i] == front[i]);
            } else if s.last() != sep {
                let p = all[i];
                let q = front.last();
                assert(p == q.push(s.last()));
                assert(!front[front.len() - 1].contains(sep));
                if p.contains(sep) {
                    let j = p.index_of(sep);
                    assert(q[j] == sep);
                }
            }
        }
        assert forall|i: int, c: char|
            0 <= i < all.len() && #[trigger] all[i].contains(c) implies s.contains(c) by {
            let t = s.drop_last();
            if i < last {
                assert(all[i] == front[i]);
                assert(t.contains(c));
                assert(s[t.index_of(c)] == c);
            } else if s.last() != sep {
                let q = front.last();
                let j = all[i].index_of(c);
                if j < q.len() {
                    assert(q[j] == c);
                    assert(front[front.len() - 1].contains(c));
                    assert(t.contains(c));
                    assert(s[t.index_of(c)] == c);
                } else {
                    assert(s[s.len() - 1] == c);
                }
            }
        }
    }
}

proof fn lemma_piece_parts(pieces: Seq<Seq<char>>, i: int)
    requires
        0 <= i,
    ensures
        forall|k: int|
            0 <= k < piece_parts(pieces, i).len() ==> proper_part(
                #[trigger] piece_parts(pieces, i)[k],
            ) && (piece_parts(pieces, i)[k] matches PathPartView::Normal(n) ==> pieces.contains(n)),
    decreases pieces.len() - i,
{
    if i < pieces.len() {
        lemma_piece_parts(pieces, i + 1);
        let rest = piece_parts(pieces, i + 1);
        let all = piece_parts(pieces, i);
        assert(pieces.contains(pieces[i]));
        assert forall|k: int| 0 <= k < all.len() implies proper_part(#[trigger] all[k]) && (
        all[k] matches PathPartView::Normal(n) ==> pieces.contains(n)) by {
            if all.len() > rest.len() {
                if k > 0 {
                    assert(all[k] == rest[k - 1]);
                }
            } else {
                assert(all[k] == rest[k]);
            }
        }
    }
}

/// Whether `name` is the name that a path ends with on some system, or there is none. Nothing is
/// said of a verbatim path.
pub open spec fn is_named(path: Seq<char>, name: Option<Seq<char>>) -> bool {
    ||| verbatim(path)
    ||| exists|way: Reading| #[trigger] fits(path, way) && name == last_name(parts_by(path, way))
}

/// A path without backslashes that begins with no drive and not with two slashes is read alike on
/// every system.
pub proof fn plain_paths_are_read_alike(
    path: Seq<char>,
    r: Seq<PathPartView>,
    name: Option<Seq<char>>,
)
    requires
        !path.contains('\\'),
        !has_drive(path),
        !starts_twice(path),
    ensures
        parts_of(path, r) ==> r == slash_parts(path),
        is_named(path, name) ==> name == last_name(slash_parts(path)),
{
    assert forall|i: int| 0 <= i < path.len() implies path[i] != '\\' by {
        assert(path.contains(path[i]));
    }
    assert(replaced(path, '\\', '/') =~= path);
    reveal_strlit("\\\\?\\");
    if verbatim(path) {
        assert(path.subrange(0, 4)[0] == path[0]);
    }
}

/// `Path::file_name` of the standard library gives the last part of the path, if that is a name.
/// The parts are those of `Path::components`.
#[verifier::external_body]
fn file_name(path: &str) -> (r: Option<String>)
    ensures
        r is Some ==> proper_name(r->Some_0@),
        is_named(path@, opt_text(r)),
{
    Path::new(path).file_name().map(|n| n.to_string_lossy().into_owned())
}

/// Whether `r` ends with `name`, and what stands before it are the parts of `path` without its name,
/// on some system.
pub open spec fn lies_beside(path: Seq<char>, name: Seq<char>, r: Seq<char>) -> bool {
    &&& has_suffix(r, name)
    &&& exists|way: Reading| #[trigger]
        fits(path, way) && parts_by(r.take(r.len() - name.len()), way) == before_name(
            parts_by(path, way),
        )
}

/// Whether `r` is `name` in place of the name that `path` ends with. A name that is a path of its
/// own, with a drive or a separator before it, may stand for itself, or below the drive or the share
/// of `path`.
pub open spec fn is_renamed(path: Seq<char>, name: Seq<char>, r: Seq<char>) -> bool {
    ||| lies_beside(path, name, r)
    ||| (has_drive(name) || starts_rooted(name)) && r == name
    ||| starts_rooted(name) && has_drive(path) && r == path.take(2) + name
    ||| starts_rooted(name) && fits(path, Reading::Share) && r == path.take(share_len(path)) + name
}

/// `Path::with_file_name` of the standard library puts another name in place of the one that the
/// path ends with, or behind the path where it ends with none. It takes the name off as
/// `PathBuf::pop` does and puts the new one on as `PathBuf::push` does. Nothing is said of a verbatim
/// path, which some systems rewrite.
#[verifier::external_body]
fn with_file_name(path: &str, name: &str) -> (r: String)
    ensures
        !verbatim(path@) ==> is_renamed(path@, name@, r@),
{
    Path::new(path).with_file_name(name).to_string_lossy().into_owned()
}

/// The place of a listed file below the directory that files are saved in. Separators that `path`
/// begins with are dropped, so that it does not begin at the root. On some systems a path with a
/// drive behind them stands for itself. Nothing is said where `save_dir` is verbatim.
pub fn local_path(save_dir: &str, path: &str) -> (r: String)
    ensures
        ({
            let rel = without_leading(path@, CharClass::PathSeparator);
            !verbatim(save_dir@) ==> lies_below(save_dir@, rel, r@) || (has_drive(rel) && r@ == rel)
        }),
{
    let rel = trim_start(path, CharClass::PathSeparator);
    proof {
        lemma_leading_gone(path@, CharClass::PathSeparator);
    }
    join(save_dir, rel.as_str())
}

/// The name that a path ends with.
pub fn final_name(path: &str) -> (r: Option<String>)
    ensures
        r is Some ==> proper_name(r->Some_0@),
        is_named(path@, opt_text(r)),
{
    file_name(path)
}

/// The name under which a file is kept while it is downloaded.
pub fn download_name(name: &str) -> (r: String)
    ensures
        r@ == name@ + ".download"@,
{
    append(name, ".download")
}

/// Whether `r` is the place where a file is kept while it is downloaded: beside its final place,
/// under its download name. There is none where the final place has no name.
pub open spec fn is_download_path(final_path: Seq<char>, r: Option<Seq<char>>) -> bool {
    match r {
        Some(temp) => exists|name: Seq<char>| #[trigger]
            is_named(final_path, Some(name)) && is_renamed(final_path, name + ".download"@, temp),
        None => is_named(final_path, None),
    }
}

/// The place where a file is kept while it is downloaded. Nothing is said of a verbatim path.
pub fn download_path(final_path: &str) -> (r: Option<String>)
    ensures
        !verbatim(final_path@) ==> is_download_path(final_path@, opt_text(r)),
{
    match file_name(final_path) {
        Some(name) => {
            let temp = download_name(name.as_str());
            Some(with_file_name(final_path, temp.as_str()))
        },
        None => None,
    }
}

/// The name under which a file is kept while it is uploaded.
pub fn partial_name(name: &str) -> (r: String)
    ensures
        r@ == name@ + ".mysync_partial"@,
{
    append(name, ".mysync_partial")
}

/// The name of the file that records the hash of a file while it is uploaded.
pub fn partial_hash_name(name: &str) -> (r: String)
    ensures
        r@ == name@ + ".mysync_partial"@ + ".hash"@,
{
    let partial = partial_name(name);
    append(partial.as_str(), ".hash")
}

proof fn lemma_normalized_goes_on(
    a: Seq<PathPartView>,
    b: Seq<PathPartView>,
    rest: Seq<PathPartView>,
)
    requires
        normalized(a) == normalized(b),
    ensures
        normalized(a + rest) == normalized(b + rest),
    decreases rest.len(),
{
    if rest.len() > 0 {
        lemma_normalized_goes_on(a, b, rest.drop_last());
        assert((a + rest).drop_last() =~= a + rest.drop_last());
        assert((b + rest).drop_last() =~= b + rest.drop_last());
    } else {
        assert(a + rest =~= a && b + rest =~= b);
    }
}

/// Parts without `.` and `..` are left as they are. A `.` counts for nothing wherever it stands, a
/// `..` behind a name takes that name away, and one at the start or behind the root or a prefix
/// counts for nothing.
pub proof fn normalizing_takes_dots_away(
    front: Seq<PathPartView>,
    name: Seq<char>,
    rest: Seq<PathPartView>,
)
    ensures
        ({
            let up = PathPartView::ParentDir;
            let plain = forall|i: int|
                0 <= i < front.len() ==> !(#[trigger] front[i] is CurDir) && !(
                front[i] is ParentDir);
            &&& plain ==> normalized(front) == front
            &&& normalized(front + seq![PathPartView::CurDir] + rest) == normalized(front + rest)
            &&& normalized(front + seq![PathPartView::Normal(name), up] + rest) == normalized(
                front + rest,
            )
            &&& front.len() == 0 || front.last() is RootDir || front.last() is Prefix
                ==> normalized(front + seq![up] + rest) == normalized(front + rest)
        }),
{
    let up = PathPartView::ParentDir;
    let n = PathPartView::Normal(name);
    if forall|i: int|
        0 <= i < front.len() ==> !(#[trigger] front[i] is CurDir) && !(front[i] is ParentDir) {
        lemma_plain_is_normalized(front);
    }
    let dotted = front + seq![PathPartView::CurDir];
    assert(dotted.drop_last() =~= front);
    lemma_normalized_goes_on(dotted, front, rest);
    let named = front.push(n);
    assert(named.drop_last() =~= front);
    let both = front + seq![n, up];
    assert(both.drop_last() =~= named);
    assert(normalized(named) == normalized(front).push(n));
    assert(normalized(both) =~= normalized(front));
    lemma_normalized_goes_on(both, front, rest);
    let above = front + seq![up];
    assert(above.drop_last() =~= front);
    if front.len() == 0 || front.last() is RootDir || front.last() is Prefix {
        lemma_normalized_goes_on(above, front, rest);
    }
}

/// Names are written with one slash between each two and nothing else, so that names without slashes
/// are found again where the text is taken apart at its slashes.
pub proof fn joined_names_are_found_again(a: Seq<Seq<char>>, b: Seq<Seq<char>>)
    ensures
        joined(Seq::empty()).len() == 0,
        a.len() == 1 ==> joined(a) == a[0],
        a.len() > 0 && b.len() > 0 ==> joined(a + b) == joined(a) + seq!['/'] + joined(b),
        a.len() > 0 && (forall|i: int| 0 <= i < a.len() ==> !(#[trigger] a[i]).contains('/'))
            ==> split_on(joined(a), '/') == a,
{
    lemma_joined_both(a, b);
    if a.len() > 0 && (forall|i: int| 0 <= i < a.len() ==> !(#[trigger] a[i]).contains('/')) {
        lemma_split_joined(a);
    }
}

proof fn lemma_joined_both(a: Seq<Seq<char>>, b: Seq<Seq<char>>)
    ensures
        a.len() > 0 && b.len() > 0 ==> joined(a + b) == joined(a) + seq!['/'] + joined(b),
    decreases b.len(),
{
    if a.len() > 0 && b.len() > 0 {
        let front = b.drop_last();
        assert((a + b).drop_last() =~= a + front);
        assert((a + b).last() == b.last());
        if b.len() == 1 {
            assert(a + front =~= a);
        } else {
            lemma_joined_both(a, front);
            assert(joined(a + b) =~= joined(a) + seq!['/'] + joined(b));
        }
    }
}

/// A resolver ends where its path leads: where no name waits to be probed, it is resolved exactly
/// when what is left of the path neither leads above the base directory nor enters a symbolic link,
/// and then the names are those that it entered and did not leave again. A name that waits to be
/// probed and leads to a symbolic link refuses the path, and one that does not changes nothing.
pub proof fn resolvers_end_where_the_path_leads(
    r: SafePathResolver,
    links: spec_fn(Seq<Seq<char>>) -> bool,
)
    ensures
        r.awaits() && links(r.entered()) ==> r.outcome(links) == Err::<
            Seq<Seq<char>>,
            ResolveError,
        >(ResolveError::Symlink),
        !r.awaits() || !links(r.entered()) ==> match r.outcome(links) {
            Ok(names) => {
                &&& !leads_above(r.rest(), r.entered().len())
                &&& forall|k: int| !enters_link(r.rest(), r.entered(), links, k)
                &&& names == walk(r.rest(), r.entered())
            },
            Err(ResolveError::Traversal) => {
                &&& leads_above(r.rest(), r.entered().len())
                &&& forall|k: int| !enters_link(r.rest(), r.entered(), links, k)
            },
            Err(ResolveError::Symlink) => exists|k: int|
                enters_link(r.rest(), r.entered(), links, k),
        },
{
    traversal_is_refused(r.rest(), r.entered(), links);
}

} // verus!
