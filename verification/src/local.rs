//! What the client does with files on its own side.

use vstd::prelude::*;

use crate::server::{plan_removal, Removal};
use crate::text::{append, opt_text, replace_char, replaced, same_text};

verus! {

/// How something is removed on the client's side. Nothing is done where it does not exist.
pub fn plan_local_removal(exists: bool, is_dir: bool) -> (r: Result<Removal, &'static str>)
    ensures
        match r {
            Ok(removal) => exists && removal == if is_dir {
                Removal::Tree
            } else {
                Removal::File
            },
            Err(e) => !exists && e@ == "ローカルにファイルが見つかりません"@,
        },
{
    match plan_removal(exists, is_dir) {
        Removal::Nothing => Err("ローカルにファイルが見つかりません"),
        removal => Ok(removal),
    }
}

/// What became of a removal, which may have failed for a reason.
pub fn finish_local_removal(error: &Option<String>) -> (r: Result<(), String>)
    ensures
        match r {
            Ok(_) => error is None,
            Err(e) => error is Some && e@ == "削除失敗: "@ + opt_text(*error)->Some_0,
        },
{
    match error {
        None => Ok(()),
        Some(e) => Err(append("削除失敗: ", e.as_str())),
    }
}

/// How something is shown to the user.
pub enum Opening {
    /// The file manager opens with this path selected.
    Reveal(String),
    /// This path is opened by the program that belongs to it.
    Open(String),
    /// The directory that holds the file is opened.
    Parent,
}

/// How something is shown to the user, as a mathematical value.
pub enum OpeningView {
    Reveal(Seq<char>),
    Open(Seq<char>),
    Parent,
}

impl View for Opening {
    type V = OpeningView;

    open spec fn view(&self) -> OpeningView {
        match self {
            Opening::Reveal(p) => OpeningView::Reveal(p@),
            Opening::Open(p) => OpeningView::Open(p@),
            Opening::Parent => OpeningView::Parent,
        }
    }
}

/// How a path is shown in a mode. The file manager wants backslashes.
pub open spec fn opening(path: Seq<char>, mode: Seq<char>) -> Option<OpeningView> {
    if mode == "reveal"@ {
        Some(OpeningView::Reveal(replaced(path, '/', '\\')))
    } else if mode == "open"@ {
        Some(OpeningView::Open(replaced(path, '/', '\\')))
    } else if mode == "dir"@ {
        Some(OpeningView::Parent)
    } else {
        None
    }
}

/// Plans how a path is shown to the user. Where `shows` is false, there is no file manager that
/// could do it, and nothing is done.
pub fn plan_opening(path: &str, mode: &str, exists: bool, shows: bool) -> (r: Result<
    Option<Opening>,
    &'static str,
>)
    ensures
        match r {
            Ok(None) => exists && !shows,
            Ok(Some(o)) => exists && shows && opening(path@, mode@) == Some(o@),
            Err(e) => if !exists {
                e@ == "ファイルが存在しません"@
            } else {
                shows && opening(path@, mode@) is None && e@ == "不明なモードです"@
            },
        },
{
    if !exists {
        return Err("ファイルが存在しません");
    }
    if !shows {
        return Ok(None);
    }
    if same_text(mode, "reveal") {
        Ok(Some(Opening::Reveal(replace_char(path, '/', '\\'))))
    } else if same_text(mode, "open") {
        Ok(Some(Opening::Open(replace_char(path, '/', '\\'))))
    } else if same_text(mode, "dir") {
        Ok(Some(Opening::Parent))
    } else {
        Err("不明なモードです")
    }
}

/// The three modes show a path in three ways, and there are no others. Where the path is handed on,
/// it has backslashes in place of slashes and is else the same.
pub proof fn modes_show_paths(path: Seq<char>, mode: Seq<char>)
    ensures
        mode == "reveal"@ ==> opening(path, mode) is Some && opening(path, mode)->Some_0 is Reveal,
        mode == "open"@ ==> opening(path, mode) is Some && opening(path, mode)->Some_0 is Open,
        mode == "dir"@ ==> opening(path, mode) == Some(OpeningView::Parent),
        mode != "reveal"@ && mode != "open"@ && mode != "dir"@ ==> opening(path, mode) is None,
        opening(path, mode) matches Some(OpeningView::Reveal(shown)) ==> {
            &&& shown.len() == path.len()
            &&& forall|i: int|
                0 <= i < path.len() ==> #[trigger] shown[i] == if path[i] == '/' {
                    '\\'
                } else {
                    path[i]
                }
        },
        opening(path, mode) matches Some(OpeningView::Open(shown)) ==> {
            &&& shown.len() == path.len()
            &&& forall|i: int|
                0 <= i < path.len() ==> #[trigger] shown[i] == if path[i] == '/' {
                    '\\'
                } else {
                    path[i]
                }
        },
{
    reveal_strlit("reveal");
    reveal_strlit("open");
    reveal_strlit("dir");
    assert("reveal"@.len() == 6 && "open"@.len() == 4 && "dir"@.len() == 3);
}

} // verus!
