//! The history of uploads: where the contents of each remote path came from, so that an upload that
//! broke off can be repeated. It is kept as a JSON object from remote to local paths.

use std::collections::HashMap;

use vstd::prelude::*;

use crate::table::Table;
use crate::text::{opt_text, texts};

verus! {

/// The keys of pairs of texts.
pub open spec fn pair_keys(v: Seq<(String, String)>) -> Seq<Seq<char>> {
    v.map_values(|p: (String, String)| p.0@)
}

/// The map that pairs of texts make up; of two pairs with the same key the later one counts.
pub open spec fn pair_map(v: Seq<(String, String)>) -> Map<Seq<char>, Seq<char>>
    decreases v.len(),
{
    if v.len() == 0 {
        Map::empty()
    } else {
        pair_map(v.drop_last()).insert(v.last().0@, v.last().1@)
    }
}

/// The texts of a table as a mathematical value.
pub open spec fn text_map(m: Map<Seq<char>, String>) -> Map<Seq<char>, Seq<char>> {
    m.map_values(|t: String| t@)
}

/// What `serde_json::from_str` reads from a text as a map of strings; nothing where the text is not
/// a JSON object whose values are all strings.
pub uninterp spec fn json_text_map(text: Seq<char>) -> Option<Map<Seq<char>, Seq<char>>>;

/// `serde_json::from_str`, into a `HashMap` of strings. The pairs come in no particular order, each
/// key once.
#[verifier::external_body]
fn parse_text_map(text: &str) -> (r: Option<Vec<(String, String)>>)
    ensures
        match r {
            Some(v) => json_text_map(text@) == Some(pair_map(v@)) && pair_keys(v@).no_duplicates(),
            None => json_text_map(text@) is None,
        },
{
    let parsed: Result<HashMap<String, String>, serde_json::Error> = serde_json::from_str(text);
    parsed.ok().map(|m| m.into_iter().collect())
}

/// `serde_json::to_string_pretty`, of a `HashMap` of strings. It fails only where a key is not a
/// string or a value refuses, so not here, and what it writes is read back by `serde_json::from_str`.
/// In which order the pairs are written is left open.
#[verifier::external_body]
fn write_text_map(pairs: Vec<(String, String)>) -> (r: Result<String, String>)
    ensures
        r is Ok,
        json_text_map(r->Ok_0@) == Some(pair_map(pairs@)),
{
    let map: HashMap<String, String> = pairs.into_iter().collect();
    serde_json::to_string_pretty(&map).map_err(|e| e.to_string())
}

/// The history that a parsed file holds; an empty one where the file could not be parsed.
pub open spec fn parsed_history(parsed: Option<Map<Seq<char>, Seq<char>>>) -> Map<
    Seq<char>,
    Seq<char>,
> {
    match parsed {
        Some(m) => m,
        None => Map::empty(),
    }
}

/// The history that a file holds; an empty one where there is no file that can be read.
pub open spec fn history_of(content: Option<Seq<char>>) -> Map<Seq<char>, Seq<char>> {
    match content {
        Some(text) => parsed_history(json_text_map(text)),
        None => Map::empty(),
    }
}

proof fn lemma_text_insert(m: Map<Seq<char>, String>, key: Seq<char>, t: String)
    ensures
        text_map(m.insert(key, t)) == text_map(m).insert(key, t@),
{
    assert(text_map(m.insert(key, t)) =~= text_map(m).insert(key, t@));
}

/// Takes over the pairs that a file was parsed to.
pub fn history_from_pairs(parsed: Option<Vec<(String, String)>>) -> (r: Table<String>)
    ensures
        text_map(r@) == parsed_history(
            match parsed {
                Some(v) => Some(pair_map(v@)),
                None => None,
            },
        ),
{
    let mut history: Table<String> = Table::new();
    assert(text_map(history@) =~= Map::<Seq<char>, Seq<char>>::empty());
    match parsed {
        Some(pairs) => {
            let ghost all = pairs@;
            for pair in it: pairs
                invariant
                    it.seq() == all,
                    text_map(history@) == pair_map(all.take(it.index() as int)),
            {
                proof {
                    let i = it.index() as int;
                    assert(all.take(i + 1).drop_last() =~= all.take(i));
                    assert(all.take(i + 1).last() == all[i]);
                    lemma_text_insert(history@, pair.0@, pair.1);
                }
                history.insert(pair.0, pair.1);
            }
            assert(all.take(all.len() as int) =~= all);
        },
        None => {},
    }
    history
}

proof fn lemma_pair_map(v: Seq<(String, String)>, k: Seq<char>)
    requires
        pair_keys(v).no_duplicates(),
    ensures
        pair_map(v).contains_key(k) <==> pair_keys(v).contains(k),
        forall|i: int|
            0 <= i < v.len() && (#[trigger] v[i]).0@ == k ==> pair_map(v)[k] == v[i].1@,
    decreases v.len(),
{
    if v.len() > 0 {
        let n = v.len() - 1;
        let front = v.drop_last();
        assert(pair_keys(front) =~= pair_keys(v).drop_last());
        lemma_pair_map(front, k);
        assert(pair_keys(v)[n] == v[n].0@);
        if pair_keys(front).contains(k) {
            let j = pair_keys(front).index_of(k);
            assert(pair_keys(v)[j] == k);
        }
        if pair_keys(v).contains(k) {
            let j = pair_keys(v).index_of(k);
            if j < n {
                assert(pair_keys(front)[j] == k);
            }
        }
        assert forall|i: int| 0 <= i < v.len() && (#[trigger] v[i]).0@ == k implies pair_map(v)[k]
            == v[i].1@ by {
            if i < n {
                assert(front[i] == v[i]);
                assert(pair_keys(v)[i] == k);
                assert(pair_keys(v)[n] != pair_keys(v)[i]);
            }
        }
    }
}

/// The pairs that a history consists of.
fn history_pairs(history: &Table<String>) -> (r: Vec<(String, String)>)
    ensures
        pair_map(r@) == text_map(history@),
{
    let mut pairs: Vec<(String, String)> = Vec::new();
    let keys = history.keys();
    let ghost names = texts(keys@);
    assert(pair_keys(pairs@) =~= names.take(0));
    for key in it: keys.iter()
        invariant
            it.seq().unref() == keys@,
            names == texts(keys@),
            names.no_duplicates(),
            forall|k: Seq<char>| #[trigger] history@.contains_key(k) <==> names.contains(k),
            pair_keys(pairs@) == names.take(it.index() as int),
            forall|i: int|
                0 <= i < pairs@.len() ==> history@.contains_key((#[trigger] pairs@[i]).0@)
                    && history@[pairs@[i].0@]@ == pairs@[i].1@,
    {
        let ghost i = it.index() as int;
        let ghost had = pairs@;
        assert(names[i] == key@);
        assert(names.contains(key@));
        match history.get(key.as_str()) {
            Some(value) => {
                pairs.push((key.clone(), value.clone()));
                assert(pair_keys(pairs@) =~= pair_keys(had).push(key@));
                assert(names.take(i + 1) =~= names.take(i).push(names[i]));
            },
            None => {},
        }
    }
    proof {
        assert(names.take(names.len() as int) =~= names);
        assert forall|k: Seq<char>| #[trigger]
            pair_map(pairs@).contains_key(k) <==> text_map(history@).contains_key(k) by {
            lemma_pair_map(pairs@, k);
        }
        assert forall|k: Seq<char>| #[trigger] pair_map(pairs@).contains_key(k) implies pair_map(
            pairs@,
        )[k] == text_map(history@)[k] by {
            lemma_pair_map(pairs@, k);
            let i = pair_keys(pairs@).index_of(k);
            assert(pairs@[i].0@ == k);
        }
        assert(pair_map(pairs@) =~= text_map(history@));
    }
    pairs
}

/// The history in a file, of which `content` is what could be read.
pub fn get_upload_history(content: &Option<String>) -> (r: Table<String>)
    ensures
        text_map(r@) == history_of(opt_text(*content)),
{
    match content {
        Some(text) => history_from_pairs(parse_text_map(text.as_str())),
        None => history_from_pairs(None),
    }
}

/// The new contents of the history file, once `local_path` was uploaded to `remote_path`.
pub fn save_upload_history(content: &Option<String>, remote_path: String, local_path: String) -> (r:
    Result<String, String>)
    ensures
        r matches Ok(text) && history_of(Some(text@)) == history_of(opt_text(*content)).insert(
            remote_path@,
            local_path@,
        ),
{
    let mut history = get_upload_history(content);
    proof {
        lemma_text_insert(history@, remote_path@, local_path);
    }
    history.insert(remote_path, local_path);
    write_text_map(history_pairs(&history))
}

/// The new contents of the history file, once `remote_path` is no longer of interest. There are
/// none where the history does not have it.
pub fn remove_upload_history(content: &Option<String>, remote_path: &str) -> (r: Option<String>)
    ensures
        ({
            let before = history_of(opt_text(*content));
            match r {
                Some(text) => before.contains_key(remote_path@) && history_of(Some(text@))
                    == before.remove(remote_path@),
                None => !before.contains_key(remote_path@),
            }
        }),
{
    let mut history = get_upload_history(content);
    if history.get(remote_path).is_none() {
        return None;
    }
    proof {
        assert(text_map(history@.remove(remote_path@)) =~= text_map(history@).remove(remote_path@));
    }
    history.remove(remote_path);
    match write_text_map(history_pairs(&history)) {
        Ok(text) => Some(text),
        Err(_) => None,
    }
}

/// What was saved is read back, and whatever else the history had is still there.
pub proof fn saved_uploads_are_read_back(
    content: Option<Seq<char>>,
    remote: Seq<char>,
    local: Seq<char>,
    written: Seq<char>,
    other: Seq<char>,
)
    requires
        history_of(Some(written)) == history_of(content).insert(remote, local),
    ensures
        history_of(Some(written)).contains_key(remote),
        history_of(Some(written))[remote] == local,
        other != remote ==> history_of(Some(written)).contains_key(other) == history_of(
            content,
        ).contains_key(other) && history_of(Some(written))[other] == history_of(content)[other],
{
}

/// What was saved and then removed is gone, also where the history had the remote path before, and
/// whatever else the history had is still there. So a history that did not have it is as it was.
pub proof fn removed_uploads_are_gone(
    content: Option<Seq<char>>,
    remote: Seq<char>,
    local: Seq<char>,
    saved: Seq<char>,
    removed: Seq<char>,
)
    requires
        history_of(Some(saved)) == history_of(content).insert(remote, local),
        history_of(Some(removed)) == history_of(Some(saved)).remove(remote),
    ensures
        history_of(Some(removed)) == history_of(content).remove(remote),
        !history_of(content).contains_key(remote) ==> history_of(Some(removed)) == history_of(
            content,
        ),
{
    assert(history_of(Some(removed)) =~= history_of(content).remove(remote));
    if !history_of(content).contains_key(remote) {
        assert(history_of(Some(removed)) =~= history_of(content));
    }
}

/// A file that cannot be read, or that holds no history, is an empty history; any other is the
/// history that stands in it.
pub proof fn unreadable_histories_are_empty(text: Seq<char>, remote: Seq<char>)
    ensures
        !history_of(None).contains_key(remote),
        json_text_map(text) is None ==> !history_of(Some(text)).contains_key(remote),
        json_text_map(text) matches Some(m) ==> history_of(Some(text)) == m,
        !parsed_history(None).contains_key(remote),
        json_text_map(text) matches Some(m) ==> parsed_history(Some(m)) == m,
{
}

/// Pairs make up a map of just their keys, and of two pairs with the same key the later one counts.
pub proof fn later_pairs_count(v: Seq<(String, String)>, k: Seq<char>)
    ensures
        pair_map(v).contains_key(k) <==> exists|i: int|
            0 <= i < v.len() && (#[trigger] v[i]).0@ == k,
        forall|i: int|
            0 <= i < v.len() && (#[trigger] v[i]).0@ == k && (forall|j: int|
                i < j < v.len() ==> (#[trigger] v[j]).0@ != k) ==> pair_map(v)[k] == v[i].1@,
    decreases v.len(),
{
    if v.len() > 0 {
        let n = v.len() - 1;
        let front = v.drop_last();
        later_pairs_count(front, k);
        if pair_map(v).contains_key(k) && v[n].0@ != k {
            let i = choose|i: int| 0 <= i < front.len() && (#[trigger] front[i]).0@ == k;
            assert(v[i].0@ == k);
        }
        if exists|i: int| 0 <= i < v.len() && (#[trigger] v[i]).0@ == k {
            let i = choose|i: int| 0 <= i < v.len() && (#[trigger] v[i]).0@ == k;
            if i < n {
                assert(front[i].0@ == k);
            }
        }
        assert forall|i: int|
            0 <= i < v.len() && (#[trigger] v[i]).0@ == k && (forall|j: int|
                i < j < v.len() ==> (#[trigger] v[j]).0@ != k) implies pair_map(v)[k]
            == v[i].1@ by {
            if i < n {
                assert(v[n].0@ != k);
                assert(front[i] == v[i]);
                assert forall|j: int| i < j < front.len() implies (#[trigger] front[j]).0@ != k by {
                    assert(v[j].0@ != k);
                }
            }
        }
    }
}

} // verus!
