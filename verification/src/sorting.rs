//! Sorting of listed items by path.

use vstd::prelude::*;

use crate::listing::{item_views, FileItem, FileItemView};
use crate::text::{
    chars_le, text_le, text_le_antisymmetric, text_le_total, text_le_transitive, to_chars,
};

verus! {

/// Whether items are in the order of their paths.
pub open spec fn sorted_by_path(s: Seq<FileItemView>) -> bool {
    forall|i: int, j: int|
        0 <= i <= j < s.len() ==> text_le((#[trigger] s[i]).path, (#[trigger] s[j]).path)
}

/// The items of `s` with the path `path`, in their order.
pub open spec fn with_path(s: Seq<FileItemView>, path: Seq<char>) -> Seq<FileItemView> {
    s.filter(|i: FileItemView| i.path == path)
}

/// Whether `r` is `s` sorted by path, with items of the same path left in their order.
pub open spec fn sorts(s: Seq<FileItemView>, r: Seq<FileItemView>) -> bool {
    &&& sorted_by_path(r)
    &&& forall|path: Seq<char>| #[trigger] with_path(r, path) == with_path(s, path)
}

/// An item and the characters of its path.
struct Keyed {
    key: Vec<char>,
    item: FileItem,
}

spec fn keyed_views(v: Seq<Keyed>) -> Seq<FileItemView> {
    v.map_values(|k: Keyed| k.item@)
}

spec fn keys_fit(v: Seq<Keyed>) -> bool {
    forall|i: int| 0 <= i < v.len() ==> (#[trigger] v[i]).key@ == v[i].item.path@
}

proof fn lemma_with_path_add(a: Seq<FileItemView>, b: Seq<FileItemView>, path: Seq<char>)
    ensures
        with_path(a + b, path) == with_path(a, path) + with_path(b, path),
{
    Seq::filter_distributes_over_add(a, b, |i: FileItemView| i.path == path);
}

proof fn lemma_with_path_one(x: FileItemView, path: Seq<char>)
    ensures
        with_path(seq![x], path) == if x.path == path {
            seq![x]
        } else {
            Seq::empty()
        },
{
    let pred = |i: FileItemView| i.path == path;
    reveal_with_fuel(Seq::filter, 2);
    assert(seq![x].drop_last() =~= Seq::empty());
    assert(seq![x].filter(pred) =~= if x.path == path {
        seq![x]
    } else {
        Seq::empty()
    });
}

proof fn lemma_with_path_none(s: Seq<FileItemView>, path: Seq<char>)
    requires
        forall|i: int| 0 <= i < s.len() ==> (#[trigger] s[i]).path != path,
    ensures
        with_path(s, path) == Seq::<FileItemView>::empty(),
{
    let pred = |i: FileItemView| i.path == path;
    if with_path(s, path).len() > 0 {
        let x = with_path(s, path)[0];
        assert(s.filter(pred).contains(x));
        s.lemma_filter_contains_rev(pred, x);
        s.lemma_filter_pred(pred, 0);
        let i = s.index_of(x);
        assert(s[i].path != path);
    }
    assert(with_path(s, path) =~= Seq::empty());
}

/// Moving the last item of the right part in front of the tail keeps what each path has.
proof fn lemma_take_right(
    l: Seq<FileItemView>,
    r: Seq<FileItemView>,
    x: FileItemView,
    t: Seq<FileItemView>,
    path: Seq<char>,
)
    ensures
        with_path(l, path) + with_path(r, path) + with_path(seq![x] + t, path) == with_path(l, path)
            + with_path(r.push(x), path) + with_path(t, path),
{
    lemma_with_path_add(seq![x], t, path);
    assert(r.push(x) =~= r + seq![x]);
    lemma_with_path_add(r, seq![x], path);
    assert(with_path(l, path) + with_path(r, path) + (with_path(seq![x], path) + with_path(t, path))
        =~= with_path(l, path) + (with_path(r, path) + with_path(seq![x], path)) + with_path(
        t,
        path,
    ));
}

/// Moving the last item of the left part in front of the tail keeps what each path has, where the
/// right part lies before it.
proof fn lemma_take_left(
    l: Seq<FileItemView>,
    r: Seq<FileItemView>,
    x: FileItemView,
    t: Seq<FileItemView>,
    path: Seq<char>,
)
    requires
        forall|i: int| 0 <= i < r.len() ==> !text_le(x.path, (#[trigger] r[i]).path),
    ensures
        with_path(l, path) + with_path(r, path) + with_path(seq![x] + t, path) == with_path(
            l.push(x),
            path,
        ) + with_path(r, path) + with_path(t, path),
{
    lemma_with_path_add(seq![x], t, path);
    assert(l.push(x) =~= l + seq![x]);
    lemma_with_path_add(l, seq![x], path);
    lemma_with_path_one(x, path);
    if x.path == path {
        text_le_total(path, path);
        assert forall|i: int| 0 <= i < r.len() implies (#[trigger] r[i]).path != path by {
            assert(!text_le(x.path, r[i].path));
        }
        lemma_with_path_none(r, path);
    }
    assert(with_path(l, path) + with_path(r, path) + (with_path(seq![x], path) + with_path(t, path))
        =~= (with_path(l, path) + with_path(seq![x], path)) + with_path(r, path) + with_path(
        t,
        path,
    ));
}

/// Merges two sorted lists; of items with the same path those of `left` come first.
fn merge(left: Vec<Keyed>, right: Vec<Keyed>) -> (r: Vec<Keyed>)
    requires
        keys_fit(left@),
        keys_fit(right@),
        sorted_by_path(keyed_views(left@)),
        sorted_by_path(keyed_views(right@)),
    ensures
        keys_fit(r@),
        sorted_by_path(keyed_views(r@)),
        forall|path: Seq<char>| #[trigger]
            with_path(keyed_views(r@), path) == with_path(keyed_views(left@), path) + with_path(
                keyed_views(right@),
                path,
            ),
{
    let ghost a = keyed_views(left@);
    let ghost b = keyed_views(right@);
    let mut left = left;
    let mut right = right;
    let mut back: Vec<Keyed> = Vec::new();
    // What `back` holds, in the order of the result.
    let ghost mut tail: Seq<FileItemView> = Seq::empty();
    proof {
        assert forall|path: Seq<char>| #[trigger]
            with_path(a, path) + with_path(b, path) + with_path(tail, path) == with_path(a, path)
                + with_path(b, path) by {
            lemma_with_path_none(tail, path);
            assert(with_path(a, path) + with_path(b, path) + with_path(tail, path) =~= with_path(
                a,
                path,
            ) + with_path(b, path));
        }
    }
    while left.len() > 0 || right.len() > 0
        invariant
            keys_fit(left@),
            keys_fit(right@),
            keys_fit(back@),
            sorted_by_path(keyed_views(left@)),
            sorted_by_path(keyed_views(right@)),
            sorted_by_path(tail),
            tail.len() == back@.len(),
            forall|i: int|
                0 <= i < back@.len() ==> tail[tail.len() - 1 - i] == (
                #[trigger] back@[i]).item@,
            forall|i: int, j: int|
                0 <= i < left@.len() && 0 <= j < tail.len() ==> text_le(
                    (#[trigger] left@[i]).item@.path,
                    (#[trigger] tail[j]).path,
                ),
            forall|i: int, j: int|
                0 <= i < right@.len() && 0 <= j < tail.len() ==> text_le(
                    (#[trigger] right@[i]).item@.path,
                    (#[trigger] tail[j]).path,
                ),
            forall|path: Seq<char>| #[trigger]
                with_path(keyed_views(left@), path) + with_path(keyed_views(right@), path)
                    + with_path(tail, path) == with_path(a, path) + with_path(b, path),
        decreases left@.len() + right@.len(),
    {
        let ghost lv = keyed_views(left@);
        let ghost rv = keyed_views(right@);
        let ghost before = tail;
        let n: usize = left.len();
        let m: usize = right.len();
        let from_right = if m == 0 {
            false
        } else if n == 0 {
            true
        } else {
            chars_le(&left[n - 1].key, &right[m - 1].key)
        };
        if from_right {
            let ghost x = rv.last();
            assert(right@[m - 1].item@ == x);
            match right.pop() {
                Some(k) => {
                    proof {
                        tail = seq![x] + before;
                        assert(rv =~= keyed_views(right@).push(x));
                        assert forall|i: int| 0 <= i < left@.len() implies text_le(
                            (#[trigger] left@[i]).item@.path,
                            x.path,
                        ) by {
                            assert(text_le(lv[i].path, lv[n - 1].path));
                            text_le_transitive(lv[i].path, lv[n - 1].path, x.path);
                        }
                        assert forall|i: int| 0 <= i < right@.len() implies text_le(
                            (#[trigger] right@[i]).item@.path,
                            x.path,
                        ) by {
                            assert(text_le(rv[i].path, rv[m - 1].path));
                        }
                        assert forall|path: Seq<char>| #[trigger]
                            with_path(keyed_views(left@), path) + with_path(
                                keyed_views(right@),
                                path,
                            ) + with_path(tail, path) == with_path(a, path) + with_path(
                                b,
                                path,
                            ) by {
                            lemma_take_right(lv, keyed_views(right@), x, before, path);
                            assert(with_path(lv, path) + with_path(rv, path) + with_path(
                                before,
                                path,
                            ) == with_path(a, path) + with_path(b, path));
                        }
                    }
                    back.push(k);
                },
                None => {},
            }
        } else {
            let ghost x = lv.last();
            assert(left@[n - 1].item@ == x);
            match left.pop() {
                Some(k) => {
                    proof {
                        tail = seq![x] + before;
                        assert(lv =~= keyed_views(left@).push(x));
                        assert forall|i: int| 0 <= i < right@.len() implies !text_le(
                            x.path,
                            (#[trigger] right@[i]).item@.path,
                        ) && text_le(right@[i].item@.path, x.path) by {
                            assert(text_le(rv[i].path, rv[m - 1].path));
                            assert(!text_le(x.path, rv[m - 1].path));
                            if text_le(x.path, rv[i].path) {
                                text_le_transitive(x.path, rv[i].path, rv[m - 1].path);
                            }
                            text_le_total(x.path, rv[i].path);
                        }
                        assert forall|i: int| 0 <= i < rv.len() implies !text_le(
                            x.path,
                            (#[trigger] rv[i]).path,
                        ) by {
                            assert(rv[i] == right@[i].item@);
                        }
                        assert forall|i: int| 0 <= i < left@.len() implies text_le(
                            (#[trigger] left@[i]).item@.path,
                            x.path,
                        ) by {
                            assert(text_le(lv[i].path, lv[n - 1].path));
                        }
                        assert forall|path: Seq<char>| #[trigger]
                            with_path(keyed_views(left@), path) + with_path(
                                keyed_views(right@),
                                path,
                            ) + with_path(tail, path) == with_path(a, path) + with_path(
                                b,
                                path,
                            ) by {
                            lemma_take_left(keyed_views(left@), rv, x, before, path);
                            assert(with_path(lv, path) + with_path(rv, path) + with_path(
                                before,
                                path,
                            ) == with_path(a, path) + with_path(b, path));
                        }
                    }
                    back.push(k);
                },
                None => {},
            }
        }
        proof {
            let sub_l = keyed_views(left@);
            let sub_r = keyed_views(right@);
            assert forall|i: int, j: int| 0 <= i <= j < sub_l.len() implies text_le(
                (#[trigger] sub_l[i]).path,
                (#[trigger] sub_l[j]).path,
            ) by {
                assert(sub_l[i] == lv[i] && sub_l[j] == lv[j]);
            }
            assert forall|i: int, j: int| 0 <= i <= j < sub_r.len() implies text_le(
                (#[trigger] sub_r[i]).path,
                (#[trigger] sub_r[j]).path,
            ) by {
                assert(sub_r[i] == rv[i] && sub_r[j] == rv[j]);
            }
            assert forall|i: int, j: int| 0 <= i <= j < tail.len() implies text_le(
                (#[trigger] tail[i]).path,
                (#[trigger] tail[j]).path,
            ) by {
                if i == 0 {
                    text_le_total(tail[0].path, tail[0].path);
                    if j > 0 {
                        assert(tail[j] == before[j - 1]);
                        if from_right {
                            assert(right@.len() == m - 1);
                        }
                    }
                } else {
                    assert(tail[i] == before[i - 1] && tail[j] == before[j - 1]);
                }
            }
        }
    }
    let mut out: Vec<Keyed> = Vec::new();
    while back.len() > 0
        invariant
            keys_fit(back@),
            keys_fit(out@),
            tail.len() == out@.len() + back@.len(),
            forall|i: int| 0 <= i < out@.len() ==> tail[i] == (#[trigger] out@[i]).item@,
            forall|i: int|
                0 <= i < back@.len() ==> tail[tail.len() - 1 - i] == (
                #[trigger] back@[i]).item@,
        decreases back@.len(),
    {
        match back.pop() {
            Some(k) => {
                out.push(k);
            },
            None => {},
        }
    }
    proof {
        assert(keyed_views(out@) =~= tail);
        assert forall|path: Seq<char>| #[trigger]
            with_path(keyed_views(out@), path) == with_path(a, path) + with_path(b, path) by {
            lemma_with_path_none(keyed_views(left@), path);
            lemma_with_path_none(keyed_views(right@), path);
            assert(with_path(keyed_views(left@), path) + with_path(keyed_views(right@), path)
                + with_path(tail, path) =~= with_path(tail, path));
        }
    }
    out
}

/// Sorts items by path; items with the same path stay in their order.
fn merge_sort(items: Vec<Keyed>) -> (r: Vec<Keyed>)
    requires
        keys_fit(items@),
    ensures
        keys_fit(r@),
        sorts(keyed_views(items@), keyed_views(r@)),
    decreases items@.len(),
{
    let ghost all = keyed_views(items@);
    let n: usize = items.len();
    if n < 2 {
        proof {
            if n == 1 {
                text_le_total(all[0].path, all[0].path);
            }
        }
        return items;
    }
    let mut left = items;
    let right = left.split_off(n / 2);
    let ghost lv = keyed_views(left@);
    let ghost rv = keyed_views(right@);
    assert(all =~= lv + rv);
    let left = merge_sort(left);
    let right = merge_sort(right);
    let r = merge(left, right);
    proof {
        assert forall|path: Seq<char>| #[trigger]
            with_path(keyed_views(r@), path) == with_path(all, path) by {
            lemma_with_path_add(lv, rv, path);
            assert(with_path(keyed_views(left@), path) == with_path(lv, path));
            assert(with_path(keyed_views(right@), path) == with_path(rv, path));
        }
    }
    r
}

/// Sorts items by path; items with the same path stay in their order.
pub fn sort_by_path(items: Vec<FileItem>) -> (r: Vec<FileItem>)
    ensures
        sorts(item_views(items@), item_views(r@)),
{
    let ghost all = item_views(items@);
    let ghost given = items@;
    let mut keyed: Vec<Keyed> = Vec::new();
    for item in it: items
        invariant
            it.seq() == given,
            all == item_views(given),
            keys_fit(keyed@),
            keyed_views(keyed@) == all.take(it.index() as int),
    {
        let ghost had = keyed_views(keyed@);
        assert(item@ == all[it.index() as int]);
        let key = to_chars(item.path.as_str());
        let ghost x = item@;
        keyed.push(Keyed { key, item });
        assert(keyed_views(keyed@) =~= had.push(x));
        assert(keyed_views(keyed@) =~= all.take(it.index() + 1));
    }
    assert(all.take(all.len() as int) =~= all);
    let sorted = merge_sort(keyed);
    let ghost goal = keyed_views(sorted@);
    let ghost given = sorted@;
    let mut out: Vec<FileItem> = Vec::new();
    for k in it: sorted
        invariant
            it.seq() == given,
            goal == keyed_views(given),
            item_views(out@) == goal.take(it.index() as int),
    {
        let ghost had = item_views(out@);
        let ghost x = k.item@;
        assert(x == goal[it.index() as int]);
        out.push(k.item);
        assert(item_views(out@) =~= had.push(x));
        assert(item_views(out@) =~= goal.take(it.index() + 1));
    }
    assert(goal.take(goal.len() as int) =~= goal);
    out
}

/// Sorting loses no item and adds none.
pub proof fn sorting_keeps_items(s: Seq<FileItemView>, r: Seq<FileItemView>, x: FileItemView)
    requires
        sorts(s, r),
    ensures
        r.contains(x) <==> s.contains(x),
{
    let pred = |i: FileItemView| i.path == x.path;
    assert(with_path(r, x.path) == with_path(s, x.path));
    if r.contains(x) {
        r.lemma_filter_contains(pred, r.index_of(x));
        s.lemma_filter_contains_rev(pred, x);
    }
    if s.contains(x) {
        s.lemma_filter_contains(pred, s.index_of(x));
        r.lemma_filter_contains_rev(pred, x);
    }
}

/// There is only one way to sort: items of different paths can stand in one order only, and items of
/// the same path keep theirs.
pub proof fn sorting_is_unique(
    s: Seq<FileItemView>,
    a: Seq<FileItemView>,
    b: Seq<FileItemView>,
)
    requires
        sorts(s, a),
        sorts(s, b),
    ensures
        a == b,
{
    assert forall|path: Seq<char>| #[trigger] with_path(a, path) == with_path(b, path) by {
        assert(with_path(a, path) == with_path(s, path));
        assert(with_path(b, path) == with_path(s, path));
    }
    lemma_sorted_alike(a, b);
}

/// A path that an item of `b` has, an item of `a` has too, and so the last item of `a` does not lie
/// before it.
proof fn lemma_last_is_greatest(a: Seq<FileItemView>, b: Seq<FileItemView>, y: FileItemView)
    requires
        sorted_by_path(a),
        with_path(a, y.path) == with_path(b, y.path),
        b.contains(y),
    ensures
        a.len() > 0,
        text_le(y.path, a.last().path),
{
    let pred = |i: FileItemView| i.path == y.path;
    b.lemma_filter_contains(pred, b.index_of(y));
    a.lemma_filter_contains_rev(pred, y);
    let i = a.index_of(y);
    assert(text_le(a[i].path, a[a.len() - 1].path));
}

proof fn lemma_sorted_alike(a: Seq<FileItemView>, b: Seq<FileItemView>)
    requires
        sorted_by_path(a),
        sorted_by_path(b),
        forall|path: Seq<char>| #[trigger] with_path(a, path) == with_path(b, path),
    ensures
        a == b,
    decreases a.len(),
{
    if a.len() == 0 {
        if b.len() > 0 {
            assert(b.contains(b.last()));
            assert(with_path(a, b.last().path) == with_path(b, b.last().path));
            lemma_last_is_greatest(a, b, b.last());
        }
        assert(a =~= b);
    } else {
        let x = a.last();
        assert(a.contains(x));
        assert(with_path(a, x.path) == with_path(b, x.path));
        lemma_last_is_greatest(b, a, x);
        let y = b.last();
        assert(b.contains(y));
        assert(with_path(a, y.path) == with_path(b, y.path));
        lemma_last_is_greatest(a, b, y);
        text_le_antisymmetric(x.path, y.path);
        let af = a.drop_last();
        let bf = b.drop_last();
        assert(a =~= af + seq![x]);
        assert(b =~= bf + seq![y]);
        lemma_with_path_add(af, seq![x], x.path);
        lemma_with_path_add(bf, seq![y], x.path);
        lemma_with_path_one(x, x.path);
        lemma_with_path_one(y, x.path);
        let wa = with_path(af, x.path);
        let wb = with_path(bf, x.path);
        assert(wa + seq![x] == wb + seq![y]);
        assert((wa + seq![x]).last() == x && (wb + seq![y]).last() == y);
        assert((wa + seq![x]).drop_last() =~= wa);
        assert((wb + seq![y]).drop_last() =~= wb);
        assert forall|path: Seq<char>| #[trigger] with_path(af, path) == with_path(bf, path) by {
            if path != x.path {
                lemma_with_path_add(af, seq![x], path);
                lemma_with_path_add(bf, seq![y], path);
                lemma_with_path_one(x, path);
                lemma_with_path_one(y, path);
                assert(with_path(a, path) == with_path(b, path));
                assert(with_path(af, path) + Seq::<FileItemView>::empty() =~= with_path(af, path));
                assert(with_path(bf, path) + Seq::<FileItemView>::empty() =~= with_path(bf, path));
            }
        }
        assert(sorted_by_path(af)) by {
            assert forall|i: int, j: int| 0 <= i <= j < af.len() implies text_le(
                (#[trigger] af[i]).path,
                (#[trigger] af[j]).path,
            ) by {
                assert(af[i] == a[i] && af[j] == a[j]);
            }
        }
        assert(sorted_by_path(bf)) by {
            assert forall|i: int, j: int| 0 <= i <= j < bf.len() implies text_le(
                (#[trigger] bf[i]).path,
                (#[trigger] bf[j]).path,
            ) by {
                assert(bf[i] == b[i] && bf[j] == b[j]);
            }
        }
        lemma_sorted_alike(af, bf);
    }
}

proof fn lemma_count_with_path(s: Seq<FileItemView>, x: FileItemView)
    ensures
        s.to_multiset().count(x) == with_path(s, x.path).to_multiset().count(x),
    decreases s.len(),
{
    broadcast use vstd::seq_lib::group_to_multiset_ensures;

    if s.len() > 0 {
        let front = s.drop_last();
        let y = s.last();
        lemma_count_with_path(front, x);
        assert(front + seq![y] =~= s);
        assert(front.push(y) =~= s);
        lemma_with_path_add(front, seq![y], x.path);
        lemma_with_path_one(y, x.path);
        if y.path == x.path {
            assert(with_path(s, x.path) =~= with_path(front, x.path).push(y));
        } else {
            assert(with_path(s, x.path) =~= with_path(front, x.path));
        }
    } else {
        assert(s =~= Seq::empty());
        lemma_with_path_none(s, x.path);
    }
}

/// Sorted items are those that were given, each as often, in the order of their paths: a path that
/// goes on after another one, or has the smaller character where they first differ, stands where it
/// belongs. Items of the same path stay in their order.
pub proof fn sorting_orders_the_same_items(
    s: Seq<FileItemView>,
    r: Seq<FileItemView>,
    path: Seq<char>,
)
    requires
        sorts(s, r),
    ensures
        r.to_multiset() == s.to_multiset(),
        r.len() == s.len(),
        forall|i: int, j: int|
            0 <= i < j < r.len() ==> text_le((#[trigger] r[i]).path, (#[trigger] r[j]).path),
        r.filter(|i: FileItemView| i.path == path) == s.filter(|i: FileItemView| i.path == path),
{
    broadcast use vstd::seq_lib::group_to_multiset_ensures;

    assert forall|x: FileItemView| r.to_multiset().count(x) == s.to_multiset().count(x) by {
        lemma_count_with_path(r, x);
        lemma_count_with_path(s, x);
        assert(with_path(r, x.path) == with_path(s, x.path));
    }
    assert(r.to_multiset() =~= s.to_multiset());
    assert(r.len() == r.to_multiset().len());
    assert(s.len() == s.to_multiset().len());
    assert(with_path(r, path) == with_path(s, path));
}

} // verus!
