//! Who may change what below the base directory.

use vstd::prelude::*;

use crate::paths::{joined, name_views, relative_text};
use crate::text::{has_prefix, is_text, opt_text, replaced, same_text, starts_with};

verus! {

/// Permission to write and to remove.
pub struct AccessControl;

/// Whether a path lies in the directory that everyone may change.
pub open spec fn is_public(path: Seq<char>) -> bool {
    has_prefix(path, "Public/"@) || path == "Public"@
}

/// Whether a client with the key `key` may change `path`. Without a password, or with an empty one,
/// everyone may change everything.
pub open spec fn allowed(
    path: Seq<char>,
    key: Option<Seq<char>>,
    admin_password: Option<Seq<char>>,
) -> bool {
    match admin_password {
        None => true,
        Some(password) => password.len() == 0 || is_public(path) || key == Some(password),
    }
}

impl AccessControl {
    /// Tells whether a client may change the place that `names` lead to.
    pub fn check(
        names: &Vec<String>,
        client_key: &Option<String>,
        admin_password: &Option<String>,
    ) -> (r: bool)
        ensures
            r == allowed(
                replaced(joined(name_views(names@)), '\\', '/'),
                opt_text(*client_key),
                opt_text(*admin_password),
            ),
    {
        match admin_password {
            None => true,
            Some(password) => {
                if password.as_str().is_empty() {
                    return true;
                }
                let path = relative_text(names);
                if starts_with(path.as_str(), "Public/") || same_text(path.as_str(), "Public") {
                    return true;
                }
                is_text(client_key, password.as_str())
            },
        }
    }
}

/// With a password set, what lies outside the public directory can be changed with that password
/// and with no other key.
pub proof fn password_is_needed_outside_public(
    path: Seq<char>,
    key: Option<Seq<char>>,
    password: Seq<char>,
)
    requires
        password.len() > 0,
        !is_public(path),
    ensures
        allowed(path, key, Some(password)) <==> key == Some(password),
{
}

/// The public directory can be changed whatever the key and the password are.
pub proof fn public_needs_no_password(
    path: Seq<char>,
    key: Option<Seq<char>>,
    admin_password: Option<Seq<char>>,
)
    requires
        is_public(path),
    ensures
        allowed(path, key, admin_password),
{
}

proof fn lemma_joined_front(names: Seq<Seq<char>>)
    requires
        names.len() > 0,
    ensures
        names.len() == 1 ==> joined(names) == names[0],
        names.len() > 1 ==> has_prefix(joined(names), names[0] + seq!['/']),
    decreases names.len(),
{
    if names.len() > 1 {
        let front = names.drop_last();
        lemma_joined_front(front);
        let a = joined(front);
        let whole = a + seq!['/'] + names.last();
        assert(joined(names) == whole);
        let p = names[0] + seq!['/'];
        if front.len() == 1 {
            assert(whole.subrange(0, p.len() as int) =~= p);
        } else {
            assert forall|i: int| 0 <= i < p.len() implies whole[i] == p[i] by {
                assert(a.subrange(0, p.len() as int)[i] == p[i]);
            }
            assert(whole.subrange(0, p.len() as int) =~= p);
        }
    }
}

/// A place is public exactly when its first directory is the public one, or it is that directory.
/// Names with separators inside are left out.
pub proof fn public_goes_by_first_name(names: Seq<Seq<char>>)
    requires
        forall|i: int|
            0 <= i < names.len() ==> !(#[trigger] names[i]).contains('/') && !names[i].contains(
                '\\',
            ),
    ensures
        is_public(replaced(joined(names), '\\', '/')) <==> names.len() > 0 && names[0]
            == "Public"@,
{
    reveal_strlit("Public/");
    reveal_strlit("Public");
    let text = joined(names);
    let path = replaced(text, '\\', '/');
    if names.len() > 0 {
        lemma_joined_front(names);
        let first = names[0];
        assert(!first.contains('/') && !first.contains('\\'));
        let n = first.len() as int;
        assert forall|i: int| 0 <= i < n implies path[i] == first[i] by {
            assert(first.contains(first[i]));
            if names.len() > 1 {
                let p = first + seq!['/'];
                assert(text.subrange(0, p.len() as int)[i] == p[i]);
            }
        }
        if names.len() > 1 {
            let p = first + seq!['/'];
            assert(text.subrange(0, p.len() as int)[n] == p[n]);
            assert(path[n] == '/');
        }
        if first == "Public"@ {
            if names.len() == 1 {
                assert(path =~= "Public"@);
            } else {
                assert(path.subrange(0, 7) =~= "Public/"@);
            }
        }
        if has_prefix(path, "Public/"@) {
            let q = path.subrange(0, 7);
            assert(q == "Public/"@);
            assert forall|i: int| 0 <= i < 7 implies path[i] == "Public/"@[i] by {
                assert(q[i] == "Public/"@[i]);
            }
            if n > 6 {
                assert(first[6] == '/');
                assert(first.contains('/'));
            }
            if names.len() == 1 {
                assert(path.len() == n);
            }
            assert(n == 6) by {
                if n < 6 {
                    assert(path[n] == '/');
                    assert("Public/"@[n] != '/');
                }
            }
            assert(first =~= "Public"@);
        }
        if path == "Public"@ {
            if names.len() > 1 {
                assert(path[n] == '/');
            }
            assert(first =~= "Public"@);
        }
    }
}

/// Where no password is set, or an empty one, everyone may change everything.
pub proof fn without_a_password_all_is_allowed(
    path: Seq<char>,
    key: Option<Seq<char>>,
    admin_password: Option<Seq<char>>,
)
    requires
        admin_password is Some ==> admin_password->Some_0.len() == 0,
    ensures
        allowed(path, key, admin_password),
{
}

/// A path is public when it is the public directory or begins with it and a slash, and only then.
pub proof fn public_paths_begin_with_the_directory(path: Seq<char>, rest: Seq<char>)
    ensures
        is_public("Public"@),
        is_public("Public"@ + seq!['/'] + rest),
        is_public(path) ==> path == "Public"@ || exists|r: Seq<char>|
            path == #[trigger] ("Public"@ + seq!['/'] + r),
{
    reveal_strlit("Public");
    reveal_strlit("Public/");
    let p = "Public"@ + seq!['/'];
    assert(p =~= "Public/"@);
    assert((p + rest).subrange(0, 7) =~= p);
    if has_prefix(path, "Public/"@) {
        assert(path =~= path.subrange(0, 7) + path.skip(7));
        assert(path == "Public"@ + seq!['/'] + path.skip(7));
    }
}

} // verus!
