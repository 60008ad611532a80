//! Dotted paths into a configuration.

use vstd::prelude::*;
use vstd::string::*;

verus! {

/// The path of `key` inside the table at `parent`.
pub open spec fn child_path(parent: Seq<char>, key: Seq<char>) -> Seq<char> {
    parent + "."@ + key
}

/// The path of `key` inside the table at `parent`.
pub fn join_path(parent: &str, key: &str) -> (r: String)
    ensures
        r@ == child_path(parent@, key@),
{
    let mut s = parent.to_owned();
    s.append(".");
    s.append(key);
    s
}

/// Whether the last dot of `path` is the one at index `i`.
pub open spec fn is_last_dot(path: Seq<char>, i: int) -> bool {
    &&& 0 <= i < path.len()
    &&& path[i] == '.'
    &&& forall|j: int| i < j < path.len() ==> path[j] != '.'
}

/// What stands before the last dot of a path; a path without a dot is its own
/// parent.
pub open spec fn parent_of(path: Seq<char>) -> Seq<char> {
    if exists|i: int| is_last_dot(path, i) {
        path.take(choose|i: int| is_last_dot(path, i))
    } else {
        path
    }
}

proof fn lemma_parent_at(path: Seq<char>, i: int)
    requires
        is_last_dot(path, i),
    ensures
        parent_of(path) == path.take(i),
{
    let k = choose|k: int| is_last_dot(path, k);
    assert(is_last_dot(path, k));
    if k < i {
        assert(path[i] != '.');
    } else if i < k {
        assert(path[k] != '.');
    }
}

/// The path of the table that holds `path`.
pub fn parent_path(path: &str) -> (r: &str)
    ensures
        r@ == parent_of(path@),
{
    let n: usize = path.unicode_len();
    let mut i: usize = n;
    while i > 0
        invariant
            i <= n,
            n == path@.len(),
            forall|j: int| i <= j < n ==> path@[j] != '.',
        decreases i,
    {
        i -= 1;
        if path.get_char(i) == '.' {
            proof {
                assert(is_last_dot(path@, i as int));
                lemma_parent_at(path@, i as int);
                assert(path@.take(i as int) =~= path@.subrange(0, i as int));
            }
            return path.substring_char(0, i);
        }
    }
    path
}

/// Going down into a table by a key without dots and up again leads back.
pub proof fn parent_of_child(parent: Seq<char>, key: Seq<char>)
    requires
        !key.contains('.'),
    ensures
        parent_of(child_path(parent, key)) == parent,
{
    reveal_strlit(".");
    let path = child_path(parent, key);
    let i = parent.len() as int;
    assert forall|j: int| i < j < path.len() implies path[j] != '.' by {
        assert(path[j] == key[j - i - 1]);
    }
    assert(path[i] == '.');
    assert(is_last_dot(path, i));
    lemma_parent_at(path, i);
    assert(path.take(i) =~= parent);
}

/// A path is the child of its parent by a key without dots, or has no dot and
/// is its own parent.
pub proof fn parent_then_child(path: Seq<char>)
    ensures
        path.contains('.') ==> exists|key: Seq<char>|
            !key.contains('.') && path == #[trigger] child_path(parent_of(path), key),
        !path.contains('.') ==> parent_of(path) == path,
{
    if path.contains('.') {
        lemma_has_last_dot(path);
        let i = choose|i: int| is_last_dot(path, i);
        lemma_parent_at(path, i);
        let key = path.skip(i + 1);
        reveal_strlit(".");
        assert(child_path(path.take(i), key) =~= path);
        assert(!key.contains('.')) by {
            if key.contains('.') {
                let j = choose|j: int| 0 <= j < key.len() && key[j] == '.';
                assert(path[i + 1 + j] == '.');
            }
        }
    } else {
        assert forall|i: int| !is_last_dot(path, i) by {
            if is_last_dot(path, i) {
                assert(path[i] == '.');
            }
        }
    }
}

proof fn lemma_has_last_dot(path: Seq<char>)
    requires
        path.contains('.'),
    ensures
        exists|i: int| is_last_dot(path, i),
    decreases path.len(),
{
    let n = path.len() - 1;
    if path[n] == '.' {
        assert(is_last_dot(path, n));
    } else {
        let rest = path.drop_last();
        let k = choose|k: int| 0 <= k < path.len() && path[k] == '.';
        assert(rest[k] == '.');
        lemma_has_last_dot(rest);
        let i = choose|i: int| is_last_dot(rest, i);
        assert(path[i] == '.');
        assert forall|j: int| i < j < path.len() implies path[j] != '.' by {
            if j < n {
                assert(rest[j] != '.');
            }
        }
        assert(is_last_dot(path, i));
    }
}

/// The path of a child is the path of its parent, a dot, and its key.
pub proof fn child_path_is_parent_dot_key(parent: Seq<char>, key: Seq<char>)
    ensures
        ({
            let path = child_path(parent, key);
            let at = parent.len() as int;
            &&& path.len() == parent.len() + 1 + key.len()
            &&& path.take(at) == parent
            &&& path[at] == '.'
            &&& path.skip(at + 1) == key
        }),
{
    reveal_strlit(".");
    let path = child_path(parent, key);
    assert(path.take(parent.len() as int) =~= parent);
    assert(path.skip((parent.len() + 1) as int) =~= key);
}

/// Different entries of a table, and entries of different tables under keys without
/// dots, have different paths.
pub proof fn different_entries_have_different_paths(
    parent: Seq<char>,
    key: Seq<char>,
    other_parent: Seq<char>,
    other_key: Seq<char>,
)
    requires
        child_path(parent, key) == child_path(other_parent, other_key),
        parent == other_parent || (!key.contains('.') && !other_key.contains('.')),
    ensures
        parent == other_parent,
        key == other_key,
{
    if parent != other_parent {
        parent_of_child(parent, key);
        parent_of_child(other_parent, other_key);
    }
    child_path_is_parent_dot_key(parent, key);
    child_path_is_parent_dot_key(other_parent, other_key);
}

} // verus!
