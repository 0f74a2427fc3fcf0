//! Decides which filesystem paths are excluded from scanning.
//!
//! A path is ignored when it names a build-output tree (it begins with
//! `./target` or `/target`) or when any of its components is hidden: the
//! component begins with `.` and is neither the current-directory component
//! `.` nor the parent-directory component `..`. The decision is made on the
//! literal path string alone; nothing is resolved against the filesystem.

use vstd::prelude::*;

verus! {

/// The path begins with `./target` or `/target`.
pub open spec fn is_target_prefix(s: Seq<char>) -> bool {
    ||| (s.len() >= 8 && s[0] == '.' && s[1] == '/' && s[2] == 't' && s[3] == 'a' && s[4] == 'r'
        && s[5] == 'g' && s[6] == 'e' && s[7] == 't')
    ||| (s.len() >= 7 && s[0] == '/' && s[1] == 't' && s[2] == 'a' && s[3] == 'r' && s[4] == 'g'
        && s[5] == 'e' && s[6] == 't')
}

/// Position `i` starts a hidden path component: a `.` at the beginning of the
/// path or right after a `/`, where the component is not `.` or `..` itself.
pub open spec fn hidden_component_at(s: Seq<char>, i: int) -> bool {
    &&& 0 <= i < s.len()
    &&& s[i] == '.'
    &&& (i == 0 || s[i - 1] == '/')
    &&& !(i + 1 == s.len() || s[i + 1] == '/')
    &&& !(s[i + 1] == '.' && (i + 2 == s.len() || s[i + 2] == '/'))
}

/// A path is ignored when it lies under a top-level build-output directory or
/// when any of its components is hidden.
pub open spec fn ignored_path(s: Seq<char>) -> bool {
    is_target_prefix(s) || exists|i: int| hidden_component_at(s, i)
}

/// The six characters of `target` stand in `path` at position `k`.
fn target_at(path: &str, k: usize) -> (b: bool)
    requires
        k + 6 <= path@.len(),
        path@.len() <= usize::MAX,
    ensures
        b == (path@[k as int] == 't' && path@[k + 1] == 'a' && path@[k + 2] == 'r'
            && path@[k + 3] == 'g' && path@[k + 4] == 'e' && path@[k + 5] == 't'),
{
    path.get_char(k) == 't' && path.get_char(k + 1) == 'a' && path.get_char(k + 2) == 'r'
        && path.get_char(k + 3) == 'g' && path.get_char(k + 4) == 'e' && path.get_char(k + 5) == 't'
}

/// Whether the tree walk must skip this path.
pub fn should_ignore(path: &str) -> (b: bool)
    ensures
        b == ignored_path(path@),
{
    let n = path.unicode_len();
    if n >= 8 && path.get_char(0) == '.' && path.get_char(1) == '/' && target_at(path, 2) {
        return true;
    }
    if n >= 7 && path.get_char(0) == '/' && target_at(path, 1) {
        return true;
    }
    let mut i: usize = 0;
    while i < n
        invariant
            i <= n,
            n == path@.len(),
            forall|j: int| 0 <= j < i ==> !hidden_component_at(path@, j),
        decreases n - i,
    {
        if path.get_char(i) == '.' && (i == 0 || path.get_char(i - 1) == '/') {
            let single_dot = i + 1 == n || path.get_char(i + 1) == '/';
            if !single_dot {
                let double_dot = path.get_char(i + 1) == '.' && (i + 2 == n || path.get_char(
                    i + 2,
                ) == '/');
                if !double_dot {
                    assert(hidden_component_at(path@, i as int));
                    return true;
                }
            }
        }
        i += 1;
    }
    false
}

} // verus!
