//! Resource containment: a grant's resource covers itself and the paths beneath it.
use vstd::prelude::*;
use crate::text::chars_of;

verus! {

/// `s` holds two consecutive dots.
pub open spec fn has_dot_dot(s: Seq<char>) -> bool {
    exists|k: int| 0 <= k && k + 1 < s.len() && #[trigger] s[k] == '.' && s[k + 1] == '.'
}

/// `s` holds a NUL character.
pub open spec fn has_nul(s: Seq<char>) -> bool {
    exists|k: int| 0 <= k < s.len() && #[trigger] s[k] == '\0'
}

/// `s` ends with `/*`.
pub open spec fn is_wildcard(s: Seq<char>) -> bool {
    s.len() >= 2 && s[s.len() - 2] == '/' && s[s.len() - 1] == '*'
}

/// The path that a parent resource covers beneath: without a trailing `/*`.
pub open spec fn stem(parent: Seq<char>) -> Seq<char> {
    if is_wildcard(parent) {
        parent.take(parent.len() - 2)
    } else {
        parent
    }
}

/// `child` is `prefix` followed by `/` and possibly more.
pub open spec fn strictly_beneath(child: Seq<char>, prefix: Seq<char>) -> bool {
    &&& prefix.len() < child.len()
    &&& child.take(prefix.len() as int) == prefix
    &&& child[prefix.len() as int] == '/'
}

/// Whether `child` lies within `parent`: neither holds `..` or NUL, and `child` is `parent`
/// itself or a path strictly beneath it (beneath `p` for a parent `p/*`).
pub open spec fn within(child: Seq<char>, parent: Seq<char>) -> bool {
    if has_dot_dot(child) || has_dot_dot(parent) || has_nul(child) || has_nul(parent) {
        false
    } else if child == parent {
        true
    } else {
        strictly_beneath(child, stem(parent))
    }
}

fn dot_dot_or_nul(s: &Vec<char>) -> (r: bool)
    ensures
        r == (has_dot_dot(s@) || has_nul(s@)),
{
    let n = s.len();
    let mut k: usize = 0;
    while k < n
        invariant
            n == s@.len(),
            k <= n,
            forall|j: int| 0 <= j < k ==> s@[j] != '\0',
            forall|j: int| 0 <= j < k && j + 1 < n ==> !(#[trigger] s@[j] == '.' && s@[j + 1] == '.'),
        decreases n - k,
    {
        if s[k] == '\0' {
            return true;
        }
        if k + 1 < n && s[k] == '.' && s[k + 1] == '.' {
            return true;
        }
        k = k + 1;
    }
    false
}

fn same_chars(a: &Vec<char>, b: &Vec<char>) -> (r: bool)
    ensures
        r == (a@ == b@),
{
    if a.len() != b.len() {
        return false;
    }
    let mut k: usize = 0;
    while k < a.len()
        invariant
            a@.len() == b@.len(),
            k <= a@.len(),
            forall|j: int| 0 <= j < k ==> a@[j] == b@[j],
        decreases a@.len() - k,
    {
        if a[k] != b[k] {
            return false;
        }
        k = k + 1;
    }
    assert(a@ =~= b@);
    true
}

/// Whether the first `len` characters of `child` are those of `prefix`, followed by `/`.
fn beneath(child: &Vec<char>, prefix: &Vec<char>, len: usize) -> (r: bool)
    requires
        len <= prefix@.len(),
    ensures
        r == strictly_beneath(child@, prefix@.take(len as int)),
{
    if len >= child.len() {
        return false;
    }
    let mut k: usize = 0;
    while k < len
        invariant
            len < child@.len(),
            len <= prefix@.len(),
            k <= len,
            forall|j: int| 0 <= j < k ==> child@[j] == prefix@[j],
        decreases len - k,
    {
        if child[k] != prefix[k] {
            assert(child@.take(len as int)[k as int] != prefix@.take(len as int)[k as int]);
            return false;
        }
        k = k + 1;
    }
    assert(child@.take(len as int) =~= prefix@.take(len as int));
    child[len] == '/'
}

/// Whether `child` lies within `parent` (see [`within`]).
pub fn resource_within(child: &str, parent: &str) -> (r: bool)
    ensures
        r == within(child@, parent@),
{
    let c = chars_of(child);
    let p = chars_of(parent);
    if dot_dot_or_nul(&c) || dot_dot_or_nul(&p) {
        return false;
    }
    if same_chars(&c, &p) {
        return true;
    }
    let n = p.len();
    if n >= 2 && p[n - 2] == '/' && p[n - 1] == '*' {
        beneath(&c, &p, n - 2)
    } else {
        assert(p@.take(n as int) =~= p@);
        beneath(&c, &p, n)
    }
}

/// Containment is transitive: a resource within a resource within `c` is within `c`, so a
/// chain of delegations can only narrow the resource.
pub proof fn lemma_within_transitive(a: Seq<char>, b: Seq<char>, c: Seq<char>)
    requires
        within(a, b),
        within(b, c),
    ensures
        within(a, c),
{
    if a == b || b == c {
    } else {
        let sb = stem(b);
        let sc = stem(c);
        let l = sc.len() + 1;
        if is_wildcard(b) && l == b.len() - 1 {
            assert(sb =~= sc);
        } else {
            if is_wildcard(b) {
                assert(l <= sb.len());
            }
            assert(a.take(sc.len() as int) =~= sc) by {
                assert forall|j: int| 0 <= j < sc.len() implies a[j] == sc[j] by {
                    assert(a.take(sb.len() as int)[j] == sb[j]);
                    assert(b.take(sc.len() as int)[j] == sc[j]);
                }
            }
            assert(a[sc.len() as int] == '/') by {
                if sc.len() < sb.len() {
                    assert(a.take(sb.len() as int)[sc.len() as int] == sb[sc.len() as int]);
                }
            }
        }
    }
}

} // verus!
