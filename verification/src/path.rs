//! Host and container paths as character sequences, with the joins and
//! prefix tests that the orchestrator performs on them.
use vstd::prelude::*;
use vstd::string::*;
use crate::text::{seq_starts_with, slice, starts_with};

verus! {

/// `base` joined with `comp`: an absolute `comp` replaces `base`, an empty
/// `base` yields `comp`, otherwise one `/` separates the two.
pub open spec fn path_join(base: Seq<char>, comp: Seq<char>) -> Seq<char> {
    if comp.len() > 0 && comp[0] == '/' {
        comp
    } else if base.len() == 0 {
        comp
    } else if base.last() == '/' {
        base + comp
    } else {
        base + seq!['/'] + comp
    }
}

/// `path` relative to `base`, when `base` is `path` itself or one of its
/// ancestor directories (paths taken as normalised: no `.` or `..`
/// components and no repeated separators).
pub open spec fn path_strip_prefix(path: Seq<char>, base: Seq<char>) -> Option<Seq<char>> {
    if path == base {
        Some(Seq::<char>::empty())
    } else if base.len() > 0 && base.last() == '/' && seq_starts_with(path, base) {
        Some(path.skip(base.len() as int))
    } else if seq_starts_with(path, base.push('/')) {
        Some(path.skip(base.len() + 1 as int))
    } else {
        None
    }
}

/// `path` with all trailing separators removed.
pub open spec fn trim_trailing_slashes(s: Seq<char>) -> Seq<char>
    decreases s.len(),
{
    if s.len() > 0 && s.last() == '/' {
        trim_trailing_slashes(s.drop_last())
    } else {
        s
    }
}

/// Index of the last `c` in `s`, if any.
pub open spec fn last_index_of(s: Seq<char>, c: char) -> Option<int>
    decreases s.len(),
{
    if s.len() == 0 {
        None
    } else if s.last() == c {
        Some(s.len() - 1)
    } else {
        last_index_of(s.drop_last(), c)
    }
}

/// The parent directory of `p`: `None` for the empty path and the root,
/// the empty path for a single relative component, otherwise everything
/// before the last component (the root when that is all that is left).
pub open spec fn path_parent(p: Seq<char>) -> Option<Seq<char>> {
    let t = trim_trailing_slashes(p);
    if t.len() == 0 {
        None
    } else {
        match last_index_of(t, '/') {
            None => Some(Seq::<char>::empty()),
            Some(k) => {
                let h = trim_trailing_slashes(t.subrange(0, k));
                if h.len() == 0 {
                    Some(seq!['/'])
                } else {
                    Some(h)
                }
            },
        }
    }
}

proof fn lemma_trim_is_prefix(s: Seq<char>)
    ensures
        trim_trailing_slashes(s).len() <= s.len(),
        trim_trailing_slashes(s) == s.subrange(0, trim_trailing_slashes(s).len() as int),
        trim_trailing_slashes(s).len() == 0 || trim_trailing_slashes(s).last() != '/',
        forall|i: int| trim_trailing_slashes(s).len() <= i < s.len() ==> s[i] == '/',
    decreases s.len(),
{
    if s.len() > 0 && s.last() == '/' {
        lemma_trim_is_prefix(s.drop_last());
        let t = trim_trailing_slashes(s.drop_last());
        assert(t == s.subrange(0, t.len() as int)) by {
            assert(s.drop_last().subrange(0, t.len() as int) =~= s.subrange(0, t.len() as int));
        }
        assert forall|i: int| t.len() <= i < s.len() implies s[i] == '/' by {
            if i < s.len() - 1 {
                assert(s[i] == s.drop_last()[i]);
            }
        }
    } else {
        assert(s.subrange(0, s.len() as int) =~= s);
    }
}

proof fn lemma_last_index_of(s: Seq<char>, c: char)
    ensures
        match last_index_of(s, c) {
            Some(k) => 0 <= k < s.len() && s[k] == c && forall|j: int| k < j < s.len() ==> s[j] != c,
            None => forall|j: int| 0 <= j < s.len() ==> s[j] != c,
        },
    decreases s.len(),
{
    if s.len() > 0 && s.last() != c {
        lemma_last_index_of(s.drop_last(), c);
        match last_index_of(s.drop_last(), c) {
            Some(k) => {
                assert forall|j: int| k < j < s.len() implies s[j] != c by {
                    if j < s.len() - 1 {
                        assert(s[j] == s.drop_last()[j]);
                    }
                }
            },
            None => {
                assert forall|j: int| 0 <= j < s.len() implies s[j] != c by {
                    if j < s.len() - 1 {
                        assert(s[j] == s.drop_last()[j]);
                    }
                }
            },
        }
    }
}

/// `base` joined with `comp` (see [`path_join`]).
pub fn join(base: &str, comp: &str) -> (r: String)
    ensures
        r@ == path_join(base@, comp@),
{
    let n = comp.unicode_len();
    if n > 0 && comp.get_char(0) == '/' {
        return String::from_str(comp);
    }
    let m = base.unicode_len();
    if m == 0 {
        return String::from_str(comp);
    }
    if base.get_char(m - 1) == '/' {
        String::from_str(base).concat(comp)
    } else {
        let sep = "/";
        proof {
            reveal_strlit("/");
        }
        let r = String::from_str(base).concat(sep).concat(comp);
        assert(r@ =~= base@ + seq!['/'] + comp@);
        r
    }
}

/// Length of `s` once its trailing separators are removed.
fn trimmed_len(s: &str, n: usize) -> (k: usize)
    requires
        n <= s@.len(),
    ensures
        k == trim_trailing_slashes(s@.subrange(0, n as int)).len(),
{
    let mut k = n;
    proof {
        lemma_trim_is_prefix(s@.subrange(0, n as int));
    }
    while k > 0 && s.get_char(k - 1) == '/'
        invariant
            n <= s@.len(),
            k <= n,
            trim_trailing_slashes(s@.subrange(0, k as int)) == trim_trailing_slashes(s@.subrange(0, n as int)),
        decreases k,
    {
        assert(s@.subrange(0, k as int).drop_last() =~= s@.subrange(0, k - 1));
        k = k - 1;
    }
    let ghost t = s@.subrange(0, k as int);
    assert(trim_trailing_slashes(t) == t);
    k
}

/// Position of the last `/` among the first `n` characters of `s`.
fn last_slash(s: &str, n: usize) -> (r: Option<usize>)
    requires
        n <= s@.len(),
    ensures
        match last_index_of(s@.subrange(0, n as int), '/') {
            Some(k) => r == Some(k as usize),
            None => r is None,
        },
{
    let mut k = n;
    while k > 0
        invariant
            n <= s@.len(),
            k <= n,
            last_index_of(s@.subrange(0, k as int), '/') == last_index_of(s@.subrange(0, n as int), '/'),
        decreases k,
    {
        if s.get_char(k - 1) == '/' {
            return Some(k - 1);
        }
        assert(s@.subrange(0, k as int).drop_last() =~= s@.subrange(0, k - 1));
        k = k - 1;
    }
    None
}

/// The parent directory of `p` (see [`path_parent`]).
pub fn parent(p: &str) -> (r: Option<String>)
    ensures
        match path_parent(p@) {
            Some(q) => r matches Some(s) && s@ == q,
            None => r is None,
        },
{
    let n = p.unicode_len();
    assert(p@.subrange(0, n as int) =~= p@);
    let t = trimmed_len(p, n);
    proof {
        lemma_trim_is_prefix(p@);
    }
    if t == 0 {
        return None;
    }
    let ghost tt = trim_trailing_slashes(p@);
    assert(tt =~= p@.subrange(0, t as int));
    proof {
        lemma_last_index_of(tt, '/');
    }
    match last_slash(p, t) {
        None => Some(String::new()),
        Some(k) => {
            assert(tt.subrange(0, k as int) =~= p@.subrange(0, k as int));
            let h = trimmed_len(p, k);
            if h == 0 {
                let root = "/";
                proof {
                    reveal_strlit("/");
                }
                let r = String::from_str(root);
                assert(r@ =~= seq!['/']);
                Some(r)
            } else {
                proof {
                    lemma_trim_is_prefix(p@.subrange(0, k as int));
                    assert(p@.subrange(0, k as int).subrange(0, h as int) =~= p@.subrange(0, h as int));
                }
                Some(slice(p, 0, h))
            }
        },
    }
}

/// `path` relative to `base` (see [`path_strip_prefix`]).
pub fn strip_prefix(path: &str, base: &str) -> (r: Option<String>)
    ensures
        match path_strip_prefix(path@, base@) {
            Some(q) => r matches Some(s) && s@ == q,
            None => r is None,
        },
{
    let n = path.unicode_len();
    let m = base.unicode_len();
    let same = String::from_str(path) == String::from_str(base);
    if same {
        return Some(String::new());
    }
    if m > 0 && base.get_char(m - 1) == '/' && starts_with(path, base) {
        return Some(slice(path, m, n));
    }
    let sep = "/";
    proof {
        reveal_strlit("/");
    }
    let with_sep = String::from_str(base).concat(sep);
    assert(with_sep@ =~= base@.push('/'));
    if starts_with(path, with_sep.as_str()) {
        Some(slice(path, m + 1, n))
    } else {
        None
    }
}

/// Whether `path` is `base` or lies beneath it.
pub open spec fn path_is_within(path: Seq<char>, base: Seq<char>) -> bool {
    path_strip_prefix(path, base) is Some
}

} // verus!
