//! Paths as the adapters read them: Unix `/`-separated strings, with the component rules of
//! `std::path` written out exactly.

use vstd::prelude::*;
use crate::text::{chars_of, string_of_range};

verus! {

/// `s` without leading empty and `.` components (what `Components` skips at the front of the
/// body of a path).
pub open spec fn trim_left_junk(s: Seq<char>) -> Seq<char>
    decreases s.len(),
{
    if s.len() == 0 {
        s
    } else if s[0] == '/' {
        trim_left_junk(s.drop_first())
    } else if s[0] == '.' && s.len() == 1 {
        Seq::empty()
    } else if s[0] == '.' && s[1] == '/' {
        trim_left_junk(s.subrange(2, s.len() as int))
    } else {
        s
    }
}

/// `s` without trailing empty and `.` components (what `Components` skips at the back).
pub open spec fn trim_right_junk(s: Seq<char>) -> Seq<char>
    decreases s.len(),
{
    if s.len() == 0 {
        s
    } else if s.last() == '/' {
        trim_right_junk(s.drop_last())
    } else if s.len() == 1 && s[0] == '.' {
        Seq::empty()
    } else if s.last() == '.' && s[s.len() - 2] == '/' {
        trim_right_junk(s.subrange(0, s.len() - 2))
    } else {
        s
    }
}

/// The object key of a path: an absolute path loses its root and the empty and `.`
/// components at both ends (`path.strip_prefix("/")`); a relative path is kept as it is.
pub open spec fn key_of(p: Seq<char>) -> Seq<char> {
    if p.len() > 0 && p[0] == '/' {
        trim_right_junk(trim_left_junk(p.drop_first()))
    } else {
        p
    }
}

/// Whether the path names the root (`Path::new("/")`) or nothing at all.
pub open spec fn is_root_or_empty(p: Seq<char>) -> bool {
    p.len() == 0 || (p[0] == '/' && key_of(p).len() == 0)
}

/// The part of `s` after its last `/` (all of `s` when it has none).
pub open spec fn after_last_sep(s: Seq<char>) -> Seq<char>
    decreases s.len(),
{
    if s.len() == 0 {
        s
    } else if s.last() == '/' {
        Seq::empty()
    } else {
        after_last_sep(s.drop_last()).push(s.last())
    }
}

/// The final component of a path, when it is a name (`Path::file_name`).
pub open spec fn file_name_of(p: Seq<char>) -> Option<Seq<char>> {
    let name = after_last_sep(trim_right_junk(p));
    if name.len() == 0 || name == seq!['.', '.'] {
        None
    } else {
        Some(name)
    }
}

/// `base` joined with the single component `child` (`PathBuf::join`), where the root and the
/// empty path both become `/child`.
pub open spec fn child_path(base: Seq<char>, child: Seq<char>) -> Seq<char> {
    if is_root_or_empty(base) {
        seq!['/'] + child
    } else if base.last() == '/' {
        base + child
    } else {
        base + seq!['/'] + child
    }
}

proof fn lemma_trim_right_of_key_keeps_front(s: Seq<char>)
    ensures
        trim_right_junk(s).len() <= s.len(),
        trim_right_junk(s) == s.subrange(0, trim_right_junk(s).len() as int),
    decreases s.len(),
{
    if s.len() == 0 {
        assert(s.subrange(0, 0) =~= s);
    } else if s.last() == '/' {
        lemma_trim_right_of_key_keeps_front(s.drop_last());
        assert(s.drop_last().subrange(0, trim_right_junk(s).len() as int) =~= s.subrange(
            0,
            trim_right_junk(s).len() as int,
        ));
    } else if s.len() == 1 && s[0] == '.' {
        assert(s.subrange(0, 0) =~= Seq::<char>::empty());
    } else if s.last() == '.' && s[s.len() - 2] == '/' {
        let t = s.subrange(0, s.len() - 2);
        lemma_trim_right_of_key_keeps_front(t);
        assert(t.subrange(0, trim_right_junk(s).len() as int) =~= s.subrange(
            0,
            trim_right_junk(s).len() as int,
        ));
    } else {
        assert(s.subrange(0, s.len() as int) =~= s);
    }
}

proof fn lemma_trim_left_no_root(s: Seq<char>)
    ensures
        trim_left_junk(s).len() > 0 ==> trim_left_junk(s)[0] != '/',
    decreases s.len(),
{
    if s.len() == 0 {
    } else if s[0] == '/' {
        lemma_trim_left_no_root(s.drop_first());
    } else if s[0] == '.' && s.len() == 1 {
    } else if s[0] == '.' && s[1] == '/' {
        lemma_trim_left_no_root(s.subrange(2, s.len() as int));
    } else {
    }
}

/// A key is its own key: converting a path to a key twice changes nothing more.
pub proof fn lemma_key_idempotent(p: Seq<char>)
    ensures
        key_of(key_of(p)) == key_of(p),
{
    if p.len() > 0 && p[0] == '/' {
        let l = trim_left_junk(p.drop_first());
        lemma_trim_left_no_root(p.drop_first());
        lemma_trim_right_of_key_keeps_front(l);
        let k = trim_right_junk(l);
        if k.len() > 0 {
            assert(k[0] == l[0]);
        }
    }
}

/// The object key of a path (see `key_of`).
pub fn to_key(path: &str) -> (key: String)
    ensures
        key@ == key_of(path@),
{
    let v = chars_of(path);
    if v.len() == 0 || v[0] != '/' {
        return string_of_range(v.as_slice(), 0, v.len());
    }
    let (i, j) = body_bounds(v.as_slice(), 1);
    proof {
        assert(v@.subrange(1, v@.len() as int) =~= v@.drop_first());
    }
    string_of_range(v.as_slice(), i, j)
}

/// The bounds of `v[lo..]` once the empty and `.` components at both ends are dropped.
fn body_bounds(v: &[char], lo: usize) -> (r: (usize, usize))
    requires
        lo <= v.len(),
    ensures
        lo <= r.0 <= r.1 <= v.len(),
        trim_right_junk(trim_left_junk(v@.subrange(lo as int, v.len() as int))) == v@.subrange(
            r.0 as int,
            r.1 as int,
        ),
{
    let n = v.len();
    let ghost t = v@.subrange(lo as int, n as int);
    let mut i: usize = lo;
    loop
        invariant
            lo <= i <= n,
            n == v.len(),
            t == v@.subrange(lo as int, n as int),
            trim_left_junk(t) == trim_left_junk(v@.subrange(i as int, n as int)),
        ensures
            lo <= i <= n,
            trim_left_junk(t) == v@.subrange(i as int, n as int),
        decreases n - i,
    {
        let ghost x = v@.subrange(i as int, n as int);
        if i < n && v[i] == '/' {
            assert(x.drop_first() =~= v@.subrange(i + 1, n as int));
            i = i + 1;
        } else if i < n && n - i == 1 && v[i] == '.' {
            assert(v@.subrange(n as int, n as int) =~= Seq::<char>::empty());
            i = n;
        } else if i < n && n - i >= 2 && v[i] == '.' && v[i + 1] == '/' {
            assert(x.subrange(2, x.len() as int) =~= v@.subrange(i + 2, n as int));
            i = i + 2;
        } else {
            break;
        }
    }
    let ghost u = v@.subrange(i as int, n as int);
    let mut j: usize = n;
    loop
        invariant
            i <= j <= n,
            n == v.len(),
            u == v@.subrange(i as int, n as int),
            trim_right_junk(u) == trim_right_junk(v@.subrange(i as int, j as int)),
        ensures
            i <= j <= n,
            trim_right_junk(u) == v@.subrange(i as int, j as int),
        decreases j,
    {
        let ghost x = v@.subrange(i as int, j as int);
        if j > i && v[j - 1] == '/' {
            assert(x.drop_last() =~= v@.subrange(i as int, j - 1));
            j = j - 1;
        } else if j - i == 1 && v[i] == '.' {
            assert(v@.subrange(i as int, i as int) =~= Seq::<char>::empty());
            j = i;
        } else if j - i >= 2 && v[j - 1] == '.' && v[j - 2] == '/' {
            assert(x.subrange(0, x.len() - 2) =~= v@.subrange(i as int, j - 2));
            j = j - 2;
        } else {
            break;
        }
    }
    (i, j)
}

/// Whether the path names the root or nothing at all.
pub fn root_or_empty(p: &str) -> (r: bool)
    ensures
        r == is_root_or_empty(p@),
{
    let v = chars_of(p);
    if v.len() == 0 {
        return true;
    }
    if v[0] != '/' {
        return false;
    }
    let (i, j) = body_bounds(v.as_slice(), 1);
    proof {
        assert(v@.subrange(1, v@.len() as int) =~= v@.drop_first());
    }
    i == j
}

/// The final component of a path, when it is a name (`Path::file_name`).
pub fn file_name(path: &str) -> (r: Option<String>)
    ensures
        match r {
            Some(n) => file_name_of(path@) == Some(n@),
            None => file_name_of(path@) is None,
        },
{
    let v = chars_of(path);
    let n = v.len();
    let mut j: usize = n;
    assert(v@.subrange(0, n as int) =~= v@);
    loop
        invariant
            j <= n,
            n == v.len(),
            trim_right_junk(v@) == trim_right_junk(v@.subrange(0, j as int)),
        ensures
            j <= n,
            trim_right_junk(v@) == v@.subrange(0, j as int),
        decreases j,
    {
        let ghost x = v@.subrange(0, j as int);
        if j > 0 && v[j - 1] == '/' {
            assert(x.drop_last() =~= v@.subrange(0, j - 1));
            j = j - 1;
        } else if j == 1 && v[0] == '.' {
            assert(v@.subrange(0, 0) =~= Seq::<char>::empty());
            j = 0;
        } else if j >= 2 && v[j - 1] == '.' && v[j - 2] == '/' {
            assert(x.subrange(0, x.len() - 2) =~= v@.subrange(0, j - 2));
            j = j - 2;
        } else {
            proof {
                if j == n {
                    assert(v@.subrange(0, n as int) =~= v@);
                }
            }
            break;
        }
    }
    let mut k: usize = j;
    while k > 0 && v[k - 1] != '/'
        invariant
            k <= j <= n,
            n == v.len(),
            after_last_sep(v@.subrange(0, j as int)) == after_last_sep(v@.subrange(0, k as int))
                + v@.subrange(k as int, j as int),
        decreases k,
    {
        let ghost a = v@.subrange(0, k as int);
        assert(a.drop_last() =~= v@.subrange(0, k - 1));
        assert(v@.subrange(k - 1, j as int) =~= seq![a.last()] + v@.subrange(k as int, j as int));
        assert(after_last_sep(a) == after_last_sep(a.drop_last()).push(a.last()));
        assert(after_last_sep(a.drop_last()).push(a.last()) + v@.subrange(k as int, j as int)
            =~= after_last_sep(a.drop_last()) + v@.subrange(k - 1, j as int));
        k = k - 1;
    }
    proof {
        let a = v@.subrange(0, k as int);
        if k > 0 {
            assert(a.last() == '/');
        }
        assert(after_last_sep(a) =~= Seq::<char>::empty());
        assert(Seq::<char>::empty() + v@.subrange(k as int, j as int) =~= v@.subrange(
            k as int,
            j as int,
        ));
    }
    if k == j || (j - k == 2 && v[k] == '.' && v[k + 1] == '.') {
        proof {
            if k != j {
                assert(v@.subrange(k as int, j as int) =~= seq!['.', '.']);
            }
        }
        None
    } else {
        let name = string_of_range(v.as_slice(), k, j);
        proof {
            if name@ == seq!['.', '.'] {
                assert(name@[0] == v@[k as int]);
                assert(name@[1] == v@[k + 1]);
            }
        }
        Some(name)
    }
}

/// `base` joined with the single component `child` (see `child_path`).
pub fn join_child(base: &str, child: &str) -> (r: String)
    ensures
        r@ == child_path(base@, child@),
{
    let v = chars_of(base);
    if root_or_empty(base) {
        let s = String::from_str("/");
        proof {
            reveal_strlit("/");
        }
        return s.concat(child);
    }
    let s = string_of_range(v.as_slice(), 0, v.len());
    proof {
        assert(v@.subrange(0, v@.len() as int) =~= v@);
    }
    if v[v.len() - 1] == '/' {
        s.concat(child)
    } else {
        proof {
            reveal_strlit("/");
        }
        let s2 = s.concat("/");
        s2.concat(child)
    }
}

/// `base` joined with the relative or absolute path `rel` (`Path::join` on Unix): an absolute
/// `rel` replaces `base`, an empty `base` gives `rel`, and one separator goes between.
pub open spec fn joined(base: Seq<char>, rel: Seq<char>) -> Seq<char> {
    if rel.len() > 0 && rel[0] == '/' {
        rel
    } else if base.len() == 0 {
        rel
    } else if base.last() == '/' {
        base + rel
    } else {
        base + seq!['/'] + rel
    }
}

/// `base` joined with `rel` (see `joined`).
pub fn join_path(base: &str, rel: &str) -> (r: String)
    ensures
        r@ == joined(base@, rel@),
{
    let v = chars_of(base);
    let w = chars_of(rel);
    if w.len() > 0 && w[0] == '/' {
        return string_of_range(w.as_slice(), 0, w.len());
    }
    if v.len() == 0 {
        return string_of_range(w.as_slice(), 0, w.len());
    }
    let s = string_of_range(v.as_slice(), 0, v.len());
    proof {
        assert(v@.subrange(0, v@.len() as int) =~= v@);
        assert(w@.subrange(0, w@.len() as int) =~= w@);
        reveal_strlit("/");
        assert("/"@ =~= seq!['/']);
    }
    if v[v.len() - 1] == '/' {
        s.concat(rel)
    } else {
        s.concat("/").concat(rel)
    }
}

} // verus!
