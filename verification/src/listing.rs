//! Ordering and paging of directory listings: directories first, then names (compared
//! case-insensitively for object stores, as they are for local folders), with ties kept in the
//! order the store returned them.

use vstd::prelude::*;
use crate::domain::VirtualFile;
use crate::order::{lex_le, lex_le_chars, lemma_lex_total, lemma_lex_transitive, lemma_lex_reflexive};
use crate::text::{chars_of, lowercase, to_lowercase};

verus! {

/// The name a file is ordered by: lower-cased when `fold` is set, else as it is.
pub open spec fn name_key(f: VirtualFile, fold: bool) -> Seq<char> {
    if fold {
        lowercase(f.name@)
    } else {
        f.name@
    }
}

/// `a` may stand before `b`: a directory before a file, else the names in order.
pub open spec fn file_le(a: VirtualFile, b: VirtualFile, fold: bool) -> bool {
    ||| (a.is_directory && !b.is_directory)
    ||| (a.is_directory == b.is_directory && lex_le(name_key(a, fold), name_key(b, fold)))
}

/// Where `x` goes into `s` so that it follows every element that may stand before it, counted
/// from the end of `s`.
pub open spec fn insert_pos(s: Seq<VirtualFile>, x: VirtualFile, fold: bool) -> int
    decreases s.len(),
{
    if s.len() == 0 {
        0
    } else if file_le(s.last(), x, fold) {
        s.len() as int
    } else {
        insert_pos(s.drop_last(), x, fold)
    }
}

/// `s` with `x` put in its place.
pub open spec fn insert_ranked(s: Seq<VirtualFile>, x: VirtualFile, fold: bool) -> Seq<VirtualFile> {
    s.insert(insert_pos(s, x, fold), x)
}

/// The stable sort of `s` by `file_le` (the order `sort_by` gives with this comparator).
pub open spec fn rank_sort(s: Seq<VirtualFile>, fold: bool) -> Seq<VirtualFile>
    decreases s.len(),
{
    if s.len() == 0 {
        s
    } else {
        insert_ranked(rank_sort(s.drop_last(), fold), s.last(), fold)
    }
}

/// Every element may stand before every later one.
pub open spec fn ranked(s: Seq<VirtualFile>, fold: bool) -> bool {
    forall|i: int, j: int| 0 <= i < j < s.len() ==> file_le(#[trigger] s[i], #[trigger] s[j], fold)
}

proof fn lemma_file_le_total(a: VirtualFile, b: VirtualFile, fold: bool)
    ensures
        file_le(a, b, fold) || file_le(b, a, fold),
{
    lemma_lex_total(name_key(a, fold), name_key(b, fold));
}

proof fn lemma_file_le_transitive(a: VirtualFile, b: VirtualFile, c: VirtualFile, fold: bool)
    requires
        file_le(a, b, fold),
        file_le(b, c, fold),
    ensures
        file_le(a, c, fold),
{
    if a.is_directory == b.is_directory && b.is_directory == c.is_directory {
        lemma_lex_transitive(name_key(a, fold), name_key(b, fold), name_key(c, fold));
    }
}

proof fn lemma_insert_pos_bounds(s: Seq<VirtualFile>, x: VirtualFile, fold: bool)
    ensures
        0 <= insert_pos(s, x, fold) <= s.len(),
        forall|m: int| insert_pos(s, x, fold) <= m < s.len() ==> !file_le(#[trigger] s[m], x, fold),
        insert_pos(s, x, fold) > 0 ==> file_le(s[insert_pos(s, x, fold) - 1], x, fold),
    decreases s.len(),
{
    if s.len() > 0 && !file_le(s.last(), x, fold) {
        let t = s.drop_last();
        lemma_insert_pos_bounds(t, x, fold);
        assert forall|m: int| insert_pos(s, x, fold) <= m < s.len() implies !file_le(#[trigger] s[m], x, fold) by {
            if m < t.len() {
                assert(s[m] == t[m]);
            }
        }
        if insert_pos(s, x, fold) > 0 {
            assert(s[insert_pos(s, x, fold) - 1] == t[insert_pos(s, x, fold) - 1]);
        }
    }
}

proof fn lemma_insert_keeps_ranked(s: Seq<VirtualFile>, x: VirtualFile, fold: bool)
    requires
        ranked(s, fold),
    ensures
        ranked(insert_ranked(s, x, fold), fold),
{
    lemma_insert_pos_bounds(s, x, fold);
    let k = insert_pos(s, x, fold);
    let r = insert_ranked(s, x, fold);
    assert forall|i: int, j: int| 0 <= i < j < r.len() implies file_le(
        #[trigger] r[i],
        #[trigger] r[j],
        fold,
    ) by {
        if j < k {
            assert(r[i] == s[i] && r[j] == s[j]);
        } else if j == k {
            assert(r[j] == x);
            assert(r[i] == s[i]);
            if i < k - 1 {
                assert(file_le(s[i], s[k - 1], fold));
                lemma_file_le_transitive(s[i], s[k - 1], x, fold);
            }
        } else if i == k {
            assert(r[i] == x && r[j] == s[j - 1]);
            lemma_file_le_total(s[j - 1], x, fold);
        } else if i < k {
            assert(r[i] == s[i] && r[j] == s[j - 1]);
        } else {
            assert(r[i] == s[i - 1] && r[j] == s[j - 1]);
        }
    }
}

/// The sorted listing is ordered: directories first, then names in order.
pub proof fn lemma_rank_sort_ranked(s: Seq<VirtualFile>, fold: bool)
    ensures
        ranked(rank_sort(s, fold), fold),
    decreases s.len(),
{
    if s.len() > 0 {
        lemma_rank_sort_ranked(s.drop_last(), fold);
        lemma_insert_keeps_ranked(rank_sort(s.drop_last(), fold), s.last(), fold);
    }
}

/// The sorted listing holds exactly the files it was given.
pub proof fn lemma_rank_sort_permutes(s: Seq<VirtualFile>, fold: bool)
    ensures
        rank_sort(s, fold).to_multiset() == s.to_multiset(),
        rank_sort(s, fold).len() == s.len(),
    decreases s.len(),
{
    broadcast use vstd::seq_lib::group_to_multiset_ensures;

    if s.len() > 0 {
        let t = rank_sort(s.drop_last(), fold);
        lemma_rank_sort_permutes(s.drop_last(), fold);
        lemma_insert_pos_bounds(t, s.last(), fold);
        let k = insert_pos(t, s.last(), fold);
        vstd::seq_lib::lemma_seq_union_to_multiset_commutative(t.subrange(0, k), t.subrange(k, t.len() as int));
        assert(t.insert(k, s.last()) =~= t.subrange(0, k).push(s.last()) + t.subrange(k, t.len() as int));
        vstd::seq_lib::lemma_multiset_commutative(t.subrange(0, k).push(s.last()), t.subrange(k, t.len() as int));
        vstd::seq_lib::lemma_multiset_commutative(t.subrange(0, k), t.subrange(k, t.len() as int));
        assert(t =~= t.subrange(0, k) + t.subrange(k, t.len() as int));
        assert(s =~= s.drop_last().push(s.last()));
    }
}

/// Sorting an ordered listing changes nothing.
pub proof fn lemma_rank_sort_of_ranked(s: Seq<VirtualFile>, fold: bool)
    requires
        ranked(s, fold),
    ensures
        rank_sort(s, fold) == s,
    decreases s.len(),
{
    if s.len() > 0 {
        let t = s.drop_last();
        assert(ranked(t, fold)) by {
            assert forall|i: int, j: int| 0 <= i < j < t.len() implies file_le(
                #[trigger] t[i],
                #[trigger] t[j],
                fold,
            ) by {
                assert(t[i] == s[i] && t[j] == s[j]);
            }
        }
        lemma_rank_sort_of_ranked(t, fold);
        if t.len() > 0 {
            assert(file_le(s[t.len() - 1], s[t.len() as int], fold));
            assert(t.last() == s[t.len() - 1]);
        }
        assert(insert_pos(t, s.last(), fold) == t.len());
        assert(t.insert(t.len() as int, s.last()) =~= s);
    }
}

/// Whether `a` may stand before `b`, given the names they are ordered by.
fn rank_le(a: &VirtualFile, ka: &Vec<char>, b: &VirtualFile, kb: &Vec<char>, fold: bool) -> (r: bool)
    requires
        ka@ == name_key(*a, fold),
        kb@ == name_key(*b, fold),
    ensures
        r == file_le(*a, *b, fold),
{
    if a.is_directory && !b.is_directory {
        true
    } else if a.is_directory == b.is_directory {
        lex_le_chars(ka.as_slice(), kb.as_slice())
    } else {
        false
    }
}

fn key_of_name(f: &VirtualFile, fold: bool) -> (k: Vec<char>)
    ensures
        k@ == name_key(*f, fold),
{
    if fold {
        let lower = to_lowercase(f.name.as_str());
        chars_of(lower.as_str())
    } else {
        chars_of(f.name.as_str())
    }
}

/// Sorts a listing: directories first, then by name (lower-cased when `fold` is set), ties in
/// their given order.
pub fn sort_files(files: Vec<VirtualFile>, fold: bool) -> (r: Vec<VirtualFile>)
    ensures
        r@ == rank_sort(files@, fold),
{
    let ghost orig = files@;
    let n = files.len();
    let mut rest = files;
    let mut out: Vec<VirtualFile> = Vec::new();
    let mut keys: Vec<Vec<char>> = Vec::new();
    let mut i: usize = 0;
    while rest.len() > 0
        invariant
            i + rest@.len() == orig.len(),
            orig.len() == n,
            rest@ == orig.subrange(i as int, orig.len() as int),
            out@ == rank_sort(orig.subrange(0, i as int), fold),
            keys@.len() == out@.len(),
            forall|m: int| 0 <= m < out@.len() ==> (#[trigger] keys@[m])@ == name_key(out@[m], fold),
        decreases rest@.len(),
    {
        let f = rest.remove(0);
        let key = key_of_name(&f, fold);
        let mut j: usize = out.len();
        assert(out@.subrange(0, out@.len() as int) =~= out@);
        while j > 0 && !rank_le(&out[j - 1], &keys[j - 1], &f, &key, fold)
            invariant
                j <= out@.len(),
                keys@.len() == out@.len(),
                forall|m: int| 0 <= m < out@.len() ==> (#[trigger] keys@[m])@ == name_key(out@[m], fold),
                key@ == name_key(f, fold),
                insert_pos(out@, f, fold) == insert_pos(out@.subrange(0, j as int), f, fold),
            decreases j,
        {
            assert(out@.subrange(0, j as int).drop_last() =~= out@.subrange(0, j - 1));
            j = j - 1;
        }
        proof {
            let p = out@.subrange(0, j as int);
            if j > 0 {
                assert(p.last() == out@[j - 1]);
            }
            assert(out@.subrange(0, out@.len() as int) =~= out@);
            assert(orig.subrange(0, i + 1).drop_last() =~= orig.subrange(0, i as int));
            assert(orig.subrange(0, i + 1).last() == f);
        }
        out.insert(j, f);
        keys.insert(j, key);
        i = i + 1;
        proof {
            assert(rest@ =~= orig.subrange(i as int, orig.len() as int));
        }
    }
    proof {
        assert(orig.subrange(0, i as int) =~= orig);
    }
    out
}

/// Sorts an object store's listing: directories first, then by lower-cased name, ties in
/// their given order.
pub fn sort_listing(files: Vec<VirtualFile>) -> (r: Vec<VirtualFile>)
    ensures
        r@ == rank_sort(files@, true),
{
    sort_files(files, true)
}

/// Sorts a local folder's listing: directories first, then by name as it is, ties in their
/// given order.
pub fn sort_local_listing(files: Vec<VirtualFile>) -> (r: Vec<VirtualFile>)
    ensures
        r@ == rank_sort(files@, false),
{
    sort_files(files, false)
}

/// The index of the first file whose path is `t`, if any.
pub open spec fn index_of_path(s: Seq<VirtualFile>, t: Seq<char>) -> Option<int>
    decreases s.len(),
{
    if s.len() == 0 {
        None
    } else if s[0].path@ == t {
        Some(0)
    } else {
        match index_of_path(s.drop_first(), t) {
            Some(k) => Some(k + 1),
            None => None,
        }
    }
}

/// Where a page starts: just past the file named by the continuation token, or at the start
/// when there is no token or no such file.
pub open spec fn page_start(s: Seq<VirtualFile>, token: Option<Seq<char>>) -> int {
    match token {
        Some(t) => match index_of_path(s, t) {
            Some(k) => k + 1,
            None => 0,
        },
        None => 0,
    }
}

/// The characters of an optional token.
pub open spec fn token_view(token: Option<&str>) -> Option<Seq<char>> {
    match token {
        Some(t) => Some(t@),
        None => None,
    }
}

/// The page size asked for, fifty when none is given.
pub open spec fn page_limit(limit: Option<u64>) -> int {
    match limit {
        Some(l) => l as int,
        None => 50,
    }
}

proof fn lemma_index_of_path(s: Seq<VirtualFile>, t: Seq<char>)
    ensures
        match index_of_path(s, t) {
            Some(k) => 0 <= k < s.len() && s[k].path@ == t && forall|j: int|
                0 <= j < k ==> (#[trigger] s[j]).path@ != t,
            None => forall|j: int| 0 <= j < s.len() ==> (#[trigger] s[j]).path@ != t,
        },
    decreases s.len(),
{
    if s.len() > 0 {
        let u = s.drop_first();
        lemma_index_of_path(u, t);
        assert forall|j: int| 1 <= j < s.len() implies (#[trigger] s[j]).path@ == u[j - 1].path@ by {
        }
    }
}

/// The index of the first file whose path is `t`, if any.
fn find_path(files: &Vec<VirtualFile>, t: &str) -> (r: Option<usize>)
    ensures
        r matches Some(k) ==> k < files@.len() && index_of_path(files@, t@) == Some(k as int),
        r is None ==> index_of_path(files@, t@) is None,
{
    let mut i: usize = 0;
    while i < files.len()
        invariant
            i <= files@.len(),
            forall|j: int| 0 <= j < i ==> (#[trigger] files@[j]).path@ != t@,
        decreases files.len() - i,
    {
        if crate::text::same_text(files[i].path.as_str(), t) {
            proof {
                lemma_index_of_path(files@, t@);
                match index_of_path(files@, t@) {
                    Some(k) => {
                        if k < i {
                            assert(files@[k].path@ != t@);
                        } else if k > i {
                            assert(files@[i as int].path@ != t@);
                        }
                    },
                    None => {
                        assert(files@[i as int].path@ != t@);
                    },
                }
            }
            return Some(i);
        }
        i = i + 1;
    }
    proof {
        lemma_index_of_path(files@, t@);
        match index_of_path(files@, t@) {
            Some(k) => {
                assert(files@[k].path@ != t@);
            },
            None => {},
        }
    }
    None
}

/// The page of the listing `s` that a token asks for, `l` files long at most, and the token
/// of the next page: the path of the page's last file, when files remain after it.
pub open spec fn page_at(s: Seq<VirtualFile>, l: int, token: Option<Seq<char>>) -> (Seq<VirtualFile>, Option<Seq<char>>) {
    let start = page_start(s, token);
    let end = if start + l < s.len() { start + l } else { s.len() as int };
    (
        s.subrange(start, end),
        if start + l < s.len() && end > start { Some(s[end - 1].path@) } else { None },
    )
}

/// The pages read by following the tokens from `token`, at most `fuel` more after the
/// first, one after the other.
pub open spec fn pages_followed(s: Seq<VirtualFile>, l: int, token: Option<Seq<char>>, fuel: nat) -> Seq<VirtualFile>
    decreases fuel,
{
    let (page, next) = page_at(s, l, token);
    if fuel == 0 {
        page
    } else {
        match next {
            Some(t) => page + pages_followed(s, l, Some(t), (fuel - 1) as nat),
            None => page,
        }
    }
}

/// Whether no two files of `s` have the same path.
pub open spec fn distinct_paths(s: Seq<VirtualFile>) -> bool {
    forall|i: int, j: int| 0 <= i < j < s.len() ==> (#[trigger] s[i]).path@ != (#[trigger] s[j]).path@
}

proof fn lemma_token_finds(s: Seq<VirtualFile>, k: int)
    requires
        distinct_paths(s),
        0 <= k < s.len(),
    ensures
        page_start(s, Some(s[k].path@)) == k + 1,
{
    lemma_index_of_path(s, s[k].path@);
    match index_of_path(s, s[k].path@) {
        Some(j) => {
            if j < k {
                assert(s[j].path@ != s[k].path@);
            } else if j > k {
                assert(s[k].path@ != s[j].path@);
            }
        },
        None => {
            assert(s[k].path@ != s[k].path@);
        },
    }
}

proof fn lemma_pages_from(s: Seq<VirtualFile>, l: int, k: int, fuel: nat)
    requires
        distinct_paths(s),
        l >= 1,
        0 <= k <= s.len(),
        k + l * (fuel + 1) >= s.len(),
    ensures
        pages_followed(s, l, if k == 0 { None } else { Some(s[k - 1].path@) }, fuel) == s.subrange(k, s.len() as int),
    decreases fuel,
{
    let token = if k == 0 { None } else { Some(s[k - 1].path@) };
    if k > 0 {
        lemma_token_finds(s, k - 1);
    }
    assert(page_start(s, token) == k);
    let end = if k + l < s.len() { k + l } else { s.len() as int };
    let (page, next) = page_at(s, l, token);
    assert(page == s.subrange(k, end));
    if fuel == 0 {
        assert(end == s.len()) by (nonlinear_arith)
            requires
                k + l * (fuel + 1) >= s.len(),
                fuel == 0,
                end == (if k + l < s.len() { k + l } else { s.len() as int }),
        ;
    } else {
        if k + l < s.len() {
            assert(next == Some(s[end - 1].path@));
            assert(k + l + l * fuel >= s.len()) by (nonlinear_arith)
                requires
                    k + l * (fuel + 1) >= s.len(),
            ;
            lemma_pages_from(s, l, end, (fuel - 1) as nat);
            assert(s.subrange(k, end) + s.subrange(end, s.len() as int) =~= s.subrange(k, s.len() as int));
        } else {
            assert(next is None);
        }
    }
}

/// Following the continuation tokens from the first page reads a listing whose paths are
/// distinct exactly once, in order: the pages, each at most `l` files long, concatenate to the
/// whole listing.
pub proof fn lemma_pages_concatenate(s: Seq<VirtualFile>, l: int)
    requires
        distinct_paths(s),
        l >= 1,
    ensures
        pages_followed(s, l, None, s.len()) == s,
        forall|t: Option<Seq<char>>| #[trigger] page_at(s, l, t).0.len() <= l,
{
    assert(0 + l * (s.len() + 1) >= s.len()) by (nonlinear_arith)
        requires
            l >= 1,
    ;
    lemma_pages_from(s, l, 0, s.len());
    assert(s.subrange(0, s.len() as int) =~= s);
    assert forall|t: Option<Seq<char>>| #[trigger] page_at(s, l, t).0.len() <= l by {
        match t {
            Some(tt) => {
                lemma_index_of_path(s, tt);
            },
            None => {},
        }
    }
}

/// A listing holding files of distinct paths sorts into one whose paths are distinct.
pub proof fn lemma_sorted_paths_distinct(files: Seq<VirtualFile>, fold: bool)
    requires
        distinct_paths(files),
    ensures
        distinct_paths(rank_sort(files, fold)),
{
    broadcast use vstd::seq_lib::group_to_multiset_ensures;

    let b = rank_sort(files, fold);
    lemma_rank_sort_permutes(files, fold);
    assert(files.no_duplicates()) by {
        assert forall|i: int, j: int| 0 <= i < files.len() && 0 <= j < files.len() && i != j implies files[i] != files[j] by {
            if i < j {
                assert(files[i].path@ != files[j].path@);
            } else {
                assert(files[j].path@ != files[i].path@);
            }
        }
    }
    files.lemma_multiset_has_no_duplicates();
    b.lemma_multiset_has_no_duplicates_conv();
    assert forall|i: int, j: int| 0 <= i < j < b.len() implies (#[trigger] b[i]).path@ != (#[trigger] b[j]).path@ by {
        if b[i].path@ == b[j].path@ {
            assert(b[i] != b[j]);
            assert(b.contains(b[i]));
            assert(b.contains(b[j]));
            assert(files.to_multiset().count(b[i]) > 0);
            assert(files.to_multiset().count(b[j]) > 0);
            assert(files.contains(b[i]));
            assert(files.contains(b[j]));
            let x = choose|x: int| 0 <= x < files.len() && files[x] == b[i];
            let y = choose|y: int| 0 <= y < files.len() && files[y] == b[j];
            if x < y {
                assert(files[x].path@ != files[y].path@);
            } else {
                assert(files[y].path@ != files[x].path@);
            }
        }
    }
}

/// One page of a sorted listing and the token that asks for the next one.
pub fn paginate(files: Vec<VirtualFile>, limit: Option<u64>, token: Option<&str>) -> (r: (
    Vec<VirtualFile>,
    Option<String>,
))
    ensures
        ({
            let sorted = rank_sort(files@, true);
            let start = page_start(sorted, token_view(token));
            let end = if start + page_limit(limit) < sorted.len() {
                start + page_limit(limit)
            } else {
                sorted.len() as int
            };
            &&& r.0@ == sorted.subrange(start, end)
            &&& (r.1 is Some <==> (start + page_limit(limit) < sorted.len() && r.0@.len() > 0))
            &&& (r.1 matches Some(t) ==> t@ == r.0@.last().path@)
        }),
        r.0@ == page_at(rank_sort(files@, true), page_limit(limit), token_view(token)).0,
        match r.1 {
            Some(t) => page_at(rank_sort(files@, true), page_limit(limit), token_view(token)).1 == Some(t@),
            None => page_at(rank_sort(files@, true), page_limit(limit), token_view(token)).1 is None,
        },
{
    let mut sorted = sort_listing(files);
    let ghost all = sorted@;
    let total = sorted.len();
    let start: usize = match token {
        Some(t) => match find_path(&sorted, t) {
            Some(k) => k + 1,
            None => 0,
        },
        None => 0,
    };
    let lim: u64 = match limit {
        Some(l) => l,
        None => 50,
    };
    let mut page = sorted.split_off(start);
    if (lim as u128) < (page.len() as u128) {
        page.truncate(lim as usize);
    }
    let more = (start as u128) + (lim as u128) < (total as u128);
    let next = if more && page.len() > 0 {
        Some(page[page.len() - 1].path.clone())
    } else {
        None
    };
    proof {
        assert(page@ =~= all.subrange(
            start as int,
            if start + lim < all.len() { start + lim } else { all.len() as int },
        ));
    }
    (page, next)
}

} // verus!
