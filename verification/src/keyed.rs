//! Lists of records found by a text key: the last record with a key is the one found, and a
//! well-kept list has one record per key.

use vstd::prelude::*;

verus! {

/// The last record of `s` whose key is `id`.
pub open spec fn find_keyed<T>(s: Seq<T>, key: spec_fn(T) -> Seq<char>, id: Seq<char>) -> Option<T>
    decreases s.len(),
{
    if s.len() == 0 {
        None
    } else if key(s.last()) == id {
        Some(s.last())
    } else {
        find_keyed(s.drop_last(), key, id)
    }
}

/// Whether no two records of `s` have the same key.
pub open spec fn keys_unique<T>(s: Seq<T>, key: spec_fn(T) -> Seq<char>) -> bool {
    forall|i: int, j: int| 0 <= i < j < s.len() ==> key(#[trigger] s[i]) != key(#[trigger] s[j])
}

/// What `find_keyed` gives: the last record with the key, or none where no record has it.
pub proof fn lemma_find_index<T>(s: Seq<T>, key: spec_fn(T) -> Seq<char>, id: Seq<char>)
    ensures
        match find_keyed(s, key, id) {
            Some(m) => exists|i: int|
                0 <= i < s.len() && s[i] == m && key(m) == id && forall|j: int|
                    i < j < s.len() ==> key(#[trigger] s[j]) != id,
            None => forall|j: int| 0 <= j < s.len() ==> key(#[trigger] s[j]) != id,
        },
    decreases s.len(),
{
    if s.len() > 0 && key(s.last()) != id {
        let t = s.drop_last();
        lemma_find_index(t, key, id);
        match find_keyed(t, key, id) {
            Some(m) => {
                let i = choose|i: int|
                    0 <= i < t.len() && t[i] == m && key(m) == id && forall|j: int|
                        i < j < t.len() ==> key(#[trigger] t[j]) != id;
                assert(s[i] == m);
                assert forall|j: int| i < j < s.len() implies key(#[trigger] s[j]) != id by {
                    if j < t.len() {
                        assert(s[j] == t[j]);
                    }
                }
            },
            None => {
                assert forall|j: int| 0 <= j < s.len() implies key(#[trigger] s[j]) != id by {
                    if j < t.len() {
                        assert(s[j] == t[j]);
                    }
                }
            },
        }
    } else if s.len() > 0 {
        assert(s[s.len() - 1] == s.last());
    }
}

/// In a list with one record per key, each record is the one found by its key.
pub proof fn lemma_find_at<T>(s: Seq<T>, key: spec_fn(T) -> Seq<char>, i: int)
    requires
        keys_unique(s, key),
        0 <= i < s.len(),
    ensures
        find_keyed(s, key, key(s[i])) == Some(s[i]),
{
    lemma_find_index(s, key, key(s[i]));
    match find_keyed(s, key, key(s[i])) {
        Some(m) => {
            let k = choose|k: int|
                0 <= k < s.len() && s[k] == m && key(m) == key(s[i]) && forall|j: int|
                    k < j < s.len() ==> key(#[trigger] s[j]) != key(s[i]);
            if k < i {
            } else if k > i {
            }
        },
        None => {
            assert(key(s[i]) != key(s[i]));
        },
    }
}

proof fn lemma_remove_keeps_unique<T>(before: Seq<T>, key: spec_fn(T) -> Seq<char>, i: int)
    requires
        keys_unique(before, key),
        0 <= i < before.len(),
    ensures
        keys_unique(before.remove(i), key),
        forall|j: int|
            0 <= j < before.remove(i).len() ==> key(#[trigger] before.remove(i)[j]) != key(
                before[i],
            ),
{
    let after = before.remove(i);
    assert forall|a: int, b: int| 0 <= a < b < after.len() implies key(
        #[trigger] after[a],
    ) != key(#[trigger] after[b]) by {
        let a0 = if a < i {
            a
        } else {
            a + 1
        };
        let b0 = if b < i {
            b
        } else {
            b + 1
        };
        assert(after[a] == before[a0] && after[b] == before[b0]);
    }
    assert forall|j: int| 0 <= j < after.len() implies key(#[trigger] after[j]) != key(
        before[i],
    ) by {
        let j0 = if j < i {
            j
        } else {
            j + 1
        };
        assert(after[j] == before[j0]);
    }
}

proof fn lemma_remove_other<T>(
    before: Seq<T>,
    key: spec_fn(T) -> Seq<char>,
    i: int,
    other: Seq<char>,
)
    requires
        keys_unique(before, key),
        0 <= i < before.len(),
        other != key(before[i]),
    ensures
        find_keyed(before.remove(i), key, other) == find_keyed(before, key, other),
{
    let after = before.remove(i);
    lemma_remove_keeps_unique(before, key, i);
    lemma_find_index(after, key, other);
    lemma_find_index(before, key, other);
    match find_keyed(before, key, other) {
        Some(m) => {
            let k = choose|k: int|
                0 <= k < before.len() && before[k] == m && key(m) == other && forall|j: int|
                    k < j < before.len() ==> key(#[trigger] before[j]) != other;
            let k2 = if k < i {
                k
            } else {
                k - 1
            };
            assert(k != i);
            assert(after[k2] == m);
            lemma_find_at(after, key, k2);
        },
        None => {
            match find_keyed(after, key, other) {
                Some(m2) => {
                    let k = choose|k: int|
                        0 <= k < after.len() && after[k] == m2 && key(m2) == other && forall|
                            j: int,
                        | k < j < after.len() ==> key(#[trigger] after[j]) != other;
                    let k0 = if k < i {
                        k
                    } else {
                        k + 1
                    };
                    assert(after[k] == before[k0]);
                },
                None => {},
            }
        },
    }
}

/// Taking out the record at `i` forgets its key and keeps every other key's record.
pub proof fn lemma_remove_keyed<T>(before: Seq<T>, key: spec_fn(T) -> Seq<char>, i: int)
    requires
        keys_unique(before, key),
        0 <= i < before.len(),
    ensures
        keys_unique(before.remove(i), key),
        find_keyed(before.remove(i), key, key(before[i])) is None,
        forall|other: Seq<char>|
            other != key(before[i]) ==> find_keyed(before.remove(i), key, other) == find_keyed(
                before,
                key,
                other,
            ),
{
    lemma_remove_keeps_unique(before, key, i);
    lemma_find_index(before.remove(i), key, key(before[i]));
    assert forall|other: Seq<char>| other != key(before[i]) implies find_keyed(
        before.remove(i),
        key,
        other,
    ) == find_keyed(before, key, other) by {
        lemma_remove_other(before, key, i, other);
    }
}

/// Replacing the record at `i` by one with the same key changes what that key finds and
/// nothing else.
pub proof fn lemma_set_keyed<T>(before: Seq<T>, key: spec_fn(T) -> Seq<char>, i: int, m: T)
    requires
        keys_unique(before, key),
        0 <= i < before.len(),
        key(before[i]) == key(m),
    ensures
        keys_unique(before.update(i, m), key),
        find_keyed(before.update(i, m), key, key(m)) == Some(m),
        forall|other: Seq<char>|
            other != key(m) ==> find_keyed(before.update(i, m), key, other) == find_keyed(
                before,
                key,
                other,
            ),
{
    let after = before.update(i, m);
    assert forall|a: int, b: int| 0 <= a < b < after.len() implies key(
        #[trigger] after[a],
    ) != key(#[trigger] after[b]) by {
        if a != i && b != i {
            assert(after[a] == before[a] && after[b] == before[b]);
        } else if a == i {
            assert(after[b] == before[b]);
        } else {
            assert(after[a] == before[a]);
        }
    }
    lemma_find_at(after, key, i);
    assert forall|other: Seq<char>| other != key(m) implies find_keyed(after, key, other)
        == find_keyed(before, key, other) by {
        lemma_find_index(after, key, other);
        lemma_find_index(before, key, other);
        match find_keyed(before, key, other) {
            Some(x) => {
                let k = choose|k: int|
                    0 <= k < before.len() && before[k] == x && key(x) == other && forall|j: int|
                        k < j < before.len() ==> key(#[trigger] before[j]) != other;
                assert(k != i);
                assert(after[k] == x);
                lemma_find_at(after, key, k);
            },
            None => {
                match find_keyed(after, key, other) {
                    Some(y) => {
                        let k = choose|k: int|
                            0 <= k < after.len() && after[k] == y && key(y) == other && forall|
                                j: int,
                            | k < j < after.len() ==> key(#[trigger] after[j]) != other;
                        if k != i {
                            assert(after[k] == before[k]);
                        }
                    },
                    None => {},
                }
            },
        }
    }
}

/// Appending a record with a new key makes that key find it and changes nothing else.
pub proof fn lemma_push_keyed<T>(before: Seq<T>, key: spec_fn(T) -> Seq<char>, m: T)
    requires
        keys_unique(before, key),
        forall|j: int| 0 <= j < before.len() ==> key(#[trigger] before[j]) != key(m),
    ensures
        keys_unique(before.push(m), key),
        find_keyed(before.push(m), key, key(m)) == Some(m),
        forall|other: Seq<char>|
            other != key(m) ==> find_keyed(before.push(m), key, other) == find_keyed(
                before,
                key,
                other,
            ),
{
    let after = before.push(m);
    assert(after.drop_last() =~= before);
    assert forall|a: int, b: int| 0 <= a < b < after.len() implies key(
        #[trigger] after[a],
    ) != key(#[trigger] after[b]) by {
        if b < before.len() {
            assert(after[a] == before[a] && after[b] == before[b]);
        } else {
            assert(after[a] == before[a]);
        }
    }
}

} // verus!
