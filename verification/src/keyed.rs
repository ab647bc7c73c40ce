//! Lists of entries found by a text key: the first entry with a key answers for it.
use vstd::prelude::*;

verus! {

/// The first position at or after `from` whose key is `k`.
pub open spec fn key_position(keys: Seq<Seq<char>>, k: Seq<char>, from: int) -> Option<int>
    decreases keys.len() - from,
{
    if from < 0 || from >= keys.len() {
        None
    } else if keys[from] == k {
        Some(from)
    } else {
        key_position(keys, k, from + 1)
    }
}

/// No key occurs twice.
pub open spec fn keys_distinct(keys: Seq<Seq<char>>) -> bool {
    forall|i: int, j: int| 0 <= i < j < keys.len() ==> #[trigger] keys[i] != #[trigger] keys[j]
}

/// What the search for `k` finds.
pub proof fn lemma_key_position(keys: Seq<Seq<char>>, k: Seq<char>, from: int)
    requires
        0 <= from,
    ensures
        match key_position(keys, k, from) {
            Some(i) => from <= i < keys.len() && keys[i] == k && forall|j: int|
                from <= j < i ==> keys[j] != k,
            None => forall|j: int| from <= j < keys.len() ==> keys[j] != k,
        },
    decreases keys.len() - from,
{
    if from < keys.len() {
        lemma_key_position(keys, k, from + 1);
    }
}

/// The search finds the first position holding `k`.
pub proof fn lemma_key_position_at(keys: Seq<Seq<char>>, k: Seq<char>, from: int, i: int)
    requires
        0 <= from <= i < keys.len(),
        keys[i] == k,
        forall|j: int| from <= j < i ==> keys[j] != k,
    ensures
        key_position(keys, k, from) == Some(i),
    decreases i - from,
{
    if from < i {
        lemma_key_position_at(keys, k, from + 1, i);
    }
}

/// Two key lists that agree on where `k` stands (the longer holding no `k`
/// past the shorter one's end) find `k` at the same place.
pub proof fn lemma_key_position_agree(a: Seq<Seq<char>>, b: Seq<Seq<char>>, k: Seq<char>, from: int)
    requires
        0 <= from,
        a.len() <= b.len(),
        forall|j: int| 0 <= j < a.len() ==> (#[trigger] a[j] == k) == (b[j] == k),
        forall|j: int| a.len() <= j < b.len() ==> #[trigger] b[j] != k,
    ensures
        key_position(a, k, from) == key_position(b, k, from),
    decreases b.len() - from,
{
    if from < b.len() {
        lemma_key_position_agree(a, b, k, from + 1);
    }
}

/// Dropping an entry from a list keeps where every other key stands, shifted
/// past the dropped place.
pub proof fn lemma_key_position_remove(a: Seq<Seq<char>>, i: int, k: Seq<char>)
    requires
        0 <= i < a.len(),
        a[i] != k,
    ensures
        key_position(a.remove(i), k, 0) == match key_position(a, k, 0) {
            Some(p) => Some(if p < i { p } else { p - 1 }),
            None => None,
        },
{
    let b = a.remove(i);
    lemma_key_position(a, k, 0);
    match key_position(a, k, 0) {
        Some(p) => {
            let q = if p < i { p } else { p - 1 };
            assert forall|j: int| 0 <= j < q implies b[j] != k by {
                if j < i {
                    assert(b[j] == a[j]);
                } else {
                    assert(b[j] == a[j + 1]);
                }
            }
            lemma_key_position_at(b, k, 0, q);
        },
        None => {
            assert forall|j: int| 0 <= j < b.len() implies b[j] != k by {
                if j < i {
                    assert(b[j] == a[j]);
                } else {
                    assert(b[j] == a[j + 1]);
                }
            }
            lemma_key_position(b, k, 0);
            if key_position(b, k, 0) is Some {
                let p = key_position(b, k, 0)->0;
                assert(b[p] == k);
            }
        },
    }
}

} // verus!
