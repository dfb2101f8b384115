//! Facts about sequences of keys in which no key occurs twice.
use vstd::prelude::*;

verus! {

pub open spec fn distinct(ks: Seq<Seq<char>>) -> bool {
    forall|i: int, j: int| 0 <= i < j < ks.len() ==> #[trigger] ks[i] != #[trigger] ks[j]
}

/// Removing the key at `i` removes exactly that key.
pub proof fn lemma_remove_distinct(ks: Seq<Seq<char>>, i: int)
    requires
        distinct(ks),
        0 <= i < ks.len(),
    ensures
        distinct(ks.remove(i)),
        forall|k: Seq<char>| #[trigger] ks.remove(i).contains(k) <==> (ks.contains(k) && k != ks[i]),
{
    let r = ks.remove(i);
    assert forall|a: int, b: int| 0 <= a < b < r.len() implies #[trigger] r[a] != #[trigger] r[b] by {
        let a2 = if a < i {
            a
        } else {
            a + 1
        };
        let b2 = if b < i {
            b
        } else {
            b + 1
        };
        assert(r[a] == ks[a2]);
        assert(r[b] == ks[b2]);
    }
    assert forall|k: Seq<char>| #[trigger] r.contains(k) <==> (ks.contains(k) && k != ks[i]) by {
        if r.contains(k) {
            let j = choose|j: int| 0 <= j < r.len() && r[j] == k;
            let j2 = if j < i {
                j
            } else {
                j + 1
            };
            assert(ks[j2] == k);
            assert(j2 != i);
        }
        if ks.contains(k) && k != ks[i] {
            let j = choose|j: int| 0 <= j < ks.len() && ks[j] == k;
            assert(j != i);
            let j2 = if j < i {
                j
            } else {
                j - 1
            };
            assert(r[j2] == k);
        }
    }
}

/// Appending a key that is not present keeps the keys distinct.
pub proof fn lemma_push_fresh(ks: Seq<Seq<char>>, k: Seq<char>)
    requires
        distinct(ks),
        !ks.contains(k),
    ensures
        distinct(ks.push(k)),
        forall|x: Seq<char>| #[trigger] ks.push(k).contains(x) <==> (ks.contains(x) || x == k),
{
    let r = ks.push(k);
    assert forall|a: int, b: int| 0 <= a < b < r.len() implies #[trigger] r[a] != #[trigger] r[b] by {
        if b == ks.len() {
            assert(r[a] == ks[a]);
        } else {
            assert(r[a] == ks[a]);
            assert(r[b] == ks[b]);
        }
    }
    assert forall|x: Seq<char>| #[trigger] r.contains(x) <==> (ks.contains(x) || x == k) by {
        if r.contains(x) {
            let j = choose|j: int| 0 <= j < r.len() && r[j] == x;
            if j < ks.len() {
                assert(ks[j] == x);
            }
        }
        if ks.contains(x) {
            let j = choose|j: int| 0 <= j < ks.len() && ks[j] == x;
            assert(r[j] == x);
        }
        if x == k {
            assert(r[ks.len() as int] == x);
        }
    }
}

/// Replacing the value stored under a key leaves the keys as they were.
pub proof fn lemma_update_same_key(ks: Seq<Seq<char>>, i: int, k: Seq<char>)
    requires
        0 <= i < ks.len(),
        ks[i] == k,
    ensures
        ks.update(i, k) == ks,
{
    assert(ks.update(i, k) =~= ks);
}

} // verus!
