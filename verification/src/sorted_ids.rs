//! Sorted lists of repeated names: what a set-based de-duplication hands
//! back, in string order, each name once.

use vstd::prelude::*;

use crate::text::{lemma_seq_lt_irreflexive, lemma_seq_lt_total, lemma_seq_lt_transitive, seq_lt, str_lt};

verus! {

/// Strings seen through their text.
pub open spec fn strings_view(v: Seq<String>) -> Seq<Seq<char>> {
    v.map_values(|s: String| s@)
}

/// Strictly increasing in string order, hence free of repeats.
pub open spec fn ids_sorted(q: Seq<Seq<char>>) -> bool {
    forall|i: int, j: int| 0 <= i < j < q.len() ==> seq_lt(#[trigger] q[i], #[trigger] q[j])
}

/// `x` occurs twice or more among the first `k` names.
pub open spec fn repeats_within(ids: Seq<Seq<char>>, x: Seq<char>, k: int) -> bool {
    exists|i: int, j: int| 0 <= i < j < k && (#[trigger] ids[i]) == x && (#[trigger] ids[j]) == x
}

/// `q` holds exactly the names repeated among the first `k`.
pub open spec fn lists_repeats(q: Seq<Seq<char>>, ids: Seq<Seq<char>>, k: int) -> bool {
    forall|x: Seq<char>| q.contains(x) <==> repeats_within(ids, x, k)
}

/// Every repeated name, once each, in string order.
pub open spec fn spec_sorted_repeats(ids: Seq<Seq<char>>) -> Seq<Seq<char>> {
    choose|q: Seq<Seq<char>>| ids_sorted(q) && lists_repeats(q, ids, ids.len() as int)
}

/// A sorted list is fixed by its elements.
pub proof fn lemma_sorted_unique(p: Seq<Seq<char>>, q: Seq<Seq<char>>)
    requires
        ids_sorted(p),
        ids_sorted(q),
        forall|x: Seq<char>| p.contains(x) <==> q.contains(x),
    ensures
        p == q,
    decreases p.len(),
{
    if p.len() == 0 {
        if q.len() > 0 {
            assert(q.contains(q[0]));
        }
        assert(p =~= q);
    } else {
        assert(p.contains(p[0]));
        assert(q.len() > 0);
        assert(q.contains(q[0]));
        let j = choose|j: int| 0 <= j < q.len() && q[j] == p[0];
        let i = choose|i: int| 0 <= i < p.len() && p[i] == q[0];
        if p[0] != q[0] {
            assert(j > 0 && i > 0);
            assert(seq_lt(q[0], q[j]));
            assert(seq_lt(p[0], p[i]));
            lemma_seq_lt_transitive(p[0], q[0], p[0]);
            lemma_seq_lt_irreflexive(p[0]);
        }
        let p1 = p.drop_first();
        let q1 = q.drop_first();
        assert forall|x: Seq<char>| p1.contains(x) <==> q1.contains(x) by {
            if p1.contains(x) {
                let a = choose|a: int| 0 <= a < p1.len() && p1[a] == x;
                assert(p[a + 1] == x);
                assert(seq_lt(p[0], x));
                lemma_seq_lt_irreflexive(x);
                assert(p.contains(x));
                let b = choose|b: int| 0 <= b < q.len() && q[b] == x;
                assert(b != 0);
                assert(q1[b - 1] == x);
            }
            if q1.contains(x) {
                let a = choose|a: int| 0 <= a < q1.len() && q1[a] == x;
                assert(q[a + 1] == x);
                assert(seq_lt(q[0], x));
                lemma_seq_lt_irreflexive(x);
                assert(q.contains(x));
                let b = choose|b: int| 0 <= b < p.len() && p[b] == x;
                assert(b != 0);
                assert(p1[b - 1] == x);
            }
        }
        assert forall|a: int, b: int| 0 <= a < b < p1.len() implies seq_lt(#[trigger] p1[a], #[trigger] p1[b]) by {
            assert(p1[a] == p[a + 1] && p1[b] == p[b + 1]);
        }
        assert forall|a: int, b: int| 0 <= a < b < q1.len() implies seq_lt(#[trigger] q1[a], #[trigger] q1[b]) by {
            assert(q1[a] == q[a + 1] && q1[b] == q[b + 1]);
        }
        lemma_sorted_unique(p1, q1);
        assert(p =~= seq![p[0]] + p1);
        assert(q =~= seq![q[0]] + q1);
    }
}

/// Insert `x` into a sorted id list unless it is already there.
pub fn insert_sorted(out: &mut Vec<String>, x: &String)
    requires
        ids_sorted(strings_view(old(out)@)),
    ensures
        ids_sorted(strings_view(final(out)@)),
        forall|y: Seq<char>| strings_view(final(out)@).contains(y) <==> (strings_view(old(out)@).contains(y) || y == x@),
{
    let ghost v0 = strings_view(out@);
    let mut p: usize = 0;
    while p < out.len() && str_lt(out[p].as_str(), x.as_str())
        invariant
            p <= out@.len(),
            v0 == strings_view(out@),
            ids_sorted(v0),
            forall|a: int| 0 <= a < p ==> seq_lt(#[trigger] v0[a], x@),
        decreases out.len() - p,
    {
        assert(v0[p as int] == out@[p as int]@);
        p = p + 1;
    }
    if p < out.len() && out[p] == *x {
        assert(v0[p as int] == x@);
        assert forall|y: Seq<char>| v0.contains(y) <==> (v0.contains(y) || y == x@) by {
            if y == x@ {
                assert(v0[p as int] == y);
            }
        }
        return;
    }
    let ghost lt_after = p < out.len();
    proof {
        if p < out@.len() {
            assert(v0[p as int] == out@[p as int]@);
            assert(!seq_lt(v0[p as int], x@));
            assert(v0[p as int] != x@);
            lemma_seq_lt_total(v0[p as int], x@);
            assert(seq_lt(x@, v0[p as int]));
        }
    }
    out.insert(p, x.clone());
    proof {
        let v1 = strings_view(out@);
        assert(v1 =~= v0.subrange(0, p as int).push(x@) + v0.subrange(p as int, v0.len() as int));
        assert forall|a: int, b: int| 0 <= a < b < v1.len() implies seq_lt(#[trigger] v1[a], #[trigger] v1[b]) by {
            if b < p {
                assert(v1[a] == v0[a] && v1[b] == v0[b]);
            } else if b == p {
                assert(v1[a] == v0[a]);
            } else if a == p {
                assert(v1[b] == v0[b - 1]);
                if b - 1 > p {
                    assert(seq_lt(v0[p as int], v0[b - 1]));
                    lemma_seq_lt_transitive(x@, v0[p as int], v0[b - 1]);
                }
            } else if a < p {
                assert(v1[a] == v0[a]);
                assert(v1[b] == v0[b - 1]);
            } else {
                assert(v1[a] == v0[a - 1]);
                assert(v1[b] == v0[b - 1]);
            }
        }
        assert forall|y: Seq<char>| v1.contains(y) <==> (v0.contains(y) || y == x@) by {
            if v1.contains(y) {
                let a = choose|a: int| 0 <= a < v1.len() && v1[a] == y;
                if a < p {
                    assert(v0[a] == y);
                } else if a > p {
                    assert(v0[a - 1] == y);
                }
            }
            if v0.contains(y) {
                let a = choose|a: int| 0 <= a < v0.len() && v0[a] == y;
                if a < p {
                    assert(v1[a] == y);
                } else {
                    assert(v1[a + 1] == y);
                }
            }
            if y == x@ {
                assert(v1[p as int] == y);
            }
        }
    }
}

/// Insertion into a sorted id list, as a proof-time construction.
pub proof fn lemma_insert_exists(q: Seq<Seq<char>>, x: Seq<char>) -> (r: Seq<Seq<char>>)
    requires
        ids_sorted(q),
    ensures
        ids_sorted(r),
        forall|y: Seq<char>| r.contains(y) <==> (q.contains(y) || y == x),
    decreases q.len(),
{
    if q.len() == 0 {
        let r = seq![x];
        assert forall|y: Seq<char>| r.contains(y) <==> (q.contains(y) || y == x) by {
            if y == x {
                assert(r[0] == y);
            }
        }
        r
    } else if q[0] == x {
        assert forall|y: Seq<char>| q.contains(y) <==> (q.contains(y) || y == x) by {
            if y == x {
                assert(q[0] == y);
            }
        }
        q
    } else if seq_lt(x, q[0]) {
        let r = seq![x] + q;
        assert forall|a: int, b: int| 0 <= a < b < r.len() implies seq_lt(#[trigger] r[a], #[trigger] r[b]) by {
            if a == 0 {
                if b > 1 {
                    assert(seq_lt(q[0], q[b - 1]));
                    lemma_seq_lt_transitive(x, q[0], q[b - 1]);
                }
            } else {
                assert(r[a] == q[a - 1] && r[b] == q[b - 1]);
            }
        }
        assert forall|y: Seq<char>| r.contains(y) <==> (q.contains(y) || y == x) by {
            if r.contains(y) {
                let a = choose|a: int| 0 <= a < r.len() && r[a] == y;
                if a > 0 {
                    assert(q[a - 1] == y);
                }
            }
            if q.contains(y) {
                let a = choose|a: int| 0 <= a < q.len() && q[a] == y;
                assert(r[a + 1] == y);
            }
            if y == x {
                assert(r[0] == y);
            }
        }
        r
    } else {
        lemma_seq_lt_total(x, q[0]);
        let q1 = q.drop_first();
        assert forall|a: int, b: int| 0 <= a < b < q1.len() implies seq_lt(#[trigger] q1[a], #[trigger] q1[b]) by {
            assert(q1[a] == q[a + 1] && q1[b] == q[b + 1]);
        }
        let r1 = lemma_insert_exists(q1, x);
        let r = seq![q[0]] + r1;
        assert forall|a: int, b: int| 0 <= a < b < r.len() implies seq_lt(#[trigger] r[a], #[trigger] r[b]) by {
            if a == 0 {
                assert(r[b] == r1[b - 1]);
                assert(r1.contains(r1[b - 1]));
                if r1[b - 1] != x {
                    let c = choose|c: int| 0 <= c < q1.len() && q1[c] == r1[b - 1];
                    assert(q[c + 1] == r1[b - 1]);
                }
            } else {
                assert(r[a] == r1[a - 1] && r[b] == r1[b - 1]);
            }
        }
        assert forall|y: Seq<char>| r.contains(y) <==> (q.contains(y) || y == x) by {
            if r.contains(y) {
                let a = choose|a: int| 0 <= a < r.len() && r[a] == y;
                if a > 0 {
                    assert(r1[a - 1] == y);
                    assert(r1.contains(y));
                    if y != x {
                        let c = choose|c: int| 0 <= c < q1.len() && q1[c] == y;
                        assert(q[c + 1] == y);
                    }
                }
            }
            if q.contains(y) {
                let a = choose|a: int| 0 <= a < q.len() && q[a] == y;
                if a == 0 {
                    assert(r[0] == y);
                } else {
                    assert(q1[a - 1] == y);
                    assert(r1.contains(y));
                    let c = choose|c: int| 0 <= c < r1.len() && r1[c] == y;
                    assert(r[c + 1] == y);
                }
            }
            if y == x {
                assert(r1.contains(y));
                let c = choose|c: int| 0 <= c < r1.len() && r1[c] == y;
                assert(r[c + 1] == y);
            }
        }
        r
    }
}

/// A sorted list of the ids repeated among the first `k` exists.
proof fn lemma_repeats_exist(ids: Seq<Seq<char>>, k: int) -> (q: Seq<Seq<char>>)
    requires
        0 <= k <= ids.len(),
    ensures
        ids_sorted(q),
        lists_repeats(q, ids, k),
    decreases k,
{
    if k == 0 {
        let q = Seq::<Seq<char>>::empty();
        q
    } else {
        let q0 = lemma_repeats_exist(ids, k - 1);
        let x = ids[k - 1];
        if exists|a: int| 0 <= a < k - 1 && (#[trigger] ids[a]) == x {
            let q = lemma_insert_exists(q0, x);
            assert forall|y: Seq<char>| q.contains(y) <==> repeats_within(ids, y, k) by {
                if repeats_within(ids, y, k) && !repeats_within(ids, y, k - 1) {
                    let (a, b) = choose|a: int, b: int| 0 <= a < b < k && (#[trigger] ids[a]) == y && (#[trigger] ids[b]) == y;
                    assert(b == k - 1);
                }
                if y == x {
                    let a = choose|a: int| 0 <= a < k - 1 && (#[trigger] ids[a]) == x;
                    assert(ids[a] == y && ids[k - 1] == y);
                }
                if repeats_within(ids, y, k - 1) {
                    let (a, b) = choose|a: int, b: int| 0 <= a < b < k - 1 && (#[trigger] ids[a]) == y && (#[trigger] ids[b]) == y;
                    assert(ids[a] == y && ids[b] == y);
                }
            }
            q
        } else {
            assert forall|y: Seq<char>| q0.contains(y) <==> repeats_within(ids, y, k) by {
                if repeats_within(ids, y, k) && !repeats_within(ids, y, k - 1) {
                    let (a, b) = choose|a: int, b: int| 0 <= a < b < k && (#[trigger] ids[a]) == y && (#[trigger] ids[b]) == y;
                    assert(b == k - 1);
                    assert(ids[a] == x);
                }
                if repeats_within(ids, y, k - 1) {
                    let (a, b) = choose|a: int, b: int| 0 <= a < b < k - 1 && (#[trigger] ids[a]) == y && (#[trigger] ids[b]) == y;
                    assert(ids[a] == y && ids[b] == y);
                }
            }
            q0
        }
    }
}


/// The sorted list of repeats holds exactly the repeated names, in order.
pub proof fn lemma_sorted_repeats(ids: Seq<Seq<char>>)
    ensures
        ids_sorted(spec_sorted_repeats(ids)),
        lists_repeats(spec_sorted_repeats(ids), ids, ids.len() as int),
{
    let q = lemma_repeats_exist(ids, ids.len() as int);
    assert(ids_sorted(q) && lists_repeats(q, ids, ids.len() as int));
}

/// Every name that occurs more than once, each once, in string order.
pub fn sorted_repeats(ids: &Vec<String>) -> (r: Vec<String>)
    ensures
        strings_view(r@) == spec_sorted_repeats(strings_view(ids@)),
{
    let ghost iv = strings_view(ids@);
    let n = ids.len();
    let mut out: Vec<String> = Vec::new();
    for k in 0..n
        invariant
            n == iv.len(),
            iv == strings_view(ids@),
            ids_sorted(strings_view(out@)),
            lists_repeats(strings_view(out@), iv, k as int),
    {
        assert(ids@[k as int]@ == iv[k as int]);
        let mut seen = false;
        let mut i: usize = 0;
        while i < k
            invariant
                i <= k < n,
                n == iv.len(),
                iv == strings_view(ids@),
                seen <==> exists|a: int| 0 <= a < i && (#[trigger] iv[a]) == iv[k as int],
                ids_sorted(strings_view(out@)),
                lists_repeats(strings_view(out@), iv, k as int),
            decreases k - i,
        {
            assert(ids@[i as int]@ == iv[i as int]);
            if ids[i] == ids[k] {
                seen = true;
            }
            i = i + 1;
        }
        let ghost before = strings_view(out@);
        if seen {
            insert_sorted(&mut out, &ids[k]);
        }
        proof {
            let x = iv[k as int];
            assert(lists_repeats(before, iv, k as int));
            assert forall|y: Seq<char>| strings_view(out@).contains(y) <==> repeats_within(iv, y, k + 1) by {
                if repeats_within(iv, y, k + 1) && !repeats_within(iv, y, k as int) {
                    let (a, b) = choose|a: int, b: int| 0 <= a < b < k + 1 && (#[trigger] iv[a]) == y && (#[trigger] iv[b]) == y;
                    assert(b == k);
                    assert(seen);
                }
                if seen && y == x {
                    let a = choose|a: int| 0 <= a < k && (#[trigger] iv[a]) == iv[k as int];
                    assert(iv[a] == y && iv[k as int] == y);
                }
                if repeats_within(iv, y, k as int) {
                    let (a, b) = choose|a: int, b: int| 0 <= a < b < k && (#[trigger] iv[a]) == y && (#[trigger] iv[b]) == y;
                    assert(iv[a] == y && iv[b] == y);
                }
            }
        }
    }
    proof {
        lemma_sorted_repeats(iv);
        lemma_sorted_unique(strings_view(out@), spec_sorted_repeats(iv));
    }
    out
}

} // verus!
