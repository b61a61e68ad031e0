//! Ordering device paths, and listing each distinct path once, in order.
use vstd::prelude::*;
use crate::message_map::path_views;

verus! {

/// Lexicographic order on character sequences: `a` comes before `b`.
pub open spec fn seq_lt(a: Seq<char>, b: Seq<char>) -> bool
    decreases a.len(),
{
    if a.len() == 0 {
        b.len() > 0
    } else if b.len() == 0 {
        false
    } else if a[0] != b[0] {
        (a[0] as int) < (b[0] as int)
    } else {
        seq_lt(a.drop_first(), b.drop_first())
    }
}

/// Nothing comes before itself.
pub proof fn lemma_seq_lt_irreflexive(a: Seq<char>)
    ensures
        !seq_lt(a, a),
    decreases a.len(),
{
    if a.len() > 0 {
        lemma_seq_lt_irreflexive(a.drop_first());
    }
}

/// The order is transitive.
pub proof fn lemma_seq_lt_transitive(a: Seq<char>, b: Seq<char>, c: Seq<char>)
    requires
        seq_lt(a, b),
        seq_lt(b, c),
    ensures
        seq_lt(a, c),
    decreases a.len(),
{
    if a.len() > 0 && b.len() > 0 && c.len() > 0 && a[0] == b[0] && b[0] == c[0] {
        lemma_seq_lt_transitive(a.drop_first(), b.drop_first(), c.drop_first());
    }
}

/// Of two different sequences, one comes before the other.
pub proof fn lemma_seq_lt_total(a: Seq<char>, b: Seq<char>)
    requires
        a != b,
    ensures
        seq_lt(a, b) || seq_lt(b, a),
    decreases a.len(),
{
    if a.len() > 0 && b.len() > 0 && a[0] == b[0] {
        if a.drop_first() == b.drop_first() {
            assert(a =~= seq![a[0]] + a.drop_first());
            assert(b =~= seq![b[0]] + b.drop_first());
        }
        lemma_seq_lt_total(a.drop_first(), b.drop_first());
    } else if a.len() == 0 && b.len() == 0 {
        assert(a =~= b);
    }
}

/// Whether `a` comes before `b`.
pub fn str_lt(a: &str, b: &str) -> (res: bool)
    ensures
        res == seq_lt(a@, b@),
{
    let n = a.unicode_len();
    let m = b.unicode_len();
    let mut i: usize = 0;
    assert(a@.skip(0) =~= a@);
    assert(b@.skip(0) =~= b@);
    while i < n && i < m
        invariant
            n == a@.len(),
            m == b@.len(),
            i <= n,
            i <= m,
            seq_lt(a@, b@) == seq_lt(a@.skip(i as int), b@.skip(i as int)),
        decreases n - i,
    {
        let x = a.get_char(i);
        let y = b.get_char(i);
        proof {
            assert(a@.skip(i as int)[0] == x);
            assert(b@.skip(i as int)[0] == y);
        }
        if x != y {
            return (x as u32) < (y as u32);
        }
        proof {
            assert(a@.skip(i as int).drop_first() =~= a@.skip(i + 1));
            assert(b@.skip(i as int).drop_first() =~= b@.skip(i + 1));
        }
        i = i + 1;
    }
    i == n && i < m
}

/// The indices of `paths` listing each distinct path once, in order: each
/// index is in range, the paths at them strictly increase, and every path
/// is at one of them.
pub open spec fn unique_in_order(paths: Seq<Seq<char>>, idx: Seq<usize>) -> bool {
    &&& forall|k: int| 0 <= k < idx.len() ==> (#[trigger] idx[k]) < paths.len()
    &&& forall|k: int, l: int| 0 <= k < l < idx.len() ==> seq_lt(paths[#[trigger] idx[k] as int], paths[#[trigger] idx[l] as int])
    &&& forall|i: int| 0 <= i < paths.len() ==> #[trigger] listed(paths, idx, paths[i])
}

/// Whether the path `p` is at one of the indices `idx`.
pub open spec fn listed(paths: Seq<Seq<char>>, idx: Seq<usize>, p: Seq<char>) -> bool {
    exists|k: int| 0 <= k < idx.len() && paths[#[trigger] idx[k] as int] == p
}

/// The indices listing each distinct path of `paths` once, in order.
pub fn sorted_unique_indices(paths: &Vec<String>) -> (res: Vec<usize>)
    ensures
        unique_in_order(path_views(paths@), res@),
{
    let ghost pv = path_views(paths@);
    let mut idx: Vec<usize> = Vec::new();
    let mut i: usize = 0;
    while i < paths.len()
        invariant
            i <= paths@.len(),
            pv == path_views(paths@),
            forall|k: int| 0 <= k < idx@.len() ==> (#[trigger] idx@[k]) < paths@.len(),
            forall|k: int, l: int| 0 <= k < l < idx@.len() ==> seq_lt(pv[#[trigger] idx@[k] as int], pv[#[trigger] idx@[l] as int]),
            forall|j: int| 0 <= j < i ==> #[trigger] listed(pv, idx@, pv[j]),
        decreases paths@.len() - i,
    {
        let x = paths[i].as_str();
        assert(pv[i as int] == x@);
        let mut p: usize = 0;
        while p < idx.len() && str_lt(paths[idx[p]].as_str(), x)
            invariant
                p <= idx@.len(),
                pv == path_views(paths@),
                pv[i as int] == x@,
                forall|k: int| 0 <= k < idx@.len() ==> (#[trigger] idx@[k]) < paths@.len(),
                forall|k: int| 0 <= k < p ==> seq_lt(pv[#[trigger] idx@[k] as int], x@),
            decreases idx@.len() - p,
        {
            assert(pv[idx@[p as int] as int] == paths@[idx@[p as int] as int]@);
            p = p + 1;
        }
        let ghost old_idx = idx@;
        if p < idx.len() && crate::text::str_eq(paths[idx[p]].as_str(), x) {
            proof {
                assert(pv[idx@[p as int] as int] == x@);
                assert forall|j: int| 0 <= j < i + 1 implies #[trigger] listed(pv, idx@, pv[j]) by {
                    if j == i {
                        assert(pv[idx@[p as int] as int] == pv[j]);
                    }
                }
            }
        } else {
            proof {
                if p < idx@.len() {
                    let y = pv[idx@[p as int] as int];
                    assert(pv[idx@[p as int] as int] == paths@[idx@[p as int] as int]@);
                    assert(!seq_lt(y, x@));
                    lemma_seq_lt_total(y, x@);
                    assert(seq_lt(x@, y));
                }
            }
            idx.insert(p, i);
            proof {
                assert forall|k: int| 0 <= k < idx@.len() implies (#[trigger] idx@[k]) < paths@.len() by {
                    if k < p {
                        assert(idx@[k] == old_idx[k]);
                    } else if k > p {
                        assert(idx@[k] == old_idx[k - 1]);
                    }
                }
                assert forall|k: int, l: int| 0 <= k < l < idx@.len() implies seq_lt(pv[#[trigger] idx@[k] as int], pv[#[trigger] idx@[l] as int]) by {
                    if l < p {
                        assert(idx@[k] == old_idx[k] && idx@[l] == old_idx[l]);
                    } else if l == p {
                        assert(idx@[k] == old_idx[k]);
                    } else if k < p {
                        assert(idx@[k] == old_idx[k] && idx@[l] == old_idx[l - 1]);
                        assert(seq_lt(pv[old_idx[k] as int], x@));
                        assert(seq_lt(x@, pv[old_idx[p as int] as int]));
                        lemma_seq_lt_transitive(pv[old_idx[k] as int], x@, pv[old_idx[p as int] as int]);
                        if l - 1 > p {
                            lemma_seq_lt_transitive(pv[old_idx[k] as int], pv[old_idx[p as int] as int], pv[old_idx[l - 1] as int]);
                        }
                    } else if k == p {
                        assert(idx@[l] == old_idx[l - 1]);
                        if l - 1 > p {
                            lemma_seq_lt_transitive(x@, pv[old_idx[p as int] as int], pv[old_idx[l - 1] as int]);
                        }
                    } else {
                        assert(idx@[k] == old_idx[k - 1] && idx@[l] == old_idx[l - 1]);
                    }
                }
                assert forall|j: int| 0 <= j < i + 1 implies #[trigger] listed(pv, idx@, pv[j]) by {
                    if j == i {
                        assert(idx@[p as int] == i);
                        assert(pv[idx@[p as int] as int] == pv[j]);
                    } else {
                        assert(listed(pv, old_idx, pv[j]));
                        let k = choose|k: int| 0 <= k < old_idx.len() && pv[#[trigger] old_idx[k] as int] == pv[j];
                        if k < p {
                            assert(idx@[k] == old_idx[k]);
                        } else {
                            assert(idx@[k + 1] == old_idx[k]);
                        }
                    }
                }
            }
        }
        i = i + 1;
    }
    idx
}

} // verus!
