//! Ranking for the process table: entries sorted by resident memory,
//! descending, with ties kept in their original provider order (a stable
//! sort), and only the first ten kept for display.

use vstd::prelude::*;

verus! {

use vstd::multiset::Multiset;
use vstd::seq_lib::lemma_multiset_commutative;
use vstd::seq_lib::to_multiset_build;
use vstd::multiset::group_multiset_axioms;
use crate::snapshot::ProcessInfo;

/// Sorted by resident memory, descending.
pub open spec fn sorted_desc(s: Seq<ProcessInfo>) -> bool {
    forall|i: int, j: int| 0 <= i < j < s.len() ==> s[i].memory >= s[j].memory
}

/// Insert one entry into a descending list: it lands behind every entry
/// with at least its memory, so a later-arriving tie stays behind.
pub open spec fn insert_desc(t: Seq<ProcessInfo>, x: ProcessInfo) -> Seq<ProcessInfo>
    decreases t.len(),
{
    if t.len() == 0 {
        seq![x]
    } else if t[0].memory < x.memory {
        seq![x] + t
    } else {
        seq![t[0]] + insert_desc(t.drop_first(), x)
    }
}

/// The stable descending sort: entries inserted in provider order.
pub open spec fn sort_desc(s: Seq<ProcessInfo>) -> Seq<ProcessInfo>
    decreases s.len(),
{
    if s.len() == 0 {
        Seq::empty()
    } else {
        insert_desc(sort_desc(s.drop_last()), s.last())
    }
}

/// How many rows the table shows: every process, capped at ten.
pub open spec fn top_len(n: int) -> int {
    if n < 10 {
        n
    } else {
        10
    }
}

/// The predicate "has exactly this resident memory", used to state that
/// the ranking keeps tied entries in their original order.
pub open spec fn mem_eq(m: int) -> spec_fn(ProcessInfo) -> bool {
    |q: ProcessInfo| q.memory as int == m
}

proof fn lemma_insert_desc_len(t: Seq<ProcessInfo>, x: ProcessInfo)
    ensures
        insert_desc(t, x).len() == t.len() + 1,
    decreases t.len(),
{
    if t.len() == 0 {
    } else if t[0].memory < x.memory {
    } else {
        lemma_insert_desc_len(t.drop_first(), x);
    }
}

proof fn lemma_insert_desc_elements(t: Seq<ProcessInfo>, x: ProcessInfo)
    ensures
        forall|k: int|
            0 <= k < insert_desc(t, x).len() ==> (#[trigger] insert_desc(t, x)[k] == x
                || t.contains(insert_desc(t, x)[k])),
    decreases t.len(),
{
    lemma_insert_desc_len(t, x);
    if t.len() == 0 {
    } else if t[0].memory < x.memory {
        assert forall|k: int| 0 <= k < insert_desc(t, x).len() implies (#[trigger] insert_desc(
            t,
            x,
        )[k] == x || t.contains(insert_desc(t, x)[k])) by {
            if k > 0 {
                assert(insert_desc(t, x)[k] == t[k - 1]);
            }
        }
    } else {
        lemma_insert_desc_elements(t.drop_first(), x);
        lemma_insert_desc_len(t.drop_first(), x);
        let inner = insert_desc(t.drop_first(), x);
        assert forall|k: int| 0 <= k < insert_desc(t, x).len() implies (#[trigger] insert_desc(
            t,
            x,
        )[k] == x || t.contains(insert_desc(t, x)[k])) by {
            if k == 0 {
                assert(insert_desc(t, x)[0] == t[0]);
                assert(t.contains(t[0]));
            } else {
                assert(insert_desc(t, x)[k] == inner[k - 1]);
                if inner[k - 1] != x {
                    let m = choose|m: int|
                        0 <= m < t.drop_first().len() && t.drop_first()[m] == inner[k - 1];
                    assert(t[m + 1] == inner[k - 1]);
                    assert(t.contains(t[m + 1]));
                }
            }
        }
    }
}

proof fn lemma_insert_desc_sorted(t: Seq<ProcessInfo>, x: ProcessInfo)
    requires
        sorted_desc(t),
    ensures
        sorted_desc(insert_desc(t, x)),
    decreases t.len(),
{
    lemma_insert_desc_len(t, x);
    if t.len() == 0 {
    } else if t[0].memory < x.memory {
        let r = insert_desc(t, x);
        assert forall|i: int, j: int| 0 <= i < j < r.len() implies r[i].memory >= r[j].memory by {
            if i == 0 {
                assert(r[j] == t[j - 1]);
            } else {
                assert(r[i] == t[i - 1]);
                assert(r[j] == t[j - 1]);
            }
        }
    } else {
        assert(sorted_desc(t.drop_first())) by {
            assert forall|i: int, j: int|
                0 <= i < j < t.drop_first().len() implies t.drop_first()[i].memory
                >= t.drop_first()[j].memory by {
                assert(t.drop_first()[i] == t[i + 1]);
                assert(t.drop_first()[j] == t[j + 1]);
            }
        }
        lemma_insert_desc_sorted(t.drop_first(), x);
        lemma_insert_desc_elements(t.drop_first(), x);
        lemma_insert_desc_len(t.drop_first(), x);
        let inner = insert_desc(t.drop_first(), x);
        let r = insert_desc(t, x);
        assert forall|i: int, j: int| 0 <= i < j < r.len() implies r[i].memory >= r[j].memory by {
            if i == 0 {
                assert(r[j] == inner[j - 1]);
                if inner[j - 1] != x {
                    let m = choose|m: int|
                        0 <= m < t.drop_first().len() && t.drop_first()[m] == inner[j - 1];
                    assert(t[m + 1] == inner[j - 1]);
                }
            } else {
                assert(r[i] == inner[i - 1]);
                assert(r[j] == inner[j - 1]);
            }
        }
    }
}

proof fn lemma_insert_desc_multiset(t: Seq<ProcessInfo>, x: ProcessInfo)
    ensures
        insert_desc(t, x).to_multiset() == t.to_multiset().insert(x),
    decreases t.len(),
{
    broadcast use group_multiset_axioms;
    broadcast use to_multiset_build;
    broadcast use lemma_multiset_commutative;
    broadcast use vstd::seq_lib::group_to_multiset_ensures;
    broadcast use vstd::multiset::lemma_multiset_empty_len;

    if t.len() == 0 {
        assert(seq![x] =~= Seq::<ProcessInfo>::empty().push(x));
        assert(t.to_multiset().len() == 0);
        assert(t.to_multiset() =~= Multiset::<ProcessInfo>::empty());
        assert(Seq::<ProcessInfo>::empty().to_multiset() =~= Multiset::<ProcessInfo>::empty());
    } else if t[0].memory < x.memory {
        assert(seq![x] + t =~= (Seq::<ProcessInfo>::empty().push(x)) + t);
        assert(Seq::<ProcessInfo>::empty().to_multiset().len() == 0);
        assert(Seq::<ProcessInfo>::empty().to_multiset() =~= Multiset::<ProcessInfo>::empty());
        assert((Seq::<ProcessInfo>::empty().push(x)).to_multiset() =~= Multiset::<
            ProcessInfo,
        >::empty().insert(x));
        assert((seq![x] + t).to_multiset() =~= t.to_multiset().insert(x));
    } else {
        lemma_insert_desc_multiset(t.drop_first(), x);
        let inner = insert_desc(t.drop_first(), x);
        assert((seq![t[0]] + inner).to_multiset() == seq![t[0]].to_multiset().add(
            inner.to_multiset(),
        ));
        assert(seq![t[0]] =~= Seq::<ProcessInfo>::empty().push(t[0]));
        assert(t =~= seq![t[0]] + t.drop_first());
        assert((seq![t[0]] + t.drop_first()).to_multiset() == seq![t[0]].to_multiset().add(
            t.drop_first().to_multiset(),
        ));
        assert(seq![t[0]].to_multiset().add(inner.to_multiset()) =~= seq![t[0]].to_multiset().add(
            t.drop_first().to_multiset(),
        ).insert(x));
    }
}

/// Law: the displayed ranking is sorted by resident memory, descending.
pub proof fn lemma_ranking_sorted(s: Seq<ProcessInfo>)
    ensures
        sorted_desc(sort_desc(s)),
    decreases s.len(),
{
    if s.len() > 0 {
        lemma_ranking_sorted(s.drop_last());
        lemma_insert_desc_sorted(sort_desc(s.drop_last()), s.last());
    }
}

/// Law: the ranking is a permutation of the provider's process list —
/// nothing is added, dropped, or duplicated by sorting.
pub proof fn lemma_ranking_permutes(s: Seq<ProcessInfo>)
    ensures
        sort_desc(s).to_multiset() == s.to_multiset(),
    decreases s.len(),
{
    broadcast use group_multiset_axioms;
    broadcast use to_multiset_build;

    if s.len() == 0 {
        assert(s =~= Seq::<ProcessInfo>::empty());
        assert(sort_desc(s) == Seq::<ProcessInfo>::empty());
    } else {
        lemma_ranking_permutes(s.drop_last());
        lemma_insert_desc_multiset(sort_desc(s.drop_last()), s.last());
        assert(s =~= s.drop_last().push(s.last()));
        assert(s.drop_last().push(s.last()).to_multiset() == s.drop_last().to_multiset().insert(
            s.last(),
        ));
    }
}

proof fn lemma_no_match_filter_empty(t: Seq<ProcessInfo>, m: int)
    requires
        forall|k: int| 0 <= k < t.len() ==> (#[trigger] t[k]).memory as int != m,
    ensures
        t.filter(mem_eq(m)) == Seq::<ProcessInfo>::empty(),
    decreases t.len(),
{
    reveal_with_fuel(Seq::filter, 2);
    if t.len() == 0 {
    } else {
        lemma_no_match_filter_empty(t.drop_last(), m);
        assert(!mem_eq(m)(t.last()));
    }
}

proof fn lemma_filter_singleton(x: ProcessInfo, m: int)
    ensures
        seq![x].filter(mem_eq(m)) == if x.memory as int == m {
            seq![x]
        } else {
            Seq::<ProcessInfo>::empty()
        },
{
    reveal_with_fuel(Seq::filter, 2);
    assert(seq![x].drop_last() =~= Seq::<ProcessInfo>::empty());
    if x.memory as int == m {
        assert(seq![x].filter(mem_eq(m)) =~= seq![x]);
    } else {
        assert(seq![x].filter(mem_eq(m)) =~= Seq::<ProcessInfo>::empty());
    }
}

proof fn lemma_insert_desc_filter(t: Seq<ProcessInfo>, x: ProcessInfo, m: int)
    requires
        sorted_desc(t),
    ensures
        insert_desc(t, x).filter(mem_eq(m)) == if x.memory as int == m {
            t.filter(mem_eq(m)).push(x)
        } else {
            t.filter(mem_eq(m))
        },
    decreases t.len(),
{
    broadcast use vstd::prelude::Seq::filter_distributes_over_add;

    lemma_filter_singleton(x, m);
    if t.len() == 0 {
        reveal_with_fuel(Seq::filter, 1);
        assert(t.filter(mem_eq(m)) =~= Seq::<ProcessInfo>::empty());
        if x.memory as int == m {
            assert(insert_desc(t, x).filter(mem_eq(m)) =~= t.filter(mem_eq(m)).push(x));
        }
    } else if t[0].memory < x.memory {
        assert((seq![x] + t).filter(mem_eq(m)) == seq![x].filter(mem_eq(m)) + t.filter(mem_eq(m)));
        if x.memory as int == m {
            // every entry of t has strictly less memory than x, so none is a tie
            assert forall|k: int| 0 <= k < t.len() implies (#[trigger] t[k]).memory as int != m by {
                if k > 0 {
                    assert(t[0].memory >= t[k].memory);
                }
            }
            lemma_no_match_filter_empty(t, m);
            assert(seq![x] + Seq::<ProcessInfo>::empty() =~= Seq::<ProcessInfo>::empty().push(x));
        } else {
            assert(Seq::<ProcessInfo>::empty() + t.filter(mem_eq(m)) =~= t.filter(mem_eq(m)));
        }
    } else {
        assert(sorted_desc(t.drop_first())) by {
            assert forall|i: int, j: int|
                0 <= i < j < t.drop_first().len() implies t.drop_first()[i].memory
                >= t.drop_first()[j].memory by {
                assert(t.drop_first()[i] == t[i + 1]);
                assert(t.drop_first()[j] == t[j + 1]);
            }
        }
        lemma_insert_desc_filter(t.drop_first(), x, m);
        lemma_filter_singleton(t[0], m);
        let inner = insert_desc(t.drop_first(), x);
        assert((seq![t[0]] + inner).filter(mem_eq(m)) == seq![t[0]].filter(mem_eq(m))
            + inner.filter(mem_eq(m)));
        assert(t =~= seq![t[0]] + t.drop_first());
        assert(t.filter(mem_eq(m)) == seq![t[0]].filter(mem_eq(m)) + t.drop_first().filter(
            mem_eq(m),
        ));
        if x.memory as int == m {
            assert(seq![t[0]].filter(mem_eq(m)) + t.drop_first().filter(mem_eq(m)).push(x) =~= (
            seq![t[0]].filter(mem_eq(m)) + t.drop_first().filter(mem_eq(m))).push(x));
        }
    }
}

/// Law: the ranking is stable — for any memory value, the tied entries
/// appear in the ranking exactly as they appeared in the provider's list.
pub proof fn lemma_ranking_stable(s: Seq<ProcessInfo>, m: int)
    ensures
        sort_desc(s).filter(mem_eq(m)) == s.filter(mem_eq(m)),
    decreases s.len(),
{
    broadcast use vstd::prelude::Seq::filter_distributes_over_add;

    if s.len() == 0 {
        reveal_with_fuel(Seq::filter, 1);
    } else {
        lemma_ranking_stable(s.drop_last(), m);
        lemma_ranking_sorted(s.drop_last());
        lemma_insert_desc_filter(sort_desc(s.drop_last()), s.last(), m);
        lemma_filter_singleton(s.last(), m);
        assert(s =~= s.drop_last() + seq![s.last()]);
        assert(s.filter(mem_eq(m)) == s.drop_last().filter(mem_eq(m)) + seq![s.last()].filter(
            mem_eq(m),
        ));
        if s.last().memory as int == m {
            assert(s.drop_last().filter(mem_eq(m)) + seq![s.last()] =~= s.drop_last().filter(
                mem_eq(m),
            ).push(s.last()));
        } else {
            assert(s.drop_last().filter(mem_eq(m)) + Seq::<ProcessInfo>::empty()
                =~= s.drop_last().filter(mem_eq(m)));
        }
    }
}

/// Rank the provider's process list for display: stable sort by resident
/// memory descending, then keep the first ten (all, when fewer exist).
pub fn rank_top(procs: Vec<ProcessInfo>) -> (r: Vec<ProcessInfo>)
    ensures
        r@ == sort_desc(procs@).take(top_len(procs@.len() as int)),
        r@.len() == top_len(procs@.len() as int),
{
    let ghost orig = procs@;
    let mut v = procs;
    let n = v.len();
    let mut i: usize = 0;
    proof {
        assert(v@.take(0) =~= sort_desc(orig.take(0)));
        assert(v@.skip(0) =~= orig.skip(0));
    }
    while i < n
        invariant
            n == v@.len(),
            n == orig.len(),
            i <= n,
            v@.take(i as int) == sort_desc(orig.take(i as int)),
            v@.skip(i as int) == orig.skip(i as int),
        decreases n - i,
    {
        proof {
            assert(v@[i as int] == v@.skip(i as int)[0]);
            assert(v@[i as int] == orig[i as int]);
        }
        let key = v[i].memory;
        let ghost t = sort_desc(orig.take(i as int));
        let mut j: usize = 0;
        while j < i && v[j].memory >= key
            invariant
                i < n,
                n == v@.len(),
                j <= i,
                v@.take(i as int) == t,
                forall|k: int| 0 <= k < j ==> (#[trigger] v@[k]).memory >= key,
            decreases i - j,
        {
            j = j + 1;
        }
        proof {
            // the insertion point: everything before it ties or beats the
            // key, and the entry at it (if any) is strictly below the key
            assert forall|k: int| 0 <= k < j implies (#[trigger] t[k]).memory >= key by {
                assert(t[k] == v@.take(i as int)[k]);
            }
            assert(j < i ==> t[j as int].memory < key) by {
                if j < i {
                    assert(t[j as int] == v@.take(i as int)[j as int]);
                }
            }
        }
        let x = v.remove(i);
        v.insert(j, x);
        proof {
            assert(x == orig[i as int]);
            assert(x.memory == key);
            lemma_insert_desc_len(t, x);
            lemma_insert_desc_at(t, x, j as int);
            // the vector now carries the sorted prefix one longer, with the
            // unsorted tail untouched
            let w = v@;
            assert(w =~= t.insert(j as int, x) + orig.skip(i as int + 1)) by {
                assert(orig.skip(i as int).drop_first() =~= orig.skip(i as int + 1));
            }
            assert(orig.take(i as int + 1).drop_last() =~= orig.take(i as int));
            assert(orig.take(i as int + 1).last() == orig[i as int]);
            assert(sort_desc(orig.take(i as int + 1)) == insert_desc(t, x));
            assert(w.take(i as int + 1) =~= insert_desc(t, x));
            assert(w.skip(i as int + 1) =~= orig.skip(i as int + 1));
        }
        i = i + 1;
    }
    proof {
        assert(v@.take(n as int) =~= v@);
        assert(orig.take(n as int) =~= orig);
        assert(v@ == sort_desc(orig));
    }
    v.truncate(10);
    proof {
        if n <= 10 {
            assert(sort_desc(orig).take(top_len(orig.len() as int)) =~= sort_desc(orig));
        } else {
            lemma_sort_desc_len(orig);
            assert(sort_desc(orig).subrange(0, 10) =~= sort_desc(orig).take(
                top_len(orig.len() as int),
            ));
        }
    }
    v
}

/// Law: sorting changes no length — the ranking has exactly one entry
/// per process the provider reported.
pub proof fn lemma_sort_desc_len(s: Seq<ProcessInfo>)
    ensures
        sort_desc(s).len() == s.len(),
    decreases s.len(),
{
    if s.len() > 0 {
        lemma_sort_desc_len(s.drop_last());
        lemma_insert_desc_len(sort_desc(s.drop_last()), s.last());
    }
}

proof fn lemma_insert_desc_at(t: Seq<ProcessInfo>, x: ProcessInfo, j: int)
    requires
        0 <= j <= t.len(),
        forall|k: int| 0 <= k < j ==> (#[trigger] t[k]).memory >= x.memory,
        j < t.len() ==> t[j].memory < x.memory,
    ensures
        insert_desc(t, x) == t.insert(j, x),
    decreases t.len(),
{
    if j == 0 {
        if t.len() == 0 {
            assert(insert_desc(t, x) =~= t.insert(0, x));
        } else {
            assert(t[0].memory < x.memory);
            assert(insert_desc(t, x) =~= t.insert(0, x));
        }
    } else {
        assert(t[0].memory >= x.memory);
        assert forall|k: int| 0 <= k < j - 1 implies (#[trigger] t.drop_first()[k]).memory
            >= x.memory by {
            assert(t.drop_first()[k] == t[k + 1]);
        }
        assert(j - 1 < t.drop_first().len() ==> t.drop_first()[j - 1].memory < x.memory) by {
            if j - 1 < t.drop_first().len() {
                assert(t.drop_first()[j - 1] == t[j]);
            }
        }
        lemma_insert_desc_at(t.drop_first(), x, j - 1);
        lemma_insert_desc_len(t.drop_first(), x);
        assert(insert_desc(t, x) =~= t.insert(j, x));
    }
}

} // verus!
