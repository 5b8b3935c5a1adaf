//! Ranking: order the Counts Mapping by count descending, keeping entries of
//! equal count in mapping order, so that the tie-break is deterministic.

use vstd::prelude::*;
use itertools::Itertools;
use crate::counts::CountsMap;
use crate::counts::lemma_filter_subset;
use crate::counts::pairs_view;

verus! {

/// The predicate satisfied by exactly the entries whose count is `c`.
pub open spec fn count_pred(c: u64) -> spec_fn((Seq<char>, u64)) -> bool {
    |p: (Seq<char>, u64)| p.1 == c
}

/// The entries of `s` whose count is `c`, in their order in `s`.
pub open spec fn with_count(s: Seq<(Seq<char>, u64)>, c: u64) -> Seq<(Seq<char>, u64)> {
    s.filter(count_pred(c))
}

/// Counts never increase along the sequence.
pub open spec fn sorted_desc(s: Seq<(Seq<char>, u64)>) -> bool {
    forall|i: int, j: int| 0 <= i <= j < s.len() ==> (#[trigger] s[i]).1 >= (#[trigger] s[j]).1
}

/// `a` is a stable reordering of `b`: for every count, the entries carrying
/// that count stand in the same order on both sides.
pub open spec fn same_per_count(a: Seq<(Seq<char>, u64)>, b: Seq<(Seq<char>, u64)>) -> bool {
    forall|c: u64| #[trigger] with_count(a, c) == with_count(b, c)
}

/// Relies on itertools' `sorted_by`: a stable sort of the iterator's items by
/// the given comparator (it collects the items into a vector and uses
/// `slice::sort_by`, which the standard library documents as stable).
/// Comparing the count fields reversed yields count-descending order with
/// ties left in input order.
#[verifier::external_body]
fn sorted_by_count_desc(v: Vec<(String, u64)>) -> (r: Vec<(String, u64)>)
    ensures
        sorted_desc(pairs_view(r@)),
        same_per_count(pairs_view(r@), pairs_view(v@)),
{
    v.into_iter().sorted_by(|a, b| b.1.cmp(&a.1)).collect()
}

/// Rank a Counts Mapping: entries by count descending, entries of equal
/// count in mapping order.
pub fn rank(m: &CountsMap) -> (r: Vec<(String, u64)>)
    ensures
        sorted_desc(pairs_view(r@)),
        same_per_count(pairs_view(r@), m@),
{
    let v = m.to_vec();
    sorted_by_count_desc(v)
}

/// Filtering looks at the first element and then at the rest.
proof fn lemma_filter_unfold_front<A>(s: Seq<A>, pred: spec_fn(A) -> bool)
    requires
        s.len() > 0,
    ensures
        s.filter(pred) == if pred(s[0]) {
            seq![s[0]] + s.drop_first().filter(pred)
        } else {
            s.drop_first().filter(pred)
        },
    decreases s.len(),
{
    reveal(Seq::filter);
    if s.len() == 1 {
        assert(s.drop_last() =~= Seq::<A>::empty());
        assert(s.drop_first() =~= Seq::<A>::empty());
        assert(s.last() == s[0]);
        if pred(s[0]) {
            assert(s.filter(pred) =~= seq![s[0]] + s.drop_first().filter(pred));
        }
    } else {
        let d = s.drop_last();
        lemma_filter_unfold_front(d, pred);
        assert(s.drop_first().drop_last() =~= d.drop_first());
        assert(s.drop_first().len() > 0);
        assert(s.drop_first().last() == s.last());
        assert(d[0] == s[0]);
        if pred(s[0]) {
            if pred(s.last()) {
                assert(s.filter(pred) == d.filter(pred).push(s.last()));
                assert((seq![s[0]] + d.drop_first().filter(pred)).push(s.last()) =~= seq![s[0]]
                    + d.drop_first().filter(pred).push(s.last()));
            }
        }
    }
}

/// A sequence whose head is severed leaves its tail.
proof fn lemma_cons_drop_first<A>(x: A, t: Seq<A>)
    ensures
        (seq![x] + t).drop_first() == t,
        (seq![x] + t)[0] == x,
        (seq![x] + t).len() == t.len() + 1,
{
    assert((seq![x] + t).drop_first() =~= t);
}

/// At most one sequence is sorted by count descending and keeps, for every
/// count, a given order of the entries carrying that count: the ranked
/// report is fully determined by the Counts Mapping.
pub proof fn lemma_stable_sorted_unique(a: Seq<(Seq<char>, u64)>, b: Seq<(Seq<char>, u64)>)
    requires
        sorted_desc(a),
        sorted_desc(b),
        same_per_count(a, b),
    ensures
        a == b,
    decreases a.len(),
{
    reveal(Seq::filter);
    if a.len() == 0 && b.len() == 0 {
        assert(a =~= b);
    } else if a.len() == 0 {
        let c = b[0].1;
        lemma_filter_unfold_front(b, count_pred(c));
        lemma_cons_drop_first(b[0], b.drop_first().filter(count_pred(c)));
        assert(with_count(b, c).len() > 0);
        assert(with_count(a, c).len() == 0);
        assert(false);
    } else if b.len() == 0 {
        let c = a[0].1;
        lemma_filter_unfold_front(a, count_pred(c));
        lemma_cons_drop_first(a[0], a.drop_first().filter(count_pred(c)));
        assert(with_count(a, c).len() > 0);
        assert(with_count(b, c).len() == 0);
        assert(false);
    } else {
        let ca = a[0].1;
        let cb = b[0].1;
        assert(cb >= ca) by {
            lemma_filter_unfold_front(a, count_pred(ca));
            lemma_cons_drop_first(a[0], a.drop_first().filter(count_pred(ca)));
            assert(with_count(a, ca).len() > 0);
            assert(with_count(b, ca).len() > 0);
            lemma_filter_subset(b, count_pred(ca));
            assert(b.contains(with_count(b, ca)[0]));
            b.lemma_filter_pred(count_pred(ca), 0);
            let j = choose|j: int| 0 <= j < b.len() && b[j] == with_count(b, ca)[0];
            assert(b[j].1 == ca);
            assert(b[0].1 >= b[j].1);
        }
        assert(ca >= cb) by {
            lemma_filter_unfold_front(b, count_pred(cb));
            lemma_cons_drop_first(b[0], b.drop_first().filter(count_pred(cb)));
            assert(with_count(b, cb).len() > 0);
            assert(with_count(a, cb).len() > 0);
            lemma_filter_subset(a, count_pred(cb));
            assert(a.contains(with_count(a, cb)[0]));
            a.lemma_filter_pred(count_pred(cb), 0);
            let j = choose|j: int| 0 <= j < a.len() && a[j] == with_count(a, cb)[0];
            assert(a[j].1 == cb);
            assert(a[0].1 >= a[j].1);
        }
        let c = ca;
        let at = a.drop_first();
        let bt = b.drop_first();
        assert(a[0] == b[0]) by {
            lemma_filter_unfold_front(a, count_pred(c));
            lemma_filter_unfold_front(b, count_pred(c));
            lemma_cons_drop_first(a[0], at.filter(count_pred(c)));
            lemma_cons_drop_first(b[0], bt.filter(count_pred(c)));
            assert(with_count(a, c)[0] == a[0]);
            assert(with_count(b, c)[0] == b[0]);
        }
        assert(sorted_desc(at)) by {
            assert forall|i: int, j: int| 0 <= i <= j < at.len() implies (#[trigger] at[i]).1
                >= (#[trigger] at[j]).1 by {
                assert(at[i] == a[i + 1]);
                assert(at[j] == a[j + 1]);
            }
        }
        assert(sorted_desc(bt)) by {
            assert forall|i: int, j: int| 0 <= i <= j < bt.len() implies (#[trigger] bt[i]).1
                >= (#[trigger] bt[j]).1 by {
                assert(bt[i] == b[i + 1]);
                assert(bt[j] == b[j + 1]);
            }
        }
        assert(same_per_count(at, bt)) by {
            assert forall|c2: u64| #[trigger] with_count(at, c2) == with_count(bt, c2) by {
                lemma_filter_unfold_front(a, count_pred(c2));
                lemma_filter_unfold_front(b, count_pred(c2));
                assert(with_count(a, c2) == with_count(b, c2));
                if c2 == c {
                    lemma_cons_drop_first(a[0], at.filter(count_pred(c2)));
                    lemma_cons_drop_first(b[0], bt.filter(count_pred(c2)));
                    assert(with_count(at, c2) =~= with_count(a, c2).drop_first());
                    assert(with_count(bt, c2) =~= with_count(b, c2).drop_first());
                }
            }
        }
        lemma_stable_sorted_unique(at, bt);
        assert(a =~= b) by {
            assert(a.len() == at.len() + 1);
            assert(b.len() == bt.len() + 1);
            assert forall|i: int| 0 <= i < a.len() implies a[i] == b[i] by {
                if i > 0 {
                    assert(at[i - 1] == bt[i - 1]);
                    assert(a[i] == at[i - 1]);
                    assert(b[i] == bt[i - 1]);
                }
            }
        }
    }
}

/// Ranking is stable under count ties: the ranking contract determines one
/// sequence, so re-running ranking on the same Counts Mapping yields the
/// same sequence.
pub proof fn lemma_ranking_deterministic(
    m: Seq<(Seq<char>, u64)>,
    r1: Seq<(Seq<char>, u64)>,
    r2: Seq<(Seq<char>, u64)>,
)
    requires
        sorted_desc(r1),
        same_per_count(r1, m),
        sorted_desc(r2),
        same_per_count(r2, m),
    ensures
        r1 == r2,
{
    assert forall|c: u64| #[trigger] with_count(r1, c) == with_count(r2, c) by {
        assert(with_count(r1, c) == with_count(m, c));
        assert(with_count(r2, c) == with_count(m, c));
    }
    lemma_stable_sorted_unique(r1, r2);
}

} // verus!
