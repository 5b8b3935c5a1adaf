//! The Counts Mapping: occurrence counts of extracted string contents, keyed
//! by content and ordered by first occurrence.

use vstd::prelude::*;
use vstd::seq_lib::*;

verus! {

/// Content/count pairs, seen at the specification level.
pub open spec fn pairs_view(v: Seq<(String, u64)>) -> Seq<(Seq<char>, u64)> {
    v.map_values(|p: (String, u64)| (p.0@, p.1))
}

/// The predicate satisfied by exactly the character sequences equal to `k`.
pub open spec fn eq_to(k: Seq<char>) -> spec_fn(Seq<char>) -> bool {
    |x: Seq<char>| x == k
}

/// How often `k` occurs in `s`.
pub open spec fn count_in(s: Seq<Seq<char>>, k: Seq<char>) -> nat {
    s.filter(eq_to(k)).len()
}

/// The distinct elements of `s`, in order of their first occurrence.
pub open spec fn first_occurrences(s: Seq<Seq<char>>) -> Seq<Seq<char>>
    decreases s.len(),
{
    if s.len() == 0 {
        Seq::empty()
    } else {
        let rest = first_occurrences(s.drop_last());
        if rest.contains(s.last()) {
            rest
        } else {
            rest.push(s.last())
        }
    }
}

/// The counts mapping that aggregating `s` front to back produces: one entry
/// per distinct element, keyed in order of first occurrence, each carrying
/// the element's occurrence count.
pub open spec fn counts_entries(s: Seq<Seq<char>>) -> Seq<(Seq<char>, u64)> {
    first_occurrences(s).map_values(|k: Seq<char>| (k, count_in(s, k) as u64))
}

/// The Counts Mapping read as a mapping alone, with the key order forgotten.
pub open spec fn counts_map_of(s: Seq<Seq<char>>) -> Map<Seq<char>, nat> {
    Map::new(|k: Seq<char>| s.contains(k), |k: Seq<char>| count_in(s, k))
}

/// The values extracted with success, in buffer order: extraction failures
/// are skipped, one bad object must not abort the report.
pub open spec fn some_values(vals: Seq<Option<Seq<char>>>) -> Seq<Seq<char>>
    decreases vals.len(),
{
    if vals.len() == 0 {
        Seq::empty()
    } else {
        let rest = some_values(vals.drop_last());
        match vals.last() {
            Some(v) => rest.push(v),
            None => rest,
        }
    }
}

/// The index of the first entry of `m` whose key is `k`, or -1 if no entry
/// has that key.
pub open spec fn find_key(m: Seq<(Seq<char>, u64)>, k: Seq<char>) -> int
    decreases m.len(),
{
    if m.len() == 0 {
        -1
    } else if m.first().0 == k {
        0
    } else {
        let r = find_key(m.drop_first(), k);
        if r == -1 {
            -1
        } else {
            r + 1
        }
    }
}

/// The entry holding `k`, if any, has room for one more occurrence.
pub open spec fn can_bump(m: Seq<(Seq<char>, u64)>, k: Seq<char>) -> bool {
    find_key(m, k) != -1 ==> m[find_key(m, k)].1 < u64::MAX
}

/// The counts mapping after one more occurrence of `k`: the entry holding `k`
/// is incremented, or a fresh entry `(k, 1)` is appended when none holds it.
pub open spec fn bump(m: Seq<(Seq<char>, u64)>, k: Seq<char>) -> Seq<(Seq<char>, u64)> {
    let i = find_key(m, k);
    if i == -1 {
        m.push((k, 1u64))
    } else {
        m.update(i, (k, (m[i].1 + 1) as u64))
    }
}

/// A sequence extended by one element contains exactly its old elements and
/// the new one.
pub proof fn lemma_push_contains<A>(s: Seq<A>, x: A, k: A)
    ensures
        s.push(x).contains(k) <==> s.contains(k) || x == k,
{
    if s.contains(k) {
        let i = choose|i: int| 0 <= i < s.len() && s[i] == k;
        assert(s.push(x)[i] == k);
    }
    if x == k {
        assert(s.push(x)[s.len() as int] == k);
    }
    if s.push(x).contains(k) {
        let i = choose|i: int| 0 <= i < s.push(x).len() && s.push(x)[i] == k;
        if i < s.len() {
            assert(s[i] == k);
        }
    }
}

/// Filtering a sequence extended by one element keeps the old filtered part
/// and appends the new element exactly when it satisfies the predicate.
pub proof fn lemma_filter_push<A>(s: Seq<A>, pred: spec_fn(A) -> bool, x: A)
    ensures
        s.push(x).filter(pred) == if pred(x) {
            s.filter(pred).push(x)
        } else {
            s.filter(pred)
        },
{
    reveal(Seq::filter);
    assert(s.push(x).drop_last() =~= s);
    assert(s.push(x).last() == x);
}

/// Every element of a filtered sequence occurs in the sequence it was
/// filtered from.
pub proof fn lemma_filter_subset<A>(s: Seq<A>, pred: spec_fn(A) -> bool)
    ensures
        forall|i: int|
            0 <= i < s.filter(pred).len() ==> s.contains(#[trigger] s.filter(pred)[i]),
    decreases s.len(),
{
    reveal(Seq::filter);
    if s.len() > 0 {
        let d = s.drop_last();
        lemma_filter_subset(d, pred);
        assert forall|i: int| 0 <= i < s.filter(pred).len() implies s.contains(
            #[trigger] s.filter(pred)[i],
        ) by {
            if i < d.filter(pred).len() {
                assert(d.contains(d.filter(pred)[i]));
                let e = d.filter(pred)[i];
                let j = choose|j: int| 0 <= j < d.len() && d[j] == e;
                assert(s[j] == e);
            } else {
                assert(s.filter(pred)[i] == s.last());
                assert(s[s.len() - 1] == s.last());
            }
        }
    }
}

/// An element occurs in a sequence exactly when its occurrence count is
/// positive.
pub proof fn lemma_count_in_positive(s: Seq<Seq<char>>, k: Seq<char>)
    ensures
        count_in(s, k) > 0 <==> s.contains(k),
{
    let pred = eq_to(k);
    if s.contains(k) {
        let i = choose|i: int| 0 <= i < s.len() && s[i] == k;
        s.lemma_filter_contains(pred, i);
        assert(s.filter(pred).contains(k));
        let j = choose|j: int| 0 <= j < s.filter(pred).len() && s.filter(pred)[j] == k;
        assert(count_in(s, k) > 0);
    }
    if count_in(s, k) > 0 {
        s.lemma_filter_pred(pred, 0);
        lemma_filter_subset(s, pred);
        assert(s.contains(s.filter(pred)[0]));
        assert(s.filter(pred)[0] == k);
    }
}

/// An occurrence count is never larger than the length of the sequence it
/// was counted over.
pub proof fn lemma_count_in_le_len(s: Seq<Seq<char>>, k: Seq<char>)
    ensures
        count_in(s, k) <= s.len(),
{
    s.lemma_filter_len(eq_to(k));
}

/// Adding one element raises its own count by one and leaves every other
/// count unchanged.
pub proof fn lemma_count_in_push(s: Seq<Seq<char>>, x: Seq<char>, k: Seq<char>)
    ensures
        count_in(s.push(x), k) == if k == x {
            count_in(s, k) + 1
        } else {
            count_in(s, k)
        },
{
    lemma_filter_push(s, eq_to(k), x);
}

/// The occurrence count equals the multiset multiplicity: counting looks at
/// how often an element is present, not where.
pub proof fn lemma_count_in_multiset(s: Seq<Seq<char>>, k: Seq<char>)
    ensures
        count_in(s, k) == s.to_multiset().count(k),
    decreases s.len(),
{
    broadcast use vstd::seq_lib::group_to_multiset_ensures;

    if s.len() == 0 {
        reveal(Seq::filter);
        if s.to_multiset().count(k) > 0 {
            assert(s.contains(k));
        }
    } else {
        let d = s.drop_last();
        lemma_count_in_multiset(d, k);
        lemma_count_in_push(d, s.last(), k);
        assert(d.push(s.last()) =~= s);
        assert(d.push(s.last()).to_multiset() =~= d.to_multiset().insert(s.last()));
        vstd::multiset::lemma_insert_increases_count_by_1(d.to_multiset(), s.last());
        if k != s.last() {
            vstd::multiset::lemma_insert_other_elements_unchanged(d.to_multiset(), s.last(), k);
        }
    }
}

/// First occurrences keep exactly the elements of the sequence.
pub proof fn lemma_first_occurrences_contains(s: Seq<Seq<char>>, k: Seq<char>)
    ensures
        first_occurrences(s).contains(k) <==> s.contains(k),
    decreases s.len(),
{
    if s.len() > 0 {
        let d = s.drop_last();
        lemma_first_occurrences_contains(d, k);
        let rest = first_occurrences(d);
        assert(d.push(s.last()) =~= s);
        lemma_push_contains(d, s.last(), k);
        if rest.contains(s.last()) {
            assert(first_occurrences(s) == rest);
        } else {
            assert(first_occurrences(s) == rest.push(s.last()));
            lemma_push_contains(rest, s.last(), k);
        }
    }
}

/// No element appears twice among the first occurrences.
pub proof fn lemma_first_occurrences_distinct(s: Seq<Seq<char>>)
    ensures
        forall|i: int, j: int|
            0 <= i < j < first_occurrences(s).len() ==> first_occurrences(s)[i]
                != first_occurrences(s)[j],
    decreases s.len(),
{
    if s.len() > 0 {
        let d = s.drop_last();
        lemma_first_occurrences_distinct(d);
        let rest = first_occurrences(d);
        if !rest.contains(s.last()) {
            assert forall|i: int, j: int|
                0 <= i < j < first_occurrences(s).len() implies first_occurrences(s)[i]
                != first_occurrences(s)[j] by {
                if j == rest.len() {
                    assert(rest.contains(rest[i]));
                }
            }
        }
    }
}

/// `find_key` returns the first entry holding the key, and -1 exactly when
/// no entry holds it.
pub proof fn lemma_find_key(m: Seq<(Seq<char>, u64)>, k: Seq<char>)
    ensures
        find_key(m, k) == -1 ==> forall|i: int| 0 <= i < m.len() ==> (#[trigger] m[i]).0 != k,
        find_key(m, k) != -1 ==> 0 <= find_key(m, k) < m.len() && m[find_key(m, k)].0 == k
            && forall|i: int| 0 <= i < find_key(m, k) ==> (#[trigger] m[i]).0 != k,
    decreases m.len(),
{
    if m.len() > 0 && m.first().0 != k {
        let d = m.drop_first();
        lemma_find_key(d, k);
        assert forall|i: int| 1 <= i < m.len() implies m[i] == d[i - 1] by {}
        let r = find_key(d, k);
        if r == -1 {
            assert forall|i: int| 0 <= i < m.len() implies (#[trigger] m[i]).0 != k by {
                if i == 0 {
                    assert(m[0] == m.first());
                } else {
                    assert(d[i - 1].0 != k);
                    assert(m[i] == d[i - 1]);
                }
            }
        } else {
            assert(m[r + 1] == d[r]);
            assert forall|i: int| 0 <= i < r + 1 implies (#[trigger] m[i]).0 != k by {
                if i == 0 {
                    assert(m[0] == m.first());
                } else {
                    assert(d[i - 1].0 != k);
                    assert(m[i] == d[i - 1]);
                }
            }
        }
    }
}

/// Aggregating one more value bumps its entry in the counts mapping.
pub proof fn lemma_counts_entries_push(s: Seq<Seq<char>>, x: Seq<char>)
    requires
        s.len() < u64::MAX,
    ensures
        counts_entries(s.push(x)) == bump(counts_entries(s), x),
{
    let f = first_occurrences(s);
    let sx = s.push(x);
    assert(sx.drop_last() =~= s);
    let fx = first_occurrences(sx);
    let m = counts_entries(s);
    let mx = counts_entries(sx);
    lemma_first_occurrences_distinct(s);
    lemma_first_occurrences_contains(s, x);
    lemma_find_key(m, x);
    assert(m.len() == f.len());
    assert forall|i: int| 0 <= i < f.len() implies count_in(s, #[trigger] f[i]) <= s.len() by {
        lemma_count_in_le_len(s, f[i]);
    }
    assert forall|i: int| 0 <= i < f.len() implies count_in(sx, #[trigger] f[i]) == if f[i] == x {
        count_in(s, f[i]) + 1
    } else {
        count_in(s, f[i])
    } by {
        lemma_count_in_push(s, x, f[i]);
    }
    if f.contains(x) {
        assert(fx == f);
        let i0 = find_key(m, x);
        assert(i0 != -1) by {
            if i0 == -1 {
                let j = choose|j: int| 0 <= j < f.len() && f[j] == x;
                assert(m[j].0 == x);
            }
        }
        assert(m[i0].0 == x);
        assert(f[i0] == x);
        assert forall|i: int| 0 <= i < fx.len() implies #[trigger] mx[i] == bump(m, x)[i] by {
            if i != i0 {
                assert(f[i] != x);
            }
        }
        assert(mx =~= bump(m, x));
    } else {
        assert(fx == f.push(x));
        assert(find_key(m, x) == -1) by {
            if find_key(m, x) != -1 {
                assert(f[find_key(m, x)] == m[find_key(m, x)].0);
                assert(f.contains(f[find_key(m, x)]));
            }
        }
        assert(count_in(s, x) == 0) by {
            lemma_count_in_positive(s, x);
        }
        lemma_count_in_push(s, x, x);
        assert forall|i: int| 0 <= i < fx.len() implies #[trigger] mx[i] == bump(m, x)[i] by {
            if i < f.len() {
                assert(f.contains(f[i]));
                assert(f[i] != x);
                assert(fx[i] == f[i]);
            } else {
                assert(fx[i] == x);
            }
        }
        assert(mx =~= bump(m, x));
    }
}

/// Looking a key up in the counts mapping of `s` finds it exactly when `s`
/// holds it, with its occurrence count.
pub proof fn lemma_counts_entries_lookup(s: Seq<Seq<char>>, k: Seq<char>)
    ensures
        find_key(counts_entries(s), k) != -1 <==> s.contains(k),
        s.contains(k) ==> counts_entries(s)[find_key(counts_entries(s), k)].1 == count_in(s, k) as u64,
{
    let f = first_occurrences(s);
    let m = counts_entries(s);
    lemma_first_occurrences_contains(s, k);
    lemma_find_key(m, k);
    if find_key(m, k) != -1 {
        assert(f[find_key(m, k)] == m[find_key(m, k)].0);
        assert(f.contains(f[find_key(m, k)]));
    }
    if s.contains(k) {
        let j = choose|j: int| 0 <= j < f.len() && f[j] == k;
        assert(m[j].0 == k);
        assert(find_key(m, k) != -1) by {
            if find_key(m, k) == -1 {
                assert(m[j].0 != k);
            }
        }
        assert(m[find_key(m, k)].1 == count_in(s, k) as u64);
    }
}

/// The entries of a counts mapping, read as a mapping from key to count.
pub open spec fn entries_as_map(m: Seq<(Seq<char>, u64)>) -> Map<Seq<char>, nat> {
    Map::new(|k: Seq<char>| find_key(m, k) != -1, |k: Seq<char>| m[find_key(m, k)].1 as nat)
}

/// The mapping read off the aggregated entries of `s` is the Counts Mapping
/// of `s`.
pub proof fn lemma_counts_entries_as_map(s: Seq<Seq<char>>)
    requires
        s.len() <= u64::MAX,
    ensures
        entries_as_map(counts_entries(s)) == counts_map_of(s),
{
    assert forall|k: Seq<char>| #[trigger]
        find_key(counts_entries(s), k) != -1 <==> s.contains(k) by {
        lemma_counts_entries_lookup(s, k);
    }
    assert forall|k: Seq<char>| s.contains(k) implies counts_entries(s)[find_key(
        counts_entries(s),
        k,
    )].1 as nat == count_in(s, k) by {
        lemma_counts_entries_lookup(s, k);
        lemma_count_in_le_len(s, k);
    }
    assert(entries_as_map(counts_entries(s)) =~= counts_map_of(s));
}

/// Aggregation is order-independent: two buffers that hold the same values
/// the same number of times, in whatever order, produce the same Counts
/// Mapping.
pub proof fn lemma_aggregation_order_independent(s1: Seq<Seq<char>>, s2: Seq<Seq<char>>)
    requires
        s1.to_multiset() == s2.to_multiset(),
    ensures
        counts_map_of(s1) == counts_map_of(s2),
{
    broadcast use vstd::seq_lib::group_to_multiset_ensures;

    assert forall|k: Seq<char>| #[trigger] count_in(s1, k) == count_in(s2, k) by {
        lemma_count_in_multiset(s1, k);
        lemma_count_in_multiset(s2, k);
    }
    assert forall|k: Seq<char>| #[trigger] s1.contains(k) <==> s2.contains(k) by {
        lemma_count_in_positive(s1, k);
        lemma_count_in_positive(s2, k);
        assert(count_in(s1, k) == count_in(s2, k));
    }
    assert(counts_map_of(s1) =~= counts_map_of(s2));
}

/// A mapping from string content to its occurrence count, with the entries
/// held in order of first insertion. This is the aggregation engine's
/// output: built once, from the extracted contents of one collection pass,
/// and immutable thereafter.
pub struct CountsMap {
    entries: Vec<(String, u64)>,
}

impl View for CountsMap {
    type V = Seq<(Seq<char>, u64)>;

    closed spec fn view(&self) -> Seq<(Seq<char>, u64)> {
        pairs_view(self.entries@)
    }
}

impl CountsMap {
    pub fn new() -> (m: CountsMap)
        ensures
            m@ == Seq::<(Seq<char>, u64)>::empty(),
    {
        let m = CountsMap { entries: Vec::new() };
        proof {
            assert(m@ =~= Seq::<(Seq<char>, u64)>::empty());
        }
        m
    }

    pub fn len(&self) -> (n: usize)
        ensures
            n == self@.len(),
    {
        self.entries.len()
    }

    /// The entry at `i`, as a fresh pair.
    pub fn entry(&self, i: usize) -> (p: (String, u64))
        requires
            i < self@.len(),
        ensures
            (p.0@, p.1) == self@[i as int],
    {
        let e = &self.entries[i];
        (e.0.clone(), e.1)
    }

    /// The entries as a fresh vector, in mapping order.
    pub fn to_vec(&self) -> (v: Vec<(String, u64)>)
        ensures
            pairs_view(v@) == self@,
    {
        let n = self.entries.len();
        let mut v: Vec<(String, u64)> = Vec::new();
        proof {
            assert(pairs_view(v@) =~= self@.take(0));
        }
        let mut i: usize = 0;
        while i < n
            invariant
                n == self.entries.len(),
                i <= n,
                pairs_view(v@) == self@.take(i as int),
            decreases n - i,
        {
            let s0 = self.entries[i].0.clone();
            let c0 = self.entries[i].1;
            let ghost vprev = v@;
            v.push((s0, c0));
            proof {
                assert(v@ == vprev.push((s0, c0)));
                assert(pairs_view(vprev).len() == vprev.len());
                assert(vprev.len() == i);
                assert(pairs_view(v@).last() == self@[i as int]);
                assert forall|j: int| 0 <= j < i implies pairs_view(v@)[j] == self@[j] by {
                    assert(v@[j] == vprev[j]);
                    assert(pairs_view(vprev)[j] == self@.take(i as int)[j]);
                }
                assert(pairs_view(v@) =~= self@.take(i as int + 1));
            }
            i = i + 1;
        }
        proof {
            assert(self@.take(n as int) =~= self@);
        }
        v
    }

    /// Record one more occurrence of `value`.
    pub fn increment(&mut self, value: String)
        requires
            can_bump(old(self)@, value@),
        ensures
            final(self)@ == bump(old(self)@, value@),
    {
        let n = self.entries.len();
        let mut i: usize = 0;
        while i < n
            invariant
                *self == *old(self),
                can_bump(old(self)@, value@),
                n == self.entries.len(),
                i <= n,
                forall|j: int| 0 <= j < i ==> (#[trigger] self@[j]).0 != value@,
            decreases n - i,
        {
            if self.entries[i].0.eq(&value) {
                proof {
                    // This is the first entry holding the key, so `bump`
                    // updates exactly here, and the requires bounds its count.
                    assert(self@[i as int].0 == value@);
                    lemma_find_key(self@, value@);
                    let k = find_key(self@, value@);
                    if k < i as int {
                        assert(self@[k].0 != value@);
                    }
                    if k > i as int {
                        assert(self@[i as int].0 != value@);
                    }
                    assert(k == i as int);
                    assert(self@ == old(self)@);
                    assert(self.entries@[i as int].1 == self@[i as int].1);
                    assert(self@[i as int].1 < u64::MAX);
                }
                let c = self.entries[i].1;
                self.entries[i].1 = c + 1;
                proof {
                    assert(self@ =~= bump(old(self)@, value@));
                }
                return ;
            }
            i = i + 1;
        }
        proof {
            lemma_find_key(self@, value@);
            let k = find_key(self@, value@);
            if k != -1 {
                assert(self@[k].0 != value@);
            }
        }
        self.entries.push((value, 1));
        proof {
            assert(self@ =~= bump(old(self)@, value@));
        }
    }

    /// Build the Counts Mapping from the values extracted out of one
    /// collection pass's buffer: failed extractions are skipped, each
    /// successful one raises its content's count by one.
    pub fn from_extracted(values: &Vec<Option<String>>) -> (m: CountsMap)
        ensures
            m@ == counts_entries(some_values(values.deep_view())),
    {
        let ghost vals = values.deep_view();
        let mut m = CountsMap::new();
        let n = values.len();
        proof {
            assert(vals.take(0) =~= Seq::<Option<Seq<char>>>::empty());
            assert(m@ =~= counts_entries(some_values(vals.take(0))));
        }
        let mut i: usize = 0;
        while i < n
            invariant
                n == values.len(),
                vals == values.deep_view(),
                vals.len() == n,
                i <= n,
                m@ == counts_entries(some_values(vals.take(i as int))),
            decreases n - i,
        {
            let ghost sv = some_values(vals.take(i as int));
            proof {
                assert(vals.take(i as int + 1).drop_last() =~= vals.take(i as int));
                assert(vals.take(i as int + 1).last() == vals[i as int]);
                assert(vals[i as int] == values@[i as int].deep_view());
            }
            match &values[i] {
                Some(s) => {
                    proof {
                        assert(some_values(vals.take(i as int + 1)) == sv.push(s@));
                        lemma_some_values_len(vals.take(i as int));
                        assert(sv.len() <= i);
                        lemma_counts_entries_push(sv, s@);
                        lemma_counts_entries_lookup(sv, s@);
                        if find_key(m@, s@) != -1 {
                            lemma_count_in_le_len(sv, s@);
                        }
                    }
                    m.increment(s.clone());
                },
                None => {
                    proof {
                        assert(some_values(vals.take(i as int + 1)) == sv);
                    }
                },
            }
            i = i + 1;
        }
        proof {
            assert(vals.take(n as int) =~= vals);
        }
        m
    }
}

/// There are never more extracted values than extraction attempts.
pub proof fn lemma_some_values_len(vals: Seq<Option<Seq<char>>>)
    ensures
        some_values(vals).len() <= vals.len(),
    decreases vals.len(),
{
    if vals.len() > 0 {
        lemma_some_values_len(vals.drop_last());
    }
}

} // verus!
