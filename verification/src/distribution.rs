//! Cluster-size distributions: how often each cluster size was seen.

use vstd::prelude::*;

verus! {

/// The count that `m` holds for `size`; sizes that `m` does not list count
/// zero times.
pub open spec fn count_in(m: Map<u32, nat>, size: u32) -> nat {
    if m.contains_key(size) {
        m[size]
    } else {
        0
    }
}

/// The pointwise sum of two distributions: a size is listed when either
/// side lists it, with the two counts added.
pub open spec fn merged(a: Map<u32, nat>, b: Map<u32, nat>) -> Map<u32, nat> {
    Map::new(
        |size: u32| a.contains_key(size) || b.contains_key(size),
        |size: u32| count_in(a, size) + count_in(b, size),
    )
}

/// Whether every count of the pointwise sum still fits the stored width.
pub open spec fn mergeable(a: Map<u32, nat>, b: Map<u32, nat>) -> bool {
    forall|size: u32| #[trigger]
        merged(a, b).contains_key(size) ==> merged(a, b)[size] <= u32::MAX
}

/// Sizes strictly increase along `entries`.
pub open spec fn ascending(entries: Seq<(u32, u32)>) -> bool {
    forall|i: int, j: int| 0 <= i < j < entries.len() ==> entries[i].0 < entries[j].0
}

/// The mapping that a list of `(size, count)` pairs stands for.
pub open spec fn tally(entries: Seq<(u32, u32)>) -> Map<u32, nat>
    decreases entries.len(),
{
    if entries.len() == 0 {
        Map::empty()
    } else {
        tally(entries.drop_last()).insert(entries.last().0, entries.last().1 as nat)
    }
}

/// A size is listed by `tally(entries)` exactly when some pair carries it.
pub proof fn lemma_tally_keys(entries: Seq<(u32, u32)>, size: u32)
    ensures
        tally(entries).contains_key(size) <==> exists|i: int|
            0 <= i < entries.len() && (#[trigger] entries[i]).0 == size,
    decreases entries.len(),
{
    if entries.len() > 0 {
        let front = entries.drop_last();
        lemma_tally_keys(front, size);
        if tally(entries).contains_key(size) {
            if entries.last().0 == size {
                assert(entries[entries.len() - 1].0 == size);
            } else {
                let i = choose|i: int| 0 <= i < front.len() && (#[trigger] front[i]).0 == size;
                assert(entries[i].0 == size);
            }
        }
        if exists|i: int| 0 <= i < entries.len() && (#[trigger] entries[i]).0 == size {
            let i = choose|i: int| 0 <= i < entries.len() && (#[trigger] entries[i]).0 == size;
            if i < front.len() {
                assert(front[i].0 == size);
            }
        }
    }
}

/// In an ascending list each pair's count is the count of its size.
pub proof fn lemma_tally_value(entries: Seq<(u32, u32)>, i: int)
    requires
        ascending(entries),
        0 <= i < entries.len(),
    ensures
        tally(entries).contains_key(entries[i].0),
        tally(entries)[entries[i].0] == entries[i].1 as nat,
    decreases entries.len(),
{
    let front = entries.drop_last();
    if i < entries.len() - 1 {
        assert(front[i] == entries[i]);
        lemma_tally_value(front, i);
    }
}

/// Pushing a pair onto a list records its count under its size.
proof fn lemma_tally_push(entries: Seq<(u32, u32)>, pair: (u32, u32))
    ensures
        tally(entries.push(pair)) == tally(entries).insert(pair.0, pair.1 as nat),
{
    assert(entries.push(pair).drop_last() =~= entries);
}

/// Taking one more pair of a list records that pair.
proof fn lemma_tally_take(entries: Seq<(u32, u32)>, n: int)
    requires
        0 <= n < entries.len(),
    ensures
        tally(entries.take(n + 1)) == tally(entries.take(n)).insert(
            entries[n].0,
            entries[n].1 as nat,
        ),
{
    assert(entries.take(n + 1).drop_last() =~= entries.take(n));
}

/// How often each cluster size was seen, kept as `(size, count)` pairs in
/// ascending order of size.
pub struct ClusterDistribution {
    entries: Vec<(u32, u32)>,
}

impl View for ClusterDistribution {
    type V = Map<u32, nat>;

    /// The mapping from cluster size to occurrence count.
    open spec fn view(&self) -> Map<u32, nat> {
        tally(self.entries())
    }
}

impl ClusterDistribution {
    /// The `(size, count)` pairs in the order in which they are stored and
    /// handed out.
    pub closed spec fn entries(&self) -> Seq<(u32, u32)> {
        self.entries@
    }

    /// The representation invariant: no size is listed twice, and sizes
    /// come in ascending order.
    pub open spec fn wf(&self) -> bool {
        ascending(self.entries())
    }

    /// The distribution that lists no size.
    pub fn new() -> (d: Self)
        ensures
            d.wf(),
            d.entries() == Seq::<(u32, u32)>::empty(),
            d@ == Map::<u32, nat>::empty(),
    {
        ClusterDistribution { entries: Vec::new() }
    }

    /// The distribution that lists `size` alone, seen `count` times.
    pub fn singleton(size: u32, count: u32) -> (d: Self)
        ensures
            d.wf(),
            d.entries() == seq![(size, count)],
            d@ == Map::<u32, nat>::empty().insert(size, count as nat),
    {
        let mut entries: Vec<(u32, u32)> = Vec::new();
        entries.push((size, count));
        proof {
            assert(entries@ =~= seq![(size, count)]);
            lemma_tally_push(Seq::<(u32, u32)>::empty(), (size, count));
            assert(Seq::<(u32, u32)>::empty().push((size, count)) =~= entries@);
        }
        ClusterDistribution { entries }
    }

    /// The number of sizes listed.
    pub fn len(&self) -> (n: usize)
        ensures
            n == self.entries().len(),
    {
        self.entries.len()
    }

    /// The `i`-th pair in ascending order of size.
    pub fn entry(&self, i: usize) -> (pair: (u32, u32))
        requires
            i < self.entries().len(),
        ensures
            pair == self.entries()[i as int],
    {
        self.entries[i]
    }

    /// How often `size` was seen.
    pub fn count(&self, size: u32) -> (c: u32)
        requires
            self.wf(),
        ensures
            c == count_in(self@, size),
    {
        let mut i: usize = 0;
        while i < self.entries.len()
            invariant
                i <= self.entries@.len(),
                ascending(self.entries@),
                forall|k: int| 0 <= k < i ==> (#[trigger] self.entries@[k]).0 != size,
            decreases self.entries@.len() - i,
        {
            if self.entries[i].0 == size {
                proof {
                    lemma_tally_value(self.entries@, i as int);
                }
                return self.entries[i].1;
            }
            i += 1;
        }
        proof {
            lemma_tally_keys(self.entries@, size);
        }
        0
    }

    /// The pointwise sum of `self` and `other`, or `None` when some summed
    /// count would not fit.
    pub fn try_combine(&self, other: &ClusterDistribution) -> (sum: Option<ClusterDistribution>)
        requires
            self.wf(),
            other.wf(),
        ensures
            sum is Some <==> mergeable(self@, other@),
            sum matches Some(d) ==> d.wf() && d@ == merged(self@, other@),
    {
        let a = &self.entries;
        let b = &other.entries;
        let mut out: Vec<(u32, u32)> = Vec::new();
        let mut i: usize = 0;
        let mut j: usize = 0;
        proof {
            assert(a@.take(0) =~= Seq::<(u32, u32)>::empty());
            assert(b@.take(0) =~= Seq::<(u32, u32)>::empty());
            assert(tally(out@) =~= merged(tally(a@.take(0)), tally(b@.take(0))));
        }
        while i < a.len() || j < b.len()
            invariant
                i <= a@.len(),
                j <= b@.len(),
                ascending(a@),
                ascending(b@),
                ascending(out@),
                a@ == self.entries(),
                b@ == other.entries(),
                forall|k: int|
                    0 <= k < out@.len() && i < a@.len() ==> (#[trigger] out@[k]).0 < a@[i as int].0,
                forall|k: int|
                    0 <= k < out@.len() && j < b@.len() ==> (#[trigger] out@[k]).0 < b@[j as int].0,
                forall|k: int| 0 <= k < i && j < b@.len() ==> (#[trigger] a@[k]).0 < b@[j as int].0,
                forall|k: int| 0 <= k < j && i < a@.len() ==> (#[trigger] b@[k]).0 < a@[i as int].0,
                tally(out@) == merged(tally(a@.take(i as int)), tally(b@.take(j as int))),
                mergeable(tally(a@.take(i as int)), tally(b@.take(j as int))),
            decreases a@.len() - i + b@.len() - j,
        {
            let ghost ta = tally(a@.take(i as int));
            let ghost tb = tally(b@.take(j as int));
            let ghost before = out@;
            let take_a: bool = j >= b.len() || (i < a.len() && a[i].0 <= b[j].0);
            let take_b: bool = i >= a.len() || (j < b.len() && b[j].0 <= a[i].0);
            let pair: (u32, u32) = if take_a && take_b {
                let size = a[i].0;
                let total = a[i].1.checked_add(b[j].1);
                match total {
                    Some(t) => (size, t),
                    None => {
                        proof {
                            lemma_tally_value(a@, i as int);
                            lemma_tally_value(b@, j as int);
                            assert(merged(self@, other@).contains_key(size));
                        }
                        return None;
                    },
                }
            } else if take_a {
                a[i]
            } else {
                b[j]
            };
            proof {
                lemma_tally_push(before, pair);
                if take_a {
                    lemma_tally_take(a@, i as int);
                }
                if take_b {
                    lemma_tally_take(b@, j as int);
                }
                assert forall|k: int| 0 <= k < i implies (#[trigger] a@.take(i as int)[k]).0
                    != pair.0 by {
                    assert(a@.take(i as int)[k] == a@[k]);
                }
                assert forall|k: int| 0 <= k < j implies (#[trigger] b@.take(j as int)[k]).0
                    != pair.0 by {
                    assert(b@.take(j as int)[k] == b@[k]);
                }
                lemma_tally_keys(a@.take(i as int), pair.0);
                lemma_tally_keys(b@.take(j as int), pair.0);
                assert(!ta.contains_key(pair.0));
                assert(!tb.contains_key(pair.0));
            }
            out.push(pair);
            if take_a {
                i += 1;
            }
            if take_b {
                j += 1;
            }
            proof {
                let na = tally(a@.take(i as int));
                let nb = tally(b@.take(j as int));
                assert(tally(out@) =~= merged(na, nb));
                assert forall|size: u32| #[trigger]
                    merged(na, nb).contains_key(size) implies merged(na, nb)[size]
                    <= u32::MAX by {
                    if size != pair.0 {
                        assert(merged(ta, tb).contains_key(size));
                    }
                }
            }
        }
        proof {
            assert(a@.take(i as int) =~= a@);
            assert(b@.take(j as int) =~= b@);
        }
        Some(ClusterDistribution { entries: out })
    }

    /// Adds the counts of `other` to `self`, size by size.
    pub fn combine(&mut self, other: &ClusterDistribution)
        requires
            old(self).wf(),
            other.wf(),
            mergeable(old(self)@, other@),
        ensures
            final(self).wf(),
            final(self)@ == merged(old(self)@, other@),
    {
        match self.try_combine(other) {
            Some(sum) => {
                *self = sum;
            },
            None => {},
        }
    }
}

/// Merging is commutative: either order of two samples gives the same
/// counts.
pub proof fn lemma_merge_commutative(a: ClusterDistribution, b: ClusterDistribution)
    ensures
        merged(a@, b@) == merged(b@, a@),
        mergeable(a@, b@) == mergeable(b@, a@),
{
    assert(merged(a@, b@) =~= merged(b@, a@));
}

/// Merging is associative: how three samples are grouped does not change
/// the counts.
pub proof fn lemma_merge_associative(
    a: ClusterDistribution,
    b: ClusterDistribution,
    c: ClusterDistribution,
)
    ensures
        merged(merged(a@, b@), c@) == merged(a@, merged(b@, c@)),
{
    assert(merged(merged(a@, b@), c@) =~= merged(a@, merged(b@, c@)));
}

/// An ascending list is determined by the mapping that it stands for.
pub proof fn lemma_ascending_determined(a: Seq<(u32, u32)>, b: Seq<(u32, u32)>)
    requires
        ascending(a),
        ascending(b),
        tally(a) == tally(b),
    ensures
        a == b,
    decreases a.len(),
{
    if a.len() == 0 {
        if b.len() > 0 {
            lemma_tally_value(b, 0);
        }
        assert(a =~= b);
    } else {
        let last_a = a.len() - 1;
        lemma_tally_value(a, last_a);
        lemma_tally_keys(b, a[last_a].0);
        let j = choose|j: int| 0 <= j < b.len() && (#[trigger] b[j]).0 == a[last_a].0;
        let last_b = b.len() - 1;
        lemma_tally_value(b, last_b);
        lemma_tally_keys(a, b[last_b].0);
        let i = choose|i: int| 0 <= i < a.len() && (#[trigger] a[i]).0 == b[last_b].0;
        assert(a[last_a].0 == b[last_b].0);
        assert(a[last_a] == b[last_b]);
        let key = a[last_a].0;
        let front_a = a.drop_last();
        let front_b = b.drop_last();
        lemma_tally_keys(front_a, key);
        lemma_tally_keys(front_b, key);
        assert(tally(front_a) =~= tally(a).remove(key));
        assert(tally(front_b) =~= tally(b).remove(key));
        lemma_ascending_determined(front_a, front_b);
        assert(a =~= front_a.push(a[last_a]));
        assert(b =~= front_b.push(b[last_b]));
    }
}

/// A well-formed distribution is determined by its mapping: whatever the
/// order in which samples were merged, equal counts are stored, and handed
/// out, as the same pairs in the same order.
pub proof fn lemma_distribution_determined(a: ClusterDistribution, b: ClusterDistribution)
    requires
        a.wf(),
        b.wf(),
        a@ == b@,
    ensures
        a.entries() == b.entries(),
{
    lemma_ascending_determined(a.entries(), b.entries());
}

} // verus!
