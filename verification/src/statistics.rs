//! Per-threat session counts.

use vstd::prelude::*;

use crate::text::{chars_of, string_of};
use crate::textmap::TextMap;

verus! {

/// How many times each threat was recorded in this session.
pub struct Statistics {
    counts: TextMap<usize>,
}

/// The sum of a sequence of counts.
pub open spec fn sum_counts(s: Seq<usize>) -> int
    decreases s.len(),
{
    if s.len() == 0 {
        0
    } else {
        sum_counts(s.drop_last()) + s.last()
    }
}

impl View for Statistics {
    type V = Map<Seq<char>, usize>;

    closed spec fn view(&self) -> Map<Seq<char>, usize> {
        self.counts@
    }
}

impl Statistics {
    /// The counts are held consistently.
    pub closed spec fn wf(&self) -> bool {
        self.counts.wf()
    }

    /// The threats in the order they were first recorded.
    pub closed spec fn order(&self) -> Seq<Seq<char>> {
        self.counts.keys()
    }

    /// No threat recorded yet.
    pub fn new() -> (r: Self)
        ensures
            r.wf(),
            r@ == Map::<Seq<char>, usize>::empty(),
            r.order() == Seq::<Seq<char>>::empty(),
    {
        Statistics { counts: TextMap::new() }
    }

    /// Counts one more occurrence of `threat`.
    pub fn record(&mut self, threat: &str)
        requires
            old(self).wf(),
            old(self)@.contains_key(threat@) ==> old(self)@[threat@] < usize::MAX,
        ensures
            final(self).wf(),
            final(self)@ == old(self)@.insert(
                threat@,
                if old(self)@.contains_key(threat@) {
                    (old(self)@[threat@] + 1) as usize
                } else {
                    1usize
                },
            ),
            final(self).order() == if old(self)@.contains_key(threat@) {
                old(self).order()
            } else {
                old(self).order().push(threat@)
            },
    {
        let key = chars_of(threat);
        match self.counts.find(key.as_slice()) {
            Some(i) => {
                let c = *self.counts.value_at(i);
                self.counts.set_value_at(i, c + 1);
            },
            None => {
                self.counts.insert(key, 1);
            },
        }
    }

    /// How many times `threat` was recorded.
    pub fn count_of(&self, threat: &str) -> (r: usize)
        requires
            self.wf(),
        ensures
            r == if self@.contains_key(threat@) {
                self@[threat@]
            } else {
                0usize
            },
    {
        let key = chars_of(threat);
        match self.counts.get(key.as_slice()) {
            Some(c) => *c,
            None => 0,
        }
    }

    /// Each recorded threat with its count, in the order first recorded.
    pub fn entries(&self) -> (r: Vec<(String, usize)>)
        requires
            self.wf(),
        ensures
            r@.len() == self.order().len(),
            forall|i: int|
                0 <= i < r@.len() ==> r@[i].0@ == self.order()[i] && r@[i].1 == self@[self.order()[i]],
    {
        let mut r: Vec<(String, usize)> = Vec::new();
        let n = self.counts.len();
        let mut i: usize = 0;
        while i < n
            invariant
                self.wf(),
                n == self.order().len(),
                i <= n,
                r@.len() == i,
                forall|j: int|
                    0 <= j < i ==> r@[j].0@ == self.order()[j] && r@[j].1 == self@[self.order()[j]],
            decreases n - i,
        {
            let k = string_of(self.counts.key_at(i).as_slice());
            let v = *self.counts.value_at(i);
            r.push((k, v));
            i += 1;
        }
        r
    }

    /// The sum of all counts.
    pub open spec fn total_count(&self) -> int {
        sum_counts(self.order().map_values(|k: Seq<char>| self@[k]))
    }

    /// The number of threats recorded in all.
    pub fn total(&self) -> (t: u128)
        requires
            self.wf(),
        ensures
            t == self.total_count(),
    {
        let n = self.counts.len();
        let ghost vals = self.order().map_values(|k: Seq<char>| self@[k]);
        let mut t: u128 = 0;
        let mut i: usize = 0;
        assert(vals.subrange(0, 0) =~= Seq::<usize>::empty());
        while i < n
            invariant
                self.wf(),
                n == self.order().len(),
                vals == self.order().map_values(|k: Seq<char>| self@[k]),
                i <= n,
                t == sum_counts(vals.subrange(0, i as int)),
                t <= i * 0xffff_ffff_ffff_ffffu128,
            decreases n - i,
        {
            let v = *self.counts.value_at(i);
            assert(vals.subrange(0, i + 1).drop_last() =~= vals.subrange(0, i as int));
            assert(t + v <= (i + 1) * 0xffff_ffff_ffff_ffffu128) by (nonlinear_arith)
                requires
                    t <= i * 0xffff_ffff_ffff_ffffu128,
                    v <= 0xffff_ffff_ffff_ffffu128,
            ;
            assert((i + 1) * 0xffff_ffff_ffff_ffffu128 <= 0xffff_ffff_ffff_ffff_ffff_ffff_ffff_ffffu128) by (nonlinear_arith)
                requires
                    i < 0xffff_ffff_ffff_ffffu128,
            ;
            t = t + v as u128;
            i += 1;
        }
        assert(vals.subrange(0, n as int) =~= vals);
        t
    }
}

proof fn lemma_sum_update(s: Seq<usize>, i: int, x: usize)
    requires
        0 <= i < s.len(),
    ensures
        sum_counts(s.update(i, x)) == sum_counts(s) - s[i] + x,
    decreases s.len(),
{
    let u = s.update(i, x);
    if i < s.len() - 1 {
        assert(u.drop_last() =~= s.drop_last().update(i, x));
        lemma_sum_update(s.drop_last(), i, x);
    } else {
        assert(u.drop_last() =~= s.drop_last());
    }
}

/// Recording a threat adds exactly one to the session total.
pub proof fn recording_adds_one(before: Statistics, after: Statistics, threat: Seq<char>)
    requires
        before.wf(),
        after.wf(),
        before@.contains_key(threat) ==> before@[threat] < usize::MAX,
        after@ == before@.insert(
            threat,
            if before@.contains_key(threat) {
                (before@[threat] + 1) as usize
            } else {
                1usize
            },
        ),
        after.order() == if before@.contains_key(threat) {
            before.order()
        } else {
            before.order().push(threat)
        },
    ensures
        after.total_count() == before.total_count() + 1,
{
    before.counts.lemma_keys();
    let vb = before.order().map_values(|k: Seq<char>| before@[k]);
    let va = after.order().map_values(|k: Seq<char>| after@[k]);
    if before@.contains_key(threat) {
        let i = choose|i: int| 0 <= i < before.order().len() && before.order()[i] == threat;
        assert forall|j: int| 0 <= j < va.len() && j != i implies va[j] == vb[j] by {
            assert(before.order()[j] != before.order()[i]);
        }
        assert(va =~= vb.update(i, (before@[threat] + 1) as usize));
        lemma_sum_update(vb, i, (before@[threat] + 1) as usize);
    } else {
        assert forall|j: int| 0 <= j < vb.len() implies va[j] == vb[j] by {
            assert(before.order().contains(before.order()[j]));
        }
        assert(va.drop_last() =~= vb);
    }
}

} // verus!
