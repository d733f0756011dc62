use vstd::prelude::*;

use std::collections::VecDeque;

verus! {

broadcast use vstd::std_specs::vecdeque::group_vec_dequeue_axioms;

/// A sliding window over the most recent samples of one metric.
#[derive(Debug, Clone)]
pub struct MetricHistory<T> {
    pub values: VecDeque<T>,
    pub max_samples: usize,
}

/// The window after pushing `v` into `values` with limit `max`: the oldest
/// sample is dropped first when the window is full (a limit of 0 behaves as
/// a limit of 1).
pub open spec fn window_push<T>(values: Seq<T>, max: nat, v: T) -> Seq<T> {
    if values.len() >= max && values.len() > 0 {
        values.drop_first().push(v)
    } else {
        values.push(v)
    }
}

/// The window after pushing the samples `s`, in order, into an empty window.
pub open spec fn window_after<T>(max: nat, s: Seq<T>) -> Seq<T>
    decreases s.len(),
{
    if s.len() == 0 {
        Seq::empty()
    } else {
        window_push(window_after(max, s.drop_last()), max, s.last())
    }
}

/// The number of samples a window keeps: its limit, and at least one.
pub open spec fn window_capacity(max: nat) -> nat {
    if max == 0 {
        1
    } else {
        max
    }
}

impl<T> MetricHistory<T> {
    /// An empty history that keeps at most `max_samples` samples.
    pub fn new(max_samples: usize) -> (r: Self)
        ensures
            r.values@ == Seq::<T>::empty(),
            r.max_samples == max_samples,
    {
        MetricHistory { values: VecDeque::with_capacity(max_samples), max_samples }
    }

    /// Adds a sample, dropping the oldest one when the window is full.
    pub fn push(&mut self, val: T)
        ensures
            final(self).max_samples == old(self).max_samples,
            final(self).values@ == window_push(old(self).values@, old(self).max_samples as nat, val),
    {
        if self.values.len() >= self.max_samples {
            self.values.pop_front();
        }
        self.values.push_back(val);
    }
}

/// Law: a history fed with the samples `s` from empty holds exactly the last
/// `window_capacity(max)` of them (all of them while there are fewer), oldest
/// first.
pub proof fn law_history_keeps_latest<T>(max: nat, s: Seq<T>)
    ensures
        window_after(max, s) == s.subrange(
            s.len() - (if s.len() < window_capacity(max) {
                s.len() as int
            } else {
                window_capacity(max) as int
            }),
            s.len() as int,
        ),
    decreases s.len(),
{
    if s.len() > 0 {
        let p = s.drop_last();
        law_history_keeps_latest(max, p);
        let w = window_after(max, p);
        let c = window_capacity(max) as int;
        if p.len() < c {
            assert(w =~= p);
            if p.len() >= max && p.len() > 0 {
                assert(false);
            }
            assert(window_after(max, s) =~= s.subrange(s.len() - (if s.len() < c {
                s.len() as int
            } else {
                c
            }), s.len() as int));
        } else {
            assert(w =~= p.subrange(p.len() - c, p.len() as int));
            assert(window_after(max, s) =~= s.subrange(s.len() - c, s.len() as int));
        }
    }
}

/// Law: a history never holds more samples than its capacity, given that it
/// did not before the push.
pub proof fn law_history_bounded<T>(values: Seq<T>, max: nat, v: T)
    requires
        values.len() <= window_capacity(max),
    ensures
        window_push(values, max, v).len() <= window_capacity(max),
        window_push(values, max, v).last() == v,
{
}

} // verus!
