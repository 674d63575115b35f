//! Expert residency and prefetching.
//!
//! Transitions between experts of neighbouring layers are counted here, experts are promoted to
//! and demoted from the resident pool, and prefetch lists are made. How hot an expert is, and
//! which experts are likely to come next, is measured in floating point by the caller.

use std::collections::HashMap;

use vstd::prelude::*;

verus! {

broadcast use vstd::std_specs::hash::group_hash_axioms;

/// Routing statistics of one layer.
#[derive(Debug)]
pub struct LayerExpertTracker {
    pub num_experts: usize,
    /// Experts that are resident.
    pub is_hot_resident: Vec<bool>,
    /// Transitions from experts of the layer before: row by row, one row for each of them.
    pub transition_matrix: Vec<u64>,
}

/// One more, as far as 64 bits go.
pub open spec fn one_more_hit(n: u64) -> u64 {
    if n == u64::MAX {
        n
    } else {
        (n + 1) as u64
    }
}

/// The counts after a transition between experts of a layer of `n`.
pub open spec fn counted(m: Seq<u64>, n: int, from: int, to: int) -> Seq<u64> {
    if from < n && to < n {
        m.update(from * n + to, one_more_hit(m[from * n + to]))
    } else {
        m
    }
}

/// The counts after transitions from one expert to the first `k` of those that are active.
pub open spec fn counted_to(m: Seq<u64>, n: int, from: int, active: Seq<usize>, k: nat) -> Seq<u64>
    decreases k,
{
    if k == 0 {
        m
    } else {
        counted(
            counted_to(m, n, from, active, (k - 1) as nat),
            n,
            from,
            active[k - 1] as int,
        )
    }
}

/// The counts after transitions from the first `k` previous experts to all that are active.
pub open spec fn counted_all(
    m: Seq<u64>,
    n: int,
    prev: Seq<usize>,
    active: Seq<usize>,
    k: nat,
) -> Seq<u64>
    decreases k,
{
    if k == 0 {
        m
    } else {
        counted_to(
            counted_all(m, n, prev, active, (k - 1) as nat),
            n,
            prev[k - 1] as int,
            active,
            active.len(),
        )
    }
}

/// Residency after a step: an expert that reached the upper threshold becomes resident, a
/// resident one that fell to the lower threshold no longer is; in between nothing changes.
pub open spec fn resident_after(hot: bool, at_high: bool, at_low: bool) -> bool {
    if hot {
        !at_low
    } else {
        at_high
    }
}

/// The residency of all experts after a step.
pub open spec fn residency_after(hot: Seq<bool>, at_high: Seq<bool>, at_low: Seq<bool>) -> Seq<
    bool,
> {
    Seq::new(hot.len(), |e: int| resident_after(hot[e], at_high[e], at_low[e]))
}

/// The prefetches for predicted experts: those that are not resident.
pub open spec fn prefetches(layer: usize, hot: Seq<bool>, predicted: Seq<usize>) -> Seq<
    (usize, usize),
>
    decreases predicted.len(),
{
    if predicted.len() == 0 {
        Seq::empty()
    } else {
        let rest = prefetches(layer, hot, predicted.drop_last());
        if hot[predicted.last() as int] {
            rest
        } else {
            rest.push((layer, predicted.last()))
        }
    }
}

/// The prefetches for the first `k` lists of predictions.
pub open spec fn prefetches_all(
    layer: usize,
    hot: Seq<bool>,
    predictions: Seq<Vec<usize>>,
    k: nat,
) -> Seq<(usize, usize)>
    decreases k,
{
    if k == 0 {
        Seq::empty()
    } else {
        prefetches_all(layer, hot, predictions, (k - 1) as nat) + prefetches(
            layer,
            hot,
            predictions[k - 1]@,
        )
    }
}

/// Every predicted expert is one of the layer.
pub open spec fn are_experts(predicted: Seq<usize>, n: int) -> bool {
    forall|i: int| 0 <= i < predicted.len() ==> (#[trigger] predicted[i]) < n
}

proof fn lemma_cell(n: int, from: int, to: int)
    requires
        0 <= from < n,
        0 <= to < n,
    ensures
        0 <= from * n + to < n * n,
{
    assert(0 <= from * n + to < n * n) by (nonlinear_arith)
        requires
            0 <= from < n,
            0 <= to < n,
    ;
}

impl LayerExpertTracker {
    /// Every expert has its residency and its row of counts.
    pub open spec fn wf(&self) -> bool {
        &&& self.is_hot_resident@.len() == self.num_experts
        &&& self.transition_matrix@.len() == self.num_experts * self.num_experts
    }

    /// A layer of which nothing is known.
    pub fn new(num_experts: usize) -> (r: LayerExpertTracker)
        requires
            num_experts * num_experts <= usize::MAX,
        ensures
            r.wf(),
            r.num_experts == num_experts,
            forall|e: int| 0 <= e < num_experts ==> !(#[trigger] r.is_hot_resident@[e]),
            forall|i: int|
                0 <= i < r.transition_matrix@.len() ==> #[trigger] r.transition_matrix@[i] == 0,
    {
        LayerExpertTracker {
            num_experts,
            is_hot_resident: vec![false; num_experts],
            transition_matrix: vec![0; num_experts * num_experts],
        }
    }

    /// Counts a transition from an expert of the layer before.
    pub fn record_transition(&mut self, from_expert: usize, to_expert: usize)
        requires
            old(self).wf(),
        ensures
            final(self).wf(),
            final(self).num_experts == old(self).num_experts,
            final(self).is_hot_resident == old(self).is_hot_resident,
            final(self).transition_matrix@ == counted(
                old(self).transition_matrix@,
                old(self).num_experts as int,
                from_expert as int,
                to_expert as int,
            ),
    {
        if from_expert < self.num_experts && to_expert < self.num_experts {
            proof {
                lemma_cell(self.num_experts as int, from_expert as int, to_expert as int);
                assert(self.transition_matrix@.len() == self.transition_matrix.len());
                assert(0 <= from_expert * self.num_experts) by (nonlinear_arith)
                    requires
                        0 <= from_expert,
                        0 <= self.num_experts,
                ;
            }
            let at: usize = from_expert * self.num_experts + to_expert;
            let n: u64 = self.transition_matrix[at];
            let next: u64 = if n == u64::MAX {
                n
            } else {
                n + 1
            };
            self.transition_matrix.set(at, next);
        }
    }

    /// Counts transitions from all previous experts to all that are active.
    pub fn record_routes(&mut self, prev: &[usize], active: &[usize])
        requires
            old(self).wf(),
        ensures
            final(self).wf(),
            final(self).num_experts == old(self).num_experts,
            final(self).is_hot_resident == old(self).is_hot_resident,
            final(self).transition_matrix@ == counted_all(
                old(self).transition_matrix@,
                old(self).num_experts as int,
                prev@,
                active@,
                prev@.len(),
            ),
    {
        let ghost n = self.num_experts as int;
        let mut i: usize = 0;
        while i < prev.len()
            invariant
                i <= prev@.len(),
                self.wf(),
                n == self.num_experts,
                self.num_experts == old(self).num_experts,
                self.is_hot_resident == old(self).is_hot_resident,
                self.transition_matrix@ == counted_all(
                    old(self).transition_matrix@,
                    n,
                    prev@,
                    active@,
                    i as nat,
                ),
            decreases prev@.len() - i,
        {
            let ghost row = self.transition_matrix@;
            let mut k: usize = 0;
            while k < active.len()
                invariant
                    i < prev@.len(),
                    k <= active@.len(),
                    self.wf(),
                    n == self.num_experts,
                    self.num_experts == old(self).num_experts,
                    self.is_hot_resident == old(self).is_hot_resident,
                    self.transition_matrix@ == counted_to(
                        row,
                        n,
                        prev@[i as int] as int,
                        active@,
                        k as nat,
                    ),
                decreases active@.len() - k,
            {
                self.record_transition(prev[i], active[k]);
                k = k + 1;
            }
            i = i + 1;
        }
    }

    /// Promotes and demotes experts, by whether the score of each has reached the upper
    /// threshold or fallen to the lower one.
    pub fn update_residency(&mut self, at_high: &[bool], at_low: &[bool])
        requires
            old(self).wf(),
            at_high@.len() == old(self).num_experts,
            at_low@.len() == old(self).num_experts,
        ensures
            final(self).wf(),
            final(self).num_experts == old(self).num_experts,
            final(self).transition_matrix == old(self).transition_matrix,
            final(self).is_hot_resident@ == residency_after(
                old(self).is_hot_resident@,
                at_high@,
                at_low@,
            ),
    {
        let mut e: usize = 0;
        while e < self.num_experts
            invariant
                e <= self.num_experts,
                self.wf(),
                self.num_experts == old(self).num_experts,
                self.transition_matrix == old(self).transition_matrix,
                at_high@.len() == self.num_experts,
                at_low@.len() == self.num_experts,
                old(self).is_hot_resident@.len() == self.num_experts,
                forall|k: int|
                    0 <= k < self.num_experts ==> #[trigger] self.is_hot_resident@[k] == if k < e {
                        resident_after(old(self).is_hot_resident@[k], at_high@[k], at_low@[k])
                    } else {
                        old(self).is_hot_resident@[k]
                    },
            decreases self.num_experts - e,
        {
            let hot: bool = self.is_hot_resident[e];
            let next: bool = if hot {
                !at_low[e]
            } else {
                at_high[e]
            };
            self.is_hot_resident.set(e, next);
            e = e + 1;
        }
        assert(self.is_hot_resident@ =~= residency_after(
            old(self).is_hot_resident@,
            at_high@,
            at_low@,
        ));
    }

    /// The counts of transitions from an expert of the layer before; none for an expert that
    /// there is not.
    pub fn transition_row(&self, from_expert: usize) -> (r: Option<&[u64]>)
        requires
            self.wf(),
        ensures
            r is Some <==> from_expert < self.num_experts,
            r is Some ==> r->0@ == self.transition_matrix@.subrange(
                from_expert * self.num_experts,
                from_expert * self.num_experts + self.num_experts,
            ),
    {
        if from_expert >= self.num_experts {
            return None;
        }
        proof {
            assert(self.transition_matrix@.len() == self.transition_matrix.len());
            assert(0 <= from_expert * self.num_experts && from_expert * self.num_experts
                + self.num_experts <= self.num_experts * self.num_experts) by (nonlinear_arith)
                requires
                    0 <= from_expert < self.num_experts,
            ;
        }
        let start: usize = from_expert * self.num_experts;
        let counts: &[u64] = self.transition_matrix.as_slice();
        Some(&counts[start..start + self.num_experts])
    }
}

/// Lookahead over all layers.
#[derive(Debug)]
pub struct PilotEngine {
    pub layer_trackers: HashMap<usize, LayerExpertTracker>,
}

impl PilotEngine {
    /// Every layer is in order.
    pub open spec fn wf(&self) -> bool {
        forall|k: usize|
            self.layer_trackers@.contains_key(k) ==> (#[trigger] self.layer_trackers@[k]).wf()
    }

    /// An engine without layers.
    pub fn new() -> (r: PilotEngine)
        ensures
            r.wf(),
            r.layer_trackers@ == Map::<usize, LayerExpertTracker>::empty(),
    {
        PilotEngine { layer_trackers: HashMap::new() }
    }

    /// Adds a layer of which nothing is known, in place of one with the same number.
    pub fn register_layer(&mut self, layer_idx: usize, num_experts: usize)
        requires
            old(self).wf(),
            num_experts * num_experts <= usize::MAX,
        ensures
            final(self).wf(),
            final(self).layer_trackers@.dom() == old(self).layer_trackers@.dom().insert(layer_idx),
            forall|k: usize|
                k != layer_idx && old(self).layer_trackers@.contains_key(k)
                    ==> #[trigger] final(self).layer_trackers@[k] == old(self).layer_trackers@[k],
            final(self).layer_trackers@[layer_idx].num_experts == num_experts,
            forall|e: int|
                0 <= e < num_experts
                    ==> !(#[trigger] final(self).layer_trackers@[layer_idx].is_hot_resident@[e]),
            forall|i: int|
                0 <= i < num_experts * num_experts
                    ==> #[trigger] final(self).layer_trackers@[layer_idx].transition_matrix@[i]
                    == 0,
    {
        let tracker = LayerExpertTracker::new(num_experts);
        self.layer_trackers.insert(layer_idx, tracker);
        assert(self.layer_trackers@.dom() =~= old(self).layer_trackers@.dom().insert(layer_idx));
    }

    /// Takes note of a routing step: of the transitions from the experts of the layer before,
    /// where they are known, and of the scores of the layer's experts. A layer that was not
    /// registered is passed over.
    pub fn on_layer_routed(
        &mut self,
        layer_idx: usize,
        active_experts: &[usize],
        prev_layer_experts: Option<&[usize]>,
        at_high: &[bool],
        at_low: &[bool],
    )
        requires
            old(self).wf(),
            old(self).layer_trackers@.contains_key(layer_idx) ==> {
                &&& at_high@.len() == old(self).layer_trackers@[layer_idx].num_experts
                &&& at_low@.len() == old(self).layer_trackers@[layer_idx].num_experts
            },
        ensures
            final(self).wf(),
            final(self).layer_trackers@.dom() == old(self).layer_trackers@.dom(),
            forall|k: usize|
                k != layer_idx && old(self).layer_trackers@.contains_key(k)
                    ==> #[trigger] final(self).layer_trackers@[k] == old(self).layer_trackers@[k],
            old(self).layer_trackers@.contains_key(layer_idx) ==> {
                let before = old(self).layer_trackers@[layer_idx];
                let after = final(self).layer_trackers@[layer_idx];
                &&& after.num_experts == before.num_experts
                &&& after.is_hot_resident@ == residency_after(
                    before.is_hot_resident@,
                    at_high@,
                    at_low@,
                )
                &&& after.transition_matrix@ == match prev_layer_experts {
                    Some(prev) => counted_all(
                        before.transition_matrix@,
                        before.num_experts as int,
                        prev@,
                        active_experts@,
                        prev@.len(),
                    ),
                    None => before.transition_matrix@,
                }
            },
    {
        match self.layer_trackers.remove(&layer_idx) {
            None => {
                assert(self.layer_trackers@ =~= old(self).layer_trackers@);
            },
            Some(t) => {
                let mut tracker = t;
                match prev_layer_experts {
                    Some(prev) => {
                        tracker.record_routes(prev, active_experts);
                    },
                    None => {},
                }
                tracker.update_residency(at_high, at_low);
                self.layer_trackers.insert(layer_idx, tracker);
                assert(self.layer_trackers@.dom() =~= old(self).layer_trackers@.dom());
            },
        }
    }

    /// The experts of the next layer that are to be prefetched: of those that are predicted, the
    /// ones that are not resident. `predictions` holds one list for each active expert.
    pub fn predict_prefetch_targets(
        &self,
        current_layer_idx: usize,
        predictions: &[Vec<usize>],
    ) -> (r: Vec<(usize, usize)>)
        requires
            self.wf(),
            current_layer_idx < usize::MAX,
            self.layer_trackers@.contains_key((current_layer_idx + 1) as usize) ==> forall|k: int|
                0 <= k < predictions@.len() ==> are_experts(
                    (#[trigger] predictions@[k])@,
                    self.layer_trackers@[(current_layer_idx + 1) as usize].num_experts as int,
                ),
        ensures
            r@ == if self.layer_trackers@.contains_key((current_layer_idx + 1) as usize) {
                prefetches_all(
                    (current_layer_idx + 1) as usize,
                    self.layer_trackers@[(current_layer_idx + 1) as usize].is_hot_resident@,
                    predictions@,
                    predictions@.len(),
                )
            } else {
                Seq::empty()
            },
    {
        let target: usize = current_layer_idx + 1;
        let mut out: Vec<(usize, usize)> = Vec::new();
        match self.layer_trackers.get(&target) {
            None => {},
            Some(tracker) => {
                let mut k: usize = 0;
                while k < predictions.len()
                    invariant
                        k <= predictions@.len(),
                        tracker.wf(),
                        forall|j: int|
                            0 <= j < predictions@.len() ==> are_experts(
                                (#[trigger] predictions@[j])@,
                                tracker.num_experts as int,
                            ),
                        out@ == prefetches_all(
                            target,
                            tracker.is_hot_resident@,
                            predictions@,
                            k as nat,
                        ),
                    decreases predictions@.len() - k,
                {
                    let list: &Vec<usize> = &predictions[k];
                    let ghost before = out@;
                    let mut i: usize = 0;
                    assert(before + prefetches(
                        target,
                        tracker.is_hot_resident@,
                        list@.take(0),
                    ) =~= before);
                    while i < list.len()
                        invariant
                            i <= list@.len(),
                            tracker.wf(),
                            are_experts(list@, tracker.num_experts as int),
                            out@ == before + prefetches(
                                target,
                                tracker.is_hot_resident@,
                                list@.take(i as int),
                            ),
                        decreases list@.len() - i,
                    {
                        let e: usize = list[i];
                        assert(list@[i as int] < tracker.num_experts);
                        proof {
                            let t = list@.take(i + 1);
                            assert(t.drop_last() =~= list@.take(i as int));
                            assert(t.last() == e);
                        }
                        if !tracker.is_hot_resident[e] {
                            out.push((target, e));
                        }
                        assert(out@ =~= before + prefetches(
                            target,
                            tracker.is_hot_resident@,
                            list@.take(i + 1),
                        ));
                        i = i + 1;
                    }
                    assert(list@.take(list@.len() as int) =~= list@);
                    k = k + 1;
                }
            },
        }
        out
    }
}

/// Only experts that are not resident are prefetched, and each of them is one of the predicted
/// ones.
pub proof fn law_residents_are_not_prefetched(layer: usize, hot: Seq<bool>, predicted: Seq<usize>)
    ensures
        forall|i: int|
            0 <= i < prefetches(layer, hot, predicted).len() ==> {
                let p = #[trigger] prefetches(layer, hot, predicted)[i];
                p.0 == layer && !hot[p.1 as int] && predicted.contains(p.1)
            },
    decreases predicted.len(),
{
    if predicted.len() > 0 {
        let shorter = predicted.drop_last();
        law_residents_are_not_prefetched(layer, hot, shorter);
        assert forall|i: int| 0 <= i < prefetches(layer, hot, predicted).len() implies ({
            let p = #[trigger] prefetches(layer, hot, predicted)[i];
            p.0 == layer && !hot[p.1 as int] && predicted.contains(p.1)
        }) by {
            let p = prefetches(layer, hot, predicted)[i];
            if i < prefetches(layer, hot, shorter).len() {
                assert(prefetches(layer, hot, shorter)[i] == p);
                let k = choose|k: int| 0 <= k < shorter.len() && shorter[k] == p.1;
                assert(predicted[k] == p.1);
            } else {
                assert(predicted[predicted.len() - 1] == p.1);
            }
        }
    }
}

/// Between the thresholds residency does not change, so an expert whose score stays there is
/// not moved back and forth.
pub proof fn law_residency_has_hysteresis(hot: bool, at_high: bool, at_low: bool)
    ensures
        !at_high && !at_low ==> resident_after(hot, at_high, at_low) == hot,
        resident_after(hot, at_high, at_low) != hot ==> if hot {
            at_low
        } else {
            at_high
        },
{
}

} // verus!
