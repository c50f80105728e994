//! The second-chance victim-selection model.
//!
//! [`sweep`] is the mathematical description of one CLOCK sweep over the
//! pool's slots: starting at the hand, a slot whose use counter is zero is
//! the victim; a slot the pool owns exclusively is demoted (its counter
//! drops by one) and the failure streak resets; a slot some caller still
//! references is skipped, and a streak of as many skips as there are slots
//! ends the sweep with the pool reported full. The executable policy is
//! proved to return exactly what this function says.
use vstd::prelude::*;

verus! {

/// What a sweep ends in: either the victim's slot index, or exhaustion.
/// `counters` is the whole slot array's use counters as the sweep leaves
/// them; on exhaustion `hand` is where the clock hand comes to rest (a
/// victim leaves the hand on the victim's slot).
pub ghost enum SweepOutcome {
    Victim { idx: int, counters: Seq<u64> },
    Exhausted { counters: Seq<u64>, hand: int },
}

/// A use counter after one recorded use: one more, saturating at the top.
pub open spec fn bump(counter: u64) -> u64 {
    if counter == u64::MAX {
        u64::MAX
    } else {
        (counter + 1) as u64
    }
}

/// The sum of all use counters; the sweep's termination measure.
pub open spec fn counter_sum(counters: Seq<u64>) -> int
    decreases counters.len(),
{
    if counters.len() == 0 {
        0
    } else {
        counter_sum(counters.drop_last()) + counters.last()
    }
}

pub proof fn lemma_counter_sum_nonneg(counters: Seq<u64>)
    ensures
        counter_sum(counters) >= 0,
    decreases counters.len(),
{
    if counters.len() > 0 {
        lemma_counter_sum_nonneg(counters.drop_last());
    }
}

/// Updating one counter changes the sum by the difference at that slot.
pub proof fn lemma_counter_sum_update(counters: Seq<u64>, i: int, v: u64)
    requires
        0 <= i < counters.len(),
    ensures
        counter_sum(counters.update(i, v)) == counter_sum(counters) - counters[i] + v,
    decreases counters.len(),
{
    if i == counters.len() - 1 {
        assert(counters.update(i, v).drop_last() =~= counters.drop_last());
    } else {
        assert(counters.update(i, v).drop_last() =~= counters.drop_last().update(i, v));
        lemma_counter_sum_update(counters.drop_last(), i, v);
    }
}

/// One CLOCK sweep from `hand` with `failures` consecutive skips already
/// seen. `evictable[i]` says whether the pool owned slot `i`'s frame
/// exclusively when the sweep began.
pub open spec fn sweep(counters: Seq<u64>, evictable: Seq<bool>, hand: int, failures: int) -> SweepOutcome
    decreases counter_sum(counters), counters.len() - failures,
        when 0 <= hand < counters.len() && evictable.len() == counters.len() && 0 <= failures
            < counters.len()
        via sweep_decreases
{
    if counters[hand] == 0 {
        SweepOutcome::Victim { idx: hand, counters }
    } else if evictable[hand] {
        sweep(
            counters.update(hand, (counters[hand] - 1) as u64),
            evictable,
            (hand + 1) % (counters.len() as int),
            0,
        )
    } else if failures + 1 >= counters.len() {
        SweepOutcome::Exhausted { counters, hand }
    } else {
        sweep(counters, evictable, (hand + 1) % (counters.len() as int), failures + 1)
    }
}

#[via_fn]
proof fn sweep_decreases(counters: Seq<u64>, evictable: Seq<bool>, hand: int, failures: int) {
    lemma_counter_sum_nonneg(counters);
    if counters[hand] != 0 && evictable[hand] {
        lemma_counter_sum_update(counters, hand, (counters[hand] - 1) as u64);
        lemma_counter_sum_nonneg(counters.update(hand, (counters[hand] - 1) as u64));
    }
}

/// Shape of every sweep outcome: indices stay in range, no counter grows,
/// a skipped (externally referenced) slot's counter does not change, and a
/// victim's counter has reached zero.
pub proof fn lemma_sweep_shape(counters: Seq<u64>, evictable: Seq<bool>, hand: int, failures: int)
    requires
        0 <= hand < counters.len(),
        evictable.len() == counters.len(),
        0 <= failures < counters.len(),
    ensures
        match sweep(counters, evictable, hand, failures) {
            SweepOutcome::Victim { idx, counters: left } => {
                &&& 0 <= idx < counters.len()
                &&& left.len() == counters.len()
                &&& left[idx] == 0
                &&& forall|i: int|
                    0 <= i < counters.len() ==> #[trigger] left[i] <= counters[i]
                &&& forall|i: int|
                    0 <= i < counters.len() && !evictable[i] ==> #[trigger] left[i] == counters[i]
            },
            SweepOutcome::Exhausted { counters: left, hand: rest } => {
                &&& 0 <= rest < counters.len()
                &&& left.len() == counters.len()
                &&& forall|i: int|
                    0 <= i < counters.len() ==> #[trigger] left[i] <= counters[i]
                &&& forall|i: int|
                    0 <= i < counters.len() && !evictable[i] ==> #[trigger] left[i] == counters[i]
            },
        },
    decreases counter_sum(counters), counters.len() - failures,
{
    lemma_counter_sum_nonneg(counters);
    if counters[hand] == 0 {
    } else if evictable[hand] {
        let demoted = counters.update(hand, (counters[hand] - 1) as u64);
        lemma_counter_sum_update(counters, hand, (counters[hand] - 1) as u64);
        lemma_counter_sum_nonneg(demoted);
        lemma_sweep_shape(demoted, evictable, (hand + 1) % (counters.len() as int), 0);
    } else if failures + 1 >= counters.len() {
    } else {
        lemma_sweep_shape(counters, evictable, (hand + 1) % (counters.len() as int), failures + 1);
    }
}

/// A sweep never selects a victim that some caller still references, as
/// long as no externally referenced slot's counter has already reached
/// zero. (A slot both referenced and at counter zero is selected like any
/// other: the policy reads the counter first.)
pub proof fn lemma_victim_is_evictable(
    counters: Seq<u64>,
    evictable: Seq<bool>,
    hand: int,
    failures: int,
)
    requires
        0 <= hand < counters.len(),
        evictable.len() == counters.len(),
        0 <= failures < counters.len(),
        forall|i: int| 0 <= i < counters.len() && !evictable[i] ==> counters[i] > 0,
    ensures
        sweep(counters, evictable, hand, failures) matches SweepOutcome::Victim { idx, .. }
            ==> evictable[idx],
    decreases counter_sum(counters), counters.len() - failures,
{
    lemma_counter_sum_nonneg(counters);
    if counters[hand] == 0 {
    } else if evictable[hand] {
        let demoted = counters.update(hand, (counters[hand] - 1) as u64);
        lemma_counter_sum_update(counters, hand, (counters[hand] - 1) as u64);
        lemma_counter_sum_nonneg(demoted);
        lemma_victim_is_evictable(demoted, evictable, (hand + 1) % (counters.len() as int), 0);
    } else if failures + 1 >= counters.len() {
    } else {
        lemma_victim_is_evictable(
            counters,
            evictable,
            (hand + 1) % (counters.len() as int),
            failures + 1,
        );
    }
}

/// When every slot's frame is externally referenced and every use counter
/// is positive, the sweep exhausts the pool without touching any counter.
pub proof fn lemma_all_referenced_exhausts(
    counters: Seq<u64>,
    evictable: Seq<bool>,
    hand: int,
    failures: int,
)
    requires
        0 <= hand < counters.len(),
        evictable.len() == counters.len(),
        0 <= failures < counters.len(),
        forall|i: int| 0 <= i < counters.len() ==> !evictable[i],
        forall|i: int| 0 <= i < counters.len() ==> counters[i] > 0,
    ensures
        sweep(counters, evictable, hand, failures) matches SweepOutcome::Exhausted {
            counters: left,
            ..
        } && left == counters,
    decreases counters.len() - failures,
{
    if counters[hand] == 0 {
    } else if evictable[hand] {
    } else if failures + 1 >= counters.len() {
    } else {
        lemma_all_referenced_exhausts(
            counters,
            evictable,
            (hand + 1) % (counters.len() as int),
            failures + 1,
        );
    }
}

} // verus!
