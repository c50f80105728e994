//! The buffer pool's replacement policy: a second-chance (CLOCK) sweep
//! over a fixed array of slots, with a page-id index kept bijective with
//! the occupied slots.
use crate::frame::BufferFrame;
use crate::page::PageId;
use crate::sweep::bump;
use crate::sweep::counter_sum;
use crate::sweep::lemma_all_referenced_exhausts;
use crate::sweep::lemma_counter_sum_nonneg;
use crate::sweep::lemma_counter_sum_update;
use crate::sweep::lemma_sweep_shape;
use crate::sweep::lemma_victim_is_evictable;
use crate::sweep::sweep;
use crate::sweep::SweepOutcome;
use std::collections::HashMap;
use vstd::prelude::*;

verus! {

broadcast use vstd::std_specs::hash::group_hash_axioms;

/// How a push that does not insert cleanly reports itself: `Success` is the
/// non-fatal "inserted without eviction" signal, `PoolIsFull` means every
/// slot was skipped for a whole sweep.
#[derive(Debug, PartialEq, Eq, Structural)]
pub enum ClockSweepError {
    Success,
    PoolIsFull,
}

/// A replacement policy over reference-counted page frames.
pub trait PoolAlgorithm: Sized {
    type Hint;

    type PushError;

    /// The policy's internal consistency invariant.
    spec fn inv(&self) -> bool;

    /// The identities of the pages currently resident in the pool.
    spec fn resident(&self) -> Set<u64>;

    /// Whether a push error reports exhaustion. The other errors are
    /// non-fatal signals (inserted without eviction); the two must never
    /// be conflated.
    spec fn is_full_error(err: &Self::PushError) -> bool;

    /// Construct an empty pool; `size_hint` is its capacity where given.
    fn new(size_hint: Option<usize>) -> (pool: Self)
        requires
            size_hint matches Some(n) ==> n >= 1,
        ensures
            pool.inv(),
            pool.resident() == Set::<u64>::empty(),
    ;

    /// Look a page up; on a hit, record a use and hand out one more handle
    /// to the resident frame. Never touches the disk.
    fn request(&mut self, page_id: PageId) -> (result: Option<BufferFrame>)
        requires
            old(self).inv(),
        ensures
            final(self).inv(),
            final(self).resident() == old(self).resident(),
            result matches Some(f) ==> old(self).resident().contains(page_id.0) && f.id()
                == page_id,
            result is None ==> !old(self).resident().contains(page_id.0),
    ;

    /// As [`Self::request`]; policies with no meaningful hint delegate.
    fn request_with_hint(&mut self, hint: Self::Hint, page_id: PageId) -> (result: Option<
        BufferFrame,
    >)
        requires
            old(self).inv(),
        ensures
            final(self).inv(),
            final(self).resident() == old(self).resident(),
            result matches Some(f) ==> old(self).resident().contains(page_id.0) && f.id()
                == page_id,
            result is None ==> !old(self).resident().contains(page_id.0),
    ;

    /// Insert a frame for a page that is not resident. Either it goes into
    /// free capacity (an `Err` that is not fatal), or it displaces a victim
    /// whose identity and frame are returned, or the push fails and the
    /// resident set stays as it was.
    fn push(&mut self, page_id: PageId, frame: BufferFrame) -> (result: Result<
        (PageId, BufferFrame),
        Self::PushError,
    >)
        requires
            old(self).inv(),
            !old(self).resident().contains(page_id.0),
            frame.id() == page_id,
        ensures
            final(self).inv(),
            result matches Ok((victim_id, victim)) ==> old(self).resident().contains(victim_id.0)
                && victim.id() == victim_id && final(self).resident() == old(
                self,
            ).resident().remove(victim_id.0).insert(page_id.0),
            result matches Err(e) && Self::is_full_error(&e) ==> final(self).resident() == old(
                self,
            ).resident(),
            result matches Err(e) && !Self::is_full_error(&e) ==> final(self).resident() == old(
                self,
            ).resident().insert(page_id.0),
    ;
}

/// The second-chance policy's state: one use counter and one frame per
/// occupied slot, the page-id index over them, and the clock hand.
///
/// The hand is a public field, as callers of the policy may reposition it;
/// every operation requires [`ClockSweep::wf`], which pins the hand inside
/// the occupied slots.
pub struct ClockSweep {
    pub clock_hand: usize,
    counters: Vec<u64>,
    frames: Vec<BufferFrame>,
    map: HashMap<u64, usize>,
    capacity: usize,
}

impl ClockSweep {
    /// The use counters, one per occupied slot.
    pub closed spec fn counter_seq(&self) -> Seq<u64> {
        self.counters@
    }

    /// The resident frames, one per occupied slot.
    pub closed spec fn frame_seq(&self) -> Seq<BufferFrame> {
        self.frames@
    }

    /// The index: each resident page's identity, mapped to its slot.
    pub closed spec fn page_map(&self) -> Map<u64, usize> {
        self.map@
    }

    /// The fixed capacity the pool was constructed with.
    pub closed spec fn cap(&self) -> usize {
        self.capacity
    }

    /// The clock hand's position, as a spec value.
    pub closed spec fn hand(&self) -> usize {
        self.clock_hand
    }

    /// The number of occupied slots.
    pub open spec fn slot_count(&self) -> int {
        self.frame_seq().len() as int
    }

    /// The identity of the page resident in slot `i`.
    pub open spec fn pid_at(&self, i: int) -> u64 {
        self.frame_seq()[i].id().0
    }

    /// Whether every slot is occupied.
    pub open spec fn is_full(&self) -> bool {
        self.slot_count() == self.cap()
    }

    /// Well-formedness. Beyond plumbing (lengths agree, the hand is in
    /// range), this carries the pool's two advertised invariants: the index
    /// is exactly as large as the set of occupied slots, which never
    /// exceeds capacity; and the index and the slots point at each other
    /// bijectively, so the frame in a mapped slot carries the mapped page
    /// identity.
    pub open spec fn wf(&self) -> bool {
        &&& 1 <= self.cap()
        &&& self.counter_seq().len() == self.slot_count()
        &&& self.slot_count() <= self.cap()
        &&& if self.slot_count() == 0 {
            self.hand() == 0
        } else {
            (self.hand() as int) < self.slot_count()
        }
        &&& self.page_map().dom().len() == self.slot_count()
        &&& forall|i: int|
            0 <= i < self.slot_count() ==> self.page_map().contains_key(#[trigger] self.pid_at(i))
                && self.page_map()[self.pid_at(i)] as int == i
        &&& forall|k: u64|
            #[trigger] self.page_map().contains_key(k) ==> (self.page_map()[k] as int)
                < self.slot_count() && self.pid_at(self.page_map()[k] as int) == k
    }

    /// The slot index right after the hand, wrapping around. The hand may
    /// stand anywhere; only machine limits are asked for (a slot to wrap
    /// into, and an increment that fits).
    pub fn next_clock_hand(&self) -> (next: usize)
        requires
            self.slot_count() > 0,
            self.hand() < usize::MAX,
        ensures
            next as int == (self.hand() + 1) % self.slot_count(),
    {
        let occupied = self.frames.len();
        (self.clock_hand + 1) % occupied
    }

    /// The number of occupied slots.
    pub fn len(&self) -> (n: usize)
        ensures
            n as int == self.slot_count(),
    {
        self.frames.len()
    }

    /// The number of entries in the page index.
    pub fn map_len(&self) -> (n: usize)
        ensures
            n as int == self.page_map().dom().len(),
    {
        self.map.len()
    }

    /// The fixed capacity the pool was constructed with.
    pub fn capacity(&self) -> (n: usize)
        ensures
            n == self.cap(),
    {
        self.capacity
    }

    /// The use counter of slot `index`.
    pub fn counter_at(&self, index: usize) -> (counter: u64)
        requires
            (index as int) < self.slot_count(),
            self.counter_seq().len() == self.slot_count(),
        ensures
            counter == self.counter_seq()[index as int],
    {
        self.counters[index]
    }

    /// The identity of the page resident in slot `index`.
    pub fn page_id_at(&self, index: usize) -> (id: PageId)
        requires
            (index as int) < self.slot_count(),
        ensures
            id.0 == self.pid_at(index as int),
    {
        self.frames[index].page_id()
    }
}

/// A pool that gains one slot at the end keeps its bijection between the
/// index and the occupied slots.
proof fn lemma_wf_after_append(pre: ClockSweep, post: ClockSweep, page_id: PageId, frame: BufferFrame)
    requires
        pre.wf(),
        pre.slot_count() < pre.cap(),
        !pre.page_map().contains_key(page_id.0),
        frame.id() == page_id,
        post.frame_seq() == pre.frame_seq().push(frame),
        post.counter_seq() == pre.counter_seq().push(0u64),
        post.page_map() == pre.page_map().insert(page_id.0, pre.slot_count() as usize),
        post.cap() == pre.cap(),
        post.hand() == pre.hand(),
        post.page_map().dom().finite(),
    ensures
        post.wf(),
{
    let fresh = pre.slot_count();
    assert(post.page_map().dom() =~= pre.page_map().dom().insert(page_id.0));
    assert forall|i: int| 0 <= i < post.slot_count() implies post.page_map().contains_key(
        #[trigger] post.pid_at(i),
    ) && post.page_map()[post.pid_at(i)] as int == i by {
        if i == fresh {
            assert(post.pid_at(i) == page_id.0);
        } else {
            assert(post.pid_at(i) == pre.pid_at(i));
            assert(pre.page_map().contains_key(pre.pid_at(i)));
        }
    }
    assert forall|k: u64| #[trigger] post.page_map().contains_key(k) implies (post.page_map()[k]
        as int) < post.slot_count() && post.pid_at(post.page_map()[k] as int) == k by {
        if k == page_id.0 {
            assert(post.pid_at(fresh) == page_id.0);
        } else {
            assert(pre.page_map().contains_key(k));
            let j = pre.page_map()[k] as int;
            assert(pre.pid_at(j) == k);
            assert(post.pid_at(j) == pre.pid_at(j));
        }
    }
}

/// A pool whose victim slot is handed to a fresh page keeps its bijection:
/// the index trades the victim's identity for the new one, at the same
/// slot, and every other slot is untouched.
proof fn lemma_wf_after_replace(
    pre: ClockSweep,
    post: ClockSweep,
    page_id: PageId,
    frame: BufferFrame,
    idx: int,
)
    requires
        pre.wf(),
        0 <= idx < pre.slot_count(),
        !pre.page_map().contains_key(page_id.0),
        frame.id() == page_id,
        post.frame_seq() == pre.frame_seq().update(idx, frame),
        post.counter_seq().len() == pre.counter_seq().len(),
        post.page_map() == pre.page_map().remove(pre.pid_at(idx)).insert(page_id.0, idx as usize),
        post.cap() == pre.cap(),
        (post.hand() as int) < post.slot_count(),
        post.page_map().dom().finite(),
    ensures
        post.wf(),
{
    let victim_key = pre.pid_at(idx);
    assert(pre.page_map().contains_key(victim_key));
    assert(pre.page_map()[victim_key] as int == idx);
    assert(post.page_map().dom() =~= pre.page_map().dom().remove(victim_key).insert(page_id.0));
    assert forall|i: int| 0 <= i < post.slot_count() implies post.page_map().contains_key(
        #[trigger] post.pid_at(i),
    ) && post.page_map()[post.pid_at(i)] as int == i by {
        if i == idx {
            assert(post.pid_at(i) == page_id.0);
        } else {
            assert(post.pid_at(i) == pre.pid_at(i));
            assert(pre.page_map().contains_key(pre.pid_at(i)));
            assert(pre.page_map()[pre.pid_at(i)] as int == i);
            assert(pre.pid_at(i) != victim_key);
            assert(pre.pid_at(i) != page_id.0);
        }
    }
    assert forall|k: u64| #[trigger] post.page_map().contains_key(k) implies (post.page_map()[k]
        as int) < post.slot_count() && post.pid_at(post.page_map()[k] as int) == k by {
        if k == page_id.0 {
            assert(post.page_map()[k] as int == idx);
            assert(post.pid_at(idx) == page_id.0);
        } else {
            assert(pre.page_map().contains_key(k));
            assert(k != victim_key);
            let j = pre.page_map()[k] as int;
            assert(pre.pid_at(j) == k);
            assert(j != idx);
            assert(post.pid_at(j) == pre.pid_at(j));
        }
    }
}

/// Exactly how a push into free capacity leaves the policy: the frame is
/// appended as a new slot with use counter zero, the index gains the new
/// page at that slot, and the hand does not move.
pub open spec fn push_free_transition(
    pre: ClockSweep,
    post: ClockSweep,
    page_id: PageId,
    frame: BufferFrame,
) -> bool {
    &&& post.frame_seq() == pre.frame_seq().push(frame)
    &&& post.counter_seq() == pre.counter_seq().push(0u64)
    &&& post.page_map() == pre.page_map().insert(page_id.0, pre.frame_seq().len() as usize)
    &&& post.cap() == pre.cap()
    &&& post.hand() == pre.hand()
}

/// Exactly how a push into a full pool leaves the policy, given which
/// slots the pool owned exclusively when it began (`evictable`): the
/// outcome is what one [`sweep`] from the hand says. A victim's slot gets
/// the new frame, its use counter zero, and the hand comes to rest on it,
/// while the index trades the victim's page for the new one; an exhausted
/// sweep leaves the slots and the index as they were (the counters as the
/// sweep left them) and reports the pool full.
pub open spec fn push_full_transition(
    pre: ClockSweep,
    post: ClockSweep,
    page_id: PageId,
    frame: BufferFrame,
    evictable: Seq<bool>,
    result: Result<(PageId, BufferFrame), ClockSweepError>,
) -> bool {
    match sweep(pre.counter_seq(), evictable, pre.hand() as int, 0) {
        SweepOutcome::Victim { idx, counters } => {
            let victim = pre.frame_seq()[idx];
            &&& result == Ok::<(PageId, BufferFrame), ClockSweepError>((victim.id(), victim))
            &&& post.frame_seq() == pre.frame_seq().update(idx, frame)
            &&& post.counter_seq() == counters
            &&& post.page_map() == pre.page_map().remove(victim.id().0).insert(
                page_id.0,
                idx as usize,
            )
            &&& post.cap() == pre.cap()
            &&& post.hand() as int == idx
        },
        SweepOutcome::Exhausted { counters, hand } => {
            &&& result == Err::<(PageId, BufferFrame), ClockSweepError>(
                ClockSweepError::PoolIsFull,
            )
            &&& post.frame_seq() == pre.frame_seq()
            &&& post.counter_seq() == counters
            &&& post.page_map() == pre.page_map()
            &&& post.cap() == pre.cap()
            &&& post.hand() as int == hand
        },
    }
}

/// Exactly how a hit or a miss leaves the policy: a miss changes nothing
/// and returns nothing; a hit changes nothing but the hit slot's use
/// counter, which is bumped (saturating), and returns one more handle to
/// the hit slot's frame.
pub open spec fn request_transition(
    pre: ClockSweep,
    post: ClockSweep,
    page_id: PageId,
    result: Option<BufferFrame>,
) -> bool {
    &&& post.frame_seq() == pre.frame_seq()
    &&& post.page_map() == pre.page_map()
    &&& post.cap() == pre.cap()
    &&& post.hand() == pre.hand()
    &&& if pre.page_map().contains_key(page_id.0) {
        let idx = pre.page_map()[page_id.0] as int;
        &&& result == Some(pre.frame_seq()[idx])
        &&& post.counter_seq() == pre.counter_seq().update(idx, bump(pre.counter_seq()[idx]))
    } else {
        &&& result is None
        &&& post.counter_seq() == pre.counter_seq()
    }
}

impl ClockSweep {
    /// Construct an empty pool of `size_hint` slots (1024 where none is
    /// given). A capacity of zero is rejected at construction, so it is
    /// ruled out here.
    pub fn new(size_hint: Option<usize>) -> (pool: Self)
        requires
            size_hint matches Some(n) ==> n >= 1,
        ensures
            pool.wf(),
            pool.cap() == (match size_hint {
                Some(n) => n,
                None => 1024usize,
            }),
            pool.slot_count() == 0,
            pool.page_map() == Map::<u64, usize>::empty(),
            pool.hand() == 0,
    {
        let size = match size_hint {
            Some(n) => n,
            None => 1024,
        };
        let pool = Self {
            clock_hand: 0,
            counters: Vec::with_capacity(size),
            frames: Vec::with_capacity(size),
            map: HashMap::with_capacity(size),
            capacity: size,
        };
        proof {
            assert(pool.page_map().dom() =~= Set::<u64>::empty());
        }
        pool
    }

    /// Look `page_id` up. On a hit, bump the slot's use counter
    /// (saturating) and return one more handle to its frame; on a miss,
    /// change nothing and return nothing.
    pub fn request(&mut self, page_id: PageId) -> (result: Option<BufferFrame>)
        requires
            old(self).wf(),
        ensures
            final(self).wf(),
            request_transition(*old(self), *final(self), page_id, result),
    {
        let index_opt = match self.map.get(&page_id.0) {
            Some(index_ref) => Some(*index_ref),
            None => None,
        };
        match index_opt {
            Some(index) => {
                assert((index as int) < self.slot_count());
                let counter = self.counters[index];
                if counter < u64::MAX {
                    self.counters[index] = counter + 1;
                }
                proof {
                    assert(self.counters@ =~= old(self).counters@.update(
                        index as int,
                        bump(counter),
                    ));
                    lemma_wf_same_structure(*old(self), *self);
                }
                Some(self.frames[index].clone())
            },
            None => None,
        }
    }

    /// As [`ClockSweep::request`]; this policy has no meaningful hint.
    pub fn request_with_hint(&mut self, _hint: (), page_id: PageId) -> (result: Option<
        BufferFrame,
    >)
        requires
            old(self).wf(),
        ensures
            final(self).wf(),
            request_transition(*old(self), *final(self), page_id, result),
    {
        self.request(page_id)
    }

    /// Insert `frame` as the resident frame for `page_id`, which must not
    /// be resident yet. Into free capacity the frame is appended and the
    /// non-fatal `Success` signal is returned. Into a full pool, one
    /// second-chance sweep runs from the clock hand: the victim's identity
    /// and frame are returned and the new frame takes the victim's slot
    /// with use counter zero and the hand resting on it; if a whole
    /// rotation finds only externally referenced slots, the push fails
    /// with `PoolIsFull` and the index and slots stay as they were.
    pub fn push(&mut self, page_id: PageId, frame: BufferFrame) -> (result: Result<
        (PageId, BufferFrame),
        ClockSweepError,
    >)
        requires
            old(self).wf(),
            !old(self).page_map().contains_key(page_id.0),
            frame.id() == page_id,
        ensures
            final(self).wf(),
            final(self).cap() == old(self).cap(),
            !old(self).is_full() ==> result == Err::<(PageId, BufferFrame), ClockSweepError>(
                ClockSweepError::Success,
            ) && push_free_transition(*old(self), *final(self), page_id, frame),
            old(self).is_full() ==> exists|evictable: Seq<bool>|
                evictable.len() == old(self).slot_count() && #[trigger] push_full_transition(
                    *old(self),
                    *final(self),
                    page_id,
                    frame,
                    evictable,
                    result,
                ),
            result matches Ok((victim_id, victim)) ==> {
                &&& old(self).page_map().contains_key(victim_id.0)
                &&& victim.id() == victim_id
                &&& old(self).page_map()[victim_id.0] == final(self).hand()
                &&& victim == old(self).frame_seq()[final(self).hand() as int]
                &&& !final(self).page_map().contains_key(victim_id.0)
                &&& final(self).page_map() == old(self).page_map().remove(victim_id.0).insert(
                    page_id.0,
                    final(self).hand(),
                )
                &&& final(self).frame_seq() == old(self).frame_seq().update(
                    final(self).hand() as int,
                    frame,
                )
                &&& final(self).counter_seq()[final(self).hand() as int] == 0
            },
            result matches Err(e) ==> (e == ClockSweepError::Success <==> !old(self).is_full()),
            result == Err::<(PageId, BufferFrame), ClockSweepError>(ClockSweepError::PoolIsFull)
                ==> {
                &&& final(self).page_map() == old(self).page_map()
                &&& final(self).frame_seq() == old(self).frame_seq()
                &&& forall|i: int|
                    0 <= i < old(self).slot_count() ==> #[trigger] final(self).counter_seq()[i]
                        <= old(self).counter_seq()[i]
            },
    {
        let occupied = self.frames.len();
        if occupied < self.capacity {
            self.counters.push(0);
            self.frames.push(frame);
            self.map.insert(page_id.0, occupied);
            proof {
                lemma_wf_after_append(*old(self), *self, page_id, frame);
            }
            return Err(ClockSweepError::Success);
        }
        let mut evictable_flags: Vec<bool> = Vec::new();
        let mut probe: usize = 0;
        while probe < occupied
            invariant
                probe <= occupied,
                evictable_flags@.len() == probe as int,
                occupied as int == self.slot_count(),
                *self == *old(self),
            decreases occupied - probe,
        {
            evictable_flags.push(self.frames[probe].is_unique());
            probe = probe + 1;
        }
        let mut hand = self.clock_hand;
        let mut failures: usize = 0;
        loop
            invariant
                old(self).wf(),
                old(self).is_full(),
                self.frames@ == old(self).frame_seq(),
                self.map@ == old(self).page_map(),
                self.capacity == old(self).cap(),
                self.clock_hand == old(self).hand(),
                occupied as int == old(self).slot_count(),
                occupied >= 1,
                self.counters@.len() == occupied as int,
                (hand as int) < occupied as int,
                (failures as int) < occupied as int,
                evictable_flags@.len() == occupied as int,
                forall|j: int|
                    0 <= j < occupied as int ==> #[trigger] self.counters@[j] <= old(
                        self,
                    ).counter_seq()[j],
                sweep(old(self).counter_seq(), evictable_flags@, old(self).hand() as int, 0)
                    == sweep(self.counters@, evictable_flags@, hand as int, failures as int),
            ensures
                self.frames@ == old(self).frame_seq(),
                self.map@ == old(self).page_map(),
                self.capacity == old(self).cap(),
                self.clock_hand == old(self).hand(),
                self.counters@.len() == occupied as int,
                (hand as int) < occupied as int,
                self.counters@[hand as int] == 0,
                forall|j: int|
                    0 <= j < occupied as int ==> #[trigger] self.counters@[j] <= old(
                        self,
                    ).counter_seq()[j],
                sweep(old(self).counter_seq(), evictable_flags@, old(self).hand() as int, 0)
                    == (SweepOutcome::Victim { idx: hand as int, counters: self.counters@ }),
            decreases counter_sum(self.counters@), occupied as int - failures as int,
        {
            proof {
                lemma_counter_sum_nonneg(self.counters@);
            }
            let counter = self.counters[hand];
            if counter == 0 {
                proof {
                    assert(sweep(self.counters@, evictable_flags@, hand as int, failures as int)
                        == (SweepOutcome::Victim { idx: hand as int, counters: self.counters@ }));
                }
                break;
            }
            if evictable_flags[hand] {
                failures = 0;
                let ghost before = self.counters@;
                self.counters[hand] = counter - 1;
                proof {
                    assert(self.counters@ == before.update(hand as int, (counter - 1) as u64));
                    lemma_counter_sum_update(before, hand as int, (counter - 1) as u64);
                    lemma_counter_sum_nonneg(self.counters@);
                }
            } else {
                failures = failures + 1;
                if failures >= occupied {
                    self.clock_hand = hand;
                    proof {
                        lemma_wf_same_structure(*old(self), *self);
                        assert(push_full_transition(
                            *old(self),
                            *self,
                            page_id,
                            frame,
                            evictable_flags@,
                            Err::<(PageId, BufferFrame), ClockSweepError>(
                                ClockSweepError::PoolIsFull,
                            ),
                        ));
                    }
                    return Err(ClockSweepError::PoolIsFull);
                }
            }
            hand = (hand + 1) % occupied;
        }
        self.clock_hand = hand;
        let victim_frame = self.frames[hand].clone();
        let victim_id = victim_frame.page_id();
        proof {
            assert(victim_id.0 == old(self).pid_at(hand as int));
            assert(old(self).page_map().contains_key(victim_id.0));
            assert(old(self).page_map()[victim_id.0] as int == hand as int);
        }
        self.map.remove(&victim_id.0);
        self.frames[hand] = frame;
        self.map.insert(page_id.0, hand);
        let result = Ok::<(PageId, BufferFrame), ClockSweepError>((victim_id, victim_frame));
        proof {
            lemma_wf_after_replace(*old(self), *self, page_id, frame, hand as int);
            assert(push_full_transition(
                *old(self),
                *self,
                page_id,
                frame,
                evictable_flags@,
                result,
            ));
        }
        result
    }
}

/// Two states that share everything but their counters and hand, the hand
/// still inside the occupied slots, are well-formed together: the
/// bijection between the index and the slots does not see the counters.
proof fn lemma_wf_same_structure(pre: ClockSweep, post: ClockSweep)
    requires
        pre.wf(),
        post.frame_seq() == pre.frame_seq(),
        post.page_map() == pre.page_map(),
        post.cap() == pre.cap(),
        post.counter_seq().len() == pre.counter_seq().len(),
        pre.slot_count() > 0,
        (post.hand() as int) < post.slot_count(),
    ensures
        post.wf(),
{
    assert forall|i: int| 0 <= i < post.slot_count() implies post.page_map().contains_key(
        #[trigger] post.pid_at(i),
    ) && post.page_map()[post.pid_at(i)] as int == i by {
        assert(post.pid_at(i) == pre.pid_at(i));
    }
    assert forall|k: u64| #[trigger] post.page_map().contains_key(k) implies (post.page_map()[k]
        as int) < post.slot_count() && post.pid_at(post.page_map()[k] as int) == k by {
        assert(post.pid_at(post.page_map()[k] as int) == pre.pid_at(pre.page_map()[k] as int));
    }
}

/// The pool's advertised invariants, as every operation leaves them: the
/// index holds exactly one entry per occupied slot and the occupied slots
/// never exceed capacity; and every index entry points at a slot whose
/// frame carries that entry's page identity.
pub proof fn lemma_index_matches_slots(pool: ClockSweep)
    requires
        pool.wf(),
    ensures
        pool.page_map().dom().len() == pool.slot_count(),
        pool.slot_count() <= pool.cap(),
        forall|k: u64| #[trigger] pool.page_map().contains_key(k) ==> pool.pid_at(
            pool.page_map()[k] as int,
        ) == k,
        forall|i: int|
            0 <= i < pool.slot_count() ==> pool.page_map().contains_key(#[trigger] pool.pid_at(i)),
{
}

/// After a hit, an immediately repeated request for the same page with no
/// intervening push returns a handle to the same underlying frame, and the
/// frame's use counter is bumped once more.
pub proof fn lemma_repeat_request(
    pre: ClockSweep,
    mid: ClockSweep,
    post: ClockSweep,
    page_id: PageId,
    first: Option<BufferFrame>,
    second: Option<BufferFrame>,
)
    requires
        pre.wf(),
        request_transition(pre, mid, page_id, first),
        request_transition(mid, post, page_id, second),
        first is Some,
    ensures
        second == first,
        post.counter_seq()[pre.page_map()[page_id.0] as int] == bump(
            bump(pre.counter_seq()[pre.page_map()[page_id.0] as int]),
        ),
{
    assert(pre.page_map().contains_key(page_id.0));
    let idx = pre.page_map()[page_id.0] as int;
    assert(mid.counter_seq()[idx] == bump(pre.counter_seq()[idx]));
}

/// A push into a full pool never evicts a frame that some caller still
/// references, as long as no externally referenced slot's use counter has
/// already reached zero when the sweep starts. (The policy reads the
/// counter before the liveness of a slot, so a referenced slot already at
/// zero is taken like any other.)
pub proof fn lemma_push_spares_referenced_frames(
    pre: ClockSweep,
    post: ClockSweep,
    page_id: PageId,
    frame: BufferFrame,
    evictable: Seq<bool>,
    result: Result<(PageId, BufferFrame), ClockSweepError>,
)
    requires
        pre.wf(),
        pre.slot_count() > 0,
        evictable.len() == pre.slot_count(),
        push_full_transition(pre, post, page_id, frame, evictable, result),
        forall|i: int| 0 <= i < pre.slot_count() && !evictable[i] ==> pre.counter_seq()[i] > 0,
    ensures
        result matches Ok((victim_id, _)) ==> evictable[pre.page_map()[victim_id.0] as int],
{
    lemma_victim_is_evictable(pre.counter_seq(), evictable, pre.hand() as int, 0);
    lemma_sweep_shape(pre.counter_seq(), evictable, pre.hand() as int, 0);
    if result is Ok {
        let outcome = sweep(pre.counter_seq(), evictable, pre.hand() as int, 0);
        let idx = outcome->Victim_idx;
        assert(pre.page_map()[pre.pid_at(idx)] as int == idx);
    }
}

/// When every resident frame is externally referenced and every use
/// counter is positive, a push into the full pool fails with `PoolIsFull`
/// after a single bounded rotation, and neither the slots, the counters
/// nor the index change (only the hand moves).
pub proof fn lemma_push_all_referenced_fails(
    pre: ClockSweep,
    post: ClockSweep,
    page_id: PageId,
    frame: BufferFrame,
    evictable: Seq<bool>,
    result: Result<(PageId, BufferFrame), ClockSweepError>,
)
    requires
        pre.wf(),
        pre.slot_count() > 0,
        evictable.len() == pre.slot_count(),
        push_full_transition(pre, post, page_id, frame, evictable, result),
        forall|i: int| 0 <= i < pre.slot_count() ==> !evictable[i],
        forall|i: int| 0 <= i < pre.slot_count() ==> pre.counter_seq()[i] > 0,
    ensures
        result == Err::<(PageId, BufferFrame), ClockSweepError>(ClockSweepError::PoolIsFull),
        post.frame_seq() == pre.frame_seq(),
        post.counter_seq() == pre.counter_seq(),
        post.page_map() == pre.page_map(),
{
    lemma_all_referenced_exhausts(pre.counter_seq(), evictable, pre.hand() as int, 0);
}

impl PoolAlgorithm for ClockSweep {
    type Hint = ();

    type PushError = ClockSweepError;

    open spec fn inv(&self) -> bool {
        self.wf()
    }

    open spec fn resident(&self) -> Set<u64> {
        self.page_map().dom()
    }

    open spec fn is_full_error(err: &ClockSweepError) -> bool {
        *err == ClockSweepError::PoolIsFull
    }

    fn new(size_hint: Option<usize>) -> (pool: Self) {
        let pool = ClockSweep::new(size_hint);
        proof {
            assert(pool.page_map().dom() =~= Set::<u64>::empty());
        }
        pool
    }

    fn request(&mut self, page_id: PageId) -> (result: Option<BufferFrame>) {
        ClockSweep::request(self, page_id)
    }

    fn request_with_hint(&mut self, hint: (), page_id: PageId) -> (result: Option<BufferFrame>) {
        ClockSweep::request_with_hint(self, hint, page_id)
    }

    fn push(&mut self, page_id: PageId, frame: BufferFrame) -> (result: Result<
        (PageId, BufferFrame),
        ClockSweepError,
    >) {
        let result = ClockSweep::push(self, page_id, frame);
        proof {
            if result is Ok {
                assert(self.page_map().dom() =~= old(self).page_map().dom().remove(
                    result->Ok_0.0.0,
                ).insert(page_id.0));
            } else if result->Err_0 == ClockSweepError::Success {
                assert(self.page_map().dom() =~= old(self).page_map().dom().insert(page_id.0));
            } else {
                assert(result->Err_0 == ClockSweepError::PoolIsFull);
                assert(self.page_map().dom() =~= old(self).page_map().dom());
            }
        }
        result
    }
}

} // verus!
