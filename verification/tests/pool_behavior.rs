use bufpool::BufferFrame;
use bufpool::ClockSweep;
use bufpool::ClockSweepError;
use bufpool::PageId;

fn frame_for(id: u64) -> BufferFrame {
    BufferFrame::new(PageId(id), vec![0; 4096])
}

#[test]
fn fill_without_eviction() {
    let mut pool = ClockSweep::new(Some(3));
    assert_eq!(pool.push(PageId(1), frame_for(1)), Err(ClockSweepError::Success));
    assert_eq!(pool.push(PageId(2), frame_for(2)), Err(ClockSweepError::Success));
    assert_eq!(pool.push(PageId(3), frame_for(3)), Err(ClockSweepError::Success));
    assert_eq!(pool.len(), 3);
    assert_eq!(pool.map_len(), 3);
    assert_eq!(pool.clock_hand, 0);
    assert_eq!(pool.counter_at(0), 0);
    assert_eq!(pool.counter_at(1), 0);
    assert_eq!(pool.counter_at(2), 0);
    assert_eq!(pool.page_id_at(0), PageId(1));
    assert_eq!(pool.page_id_at(1), PageId(2));
    assert_eq!(pool.page_id_at(2), PageId(3));
}

#[test]
fn second_chance_demotes_then_evicts() {
    let mut pool = ClockSweep::new(Some(2));
    assert_eq!(pool.push(PageId(10), frame_for(10)), Err(ClockSweepError::Success));
    assert_eq!(pool.push(PageId(11), frame_for(11)), Err(ClockSweepError::Success));
    drop(pool.request(PageId(10)).unwrap());
    drop(pool.request(PageId(11)).unwrap());
    assert_eq!(pool.counter_at(0), 1);
    assert_eq!(pool.counter_at(1), 1);
    // Both counters are demoted over one rotation, then the slot the hand
    // started from is taken.
    let evicted = pool.push(PageId(12), frame_for(12)).unwrap();
    assert_eq!(evicted.0, PageId(10));
    assert_eq!(evicted.1.page_id(), PageId(10));
    assert_eq!(pool.page_id_at(0), PageId(12));
    assert_eq!(pool.page_id_at(1), PageId(11));
    assert_eq!(pool.counter_at(0), 0);
    assert_eq!(pool.counter_at(1), 0);
    assert_eq!(pool.clock_hand, 0);
    assert_eq!(pool.map_len(), 2);
}

#[test]
fn eviction_skips_referenced_frames() {
    let mut pool = ClockSweep::new(Some(3));
    assert_eq!(pool.push(PageId(1), frame_for(1)), Err(ClockSweepError::Success));
    assert_eq!(pool.push(PageId(2), frame_for(2)), Err(ClockSweepError::Success));
    assert_eq!(pool.push(PageId(3), frame_for(3)), Err(ClockSweepError::Success));
    let held2 = pool.request(PageId(2)).unwrap();
    let held3 = pool.request(PageId(3)).unwrap();
    assert_eq!(pool.push(PageId(4), frame_for(4)), Ok((PageId(1), frame_for(1))));
    // Slots now hold [4, 2, 3] with counters [0, 1, 1]; 2 and 3 stay pinned.
    pool.clock_hand = 1;
    let evicted = pool.push(PageId(5), frame_for(5)).unwrap();
    assert_eq!(evicted.0, PageId(4));
    assert_eq!(pool.page_id_at(0), PageId(5));
    assert_eq!(pool.page_id_at(1), PageId(2));
    assert_eq!(pool.page_id_at(2), PageId(3));
    // The pinned slots were skipped, not demoted.
    assert_eq!(pool.counter_at(0), 0);
    assert_eq!(pool.counter_at(1), 1);
    assert_eq!(pool.counter_at(2), 1);
    assert_eq!(pool.clock_hand, 0);
    drop(held2);
    drop(held3);
}

#[test]
fn fully_pinned_pool_fails_cleanly() {
    let mut pool = ClockSweep::new(Some(2));
    let f10 = frame_for(10);
    let f11 = frame_for(11);
    assert_eq!(pool.push(PageId(10), f10.clone()), Err(ClockSweepError::Success));
    assert_eq!(pool.push(PageId(11), f11.clone()), Err(ClockSweepError::Success));
    let held10 = pool.request(PageId(10)).unwrap();
    let held11 = pool.request(PageId(11)).unwrap();
    assert_eq!(pool.push(PageId(12), frame_for(12)), Err(ClockSweepError::PoolIsFull));
    // Nothing was evicted, demoted or unmapped.
    assert_eq!(pool.len(), 2);
    assert_eq!(pool.map_len(), 2);
    assert_eq!(pool.page_id_at(0), PageId(10));
    assert_eq!(pool.page_id_at(1), PageId(11));
    assert_eq!(pool.counter_at(0), 1);
    assert_eq!(pool.counter_at(1), 1);
    drop(held10);
    drop(held11);
    drop(f10);
    drop(f11);
}

#[test]
fn pool_usable_after_full_failure() {
    let mut pool = ClockSweep::new(Some(2));
    let f10 = frame_for(10);
    let f11 = frame_for(11);
    assert_eq!(pool.push(PageId(10), f10.clone()), Err(ClockSweepError::Success));
    assert_eq!(pool.push(PageId(11), f11.clone()), Err(ClockSweepError::Success));
    let held10 = pool.request(PageId(10)).unwrap();
    let held11 = pool.request(PageId(11)).unwrap();
    assert_eq!(pool.push(PageId(12), frame_for(12)), Err(ClockSweepError::PoolIsFull));
    drop(held10);
    drop(held11);
    drop(f10);
    drop(f11);
    // The failed sweep left the hand on the last skipped slot; with the
    // handles gone, the retry demotes both slots and takes that one.
    assert_eq!(pool.clock_hand, 1);
    let evicted = pool.push(PageId(12), frame_for(12)).unwrap();
    assert_eq!(evicted.0, PageId(11));
    assert_eq!(pool.page_id_at(0), PageId(10));
    assert_eq!(pool.page_id_at(1), PageId(12));
    assert_eq!(pool.map_len(), 2);
}

#[test]
fn repeated_request_hits_same_frame() {
    let mut pool = ClockSweep::new(Some(2));
    assert_eq!(pool.push(PageId(7), frame_for(7)), Err(ClockSweepError::Success));
    let first = pool.request(PageId(7)).unwrap();
    assert_eq!(pool.counter_at(0), 1);
    let second = pool.request(PageId(7)).unwrap();
    assert_eq!(pool.counter_at(0), 2);
    assert_eq!(first.page_id(), PageId(7));
    assert_eq!(second.page_id(), PageId(7));
    // Both handles see the same underlying frame: bytes written through one
    // are read through the other.
    first.get_page_mut().unwrap()[0] = 0xAB;
    assert_eq!(second.get_page_ref().unwrap()[0], 0xAB);
    assert!(second.is_dirty());
}

#[test]
fn request_misses_leave_pool_untouched() {
    let mut pool = ClockSweep::new(Some(2));
    assert!(pool.request(PageId(1)).is_none());
    assert_eq!(pool.push(PageId(1), frame_for(1)), Err(ClockSweepError::Success));
    assert!(pool.request(PageId(2)).is_none());
    assert_eq!(pool.len(), 1);
    assert_eq!(pool.map_len(), 1);
    assert_eq!(pool.counter_at(0), 0);
}

#[test]
fn request_with_hint_delegates() {
    let mut pool = ClockSweep::new(Some(2));
    assert_eq!(pool.push(PageId(3), frame_for(3)), Err(ClockSweepError::Success));
    let got = pool.request_with_hint((), PageId(3)).unwrap();
    assert_eq!(got.page_id(), PageId(3));
    assert_eq!(pool.counter_at(0), 1);
    assert!(pool.request_with_hint((), PageId(4)).is_none());
}

#[test]
fn default_capacity_without_hint() {
    let pool = ClockSweep::new(None);
    assert_eq!(pool.capacity(), 1024);
    assert_eq!(pool.len(), 0);
    assert_eq!(pool.map_len(), 0);
}

#[test]
fn next_clock_hand_wraps() {
    let mut pool = ClockSweep::new(Some(3));
    assert_eq!(pool.push(PageId(1), frame_for(1)), Err(ClockSweepError::Success));
    assert_eq!(pool.push(PageId(2), frame_for(2)), Err(ClockSweepError::Success));
    assert_eq!(pool.push(PageId(3), frame_for(3)), Err(ClockSweepError::Success));
    assert_eq!(pool.next_clock_hand(), 1);
    pool.clock_hand = 2;
    assert_eq!(pool.next_clock_hand(), 0);
}
