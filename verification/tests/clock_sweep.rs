use bufpool::BufferFrame;
use bufpool::ClockSweep;
use bufpool::ClockSweepError;
use bufpool::PageId;

fn create_mock_frame(id: usize) -> BufferFrame {
    let page_id = PageId(id as u64);
    let page = vec![0; 4096];
    BufferFrame::new(page_id, page)
}

#[test]
fn test_clock_sweep() {
    let mut pool = ClockSweep::new(Some(3));

    let frame1 = create_mock_frame(1);
    let frame2 = create_mock_frame(2);
    let frame3 = create_mock_frame(3);
    let frame4 = create_mock_frame(4);
    let frame5 = create_mock_frame(5);

    assert_eq!(pool.push(PageId(1), frame1.clone()), Err(ClockSweepError::Success));
    assert_eq!(pool.push(PageId(2), frame2), Err(ClockSweepError::Success));
    assert_eq!(pool.push(PageId(3), frame3), Err(ClockSweepError::Success));

    assert_eq!(pool.len(), 3);
    assert_eq!(pool.map_len(), 3);

    let got_frame2 = pool.request(PageId(2)).unwrap();
    let got_frame3 = pool.request(PageId(3)).unwrap();

    assert_eq!(pool.push(PageId(4), frame4.clone()), Ok((PageId(1), frame1.clone())));

    assert_eq!(pool.len(), 3);
    assert_eq!(pool.map_len(), 3);

    assert_eq!(pool.counter_at(0), 0);
    assert_eq!(pool.page_id_at(0), PageId(4));

    assert_eq!(pool.counter_at(1), 1);
    assert_eq!(pool.page_id_at(1), PageId(2));

    assert_eq!(pool.counter_at(2), 1);
    assert_eq!(pool.page_id_at(2), PageId(3));

    drop(got_frame2);
    drop(got_frame3);

    pool.clock_hand = 1;
    assert_eq!(pool.push(PageId(5), frame5.clone()), Ok((PageId(4), frame4.clone())));

    assert_eq!(pool.len(), 3);
    assert_eq!(pool.map_len(), 3);

    assert_eq!(pool.counter_at(0), 0);
    assert_eq!(pool.page_id_at(0), PageId(5));

    assert_eq!(pool.counter_at(1), 0);
    assert_eq!(pool.page_id_at(1), PageId(2));

    assert_eq!(pool.counter_at(2), 0);
    assert_eq!(pool.page_id_at(2), PageId(3));
}
