use spatial_audio::handoff::StreamHandoff;

#[test]
fn new_handoff_is_empty() {
    let mut handoff: StreamHandoff<f32> = StreamHandoff::new(3);
    assert_eq!(handoff.capacity(), 3);
    assert_eq!(handoff.len(), 0);
    assert!(handoff.is_empty());
    assert!(!handoff.is_full());
    assert_eq!(handoff.try_pop(), None);
}

#[test]
fn chunks_come_out_in_the_order_they_went_in() {
    let mut handoff: StreamHandoff<f32> = StreamHandoff::new(3);
    assert_eq!(handoff.try_push(vec![1.0, 1.5]), Ok(()));
    assert_eq!(handoff.try_push(vec![2.0]), Ok(()));
    assert_eq!(handoff.try_push(vec![3.0, 3.5, 3.75]), Ok(()));
    assert_eq!(handoff.len(), 3);
    assert_eq!(handoff.try_pop(), Some(vec![1.0, 1.5]));
    assert_eq!(handoff.try_pop(), Some(vec![2.0]));
    assert_eq!(handoff.try_pop(), Some(vec![3.0, 3.5, 3.75]));
    assert_eq!(handoff.try_pop(), None);
}

#[test]
fn push_beyond_capacity_fails_fast() {
    let capacity = 4;
    let mut handoff: StreamHandoff<f32> = StreamHandoff::new(capacity);
    for i in 0..capacity {
        assert_eq!(handoff.try_push(vec![i as f32]), Ok(()));
    }
    assert!(handoff.is_full());
    assert_eq!(handoff.try_push(vec![99.0, 98.0]), Err(vec![99.0, 98.0]));
    assert_eq!(handoff.len(), capacity);
    for i in 0..capacity {
        assert_eq!(handoff.try_pop(), Some(vec![i as f32]));
    }
    assert_eq!(handoff.try_pop(), None);
}

#[test]
fn refused_push_can_be_repeated_after_a_pop() {
    let mut handoff: StreamHandoff<f32> = StreamHandoff::new(2);
    assert_eq!(handoff.try_push(vec![1.0]), Ok(()));
    assert_eq!(handoff.try_push(vec![2.0]), Ok(()));
    let back = handoff.try_push(vec![3.0]).unwrap_err();
    assert_eq!(handoff.try_pop(), Some(vec![1.0]));
    assert_eq!(handoff.try_push(back), Ok(()));
    assert_eq!(handoff.try_pop(), Some(vec![2.0]));
    assert_eq!(handoff.try_pop(), Some(vec![3.0]));
}

#[test]
fn ring_wraps_around_many_times() {
    let mut handoff: StreamHandoff<f32> = StreamHandoff::new(3);
    let mut next_in = 0;
    let mut next_out = 0;
    for round in 0..50 {
        let pushes = 1 + round % 3;
        for _ in 0..pushes {
            if handoff.try_push(vec![next_in as f32]).is_ok() {
                next_in += 1;
            }
        }
        let pops = 1 + (round / 2) % 3;
        for _ in 0..pops {
            if let Some(chunk) = handoff.try_pop() {
                assert_eq!(chunk, vec![next_out as f32]);
                next_out += 1;
            }
        }
        assert_eq!(handoff.len(), next_in - next_out);
    }
    assert!(next_out > 10);
}

#[test]
fn handoff_without_room_refuses_everything() {
    let mut handoff: StreamHandoff<f32> = StreamHandoff::new(0);
    assert_eq!(handoff.capacity(), 0);
    assert!(handoff.is_empty());
    assert!(handoff.is_full());
    assert_eq!(handoff.try_push(vec![1.0]), Err(vec![1.0]));
    assert_eq!(handoff.try_pop(), None);
}

#[test]
fn empty_chunks_are_queued_like_any_other() {
    let mut handoff: StreamHandoff<f32> = StreamHandoff::new(2);
    assert_eq!(handoff.try_push(Vec::new()), Ok(()));
    assert_eq!(handoff.len(), 1);
    assert_eq!(handoff.try_pop(), Some(Vec::new()));
    assert!(handoff.is_empty());
}
