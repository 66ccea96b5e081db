use spatial_audio::chunk::ChunkFormat;

fn ramp(n: usize) -> Vec<f32> {
    (0..n).map(|i| i as f32 + 1.0).collect()
}

#[test]
fn format_is_steps_times_block_len() {
    let format = ChunkFormat::new(8, 128).unwrap();
    assert_eq!(format.interpolation_steps(), 8);
    assert_eq!(format.block_len(), 128);
    assert_eq!(format.len(), 1024);
}

#[test]
fn format_refuses_empty_chunks() {
    assert!(ChunkFormat::new(0, 128).is_none());
    assert!(ChunkFormat::new(8, 0).is_none());
    assert!(ChunkFormat::new(0, 0).is_none());
}

#[test]
fn format_refuses_a_length_beyond_usize() {
    assert!(ChunkFormat::new(usize::MAX, 2).is_none());
    assert!(ChunkFormat::new(2, usize::MAX).is_none());
    assert!(ChunkFormat::new(usize::MAX, 1).is_some());
    assert_eq!(ChunkFormat::new(1, usize::MAX).unwrap().len(), usize::MAX);
}

#[test]
fn source_of_whole_chunks_gives_that_many() {
    let format = ChunkFormat::new(8, 128).unwrap();
    assert_eq!(format.count(0), 0);
    assert_eq!(format.count(1024), 1);
    assert_eq!(format.count(2048), 2);
    assert_eq!(format.count(10 * 1024), 10);
}

#[test]
fn remainder_gives_one_more_chunk() {
    let format = ChunkFormat::new(8, 128).unwrap();
    assert_eq!(format.count(1), 1);
    assert_eq!(format.count(1023), 1);
    assert_eq!(format.count(1025), 2);
    assert_eq!(format.count(2048 + 5), 3);
    assert_eq!(format.count(3 * 1024 - 1), 3);
}

#[test]
fn count_of_the_largest_source() {
    let format = ChunkFormat::new(1, 2).unwrap();
    assert_eq!(format.count(usize::MAX), usize::MAX / 2 + 1);
    let single = ChunkFormat::new(1, 1).unwrap();
    assert_eq!(single.count(usize::MAX), usize::MAX);
}

#[test]
fn whole_chunks_hold_no_padding() {
    let format = ChunkFormat::new(2, 3).unwrap();
    let source = ramp(12);
    assert_eq!(format.count(source.len()), 2);
    assert_eq!(format.chunk(&source, 0, 0.0), vec![1.0, 2.0, 3.0, 4.0, 5.0, 6.0]);
    assert_eq!(format.chunk(&source, 1, 0.0), vec![7.0, 8.0, 9.0, 10.0, 11.0, 12.0]);
}

#[test]
fn last_chunk_is_padded_to_full_length() {
    let format = ChunkFormat::new(2, 3).unwrap();
    let source = ramp(8);
    assert_eq!(format.count(source.len()), 2);
    assert_eq!(format.chunk(&source, 0, 0.0), vec![1.0, 2.0, 3.0, 4.0, 5.0, 6.0]);
    assert_eq!(format.chunk(&source, 1, 0.0), vec![7.0, 8.0, 0.0, 0.0, 0.0, 0.0]);
}

#[test]
fn padding_of_a_large_partial_chunk() {
    let format = ChunkFormat::new(8, 128).unwrap();
    let source = vec![1.0f32; 2 * 1024 + 5];
    assert_eq!(format.count(source.len()), 3);
    for index in 0..2 {
        let chunk = format.chunk(&source, index, 0.0);
        assert_eq!(chunk.len(), 1024);
        assert!(chunk.iter().all(|&s| s == 1.0));
    }
    let last = format.chunk(&source, 2, 0.0);
    assert_eq!(last.len(), 1024);
    assert!(last[..5].iter().all(|&s| s == 1.0));
    assert!(last[5..].iter().all(|&s| s == 0.0));
    assert_eq!(last[5..].len(), 1024 - 5);
}

#[test]
fn chunk_behind_the_source_is_all_padding() {
    let format = ChunkFormat::new(2, 2).unwrap();
    let source = ramp(4);
    assert_eq!(format.chunk(&source, 1, -1.0), vec![-1.0; 4]);
    assert_eq!(format.chunk(&source, 7, -1.0), vec![-1.0; 4]);
    assert_eq!(format.chunk(&source, usize::MAX, -1.0), vec![-1.0; 4]);
}

#[test]
fn chunk_of_an_empty_source_is_all_padding() {
    let format = ChunkFormat::new(1, 3).unwrap();
    let source: Vec<f32> = Vec::new();
    assert_eq!(format.count(0), 0);
    assert_eq!(format.chunk(&source, 0, 0.5), vec![0.5, 0.5, 0.5]);
}

#[test]
fn chunks_put_together_give_the_source_and_padding() {
    let format = ChunkFormat::new(3, 5).unwrap();
    let source = ramp(15 * 4 + 7);
    let mut all: Vec<f32> = Vec::new();
    for index in 0..format.count(source.len()) {
        all.extend(format.chunk(&source, index, 0.0));
    }
    assert_eq!(all.len(), 15 * 5);
    assert_eq!(&all[..source.len()], &source[..]);
    assert!(all[source.len()..].iter().all(|&s| s == 0.0));
}
