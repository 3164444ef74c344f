use mangatan::ocr::chunk::{chunk_rows, Chunk, DEFAULT_CHUNK_HEIGHT};

fn covers_exactly(height: u32, limit: u32) {
    let chunks = chunk_rows(640, height, limit);
    let mut next: u64 = 0;
    let mut sum: u64 = 0;
    for c in &chunks {
        assert_eq!(c.offset_y as u64, next);
        assert_eq!(c.width, 640);
        assert!(c.height > 0);
        assert!(c.height <= limit);
        next += c.height as u64;
        sum += c.height as u64;
    }
    assert_eq!(sum, height as u64);
    if limit > 0 {
        let expected = (height as u64 + limit as u64 - 1) / limit as u64;
        assert_eq!(chunks.len() as u64, expected);
    }
}

#[test]
fn six_thousand_rows_give_two_chunks() {
    assert_eq!(DEFAULT_CHUNK_HEIGHT, 3000);
    let chunks = chunk_rows(900, 6000, DEFAULT_CHUNK_HEIGHT);
    assert_eq!(chunks.len(), 2);
    assert_eq!(chunks[0], Chunk { offset_y: 0, width: 900, height: 3000 });
    assert_eq!(chunks[1], Chunk { offset_y: 3000, width: 900, height: 3000 });
}

#[test]
fn last_chunk_may_be_shorter() {
    let chunks = chunk_rows(10, 7001, 3000);
    assert_eq!(chunks.len(), 3);
    assert_eq!(chunks[2], Chunk { offset_y: 6000, width: 10, height: 1001 });
}

#[test]
fn short_page_is_one_chunk() {
    let chunks = chunk_rows(10, 1200, 3000);
    assert_eq!(chunks, vec![Chunk { offset_y: 0, width: 10, height: 1200 }]);
}

#[test]
fn empty_page_has_no_chunk() {
    assert!(chunk_rows(10, 0, 3000).is_empty());
}

#[test]
fn zero_limit_gives_no_chunk() {
    assert!(chunk_rows(10, 500, 0).is_empty());
}

#[test]
fn chunks_partition_the_rows() {
    covers_exactly(1, 1);
    covers_exactly(2999, 3000);
    covers_exactly(3000, 3000);
    covers_exactly(3001, 3000);
    covers_exactly(9000, 3000);
    covers_exactly(12345, 77);
    covers_exactly(100, 7);
}

#[test]
fn tallest_page_does_not_overflow() {
    let chunks = chunk_rows(1, u32::MAX, u32::MAX - 1);
    assert_eq!(chunks.len(), 2);
    assert_eq!(chunks[1], Chunk { offset_y: u32::MAX - 1, width: 1, height: 1 });
}
