use mangatan::ocr::chunk::chunk_rows;
use mangatan::ocr::fixed::{PIXEL, UNIT};
use mangatan::ocr::geometry::BoundingBox;
use mangatan::ocr::renorm::{renormalize, renormalize_results};
use mangatan::ocr::result::OcrResult;

fn chunk_box(x: i64, y: i64, w: i64, h: i64) -> BoundingBox {
    BoundingBox { x: x * PIXEL, y: y * PIXEL, width: w * PIXEL, height: h * PIXEL, rotation: None }
}

#[test]
fn whole_chunk_becomes_the_unit_square() {
    let b = chunk_box(0, 0, 900, 1400);
    assert_eq!(
        renormalize(&b, 0, 900, 1400),
        Some(BoundingBox { x: 0, y: 0, width: UNIT, height: UNIT, rotation: None })
    );
}

#[test]
fn second_chunk_is_shifted_by_its_offset() {
    let chunks = chunk_rows(900, 6000, 3000);
    assert_eq!(chunks.len(), 2);
    let second = chunks[1];
    let b = chunk_box(90, 500, 450, 300);
    let moved = renormalize(&b, second.offset_y, 900, 6000).unwrap();
    assert_eq!(moved.y, 583_333);
    let expected = ((500.0 + 3000.0) / 6000.0 * 1_000_000.0_f64).floor() as i64;
    assert_eq!(moved.y, expected);
    assert_eq!(moved.x, 100_000);
    assert_eq!(moved.width, 500_000);
    assert_eq!(moved.height, 50_000);
    assert_eq!(moved.rotation, None);
}

#[test]
fn fractions_round_down() {
    let b = BoundingBox { x: 1, y: -1, width: 3 * PIXEL - 1, height: 0, rotation: None };
    let moved = renormalize(&b, 0, 3, 3).unwrap();
    assert_eq!(moved.x, 0);
    assert_eq!(moved.y, -1);
    assert_eq!(moved.width, 999_999);
    assert_eq!(moved.height, 0);
}

#[test]
fn negative_positions_stay_visible() {
    let b = chunk_box(-50, -30, 100, 60);
    let moved = renormalize(&b, 0, 1000, 1000).unwrap();
    assert_eq!(moved.x, -50_000);
    assert_eq!(moved.y, -30_000);
}

#[test]
fn extreme_boxes_do_not_overflow() {
    let b = BoundingBox { x: i64::MIN, y: i64::MAX, width: i64::MAX, height: i64::MIN, rotation: None };
    let moved = renormalize(&b, u32::MAX, 1, 1).unwrap();
    assert_eq!(moved.x, i64::MIN / 2);
    assert_eq!(moved.width, i64::MAX / 2);
    assert_eq!(moved.y, ((i64::MAX as i128 + u32::MAX as i128 * PIXEL as i128) / 2) as i64);
}

#[test]
fn page_without_extent_has_no_boxes() {
    let b = chunk_box(0, 0, 1, 1);
    assert_eq!(renormalize(&b, 0, 0, 10), None);
    assert_eq!(renormalize(&b, 0, 10, 0), None);
    assert!(renormalize_results(Vec::new(), 0, 0, 10).is_none());
}

#[test]
fn results_are_moved_each_once_and_in_order() {
    let results = vec![
        OcrResult {
            text: "a".to_string(),
            tight_bounding_box: chunk_box(0, 0, 100, 100),
            is_merged: Some(false),
            forced_orientation: Some("vertical".to_string()),
        },
        OcrResult {
            text: "b".to_string(),
            tight_bounding_box: chunk_box(100, 1000, 100, 500),
            is_merged: Some(true),
            forced_orientation: None,
        },
    ];
    let moved = renormalize_results(results, 1000, 200, 4000).unwrap();
    assert_eq!(moved.len(), 2);
    assert_eq!(moved[0].text, "a");
    assert_eq!(moved[0].is_merged, Some(false));
    assert_eq!(moved[0].forced_orientation.as_deref(), Some("vertical"));
    assert_eq!(
        moved[0].tight_bounding_box,
        BoundingBox { x: 0, y: 250_000, width: 500_000, height: 25_000, rotation: None }
    );
    assert_eq!(moved[1].text, "b");
    assert_eq!(moved[1].is_merged, Some(true));
    assert_eq!(
        moved[1].tight_bounding_box,
        BoundingBox { x: 500_000, y: 500_000, width: 500_000, height: 125_000, rotation: None }
    );
}
