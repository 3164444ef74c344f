use mangatan::ocr::chunk::Chunk;
use mangatan::ocr::fixed::UNIT;
use mangatan::ocr::geometry::{BoundingBox, LineGeometry, QUARTER_TURN};
use mangatan::ocr::merge::MergeConfig;
use mangatan::ocr::pipeline::{flatten_lines, process_chunk, PageJob, RawLine};

fn upright(text: &str, cx: i64, cy: i64, w: i64, h: i64) -> RawLine {
    RawLine {
        text: text.to_string(),
        geometry: Some(LineGeometry {
            center_x: cx,
            center_y: cy,
            width: w,
            height: h,
            rotation: 0,
            cos: UNIT,
            sin: 0,
        }),
    }
}

#[test]
fn lines_without_geometry_or_text_are_dropped() {
    let lines = vec![
        RawLine { text: "no place".to_string(), geometry: None },
        upright("  \t ", 500_000, 100_000, 200_000, 10_000),
        upright("kept", 500_000, 200_000, 200_000, 10_000),
        upright("bad", 500_000, 200_000, -1, 10_000),
        upright("日本 語", 500_000, 600_000, 20_000, 300_000),
    ];
    let out = flatten_lines(lines, 1000, 1000);
    assert_eq!(out.len(), 2);
    assert_eq!(out[0].text, "kept");
    assert_eq!(out[0].is_merged, Some(false));
    assert_eq!(out[0].forced_orientation.as_deref(), Some("horizontal"));
    assert_eq!(out[0].tight_bounding_box.rotation, None);
    assert_eq!(out[1].text, "日本語");
    assert_eq!(out[1].forced_orientation.as_deref(), Some("vertical"));
}

#[test]
fn turned_line_is_marked_vertical() {
    let line = RawLine {
        text: "abc".to_string(),
        geometry: Some(LineGeometry {
            center_x: 500_000,
            center_y: 500_000,
            width: 400_000,
            height: 50_000,
            rotation: QUARTER_TURN,
            cos: 0,
            sin: UNIT,
        }),
    };
    let out = flatten_lines(vec![line], 1000, 1000);
    assert_eq!(out[0].forced_orientation.as_deref(), Some("vertical"));
}

#[test]
fn chunk_lines_end_up_on_the_page() {
    // second chunk of a page 900 wide and 6000 high
    let chunk = Chunk { offset_y: 3000, width: 900, height: 3000 };
    let lines = vec![
        upright("Hello", 500_000, 170_000, 400_000, 10_000),
        upright("world", 500_000, 182_000, 400_000, 10_000),
        upright("alone", 500_000, 900_000, 400_000, 10_000),
    ];
    let config = MergeConfig { add_space_on_merge: Some(true) };
    let out = process_chunk(lines, &chunk, 6000, &config);
    assert_eq!(out.len(), 2);
    assert_eq!(out[0].text, "Hello world");
    assert_eq!(out[0].is_merged, Some(true));
    // rows 495 to 561 of the chunk, 3495 to 3561 of the page
    assert_eq!(
        out[0].tight_bounding_box,
        BoundingBox { x: 300_000, y: 582_500, width: 400_000, height: 11_000, rotation: None }
    );
    assert_eq!(out[1].text, "alone");
    assert_eq!(out[1].is_merged, Some(false));
    assert_eq!(out[1].tight_bounding_box.y, (3000 + 2685) * 1_000_000 / 6000);
}

#[test]
fn page_without_extent_yields_nothing() {
    let chunk = Chunk { offset_y: 0, width: 0, height: 10 };
    let lines = vec![upright("a", 500_000, 500_000, 100_000, 100_000)];
    assert!(process_chunk(lines, &chunk, 10, &MergeConfig::default()).is_empty());
    let chunk = Chunk { offset_y: 0, width: 10, height: 10 };
    let lines = vec![upright("a", 500_000, 500_000, 100_000, 100_000)];
    assert!(process_chunk(lines, &chunk, 0, &MergeConfig::default()).is_empty());
}

#[test]
fn job_takes_chunks_in_order() {
    let mut job = PageJob::new(900, 6000, 3000, MergeConfig::default());
    assert_eq!(job.pending(), Some(Chunk { offset_y: 0, width: 900, height: 3000 }));
    job.accept(vec![upright("top", 500_000, 500_000, 400_000, 10_000)]);
    assert_eq!(job.pending(), Some(Chunk { offset_y: 3000, width: 900, height: 3000 }));
    job.accept(vec![upright("bottom", 500_000, 500_000, 400_000, 10_000)]);
    assert_eq!(job.pending(), None);
    let out = job.finish().unwrap();
    assert_eq!(out.len(), 2);
    assert_eq!(out[0].text, "top");
    assert_eq!(out[0].tight_bounding_box.y, 247_500);
    assert_eq!(out[1].text, "bottom");
    assert_eq!(out[1].tight_bounding_box.y, 747_500);
}

#[test]
fn unfinished_job_hands_out_nothing() {
    let mut job = PageJob::new(900, 6000, 3000, MergeConfig::default());
    job.accept(vec![upright("top", 500_000, 500_000, 400_000, 10_000)]);
    assert!(job.finish().is_none());
}

#[test]
fn finished_job_ignores_further_lines() {
    let mut job = PageJob::new(900, 100, 3000, MergeConfig::default());
    job.accept(Vec::new());
    job.accept(vec![upright("late", 500_000, 500_000, 400_000, 10_000)]);
    assert_eq!(job.finish().map(|r| r.len()), Some(0));
}

#[test]
fn empty_page_is_finished_at_once() {
    let job = PageJob::new(900, 0, 3000, MergeConfig::default());
    assert_eq!(job.pending(), None);
    assert_eq!(job.finish().map(|r| r.len()), Some(0));
}
