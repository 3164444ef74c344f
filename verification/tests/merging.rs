use mangatan::ocr::fixed::PIXEL;
use mangatan::ocr::geometry::BoundingBox;
use mangatan::ocr::merge::{auto_merge, continues_block, MergeConfig, COORD_LIMIT};
use mangatan::ocr::result::OcrResult;

fn px(v: i64) -> i64 {
    v * PIXEL
}

fn line(text: &str, x: i64, y: i64, w: i64, h: i64, orientation: &str) -> OcrResult {
    OcrResult {
        text: text.to_string(),
        tight_bounding_box: BoundingBox {
            x: px(x),
            y: px(y),
            width: px(w),
            height: px(h),
            rotation: None,
        },
        is_merged: Some(false),
        forced_orientation: Some(orientation.to_string()),
    }
}

fn texts(results: &[OcrResult]) -> Vec<String> {
    results.iter().map(|r| r.text.clone()).collect()
}

fn spaced() -> MergeConfig {
    MergeConfig { add_space_on_merge: Some(true) }
}

#[test]
fn default_config_adds_no_space() {
    assert_eq!(MergeConfig::default().add_space_on_merge, None);
}

#[test]
fn stacked_horizontal_lines_merge() {
    let lines = vec![
        line("Hello", 100, 100, 200, 30, "horizontal"),
        line("world", 100, 140, 180, 30, "horizontal"),
    ];
    let out = auto_merge(lines, 1000, 3000, &MergeConfig::default());
    assert_eq!(out.len(), 1);
    assert_eq!(out[0].text, "Helloworld");
    assert_eq!(out[0].is_merged, Some(true));
    assert_eq!(out[0].forced_orientation.as_deref(), Some("horizontal"));
    assert_eq!(
        out[0].tight_bounding_box,
        BoundingBox { x: px(100), y: px(100), width: px(200), height: px(70), rotation: None }
    );
}

#[test]
fn space_is_added_on_request() {
    let lines = vec![
        line("Hello", 100, 100, 200, 30, "horizontal"),
        line("big", 100, 140, 180, 30, "horizontal"),
        line("world", 100, 180, 180, 30, "horizontal"),
    ];
    let out = auto_merge(lines, 1000, 3000, &spaced());
    assert_eq!(texts(&out), vec!["Hello big world"]);
    assert_eq!(out[0].tight_bounding_box.height, px(110));
    let lines = vec![
        line("Hello", 100, 100, 200, 30, "horizontal"),
        line("world", 100, 140, 180, 30, "horizontal"),
    ];
    let unspaced = MergeConfig { add_space_on_merge: Some(false) };
    assert_eq!(texts(&auto_merge(lines, 1000, 3000, &unspaced)), vec!["Helloworld"]);
}

#[test]
fn vertical_columns_merge_right_to_left() {
    let lines = vec![
        line("縦書き", 500, 100, 40, 300, "vertical"),
        line("の文", 450, 100, 40, 200, "vertical"),
    ];
    let out = auto_merge(lines, 1000, 3000, &MergeConfig::default());
    assert_eq!(texts(&out), vec!["縦書きの文"]);
    assert_eq!(
        out[0].tight_bounding_box,
        BoundingBox { x: px(450), y: px(100), width: px(90), height: px(300), rotation: None }
    );
    assert_eq!(out[0].forced_orientation.as_deref(), Some("vertical"));
}

#[test]
fn standalone_lines_stay_as_they_are() {
    let lines = vec![
        line("one", 100, 100, 200, 30, "horizontal"),
        line("two", 100, 400, 200, 30, "horizontal"),
        line("three", 700, 400, 30, 200, "vertical"),
    ];
    let out = auto_merge(lines.clone(), 1000, 3000, &spaced());
    assert_eq!(out.len(), 3);
    for (a, b) in out.iter().zip(lines.iter()) {
        assert_eq!(a.text, b.text);
        assert_eq!(a.tight_bounding_box, b.tight_bounding_box);
        assert_eq!(a.is_merged, Some(false));
        assert_eq!(a.forced_orientation, b.forced_orientation);
    }
}

#[test]
fn orientation_must_agree() {
    let a = line("a", 100, 100, 200, 30, "horizontal");
    let b = line("b", 100, 140, 200, 30, "vertical");
    assert!(!continues_block(&a, &b, 1000, 3000));
    let out = auto_merge(vec![a, b], 1000, 3000, &MergeConfig::default());
    assert_eq!(out.len(), 2);
}

#[test]
fn gap_of_one_glyph_is_bridged_and_no_more() {
    let a = line("a", 100, 100, 200, 30, "horizontal");
    // a ends at y = 130; a glyph is 30 high
    let touching = line("b", 100, 160, 200, 30, "horizontal");
    let beyond = line("b", 100, 161, 200, 30, "horizontal");
    assert!(continues_block(&a, &touching, 1000, 3000));
    assert!(!continues_block(&a, &beyond, 1000, 3000));
    // sideways: a ends at x = 300
    let beside = line("b", 330, 100, 50, 30, "horizontal");
    let far = line("b", 331, 100, 50, 30, "horizontal");
    assert!(continues_block(&a, &beside, 1000, 3000));
    assert!(!continues_block(&a, &far, 1000, 3000));
}

#[test]
fn smaller_glyph_sets_the_tolerance() {
    let a = line("a", 100, 100, 200, 60, "horizontal");
    let small = line("b", 100, 175, 200, 10, "horizontal");
    assert!(!continues_block(&a, &small, 1000, 3000));
    let close = line("b", 100, 170, 200, 10, "horizontal");
    assert!(continues_block(&a, &close, 1000, 3000));
}

#[test]
fn a_tenth_of_the_chunk_caps_the_tolerance() {
    // glyphs 400 high in a chunk 1000 high: the cap is 100
    let a = line("a", 0, 0, 200, 400, "horizontal");
    let b = line("b", 0, 500, 200, 400, "horizontal");
    let c = line("c", 0, 501, 200, 400, "horizontal");
    assert!(continues_block(&a, &b, 5000, 1000));
    assert!(!continues_block(&a, &c, 5000, 1000));
}

#[test]
fn boxes_without_extent_or_out_of_bounds_never_merge() {
    let a = line("a", 100, 100, 200, 30, "horizontal");
    let mut flat = line("b", 100, 130, 200, 30, "horizontal");
    flat.tight_bounding_box.height = 0;
    assert!(!continues_block(&a, &flat, 1000, 3000));
    let mut huge = line("b", 100, 130, 200, 30, "horizontal");
    huge.tight_bounding_box.width = COORD_LIMIT + 1;
    assert!(!continues_block(&a, &huge, 1000, 3000));
    let mut far = line("b", 100, 130, 200, 30, "horizontal");
    far.tight_bounding_box.x = i64::MIN;
    assert!(!continues_block(&a, &far, 1000, 3000));
    let out = auto_merge(vec![far.clone(), far], 1000, 3000, &MergeConfig::default());
    assert_eq!(out.len(), 2);
}

#[test]
fn lines_without_orientation_merge_as_horizontal() {
    let mut a = line("a", 100, 100, 200, 30, "horizontal");
    let mut b = line("b", 100, 140, 200, 30, "horizontal");
    a.forced_orientation = None;
    b.forced_orientation = None;
    let out = auto_merge(vec![a, b], 1000, 3000, &MergeConfig::default());
    assert_eq!(texts(&out), vec!["ab"]);
    assert_eq!(out[0].forced_orientation, None);
}

#[test]
fn runs_are_split_where_the_chain_breaks() {
    let lines = vec![
        line("a", 100, 100, 200, 30, "horizontal"),
        line("b", 100, 140, 200, 30, "horizontal"),
        line("c", 100, 600, 200, 30, "horizontal"),
        line("d", 100, 640, 200, 30, "horizontal"),
        line("e", 100, 680, 200, 30, "horizontal"),
    ];
    let out = auto_merge(lines, 1000, 3000, &MergeConfig::default());
    assert_eq!(texts(&out), vec!["ab", "cde"]);
    assert_eq!(out[1].tight_bounding_box.y, px(600));
    assert_eq!(out[1].tight_bounding_box.height, px(110));
}

#[test]
fn merging_keeps_all_text() {
    let lines = vec![
        line("a", 100, 100, 200, 30, "horizontal"),
        line("b", 100, 140, 200, 30, "horizontal"),
        line("c", 700, 100, 30, 200, "vertical"),
        line("d", 660, 100, 30, 200, "vertical"),
        line("e", 100, 900, 200, 30, "horizontal"),
    ];
    let all: String = lines.iter().map(|l| l.text.as_str()).collect();
    let out = auto_merge(lines, 1000, 3000, &MergeConfig::default());
    assert_eq!(texts(&out).concat(), all);
}

#[test]
fn merging_again_keeps_the_text() {
    let lines = vec![
        line("a", 100, 100, 200, 30, "horizontal"),
        line("b", 100, 140, 200, 30, "horizontal"),
        line("c", 100, 180, 200, 30, "horizontal"),
        line("d", 100, 900, 200, 30, "horizontal"),
    ];
    let once = auto_merge(lines, 1000, 3000, &MergeConfig::default());
    let text_once = texts(&once).concat();
    let twice = auto_merge(once.clone(), 1000, 3000, &MergeConfig::default());
    assert_eq!(texts(&twice).concat(), text_once);
    assert_eq!(texts(&twice), texts(&once));
    assert_eq!(text_once, "abcd");
}

#[test]
fn no_lines_no_entries() {
    assert!(auto_merge(Vec::new(), 1000, 3000, &MergeConfig::default()).is_empty());
}

fn same_entries(a: &[OcrResult], b: &[OcrResult]) {
    assert_eq!(a.len(), b.len());
    for (x, y) in a.iter().zip(b.iter()) {
        assert_eq!(x.text, y.text);
        assert_eq!(x.tight_bounding_box, y.tight_bounding_box);
        assert_eq!(x.is_merged, y.is_merged);
        assert_eq!(x.forced_orientation, y.forced_orientation);
    }
}

#[test]
fn merged_entries_join_nothing() {
    let mut block = line("ab", 100, 100, 200, 70, "horizontal");
    block.is_merged = Some(true);
    let next = line("c", 100, 180, 200, 30, "horizontal");
    assert!(!continues_block(&block, &next, 1000, 3000));
    assert!(!continues_block(&next, &block, 1000, 3000));
    let mut unmarked = block.clone();
    unmarked.is_merged = None;
    assert!(continues_block(&unmarked, &next, 1000, 3000));
}

#[test]
fn merging_a_merged_list_changes_nothing() {
    // the first two lines join; the third is too far from the second, but
    // near the box around the first two
    let lines = vec![
        line("a", 100, 100, 300, 30, "horizontal"),
        line("b", 100, 140, 60, 30, "horizontal"),
        line("c", 330, 100, 60, 30, "horizontal"),
    ];
    let once = auto_merge(lines, 1000, 3000, &MergeConfig::default());
    assert_eq!(texts(&once), vec!["ab", "c"]);
    let twice = auto_merge(once.clone(), 1000, 3000, &MergeConfig::default());
    same_entries(&twice, &once);
    let thrice = auto_merge(twice, 1000, 3000, &spaced());
    same_entries(&thrice, &once);
}
