//! Joining the fragments of one block of text.
//!
//! The recogniser often splits one sentence or speech bubble into several
//! lines. Two lines that follow each other in its output belong to one block
//! when they read in the same direction and their boxes lie within a glyph's
//! size of each other. A run of such lines becomes one entry. An entry that
//! is marked as merged is a block already and joins nothing, so that merging
//! what was merged changes nothing.

use vstd::prelude::*;
use vstd::string::*;
use crate::ocr::fixed::PIXEL;
use crate::ocr::geometry::{BoundingBox, Orientation};
use crate::ocr::result::{copy_result, names_vertical, orientation_name, same_name, views, OcrResult, OcrResultView};

verus! {

/// Largest magnitude of a position, and largest extent, of a box that takes
/// part in merging.
pub const COORD_LIMIT: i64 = 1_000_000_000_000_000_000;

/// No gap wider than this fraction of the chunk is bridged.
pub const GAP_CAP_DIVISOR: i64 = 10;

/// How lines are merged.
#[derive(Clone, Copy, Debug)]
pub struct MergeConfig {
    /// Whether a space goes between the texts of two merged lines; unset
    /// means that it does not.
    pub add_space_on_merge: Option<bool>,
}

impl Default for MergeConfig {
    fn default() -> (config: MergeConfig)
        ensures
            config.add_space_on_merge is None,
    {
        MergeConfig { add_space_on_merge: None }
    }
}

impl MergeConfig {
    /// Whether a space goes between merged texts.
    pub open spec fn adds_space(&self) -> bool {
        self.add_space_on_merge == Some(true)
    }
}

/// A box with a position and a positive extent inside the limit.
pub open spec fn placed(b: BoundingBox) -> bool {
    &&& -COORD_LIMIT <= b.x <= COORD_LIMIT
    &&& -COORD_LIMIT <= b.y <= COORD_LIMIT
    &&& 0 < b.width <= COORD_LIMIT
    &&& 0 < b.height <= COORD_LIMIT
}

/// A box that spans placed boxes only.
pub open spec fn spans_placed(b: BoundingBox) -> bool {
    &&& -COORD_LIMIT <= b.x
    &&& -COORD_LIMIT <= b.y
    &&& 0 < b.width
    &&& 0 < b.height
    &&& b.x + b.width <= 2 * COORD_LIMIT
    &&& b.y + b.height <= 2 * COORD_LIMIT
}

/// Distance between two intervals, each given by its start and length; zero
/// where they touch or overlap.
pub open spec fn gap(start_a: int, len_a: int, start_b: int, len_b: int) -> int {
    let start = if start_a >= start_b { start_a } else { start_b };
    let end = if start_a + len_a <= start_b + len_b { start_a + len_a } else { start_b + len_b };
    if start > end {
        start - end
    } else {
        0
    }
}

/// Size of a glyph of the smaller of two lines: the extent of the box
/// across the reading direction.
pub open spec fn glyph_size(a: BoundingBox, b: BoundingBox, vertical: bool) -> int {
    let across_a = if vertical { a.width } else { a.height };
    let across_b = if vertical { b.width } else { b.height };
    if across_a <= across_b {
        across_a as int
    } else {
        across_b as int
    }
}

/// Widest gap that is bridged: one glyph, but no more than a tenth of the
/// chunk's extent in that direction.
pub open spec fn tolerance(glyph: int, chunk_extent: u32) -> int {
    let cap = chunk_extent * PIXEL / (GAP_CAP_DIVISOR as int);
    if glyph <= cap {
        glyph
    } else {
        cap
    }
}

/// Whether two boxes lie within the tolerance of each other in both
/// directions.
pub open spec fn near(
    a: BoundingBox,
    b: BoundingBox,
    vertical: bool,
    chunk_width: u32,
    chunk_height: u32,
) -> bool {
    &&& placed(a)
    &&& placed(b)
    &&& gap(a.x as int, a.width as int, b.x as int, b.width as int) <= tolerance(
        glyph_size(a, b, vertical),
        chunk_width,
    )
    &&& gap(a.y as int, a.height as int, b.y as int, b.height as int) <= tolerance(
        glyph_size(a, b, vertical),
        chunk_height,
    )
}

/// Whether line `b`, which follows line `a`, belongs to the same block:
/// neither is a merged entry, both read in the same direction, and their
/// boxes are near.
pub open spec fn same_block(
    a: OcrResultView,
    b: OcrResultView,
    chunk_width: u32,
    chunk_height: u32,
) -> bool {
    &&& a.is_merged != Some(true)
    &&& b.is_merged != Some(true)
    &&& a.forced_orientation == b.forced_orientation
    &&& near(
        a.tight_bounding_box,
        b.tight_bounding_box,
        a.forced_orientation == Some(orientation_name(Orientation::Vertical)),
        chunk_width,
        chunk_height,
    )
}

/// The smallest upright box around two boxes.
pub open spec fn union_box(a: BoundingBox, b: BoundingBox) -> BoundingBox {
    let left = if a.x <= b.x { a.x } else { b.x };
    let top = if a.y <= b.y { a.y } else { b.y };
    let right = if a.x + a.width >= b.x + b.width { a.x + a.width } else { b.x + b.width };
    let bottom = if a.y + a.height >= b.y + b.height { a.y + a.height } else { b.y + b.height };
    BoundingBox {
        x: left,
        y: top,
        width: (right - left) as i64,
        height: (bottom - top) as i64,
        rotation: None,
    }
}

/// What stands between the texts of two merged lines.
pub open spec fn separator(space: bool) -> Seq<char> {
    if space {
        seq![' ']
    } else {
        Seq::empty()
    }
}

/// A block with one more line taken in.
pub open spec fn absorb(block: OcrResultView, line: OcrResultView, space: bool) -> OcrResultView {
    OcrResultView {
        text: block.text + separator(space) + line.text,
        tight_bounding_box: union_box(block.tight_bounding_box, line.tight_bounding_box),
        is_merged: Some(true),
        forced_orientation: block.forced_orientation,
    }
}

/// Whether the last of `lines` belongs to the block of the line before it.
pub open spec fn joins_last(lines: Seq<OcrResultView>, chunk_width: u32, chunk_height: u32) -> bool {
    lines.len() >= 2 && same_block(
        lines[lines.len() - 2],
        lines[lines.len() - 1],
        chunk_width,
        chunk_height,
    )
}

/// The merged entries of `lines`: each maximal run of lines of which every
/// one belongs to the block of the one before it becomes one entry. A line
/// that stands alone is kept as it is. A run of several has their texts in
/// order, the box around all their boxes, the orientation they share, and
/// is marked as merged.
pub open spec fn merged(
    lines: Seq<OcrResultView>,
    chunk_width: u32,
    chunk_height: u32,
    space: bool,
) -> Seq<OcrResultView>
    decreases lines.len(),
{
    if lines.len() == 0 {
        Seq::empty()
    } else {
        let before = merged(lines.drop_last(), chunk_width, chunk_height, space);
        if joins_last(lines, chunk_width, chunk_height) {
            before.drop_last().push(absorb(before.last(), lines.last(), space))
        } else {
            before.push(lines.last())
        }
    }
}

/// All the texts of `results`, one after the other.
pub open spec fn all_text(results: Seq<OcrResultView>) -> Seq<char>
    decreases results.len(),
{
    if results.len() == 0 {
        Seq::empty()
    } else {
        all_text(results.drop_last()) + results.last().text
    }
}

/// The characters of `text` other than the space.
pub open spec fn letters(text: Seq<char>) -> Seq<char> {
    text.filter(|c: char| c != ' ')
}

proof fn lemma_last_block(lines: Seq<OcrResultView>, chunk_width: u32, chunk_height: u32, space: bool)
    requires
        lines.len() > 0,
    ensures
        merged(lines, chunk_width, chunk_height, space).len() > 0,
        merged(lines, chunk_width, chunk_height, space).len() <= lines.len(),
        placed(lines.last().tight_bounding_box) ==> spans_placed(
            merged(lines, chunk_width, chunk_height, space).last().tight_bounding_box,
        ),
    decreases lines.len(),
{
    if lines.len() >= 2 {
        lemma_last_block(lines.drop_last(), chunk_width, chunk_height, space);
        assert(lines.drop_last().last() == lines[lines.len() - 2]);
    } else {
        assert(merged(lines.drop_last(), chunk_width, chunk_height, space).len() == 0);
    }
}

/// Merging never yields more entries than there were lines, and yields
/// none only where there was no line.
pub proof fn lemma_merged_len(
    lines: Seq<OcrResultView>,
    chunk_width: u32,
    chunk_height: u32,
    space: bool,
)
    ensures
        merged(lines, chunk_width, chunk_height, space).len() <= lines.len(),
        lines.len() > 0 ==> merged(lines, chunk_width, chunk_height, space).len() > 0,
{
    if lines.len() > 0 {
        lemma_last_block(lines, chunk_width, chunk_height, space);
    }
}

/// Merging without a separator neither drops nor repeats text: the texts of
/// the entries, one after the other, are the texts of the lines, one after
/// the other.
pub proof fn lemma_merge_keeps_text(lines: Seq<OcrResultView>, chunk_width: u32, chunk_height: u32)
    ensures
        all_text(merged(lines, chunk_width, chunk_height, false)) == all_text(lines),
    decreases lines.len(),
{
    if lines.len() > 0 {
        let rest = lines.drop_last();
        let before = merged(rest, chunk_width, chunk_height, false);
        lemma_merge_keeps_text(rest, chunk_width, chunk_height);
        if joins_last(lines, chunk_width, chunk_height) {
            lemma_last_block(rest, chunk_width, chunk_height, false);
            let block = absorb(before.last(), lines.last(), false);
            let after = before.drop_last().push(block);
            assert(after.drop_last() == before.drop_last());
            assert(after.last() == block);
            assert(block.text == before.last().text + lines.last().text);
            assert(all_text(after) == all_text(before.drop_last()) + (before.last().text
                + lines.last().text));
            assert(all_text(before) == all_text(before.drop_last()) + before.last().text);
        } else {
            let after = before.push(lines.last());
            assert(after.drop_last() == before);
            assert(after.last() == lines.last());
        }
    }
}

/// With or without a separator, merging keeps every character other than
/// the space, in order.
pub proof fn lemma_merge_keeps_letters(
    lines: Seq<OcrResultView>,
    chunk_width: u32,
    chunk_height: u32,
    space: bool,
)
    ensures
        letters(all_text(merged(lines, chunk_width, chunk_height, space))) == letters(
            all_text(lines),
        ),
    decreases lines.len(),
{
    if lines.len() > 0 {
        let rest = lines.drop_last();
        let before = merged(rest, chunk_width, chunk_height, space);
        let keep = |c: char| c != ' ';
        lemma_merge_keeps_letters(rest, chunk_width, chunk_height, space);
        if joins_last(lines, chunk_width, chunk_height) {
            lemma_last_block(rest, chunk_width, chunk_height, space);
            let block = absorb(before.last(), lines.last(), space);
            let after = before.drop_last().push(block);
            assert(after.drop_last() == before.drop_last());
            assert(after.last() == block);
            let head = all_text(before.drop_last());
            assert(all_text(after) == head + block.text);
            assert(all_text(before) == head + before.last().text);
            assert(letters(separator(space)) == Seq::<char>::empty()) by {
                reveal(Seq::filter);
                if space {
                    assert(seq![' '].drop_last() == Seq::<char>::empty());
                }
            }
            Seq::filter_distributes_over_add(head, block.text, keep);
            Seq::filter_distributes_over_add(
                before.last().text + separator(space),
                lines.last().text,
                keep,
            );
            Seq::filter_distributes_over_add(before.last().text, separator(space), keep);
            Seq::filter_distributes_over_add(head, before.last().text, keep);
            Seq::filter_distributes_over_add(all_text(before), lines.last().text, keep);
            Seq::filter_distributes_over_add(all_text(rest), lines.last().text, keep);
            assert(letters(before.last().text) + Seq::<char>::empty() == letters(
                before.last().text,
            ));
            assert(letters(head) + (letters(before.last().text) + letters(lines.last().text)) == (
            letters(head) + letters(before.last().text)) + letters(lines.last().text));
        } else {
            let after = before.push(lines.last());
            assert(after.drop_last() == before);
            assert(after.last() == lines.last());
            Seq::filter_distributes_over_add(all_text(before), lines.last().text, keep);
            Seq::filter_distributes_over_add(all_text(rest), lines.last().text, keep);
        }
    }
}

/// Merging what was merged before, each entry taken as one line, keeps the
/// text: nothing is lost and nothing repeated.
pub proof fn lemma_remerge_keeps_text(
    lines: Seq<OcrResultView>,
    chunk_width: u32,
    chunk_height: u32,
    space: bool,
)
    ensures
        all_text(
            merged(
                merged(lines, chunk_width, chunk_height, space),
                chunk_width,
                chunk_height,
                false,
            ),
        ) == all_text(merged(lines, chunk_width, chunk_height, space)),
        letters(
            all_text(
                merged(
                    merged(lines, chunk_width, chunk_height, space),
                    chunk_width,
                    chunk_height,
                    space,
                ),
            ),
        ) == letters(all_text(lines)),
{
    let once = merged(lines, chunk_width, chunk_height, space);
    lemma_merge_keeps_text(once, chunk_width, chunk_height);
    lemma_merge_keeps_letters(once, chunk_width, chunk_height, space);
    lemma_merge_keeps_letters(lines, chunk_width, chunk_height, space);
}

proof fn lemma_neighbours_apart(
    lines: Seq<OcrResultView>,
    chunk_width: u32,
    chunk_height: u32,
    space: bool,
)
    ensures
        forall|i: int|
            0 < i < merged(lines, chunk_width, chunk_height, space).len() ==> !same_block(
                #[trigger] merged(lines, chunk_width, chunk_height, space)[i - 1],
                merged(lines, chunk_width, chunk_height, space)[i],
                chunk_width,
                chunk_height,
            ),
        lines.len() > 0 ==> merged(lines, chunk_width, chunk_height, space).len() > 0 && (merged(
            lines,
            chunk_width,
            chunk_height,
            space,
        ).last() == lines.last() || merged(
            lines,
            chunk_width,
            chunk_height,
            space,
        ).last().is_merged == Some(true)),
    decreases lines.len(),
{
    if lines.len() > 0 {
        let rest = lines.drop_last();
        let before = merged(rest, chunk_width, chunk_height, space);
        let out = merged(lines, chunk_width, chunk_height, space);
        lemma_neighbours_apart(rest, chunk_width, chunk_height, space);
        if joins_last(lines, chunk_width, chunk_height) {
            lemma_last_block(rest, chunk_width, chunk_height, space);
            assert forall|i: int| 0 < i < out.len() implies !same_block(
                #[trigger] out[i - 1],
                out[i],
                chunk_width,
                chunk_height,
            ) by {
                if i < out.len() - 1 {
                    assert(out[i - 1] == before[i - 1]);
                    assert(out[i] == before[i]);
                }
            }
        } else {
            assert forall|i: int| 0 < i < out.len() implies !same_block(
                #[trigger] out[i - 1],
                out[i],
                chunk_width,
                chunk_height,
            ) by {
                if i < out.len() - 1 {
                    assert(out[i - 1] == before[i - 1]);
                    assert(out[i] == before[i]);
                } else {
                    assert(out[i] == lines.last());
                    assert(out[i - 1] == before.last());
                    assert(rest.last() == lines[lines.len() - 2]);
                }
            }
        }
    }
}

/// Merging what was merged before, each entry taken as one line, changes
/// nothing: the same entries come back, as many and in the same order, with
/// the same texts and boxes.
pub proof fn lemma_merge_idempotent(
    lines: Seq<OcrResultView>,
    chunk_width: u32,
    chunk_height: u32,
    space: bool,
    space_again: bool,
)
    ensures
        merged(
            merged(lines, chunk_width, chunk_height, space),
            chunk_width,
            chunk_height,
            space_again,
        ) == merged(lines, chunk_width, chunk_height, space),
{
    lemma_neighbours_apart(lines, chunk_width, chunk_height, space);
    lemma_separate_lines_unchanged(
        merged(lines, chunk_width, chunk_height, space),
        chunk_width,
        chunk_height,
        space_again,
    );
}

/// The box around two boxes covers both.
pub proof fn lemma_union_covers(a: BoundingBox, b: BoundingBox)
    requires
        spans_placed(a),
        placed(b),
    ensures
        ({
            let u = union_box(a, b);
            &&& spans_placed(u)
            &&& u.x <= a.x && a.x + a.width <= u.x + u.width
            &&& u.x <= b.x && b.x + b.width <= u.x + u.width
            &&& u.y <= a.y && a.y + a.height <= u.y + u.height
            &&& u.y <= b.y && b.y + b.height <= u.y + u.height
        }),
{
}

/// Lines of which none belongs to the block of the one before it are
/// returned as they are.
pub proof fn lemma_separate_lines_unchanged(
    lines: Seq<OcrResultView>,
    chunk_width: u32,
    chunk_height: u32,
    space: bool,
)
    requires
        forall|i: int|
            0 < i < lines.len() ==> !same_block(
                #[trigger] lines[i - 1],
                lines[i],
                chunk_width,
                chunk_height,
            ),
    ensures
        merged(lines, chunk_width, chunk_height, space) == lines,
    decreases lines.len(),
{
    if lines.len() > 0 {
        let rest = lines.drop_last();
        assert forall|i: int| 0 < i < rest.len() implies !same_block(
            #[trigger] rest[i - 1],
            rest[i],
            chunk_width,
            chunk_height,
        ) by {
            assert(rest[i - 1] == lines[i - 1]);
            assert(rest[i] == lines[i]);
        }
        lemma_separate_lines_unchanged(rest, chunk_width, chunk_height, space);
        if lines.len() >= 2 {
            let i = lines.len() - 1;
            assert(!same_block(lines[i - 1], lines[i], chunk_width, chunk_height));
        }
        assert(rest.push(lines.last()) == lines);
    } else {
        assert(lines == Seq::<OcrResultView>::empty());
    }
}

fn interval_gap(start_a: i64, len_a: i64, start_b: i64, len_b: i64) -> (g: i64)
    requires
        -COORD_LIMIT <= start_a <= COORD_LIMIT,
        -COORD_LIMIT <= start_b <= COORD_LIMIT,
        0 <= len_a <= COORD_LIMIT,
        0 <= len_b <= COORD_LIMIT,
    ensures
        g == gap(start_a as int, len_a as int, start_b as int, len_b as int),
{
    let start: i64 = if start_a >= start_b { start_a } else { start_b };
    let end_a: i64 = start_a + len_a;
    let end_b: i64 = start_b + len_b;
    let end: i64 = if end_a <= end_b { end_a } else { end_b };
    if start > end {
        start - end
    } else {
        0
    }
}

fn bridged(glyph: i64, chunk_extent: u32) -> (t: i64)
    ensures
        t == tolerance(glyph as int, chunk_extent),
{
    let cap: i64 = (chunk_extent as i64) * PIXEL / GAP_CAP_DIVISOR;
    if glyph <= cap {
        glyph
    } else {
        cap
    }
}

fn is_placed(b: &BoundingBox) -> (p: bool)
    ensures
        p == placed(*b),
{
    -COORD_LIMIT <= b.x && b.x <= COORD_LIMIT && -COORD_LIMIT <= b.y && b.y <= COORD_LIMIT && 0
        < b.width && b.width <= COORD_LIMIT && 0 < b.height && b.height <= COORD_LIMIT
}

fn is_marked_merged(flag: &Option<bool>) -> (marked: bool)
    ensures
        marked == (*flag == Some(true)),
{
    match flag {
        Some(b) => *b,
        None => false,
    }
}

/// Whether line `b`, which follows line `a`, belongs to the same block.
pub fn continues_block(a: &OcrResult, b: &OcrResult, chunk_width: u32, chunk_height: u32) -> (same: bool)
    ensures
        same == same_block(a@, b@, chunk_width, chunk_height),
{
    if is_marked_merged(&a.is_merged) || is_marked_merged(&b.is_merged) {
        return false;
    }
    if !same_name(&a.forced_orientation, &b.forced_orientation) {
        return false;
    }
    let box_a = &a.tight_bounding_box;
    let box_b = &b.tight_bounding_box;
    if !is_placed(box_a) || !is_placed(box_b) {
        return false;
    }
    let vertical = names_vertical(&a.forced_orientation);
    let across_a: i64 = if vertical { box_a.width } else { box_a.height };
    let across_b: i64 = if vertical { box_b.width } else { box_b.height };
    let glyph: i64 = if across_a <= across_b { across_a } else { across_b };
    let gap_x = interval_gap(box_a.x, box_a.width, box_b.x, box_b.width);
    let gap_y = interval_gap(box_a.y, box_a.height, box_b.y, box_b.height);
    gap_x <= bridged(glyph, chunk_width) && gap_y <= bridged(glyph, chunk_height)
}

fn unite(a: &BoundingBox, b: &BoundingBox) -> (u: BoundingBox)
    requires
        spans_placed(*a),
        placed(*b),
    ensures
        u == union_box(*a, *b),
        spans_placed(u),
{
    let left: i64 = if a.x <= b.x { a.x } else { b.x };
    let top: i64 = if a.y <= b.y { a.y } else { b.y };
    let right_a: i64 = a.x + a.width;
    let right_b: i64 = b.x + b.width;
    let bottom_a: i64 = a.y + a.height;
    let bottom_b: i64 = b.y + b.height;
    let right: i64 = if right_a >= right_b { right_a } else { right_b };
    let bottom: i64 = if bottom_a >= bottom_b { bottom_a } else { bottom_b };
    BoundingBox { x: left, y: top, width: right - left, height: bottom - top, rotation: None }
}

fn absorb_line(block: OcrResult, line: &OcrResult, space: bool) -> (joined: OcrResult)
    requires
        spans_placed(block.tight_bounding_box),
        placed(line.tight_bounding_box),
    ensures
        joined@ == absorb(block@, line@, space),
{
    let tight_bounding_box = unite(&block.tight_bounding_box, &line.tight_bounding_box);
    let mut text = block.text;
    if space {
        proof {
            reveal_strlit(" ");
            assert(" "@ == seq![' ']);
        }
        text.append(" ");
    }
    text.append(line.text.as_str());
    assert(text@ == block.text@ + separator(space) + line.text@);
    OcrResult {
        text,
        tight_bounding_box,
        is_merged: Some(true),
        forced_orientation: block.forced_orientation,
    }
}

/// Merges the lines of one chunk, in the order in which they were
/// recognised, into entries: one for each block of text.
pub fn auto_merge(lines: Vec<OcrResult>, width: u32, height: u32, config: &MergeConfig) -> (out: Vec<
    OcrResult,
>)
    ensures
        views(out@) == merged(views(lines@), width, height, config.adds_space()),
{
    let space = match config.add_space_on_merge {
        Some(b) => b,
        None => false,
    };
    let ghost all = views(lines@);
    let mut out: Vec<OcrResult> = Vec::new();
    let mut i: usize = 0;
    assert(all.take(0) == Seq::<OcrResultView>::empty());
    assert(views(out@) == Seq::<OcrResultView>::empty());
    while i < lines.len()
        invariant
            i <= lines.len(),
            all == views(lines@),
            space == config.adds_space(),
            views(out@) == merged(all.take(i as int), width, height, space),
        decreases lines.len() - i,
    {
        let line = &lines[i];
        let ghost upto = all.take(i as int);
        let ghost next = all.take(i + 1);
        proof {
            assert(next.drop_last() == upto);
            assert(next.last() == line@);
        }
        let joins = i > 0 && continues_block(&lines[i - 1], line, width, height);
        proof {
            if i > 0 {
                assert(next[next.len() - 2] == lines[i - 1]@);
            }
            assert(joins == joins_last(next, width, height));
        }
        if joins {
            proof {
                lemma_last_block(upto, width, height, space);
                assert(upto.last() == lines[i - 1]@);
                assert(views(out@).last() == out@.last()@);
            }
            let ghost before = out@;
            let block = out.pop().unwrap();
            let joined = absorb_line(block, line, space);
            out.push(joined);
            proof {
                assert(views(out@) == views(before).drop_last().push(joined@));
            }
        } else {
            let ghost before = out@;
            let copy = copy_result(line);
            out.push(copy);
            proof {
                assert(views(out@) == views(before).push(copy@));
            }
        }
        i += 1;
    }
    assert(all.take(i as int) == all);
    out
}

} // verus!
