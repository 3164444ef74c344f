//! From chunk pixels to the page: every box is shifted by its chunk's
//! offset and divided by the page's size.

use vstd::prelude::*;
use crate::ocr::fixed::{floor_div, PIXEL, UNIT};
use crate::ocr::geometry::BoundingBox;
use crate::ocr::result::{copy_result, views, OcrResult, OcrResultView};

verus! {

/// A length in pixel units as a fraction of `extent` pixels, rounded down.
pub open spec fn normalised(length: int, extent: u32) -> int {
    (length * UNIT) / (PIXEL * extent)
}

/// The box `b` of a chunk that starts `offset_y` rows below the top of the
/// page, normalised against the page.
pub open spec fn page_box(b: BoundingBox, offset_y: u32, full_width: u32, full_height: u32) -> BoundingBox {
    BoundingBox {
        x: normalised(b.x as int, full_width) as i64,
        y: normalised(b.y + offset_y * PIXEL, full_height) as i64,
        width: normalised(b.width as int, full_width) as i64,
        height: normalised(b.height as int, full_height) as i64,
        rotation: b.rotation,
    }
}

/// The result `r` with its box moved to the page.
pub open spec fn page_result(r: OcrResultView, offset_y: u32, full_width: u32, full_height: u32) -> OcrResultView {
    OcrResultView {
        text: r.text,
        tight_bounding_box: page_box(r.tight_bounding_box, offset_y, full_width, full_height),
        is_merged: r.is_merged,
        forced_orientation: r.forced_orientation,
    }
}

/// The results of a chunk, each with its box moved to the page.
pub open spec fn page_results(
    results: Seq<OcrResultView>,
    offset_y: u32,
    full_width: u32,
    full_height: u32,
) -> Seq<OcrResultView> {
    results.map_values(|r: OcrResultView| page_result(r, offset_y, full_width, full_height))
}

proof fn lemma_normalised_bound(length: int, extent: u32)
    requires
        extent > 0,
    ensures
        length >= 0 ==> 0 <= 2 * normalised(length, extent) <= length,
        length < 0 ==> length <= 2 * normalised(length, extent) + 1 && normalised(length, extent)
            < 0,
{
    let d = PIXEL * extent;
    let p = length * UNIT;
    assert(d >= 2_000_000) by (nonlinear_arith)
        requires
            d == 2_000_000 * extent,
            extent >= 1,
    ;
    vstd::arithmetic::div_mod::lemma_fundamental_div_mod(p, d);
    vstd::arithmetic::div_mod::lemma_mod_bound(p, d);
    let q = p / d;
    let r = p % d;
    assert((length >= 0 ==> 0 <= 2 * q <= length) && (length < 0 ==> length <= 2 * q + 1 && q < 0))
        by (nonlinear_arith)
        requires
            p == d * q + r,
            0 <= r < d,
            p == length * 1_000_000,
            d >= 2_000_000,
    ;
}

fn normalise(length: i128, extent: u32) -> (n: i64)
    requires
        extent > 0,
        -0x1_0000_0000_0000_0000 <= length < 0x1_0000_0000_0000_0000,
    ensures
        n == normalised(length as int, extent),
{
    let scaled: i128 = length * 1_000_000;
    let divisor: i128 = 2_000_000 * (extent as i128);
    let q: i128 = floor_div(scaled, divisor);
    proof {
        lemma_normalised_bound(length as int, extent);
    }
    q as i64
}

/// Maps a box from the pixels of its chunk to the page. `None` where the
/// page has no width or no height.
pub fn renormalize(b: &BoundingBox, offset_y: u32, full_width: u32, full_height: u32) -> (r: Option<
    BoundingBox,
>)
    ensures
        r == (if full_width == 0 || full_height == 0 {
            None
        } else {
            Some(page_box(*b, offset_y, full_width, full_height))
        }),
{
    if full_width == 0 || full_height == 0 {
        return None;
    }
    let shift: i64 = (offset_y as i64) * 2_000_000;
    let global_y: i128 = (b.y as i128) + (shift as i128);
    let y: i64 = normalise(global_y, full_height);
    Some(
        BoundingBox {
            x: normalise(b.x as i128, full_width),
            y,
            width: normalise(b.width as i128, full_width),
            height: normalise(b.height as i128, full_height),
            rotation: b.rotation,
        },
    )
}

/// Maps the results of one chunk to the page, each once and in order.
/// `None` where the page has no width or no height.
pub fn renormalize_results(
    results: Vec<OcrResult>,
    offset_y: u32,
    full_width: u32,
    full_height: u32,
) -> (out: Option<Vec<OcrResult>>)
    ensures
        (full_width == 0 || full_height == 0) <==> out is None,
        out matches Some(moved) ==> views(moved@) == page_results(
            views(results@),
            offset_y,
            full_width,
            full_height,
        ),
{
    if full_width == 0 || full_height == 0 {
        return None;
    }
    let mut out: Vec<OcrResult> = Vec::new();
    let mut i: usize = 0;
    while i < results.len()
        invariant
            full_width > 0,
            full_height > 0,
            i <= results.len(),
            out.len() == i,
            forall|k: int|
                0 <= k < i ==> #[trigger] out[k]@ == page_result(
                    results[k]@,
                    offset_y,
                    full_width,
                    full_height,
                ),
        decreases results.len() - i,
    {
        let mut entry = copy_result(&results[i]);
        let moved = renormalize(&entry.tight_bounding_box, offset_y, full_width, full_height);
        entry.tight_bounding_box = moved.unwrap();
        out.push(entry);
        i += 1;
    }
    assert(views(out@) == page_results(views(results@), offset_y, full_width, full_height));
    Some(out)
}

/// A box that fills its chunk, in a page of one chunk, becomes the unit
/// square.
pub proof fn lemma_whole_chunk_is_unit_square(chunk_width: u32, chunk_height: u32)
    requires
        chunk_width > 0,
        chunk_height > 0,
    ensures
        page_box(
            BoundingBox {
                x: 0,
                y: 0,
                width: (chunk_width * PIXEL) as i64,
                height: (chunk_height * PIXEL) as i64,
                rotation: None,
            },
            0,
            chunk_width,
            chunk_height,
        ) == (BoundingBox { x: 0, y: 0, width: UNIT, height: UNIT, rotation: None }),
{
    assert(normalised(chunk_width * PIXEL, chunk_width) == UNIT) by (nonlinear_arith)
        requires
            chunk_width > 0,
    ;
    assert(normalised(chunk_height * PIXEL, chunk_height) == UNIT) by (nonlinear_arith)
        requires
            chunk_height > 0,
    ;
    assert(normalised(0, chunk_width) == 0) by (nonlinear_arith)
        requires
            chunk_width > 0,
    ;
    assert(normalised(0 + 0 * PIXEL, chunk_height) == 0) by (nonlinear_arith)
        requires
            chunk_height > 0,
    ;
    assert(chunk_width * PIXEL <= i64::MAX && chunk_height * PIXEL <= i64::MAX) by (nonlinear_arith)
        requires
            chunk_width < 0x1_0000_0000,
            chunk_height < 0x1_0000_0000,
    ;
}

/// A box that lies inside its chunk, in a chunk that lies inside the page,
/// lies inside the unit square once it is moved to the page.
pub proof fn lemma_page_box_in_unit_square(
    b: BoundingBox,
    offset_y: u32,
    chunk_height: u32,
    full_width: u32,
    full_height: u32,
)
    requires
        full_width > 0,
        full_height > 0,
        offset_y + chunk_height <= full_height,
        0 <= b.x,
        0 <= b.y,
        0 <= b.width,
        0 <= b.height,
        b.x + b.width <= full_width * PIXEL,
        b.y + b.height <= chunk_height * PIXEL,
    ensures
        ({
            let p = page_box(b, offset_y, full_width, full_height);
            &&& 0 <= p.x
            &&& 0 <= p.y
            &&& 0 <= p.width
            &&& 0 <= p.height
            &&& p.x + p.width <= UNIT
            &&& p.y + p.height <= UNIT
        }),
{
    let x = normalised(b.x as int, full_width);
    let w = normalised(b.width as int, full_width);
    let y = normalised(b.y + offset_y * PIXEL, full_height);
    let h = normalised(b.height as int, full_height);
    lemma_fractions_add(b.x as int, b.width as int, full_width);
    assert(offset_y * PIXEL >= 0 && b.y + offset_y * PIXEL + b.height <= full_height * PIXEL)
        by (nonlinear_arith)
        requires
            offset_y + chunk_height <= full_height,
            b.y + b.height <= chunk_height * PIXEL,
            offset_y >= 0,
    ;
    lemma_fractions_add(b.y + offset_y * PIXEL, b.height as int, full_height);
}

proof fn lemma_fractions_add(a: int, b: int, extent: u32)
    requires
        extent > 0,
        0 <= a,
        0 <= b,
        a + b <= extent * PIXEL,
    ensures
        0 <= normalised(a, extent),
        0 <= normalised(b, extent),
        normalised(a, extent) + normalised(b, extent) <= UNIT,
{
    let d = PIXEL * extent;
    let qa = (a * UNIT) / d;
    let qb = (b * UNIT) / d;
    assert(d > 0) by (nonlinear_arith)
        requires
            d == PIXEL * extent,
            extent > 0,
    ;
    vstd::arithmetic::div_mod::lemma_fundamental_div_mod(a * UNIT, d);
    vstd::arithmetic::div_mod::lemma_fundamental_div_mod(b * UNIT, d);
    vstd::arithmetic::div_mod::lemma_mod_bound(a * UNIT, d);
    vstd::arithmetic::div_mod::lemma_mod_bound(b * UNIT, d);
    assert(0 <= qa && 0 <= qb && qa + qb <= UNIT) by (nonlinear_arith)
        requires
            a * UNIT == d * qa + (a * UNIT) % d,
            b * UNIT == d * qb + (b * UNIT) % d,
            0 <= (a * UNIT) % d < d,
            0 <= (b * UNIT) % d < d,
            0 <= a,
            0 <= b,
            a + b <= extent * PIXEL,
            d == PIXEL * extent,
            d > 0,
    ;
}

} // verus!
