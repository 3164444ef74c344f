//! Rotated rectangles of recognised lines, resolved to upright boxes.
//!
//! All quantities are integers on fixed scales. A normalised coordinate, an
//! angle in radians, a cosine and a sine are counted in millionths
//! (`UNIT`). A pixel coordinate is counted in half millionths of a pixel
//! (`PIXEL` per pixel), so that half of a denormalised extent is exact.

use vstd::prelude::*;
use crate::ocr::fixed::{floor_div, PIXEL, UNIT};

verus! {

/// Largest magnitude accepted for a normalised centre or extent: sixteen
/// times the chunk.
pub const MAX_SPAN: i64 = 16_000_000;

/// Rotations of at most this magnitude count as unrotated.
pub const ROTATION_THRESHOLD: i64 = 100_000;

/// A quarter turn, as the single-precision value of pi/2 in millionths.
pub const QUARTER_TURN: i64 = 1_570_796;

/// How far from a quarter turn a rotation may be and still read as vertical.
pub const QUARTER_TURN_TOLERANCE: i64 = 500_000;

/// How far the squares of a cosine and a sine, each rounded to a millionth,
/// may add up from one.
pub const NORM_TOLERANCE: i64 = 2_000_000;

/// An upright rectangle. In chunk space its fields count pixels on the
/// `PIXEL` scale; in page space they are normalised on the `UNIT` scale.
#[derive(Clone, Copy, Debug, PartialEq, Eq)]
pub struct BoundingBox {
    pub x: i64,
    pub y: i64,
    pub width: i64,
    pub height: i64,
    /// Unset on every box that the resolver or the merger makes.
    pub rotation: Option<i64>,
}

impl Default for BoundingBox {
    fn default() -> (b: BoundingBox)
        ensures
            b == (BoundingBox { x: 0, y: 0, width: 0, height: 0, rotation: None }),
    {
        BoundingBox { x: 0, y: 0, width: 0, height: 0, rotation: None }
    }
}

/// Placement of a recognised line inside its chunk: a rectangle given by
/// its normalised centre and extent, turned about its centre.
#[derive(Clone, Copy, Debug, PartialEq, Eq)]
pub struct LineGeometry {
    pub center_x: i64,
    pub center_y: i64,
    pub width: i64,
    pub height: i64,
    /// Angle of the turn, in millionths of a radian.
    pub rotation: i64,
    /// Cosine of the angle, as the caller measured it.
    pub cos: i64,
    /// Sine of the angle, as the caller measured it.
    pub sin: i64,
}

/// Reading direction of a line.
#[derive(Clone, Copy, Debug, PartialEq, Eq, Structural)]
pub enum Orientation {
    Vertical,
    Horizontal,
}

/// Why a line's geometry cannot be placed.
#[derive(Clone, Copy, Debug, PartialEq, Eq, Structural)]
pub enum GeometryError {
    /// A centre or an extent lies outside the accepted span, or an extent is negative.
    OutOfRange,
    /// The cosine or sine exceeds one, the two do not lie on the unit
    /// circle, or an angle of zero comes with a turn.
    Inconsistent,
}

/// A line's upright box in chunk pixels, with its reading direction.
#[derive(Clone, Copy, Debug, PartialEq, Eq)]
pub struct ResolvedLine {
    pub bounding_box: BoundingBox,
    pub orientation: Orientation,
}

pub open spec fn magnitude(v: int) -> int {
    if v < 0 {
        -v
    } else {
        v
    }
}

pub open spec fn min4(a: int, b: int, c: int, d: int) -> int {
    let ab = if a <= b { a } else { b };
    let cd = if c <= d { c } else { d };
    if ab <= cd {
        ab
    } else {
        cd
    }
}

pub open spec fn max4(a: int, b: int, c: int, d: int) -> int {
    let ab = if a >= b { a } else { b };
    let cd = if c >= d { c } else { d };
    if ab >= cd {
        ab
    } else {
        cd
    }
}

impl LineGeometry {
    /// Centre and extent lie within the accepted span.
    pub open spec fn in_range(&self) -> bool {
        &&& -MAX_SPAN <= self.center_x <= MAX_SPAN
        &&& -MAX_SPAN <= self.center_y <= MAX_SPAN
        &&& 0 <= self.width <= MAX_SPAN
        &&& 0 <= self.height <= MAX_SPAN
    }

    /// Cosine and sine are at most one, their squares add up to one within
    /// the rounding, and no turn comes with a zero angle.
    pub open spec fn consistent(&self) -> bool {
        &&& -UNIT <= self.cos <= UNIT
        &&& -UNIT <= self.sin <= UNIT
        &&& -NORM_TOLERANCE <= self.cos * self.cos + self.sin * self.sin - UNIT * UNIT
            <= NORM_TOLERANCE
        &&& (self.rotation == 0 ==> self.cos == UNIT && self.sin == 0)
    }

    /// Half of the denormalised width, in pixel units.
    pub open spec fn half_width(&self, chunk_width: u32) -> int {
        self.width * chunk_width
    }

    /// Half of the denormalised height, in pixel units.
    pub open spec fn half_height(&self, chunk_height: u32) -> int {
        self.height * chunk_height
    }

    /// The denormalised centre, in pixel units.
    pub open spec fn pixel_center_x(&self, chunk_width: u32) -> int {
        2 * (self.center_x * chunk_width)
    }

    pub open spec fn pixel_center_y(&self, chunk_height: u32) -> int {
        2 * (self.center_y * chunk_height)
    }

    /// Horizontal position of corner `k` (0 to 3, clockwise from the top
    /// left of the unturned rectangle) after the turn.
    pub open spec fn corner_x(&self, chunk_width: u32, chunk_height: u32, k: int) -> int {
        let lx = corner_sign_x(k) * self.half_width(chunk_width);
        let ly = corner_sign_y(k) * self.half_height(chunk_height);
        self.pixel_center_x(chunk_width) + turned_x(lx, ly, self.cos as int, self.sin as int)
    }

    /// Vertical position of corner `k` after the turn.
    pub open spec fn corner_y(&self, chunk_width: u32, chunk_height: u32, k: int) -> int {
        let lx = corner_sign_x(k) * self.half_width(chunk_width);
        let ly = corner_sign_y(k) * self.half_height(chunk_height);
        self.pixel_center_y(chunk_height) + turned_y(lx, ly, self.cos as int, self.sin as int)
    }

    /// The smallest upright box around the four turned corners.
    pub open spec fn upright_box(&self, chunk_width: u32, chunk_height: u32) -> BoundingBox {
        let left = min4(
            self.corner_x(chunk_width, chunk_height, 0),
            self.corner_x(chunk_width, chunk_height, 1),
            self.corner_x(chunk_width, chunk_height, 2),
            self.corner_x(chunk_width, chunk_height, 3),
        );
        let right = max4(
            self.corner_x(chunk_width, chunk_height, 0),
            self.corner_x(chunk_width, chunk_height, 1),
            self.corner_x(chunk_width, chunk_height, 2),
            self.corner_x(chunk_width, chunk_height, 3),
        );
        let top = min4(
            self.corner_y(chunk_width, chunk_height, 0),
            self.corner_y(chunk_width, chunk_height, 1),
            self.corner_y(chunk_width, chunk_height, 2),
            self.corner_y(chunk_width, chunk_height, 3),
        );
        let bottom = max4(
            self.corner_y(chunk_width, chunk_height, 0),
            self.corner_y(chunk_width, chunk_height, 1),
            self.corner_y(chunk_width, chunk_height, 2),
            self.corner_y(chunk_width, chunk_height, 3),
        );
        BoundingBox {
            x: left as i64,
            y: top as i64,
            width: (right - left) as i64,
            height: (bottom - top) as i64,
            rotation: None,
        }
    }

    /// Reading direction of the line.
    pub open spec fn orientation(&self, chunk_width: u32, chunk_height: u32) -> Orientation {
        let b = self.upright_box(chunk_width, chunk_height);
        if reads_vertical(self.rotation as int, b.width as int, b.height as int) {
            Orientation::Vertical
        } else {
            Orientation::Horizontal
        }
    }

    /// What `resolve` returns for this geometry.
    pub open spec fn resolved(&self, chunk_width: u32, chunk_height: u32) -> Result<
        ResolvedLine,
        GeometryError,
    > {
        if !self.in_range() {
            Err(GeometryError::OutOfRange)
        } else if !self.consistent() {
            Err(GeometryError::Inconsistent)
        } else {
            Ok(
                ResolvedLine {
                    bounding_box: self.upright_box(chunk_width, chunk_height),
                    orientation: self.orientation(chunk_width, chunk_height),
                },
            )
        }
    }
}

pub open spec fn corner_sign_x(k: int) -> int {
    if k == 1 || k == 2 {
        1
    } else {
        -1
    }
}

pub open spec fn corner_sign_y(k: int) -> int {
    if k == 2 || k == 3 {
        1
    } else {
        -1
    }
}

/// Horizontal part of the offset `(lx, ly)` after the turn, rounded down.
pub open spec fn turned_x(lx: int, ly: int, cos: int, sin: int) -> int {
    (lx * cos - ly * sin) / (UNIT as int)
}

/// Vertical part of the offset `(lx, ly)` after the turn, rounded down.
pub open spec fn turned_y(lx: int, ly: int, cos: int, sin: int) -> int {
    (lx * sin + ly * cos) / (UNIT as int)
}

/// The rule for the reading direction: a clear rotation decides by its
/// distance from a quarter turn, any other by the shape of the box.
pub open spec fn reads_vertical(rotation: int, box_width: int, box_height: int) -> bool {
    if magnitude(rotation) > ROTATION_THRESHOLD {
        magnitude(magnitude(rotation) - QUARTER_TURN) < QUARTER_TURN_TOLERANCE
    } else {
        box_width <= box_height
    }
}

/// Largest magnitude of an offset from the centre, in pixel units.
pub open spec fn max_offset() -> int {
    0x1_0000_0000int * 16_000_000int
}

/// The offset `(lx, ly)` after the turn.
fn turn(lx: i64, ly: i64, cos: i64, sin: i64) -> (r: (i64, i64))
    requires
        -max_offset() <= lx <= max_offset(),
        -max_offset() <= ly <= max_offset(),
        -UNIT <= cos <= UNIT,
        -UNIT <= sin <= UNIT,
    ensures
        r.0 == turned_x(lx as int, ly as int, cos as int, sin as int),
        r.1 == turned_y(lx as int, ly as int, cos as int, sin as int),
        -2 * max_offset() <= r.0 <= 2 * max_offset(),
        -2 * max_offset() <= r.1 <= 2 * max_offset(),
{
    proof {
        lemma_product_bound(lx as int, cos as int);
        lemma_product_bound(ly as int, sin as int);
        lemma_product_bound(lx as int, sin as int);
        lemma_product_bound(ly as int, cos as int);
    }
    let a: i128 = (lx as i128) * (cos as i128);
    let b: i128 = (ly as i128) * (sin as i128);
    let c: i128 = (lx as i128) * (sin as i128);
    let d: i128 = (ly as i128) * (cos as i128);
    let rx: i128 = floor_div(a - b, UNIT as i128);
    let ry: i128 = floor_div(c + d, UNIT as i128);
    (rx as i64, ry as i64)
}

proof fn lemma_product_bound(l: int, t: int)
    requires
        -max_offset() <= l <= max_offset(),
        -UNIT <= t <= UNIT,
    ensures
        -max_offset() * UNIT <= l * t <= max_offset() * UNIT,
{
    assert(-max_offset() * UNIT <= l * t <= max_offset() * UNIT) by (nonlinear_arith)
        requires
            -max_offset() <= l <= max_offset(),
            -UNIT <= t <= UNIT,
            max_offset() >= 0,
            UNIT >= 0,
    ;
}

fn least(a: i64, b: i64, c: i64, d: i64) -> (m: i64)
    ensures
        m == min4(a as int, b as int, c as int, d as int),
{
    let ab: i64 = if a <= b { a } else { b };
    let cd: i64 = if c <= d { c } else { d };
    if ab <= cd {
        ab
    } else {
        cd
    }
}

fn greatest(a: i64, b: i64, c: i64, d: i64) -> (m: i64)
    ensures
        m == max4(a as int, b as int, c as int, d as int),
{
    let ab: i64 = if a >= b { a } else { b };
    let cd: i64 = if c >= d { c } else { d };
    if ab >= cd {
        ab
    } else {
        cd
    }
}

/// Decides the reading direction from a rotation and the shape of the box.
pub fn classify(rotation: i64, box_width: i64, box_height: i64) -> (o: Orientation)
    ensures
        o == (if reads_vertical(rotation as int, box_width as int, box_height as int) {
            Orientation::Vertical
        } else {
            Orientation::Horizontal
        }),
{
    let wide: i128 = rotation as i128;
    let turn: i128 = if wide < 0 { -wide } else { wide };
    let vertical = if turn > ROTATION_THRESHOLD as i128 {
        let off: i128 = turn - QUARTER_TURN as i128;
        let dist: i128 = if off < 0 { -off } else { off };
        dist < QUARTER_TURN_TOLERANCE as i128
    } else {
        box_width <= box_height
    };
    if vertical {
        Orientation::Vertical
    } else {
        Orientation::Horizontal
    }
}

/// Resolves a line's placement inside a chunk of the given size to its
/// upright box in chunk pixels and its reading direction.
pub fn resolve(geometry: &LineGeometry, chunk_width: u32, chunk_height: u32) -> (r: Result<
    ResolvedLine,
    GeometryError,
>)
    ensures
        r == geometry.resolved(chunk_width, chunk_height),
{
    let g = geometry;
    if g.center_x < -MAX_SPAN || g.center_x > MAX_SPAN || g.center_y < -MAX_SPAN || g.center_y
        > MAX_SPAN || g.width < 0 || g.width > MAX_SPAN || g.height < 0 || g.height > MAX_SPAN {
        return Err(GeometryError::OutOfRange);
    }
    if g.cos < -UNIT || g.cos > UNIT || g.sin < -UNIT || g.sin > UNIT {
        return Err(GeometryError::Inconsistent);
    }
    assert(0 <= g.cos * g.cos <= UNIT * UNIT && 0 <= g.sin * g.sin <= UNIT * UNIT)
        by (nonlinear_arith)
        requires
            -UNIT <= g.cos <= UNIT,
            -UNIT <= g.sin <= UNIT,
    ;
    let norm: i64 = g.cos * g.cos + g.sin * g.sin - UNIT * UNIT;
    if norm < -NORM_TOLERANCE || norm > NORM_TOLERANCE || (g.rotation == 0 && (g.cos != UNIT
        || g.sin != 0)) {
        return Err(GeometryError::Inconsistent);
    }
    let cw: i64 = chunk_width as i64;
    let ch: i64 = chunk_height as i64;
    proof {
        lemma_span_bound(g.width as int, cw as int);
        lemma_span_bound(g.height as int, ch as int);
        lemma_span_bound(g.center_x as int, cw as int);
        lemma_span_bound(g.center_y as int, ch as int);
    }
    let hw: i64 = g.width * cw;
    let hh: i64 = g.height * ch;
    let cx: i64 = 2 * (g.center_x * cw);
    let cy: i64 = 2 * (g.center_y * ch);
    let c0 = turn(-hw, -hh, g.cos, g.sin);
    let c1 = turn(hw, -hh, g.cos, g.sin);
    let c2 = turn(hw, hh, g.cos, g.sin);
    let c3 = turn(-hw, hh, g.cos, g.sin);
    proof {
        assert(corner_sign_x(0) * g.half_width(chunk_width) == -hw);
        assert(corner_sign_y(0) * g.half_height(chunk_height) == -hh);
        assert(corner_sign_x(1) * g.half_width(chunk_width) == hw);
        assert(corner_sign_y(1) * g.half_height(chunk_height) == -hh);
        assert(corner_sign_x(2) * g.half_width(chunk_width) == hw);
        assert(corner_sign_y(2) * g.half_height(chunk_height) == hh);
        assert(corner_sign_x(3) * g.half_width(chunk_width) == -hw);
        assert(corner_sign_y(3) * g.half_height(chunk_height) == hh);
    }
    let left: i64 = least(cx + c0.0, cx + c1.0, cx + c2.0, cx + c3.0);
    let right: i64 = greatest(cx + c0.0, cx + c1.0, cx + c2.0, cx + c3.0);
    let top: i64 = least(cy + c0.1, cy + c1.1, cy + c2.1, cy + c3.1);
    let bottom: i64 = greatest(cy + c0.1, cy + c1.1, cy + c2.1, cy + c3.1);
    let bounding_box = BoundingBox {
        x: left,
        y: top,
        width: right - left,
        height: bottom - top,
        rotation: None,
    };
    let orientation = classify(g.rotation, bounding_box.width, bounding_box.height);
    Ok(ResolvedLine { bounding_box, orientation })
}

proof fn lemma_span_bound(v: int, d: int)
    requires
        -MAX_SPAN <= v <= MAX_SPAN,
        0 <= d < 0x1_0000_0000,
    ensures
        -max_offset() <= v * d <= max_offset(),
        v >= 0 ==> v * d >= 0,
{
    assert(-max_offset() <= v * d <= max_offset() && (v >= 0 ==> v * d >= 0)) by (nonlinear_arith)
        requires
            -16_000_000 <= v <= 16_000_000,
            0 <= d < 0x1_0000_0000,
            max_offset() == 0x1_0000_0000 * 16_000_000,
    ;
}

/// A rectangle that is not turned resolves to itself: its box starts half
/// its extent before the centre and is as wide and as high as the rectangle.
pub proof fn lemma_unrotated_box(g: LineGeometry, chunk_width: u32, chunk_height: u32)
    requires
        g.in_range(),
        g.consistent(),
        g.rotation == 0,
    ensures
        g.resolved(chunk_width, chunk_height) is Ok,
        g.upright_box(chunk_width, chunk_height) == (BoundingBox {
            x: (g.pixel_center_x(chunk_width) - g.half_width(chunk_width)) as i64,
            y: (g.pixel_center_y(chunk_height) - g.half_height(chunk_height)) as i64,
            width: (2 * g.half_width(chunk_width)) as i64,
            height: (2 * g.half_height(chunk_height)) as i64,
            rotation: None,
        }),
        i64::MIN <= g.pixel_center_x(chunk_width) - g.half_width(chunk_width) <= i64::MAX,
        i64::MIN <= g.pixel_center_y(chunk_height) - g.half_height(chunk_height) <= i64::MAX,
        0 <= 2 * g.half_width(chunk_width) <= i64::MAX,
        0 <= 2 * g.half_height(chunk_height) <= i64::MAX,
{
    let hw = g.half_width(chunk_width);
    let hh = g.half_height(chunk_height);
    lemma_span_bound(g.width as int, chunk_width as int);
    lemma_span_bound(g.height as int, chunk_height as int);
    lemma_span_bound(g.center_x as int, chunk_width as int);
    lemma_span_bound(g.center_y as int, chunk_height as int);
    assert forall|k: int| 0 <= k < 4 implies #[trigger] g.corner_x(chunk_width, chunk_height, k)
        == g.pixel_center_x(chunk_width) + corner_sign_x(k) * hw && g.corner_y(
        chunk_width,
        chunk_height,
        k,
    ) == g.pixel_center_y(chunk_height) + corner_sign_y(k) * hh by {
        let lx = corner_sign_x(k) * hw;
        let ly = corner_sign_y(k) * hh;
        assert((lx * 1_000_000 - ly * 0) / 1_000_000 == lx) by (nonlinear_arith);
        assert((lx * 0 + ly * 1_000_000) / 1_000_000 == ly) by (nonlinear_arith);
    }
    assert(g.corner_x(chunk_width, chunk_height, 0) == g.pixel_center_x(chunk_width) - hw);
    assert(g.corner_x(chunk_width, chunk_height, 1) == g.pixel_center_x(chunk_width) + hw);
    assert(g.corner_x(chunk_width, chunk_height, 2) == g.pixel_center_x(chunk_width) + hw);
    assert(g.corner_x(chunk_width, chunk_height, 3) == g.pixel_center_x(chunk_width) - hw);
    assert(g.corner_y(chunk_width, chunk_height, 0) == g.pixel_center_y(chunk_height) - hh);
    assert(g.corner_y(chunk_width, chunk_height, 1) == g.pixel_center_y(chunk_height) - hh);
    assert(g.corner_y(chunk_width, chunk_height, 2) == g.pixel_center_y(chunk_height) + hh);
    assert(g.corner_y(chunk_width, chunk_height, 3) == g.pixel_center_y(chunk_height) + hh);
}

/// A quarter turn to either side reads as vertical, whatever the shape.
pub proof fn lemma_quarter_turn_is_vertical(g: LineGeometry, chunk_width: u32, chunk_height: u32)
    requires
        magnitude(g.rotation as int) == QUARTER_TURN,
    ensures
        g.orientation(chunk_width, chunk_height) == Orientation::Vertical,
{
}

/// A rectangle that is not turned and is wider than high reads as
/// horizontal.
pub proof fn lemma_unrotated_wide_is_horizontal(
    g: LineGeometry,
    chunk_width: u32,
    chunk_height: u32,
)
    requires
        g.in_range(),
        g.consistent(),
        g.rotation == 0,
        g.half_width(chunk_width) > g.half_height(chunk_height),
    ensures
        g.orientation(chunk_width, chunk_height) == Orientation::Horizontal,
{
    lemma_unrotated_box(g, chunk_width, chunk_height);
}

/// The box of a placeable line is no degenerate one: it has no negative
/// extent, and it holds the centre of the rectangle.
pub proof fn lemma_box_holds_centre(g: LineGeometry, chunk_width: u32, chunk_height: u32)
    requires
        g.in_range(),
        g.consistent(),
    ensures
        ({
            let b = g.upright_box(chunk_width, chunk_height);
            &&& 0 <= b.width
            &&& 0 <= b.height
            &&& b.x <= g.pixel_center_x(chunk_width) <= b.x + b.width
            &&& b.y <= g.pixel_center_y(chunk_height) <= b.y + b.height
        }),
{
    let hw = g.half_width(chunk_width);
    let hh = g.half_height(chunk_height);
    let cx = g.pixel_center_x(chunk_width);
    let cy = g.pixel_center_y(chunk_height);
    lemma_span_bound(g.width as int, chunk_width as int);
    lemma_span_bound(g.height as int, chunk_height as int);
    lemma_span_bound(g.center_x as int, chunk_width as int);
    lemma_span_bound(g.center_y as int, chunk_height as int);
    assert forall|k: int| 0 <= k < 4 implies -2 * max_offset() <= #[trigger] g.corner_x(
        chunk_width,
        chunk_height,
        k,
    ) - cx <= 2 * max_offset() && -2 * max_offset() <= g.corner_y(chunk_width, chunk_height, k)
        - cy <= 2 * max_offset() by {
        let lx = corner_sign_x(k) * hw;
        let ly = corner_sign_y(k) * hh;
        lemma_product_bound(lx, g.cos as int);
        lemma_product_bound(ly, g.sin as int);
        lemma_product_bound(lx, g.sin as int);
        lemma_product_bound(ly, g.cos as int);
    }
    let px = hw * g.cos - hh * g.sin;
    let py = hw * g.sin + hh * g.cos;
    assert((-hw) * g.cos - (-hh) * g.sin == -px && (-hw) * g.sin + (-hh) * g.cos == -py)
        by (nonlinear_arith)
        requires
            px == hw * g.cos - hh * g.sin,
            py == hw * g.sin + hh * g.cos,
    ;
    assert(corner_sign_x(0) == -1 && corner_sign_y(0) == -1);
    assert(corner_sign_x(2) == 1 && corner_sign_y(2) == 1);
    assert((-1) * hw == -hw && (-1) * hh == -hh && 1 * hw == hw && 1 * hh == hh)
        by (nonlinear_arith);
    assert(g.corner_x(chunk_width, chunk_height, 0) == cx + (-px) / (UNIT as int));
    assert(g.corner_x(chunk_width, chunk_height, 2) == cx + px / (UNIT as int));
    assert(g.corner_y(chunk_width, chunk_height, 0) == cy + (-py) / (UNIT as int));
    assert(g.corner_y(chunk_width, chunk_height, 2) == cy + py / (UNIT as int));
}

} // verus!
