use mangatan::ocr::fixed::{PIXEL, UNIT};
use mangatan::ocr::geometry::{
    classify, resolve, BoundingBox, GeometryError, LineGeometry, Orientation, MAX_SPAN,
    QUARTER_TURN,
};

fn upright(center_x: i64, center_y: i64, width: i64, height: i64) -> LineGeometry {
    LineGeometry { center_x, center_y, width, height, rotation: 0, cos: UNIT, sin: 0 }
}

#[test]
fn unrotated_rectangle_resolves_to_itself() {
    // centre (0.5, 0.25), size (0.2, 0.1) in a chunk of 1000 x 2000 pixels
    let g = upright(500_000, 250_000, 200_000, 100_000);
    let r = resolve(&g, 1000, 2000).unwrap();
    assert_eq!(
        r.bounding_box,
        BoundingBox {
            x: 400 * PIXEL,
            y: 400 * PIXEL,
            width: 200 * PIXEL,
            height: 200 * PIXEL,
            rotation: None,
        }
    );
}

#[test]
fn unrotated_box_is_exact_for_odd_extents() {
    let g = upright(333_333, 777_777, 111_111, 1);
    let r = resolve(&g, 999, 7).unwrap();
    let b = r.bounding_box;
    assert_eq!(b.width, 2 * 111_111 * 999);
    assert_eq!(b.height, 2 * 7);
    assert_eq!(b.x, 2 * 333_333 * 999 - 111_111 * 999);
    assert_eq!(b.y, 2 * 777_777 * 7 - 7);
}

#[test]
fn quarter_turn_swaps_the_extents() {
    let g = LineGeometry {
        center_x: 500_000,
        center_y: 500_000,
        width: 400_000,
        height: 100_000,
        rotation: QUARTER_TURN,
        cos: 0,
        sin: UNIT,
    };
    let r = resolve(&g, 1000, 1000).unwrap();
    assert_eq!(
        r.bounding_box,
        BoundingBox {
            x: 450 * PIXEL,
            y: 300 * PIXEL,
            width: 100 * PIXEL,
            height: 400 * PIXEL,
            rotation: None,
        }
    );
    assert_eq!(r.orientation, Orientation::Vertical);
}

#[test]
fn quarter_turn_is_vertical_whatever_the_shape() {
    for (w, h) in [(1, 1_000), (1_000, 1), (5, 5)] {
        assert_eq!(classify(QUARTER_TURN, w, h), Orientation::Vertical);
        assert_eq!(classify(-QUARTER_TURN, w, h), Orientation::Vertical);
    }
}

#[test]
fn unrotated_wide_line_is_horizontal() {
    let g = upright(500_000, 500_000, 600_000, 50_000);
    let r = resolve(&g, 800, 800).unwrap();
    assert_eq!(r.orientation, Orientation::Horizontal);
    assert_eq!(classify(0, 10, 9), Orientation::Horizontal);
}

#[test]
fn unrotated_tall_or_square_line_is_vertical() {
    assert_eq!(classify(0, 9, 10), Orientation::Vertical);
    assert_eq!(classify(0, 10, 10), Orientation::Vertical);
}

#[test]
fn rotation_thresholds() {
    // at the threshold the shape still decides
    assert_eq!(classify(100_000, 10, 1), Orientation::Horizontal);
    assert_eq!(classify(100_000, 1, 10), Orientation::Vertical);
    // just above it the rotation decides: far from a quarter turn
    assert_eq!(classify(100_001, 1, 10), Orientation::Horizontal);
    // within half a radian of a quarter turn
    assert_eq!(classify(1_070_797, 10, 1), Orientation::Vertical);
    assert_eq!(classify(1_070_796, 10, 1), Orientation::Horizontal);
    assert_eq!(classify(2_070_795, 10, 1), Orientation::Vertical);
    assert_eq!(classify(2_070_796, 10, 1), Orientation::Horizontal);
    assert_eq!(classify(i64::MIN, 1, 10), Orientation::Horizontal);
}

#[test]
fn small_turn_widens_the_box() {
    // 0.3 rad: cos 0.955336, sin 0.295520
    let g = LineGeometry {
        center_x: 500_000,
        center_y: 500_000,
        width: 200_000,
        height: 100_000,
        rotation: 300_000,
        cos: 955_336,
        sin: 295_520,
    };
    let r = resolve(&g, 1000, 1000).unwrap();
    let hw: i64 = 200_000 * 1000;
    let hh: i64 = 100_000 * 1000;
    let ex = (hw * 955_336 + hh * 295_520).div_euclid(UNIT);
    let ey = (hw * 295_520 + hh * 955_336).div_euclid(UNIT);
    assert_eq!(r.bounding_box.x, 500 * PIXEL + (-(hw * 955_336) - hh * 295_520).div_euclid(UNIT));
    assert_eq!(r.bounding_box.width, ex - (-(hw * 955_336) - hh * 295_520).div_euclid(UNIT));
    assert_eq!(r.bounding_box.height, ey - (-(hw * 295_520) - hh * 955_336).div_euclid(UNIT));
    assert_eq!(r.bounding_box.x, 779_380_800);
    assert_eq!(r.bounding_box.width, 441_238_400);
    assert_eq!(r.orientation, Orientation::Horizontal);
}

#[test]
fn geometry_out_of_range_is_refused() {
    let mut g = upright(500_000, 500_000, 100_000, 100_000);
    g.width = -1;
    assert_eq!(resolve(&g, 10, 10), Err(GeometryError::OutOfRange));
    let mut g = upright(500_000, 500_000, 100_000, 100_000);
    g.center_y = MAX_SPAN + 1;
    assert_eq!(resolve(&g, 10, 10), Err(GeometryError::OutOfRange));
    let g = upright(MAX_SPAN, -MAX_SPAN, MAX_SPAN, MAX_SPAN);
    assert!(resolve(&g, u32::MAX, u32::MAX).is_ok());
}

#[test]
fn inconsistent_turn_is_refused() {
    let mut g = upright(500_000, 500_000, 100_000, 100_000);
    g.cos = UNIT + 1;
    assert_eq!(resolve(&g, 10, 10), Err(GeometryError::Inconsistent));
    let mut g = upright(500_000, 500_000, 100_000, 100_000);
    g.sin = 5;
    assert_eq!(resolve(&g, 10, 10), Err(GeometryError::Inconsistent));
    // neither on the unit circle
    let mut g = upright(500_000, 500_000, 100_000, 100_000);
    g.rotation = 700_000;
    g.cos = 0;
    g.sin = 0;
    assert_eq!(resolve(&g, 10, 10), Err(GeometryError::Inconsistent));
    g.cos = 800_000;
    g.sin = 610_000;
    assert_eq!(resolve(&g, 10, 10), Err(GeometryError::Inconsistent));
    // 0.7 rad, rounded to millionths
    g.cos = 764_842;
    g.sin = 644_218;
    assert!(resolve(&g, 10, 10).is_ok());
}

#[test]
fn default_box_is_empty() {
    assert_eq!(
        BoundingBox::default(),
        BoundingBox { x: 0, y: 0, width: 0, height: 0, rotation: None }
    );
}
