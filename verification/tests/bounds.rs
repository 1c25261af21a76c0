use runic::{Bounds, RelativeBounds};

fn ends(b: &Bounds) -> (u32, u32, u32, u32) {
    (*b.x.start(), *b.x.end(), *b.y.start(), *b.y.end())
}

#[test]
fn offset_shifts_window_inside_raster() {
    let rel = RelativeBounds { x: -1..=1, y: -2..=3 };
    let b = rel.offset(10, 20, 100, 100);
    assert_eq!(ends(&b), (9, 11, 18, 23));
}

#[test]
fn offset_clamps_at_zero() {
    let rel = RelativeBounds { x: -1..=1, y: -2..=3 };
    let b = rel.offset(0, 1, 100, 100);
    assert_eq!(ends(&b), (0, 1, 0, 4));
}

#[test]
fn offset_clamps_at_last_pixel() {
    let rel = RelativeBounds { x: -1..=1, y: -2..=3 };
    let b = rel.offset(99, 98, 100, 100);
    assert_eq!(ends(&b), (98, 99, 96, 99));
}

#[test]
fn offset_in_single_pixel_raster() {
    let rel = RelativeBounds { x: -3..=3, y: -3..=3 };
    let b = rel.offset(0, 0, 1, 1);
    assert_eq!(ends(&b), (0, 0, 0, 0));
}

#[test]
fn offset_window_entirely_left_of_raster() {
    let rel = RelativeBounds { x: -9..=-5, y: 0..=0 };
    let b = rel.offset(2, 0, 10, 10);
    assert_eq!(ends(&b), (0, 0, 0, 0));
}

#[test]
fn offset_window_entirely_right_of_raster() {
    let rel = RelativeBounds { x: 5..=9, y: 0..=0 };
    let b = rel.offset(8, 3, 10, 10);
    assert_eq!(ends(&b), (9, 9, 3, 3));
}

#[test]
fn offset_takes_extreme_operands() {
    let rel = RelativeBounds { x: i32::MIN..=i32::MAX, y: i32::MAX..=i32::MAX };
    let b = rel.offset(u32::MAX, u32::MAX, u32::MAX, 7);
    assert_eq!(ends(&b), (2147483647, 4294967294, 6, 6));
}

#[test]
fn offset_keeps_order_and_keeps_the_pixel() {
    let rel = RelativeBounds { x: -2..=1, y: -1..=2 };
    for oy in 0..6u32 {
        for ox in 0..5u32 {
            let (x0, x1, y0, y1) = ends(&rel.offset(ox, oy, 5, 6));
            assert!(x0 <= ox && ox <= x1);
            assert!(y0 <= oy && oy <= y1);
            assert!(x1 < 5 && y1 < 6);
        }
    }
}

#[test]
fn bounds_can_be_cloned() {
    let rel = RelativeBounds { x: -1..=1, y: -2..=3 };
    let copy = rel.clone();
    assert_eq!(copy.x, -1..=1);
    assert_eq!(copy.y, -2..=3);
    let b = rel.offset(4, 4, 10, 10).clone();
    assert_eq!(ends(&b), (3, 5, 2, 7));
}
