use sectorcast::framebuffer::{blend, pos_to_offset, Canvas};
use sectorcast::geometry::{CricleDescriptor, LineDescriptor, Rgb, Vec2Fx, VerticalLineDescriptor};

fn off(width: u32, x: u32, y: u32) -> usize {
    4 * ((y * width + x) as usize)
}

#[test]
fn new_canvas_is_cleared() {
    let c = Canvas::new(8, 4);
    assert_eq!(c.width, 8);
    assert_eq!(c.height, 4);
    assert_eq!(c.data.len(), 8 * 4 * 4);
    assert!(c.data.iter().all(|&b| b == 0));
}

#[test]
fn resize_skips_degenerate_sizes() {
    let mut c = Canvas::new(8, 4);
    c.resize(0, 10);
    assert_eq!(c.width, 8);
    assert_eq!(c.height, 4);
    c.resize(10, 0);
    assert_eq!(c.width, 8);
    assert_eq!(c.height, 4);
    c.resize(6, 6);
    assert_eq!(c.width, 6);
    assert_eq!(c.height, 6);
    assert_eq!(c.data.len(), 6 * 6 * 4);
}

#[test]
fn clear_resets_all_bytes() {
    let mut c = Canvas::new(8, 8);
    c.plot(3, 3, Rgb { r: 10, g: 20, b: 30 });
    c.clear();
    assert!(c.data.iter().all(|&b| b == 0));
}

#[test]
fn strip_writes_bgr_and_depth() {
    let mut c = Canvas::new(8, 8);
    let strip = VerticalLineDescriptor {
        y: 2,
        top_x: 1,
        bottom_x: 4,
        color: Rgb { r: 10, g: 20, b: 30 },
        depth: 100,
    };
    c.draw_vertical_line(&strip);
    for row in 1..4u32 {
        let o = off(8, 2, row);
        assert_eq!(c.data[o], 30); // blue first
        assert_eq!(c.data[o + 1], 20);
        assert_eq!(c.data[o + 2], 10);
        assert_eq!(c.data[o + 3], 100);
    }
    // rows outside the strip stay background
    assert_eq!(c.data[off(8, 2, 0)], 0);
    assert_eq!(c.data[off(8, 2, 4)], 0);
}

#[test]
fn drawing_same_strip_twice_changes_nothing() {
    let mut c = Canvas::new(8, 8);
    let strip = VerticalLineDescriptor {
        y: 3,
        top_x: 0,
        bottom_x: 8,
        color: Rgb { r: 1, g: 2, b: 3 },
        depth: 42,
    };
    c.draw_vertical_line(&strip);
    let snapshot = c.data.clone();
    c.draw_vertical_line(&strip);
    assert_eq!(c.data, snapshot);
}

#[test]
fn nearer_strip_overwrites_farther_strip_but_not_vice_versa() {
    let mut c = Canvas::new(8, 8);
    let far = VerticalLineDescriptor {
        y: 1,
        top_x: 0,
        bottom_x: 4,
        color: Rgb { r: 1, g: 1, b: 1 },
        depth: 10,
    };
    let near = VerticalLineDescriptor {
        y: 1,
        top_x: 0,
        bottom_x: 4,
        color: Rgb { r: 2, g: 2, b: 2 },
        depth: 20,
    };
    c.draw_vertical_line(&near);
    let snapshot = c.data.clone();
    c.draw_vertical_line(&far);
    assert_eq!(c.data, snapshot, "a lower depth value must not overwrite");
    c.clear();
    c.draw_vertical_line(&far);
    c.draw_vertical_line(&near);
    let o = off(8, 1, 2);
    assert_eq!(c.data[o + 2], 2, "a higher depth value wins");
    assert_eq!(c.data[o + 3], 20);
}

#[test]
fn circle_of_radius_zero_draws_nothing() {
    let mut c = Canvas::new(16, 16);
    c.draw_circle(&CricleDescriptor {
        centre: Vec2Fx { x: 8, y: 8 },
        radius: 0,
        color: Rgb { r: 255, g: 255, b: 255 },
    });
    assert!(c.data.iter().all(|&b| b == 0));
}

#[test]
fn circle_touches_only_pixels_strictly_inside_radius() {
    let mut c = Canvas::new(16, 16);
    c.draw_circle(&CricleDescriptor {
        centre: Vec2Fx { x: 8, y: 8 },
        radius: 3,
        color: Rgb { r: 255, g: 255, b: 255 },
    });
    for y in 0..16u32 {
        for x in 0..16u32 {
            let dx = x as i64 - 8;
            let dy = y as i64 - 8;
            let o = off(16, x, y);
            if dx * dx + dy * dy < 9 {
                // blended: 0 + 128 / 2 on each colour byte, depth byte kept
                assert_eq!(c.data[o], 64);
                assert_eq!(c.data[o + 1], 64);
                assert_eq!(c.data[o + 2], 64);
                assert_eq!(c.data[o + 3], 0);
            } else {
                assert_eq!(c.data[o], 0);
                assert_eq!(c.data[o + 1], 0);
                assert_eq!(c.data[o + 2], 0);
                assert_eq!(c.data[o + 3], 0);
            }
        }
    }
}

#[test]
fn blend_saturates_at_white() {
    assert_eq!(blend(200, 128), 255); // 200 + 64 saturates
    assert_eq!(blend(10, 128), 74);
    assert_eq!(blend(0, 0), 0);
}

#[test]
fn line_draws_diagonal_pixels_with_strict_clip() {
    let mut c = Canvas::new(10, 10);
    let color = Rgb { r: 7, g: 8, b: 9 };
    c.draw_line(&LineDescriptor {
        start: Vec2Fx { x: 0, y: 0 },
        end: Vec2Fx { x: 5, y: 5 },
        color,
    });
    // the stepper visits (0,0)..(4,4); (0,0) is clipped by the strict
    // bound, (5,5) is the excluded endpoint
    assert_eq!(c.data[off(10, 0, 0)], 0);
    for i in 1..5u32 {
        let o = off(10, i, i);
        assert_eq!(c.data[o], 9);
        assert_eq!(c.data[o + 1], 8);
        assert_eq!(c.data[o + 2], 7);
        assert_eq!(c.data[o + 3], 0, "line drawing leaves the depth byte");
    }
    assert_eq!(c.data[off(10, 5, 5)], 0);
    // off-diagonal untouched
    assert_eq!(c.data[off(10, 2, 3)], 0);
}

#[test]
fn pos_to_offset_checks_bounds() {
    assert_eq!(pos_to_offset(Vec2Fx { x: 3, y: 2 }, 8, 8), Some(19));
    assert_eq!(pos_to_offset(Vec2Fx { x: -1, y: 2 }, 8, 8), None);
    assert_eq!(pos_to_offset(Vec2Fx { x: 3, y: 9 }, 8, 8), None);
    assert_eq!(pos_to_offset(Vec2Fx { x: 0, y: 0 }, 8, 8), Some(0));
}
