use sectorcast::framebuffer::Canvas;
use sectorcast::geometry::{Rgb, Vec2Fx, FP_ONE};
use sectorcast::level::LevelState;
use sectorcast::raycast::ColumnRay;
use sectorcast::scene::{project_wall_column, render_frame};

fn off(width: u32, x: u32, y: u32) -> usize {
    4 * ((y * width + x) as usize)
}

fn straight_rays(n: usize) -> Vec<ColumnRay> {
    let mut rays = Vec::new();
    for _ in 0..n {
        rays.push(ColumnRay { dir: Vec2Fx { x: 0, y: FP_ONE }, cos_fx: FP_ONE });
    }
    rays
}

#[test]
fn projected_strip_for_a_straight_hit() {
    // camera at the origin looking along +Y, wall at y = 1, height 2.5
    let wall = (
        Vec2Fx { x: -FP_ONE, y: FP_ONE },
        Vec2Fx { x: FP_ONE, y: FP_ONE },
        Rgb { r: 255, g: 0, b: 0 },
    );
    let ray = ColumnRay { dir: Vec2Fx { x: 0, y: FP_ONE }, cos_fx: FP_ONE };
    let strip = project_wall_column(
        3,
        wall,
        Vec2Fx { x: 0, y: 0 },
        FP_ONE,
        0,
        ray,
        2 * FP_ONE + FP_ONE / 2,
        0,
        200,
    )
    .expect("straight hit must project a strip");
    assert_eq!(strip.y, 3);
    // perceived height 250 from half-height 100: top clamps to 0
    assert_eq!(strip.top_x, 0);
    assert_eq!(strip.bottom_x, 100);
    // distance 1 of render distance 2 leaves half the colour
    assert_eq!(strip.color, Rgb { r: 127, g: 0, b: 0 });
    assert_eq!(strip.depth, 255);
}

#[test]
fn strip_beyond_render_distance_is_discarded() {
    let wall = (
        Vec2Fx { x: -FP_ONE, y: 3 * FP_ONE },
        Vec2Fx { x: FP_ONE, y: 3 * FP_ONE },
        Rgb { r: 255, g: 0, b: 0 },
    );
    let ray = ColumnRay { dir: Vec2Fx { x: 0, y: FP_ONE }, cos_fx: FP_ONE };
    let strip = project_wall_column(
        0,
        wall,
        Vec2Fx { x: 0, y: 0 },
        FP_ONE,
        0,
        ray,
        FP_ONE,
        0,
        200,
    );
    assert!(strip.is_none());
}

#[test]
fn scene_frame_draws_shaded_wall_strips() {
    // the demo sector seen from the origin along +Y: every straight ray
    // hits the cyan top wall at distance 1
    let level = LevelState::demo();
    let mut canvas = Canvas::new(8, 8);
    let rays = straight_rays(8);
    render_frame(
        &mut canvas,
        &level,
        Vec2Fx { x: 0, y: 0 },
        FP_ONE,
        0,
        Vec2Fx { x: 0, y: FP_ONE },
        &rays,
        false,
    );
    // perceived height 250 from half-height 4: rows 0..4 of every column
    for x in 0..8u32 {
        for y in 0..4u32 {
            let o = off(8, x, y);
            assert_eq!(canvas.data[o], 127, "blue channel, half faded");
            assert_eq!(canvas.data[o + 1], 127, "green channel, half faded");
            assert_eq!(canvas.data[o + 2], 0, "red channel of cyan");
            assert_eq!(canvas.data[o + 3], 255, "saturated depth byte");
        }
        for y in 4..8u32 {
            let o = off(8, x, y);
            assert_eq!(canvas.data[o], 0);
            assert_eq!(canvas.data[o + 3], 0);
        }
    }
}

#[test]
fn frame_without_containing_sector_stays_background() {
    let level = LevelState::demo();
    let mut canvas = Canvas::new(8, 8);
    let rays = straight_rays(8);
    render_frame(
        &mut canvas,
        &level,
        Vec2Fx { x: 5 * FP_ONE, y: 5 * FP_ONE },
        FP_ONE,
        0,
        Vec2Fx { x: 0, y: FP_ONE },
        &rays,
        false,
    );
    assert!(canvas.data.iter().all(|&b| b == 0));
}

#[test]
fn map_frame_blends_player_marker_over_lines() {
    let level = LevelState::demo();
    let mut canvas = Canvas::new(8, 8);
    let rays = straight_rays(8);
    render_frame(
        &mut canvas,
        &level,
        Vec2Fx { x: 0, y: 0 },
        FP_ONE,
        0,
        Vec2Fx { x: 0, y: FP_ONE },
        &rays,
        true,
    );
    // the whole 8x8 canvas lies within the 100-pixel player circle; a
    // pixel on no map line holds the 50% grey blend over background
    let o = off(8, 6, 3);
    assert_eq!(canvas.data[o], 64);
    assert_eq!(canvas.data[o + 1], 64);
    assert_eq!(canvas.data[o + 2], 64);
    assert_eq!(canvas.data[o + 3], 0);
}
