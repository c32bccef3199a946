use sectorcast::geometry::{Vec2Fx, FP_ONE};
use sectorcast::raycast::{
    corrected_distance, depth_value, intersection_distance, perceived_size, shade_channel, view_point,
    Frac, SCALE,
};

#[test]
fn ray_up_hits_horizontal_segment_at_distance_one() {
    let origin = Vec2Fx { x: 0, y: 0 };
    let dir = Vec2Fx { x: 0, y: FP_ONE };
    let start = Vec2Fx { x: -FP_ONE, y: FP_ONE };
    let end = Vec2Fx { x: FP_ONE, y: FP_ONE };
    let hit = intersection_distance(origin, dir, start, end).expect("must hit");
    assert!(hit.den > 0);
    assert_eq!(hit.num, hit.den, "t1 must be exactly 1.0");
}

#[test]
fn ray_right_misses_horizontal_segment() {
    let origin = Vec2Fx { x: 0, y: 0 };
    let dir = Vec2Fx { x: FP_ONE, y: 0 };
    let start = Vec2Fx { x: -FP_ONE, y: FP_ONE };
    let end = Vec2Fx { x: FP_ONE, y: FP_ONE };
    assert!(intersection_distance(origin, dir, start, end).is_none());
}

#[test]
fn hit_behind_origin_is_rejected() {
    let origin = Vec2Fx { x: 0, y: 0 };
    let dir = Vec2Fx { x: 0, y: FP_ONE };
    let start = Vec2Fx { x: -FP_ONE, y: -FP_ONE };
    let end = Vec2Fx { x: FP_ONE, y: -FP_ONE };
    assert!(intersection_distance(origin, dir, start, end).is_none());
}

#[test]
fn hit_outside_segment_is_rejected() {
    let origin = Vec2Fx { x: 3 * FP_ONE, y: 0 };
    let dir = Vec2Fx { x: 0, y: FP_ONE };
    let start = Vec2Fx { x: -FP_ONE, y: FP_ONE };
    let end = Vec2Fx { x: FP_ONE, y: FP_ONE };
    assert!(intersection_distance(origin, dir, start, end).is_none());
}

#[test]
fn fisheye_correction_scales_by_cosine() {
    let t = Frac { num: 1, den: 1 };
    let cd = corrected_distance(t, FP_ONE / 2);
    // distance 1 at a 60-degree-equivalent cosine of 0.5 becomes 0.5
    assert_eq!(cd.num * 2, cd.den);
}

#[test]
fn perceived_height_at_distance_one_is_height_times_scale() {
    // a wall of height 2.5 at corrected distance 1.0
    let height_fx = 2 * FP_ONE + FP_ONE / 2;
    let ph = perceived_size(height_fx, Frac { num: 1, den: 1 });
    assert_eq!(ph, (25 * SCALE) / 10);
    assert_eq!(ph, 250);
}

#[test]
fn doubling_distance_halves_perceived_height() {
    let height_fx = 2 * FP_ONE + FP_ONE / 2;
    let near = perceived_size(height_fx, Frac { num: 1, den: 1 });
    let far = perceived_size(height_fx, Frac { num: 2, den: 1 });
    assert_eq!(near, 2 * far);
    // with an exactly divisible height the halving continues exactly
    let tall = 4 * FP_ONE;
    let a = perceived_size(tall, Frac { num: 1, den: 1 });
    let b = perceived_size(tall, Frac { num: 2, den: 1 });
    let c = perceived_size(tall, Frac { num: 4, den: 1 });
    assert_eq!(a, 400);
    assert_eq!(a, 2 * b);
    assert_eq!(b, 2 * c);
}

#[test]
fn shading_fades_linearly_and_clamps_to_black() {
    // at distance 1 of render distance 2, half the colour is left
    assert_eq!(shade_channel(255, Frac { num: 1, den: 1 }), 127);
    // at distance 0 the colour is untouched
    assert_eq!(shade_channel(200, Frac { num: 0, den: 1 }), 200);
    // at and past the cutoff the colour is black
    assert_eq!(shade_channel(255, Frac { num: 2, den: 1 }), 0);
    assert_eq!(shade_channel(255, Frac { num: 3, den: 1 }), 0);
}

#[test]
fn depth_value_saturates_close_up() {
    assert_eq!(depth_value(Frac { num: 1, den: 1 }), 255);
    assert_eq!(depth_value(Frac { num: 2, den: 1 }), 255);
}

#[test]
fn view_transform_division_truncates_toward_zero() {
    // a half-unit rotation factor: 3 * 512 / 1024 truncates to 1, and the
    // mirrored input to -1 (not the floor -2)
    let p = view_point(Vec2Fx { x: 3, y: 0 }, Vec2Fx { x: 0, y: 0 }, FP_ONE / 2, 0);
    assert_eq!(p.x, 1);
    let q = view_point(Vec2Fx { x: -3, y: 0 }, Vec2Fx { x: 0, y: 0 }, FP_ONE / 2, 0);
    assert_eq!(q.x, -1);
}

#[test]
fn view_transform_translates_then_rotates() {
    // identity rotation: pure translation
    let p = view_point(
        Vec2Fx { x: 2 * FP_ONE, y: FP_ONE },
        Vec2Fx { x: FP_ONE, y: FP_ONE },
        FP_ONE,
        0,
    );
    assert_eq!(p, Vec2Fx { x: FP_ONE, y: 0 });
    // quarter turn: (1, 0) maps onto (0, 1)
    let q = view_point(Vec2Fx { x: FP_ONE, y: 0 }, Vec2Fx { x: 0, y: 0 }, 0, FP_ONE);
    assert_eq!(q, Vec2Fx { x: 0, y: FP_ONE });
}
