use sectorcast::geometry::{Rgb, Vec2Fx, FP_ONE};
use sectorcast::level::{LevelState, Line, Sector, Wall};

fn fx(v: f64) -> i64 {
    (v * FP_ONE as f64) as i64
}

#[test]
fn demo_sector_contains_origin() {
    let level = LevelState::demo();
    let sector = &level.sectors()[0];
    assert!(sector.contains(Vec2Fx { x: 0, y: 0 }));
}

#[test]
fn demo_sector_rejects_far_point() {
    let level = LevelState::demo();
    let sector = &level.sectors()[0];
    assert!(!sector.contains(Vec2Fx { x: fx(5.0), y: fx(5.0) }));
}

#[test]
fn find_current_sector_first_match() {
    let level = LevelState::demo();
    assert!(level.find_current_sector(Vec2Fx { x: 0, y: 0 }).is_some());
    assert!(level.find_current_sector(Vec2Fx { x: fx(5.0), y: fx(5.0) }).is_none());
}

#[test]
fn demo_walls_are_five_solid_segments() {
    let level = LevelState::demo();
    let sector = &level.sectors()[0];
    let walls = sector.walls();
    assert_eq!(walls.len(), 5);
    assert_eq!(walls[0].0, Vec2Fx { x: -FP_ONE, y: -FP_ONE });
    assert_eq!(walls[0].1, Vec2Fx { x: -FP_ONE, y: FP_ONE / 2 });
    assert_eq!(walls[0].2, Rgb { r: 255, g: 0, b: 0 });
    assert_eq!(sector.height(), fx(2.5));
    assert_eq!(sector.base_height(), 0);
}

#[test]
fn portal_walls_are_excluded_from_wall_list() {
    let sector = Sector {
        points: vec![
            Vec2Fx { x: 0, y: 0 },
            Vec2Fx { x: FP_ONE, y: 0 },
            Vec2Fx { x: 0, y: FP_ONE },
        ],
        lines: vec![
            Line { wall_type: Wall::Solid(Rgb { r: 1, g: 2, b: 3 }), point_1_id: 0, point_2_id: 1 },
            Line { wall_type: Wall::Portal(7), point_1_id: 1, point_2_id: 2 },
            Line { wall_type: Wall::Solid(Rgb { r: 4, g: 5, b: 6 }), point_1_id: 2, point_2_id: 0 },
        ],
        base_height: 0,
        height: FP_ONE,
    };
    let walls = sector.walls();
    assert_eq!(walls.len(), 2);
    assert_eq!(walls[0].2, Rgb { r: 1, g: 2, b: 3 });
    assert_eq!(walls[1].2, Rgb { r: 4, g: 5, b: 6 });
}

#[test]
fn containment_judged_on_solid_edges_only() {
    // A sector whose boundary is partly a portal has containment judged
    // against its solid edges alone: a known approximation, not a bug.
    let sector = Sector {
        points: vec![
            Vec2Fx { x: -FP_ONE, y: -FP_ONE },
            Vec2Fx { x: -FP_ONE, y: FP_ONE },
            Vec2Fx { x: FP_ONE, y: FP_ONE },
            Vec2Fx { x: FP_ONE, y: -FP_ONE },
        ],
        lines: vec![
            Line { wall_type: Wall::Solid(Rgb { r: 9, g: 9, b: 9 }), point_1_id: 0, point_2_id: 1 },
            Line { wall_type: Wall::Solid(Rgb { r: 9, g: 9, b: 9 }), point_1_id: 1, point_2_id: 2 },
            Line { wall_type: Wall::Portal(0), point_1_id: 2, point_2_id: 3 },
            Line { wall_type: Wall::Solid(Rgb { r: 9, g: 9, b: 9 }), point_1_id: 3, point_2_id: 0 },
        ],
        base_height: 0,
        height: FP_ONE,
    };
    // beyond the portal edge (x > 1), but inside every solid half-plane
    assert!(sector.contains(Vec2Fx { x: 3 * FP_ONE / 2, y: 0 }));
    // strictly outside a solid edge's half-plane is still rejected
    assert!(!sector.contains(Vec2Fx { x: 0, y: 2 * FP_ONE }));
}

#[test]
fn sector_construction_validates_point_references() {
    let points = vec![Vec2Fx { x: 0, y: 0 }, Vec2Fx { x: FP_ONE, y: 0 }];
    let good = Sector::new(
        points.clone(),
        vec![Line {
            wall_type: Wall::Solid(Rgb { r: 1, g: 1, b: 1 }),
            point_1_id: 0,
            point_2_id: 1,
        }],
        0,
        FP_ONE,
    );
    assert!(good.is_some());
    let bad = Sector::new(
        points,
        vec![Line {
            wall_type: Wall::Solid(Rgb { r: 1, g: 1, b: 1 }),
            point_1_id: 0,
            point_2_id: 2,
        }],
        0,
        FP_ONE,
    );
    assert!(bad.is_none());
    let bad_height = Sector::new(vec![Vec2Fx { x: 0, y: 0 }], vec![], 0, -FP_ONE);
    assert!(bad_height.is_none());
}

#[test]
fn strictly_interior_and_exterior_points() {
    let level = LevelState::demo();
    let sector = &level.sectors()[0];
    // strictly inside near each corner
    assert!(sector.contains(Vec2Fx { x: fx(-0.9), y: fx(-0.9) }));
    assert!(sector.contains(Vec2Fx { x: fx(0.9), y: fx(0.9) }));
    // strictly outside a single wall's half-plane
    assert!(!sector.contains(Vec2Fx { x: fx(-1.1), y: 0 }));
    assert!(!sector.contains(Vec2Fx { x: 0, y: fx(-1.1) }));
}
