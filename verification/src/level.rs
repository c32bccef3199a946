//! The level model: an ordered list of sectors, each a convex polygon whose
//! edges are solid walls (with a colour) or portals to another sector.
//!
//! A sector owns its points; its lines reference them by index, local to
//! the sector.  The renderable wall list is derived on demand from points
//! and lines, keeping solid walls only.  Containment is the standard
//! half-plane test for a consistently wound convex polygon, judged against
//! the solid edges only: a boundary that is partly portals has containment
//! approximated by its solid edges, which is a documented limitation, not
//! an error.

use vstd::prelude::*;

use crate::geometry::{lemma_mul_bound, Rgb, Vec2Fx, COORD_MAX, FP_HALF, FP_ONE};

verus! {

pub type SectorId = usize;

/// One sector edge: a solid wall with a colour, or a portal referencing
/// the sector seen through it.  Portals are neither drawn nor traversed.
#[derive(Clone, Copy, PartialEq, Eq, Structural, Debug)]
pub enum Wall {
    Solid(Rgb),
    Portal(SectorId),
}

/// A line between two of the owning sector's points, by index.
#[derive(Clone, Copy, PartialEq, Eq, Structural, Debug)]
pub struct Line {
    pub wall_type: Wall,
    pub point_1_id: usize,
    pub point_2_id: usize,
}

/// A collection of lines that create a convex shape; some lines are walls,
/// others portals.  The points, taken in the order the lines connect them,
/// must wind consistently (counter-clockwise), or containment is silently
/// wrong.  Heights are fixed-point world units: `base_height` the floor
/// offset, `height` floor-to-ceiling.
pub struct Sector {
    pub points: Vec<Vec2Fx>,
    pub lines: Vec<Line>,
    pub base_height: i64,
    pub height: i64,
}

/// The z component of the 2D cross product of `start - end` and
/// `pos - end`: negative exactly when `pos` lies outside the half-plane of
/// the directed edge.  The sign equals the sign the test would give on the
/// normalized vectors.
pub open spec fn side_of_wall(start: Vec2Fx, end: Vec2Fx, pos: Vec2Fx) -> int {
    (start.x - end.x) * (pos.y - end.y) - (start.y - end.y) * (pos.x - end.x)
}

/// The renderable walls derived from `points` and `lines`: solid lines
/// only, each as (start point, end point, colour), in line order.
pub open spec fn walls_of(points: Seq<Vec2Fx>, lines: Seq<Line>) -> Seq<(Vec2Fx, Vec2Fx, Rgb)>
    decreases lines.len(),
{
    if lines.len() == 0 {
        Seq::empty()
    } else {
        let rest = walls_of(points, lines.drop_last());
        match lines.last().wall_type {
            Wall::Solid(c) => rest.push(
                (points[lines.last().point_1_id as int], points[lines.last().point_2_id as int], c),
            ),
            Wall::Portal(_) => rest,
        }
    }
}

impl Sector {
    /// Build a sector, validating every line's point reference and every
    /// coordinate bound up front: an out-of-range index is a load-time
    /// construction error here, never a draw-time indexing failure.
    pub fn new(points: Vec<Vec2Fx>, lines: Vec<Line>, base_height: i64, height: i64) -> (r: Option<
        Sector,
    >)
        ensures
            r matches Some(s) ==> s == (Sector { points, lines, base_height, height }) && s.wf(),
            r is Some <==> (Sector { points, lines, base_height, height }).wf(),
    {
        if !(0 <= height && height <= COORD_MAX) {
            return None;
        }
        if !(-COORD_MAX <= base_height && base_height <= COORD_MAX) {
            return None;
        }
        let npoints = points.len();
        for i in 0..npoints
            invariant
                npoints == points@.len(),
                forall|j: int| 0 <= j < i ==> (#[trigger] points@[j]).bounded(),
        {
            let p = points[i];
            if p.x < -COORD_MAX || p.x > COORD_MAX || p.y < -COORD_MAX || p.y > COORD_MAX {
                proof {
                    assert(!(Sector { points, lines, base_height, height }).points@[i as int].bounded());
                }
                return None;
            }
        }
        let nlines = lines.len();
        for i in 0..nlines
            invariant
                npoints == points@.len(),
                nlines == lines@.len(),
                forall|j: int|
                    0 <= j < i ==> (#[trigger] lines@[j]).point_1_id < points@.len()
                        && lines@[j].point_2_id < points@.len(),
        {
            let line = lines[i];
            if line.point_1_id >= npoints || line.point_2_id >= npoints {
                return None;
            }
        }
        Some(Sector { points, lines, base_height, height })
    }

    /// Every line's point indices are in range, every point and both
    /// heights are within the coordinate bound.
    pub open spec fn wf(self) -> bool {
        &&& forall|i: int|
            0 <= i < self.lines@.len() ==> (#[trigger] self.lines@[i]).point_1_id
                < self.points@.len() && self.lines@[i].point_2_id < self.points@.len()
        &&& forall|i: int| 0 <= i < self.points@.len() ==> (#[trigger] self.points@[i]).bounded()
        &&& 0 <= self.height <= COORD_MAX
        &&& -COORD_MAX <= self.base_height <= COORD_MAX
    }

    pub open spec fn walls_spec(self) -> Seq<(Vec2Fx, Vec2Fx, Rgb)> {
        walls_of(self.points@, self.lines@)
    }

    /// A point is contained when it is on or inside the half-plane of
    /// every solid wall.
    pub open spec fn contains_spec(self, pos: Vec2Fx) -> bool {
        forall|i: int|
            0 <= i < self.walls_spec().len() ==> side_of_wall(
                (#[trigger] self.walls_spec()[i]).0,
                self.walls_spec()[i].1,
                pos,
            ) >= 0
    }

    /// The solid walls, in line order, as (start, end, colour).
    pub fn walls(&self) -> (r: Vec<(Vec2Fx, Vec2Fx, Rgb)>)
        requires
            self.wf(),
        ensures
            r@ == self.walls_spec(),
    {
        let mut r: Vec<(Vec2Fx, Vec2Fx, Rgb)> = Vec::new();
        let n = self.lines.len();
        for i in 0..n
            invariant
                n == self.lines@.len(),
                self.wf(),
                r@ == walls_of(self.points@, self.lines@.take(i as int)),
        {
            let line = self.lines[i];
            match line.wall_type {
                Wall::Solid(c) => {
                    r.push((self.points[line.point_1_id], self.points[line.point_2_id], c));
                },
                Wall::Portal(_) => {},
            }
            proof {
                assert(self.lines@.take(i + 1).drop_last() =~= self.lines@.take(i as int));
                assert(self.lines@.take(i + 1).last() == self.lines@[i as int]);
            }
        }
        proof {
            assert(self.lines@.take(n as int) =~= self.lines@);
        }
        r
    }

    pub fn height(&self) -> (r: i64)
        ensures
            r == self.height,
    {
        self.height
    }

    pub fn base_height(&self) -> (r: i64)
        ensures
            r == self.base_height,
    {
        self.base_height
    }

    /// The half-plane containment test over the solid walls.
    pub fn contains(&self, pos: Vec2Fx) -> (r: bool)
        requires
            self.wf(),
            pos.bounded(),
        ensures
            r == self.contains_spec(pos),
    {
        let ws = self.walls();
        let n = ws.len();
        for i in 0..n
            invariant
                n == ws@.len(),
                ws@ == self.walls_spec(),
                self.wf(),
                pos.bounded(),
                forall|j: int|
                    0 <= j < i ==> side_of_wall(
                        (#[trigger] ws@[j]).0,
                        ws@[j].1,
                        pos,
                    ) >= 0,
        {
            let (start, end, _c) = ws[i];
            proof {
                lemma_walls_points_bounded(*self, i as int);
            }
            let ax: i128 = start.x as i128 - end.x as i128;
            let ay: i128 = start.y as i128 - end.y as i128;
            let bx: i128 = pos.x as i128 - end.x as i128;
            let by: i128 = pos.y as i128 - end.y as i128;
            proof {
                lemma_mul_bound(ax as int, by as int, 2 * COORD_MAX, 2 * COORD_MAX);
                lemma_mul_bound(ay as int, bx as int, 2 * COORD_MAX, 2 * COORD_MAX);
            }
            let s: i128 = ax * by - ay * bx;
            if s < 0 {
                return false;
            }
        }
        true
    }
}

/// Every wall endpoint of a well-formed sector is a sector point, hence
/// within the coordinate bound.
pub proof fn lemma_walls_points_bounded(s: Sector, i: int)
    requires
        s.wf(),
        0 <= i < s.walls_spec().len(),
    ensures
        s.walls_spec()[i].0.bounded(),
        s.walls_spec()[i].1.bounded(),
{
    lemma_walls_of_endpoints(s.points@, s.lines@, i);
}

/// Each wall of `walls_of` takes both endpoints from `points`, so the
/// endpoints inherit the points' coordinate bound.
proof fn lemma_walls_of_endpoints(points: Seq<Vec2Fx>, lines: Seq<Line>, i: int)
    requires
        forall|j: int|
            0 <= j < lines.len() ==> (#[trigger] lines[j]).point_1_id < points.len()
                && lines[j].point_2_id < points.len(),
        forall|j: int| 0 <= j < points.len() ==> (#[trigger] points[j]).bounded(),
        0 <= i < walls_of(points, lines).len(),
    ensures
        walls_of(points, lines)[i].0.bounded(),
        walls_of(points, lines)[i].1.bounded(),
    decreases lines.len(),
{
    if lines.len() == 0 {
    } else {
        let rest = walls_of(points, lines.drop_last());
        if i < rest.len() {
            assert(forall|j: int|
                0 <= j < lines.drop_last().len() ==> #[trigger] lines.drop_last()[j] == lines[j]);
            lemma_walls_of_endpoints(points, lines.drop_last(), i);
        } else {
            assert(lines.last() == lines[lines.len() - 1]);
        }
    }
}

/// For all convex, consistently wound sectors: a point strictly inside
/// every solid wall's half-plane is accepted by containment, and a point
/// strictly outside any single wall's half-plane is rejected.
pub proof fn lemma_containment_half_planes(s: Sector, pos: Vec2Fx)
    ensures
        (forall|i: int|
            0 <= i < s.walls_spec().len() ==> side_of_wall(
                (#[trigger] s.walls_spec()[i]).0,
                s.walls_spec()[i].1,
                pos,
            ) > 0) ==> s.contains_spec(pos),
        (exists|i: int|
            0 <= i < s.walls_spec().len() && side_of_wall(
                (#[trigger] s.walls_spec()[i]).0,
                s.walls_spec()[i].1,
                pos,
            ) < 0) ==> !s.contains_spec(pos),
{
}

/// An ordered collection of sectors, indexed by position; built once at
/// level-load time and read-only thereafter.
pub struct LevelState {
    pub sectors: Vec<Sector>,
}

impl Default for LevelState {
    /// A level with no sectors.
    fn default() -> (r: Self)
        ensures
            r.sectors@.len() == 0,
    {
        LevelState { sectors: Vec::new() }
    }
}

impl LevelState {
    /// The point list of the demo sector:
    /// `(-1,-1), (-1,0.5), (-0.5,1), (1,1), (1,-1)` in fixed-point units,
    /// wound counter-clockwise.
    pub open spec fn demo_points() -> Seq<Vec2Fx> {
        let neg_one = (-FP_ONE) as i64;
        let neg_half = (-FP_HALF) as i64;
        seq![
            Vec2Fx { x: neg_one, y: neg_one },
            Vec2Fx { x: neg_one, y: FP_HALF },
            Vec2Fx { x: neg_half, y: FP_ONE },
            Vec2Fx { x: FP_ONE, y: FP_ONE },
            Vec2Fx { x: FP_ONE, y: neg_one },
        ]
    }

    /// The line list of the demo sector: five solid walls connecting the
    /// points in order, each with its own colour.
    pub open spec fn demo_lines() -> Seq<Line> {
        seq![
            Line { wall_type: Wall::Solid(Rgb { r: 255, g: 0, b: 0 }), point_1_id: 0, point_2_id: 1 },
            Line { wall_type: Wall::Solid(Rgb { r: 255, g: 255, b: 0 }), point_1_id: 1, point_2_id: 2 },
            Line { wall_type: Wall::Solid(Rgb { r: 0, g: 255, b: 255 }), point_1_id: 2, point_2_id: 3 },
            Line { wall_type: Wall::Solid(Rgb { r: 255, g: 0, b: 255 }), point_1_id: 3, point_2_id: 4 },
            Line { wall_type: Wall::Solid(Rgb { r: 0, g: 0, b: 255 }), point_1_id: 4, point_2_id: 0 },
        ]
    }

    /// A level with a single five-sided solid sector, floor at `0`,
    /// ceiling at `2.5` world units.
    pub fn demo() -> (r: Self)
        ensures
            r.wf(),
            r.sectors@.len() == 1,
            r.sectors@[0].points@ =~= LevelState::demo_points(),
            r.sectors@[0].lines@ =~= LevelState::demo_lines(),
            r.sectors@[0].base_height == 0,
            r.sectors@[0].height == 2 * FP_ONE + FP_HALF,
    {
        let neg_one: i64 = -FP_ONE;
        let neg_half: i64 = -FP_HALF;
        let points: Vec<Vec2Fx> = vec![
            Vec2Fx { x: neg_one, y: neg_one },
            Vec2Fx { x: neg_one, y: FP_ONE / 2 },
            Vec2Fx { x: neg_half, y: FP_ONE },
            Vec2Fx { x: FP_ONE, y: FP_ONE },
            Vec2Fx { x: FP_ONE, y: neg_one },
        ];
        let lines: Vec<Line> = vec![
            Line { wall_type: Wall::Solid(Rgb { r: 255, g: 0, b: 0 }), point_1_id: 0, point_2_id: 1 },
            Line { wall_type: Wall::Solid(Rgb { r: 255, g: 255, b: 0 }), point_1_id: 1, point_2_id: 2 },
            Line { wall_type: Wall::Solid(Rgb { r: 0, g: 255, b: 255 }), point_1_id: 2, point_2_id: 3 },
            Line { wall_type: Wall::Solid(Rgb { r: 255, g: 0, b: 255 }), point_1_id: 3, point_2_id: 4 },
            Line { wall_type: Wall::Solid(Rgb { r: 0, g: 0, b: 255 }), point_1_id: 4, point_2_id: 0 },
        ];
        LevelState {
            sectors: vec![
                Sector { points, lines, base_height: 0, height: 2 * FP_ONE + FP_HALF },
            ],
        }
    }

    /// Every sector is well-formed.
    pub open spec fn wf(self) -> bool {
        forall|i: int| 0 <= i < self.sectors@.len() ==> (#[trigger] self.sectors@[i]).wf()
    }

    /// `i` is the first sector (in storage order) containing `pos`.
    pub open spec fn found_index(self, pos: Vec2Fx, i: int) -> bool {
        &&& 0 <= i < self.sectors@.len()
        &&& self.sectors@[i].contains_spec(pos)
        &&& forall|j: int| 0 <= j < i ==> !(#[trigger] self.sectors@[j]).contains_spec(pos)
    }

    pub fn sectors(&self) -> (r: &Vec<Sector>)
        ensures
            r@ == self.sectors@,
    {
        &self.sectors
    }

    /// The first sector (in storage order) whose containment test accepts
    /// `pos`, or none if no sector contains the point.  Overlapping
    /// sectors are not a supported case; the first match wins.
    pub fn find_current_sector(&self, pos: Vec2Fx) -> (r: Option<&Sector>)
        requires
            self.wf(),
            pos.bounded(),
        ensures
            match r {
                Some(s) => exists|i: int| self.found_index(pos, i) && *s == self.sectors@[i],
                None => forall|i: int|
                    0 <= i < self.sectors@.len() ==> !(#[trigger] self.sectors@[i]).contains_spec(
                        pos,
                    ),
            },
    {
        let n = self.sectors.len();
        for i in 0..n
            invariant
                n == self.sectors@.len(),
                self.wf(),
                pos.bounded(),
                forall|j: int| 0 <= j < i ==> !(#[trigger] self.sectors@[j]).contains_spec(pos),
        {
            if self.sectors[i].contains(pos) {
                proof {
                    assert(self.found_index(pos, i as int));
                }
                return Some(&self.sectors[i]);
            }
        }
        None
    }
}

} // verus!
