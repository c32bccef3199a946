//! The per-frame render step: cast one ray per screen column through the
//! current sector's walls and composite the projected strips, or draw the
//! top-down map view.
//!
//! The trigonometry that derives the view angle's sine and cosine and the
//! per-column ray table lives with the presentation layer; it hands the
//! renderer fixed-point values, and everything from the view transform on
//! is exact integer arithmetic.

use vstd::prelude::*;

use crate::framebuffer::{
    bresenham_of,
    clamp_spec,
    in_circle,
    line_apply,
    pix_off,
    pixel_blended,
    pixel_unchanged,
    strip_apply,
    Canvas,
};
use crate::geometry::{
    CricleDescriptor,
    LineDescriptor,
    Rgb,
    Vec2Fx,
    VerticalLineDescriptor,
    COORD_MAX,
    FP_ONE,
};
use crate::level::{LevelState, Sector};
use crate::raycast::{
    corrected_distance,
    depth_value,
    depth_value_spec,
    div_fp,
    hit_distance,
    hit_valid,
    intersection_distance,
    perceived_size,
    perceived_size_spec,
    shade_channel,
    shade_channel_spec,
    view_point,
    view_point_spec,
    ColumnRay,
    Frac,
    RENDER_DISTANCE,
};

verus! {

/// Radius, in pixels, of the player marker in the map view.
pub const PLAYER_RADIUS: i64 = 100;

/// Length, in world units, of the facing indicator in the map view.
pub const LOOK_LENGTH: i64 = 100;

impl Sector {
    /// Every point within the view transform's input bound.
    pub open spec fn tight(self) -> bool {
        forall|i: int| 0 <= i < self.points@.len() ==> (#[trigger] self.points@[i]).tight()
    }
}

impl LevelState {
    /// Every sector's points within the view transform's input bound.
    pub open spec fn tight(self) -> bool {
        forall|i: int| 0 <= i < self.sectors@.len() ==> (#[trigger] self.sectors@[i]).tight()
    }
}

/// The strip one wall contributes to one screen column, if any: the wall
/// is carried into view space, intersected with the column's ray from the
/// view-space origin, the hit's distance corrected by the ray angle's
/// cosine and cut off at the render distance, and the sector's height and
/// floor offset projected and clamped to the canvas.  A hit at corrected
/// distance zero contributes nothing.  A negative floor offset counts as
/// zero.
pub open spec fn project_spec(
    y: u32,
    wall: (Vec2Fx, Vec2Fx, Rgb),
    pos: Vec2Fx,
    view_cos: int,
    view_sin: int,
    ray: ColumnRay,
    height_fx: i64,
    base_fx: i64,
    canvas_h: u32,
) -> Option<VerticalLineDescriptor> {
    let s = view_point_spec(wall.0, pos, view_cos, view_sin);
    let e = view_point_spec(wall.1, pos, view_cos, view_sin);
    let origin = Vec2Fx { x: 0, y: 0 };
    if !hit_valid(origin, ray.dir, s, e) {
        None
    } else {
        let t = hit_distance(origin, ray.dir, s, e);
        let cd = Frac { num: (t.num * ray.cos_fx) as i64, den: (t.den * FP_ONE) as i64 };
        if cd.num > RENDER_DISTANCE * cd.den || cd.num == 0 {
            None
        } else {
            let base = if base_fx < 0 {
                0i64
            } else {
                base_fx
            };
            let ph = perceived_size_spec(height_fx as int, cd);
            let pbh = perceived_size_spec(base as int, cd);
            let half = canvas_h as int / 2;
            let top = clamp_spec(half - ph - pbh, canvas_h as int);
            let bottom = clamp_spec(half - pbh, canvas_h as int);
            Some(
                VerticalLineDescriptor {
                    y,
                    top_x: top as u32,
                    bottom_x: bottom as u32,
                    color: Rgb {
                        r: shade_channel_spec(wall.2.r, cd) as u8,
                        g: shade_channel_spec(wall.2.g, cd) as u8,
                        b: shade_channel_spec(wall.2.b, cd) as u8,
                    },
                    depth: depth_value_spec(cd) as u8,
                },
            )
        }
    }
}

/// Compute the strip one wall contributes to one screen column.
pub fn project_wall_column(
    y: u32,
    wall: (Vec2Fx, Vec2Fx, Rgb),
    pos: Vec2Fx,
    view_cos: i64,
    view_sin: i64,
    ray: ColumnRay,
    height_fx: i64,
    base_fx: i64,
    canvas_h: u32,
) -> (r: Option<VerticalLineDescriptor>)
    requires
        wall.0.tight(),
        wall.1.tight(),
        pos.tight(),
        -FP_ONE <= view_cos <= FP_ONE,
        -FP_ONE <= view_sin <= FP_ONE,
        ray.wf(),
        0 <= height_fx <= COORD_MAX,
        -COORD_MAX <= base_fx <= COORD_MAX,
        canvas_h <= crate::framebuffer::CANVAS_MAX,
    ensures
        r == project_spec(
            y,
            wall,
            pos,
            view_cos as int,
            view_sin as int,
            ray,
            height_fx,
            base_fx,
            canvas_h,
        ),
        r matches Some(l) ==> l.y == y && l.top_x <= l.bottom_x <= canvas_h,
{
    let s = view_point(wall.0, pos, view_cos, view_sin);
    let e = view_point(wall.1, pos, view_cos, view_sin);
    let origin = Vec2Fx { x: 0, y: 0 };
    let hit = intersection_distance(origin, ray.dir, s, e);
    match hit {
        None => None,
        Some(t) => {
            let cd = corrected_distance(t, ray.cos_fx);
            let cutoff: i64 = 2 * cd.den;
            proof {
                assert(cutoff == RENDER_DISTANCE * cd.den);
            }
            if cd.num > cutoff || cd.num == 0 {
                None
            } else {
                let base: i64 = if base_fx < 0 {
                    0i64
                } else {
                    base_fx
                };
                let ph = perceived_size(height_fx, cd);
                let pbh = perceived_size(base, cd);
                let half: i64 = (canvas_h / 2) as i64;
                let top = crate::framebuffer::clamp_coord(half - ph - pbh, canvas_h);
                let bottom = crate::framebuffer::clamp_coord(half - pbh, canvas_h);
                let color = Rgb {
                    r: shade_channel(wall.2.r, cd),
                    g: shade_channel(wall.2.g, cd),
                    b: shade_channel(wall.2.b, cd),
                };
                let depth = depth_value(cd);
                Some(VerticalLineDescriptor { y, top_x: top, bottom_x: bottom, color, depth })
            }
        },
    }
}

/// The first `n` walls' strips for column `y` composited in storage
/// order.
pub open spec fn column_apply(
    data: Seq<u8>,
    width: int,
    walls: Seq<(Vec2Fx, Vec2Fx, Rgb)>,
    n: int,
    y: u32,
    pos: Vec2Fx,
    view_cos: int,
    view_sin: int,
    ray: ColumnRay,
    height_fx: i64,
    base_fx: i64,
    canvas_h: u32,
) -> Seq<u8>
    decreases n,
{
    if n <= 0 {
        data
    } else {
        let prev = column_apply(
            data,
            width,
            walls,
            n - 1,
            y,
            pos,
            view_cos,
            view_sin,
            ray,
            height_fx,
            base_fx,
            canvas_h,
        );
        match project_spec(
            y,
            walls[n - 1],
            pos,
            view_cos,
            view_sin,
            ray,
            height_fx,
            base_fx,
            canvas_h,
        ) {
            Some(l) => strip_apply(prev, width, l),
            None => prev,
        }
    }
}

/// The first `n` screen columns rendered in order, each compositing all
/// walls in storage order.
pub open spec fn scene_apply(
    data: Seq<u8>,
    width: int,
    walls: Seq<(Vec2Fx, Vec2Fx, Rgb)>,
    rays: Seq<ColumnRay>,
    n: int,
    pos: Vec2Fx,
    view_cos: int,
    view_sin: int,
    height_fx: i64,
    base_fx: i64,
    canvas_h: u32,
) -> Seq<u8>
    decreases n,
{
    if n <= 0 {
        data
    } else {
        let prev = scene_apply(
            data,
            width,
            walls,
            rays,
            n - 1,
            pos,
            view_cos,
            view_sin,
            height_fx,
            base_fx,
            canvas_h,
        );
        column_apply(
            prev,
            width,
            walls,
            walls.len() as int,
            (n - 1) as u32,
            pos,
            view_cos,
            view_sin,
            rays[n - 1],
            height_fx,
            base_fx,
            canvas_h,
        )
    }
}

/// Render the current sector into the canvas: one ray per screen column,
/// each wall's hit composited as a vertical strip under the depth rule,
/// walls processed in storage order.
pub fn render_scene(
    canvas: &mut Canvas,
    sector: &Sector,
    pos: Vec2Fx,
    view_cos: i64,
    view_sin: i64,
    rays: &Vec<ColumnRay>,
)
    requires
        old(canvas).wf(),
        sector.wf(),
        sector.tight(),
        pos.tight(),
        -FP_ONE <= view_cos <= FP_ONE,
        -FP_ONE <= view_sin <= FP_ONE,
        rays@.len() == old(canvas).width,
        forall|i: int| 0 <= i < rays@.len() ==> (#[trigger] rays@[i]).wf(),
    ensures
        final(canvas).wf(),
        final(canvas).width == old(canvas).width,
        final(canvas).height == old(canvas).height,
        final(canvas).data@ == scene_apply(
            old(canvas).data@,
            old(canvas).width as int,
            sector.walls_spec(),
            rays@,
            old(canvas).width as int,
            pos,
            view_cos as int,
            view_sin as int,
            sector.height,
            sector.base_height,
            old(canvas).height,
        ),
{
    let width = canvas.width;
    let height = canvas.height;
    let walls = sector.walls();
    let height_fx = sector.height;
    let base_fx = sector.base_height;
    let nwalls = walls.len();
    for y in 0..width
        invariant
            canvas.wf(),
            canvas.width == width,
            canvas.height == height,
            walls@ == sector.walls_spec(),
            nwalls == walls@.len(),
            height_fx == sector.height,
            base_fx == sector.base_height,
            sector.wf(),
            sector.tight(),
            pos.tight(),
            -FP_ONE <= view_cos <= FP_ONE,
            -FP_ONE <= view_sin <= FP_ONE,
            rays@.len() == width,
            forall|i: int| 0 <= i < rays@.len() ==> (#[trigger] rays@[i]).wf(),
            canvas.data@ == scene_apply(
                old(canvas).data@,
                width as int,
                sector.walls_spec(),
                rays@,
                y as int,
                pos,
                view_cos as int,
                view_sin as int,
                height_fx,
                base_fx,
                height,
            ),
    {
        let ray = rays[y as usize];
        let ghost col_base = canvas.data@;
        for w in 0..nwalls
            invariant
                canvas.wf(),
                canvas.width == width,
                canvas.height == height,
                walls@ == sector.walls_spec(),
                nwalls == walls@.len(),
                height_fx == sector.height,
                base_fx == sector.base_height,
                sector.wf(),
                sector.tight(),
                pos.tight(),
                -FP_ONE <= view_cos <= FP_ONE,
                -FP_ONE <= view_sin <= FP_ONE,
                y < width,
                rays@.len() == width,
                ray == rays@[y as int],
                ray.wf(),
                canvas.data@ == column_apply(
                    col_base,
                    width as int,
                    sector.walls_spec(),
                    w as int,
                    y,
                    pos,
                    view_cos as int,
                    view_sin as int,
                    ray,
                    height_fx,
                    base_fx,
                    height,
                ),
        {
            let wall = walls[w as usize];
            proof {
                crate::level::lemma_walls_points_bounded(*sector, w as int);
                lemma_walls_points_tight(*sector, w as int);
            }
            let strip = project_wall_column(
                y,
                wall,
                pos,
                view_cos,
                view_sin,
                ray,
                height_fx,
                base_fx,
                height,
            );
            match strip {
                Some(l) => {
                    canvas.draw_vertical_line(&l);
                },
                None => {},
            }
        }
    }
}

/// A fixed-point world coordinate truncated (toward zero) to a pixel
/// coordinate, matching the integer cast the map view draws with.
pub fn fx_to_px(v: i64) -> (r: i64)
    requires
        -2 * COORD_MAX <= v <= 2 * COORD_MAX,
    ensures
        r == div_fp(v as int),
        -COORD_MAX <= r <= COORD_MAX,
{
    proof {
        assert(FP_ONE == 1024);
        if v >= 0 {
            vstd::arithmetic::div_mod::lemma_div_is_ordered(v as int, 2 * COORD_MAX, 1024);
            vstd::arithmetic::div_mod::lemma_div_pos_is_pos(v as int, 1024);
        } else {
            vstd::arithmetic::div_mod::lemma_div_is_ordered((-v) as int, 2 * COORD_MAX, 1024);
            vstd::arithmetic::div_mod::lemma_div_pos_is_pos((-v) as int, 1024);
        }
        assert((2 * COORD_MAX) / 1024 == 2048);
    }
    if v >= 0 {
        (((v as u64) / (FP_ONE as u64)) as i64)
    } else {
        -((((-v) as u64) / (FP_ONE as u64)) as i64)
    }
}

/// A wall segment's endpoints as pixel coordinates.
pub open spec fn wall_px(w: (Vec2Fx, Vec2Fx, Rgb)) -> ((int, int), (int, int)) {
    (
        (div_fp(w.0.x as int), div_fp(w.0.y as int)),
        (div_fp(w.1.x as int), div_fp(w.1.y as int)),
    )
}

/// The first `n` walls of one sector drawn as white map lines.
pub open spec fn map_sector_apply(
    data: Seq<u8>,
    width: int,
    height: int,
    walls: Seq<(Vec2Fx, Vec2Fx, Rgb)>,
    n: int,
) -> Seq<u8>
    decreases n,
{
    if n <= 0 {
        data
    } else {
        let prev = map_sector_apply(data, width, height, walls, n - 1);
        let seg = wall_px(walls[n - 1]);
        line_apply(
            prev,
            width,
            height,
            bresenham_of(seg.0, seg.1),
            Rgb { r: 255, g: 255, b: 255 },
        )
    }
}

/// The first `n` sectors' walls drawn as white map lines, in storage
/// order.
pub open spec fn map_level_apply(
    data: Seq<u8>,
    width: int,
    height: int,
    sectors: Seq<Sector>,
    n: int,
) -> Seq<u8>
    decreases n,
{
    if n <= 0 {
        data
    } else {
        let prev = map_level_apply(data, width, height, sectors, n - 1);
        map_sector_apply(
            prev,
            width,
            height,
            sectors[n - 1].walls_spec(),
            sectors[n - 1].walls_spec().len() as int,
        )
    }
}

/// The map view's line work: every sector's walls in white, then the
/// facing indicator in red from the player's position along the view
/// direction.
pub open spec fn map_apply(
    data: Seq<u8>,
    width: int,
    height: int,
    sectors: Seq<Sector>,
    pos: Vec2Fx,
    look: Vec2Fx,
) -> Seq<u8> {
    let after_walls = map_level_apply(data, width, height, sectors, sectors.len() as int);
    let p0 = (div_fp(pos.x as int), div_fp(pos.y as int));
    let p1 = (
        div_fp(pos.x + LOOK_LENGTH * look.x),
        div_fp(pos.y + LOOK_LENGTH * look.y),
    );
    line_apply(after_walls, width, height, bresenham_of(p0, p1), Rgb { r: 255, g: 0, b: 0 })
}

/// The pixel position of the player marker in the map view.
pub open spec fn player_px(pos: Vec2Fx) -> Vec2Fx {
    Vec2Fx { x: div_fp(pos.x as int) as i64, y: div_fp(pos.y as int) as i64 }
}

/// Draw the top-down map view: every sector's walls as white lines, the
/// facing indicator as a red line, and the player as a half-transparent
/// circle of radius [`PLAYER_RADIUS`] around the player's pixel position.
pub fn draw_map(canvas: &mut Canvas, level: &LevelState, pos: Vec2Fx, look: Vec2Fx)
    requires
        old(canvas).wf(),
        level.wf(),
        pos.tight(),
        -FP_ONE <= look.x <= FP_ONE,
        -FP_ONE <= look.y <= FP_ONE,
    ensures
        final(canvas).wf(),
        final(canvas).width == old(canvas).width,
        final(canvas).height == old(canvas).height,
        final(canvas).data@.len() == old(canvas).data@.len(),
        forall|px: int, py: int|
            0 <= px < old(canvas).width && 0 <= py < old(canvas).height && in_circle(
                player_px(pos),
                PLAYER_RADIUS as int,
                px,
                py,
            ) ==> pixel_blended(
                map_apply(
                    old(canvas).data@,
                    old(canvas).width as int,
                    old(canvas).height as int,
                    level.sectors@,
                    pos,
                    look,
                ),
                final(canvas).data@,
                #[trigger] pix_off(old(canvas).width as int, px, py),
                128,
            ),
        forall|px: int, py: int|
            0 <= px < old(canvas).width && 0 <= py < old(canvas).height && !in_circle(
                player_px(pos),
                PLAYER_RADIUS as int,
                px,
                py,
            ) ==> pixel_unchanged(
                map_apply(
                    old(canvas).data@,
                    old(canvas).width as int,
                    old(canvas).height as int,
                    level.sectors@,
                    pos,
                    look,
                ),
                final(canvas).data@,
                #[trigger] pix_off(old(canvas).width as int, px, py),
            ),
{
    let width = canvas.width;
    let height = canvas.height;
    let nsectors = level.sectors.len();
    for i in 0..nsectors
        invariant
            canvas.wf(),
            canvas.width == width,
            canvas.height == height,
            canvas.data@.len() == old(canvas).data@.len(),
            level.wf(),
            nsectors == level.sectors@.len(),
            canvas.data@ == map_level_apply(
                old(canvas).data@,
                width as int,
                height as int,
                level.sectors@,
                i as int,
            ),
    {
        let sector = &level.sectors[i];
        let walls = sector.walls();
        let nwalls = walls.len();
        let ghost sector_base = canvas.data@;
        for j in 0..nwalls
            invariant
                canvas.wf(),
                canvas.width == width,
                canvas.height == height,
                canvas.data@.len() == old(canvas).data@.len(),
                level.wf(),
                i < level.sectors@.len(),
                sector == &level.sectors@[i as int],
                walls@ == level.sectors@[i as int].walls_spec(),
                nwalls == walls@.len(),
                canvas.data@ == map_sector_apply(
                    sector_base,
                    width as int,
                    height as int,
                    walls@,
                    j as int,
                ),
        {
            let wall = walls[j as usize];
            proof {
                crate::level::lemma_walls_points_bounded(level.sectors@[i as int], j as int);
            }
            let start = Vec2Fx { x: fx_to_px(wall.0.x), y: fx_to_px(wall.0.y) };
            let end = Vec2Fx { x: fx_to_px(wall.1.x), y: fx_to_px(wall.1.y) };
            canvas.draw_line(
                &LineDescriptor { start, end, color: Rgb { r: 255, g: 255, b: 255 } },
            );
        }
    }
    let look_at = Vec2Fx { x: pos.x + LOOK_LENGTH * look.x, y: pos.y + LOOK_LENGTH * look.y };
    let p0 = Vec2Fx { x: fx_to_px(pos.x), y: fx_to_px(pos.y) };
    let p1 = Vec2Fx { x: fx_to_px(look_at.x), y: fx_to_px(look_at.y) };
    canvas.draw_line(&LineDescriptor { start: p0, end: p1, color: Rgb { r: 255, g: 0, b: 0 } });
    proof {
        assert(canvas.data@ == map_apply(
            old(canvas).data@,
            width as int,
            height as int,
            level.sectors@,
            pos,
            look,
        ));
        assert(p0 == player_px(pos));
    }
    canvas.draw_circle(
        &CricleDescriptor {
            centre: p0,
            radius: PLAYER_RADIUS,
            color: Rgb { r: 255, g: 255, b: 255 },
        },
    );
}

/// One frame: clear the canvas to black, then render either the top-down
/// map view or the 3D scene of the sector the player stands in.  With no
/// sector containing the player, the 3D view draws nothing for the frame;
/// that is not an error.
pub fn render_frame(
    canvas: &mut Canvas,
    level: &LevelState,
    pos: Vec2Fx,
    view_cos: i64,
    view_sin: i64,
    look: Vec2Fx,
    rays: &Vec<ColumnRay>,
    render_map: bool,
)
    requires
        old(canvas).wf(),
        level.wf(),
        level.tight(),
        pos.tight(),
        -FP_ONE <= view_cos <= FP_ONE,
        -FP_ONE <= view_sin <= FP_ONE,
        -FP_ONE <= look.x <= FP_ONE,
        -FP_ONE <= look.y <= FP_ONE,
        rays@.len() == old(canvas).width,
        forall|i: int| 0 <= i < rays@.len() ==> (#[trigger] rays@[i]).wf(),
    ensures
        final(canvas).wf(),
        final(canvas).width == old(canvas).width,
        final(canvas).height == old(canvas).height,
        final(canvas).data@.len() == old(canvas).data@.len(),
        !render_map && (forall|i: int|
            0 <= i < level.sectors@.len() ==> !(#[trigger] level.sectors@[i]).contains_spec(pos))
            ==> final(canvas).data@ =~= Seq::new(old(canvas).data@.len(), |i: int| 0u8),
        !render_map ==> ((exists|i: int| level.found_index(pos, i)) ==> exists|i: int|
            #[trigger] level.found_index(pos, i) && final(canvas).data@ == scene_apply(
                Seq::new(old(canvas).data@.len(), |j: int| 0u8),
                old(canvas).width as int,
                level.sectors@[i].walls_spec(),
                rays@,
                old(canvas).width as int,
                pos,
                view_cos as int,
                view_sin as int,
                level.sectors@[i].height,
                level.sectors@[i].base_height,
                old(canvas).height,
            )),
        render_map ==> forall|px: int, py: int|
            0 <= px < old(canvas).width && 0 <= py < old(canvas).height && in_circle(
                player_px(pos),
                PLAYER_RADIUS as int,
                px,
                py,
            ) ==> pixel_blended(
                map_apply(
                    Seq::new(old(canvas).data@.len(), |j: int| 0u8),
                    old(canvas).width as int,
                    old(canvas).height as int,
                    level.sectors@,
                    pos,
                    look,
                ),
                final(canvas).data@,
                #[trigger] pix_off(old(canvas).width as int, px, py),
                128,
            ),
        render_map ==> forall|px: int, py: int|
            0 <= px < old(canvas).width && 0 <= py < old(canvas).height && !in_circle(
                player_px(pos),
                PLAYER_RADIUS as int,
                px,
                py,
            ) ==> pixel_unchanged(
                map_apply(
                    Seq::new(old(canvas).data@.len(), |j: int| 0u8),
                    old(canvas).width as int,
                    old(canvas).height as int,
                    level.sectors@,
                    pos,
                    look,
                ),
                final(canvas).data@,
                #[trigger] pix_off(old(canvas).width as int, px, py),
            ),
{
    canvas.clear();
    if render_map {
        draw_map(canvas, level, pos, look);
    } else {
        let current = level.find_current_sector(pos);
        match current {
            Some(sector) => {
                render_scene(canvas, sector, pos, view_cos, view_sin, rays);
            },
            None => {},
        }
    }
}

/// Every wall endpoint of a well-formed, tight sector is tight.
proof fn lemma_walls_points_tight(s: Sector, i: int)
    requires
        s.wf(),
        s.tight(),
        0 <= i < s.walls_spec().len(),
    ensures
        s.walls_spec()[i].0.tight(),
        s.walls_spec()[i].1.tight(),
{
    lemma_walls_of_endpoints_tight(s.points@, s.lines@, i);
}

/// Each wall of `walls_of` takes both endpoints from `points`, so the
/// endpoints inherit the points' tighter bound as well.
proof fn lemma_walls_of_endpoints_tight(
    points: Seq<Vec2Fx>,
    lines: Seq<crate::level::Line>,
    i: int,
)
    requires
        forall|j: int|
            0 <= j < lines.len() ==> (#[trigger] lines[j]).point_1_id < points.len()
                && lines[j].point_2_id < points.len(),
        forall|j: int| 0 <= j < points.len() ==> (#[trigger] points[j]).tight(),
        0 <= i < crate::level::walls_of(points, lines).len(),
    ensures
        crate::level::walls_of(points, lines)[i].0.tight(),
        crate::level::walls_of(points, lines)[i].1.tight(),
    decreases lines.len(),
{
    if lines.len() == 0 {
    } else {
        let rest = crate::level::walls_of(points, lines.drop_last());
        if i < rest.len() {
            assert(forall|j: int|
                0 <= j < lines.drop_last().len() ==> #[trigger] lines.drop_last()[j] == lines[j]);
            lemma_walls_of_endpoints_tight(points, lines.drop_last(), i);
        } else {
            assert(lines.last() == lines[lines.len() - 1]);
        }
    }
}

} // verus!
