//! The framebuffer compositor: a flat RGBA byte buffer and the rasterizers
//! that write into it.
//!
//! Pixels are stored row-major, four bytes each, in BGR order with a
//! fourth byte that doubles as colour alpha and as the depth key of the
//! vertical-strip compositor: a strip row is written only where the stored
//! depth byte is strictly smaller than the strip's, so "higher depth
//! wins".  The channel reuse between depth compositing and the 2D
//! line/circle draws is intentional and kept.

use vstd::prelude::*;

use crate::geometry::{
    lemma_mul_bound,
    CricleDescriptor,
    LineDescriptor,
    Rgb,
    Vec2Fx,
    VerticalLineDescriptor,
};

verus! {

/// Largest accepted canvas side, keeping every offset computation inside
/// the integer types used.
pub const CANVAS_MAX: u32 = 16384;

/// Byte offset of the pixel at column `x`, row `y`.
pub open spec fn pix_off(width: int, x: int, y: int) -> int {
    4 * (y * width + x)
}

/// The flat RGBA pixel buffer with its dimensions.
pub struct Canvas {
    pub data: Vec<u8>,
    pub width: u32,
    pub height: u32,
}

impl Canvas {
    /// Dimensions within bounds and the byte length consistent with them.
    pub open spec fn wf(self) -> bool {
        &&& self.width <= CANVAS_MAX
        &&& self.height <= CANVAS_MAX
        &&& self.data@.len() == 4 * self.width * self.height
    }

    /// A cleared canvas of the given size.
    pub fn new(width: u32, height: u32) -> (r: Canvas)
        requires
            width <= CANVAS_MAX,
            height <= CANVAS_MAX,
        ensures
            r.wf(),
            r.width == width,
            r.height == height,
            r.data@ =~= Seq::new((4 * width * height) as nat, |i: int| 0u8),
    {
        proof {
            lemma_mul_bound(
                4 * (width as int),
                height as int,
                4 * (CANVAS_MAX as int),
                CANVAS_MAX as int,
            );
        }
        let n: usize = 4 * (width as usize) * (height as usize);
        Canvas { data: zeros(n), width, height }
    }

    /// Clear every byte to the background colour (black, depth zero).
    pub fn clear(&mut self)
        requires
            old(self).wf(),
        ensures
            final(self).wf(),
            final(self).width == old(self).width,
            final(self).height == old(self).height,
            final(self).data@ =~= Seq::new(old(self).data@.len(), |i: int| 0u8),
    {
        proof {
            lemma_mul_bound(
                4 * (self.width as int),
                self.height as int,
                4 * (CANVAS_MAX as int),
                CANVAS_MAX as int,
            );
        }
        let n: usize = 4 * (self.width as usize) * (self.height as usize);
        self.data = zeros(n);
    }

    /// Adopt a new target size and clear, skipped entirely for a
    /// degenerate (zero) or out-of-bounds size.
    pub fn resize(&mut self, width: u32, height: u32)
        requires
            old(self).wf(),
        ensures
            final(self).wf(),
            0 < width <= CANVAS_MAX && 0 < height <= CANVAS_MAX ==> final(self).width == width
                && final(self).height == height && final(self).data@ =~= Seq::new(
                (4 * width * height) as nat,
                |i: int| 0u8,
            ),
            !(0 < width <= CANVAS_MAX && 0 < height <= CANVAS_MAX) ==> *final(self) == *old(self),
    {
        if 0 < width && width <= CANVAS_MAX && 0 < height && height <= CANVAS_MAX {
            *self = Canvas::new(width, height);
        }
    }
}

/// A zero-filled byte vector.
fn zeros(n: usize) -> (r: Vec<u8>)
    ensures
        r@ =~= Seq::new(n as nat, |i: int| 0u8),
{
    let mut data: Vec<u8> = Vec::new();
    while data.len() < n
        invariant
            data@.len() <= n,
            forall|j: int| 0 <= j < data@.len() ==> data@[j] == 0u8,
        decreases n - data@.len(),
    {
        data.push(0u8);
    }
    data
}

/// One row of a vertical strip composited onto `data`: the four bytes of
/// the pixel at (`line.y`, `row`) are written — blue, green, red, depth —
/// exactly when the row is in range and the stored depth byte is strictly
/// smaller than the strip's.
pub open spec fn strip_row(data: Seq<u8>, width: int, line: VerticalLineDescriptor, row: int) -> Seq<
    u8,
> {
    let o = pix_off(width, line.y as int, row);
    if 0 <= o && o + 3 < data.len() && data[o + 3] < line.depth {
        data.update(o, line.color.b).update(o + 1, line.color.g).update(o + 2, line.color.r).update(
            o + 3,
            line.depth,
        )
    } else {
        data
    }
}

/// The strip's rows from `line.top_x` up to (excluding) `upto`
/// composited in order.
pub open spec fn strip_rows(data: Seq<u8>, width: int, line: VerticalLineDescriptor, upto: int) -> Seq<
    u8,
>
    decreases upto,
{
    if upto <= line.top_x {
        data
    } else {
        strip_row(strip_rows(data, width, line, upto - 1), width, line, upto - 1)
    }
}

/// The whole strip composited onto `data`.
pub open spec fn strip_apply(data: Seq<u8>, width: int, line: VerticalLineDescriptor) -> Seq<u8> {
    strip_rows(data, width, line, line.bottom_x as int)
}

/// Compositing a strip never changes the byte length.
pub proof fn lemma_strip_rows_len(data: Seq<u8>, width: int, line: VerticalLineDescriptor, upto: int)
    ensures
        strip_rows(data, width, line, upto).len() == data.len(),
    decreases upto,
{
    if upto > line.top_x {
        lemma_strip_rows_len(data, width, line, upto - 1);
    }
}

/// After compositing rows up to `upto`, the depth byte of every already
/// composited row is at least the strip's depth: it was either written to
/// exactly the strip's depth, or it already held a value at least as
/// large.
proof fn lemma_strip_alpha_settled(
    data: Seq<u8>,
    width: int,
    line: VerticalLineDescriptor,
    upto: int,
    r: int,
)
    requires
        0 < width,
        line.y < width,
        0 <= line.top_x <= r < upto,
        pix_off(width, line.y as int, upto) + 3 < data.len(),
    ensures
        !(strip_rows(data, width, line, upto)[pix_off(width, line.y as int, r) + 3] < line.depth),
    decreases upto,
{
    lemma_strip_rows_len(data, width, line, upto - 1);
    let prev = strip_rows(data, width, line, upto - 1);
    let o_last = pix_off(width, line.y as int, upto - 1);
    let o_r = pix_off(width, line.y as int, r);
    assert(o_last + 3 < data.len()) by {
        assert(4 * ((upto - 1) * width + line.y) + 4 <= 4 * (upto * width + line.y)) by (nonlinear_arith)
            requires
                0 < width;
    }
    if r == upto - 1 {
    } else {
        assert(o_r + 3 < o_last) by {
            assert(4 * (r * width + line.y) + 3 < 4 * ((upto - 1) * width + line.y)) by (nonlinear_arith)
                requires
                    0 < width,
                    r < upto - 1;
        }
        lemma_strip_alpha_settled(data, width, line, upto - 1, r);
    }
}

/// Depth compositing is idempotent: compositing the same strip a second
/// time, with the identical depth, changes nothing, because the depth
/// compare is strict.  Stated for any prefix of the second pass.
proof fn lemma_strip_second_pass(
    data: Seq<u8>,
    width: int,
    line: VerticalLineDescriptor,
    upto: int,
)
    requires
        0 < width,
        line.y < width,
        0 <= line.top_x,
        upto <= line.bottom_x,
        pix_off(width, line.y as int, line.bottom_x as int) + 3 < data.len(),
    ensures
        strip_rows(strip_apply(data, width, line), width, line, upto) == strip_apply(
            data,
            width,
            line,
        ),
    decreases upto,
{
    let first = strip_apply(data, width, line);
    if upto <= line.top_x {
    } else {
        lemma_strip_second_pass(data, width, line, upto - 1);
        lemma_strip_rows_len(data, width, line, line.bottom_x as int);
        let o = pix_off(width, line.y as int, upto - 1);
        assert(pix_off(width, line.y as int, upto - 1) + 3 < data.len()) by {
            assert(4 * ((upto - 1) * width + line.y) <= 4 * (line.bottom_x * width + line.y))
                by (nonlinear_arith)
                requires
                    0 < width,
                    upto - 1 <= line.bottom_x;
        }
        lemma_strip_alpha_settled(data, width, line, line.bottom_x as int, upto - 1);
        assert(strip_row(first, width, line, upto - 1) == first);
    }
}

/// Drawing the same vertical strip twice with identical depth leaves the
/// buffer exactly as after the first draw: equal depth does not
/// overwrite.
pub proof fn lemma_strip_idempotent(data: Seq<u8>, width: int, line: VerticalLineDescriptor)
    requires
        0 < width,
        line.y < width,
        pix_off(width, line.y as int, line.bottom_x as int) + 3 < data.len(),
    ensures
        strip_apply(strip_apply(data, width, line), width, line) == strip_apply(data, width, line),
{
    lemma_strip_second_pass(data, width, line, line.bottom_x as int);
}

impl Canvas {
    /// Composite a vertical strip: rows `top_x..bottom_x` of column `y`,
    /// each written only where the stored depth byte is strictly smaller
    /// than the strip's.
    pub fn draw_vertical_line(&mut self, line: &VerticalLineDescriptor)
        requires
            old(self).wf(),
            line.y < old(self).width,
            line.bottom_x <= old(self).height,
        ensures
            final(self).wf(),
            final(self).width == old(self).width,
            final(self).height == old(self).height,
            final(self).data@ == strip_apply(old(self).data@, old(self).width as int, *line),
    {
        let width = self.width;
        if line.top_x >= line.bottom_x {
            proof {
                assert(strip_rows(self.data@, width as int, *line, line.bottom_x as int)
                    == self.data@);
            }
            return ;
        }
        let mut row = line.top_x;
        proof {
            assert(strip_rows(self.data@, width as int, *line, line.top_x as int) == self.data@);
        }
        while row < line.bottom_x
            invariant
                self.wf(),
                self.width == old(self).width,
                self.height == old(self).height,
                width == self.width,
                line.y < width,
                line.top_x <= row <= line.bottom_x,
                line.bottom_x <= self.height,
                self.data@ == strip_rows(old(self).data@, width as int, *line, row as int),
            decreases line.bottom_x - row,
        {
            proof {
                lemma_strip_rows_len(old(self).data@, width as int, *line, row as int);
                lemma_mul_bound(row as int, width as int, CANVAS_MAX as int, CANVAS_MAX as int);
                assert(4 * (row * width + line.y) + 3 < 4 * width * self.height) by (nonlinear_arith)
                    requires
                        0 <= row < self.height,
                        0 <= line.y < width;
            }
            let o: usize = 4 * ((row as usize) * (width as usize) + (line.y as usize));
            if self.data[o + 3] < line.depth {
                self.data[o] = line.color.b;
                self.data[o + 1] = line.color.g;
                self.data[o + 2] = line.color.r;
                self.data[o + 3] = line.depth;
            }
            proof {
                assert(self.data@ == strip_rows(
                    old(self).data@,
                    width as int,
                    *line,
                    row as int + 1,
                ));
            }
            row = row + 1;
        }
    }
}

/// The 4-byte ranges of two distinct pixels do not overlap.
proof fn lemma_pix_ranges_disjoint(width: int, x1: int, y1: int, x2: int, y2: int)
    requires
        0 <= x1 < width,
        0 <= x2 < width,
        0 <= y1,
        0 <= y2,
        !(x1 == x2 && y1 == y2),
    ensures
        pix_off(width, x1, y1) + 4 <= pix_off(width, x2, y2) || pix_off(width, x2, y2) + 4
            <= pix_off(width, x1, y1),
{
    assert(4 * (y1 * width + x1) + 4 <= 4 * (y2 * width + x2) || 4 * (y2 * width + x2) + 4 <= 4 * (
    y1 * width + x1)) by (nonlinear_arith)
        requires
            0 <= x1 < width,
            0 <= x2 < width,
            0 <= y1,
            0 <= y2,
            !(x1 == x2 && y1 == y2);
}

/// A pixel inside the canvas has its four bytes inside the buffer.
proof fn lemma_pix_off_in_bounds(width: int, height: int, x: int, y: int)
    requires
        0 <= x < width,
        0 <= y < height,
    ensures
        0 <= pix_off(width, x, y),
        pix_off(width, x, y) + 3 < 4 * width * height,
{
    assert(0 <= 4 * (y * width + x) && 4 * (y * width + x) + 3 < 4 * width * height)
        by (nonlinear_arith)
        requires
            0 <= x < width,
            0 <= y < height;
}

/// A pixel at distance strictly less than `radius` from `centre`
/// (`radius` positive).
pub open spec fn in_circle(centre: Vec2Fx, radius: int, x: int, y: int) -> bool {
    0 < radius && (x - centre.x) * (x - centre.x) + (y - centre.y) * (y - centre.y) < radius
        * radius
}

/// Saturating half-strength additive blend of one channel:
/// `min(255, cur + src / 2)`.
pub open spec fn blend_half(cur: u8, src: u8) -> u8 {
    if cur + src / 2 > 255 {
        255u8
    } else {
        (cur + src / 2) as u8
    }
}

/// Additive blend of one channel at half strength, saturating at white.
pub fn blend(current: u8, new: u8) -> (r: u8)
    ensures
        r == blend_half(current, new),
{
    let s: u16 = current as u16 + (new / 2) as u16;
    if s > 255 {
        255u8
    } else {
        s as u8
    }
}

/// The three colour bytes of one pixel blended at half strength with a
/// grey source; the depth byte kept.
pub open spec fn pixel_blended(data: Seq<u8>, new_data: Seq<u8>, o: int, src: u8) -> bool {
    &&& new_data[o] == blend_half(data[o], src)
    &&& new_data[o + 1] == blend_half(data[o + 1], src)
    &&& new_data[o + 2] == blend_half(data[o + 2], src)
    &&& new_data[o + 3] == data[o + 3]
}

/// All four bytes of one pixel equal between two buffers.
pub open spec fn pixel_unchanged(data: Seq<u8>, new_data: Seq<u8>, o: int) -> bool {
    &&& new_data[o] == data[o]
    &&& new_data[o + 1] == data[o + 1]
    &&& new_data[o + 2] == data[o + 2]
    &&& new_data[o + 3] == data[o + 3]
}

impl Canvas {
    /// Blend one pixel's colour bytes with a grey of the given strength at
    /// half opacity, leaving the depth byte alone.
    pub fn plot_with_opacity(&mut self, x: u32, y: u32, grey: u8)
        requires
            old(self).wf(),
            x < old(self).width,
            y < old(self).height,
        ensures
            final(self).wf(),
            final(self).width == old(self).width,
            final(self).height == old(self).height,
            final(self).data@.len() == old(self).data@.len(),
            pixel_blended(
                old(self).data@,
                final(self).data@,
                pix_off(old(self).width as int, x as int, y as int),
                grey,
            ),
            forall|j: int|
                0 <= j < old(self).data@.len() && !(pix_off(
                    old(self).width as int,
                    x as int,
                    y as int,
                ) <= j < pix_off(old(self).width as int, x as int, y as int) + 3)
                    ==> final(self).data@[j] == old(self).data@[j],
    {
        proof {
            lemma_pix_off_in_bounds(self.width as int, self.height as int, x as int, y as int);
            lemma_mul_bound(y as int, self.width as int, CANVAS_MAX as int, CANVAS_MAX as int);
        }
        let o: usize = 4 * ((y as usize) * (self.width as usize) + (x as usize));
        let b0 = blend(self.data[o], grey);
        let b1 = blend(self.data[o + 1], grey);
        let b2 = blend(self.data[o + 2], grey);
        self.data[o] = b0;
        self.data[o + 1] = b1;
        self.data[o + 2] = b2;
    }

    /// Rasterize a filled circle: every canvas pixel strictly closer to
    /// the centre than the radius is blended with 50% grey; every other
    /// pixel, and every depth byte, is untouched.
    pub fn draw_circle(&mut self, circle: &CricleDescriptor)
        requires
            old(self).wf(),
            circle.centre.bounded(),
            0 <= circle.radius <= crate::geometry::COORD_MAX,
        ensures
            final(self).wf(),
            final(self).width == old(self).width,
            final(self).height == old(self).height,
            final(self).data@.len() == old(self).data@.len(),
            forall|px: int, py: int|
                0 <= px < old(self).width && 0 <= py < old(self).height && in_circle(
                    circle.centre,
                    circle.radius as int,
                    px,
                    py,
                ) ==> pixel_blended(
                    old(self).data@,
                    final(self).data@,
                    #[trigger] pix_off(old(self).width as int, px, py),
                    128,
                ),
            forall|px: int, py: int|
                0 <= px < old(self).width && 0 <= py < old(self).height && !in_circle(
                    circle.centre,
                    circle.radius as int,
                    px,
                    py,
                ) ==> pixel_unchanged(
                    old(self).data@,
                    final(self).data@,
                    #[trigger] pix_off(old(self).width as int, px, py),
                ),
    {
        let width = self.width;
        let height = self.height;
        let cx = circle.centre.x;
        let cy = circle.centre.y;
        let rad = circle.radius;

        let y0: u32 = clamp_coord(cy - rad, height);
        let y1: u32 = clamp_coord(cy + rad, height);
        let x0: u32 = clamp_coord(cx - rad, width);
        let x1: u32 = clamp_coord(cx + rad, width);

        proof {
            assert forall|px: int, py: int|
                0 <= px < width && 0 <= py < height && in_circle(
                    circle.centre,
                    rad as int,
                    px,
                    py,
                ) implies y0 <= py by {
                assert(cy - py < rad) by (nonlinear_arith)
                    requires
                        0 < rad,
                        (px - cx) * (px - cx) + (py - cy) * (py - cy) < rad * rad;
            }
        }
        for y in y0..y1
            invariant
                self.wf(),
                self.width == width,
                self.height == height,
                self.data@.len() == old(self).data@.len(),
                circle.centre.x == cx,
                circle.centre.y == cy,
                circle.radius == rad,
                circle.centre.bounded(),
                0 <= rad <= crate::geometry::COORD_MAX,
                y0 <= y <= y1,
                y1 <= height,
                x0 <= x1 <= width,
                x0 == clamp_spec(cx - rad, width as int),
                x1 == clamp_spec(cx + rad, width as int),
                y0 == clamp_spec(cy - rad, height as int),
                y1 == clamp_spec(cy + rad, height as int),
                forall|px: int, py: int|
                    0 <= px < width && 0 <= py < height && in_circle(
                        circle.centre,
                        rad as int,
                        px,
                        py,
                    ) && py < y ==> pixel_blended(
                        old(self).data@,
                        self.data@,
                        #[trigger] pix_off(width as int, px, py),
                        128,
                    ),
                forall|px: int, py: int|
                    0 <= px < width && 0 <= py < height && (!in_circle(
                        circle.centre,
                        rad as int,
                        px,
                        py,
                    ) || py >= y) ==> pixel_unchanged(
                        old(self).data@,
                        self.data@,
                        #[trigger] pix_off(width as int, px, py),
                    ),
        {
            proof {
                assert forall|px: int|
                    0 <= px < width && in_circle(
                        circle.centre,
                        rad as int,
                        px,
                        y as int,
                    ) implies x0 <= px < x1 by {
                    assert(px - cx < rad && cx - px < rad) by (nonlinear_arith)
                        requires
                            0 < rad,
                            (px - cx) * (px - cx) + (y - cy) * (y - cy) < rad * rad;
                }
            }
            for x in x0..x1
                invariant
                    self.wf(),
                    self.width == width,
                    self.height == height,
                    self.data@.len() == old(self).data@.len(),
                    circle.centre.x == cx,
                    circle.centre.y == cy,
                    circle.radius == rad,
                    circle.centre.bounded(),
                    0 <= rad <= crate::geometry::COORD_MAX,
                    x0 <= x <= x1,
                    y0 <= y < y1,
                    y1 <= height,
                    x1 <= width,
                    x0 == clamp_spec(cx - rad, width as int),
                    x1 == clamp_spec(cx + rad, width as int),
                    forall|px: int, py: int|
                        0 <= px < width && 0 <= py < height && in_circle(
                            circle.centre,
                            rad as int,
                            px,
                            py,
                        ) && (py < y || (py == y && px < x)) ==> pixel_blended(
                            old(self).data@,
                            self.data@,
                            #[trigger] pix_off(width as int, px, py),
                            128,
                        ),
                    forall|px: int, py: int|
                        0 <= px < width && 0 <= py < height && (!in_circle(
                            circle.centre,
                            rad as int,
                            px,
                            py,
                        ) || py > y || (py == y && px >= x)) ==> pixel_unchanged(
                            old(self).data@,
                            self.data@,
                            #[trigger] pix_off(width as int, px, py),
                        ),
            {
                let dx: i64 = (x as i64) - cx;
                let dy: i64 = (y as i64) - cy;
                proof {
                    lemma_mul_bound(dx as int, dx as int, 3 * crate::geometry::COORD_MAX, 3
                        * crate::geometry::COORD_MAX);
                    lemma_mul_bound(dy as int, dy as int, 3 * crate::geometry::COORD_MAX, 3
                        * crate::geometry::COORD_MAX);
                    lemma_mul_bound(rad as int, rad as int, crate::geometry::COORD_MAX as int, crate::geometry::COORD_MAX as int);
                }
                let d2: i128 = (dx as i128) * (dx as i128) + (dy as i128) * (dy as i128);
                let r2: i128 = (rad as i128) * (rad as i128);
                let ghost prev = self.data@;
                if rad > 0 && d2 < r2 {
                    self.plot_with_opacity(x, y, 128);
                    proof {
                        assert forall|px: int, py: int|
                            0 <= px < width && 0 <= py < height && !(px == x as int && py
                                == y as int) implies pixel_unchanged(
                            prev,
                            self.data@,
                            #[trigger] pix_off(width as int, px, py),
                        ) by {
                            lemma_pix_ranges_disjoint(
                                width as int,
                                px,
                                py,
                                x as int,
                                y as int,
                            );
                            lemma_pix_off_in_bounds(width as int, height as int, px, py);
                            lemma_pix_off_in_bounds(
                                width as int,
                                height as int,
                                x as int,
                                y as int,
                            );
                        }
                        assert(pixel_unchanged(
                            old(self).data@,
                            prev,
                            pix_off(width as int, x as int, y as int),
                        ));
                        assert(pixel_blended(
                            old(self).data@,
                            self.data@,
                            pix_off(width as int, x as int, y as int),
                            128,
                        ));
                    }
                }
            }
        }
        proof {
            assert forall|px: int, py: int|
                0 <= px < width && 0 <= py < height && in_circle(
                    circle.centre,
                    rad as int,
                    px,
                    py,
                ) implies py < y1 by {
                assert(py - cy < rad && cy - py < rad && px - cx < rad && cx - px < rad)
                    by (nonlinear_arith)
                    requires
                        0 < rad,
                        (px - cx) * (px - cx) + (py - cy) * (py - cy) < rad * rad;
            }
        }
    }
}

/// A circle of radius zero draws no pixels: no point lies strictly
/// within distance zero of the centre.
pub proof fn lemma_circle_radius_zero(centre: Vec2Fx, x: int, y: int)
    ensures
        !in_circle(centre, 0, x, y),
{
}

/// What stepping the discrete line between two points visits: the pixels
/// of the Bresenham line from `start` (inclusive) to `end` (exclusive).
pub uninterp spec fn bresenham_of(start: (int, int), end: (int, int)) -> Seq<(int, int)>;

/// Relies on `bresenham::Bresenham::new` and its `Iterator` impl: the
/// iterator yields the points of the Bresenham line from `start` to
/// `end`, including `start` and excluding `end`, a function of the two
/// points alone.
#[verifier::external_body]
fn bresenham_points(start: (isize, isize), end: (isize, isize)) -> (r: Vec<(isize, isize)>)
    requires
        -1000000000 <= start.0 <= 1000000000,
        -1000000000 <= start.1 <= 1000000000,
        -1000000000 <= end.0 <= 1000000000,
        -1000000000 <= end.1 <= 1000000000,
    ensures
        r@.map_values(|p: (isize, isize)| (p.0 as int, p.1 as int)) == bresenham_of(
            (start.0 as int, start.1 as int),
            (end.0 as int, end.1 as int),
        ),
        r@.len() > 0 ==> r@[0] == start,
{
    bresenham::Bresenham::new(start, end).collect()
}

/// One pixel's colour bytes overwritten (BGR order), the depth byte kept;
/// out-of-buffer positions are left alone.
pub open spec fn plot_spec(data: Seq<u8>, width: int, x: int, y: int, c: Rgb) -> Seq<u8> {
    let o = pix_off(width, x, y);
    if 0 <= o && o + 3 < data.len() {
        data.update(o, c.b).update(o + 1, c.g).update(o + 2, c.r)
    } else {
        data
    }
}

/// The first `n` points of `pts` plotted in order, skipping any outside
/// the strict bounds `0 < x < width`, `0 < y < height` (the first row and
/// column are never drawn).
pub open spec fn line_pixels(
    data: Seq<u8>,
    width: int,
    height: int,
    pts: Seq<(int, int)>,
    c: Rgb,
    n: int,
) -> Seq<u8>
    decreases n,
{
    if n <= 0 {
        data
    } else {
        let prev = line_pixels(data, width, height, pts, c, n - 1);
        let p = pts[n - 1];
        if 0 < p.0 < width && 0 < p.1 < height {
            plot_spec(prev, width, p.0, p.1, c)
        } else {
            prev
        }
    }
}

/// All points of `pts` plotted in order.
pub open spec fn line_apply(
    data: Seq<u8>,
    width: int,
    height: int,
    pts: Seq<(int, int)>,
    c: Rgb,
) -> Seq<u8> {
    line_pixels(data, width, height, pts, c, pts.len() as int)
}

impl Canvas {
    /// Overwrite one pixel's colour (BGR order), leaving the depth byte.
    pub fn plot(&mut self, x: u32, y: u32, color: Rgb)
        requires
            old(self).wf(),
            x < old(self).width,
            y < old(self).height,
        ensures
            final(self).wf(),
            final(self).width == old(self).width,
            final(self).height == old(self).height,
            final(self).data@ == plot_spec(
                old(self).data@,
                old(self).width as int,
                x as int,
                y as int,
                color,
            ),
    {
        proof {
            lemma_pix_off_in_bounds(self.width as int, self.height as int, x as int, y as int);
            lemma_mul_bound(y as int, self.width as int, CANVAS_MAX as int, CANVAS_MAX as int);
        }
        let o: usize = 4 * ((y as usize) * (self.width as usize) + (x as usize));
        self.data[o] = color.b;
        self.data[o + 1] = color.g;
        self.data[o + 2] = color.r;
    }

    /// Rasterize a line segment by discrete Bresenham stepping between the
    /// two endpoints, with each visited pixel clipped to the strict bounds
    /// `0 < x < width`, `0 < y < height`.
    pub fn draw_line(&mut self, line: &LineDescriptor)
        requires
            old(self).wf(),
            -1000000000 <= line.start.x <= 1000000000,
            -1000000000 <= line.start.y <= 1000000000,
            -1000000000 <= line.end.x <= 1000000000,
            -1000000000 <= line.end.y <= 1000000000,
        ensures
            final(self).wf(),
            final(self).width == old(self).width,
            final(self).height == old(self).height,
            final(self).data@ == line_apply(
                old(self).data@,
                old(self).width as int,
                old(self).height as int,
                bresenham_of(
                    (line.start.x as int, line.start.y as int),
                    (line.end.x as int, line.end.y as int),
                ),
                line.color,
            ),
    {
        let width = self.width;
        let height = self.height;
        let color = line.color;
        let start = (line.start.x as isize, line.start.y as isize);
        let end = (line.end.x as isize, line.end.y as isize);
        let pts = bresenham_points(start, end);
        let ghost spts = bresenham_of(
            (line.start.x as int, line.start.y as int),
            (line.end.x as int, line.end.y as int),
        );
        let n = pts.len();
        for i in 0..n
            invariant
                self.wf(),
                self.width == width,
                self.height == height,
                n == pts@.len(),
                pts@.map_values(|p: (isize, isize)| (p.0 as int, p.1 as int)) == spts,
                self.data@ == line_pixels(
                    old(self).data@,
                    width as int,
                    height as int,
                    spts,
                    color,
                    i as int,
                ),
        {
            let (px, py) = pts[i];
            proof {
                assert(spts[i as int] == (pts@[i as int].0 as int, pts@[i as int].1 as int));
            }
            if 0 < px && px < width as isize && 0 < py && py < height as isize {
                self.plot(px as u32, py as u32, color);
            }
        }
        proof {
            assert(spts.len() == pts@.len());
        }
    }
}

/// The pixel index (not byte offset) of a position inside a canvas of the
/// given size, or nothing for a position outside it.  The bound check is
/// inclusive on the far edge, as the buffer write path guards again.
pub open spec fn pos_to_offset_spec(pos: Vec2Fx, width: int, height: int) -> Option<int> {
    if pos.x < 0 || pos.y < 0 || pos.x > width || pos.y > height {
        None
    } else {
        Some(pos.x + pos.y * width)
    }
}

/// Map a pixel position to its pixel index in a buffer of the given size.
pub fn pos_to_offset(pos: Vec2Fx, width: u32, height: u32) -> (r: Option<usize>)
    requires
        width <= CANVAS_MAX,
        height <= CANVAS_MAX,
        pos.bounded(),
    ensures
        r is Some <==> pos_to_offset_spec(pos, width as int, height as int) is Some,
        r matches Some(o) ==> Some(o as int) == pos_to_offset_spec(pos, width as int, height as int),
{
    if pos.x < 0 || pos.y < 0 || pos.x > width as i64 || pos.y > height as i64 {
        None
    } else {
        proof {
            lemma_mul_bound(pos.y as int, width as int, CANVAS_MAX as int, CANVAS_MAX as int);
        }
        Some((pos.x as usize) + (pos.y as usize) * (width as usize))
    }
}

/// A value clamped into `[0, limit]`.
pub open spec fn clamp_spec(v: int, limit: int) -> int {
    if v < 0 {
        0
    } else if v > limit {
        limit
    } else {
        v
    }
}

/// Clamp a pixel coordinate into `[0, limit]`.
pub fn clamp_coord(v: i64, limit: u32) -> (r: u32)
    requires
        limit <= CANVAS_MAX,
    ensures
        r == clamp_spec(v as int, limit as int),
{
    if v < 0 {
        0
    } else if v > limit as i64 {
        limit
    } else {
        v as u32
    }
}

} // verus!
