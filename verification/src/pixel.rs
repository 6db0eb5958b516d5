//! The generic pixel-buffer drawing abstraction: any buffer exposing get/set
//! pixel and its dimensions gains rectangle, circle and callback fills, all
//! silently clipped to the buffer.

use vstd::prelude::*;

use crate::vec2::IVec2;

verus! {

/// The four primitives a buffer must provide to gain the drawing
/// operations. Coordinates are signed so that shapes may extend past any
/// edge of the buffer before clipping.
pub trait PixelBuffer<TColor: Copy>: Sized {
    /// Invariant that every buffer operation preserves.
    spec fn inv(&self) -> bool;

    /// The buffer width, in pixels.
    spec fn width_spec(&self) -> int;

    /// The buffer height, in pixels.
    spec fn height_spec(&self) -> int;

    /// The color of the pixel at `(x, y)`.
    spec fn pixel(&self, x: int, y: int) -> TColor;

    fn width(&self) -> (w: i32)
        requires
            self.inv(),
        ensures
            w == self.width_spec(),
    ;

    fn height(&self) -> (h: i32)
        requires
            self.inv(),
        ensures
            h == self.height_spec(),
    ;

    fn get_pixel(&self, x: i32, y: i32) -> (c: TColor)
        requires
            self.inv(),
            0 <= x < self.width_spec(),
            0 <= y < self.height_spec(),
        ensures
            c == self.pixel(x as int, y as int),
    ;

    fn set_pixel(&mut self, x: i32, y: i32, color: TColor)
        requires
            old(self).inv(),
            0 <= x < old(self).width_spec(),
            0 <= y < old(self).height_spec(),
        ensures
            final(self).inv(),
            final(self).width_spec() == old(self).width_spec(),
            final(self).height_spec() == old(self).height_spec(),
            final(self).pixel(x as int, y as int) == color,
            forall|i: int, j: int|
                0 <= i < old(self).width_spec() && 0 <= j < old(self).height_spec() && !(i == x
                    && j == y) ==> #[trigger] final(self).pixel(i, j) == old(self).pixel(i, j),
    ;
}

/// True when `(x, y)` lies in the axis-aligned rectangle from `pos`
/// (inclusive) to `pos + size` (exclusive), before any clipping.
pub open spec fn in_rect(pos: IVec2, size: IVec2, x: int, y: int) -> bool {
    pos.x <= x < pos.x + size.x && pos.y <= y < pos.y + size.y
}

/// Fills the rectangle from `pos` to `pos + size` with `color`, clamped so
/// the fill never writes outside the buffer.
pub fn draw_rect<TColor: Copy, B: PixelBuffer<TColor>>(
    buffer: &mut B,
    pos: IVec2,
    size: IVec2,
    color: TColor,
)
    requires
        old(buffer).inv(),
    ensures
        final(buffer).inv(),
        final(buffer).width_spec() == old(buffer).width_spec(),
        final(buffer).height_spec() == old(buffer).height_spec(),
        forall|i: int, j: int|
            0 <= i < old(buffer).width_spec() && 0 <= j < old(buffer).height_spec()
                ==> #[trigger] final(buffer).pixel(i, j) == (if in_rect(pos, size, i, j) {
                color
            } else {
                old(buffer).pixel(i, j)
            }),
{
    let w = buffer.width();
    let h = buffer.height();

    let x0: i32 = if pos.x < 0 { 0 } else { pos.x };
    let y0: i32 = if pos.y < 0 { 0 } else { pos.y };

    let x1: i64 = pos.x as i64 + size.x as i64;
    let y1: i64 = pos.y as i64 + size.y as i64;
    let x_end: i32 = if x1 >= w as i64 { w } else if x1 <= 0 { 0 } else { x1 as i32 };
    let y_end: i32 = if y1 >= h as i64 { h } else if y1 <= 0 { 0 } else { y1 as i32 };

    if x0 >= x_end || y0 >= y_end {
        return;
    }

    let mut y: i32 = y0;
    while y < y_end
        invariant
            buffer.inv(),
            buffer.width_spec() == w as int,
            buffer.height_spec() == h as int,
            0 <= x0 < x_end <= w,
            0 <= y0 <= y <= y_end <= h,
            forall|i: int, j: int|
                0 <= i < w && 0 <= j < h ==> #[trigger] buffer.pixel(i, j) == (if x0 <= i < x_end
                    && y0 <= j < y {
                    color
                } else {
                    old(buffer).pixel(i, j)
                }),
        decreases y_end - y,
    {
        let mut x: i32 = x0;
        while x < x_end
            invariant
                buffer.inv(),
                buffer.width_spec() == w as int,
                buffer.height_spec() == h as int,
                0 <= x0 <= x <= x_end <= w,
                0 <= y0 <= y < y_end <= h,
                forall|i: int, j: int|
                    0 <= i < w && 0 <= j < h ==> #[trigger] buffer.pixel(i, j) == (if (x0 <= i
                        < x_end && y0 <= j < y) || (j == y && x0 <= i < x) {
                        color
                    } else {
                        old(buffer).pixel(i, j)
                    }),
            decreases x_end - x,
        {
            buffer.set_pixel(x, y, color);
            x += 1;
        }
        y += 1;
    }

    proof {
        assert forall|i: int, j: int| 0 <= i < w && 0 <= j < h implies #[trigger] buffer.pixel(i, j)
            == (if in_rect(pos, size, i, j) {
            color
        } else {
            old(buffer).pixel(i, j)
        }) by {
            assert(in_rect(pos, size, i, j) <==> (x0 <= i < x_end && y0 <= j < y_end));
        }
    }
}

/// True when the center of pixel `(x, y)` lies strictly closer than
/// `radius` to the point `(center.x - 0.5, center.y - 0.5)`: the center is
/// pulled back by half a pixel on each axis so the disc aligns to pixel
/// centers. Both sides of the comparison are scaled by 4 to keep the
/// arithmetic in integers, and a non-positive radius fills nothing.
pub open spec fn in_circle(center: IVec2, radius: i32, x: int, y: int) -> bool {
    let dx = 2 * (x - center.x) + 1;
    let dy = 2 * (y - center.y) + 1;
    radius >= 1 && dx * dx + dy * dy < 4 * radius * radius
}

/// The square of a number bounded in magnitude is bounded by the square of
/// the bound.
proof fn lemma_square_bound(a: int, b: int)
    requires
        -b <= a <= b,
    ensures
        0 <= a * a <= b * b,
{
    assert(0 <= a * a <= b * b) by (nonlinear_arith)
        requires
            -b <= a <= b,
    ;
}

/// Every pixel inside the circle lies in the square box of half-width
/// `radius` around the center.
proof fn lemma_circle_in_box(center: IVec2, radius: i32, x: int, y: int)
    requires
        in_circle(center, radius, x, y),
    ensures
        center.x - radius <= x < center.x + radius,
        center.y - radius <= y < center.y + radius,
{
    let dx = 2 * (x - center.x) + 1;
    let dy = 2 * (y - center.y) + 1;
    assert(dx * dx >= 0) by (nonlinear_arith);
    assert(dy * dy >= 0) by (nonlinear_arith);
    assert(-(2 * radius) < dx < 2 * radius) by (nonlinear_arith)
        requires
            dx * dx < 4 * radius * radius && radius >= 1,
    ;
    assert(-(2 * radius) < dy < 2 * radius) by (nonlinear_arith)
        requires
            dy * dy < 4 * radius * radius && radius >= 1,
    ;
}

/// Fills the disc of the given radius around `center` with `color`: exactly
/// the pixels whose squared center-to-pixel-center distance is strictly
/// less than the squared radius, clipped to the buffer.
pub fn draw_circle<TColor: Copy, B: PixelBuffer<TColor>>(
    buffer: &mut B,
    center: IVec2,
    radius: i32,
    color: TColor,
)
    requires
        old(buffer).inv(),
    ensures
        final(buffer).inv(),
        final(buffer).width_spec() == old(buffer).width_spec(),
        final(buffer).height_spec() == old(buffer).height_spec(),
        forall|i: int, j: int|
            0 <= i < old(buffer).width_spec() && 0 <= j < old(buffer).height_spec()
                ==> #[trigger] final(buffer).pixel(i, j) == (if in_circle(center, radius, i, j) {
                color
            } else {
                old(buffer).pixel(i, j)
            }),
{
    if radius < 1 {
        return;
    }

    let w = buffer.width();
    let h = buffer.height();

    let lo_x: i64 = center.x as i64 - radius as i64;
    let hi_x: i64 = center.x as i64 + radius as i64;
    let lo_y: i64 = center.y as i64 - radius as i64;
    let hi_y: i64 = center.y as i64 + radius as i64;

    let x0: i32 = if lo_x <= 0 { 0 } else if lo_x >= w as i64 { w } else { lo_x as i32 };
    let x_end: i32 = if hi_x <= 0 { 0 } else if hi_x >= w as i64 { w } else { hi_x as i32 };
    let y0: i32 = if lo_y <= 0 { 0 } else if lo_y >= h as i64 { h } else { lo_y as i32 };
    let y_end: i32 = if hi_y <= 0 { 0 } else if hi_y >= h as i64 { h } else { hi_y as i32 };

    proof {
        assert forall|i: int, j: int|
            0 <= i < w && 0 <= j < h && in_circle(center, radius, i, j) implies x0 <= i < x_end
            && y0 <= j < y_end by {
            lemma_circle_in_box(center, radius, i, j);
        }
    }

    if x0 >= x_end || y0 >= y_end {
        return;
    }

    let mut y: i32 = y0;
    while y < y_end
        invariant
            buffer.inv(),
            buffer.width_spec() == w as int,
            buffer.height_spec() == h as int,
            radius >= 1,
            0 <= x0 < x_end <= w,
            0 <= y0 <= y <= y_end <= h,
            forall|i: int, j: int|
                0 <= i < w && 0 <= j < h && in_circle(center, radius, i, j) ==> x0 <= i < x_end
                    && y0 <= j < y_end,
            forall|i: int, j: int|
                0 <= i < w && 0 <= j < h ==> #[trigger] buffer.pixel(i, j) == (if in_circle(
                    center,
                    radius,
                    i,
                    j,
                ) && y0 <= j < y {
                    color
                } else {
                    old(buffer).pixel(i, j)
                }),
        decreases y_end - y,
    {
        let mut x: i32 = x0;
        while x < x_end
            invariant
                buffer.inv(),
                buffer.width_spec() == w as int,
                buffer.height_spec() == h as int,
                radius >= 1,
                0 <= x0 <= x <= x_end <= w,
                0 <= y0 <= y < y_end <= h,
                forall|i: int, j: int|
                    0 <= i < w && 0 <= j < h && in_circle(center, radius, i, j) ==> x0 <= i < x_end
                        && y0 <= j < y_end,
                forall|i: int, j: int|
                    0 <= i < w && 0 <= j < h ==> #[trigger] buffer.pixel(i, j) == (if in_circle(
                        center,
                        radius,
                        i,
                        j,
                    ) && (y0 <= j < y || (j == y && i < x)) {
                        color
                    } else {
                        old(buffer).pixel(i, j)
                    }),
            decreases x_end - x,
        {
            let dx: i64 = 2 * (x as i64 - center.x as i64) + 1;
            let dy: i64 = 2 * (y as i64 - center.y as i64) + 1;
            proof {
                lemma_square_bound(dx as int, 0x8_0000_0000);
                lemma_square_bound(dy as int, 0x8_0000_0000);
                lemma_square_bound(radius as int, 0x8000_0000);
            }
            let dist4: i128 = (dx as i128) * (dx as i128) + (dy as i128) * (dy as i128);
            let rr: i128 = (radius as i128) * (radius as i128);
            let r4: i128 = 4 * rr;
            proof {
                assert(4 * rr == 4 * (radius as int) * (radius as int)) by (nonlinear_arith)
                    requires
                        rr == (radius as int) * (radius as int),
                ;
            }
            if dist4 < r4 {
                buffer.set_pixel(x, y, color);
            }
            x += 1;
        }
        y += 1;
    }
}

/// Fills the rectangle from `pos` to `pos + size`, clipped to the buffer,
/// computing each pixel's color by calling `color_fn` on its position.
pub fn draw_rect_with<TColor: Copy, B: PixelBuffer<TColor>, F: Fn(IVec2) -> TColor>(
    buffer: &mut B,
    pos: IVec2,
    size: IVec2,
    color_fn: F,
)
    requires
        old(buffer).inv(),
        forall|p: IVec2|
            #![trigger call_requires(color_fn, (p,))]
            0 <= p.x < old(buffer).width_spec() && 0 <= p.y < old(buffer).height_spec() && in_rect(
                pos,
                size,
                p.x as int,
                p.y as int,
            ) ==> call_requires(color_fn, (p,)),
    ensures
        final(buffer).inv(),
        final(buffer).width_spec() == old(buffer).width_spec(),
        final(buffer).height_spec() == old(buffer).height_spec(),
        forall|i: int, j: int|
            0 <= i < old(buffer).width_spec() && 0 <= j < old(buffer).height_spec() && !in_rect(
                pos,
                size,
                i,
                j,
            ) ==> #[trigger] final(buffer).pixel(i, j) == old(buffer).pixel(i, j),
        forall|i: int, j: int|
            0 <= i < old(buffer).width_spec() && 0 <= j < old(buffer).height_spec() && in_rect(
                pos,
                size,
                i,
                j,
            ) ==> call_ensures(
                color_fn,
                ((IVec2 { x: i as i32, y: j as i32 }),),
                #[trigger] final(buffer).pixel(i, j),
            ),
{
    let w = buffer.width();
    let h = buffer.height();

    let x0: i32 = if pos.x < 0 { 0 } else { pos.x };
    let y0: i32 = if pos.y < 0 { 0 } else { pos.y };

    let x1: i64 = pos.x as i64 + size.x as i64;
    let y1: i64 = pos.y as i64 + size.y as i64;
    let x_end: i32 = if x1 >= w as i64 { w } else if x1 <= 0 { 0 } else { x1 as i32 };
    let y_end: i32 = if y1 >= h as i64 { h } else if y1 <= 0 { 0 } else { y1 as i32 };

    proof {
        assert(forall|i: int, j: int|
            0 <= i < w && 0 <= j < h ==> (in_rect(pos, size, i, j) <==> (x0 <= i < x_end && y0 <= j
                < y_end)));
    }

    if x0 >= x_end || y0 >= y_end {
        return;
    }

    let mut y: i32 = y0;
    while y < y_end
        invariant
            buffer.inv(),
            buffer.width_spec() == w as int,
            buffer.height_spec() == h as int,
            0 <= x0 < x_end <= w,
            0 <= y0 <= y <= y_end <= h,
            forall|i: int, j: int|
                0 <= i < w && 0 <= j < h ==> (in_rect(pos, size, i, j) <==> (x0 <= i < x_end && y0
                    <= j < y_end)),
            forall|p: IVec2|
                #![trigger call_requires(color_fn, (p,))]
                0 <= p.x < w && 0 <= p.y < h && in_rect(pos, size, p.x as int, p.y as int)
                    ==> call_requires(color_fn, (p,)),
            forall|i: int, j: int|
                0 <= i < w && 0 <= j < h && !(x0 <= i < x_end && y0 <= j < y)
                    ==> #[trigger] buffer.pixel(i, j) == old(buffer).pixel(i, j),
            forall|i: int, j: int|
                0 <= i < w && 0 <= j < h && x0 <= i < x_end && y0 <= j < y ==> call_ensures(
                    color_fn,
                    ((IVec2 { x: i as i32, y: j as i32 }),),
                    #[trigger] buffer.pixel(i, j),
                ),
        decreases y_end - y,
    {
        let mut x: i32 = x0;
        while x < x_end
            invariant
                buffer.inv(),
                buffer.width_spec() == w as int,
                buffer.height_spec() == h as int,
                0 <= x0 <= x <= x_end <= w,
                0 <= y0 <= y < y_end <= h,
                forall|i: int, j: int|
                    0 <= i < w && 0 <= j < h ==> (in_rect(pos, size, i, j) <==> (x0 <= i < x_end
                        && y0 <= j < y_end)),
                forall|p: IVec2|
                    #![trigger call_requires(color_fn, (p,))]
                    0 <= p.x < w && 0 <= p.y < h && in_rect(pos, size, p.x as int, p.y as int)
                        ==> call_requires(color_fn, (p,)),
                forall|i: int, j: int|
                    0 <= i < w && 0 <= j < h && !((x0 <= i < x_end && y0 <= j < y) || (j == y && x0
                        <= i < x)) ==> #[trigger] buffer.pixel(i, j) == old(buffer).pixel(i, j),
                forall|i: int, j: int|
                    0 <= i < w && 0 <= j < h && ((x0 <= i < x_end && y0 <= j < y) || (j == y && x0
                        <= i < x)) ==> call_ensures(
                        color_fn,
                        ((IVec2 { x: i as i32, y: j as i32 }),),
                        #[trigger] buffer.pixel(i, j),
                    ),
            decreases x_end - x,
        {
            let p = IVec2::new(x, y);
            let c = color_fn(p);
            buffer.set_pixel(x, y, c);
            x += 1;
        }
        y += 1;
    }
}

/// Fills the rectangle from `pos` to `pos + size`, clipped to the buffer,
/// rewriting each pixel to `mutator` applied to its position and its
/// current color.
pub fn modify_rect_with<TColor: Copy, B: PixelBuffer<TColor>, F: Fn(IVec2, TColor) -> TColor>(
    buffer: &mut B,
    pos: IVec2,
    size: IVec2,
    mutator: F,
)
    requires
        old(buffer).inv(),
        forall|p: IVec2, c: TColor|
            #![trigger call_requires(mutator, (p, c))]
            0 <= p.x < old(buffer).width_spec() && 0 <= p.y < old(buffer).height_spec() && in_rect(
                pos,
                size,
                p.x as int,
                p.y as int,
            ) ==> call_requires(mutator, (p, c)),
    ensures
        final(buffer).inv(),
        final(buffer).width_spec() == old(buffer).width_spec(),
        final(buffer).height_spec() == old(buffer).height_spec(),
        forall|i: int, j: int|
            0 <= i < old(buffer).width_spec() && 0 <= j < old(buffer).height_spec() && !in_rect(
                pos,
                size,
                i,
                j,
            ) ==> #[trigger] final(buffer).pixel(i, j) == old(buffer).pixel(i, j),
        forall|i: int, j: int|
            0 <= i < old(buffer).width_spec() && 0 <= j < old(buffer).height_spec() && in_rect(
                pos,
                size,
                i,
                j,
            ) ==> call_ensures(
                mutator,
                ((IVec2 { x: i as i32, y: j as i32 }), old(buffer).pixel(i, j)),
                #[trigger] final(buffer).pixel(i, j),
            ),
{
    let w = buffer.width();
    let h = buffer.height();

    let x0: i32 = if pos.x < 0 { 0 } else { pos.x };
    let y0: i32 = if pos.y < 0 { 0 } else { pos.y };

    let x1: i64 = pos.x as i64 + size.x as i64;
    let y1: i64 = pos.y as i64 + size.y as i64;
    let x_end: i32 = if x1 >= w as i64 { w } else if x1 <= 0 { 0 } else { x1 as i32 };
    let y_end: i32 = if y1 >= h as i64 { h } else if y1 <= 0 { 0 } else { y1 as i32 };

    proof {
        assert(forall|i: int, j: int|
            0 <= i < w && 0 <= j < h ==> (in_rect(pos, size, i, j) <==> (x0 <= i < x_end && y0 <= j
                < y_end)));
    }

    if x0 >= x_end || y0 >= y_end {
        return;
    }

    let mut y: i32 = y0;
    while y < y_end
        invariant
            buffer.inv(),
            buffer.width_spec() == w as int,
            buffer.height_spec() == h as int,
            0 <= x0 < x_end <= w,
            0 <= y0 <= y <= y_end <= h,
            forall|i: int, j: int|
                0 <= i < w && 0 <= j < h ==> (in_rect(pos, size, i, j) <==> (x0 <= i < x_end && y0
                    <= j < y_end)),
            forall|p: IVec2, c: TColor|
                #![trigger call_requires(mutator, (p, c))]
                0 <= p.x < w && 0 <= p.y < h && in_rect(pos, size, p.x as int, p.y as int)
                    ==> call_requires(mutator, (p, c)),
            forall|i: int, j: int|
                0 <= i < w && 0 <= j < h && !(x0 <= i < x_end && y0 <= j < y)
                    ==> #[trigger] buffer.pixel(i, j) == old(buffer).pixel(i, j),
            forall|i: int, j: int|
                0 <= i < w && 0 <= j < h && x0 <= i < x_end && y0 <= j < y ==> call_ensures(
                    mutator,
                    ((IVec2 { x: i as i32, y: j as i32 }), old(buffer).pixel(i, j)),
                    #[trigger] buffer.pixel(i, j),
                ),
        decreases y_end - y,
    {
        let mut x: i32 = x0;
        while x < x_end
            invariant
                buffer.inv(),
                buffer.width_spec() == w as int,
                buffer.height_spec() == h as int,
                0 <= x0 <= x <= x_end <= w,
                0 <= y0 <= y < y_end <= h,
                forall|i: int, j: int|
                    0 <= i < w && 0 <= j < h ==> (in_rect(pos, size, i, j) <==> (x0 <= i < x_end
                        && y0 <= j < y_end)),
                forall|p: IVec2, c: TColor|
                    #![trigger call_requires(mutator, (p, c))]
                    0 <= p.x < w && 0 <= p.y < h && in_rect(pos, size, p.x as int, p.y as int)
                        ==> call_requires(mutator, (p, c)),
                forall|i: int, j: int|
                    0 <= i < w && 0 <= j < h && !((x0 <= i < x_end && y0 <= j < y) || (j == y && x0
                        <= i < x)) ==> #[trigger] buffer.pixel(i, j) == old(buffer).pixel(i, j),
                forall|i: int, j: int|
                    0 <= i < w && 0 <= j < h && ((x0 <= i < x_end && y0 <= j < y) || (j == y && x0
                        <= i < x)) ==> call_ensures(
                        mutator,
                        ((IVec2 { x: i as i32, y: j as i32 }), old(buffer).pixel(i, j)),
                        #[trigger] buffer.pixel(i, j),
                    ),
            decreases x_end - x,
        {
            let p = IVec2::new(x, y);
            let current = buffer.get_pixel(x, y);
            let c = mutator(p, current);
            buffer.set_pixel(x, y, c);
            x += 1;
        }
        y += 1;
    }
}

/// Sets every pixel of the buffer to `color`.
pub fn clear<TColor: Copy, B: PixelBuffer<TColor>>(buffer: &mut B, color: TColor)
    requires
        old(buffer).inv(),
    ensures
        final(buffer).inv(),
        final(buffer).width_spec() == old(buffer).width_spec(),
        final(buffer).height_spec() == old(buffer).height_spec(),
        forall|i: int, j: int|
            0 <= i < old(buffer).width_spec() && 0 <= j < old(buffer).height_spec()
                ==> #[trigger] final(buffer).pixel(i, j) == color,
{
    let w = buffer.width();
    let h = buffer.height();
    draw_rect(buffer, IVec2::new(0, 0), IVec2::new(w, h), color);
}

} // verus!
