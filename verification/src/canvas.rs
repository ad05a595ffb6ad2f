//! The pixel buffer: a flat, row-major sequence of packed colours, and the
//! primitives that paint into it.

use vstd::prelude::*;

verus! {

/// Column of the pixel stored at index `i` of a buffer `width` pixels wide.
pub open spec fn col_of(i: int, width: int) -> int {
    i % width
}

/// Row of the pixel stored at index `i` of a buffer `width` pixels wide.
pub open spec fn row_of(i: int, width: int) -> int {
    i / width
}

/// `after` is `before` with `color` written to every pixel of the first
/// `height` rows that `covered` selects by column and row, and nothing else
/// changed.
pub open spec fn painted(
    before: Seq<u32>,
    after: Seq<u32>,
    width: int,
    height: int,
    covered: spec_fn(int, int) -> bool,
    color: u32,
) -> bool {
    &&& after.len() == before.len()
    &&& forall|i: int|
        0 <= i < before.len() ==> #[trigger] after[i] == if width > 0 && row_of(i, width) < height
            && covered(col_of(i, width), row_of(i, width)) {
            color
        } else {
            before[i]
        }
}

/// The buffer that `painted` describes: `before` with `color` written to
/// every pixel of the first `height` rows that `covered` selects.
pub open spec fn paint(
    before: Seq<u32>,
    width: int,
    height: int,
    covered: spec_fn(int, int) -> bool,
    color: u32,
) -> Seq<u32> {
    Seq::new(
        before.len(),
        |i: int|
            if width > 0 && row_of(i, width) < height && covered(
                col_of(i, width),
                row_of(i, width),
            ) {
                color
            } else {
                before[i]
            },
    )
}

/// `painted` holds of exactly one buffer, which `paint` gives.
pub proof fn lemma_painted_is_paint(
    before: Seq<u32>,
    after: Seq<u32>,
    width: int,
    height: int,
    covered: spec_fn(int, int) -> bool,
    color: u32,
)
    ensures
        painted(before, after, width, height, covered, color) <==> after == paint(
            before,
            width,
            height,
            covered,
            color,
        ),
{
    let p = paint(before, width, height, covered, color);
    if painted(before, after, width, height, covered, color) {
        assert(after =~= p);
    }
    if after == p {
        assert(painted(before, after, width, height, covered, color));
    }
}

/// Index arithmetic of a row-major buffer: the pixel in column `px` of row
/// `py` lies at `py * width + px`, and at no other index.
pub proof fn lemma_pixel_index(px: int, py: int, width: int)
    requires
        0 <= px < width,
        0 <= py,
    ensures
        0 <= py * width + px,
        col_of(py * width + px, width) == px,
        row_of(py * width + px, width) == py,
        forall|i: int|
            0 <= i && i != py * width + px ==> !(col_of(i, width) == px && #[trigger] row_of(
                i,
                width,
            ) == py),
{
    assert(0 <= py * width) by (nonlinear_arith)
        requires
            0 <= py,
            0 < width,
    ;
    vstd::arithmetic::div_mod::lemma_fundamental_div_mod_converse(py * width + px, width, py, px);
    assert forall|i: int| 0 <= i && i != py * width + px implies !(col_of(i, width) == px
        && #[trigger] row_of(i, width) == py) by {
        vstd::arithmetic::div_mod::lemma_fundamental_div_mod(i, width);
        assert(width * (i / width) == (i / width) * width) by (nonlinear_arith);
    }
}

/// Writes `color` to the pixel in column `px` of row `py`, if that pixel lies
/// within the first `height` rows of the buffer; otherwise does nothing.
pub fn put_pixel(buffer: &mut [u32], width: usize, height: usize, px: i128, py: i128, color: u32)
    ensures
        painted(
            old(buffer)@,
            final(buffer)@,
            width as int,
            height as int,
            |x: int, y: int| x == px && y == py,
            color,
        ),
{
    let ghost before = buffer@;
    if px >= 0 && py >= 0 && px < width as i128 && py < height as i128 {
        proof {
            lemma_pixel_index(px as int, py as int, width as int);
            assert(py * width <= (height - 1) * width) by (nonlinear_arith)
                requires
                    0 <= py <= height - 1,
                    0 < width,
            ;
            assert((height - 1) * width <= 0xFFFF_FFFF_FFFF_FFFF * 0xFFFF_FFFF_FFFF_FFFF)
                by (nonlinear_arith)
                requires
                    0 <= height - 1 <= 0xFFFF_FFFF_FFFF_FFFF,
                    0 < width <= 0xFFFF_FFFF_FFFF_FFFF,
            ;
        }
        let index: u128 = (py as u128) * (width as u128) + (px as u128);
        if index < buffer.len() as u128 {
            buffer[index as usize] = color;
        }
    }
    proof {
        assert forall|i: int| 0 <= i < before.len() implies #[trigger] buffer@[i] == if width > 0
            && row_of(i, width as int) < height && col_of(i, width as int) == px && row_of(
            i,
            width as int,
        ) == py {
            color
        } else {
            before[i]
        } by {
            if width > 0 && 0 <= px < width && 0 <= py {
                lemma_pixel_index(px as int, py as int, width as int);
            }
            if width > 0 {
                vstd::arithmetic::div_mod::lemma_fundamental_div_mod(i, width as int);
                vstd::arithmetic::div_mod::lemma_mod_bound(i, width as int);
                vstd::arithmetic::div_mod::lemma_div_pos_is_pos(i, width as int);
            }
        }
    }
}

/// A buffer of `len` black pixels.
pub open spec fn blank(len: nat) -> Seq<u32> {
    Seq::new(len, |i: int| 0u32)
}

/// Sets every pixel to black.
pub fn clear(buffer: &mut [u32])
    ensures
        final(buffer)@ == blank(old(buffer)@.len()),
{
    let n: usize = buffer.len();
    let mut i: usize = 0;
    while i < n
        invariant
            i <= n,
            buffer@.len() == n,
            n == old(buffer)@.len(),
            forall|j: int| 0 <= j < i ==> buffer@[j] == 0,
        decreases n - i,
    {
        buffer[i] = 0;
        i += 1;
    }
    assert(buffer@ =~= blank(old(buffer)@.len()));
}

/// Whether column `px` of row `py` lies in the rectangle of columns
/// `[x0, x1)` and rows `[y0, y1)`.
pub open spec fn in_rect(px: int, py: int, x0: int, y0: int, x1: int, y1: int) -> bool {
    x0 <= px < x1 && y0 <= py < y1
}

/// The nearer of `v` and `limit`, and no less than zero.
fn clip(v: i128, limit: usize) -> (c: usize)
    ensures
        c == if v < 0 {
            0
        } else if v > limit {
            limit as int
        } else {
            v as int
        },
{
    if v < 0 {
        0
    } else if v > limit as i128 {
        limit
    } else {
        v as usize
    }
}

/// Fills the rectangle of columns `[x0, x1)` and rows `[y0, y1)` with
/// `color`, as far as it lies within the first `height` rows of the buffer.
pub fn fill_rect(
    buffer: &mut [u32],
    width: usize,
    height: usize,
    x0: i128,
    y0: i128,
    x1: i128,
    y1: i128,
    color: u32,
)
    ensures
        painted(
            old(buffer)@,
            final(buffer)@,
            width as int,
            height as int,
            |px: int, py: int| in_rect(px, py, x0 as int, y0 as int, x1 as int, y1 as int),
            color,
        ),
{
    let ghost before = buffer@;
    let left: usize = clip(x0, width);
    let right: usize = clip(x1, width);
    let top: usize = clip(y0, height);
    let bottom: usize = clip(y1, height);
    let mut py: usize = top;
    while py < bottom
        invariant
            top <= py,
            top == if y0 < 0 { 0 } else if y0 > height { height as int } else { y0 as int },
            bottom == if y1 < 0 { 0 } else if y1 > height { height as int } else { y1 as int },
            left == if x0 < 0 { 0 } else if x0 > width { width as int } else { x0 as int },
            right == if x1 < 0 { 0 } else if x1 > width { width as int } else { x1 as int },
            painted(
                before,
                buffer@,
                width as int,
                height as int,
                |cx: int, cy: int|
                    in_rect(cx, cy, x0 as int, y0 as int, x1 as int, y1 as int) && cy < py,
                color,
            ),
        decreases bottom - py,
    {
        let mut px: usize = left;
        while px < right
            invariant
                top <= py < bottom,
                left <= px,
                top == if y0 < 0 { 0 } else if y0 > height { height as int } else { y0 as int },
                bottom == if y1 < 0 { 0 } else if y1 > height { height as int } else { y1 as int },
                left == if x0 < 0 { 0 } else if x0 > width { width as int } else { x0 as int },
                right == if x1 < 0 { 0 } else if x1 > width { width as int } else { x1 as int },
                painted(
                    before,
                    buffer@,
                    width as int,
                    height as int,
                    |cx: int, cy: int|
                        in_rect(cx, cy, x0 as int, y0 as int, x1 as int, y1 as int) && (cy < py
                            || (cy == py && cx < px)),
                    color,
                ),
            decreases right - px,
        {
            let ghost prev = buffer@;
            put_pixel(buffer, width, height, px as i128, py as i128, color);
            proof {
                lemma_painted_rows(prev, width as int);
            }
            px += 1;
        }
        proof {
            lemma_painted_rows(buffer@, width as int);
        }
        py += 1;
    }
    proof {
        lemma_painted_rows(buffer@, width as int);
    }
}

/// Chebyshev distance of the offset `(dx, dy)` from the origin.
pub open spec fn chebyshev(dx: int, dy: int) -> int {
    let ax = if dx < 0 { -dx } else { dx };
    let ay = if dy < 0 { -dy } else { dy };
    if ax > ay { ax } else { ay }
}

/// Bound on the coordinates that the shapes below take, so that their
/// corners can be computed.
pub const COORD_LIMIT: i128 = 0x1_0000_0000_0000_0000_0000_0000_0000;

/// Draws the outline of a square: every pixel at Chebyshev distance
/// `radius` from column `cx` of row `cy`, as far as it lies on the screen.
pub fn draw_ring(
    buffer: &mut [u32],
    width: usize,
    height: usize,
    cx: i128,
    cy: i128,
    radius: u8,
    color: u32,
)
    requires
        -COORD_LIMIT <= cx <= COORD_LIMIT,
        -COORD_LIMIT <= cy <= COORD_LIMIT,
    ensures
        painted(
            old(buffer)@,
            final(buffer)@,
            width as int,
            height as int,
            |px: int, py: int| chebyshev(px - cx, py - cy) == radius,
            color,
        ),
{
    let r: i128 = radius as i128;
    fill_rect(buffer, width, height, cx - r, cy - r, cx + r + 1, cy - r + 1, color);
    fill_rect(buffer, width, height, cx - r, cy + r, cx + r + 1, cy + r + 1, color);
    fill_rect(buffer, width, height, cx - r, cy - r, cx - r + 1, cy + r + 1, color);
    fill_rect(buffer, width, height, cx + r, cy - r, cx + r + 1, cy + r + 1, color);
}

/// Draws a cross of five pixels: the pixel in column `cx` of row `cy` and
/// its four orthogonal neighbours, as far as they lie on the screen.
pub fn draw_cross(buffer: &mut [u32], width: usize, height: usize, cx: i128, cy: i128, color: u32)
    requires
        -COORD_LIMIT <= cx <= COORD_LIMIT,
        -COORD_LIMIT <= cy <= COORD_LIMIT,
    ensures
        painted(
            old(buffer)@,
            final(buffer)@,
            width as int,
            height as int,
            |px: int, py: int| chebyshev(px - cx, py - cy) <= 1 && (px == cx || py == cy),
            color,
        ),
{
    fill_rect(buffer, width, height, cx - 1, cy, cx + 2, cy + 1, color);
    fill_rect(buffer, width, height, cx, cy - 1, cx + 1, cy + 2, color);
}

/// Every index of a buffer has a column within the width and a row that is
/// not negative.
pub proof fn lemma_painted_rows(buf: Seq<u32>, width: int)
    ensures
        width > 0 ==> forall|i: int|
            0 <= i < buf.len() ==> 0 <= #[trigger] col_of(i, width) < width && 0 <= row_of(
                i,
                width,
            ),
{
    if width > 0 {
        assert forall|i: int| 0 <= i < buf.len() implies 0 <= #[trigger] col_of(i, width) < width
            && 0 <= row_of(i, width) by {
            vstd::arithmetic::div_mod::lemma_mod_bound(i, width);
            vstd::arithmetic::div_mod::lemma_div_pos_is_pos(i, width);
        }
    }
}

} // verus!
