//! The stars: ambient background stars and the big stars that threaten the
//! ship. Coordinates and depths are whole numbers of millionths.

use crate::canvas::{chebyshev, draw_ring, fill_rect, painted};
use crate::utils::{project_axis, projected_num, spec_distance_squared, spec_project};
use vstd::prelude::*;

verus! {

/// Depth at or below which an ambient star is respawned.
pub const NEAR_CLIP: i32 = 10_000;

/// Depth at or below which a big star has come too close.
pub const TOO_CLOSE: i32 = 100_000;

/// Half the width of the square in which big stars spawn.
pub const BIG_STAR_EXTENT: i32 = 1_500_000;

/// Least depth at which a big star spawns.
pub const BIG_STAR_DEPTH: i32 = 2_500_000;

/// Least depth that a big star loses in one frame.
pub const BIG_STAR_SPEED_MIN: i32 = 2_000;

/// Bound below which the depth lost in one frame stays.
pub const BIG_STAR_SPEED_MAX: i32 = 6_000;

/// Colour of the targeting outline.
pub const RED: u32 = 0xFF0000;

/// An ambient star.
#[derive(Clone, Copy, Debug, PartialEq, Eq, Structural)]
pub struct Star {
    pub x: i32,
    pub y: i32,
    pub z: i32,
}

/// A threat.
#[derive(Clone, Copy, Debug, PartialEq, Eq, Structural)]
pub struct BigStar {
    pub x: i32,
    pub y: i32,
    pub z: i32,
    pub hit: bool,
    pub was_missed: bool,
}

/// `a - b`, held within the range of `i32`.
pub open spec fn spec_sub_clamped(a: int, b: int) -> int {
    if a - b < i32::MIN {
        i32::MIN as int
    } else if a - b > i32::MAX {
        i32::MAX as int
    } else {
        a - b
    }
}

/// `a - b`, held within the range of `i32`.
pub fn sub_clamped(a: i32, b: i32) -> (d: i32)
    ensures
        d == spec_sub_clamped(a as int, b as int),
{
    let wide: i64 = a as i64 - b as i64;
    if wide < i32::MIN as i64 {
        i32::MIN
    } else if wide > i32::MAX as i64 {
        i32::MAX
    } else {
        wide as i32
    }
}

impl BigStar {
    /// A fresh star at `(x, y)`, `depth` beyond the least spawn depth.
    pub open spec fn spec_spawn(x: i32, y: i32, depth: i32) -> BigStar {
        BigStar { x, y, z: (BIG_STAR_DEPTH + depth) as i32, hit: false, was_missed: false }
    }

    /// A fresh star at `(x, y)`, `depth` beyond the least spawn depth.
    pub fn spawn(x: i32, y: i32, depth: i32) -> (star: BigStar)
        requires
            0 <= depth < 1_000_000,
        ensures
            star == Self::spec_spawn(x, y, depth),
    {
        BigStar { x, y, z: BIG_STAR_DEPTH + depth, hit: false, was_missed: false }
    }

    /// Whether the star projects outside `[0, width] x [0, height]`. The
    /// projected column is `projected_num(x, z, width) / (2 z)`, so for a
    /// positive depth the test needs no division.
    pub open spec fn spec_is_off_screen(self, width: int, height: int) -> bool {
        let nx = projected_num(self.x as int, self.z as int, width);
        let ny = projected_num(self.y as int, self.z as int, height);
        nx < 0 || nx > width * (2 * self.z) || ny < 0 || ny > height * (2 * self.z)
    }

    /// Whether the star, which lies before the viewer, projects outside
    /// the screen.
    pub fn is_off_screen(&self, width: usize, height: usize) -> (off: bool)
        requires
            self.z > 0,
        ensures
            off == self.spec_is_off_screen(width as int, height as int),
    {
        let x: i64 = self.x as i64;
        let y: i64 = self.y as i64;
        let z: i64 = self.z as i64;
        proof {
            let w = width as int;
            let h = height as int;
            assert(w > 0 ==> ((w * (x + z) < 0) <==> (x + z < 0))) by (nonlinear_arith);
            assert(w > 0 ==> ((w * (x + z) > w * (2 * z)) <==> (x > z))) by (nonlinear_arith);
            assert(h > 0 ==> ((h * (y + z) < 0) <==> (y + z < 0))) by (nonlinear_arith);
            assert(h > 0 ==> ((h * (y + z) > h * (2 * z)) <==> (y > z))) by (nonlinear_arith);
            assert(w == 0 ==> w * (x + z) == 0 && w * (2 * z) == 0) by (nonlinear_arith);
            assert(h == 0 ==> h * (y + z) == 0 && h * (2 * z) == 0) by (nonlinear_arith);
        }
        (width > 0 && (x + z < 0 || x > z)) || (height > 0 && (y + z < 0 || y > z))
    }

    /// For a star before the viewer, on a screen that has both extents, being
    /// off the screen is a matter of the star alone: it is off exactly if
    /// `x` or `y` lies outside `[-z, z]`. A star on the axis of view is never
    /// off the screen.
    pub proof fn lemma_off_screen(self, width: int, height: int)
        requires
            self.z > 0,
            width > 0,
            height > 0,
        ensures
            self.spec_is_off_screen(width, height) <==> (self.x < -self.z || self.x > self.z
                || self.y < -self.z || self.y > self.z),
            self.x == 0 && self.y == 0 ==> !self.spec_is_off_screen(width, height),
    {
        let x = self.x as int;
        let y = self.y as int;
        let z = self.z as int;
        assert((width * (x + z) < 0) <==> (x + z < 0)) by (nonlinear_arith)
            requires
                width > 0,
        ;
        assert((width * (x + z) > width * (2 * z)) <==> (x > z)) by (nonlinear_arith)
            requires
                width > 0,
        ;
        assert((height * (y + z) < 0) <==> (y + z < 0)) by (nonlinear_arith)
            requires
                height > 0,
        ;
        assert((height * (y + z) > height * (2 * z)) <==> (y > z)) by (nonlinear_arith)
            requires
                height > 0,
        ;
    }

    /// Whether the star has left play: too close, or off the screen.
    pub open spec fn spec_is_gone(self, width: int, height: int) -> bool {
        self.z <= TOO_CLOSE || self.spec_is_off_screen(width, height)
    }

    /// Whether the star has left play.
    pub fn is_gone(&self, width: usize, height: usize) -> (gone: bool)
        ensures
            gone == self.spec_is_gone(width as int, height as int),
    {
        self.z <= TOO_CLOSE || self.is_off_screen(width, height)
    }

    /// Whether the projected star lies within squared distance `limit` of
    /// the point `(at_x, at_y)`, in pixels. Both sides of the comparison are
    /// multiplied by the square of the projection's denominator `2 z`, so the
    /// test holds for a star before the viewer and behind it alike; a star at
    /// depth zero, which has no projection, is near nothing.
    pub open spec fn spec_is_near(
        self,
        width: int,
        height: int,
        at_x: int,
        at_y: int,
        limit: int,
    ) -> bool {
        let den = 2 * self.z;
        spec_distance_squared(
            projected_num(self.x as int, self.z as int, width),
            projected_num(self.y as int, self.z as int, height),
            at_x * den,
            at_y * den,
        ) < limit * (den * den)
    }

    /// Whether the star projects to within squared distance `limit` of
    /// `(at_x, at_y)`.
    pub fn is_near(&self, width: usize, height: usize, at_x: i64, at_y: i64, limit: u32) -> (near:
        bool)
        ensures
            near == self.spec_is_near(
                width as int,
                height as int,
                at_x as int,
                at_y as int,
                limit as int,
            ),
    {
        let den: i128 = 2 * (self.z as i128);
        let mag: i128 = if den < 0 {
            -den
        } else {
            den
        };
        let a: i128 = axis_gap(self.x, self.z, width, at_x);
        let b: i128 = axis_gap(self.y, self.z, height, at_y);
        let bound: i128 = mag * 65536;
        let ghost goal = limit as int * (den as int * den as int);
        proof {
            assert(den as int * den as int == mag as int * mag as int) by (nonlinear_arith)
                requires
                    mag == den || mag == -den,
            ;
            assert(0 <= goal && (mag > 0 ==> goal < (mag * 65536) * (mag * 65536)) && (mag == 0
                ==> goal == 0)) by (nonlinear_arith)
                requires
                    goal == limit as int * (mag as int * mag as int),
                    0 <= limit < 0x1_0000_0000,
                    mag >= 0,
            ;
            assert(b as int * b as int >= 0) by (nonlinear_arith);
            assert(a as int * a as int >= 0) by (nonlinear_arith);
        }
        if mag == 0 {
            false
        } else if a >= bound || a <= -bound {
            assert(a as int * a as int >= bound as int * bound as int) by (nonlinear_arith)
                requires
                    a >= bound || a <= -bound,
                    bound > 0,
            ;
            false
        } else if b >= bound || b <= -bound {
            assert(b as int * b as int >= bound as int * bound as int) by (nonlinear_arith)
                requires
                    b >= bound || b <= -bound,
                    bound > 0,
            ;
            false
        } else {
            let m: u128 = (if a < 0 { -a } else { a }) as u128;
            let n: u128 = (if b < 0 { -b } else { b }) as u128;
            proof {
                assert(m * m == a as int * a as int) by (nonlinear_arith)
                    requires
                        m == a || m == -a,
                ;
                assert(n * n == b as int * b as int) by (nonlinear_arith)
                    requires
                        n == b || n == -b,
                ;
                assert(m * m <= 0x1_0000_0000_0000 * 0x1_0000_0000_0000) by (nonlinear_arith)
                    requires
                        0 <= m <= 0x1_0000_0000_0000,
                ;
                assert(n * n <= 0x1_0000_0000_0000 * 0x1_0000_0000_0000) by (nonlinear_arith)
                    requires
                        0 <= n <= 0x1_0000_0000_0000,
                ;
                assert(0 < mag * mag <= 0x1_0000_0000 * 0x1_0000_0000) by (nonlinear_arith)
                    requires
                        0 < mag <= 0x1_0000_0000,
                ;
                assert(limit * (mag * mag) <= 0x1_0000_0000 * (0x1_0000_0000 * 0x1_0000_0000))
                    by (nonlinear_arith)
                    requires
                        0 <= limit <= 0x1_0000_0000,
                        0 < mag * mag <= 0x1_0000_0000 * 0x1_0000_0000,
                ;
            }
            let d: u128 = mag as u128;
            m * m + n * n < (limit as u128) * (d * d)
        }
    }
}

/// Whether the 3 by 3 block around column `sx` of row `sy` lies wholly
/// inside the one-pixel inset of the screen.
pub open spec fn inside_inset(sx: int, sy: int, width: int, height: int) -> bool {
    1 <= sx < width - 1 && 1 <= sy < height - 1
}

impl BigStar {
    /// The star after losing `speed` of its depth.
    pub open spec fn spec_approached(self, speed: int) -> BigStar {
        BigStar { z: spec_sub_clamped(self.z as int, speed) as i32, ..self }
    }

    /// Moves the star `speed` nearer and says whether it has thereby left
    /// play.
    pub fn approach(&mut self, speed: i32, width: usize, height: usize) -> (gone: bool)
        ensures
            *final(self) == old(self).spec_approached(speed as int),
            gone == final(self).spec_is_gone(width as int, height as int),
    {
        self.z = sub_clamped(self.z, speed);
        self.is_gone(width, height)
    }

    /// Whether a star that leaves play counts as a miss: only one that was
    /// neither hit nor counted before.
    pub open spec fn spec_counts_as_miss(self) -> bool {
        !self.hit && !self.was_missed
    }

    /// Takes a star that has left play back to a fresh spawn, and says
    /// whether its escape counts as a miss. A star that was hit, or whose
    /// escape was counted already, is not counted again; the respawned star
    /// carries neither flag.
    pub fn escape(&mut self, x: i32, y: i32, depth: i32) -> (missed: bool)
        requires
            0 <= depth < 1_000_000,
        ensures
            missed == old(self).spec_counts_as_miss(),
            *final(self) == Self::spec_spawn(x, y, depth),
            !final(self).hit && !final(self).was_missed,
    {
        let mut missed = false;
        if !self.hit && !self.was_missed {
            missed = true;
            self.was_missed = true;
        }
        self.x = x;
        self.y = y;
        self.z = BIG_STAR_DEPTH + depth;
        self.hit = false;
        self.was_missed = false;
        missed
    }

    /// Whether the star shows its targeting outline: not hit, and within
    /// 30 pixels of the ship.
    pub open spec fn spec_is_targeted(self, width: int, height: int, ship_x: int, ship_y: int) -> bool {
        !self.hit && self.spec_is_near(width, height, ship_x, ship_y, 900)
    }

    /// The buffer after the star is drawn: a red outline at Chebyshev
    /// distance 4 from the star's pixel if it is targeted, then its body, a
    /// 3 by 3 block of `color`, if that lies inside the screen's inset.
    pub open spec fn spec_drawn(
        self,
        before: Seq<u32>,
        width: int,
        height: int,
        ship_x: int,
        ship_y: int,
        color: u32,
    ) -> Seq<u32> {
        let sx = spec_project(self.x as int, self.z as int, width);
        let sy = spec_project(self.y as int, self.z as int, height);
        let targeted = self.spec_is_targeted(width, height, ship_x, ship_y);
        let outlined = crate::canvas::paint(
            before,
            width,
            height,
            |px: int, py: int| targeted && chebyshev(px - sx, py - sy) == 4,
            RED,
        );
        crate::canvas::paint(
            outlined,
            width,
            height,
            |px: int, py: int|
                inside_inset(sx, sy, width, height) && chebyshev(px - sx, py - sy) <= 1,
            color,
        )
    }

    /// Draws the star: outline if targeted, then body.
    pub fn draw(
        &self,
        buffer: &mut [u32],
        width: usize,
        height: usize,
        ship_x: i32,
        ship_y: i32,
        color: u32,
    )
        requires
            self.z > 0,
        ensures
            final(buffer)@ == self.spec_drawn(
                old(buffer)@,
                width as int,
                height as int,
                ship_x as int,
                ship_y as int,
                color,
            ),
    {
        let ghost before = buffer@;
        let sx: i128 = project_axis(self.x, self.z, width);
        let sy: i128 = project_axis(self.y, self.z, height);
        let targeted: bool = !self.hit && self.is_near(
            width,
            height,
            ship_x as i64,
            ship_y as i64,
            900,
        );
        if targeted {
            draw_ring(buffer, width, height, sx, sy, 4, RED);
        }
        let ghost outlined = buffer@;
        proof {
            assert(painted(
                before,
                outlined,
                width as int,
                height as int,
                |px: int, py: int| targeted && chebyshev(px - sx, py - sy) == 4,
                RED,
            ));
            crate::canvas::lemma_painted_is_paint(
                before,
                outlined,
                width as int,
                height as int,
                |px: int, py: int| targeted && chebyshev(px - sx, py - sy) == 4,
                RED,
            );
        }
        let inset: bool = sx >= 1 && sx < width as i128 - 1 && sy >= 1 && sy < height as i128 - 1;
        if inset {
            fill_rect(buffer, width, height, sx - 1, sy - 1, sx + 2, sy + 2, color);
        }
        proof {
            assert(painted(
                outlined,
                buffer@,
                width as int,
                height as int,
                |px: int, py: int|
                    inside_inset(sx as int, sy as int, width as int, height as int) && chebyshev(
                        px - sx,
                        py - sy,
                    ) <= 1,
                color,
            ));
            crate::canvas::lemma_painted_is_paint(
                outlined,
                buffer@,
                width as int,
                height as int,
                |px: int, py: int|
                    inside_inset(sx as int, sy as int, width as int, height as int) && chebyshev(
                        px - sx,
                        py - sy,
                    ) <= 1,
                color,
            );
        }
    }
}

/// Brightness of an ambient star at depth `z`: `(1 - min(z, 1)) * 255`,
/// rounded down, so that nearer stars are brighter.
pub open spec fn spec_brightness(z: int) -> int {
    let capped = if z > 1_000_000 { 1_000_000 } else { z };
    ((1_000_000 - capped) * 255) / 1_000_000
}

/// The gray of an ambient star at depth `z`: its brightness in each of the
/// three channels.
pub open spec fn spec_gray(z: int) -> u32 {
    (spec_brightness(z) * 65536 + spec_brightness(z) * 256 + spec_brightness(z)) as u32
}

impl Star {
    /// The star after losing `speed` of its depth.
    pub open spec fn spec_approached(self, speed: int) -> Star {
        Star { z: spec_sub_clamped(self.z as int, speed) as i32, ..self }
    }

    /// Whether the star has crossed the near clip plane.
    pub open spec fn spec_has_passed(self) -> bool {
        self.z <= NEAR_CLIP
    }

    /// Moves the star `speed` nearer and says whether it has thereby crossed
    /// the near clip plane.
    pub fn approach(&mut self, speed: i32) -> (passed: bool)
        ensures
            *final(self) == old(self).spec_approached(speed as int),
            passed == final(self).spec_has_passed(),
    {
        self.z = sub_clamped(self.z, speed);
        self.z <= NEAR_CLIP
    }

    /// Puts the star back at depth one, at `(x, y)`.
    pub fn respawn(&mut self, x: i32, y: i32)
        ensures
            *final(self) == (Star { x, y, z: 1_000_000 }),
    {
        self.x = x;
        self.y = y;
        self.z = 1_000_000;
    }

    /// The gray of the star.
    pub fn gray(&self) -> (c: u32)
        requires
            self.z > 0,
        ensures
            c == spec_gray(self.z as int),
            c <= 0xFFFFFF,
    {
        let capped: i32 = if self.z > 1_000_000 { 1_000_000 } else { self.z };
        let b: u32 = (((1_000_000 - capped) as u32) * 255) / 1_000_000;
        let c: u32 = (b << 16) | (b << 8) | b;
        assert(c == b * 65536 + b * 256 + b && c <= 0xFFFFFF) by (bit_vector)
            requires
                b <= 255,
                c == (b << 16) | (b << 8) | b,
        ;
        c
    }

    /// Writes the star's gray to the pixel it projects to, if that pixel is
    /// on the screen.
    pub fn draw(&self, buffer: &mut [u32], width: usize, height: usize)
        requires
            self.z > 0,
        ensures
            final(buffer)@ == self.spec_drawn(old(buffer)@, width as int, height as int),
    {
        let ghost before = buffer@;
        let sx: i128 = project_axis(self.x, self.z, width);
        let sy: i128 = project_axis(self.y, self.z, height);
        let c: u32 = self.gray();
        crate::canvas::put_pixel(buffer, width, height, sx, sy, c);
        proof {
            crate::canvas::lemma_painted_is_paint(
                before,
                buffer@,
                width as int,
                height as int,
                |px: int, py: int| px == sx && py == sy,
                c,
            );
        }
    }

    /// The buffer after the star is drawn.
    pub open spec fn spec_drawn(self, before: Seq<u32>, width: int, height: int) -> Seq<u32> {
        let sx = spec_project(self.x as int, self.z as int, width);
        let sy = spec_project(self.y as int, self.z as int, height);
        crate::canvas::paint(
            before,
            width,
            height,
            |px: int, py: int| px == sx && py == sy,
            spec_gray(self.z as int),
        )
    }
}

/// The gap, along one axis, between a projected coordinate and the point
/// `at`, both multiplied by the projection's denominator `2 z`.
fn axis_gap(c: i32, z: i32, extent: usize, at: i64) -> (gap: i128)
    ensures
        gap == at * (2 * z) - projected_num(c as int, z as int, extent as int),
{
    let sum: i128 = c as i128 + z as i128;
    assert(-0x1_0000_0000_0000_0000 * 0x1_0000_0000 <= extent * sum <= 0x1_0000_0000_0000_0000
        * 0x1_0000_0000) by (nonlinear_arith)
        requires
            0 <= extent <= 0x1_0000_0000_0000_0000,
            -0x1_0000_0000 <= sum <= 0x1_0000_0000,
    ;
    let den: i128 = 2 * (z as i128);
    assert(-0x8000_0000_0000_0000 * 0x1_0000_0000 <= at * den <= 0x8000_0000_0000_0000
        * 0x1_0000_0000) by (nonlinear_arith)
        requires
            -0x8000_0000_0000_0000 <= at <= 0x8000_0000_0000_0000,
            -0x1_0000_0000 <= den <= 0x1_0000_0000,
    ;
    (at as i128) * den - (extent as i128) * sum
}

} // verus!
