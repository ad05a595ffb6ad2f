//! Particles: sparks thrown out by an exploding star. Positions and
//! velocities are in millionths of a pixel.

use crate::canvas::{paint, put_pixel};
use crate::utils::{blend_color, spec_blend_color};
use vstd::prelude::*;

verus! {

/// One spark.
#[derive(Clone, Copy, Debug, PartialEq, Eq, Structural)]
pub struct Particle {
    pub x: i64,
    pub y: i64,
    pub vx: i32,
    pub vy: i32,
    pub life: u32,
    pub initial_life: u32,
}

/// Blend factor of the sprite's centre.
pub const CENTER_ALPHA: u32 = 1_000_000;

/// Blend factor of the sprite's four orthogonal neighbours.
pub const SIDE_ALPHA: u32 = 400_000;

/// Blend factor of the sprite's four corners.
pub const CORNER_ALPHA: u32 = 200_000;

/// `a + b`, held within the range of `i64`.
pub open spec fn spec_add_clamped(a: int, b: int) -> int {
    if a + b < i64::MIN {
        i64::MIN as int
    } else if a + b > i64::MAX {
        i64::MAX as int
    } else {
        a + b
    }
}

fn add_clamped(a: i64, b: i32) -> (s: i64)
    ensures
        s == spec_add_clamped(a as int, b as int),
{
    let wide: i128 = a as i128 + b as i128;
    if wide < i64::MIN as i128 {
        i64::MIN
    } else if wide > i64::MAX as i128 {
        i64::MAX
    } else {
        wide as i64
    }
}

/// A channel of full strength `full`, faded by the share `life /
/// initial_life` of the particle's life that is left, and capped at 255.
pub open spec fn spec_fade(full: u8, life: u32, initial_life: u32) -> u8 {
    if initial_life == 0 {
        if life == 0 {
            0u8
        } else {
            255u8
        }
    } else if (full as int * life as int) / (initial_life as int) > 255 {
        255u8
    } else {
        ((full as int * life as int) / (initial_life as int)) as u8
    }
}

fn fade(full: u8, life: u32, initial_life: u32) -> (c: u8)
    ensures
        c == spec_fade(full, life, initial_life),
{
    if initial_life == 0 {
        if life == 0 {
            0
        } else {
            255
        }
    } else {
        assert(0 <= full as int * life as int <= 255 * 0xFFFF_FFFF) by (nonlinear_arith)
            requires
                0 <= full <= 255,
                0 <= life <= 0xFFFF_FFFF,
        ;
        let q: u64 = (full as u64 * life as u64) / (initial_life as u64);
        if q > 255 {
            255
        } else {
            q as u8
        }
    }
}

impl Particle {
    /// The particle one frame later: moved by its velocity, its life one
    /// shorter but never below zero.
    pub open spec fn spec_advanced(self) -> Particle {
        Particle {
            x: spec_add_clamped(self.x as int, self.vx as int) as i64,
            y: spec_add_clamped(self.y as int, self.vy as int) as i64,
            life: if self.life > 0 {
                (self.life - 1) as u32
            } else {
                0u32
            },
            ..self
        }
    }

    /// Whether the particle outlives the frame.
    pub open spec fn spec_is_alive(self) -> bool {
        self.life > 0
    }

    /// A particle's life never grows from one frame to the next and never
    /// falls below zero, and a particle with at most one frame left is not
    /// alive after it.
    pub proof fn lemma_life_runs_down(self)
        ensures
            0 <= self.spec_advanced().life <= self.life,
            self.life > 0 ==> self.spec_advanced().life == self.life - 1,
            self.life <= 1 <==> !self.spec_advanced().spec_is_alive(),
    {
    }

    /// Advances the particle by one frame and says whether it is still
    /// alive. Its life never grows and never falls below zero.
    pub fn advance(&mut self) -> (alive: bool)
        ensures
            *final(self) == old(self).spec_advanced(),
            alive == final(self).spec_is_alive(),
            final(self).life <= old(self).life,
    {
        self.x = add_clamped(self.x, self.vx);
        self.y = add_clamped(self.y, self.vy);
        self.life = self.life.saturating_sub(1);
        self.life > 0
    }

    /// Whether the particle lies strictly inside the one-pixel inset of the
    /// screen.
    pub open spec fn spec_is_visible(self, width: int, height: int) -> bool {
        1_000_000 <= self.x < (width - 1) * 1_000_000 && 1_000_000 <= self.y < (height - 1)
            * 1_000_000
    }

    /// Colour of the sprite's pixel at blend factor `alpha`: orange, faded
    /// toward black as the particle's life runs out.
    pub open spec fn spec_color(self, alpha: u32) -> u32 {
        spec_blend_color(
            spec_fade(255, self.life, self.initial_life),
            spec_fade(170, self.life, self.initial_life),
            0,
            alpha,
        )
    }

    /// The buffer after the particle is drawn: if it is visible, a sprite of
    /// nine pixels around its own, the centre at full strength, the four
    /// orthogonal neighbours at 40% and the four corners at 20%.
    pub open spec fn spec_drawn(self, before: Seq<u32>, width: int, height: int) -> Seq<u32> {
        let cx = self.x as int / 1_000_000;
        let cy = self.y as int / 1_000_000;
        let visible = self.spec_is_visible(width, height);
        let center = paint(
            before,
            width,
            height,
            |px: int, py: int| visible && px == cx && py == cy,
            self.spec_color(CENTER_ALPHA),
        );
        let sides = paint(
            center,
            width,
            height,
            |px: int, py: int|
                visible && ((py == cy && (px == cx - 1 || px == cx + 1)) || (px == cx && (py == cy
                    - 1 || py == cy + 1))),
            self.spec_color(SIDE_ALPHA),
        );
        paint(
            sides,
            width,
            height,
            |px: int, py: int|
                visible && (px == cx - 1 || px == cx + 1) && (py == cy - 1 || py == cy + 1),
            self.spec_color(CORNER_ALPHA),
        )
    }

    /// Draws the particle's sprite.
    pub fn draw(&self, buffer: &mut [u32], width: usize, height: usize)
        ensures
            final(buffer)@ == self.spec_drawn(old(buffer)@, width as int, height as int),
    {
        let ghost before = buffer@;
        let ghost cxs = self.x as int / 1_000_000;
        let ghost cys = self.y as int / 1_000_000;
        let visible: bool = self.x >= 1_000_000 && self.y >= 1_000_000 && (self.x as i128) < (
        width as i128 - 1) * 1_000_000 && (self.y as i128) < (height as i128 - 1) * 1_000_000;
        let r: u8 = fade(255, self.life, self.initial_life);
        let g: u8 = fade(170, self.life, self.initial_life);
        let center: u32 = blend_color(r, g, 0, CENTER_ALPHA);
        let side: u32 = blend_color(r, g, 0, SIDE_ALPHA);
        let corner: u32 = blend_color(r, g, 0, CORNER_ALPHA);
        if visible {
            let cx: i128 = (self.x / 1_000_000) as i128;
            let cy: i128 = (self.y / 1_000_000) as i128;
            put_pixel(buffer, width, height, cx, cy, center);
        }
        let ghost after_center = buffer@;
        proof {
            crate::canvas::lemma_painted_is_paint(
                before,
                after_center,
                width as int,
                height as int,
                |px: int, py: int| visible && px == cxs && py == cys,
                center,
            );
        }
        if visible {
            let cx: i128 = (self.x / 1_000_000) as i128;
            let cy: i128 = (self.y / 1_000_000) as i128;
            put_pixel(buffer, width, height, cx - 1, cy, side);
            put_pixel(buffer, width, height, cx + 1, cy, side);
            put_pixel(buffer, width, height, cx, cy - 1, side);
            put_pixel(buffer, width, height, cx, cy + 1, side);
        }
        let ghost after_sides = buffer@;
        proof {
            crate::canvas::lemma_painted_is_paint(
                after_center,
                after_sides,
                width as int,
                height as int,
                |px: int, py: int|
                    visible && ((py == cys && (px == cxs - 1 || px == cxs + 1)) || (px == cxs && (py
                        == cys - 1 || py == cys + 1))),
                side,
            );
        }
        if visible {
            let cx: i128 = (self.x / 1_000_000) as i128;
            let cy: i128 = (self.y / 1_000_000) as i128;
            put_pixel(buffer, width, height, cx - 1, cy - 1, corner);
            put_pixel(buffer, width, height, cx - 1, cy + 1, corner);
            put_pixel(buffer, width, height, cx + 1, cy - 1, corner);
            put_pixel(buffer, width, height, cx + 1, cy + 1, corner);
        }
        proof {
            crate::canvas::lemma_painted_is_paint(
                after_sides,
                buffer@,
                width as int,
                height as int,
                |px: int, py: int|
                    visible && (px == cxs - 1 || px == cxs + 1) && (py == cys - 1 || py == cys + 1),
                corner,
            );
        }
    }
}

} // verus!
