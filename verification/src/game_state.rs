//! The simulation core: the aggregate that owns every entity, counter and
//! timer of a session, and the operations that advance it by one frame.
//!
//! Timers count frames, of which there are sixty to the second.

use crate::chance::{random_in, random_ratio};
use crate::particles::Particle;
use crate::space_objects::{
    BigStar, Star, BIG_STAR_EXTENT, BIG_STAR_SPEED_MAX, BIG_STAR_SPEED_MIN,
};
use vstd::prelude::*;

verus! {

/// Number of escaped big stars at which the session is lost.
pub const MAX_ESCAPED: usize = 10;

/// Frames for which the fire key stays locked after a shot (0.1 s).
pub const FIRE_COOLDOWN: u32 = 6;

/// Frames for which the redemption flash shows (0.3 s).
pub const FLASH_FRAMES: u32 = 18;

/// Frames for which the screen shakes after an explosion (0.5 s).
pub const SHAKE_FRAMES: u32 = 30;

/// Pixels that the ship moves per frame along each axis.
pub const SHIP_STEP: i32 = 3;

/// Squared radius, in pixels, of the passive collision sweep.
pub const COLLISION_RADIUS_SQ: u32 = 12;

/// Squared radius, in pixels, of the manual-fire sweep.
pub const FIRE_RADIUS_SQ: u32 = 900;

/// Bound, in millionths of a pixel per frame, on each axis of a spark's
/// velocity.
pub const SPARK_SPEED: i32 = 4_000_000;

/// Least lifetime of a spark, in frames.
pub const SPARK_LIFE_MIN: i32 = 50;

/// Bound below which a spark's lifetime stays.
pub const SPARK_LIFE_MAX: i32 = 100;

/// Depth lost per frame by the far layer of stars.
pub const FAR_SPEED: i32 = 3_000;

/// Depth lost per frame by the near layer of stars.
pub const NEAR_SPEED: i32 = 10_000;

/// Depth lost per frame by the plain layer of stars.
pub const PLAIN_SPEED: i32 = 10_000;

/// Everything that changes during a session.
pub struct GameState {
    pub ship_x: i32,
    pub ship_y: i32,
    pub stars: Vec<Star>,
    pub big_stars: Vec<BigStar>,
    pub particles: Vec<Particle>,
    pub screen_shake_timer: i32,
    pub shake_timer: u32,
    pub shake_duration: u32,
    pub space_cooldown_timer: u32,
    pub collision_count: usize,
    pub missed_count: usize,
    pub total_seconds: usize,
    pub redemption_flash_timer: u32,
    pub near_stars: Vec<Star>,
    pub far_stars: Vec<Star>,
}

/// The two phases of a session.
#[derive(Clone, Copy, Debug, PartialEq, Eq, Structural)]
pub enum Phase {
    Running,
    GameOver,
}

/// The keys that are down in a frame.
#[derive(Clone, Copy, Debug, PartialEq, Eq, Structural)]
pub struct Keys {
    pub up: bool,
    pub down: bool,
    pub left: bool,
    pub right: bool,
    pub space: bool,
}

/// What the fire key did in a frame.
#[derive(Clone, Copy, Debug, PartialEq, Eq, Structural)]
pub struct FireOutcome {
    pub fired: bool,
    pub explosions: usize,
}

/// What a frame gave rise to: the escapes counted, the collisions, what
/// the fire key did, and the phase of the session after the frame.
#[derive(Clone, Copy, Debug, PartialEq, Eq, Structural)]
pub struct FrameOutcome {
    pub phase: Phase,
    pub missed: usize,
    pub collisions: usize,
    pub fire: FireOutcome,
}

/// Where a shake stands: the frames it has left, of how many.
#[derive(Clone, Copy, Debug, PartialEq, Eq, Structural)]
pub struct ShakePhase {
    pub remaining: u32,
    pub duration: u32,
}

/// Whether an ambient star lies where stars are spawned: `x` and `y` in
/// `[-1, 1)` and the depth in `[z_lo, z_hi)`.
pub open spec fn star_spawned_within(star: Star, z_lo: int, z_hi: int) -> bool {
    &&& -1_000_000 <= star.x < 1_000_000
    &&& -1_000_000 <= star.y < 1_000_000
    &&& z_lo <= star.z < z_hi
}

/// `count` ambient stars, each at a random place with its depth in
/// `[z_lo, z_hi)`.
pub fn random_stars(count: usize, z_lo: i32, z_hi: i32) -> (stars: Vec<Star>)
    requires
        z_lo < z_hi,
    ensures
        stars@.len() == count,
        forall|i: int|
            0 <= i < count ==> star_spawned_within(#[trigger] stars@[i], z_lo as int, z_hi as int),
{
    let mut stars: Vec<Star> = Vec::new();
    let mut i: usize = 0;
    while i < count
        invariant
            i <= count,
            z_lo < z_hi,
            stars@.len() == i,
            forall|j: int|
                0 <= j < i ==> star_spawned_within(#[trigger] stars@[j], z_lo as int, z_hi as int),
        decreases count - i,
    {
        let x: i32 = random_in(-1_000_000, 1_000_000);
        let y: i32 = random_in(-1_000_000, 1_000_000);
        let z: i32 = random_in(z_lo, z_hi);
        stars.push(Star { x, y, z });
        i += 1;
    }
    stars
}

/// How one frame changes an ambient star that loses `speed` of its depth:
/// a star that thereby crosses the near clip plane is back at depth one, at a
/// place of `[-1, 1)` on each axis; any other star has only moved nearer.
pub open spec fn star_stepped(before: Star, after: Star, speed: int) -> bool {
    let moved = before.spec_approached(speed);
    if moved.spec_has_passed() {
        star_spawned_within(after, 1_000_000, 1_000_001)
    } else {
        after == moved
    }
}

/// The buffer after each of `stars` has been drawn, first to last.
pub open spec fn stars_drawn(stars: Seq<Star>, before: Seq<u32>, width: int, height: int) -> Seq<
    u32,
>
    decreases stars.len(),
{
    if stars.len() == 0 {
        before
    } else {
        stars.last().spec_drawn(stars_drawn(stars.drop_last(), before, width, height), width, height)
    }
}

/// Advances one layer of ambient stars by a frame and draws it: each star
/// loses `speed` of its depth, is respawned at a random place if it crosses
/// the near clip plane, and is then drawn.
pub fn draw_stars(
    stars: &mut Vec<Star>,
    buffer: &mut [u32],
    width: usize,
    height: usize,
    speed: i32,
)
    ensures
        final(stars)@.len() == old(stars)@.len(),
        forall|i: int|
            0 <= i < old(stars)@.len() ==> star_stepped(
                old(stars)@[i],
                #[trigger] final(stars)@[i],
                speed as int,
            ),
        final(buffer)@ == stars_drawn(final(stars)@, old(buffer)@, width as int, height as int),
        final(buffer)@.len() == old(buffer)@.len(),
{
    let n: usize = stars.len();
    let mut i: usize = 0;
    while i < n
        invariant
            i <= n,
            stars@.len() == n,
            n == old(stars)@.len(),
            forall|j: int|
                0 <= j < i ==> star_stepped(old(stars)@[j], #[trigger] stars@[j], speed as int),
            forall|j: int| i <= j < n ==> stars@[j] == old(stars)@[j],
            buffer@ == stars_drawn(stars@.take(i as int), old(buffer)@, width as int, height as int),
            buffer@.len() == old(buffer)@.len(),
        decreases n - i,
    {
        let ghost drawn = stars@.take(i as int);
        let mut star: Star = stars[i];
        let passed: bool = star.approach(speed);
        if passed {
            let x: i32 = random_in(-1_000_000, 1_000_000);
            let y: i32 = random_in(-1_000_000, 1_000_000);
            star.respawn(x, y);
        }
        star.draw(buffer, width, height);
        stars[i] = star;
        proof {
            let now = stars@.take(i + 1);
            assert(now.drop_last() =~= drawn);
            assert(now.last() == star);
        }
        i += 1;
    }
    proof {
        assert(stars@.take(n as int) =~= stars@);
    }
}

/// What one frame did to one big star, as far as chance decided it: whether
/// the star was respawned, whether its escape counted as a miss, and the
/// colour of its body where it was drawn.
pub struct StarEvent {
    pub respawned: bool,
    pub missed: bool,
    pub color: u32,
}

/// Whether a big star is one that has just been spawned.
pub open spec fn is_fresh(star: BigStar) -> bool {
    &&& -1_500_000 <= star.x < 1_500_000
    &&& -1_500_000 <= star.y < 1_500_000
    &&& 2_500_000 <= star.z < 3_500_000
    &&& !star.hit
    &&& !star.was_missed
}

/// Whether `color` is one that a big star's body may have: red of
/// `[150, 250)`, green of `[100, 200)`, blue of `[0, 250)`, blended by a
/// factor of `[0.7, 1)`.
pub open spec fn is_body_color(color: u32) -> bool {
    exists|r: u8, g: u8, b: u8, alpha: u32|
        150 <= r < 250 && 100 <= g < 200 && b < 250 && 700_000 <= alpha < 1_000_000 && color
            == #[trigger] crate::utils::spec_blend_color(r, g, b, alpha)
}

/// How one frame changes a big star. The star loses a depth of
/// `[0.002, 0.006)`. If it has thereby left play, it is respawned, and its
/// escape counts as a miss exactly if it was neither hit nor counted before.
/// Otherwise it has only moved nearer, and is drawn.
pub open spec fn big_star_stepped(
    before: BigStar,
    after: BigStar,
    event: StarEvent,
    width: int,
    height: int,
) -> bool {
    exists|speed: int|
        2_000 <= speed < 6_000 && {
            let moved = #[trigger] before.spec_approached(speed);
            if moved.spec_is_gone(width, height) {
                event.respawned && is_fresh(after) && event.missed == before.spec_counts_as_miss()
            } else {
                !event.respawned && !event.missed && after == moved && is_body_color(event.color)
            }
        }
}

/// Number of misses among `events`.
pub open spec fn count_missed(events: Seq<StarEvent>) -> nat
    decreases events.len(),
{
    if events.len() == 0 {
        0
    } else {
        count_missed(events.drop_last()) + if events.last().missed {
            1nat
        } else {
            0nat
        }
    }
}

/// The buffer after each of `stars` that was not respawned has been drawn,
/// first to last, in the colour that its event names.
pub open spec fn big_stars_drawn(
    stars: Seq<BigStar>,
    events: Seq<StarEvent>,
    before: Seq<u32>,
    width: int,
    height: int,
    ship_x: int,
    ship_y: int,
) -> Seq<u32>
    decreases stars.len(),
{
    if stars.len() == 0 || events.len() != stars.len() {
        before
    } else {
        let earlier = big_stars_drawn(
            stars.drop_last(),
            events.drop_last(),
            before,
            width,
            height,
            ship_x,
            ship_y,
        );
        if events.last().respawned {
            earlier
        } else {
            stars.last().spec_drawn(earlier, width, height, ship_x, ship_y, events.last().color)
        }
    }
}

/// One frame of the big stars, with what chance decided laid open: `start`
/// is the population once a fresh star has or has not joined, and `events`
/// tells how each star fared.
pub open spec fn big_stars_frame(
    old_stars: Seq<BigStar>,
    start: Seq<BigStar>,
    events: Seq<StarEvent>,
    new_stars: Seq<BigStar>,
    old_buffer: Seq<u32>,
    new_buffer: Seq<u32>,
    missed: int,
    width: int,
    height: int,
    ship_x: int,
    ship_y: int,
) -> bool {
    &&& start == old_stars || (start.len() == old_stars.len() + 1 && start.drop_last() == old_stars
        && is_fresh(start.last()))
    &&& new_stars.len() == start.len()
    &&& events.len() == start.len()
    &&& forall|i: int|
        0 <= i < start.len() ==> big_star_stepped(
            start[i],
            #[trigger] new_stars[i],
            events[i],
            width,
            height,
        )
    &&& missed == count_missed(events)
    &&& new_buffer == big_stars_drawn(
        new_stars,
        events,
        old_buffer,
        width,
        height,
        ship_x,
        ship_y,
    )
}

/// How one frame changes the big stars and the buffer, whatever chance
/// decides: at most one fresh star joins, every star then fares as
/// `big_star_stepped` says, `missed` is the number of escapes that count, and
/// the stars that stay in play are drawn in turn.
pub open spec fn big_stars_updated(
    old_stars: Seq<BigStar>,
    new_stars: Seq<BigStar>,
    old_buffer: Seq<u32>,
    new_buffer: Seq<u32>,
    missed: int,
    width: int,
    height: int,
    ship_x: int,
    ship_y: int,
) -> bool {
    exists|start: Seq<BigStar>, events: Seq<StarEvent>| #[trigger]
        big_stars_frame(
            old_stars,
            start,
            events,
            new_stars,
            old_buffer,
            new_buffer,
            missed,
            width,
            height,
            ship_x,
            ship_y,
        )
}

/// Within one frame an escape is counted at most once, and only for a star
/// that was neither hit nor counted before: every event that reports a miss
/// belongs to such a star, and that star has been respawned with both flags
/// cleared.
pub proof fn lemma_miss_is_counted_once(
    old_stars: Seq<BigStar>,
    start: Seq<BigStar>,
    events: Seq<StarEvent>,
    new_stars: Seq<BigStar>,
    old_buffer: Seq<u32>,
    new_buffer: Seq<u32>,
    missed: int,
    width: int,
    height: int,
    ship_x: int,
    ship_y: int,
)
    requires
        big_stars_frame(
            old_stars,
            start,
            events,
            new_stars,
            old_buffer,
            new_buffer,
            missed,
            width,
            height,
            ship_x,
            ship_y,
        ),
    ensures
        forall|i: int|
            0 <= i < start.len() && (#[trigger] events[i]).missed ==> start[i].spec_counts_as_miss()
                && events[i].respawned && !new_stars[i].hit && !new_stars[i].was_missed,
        forall|i: int|
            0 <= i < start.len() && !start[i].spec_counts_as_miss() ==> !(#[trigger] events[i]).missed,
        0 <= missed <= start.len(),
{
    lemma_count_missed_bound(events);
    assert forall|i: int| 0 <= i < start.len() && (#[trigger] events[i]).missed implies start[i]
        .spec_counts_as_miss() && events[i].respawned && !new_stars[i].hit && !new_stars[i].was_missed by {
        assert(big_star_stepped(start[i], new_stars[i], events[i], width, height));
    }
    assert forall|i: int| 0 <= i < start.len() && !start[i].spec_counts_as_miss() implies !(
    #[trigger] events[i]).missed by {
        assert(big_star_stepped(start[i], new_stars[i], events[i], width, height));
    }
}

/// There are no more misses than events.
pub proof fn lemma_count_missed_bound(events: Seq<StarEvent>)
    ensures
        count_missed(events) <= events.len(),
    decreases events.len(),
{
    if events.len() > 0 {
        lemma_count_missed_bound(events.drop_last());
    }
}

/// Drawing big stars leaves the length of the buffer as it was.
pub proof fn lemma_big_stars_drawn_len(
    stars: Seq<BigStar>,
    events: Seq<StarEvent>,
    before: Seq<u32>,
    width: int,
    height: int,
    ship_x: int,
    ship_y: int,
)
    ensures
        big_stars_drawn(stars, events, before, width, height, ship_x, ship_y).len() == before.len(),
    decreases stars.len(),
{
    if stars.len() > 0 && events.len() == stars.len() {
        lemma_big_stars_drawn_len(
            stars.drop_last(),
            events.drop_last(),
            before,
            width,
            height,
            ship_x,
            ship_y,
        );
    }
}

/// Advances the big stars by one frame and draws them; returns the number
/// of escapes that count as misses. With probability 1/200 a fresh star
/// joins first.
pub fn advance_big_stars(
    stars: &mut Vec<BigStar>,
    buffer: &mut [u32],
    width: usize,
    height: usize,
    ship_x: i32,
    ship_y: i32,
) -> (missed: usize)
    ensures
        big_stars_updated(
            old(stars)@,
            final(stars)@,
            old(buffer)@,
            final(buffer)@,
            missed as int,
            width as int,
            height as int,
            ship_x as int,
            ship_y as int,
        ),
        final(buffer)@.len() == old(buffer)@.len(),
        old(stars)@.len() <= final(stars)@.len() <= old(stars)@.len() + 1,
        missed <= final(stars)@.len(),
{
    if random_ratio(1, 200) {
        let x: i32 = random_in(-BIG_STAR_EXTENT, BIG_STAR_EXTENT);
        let y: i32 = random_in(-BIG_STAR_EXTENT, BIG_STAR_EXTENT);
        let depth: i32 = random_in(0, 1_000_000);
        stars.push(BigStar::spawn(x, y, depth));
    }
    let ghost start = stars@;
    assert(start == old(stars)@ || (start.len() == old(stars)@.len() + 1 && start.drop_last()
        =~= old(stars)@ && is_fresh(start.last())));
    let ghost mut events: Seq<StarEvent> = Seq::empty();
    let n: usize = stars.len();
    let mut missed: usize = 0;
    let mut i: usize = 0;
    while i < n
        invariant
            i <= n,
            stars@.len() == n,
            start.len() == n,
            events.len() == i,
            forall|j: int|
                0 <= j < i ==> big_star_stepped(
                    start[j],
                    #[trigger] stars@[j],
                    events[j],
                    width as int,
                    height as int,
                ),
            forall|j: int| i <= j < n ==> stars@[j] == start[j],
            missed == count_missed(events),
            missed <= i,
            buffer@ == big_stars_drawn(
                stars@.take(i as int),
                events,
                old(buffer)@,
                width as int,
                height as int,
                ship_x as int,
                ship_y as int,
            ),
        decreases n - i,
    {
        let ghost drawn = stars@.take(i as int);
        let ghost earlier = events;
        let mut star: BigStar = stars[i];
        let speed: i32 = random_in(BIG_STAR_SPEED_MIN, BIG_STAR_SPEED_MAX);
        let gone: bool = star.approach(speed, width, height);
        let ghost moved = star;
        let ghost event;
        if gone {
            let x: i32 = random_in(-BIG_STAR_EXTENT, BIG_STAR_EXTENT);
            let y: i32 = random_in(-BIG_STAR_EXTENT, BIG_STAR_EXTENT);
            let depth: i32 = random_in(0, 1_000_000);
            let counted: bool = star.escape(x, y, depth);
            if counted {
                missed += 1;
            }
            proof {
                event = StarEvent { respawned: true, missed: counted, color: 0 };
            }
        } else {
            let r: i32 = random_in(150, 250);
            let g: i32 = random_in(100, 200);
            let b: i32 = random_in(0, 250);
            let alpha: i32 = random_in(700_000, 1_000_000);
            let color: u32 = crate::utils::blend_color(r as u8, g as u8, b as u8, alpha as u32);
            star.draw(buffer, width, height, ship_x, ship_y, color);
            proof {
                event = StarEvent { respawned: false, missed: false, color };
                assert(is_body_color(color));
            }
        }
        stars[i] = star;
        proof {
            events = earlier.push(event);
            assert(events.drop_last() =~= earlier);
            assert(events.last() == event);
            let now = stars@.take(i + 1);
            assert(now.drop_last() =~= drawn);
            assert(now.last() == star);
            assert(moved == start[i as int].spec_approached(speed as int));
            assert(big_star_stepped(start[i as int], star, event, width as int, height as int));
        }
        i += 1;
    }
    proof {
        assert(stars@.take(n as int) =~= stars@);
        lemma_big_stars_drawn_len(
            stars@,
            events,
            old(buffer)@,
            width as int,
            height as int,
            ship_x as int,
            ship_y as int,
        );
        assert(big_stars_frame(
            old(stars)@,
            start,
            events,
            stars@,
            old(buffer)@,
            buffer@,
            missed as int,
            width as int,
            height as int,
            ship_x as int,
            ship_y as int,
        ));
    }
    missed
}

/// The buffer after each of `particles` has been drawn, first to last.
pub open spec fn particles_drawn(
    particles: Seq<Particle>,
    before: Seq<u32>,
    width: int,
    height: int,
) -> Seq<u32>
    decreases particles.len(),
{
    if particles.len() == 0 {
        before
    } else {
        particles.last().spec_drawn(
            particles_drawn(particles.drop_last(), before, width, height),
            width,
            height,
        )
    }
}

/// Drawing particles leaves the length of the buffer as it was.
pub proof fn lemma_particles_drawn_len(
    particles: Seq<Particle>,
    before: Seq<u32>,
    width: int,
    height: int,
)
    ensures
        particles_drawn(particles, before, width, height).len() == before.len(),
    decreases particles.len(),
{
    if particles.len() > 0 {
        lemma_particles_drawn_len(particles.drop_last(), before, width, height);
    }
}

/// Each particle one frame later.
pub open spec fn particles_advanced(particles: Seq<Particle>) -> Seq<Particle> {
    particles.map_values(|p: Particle| p.spec_advanced())
}

/// Those of `particles` that are still alive, in their order.
pub open spec fn particles_alive(particles: Seq<Particle>) -> Seq<Particle> {
    particles.filter(|p: Particle| p.spec_is_alive())
}

/// Advances every particle by one frame, draws it, and keeps those that
/// are still alive.
pub fn advance_particles(
    particles: &mut Vec<Particle>,
    buffer: &mut [u32],
    width: usize,
    height: usize,
)
    ensures
        final(particles)@ == particles_alive(particles_advanced(old(particles)@)),
        final(buffer)@ == particles_drawn(
            particles_advanced(old(particles)@),
            old(buffer)@,
            width as int,
            height as int,
        ),
        final(buffer)@.len() == old(buffer)@.len(),
        final(particles)@.len() <= old(particles)@.len(),
        forall|i: int| 0 <= i < final(particles)@.len() ==> (#[trigger] final(particles)@[i]).life > 0,
{
    let ghost all = particles_advanced(old(particles)@);
    let mut kept: Vec<Particle> = Vec::new();
    let n: usize = particles.len();
    let mut i: usize = 0;
    proof {
        reveal(Seq::filter);
        assert(all.take(0) =~= Seq::<Particle>::empty());
    }
    while i < n
        invariant
            i <= n,
            particles@ == old(particles)@,
            particles@.len() == n,
            all == particles_advanced(old(particles)@),
            all.len() == n,
            kept@ == particles_alive(all.take(i as int)),
            kept@.len() <= i,
            forall|j: int| 0 <= j < kept@.len() ==> (#[trigger] kept@[j]).life > 0,
            buffer@ == particles_drawn(all.take(i as int), old(buffer)@, width as int, height as int),
        decreases n - i,
    {
        let mut p: Particle = particles[i];
        let alive: bool = p.advance();
        p.draw(buffer, width, height);
        proof {
            reveal(Seq::filter);
            let now = all.take(i + 1);
            assert(now.drop_last() =~= all.take(i as int));
            assert(now.last() == p);
        }
        if alive {
            kept.push(p);
        }
        i += 1;
    }
    proof {
        assert(all.take(n as int) =~= all);
        lemma_particles_drawn_len(all, old(buffer)@, width as int, height as int);
    }
    *particles = kept;
}

/// Whether a sweep of squared radius `limit` around `(at_x, at_y)` matches
/// `star`: the star is not hit yet and projects to within the radius.
pub open spec fn sweep_matches(
    star: BigStar,
    width: int,
    height: int,
    at_x: int,
    at_y: int,
    limit: int,
) -> bool {
    !star.hit && star.spec_is_near(width, height, at_x, at_y, limit)
}

/// Number of `stars` that the sweep matches.
pub open spec fn count_matches(
    stars: Seq<BigStar>,
    width: int,
    height: int,
    at_x: int,
    at_y: int,
    limit: int,
) -> nat
    decreases stars.len(),
{
    if stars.len() == 0 {
        0
    } else {
        count_matches(stars.drop_last(), width, height, at_x, at_y, limit) + if sweep_matches(
            stars.last(),
            width,
            height,
            at_x,
            at_y,
            limit,
        ) {
            1nat
        } else {
            0nat
        }
    }
}

/// A sweep matches no more stars than there are.
pub proof fn lemma_count_matches_bound(
    stars: Seq<BigStar>,
    width: int,
    height: int,
    at_x: int,
    at_y: int,
    limit: int,
)
    ensures
        count_matches(stars, width, height, at_x, at_y, limit) <= stars.len(),
    decreases stars.len(),
{
    if stars.len() > 0 {
        lemma_count_matches_bound(stars.drop_last(), width, height, at_x, at_y, limit);
    }
}

/// `stars` with every star that the sweep matches marked hit.
pub open spec fn stars_marked(
    stars: Seq<BigStar>,
    width: int,
    height: int,
    at_x: int,
    at_y: int,
    limit: int,
) -> Seq<BigStar> {
    stars.map_values(
        |s: BigStar|
            if sweep_matches(s, width, height, at_x, at_y, limit) {
                BigStar { hit: true, ..s }
            } else {
                s
            },
    )
}

/// Every star that a sweep matches is gone once the hit stars are purged:
/// the survivors and the matches together are no more than the stars were.
pub proof fn lemma_matches_are_purged(
    stars: Seq<BigStar>,
    width: int,
    height: int,
    at_x: int,
    at_y: int,
    limit: int,
)
    ensures
        stars_marked(stars, width, height, at_x, at_y, limit).filter(|s: BigStar| !s.hit).len()
            + count_matches(stars, width, height, at_x, at_y, limit) <= stars.len(),
    decreases stars.len(),
{
    reveal(Seq::filter);
    let marked = stars_marked(stars, width, height, at_x, at_y, limit);
    if stars.len() > 0 {
        lemma_matches_are_purged(stars.drop_last(), width, height, at_x, at_y, limit);
        assert(marked.drop_last() =~= stars_marked(
            stars.drop_last(),
            width,
            height,
            at_x,
            at_y,
            limit,
        ));
    }
}

/// A pixel coordinate in millionths of a pixel, held within `i64`.
pub open spec fn spec_spark_origin(at: int) -> i64 {
    if at * 1_000_000 > i64::MAX {
        i64::MAX
    } else if at * 1_000_000 < i64::MIN {
        i64::MIN
    } else {
        (at * 1_000_000) as i64
    }
}

fn spark_origin(at: i64) -> (origin: i64)
    ensures
        origin == spec_spark_origin(at as int),
{
    let wide: i128 = (at as i128) * 1_000_000;
    if wide > i64::MAX as i128 {
        i64::MAX
    } else if wide < i64::MIN as i128 {
        i64::MIN
    } else {
        wide as i64
    }
}

/// Whether `p` is a spark as an explosion at pixel `(at_x, at_y)` throws
/// it: it starts there, with a velocity of `[-4, 4)` pixels per frame on each
/// axis and a whole life of `[50, 100)` frames before it.
pub open spec fn is_spark(p: Particle, at_x: int, at_y: int) -> bool {
    &&& p.x == spec_spark_origin(at_x)
    &&& p.y == spec_spark_origin(at_y)
    &&& -4_000_000 <= p.vx < 4_000_000
    &&& -4_000_000 <= p.vy < 4_000_000
    &&& 50 <= p.life < 100
    &&& p.initial_life == p.life
}

/// A star that is hit is matched by no sweep, wherever and however wide.
pub proof fn lemma_hit_star_is_never_matched(
    star: BigStar,
    width: int,
    height: int,
    at_x: int,
    at_y: int,
    limit: int,
)
    requires
        star.hit,
    ensures
        !sweep_matches(star, width, height, at_x, at_y, limit),
{
}

/// Once a sweep has marked its matches, no later sweep matches any of them
/// again: a second sweep, wherever and however wide, matches only stars that
/// the first did not match, and the same sweep repeated matches none.
pub proof fn lemma_sweep_matches_once(
    stars: Seq<BigStar>,
    width: int,
    height: int,
    at_x: int,
    at_y: int,
    limit: int,
    later_x: int,
    later_y: int,
    later_limit: int,
)
    ensures
        forall|i: int|
            0 <= i < stars.len() && sweep_matches(stars[i], width, height, at_x, at_y, limit)
                ==> !sweep_matches(
                #[trigger] stars_marked(stars, width, height, at_x, at_y, limit)[i],
                width,
                height,
                later_x,
                later_y,
                later_limit,
            ),
        count_matches(
            stars_marked(stars, width, height, at_x, at_y, limit),
            width,
            height,
            at_x,
            at_y,
            limit,
        ) == 0,
    decreases stars.len(),
{
    let marked = stars_marked(stars, width, height, at_x, at_y, limit);
    if stars.len() > 0 {
        lemma_sweep_matches_once(
            stars.drop_last(),
            width,
            height,
            at_x,
            at_y,
            limit,
            later_x,
            later_y,
            later_limit,
        );
        assert(marked.drop_last() =~= stars_marked(
            stars.drop_last(),
            width,
            height,
            at_x,
            at_y,
            limit,
        ));
    }
}

/// A session as a mathematical value: the fields of `GameState`, the
/// numbers as integers and the populations as sequences.
pub struct GameView {
    pub ship_x: int,
    pub ship_y: int,
    pub stars: Seq<Star>,
    pub big_stars: Seq<BigStar>,
    pub particles: Seq<Particle>,
    pub screen_shake_timer: int,
    pub shake_timer: int,
    pub shake_duration: int,
    pub space_cooldown_timer: int,
    pub collision_count: int,
    pub missed_count: int,
    pub total_seconds: int,
    pub redemption_flash_timer: int,
    pub near_stars: Seq<Star>,
    pub far_stars: Seq<Star>,
}

impl View for GameState {
    type V = GameView;

    open spec fn view(&self) -> GameView {
        GameView {
            ship_x: self.ship_x as int,
            ship_y: self.ship_y as int,
            stars: self.stars@,
            big_stars: self.big_stars@,
            particles: self.particles@,
            screen_shake_timer: self.screen_shake_timer as int,
            shake_timer: self.shake_timer as int,
            shake_duration: self.shake_duration as int,
            space_cooldown_timer: self.space_cooldown_timer as int,
            collision_count: self.collision_count as int,
            missed_count: self.missed_count as int,
            total_seconds: self.total_seconds as int,
            redemption_flash_timer: self.redemption_flash_timer as int,
            near_stars: self.near_stars@,
            far_stars: self.far_stars@,
        }
    }
}

impl GameView {
    /// The phase of the session: lost once ten big stars have escaped.
    pub open spec fn phase(self) -> Phase {
        if self.missed_count >= MAX_ESCAPED {
            Phase::GameOver
        } else {
            Phase::Running
        }
    }

    /// The state with the screen shake started anew.
    pub open spec fn shake_reset(self) -> GameView {
        GameView {
            screen_shake_timer: 10,
            shake_duration: SHAKE_FRAMES as int,
            shake_timer: SHAKE_FRAMES as int,
            ..self
        }
    }

    /// The state with one frame off the shake, unless it has run out.
    pub open spec fn shake_advanced(self) -> GameView {
        if self.shake_timer <= 0 {
            self
        } else {
            GameView { shake_timer: self.shake_timer - 1, ..self }
        }
    }

    /// The state after `hits` explosions are booked, one after the other:
    /// each counts as a collision and starts the shake anew; and each, as
    /// long as a miss stands on the record, forgives one miss and starts the
    /// redemption flash.
    pub open spec fn hits_booked(self, hits: int) -> GameView {
        if hits <= 0 {
            self
        } else {
            GameView {
                collision_count: self.collision_count + hits,
                missed_count: if self.missed_count > hits {
                    self.missed_count - hits
                } else {
                    0
                },
                redemption_flash_timer: if self.missed_count > 0 {
                    FLASH_FRAMES as int
                } else {
                    self.redemption_flash_timer
                },
                ..self.shake_reset()
            }
        }
    }

    /// How a sweep of squared radius `limit` around `(at_x, at_y)` changes
    /// the state: every big star that it matches is marked hit, each match is
    /// booked as an explosion, and each throws out `num_particles` sparks
    /// from the centre of the sweep; `hits` is the number of matches.
    pub open spec fn swept(
        self,
        after: GameView,
        hits: int,
        width: int,
        height: int,
        num_particles: int,
        at_x: int,
        at_y: int,
        limit: int,
    ) -> bool {
        &&& hits == count_matches(self.big_stars, width, height, at_x, at_y, limit)
        &&& after == (GameView {
            big_stars: stars_marked(self.big_stars, width, height, at_x, at_y, limit),
            particles: after.particles,
            ..self.hits_booked(hits)
        })
        &&& after.particles.len() == self.particles.len() + hits * num_particles
        &&& forall|i: int|
            0 <= i < self.particles.len() ==> #[trigger] after.particles[i] == self.particles[i]
        &&& forall|i: int|
            self.particles.len() <= i < after.particles.len() ==> is_spark(
                #[trigger] after.particles[i],
                at_x,
                at_y,
            )
    }

    /// The state with every big star that is hit purged.
    pub open spec fn purged(self) -> GameView {
        GameView { big_stars: self.big_stars.filter(|s: BigStar| !s.hit), ..self }
    }

    /// Where the ship stands along one axis after the keys `forth` and
    /// `back` are read: three pixels on if `forth` is down and the ship is
    /// more than three short of `extent`, then, if `back` is down and the
    /// ship is past zero, three pixels back, but no further than zero.
    pub open spec fn ship_moved(at: int, forth: bool, back: bool, extent: int) -> int {
        let pushed = if forth && at < extent - SHIP_STEP {
            at + SHIP_STEP
        } else {
            at
        };
        if back && pushed > 0 {
            if pushed >= SHIP_STEP {
                pushed - SHIP_STEP
            } else {
                0
            }
        } else {
            pushed
        }
    }

    /// A ship that is on the screen stays on it, whatever keys are down: it
    /// moves by at most three pixels and never leaves `[0, extent)`.
    pub proof fn lemma_ship_stays_on_screen(at: int, forth: bool, back: bool, extent: int)
        requires
            0 <= at < extent,
        ensures
            0 <= Self::ship_moved(at, forth, back, extent) < extent,
            at - SHIP_STEP <= Self::ship_moved(at, forth, back, extent) <= at + SHIP_STEP,
    {
    }

    /// Whether the fire key takes effect: it is down and the cooldown has
    /// run out.
    pub open spec fn fires(self, keys: Keys) -> bool {
        keys.space && self.space_cooldown_timer <= 0
    }

    /// The state once the ship has moved and, if the shot goes off, the
    /// cooldown has started anew.
    pub open spec fn steered(self, keys: Keys, width: int, height: int) -> GameView {
        GameView {
            ship_x: Self::ship_moved(self.ship_x, keys.right, keys.left, width),
            ship_y: Self::ship_moved(self.ship_y, keys.down, keys.up, height),
            space_cooldown_timer: if self.fires(keys) {
                FIRE_COOLDOWN as int
            } else {
                self.space_cooldown_timer
            },
            ..self
        }
    }

    /// How the passive collision check changes the state: the big stars
    /// within squared distance 12 of the ship, whose place on the screen is
    /// its own plus the shake offset, are swept, and every star that is hit
    /// is then purged; `hits` is the number of matches.
    pub open spec fn collided(
        self,
        after: GameView,
        hits: int,
        width: int,
        height: int,
        num_particles: int,
        offset_x: int,
        offset_y: int,
    ) -> bool {
        exists|swept: GameView| #[trigger]
            self.swept(
                swept,
                hits,
                width,
                height,
                num_particles,
                self.ship_x + offset_x,
                self.ship_y + offset_y,
                COLLISION_RADIUS_SQ as int,
            ) && after == swept.purged()
    }

    /// How reading the keys changes the state: the ship moves, and if the
    /// shot goes off, the cooldown starts anew and the big stars within
    /// squared distance 900 of the ship's new place are swept.
    pub open spec fn handled(
        self,
        after: GameView,
        keys: Keys,
        outcome: FireOutcome,
        width: int,
        height: int,
        num_particles: int,
    ) -> bool {
        let steered = self.steered(keys, width, height);
        &&& outcome.fired == self.fires(keys)
        &&& !outcome.fired ==> outcome.explosions == 0 && after == steered
        &&& outcome.fired ==> steered.swept(
            after,
            outcome.explosions as int,
            width,
            height,
            num_particles,
            steered.ship_x,
            steered.ship_y,
            FIRE_RADIUS_SQ as int,
        )
    }

    /// How one frame's update changes the state and the buffer, whatever
    /// chance decides. The buffer is cleared; the far, near and plain stars
    /// each fare as `star_stepped` says; the big stars fare as
    /// `big_stars_updated` says, with `missed` escapes counted; the particles
    /// age and the spent ones are dropped; counters and timers are `ticked`.
    /// The layers are drawn in the order far stars, near stars, plain stars,
    /// big stars, particles.
    pub open spec fn updated(
        self,
        after: GameView,
        old_buffer: Seq<u32>,
        new_buffer: Seq<u32>,
        missed: int,
        width: int,
        height: int,
    ) -> bool {
        &&& after == (GameView {
            stars: after.stars,
            near_stars: after.near_stars,
            far_stars: after.far_stars,
            big_stars: after.big_stars,
            particles: particles_alive(particles_advanced(self.particles)),
            ..self.ticked(missed)
        })
        &&& after.far_stars.len() == self.far_stars.len()
        &&& after.near_stars.len() == self.near_stars.len()
        &&& after.stars.len() == self.stars.len()
        &&& forall|i: int|
            0 <= i < self.far_stars.len() ==> star_stepped(
                self.far_stars[i],
                #[trigger] after.far_stars[i],
                FAR_SPEED as int,
            )
        &&& forall|i: int|
            0 <= i < self.near_stars.len() ==> star_stepped(
                self.near_stars[i],
                #[trigger] after.near_stars[i],
                NEAR_SPEED as int,
            )
        &&& forall|i: int|
            0 <= i < self.stars.len() ==> star_stepped(
                self.stars[i],
                #[trigger] after.stars[i],
                PLAIN_SPEED as int,
            )
        &&& exists|with_big_stars: Seq<u32>| #[trigger]
            big_stars_updated(
                self.big_stars,
                after.big_stars,
                stars_drawn(
                    after.stars,
                    stars_drawn(
                        after.near_stars,
                        stars_drawn(
                            after.far_stars,
                            crate::canvas::blank(old_buffer.len()),
                            width,
                            height,
                        ),
                        width,
                        height,
                    ),
                    width,
                    height,
                ),
                with_big_stars,
                missed,
                width,
                height,
                self.ship_x,
                self.ship_y,
            ) && new_buffer == particles_drawn(
                particles_advanced(self.particles),
                with_big_stars,
                width,
                height,
            )
    }

    /// The three steps of a frame, with the states between them laid open:
    /// the update leads to `updated`, the collision check from there to
    /// `collided`, and the keys from there to `after`.
    pub open spec fn frame_steps(
        self,
        updated: GameView,
        collided: GameView,
        after: GameView,
        old_buffer: Seq<u32>,
        new_buffer: Seq<u32>,
        keys: Keys,
        outcome: FrameOutcome,
        width: int,
        height: int,
        num_particles: int,
        offset_x: int,
        offset_y: int,
    ) -> bool {
        &&& self.updated(updated, old_buffer, new_buffer, outcome.missed as int, width, height)
        &&& updated.collided(
            collided,
            outcome.collisions as int,
            width,
            height,
            num_particles,
            offset_x,
            offset_y,
        )
        &&& collided.handled(after, keys, outcome.fire, width, height, num_particles)
    }

    /// How one frame of a running session changes the state and the
    /// buffer: the update, then the collision check, then the keys.
    pub open spec fn framed(
        self,
        after: GameView,
        old_buffer: Seq<u32>,
        new_buffer: Seq<u32>,
        keys: Keys,
        outcome: FrameOutcome,
        width: int,
        height: int,
        num_particles: int,
        offset_x: int,
        offset_y: int,
    ) -> bool {
        exists|updated: GameView, collided: GameView| #[trigger]
            self.frame_steps(
                updated,
                collided,
                after,
                old_buffer,
                new_buffer,
                keys,
                outcome,
                width,
                height,
                num_particles,
                offset_x,
                offset_y,
            )
    }

    /// The counters and timers after one frame in which `missed` escapes
    /// were counted: the cooldown and the flash one frame shorter, unless run
    /// out; the misses added; one more frame on the clock.
    pub open spec fn ticked(self, missed: int) -> GameView {
        GameView {
            space_cooldown_timer: if self.space_cooldown_timer > 0 {
                self.space_cooldown_timer - 1
            } else {
                self.space_cooldown_timer
            },
            missed_count: self.missed_count + missed,
            total_seconds: self.total_seconds + 1,
            redemption_flash_timer: if self.redemption_flash_timer > 0 {
                self.redemption_flash_timer - 1
            } else {
                self.redemption_flash_timer
            },
            ..self
        }
    }
}

impl GameState {
    /// A session at its start: the ship at the middle of the screen,
    /// `num_stars` plain stars and half as many near and far stars at random
    /// places, no big star, no particle, every counter and timer at zero.
    pub fn new(width: usize, height: usize, num_stars: usize) -> (state: Self)
        requires
            width / 2 <= i32::MAX,
            height / 2 <= i32::MAX,
        ensures
            state@ == (GameView {
                ship_x: width as int / 2,
                ship_y: height as int / 2,
                stars: state@.stars,
                big_stars: Seq::empty(),
                particles: Seq::empty(),
                screen_shake_timer: 0,
                shake_timer: 0,
                shake_duration: 0,
                space_cooldown_timer: 0,
                collision_count: 0,
                missed_count: 0,
                total_seconds: 0,
                redemption_flash_timer: 0,
                near_stars: state@.near_stars,
                far_stars: state@.far_stars,
            }),
            state@.stars.len() == num_stars,
            state@.near_stars.len() == num_stars / 2,
            state@.far_stars.len() == num_stars / 2,
            forall|i: int|
                0 <= i < state@.stars.len() ==> star_spawned_within(
                    #[trigger] state@.stars[i],
                    100_000,
                    1_000_000,
                ),
            forall|i: int|
                0 <= i < state@.near_stars.len() ==> star_spawned_within(
                    #[trigger] state@.near_stars[i],
                    100_000,
                    1_000_000,
                ),
            forall|i: int|
                0 <= i < state@.far_stars.len() ==> star_spawned_within(
                    #[trigger] state@.far_stars[i],
                    1_000_000,
                    2_500_000,
                ),
            state@.phase() == Phase::Running,
    {
        let stars = random_stars(num_stars, 100_000, 1_000_000);
        let near_stars = random_stars(num_stars / 2, 100_000, 1_000_000);
        let far_stars = random_stars(num_stars / 2, 1_000_000, 2_500_000);
        let state = GameState {
            ship_x: (width / 2) as i32,
            ship_y: (height / 2) as i32,
            stars,
            big_stars: Vec::new(),
            particles: Vec::new(),
            screen_shake_timer: 0,
            shake_timer: 0,
            shake_duration: 0,
            space_cooldown_timer: 0,
            collision_count: 0,
            missed_count: 0,
            total_seconds: 0,
            redemption_flash_timer: 0,
            near_stars,
            far_stars,
        };
        proof {
            assert(state@.big_stars =~= Seq::empty());
            assert(state@.particles =~= Seq::empty());
        }
        state
    }

    /// The phase of the session.
    pub fn phase(&self) -> (p: Phase)
        ensures
            p == self@.phase(),
    {
        if self.missed_count >= MAX_ESCAPED {
            Phase::GameOver
        } else {
            Phase::Running
        }
    }

    /// Starts the screen shake anew.
    pub fn reset_shake(&mut self)
        ensures
            final(self)@ == old(self)@.shake_reset(),
    {
        self.screen_shake_timer = 10;
        self.shake_duration = SHAKE_FRAMES;
        self.shake_timer = self.shake_duration;
    }

    /// Where the shake stands, and one frame off its timer. `None` once the
    /// timer has run out: the offset is then `(0, 0)`. Otherwise the offset
    /// is a sine of the progress `1 - remaining / duration`, of amplitude
    /// `5 * remaining / duration`, which the caller takes; to be called once
    /// per frame.
    pub fn shake_offsets(&mut self) -> (phase: Option<ShakePhase>)
        ensures
            final(self)@ == old(self)@.shake_advanced(),
            phase == if old(self).shake_timer == 0 {
                None
            } else {
                Some(
                    ShakePhase {
                        remaining: old(self).shake_timer,
                        duration: old(self).shake_duration,
                    },
                )
            },
    {
        if self.shake_timer == 0 {
            return None;
        }
        let phase = ShakePhase { remaining: self.shake_timer, duration: self.shake_duration };
        self.shake_timer = self.shake_timer - 1;
        Some(phase)
    }

    /// The same as `shake_offsets`.
    pub fn _shake_offsets(&mut self) -> (phase: Option<ShakePhase>)
        ensures
            final(self)@ == old(self)@.shake_advanced(),
            phase == if old(self).shake_timer == 0 {
                None
            } else {
                Some(
                    ShakePhase {
                        remaining: old(self).shake_timer,
                        duration: old(self).shake_duration,
                    },
                )
            },
    {
        self.shake_offsets()
    }

    /// Books one explosion: one more collision, the shake started anew and,
    /// if any miss stands on the record, one miss forgiven and the
    /// redemption flash started.
    pub fn register_hit(&mut self)
        requires
            old(self).collision_count < usize::MAX,
        ensures
            final(self)@ == old(self)@.hits_booked(1),
            old(self).missed_count > 0 ==> final(self).missed_count == old(self).missed_count - 1
                && final(self).redemption_flash_timer > 0,
    {
        self.reset_shake();
        self.collision_count += 1;
        if self.missed_count > 0 {
            self.missed_count -= 1;
            self.redemption_flash_timer = FLASH_FRAMES;
        }
    }

    /// Sweeps the big stars around `(at_x, at_y)`: first finds the matches,
    /// then marks and books each one.
    fn explode_matches(
        &mut self,
        width: usize,
        height: usize,
        num_particles: usize,
        at_x: i64,
        at_y: i64,
        limit: u32,
    ) -> (hits: usize)
        requires
            old(self).collision_count + old(self).big_stars@.len() <= usize::MAX,
        ensures
            old(self)@.swept(
                final(self)@,
                hits as int,
                width as int,
                height as int,
                num_particles as int,
                at_x as int,
                at_y as int,
                limit as int,
            ),
    {
        let n: usize = self.big_stars.len();
        let mut matched: Vec<bool> = Vec::new();
        let mut i: usize = 0;
        while i < n
            invariant
                i <= n,
                *self == *old(self),
                n == self.big_stars@.len(),
                matched@.len() == i,
                forall|j: int|
                    0 <= j < i ==> #[trigger] matched@[j] == sweep_matches(
                        self.big_stars@[j],
                        width as int,
                        height as int,
                        at_x as int,
                        at_y as int,
                        limit as int,
                    ),
            decreases n - i,
        {
            let star: BigStar = self.big_stars[i];
            let m: bool = !star.hit && star.is_near(width, height, at_x, at_y, limit);
            matched.push(m);
            i += 1;
        }
        let origin_x: i64 = spark_origin(at_x);
        let origin_y: i64 = spark_origin(at_y);
        let mut hits: usize = 0;
        let mut k: usize = 0;
        proof {
            assert(old(self).big_stars@.take(0) =~= Seq::<BigStar>::empty());
            assert(self.big_stars@ =~= stars_marked(
                old(self).big_stars@.take(0),
                width as int,
                height as int,
                at_x as int,
                at_y as int,
                limit as int,
            ) + old(self).big_stars@.skip(0));
        }
        while k < n
            invariant
                k <= n,
                hits <= k,
                n == old(self).big_stars@.len(),
                old(self).collision_count + n <= usize::MAX,
                matched@.len() == n,
                origin_x == spec_spark_origin(at_x as int),
                origin_y == spec_spark_origin(at_y as int),
                forall|j: int|
                    0 <= j < n ==> #[trigger] matched@[j] == sweep_matches(
                        old(self).big_stars@[j],
                        width as int,
                        height as int,
                        at_x as int,
                        at_y as int,
                        limit as int,
                    ),
                hits == count_matches(
                    old(self).big_stars@.take(k as int),
                    width as int,
                    height as int,
                    at_x as int,
                    at_y as int,
                    limit as int,
                ),
                self@ == (GameView {
                    big_stars: self.big_stars@,
                    particles: self.particles@,
                    ..old(self)@.hits_booked(hits as int)
                }),
                self.big_stars@ == stars_marked(
                    old(self).big_stars@.take(k as int),
                    width as int,
                    height as int,
                    at_x as int,
                    at_y as int,
                    limit as int,
                ) + old(self).big_stars@.skip(k as int),
                self.particles@.len() == old(self).particles@.len() + hits * num_particles,
                forall|i: int|
                    0 <= i < old(self).particles@.len() ==> #[trigger] self.particles@[i] == old(
                        self,
                    ).particles@[i],
                forall|i: int|
                    old(self).particles@.len() <= i < self.particles@.len() ==> is_spark(
                        #[trigger] self.particles@[i],
                        at_x as int,
                        at_y as int,
                    ),
            decreases n - k,
        {
            let ghost before_stars = self.big_stars@;
            let ghost done = old(self).big_stars@.take(k as int);
            proof {
                let now = old(self).big_stars@.take(k + 1);
                assert(now.drop_last() =~= done);
                assert(now.last() == old(self).big_stars@[k as int]);
                assert(before_stars[k as int] == old(self).big_stars@[k as int]);
            }
            if matched[k] {
                let mut star: BigStar = self.big_stars[k];
                star.hit = true;
                self.big_stars[k] = star;
                self.register_hit();
                let ghost base = self.particles@.len();
                let mut c: usize = 0;
                while c < num_particles
                    invariant
                        c <= num_particles,
                        k < n,
                        before_stars.len() == n,
                        origin_x == spec_spark_origin(at_x as int),
                        origin_y == spec_spark_origin(at_y as int),
                        self@ == (GameView {
                            big_stars: self.big_stars@,
                            particles: self.particles@,
                            ..old(self)@.hits_booked(hits + 1)
                        }),
                        self.big_stars@ == before_stars.update(
                            k as int,
                            BigStar { hit: true, ..before_stars[k as int] },
                        ),
                        self.particles@.len() == base + c,
                        base == old(self).particles@.len() + hits * num_particles,
                        forall|i: int|
                            0 <= i < old(self).particles@.len() ==> #[trigger] self.particles@[i]
                                == old(self).particles@[i],
                        forall|i: int|
                            old(self).particles@.len() <= i < self.particles@.len() ==> is_spark(
                                #[trigger] self.particles@[i],
                                at_x as int,
                                at_y as int,
                            ),
                    decreases num_particles - c,
                {
                    let life: i32 = random_in(SPARK_LIFE_MIN, SPARK_LIFE_MAX);
                    let vx: i32 = random_in(-SPARK_SPEED, SPARK_SPEED);
                    let vy: i32 = random_in(-SPARK_SPEED, SPARK_SPEED);
                    self.particles.push(
                        Particle {
                            x: origin_x,
                            y: origin_y,
                            vx,
                            vy,
                            life: life as u32,
                            initial_life: life as u32,
                        },
                    );
                    c += 1;
                }
                proof {
                    assert((hits + 1) * num_particles == hits * num_particles + num_particles)
                        by (nonlinear_arith);
                }
                hits += 1;
            }
            proof {
                assert(self.big_stars@ =~= stars_marked(
                    old(self).big_stars@.take(k + 1),
                    width as int,
                    height as int,
                    at_x as int,
                    at_y as int,
                    limit as int,
                ) + old(self).big_stars@.skip(k + 1));
            }
            k += 1;
        }
        proof {
            assert(old(self).big_stars@.take(n as int) =~= old(self).big_stars@);
            assert(old(self).big_stars@.skip(n as int) =~= Seq::<BigStar>::empty());
            assert(self.big_stars@ =~= stars_marked(
                old(self).big_stars@,
                width as int,
                height as int,
                at_x as int,
                at_y as int,
                limit as int,
            ));
        }
        hits
    }

    /// The passive collision check, once per frame: sweeps the big stars
    /// within squared distance 12 of the ship, whose place on the screen is
    /// its own plus the shake offset, books every match as `GameView::swept`
    /// says, then purges every star that is hit. Returns the number of
    /// matches, each of which is due a crunch tone.
    pub fn check_collisions(
        &mut self,
        width: usize,
        height: usize,
        num_particles: usize,
        offset_x: i32,
        offset_y: i32,
    ) -> (hits: usize)
        requires
            old(self).collision_count + old(self).big_stars@.len() <= usize::MAX,
        ensures
            old(self)@.collided(
                final(self)@,
                hits as int,
                width as int,
                height as int,
                num_particles as int,
                offset_x as int,
                offset_y as int,
            ),
            hits == count_matches(
                old(self)@.big_stars,
                width as int,
                height as int,
                old(self).ship_x + offset_x,
                old(self).ship_y + offset_y,
                COLLISION_RADIUS_SQ as int,
            ),
            final(self)@.big_stars == stars_marked(
                old(self)@.big_stars,
                width as int,
                height as int,
                old(self).ship_x + offset_x,
                old(self).ship_y + offset_y,
                COLLISION_RADIUS_SQ as int,
            ).filter(|s: BigStar| !s.hit),
            forall|i: int|
                0 <= i < final(self)@.big_stars.len() ==> !(#[trigger] final(self)@.big_stars[i]).hit,
            final(self)@.big_stars.len() + hits <= old(self)@.big_stars.len(),
            final(self)@.collision_count == old(self)@.collision_count + hits,
            final(self)@.missed_count == if old(self)@.missed_count > hits {
                old(self)@.missed_count - hits
            } else {
                0
            },
            hits > 0 && old(self)@.missed_count > 0 ==> final(self)@.redemption_flash_timer
                == FLASH_FRAMES,
            hits == 0 || old(self)@.missed_count == 0 ==> final(self)@.redemption_flash_timer == old(
                self,
            )@.redemption_flash_timer,
    {
        let at_x: i64 = self.ship_x as i64 + offset_x as i64;
        let at_y: i64 = self.ship_y as i64 + offset_y as i64;
        let hits: usize = self.explode_matches(
            width,
            height,
            num_particles,
            at_x,
            at_y,
            COLLISION_RADIUS_SQ,
        );
        let ghost swept = self@;
        proof {
            lemma_matches_are_purged(
                old(self)@.big_stars,
                width as int,
                height as int,
                at_x as int,
                at_y as int,
                COLLISION_RADIUS_SQ as int,
            );
            lemma_count_matches_bound(
                old(self)@.big_stars,
                width as int,
                height as int,
                at_x as int,
                at_y as int,
                COLLISION_RADIUS_SQ as int,
            );
        }
        let mut kept: Vec<BigStar> = Vec::new();
        let n: usize = self.big_stars.len();
        let mut i: usize = 0;
        proof {
            reveal(Seq::filter);
            assert(swept.big_stars.take(0) =~= Seq::<BigStar>::empty());
        }
        while i < n
            invariant
                i <= n,
                self@ == swept,
                n == swept.big_stars.len(),
                kept@ == swept.big_stars.take(i as int).filter(|s: BigStar| !s.hit),
                forall|j: int| 0 <= j < kept@.len() ==> !(#[trigger] kept@[j]).hit,
            decreases n - i,
        {
            let star: BigStar = self.big_stars[i];
            proof {
                reveal(Seq::filter);
                let now = swept.big_stars.take(i + 1);
                assert(now.drop_last() =~= swept.big_stars.take(i as int));
                assert(now.last() == star);
            }
            if !star.hit {
                kept.push(star);
            }
            i += 1;
        }
        proof {
            assert(swept.big_stars.take(n as int) =~= swept.big_stars);
        }
        self.big_stars = kept;
        proof {
            assert(old(self)@.swept(
                swept,
                hits as int,
                width as int,
                height as int,
                num_particles as int,
                old(self).ship_x + offset_x,
                old(self).ship_y + offset_y,
                COLLISION_RADIUS_SQ as int,
            ));
            assert(self@ == swept.purged());
        }
        hits
    }

    /// Reads the keys. The ship moves three pixels per frame along each
    /// axis, held on the screen. If the fire key is down and the cooldown has run out, the shot
    /// goes off: the cooldown starts anew and the big stars within squared
    /// distance 900 of the ship are swept, each match booked as
    /// `GameView::swept` says. The outcome says whether the shot went off,
    /// which is due a laser tone, and how many stars it exploded, each of
    /// which is due a boom.
    pub fn handle_input(
        &mut self,
        keys: Keys,
        width: usize,
        height: usize,
        num_particles: usize,
    ) -> (outcome: FireOutcome)
        requires
            width <= i32::MAX,
            height <= i32::MAX,
            old(self).collision_count + old(self).big_stars@.len() <= usize::MAX,
        ensures
            old(self)@.handled(
                final(self)@,
                keys,
                outcome,
                width as int,
                height as int,
                num_particles as int,
            ),
            final(self)@.big_stars.len() == old(self)@.big_stars.len(),
            final(self)@.ship_x == GameView::ship_moved(
                old(self)@.ship_x,
                keys.right,
                keys.left,
                width as int,
            ),
            final(self)@.ship_y == GameView::ship_moved(
                old(self)@.ship_y,
                keys.down,
                keys.up,
                height as int,
            ),
            0 <= old(self).ship_x < width ==> 0 <= final(self).ship_x < width,
            0 <= old(self).ship_y < height ==> 0 <= final(self).ship_y < height,
    {
        if keys.right && self.ship_x < width as i32 - SHIP_STEP {
            self.ship_x += SHIP_STEP;
        }
        if keys.left && self.ship_x > 0 {
            self.ship_x = if self.ship_x >= SHIP_STEP {
                self.ship_x - SHIP_STEP
            } else {
                0
            };
        }
        if keys.down && self.ship_y < height as i32 - SHIP_STEP {
            self.ship_y += SHIP_STEP;
        }
        if keys.up && self.ship_y > 0 {
            self.ship_y = if self.ship_y >= SHIP_STEP {
                self.ship_y - SHIP_STEP
            } else {
                0
            };
        }
        if keys.space && self.space_cooldown_timer == 0 {
            self.space_cooldown_timer = FIRE_COOLDOWN;
            let at_x: i64 = self.ship_x as i64;
            let at_y: i64 = self.ship_y as i64;
            let explosions: usize = self.explode_matches(
                width,
                height,
                num_particles,
                at_x,
                at_y,
                FIRE_RADIUS_SQ,
            );
            FireOutcome { fired: true, explosions }
        } else {
            FireOutcome { fired: false, explosions: 0 }
        }
    }

    /// Advances and draws the far and then the near layer of ambient stars.
    pub fn update_starfield(&mut self, buffer: &mut [u32], width: usize, height: usize)
        ensures
            final(self)@ == (GameView {
                far_stars: final(self)@.far_stars,
                near_stars: final(self)@.near_stars,
                ..old(self)@
            }),
            final(self)@.far_stars.len() == old(self)@.far_stars.len(),
            final(self)@.near_stars.len() == old(self)@.near_stars.len(),
            forall|i: int|
                0 <= i < old(self)@.far_stars.len() ==> star_stepped(
                    old(self)@.far_stars[i],
                    #[trigger] final(self)@.far_stars[i],
                    FAR_SPEED as int,
                ),
            forall|i: int|
                0 <= i < old(self)@.near_stars.len() ==> star_stepped(
                    old(self)@.near_stars[i],
                    #[trigger] final(self)@.near_stars[i],
                    NEAR_SPEED as int,
                ),
            final(buffer)@ == stars_drawn(
                final(self)@.near_stars,
                stars_drawn(final(self)@.far_stars, old(buffer)@, width as int, height as int),
                width as int,
                height as int,
            ),
            final(buffer)@.len() == old(buffer)@.len(),
    {
        draw_stars(&mut self.far_stars, buffer, width, height, FAR_SPEED);
        draw_stars(&mut self.near_stars, buffer, width, height, NEAR_SPEED);
    }

    /// Advances and draws the big stars; returns the number of escapes
    /// that count as misses this frame.
    pub fn update_big_stars(&mut self, buffer: &mut [u32], width: usize, height: usize) -> (missed:
        usize)
        ensures
            final(self)@ == (GameView { big_stars: final(self)@.big_stars, ..old(self)@ }),
            big_stars_updated(
                old(self)@.big_stars,
                final(self)@.big_stars,
                old(buffer)@,
                final(buffer)@,
                missed as int,
                width as int,
                height as int,
                old(self)@.ship_x,
                old(self)@.ship_y,
            ),
            final(buffer)@.len() == old(buffer)@.len(),
            old(self)@.big_stars.len() <= final(self)@.big_stars.len() <= old(self)@.big_stars.len()
                + 1,
            missed <= final(self)@.big_stars.len(),
    {
        let ship_x: i32 = self.ship_x;
        let ship_y: i32 = self.ship_y;
        advance_big_stars(&mut self.big_stars, buffer, width, height, ship_x, ship_y)
    }

    /// Advances and draws the particles, and drops those whose life has run
    /// out.
    pub fn update_particles(&mut self, buffer: &mut [u32], width: usize, height: usize)
        ensures
            final(self)@ == (GameView {
                particles: particles_alive(particles_advanced(old(self)@.particles)),
                ..old(self)@
            }),
            final(buffer)@ == particles_drawn(
                particles_advanced(old(self)@.particles),
                old(buffer)@,
                width as int,
                height as int,
            ),
            final(buffer)@.len() == old(buffer)@.len(),
            forall|i: int|
                0 <= i < final(self)@.particles.len() ==> (#[trigger] final(self)@.particles[i]).life
                    > 0,
    {
        advance_particles(&mut self.particles, buffer, width, height);
    }

    /// One frame: clears the buffer, runs down the cooldown, advances and
    /// draws the far, near and plain stars, the big stars and the particles,
    /// in that order, adds the escapes that count to the misses, and runs the
    /// clock and the flash. Returns the number of escapes
    /// counted this frame; if it is not zero, a miss tone is due.
    pub fn update(&mut self, buffer: &mut [u32], width: usize, height: usize) -> (missed: usize)
        requires
            old(self).total_seconds < usize::MAX,
            old(self).missed_count + old(self).big_stars@.len() + 1 <= usize::MAX,
        ensures
            old(self)@.updated(
                final(self)@,
                old(buffer)@,
                final(buffer)@,
                missed as int,
                width as int,
                height as int,
            ),
            final(self)@.missed_count == old(self)@.missed_count + missed,
            final(self)@.total_seconds == old(self)@.total_seconds + 1,
            old(self)@.big_stars.len() <= final(self)@.big_stars.len() <= old(self)@.big_stars.len()
                + 1,
            missed <= final(self)@.big_stars.len(),
            final(buffer)@.len() == old(buffer)@.len(),
    {
        crate::canvas::clear(buffer);
        if self.space_cooldown_timer > 0 {
            self.space_cooldown_timer -= 1;
        }
        self.update_starfield(buffer, width, height);
        draw_stars(&mut self.stars, buffer, width, height, PLAIN_SPEED);
        let missed: usize = self.update_big_stars(buffer, width, height);
        if missed > 0 {
            self.missed_count += missed;
        }
        self.update_particles(buffer, width, height);
        self.total_seconds += 1;
        if self.redemption_flash_timer > 0 {
            self.redemption_flash_timer -= 1;
        }
        missed
    }

    /// One frame of the session: the update, then the collision check at the
    /// ship's shaken place, then the keys. A session that is over is
    /// terminal: the frame then changes neither the state nor the buffer. The
    /// outcome tells what sounds are due and whether the session is over
    /// after the frame.
    pub fn frame(
        &mut self,
        buffer: &mut [u32],
        keys: Keys,
        width: usize,
        height: usize,
        num_particles: usize,
        offset_x: i32,
        offset_y: i32,
    ) -> (outcome: FrameOutcome)
        requires
            width <= i32::MAX,
            height <= i32::MAX,
            old(self).total_seconds < usize::MAX,
            old(self).missed_count + old(self).big_stars@.len() + 1 <= usize::MAX,
            old(self).collision_count + old(self).big_stars@.len() + 1 <= usize::MAX,
        ensures
            outcome.phase == final(self)@.phase(),
            0 <= old(self).ship_x < width ==> 0 <= final(self).ship_x < width,
            0 <= old(self).ship_y < height ==> 0 <= final(self).ship_y < height,
            old(self)@.phase() == Phase::GameOver ==> final(self)@ == old(self)@ && final(buffer)@
                == old(buffer)@ && outcome == (FrameOutcome {
                phase: Phase::GameOver,
                missed: 0,
                collisions: 0,
                fire: FireOutcome { fired: false, explosions: 0 },
            }),
            old(self)@.phase() == Phase::Running ==> old(self)@.framed(
                final(self)@,
                old(buffer)@,
                final(buffer)@,
                keys,
                outcome,
                width as int,
                height as int,
                num_particles as int,
                offset_x as int,
                offset_y as int,
            ),
    {
        if self.missed_count >= MAX_ESCAPED {
            return FrameOutcome {
                phase: Phase::GameOver,
                missed: 0,
                collisions: 0,
                fire: FireOutcome { fired: false, explosions: 0 },
            };
        }
        let missed: usize = self.update(buffer, width, height);
        let ghost updated = self@;
        let collisions: usize = self.check_collisions(
            width,
            height,
            num_particles,
            offset_x,
            offset_y,
        );
        let ghost collided = self@;
        let fire: FireOutcome = self.handle_input(keys, width, height, num_particles);
        let outcome = FrameOutcome { phase: self.phase(), missed, collisions, fire };
        proof {
            assert(old(self)@.frame_steps(
                updated,
                collided,
                self@,
                old(buffer)@,
                buffer@,
                keys,
                outcome,
                width as int,
                height as int,
                num_particles as int,
                offset_x as int,
                offset_y as int,
            ));
        }
        outcome
    }
}

} // verus!
