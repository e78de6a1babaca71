//! Placement of new rocks and wormholes in a ring around a point that must
//! stay clear, each with a random course.

use vstd::prelude::*;
use crate::actor::{
    Actor, ActorType, DEFAULT_LAYER, WORMHOLE_LAYER, blank, create_rock, create_wormhole,
};
use crate::fixed::{
    COORD_MAX, ONE, fx_mul_spec, lemma_trunc_div_bounds, lemma_trunc_div_le, trunc_div,
};
use crate::trig::{TWO_PI, lemma_heading_is_unit, vec_from_angle, vec_from_angle_spec};
use crate::vector::{
    Vector, lemma_product_bound, lemma_scaled_lower, lemma_scaled_upper, norm_sq, scale_slack,
};

verus! {

/// No rock starts faster than this: 50 units per second.
pub const MAX_ROCK_VEL: i64 = 3_000_000;

/// No wormhole starts faster than this: 25 units per second.
pub const MAX_WORMHOLE_VEL: i64 = 1_500_000;

/// The four random numbers that place one actor, in the order they are drawn.
#[derive(Clone, Copy, Debug, PartialEq, Eq, Structural)]
pub struct SpawnDraws {
    /// Direction from the centre of the ring.
    pub angle: u32,
    /// Distance from the centre, within the ring.
    pub distance: u32,
    /// Direction of travel.
    pub course: u32,
    /// Speed, below the limit of the kind.
    pub speed: u32,
}

/// A 32-bit number from `rand::random`, which draws it uniformly from the
/// generator of the calling thread. Nothing is claimed of the value.
#[verifier::external_body]
fn random_u32() -> (r: u32) {
    rand::random::<u32>()
}

/// The part `r / 2^32` of `range`, rounded toward zero.
pub open spec fn fraction_of(r: u32, range: int) -> int {
    trunc_div(r * range, 4_294_967_296)
}

/// The angle that a draw stands for, in `[0, 2 pi)`.
pub open spec fn angle_of(r: u32) -> int {
    fraction_of(r, TWO_PI as int)
}

/// A vector along the course that `course` stands for, of the length that
/// `speed` stands for in `[0, max_magnitude)`. Lengths are spread evenly,
/// so short vectors are as likely as long ones.
pub open spec fn random_vec_spec(max_magnitude: int, course: u32, speed: u32) -> Vector {
    vec_from_angle_spec(angle_of(course)).scale_spec(fraction_of(speed, max_magnitude))
}

/// The distance from the centre that a draw stands for, in `[min_radius, max_radius)`.
pub open spec fn radius_of(r: u32, min_radius: int, max_radius: int) -> int {
    min_radius + fraction_of(r, max_radius - min_radius)
}

/// `template` put where the draws say: at the drawn distance from
/// `exclusion` in the drawn direction, on the drawn course.
pub open spec fn placed(
    template: Actor,
    exclusion: Vector,
    min_radius: int,
    max_radius: int,
    max_speed: int,
    d: SpawnDraws,
) -> Actor {
    let offset = vec_from_angle_spec(angle_of(d.angle)).scale_spec(
        radius_of(d.distance, min_radius, max_radius),
    );
    Actor {
        pos: exclusion.plus_spec(offset),
        velocity: random_vec_spec(max_speed, d.course, d.speed),
        ..template
    }
}

/// Some four draws put `template` where `a` is.
pub open spec fn spawned(
    a: Actor,
    template: Actor,
    exclusion: Vector,
    min_radius: int,
    max_radius: int,
    max_speed: int,
) -> bool {
    exists|d: SpawnDraws| a == #[trigger] placed(template, exclusion, min_radius, max_radius, max_speed, d)
}

/// The least distance that rounding leaves of a distance `k` along a heading.
pub open spec fn reach_floor(k: int) -> int {
    if k >= scale_slack(k) {
        k - scale_slack(k)
    } else {
        0
    }
}

/// `p` lies in the ring around `centre`: nearer than `max_radius`, and no
/// nearer than `min_radius` but for rounding.
pub open spec fn in_ring(p: Vector, centre: Vector, min_radius: int, max_radius: int) -> bool {
    &&& p.dist2_spec(centre) < max_radius * max_radius
    &&& p.dist2_spec(centre) >= reach_floor(min_radius) * reach_floor(min_radius)
}

/// A part of a range lies in the range, and never reaches its far end.
pub proof fn lemma_fraction_bounds(r: u32, range: int)
    ensures
        range > 0 ==> 0 <= fraction_of(r, range) < range,
        range == 0 ==> fraction_of(r, range) == 0,
        range < 0 ==> range < fraction_of(r, range) <= 0,
{
    let p = r * range;
    let w = 4_294_967_296int;
    lemma_trunc_div_bounds(p, w);
    let q = trunc_div(p, w);
    if range > 0 {
        assert(0 <= p < w * range) by (nonlinear_arith)
            requires
                p == r * range,
                0 <= r < w,
                range > 0,
        ;
        assert(q < range) by (nonlinear_arith)
            requires
                w * q <= p,
                p < w * range,
                w > 0,
        ;
    } else if range == 0 {
        assert(p == 0) by (nonlinear_arith)
            requires
                p == r * range,
                range == 0,
        ;
    } else {
        assert(0 >= p > w * range) by (nonlinear_arith)
            requires
                p == r * range,
                0 <= r < w,
                range < 0,
        ;
        assert(q > range) by (nonlinear_arith)
            requires
                w * q >= p,
                p > w * range,
                w > 0,
        ;
    }
}

/// Spawn containment: whatever the draws, the actor is put inside the ring
/// (up to the rounding that `reach_floor` allows at its inner edge), and its
/// speed is below the limit handed in.
pub proof fn lemma_placed_in_ring(
    template: Actor,
    exclusion: Vector,
    min_radius: int,
    max_radius: int,
    max_speed: int,
    d: SpawnDraws,
)
    requires
        exclusion.within(COORD_MAX as int),
        0 <= min_radius < max_radius <= COORD_MAX,
        0 <= max_speed <= COORD_MAX,
    ensures
        in_ring(
            placed(template, exclusion, min_radius, max_radius, max_speed, d).pos,
            exclusion,
            min_radius,
            max_radius,
        ),
        max_speed > 0 ==> placed(
            template,
            exclusion,
            min_radius,
            max_radius,
            max_speed,
            d,
        ).velocity.len2_spec() < max_speed * max_speed,
        placed(template, exclusion, min_radius, max_radius, max_speed, d).velocity.within(max_speed),
        exclusion.x - max_radius < placed(
            template,
            exclusion,
            min_radius,
            max_radius,
            max_speed,
            d,
        ).pos.x < exclusion.x + max_radius,
        exclusion.y - max_radius < placed(
            template,
            exclusion,
            min_radius,
            max_radius,
            max_speed,
            d,
        ).pos.y < exclusion.y + max_radius,
{
    let a = placed(template, exclusion, min_radius, max_radius, max_speed, d);
    // Position.
    let dir = vec_from_angle_spec(angle_of(d.angle));
    lemma_heading_is_unit(angle_of(d.angle));
    let k = radius_of(d.distance, min_radius, max_radius);
    lemma_fraction_bounds(d.distance, max_radius - min_radius);
    assert(min_radius <= k < max_radius);
    lemma_scaled_upper(dir, k);
    let ox = fx_mul_spec(dir.x as int, k);
    let oy = fx_mul_spec(dir.y as int, k);
    assert(a.pos.x == exclusion.x + ox && a.pos.y == exclusion.y + oy);
    assert(a.pos.dist2_spec(exclusion) == norm_sq(ox, oy));
    assert(k * k < max_radius * max_radius) by (nonlinear_arith)
        requires
            0 <= k < max_radius,
    ;
    let low = reach_floor(min_radius);
    if k >= scale_slack(k) {
        lemma_scaled_lower(dir, k);
        let kept = k - scale_slack(k);
        assert(0 <= low <= kept);
        assert(low * low <= kept * kept) by (nonlinear_arith)
            requires
                0 <= low <= kept,
        ;
    } else {
        assert(low == 0);
        assert(norm_sq(ox, oy) >= 0) by (nonlinear_arith)
            requires
                norm_sq(ox, oy) == ox * ox + oy * oy,
        ;
    }
    // Velocity.
    let course = vec_from_angle_spec(angle_of(d.course));
    lemma_heading_is_unit(angle_of(d.course));
    let m = fraction_of(d.speed, max_speed);
    lemma_fraction_bounds(d.speed, max_speed);
    lemma_scaled_upper(course, m);
    if max_speed > 0 {
        assert(m * m < max_speed * max_speed) by (nonlinear_arith)
            requires
                0 <= m < max_speed,
        ;
    }
}

/// The part `r / 2^32` of `range`, rounded toward zero.
pub fn scale_draw(r: u32, range: i64) -> (v: i64)
    requires
        -2 * COORD_MAX <= range <= 2 * COORD_MAX,
    ensures
        v == fraction_of(r, range as int),
        range > 0 ==> 0 <= v < range,
        range == 0 ==> v == 0,
        range < 0 ==> range < v <= 0,
{
    proof {
        lemma_fraction_bounds(r, range as int);
        lemma_product_bound(r as int, 4_294_967_295, range as int, 2_000_000_000);
    }
    (r as i64 * range) / 4_294_967_296
}

/// A vector of the given course and speed draws, shorter than `max_magnitude`.
pub fn random_vec_from(max_magnitude: i64, course: u32, speed: u32) -> (v: Vector)
    requires
        -COORD_MAX <= max_magnitude <= COORD_MAX,
    ensures
        v == random_vec_spec(max_magnitude as int, course, speed),
{
    let angle: i64 = scale_draw(course, TWO_PI);
    let mag: i64 = scale_draw(speed, max_magnitude);
    let dir = vec_from_angle(angle);
    proof {
        lemma_product_bound(dir.x as int, ONE as int, mag as int, COORD_MAX as int);
        lemma_product_bound(dir.y as int, ONE as int, mag as int, COORD_MAX as int);
    }
    dir.scale(mag)
}

/// A random vector shorter than `max_magnitude`: a uniform course, a uniform length.
pub fn random_vec(max_magnitude: i64) -> (v: Vector)
    requires
        -COORD_MAX <= max_magnitude <= COORD_MAX,
    ensures
        exists|course: u32, speed: u32|
            v == #[trigger] random_vec_spec(max_magnitude as int, course, speed),
{
    let course = random_u32();
    let speed = random_u32();
    random_vec_from(max_magnitude, course, speed)
}

/// Draws the four numbers that place one actor.
pub fn draw_spawn() -> (d: SpawnDraws) {
    let angle = random_u32();
    let distance = random_u32();
    let course = random_u32();
    let speed = random_u32();
    SpawnDraws { angle, distance, course, speed }
}

/// Puts `template` where the draws say.
pub fn place_actor(
    template: Actor,
    exclusion: Vector,
    min_radius: i64,
    max_radius: i64,
    max_speed: i64,
    d: SpawnDraws,
) -> (a: Actor)
    requires
        exclusion.within(COORD_MAX as int),
        -COORD_MAX <= min_radius < max_radius <= COORD_MAX,
        -COORD_MAX <= max_speed <= COORD_MAX,
    ensures
        a == placed(template, exclusion, min_radius as int, max_radius as int, max_speed as int, d),
{
    let r_angle: i64 = scale_draw(d.angle, TWO_PI);
    let r_distance: i64 = scale_draw(d.distance, max_radius - min_radius) + min_radius;
    let dir = vec_from_angle(r_angle);
    proof {
        lemma_product_bound(dir.x as int, ONE as int, r_distance as int, COORD_MAX as int);
        lemma_product_bound(dir.y as int, ONE as int, r_distance as int, COORD_MAX as int);
        assert(ONE * COORD_MAX == COORD_MAX * ONE) by (nonlinear_arith);
        lemma_trunc_div_le(dir.x * r_distance, ONE as int, COORD_MAX as int);
        lemma_trunc_div_le(dir.y * r_distance, ONE as int, COORD_MAX as int);
    }
    let offset = dir.scale(r_distance);
    let mut a = template;
    a.pos = exclusion.plus(offset);
    a.velocity = random_vec_from(max_speed, d.course, d.speed);
    a
}

/// Every actor of `actors` is `template`, put in the ring by some draws.
pub open spec fn all_spawned(
    actors: Seq<Actor>,
    template: Actor,
    exclusion: Vector,
    min_radius: int,
    max_radius: int,
    max_speed: int,
) -> bool {
    forall|i: int|
        0 <= i < actors.len() ==> spawned(
            #[trigger] actors[i],
            template,
            exclusion,
            min_radius,
            max_radius,
            max_speed,
        )
}

/// `num` copies of `template` (none if `num` is negative), each put in the
/// ring by draws of its own.
pub fn spawn_batch(
    template: Actor,
    max_speed: i64,
    num: i32,
    exclusion: Vector,
    min_radius: i64,
    max_radius: i64,
) -> (actors: Vec<Actor>)
    requires
        max_radius > min_radius,
        exclusion.within(COORD_MAX as int),
        -COORD_MAX <= min_radius,
        max_radius <= COORD_MAX,
        -COORD_MAX <= max_speed <= COORD_MAX,
    ensures
        actors@.len() == (if num > 0 { num as int } else { 0 }),
        all_spawned(actors@, template, exclusion, min_radius as int, max_radius as int, max_speed as int),
{
    let mut actors: Vec<Actor> = Vec::new();
    let mut i: i32 = 0;
    while i < num
        invariant
            0 <= i,
            i <= num || i == 0,
            actors@.len() == i,
            max_radius > min_radius,
            exclusion.within(COORD_MAX as int),
            -COORD_MAX <= min_radius,
            max_radius <= COORD_MAX,
            -COORD_MAX <= max_speed <= COORD_MAX,
            all_spawned(actors@, template, exclusion, min_radius as int, max_radius as int, max_speed as int),
        decreases num - i,
    {
        let d = draw_spawn();
        let a = place_actor(template, exclusion, min_radius, max_radius, max_speed, d);
        actors.push(a);
        i = i + 1;
    }
    actors
}

/// Creates `num` rocks at random places of the ring between `min_radius` and
/// `max_radius` around `exclusion`, so that none starts on top of whatever is
/// there. A rock may start outside the field; the next wrap brings it in.
pub fn create_rocks(num: i32, exclusion: Vector, min_radius: i64, max_radius: i64) -> (rocks: Vec<Actor>)
    requires
        max_radius > min_radius,
        exclusion.within(COORD_MAX as int),
        -COORD_MAX <= min_radius,
        max_radius <= COORD_MAX,
    ensures
        rocks@.len() == (if num > 0 { num as int } else { 0 }),
        all_spawned(
            rocks@,
            blank(ActorType::Rock, DEFAULT_LAYER),
            exclusion,
            min_radius as int,
            max_radius as int,
            MAX_ROCK_VEL as int,
        ),
{
    spawn_batch(create_rock(), MAX_ROCK_VEL, num, exclusion, min_radius, max_radius)
}

/// Creates `num` wormholes at random places of the ring between `min_radius`
/// and `max_radius` around `exclusion`.
pub fn create_wormholes(num: i32, exclusion: Vector, min_radius: i64, max_radius: i64) -> (wormholes: Vec<Actor>)
    requires
        max_radius > min_radius,
        exclusion.within(COORD_MAX as int),
        -COORD_MAX <= min_radius,
        max_radius <= COORD_MAX,
    ensures
        wormholes@.len() == (if num > 0 { num as int } else { 0 }),
        all_spawned(
            wormholes@,
            blank(ActorType::Wormhole, WORMHOLE_LAYER),
            exclusion,
            min_radius as int,
            max_radius as int,
            MAX_WORMHOLE_VEL as int,
        ),
{
    spawn_batch(create_wormhole(), MAX_WORMHOLE_VEL, num, exclusion, min_radius, max_radius)
}

} // verus!
