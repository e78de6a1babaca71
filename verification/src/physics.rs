//! Motion of one actor: steering, thrust, the speed limit, the step along the
//! velocity, the wrap at the edges of the field, and the decay of timed life.

use vstd::prelude::*;
use crate::actor::Actor;
use crate::fixed::{
    COORD_MAX, ONE, ceil_sqrt_spec, fx_mul, fx_mul_spec, lemma_ceil_sqrt_exists,
    lemma_trunc_div_le, trunc_div,
};
use crate::trig::{lemma_heading_is_unit, vec_from_angle, vec_from_angle_spec};
use crate::vector::{Vector, lemma_product_bound, lemma_rescaled_lower, lemma_rescaled_upper};

verus! {

/// What the keys hold down at the moment. Fire and radar are levels, not
/// edges: while held they trigger again whenever their cooldown has run out.
#[derive(Clone, Copy, Debug, PartialEq, Eq, Structural)]
pub struct InputState {
    /// Turn: -1 (left), 0 or 1 (right), as a fixed-point scalar.
    pub xaxis: i64,
    /// Thrust: 0 or 1, as a fixed-point scalar.
    pub yaxis: i64,
    pub fire: bool,
    pub radar: bool,
}

/// Nothing held.
pub open spec fn idle_input() -> InputState {
    InputState { xaxis: 0, yaxis: 0, fire: false, radar: false }
}

impl Default for InputState {
    fn default() -> (s: InputState)
        ensures
            s == idle_input(),
    {
        InputState { xaxis: 0, yaxis: 0, fire: false, radar: false }
    }
}

/// Acceleration of the player under thrust: 100 units per second squared.
pub const PLAYER_THRUST: i64 = 6_000_000;

/// Turning speed of the player: 3 radians per second.
pub const PLAYER_TURN_RATE: i64 = 180_000;

/// No actor moves faster than this: 200 units per second.
pub const MAX_PHYSICS_VEL: i64 = 12_000_000;

/// The turn of one step: the time, times the turn rate, times the turn axis.
pub open spec fn turn_step(xaxis: int, dt: int) -> int {
    fx_mul_spec(fx_mul_spec(dt, PLAYER_TURN_RATE as int), xaxis)
}

/// The gain in velocity of one step of thrust along `facing`.
pub open spec fn thrust_step(facing: int, dt: int) -> Vector {
    vec_from_angle_spec(facing).scale_spec(PLAYER_THRUST as int).scale_spec(dt)
}

/// The actor after one step of thrust.
pub open spec fn thrusted(a: Actor, dt: int) -> Actor {
    Actor { velocity: a.velocity.plus_spec(thrust_step(a.facing as int, dt)), ..a }
}

/// The actor after the held keys have acted on it for one step: it turns,
/// then accelerates along its new facing if thrust is held.
pub open spec fn steered(a: Actor, input: InputState, dt: int) -> Actor {
    let turned = Actor { facing: (a.facing + turn_step(input.xaxis as int, dt)) as i64, ..a };
    if input.yaxis > 0 {
        thrusted(turned, dt)
    } else {
        turned
    }
}

/// A velocity held to the speed limit: a faster one keeps its direction and
/// is cut to the limit, any other stays as it is.
pub open spec fn clamped(v: Vector) -> Vector {
    if v.len2_spec() > MAX_PHYSICS_VEL * MAX_PHYSICS_VEL {
        v.with_len_spec(MAX_PHYSICS_VEL as int)
    } else {
        v
    }
}

/// The actor one step later: its velocity is held to the speed limit, it
/// moves along that velocity for `dt`, and it spins by its angular velocity,
/// which counts per frame whatever `dt` is.
pub open spec fn moved(a: Actor, dt: int) -> Actor {
    let v = clamped(a.velocity);
    Actor {
        velocity: v,
        pos: a.pos.plus_spec(v.scale_spec(dt)),
        facing: (a.facing + a.ang_vel) as i64,
        ..a
    }
}

/// One coordinate, brought back once if it has left a field of extent `size`
/// centred on zero.
pub open spec fn wrap_coord(x: int, size: int) -> int {
    let half = trunc_div(size, 2);
    if x > half {
        x - size
    } else if x < -half {
        x + size
    } else {
        x
    }
}

/// The actor with both coordinates wrapped, once each.
pub open spec fn wrapped(a: Actor, sx: int, sy: int) -> Actor {
    Actor {
        pos: Vector { x: wrap_coord(a.pos.x as int, sx) as i64, y: wrap_coord(a.pos.y as int, sy) as i64 },
        ..a
    }
}

/// The actor with `dt` taken off its life.
pub open spec fn aged(a: Actor, dt: int) -> Actor {
    Actor { life: (a.life - dt) as i64, ..a }
}

/// Wraparound: a coordinate within half the extent of the field stays where
/// it is, and one beyond an edge is moved by one extent toward the other.
/// On a field of even extent, what has passed the right edge by `eps` comes
/// back `eps` from the left edge; on one of odd extent, a step farther out.
pub proof fn lemma_wrap_coord(x: int, size: int, eps: int)
    requires
        size >= 0,
    ensures
        -trunc_div(size, 2) <= x <= trunc_div(size, 2) ==> wrap_coord(x, size) == x,
        0 < eps ==> wrap_coord(trunc_div(size, 2) + eps, size) == trunc_div(size, 2) + eps - size,
        0 < eps ==> wrap_coord(-trunc_div(size, 2) - eps, size) == -trunc_div(size, 2) - eps + size,
        0 < eps && size % 2 == 0 ==> wrap_coord(trunc_div(size, 2) + eps, size) == -trunc_div(size, 2)
            + eps,
        0 < eps <= size ==> -trunc_div(size, 2) - 1 <= wrap_coord(trunc_div(size, 2) + eps, size)
            <= trunc_div(size, 2),
{
}

/// A velocity over the limit comes out at the limit, short by at most three
/// fixed-point steps; one within the limit comes out unchanged.
pub proof fn lemma_clamped_speed(v: Vector)
    requires
        v.within(2 * COORD_MAX),
    ensures
        v.len2_spec() > MAX_PHYSICS_VEL * MAX_PHYSICS_VEL ==> (MAX_PHYSICS_VEL - 3) * (
        MAX_PHYSICS_VEL - 3) <= clamped(v).len2_spec() <= MAX_PHYSICS_VEL * MAX_PHYSICS_VEL,
        v.len2_spec() <= MAX_PHYSICS_VEL * MAX_PHYSICS_VEL ==> clamped(v) == v,
        clamped(v).len2_spec() <= MAX_PHYSICS_VEL * MAX_PHYSICS_VEL,
        clamped(v).within(MAX_PHYSICS_VEL as int),
{
    let m = MAX_PHYSICS_VEL as int;
    let s = v.len2_spec();
    if s > m * m {
        let n = ceil_sqrt_spec(s);
        lemma_ceil_sqrt_exists(s);
        assert(n >= m) by (nonlinear_arith)
            requires
                n >= 0,
                n * n >= s,
                s > m * m,
                m >= 0,
        ;
        assert(v.x != 0 || v.y != 0) by (nonlinear_arith)
            requires
                v.x * v.x + v.y * v.y > m * m,
        ;
        lemma_rescaled_upper(v.x as int, v.y as int, m);
        lemma_rescaled_lower(v.x as int, v.y as int, m, 3);
    } else {
        assert(-m <= v.x <= m && -m <= v.y <= m) by (nonlinear_arith)
            requires
                v.x * v.x + v.y * v.y <= m * m,
                m >= 0,
        ;
    }
}

/// The speed limit applied to a velocity.
pub fn clamp_velocity(v: Vector) -> (r: Vector)
    requires
        v.within(2 * COORD_MAX),
    ensures
        r == clamped(v),
        r.len2_spec() <= MAX_PHYSICS_VEL * MAX_PHYSICS_VEL,
        v.len2_spec() <= MAX_PHYSICS_VEL * MAX_PHYSICS_VEL ==> r == v,
        v.len2_spec() > MAX_PHYSICS_VEL * MAX_PHYSICS_VEL ==> r.len2_spec() >= (MAX_PHYSICS_VEL - 3)
            * (MAX_PHYSICS_VEL - 3),
        r.within(MAX_PHYSICS_VEL as int),
{
    proof {
        lemma_clamped_speed(v);
    }
    let norm_sq: i64 = v.len2();
    if norm_sq > MAX_PHYSICS_VEL * MAX_PHYSICS_VEL {
        assert(v.x != 0 || v.y != 0) by (nonlinear_arith)
            requires
                v.x * v.x + v.y * v.y > 0,
        ;
        v.with_len(MAX_PHYSICS_VEL)
    } else {
        v
    }
}

/// Applies the held keys to the player for one step of `dt`.
pub fn player_handle_input(actor: &mut Actor, input: &InputState, dt: i64)
    requires
        -COORD_MAX <= dt <= COORD_MAX,
        -COORD_MAX <= input.xaxis <= COORD_MAX,
        i64::MIN <= old(actor).facing + turn_step(input.xaxis as int, dt as int) <= i64::MAX,
        input.yaxis > 0 ==> old(actor).velocity.within(2 * COORD_MAX),
    ensures
        *final(actor) == steered(*old(actor), *input, dt as int),
{
    proof {
        lemma_product_bound(dt as int, 1_000_000_000, PLAYER_TURN_RATE as int, 180_000);
        lemma_trunc_div_le(dt * PLAYER_TURN_RATE, ONE as int, 3_000_000_000);
        lemma_product_bound(
            fx_mul_spec(dt as int, PLAYER_TURN_RATE as int),
            3_000_000_000,
            input.xaxis as int,
            1_000_000_000,
        );
    }
    let turn: i64 = fx_mul(fx_mul(dt, PLAYER_TURN_RATE), input.xaxis);
    actor.facing = actor.facing + turn;
    if input.yaxis > 0 {
        player_thrust(actor, dt);
    }
}

/// The thrust of one step lies within a bound that grows with the step.
pub proof fn lemma_thrust_step_bound(facing: int, dt: int)
    requires
        -COORD_MAX <= dt <= COORD_MAX,
    ensures
        thrust_step(facing, dt).within(100 * COORD_MAX),
        0 <= dt <= ONE ==> thrust_step(facing, dt).within(PLAYER_THRUST as int),
        vec_from_angle_spec(facing).scale_spec(PLAYER_THRUST as int).within(PLAYER_THRUST as int),
{
    lemma_heading_is_unit(facing);
    let d = vec_from_angle_spec(facing);
    lemma_product_bound(d.x as int, ONE as int, PLAYER_THRUST as int, PLAYER_THRUST as int);
    lemma_product_bound(d.y as int, ONE as int, PLAYER_THRUST as int, PLAYER_THRUST as int);
    assert(ONE * PLAYER_THRUST == PLAYER_THRUST * ONE) by (nonlinear_arith);
    lemma_trunc_div_le(d.x * PLAYER_THRUST, ONE as int, PLAYER_THRUST as int);
    lemma_trunc_div_le(d.y * PLAYER_THRUST, ONE as int, PLAYER_THRUST as int);
    let t = d.scale_spec(PLAYER_THRUST as int);
    assert(t.within(PLAYER_THRUST as int));
    lemma_product_bound(t.x as int, PLAYER_THRUST as int, dt, COORD_MAX as int);
    lemma_product_bound(t.y as int, PLAYER_THRUST as int, dt, COORD_MAX as int);
    assert(PLAYER_THRUST * COORD_MAX == (100 * COORD_MAX) * ONE) by (nonlinear_arith);
    lemma_trunc_div_le(t.x * dt, ONE as int, 100 * COORD_MAX);
    lemma_trunc_div_le(t.y * dt, ONE as int, 100 * COORD_MAX);
    if 0 <= dt <= ONE {
        lemma_product_bound(t.x as int, PLAYER_THRUST as int, dt, ONE as int);
        lemma_product_bound(t.y as int, PLAYER_THRUST as int, dt, ONE as int);
        lemma_trunc_div_le(t.x * dt, ONE as int, PLAYER_THRUST as int);
        lemma_trunc_div_le(t.y * dt, ONE as int, PLAYER_THRUST as int);
    }
}

/// Accelerates the actor along its facing for one step of `dt`.
pub fn player_thrust(actor: &mut Actor, dt: i64)
    requires
        -COORD_MAX <= dt <= COORD_MAX,
        old(actor).velocity.within(2 * COORD_MAX),
    ensures
        *final(actor) == thrusted(*old(actor), dt as int),
{
    proof {
        lemma_thrust_step_bound(actor.facing as int, dt as int);
        let d = vec_from_angle_spec(actor.facing as int);
        lemma_heading_is_unit(actor.facing as int);
        lemma_product_bound(d.x as int, ONE as int, PLAYER_THRUST as int, PLAYER_THRUST as int);
        lemma_product_bound(d.y as int, ONE as int, PLAYER_THRUST as int, PLAYER_THRUST as int);
        let t = d.scale_spec(PLAYER_THRUST as int);
        lemma_product_bound(t.x as int, PLAYER_THRUST as int, dt as int, COORD_MAX as int);
        lemma_product_bound(t.y as int, PLAYER_THRUST as int, dt as int, COORD_MAX as int);
    }
    let direction_vector = vec_from_angle(actor.facing);
    let thrust_vector = direction_vector.scale(PLAYER_THRUST);
    actor.velocity = actor.velocity.plus(thrust_vector.scale(dt));
}

/// The displacement of one step at a speed within the limit.
pub proof fn lemma_step_bound(v: Vector, dt: int)
    requires
        v.within(MAX_PHYSICS_VEL as int),
        -COORD_MAX <= dt <= COORD_MAX,
    ensures
        v.scale_spec(dt).within(200 * COORD_MAX),
        0 <= dt <= ONE ==> v.scale_spec(dt).within(MAX_PHYSICS_VEL as int),
{
    lemma_product_bound(v.x as int, MAX_PHYSICS_VEL as int, dt, COORD_MAX as int);
    lemma_product_bound(v.y as int, MAX_PHYSICS_VEL as int, dt, COORD_MAX as int);
    assert(MAX_PHYSICS_VEL * COORD_MAX == (200 * COORD_MAX) * ONE) by (nonlinear_arith);
    lemma_trunc_div_le(v.x * dt, ONE as int, 200 * COORD_MAX);
    lemma_trunc_div_le(v.y * dt, ONE as int, 200 * COORD_MAX);
    if 0 <= dt <= ONE {
        lemma_product_bound(v.x as int, MAX_PHYSICS_VEL as int, dt, ONE as int);
        lemma_product_bound(v.y as int, MAX_PHYSICS_VEL as int, dt, ONE as int);
        lemma_trunc_div_le(v.x * dt, ONE as int, MAX_PHYSICS_VEL as int);
        lemma_trunc_div_le(v.y * dt, ONE as int, MAX_PHYSICS_VEL as int);
    }
}

/// Moves the actor by one step of `dt`: speed limit, position, spin.
pub fn update_actor_position(actor: &mut Actor, dt: i64)
    requires
        -COORD_MAX <= dt <= COORD_MAX,
        old(actor).velocity.within(2 * COORD_MAX),
        old(actor).pos.within(2 * COORD_MAX),
        i64::MIN <= old(actor).facing + old(actor).ang_vel <= i64::MAX,
    ensures
        *final(actor) == moved(*old(actor), dt as int),
        final(actor).velocity.len2_spec() <= MAX_PHYSICS_VEL * MAX_PHYSICS_VEL,
        old(actor).velocity.len2_spec() <= MAX_PHYSICS_VEL * MAX_PHYSICS_VEL
            ==> final(actor).velocity == old(actor).velocity,
        old(actor).velocity.len2_spec() > MAX_PHYSICS_VEL * MAX_PHYSICS_VEL
            ==> final(actor).velocity.len2_spec() >= (MAX_PHYSICS_VEL - 3) * (MAX_PHYSICS_VEL - 3),
{
    actor.velocity = clamp_velocity(actor.velocity);
    proof {
        lemma_step_bound(actor.velocity, dt as int);
        lemma_product_bound(actor.velocity.x as int, MAX_PHYSICS_VEL as int, dt as int, COORD_MAX as int);
        lemma_product_bound(actor.velocity.y as int, MAX_PHYSICS_VEL as int, dt as int, COORD_MAX as int);
    }
    let dv = actor.velocity.scale(dt);
    actor.pos = actor.pos.plus(dv);
    actor.facing = actor.facing + actor.ang_vel;
}

/// One coordinate, brought back once if it has left the field.
fn wrap_axis(x: i64, size: i64) -> (r: i64)
    requires
        i64::MIN <= x - size <= i64::MAX,
        i64::MIN <= x + size <= i64::MAX,
    ensures
        r == wrap_coord(x as int, size as int),
{
    let bounds: i64 = size / 2;
    if x > bounds {
        x - size
    } else if x < -bounds {
        x + size
    } else {
        x
    }
}

/// Wraps the actor's position to a field `sx` wide and `sy` high, so that
/// what leaves by one edge comes back by the opposite one. Each coordinate
/// is corrected at most once.
pub fn wrap_actor_position(actor: &mut Actor, sx: i64, sy: i64)
    requires
        i64::MIN <= old(actor).pos.x - sx <= i64::MAX,
        i64::MIN <= old(actor).pos.x + sx <= i64::MAX,
        i64::MIN <= old(actor).pos.y - sy <= i64::MAX,
        i64::MIN <= old(actor).pos.y + sy <= i64::MAX,
    ensures
        *final(actor) == wrapped(*old(actor), sx as int, sy as int),
{
    actor.pos = Vector { x: wrap_axis(actor.pos.x, sx), y: wrap_axis(actor.pos.y, sy) };
}

/// Takes `dt` off the actor's life.
pub fn handle_timed_life(actor: &mut Actor, dt: i64)
    requires
        i64::MIN <= old(actor).life - dt <= i64::MAX,
    ensures
        *final(actor) == aged(*old(actor), dt as int),
{
    actor.life = actor.life - dt;
}

} // verus!
