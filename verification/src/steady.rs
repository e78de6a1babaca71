//! What play preserves: on a field that is large enough, every actor stays
//! near the field and within the speed limit, so that a game can be played
//! on until one of its counters, timers or angles runs out of its type.

use vstd::prelude::*;
use crate::actor::{Actor, ActorType, DEFAULT_LAYER, RADAR_LIFE, WORMHOLE_LAYER, blank};
use crate::collide::{collided, struck, struck_all};
use crate::events::{ButtonState, Key, after_event};
use crate::fixed::{COORD_MAX, ONE, POS_MAX, WIDE_MAX, fx_mul_spec, lemma_trunc_div_le, trunc_div};
use crate::frame::{advanced, fired, frame, level_end, moved_game, ready, steered_game};
use crate::game::{
    DT, GameView, LEVEL_BONUS, SHOT_SPEED, SPAWN_MAX_RADIUS, SPAWN_MIN_RADIUS, all_alive,
    fresh, lemma_survivors_alive, lemma_survivors_of_kind, lemma_survivors_were_there, no_dead,
    pruned, pulse_from, shot_from, survivors, well_formed, with_pulse, with_shot,
};
use crate::physics::{
    MAX_PHYSICS_VEL, clamped, lemma_clamped_speed, lemma_thrust_step_bound, moved, turn_step,
};
use crate::spawn::{
    MAX_ROCK_VEL, MAX_WORMHOLE_VEL, SpawnDraws, all_spawned, lemma_placed_in_ring, placed,
    spawned,
};
use crate::trig::{lemma_heading_is_unit, vec_from_angle_spec};
use crate::vector::{Vector, lemma_product_bound};

verus! {

/// The farthest that an actor moves in one frame.
pub const STEP_MAX: i64 = 200_000;

/// The least extent of a field on which a wave that appears around a player
/// at its edge is back inside after one wrap.
pub const FIELD_MIN: i64 = 15_200_000;

/// `p` lies within `margin` of a field of `w` by `h`.
pub open spec fn near_field(p: Vector, w: int, h: int, margin: int) -> bool {
    &&& -trunc_div(w, 2) - margin <= p.x <= trunc_div(w, 2) + margin
    &&& -trunc_div(h, 2) - margin <= p.y <= trunc_div(h, 2) + margin
}

/// The actor lies within `margin` of the field, keeps the speed limit on
/// each axis, and has no more life than any kind starts with.
pub open spec fn tame(a: Actor, w: int, h: int, margin: int) -> bool {
    &&& near_field(a.pos, w, h, margin)
    &&& a.velocity.within(MAX_PHYSICS_VEL as int)
    &&& a.life <= RADAR_LIFE
}

/// Every actor of `s` is tame.
pub open spec fn all_tame(s: Seq<Actor>, w: int, h: int, margin: int) -> bool {
    forall|i: int| 0 <= i < s.len() ==> tame(#[trigger] s[i], w, h, margin)
}

/// The layers of the radar pulses are even and rise from each pulse to the
/// next, below the layer that the next pulse will take, so that no two
/// pulses share a layer.
pub open spec fn layers_rise(radar: Seq<Actor>, next: int) -> bool {
    &&& next >= 0
    &&& next % 2 == 0
    &&& forall|i: int|
        0 <= i < radar.len() ==> 0 <= (#[trigger] radar[i]).layer < next && radar[i].layer % 2 == 0
    &&& forall|i: int, j: int|
        0 <= i < j < radar.len() ==> (#[trigger] radar[i]).layer < (#[trigger] radar[j]).layer
}

/// The state of a game in play: it is well formed, its field is large
/// enough, the player, the shots and the radar pulses are on the field, and
/// rocks and wormholes are no farther from it than a wave appears.
pub open spec fn settled(g: GameView) -> bool {
    &&& well_formed(g)
    &&& no_dead(g)
    &&& FIELD_MIN <= g.screen_width <= POS_MAX
    &&& FIELD_MIN <= g.screen_height <= POS_MAX
    &&& tame(g.player, g.screen_width, g.screen_height, 0)
    &&& 0 <= g.player.life
    &&& all_tame(g.shots, g.screen_width, g.screen_height, 0)
    &&& all_tame(g.radar, g.screen_width, g.screen_height, 0)
    &&& all_tame(g.rocks, g.screen_width, g.screen_height, SPAWN_MAX_RADIUS as int)
    &&& all_tame(g.wormhole, g.screen_width, g.screen_height, SPAWN_MAX_RADIUS as int)
    &&& layers_rise(g.radar, g.radar_layer)
}

/// Every actor of `s` faces an angle far from the ends of its type.
pub open spec fn all_facing_in_range(s: Seq<Actor>) -> bool {
    forall|i: int| 0 <= i < s.len() ==> -WIDE_MAX <= (#[trigger] s[i]).facing <= WIDE_MAX
}

/// What play does use up, slowly: the angles, the timers and the counters
/// of `g` have room for one more frame.
pub open spec fn room(g: GameView) -> bool {
    &&& -WIDE_MAX <= g.player.facing <= WIDE_MAX
    &&& all_facing_in_range(g.shots)
    &&& all_facing_in_range(g.radar)
    &&& all_facing_in_range(g.rocks)
    &&& all_facing_in_range(g.wormhole)
    &&& -COORD_MAX <= g.input.xaxis <= COORD_MAX
    &&& -WIDE_MAX <= g.player_shot_timeout <= WIDE_MAX
    &&& -WIDE_MAX <= g.player_radar_timeout <= WIDE_MAX
    &&& i32::MIN <= g.radar_layer <= i32::MAX - 2
    &&& -1_000_000_000 <= g.level <= 1_000_000_000
    &&& g.rocks.len() * (g.shots.len() + 1) <= i32::MAX
    &&& g.score + g.rocks.len() * (g.shots.len() + 1) + LEVEL_BONUS <= i32::MAX
}

/// `a` is `template` but for its place and its course: it lies within the
/// outer radius of `centre` on each axis, slower than `max_speed`.
pub open spec fn like_template(a: Actor, template: Actor, centre: Vector, max_speed: int) -> bool {
    &&& a.tag == template.tag
    &&& a.of_its_kind() == template.of_its_kind()
    &&& a.life == template.life
    &&& a.facing == template.facing
    &&& a.ang_vel == template.ang_vel
    &&& a.bbox_size == template.bbox_size
    &&& a.velocity.within(max_speed)
    &&& centre.x - SPAWN_MAX_RADIUS < a.pos.x < centre.x + SPAWN_MAX_RADIUS
    &&& centre.y - SPAWN_MAX_RADIUS < a.pos.y < centre.y + SPAWN_MAX_RADIUS
}

/// Whatever is spawned is of the kind of its template, alive as the
/// template is, and within the outer radius of the centre on each axis.
pub proof fn lemma_spawned_like_template(
    s: Seq<Actor>,
    template: Actor,
    centre: Vector,
    max_speed: int,
)
    requires
        all_spawned(s, template, centre, SPAWN_MIN_RADIUS as int, SPAWN_MAX_RADIUS as int, max_speed),
        centre.within(COORD_MAX as int),
        0 <= max_speed <= COORD_MAX,
    ensures
        forall|i: int| 0 <= i < s.len() ==> like_template(#[trigger] s[i], template, centre, max_speed),
{
    assert forall|i: int| 0 <= i < s.len() implies like_template(
        #[trigger] s[i],
        template,
        centre,
        max_speed,
    ) by {
        assert(spawned(
            s[i],
            template,
            centre,
            SPAWN_MIN_RADIUS as int,
            SPAWN_MAX_RADIUS as int,
            max_speed,
        ));
        let d = choose|d: SpawnDraws|
            s[i] == #[trigger] placed(
                template,
                centre,
                SPAWN_MIN_RADIUS as int,
                SPAWN_MAX_RADIUS as int,
                max_speed,
                d,
            );
        lemma_placed_in_ring(
            template,
            centre,
            SPAWN_MIN_RADIUS as int,
            SPAWN_MAX_RADIUS as int,
            max_speed,
            d,
        );
    }
}

/// A game that has just begun is well formed, has no dead, and can be played.
pub proof fn lemma_fresh_is_ready(g: GameView)
    requires
        fresh(g),
        -POS_MAX <= g.screen_width <= POS_MAX,
        -POS_MAX <= g.screen_height <= POS_MAX,
    ensures
        ready(g),
        well_formed(g),
        no_dead(g),
{
    let origin = Vector { x: 0, y: 0 };
    lemma_spawned_like_template(g.rocks, blank(ActorType::Rock, DEFAULT_LAYER), origin, MAX_ROCK_VEL as int);
    lemma_spawned_like_template(
        g.wormhole,
        blank(ActorType::Wormhole, WORMHOLE_LAYER),
        origin,
        MAX_WORMHOLE_VEL as int,
    );
    assert(g.rocks.len() * (g.shots.len() + 1) == 5) by (nonlinear_arith)
        requires
            g.rocks.len() == 5,
            g.shots.len() == 0,
    ;
}

/// Every step of a game keeps every actor in the collection of its kind,
/// with the radius, the spin and the layer of its kind.
pub proof fn lemma_steps_keep_kinds(g: GameView, key: Key, state: ButtonState)
    requires
        well_formed(g),
    ensures
        well_formed(after_event(g, key, state)),
        well_formed(steered_game(g)),
        well_formed(with_shot(g)),
        well_formed(with_pulse(g)),
        well_formed(fired(g)),
        well_formed(moved_game(g)),
        well_formed(collided(g)),
        well_formed(pruned(g)),
        no_dead(pruned(g)),
{
    lemma_survivors_of_kind(g.shots, ActorType::Shot);
    lemma_survivors_of_kind(g.radar, ActorType::Radar);
    lemma_survivors_of_kind(g.rocks, ActorType::Rock);
    lemma_survivors_of_kind(g.wormhole, ActorType::Wormhole);
    lemma_survivors_alive(g.shots);
    lemma_survivors_alive(g.radar);
    lemma_survivors_alive(g.rocks);
    lemma_survivors_alive(g.wormhole);
}

/// The frame keeps every actor in the collection of its kind, with the
/// radius, the spin and the layer of its kind, and leaves no dead behind.
pub proof fn lemma_frame_keeps_kinds(g: GameView)
    requires
        well_formed(g),
    ensures
        well_formed(frame(g)),
        no_dead(frame(g)),
{
    let f = fired(steered_game(g));
    assert(well_formed(f));
    let m = moved_game(f);
    assert(well_formed(m));
    let c = collided(m);
    assert(well_formed(c));
    lemma_survivors_of_kind(c.shots, ActorType::Shot);
    lemma_survivors_of_kind(c.radar, ActorType::Radar);
    lemma_survivors_of_kind(c.rocks, ActorType::Rock);
    lemma_survivors_of_kind(c.wormhole, ActorType::Wormhole);
    lemma_survivors_alive(c.shots);
    lemma_survivors_alive(c.radar);
    lemma_survivors_alive(c.rocks);
    lemma_survivors_alive(c.wormhole);
}

/// The end of a level keeps every actor in the collection of its kind and
/// brings no dead.
pub proof fn lemma_level_end_keeps_kinds(before: GameView, after: GameView)
    requires
        level_end(before, after),
        well_formed(before),
        no_dead(before),
        before.player.pos.within(COORD_MAX as int),
    ensures
        well_formed(after),
        no_dead(after),
        after.wormhole.len() >= 1,
{
    if before.wormhole.len() == 0 {
        lemma_spawned_like_template(
            after.rocks,
            blank(ActorType::Rock, DEFAULT_LAYER),
            before.player.pos,
            MAX_ROCK_VEL as int,
        );
        lemma_spawned_like_template(
            after.wormhole,
            blank(ActorType::Wormhole, WORMHOLE_LAYER),
            before.player.pos,
            MAX_WORMHOLE_VEL as int,
        );
    }
}

/// A settled game with room can be played for a frame.
pub proof fn lemma_settled_is_ready(g: GameView)
    requires
        settled(g),
        room(g),
    ensures
        ready(g),
{
    assert forall|i: int| 0 <= i < g.shots.len() implies (#[trigger] g.shots[i]).bounded() by {
        assert(tame(g.shots[i], g.screen_width, g.screen_height, 0));
        assert(g.shots[i].alive());
    }
    assert forall|i: int| 0 <= i < g.radar.len() implies (#[trigger] g.radar[i]).bounded() by {
        assert(tame(g.radar[i], g.screen_width, g.screen_height, 0));
        assert(g.radar[i].alive());
    }
    assert forall|i: int| 0 <= i < g.rocks.len() implies (#[trigger] g.rocks[i]).bounded() by {
        assert(tame(g.rocks[i], g.screen_width, g.screen_height, SPAWN_MAX_RADIUS as int));
        assert(g.rocks[i].alive());
    }
    assert forall|i: int| 0 <= i < g.wormhole.len() implies (#[trigger] g.wormhole[i]).bounded() by {
        assert(tame(g.wormhole[i], g.screen_width, g.screen_height, SPAWN_MAX_RADIUS as int));
        assert(g.wormhole[i].alive());
    }
}

/// A game that has just begun on a field that is large enough is settled.
pub proof fn lemma_fresh_is_settled(g: GameView)
    requires
        fresh(g),
        FIELD_MIN <= g.screen_width <= POS_MAX,
        FIELD_MIN <= g.screen_height <= POS_MAX,
    ensures
        settled(g),
        room(g),
{
    lemma_fresh_is_ready(g);
    let origin = Vector { x: 0, y: 0 };
    lemma_spawned_like_template(g.rocks, blank(ActorType::Rock, DEFAULT_LAYER), origin, MAX_ROCK_VEL as int);
    lemma_spawned_like_template(
        g.wormhole,
        blank(ActorType::Wormhole, WORMHOLE_LAYER),
        origin,
        MAX_WORMHOLE_VEL as int,
    );
    assert(g.rocks.len() * (g.shots.len() + 1) == 5) by (nonlinear_arith)
        requires
            g.rocks.len() == 5,
            g.shots.len() == 0,
    ;
}

/// The actor lies within `margin` of the field and can be moved and aged.
pub open spec fn tame_enough(a: Actor, w: int, h: int, margin: int) -> bool {
    &&& near_field(a.pos, w, h, margin)
    &&& a.velocity.within(2 * COORD_MAX)
    &&& i64::MIN + DT <= a.life <= RADAR_LIFE
}

/// Every actor of `s` lies within `margin` of the field and can be moved and aged.
pub open spec fn all_tame_enough(s: Seq<Actor>, w: int, h: int, margin: int) -> bool {
    forall|i: int| 0 <= i < s.len() ==> tame_enough(#[trigger] s[i], w, h, margin)
}

/// An actor near the field is, a frame later, on the field and within the
/// speed limit.
pub proof fn lemma_advanced_tame(a: Actor, w: int, h: int, ages: bool)
    requires
        tame_enough(a, w, h, SPAWN_MAX_RADIUS as int),
        FIELD_MIN <= w <= POS_MAX,
        FIELD_MIN <= h <= POS_MAX,
    ensures
        tame(advanced(a, w, h, true, ages), w, h, 0),
{
    lemma_clamped_speed(a.velocity);
    let v = clamped(a.velocity);
    lemma_product_bound(v.x as int, MAX_PHYSICS_VEL as int, DT as int, DT as int);
    lemma_product_bound(v.y as int, MAX_PHYSICS_VEL as int, DT as int, DT as int);
    assert(MAX_PHYSICS_VEL * DT == STEP_MAX * ONE) by (nonlinear_arith);
    lemma_trunc_div_le(v.x * DT, ONE as int, STEP_MAX as int);
    lemma_trunc_div_le(v.y * DT, ONE as int, STEP_MAX as int);
    let dx = fx_mul_spec(v.x as int, DT as int);
    let dy = fx_mul_spec(v.y as int, DT as int);
    assert(-STEP_MAX <= dx <= STEP_MAX);
    assert(-STEP_MAX <= dy <= STEP_MAX);
    let m = moved(a, DT as int);
    assert(m.pos.x == a.pos.x + dx);
    assert(m.pos.y == a.pos.y + dy);
    assert(m.velocity == v);
    assert(m.life == a.life);
}

/// What leaves the player is on the field and within the speed limit.
proof fn lemma_left_player_tame(p: Actor, layer: i32, w: int, h: int)
    requires
        near_field(p.pos, w, h, 0),
    ensures
        tame(shot_from(p), w, h, 0),
        tame(pulse_from(p, layer), w, h, 0),
        shot_from(p).alive(),
        pulse_from(p, layer).alive(),
{
    let dir = vec_from_angle_spec(p.facing as int);
    lemma_heading_is_unit(p.facing as int);
    lemma_product_bound(SHOT_SPEED as int, SHOT_SPEED as int, dir.x as int, ONE as int);
    lemma_product_bound(SHOT_SPEED as int, SHOT_SPEED as int, dir.y as int, ONE as int);
    lemma_trunc_div_le(SHOT_SPEED * dir.x, ONE as int, SHOT_SPEED as int);
    lemma_trunc_div_le(SHOT_SPEED * dir.y, ONE as int, SHOT_SPEED as int);
}

/// After the keys and the triggers of a frame, everything is still near the
/// field and can be moved.
proof fn lemma_fired_tame(g: GameView)
    requires
        settled(g),
        ready(g),
    ensures
        tame_enough(fired(steered_game(g)).player, g.screen_width, g.screen_height, 0),
        0 <= fired(steered_game(g)).player.life,
        all_tame_enough(fired(steered_game(g)).shots, g.screen_width, g.screen_height, 0),
        all_tame(fired(steered_game(g)).radar, g.screen_width, g.screen_height, 0),
        all_alive(fired(steered_game(g)).radar),
        fired(steered_game(g)).rocks == g.rocks,
        fired(steered_game(g)).wormhole == g.wormhole,
        fired(steered_game(g)).screen_width == g.screen_width,
        fired(steered_game(g)).screen_height == g.screen_height,
{
    let w = g.screen_width;
    let h = g.screen_height;
    let s = steered_game(g);
    let turned = Actor {
        facing: (g.player.facing + turn_step(g.input.xaxis as int, DT as int)) as i64,
        ..g.player
    };
    lemma_thrust_step_bound(turned.facing as int, DT as int);
    assert(s.player.velocity.within(2 * COORD_MAX));
    assert(s.player.pos == g.player.pos);
    assert(s.player.life == g.player.life);
    lemma_left_player_tame(s.player, s.radar_layer as i32, w, h);
    let f = fired(s);
    assert forall|i: int| 0 <= i < f.shots.len() implies tame_enough(#[trigger] f.shots[i], w, h, 0) by {
        if i < g.shots.len() {
            assert(f.shots[i] == g.shots[i]);
            assert(tame(g.shots[i], w, h, 0));
            assert(g.shots[i].alive());
        }
    }
    assert forall|i: int| 0 <= i < f.radar.len() implies tame(#[trigger] f.radar[i], w, h, 0)
        && f.radar[i].alive() by {
        if i < g.radar.len() {
            assert(f.radar[i] == g.radar[i]);
            assert(tame(g.radar[i], w, h, 0));
            assert(g.radar[i].alive());
        }
    }
}

/// Moving keeps everything near the field.
proof fn lemma_moved_tame(f: GameView)
    requires
        FIELD_MIN <= f.screen_width <= POS_MAX,
        FIELD_MIN <= f.screen_height <= POS_MAX,
        tame_enough(f.player, f.screen_width, f.screen_height, 0),
        all_tame_enough(f.shots, f.screen_width, f.screen_height, 0),
        all_tame(f.radar, f.screen_width, f.screen_height, 0),
        all_alive(f.radar),
        all_tame_enough(f.rocks, f.screen_width, f.screen_height, SPAWN_MAX_RADIUS as int),
    ensures
        tame(moved_game(f).player, f.screen_width, f.screen_height, 0),
        moved_game(f).player.life == f.player.life,
        all_tame(moved_game(f).shots, f.screen_width, f.screen_height, 0),
        all_tame(moved_game(f).radar, f.screen_width, f.screen_height, 0),
        all_tame(moved_game(f).rocks, f.screen_width, f.screen_height, 0),
        moved_game(f).wormhole == f.wormhole,
{
    let w = f.screen_width;
    let h = f.screen_height;
    let m = moved_game(f);
    lemma_advanced_tame(f.player, w, h, false);
    assert forall|i: int| 0 <= i < m.shots.len() implies tame(#[trigger] m.shots[i], w, h, 0) by {
        assert(tame_enough(f.shots[i], w, h, 0));
        lemma_advanced_tame(f.shots[i], w, h, true);
    }
    assert forall|i: int| 0 <= i < m.radar.len() implies tame(#[trigger] m.radar[i], w, h, 0) by {
        assert(tame(f.radar[i], w, h, 0));
        assert(f.radar[i].alive());
    }
    assert forall|i: int| 0 <= i < m.rocks.len() implies tame(#[trigger] m.rocks[i], w, h, 0) by {
        assert(tame_enough(f.rocks[i], w, h, SPAWN_MAX_RADIUS as int));
        lemma_advanced_tame(f.rocks[i], w, h, false);
    }
}

/// Those of a tame collection that outlive their collisions are tame.
proof fn lemma_struck_survivors_tame(s: Seq<Actor>, others: Seq<Actor>, w: int, h: int, margin: int)
    requires
        all_tame(s, w, h, margin),
    ensures
        all_tame(survivors(struck_all(s, others)), w, h, margin),
{
    let c = struck_all(s, others);
    assert forall|i: int| 0 <= i < survivors(c).len() implies tame(
        #[trigger] survivors(c)[i],
        w,
        h,
        margin,
    ) by {
        let j = lemma_survivors_were_there(c, i);
        assert(c[j] == struck(s[j], others));
        assert(tame(s[j], w, h, margin));
    }
}

/// Pruning keeps the layers of the radar pulses rising.
proof fn lemma_survivors_keep_rising(s: Seq<Actor>, next: int)
    requires
        layers_rise(s, next),
    ensures
        layers_rise(survivors(s), next),
        layers_rise(survivors(s), if survivors(s).len() == 0 { 0 } else { next }),
    decreases s.len(),
{
    if s.len() > 0 {
        let rest = s.drop_last();
        assert forall|i: int, j: int| 0 <= i < j < rest.len() implies (#[trigger] rest[i]).layer < (
        #[trigger] rest[j]).layer by {
            assert(rest[i] == s[i] && rest[j] == s[j]);
        }
        assert forall|i: int| 0 <= i < rest.len() implies 0 <= (#[trigger] rest[i]).layer < next
            && rest[i].layer % 2 == 0 by {
            assert(rest[i] == s[i]);
        }
        lemma_survivors_keep_rising(rest, next);
        let kept = survivors(rest);
        if s.last().alive() {
            let all = survivors(s);
            assert(all == kept.push(s.last()));
            assert forall|i: int, j: int| 0 <= i < j < all.len() implies (#[trigger] all[i]).layer < (
            #[trigger] all[j]).layer by {
                if j == kept.len() {
                    let k = lemma_survivors_were_there(rest, i);
                    assert(rest[k] == s[k]);
                    assert(s[k].layer < s[s.len() - 1].layer);
                } else {
                    assert(all[i] == kept[i] && all[j] == kept[j]);
                }
            }
            assert forall|i: int| 0 <= i < all.len() implies 0 <= (#[trigger] all[i]).layer < next
                && all[i].layer % 2 == 0 by {
                if i == kept.len() {
                    assert(all[i] == s[s.len() - 1]);
                } else {
                    assert(all[i] == kept[i]);
                }
            }
        }
    }
}

/// The keys, the triggers and the motion of a frame keep the layers of the
/// radar pulses rising.
proof fn lemma_moved_keeps_rising(g: GameView)
    requires
        layers_rise(g.radar, g.radar_layer),
        g.radar_layer <= i32::MAX - 2,
    ensures
        layers_rise(
            moved_game(fired(steered_game(g))).radar,
            moved_game(fired(steered_game(g))).radar_layer,
        ),
{
    let f = fired(steered_game(g));
    assert forall|i: int| 0 <= i < f.radar.len() implies 0 <= (#[trigger] f.radar[i]).layer
        < f.radar_layer && f.radar[i].layer % 2 == 0 by {
        if i < g.radar.len() {
            assert(f.radar[i] == g.radar[i]);
        }
    }
    assert forall|i: int, j: int| 0 <= i < j < f.radar.len() implies (#[trigger] f.radar[i]).layer < (
    #[trigger] f.radar[j]).layer by {
        assert(f.radar[i] == g.radar[i]);
        if j < g.radar.len() {
            assert(f.radar[j] == g.radar[j]);
        }
    }
    let m = moved_game(f);
    assert forall|i: int| 0 <= i < m.radar.len() implies (#[trigger] m.radar[i]).layer
        == f.radar[i].layer by {}
}

/// A frame keeps a settled game settled, but that its player may be dead.
pub proof fn lemma_frame_keeps_settled(g: GameView)
    requires
        settled(g),
        ready(g),
    ensures
        settled(frame(g)),
{
    let w = g.screen_width;
    let h = g.screen_height;
    let margin = SPAWN_MAX_RADIUS as int;
    lemma_frame_keeps_kinds(g);
    lemma_fired_tame(g);
    let f = fired(steered_game(g));
    assert forall|i: int| 0 <= i < f.rocks.len() implies tame_enough(
        #[trigger] f.rocks[i],
        w,
        h,
        margin,
    ) by {
        assert(tame(g.rocks[i], w, h, margin));
        assert(g.rocks[i].alive());
    }
    lemma_moved_tame(f);
    let m = moved_game(f);
    lemma_struck_survivors_tame(m.shots, m.rocks, w, h, 0);
    lemma_struck_survivors_tame(m.radar, Seq::empty(), w, h, 0);
    lemma_struck_survivors_tame(m.rocks, m.shots, w, h, 0);
    lemma_struck_survivors_tame(m.wormhole, seq![m.player], w, h, margin);
    assert(struck_all(m.radar, Seq::empty()) =~= m.radar);
    let e = frame(g);
    assert(e.shots == survivors(struck_all(m.shots, m.rocks)));
    assert(e.radar == survivors(m.radar));
    assert(e.rocks == survivors(struck_all(m.rocks, m.shots)));
    assert(e.wormhole == survivors(struck_all(m.wormhole, seq![m.player])));
    assert(e.player == struck(m.player, m.rocks));
    lemma_moved_keeps_rising(g);
    lemma_survivors_keep_rising(m.radar, m.radar_layer);
    assert forall|i: int| 0 <= i < e.rocks.len() implies tame(#[trigger] e.rocks[i], w, h, margin) by {
        assert(tame(e.rocks[i], w, h, 0));
    }
}

/// The end of a level keeps a settled game settled: the new wave appears
/// no farther from the field than a wave may lie.
pub proof fn lemma_level_end_keeps_settled(before: GameView, after: GameView)
    requires
        settled(before),
        level_end(before, after),
    ensures
        settled(after),
{
    lemma_level_end_keeps_kinds(before, after);
    if before.wormhole.len() == 0 {
        lemma_spawned_like_template(
            after.rocks,
            blank(ActorType::Rock, DEFAULT_LAYER),
            before.player.pos,
            MAX_ROCK_VEL as int,
        );
        lemma_spawned_like_template(
            after.wormhole,
            blank(ActorType::Wormhole, WORMHOLE_LAYER),
            before.player.pos,
            MAX_WORMHOLE_VEL as int,
        );
    }
}

/// Play keeps a settled game settled: after a frame, with the level ended
/// if it has ended, the game is settled again if the player lives; if not,
/// the game that begins in its place is.
pub proof fn lemma_play_keeps_settled(g: GameView, after: GameView)
    requires
        settled(g),
        ready(g),
        frame(g).player.alive() ==> level_end(frame(g), after),
        !frame(g).player.alive() ==> fresh(after) && after.screen_width == g.screen_width
            && after.screen_height == g.screen_height,
    ensures
        settled(after),
{
    lemma_frame_keeps_settled(g);
    if frame(g).player.alive() {
        lemma_level_end_keeps_settled(frame(g), after);
    } else {
        lemma_fresh_is_settled(after);
    }
}

} // verus!
