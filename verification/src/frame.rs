//! One frame of the game: the held keys act, the triggers fire, everything
//! moves, collides and is pruned, a cleared level brings the next wave, and
//! a dead player starts the game over.

use vstd::prelude::*;
use crate::actor::{Actor, is_bounded};
use crate::collide::{all_collidable, collided, lemma_total_bounds, total_hits};
use crate::fixed::{COORD_MAX, ONE, POS_MAX, WIDE_MAX, fx_mul_spec, lemma_trunc_div_le};
use crate::game::{
    DT, GameView, LEVEL_BONUS, MainState, PLAYER_SHOT_TIME, SHOT_SPEED, SPAWN_MAX_RADIUS,
    SPAWN_MIN_RADIUS, fresh, new_wave, no_dead, pruned, pulse_from, shot_from, well_formed,
    with_pulse, with_shot,
};
use crate::physics::{
    PLAYER_TURN_RATE, aged, clamped, handle_timed_life, lemma_clamped_speed, lemma_step_bound,
    lemma_thrust_step_bound, moved, player_handle_input, steered, turn_step,
    update_actor_position, wrap_actor_position, wrapped,
};
use crate::spawn::{create_rocks, create_wormholes};
use crate::steady::{
    lemma_frame_keeps_kinds, lemma_fresh_is_ready, lemma_level_end_keeps_kinds,
    lemma_play_keeps_settled, settled,
};
use crate::trig::{lemma_heading_is_unit, vec_from_angle_spec};
use crate::vector::lemma_product_bound;

verus! {

/// Score and level of a game that has ended.
#[derive(Clone, Copy, Debug, PartialEq, Eq, Structural)]
pub struct FinalScore {
    pub score: i32,
    pub level: i32,
}

/// What a frame asks of the world around the game.
#[derive(Clone, Copy, Debug)]
pub struct FrameReport {
    /// Times to play the firing sound: one for a shot, one for a radar pulse.
    pub fire_sounds: u8,
    /// Times to play the hit sound: one for each shot on each rock.
    pub hit_sounds: i32,
    /// Set when the player died in this frame: the result of the game that
    /// ended, to be shown before the next one, which has already begun.
    pub game_over: Option<FinalScore>,
}

/// A trigger goes off in this frame: it is held, and its cooldown, a frame
/// older, has run out.
pub open spec fn trigger_fires(timeout: int, held: bool) -> bool {
    held && timeout - DT < 0
}

/// The game after the held keys have acted on the player.
pub open spec fn steered_game(g: GameView) -> GameView {
    GameView { player: steered(g.player, g.input, DT as int), ..g }
}

/// The game after both cooldowns have run for a frame and each trigger that
/// goes off has let its shot or pulse leave.
pub open spec fn fired(g: GameView) -> GameView {
    let g1 = GameView { player_shot_timeout: g.player_shot_timeout - DT, ..g };
    let g2 = if trigger_fires(g.player_shot_timeout, g.input.fire) {
        with_shot(g1)
    } else {
        g1
    };
    let g3 = GameView { player_radar_timeout: g2.player_radar_timeout - DT, ..g2 };
    if trigger_fires(g.player_radar_timeout, g.input.radar) {
        with_pulse(g3)
    } else {
        g3
    }
}

/// The number of triggers that go off in the frame of `g`.
pub open spec fn fire_sounds(g: GameView) -> int {
    (if trigger_fires(g.player_shot_timeout, g.input.fire) {
        1int
    } else {
        0int
    }) + (if trigger_fires(g.player_radar_timeout, g.input.radar) {
        1int
    } else {
        0int
    })
}

/// A frame adds a shot exactly when the trigger goes off, and the cooldown
/// starts anew exactly then.
pub proof fn lemma_fired_shots(g: GameView)
    ensures
        trigger_fires(g.player_shot_timeout, g.input.fire) ==> fired(g).shots.len() == g.shots.len()
            + 1 && fired(g).player_shot_timeout == PLAYER_SHOT_TIME,
        !trigger_fires(g.player_shot_timeout, g.input.fire) ==> fired(g).shots == g.shots && fired(
            g,
        ).player_shot_timeout == g.player_shot_timeout - DT,
{
}

/// The number of shots that leave in `frames` frames with fire held, from a
/// cooldown of `timeout`.
pub open spec fn shots_within(timeout: int, frames: nat) -> nat
    decreases frames,
{
    if frames == 0 {
        0
    } else if trigger_fires(timeout, true) {
        1 + shots_within(PLAYER_SHOT_TIME as int, (frames - 1) as nat)
    } else {
        shots_within(timeout - DT, (frames - 1) as nat)
    }
}

/// No shot leaves while the cooldown has not run out.
pub proof fn lemma_cooldown_blocks(timeout: int, frames: nat)
    requires
        timeout - frames * DT >= 0,
    ensures
        shots_within(timeout, frames) == 0,
    decreases frames,
{
    if frames > 0 {
        lemma_cooldown_blocks(timeout - DT, (frames - 1) as nat);
    }
}

/// One shot leaves in a span that outlasts the cooldown by up to half a second.
pub proof fn lemma_cooldown_releases(timeout: int, frames: nat)
    requires
        timeout >= 0,
        timeout % (DT as int) == 0,
        timeout < frames * DT <= timeout + DT + PLAYER_SHOT_TIME,
    ensures
        shots_within(timeout, frames) == 1,
    decreases frames,
{
    if trigger_fires(timeout, true) {
        lemma_cooldown_blocks(PLAYER_SHOT_TIME as int, (frames - 1) as nat);
    } else {
        lemma_cooldown_releases(timeout - DT, (frames - 1) as nat);
    }
}

/// Cooldown gating: with fire held ever since a shot, no second shot leaves
/// within half a second, and exactly one leaves within any span longer than
/// that, up to a frame over twice the cooldown.
pub proof fn lemma_cooldown_gating(frames: nat)
    ensures
        frames * DT <= PLAYER_SHOT_TIME ==> shots_within(PLAYER_SHOT_TIME as int, frames) == 0,
        PLAYER_SHOT_TIME < frames * DT <= 2 * PLAYER_SHOT_TIME + DT ==> shots_within(
            PLAYER_SHOT_TIME as int,
            frames,
        ) == 1,
{
    if frames * DT <= PLAYER_SHOT_TIME {
        lemma_cooldown_blocks(PLAYER_SHOT_TIME as int, frames);
    } else if frames * DT <= 2 * PLAYER_SHOT_TIME + DT {
        lemma_cooldown_releases(PLAYER_SHOT_TIME as int, frames);
    }
}

/// An actor one frame later: moved and wrapped if its kind moves, aged if
/// its life is a timer.
pub open spec fn advanced(a: Actor, w: int, h: int, moves: bool, ages: bool) -> Actor {
    let m = if moves {
        wrapped(moved(a, DT as int), w, h)
    } else {
        a
    };
    if ages {
        aged(m, DT as int)
    } else {
        m
    }
}

/// Each actor of `s` one frame later.
pub open spec fn advanced_all(s: Seq<Actor>, w: int, h: int, moves: bool, ages: bool) -> Seq<Actor> {
    Seq::new(s.len(), |i: int| advanced(s[i], w, h, moves, ages))
}

/// The game after everything has moved: the player and the rocks move, the
/// shots move and age, the radar pulses age, the wormholes stay.
pub open spec fn moved_game(g: GameView) -> GameView {
    GameView {
        player: advanced(g.player, g.screen_width, g.screen_height, true, false),
        shots: advanced_all(g.shots, g.screen_width, g.screen_height, true, true),
        radar: advanced_all(g.radar, g.screen_width, g.screen_height, false, true),
        rocks: advanced_all(g.rocks, g.screen_width, g.screen_height, true, false),
        ..g
    }
}

/// The game at the end of a frame, before the level and the player are looked at.
pub open spec fn frame(g: GameView) -> GameView {
    pruned(collided(moved_game(fired(steered_game(g)))))
}

/// The number of shots on rocks in the frame of `g`, pair by pair.
pub open spec fn frame_hits(g: GameView) -> int {
    let m = moved_game(fired(steered_game(g)));
    total_hits(m.rocks, m.shots)
}

/// Score and level of a game whose frame ended in `mid`, with the level
/// ended if no wormhole is left.
pub open spec fn final_score(mid: GameView) -> FinalScore {
    if mid.wormhole.len() == 0 {
        FinalScore { score: (mid.score + LEVEL_BONUS) as i32, level: (mid.level + 1) as i32 }
    } else {
        FinalScore { score: mid.score as i32, level: mid.level as i32 }
    }
}

/// The keys and the triggers of a frame of `g` can act without overflow.
pub open spec fn can_apply_input(g: GameView) -> bool {
    &&& -COORD_MAX <= g.input.xaxis <= COORD_MAX
    &&& -WIDE_MAX <= g.player.facing <= WIDE_MAX
    &&& g.player.velocity.within(COORD_MAX as int)
    &&& i64::MIN + DT <= g.player_shot_timeout <= i64::MAX
    &&& i64::MIN + DT <= g.player_radar_timeout <= i64::MAX
    &&& i32::MIN <= g.radar_layer <= i32::MAX - 2
}

/// `after` is `before` with its level ended, if it has ended: once no
/// wormhole is left the level is worth its bonus, the next one begins, and
/// its wave appears around the player.
pub open spec fn level_end(before: GameView, after: GameView) -> bool {
    if before.wormhole.len() == 0 {
        &&& after == GameView {
            score: before.score + LEVEL_BONUS,
            level: before.level + 1,
            rocks: after.rocks,
            wormhole: after.wormhole,
            ..before
        }
        &&& new_wave(after.rocks, after.wormhole, before.level + 1, before.player.pos)
    } else {
        after == before
    }
}

/// Level end: once no wormhole is left, the score is ten higher, the level
/// is one higher, and there are exactly one wormhole and twice the new level
/// plus five rocks.
pub proof fn lemma_level_end_counts(before: GameView, after: GameView)
    requires
        level_end(before, after),
        before.wormhole.len() == 0,
        before.level >= -3,
    ensures
        after.score == before.score + 10,
        after.level == before.level + 1,
        after.wormhole.len() == 1,
        after.rocks.len() == after.level * 2 + 5,
{
}

/// Every actor of `s` is small enough for a whole frame.
pub open spec fn all_bounded(s: Seq<Actor>) -> bool {
    forall|i: int| 0 <= i < s.len() ==> (#[trigger] s[i]).bounded()
}

/// Every actor of `s` can be moved and aged by one frame.
pub open spec fn all_movable(s: Seq<Actor>) -> bool {
    forall|i: int| 0 <= i < s.len() ==> (#[trigger] s[i]).movable()
}

/// A frame of `g` can be computed without overflow: positions, speeds,
/// angles and timers are far from the ends of their types, and the counters
/// have room for what the frame may add.
pub open spec fn ready(g: GameView) -> bool {
    &&& g.player.bounded()
    &&& all_bounded(g.shots)
    &&& all_bounded(g.radar)
    &&& all_bounded(g.rocks)
    &&& all_bounded(g.wormhole)
    &&& -POS_MAX <= g.screen_width <= POS_MAX
    &&& -POS_MAX <= g.screen_height <= POS_MAX
    &&& -COORD_MAX <= g.input.xaxis <= COORD_MAX
    &&& -WIDE_MAX <= g.player_shot_timeout <= WIDE_MAX
    &&& -WIDE_MAX <= g.player_radar_timeout <= WIDE_MAX
    &&& i32::MIN <= g.radar_layer <= i32::MAX - 2
    &&& -1_000_000_000 <= g.level <= 1_000_000_000
    &&& g.rocks.len() * (g.shots.len() + 1) <= i32::MAX
    &&& g.score + g.rocks.len() * (g.shots.len() + 1) + LEVEL_BONUS <= i32::MAX
}

/// The turn of a frame is small.
proof fn lemma_turn_bound(xaxis: int)
    requires
        -COORD_MAX <= xaxis <= COORD_MAX,
    ensures
        -50_000_000 <= turn_step(xaxis, DT as int) <= 50_000_000,
{
    assert(fx_mul_spec(DT as int, PLAYER_TURN_RATE as int) == 3_000) by {
        assert(DT * PLAYER_TURN_RATE == 180_000_000) by (nonlinear_arith);
    }
    lemma_product_bound(3_000, 3_000, xaxis, COORD_MAX as int);
    assert(3_000 * COORD_MAX == 50_000_000 * ONE) by (nonlinear_arith);
    lemma_trunc_div_le(3_000 * xaxis, ONE as int, 50_000_000);
}

/// What leaves the player can be moved.
proof fn lemma_fired_movable(g: GameView)
    requires
        g.player.pos.within(POS_MAX as int),
        -WIDE_MAX - 50_000_000 <= g.player.facing <= WIDE_MAX + 50_000_000,
        i32::MIN <= g.radar_layer <= i32::MAX,
    ensures
        shot_from(g.player).movable(),
        pulse_from(g.player, g.radar_layer as i32).movable(),
{
    let dir = vec_from_angle_spec(g.player.facing as int);
    lemma_heading_is_unit(g.player.facing as int);
    lemma_product_bound(SHOT_SPEED as int, SHOT_SPEED as int, dir.x as int, ONE as int);
    lemma_product_bound(SHOT_SPEED as int, SHOT_SPEED as int, dir.y as int, ONE as int);
    lemma_trunc_div_le(SHOT_SPEED * dir.x, ONE as int, SHOT_SPEED as int);
    lemma_trunc_div_le(SHOT_SPEED * dir.y, ONE as int, SHOT_SPEED as int);
}

/// After the keys and the triggers of a frame, everything can be moved.
pub proof fn lemma_input_keeps_movable(g: GameView)
    requires
        ready(g),
    ensures
        fired(steered_game(g)).player.movable(),
        all_movable(fired(steered_game(g)).shots),
        all_movable(fired(steered_game(g)).radar),
        all_movable(fired(steered_game(g)).rocks),
        fired(steered_game(g)).rocks == g.rocks,
        fired(steered_game(g)).wormhole == g.wormhole,
        fired(steered_game(g)).shots.len() <= g.shots.len() + 1,
        fired(steered_game(g)).screen_width == g.screen_width,
        fired(steered_game(g)).screen_height == g.screen_height,
        fired(steered_game(g)).score == g.score,
        fired(steered_game(g)).level == g.level,
{
    let s = steered_game(g);
    lemma_turn_bound(g.input.xaxis as int);
    let turned = Actor {
        facing: (g.player.facing + turn_step(g.input.xaxis as int, DT as int)) as i64,
        ..g.player
    };
    lemma_thrust_step_bound(turned.facing as int, DT as int);
    assert(s.player.movable());
    lemma_fired_movable(s);
    let f = fired(s);
    assert forall|i: int| 0 <= i < f.shots.len() implies (#[trigger] f.shots[i]).movable() by {
        if i < g.shots.len() {
            assert(g.shots[i].bounded());
        }
    }
    assert forall|i: int| 0 <= i < f.radar.len() implies (#[trigger] f.radar[i]).movable() by {
        if i < g.radar.len() {
            assert(g.radar[i].bounded());
        }
    }
    assert forall|i: int| 0 <= i < f.rocks.len() implies (#[trigger] f.rocks[i]).movable() by {
        assert(g.rocks[i].bounded());
    }
}

/// An actor that can be moved can, a frame later, be tested for collisions.
pub proof fn lemma_advanced_collidable(a: Actor, w: int, h: int, moves: bool, ages: bool)
    requires
        a.movable(),
        -POS_MAX <= w <= POS_MAX,
        -POS_MAX <= h <= POS_MAX,
    ensures
        advanced(a, w, h, moves, ages).collidable(),
        advanced(a, w, h, moves, ages).bbox_size == a.bbox_size,
{
    if moves {
        lemma_clamped_speed(a.velocity);
        lemma_step_bound(clamped(a.velocity), DT as int);
    }
}

/// Moves and ages every actor of `v` by one frame, as its kind asks.
pub fn advance_all(v: &mut Vec<Actor>, w: i64, h: i64, moves: bool, ages: bool)
    requires
        all_movable(old(v)@),
        -POS_MAX <= w <= POS_MAX,
        -POS_MAX <= h <= POS_MAX,
    ensures
        final(v)@ == advanced_all(old(v)@, w as int, h as int, moves, ages),
        all_collidable(final(v)@),
{
    let n = v.len();
    let mut i: usize = 0;
    while i < n
        invariant
            0 <= i <= n,
            n == v@.len(),
            n == old(v)@.len(),
            all_movable(old(v)@),
            -POS_MAX <= w <= POS_MAX,
            -POS_MAX <= h <= POS_MAX,
            forall|k: int|
                0 <= k < i ==> #[trigger] v@[k] == advanced(old(v)@[k], w as int, h as int, moves, ages),
            forall|k: int| i <= k < n ==> #[trigger] v@[k] == old(v)@[k],
        decreases n - i,
    {
        let mut a = v[i];
        assert(a == old(v)@[i as int]);
        assert(a.movable());
        if moves {
            update_actor_position(&mut a, DT);
            proof {
                lemma_clamped_speed(old(v)@[i as int].velocity);
                lemma_step_bound(a.velocity, DT as int);
            }
            wrap_actor_position(&mut a, w, h);
        }
        if ages {
            handle_timed_life(&mut a, DT);
        }
        v.set(i, a);
        i = i + 1;
    }
    proof {
        assert(v@ =~= advanced_all(old(v)@, w as int, h as int, moves, ages));
        assert forall|k: int| 0 <= k < v@.len() implies (#[trigger] v@[k]).collidable() by {
            lemma_advanced_collidable(old(v)@[k], w as int, h as int, moves, ages);
        }
    }
}

/// Whether every actor of `v` is small enough for a whole frame.
pub fn all_within_bounds(v: &Vec<Actor>) -> (b: bool)
    ensures
        b == all_bounded(v@),
{
    let mut i: usize = 0;
    while i < v.len()
        invariant
            0 <= i <= v@.len(),
            forall|k: int| 0 <= k < i ==> (#[trigger] v@[k]).bounded(),
        decreases v@.len() - i,
    {
        if !is_bounded(&v[i]) {
            return false;
        }
        i = i + 1;
    }
    true
}

impl MainState {
    /// Whether the next frame can be computed without overflow. A game that
    /// is played stays so for longer than anyone plays: what may run out are
    /// the 32 bits of the score and of the radar layers, and the 62 bits of
    /// the timers and the angles.
    pub fn can_update(&self) -> (b: bool)
        ensures
            b == ready(self@),
    {
        let rocks = self.rocks.len();
        let shots = self.shots.len();
        if !(is_bounded(&self.player) && all_within_bounds(&self.shots) && all_within_bounds(
            &self.radar,
        ) && all_within_bounds(&self.rocks) && all_within_bounds(&self.wormhole)) {
            return false;
        }
        if !(-POS_MAX <= self.screen_width && self.screen_width <= POS_MAX && -POS_MAX
            <= self.screen_height && self.screen_height <= POS_MAX && -COORD_MAX
            <= self.input.xaxis && self.input.xaxis <= COORD_MAX && -WIDE_MAX
            <= self.player_shot_timeout && self.player_shot_timeout <= WIDE_MAX && -WIDE_MAX
            <= self.player_radar_timeout && self.player_radar_timeout <= WIDE_MAX
            && self.radar_layer <= i32::MAX - 2 && -1_000_000_000 <= self.level && self.level
            <= 1_000_000_000) {
            return false;
        }
        if rocks == 0 {
            assert(rocks * (shots + 1) == 0) by (nonlinear_arith)
                requires
                    rocks == 0,
            ;
            return self.score <= i32::MAX - LEVEL_BONUS;
        }
        if rocks > 0x7fff_ffff || shots >= 0x7fff_ffff {
            assert(rocks * (shots + 1) > i32::MAX) by (nonlinear_arith)
                requires
                    rocks >= 1,
                    shots >= 0,
                    rocks > 0x7fff_ffff || shots >= 0x7fff_ffff,
            ;
            return false;
        }
        assert(rocks * (shots + 1) <= 0x7fff_ffff * 0x8000_0000) by (nonlinear_arith)
            requires
                0 <= rocks <= 0x7fff_ffff,
                0 <= shots < 0x7fff_ffff,
        ;
        let pairs: i64 = (rocks as i64) * (shots as i64 + 1);
        pairs <= 0x7fff_ffff && self.score as i64 + pairs + LEVEL_BONUS as i64 <= 0x7fff_ffff
    }

    /// Lets the held keys act on the player, runs both cooldowns for a frame
    /// and fires what goes off. Returns the number of firing sounds to play.
    pub fn apply_input(&mut self) -> (sounds: u8)
        requires
            can_apply_input(old(self)@),
        ensures
            final(self)@ == fired(steered_game(old(self)@)),
            sounds == fire_sounds(old(self)@),
    {
        proof {
            lemma_turn_bound(self.input.xaxis as int);
        }
        let input = self.input;
        player_handle_input(&mut self.player, &input, DT);
        let mut sounds: u8 = 0;
        self.player_shot_timeout = self.player_shot_timeout - DT;
        if self.input.fire && self.player_shot_timeout < 0 {
            self.fire_player_shot();
            sounds = sounds + 1;
        }
        self.player_radar_timeout = self.player_radar_timeout - DT;
        if self.input.radar && self.player_radar_timeout < 0 {
            self.fire_player_radar();
            sounds = sounds + 1;
        }
        sounds
    }

    /// Moves everything by one frame.
    pub fn move_actors(&mut self)
        requires
            old(self)@.player.movable(),
            all_movable(old(self)@.shots),
            all_movable(old(self)@.radar),
            all_movable(old(self)@.rocks),
            -POS_MAX <= old(self)@.screen_width <= POS_MAX,
            -POS_MAX <= old(self)@.screen_height <= POS_MAX,
        ensures
            final(self)@ == moved_game(old(self)@),
            final(self)@.player.collidable(),
            all_collidable(final(self)@.shots),
            all_collidable(final(self)@.rocks),
    {
        let w = self.screen_width;
        let h = self.screen_height;
        proof {
            lemma_advanced_collidable(self.player, w as int, h as int, true, false);
            lemma_clamped_speed(self.player.velocity);
            lemma_step_bound(clamped(self.player.velocity), DT as int);
        }
        update_actor_position(&mut self.player, DT);
        wrap_actor_position(&mut self.player, w, h);
        advance_all(&mut self.shots, w, h, true, true);
        advance_all(&mut self.radar, w, h, false, true);
        advance_all(&mut self.rocks, w, h, true, false);
    }

    /// Ends the level if no wormhole is left: the bonus is scored, the next
    /// level begins, and its wave appears around the player.
    pub fn check_for_level_end(&mut self)
        requires
            old(self)@.wormhole.len() == 0 ==> {
                &&& old(self)@.score + LEVEL_BONUS <= i32::MAX
                &&& -1_000_000_000 <= old(self)@.level <= 1_000_000_000
                &&& old(self)@.player.pos.within(COORD_MAX as int)
            },
        ensures
            level_end(old(self)@, final(self)@),
    {
        if self.wormhole.len() == 0 {
            self.score = self.score + LEVEL_BONUS;
            self.level = self.level + 1;
            self.wormhole = create_wormholes(1, self.player.pos, SPAWN_MIN_RADIUS, SPAWN_MAX_RADIUS);
            self.rocks = create_rocks(
                self.level * 2 + 5,
                self.player.pos,
                SPAWN_MIN_RADIUS,
                SPAWN_MAX_RADIUS,
            );
        }
    }

    /// Plays one frame. The state at its end is `frame` of the state at its
    /// start, with the level ended if no wormhole is left; if the player is
    /// dead by then, the result of the game is reported and a new game has
    /// begun on the same field.
    pub fn update(&mut self) -> (report: FrameReport)
        requires
            ready(old(self)@),
        ensures
            report.fire_sounds == fire_sounds(old(self)@),
            report.hit_sounds == frame_hits(old(self)@),
            frame(old(self)@).player.alive() ==> {
                &&& report.game_over is None
                &&& level_end(frame(old(self)@), final(self)@)
            },
            !frame(old(self)@).player.alive() ==> {
                &&& report.game_over == Some(final_score(frame(old(self)@)))
                &&& fresh(final(self)@)
                &&& final(self)@.screen_width == old(self)@.screen_width
                &&& final(self)@.screen_height == old(self)@.screen_height
            },
            well_formed(old(self)@) ==> well_formed(final(self)@),
            well_formed(old(self)@) ==> no_dead(final(self)@) && final(self)@.wormhole.len() >= 1,
            settled(old(self)@) ==> settled(final(self)@),
    {
        let ghost g0 = self@;
        proof {
            lemma_input_keeps_movable(g0);
            if well_formed(g0) {
                lemma_frame_keeps_kinds(g0);
            }
        }
        let fire_sounds = self.apply_input();
        self.move_actors();
        let ghost g2 = self@;
        proof {
            assert(g2.rocks.len() == g0.rocks.len());
            assert(g2.shots.len() <= g0.shots.len() + 1);
            assert(g2.rocks.len() * g2.shots.len() <= g0.rocks.len() * (g0.shots.len() + 1))
                by (nonlinear_arith)
                requires
                    g2.rocks.len() == g0.rocks.len(),
                    g2.shots.len() <= g0.shots.len() + 1,
            ;
            assert(all_collidable(g2.wormhole)) by {
                assert forall|k: int| 0 <= k < g2.wormhole.len() implies (
                #[trigger] g2.wormhole[k]).collidable() by {
                    assert(g0.wormhole[k].bounded());
                }
            }
            lemma_total_bounds(g2.rocks, g2.shots);
        }
        let hit_sounds = self.handle_collisions();
        self.clear_dead_stuff();
        assert(self@ == frame(g0));
        self.check_for_level_end();
        proof {
            if well_formed(g0) {
                lemma_level_end_keeps_kinds(frame(g0), self@);
            }
        }
        let mut game_over: Option<FinalScore> = None;
        if self.player.life <= 0 {
            game_over = Some(FinalScore { score: self.score, level: self.level });
            self.reset();
            proof {
                lemma_fresh_is_ready(self@);
            }
        }
        proof {
            if settled(g0) {
                lemma_play_keeps_settled(g0, self@);
            }
        }
        FrameReport { fire_sounds, hit_sounds, game_over }
    }
}

} // verus!
