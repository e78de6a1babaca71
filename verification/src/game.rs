//! The whole game: every actor, the counters and timers, and the frame that
//! takes one state to the next.

use vstd::prelude::*;
use crate::actor::{
    Actor, ActorType, DEFAULT_LAYER, WORMHOLE_LAYER, blank, create_player, create_radar,
    create_shot,
};
use crate::fixed::{ONE, fx_mul_spec};
use crate::frame::ready;
use crate::physics::{InputState, idle_input};
use crate::spawn::{MAX_ROCK_VEL, MAX_WORMHOLE_VEL, all_spawned, create_rocks, create_wormholes};
use crate::steady::{lemma_fresh_is_ready, lemma_fresh_is_settled, settled};
use crate::trig::{vec_from_angle, vec_from_angle_spec};
use crate::vector::{Vector, lemma_product_bound};

verus! {

/// The length of a frame: a sixtieth of a second, whatever the wall clock says.
pub const DT: i64 = 1_000;

/// Speed of a shot: 200 units per second.
pub const SHOT_SPEED: i64 = 12_000_000;

/// Seconds between two shots: 0.5.
pub const PLAYER_SHOT_TIME: i64 = 30_000;

/// Seconds between two radar pulses: 0.4.
pub const PLAYER_RADAR_TIME: i64 = 24_000;

/// Inner radius of the ring in which a new wave appears: 100 units.
pub const SPAWN_MIN_RADIUS: i64 = 6_000_000;

/// Outer radius of the ring in which a new wave appears: 250 units.
pub const SPAWN_MAX_RADIUS: i64 = 15_000_000;

/// Width of the field of a new game: 800 units.
pub const FIELD_WIDTH: i64 = 48_000_000;

/// Height of the field of a new game: 600 units.
pub const FIELD_HEIGHT: i64 = 36_000_000;

/// Rocks of the first wave.
pub const FIRST_WAVE: i32 = 5;

/// Points for clearing a level.
pub const LEVEL_BONUS: i32 = 10;

/// The state of a game. It owns every actor, each in the collection of its kind.
pub struct MainState {
    pub player: Actor,
    pub shots: Vec<Actor>,
    pub radar: Vec<Actor>,
    pub rocks: Vec<Actor>,
    /// At most one in play, kept as a collection like the others.
    pub wormhole: Vec<Actor>,
    pub level: i32,
    pub score: i32,
    pub screen_width: i64,
    pub screen_height: i64,
    pub input: InputState,
    /// Seconds until the next shot may leave; runs on below zero.
    pub player_shot_timeout: i64,
    /// Seconds until the next radar pulse may leave; runs on below zero.
    pub player_radar_timeout: i64,
    /// Layer of the next radar pulse.
    pub radar_layer: i32,
}

/// A game as a mathematical value: the collections are sequences.
pub struct GameView {
    pub player: Actor,
    pub shots: Seq<Actor>,
    pub radar: Seq<Actor>,
    pub rocks: Seq<Actor>,
    pub wormhole: Seq<Actor>,
    pub level: int,
    pub score: int,
    pub screen_width: int,
    pub screen_height: int,
    pub input: InputState,
    pub player_shot_timeout: int,
    pub player_radar_timeout: int,
    pub radar_layer: int,
}

impl View for MainState {
    type V = GameView;

    open spec fn view(&self) -> GameView {
        GameView {
            player: self.player,
            shots: self.shots@,
            radar: self.radar@,
            rocks: self.rocks@,
            wormhole: self.wormhole@,
            level: self.level as int,
            score: self.score as int,
            screen_width: self.screen_width as int,
            screen_height: self.screen_height as int,
            input: self.input,
            player_shot_timeout: self.player_shot_timeout as int,
            player_radar_timeout: self.player_radar_timeout as int,
            radar_layer: self.radar_layer as int,
        }
    }
}

/// The number of rocks of the wave of `level`.
pub open spec fn wave_size(level: int) -> int {
    if level * 2 + 5 > 0 {
        level * 2 + 5
    } else {
        0
    }
}

/// `rocks` and `wormhole` are a wave of `level`, newly spawned around `centre`.
pub open spec fn new_wave(rocks: Seq<Actor>, wormhole: Seq<Actor>, level: int, centre: Vector) -> bool {
    &&& rocks.len() == wave_size(level)
    &&& all_spawned(
        rocks,
        blank(ActorType::Rock, DEFAULT_LAYER),
        centre,
        SPAWN_MIN_RADIUS as int,
        SPAWN_MAX_RADIUS as int,
        MAX_ROCK_VEL as int,
    )
    &&& wormhole.len() == 1
    &&& all_spawned(
        wormhole,
        blank(ActorType::Wormhole, WORMHOLE_LAYER),
        centre,
        SPAWN_MIN_RADIUS as int,
        SPAWN_MAX_RADIUS as int,
        MAX_WORMHOLE_VEL as int,
    )
}

/// `g` is a game that has just begun: a new player at the origin, the first
/// wave around it, nothing in flight, nothing held, all counters at zero.
pub open spec fn fresh(g: GameView) -> bool {
    &&& g.player == blank(ActorType::Player, DEFAULT_LAYER)
    &&& g.shots.len() == 0
    &&& g.radar.len() == 0
    &&& new_wave(g.rocks, g.wormhole, 0, Vector { x: 0, y: 0 })
    &&& g.level == 0
    &&& g.score == 0
    &&& g.input == idle_input()
    &&& g.player_shot_timeout == 0
    &&& g.player_radar_timeout == 0
    &&& g.radar_layer == 0
}

/// Every actor of `s` is of kind `tag`, with the radius, the spin and the
/// layer of its kind.
pub open spec fn all_of_kind(s: Seq<Actor>, tag: ActorType) -> bool {
    forall|i: int| 0 <= i < s.len() ==> (#[trigger] s[i]).tag == tag && s[i].of_its_kind()
}

/// Every actor is in the collection of its kind, and has the radius, the
/// spin and, but for radar pulses, the layer that its kind was made with.
pub open spec fn well_formed(g: GameView) -> bool {
    &&& g.player.tag == ActorType::Player
    &&& g.player.of_its_kind()
    &&& all_of_kind(g.shots, ActorType::Shot)
    &&& all_of_kind(g.radar, ActorType::Radar)
    &&& all_of_kind(g.rocks, ActorType::Rock)
    &&& all_of_kind(g.wormhole, ActorType::Wormhole)
}

/// Every actor of the collections of `g` is alive.
pub open spec fn no_dead(g: GameView) -> bool {
    &&& all_alive(g.shots)
    &&& all_alive(g.radar)
    &&& all_alive(g.rocks)
    &&& all_alive(g.wormhole)
}

/// A game that has just begun has a new player, five rocks, one wormhole,
/// nothing in flight, and is at level 0 with a score of 0.
pub proof fn lemma_fresh_counts(g: GameView)
    requires
        fresh(g),
    ensures
        g.player == blank(ActorType::Player, DEFAULT_LAYER),
        g.rocks.len() == 5,
        g.wormhole.len() == 1,
        g.shots.len() == 0,
        g.radar.len() == 0,
        g.level == 0,
        g.score == 0,
{
}

/// The shot that leaves `player`: from its place, along its facing, at full speed.
pub open spec fn shot_from(player: Actor) -> Actor {
    let dir = vec_from_angle_spec(player.facing as int);
    Actor {
        pos: player.pos,
        facing: player.facing,
        velocity: Vector {
            x: fx_mul_spec(SHOT_SPEED as int, dir.x as int) as i64,
            y: fx_mul_spec(SHOT_SPEED as int, dir.y as int) as i64,
        },
        ..blank(ActorType::Shot, DEFAULT_LAYER)
    }
}

/// The radar pulse that leaves `player` on `layer`: at its place, at rest.
pub open spec fn pulse_from(player: Actor, layer: i32) -> Actor {
    Actor { pos: player.pos, ..blank(ActorType::Radar, layer) }
}

/// The game after a shot has left the player and its cooldown has begun.
pub open spec fn with_shot(g: GameView) -> GameView {
    GameView {
        shots: g.shots.push(shot_from(g.player)),
        player_shot_timeout: PLAYER_SHOT_TIME as int,
        ..g
    }
}

/// The game after a radar pulse has left the player: the pulse takes the
/// next layer, the one after it lies two higher, and the cooldown has begun.
pub open spec fn with_pulse(g: GameView) -> GameView {
    GameView {
        radar: g.radar.push(pulse_from(g.player, g.radar_layer as i32)),
        radar_layer: g.radar_layer + 2,
        player_radar_timeout: PLAYER_RADAR_TIME as int,
        ..g
    }
}

/// The actors of `s` that are alive, in their order.
pub open spec fn survivors(s: Seq<Actor>) -> Seq<Actor>
    decreases s.len(),
{
    if s.len() == 0 {
        Seq::empty()
    } else {
        let rest = survivors(s.drop_last());
        if s.last().alive() {
            rest.push(s.last())
        } else {
            rest
        }
    }
}

/// The game without its dead: every collection keeps its living actors, and
/// the radar layers start over once no pulse is left.
pub open spec fn pruned(g: GameView) -> GameView {
    GameView {
        shots: survivors(g.shots),
        rocks: survivors(g.rocks),
        radar: survivors(g.radar),
        wormhole: survivors(g.wormhole),
        radar_layer: if survivors(g.radar).len() == 0 {
            0
        } else {
            g.radar_layer
        },
        ..g
    }
}

/// Every actor of `s` is alive.
pub open spec fn all_alive(s: Seq<Actor>) -> bool {
    forall|i: int| 0 <= i < s.len() ==> (#[trigger] s[i]).alive()
}

/// The survivors are alive, and no more than there were actors.
pub proof fn lemma_survivors_alive(s: Seq<Actor>)
    ensures
        all_alive(survivors(s)),
        survivors(s).len() <= s.len(),
    decreases s.len(),
{
    if s.len() > 0 {
        lemma_survivors_alive(s.drop_last());
    }
}

/// Where all are alive, all survive.
pub proof fn lemma_survivors_of_living(s: Seq<Actor>)
    requires
        all_alive(s),
    ensures
        survivors(s) == s,
    decreases s.len(),
{
    if s.len() > 0 {
        lemma_survivors_of_living(s.drop_last());
        assert(s.drop_last().push(s.last()) =~= s);
    }
}

/// Every survivor was there before.
pub proof fn lemma_survivors_were_there(s: Seq<Actor>, i: int) -> (j: int)
    requires
        0 <= i < survivors(s).len(),
    ensures
        0 <= j < s.len(),
        s[j] == survivors(s)[i],
    decreases s.len(),
{
    let rest = survivors(s.drop_last());
    if s.last().alive() && i == rest.len() {
        s.len() - 1
    } else {
        lemma_survivors_were_there(s.drop_last(), i)
    }
}

/// Pruning keeps the kinds apart.
pub proof fn lemma_survivors_of_kind(s: Seq<Actor>, tag: ActorType)
    requires
        all_of_kind(s, tag),
    ensures
        all_of_kind(survivors(s), tag),
{
    assert forall|i: int| 0 <= i < survivors(s).len() implies (#[trigger] survivors(s)[i]).tag == tag
        && survivors(s)[i].of_its_kind() by {
        let j = lemma_survivors_were_there(s, i);
        assert(s[j].tag == tag);
    }
}

/// Pruning twice leaves what pruning once leaves.
pub proof fn lemma_prune_idempotent(g: GameView)
    ensures
        pruned(pruned(g)) == pruned(g),
{
    lemma_survivors_alive(g.shots);
    lemma_survivors_alive(g.rocks);
    lemma_survivors_alive(g.radar);
    lemma_survivors_alive(g.wormhole);
    lemma_survivors_of_living(survivors(g.shots));
    lemma_survivors_of_living(survivors(g.rocks));
    lemma_survivors_of_living(survivors(g.radar));
    lemma_survivors_of_living(survivors(g.wormhole));
}

/// Drops the dead from `v`, keeping the order of the living.
pub fn retain_alive(v: &mut Vec<Actor>)
    ensures
        final(v)@ == survivors(old(v)@),
        all_alive(final(v)@),
{
    let mut kept: Vec<Actor> = Vec::new();
    let n = v.len();
    let mut i: usize = 0;
    while i < n
        invariant
            0 <= i <= n,
            n == v@.len(),
            v@ == old(v)@,
            kept@ == survivors(v@.take(i as int)),
        decreases n - i,
    {
        let a = v[i];
        proof {
            let next = v@.take(i as int + 1);
            assert(next.drop_last() =~= v@.take(i as int));
            assert(next.last() == a);
        }
        if a.is_alive() {
            kept.push(a);
        }
        i = i + 1;
    }
    proof {
        assert(v@.take(n as int) =~= v@);
        lemma_survivors_alive(v@);
    }
    *v = kept;
}

impl MainState {
    /// A game that has just begun, on a field of 800 by 600.
    pub fn new() -> (s: MainState)
        ensures
            fresh(s@),
            s@.screen_width == FIELD_WIDTH,
            s@.screen_height == FIELD_HEIGHT,
            settled(s@),
            ready(s@),
    {
        let player = create_player();
        let rocks = create_rocks(FIRST_WAVE, player.pos, SPAWN_MIN_RADIUS, SPAWN_MAX_RADIUS);
        let wormhole = create_wormholes(1, player.pos, SPAWN_MIN_RADIUS, SPAWN_MAX_RADIUS);
        let s = MainState {
            player,
            shots: Vec::new(),
            radar: Vec::new(),
            rocks,
            wormhole,
            level: 0,
            score: 0,
            screen_width: FIELD_WIDTH,
            screen_height: FIELD_HEIGHT,
            input: InputState::default(),
            player_shot_timeout: 0,
            player_radar_timeout: 0,
            radar_layer: 0,
        };
        proof {
            lemma_fresh_is_settled(s@);
            lemma_fresh_is_ready(s@);
        }
        s
    }

    /// Starts the game over on the same field.
    pub fn reset(&mut self)
        ensures
            fresh(final(self)@),
            final(self)@.screen_width == old(self)@.screen_width,
            final(self)@.screen_height == old(self)@.screen_height,
    {
        self.player = create_player();
        self.shots = Vec::new();
        self.radar = Vec::new();
        self.rocks = create_rocks(FIRST_WAVE, self.player.pos, SPAWN_MIN_RADIUS, SPAWN_MAX_RADIUS);
        self.wormhole = create_wormholes(1, self.player.pos, SPAWN_MIN_RADIUS, SPAWN_MAX_RADIUS);
        self.level = 0;
        self.score = 0;
        self.input = InputState::default();
        self.player_shot_timeout = 0;
        self.player_radar_timeout = 0;
        self.radar_layer = 0;
    }

    /// Lets a shot leave the player and starts its cooldown.
    pub fn fire_player_shot(&mut self)
        ensures
            final(self)@ == with_shot(old(self)@),
    {
        self.player_shot_timeout = PLAYER_SHOT_TIME;
        let mut shot = create_shot();
        shot.pos = self.player.pos;
        shot.facing = self.player.facing;
        let direction = vec_from_angle(shot.facing);
        proof {
            lemma_product_bound(SHOT_SPEED as int, SHOT_SPEED as int, direction.x as int, ONE as int);
            lemma_product_bound(SHOT_SPEED as int, SHOT_SPEED as int, direction.y as int, ONE as int);
        }
        shot.velocity = Vector {
            x: (SHOT_SPEED * direction.x) / ONE,
            y: (SHOT_SPEED * direction.y) / ONE,
        };
        self.shots.push(shot);
    }

    /// Lets a radar pulse leave the player and starts its cooldown.
    pub fn fire_player_radar(&mut self)
        requires
            old(self).radar_layer <= i32::MAX - 2,
        ensures
            final(self)@ == with_pulse(old(self)@),
    {
        self.player_radar_timeout = PLAYER_RADAR_TIME;
        let mut radar = create_radar(self.radar_layer);
        radar.pos = self.player.pos;
        self.radar_layer = self.radar_layer + 2;
        self.radar.push(radar);
    }

    /// Drops every dead actor; starts the radar layers over once no pulse is left.
    pub fn clear_dead_stuff(&mut self)
        ensures
            final(self)@ == pruned(old(self)@),
    {
        retain_alive(&mut self.shots);
        retain_alive(&mut self.rocks);
        retain_alive(&mut self.radar);
        retain_alive(&mut self.wormhole);
        if self.radar.len() == 0 {
            self.radar_layer = 0;
        }
    }
}

} // verus!
