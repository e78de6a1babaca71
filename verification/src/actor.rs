//! The one kind of simulated object, and what each kind of it starts with.

use vstd::prelude::*;
use crate::fixed::{COORD_MAX, POS_MAX, WIDE_MAX};
use crate::vector::Vector;

verus! {

/// What an actor is; it fixes the actor's size, layer, first life and spin.
#[derive(Clone, Copy, Debug, PartialEq, Eq, Structural)]
pub enum ActorType {
    Player,
    Rock,
    Shot,
    Radar,
    Wormhole,
}

/// The ship system that the single "activate" key drives. Only the player's counts.
#[derive(Clone, Copy, Debug, PartialEq, Eq, Structural)]
pub enum Systems {
    Engines,
    Weapons,
    Radar,
}

/// A simulated object. All scalars are fixed-point.
///
/// `life` has two readings: hit points for the player, rocks and wormholes
/// (gone at zero or below), seconds left for shots and radar pulses.
#[derive(Clone, Copy, Debug, PartialEq, Eq, Structural)]
pub struct Actor {
    pub tag: ActorType,
    pub sys: Systems,
    pub pos: Vector,
    /// Radians, clockwise from straight up.
    pub facing: i64,
    /// World units per second.
    pub velocity: Vector,
    /// Radians per frame.
    pub ang_vel: i64,
    /// Collision radius.
    pub bbox_size: i64,
    /// Drawing order; higher is nearer.
    pub layer: i32,
    pub life: i64,
}

/// Hit points of a new player, and of a new wormhole: 1.
pub const PLAYER_LIFE: i64 = 60_000;

/// Seconds that a shot flies: 2.
pub const SHOT_LIFE: i64 = 120_000;

/// Seconds that a radar pulse shows: 3.
pub const RADAR_LIFE: i64 = 180_000;

/// Hit points of a new rock: 1.
pub const ROCK_LIFE: i64 = 60_000;

/// Collision radius of the player: 12.
pub const PLAYER_BBOX: i64 = 720_000;

/// Collision radius of a rock: 12.
pub const ROCK_BBOX: i64 = 720_000;

/// Collision radius of a wormhole: 16.
pub const WORMHOLE_BBOX: i64 = 960_000;

/// Collision radius of a shot, and of a radar pulse: 6.
pub const SHOT_BBOX: i64 = 360_000;

/// Spin of a shot, and of a radar pulse: 0.1 radians per frame.
pub const SHOT_ANG_VEL: i64 = 6_000;

/// Layer of every actor but wormholes and radar pulses.
pub const DEFAULT_LAYER: i32 = 500;

/// Layer of a wormhole, just under the others.
pub const WORMHOLE_LAYER: i32 = 495;

/// The life that a kind starts with.
pub open spec fn default_life(tag: ActorType) -> i64 {
    match tag {
        ActorType::Player => PLAYER_LIFE,
        ActorType::Wormhole => PLAYER_LIFE,
        ActorType::Rock => ROCK_LIFE,
        ActorType::Shot => SHOT_LIFE,
        ActorType::Radar => RADAR_LIFE,
    }
}

/// The collision radius of a kind.
pub open spec fn default_bbox(tag: ActorType) -> i64 {
    match tag {
        ActorType::Player => PLAYER_BBOX,
        ActorType::Wormhole => WORMHOLE_BBOX,
        ActorType::Rock => ROCK_BBOX,
        ActorType::Shot => SHOT_BBOX,
        ActorType::Radar => SHOT_BBOX,
    }
}

/// The spin of a kind.
pub open spec fn default_ang_vel(tag: ActorType) -> i64 {
    match tag {
        ActorType::Shot => SHOT_ANG_VEL,
        ActorType::Radar => SHOT_ANG_VEL,
        _ => 0,
    }
}

/// The layer of a kind; a radar pulse gets its own from whoever makes it.
pub open spec fn default_layer(tag: ActorType) -> i32 {
    match tag {
        ActorType::Wormhole => WORMHOLE_LAYER,
        _ => DEFAULT_LAYER,
    }
}

/// A new actor of kind `tag` on layer `layer`: at the origin, at rest, facing
/// up, with the radius, life and spin of its kind.
pub open spec fn blank(tag: ActorType, layer: i32) -> Actor {
    Actor {
        tag,
        sys: Systems::Radar,
        pos: Vector { x: 0, y: 0 },
        facing: 0,
        velocity: Vector { x: 0, y: 0 },
        ang_vel: default_ang_vel(tag),
        bbox_size: default_bbox(tag),
        layer,
        life: default_life(tag),
    }
}

impl Actor {
    /// The actor still takes part in the game.
    pub open spec fn alive(self) -> bool {
        self.life > 0
    }

    /// Radius, spin and (but for radar pulses) layer are those of the actor's kind.
    pub open spec fn of_its_kind(self) -> bool {
        &&& self.bbox_size == default_bbox(self.tag)
        &&& self.ang_vel == default_ang_vel(self.tag)
        &&& self.tag != ActorType::Radar ==> self.layer == default_layer(self.tag)
    }

    /// The actor with its life at zero.
    pub open spec fn slain(self) -> Actor {
        Actor { life: 0, ..self }
    }

    /// The actor can be tested for collisions without overflow.
    pub open spec fn collidable(self) -> bool {
        &&& self.pos.within(COORD_MAX as int)
        &&& -COORD_MAX <= self.bbox_size <= COORD_MAX
    }

    /// The actor can be moved and aged by one frame without overflow.
    pub open spec fn movable(self) -> bool {
        &&& self.pos.within(POS_MAX as int)
        &&& self.velocity.within(2 * COORD_MAX)
        &&& -COORD_MAX <= self.bbox_size <= COORD_MAX
        &&& i64::MIN <= self.facing + self.ang_vel <= i64::MAX
        &&& i64::MIN + 1_000 <= self.life
    }

    /// Every field is small enough for a whole frame to be computed without overflow.
    pub open spec fn bounded(self) -> bool {
        &&& self.pos.within(POS_MAX as int)
        &&& self.velocity.within(COORD_MAX as int)
        &&& -COORD_MAX <= self.bbox_size <= COORD_MAX
        &&& -WIDE_MAX <= self.facing <= WIDE_MAX
        &&& -WIDE_MAX <= self.ang_vel <= WIDE_MAX
        &&& -WIDE_MAX <= self.life <= WIDE_MAX
    }

    /// The actor still takes part in the game.
    pub fn is_alive(&self) -> (b: bool)
        ensures
            b == self.alive(),
    {
        self.life > 0
    }
}

/// Whether every field is small enough for a whole frame.
pub fn is_bounded(a: &Actor) -> (b: bool)
    ensures
        b == a.bounded(),
{
    -POS_MAX <= a.pos.x && a.pos.x <= POS_MAX && -POS_MAX <= a.pos.y && a.pos.y <= POS_MAX
        && -COORD_MAX <= a.velocity.x && a.velocity.x <= COORD_MAX && -COORD_MAX <= a.velocity.y
        && a.velocity.y <= COORD_MAX && -COORD_MAX <= a.bbox_size && a.bbox_size <= COORD_MAX
        && -WIDE_MAX <= a.facing && a.facing <= WIDE_MAX && -WIDE_MAX <= a.ang_vel && a.ang_vel
        <= WIDE_MAX && -WIDE_MAX <= a.life && a.life <= WIDE_MAX
}

pub fn create_player() -> (a: Actor)
    ensures
        a == blank(ActorType::Player, DEFAULT_LAYER),
{
    Actor {
        tag: ActorType::Player,
        sys: Systems::Radar,
        pos: Vector::zero(),
        facing: 0,
        velocity: Vector::zero(),
        ang_vel: 0,
        bbox_size: PLAYER_BBOX,
        layer: DEFAULT_LAYER,
        life: PLAYER_LIFE,
    }
}

pub fn create_wormhole() -> (a: Actor)
    ensures
        a == blank(ActorType::Wormhole, WORMHOLE_LAYER),
{
    Actor {
        tag: ActorType::Wormhole,
        sys: Systems::Radar,
        pos: Vector::zero(),
        facing: 0,
        velocity: Vector::zero(),
        ang_vel: 0,
        bbox_size: WORMHOLE_BBOX,
        layer: WORMHOLE_LAYER,
        life: PLAYER_LIFE,
    }
}

pub fn create_rock() -> (a: Actor)
    ensures
        a == blank(ActorType::Rock, DEFAULT_LAYER),
{
    Actor {
        tag: ActorType::Rock,
        sys: Systems::Radar,
        pos: Vector::zero(),
        facing: 0,
        velocity: Vector::zero(),
        ang_vel: 0,
        bbox_size: ROCK_BBOX,
        layer: DEFAULT_LAYER,
        life: ROCK_LIFE,
    }
}

pub fn create_shot() -> (a: Actor)
    ensures
        a == blank(ActorType::Shot, DEFAULT_LAYER),
{
    Actor {
        tag: ActorType::Shot,
        sys: Systems::Radar,
        pos: Vector::zero(),
        facing: 0,
        velocity: Vector::zero(),
        ang_vel: SHOT_ANG_VEL,
        bbox_size: SHOT_BBOX,
        layer: DEFAULT_LAYER,
        life: SHOT_LIFE,
    }
}

/// A radar pulse on the layer that the caller hands out.
pub fn create_radar(layer: i32) -> (a: Actor)
    ensures
        a == blank(ActorType::Radar, layer),
{
    Actor {
        tag: ActorType::Radar,
        sys: Systems::Radar,
        pos: Vector::zero(),
        facing: 0,
        velocity: Vector::zero(),
        ang_vel: SHOT_ANG_VEL,
        bbox_size: SHOT_BBOX,
        layer,
        life: RADAR_LIFE,
    }
}

} // verus!
