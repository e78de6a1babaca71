//! What to draw: the game as a list of figures on the screen.
//!
//! The screen has its origin at the top left and `y` pointing down; the
//! world has its origin at the centre and `y` pointing up.

use vstd::prelude::*;
use crate::actor::{Actor, ActorType, RADAR_LIFE};
use crate::fixed::{COORD_MAX, ONE, trunc_div};
use crate::game::{GameView, MainState};
use crate::vector::Vector;

verus! {

/// The colours of the circles.
#[derive(Clone, Copy, Debug, PartialEq, Eq, Structural)]
pub enum Colour {
    Green,
    Black,
    Purple,
}

/// The pictures of the actors.
#[derive(Clone, Copy, Debug, PartialEq, Eq, Structural)]
pub enum Sprite {
    Player,
    Rock,
    Shot,
}

/// What is drawn.
#[derive(Clone, Copy, Debug, PartialEq, Eq, Structural)]
pub enum Figure {
    /// A filled circle of a radius in pixels.
    Circle { radius: i32, colour: Colour },
    /// A picture, centred.
    Image { sprite: Sprite },
}

/// One figure on the screen.
#[derive(Clone, Copy, Debug, PartialEq, Eq, Structural)]
pub struct DrawCommand {
    pub figure: Figure,
    /// Centre, in screen coordinates.
    pub center: Vector,
    /// Magnification about the centre; `ONE` leaves the figure as it is.
    pub scale: i64,
    /// Rotation about the centre, in radians, clockwise.
    pub rotation: i64,
    /// Drawing order; higher is nearer.
    pub layer: i64,
}

/// Largest magnitude of the life of a radar pulse that can be drawn.
pub const PULSE_LIFE_MAX: i64 = 400_000_000_000_000_000;

/// The place on a screen of `screen_width` by `screen_height` of a point of the world.
pub open spec fn on_screen(screen_width: int, screen_height: int, point: Vector) -> Vector {
    Vector {
        x: (point.x + trunc_div(screen_width, 2)) as i64,
        y: (screen_height - (point.y + trunc_div(screen_height, 2))) as i64,
    }
}

/// The whole part of a fixed-point scalar, rounded toward zero.
pub open spec fn whole_part(t: int) -> int {
    trunc_div(t, ONE as int) * ONE
}

/// What a fixed-point scalar has beyond its whole part; it has the sign of the scalar.
pub open spec fn fraction_part(t: int) -> int {
    t - whole_part(t)
}

/// The magnification of a radar pulse with `life` left: ten times the whole
/// seconds it has lived plus the fraction of the second it is in.
pub open spec fn pulse_scale(life: int) -> int {
    (whole_part(RADAR_LIFE - life) + fraction_part(RADAR_LIFE - life + ONE)) * 10
}

/// The picture of a kind. Radar pulses and wormholes are drawn as circles;
/// asked for a picture, they get the rock's.
pub open spec fn sprite_of(tag: ActorType) -> Sprite {
    match tag {
        ActorType::Player => Sprite::Player,
        ActorType::Shot => Sprite::Shot,
        _ => Sprite::Rock,
    }
}

/// The figures of one actor, farthest first. A radar pulse is a green ring
/// that grows with its age; a wormhole is a purple ring with a purple
/// heart; all others are their picture, turned to their facing.
pub open spec fn figures_of(a: Actor, screen_width: int, screen_height: int) -> Seq<DrawCommand> {
    let center = on_screen(screen_width, screen_height, a.pos);
    match a.tag {
        ActorType::Radar => {
            let scale = pulse_scale(a.life as int) as i64;
            seq![
                DrawCommand {
                    figure: Figure::Circle { radius: 16, colour: Colour::Green },
                    center,
                    scale,
                    rotation: 0,
                    layer: a.layer as i64,
                },
                DrawCommand {
                    figure: Figure::Circle { radius: 15, colour: Colour::Black },
                    center,
                    scale,
                    rotation: 0,
                    layer: (a.layer + 1) as i64,
                },
            ]
        },
        ActorType::Wormhole => seq![
            DrawCommand {
                figure: Figure::Circle { radius: 14, colour: Colour::Purple },
                center,
                scale: ONE,
                rotation: 0,
                layer: a.layer as i64,
            },
            DrawCommand {
                figure: Figure::Circle { radius: 12, colour: Colour::Black },
                center,
                scale: ONE,
                rotation: 0,
                layer: a.layer as i64,
            },
            DrawCommand {
                figure: Figure::Circle { radius: 2, colour: Colour::Purple },
                center,
                scale: ONE,
                rotation: 0,
                layer: a.layer as i64,
            },
        ],
        _ => seq![
            DrawCommand {
                figure: Figure::Image { sprite: sprite_of(a.tag) },
                center,
                scale: ONE,
                rotation: a.facing,
                layer: a.layer as i64,
            },
        ],
    }
}

/// The figures of the actors of `s`, in their order.
pub open spec fn figures_of_all(s: Seq<Actor>, screen_width: int, screen_height: int) -> Seq<DrawCommand>
    decreases s.len(),
{
    if s.len() == 0 {
        Seq::empty()
    } else {
        figures_of_all(s.drop_last(), screen_width, screen_height) + figures_of(
            s.last(),
            screen_width,
            screen_height,
        )
    }
}

/// The figures of the game: the player, the shots, the rocks, the radar
/// pulses, the wormholes.
pub open spec fn figures(g: GameView) -> Seq<DrawCommand> {
    figures_of(g.player, g.screen_width, g.screen_height) + figures_of_all(
        g.shots,
        g.screen_width,
        g.screen_height,
    ) + figures_of_all(g.rocks, g.screen_width, g.screen_height) + figures_of_all(
        g.radar,
        g.screen_width,
        g.screen_height,
    ) + figures_of_all(g.wormhole, g.screen_width, g.screen_height)
}

/// The actor can be drawn without overflow.
pub open spec fn drawable(a: Actor) -> bool {
    &&& a.pos.within(2 * COORD_MAX)
    &&& a.tag == ActorType::Radar ==> -PULSE_LIFE_MAX <= a.life <= PULSE_LIFE_MAX
}

/// Every actor of `s` can be drawn.
pub open spec fn all_drawable(s: Seq<Actor>) -> bool {
    forall|i: int| 0 <= i < s.len() ==> drawable(#[trigger] s[i])
}

/// The game can be drawn without overflow.
pub open spec fn can_draw_spec(g: GameView) -> bool {
    &&& -2 * COORD_MAX <= g.screen_width <= 2 * COORD_MAX
    &&& -2 * COORD_MAX <= g.screen_height <= 2 * COORD_MAX
    &&& drawable(g.player)
    &&& all_drawable(g.shots)
    &&& all_drawable(g.rocks)
    &&& all_drawable(g.radar)
    &&& all_drawable(g.wormhole)
}

/// A pulse that has not outlived its time is magnified by ten times its age.
pub proof fn lemma_pulse_scale_is_age(life: int)
    requires
        life <= RADAR_LIFE,
    ensures
        pulse_scale(life) == (RADAR_LIFE - life) * 10,
{
}

/// Translates the world coordinate system, which has `y` pointing up and
/// the origin at the centre, to the screen coordinate system, which has `y`
/// pointing down and the origin at the top left.
pub fn world_to_screen_coords(screen_width: i64, screen_height: i64, point: Vector) -> (p: Vector)
    requires
        -2 * COORD_MAX <= screen_width <= 2 * COORD_MAX,
        -2 * COORD_MAX <= screen_height <= 2 * COORD_MAX,
        point.within(2 * COORD_MAX),
    ensures
        p == on_screen(screen_width as int, screen_height as int, point),
{
    let x: i64 = point.x + screen_width / 2;
    let y: i64 = screen_height - (point.y + screen_height / 2);
    Vector { x, y }
}

/// The magnification of a radar pulse with `life` left.
pub fn radar_scale(life: i64) -> (scale: i64)
    requires
        -PULSE_LIFE_MAX <= life <= PULSE_LIFE_MAX,
    ensures
        scale == pulse_scale(life as int),
{
    let age: i64 = RADAR_LIFE - life;
    let whole: i64 = (age / ONE) * ONE;
    let fraction: i64 = (age + ONE) % ONE;
    (whole + fraction) * 10
}

/// The picture of a kind.
pub fn actor_image(tag: ActorType) -> (sprite: Sprite)
    ensures
        sprite == sprite_of(tag),
{
    match tag {
        ActorType::Player => Sprite::Player,
        ActorType::Rock => Sprite::Rock,
        ActorType::Shot => Sprite::Shot,
        ActorType::Radar => Sprite::Rock,
        ActorType::Wormhole => Sprite::Rock,
    }
}

/// A circle at `center`.
fn circle(radius: i32, colour: Colour, center: Vector, scale: i64, layer: i64) -> (c: DrawCommand)
    ensures
        c == (DrawCommand { figure: Figure::Circle { radius, colour }, center, scale, rotation: 0, layer }),
{
    DrawCommand { figure: Figure::Circle { radius, colour }, center, scale, rotation: 0, layer }
}

/// Appends the figures of `actor` to `out`.
pub fn draw_actor(out: &mut Vec<DrawCommand>, actor: &Actor, world_coords: (i64, i64))
    requires
        -2 * COORD_MAX <= world_coords.0 <= 2 * COORD_MAX,
        -2 * COORD_MAX <= world_coords.1 <= 2 * COORD_MAX,
        drawable(*actor),
    ensures
        final(out)@ == old(out)@ + figures_of(*actor, world_coords.0 as int, world_coords.1 as int),
{
    let (screen_w, screen_h) = world_coords;
    let pos = world_to_screen_coords(screen_w, screen_h, actor.pos);
    let layer: i64 = actor.layer as i64;
    let ghost before = out@;
    match actor.tag {
        ActorType::Radar => {
            let scale = radar_scale(actor.life);
            out.push(circle(16, Colour::Green, pos, scale, layer));
            out.push(circle(15, Colour::Black, pos, scale, layer + 1));
        },
        ActorType::Wormhole => {
            out.push(circle(14, Colour::Purple, pos, ONE, layer));
            out.push(circle(12, Colour::Black, pos, ONE, layer));
            out.push(circle(2, Colour::Purple, pos, ONE, layer));
        },
        _ => {
            out.push(
                DrawCommand {
                    figure: Figure::Image { sprite: actor_image(actor.tag) },
                    center: pos,
                    scale: ONE,
                    rotation: actor.facing,
                    layer,
                },
            );
        },
    }
    assert(out@ =~= before + figures_of(*actor, world_coords.0 as int, world_coords.1 as int));
}

/// Appends the figures of every actor of `actors` to `out`.
pub fn draw_actors(out: &mut Vec<DrawCommand>, actors: &Vec<Actor>, world_coords: (i64, i64))
    requires
        -2 * COORD_MAX <= world_coords.0 <= 2 * COORD_MAX,
        -2 * COORD_MAX <= world_coords.1 <= 2 * COORD_MAX,
        all_drawable(actors@),
    ensures
        final(out)@ == old(out)@ + figures_of_all(
            actors@,
            world_coords.0 as int,
            world_coords.1 as int,
        ),
{
    let mut i: usize = 0;
    assert(out@ =~= old(out)@ + figures_of_all(
        actors@.take(0),
        world_coords.0 as int,
        world_coords.1 as int,
    ));
    while i < actors.len()
        invariant
            0 <= i <= actors@.len(),
            -2 * COORD_MAX <= world_coords.0 <= 2 * COORD_MAX,
            -2 * COORD_MAX <= world_coords.1 <= 2 * COORD_MAX,
            all_drawable(actors@),
            out@ == old(out)@ + figures_of_all(
                actors@.take(i as int),
                world_coords.0 as int,
                world_coords.1 as int,
            ),
        decreases actors@.len() - i,
    {
        proof {
            let next = actors@.take(i as int + 1);
            assert(next.drop_last() =~= actors@.take(i as int));
            assert(next.last() == actors@[i as int]);
        }
        let ghost before = out@;
        draw_actor(out, &actors[i], world_coords);
        assert(out@ =~= old(out)@ + figures_of_all(
            actors@.take(i as int + 1),
            world_coords.0 as int,
            world_coords.1 as int,
        ));
        i = i + 1;
    }
    proof {
        assert(actors@.take(actors@.len() as int) =~= actors@);
    }
}

/// Whether every actor of `v` can be drawn.
fn all_can_be_drawn(v: &Vec<Actor>) -> (b: bool)
    ensures
        b == all_drawable(v@),
{
    let mut i: usize = 0;
    while i < v.len()
        invariant
            0 <= i <= v@.len(),
            forall|k: int| 0 <= k < i ==> drawable(#[trigger] v@[k]),
        decreases v@.len() - i,
    {
        if !can_be_drawn(&v[i]) {
            return false;
        }
        i = i + 1;
    }
    true
}

/// Whether the actor can be drawn without overflow.
pub fn can_be_drawn(a: &Actor) -> (b: bool)
    ensures
        b == drawable(*a),
{
    let in_reach = -2 * COORD_MAX <= a.pos.x && a.pos.x <= 2 * COORD_MAX && -2 * COORD_MAX
        <= a.pos.y && a.pos.y <= 2 * COORD_MAX;
    match a.tag {
        ActorType::Radar => in_reach && -PULSE_LIFE_MAX <= a.life && a.life <= PULSE_LIFE_MAX,
        _ => in_reach,
    }
}

impl MainState {
    /// Whether the game can be drawn without overflow.
    pub fn can_draw(&self) -> (b: bool)
        ensures
            b == can_draw_spec(self@),
    {
        -2 * COORD_MAX <= self.screen_width && self.screen_width <= 2 * COORD_MAX && -2 * COORD_MAX
            <= self.screen_height && self.screen_height <= 2 * COORD_MAX && can_be_drawn(
            &self.player,
        ) && all_can_be_drawn(&self.shots) && all_can_be_drawn(&self.rocks) && all_can_be_drawn(
            &self.radar,
        ) && all_can_be_drawn(&self.wormhole)
    }

    /// The figures of the game, in the order in which they are to be drawn.
    pub fn draw(&self) -> (list: Vec<DrawCommand>)
        requires
            can_draw_spec(self@),
        ensures
            list@ == figures(self@),
    {
        let mut list: Vec<DrawCommand> = Vec::new();
        let coords = (self.screen_width, self.screen_height);
        draw_actor(&mut list, &self.player, coords);
        draw_actors(&mut list, &self.shots, coords);
        draw_actors(&mut list, &self.rocks, coords);
        draw_actors(&mut list, &self.radar, coords);
        draw_actors(&mut list, &self.wormhole, coords);
        assert(list@ =~= figures(self@));
        list
    }
}

} // verus!
