use systems_critical::actor::{create_rock, create_wormhole, ActorType};
use systems_critical::fixed::ONE;
use systems_critical::spawn::{
    create_rocks, create_wormholes, draw_spawn, place_actor, random_vec, random_vec_from,
    scale_draw, spawn_batch, SpawnDraws, MAX_ROCK_VEL, MAX_WORMHOLE_VEL,
};
use systems_critical::trig::TWO_PI;
use systems_critical::vector::Vector;

const MIN_RADIUS: i64 = 100 * ONE;
const MAX_RADIUS: i64 = 250 * ONE;

fn len2(v: Vector) -> i128 {
    (v.x as i128) * (v.x as i128) + (v.y as i128) * (v.y as i128)
}

fn dist2(a: Vector, b: Vector) -> i128 {
    len2(Vector::new(a.x - b.x, a.y - b.y))
}

fn slack(k: i64) -> i64 {
    3 + 4 * k / ONE
}

#[test]
fn scale_draw_takes_a_part_of_the_range() {
    assert_eq!(scale_draw(0, TWO_PI), 0);
    assert_eq!(scale_draw(1 << 31, TWO_PI), 188_495);
    assert_eq!(scale_draw(u32::MAX, TWO_PI), 376_990);
    assert_eq!(scale_draw(123_456_789, 9_000_000), 258_700);
    assert_eq!(scale_draw(u32::MAX, 0), 0);
    assert_eq!(scale_draw(u32::MAX, 1), 0);
    assert_eq!(scale_draw(1 << 31, -9), -4);
    assert_eq!(scale_draw(u32::MAX, 2_000_000_000), 1_999_999_999);
}

#[test]
fn random_vec_from_given_draws() {
    assert_eq!(random_vec_from(MAX_ROCK_VEL, 1 << 31, 1 << 31), Vector::new(0, -1_499_975));
    assert_eq!(random_vec_from(MAX_ROCK_VEL, 0, u32::MAX), Vector::new(0, 2_999_999));
    assert_eq!(random_vec_from(-MAX_ROCK_VEL, 1 << 30, 1 << 31), Vector::new(-1_499_975, -25));
    assert_eq!(random_vec_from(MAX_ROCK_VEL, 77, 0), Vector::new(0, 0));
    assert_eq!(random_vec_from(0, 77, u32::MAX), Vector::new(0, 0));
}

#[test]
fn random_vec_is_shorter_than_its_limit() {
    let mut longest: i128 = 0;
    let mut quadrants = [false; 4];
    for _ in 0..2_000 {
        let v = random_vec(MAX_ROCK_VEL);
        let n = len2(v);
        assert!(n < (MAX_ROCK_VEL as i128) * (MAX_ROCK_VEL as i128));
        if n > longest {
            longest = n;
        }
        quadrants[(v.x >= 0) as usize * 2 + (v.y >= 0) as usize] = true;
    }
    // Two thousand draws reach past half the limit and into every quadrant.
    assert!(longest > (MAX_ROCK_VEL as i128 / 2) * (MAX_ROCK_VEL as i128 / 2));
    assert_eq!(quadrants, [true; 4]);
}

#[test]
fn draws_differ() {
    let mut seen = Vec::new();
    for _ in 0..16 {
        seen.push(draw_spawn());
    }
    let first = seen[0];
    assert!(seen.iter().any(|d| *d != first));
    assert!(seen.iter().any(|d| d.angle != d.distance));
}

#[test]
fn place_actor_from_given_draws() {
    let zero = SpawnDraws { angle: 0, distance: 0, course: 0, speed: 0 };
    let a = place_actor(create_rock(), Vector::new(0, 0), MIN_RADIUS, MAX_RADIUS, MAX_ROCK_VEL, zero);
    assert_eq!(a.pos, Vector::new(0, 6_000_000));
    assert_eq!(a.velocity, Vector::new(0, 0));

    let d = SpawnDraws { angle: 1 << 30, distance: 1 << 31, course: 3 << 30, speed: u32::MAX };
    let a = place_actor(create_rock(), Vector::new(1_000, -2_000), MIN_RADIUS, MAX_RADIUS, MAX_ROCK_VEL, d);
    assert_eq!(a.pos, Vector::new(10_500_825, -1_825));
    assert_eq!(a.velocity, Vector::new(-2_999_949, -49));

    let d = SpawnDraws { angle: u32::MAX, distance: u32::MAX, course: 123_456_789, speed: 987_654_321 };
    let a = place_actor(create_wormhole(), Vector::new(0, 0), MIN_RADIUS, MAX_RADIUS, MAX_WORMHOLE_VEL, d);
    assert_eq!(a.pos, Vector::new(0, 14_999_749));
    assert_eq!(a.velocity, Vector::new(61_950, 339_323));
}

#[test]
fn place_actor_keeps_the_template() {
    let d = SpawnDraws { angle: 5, distance: 6, course: 7, speed: 8 };
    let mut template = create_wormhole();
    template.facing = 99;
    template.life = 12;
    let a = place_actor(template, Vector::new(0, 0), MIN_RADIUS, MAX_RADIUS, MAX_WORMHOLE_VEL, d);
    assert_eq!(a.tag, ActorType::Wormhole);
    assert_eq!(a.facing, 99);
    assert_eq!(a.life, 12);
    assert_eq!(a.bbox_size, template.bbox_size);
    assert_eq!(a.layer, template.layer);
    assert_eq!(a.ang_vel, template.ang_vel);
    assert_eq!(a.sys, template.sys);
}

#[test]
fn rocks_spawn_inside_the_ring() {
    let centre = Vector::new(-7 * ONE, 40 * ONE);
    let rocks = create_rocks(3_000, centre, MIN_RADIUS, MAX_RADIUS);
    assert_eq!(rocks.len(), 3_000);
    let inner = (MIN_RADIUS - slack(MIN_RADIUS)) as i128;
    let mut quadrants = [false; 4];
    let mut near = false;
    let mut far = false;
    for r in &rocks {
        let d = dist2(r.pos, centre);
        assert!(d < (MAX_RADIUS as i128) * (MAX_RADIUS as i128));
        assert!(d >= inner * inner);
        assert!(len2(r.velocity) < (MAX_ROCK_VEL as i128) * (MAX_ROCK_VEL as i128));
        assert_eq!(r.tag, ActorType::Rock);
        assert_eq!(r.life, ONE);
        assert_eq!(r.bbox_size, 12 * ONE);
        assert_eq!(r.layer, 500);
        assert_eq!(r.facing, 0);
        quadrants[(r.pos.x >= centre.x) as usize * 2 + (r.pos.y >= centre.y) as usize] = true;
        near = near || d < (150 * ONE as i128) * (150 * ONE as i128);
        far = far || d > (200 * ONE as i128) * (200 * ONE as i128);
    }
    assert_eq!(quadrants, [true; 4]);
    assert!(near && far);
}

#[test]
fn wormholes_spawn_inside_the_ring() {
    let centre = Vector::new(0, 0);
    let wormholes = create_wormholes(500, centre, MIN_RADIUS, MAX_RADIUS);
    assert_eq!(wormholes.len(), 500);
    let inner = (MIN_RADIUS - slack(MIN_RADIUS)) as i128;
    for w in &wormholes {
        let d = dist2(w.pos, centre);
        assert!(d < (MAX_RADIUS as i128) * (MAX_RADIUS as i128));
        assert!(d >= inner * inner);
        assert!(len2(w.velocity) < (MAX_WORMHOLE_VEL as i128) * (MAX_WORMHOLE_VEL as i128));
        assert_eq!(w.tag, ActorType::Wormhole);
        assert_eq!(w.bbox_size, 16 * ONE);
        assert_eq!(w.layer, 495);
    }
}

#[test]
fn spawn_in_a_thin_ring() {
    let centre = Vector::new(5, 5);
    let rocks = create_rocks(200, centre, 10 * ONE, 10 * ONE + 1);
    for r in &rocks {
        let d = dist2(r.pos, centre);
        assert!(d <= (10 * ONE as i128) * (10 * ONE as i128));
        assert!(d >= ((10 * ONE - slack(10 * ONE)) as i128) * ((10 * ONE - slack(10 * ONE)) as i128));
    }
}

#[test]
fn no_actors_for_a_count_of_none() {
    assert!(create_rocks(0, Vector::new(0, 0), MIN_RADIUS, MAX_RADIUS).is_empty());
    assert!(create_rocks(-3, Vector::new(0, 0), MIN_RADIUS, MAX_RADIUS).is_empty());
    assert!(create_wormholes(0, Vector::new(0, 0), MIN_RADIUS, MAX_RADIUS).is_empty());
    assert!(spawn_batch(create_rock(), MAX_ROCK_VEL, i32::MIN, Vector::new(0, 0), 0, 1).is_empty());
}

#[test]
fn spawned_rocks_differ() {
    let rocks = create_rocks(50, Vector::new(0, 0), MIN_RADIUS, MAX_RADIUS);
    let first = rocks[0];
    assert!(rocks.iter().any(|r| r.pos != first.pos));
    assert!(rocks.iter().any(|r| r.velocity != first.velocity));
}
