use systems_critical::actor::{create_player, create_radar, create_rock, create_shot, create_wormhole, Actor, ActorType, Systems};
use systems_critical::collide::{collides, count_hits, strike_all};
use systems_critical::events::{ButtonState, Key};
use systems_critical::fixed::{ONE, POS_MAX};
use systems_critical::frame::{advance_all, all_within_bounds, FinalScore};
use systems_critical::game::{retain_alive, MainState, FIELD_HEIGHT, FIELD_WIDTH};
use systems_critical::vector::Vector;

fn at(mut a: Actor, x: i64, y: i64) -> Actor {
    a.pos = Vector::new(x, y);
    a
}

/// A game without rocks, its wormhole parked far from the player.
fn quiet_game() -> MainState {
    let mut s = MainState::new();
    s.rocks.clear();
    s.wormhole.clear();
    s.wormhole.push(at(create_wormhole(), 300 * ONE, 200 * ONE));
    s
}

fn dist2(a: Vector, b: Vector) -> i64 {
    (a.x - b.x) * (a.x - b.x) + (a.y - b.y) * (a.y - b.y)
}

fn check_fresh(s: &MainState) {
    assert_eq!(s.player, create_player());
    assert!(s.shots.is_empty());
    assert!(s.radar.is_empty());
    assert_eq!(s.rocks.len(), 5);
    assert_eq!(s.wormhole.len(), 1);
    assert_eq!(s.level, 0);
    assert_eq!(s.score, 0);
    assert_eq!(s.input.xaxis, 0);
    assert_eq!(s.input.yaxis, 0);
    assert!(!s.input.fire);
    assert!(!s.input.radar);
    assert_eq!(s.player_shot_timeout, 0);
    assert_eq!(s.player_radar_timeout, 0);
    assert_eq!(s.radar_layer, 0);
    for r in &s.rocks {
        assert_eq!(r.tag, ActorType::Rock);
        let d = dist2(r.pos, Vector::new(0, 0));
        assert!(d < (250 * ONE) * (250 * ONE));
        assert!(d >= (100 * ONE - 403) * (100 * ONE - 403));
    }
    assert_eq!(s.wormhole[0].tag, ActorType::Wormhole);
}

#[test]
fn new_game_is_fresh() {
    let s = MainState::new();
    check_fresh(&s);
    assert_eq!(s.screen_width, 800 * ONE);
    assert_eq!(s.screen_height, 600 * ONE);
    assert_eq!(FIELD_WIDTH, 800 * ONE);
    assert_eq!(FIELD_HEIGHT, 600 * ONE);
    assert!(s.can_update());
}

#[test]
fn reset_starts_over_on_the_same_field() {
    let mut s = quiet_game();
    s.score = 31;
    s.level = 4;
    s.screen_width = 500 * ONE;
    s.radar_layer = 8;
    s.player_shot_timeout = -5;
    s.input.fire = true;
    s.shots.push(create_shot());
    s.radar.push(create_radar(6));
    s.player.facing = 77;
    s.reset();
    check_fresh(&s);
    assert_eq!(s.screen_width, 500 * ONE);
    assert_eq!(s.screen_height, 600 * ONE);
}

#[test]
fn circles_that_touch_do_not_collide() {
    let a = create_player();
    let reach = a.bbox_size + create_rock().bbox_size;
    assert_eq!(reach, 24 * ONE);
    assert!(!collides(&a, &at(create_rock(), reach, 0)));
    assert!(collides(&a, &at(create_rock(), reach - 1, 0)));
    assert!(!collides(&a, &at(create_rock(), 0, -reach)));
    assert!(collides(&a, &at(create_rock(), 0, -reach + 1)));
    assert!(!collides(&a, &at(create_rock(), reach + 1, 0)));
}

#[test]
fn collision_on_a_slant() {
    // 3-4-5: centres exactly 30 apart, radii 12 and 18.
    let mut a = create_rock();
    let mut b = at(create_rock(), 18 * ONE, 24 * ONE);
    b.bbox_size = 18 * ONE;
    assert!(!collides(&a, &b));
    assert!(!collides(&b, &a));
    a.bbox_size += 1;
    assert!(collides(&a, &b));
    assert!(collides(&b, &a));
}

#[test]
fn circles_without_reach_never_collide() {
    let mut a = create_rock();
    let mut b = create_rock();
    a.bbox_size = 0;
    b.bbox_size = 0;
    assert!(!collides(&a, &b));
    a.bbox_size = -5;
    b.bbox_size = 5;
    assert!(!collides(&a, &b));
    b.bbox_size = 6;
    assert!(collides(&a, &b));
}

#[test]
fn count_hits_counts_each_overlap() {
    let a = create_rock();
    let others = vec![
        at(create_shot(), 0, 0),
        at(create_shot(), 100 * ONE, 0),
        at(create_shot(), 17 * ONE, 0),
        at(create_shot(), 18 * ONE, 0),
    ];
    assert_eq!(count_hits(&a, &others), 2);
    assert_eq!(count_hits(&a, &Vec::new()), 0);
}

#[test]
fn strike_all_kills_what_is_hit() {
    let mut rocks = vec![at(create_rock(), 0, 0), at(create_rock(), 100 * ONE, 0), at(create_rock(), 30 * ONE, 0)];
    let shots = vec![at(create_shot(), 15 * ONE, 0), at(create_shot(), 16 * ONE, 0)];
    let hits = strike_all(&mut rocks, &shots);
    // The first rock is hit by both shots, the third by both, the second by none.
    assert_eq!(hits, 4);
    assert_eq!(rocks[0].life, 0);
    assert_eq!(rocks[1].life, ONE);
    assert_eq!(rocks[2].life, 0);
    assert_eq!(rocks[0].pos, Vector::new(0, 0));
}

#[test]
fn retain_alive_keeps_order() {
    let mut v = vec![create_radar(1), create_radar(2), create_radar(3), create_radar(4)];
    v[0].life = 0;
    v[2].life = -9;
    retain_alive(&mut v);
    assert_eq!(v.len(), 2);
    assert_eq!(v[0].layer, 2);
    assert_eq!(v[1].layer, 4);
    retain_alive(&mut v);
    assert_eq!(v.len(), 2);
}

#[test]
fn pruning_twice_changes_nothing_more() {
    let mut s = MainState::new();
    s.rocks[1].life = 0;
    s.rocks[3].life = -ONE;
    s.shots.push(create_shot());
    let mut dead_shot = create_shot();
    dead_shot.life = 0;
    s.shots.push(dead_shot);
    let mut pulse = create_radar(4);
    pulse.life = 0;
    s.radar.push(pulse);
    s.radar_layer = 6;
    s.clear_dead_stuff();
    assert_eq!(s.rocks.len(), 3);
    assert_eq!(s.shots.len(), 1);
    assert_eq!(s.radar.len(), 0);
    assert_eq!(s.wormhole.len(), 1);
    assert_eq!(s.radar_layer, 0);
    let rocks = s.rocks.clone();
    let shots = s.shots.clone();
    let wormhole = s.wormhole.clone();
    s.clear_dead_stuff();
    assert_eq!(s.rocks, rocks);
    assert_eq!(s.shots, shots);
    assert_eq!(s.wormhole, wormhole);
    assert!(s.radar.is_empty());
    assert_eq!(s.radar_layer, 0);
}

#[test]
fn pruning_keeps_the_layer_while_a_pulse_lives() {
    let mut s = quiet_game();
    s.radar.push(create_radar(0));
    let mut gone = create_radar(2);
    gone.life = 0;
    s.radar.push(gone);
    s.radar_layer = 4;
    s.clear_dead_stuff();
    assert_eq!(s.radar.len(), 1);
    assert_eq!(s.radar_layer, 4);
}

#[test]
fn shot_and_rock_destroy_each_other() {
    let mut s = quiet_game();
    s.rocks.push(at(create_rock(), 100 * ONE, 0));
    s.rocks.push(at(create_rock(), -100 * ONE, 0));
    s.shots.push(at(create_shot(), 100 * ONE, 17 * ONE));
    s.shots.push(at(create_shot(), 0, 200 * ONE));
    assert!(s.can_update());
    let report = s.update();
    assert_eq!(report.hit_sounds, 1);
    assert_eq!(report.fire_sounds, 0);
    assert_eq!(report.game_over, None);
    assert_eq!(s.score, 1);
    assert_eq!(s.rocks.len(), 1);
    assert_eq!(s.rocks[0].pos, Vector::new(-100 * ONE, 0));
    assert_eq!(s.shots.len(), 1);
    assert_eq!(s.shots[0].pos, Vector::new(0, 200 * ONE));
    assert_eq!(s.level, 0);
}

#[test]
fn handle_collisions_marks_both_dead() {
    let mut s = quiet_game();
    s.rocks.push(at(create_rock(), 100 * ONE, 0));
    s.shots.push(at(create_shot(), 100 * ONE, 17 * ONE));
    let hits = s.handle_collisions();
    assert_eq!(hits, 1);
    assert_eq!(s.rocks.len(), 1);
    assert_eq!(s.shots.len(), 1);
    assert_eq!(s.rocks[0].life, 0);
    assert_eq!(s.shots[0].life, 0);
    assert_eq!(s.score, 1);
    assert_eq!(s.player.life, ONE);
    assert_eq!(s.wormhole[0].life, ONE);
}

#[test]
fn two_shots_on_one_rock_score_twice() {
    let mut s = quiet_game();
    s.rocks.push(at(create_rock(), 100 * ONE, 0));
    s.shots.push(at(create_shot(), 100 * ONE, 5 * ONE));
    s.shots.push(at(create_shot(), 100 * ONE, -5 * ONE));
    let report = s.update();
    assert_eq!(report.hit_sounds, 2);
    assert_eq!(s.score, 2);
    assert!(s.rocks.is_empty());
    assert!(s.shots.is_empty());
}

#[test]
fn one_shot_on_two_rocks_kills_both() {
    let mut s = quiet_game();
    s.rocks.push(at(create_rock(), 100 * ONE, 5 * ONE));
    s.rocks.push(at(create_rock(), 100 * ONE, -5 * ONE));
    s.shots.push(at(create_shot(), 100 * ONE, 0));
    let report = s.update();
    assert_eq!(report.hit_sounds, 2);
    assert_eq!(s.score, 2);
    assert!(s.rocks.is_empty());
    assert!(s.shots.is_empty());
}

#[test]
fn touching_the_wormhole_ends_the_level() {
    let mut s = quiet_game();
    s.rocks.push(at(create_rock(), 100 * ONE, 0));
    s.wormhole[0].pos = Vector::new(27 * ONE, 0);
    s.score = 3;
    s.level = 2;
    let report = s.update();
    assert_eq!(report.game_over, None);
    assert_eq!(report.hit_sounds, 0);
    assert_eq!(s.score, 13);
    assert_eq!(s.level, 3);
    assert_eq!(s.wormhole.len(), 1);
    assert_eq!(s.rocks.len(), 3 * 2 + 5);
    for r in &s.rocks {
        let d = dist2(r.pos, s.player.pos);
        assert!(d < (250 * ONE) * (250 * ONE));
        assert!(d >= (100 * ONE - 403) * (100 * ONE - 403));
        assert_eq!(r.life, ONE);
    }
    let d = dist2(s.wormhole[0].pos, s.player.pos);
    assert!(d < (250 * ONE) * (250 * ONE));
    assert!(d >= (100 * ONE - 403) * (100 * ONE - 403));
}

#[test]
fn a_wormhole_out_of_reach_keeps_the_level() {
    let mut s = quiet_game();
    s.wormhole[0].pos = Vector::new(28 * ONE, 0);
    let report = s.update();
    assert_eq!(report.game_over, None);
    assert_eq!(s.score, 0);
    assert_eq!(s.level, 0);
    assert_eq!(s.wormhole.len(), 1);
    assert_eq!(s.wormhole[0].pos, Vector::new(28 * ONE, 0));
    assert!(s.rocks.is_empty());
}

#[test]
fn level_end_without_wormhole() {
    let mut s = MainState::new();
    s.wormhole.clear();
    s.check_for_level_end();
    assert_eq!(s.score, 10);
    assert_eq!(s.level, 1);
    assert_eq!(s.wormhole.len(), 1);
    assert_eq!(s.rocks.len(), 7);
    s.check_for_level_end();
    assert_eq!(s.score, 10);
    assert_eq!(s.level, 1);
    assert_eq!(s.rocks.len(), 7);
}

#[test]
fn level_end_replaces_the_rocks() {
    let mut s = quiet_game();
    s.level = 9;
    s.rocks.push(at(create_rock(), 299 * ONE, 299 * ONE));
    s.wormhole.clear();
    let report = s.update();
    assert_eq!(report.game_over, None);
    assert_eq!(s.level, 10);
    assert_eq!(s.score, 10);
    assert_eq!(s.rocks.len(), 25);
    assert!(s.rocks.iter().all(|r| r.pos != Vector::new(299 * ONE, 299 * ONE)));
}

#[test]
fn a_rock_on_the_player_starts_the_game_over() {
    let mut s = quiet_game();
    s.rocks.push(at(create_rock(), 23 * ONE, 0));
    s.score = 7;
    s.level = 2;
    s.player.facing = 12_345;
    s.shots.push(at(create_shot(), 0, 200 * ONE));
    s.radar.push(create_radar(0));
    s.radar_layer = 2;
    let report = s.update();
    assert_eq!(report.game_over, Some(FinalScore { score: 7, level: 2 }));
    check_fresh(&s);
    assert_eq!(s.screen_width, 800 * ONE);
    assert_eq!(s.screen_height, 600 * ONE);
}

#[test]
fn a_rock_that_touches_spares_the_player() {
    let mut s = quiet_game();
    s.rocks.push(at(create_rock(), 24 * ONE, 0));
    let report = s.update();
    assert_eq!(report.game_over, None);
    assert_eq!(s.player.life, ONE);
    assert_eq!(s.rocks.len(), 1);
}

#[test]
fn death_and_level_end_in_one_frame() {
    let mut s = quiet_game();
    s.rocks.push(at(create_rock(), 0, 0));
    s.wormhole[0].pos = Vector::new(0, 5 * ONE);
    s.score = 4;
    s.level = 1;
    let report = s.update();
    assert_eq!(report.game_over, Some(FinalScore { score: 14, level: 2 }));
    check_fresh(&s);
}

#[test]
fn cooldown_gates_the_shots() {
    let mut s = quiet_game();
    assert!(!s.event(Key::Key2, ButtonState::Pressed));
    assert!(!s.event(Key::W, ButtonState::Pressed));
    assert!(s.input.fire);
    let mut fired_in = Vec::new();
    for frame in 1..=70 {
        assert!(s.can_update());
        let before = s.shots.len();
        let report = s.update();
        assert_eq!(report.game_over, None);
        assert_eq!(s.shots.len(), before + report.fire_sounds as usize);
        if report.fire_sounds > 0 {
            fired_in.push(frame);
        }
    }
    // Half a second is thirty frames: the cooldown set in frame 1 has run
    // out, below zero, in frame 32.
    assert_eq!(fired_in, vec![1, 32, 63]);
    assert_eq!(s.shots.len(), 3);
}

#[test]
fn no_second_shot_within_half_a_second() {
    let mut s = quiet_game();
    s.input.fire = true;
    let mut shots = 0;
    for _ in 0..31 {
        shots += s.update().fire_sounds;
    }
    assert_eq!(shots, 1);
    assert_eq!(s.player_shot_timeout, 0);
    shots += s.update().fire_sounds;
    assert_eq!(shots, 2);
    assert_eq!(s.player_shot_timeout, 30_000);
}

#[test]
fn released_fire_lets_the_cooldown_run_on() {
    let mut s = quiet_game();
    for _ in 0..100 {
        let report = s.update();
        assert_eq!(report.fire_sounds, 0);
    }
    assert_eq!(s.player_shot_timeout, -100_000);
    assert_eq!(s.player_radar_timeout, -100_000);
    s.input.fire = true;
    assert_eq!(s.update().fire_sounds, 1);
    assert_eq!(s.player_shot_timeout, 30_000);
}

#[test]
fn a_shot_leaves_along_the_facing() {
    let mut s = quiet_game();
    s.player.pos = Vector::new(5 * ONE, -3 * ONE);
    s.player.facing = 30_000;
    s.fire_player_shot();
    assert_eq!(s.shots.len(), 1);
    let shot = s.shots[0];
    assert_eq!(shot.tag, ActorType::Shot);
    assert_eq!(shot.pos, Vector::new(5 * ONE, -3 * ONE));
    assert_eq!(shot.facing, 30_000);
    assert_eq!(shot.velocity, Vector::new(200 * 28_765, 200 * 52_654));
    assert_eq!(shot.life, 2 * ONE);
    assert_eq!(shot.bbox_size, 6 * ONE);
    assert_eq!(shot.ang_vel, 6_000);
    assert_eq!(s.player_shot_timeout, 30_000);
}

#[test]
fn shots_expire_after_two_seconds() {
    let mut s = quiet_game();
    s.fire_player_shot();
    for _ in 0..119 {
        s.update();
    }
    assert_eq!(s.shots.len(), 1);
    assert_eq!(s.shots[0].life, 1_000);
    s.update();
    assert!(s.shots.is_empty());
}

#[test]
fn radar_pulses_take_rising_even_layers() {
    let mut s = quiet_game();
    s.event(Key::Key3, ButtonState::Pressed);
    s.event(Key::W, ButtonState::Pressed);
    assert!(s.input.radar);
    let mut fired_in = Vec::new();
    for frame in 1..=60 {
        let report = s.update();
        if report.fire_sounds > 0 {
            fired_in.push(frame);
        }
    }
    // Four tenths of a second are twenty-four frames.
    assert_eq!(fired_in, vec![1, 26, 51]);
    assert_eq!(s.radar.len(), 3);
    assert_eq!(s.radar[0].layer, 0);
    assert_eq!(s.radar[1].layer, 2);
    assert_eq!(s.radar[2].layer, 4);
    assert_eq!(s.radar_layer, 6);
    // Pulses age but do not move or turn.
    assert_eq!(s.radar[0].life, 3 * ONE - 60 * 1_000);
    assert_eq!(s.radar[0].pos, Vector::new(0, 0));
    assert_eq!(s.radar[0].facing, 0);
    assert!(s.shots.is_empty());
}

#[test]
fn radar_layers_start_over_once_the_pulses_are_gone() {
    let mut s = quiet_game();
    s.fire_player_radar();
    s.fire_player_radar();
    assert_eq!(s.radar_layer, 4);
    assert_eq!(s.player_radar_timeout, 24_000);
    for _ in 0..179 {
        s.update();
    }
    assert_eq!(s.radar.len(), 2);
    assert_eq!(s.radar_layer, 4);
    s.update();
    assert!(s.radar.is_empty());
    assert_eq!(s.radar_layer, 0);
}

#[test]
fn shot_and_pulse_in_one_frame() {
    let mut s = quiet_game();
    s.input.fire = true;
    s.input.radar = true;
    let report = s.update();
    assert_eq!(report.fire_sounds, 2);
    assert_eq!(s.shots.len(), 1);
    assert_eq!(s.radar.len(), 1);
}

#[test]
fn apply_input_turns_then_fires() {
    let mut s = quiet_game();
    s.input.xaxis = ONE;
    s.input.fire = true;
    let sounds = s.apply_input();
    assert_eq!(sounds, 1);
    assert_eq!(s.player.facing, 3_000);
    assert_eq!(s.shots[0].facing, 3_000);
    assert_eq!(s.shots[0].velocity, Vector::new(200 * 2_997, 200 * 59_925));
    assert_eq!(s.player_shot_timeout, 30_000);
    assert_eq!(s.player_radar_timeout, -1_000);
}

#[test]
fn the_frame_moves_what_moves() {
    let mut s = quiet_game();
    let mut rock = at(create_rock(), 100 * ONE, 100 * ONE);
    rock.velocity = Vector::new(60 * ONE, 0);
    s.rocks.push(rock);
    let mut shot = at(create_shot(), -100 * ONE, 0);
    shot.velocity = Vector::new(0, -120 * ONE);
    s.shots.push(shot);
    s.player.velocity = Vector::new(-30 * ONE, 30 * ONE);
    s.wormhole[0].velocity = Vector::new(25 * ONE, 25 * ONE);
    s.update();
    assert_eq!(s.rocks[0].pos, Vector::new(101 * ONE, 100 * ONE));
    assert_eq!(s.rocks[0].life, ONE);
    assert_eq!(s.rocks[0].facing, 0);
    assert_eq!(s.shots[0].pos, Vector::new(-100 * ONE, -2 * ONE));
    assert_eq!(s.shots[0].life, 2 * ONE - 1_000);
    assert_eq!(s.shots[0].facing, 6_000);
    assert_eq!(s.player.pos, Vector::new(-ONE / 2, ONE / 2));
    // A wormhole carries a velocity and never follows it.
    assert_eq!(s.wormhole[0].pos, Vector::new(300 * ONE, 200 * ONE));
    assert_eq!(s.wormhole[0].life, ONE);
}

#[test]
fn move_actors_wraps_at_the_edges() {
    let mut s = quiet_game();
    let mut rock = at(create_rock(), 400 * ONE, -300 * ONE);
    rock.velocity = Vector::new(60 * ONE, -60 * ONE);
    s.rocks.push(rock);
    s.move_actors();
    assert_eq!(s.rocks[0].pos, Vector::new(-399 * ONE, 299 * ONE));
}

#[test]
fn advance_all_by_kind() {
    let mut v = vec![create_shot(), create_shot()];
    v[1].velocity = Vector::new(6 * ONE, 0);
    advance_all(&mut v, 800 * ONE, 600 * ONE, false, true);
    assert_eq!(v[1].pos, Vector::new(0, 0));
    assert_eq!(v[1].life, 2 * ONE - 1_000);
    assert_eq!(v[1].facing, 0);
    advance_all(&mut v, 800 * ONE, 600 * ONE, true, false);
    assert_eq!(v[1].pos, Vector::new(ONE / 10, 0));
    assert_eq!(v[1].life, 2 * ONE - 1_000);
    assert_eq!(v[0].facing, 6_000);
}

#[test]
fn thrust_builds_up_to_the_speed_limit() {
    let mut s = quiet_game();
    s.event(Key::Key1, ButtonState::Pressed);
    s.event(Key::W, ButtonState::Pressed);
    assert_eq!(s.input.yaxis, ONE);
    s.update();
    assert_eq!(s.player.velocity, Vector::new(0, 100_000));
    for _ in 0..200 {
        assert!(s.can_update());
        s.update();
        let v = s.player.velocity;
        assert!(v.x * v.x + v.y * v.y <= 12_000_000 * 12_000_000);
    }
    assert_eq!(s.player.velocity, Vector::new(0, 12_000_000));
}

#[test]
fn number_keys_select_the_system() {
    let mut s = quiet_game();
    assert_eq!(s.player.sys, Systems::Radar);
    s.event(Key::Key1, ButtonState::Pressed);
    assert_eq!(s.player.sys, Systems::Engines);
    s.event(Key::Key2, ButtonState::Pressed);
    assert_eq!(s.player.sys, Systems::Weapons);
    s.event(Key::Key3, ButtonState::Pressed);
    assert_eq!(s.player.sys, Systems::Radar);
    s.event(Key::Key1, ButtonState::Released);
    assert_eq!(s.player.sys, Systems::Radar);
    s.event(Key::Key1, ButtonState::Held);
    assert_eq!(s.player.sys, Systems::Radar);
}

#[test]
fn the_activate_key_drives_the_selected_system() {
    let mut s = quiet_game();
    s.event(Key::W, ButtonState::Pressed);
    assert!(s.input.radar && !s.input.fire && s.input.yaxis == 0);
    s.event(Key::Key2, ButtonState::Pressed);
    s.event(Key::W, ButtonState::Pressed);
    assert!(s.input.radar && s.input.fire && s.input.yaxis == 0);
    s.event(Key::Key1, ButtonState::Pressed);
    s.event(Key::W, ButtonState::Pressed);
    assert!(s.input.radar && s.input.fire && s.input.yaxis == ONE);
    s.event(Key::W, ButtonState::Released);
    assert!(!s.input.radar && !s.input.fire && s.input.yaxis == 0);
}

#[test]
fn turn_keys_set_the_axis() {
    let mut s = quiet_game();
    s.event(Key::A, ButtonState::Pressed);
    assert_eq!(s.input.xaxis, -ONE);
    s.event(Key::D, ButtonState::Pressed);
    assert_eq!(s.input.xaxis, ONE);
    s.event(Key::A, ButtonState::Released);
    assert_eq!(s.input.xaxis, 0);
    s.event(Key::D, ButtonState::Pressed);
    s.event(Key::D, ButtonState::Released);
    assert_eq!(s.input.xaxis, 0);
    s.event(Key::A, ButtonState::Held);
    s.event(Key::Other, ButtonState::Pressed);
    s.event(Key::A, ButtonState::NotPressed);
    assert_eq!(s.input.xaxis, 0);
}

#[test]
fn only_escape_asks_to_leave() {
    let mut s = quiet_game();
    assert!(s.event(Key::Escape, ButtonState::Pressed));
    assert!(!s.event(Key::Escape, ButtonState::Released));
    assert!(!s.event(Key::Escape, ButtonState::Held));
    assert!(!s.event(Key::Other, ButtonState::Pressed));
    assert!(!s.event(Key::W, ButtonState::Pressed));
    check_fresh_but_for_input(&s);
}

fn check_fresh_but_for_input(s: &MainState) {
    assert_eq!(s.player, create_player());
    assert_eq!(s.level, 0);
    assert_eq!(s.score, 0);
    assert!(s.shots.is_empty());
}

#[test]
fn can_update_sees_what_is_out_of_bounds() {
    let mut s = quiet_game();
    assert!(s.can_update());
    s.rocks.push(at(create_rock(), POS_MAX + 1, 0));
    assert!(!s.can_update());
    assert!(!all_within_bounds(&s.rocks));
    s.rocks[0].pos.x = POS_MAX;
    assert!(s.can_update());
    assert!(all_within_bounds(&s.rocks));
    s.score = i32::MAX - 10;
    assert!(!s.can_update());
    s.score = i32::MAX - 11;
    assert!(s.can_update());
    s.radar_layer = i32::MAX - 1;
    assert!(!s.can_update());
    s.radar_layer = i32::MAX - 2;
    s.player_shot_timeout = i64::MIN;
    assert!(!s.can_update());
}

fn check_kind(a: &Actor, tag: ActorType, bbox: i64, ang_vel: i64) {
    assert_eq!(a.tag, tag);
    assert_eq!(a.bbox_size, bbox);
    assert_eq!(a.ang_vel, ang_vel);
    assert!(a.life > 0 && a.life <= 3 * ONE);
    assert!(a.velocity.x.abs() <= 200 * ONE && a.velocity.y.abs() <= 200 * ONE);
}

#[test]
fn a_long_game_stays_playable() {
    let mut s = MainState::new();
    let keys = [Key::Key1, Key::W, Key::A, Key::Key2, Key::D, Key::Key3, Key::W, Key::Other];
    for frame in 0..6_000usize {
        if frame % 37 == 0 {
            let key = keys[(frame / 37) % keys.len()];
            let state = if (frame / 37) % 5 == 4 { ButtonState::Released } else { ButtonState::Pressed };
            s.event(key, state);
            if frame % 74 == 0 {
                s.event(Key::W, ButtonState::Pressed);
            }
        }
        assert!(s.can_update());
        let score = s.score;
        let level = s.level;
        let report = s.update();
        match report.game_over {
            Some(result) => {
                assert!(result.score >= score);
                assert!(result.level >= level);
                check_fresh(&s);
            }
            None => {
                assert!(s.score >= score);
                assert!(s.level == level || s.level == level + 1);
                assert_eq!(s.wormhole.len(), 1);
            }
        }
        check_kind(&s.player, ActorType::Player, 12 * ONE, 0);
        assert_eq!(s.player.layer, 500);
        assert!(s.player.pos.x.abs() <= 400 * ONE && s.player.pos.y.abs() <= 300 * ONE);
        for a in &s.shots {
            check_kind(a, ActorType::Shot, 6 * ONE, 6_000);
            assert_eq!(a.layer, 500);
            assert!(a.pos.x.abs() <= 400 * ONE && a.pos.y.abs() <= 300 * ONE);
        }
        for a in &s.radar {
            check_kind(a, ActorType::Radar, 6 * ONE, 6_000);
            assert!(a.layer >= 0 && a.layer % 2 == 0 && a.layer < s.radar_layer);
        }
        assert!(s.radar.windows(2).all(|w| w[0].layer < w[1].layer));
        assert!(s.radar_layer >= 0 && s.radar_layer % 2 == 0);
        for a in &s.rocks {
            check_kind(a, ActorType::Rock, 12 * ONE, 0);
            assert_eq!(a.layer, 500);
            assert!(a.pos.x.abs() <= 650 * ONE && a.pos.y.abs() <= 550 * ONE);
        }
        for a in &s.wormhole {
            check_kind(a, ActorType::Wormhole, 16 * ONE, 0);
            assert_eq!(a.layer, 495);
            assert!(a.pos.x.abs() <= 650 * ONE && a.pos.y.abs() <= 550 * ONE);
        }
        assert!(s.can_draw());
    }
}
