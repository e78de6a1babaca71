//! Keys: which system the one "activate" key drives, and what is held.

use vstd::prelude::*;
use crate::actor::{Actor, Systems};
use crate::fixed::ONE;
use crate::game::{GameView, MainState};
use crate::physics::InputState;

verus! {

/// The keys that the game knows.
#[derive(Clone, Copy, Debug, PartialEq, Eq, Structural)]
pub enum Key {
    /// Hands the activate key to the engines.
    Key1,
    /// Hands the activate key to the weapons.
    Key2,
    /// Hands the activate key to the radar.
    Key3,
    /// The activate key.
    W,
    /// Turn left.
    A,
    /// Turn right.
    D,
    /// Leave the game.
    Escape,
    /// Any other key.
    Other,
}

/// What happened to a key.
#[derive(Clone, Copy, Debug, PartialEq, Eq, Structural)]
pub enum ButtonState {
    Pressed,
    Held,
    Released,
    NotPressed,
}

/// The held inputs after the activate key has gone down with `sys` selected.
pub open spec fn activated(input: InputState, sys: Systems) -> InputState {
    match sys {
        Systems::Radar => InputState { radar: true, ..input },
        Systems::Weapons => InputState { fire: true, ..input },
        Systems::Engines => InputState { yaxis: ONE, ..input },
    }
}

/// The game after a key event. The number keys select a system; the
/// activate key drives the selected system while it is down and releases
/// all three when it comes up, whichever is selected by then; `A` and `D`
/// turn while they are down. Nothing else changes anything.
pub open spec fn after_event(g: GameView, key: Key, state: ButtonState) -> GameView {
    match (state, key) {
        (ButtonState::Pressed, Key::Key1) => GameView {
            player: Actor { sys: Systems::Engines, ..g.player },
            ..g
        },
        (ButtonState::Pressed, Key::Key2) => GameView {
            player: Actor { sys: Systems::Weapons, ..g.player },
            ..g
        },
        (ButtonState::Pressed, Key::Key3) => GameView {
            player: Actor { sys: Systems::Radar, ..g.player },
            ..g
        },
        (ButtonState::Pressed, Key::W) => GameView { input: activated(g.input, g.player.sys), ..g },
        (ButtonState::Pressed, Key::A) => GameView {
            input: InputState { xaxis: (-ONE) as i64, ..g.input },
            ..g
        },
        (ButtonState::Pressed, Key::D) => GameView { input: InputState { xaxis: ONE, ..g.input }, ..g },
        (ButtonState::Released, Key::W) => GameView {
            input: InputState { yaxis: 0, fire: false, radar: false, ..g.input },
            ..g
        },
        (ButtonState::Released, Key::A) => GameView { input: InputState { xaxis: 0, ..g.input }, ..g },
        (ButtonState::Released, Key::D) => GameView { input: InputState { xaxis: 0, ..g.input }, ..g },
        _ => g,
    }
}

/// The event asks to leave the game.
pub open spec fn asks_exit(key: Key, state: ButtonState) -> bool {
    key == Key::Escape && state == ButtonState::Pressed
}

impl MainState {
    /// Takes a key event in. Returns whether it asks to leave the game,
    /// which is for the caller to do.
    pub fn event(&mut self, key: Key, state: ButtonState) -> (quit: bool)
        ensures
            final(self)@ == after_event(old(self)@, key, state),
            quit == asks_exit(key, state),
    {
        match state {
            ButtonState::Pressed => {
                match key {
                    Key::Key1 => {
                        self.player.sys = Systems::Engines;
                    },
                    Key::Key2 => {
                        self.player.sys = Systems::Weapons;
                    },
                    Key::Key3 => {
                        self.player.sys = Systems::Radar;
                    },
                    Key::W => {
                        match self.player.sys {
                            Systems::Radar => {
                                self.input.radar = true;
                            },
                            Systems::Weapons => {
                                self.input.fire = true;
                            },
                            Systems::Engines => {
                                self.input.yaxis = ONE;
                            },
                        }
                    },
                    Key::A => {
                        self.input.xaxis = -ONE;
                    },
                    Key::D => {
                        self.input.xaxis = ONE;
                    },
                    Key::Escape => {
                        return true;
                    },
                    Key::Other => {},
                }
            },
            ButtonState::Released => {
                match key {
                    Key::W => {
                        self.input.yaxis = 0;
                        self.input.fire = false;
                        self.input.radar = false;
                    },
                    Key::A => {
                        self.input.xaxis = 0;
                    },
                    Key::D => {
                        self.input.xaxis = 0;
                    },
                    _ => {},
                }
            },
            _ => {},
        }
        false
    }
}

} // verus!
