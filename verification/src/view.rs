//! The decisions behind what the screen shows: how a door looks, whether it
//! can be clicked, which control is offered, and how a count is abbreviated.

use vstd::prelude::*;

use crate::game_logic::{Door, DoorContent, DoorStatus};
use crate::session::GameState;

verus! {

/// How a door is drawn.
#[derive(Clone, Copy, Debug, PartialEq, Eq, Structural)]
pub enum DoorFace {
    /// Closed and not chosen.
    Closed,
    /// Closed and chosen by the player.
    Chosen,
    /// Open on a goat.
    Goat,
    /// Open on the car.
    Car,
}

/// How a door is drawn, from whether it is open and chosen and what it hides.
pub fn door_face(door: &Door, is_selected: bool) -> (f: DoorFace)
    ensures
        f == if door.status != DoorStatus::Open && !is_selected {
            DoorFace::Closed
        } else if door.status != DoorStatus::Open {
            DoorFace::Chosen
        } else if door.content == DoorContent::Goat {
            DoorFace::Goat
        } else {
            DoorFace::Car
        },
{
    let is_open = door.status == DoorStatus::Open;
    if !is_open && !is_selected {
        DoorFace::Closed
    } else if !is_open && is_selected {
        DoorFace::Chosen
    } else if is_open && door.content == DoorContent::Goat {
        DoorFace::Goat
    } else {
        DoorFace::Car
    }
}

/// A door cannot be clicked once the game is decided, once it is open, or
/// while a simulation runs.
pub fn door_disabled(state: GameState, door: &Door, visual_demo: bool, running: bool) -> (b: bool)
    ensures
        b == (state == GameState::Finished || door.status == DoorStatus::Open || visual_demo
            || running),
{
    state == GameState::Finished || door.status == DoorStatus::Open || visual_demo || running
}

/// The most runs that are shown door by door; more run in turbo mode.
pub const DEMO_MAX_RUNS: u64 = 1000;

/// Whether a simulation of `runs` games runs in turbo mode.
pub fn is_turbo(runs: u64) -> (b: bool)
    ensures
        b == (runs > DEMO_MAX_RUNS),
{
    runs > DEMO_MAX_RUNS
}

/// The control button on offer.
#[derive(Clone, Copy, Debug, PartialEq, Eq, Structural)]
pub enum ControlMode {
    /// A simulation runs: the button stops it.
    Stop,
    /// The button starts a turbo simulation.
    Turbo,
    /// The button starts a visual demo.
    Demo,
}

/// The control on offer: stop while anything runs, otherwise turbo or demo
/// by the number of runs asked for.
pub fn control_mode(is_running: bool, is_visual_demo: bool, runs: u64) -> (m: ControlMode)
    ensures
        m == if is_running || is_visual_demo {
            ControlMode::Stop
        } else if runs > DEMO_MAX_RUNS {
            ControlMode::Turbo
        } else {
            ControlMode::Demo
        },
{
    if is_running || is_visual_demo {
        ControlMode::Stop
    } else if is_turbo(runs) {
        ControlMode::Turbo
    } else {
        ControlMode::Demo
    }
}

/// The unit in which a count is abbreviated.
#[derive(Clone, Copy, Debug, PartialEq, Eq, Structural)]
pub enum CompactUnit {
    /// Written out in full.
    Units,
    /// In thousands, with the suffix K.
    Thousands,
    /// In millions, with the suffix M.
    Millions,
    /// In billions, with the suffix B.
    Billions,
}

/// The largest unit that the count reaches: billions from 1 000 000 000,
/// millions from 1 000 000, thousands from 1 000.
pub fn compact_unit(num: u64) -> (u: CompactUnit)
    ensures
        u == if num >= 1_000_000_000 {
            CompactUnit::Billions
        } else if num >= 1_000_000 {
            CompactUnit::Millions
        } else if num >= 1_000 {
            CompactUnit::Thousands
        } else {
            CompactUnit::Units
        },
{
    if num >= 1_000_000_000 {
        CompactUnit::Billions
    } else if num >= 1_000_000 {
        CompactUnit::Millions
    } else if num >= 1_000 {
        CompactUnit::Thousands
    } else {
        CompactUnit::Units
    }
}

} // verus!
