//! Small computations on coordinates and units that the game model shares.

use vstd::prelude::*;
use super::error::GameError;
use super::unit::{State, Stats, Unit};

verus! {

/// A cell of the board, as (x, y).
pub type Coords = (usize, usize);

/// The stats every unit starts with.
pub open spec fn default_stats() -> Stats {
    Stats { movement_range: 10, attack_range: 10, vision_range: 10 }
}

/// Distance between two coordinates on one axis.
pub open spec fn axis_distance(a: usize, b: usize) -> int {
    if a >= b {
        a - b
    } else {
        b - a
    }
}

/// Manhattan distance between two cells.
pub open spec fn manhattan_distance(from: Coords, to: Coords) -> int {
    axis_distance(from.0, to.0) + axis_distance(from.1, to.1)
}

/// Number of steps a unit needs from one cell to another when both axes
/// advance at once.
pub open spec fn steps_between(from: Coords, to: Coords) -> int {
    if axis_distance(from.0, to.0) >= axis_distance(from.1, to.1) {
        axis_distance(from.0, to.0)
    } else {
        axis_distance(from.1, to.1)
    }
}

/// One step on one axis from `curr` towards `dest`.
pub open spec fn next_on_axis(curr: usize, dest: usize) -> usize {
    if curr < dest {
        (curr + 1) as usize
    } else if curr > dest {
        (curr - 1) as usize
    } else {
        curr
    }
}

/// The cell after `curr` on the way to `dest`: each axis moves one step
/// towards the destination on its own, so the path may run diagonally.
pub open spec fn next_field(curr: Coords, dest: Coords) -> Coords {
    (next_on_axis(curr.0, dest.0), next_on_axis(curr.1, dest.1))
}

/// Returns the stats every unit starts with.
pub fn default_unit_stats() -> (stats: Stats)
    ensures
        stats == default_stats(),
{
    Stats { movement_range: 10, vision_range: 10, attack_range: 10 }
}

fn axis_gap(a: usize, b: usize) -> (d: usize)
    ensures
        d == axis_distance(a, b),
{
    if a >= b {
        a - b
    } else {
        b - a
    }
}

/// Checks that the requested target lies within the unit's movement
/// range, measured as Manhattan distance from where the unit stands.
pub fn assert_unit_move_within_reach(u: &Unit, target: Coords) -> (r: Result<(), GameError>)
    ensures
        manhattan_distance(u.position, target) <= u.stats.movement_range ==> r == Ok::<
            (),
            GameError,
        >(()),
        manhattan_distance(u.position, target) > u.stats.movement_range ==> r == Err::<
            (),
            GameError,
        >(GameError::MoveOutsideUnitsReach(target.0, target.1)),
{
    let x_diff = axis_gap(u.position.0, target.0);
    let y_diff = axis_gap(u.position.1, target.1);
    let range = u.stats.movement_range;
    if x_diff > range || y_diff > range - x_diff {
        return Err(GameError::MoveOutsideUnitsReach(target.0, target.1));
    }
    Ok(())
}

fn step_towards(curr: usize, dest: usize) -> (next: usize)
    ensures
        next == next_on_axis(curr, dest),
{
    if curr < dest {
        curr + 1
    } else if curr > dest {
        curr - 1
    } else {
        curr
    }
}

/// Given the current position and the destination, returns the next
/// position on the path.
pub fn get_next_field_in_path(curr: Coords, dest: Coords) -> (next: Coords)
    ensures
        next == next_field(curr, dest),
{
    (step_towards(curr.0, dest.0), step_towards(curr.1, dest.1))
}

/// Returns a copy of what turn resolution needs to know about a unit.
pub fn get_unis_moving_info(unit: &Unit) -> (info: (State, Coords))
    ensures
        info.0 == unit.state,
        info.1 == unit.position,
{
    (unit.state, unit.position)
}

/// A step towards an other cell brings the unit exactly one step closer.
pub proof fn lemma_step_gets_closer(curr: Coords, dest: Coords)
    requires
        curr != dest,
    ensures
        steps_between(next_field(curr, dest), dest) == steps_between(curr, dest) - 1,
        next_field(curr, dest) != curr,
{
}

/// A step never leaves the rectangle spanned by the origin and any cell
/// that holds both the current position and the destination.
pub proof fn lemma_step_stays_in_bounds(curr: Coords, dest: Coords, size: Coords)
    requires
        curr.0 < size.0,
        curr.1 < size.1,
        dest.0 < size.0,
        dest.1 < size.1,
    ensures
        next_field(curr, dest).0 < size.0,
        next_field(curr, dest).1 < size.1,
{
}

} // verus!
