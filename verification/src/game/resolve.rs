//! Turn resolution: the units that were ordered to move or to attack are
//! advanced step by step until none of them has anywhere left to go.

use vstd::prelude::*;
use super::helpers::{
    get_next_field_in_path, get_unis_moving_info, lemma_step_gets_closer, next_field, steps_between,
    Coords,
};
use super::unit::{MoveQueue, MovingWrapper, State, Unit};
use super::{occupied, Game, GameView};

verus! {

/// The units that have somewhere to go, in the order of their creation,
/// none of them having taken a step yet.
pub open spec fn waiting(units: Seq<Unit>) -> Seq<MovingWrapper>
    decreases units.len(),
{
    if units.len() == 0 {
        Seq::empty()
    } else if units.last().state.target() is Some {
        waiting(units.drop_last()).push(
            MovingWrapper { moves_made: 0, unit_id: units.last().id },
        )
    } else {
        waiting(units.drop_last())
    }
}

/// One step of one unit. A unit that is neither moving nor attacking stays
/// as it is. Otherwise the unit looks at the next cell on its way: when a
/// unit stands there, it becomes `Blocked`; when the cell is free, it
/// moves there, and becomes `Idle` if that is its target. Only a unit that
/// has moved and not arrived goes on, with one more step taken.
pub open spec fn step(units: Seq<Unit>, w: MovingWrapper) -> (Seq<Unit>, Option<MovingWrapper>) {
    let u = units[w.unit_id as int];
    match u.state.target() {
        None => (units, None),
        Some(t) => {
            let next = next_field(u.position, t);
            if occupied(units, next) {
                (units.update(w.unit_id as int, Unit { state: State::Blocked, ..u }), None)
            } else if next == t {
                (
                    units.update(w.unit_id as int, Unit { position: next, state: State::Idle, ..u }),
                    None,
                )
            } else {
                (
                    units.update(w.unit_id as int, Unit { position: next, ..u }),
                    Some(
                        MovingWrapper {
                            moves_made: (w.moves_made + 1) as usize,
                            unit_id: w.unit_id,
                        },
                    ),
                )
            }
        },
    }
}

/// One pass over the queue: every waiting unit takes one step, in the
/// order of the queue. The result holds the units after the pass and the
/// queue of those that go on.
pub open spec fn pass(units: Seq<Unit>, queue: Seq<MovingWrapper>) -> (
    Seq<Unit>,
    Seq<MovingWrapper>,
)
    decreases queue.len(),
{
    if queue.len() == 0 {
        (units, Seq::empty())
    } else {
        let (before, moved) = pass(units, queue.drop_last());
        let (after, w) = step(before, queue.last());
        (
            after,
            match w {
                Some(w) => moved.push(w),
                None => moved,
            },
        )
    }
}

/// At most `n` passes, stopping as soon as no unit waits.
pub open spec fn run(units: Seq<Unit>, queue: Seq<MovingWrapper>, n: nat) -> (
    Seq<Unit>,
    Seq<MovingWrapper>,
)
    decreases n,
{
    if n == 0 || queue.len() == 0 {
        (units, queue)
    } else {
        run(pass(units, queue).0, pass(units, queue).1, (n - 1) as nat)
    }
}

/// Whether every entry of the queue names a unit and can count one more
/// step.
pub open spec fn steppable(units: Seq<Unit>, queue: Seq<MovingWrapper>) -> bool {
    forall|i: int|
        0 <= i < queue.len() ==> (#[trigger] queue[i]).unit_id < units.len() && queue[i].moves_made
            < usize::MAX
}

/// Whether the queue holds an entry for the unit with the given id.
pub open spec fn has_id(queue: Seq<MovingWrapper>, id: usize) -> bool {
    exists|i: int| 0 <= i < queue.len() && (#[trigger] queue[i]).unit_id == id
}

/// Whether the entry names a unit that has somewhere to go, at most
/// `remaining` steps away, and has taken `moves` steps.
pub open spec fn entry_ok(units: Seq<Unit>, e: MovingWrapper, moves: nat, remaining: int) -> bool {
    &&& e.unit_id < units.len()
    &&& e.moves_made == moves
    &&& units[e.unit_id as int].state.target() matches Some(t) && steps_between(
        units[e.unit_id as int].position,
        t,
    ) <= remaining
}

/// Whether the queue is one that a turn's resolution reaches after `moves`
/// passes: no unit is in it twice, and every entry is as `entry_ok` says.
pub open spec fn in_step(
    units: Seq<Unit>,
    queue: Seq<MovingWrapper>,
    moves: nat,
    remaining: int,
) -> bool {
    &&& forall|i: int|
        0 <= i < queue.len() ==> entry_ok(units, #[trigger] queue[i], moves, remaining)
    &&& forall|i: int, j: int|
        0 <= i < j < queue.len() ==> (#[trigger] queue[i]).unit_id != (#[trigger] queue[j]).unit_id
}

/// Whether every unit that has somewhere to go is in the queue.
pub open spec fn covered(units: Seq<Unit>, queue: Seq<MovingWrapper>) -> bool {
    forall|x: usize|
        x < units.len() && (#[trigger] units[x as int]).state.target() is Some ==> has_id(queue, x)
}

/// Whether no two units stand on the same cell.
pub open spec fn cells_exclusive(units: Seq<Unit>) -> bool {
    forall|i: int, j: int|
        0 <= i < j < units.len() ==> (#[trigger] units[i]).position != (#[trigger] units[j]).position
}

/// The longer side of the board: no way on the board takes that many
/// steps.
pub open spec fn longest_side(size: Coords) -> nat {
    if size.0 >= size.1 {
        size.0 as nat
    } else {
        size.1 as nat
    }
}

/// The units after the turn has been resolved: passes are made until no
/// unit waits, which takes fewer passes than the longer side of the board
/// has cells.
pub open spec fn resolved(game: GameView) -> Seq<Unit> {
    run(game.units, waiting(game.units), longest_side(game.board_size)).0
}

impl Game {
    /// Returns the queue of the units that have somewhere to go.
    pub fn units_to_be_moved(&self) -> (queue: MoveQueue)
        requires
            self.wf(),
        ensures
            queue.wf(),
            queue@ == waiting(self@.units),
    {
        let mut queue = MoveQueue::new();
        let count = self.get_num_of_units();
        let mut i: usize = 0;
        while i < count
            invariant
                self.wf(),
                count == self@.units.len(),
                i <= count,
                queue.wf(),
                queue@ == waiting(self@.units.subrange(0, i as int)),
                forall|j: int| 0 <= j < queue@.len() ==> queue@[j].moves_made == 0,
            decreases count - i,
        {
            proof {
                assert(self@.units.subrange(0, i + 1).drop_last() =~= self@.units.subrange(
                    0,
                    i as int,
                ));
            }
            if let Ok(unit) = self.get_unit(i) {
                if unit.state.destination().is_some() {
                    queue.push(MovingWrapper::new(unit.id));
                }
            }
            i = i + 1;
        }
        proof {
            assert(self@.units.subrange(0, i as int) =~= self@.units);
        }
        queue
    }

    /// Lets the unit that `wrapper` names take one step, and returns the
    /// wrapper with which it goes on, if it does.
    pub fn resolve_unit(&mut self, wrapper: &MovingWrapper) -> (r: Option<MovingWrapper>)
        requires
            old(self).wf(),
            wrapper.unit_id < old(self)@.units.len(),
            wrapper.moves_made < usize::MAX,
        ensures
            final(self).wf(),
            final(self)@ == (GameView {
                units: step(old(self)@.units, *wrapper).0,
                ..old(self)@
            }),
            r == step(old(self)@.units, *wrapper).1,
    {
        proof {
            assert(self@.unit_ok(wrapper.unit_id as int));
        }
        let unit = match self.get_unit(wrapper.unit_id) {
            Ok(unit) => *unit,
            Err(_) => { return None; },
        };
        let (state, pos) = get_unis_moving_info(&unit);
        match state.destination() {
            None => {
                proof {
                    assert(self@.units =~= step(self@.units, *wrapper).0);
                }
                None
            },
            Some(target) => {
                let next_pos = get_next_field_in_path(pos, target);
                if self.field_empty(next_pos) {
                    proof {
                        super::helpers::lemma_step_stays_in_bounds(
                            pos,
                            target,
                            self@.board_size,
                        );
                    }
                    let mut moved = unit;
                    moved.position = next_pos;
                    if next_pos.0 == target.0 && next_pos.1 == target.1 {
                        moved.state = State::Idle;
                        self.replace_unit(moved);
                        return None;
                    }
                    self.replace_unit(moved);
                    Some(
                        MovingWrapper {
                            moves_made: wrapper.moves_made + 1,
                            unit_id: wrapper.unit_id,
                        },
                    )
                } else {
                    let mut stuck = unit;
                    stuck.state = State::Blocked;
                    self.replace_unit(stuck);
                    None
                }
            },
        }
    }

    /// Makes a single step for each unit of the queue, in the order of the
    /// queue, and returns the queue of the units that still have to move.
    pub fn make_move(&mut self, units: MoveQueue) -> (filtered: MoveQueue)
        requires
            old(self).wf(),
            units.wf(),
            steppable(old(self)@.units, units@),
        ensures
            final(self).wf(),
            filtered.wf(),
            final(self)@ == (GameView {
                units: pass(old(self)@.units, units@).0,
                ..old(self)@
            }),
            filtered@ == pass(old(self)@.units, units@).1,
    {
        let mut filtered = MoveQueue::new();
        let mut i: usize = 0;
        let ghost start = self@;
        proof {
            assert(units@.subrange(0, 0) =~= Seq::<MovingWrapper>::empty());
        }
        while i < units.len()
            invariant
                self.wf(),
                units.wf(),
                filtered.wf(),
                i <= units@.len(),
                steppable(start.units, units@),
                self@.units.len() == start.units.len(),
                self@ == (GameView {
                    units: pass(start.units, units@.subrange(0, i as int)).0,
                    ..start
                }),
                filtered@ == pass(start.units, units@.subrange(0, i as int)).1,
                forall|j: int, k: int|
                    0 <= j < filtered@.len() && i <= k < units@.len() ==> filtered@[j].moves_made
                        <= units@[k].moves_made + 1,
            decreases units@.len() - i,
        {
            let w = units.get(i);
            proof {
                assert(units@.subrange(0, i + 1).drop_last() =~= units@.subrange(0, i as int));
                assert(units@.subrange(0, i + 1).last() == units@[i as int]);
            }
            if let Some(val) = self.resolve_unit(&w) {
                proof {
                    if filtered@.len() > 0 {
                        assert(filtered@.last().moves_made <= units@[i as int].moves_made + 1);
                    }
                }
                filtered.push(val);
            }
            i = i + 1;
        }
        proof {
            assert(units@.subrange(0, i as int) =~= units@);
        }
        filtered
    }
}

/// A pass keeps the number of units, and the queue it returns names units
/// that the queue it was given named.
pub proof fn lemma_pass_shape(units: Seq<Unit>, queue: Seq<MovingWrapper>)
    requires
        forall|i: int| 0 <= i < queue.len() ==> (#[trigger] queue[i]).unit_id < units.len(),
    ensures
        pass(units, queue).0.len() == units.len(),
        forall|i: int|
            0 <= i < pass(units, queue).1.len() ==> (#[trigger] pass(units, queue).1[i]).unit_id
                < units.len(),
    decreases queue.len(),
{
    if queue.len() > 0 {
        let prefix = queue.drop_last();
        assert forall|i: int| 0 <= i < prefix.len() implies (#[trigger] prefix[i]).unit_id
            < units.len() by {
            assert(prefix[i] == queue[i]);
        }
        lemma_pass_shape(units, prefix);
    }
}

/// What one pass does to a queue in which every unit occurs once, has
/// taken `moves` steps and is at most `remaining` steps from its target:
/// the units that go on have taken one step more and are one step closer;
/// units that were not in the queue are untouched; and a unit of the queue
/// that still has somewhere to go is among those that go on.
pub proof fn lemma_pass_progress(
    units: Seq<Unit>,
    queue: Seq<MovingWrapper>,
    moves: nat,
    remaining: int,
)
    requires
        in_step(units, queue, moves, remaining),
        moves < usize::MAX,
    ensures
        ({
            let (after, moved) = pass(units, queue);
            &&& after.len() == units.len()
            &&& in_step(after, moved, moves + 1, remaining - 1)
            &&& forall|x: usize|
                x < units.len() && !has_id(queue, x) ==> #[trigger] after[x as int] == units[x as int]
            &&& forall|i: int|
                0 <= i < moved.len() ==> has_id(queue, (#[trigger] moved[i]).unit_id)
            &&& forall|x: usize|
                x < units.len() && has_id(queue, x) && (#[trigger] after[x as int]).state.target() is Some
                    ==> has_id(moved, x)
        }),
    decreases queue.len(),
{
    if queue.len() > 0 {
        let prefix = queue.drop_last();
        let w = queue.last();
        let last = queue.len() - 1;
        assert forall|i: int| 0 <= i < prefix.len() implies entry_ok(
            units,
            #[trigger] prefix[i],
            moves,
            remaining,
        ) by {
            assert(prefix[i] == queue[i]);
        }
        assert forall|i: int, j: int| 0 <= i < j < prefix.len() implies (#[trigger] prefix[i]).unit_id
            != (#[trigger] prefix[j]).unit_id by {
            assert(prefix[i] == queue[i] && prefix[j] == queue[j]);
        }
        lemma_pass_progress(units, prefix, moves, remaining);
        let (before, m) = pass(units, prefix);
        let (after, r) = step(before, w);
        let moved = pass(units, queue).1;
        let id = w.unit_id as int;
        assert(w == queue[last]);
        assert(entry_ok(units, w, moves, remaining));
        assert(!has_id(prefix, w.unit_id)) by {
            if has_id(prefix, w.unit_id) {
                let i = choose|i: int| 0 <= i < prefix.len() && (#[trigger] prefix[i]).unit_id == w.unit_id;
                assert(prefix[i] == queue[i]);
                assert(queue[i].unit_id != queue[last].unit_id);
            }
        }
        assert(before[id] == units[id]);
        let u = before[id];
        let t = u.state.target()->Some_0;
        let next = next_field(u.position, t);
        // every queue id is a prefix id or the last id, and the other way round
        assert forall|x: usize| has_id(prefix, x) implies has_id(queue, x) by {
            let i = choose|i: int| 0 <= i < prefix.len() && (#[trigger] prefix[i]).unit_id == x;
            assert(queue[i] == prefix[i]);
        }
        assert forall|x: usize| has_id(queue, x) implies has_id(prefix, x) || x == w.unit_id by {
            let i = choose|i: int| 0 <= i < queue.len() && (#[trigger] queue[i]).unit_id == x;
            if i < last {
                assert(prefix[i] == queue[i]);
            }
        }
        assert(has_id(queue, w.unit_id));
        // the entries that went on before are untouched by this step
        assert forall|i: int| 0 <= i < m.len() implies (#[trigger] m[i]).unit_id != w.unit_id
            && entry_ok(after, m[i], moves + 1, remaining - 1) by {
            assert(has_id(prefix, m[i].unit_id));
            assert(entry_ok(before, m[i], moves + 1, remaining - 1));
            assert(after[m[i].unit_id as int] == before[m[i].unit_id as int]);
        }
        if r is Some {
            let w2 = r->Some_0;
            assert(!occupied(before, next));
            assert(u.position != t) by {
                if u.position == t {
                    assert(before[id].position == next);
                }
            }
            lemma_step_gets_closer(u.position, t);
            assert(after[id].position == next);
            assert(moved == m.push(w2));
            assert forall|i: int| 0 <= i < moved.len() implies entry_ok(
                after,
                #[trigger] moved[i],
                moves + 1,
                remaining - 1,
            ) by {
                if i < m.len() {
                    assert(moved[i] == m[i]);
                }
            }
            assert forall|i: int, j: int| 0 <= i < j < moved.len() implies (#[trigger] moved[i]).unit_id
                != (#[trigger] moved[j]).unit_id by {
                assert(moved[i] == m[i]);
                if j < m.len() {
                    assert(moved[j] == m[j]);
                }
            }
            assert forall|i: int| 0 <= i < moved.len() implies has_id(
                queue,
                (#[trigger] moved[i]).unit_id,
            ) by {
                if i < m.len() {
                    assert(moved[i] == m[i]);
                    assert(has_id(prefix, m[i].unit_id));
                }
            }
            assert forall|x: usize| has_id(m, x) implies has_id(moved, x) by {
                let i = choose|i: int| 0 <= i < m.len() && (#[trigger] m[i]).unit_id == x;
                assert(moved[i] == m[i]);
            }
            assert(has_id(moved, w.unit_id)) by {
                assert(moved[m.len() as int].unit_id == w.unit_id);
            }
        } else {
            assert(moved == m);
            assert(after[id].state.target() is None);
            assert forall|i: int| 0 <= i < moved.len() implies has_id(
                queue,
                (#[trigger] moved[i]).unit_id,
            ) by {
                assert(has_id(prefix, m[i].unit_id));
            }
        }
        assert forall|x: usize| x < units.len() && !has_id(queue, x) implies #[trigger] after[x as int]
            == units[x as int] by {
            assert(!has_id(prefix, x));
            assert(x != w.unit_id);
        }
        assert forall|x: usize|
            x < units.len() && has_id(queue, x) && (#[trigger] after[x as int]).state.target() is Some implies has_id(
            moved,
            x,
        ) by {
            if x != w.unit_id {
                assert(has_id(prefix, x));
                assert(after[x as int] == before[x as int]);
                assert(has_id(m, x));
            }
        }
    }
}

/// The queue with which a turn's resolution starts holds every unit that
/// has somewhere to go, once, with no step taken.
pub proof fn lemma_waiting_in_step(units: Seq<Unit>, remaining: int)
    requires
        units.len() <= usize::MAX,
        forall|i: int| 0 <= i < units.len() ==> (#[trigger] units[i]).id == i,
        forall|i: int|
            0 <= i < units.len() ==> ((#[trigger] units[i]).state.target() matches Some(t)
                ==> steps_between(units[i].position, t) <= remaining),
    ensures
        in_step(units, waiting(units), 0, remaining),
        covered(units, waiting(units)),
    decreases units.len(),
{
    if units.len() > 0 {
        let p = units.drop_last();
        let q = waiting(units);
        let qp = waiting(p);
        assert forall|i: int| 0 <= i < p.len() implies (#[trigger] p[i]).id == i by {
            assert(p[i] == units[i]);
        }
        assert forall|i: int| 0 <= i < p.len() implies ((#[trigger] p[i]).state.target() matches Some(t)
            ==> steps_between(p[i].position, t) <= remaining) by {
            assert(p[i] == units[i]);
        }
        lemma_waiting_in_step(p, remaining);
        assert forall|i: int| 0 <= i < q.len() implies entry_ok(
            units,
            #[trigger] q[i],
            0,
            remaining,
        ) by {
            if i < qp.len() {
                assert(q[i] == qp[i]);
                assert(entry_ok(p, qp[i], 0, remaining));
                assert(p[qp[i].unit_id as int] == units[qp[i].unit_id as int]);
            }
        }
        assert forall|i: int, j: int| 0 <= i < j < q.len() implies (#[trigger] q[i]).unit_id != (
        #[trigger] q[j]).unit_id by {
            assert(q[i] == qp[i]);
            assert(entry_ok(p, qp[i], 0, remaining));
            if j < qp.len() {
                assert(q[j] == qp[j]);
            }
        }
        assert forall|x: usize|
            x < units.len() && (#[trigger] units[x as int]).state.target() is Some implies has_id(
            q,
            x,
        ) by {
            if x < p.len() {
                assert(p[x as int] == units[x as int]);
                assert(has_id(qp, x));
                let i = choose|i: int| 0 <= i < qp.len() && (#[trigger] qp[i]).unit_id == x;
                assert(q[i] == qp[i]);
            } else {
                assert(q[qp.len() as int].unit_id == x);
            }
        }
    }
}

/// A step keeps the units on cells of their own.
pub proof fn lemma_step_keeps_cells_exclusive(units: Seq<Unit>, w: MovingWrapper)
    requires
        cells_exclusive(units),
        w.unit_id < units.len(),
    ensures
        cells_exclusive(step(units, w).0),
{
    let after = step(units, w).0;
    assert forall|i: int, j: int| 0 <= i < j < after.len() implies (#[trigger] after[i]).position != (
    #[trigger] after[j]).position by {
        assert(units[i].position != units[j].position);
    }
}

/// A pass keeps the units on cells of their own.
pub proof fn lemma_pass_keeps_cells_exclusive(units: Seq<Unit>, queue: Seq<MovingWrapper>)
    requires
        cells_exclusive(units),
        forall|i: int| 0 <= i < queue.len() ==> (#[trigger] queue[i]).unit_id < units.len(),
    ensures
        cells_exclusive(pass(units, queue).0),
    decreases queue.len(),
{
    if queue.len() > 0 {
        let prefix = queue.drop_last();
        assert forall|i: int| 0 <= i < prefix.len() implies (#[trigger] prefix[i]).unit_id
            < units.len() by {
            assert(prefix[i] == queue[i]);
        }
        lemma_pass_keeps_cells_exclusive(units, prefix);
        lemma_pass_shape(units, prefix);
        lemma_step_keeps_cells_exclusive(pass(units, prefix).0, queue.last());
    }
}

/// Any number of passes keeps the units on cells of their own: when no two
/// units share a cell before the turn is resolved, no two ever do while it
/// is resolved, nor afterwards.
pub proof fn lemma_run_keeps_cells_exclusive(units: Seq<Unit>, queue: Seq<MovingWrapper>, n: nat)
    requires
        cells_exclusive(units),
        forall|i: int| 0 <= i < queue.len() ==> (#[trigger] queue[i]).unit_id < units.len(),
    ensures
        cells_exclusive(run(units, queue, n).0),
    decreases n,
{
    if n > 0 && queue.len() > 0 {
        lemma_pass_keeps_cells_exclusive(units, queue);
        lemma_pass_shape(units, queue);
        lemma_run_keeps_cells_exclusive(pass(units, queue).0, pass(units, queue).1, (n - 1) as nat);
    }
}

/// Resolving a turn keeps the units of a well-formed game on cells of
/// their own.
pub proof fn lemma_resolution_keeps_cells_exclusive(game: GameView)
    requires
        game.wf(),
        game.units.len() <= usize::MAX,
        cells_exclusive(game.units),
    ensures
        cells_exclusive(resolved(game)),
{
    lemma_start_of_turn(game);
    let q = waiting(game.units);
    assert forall|i: int| 0 <= i < q.len() implies (#[trigger] q[i]).unit_id < game.units.len() by {
        assert(entry_ok(game.units, q[i], 0, longest_side(game.board_size) - 1));
    }
    lemma_run_keeps_cells_exclusive(game.units, q, longest_side(game.board_size));
}

/// In a well-formed game the queue with which a turn starts is as
/// `lemma_waiting_in_step` says, no unit being as many steps from its
/// target as the longer side of the board has cells.
pub proof fn lemma_start_of_turn(game: GameView)
    requires
        game.wf(),
        game.units.len() <= usize::MAX,
    ensures
        in_step(game.units, waiting(game.units), 0, longest_side(game.board_size) - 1),
        covered(game.units, waiting(game.units)),
{
    assert forall|i: int| 0 <= i < game.units.len() implies (#[trigger] game.units[i]).id == i by {
        assert(game.unit_ok(i));
    }
    assert forall|i: int| 0 <= i < game.units.len() implies ((#[trigger] game.units[i]).state.target() matches Some(
        t,
    ) ==> steps_between(game.units[i].position, t) <= longest_side(game.board_size) - 1) by {
        assert(game.unit_ok(i));
    }
    lemma_waiting_in_step(game.units, longest_side(game.board_size) - 1);
}

impl Game {
    /// Resolves the turn: the units that were ordered to move or to attack
    /// take their steps, pass after pass, until none of them waits for
    /// another. Afterwards no unit is moving or attacking: each has arrived
    /// and is `Idle`, or has found its way occupied and is `Blocked`. Units
    /// that had nowhere to go are as they were.
    pub fn resolve_moves(&mut self)
        requires
            old(self).wf(),
        ensures
            final(self).wf(),
            final(self)@ == (GameView { units: resolved(old(self)@), ..old(self)@ }),
            forall|i: int|
                0 <= i < final(self)@.units.len() ==> (#[trigger] final(self)@.units[i]).state.target() is None,
            forall|i: int|
                0 <= i < old(self)@.units.len() && old(self)@.units[i].state.target() is None
                    ==> #[trigger] final(self)@.units[i] == old(self)@.units[i],
            cells_exclusive(old(self)@.units) ==> cells_exclusive(final(self)@.units),
    {
        let ghost start = self@;
        let ghost n = longest_side(start.board_size);
        let ghost mut k: nat = 0;
        let count = self.get_num_of_units();
        let mut unresolved = self.units_to_be_moved();
        proof {
            lemma_start_of_turn(start);
            if cells_exclusive(start.units) {
                lemma_resolution_keeps_cells_exclusive(start);
            }
            assert forall|x: usize|
                x < count && start.units[x as int].state.target() is None implies !has_id(
                unresolved@,
                x,
            ) by {
                if has_id(unresolved@, x) {
                    let i = choose|i: int|
                        0 <= i < unresolved@.len() && (#[trigger] unresolved@[i]).unit_id == x;
                    assert(entry_ok(start.units, unresolved@[i], 0, n - 1));
                }
            }
        }
        while unresolved.len() > 0
            invariant
                self.wf(),
                unresolved.wf(),
                self@ == (GameView { units: self@.units, ..start }),
                self@.units.len() == count,
                k <= n,
                n <= usize::MAX,
                in_step(self@.units, unresolved@, k, n - 1 - k),
                covered(self@.units, unresolved@),
                forall|x: usize|
                    x < count && start.units[x as int].state.target() is None ==> !has_id(
                        unresolved@,
                        x,
                    ) && #[trigger] self@.units[x as int] == start.units[x as int],
                run(start.units, waiting(start.units), n) == run(
                    self@.units,
                    unresolved@,
                    (n - k) as nat,
                ),
            decreases n - k,
        {
            proof {
                assert(entry_ok(self@.units, unresolved@[0], k, n - 1 - k));
                assert(k < n);
                lemma_pass_progress(self@.units, unresolved@, k, n - 1 - k);
                assert forall|i: int| 0 <= i < unresolved@.len() implies (
                #[trigger] unresolved@[i]).unit_id < self@.units.len() && unresolved@[i].moves_made
                    < usize::MAX by {
                    assert(entry_ok(self@.units, unresolved@[i], k, n - 1 - k));
                }
            }
            let ghost before = self@.units;
            let ghost queue = unresolved@;
            unresolved = self.make_move(unresolved);
            proof {
                assert forall|x: usize|
                    x < self@.units.len() && (#[trigger] self@.units[x as int]).state.target() is Some implies has_id(
                    unresolved@,
                    x,
                ) by {
                    if !has_id(queue, x) {
                        assert(self@.units[x as int] == before[x as int]);
                    }
                }
                assert forall|x: usize|
                    x < count && start.units[x as int].state.target() is None implies !has_id(
                    unresolved@,
                    x,
                ) && #[trigger] self@.units[x as int] == start.units[x as int] by {
                    assert(!has_id(queue, x));
                    assert(self@.units[x as int] == before[x as int]);
                    if has_id(unresolved@, x) {
                        let i = choose|i: int|
                            0 <= i < unresolved@.len() && (#[trigger] unresolved@[i]).unit_id == x;
                        assert(has_id(queue, unresolved@[i].unit_id));
                    }
                }
                k = k + 1;
            }
        }
        proof {
            assert forall|i: int| 0 <= i < self@.units.len() implies (
            #[trigger] self@.units[i]).state.target() is None by {
                if self@.units[i].state.target() is Some {
                    assert(self@.units[i as usize as int].state.target() is Some);
                    assert(has_id(unresolved@, i as usize));
                }
            }
            assert forall|i: int|
                0 <= i < start.units.len() && start.units[i].state.target() is None implies #[trigger] self@.units[i]
                == start.units[i] by {
                assert(self@.units[i as usize as int] == start.units[i as usize as int]);
            }
        }
        self.resolve_blockades()
    }
}

} // verus!
