//! Units and the records that accompany them.

use vstd::prelude::*;

verus! {

/// Category of a unit. As in rock-paper-scissors, each category beats one
/// of the others and loses to the remaining one.
#[derive(Copy, Clone, Debug, PartialEq, Eq)]
pub enum Category {
    /// Beats Knight, loses to Pickerman.
    Cavalry,
    /// Beats Pickerman, loses to Cavalry.
    Knight,
    /// Beats Cavalry, loses to Knight.
    Pickerman,
}

/// Statistics that bound what a unit may do in one turn.
#[derive(Copy, Clone, Debug, PartialEq, Eq)]
pub struct Stats {
    /// Number of tiles the unit may be sent away while moving.
    pub movement_range: usize,
    /// Number of tiles the unit may be sent away while attacking.
    pub attack_range: usize,
    /// Distance at which the unit notices enemy units.
    pub vision_range: usize,
}

/// What a unit is currently doing.
#[derive(Copy, Clone, Debug, PartialEq, Eq)]
pub enum State {
    /// Nothing to do.
    Idle,
    /// Moving towards the given cell.
    Moving(usize, usize),
    /// The next cell on the way was occupied.
    Blocked,
    /// Like moving, but towards a battle.
    Attack(usize, usize),
}

impl State {
    /// The cell the unit is heading for, if it is heading anywhere.
    pub open spec fn target(self) -> Option<(usize, usize)> {
        match self {
            State::Moving(x, y) => Some((x, y)),
            State::Attack(x, y) => Some((x, y)),
            _ => None,
        }
    }

    /// The cell the unit is heading for, if it is heading anywhere.
    pub fn destination(&self) -> (r: Option<(usize, usize)>)
        ensures
            r == self.target(),
    {
        match *self {
            State::Moving(x, y) => Some((x, y)),
            State::Attack(x, y) => Some((x, y)),
            _ => None,
        }
    }
}

/// A single soldier on the board.
#[derive(Copy, Clone, Debug)]
pub struct Unit {
    /// The unit's identifier.
    pub id: usize,
    /// Index of the owning player.
    pub owner_id: u8,
    /// The cell the unit stands on.
    pub position: (usize, usize),
    /// The unit's category.
    pub category: Category,
    /// The unit's stats.
    pub stats: Stats,
    /// The unit's current state.
    pub state: State,
}

/// A unit on its way, together with the number of steps it has already
/// taken this turn.
#[derive(Copy, Clone, Debug)]
pub struct MovingWrapper {
    pub moves_made: usize,
    pub unit_id: usize,
}

impl MovingWrapper {
    /// Wraps a unit that has not moved yet.
    pub fn new(unit_id: usize) -> (w: MovingWrapper)
        ensures
            w.moves_made == 0,
            w.unit_id == unit_id,
    {
        MovingWrapper { moves_made: 0, unit_id }
    }
}

/// Whether the entries are ordered by the steps they have taken, fewest
/// first.
pub open spec fn ascending(q: Seq<MovingWrapper>) -> bool {
    forall|i: int, j: int| 0 <= i <= j < q.len() ==> q[i].moves_made <= q[j].moves_made
}

/// The place at which an entry that has taken `moves` steps enters the
/// queue: behind every entry that has taken as many steps or fewer.
pub open spec fn insert_place(q: Seq<MovingWrapper>, moves: usize) -> int
    decreases q.len(),
{
    if q.len() == 0 || q.last().moves_made <= moves {
        q.len() as int
    } else {
        insert_place(q.drop_last(), moves)
    }
}

/// The units that wait for their next step. Units that have taken fewer
/// steps this turn come first; among units that have taken equally many,
/// the one that entered first comes first.
pub struct MoveQueue {
    entries: Vec<MovingWrapper>,
}

impl View for MoveQueue {
    type V = Seq<MovingWrapper>;

    closed spec fn view(&self) -> Seq<MovingWrapper> {
        self.entries@
    }
}

impl MoveQueue {
    /// The invariant of the queue: its entries are in ascending order of
    /// steps taken.
    pub open spec fn wf(&self) -> bool {
        ascending(self@)
    }

    /// Creates an empty queue.
    pub fn new() -> (q: MoveQueue)
        ensures
            q.wf(),
            q@ == Seq::<MovingWrapper>::empty(),
    {
        MoveQueue { entries: Vec::new() }
    }

    /// Number of waiting units.
    pub fn len(&self) -> (n: usize)
        ensures
            n == self@.len(),
    {
        self.entries.len()
    }

    /// Whether no unit is waiting.
    pub fn is_empty(&self) -> (empty: bool)
        ensures
            empty == (self@.len() == 0),
    {
        self.entries.len() == 0
    }

    /// The entry at the given place, counted from the front.
    pub fn get(&self, i: usize) -> (w: MovingWrapper)
        requires
            i < self@.len(),
        ensures
            w == self@[i as int],
    {
        self.entries[i]
    }

    /// Enqueues a unit behind all those that have taken as many steps or
    /// fewer.
    pub fn push(&mut self, w: MovingWrapper)
        requires
            old(self).wf(),
        ensures
            final(self).wf(),
            final(self)@ == old(self)@.insert(insert_place(old(self)@, w.moves_made), w),
    {
        let mut i: usize = self.entries.len();
        proof {
            assert(self.entries@.subrange(0, i as int) =~= self.entries@);
        }
        while i > 0 && self.entries[i - 1].moves_made > w.moves_made
            invariant
                i <= self.entries@.len(),
                ascending(self.entries@),
                insert_place(self.entries@, w.moves_made) == insert_place(
                    self.entries@.subrange(0, i as int),
                    w.moves_made,
                ),
                forall|j: int| i <= j < self.entries@.len() ==> self.entries@[j].moves_made > w.moves_made,
            decreases i,
        {
            proof {
                assert(self.entries@.subrange(0, i as int).drop_last() =~= self.entries@.subrange(
                    0,
                    i - 1,
                ));
            }
            i = i - 1;
        }
        proof {
            if i > 0 {
                assert(self.entries@.subrange(0, i as int).last() == self.entries@[i - 1]);
            }
        }
        self.entries.insert(i, w);
    }

    /// Takes the unit at the front: one that has taken the fewest steps.
    pub fn pop(&mut self) -> (r: Option<MovingWrapper>)
        requires
            old(self).wf(),
        ensures
            final(self).wf(),
            old(self)@.len() == 0 ==> r is None && final(self)@ == old(self)@,
            old(self)@.len() > 0 ==> r == Some(old(self)@[0]) && final(self)@ == old(self)@.drop_first(),
    {
        if self.entries.len() == 0 {
            None
        } else {
            let w = self.entries.remove(0);
            proof {
                assert(self.entries@ =~= old(self)@.drop_first());
            }
            Some(w)
        }
    }
}

} // verus!
