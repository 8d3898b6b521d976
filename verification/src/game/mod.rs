//! The game model: players, units and the board they stand on.

pub mod error;
pub mod helpers;
pub mod order;
pub mod player;
pub mod resolve;
pub mod unit;

use vstd::prelude::*;
use self::error::GameError;
use self::helpers::Coords;
use self::player::{Player, PlayerView};
use self::unit::{Category, State, Unit};

verus! {

/// Whether a cell lies on a board of the given size.
pub open spec fn on_board(size: Coords, pos: Coords) -> bool {
    pos.0 < size.0 && pos.1 < size.1
}

/// Whether some unit stands on the given cell.
pub open spec fn occupied(units: Seq<Unit>, pos: Coords) -> bool {
    exists|i: int| 0 <= i < units.len() && (#[trigger] units[i]).position == pos
}

/// Ids of the units that belong to `owner`, in the order of their creation.
pub open spec fn owned_ids(units: Seq<Unit>, owner: u8) -> Seq<usize>
    decreases units.len(),
{
    if units.len() == 0 {
        Seq::empty()
    } else if units.last().owner_id == owner {
        owned_ids(units.drop_last(), owner).push(units.last().id)
    } else {
        owned_ids(units.drop_last(), owner)
    }
}

/// The unit that `add_unit` creates.
pub open spec fn fresh_unit(id: usize, owner_id: u8, position: Coords, category: Category) -> Unit {
    Unit { id, owner_id, position, category, stats: helpers::default_stats(), state: State::Idle }
}

/// What a game is made of, as plain mathematical values.
pub struct GameView {
    /// Number of players, active or not.
    pub num_of_players: u8,
    /// Width and height of the board.
    pub board_size: Coords,
    /// The units in play; a unit's id is its place in this sequence.
    pub units: Seq<Unit>,
    /// The players; a player's id is its place in this sequence.
    pub players: Seq<PlayerView>,
}

impl GameView {
    /// What holds of a single unit of a well-formed game.
    pub open spec fn unit_ok(self, i: int) -> bool {
        let u = self.units[i];
        &&& u.id == i
        &&& u.owner_id < self.num_of_players
        &&& on_board(self.board_size, u.position)
        &&& u.state.target() matches Some(t) ==> on_board(self.board_size, t)
    }

    /// What holds of a single player of a well-formed game.
    pub open spec fn player_ok(self, p: int) -> bool {
        let player = self.players[p];
        &&& player.id == p
        &&& player.units == owned_ids(self.units, p as u8)
    }

    /// The invariant of the game model: at least two players and a board
    /// with at least one cell; every unit carries its place as its id,
    /// belongs to a player, stands on the board and heads, if anywhere, to
    /// a cell of the board; every player knows exactly its own units.
    pub open spec fn wf(self) -> bool {
        &&& self.num_of_players > 1
        &&& self.board_size.0 > 0
        &&& self.board_size.1 > 0
        &&& forall|i: int| 0 <= i < self.units.len() ==> #[trigger] self.unit_ok(i)
        &&& self.players.len() == self.num_of_players
        &&& forall|p: int| 0 <= p < self.players.len() ==> #[trigger] self.player_ok(p)
    }

    /// The game after the unit `u` has been added and handed to its owner.
    pub open spec fn with_unit(self, u: Unit) -> GameView {
        let owner = self.players[u.owner_id as int];
        GameView {
            units: self.units.push(u),
            players: self.players.update(
                u.owner_id as int,
                PlayerView { units: owner.units.push(u.id), ..owner },
            ),
            ..self
        }
    }

    /// Whether the unit with the given id may be sent to `target`: the
    /// target must lie on the board, the unit must exist, and the target
    /// must be within the unit's movement range. The checks are made in
    /// this order, and the first that fails names the error.
    pub open spec fn order_check(self, unit_id: usize, target: Coords) -> Result<(), GameError> {
        if !on_board(self.board_size, target) {
            Err(GameError::PositionOutsideTheBoard(target.0, target.1))
        } else if unit_id >= self.units.len() {
            Err(GameError::NonExistingUnit(unit_id))
        } else if helpers::manhattan_distance(self.units[unit_id as int].position, target)
            > self.units[unit_id as int].stats.movement_range {
            Err(GameError::MoveOutsideUnitsReach(target.0, target.1))
        } else {
            Ok(())
        }
    }

    /// Where the units `a` and `b` meet for battle.
    pub open spec fn rendezvous(self, a: usize, b: usize) -> Coords {
        midpoint(self.units[a as int].position, self.units[b as int].position)
    }

    /// Whether the units `a` and `b` may be sent to battle each other: both
    /// must exist, and each must be allowed to go to the rendezvous. The
    /// first unit is checked first.
    pub open spec fn battle_check(self, a: usize, b: usize) -> Result<(), GameError> {
        if a >= self.units.len() {
            Err(GameError::NonExistingUnit(a))
        } else if b >= self.units.len() {
            Err(GameError::NonExistingUnit(b))
        } else if self.order_check(a, self.rendezvous(a, b)) is Err {
            self.order_check(a, self.rendezvous(a, b))
        } else {
            self.order_check(b, self.rendezvous(a, b))
        }
    }

    /// Whether `unit` may take the place of the unit that has its id: there
    /// is such a unit, it has the same owner, and `unit` stands on the
    /// board and heads, if anywhere, to a cell of the board.
    pub open spec fn admits(self, unit: Unit) -> bool {
        &&& unit.id < self.units.len()
        &&& unit.owner_id == self.units[unit.id as int].owner_id
        &&& on_board(self.board_size, unit.position)
        &&& unit.state.target() matches Some(t) ==> on_board(self.board_size, t)
    }

    /// The game after `unit` has taken the place of the unit that has its
    /// id.
    pub open spec fn with_replaced(self, unit: Unit) -> GameView {
        GameView { units: self.units.update(unit.id as int, unit), ..self }
    }

    /// The game after the unit with the given id has taken the given state.
    pub open spec fn with_state(self, unit_id: int, state: State) -> GameView {
        GameView {
            units: self.units.update(unit_id, Unit { state, ..self.units[unit_id] }),
            ..self
        }
    }
}

/// The current state of a game.
pub struct Game {
    /// Number of players (active and inactive).
    num_of_players: u8,
    /// Number of units currently in play.
    num_of_units: usize,
    /// Boundaries of the game board.
    board_size: (usize, usize),
    /// Units currently in play.
    units: Vec<Unit>,
    /// The players, indexed by their id.
    players: Vec<Player>,
}

impl View for Game {
    type V = GameView;

    closed spec fn view(&self) -> GameView {
        GameView {
            num_of_players: self.num_of_players,
            board_size: self.board_size,
            units: self.units@,
            players: self.players@.map_values(|p: Player| p@),
        }
    }
}

/// The units whose id is among `ids`, in the order of their creation.
pub open spec fn selected_units(units: Seq<Unit>, ids: Seq<usize>) -> Seq<Unit>
    decreases units.len(),
{
    if units.len() == 0 {
        Seq::empty()
    } else if ids.contains(units.last().id) {
        selected_units(units.drop_last(), ids).push(units.last())
    } else {
        selected_units(units.drop_last(), ids)
    }
}

/// The first of `ids` that no unit has, when `count` units are in play.
pub open spec fn first_missing(ids: Seq<usize>, count: nat) -> Option<usize>
    decreases ids.len(),
{
    if ids.len() == 0 {
        None
    } else if ids[0] >= count {
        Some(ids[0])
    } else {
        first_missing(ids.drop_first(), count)
    }
}

/// The cell halfway between two cells, rounded down on each axis.
pub open spec fn midpoint(a: Coords, b: Coords) -> Coords {
    (((a.0 + b.0) / 2) as usize, ((a.1 + b.1) / 2) as usize)
}

/// Adding a unit at the end adds its id to its owner's units and to no
/// other player's.
pub proof fn lemma_owned_ids_push(units: Seq<Unit>, u: Unit, owner: u8)
    ensures
        owned_ids(units.push(u), owner) == if u.owner_id == owner {
            owned_ids(units, owner).push(u.id)
        } else {
            owned_ids(units, owner)
        },
{
    assert(units.push(u).drop_last() =~= units);
}

/// Who owns which unit depends on the ids and owners alone.
pub proof fn lemma_owned_ids_same_owners(a: Seq<Unit>, b: Seq<Unit>, owner: u8)
    requires
        a.len() == b.len(),
        forall|i: int| 0 <= i < a.len() ==> a[i].id == b[i].id && a[i].owner_id == b[i].owner_id,
    ensures
        owned_ids(a, owner) == owned_ids(b, owner),
    decreases a.len(),
{
    if a.len() > 0 {
        lemma_owned_ids_same_owners(a.drop_last(), b.drop_last(), owner);
    }
}

/// The units that belong to `owner`, in the order of their creation.
pub open spec fn owned_units(units: Seq<Unit>, owner: u8) -> Seq<Unit>
    decreases units.len(),
{
    if units.len() == 0 {
        Seq::empty()
    } else if units.last().owner_id == owner {
        owned_units(units.drop_last(), owner).push(units.last())
    } else {
        owned_units(units.drop_last(), owner)
    }
}

/// Where each unit's id is its place, the ids that a player owns are the
/// places of its units.
pub proof fn lemma_owned_ids_contains(units: Seq<Unit>, owner: u8, id: usize)
    requires
        forall|i: int| 0 <= i < units.len() ==> (#[trigger] units[i]).id == i,
    ensures
        owned_ids(units, owner).contains(id) <==> (id < units.len() && units[id as int].owner_id
            == owner),
    decreases units.len(),
{
    if units.len() > 0 {
        let p = units.drop_last();
        assert forall|i: int| 0 <= i < p.len() implies (#[trigger] p[i]).id == i by {
            assert(p[i] == units[i]);
        }
        lemma_owned_ids_contains(p, owner, id);
        let rest = owned_ids(p, owner);
        if id < p.len() {
            assert(p[id as int] == units[id as int]);
        }
        if units.last().owner_id == owner {
            let all = rest.push(units.last().id);
            if rest.contains(id) {
                let k = choose|k: int| 0 <= k < rest.len() && rest[k] == id;
                assert(all[k] == id);
            }
            if id == units.last().id {
                assert(all[rest.len() as int] == id);
            }
        }
    }
}

/// Asking for the ids that a player owns selects the player's units.
pub proof fn lemma_selected_owned(units: Seq<Unit>, n: int, owner: u8)
    requires
        0 <= n <= units.len(),
        forall|i: int| 0 <= i < units.len() ==> (#[trigger] units[i]).id == i,
    ensures
        selected_units(units.subrange(0, n), owned_ids(units, owner)) == owned_units(
            units.subrange(0, n),
            owner,
        ),
    decreases n,
{
    if n > 0 {
        assert(units.subrange(0, n).drop_last() =~= units.subrange(0, n - 1));
        lemma_selected_owned(units, n - 1, owner);
        lemma_owned_ids_contains(units, owner, units[n - 1].id);
    }
}

/// A well-formed game stays well-formed when a unit is replaced by one
/// that the game admits.
pub proof fn lemma_replacing_keeps_wf(before: GameView, unit: Unit)
    requires
        before.wf(),
        before.admits(unit),
    ensures
        before.with_replaced(unit).wf(),
{
    let after = before.with_replaced(unit);
    assert forall|i: int| 0 <= i < after.units.len() implies #[trigger] after.unit_ok(i) by {
        assert(before.unit_ok(i));
    }
    assert forall|p: int| 0 <= p < after.players.len() implies #[trigger] after.player_ok(p) by {
        assert(before.player_ok(p));
        assert forall|i: int| 0 <= i < before.units.len() implies before.units[i].id
            == after.units[i].id && before.units[i].owner_id == after.units[i].owner_id by {
            assert(before.unit_ok(i));
        }
        lemma_owned_ids_same_owners(before.units, after.units, p as u8);
    }
}

/// When every id before the `i`-th belongs to a unit and the `i`-th does
/// not, the `i`-th is the first that is missing.
pub proof fn lemma_first_missing_at(ids: Seq<usize>, count: nat, i: int)
    requires
        0 <= i < ids.len(),
        forall|j: int| 0 <= j < i ==> ids[j] < count,
        ids[i] >= count,
    ensures
        first_missing(ids, count) == Some(ids[i]),
    decreases i,
{
    if i > 0 {
        lemma_first_missing_at(ids.drop_first(), count, i - 1);
    }
}

/// When every id belongs to a unit, none is missing.
pub proof fn lemma_none_missing(ids: Seq<usize>, count: nat)
    requires
        forall|j: int| 0 <= j < ids.len() ==> ids[j] < count,
    ensures
        first_missing(ids, count) is None,
    decreases ids.len(),
{
    if ids.len() > 0 {
        lemma_none_missing(ids.drop_first(), count);
    }
}

/// Whether `id` is among `ids`.
fn contains_id(ids: &Vec<usize>, id: usize) -> (found: bool)
    ensures
        found == ids@.contains(id),
{
    let mut i: usize = 0;
    while i < ids.len()
        invariant
            i <= ids@.len(),
            forall|j: int| 0 <= j < i ==> ids@[j] != id,
        decreases ids@.len() - i,
    {
        if ids[i] == id {
            return true;
        }
        i = i + 1;
    }
    false
}

impl Game {
    /// Whether the private bookkeeping agrees with the units in play.
    pub closed spec fn counted(&self) -> bool {
        self.num_of_units == self.units@.len()
    }

    /// The invariant of the game: see [`GameView::wf`].
    pub open spec fn wf(&self) -> bool {
        self.counted() && self@.wf()
    }

    /// Creates a game for the given number of players on a board of the
    /// given size. A game needs at least two players and a board with at
    /// least one cell.
    pub fn new(num_of_players: u8, board_size: (usize, usize)) -> (g: Game)
        requires
            num_of_players > 1,
            board_size.0 > 0,
            board_size.1 > 0,
        ensures
            g.wf(),
            g@.num_of_players == num_of_players,
            g@.board_size == board_size,
            g@.units == Seq::<Unit>::empty(),
            forall|p: int|
                0 <= p < num_of_players ==> #[trigger] g@.players[p] == (PlayerView {
                    id: p as u8,
                    available_units: 10,
                    units: Seq::empty(),
                }),
    {
        let mut players: Vec<Player> = Vec::new();
        let mut id: u8 = 0;
        while id < num_of_players
            invariant
                id <= num_of_players,
                players@.len() == id,
                forall|p: int|
                    0 <= p < id ==> #[trigger] players@[p]@ == (PlayerView {
                        id: p as u8,
                        available_units: 10,
                        units: Seq::empty(),
                    }),
            decreases num_of_players - id,
        {
            players.push(Player::new(id));
            id = id + 1;
        }
        let g = Game { num_of_players, num_of_units: 0, board_size, units: Vec::new(), players };
        proof {
            assert forall|p: int| 0 <= p < g@.players.len() implies #[trigger] g@.player_ok(p) by {
                assert(g@.players[p] == players@[p]@);
            }
        }
        g
    }

    /// Returns the number of players, active or not.
    pub fn get_num_of_players(&self) -> (n: u8)
        ensures
            n == self@.num_of_players,
    {
        self.num_of_players
    }

    /// Returns the width and height of the board.
    pub fn get_board_size(&self) -> (size: (usize, usize))
        ensures
            size == self@.board_size,
    {
        self.board_size
    }

    /// Returns the number of units in play.
    pub fn get_num_of_units(&self) -> (n: usize)
        requires
            self.wf(),
        ensures
            n == self@.units.len(),
    {
        self.num_of_units
    }

    /// Checks that the given position lies on the board.
    pub fn assert_position_in_board(&self, pos: Coords) -> (r: Result<(), GameError>)
        ensures
            on_board(self@.board_size, pos) ==> r == Ok::<(), GameError>(()),
            !on_board(self@.board_size, pos) ==> r == Err::<(), GameError>(
                GameError::PositionOutsideTheBoard(pos.0, pos.1),
            ),
    {
        if pos.0 >= self.board_size.0 || pos.1 >= self.board_size.1 {
            return Err(GameError::PositionOutsideTheBoard(pos.0, pos.1));
        }
        Ok(())
    }

    /// Adds a new unit to the game: it gets the next id, the default stats
    /// and the state `Idle`, and is handed to its owner. The owner must be
    /// one of the game's players. A position outside the board is
    /// rejected, and the game stays as it was.
    pub fn add_unit(&mut self, owner_id: u8, position: (usize, usize), category: Category) -> (r:
        Result<&Unit, GameError>)
        requires
            old(self).wf(),
            owner_id < old(self)@.num_of_players,
        ensures
            final(self).wf(),
            !on_board(old(self)@.board_size, position) ==> {
                &&& r == Err::<&Unit, GameError>(
                    GameError::PositionOutsideTheBoard(position.0, position.1),
                )
                &&& final(self)@ == old(self)@
            },
            on_board(old(self)@.board_size, position) ==> {
                &&& r == Ok::<&Unit, GameError>(
                    &fresh_unit(old(self)@.units.len() as usize, owner_id, position, category),
                )
                &&& final(self)@ == old(self)@.with_unit(*r->Ok_0)
            },
    {
        if let Err(e) = self.assert_position_in_board(position) {
            return Err(e);
        }
        let unit = Unit {
            id: self.num_of_units,
            owner_id,
            position,
            category,
            stats: helpers::default_unit_stats(),
            state: State::Idle,
        };
        let ghost before = self@;
        self.units.push(unit);
        self.num_of_units = self.units.len();
        self.players[owner_id as usize].units.push(unit.id);
        proof {
            let after = self@;
            assert(after.players =~= before.with_unit(unit).players);
            assert(after == before.with_unit(unit));
            assert forall|i: int| 0 <= i < after.units.len() implies #[trigger] after.unit_ok(
                i,
            ) by {
                if i < before.units.len() {
                    assert(before.unit_ok(i));
                }
            }
            assert forall|p: int| 0 <= p < after.players.len() implies #[trigger] after.player_ok(
                p,
            ) by {
                assert(before.player_ok(p));
                lemma_owned_ids_push(before.units, unit, p as u8);
            }
        }
        Ok(&self.units[unit.id])
    }

    /// Returns the player with the given id, if the game has one.
    pub fn get_player(&self, id: u8) -> (r: Option<&Player>)
        requires
            self.wf(),
        ensures
            id < self@.num_of_players ==> (r matches Some(p) && p@ == self@.players[id as int]),
            id >= self@.num_of_players ==> r is None,
    {
        if (id as usize) < self.players.len() {
            Some(&self.players[id as usize])
        } else {
            None
        }
    }

    /// Returns the unit with the given id, or `NonExistingUnit` when no
    /// unit has it.
    pub fn get_unit(&self, unit_id: usize) -> (r: Result<&Unit, GameError>)
        requires
            self.wf(),
        ensures
            unit_id < self@.units.len() ==> r == Ok::<&Unit, GameError>(
                &self@.units[unit_id as int],
            ),
            unit_id >= self@.units.len() ==> r == Err::<&Unit, GameError>(
                GameError::NonExistingUnit(unit_id),
            ),
    {
        if unit_id < self.units.len() {
            Ok(&self.units[unit_id])
        } else {
            Err(GameError::NonExistingUnit(unit_id))
        }
    }

    /// Returns the units whose ids are given, in the order of their
    /// creation; an id that is given twice counts once. When one of the ids
    /// belongs to no unit, the first such id is reported as
    /// `NonExistingUnit` and no unit is returned.
    pub fn get_units(&self, ids: Vec<usize>) -> (r: Result<Vec<&Unit>, GameError>)
        requires
            self.wf(),
        ensures
            match first_missing(ids@, self@.units.len()) {
                Some(id) => r == Err::<Vec<&Unit>, GameError>(GameError::NonExistingUnit(id)),
                None => r matches Ok(found) && found@.map_values(|u: &Unit| *u)
                    == selected_units(self@.units, ids@),
            },
    {
        let mut k: usize = 0;
        while k < ids.len()
            invariant
                k <= ids@.len(),
                forall|j: int| 0 <= j < k ==> ids@[j] < self.units@.len(),
            decreases ids@.len() - k,
        {
            if ids[k] >= self.units.len() {
                proof {
                    lemma_first_missing_at(ids@, self.units@.len(), k as int);
                }
                return Err(GameError::NonExistingUnit(ids[k]));
            }
            k = k + 1;
        }
        proof {
            lemma_none_missing(ids@, self.units@.len());
        }
        let mut found: Vec<&Unit> = Vec::new();
        let mut i: usize = 0;
        while i < self.units.len()
            invariant
                i <= self.units@.len(),
                found@.map_values(|u: &Unit| *u) == selected_units(
                    self.units@.subrange(0, i as int),
                    ids@,
                ),
            decreases self.units@.len() - i,
        {
            let u = &self.units[i];
            proof {
                assert(self.units@.subrange(0, i + 1).drop_last() =~= self.units@.subrange(
                    0,
                    i as int,
                ));
            }
            if contains_id(&ids, u.id) {
                let ghost before = found@;
                found.push(u);
                proof {
                    assert(found@.map_values(|u: &Unit| *u) =~= before.map_values(|u: &Unit| *u).push(
                        *u,
                    ));
                }
            }
            i = i + 1;
        }
        proof {
            assert(self.units@.subrange(0, i as int) =~= self.units@);
        }
        Ok(found)
    }

    /// Checks that no unit stands on the given cell.
    pub fn field_empty(&self, pos: Coords) -> (empty: bool)
        ensures
            empty == !occupied(self@.units, pos),
    {
        let mut i: usize = 0;
        while i < self.units.len()
            invariant
                i <= self.units@.len(),
                forall|j: int| 0 <= j < i ==> self.units@[j].position != pos,
            decreases self.units@.len() - i,
        {
            let u = &self.units[i];
            if u.position.0 == pos.0 && u.position.1 == pos.1 {
                return false;
            }
            i = i + 1;
        }
        true
    }

    /// Puts `unit` in the place of the unit that has its id. The unit keeps
    /// its owner and stays on the board, as does its target.
    pub(crate) fn replace_unit(&mut self, unit: Unit)
        requires
            old(self).wf(),
            old(self)@.admits(unit),
        ensures
            final(self).wf(),
            final(self)@ == old(self)@.with_replaced(unit),
    {
        let ghost before = self@;
        self.units[unit.id] = unit;
        proof {
            assert(self@.units =~= before.units.update(unit.id as int, unit));
            assert(self@.players =~= before.players);
            lemma_replacing_keeps_wf(before, unit);
        }
    }

    /// Returns the unit with the given id for changing it, or
    /// `NonExistingUnit` when no unit has it. Whoever changes the unit has
    /// to keep the game well-formed.
    fn get_unit_mut(&mut self, unit_id: usize) -> (r: Result<&mut Unit, GameError>)
        requires
            old(self).wf(),
        ensures
            unit_id >= old(self)@.units.len() ==> r == Err::<&mut Unit, GameError>(
                GameError::NonExistingUnit(unit_id),
            ) && *final(self) == *old(self),
            unit_id < old(self)@.units.len() ==> (r matches Ok(unit) && {
                &&& *unit == old(self)@.units[unit_id as int]
                &&& final(self).counted()
                &&& final(self)@ == (GameView {
                    units: old(self)@.units.update(unit_id as int, *final(unit)),
                    ..old(self)@
                })
            }),
    {
        if unit_id < self.units.len() {
            Ok(&mut self.units[unit_id])
        } else {
            Err(GameError::NonExistingUnit(unit_id))
        }
    }

    /// Gives the unit with the given id a new state.
    fn set_state(&mut self, unit_id: usize, state: State)
        requires
            old(self).wf(),
            unit_id < old(self)@.units.len(),
            state.target() matches Some(t) ==> on_board(old(self)@.board_size, t),
        ensures
            final(self).wf(),
            final(self)@ == old(self)@.with_state(unit_id as int, state),
    {
        proof {
            assert(self@.unit_ok(unit_id as int));
            lemma_replacing_keeps_wf(
                self@,
                Unit { state, ..self@.units[unit_id as int] },
            );
        }
        if let Ok(unit) = self.get_unit_mut(unit_id) {
            unit.state = state;
        }
    }

    /// The checks shared by `move_unit` and `attack_position`.
    fn check_order(&self, unit_id: usize, target: Coords) -> (r: Result<(), GameError>)
        requires
            self.wf(),
        ensures
            r == self@.order_check(unit_id, target),
    {
        if let Err(e) = self.assert_position_in_board(target) {
            return Err(e);
        }
        match self.get_unit(unit_id) {
            Err(e) => Err(e),
            Ok(unit) => helpers::assert_unit_move_within_reach(unit, target),
        }
    }

    /// Orders the unit to move to `target`. The target must lie on the
    /// board and within the unit's movement range. The unit does not move
    /// yet: only its state changes, to `Moving`.
    pub fn move_unit(&mut self, unit_id: usize, target: Coords) -> (r: Result<(), GameError>)
        requires
            old(self).wf(),
        ensures
            final(self).wf(),
            r == old(self)@.order_check(unit_id, target),
            r is Ok ==> final(self)@ == old(self)@.with_state(
                unit_id as int,
                State::Moving(target.0, target.1),
            ),
            r is Err ==> final(self)@ == old(self)@,
    {
        if let Err(e) = self.check_order(unit_id, target) {
            return Err(e);
        }
        self.set_state(unit_id, State::Moving(target.0, target.1));
        Ok(())
    }

    /// Orders the unit to attack `target`. The checks are those of
    /// `move_unit`; the unit's state becomes `Attack`.
    pub fn attack_position(&mut self, unit_id: usize, target: Coords) -> (r: Result<
        (),
        GameError,
    >)
        requires
            old(self).wf(),
        ensures
            final(self).wf(),
            r == old(self)@.order_check(unit_id, target),
            r is Ok ==> final(self)@ == old(self)@.with_state(
                unit_id as int,
                State::Attack(target.0, target.1),
            ),
            r is Err ==> final(self)@ == old(self)@,
    {
        if let Err(e) = self.check_order(unit_id, target) {
            return Err(e);
        }
        self.set_state(unit_id, State::Attack(target.0, target.1));
        Ok(())
    }

    /// Sends two units to battle each other at the cell halfway between
    /// them. Either both units take the state `Attack` towards that cell,
    /// or an error is returned and the game is as it was before: when the
    /// second unit cannot go, the first gets its previous state back.
    pub fn battle_units(&mut self, u1_id: usize, u2_id: usize) -> (r: Result<(), GameError>)
        requires
            old(self).wf(),
        ensures
            final(self).wf(),
            r == old(self)@.battle_check(u1_id, u2_id),
            r is Ok ==> final(self)@ == old(self)@.with_state(
                u1_id as int,
                State::Attack(
                    old(self)@.rendezvous(u1_id, u2_id).0,
                    old(self)@.rendezvous(u1_id, u2_id).1,
                ),
            ).with_state(
                u2_id as int,
                State::Attack(
                    old(self)@.rendezvous(u1_id, u2_id).0,
                    old(self)@.rendezvous(u1_id, u2_id).1,
                ),
            ),
            r is Err ==> final(self)@ == old(self)@,
    {
        let (u1_pos, old_state) = match self.get_unit(u1_id) {
            Err(e) => { return Err(e); },
            Ok(unit) => (unit.position, unit.state),
        };
        let u2_pos = match self.get_unit(u2_id) {
            Err(e) => { return Err(e); },
            Ok(unit) => unit.position,
        };
        let x = halfway(u1_pos.0, u2_pos.0);
        let y = halfway(u1_pos.1, u2_pos.1);
        let ghost before = self@;
        proof {
            assert(before.unit_ok(u1_id as int));
            assert(before.unit_ok(u2_id as int));
        }
        if let Err(e) = self.attack_position(u1_id, (x, y)) {
            return Err(e);
        }
        match self.attack_position(u2_id, (x, y)) {
            Ok(()) => Ok(()),
            Err(e) => {
                self.set_state(u1_id, old_state);
                proof {
                    assert(self@.units =~= before.units);
                }
                Err(e)
            },
        }
    }

    /// Reserved for freeing units that a blockade holds: does nothing yet.
    pub fn resolve_blockades(&mut self)
        ensures
            *final(self) == *old(self),
    {
    }

    /// Reserved for naming the winner: no game is over yet.
    pub fn game_over(&self) -> (winner: Option<usize>)
        ensures
            winner is None,
    {
        None
    }
}

/// Half of the sum of two coordinates, rounded down.
fn halfway(a: usize, b: usize) -> (m: usize)
    ensures
        m == (a + b) / 2,
{
    a / 2 + b / 2 + (a % 2 + b % 2) / 2
}

} // verus!
