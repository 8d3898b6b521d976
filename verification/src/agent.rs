//! The agent stands between the connections and the game: it hands out
//! player ids and translates them into the game's player indices.

use vstd::prelude::*;
use crate::game::error::GameError;
use crate::game::unit::{Category, Unit};
use crate::game::{
    fresh_unit, lemma_none_missing, lemma_owned_ids_contains, lemma_selected_owned, on_board,
    owned_ids, owned_units, Game, GameView,
};

verus! {

/// The identifier by which a client names its player.
pub type PlayerID = u128;

/// Why the agent did not do what a player asked for.
#[derive(Debug, Clone, Copy, PartialEq, Eq)]
pub enum AgentError {
    /// No player is registered under the id.
    UnknownPlayer(PlayerID),
    /// The game refused the request.
    Game(GameError),
}

/// The place of the first occurrence of `id` among `ids`.
pub open spec fn first_place(ids: Seq<PlayerID>, id: PlayerID) -> Option<usize>
    decreases ids.len(),
{
    if ids.len() == 0 {
        None
    } else if first_place(ids.drop_last(), id) is Some {
        first_place(ids.drop_last(), id)
    } else if ids.last() == id {
        Some((ids.len() - 1) as usize)
    } else {
        None
    }
}

/// An agent as plain mathematical values.
pub struct AgentView {
    /// The game that the agent speaks for.
    pub game: GameView,
    /// The ids handed out so far; a player's index is its place here.
    pub player_ids: Seq<PlayerID>,
}

impl AgentView {
    /// Whether another player can be registered.
    pub open spec fn has_room(self) -> bool {
        self.player_ids.len() < self.game.num_of_players
    }

    /// The game's index of the player that the id names.
    pub open spec fn inner_id(self, id: PlayerID) -> Option<usize> {
        first_place(self.player_ids, id)
    }

    /// What asking for a unit at `position` gives: the id of the new unit,
    /// unless no player is registered under `player` or the position lies
    /// outside the board. The player is looked at first.
    pub open spec fn unit_request(self, player: PlayerID, position: (usize, usize)) -> Result<
        usize,
        AgentError,
    > {
        if self.inner_id(player) is None {
            Err(AgentError::UnknownPlayer(player))
        } else if !on_board(self.game.board_size, position) {
            Err(AgentError::Game(GameError::PositionOutsideTheBoard(position.0, position.1)))
        } else {
            Ok(self.game.units.len() as usize)
        }
    }

    /// The agent after `id` has been handed out.
    pub open spec fn with_player(self, id: PlayerID) -> AgentView {
        AgentView { player_ids: self.player_ids.push(id), ..self }
    }

    /// What asking for a player gives when `id` is drawn: the id, unless
    /// every player of the game is registered already.
    pub open spec fn registration(self, id: PlayerID) -> Option<PlayerID> {
        if self.has_room() {
            Some(id)
        } else {
            None
        }
    }

    /// The agent after a player has been asked for and `id` was drawn.
    pub open spec fn after_registration(self, id: PlayerID) -> AgentView {
        if self.has_room() {
            self.with_player(id)
        } else {
            self
        }
    }

    /// The agent after players have been asked for, one after the other,
    /// and these ids were drawn.
    pub open spec fn after_registrations(self, draws: Seq<PlayerID>) -> AgentView
        decreases draws.len(),
    {
        if draws.len() == 0 {
            self
        } else {
            self.after_registrations(draws.drop_last()).after_registration(draws.last())
        }
    }
}

/// Hands out player ids and passes the players' requests on to the game.
pub struct Agent {
    game_model: Game,
    assigned_players: u8,
    player_ids: Vec<PlayerID>,
}

impl View for Agent {
    type V = AgentView;

    closed spec fn view(&self) -> AgentView {
        AgentView { game: self.game_model@, player_ids: self.player_ids@ }
    }
}

/// An id is found at its first place, and only there.
pub proof fn lemma_first_place(ids: Seq<PlayerID>, id: PlayerID)
    requires
        ids.len() <= usize::MAX,
    ensures
        match first_place(ids, id) {
            Some(i) => i < ids.len() && ids[i as int] == id && forall|j: int|
                0 <= j < i ==> ids[j] != id,
            None => forall|j: int| 0 <= j < ids.len() ==> ids[j] != id,
        },
    decreases ids.len(),
{
    if ids.len() > 0 {
        lemma_first_place(ids.drop_last(), id);
        assert forall|j: int| 0 <= j < ids.len() - 1 implies ids.drop_last()[j] == ids[j] by {}
    }
}

/// Draws a fresh player id from `rand::random`. Nothing is claimed of the
/// value: any `u128` may come back, one that was drawn before included.
#[verifier::external_body]
fn gen_player_id() -> (id: PlayerID) {
    rand::random()
}

impl Agent {
    /// The invariant of the agent: its game is well-formed, and no more
    /// players are registered than the game has.
    pub closed spec fn wf(&self) -> bool {
        &&& self.game_model.wf()
        &&& self.assigned_players == self.player_ids@.len()
        &&& self.assigned_players <= self.game_model@.num_of_players
    }

    /// What the invariant says of the view.
    pub proof fn lemma_wf(&self)
        requires
            self.wf(),
        ensures
            self@.game.wf(),
            self@.player_ids.len() <= self@.game.num_of_players,
    {
    }

    /// Creates an agent for the given game, with no player registered.
    pub fn new(game_model: Game) -> (agent: Agent)
        requires
            game_model.wf(),
        ensures
            agent.wf(),
            agent@.game == game_model@,
            agent@.player_ids == Seq::<PlayerID>::empty(),
    {
        Agent { game_model, assigned_players: 0, player_ids: Vec::new() }
    }

    /// Registers a player under the given id, unless every player of the
    /// game is registered already.
    pub fn register_player_as(&mut self, id: PlayerID) -> (r: Option<PlayerID>)
        requires
            old(self).wf(),
        ensures
            final(self).wf(),
            r == old(self)@.registration(id),
            final(self)@ == old(self)@.after_registration(id),
    {
        if self.assigned_players == self.game_model.get_num_of_players() {
            None
        } else {
            self.assigned_players += 1;
            self.player_ids.push(id);
            Some(id)
        }
    }

    /// Registers a player under a freshly drawn id, unless every player of
    /// the game is registered already. The id is random: it is unlikely,
    /// but not excluded, that it was handed out before.
    pub fn register_player(&mut self) -> (r: Option<PlayerID>)
        requires
            old(self).wf(),
        ensures
            final(self).wf(),
            old(self)@.has_room() ==> (r matches Some(id) && final(self)@
                == old(self)@.after_registration(id)),
            !old(self)@.has_room() ==> r is None && final(self)@ == old(self)@,
    {
        if self.assigned_players == self.game_model.get_num_of_players() {
            None
        } else {
            let id = gen_player_id();
            self.register_player_as(id)
        }
    }

    /// Adds a unit for the player that `player` names, and returns the
    /// unit's id. Fails when no such player is registered, and when the
    /// position lies outside the board; the game is then as it was.
    pub fn add_unit(&mut self, player: PlayerID, position: (usize, usize), category: Category) -> (r:
        Result<usize, AgentError>)
        requires
            old(self).wf(),
        ensures
            final(self).wf(),
            final(self)@.player_ids == old(self)@.player_ids,
            r == old(self)@.unit_request(player, position),
            match old(self)@.inner_id(player) {
                Some(owner) if r is Ok => final(self)@.game == old(self)@.game.with_unit(
                    fresh_unit(
                        old(self)@.game.units.len() as usize,
                        owner as u8,
                        position,
                        category,
                    ),
                ),
                _ => final(self)@ == old(self)@,
            },
    {
        let owner_id = match self.player_id_to_inner(player) {
            None => { return Err(AgentError::UnknownPlayer(player)); },
            Some(val) => val,
        };
        match self.game_model.add_unit(owner_id as u8, position, category) {
            Ok(unit) => Ok(unit.id),
            Err(e) => Err(AgentError::Game(e)),
        }
    }

    /// Returns the units of the player that `player` names, in the order
    /// of their creation. Fails when no such player is registered.
    pub fn get_units(&self, player: PlayerID) -> (r: Result<Vec<&Unit>, AgentError>)
        requires
            self.wf(),
        ensures
            match self@.inner_id(player) {
                Some(owner) => r matches Ok(found) && found@.map_values(|u: &Unit| *u)
                    == owned_units(self@.game.units, owner as u8),
                None => r == Err::<Vec<&Unit>, AgentError>(AgentError::UnknownPlayer(player)),
            },
    {
        let owner_id = match self.player_id_to_inner(player) {
            None => { return Err(AgentError::UnknownPlayer(player)); },
            Some(val) => val as u8,
        };
        let ids = match self.game_model.get_player(owner_id) {
            None => { return Err(AgentError::UnknownPlayer(player)); },
            Some(val) => val.units.clone(),
        };
        proof {
            let game = self.game_model@;
            assert(game.player_ok(owner_id as int));
            assert(ids@ =~= game.players[owner_id as int].units);
            assert forall|i: int| 0 <= i < game.units.len() implies (#[trigger] game.units[i]).id
                == i by {
                assert(game.unit_ok(i));
            }
            assert forall|j: int| 0 <= j < ids@.len() implies ids@[j] < game.units.len() by {
                assert(owned_ids(game.units, owner_id).contains(ids@[j]));
                lemma_owned_ids_contains(game.units, owner_id, ids@[j]);
            }
            lemma_none_missing(ids@, game.units.len());
            lemma_selected_owned(game.units, game.units.len() as int, owner_id);
            assert(game.units.subrange(0, game.units.len() as int) =~= game.units);
        }
        match self.game_model.get_units(ids) {
            Err(e) => Err(AgentError::Game(e)),
            Ok(res) => Ok(res),
        }
    }

    /// Translates a player id into the game's index of that player: the
    /// place at which the id was handed out first.
    pub fn player_id_to_inner(&self, id: PlayerID) -> (r: Option<usize>)
        requires
            self.wf(),
        ensures
            r == self@.inner_id(id),
            r matches Some(i) ==> (i < self@.player_ids.len() && i < self@.game.num_of_players),
    {
        let mut i: usize = 0;
        while i < self.player_ids.len()
            invariant
                self.wf(),
                i <= self.player_ids@.len(),
                first_place(self.player_ids@.subrange(0, i as int), id) is None,
            decreases self.player_ids@.len() - i,
        {
            proof {
                assert(self.player_ids@.subrange(0, i + 1).drop_last() =~= self.player_ids@.subrange(
                    0,
                    i as int,
                ));
            }
            if self.player_ids[i] == id {
                proof {
                    lemma_first_place_extends(self.player_ids@, i + 1, id);
                }
                return Some(i);
            }
            i = i + 1;
        }
        proof {
            assert(self.player_ids@.subrange(0, i as int) =~= self.player_ids@);
        }
        None
    }
}

/// An id that is found among the first `n` ids is found at the same place
/// among all of them.
pub proof fn lemma_first_place_extends(ids: Seq<PlayerID>, n: int, id: PlayerID)
    requires
        0 <= n <= ids.len(),
        first_place(ids.subrange(0, n), id) is Some,
    ensures
        first_place(ids, id) == first_place(ids.subrange(0, n), id),
    decreases ids.len() - n,
{
    if n < ids.len() {
        assert(ids.subrange(0, n + 1).drop_last() =~= ids.subrange(0, n));
        lemma_first_place_extends(ids, n + 1, id);
    } else {
        assert(ids.subrange(0, n) =~= ids);
    }
}

/// As long as the game has players left, every registration hands out the
/// id that was drawn.
pub proof fn lemma_registrations_with_room(agent: AgentView, draws: Seq<PlayerID>)
    requires
        agent.player_ids.len() + draws.len() <= agent.game.num_of_players,
    ensures
        agent.after_registrations(draws).player_ids == agent.player_ids + draws,
        agent.after_registrations(draws).game == agent.game,
    decreases draws.len(),
{
    if draws.len() > 0 {
        lemma_registrations_with_room(agent, draws.drop_last());
        assert(agent.player_ids + draws =~= (agent.player_ids + draws.drop_last()).push(
            draws.last(),
        ));
    } else {
        assert(agent.player_ids + draws =~= agent.player_ids);
    }
}

/// A game takes exactly as many players as it was made for: starting with
/// no player, each of the first `num_of_players` registrations succeeds
/// and hands out the id that was drawn for it, so that the ids handed out
/// are distinct whenever the draws are; the registration after them fails.
pub proof fn lemma_registration_fills_the_game(agent: AgentView, draws: Seq<PlayerID>)
    requires
        agent.player_ids.len() == 0,
        draws.len() == agent.game.num_of_players + 1,
    ensures
        forall|k: int|
            0 <= k < agent.game.num_of_players ==> #[trigger] agent.after_registrations(
                draws.take(k),
            ).registration(draws[k]) == Some(draws[k]),
        agent.after_registrations(draws.take(agent.game.num_of_players as int)).registration(
            draws[agent.game.num_of_players as int],
        ) is None,
        agent.after_registrations(draws).player_ids == draws.take(
            agent.game.num_of_players as int,
        ),
{
    let n = agent.game.num_of_players as int;
    assert forall|k: int| 0 <= k <= n implies (#[trigger] agent.after_registrations(
        draws.take(k),
    )).player_ids == draws.take(k) && agent.after_registrations(draws.take(k)).game
        == agent.game by {
        lemma_registrations_with_room(agent, draws.take(k));
        assert(agent.player_ids + draws.take(k) =~= draws.take(k));
    }
    assert(draws.drop_last() =~= draws.take(n));
}

/// Among distinct ids each is found at its own place: a player whose id
/// was handed out once is the player that the id names.
pub proof fn lemma_distinct_ids_name_their_players(ids: Seq<PlayerID>, i: int)
    requires
        0 <= i < ids.len() <= usize::MAX,
        forall|j: int, k: int| 0 <= j < k < ids.len() ==> ids[j] != ids[k],
    ensures
        first_place(ids, ids[i]) == Some(i as usize),
{
    lemma_first_place(ids, ids[i]);
}

} // verus!
