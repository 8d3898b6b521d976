use glib::agent::{Agent, AgentError};
use glib::game::error::GameError;
use glib::game::unit::Category;
use glib::game::Game;

#[test]
fn a_game_takes_as_many_players_as_it_was_made_for() {
    let mut agent = Agent::new(Game::new(3, (10, 10)));
    let a = agent.register_player().unwrap();
    let b = agent.register_player().unwrap();
    let c = agent.register_player().unwrap();
    assert!(a != b && b != c && a != c);
    assert!(agent.register_player().is_none());
    assert!(agent.register_player().is_none());
    assert_eq!(agent.player_id_to_inner(a), Some(0));
    assert_eq!(agent.player_id_to_inner(b), Some(1));
    assert_eq!(agent.player_id_to_inner(c), Some(2));
}

#[test]
fn registering_under_a_given_id_hands_that_id_out() {
    let mut agent = Agent::new(Game::new(2, (10, 10)));
    assert_eq!(agent.register_player_as(77), Some(77));
    assert_eq!(agent.register_player_as(78), Some(78));
    assert_eq!(agent.register_player_as(79), None);
    assert_eq!(agent.player_id_to_inner(78), Some(1));
    assert_eq!(agent.player_id_to_inner(79), None);
}

#[test]
fn an_id_that_was_handed_out_twice_names_the_first_player() {
    let mut agent = Agent::new(Game::new(2, (10, 10)));
    assert_eq!(agent.register_player_as(5), Some(5));
    assert_eq!(agent.register_player_as(5), Some(5));
    assert_eq!(agent.player_id_to_inner(5), Some(0));
}

#[test]
fn units_are_added_for_registered_players_only() {
    let mut agent = Agent::new(Game::new(2, (10, 10)));
    agent.register_player_as(1).unwrap();
    agent.register_player_as(2).unwrap();
    assert_eq!(agent.add_unit(2, (1, 1), Category::Knight), Ok(0));
    assert_eq!(agent.add_unit(1, (2, 2), Category::Cavalry), Ok(1));
    assert_eq!(
        agent.add_unit(3, (3, 3), Category::Cavalry),
        Err(AgentError::UnknownPlayer(3))
    );
    assert_eq!(
        agent.add_unit(3, (30, 3), Category::Cavalry),
        Err(AgentError::UnknownPlayer(3))
    );
    assert_eq!(
        agent.add_unit(1, (10, 3), Category::Cavalry),
        Err(AgentError::Game(GameError::PositionOutsideTheBoard(10, 3)))
    );
    assert_eq!(agent.add_unit(2, (4, 4), Category::Pickerman), Ok(2));

    let units = agent.get_units(2).unwrap();
    assert_eq!(units.len(), 2);
    assert_eq!(units[0].id, 0);
    assert_eq!(units[0].owner_id, 1);
    assert_eq!(units[0].position, (1, 1));
    assert_eq!(units[1].id, 2);
    let units = agent.get_units(1).unwrap();
    assert_eq!(units.len(), 1);
    assert_eq!(units[0].id, 1);
    assert!(matches!(agent.get_units(3), Err(AgentError::UnknownPlayer(3))));
}
