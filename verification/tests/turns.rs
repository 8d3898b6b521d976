use glib::game::error::GameError;
use glib::game::helpers::{
    assert_unit_move_within_reach, default_unit_stats, get_next_field_in_path,
    get_unis_moving_info,
};
use glib::game::player::Player;
use glib::game::unit::{Category, MoveQueue, MovingWrapper, State};
use glib::game::Game;

#[test]
fn a_knight_walks_two_passes_to_its_target() {
    let mut g = Game::new(2, (10, 10));
    g.add_unit(0, (2, 2), Category::Knight).unwrap();
    g.move_unit(0, (4, 4)).unwrap();
    assert_eq!(g.get_unit(0).unwrap().state, State::Moving(4, 4));
    assert_eq!(g.get_unit(0).unwrap().position, (2, 2));

    let queue = g.units_to_be_moved();
    let queue = g.make_move(queue);
    assert_eq!(g.get_unit(0).unwrap().position, (3, 3));
    assert_eq!(g.get_unit(0).unwrap().state, State::Moving(4, 4));
    assert_eq!(queue.len(), 1);
    assert_eq!(queue.get(0).moves_made, 1);

    let queue = g.make_move(queue);
    assert_eq!(g.get_unit(0).unwrap().position, (4, 4));
    assert_eq!(g.get_unit(0).unwrap().state, State::Idle);
    assert!(queue.is_empty());
}

#[test]
fn resolve_moves_brings_a_unit_to_its_target() {
    let mut g = Game::new(2, (10, 10));
    g.add_unit(0, (2, 2), Category::Knight).unwrap();
    g.move_unit(0, (7, 3)).unwrap();
    g.resolve_moves();
    assert_eq!(g.get_unit(0).unwrap().position, (7, 3));
    assert_eq!(g.get_unit(0).unwrap().state, State::Idle);
    assert_eq!(g.units_to_be_moved().len(), 0);
}

#[test]
fn attacking_units_walk_like_moving_ones() {
    let mut g = Game::new(2, (10, 10));
    g.add_unit(0, (0, 0), Category::Knight).unwrap();
    g.attack_position(0, (0, 3)).unwrap();
    let step = g.resolve_unit(&MovingWrapper::new(0)).unwrap();
    assert_eq!(step.moves_made, 1);
    assert_eq!(g.get_unit(0).unwrap().position, (0, 1));
    assert_eq!(g.get_unit(0).unwrap().state, State::Attack(0, 3));
    g.resolve_moves();
    assert_eq!(g.get_unit(0).unwrap().position, (0, 3));
    assert_eq!(g.get_unit(0).unwrap().state, State::Idle);
}

#[test]
fn two_units_heading_for_one_cell_never_share_it() {
    let mut g = Game::new(2, (10, 10));
    g.add_unit(0, (0, 0), Category::Knight).unwrap();
    g.add_unit(1, (4, 0), Category::Cavalry).unwrap();
    g.move_unit(0, (2, 0)).unwrap();
    g.move_unit(1, (2, 0)).unwrap();

    let queue = g.units_to_be_moved();
    assert_eq!(queue.get(0).unit_id, 0);
    assert_eq!(queue.get(1).unit_id, 1);
    let queue = g.make_move(queue);
    assert_eq!(g.get_unit(0).unwrap().position, (1, 0));
    assert_eq!(g.get_unit(1).unwrap().position, (3, 0));
    assert_eq!(queue.len(), 2);
    assert_eq!(queue.get(0).moves_made, 1);
    assert_eq!(queue.get(1).moves_made, 1);

    let queue = g.make_move(queue);
    assert!(queue.is_empty());
    assert_eq!(g.get_unit(0).unwrap().position, (2, 0));
    assert_eq!(g.get_unit(0).unwrap().state, State::Idle);
    assert_eq!(g.get_unit(1).unwrap().position, (3, 0));
    assert_eq!(g.get_unit(1).unwrap().state, State::Blocked);
    assert_ne!(
        g.get_unit(0).unwrap().position,
        g.get_unit(1).unwrap().position
    );
}

#[test]
fn a_unit_whose_way_is_occupied_is_blocked() {
    let mut g = Game::new(2, (10, 10));
    g.add_unit(0, (1, 1), Category::Knight).unwrap();
    g.add_unit(0, (2, 2), Category::Knight).unwrap();
    g.move_unit(0, (3, 3)).unwrap();
    assert!(g.resolve_unit(&MovingWrapper::new(0)).is_none());
    assert_eq!(g.get_unit(0).unwrap().position, (1, 1));
    assert_eq!(g.get_unit(0).unwrap().state, State::Blocked);
    assert_eq!(g.get_unit(1).unwrap().position, (2, 2));
}

#[test]
fn a_unit_sent_to_its_own_cell_finds_it_occupied() {
    let mut g = Game::new(2, (10, 10));
    g.add_unit(0, (1, 1), Category::Knight).unwrap();
    g.move_unit(0, (1, 1)).unwrap();
    g.resolve_moves();
    assert_eq!(g.get_unit(0).unwrap().position, (1, 1));
    assert_eq!(g.get_unit(0).unwrap().state, State::Blocked);
}

#[test]
fn an_idle_unit_does_not_step() {
    let mut g = Game::new(2, (10, 10));
    g.add_unit(0, (1, 1), Category::Knight).unwrap();
    assert!(g.resolve_unit(&MovingWrapper::new(0)).is_none());
    assert_eq!(g.get_unit(0).unwrap().position, (1, 1));
    assert_eq!(g.get_unit(0).unwrap().state, State::Idle);
}

#[test]
fn the_queue_hands_out_the_fewest_steps_first() {
    let mut q = MoveQueue::new();
    q.push(MovingWrapper { moves_made: 2, unit_id: 10 });
    q.push(MovingWrapper { moves_made: 0, unit_id: 11 });
    q.push(MovingWrapper { moves_made: 1, unit_id: 12 });
    q.push(MovingWrapper { moves_made: 0, unit_id: 13 });
    assert_eq!(q.len(), 4);
    assert_eq!(q.pop().unwrap().unit_id, 11);
    assert_eq!(q.pop().unwrap().unit_id, 13);
    assert_eq!(q.pop().unwrap().unit_id, 12);
    assert_eq!(q.pop().unwrap().unit_id, 10);
    assert!(q.pop().is_none());
    assert!(q.is_empty());
}

#[test]
fn battle_rolls_the_first_unit_back_when_the_second_cannot_go() {
    let mut g = Game::new(2, (100, 100));
    g.add_unit(0, (0, 0), Category::Knight).unwrap();
    g.add_unit(1, (21, 0), Category::Knight).unwrap();
    g.move_unit(0, (1, 1)).unwrap();
    // the rendezvous (10, 0) is ten cells from the first unit and eleven from the second
    assert!(matches!(
        g.battle_units(0, 1),
        Err(GameError::MoveOutsideUnitsReach(10, 0))
    ));
    assert_eq!(g.get_unit(0).unwrap().state, State::Moving(1, 1));
    assert_eq!(g.get_unit(1).unwrap().state, State::Idle);
}

#[test]
fn battle_of_a_unit_with_itself_sends_it_to_its_own_cell() {
    let mut g = Game::new(2, (10, 10));
    g.add_unit(0, (3, 4), Category::Knight).unwrap();
    assert!(g.battle_units(0, 0).is_ok());
    assert_eq!(g.get_unit(0).unwrap().state, State::Attack(3, 4));
}

#[test]
fn a_position_is_on_the_board_only_if_both_coordinates_are() {
    let mut g = Game::new(2, (10, 50));
    assert!(matches!(
        g.add_unit(0, (3, 50), Category::Knight),
        Err(GameError::PositionOutsideTheBoard(3, 50))
    ));
    assert!(matches!(
        g.add_unit(0, (10, 3), Category::Knight),
        Err(GameError::PositionOutsideTheBoard(10, 3))
    ));
    assert_eq!(g.get_num_of_units(), 0);
    assert!(g.add_unit(0, (9, 49), Category::Knight).is_ok());
    assert_eq!(g.get_num_of_units(), 1);
}

#[test]
fn a_move_out_of_range_leaves_the_state_as_it_was() {
    let mut g = Game::new(2, (30, 30));
    g.add_unit(0, (5, 5), Category::Knight).unwrap();
    g.move_unit(0, (10, 10)).unwrap();
    assert!(matches!(
        g.move_unit(0, (11, 10)),
        Err(GameError::MoveOutsideUnitsReach(11, 10))
    ));
    assert_eq!(g.get_unit(0).unwrap().state, State::Moving(10, 10));
    assert!(matches!(
        g.move_unit(7, (6, 6)),
        Err(GameError::NonExistingUnit(7))
    ));
    assert!(matches!(
        g.move_unit(7, (30, 6)),
        Err(GameError::PositionOutsideTheBoard(30, 6))
    ));
}

#[test]
fn helpers_compute_what_they_say() {
    let stats = default_unit_stats();
    assert_eq!(stats.movement_range, 10);
    assert_eq!(stats.attack_range, 10);
    assert_eq!(stats.vision_range, 10);
    assert_eq!(get_next_field_in_path((1, 5), (4, 2)), (2, 4));
    assert_eq!(get_next_field_in_path((3, 3), (3, 0)), (3, 2));
    assert_eq!(get_next_field_in_path((3, 3), (3, 3)), (3, 3));

    let mut g = Game::new(2, (40, 40));
    let unit = g.add_unit(0, (20, 20), Category::Pickerman).unwrap();
    assert!(assert_unit_move_within_reach(&unit, (25, 25)).is_ok());
    assert!(assert_unit_move_within_reach(&unit, (15, 15)).is_ok());
    assert!(matches!(
        assert_unit_move_within_reach(&unit, (26, 25)),
        Err(GameError::MoveOutsideUnitsReach(26, 25))
    ));
    assert_eq!(get_unis_moving_info(&unit), (State::Idle, (20, 20)));
}

#[test]
fn players_know_their_units() {
    let p = Player::new(3);
    assert_eq!(p.id, 3);
    assert_eq!(p.available_units, 10);
    assert!(p.units.is_empty());

    let mut g = Game::new(3, (10, 10));
    g.add_unit(1, (1, 1), Category::Knight).unwrap();
    g.add_unit(2, (2, 1), Category::Knight).unwrap();
    g.add_unit(1, (3, 1), Category::Knight).unwrap();
    assert_eq!(g.get_player(1).unwrap().units, vec![0, 2]);
    assert_eq!(g.get_player(2).unwrap().units, vec![1]);
    assert!(g.get_player(0).unwrap().units.is_empty());
    assert!(g.get_player(3).is_none());
    assert!(g.game_over().is_none());
}
