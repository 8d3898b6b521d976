use glib::game::error::GameError;
use glib::game::unit::{Category, MovingWrapper, State, Unit};
use glib::game::Game;

#[test]
fn game_struct_creation() {
    let g = Game::new(4, (10, 10));
    assert_eq!(g.get_num_of_units(), 0);
    assert_eq!(g.get_num_of_players(), 4);
    assert_eq!(g.get_board_size(), (10, 10));
    assert!(matches!(g.get_unit(0), Err(GameError::NonExistingUnit(0))));
}

#[test]
fn add_new_unit_outside_the_board() {
    let mut g = Game::new(2, (10, 50));
    assert!(matches!(
        g.add_unit(1, (11, 20), Category::Knight),
        Err(GameError::PositionOutsideTheBoard(..))
    ));
}

#[test]
fn add_new_unit_for_the_first_player() {
    let mut g = Game::new(2, (10, 10));
    g.add_unit(0, (5, 5), Category::Knight).unwrap();
    assert_eq!(g.get_num_of_units(), 1);
    assert!(g.get_unit(0).is_ok());
    assert!(g.get_unit(1).is_err());
}

#[test]
fn add_new_unit_for_the_last_player() {
    let mut g = Game::new(10, (100, 100));
    g.add_unit(9, (25, 10), Category::Cavalry).unwrap();
    assert_eq!(g.get_num_of_units(), 1);
    assert!(g.get_unit(0).is_ok());
    assert!(g.get_unit(1).is_err());
}

#[test]
fn add_multiple_units() {
    let mut g = Game::new(10, (10, 10));
    g.add_unit(0, (1, 1), Category::Cavalry).unwrap();
    g.add_unit(3, (2, 1), Category::Cavalry).unwrap();
    g.add_unit(2, (3, 1), Category::Cavalry).unwrap();
    assert_eq!(g.get_num_of_units(), 3);
    assert!(g.get_unit(2).is_ok());
    assert!(g.get_unit(3).is_err());
}

#[test]
fn check_unit_data_after_addition() {
    let mut g = Game::new(10, (10, 10));
    g.add_unit(0, (1, 1), Category::Pickerman).unwrap();
    g.add_unit(3, (2, 1), Category::Cavalry).unwrap();
    assert!(matches!(
        g.get_unit(1).unwrap(),
        Unit {
            state: State::Idle,
            category: Category::Cavalry,
            id: 1,
            owner_id: 3,
            position: (2, 1),
            ..
        }
    ));
}

#[test]
fn test_get_unit() {
    let mut g = Game::new(2, (5, 5));
    g.add_unit(0, (1, 1), Category::Cavalry).unwrap();
    assert!(matches!(
        g.get_unit(0),
        Ok(Unit {
            state: State::Idle,
            category: Category::Cavalry,
            id: 0,
            owner_id: 0,
            position: (1, 1),
            ..
        })
    ));
}

#[test]
fn test_get_units() {
    let mut g = Game::new(2, (10, 10));
    g.add_unit(0, (1, 1), Category::Cavalry).unwrap();
    g.add_unit(0, (2, 1), Category::Cavalry).unwrap();
    g.add_unit(0, (3, 1), Category::Cavalry).unwrap();
    g.add_unit(0, (4, 1), Category::Knight).unwrap();
    g.add_unit(0, (5, 1), Category::Pickerman).unwrap();
    let units = g.get_units(vec![0, 3, 4]);
    assert!(matches!(units, Ok(_)));
    let units = units.unwrap();
    assert!(matches!(units[0].category, Category::Cavalry));
    assert!(matches!(units[1].category, Category::Knight));
    assert!(matches!(units[2].category, Category::Pickerman));
    assert!(units.len() == 3);
}

#[test]
fn get_units_with_one_being_noexisting() {
    let mut g = Game::new(2, (10, 10));
    g.add_unit(0, (1, 1), Category::Cavalry).unwrap();
    g.add_unit(0, (2, 1), Category::Cavalry).unwrap();
    g.add_unit(0, (3, 1), Category::Cavalry).unwrap();
    g.add_unit(0, (4, 1), Category::Knight).unwrap();
    g.add_unit(0, (5, 1), Category::Pickerman).unwrap();
    let units = g.get_units(vec![0, 3, 5]);
    assert!(matches!(units, Err(GameError::NonExistingUnit(5))));
}

#[test]
fn get_few_noexisting_units() {
    let mut g = Game::new(2, (10, 10));
    g.add_unit(0, (1, 1), Category::Cavalry).unwrap();
    g.add_unit(0, (2, 1), Category::Cavalry).unwrap();
    g.add_unit(0, (3, 1), Category::Cavalry).unwrap();
    g.add_unit(0, (4, 1), Category::Knight).unwrap();
    g.add_unit(0, (5, 1), Category::Pickerman).unwrap();
    let units = g.get_units(vec![0, 3, 6, 7, 8]);
    assert!(matches!(units, Err(GameError::NonExistingUnit(6..=8))));
}

#[test]
fn get_noexisting_unit() {
    let g = Game::new(2, (5, 5));
    assert!(matches!(g.get_unit(0), Err(GameError::NonExistingUnit(0))))
}

#[test]
fn move_unit_inside_boundaries() {
    let mut g = Game::new(2, (10, 10));
    g.add_unit(0, (2, 2), Category::Cavalry).unwrap();
    assert!(match g.move_unit(0, (4, 4)) {
        Ok(_) => {
            let u = g.get_unit(0).unwrap();
            if let State::Moving(4, 4) = u.state {
                true
            } else {
                false
            }
        }
        Err(_) => false,
    });
}

#[test]
fn move_unit_outside_boundaries() {
    let mut g = Game::new(3, (10, 10));
    g.add_unit(0, (2, 2), Category::Cavalry).unwrap();
    assert!(matches!(g.move_unit(0, (12, 2)), Err(_)));
}

#[test]
fn attack_position_inside_boundaries() {
    let mut g = Game::new(2, (10, 10));
    g.add_unit(0, (2, 2), Category::Cavalry).unwrap();
    assert!(match g.attack_position(0, (4, 4)) {
        Ok(_) => {
            let u = g.get_unit(0).unwrap();
            if let State::Attack(4, 4) = u.state {
                true
            } else {
                false
            }
        }
        Err(_) => false,
    });
}

#[test]
fn attack_position_outside_boundaries() {
    let mut g = Game::new(2, (10, 10));
    g.add_unit(0, (2, 2), Category::Cavalry).unwrap();
    assert!(matches!(g.attack_position(0, (11, 10)), Err(_)))
}

#[test]
fn move_unit_outside_unit_range() {
    let mut g = Game::new(2, (20, 20));
    g.add_unit(0, (0, 0), Category::Pickerman).unwrap();
    assert!(matches!(g.move_unit(0, (19, 19)), Err(_)));
}

#[test]
fn attack_position_outside_unit_range() {
    let mut g = Game::new(2, (20, 20));
    g.add_unit(0, (0, 0), Category::Knight).unwrap();
    assert!(matches!(g.attack_position(0, (19, 19)), Err(_)));
}

#[test]
fn battle_units() {
    let mut g = Game::new(2, (10, 10));
    g.add_unit(0, (0, 0), Category::Knight).unwrap();
    g.add_unit(0, (2, 2), Category::Cavalry).unwrap();
    assert!(matches!(g.battle_units(0, 1), Ok(())));
    let unit = g.get_unit(0).unwrap();
    assert!(matches!(
        unit,
        Unit {
            id: 0,
            category: Category::Knight,
            state: State::Attack(1, 1),
            ..
        }
    ));
    let unit = g.get_unit(1).unwrap();
    assert!(matches!(
        unit,
        Unit {
            id: 1,
            category: Category::Cavalry,
            state: State::Attack(1, 1),
            ..
        }
    ));
}

#[test]
fn battle_non_existing_unit_second() {
    let mut g = Game::new(2, (10, 10));
    g.add_unit(0, (0, 0), Category::Knight).unwrap();
    assert!(matches!(
        g.battle_units(0, 1),
        Err(GameError::NonExistingUnit(1))
    ));
}

#[test]
fn battle_non_existing_unit_first() {
    let mut g = Game::new(2, (10, 10));
    g.add_unit(0, (0, 0), Category::Knight).unwrap();
    assert!(matches!(
        g.battle_units(1, 0),
        Err(GameError::NonExistingUnit(1))
    ));
}

#[test]
fn battle_units_outside_their_reach() {
    let mut g = Game::new(2, (100, 100));
    g.add_unit(0, (0, 0), Category::Knight).unwrap();
    g.add_unit(1, (99, 99), Category::Knight).unwrap();
    assert!(matches!(
        g.battle_units(0, 1),
        Err(GameError::MoveOutsideUnitsReach(49, 49))
    ));
    assert!(matches!(
        g.get_unit(0).unwrap(),
        Unit {
            id: 0,
            category: Category::Knight,
            state: State::Idle,
            position: (0, 0),
            ..
        }
    ));
    assert!(matches!(
        g.get_unit(1).unwrap(),
        Unit {
            id: 1,
            category: Category::Knight,
            state: State::Idle,
            position: (99, 99),
            ..
        }
    ));
}

#[test]
fn empty_heap_when_no_units_should_move() {
    let mut g = Game::new(2, (100, 100));
    g.add_unit(0, (1, 1), Category::Knight).unwrap();
    g.add_unit(0, (1, 2), Category::Knight).unwrap();
    g.add_unit(0, (1, 3), Category::Knight).unwrap();
    assert!(g.units_to_be_moved().len() == 0);
}

#[test]
fn moving_units_are_considered_as_the_one_to_move() {
    let mut g = Game::new(2, (100, 100));
    g.add_unit(0, (1, 1), Category::Knight).unwrap();
    g.add_unit(0, (1, 2), Category::Knight).unwrap();
    g.add_unit(0, (1, 3), Category::Knight).unwrap();
    g.move_unit(0, (4, 4)).unwrap();
    g.move_unit(2, (5, 5)).unwrap();
    let mut res = g.units_to_be_moved();
    assert!(res.len() == 2);
    let u = res.pop().unwrap();
    assert!(u.unit_id == 0 || u.unit_id == 2);
    let u = res.pop().unwrap();
    assert!(u.unit_id == 0 || u.unit_id == 2);
}

#[test]
fn attacking_units_are_considered_as_the_one_to_move() {
    let mut g = Game::new(2, (100, 100));
    g.add_unit(0, (1, 1), Category::Knight).unwrap();
    g.add_unit(0, (1, 2), Category::Knight).unwrap();
    g.add_unit(0, (1, 3), Category::Knight).unwrap();
    g.attack_position(1, (5, 5)).unwrap();
    g.attack_position(2, (3, 3)).unwrap();
    let mut res = g.units_to_be_moved();
    assert!(res.len() == 2);
    let u = res.pop().unwrap();
    assert!(u.unit_id == 1 || u.unit_id == 2);
    let u = res.pop().unwrap();
    assert!(u.unit_id == 1 || u.unit_id == 2);
}

#[test]
fn field_empty_returns_true_for_empty_field() {
    let mut g = Game::new(2, (100, 100));
    g.add_unit(0, (1, 1), Category::Knight).unwrap();
    g.add_unit(0, (1, 2), Category::Knight).unwrap();
    g.add_unit(0, (1, 3), Category::Knight).unwrap();
    assert!(g.field_empty((2, 2)));
}

#[test]
fn field_empty_returns_false_for_occupied_space() {
    let mut g = Game::new(2, (100, 100));
    g.add_unit(0, (1, 1), Category::Knight).unwrap();
    g.add_unit(0, (1, 2), Category::Knight).unwrap();
    g.add_unit(0, (1, 3), Category::Knight).unwrap();
    assert!(!g.field_empty((1, 2)));
}

#[test]
fn resolve_unit_returns_proper_new_moving_wrapper() {
    let mut g = Game::new(2, (100, 100));
    g.add_unit(0, (1, 1), Category::Knight).unwrap();
    g.move_unit(0, (3, 3)).unwrap();
    let mut wrap = MovingWrapper::new(0);
    wrap = g.resolve_unit(&wrap).unwrap();
    assert!(wrap.moves_made == 1);
    assert!(wrap.unit_id == 0);
}

#[test]
fn resolve_unit_moves_units_the_proper_way_in_straight_line_on_y() {
    let mut g = Game::new(2, (100, 100));
    g.add_unit(0, (1, 1), Category::Knight).unwrap();
    g.move_unit(0, (1, 3)).unwrap();
    let mut wrap = MovingWrapper::new(0);
    wrap = g.resolve_unit(&wrap).unwrap();
    let u = g.get_unit(wrap.unit_id).unwrap();
    assert!(u.position == (1, 2));
}

#[test]
fn resolve_unit_moves_units_the_proper_way_in_straight_line_on_x() {
    let mut g = Game::new(2, (100, 100));
    g.add_unit(0, (1, 1), Category::Knight).unwrap();
    g.move_unit(0, (3, 1)).unwrap();
    let mut wrap = MovingWrapper::new(0);
    wrap = g.resolve_unit(&wrap).unwrap();
    let u = g.get_unit(wrap.unit_id).unwrap();
    assert!(u.position == (2, 1));
}

#[test]
fn resolve_unit_moves_units_the_proper_way_diagonaly() {
    let mut g = Game::new(2, (100, 100));
    g.add_unit(0, (1, 1), Category::Knight).unwrap();
    g.move_unit(0, (3, 3)).unwrap();
    let mut wrap = MovingWrapper::new(0);
    wrap = g.resolve_unit(&wrap).unwrap();
    let u = g.get_unit(wrap.unit_id).unwrap();
    assert!(u.position == (2, 2));
}

#[test]
fn resolve_stops_unit_after_reaching_destination() {
    let mut g = Game::new(2, (100, 100));
    g.add_unit(0, (1, 1), Category::Knight).unwrap();
    g.move_unit(0, (2, 2)).unwrap();
    let wrap = MovingWrapper::new(0);
    g.resolve_unit(&wrap);
    let u = g.get_unit(0).unwrap();
    assert!(matches!(u.state, State::Idle));
}

#[test]
fn resolve_returns_none_after_reaching_destination() {
    let mut g = Game::new(2, (100, 100));
    g.add_unit(0, (1, 1), Category::Knight).unwrap();
    g.move_unit(0, (2, 2)).unwrap();
    let wrap = MovingWrapper::new(0);
    assert!(matches!(g.resolve_unit(&wrap), None));
}
