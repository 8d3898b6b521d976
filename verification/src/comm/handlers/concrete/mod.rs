//! The handlers, one for each kind of request.

pub mod add_unit;
pub mod get_units;
pub mod hello;
pub mod register_player;
