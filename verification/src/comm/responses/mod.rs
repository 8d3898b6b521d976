//! The responses that the request dispatcher gives.

pub mod welcome;
