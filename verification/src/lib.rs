//! Core of a two-paddle ball-bounce game that runs on bare firmware:
//! deterministic fixed-point physics, collision and scoring rules, a
//! double-buffered pixel surface, and the match state machine driving it.

pub mod buffer;
pub mod game;
pub mod misc;
pub mod physics;
pub mod rand;
