//! Core rules of a falling-block puzzle game, with verified contracts:
//! piece geometry and kinematics, the board grid with collision and
//! line-clearing, the scoring curve, and the game state machine.
//! A small verified core of the companion arcade snake game is included
//! as well.

pub mod board;
pub mod game;
pub mod pieces;
pub mod scoring;
pub mod snake;
