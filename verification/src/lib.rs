//! Rule-driven tile simulation: a square board of coloured tiles that evolves
//! generation by generation under player-edited neighbour rules, together with
//! the turn state machine that coordinates stepping, auto-run, reset and
//! victory.

pub mod grid;
pub mod iterations;
pub mod level;
pub mod picker;
pub mod pool;
pub mod rule;
pub mod rule_map;
pub mod rules;
pub mod session;
pub mod side;
pub mod tile;
