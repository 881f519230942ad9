//! A Monty Hall game engine: door setup, the host's reveal, the final
//! resolution, batch simulation and the bookkeeping of an interactive session.

pub mod game_logic;
pub mod random;
pub mod session;
pub mod view;
