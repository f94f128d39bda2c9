//! Move selection for an automated chess player: a static evaluator and a
//! depth-bounded lookahead built on it. The rules of the game itself come
//! from the `chess` crate, which this library calls through `oracle`.

pub mod console;
pub mod oracle;
pub mod picture;
pub mod player;
pub mod position;
pub mod score;
pub mod select;
