//! A side-scrolling runner: geometry, the runner's locomotion state machine,
//! obstacles, the segment catalog and the game session state machine.
pub mod engine;
pub mod character;
pub mod red_hat_boy;
pub mod obstacle;
pub mod segment;
pub mod game;
