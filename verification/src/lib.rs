pub mod progress;
pub mod prisoners_riddle;
pub mod rng;
