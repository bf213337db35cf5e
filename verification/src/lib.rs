pub mod client;
pub mod collide;
pub mod game;
pub mod math;
pub mod packages;
pub mod packeter;
pub mod rng;
pub mod server;
pub mod tick;
pub mod util;
