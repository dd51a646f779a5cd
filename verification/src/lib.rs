mod rng;
pub mod arith;
pub mod prime;
pub mod generator;
pub mod chaum_pedersen;
pub mod token;
pub mod assoc;
pub mod auth;
