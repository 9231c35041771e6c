pub mod hashing;
pub mod miner;
pub mod target;
pub mod validate;
