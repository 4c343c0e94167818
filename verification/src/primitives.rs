//! Words, addresses and hard forks.

pub mod u256;
pub mod be;
pub mod bits;
pub mod i256;
pub mod address;
pub mod hardfork;
pub mod keccak;
pub mod laws;

pub use address::{Address, B256};
pub use hardfork::SpecId;
pub use u256::U256;
