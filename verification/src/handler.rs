//! Frames and the machine that runs them.

pub mod answers;
pub mod context;
pub mod evm;
pub mod frame_stack;
pub mod laws;
pub mod mainnet_builder;

pub use context::{Context, Env, Journal};
pub use evm::{EvmTr, FrameTr, ItemOrResult};
pub use frame_stack::FrameStack;
pub use mainnet_builder::{
    EthFrame, EthInstructions, EthPrecompiles, Evm, MainBuilder, MainContext, MainnetEvm,
};
