//! The state of accounts during a transaction, with a journal of its changes.

pub mod account;
pub mod database;
pub mod entry;
pub mod effects;
pub mod inner;
pub mod keyed_map;
pub mod laws;
pub mod loads;
pub mod model;
pub mod warm_addresses;

pub use account::{
    Account, AccountInfo, AccountStatus, EvmState, EvmStorage, EvmStorageSlot, TransientStorage,
};
pub use database::{Database, EmptyDB};
pub use entry::{JournalEntry, SelfdestructionRevertStatus};
pub use keyed_map::KeyedMap;
pub use warm_addresses::WarmAddresses;
pub use inner::{AccountCache, JournalInner, JournaledAccount};
pub use model::{AccountLoad, JournalCheckpoint, JournalLoadError, TransferError};
