//! What the journal asks of the database behind it.

use crate::bytecode::code::CodeState;
use crate::bytecode::Bytecode;
use crate::journal::account::{AccountInfo, InfoState};
use crate::primitives::u256;
use crate::primitives::{Address, B256, U256};
use vstd::prelude::*;

verus! {

/// A question to the database.
pub enum DbCall {
    /// An account.
    Basic(Address),
    /// The code with a hash.
    CodeByHash(B256),
    /// The value of a storage slot.
    Storage(Address, U256),
    /// The hash of a block.
    BlockHash(u64),
}

/// What the database answers.
pub enum DbReply<E> {
    /// An account, if there is one.
    Basic(Result<Option<InfoState>, E>),
    /// Code.
    CodeByHash(Result<CodeState, E>),
    /// The value of a storage slot.
    Storage(Result<U256, E>),
    /// The hash of a block.
    BlockHash(Result<B256, E>),
}

/// An account, by what it says.
pub open spec fn basic_view<E>(r: Result<Option<AccountInfo>, E>) -> Result<Option<InfoState>, E> {
    match r {
        Ok(Some(info)) => Ok(Some(info@)),
        Ok(None) => Ok(None),
        Err(e) => Err(e),
    }
}

/// Code, by what it says.
pub open spec fn code_by_hash_view<E>(r: Result<Bytecode, E>) -> Result<CodeState, E> {
    match r {
        Ok(code) => Ok(code@),
        Err(e) => Err(e),
    }
}

/// The database that the journal loads accounts, code and storage from.
pub trait Database: Sized {
    /// Why a question failed.
    type Error;

    /// The database may go from `pre` to `post` as it answers `call` with `reply`.
    spec fn replies(pre: &Self, call: DbCall, reply: DbReply<Self::Error>, post: &Self) -> bool;

    /// The account at an address, if there is one.
    fn basic(&mut self, address: Address) -> (r: Result<Option<AccountInfo>, Self::Error>)
        ensures
            Self::replies(
                old(self),
                DbCall::Basic(address),
                DbReply::Basic(basic_view(r)),
                final(self),
            ),
    ;

    /// The code with a hash.
    fn code_by_hash(&mut self, code_hash: B256) -> (r: Result<Bytecode, Self::Error>)
        ensures
            Self::replies(
                old(self),
                DbCall::CodeByHash(code_hash),
                DbReply::CodeByHash(code_by_hash_view(r)),
                final(self),
            ),
    ;

    /// The value of a storage slot.
    fn storage(&mut self, address: Address, index: U256) -> (r: Result<U256, Self::Error>)
        ensures
            Self::replies(
                old(self),
                DbCall::Storage(address, index),
                DbReply::Storage(r),
                final(self),
            ),
    ;

    /// The hash of a block.
    fn block_hash(&mut self, number: u64) -> (r: Result<B256, Self::Error>)
        ensures
            Self::replies(
                old(self),
                DbCall::BlockHash(number),
                DbReply::BlockHash(r),
                final(self),
            ),
    ;
}

/// A database that knows nothing.
#[derive(Clone, Copy, Debug, PartialEq, Eq, Structural)]
pub struct EmptyDB;

impl EmptyDB {
    /// A database that knows nothing.
    pub fn new() -> (r: EmptyDB)
        ensures
            r == EmptyDB,
    {
        EmptyDB
    }
}

impl Database for EmptyDB {
    type Error = ();

    open spec fn replies(pre: &EmptyDB, call: DbCall, reply: DbReply<()>, post: &EmptyDB) -> bool {
        match call {
            DbCall::Basic(_) => reply == DbReply::<()>::Basic(Ok(None)),
            DbCall::CodeByHash(_) => reply == DbReply::<()>::CodeByHash(
                Ok(CodeState::from_raw(Seq::empty())),
            ),
            DbCall::Storage(_, _) => reply == DbReply::<()>::Storage(Ok(u256::word(0))),
            DbCall::BlockHash(_) => reply is BlockHash && reply->BlockHash_0 is Ok,
        }
    }

    fn basic(&mut self, _address: Address) -> (r: Result<Option<AccountInfo>, ()>) {
        Ok(None)
    }

    fn code_by_hash(&mut self, _code_hash: B256) -> (r: Result<Bytecode, ()>) {
        Ok(Bytecode::default())
    }

    fn storage(&mut self, _address: Address, _index: U256) -> (r: Result<U256, ()>) {
        Ok(U256::zero())
    }

    fn block_hash(&mut self, _number: u64) -> (r: Result<B256, ()>) {
        Ok(B256::zero())
    }
}

} // verus!
