//! The state that the virtual machine reads from.

use crate::account::{AccountState, Code};
use crate::error::DatabaseError;
use crate::word::{Address, H256, U256};
use vstd::prelude::*;

verus! {

/// Where accounts, storage, code and block hashes come from.
///
/// Nothing is required of the answers: what is proved of the virtual machine holds
/// whatever an implementation returns.
pub trait Database {
    /// The state of an account, [`AccountState::empty`] where it does not exist.
    fn get_account_state(&self, address: Address) -> Result<AccountState, DatabaseError>;

    /// The value of a storage slot.
    fn get_storage_value(&self, address: Address, key: H256) -> Result<U256, DatabaseError>;

    /// The code with the given hash.
    fn get_account_code(&self, code_hash: H256) -> Result<Code, DatabaseError>;

    /// The hash of the block with the given number.
    fn get_block_hash(&self, block_number: u64) -> Result<H256, DatabaseError>;
}

} // verus!
