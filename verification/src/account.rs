//! Accounts, contract code and account updates.

use crate::table::{Duplicate, Table};
use crate::word::{Address, H256, U256};
use vstd::prelude::*;

verus! {

/// The hash of the empty byte string: the code hash of an account without code.
pub open spec fn empty_keccak() -> H256 {
    H256 { hi: 0xc5d2460186f7233c927e7db2dcc703c0, lo: 0xe500b653ca82273b7bfad8045d85a470 }
}

pub fn empty_keccak_hash() -> (h: H256)
    ensures
        h == empty_keccak(),
{
    H256 { hi: 0xc5d2460186f7233c927e7db2dcc703c0, lo: 0xe500b653ca82273b7bfad8045d85a470 }
}

/// The root hash of the empty trie: the storage root of an account without storage.
pub open spec fn empty_trie() -> H256 {
    H256 { hi: 0x56e81f171bcc55a6ff8345e692c0f86e, lo: 0x5b48e01b996cadc001622fb5e363b421 }
}

pub fn empty_trie_hash() -> (h: H256)
    ensures
        h == empty_trie(),
{
    H256 { hi: 0x56e81f171bcc55a6ff8345e692c0f86e, lo: 0x5b48e01b996cadc001622fb5e363b421 }
}

/// Balance, nonce and code hash of an account.
#[derive(Copy, Clone, PartialEq, Eq, Structural, Debug)]
pub struct AccountInfo {
    pub code_hash: H256,
    pub balance: U256,
    pub nonce: u64,
}

impl AccountInfo {
    /// No balance, no nonce, no code.
    pub open spec fn blank() -> AccountInfo {
        AccountInfo { code_hash: empty_keccak(), balance: U256 { hi: 0, lo: 0 }, nonce: 0 }
    }

    pub fn empty() -> (info: AccountInfo)
        ensures
            info == AccountInfo::blank(),
    {
        AccountInfo { code_hash: empty_keccak_hash(), balance: U256::zero(), nonce: 0 }
    }
}

/// An account as the state trie holds it.
#[derive(Copy, Clone, PartialEq, Eq, Structural, Debug)]
pub struct AccountState {
    pub nonce: u64,
    pub balance: U256,
    pub storage_root: H256,
    pub code_hash: H256,
}

impl AccountState {
    /// The state of an account that does not exist.
    pub open spec fn blank() -> AccountState {
        AccountState {
            nonce: 0,
            balance: U256 { hi: 0, lo: 0 },
            storage_root: empty_trie(),
            code_hash: empty_keccak(),
        }
    }

    pub fn empty() -> (state: AccountState)
        ensures
            state == AccountState::blank(),
    {
        AccountState {
            nonce: 0,
            balance: U256::zero(),
            storage_root: empty_trie_hash(),
            code_hash: empty_keccak_hash(),
        }
    }
}

/// What has happened to a cached account since it was loaded.
#[derive(Copy, Clone, PartialEq, Eq, Structural, Debug)]
pub enum AccountStatus {
    Unmodified,
    Modified,
    Destroyed,
    DestroyedModified,
}

impl AccountStatus {
    /// The status after a change.
    pub open spec fn modified(self) -> AccountStatus {
        match self {
            AccountStatus::Unmodified => AccountStatus::Modified,
            AccountStatus::Modified => AccountStatus::Modified,
            AccountStatus::Destroyed => AccountStatus::DestroyedModified,
            AccountStatus::DestroyedModified => AccountStatus::DestroyedModified,
        }
    }

    /// Whether the account was destroyed at some point.
    pub open spec fn destroyed(self) -> bool {
        self == AccountStatus::Destroyed || self == AccountStatus::DestroyedModified
    }

    pub fn is_destroyed(&self) -> (b: bool)
        ensures
            b == self.destroyed(),
    {
        *self == AccountStatus::Destroyed || *self == AccountStatus::DestroyedModified
    }
}

/// An account in the cache of the virtual machine.
pub struct LevmAccount {
    pub info: AccountInfo,
    /// The storage slots that have been read or written.
    pub storage: Table<H256, U256>,
    /// Whether the account had storage when it was loaded.
    pub has_storage: bool,
    pub status: AccountStatus,
    pub exists: bool,
}

/// What a cached account holds.
#[verifier::ext_equal]
pub struct AccountView {
    pub info: AccountInfo,
    pub storage: Map<H256, U256>,
    pub has_storage: bool,
    pub status: AccountStatus,
    pub exists: bool,
}

impl View for LevmAccount {
    type V = AccountView;

    open spec fn view(&self) -> AccountView {
        AccountView {
            info: self.info,
            storage: self.storage@,
            has_storage: self.has_storage,
            status: self.status,
            exists: self.exists,
        }
    }
}

impl AccountView {
    /// No nonce, no balance, no code.
    pub open spec fn empty(self) -> bool {
        self.info == AccountInfo::blank()
    }

    pub open spec fn without_storage(self) -> AccountView {
        AccountView { storage: Map::empty(), ..self }
    }

    pub open spec fn mark_modified(self) -> AccountView {
        AccountView { status: self.status.modified(), exists: true, ..self }
    }

    /// A freshly loaded account.
    pub open spec fn loaded(state: AccountState) -> AccountView {
        AccountView {
            info: AccountInfo {
                code_hash: state.code_hash,
                balance: state.balance,
                nonce: state.nonce,
            },
            storage: Map::empty(),
            has_storage: state.storage_root != empty_trie(),
            status: AccountStatus::Unmodified,
            exists: state != AccountState::blank(),
        }
    }
}

impl LevmAccount {
    /// The account that a stored state stands for, none of its storage read yet.
    pub fn from_state(state: AccountState) -> (account: LevmAccount)
        ensures
            account@ == AccountView::loaded(state),
    {
        LevmAccount {
            info: AccountInfo {
                code_hash: state.code_hash,
                balance: state.balance,
                nonce: state.nonce,
            },
            storage: Table::new(),
            has_storage: state.storage_root != empty_trie_hash(),
            status: AccountStatus::Unmodified,
            exists: state != AccountState::empty(),
        }
    }

    pub fn clone_without_storage(&self) -> (account: LevmAccount)
        ensures
            account@ == self@.without_storage(),
    {
        LevmAccount {
            info: self.info,
            storage: Table::new(),
            has_storage: self.has_storage,
            status: self.status,
            exists: self.exists,
        }
    }

    pub fn mark_modified(&mut self)
        ensures
            final(self)@ == old(self)@.mark_modified(),
    {
        if self.status == AccountStatus::Unmodified {
            self.status = AccountStatus::Modified;
        } else if self.status == AccountStatus::Destroyed {
            self.status = AccountStatus::DestroyedModified;
        }
        self.exists = true;
    }

    pub fn is_empty(&self) -> (b: bool)
        ensures
            b == self@.empty(),
    {
        self.info.balance.is_zero() && self.info.nonce == 0 && self.info.code_hash
            == empty_keccak_hash()
    }

    pub fn is_unmodified(&self) -> (b: bool)
        ensures
            b == (self.status == AccountStatus::Unmodified),
    {
        self.status == AccountStatus::Unmodified
    }
}

impl Duplicate for LevmAccount {
    fn duplicate(&self) -> (account: LevmAccount) {
        LevmAccount {
            info: self.info,
            storage: self.storage.duplicate(),
            has_storage: self.has_storage,
            status: self.status,
            exists: self.exists,
        }
    }
}

/// What a table of accounts holds.
pub open spec fn accounts_view(accounts: Map<Address, LevmAccount>) -> Map<Address, AccountView> {
    Map::new(|a: Address| accounts.contains_key(a), |a: Address| accounts[a]@)
}

/// Accounts by address.
pub type CacheDB = Table<Address, LevmAccount>;

/// Contract code with its hash.
#[derive(Debug)]
pub struct Code {
    pub hash: H256,
    pub bytecode: Vec<u8>,
}

/// What a [`Code`] holds.
#[verifier::ext_equal]
pub struct CodeView {
    pub hash: H256,
    pub bytecode: Seq<u8>,
}

impl View for Code {
    type V = CodeView;

    open spec fn view(&self) -> CodeView {
        CodeView { hash: self.hash, bytecode: self.bytecode@ }
    }
}

/// A second byte vector with the same contents.
pub fn copy_bytes(bytes: &[u8]) -> (copy: Vec<u8>)
    ensures
        copy@ == bytes@,
{
    let mut copy: Vec<u8> = Vec::new();
    let mut i: usize = 0;
    while i < bytes.len()
        invariant
            i <= bytes@.len(),
            copy@ == bytes@.take(i as int),
        decreases bytes@.len() - i,
    {
        copy.push(bytes[i]);
        i += 1;
        assert(bytes@.take(i as int) =~= bytes@.take(i - 1).push(bytes@[i - 1]));
    }
    assert(bytes@.take(bytes@.len() as int) =~= bytes@);
    copy
}

impl Code {
    pub fn len(&self) -> (n: usize)
        ensures
            n == self@.bytecode.len(),
    {
        self.bytecode.len()
    }
}

impl Duplicate for Code {
    fn duplicate(&self) -> (code: Code) {
        Code { hash: self.hash, bytecode: copy_bytes(self.bytecode.as_slice()) }
    }
}

/// What a table of codes holds.
pub open spec fn codes_view(codes: Map<H256, Code>) -> Map<H256, CodeView> {
    Map::new(|h: H256| codes.contains_key(h), |h: H256| codes[h]@)
}

#[derive(Copy, Clone, PartialEq, Eq, Structural, Debug)]
pub struct CodeMetadata {
    pub length: u64,
}

/// How one account differs from its baseline.
pub struct AccountUpdate {
    pub address: Address,
    /// The account is gone.
    pub removed: bool,
    /// The new balance, nonce and code hash, where any of them changed.
    pub info: Option<AccountInfo>,
    /// The new code, where it changed.
    pub code: Option<Code>,
    /// The slots whose value changed, with the new value.
    pub added_storage: Table<H256, U256>,
    /// All earlier storage is gone.
    pub removed_storage: bool,
}

/// What an [`AccountUpdate`] holds.
#[verifier::ext_equal]
pub struct UpdateView {
    pub address: Address,
    pub removed: bool,
    pub info: Option<AccountInfo>,
    pub code: Option<CodeView>,
    pub added_storage: Map<H256, U256>,
    pub removed_storage: bool,
}

impl View for AccountUpdate {
    type V = UpdateView;

    open spec fn view(&self) -> UpdateView {
        UpdateView {
            address: self.address,
            removed: self.removed,
            info: self.info,
            code: match self.code {
                Some(code) => Some(code@),
                None => None,
            },
            added_storage: self.added_storage@,
            removed_storage: self.removed_storage,
        }
    }
}

/// An account with its code and all of its storage.
pub struct Account {
    pub info: AccountInfo,
    pub code: Code,
    pub storage: Table<H256, U256>,
}

/// What an [`Account`] holds.
#[verifier::ext_equal]
pub struct FullAccountView {
    pub info: AccountInfo,
    pub code: CodeView,
    pub storage: Map<H256, U256>,
}

impl View for Account {
    type V = FullAccountView;

    open spec fn view(&self) -> FullAccountView {
        FullAccountView { info: self.info, code: self.code@, storage: self.storage@ }
    }
}

/// The cache entry of an account of which everything is known.
pub open spec fn cache_entry(account: FullAccountView) -> AccountView {
    AccountView {
        info: account.info,
        storage: account.storage,
        has_storage: !account.storage.dom().is_empty(),
        status: AccountStatus::Unmodified,
        exists: true,
    }
}

/// Splits an account into its cache entry and its code.
pub fn account_to_levm_account(account: &Account) -> (r: (LevmAccount, Code))
    ensures
        r.0@ == cache_entry(account@),
        r.1@ == account@.code,
{
    (
        LevmAccount {
            info: account.info,
            storage: account.storage.duplicate(),
            has_storage: !account.storage.is_empty(),
            status: AccountStatus::Unmodified,
            exists: true,
        },
        account.code.duplicate(),
    )
}

} // verus!
