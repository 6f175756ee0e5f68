//! Blocks, withdrawals and receipts.

use crate::account::copy_bytes;
use crate::table::Duplicate;
use crate::transaction::{Transaction, TxType};
use crate::word::{Address, H256, U256};
use vstd::prelude::*;

verus! {

/// A balance that the consensus layer credits.
#[derive(Copy, Clone, PartialEq, Eq, Structural, Debug)]
pub struct Withdrawal {
    pub index: u64,
    pub validator_index: u64,
    pub address: Address,
    pub amount: u64,
}

/// The header of a block.
#[derive(Clone, Debug)]
pub struct BlockHeader {
    pub parent_hash: H256,
    pub ommers_hash: H256,
    pub coinbase: Address,
    pub state_root: H256,
    pub transactions_root: H256,
    pub receipts_root: H256,
    /// The bloom filter over the logs, 256 bytes.
    pub logs_bloom: Vec<u8>,
    pub difficulty: U256,
    pub number: u64,
    pub gas_limit: u64,
    pub gas_used: u64,
    pub timestamp: u64,
    pub extra_data: Vec<u8>,
    pub prev_randao: H256,
    pub nonce: u64,
    pub base_fee_per_gas: Option<u64>,
    pub withdrawals_root: Option<H256>,
    pub blob_gas_used: Option<u64>,
    pub excess_blob_gas: Option<u64>,
    pub parent_beacon_block_root: Option<H256>,
    pub requests_hash: Option<H256>,
    pub block_access_list_hash: Option<H256>,
    pub slot_number: Option<u64>,
}

/// What a header holds.
#[verifier::ext_equal]
pub struct HeaderView {
    pub parent_hash: H256,
    pub ommers_hash: H256,
    pub coinbase: Address,
    pub state_root: H256,
    pub transactions_root: H256,
    pub receipts_root: H256,
    pub logs_bloom: Seq<u8>,
    pub difficulty: U256,
    pub number: u64,
    pub gas_limit: u64,
    pub gas_used: u64,
    pub timestamp: u64,
    pub extra_data: Seq<u8>,
    pub prev_randao: H256,
    pub nonce: u64,
    pub base_fee_per_gas: Option<u64>,
    pub withdrawals_root: Option<H256>,
    pub blob_gas_used: Option<u64>,
    pub excess_blob_gas: Option<u64>,
    pub parent_beacon_block_root: Option<H256>,
    pub requests_hash: Option<H256>,
    pub block_access_list_hash: Option<H256>,
    pub slot_number: Option<u64>,
}

impl View for BlockHeader {
    type V = HeaderView;

    open spec fn view(&self) -> HeaderView {
        HeaderView {
            parent_hash: self.parent_hash,
            ommers_hash: self.ommers_hash,
            coinbase: self.coinbase,
            state_root: self.state_root,
            transactions_root: self.transactions_root,
            receipts_root: self.receipts_root,
            logs_bloom: self.logs_bloom@,
            difficulty: self.difficulty,
            number: self.number,
            gas_limit: self.gas_limit,
            gas_used: self.gas_used,
            timestamp: self.timestamp,
            extra_data: self.extra_data@,
            prev_randao: self.prev_randao,
            nonce: self.nonce,
            base_fee_per_gas: self.base_fee_per_gas,
            withdrawals_root: self.withdrawals_root,
            blob_gas_used: self.blob_gas_used,
            excess_blob_gas: self.excess_blob_gas,
            parent_beacon_block_root: self.parent_beacon_block_root,
            requests_hash: self.requests_hash,
            block_access_list_hash: self.block_access_list_hash,
            slot_number: self.slot_number,
        }
    }
}

/// What a block holds besides its header.
#[derive(Clone, Debug)]
pub struct BlockBody {
    pub transactions: Vec<Transaction>,
    pub withdrawals: Option<Vec<Withdrawal>>,
}

/// What a body holds.
#[verifier::ext_equal]
pub struct BodyView {
    pub transactions: Seq<Transaction>,
    pub withdrawals: Option<Seq<Withdrawal>>,
}

/// What an optional vector holds.
pub open spec fn optional_view<T>(list: Option<Vec<T>>) -> Option<Seq<T>> {
    match list {
        Some(v) => Some(v@),
        None => None,
    }
}

impl View for BlockBody {
    type V = BodyView;

    open spec fn view(&self) -> BodyView {
        BodyView {
            transactions: self.transactions@,
            withdrawals: optional_view(self.withdrawals),
        }
    }
}

#[derive(Clone, Debug)]
pub struct Block {
    pub header: BlockHeader,
    pub body: BlockBody,
}

/// What a block holds.
#[verifier::ext_equal]
pub struct BlockView {
    pub header: HeaderView,
    pub body: BodyView,
}

impl View for Block {
    type V = BlockView;

    open spec fn view(&self) -> BlockView {
        BlockView { header: self.header@, body: self.body@ }
    }
}

/// A second vector with the same withdrawals.
pub fn copy_withdrawals(list: &Option<Vec<Withdrawal>>) -> (copy: Option<Vec<Withdrawal>>)
    ensures
        optional_view(copy) == optional_view(*list),
{
    match list {
        Some(v) => {
            let mut out: Vec<Withdrawal> = Vec::new();
            let mut i: usize = 0;
            while i < v.len()
                invariant
                    i <= v@.len(),
                    out@ == v@.take(i as int),
                decreases v@.len() - i,
            {
                out.push(v[i]);
                i += 1;
                assert(v@.take(i as int) =~= v@.take(i - 1).push(v@[i - 1]));
            }
            assert(v@.take(i as int) =~= v@);
            Some(out)
        },
        None => None,
    }
}

/// A record that a program left.
#[derive(Clone, Debug)]
pub struct Log {
    pub address: Address,
    pub topics: Vec<H256>,
    pub data: Vec<u8>,
}

/// What a log holds.
#[verifier::ext_equal]
pub struct LogView {
    pub address: Address,
    pub topics: Seq<H256>,
    pub data: Seq<u8>,
}

impl View for Log {
    type V = LogView;

    open spec fn view(&self) -> LogView {
        LogView { address: self.address, topics: self.topics@, data: self.data@ }
    }
}

impl Duplicate for Log {
    fn duplicate(&self) -> (log: Log) {
        let mut topics: Vec<H256> = Vec::new();
        let mut i: usize = 0;
        while i < self.topics.len()
            invariant
                i <= self.topics@.len(),
                topics@ == self.topics@.take(i as int),
            decreases self.topics@.len() - i,
        {
            topics.push(self.topics[i]);
            i += 1;
            assert(self.topics@.take(i as int) =~= self.topics@.take(i - 1).push(
                self.topics@[i - 1],
            ));
        }
        assert(self.topics@.take(i as int) =~= self.topics@);
        Log { address: self.address, topics, data: copy_bytes(self.data.as_slice()) }
    }
}

/// What became of a transaction.
#[derive(Clone, Debug)]
pub struct Receipt {
    pub tx_type: TxType,
    pub succeeded: bool,
    pub cumulative_gas_used: u64,
    pub logs: Vec<Log>,
}

/// What logs hold.
pub open spec fn logs_view(logs: Seq<Log>) -> Seq<LogView> {
    Seq::new(logs.len(), |i: int| logs[i]@)
}

/// The logs of all receipts, in their order.
pub open spec fn all_logs(receipts: Seq<Receipt>) -> Seq<LogView>
    decreases receipts.len(),
{
    if receipts.len() == 0 {
        Seq::empty()
    } else {
        all_logs(receipts.drop_last()) + logs_view(receipts.last().logs@)
    }
}

/// The logs of all receipts, in their order.
pub fn collect_logs(receipts: &Vec<Receipt>) -> (logs: Vec<Log>)
    ensures
        logs_view(logs@) == all_logs(receipts@),
{
    let mut logs: Vec<Log> = Vec::new();
    let mut i: usize = 0;
    proof {
        assert(logs_view(logs@) =~= all_logs(receipts@.take(0)));
    }
    while i < receipts.len()
        invariant
            i <= receipts@.len(),
            logs_view(logs@) == all_logs(receipts@.take(i as int)),
        decreases receipts@.len() - i,
    {
        let own = &receipts[i].logs;
        let ghost before = logs_view(logs@);
        let mut j: usize = 0;
        while j < own.len()
            invariant
                j <= own@.len(),
                logs_view(logs@) =~= before + logs_view(own@).take(j as int),
            decreases own@.len() - j,
        {
            let ghost held = logs_view(logs@);
            let log = own[j].duplicate();
            logs.push(log);
            assert(logs_view(logs@) =~= held.push(log@));
            assert(logs_view(own@).take(j + 1) =~= logs_view(own@).take(j as int).push(log@));
            j += 1;
        }
        i += 1;
        proof {
            assert(logs_view(own@).take(j as int) =~= logs_view(own@));
            let done = receipts@.take(i as int);
            assert(done.drop_last() =~= receipts@.take(i - 1));
            assert(done.last() == receipts@[i - 1]);
        }
    }
    assert(receipts@.take(i as int) =~= receipts@);
    logs
}

} // verus!
