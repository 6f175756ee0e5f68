//! Transactions, as far as the chain decides over them: their kind, their fees, their
//! limits and their sizes. What they do is the virtual machine's business.

use crate::word::{lemma_word_bound, two_256, Address, H256, U256};
use vstd::prelude::*;

verus! {

/// The gas that one blob takes.
pub const GAS_PER_BLOB: u64 = 131072;

#[derive(Copy, Clone, PartialEq, Eq, Structural, Debug)]
pub enum TxType {
    Legacy,
    EIP2930,
    EIP1559,
    EIP4844,
    EIP7702,
    FeeToken,
    Privileged,
    Frame,
}

impl TxType {
    /// Types that only a rollup knows.
    pub open spec fn l2_only(self) -> bool {
        self == TxType::FeeToken || self == TxType::Privileged
    }

    pub fn is_l2_only(&self) -> (b: bool)
        ensures
            b == self.l2_only(),
    {
        *self == TxType::FeeToken || *self == TxType::Privileged
    }

    /// The byte that a transaction of this type starts with on the wire.
    pub open spec fn wire(self) -> u8 {
        match self {
            TxType::Legacy => 0x00,
            TxType::EIP2930 => 0x01,
            TxType::EIP1559 => 0x02,
            TxType::EIP4844 => 0x03,
            TxType::EIP7702 => 0x04,
            TxType::Frame => 0x06,
            TxType::FeeToken => 0x7d,
            TxType::Privileged => 0x7e,
        }
    }

    pub fn wire_byte(&self) -> (b: u8)
        ensures
            b == self.wire(),
    {
        match self {
            TxType::Legacy => 0x00,
            TxType::EIP2930 => 0x01,
            TxType::EIP1559 => 0x02,
            TxType::EIP4844 => 0x03,
            TxType::EIP7702 => 0x04,
            TxType::Frame => 0x06,
            TxType::FeeToken => 0x7d,
            TxType::Privileged => 0x7e,
        }
    }
}

/// A transaction.
#[derive(Copy, Clone, PartialEq, Eq, Structural, Debug)]
pub struct Transaction {
    pub tx_type: TxType,
    pub hash: H256,
    pub nonce: u64,
    pub gas_limit: u64,
    /// The account that is called, nothing where a contract is created.
    pub to: Option<Address>,
    pub value: U256,
    /// How many bytes of call data or init code it carries.
    pub data_len: usize,
    /// The most that the sender pays for a unit of gas.
    pub gas_fee_cap: U256,
    /// The most that of this goes to the builder of the block.
    pub gas_tip_cap: U256,
    pub max_priority_fee: Option<u64>,
    pub max_fee_per_gas: Option<u64>,
    pub max_fee_per_blob_gas: Option<U256>,
    pub blob_hash_count: usize,
    pub authorization_count: usize,
    pub chain_id: Option<u64>,
    /// Whether the signature binds the chain.
    pub protected: bool,
    /// How many bytes it takes in its canonical encoding.
    pub encoded_len: usize,
    /// The last timestamp at which a frame transaction is valid, where it has one.
    pub expiry_deadline: Option<u64>,
}

/// What the builder of a block earns with each unit of gas: what is left of the fee cap
/// above the base fee, up to the tip cap. Nothing where the fee cap does not cover the
/// base fee.
pub open spec fn gas_tip(tx: Transaction, base_fee: Option<u64>) -> Option<U256> {
    match base_fee {
        None => Some(tx.gas_tip_cap),
        Some(fee) => if tx.gas_fee_cap@ < fee {
            None
        } else if tx.gas_fee_cap@ - fee < tx.gas_tip_cap@ {
            Some(crate::word::word_of(tx.gas_fee_cap@ - fee))
        } else {
            Some(tx.gas_tip_cap)
        },
    }
}

/// What a transaction can cost its sender at most.
pub open spec fn max_cost(tx: Transaction) -> nat {
    let blobs = match tx.max_fee_per_blob_gas {
        Some(fee) => fee@ * GAS_PER_BLOB as nat * tx.blob_hash_count as nat,
        None => 0,
    };
    tx.gas_fee_cap@ * tx.gas_limit as nat + blobs + tx.value@
}

impl Transaction {
    /// Whether it creates a contract.
    pub open spec fn creates(self) -> bool {
        self.to is None
    }

    /// What the builder of a block earns with each unit of gas.
    pub fn effective_gas_tip(&self, base_fee: Option<u64>) -> (tip: Option<U256>)
        ensures
            tip == gas_tip(*self, base_fee),
    {
        match base_fee {
            None => Some(self.gas_tip_cap),
            Some(fee) => match self.gas_fee_cap.checked_sub(U256::from_u64(fee)) {
                None => None,
                Some(left) => {
                    proof {
                        lemma_word_bound(left);
                        crate::word::lemma_word_ext(
                            left,
                            crate::word::word_of(self.gas_fee_cap@ - fee),
                        );
                    }
                    if left.less_than(&self.gas_tip_cap) {
                        Some(left)
                    } else {
                        Some(self.gas_tip_cap)
                    }
                },
            },
        }
    }

    /// What the transaction can cost its sender at most, unless no word holds it.
    pub fn cost_without_base_fee(&self) -> (cost: Option<U256>)
        ensures
            match cost {
                Some(c) => c@ == max_cost(*self),
                None => max_cost(*self) >= two_256(),
            },
    {
        let gas = match self.gas_fee_cap.checked_mul_u64(self.gas_limit) {
            Some(gas) => gas,
            None => {
                return None;
            },
        };
        let blobs = match self.max_fee_per_blob_gas {
            Some(fee) => {
                let per_blob = match fee.checked_mul_u64(GAS_PER_BLOB) {
                    Some(per_blob) => per_blob,
                    None => {
                        proof {
                            let total = fee@ * GAS_PER_BLOB as nat;
                            let n = self.blob_hash_count as nat;
                            assert(n > 0 ==> total * n >= total) by (nonlinear_arith);
                        }
                        if self.blob_hash_count == 0 {
                            U256::zero()
                        } else {
                            return None;
                        }
                    },
                };
                match per_blob.checked_mul_u64(self.blob_hash_count as u64) {
                    Some(blobs) => blobs,
                    None => {
                        return None;
                    },
                }
            },
            None => U256::zero(),
        };
        match gas.checked_add(blobs) {
            Some(sum) => sum.checked_add(self.value),
            None => None,
        }
    }
}

/// A transaction of the pool, with its sender and the time at which it arrived.
#[derive(Copy, Clone, PartialEq, Eq, Structural, Debug)]
pub struct MempoolTransaction {
    pub transaction: Transaction,
    pub sender: Address,
    pub time: u64,
}

} // verus!
