//! The arguments of a payload, its identifier and the block that it starts from.

use crate::account::empty_trie_hash;
use crate::block::{
    copy_withdrawals, optional_view, Block, BlockBody, BlockHeader, BlockView, BodyView,
    HeaderView, Withdrawal,
};
use crate::config::{in_force, ChainConfig};
use crate::word::{
    be_bytes, be_value, law_be_value_injective, law_bytes_spell_their_number, lemma_be_value_bound,
    lemma_pow256_values, push_be, read_be, Address, H256, U256,
};
use vstd::prelude::*;

verus! {

/// By how much the gas limit may change from one block to the next: less than its
/// parent's divided by this.
pub const GAS_LIMIT_BOUND_DIVISOR: u64 = 1024;
/// The lowest gas limit that a builder aims at.
pub const MIN_GAS_LIMIT: u64 = 5000;

/// By how much the gas limit may change.
pub open spec fn gas_limit_step(parent: u64) -> int {
    parent / GAS_LIMIT_BOUND_DIVISOR - 1
}

/// The limit that the builder aims at.
pub open spec fn desired_limit(ceil: u64) -> u64 {
    if ceil > MIN_GAS_LIMIT {
        ceil
    } else {
        MIN_GAS_LIMIT
    }
}

/// The gas limit of the next block: as close to the desired one as a single step
/// leads.
pub open spec fn next_gas_limit(parent: u64, ceil: u64) -> int {
    let step = gas_limit_step(parent);
    let desired = desired_limit(ceil);
    if desired > parent + step {
        parent + step
    } else if desired < parent - step {
        parent - step
    } else {
        desired as int
    }
}

/// The gas limit of the next block.
pub fn calc_gas_limit(parent_gas_limit: u64, builder_gas_ceil: u64) -> (limit: u64)
    requires
        parent_gas_limit >= GAS_LIMIT_BOUND_DIVISOR,
        parent_gas_limit + gas_limit_step(parent_gas_limit) <= u64::MAX || desired_limit(
            builder_gas_ceil,
        ) <= parent_gas_limit,
    ensures
        limit == next_gas_limit(parent_gas_limit, builder_gas_ceil),
{
    let delta: u64 = parent_gas_limit / GAS_LIMIT_BOUND_DIVISOR - 1;
    let mut limit: u64 = parent_gas_limit;
    let desired: u64 = if builder_gas_ceil > MIN_GAS_LIMIT {
        builder_gas_ceil
    } else {
        MIN_GAS_LIMIT
    };
    if limit < desired {
        limit = parent_gas_limit + delta;
        if limit > desired {
            limit = desired;
        }
        return limit;
    }
    if limit > desired {
        limit = parent_gas_limit - delta;
        if limit < desired {
            limit = desired;
        }
    }
    limit
}

/// The gas limit changes by less than its bound, and comes no farther from the desired
/// one.
pub proof fn law_gas_limit_stays_in_bounds(parent: u64, ceil: u64)
    requires
        parent >= GAS_LIMIT_BOUND_DIVISOR,
    ensures
        -(parent as int / 1024) < next_gas_limit(parent, ceil) - parent < parent as int / 1024,
        parent <= desired_limit(ceil) ==> parent <= next_gas_limit(parent, ceil) <= desired_limit(
            ceil,
        ),
        parent >= desired_limit(ceil) ==> desired_limit(ceil) <= next_gas_limit(parent, ceil)
            <= parent,
{
}

/// What the consensus layer asks a payload for.
pub struct BuildPayloadArgs {
    pub parent: H256,
    pub timestamp: u64,
    pub fee_recipient: Address,
    pub random: H256,
    pub withdrawals: Option<Vec<Withdrawal>>,
    pub beacon_root: Option<H256>,
    pub slot_number: Option<u64>,
    pub version: u8,
    pub elasticity_multiplier: u64,
    pub gas_ceil: u64,
}

#[derive(Copy, Clone, PartialEq, Eq, Structural, Debug)]
pub enum BuildPayloadArgsError {
    /// The digest of the arguments has the wrong size.
    FailedToConvertPayload,
}

/// The bytes of an optional hash.
pub open spec fn optional_hash_bytes(hash: Option<H256>) -> Seq<u8> {
    match hash {
        Some(h) => h.bytes(),
        None => Seq::empty(),
    }
}

/// The first eight bytes of a digest, the very first replaced by the version, as a
/// number.
pub open spec fn id_of(version: u8, digest: Seq<u8>) -> nat {
    be_value(seq![version] + digest.subrange(1, 8))
}

impl BuildPayloadArgs {
    /// The bytes that tell the arguments of a payload from others, but for the part
    /// that only counts from version four on.
    pub open spec fn common_preimage(&self, encoded_withdrawals: Seq<u8>) -> Seq<u8> {
        self.parent.bytes() + be_bytes(self.timestamp as nat, 8) + self.random.bytes()
            + self.fee_recipient.bytes() + (if self.withdrawals is Some {
            encoded_withdrawals
        } else {
            Seq::empty()
        }) + optional_hash_bytes(self.beacon_root)
    }

    /// The bytes that tell the arguments of a payload from others. The slot number and
    /// the gas ceiling count from version four on: before that the ceiling is the same
    /// for all.
    pub open spec fn preimage(&self, encoded_withdrawals: Seq<u8>) -> Seq<u8> {
        let common = self.common_preimage(encoded_withdrawals);
        if self.version < 4 {
            common
        } else {
            common + (match self.slot_number {
                Some(slot) => be_bytes(slot as nat, 8),
                None => Seq::empty(),
            }) + be_bytes(self.gas_ceil as nat, 8)
        }
    }

    /// The bytes whose digest identifies the payload. The withdrawals, where there are
    /// any, come in their wire encoding.
    pub fn id_preimage(&self, encoded_withdrawals: &[u8]) -> (bytes: Vec<u8>)
        ensures
            bytes@ == self.preimage(encoded_withdrawals@),
    {
        let mut out: Vec<u8> = Vec::new();
        self.parent.push_bytes(&mut out);
        push_be(&mut out, self.timestamp as u128, 8);
        self.random.push_bytes(&mut out);
        self.fee_recipient.push_bytes(&mut out);
        if self.withdrawals.is_some() {
            push_all(&mut out, encoded_withdrawals);
        }
        match &self.beacon_root {
            Some(root) => {
                root.push_bytes(&mut out);
            },
            None => {},
        }
        assert(out@ =~= self.common_preimage(encoded_withdrawals@));
        if self.version >= 4 {
            match self.slot_number {
                Some(slot) => {
                    push_be(&mut out, slot as u128, 8);
                },
                None => {},
            }
            push_be(&mut out, self.gas_ceil as u128, 8);
        }
        assert(out@ =~= self.preimage(encoded_withdrawals@));
        out
    }

    /// The identifier of the payload: the first eight bytes of the digest of its
    /// arguments, the very first replaced by the version.
    pub fn id(&self, digest: &[u8]) -> (r: Result<u64, BuildPayloadArgsError>)
        ensures
            match r {
                Ok(id) => digest@.len() >= 8 && id == id_of(self.version, digest@),
                Err(e) => digest@.len() < 8 && e
                    == BuildPayloadArgsError::FailedToConvertPayload,
            },
    {
        if digest.len() < 8 {
            return Err(BuildPayloadArgsError::FailedToConvertPayload);
        }
        let mut bytes: Vec<u8> = Vec::new();
        bytes.push(self.version);
        let mut i: usize = 1;
        while i < 8
            invariant
                1 <= i <= 8,
                digest@.len() >= 8,
                bytes@ =~= seq![self.version] + digest@.subrange(1, i as int),
            decreases 8 - i,
        {
            bytes.push(digest[i]);
            i += 1;
        }
        let id: u128 = read_be(bytes.as_slice(), 0, 8);
        proof {
            lemma_be_value_bound(bytes@);
            lemma_pow256_values();
            assert(bytes@.subrange(0, 8) =~= bytes@);
        }
        Ok(id as u64)
    }
}

fn push_all(out: &mut Vec<u8>, bytes: &[u8])
    ensures
        final(out)@ == old(out)@ + bytes@,
{
    let mut i: usize = 0;
    while i < bytes.len()
        invariant
            i <= bytes@.len(),
            out@ =~= old(out)@ + bytes@.take(i as int),
        decreases bytes@.len() - i,
    {
        out.push(bytes[i]);
        i += 1;
    }
    assert(bytes@.take(i as int) =~= bytes@);
}

/// Arguments of version four that differ in the gas ceiling alone, or in the slot
/// number alone, have different preimages.
pub proof fn law_preimage_tells_ceiling_and_slot(
    a: BuildPayloadArgs,
    b: BuildPayloadArgs,
    encoded_withdrawals: Seq<u8>,
)
    requires
        a.version >= 4,
        b.version >= 4,
        a.common_preimage(encoded_withdrawals) == b.common_preimage(encoded_withdrawals),
        a.preimage(encoded_withdrawals) == b.preimage(encoded_withdrawals),
    ensures
        a.gas_ceil == b.gas_ceil,
        a.slot_number == b.slot_number,
{
    let common = a.common_preimage(encoded_withdrawals);
    let x = a.preimage(encoded_withdrawals);
    let y = b.preimage(encoded_withdrawals);
    lemma_pow256_values();
    law_bytes_spell_their_number(a.gas_ceil as nat, 8);
    law_bytes_spell_their_number(b.gas_ceil as nat, 8);
    assert(x.subrange(x.len() - 8, x.len() as int) =~= be_bytes(a.gas_ceil as nat, 8));
    assert(y.subrange(y.len() - 8, y.len() as int) =~= be_bytes(b.gas_ceil as nat, 8));
    if a.slot_number is Some {
        law_bytes_spell_their_number(a.slot_number->0 as nat, 8);
    }
    if b.slot_number is Some {
        law_bytes_spell_their_number(b.slot_number->0 as nat, 8);
    }
    if a.slot_number is Some && b.slot_number is Some {
        let n = common.len() as int;
        assert(x.subrange(n, n + 8) =~= be_bytes(a.slot_number->0 as nat, 8));
        assert(y.subrange(n, n + 8) =~= be_bytes(b.slot_number->0 as nat, 8));
    }
}

/// The identifier tells the version.
pub proof fn law_id_tells_version(v: u8, w: u8, x: Seq<u8>, y: Seq<u8>)
    requires
        x.len() >= 8,
        y.len() >= 8,
        id_of(v, x) == id_of(w, y),
    ensures
        v == w,
        x.subrange(1, 8) == y.subrange(1, 8),
{
    let a = seq![v] + x.subrange(1, 8);
    let b = seq![w] + y.subrange(1, 8);
    law_be_value_injective(a, b);
    assert(a[0] == b[0]);
    assert(a.subrange(1, 8) =~= x.subrange(1, 8));
    assert(b.subrange(1, 8) =~= y.subrange(1, 8));
}

/// The hash of no ommers.
pub open spec fn no_ommers() -> H256 {
    H256 { hi: 0x1dcc4de8dec75d7aab85b567b6ccd41a, lo: 0xd312451b948a7413f0a142fd40d49347 }
}

/// The hash of no requests.
pub open spec fn no_requests() -> H256 {
    H256 { hi: 0xe3b0c44298fc1c149afbf4c8996fb924, lo: 0x27ae41e4649b934ca495991b7852b855 }
}

/// A parent block, as far as its child depends on it, and what follows from it for the
/// child: its base fee, its excess blob gas and the root of its withdrawals.
#[derive(Copy, Clone, PartialEq, Eq, Structural, Debug)]
pub struct PayloadParent {
    pub state_root: H256,
    pub number: u64,
    pub gas_limit: u64,
    pub base_fee_per_gas: Option<u64>,
    pub excess_blob_gas: Option<u64>,
    pub withdrawals_root: H256,
}

/// The block that a payload starts from: no transactions yet, and the fields that the
/// rules in force ask for.
pub open spec fn payload_start(
    args: BuildPayloadArgs,
    parent: PayloadParent,
    config: ChainConfig,
    extra_data: Seq<u8>,
) -> BlockView {
    let empty = crate::account::empty_trie();
    BlockView {
        header: HeaderView {
            parent_hash: args.parent,
            ommers_hash: no_ommers(),
            coinbase: args.fee_recipient,
            state_root: parent.state_root,
            transactions_root: empty,
            receipts_root: empty,
            logs_bloom: Seq::new(256, |i: int| 0u8),
            difficulty: U256 { hi: 0, lo: 0 },
            number: if parent.number == u64::MAX {
                u64::MAX
            } else {
                (parent.number + 1) as u64
            },
            gas_limit: next_gas_limit(parent.gas_limit, args.gas_ceil) as u64,
            gas_used: 0,
            timestamp: args.timestamp,
            extra_data,
            prev_randao: args.random,
            nonce: 0,
            base_fee_per_gas: parent.base_fee_per_gas,
            withdrawals_root: if in_force(config.shanghai_time, args.timestamp) {
                Some(parent.withdrawals_root)
            } else {
                None
            },
            blob_gas_used: if in_force(config.cancun_time, args.timestamp) {
                Some(0)
            } else {
                None
            },
            excess_blob_gas: parent.excess_blob_gas,
            parent_beacon_block_root: args.beacon_root,
            requests_hash: if in_force(config.prague_time, args.timestamp) {
                Some(no_requests())
            } else {
                None
            },
            block_access_list_hash: None,
            slot_number: args.slot_number,
        },
        body: BodyView {
            transactions: Seq::empty(),
            withdrawals: optional_view(args.withdrawals),
        },
    }
}

fn zero_bytes(n: usize) -> (bytes: Vec<u8>)
    ensures
        bytes@ == Seq::new(n as nat, |i: int| 0u8),
{
    let mut bytes: Vec<u8> = Vec::new();
    while bytes.len() < n
        invariant
            bytes@.len() <= n,
            bytes@ =~= Seq::new(bytes@.len(), |i: int| 0u8),
        decreases n - bytes@.len(),
    {
        bytes.push(0);
    }
    bytes
}

/// The block that a payload starts from. The withdrawals wait until it is built.
pub fn create_payload(
    args: &BuildPayloadArgs,
    parent: &PayloadParent,
    config: &ChainConfig,
    extra_data: Vec<u8>,
) -> (block: Block)
    requires
        parent.gas_limit >= GAS_LIMIT_BOUND_DIVISOR,
        parent.gas_limit + gas_limit_step(parent.gas_limit) <= u64::MAX || desired_limit(
            args.gas_ceil,
        ) <= parent.gas_limit,
    ensures
        block@ == payload_start(*args, *parent, *config, extra_data@),
{
    let gas_limit: u64 = calc_gas_limit(parent.gas_limit, args.gas_ceil);
    let shanghai = config.is_shanghai_activated(args.timestamp);
    let cancun = config.is_cancun_activated(args.timestamp);
    let prague = config.is_prague_activated(args.timestamp);
    let header = BlockHeader {
        parent_hash: args.parent,
        ommers_hash: H256 {
            hi: 0x1dcc4de8dec75d7aab85b567b6ccd41a,
            lo: 0xd312451b948a7413f0a142fd40d49347,
        },
        coinbase: args.fee_recipient,
        state_root: parent.state_root,
        transactions_root: empty_trie_hash(),
        receipts_root: empty_trie_hash(),
        logs_bloom: zero_bytes(256),
        difficulty: U256::zero(),
        number: if parent.number == u64::MAX {
            u64::MAX
        } else {
            parent.number + 1
        },
        gas_limit,
        gas_used: 0,
        timestamp: args.timestamp,
        extra_data,
        prev_randao: args.random,
        nonce: 0,
        base_fee_per_gas: parent.base_fee_per_gas,
        withdrawals_root: if shanghai {
            Some(parent.withdrawals_root)
        } else {
            None
        },
        blob_gas_used: if cancun {
            Some(0)
        } else {
            None
        },
        excess_blob_gas: parent.excess_blob_gas,
        parent_beacon_block_root: args.beacon_root,
        requests_hash: if prague {
            Some(
                H256 {
                    hi: 0xe3b0c44298fc1c149afbf4c8996fb924,
                    lo: 0x27ae41e4649b934ca495991b7852b855,
                },
            )
        } else {
            None
        },
        block_access_list_hash: None,
        slot_number: args.slot_number,
    };
    let body = BlockBody {
        transactions: Vec::new(),
        withdrawals: copy_withdrawals(&args.withdrawals),
    };
    Block { header, body }
}

} // verus!
