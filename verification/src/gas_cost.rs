//! Gas costs.

use crate::error::{ExceptionalHalt, VMError};
use vstd::prelude::*;

verus! {

pub const BLOCKHASH: u64 = 20;
pub const COINBASE: u64 = 2;
pub const TIMESTAMP: u64 = 2;
pub const NUMBER: u64 = 2;
pub const PREVRANDAO: u64 = 2;
pub const GASLIMIT: u64 = 2;
pub const CHAINID: u64 = 2;
pub const SELFBALANCE: u64 = 5;
pub const BASEFEE: u64 = 2;
pub const BLOBHASH: u64 = 3;
pub const BLOBBASEFEE: u64 = 2;
pub const SLOTNUM: u64 = 2;
pub const ADDRESS: u64 = 2;
pub const ORIGIN: u64 = 2;
pub const GASPRICE: u64 = 2;
pub const CALLER: u64 = 2;
pub const CALLVALUE: u64 = 2;
pub const CALLDATALOAD: u64 = 3;
pub const CALLDATASIZE: u64 = 2;
pub const CODESIZE: u64 = 2;
pub const RETURNDATASIZE: u64 = 2;

/// The static cost of an instruction that copies into memory.
pub const COPY_STATIC: u64 = 3;
/// The cost of each word that is copied.
pub const COPY_WORD: u64 = 3;
/// The linear cost of each word of memory.
pub const MEMORY_WORD: u64 = 3;
/// The divisor of the quadratic cost of memory.
pub const MEMORY_QUADRATIC_DIVISOR: u64 = 512;

/// How many whole words `bytes` bytes take.
pub open spec fn words(bytes: int) -> int {
    (bytes + 31) / 32
}

/// The cost of a memory of `bytes` bytes.
pub open spec fn memory_cost(bytes: int) -> int {
    words(bytes) * words(bytes) / 512 + 3 * words(bytes)
}

/// The cost of growing memory from `current` to `new` bytes.
pub open spec fn expansion_cost(new: int, current: int) -> int {
    if new <= current {
        0
    } else {
        memory_cost(new) - memory_cost(current)
    }
}

/// The cost of copying `len` bytes into memory that has to grow from `current` to
/// `new` bytes, without the static part.
pub open spec fn copy_cost(new: int, current: int, len: int) -> int {
    3 * words(len) + expansion_cost(new, current)
}

/// The cost of an access to an account, for an account that was and one that was not
/// accessed before.
#[derive(Copy, Clone, PartialEq, Eq, Structural, Debug)]
pub struct AccessCosts {
    pub cold: u64,
    pub warm: u64,
}

impl AccessCosts {
    pub open spec fn cost(self, cold: bool) -> u64 {
        if cold {
            self.cold
        } else {
            self.warm
        }
    }

    pub fn access(&self, cold: bool) -> (cost: u64)
        ensures
            cost == self.cost(cold),
    {
        if cold {
            self.cold
        } else {
            self.warm
        }
    }
}

proof fn lemma_square_bound(w: int, bound: int)
    by (nonlinear_arith)
    requires
        0 <= w <= bound,
    ensures
        0 <= w * w <= bound * bound,
{
}

/// A larger memory costs more.
pub proof fn law_memory_cost_monotone(small: int, large: int)
    requires
        0 <= small <= large,
    ensures
        0 <= memory_cost(small) <= memory_cost(large),
{
    let a = words(small);
    let b = words(large);
    assert(0 <= a <= b);
    lemma_square_bound(a, b);
    assert(a * a / 512 <= b * b / 512) by {
        vstd::arithmetic::div_mod::lemma_div_is_ordered(a * a, b * b, 512);
    }
}

fn memory_price(bytes: usize) -> (cost: u128)
    ensures
        cost == memory_cost(bytes as int),
        cost <= 0x1_0000_0000_0000_0000_0000_0000_0000,
{
    let w: u128 = (bytes as u128 + 31) / 32;
    assert(w <= 0x800_0000_0000_0000);
    proof {
        lemma_square_bound(w as int, 0x800_0000_0000_0000);
    }
    w * w / 512 + 3 * w
}

/// The cost of an instruction that copies `len` bytes into memory that has to grow
/// from `current` to `new` bytes, with the static cost `fixed`. A cost that no gas
/// counter can hold is out of gas.
pub fn copy_behavior(new: usize, current: usize, len: usize, fixed: u64) -> (r: Result<
    u64,
    VMError,
>)
    ensures
        match r {
            Ok(cost) => cost == fixed + copy_cost(new as int, current as int, len as int),
            Err(e) => fixed + copy_cost(new as int, current as int, len as int) > u64::MAX && e
                == VMError::ExceptionalHalt(ExceptionalHalt::OutOfGas),
        },
{
    let expansion: u128 = if new <= current {
        0
    } else {
        proof {
            law_memory_cost_monotone(current as int, new as int);
        }
        memory_price(new) - memory_price(current)
    };
    let w: u128 = (len as u128 + 31) / 32;
    let cost: u128 = fixed as u128 + 3 * w + expansion;
    if cost > u64::MAX as u128 {
        Err(VMError::ExceptionalHalt(ExceptionalHalt::OutOfGas))
    } else {
        Ok(cost as u64)
    }
}

} // verus!
