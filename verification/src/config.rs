//! The configuration of a chain: which rules are in force when.

use vstd::prelude::*;

verus! {

/// From which timestamp, or block number, each set of rules is in force. A rule
/// without one never is.
#[derive(Copy, Clone, PartialEq, Eq, Structural, Debug)]
pub struct ChainConfig {
    pub chain_id: u64,
    pub eip155_block: Option<u64>,
    pub shanghai_time: Option<u64>,
    pub cancun_time: Option<u64>,
    pub prague_time: Option<u64>,
    pub osaka_time: Option<u64>,
    pub amsterdam_time: Option<u64>,
    pub hegota_time: Option<u64>,
}

/// Whether a rule with the given start is in force at `now`.
pub open spec fn in_force(start: Option<u64>, now: u64) -> bool {
    start is Some && start->0 <= now
}

pub fn is_in_force(start: Option<u64>, now: u64) -> (b: bool)
    ensures
        b == in_force(start, now),
{
    match start {
        Some(time) => time <= now,
        None => false,
    }
}

impl ChainConfig {
    pub fn is_eip155_activated(&self, block_number: u64) -> (b: bool)
        ensures
            b == in_force(self.eip155_block, block_number),
    {
        is_in_force(self.eip155_block, block_number)
    }

    pub fn is_shanghai_activated(&self, timestamp: u64) -> (b: bool)
        ensures
            b == in_force(self.shanghai_time, timestamp),
    {
        is_in_force(self.shanghai_time, timestamp)
    }

    pub fn is_cancun_activated(&self, timestamp: u64) -> (b: bool)
        ensures
            b == in_force(self.cancun_time, timestamp),
    {
        is_in_force(self.cancun_time, timestamp)
    }

    pub fn is_prague_activated(&self, timestamp: u64) -> (b: bool)
        ensures
            b == in_force(self.prague_time, timestamp),
    {
        is_in_force(self.prague_time, timestamp)
    }

    pub fn is_osaka_activated(&self, timestamp: u64) -> (b: bool)
        ensures
            b == in_force(self.osaka_time, timestamp),
    {
        is_in_force(self.osaka_time, timestamp)
    }

    pub fn is_amsterdam_activated(&self, timestamp: u64) -> (b: bool)
        ensures
            b == in_force(self.amsterdam_time, timestamp),
    {
        is_in_force(self.amsterdam_time, timestamp)
    }

    pub fn is_hegota_activated(&self, timestamp: u64) -> (b: bool)
        ensures
            b == in_force(self.hegota_time, timestamp),
    {
        is_in_force(self.hegota_time, timestamp)
    }
}

} // verus!
