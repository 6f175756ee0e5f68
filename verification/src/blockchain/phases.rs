//! Where the time of an import by several threads went.

use vstd::prelude::*;

verus! {

/// When the phases of an import began and ended, in nanoseconds of one clock.
#[derive(Copy, Clone, PartialEq, Eq, Structural, Debug)]
pub struct PipelineInstants {
    pub start: u64,
    pub validated: u64,
    pub exec_merkle_start: u64,
    pub merkle_start: u64,
    pub exec_end: u64,
    pub merkle_end: u64,
    pub exec_merkle_end: u64,
    pub stored: u64,
}

/// A part of an import that the others wait for.
#[derive(Copy, Clone, PartialEq, Eq, Structural, Debug)]
pub enum Phase {
    Validate,
    Execute,
    Merkle,
    Store,
}

/// How long the phases took, in nanoseconds.
#[derive(Copy, Clone, PartialEq, Eq, Structural, Debug)]
pub struct PhaseTimes {
    pub total: u64,
    pub validate: u64,
    pub execute: u64,
    /// Work on the trie while the block was executed.
    pub merkle_concurrent: u64,
    /// Work on the trie that was left when the block had been executed.
    pub merkle_drain: u64,
    /// How long the work on the trie took to begin.
    pub merkle_start_delay: u64,
    pub store: u64,
    /// How far apart the end of the warming and that of the execution were.
    pub warmer_distance: u64,
    /// Whether the warming was over when the execution was.
    pub warmer_early: bool,
    /// The phase that took longest.
    pub bottleneck: Phase,
}

/// The time from one instant to another; none where they are in the wrong order.
pub open spec fn elapsed(from: u64, to: u64) -> u64 {
    if from <= to {
        (to - from) as u64
    } else {
        0
    }
}

/// How long the import waited for a phase. Of the work on the trie only what was left
/// after the execution counts: the rest was done meanwhile.
pub open spec fn waited(times: PhaseTimes, phase: Phase) -> u64 {
    match phase {
        Phase::Validate => times.validate,
        Phase::Execute => times.execute,
        Phase::Merkle => times.merkle_drain,
        Phase::Store => times.store,
    }
}

/// The place of a phase among the phases.
pub open spec fn place(phase: Phase) -> int {
    match phase {
        Phase::Validate => 0,
        Phase::Execute => 1,
        Phase::Merkle => 2,
        Phase::Store => 3,
    }
}

/// Whether no phase took longer, nor a later one as long.
pub open spec fn is_bottleneck(times: PhaseTimes, phase: Phase) -> bool {
    forall|other: Phase| #[trigger]
        waited(times, other) <= waited(times, phase) && (place(other) > place(phase) ==> waited(
            times,
            other,
        ) < waited(times, phase))
}

fn since(from: u64, to: u64) -> (time: u64)
    ensures
        time == elapsed(from, to),
{
    if from <= to {
        to - from
    } else {
        0
    }
}

/// Tells how long each phase of an import took, and which one held it up. There is nothing
/// to tell of an import that took no time.
pub fn time_phases(at: &PipelineInstants, warmer: u64) -> (times: Option<PhaseTimes>)
    ensures
        times is Some <==> at.start < at.stored,
        times matches Some(times) ==> {
            &&& times.total == elapsed(at.start, at.stored)
            &&& times.validate == elapsed(at.start, at.validated)
            &&& times.execute == elapsed(at.exec_merkle_start, at.exec_end)
            &&& times.merkle_concurrent == if elapsed(at.exec_merkle_start, at.merkle_end)
                <= times.execute {
                elapsed(at.exec_merkle_start, at.merkle_end)
            } else {
                times.execute
            }
            &&& times.merkle_drain == elapsed(at.exec_end, at.exec_merkle_end)
            &&& times.merkle_start_delay == elapsed(at.exec_merkle_start, at.merkle_start)
            &&& times.store == elapsed(at.exec_merkle_end, at.stored)
            &&& times.warmer_early == (warmer <= times.execute)
            &&& times.warmer_distance == if warmer <= times.execute {
                times.execute - warmer
            } else {
                warmer - times.execute
            }
            &&& is_bottleneck(times, times.bottleneck)
        },
{
    let total: u64 = since(at.start, at.stored);
    if total == 0 {
        return None;
    }
    let validate: u64 = since(at.start, at.validated);
    let execute: u64 = since(at.exec_merkle_start, at.exec_end);
    let merkle: u64 = since(at.exec_merkle_start, at.merkle_end);
    let drain: u64 = since(at.exec_end, at.exec_merkle_end);
    let store: u64 = since(at.exec_merkle_end, at.stored);
    let mut bottleneck = Phase::Validate;
    let mut longest: u64 = validate;
    if longest <= execute {
        bottleneck = Phase::Execute;
        longest = execute;
    }
    if longest <= drain {
        bottleneck = Phase::Merkle;
        longest = drain;
    }
    if longest <= store {
        bottleneck = Phase::Store;
    }
    Some(
        PhaseTimes {
            total,
            validate,
            execute,
            merkle_concurrent: if merkle <= execute {
                merkle
            } else {
                execute
            },
            merkle_drain: drain,
            merkle_start_delay: since(at.exec_merkle_start, at.merkle_start),
            store,
            warmer_distance: if warmer <= execute {
                execute - warmer
            } else {
                warmer - execute
            },
            warmer_early: warmer <= execute,
            bottleneck,
        },
    )
}

/// Where the instants follow each other as the phases do, what the import waited for the
/// phases is no more than it took.
pub proof fn law_phases_fit_the_total(at: PipelineInstants, times: PhaseTimes)
    requires
        at.start <= at.validated <= at.exec_merkle_start <= at.exec_end <= at.exec_merkle_end
            <= at.stored,
        times.total == elapsed(at.start, at.stored),
        times.validate == elapsed(at.start, at.validated),
        times.execute == elapsed(at.exec_merkle_start, at.exec_end),
        times.merkle_drain == elapsed(at.exec_end, at.exec_merkle_end),
        times.store == elapsed(at.exec_merkle_end, at.stored),
    ensures
        waited(times, Phase::Validate) + waited(times, Phase::Execute) + waited(times, Phase::Merkle)
            + waited(times, Phase::Store) <= times.total,
{
}

} // verus!
