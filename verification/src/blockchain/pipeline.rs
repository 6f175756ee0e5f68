//! Importing a block by several threads at once: one executes it, one brings the state
//! trie up to date and one reads ahead.

use crate::blockchain::BlockchainOptions;
use crate::chain_error::ChainError;
use crate::word::H256;
use vstd::prelude::*;
use vstd::string::*;

verus! {

/// State that was read ahead of a block.
pub struct PrewarmedEntry<C> {
    /// The block whose state was read.
    pub parent_hash: H256,
    /// The number of the fork under which it was read.
    pub fork: u8,
    pub cache: C,
}

/// What is left in the slot of a prewarmed cache, and the cache to execute with.
pub open spec fn prewarmed_use<C>(
    slot: Option<PrewarmedEntry<C>>,
    collect_witness: bool,
    parent_hash: H256,
    fork: u8,
) -> (Option<PrewarmedEntry<C>>, Option<C>) {
    if collect_witness {
        (slot, None)
    } else {
        (
            None,
            match slot {
                Some(entry) => if entry.parent_hash == parent_hash && entry.fork == fork {
                    Some(entry.cache)
                } else {
                    None
                },
                None => None,
            },
        )
    }
}

/// Takes the cache to execute a block with out of its slot. A witness starts cold, and a
/// cache of another state or another fork is thrown away.
pub fn take_prewarmed<C>(
    slot: &mut Option<PrewarmedEntry<C>>,
    collect_witness: bool,
    parent_hash: H256,
    fork: u8,
) -> (cache: Option<C>)
    ensures
        (*final(slot), cache) == prewarmed_use(*old(slot), collect_witness, parent_hash, fork),
{
    if collect_witness {
        return None;
    }
    match slot.take() {
        Some(entry) => if entry.parent_hash == parent_hash && entry.fork == fork {
            Some(entry.cache)
        } else {
            None
        },
        None => None,
    }
}

/// What the thread that reads ahead does.
#[derive(Copy, Clone, PartialEq, Eq, Structural, Debug)]
pub enum Warming {
    /// There is no such thread.
    Absent,
    /// It reads what the access list names.
    FromAccessList,
    /// It executes the transactions ahead of the block.
    Speculative,
    /// It does nothing.
    Idle,
}

/// Who does what while a block is imported.
#[derive(Copy, Clone, PartialEq, Eq, Structural, Debug)]
pub struct PipelinePlan {
    /// Transactions run in parallel where the block came with an access list.
    pub parallel_exec: bool,
    /// The state trie is brought up to date from the access list that came with the block.
    pub optimistic: bool,
    /// The slots that the access list names are read before the execution starts.
    pub prefetch_storage: bool,
    pub warming: Warming,
    /// The execution sends its updates to the thread that keeps the state trie.
    pub channel: bool,
}

/// The plan for a block.
pub open spec fn plan(
    options: BlockchainOptions,
    with_bal: bool,
    collect_witness: bool,
) -> PipelinePlan {
    let parallel_exec = options.bal_parallel_exec_enabled && !collect_witness;
    let optimistic = options.bal_parallel_trie_enabled && !collect_witness && with_bal;
    PipelinePlan {
        parallel_exec,
        optimistic,
        prefetch_storage: options.bal_prefetch_enabled && !collect_witness && with_bal,
        warming: if collect_witness {
            Warming::Absent
        } else if !with_bal {
            Warming::Speculative
        } else if options.bal_prefetch_enabled {
            Warming::FromAccessList
        } else if !parallel_exec {
            Warming::Speculative
        } else {
            Warming::Idle
        },
        channel: !(optimistic && parallel_exec),
    }
}

/// The plan for a block.
pub fn plan_pipeline(options: &BlockchainOptions, with_bal: bool, collect_witness: bool) -> (p:
    PipelinePlan)
    ensures
        p == plan(*options, with_bal, collect_witness),
{
    let parallel_exec = options.bal_parallel_exec_enabled && !collect_witness;
    let optimistic = options.bal_parallel_trie_enabled && !collect_witness && with_bal;
    let warming = if collect_witness {
        Warming::Absent
    } else if !with_bal {
        Warming::Speculative
    } else if options.bal_prefetch_enabled {
        Warming::FromAccessList
    } else if !parallel_exec {
        Warming::Speculative
    } else {
        Warming::Idle
    };
    PipelinePlan {
        parallel_exec,
        optimistic,
        prefetch_storage: options.bal_prefetch_enabled && !collect_witness && with_bal,
        warming,
        channel: !(optimistic && parallel_exec),
    }
}

impl PipelinePlan {
    /// The execution runs transactions one after another, and sends its updates.
    pub open spec fn sequential(self, with_bal: bool) -> bool {
        !(self.parallel_exec && with_bal)
    }

    /// Whether the thread that keeps the state trie works from the access list. Where
    /// there is a channel it is emptied, whatever was prepared.
    pub fn merkleizes_from_list(&self) -> (b: bool)
        ensures
            b == !self.channel,
    {
        !self.channel
    }
}

/// Where the execution sends updates there is a channel, and where there is none the
/// updates of the access list were prepared.
pub proof fn law_channel_is_there_when_needed(
    options: BlockchainOptions,
    with_bal: bool,
    collect_witness: bool,
)
    ensures
        ({
            let p = plan(options, with_bal, collect_witness);
            &&& p.sequential(with_bal) ==> p.channel
            &&& !p.optimistic ==> p.channel
            &&& !p.channel ==> p.optimistic && with_bal
        }),
{
}

/// While a witness is collected nothing but the execution itself reads state: nothing is
/// read ahead, transactions run one after another, and every update is streamed.
pub proof fn law_witness_sees_only_the_execution(options: BlockchainOptions, with_bal: bool)
    ensures
        ({
            let p = plan(options, with_bal, true);
            &&& p.warming == Warming::Absent
            &&& !p.prefetch_storage
            &&& !p.parallel_exec
            &&& p.channel
        }),
{
}

/// What the threads came to: an error of the state trie is reported before one of the
/// execution.
pub fn join_results<M, E>(merkle: Result<M, String>, execution: Result<E, ChainError>) -> (r:
    Result<(M, E), ChainError>)
    ensures
        r == match (merkle, execution) {
            (Err(why), _) => Err::<(M, E), ChainError>(ChainError::StoreError(why)),
            (Ok(_), Err(e)) => Err(e),
            (Ok(m), Ok(e)) => Ok((m, e)),
        },
{
    match merkle {
        Err(why) => Err(ChainError::StoreError(why)),
        Ok(m) => match execution {
            Err(e) => Err(e),
            Ok(e) => Ok((m, e)),
        },
    }
}

/// What becomes of the witness of an imported block.
#[derive(Copy, Clone, PartialEq, Eq, Structural, Debug)]
pub struct WitnessPlan {
    /// It is kept in the store.
    pub store: bool,
    /// It is handed to the caller.
    pub hand_back: bool,
}

impl WitnessPlan {
    /// What is done with the witness of a block.
    pub fn new(options: &BlockchainOptions, synced: bool, force: bool) -> (p: WitnessPlan)
        ensures
            p == (WitnessPlan {
                store: options.precompute_witnesses && synced,
                hand_back: force,
            }),
    {
        WitnessPlan { store: options.precompute_witnesses && synced, hand_back: force }
    }

    /// A witness is needed.
    pub open spec fn collects(self) -> bool {
        self.store || self.hand_back
    }

    /// Whether a witness is needed.
    pub fn collect(&self) -> (b: bool)
        ensures
            b == self.collects(),
    {
        self.store || self.hand_back
    }
}

/// The access list to keep for a block: the one that the execution produced, or else the
/// one that came with the block.
pub fn bal_to_store<B>(produced: Option<B>, input: Option<B>) -> (bal: Option<B>)
    ensures
        bal == if produced is Some {
            produced
        } else {
            input
        },
{
    match produced {
        Some(bal) => Some(bal),
        None => input,
    }
}

/// What an import came to once the block was executed.
pub struct Imported<B, W> {
    /// The access list that the execution produced.
    pub produced_bal: Option<B>,
    pub witness: Option<W>,
    /// Whether the block could be stored.
    pub stored: Result<(), ChainError>,
}

/// Whether a block was imported, from what its import came to.
pub fn import_result<B, W>(outcome: Result<Imported<B, W>, ChainError>) -> (r: Result<
    (),
    ChainError,
>)
    ensures
        r == match outcome {
            Err(e) => Err::<(), ChainError>(e),
            Ok(imported) => imported.stored,
        },
{
    match outcome {
        Err(e) => Err(e),
        Ok(imported) => imported.stored,
    }
}

/// The access list that the execution of an imported block produced.
pub fn imported_bal<B, W>(outcome: Result<Imported<B, W>, ChainError>) -> (r: Result<
    Option<B>,
    ChainError,
>)
    ensures
        r == match outcome {
            Err(e) => Err::<Option<B>, ChainError>(e),
            Ok(imported) => match imported.stored {
                Err(e) => Err(e),
                Ok(()) => Ok(imported.produced_bal),
            },
        },
{
    match outcome {
        Err(e) => Err(e),
        Ok(imported) => match imported.stored {
            Err(e) => Err(e),
            Ok(()) => Ok(imported.produced_bal),
        },
    }
}

/// The witness of an imported block.
pub fn imported_witness<B, W>(outcome: Result<Imported<B, W>, ChainError>) -> (r: Result<
    W,
    ChainError,
>)
    ensures
        match outcome {
            Err(e) => r == Err::<W, ChainError>(e),
            Ok(imported) => match (imported.stored, imported.witness) {
                (Err(e), _) => r == Err::<W, ChainError>(e),
                (Ok(()), Some(witness)) => r == Ok::<W, ChainError>(witness),
                (Ok(()), None) => r matches Err(ChainError::WitnessGeneration(why)) && why@
                    == "forced witness collection completed without producing a witness"@,
            },
        },
{
    match outcome {
        Err(e) => Err(e),
        Ok(imported) => match imported.stored {
            Err(e) => Err(e),
            Ok(()) => match imported.witness {
                Some(witness) => Ok(witness),
                None => Err(
                    ChainError::WitnessGeneration(
                        "forced witness collection completed without producing a witness".to_owned(),
                    ),
                ),
            },
        },
    }
}

/// What is to be done next while a block is imported.
pub enum ImportPhase {
    /// The header of the parent is looked up.
    FindParent,
    /// The block is kept as pending.
    KeepPending,
    /// The block is executed and the state trie brought up to date.
    Execute,
    /// A witness is made of what the execution read and changed.
    MakeWitness,
    /// The witness is kept in the store.
    StoreWitness,
    /// The access list is kept in the store.
    StoreAccessList,
    /// The block is stored with its state.
    StoreBlock,
    /// The import failed before the block was to be stored.
    Failed(ChainError),
    /// The block was to be stored, with this outcome.
    Stored(Result<(), ChainError>),
}

/// What came of what was to be done.
pub enum ImportEvent {
    Parent(bool),
    PendingKept(Result<(), String>),
    Executed(Result<Execution, ChainError>),
    WitnessMade(Result<(), ChainError>),
    WitnessStored(Result<(), String>),
    /// Whether the access list could be kept makes no difference.
    AccessListStored,
    BlockStored(Result<(), ChainError>),
}

/// What an execution came with.
#[derive(Copy, Clone, PartialEq, Eq, Structural, Debug)]
pub struct Execution {
    /// The updates of all accounts were gathered.
    pub with_updates: bool,
    /// There is an access list to keep.
    pub with_bal: bool,
}

/// A block that is being imported.
pub struct Import {
    pub phase: ImportPhase,
    pub plan: WitnessPlan,
    pub with_bal: bool,
    /// A witness was made for the caller.
    pub hands_back: bool,
}

impl Import {
    /// The step that follows the making of a witness, or its absence.
    pub open spec fn after_witness(self, with_bal: bool) -> ImportPhase {
        if with_bal {
            ImportPhase::StoreAccessList
        } else {
            ImportPhase::StoreBlock
        }
    }

    /// The import after an event.
    pub open spec fn after(self, event: ImportEvent) -> Import {
        match (self.phase, event) {
            (ImportPhase::FindParent, ImportEvent::Parent(found)) => Import {
                phase: if found {
                    ImportPhase::Execute
                } else {
                    ImportPhase::KeepPending
                },
                ..self
            },
            (ImportPhase::KeepPending, ImportEvent::PendingKept(r)) => Import {
                phase: ImportPhase::Failed(
                    match r {
                        Ok(()) => ChainError::ParentNotFound,
                        Err(why) => ChainError::StoreError(why),
                    },
                ),
                ..self
            },
            (ImportPhase::Execute, ImportEvent::Executed(Ok(e))) => Import {
                phase: if self.plan.collects() && e.with_updates {
                    ImportPhase::MakeWitness
                } else {
                    self.after_witness(e.with_bal)
                },
                with_bal: e.with_bal,
                ..self
            },
            (ImportPhase::Execute, ImportEvent::Executed(Err(e))) => Import {
                phase: ImportPhase::Failed(e),
                ..self
            },
            (ImportPhase::MakeWitness, ImportEvent::WitnessMade(Ok(()))) => Import {
                phase: if self.plan.store {
                    ImportPhase::StoreWitness
                } else {
                    self.after_witness(self.with_bal)
                },
                hands_back: self.plan.hand_back,
                ..self
            },
            (ImportPhase::MakeWitness, ImportEvent::WitnessMade(Err(e))) => Import {
                phase: ImportPhase::Failed(e),
                ..self
            },
            (ImportPhase::StoreWitness, ImportEvent::WitnessStored(Ok(()))) => Import {
                phase: self.after_witness(self.with_bal),
                ..self
            },
            (ImportPhase::StoreWitness, ImportEvent::WitnessStored(Err(why))) => Import {
                phase: ImportPhase::Failed(ChainError::StoreError(why)),
                ..self
            },
            (ImportPhase::StoreAccessList, ImportEvent::AccessListStored) => Import {
                phase: ImportPhase::StoreBlock,
                ..self
            },
            (ImportPhase::StoreBlock, ImportEvent::BlockStored(r)) => Import {
                phase: ImportPhase::Stored(r),
                ..self
            },
            _ => self,
        }
    }

    /// An import of which nothing has been done yet.
    pub fn start(plan: WitnessPlan) -> (i: Import)
        ensures
            i == (Import {
                phase: ImportPhase::FindParent,
                plan,
                with_bal: false,
                hands_back: false,
            }),
    {
        Import { phase: ImportPhase::FindParent, plan, with_bal: false, hands_back: false }
    }

    fn list_or_block(with_bal: bool) -> (phase: ImportPhase)
        ensures
            forall|i: Import| phase == #[trigger] i.after_witness(with_bal),
    {
        if with_bal {
            ImportPhase::StoreAccessList
        } else {
            ImportPhase::StoreBlock
        }
    }

    /// Takes an event in. One that does not belong to what was to be done changes nothing.
    pub fn step(self, event: ImportEvent) -> (next: Import)
        ensures
            next == self.after(event),
    {
        let Import { phase, plan, with_bal, hands_back } = self;
        match (phase, event) {
            (ImportPhase::FindParent, ImportEvent::Parent(found)) => {
                let phase = if found {
                    ImportPhase::Execute
                } else {
                    ImportPhase::KeepPending
                };
                Import { phase, plan, with_bal, hands_back }
            },
            (ImportPhase::KeepPending, ImportEvent::PendingKept(r)) => {
                let phase = ImportPhase::Failed(
                    match r {
                        Ok(()) => ChainError::ParentNotFound,
                        Err(why) => ChainError::StoreError(why),
                    },
                );
                Import { phase, plan, with_bal, hands_back }
            },
            (ImportPhase::Execute, ImportEvent::Executed(Ok(e))) => {
                let phase = if plan.collect() && e.with_updates {
                    ImportPhase::MakeWitness
                } else {
                    Import::list_or_block(e.with_bal)
                };
                Import { phase, plan, with_bal: e.with_bal, hands_back }
            },
            (ImportPhase::Execute, ImportEvent::Executed(Err(e))) => {
                Import { phase: ImportPhase::Failed(e), plan, with_bal, hands_back }
            },
            (ImportPhase::MakeWitness, ImportEvent::WitnessMade(Ok(()))) => {
                let phase = if plan.store {
                    ImportPhase::StoreWitness
                } else {
                    Import::list_or_block(with_bal)
                };
                Import { phase, plan, with_bal, hands_back: plan.hand_back }
            },
            (ImportPhase::MakeWitness, ImportEvent::WitnessMade(Err(e))) => {
                Import { phase: ImportPhase::Failed(e), plan, with_bal, hands_back }
            },
            (ImportPhase::StoreWitness, ImportEvent::WitnessStored(Ok(()))) => {
                Import { phase: Import::list_or_block(with_bal), plan, with_bal, hands_back }
            },
            (ImportPhase::StoreWitness, ImportEvent::WitnessStored(Err(why))) => {
                let phase = ImportPhase::Failed(ChainError::StoreError(why));
                Import { phase, plan, with_bal, hands_back }
            },
            (ImportPhase::StoreAccessList, ImportEvent::AccessListStored) => {
                Import { phase: ImportPhase::StoreBlock, plan, with_bal, hands_back }
            },
            (ImportPhase::StoreBlock, ImportEvent::BlockStored(r)) => {
                Import { phase: ImportPhase::Stored(r), plan, with_bal, hands_back }
            },
            (phase, _) => Import { phase, plan, with_bal, hands_back },
        }
    }

    /// How far an import has come.
    pub open spec fn progress(self) -> int {
        match self.phase {
            ImportPhase::FindParent => 0,
            ImportPhase::KeepPending => 1,
            ImportPhase::Execute => 1,
            ImportPhase::MakeWitness => 2,
            ImportPhase::StoreWitness => 3,
            ImportPhase::StoreAccessList => 4,
            ImportPhase::StoreBlock => 5,
            ImportPhase::Failed(_) => 6,
            ImportPhase::Stored(_) => 6,
        }
    }
}

/// An import only goes forward, and once it has ended nothing changes it: a block is
/// stored at most once, and after everything that belongs to it.
pub proof fn law_import_goes_forward(import: Import, event: ImportEvent)
    ensures
        import.after(event) == import || import.after(event).progress() > import.progress(),
        import.progress() == 6 ==> import.after(event) == import,
        import.after(event).phase is Stored && !(import.phase is Stored)
            ==> import.phase is StoreBlock,
{
}

/// A witness is handed to the caller, or kept, only where that was planned.
pub proof fn law_witness_goes_where_planned(import: Import, event: ImportEvent)
    requires
        import.hands_back ==> import.plan.hand_back,
        import.phase is StoreWitness ==> import.plan.store,
    ensures
        import.after(event).plan == import.plan,
        import.after(event).hands_back ==> import.plan.hand_back,
        import.after(event).phase is StoreWitness ==> import.plan.store,
{
}

} // verus!
