//! Instructions of the virtual machine.
//!
//! Each instruction is a type with an [`OpcodeHandler`] impl. Its `effect` says what the
//! instruction does to the machine, and `eval` does it.

use crate::bal::{told, BalEvent, EventView};
use crate::database::Database;
use crate::error::{reported, ErrorView, ExceptionalHalt, OpcodeResult, VMError, VmErrorView};
use crate::frame::{
    below, calculate_memory_size, memory_size, padded, stored, FrameView, STACK_LIMIT,
};
use crate::gas_cost::{copy_behavior, copy_cost};
use crate::gen_db::DbView;
use crate::vm::{Environment, VmView, VM};
use crate::word::{Address, U256};
use vstd::prelude::*;

pub mod block;
pub mod environment;

verus! {

/// An instruction.
pub trait OpcodeHandler<D: Database> {
    /// What the instruction does: it takes the machine from `before` to `after` and
    /// gives `r`.
    spec fn effect(
        store: D,
        env: Environment,
        before: VmView,
        after: VmView,
        r: Result<OpcodeResult, VMError>,
    ) -> bool;

    fn eval(vm: &mut VM<D>) -> (r: Result<OpcodeResult, VMError>)
        ensures
            final(vm).env == old(vm).env,
            final(vm).db.store == old(vm).db.store,
            Self::effect(old(vm).db.store, old(vm).env, old(vm)@, final(vm)@, r),
    ;
}

/// A machine and what an instruction gave.
#[verifier::ext_equal]
pub struct VmStep {
    pub vm: VmView,
    pub result: Result<OpcodeResult, VmErrorView>,
}

/// The program is stopped.
pub open spec fn halted(vm: VmView, halt: ExceptionalHalt) -> VmStep {
    VmStep { vm, result: Err(VmErrorView::ExceptionalHalt(halt)) }
}

/// The machine itself failed.
pub open spec fn failed(vm: VmView, error: ErrorView) -> VmStep {
    VmStep { vm, result: Err(VmErrorView::Internal(error)) }
}

/// The machine after gas was paid.
pub open spec fn paid(vm: VmView, cost: int) -> VmView {
    VmView { frame: FrameView { gas: (vm.frame.gas - cost) as u64, ..vm.frame }, ..vm }
}

/// The machine after the topmost `n` words were taken.
pub open spec fn popped(vm: VmView, n: int) -> VmView {
    VmView { frame: FrameView { stack: below(vm.frame.stack, n), ..vm.frame }, ..vm }
}

/// A word is put on the stack, where there is room.
pub open spec fn push_word(vm: VmView, word: U256) -> VmStep {
    if vm.frame.stack.len() >= STACK_LIMIT {
        halted(vm, ExceptionalHalt::StackOverflow)
    } else {
        VmStep {
            vm: VmView {
                frame: FrameView { stack: vm.frame.stack.push(word), ..vm.frame },
                ..vm
            },
            result: Ok(OpcodeResult::Continue),
        }
    }
}

/// Gas is paid for a word that is put on the stack.
pub open spec fn pay_and_push(vm: VmView, cost: u64, word: U256) -> VmStep {
    if vm.frame.gas < cost {
        halted(vm, ExceptionalHalt::OutOfGas)
    } else {
        push_word(paid(vm, cost as int), word)
    }
}

/// The machine after the access to an account was noted.
pub open spec fn accessed(vm: VmView, address: Address) -> VmView {
    VmView { substate: vm.substate.with_address(address), ..vm }
}

/// What an access to an account costs.
pub open spec fn access_cost(env: Environment, vm: VmView, address: Address) -> u64 {
    env.account_access.cost(!vm.substate.addresses.contains(address))
}

/// The database after the recorder was told that an address was touched.
pub open spec fn touch_told(db: DbView, address: Address) -> DbView {
    DbView { recorder: told(db.recorder, EventView::TouchedAddress(address)), ..db }
}

/// The database after a read of a balance was noted.
pub open spec fn balance_noted(db: DbView, address: Address) -> DbView {
    DbView {
        balance_reads: match db.balance_reads {
            Some(set) => Some(set.insert(address)),
            None => None,
        },
        ..touch_told(db, address)
    }
}

/// The size and the offset of a piece of memory: without a size the offset does not
/// matter, and otherwise both must be machine-sized.
pub open spec fn piece(len: U256, offset: U256) -> Option<(int, int)> {
    if len@ == 0 {
        Some((0, 0))
    } else if len@ <= usize::MAX && offset@ <= usize::MAX {
        Some((len@ as int, offset@ as int))
    } else {
        None
    }
}

/// The machine after `len` bytes of `source` from `from` on were copied to `offset`.
pub open spec fn copied(vm: VmView, offset: int, source: Seq<u8>, from: int, len: int) -> VmView {
    VmView {
        frame: FrameView {
            memory: stored(vm.frame.memory, offset, padded(source, from, len)),
            ..vm.frame
        },
        ..vm
    }
}

/// What a copy into memory costs, without its fixed part.
pub open spec fn copy_price(vm: VmView, offset: int, len: int) -> int {
    copy_cost(memory_size(offset, len), vm.frame.memory.len() as int, len)
}

/// Gas is paid for a copy into memory, where the piece of memory is addressable and
/// there is enough gas.
pub open spec fn pay_for_copy(
    vm: VmView,
    len: U256,
    offset: U256,
    fixed: int,
) -> Result<VmView, ExceptionalHalt> {
    match piece(len, offset) {
        None => Err(ExceptionalHalt::VeryLargeNumber),
        Some((n, at)) => if memory_size(at, n) > usize::MAX {
            Err(ExceptionalHalt::OutOfBounds)
        } else if fixed + copy_price(vm, at, n) > vm.frame.gas {
            Err(ExceptionalHalt::OutOfGas)
        } else {
            Ok(paid(vm, fixed + copy_price(vm, at, n)))
        },
    }
}

/// Three words, where to, where from and how much, are taken off the stack and bytes
/// of `source` are copied into memory, zeros where it has ended.
pub open spec fn copy_from(vm: VmView, source: Seq<u8>) -> VmStep {
    if vm.frame.stack.len() < 3 {
        halted(vm, ExceptionalHalt::StackUnderflow)
    } else {
        let offset = crate::frame::nth(vm.frame.stack, 0);
        let from = crate::frame::nth(vm.frame.stack, 1);
        let len = crate::frame::nth(vm.frame.stack, 2);
        match pay_for_copy(popped(vm, 3), len, offset, 3) {
            Err(halt) => halted(popped(vm, 3), halt),
            Ok(vm) => {
                let (n, at) = piece(len, offset)->0;
                VmStep {
                    vm: copied(vm, at, source, from@ as int, n),
                    result: Ok(OpcodeResult::Continue),
                }
            },
        }
    }
}

/// The size and the offset of a piece of memory, machine-sized.
pub fn size_offset_to_usize(size: U256, offset: U256) -> (r: Result<(usize, usize), VMError>)
    ensures
        match r {
            Ok((n, at)) => piece(size, offset) == Some((n as int, at as int)),
            Err(e) => piece(size, offset) is None && e == VMError::ExceptionalHalt(
                ExceptionalHalt::VeryLargeNumber,
            ),
        },
{
    if size.is_zero() {
        return Ok((0, 0));
    }
    match size.to_usize() {
        Some(n) => match offset.to_usize() {
            Some(at) => Ok((n, at)),
            None => Err(VMError::ExceptionalHalt(ExceptionalHalt::VeryLargeNumber)),
        },
        None => Err(VMError::ExceptionalHalt(ExceptionalHalt::VeryLargeNumber)),
    }
}

/// A machine-sized integer out of a word.
pub fn u256_to_usize(word: U256) -> (r: Result<usize, VMError>)
    ensures
        match r {
            Ok(n) => n == word@,
            Err(e) => word@ > usize::MAX && e == VMError::ExceptionalHalt(
                ExceptionalHalt::VeryLargeNumber,
            ),
        },
{
    match word.to_usize() {
        Some(n) => Ok(n),
        None => Err(VMError::ExceptionalHalt(ExceptionalHalt::VeryLargeNumber)),
    }
}

/// An offset into data: one that no data can reach where the word is too large.
pub fn source_offset(word: U256) -> (from: usize)
    ensures
        word@ <= usize::MAX ==> from == word@,
        word@ > usize::MAX ==> from == usize::MAX,
{
    match word.to_usize() {
        Some(n) => n,
        None => usize::MAX,
    }
}

impl<D: Database> VM<D> {
    /// Pays gas.
    pub fn pay(&mut self, cost: u64) -> (r: Result<(), VMError>)
        ensures
            final(self).env == old(self).env,
            final(self).db.store == old(self).db.store,
            match r {
                Ok(_) => old(self)@.frame.gas >= cost && final(self)@ == paid(
                    old(self)@,
                    cost as int,
                ),
                Err(e) => old(self)@.frame.gas < cost && final(self)@ == old(self)@ && e
                    == VMError::ExceptionalHalt(ExceptionalHalt::OutOfGas),
            },
    {
        match self.current_call_frame.increase_consumed_gas(cost) {
            Ok(_) => Ok(()),
            Err(halt) => Err(VMError::ExceptionalHalt(halt)),
        }
    }

    /// Puts a word on the stack.
    pub fn push(&mut self, word: U256) -> (r: Result<OpcodeResult, VMError>)
        ensures
            final(self).env == old(self).env,
            final(self).db.store == old(self).db.store,
            (VmStep { vm: final(self)@, result: reported(r) }) == push_word(old(self)@, word),
    {
        match self.current_call_frame.stack.push(word) {
            Ok(_) => Ok(OpcodeResult::Continue),
            Err(halt) => Err(VMError::ExceptionalHalt(halt)),
        }
    }

    /// Pays gas and puts a word on the stack.
    pub fn pay_push(&mut self, cost: u64, word: U256) -> (r: Result<OpcodeResult, VMError>)
        ensures
            final(self).env == old(self).env,
            final(self).db.store == old(self).db.store,
            (VmStep { vm: final(self)@, result: reported(r) }) == pay_and_push(old(self)@, cost, word),
    {
        match self.pay(cost) {
            Ok(_) => self.push(word),
            Err(e) => Err(e),
        }
    }

    /// Notes that a balance was read.
    pub fn note_balance_read(&mut self, address: Address)
        ensures
            final(self).env == old(self).env,
            final(self).db.store == old(self).db.store,
            final(self)@ == (VmView { db: balance_noted(old(self)@.db, address), ..old(self)@ }),
    {
        self.db.record(BalEvent::TouchedAddress(address));
        match &mut self.db.balance_reads {
            Some(reads) => {
                reads.insert(address, ());
            },
            None => {},
        }
        assert(self@.db =~= balance_noted(old(self)@.db, address));
    }

    /// Pays for a copy of `len` bytes to `offset`, `fixed` on top of the price of the
    /// copy, and gives the size and the offset.
    pub fn pay_copy(&mut self, len: U256, offset: U256, fixed: u64) -> (r: Result<
        (usize, usize),
        VMError,
    >)
        ensures
            final(self).env == old(self).env,
            final(self).db.store == old(self).db.store,
            match r {
                Ok((n, at)) => {
                    &&& piece(len, offset) == Some((n as int, at as int))
                    &&& memory_size(at as int, n as int) <= usize::MAX
                    &&& pay_for_copy(old(self)@, len, offset, fixed as int) == Ok::<
                        VmView,
                        ExceptionalHalt,
                    >(final(self)@)
                },
                Err(e) => {
                    &&& final(self)@ == old(self)@
                    &&& e is ExceptionalHalt
                    &&& pay_for_copy(old(self)@, len, offset, fixed as int) == Err::<
                        VmView,
                        ExceptionalHalt,
                    >(e->ExceptionalHalt_0)
                },
            },
    {
        let (n, at) = match size_offset_to_usize(len, offset) {
            Ok(pair) => pair,
            Err(e) => {
                return Err(e);
            },
        };
        let new_size: usize = match calculate_memory_size(at, n) {
            Ok(size) => size,
            Err(e) => {
                return Err(e);
            },
        };
        let cost: u64 = match copy_behavior(
            new_size,
            self.current_call_frame.memory.len(),
            n,
            fixed,
        ) {
            Ok(cost) => cost,
            Err(e) => {
                return Err(e);
            },
        };
        match self.pay(cost) {
            Ok(_) => Ok((n, at)),
            Err(e) => Err(e),
        }
    }
}

} // verus!
