//! What the instructions that read other accounts and copy into memory do.

use crate::account::empty_keccak;
use crate::bal::EventView;
use crate::database::Database;
use crate::error::{
    reported, ErrorView, ExceptionalHalt, InternalError, OpcodeResult, TraceViolation, VMError,
    VmErrorView,
};
use crate::gen_db::{account_loaded, code_length_read, code_loaded, DbView};
use crate::laws::machine::told_events;
use crate::laws::opcodes::{call_kept, internal, replaced_top, takes_one};
use crate::opcode_handlers::environment::{
    account_code_read, inspected, target_checked, OpBalanceHandler, OpCallDataCopyHandler,
    OpCallDataLoadHandler, OpCodeCopyHandler, OpExtCodeCopyHandler, OpExtCodeHashHandler,
    OpExtCodeSizeHandler, OpReturnDataCopyHandler,
};
use crate::opcode_handlers::{
    accessed, balance_noted, copied, failed, paid, popped, push_word, touch_told, OpcodeHandler,
    VmStep,
};
use crate::vm::{Environment, VmView};
use crate::word::{
    be_value, law_hash_and_address_bytes, lemma_be_value_bound, word_address, word_of, Address,
    H256, U256,
};
use vstd::prelude::*;

verus! {

/// 2^160.
pub open spec fn two_160() -> int {
    0x1_0000_0000_0000_0000_0000_0000_0000_0000_0000_0000int
}

/// The address that a word stands for is its value modulo 2^160, and no other address
/// has that value.
pub proof fn law_address_of_a_word(word: U256, address: Address)
    ensures
        word_address(word)@ == word@ % (two_160() as nat),
        address@ == word@ % (two_160() as nat) ==> word_address(word) == address,
{
    let q = word.hi as int / 0x1_0000_0000;
    let m = word.hi as int % 0x1_0000_0000;
    let rest = m * crate::word::two_128() + word.lo;
    assert(word@ == q * two_160() + rest);
    assert(0 <= rest < two_160());
    vstd::arithmetic::div_mod::lemma_fundamental_div_mod_converse_mod(
        word@ as int,
        two_160(),
        q,
        rest,
    );
}

/// `n` bytes of `source` from `from` on, zeros where it has ended, stand in memory at
/// `at`. Memory has grown by whole words as far as was needed, and holds what it held
/// everywhere else.
pub open spec fn wrote(
    was: Seq<u8>,
    now: Seq<u8>,
    at: nat,
    source: Seq<u8>,
    from: nat,
    n: nat,
) -> bool {
    &&& n == 0 ==> now == was
    &&& n > 0 ==> now.len() >= at + n && (now.len() == was.len() || (now.len() > was.len()
        && now.len() % 32 == 0 && now.len() < at + n + 32))
    &&& forall|i: int|
        n > 0 && at <= i < at + n ==> #[trigger] now[i] == if from + (i - at) < source.len() {
            source[from + (i - at)]
        } else {
            0u8
        }
    &&& forall|i: int|
        0 <= i < now.len() && !(at <= i < at + n) ==> #[trigger] now[i] == if i < was.len() {
            was[i]
        } else {
            0u8
        }
}

/// What `bytes` bytes of memory cost: three for each word, and its square over 512.
pub open spec fn memory_gas(bytes: int) -> int {
    let w = (bytes + 31) / 32;
    3 * w + w * w / 512
}

/// How many bytes memory has to have for `n` bytes at `at`.
pub open spec fn room_for(at: nat, n: nat) -> int {
    if n == 0 {
        0
    } else {
        ((at + n + 31) / 32 * 32) as int
    }
}

/// What `n` bytes at `at` cost: three for each word of them, and the growth of memory.
pub open spec fn copy_gas(memory: Seq<u8>, at: nat, n: nat) -> int {
    3 * ((n + 31) / 32) + if room_for(at, n) <= memory.len() {
        0
    } else {
        memory_gas(room_for(at, n)) - memory_gas(memory.len() as int)
    }
}

/// What stops a copy of `n` bytes to `at` for `fixed` units of gas on top of its price.
pub open spec fn copy_stopped(vm: VmView, at: nat, n: nat, fixed: int) -> Option<ExceptionalHalt> {
    if n > 0 && (n > usize::MAX || at > usize::MAX) {
        Some(ExceptionalHalt::VeryLargeNumber)
    } else if room_for(at, n) > usize::MAX {
        Some(ExceptionalHalt::OutOfBounds)
    } else if vm.frame.gas < fixed + copy_gas(vm.frame.memory, at, n) {
        Some(ExceptionalHalt::OutOfGas)
    } else {
        None
    }
}

/// The topmost three words of the stack, where to, where from and how much, have been
/// taken, and that part of `source` stands in memory and was paid for; or what stopped
/// the copy is said.
pub open spec fn copies(
    before: VmView,
    after: VmView,
    r: Result<OpcodeResult, VMError>,
    source: Seq<u8>,
) -> bool {
    let depth = before.frame.stack.len();
    let at = before.frame.stack[depth - 1]@;
    let from = before.frame.stack[depth - 2]@;
    let n = before.frame.stack[depth - 3]@;
    if depth < 3 {
        &&& r == Err::<OpcodeResult, VMError>(
            VMError::ExceptionalHalt(ExceptionalHalt::StackUnderflow),
        )
        &&& after == before
    } else {
        &&& after.frame.stack == before.frame.stack.take(depth - 3)
        &&& match copy_stopped(before, at, n, 3) {
            Some(halt) => {
                &&& r == Err::<OpcodeResult, VMError>(VMError::ExceptionalHalt(halt))
                &&& after.frame.gas == before.frame.gas
                &&& after.frame.memory == before.frame.memory
            },
            None => {
                &&& r == Ok::<OpcodeResult, VMError>(OpcodeResult::Continue)
                &&& after.frame.gas == before.frame.gas - 3 - copy_gas(before.frame.memory, at, n)
                &&& wrote(before.frame.memory, after.frame.memory, at, source, from, n)
            },
        }
    }
}

/// Where a piece of memory starts, which does not matter where it is empty.
spec fn place(at: nat, n: nat) -> int {
    if n == 0 {
        0
    } else {
        at as int
    }
}

proof fn lemma_price(vm: VmView, at: nat, n: nat)
    ensures
        crate::frame::memory_size(place(at, n), n as int) == room_for(at, n),
        crate::opcode_handlers::copy_price(vm, place(at, n), n as int) == copy_gas(
            vm.frame.memory,
            at,
            n,
        ),
        copy_gas(vm.frame.memory, at, n) >= 0,
{
    let room = room_for(at, n);
    let size = vm.frame.memory.len() as int;
    let a = (size + 31) / 32;
    let b = (room + 31) / 32;
    assert(crate::gas_cost::memory_cost(size) == memory_gas(size));
    assert(crate::gas_cost::memory_cost(room) == memory_gas(room));
    if room > size {
        assert(a <= b);
        assert(a * a <= b * b) by (nonlinear_arith)
            requires
                0 <= a <= b,
        ;
    }
}

proof fn lemma_wrote(was: Seq<u8>, at: nat, source: Seq<u8>, from: nat, n: nat)
    ensures
        wrote(
            was,
            crate::frame::stored(
                was,
                place(at, n),
                crate::frame::padded(source, from as int, n as int),
            ),
            at,
            source,
            from,
            n,
        ),
{
    let data = crate::frame::padded(source, from as int, n as int);
    let now = crate::frame::stored(was, place(at, n), data);
    assert(data.len() == n);
    if n > 0 {
        let size = at + n;
        let whole = (size + 31) / 32 * 32;
        assert(size <= whole < size + 32 && whole % 32 == 0);
        let room = crate::frame::grown(was, whole as int);
        assert(crate::frame::memory_size(at as int, n as int) == whole);
        assert(now.len() == room.len());
    }
}

proof fn lemma_paid(vm: VmView, len: U256, offset: U256, fixed: int)
    ensures
        match copy_stopped(vm, offset@, len@, fixed) {
            Some(halt) => crate::opcode_handlers::pay_for_copy(vm, len, offset, fixed) == Err::<
                VmView,
                ExceptionalHalt,
            >(halt),
            None => crate::opcode_handlers::pay_for_copy(vm, len, offset, fixed) == Ok::<
                VmView,
                ExceptionalHalt,
            >(paid(vm, fixed + copy_gas(vm.frame.memory, offset@, len@)))
                && crate::opcode_handlers::piece(len, offset) == Some(
                (len@ as int, place(offset@, len@)),
            ),
        },
        copy_gas(vm.frame.memory, offset@, len@) >= 0,
{
    lemma_price(vm, offset@, len@);
}

/// `CALLDATACOPY` copies the data of the call and `CODECOPY` the running program.
/// Nothing but the stack, the gas and the memory changes.
pub proof fn law_copies_of_the_call<D: Database>(
    store: D,
    env: Environment,
    before: VmView,
    after: VmView,
    r: Result<OpcodeResult, VMError>,
)
    ensures
        <OpCallDataCopyHandler as OpcodeHandler<D>>::effect(store, env, before, after, r)
            ==> copies(before, after, r, before.frame.calldata) && call_kept(before, after)
            && after.db == before.db && after.substate == before.substate,
        <OpCodeCopyHandler as OpcodeHandler<D>>::effect(store, env, before, after, r) ==> copies(
            before,
            after,
            r,
            before.frame.bytecode.bytecode,
        ) && call_kept(before, after) && after.db == before.db && after.substate
            == before.substate,
{
    let depth = before.frame.stack.len();
    if depth >= 3 {
        let at = before.frame.stack[depth - 1];
        let from = before.frame.stack[depth - 2]@;
        let n = before.frame.stack[depth - 3];
        lemma_paid(popped(before, 3), n, at, 3);
        lemma_wrote(before.frame.memory, at@, before.frame.calldata, from, n@);
        lemma_wrote(before.frame.memory, at@, before.frame.bytecode.bytecode, from, n@);
    }
}

/// `RETURNDATACOPY` copies what the last call returned, and stops where that would reach
/// beyond its end.
pub proof fn law_copy_of_the_return_data<D: Database>(
    store: D,
    env: Environment,
    before: VmView,
    after: VmView,
    r: Result<OpcodeResult, VMError>,
)
    requires
        <OpReturnDataCopyHandler as OpcodeHandler<D>>::effect(store, env, before, after, r),
    ensures
        call_kept(before, after),
        after.db == before.db,
        after.substate == before.substate,
        ({
            let depth = before.frame.stack.len();
            let at = before.frame.stack[depth - 1]@;
            let from = before.frame.stack[depth - 2]@;
            let n = before.frame.stack[depth - 3]@;
            let data = before.frame.sub_return_data;
            &&& r is Ok ==> r == Ok::<OpcodeResult, VMError>(OpcodeResult::Continue)
            &&& r is Ok <==> depth >= 3 && from <= usize::MAX && from + n <= data.len()
                && copy_stopped(before, at, n, 3) is None
            &&& r is Ok ==> copies(before, after, r, data)
            &&& r is Err && depth < 3 ==> r == Err::<OpcodeResult, VMError>(
                VMError::ExceptionalHalt(ExceptionalHalt::StackUnderflow),
            )
            &&& r is Err && depth >= 3 ==> r == Err::<OpcodeResult, VMError>(
                VMError::ExceptionalHalt(
                    if from > usize::MAX {
                        ExceptionalHalt::VeryLargeNumber
                    } else {
                        match copy_stopped(before, at, n, 3) {
                            Some(halt) => halt,
                            None => ExceptionalHalt::OutOfBounds,
                        }
                    },
                ),
            ) && after.frame.memory == before.frame.memory
        }),
{
    let depth = before.frame.stack.len();
    if depth >= 3 {
        let at = before.frame.stack[depth - 1];
        let from = before.frame.stack[depth - 2]@;
        let n = before.frame.stack[depth - 3];
        lemma_paid(popped(before, 3), n, at, 3);
        lemma_wrote(before.frame.memory, at@, before.frame.sub_return_data, from, n@);
    }
}

/// `CALLDATALOAD` takes an offset off the stack for three units of gas, and gives the
/// number that the 32 bytes of the call data from there on spell, with zeros behind the
/// end of the data.
pub proof fn law_call_data_load<D: Database>(
    store: D,
    env: Environment,
    before: VmView,
    after: VmView,
    r: Result<OpcodeResult, VMError>,
    bytes: Seq<u8>,
)
    requires
        <OpCallDataLoadHandler as OpcodeHandler<D>>::effect(store, env, before, after, r),
        before.frame.stack.len() <= 1024,
        bytes.len() == 32,
        forall|i: int|
            0 <= i < 32 ==> #[trigger] bytes[i] == ({
                let offset = before.frame.stack[before.frame.stack.len() - 1]@;
                if offset + i < before.frame.calldata.len() {
                    before.frame.calldata[offset + i]
                } else {
                    0u8
                }
            }),
    ensures
        takes_one(before, after, r, 3),
        after.db == before.db,
        after.substate == before.substate,
        before.frame.gas >= 3 && before.frame.stack.len() > 0 ==> r == Ok::<OpcodeResult, VMError>(
            OpcodeResult::Continue,
        ) && replaced_top(before, after, 1, 3, be_value(bytes)),
{
    if before.frame.stack.len() > 0 {
        let offset = before.frame.stack[before.frame.stack.len() - 1]@;
        assert(crate::frame::padded(before.frame.calldata, offset as int, 32) =~= bytes);
        lemma_be_value_bound(bytes);
        assert(crate::word::pow256(32) == crate::word::two_256()) by {
            reveal_with_fuel(crate::word::pow256, 33);
        }
        crate::word::lemma_word_of(be_value(bytes) as int);
    }
}

/// An instruction that takes an address off the stack pays for the access to it, the
/// cold price for the first access of the transaction and the warm one after that, and
/// has noted the access.
pub open spec fn visited(
    env: Environment,
    before: VmView,
    after: VmView,
    address: Address,
    r: Result<OpcodeResult, VMError>,
) -> bool {
    let gas = if before.substate.addresses.contains(address) {
        env.account_access.warm
    } else {
        env.account_access.cold
    };
    &&& after.substate.addresses == before.substate.addresses.insert(address)
    &&& after.substate.slots == before.substate.slots
    &&& before.frame.gas < gas ==> r == Err::<OpcodeResult, VMError>(
        VMError::ExceptionalHalt(ExceptionalHalt::OutOfGas),
    ) && after.frame.gas == before.frame.gas && after.db == before.db
    &&& before.frame.gas >= gas ==> after.frame.gas == before.frame.gas - gas
}

/// `BALANCE` gives the balance of the account whose address is on top of the stack, once
/// it was loaded, and tells that it was read.
pub proof fn law_balance<D: Database>(
    store: D,
    env: Environment,
    before: VmView,
    after: VmView,
    r: Result<OpcodeResult, VMError>,
    address: Address,
)
    requires
        <OpBalanceHandler as OpcodeHandler<D>>::effect(store, env, before, after, r),
        0 < before.frame.stack.len() <= 1024,
        address@ == before.frame.stack[before.frame.stack.len() - 1]@ % (two_160() as nat),
    ensures
        visited(env, before, after, address, r),
        r is Ok ==> exists|loaded: DbView| #[trigger]
            account_loaded(store, before.db, address, loaded, None) && after.db == (DbView {
                recorder: after.db.recorder,
                balance_reads: after.db.balance_reads,
                ..loaded
            }) && told_events(
                loaded.recorder,
                after.db.recorder,
                seq![EventView::TouchedAddress(address)],
            ) && replaced_top(
                before,
                after,
                1,
                before.frame.gas - after.frame.gas,
                loaded.current[address].info.balance@,
            ),
        r is Ok && before.db.balance_reads is Some ==> after.db.balance_reads is Some
            && after.db.balance_reads->0 == before.db.balance_reads->0.insert(address),
        r is Err && r != Err::<OpcodeResult, VMError>(
            VMError::ExceptionalHalt(ExceptionalHalt::OutOfGas),
        ) ==> exists|loaded: DbView, e: ErrorView| #[trigger]
            account_loaded(store, before.db, address, loaded, Some(e)) && r->Err_0@ == internal(e),
{
    law_address_of_a_word(before.frame.stack[before.frame.stack.len() - 1], address);
    let cost = crate::opcode_handlers::access_cost(env, before, address);
    let vm = accessed(popped(before, 1), address);
    if vm.frame.gas >= cost {
        let (loaded, error) = choose|loaded: DbView, error: Option<ErrorView>| #[trigger]
            account_loaded(store, before.db, address, loaded, error) && (VmStep {
                vm: after,
                result: reported(r),
            }) == match error {
                Some(e) => failed(VmView { db: loaded, ..paid(vm, cost as int) }, e),
                None => push_word(
                    VmView { db: balance_noted(loaded, address), ..paid(vm, cost as int) },
                    loaded.current[address].info.balance,
                ),
            };
        match error {
            Some(e) => {
                assert(account_loaded(store, before.db, address, loaded, Some(e)));
            },
            None => {
                assert(account_loaded(store, before.db, address, loaded, None));
            },
        }
    }
}

/// Whether a code hands over to another account: 23 bytes that start with `ef0100`.
pub open spec fn hands_over(code: Seq<u8>) -> bool {
    code.len() == 23 && code[0] == 0xef && code[1] == 0x01 && code[2] == 0x00
}

/// Where a transaction is validated, a program may look at the code of an account other
/// than the sender only if that account exists and does not hand over to another. Where
/// none is validated, and for the sender, nothing is looked at.
pub proof fn law_validated_programs_look_at_plain_accounts<D: Database>(
    store: D,
    vm: VmView,
    address: Address,
    after: DbView,
    error: Option<VmErrorView>,
)
    requires
        inspected(store, vm, address, after, error),
    ensures
        !vm.observer.active || address == vm.observer.sender ==> after == vm.db && error is None,
        vm.observer.active && address != vm.observer.sender ==> exists|
            loaded: DbView,
            missing: Option<ErrorView>,
        | #[trigger]
            account_loaded(store, vm.db, address, loaded, missing) && ({
                let account = loaded.current[address];
                let code_hash = account.info.code_hash;
                &&& missing matches Some(e) ==> error == Some(internal(e))
                &&& missing is None && !account.exists ==> error == Some(
                    VmErrorView::Trace(TraceViolation::MissingTarget),
                )
                &&& missing is None && account.exists && code_hash == empty_keccak()
                    ==> error is None && after == loaded
                &&& missing is None && account.exists && code_hash != empty_keccak() ==> exists|
                    unknown: Option<ErrorView>,
                | #[trigger]
                    code_loaded(store, loaded, code_hash, after, unknown) && ({
                        let code = after.codes[code_hash].bytecode;
                        &&& unknown matches Some(e) ==> error == Some(internal(e))
                        &&& unknown is None ==> error == if hands_over(code) {
                            Some(VmErrorView::Trace(TraceViolation::DelegatedTarget))
                        } else {
                            None::<VmErrorView>
                        }
                    })
            }),
{
    if vm.observer.active && address != vm.observer.sender {
        assert(target_checked(store, vm.db, address, after, error));
    }
}

/// `EXTCODEHASH` gives the number that all 32 bytes of the code hash of an account
/// spell, zero for an account without nonce, balance and code.
pub proof fn law_code_hash_is_the_whole_hash<D: Database>(
    store: D,
    env: Environment,
    before: VmView,
    after: VmView,
    r: Result<OpcodeResult, VMError>,
    address: Address,
)
    requires
        <OpExtCodeHashHandler as OpcodeHandler<D>>::effect(store, env, before, after, r),
        0 < before.frame.stack.len() <= 1024,
        address@ == before.frame.stack[before.frame.stack.len() - 1]@ % (two_160() as nat),
    ensures
        visited(env, before, after, address, r),
        r is Ok ==> exists|seen: DbView, loaded: DbView|
            looked_at(store, before, address, seen) && #[trigger] account_loaded(
                store,
                seen,
                address,
                loaded,
                None,
            ) && after.db == (DbView { recorder: after.db.recorder, ..loaded }) && told_events(
                loaded.recorder,
                after.db.recorder,
                seq![EventView::TouchedAddress(address)],
            ) && replaced_top(
                before,
                after,
                1,
                before.frame.gas - after.frame.gas,
                ({
                    let info = loaded.current[address].info;
                    if info.nonce == 0 && info.balance@ == 0 && info.code_hash == empty_keccak() {
                        0
                    } else {
                        be_value(info.code_hash.bytes())
                    }
                }),
            ),
        r is Err && !before.observer.active && r != Err::<OpcodeResult, VMError>(
            VMError::ExceptionalHalt(ExceptionalHalt::OutOfGas),
        ) ==> exists|loaded: DbView, e: ErrorView| #[trigger]
            account_loaded(store, before.db, address, loaded, Some(e)) && r->Err_0@ == internal(e),
{
    law_address_of_a_word(before.frame.stack[before.frame.stack.len() - 1], address);
    let cost = crate::opcode_handlers::access_cost(env, before, address);
    let vm = paid(accessed(popped(before, 1), address), cost as int);
    if before.frame.gas >= cost {
        let step = VmStep { vm: after, result: reported(r) };
        let (seen, violation) = choose|seen: DbView, violation: Option<VmErrorView>| #[trigger]
            inspected(store, vm, address, seen, violation) && (match violation {
                Some(e) => step == (VmStep { vm: VmView { db: seen, ..vm }, result: Err(e) }),
                None => exists|loaded: DbView, error: Option<ErrorView>| #[trigger]
                    account_loaded(store, seen, address, loaded, error) && step == match error {
                        Some(e) => failed(VmView { db: loaded, ..vm }, e),
                        None => push_word(
                            VmView { db: touch_told(loaded, address), ..vm },
                            if loaded.current[address].empty() {
                                crate::opcode_handlers::block::zero_word()
                            } else {
                                crate::opcode_handlers::block::hash_word(
                                    loaded.current[address].info.code_hash,
                                )
                            },
                        ),
                    },
            });
        if violation is None {
            let (loaded, error) = choose|loaded: DbView, error: Option<ErrorView>| #[trigger]
                account_loaded(store, seen, address, loaded, error) && step == match error {
                    Some(e) => failed(VmView { db: loaded, ..vm }, e),
                    None => push_word(
                        VmView { db: touch_told(loaded, address), ..vm },
                        if loaded.current[address].empty() {
                            crate::opcode_handlers::block::zero_word()
                        } else {
                            crate::opcode_handlers::block::hash_word(
                                loaded.current[address].info.code_hash,
                            )
                        },
                    ),
                };
            if error is Some {
                assert(account_loaded(store, seen, address, loaded, Some(error->0)));
            }
            if error is None {
                law_hash_and_address_bytes(loaded.current[address].info.code_hash, address);
                assert(account_loaded(store, seen, address, loaded, None));
                lemma_looked_at(store, before, vm, address, seen);
            }
        }
    }
}

/// A program may look at the code of `address`, and the database has gone from that of
/// the machine to `seen` while that was found out.
pub open spec fn looked_at<D: Database>(
    store: D,
    vm: VmView,
    address: Address,
    seen: DbView,
) -> bool {
    if vm.observer.active && address != vm.observer.sender {
        exists|loaded: DbView| #[trigger]
            account_loaded(store, vm.db, address, loaded, None) && loaded.current[address].exists
                && (if loaded.current[address].info.code_hash == empty_keccak() {
                seen == loaded
            } else {
                code_loaded(
                    store,
                    loaded,
                    loaded.current[address].info.code_hash,
                    seen,
                    None,
                ) && !hands_over(seen.codes[loaded.current[address].info.code_hash].bytecode)
            })
    } else {
        seen == vm.db
    }
}

proof fn lemma_looked_at<D: Database>(
    store: D,
    before: VmView,
    vm: VmView,
    address: Address,
    seen: DbView,
)
    requires
        inspected(store, vm, address, seen, None),
        vm.db == before.db,
        vm.observer == before.observer,
    ensures
        looked_at(store, before, address, seen),
{
    if vm.observer.active && address != vm.observer.sender {
        assert(target_checked(store, vm.db, address, seen, None));
        let (loaded, missing) = choose|loaded: DbView, missing: Option<ErrorView>| #[trigger]
            account_loaded(store, vm.db, address, loaded, missing) && (match missing {
                Some(e) => seen == loaded && None::<VmErrorView> == Some(VmErrorView::Internal(e)),
                None => {
                    let account = loaded.current[address];
                    if !account.exists {
                        seen == loaded && None::<VmErrorView> == Some(
                            VmErrorView::Trace(TraceViolation::MissingTarget),
                        )
                    } else if account.info.code_hash == empty_keccak() {
                        seen == loaded
                    } else {
                        exists|unknown: Option<ErrorView>| #[trigger]
                            code_loaded(store, loaded, account.info.code_hash, seen, unknown)
                                && None::<VmErrorView> == match unknown {
                                Some(e) => Some(VmErrorView::Internal(e)),
                                None => crate::opcode_handlers::environment::code_violation(
                                    seen.codes[account.info.code_hash],
                                ),
                            }
                    }
                },
            });
        assert(missing is None);
        assert(account_loaded(store, vm.db, address, loaded, None));
    }
}

/// `EXTCODESIZE` gives how many bytes the code of an account has: none for an account
/// without code, and otherwise the length that is known of the code with its hash.
pub proof fn law_code_size<D: Database>(
    store: D,
    env: Environment,
    before: VmView,
    after: VmView,
    r: Result<OpcodeResult, VMError>,
    address: Address,
)
    requires
        <OpExtCodeSizeHandler as OpcodeHandler<D>>::effect(store, env, before, after, r),
        0 < before.frame.stack.len() <= 1024,
        address@ == before.frame.stack[before.frame.stack.len() - 1]@ % (two_160() as nat),
    ensures
        visited(env, before, after, address, r),
        r is Ok ==> exists|seen: DbView, read: DbView, n: usize|
            looked_at(store, before, address, seen) && #[trigger] code_length_read(
                store,
                seen,
                address,
                read,
                Ok::<usize, InternalError>(n),
            ) && after.db == (DbView { recorder: after.db.recorder, ..read }) && told_events(
                read.recorder,
                after.db.recorder,
                seq![EventView::TouchedAddress(address)],
            ) && replaced_top(
                before,
                after,
                1,
                before.frame.gas - after.frame.gas,
                n as nat,
            ),
        r is Err && !before.observer.active && r != Err::<OpcodeResult, VMError>(
            VMError::ExceptionalHalt(ExceptionalHalt::OutOfGas),
        ) ==> exists|read: DbView, e: InternalError| #[trigger]
            code_length_read(store, before.db, address, read, Err::<usize, InternalError>(e))
                && r->Err_0@ == internal(e@),
{
    law_address_of_a_word(before.frame.stack[before.frame.stack.len() - 1], address);
    let cost = crate::opcode_handlers::access_cost(env, before, address);
    let vm = paid(accessed(popped(before, 1), address), cost as int);
    if before.frame.gas >= cost {
        let step = VmStep { vm: after, result: reported(r) };
        let (seen, violation) = choose|seen: DbView, violation: Option<VmErrorView>| #[trigger]
            inspected(store, vm, address, seen, violation) && (match violation {
                Some(e) => step == (VmStep { vm: VmView { db: seen, ..vm }, result: Err(e) }),
                None => exists|read: DbView, length: Result<usize, InternalError>| #[trigger]
                    code_length_read(store, seen, address, read, length) && step == match length {
                        Err(e) => failed(VmView { db: read, ..vm }, e@),
                        Ok(n) => push_word(
                            VmView { db: touch_told(read, address), ..vm },
                            word_of(n as int),
                        ),
                    },
            });
        if violation is None {
            let (read, length) = choose|read: DbView, length: Result<usize, InternalError>|
                #[trigger]
                code_length_read(store, seen, address, read, length) && step == match length {
                    Err(e) => failed(VmView { db: read, ..vm }, e@),
                    Ok(n) => push_word(
                        VmView { db: touch_told(read, address), ..vm },
                        word_of(n as int),
                    ),
                };
            if length is Err {
                assert(code_length_read(
                    store,
                    seen,
                    address,
                    read,
                    Err::<usize, InternalError>(length->Err_0),
                ));
            }
            if length is Ok {
                crate::word::lemma_word_of(length->Ok_0 as int);
                assert(code_length_read(
                    store,
                    seen,
                    address,
                    read,
                    Ok::<usize, InternalError>(length->Ok_0),
                ));
                lemma_looked_at(store, before, vm, address, seen);
            }
        }
    }
}

/// `EXTCODECOPY` copies the code that is known under the code hash of an account into
/// memory. The access to the account is paid for in place of a fixed price, and nothing
/// is noted where the piece of memory cannot be addressed.
pub proof fn law_copy_of_an_account_code<D: Database>(
    store: D,
    env: Environment,
    before: VmView,
    after: VmView,
    r: Result<OpcodeResult, VMError>,
    address: Address,
)
    requires
        <OpExtCodeCopyHandler as OpcodeHandler<D>>::effect(store, env, before, after, r),
        before.frame.stack.len() >= 4,
        address@ == before.frame.stack[before.frame.stack.len() - 1]@ % (two_160() as nat),
    ensures
        call_kept(before, after),
        after.frame.stack == before.frame.stack.take(before.frame.stack.len() - 4),
        ({
            let depth = before.frame.stack.len();
            let at = before.frame.stack[depth - 2]@;
            let from = before.frame.stack[depth - 3]@;
            let n = before.frame.stack[depth - 4]@;
            let gas = if before.substate.addresses.contains(address) {
                env.account_access.warm as int
            } else {
                env.account_access.cold as int
            };
            &&& copy_stopped(before, at, n, gas) matches Some(halt) ==> r == Err::<
                OpcodeResult,
                VMError,
            >(VMError::ExceptionalHalt(halt)) && after.frame.gas == before.frame.gas
                && after.frame.memory == before.frame.memory && after.db == before.db && (halt
                != ExceptionalHalt::OutOfGas ==> after.substate == before.substate) && (halt
                == ExceptionalHalt::OutOfGas ==> after.substate.addresses
                == before.substate.addresses.insert(address))
            &&& copy_stopped(before, at, n, gas) is None ==> after.frame.gas == before.frame.gas
                - gas - copy_gas(before.frame.memory, at, n) && after.substate.addresses
                == before.substate.addresses.insert(address)
            &&& r is Ok ==> r == Ok::<OpcodeResult, VMError>(OpcodeResult::Continue)
                && copy_stopped(before, at, n, gas) is None && exists|
                seen: DbView,
                loaded: DbView,
            |
                looked_at(store, told_touched(before, address), address, seen) && #[trigger]
                    account_loaded(store, seen, address, loaded, None) && code_loaded(
                    store,
                    loaded,
                    loaded.current[address].info.code_hash,
                    after.db,
                    None,
                ) && wrote(
                    before.frame.memory,
                    after.frame.memory,
                    at,
                    after.db.codes[loaded.current[address].info.code_hash].bytecode,
                    from,
                    n,
                )
        }),
{
    let depth = before.frame.stack.len();
    let at = before.frame.stack[depth - 2]@;
    let from = before.frame.stack[depth - 3]@;
    let n = before.frame.stack[depth - 4]@;
    law_address_of_a_word(before.frame.stack[depth - 1], address);
    lemma_paid(
        accessed(popped(before, 4), address),
        before.frame.stack[depth - 4],
        before.frame.stack[depth - 2],
        crate::opcode_handlers::access_cost(env, before, address) as int,
    );
    let cost = crate::opcode_handlers::access_cost(env, before, address);
    let gas = cost as int;
    assert(at == crate::frame::nth(before.frame.stack, 1)@);
    if copy_stopped(before, at, n, gas) is None {
        let paid = paid(
            accessed(popped(before, 4), address),
            gas + copy_gas(before.frame.memory, at, n),
        );
        let told = VmView { db: touch_told(paid.db, address), ..paid };
        assert(told.db == told_touched(before, address).db);
        let step = VmStep { vm: after, result: reported(r) };
        let (seen, violation) = choose|seen: DbView, violation: Option<VmErrorView>| #[trigger]
            inspected(store, told, address, seen, violation) && (match violation {
                Some(e) => step == (VmStep { vm: VmView { db: seen, ..told }, result: Err(e) }),
                None => exists|hash: H256, read: DbView, unknown: Option<ErrorView>| #[trigger]
                    account_code_read(store, seen, address, hash, read, unknown) && step
                        == match unknown {
                        Some(e) => failed(VmView { db: read, ..told }, e),
                        None => VmStep {
                            vm: copied(
                                VmView { db: read, ..told },
                                place(at, n),
                                read.codes[hash].bytecode,
                                from as int,
                                n as int,
                            ),
                            result: Ok(OpcodeResult::Continue),
                        },
                    },
            });
        if violation is None {
            let (hash, read, unknown) = choose|
                hash: H256,
                read: DbView,
                unknown: Option<ErrorView>,
            | #[trigger]
                account_code_read(store, seen, address, hash, read, unknown) && step
                    == match unknown {
                    Some(e) => failed(VmView { db: read, ..told }, e),
                    None => VmStep {
                        vm: copied(
                            VmView { db: read, ..told },
                            place(at, n),
                            read.codes[hash].bytecode,
                            from as int,
                            n as int,
                        ),
                        result: Ok(OpcodeResult::Continue),
                    },
                };
            if unknown is None {
                let (loaded, missing) = choose|loaded: DbView, missing: Option<ErrorView>|
                    #[trigger]
                    account_loaded(store, seen, address, loaded, missing) && (match missing {
                        Some(_) => unknown == missing && read == loaded,
                        None => hash == loaded.current[address].info.code_hash && code_loaded(
                            store,
                            loaded,
                            hash,
                            read,
                            unknown,
                        ),
                    });
                assert(account_loaded(store, seen, address, loaded, None));
                lemma_wrote(before.frame.memory, at, read.codes[hash].bytecode, from, n);
                lemma_looked_at(store, told_touched(before, address), told, address, seen);
            }
        }
    }
}

/// The machine after the recorder, where there is one, was told that an address was
/// touched.
pub open spec fn told_touched(vm: VmView, address: Address) -> VmView {
    VmView {
        db: DbView {
            recorder: match vm.db.recorder {
                Some(recorder) => Some(
                    crate::bal::RecorderView {
                        events: recorder.events.push(
                            (recorder.block_access_index, EventView::TouchedAddress(address)),
                        ),
                        ..recorder
                    },
                ),
                None => None,
            },
            ..vm.db
        },
        ..vm
    }
}

} // verus!
