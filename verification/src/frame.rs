//! Call frames: gas, stack, memory and the data that a running program sees.

use crate::account::{Code, CodeView};
use crate::backup::{BackupView, CallFrameBackup};
use crate::error::{ExceptionalHalt, VMError};
use crate::word::{Address, U256};
use vstd::prelude::*;

verus! {

/// How many words a stack holds at most.
pub const STACK_LIMIT: usize = 1024;

/// A stack of words. The last word of the view is on top.
pub struct Stack {
    pub words: Vec<U256>,
}

impl View for Stack {
    type V = Seq<U256>;

    open spec fn view(&self) -> Seq<U256> {
        self.words@
    }
}

/// The words below the topmost `n`.
pub open spec fn below(stack: Seq<U256>, n: int) -> Seq<U256> {
    stack.take(stack.len() - n)
}

/// The word under the topmost `n`.
pub open spec fn nth(stack: Seq<U256>, n: int) -> U256 {
    stack[stack.len() - 1 - n]
}

impl Stack {
    pub fn new() -> (s: Stack)
        ensures
            s@ == Seq::<U256>::empty(),
    {
        Stack { words: Vec::new() }
    }

    /// Puts a word on top.
    pub fn push(&mut self, word: U256) -> (r: Result<(), ExceptionalHalt>)
        ensures
            match r {
                Ok(_) => old(self)@.len() < STACK_LIMIT && final(self)@ == old(self)@.push(word),
                Err(e) => old(self)@.len() >= STACK_LIMIT && e == ExceptionalHalt::StackOverflow
                    && final(self)@ == old(self)@,
            },
    {
        if self.words.len() >= STACK_LIMIT {
            return Err(ExceptionalHalt::StackOverflow);
        }
        self.words.push(word);
        Ok(())
    }

    /// Takes the topmost word.
    pub fn pop1(&mut self) -> (r: Result<U256, ExceptionalHalt>)
        ensures
            match r {
                Ok(word) => old(self)@.len() >= 1 && word == nth(old(self)@, 0) && final(self)@
                    == below(old(self)@, 1),
                Err(e) => old(self)@.len() < 1 && e == ExceptionalHalt::StackUnderflow
                    && final(self)@ == old(self)@,
            },
    {
        match self.words.pop() {
            Some(word) => {
                assert(self@ =~= below(old(self)@, 1));
                Ok(word)
            },
            None => Err(ExceptionalHalt::StackUnderflow),
        }
    }

    /// Takes the topmost three words, the topmost first, or none of them.
    pub fn pop3(&mut self) -> (r: Result<(U256, U256, U256), ExceptionalHalt>)
        ensures
            match r {
                Ok(words) => old(self)@.len() >= 3 && words == (
                    nth(old(self)@, 0),
                    nth(old(self)@, 1),
                    nth(old(self)@, 2),
                ) && final(self)@ == below(old(self)@, 3),
                Err(e) => old(self)@.len() < 3 && e == ExceptionalHalt::StackUnderflow
                    && final(self)@ == old(self)@,
            },
    {
        let n: usize = self.words.len();
        if n < 3 {
            return Err(ExceptionalHalt::StackUnderflow);
        }
        let words = (self.words[n - 1], self.words[n - 2], self.words[n - 3]);
        self.words.truncate(n - 3);
        Ok(words)
    }

    /// Takes the topmost four words, the topmost first, or none of them.
    pub fn pop4(&mut self) -> (r: Result<(U256, U256, U256, U256), ExceptionalHalt>)
        ensures
            match r {
                Ok(words) => old(self)@.len() >= 4 && words == (
                    nth(old(self)@, 0),
                    nth(old(self)@, 1),
                    nth(old(self)@, 2),
                    nth(old(self)@, 3),
                ) && final(self)@ == below(old(self)@, 4),
                Err(e) => old(self)@.len() < 4 && e == ExceptionalHalt::StackUnderflow
                    && final(self)@ == old(self)@,
            },
    {
        let n: usize = self.words.len();
        if n < 4 {
            return Err(ExceptionalHalt::StackUnderflow);
        }
        let words = (self.words[n - 1], self.words[n - 2], self.words[n - 3], self.words[n - 4]);
        self.words.truncate(n - 4);
        Ok(words)
    }
}

/// `n` rounded up to whole words of memory.
pub open spec fn whole_words(n: int) -> int {
    (n + 31) / 32 * 32
}

/// The size that memory must have before `len` bytes can be written at `offset`:
/// nothing for no bytes.
pub open spec fn memory_size(offset: int, len: int) -> int {
    if len == 0 {
        0
    } else {
        whole_words(offset + len)
    }
}

/// The size that memory must have before `size` bytes can be written at `offset`.
pub fn calculate_memory_size(offset: usize, size: usize) -> (r: Result<usize, VMError>)
    ensures
        match r {
            Ok(n) => n == memory_size(offset as int, size as int),
            Err(e) => memory_size(offset as int, size as int) > usize::MAX && e
                == VMError::ExceptionalHalt(ExceptionalHalt::OutOfBounds),
        },
{
    if size == 0 {
        return Ok(0);
    }
    let end: usize = match offset.checked_add(size) {
        Some(end) => end,
        None => {
            return Err(VMError::ExceptionalHalt(ExceptionalHalt::OutOfBounds));
        },
    };
    let rest: usize = end % 32;
    if rest == 0 {
        return Ok(end);
    }
    match end.checked_add(32 - rest) {
        Some(n) => Ok(n),
        None => Err(VMError::ExceptionalHalt(ExceptionalHalt::OutOfBounds)),
    }
}

/// The memory of a call frame. It grows by whole words.
pub struct Memory {
    pub bytes: Vec<u8>,
}

impl View for Memory {
    type V = Seq<u8>;

    open spec fn view(&self) -> Seq<u8> {
        self.bytes@
    }
}

/// `memory` filled up with zeros to `size` bytes, where it is shorter.
pub open spec fn grown(memory: Seq<u8>, size: int) -> Seq<u8> {
    if size <= memory.len() {
        memory
    } else {
        memory + Seq::new((size - memory.len()) as nat, |i: int| 0u8)
    }
}

/// Memory after `data` was written at `offset`.
pub open spec fn stored(memory: Seq<u8>, offset: int, data: Seq<u8>) -> Seq<u8> {
    if data.len() == 0 {
        memory
    } else {
        let room = grown(memory, memory_size(offset, data.len() as int));
        Seq::new(
            room.len(),
            |i: int|
                if offset <= i < offset + data.len() {
                    data[i - offset]
                } else {
                    room[i]
                },
        )
    }
}

/// The `len` bytes of `source` from `from` on, with zeros where it has ended.
pub open spec fn padded(source: Seq<u8>, from: int, len: int) -> Seq<u8> {
    Seq::new(
        len as nat,
        |i: int|
            if from + i < source.len() {
                source[from + i]
            } else {
                0u8
            },
    )
}

/// The bytes of `source` from `from` on, `len` of them at most.
pub open spec fn available(source: Seq<u8>, from: int, len: int) -> Seq<u8> {
    if from >= source.len() {
        Seq::empty()
    } else if source.len() - from <= len {
        source.skip(from)
    } else {
        source.subrange(from, from + len)
    }
}

/// Writing what is available and then zeros for the rest writes the padded bytes.
pub proof fn law_store_then_zeros_is_padded(
    memory: Seq<u8>,
    offset: int,
    source: Seq<u8>,
    from: int,
    len: int,
)
    requires
        0 <= offset,
        0 <= from,
        0 < len,
    ensures
        ({
            let data = available(source, from, len);
            stored(
                stored(memory, offset, data),
                offset + data.len(),
                Seq::new((len - data.len()) as nat, |i: int| 0u8),
            ) == stored(memory, offset, padded(source, from, len))
        }),
{
    let data = available(source, from, len);
    let zeros = Seq::new((len - data.len()) as nat, |i: int| 0u8);
    let first = stored(memory, offset, data);
    let both = stored(first, offset + data.len(), zeros);
    let whole = stored(memory, offset, padded(source, from, len));
    assert(both.len() == whole.len());
    assert(both =~= whole);
}

impl Memory {
    pub fn new() -> (m: Memory)
        ensures
            m@ == Seq::<u8>::empty(),
    {
        Memory { bytes: Vec::new() }
    }

    pub fn len(&self) -> (n: usize)
        ensures
            n == self@.len(),
    {
        self.bytes.len()
    }

    fn grow(&mut self, size: usize)
        ensures
            final(self)@ == grown(old(self)@, size as int),
    {
        let ghost start = self@;
        while self.bytes.len() < size
            invariant
                start.len() <= self@.len(),
                self@.len() <= size || self@ == start,
                self@ =~= grown(start, self@.len() as int),
            decreases size - self@.len(),
        {
            self.bytes.push(0);
        }
    }

    /// Writes `data` at `offset`.
    pub fn store_data(&mut self, offset: usize, data: &[u8])
        requires
            memory_size(offset as int, data@.len() as int) <= usize::MAX,
        ensures
            final(self)@ == stored(old(self)@, offset as int, data@),
    {
        if data.len() == 0 {
            return ;
        }
        let end: usize = offset + data.len();
        let rest: usize = end % 32;
        let size: usize = if rest == 0 {
            end
        } else {
            end + (32 - rest)
        };
        self.grow(size);
        let ghost room = self@;
        let total: usize = self.bytes.len();
        let mut i: usize = 0;
        while i < data.len()
            invariant
                i <= data@.len(),
                offset + data@.len() <= room.len(),
                self@.len() == room.len(),
                room.len() == total,
                forall|j: int|
                    0 <= j < room.len() ==> #[trigger] self@[j] == if offset <= j < offset + i {
                        data@[j - offset]
                    } else {
                        room[j]
                    },
            decreases data@.len() - i,
        {
            self.bytes[offset + i] = data[i];
            i += 1;
        }
        assert(self@ =~= stored(old(self)@, offset as int, data@));
    }

    /// Writes `size` zeros at `offset`.
    pub fn store_zeros(&mut self, offset: usize, size: usize)
        requires
            memory_size(offset as int, size as int) <= usize::MAX,
        ensures
            final(self)@ == stored(old(self)@, offset as int, Seq::new(size as nat, |i: int| 0u8)),
    {
        if size == 0 {
            return ;
        }
        let end: usize = offset + size;
        let rest: usize = end % 32;
        let full: usize = if rest == 0 {
            end
        } else {
            end + (32 - rest)
        };
        self.grow(full);
        let ghost room = self@;
        let total: usize = self.bytes.len();
        let mut i: usize = 0;
        while i < size
            invariant
                i <= size,
                offset + size <= room.len(),
                self@.len() == room.len(),
                room.len() == total,
                forall|j: int|
                    0 <= j < room.len() ==> #[trigger] self@[j] == if offset <= j < offset + i {
                        0u8
                    } else {
                        room[j]
                    },
            decreases size - i,
        {
            self.bytes[offset + i] = 0;
            i += 1;
        }
        assert(self@ =~= stored(old(self)@, offset as int, Seq::new(size as nat, |i: int| 0u8)));
    }

    /// Writes the `len` bytes of `source` from `from` on at `offset`, with zeros where
    /// the source has ended.
    pub fn copy_padded(&mut self, offset: usize, source: &[u8], from: usize, len: usize)
        requires
            memory_size(offset as int, len as int) <= usize::MAX,
        ensures
            final(self)@ == stored(
                old(self)@,
                offset as int,
                padded(source@, from as int, len as int),
            ),
    {
        if len == 0 {
            return ;
        }
        let data = if from >= source.len() {
            vstd::slice::slice_subrange(source, source.len(), source.len())
        } else if source.len() - from <= len {
            vstd::slice::slice_subrange(source, from, source.len())
        } else {
            vstd::slice::slice_subrange(source, from, from + len)
        };
        proof {
            assert(data@ =~= available(source@, from as int, len as int));
            law_store_then_zeros_is_padded(
                old(self)@,
                offset as int,
                source@,
                from as int,
                len as int,
            );
        }
        self.store_data(offset, data);
        self.store_zeros(offset + data.len(), len - data.len());
    }
}

/// One call of a program.
pub struct CallFrame {
    pub gas_remaining: u64,
    pub stack: Stack,
    pub memory: Memory,
    pub calldata: Vec<u8>,
    pub bytecode: Code,
    /// What the last call that this frame made returned.
    pub sub_return_data: Vec<u8>,
    /// The account whose program runs.
    pub to: Address,
    pub msg_sender: Address,
    pub msg_value: U256,
    pub call_frame_backup: CallFrameBackup,
}

/// What a call frame holds.
#[verifier::ext_equal]
pub struct FrameView {
    pub gas: u64,
    pub stack: Seq<U256>,
    pub memory: Seq<u8>,
    pub calldata: Seq<u8>,
    pub bytecode: CodeView,
    pub sub_return_data: Seq<u8>,
    pub to: Address,
    pub msg_sender: Address,
    pub msg_value: U256,
    pub backup: BackupView,
}

impl View for CallFrame {
    type V = FrameView;

    open spec fn view(&self) -> FrameView {
        FrameView {
            gas: self.gas_remaining,
            stack: self.stack@,
            memory: self.memory@,
            calldata: self.calldata@,
            bytecode: self.bytecode@,
            sub_return_data: self.sub_return_data@,
            to: self.to,
            msg_sender: self.msg_sender,
            msg_value: self.msg_value,
            backup: self.call_frame_backup@,
        }
    }
}

impl CallFrame {
    /// Charges gas.
    pub fn increase_consumed_gas(&mut self, gas: u64) -> (r: Result<(), ExceptionalHalt>)
        ensures
            match r {
                Ok(_) => old(self)@.gas >= gas && final(self)@ == (FrameView {
                    gas: (old(self)@.gas - gas) as u64,
                    ..old(self)@
                }),
                Err(e) => old(self)@.gas < gas && e == ExceptionalHalt::OutOfGas && final(self)@
                    == old(self)@,
            },
    {
        if self.gas_remaining < gas {
            return Err(ExceptionalHalt::OutOfGas);
        }
        self.gas_remaining = self.gas_remaining - gas;
        Ok(())
    }
}

} // verus!
