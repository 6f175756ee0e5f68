//! Errors of the chain, and the text that they are reported with.

use vstd::prelude::*;
use vstd::string::*;

verus! {

/// Why a transaction cannot be executed at all.
#[derive(Debug)]
pub enum TxValidationError {
    InsufficientAccountFunds,
    NonceMismatch { expected: u64, actual: u64 },
}

/// What the virtual machine reports to the chain.
#[derive(Debug)]
pub enum EvmError {
    /// A transaction that cannot be executed, in words.
    Transaction(String),
    /// The database could not answer, in words.
    DB(String),
    Custom(String),
}

/// Why a block is invalid.
#[derive(Debug)]
pub enum InvalidBlockError {
    InvalidTransaction(String),
    StateRootMismatch,
    BlockAccessListHashMismatch,
    BlockAccessListMissing,
    InvalidBody(String),
    /// A transaction of a kind that this chain does not know.
    UnsupportedTransactionType(u8),
    /// Another rule of a block is broken, in words.
    Rule(String),
}

#[derive(Debug)]
pub enum ChainError {
    InvalidBlock(InvalidBlockError),
    ParentNotFound,
    ParentStateNotFound,
    StoreError(String),
    EvmError(EvmError),
    WitnessGeneration(String),
    UnknownPayload,
    Custom(String),
}

/// The character of a decimal digit.
pub open spec fn digit(d: int) -> char {
    (48 + d) as char
}

/// The decimal digits of a number.
pub open spec fn decimal(n: nat) -> Seq<char>
    decreases n,
{
    if n < 10 {
        seq![digit(n as int)]
    } else {
        decimal(n / 10).push(digit((n % 10) as int))
    }
}

fn digit_text(d: u64) -> (text: &'static str)
    requires
        d < 10,
    ensures
        text@ == seq![digit(d as int)],
{
    proof {
        reveal_strlit("0");
        reveal_strlit("1");
        reveal_strlit("2");
        reveal_strlit("3");
        reveal_strlit("4");
        reveal_strlit("5");
        reveal_strlit("6");
        reveal_strlit("7");
        reveal_strlit("8");
        reveal_strlit("9");
    }
    let text = match d {
        0 => "0",
        1 => "1",
        2 => "2",
        3 => "3",
        4 => "4",
        5 => "5",
        6 => "6",
        7 => "7",
        8 => "8",
        _ => "9",
    };
    assert(text@ =~= seq![digit(d as int)]);
    text
}

/// A number in decimal digits.
pub fn decimal_text(n: u64) -> (text: String)
    ensures
        text@ == decimal(n as nat),
    decreases n,
{
    if n < 10 {
        digit_text(n).to_owned()
    } else {
        let mut text = decimal_text(n / 10);
        text.append(digit_text(n % 10));
        assert(text@ =~= decimal(n as nat));
        text
    }
}

impl TxValidationError {
    pub open spec fn text(&self) -> Seq<char> {
        match self {
            TxValidationError::InsufficientAccountFunds => "Insufficient account funds"@,
            TxValidationError::NonceMismatch { expected, actual } => "Nonce mismatch: expected "@
                + decimal(*expected as nat) + ", got "@ + decimal(*actual as nat),
        }
    }

    /// The error in words.
    pub fn to_text(&self) -> (text: String)
        ensures
            text@ == self.text(),
    {
        match self {
            TxValidationError::InsufficientAccountFunds => "Insufficient account funds".to_owned(),
            TxValidationError::NonceMismatch { expected, actual } => {
                let mut text = "Nonce mismatch: expected ".to_owned();
                text.append(decimal_text(*expected).as_str());
                text.append(", got ");
                text.append(decimal_text(*actual).as_str());
                text
            },
        }
    }
}

impl EvmError {
    pub open spec fn text(&self) -> Seq<char> {
        match self {
            EvmError::Transaction(why) => "Invalid Transaction: "@ + why@,
            EvmError::DB(why) => "DB error: "@ + why@,
            EvmError::Custom(why) => why@,
        }
    }

    /// The error in words.
    pub fn to_text(&self) -> (text: String)
        ensures
            text@ == self.text(),
    {
        match self {
            EvmError::Transaction(why) => prefixed("Invalid Transaction: ", why.as_str()),
            EvmError::DB(why) => prefixed("DB error: ", why.as_str()),
            EvmError::Custom(why) => why.as_str().to_owned(),
        }
    }

    /// What the chain is told of a transaction that cannot be executed.
    pub fn from_validation(error: &TxValidationError) -> (e: EvmError)
        ensures
            e matches EvmError::Transaction(why) && why@ == error.text(),
    {
        EvmError::Transaction(error.to_text())
    }
}

fn prefixed(prefix: &str, text: &str) -> (whole: String)
    ensures
        whole@ == prefix@ + text@,
{
    let mut whole = prefix.to_owned();
    whole.append(text);
    whole
}

impl InvalidBlockError {
    pub open spec fn text(&self) -> Seq<char> {
        match self {
            InvalidBlockError::InvalidTransaction(why) => "Invalid Transaction: "@ + why@,
            InvalidBlockError::StateRootMismatch => {
                "World State Root does not match the one in the header after executing"@
            },
            InvalidBlockError::BlockAccessListHashMismatch => {
                "Block access list hash does not match the one in the header after executing"@
            },
            InvalidBlockError::BlockAccessListMissing => {
                "Block access list missing while the header commits to one"@
            },
            InvalidBlockError::InvalidBody(why) => "Invalid Body: "@ + why@,
            InvalidBlockError::UnsupportedTransactionType(kind) => {
                "Unsupported transaction type: "@ + decimal(*kind as nat)
            },
            InvalidBlockError::Rule(why) => why@,
        }
    }

    /// The error in words.
    pub fn to_text(&self) -> (text: String)
        ensures
            text@ == self.text(),
    {
        match self {
            InvalidBlockError::InvalidTransaction(why) => prefixed(
                "Invalid Transaction: ",
                why.as_str(),
            ),
            InvalidBlockError::StateRootMismatch => {
                "World State Root does not match the one in the header after executing".to_owned()
            },
            InvalidBlockError::BlockAccessListHashMismatch => {
                "Block access list hash does not match the one in the header after executing"
                .to_owned()
            },
            InvalidBlockError::BlockAccessListMissing => {
                "Block access list missing while the header commits to one".to_owned()
            },
            InvalidBlockError::InvalidBody(why) => prefixed("Invalid Body: ", why.as_str()),
            InvalidBlockError::UnsupportedTransactionType(kind) => prefixed(
                "Unsupported transaction type: ",
                decimal_text(*kind as u64).as_str(),
            ),
            InvalidBlockError::Rule(why) => why.as_str().to_owned(),
        }
    }
}

impl ChainError {
    pub open spec fn text(&self) -> Seq<char> {
        match self {
            ChainError::InvalidBlock(why) => "Invalid Block: "@ + why.text(),
            ChainError::ParentNotFound => "Parent block not found"@,
            ChainError::ParentStateNotFound => "Parent state not found"@,
            ChainError::StoreError(why) => "DB error: "@ + why@,
            ChainError::EvmError(why) => "EVM error: "@ + why.text(),
            ChainError::WitnessGeneration(why) => "Witness Generation Error: "@ + why@,
            ChainError::UnknownPayload => "Unknown Payload"@,
            ChainError::Custom(why) => why@,
        }
    }

    /// The error in words.
    pub fn to_text(&self) -> (text: String)
        ensures
            text@ == self.text(),
    {
        match self {
            ChainError::InvalidBlock(why) => prefixed("Invalid Block: ", why.to_text().as_str()),
            ChainError::ParentNotFound => "Parent block not found".to_owned(),
            ChainError::ParentStateNotFound => "Parent state not found".to_owned(),
            ChainError::StoreError(why) => prefixed("DB error: ", why.as_str()),
            ChainError::EvmError(why) => prefixed("EVM error: ", why.to_text().as_str()),
            ChainError::WitnessGeneration(why) => prefixed(
                "Witness Generation Error: ",
                why.as_str(),
            ),
            ChainError::UnknownPayload => "Unknown Payload".to_owned(),
            ChainError::Custom(why) => why.as_str().to_owned(),
        }
    }

    /// A report of the virtual machine as an error of the chain: a transaction that
    /// cannot be executed makes its block invalid.
    pub fn from_evm(error: EvmError) -> (e: ChainError)
        ensures
            e == match error {
                EvmError::Transaction(why) => ChainError::InvalidBlock(
                    InvalidBlockError::InvalidTransaction(why),
                ),
                other => ChainError::EvmError(other),
            },
    {
        match error {
            EvmError::Transaction(why) => ChainError::InvalidBlock(
                InvalidBlockError::InvalidTransaction(why),
            ),
            other => ChainError::EvmError(other),
        }
    }
}

/// `needle` stands in `text`, at `at`.
pub open spec fn stands_at(text: Seq<char>, needle: Seq<char>, at: int) -> bool {
    0 <= at && at + needle.len() <= text.len() && text.subrange(at, at + needle.len()) == needle
}

/// `needle` stands somewhere in `text`.
pub open spec fn contains_text(text: Seq<char>, needle: Seq<char>) -> bool {
    exists|at: int| stands_at(text, needle, at)
}

fn stands_here(text: &str, needle: &str, at: usize) -> (b: bool)
    requires
        at + needle@.len() <= text@.len(),
        text@.len() <= usize::MAX,
    ensures
        b == stands_at(text@, needle@, at as int),
{
    let n: usize = needle.unicode_len();
    let mut i: usize = 0;
    while i < n
        invariant
            n == needle@.len(),
            i <= n,
            at + n <= text@.len(),
            text@.len() <= usize::MAX,
            forall|j: int| 0 <= j < i ==> text@[at + j] == #[trigger] needle@[j],
        decreases n - i,
    {
        if text.get_char(at + i) != needle.get_char(i) {
            proof {
                if stands_at(text@, needle@, at as int) {
                    assert(text@.subrange(at as int, at + n)[i as int] == needle@[i as int]);
                }
            }
            return false;
        }
        i += 1;
    }
    assert(text@.subrange(at as int, at + n) =~= needle@);
    true
}

/// Whether `needle` stands somewhere in `text`.
pub fn has_text(text: &str, needle: &str) -> (b: bool)
    ensures
        b == contains_text(text@, needle@),
{
    let len: usize = text.unicode_len();
    let n: usize = needle.unicode_len();
    if n > len {
        return false;
    }
    let mut at: usize = 0;
    while at <= len - n
        invariant
            len == text@.len(),
            n == needle@.len(),
            n <= len,
            at <= len - n + 1,
            forall|i: int| 0 <= i < at ==> !#[trigger] stands_at(text@, needle@, i),
        decreases len - n + 1 - at,
    {
        if stands_here(text, needle, at) {
            return true;
        }
        if at == len - n {
            proof {
                assert forall|i: int| !stands_at(text@, needle@, i) by {
                    if stands_at(text@, needle@, i) && i < at {
                        assert(!stands_at(text@, needle@, i));
                    }
                }
            }
            return false;
        }
        at += 1;
    }
    false
}

/// Whether an error says that the nonce of a transaction does not match that of its
/// sender. Such an error passes: the transaction becomes valid once the ones before it
/// are included.
pub fn is_nonce_mismatch(e: &ChainError) -> (b: bool)
    ensures
        b == contains_text(e.text(), "Nonce mismatch"@),
{
    let text = e.to_text();
    has_text(text.as_str(), "Nonce mismatch")
}

/// A nonce mismatch that the virtual machine reports is told from its text.
pub proof fn law_reported_nonce_mismatch_is_found(
    error: TxValidationError,
    reported: ChainError,
)
    requires
        error is NonceMismatch,
        reported matches ChainError::InvalidBlock(InvalidBlockError::InvalidTransaction(why))
            && why@ == error.text(),
    ensures
        contains_text(reported.text(), "Nonce mismatch"@),
{
    reveal_strlit("Nonce mismatch");
    reveal_strlit("Nonce mismatch: expected ");
    reveal_strlit("Invalid Transaction: ");
    reveal_strlit("Invalid Block: ");
    let text = reported.text();
    let at = ("Invalid Block: "@.len() + "Invalid Transaction: "@.len()) as int;
    assert(text.subrange(at, at + 14) =~= "Nonce mismatch"@);
    assert(stands_at(text, "Nonce mismatch"@, at));
}

} // verus!
