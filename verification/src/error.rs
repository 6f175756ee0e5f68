//! Errors of the virtual machine and its database.

use vstd::prelude::*;
use vstd::string::*;

verus! {

/// What a [`Database`](crate::database::Database) reports when it cannot answer.
#[derive(Debug)]
pub struct DatabaseError {
    pub message: String,
}

/// A fault inside the virtual machine, as opposed to one of the program it runs.
#[derive(Debug)]
pub enum InternalError {
    /// An account that must be cached is not.
    AccountNotFound,
    Overflow,
    Underflow,
    /// The database could not answer.
    Database(DatabaseError),
    /// Anything else, in words.
    Custom(String),
}

/// What a fault says: the words of one count.
#[verifier::ext_equal]
pub enum ErrorView {
    AccountNotFound,
    Overflow,
    Underflow,
    Database(DatabaseError),
    Custom(Seq<char>),
}

impl View for InternalError {
    type V = ErrorView;

    open spec fn view(&self) -> ErrorView {
        match self {
            InternalError::AccountNotFound => ErrorView::AccountNotFound,
            InternalError::Overflow => ErrorView::Overflow,
            InternalError::Underflow => ErrorView::Underflow,
            InternalError::Database(e) => ErrorView::Database(*e),
            InternalError::Custom(why) => ErrorView::Custom(why@),
        }
    }
}

impl ErrorView {
    /// The fault in words.
    pub open spec fn text(self) -> Seq<char> {
        match self {
            ErrorView::AccountNotFound => "Account not found"@,
            ErrorView::Overflow => "Arithmetic operation overflowed"@,
            ErrorView::Underflow => "Arithmetic operation underflowed"@,
            ErrorView::Database(e) => e.message@,
            ErrorView::Custom(why) => why,
        }
    }
}

impl InternalError {
    /// The fault in words.
    pub fn to_text(&self) -> (text: String)
        ensures
            text@ == self@.text(),
    {
        match self {
            InternalError::AccountNotFound => "Account not found".to_owned(),
            InternalError::Overflow => "Arithmetic operation overflowed".to_owned(),
            InternalError::Underflow => "Arithmetic operation underflowed".to_owned(),
            InternalError::Database(e) => e.message.as_str().to_owned(),
            InternalError::Custom(why) => why.as_str().to_owned(),
        }
    }

    /// A fault that is told in words.
    pub fn msg(why: &str) -> (e: InternalError)
        ensures
            e@ == ErrorView::Custom(why@),
    {
        InternalError::Custom(why.to_owned())
    }

    /// The fault with words in front that say what was being done.
    pub fn during(&self, what: &str) -> (e: InternalError)
        ensures
            e@ == ErrorView::Custom(what@ + self@.text()),
    {
        let mut why = what.to_owned();
        why.append(self.to_text().as_str());
        InternalError::Custom(why)
    }
}

/// Why a program is stopped, its gas forfeit.
#[derive(Debug, Copy, Clone, PartialEq, Eq, Structural)]
pub enum ExceptionalHalt {
    StackUnderflow,
    StackOverflow,
    OutOfGas,
    OutOfBounds,
    VeryLargeNumber,
}

/// Why a validation trace of a frame transaction is refused.
#[derive(Debug, Copy, Clone, PartialEq, Eq, Structural)]
pub enum TraceViolation {
    /// The code of an account that does not exist was inspected.
    MissingTarget,
    /// The code of an account that delegates to another was inspected.
    DelegatedTarget,
}

#[derive(Debug)]
pub enum VMError {
    Internal(InternalError),
    ExceptionalHalt(ExceptionalHalt),
    Trace(TraceViolation),
}

/// What an error of the virtual machine says.
#[verifier::ext_equal]
pub enum VmErrorView {
    Internal(ErrorView),
    ExceptionalHalt(ExceptionalHalt),
    Trace(TraceViolation),
}

impl View for VMError {
    type V = VmErrorView;

    open spec fn view(&self) -> VmErrorView {
        match self {
            VMError::Internal(e) => VmErrorView::Internal(e@),
            VMError::ExceptionalHalt(halt) => VmErrorView::ExceptionalHalt(*halt),
            VMError::Trace(violation) => VmErrorView::Trace(*violation),
        }
    }
}

/// A result with what its error says.
pub open spec fn reported<T>(r: Result<T, VMError>) -> Result<T, VmErrorView> {
    match r {
        Ok(x) => Ok(x),
        Err(e) => Err(e@),
    }
}

/// What an instruction tells the interpreter to do next.
#[derive(Debug, Copy, Clone, PartialEq, Eq, Structural)]
pub enum OpcodeResult {
    Continue,
    Halt,
}

} // verus!
