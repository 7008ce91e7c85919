use vstd::prelude::*;

verus! {

/// Errors caused by a malformed or misused user contract.
#[derive(PartialEq, Eq, Debug)]
pub enum UncheckedError {
    UndefinedFunction(String),
    NonPublicFunction(String),
    UndefinedContract(String),
    ContractMustReturnBoolean,
}

/// Errors raised while running a well-formed contract.
#[derive(PartialEq, Eq, Debug)]
pub enum RuntimeErrorType {
    ArithmeticOverflow,
    ParseError(String),
    MaxContextDepthReached,
}

/// Violations of the interpreter's own invariants.
#[derive(PartialEq, Eq, Debug)]
pub enum InterpreterError {
    InterpreterError(String),
    FailedToConstructAssetTable,
}

#[derive(PartialEq, Eq, Debug)]
pub enum Error {
    Unchecked(UncheckedError),
    Runtime(RuntimeErrorType),
    Interpreter(InterpreterError),
}

impl Error {
    pub open spec fn is_overflow(&self) -> bool {
        *self == Error::Runtime(RuntimeErrorType::ArithmeticOverflow)
    }
}

} // verus!
