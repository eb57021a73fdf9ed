//! Errors found while a program runs.
use vstd::prelude::*;
use vstd::std_specs::convert::FromSpecImpl;
use crate::interpret::lox_type::LoxType;
use crate::interpret::lox_value::{LoxValue, ValueView};

verus! {

/// A value of one type where another was expected.
#[derive(Debug)]
pub struct LoxTypeMismatch {
    pub found: LoxType,
    pub expected: Vec<LoxType>,
}

/// A value of the wrong type.
#[derive(Debug)]
pub enum LoxTypeError {
    Mismatch(LoxTypeMismatch),
}

/// A variable that cannot be used.
#[derive(Debug)]
pub enum LoxVariableError {
    /// No scope declares the variable.
    Missing(String),
}

/// A call or a return that cannot be made.
#[derive(Debug)]
pub enum LoxFunctionError {
    /// A call with this many arguments of a function with that many
    /// parameters.
    ArgPrmCountMismatch(u32, u32),
    /// A call of a value that is no function.
    NotCallable(LoxValue),
    /// A `return` outside every function.
    NonFnReturn,
}

/// What went wrong at run time.
#[derive(Debug)]
pub enum LoxRuntimeErrorType {
    TypeError(LoxTypeError),
    VariableError(LoxVariableError),
    FunctionError(LoxFunctionError),
}

/// A runtime error and the line it arose on.
#[derive(Debug)]
pub struct LoxRuntimeError {
    pub errorType: LoxRuntimeErrorType,
    pub line: u32,
}

/// The model of a [`LoxRuntimeErrorType`].
pub enum FaultView {
    Mismatch(LoxType, Seq<LoxType>),
    Missing(Seq<char>),
    ArgPrmCountMismatch(u32, u32),
    NotCallable(ValueView),
    NonFnReturn,
}

/// The model of a [`LoxRuntimeError`].
pub struct RuntimeErrorView {
    pub kind: FaultView,
    pub line: u32,
}

impl View for LoxRuntimeErrorType {
    type V = FaultView;

    open spec fn view(&self) -> FaultView {
        match self {
            LoxRuntimeErrorType::TypeError(LoxTypeError::Mismatch(m)) => FaultView::Mismatch(
                m.found,
                m.expected@,
            ),
            LoxRuntimeErrorType::VariableError(LoxVariableError::Missing(n)) => FaultView::Missing(
                n@,
            ),
            LoxRuntimeErrorType::FunctionError(LoxFunctionError::ArgPrmCountMismatch(a, p)) =>
                FaultView::ArgPrmCountMismatch(*a, *p),
            LoxRuntimeErrorType::FunctionError(LoxFunctionError::NotCallable(v)) =>
                FaultView::NotCallable(v@),
            LoxRuntimeErrorType::FunctionError(LoxFunctionError::NonFnReturn) =>
                FaultView::NonFnReturn,
        }
    }
}

impl View for LoxRuntimeError {
    type V = RuntimeErrorView;

    open spec fn view(&self) -> RuntimeErrorView {
        RuntimeErrorView { kind: self.errorType@, line: self.line }
    }
}

impl LoxTypeMismatch {
    /// A mismatch with one expected type.
    pub fn new(found: LoxType, expected: LoxType) -> (m: LoxTypeMismatch)
        ensures
            m.found == found,
            m.expected@ == seq![expected],
    {
        let mut all: Vec<LoxType> = Vec::new();
        all.push(expected);
        assert(all@ =~= seq![expected]);
        LoxTypeMismatch { found, expected: all }
    }

    /// A mismatch with several expected types.
    pub fn newMany(found: LoxType, expected: Vec<LoxType>) -> (m: LoxTypeMismatch)
        ensures
            m.found == found,
            m.expected == expected,
    {
        LoxTypeMismatch { found, expected }
    }
}

impl LoxRuntimeError {
    pub fn new(errorType: LoxRuntimeErrorType, line: u32) -> (e: LoxRuntimeError)
        ensures
            e.errorType == errorType,
            e.line == line,
    {
        LoxRuntimeError { errorType, line }
    }
}

impl From<LoxTypeError> for LoxRuntimeErrorType {
    fn from(typeError: LoxTypeError) -> (r: LoxRuntimeErrorType) {
        LoxRuntimeErrorType::TypeError(typeError)
    }
}

impl FromSpecImpl<LoxTypeError> for LoxRuntimeErrorType {
    open spec fn obeys_from_spec() -> bool {
        true
    }

    open spec fn from_spec(typeError: LoxTypeError) -> LoxRuntimeErrorType {
        LoxRuntimeErrorType::TypeError(typeError)
    }
}

impl From<LoxVariableError> for LoxRuntimeErrorType {
    fn from(variableError: LoxVariableError) -> (r: LoxRuntimeErrorType) {
        LoxRuntimeErrorType::VariableError(variableError)
    }
}

impl FromSpecImpl<LoxVariableError> for LoxRuntimeErrorType {
    open spec fn obeys_from_spec() -> bool {
        true
    }

    open spec fn from_spec(variableError: LoxVariableError) -> LoxRuntimeErrorType {
        LoxRuntimeErrorType::VariableError(variableError)
    }
}

impl From<LoxFunctionError> for LoxRuntimeErrorType {
    fn from(functionError: LoxFunctionError) -> (r: LoxRuntimeErrorType) {
        LoxRuntimeErrorType::FunctionError(functionError)
    }
}

impl FromSpecImpl<LoxFunctionError> for LoxRuntimeErrorType {
    open spec fn obeys_from_spec() -> bool {
        true
    }

    open spec fn from_spec(functionError: LoxFunctionError) -> LoxRuntimeErrorType {
        LoxRuntimeErrorType::FunctionError(functionError)
    }
}

/// The model of a type mismatch on a line.
pub open spec fn mismatch(found: LoxType, expected: Seq<LoxType>, line: u32) -> RuntimeErrorView {
    RuntimeErrorView { kind: FaultView::Mismatch(found, expected), line }
}

} // verus!
