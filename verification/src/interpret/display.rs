//! The display forms of values, types and runtime errors.
use vstd::prelude::*;
use vstd::string::StringExecFns;
use crate::interpret::lox_type::{LoxCallee, LoxType};
use crate::interpret::lox_value::{LoxFn, LoxValue, ValueView, lemma_parameters};
use crate::interpret::runtime_error::{FaultView, LoxFunctionError, LoxRuntimeError,
    LoxRuntimeErrorType, LoxTypeError, LoxTypeMismatch, LoxVariableError, RuntimeErrorView};
use crate::interpret::semantics::shown;
use crate::text::{append_decimal, decimal};

verus! {

/// The name of a type. A function's type shows its arity.
pub open spec fn type_text(t: LoxType) -> Seq<char> {
    match t {
        LoxType::Function(n) => "Function with arity "@ + decimal(n as nat),
        LoxType::Num => "Num"@,
        LoxType::Str => "Str"@,
        LoxType::Bool => "Bool"@,
        LoxType::Nil => "Nil"@,
    }
}

/// The names of the first `n` types; each after the first follows the
/// word `or`.
pub open spec fn types_text(ts: Seq<LoxType>, n: nat) -> Seq<char>
    decreases n,
{
    if n == 0 || n > ts.len() {
        Seq::empty()
    } else if n == 1 {
        type_text(ts[0])
    } else {
        types_text(ts, (n - 1) as nat) + "or "@ + type_text(ts[n - 1])
    }
}

/// `Expected <types>, but found <type>`
pub open spec fn mismatch_text(found: LoxType, expected: Seq<LoxType>) -> Seq<char> {
    "Expected "@ + types_text(expected, expected.len()) + ", but found "@ + type_text(found)
}

/// The display form of a value, where `number` is the decimal text of the
/// value if it is a number.
pub open spec fn value_text(v: ValueView, number: Seq<char>) -> Seq<char> {
    match v {
        ValueView::Num(_) => number,
        _ => shown(v),
    }
}

/// The number whose decimal text the message of an error shows, if it
/// shows one: the number that was called as if it were a function.
pub open spec fn number_of(k: FaultView) -> Option<u64> {
    match k {
        FaultView::NotCallable(ValueView::Num(n)) => Some(n),
        _ => None,
    }
}

/// The message of a runtime error, where `number` is the decimal text of
/// the number that the message shows, if it shows one.
pub open spec fn fault_text_with(k: FaultView, number: Seq<char>) -> Seq<char> {
    match k {
        FaultView::Mismatch(found, expected) => mismatch_text(found, expected),
        FaultView::Missing(name) => "Variable "@ + name + " does not exist"@,
        FaultView::ArgPrmCountMismatch(a, p) => "Expected "@ + decimal(a as nat)
            + " arguments but found "@ + decimal(p as nat),
        FaultView::NotCallable(v) => "Expression "@ + value_text(v, number) + " is not callable"@,
        FaultView::NonFnReturn => "Cannot return from outside a function"@,
    }
}

/// The message of a runtime error that shows no number.
pub open spec fn fault_text(k: FaultView) -> Option<Seq<char>> {
    if number_of(k) is Some {
        None
    } else {
        Some(fault_text_with(k, Seq::empty()))
    }
}

/// `Error on line <line>: <message>`
pub open spec fn runtime_error_text_with(e: RuntimeErrorView, number: Seq<char>) -> Seq<char> {
    "Error on line "@ + decimal(e.line as nat) + ": "@ + fault_text_with(e.kind, number)
}

/// The text of a runtime error that shows no number.
pub open spec fn runtime_error_text(e: RuntimeErrorView) -> Option<Seq<char>> {
    if number_of(e.kind) is Some {
        None
    } else {
        Some(runtime_error_text_with(e, Seq::empty()))
    }
}

impl LoxType {
    pub fn to_string(&self) -> (s: String)
        ensures
            s@ == type_text(*self),
    {
        match self {
            LoxType::Function(c) => {
                let mut s = String::from_str("Function with arity ");
                append_decimal(&mut s, *c);
                s
            },
            LoxType::Num => String::from_str("Num"),
            LoxType::Str => String::from_str("Str"),
            LoxType::Bool => String::from_str("Bool"),
            LoxType::Nil => String::from_str("Nil"),
        }
    }
}

impl LoxTypeMismatch {
    pub fn to_string(&self) -> (s: String)
        ensures
            s@ == mismatch_text(self.found, self.expected@),
    {
        let mut s = String::from_str("Expected ");
        let mut i: usize = 0;
        while i < self.expected.len()
            invariant
                i <= self.expected@.len(),
                s@ == "Expected "@ + types_text(self.expected@, i as nat),
            decreases self.expected@.len() - i,
        {
            if i > 0 {
                s.append("or ");
            }
            s.append(self.expected[i].to_string().as_str());
            i += 1;
            assert(s@ =~= "Expected "@ + types_text(self.expected@, i as nat));
        }
        s.append(", but found ");
        s.append(self.found.to_string().as_str());
        s
    }
}

impl LoxTypeError {
    pub fn to_string(&self) -> (s: String)
        ensures
            Some(s@) == fault_text(LoxRuntimeErrorType::TypeError(*self)@),
    {
        match self {
            LoxTypeError::Mismatch(m) => m.to_string(),
        }
    }
}

impl LoxVariableError {
    pub fn to_string(&self) -> (s: String)
        ensures
            Some(s@) == fault_text(LoxRuntimeErrorType::VariableError(*self)@),
    {
        match self {
            LoxVariableError::Missing(m) => {
                let mut s = String::from_str("Variable ");
                s.append(m.as_str());
                s.append(" does not exist");
                s
            },
        }
    }
}

impl LoxFunctionError {
    /// The number whose decimal text the message shows, if it shows one.
    pub fn number(&self) -> (r: Option<u64>)
        ensures
            r == number_of(LoxRuntimeErrorType::FunctionError(*self)@),
    {
        match self {
            LoxFunctionError::NotCallable(LoxValue::Num(n)) => Some(*n),
            _ => None,
        }
    }

    /// The message, where `number` is the decimal text of the number that
    /// the message shows, if it shows one.
    pub fn to_string_with(&self, number: &str) -> (s: String)
        ensures
            s@ == fault_text_with(LoxRuntimeErrorType::FunctionError(*self)@, number@),
    {
        match self {
            LoxFunctionError::ArgPrmCountMismatch(a, p) => {
                let mut s = String::from_str("Expected ");
                append_decimal(&mut s, *a);
                s.append(" arguments but found ");
                append_decimal(&mut s, *p);
                s
            },
            LoxFunctionError::NotCallable(e) => {
                let mut s = String::from_str("Expression ");
                s.append(e.to_string_with(number).as_str());
                s.append(" is not callable");
                s
            },
            LoxFunctionError::NonFnReturn => String::from_str(
                "Cannot return from outside a function",
            ),
        }
    }

    /// The message, unless it shows a number.
    pub fn to_string(&self) -> (r: Option<String>)
        ensures
            match r {
                Some(s) => fault_text(LoxRuntimeErrorType::FunctionError(*self)@) == Some(s@),
                None => fault_text(LoxRuntimeErrorType::FunctionError(*self)@) is None,
            },
    {
        match self.number() {
            Some(_) => None,
            None => Some(self.to_string_with("")),
        }
    }
}

impl LoxRuntimeErrorType {
    /// The number whose decimal text the message shows, if it shows one.
    pub fn number(&self) -> (r: Option<u64>)
        ensures
            r == number_of(self@),
    {
        match self {
            LoxRuntimeErrorType::FunctionError(e) => e.number(),
            _ => None,
        }
    }

    /// The message, where `number` is the decimal text of the number that
    /// the message shows, if it shows one.
    pub fn to_string_with(&self, number: &str) -> (s: String)
        ensures
            s@ == fault_text_with(self@, number@),
    {
        match self {
            LoxRuntimeErrorType::VariableError(e) => e.to_string(),
            LoxRuntimeErrorType::TypeError(e) => e.to_string(),
            LoxRuntimeErrorType::FunctionError(e) => e.to_string_with(number),
        }
    }

    /// The message, unless it shows a number.
    pub fn to_string(&self) -> (r: Option<String>)
        ensures
            match r {
                Some(s) => fault_text(self@) == Some(s@),
                None => fault_text(self@) is None,
            },
    {
        match self.number() {
            Some(_) => None,
            None => Some(self.to_string_with("")),
        }
    }
}

impl LoxRuntimeError {
    /// The number whose decimal text the error's text shows, if it shows
    /// one.
    pub fn number(&self) -> (r: Option<u64>)
        ensures
            r == number_of(self@.kind),
    {
        self.errorType.number()
    }

    /// The error as one line of text, where `number` is the decimal text
    /// of the number that the text shows, if it shows one.
    pub fn to_string_with(&self, number: &str) -> (s: String)
        ensures
            s@ == runtime_error_text_with(self@, number@),
    {
        let mut s = String::from_str("Error on line ");
        append_decimal(&mut s, self.line);
        s.append(": ");
        s.append(self.errorType.to_string_with(number).as_str());
        s
    }

    /// The error as one line of text, unless the text shows a number.
    pub fn to_string(&self) -> (r: Option<String>)
        ensures
            match r {
                Some(s) => runtime_error_text(self@) == Some(s@),
                None => runtime_error_text(self@) is None,
            },
    {
        match self.number() {
            Some(_) => None,
            None => Some(self.to_string_with("")),
        }
    }
}

impl LoxFn {
    /// The display form of a function: `Function with arity <n>`.
    pub fn to_string(&self) -> (s: String)
        ensures
            s@ == shown(ValueView::Function(self@)),
    {
        proof {
            lemma_parameters(*self);
        }
        let mut s = String::from_str("Function with arity ");
        append_decimal(&mut s, self.arity());
        s
    }
}

impl LoxValue {
    /// The display form of a value, where `number` is the decimal text of
    /// the value if it is a number.
    pub fn to_string_with(&self, number: &str) -> (s: String)
        ensures
            s@ == value_text(self@, number@),
    {
        match self.to_string() {
            Some(s) => s,
            None => String::from_str(number),
        }
    }

    /// The display form of a value, as `print` writes it. A number has
    /// none here: its decimal text is the host's to make.
    pub fn to_string(&self) -> (r: Option<String>)
        ensures
            match r {
                Some(s) => !(self@ is Num) && s@ == shown(self@),
                None => self@ is Num,
            },
    {
        match self {
            LoxValue::Num(_) => None,
            LoxValue::Str(s) => Some(s.clone()),
            LoxValue::Bool(b) => if *b {
                Some(String::from_str("true"))
            } else {
                Some(String::from_str("false"))
            },
            LoxValue::Function(f) => Some(f.to_string()),
            LoxValue::Nil => Some(String::from_str("nil")),
        }
    }
}

} // verus!
