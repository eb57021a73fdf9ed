//! The types of runtime values.
use vstd::prelude::*;
use vstd::std_specs::convert::FromSpecImpl;
use crate::interpret::lox_value::{LoxValue, ValueView, lemma_parameters};

verus! {

/// The type of a runtime value. A function's type holds its arity.
#[derive(Debug, Clone, Copy, PartialEq, Eq, Structural)]
pub enum LoxType {
    Function(u32),
    Num,
    Str,
    Bool,
    Nil,
}

/// A length as a `u32`; a length that does not fit counts as the largest.
pub open spec fn count(len: nat) -> u32 {
    if len > u32::MAX {
        u32::MAX
    } else {
        len as u32
    }
}

/// The type of a value.
pub open spec fn type_of(v: ValueView) -> LoxType {
    match v {
        ValueView::Function(f) => LoxType::Function(count(f.params.len())),
        ValueView::Num(_) => LoxType::Num,
        ValueView::Str(_) => LoxType::Str,
        ValueView::Bool(_) => LoxType::Bool,
        ValueView::Nil => LoxType::Nil,
    }
}

/// What can be called: it says how many arguments it takes.
pub trait LoxCallee {
    /// The number of parameters.
    spec fn parameter_count(&self) -> nat;

    fn arity(&self) -> (n: u32)
        ensures
            n == count(self.parameter_count()),
    ;
}

impl From<LoxValue> for LoxType {
    fn from(value: LoxValue) -> (t: LoxType) {
        LoxType::of(&value)
    }
}

impl FromSpecImpl<LoxValue> for LoxType {
    open spec fn obeys_from_spec() -> bool {
        true
    }

    open spec fn from_spec(value: LoxValue) -> LoxType {
        type_of(value@)
    }
}

impl LoxType {
    /// The type of a value.
    pub fn of(value: &LoxValue) -> (t: LoxType)
        ensures
            t == type_of(value@),
    {
        match value {
            LoxValue::Function(f) => {
                proof {
                    lemma_parameters(*f);
                }
                LoxType::Function(f.arity())
            },
            LoxValue::Num(_) => LoxType::Num,
            LoxValue::Str(_) => LoxType::Str,
            LoxValue::Bool(_) => LoxType::Bool,
            LoxValue::Nil => LoxType::Nil,
        }
    }
}

} // verus!
