//! The closed union of field values a store can hold, and its
//! specification-level mirror.

use vstd::prelude::*;

verus! {

/// A recorded field value: one of the four natively supported shapes, or the
/// fallback for values that were captured through their debug description.
#[derive(Clone, PartialEq, Eq, Debug)]
pub enum Value {
    I64(i64),
    U64(u64),
    Bool(bool),
    Str(String),
    Fallback(String),
}

/// Specification-level mirror of `Value`, over mathematical integers and
/// character sequences.
pub enum ValueV {
    I64(int),
    U64(int),
    Bool(bool),
    Str(Seq<char>),
    Fallback(Seq<char>),
}

impl Value {
    /// An equal copy of this value.
    pub fn dup(&self) -> (r: Value)
        ensures
            r == *self,
    {
        match self {
            Value::I64(i) => Value::I64(*i),
            Value::U64(u) => Value::U64(*u),
            Value::Bool(b) => Value::Bool(*b),
            Value::Str(s) => Value::Str(s.clone()),
            Value::Fallback(s) => Value::Fallback(s.clone()),
        }
    }

    /// The abstract value this holds.
    pub open spec fn view_v(self) -> ValueV {
        match self {
            Value::I64(i) => ValueV::I64(i as int),
            Value::U64(u) => ValueV::U64(u as int),
            Value::Bool(b) => ValueV::Bool(b),
            Value::Str(s) => ValueV::Str(s@),
            Value::Fallback(s) => ValueV::Fallback(s@),
        }
    }
}

impl ValueV {
    /// The text of a string-shaped value, when it has one.
    pub open spec fn as_text(self) -> Option<Seq<char>> {
        match self {
            ValueV::Str(s) => Some(s),
            ValueV::Fallback(s) => Some(s),
            _ => None,
        }
    }

    /// The number a value yields when read as an unsigned 32-bit quantity:
    /// non-negative integers are truncated to their low 32 bits, everything
    /// else yields nothing.
    pub open spec fn as_u32(self) -> Option<int> {
        match self {
            ValueV::I64(i) => if i >= 0 {
                Some(i % 0x1_0000_0000)
            } else {
                None
            },
            ValueV::U64(u) => Some(u % 0x1_0000_0000),
            _ => None,
        }
    }
}

} // verus!
