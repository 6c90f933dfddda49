//! Values of running code.

use crate::names::StringId;
use vstd::prelude::*;

verus! {

/// Identifies an item of the heap.
pub type HeapId = usize;

/// Identifies an interned bytes literal.
pub type BytesId = u32;

/// A value. What does not fit in one word is an item of the heap.
#[derive(Clone, Copy, Debug, PartialEq, Eq, Structural)]
pub enum Value {
    /// A name that holds nothing yet.
    Undefined,
    NoneValue,
    Ellipsis,
    Bool(bool),
    Int(i64),
    /// A float, by its bit pattern.
    FloatBits(u64),
    InternString(StringId),
    InternBytes(BytesId),
    /// An interned integer that no `Int` can hold, by its number and sign.
    InternLongInt(u32, bool),
    Builtin(u32),
    DefFunction(u32),
    Ref(HeapId),
}

/// A text that is interned, or one of its own.
pub enum EitherStr {
    Interned(StringId),
    Heap(String),
}

/// A text that is interned, or one of its own, as a mathematical value.
#[verifier::ext_equal]
pub enum EitherModel {
    Interned(StringId),
    Heap(Seq<char>),
}

impl View for EitherStr {
    type V = EitherModel;

    open spec fn view(&self) -> EitherModel {
        match *self {
            EitherStr::Interned(id) => EitherModel::Interned(id),
            EitherStr::Heap(text) => EitherModel::Heap(text@),
        }
    }
}

impl EitherStr {
    /// A copy of the text.
    pub fn copy(&self) -> (copy: EitherStr)
        ensures
            copy@ == self@,
    {
        match self {
            EitherStr::Interned(id) => EitherStr::Interned(*id),
            EitherStr::Heap(text) => EitherStr::Heap(text.clone()),
        }
    }
}

/// The integer that a value holds in itself. `True` is one and `False` zero.
pub open spec fn immediate(value: Value) -> Option<i64> {
    match value {
        Value::Int(n) => Some(n),
        Value::Bool(b) => Some(if b {
            1i64
        } else {
            0i64
        }),
        _ => None,
    }
}

/// The integer that a value holds in itself, if it holds one.
pub fn immediate_int(value: Value) -> (number: Option<i64>)
    ensures
        number == immediate(value),
{
    match value {
        Value::Int(n) => Some(n),
        Value::Bool(b) => Some(
            if b {
                1
            } else {
                0
            },
        ),
        _ => None,
    }
}

} // verus!
