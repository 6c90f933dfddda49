//! The running event loop, as running code sees it.

use crate::args::{zero_args, ArgValues, ArgsModel};
use crate::contextvar::{address_text, append_address};
use crate::exceptions::{raise3, raised, ErrorModel, ExcType, RunResult};
use crate::heap::HeapRead;
use crate::text::same_text;
use crate::value::{HeapId, Value};
use vstd::prelude::*;

verus! {

/// The running loop. It holds nothing: code that can ask is inside it.
#[derive(Clone, Copy, Debug, PartialEq, Eq, Structural)]
pub struct EventLoop;

/// What a call of a method by its name gives.
pub open spec fn loop_call(name: Seq<char>, args: ArgsModel) -> Result<Value, ErrorModel> {
    if name == "is_running"@ {
        match zero_args("is_running"@, args) {
            Err(error) => Err(error),
            Ok(_) => Ok(Value::Bool(true)),
        }
    } else if name == "is_closed"@ {
        match zero_args("is_closed"@, args) {
            Err(error) => Err(error),
            Ok(_) => Ok(Value::Bool(false)),
        }
    } else {
        Err(raised(ExcType::AttributeError, "'EventLoop' object has no attribute '"@ + name + "'"@))
    }
}

impl EventLoop {
    /// Lists the items of the heap that the loop keeps alive: none.
    pub fn py_dec_ref_ids(&mut self, stack: &mut Vec<HeapId>)
        ensures
            *final(self) == *old(self),
            final(stack)@ == old(stack)@,
    {
    }
}

impl HeapRead<EventLoop> {
    /// The loop as text.
    pub fn py_repr(&self, id: HeapId) -> (text: String)
        ensures
            text@ == "<EventLoop running=True"@ + address_text(id),
    {
        let mut text = "<EventLoop running=True".to_owned();
        append_address(&mut text, id);
        text
    }

    /// Calls a method by its name.
    pub fn py_call_attr(&self, name: &str, args: &ArgValues) -> (value: RunResult<Value>)
        ensures
            match (value, loop_call(name@, args@)) {
                (Ok(value), Ok(expected)) => value == expected,
                (Err(error), Err(expected)) => error@ == expected,
                _ => false,
            },
    {
        if same_text(name, "is_running") {
            args.check_zero_args("is_running")?;
            return Ok(Value::Bool(true));
        }
        if same_text(name, "is_closed") {
            args.check_zero_args("is_closed")?;
            return Ok(Value::Bool(false));
        }
        Err(raise3(ExcType::AttributeError, "'EventLoop' object has no attribute '", name, "'"))
    }
}

} // verus!
