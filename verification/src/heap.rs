//! The heap, the interned literals and the state that operations work on.

use crate::bytes::{Bytes, BytesIterator, BytesIteratorSource};
use crate::class::{Class, ClassModel};
use crate::exceptions::{raise, raise3, raised, ErrorModel, ExcType, RunError, RunResult};
use crate::resource_checks::{limit_error, may_time_out, memory_excess, ResourceError, ResourceTracker};
use crate::value::{immediate, immediate_int, EitherModel, EitherStr, HeapId, Value};
use vstd::prelude::*;

verus! {

/// What an item of the heap holds.
#[allow(inconsistent_fields)]
pub enum HeapData {
    Str(String),
    Bytes(Bytes),
    /// An integer that no `Int` can hold.
    LongInt { negative: bool },
    Tuple(Vec<Value>),
    List(Vec<Value>),
    Slice { start: Option<i64>, stop: Option<i64>, step: Option<i64> },
    BytesIterator(BytesIterator),
    /// A function that holds more than its code: what it captured or its
    /// defaults, or what the host calls it by.
    Function { external: bool },
    Class(Class),
    /// An item of another type, known by its type's name and by whether it
    /// can be iterated.
    Other { named: String, iterable: bool },
}

/// What an item of the heap holds, as a mathematical value.
#[allow(inconsistent_fields)]
#[verifier::ext_equal]
pub enum DataModel {
    Str(Seq<char>),
    Bytes(Seq<u8>),
    LongInt { negative: bool },
    Tuple(Seq<Value>),
    List(Seq<Value>),
    Slice { start: Option<i64>, stop: Option<i64>, step: Option<i64> },
    BytesIterator { source: BytesIteratorSource, index: usize },
    Function { external: bool },
    Class(ClassModel),
    Other { named: Seq<char>, iterable: bool },
}

impl View for HeapData {
    type V = DataModel;

    open spec fn view(&self) -> DataModel {
        match *self {
            HeapData::Str(text) => DataModel::Str(text@),
            HeapData::Bytes(bytes) => DataModel::Bytes(bytes@),
            HeapData::LongInt { negative } => DataModel::LongInt { negative },
            HeapData::Tuple(items) => DataModel::Tuple(items@),
            HeapData::List(items) => DataModel::List(items@),
            HeapData::Slice { start, stop, step } => DataModel::Slice { start, stop, step },
            HeapData::BytesIterator(iterator) => DataModel::BytesIterator {
                source: iterator.source,
                index: iterator.index,
            },
            HeapData::Function { external } => DataModel::Function { external },
            HeapData::Class(class) => DataModel::Class(class@),
            HeapData::Other { named, iterable } => DataModel::Other { named: named@, iterable },
        }
    }
}

/// An item of the heap while an operation works on it.
pub struct HeapRead<T> {
    pub item: T,
}

/// The heap, the interned literals and the limits of a run.
pub struct VM {
    /// The items of the heap, each at its identifier.
    pub heap: Vec<HeapData>,
    /// The interned strings, each at its identifier.
    pub strings: Vec<String>,
    /// The interned bytes literals, each at its identifier.
    pub literals: Vec<Vec<u8>>,
    /// The limits of the run.
    pub tracker: ResourceTracker,
}

/// The state of a run as a mathematical value.
#[verifier::ext_equal]
pub struct VmModel {
    pub heap: Seq<DataModel>,
    pub strings: Seq<Seq<char>>,
    pub literals: Seq<Seq<u8>>,
    pub tracker: ResourceTracker,
}

/// What the items of a heap hold.
pub open spec fn data_of(items: Seq<HeapData>) -> Seq<DataModel> {
    Seq::new(items.len(), |i: int| items[i]@)
}

impl View for VM {
    type V = VmModel;

    open spec fn view(&self) -> VmModel {
        VmModel {
            heap: data_of(self.heap@),
            strings: Seq::new(self.strings@.len(), |i: int| self.strings@[i]@),
            literals: Seq::new(self.literals@.len(), |i: int| self.literals@[i]@),
            tracker: self.tracker,
        }
    }
}

impl VmModel {
    /// The value names something that exists.
    pub open spec fn holds(self, value: Value) -> bool {
        match value {
            Value::Ref(id) => id < self.heap.len(),
            Value::InternString(id) => id < self.strings.len(),
            Value::InternBytes(id) => id < self.literals.len(),
            _ => true,
        }
    }

    /// Every value of the list names something that exists.
    pub open spec fn holds_all(self, values: Seq<Value>) -> bool {
        forall|i: int| 0 <= i < values.len() ==> self.holds(#[trigger] values[i])
    }

    /// The items of the heap name only what exists.
    pub open spec fn wf(self) -> bool {
        forall|id: int| 0 <= id < self.heap.len() ==> self.data_wf(#[trigger] self.heap[id])
    }

    /// The item names only what exists.
    pub open spec fn data_wf(self, data: DataModel) -> bool {
        match data {
            DataModel::Tuple(items) => self.holds_all(items),
            DataModel::List(items) => self.holds_all(items),
            DataModel::Class(class) => {
                &&& self.holds_text(class.name)
                &&& forall|i: int|
                    0 <= i < class.namespace.entries.len() ==> self.holds(
                        (#[trigger] class.namespace.entries[i]).key,
                    ) && self.holds(class.namespace.entries[i].value)
                &&& forall|i: int| 0 <= i < class.bases.len() ==> (#[trigger] class.bases[i]) < self.heap.len()
            },
            DataModel::BytesIterator { source, .. } => match source {
                BytesIteratorSource::Intern(id) => id < self.literals.len(),
                BytesIteratorSource::Heap(id) => id < self.heap.len() && self.heap[id as int] is Bytes,
            },
            _ => true,
        }
    }

    /// The state with one more item on the heap.
    pub open spec fn with(self, data: DataModel) -> VmModel {
        VmModel { heap: self.heap.push(data), ..self }
    }

    /// The bytes that a value holds.
    pub open spec fn bytes_of(self, value: Value) -> Option<Seq<u8>> {
        match value {
            Value::InternBytes(id) => Some(self.literals[id as int]),
            Value::Ref(id) => match self.heap[id as int] {
                DataModel::Bytes(bytes) => Some(bytes),
                _ => None,
            },
            _ => None,
        }
    }

    /// The text that a value holds.
    pub open spec fn text_of(self, value: Value) -> Option<Seq<char>> {
        match value {
            Value::InternString(id) => Some(self.strings[id as int]),
            Value::Ref(id) => match self.heap[id as int] {
                DataModel::Str(text) => Some(text),
                _ => None,
            },
            _ => None,
        }
    }

    /// The text names only what exists.
    pub open spec fn holds_text(self, text: EitherModel) -> bool {
        text matches EitherModel::Interned(id) ==> id < self.strings.len()
    }

    /// The characters of a text.
    pub open spec fn chars(self, text: EitherModel) -> Seq<char> {
        match text {
            EitherModel::Interned(id) => self.strings[id as int],
            EitherModel::Heap(text) => text,
        }
    }

    /// The text that a value holds, interned where the value is.
    pub open spec fn either_text(self, value: Value) -> Option<EitherModel> {
        match value {
            Value::InternString(id) => Some(EitherModel::Interned(id)),
            Value::Ref(id) => match self.heap[id as int] {
                DataModel::Str(text) => Some(EitherModel::Heap(text)),
                _ => None,
            },
            _ => None,
        }
    }

    /// The state and the value that a text becomes.
    pub open spec fn with_text(self, text: EitherModel) -> (VmModel, Value) {
        match text {
            EitherModel::Interned(id) => (self, Value::InternString(id)),
            EitherModel::Heap(text) => (self.with(DataModel::Str(text)), Value::Ref(self.heap.len() as usize)),
        }
    }

    /// The value is an integer that no `Int` can hold, with this sign.
    pub open spec fn long_int(self, value: Value) -> Option<bool> {
        match value {
            Value::InternLongInt(_, negative) => Some(negative),
            Value::Ref(id) => match self.heap[id as int] {
                DataModel::LongInt { negative } => Some(negative),
                _ => None,
            },
            _ => None,
        }
    }

    /// The name of a value's type.
    pub open spec fn name_of_type(self, value: Value) -> Seq<char> {
        match value {
            Value::Undefined => "undefined"@,
            Value::NoneValue => "NoneType"@,
            Value::Ellipsis => "ellipsis"@,
            Value::Bool(_) => "bool"@,
            Value::Int(_) => "int"@,
            Value::FloatBits(_) => "float"@,
            Value::InternString(_) => "str"@,
            Value::InternBytes(_) => "bytes"@,
            Value::InternLongInt(..) => "int"@,
            Value::Builtin(_) => "builtin_function_or_method"@,
            Value::DefFunction(_) => "function"@,
            Value::Ref(id) => match self.heap[id as int] {
                DataModel::Str(_) => "str"@,
                DataModel::Bytes(_) => "bytes"@,
                DataModel::LongInt { .. } => "int"@,
                DataModel::Tuple(_) => "tuple"@,
                DataModel::List(_) => "list"@,
                DataModel::Slice { .. } => "slice"@,
                DataModel::BytesIterator { .. } => "bytes_iterator"@,
                DataModel::Function { .. } => "function"@,
                DataModel::Class(_) => "type"@,
                DataModel::Other { named, .. } => named,
            },
        }
    }

    /// The value can be iterated.
    pub open spec fn iterable(self, value: Value) -> bool {
        match value {
            Value::InternString(_) => true,
            Value::InternBytes(_) => true,
            Value::Ref(id) => match self.heap[id as int] {
                DataModel::LongInt { .. } => false,
                DataModel::Slice { .. } => false,
                DataModel::Function { .. } => false,
                DataModel::Class(_) => false,
                DataModel::Other { iterable, .. } => iterable,
                _ => true,
            },
            _ => false,
        }
    }

    /// A value read as an integer.
    pub open spec fn int_of(self, value: Value) -> Result<i64, ErrorModel> {
        match immediate(value) {
            Some(n) => Ok(n),
            None => if self.long_int(value) is Some {
                Err(raised(ExcType::OverflowError, "Python int too large to convert to C ssize_t"@))
            } else {
                Err(
                    raised(
                        ExcType::TypeError,
                        "'"@ + self.name_of_type(value) + "' object cannot be interpreted as an integer"@,
                    ),
                )
            },
        }
    }
}

/// The run may be stopped by this error while it scans or builds something:
/// its time is over, or more memory is in use than is allowed.
pub open spec fn may_stop(tracker: ResourceTracker, error: ResourceError) -> bool {
    may_time_out(tracker, error) || memory_excess(tracker, 0) == Some(error)
}

/// A limit of the run can stop an operation half-way.
pub open spec fn can_stop(tracker: ResourceTracker) -> bool {
    tracker.max_duration is Some || memory_excess(tracker, 0) is Some
}

/// The time of the run is over, and the operation says so.
pub open spec fn timed_out<T>(tracker: ResourceTracker, result: RunResult<T>) -> bool {
    result matches Err(error) && exists|limit: ResourceError| #[trigger] may_time_out(tracker, limit)
        && error@ == limit_error(limit)
}

/// More memory is in use than is allowed, and the operation says so.
pub open spec fn out_of_memory<T>(tracker: ResourceTracker, result: RunResult<T>) -> bool {
    result matches Err(error) && (memory_excess(tracker, 0) matches Some(limit) && error@ == limit_error(limit))
}

/// The operation was stopped by a limit of the run.
pub open spec fn stopped<T>(tracker: ResourceTracker, result: RunResult<T>) -> bool {
    timed_out(tracker, result) || out_of_memory(tracker, result)
}

/// How many steps are made between two looks at the limits.
pub const CHECK_INTERVAL: usize = 1024;

/// Holds the run against its time limit at every so many steps.
pub fn check_time_every(step: usize, tracker: &ResourceTracker) -> (allowed: Result<(), ResourceError>)
    ensures
        allowed matches Err(error) ==> may_time_out(*tracker, error),
{
    if step % CHECK_INTERVAL == 0 {
        tracker.check_time()
    } else {
        Ok(())
    }
}

/// Holds the run against its limits at every so many steps.
pub fn check_memory_time_every(step: usize, tracker: &ResourceTracker) -> (allowed: Result<(), ResourceError>)
    ensures
        allowed matches Err(error) ==> may_stop(*tracker, error),
{
    if step % CHECK_INTERVAL == 0 {
        tracker.check_large_result(0)?;
        tracker.check_time()
    } else {
        Ok(())
    }
}

/// An operation that no limit can stop is not stopped.
pub proof fn law_unlimited_runs_are_not_stopped(tracker: ResourceTracker)
    requires
        !can_stop(tracker),
    ensures
        forall|error: ResourceError| !#[trigger] may_stop(tracker, error),
        forall|error: RunError| !#[trigger] stopped(tracker, Err::<(), RunError>(error)),
{
}

impl VM {
    /// A run with nothing on its heap.
    pub fn new(strings: Vec<String>, literals: Vec<Vec<u8>>, tracker: ResourceTracker) -> (vm: VM)
        ensures
            vm@.heap == Seq::<DataModel>::empty(),
            vm@.wf(),
            vm@.strings.len() == strings@.len(),
            forall|i: int| 0 <= i < strings@.len() ==> #[trigger] vm@.strings[i] == strings@[i]@,
            vm@.literals.len() == literals@.len(),
            forall|i: int| 0 <= i < literals@.len() ==> #[trigger] vm@.literals[i] == literals@[i]@,
            vm@.tracker == tracker,
    {
        VM { heap: Vec::new(), strings, literals, tracker }
    }

    /// Puts an item on the heap.
    pub fn allocate(&mut self, data: HeapData) -> (id: HeapId)
        ensures
            final(self)@ == old(self)@.with(data@),
            id == old(self)@.heap.len(),
    {
        let id: usize = self.heap.len();
        self.heap.push(data);
        assert(self@.heap =~= old(self)@.heap.push(data@));
        assert(self@.strings =~= old(self)@.strings);
        assert(self@.literals =~= old(self)@.literals);
        id
    }

    /// The bytes that a value holds.
    pub fn get_bytes(&self, value: Value) -> (bytes: Option<&[u8]>)
        requires
            self@.holds(value),
        ensures
            match bytes {
                Some(bytes) => self@.bytes_of(value) == Some(bytes@),
                None => self@.bytes_of(value) is None,
            },
    {
        match value {
            Value::InternBytes(id) => Some(self.literals[id as usize].as_slice()),
            Value::Ref(id) => match &self.heap[id] {
                HeapData::Bytes(bytes) => Some(bytes.as_slice()),
                _ => None,
            },
            _ => None,
        }
    }

    /// The text that a value holds.
    pub fn get_text(&self, value: Value) -> (text: Option<&str>)
        requires
            self@.holds(value),
        ensures
            match text {
                Some(text) => self@.text_of(value) == Some(text@),
                None => self@.text_of(value) is None,
            },
    {
        match value {
            Value::InternString(id) => Some(self.strings[id as usize].as_str()),
            Value::Ref(id) => match &self.heap[id] {
                HeapData::Str(text) => Some(text.as_str()),
                _ => None,
            },
            _ => None,
        }
    }

    /// The characters of a text.
    pub fn text_of_either<'a>(&'a self, text: &'a EitherStr) -> (chars: &'a str)
        requires
            self@.holds_text(text@),
        ensures
            chars@ == self@.chars(text@),
    {
        match text {
            EitherStr::Interned(id) => self.strings[*id as usize].as_str(),
            EitherStr::Heap(text) => text.as_str(),
        }
    }

    /// The text that a value holds, interned where the value is.
    pub fn as_either_str(&self, value: Value) -> (text: Option<EitherStr>)
        requires
            self@.holds(value),
        ensures
            match text {
                Some(text) => self@.either_text(value) == Some(text@) && self@.holds_text(text@) && self@.text_of(value)
                    == Some(self@.chars(text@)),
                None => self@.either_text(value) is None && self@.text_of(value) is None,
            },
    {
        match value {
            Value::InternString(id) => Some(EitherStr::Interned(id)),
            Value::Ref(id) => match &self.heap[id] {
                HeapData::Str(text) => Some(EitherStr::Heap(text.clone())),
                _ => None,
            },
            _ => None,
        }
    }

    /// Makes a text a value.
    pub fn allocate_text(&mut self, text: &EitherStr) -> (value: Value)
        ensures
            (final(self)@, value) == old(self)@.with_text(text@),
    {
        match text {
            EitherStr::Interned(id) => Value::InternString(*id),
            EitherStr::Heap(text) => Value::Ref(self.allocate(HeapData::Str(text.clone()))),
        }
    }

    /// Says whether a value is an integer that no `Int` can hold, and its sign.
    pub fn get_long_int(&self, value: Value) -> (negative: Option<bool>)
        requires
            self@.holds(value),
        ensures
            negative == self@.long_int(value),
    {
        match value {
            Value::InternLongInt(_, negative) => Some(negative),
            Value::Ref(id) => match &self.heap[id] {
                HeapData::LongInt { negative } => Some(*negative),
                _ => None,
            },
            _ => None,
        }
    }

    /// The name of a value's type.
    pub fn py_type_name(&self, value: Value) -> (name: &str)
        requires
            self@.holds(value),
        ensures
            name@ == self@.name_of_type(value),
    {
        match value {
            Value::Undefined => "undefined",
            Value::NoneValue => "NoneType",
            Value::Ellipsis => "ellipsis",
            Value::Bool(_) => "bool",
            Value::Int(_) => "int",
            Value::FloatBits(_) => "float",
            Value::InternString(_) => "str",
            Value::InternBytes(_) => "bytes",
            Value::InternLongInt(..) => "int",
            Value::Builtin(_) => "builtin_function_or_method",
            Value::DefFunction(_) => "function",
            Value::Ref(id) => match &self.heap[id] {
                HeapData::Str(_) => "str",
                HeapData::Bytes(_) => "bytes",
                HeapData::LongInt { .. } => "int",
                HeapData::Tuple(_) => "tuple",
                HeapData::List(_) => "list",
                HeapData::Slice { .. } => "slice",
                HeapData::BytesIterator(_) => "bytes_iterator",
                HeapData::Function { .. } => "function",
                HeapData::Class(_) => "type",
                HeapData::Other { named, .. } => named.as_str(),
            },
        }
    }

    /// Says whether a value can be iterated.
    pub fn py_is_iterable(&self, value: Value) -> (iterable: bool)
        requires
            self@.holds(value),
        ensures
            iterable == self@.iterable(value),
    {
        match value {
            Value::InternString(_) | Value::InternBytes(_) => true,
            Value::Ref(id) => match &self.heap[id] {
                HeapData::LongInt { .. } => false,
                HeapData::Slice { .. } => false,
                HeapData::Function { .. } => false,
                HeapData::Class(_) => false,
                HeapData::Other { iterable, .. } => *iterable,
                _ => true,
            },
            _ => false,
        }
    }

    /// Reads a value as an integer.
    pub fn as_int(&self, value: Value) -> (number: RunResult<i64>)
        requires
            self@.holds(value),
        ensures
            match (number, self@.int_of(value)) {
                (Ok(n), Ok(expected)) => n == expected,
                (Err(error), Err(expected)) => error@ == expected,
                _ => false,
            },
    {
        if let Some(n) = immediate_int(value) {
            return Ok(n);
        }
        if self.get_long_int(value).is_some() {
            return Err(raise(ExcType::OverflowError, "Python int too large to convert to C ssize_t"));
        }
        Err(
            raise3(
                ExcType::TypeError,
                "'",
                self.py_type_name(value),
                "' object cannot be interpreted as an integer",
            ),
        )
    }
}

} // verus!
