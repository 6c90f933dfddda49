//! Operators on byte strings, and iteration over them.

use crate::bytes::{
    byte_at, bytes_only, extract_bytes_only, get_byte_at_index, makes, stop, Bytes, BytesIterator,
    BytesIteratorSource, Made, MadeModel, Outcome,
};
use crate::bytes_text::contains_byte;
use crate::exceptions::{
    raise, raise2, raise3, raised, type_error_model, value_error, value_error_model, ErrorModel, ExcType, RunResult,
};
use crate::heap::{timed_out, DataModel, HeapData, VM, VmModel};
use crate::resource_checks::{capped_product, capped_sum, check_repeat_size, limit_error, may_time_out, run_error, size_excess};
use crate::scan::{append_bytes, find_subsequence, first_from};
use crate::value::{immediate, immediate_int, BytesId, HeapId, Value};
use vstd::prelude::*;

verus! {

/// `item in bytes`: a byte string is found as a part, a number as a byte.
pub open spec fn contains_model(vm: VmModel, container: Seq<u8>, item: Value) -> Result<bool, ErrorModel> {
    match immediate(item) {
        Some(n) => if 0 <= n <= 255 {
            Ok(container.contains(n as u8))
        } else {
            Err(value_error_model("byte must be in range(0, 256)"@))
        },
        None => if vm.long_int(item) is Some {
            Err(value_error_model("byte must be in range(0, 256)"@))
        } else if item is InternBytes || item is Ref {
            match bytes_only(vm, item) {
                Err(error) => Err(error),
                Ok(needle) => Ok(needle.len() == 0 || first_from(container, needle, 0) is Some),
            }
        } else {
            Err(type_error_model("a bytes-like object is required, not '"@ + vm.name_of_type(item) + "'"@))
        },
    }
}

/// Says whether an item is in a byte string.
pub fn bytes_contains(container: &[u8], item: Value, vm: &VM) -> (found: RunResult<bool>)
    requires
        vm@.holds(item),
    ensures
        match (found, contains_model(vm@, container@, item)) {
            (Ok(found), Ok(expected)) => found == expected,
            (Err(error), Err(expected)) => error@ == expected,
            (Err(_), Ok(_)) => timed_out(vm@.tracker, found),
            _ => false,
        },
{
    match immediate_int(item) {
        Some(n) => {
            if 0 <= n && n <= 255 {
                return Ok(contains_byte(container, n as u8));
            }
            return Err(value_error("byte must be in range(0, 256)"));
        },
        None => {},
    }
    if vm.get_long_int(item).is_some() {
        return Err(value_error("byte must be in range(0, 256)"));
    }
    match item {
        Value::InternBytes(_) | Value::Ref(_) => {
            let needle = match extract_bytes_only(item, vm) {
                Ok(needle) => needle,
                Err(error) => return Err(error),
            };
            if needle.len() == 0 {
                return Ok(true);
            }
            match find_subsequence(container, needle, &vm.tracker) {
                Ok(place) => Ok(place.is_some()),
                Err(limit) => {
                    let error = run_error(limit);
                    assert(may_time_out(vm@.tracker, limit) && error@ == limit_error(limit));
                    Err(error)
                },
            }
        },
        _ => Err(
            raise3(ExcType::TypeError, "a bytes-like object is required, not '", vm.py_type_name(item), "'"),
        ),
    }
}

/// Where a slice starts, ends and how it steps, in a sequence of this length.
pub open spec fn slice_bounds(start: Option<i64>, stop: Option<i64>, step: int, len: int) -> (int, int) {
    let low = if step > 0 {
        0int
    } else {
        -1int
    };
    let high = if step > 0 {
        len
    } else {
        len - 1
    };
    let first = match start {
        None => if step > 0 {
            low
        } else {
            high
        },
        Some(index) => slice_bound(index as int, low, high, len),
    };
    let last = match stop {
        None => if step > 0 {
            high
        } else {
            low
        },
        Some(index) => slice_bound(index as int, low, high, len),
    };
    (first, last)
}

/// A bound of a slice, counted from the end where it is negative and never
/// outside of the limits.
pub open spec fn slice_bound(index: int, low: int, high: int, len: int) -> int {
    let place = if index < 0 {
        index + len
    } else {
        index
    };
    if place < low {
        low
    } else if place > high {
        high
    } else {
        place
    }
}

/// A bound on the steps that a slice can still make.
pub open spec fn steps_left(len: int, at: int, step: int) -> int {
    if at < 0 || at >= len {
        0
    } else if step > 0 {
        len - at
    } else {
        at + 1
    }
}

/// The bytes of a slice from `at` on.
pub open spec fn sliced_from(bytes: Seq<u8>, at: int, last: int, step: int) -> Seq<u8>
    decreases steps_left(bytes.len() as int, at, step),
{
    if step == 0 || at < 0 || at >= bytes.len() || (step > 0 && at >= last) || (step < 0 && at <= last) {
        Seq::empty()
    } else {
        seq![bytes[at]] + sliced_from(bytes, at + step, last, step)
    }
}

/// The bytes of a slice.
pub open spec fn sliced(bytes: Seq<u8>, start: Option<i64>, stop: Option<i64>, step: Option<i64>) -> Result<
    Seq<u8>,
    ErrorModel,
> {
    let step = match step {
        Some(step) => step as int,
        None => 1,
    };
    if step == 0 {
        Err(value_error_model("slice step cannot be zero"@))
    } else {
        let (first, last) = slice_bounds(start, stop, step, bytes.len() as int);
        Ok(sliced_from(bytes, first, last, step))
    }
}

/// Brings a bound of a slice inside its limits.
fn clamp_bound(index: i64, low: i128, high: i128, len: usize) -> (place: i128)
    requires
        -1 <= low,
        low <= high + 1,
        -1 <= high <= len,
    ensures
        place == slice_bound(index as int, low as int, high as int, len as int),
{
    let place: i128 = if index < 0 {
        index as i128 + len as i128
    } else {
        index as i128
    };
    if place < low {
        low
    } else if place > high {
        high
    } else {
        place
    }
}

/// Collects the bytes of a slice.
pub fn slice_collect(bytes: &[u8], start: Option<i64>, stop: Option<i64>, step: Option<i64>) -> (part: RunResult<Vec<u8>>)
    ensures
        match (part, sliced(bytes@, start, stop, step)) {
            (Ok(part), Ok(expected)) => part@ == expected,
            (Err(error), Err(expected)) => error@ == expected,
            _ => false,
        },
{
    let pace: i128 = match step {
        Some(given) => given as i128,
        None => 1,
    };
    if pace == 0 {
        return Err(value_error("slice step cannot be zero"));
    }
    let len: usize = bytes.len();
    let low: i128 = if pace > 0 {
        0
    } else {
        -1
    };
    let high: i128 = if pace > 0 {
        len as i128
    } else {
        len as i128 - 1
    };
    let first: i128 = match start {
        None => if pace > 0 {
            low
        } else {
            high
        },
        Some(index) => clamp_bound(index, low, high, len),
    };
    let last: i128 = match stop {
        None => if pace > 0 {
            high
        } else {
            low
        },
        Some(index) => clamp_bound(index, low, high, len),
    };
    let mut out: Vec<u8> = Vec::new();
    let mut at: i128 = first;
    let ghost whole = sliced_from(bytes@, first as int, last as int, pace as int);
    assert(out@ + whole =~= whole);
    loop
        invariant
            len == bytes@.len(),
            pace != 0,
            i64::MIN <= pace <= i64::MAX,
            -1 <= last <= len,
            i64::MIN - 1 <= at <= len + i64::MAX,
            out@ + sliced_from(bytes@, at as int, last as int, pace as int) == whole,
            whole == sliced_from(bytes@, first as int, last as int, pace as int),
            Ok::<Seq<u8>, ErrorModel>(whole) == sliced(bytes@, start, stop, step),
        decreases steps_left(len as int, at as int, pace as int),
    {
        if at < 0 || at >= len as i128 || (pace > 0 && at >= last) || (pace < 0 && at <= last) {
            assert(out@ + Seq::<u8>::empty() =~= out@);
            return Ok(out);
        }
        let ghost before = out@;
        let byte: u8 = bytes[at as usize];
        out.push(byte);
        at = at + pace;
        proof {
            let rest = sliced_from(bytes@, at as int, last as int, pace as int);
            assert(before + (seq![byte] + rest) =~= out@ + rest);
        }
    }
}

/// `bytes[key]`.
pub open spec fn getitem_model(vm: VmModel, bytes: Seq<u8>, key: Value) -> Outcome {
    let part = match key {
        Value::Ref(id) => match vm.heap[id as int] {
            DataModel::Slice { start, stop, step } => Some(sliced(bytes, start, stop, step)),
            _ => None,
        },
        _ => None,
    };
    match part {
        Some(Ok(part)) => Ok(MadeModel::Bytes(part)),
        Some(Err(error)) => Err(error),
        None => match immediate(key) {
            Some(index) => match byte_at(bytes, index as int) {
                Some(byte) => Ok(MadeModel::Plain(Value::Int(byte as i64))),
                None => Err(raised(ExcType::IndexError, "index out of range"@)),
            },
            None => if vm.long_int(key) is Some {
                Err(raised(ExcType::IndexError, "cannot fit 'int' into an index-sized integer"@))
            } else {
                Err(
                    type_error_model("byte indices must be integers or slices, not "@ + vm.name_of_type(key)),
                )
            },
        },
    }
}

/// Reads a byte or a slice of a byte string.
pub fn py_getitem(bytes: &[u8], key: Value, vm: &VM) -> (result: RunResult<Made>)
    requires
        vm@.holds(key),
    ensures
        makes(result, getitem_model(vm@, bytes@, key)),
{
    match key {
        Value::Ref(id) => match &vm.heap[id] {
            HeapData::Slice { start, stop, step } => {
                return Ok(Made::Bytes(slice_collect(bytes, *start, *stop, *step)?));
            },
            _ => {},
        },
        _ => {},
    }
    match immediate_int(key) {
        Some(index) => match get_byte_at_index(bytes, index) {
            Some(byte) => Ok(Made::Plain(Value::Int(byte as i64))),
            None => Err(raise(ExcType::IndexError, "index out of range")),
        },
        None => {
            if vm.get_long_int(key).is_some() {
                return Err(raise(ExcType::IndexError, "cannot fit 'int' into an index-sized integer"));
            }
            Err(raise2(ExcType::TypeError, "byte indices must be integers or slices, not ", vm.py_type_name(key)))
        },
    }
}

/// Two byte strings one behind the other, held against the limits first.
pub open spec fn concat_model(vm: VmModel, left: Seq<u8>, right: Seq<u8>) -> Outcome {
    let size = capped_sum(left.len() as int, right.len() as int, usize::MAX as int);
    match size_excess(vm.tracker, capped_product(size, 1, usize::MAX as int) as usize) {
        Some(limit) => Err(limit_error(limit)),
        None => Ok(MadeModel::Bytes(left + right)),
    }
}

/// Puts two byte strings one behind the other.
pub fn concat_bytes(left: &[u8], right: &[u8], vm: &VM) -> (result: RunResult<Made>)
    ensures
        makes(result, concat_model(vm@, left@, right@)),
{
    let size: usize = left.len().saturating_add(right.len());
    match check_repeat_size(size, 1, &vm.tracker) {
        Ok(_) => {},
        Err(limit) => return Err(run_error(limit)),
    }
    let mut out: Vec<u8> = Vec::new();
    append_bytes(&mut out, left);
    append_bytes(&mut out, right);
    assert(out@ =~= left@ + right@);
    Ok(Made::Bytes(out))
}

/// A byte string, so many times.
pub open spec fn repeated(bytes: Seq<u8>, count: nat) -> Seq<u8>
    decreases count,
{
    if count == 0 {
        Seq::empty()
    } else {
        repeated(bytes, (count - 1) as nat) + bytes
    }
}

/// A byte string so many times, held against the limits first.
pub open spec fn repeat_model(vm: VmModel, bytes: Seq<u8>, count: int) -> Outcome {
    match size_excess(vm.tracker, capped_product(bytes.len() as int, count, usize::MAX as int) as usize) {
        Some(limit) => Err(limit_error(limit)),
        None => Ok(MadeModel::Bytes(repeated(bytes, count as nat))),
    }
}

/// Repeats a byte string.
pub fn repeat_bytes(bytes: &[u8], count: usize, vm: &VM) -> (result: RunResult<Made>)
    ensures
        makes(result, repeat_model(vm@, bytes@, count as int)),
{
    match check_repeat_size(bytes.len(), count, &vm.tracker) {
        Ok(_) => {},
        Err(limit) => return Err(run_error(limit)),
    }
    let mut out: Vec<u8> = Vec::new();
    let mut i: usize = 0;
    assert(out@ =~= repeated(bytes@, 0));
    while i < count
        invariant
            i <= count,
            out@ == repeated(bytes@, i as nat),
        decreases count - i,
    {
        append_bytes(&mut out, bytes);
        i = i + 1;
    }
    Ok(Made::Bytes(out))
}

/// How often a value says to repeat. A negative number is none.
pub open spec fn repeats(vm: VmModel, value: Value) -> Result<Option<int>, ErrorModel> {
    match immediate(value) {
        Some(n) => if n < 0 {
            Ok(Some(0))
        } else if n > usize::MAX {
            Err(raised(ExcType::OverflowError, "cannot fit 'int' into an index-sized integer"@))
        } else {
            Ok(Some(n as int))
        },
        None => match vm.long_int(value) {
            Some(true) => Ok(Some(0)),
            Some(false) => Err(raised(ExcType::OverflowError, "cannot fit 'int' into an index-sized integer"@)),
            None => Ok(None),
        },
    }
}

/// Reads how often a value says to repeat.
pub fn repeat_count(value: Value, vm: &VM) -> (count: RunResult<Option<usize>>)
    requires
        vm@.holds(value),
    ensures
        match (count, repeats(vm@, value)) {
            (Ok(Some(count)), Ok(Some(expected))) => count == expected,
            (Ok(None), Ok(None)) => true,
            (Err(error), Err(expected)) => error@ == expected,
            _ => false,
        },
{
    match immediate_int(value) {
        Some(n) => {
            if n < 0 {
                return Ok(Some(0));
            }
            if n as u64 > usize::MAX as u64 {
                return Err(raise(ExcType::OverflowError, "cannot fit 'int' into an index-sized integer"));
            }
            return Ok(Some(n as usize));
        },
        None => {},
    }
    match vm.get_long_int(value) {
        Some(negative) => {
            if negative {
                Ok(Some(0))
            } else {
                Err(raise(ExcType::OverflowError, "cannot fit 'int' into an index-sized integer"))
            }
        },
        None => Ok(None),
    }
}

/// The result is what the model gives, or nothing where it gives nothing.
pub open spec fn makes_option(result: RunResult<Option<Made>>, model: Result<Option<MadeModel>, ErrorModel>) -> bool {
    match (result, model) {
        (Ok(Some(made)), Ok(Some(expected))) => made@ == expected,
        (Ok(None), Ok(None)) => true,
        (Err(error), Err(expected)) => error@ == expected,
        _ => false,
    }
}

/// An outcome as one that is there.
pub open spec fn present(outcome: Outcome) -> Result<Option<MadeModel>, ErrorModel> {
    match outcome {
        Ok(made) => Ok(Some(made)),
        Err(error) => Err(error),
    }
}

/// `bytes + other`, which is nothing for values that are no byte strings.
pub fn py_add_impl(bytes: &[u8], other: Value, vm: &VM) -> (result: RunResult<Option<Made>>)
    requires
        vm@.holds(other),
    ensures
        makes_option(
            result,
            match vm@.bytes_of(other) {
                Some(right) => present(concat_model(vm@, bytes@, right)),
                None => Ok(None),
            },
        ),
{
    match vm.get_bytes(other) {
        Some(right) => Ok(Some(concat_bytes(bytes, right, vm)?)),
        None => Ok(None),
    }
}

/// `bytes * other`, which is nothing for values that are no integers.
pub fn py_mul_impl(bytes: &[u8], other: Value, vm: &VM) -> (result: RunResult<Option<Made>>)
    requires
        vm@.holds(other),
    ensures
        makes_option(
            result,
            match repeats(vm@, other) {
                Err(error) => Err(error),
                Ok(None) => Ok(None),
                Ok(Some(count)) => present(repeat_model(vm@, bytes@, count)),
            },
        ),
{
    match repeat_count(other, vm)? {
        Some(count) => Ok(Some(repeat_bytes(bytes, count, vm)?)),
        None => Ok(None),
    }
}

/// How two values are ordered.
#[derive(Clone, Copy, Debug, PartialEq, Eq, Structural)]
pub enum Order {
    Less,
    Same,
    Greater,
}

/// The order of two byte strings from `i` on: that of the first bytes that
/// differ, or that of the lengths.
pub open spec fn order_from(left: Seq<u8>, right: Seq<u8>, i: int) -> Order
    decreases left.len() - i,
{
    if i >= left.len() {
        if i >= right.len() {
            Order::Same
        } else {
            Order::Less
        }
    } else if i >= right.len() {
        Order::Greater
    } else if left[i] < right[i] {
        Order::Less
    } else if left[i] > right[i] {
        Order::Greater
    } else {
        order_from(left, right, i + 1)
    }
}

/// Orders two byte strings.
pub fn bytes_order(left: &[u8], right: &[u8]) -> (order: Order)
    ensures
        order == order_from(left@, right@, 0),
{
    let mut i: usize = 0;
    while i < left.len() && i < right.len()
        invariant
            i <= left@.len(),
            i <= right@.len(),
            order_from(left@, right@, i as int) == order_from(left@, right@, 0),
        decreases left@.len() - i,
    {
        if left[i] < right[i] {
            return Order::Less;
        }
        if left[i] > right[i] {
            return Order::Greater;
        }
        i = i + 1;
    }
    if i >= left.len() {
        if i >= right.len() {
            Order::Same
        } else {
            Order::Less
        }
    } else {
        Order::Greater
    }
}

/// Two byte strings are of the same order exactly where they are equal.
pub proof fn law_same_order_is_equality(left: Seq<u8>, right: Seq<u8>)
    ensures
        (order_from(left, right, 0) is Same) == (left == right),
{
    lemma_order_same(left, right, 0);
    assert(left.subrange(0, left.len() as int) =~= left);
    assert(right.subrange(0, right.len() as int) =~= right);
}

proof fn lemma_order_same(left: Seq<u8>, right: Seq<u8>, i: int)
    requires
        0 <= i <= left.len(),
        i <= right.len(),
    ensures
        (order_from(left, right, i) is Same) == (left.subrange(i, left.len() as int) == right.subrange(
            i,
            right.len() as int,
        )),
    decreases left.len() - i,
{
    let a = left.subrange(i, left.len() as int);
    let b = right.subrange(i, right.len() as int);
    if i >= left.len() || i >= right.len() {
        if a.len() == b.len() {
            assert(a =~= b);
        }
    } else if left[i] != right[i] {
        assert(a[0] == left[i] && b[0] == right[i]);
    } else {
        lemma_order_same(left, right, i + 1);
        let c = left.subrange(i + 1, left.len() as int);
        let d = right.subrange(i + 1, right.len() as int);
        assert(a =~= seq![left[i]] + c);
        assert(b =~= seq![right[i]] + d);
        if a == b {
            assert(c =~= a.subrange(1, a.len() as int));
            assert(d =~= b.subrange(1, b.len() as int));
        }
    }
}

/// The bytes that an iterator reads.
pub open spec fn source_bytes(vm: VmModel, source: BytesIteratorSource) -> Seq<u8> {
    match source {
        BytesIteratorSource::Intern(id) => vm.literals[id as int],
        BytesIteratorSource::Heap(id) => match vm.heap[id as int] {
            DataModel::Bytes(bytes) => bytes,
            _ => Seq::empty(),
        },
    }
}

/// The bytes that an iterator reads exist.
pub open spec fn holds_source(vm: VmModel, source: BytesIteratorSource) -> bool {
    match source {
        BytesIteratorSource::Intern(id) => id < vm.literals.len(),
        BytesIteratorSource::Heap(id) => id < vm.heap.len() && vm.heap[id as int] is Bytes,
    }
}

impl BytesIterator {
    /// Puts an iterator over interned bytes on the heap.
    pub fn from_intern(id: BytesId, vm: &mut VM) -> (value: Value)
        ensures
            value == Value::Ref(old(vm)@.heap.len() as usize),
            final(vm)@ == old(vm)@.with(
                DataModel::BytesIterator { source: BytesIteratorSource::Intern(id), index: 0 },
            ),
    {
        Self::allocate(BytesIteratorSource::Intern(id), vm)
    }

    /// Puts an iterator over bytes of the heap on the heap.
    pub fn from_heap(id: HeapId, vm: &mut VM) -> (value: Value)
        ensures
            value == Value::Ref(old(vm)@.heap.len() as usize),
            final(vm)@ == old(vm)@.with(DataModel::BytesIterator { source: BytesIteratorSource::Heap(id), index: 0 }),
    {
        Self::allocate(BytesIteratorSource::Heap(id), vm)
    }

    /// Puts an iterator on the heap.
    fn allocate(source: BytesIteratorSource, vm: &mut VM) -> (value: Value)
        ensures
            value == Value::Ref(old(vm)@.heap.len() as usize),
            final(vm)@ == old(vm)@.with(DataModel::BytesIterator { source, index: 0 }),
    {
        Value::Ref(vm.allocate(HeapData::BytesIterator(BytesIterator { source, index: 0 })))
    }

    /// The item of the heap that the iterator keeps alive.
    pub fn source_id(&self) -> (id: Option<HeapId>)
        ensures
            id == match self.source {
                BytesIteratorSource::Intern(_) => None,
                BytesIteratorSource::Heap(id) => Some(id),
            },
    {
        match self.source {
            BytesIteratorSource::Intern(_) => None,
            BytesIteratorSource::Heap(id) => Some(id),
        }
    }

    /// The bytes that the iterator reads.
    pub fn as_slice<'a>(&self, vm: &'a VM) -> (bytes: &'a [u8])
        requires
            holds_source(vm@, self.source),
        ensures
            bytes@ == source_bytes(vm@, self.source),
    {
        match self.source {
            BytesIteratorSource::Intern(id) => vm.literals[id as usize].as_slice(),
            BytesIteratorSource::Heap(id) => match &vm.heap[id] {
                HeapData::Bytes(bytes) => bytes.as_slice(),
                _ => {
                    assert(false);
                    vstd::pervasive::unreached()
                },
            },
        }
    }

    /// How many bytes are still to come.
    pub fn size_hint(&self, vm: &VM) -> (count: usize)
        requires
            holds_source(vm@, self.source),
        ensures
            count == if self.index <= source_bytes(vm@, self.source).len() {
                source_bytes(vm@, self.source).len() - self.index
            } else {
                0
            },
    {
        self.as_slice(vm).len().saturating_sub(self.index)
    }

    /// The next byte, or nothing at the end.
    pub fn py_next(&mut self, vm: &VM) -> (value: Option<Value>)
        requires
            holds_source(vm@, old(self).source),
        ensures
            final(self).source == old(self).source,
            if old(self).index < source_bytes(vm@, old(self).source).len() {
                value == Some(Value::Int(source_bytes(vm@, old(self).source)[old(self).index as int] as i64))
                    && final(self).index == old(self).index + 1
            } else {
                value is None && final(self).index == old(self).index
            },
    {
        let bytes = self.as_slice(vm);
        if self.index < bytes.len() {
            let byte: u8 = bytes[self.index];
            self.index = self.index + 1;
            Some(Value::Int(byte as i64))
        } else {
            None
        }
    }

    /// Lists the items of the heap that the iterator keeps alive.
    pub fn py_dec_ref_ids(&mut self, stack: &mut Vec<HeapId>)
        ensures
            *final(self) == *old(self),
            final(stack)@ == match old(self).source {
                BytesIteratorSource::Intern(_) => old(stack)@,
                BytesIteratorSource::Heap(id) => old(stack)@.push(id),
            },
    {
        match self.source_id() {
            Some(id) => {
                stack.push(id);
            },
            None => {},
        }
    }
}

/// Which of two byte strings comes first does not depend on the side from
/// which they are compared.
pub proof fn law_order_turns(left: Seq<u8>, right: Seq<u8>)
    ensures
        (order_from(left, right, 0) is Less) == (order_from(right, left, 0) is Greater),
        (order_from(left, right, 0) is Same) == (order_from(right, left, 0) is Same),
{
    lemma_order_turns(left, right, 0);
}

proof fn lemma_order_turns(left: Seq<u8>, right: Seq<u8>, i: int)
    requires
        0 <= i,
    ensures
        (order_from(left, right, i) is Less) == (order_from(right, left, i) is Greater),
        (order_from(left, right, i) is Same) == (order_from(right, left, i) is Same),
    decreases left.len() - i,
{
    if i < left.len() && i < right.len() && left[i] == right[i] {
        lemma_order_turns(left, right, i + 1);
    }
}

/// A byte string that does not come behind a second, which does not come
/// behind a third, does not come behind the third.
pub proof fn law_order_is_transitive(first: Seq<u8>, second: Seq<u8>, third: Seq<u8>)
    requires
        order_from(first, second, 0) !is Greater,
        order_from(second, third, 0) !is Greater,
    ensures
        order_from(first, third, 0) !is Greater,
{
    lemma_order_is_transitive(first, second, third, 0);
}

proof fn lemma_order_is_transitive(first: Seq<u8>, second: Seq<u8>, third: Seq<u8>, i: int)
    requires
        0 <= i,
        order_from(first, second, i) !is Greater,
        order_from(second, third, i) !is Greater,
    ensures
        order_from(first, third, i) !is Greater,
    decreases first.len() - i,
{
    if i < first.len() && i < second.len() && i < third.len() && first[i] == second[i] && second[i] == third[i] {
        lemma_order_is_transitive(first, second, third, i + 1);
    }
}

/// A slice with a step of one is the part between its bounds, and the whole
/// where it has none.
pub proof fn law_plain_slices_are_parts(bytes: Seq<u8>, start: Option<i64>, stop: Option<i64>)
    ensures
        ({
            let (first, last) = slice_bounds(start, stop, 1, bytes.len() as int);
            sliced(bytes, start, stop, None) == Ok::<Seq<u8>, ErrorModel>(
                if first < last {
                    bytes.subrange(first, last)
                } else {
                    Seq::empty()
                },
            )
        }),
        start is None && stop is None ==> sliced(bytes, start, stop, None) == Ok::<Seq<u8>, ErrorModel>(bytes),
{
    let (first, last) = slice_bounds(start, stop, 1, bytes.len() as int);
    if first < last {
        lemma_sliced_part(bytes, first, last);
    }
    assert(bytes.subrange(0, bytes.len() as int) =~= bytes);
    if bytes.len() == 0 {
        assert(Seq::<u8>::empty() =~= bytes);
    }
}

proof fn lemma_sliced_part(bytes: Seq<u8>, at: int, last: int)
    requires
        0 <= at <= last <= bytes.len(),
    ensures
        sliced_from(bytes, at, last, 1) == bytes.subrange(at, last),
    decreases last - at,
{
    if at < last {
        lemma_sliced_part(bytes, at + 1, last);
        assert(seq![bytes[at]] + bytes.subrange(at + 1, last) =~= bytes.subrange(at, last));
    } else {
        assert(bytes.subrange(at, last) =~= Seq::<u8>::empty());
    }
}

/// A slice without bounds and with a step of minus one turns the bytes round.
pub proof fn law_backward_slices_turn(bytes: Seq<u8>)
    ensures
        sliced(bytes, None, None, Some((-1int) as i64)) == Ok::<Seq<u8>, ErrorModel>(bytes.reverse()),
{
    lemma_sliced_backward(bytes, bytes.len() - 1);
    assert(bytes.subrange(0, bytes.len() as int) =~= bytes);
}

proof fn lemma_sliced_backward(bytes: Seq<u8>, at: int)
    requires
        -1 <= at < bytes.len(),
    ensures
        sliced_from(bytes, at, -1, -1) == bytes.subrange(0, at + 1).reverse(),
    decreases at + 1,
{
    if at >= 0 {
        lemma_sliced_backward(bytes, at - 1);
        assert(seq![bytes[at]] + bytes.subrange(0, at).reverse() =~= bytes.subrange(0, at + 1).reverse());
    } else {
        assert(bytes.subrange(0, 0).reverse() =~= Seq::<u8>::empty());
    }
}

/// A repeated byte string has as many bytes as the size that it is held against
/// the limits with.
pub proof fn law_repeated_length(bytes: Seq<u8>, count: nat)
    ensures
        repeated(bytes, count).len() == bytes.len() * count,
    decreases count,
{
    if count > 0 {
        law_repeated_length(bytes, (count - 1) as nat);
        assert(bytes.len() * (count - 1) + bytes.len() == bytes.len() * count) by (nonlinear_arith);
    } else {
        assert(bytes.len() * count == 0) by (nonlinear_arith)
            requires
                count == 0,
        ;
    }
}

/// A slice takes every `step`th byte from where it starts, and goes on as long as
/// it has not reached where it ends.
pub proof fn law_slices_take_every_step(bytes: Seq<u8>, at: int, last: int, step: int, k: int)
    requires
        step != 0,
        0 <= k <= sliced_from(bytes, at, last, step).len(),
    ensures
        ({
            let part = sliced_from(bytes, at, last, step);
            let place = at + k * step;
            &&& k < part.len() ==> 0 <= place < bytes.len() && part[k] == bytes[place] && (step > 0 ==> place < last) && (
            step < 0 ==> place > last)
            &&& k == part.len() ==> place < 0 || place >= bytes.len() || (step > 0 && place >= last) || (step < 0 && place
                <= last)
        }),
    decreases k,
{
    let part = sliced_from(bytes, at, last, step);
    if k > 0 {
        let rest = sliced_from(bytes, at + step, last, step);
        assert(part =~= seq![bytes[at]] + rest);
        law_slices_take_every_step(bytes, at + step, last, step, k - 1);
        assert(at + step + (k - 1) * step == at + k * step) by (nonlinear_arith);
        if k < part.len() {
            assert(part[k] == rest[k - 1]);
        }
    } else {
        assert(k * step == 0) by (nonlinear_arith)
            requires
                k == 0,
        ;
        if part.len() > 0 {
            assert(part[0] == bytes[at]);
        }
    }
}

/// A part is in the bytes where it stands somewhere in them, and a number where
/// one of them is that byte.
pub proof fn law_what_bytes_contain(vm: VmModel, bytes: Seq<u8>, item: Value, part: Seq<u8>, n: i64)
    requires
        item is Ref || item is InternBytes,
        vm.long_int(item) is None,
        vm.bytes_of(item) == Some(part),
        part.len() > 0,
    ensures
        contains_model(vm, bytes, item) == Ok::<bool, ErrorModel>(
            exists|at: int| #[trigger] crate::scan::occurs_at(bytes, part, at),
        ),
        0 <= n <= 255 ==> contains_model(vm, bytes, Value::Int(n)) == Ok::<bool, ErrorModel>(
            exists|at: int| 0 <= at < bytes.len() && #[trigger] bytes[at] == n,
        ),
        n < 0 || n > 255 ==> contains_model(vm, bytes, Value::Int(n)) == Err::<bool, ErrorModel>(
            value_error_model("byte must be in range(0, 256)"@),
        ),
{
    lemma_found_where_it_stands(bytes, part, 0);
    if 0 <= n <= 255 && bytes.contains(n as u8) {
        let at = choose|at: int| 0 <= at < bytes.len() && bytes[at] == n as u8;
        assert(bytes[at] == n);
    }
}

proof fn lemma_found_where_it_stands(bytes: Seq<u8>, part: Seq<u8>, from: int)
    requires
        0 <= from,
    ensures
        first_from(bytes, part, from) is Some ==> crate::scan::occurs_at(bytes, part, first_from(bytes, part, from)->Some_0),
        first_from(bytes, part, from) is None ==> forall|at: int|
            from <= at ==> !#[trigger] crate::scan::occurs_at(bytes, part, at),
    decreases bytes.len() + 1 - from,
{
    if from + part.len() <= bytes.len() && !crate::scan::occurs_at(bytes, part, from) {
        lemma_found_where_it_stands(bytes, part, from + 1);
    }
}

/// Bytes are ordered by the first place where they differ, and bytes that others
/// go on from come before those.
pub proof fn law_order_is_by_the_first_difference(left: Seq<u8>, right: Seq<u8>, i: int, at: int)
    requires
        0 <= i <= at <= left.len(),
        at <= right.len(),
        forall|j: int| i <= j < at ==> #[trigger] left[j] == right[j],
    ensures
        at < left.len() && at < right.len() && left[at] < right[at] ==> order_from(left, right, i) == Order::Less,
        at < left.len() && at < right.len() && left[at] > right[at] ==> order_from(left, right, i) == Order::Greater,
        at == left.len() && at < right.len() ==> order_from(left, right, i) == Order::Less,
        at < left.len() && at == right.len() ==> order_from(left, right, i) == Order::Greater,
        at == left.len() && at == right.len() ==> order_from(left, right, i) == Order::Same,
    decreases at - i,
{
    if i < at {
        assert(left[i] == right[i]);
        law_order_is_by_the_first_difference(left, right, i + 1, at);
    }
}

/// Repeated bytes hold the bytes once more than one time less repeated.
pub proof fn law_repeated_bytes(bytes: Seq<u8>, count: nat, more: nat)
    ensures
        repeated(bytes, 0).len() == 0,
        repeated(bytes, 1) == bytes,
        repeated(bytes, count + more) == repeated(bytes, count) + repeated(bytes, more),
    decreases more,
{
    assert(repeated(bytes, 0) + bytes =~= bytes);
    assert(repeated(bytes, 1) == repeated(bytes, 0) + bytes);
    if more == 0 {
        assert(repeated(bytes, count) + repeated(bytes, 0) =~= repeated(bytes, count));
    } else {
        let less = (more - 1) as nat;
        law_repeated_bytes(bytes, count, less);
        assert(repeated(bytes, count + more) == repeated(bytes, count + less) + bytes);
        assert(repeated(bytes, count) + repeated(bytes, less) + bytes =~= repeated(bytes, count) + (repeated(bytes, less)
            + bytes));
    }
}

} // verus!
