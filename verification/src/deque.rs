//! Double-ended queues.

use crate::args::{bound_args, holds_args, same_outcome, texts_of, ArgValues, ArgsModel};
use crate::bytes::{bind_held, or_default, reply_model, value_or, Question, QuestionModel, Reply, ReplyModel};
use crate::exceptions::{
    raise, raise3, raised, type_error, type_error_model, value_error, value_error_model, ErrorModel, ExcType,
    RunError, RunResult,
};
use crate::heap::{DataModel, HeapData, HeapRead, VM, VmModel};
use crate::resource_checks::{capped_product, limit_error, memory_excess, run_error, saturating_product};
use crate::value::{immediate, immediate_int, HeapId, Value};
use std::collections::VecDeque;
use vstd::prelude::*;

verus! {

/// How many bytes a value takes.
pub const VALUE_SIZE: usize = 16;

/// A double-ended queue. One with a largest length drops items at the other
/// end when it grows beyond.
pub struct Deque {
    pub items: VecDeque<Value>,
    /// The largest length, where there is one.
    pub maxlen: Option<usize>,
    /// Whether an item may be a reference.
    pub contains_refs: bool,
    /// Counts the changes that adding, removing and moving items make.
    pub state: u64,
}

/// A queue as a mathematical value.
#[verifier::ext_equal]
pub struct DequeModel {
    pub items: Seq<Value>,
    pub maxlen: Option<usize>,
    pub contains_refs: bool,
    pub state: u64,
}

impl View for Deque {
    type V = DequeModel;

    open spec fn view(&self) -> DequeModel {
        DequeModel {
            items: self.items@,
            maxlen: self.maxlen,
            contains_refs: self.contains_refs,
            state: self.state,
        }
    }
}

/// The next number of a counter that starts over at its end.
pub open spec fn next_state(state: u64) -> u64 {
    if state == u64::MAX {
        0
    } else {
        (state + 1) as u64
    }
}

/// A length that a queue may not pass.
pub open spec fn fits(len: int, maxlen: Option<usize>) -> bool {
    maxlen matches Some(max) ==> len <= max
}

/// One of the values is a reference.
pub open spec fn any_ref(values: Seq<Value>) -> bool {
    exists|i: int| 0 <= i < values.len() && #[trigger] values[i] is Ref
}

impl DequeModel {
    /// The queue is no longer than allowed, and says so where it may hold a
    /// reference.
    pub open spec fn wf(self) -> bool {
        &&& fits(self.items.len() as int, self.maxlen)
        &&& any_ref(self.items) ==> self.contains_refs
    }

    /// The queue behind a change of its items that counts.
    pub open spec fn changed(self, items: Seq<Value>) -> DequeModel {
        DequeModel { items, state: next_state(self.state), ..self }
    }

    /// The queue with one more item at its right end. One at its left end goes
    /// where there is no room.
    pub open spec fn appended(self, item: Value) -> DequeModel {
        let items = self.items.push(item);
        DequeModel {
            items: if fits(items.len() as int, self.maxlen) {
                items
            } else {
                items.subrange(1, items.len() as int)
            },
            contains_refs: self.contains_refs || item is Ref,
            state: next_state(self.state),
            ..self
        }
    }

    /// The queue with one more item at its left end. One at its right end goes
    /// where there is no room.
    pub open spec fn appended_left(self, item: Value) -> DequeModel {
        let items = seq![item] + self.items;
        DequeModel {
            items: if fits(items.len() as int, self.maxlen) {
                items
            } else {
                items.subrange(0, items.len() - 1)
            },
            contains_refs: self.contains_refs || item is Ref,
            state: next_state(self.state),
            ..self
        }
    }

    /// The queue with the items from `i` on put in, each at the right or each
    /// at the left.
    pub open spec fn extended(self, items: Seq<Value>, i: int, at_left: bool) -> DequeModel
        decreases items.len() - i,
    {
        if i < 0 || i >= items.len() {
            self
        } else if at_left {
            self.appended_left(items[i]).extended(items, i + 1, at_left)
        } else {
            self.appended(items[i]).extended(items, i + 1, at_left)
        }
    }
}

/// The last items of a list, as many as a queue may hold.
pub open spec fn kept_items(items: Seq<Value>, maxlen: Option<usize>) -> Seq<Value> {
    match maxlen {
        Some(max) if items.len() > max => items.subrange(items.len() - max, items.len() as int),
        _ => items,
    }
}

/// The first items of a list, those that a queue may not hold.
pub open spec fn dropped_items(items: Seq<Value>, maxlen: Option<usize>) -> Seq<Value> {
    match maxlen {
        Some(max) if items.len() > max => items.subrange(0, items.len() - max),
        _ => Seq::empty(),
    }
}

/// A new queue of items.
pub open spec fn new_deque(items: Seq<Value>, maxlen: Option<usize>) -> DequeModel {
    let kept = kept_items(items, maxlen);
    DequeModel { items: kept, maxlen, contains_refs: any_ref(kept), state: 0 }
}

/// Says whether a value is a reference.
pub fn is_ref(value: Value) -> (found: bool)
    ensures
        found == (value is Ref),
{
    match value {
        Value::Ref(_) => true,
        _ => false,
    }
}

impl Deque {
    /// Makes a queue of the last items of a list, as many as it may hold, and
    /// hands back the others.
    pub fn new(items: Vec<Value>, maxlen: Option<usize>) -> (made: (Deque, Vec<Value>))
        ensures
            made.0@ == new_deque(items@, maxlen),
            made.0@.wf(),
            made.1@ == dropped_items(items@, maxlen),
    {
        let count: usize = items.len();
        let gone: usize = match maxlen {
            Some(max) => count.saturating_sub(max),
            None => 0,
        };
        let mut queue: VecDeque<Value> = VecDeque::new();
        let mut evicted: Vec<Value> = Vec::new();
        let mut contains_refs: bool = false;
        let mut i: usize = 0;
        while i < count
            invariant
                i <= count == items@.len(),
                gone <= count,
                gone == (match maxlen {
                    Some(max) => if count > max {
                        count - max
                    } else {
                        0
                    },
                    None => 0,
                }),
                evicted@ == items@.subrange(
                    0,
                    if i < gone {
                        i as int
                    } else {
                        gone as int
                    },
                ),
                queue@ == items@.subrange(
                    gone as int,
                    if i < gone {
                        gone as int
                    } else {
                        i as int
                    },
                ),
                contains_refs == any_ref(queue@),
            decreases count - i,
        {
            let item: Value = items[i];
            let ghost before = queue@;
            if i < gone {
                evicted.push(item);
                assert(evicted@ =~= items@.subrange(0, i + 1));
            } else {
                queue.push_back(item);
                assert(queue@ =~= items@.subrange(gone as int, i + 1));
                if is_ref(item) {
                    contains_refs = true;
                    assert(queue@[queue@.len() - 1] is Ref);
                } else {
                    proof {
                        if any_ref(before) {
                            let j = choose|j: int| 0 <= j < before.len() && before[j] is Ref;
                            assert(queue@[j] is Ref);
                        }
                        if any_ref(queue@) {
                            let j = choose|j: int| 0 <= j < queue@.len() && queue@[j] is Ref;
                            assert(before[j] is Ref);
                        }
                    }
                }
            }
            i = i + 1;
        }
        assert(queue@ =~= kept_items(items@, maxlen));
        assert(evicted@ =~= dropped_items(items@, maxlen));
        (Deque { items: queue, maxlen, contains_refs, state: 0 }, evicted)
    }

    /// How many items there are.
    pub fn len(&self) -> (len: usize)
        ensures
            len == self@.items.len(),
    {
        self.items.len()
    }

    /// The largest length, where there is one.
    pub fn maxlen(&self) -> (maxlen: Option<usize>)
        ensures
            maxlen == self@.maxlen,
    {
        self.maxlen
    }

    /// Whether an item may be a reference.
    pub fn contains_refs(&self) -> (found: bool)
        ensures
            found == self@.contains_refs,
    {
        self.contains_refs
    }

    /// The number of changes so far.
    pub fn state(&self) -> (state: u64)
        ensures
            state == self@.state,
    {
        self.state
    }

    /// Counts a change.
    pub fn bump_state(&mut self)
        ensures
            final(self)@ == old(self)@.changed(old(self)@.items),
    {
        self.state = self.state.wrapping_add(1);
    }

    /// The item at a place.
    pub fn get(&self, index: usize) -> (item: Option<Value>)
        ensures
            item == if index < self@.items.len() {
                Some(self@.items[index as int])
            } else {
                None
            },
    {
        if index < self.items.len() {
            Some(self.items[index])
        } else {
            None
        }
    }

    /// All items in order.
    pub fn iter(&self) -> (items: Vec<Value>)
        ensures
            items@ == self@.items,
    {
        let mut items: Vec<Value> = Vec::new();
        let mut i: usize = 0;
        while i < self.items.len()
            invariant
                i <= self.items@.len(),
                items@ == self.items@.subrange(0, i as int),
            decreases self.items@.len() - i,
        {
            items.push(self.items[i]);
            i = i + 1;
            assert(items@ =~= self.items@.subrange(0, i as int));
        }
        assert(items@ =~= self.items@);
        items
    }

    /// Lists the items of the heap that the queue keeps alive.
    pub fn py_dec_ref_ids(&mut self, stack: &mut Vec<HeapId>)
        requires
            old(self)@.wf(),
        ensures
            final(self)@ == old(self)@,
            final(stack)@ == old(stack)@ + ref_ids(old(self)@.items, 0),
    {
        let ghost before = stack@;
        if !self.contains_refs {
            proof {
                lemma_no_ref_ids(self@.items, 0);
                assert(before + Seq::<HeapId>::empty() =~= before);
            }
            return;
        }
        let mut i: usize = 0;
        assert(before + ref_ids(self@.items, 0) =~= stack@ + ref_ids(self@.items, 0));
        while i < self.items.len()
            invariant
                i <= self@.items.len(),
                self@ == old(self)@,
                stack@ + ref_ids(self@.items, i as int) == before + ref_ids(self@.items, 0),
                before == old(stack)@,
            decreases self@.items.len() - i,
        {
            let ghost done = stack@;
            match self.items[i] {
                Value::Ref(id) => {
                    stack.push(id);
                    proof {
                        let rest = ref_ids(self@.items, i + 1);
                        assert(done + (seq![id] + rest) =~= stack@ + rest);
                    }
                },
                _ => {},
            }
            i = i + 1;
        }
        assert(stack@ + Seq::<HeapId>::empty() =~= stack@);
    }
}

/// The items of the heap that a list of values refers to, from `i` on.
pub open spec fn ref_ids(values: Seq<Value>, i: int) -> Seq<HeapId>
    decreases values.len() - i,
{
    if i < 0 || i >= values.len() {
        Seq::empty()
    } else {
        match values[i] {
            Value::Ref(id) => seq![id] + ref_ids(values, i + 1),
            _ => ref_ids(values, i + 1),
        }
    }
}

/// Values without references refer to nothing.
pub proof fn lemma_no_ref_ids(values: Seq<Value>, i: int)
    requires
        !any_ref(values),
        0 <= i,
    ensures
        ref_ids(values, i) == Seq::<HeapId>::empty(),
    decreases values.len() - i,
{
    if i < values.len() {
        assert(!(values[i] is Ref));
        lemma_no_ref_ids(values, i + 1);
    }
}

impl HeapRead<Deque> {
    /// Puts an item at the right end. Where there is no room, one at the left
    /// end goes.
    pub fn append(&mut self, item: Value)
        requires
            old(self).item@.wf(),
        ensures
            final(self).item@ == old(self).item@.appended(item),
            final(self).item@.wf(),
    {
        let ghost before = self.item@;
        if is_ref(item) {
            self.item.contains_refs = true;
        }
        self.item.items.push_back(item);
        self.item.bump_state();
        match self.item.maxlen {
            Some(max) => {
                if self.item.items.len() > max {
                    let _gone = self.item.items.pop_front();
                }
            },
            None => {},
        }
        proof {
            assert(self.item@ =~= before.appended(item));
            law_appended_keeps_wf(before, item);
        }
    }

    /// Puts an item at the left end. Where there is no room, one at the right
    /// end goes.
    pub fn appendleft(&mut self, item: Value)
        requires
            old(self).item@.wf(),
        ensures
            final(self).item@ == old(self).item@.appended_left(item),
            final(self).item@.wf(),
    {
        let ghost before = self.item@;
        if is_ref(item) {
            self.item.contains_refs = true;
        }
        self.item.items.push_front(item);
        self.item.bump_state();
        match self.item.maxlen {
            Some(max) => {
                if self.item.items.len() > max {
                    let _gone = self.item.items.pop_back();
                }
            },
            None => {},
        }
        proof {
            assert(self.item@ =~= before.appended_left(item));
            law_appended_left_keeps_wf(before, item);
        }
    }
}

/// A queue that keeps its bound and its mark keeps them when an item is put in
/// at the right.
pub proof fn law_appended_keeps_wf(deque: DequeModel, item: Value)
    requires
        deque.wf(),
    ensures
        deque.appended(item).wf(),
{
    let after = deque.appended(item);
    if any_ref(after.items) {
        let j = choose|j: int| 0 <= j < after.items.len() && after.items[j] is Ref;
        let items = deque.items.push(item);
        let from = items.len() - after.items.len();
        assert(after.items[j] == items[from + j]);
        if from + j < deque.items.len() {
            assert(deque.items[from + j] is Ref);
        }
    }
}

/// A queue that keeps its bound and its mark keeps them when an item is put in
/// at the left.
pub proof fn law_appended_left_keeps_wf(deque: DequeModel, item: Value)
    requires
        deque.wf(),
    ensures
        deque.appended_left(item).wf(),
{
    let after = deque.appended_left(item);
    if any_ref(after.items) {
        let j = choose|j: int| 0 <= j < after.items.len() && after.items[j] is Ref;
        let items = seq![item] + deque.items;
        assert(after.items[j] == items[j]);
        if j > 0 {
            assert(deque.items[j - 1] is Ref);
        }
    }
}

/// An item put in at the right of a queue that may hold one stands at its
/// right end.
pub proof fn law_appended_item_is_last(deque: DequeModel, item: Value)
    requires
        deque.wf(),
        deque.maxlen != Some(0usize),
    ensures
        deque.appended(item).items.len() > 0,
        deque.appended(item).items.last() == item,
{
}

/// A full queue drops exactly its leftmost item when one is put in at the
/// right.
pub proof fn law_full_deque_drops_leftmost(deque: DequeModel, item: Value)
    requires
        deque.wf(),
        deque.maxlen == Some(deque.items.len() as usize),
        0 < deque.items.len() <= usize::MAX,
    ensures
        deque.appended(item).items == deque.items.subrange(1, deque.items.len() as int).push(item),
{
    assert(deque.items.push(item).subrange(1, (deque.items.len() + 1) as int) =~= deque.items.subrange(
        1,
        deque.items.len() as int,
    ).push(item));
}

/// Taking an item from the left of a queue that had room when it was put in
/// there gives the items back.
pub proof fn law_appended_left_then_removed(deque: DequeModel, item: Value)
    requires
        fits((deque.items.len() + 1) as int, deque.maxlen),
    ensures
        deque.appended_left(item).items[0] == item,
        deque.appended_left(item).items.subrange(1, (deque.items.len() + 1) as int) == deque.items,
{
    assert((seq![item] + deque.items).subrange(1, (deque.items.len() + 1) as int) =~= deque.items);
}

/// Extending keeps the bound and the mark.
pub proof fn law_extended_keeps_wf(deque: DequeModel, items: Seq<Value>, i: int, at_left: bool)
    requires
        deque.wf(),
    ensures
        deque.extended(items, i, at_left).wf(),
    decreases items.len() - i,
{
    if 0 <= i < items.len() {
        law_appended_keeps_wf(deque, items[i]);
        law_appended_left_keeps_wf(deque, items[i]);
        if at_left {
            law_extended_keeps_wf(deque.appended_left(items[i]), items, i + 1, at_left);
        } else {
            law_extended_keeps_wf(deque.appended(items[i]), items, i + 1, at_left);
        }
    }
}

/// An integer argument. One that no index can be fails with the given error.
pub open spec fn ssize(vm: VmModel, value: Value, overflow: ErrorModel) -> Option<Result<i64, ErrorModel>> {
    match immediate(value) {
        Some(n) => Some(Ok(n)),
        None => if vm.long_int(value) is Some {
            Some(Err(overflow))
        } else {
            None
        },
    }
}

/// The error about an integer that is too large.
pub open spec fn ssize_overflow() -> ErrorModel {
    raised(ExcType::OverflowError, "Python int too large to convert to C ssize_t"@)
}

/// What an integer argument is.
#[derive(Clone, Copy, Debug, PartialEq, Eq, Structural)]
pub enum Ssize {
    Number(i64),
    TooLarge,
    NoInteger,
}

/// Reads an integer argument.
pub fn read_ssize(value: Value, vm: &VM) -> (number: Ssize)
    requires
        vm@.holds(value),
    ensures
        forall|overflow: ErrorModel|
            #[trigger] ssize(vm@, value, overflow) == match number {
                Ssize::Number(n) => Some(Ok::<i64, ErrorModel>(n)),
                Ssize::TooLarge => Some(Err::<i64, ErrorModel>(overflow)),
                Ssize::NoInteger => None,
            },
{
    match immediate_int(value) {
        Some(n) => Ssize::Number(n),
        None => if vm.get_long_int(value).is_some() {
            Ssize::TooLarge
        } else {
            Ssize::NoInteger
        },
    }
}

/// The place that an index names, counted from the right where it is negative.
pub open spec fn deque_place(vm: VmModel, len: int, key: Value) -> Result<int, ErrorModel> {
    match ssize(vm, key, raised(ExcType::IndexError, "cannot fit 'int' into an index-sized integer"@)) {
        Some(Ok(index)) => {
            let place = if index < 0 {
                index + len
            } else {
                index as int
            };
            if 0 <= place < len {
                Ok(place)
            } else {
                Err(raised(ExcType::IndexError, "deque index out of range"@))
            }
        },
        Some(Err(error)) => Err(error),
        None => Err(type_error_model("sequence index must be integer, not '"@ + vm.name_of_type(key) + "'"@)),
    }
}

/// The result is what the model gives.
pub open spec fn same_result<T>(result: RunResult<T>, model: Result<T, ErrorModel>) -> bool {
    same_outcome(result, model)
}

impl HeapRead<Deque> {
    /// Finds the place that an index names.
    pub fn resolve_index(&self, key: Value, vm: &VM) -> (place: RunResult<usize>)
        requires
            vm@.holds(key),
        ensures
            match (place, deque_place(vm@, self.item@.items.len() as int, key)) {
                (Ok(place), Ok(expected)) => place == expected && place < self.item@.items.len(),
                (Err(error), Err(expected)) => error@ == expected,
                _ => false,
            },
    {
        let ghost overflow = raised(ExcType::IndexError, "cannot fit 'int' into an index-sized integer"@);
        assert(ssize(vm@, key, overflow) == ssize(vm@, key, overflow));
        match read_ssize(key, vm) {
            Ssize::Number(index) => {
                let len: i128 = self.item.items.len() as i128;
                let place: i128 = if index < 0 {
                    index as i128 + len
                } else {
                    index as i128
                };
                if place < 0 || place >= len {
                    return Err(raise(ExcType::IndexError, "deque index out of range"));
                }
                Ok(place as usize)
            },
            Ssize::TooLarge => Err(raise(ExcType::IndexError, "cannot fit 'int' into an index-sized integer")),
            Ssize::NoInteger => Err(
                raise3(
                    ExcType::TypeError,
                    "sequence index must be integer, not '",
                    vm.py_type_name(key),
                    "'",
                ),
            ),
        }
    }

    /// `deque[key]`.
    pub fn py_getitem(&self, key: Value, vm: &VM) -> (item: RunResult<Value>)
        requires
            vm@.holds(key),
        ensures
            match (item, deque_place(vm@, self.item@.items.len() as int, key)) {
                (Ok(item), Ok(place)) => item == self.item@.items[place],
                (Err(error), Err(expected)) => error@ == expected,
                _ => false,
            },
    {
        let place: usize = self.resolve_index(key, vm)?;
        Ok(self.item.items[place])
    }

    /// `deque[key] = value`. Iterators go on after it.
    pub fn py_setitem(&mut self, key: Value, value: Value, vm: &VM) -> (done: RunResult<()>)
        requires
            vm@.holds(key),
            old(self).item@.wf(),
        ensures
            final(self).item@.wf(),
            match (done, deque_place(vm@, old(self).item@.items.len() as int, key)) {
                (Ok(_), Ok(place)) => final(self).item@ == (DequeModel {
                    items: old(self).item@.items.update(place, value),
                    contains_refs: old(self).item@.contains_refs || value is Ref,
                    ..old(self).item@
                }),
                (Err(error), Err(expected)) => error@ == expected && final(self).item@ == old(self).item@,
                _ => false,
            },
    {
        let ghost before = self.item@;
        let place: usize = self.resolve_index(key, vm)?;
        if is_ref(value) {
            self.item.contains_refs = true;
        }
        let tail = self.item.items.split_off(place);
        let mut rest = tail;
        let _old = rest.pop_front();
        self.item.items.push_back(value);
        self.item.items.append(&mut rest);
        proof {
            assert(self.item@.items =~= before.items.update(place as int, value));
            if any_ref(self.item@.items) {
                let j = choose|j: int| 0 <= j < self.item@.items.len() && self.item@.items[j] is Ref;
                if j != place {
                    assert(before.items[j] is Ref);
                }
            }
        }
        Ok(())
    }

    /// `del deque[key]`.
    pub fn py_delitem(&mut self, key: Value, vm: &VM) -> (done: RunResult<()>)
        requires
            vm@.holds(key),
            old(self).item@.wf(),
        ensures
            final(self).item@.wf(),
            match (done, deque_place(vm@, old(self).item@.items.len() as int, key)) {
                (Ok(_), Ok(place)) => final(self).item@ == old(self).item@.changed(
                    old(self).item@.items.remove(place),
                ),
                (Err(error), Err(expected)) => error@ == expected && final(self).item@ == old(self).item@,
                _ => false,
            },
    {
        let ghost before = self.item@;
        let place: usize = self.resolve_index(key, vm)?;
        let _removed = self.item.items.remove(place);
        self.item.bump_state();
        proof {
            lemma_remove_keeps_wf(before, place as int);
        }
        Ok(())
    }

    /// All items in order, held against the memory limit first.
    pub fn clone_all_items(&self, vm: &VM) -> (items: RunResult<Vec<Value>>)
        ensures
            match (items, memory_excess(vm@.tracker, items_size(self.item@.items.len() as int))) {
                (Ok(items), None) => items@ == self.item@.items,
                (Err(error), Some(limit)) => error@ == limit_error(limit),
                _ => false,
            },
    {
        match vm.tracker.check_large_result(saturating_product(self.item.items.len(), VALUE_SIZE)) {
            Ok(_) => {},
            Err(limit) => return Err(run_error(limit)),
        }
        Ok(self.item.iter())
    }
}

/// The bytes that so many values take.
pub open spec fn items_size(count: int) -> usize {
    capped_product(count, VALUE_SIZE as int, usize::MAX as int) as usize
}

/// Removing an item keeps the bound and the mark.
proof fn lemma_remove_keeps_wf(deque: DequeModel, place: int)
    requires
        deque.wf(),
        0 <= place < deque.items.len(),
    ensures
        deque.changed(deque.items.remove(place)).wf(),
{
    let items = deque.items.remove(place);
    if any_ref(items) {
        let j = choose|j: int| 0 <= j < items.len() && items[j] is Ref;
        if j < place {
            assert(deque.items[j] is Ref);
        } else {
            assert(deque.items[j + 1] is Ref);
        }
    }
}

/// What an operation on a queue makes.
pub enum DequeMade {
    Plain(Value),
    /// A new queue.
    Deque(Deque),
    /// The host has to answer first.
    Ask(Question),
    /// The host has to compare two values first.
    Compare(Value, Value),
}

/// What an operation on a queue makes, as a mathematical value.
#[verifier::ext_equal]
pub enum DequeMadeModel {
    Plain(Value),
    Deque(DequeModel),
    Ask(QuestionModel),
    Compare(Value, Value),
}

impl View for DequeMade {
    type V = DequeMadeModel;

    open spec fn view(&self) -> DequeMadeModel {
        match *self {
            DequeMade::Plain(value) => DequeMadeModel::Plain(value),
            DequeMade::Deque(deque) => DequeMadeModel::Deque(deque@),
            DequeMade::Ask(question) => DequeMadeModel::Ask(question@),
            DequeMade::Compare(left, right) => DequeMadeModel::Compare(left, right),
        }
    }
}

/// What an operation on a queue gives.
pub type DequeOutcome = Result<DequeMadeModel, ErrorModel>;

/// The result is what the model gives.
pub open spec fn makes_deque(result: RunResult<DequeMade>, model: DequeOutcome) -> bool {
    match (result, model) {
        (Ok(made), Ok(expected)) => made@ == expected,
        (Err(error), Err(expected)) => error@ == expected,
        _ => false,
    }
}

/// The items that a value yields, where they are known: those of a list or a
/// tuple.
pub open spec fn known_items(vm: VmModel, value: Value) -> Option<Seq<Value>> {
    match value {
        Value::Ref(id) => match vm.heap[id as int] {
            DataModel::Tuple(items) => Some(items),
            DataModel::List(items) => Some(items),
            _ => None,
        },
        _ => None,
    }
}

/// The items that a value yields, where they are known.
pub fn get_known_items<'a>(vm: &'a VM, value: Value) -> (items: Option<&'a Vec<Value>>)
    requires
        vm@.holds(value),
        vm@.wf(),
    ensures
        match items {
            Some(items) => known_items(vm@, value) == Some(items@) && vm@.holds_all(items@),
            None => known_items(vm@, value) is None,
        },
{
    match value {
        Value::Ref(id) => {
            assert(vm@.data_wf(vm@.heap[id as int]));
            match &vm.heap[id] {
                HeapData::Tuple(items) => Some(items),
                HeapData::List(items) => Some(items),
                _ => None,
            }
        },
        _ => None,
    }
}

/// The error about a value that cannot be iterated.
pub open spec fn not_iterable_error(vm: VmModel, value: Value) -> ErrorModel {
    type_error_model("'"@ + vm.name_of_type(value) + "' object is not iterable"@)
}

/// Reports that a value cannot be iterated.
pub fn not_iterable(vm: &VM, value: Value) -> (error: RunError)
    requires
        vm@.holds(value),
    ensures
        error@ == not_iterable_error(vm@, value),
{
    raise3(ExcType::TypeError, "'", vm.py_type_name(value), "' object is not iterable")
}

/// The parameters of the constructor.
pub open spec fn deque_params() -> Seq<Seq<char>> {
    seq!["iterable"@, "maxlen"@]
}

/// A largest length, where one is given.
pub open spec fn maxlen_arg(vm: VmModel, value: Value) -> Result<Option<usize>, ErrorModel> {
    if value is NoneValue {
        Ok(None)
    } else {
        match ssize(vm, value, ssize_overflow()) {
            None => Err(type_error_model("an integer is required"@)),
            Some(Err(error)) => Err(error),
            Some(Ok(n)) => if n < 0 {
                Err(value_error_model("maxlen must be non-negative"@))
            } else if n > usize::MAX {
                Err(ssize_overflow())
            } else {
                Ok(Some(n as usize))
            },
        }
    }
}

/// Reads a largest length.
fn read_maxlen(vm: &VM, value: Value) -> (maxlen: RunResult<Option<usize>>)
    requires
        vm@.holds(value),
    ensures
        same_result(maxlen, maxlen_arg(vm@, value)),
{
    match value {
        Value::NoneValue => {
            return Ok(None);
        },
        _ => {},
    }
    assert(ssize(vm@, value, ssize_overflow()) == ssize(vm@, value, ssize_overflow()));
    match read_ssize(value, vm) {
        Ssize::NoInteger => Err(type_error("an integer is required")),
        Ssize::TooLarge => Err(raise(ExcType::OverflowError, "Python int too large to convert to C ssize_t")),
        Ssize::Number(n) => {
            if n < 0 {
                return Err(value_error("maxlen must be non-negative"));
            }
            if n as u64 > usize::MAX as u64 {
                return Err(raise(ExcType::OverflowError, "Python int too large to convert to C ssize_t"));
            }
            Ok(Some(n as usize))
        },
    }
}

/// A new queue of the items that the host gave, or the error that ended them.
pub open spec fn deque_of(items: Seq<Value>, failure: Option<ErrorModel>, maxlen: Option<usize>) -> DequeOutcome {
    match failure {
        Some(error) => Err(error),
        None => Ok(DequeMadeModel::Deque(new_deque(items, maxlen))),
    }
}

/// The constructor. The largest length is looked at before the items.
pub open spec fn deque_init_model(vm: VmModel, args: ArgsModel, reply: Option<ReplyModel>) -> DequeOutcome {
    match bound_args("deque"@, deque_params(), 0, args) {
        Err(error) => Err(error),
        Ok(slots) => match maxlen_arg(vm, or_default(slots[1], Value::NoneValue)) {
            Err(error) => Err(error),
            Ok(maxlen) => match slots[0] {
                None => deque_of(Seq::empty(), None, maxlen),
                Some(value) => match known_items(vm, value) {
                    Some(items) => deque_of(items, None, maxlen),
                    None => if !vm.iterable(value) {
                        Err(not_iterable_error(vm, value))
                    } else {
                        match reply {
                            Some(ReplyModel::Items(items, failure)) => deque_of(items, failure, maxlen),
                            Some(ReplyModel::Failed(error)) => Err(error),
                            _ => Ok(DequeMadeModel::Ask(QuestionModel::Items(value))),
                        }
                    },
                },
            },
        },
    }
}

/// A copy of a list of values.
pub fn copy_values(values: &Vec<Value>) -> (copy: Vec<Value>)
    ensures
        copy@ == values@,
{
    let mut copy: Vec<Value> = Vec::new();
    let mut i: usize = 0;
    while i < values.len()
        invariant
            i <= values@.len(),
            copy@ == values@.subrange(0, i as int),
        decreases values@.len() - i,
    {
        copy.push(values[i]);
        i = i + 1;
        assert(copy@ =~= values@.subrange(0, i as int));
    }
    assert(copy@ =~= values@);
    copy
}

impl Deque {
    /// Makes a queue as the constructor does.
    pub fn init(vm: &VM, args: &ArgValues, reply: Option<Reply>) -> (result: RunResult<DequeMade>)
        requires
            holds_args(vm@, args@),
            vm@.wf(),
        ensures
            makes_deque(result, deque_init_model(vm@, args@, reply_model(reply))),
    {
        let params = vec!["iterable", "maxlen"];
        assert(texts_of(params@) =~= deque_params());
        let slots = bind_held(vm, args, "deque", &params, 0)?;
        let maxlen = read_maxlen(vm, value_or(slots[1], Value::NoneValue))?;
        match slots[0] {
            None => {
                let none: Vec<Value> = Vec::new();
                assert(none@ =~= Seq::<Value>::empty());
                Ok(DequeMade::Deque(Deque::new(none, maxlen).0))
            },
            Some(value) => {
                match get_known_items(vm, value) {
                    Some(items) => {
                        return Ok(DequeMade::Deque(Deque::new(copy_values(items), maxlen).0));
                    },
                    None => {},
                }
                if !vm.py_is_iterable(value) {
                    return Err(not_iterable(vm, value));
                }
                match reply {
                    Some(Reply::Items(items, failure)) => match failure {
                        Some(error) => Err(error),
                        None => Ok(DequeMade::Deque(Deque::new(items, maxlen).0)),
                    },
                    Some(Reply::Failed(error)) => Err(error),
                    _ => Ok(DequeMade::Ask(Question::Items(value))),
                }
            },
        }
    }
}

/// Taking an item from the right of a queue that had room when it was put in
/// there gives the items back.
pub proof fn law_appended_then_removed(deque: DequeModel, item: Value)
    requires
        fits((deque.items.len() + 1) as int, deque.maxlen),
    ensures
        deque.appended(item).items.last() == item,
        deque.appended(item).items.drop_last() == deque.items,
{
    assert(deque.items.push(item).drop_last() =~= deque.items);
}

} // verus!
