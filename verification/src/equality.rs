//! Equality of values, as far as it can be seen without running code.

use crate::bytes_text::same_bytes;
use crate::heap::{DataModel, HeapData, VmModel, VM};
use crate::text::same_text;
use crate::value::{immediate, immediate_int, Value};
use vstd::prelude::*;

verus! {

/// Whether two values are equal, where no code has to run to say so: a value
/// is equal to itself, and numbers, texts and byte strings are compared by
/// what they hold. A value of another type on the right is left open.
pub open spec fn native_equality(vm: VmModel, left: Value, right: Value) -> Option<bool> {
    if left == right {
        Some(true)
    } else {
        match immediate(left) {
            Some(a) => match immediate(right) {
                Some(b) => Some(a == b),
                None => if vm.long_int(right) is Some {
                    Some(false)
                } else {
                    None
                },
            },
            None => if vm.long_int(left) is Some {
                if immediate(right) is Some {
                    Some(false)
                } else {
                    None
                }
            } else {
                match (vm.text_of(left), vm.text_of(right)) {
                    (Some(a), Some(b)) => Some(a == b),
                    _ => match (vm.bytes_of(left), vm.bytes_of(right)) {
                        (Some(a), Some(b)) => Some(a == b),
                        _ => None,
                    },
                }
            },
        }
    }
}

/// Says whether two values are equal, where no code has to run to say so.
pub fn probe_native_eq(left: Value, right: Value, vm: &VM) -> (equal: Option<bool>)
    requires
        vm@.holds(left),
        vm@.holds(right),
    ensures
        equal == native_equality(vm@, left, right),
{
    if left == right {
        return Some(true);
    }
    match immediate_int(left) {
        Some(a) => {
            return match immediate_int(right) {
                Some(b) => Some(a == b),
                None => {
                    if vm.get_long_int(right).is_some() {
                        Some(false)
                    } else {
                        None
                    }
                },
            };
        },
        None => {},
    }
    if vm.get_long_int(left).is_some() {
        return if immediate_int(right).is_some() {
            Some(false)
        } else {
            None
        };
    }
    match (vm.get_text(left), vm.get_text(right)) {
        (Some(a), Some(b)) => {
            return Some(same_text(a, b));
        },
        _ => {},
    }
    match (vm.get_bytes(left), vm.get_bytes(right)) {
        (Some(a), Some(b)) => Some(same_bytes(a, b)),
        _ => None,
    }
}

/// A comparison with the value never runs code.
pub open spec fn native_value(vm: VmModel, value: Value) -> bool {
    match value {
        Value::Ref(id) => match vm.heap[id as int] {
            DataModel::Str(_) => true,
            DataModel::Bytes(_) => true,
            DataModel::LongInt { .. } => true,
            _ => false,
        },
        _ => true,
    }
}

/// Says whether a comparison with the value never runs code.
pub fn eq_is_native(value: Value, vm: &VM) -> (native: bool)
    requires
        vm@.holds(value),
    ensures
        native == native_value(vm@, value),
{
    match value {
        Value::Ref(id) => match &vm.heap[id] {
            HeapData::Str(_) => true,
            HeapData::Bytes(_) => true,
            HeapData::LongInt { .. } => true,
            _ => false,
        },
        _ => true,
    }
}

/// The answer to one comparison: seen from here, or the next of those that
/// the host gave.
pub open spec fn equality_or_next(vm: VmModel, left: Value, right: Value, answers: Seq<bool>, used: int) -> Option<
    bool,
> {
    match native_equality(vm, left, right) {
        Some(equal) => Some(equal),
        None => if 0 <= used < answers.len() {
            Some(answers[used])
        } else {
            None
        },
    }
}

/// How many answers of the host a comparison takes.
pub open spec fn answers_used(vm: VmModel, left: Value, right: Value) -> int {
    if native_equality(vm, left, right) is None {
        1
    } else {
        0
    }
}

/// What a search for an equal item gives.
#[derive(Clone, Copy, Debug, PartialEq, Eq, Structural)]
pub enum Scan {
    /// The first equal item stands here.
    Found(usize),
    /// No item is equal.
    Missing,
    /// The host has to compare these two first.
    Compare(Value, Value),
}

/// Searches the items from `i` up to `stop` for one that is equal. The item
/// stands at the left of each comparison.
pub open spec fn scan_from(
    vm: VmModel,
    items: Seq<Value>,
    target: Value,
    i: int,
    stop: int,
    answers: Seq<bool>,
    used: int,
) -> Scan
    decreases stop - i,
{
    if i < 0 || i >= stop || i >= items.len() {
        Scan::Missing
    } else {
        match equality_or_next(vm, items[i], target, answers, used) {
            None => Scan::Compare(items[i], target),
            Some(true) => Scan::Found(i as usize),
            Some(false) => scan_from(
                vm,
                items,
                target,
                i + 1,
                stop,
                answers,
                used + answers_used(vm, items[i], target),
            ),
        }
    }
}

/// Searches the items from `start` up to `stop` for one that is equal.
pub fn scan_equal(items: &Vec<Value>, target: Value, start: usize, stop: usize, answers: &Vec<bool>, vm: &VM) -> (scan:
    Scan)
    requires
        vm@.holds_all(items@),
        vm@.holds(target),
    ensures
        scan == scan_from(vm@, items@, target, start as int, stop as int, answers@, 0),
        scan matches Scan::Found(at) ==> start <= at < items@.len(),
{
    let mut i: usize = start;
    let mut used: usize = 0;
    while i < stop && i < items.len()
        invariant
            start <= i,
            used <= answers@.len(),
            vm@.holds_all(items@),
            vm@.holds(target),
            scan_from(vm@, items@, target, i as int, stop as int, answers@, used as int) == scan_from(
                vm@,
                items@,
                target,
                start as int,
                stop as int,
                answers@,
                0,
            ),
        decreases stop - i,
    {
        let equal: bool = match probe_native_eq(items[i], target, vm) {
            Some(equal) => equal,
            None => {
                if used >= answers.len() {
                    return Scan::Compare(items[i], target);
                }
                used = used + 1;
                answers[used - 1]
            },
        };
        if equal {
            return Scan::Found(i);
        }
        i = i + 1;
    }
    Scan::Missing
}

/// What a count of equal items gives.
#[derive(Clone, Copy, Debug, PartialEq, Eq, Structural)]
pub enum Tally {
    Count(usize),
    /// The host has to compare these two first.
    Compare(Value, Value),
}

/// Counts the items from `i` on that are equal, behind `total` counted before.
pub open spec fn tally_from(
    vm: VmModel,
    items: Seq<Value>,
    target: Value,
    i: int,
    answers: Seq<bool>,
    used: int,
    total: nat,
) -> Tally
    decreases items.len() - i,
{
    if i < 0 || i >= items.len() {
        Tally::Count(total as usize)
    } else {
        match equality_or_next(vm, items[i], target, answers, used) {
            None => Tally::Compare(items[i], target),
            Some(equal) => tally_from(
                vm,
                items,
                target,
                i + 1,
                answers,
                used + answers_used(vm, items[i], target),
                if equal {
                    total + 1
                } else {
                    total
                },
            ),
        }
    }
}

/// Counts the items that are equal.
pub fn tally_equal(items: &Vec<Value>, target: Value, answers: &Vec<bool>, vm: &VM) -> (tally: Tally)
    requires
        vm@.holds_all(items@),
        vm@.holds(target),
    ensures
        tally == tally_from(vm@, items@, target, 0, answers@, 0, 0),
        tally matches Tally::Count(count) ==> count <= items@.len(),
{
    let mut i: usize = 0;
    let mut used: usize = 0;
    let mut total: usize = 0;
    while i < items.len()
        invariant
            i <= items@.len(),
            total <= i,
            used <= answers@.len(),
            vm@.holds_all(items@),
            vm@.holds(target),
            tally_from(vm@, items@, target, i as int, answers@, used as int, total as nat) == tally_from(
                vm@,
                items@,
                target,
                0,
                answers@,
                0,
                0,
            ),
        decreases items@.len() - i,
    {
        let equal: bool = match probe_native_eq(items[i], target, vm) {
            Some(equal) => equal,
            None => {
                if used >= answers.len() {
                    return Tally::Compare(items[i], target);
                }
                used = used + 1;
                answers[used - 1]
            },
        };
        if equal {
            total = total + 1;
        }
        i = i + 1;
    }
    Tally::Count(total)
}

/// What a comparison of two lists, item by item, gives.
#[derive(Clone, Copy, Debug, PartialEq, Eq, Structural)]
pub enum SameItems {
    Equal,
    Different,
    /// The host has to compare these two first.
    Compare(Value, Value),
}

/// Compares two lists of one length, item by item, from `i` on.
pub open spec fn same_items_from(
    vm: VmModel,
    left: Seq<Value>,
    right: Seq<Value>,
    i: int,
    answers: Seq<bool>,
    used: int,
) -> SameItems
    decreases left.len() - i,
{
    if i < 0 || i >= left.len() || i >= right.len() {
        SameItems::Equal
    } else {
        match equality_or_next(vm, left[i], right[i], answers, used) {
            None => SameItems::Compare(left[i], right[i]),
            Some(false) => SameItems::Different,
            Some(true) => same_items_from(
                vm,
                left,
                right,
                i + 1,
                answers,
                used + answers_used(vm, left[i], right[i]),
            ),
        }
    }
}

/// The comparison of two lists: those of other lengths differ.
pub open spec fn lists_equal(vm: VmModel, left: Seq<Value>, right: Seq<Value>, answers: Seq<bool>) -> SameItems {
    if left.len() != right.len() {
        SameItems::Different
    } else {
        same_items_from(vm, left, right, 0, answers, 0)
    }
}

/// Compares two lists, item by item.
pub fn compare_lists(left: &Vec<Value>, right: &Vec<Value>, answers: &Vec<bool>, vm: &VM) -> (same: SameItems)
    requires
        vm@.holds_all(left@),
        vm@.holds_all(right@),
    ensures
        same == lists_equal(vm@, left@, right@, answers@),
{
    if left.len() != right.len() {
        return SameItems::Different;
    }
    let mut i: usize = 0;
    let mut used: usize = 0;
    while i < left.len()
        invariant
            i <= left@.len(),
            left@.len() == right@.len(),
            used <= answers@.len(),
            vm@.holds_all(left@),
            vm@.holds_all(right@),
            same_items_from(vm@, left@, right@, i as int, answers@, used as int) == same_items_from(
                vm@,
                left@,
                right@,
                0,
                answers@,
                0,
            ),
        decreases left@.len() - i,
    {
        let equal: bool = match probe_native_eq(left[i], right[i], vm) {
            Some(equal) => equal,
            None => {
                if used >= answers.len() {
                    return SameItems::Compare(left[i], right[i]);
                }
                used = used + 1;
                answers[used - 1]
            },
        };
        if !equal {
            return SameItems::Different;
        }
        i = i + 1;
    }
    SameItems::Equal
}

/// Equality that is seen from here does not depend on the order of the two.
pub proof fn law_native_equality_is_symmetric(vm: VmModel, left: Value, right: Value)
    requires
        vm.holds(left),
        vm.holds(right),
    ensures
        native_equality(vm, left, right) == native_equality(vm, right, left),
{
}

/// Where the equality of each item is seen from here, a search asks nothing and
/// finds the first item that is equal, if there is one.
pub proof fn law_searches_find_the_first(
    vm: VmModel,
    items: Seq<Value>,
    target: Value,
    i: int,
    stop: int,
    answers: Seq<bool>,
    used: int,
)
    requires
        0 <= i,
        stop <= items.len() <= usize::MAX,
        forall|j: int| i <= j < stop ==> native_equality(vm, #[trigger] items[j], target) is Some,
    ensures
        match scan_from(vm, items, target, i, stop, answers, used) {
            Scan::Found(at) => i <= at < stop && native_equality(vm, items[at as int], target) == Some(true) && forall|j: int|
                i <= j < at ==> native_equality(vm, #[trigger] items[j], target) == Some(false),
            Scan::Missing => forall|j: int| i <= j < stop ==> native_equality(vm, #[trigger] items[j], target) == Some(false),
            Scan::Compare(_, _) => false,
        },
    decreases stop - i,
{
    if i < stop {
        assert(native_equality(vm, items[i], target) is Some);
        law_searches_find_the_first(vm, items, target, i + 1, stop, answers, used);
    }
}

/// How many items are seen to be equal to a value.
pub open spec fn equal_count(vm: VmModel, items: Seq<Value>, target: Value, i: int) -> nat
    decreases items.len() - i,
{
    if i < 0 || i >= items.len() {
        0
    } else {
        equal_count(vm, items, target, i + 1) + (if native_equality(vm, items[i], target) == Some(true) {
            1nat
        } else {
            0
        })
    }
}

/// Where the equality of each item is seen from here, counting asks nothing and
/// gives the number of items that are equal.
pub proof fn law_counts_are_of_equal_items(
    vm: VmModel,
    items: Seq<Value>,
    target: Value,
    i: int,
    answers: Seq<bool>,
    used: int,
    total: nat,
)
    requires
        0 <= i,
        forall|j: int| i <= j < items.len() ==> native_equality(vm, #[trigger] items[j], target) is Some,
    ensures
        tally_from(vm, items, target, i, answers, used, total) == Tally::Count(
            (total + equal_count(vm, items, target, i)) as usize,
        ),
    decreases items.len() - i,
{
    if i < items.len() {
        let equal = native_equality(vm, items[i], target);
        assert(equal is Some);
        law_counts_are_of_equal_items(
            vm,
            items,
            target,
            i + 1,
            answers,
            used,
            if equal == Some(true) {
                total + 1
            } else {
                total
            },
        );
    }
}

/// Equality that is seen from here is that of what the values hold: numbers are
/// equal where they are the same number, with `True` as one and `False` as
/// nothing, and texts and bytes where they have the same characters or bytes. A
/// value is equal to itself.
pub proof fn law_what_is_seen_to_be_equal(vm: VmModel, left: Value, right: Value, a: i64, b: i64, c: bool)
    ensures
        native_equality(vm, left, left) == Some(true),
        native_equality(vm, Value::Int(a), Value::Int(b)) == Some(a == b),
        native_equality(vm, Value::Bool(c), Value::Int(a)) == Some(a == (if c {
            1
        } else {
            0int
        })),
        immediate(left) is None && immediate(right) is None && vm.long_int(left) is None && vm.text_of(left) is Some
            && vm.text_of(right) is Some ==> native_equality(vm, left, right) == Some(
            vm.text_of(left) == vm.text_of(right),
        ),
        immediate(left) is None && immediate(right) is None && vm.long_int(left) is None && vm.text_of(left) is None
            && vm.bytes_of(left) is Some && vm.bytes_of(right) is Some ==> native_equality(vm, left, right) == Some(
            vm.bytes_of(left) == vm.bytes_of(right),
        ),
{
}

/// Items are the same where there are as many and each is equal to the one at its
/// place.
pub proof fn law_same_items_are_equal_place_by_place(
    vm: VmModel,
    left: Seq<Value>,
    right: Seq<Value>,
    answers: Seq<bool>,
    at: int,
)
    requires
        0 <= at <= left.len(),
        forall|j: int|
            0 <= j < at && j < right.len() ==> native_equality(vm, #[trigger] left[j], right[j]) == Some(true),
    ensures
        left.len() != right.len() ==> lists_equal(vm, left, right, answers) == SameItems::Different,
        left.len() == right.len() && at == left.len() ==> lists_equal(vm, left, right, answers) == SameItems::Equal,
        left.len() == right.len() && at < left.len() && native_equality(vm, left[at], right[at]) == Some(false)
            ==> lists_equal(vm, left, right, answers) == SameItems::Different,
{
    if left.len() == right.len() {
        lemma_same_items(vm, left, right, answers, 0, at);
    }
}

proof fn lemma_same_items(vm: VmModel, left: Seq<Value>, right: Seq<Value>, answers: Seq<bool>, i: int, at: int)
    requires
        0 <= i <= at <= left.len(),
        left.len() == right.len(),
        forall|j: int| 0 <= j < at ==> native_equality(vm, #[trigger] left[j], right[j]) == Some(true),
    ensures
        same_items_from(vm, left, right, i, answers, 0) == same_items_from(vm, left, right, at, answers, 0),
    decreases at - i,
{
    if i < at {
        assert(native_equality(vm, left[i], right[i]) == Some(true));
        lemma_same_items(vm, left, right, answers, i + 1, at);
    }
}

} // verus!
