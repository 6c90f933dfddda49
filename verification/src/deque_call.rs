//! Methods and operators of double-ended queues.

use crate::args::{
    at_least_error, at_most_error, clamped, holds_args, no_keywords_error, normalize_sequence_index, one_arg,
    type_error_at_least, type_error_at_most, zero_args, ArgValues, ArgsModel,
};
use crate::bytes::{reply_model, Question, QuestionModel, Reply, ReplyModel};
use crate::deque::{
    any_ref, fits, get_known_items, is_ref, items_size, known_items, makes_deque, new_deque, not_iterable,
    not_iterable_error, ssize, ssize_overflow, Deque, DequeMade, DequeMadeModel, DequeModel, DequeOutcome, VALUE_SIZE,
};
use crate::equality::{scan_equal, scan_from, tally_equal, tally_from, Scan, Tally};
use crate::exceptions::{
    raise, raise3, raised, type_error, type_error_model, value_error, value_error_model, ErrorModel, ExcType,
    RunResult,
};
use crate::heap::{HeapRead, VM, VmModel};
use crate::resource_checks::{
    check_estimated_size, limit_error, memory_excess, run_error, saturating_product, size_excess,
};
use crate::text::{decimal, decimal_text, same_text};
use crate::value::{immediate, immediate_int, HeapId, Value};
use std::collections::VecDeque;
use vstd::arithmetic::div_mod::{lemma_fundamental_div_mod, lemma_fundamental_div_mod_converse};
use vstd::prelude::*;

verus! {

/// The arguments of a call that takes from `least` to `most` of them by
/// position.
pub open spec fn unpacked(name: Seq<char>, least: nat, most: nat, args: ArgsModel) -> Result<Seq<Value>, ErrorModel> {
    let count = args.positional.len();
    if args.keywords.len() > 0 {
        Err(no_keywords_error(name))
    } else if least <= count <= most {
        Ok(args.positional)
    } else if least == most {
        Err(
            type_error_model(
                name + " expected "@ + decimal(least) + " arguments, got "@ + decimal(count),
            ),
        )
    } else if count < least {
        Err(at_least_error(name, count))
    } else {
        Err(at_most_error(name, most, count))
    }
}

/// Reads the arguments of a call that takes them by position.
pub fn unpack<'a>(name: &str, least: usize, most: usize, args: &'a ArgValues) -> (values: RunResult<&'a Vec<Value>>)
    ensures
        match (values, unpacked(name@, least as nat, most as nat, args@)) {
            (Ok(values), Ok(expected)) => values@ == expected && least <= values@.len() <= most,
            (Err(error), Err(expected)) => error@ == expected,
            _ => false,
        },
{
    let values = args.into_pos_only(name)?;
    let count: usize = values.len();
    if least <= count && count <= most {
        return Ok(values);
    }
    if least == most {
        let mut text = name.to_owned();
        text.append(" expected ");
        text.append(decimal_text(least as u64).as_str());
        text.append(" arguments, got ");
        text.append(decimal_text(count as u64).as_str());
        return Err(type_error(text.as_str()));
    }
    if count < least {
        Err(type_error_at_least(name, count))
    } else {
        Err(type_error_at_most(name, most, count))
    }
}

/// A method of queues.
#[derive(Clone, Copy, Debug, PartialEq, Eq, Structural)]
pub enum DequeMethod {
    Append,
    Appendleft,
    Pop,
    Popleft,
    Clear,
    Copy,
    Reverse,
    Extend,
    Extendleft,
    Rotate,
    Insert,
    Remove,
    Index,
    Count,
}

/// The method with a name.
pub open spec fn deque_method_called(name: Seq<char>) -> Option<DequeMethod> {
    if name == "append"@ {
        Some(DequeMethod::Append)
    } else if name == "appendleft"@ {
        Some(DequeMethod::Appendleft)
    } else if name == "pop"@ {
        Some(DequeMethod::Pop)
    } else if name == "popleft"@ {
        Some(DequeMethod::Popleft)
    } else if name == "clear"@ {
        Some(DequeMethod::Clear)
    } else if name == "copy"@ {
        Some(DequeMethod::Copy)
    } else if name == "reverse"@ {
        Some(DequeMethod::Reverse)
    } else if name == "extend"@ {
        Some(DequeMethod::Extend)
    } else if name == "extendleft"@ {
        Some(DequeMethod::Extendleft)
    } else if name == "rotate"@ {
        Some(DequeMethod::Rotate)
    } else if name == "insert"@ {
        Some(DequeMethod::Insert)
    } else if name == "remove"@ {
        Some(DequeMethod::Remove)
    } else if name == "index"@ {
        Some(DequeMethod::Index)
    } else if name == "count"@ {
        Some(DequeMethod::Count)
    } else {
        None
    }
}

/// Finds the method with a name.
pub fn find_deque_method(name: &str) -> (method: Option<DequeMethod>)
    ensures
        method == deque_method_called(name@),
{
    if same_text(name, "append") {
        Some(DequeMethod::Append)
    } else if same_text(name, "appendleft") {
        Some(DequeMethod::Appendleft)
    } else if same_text(name, "pop") {
        Some(DequeMethod::Pop)
    } else if same_text(name, "popleft") {
        Some(DequeMethod::Popleft)
    } else if same_text(name, "clear") {
        Some(DequeMethod::Clear)
    } else if same_text(name, "copy") {
        Some(DequeMethod::Copy)
    } else if same_text(name, "reverse") {
        Some(DequeMethod::Reverse)
    } else if same_text(name, "extend") {
        Some(DequeMethod::Extend)
    } else if same_text(name, "extendleft") {
        Some(DequeMethod::Extendleft)
    } else if same_text(name, "rotate") {
        Some(DequeMethod::Rotate)
    } else if same_text(name, "insert") {
        Some(DequeMethod::Insert)
    } else if same_text(name, "remove") {
        Some(DequeMethod::Remove)
    } else if same_text(name, "index") {
        Some(DequeMethod::Index)
    } else if same_text(name, "count") {
        Some(DequeMethod::Count)
    } else {
        None
    }
}

/// What a method leaves behind and gives.
pub type DequeEffect = (DequeModel, DequeOutcome);

/// Nothing, with the queue changed.
pub open spec fn done(deque: DequeModel) -> DequeEffect {
    (deque, Ok(DequeMadeModel::Plain(Value::NoneValue)))
}

/// An error, with the queue as it was.
pub open spec fn failed(deque: DequeModel, error: ErrorModel) -> DequeEffect {
    (deque, Err(error))
}

/// The effect is what the model gives.
pub open spec fn has_effect(after: DequeModel, result: RunResult<DequeMade>, effect: DequeEffect) -> bool {
    after == effect.0 && makes_deque(result, effect.1)
}

/// `append` and `appendleft`.
pub open spec fn append_effect(deque: DequeModel, args: ArgsModel, at_left: bool) -> DequeEffect {
    match one_arg(
        if at_left {
            "deque.appendleft"@
        } else {
            "deque.append"@
        },
        args,
    ) {
        Err(error) => failed(deque, error),
        Ok(item) => done(
            if at_left {
                deque.appended_left(item)
            } else {
                deque.appended(item)
            },
        ),
    }
}

/// `pop` and `popleft`.
pub open spec fn pop_effect(deque: DequeModel, args: ArgsModel, at_left: bool) -> DequeEffect {
    match zero_args(
        if at_left {
            "deque.popleft"@
        } else {
            "deque.pop"@
        },
        args,
    ) {
        Err(error) => failed(deque, error),
        Ok(_) => if deque.items.len() == 0 {
            failed(deque, raised(ExcType::IndexError, "pop from an empty deque"@))
        } else if at_left {
            (
                deque.changed(deque.items.subrange(1, deque.items.len() as int)),
                Ok(DequeMadeModel::Plain(deque.items[0])),
            )
        } else {
            (
                deque.changed(deque.items.subrange(0, deque.items.len() - 1)),
                Ok(DequeMadeModel::Plain(deque.items.last())),
            )
        },
    }
}

/// `clear`, which counts no change where there is nothing to clear.
pub open spec fn clear_effect(deque: DequeModel, args: ArgsModel) -> DequeEffect {
    match zero_args("deque.clear"@, args) {
        Err(error) => failed(deque, error),
        Ok(_) => if deque.items.len() == 0 {
            done(deque)
        } else {
            done(deque.changed(Seq::empty()))
        },
    }
}

/// `copy`.
pub open spec fn copy_effect(vm: VmModel, deque: DequeModel, args: ArgsModel) -> DequeEffect {
    match zero_args("deque.copy"@, args) {
        Err(error) => failed(deque, error),
        Ok(_) => match memory_excess(vm.tracker, items_size(deque.items.len() as int)) {
            Some(limit) => failed(deque, limit_error(limit)),
            None => (deque, Ok(DequeMadeModel::Deque(new_deque(deque.items, deque.maxlen)))),
        },
    }
}

/// `reverse`, which counts no change.
pub open spec fn reverse_effect(deque: DequeModel, args: ArgsModel) -> DequeEffect {
    match zero_args("deque.reverse"@, args) {
        Err(error) => failed(deque, error),
        Ok(_) => done(DequeModel { items: deque.items.reverse(), ..deque }),
    }
}

/// The bytes that a queue would keep of so many items.
pub open spec fn kept_size(count: int, maxlen: Option<usize>) -> usize {
    items_size(
        match maxlen {
            Some(max) if max < count => max as int,
            _ => count,
        },
    )
}

/// `extend` and `extendleft`. A queue that is extended by itself gets the items
/// that it had. Items before an error stay.
pub open spec fn extend_effect(
    vm: VmModel,
    deque: DequeModel,
    self_id: HeapId,
    args: ArgsModel,
    reply: Option<ReplyModel>,
    at_left: bool,
) -> DequeEffect {
    match one_arg(
        if at_left {
            "deque.extendleft"@
        } else {
            "deque.extend"@
        },
        args,
    ) {
        Err(error) => failed(deque, error),
        Ok(value) => extend_by_effect(vm, deque, self_id, value, reply, at_left),
    }
}

/// Extending by the items of a value.
pub open spec fn extend_by_effect(
    vm: VmModel,
    deque: DequeModel,
    self_id: HeapId,
    value: Value,
    reply: Option<ReplyModel>,
    at_left: bool,
) -> DequeEffect {
    if value == Value::Ref(self_id) {
        done(deque.extended(deque.items, 0, at_left))
    } else {
        match known_items(vm, value) {
            Some(items) => match size_excess(vm.tracker, kept_size(items.len() as int, deque.maxlen)) {
                Some(limit) => failed(deque, limit_error(limit)),
                None => done(deque.extended(items, 0, at_left)),
            },
            None => if !vm.iterable(value) {
                failed(deque, not_iterable_error(vm, value))
            } else {
                match reply {
                    Some(ReplyModel::Items(items, failure)) => match failure {
                        Some(error) => failed(deque.extended(items, 0, at_left), error),
                        None => done(deque.extended(items, 0, at_left)),
                    },
                    Some(ReplyModel::Failed(error)) => failed(deque, error),
                    _ => (deque, Ok(DequeMadeModel::Ask(QuestionModel::Items(value)))),
                }
            },
        }
    }
}

/// The items moved `shift` places to the right, those at the end to the front.
pub open spec fn rotated(items: Seq<Value>, shift: int) -> Seq<Value> {
    items.subrange(items.len() - shift, items.len() as int) + items.subrange(0, items.len() - shift)
}

/// An integer that a method must get.
pub open spec fn integer_arg(vm: VmModel, value: Value) -> Result<i64, ErrorModel> {
    match ssize(vm, value, ssize_overflow()) {
        Some(result) => result,
        None => Err(
            type_error_model("'"@ + vm.name_of_type(value) + "' object cannot be interpreted as an integer"@),
        ),
    }
}

/// `rotate`. A queue of at most one item is left alone.
pub open spec fn rotate_effect(vm: VmModel, deque: DequeModel, args: ArgsModel) -> DequeEffect {
    match unpacked("rotate"@, 0, 1, args) {
        Err(error) => failed(deque, error),
        Ok(values) => match integer_arg(
            vm,
            if values.len() == 0 {
                Value::Int(1)
            } else {
                values[0]
            },
        ) {
            Err(error) => failed(deque, error),
            Ok(n) => if deque.items.len() <= 1 {
                done(deque)
            } else {
                done(deque.changed(rotated(deque.items, n as int % deque.items.len() as int)))
            },
        },
    }
}

/// `insert`, which fails where the queue is full, whatever the index is.
pub open spec fn insert_effect(vm: VmModel, deque: DequeModel, args: ArgsModel) -> DequeEffect {
    match unpacked("insert"@, 2, 2, args) {
        Err(error) => failed(deque, error),
        Ok(values) => if !fits((deque.items.len() + 1) as int, deque.maxlen) {
            failed(deque, raised(ExcType::IndexError, "deque already at its maximum size"@))
        } else {
            match integer_arg(vm, values[0]) {
                Err(error) => failed(deque, error),
                Ok(index) => done(
                    DequeModel {
                        contains_refs: deque.contains_refs || values[1] is Ref,
                        ..deque.changed(
                            deque.items.insert(clamped(index as int, deque.items.len() as int), values[1]),
                        )
                    },
                ),
            }
        },
    }
}

/// `remove`, which counts a change only where an item goes.
pub open spec fn remove_effect(vm: VmModel, deque: DequeModel, args: ArgsModel, answers: Seq<bool>) -> DequeEffect {
    match one_arg("deque.remove"@, args) {
        Err(error) => failed(deque, error),
        Ok(target) => match scan_from(vm, deque.items, target, 0, deque.items.len() as int, answers, 0) {
            Scan::Found(at) => done(deque.changed(deque.items.remove(at as int))),
            Scan::Missing => failed(deque, value_error_model("deque.remove(x): x not in deque"@)),
            Scan::Compare(left, right) => (deque, Ok(DequeMadeModel::Compare(left, right))),
        },
    }
}

/// A bound of `index`. One that is not given is the default, and one that is
/// too large stands at the end that its sign points to.
pub open spec fn bound_place(vm: VmModel, value: Option<Value>, default: int, len: int) -> Result<int, ErrorModel> {
    match value {
        None => Ok(default),
        Some(value) => match immediate(value) {
            Some(n) => Ok(clamped(n as int, len)),
            None => match vm.long_int(value) {
                Some(negative) => Ok(
                    if negative {
                        0
                    } else {
                        len
                    },
                ),
                None => Err(
                    type_error_model("slice indices must be integers or have an __index__ method"@),
                ),
            },
        },
    }
}

/// `index`.
pub open spec fn index_effect(vm: VmModel, deque: DequeModel, args: ArgsModel, answers: Seq<bool>) -> DequeEffect {
    let len = deque.items.len() as int;
    match unpacked("index"@, 1, 3, args) {
        Err(error) => failed(deque, error),
        Ok(values) => match bound_place(
            vm,
            if values.len() > 1 {
                Some(values[1])
            } else {
                None
            },
            0,
            len,
        ) {
            Err(error) => failed(deque, error),
            Ok(start) => match bound_place(
                vm,
                if values.len() > 2 {
                    Some(values[2])
                } else {
                    None
                },
                len,
                len,
            ) {
                Err(error) => failed(deque, error),
                Ok(stop) => match scan_from(vm, deque.items, values[0], start, stop, answers, 0) {
                    Scan::Found(at) => (deque, Ok(DequeMadeModel::Plain(Value::Int(at as i64)))),
                    Scan::Missing => failed(deque, value_error_model("deque.index(x): x not in deque"@)),
                    Scan::Compare(left, right) => (deque, Ok(DequeMadeModel::Compare(left, right))),
                },
            },
        },
    }
}

/// `count`.
pub open spec fn count_effect(vm: VmModel, deque: DequeModel, args: ArgsModel, answers: Seq<bool>) -> DequeEffect {
    match one_arg("deque.count"@, args) {
        Err(error) => failed(deque, error),
        Ok(target) => match tally_from(vm, deque.items, target, 0, answers, 0, 0) {
            Tally::Count(count) => (deque, Ok(DequeMadeModel::Plain(Value::Int(count as i64)))),
            Tally::Compare(left, right) => (deque, Ok(DequeMadeModel::Compare(left, right))),
        },
    }
}

/// What a method leaves behind and gives.
pub open spec fn deque_effect(
    vm: VmModel,
    deque: DequeModel,
    self_id: HeapId,
    method: DequeMethod,
    args: ArgsModel,
    reply: Option<ReplyModel>,
    answers: Seq<bool>,
) -> DequeEffect {
    match method {
        DequeMethod::Append => append_effect(deque, args, false),
        DequeMethod::Appendleft => append_effect(deque, args, true),
        DequeMethod::Pop => pop_effect(deque, args, false),
        DequeMethod::Popleft => pop_effect(deque, args, true),
        DequeMethod::Clear => clear_effect(deque, args),
        DequeMethod::Copy => copy_effect(vm, deque, args),
        DequeMethod::Reverse => reverse_effect(deque, args),
        DequeMethod::Extend => extend_effect(vm, deque, self_id, args, reply, false),
        DequeMethod::Extendleft => extend_effect(vm, deque, self_id, args, reply, true),
        DequeMethod::Rotate => rotate_effect(vm, deque, args),
        DequeMethod::Insert => insert_effect(vm, deque, args),
        DequeMethod::Remove => remove_effect(vm, deque, args, answers),
        DequeMethod::Index => index_effect(vm, deque, args, answers),
        DequeMethod::Count => count_effect(vm, deque, args, answers),
    }
}

/// Items that are a choice of those before keep the mark.
proof fn lemma_fewer_refs(before: Seq<Value>, after: Seq<Value>)
    requires
        forall|j: int| 0 <= j < after.len() ==> before.contains(#[trigger] after[j]),
        any_ref(after),
    ensures
        any_ref(before),
{
    let j = choose|j: int| 0 <= j < after.len() && after[j] is Ref;
    assert(before.contains(after[j]));
    let k = choose|k: int| 0 <= k < before.len() && before[k] == after[j];
    assert(before[k] is Ref);
}

/// Takes an item from an end.
fn pop_item(deque: &mut HeapRead<Deque>, args: &ArgValues, at_left: bool) -> (result: RunResult<DequeMade>)
    requires
        old(deque).item@.wf(),
    ensures
        has_effect(final(deque).item@, result, pop_effect(old(deque).item@, args@, at_left)),
        final(deque).item@.wf(),
{
    let ghost before = deque.item@;
    args.check_zero_args(
        if at_left {
            "deque.popleft"
        } else {
            "deque.pop"
        },
    )?;
    let item = if at_left {
        deque.item.items.pop_front()
    } else {
        deque.item.items.pop_back()
    };
    match item {
        None => Err(raise(ExcType::IndexError, "pop from an empty deque")),
        Some(item) => {
            deque.item.state = deque.item.state.wrapping_add(1);
            proof {
                if any_ref(deque.item@.items) {
                    lemma_fewer_refs(before.items, deque.item@.items);
                }
            }
            Ok(DequeMade::Plain(item))
        },
    }
}

/// Turns the items of a queue round.
fn reverse_items(deque: &mut HeapRead<Deque>)
    requires
        old(deque).item@.wf(),
    ensures
        final(deque).item@ == (DequeModel { items: old(deque).item@.items.reverse(), ..old(deque).item@ }),
        final(deque).item@.wf(),
{
    let ghost before = deque.item@;
    let mut turned: VecDeque<Value> = VecDeque::new();
    let ghost all = deque.item.items@;
    loop
        invariant
            deque.item.items@.len() <= all.len(),
            deque.item.items@ == all.subrange(all.len() - deque.item.items@.len(), all.len() as int),
            turned@ == all.subrange(0, all.len() - deque.item.items@.len()).reverse(),
            deque.item.maxlen == before.maxlen,
            deque.item.contains_refs == before.contains_refs,
            deque.item.state == before.state,
            all == before.items,
            before == old(deque).item@,
            before.wf(),
        ensures
            turned@ == all.reverse(),
            deque.item.maxlen == before.maxlen,
            deque.item.contains_refs == before.contains_refs,
            deque.item.state == before.state,
        decreases deque.item.items@.len(),
    {
        let ghost left = deque.item.items@.len() as int;
        match deque.item.items.pop_front() {
            Some(item) => {
                turned.push_front(item);
                proof {
                    assert(deque.item.items@ =~= all.subrange(all.len() - left + 1, all.len() as int));
                    assert(turned@ =~= all.subrange(0, all.len() - left + 1).reverse());
                }
            },
            None => {
                assert(all.subrange(0, all.len() as int) =~= all);
                break;
            },
        }
    }
    deque.item.items = turned;
    proof {
        if any_ref(deque.item@.items) {
            assert forall|j: int| 0 <= j < all.reverse().len() implies all.contains(#[trigger] all.reverse()[j]) by {
                assert(all.reverse()[j] == all[all.len() - 1 - j]);
            }
            lemma_fewer_refs(all, deque.item@.items);
        }
    }
}

/// Extends a queue by the items of a value.
pub fn deque_extend(deque: &mut HeapRead<Deque>, self_id: HeapId, value: Value, at_left: bool, vm: &VM, reply: Option<
    Reply,
>) -> (result: RunResult<DequeMade>)
    requires
        old(deque).item@.wf(),
        vm@.holds(value),
        vm@.wf(),
    ensures
        has_effect(
            final(deque).item@,
            result,
            extend_by_effect(vm@, old(deque).item@, self_id, value, reply_model(reply), at_left),
        ),
        final(deque).item@.wf(),
{
    match value {
        Value::Ref(id) => {
            if id == self_id {
                let items = deque.item.iter();
                extend_all(deque, &items, at_left);
                return Ok(DequeMade::Plain(Value::NoneValue));
            }
        },
        _ => {},
    }
    match get_known_items(vm, value) {
        Some(items) => {
            let retained: usize = match deque.item.maxlen {
                Some(max) => if max < items.len() {
                    max
                } else {
                    items.len()
                },
                None => items.len(),
            };
            match check_estimated_size(saturating_product(retained, VALUE_SIZE), &vm.tracker) {
                Ok(_) => {},
                Err(limit) => return Err(run_error(limit)),
            }
            extend_all(deque, items, at_left);
            return Ok(DequeMade::Plain(Value::NoneValue));
        },
        None => {},
    }
    if !vm.py_is_iterable(value) {
        return Err(not_iterable(vm, value));
    }
    match reply {
        Some(Reply::Items(items, failure)) => {
            extend_all(deque, &items, at_left);
            match failure {
                Some(error) => Err(error),
                None => Ok(DequeMade::Plain(Value::NoneValue)),
            }
        },
        Some(Reply::Failed(error)) => Err(error),
        _ => Ok(DequeMade::Ask(Question::Items(value))),
    }
}

/// Puts items in, each at the right or each at the left.
fn extend_all(deque: &mut HeapRead<Deque>, items: &Vec<Value>, at_left: bool)
    requires
        old(deque).item@.wf(),
    ensures
        final(deque).item@ == old(deque).item@.extended(items@, 0, at_left),
        final(deque).item@.wf(),
{
    let ghost goal = deque.item@.extended(items@, 0, at_left);
    let mut i: usize = 0;
    while i < items.len()
        invariant
            i <= items@.len(),
            deque.item@.wf(),
            goal == old(deque).item@.extended(items@, 0, at_left),
            deque.item@.extended(items@, i as int, at_left) == goal,
        decreases items@.len() - i,
    {
        if at_left {
            deque.appendleft(items[i]);
        } else {
            deque.append(items[i]);
        }
        i = i + 1;
    }
}

/// Reads an integer that a method must get.
fn read_integer(vm: &VM, value: Value) -> (number: RunResult<i64>)
    requires
        vm@.holds(value),
    ensures
        match (number, integer_arg(vm@, value)) {
            (Ok(n), Ok(expected)) => n == expected,
            (Err(error), Err(expected)) => error@ == expected,
            _ => false,
        },
{
    match immediate_int(value) {
        Some(n) => {
            return Ok(n);
        },
        None => {},
    }
    if vm.get_long_int(value).is_some() {
        return Err(raise(ExcType::OverflowError, "Python int too large to convert to C ssize_t"));
    }
    Err(raise3(ExcType::TypeError, "'", vm.py_type_name(value), "' object cannot be interpreted as an integer"))
}

/// The remainder of a number that may be negative, which never is.
fn remainder(n: i64, len: usize) -> (rest: usize)
    requires
        len > 0,
    ensures
        rest == n as int % len as int,
        rest < len,
{
    if n >= 0 {
        let rest: u128 = n as u128 % len as u128;
        rest as usize
    } else {
        let back: u128 = (-(n as i128)) as u128;
        let rest: u128 = back % len as u128;
        let ghost quotient = back as int / len as int;
        proof {
            lemma_fundamental_div_mod(back as int, len as int);
        }
        if rest == 0 {
            proof {
                assert(n as int == (-quotient) * len as int + 0) by (nonlinear_arith)
                    requires
                        back as int == len as int * quotient,
                        n as int == -(back as int),
                ;
                lemma_fundamental_div_mod_converse(n as int, len as int, -quotient, 0);
            }
            0
        } else {
            proof {
                assert(n as int == (-quotient - 1) * len as int + (len - rest)) by (nonlinear_arith)
                    requires
                        back as int == len as int * quotient + rest as int,
                        n as int == -(back as int),
                ;
                lemma_fundamental_div_mod_converse(n as int, len as int, -quotient - 1, len - rest);
            }
            (len as u128 - rest) as usize
        }
    }
}

/// Moves the items of a queue to the right, those at its end to its front.
pub fn rotate(deque: &mut HeapRead<Deque>, args: &ArgValues, vm: &VM) -> (result: RunResult<DequeMade>)
    requires
        old(deque).item@.wf(),
        holds_args(vm@, args@),
    ensures
        has_effect(final(deque).item@, result, rotate_effect(vm@, old(deque).item@, args@)),
        final(deque).item@.wf(),
{
    let ghost before = deque.item@;
    let values = unpack("rotate", 0, 1, args)?;
    let n: i64 = read_integer(
        vm,
        if values.len() == 0 {
            Value::Int(1)
        } else {
            values[0]
        },
    )?;
    let len: usize = deque.item.items.len();
    if len <= 1 {
        return Ok(DequeMade::Plain(Value::NoneValue));
    }
    let shift: usize = remainder(n, len);
    let mut tail = deque.item.items.split_off(len - shift);
    tail.append(&mut deque.item.items);
    deque.item.items = tail;
    deque.item.state = deque.item.state.wrapping_add(1);
    proof {
        assert(deque.item@.items == rotated(before.items, shift as int));
        if any_ref(deque.item@.items) {
            assert forall|j: int| 0 <= j < deque.item@.items.len() implies before.items.contains(
                #[trigger] deque.item@.items[j],
            ) by {
                if j < shift {
                    assert(deque.item@.items[j] == before.items[len - shift + j]);
                } else {
                    assert(deque.item@.items[j] == before.items[j - shift]);
                }
            }
            lemma_fewer_refs(before.items, deque.item@.items);
        }
    }
    Ok(DequeMade::Plain(Value::NoneValue))
}

/// Puts an item in at a place.
pub fn insert(deque: &mut HeapRead<Deque>, args: &ArgValues, vm: &VM) -> (result: RunResult<DequeMade>)
    requires
        old(deque).item@.wf(),
        holds_args(vm@, args@),
    ensures
        has_effect(final(deque).item@, result, insert_effect(vm@, old(deque).item@, args@)),
        final(deque).item@.wf(),
{
    let ghost before = deque.item@;
    let values = unpack("insert", 2, 2, args)?;
    match deque.item.maxlen {
        Some(max) => {
            if deque.item.items.len() >= max {
                return Err(raise(ExcType::IndexError, "deque already at its maximum size"));
            }
        },
        None => {},
    }
    let index: i64 = read_integer(vm, values[0])?;
    let place: usize = normalize_sequence_index(index, deque.item.items.len());
    let item: Value = values[1];
    if is_ref(item) {
        deque.item.contains_refs = true;
    }
    deque.item.items.insert(place, item);
    deque.item.state = deque.item.state.wrapping_add(1);
    proof {
        let items = deque.item@.items;
        if any_ref(items) {
            let j = choose|j: int| 0 <= j < items.len() && items[j] is Ref;
            if j < place {
                assert(before.items[j] is Ref);
            } else if j > place {
                assert(before.items[j - 1] is Ref);
            }
        }
    }
    Ok(DequeMade::Plain(Value::NoneValue))
}

/// Removes the first item that is equal to a value.
pub fn remove(deque: &mut HeapRead<Deque>, args: &ArgValues, vm: &VM, answers: &Vec<bool>) -> (result: RunResult<DequeMade>)
    requires
        old(deque).item@.wf(),
        vm@.holds_all(old(deque).item@.items),
        holds_args(vm@, args@),
    ensures
        has_effect(final(deque).item@, result, remove_effect(vm@, old(deque).item@, args@, answers@)),
        final(deque).item@.wf(),
{
    let ghost before = deque.item@;
    let target = args.get_one_arg("deque.remove")?;
    let items = deque.item.iter();
    match scan_equal(&items, target, 0, items.len(), answers, vm) {
        Scan::Found(at) => {
            let _removed = deque.item.items.remove(at);
            deque.item.state = deque.item.state.wrapping_add(1);
            proof {
                if any_ref(deque.item@.items) {
                    assert forall|j: int| 0 <= j < deque.item@.items.len() implies before.items.contains(
                        #[trigger] deque.item@.items[j],
                    ) by {
                        if j < at {
                            assert(deque.item@.items[j] == before.items[j]);
                        } else {
                            assert(deque.item@.items[j] == before.items[j + 1]);
                        }
                    }
                    lemma_fewer_refs(before.items, deque.item@.items);
                }
            }
            Ok(DequeMade::Plain(Value::NoneValue))
        },
        Scan::Missing => Err(value_error("deque.remove(x): x not in deque")),
        Scan::Compare(left, right) => Ok(DequeMade::Compare(left, right)),
    }
}

/// Reads a bound of `index`.
pub fn bound_arg(vm: &VM, value: Option<Value>, default: usize, len: usize) -> (place: RunResult<usize>)
    requires
        value matches Some(value) ==> vm@.holds(value),
    ensures
        match (place, bound_place(vm@, value, default as int, len as int)) {
            (Ok(place), Ok(expected)) => place == expected,
            (Err(error), Err(expected)) => error@ == expected,
            _ => false,
        },
{
    match value {
        None => Ok(default),
        Some(value) => {
            match immediate_int(value) {
                Some(n) => {
                    return Ok(normalize_sequence_index(n, len));
                },
                None => {},
            }
            match vm.get_long_int(value) {
                Some(negative) => Ok(
                    if negative {
                        0
                    } else {
                        len
                    },
                ),
                None => Err(type_error("slice indices must be integers or have an __index__ method")),
            }
        },
    }
}

/// Finds the first item in a range that is equal to a value.
fn index(deque: &HeapRead<Deque>, args: &ArgValues, vm: &VM, answers: &Vec<bool>) -> (result: RunResult<DequeMade>)
    requires
        vm@.holds_all(deque.item@.items),
        holds_args(vm@, args@),
        deque.item@.items.len() <= i64::MAX,
    ensures
        makes_deque(result, index_effect(vm@, deque.item@, args@, answers@).1),
{
    let values = unpack("index", 1, 3, args)?;
    let len: usize = deque.item.items.len();
    let start: usize = bound_arg(
        vm,
        if values.len() > 1 {
            Some(values[1])
        } else {
            None
        },
        0,
        len,
    )?;
    let stop: usize = bound_arg(
        vm,
        if values.len() > 2 {
            Some(values[2])
        } else {
            None
        },
        len,
        len,
    )?;
    let items = deque.item.iter();
    match scan_equal(&items, values[0], start, stop, answers, vm) {
        Scan::Found(at) => Ok(DequeMade::Plain(Value::Int(at as i64))),
        Scan::Missing => Err(value_error("deque.index(x): x not in deque")),
        Scan::Compare(left, right) => Ok(DequeMade::Compare(left, right)),
    }
}

/// Counts the items that are equal to a value.
pub fn count(deque: &HeapRead<Deque>, args: &ArgValues, vm: &VM, answers: &Vec<bool>) -> (result: RunResult<DequeMade>)
    requires
        vm@.holds_all(deque.item@.items),
        holds_args(vm@, args@),
        deque.item@.items.len() <= i64::MAX,
    ensures
        makes_deque(result, count_effect(vm@, deque.item@, args@, answers@).1),
{
    let target = args.get_one_arg("deque.count")?;
    let items = deque.item.iter();
    match tally_equal(&items, target, answers, vm) {
        Tally::Count(total) => Ok(DequeMade::Plain(Value::Int(total as i64))),
        Tally::Compare(left, right) => Ok(DequeMade::Compare(left, right)),
    }
}

/// A copy of a queue.
fn copy(deque: &HeapRead<Deque>, args: &ArgValues, vm: &VM) -> (result: RunResult<DequeMade>)
    ensures
        makes_deque(result, copy_effect(vm@, deque.item@, args@).1),
{
    args.check_zero_args("deque.copy")?;
    let items = deque.clone_all_items(vm)?;
    Ok(DequeMade::Deque(Deque::new(items, deque.item.maxlen).0))
}

/// Calls a method of a queue.
pub fn call_deque_method(
    deque: &mut HeapRead<Deque>,
    self_id: HeapId,
    method: DequeMethod,
    args: &ArgValues,
    vm: &VM,
    reply: Option<Reply>,
    answers: &Vec<bool>,
) -> (result: RunResult<DequeMade>)
    requires
        old(deque).item@.wf(),
        vm@.holds_all(old(deque).item@.items),
        holds_args(vm@, args@),
        vm@.wf(),
        old(deque).item@.items.len() <= i64::MAX,
    ensures
        has_effect(
            final(deque).item@,
            result,
            deque_effect(vm@, old(deque).item@, self_id, method, args@, reply_model(reply), answers@),
        ),
        final(deque).item@.wf(),
{
    match method {
        DequeMethod::Append => {
            let item = args.get_one_arg("deque.append")?;
            deque.append(item);
            Ok(DequeMade::Plain(Value::NoneValue))
        },
        DequeMethod::Appendleft => {
            let item = args.get_one_arg("deque.appendleft")?;
            deque.appendleft(item);
            Ok(DequeMade::Plain(Value::NoneValue))
        },
        DequeMethod::Pop => pop_item(deque, args, false),
        DequeMethod::Popleft => pop_item(deque, args, true),
        DequeMethod::Clear => {
            args.check_zero_args("deque.clear")?;
            if deque.item.items.len() > 0 {
                deque.item.state = deque.item.state.wrapping_add(1);
                deque.item.items.clear();
            }
            Ok(DequeMade::Plain(Value::NoneValue))
        },
        DequeMethod::Copy => copy(&*deque, args, vm),
        DequeMethod::Reverse => {
            args.check_zero_args("deque.reverse")?;
            reverse_items(deque);
            Ok(DequeMade::Plain(Value::NoneValue))
        },
        DequeMethod::Extend => {
            let value = args.get_one_arg("deque.extend")?;
            deque_extend(deque, self_id, value, false, vm, reply)
        },
        DequeMethod::Extendleft => {
            let value = args.get_one_arg("deque.extendleft")?;
            deque_extend(deque, self_id, value, true, vm, reply)
        },
        DequeMethod::Rotate => rotate(deque, args, vm),
        DequeMethod::Insert => insert(deque, args, vm),
        DequeMethod::Remove => remove(deque, args, vm, answers),
        DequeMethod::Index => index(&*deque, args, vm, answers),
        DequeMethod::Count => count(&*deque, args, vm, answers),
    }
}

/// Turning a queue moves each item by as many places, from its end to its
/// start where it has to.
pub proof fn law_turning_moves_each_item(items: Seq<Value>, n: int, i: int)
    requires
        0 <= i < items.len(),
    ensures
        rotated(items, n % items.len() as int).len() == items.len(),
        rotated(items, n % items.len() as int)[(i + n) % items.len() as int] == items[i],
{
    let len = items.len() as int;
    let shift = n % len;
    lemma_fundamental_div_mod(n, len);
    let place = if i + shift < len {
        i + shift
    } else {
        i + shift - len
    };
    let rounds = if i + shift < len {
        n / len
    } else {
        n / len + 1
    };
    assert(len * (n / len + 1) == len * (n / len) + len) by (nonlinear_arith);
    assert(rounds * len == len * rounds) by (nonlinear_arith);
    lemma_fundamental_div_mod_converse(i + n, len, rounds, place);
}

/// Turning a queue one way and then back gives its items back.
pub proof fn law_turning_back(items: Seq<Value>, n: int)
    requires
        items.len() > 0,
    ensures
        rotated(rotated(items, n % items.len() as int), (-n) % items.len() as int) == items,
{
    let len = items.len() as int;
    let shift = n % len;
    lemma_fundamental_div_mod(n, len);
    let back = if shift == 0 {
        0
    } else {
        len - shift
    };
    let rounds = if shift == 0 {
        -(n / len)
    } else {
        -(n / len) - 1
    };
    assert(-(n / len) * len == -(len * (n / len)) && (-(n / len) - 1) * len == -(len * (n / len)) - len)
        by (nonlinear_arith);
    lemma_fundamental_div_mod_converse(-n, len, rounds, back);
    assert(rotated(rotated(items, shift), back) =~= items);
}

/// Turning a queue round twice end for end gives its items back.
pub proof fn law_reversing_twice(items: Seq<Value>)
    ensures
        items.reverse().reverse() == items,
{
    assert(items.reverse().reverse() =~= items);
}

} // verus!
