//! Operators on double-ended queues, and iteration over them.

use crate::args::{holds_args, ArgValues, ArgsModel};
use crate::bytes::{reply_model, Reply, ReplyModel};
use crate::bytes_ops::{repeat_count, repeats};
use crate::deque::{
    items_size, kept_items, makes_deque, new_deque, Deque, DequeMade, DequeMadeModel, DequeModel, DequeOutcome,
    VALUE_SIZE,
};
use crate::deque_call::{
    call_deque_method, deque_effect, deque_extend, deque_method_called, extend_by_effect, find_deque_method, has_effect,
    DequeEffect,
};
use crate::dict_ops::Written;
use crate::equality::{compare_lists, lists_equal, scan_equal, scan_from, SameItems, Scan};
use crate::exceptions::{raise, raise3, raised, ErrorModel, ExcType, RunError, RunResult};
use crate::heap::{check_time_every, timed_out, HeapRead, VM, VmModel};
use crate::resource_checks::{
    capped_product, check_repeat_size, limit_error, may_time_out, memory_excess, run_error, saturating_product, size_excess,
};
use crate::text::{decimal, push_decimal, same_text};
use crate::value::{immediate, immediate_int, HeapId, Value};
use vstd::arithmetic::div_mod::{lemma_fundamental_div_mod, lemma_fundamental_div_mod_converse};
use vstd::prelude::*;

verus! {

/// What a call of a method by its name leaves behind and gives.
pub open spec fn named_deque_effect(
    vm: VmModel,
    deque: DequeModel,
    self_id: HeapId,
    name: Seq<char>,
    args: ArgsModel,
    reply: Option<ReplyModel>,
    answers: Seq<bool>,
) -> DequeEffect {
    match deque_method_called(name) {
        Some(method) => deque_effect(vm, deque, self_id, method, args, reply, answers),
        None => (
            deque,
            Err(
                raised(
                    ExcType::AttributeError,
                    "'collections.deque' object has no attribute '"@ + name + "'"@,
                ),
            ),
        ),
    }
}

/// The items of a list, so many times.
pub open spec fn repeated_items(items: Seq<Value>, count: nat) -> Seq<Value>
    decreases count,
{
    if count == 0 {
        Seq::empty()
    } else {
        repeated_items(items, (count - 1) as nat) + items
    }
}

/// Which item stands at a place of a repeated list.
proof fn lemma_repeated_item(items: Seq<Value>, count: nat, i: int)
    requires
        items.len() > 0,
        0 <= i < items.len() * count,
    ensures
        repeated_items(items, count).len() == items.len() * count,
        repeated_items(items, count)[i] == items[i % items.len() as int],
    decreases count,
{
    let len = items.len() as int;
    lemma_repeated_len(items, count);
    if count > 0 {
        let before = repeated_items(items, (count - 1) as nat);
        lemma_repeated_len(items, (count - 1) as nat);
        assert(len * count == len * (count - 1) + len) by (nonlinear_arith);
        if i < before.len() {
            lemma_repeated_item(items, (count - 1) as nat, i);
        } else {
            let rest = i - before.len();
            assert(i == (count - 1) * len + rest) by (nonlinear_arith)
                requires
                    i == len * (count - 1) + rest,
            ;
            lemma_fundamental_div_mod_converse(i, len, count - 1, rest);
        }
    }
}

/// How long a repeated list is.
proof fn lemma_repeated_len(items: Seq<Value>, count: nat)
    ensures
        repeated_items(items, count).len() == items.len() * count,
    decreases count,
{
    if count > 0 {
        lemma_repeated_len(items, (count - 1) as nat);
        assert(items.len() * count == items.len() * (count - 1) + items.len()) by (nonlinear_arith)
            requires
                count > 0,
        ;
    } else {
        assert(items.len() * 0 == 0) by (nonlinear_arith);
    }
}

/// How many items a repeated queue keeps.
pub open spec fn kept_count(len: int, maxlen: Option<usize>, count: int) -> int {
    match maxlen {
        Some(max) if max < len * count => max as int,
        _ => len * count,
    }
}

/// A queue repeated so many times. It keeps its largest length, and with it
/// the last items. The size of what it keeps is held against the limits first.
pub open spec fn repeat_deque_model(vm: VmModel, deque: DequeModel, count: int) -> DequeOutcome {
    let len = deque.items.len() as int;
    let excess = match deque.maxlen {
        Some(max) => size_excess(
            vm.tracker,
            capped_product(
                VALUE_SIZE as int,
                kept_count(
                    if count == 0 {
                        0
                    } else {
                        len
                    },
                    deque.maxlen,
                    count,
                ),
                usize::MAX as int,
            ) as usize,
        ),
        None => size_excess(
            vm.tracker,
            capped_product(
                capped_product(
                    if count == 0 {
                        0
                    } else {
                        len
                    },
                    VALUE_SIZE as int,
                    usize::MAX as int,
                ),
                count,
                usize::MAX as int,
            ) as usize,
        ),
    };
    match excess {
        Some(limit) => Err(limit_error(limit)),
        None => Ok(DequeMadeModel::Deque(new_deque(repeated_items(deque.items, count as nat), deque.maxlen))),
    }
}

/// The place, in one period of a repeated list, of an item of its kept end.
pub open spec fn window_place(len: int, kept: int, i: int) -> int {
    ((len - kept % len) % len + i % len) % len
}

/// Which item of one period a place of the kept end of a repeated list names.
proof fn lemma_window(len: int, count: int, kept: int, i: int)
    requires
        len > 0,
        0 <= kept <= len * count,
        0 <= i < kept,
    ensures
        window_place(len, kept, i) == (len * count - kept + i) % len,
{
    let place = len * count - kept + i;
    lemma_fundamental_div_mod(kept, len);
    lemma_fundamental_div_mod(i, len);
    lemma_fundamental_div_mod(len - kept % len, len);
    lemma_fundamental_div_mod((len - kept % len) % len + i % len, len);
    let start = (len - kept % len) % len;
    let a = (len - kept % len) / len;
    let b = (start + i % len) / len;
    let c = (start + i % len) % len;
    let quotient = count - kept / len - 1 + a + i / len + b;
    assert(place == quotient * len + c) by (nonlinear_arith)
        requires
            place == len * count - kept + i,
            kept == len * (kept / len) + kept % len,
            i == len * (i / len) + i % len,
            len - kept % len == len * a + start,
            start + i % len == len * b + c,
            quotient == count - kept / len - 1 + a + i / len + b,
    ;
    lemma_fundamental_div_mod_converse(place, len, quotient, c);
}

/// The last items of a repeated list, as many as a queue keeps.
proof fn lemma_kept_window(items: Seq<Value>, maxlen: Option<usize>, count: nat, kept: int, made: Seq<Value>)
    requires
        items.len() > 0,
        kept == kept_count(items.len() as int, maxlen, count as int),
        made.len() == kept,
        forall|i: int|
            0 <= i < kept ==> #[trigger] made[i] == items[window_place(items.len() as int, kept, i)],
    ensures
        made == kept_items(repeated_items(items, count), maxlen),
{
    let len = items.len() as int;
    let all = repeated_items(items, count);
    lemma_repeated_len(items, count);
    let kept_all = kept_items(all, maxlen);
    assert(kept_all.len() == kept);
    assert forall|i: int| 0 <= i < kept implies #[trigger] made[i] == kept_all[i] by {
        let place = len * count - kept + i;
        assert(kept_all[i] == all[place]);
        lemma_repeated_item(items, count, place);
        lemma_window(len, count as int, kept, i);
    }
    assert(made =~= kept_all);
}

/// Repeats a queue.
pub fn repeat_deque(deque: &HeapRead<Deque>, count: usize, vm: &VM) -> (result: RunResult<DequeMade>)
    ensures
        makes_deque(result, repeat_deque_model(vm@, deque.item@, count as int)) || timed_out(vm@.tracker, result),
{
    let ghost items = deque.item@.items;
    let source: Vec<Value> = if count == 0 {
        Vec::new()
    } else {
        deque.item.iter()
    };
    let len: usize = source.len();
    let maxlen = deque.item.maxlen;
    let mut made: Vec<Value> = Vec::new();
    proof {
        if count == 0 {
            assert(0 * count == 0);
            assert(len * count == 0) by (nonlinear_arith)
                requires
                    count == 0,
            ;
            assert(repeated_items(items, 0) =~= Seq::<Value>::empty());
        }
        if items.len() == 0 {
            lemma_repeated_len(items, count as nat);
            assert(items.len() * count == 0) by (nonlinear_arith)
                requires
                    items.len() == 0,
            ;
            assert(repeated_items(items, count as nat) =~= Seq::<Value>::empty());
        }
    }
    match maxlen {
        Some(max) => {
            let product: usize = saturating_product(len, count);
            let kept: usize = if product < max {
                product
            } else {
                max
            };
            assert(kept == kept_count(len as int, maxlen, count as int));
            match check_repeat_size(VALUE_SIZE, kept, &vm.tracker) {
                Ok(_) => {},
                Err(limit) => return Err(run_error(limit)),
            }
            if kept > 0 {
                assert(len > 0) by {
                    if len == 0 {
                        assert(len * count == 0) by (nonlinear_arith)
                            requires
                                len == 0,
                        ;
                    }
                }
                let start: usize = (len - kept % len) % len;
                let mut i: usize = 0;
                while i < kept
                    invariant
                        i <= kept,
                        len > 0,
                        len == source@.len(),
                        start == (len - kept % len) % (len as int),
                        start < len,
                        made@.len() == i,
                        forall|j: int|
                            0 <= j < i ==> #[trigger] made@[j] == source@[window_place(
                                len as int,
                                kept as int,
                                j,
                            )],
                    decreases kept - i,
                {
                    let offset: u128 = start as u128 + (i % len) as u128;
                    let place: usize = (offset % len as u128) as usize;
                    made.push(source[place]);
                    match check_time_every(i, &vm.tracker) {
                        Ok(_) => {},
                        Err(limit) => {
                            let error = run_error(limit);
                            assert(may_time_out(vm@.tracker, limit) && error@ == limit_error(limit));
                            return Err(error);
                        },
                    }
                    i = i + 1;
                }
                proof {
                    lemma_kept_window(items, maxlen, count as nat, kept as int, made@);
                }
            } else {
                proof {
                    assert(made@ =~= Seq::<Value>::empty());
                    lemma_repeated_len(items, count as nat);
                    assert(kept_items(repeated_items(items, count as nat), maxlen) =~= made@);
                }
            }
        },
        None => {
            match check_repeat_size(saturating_product(len, VALUE_SIZE), count, &vm.tracker) {
                Ok(_) => {},
                Err(limit) => return Err(run_error(limit)),
            }
            let mut rep: usize = 0;
            assert(made@ =~= repeated_items(source@, 0));
            while rep < count
                invariant
                    rep <= count,
                    made@ == repeated_items(source@, rep as nat),
                decreases count - rep,
            {
                append_values(&mut made, &source);
                match check_time_every(rep, &vm.tracker) {
                    Ok(_) => {},
                    Err(limit) => {
                        let error = run_error(limit);
                        assert(may_time_out(vm@.tracker, limit) && error@ == limit_error(limit));
                        return Err(error);
                    },
                }
                rep = rep + 1;
            }
            assert(made@ == repeated_items(items, count as nat));
        },
    }
    assert(kept_items(made@, maxlen) =~= kept_items(repeated_items(items, count as nat), maxlen));
    Ok(DequeMade::Deque(Deque::new(made, maxlen).0))
}

/// Appends values to a list.
fn append_values(list: &mut Vec<Value>, values: &Vec<Value>)
    ensures
        final(list)@ == old(list)@ + values@,
{
    let ghost before = list@;
    let mut i: usize = 0;
    assert(list@ =~= before + values@.subrange(0, 0));
    while i < values.len()
        invariant
            i <= values@.len(),
            list@ == before + values@.subrange(0, i as int),
        decreases values@.len() - i,
    {
        list.push(values[i]);
        i = i + 1;
        assert(list@ =~= before + values@.subrange(0, i as int));
    }
    assert(values@.subrange(0, values@.len() as int) =~= values@);
}

/// Two queues one behind the other, with the largest length of the first.
pub open spec fn concat_deque_model(vm: VmModel, left: DequeModel, right: DequeModel) -> DequeOutcome {
    match memory_excess(vm.tracker, items_size(left.items.len() as int)) {
        Some(limit) => Err(limit_error(limit)),
        None => match memory_excess(vm.tracker, items_size(right.items.len() as int)) {
            Some(limit) => Err(limit_error(limit)),
            None => Ok(DequeMadeModel::Deque(new_deque(left.items + right.items, left.maxlen))),
        },
    }
}

/// How two queues are ordered.
#[derive(Clone, Copy, Debug, PartialEq, Eq, Structural)]
pub enum DequeOrder {
    Less,
    Same,
    Greater,
    /// No order, as with a number that is none.
    Unordered,
    /// Values that cannot be ordered.
    Incomparable,
    /// The host has to compare these two first.
    Compare(Value, Value),
}

/// What the host says of two values.
#[derive(Clone, Copy, Debug, PartialEq, Eq, Structural)]
pub enum PairOrder {
    Less,
    Same,
    Greater,
    Unordered,
    /// They cannot be ordered but are equal.
    Equal,
    /// They cannot be ordered and are not equal.
    Incomparable,
}

/// The order of two integers, where both are.
pub open spec fn integer_order(left: Value, right: Value) -> Option<PairOrder> {
    match (immediate(left), immediate(right)) {
        (Some(a), Some(b)) => Some(
            if a < b {
                PairOrder::Less
            } else if a > b {
                PairOrder::Greater
            } else {
                PairOrder::Same
            },
        ),
        _ => None,
    }
}

/// The order of two queues from `i` on: that of the first items that differ,
/// or that of the lengths.
pub open spec fn deque_order_from(
    left: Seq<Value>,
    right: Seq<Value>,
    i: int,
    answers: Seq<PairOrder>,
    used: int,
) -> DequeOrder
    decreases left.len() - i,
{
    if i < 0 || i >= left.len() || i >= right.len() {
        if left.len() < right.len() {
            DequeOrder::Less
        } else if left.len() > right.len() {
            DequeOrder::Greater
        } else {
            DequeOrder::Same
        }
    } else {
        let known = integer_order(left[i], right[i]);
        let order = match known {
            Some(order) => Some(order),
            None => if 0 <= used < answers.len() {
                Some(answers[used])
            } else {
                None
            },
        };
        let next = if known is Some {
            used
        } else {
            used + 1
        };
        match order {
            None => DequeOrder::Compare(left[i], right[i]),
            Some(PairOrder::Less) => DequeOrder::Less,
            Some(PairOrder::Greater) => DequeOrder::Greater,
            Some(PairOrder::Unordered) => DequeOrder::Unordered,
            Some(PairOrder::Incomparable) => DequeOrder::Incomparable,
            _ => deque_order_from(left, right, i + 1, answers, next),
        }
    }
}

/// Orders two lists, item by item.
fn order_lists(left: &Vec<Value>, right: &Vec<Value>, answers: &Vec<PairOrder>) -> (order: DequeOrder)
    ensures
        order == deque_order_from(left@, right@, 0, answers@, 0),
{
    let mut i: usize = 0;
    let mut used: usize = 0;
    while i < left.len() && i < right.len()
        invariant
            i <= left@.len(),
            i <= right@.len(),
            used <= answers@.len(),
            deque_order_from(left@, right@, i as int, answers@, used as int) == deque_order_from(
                left@,
                right@,
                0,
                answers@,
                0,
            ),
        decreases left@.len() - i,
    {
        let order: PairOrder = match (immediate_int(left[i]), immediate_int(right[i])) {
            (Some(a), Some(b)) => {
                if a < b {
                    PairOrder::Less
                } else if a > b {
                    PairOrder::Greater
                } else {
                    PairOrder::Same
                }
            },
            _ => {
                if used >= answers.len() {
                    return DequeOrder::Compare(left[i], right[i]);
                }
                used = used + 1;
                answers[used - 1]
            },
        };
        match order {
            PairOrder::Less => {
                return DequeOrder::Less;
            },
            PairOrder::Greater => {
                return DequeOrder::Greater;
            },
            PairOrder::Unordered => {
                return DequeOrder::Unordered;
            },
            PairOrder::Incomparable => {
                return DequeOrder::Incomparable;
            },
            _ => {},
        }
        i = i + 1;
    }
    if left.len() < right.len() {
        DequeOrder::Less
    } else if left.len() > right.len() {
        DequeOrder::Greater
    } else {
        DequeOrder::Same
    }
}

/// A search whose comparison has the two values the other way round.
pub open spec fn turned(scan: Scan) -> Scan {
    match scan {
        Scan::Compare(left, right) => Scan::Compare(right, left),
        _ => scan,
    }
}

/// The texts of items, with a comma between.
pub open spec fn item_body(items: Seq<Seq<char>>, count: int) -> Seq<char>
    decreases count,
{
    if count <= 0 || count > items.len() {
        Seq::empty()
    } else {
        let before = item_body(items, count - 1);
        (if count > 1 {
            before + ", "@
        } else {
            before
        }) + items[count - 1]
    }
}

/// The texts of a list of texts.
pub open spec fn item_texts(items: Seq<String>) -> Seq<Seq<char>> {
    Seq::new(items.len(), |i: int| items[i]@)
}

/// The text of a queue, from the texts of its items.
pub open spec fn deque_text(items: Seq<Seq<char>>, written: Written, maxlen: Option<usize>) -> Seq<char> {
    "deque("@ + (match written {
        Written::All => "["@ + item_body(items, items.len() as int) + "]"@,
        Written::OutOfTime => "["@ + item_body(items, items.len() as int) + ", ...[timeout]"@ + "]"@,
        Written::TooDeep => "..."@,
    }) + (match maxlen {
        Some(max) => ", maxlen="@ + decimal(max as nat),
        None => Seq::empty(),
    }) + ")"@
}

impl HeapRead<Deque> {
    /// Calls a method by its name.
    pub fn py_call_attr(
        &mut self,
        self_id: HeapId,
        name: &str,
        args: &ArgValues,
        vm: &VM,
        reply: Option<Reply>,
        answers: &Vec<bool>,
    ) -> (result: RunResult<DequeMade>)
        requires
            old(self).item@.wf(),
            vm@.holds_all(old(self).item@.items),
            holds_args(vm@, args@),
            vm@.wf(),
            old(self).item@.items.len() <= i64::MAX,
        ensures
            has_effect(
                final(self).item@,
                result,
                named_deque_effect(vm@, old(self).item@, self_id, name@, args@, reply_model(reply), answers@),
            ),
            final(self).item@.wf(),
    {
        match find_deque_method(name) {
            Some(method) => call_deque_method(self, self_id, method, args, vm, reply, answers),
            None => Err(
                raise3(ExcType::AttributeError, "'collections.deque' object has no attribute '", name, "'"),
            ),
        }
    }

    /// `deque += value`, which extends the queue at its right end. A queue that
    /// has no place on the heap does not do it.
    pub fn py_iadd_impl(&mut self, self_id: Option<HeapId>, other: Value, vm: &VM, reply: Option<Reply>) -> (result:
        RunResult<Option<DequeMade>>)
        requires
            old(self).item@.wf(),
            vm@.holds(other),
            vm@.wf(),
        ensures
            final(self).item@.wf(),
            match self_id {
                None => final(self).item@ == old(self).item@ && result == Ok::<Option<DequeMade>, RunError>(None),
                Some(id) => {
                    let effect = extend_by_effect(vm@, old(self).item@, id, other, reply_model(reply), false);
                    &&& !(result matches Ok(None))
                    &&& match result {
                        Ok(Some(made)) => has_effect(final(self).item@, Ok(made), effect),
                        Ok(None) => true,
                        Err(error) => has_effect(final(self).item@, Err(error), effect),
                    }
                },
            },
    {
        match self_id {
            None => Ok(None),
            Some(id) => match deque_extend(self, id, other, false, vm, reply) {
                Ok(made) => Ok(Some(made)),
                Err(error) => Err(error),
            },
        }
    }

    /// The queue as text, from the texts of its items. It says where no more
    /// than so many items fit.
    pub fn py_repr(&self, items: &Vec<String>, written: Written) -> (text: String)
        ensures
            text@ == deque_text(item_texts(items@), written, self.item@.maxlen),
    {
        let mut text = "deque(".to_owned();
        if let Written::TooDeep = written {
            text.append("...");
        } else {
            text.append("[");
            let ghost texts = item_texts(items@);
            let mut i: usize = 0;
            assert(text@ =~= "deque("@ + "["@ + item_body(texts, 0));
            while i < items.len()
                invariant
                    i <= items@.len(),
                    texts == item_texts(items@),
                    text@ == "deque("@ + "["@ + item_body(texts, i as int),
                decreases items@.len() - i,
            {
                if i > 0 {
                    text.append(", ");
                }
                text.append(items[i].as_str());
                i = i + 1;
                assert(texts[i - 1] == items@[i - 1]@);
                assert(text@ =~= "deque("@ + "["@ + item_body(texts, i as int));
            }
            if let Written::OutOfTime = written {
                text.append(", ...[timeout]");
            }
            text.append("]");
        }
        if let Some(max) = self.item.maxlen {
            text.append(", maxlen=");
            push_decimal(&mut text, max as u64);
        }
        text.append(")");
        assert(text@ =~= deque_text(item_texts(items@), written, self.item@.maxlen));
        text
    }

    /// Searches for an item that is equal to a value, as `in` does. The value
    /// stands at the left of each comparison that the host makes.
    pub fn py_contains(&self, item: Value, answers: &Vec<bool>, vm: &VM) -> (scan: Scan)
        requires
            vm@.holds_all(self.item@.items),
            vm@.holds(item),
        ensures
            scan == turned(
                scan_from(vm@, self.item@.items, item, 0, self.item@.items.len() as int, answers@, 0),
            ),
    {
        let items = self.item.iter();
        match scan_equal(&items, item, 0, items.len(), answers, vm) {
            Scan::Compare(left, right) => Scan::Compare(right, left),
            scan => scan,
        }
    }

    /// Compares two queues. The largest lengths do not count.
    pub fn py_eq(&self, other: &HeapRead<Deque>, answers: &Vec<bool>, vm: &VM) -> (same: SameItems)
        requires
            vm@.holds_all(self.item@.items),
            vm@.holds_all(other.item@.items),
        ensures
            same == lists_equal(vm@, self.item@.items, other.item@.items, answers@),
    {
        compare_lists(&self.item.iter(), &other.item.iter(), answers, vm)
    }

    /// Orders two queues.
    pub fn py_order(&self, other: &HeapRead<Deque>, answers: &Vec<PairOrder>) -> (order: DequeOrder)
        ensures
            order == deque_order_from(self.item@.items, other.item@.items, 0, answers@, 0),
    {
        order_lists(&self.item.iter(), &other.item.iter(), answers)
    }

    /// `deque + deque`.
    pub fn py_add(&self, other: &HeapRead<Deque>, vm: &VM) -> (result: RunResult<DequeMade>)
        ensures
            makes_deque(result, concat_deque_model(vm@, self.item@, other.item@)),
    {
        let mut items = self.clone_all_items(vm)?;
        let more = other.clone_all_items(vm)?;
        append_values(&mut items, &more);
        Ok(DequeMade::Deque(Deque::new(items, self.item.maxlen).0))
    }

    /// `deque * other`, which is nothing for values that are no integers.
    pub fn py_mul_impl(&self, other: Value, vm: &VM) -> (result: RunResult<Option<DequeMade>>)
        requires
            vm@.holds(other),
        ensures
            match (result, repeats(vm@, other)) {
                (Err(error), Err(expected)) => error@ == expected,
                (Ok(None), Ok(None)) => true,
                (Ok(Some(made)), Ok(Some(count))) => makes_deque(
                    Ok(made),
                    repeat_deque_model(vm@, self.item@, count),
                ),
                (Err(error), Ok(Some(count))) => makes_deque(
                    Err(error),
                    repeat_deque_model(vm@, self.item@, count),
                ) || timed_out(vm@.tracker, Err::<DequeMade, crate::exceptions::RunError>(error)),
                _ => false,
            },
    {
        match repeat_count(other, vm)? {
            None => Ok(None),
            Some(count) => match repeat_deque(self, count, vm) {
                Ok(made) => Ok(Some(made)),
                Err(error) => Err(error),
            },
        }
    }

    /// The one attribute that can be read: the largest length.
    pub fn py_getattr(&self, name: &str) -> (value: Option<Value>)
        requires
            self.item@.maxlen matches Some(max) ==> max <= i64::MAX,
        ensures
            value == if name@ == "maxlen"@ {
                Some(
                    match self.item@.maxlen {
                        Some(max) => Value::Int(max as i64),
                        None => Value::NoneValue,
                    },
                )
            } else {
                None
            },
    {
        if same_text(name, "maxlen") {
            match self.item.maxlen {
                Some(max) => Some(Value::Int(max as i64)),
                None => Some(Value::NoneValue),
            }
        } else {
            None
        }
    }

    /// No attribute can be set.
    pub fn py_set_attr(&self, name: &str) -> (done: RunResult<()>)
        ensures
            done matches Err(error) && error@ == if name@ == "maxlen"@ {
                raised(
                    ExcType::AttributeError,
                    "attribute 'maxlen' of 'collections.deque' objects is not writable"@,
                )
            } else {
                raised(
                    ExcType::AttributeError,
                    "'collections.deque' object has no attribute '"@ + name@
                        + "' and no __dict__ for setting new attributes"@,
                )
            },
    {
        if same_text(name, "maxlen") {
            Err(raise(ExcType::AttributeError, "attribute 'maxlen' of 'collections.deque' objects is not writable"))
        } else {
            Err(
                raise3(
                    ExcType::AttributeError,
                    "'collections.deque' object has no attribute '",
                    name,
                    "' and no __dict__ for setting new attributes",
                ),
            )
        }
    }
}

/// An iterator over a queue. It ends with an error once the queue's items
/// were added to, taken from or moved.
pub struct DequeIterator {
    /// The queue.
    pub deque: HeapId,
    /// The place of the next item.
    pub index: usize,
    /// The number of changes that the queue had at the start.
    pub state: u64,
}

/// What the next step of an iterator over a queue gives.
pub open spec fn deque_next(deque: DequeModel, index: usize, state: u64) -> Result<Option<Value>, ErrorModel> {
    if deque.state != state {
        Err(raised(ExcType::RuntimeError, "deque mutated during iteration"@))
    } else if index < deque.items.len() {
        Ok(Some(deque.items[index as int]))
    } else {
        Ok(None)
    }
}

impl DequeIterator {
    /// Starts to iterate over a queue.
    pub fn new(id: HeapId, deque: &Deque) -> (iterator: DequeIterator)
        ensures
            iterator.deque == id,
            iterator.index == 0,
            iterator.state == deque@.state,
    {
        DequeIterator { deque: id, index: 0, state: deque.state() }
    }

    /// The queue that the iterator keeps alive.
    pub fn deque_id(&self) -> (id: HeapId)
        ensures
            id == self.deque,
    {
        self.deque
    }

    /// How many items are still to come.
    pub fn size_hint(&self, deque: &Deque) -> (count: usize)
        ensures
            count == if self.index <= deque@.items.len() {
                deque@.items.len() - self.index
            } else {
                0
            },
    {
        deque.len().saturating_sub(self.index)
    }

    /// The next item, or nothing at the end.
    pub fn py_next(&mut self, deque: &Deque) -> (item: RunResult<Option<Value>>)
        ensures
            match (item, deque_next(deque@, old(self).index, old(self).state)) {
                (Ok(item), Ok(expected)) => item == expected,
                (Err(error), Err(expected)) => error@ == expected,
                _ => false,
            },
            final(self).deque == old(self).deque,
            final(self).state == old(self).state,
            final(self).index == if item matches Ok(Some(_)) {
                old(self).index + 1
            } else {
                old(self).index as int
            },
    {
        if deque.state() != self.state {
            return Err(raise(ExcType::RuntimeError, "deque mutated during iteration"));
        }
        match deque.get(self.index) {
            Some(item) => {
                let _len: usize = deque.len();
                self.index = self.index + 1;
                Ok(Some(item))
            },
            None => Ok(None),
        }
    }

    /// Lists the items of the heap that the iterator keeps alive.
    pub fn py_dec_ref_ids(&mut self, stack: &mut Vec<HeapId>)
        ensures
            *final(self) == *old(self),
            final(stack)@ == old(stack)@.push(old(self).deque),
    {
        stack.push(self.deque);
    }
}

/// An iterator that was started before an item was put in at either end ends
/// with an error.
pub proof fn law_append_ends_iteration(deque: DequeModel, item: Value, index: usize)
    ensures
        deque_next(deque.appended(item), index, deque.state) is Err,
        deque_next(deque.appended_left(item), index, deque.state) is Err,
{
}

/// Setting an item and turning the queue round leave iterators valid.
pub proof fn law_reverse_keeps_iteration(deque: DequeModel, index: usize)
    ensures
        deque_next(DequeModel { items: deque.items.reverse(), ..deque }, index, deque.state) is Ok,
{
}

} // verus!
