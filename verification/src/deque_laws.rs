//! What the methods of double-ended queues mean: where each item stands
//! afterwards, and what is handed back.

use crate::args::given;
use crate::bytes::ReplyModel;
use crate::deque::{deque_of, deque_place, fits, known_items, new_deque, DequeMadeModel, DequeModel};
use crate::deque_call::{deque_effect, deque_method_called, DequeEffect, DequeMethod};
use crate::deque_ops::{concat_deque_model, deque_next, deque_order_from, repeated_items, DequeOrder, PairOrder};
use crate::equality::{equal_count, law_counts_are_of_equal_items, native_equality, scan_from, Scan};
use crate::exceptions::{raised, type_error_model, value_error_model, ErrorModel, ExcType};
use crate::heap::VmModel;
use crate::value::{HeapId, Value};
use vstd::prelude::*;

verus! {

/// A method was carried out on a queue of these items, and gave nothing.
pub open spec fn gave_nothing(effect: DequeEffect) -> bool {
    effect.1 == Ok::<DequeMadeModel, ErrorModel>(DequeMadeModel::Plain(Value::NoneValue))
}

/// A method was refused, and left the queue as it was.
pub open spec fn refused(effect: DequeEffect, deque: DequeModel, error: ErrorModel) -> bool {
    effect.0 == deque && effect.1 == Err::<DequeMadeModel, ErrorModel>(error)
}

/// `insert(i, x)` puts `x` at the place `i`, or at `len + i` where `i` is
/// negative, and no further out than the two ends. What stood before that place
/// stays, and what stood at it or behind it moves one place to the right. A queue
/// that is full refuses it.
pub proof fn law_insert_puts_the_item_at_its_place(
    vm: VmModel,
    deque: DequeModel,
    self_id: HeapId,
    i: i64,
    item: Value,
    reply: Option<ReplyModel>,
    answers: Seq<bool>,
)
    ensures
        ({
            let effect = deque_effect(
                vm,
                deque,
                self_id,
                DequeMethod::Insert,
                given(seq![Value::Int(i), item]),
                reply,
                answers,
            );
            let len = deque.items.len();
            let after = effect.0.items;
            if deque.maxlen matches Some(max) && len + 1 > max {
                refused(effect, deque, raised(ExcType::IndexError, "deque already at its maximum size"@))
            } else {
                &&& gave_nothing(effect)
                &&& after.len() == len + 1
                &&& effect.0.maxlen == deque.maxlen
                &&& 0 <= i <= len ==> after[i as int] == item
                &&& i > len ==> after[len as int] == item
                &&& -len <= i < 0 ==> after[len + i] == item
                &&& i < -len ==> after[0] == item
                &&& 0 <= i <= len ==> forall|j: int| 0 <= j < i ==> #[trigger] after[j] == deque.items[j]
                &&& 0 <= i <= len ==> forall|j: int| i < j <= len ==> #[trigger] after[j] == deque.items[j - 1]
                &&& -len <= i < 0 ==> forall|j: int| 0 <= j < len + i ==> #[trigger] after[j] == deque.items[j]
                &&& -len <= i < 0 ==> forall|j: int| len + i < j <= len ==> #[trigger] after[j] == deque.items[j - 1]
                &&& i > len ==> forall|j: int| 0 <= j < len ==> #[trigger] after[j] == deque.items[j]
                &&& i < -len ==> forall|j: int| 0 < j <= len ==> #[trigger] after[j] == deque.items[j - 1]
            }
        }),
{
}

/// `append` puts an item behind all others, and `appendleft` before them. A queue
/// that is full loses the item at its other end for it.
pub proof fn law_append_puts_the_item_at_an_end(
    vm: VmModel,
    deque: DequeModel,
    self_id: HeapId,
    item: Value,
    reply: Option<ReplyModel>,
    answers: Seq<bool>,
)
    requires
        deque.wf(),
    ensures
        ({
            let right = deque_effect(vm, deque, self_id, DequeMethod::Append, given(seq![item]), reply, answers);
            let left = deque_effect(vm, deque, self_id, DequeMethod::Appendleft, given(seq![item]), reply, answers);
            let items = deque.items;
            &&& gave_nothing(right) && gave_nothing(left)
            &&& right.0.maxlen == deque.maxlen && left.0.maxlen == deque.maxlen
            &&& if deque.maxlen matches Some(max) && items.len() + 1 > max {
                if deque.maxlen == Some(0usize) {
                    right.0.items.len() == 0 && left.0.items.len() == 0
                } else {
                    &&& right.0.items.len() == items.len() && left.0.items.len() == items.len()
                    &&& right.0.items.last() == item && left.0.items[0] == item
                    &&& forall|j: int| 0 < j < items.len() ==> right.0.items[j - 1] == #[trigger] items[j]
                    &&& forall|j: int| 0 < j < items.len() ==> #[trigger] left.0.items[j] == items[j - 1]
                }
            } else {
                &&& right.0.items.len() == items.len() + 1 && left.0.items.len() == items.len() + 1
                &&& right.0.items.last() == item && left.0.items[0] == item
                &&& forall|j: int| 0 <= j < items.len() ==> right.0.items[j] == #[trigger] items[j]
                &&& forall|j: int| 0 < j <= items.len() ==> #[trigger] left.0.items[j] == items[j - 1]
            }
        }),
{
}

/// `pop` hands out the last item and `popleft` the first. The others stay, in
/// order. An empty queue has none to hand out.
pub proof fn law_pop_takes_the_item_at_an_end(
    vm: VmModel,
    deque: DequeModel,
    self_id: HeapId,
    reply: Option<ReplyModel>,
    answers: Seq<bool>,
)
    ensures
        ({
            let right = deque_effect(vm, deque, self_id, DequeMethod::Pop, given(Seq::empty()), reply, answers);
            let left = deque_effect(vm, deque, self_id, DequeMethod::Popleft, given(Seq::empty()), reply, answers);
            let items = deque.items;
            if items.len() == 0 {
                &&& refused(right, deque, raised(ExcType::IndexError, "pop from an empty deque"@))
                &&& refused(left, deque, raised(ExcType::IndexError, "pop from an empty deque"@))
            } else {
                &&& right.1 == Ok::<DequeMadeModel, ErrorModel>(DequeMadeModel::Plain(items[items.len() - 1]))
                &&& left.1 == Ok::<DequeMadeModel, ErrorModel>(DequeMadeModel::Plain(items[0]))
                &&& right.0.items.push(items[items.len() - 1]) == items
                &&& seq![items[0]] + left.0.items == items
                &&& right.0.maxlen == deque.maxlen && left.0.maxlen == deque.maxlen
            }
        }),
{
    let items = deque.items;
    if items.len() > 0 {
        assert(items.subrange(0, items.len() - 1).push(items.last()) =~= items);
        assert(seq![items[0]] + items.subrange(1, items.len() as int) =~= items);
    }
}

/// What `append` put into a queue with room, `pop` hands out next, and the queue
/// holds what it held before. So it is with `appendleft` and `popleft`.
pub proof fn law_pop_undoes_append(
    vm: VmModel,
    deque: DequeModel,
    self_id: HeapId,
    item: Value,
    reply: Option<ReplyModel>,
    answers: Seq<bool>,
)
    requires
        fits((deque.items.len() + 1) as int, deque.maxlen),
    ensures
        ({
            let put = deque_effect(vm, deque, self_id, DequeMethod::Append, given(seq![item]), reply, answers).0;
            let taken = deque_effect(vm, put, self_id, DequeMethod::Pop, given(Seq::empty()), reply, answers);
            let put_left = deque_effect(vm, deque, self_id, DequeMethod::Appendleft, given(seq![item]), reply, answers).0;
            let taken_left = deque_effect(
                vm,
                put_left,
                self_id,
                DequeMethod::Popleft,
                given(Seq::empty()),
                reply,
                answers,
            );
            &&& taken.1 == Ok::<DequeMadeModel, ErrorModel>(DequeMadeModel::Plain(item))
            &&& taken.0.items == deque.items
            &&& taken_left.1 == Ok::<DequeMadeModel, ErrorModel>(DequeMadeModel::Plain(item))
            &&& taken_left.0.items == deque.items
        }),
{
    assert(deque.items.push(item).subrange(0, deque.items.len() as int) =~= deque.items);
    assert((seq![item] + deque.items).subrange(1, (deque.items.len() + 1) as int) =~= deque.items);
}

/// `clear` leaves no item, `reverse` turns the order round, and `copy` makes a
/// queue of the same items and the same bound, and leaves this one as it is.
pub proof fn law_whole_queue_methods(
    vm: VmModel,
    deque: DequeModel,
    self_id: HeapId,
    reply: Option<ReplyModel>,
    answers: Seq<bool>,
)
    requires
        deque.wf(),
    ensures
        ({
            let cleared = deque_effect(vm, deque, self_id, DequeMethod::Clear, given(Seq::empty()), reply, answers);
            let turned = deque_effect(vm, deque, self_id, DequeMethod::Reverse, given(Seq::empty()), reply, answers);
            let copied = deque_effect(vm, deque, self_id, DequeMethod::Copy, given(Seq::empty()), reply, answers);
            let len = deque.items.len();
            &&& gave_nothing(cleared) && cleared.0.items.len() == 0 && cleared.0.maxlen == deque.maxlen
            &&& gave_nothing(turned) && turned.0.items.len() == len && turned.0.maxlen == deque.maxlen
            &&& forall|j: int| 0 <= j < len ==> #[trigger] turned.0.items[j] == deque.items[len - 1 - j]
            &&& copied.0 == deque
            &&& vm.tracker.max_memory is None ==> (copied.1 matches Ok(DequeMadeModel::Deque(copy)) && copy.items
                == deque.items && copy.maxlen == deque.maxlen)
        }),
{
    assert(deque.items.subrange(0, deque.items.len() as int) =~= deque.items);
}

/// The items of a queue that was extended are what it held and then the new
/// items, in order, as many of the last of them as fit. On the left the new items
/// come first, the last of them foremost, and the first that fit are kept.
pub proof fn law_extend_keeps_order(deque: DequeModel, items: Seq<Value>, i: int)
    requires
        deque.wf(),
        0 <= i <= items.len(),
    ensures
        ({
            let all = deque.items + items.skip(i);
            let after = deque.extended(items, i, false);
            &&& after.maxlen == deque.maxlen
            &&& deque.maxlen is None ==> after.items == all
            &&& deque.maxlen matches Some(max) ==> after.items == (if all.len() > max {
                all.skip(all.len() - max)
            } else {
                all
            })
        }),
        ({
            let all = items.skip(i).reverse() + deque.items;
            let after = deque.extended(items, i, true);
            &&& after.maxlen == deque.maxlen
            &&& deque.maxlen is None ==> after.items == all
            &&& deque.maxlen matches Some(max) ==> after.items == (if all.len() > max {
                all.take(max as int)
            } else {
                all
            })
        }),
    decreases items.len() - i,
{
    let rest = items.skip(i);
    if i == items.len() {
        assert(deque.items + rest =~= deque.items);
        assert(rest.reverse() + deque.items =~= deque.items);
    } else {
        crate::deque::law_appended_keeps_wf(deque, items[i]);
        crate::deque::law_appended_left_keeps_wf(deque, items[i]);
        law_extend_keeps_order(deque.appended(items[i]), items, i + 1);
        law_extend_keeps_order(deque.appended_left(items[i]), items, i + 1);
        let fewer = items.skip(i + 1);
        let right = deque.appended(items[i]);
        let left = deque.appended_left(items[i]);
        let all = deque.items + rest;
        let all_left = rest.reverse() + deque.items;
        assert(deque.items.push(items[i]) + fewer =~= all);
        assert(fewer.reverse() + (seq![items[i]] + deque.items) =~= all_left);
        let now = right.items + fewer;
        let now_left = fewer.reverse() + left.items;
        match deque.maxlen {
            None => {},
            Some(max) => {
                if deque.items.len() + 1 > max {
                    assert(now =~= all.skip(1));
                    assert(now_left =~= all_left.take(all_left.len() - 1));
                    if now.len() > max {
                        assert(now.skip(now.len() - max) =~= all.skip(all.len() - max));
                        assert(now_left.take(max as int) =~= all_left.take(max as int));
                    } else {
                        assert(now =~= all.skip(all.len() - max));
                        assert(now_left =~= all_left.take(max as int));
                    }
                }
            },
        }
    }
}

/// `extend` takes in the items of a list or a tuple, and of the queue itself,
/// and of what the host walks for it.
pub proof fn law_extend_takes_the_items_in(
    vm: VmModel,
    deque: DequeModel,
    self_id: HeapId,
    value: Value,
    items: Seq<Value>,
    answers: Seq<bool>,
    none: Option<ReplyModel>,
    error: ErrorModel,
)
    requires
        deque.wf(),
        deque.maxlen is None,
        vm.tracker.max_memory is None,
    ensures
        ({
            let itself = given(seq![Value::Ref(self_id)]);
            let right = deque_effect(vm, deque, self_id, DequeMethod::Extend, itself, none, answers);
            let left = deque_effect(vm, deque, self_id, DequeMethod::Extendleft, itself, none, answers);
            &&& gave_nothing(right) && right.0.items == deque.items + deque.items
            &&& gave_nothing(left) && left.0.items == deque.items.reverse() + deque.items
        }),
        value != Value::Ref(self_id) && known_items(vm, value) == Some(items) ==> {
            let right = deque_effect(vm, deque, self_id, DequeMethod::Extend, given(seq![value]), none, answers);
            let left = deque_effect(vm, deque, self_id, DequeMethod::Extendleft, given(seq![value]), none, answers);
            &&& gave_nothing(right) && right.0.items == deque.items + items
            &&& gave_nothing(left) && left.0.items == items.reverse() + deque.items
        },
        value != Value::Ref(self_id) && known_items(vm, value) is None && vm.iterable(value) ==> {
            let walked = Some(ReplyModel::Items(items, None));
            let broken = Some(ReplyModel::Items(items, Some(error)));
            let right = deque_effect(vm, deque, self_id, DequeMethod::Extend, given(seq![value]), walked, answers);
            let left = deque_effect(vm, deque, self_id, DequeMethod::Extendleft, given(seq![value]), walked, answers);
            let part = deque_effect(vm, deque, self_id, DequeMethod::Extend, given(seq![value]), broken, answers);
            &&& gave_nothing(right) && right.0.items == deque.items + items
            &&& gave_nothing(left) && left.0.items == items.reverse() + deque.items
            &&& part.0.items == deque.items + items && part.1 == Err::<DequeMadeModel, ErrorModel>(error)
        },
        value != Value::Ref(self_id) && known_items(vm, value) is None && !vm.iterable(value) ==> refused(
            deque_effect(vm, deque, self_id, DequeMethod::Extend, given(seq![value]), none, answers),
            deque,
            type_error_model("'"@ + vm.name_of_type(value) + "' object is not iterable"@),
        ),
{
    law_extend_keeps_order(deque, items, 0);
    law_extend_keeps_order(deque, deque.items, 0);
    assert(items.skip(0) =~= items);
    assert(deque.items.skip(0) =~= deque.items);
}

/// `rotate(n)` moves each item `n` places to the right, and what goes over the
/// end comes in at the start. Without a number it moves them one place.
pub proof fn law_rotate_moves_each_item(
    vm: VmModel,
    deque: DequeModel,
    self_id: HeapId,
    n: i64,
    j: int,
    reply: Option<ReplyModel>,
    answers: Seq<bool>,
)
    requires
        0 <= j < deque.items.len(),
    ensures
        ({
            let effect = deque_effect(
                vm,
                deque,
                self_id,
                DequeMethod::Rotate,
                given(seq![Value::Int(n)]),
                reply,
                answers,
            );
            let one = deque_effect(vm, deque, self_id, DequeMethod::Rotate, given(Seq::empty()), reply, answers);
            let len = deque.items.len();
            &&& gave_nothing(effect) && gave_nothing(one)
            &&& effect.0.items.len() == len && one.0.items.len() == len
            &&& effect.0.items[(j + n) % len as int] == deque.items[j]
            &&& one.0.items[(j + 1) % len as int] == deque.items[j]
        }),
{
    crate::deque_call::law_turning_moves_each_item(deque.items, n as int, j);
    crate::deque_call::law_turning_moves_each_item(deque.items, 1, j);
    if deque.items.len() == 1 {
        assert((j + n) % 1 == 0);
        assert((j + 1) % 1 == 0);
    }
}

/// How many of the first items have to be compared by the host.
pub open spec fn asked_before(vm: VmModel, items: Seq<Value>, target: Value, from: int, to: int) -> int
    decreases to - from,
{
    if from >= to {
        0
    } else {
        asked_before(vm, items, target, from, to - 1) + (if native_equality(vm, items[to - 1], target) is None {
            1int
        } else {
            0
        })
    }
}

/// An item is known to be equal to the target, or not to be: it is seen from
/// here, or the host has replied so, its replies taken in the order in which the
/// items came up.
pub open spec fn known_to_be(
    vm: VmModel,
    items: Seq<Value>,
    target: Value,
    answers: Seq<bool>,
    from: int,
    at: int,
    equal: bool,
) -> bool {
    match native_equality(vm, items[at], target) {
        Some(seen) => seen == equal,
        None => {
            let used = asked_before(vm, items, target, from, at);
            used < answers.len() && answers[used] == equal
        },
    }
}

/// A search from `from` goes past what differs and stops at the first equal
/// item, and uses the replies in order.
pub proof fn law_search_goes_past_what_differs(
    vm: VmModel,
    items: Seq<Value>,
    target: Value,
    from: int,
    stop: int,
    answers: Seq<bool>,
    at: int,
)
    requires
        0 <= from <= at <= stop <= items.len(),
        items.len() <= usize::MAX,
        forall|j: int| from <= j < at ==> known_to_be(vm, items, target, answers, from, j, false),
    ensures
        at == stop ==> scan_from(vm, items, target, from, stop, answers, 0) == Scan::Missing,
        at < stop && known_to_be(vm, items, target, answers, from, at, true) ==> scan_from(
            vm,
            items,
            target,
            from,
            stop,
            answers,
            0,
        ) == Scan::Found(at as usize),
        at < stop && native_equality(vm, items[at], target) is None && asked_before(vm, items, target, from, at)
            == answers.len() ==> scan_from(vm, items, target, from, stop, answers, 0) == Scan::Compare(items[at], target),
{
    lemma_search(vm, items, target, from, from, stop, answers, at);
    assert(asked_before(vm, items, target, from, from) == 0);
    lemma_asked_is_positive(vm, items, target, from, at);
}

proof fn lemma_asked_is_positive(vm: VmModel, items: Seq<Value>, target: Value, from: int, to: int)
    ensures
        asked_before(vm, items, target, from, to) >= 0,
    decreases to - from,
{
    if from < to {
        lemma_asked_is_positive(vm, items, target, from, to - 1);
    }
}

proof fn lemma_search(
    vm: VmModel,
    items: Seq<Value>,
    target: Value,
    first: int,
    from: int,
    stop: int,
    answers: Seq<bool>,
    at: int,
)
    requires
        0 <= first <= from <= at <= stop <= items.len(),
        items.len() <= usize::MAX,
        forall|j: int| from <= j < at ==> known_to_be(vm, items, target, answers, first, j, false),
    ensures
        scan_from(vm, items, target, from, stop, answers, asked_before(vm, items, target, first, from)) == scan_from(
            vm,
            items,
            target,
            at,
            stop,
            answers,
            asked_before(vm, items, target, first, at),
        ),
    decreases at - from,
{
    if from < at {
        assert(known_to_be(vm, items, target, answers, first, from, false));
        lemma_asked_is_positive(vm, items, target, first, from);
        lemma_search(vm, items, target, first, from + 1, stop, answers, at);
    }
}

/// `remove(x)` takes out the first item that is equal to `x`, and the others
/// keep their order. Where no item is equal it is refused.
pub proof fn law_remove_takes_the_first_equal_item(
    vm: VmModel,
    deque: DequeModel,
    self_id: HeapId,
    target: Value,
    reply: Option<ReplyModel>,
    answers: Seq<bool>,
    at: int,
)
    requires
        0 <= at <= deque.items.len() <= usize::MAX,
        forall|j: int| 0 <= j < at ==> known_to_be(vm, deque.items, target, answers, 0, j, false),
    ensures
        ({
            let effect = deque_effect(vm, deque, self_id, DequeMethod::Remove, given(seq![target]), reply, answers);
            &&& at < deque.items.len() && known_to_be(vm, deque.items, target, answers, 0, at, true) ==> {
                &&& gave_nothing(effect)
                &&& effect.0.items.len() == deque.items.len() - 1
                &&& effect.0.maxlen == deque.maxlen
                &&& forall|j: int| 0 <= j < at ==> #[trigger] effect.0.items[j] == deque.items[j]
                &&& forall|j: int| at <= j < deque.items.len() - 1 ==> #[trigger] effect.0.items[j] == deque.items[j + 1]
            }
            &&& at == deque.items.len() ==> refused(
                effect,
                deque,
                value_error_model("deque.remove(x): x not in deque"@),
            )
        }),
{
    law_search_goes_past_what_differs(vm, deque.items, target, 0, deque.items.len() as int, answers, at);
}

/// `index(x, start, stop)` gives the first place from `start` on and before
/// `stop` that holds an item equal to `x`. Where no such item is there it is
/// refused. The queue stays as it is.
pub proof fn law_index_finds_the_first_equal_item(
    vm: VmModel,
    deque: DequeModel,
    self_id: HeapId,
    target: Value,
    start: i64,
    stop: i64,
    reply: Option<ReplyModel>,
    answers: Seq<bool>,
    at: int,
)
    requires
        deque.items.len() <= i64::MAX,
        deque.items.len() <= usize::MAX,
        0 <= start <= at <= stop <= deque.items.len(),
        forall|j: int| start <= j < at ==> known_to_be(vm, deque.items, target, answers, start as int, j, false),
    ensures
        ({
            let effect = deque_effect(
                vm,
                deque,
                self_id,
                DequeMethod::Index,
                given(seq![target, Value::Int(start), Value::Int(stop)]),
                reply,
                answers,
            );
            &&& effect.0 == deque
            &&& at < stop && known_to_be(vm, deque.items, target, answers, start as int, at, true) ==> effect.1 == Ok::<
                DequeMadeModel,
                ErrorModel,
            >(DequeMadeModel::Plain(Value::Int(at as i64)))
            &&& at == stop ==> refused(effect, deque, value_error_model("deque.index(x): x not in deque"@))
            &&& start == 0 && stop == deque.items.len() ==> effect == deque_effect(
                vm,
                deque,
                self_id,
                DequeMethod::Index,
                given(seq![target]),
                reply,
                answers,
            )
        }),
{
    law_search_goes_past_what_differs(vm, deque.items, target, start as int, stop as int, answers, at);
}

/// The bounds of a search that are negative count from the end, and none reaches
/// over the ends.
pub proof fn law_index_bounds_count_from_the_end(
    vm: VmModel,
    deque: DequeModel,
    self_id: HeapId,
    target: Value,
    start: i64,
    stop: i64,
    reply: Option<ReplyModel>,
    answers: Seq<bool>,
)
    requires
        0 < deque.items.len() < i64::MAX,
        -deque.items.len() <= start < 0,
        stop > deque.items.len(),
    ensures
        deque_effect(
            vm,
            deque,
            self_id,
            DequeMethod::Index,
            given(seq![target, Value::Int(start), Value::Int(stop)]),
            reply,
            answers,
        ) == deque_effect(
            vm,
            deque,
            self_id,
            DequeMethod::Index,
            given(
                seq![
                    target,
                    Value::Int((start + deque.items.len()) as i64),
                    Value::Int(deque.items.len() as i64),
                ],
            ),
            reply,
            answers,
        ),
{
}

/// `count(x)` gives the number of items that are equal to `x`, and leaves the
/// queue as it is.
pub proof fn law_count_counts_equal_items(
    vm: VmModel,
    deque: DequeModel,
    self_id: HeapId,
    target: Value,
    reply: Option<ReplyModel>,
    answers: Seq<bool>,
)
    requires
        deque.items.len() <= usize::MAX,
        forall|j: int|
            0 <= j < deque.items.len() ==> native_equality(vm, #[trigger] deque.items[j], target) is Some,
    ensures
        ({
            let effect = deque_effect(vm, deque, self_id, DequeMethod::Count, given(seq![target]), reply, answers);
            let equal = deque.items.filter(|item: Value| native_equality(vm, item, target) == Some(true));
            &&& effect.0 == deque
            &&& effect.1 == Ok::<DequeMadeModel, ErrorModel>(DequeMadeModel::Plain(Value::Int(equal.len() as i64)))
        }),
{
    law_counts_are_of_equal_items(vm, deque.items, target, 0, answers, 0, 0);
    lemma_equal_count_is_filtered(vm, deque.items, target);
    deque.items.lemma_filter_len(|item: Value| native_equality(vm, item, target) == Some(true));
}

proof fn lemma_equal_count_is_filtered(vm: VmModel, items: Seq<Value>, target: Value)
    ensures
        equal_count(vm, items, target, 0) == items.filter(
            |item: Value| native_equality(vm, item, target) == Some(true),
        ).len(),
    decreases items.len(),
{
    reveal(Seq::filter);
    if items.len() > 0 {
        let fewer = items.drop_last();
        lemma_equal_count_is_filtered(vm, fewer, target);
        lemma_equal_count_behind(vm, fewer, target, items.last(), 0);
        assert(fewer.push(items.last()) =~= items);
    }
}

proof fn lemma_equal_count_behind(vm: VmModel, items: Seq<Value>, target: Value, last: Value, i: int)
    requires
        0 <= i <= items.len(),
    ensures
        equal_count(vm, items.push(last), target, i) == equal_count(vm, items, target, i) + (if native_equality(
            vm,
            last,
            target,
        ) == Some(true) {
            1int
        } else {
            0
        }),
    decreases items.len() - i,
{
    if i < items.len() {
        lemma_equal_count_behind(vm, items, target, last, i + 1);
    } else {
        assert(equal_count(vm, items.push(last), target, i + 1) == 0);
    }
}

/// A place that is negative counts from the end, and one beyond either end is
/// refused.
pub proof fn law_places_count_from_either_end(vm: VmModel, len: int, i: i64)
    requires
        len >= 0,
    ensures
        0 <= i < len ==> deque_place(vm, len, Value::Int(i)) == Ok::<int, ErrorModel>(i as int),
        -len <= i < 0 ==> deque_place(vm, len, Value::Int(i)) == Ok::<int, ErrorModel>(len + i),
        i >= len || i < -len ==> deque_place(vm, len, Value::Int(i)) == Err::<int, ErrorModel>(
            raised(ExcType::IndexError, "deque index out of range"@),
        ),
{
}

/// A queue is made of the last items that fit, in order.
pub proof fn law_new_queue_keeps_the_last_items(items: Seq<Value>, max: usize, failure: ErrorModel)
    ensures
        new_deque(items, None).items == items,
        new_deque(items, None).maxlen is None,
        new_deque(items, Some(max)).maxlen == Some(max),
        items.len() <= max ==> new_deque(items, Some(max)).items == items,
        items.len() > max ==> {
            &&& new_deque(items, Some(max)).items.len() == max
            &&& forall|j: int|
                0 <= j < max ==> #[trigger] new_deque(items, Some(max)).items[j] == items[items.len() - max + j]
        },
        new_deque(items, Some(max)).wf(),
        deque_of(items, Some(failure), Some(max)) == Err::<DequeMadeModel, ErrorModel>(failure),
        deque_of(items, None, Some(max)) == Ok::<DequeMadeModel, ErrorModel>(
            DequeMadeModel::Deque(new_deque(items, Some(max))),
        ),
{
}

/// Two queues make one of the items of the first and then those of the second,
/// with the bound of the first.
pub proof fn law_sum_of_queues(vm: VmModel, left: DequeModel, right: DequeModel)
    requires
        vm.tracker.max_memory is None,
    ensures
        concat_deque_model(vm, left, right) matches Ok(DequeMadeModel::Deque(sum)) && sum.maxlen == left.maxlen && (
        left.maxlen is None ==> sum.items == left.items + right.items) && (left.maxlen matches Some(max) ==> sum.items
            == (if left.items.len() + right.items.len() > max {
            (left.items + right.items).skip(left.items.len() + right.items.len() - max)
        } else {
            left.items + right.items
        })),
{
    let all = left.items + right.items;
    if let Some(max) = left.maxlen {
        if all.len() > max {
            assert(all.subrange(all.len() - max, all.len() as int) =~= all.skip(all.len() - max));
        }
    }
}

/// A repeated queue holds its items over and over.
pub proof fn law_repeated_items(items: Seq<Value>, count: nat, round: nat, j: int)
    requires
        0 <= j < items.len(),
        round < count,
    ensures
        repeated_items(items, count).len() == items.len() * count,
        round * items.len() + j < items.len() * count,
        repeated_items(items, count)[round * items.len() + j] == items[j],
    decreases count,
{
    let less = (count - 1) as nat;
    lemma_repeated_len(items, count);
    lemma_repeated_len(items, less);
    assert(items.len() * count == items.len() * less + items.len()) by (nonlinear_arith)
        requires
            count == less + 1,
    ;
    if round < less {
        law_repeated_items(items, less, round, j);
    } else {
        assert(round * items.len() == items.len() * less) by (nonlinear_arith)
            requires
                round == less,
        ;
    }
}

proof fn lemma_repeated_len(items: Seq<Value>, count: nat)
    ensures
        repeated_items(items, count).len() == items.len() * count,
    decreases count,
{
    if count > 0 {
        let less = (count - 1) as nat;
        lemma_repeated_len(items, less);
        assert(items.len() * count == items.len() * less + items.len()) by (nonlinear_arith)
            requires
                count == less + 1,
        ;
    } else {
        assert(items.len() * 0 == 0);
    }
}

/// Queues of integers are ordered by the first place where they differ, and a
/// queue that the other goes on from is less than the other.
pub proof fn law_queues_are_ordered_by_the_first_difference(
    left: Seq<Value>,
    right: Seq<Value>,
    i: int,
    at: int,
    answers: Seq<PairOrder>,
    used: int,
)
    requires
        0 <= i <= at <= left.len(),
        at <= right.len(),
        forall|j: int| i <= j < at ==> (#[trigger] left[j]) is Int && right[j] is Int && left[j] == right[j],
    ensures
        at < left.len() && at < right.len() ==> (forall|a: i64, b: i64|
            left[at] == Value::Int(a) && right[at] == Value::Int(b) ==> {
                &&& a < b ==> #[trigger] deque_order_from(left, right, i, answers, used) == DequeOrder::Less
                &&& a > b ==> deque_order_from(left, right, i, answers, used) == DequeOrder::Greater
            }),
        at == left.len() && at < right.len() ==> deque_order_from(left, right, i, answers, used) == DequeOrder::Less,
        at < left.len() && at == right.len() ==> deque_order_from(left, right, i, answers, used) == DequeOrder::Greater,
        at == left.len() && at == right.len() ==> deque_order_from(left, right, i, answers, used) == DequeOrder::Same,
    decreases at - i,
{
    if i < at {
        assert(left[i] == right[i] && left[i] is Int);
        law_queues_are_ordered_by_the_first_difference(left, right, i + 1, at, answers, used);
    }
}

/// An iterator hands out the items in order and then ends, as long as the queue
/// has not changed.
pub proof fn law_iteration_goes_through_the_items(deque: DequeModel, index: usize, state: u64)
    ensures
        deque.state == state && index < deque.items.len() ==> deque_next(deque, index, state) == Ok::<
            Option<Value>,
            ErrorModel,
        >(Some(deque.items[index as int])),
        deque.state == state && index >= deque.items.len() ==> deque_next(deque, index, state) == Ok::<
            Option<Value>,
            ErrorModel,
        >(None),
        deque.state != state ==> deque_next(deque, index, state) == Err::<Option<Value>, ErrorModel>(
            raised(ExcType::RuntimeError, "deque mutated during iteration"@),
        ),
{
}

/// Each method is called by its own name.
pub proof fn law_methods_have_their_names()
    ensures
        deque_method_called("append"@) == Some(DequeMethod::Append),
        deque_method_called("appendleft"@) == Some(DequeMethod::Appendleft),
        deque_method_called("pop"@) == Some(DequeMethod::Pop),
        deque_method_called("popleft"@) == Some(DequeMethod::Popleft),
        deque_method_called("clear"@) == Some(DequeMethod::Clear),
        deque_method_called("copy"@) == Some(DequeMethod::Copy),
        deque_method_called("reverse"@) == Some(DequeMethod::Reverse),
        deque_method_called("extend"@) == Some(DequeMethod::Extend),
        deque_method_called("extendleft"@) == Some(DequeMethod::Extendleft),
        deque_method_called("rotate"@) == Some(DequeMethod::Rotate),
        deque_method_called("insert"@) == Some(DequeMethod::Insert),
        deque_method_called("remove"@) == Some(DequeMethod::Remove),
        deque_method_called("index"@) == Some(DequeMethod::Index),
        deque_method_called("count"@) == Some(DequeMethod::Count),
{
    reveal_strlit("append");
    reveal_strlit("appendleft");
    reveal_strlit("pop");
    reveal_strlit("popleft");
    reveal_strlit("clear");
    reveal_strlit("copy");
    reveal_strlit("reverse");
    reveal_strlit("extend");
    reveal_strlit("extendleft");
    reveal_strlit("rotate");
    reveal_strlit("insert");
    reveal_strlit("remove");
    reveal_strlit("index");
    reveal_strlit("count");
    assert("append"@.len() == 6);
    assert("appendleft"@.len() == 10);
    assert("pop"@.len() == 3);
    assert("popleft"@.len() == 7);
    assert("clear"@.len() == 5);
    assert("copy"@.len() == 4);
    assert("reverse"@.len() == 7);
    assert("extend"@.len() == 6);
    assert("extendleft"@.len() == 10);
    assert("rotate"@.len() == 6);
    assert("insert"@.len() == 6);
    assert("remove"@.len() == 6);
    assert("index"@.len() == 5);
    assert("count"@.len() == 5);
    assert("append"@[0] == 'a');
    assert("extend"@[0] == 'e');
    assert("rotate"@[1] == 'o');
    assert("insert"@[0] == 'i');
    assert("remove"@[1] == 'e');
    assert("remove"@[0] == 'r');
    assert("rotate"@[0] == 'r');
    assert("popleft"@[0] == 'p');
    assert("reverse"@[0] == 'r');
    assert("clear"@[1] == 'l');
    assert("index"@[0] == 'i');
    assert("count"@[1] == 'o');
    assert("clear"@[0] == 'c');
    assert("count"@[0] == 'c');
    assert("appendleft"@[0] == 'a');
    assert("extendleft"@[0] == 'e');
}

} // verus!
