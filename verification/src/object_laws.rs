//! What futures, context variables and attribute getters mean: what a call gives
//! in each state, and what one call leaves for the next.

use crate::args::given;
use crate::asyncio::{
    constructed, future_call, other_callbacks, AnswerModel, AsyncType, FutureEffect, FutureModel, PrimitiveModel,
    StateModel,
};
use crate::attrgetter::{gathered, walk_from, AttributeModel, WalkModel};
use crate::contextvar::{context_call, ContextAnswer, ContextVar, ContextVarToken};
use crate::exceptions::{raised, type_error_model, ErrorModel, ExcType};
use crate::heap::{DataModel, VmModel};
use crate::value::{HeapId, Value};
use vstd::prelude::*;

verus! {

/// A call gave this answer, and changed nothing.
pub open spec fn only_answers(
    effect: FutureEffect,
    vm: VmModel,
    future: FutureModel,
    answer: Result<AnswerModel, ErrorModel>,
) -> bool {
    effect.vm == vm && effect.future == future && effect.answer == answer
}

/// The names of the methods of futures differ.
proof fn lemma_future_names()
    ensures
        "done"@.len() == 4,
        "cancelled"@.len() == 9 && "cancelled"@[0] == 'c',
        "exception"@.len() == 9 && "exception"@[0] == 'e',
        "result"@.len() == 6 && "result"@[0] == 'r',
        "cancel"@.len() == 6 && "cancel"@[0] == 'c',
        "set_result"@.len() == 10,
        "set_exception"@.len() == 13,
        "add_done_callback"@.len() == 17,
        "remove_done_callback"@.len() == 20,
{
    reveal_strlit("done");
    reveal_strlit("cancelled");
    reveal_strlit("exception");
    reveal_strlit("result");
    reveal_strlit("cancel");
    reveal_strlit("set_result");
    reveal_strlit("set_exception");
    reveal_strlit("add_done_callback");
    reveal_strlit("remove_done_callback");
}

/// A future is done once it is settled, and cancelled where it was settled so.
pub proof fn law_futures_say_whether_they_are_done(vm: VmModel, future: FutureModel, id: HeapId)
    ensures
        only_answers(
            future_call(vm, future, id, "done"@, given(Seq::empty())),
            vm,
            future,
            Ok(AnswerModel::Value(Value::Bool(!(future.state is Pending)))),
        ),
        only_answers(
            future_call(vm, future, id, "cancelled"@, given(Seq::empty())),
            vm,
            future,
            Ok(AnswerModel::Value(Value::Bool(future.state is Cancelled))),
        ),
{
    lemma_future_names();
}

/// `result` hands out the value that a future finished with and raises the error
/// that it failed or was cancelled with. Before that it is an error.
pub proof fn law_result_hands_out_how_it_ended(vm: VmModel, future: FutureModel, id: HeapId)
    ensures
        ({
            let effect = future_call(vm, future, id, "result"@, given(Seq::empty()));
            &&& future.state matches StateModel::Finished(value) ==> only_answers(
                effect,
                vm,
                future,
                Ok(AnswerModel::Value(value)),
            )
            &&& future.state matches StateModel::Failed(error) ==> only_answers(effect, vm, future, Err(error))
            &&& future.state matches StateModel::Cancelled(error) ==> only_answers(effect, vm, future, Err(error))
            &&& future.state is Pending ==> only_answers(
                effect,
                vm,
                future,
                Err(raised(ExcType::InvalidStateError, "Result is not set."@)),
            )
        }),
{
    lemma_future_names();
}

/// `exception` hands out the error that a future failed with, and `None` where it
/// finished. The error that it was cancelled with is raised.
pub proof fn law_exception_hands_out_the_failure(vm: VmModel, future: FutureModel, id: HeapId)
    ensures
        ({
            let effect = future_call(vm, future, id, "exception"@, given(Seq::empty()));
            &&& future.state is Finished ==> only_answers(
                effect,
                vm,
                future,
                Ok(AnswerModel::Value(Value::NoneValue)),
            )
            &&& future.state matches StateModel::Failed(error) ==> error.catchable ==> only_answers(
                effect,
                vm,
                future,
                Ok(AnswerModel::Exception(error)),
            )
            &&& future.state matches StateModel::Cancelled(error) ==> only_answers(effect, vm, future, Err(error))
            &&& future.state is Pending ==> only_answers(
                effect,
                vm,
                future,
                Err(raised(ExcType::InvalidStateError, "Exception is not set."@)),
            )
        }),
{
    lemma_future_names();
}

/// A future that is not settled is settled by `set_result` and `set_exception`
/// with what they are given. One that is settled refuses both.
pub proof fn law_futures_are_settled_once(vm: VmModel, future: FutureModel, id: HeapId, value: Value)
    ensures
        ({
            let result = future_call(vm, future, id, "set_result"@, given(seq![value]));
            let failure = future_call(vm, future, id, "set_exception"@, given(seq![value]));
            if future.state is Pending {
                &&& only_answers(result, vm, future, Ok(AnswerModel::Settle(value)))
                &&& only_answers(failure, vm, future, Ok(AnswerModel::SettleError(value)))
            } else {
                &&& only_answers(result, vm, future, Err(raised(ExcType::InvalidStateError, "invalid state"@)))
                &&& only_answers(failure, vm, future, Err(raised(ExcType::InvalidStateError, "invalid state"@)))
            }
        }),
{
    lemma_future_names();
}

/// A callback waits behind the others until the future is settled. Where it is
/// settled, the callback is scheduled at once.
pub proof fn law_callbacks_wait_for_the_end(vm: VmModel, future: FutureModel, id: HeapId, callback: Value)
    ensures
        ({
            let effect = future_call(vm, future, id, "add_done_callback"@, given(seq![callback]));
            if future.state is Pending {
                &&& effect.answer == Ok::<AnswerModel, ErrorModel>(AnswerModel::Value(Value::NoneValue))
                &&& effect.future.callbacks == future.callbacks.push(callback)
                &&& effect.future.state == future.state && effect.vm == vm
            } else {
                only_answers(effect, vm, future, Ok(AnswerModel::Schedule(callback)))
            }
        }),
{
    lemma_future_names();
}

/// Removing a callback takes out every one that is this, keeps the order of the
/// others, and says how many were taken out.
pub proof fn law_removed_callbacks_are_gone(vm: VmModel, future: FutureModel, id: HeapId, callback: Value)
    requires
        future.callbacks.len() <= i64::MAX,
    ensures
        ({
            let effect = future_call(vm, future, id, "remove_done_callback"@, given(seq![callback]));
            let others = future.callbacks.filter(|other: Value| other != callback);
            &&& effect.future.callbacks == others
            &&& effect.answer == Ok::<AnswerModel, ErrorModel>(
                AnswerModel::Value(Value::Int((future.callbacks.len() - others.len()) as i64)),
            )
            &&& effect.vm == vm && effect.future.state == future.state
        }),
{
    lemma_future_names();
    lemma_others_are_filtered(future.callbacks, callback);
}

proof fn lemma_others_are_filtered(callbacks: Seq<Value>, callback: Value)
    ensures
        other_callbacks(callbacks, callback, 0) == callbacks.filter(|other: Value| other != callback),
        other_callbacks(callbacks, callback, 0).len() <= callbacks.len(),
    decreases callbacks.len(),
{
    let test = |other: Value| other != callback;
    reveal(Seq::filter);
    if callbacks.len() > 0 {
        let fewer = callbacks.drop_last();
        lemma_others_are_filtered(fewer, callback);
        lemma_others_behind(fewer, callback, callbacks.last(), 0);
        assert(fewer.push(callbacks.last()) =~= callbacks);
    }
}

proof fn lemma_others_behind(callbacks: Seq<Value>, callback: Value, last: Value, i: int)
    requires
        0 <= i <= callbacks.len(),
    ensures
        other_callbacks(callbacks.push(last), callback, i) == if last == callback {
            other_callbacks(callbacks, callback, i)
        } else {
            other_callbacks(callbacks, callback, i).push(last)
        },
    decreases callbacks.len() - i,
{
    let more = callbacks.push(last);
    if i < callbacks.len() {
        lemma_others_behind(callbacks, callback, last, i + 1);
        assert(more[i] == callbacks[i]);
        if last != callback && callbacks[i] != callback {
            let rest = other_callbacks(callbacks, callback, i + 1);
            assert(seq![callbacks[i]] + rest.push(last) =~= (seq![callbacks[i]] + rest).push(last));
        }
    } else {
        assert(other_callbacks(more, callback, i + 1) =~= Seq::<Value>::empty());
        assert(seq![last] + Seq::<Value>::empty() =~= Seq::<Value>::empty().push(last));
    }
}

/// `cancel` asks for a cancellation with the message that was given, or `None`.
pub proof fn law_cancel_passes_the_message_on(vm: VmModel, future: FutureModel, id: HeapId, message: Value)
    ensures
        only_answers(
            future_call(vm, future, id, "cancel"@, given(seq![message])),
            vm,
            future,
            Ok(AnswerModel::Cancel(message)),
        ),
        only_answers(
            future_call(vm, future, id, "cancel"@, given(Seq::empty())),
            vm,
            future,
            Ok(AnswerModel::Cancel(Value::NoneValue)),
        ),
{
    lemma_future_names();
}

/// What is built starts out free: a lock that is not held, an event that is not
/// set, and nobody waiting. A semaphore starts with what it is given, or one, and
/// only a bounded one has that as its bound. A queue without a positive size has
/// no bound.
pub proof fn law_primitives_start_out_free(vm: VmModel, n: i64)
    requires
        vm.int_of(Value::Int(n)) == Ok::<i64, ErrorModel>(n),
    ensures
        constructed(vm, AsyncType::Lock, given(Seq::empty())) matches Ok(PrimitiveModel::Lock { locked, waiters })
            && !locked && waiters.len() == 0,
        constructed(vm, AsyncType::Event, given(Seq::empty())) matches Ok(PrimitiveModel::Event { is_set, waiters })
            && !is_set && waiters.len() == 0,
        constructed(vm, AsyncType::Semaphore, given(Seq::empty())) matches Ok(
            PrimitiveModel::Semaphore { value, bound, waiters },
        ) && value == 1 && bound is None && waiters.len() == 0,
        n >= 0 ==> (constructed(vm, AsyncType::Semaphore, given(seq![Value::Int(n)])) matches Ok(
            PrimitiveModel::Semaphore { value, bound, .. },
        ) && value == n && bound is None),
        n >= 0 ==> (constructed(vm, AsyncType::BoundedSemaphore, given(seq![Value::Int(n)])) matches Ok(
            PrimitiveModel::Semaphore { value, bound, .. },
        ) && value == n && bound == Some(n)),
        n < 0 ==> constructed(vm, AsyncType::Semaphore, given(seq![Value::Int(n)])) is Err,
        n >= 1 ==> (constructed(vm, AsyncType::Barrier, given(seq![Value::Int(n)])) matches Ok(
            PrimitiveModel::Barrier { parties, waiters },
        ) && parties == n && waiters.len() == 0),
        n < 1 ==> constructed(vm, AsyncType::Barrier, given(seq![Value::Int(n)])) is Err,
        constructed(vm, AsyncType::Queue, given(seq![Value::Int(n)])) matches Ok(
            PrimitiveModel::Queue { items, maxsize, unfinished, .. },
        ) && items.len() == 0 && unfinished == 0 && maxsize == (if n > 0 {
            n
        } else {
            0
        }),
        constructed(vm, AsyncType::TaskGroup, given(Seq::empty())) matches Ok(
            PrimitiveModel::TaskGroup { entered, children },
        ) && !entered && children.len() == 0,
{
}

proof fn lemma_variable_names()
    ensures
        "get"@.len() == 3 && "get"@[0] == 'g',
        "set"@.len() == 3 && "set"@[0] == 's',
        "reset"@.len() == 5,
{
    reveal_strlit("get");
    reveal_strlit("set");
    reveal_strlit("reset");
}

/// `get` of a context variable hands out what it was set to. Where it was not
/// set, that is the default of the call, and without one that of the variable.
/// With neither it is an error.
pub proof fn law_get_reads_a_variable(
    var: ContextVar,
    id: HeapId,
    fallback: Value,
    token: Option<ContextVarToken>,
    shown: Seq<char>,
)
    ensures
        ({
            let bare = context_call(var, id, "get"@, given(Seq::empty()), token, shown);
            let with = context_call(var, id, "get"@, given(seq![fallback]), token, shown);
            &&& bare.0 == var && with.0 == var
            &&& var.value matches Some(value) ==> bare.1 == Ok::<ContextAnswer, ErrorModel>(ContextAnswer::Value(value))
                && with.1 == bare.1
            &&& var.value is None ==> with.1 == Ok::<ContextAnswer, ErrorModel>(ContextAnswer::Value(fallback))
            &&& var.value is None && var.default is Some ==> bare.1 == Ok::<ContextAnswer, ErrorModel>(
                ContextAnswer::Value(var.default->Some_0),
            )
            &&& var.value is None && var.default is None ==> bare.1 == Err::<ContextAnswer, ErrorModel>(
                raised(ExcType::LookupError, shown),
            )
        }),
{
    lemma_variable_names();
}

/// What `set` puts into a variable, `get` reads. `reset` with the token of that
/// `set` brings back what was there before, and the token cannot be used again.
pub proof fn law_reset_undoes_set(var: ContextVar, id: HeapId, value: Value, handle: Value, shown: Seq<char>)
    ensures
        ({
            let (after, answer) = context_call(var, id, "set"@, given(seq![value]), None, shown);
            &&& answer matches Ok(ContextAnswer::Token(token)) && {
                let (restored, spent) = context_call(after, id, "reset"@, given(seq![handle]), Some(token), shown);
                &&& restored == var
                &&& spent matches Ok(ContextAnswer::Spent(used)) && context_call(
                    restored,
                    id,
                    "reset"@,
                    given(seq![handle]),
                    Some(used),
                    shown,
                ) == (
                    restored,
                    Err::<ContextAnswer, ErrorModel>(
                        raised(ExcType::RuntimeError, shown + " has already been used once"@),
                    ),
                )
            }
            &&& context_call(after, id, "get"@, given(Seq::empty()), None, shown) == (
                after,
                Ok::<ContextAnswer, ErrorModel>(ContextAnswer::Value(value)),
            )
            &&& after.name == var.name && after.default == var.default
        }),
{
    lemma_variable_names();
}

/// A token resets only the variable that it came from.
pub proof fn law_tokens_belong_to_their_variable(
    var: ContextVar,
    id: HeapId,
    token: ContextVarToken,
    handle: Value,
    shown: Seq<char>,
)
    requires
        token.var != id,
    ensures
        context_call(var, id, "reset"@, given(seq![handle]), Some(token), shown) == (
            var,
            Err::<ContextAnswer, ErrorModel>(
                raised(ExcType::ValueError, shown + " was created by a different ContextVar"@),
            ),
        ),
        context_call(var, id, "reset"@, given(seq![handle]), None, shown) == (
            var,
            Err::<ContextAnswer, ErrorModel>(type_error_model("expected an instance of Token, got "@ + shown)),
        ),
{
    lemma_variable_names();
}

/// An attribute getter reads the first name of a path of the target, and each
/// next name of what came back for the one before it. The last value read is what
/// the path gives.
pub proof fn law_paths_are_read_name_by_name(
    replies: Seq<AttributeModel>,
    values: Seq<Value>,
    used: int,
    target: Value,
    path: Seq<Seq<char>>,
    i: int,
    end: int,
)
    requires
        0 <= i <= end <= path.len(),
        0 <= used,
        used + end - i <= replies.len(),
        values.len() == path.len() + 1,
        values[i] == target,
        forall|k: int|
            used <= k < used + end - i ==> #[trigger] replies[k] == AttributeModel::Value(values[k - used + i + 1]),
    ensures
        end == path.len() ==> walk_from(replies, used, target, path, i) == WalkModel::Done(values[end], used + end - i),
        end < path.len() && used + end - i == replies.len() ==> walk_from(replies, used, target, path, i)
            == WalkModel::<Value>::Ask(values[end], path[end]),
    decreases end - i,
{
    if i < end {
        assert(replies[used] == AttributeModel::Value(values[i + 1]));
        law_paths_are_read_name_by_name(replies, values, used + 1, values[i + 1], path, i + 1, end);
    }
}

/// One path gives its value, and more give a tuple of their values in order.
pub proof fn law_values_of_paths_are_gathered(vm: VmModel, results: Seq<Value>)
    ensures
        results.len() == 1 ==> gathered(vm, results) == (vm, results[0]),
        results.len() != 1 ==> {
            let (after, value) = gathered(vm, results);
            &&& value == Value::Ref(vm.heap.len() as usize)
            &&& after == vm.with(DataModel::Tuple(results))
        },
{
}

} // verus!
