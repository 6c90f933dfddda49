//! What a session keeps: which functions it lists, which one a call by name
//! reaches, and where values from outside go.

use crate::exceptions::{raised, ExcType};
use crate::intern::position_of;
use crate::names::{NamespaceId, StringId};
use crate::repl::{
    call_slot, fed, functions_from, holds_function, injected, input_name, slot_of, unknown_call, ExtFunctionResult,
    ReplModel,
};
use crate::value::Value;
use vstd::prelude::*;

verus! {

/// A slot from `slot` on that goes by the name holds a function.
pub open spec fn names_function(repl: ReplModel, slot: int, name: Seq<char>) -> bool {
    exists|at: int|
        slot <= at < repl.tables.names.len() && holds_function(repl, at) && name
            == repl.tables.strings[#[trigger] repl.tables.names[at] as int]
}

/// The functions of a session are listed in the order of their slots: every name
/// whose slot holds a function, and no other.
pub proof fn law_functions_are_listed(repl: ReplModel, slot: int, other: int)
    requires
        0 <= slot <= other,
        other < repl.tables.names.len(),
    ensures
        holds_function(repl, other) ==> functions_from(repl, slot).contains(
            repl.tables.strings[repl.tables.names[other] as int],
        ),
        functions_from(repl, slot) == functions_between(repl, slot, other) + functions_from(repl, other),
        forall|i: int|
            0 <= i < functions_from(repl, slot).len() ==> names_function(
                repl,
                slot,
                #[trigger] functions_from(repl, slot)[i],
            ),
    decreases other - slot,
{
    lemma_listed(repl, slot);
    lemma_between(repl, slot, other);
    let name = repl.tables.strings[repl.tables.names[other] as int];
    if holds_function(repl, other) {
        let before = functions_between(repl, slot, other);
        assert(functions_from(repl, other)[0] == name);
        assert(functions_from(repl, slot)[before.len() as int] == name);
    }
}

/// The functions in the slots from `slot` on and before `end`, in order.
pub open spec fn functions_between(repl: ReplModel, slot: int, end: int) -> Seq<Seq<char>>
    decreases end - slot,
{
    if slot >= end {
        Seq::empty()
    } else {
        let before = functions_between(repl, slot, end - 1);
        if holds_function(repl, end - 1) {
            before.push(repl.tables.strings[repl.tables.names[end - 1] as int])
        } else {
            before
        }
    }
}

proof fn lemma_between(repl: ReplModel, slot: int, end: int)
    requires
        0 <= slot <= end <= repl.tables.names.len(),
    ensures
        functions_from(repl, slot) == functions_between(repl, slot, end) + functions_from(repl, end),
    decreases end - slot,
{
    if slot < end {
        lemma_between(repl, slot, end - 1);
        assert(functions_from(repl, slot) =~= functions_between(repl, slot, end) + functions_from(repl, end));
    } else {
        assert(functions_from(repl, slot) =~= Seq::<Seq<char>>::empty() + functions_from(repl, slot));
    }
}

proof fn lemma_listed(repl: ReplModel, slot: int)
    requires
        0 <= slot,
    ensures
        forall|i: int|
            0 <= i < functions_from(repl, slot).len() ==> names_function(
                repl,
                slot,
                #[trigger] functions_from(repl, slot)[i],
            ),
    decreases repl.tables.names.len() - slot,
{
    if slot < repl.tables.names.len() {
        lemma_listed(repl, slot + 1);
        let list = functions_from(repl, slot);
        let rest = functions_from(repl, slot + 1);
        assert forall|i: int| 0 <= i < list.len() implies names_function(repl, slot, #[trigger] list[i]) by {
            let name = list[i];
            if holds_function(repl, slot) && i == 0 {
                assert(name == repl.tables.strings[repl.tables.names[slot] as int]);
            } else {
                let before = if holds_function(repl, slot) {
                    1int
                } else {
                    0
                };
                assert(name == rest[i - before]);
                assert(names_function(repl, slot + 1, rest[i - before]));
                let at = choose|at: int|
                    slot + 1 <= at < repl.tables.names.len() && holds_function(repl, at) && name
                        == repl.tables.strings[#[trigger] repl.tables.names[at] as int];
                assert(slot <= at);
            }
        }
        assert(functions_from(repl, slot) == list);
    }
}

/// A call by name reaches the slot that goes by that name and holds something.
/// Where there is none, the name is not defined.
pub proof fn law_calls_reach_the_slot_of_the_name(repl: ReplModel, name: Seq<char>)
    requires
        repl.tables.strings.len() <= u32::MAX,
        repl.tables.names.len() <= NamespaceId::MAX + 1,
    ensures
        match call_slot(repl, name, 0) {
            Ok(slot) => {
                &&& slot < repl.globals.len()
                &&& !(repl.globals[slot as int] is Undefined)
                &&& slot < repl.tables.names.len()
                &&& repl.tables.names[slot as int] < repl.tables.strings.len()
                &&& repl.tables.strings[repl.tables.names[slot as int] as int] == name
            },
            Err(error) => error == raised(ExcType::NameError, "name '"@ + name + "' is not defined"@) && (
            slot_of(repl.tables, name) matches Some(slot) ==> slot >= repl.globals.len()
                || repl.globals[slot as int] is Undefined),
        },
{
    lemma_text_place(repl.tables.strings, name);
    if let Some(id) = position_of(repl.tables.strings, name) {
        crate::name_map::lemma_first_slot(repl.tables.names, id as StringId);
    }
}

proof fn lemma_text_place(list: Seq<Seq<char>>, text: Seq<char>)
    ensures
        position_of(list, text) matches Some(i) ==> 0 <= i < list.len() && list[i] == text,
    decreases list.len(),
{
    if list.len() > 0 {
        lemma_text_place(list.drop_last(), text);
    }
}

/// Each value from outside goes into its own slot, and every other slot keeps
/// what it holds.
pub proof fn law_values_go_into_their_slots(
    globals: Seq<Value>,
    slots: Seq<NamespaceId>,
    values: Seq<Value>,
    ids: Seq<usize>,
    count: nat,
    k: int,
    other: int,
)
    requires
        count <= slots.len(),
        forall|i: int| 0 <= i < count ==> (#[trigger] slots[i]) < globals.len(),
        forall|i: int, j: int| 0 <= i < j < count ==> #[trigger] slots[i] != #[trigger] slots[j],
    ensures
        injected(globals, slots, values, ids, count).len() == globals.len(),
        0 <= k < count ==> injected(globals, slots, values, ids, count)[slots[k] as int] == values[ids[k] as int],
        0 <= other < globals.len() && (forall|i: int| 0 <= i < count ==> (#[trigger] slots[i]) as int != other)
            ==> injected(globals, slots, values, ids, count)[other] == globals[other],
    decreases count,
{
    if count > 0 {
        let less = (count - 1) as nat;
        law_values_go_into_their_slots(globals, slots, values, ids, less, k, other);
        assert(slots[less as int] < globals.len());
        if 0 <= k < less {
            assert(slots[k] != slots[less as int]);
        }
    }
}

/// Results are refused by the first call that nobody waits for. Where somebody
/// waits for each of them, none is.
pub proof fn law_unknown_calls_are_refused(pending: Seq<u32>, results: Seq<(u32, ExtFunctionResult)>, i: int)
    requires
        0 <= i <= results.len(),
    ensures
        match unknown_call(pending, results, i) {
            Some(id) => !pending.contains(id) && exists|at: int|
                i <= at < results.len() && (#[trigger] results[at]).0 == id && forall|j: int|
                    i <= j < at ==> pending.contains((#[trigger] results[j]).0),
            None => forall|j: int| i <= j < results.len() ==> pending.contains((#[trigger] results[j]).0),
        },
    decreases results.len() - i,
{
    if i < results.len() {
        law_unknown_calls_are_refused(pending, results, i + 1);
        if pending.contains(results[i].0) {
            if let Some(id) = unknown_call(pending, results, i + 1) {
                let at = choose|at: int|
                    i + 1 <= at < results.len() && (#[trigger] results[at]).0 == id && forall|j: int|
                        i + 1 <= j < at ==> pending.contains((#[trigger] results[j]).0);
                assert(i <= at < results.len() && results[at].0 == id);
            }
        } else {
            assert(results[i].0 == results[i].0);
        }
    }
}

/// Each snippet is kept under a name of its own, and the next one has the next
/// number.
pub proof fn law_snippets_are_kept(repl: ReplModel, code: Seq<char>)
    requires
        repl.next_input_id < u64::MAX,
    ensures
        fed(repl, code).next_input_id == repl.next_input_id + 1,
        fed(repl, code).sources.contains_key(input_name(repl.next_input_id)),
        fed(repl, code).sources[input_name(repl.next_input_id)] == code,
        forall|name: Seq<char>|
            name != input_name(repl.next_input_id) && repl.sources.contains_key(name)
                ==> #[trigger] fed(repl, code).sources.contains_key(name) && fed(repl, code).sources[name]
                == repl.sources[name],
{
}

} // verus!
