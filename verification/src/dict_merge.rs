//! Putting pairs of keys and values into dictionaries.

use crate::bytes::{Reply, ReplyModel};
use crate::deque::{get_known_items, known_items, not_iterable, not_iterable_error};
use crate::dict::{pairs_of, set_outcome, Dict, DictEntry, DictKind, DictModel};
use crate::dict_probe::{fresh_probe, fresh_step, holds_dict, law_found_place_has_the_hash, resume_probe, resumed_probe, resumed_step, start_probe, Probe, ProbeStep};
use crate::exceptions::{copy_error, raised, value_error, value_error_model, ErrorModel, ExcType, RunError, RunResult};
use crate::heap::{check_memory_time_every, may_stop, stopped, timed_out, VM, VmModel};
use crate::resource_checks::{limit_error, run_error, ResourceError, ResourceTracker};
use crate::text::{decimal, decimal_text};
use crate::value::Value;
use vstd::prelude::*;

verus! {

/// The answers of the host, as mathematical values.
pub open spec fn replies_model(replies: Seq<Reply>) -> Seq<ReplyModel> {
    Seq::new(replies.len(), |i: int| replies[i]@)
}

/// The values of the answers exist.
pub open spec fn holds_replies(vm: VmModel, replies: Seq<ReplyModel>) -> bool {
    forall|i: int| 0 <= i < replies.len() ==> holds_one_reply(vm, #[trigger] replies[i])
}

/// The values of an answer exist.
pub open spec fn holds_one_reply(vm: VmModel, reply: ReplyModel) -> bool {
    reply matches ReplyModel::Items(items, _) ==> vm.holds_all(items)
}

/// What unpacking items into pairs gives.
#[verifier::ext_equal]
pub enum PairsModel {
    /// The pairs, and the error behind the last of them where there is one.
    Pairs(Seq<(Value, Value)>, Option<ErrorModel>),
    /// The host has to say first which items the value yields.
    Ask(Value),
}

/// The error about an item that does not hold two values.
pub open spec fn pair_length_error(index: int, length: nat) -> ErrorModel {
    value_error_model(
        "dictionary update sequence element #"@ + decimal(index as nat) + " has length "@ + decimal(length)
            + "; 2 is required"@,
    )
}

/// What an item holds: two values, or an error, or nothing yet where the host
/// has to answer first.
pub open spec fn item_values(vm: VmModel, item: Value, replies: Seq<ReplyModel>, used: int) -> Option<
    Result<Seq<Value>, ErrorModel>,
> {
    match known_items(vm, item) {
        Some(values) => Some(Ok(values)),
        None => if !vm.iterable(item) {
            Some(Err(not_iterable_error(vm, item)))
        } else if 0 <= used < replies.len() {
            match replies[used] {
                ReplyModel::Items(values, None) => Some(Ok(values)),
                ReplyModel::Items(_, Some(error)) => Some(Err(error)),
                ReplyModel::Failed(error) => Some(Err(error)),
                _ => None,
            }
        } else {
            None
        },
    }
}

/// How many answers an item takes.
pub open spec fn replies_used(vm: VmModel, item: Value) -> int {
    if known_items(vm, item) is None && vm.iterable(item) {
        1
    } else {
        0
    }
}

/// Unpacks the items from `i` on into pairs, behind those done before. An
/// error ends them, and `failure` is what ended the items themselves.
pub open spec fn pairs_from(
    vm: VmModel,
    items: Seq<Value>,
    failure: Option<ErrorModel>,
    i: int,
    replies: Seq<ReplyModel>,
    used: int,
    done: Seq<(Value, Value)>,
) -> PairsModel
    decreases items.len() - i,
{
    if i < 0 || i >= items.len() {
        PairsModel::Pairs(done, failure)
    } else {
        match item_values(vm, items[i], replies, used) {
            None => PairsModel::Ask(items[i]),
            Some(Err(error)) => PairsModel::Pairs(done, Some(error)),
            Some(Ok(values)) => if values.len() != 2 {
                PairsModel::Pairs(done, Some(pair_length_error(i, values.len())))
            } else {
                pairs_from(
                    vm,
                    items,
                    failure,
                    i + 1,
                    replies,
                    used + replies_used(vm, items[i]),
                    done.push((values[0], values[1])),
                )
            },
        }
    }
}

/// Pairs to put into a dictionary.
pub enum Pairs {
    Pairs(Vec<(Value, Value)>, Option<RunError>),
    Ask(Value),
}

impl View for Pairs {
    type V = PairsModel;

    open spec fn view(&self) -> PairsModel {
        match *self {
            Pairs::Pairs(pairs, failure) => PairsModel::Pairs(
                pairs@,
                match failure {
                    Some(error) => Some(error@),
                    None => None,
                },
            ),
            Pairs::Ask(value) => PairsModel::Ask(value),
        }
    }
}

/// Every value of the pairs exists.
pub open spec fn holds_pairs(vm: VmModel, pairs: Seq<(Value, Value)>) -> bool {
    forall|i: int| 0 <= i < pairs.len() ==> vm.holds((#[trigger] pairs[i]).0) && vm.holds(pairs[i].1)
}

/// Reports that an item does not hold two values.
fn pair_length(index: usize, length: usize) -> (error: RunError)
    ensures
        error@ == pair_length_error(index as int, length as nat),
{
    let mut text = "dictionary update sequence element #".to_owned();
    text.append(decimal_text(index as u64).as_str());
    text.append(" has length ");
    text.append(decimal_text(length as u64).as_str());
    text.append("; 2 is required");
    value_error(text.as_str())
}

/// The error says that a limit of the run stopped it.
pub open spec fn says_stopped(tracker: ResourceTracker, error: ErrorModel) -> bool {
    exists|limit: ResourceError| #[trigger] may_stop(tracker, limit) && error == limit_error(limit)
}

/// The error says that an item of a sequence of pairs does not hold two values.
/// An item that holds more is walked over to its end, and a limit may stop the
/// way.
pub open spec fn wrong_length(tracker: ResourceTracker, error: ErrorModel, index: int, length: nat) -> bool {
    error == pair_length_error(index, length) || length > 2 && says_stopped(tracker, error)
}

/// Two values of a list, or the error about another length.
fn two_values(values: &Vec<Value>, index: usize, vm: &VM) -> (pair: RunResult<(Value, Value)>)
    ensures
        match pair {
            Ok(pair) => values@.len() == 2 && pair == (values@[0], values@[1]),
            Err(error) => values@.len() != 2 && wrong_length(vm@.tracker, error@, index as int, values@.len()),
        },
{
    if values.len() != 2 {
        let mut length: usize = 2;
        while length < values.len()
            invariant
                values@.len() != 2,
                2 <= length,
                length <= values@.len() || values@.len() < 2,
            decreases values@.len() - length,
        {
            length = length + 1;
            match check_memory_time_every(length, &vm.tracker) {
                Ok(_) => {},
                Err(limit) => {
                    let error = run_error(limit);
                    assert(may_stop(vm@.tracker, limit) && error@ == limit_error(limit));
                    return Err(error);
                },
            }
        }
        return Err(pair_length(index, values.len()));
    }
    Ok((values[0], values[1]))
}

/// Splits one item of a sequence of pairs into its key and its value.
fn unpack_update_pair(item: Value, index: usize, vm: &VM, replies: &Vec<Reply>, used: usize) -> (pair: RunResult<
    Option<(Value, Value)>,
>)
    requires
        vm@.holds(item),
        vm@.wf(),
        holds_replies(vm@, replies_model(replies@)),
    ensures
        match item_values(vm@, item, replies_model(replies@), used as int) {
            None => pair matches Ok(None),
            Some(Err(expected)) => pair matches Err(error) && error@ == expected,
            Some(Ok(values)) => if values.len() == 2 {
                pair == Ok::<Option<(Value, Value)>, RunError>(Some((values[0], values[1]))) && vm@.holds(values[0])
                    && vm@.holds(values[1])
            } else {
                pair matches Err(error) && wrong_length(vm@.tracker, error@, index as int, values.len())
            },
        },
{
    match get_known_items(vm, item) {
        Some(values) => {
            let two = two_values(values, index, vm)?;
            return Ok(Some(two));
        },
        None => {},
    }
    if !vm.py_is_iterable(item) {
        return Err(not_iterable(vm, item));
    }
    if used >= replies.len() {
        return Ok(None);
    }
    proof {
        assert(holds_one_reply(vm@, replies_model(replies@)[used as int]));
    }
    match &replies[used] {
        Reply::Items(values, failure) => match failure {
            Some(error) => Err(copy_error(error)),
            None => {
                let two = two_values(values, index, vm)?;
                Ok(Some(two))
            },
        },
        Reply::Failed(error) => Err(copy_error(error)),
        _ => Ok(None),
    }
}

/// The pairs are those of the model. Where it ends with an item that holds more
/// than two values, a limit may have stopped the way over that item.
pub open spec fn pairs_in_limits(tracker: ResourceTracker, pairs: PairsModel, model: PairsModel) -> bool {
    ||| pairs == model
    ||| pairs matches PairsModel::Pairs(list, Some(error)) && (model matches PairsModel::Pairs(expected, Some(length))
        && list == expected && is_too_long(length) && says_stopped(tracker, error))
}

/// The error says that an item holds more than two values.
pub open spec fn is_too_long(error: ErrorModel) -> bool {
    exists|index: int, length: nat| length > 2 && error == #[trigger] pair_length_error(index, length)
}

/// An error that may be there, as a mathematical value.
pub open spec fn maybe_error(failure: Option<RunError>) -> Option<ErrorModel> {
    match failure {
        Some(error) => Some(error@),
        None => None,
    }
}

/// Unpacks items into pairs.
pub fn unpack_pairs(items: &Vec<Value>, failure: Option<RunError>, vm: &VM, replies: &Vec<Reply>, first: usize) -> (
    pairs: Pairs)
    requires
        vm@.holds_all(items@),
        vm@.wf(),
        holds_replies(vm@, replies_model(replies@)),
        first <= replies@.len(),
    ensures
        pairs_in_limits(
            vm@.tracker,
            pairs@,
            pairs_from(
                vm@,
                items@,
                maybe_error(failure),
                0,
                replies_model(replies@),
                first as int,
                Seq::empty(),
            ),
        ),
        pairs matches Pairs::Pairs(list, _) ==> holds_pairs(vm@, list@),
{
    let mut done: Vec<(Value, Value)> = Vec::new();
    let mut i: usize = 0;
    let mut used: usize = first;
    let ghost failed = maybe_error(failure);
    let ghost answers = replies_model(replies@);
    let total: usize = replies.len();
    let ghost goal = pairs_from(vm@, items@, failed, 0, answers, first as int, Seq::empty());
    assert(done@ =~= Seq::<(Value, Value)>::empty());
    while i < items.len()
        invariant
            i <= items@.len(),
            used <= total == replies@.len(),
            vm@.holds_all(items@),
            vm@.wf(),
            answers == replies_model(replies@),
            holds_replies(vm@, answers),
            failed == maybe_error(failure),
            goal == pairs_from(vm@, items@, failed, 0, answers, first as int, Seq::empty()),
            goal == pairs_from(vm@, items@, failed, i as int, answers, used as int, done@),
            holds_pairs(vm@, done@),
        decreases items@.len() - i,
    {
        let item: Value = items[i];
        assert(vm@.holds(items@[i as int]));
        match unpack_update_pair(item, i, vm, replies, used) {
            Err(error) => {
                return Pairs::Pairs(done, Some(error));
            },
            Ok(None) => {
                return Pairs::Ask(item);
            },
            Ok(Some(pair)) => {
                let ghost before = done@;
                done.push(pair);
                proof {
                    assert forall|j: int| 0 <= j < done@.len() implies vm@.holds((#[trigger] done@[j]).0) && vm@.holds(
                        done@[j].1,
                    ) by {
                        if j < before.len() {
                            assert(vm@.holds(before[j].0) && vm@.holds(before[j].1));
                        }
                    }
                }
            },
        }
        if get_known_items(vm, item).is_none() && vm.py_is_iterable(item) {
            used = used + 1;
        }
        i = i + 1;
    }
    Pairs::Pairs(done, failure)
}

/// The pairs that a value gives: those of a dictionary, or those that the
/// items of another value hold.
pub open spec fn source_pairs(
    vm: VmModel,
    value: Value,
    source: Option<DictModel>,
    replies: Seq<ReplyModel>,
) -> PairsModel {
    match source {
        Some(dict) => PairsModel::Pairs(pairs_of(dict.entries), None),
        None => match known_items(vm, value) {
            Some(items) => pairs_from(vm, items, None, 0, replies, 0, Seq::empty()),
            None => if !vm.iterable(value) {
                PairsModel::Pairs(Seq::empty(), Some(not_iterable_error(vm, value)))
            } else if replies.len() == 0 {
                PairsModel::Ask(value)
            } else {
                match replies[0] {
                    ReplyModel::Items(items, failure) => pairs_from(vm, items, failure, 0, replies, 1, Seq::empty()),
                    ReplyModel::Failed(error) => PairsModel::Pairs(Seq::empty(), Some(error)),
                    _ => PairsModel::Ask(value),
                }
            },
        },
    }
}

/// The model of a dictionary that may be there.
pub open spec fn maybe_dict(dict: Option<&Dict>) -> Option<DictModel> {
    match dict {
        Some(dict) => Some(dict@),
        None => None,
    }
}

/// Gathers the pairs that a value gives. `source` is the dictionary that the
/// value is, where it is one.
pub fn pairs_of_value(value: Value, source: Option<&Dict>, vm: &VM, replies: &Vec<Reply>) -> (pairs: Pairs)
    requires
        vm@.holds(value),
        vm@.wf(),
        source matches Some(dict) ==> holds_dict(vm@, dict@),
        holds_replies(vm@, replies_model(replies@)),
    ensures
        pairs_in_limits(
            vm@.tracker,
            pairs@,
            source_pairs(vm@, value, maybe_dict(source), replies_model(replies@)),
        ),
        pairs matches Pairs::Pairs(list, _) ==> holds_pairs(vm@, list@),
{
    let ghost answers = replies_model(replies@);
    match source {
        Some(dict) => {
            let list = dict.iter();
            proof {
                assert forall|i: int| 0 <= i < list@.len() implies vm@.holds((#[trigger] list@[i]).0) && vm@.holds(
                    list@[i].1,
                ) by {
                    assert(vm@.holds(dict@.entries[i].key) && vm@.holds(dict@.entries[i].value));
                }
            }
            return Pairs::Pairs(list, None);
        },
        None => {},
    }
    match get_known_items(vm, value) {
        Some(items) => {
            return unpack_pairs(items, None, vm, replies, 0);
        },
        None => {},
    }
    if !vm.py_is_iterable(value) {
        let none: Vec<(Value, Value)> = Vec::new();
        assert(none@ =~= Seq::<(Value, Value)>::empty());
        return Pairs::Pairs(none, Some(not_iterable(vm, value)));
    }
    if replies.len() == 0 {
        return Pairs::Ask(value);
    }
    proof {
        assert(holds_one_reply(vm@, answers[0]));
    }
    match &replies[0] {
        Reply::Items(items, failure) => {
            let failed = match failure {
                Some(error) => Some(copy_error(error)),
                None => None,
            };
            unpack_pairs(items, failed, vm, replies, 1)
        },
        Reply::Failed(error) => {
            let none: Vec<(Value, Value)> = Vec::new();
            assert(none@ =~= Seq::<(Value, Value)>::empty());
            Pairs::Pairs(none, Some(copy_error(error)))
        },
        _ => Pairs::Ask(value),
    }
}

/// Pairs on their way into a dictionary, one after the other.
pub struct Merge {
    pub pairs: Vec<(Value, Value)>,
    /// The pair whose turn it is.
    pub next: usize,
    /// The lookup of its key, while the host compares.
    pub probe: Option<Probe>,
}

impl Dict {
    /// An empty dictionary, and the pairs on their way into it.
    pub fn from_pairs(pairs: Vec<(Value, Value)>) -> (started: (Dict, Merge))
        ensures
            started.0.wf(),
            started.0@.entries == Seq::<DictEntry>::empty(),
            started.0@.kind == (DictKind { special: None }),
            started.1.pairs@ == pairs@,
            started.1.next == 0,
            started.1.probe is None,
    {
        (Dict::with_capacity(pairs.len()), Merge { pairs, next: 0, probe: None })
    }
}

/// What the host has to do next.
#[derive(Clone, Copy, Debug, PartialEq, Eq, Structural)]
pub enum MergeAction {
    /// Nothing: all pairs are in.
    Done,
    /// Hash this key.
    Hash(Value),
    /// Say whether the first, a key of the dictionary, equals the second.
    Compare(Value, Value),
}

impl Merge {
    /// The turn is that of a pair, and a lookup is that of its key.
    pub open spec fn wf(self, vm: VmModel) -> bool {
        &&& self.next <= self.pairs@.len()
        &&& holds_pairs(vm, self.pairs@)
        &&& self.probe matches Some(probe) ==> self.next < self.pairs@.len() && probe.wf() && probe.held_by(vm)
            && probe.key == self.pairs@[self.next as int].0
    }

    /// Pairs of which none is in yet.
    pub fn new(pairs: Vec<(Value, Value)>) -> (merge: Merge)
        ensures
            merge.pairs@ == pairs@,
            merge.next == 0,
            merge.probe is None,
            forall|vm: VmModel| #[trigger] holds_pairs(vm, pairs@) ==> merge.wf(vm),
    {
        Merge { pairs, next: 0, probe: None }
    }
}

/// What is to be done when a pair's turn comes.
pub open spec fn turn_action(pairs: Seq<(Value, Value)>, next: int) -> MergeAction {
    if next >= pairs.len() {
        MergeAction::Done
    } else {
        MergeAction::Hash(pairs[next].0)
    }
}

/// Says what is to be done for the pair whose turn it is.
pub fn merge_turn(merge: &Merge) -> (action: MergeAction)
    ensures
        action == turn_action(merge.pairs@, merge.next as int),
{
    if merge.next >= merge.pairs.len() {
        MergeAction::Done
    } else {
        MergeAction::Hash(merge.pairs[merge.next].0)
    }
}

/// The place that a lookup that is over gives.
pub open spec fn step_place(step: ProbeStep) -> Option<usize> {
    match step {
        ProbeStep::Found(place) => Some(place),
        _ => None,
    }
}

/// What the end of a lookup does: the pair goes into the dictionary and the
/// next has its turn, or the memory limit refuses it.
pub open spec fn pair_goes_in(
    vm: VmModel,
    before: DictModel,
    after: DictModel,
    merge: Merge,
    rest: Merge,
    hash: u64,
    step: ProbeStep,
    result: RunResult<MergeAction>,
) -> bool {
    let (key, value) = merge.pairs@[merge.next as int];
    let entry = DictEntry { key, value, hash };
    &&& !(step is Compare)
    &&& rest.pairs@ == merge.pairs@
    &&& rest.probe is None
    &&& match result {
        Ok(action) => {
            &&& after == before.with_entry(entry, step_place(step))
            &&& rest.next == merge.next + 1
            &&& action == turn_action(merge.pairs@, rest.next as int)
        },
        Err(error) => {
            &&& set_outcome(
                before,
                after,
                entry,
                step_place(step),
                Some(vm.tracker),
                Err::<Option<Value>, RunError>(error),
            )
            &&& rest.next == merge.next
        },
    }
}

/// A lookup that goes on: the dictionary stays and the host compares.
pub open spec fn pair_waits(
    before: DictModel,
    after: DictModel,
    merge: Merge,
    rest: Merge,
    stored: Value,
    result: RunResult<MergeAction>,
) -> bool {
    &&& after == before
    &&& rest.pairs@ == merge.pairs@
    &&& rest.next == merge.next
    &&& rest.probe is Some
    &&& result == Ok::<MergeAction, RunError>(MergeAction::Compare(stored, merge.pairs@[merge.next as int].0))
}

/// Puts the pair in, or waits, as a lookup says.
fn take_step(merge: Merge, dict: &mut Dict, hash: u64, step: ProbeStep, probe: Option<Probe>, vm: &VM) -> (taken: (
    RunResult<MergeAction>,
    Merge,
))
    requires
        old(dict).wf(),
        holds_dict(vm@, old(dict)@),
        merge.next < merge.pairs@.len(),
        merge.probe is None,
        merge.wf(vm@),
        step matches ProbeStep::Found(place) ==> place < old(dict)@.entries.len() && old(dict)@.entries[place as int].hash
            == hash,
        step is Compare ==> (probe matches Some(probe) && probe.wf() && probe.held_by(vm@) && probe.key
            == merge.pairs@[merge.next as int].0),
    ensures
        final(dict).wf(),
        holds_dict(vm@, final(dict)@),
        taken.1.wf(vm@),
        match step {
            ProbeStep::Compare(stored) => pair_waits(old(dict)@, final(dict)@, merge, taken.1, stored, taken.0)
                && taken.1.probe == probe,
            _ => pair_goes_in(vm@, old(dict)@, final(dict)@, merge, taken.1, hash, step, taken.0),
        },
{
    let (key, value) = merge.pairs[merge.next];
    let ghost before = dict@;
    let place: Option<usize> = match step {
        ProbeStep::Compare(stored) => {
            let action = MergeAction::Compare(stored, key);
            return (Ok(action), Merge { pairs: merge.pairs, next: merge.next, probe });
        },
        ProbeStep::Found(place) => Some(place),
        ProbeStep::Missing => None,
    };
    let entry = DictEntry { key, value, hash };
    let result = dict.set(entry, place, &vm.tracker);
    proof {
        assert(vm@.holds(merge.pairs@[merge.next as int].0) && vm@.holds(merge.pairs@[merge.next as int].1));
        assert(holds_dict(vm@, dict@)) by {
            assert forall|i: int| 0 <= i < dict@.entries.len() implies vm@.holds((#[trigger] dict@.entries[i]).key)
                && vm@.holds(dict@.entries[i].value) by {
                if i < before.entries.len() {
                    assert(vm@.holds(before.entries[i].key) && vm@.holds(before.entries[i].value));
                }
            }
        }
    }
    match result {
        Ok(_) => {
            let count: usize = merge.pairs.len();
            assert(merge.next < count);
            let rest = Merge { pairs: merge.pairs, next: merge.next + 1, probe: None };
            (Ok(merge_turn(&rest)), rest)
        },
        Err(error) => (Err(error), Merge { pairs: merge.pairs, next: merge.next, probe: None }),
    }
}

/// What a merge does once the host has hashed the key.
pub open spec fn hashed_effect(
    vm: VmModel,
    before: DictModel,
    after: DictModel,
    merge: Merge,
    rest: Merge,
    hash: u64,
    step: ProbeStep,
    result: RunResult<MergeAction>,
) -> bool {
    let key = merge.pairs@[merge.next as int].0;
    &&& fresh_step(vm, before, key, hash, step)
    &&& match step {
        ProbeStep::Compare(stored) => pair_waits(before, after, merge, rest, stored, result) && fresh_probe(
            before,
            key,
            hash,
            stored,
            rest.probe->Some_0,
        ),
        _ => pair_goes_in(vm, before, after, merge, rest, hash, step, result),
    }
}

/// Goes on once the host has hashed the key.
pub fn merge_hashed(merge: Merge, dict: &mut Dict, hash: u64, vm: &VM) -> (merged: (RunResult<MergeAction>, Merge))
    requires
        old(dict).wf(),
        holds_dict(vm@, old(dict)@),
        merge.wf(vm@),
        merge.next < merge.pairs@.len(),
        merge.probe is None,
    ensures
        final(dict).wf(),
        holds_dict(vm@, final(dict)@),
        merged.1.wf(vm@),
        exists|step: ProbeStep| #[trigger]
            hashed_effect(vm@, old(dict)@, final(dict)@, merge, merged.1, hash, step, merged.0),
{
    let ghost before = dict@;
    let key: Value = merge.pairs[merge.next].0;
    assert(vm@.holds(merge.pairs@[merge.next as int].0));
    let (step, probe) = start_probe(&*dict, key, hash, vm);
    let taken = take_step(merge, dict, hash, step, probe, vm);
    proof {
        assert(hashed_effect(vm@, before, dict@, merge, taken.1, hash, step, taken.0));
    }
    taken
}

/// What a merge does once the host has compared two keys.
pub open spec fn compared_effect(
    vm: VmModel,
    before: DictModel,
    after: DictModel,
    merge: Merge,
    rest: Merge,
    equal: bool,
    step: ProbeStep,
    result: RunResult<MergeAction>,
) -> bool {
    let probe = merge.probe->Some_0;
    &&& resumed_step(vm, before, probe, equal, step)
    &&& match step {
        ProbeStep::Compare(stored) => pair_waits(before, after, merge, rest, stored, result) && resumed_probe(
            before,
            probe,
            stored,
            rest.probe->Some_0,
        ),
        _ => pair_goes_in(vm, before, after, merge, rest, probe.hash, step, result),
    }
}

/// Goes on once the host has compared two keys. A limit may stop the run.
pub fn merge_compared(merge: Merge, dict: &mut Dict, equal: bool, vm: &VM) -> (merged: (
    RunResult<MergeAction>,
    Option<Merge>,
))
    requires
        old(dict).wf(),
        holds_dict(vm@, old(dict)@),
        merge.wf(vm@),
        merge.probe is Some,
    ensures
        final(dict).wf(),
        holds_dict(vm@, final(dict)@),
        match merged.1 {
            Some(rest) => rest.wf(vm@) && exists|step: ProbeStep| #[trigger]
                compared_effect(vm@, old(dict)@, final(dict)@, merge, rest, equal, step, merged.0),
            None => final(dict)@ == old(dict)@ && stopped(vm@.tracker, merged.0),
        },
{
    let ghost before = dict@;
    let ghost whole = merge;
    let Merge { pairs, next, probe } = merge;
    let probe = match probe {
        Some(probe) => probe,
        None => {
            assert(false);
            return (Ok(MergeAction::Done), None);
        },
    };
    let hash: u64 = probe.hash;
    let (step, next_probe) = match resume_probe(probe, &*dict, equal, vm) {
        Ok(resumed) => resumed,
        Err(error) => {
            proof {
                let resumed = Err::<(ProbeStep, Option<Probe>), RunError>(error);
                let ended = Err::<MergeAction, RunError>(error);
                assert(timed_out(vm@.tracker, resumed) ==> timed_out(vm@.tracker, ended));
            }
            return (Err(error), None);
        },
    };
    let start = Merge { pairs, next, probe: None };
    proof {
        match step {
            ProbeStep::Found(place) => {
                law_found_place_has_the_hash(vm@, before, probe, equal, place);
            },
            _ => {},
        }
    }
    let (result, rest) = take_step(start, dict, hash, step, next_probe, vm);
    proof {
        assert(compared_effect(vm@, before, dict@, whole, rest, equal, step, result));
        assert(whole == merge);
        assert(before == old(dict)@);
    }
    let merged = (result, Some(rest));
    proof {
        assert(compared_effect(vm@, old(dict)@, dict@, merge, merged.1->Some_0, equal, step, merged.0));
    }
    merged
}

/// The error about a key that cannot be hashed.
pub open spec fn unhashable_error(vm: VmModel, key: Value) -> ErrorModel {
    raised(
        ExcType::TypeError,
        "cannot use '"@ + vm.name_of_type(key) + "' as a dict key (unhashable type: '"@ + vm.name_of_type(key) + "')"@,
    )
}

/// Reports that a key cannot be hashed.
pub fn type_error_unhashable(key: Value, vm: &VM) -> (error: RunError)
    requires
        vm@.holds(key),
    ensures
        error@ == unhashable_error(vm@, key),
{
    crate::exceptions::raise5(
        ExcType::TypeError,
        "cannot use '",
        vm.py_type_name(key),
        "' as a dict key (unhashable type: '",
        vm.py_type_name(key),
        "')",
    )
}

} // verus!
