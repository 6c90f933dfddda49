//! Operators on dictionaries, and their texts.

use crate::args::{holds_args, ArgValues, ArgsModel};
use crate::ast::CmpOperator;
use crate::bytes::Reply;
use crate::dict::{
    factory_of, factory_ref, kind_name_of, pairs_of, refuses_memory, Dict, DictEntry, DictKind, DictModel,
    DictSpecial,
};
use crate::dict_call::{
    call_dict_method, dict_effect, dict_method_called, dict_update, find_dict_method, is_insertion, looked_up,
    lookup_fits, makes_dict, no_method, takes_names, update_model, updates_in_limits, with_names, DictMade, DictMadeModel, DictMethod,
    Lookup,
};
use crate::dict_iter::{changed_size_error, DictIter};
use crate::dict_merge::{holds_replies, maybe_dict, replies_model};
use crate::dict_probe::holds_dict;
use crate::equality::{answers_used, equality_or_next, probe_native_eq};
use crate::exceptions::{raise, raise5, raised, type_error, type_error_model, ErrorModel, ExcType, RunError, RunResult};
use crate::heap::{check_time_every, timed_out, HeapRead, VM, VmModel};
use crate::resource_checks::{
    capped_product, limit_error, may_time_out, memory_excess, run_error, saturating_product, ResourceError, ResourceTracker,
};
use crate::text::same_text;
use crate::value::Value;
use vstd::prelude::*;

verus! {

/// The error about an attribute that a dictionary does not have.
pub open spec fn no_attribute(kind: DictKind, name: Seq<char>) -> ErrorModel {
    raised(ExcType::AttributeError, "'"@ + kind_name_of(kind) + "' object has no attribute '"@ + name + "'"@)
}

/// The dictionary counts.
pub open spec fn counts_keys(dict: DictModel) -> bool {
    dict.kind.special == Some(DictSpecial::Counter)
}

impl HeapRead<Dict> {
    /// Calls a method by its name. `source` is the dictionary that the
    /// argument of `update` is, where it is one.
    pub fn py_call_attr(
        &mut self,
        name: &str,
        args: &ArgValues,
        lookup: Option<Lookup>,
        source: Option<&Dict>,
        vm: &mut VM,
        replies: &Vec<Reply>,
    ) -> (result: RunResult<DictMade>)
        requires
            old(self).item.wf(),
            holds_args(old(vm)@, args@),
            old(vm)@.wf(),
            holds_replies(old(vm)@, replies_model(replies@)),
            lookup matches Some(found) ==> lookup_fits(old(self).item@, found),
            source matches Some(dict) ==> holds_dict(old(vm)@, dict@),
        ensures
            final(self).item.wf(),
            match dict_method_called(name@) {
                None => final(self).item@ == old(self).item@ && final(vm)@ == old(vm)@ && (result matches Err(error)
                    && error@ == no_attribute(old(self).item@.kind, name@)),
                Some(method) => if no_method(old(self).item@, method) {
                    final(self).item@ == old(self).item@ && final(vm)@ == old(vm)@ && (result matches Err(error)
                        && error@ == no_attribute(old(self).item@.kind, name@))
                } else if method is Update && !counts_keys(old(self).item@) {
                    &&& final(self).item@ == old(self).item@
                    &&& updates_in_limits(
                        old(vm)@.tracker,
                        result,
                        update_model(
                            old(vm)@,
                            true,
                            args@,
                            maybe_dict(source),
                            replies_model(replies@),
                            old(vm)@.heap.len() as int,
                        ),
                    )
                    &&& final(vm)@ == if takes_names(result) {
                        with_names(old(vm)@, args@.keywords)
                    } else {
                        old(vm)@
                    }
                } else {
                    let effect = dict_effect(
                        old(vm)@,
                        old(self).item@,
                        method,
                        args@,
                        lookup,
                        replies_model(replies@),
                    );
                    &&& final(vm)@ == old(vm)@
                    &&& {
                        ||| final(self).item@ == effect.0 && makes_dict(result, effect.1)
                        ||| is_insertion(old(self).item@, method, args@, lookup) && (result matches Err(error)
                            && refuses_memory(old(vm)@.tracker, old(self).item@.entries.len() as int, error)) && final(self).item@.entries
                            == old(self).item@.entries && final(self).item@.kind == old(self).item@.kind
                    }
                },
            },
    {
        let method = match find_dict_method(name) {
            Some(method) => method,
            None => return Err(attribute_error(&self.item, name)),
        };
        let counter: bool = self.item.is_counter();
        let missing: bool = match method {
            DictMethod::MostCommon | DictMethod::Elements | DictMethod::Total | DictMethod::Subtract => !counter,
            DictMethod::Missing => !self.item.is_defaultdict(),
            _ => false,
        };
        if missing {
            return Err(attribute_error(&self.item, name));
        }
        match method {
            DictMethod::Update => {
                if !counter {
                    return dict_update(true, args, source, vm, replies);
                }
            },
            _ => {},
        }
        call_dict_method(self, method, args, lookup, &*vm, replies)
    }

    /// `dict[key]`. A missing key counts nothing where the dictionary counts.
    pub fn py_getitem(&self, key: Value, lookup: Lookup) -> (made: DictMade)
        requires
            lookup_fits(self.item@, lookup),
        ensures
            made@ == match looked_up(self.item@, lookup) {
                Some(value) => DictMadeModel::Plain(value),
                None => if counts_keys(self.item@) {
                    DictMadeModel::Plain(Value::Int(0))
                } else {
                    DictMadeModel::MissingKey(key)
                },
            },
    {
        match lookup.place {
            Some(i) => DictMade::Plain(self.item.entries[i].value),
            None => {
                if self.item.is_counter() {
                    DictMade::Plain(Value::Int(0))
                } else {
                    DictMade::MissingKey(key)
                }
            },
        }
    }

    /// `dict[key] = value`.
    pub fn py_setitem(&mut self, key: Value, value: Value, lookup: Lookup, vm: &VM) -> (result: RunResult<()>)
        requires
            old(self).item.wf(),
            lookup_fits(old(self).item@, lookup),
        ensures
            final(self).item.wf(),
            match result {
                Ok(_) => final(self).item@ == old(self).item@.with_entry(
                    DictEntry { key, value, hash: lookup.hash },
                    lookup.place,
                ),
                Err(error) => lookup.place is None && refuses_memory(vm@.tracker, old(self).item@.entries.len() as int, error) && final(self).item@.entries
                    == old(self).item@.entries && final(self).item@.kind == old(self).item@.kind,
            },
    {
        match self.set(DictEntry { key, value, hash: lookup.hash }, lookup.place, &vm.tracker) {
            Ok(_) => Ok(()),
            Err(error) => Err(error),
        }
    }

    /// `del dict[key]`. A missing key is an error for every kind.
    pub fn py_delitem(&mut self, key: Value, lookup: Lookup) -> (made: DictMade)
        requires
            old(self).item.wf(),
            lookup_fits(old(self).item@, lookup),
        ensures
            final(self).item.wf(),
            match lookup.place {
                Some(i) => made@ == DictMadeModel::Plain(Value::NoneValue) && final(self).item@
                    == old(self).item@.without(i as int),
                None => made@ == DictMadeModel::MissingKey(key) && final(self).item@ == old(self).item@,
            },
    {
        match self.pop(lookup.place) {
            Some(_) => DictMade::Plain(Value::NoneValue),
            None => DictMade::MissingKey(key),
        }
    }

    /// `key in dict`.
    pub fn contains_key(&self, lookup: Lookup) -> (found: bool)
        ensures
            found == (lookup.place is Some),
    {
        lookup.place.is_some()
    }

    /// The one attribute that can be read: the factory.
    pub fn py_getattr(&self, name: &str) -> (value: Option<Value>)
        ensures
            value == if has_factory_slot(self.item@) && name@ == "default_factory"@ {
                Some(
                    match factory_of(self.item@.kind) {
                        Some(factory) => factory,
                        None => Value::NoneValue,
                    },
                )
            } else {
                None
            },
    {
        if self.item.is_defaultdict() && same_text(name, "default_factory") {
            match self.item.default_factory() {
                Some(factory) => Some(factory),
                None => Some(Value::NoneValue),
            }
        } else {
            None
        }
    }

    /// Sets the one attribute that can be set: the factory, to any value.
    pub fn py_set_attr(&mut self, name: &str, value: Value) -> (done: RunResult<()>)
        requires
            old(self).item.wf(),
        ensures
            final(self).item.wf(),
            if has_factory_slot(old(self).item@) && name@ == "default_factory"@ {
                let factory = if value is NoneValue {
                    None
                } else {
                    Some(value)
                };
                done is Ok && final(self).item@ == (DictModel {
                    contains_refs: old(self).item@.contains_refs || value is Ref,
                    kind: DictKind { special: Some(DictSpecial::Default(factory)) },
                    ..old(self).item@
                })
            } else {
                final(self).item@ == old(self).item@ && (done matches Err(error) && error@ == raised(
                    ExcType::AttributeError,
                    "'"@ + kind_name_of(old(self).item@.kind) + "' object has no attribute '"@ + name@
                        + "' and no __dict__ for setting new attributes"@,
                ))
            },
    {
        if self.item.is_defaultdict() && same_text(name, "default_factory") {
            let factory = match value {
                Value::NoneValue => None,
                _ => Some(value),
            };
            let _before = self.item.replace_default_factory(factory);
            Ok(())
        } else {
            Err(
                raise5(
                    ExcType::AttributeError,
                    "'",
                    self.item.kind_name(),
                    "' object has no attribute '",
                    name,
                    "' and no __dict__ for setting new attributes",
                ),
            )
        }
    }

    /// An empty dictionary of the same kind.
    pub fn empty_like(&self) -> (dict: Dict)
        ensures
            dict.wf(),
            dict@.entries == Seq::<DictEntry>::empty(),
            dict@.kind == self.item@.kind,
            dict@.contains_refs == factory_ref(self.item@.kind),
    {
        let mut dict = Dict::new();
        dict.set_kind(self.item.cloned_kind());
        dict
    }

    /// An empty dictionary with a copy of the factory, which must be callable
    /// or nothing. `copied` is that copy and whether it can be called.
    pub fn empty_deep_copy(&self, copied: Option<(Value, bool)>) -> (dict: RunResult<Dict>)
        requires
            copied is Some == (factory_of(self.item@.kind) is Some),
        ensures
            match copied {
                None => dict matches Ok(dict) && dict.wf() && dict@.entries == Seq::<DictEntry>::empty() && dict@.kind
                    == self.item@.kind,
                Some((factory, callable)) => if factory is NoneValue {
                    dict matches Ok(dict) && dict.wf() && dict@.entries == Seq::<DictEntry>::empty() && dict@.kind == (
                    DictKind { special: Some(DictSpecial::Default(None)) })
                } else if callable {
                    dict matches Ok(dict) && dict.wf() && dict@.entries == Seq::<DictEntry>::empty() && dict@.kind == (
                    DictKind { special: Some(DictSpecial::Default(Some(factory))) })
                } else {
                    dict matches Err(error) && error@ == type_error_model(
                        "first argument must be callable or None"@,
                    )
                },
            },
    {
        match copied {
            None => Ok(self.empty_like()),
            Some((factory, callable)) => {
                let chosen = match factory {
                    Value::NoneValue => None,
                    _ => {
                        if !callable {
                            return Err(type_error("first argument must be callable or None"));
                        }
                        Some(factory)
                    },
                };
                let mut dict = Dict::new();
                dict.set_kind(DictKind::defaultdict(chosen));
                Ok(dict)
            },
        }
    }

    /// The pairs of the left side that `left | right` starts with. The memory
    /// that they and the new dictionary take is held against the limit before.
    pub fn or_pairs(&self, tracker: &ResourceTracker) -> (pairs: RunResult<Vec<(Value, Value)>>)
        ensures
            match memory_excess(*tracker, bytes_for(self.item@.entries.len() as int, COPY_SIZE)) {
                Some(limit) => pairs matches Err(error) && error@ == limit_error(limit),
                None => match memory_excess(*tracker, bytes_for(self.item@.entries.len() as int, PAIR_SIZE)) {
                    Some(limit) => pairs matches Err(error) && error@ == limit_error(limit),
                    None => timed_out(*tracker, pairs) || (pairs matches Ok(pairs) && pairs@ == pairs_of(
                        self.item@.entries,
                    )),
                },
            },
    {
        check_copy(self.item.entries.len(), COPY_SIZE, tracker)?;
        self.clone_all_pairs(tracker)
    }

    /// The pairs that go into a new dictionary from this one, all at once. The
    /// memory that they take is held against the limit before.
    pub fn pair_snapshot(&self, tracker: &ResourceTracker) -> (pairs: RunResult<Vec<(Value, Value)>>)
        ensures
            match memory_excess(*tracker, bytes_for(self.item@.entries.len() as int, PAIR_SIZE)) {
                Some(limit) => pairs matches Err(error) && error@ == limit_error(limit),
                None => pairs matches Ok(pairs) && pairs@ == pairs_of(self.item@.entries),
            },
    {
        check_copy(self.item.entries.len(), PAIR_SIZE, tracker)?;
        Ok(self.item.iter())
    }

    /// The kind of `left | right`: that of the side that can have a factory,
    /// the left one first, or else plain.
    pub fn or_kind(&self, right: &HeapRead<Dict>) -> (kind: DictKind)
        ensures
            kind == union_kind(self.item@.kind, right.item@.kind),
    {
        if self.item.is_defaultdict() {
            self.item.cloned_kind()
        } else if right.item.is_defaultdict() {
            right.item.cloned_kind()
        } else {
            DictKind::plain()
        }
    }

    /// A walk that copies the entries one by one. The memory that they take is
    /// held against the limit before.
    pub fn deep_copy_walk(&self, tracker: &ResourceTracker) -> (walk: RunResult<DictIter>)
        ensures
            match memory_excess(*tracker, bytes_for(self.item@.entries.len() as int, PAIR_SIZE)) {
                Some(limit) => walk matches Err(error) && error@ == limit_error(limit),
                None => walk matches Ok(walk) && walk == (DictIter {
                    index: 0,
                    expected_len: self.item@.entries.len() as usize,
                }),
            },
    {
        check_copy(self.item.entries.len(), PAIR_SIZE, tracker)?;
        Ok(DictIter::new(&self.item))
    }

    /// The pairs of a dictionary that counts, to be shown by their counts. The
    /// memory that they and the counts take is held against the limit.
    pub fn counter_pairs(&self, tracker: &ResourceTracker) -> (pairs: RunResult<Vec<(Value, Value)>>)
        ensures
            match memory_excess(*tracker, bytes_for(self.item@.entries.len() as int, PAIR_SIZE)) {
                Some(limit) => pairs matches Err(error) && error@ == limit_error(limit),
                None => timed_out(*tracker, pairs) || match memory_excess(
                    *tracker,
                    bytes_for(self.item@.entries.len() as int, COUNT_SIZE),
                ) {
                    Some(limit) => pairs matches Err(error) && error@ == limit_error(limit),
                    None => pairs matches Ok(pairs) && pairs@ == pairs_of(self.item@.entries),
                },
            },
    {
        let pairs = self.clone_all_pairs(tracker)?;
        check_copy(self.item.entries.len(), COUNT_SIZE, tracker)?;
        Ok(pairs)
    }

    /// The pairs of the dictionary, copied. The memory that they take is held
    /// against the limit before, and the time while they are copied.
    pub fn clone_all_pairs(&self, tracker: &ResourceTracker) -> (pairs: RunResult<Vec<(Value, Value)>>)
        ensures
            match memory_excess(*tracker, bytes_for(self.item@.entries.len() as int, PAIR_SIZE)) {
                Some(limit) => pairs matches Err(error) && error@ == limit_error(limit),
                None => timed_out(*tracker, pairs) || (pairs matches Ok(pairs) && pairs@ == pairs_of(
                    self.item@.entries,
                )),
            },
    {
        check_copy(self.item.entries.len(), PAIR_SIZE, tracker)?;
        let mut pairs: Vec<(Value, Value)> = Vec::new();
        let mut i: usize = 0;
        while i < self.item.entries.len()
            invariant
                i <= self.item.entries@.len(),
                memory_excess(*tracker, bytes_for(self.item@.entries.len() as int, PAIR_SIZE)) is None,
                pairs@.len() == i,
                forall|k: int| 0 <= k < i ==> #[trigger] pairs@[k] == pairs_of(self.item@.entries)[k],
            decreases self.item.entries@.len() - i,
        {
            if let Err(limit) = check_time_every(i, tracker) {
                let failed: RunResult<Vec<(Value, Value)>> = Err(run_error(limit));
                assert(may_time_out(*tracker, limit));
                return failed;
            }
            pairs.push((self.item.entries[i].key, self.item.entries[i].value));
            i = i + 1;
        }
        assert(pairs@ =~= pairs_of(self.item@.entries));
        Ok(pairs)
    }
}

/// How many bytes an entry takes while `|` copies it.
pub const COPY_SIZE: usize = 80;

/// How many bytes a copied pair takes.
pub const PAIR_SIZE: usize = 32;

/// How many bytes a count takes while a dictionary is shown by its counts.
pub const COUNT_SIZE: usize = 24;

/// The bytes that so many items take, as far as they can be counted.
pub open spec fn bytes_for(count: int, size: usize) -> usize {
    capped_product(count, size as int, usize::MAX as int) as usize
}

/// Refuses a copy that would pass the memory limit.
fn check_copy(count: usize, size: usize, tracker: &ResourceTracker) -> (allowed: RunResult<()>)
    ensures
        match memory_excess(*tracker, bytes_for(count as int, size)) {
            Some(limit) => allowed matches Err(error) && error@ == limit_error(limit),
            None => allowed is Ok,
        },
{
    match tracker.check_large_result(saturating_product(count, size)) {
        Ok(_) => Ok(()),
        Err(limit) => Err(run_error(limit)),
    }
}

impl Dict {
    /// Gathers the pairs that a new dictionary is made of. `source` is the
    /// dictionary that the argument is, where it is one; the memory that its
    /// pairs take is held against the limit before.
    pub fn init(args: &ArgValues, source: Option<&Dict>, vm: &mut VM, replies: &Vec<Reply>) -> (result: RunResult<
        DictMade,
    >)
        requires
            holds_args(old(vm)@, args@),
            old(vm)@.wf(),
            source matches Some(dict) ==> holds_dict(old(vm)@, dict@),
            holds_replies(old(vm)@, replies_model(replies@)),
        ensures
            if let Some(limit) = init_refused(old(vm)@, args@, maybe_dict(source)) {
                final(vm)@ == old(vm)@ && (result matches Err(error) && error@ == limit_error(limit))
            } else {
                &&& updates_in_limits(
                    old(vm)@.tracker,
                    result,
                    update_model(
                        old(vm)@,
                        false,
                        args@,
                        maybe_dict(source),
                        replies_model(replies@),
                        old(vm)@.heap.len() as int,
                    ),
                )
                &&& final(vm)@ == if takes_names(result) {
                    with_names(old(vm)@, args@.keywords)
                } else {
                    old(vm)@
                }
            },
    {
        if args.positional.len() == 1 {
            if let Some(dict) = source {
                check_copy(dict.entries.len(), PAIR_SIZE, &vm.tracker)?;
            }
        }
        dict_update(false, args, source, vm, replies)
    }
}

/// The limit that refuses the pairs of a dictionary that a new one is made of.
pub open spec fn init_refused(vm: VmModel, args: ArgsModel, source: Option<DictModel>) -> Option<ResourceError> {
    match source {
        Some(dict) if args.positional.len() == 1 => memory_excess(
            vm.tracker,
            bytes_for(dict.entries.len() as int, PAIR_SIZE),
        ),
        _ => None,
    }
}

/// The kind of `left | right`.
pub open spec fn union_kind(left: DictKind, right: DictKind) -> DictKind {
    if left.special matches Some(DictSpecial::Default(_)) {
        left
    } else if right.special matches Some(DictSpecial::Default(_)) {
        right
    } else {
        DictKind { special: None }
    }
}

/// The dictionary can have a factory.
pub open spec fn has_factory_slot(dict: DictModel) -> bool {
    dict.kind.special matches Some(DictSpecial::Default(_))
}

/// Reports that a dictionary does not have an attribute.
fn attribute_error(dict: &Dict, name: &str) -> (error: RunError)
    ensures
        error@ == no_attribute(dict@.kind, name@),
{
    raise5(ExcType::AttributeError, "'", dict.kind_name(), "' object has no attribute '", name, "'")
}

/// What a comparison of two dictionaries gives.
#[derive(Clone, Copy, Debug, PartialEq, Eq, Structural)]
pub enum DictEq {
    Equal,
    Different,
    /// This key has to be looked up in the other dictionary first.
    Lookup(Value),
    /// The host has to compare these two first.
    Compare(Value, Value),
}

/// Compares the entries from `i` on with those that the other dictionary has
/// for their keys. `places` is where those stand. What is not there is equal
/// to nothing, or to zero where `zero` says so.
pub open spec fn entries_equal_from(
    vm: VmModel,
    left: Seq<DictEntry>,
    right: Seq<DictEntry>,
    places: Seq<Option<usize>>,
    zero: bool,
    answers: Seq<bool>,
    i: int,
    used: int,
) -> DictEq
    decreases left.len() - i,
{
    if i < 0 || i >= left.len() {
        DictEq::Equal
    } else if i >= places.len() {
        DictEq::Lookup(left[i].key)
    } else {
        let other = match places[i] {
            Some(p) => Some(right[p as int].value),
            None => if zero {
                Some(Value::Int(0))
            } else {
                None
            },
        };
        match other {
            None => DictEq::Different,
            Some(other) => match equality_or_next(vm, left[i].value, other, answers, used) {
                None => DictEq::Compare(left[i].value, other),
                Some(false) => DictEq::Different,
                Some(true) => entries_equal_from(
                    vm,
                    left,
                    right,
                    places,
                    zero,
                    answers,
                    i + 1,
                    used + answers_used(vm, left[i].value, other),
                ),
            },
        }
    }
}

/// The places are those of entries.
pub open spec fn places_fit(places: Seq<Option<usize>>, entries: Seq<DictEntry>) -> bool {
    forall|i: int| 0 <= i < places.len() ==> (#[trigger] places[i] matches Some(p) ==> p < entries.len())
}

/// The comparison is what the model gives, unless its time ran out.
pub open spec fn compares(tracker: ResourceTracker, result: RunResult<DictEq>, model: Result<DictEq, ErrorModel>) -> bool {
    match (result, model) {
        (Ok(equal), Ok(expected)) => equal == expected,
        (Err(error), Err(expected)) => error@ == expected || timed_out(tracker, result),
        (Err(_), Ok(_)) => timed_out(tracker, result),
        _ => false,
    }
}

/// Looks at the clock on the way of a comparison.
fn compare_in_time(step: usize, vm: &VM) -> (allowed: RunResult<()>)
    ensures
        allowed matches Err(error) ==> timed_out(vm@.tracker, Err::<DictEq, RunError>(error)),
{
    match check_time_every(step, &vm.tracker) {
        Ok(_) => Ok(()),
        Err(limit) => {
            let error = run_error(limit);
            assert(may_time_out(vm@.tracker, limit) && error@ == limit_error(limit));
            Err(error)
        },
    }
}

/// Compares the entries of one dictionary with those of another.
fn compare_entries(
    left: &Vec<DictEntry>,
    right: &Vec<DictEntry>,
    places: &Vec<Option<usize>>,
    zero: bool,
    answers: &Vec<bool>,
    vm: &VM,
) -> (equal: RunResult<DictEq>)
    requires
        places_fit(places@, right@),
        forall|i: int| 0 <= i < left@.len() ==> vm@.holds((#[trigger] left@[i]).value),
        forall|i: int| 0 <= i < right@.len() ==> vm@.holds((#[trigger] right@[i]).value),
    ensures
        compares(
            vm@.tracker,
            equal,
            Ok(entries_equal_from(vm@, left@, right@, places@, zero, answers@, 0, 0)),
        ),
{
    let mut i: usize = 0;
    let mut used: usize = 0;
    while i < left.len()
        invariant
            i <= left@.len(),
            used <= answers@.len(),
            places_fit(places@, right@),
            forall|i: int| 0 <= i < left@.len() ==> vm@.holds((#[trigger] left@[i]).value),
            forall|i: int| 0 <= i < right@.len() ==> vm@.holds((#[trigger] right@[i]).value),
            entries_equal_from(vm@, left@, right@, places@, zero, answers@, i as int, used as int)
                == entries_equal_from(vm@, left@, right@, places@, zero, answers@, 0, 0),
        decreases left@.len() - i,
    {
        compare_in_time(i, vm)?;
        if i >= places.len() {
            return Ok(DictEq::Lookup(left[i].key));
        }
        let value: Value = left[i].value;
        assert(vm@.holds(left@[i as int].value));
        let other: Value = match places[i] {
            Some(p) => {
                assert(places@[i as int] == Some(p));
                assert(vm@.holds(right@[p as int].value));
                right[p].value
            },
            None => {
                if !zero {
                    return Ok(DictEq::Different);
                }
                Value::Int(0)
            },
        };
        let equal: bool = match probe_native_eq(value, other, vm) {
            Some(equal) => equal,
            None => {
                if used >= answers.len() {
                    return Ok(DictEq::Compare(value, other));
                }
                used = used + 1;
                answers[used - 1]
            },
        };
        if !equal {
            return Ok(DictEq::Different);
        }
        i = i + 1;
    }
    compare_in_time(i, vm)?;
    Ok(DictEq::Equal)
}

/// The dictionary has another length than it had when a walk over it started.
pub open spec fn changed_since(dict: DictModel, started: Option<usize>) -> bool {
    started matches Some(len) && dict.entries.len() != len
}

/// Compares two dictionaries: as many entries, and for each key the same
/// value. `started` is how many entries the left one had when the comparison
/// started, where it did before: it must not grow or shrink on the way.
pub open spec fn dicts_equal(
    vm: VmModel,
    left: DictModel,
    right: DictModel,
    started: Option<usize>,
    places: Seq<Option<usize>>,
    answers: Seq<bool>,
) -> Result<DictEq, ErrorModel> {
    if started is None && left.entries.len() != right.entries.len() {
        Ok(DictEq::Different)
    } else if changed_since(left, started) {
        Err(changed_size_error())
    } else {
        Ok(entries_equal_from(vm, left.entries, right.entries, places, false, answers, 0, 0))
    }
}

/// Compares two dictionaries that count. A missing key counts nothing, on both
/// sides. The keys of the left one come first, then those of the right one.
pub open spec fn counters_equal(
    vm: VmModel,
    left: DictModel,
    right: DictModel,
    started: Option<usize>,
    back_started: Option<usize>,
    places: Seq<Option<usize>>,
    back: Seq<Option<usize>>,
    answers: Seq<bool>,
    back_answers: Seq<bool>,
) -> Result<DictEq, ErrorModel> {
    if back_started is Some {
        if changed_since(right, back_started) {
            Err(changed_size_error())
        } else {
            Ok(missing_count_nothing_from(vm, right.entries, back, back_answers, 0, 0))
        }
    } else if changed_since(left, started) {
        Err(changed_size_error())
    } else {
        match entries_equal_from(vm, left.entries, right.entries, places, true, answers, 0, 0) {
            DictEq::Equal => Ok(missing_count_nothing_from(vm, right.entries, back, back_answers, 0, 0)),
            other => Ok(other),
        }
    }
}

/// The entries from `i` on whose key the other dictionary does not have count
/// nothing.
pub open spec fn missing_count_nothing_from(
    vm: VmModel,
    entries: Seq<DictEntry>,
    places: Seq<Option<usize>>,
    answers: Seq<bool>,
    i: int,
    used: int,
) -> DictEq
    decreases entries.len() - i,
{
    if i < 0 || i >= entries.len() {
        DictEq::Equal
    } else if i >= places.len() {
        DictEq::Lookup(entries[i].key)
    } else if places[i] is Some {
        missing_count_nothing_from(vm, entries, places, answers, i + 1, used)
    } else {
        match equality_or_next(vm, entries[i].value, Value::Int(0), answers, used) {
            None => DictEq::Compare(entries[i].value, Value::Int(0)),
            Some(false) => DictEq::Different,
            Some(true) => missing_count_nothing_from(
                vm,
                entries,
                places,
                answers,
                i + 1,
                used + answers_used(vm, entries[i].value, Value::Int(0)),
            ),
        }
    }
}

/// Checks that the entries whose key the other dictionary does not have count
/// nothing.
fn check_missing(entries: &Vec<DictEntry>, places: &Vec<Option<usize>>, answers: &Vec<bool>, vm: &VM) -> (equal:
    RunResult<DictEq>)
    requires
        forall|i: int| 0 <= i < entries@.len() ==> vm@.holds((#[trigger] entries@[i]).value),
    ensures
        compares(vm@.tracker, equal, Ok(missing_count_nothing_from(vm@, entries@, places@, answers@, 0, 0))),
{
    let mut i: usize = 0;
    let mut used: usize = 0;
    while i < entries.len()
        invariant
            i <= entries@.len(),
            used <= answers@.len(),
            forall|i: int| 0 <= i < entries@.len() ==> vm@.holds((#[trigger] entries@[i]).value),
            missing_count_nothing_from(vm@, entries@, places@, answers@, i as int, used as int)
                == missing_count_nothing_from(vm@, entries@, places@, answers@, 0, 0),
        decreases entries@.len() - i,
    {
        compare_in_time(i, vm)?;
        if i >= places.len() {
            return Ok(DictEq::Lookup(entries[i].key));
        }
        if places[i].is_none() {
            let value: Value = entries[i].value;
            assert(vm@.holds(entries@[i as int].value));
            let equal: bool = match probe_native_eq(value, Value::Int(0), vm) {
                Some(equal) => equal,
                None => {
                    if used >= answers.len() {
                        return Ok(DictEq::Compare(value, Value::Int(0)));
                    }
                    used = used + 1;
                    answers[used - 1]
                },
            };
            if !equal {
                return Ok(DictEq::Different);
            }
        }
        i = i + 1;
    }
    compare_in_time(i, vm)?;
    Ok(DictEq::Equal)
}

/// The error about a dictionary that grew or shrank while it was compared.
fn changed_size() -> (error: RunError)
    ensures
        error@ == changed_size_error(),
{
    raise(ExcType::RuntimeError, "dictionary changed size during iteration")
}

/// Says whether a dictionary has another length than when a walk over it
/// started.
fn has_changed(dict: &Dict, started: Option<usize>) -> (changed: bool)
    ensures
        changed == changed_since(dict@, started),
{
    match started {
        Some(len) => dict.entries.len() != len,
        None => false,
    }
}

impl HeapRead<Dict> {
    /// Compares two dictionaries. `places` is where the keys of this one stand
    /// in the other, as far as they were looked up, and `started` how many
    /// entries this one had when the comparison started, where it did before.
    pub fn eq_dict(
        &self,
        other: &HeapRead<Dict>,
        started: Option<usize>,
        places: &Vec<Option<usize>>,
        answers: &Vec<bool>,
        vm: &VM,
    ) -> (equal: RunResult<DictEq>)
        requires
            holds_dict(vm@, self.item@),
            holds_dict(vm@, other.item@),
            places_fit(places@, other.item@.entries),
        ensures
            compares(
                vm@.tracker,
                equal,
                dicts_equal(vm@, self.item@, other.item@, started, places@, answers@),
            ),
    {
        if started.is_none() && self.item.entries.len() != other.item.entries.len() {
            return Ok(DictEq::Different);
        }
        if has_changed(&self.item, started) {
            compare_in_time(places.len(), vm)?;
            return Err(changed_size());
        }
        compare_entries(&self.item.entries, &other.item.entries, places, false, answers, vm)
    }

    /// Compares two dictionaries that count. `back` is where the keys of the
    /// other one stand in this, and `back_started` how many entries the other
    /// one had when its keys had their turn, where they had it before.
    pub fn eq_counter(
        &self,
        other: &HeapRead<Dict>,
        started: Option<usize>,
        back_started: Option<usize>,
        places: &Vec<Option<usize>>,
        back: &Vec<Option<usize>>,
        answers: &Vec<bool>,
        back_answers: &Vec<bool>,
        vm: &VM,
    ) -> (equal: RunResult<DictEq>)
        requires
            holds_dict(vm@, self.item@),
            holds_dict(vm@, other.item@),
            places_fit(places@, other.item@.entries),
        ensures
            compares(
                vm@.tracker,
                equal,
                counters_equal(
                    vm@,
                    self.item@,
                    other.item@,
                    started,
                    back_started,
                    places@,
                    back@,
                    answers@,
                    back_answers@,
                ),
            ),
    {
        if back_started.is_some() {
            if has_changed(&other.item, back_started) {
                compare_in_time(back.len(), vm)?;
                return Err(changed_size());
            }
            return check_missing(&other.item.entries, back, back_answers, vm);
        }
        if has_changed(&self.item, started) {
            compare_in_time(places.len(), vm)?;
            return Err(changed_size());
        }
        match compare_entries(&self.item.entries, &other.item.entries, places, true, answers, vm) {
            Ok(DictEq::Equal) => check_missing(&other.item.entries, back, back_answers, vm),
            result => result,
        }
    }
}

/// Compares a dictionary with one that it is compared with. Two that count are
/// compared by their counts.
pub open spec fn dict_equality(
    vm: VmModel,
    left: DictModel,
    right: DictModel,
    started: Option<usize>,
    back_started: Option<usize>,
    places: Seq<Option<usize>>,
    back: Seq<Option<usize>>,
    answers: Seq<bool>,
    back_answers: Seq<bool>,
) -> Result<DictEq, ErrorModel> {
    if counts_keys(left) && counts_keys(right) {
        counters_equal(vm, left, right, started, back_started, places, back, answers, back_answers)
    } else {
        dicts_equal(vm, left, right, started, places, answers)
    }
}

impl HeapRead<Dict> {
    /// Compares with another value, which is a dictionary or has no say.
    pub fn py_eq_impl(
        &self,
        other: Option<&HeapRead<Dict>>,
        started: Option<usize>,
        back_started: Option<usize>,
        places: &Vec<Option<usize>>,
        back: &Vec<Option<usize>>,
        answers: &Vec<bool>,
        back_answers: &Vec<bool>,
        vm: &VM,
    ) -> (equal: RunResult<Option<DictEq>>)
        requires
            holds_dict(vm@, self.item@),
            other matches Some(other) ==> holds_dict(vm@, other.item@) && places_fit(places@, other.item@.entries),
        ensures
            match other {
                None => equal matches Ok(None),
                Some(other) => {
                    let model = dict_equality(
                        vm@,
                        self.item@,
                        other.item@,
                        started,
                        back_started,
                        places@,
                        back@,
                        answers@,
                        back_answers@,
                    );
                    match equal {
                        Ok(equal) => equal matches Some(equal) && compares(vm@.tracker, Ok(equal), model),
                        Err(error) => compares(vm@.tracker, Err(error), model),
                    }
                },
            },
    {
        match other {
            None => Ok(None),
            Some(other) => {
                let equal = if self.item.is_counter() && other.item.is_counter() {
                    self.eq_counter(other, started, back_started, places, back, answers, back_answers, vm)
                } else {
                    self.eq_dict(other, started, places, answers, vm)
                };
                match equal {
                    Ok(equal) => Ok(Some(equal)),
                    Err(error) => Err(error),
                }
            },
        }
    }
}

/// An operator on two dictionaries that count.
#[derive(Clone, Copy, Debug, PartialEq, Eq, Structural)]
pub enum CounterOp {
    Add,
    Sub,
    And,
    Or,
}

/// A comparison of two dictionaries that count.
#[derive(Clone, Copy, Debug, PartialEq, Eq, Structural)]
pub enum CounterCmp {
    Lt,
    Le,
    Gt,
    Ge,
}

/// The comparison of counts that an operator stands for.
pub open spec fn ordering_of(op: CmpOperator) -> Option<CounterCmp> {
    match op {
        CmpOperator::Lt => Some(CounterCmp::Lt),
        CmpOperator::LtE => Some(CounterCmp::Le),
        CmpOperator::Gt => Some(CounterCmp::Gt),
        CmpOperator::GtE => Some(CounterCmp::Ge),
        _ => None,
    }
}

/// Both sides are dictionaries that count.
pub open spec fn both_count(left: DictModel, right: Option<&HeapRead<Dict>>) -> bool {
    &&& counts_keys(left)
    &&& right matches Some(right) && counts_keys(right.item@)
}

/// What `left | right` does.
#[derive(Clone, Copy, Debug, PartialEq, Eq, Structural)]
pub enum UnionOf {
    /// The right side is no dictionary.
    NotImplemented,
    /// Each key gets the larger count.
    Counts,
    /// A new dictionary gets the pairs of the left side and then those of the
    /// right.
    Pairs,
}

/// What `left |= right` does.
pub enum UnionInto {
    /// Each key gets the larger count.
    Counts,
    /// The pairs of the right side go into the left one.
    Pairs(RunResult<DictMade>),
}

impl HeapRead<Dict> {
    /// An operator that only two dictionaries that count have: the operator, or
    /// nothing where the sides are others. `other` is the right side where it
    /// is a dictionary.
    pub fn counter_binary(&self, other: Option<&HeapRead<Dict>>, op: CounterOp) -> (action: Option<CounterOp>)
        ensures
            action == if both_count(self.item@, other) {
                Some(op)
            } else {
                None
            },
    {
        match other {
            Some(other) => {
                if self.item.is_counter() && other.item.is_counter() {
                    Some(op)
                } else {
                    None
                }
            },
            None => None,
        }
    }

    /// `left + right`.
    pub fn py_add_impl(&self, other: Option<&HeapRead<Dict>>) -> (action: Option<CounterOp>)
        ensures
            action == if both_count(self.item@, other) {
                Some(CounterOp::Add)
            } else {
                None
            },
    {
        self.counter_binary(other, CounterOp::Add)
    }

    /// `left - right`.
    pub fn py_sub_impl(&self, other: Option<&HeapRead<Dict>>) -> (action: Option<CounterOp>)
        ensures
            action == if both_count(self.item@, other) {
                Some(CounterOp::Sub)
            } else {
                None
            },
    {
        self.counter_binary(other, CounterOp::Sub)
    }

    /// `left & right`.
    pub fn py_and_impl(&self, other: Option<&HeapRead<Dict>>) -> (action: Option<CounterOp>)
        ensures
            action == if both_count(self.item@, other) {
                Some(CounterOp::And)
            } else {
                None
            },
    {
        self.counter_binary(other, CounterOp::And)
    }

    /// `left | right`: a union of counts of two dictionaries that count, and a
    /// union of pairs of any others.
    pub fn py_or_impl(&self, other: Option<&HeapRead<Dict>>) -> (action: UnionOf)
        ensures
            action == if other is None {
                UnionOf::NotImplemented
            } else if both_count(self.item@, other) {
                UnionOf::Counts
            } else {
                UnionOf::Pairs
            },
    {
        match self.counter_binary(other, CounterOp::Or) {
            Some(_) => UnionOf::Counts,
            None => match other {
                Some(_) => UnionOf::Pairs,
                None => UnionOf::NotImplemented,
            },
        }
    }

    /// An operator in place, which only a dictionary that counts has, whatever
    /// the right side is: the operator, or nothing.
    pub fn counter_inplace(&self, op: CounterOp) -> (action: Option<CounterOp>)
        ensures
            action == if counts_keys(self.item@) {
                Some(op)
            } else {
                None
            },
    {
        if self.item.is_counter() {
            Some(op)
        } else {
            None
        }
    }

    /// `left |= right`: a union of counts for a dictionary that counts, and
    /// `update` for any other. `source` is the right side where it is a
    /// dictionary.
    pub fn py_ior_impl(&self, other: Value, source: Option<&Dict>, vm: &mut VM, replies: &Vec<Reply>) -> (action: UnionInto)
        requires
            old(vm)@.holds(other),
            old(vm)@.wf(),
            source matches Some(dict) ==> holds_dict(old(vm)@, dict@),
            holds_replies(old(vm)@, replies_model(replies@)),
        ensures
            final(vm)@ == old(vm)@,
            match action {
                UnionInto::Counts => counts_keys(self.item@),
                UnionInto::Pairs(result) => !counts_keys(self.item@) && updates_in_limits(
                    old(vm)@.tracker,
                    result,
                    update_model(
                        old(vm)@,
                        true,
                        ArgsModel { positional: seq![other], keywords: Seq::empty() },
                        maybe_dict(source),
                        replies_model(replies@),
                        old(vm)@.heap.len() as int,
                    ),
                ),
            },
    {
        if self.item.is_counter() {
            return UnionInto::Counts;
        }
        let mut positional: Vec<Value> = Vec::new();
        positional.push(other);
        let args = ArgValues { positional, keywords: Vec::new() };
        proof {
            assert(args@.positional =~= seq![other]);
            assert(args@.keywords =~= Seq::<(Seq<char>, Value)>::empty());
            assert(with_names(vm@, args@.keywords).heap =~= vm@.heap);
        }
        UnionInto::Pairs(dict_update(true, &args, source, vm, replies))
    }

    /// `+dict` and `-dict`, which only a dictionary that counts has: whether
    /// the counts are negated, or nothing.
    pub fn counter_unary(&self, negate: bool) -> (action: Option<bool>)
        ensures
            action == if counts_keys(self.item@) {
                Some(negate)
            } else {
                None
            },
    {
        if self.item.is_counter() {
            Some(negate)
        } else {
            None
        }
    }

    /// A comparison, which only two dictionaries that count have: the
    /// comparison of their counts, or nothing.
    pub fn py_cmp_op(&self, other: Option<&HeapRead<Dict>>, op: CmpOperator) -> (action: Option<CounterCmp>)
        ensures
            action == if both_count(self.item@, other) {
                ordering_of(op)
            } else {
                None
            },
    {
        let ordering = match op {
            CmpOperator::Lt => CounterCmp::Lt,
            CmpOperator::LtE => CounterCmp::Le,
            CmpOperator::Gt => CounterCmp::Gt,
            CmpOperator::GtE => CounterCmp::Ge,
            _ => return None,
        };
        match other {
            Some(other) => {
                if self.item.is_counter() && other.item.is_counter() {
                    Some(ordering)
                } else {
                    None
                }
            },
            None => None,
        }
    }
}

/// The texts of entries, each `key: value`, with a comma between.
pub open spec fn map_body(pairs: Seq<(Seq<char>, Seq<char>)>, count: int) -> Seq<char>
    decreases count,
{
    if count <= 0 || count > pairs.len() {
        Seq::empty()
    } else {
        let before = map_body(pairs, count - 1);
        let (key, value) = pairs[count - 1];
        (if count > 1 {
            before + ", "@
        } else {
            before
        }) + key + ": "@ + value
    }
}

/// How far the entries of a dictionary were written.
#[derive(Clone, Copy, Debug, PartialEq, Eq, Structural)]
pub enum Written {
    All,
    /// The time was over behind those that were written.
    OutOfTime,
    /// The dictionary stands too deep inside others.
    TooDeep,
}

/// The entries of a dictionary as text.
pub open spec fn map_text(pairs: Seq<(Seq<char>, Seq<char>)>, written: Written) -> Seq<char> {
    match written {
        Written::All => "{"@ + map_body(pairs, pairs.len() as int) + "}"@,
        Written::OutOfTime => "{"@ + map_body(pairs, pairs.len() as int) + ", ...[timeout]}"@,
        Written::TooDeep => "{...}"@,
    }
}

/// The text of a dictionary, from the texts of its entries and of its factory.
pub open spec fn dict_text(kind: DictKind, factory: Seq<char>, pairs: Seq<(Seq<char>, Seq<char>)>, written: Written) -> Seq<
    char,
> {
    let map = map_text(pairs, written);
    match kind.special {
        None => map,
        Some(DictSpecial::Default(_)) => "defaultdict("@ + factory + ", "@ + map + ")"@,
        Some(DictSpecial::Counter) => if pairs.len() == 0 && written is All {
            "Counter()"@
        } else {
            "Counter("@ + map + ")"@
        },
    }
}

/// The texts of a list of pairs.
pub open spec fn pair_texts(pairs: Seq<(String, String)>) -> Seq<(Seq<char>, Seq<char>)> {
    Seq::new(pairs.len(), |i: int| (pairs[i].0@, pairs[i].1@))
}

/// Writes the entries of a dictionary.
fn map_repr(pairs: &Vec<(String, String)>, written: Written) -> (map: String)
    ensures
        map@ == map_text(pair_texts(pairs@), written),
{
    if let Written::TooDeep = written {
        return "{...}".to_owned();
    }
    let mut map = "{".to_owned();
    let ghost texts = pair_texts(pairs@);
    let mut i: usize = 0;
    assert(map@ =~= "{"@ + map_body(texts, 0));
    while i < pairs.len()
        invariant
            i <= pairs@.len(),
            texts == pair_texts(pairs@),
            map@ == "{"@ + map_body(texts, i as int),
        decreases pairs@.len() - i,
    {
        if i > 0 {
            map.append(", ");
        }
        map.append(pairs[i].0.as_str());
        map.append(": ");
        map.append(pairs[i].1.as_str());
        i = i + 1;
        assert(texts[i - 1] == (pairs@[i - 1].0@, pairs@[i - 1].1@));
        assert(map@ =~= "{"@ + map_body(texts, i as int));
    }
    if let Written::OutOfTime = written {
        map.append(", ...[timeout]}");
    } else {
        map.append("}");
    }
    map
}

/// Writes a dictionary. `pairs` are the texts of its entries, in the order in
/// which they are shown, and `factory` that of its factory.
pub fn dict_repr(kind: DictKind, factory: &str, pairs: &Vec<(String, String)>, written: Written) -> (text: String)
    ensures
        text@ == dict_text(kind, factory@, pair_texts(pairs@), written),
{
    let map = map_repr(pairs, written);
    let whole: bool = match written {
        Written::All => true,
        _ => false,
    };
    match kind.special {
        None => map,
        Some(DictSpecial::Default(_)) => {
            let mut text = "defaultdict(".to_owned();
            text.append(factory);
            text.append(", ");
            text.append(map.as_str());
            text.append(")");
            text
        },
        Some(DictSpecial::Counter) => {
            if pairs.len() == 0 && whole {
                return "Counter()".to_owned();
            }
            let mut text = "Counter(".to_owned();
            text.append(map.as_str());
            text.append(")");
            text
        },
    }
}

} // verus!
