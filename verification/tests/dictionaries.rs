use std::collections::hash_map::DefaultHasher;
use std::hash::{Hash, Hasher};

use monty::args::ArgValues;
use monty::ast::CmpOperator;
use monty::bytes::Reply;
use monty::class::{Class, DataclassOptions};
use monty::dict::{check_growth, Dict, DictEntry, DictKind};
use monty::dict_call::{dict_copy, dict_fromkeys, DictMade, Lookup};
use monty::dict_merge::{merge_compared, merge_hashed, merge_turn, type_error_unhashable, Merge, MergeAction};
use monty::dict_iter::{DictIter, DictIteratorState};
use monty::dict_ops::{dict_repr, CounterCmp, CounterOp, DictEq, UnionInto, UnionOf, Written};
use monty::dict_probe::{find_text_key, resume_probe, start_probe, ProbeStep};
use monty::exceptions::{ExcType, RunResult};
use monty::hash::text_hash;
use monty::heap::{HeapData, HeapRead, VM};
use monty::resource_checks::{ResourceError, ResourceTracker};
use monty::value::{EitherStr, Value};

fn free() -> ResourceTracker {
    ResourceTracker::new(None, None)
}

fn vm() -> VM {
    VM::new(vec!["a".to_owned(), "b".to_owned(), "__main__".to_owned()], vec![], free())
}

/// A hash for the keys of these tests: small integers by themselves, texts by
/// their length.
fn hash(key: Value, run: &VM) -> u64 {
    match key {
        Value::Int(n) => n as u64,
        other => run.get_text(other).map_or(77, |text| text.len() as u64),
    }
}

fn lookup(dict: &Dict, key: Value, run: &VM) -> Lookup {
    let hash = hash(key, run);
    match start_probe(dict, key, hash, run).0 {
        ProbeStep::Found(place) => Lookup { hash, place: Some(place) },
        ProbeStep::Missing => Lookup { hash, place: None },
        ProbeStep::Compare(_) => panic!("native keys"),
    }
}

fn filled(pairs: &[(i64, i64)]) -> HeapRead<Dict> {
    let run = vm();
    let mut dict = HeapRead { item: Dict::new() };
    for (key, value) in pairs {
        let found = lookup(&dict.item, Value::Int(*key), &run);
        assert!(dict.py_setitem(Value::Int(*key), Value::Int(*value), found, &run).is_ok());
    }
    dict
}

fn args(positional: Vec<Value>) -> ArgValues {
    ArgValues { positional, keywords: vec![] }
}

fn call(dict: &mut HeapRead<Dict>, name: &str, positional: Vec<Value>) -> RunResult<DictMade> {
    let mut run = vm();
    let found = positional.first().map(|key| lookup(&dict.item, *key, &run));
    dict.py_call_attr(name, &args(positional), found, None, &mut run, &vec![])
}

fn error<T>(result: RunResult<T>) -> (ExcType, String) {
    match result {
        Ok(_) => panic!("an error was expected"),
        Err(error) => (error.exc_type, error.message.unwrap_or_default()),
    }
}

#[test]
fn entries_keep_their_order() {
    let dict = filled(&[(3, 30), (1, 10), (3, 31)]);
    assert_eq!(dict.item.iter(), vec![(Value::Int(3), Value::Int(31)), (Value::Int(1), Value::Int(10))]);
    assert_eq!((dict.item.len(), dict.item.is_empty(), dict.item.has_refs()), (2, false, false));
    assert_eq!(dict.item.key_at(1), Some(Value::Int(1)));
    assert_eq!(dict.item.value_at(2), None);
    assert_eq!(dict.item.item_at(0), Some((Value::Int(3), Value::Int(31))));
}

#[test]
fn a_popped_key_is_gone_and_the_others_stay() {
    let run = vm();
    let mut dict = filled(&[(1, 10), (2, 20), (3, 30)]);
    let found = lookup(&dict.item, Value::Int(2), &run);
    assert_eq!(dict.pop(found.place), Some((Value::Int(2), Value::Int(20))));
    assert_eq!(lookup(&dict.item, Value::Int(2), &run).place, None);
    assert_eq!(lookup(&dict.item, Value::Int(3), &run).place, Some(1));
    assert_eq!(dict.pop(None), None);
}

#[test]
fn many_keys_are_all_found() {
    let run = vm();
    let pairs: Vec<(i64, i64)> = (0..500).map(|n| (n, n * n)).collect();
    let mut dict = filled(&pairs);
    for n in 0..500 {
        let found = lookup(&dict.item, Value::Int(n), &run);
        assert_eq!(dict.item.value_at(found.place.expect("there")), Some(Value::Int(n * n)));
    }
    dict.item.clear();
    assert_eq!(lookup(&dict.item, Value::Int(3), &run).place, None);
}

#[test]
fn equal_hashes_are_told_apart() {
    let run = vm();
    let mut dict = Dict::new();
    for (i, key) in [Value::Int(10), Value::Int(20), Value::Int(30)].into_iter().enumerate() {
        let old = dict.set_without_growth_check(DictEntry { key, value: Value::Int(i as i64), hash: 5 }, None);
        assert_eq!(old, None);
    }
    let mut places = dict.candidates(5);
    places.sort();
    assert_eq!(places, vec![0, 1, 2]);
    assert_eq!(start_probe(&dict, Value::Int(20), 5, &run).0, ProbeStep::Found(1));
    assert_eq!(start_probe(&dict, Value::Int(40), 5, &run).0, ProbeStep::Missing);
    let entry = dict.remove_at(0);
    assert_eq!(entry.key, Value::Int(10));
    assert_eq!(start_probe(&dict, Value::Int(30), 5, &run).0, ProbeStep::Found(1));
}

#[test]
fn a_key_that_only_the_host_compares() {
    let mut run = vm();
    let object = Value::Ref(run.allocate(HeapData::Other { named: "K".to_owned(), iterable: false }));
    let mut dict = Dict::new();
    dict.set_without_growth_check(DictEntry { key: object, value: Value::Int(1), hash: 9 }, None);
    let (step, probe) = start_probe(&dict, Value::Int(9), 9, &run);
    assert_eq!(step, ProbeStep::Compare(object));
    let probe = probe.expect("a probe");
    let Ok((step, _)) = resume_probe(probe, &dict, true, &run) else { panic!("resumed") };
    assert_eq!(step, ProbeStep::Found(0));
    let (_, probe) = start_probe(&dict, Value::Int(9), 9, &run);
    let Ok((step, _)) = resume_probe(probe.expect("a probe"), &dict, false, &run) else { panic!("resumed") };
    assert_eq!(step, ProbeStep::Missing);
}

fn object(run: &mut VM) -> Value {
    Value::Ref(run.allocate(HeapData::Other { named: "K".to_owned(), iterable: false }))
}

#[test]
fn each_key_is_compared_once() {
    let mut run = vm();
    let objects: Vec<Value> = (0..4).map(|_| object(&mut run)).collect();
    let mut dict = Dict::new();
    for key in &objects[..3] {
        dict.set_without_growth_check(DictEntry { key: *key, value: Value::Int(1), hash: 9 }, None);
    }
    let mut asked = Vec::new();
    let (mut step, mut probe) = start_probe(&dict, Value::Int(9), 9, &run);
    while let ProbeStep::Compare(stored) = step {
        asked.push(stored);
        if asked.len() == 3 {
            // The code that compares the last key puts one more in.
            dict.set_without_growth_check(DictEntry { key: objects[3], value: Value::Int(1), hash: 9 }, None);
        }
        let Ok((next, rest)) = resume_probe(probe.expect("a probe"), &dict, false, &run) else { panic!("resumed") };
        step = next;
        probe = rest;
    }
    assert_eq!(step, ProbeStep::Missing);
    assert_eq!(asked.len(), 4);
    assert_eq!(asked[3], objects[3]);
    for key in &objects {
        assert_eq!(asked.iter().filter(|asked| **asked == *key).count(), 1);
    }
}

#[test]
fn a_lookup_starts_over_where_an_entry_is_gone() {
    let mut run = vm();
    let gone = object(&mut run);
    let mut dict = Dict::new();
    dict.set_without_growth_check(DictEntry { key: gone, value: Value::Int(1), hash: 9 }, None);
    let (step, probe) = start_probe(&dict, Value::Int(9), 9, &run);
    assert_eq!(step, ProbeStep::Compare(gone));
    dict.remove_at(0);
    dict.set_without_growth_check(DictEntry { key: Value::Int(9), value: Value::Int(2), hash: 9 }, None);
    let Ok((step, _)) = resume_probe(probe.expect("a probe"), &dict, true, &run) else { panic!("resumed") };
    assert_eq!(step, ProbeStep::Found(0));
}

#[test]
fn text_keys_are_found_by_their_text() {
    let run = vm();
    let mut dict = Dict::new();
    let hash = text_hash("b");
    dict.set_without_growth_check(DictEntry { key: Value::InternString(1), value: Value::Int(7), hash }, None);
    assert_eq!(find_text_key(&dict, "b", hash, &run), Some(0));
    assert_eq!(dict.get_by_str("b", &run), Some(Value::Int(7)));
    assert_eq!(dict.get_by_str("a", &run), None);
    let old = dict.set_json_string_key(Value::InternString(1), Value::Int(8), &run);
    assert_eq!(dict.get_by_str("b", &run), Some(Value::Int(8)));
    assert_eq!(old.ok().flatten(), Some(Value::Int(7)));
    assert_eq!(dict.len(), 1);
}

#[test]
fn growing_beyond_the_memory_limit_is_refused() {
    let mut dict = HeapRead { item: Dict::new() };
    let tracker = ResourceTracker::new(Some(10), None);
    let (kind, _) = error(dict.set(DictEntry { key: Value::Int(1), value: Value::Int(1), hash: 1 }, None, &tracker));
    assert_eq!(kind, ExcType::MemoryError);
    assert_eq!(dict.item.len(), 0);
    let old = dict.set_without_growth_check(DictEntry { key: Value::Int(1), value: Value::Int(1), hash: 1 }, None);
    assert_eq!(old, None);
    assert_eq!(dict.item.len(), 1);
}

#[test]
fn kinds_of_dictionaries() {
    let mut dict = Dict::new();
    assert_eq!(dict.kind_name(), "dict");
    dict.make_counter();
    assert!(dict.is_counter());
    dict.make_defaultdict(Some(Value::Builtin(1)));
    assert_eq!(dict.default_factory(), Some(Value::Builtin(1)));
    assert_eq!(dict.replace_default_factory(None), Some(Value::Builtin(1)));
    assert!(dict.is_defaultdict());
    assert_eq!(DictKind::plain(), DictKind { special: None });
    assert_ne!(DictKind::counter(), DictKind::defaultdict(None));
}

#[test]
fn get_and_pop_fall_back() {
    let mut dict = filled(&[(1, 10)]);
    assert!(matches!(call(&mut dict, "get", vec![Value::Int(1)]), Ok(DictMade::Plain(Value::Int(10)))));
    assert!(matches!(call(&mut dict, "get", vec![Value::Int(2)]), Ok(DictMade::Plain(Value::NoneValue))));
    assert!(matches!(call(&mut dict, "get", vec![Value::Int(2), Value::Int(5)]), Ok(DictMade::Plain(Value::Int(5)))));
    assert!(matches!(call(&mut dict, "pop", vec![Value::Int(2)]), Ok(DictMade::MissingKey(Value::Int(2)))));
    assert!(matches!(call(&mut dict, "pop", vec![Value::Int(1)]), Ok(DictMade::Plain(Value::Int(10)))));
    assert!(dict.item.is_empty());
}

#[test]
fn setdefault_sets_once() {
    let mut dict = filled(&[]);
    let set = vec![Value::Int(1), Value::Int(10)];
    assert!(matches!(call(&mut dict, "setdefault", set), Ok(DictMade::Plain(Value::Int(10)))));
    let again = vec![Value::Int(1), Value::Int(99)];
    assert!(matches!(call(&mut dict, "setdefault", again), Ok(DictMade::Plain(Value::Int(10)))));
    assert_eq!(dict.item.len(), 1);
}

#[test]
fn popitem_takes_the_last_entry() {
    let mut dict = filled(&[(1, 10), (2, 20)]);
    let mut run = vm();
    let none = args(vec![]);
    let made = dict.py_call_attr("popitem", &none, None, None, &mut run, &vec![]);
    assert!(matches!(made, Ok(DictMade::Pair(Value::Int(2), Value::Int(20)))));
    let made = dict.py_call_attr("popitem", &none, None, None, &mut run, &vec![]);
    assert!(made.is_ok());
    let (kind, message) = error(dict.py_call_attr("popitem", &none, None, None, &mut run, &vec![]));
    assert_eq!((kind, message.as_str()), (ExcType::KeyError, "popitem(): dictionary is empty"));
}

#[test]
fn methods_of_other_kinds_are_not_there() {
    let mut dict = filled(&[]);
    let (kind, message) = error(call(&mut dict, "most_common", vec![]));
    assert_eq!(kind, ExcType::AttributeError);
    assert_eq!(message, "'dict' object has no attribute 'most_common'");
    dict.item.make_counter();
    assert!(matches!(call(&mut dict, "most_common", vec![]), Ok(DictMade::Counter(_))));
    let (_, message) = error(call(&mut dict, "nothing", vec![]));
    assert_eq!(message, "'collections.Counter' object has no attribute 'nothing'");
}

#[test]
fn updating_gathers_pairs() {
    let mut run = vm();
    let pair = Value::Ref(run.allocate(HeapData::Tuple(vec![Value::Int(1), Value::Int(2)])));
    let list = Value::Ref(run.allocate(HeapData::List(vec![pair])));
    let named = ArgValues { positional: vec![list], keywords: vec![("k".to_owned(), Value::Int(3))] };
    let mut dict = filled(&[]);
    let made = dict.py_call_attr("update", &named, None, None, &mut run, &vec![]);
    let Ok(DictMade::Update(pairs, None)) = made else { panic!("pairs") };
    assert_eq!(pairs[0], (Value::Int(1), Value::Int(2)));
    assert_eq!(run.get_text(pairs[1].0), Some("k"));
    assert_eq!(pairs[1].1, Value::Int(3));
}

#[test]
fn pairs_go_in_one_after_the_other() {
    let run = vm();
    let (mut dict, mut merge) = Dict::from_pairs(vec![
        (Value::Int(1), Value::Int(10)),
        (Value::Int(2), Value::Int(20)),
        (Value::Int(1), Value::Int(11)),
    ]);
    loop {
        match merge_turn(&merge) {
            MergeAction::Done => break,
            MergeAction::Hash(key) => {
                let (action, next) = merge_hashed(merge, &mut dict, hash(key, &run), &run);
                assert!(action.is_ok());
                merge = next;
            }
            MergeAction::Compare(_, _) => panic!("native keys"),
        }
    }
    assert_eq!(dict.iter(), vec![(Value::Int(1), Value::Int(11)), (Value::Int(2), Value::Int(20))]);
}

#[test]
fn a_merge_waits_for_the_host() {
    let mut run = vm();
    let object = Value::Ref(run.allocate(HeapData::Other { named: "K".to_owned(), iterable: false }));
    let mut dict = Dict::new();
    dict.set_without_growth_check(DictEntry { key: object, value: Value::Int(1), hash: 4 }, None);
    let merge = Merge::new(vec![(Value::Int(4), Value::Int(2))]);
    let (action, merge) = merge_hashed(merge, &mut dict, 4, &run);
    assert!(matches!(action, Ok(MergeAction::Compare(stored, Value::Int(4))) if stored == object));
    let (action, _) = merge_compared(merge, &mut dict, true, &run);
    assert!(matches!(action, Ok(MergeAction::Done)));
    assert_eq!(dict.iter(), vec![(Value::Int(4), Value::Int(2))]);
}

#[test]
fn an_unhashable_key_is_named() {
    let mut run = vm();
    let list = Value::Ref(run.allocate(HeapData::List(vec![])));
    let error = type_error_unhashable(list, &run);
    assert_eq!(error.exc_type, ExcType::TypeError);
    assert!(error.message.expect("a message").contains("list"));
}

#[test]
fn keys_share_a_value() {
    let mut run = vm();
    let list = Value::Ref(run.allocate(HeapData::List(vec![Value::Int(1), Value::Int(2)])));
    let made = dict_fromkeys(&args(vec![list, Value::Int(0)]), DictKind::plain(), &run, &vec![]);
    let Ok(DictMade::FromPairs(kind, pairs, None)) = made else { panic!("pairs") };
    assert_eq!(kind, DictKind::plain());
    assert_eq!(pairs, vec![(Value::Int(1), Value::Int(0)), (Value::Int(2), Value::Int(0))]);
    let other = Value::Ref(run.allocate(HeapData::Other { named: "gen".to_owned(), iterable: true }));
    let made = dict_fromkeys(&args(vec![other]), DictKind::plain(), &run, &vec![]);
    assert!(matches!(made, Ok(DictMade::Items(value)) if value == other));
    let replies = vec![Reply::Items(vec![Value::Int(3)], None)];
    let made = dict_fromkeys(&args(vec![other]), DictKind::plain(), &run, &replies);
    assert!(matches!(made, Ok(DictMade::FromPairs(_, pairs, None)) if pairs == vec![(Value::Int(3), Value::NoneValue)]));
}

/// Puts pairs into a dictionary whose keys are compared without a host.
fn merged(mut dict: Dict, pairs: Vec<(Value, Value)>, run: &VM) -> Dict {
    let mut merge = Merge::new(pairs);
    loop {
        match merge_turn(&merge) {
            MergeAction::Done => return dict,
            MergeAction::Hash(key) => {
                let (action, next) = merge_hashed(merge, &mut dict, hash(key, run), run);
                assert!(action.is_ok());
                merge = next;
            }
            MergeAction::Compare(_, _) => panic!("native keys"),
        }
    }
}

#[test]
fn a_copy_is_its_own() {
    let mut dict = filled(&[(1, 10)]);
    dict.item.make_counter();
    let DictMade::FromPairs(kind, pairs, None) = dict_copy(&dict.item) else { panic!("pairs") };
    dict.item.clear();
    let mut copy = merged(Dict::new(), pairs, &vm());
    copy.set_kind(kind);
    assert_eq!(copy.iter(), vec![(Value::Int(1), Value::Int(10))]);
    assert!(copy.is_counter());
}

#[test]
fn a_saved_dictionary_finds_its_keys_again() {
    let run = vm();
    let dict = filled(&[(1, 10), (2, 20), (3, 30)]);
    let again = Dict::from_parts(dict.item.entries.clone(), dict.item.contains_refs, dict.item.kind);
    assert_eq!(again.iter(), dict.item.iter());
    for key in 1..4 {
        assert_eq!(lookup(&again, Value::Int(key), &run), lookup(&dict.item, Value::Int(key), &run));
    }
}

#[test]
fn an_update_walks_over_its_source() {
    let mut run = vm();
    let held = Value::Ref(run.allocate(HeapData::Other { named: "dict".to_owned(), iterable: true }));
    let mut source = filled(&[(1, 10), (2, 20)]);
    let mut dict = filled(&[]);
    let made = dict.py_call_attr("update", &args(vec![held]), None, Some(&source.item), &mut run, &vec![]);
    let Ok(DictMade::Walk(mut walk, rest)) = made else { panic!("a walk") };
    assert!(rest.is_empty());
    assert_eq!(walk.next_owned(&source.item, &free()).ok().flatten(), Some((Value::Int(1), Value::Int(10))));
    source.item.remove_at(0);
    let (kind, message) = error(walk.next_owned(&source.item, &free()));
    assert_eq!((kind, message.as_str()), (ExcType::RuntimeError, "dictionary changed size during iteration"));
}

#[test]
fn operators_of_counts() {
    let mut run = vm();
    let plain = filled(&[(1, 10)]);
    let mut counts = filled(&[(1, 10)]);
    counts.item.make_counter();
    assert_eq!(counts.py_add_impl(Some(&counts)), Some(CounterOp::Add));
    assert_eq!(counts.py_sub_impl(Some(&plain)), None);
    assert_eq!(plain.py_and_impl(Some(&counts)), None);
    assert_eq!(counts.py_or_impl(Some(&counts)), UnionOf::Counts);
    assert_eq!(counts.py_or_impl(Some(&plain)), UnionOf::Pairs);
    assert_eq!(counts.py_or_impl(None), UnionOf::NotImplemented);
    assert_eq!(counts.counter_inplace(CounterOp::Sub), Some(CounterOp::Sub));
    assert_eq!(plain.counter_inplace(CounterOp::Sub), None);
    assert_eq!((counts.counter_unary(true), plain.counter_unary(true)), (Some(true), None));
    assert_eq!(counts.py_cmp_op(Some(&counts), CmpOperator::LtE), Some(CounterCmp::Le));
    assert_eq!(counts.py_cmp_op(Some(&counts), CmpOperator::Eq), None);
    assert_eq!(counts.py_cmp_op(Some(&plain), CmpOperator::Lt), None);
    assert!(matches!(counts.py_ior_impl(Value::Int(1), None, &mut run, &vec![]), UnionInto::Counts));
    let refused = plain.py_ior_impl(Value::Int(1), None, &mut run, &vec![]);
    assert!(matches!(refused, UnionInto::Pairs(Ok(DictMade::Update(pairs, Some(_)))) if pairs.is_empty()));
}

#[test]
fn missing_keys_of_each_kind() {
    let run = vm();
    let mut dict = filled(&[(1, 10)]);
    let there = lookup(&dict.item, Value::Int(1), &run);
    let missing = lookup(&dict.item, Value::Int(2), &run);
    assert!(matches!(dict.py_getitem(Value::Int(1), there), DictMade::Plain(Value::Int(10))));
    assert!(matches!(dict.py_getitem(Value::Int(2), missing), DictMade::MissingKey(Value::Int(2))));
    dict.item.make_counter();
    assert!(matches!(dict.py_getitem(Value::Int(2), missing), DictMade::Plain(Value::Int(0))));
    assert!(matches!(dict.py_delitem(Value::Int(2), missing), DictMade::MissingKey(_)));
    assert!(dict.contains_key(there) && !dict.contains_key(missing));
    assert!(matches!(dict.py_delitem(Value::Int(1), there), DictMade::Plain(Value::NoneValue)));
    assert!(dict.item.is_empty());
}

#[test]
fn the_factory_is_an_attribute() {
    let mut dict = filled(&[]);
    assert_eq!(dict.py_getattr("default_factory"), None);
    let (kind, _) = error(dict.py_set_attr("default_factory", Value::Int(1)));
    assert_eq!(kind, ExcType::AttributeError);
    dict.item.make_defaultdict(None);
    assert_eq!(dict.py_getattr("default_factory"), Some(Value::NoneValue));
    assert!(dict.py_set_attr("default_factory", Value::Int(1)).is_ok());
    assert_eq!(dict.py_getattr("default_factory"), Some(Value::Int(1)));
    let copy = dict.empty_like();
    assert_eq!(copy.default_factory(), Some(Value::Int(1)));
    let Ok(deep) = dict.empty_deep_copy(Some((Value::Builtin(2), true))) else { panic!("a dictionary") };
    assert_eq!(deep.default_factory(), Some(Value::Builtin(2)));
    let (_, message) = error(dict.empty_deep_copy(Some((Value::Int(2), false))));
    assert_eq!(message, "first argument must be callable or None");
}

#[test]
fn a_union_has_the_kind_of_a_side() {
    let mut left = filled(&[(1, 10)]);
    let mut right = filled(&[(2, 20)]);
    right.item.make_defaultdict(None);
    assert_eq!(left.or_kind(&right), DictKind::defaultdict(None));
    let pairs = left.or_pairs(&free()).ok().expect("pairs");
    assert_eq!(pairs, vec![(Value::Int(1), Value::Int(10))]);
    assert_eq!(right.pair_snapshot(&free()).ok(), Some(vec![(Value::Int(2), Value::Int(20))]));
    left.item.make_counter();
    right.item.make_counter();
    assert_eq!(left.or_kind(&right), DictKind::plain());
    assert!(left.or_pairs(&ResourceTracker::new(Some(79), None)).is_err());
    assert!(left.or_pairs(&ResourceTracker::new(Some(80), None)).is_ok());
    assert!(left.counter_pairs(&ResourceTracker::new(Some(32), None)).is_ok());
    assert!(left.deep_copy_walk(&ResourceTracker::new(Some(31), None)).is_err());
}

#[test]
fn pairs_are_copied_within_the_limit() {
    let dict = filled(&[(1, 10), (2, 20)]);
    assert_eq!(dict.clone_all_pairs(&free()).ok().map(|pairs| pairs.len()), Some(2));
    let (kind, message) = error(dict.clone_all_pairs(&ResourceTracker::new(Some(63), None)));
    assert_eq!(kind, ExcType::MemoryError);
    assert_eq!(message, "memory limit exceeded: 64 bytes > 63 bytes");
}

#[test]
fn a_dictionary_of_a_dictionary_is_held_against_the_limit() {
    let source = filled(&[(1, 10), (2, 20)]);
    let mut run = VM::new(vec![], vec![], ResourceTracker::new(Some(50), None));
    let held = Value::Ref(run.allocate(HeapData::Other { named: "dict".to_owned(), iterable: true }));
    let (kind, _) = error(Dict::init(&args(vec![held]), Some(&source.item), &mut run, &vec![]));
    assert_eq!(kind, ExcType::MemoryError);
    let mut run = vm();
    let held = Value::Ref(run.allocate(HeapData::Other { named: "dict".to_owned(), iterable: true }));
    let made = Dict::init(&args(vec![held]), Some(&source.item), &mut run, &vec![]);
    assert!(matches!(made, Ok(DictMade::Update(pairs, None)) if pairs.len() == 2));
}

fn places(of: &HeapRead<Dict>, among: &HeapRead<Dict>) -> Vec<Option<usize>> {
    let run = vm();
    of.item.iter().iter().map(|(key, _)| lookup(&among.item, *key, &run).place).collect()
}

#[test]
fn dictionaries_are_equal_in_any_order() {
    let run = vm();
    let a = filled(&[(1, 10), (2, 20)]);
    let b = filled(&[(2, 20), (1, 10)]);
    let c = filled(&[(2, 20), (1, 11)]);
    let none: Vec<bool> = vec![];
    let back: Vec<Option<usize>> = vec![];
    assert_eq!(a.py_eq_impl(Some(&b), None, None, &places(&a, &b), &back, &none, &none, &run).ok(), Some(Some(DictEq::Equal)));
    assert_eq!(a.py_eq_impl(Some(&c), None, None, &places(&a, &c), &back, &none, &none, &run).ok(), Some(Some(DictEq::Different)));
    assert_eq!(a.py_eq_impl(Some(&b), None, None, &back, &back, &none, &none, &run).ok(), Some(Some(DictEq::Lookup(Value::Int(1)))));
    assert_eq!(a.py_eq_impl(None, None, None, &back, &back, &none, &none, &run).ok(), Some(None));
}

#[test]
fn a_missing_count_is_zero() {
    let run = vm();
    let mut a = filled(&[(1, 1), (2, 0)]);
    let mut b = filled(&[(1, 1)]);
    let none: Vec<bool> = vec![];
    let (there, back) = (places(&a, &b), places(&b, &a));
    assert_eq!(a.py_eq_impl(Some(&b), None, None, &there, &back, &none, &none, &run).ok(), Some(Some(DictEq::Different)));
    a.item.make_counter();
    b.item.make_counter();
    assert_eq!(a.py_eq_impl(Some(&b), None, None, &there, &back, &none, &none, &run).ok(), Some(Some(DictEq::Equal)));
    assert_eq!(b.py_eq_impl(Some(&a), None, None, &back, &there, &none, &none, &run).ok(), Some(Some(DictEq::Equal)));
}

#[test]
fn a_spent_iterator_stays_spent() {
    let dict = filled(&[(1, 10)]);
    let mut state = DictIteratorState::new(3, 1);
    assert_eq!((state.source_id(), state.size_hint()), (3, 1));
    assert_eq!(state.next_item(&dict.item).ok().flatten(), Some((Value::Int(1), Value::Int(10))));
    assert_eq!(state.next_index(1).ok(), Some(None));
    assert_eq!(state.next_index(5).ok(), Some(None));
}

#[test]
fn a_changed_size_ends_an_iteration() {
    let mut state = DictIteratorState::new(3, 1);
    assert_eq!(state.next_index(1).ok(), Some(Some(0)));
    let (kind, message) = error(state.next_index(2));
    assert_eq!((kind, message.as_str()), (ExcType::RuntimeError, "dictionary changed size during iteration"));
    let dict = filled(&[(1, 10)]);
    let mut walk = DictIter::new(&dict.item);
    assert_eq!(walk.advance(1, &free()).ok(), Some(Some(0)));
    assert_eq!(walk.advance(1, &free()).ok(), Some(None));
    assert!(walk.advance(2, &free()).is_err());
}

#[test]
fn dictionaries_as_text() {
    let pairs = vec![("1".to_owned(), "'a'".to_owned()), ("2".to_owned(), "'b'".to_owned())];
    let none = vec![];
    assert_eq!(dict_repr(DictKind::plain(), "", &pairs, Written::All), "{1: 'a', 2: 'b'}");
    assert_eq!(dict_repr(DictKind::plain(), "", &none, Written::All), "{}");
    assert_eq!(
        dict_repr(DictKind::defaultdict(None), "None", &pairs, Written::All),
        "defaultdict(None, {1: 'a', 2: 'b'})"
    );
    assert_eq!(dict_repr(DictKind::counter(), "", &none, Written::All), "Counter()");
    assert_eq!(dict_repr(DictKind::counter(), "", &none, Written::TooDeep), "Counter({...})");
    assert_eq!(dict_repr(DictKind::plain(), "", &pairs, Written::OutOfTime), "{1: 'a', 2: 'b', ...[timeout]}");
}

#[test]
fn a_dictionary_lists_what_it_keeps_alive() {
    let mut dict = Dict::new();
    dict.set_without_growth_check(DictEntry { key: Value::Ref(4), value: Value::Ref(2), hash: 1 }, None);
    dict.make_defaultdict(Some(Value::Ref(9)));
    let mut ids = vec![];
    dict.py_dec_ref_ids(&mut ids);
    assert_eq!(ids, vec![9, 4, 2]);
}

#[test]
fn a_class_reads_its_members() {
    let mut run = vm();
    let base = Class::new(EitherStr::Heap("B".to_owned()), Dict::new(), vec![], None);
    let base = run.allocate(HeapData::Class(base));
    let mut class = HeapRead { item: Class::new(EitherStr::Heap("C".to_owned()), Dict::new(), vec![base], None) };
    assert_eq!(class.set_attr(Value::InternString(0), Value::Int(4), &run).ok(), Some(None));
    assert_eq!(class.set_attr(Value::InternString(0), Value::Int(5), &run).ok(), Some(Some(Value::Int(4))));
    assert_eq!(class.item.namespace().len(), 1);
    assert_eq!(class.py_getattr("a", 2, &mut run).ok(), Some(Value::Int(5)));
    assert_eq!(class.py_getattr("__module__", 2, &mut run).ok(), Some(Value::InternString(2)));
    let named = class.py_getattr("__name__", 2, &mut run).ok().expect("a name");
    assert_eq!(run.get_text(named), Some("C"));
    let (kind, message) = error(class.py_call_attr("zz", 2, &mut run));
    assert_eq!(kind, ExcType::AttributeError);
    assert_eq!(message, "type object 'C' has no attribute 'zz'");
    assert_eq!(class.py_repr(&run), "<class 'C'>");
    assert_eq!(class.py_getitem(&run).message.as_deref(), Some("type 'C' is not subscriptable"));
    let mut ids = vec![];
    class.item.py_dec_ref_ids(&mut ids);
    assert_eq!(ids, vec![base]);
}

#[test]
fn a_class_inherits_members() {
    let mut run = vm();
    let mut first = HeapRead { item: Class::new(EitherStr::Heap("A".to_owned()), Dict::new(), vec![], None) };
    assert!(first.set_attr(Value::InternString(0), Value::Int(1), &run).is_ok());
    assert!(first.set_attr(Value::InternString(1), Value::Int(2), &run).is_ok());
    let first = run.allocate(HeapData::Class(first.item));
    let second = Class::new(EitherStr::Heap("B".to_owned()), Dict::new(), vec![first], None);
    let second = run.allocate(HeapData::Class(second));
    let mut third = HeapRead { item: Class::new(EitherStr::Heap("C".to_owned()), Dict::new(), vec![second], None) };
    assert!(third.set_attr(Value::InternString(1), Value::Int(3), &run).is_ok());
    assert_eq!(third.py_getattr("a", 2, &mut run).ok(), Some(Value::Int(1)));
    assert_eq!(third.py_getattr("b", 2, &mut run).ok(), Some(Value::Int(3)));
    assert_eq!(third.py_call_attr("a", 2, &mut run).ok(), Some(Value::Int(1)));
    assert_eq!(third.py_getattr("__module__", 2, &mut run).ok(), Some(Value::InternString(2)));
    let (kind, message) = error(third.py_getattr("zz", 2, &mut run));
    assert_eq!((kind, message.as_str()), (ExcType::AttributeError, "type object 'C' has no attribute 'zz'"));
    assert_eq!(run.py_type_name(Value::Ref(first)), "type");
}

#[test]
fn a_key_stands_once() {
    let dict = filled(&[(1, 10), (2, 20), (1, 11)]);
    assert_eq!(dict.item.len(), 2);
    let run = vm();
    let mut dict = dict;
    // `True` is the key that `1` is.
    let found = match start_probe(&dict.item, Value::Bool(true), 1, &run).0 {
        ProbeStep::Found(place) => Lookup { hash: 1, place: Some(place) },
        _ => panic!("found"),
    };
    assert!(dict.py_setitem(Value::Bool(true), Value::Int(12), found, &run).is_ok());
    assert_eq!(dict.item.len(), 2);
}

#[test]
fn growth_is_held_against_the_memory_limit() {
    let mut tracker = ResourceTracker::new(Some(100), None);
    assert!(check_growth(3, 4, 4, &tracker).is_ok());
    // Four entries of forty bytes are more than is allowed.
    assert!(matches!(
        check_growth(0, 0, 3, &tracker),
        Err(ResourceError::Memory { limit: 100, used: 160 })
    ));
    assert!(check_growth(3, 4, 3, &tracker).is_ok());
    tracker.allocated = 99;
    assert!(check_growth(3, 4, 4, &tracker).is_ok());
    assert!(matches!(
        check_growth(4, 8, 4, &tracker),
        Err(ResourceError::Memory { limit: 100, used: 135 })
    ));
    assert!(check_growth(usize::MAX, usize::MAX, usize::MAX, &free()).is_ok());
}

#[test]
fn a_class_is_known_by_one_identity() {
    let mut class = Class::new(EitherStr::Heap("C".to_owned()), Dict::new(), vec![], None);
    assert_eq!(class.uuid(), None);
    assert_eq!(class.boundary_uuid(7), 7);
    assert_eq!(class.boundary_uuid(8), 7);
    assert_eq!(class.uuid(), Some(7));
}

#[test]
fn a_class_keeps_its_options() {
    let mut class = HeapRead { item: Class::new(EitherStr::Heap("C".to_owned()), Dict::new(), vec![], None) };
    assert_eq!(class.item.dataclass_options(), DataclassOptions::default());
    class.set_dataclass_options(DataclassOptions { eq: false, frozen: true });
    assert_eq!(class.item.dataclass_options(), DataclassOptions { eq: false, frozen: true });
    assert_eq!((class.item.builtin_exc().is_none(), class.item.inherits_str()), (true, false));
}

#[test]
fn texts_hash_as_texts_do() {
    for text in ["", "a", "caf\u{e9}", "a longer text than eight bytes"] {
        let mut hasher = DefaultHasher::new();
        text.hash(&mut hasher);
        assert_eq!(text_hash(text), hasher.finish());
    }
}

#[test]
fn a_walk_looks_at_the_time_only() {
    let dict = filled(&[(1, 10)]);
    let mut tracker = ResourceTracker::new(Some(10), None);
    tracker.allocated = 20;
    let mut walk = DictIter::new(&dict.item);
    assert_eq!(walk.next_owned(&dict.item, &tracker).ok(), Some(Some((Value::Int(1), Value::Int(10)))));
    assert_eq!(walk.next_owned(&dict.item, &tracker).ok(), Some(None));
}

#[test]
fn a_member_that_was_set_is_read_back() {
    let mut run = vm();
    let mut class = HeapRead { item: Class::new(EitherStr::Heap("C".to_owned()), Dict::new(), vec![], None) };
    assert_eq!(class.set_attr(Value::InternString(0), Value::Int(1), &run).ok(), Some(None));
    assert_eq!(class.set_attr(Value::InternString(1), Value::Int(2), &run).ok(), Some(None));
    let same = Value::Ref(run.allocate(HeapData::Str("a".to_owned())));
    assert_eq!(class.set_attr(same, Value::Int(3), &run).ok(), Some(Some(Value::Int(1))));
    assert_eq!(class.item.namespace.len(), 2);
    assert_eq!(class.py_getattr("a", 2, &mut run).ok(), Some(Value::Int(3)));
    assert_eq!(class.py_getattr("b", 2, &mut run).ok(), Some(Value::Int(2)));
}

#[test]
fn a_dictionary_keeps_its_size_while_it_is_compared() {
    let (a, b) = (filled(&[(1, 10), (2, 20)]), filled(&[(1, 10), (2, 20)]));
    let run = vm();
    let none = vec![];
    let there = places(&a, &b);
    assert_eq!(a.eq_dict(&b, Some(2), &there, &none, &run).ok(), Some(DictEq::Equal));
    let (kind, message) = error(a.eq_dict(&b, Some(1), &there, &none, &run));
    assert_eq!((kind, message.as_str()), (ExcType::RuntimeError, "dictionary changed size during iteration"));
    let back = places(&b, &a);
    assert_eq!(a.eq_counter(&b, Some(2), None, &there, &back, &none, &none, &run).ok(), Some(DictEq::Equal));
    assert!(a.eq_counter(&b, Some(3), None, &there, &back, &none, &none, &run).is_err());
    assert!(a.eq_counter(&b, Some(2), Some(3), &there, &back, &none, &none, &run).is_err());
    let other = filled(&[(1, 10)]);
    assert_eq!(a.eq_dict(&other, None, &vec![], &none, &run).ok(), Some(DictEq::Different));
}

#[test]
fn a_comparison_ends_when_its_time_is_over() {
    let (a, b) = (filled(&[(1, 10)]), filled(&[(1, 10)]));
    let run = VM::new(vec![], vec![], ResourceTracker::new(None, Some(0)));
    while std::time::Instant::now() <= run.tracker.started {}
    assert_eq!(error(a.eq_dict(&b, None, &places(&a, &b), &vec![], &run)).0, ExcType::TimeoutError);
}

#[test]
fn a_long_item_is_walked_within_the_limits() {
    let mut run = VM::new(vec![], vec![], ResourceTracker::new(None, Some(0)));
    let long = vec![Value::Int(1); 5000];
    let long = Value::Ref(run.allocate(HeapData::Tuple(long)));
    let short = Value::Ref(run.allocate(HeapData::Tuple(vec![Value::Int(1)])));
    while std::time::Instant::now() <= run.tracker.started {}
    for (item, expected) in [(long, ExcType::TimeoutError), (short, ExcType::ValueError)] {
        let list = Value::Ref(run.allocate(HeapData::List(vec![item])));
        let made = Dict::init(&args(vec![list]), None, &mut run, &vec![]);
        let Ok(DictMade::Update(pairs, Some(failure))) = made else { panic!("an error") };
        assert!(pairs.is_empty());
        assert_eq!(failure.exc_type, expected);
    }
}
