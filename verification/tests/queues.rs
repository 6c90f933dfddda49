use monty::args::ArgValues;
use monty::bytes::{Question, Reply};
use monty::deque::{Deque, DequeMade};
use monty::deque_ops::{DequeIterator, DequeOrder, PairOrder};
use monty::dict_ops::Written;
use monty::equality::{compare_lists, eq_is_native, probe_native_eq, scan_equal, tally_equal, SameItems, Scan, Tally};
use monty::exceptions::{ExcType, RunResult};
use monty::heap::{HeapData, HeapRead, VM};
use monty::resource_checks::ResourceTracker;
use monty::value::Value;

fn free() -> ResourceTracker {
    ResourceTracker::new(None, None)
}

fn vm() -> VM {
    VM::new(vec!["a".to_owned(), "b".to_owned()], vec![], free())
}

fn ints(numbers: &[i64]) -> Vec<Value> {
    numbers.iter().map(|n| Value::Int(*n)).collect()
}

fn queue(numbers: &[i64], maxlen: Option<usize>) -> HeapRead<Deque> {
    HeapRead { item: Deque::new(ints(numbers), maxlen).0 }
}

fn args(positional: Vec<Value>) -> ArgValues {
    ArgValues { positional, keywords: vec![] }
}

fn call(queue: &mut HeapRead<Deque>, name: &str, positional: Vec<Value>) -> RunResult<DequeMade> {
    queue.py_call_attr(99, name, &args(positional), &vm(), None, &vec![])
}

fn plain(result: RunResult<DequeMade>) -> Value {
    match result {
        Ok(DequeMade::Plain(value)) => value,
        Ok(_) => panic!("a value was expected"),
        Err(error) => panic!("{:?}", error.message),
    }
}

fn error<T>(result: RunResult<T>) -> (ExcType, String) {
    match result {
        Ok(_) => panic!("an error was expected"),
        Err(error) => (error.exc_type, error.message.unwrap_or_default()),
    }
}

#[test]
fn a_new_queue_keeps_the_last_items() {
    let (deque, dropped) = Deque::new(ints(&[1, 2, 3]), Some(2));
    assert_eq!(deque.iter(), ints(&[2, 3]));
    assert_eq!(dropped, ints(&[1]));
    assert_eq!((deque.len(), deque.maxlen(), deque.contains_refs()), (2, Some(2), false));
    assert_eq!(deque.get(0), Some(Value::Int(2)));
    assert_eq!(deque.get(2), None);
}

#[test]
fn a_full_queue_drops_the_other_end() {
    let mut deque = queue(&[1, 2], Some(2));
    deque.append(Value::Int(3));
    assert_eq!(deque.item.iter(), ints(&[2, 3]));
    deque.appendleft(Value::Int(0));
    assert_eq!(deque.item.iter(), ints(&[0, 2]));
}

#[test]
fn every_change_of_the_length_counts() {
    let mut deque = queue(&[], None);
    let before = deque.item.state();
    deque.append(Value::Int(1));
    assert_ne!(deque.item.state(), before);
    let before = deque.item.state();
    assert!(deque.py_delitem(Value::Int(0), &vm()).is_ok());
    assert_ne!(deque.item.state(), before);
}

#[test]
fn items_are_taken_from_both_ends() {
    let mut deque = queue(&[1, 2, 3], None);
    assert_eq!(plain(call(&mut deque, "pop", vec![])), Value::Int(3));
    assert_eq!(plain(call(&mut deque, "popleft", vec![])), Value::Int(1));
    assert_eq!(plain(call(&mut deque, "pop", vec![])), Value::Int(2));
    let (kind, message) = error(call(&mut deque, "pop", vec![]));
    assert_eq!((kind, message.as_str()), (ExcType::IndexError, "pop from an empty deque"));
}

#[test]
fn rotating_turns_the_items() {
    let mut deque = queue(&[1, 2, 3, 4], None);
    assert_eq!(plain(call(&mut deque, "rotate", vec![Value::Int(1)])), Value::NoneValue);
    assert_eq!(deque.item.iter(), ints(&[4, 1, 2, 3]));
    plain(call(&mut deque, "rotate", vec![Value::Int(-6)]));
    assert_eq!(deque.item.iter(), ints(&[2, 3, 4, 1]));
}

#[test]
fn reversing_twice_changes_nothing() {
    let mut deque = queue(&[1, 2, 3], None);
    plain(call(&mut deque, "reverse", vec![]));
    assert_eq!(deque.item.iter(), ints(&[3, 2, 1]));
    plain(call(&mut deque, "reverse", vec![]));
    assert_eq!(deque.item.iter(), ints(&[1, 2, 3]));
}

#[test]
fn items_are_found_counted_and_removed() {
    let mut deque = queue(&[1, 2, 1], None);
    assert_eq!(plain(call(&mut deque, "count", vec![Value::Int(1)])), Value::Int(2));
    assert_eq!(plain(call(&mut deque, "index", vec![Value::Int(2)])), Value::Int(1));
    plain(call(&mut deque, "remove", vec![Value::Int(1)]));
    assert_eq!(deque.item.iter(), ints(&[2, 1]));
    let (kind, _) = error(call(&mut deque, "remove", vec![Value::Int(9)]));
    assert_eq!(kind, ExcType::ValueError);
}

#[test]
fn inserting_into_a_full_queue_is_refused() {
    let mut deque = queue(&[1, 2], Some(2));
    let (kind, message) = error(call(&mut deque, "insert", vec![Value::Int(0), Value::Int(9)]));
    assert_eq!((kind, message.as_str()), (ExcType::IndexError, "deque already at its maximum size"));
    let mut open = queue(&[1, 2], None);
    plain(call(&mut open, "insert", vec![Value::Int(1), Value::Int(9)]));
    assert_eq!(open.item.iter(), ints(&[1, 9, 2]));
}

#[test]
fn extending_takes_lists_and_asks_for_others() {
    let mut run = vm();
    let list = Value::Ref(run.allocate(HeapData::List(ints(&[7, 8]))));
    let mut deque = queue(&[1], None);
    let made = deque.py_call_attr(99, "extend", &args(vec![list]), &run, None, &vec![]);
    assert_eq!(plain(made), Value::NoneValue);
    assert_eq!(deque.item.iter(), ints(&[1, 7, 8]));
    let made = deque.py_call_attr(99, "extendleft", &args(vec![list]), &run, None, &vec![]);
    assert_eq!(plain(made), Value::NoneValue);
    assert_eq!(deque.item.iter(), ints(&[8, 7, 1, 7, 8]));
    let other = Value::Ref(run.allocate(HeapData::Other { named: "range".to_owned(), iterable: true }));
    let made = deque.py_call_attr(99, "extend", &args(vec![other]), &run, None, &vec![]);
    assert!(matches!(made, Ok(DequeMade::Ask(Question::Items(value))) if value == other));
    let reply = Some(Reply::Items(ints(&[5]), None));
    let made = deque.py_call_attr(99, "extend", &args(vec![other]), &run, reply, &vec![]);
    assert_eq!(plain(made), Value::NoneValue);
    assert_eq!(deque.item.get(5), Some(Value::Int(5)));
}

#[test]
fn an_unknown_method_of_a_queue_is_an_error() {
    let mut deque = queue(&[], None);
    let (kind, message) = error(call(&mut deque, "sort", vec![]));
    assert_eq!(kind, ExcType::AttributeError);
    assert_eq!(message, "'collections.deque' object has no attribute 'sort'");
}

#[test]
fn a_length_limit_must_not_be_negative() {
    let run = vm();
    let made = Deque::init(&run, &args(vec![Value::NoneValue, Value::Int(-1)]), None);
    let (kind, _) = error(made);
    assert!(kind == ExcType::ValueError || kind == ExcType::TypeError);
}

#[test]
fn subscripts_of_a_queue() {
    let mut deque = queue(&[1, 2, 3], None);
    let run = vm();
    assert_eq!(deque.py_getitem(Value::Int(-1), &run).ok(), Some(Value::Int(3)));
    assert!(deque.py_setitem(Value::Int(0), Value::Int(9), &run).is_ok());
    assert_eq!(deque.item.iter(), ints(&[9, 2, 3]));
    let (kind, message) = error(deque.py_getitem(Value::Int(3), &run));
    assert_eq!((kind, message.as_str()), (ExcType::IndexError, "deque index out of range"));
}

#[test]
fn queues_are_compared_item_by_item() {
    let run = vm();
    let a = queue(&[1, 2], None);
    let b = queue(&[1, 2], Some(5));
    assert_eq!(a.py_eq(&b, &vec![], &run), SameItems::Equal);
    assert_eq!(a.py_eq(&queue(&[1], None), &vec![], &run), SameItems::Different);
    assert_eq!(a.py_contains(Value::Int(2), &vec![], &run), Scan::Found(1));
}

#[test]
fn queues_are_ordered_by_their_first_difference() {
    let a = queue(&[1, 2], None);
    let b = queue(&[1, 3], None);
    assert_eq!(a.py_order(&b, &vec![]), DequeOrder::Less);
    assert_eq!(b.py_order(&a, &vec![]), DequeOrder::Greater);
    assert_eq!(a.py_order(&queue(&[1], None), &vec![]), DequeOrder::Greater);
    let (texts, _) = Deque::new(vec![Value::InternString(0), Value::InternString(1)], None);
    let texts = HeapRead { item: texts };
    let (x, y) = (Value::InternString(0), Value::Int(1));
    assert_eq!(texts.py_order(&a, &vec![]), DequeOrder::Compare(x, y));
    assert_eq!(texts.py_order(&a, &vec![PairOrder::Incomparable]), DequeOrder::Incomparable);
    assert_eq!(texts.py_order(&a, &vec![PairOrder::Equal, PairOrder::Greater]), DequeOrder::Greater);
}

#[test]
fn queues_add_and_repeat() {
    let run = vm();
    let a = queue(&[1, 2], Some(3));
    let Ok(DequeMade::Deque(sum)) = a.py_add(&queue(&[3, 4], None), &run) else { panic!("a queue") };
    assert_eq!(sum.iter(), ints(&[2, 3, 4]));
    let Ok(Some(DequeMade::Deque(twice))) = a.py_mul_impl(Value::Int(2), &run) else { panic!("a queue") };
    assert_eq!(twice.iter(), ints(&[2, 1, 2]));
}

#[test]
fn attributes_of_a_queue() {
    let deque = queue(&[], Some(4));
    assert_eq!(deque.py_getattr("maxlen"), Some(Value::Int(4)));
    assert_eq!(deque.py_getattr("other"), None);
    assert_eq!(error(deque.py_set_attr("maxlen")).0, ExcType::AttributeError);
}

#[test]
fn a_changed_queue_ends_its_iteration() {
    let mut deque = queue(&[1, 2], None);
    let mut iterator = DequeIterator::new(5, &deque.item);
    assert_eq!(iterator.size_hint(&deque.item), 2);
    assert_eq!(iterator.py_next(&deque.item).ok().flatten(), Some(Value::Int(1)));
    deque.append(Value::Int(3));
    let (kind, message) = error(iterator.py_next(&deque.item));
    assert_eq!((kind, message.as_str()), (ExcType::RuntimeError, "deque mutated during iteration"));
}

#[test]
fn a_queue_lists_what_it_keeps_alive() {
    let (mut deque, _) = Deque::new(vec![Value::Ref(4), Value::Int(1), Value::Ref(2)], None);
    let mut ids = vec![];
    deque.py_dec_ref_ids(&mut ids);
    assert_eq!(ids, vec![4, 2]);
}

#[test]
fn native_values_are_compared_at_once() {
    let mut run = vm();
    let text = Value::Ref(run.allocate(HeapData::Str("a".to_owned())));
    assert_eq!(probe_native_eq(Value::Int(1), Value::Bool(true), &run), Some(true));
    assert_eq!(probe_native_eq(Value::InternString(0), text, &run), Some(true));
    assert_eq!(probe_native_eq(text, Value::InternString(0), &run), Some(true));
    assert_eq!(probe_native_eq(Value::InternString(0), Value::InternString(1), &run), Some(false));
    let object = Value::Ref(run.allocate(HeapData::Other { named: "C".to_owned(), iterable: false }));
    let other = Value::Ref(run.allocate(HeapData::Other { named: "C".to_owned(), iterable: false }));
    assert_eq!(probe_native_eq(object, other, &run), None);
    assert!(eq_is_native(Value::Int(1), &run) && !eq_is_native(object, &run));
}

#[test]
fn other_values_are_compared_by_the_host() {
    let mut run = vm();
    let object = Value::Ref(run.allocate(HeapData::Other { named: "C".to_owned(), iterable: false }));
    let items = vec![object, Value::Int(2)];
    assert_eq!(scan_equal(&items, Value::Int(2), 0, 2, &vec![], &run), Scan::Compare(object, Value::Int(2)));
    assert_eq!(scan_equal(&items, Value::Int(2), 0, 2, &vec![false], &run), Scan::Found(1));
    assert_eq!(scan_equal(&items, Value::Int(2), 0, 2, &vec![true], &run), Scan::Found(0));
    assert_eq!(tally_equal(&items, Value::Int(2), &vec![true], &run), Tally::Count(2));
    assert_eq!(compare_lists(&items, &items, &vec![], &run), SameItems::Equal);
}

#[test]
fn an_extension_in_place_keeps_the_queue() {
    let mut run = vm();
    let list = Value::Ref(run.allocate(HeapData::List(ints(&[7]))));
    let mut deque = queue(&[1], None);
    assert!(matches!(deque.py_iadd_impl(None, list, &run, None), Ok(None)));
    assert_eq!(deque.item.iter(), ints(&[1]));
    assert!(matches!(deque.py_iadd_impl(Some(99), list, &run, None), Ok(Some(_))));
    assert_eq!(deque.item.iter(), ints(&[1, 7]));
    assert!(matches!(deque.py_iadd_impl(Some(99), Value::Ref(99), &run_with(100), None), Ok(Some(_))));
    assert_eq!(deque.item.iter(), ints(&[1, 7, 1, 7]));
    assert_eq!(error(deque.py_iadd_impl(Some(99), Value::Int(1), &run, None)).0, ExcType::TypeError);
}

/// A run whose heap holds so many objects.
fn run_with(count: usize) -> VM {
    let mut run = vm();
    for _ in 0..count {
        run.allocate(HeapData::Other { named: "collections.deque".to_owned(), iterable: true });
    }
    run
}

#[test]
fn queues_as_text() {
    let items = vec!["1".to_owned(), "2".to_owned()];
    assert_eq!(queue(&[1, 2], None).py_repr(&items, Written::All), "deque([1, 2])");
    assert_eq!(queue(&[1, 2], Some(3)).py_repr(&items, Written::All), "deque([1, 2], maxlen=3)");
    assert_eq!(queue(&[], Some(3)).py_repr(&vec![], Written::All), "deque([], maxlen=3)");
    assert_eq!(queue(&[1], None).py_repr(&vec![], Written::TooDeep), "deque(...)");
}

#[test]
fn a_reversal_does_not_end_an_iteration() {
    let mut deque = queue(&[1, 2], None);
    let mut iterator = DequeIterator::new(5, &deque.item);
    assert_eq!(iterator.py_next(&deque.item).ok().flatten(), Some(Value::Int(1)));
    plain(call(&mut deque, "reverse", vec![]));
    assert_eq!(iterator.py_next(&deque.item).ok().flatten(), Some(Value::Int(1)));
    assert_eq!(iterator.py_next(&deque.item).ok(), Some(None));
}

#[test]
fn an_interned_large_integer_is_too_large() {
    let run = vm();
    let large = Value::InternLongInt(0, false);
    let small = Value::InternLongInt(0, true);
    let too_large = (ExcType::OverflowError, "Python int too large to convert to C ssize_t".to_owned());
    assert_eq!(error(Deque::init(&run, &args(vec![Value::NoneValue, large]), None)), too_large);
    let mut deque = queue(&[1, 2], None);
    assert_eq!(error(call(&mut deque, "rotate", vec![large])), too_large);
    assert_eq!(error(call(&mut deque, "insert", vec![small, Value::Int(9)])), too_large);
    assert_eq!(plain(call(&mut deque, "index", vec![Value::Int(2), small, large])), Value::Int(1));
}

#[test]
fn turning_there_and_back_changes_nothing() {
    for n in [-7, -3, -1, 0, 1, 2, 5, 9] {
        let mut deque = queue(&[1, 2, 3, 4, 5], None);
        plain(call(&mut deque, "rotate", ints(&[n])));
        for (i, item) in [1, 2, 3, 4, 5].iter().enumerate() {
            let place = (i as i64 + n).rem_euclid(5) as usize;
            assert_eq!(deque.item.get(place), Some(Value::Int(*item)));
        }
        plain(call(&mut deque, "rotate", ints(&[-n])));
        assert_eq!(deque.item.iter(), ints(&[1, 2, 3, 4, 5]));
    }
}

#[test]
fn an_appended_item_is_popped_again() {
    let mut deque = queue(&[1, 2], Some(3));
    plain(call(&mut deque, "append", ints(&[3])));
    assert_eq!(plain(call(&mut deque, "pop", vec![])), Value::Int(3));
    assert_eq!(deque.item.iter(), ints(&[1, 2]));
}

#[test]
fn repeating_looks_at_the_time_only() {
    let mut tracker = ResourceTracker::new(Some(10), None);
    tracker.allocated = 20;
    let run = VM::new(vec![], vec![], tracker);
    for maxlen in [None, Some(3)] {
        let Ok(Some(DequeMade::Deque(made))) = queue(&[1, 2], maxlen).py_mul_impl(Value::Int(2), &run) else {
            panic!("a queue")
        };
        let all = ints(&[1, 2, 1, 2]);
        assert_eq!(made.iter(), if maxlen.is_some() { all[1..].to_vec() } else { all });
    }
}
