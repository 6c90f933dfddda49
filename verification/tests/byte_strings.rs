use monty::args::ArgValues;
use monty::bytes::{get_byte_at_index, Bytes, BytesIterator, Question, Reply};
use monty::bytes_call::{bytes_fromhex, call_bytes_method, Called};
use monty::bytes_ops::{bytes_contains, bytes_order, py_add_impl, py_getitem, py_mul_impl, slice_collect, Order};
use monty::bytes::Made;
use monty::bytes_text::{
    bytes_change_case, bytes_from_hex, bytes_justify, bytes_rsplitn_whitespace, bytes_split_lines, bytes_split_whitespace,
    bytes_strip_ends, bytes_test, bytes_to_hex, BytesPredicate, CaseChange, Justify, StripSide,
};
use monty::exceptions::{ExcType, RunResult};
use monty::heap::{HeapData, HeapRead, VM};
use monty::resource_checks::{check_repeat_size, check_replace_size, ResourceTracker};
use monty::scan::{
    bytes_replace_all, bytes_replace_n, bytes_rsplitn_by_seq, bytes_split_by_seq, bytes_splitn_by_seq, count_non_overlapping,
    find_subsequence, find_with, rfind_subsequence, rfind_with,
};
use monty::value::{EitherStr, Value};

fn free() -> ResourceTracker {
    ResourceTracker::new(None, None)
}

fn vm(strings: &[&str]) -> VM {
    VM::new(strings.iter().map(|text| (*text).to_owned()).collect(), vec![], free())
}

fn bytes(vm: &mut VM, data: &[u8]) -> Value {
    Value::Ref(vm.allocate(HeapData::Bytes(Bytes::new(data.to_vec()))))
}

fn text(vm: &mut VM, text: &str) -> Value {
    Value::Ref(vm.allocate(HeapData::Str(text.to_owned())))
}

fn args(positional: Vec<Value>) -> ArgValues {
    ArgValues { positional, keywords: vec![] }
}

fn error<T>(result: RunResult<T>) -> (ExcType, String) {
    match result {
        Ok(_) => panic!("an error was expected"),
        Err(error) => (error.exc_type, error.message.unwrap_or_default()),
    }
}

/// Calls a method of a byte string by its name, which is interned first.
fn call(run: &mut VM, data: &[u8], positional: Vec<Value>) -> RunResult<Called> {
    call_bytes_method(data, 0, &args(positional), run, None)
}

fn done(result: RunResult<Called>) -> Value {
    match result {
        Ok(Called::Done(value)) => value,
        Ok(Called::Ask(_)) => panic!("nothing was to be asked"),
        Err(error) => panic!("{:?}", error.message),
    }
}

fn data_of(run: &VM, value: Value) -> Vec<u8> {
    run.get_bytes(value).expect("bytes").to_vec()
}

fn list_of(run: &VM, value: Value) -> Vec<Vec<u8>> {
    let Value::Ref(id) = value else { panic!("a list") };
    match &run.heap[id] {
        HeapData::List(items) | HeapData::Tuple(items) => items.iter().map(|item| data_of(run, *item)).collect(),
        _ => panic!("a list"),
    }
}

#[test]
fn an_index_counts_from_either_end() {
    assert_eq!(get_byte_at_index(b"abc", 0), Some(97));
    assert_eq!(get_byte_at_index(b"abc", -1), Some(99));
    assert_eq!(get_byte_at_index(b"abc", 3), None);
    assert_eq!(get_byte_at_index(b"abc", -4), None);
    assert_eq!(get_byte_at_index(b"", 0), None);
    assert_eq!(get_byte_at_index(b"abc", i64::MIN), None);
}

#[test]
fn a_byte_string_keeps_its_hash() {
    let mut made = Bytes::new(vec![1, 2]);
    assert_eq!(made.as_slice(), &[1, 2]);
    assert_eq!(made.py_hash(7), 7);
    assert_eq!(made.py_hash(8), 7);
    assert!(made.py_eq(&Bytes::new(vec![1, 2])));
    assert!(!made.py_eq(&Bytes::new(vec![1])));
}

#[test]
fn the_first_and_the_last_place_are_found() {
    let tracker = free();
    assert_eq!(find_subsequence(b"abcabc", b"bc", &tracker).ok().flatten(), Some(1));
    assert_eq!(rfind_subsequence(b"abcabc", b"bc", &tracker).ok().flatten(), Some(4));
    assert_eq!(find_subsequence(b"abc", b"x", &tracker).ok().flatten(), None);
    assert_eq!(find_with(b"abcabc", b"bc", 2, &tracker).ok().flatten(), Some(4));
    assert_eq!(rfind_with(b"abcabc", b"bc", 5, &tracker).ok().flatten(), Some(1));
}

#[test]
fn a_place_across_chunks_is_found() {
    let tracker = free();
    let mut hay = vec![0u8; 200_000];
    hay[65_535] = 1;
    hay[65_536] = 2;
    hay[131_071] = 1;
    hay[131_072] = 2;
    assert_eq!(find_subsequence(&hay, &[1, 2], &tracker).ok().flatten(), Some(65_535));
    assert_eq!(rfind_subsequence(&hay, &[1, 2], &tracker).ok().flatten(), Some(131_071));
    assert_eq!(count_non_overlapping(&hay, &[1, 2], &tracker).ok(), Some(2));
}

#[test]
fn occurrences_are_counted_without_overlap() {
    assert_eq!(count_non_overlapping(b"aaaaa", b"aa", &free()).ok(), Some(2));
    let mut run = vm(&["count"]);
    let empty = bytes(&mut run, b"");
    assert_eq!(done(call(&mut run, b"abc", vec![empty])), Value::Int(4));
}

#[test]
fn split_parts_join_to_the_whole() {
    let tracker = free();
    let parts = bytes_split_by_seq(b"a,b,,c", b",", &tracker).ok().expect("parts");
    assert_eq!(parts, vec![b"a".to_vec(), b"b".to_vec(), b"".to_vec(), b"c".to_vec()]);
    assert_eq!(parts.join(&b','), b"a,b,,c");
    let two = bytes_splitn_by_seq(b"a,b,c", b",", 2, &tracker).ok().expect("parts");
    assert_eq!(two, vec![b"a".to_vec(), b"b,c".to_vec()]);
    let last = bytes_rsplitn_by_seq(b"a,b,c", b",", 2, &tracker).ok().expect("parts");
    assert_eq!(last, vec![b"a,b".to_vec(), b"c".to_vec()]);
    assert_eq!(last.join(&b','), b"a,b,c");
}

#[test]
fn replacing_goes_from_the_left() {
    let tracker = free();
    assert_eq!(bytes_replace_all(b"aXbX", b"X", b"--", &tracker).ok(), Some(b"a--b--".to_vec()));
    assert_eq!(bytes_replace_n(b"aXbX", b"X", b"", 1, &tracker).ok(), Some(b"abX".to_vec()));
    assert_eq!(bytes_replace_all(b"ab", b"", b".", &tracker).ok(), Some(b".a.b.".to_vec()));
    assert_eq!(bytes_replace_n(b"ab", b"", b".", 2, &tracker).ok(), Some(b".a.b".to_vec()));
}

#[test]
fn case_changes_reach_letters_only() {
    assert_eq!(bytes_change_case(CaseChange::Upper, b"aB1\xe9"), b"AB1\xe9");
    assert_eq!(bytes_change_case(CaseChange::Lower, b"AB"), b"ab");
    assert_eq!(bytes_change_case(CaseChange::Capitalize, b"hELLO w"), b"Hello w");
    assert_eq!(bytes_change_case(CaseChange::Title, b"they're bill's"), b"They'Re Bill'S");
    assert_eq!(bytes_change_case(CaseChange::Swapcase, b"aBc"), b"AbC");
}

#[test]
fn questions_about_bytes() {
    assert!(bytes_test(BytesPredicate::Isalpha, b"ab") && !bytes_test(BytesPredicate::Isalpha, b""));
    assert!(bytes_test(BytesPredicate::Isdigit, b"09") && !bytes_test(BytesPredicate::Isdigit, b"0a"));
    assert!(bytes_test(BytesPredicate::Isalnum, b"0a"));
    assert!(bytes_test(BytesPredicate::Isspace, b" \t\x0b") && !bytes_test(BytesPredicate::Isspace, b"\x1c"));
    assert!(bytes_test(BytesPredicate::Islower, b"a1") && !bytes_test(BytesPredicate::Islower, b"1"));
    assert!(bytes_test(BytesPredicate::Isupper, b"A") && !bytes_test(BytesPredicate::Isupper, b"Aa"));
    assert!(bytes_test(BytesPredicate::Isascii, b"") && !bytes_test(BytesPredicate::Isascii, b"\x80"));
    assert!(bytes_test(BytesPredicate::Istitle, b"Ab Cd") && !bytes_test(BytesPredicate::Istitle, b"AB"));
}

#[test]
fn stripping_twice_is_stripping_once() {
    let once = bytes_strip_ends(StripSide::Both, b"  ab ", None);
    assert_eq!(once, b"ab");
    assert_eq!(bytes_strip_ends(StripSide::Both, &once, None), once);
    assert_eq!(bytes_strip_ends(StripSide::Start, b"xxaxx", Some(b"x")), b"axx");
    assert_eq!(bytes_strip_ends(StripSide::End, b"xyaxy", Some(b"xy")), b"xya");
}

#[test]
fn white_space_separates_words() {
    assert_eq!(bytes_split_whitespace(b"  a  b "), vec![b"a".to_vec(), b"b".to_vec()]);
    assert_eq!(bytes_rsplitn_whitespace(b" a b c ", 1), vec![b" a b".to_vec(), b"c".to_vec()]);
}

#[test]
fn kept_line_ends_make_the_whole() {
    let lines = bytes_split_lines(b"a\nb\r\nc\rd", true);
    assert_eq!(lines.concat(), b"a\nb\r\nc\rd");
    assert_eq!(lines.len(), 4);
    assert_eq!(bytes_split_lines(b"a\nb\r\n", false), vec![b"a".to_vec(), b"b".to_vec()]);
}

#[test]
fn padding_fills_to_the_width() {
    assert_eq!(bytes_justify(Justify::Center, b"ab", 5, b'*'), b"*ab**");
    assert_eq!(bytes_justify(Justify::Left, b"ab", 4, b' '), b"ab  ");
    assert_eq!(bytes_justify(Justify::Right, b"ab", 4, b' '), b"  ab");
    assert_eq!(bytes_justify(Justify::Zeros, b"-42", 5, b'0'), b"-0042");
    assert_eq!(bytes_justify(Justify::Zeros, b"abc", 2, b'0'), b"abc");
}

#[test]
fn hex_digits_go_both_ways() {
    let hex = bytes_to_hex(&[0x00, 0xab, 0xff], None, 1);
    assert_eq!(hex, "00abff");
    let chars: Vec<char> = hex.chars().collect();
    assert_eq!(bytes_from_hex(&chars).ok(), Some(vec![0x00, 0xab, 0xff]));
    assert_eq!(bytes_to_hex(&[1, 2, 3], Some(':'), 2), "01:0203");
    assert_eq!(bytes_to_hex(&[1, 2, 3], Some(':'), -2), "0102:03");
    assert_eq!(bytes_to_hex(&[1, 2], Some(':'), 0), "0102");
    assert_eq!(bytes_to_hex(&[1, 2], Some(':'), i64::MIN), "0102");
}

#[test]
fn wrong_hex_digits_are_placed() {
    let chars: Vec<char> = "0g".chars().collect();
    assert_eq!(
        error(bytes_from_hex(&chars)),
        (ExcType::ValueError, "non-hexadecimal number found in fromhex() arg at position 1".to_owned())
    );
    let odd: Vec<char> = "0".chars().collect();
    assert_eq!(
        error(bytes_from_hex(&odd)),
        (ExcType::ValueError, "fromhex() arg must contain an even number of hexadecimal digits".to_owned())
    );
}

#[test]
fn methods_are_called_by_name() {
    let mut run = vm(&["upper"]);
    let value = done(call(&mut run, b"abc", vec![]));
    assert_eq!(data_of(&run, value), b"ABC");
    let mut run = vm(&["split"]);
    let sep = bytes(&mut run, b",");
    let value = done(call(&mut run, b"a,b", vec![sep]));
    assert_eq!(list_of(&run, value), vec![b"a".to_vec(), b"b".to_vec()]);
    let mut run = vm(&["partition"]);
    let sep = bytes(&mut run, b"=");
    let value = done(call(&mut run, b"k=v", vec![sep]));
    assert_eq!(list_of(&run, value), vec![b"k".to_vec(), b"=".to_vec(), b"v".to_vec()]);
    let mut run = vm(&["find"]);
    let needle = bytes(&mut run, b"z");
    assert_eq!(done(call(&mut run, b"abc", vec![needle])), Value::Int(-1));
}

#[test]
fn an_unknown_method_is_an_attribute_error() {
    let mut run = vm(&["nope"]);
    let (kind, message) = error(call(&mut run, b"", vec![]));
    assert_eq!(kind, ExcType::AttributeError);
    assert_eq!(message, "'bytes' object has no attribute 'nope'");
}

#[test]
fn a_missing_part_is_a_value_error() {
    let mut run = vm(&["index"]);
    let needle = bytes(&mut run, b"z");
    let (kind, message) = error(call(&mut run, b"abc", vec![needle]));
    assert_eq!((kind, message.as_str()), (ExcType::ValueError, "subsection not found"));
}

#[test]
fn an_empty_separator_is_refused() {
    let mut run = vm(&["split"]);
    let sep = bytes(&mut run, b"");
    let (kind, message) = error(call(&mut run, b"abc", vec![sep]));
    assert_eq!((kind, message.as_str()), (ExcType::ValueError, "empty separator"));
}

#[test]
fn decoding_is_asked_of_the_host() {
    let mut run = vm(&["decode"]);
    match call_bytes_method(b"hi", 0, &args(vec![]), &mut run, None) {
        Ok(Called::Ask(Question::Decode { encoding, errors })) => {
            assert_eq!((encoding.as_str(), errors.as_str()), ("utf-8", "strict"));
        }
        _ => panic!("the host is asked"),
    }
    let value = done(call_bytes_method(b"hi", 0, &args(vec![]), &mut run, Some(Reply::Text("hi".to_owned()))));
    assert_eq!(run.get_text(value), Some("hi"));
}

#[test]
fn joining_takes_bytes_only() {
    let mut run = vm(&["join"]);
    let a = bytes(&mut run, b"a");
    let b = bytes(&mut run, b"b");
    let list = Value::Ref(run.allocate(HeapData::List(vec![a, b])));
    let value = done(call(&mut run, b"-", vec![list]));
    assert_eq!(data_of(&run, value), b"a-b");
    let bad = Value::Ref(run.allocate(HeapData::List(vec![a, Value::Int(1)])));
    let (kind, message) = error(call(&mut run, b"-", vec![bad]));
    assert_eq!((kind, message.as_str()), (ExcType::TypeError, "sequence item 1: expected a bytes-like object, int found"));
}

#[test]
fn hex_text_makes_bytes() {
    let mut run = vm(&[]);
    let source = text(&mut run, "de ad");
    let value = done(bytes_fromhex(&args(vec![source]), &mut run));
    assert_eq!(data_of(&run, value), vec![0xde, 0xad]);
    let (kind, message) = error(bytes_fromhex(&args(vec![Value::Int(1)]), &mut run));
    assert_eq!((kind, message.as_str()), (ExcType::TypeError, "fromhex() argument must be str, not int"));
}

#[test]
fn bytes_are_made_from_numbers_and_bytes() {
    let mut run = vm(&[]);
    let value = done(Bytes::init(&mut run, &args(vec![Value::Int(3)]), None));
    assert_eq!(data_of(&run, value), vec![0, 0, 0]);
    let value = done(Bytes::init(&mut run, &args(vec![]), None));
    assert_eq!(data_of(&run, value), Vec::<u8>::new());
    let (kind, message) = error(Bytes::init(&mut run, &args(vec![Value::Int(-1)]), None));
    assert_eq!((kind, message.as_str()), (ExcType::ValueError, "negative count"));
}

#[test]
fn membership_takes_bytes_and_numbers() {
    let mut run = vm(&[]);
    let part = bytes(&mut run, b"bc");
    assert_eq!(bytes_contains(b"abcd", part, &run).ok(), Some(true));
    assert_eq!(bytes_contains(b"abcd", Value::Int(97), &run).ok(), Some(true));
    assert_eq!(bytes_contains(b"abcd", Value::Int(120), &run).ok(), Some(false));
    let (kind, message) = error(bytes_contains(b"abcd", Value::Int(256), &run));
    assert_eq!((kind, message.as_str()), (ExcType::ValueError, "byte must be in range(0, 256)"));
}

#[test]
fn slices_take_every_step() {
    assert_eq!(slice_collect(b"abcdef", Some(1), Some(5), Some(2)).ok(), Some(b"bd".to_vec()));
    assert_eq!(slice_collect(b"abcdef", None, None, Some(-1)).ok(), Some(b"fedcba".to_vec()));
    assert_eq!(slice_collect(b"abc", Some(-2), None, None).ok(), Some(b"bc".to_vec()));
    let (kind, message) = error(slice_collect(b"abc", None, None, Some(0)));
    assert_eq!((kind, message.as_str()), (ExcType::ValueError, "slice step cannot be zero"));
}

#[test]
fn subscripts_are_bytes_or_numbers() {
    let run = vm(&[]);
    assert!(matches!(py_getitem(b"abc", Value::Int(1), &run), Ok(Made::Plain(Value::Int(98)))));
    let (kind, _) = error(py_getitem(b"abc", Value::Int(5), &run));
    assert_eq!(kind, ExcType::IndexError);
    let (kind, message) = error(py_getitem(b"abc", Value::NoneValue, &run));
    assert_eq!(kind, ExcType::TypeError);
    assert_eq!(message, "byte indices must be integers or slices, not NoneType");
}

#[test]
fn byte_strings_add_and_repeat() {
    let mut run = vm(&[]);
    let other = bytes(&mut run, b"cd");
    assert!(matches!(py_add_impl(b"ab", other, &run), Ok(Some(Made::Bytes(sum))) if sum == b"abcd"));
    assert!(matches!(py_add_impl(b"ab", Value::Int(1), &run), Ok(None)));
    assert!(matches!(py_mul_impl(b"ab", Value::Int(3), &run), Ok(Some(Made::Bytes(all))) if all == b"ababab"));
    assert!(matches!(py_mul_impl(b"ab", Value::Int(-3), &run), Ok(Some(Made::Bytes(all))) if all.is_empty()));
}

#[test]
fn a_repetition_beyond_the_limit_is_refused() {
    let run = VM::new(vec![], vec![], ResourceTracker::new(Some(1_000_000), None));
    let (kind, message) = error(py_mul_impl(b"ab", Value::Int(1_000_000), &run));
    assert_eq!(kind, ExcType::MemoryError);
    assert_eq!(message, "memory limit exceeded: 2000000 bytes > 1000000 bytes");
}

#[test]
fn the_order_is_that_of_the_first_difference() {
    assert_eq!(bytes_order(b"abc", b"abd"), Order::Less);
    assert_eq!(bytes_order(b"abc", b"ab"), Order::Greater);
    assert_eq!(bytes_order(b"abc", b"abc"), Order::Same);
}

#[test]
fn iteration_gives_every_byte_once() {
    let mut run = VM::new(vec![], vec![vec![5, 6]], free());
    let Value::Ref(id) = BytesIterator::from_intern(0, &mut run) else { panic!("an iterator") };
    let HeapData::BytesIterator(held) = &run.heap[id] else { panic!("an iterator") };
    let mut iterator = BytesIterator { source: held.source, index: held.index };
    assert_eq!(iterator.size_hint(&run), 2);
    assert_eq!(iterator.py_next(&run), Some(Value::Int(5)));
    assert_eq!(iterator.py_next(&run), Some(Value::Int(6)));
    assert_eq!(iterator.py_next(&run), None);
    assert_eq!(iterator.size_hint(&run), 0);
}

#[test]
fn a_literal_answers_like_an_item() {
    for (name, positional) in [("upper", vec![]), ("hex", vec![]), ("nothing", vec![]), ("isalpha", vec![Value::Int(1)])] {
        let mut on_literal = vm(&[name]);
        let mut on_item = vm(&[name]);
        let item = HeapRead { item: Bytes::new(b"ab1".to_vec()) };
        let literal = call(&mut on_literal, b"ab1", positional.clone());
        for attr in [EitherStr::Interned(0), EitherStr::Heap(name.to_owned())] {
            on_item.heap.clear();
            let answered = item.py_call_attr(&attr, &args(positional.clone()), &mut on_item, None);
            match (&literal, answered) {
                (Ok(Called::Done(Value::Ref(a))), Ok(Called::Done(Value::Ref(b)))) => {
                    assert_eq!(*a, b);
                    assert_eq!(on_literal.get_bytes(Value::Ref(*a)), on_item.get_bytes(Value::Ref(b)));
                    assert_eq!(on_literal.get_text(Value::Ref(*a)), on_item.get_text(Value::Ref(b)));
                }
                (Err(a), Err(b)) => assert_eq!((a.exc_type, &a.message), (b.exc_type, &b.message)),
                _ => panic!("the same was expected"),
            }
        }
        assert_eq!(item.item.as_slice(), b"ab1");
    }
    let mut run = vm(&["nothing"]);
    let (kind, message) = error(call(&mut run, b"ab1", vec![]));
    assert_eq!((kind, message.as_str()), (ExcType::AttributeError, "'bytes' object has no attribute 'nothing'"));
}

#[test]
fn white_space_and_case_do_not_matter_to_hex() {
    let chars: Vec<char> = " \n00 aB\u{3000}FFfF\t".chars().collect();
    assert_eq!(bytes_from_hex(&chars).ok(), Some(vec![0x00, 0xab, 0xff, 0xff]));
    let split: Vec<char> = "a b".chars().collect();
    assert!(bytes_from_hex(&split).is_err());
}

#[test]
fn kept_lines_are_lines_with_their_endings() {
    let text = b"a\r\n\n\rb\n\rc";
    let kept = bytes_split_lines(text, true);
    let expected: Vec<&[u8]> = vec![b"a\r\n", b"\n", b"\r", b"b\n", b"\r", b"c"];
    assert_eq!(kept, expected);
    let lines: Vec<&[u8]> = vec![b"a", b"", b"", b"b", b"", b"c"];
    assert_eq!(bytes_split_lines(text, false), lines);
    assert_eq!(kept.concat(), text.to_vec());
    assert!(bytes_split_lines(b"", true).is_empty() && bytes_split_lines(b"", false).is_empty());
    assert_eq!(bytes_split_lines(b"a\r\n", true), vec![b"a\r\n".to_vec()]);
}

#[test]
fn replacing_is_splitting_and_joining() {
    let tracker = free();
    for times in 0..4 {
        let parts = bytes_splitn_by_seq(b"aXXbXXcXX", b"XX", times + 1, &tracker).ok().expect("parts");
        assert_eq!(bytes_replace_n(b"aXXbXXcXX", b"XX", b"--", times, &tracker).ok(), Some(parts.join(&b"--"[..])));
    }
    let all = bytes_replace_all(b"aXXbXXcXX", b"XX", b"--", &tracker).ok();
    assert_eq!(bytes_replace_n(b"aXXbXXcXX", b"XX", b"--", 3, &tracker).ok(), all);
    assert_eq!(bytes_replace_n(b"ab", b"", b"-", 3, &tracker).ok(), bytes_replace_all(b"ab", b"", b"-", &tracker).ok());
}

#[test]
fn parts_hold_no_separator() {
    let tracker = free();
    let parts = bytes_split_by_seq(b"aXXXbXX", b"XX", &tracker).ok().expect("parts");
    let places = count_non_overlapping(b"aXXXbXX", b"XX", &tracker).ok().expect("a count");
    assert_eq!(parts, vec![b"a".to_vec(), b"Xb".to_vec(), b"".to_vec()]);
    assert_eq!(parts.len(), places + 1);
    assert!(parts.iter().all(|part| find_subsequence(part, b"XX", &tracker).ok() == Some(None)));
}

#[test]
fn the_parts_of_a_partition_make_the_whole() {
    for (name, parts) in [("partition", ["a", "-", "b-c"]), ("rpartition", ["a-b", "-", "c"])] {
        let mut run = vm(&[name]);
        let sep = bytes(&mut run, b"-");
        let result = call(&mut run, b"a-b-c", vec![sep]);
        let found = list_of(&run, done(result));
        assert_eq!(found, parts.map(|part| part.as_bytes().to_vec()));
        assert_eq!(found.concat(), b"a-b-c".to_vec());
    }
    for (name, parts) in [("partition", ["abc", "", ""]), ("rpartition", ["", "", "abc"])] {
        let mut run = vm(&[name]);
        let sep = bytes(&mut run, b"-");
        let result = call(&mut run, b"abc", vec![sep]);
        assert_eq!(list_of(&run, done(result)), parts.map(|part| part.as_bytes().to_vec()));
    }
}

#[test]
fn a_changed_case_is_settled() {
    let data = b"hELLO wORLD 1x";
    for change in [CaseChange::Lower, CaseChange::Upper, CaseChange::Capitalize, CaseChange::Title] {
        let once = bytes_change_case(change, data);
        assert_eq!(bytes_change_case(change, &once), once);
    }
    let swapped = bytes_change_case(CaseChange::Swapcase, data);
    assert_eq!(swapped, b"Hello World 1X".to_vec());
    assert_eq!(bytes_change_case(CaseChange::Swapcase, &swapped), data.to_vec());
}

#[test]
fn the_order_is_one_of_all_byte_strings() {
    let sorted: [&[u8]; 4] = [b"", b"a", b"ab", b"b"];
    for (i, left) in sorted.iter().enumerate() {
        for (j, right) in sorted.iter().enumerate() {
            let expected = if i < j {
                Order::Less
            } else if i == j {
                Order::Same
            } else {
                Order::Greater
            };
            assert_eq!(bytes_order(left, right), expected);
        }
    }
}

#[test]
fn plain_slices_are_parts() {
    let part = |start, stop, step| slice_collect(b"abcde", start, stop, step).ok();
    assert_eq!(part(None, None, None), Some(b"abcde".to_vec()));
    assert_eq!(part(Some(1), Some(-1), None), Some(b"bcd".to_vec()));
    assert_eq!(part(Some(3), Some(1), None), Some(vec![]));
    assert_eq!(part(None, None, Some(-1)), Some(b"edcba".to_vec()));
}

#[test]
fn estimates_bound_the_results() {
    // 200 000 bytes, each replaced by two
    let tracker = ResourceTracker::new(Some(300_000), None);
    assert!(check_replace_size(200_000, 1, 2, -1, &tracker).is_err());
    assert!(check_replace_size(200_000, 1, 2, 100_000, &tracker).is_ok());
    assert!(check_replace_size(200_000, 1, 2, 100_001, &tracker).is_err());
    // one that shrinks is checked with what it starts from
    assert!(check_replace_size(300_001, 2, 1, -1, &tracker).is_err());
    // an empty pattern stands behind the last byte too
    assert!(check_replace_size(149_999, 0, 1, -1, &tracker).is_ok());
    assert!(check_replace_size(150_000, 0, 1, -1, &tracker).is_err());
    // what a limit refuses it refuses in every larger size
    assert!(check_repeat_size(3, 100_000, &tracker).is_ok());
    assert!(check_repeat_size(3, 100_001, &tracker).is_err());
    assert!(check_repeat_size(usize::MAX, usize::MAX, &tracker).is_err());
}

#[test]
fn only_what_builds_looks_at_the_memory() {
    let full = |names: &[&str]| {
        let mut tracker = ResourceTracker::new(Some(10), None);
        tracker.allocated = 20;
        VM::new(names.iter().map(|text| (*text).to_owned()).collect(), vec![], tracker)
    };
    for name in ["count", "find", "rfind", "index", "rindex", "partition", "rpartition"] {
        let mut run = full(&[name]);
        let sep = bytes(&mut run, b"-");
        assert!(call(&mut run, b"a-b", vec![sep]).is_ok());
    }
    for (data, fails) in [(b"a-b", true), (b"abc", false)] {
        let mut run = full(&["replace"]);
        let (old, new) = (bytes(&mut run, b"-"), bytes(&mut run, b"+"));
        assert_eq!(call(&mut run, data, vec![old, new]).is_err(), fails);
    }
    let mut run = full(&["replace"]);
    let (old, new) = (bytes(&mut run, b"-"), bytes(&mut run, b"+"));
    assert!(call(&mut run, b"a-b", vec![old, new, Value::Int(0)]).is_ok());
    assert_eq!(error(call(&mut run, b"abc", vec![old, new, Value::Int(1)])).0, ExcType::MemoryError);
    let mut run = full(&["split"]);
    let sep = bytes(&mut run, b"-");
    assert_eq!(error(call(&mut run, b"a-b", vec![sep])).0, ExcType::MemoryError);
    let mut run = full(&["splitlines"]);
    let lines = done(call(&mut run, b"", vec![]));
    assert_eq!(list_of(&run, lines), Vec::<Vec<u8>>::new());
}
