//! Calls of the methods of byte strings.

use crate::args::{
    at_least_error, at_most_error, bound_args, holds_args, one_arg, pos_only, str_arg, text_arg, texts_of,
    type_error_at_least, type_error_at_most, zero_args, ArgValues, ArgsModel,
};
use crate::bytes::{
    affix_model, bind_held, bytes_count, bytes_only, bytes_remove_affix, bytes_search, bytes_split, bytes_strip,
    bytes_test_affix, count_model, extract_bytes_only, find_method, makes, makes_in_time, method_called, method_name, scanned,
    name_of_method, or_default, remove_model, reply_model, search_model, split_model, stop, strip_model, value_or,
    Bytes, BytesMethod, Made, MadeModel, Outcome, Question, QuestionModel, Reply, ReplyModel,
};
use crate::bytes_text::{
    answer, bytes_change_case, bytes_from_hex, bytes_justify, bytes_split_lines, bytes_test, bytes_to_hex,
    case_changed, hex_of, justified, lines_from, parsed_hex, Justify,
};
use crate::exceptions::{
    raise, raise2, raise3, raised, type_error, type_error_model, value_error, value_error_model, ErrorModel, ExcType,
    RunError, RunResult,
};
use crate::heap::{
    check_memory_time_every, may_stop, out_of_memory, stopped, timed_out, DataModel, HeapData, HeapRead, VM, VmModel,
};
use crate::names::StringId;
use crate::resource_checks::{
    capped_product, check_repeat_size, check_replace_size, limit_error, may_time_out, replaced_size, run_error, size_excess,
    ResourceError, ResourceTracker,
};
use crate::scan::{
    all_bytes, append_bytes, bytes_replace_all, bytes_replace_n, copied, find_subsequence, first_from, last_before,
    law_enough_replacements_replace_all, lemma_first_from, lemma_last_before, lemma_places_fit, looks_at_memory,
    replaced, replacement_bound, rfind_subsequence,
};
use crate::text::{chars_of, decimal, decimal_text};
use crate::value::{immediate, immediate_int, EitherStr, Value};
use vstd::prelude::*;
use vstd::slice::slice_to_vec;

verus! {

/// Whether a value is true, where that can be seen from here.
pub open spec fn truth_of(vm: VmModel, value: Value) -> Option<bool> {
    match value {
        Value::NoneValue => Some(false),
        Value::Bool(b) => Some(b),
        Value::Int(n) => Some(n != 0),
        Value::InternString(id) => Some(vm.strings[id as int].len() > 0),
        Value::InternBytes(id) => Some(vm.literals[id as int].len() > 0),
        Value::Ref(id) => match vm.heap[id as int] {
            DataModel::Str(text) => Some(text.len() > 0),
            DataModel::Bytes(bytes) => Some(bytes.len() > 0),
            DataModel::Tuple(items) => Some(items.len() > 0),
            DataModel::List(items) => Some(items.len() > 0),
            DataModel::Other { .. } => None,
            _ => Some(true),
        },
        Value::FloatBits(bits) => Some(bits != 0 && bits != 0x8000_0000_0000_0000),
        _ => Some(true),
    }
}

/// Says whether a value is true, where that can be seen from here.
pub fn py_bool(vm: &VM, value: Value) -> (truth: Option<bool>)
    requires
        vm@.holds(value),
    ensures
        truth == truth_of(vm@, value),
{
    match value {
        Value::NoneValue => Some(false),
        Value::Bool(b) => Some(b),
        Value::Int(n) => Some(n != 0),
        Value::InternString(id) => Some(vm.strings[id as usize].as_str().unicode_len() > 0),
        Value::InternBytes(id) => Some(vm.literals[id as usize].len() > 0),
        Value::Ref(id) => match &vm.heap[id] {
            HeapData::Str(text) => Some(text.as_str().unicode_len() > 0),
            HeapData::Bytes(bytes) => Some(bytes.as_slice().len() > 0),
            HeapData::Tuple(items) => Some(items.len() > 0),
            HeapData::List(items) => Some(items.len() > 0),
            HeapData::Other { .. } => None,
            _ => Some(true),
        },
        Value::FloatBits(bits) => Some(bits != 0 && bits != 0x8000_0000_0000_0000),
        _ => Some(true),
    }
}

/// `splitlines`.
pub open spec fn splitlines_model(vm: VmModel, bytes: Seq<u8>, args: ArgsModel, reply: Option<ReplyModel>) -> Outcome {
    match bound_args("splitlines"@, seq!["keepends"@], 0, args) {
        Err(error) => Err(error),
        Ok(slots) => match slots[0] {
            None => Ok(MadeModel::Parts(lines_from(bytes, 0, false))),
            Some(value) => match truth_of(vm, value) {
                Some(keepends) => Ok(MadeModel::Parts(lines_from(bytes, 0, keepends))),
                None => match reply {
                    Some(ReplyModel::Truth(keepends)) => Ok(MadeModel::Parts(lines_from(bytes, 0, keepends))),
                    Some(ReplyModel::Failed(error)) => Err(error),
                    _ => Ok(MadeModel::Ask(QuestionModel::Truth(value))),
                },
            },
        },
    }
}

/// Splits a byte string into its lines.
pub fn bytes_splitlines(bytes: &[u8], args: &ArgValues, vm: &VM, reply: Option<Reply>) -> (result: RunResult<Made>)
    requires
        holds_args(vm@, args@),
    ensures
        makes(result, splitlines_model(vm@, bytes@, args@, reply_model(reply))),
{
    let params = vec!["keepends"];
    assert(texts_of(params@) =~= seq!["keepends"@]);
    let slots = bind_held(vm, args, "splitlines", &params, 0)?;
    let keepends: bool = match slots[0] {
        None => false,
        Some(value) => match py_bool(vm, value) {
            Some(truth) => truth,
            None => match reply {
                Some(Reply::Truth(truth)) => truth,
                Some(Reply::Failed(error)) => return Err(error),
                _ => return Ok(Made::Ask(Question::Truth(value))),
            },
        },
    };
    Ok(Made::Parts(bytes_split_lines(bytes, keepends)))
}

/// `partition` and `rpartition`.
pub open spec fn partition_model(vm: VmModel, bytes: Seq<u8>, args: ArgsModel, last: bool) -> Outcome {
    match one_arg(
        if last {
            "bytes.rpartition"@
        } else {
            "bytes.partition"@
        },
        args,
    ) {
        Err(error) => Err(error),
        Ok(value) => match bytes_only(vm, value) {
            Err(error) => Err(error),
            Ok(sep) => if sep.len() == 0 {
                Err(value_error_model("empty separator"@))
            } else {
                let place = if last {
                    last_before(bytes, sep, bytes.len() as int)
                } else {
                    first_from(bytes, sep, 0)
                };
                match place {
                    Some(at) => Ok(
                        MadeModel::Triple(
                            bytes.subrange(0, at),
                            sep,
                            bytes.subrange(at + sep.len(), bytes.len() as int),
                        ),
                    ),
                    None => if last {
                        Ok(MadeModel::Triple(Seq::empty(), Seq::empty(), bytes))
                    } else {
                        Ok(MadeModel::Triple(bytes, Seq::empty(), Seq::empty()))
                    },
                }
            },
        },
    }
}

/// Splits a byte string at the first or the last place of a separator.
pub fn bytes_partition(bytes: &[u8], args: &ArgValues, vm: &VM, last: bool) -> (result: RunResult<Made>)
    requires
        holds_args(vm@, args@),
    ensures
        makes_in_time(vm@.tracker, result, partition_model(vm@, bytes@, args@, last)),
{
    let name = if last {
        "bytes.rpartition"
    } else {
        "bytes.partition"
    };
    let value = match args.get_one_arg(name) {
        Ok(value) => value,
        Err(error) => return Err(error),
    };
    let sep = match extract_bytes_only(value, vm) {
        Ok(sep) => sep,
        Err(error) => return Err(error),
    };
    if sep.len() == 0 {
        return Err(value_error("empty separator"));
    }
    proof {
        lemma_first_from(bytes@, sep@, 0);
        lemma_last_before(bytes@, sep@, bytes@.len() as int);
    }
    let total: usize = bytes.len();
    let found = if last {
        rfind_subsequence(bytes, sep, &vm.tracker)
    } else {
        find_subsequence(bytes, sep, &vm.tracker)
    };
    match found {
        Err(limit) => Err(stop(&vm.tracker, limit)),
        Ok(Some(at)) => {
            assert(at + sep@.len() <= total);
            Ok(
                Made::Triple(copied(bytes, 0, at), slice_to_vec(sep), copied(bytes, at + sep.len(), bytes.len())),
            )
        },
        Ok(None) => {
            let rest = slice_to_vec(bytes);
            if last {
                Ok(Made::Triple(Vec::new(), Vec::new(), rest))
            } else {
                Ok(Made::Triple(rest, Vec::new(), Vec::new()))
            }
        },
    }
}

/// The parameters of `replace`.
pub open spec fn replace_params() -> Seq<Seq<char>> {
    seq!["old"@, "new"@, "count"@]
}

/// The arguments of `replace`.
pub open spec fn replace_args(vm: VmModel, args: ArgsModel) -> Result<(Seq<u8>, Seq<u8>, i64), ErrorModel> {
    match bound_args("replace"@, replace_params(), 2, args) {
        Err(error) => Err(error),
        Ok(slots) => match bytes_only(vm, slots[0]->Some_0) {
            Err(error) => Err(error),
            Ok(old_part) => match bytes_only(vm, slots[1]->Some_0) {
                Err(error) => Err(error),
                Ok(new_part) => match vm.int_of(or_default(slots[2], Value::Int((-1) as i64))) {
                    Err(error) => Err(error),
                    Ok(count) => Ok((old_part, new_part, count)),
                },
            },
        },
    }
}

/// `replace`. The size of what would come out is held against the limits
/// first.
pub open spec fn replace_model(vm: VmModel, bytes: Seq<u8>, args: ArgsModel) -> Outcome {
    match replace_args(vm, args) {
        Err(error) => Err(error),
        Ok((old_part, new_part, count)) => match size_excess(
            vm.tracker,
            replaced_size(bytes.len() as int, old_part.len() as int, new_part.len() as int, count as int) as usize,
        ) {
            Some(limit) => Err(limit_error(limit)),
            None => Ok(
                MadeModel::Bytes(
                    replaced(
                        bytes,
                        old_part,
                        new_part,
                        replacement_bound(count),
                    ),
                ),
            ),
        },
    }
}

/// The memory in use is looked at while `replace` works.
pub open spec fn replacing_looks_at_memory(vm: VmModel, bytes: Seq<u8>, args: ArgsModel) -> bool {
    replace_args(vm, args) matches Ok((old_part, _, count)) && looks_at_memory(
        bytes,
        old_part,
        replacement_bound(count),
    )
}

/// The result is what the model gives, unless the time of a scan ran out or,
/// where the memory is looked at, more is in use than is allowed.
pub open spec fn makes_in_limits(tracker: ResourceTracker, result: RunResult<Made>, model: Outcome, memory: bool) -> bool {
    makes_in_time(tracker, result, model) || memory && scanned(model) && out_of_memory(tracker, result)
}

/// Bound arguments fill the required parameters.
proof fn lemma_nothing_missing(slots: Seq<Option<Value>>, required: int, i: int)
    requires
        0 <= i <= required <= slots.len(),
        crate::args::missing_from(slots, required, i) is None,
    ensures
        forall|j: int| i <= j < required ==> #[trigger] slots[j] is Some,
    decreases required - i,
{
    if i < required && slots[i] is Some {
        lemma_nothing_missing(slots, required, i + 1);
    }
}

/// Reads the arguments of `replace`.
pub fn parse_bytes_replace_args<'a>(args: &ArgValues, vm: &'a VM) -> (parsed: RunResult<(&'a [u8], &'a [u8], i64)>)
    requires
        holds_args(vm@, args@),
    ensures
        match (parsed, replace_args(vm@, args@)) {
            (Ok(parsed), Ok(expected)) => parsed.0@ == expected.0 && parsed.1@ == expected.1 && parsed.2 == expected.2,
            (Err(error), Err(expected)) => error@ == expected,
            _ => false,
        },
{
    let params = vec!["old", "new", "count"];
    assert(texts_of(params@) =~= replace_params());
    let slots = bind_held(vm, args, "replace", &params, 2)?;
    proof {
        lemma_nothing_missing(slots@, 2, 0);
        assert(slots@[0] is Some && slots@[1] is Some);
    }
    let old_part = extract_bytes_only(slots[0].unwrap(), vm)?;
    let new_part = extract_bytes_only(slots[1].unwrap(), vm)?;
    let count: i64 = vm.as_int(value_or(slots[2], Value::Int(-1)))?;
    Ok((old_part, new_part, count))
}

/// Replaces places of a pattern.
pub fn bytes_replace(bytes: &[u8], args: &ArgValues, vm: &VM) -> (result: RunResult<Made>)
    requires
        holds_args(vm@, args@),
    ensures
        makes_in_limits(
            vm@.tracker,
            result,
            replace_model(vm@, bytes@, args@),
            replacing_looks_at_memory(vm@, bytes@, args@),
        ),
{
    let (old_part, new_part, count) = match parse_bytes_replace_args(args, vm) {
        Ok(parsed) => parsed,
        Err(error) => return Err(error),
    };
    match check_replace_size(bytes.len(), old_part.len(), new_part.len(), count, &vm.tracker) {
        Ok(_) => {},
        Err(limit) => return Err(run_error(limit)),
    }
    let made = if count < 0 {
        bytes_replace_all(bytes, old_part, new_part, &vm.tracker)
    } else if count as u64 > usize::MAX as u64 {
        let total: usize = bytes.len();
        assert(bytes@.len() == total);
        proof {
            lemma_places_fit(bytes@, old_part@, 0);
            law_enough_replacements_replace_all(bytes@, old_part@, new_part@, count as nat);
        }
        bytes_replace_all(bytes, old_part, new_part, &vm.tracker)
    } else {
        bytes_replace_n(bytes, old_part, new_part, count as usize, &vm.tracker)
    };
    match made {
        Ok(made) => Ok(Made::Bytes(made)),
        Err(limit) => {
            let error = run_error(limit);
            assert(may_time_out(vm@.tracker, limit) ==> timed_out(vm@.tracker, Err::<Made, RunError>(error)));
            Err(error)
        },
    }
}

/// A width. A negative one is none.
pub open spec fn width_of(vm: VmModel, value: Value) -> Result<int, ErrorModel> {
    match vm.int_of(value) {
        Err(error) => Err(error),
        Ok(width) => Ok(
            if width < 0 {
                0
            } else if width > usize::MAX {
                usize::MAX as int
            } else {
                width as int
            },
        ),
    }
}

/// Reads a width.
fn extract_width(vm: &VM, value: Value) -> (width: RunResult<usize>)
    requires
        vm@.holds(value),
    ensures
        match (width, width_of(vm@, value)) {
            (Ok(width), Ok(expected)) => width == expected,
            (Err(error), Err(expected)) => error@ == expected,
            _ => false,
        },
{
    let width: i64 = vm.as_int(value)?;
    if width < 0 {
        Ok(0)
    } else if width as u64 > usize::MAX as u64 {
        Ok(usize::MAX)
    } else {
        Ok(width as usize)
    }
}

/// The byte to pad with.
pub open spec fn fill_of(vm: VmModel, name: Seq<char>, value: Value) -> Result<u8, ErrorModel> {
    match bytes_only(vm, value) {
        Err(error) => Err(error),
        Ok(bytes) => if bytes.len() == 1 {
            Ok(bytes[0])
        } else {
            Err(
                type_error_model(
                    name + "() argument 2 must be a byte string of length 1, not bytes of length "@ + decimal(bytes.len()),
                ),
            )
        },
    }
}

/// Reads the byte to pad with.
fn extract_fill(vm: &VM, name: &str, value: Value) -> (fill: RunResult<u8>)
    requires
        vm@.holds(value),
    ensures
        match (fill, fill_of(vm@, name@, value)) {
            (Ok(fill), Ok(expected)) => fill == expected,
            (Err(error), Err(expected)) => error@ == expected,
            _ => false,
        },
{
    let bytes = extract_bytes_only(value, vm)?;
    if bytes.len() != 1 {
        let mut text = name.to_owned();
        text.append("() argument 2 must be a byte string of length 1, not bytes of length ");
        text.append(decimal_text(bytes.len() as u64).as_str());
        return Err(type_error(text.as_str()));
    }
    Ok(bytes[0])
}

/// The width and the fill of the methods that pad.
pub open spec fn justify_args(vm: VmModel, how: Justify, args: ArgsModel) -> Result<(int, u8), ErrorModel> {
    let name = method_name(BytesMethod::Justify(how));
    if how is Zeros {
        match one_arg(name, args) {
            Err(error) => Err(error),
            Ok(value) => match width_of(vm, value) {
                Err(error) => Err(error),
                Ok(width) => Ok((width, 48)),
            },
        }
    } else {
        match pos_only(name, args) {
            Err(error) => Err(error),
            Ok(pos) => if pos.len() == 0 {
                Err(at_least_error(name, 0))
            } else if pos.len() > 2 {
                Err(at_most_error(name, 2, pos.len()))
            } else {
                match width_of(vm, pos[0]) {
                    Err(error) => Err(error),
                    Ok(width) => if pos.len() == 1 {
                        Ok((width, 32))
                    } else {
                        match fill_of(vm, name, pos[1]) {
                            Err(error) => Err(error),
                            Ok(fill) => Ok((width, fill)),
                        }
                    },
                }
            },
        }
    }
}

/// Reads the width and the fill of the methods that pad.
pub fn parse_bytes_justify_args(how: Justify, args: &ArgValues, vm: &VM) -> (parsed: RunResult<(usize, u8)>)
    requires
        holds_args(vm@, args@),
    ensures
        match (parsed, justify_args(vm@, how, args@)) {
            (Ok(parsed), Ok(expected)) => parsed.0 == expected.0 && parsed.1 == expected.1,
            (Err(error), Err(expected)) => error@ == expected,
            _ => false,
        },
{
    let name = name_of_method(BytesMethod::Justify(how));
    match how {
        Justify::Zeros => {
            let value = args.get_one_arg(name)?;
            Ok((extract_width(vm, value)?, 48))
        },
        _ => {
            let pos = args.into_pos_only(name)?;
            if pos.len() == 0 {
                return Err(type_error_at_least(name, 0));
            }
            if pos.len() > 2 {
                return Err(type_error_at_most(name, 2, pos.len()));
            }
            let width: usize = extract_width(vm, pos[0])?;
            if pos.len() == 1 {
                Ok((width, 32))
            } else {
                Ok((width, extract_fill(vm, name, pos[1])?))
            }
        },
    }
}

/// `center`, `ljust`, `rjust` and `zfill`. A width that is more than there is
/// is held against the limits first.
pub open spec fn justify_model(vm: VmModel, how: Justify, bytes: Seq<u8>, args: ArgsModel) -> Outcome {
    match justify_args(vm, how, args) {
        Err(error) => Err(error),
        Ok((width, fill)) => {
            let excess = if width > bytes.len() {
                size_excess(vm.tracker, capped_product(width, 1, usize::MAX as int) as usize)
            } else {
                None
            };
            match excess {
                Some(limit) => Err(limit_error(limit)),
                None => Ok(MadeModel::Bytes(justified(how, bytes, width, fill))),
            }
        },
    }
}

/// Pads a byte string.
pub fn bytes_pad(how: Justify, bytes: &[u8], args: &ArgValues, vm: &VM) -> (result: RunResult<Made>)
    requires
        holds_args(vm@, args@),
    ensures
        makes(result, justify_model(vm@, how, bytes@, args@)),
{
    let (width, fill) = parse_bytes_justify_args(how, args, vm)?;
    if width > bytes.len() {
        match check_repeat_size(width, 1, &vm.tracker) {
            Ok(_) => {},
            Err(limit) => return Err(run_error(limit)),
        }
    }
    Ok(Made::Bytes(bytes_justify(how, bytes, width, fill)))
}

/// The items from `i` on, joined behind `done` with a separator between.
pub open spec fn joined_items(
    vm: VmModel,
    sep: Seq<u8>,
    items: Seq<Value>,
    failure: Option<ErrorModel>,
    i: int,
    done: Seq<u8>,
) -> Result<Seq<u8>, ErrorModel>
    decreases items.len() - i,
{
    if i < 0 || i >= items.len() {
        match failure {
            Some(error) => Err(error),
            None => Ok(done),
        }
    } else {
        match vm.bytes_of(items[i]) {
            Some(bytes) => joined_items(
                vm,
                sep,
                items,
                failure,
                i + 1,
                (if i > 0 {
                    done + sep
                } else {
                    done
                }) + bytes,
            ),
            None => Err(
                type_error_model(
                    "sequence item "@ + decimal(i as nat) + ": expected a bytes-like object, "@ + vm.name_of_type(
                        items[i],
                    ) + " found"@,
                ),
            ),
        }
    }
}

/// An error that may be there, as a mathematical value.
pub open spec fn failure_model(failure: Option<RunError>) -> Option<ErrorModel> {
    match failure {
        Some(error) => Some(error@),
        None => None,
    }
}

/// Joins items with a separator between. An error that ended the items counts
/// only where those before it could be joined.
pub fn join_items(sep: &[u8], items: &Vec<Value>, failure: Option<RunError>, vm: &VM) -> (joined: RunResult<Vec<u8>>)
    requires
        vm@.holds_all(items@),
    ensures
        match (
            joined,
            joined_items(
                vm@,
                sep@,
                items@,
                failure_model(failure),
                0,
                Seq::empty(),
            ),
        ) {
            (Ok(joined), Ok(expected)) => joined@ == expected,
            (Err(error), Err(expected)) => error@ == expected,
            _ => false,
        },
{
    let ghost failed = failure_model(failure);
    let mut out: Vec<u8> = Vec::new();
    let mut i: usize = 0;
    let ghost whole = joined_items(vm@, sep@, items@, failed, 0, Seq::empty());
    assert(out@ =~= Seq::<u8>::empty());
    while i < items.len()
        invariant
            i <= items@.len(),
            vm@.holds_all(items@),
            whole == joined_items(vm@, sep@, items@, failed, 0, Seq::empty()),
            whole == joined_items(vm@, sep@, items@, failed, i as int, out@),
            failed == (failure_model(failure)),
        decreases items@.len() - i,
    {
        match vm.get_bytes(items[i]) {
            Some(bytes) => {
                if i > 0 {
                    append_bytes(&mut out, sep);
                }
                append_bytes(&mut out, bytes);
            },
            None => {
                let mut text = "sequence item ".to_owned();
                text.append(decimal_text(i as u64).as_str());
                text.append(": expected a bytes-like object, ");
                text.append(vm.py_type_name(items[i]));
                text.append(" found");
                return Err(type_error(text.as_str()));
            },
        }
        i = i + 1;
    }
    match failure {
        Some(error) => Err(error),
        None => Ok(out),
    }
}

/// What joining gives.
pub open spec fn join_outcome(joined: Result<Seq<u8>, ErrorModel>) -> Outcome {
    match joined {
        Ok(bytes) => Ok(MadeModel::Bytes(bytes)),
        Err(error) => Err(error),
    }
}

/// `join`. The items of lists and tuples are known, those of other values the
/// host names.
pub open spec fn join_model(vm: VmModel, sep: Seq<u8>, args: ArgsModel, reply: Option<ReplyModel>) -> Outcome {
    match one_arg("bytes.join"@, args) {
        Err(error) => Err(error),
        Ok(value) => if !vm.iterable(value) {
            Err(type_error_model("can only join an iterable"@))
        } else {
            let items = match value {
                Value::Ref(id) => match vm.heap[id as int] {
                    DataModel::Tuple(items) => Some(items),
                    DataModel::List(items) => Some(items),
                    _ => None,
                },
                _ => None,
            };
            match items {
                Some(items) => join_outcome(joined_items(vm, sep, items, None, 0, Seq::empty())),
                None => match reply {
                    Some(ReplyModel::Items(items, failure)) => join_outcome(
                        joined_items(vm, sep, items, failure, 0, Seq::empty()),
                    ),
                    Some(ReplyModel::Failed(error)) => Err(error),
                    _ => Ok(MadeModel::Ask(QuestionModel::Items(value))),
                },
            }
        },
    }
}

/// The values of an answer exist.
pub open spec fn holds_reply(vm: VmModel, reply: Option<ReplyModel>) -> bool {
    reply matches Some(ReplyModel::Items(items, _)) ==> vm.holds_all(items)
}

/// Joins the items of a value.
pub fn bytes_join(sep: &[u8], args: &ArgValues, vm: &VM, reply: Option<Reply>) -> (result: RunResult<Made>)
    requires
        holds_args(vm@, args@),
        holds_reply(vm@, reply_model(reply)),
        vm@.wf(),
    ensures
        makes(result, join_model(vm@, sep@, args@, reply_model(reply))),
{
    let value = args.get_one_arg("bytes.join")?;
    if !vm.py_is_iterable(value) {
        return Err(type_error("can only join an iterable"));
    }
    match value {
        Value::Ref(id) => {
            assert(vm@.data_wf(vm@.heap[id as int]));
            match &vm.heap[id] {
                HeapData::Tuple(items) => {
                    return Ok(Made::Bytes(join_items(sep, items, None, vm)?));
                },
                HeapData::List(items) => {
                    return Ok(Made::Bytes(join_items(sep, items, None, vm)?));
                },
                _ => {},
            }
        },
        _ => {},
    }
    match reply {
        Some(Reply::Items(items, failure)) => Ok(Made::Bytes(join_items(sep, &items, failure, vm)?)),
        Some(Reply::Failed(error)) => Err(error),
        _ => Ok(Made::Ask(Question::Items(value))),
    }
}

/// The parameters of `hex`.
pub open spec fn hex_params() -> Seq<Seq<char>> {
    seq!["sep"@, "bytes_per_sep"@]
}

/// The one ASCII character that a separator must be.
pub open spec fn sep_char(vm: VmModel, value: Value) -> Result<char, ErrorModel> {
    match vm.bytes_of(value) {
        Some(bytes) => if bytes.len() == 1 && bytes[0] <= 127 {
            Ok(bytes[0] as char)
        } else {
            Err(value_error_model("sep must be a single ASCII character"@))
        },
        None => match vm.text_of(value) {
            Some(text) => if text.len() == 1 && text[0] as u32 <= 127 {
                Ok(text[0])
            } else {
                Err(value_error_model("sep must be a single ASCII character"@))
            },
            None => Err(type_error_model("sep must be str or bytes"@)),
        },
    }
}

/// Reads the one ASCII character that a separator must be.
fn extract_sep(vm: &VM, value: Value) -> (sep: RunResult<char>)
    requires
        vm@.holds(value),
    ensures
        match (sep, sep_char(vm@, value)) {
            (Ok(sep), Ok(expected)) => sep == expected,
            (Err(error), Err(expected)) => error@ == expected,
            _ => false,
        },
{
    match vm.get_bytes(value) {
        Some(bytes) => {
            if bytes.len() == 1 && bytes[0] <= 127 {
                Ok(bytes[0] as char)
            } else {
                Err(value_error("sep must be a single ASCII character"))
            }
        },
        None => match vm.get_text(value) {
            Some(text) => {
                if text.unicode_len() == 1 && text.get_char(0) as u32 <= 127 {
                    Ok(text.get_char(0))
                } else {
                    Err(value_error("sep must be a single ASCII character"))
                }
            },
            None => Err(type_error("sep must be str or bytes")),
        },
    }
}

/// The separator of `hex`, and how many bytes stand between two of them.
/// Without a separator the number does not count.
pub open spec fn hex_args(vm: VmModel, args: ArgsModel) -> Result<(Option<char>, i64), ErrorModel> {
    if args.keywords.len() > 0 {
        Err(raised(ExcType::NotImplementedError, "bytes.hex() does not yet support keyword arguments"@))
    } else {
        match bound_args("bytes.hex"@, hex_params(), 0, args) {
            Err(error) => Err(error),
            Ok(slots) => {
                let sep = or_default(slots[0], Value::NoneValue);
                let per = or_default(slots[1], Value::NoneValue);
                if sep is NoneValue {
                    Ok((None, 1))
                } else {
                    match sep_char(vm, sep) {
                        Err(error) => Err(error),
                        Ok(c) => if per is NoneValue {
                            Ok((Some(c), 1))
                        } else {
                            match vm.int_of(per) {
                                Err(error) => Err(error),
                                Ok(per) => if i32::MIN <= per <= i32::MAX {
                                    Ok((Some(c), per))
                                } else {
                                    Err(
                                        raised(
                                            ExcType::OverflowError,
                                            "Python int too large to convert to C int"@,
                                        ),
                                    )
                                },
                            }
                        },
                    }
                }
            },
        }
    }
}

/// Reads the arguments of `hex`.
pub fn parse_bytes_hex_args(args: &ArgValues, vm: &VM) -> (parsed: RunResult<(Option<char>, i64)>)
    requires
        holds_args(vm@, args@),
    ensures
        match (parsed, hex_args(vm@, args@)) {
            (Ok(parsed), Ok(expected)) => parsed == expected,
            (Err(error), Err(expected)) => error@ == expected,
            _ => false,
        },
{
    if args.keywords.len() > 0 {
        return Err(
            raise(ExcType::NotImplementedError, "bytes.hex() does not yet support keyword arguments"),
        );
    }
    let params = vec!["sep", "bytes_per_sep"];
    assert(texts_of(params@) =~= hex_params());
    let slots = bind_held(vm, args, "bytes.hex", &params, 0)?;
    let sep_value = value_or(slots[0], Value::NoneValue);
    let per_value = value_or(slots[1], Value::NoneValue);
    match sep_value {
        Value::NoneValue => {
            return Ok((None, 1));
        },
        _ => {},
    }
    let sep = extract_sep(vm, sep_value)?;
    match per_value {
        Value::NoneValue => Ok((Some(sep), 1)),
        _ => {
            let per: i64 = vm.as_int(per_value)?;
            if -2147483648 <= per && per <= 2147483647 {
                Ok((Some(sep), per))
            } else {
                Err(raise(ExcType::OverflowError, "Python int too large to convert to C int"))
            }
        },
    }
}

/// `hex`.
pub open spec fn hex_model(vm: VmModel, bytes: Seq<u8>, args: ArgsModel) -> Outcome {
    match hex_args(vm, args) {
        Err(error) => Err(error),
        Ok((sep, per)) => Ok(MadeModel::Text(hex_of(bytes, sep, per as int, bytes.len() as int))),
    }
}

/// Writes a byte string in hexadecimal digits.
pub fn bytes_hex(bytes: &[u8], args: &ArgValues, vm: &VM) -> (result: RunResult<Made>)
    requires
        holds_args(vm@, args@),
    ensures
        makes(result, hex_model(vm@, bytes@, args@)),
{
    let (sep, per) = parse_bytes_hex_args(args, vm)?;
    Ok(Made::Text(bytes_to_hex(bytes, sep, per)))
}

/// `fromhex`.
pub open spec fn fromhex_model(vm: VmModel, args: ArgsModel) -> Outcome {
    match one_arg("bytes.fromhex"@, args) {
        Err(error) => Err(error),
        Ok(value) => match vm.text_of(value) {
            Some(text) => match parsed_hex(text, 0) {
                Ok(bytes) => Ok(MadeModel::Bytes(bytes)),
                Err(error) => Err(error),
            },
            None => if value is Ref {
                Err(type_error_model("fromhex() argument must be str, not bytes"@))
            } else {
                Err(type_error_model("fromhex() argument must be str, not "@ + vm.name_of_type(value)))
            },
        },
    }
}

/// Reads bytes that a text writes in hexadecimal digits.
fn make_fromhex(args: &ArgValues, vm: &VM) -> (result: RunResult<Made>)
    requires
        holds_args(vm@, args@),
    ensures
        makes(result, fromhex_model(vm@, args@)),
{
    let value = args.get_one_arg("bytes.fromhex")?;
    match vm.get_text(value) {
        Some(text) => Ok(Made::Bytes(bytes_from_hex(&chars_of(text))?)),
        None => match value {
            Value::Ref(_) => Err(type_error("fromhex() argument must be str, not bytes")),
            _ => Err(
                raise2(ExcType::TypeError, "fromhex() argument must be str, not ", vm.py_type_name(value)),
            ),
        },
    }
}

/// The names of an encoding and of an error handler, or their defaults.
pub open spec fn codec_args(
    vm: VmModel,
    name: Seq<char>,
    encoding: Option<Value>,
    errors: Option<Value>,
) -> Result<(Seq<char>, Seq<char>), ErrorModel> {
    let first = match encoding {
        None => Ok("utf-8"@),
        Some(value) => text_arg(vm, name, "encoding"@, value),
    };
    match first {
        Err(error) => Err(error),
        Ok(encoding) => {
            let second = match errors {
                None => Ok("strict"@),
                Some(value) => text_arg(vm, name, "errors"@, value),
            };
            match second {
                Err(error) => Err(error),
                Ok(errors) => Ok((encoding, errors)),
            }
        },
    }
}

/// Reads the names of an encoding and of an error handler.
fn parse_codec_args<'a>(vm: &'a VM, name: &str, encoding: Option<Value>, errors: Option<Value>) -> (parsed: RunResult<
    (&'a str, &'a str),
>)
    requires
        encoding matches Some(value) ==> vm@.holds(value),
        errors matches Some(value) ==> vm@.holds(value),
    ensures
        match (parsed, codec_args(vm@, name@, encoding, errors)) {
            (Ok(parsed), Ok(expected)) => parsed.0@ == expected.0 && parsed.1@ == expected.1,
            (Err(error), Err(expected)) => error@ == expected,
            _ => false,
        },
{
    let first = match encoding {
        None => "utf-8",
        Some(value) => str_arg(vm, name, "encoding", value)?,
    };
    let second = match errors {
        None => "strict",
        Some(value) => str_arg(vm, name, "errors", value)?,
    };
    Ok((first, second))
}

/// The parameters of `decode`.
pub open spec fn decode_params() -> Seq<Seq<char>> {
    seq!["encoding"@, "errors"@]
}

/// `decode`. The host decodes.
pub open spec fn decode_model(vm: VmModel, args: ArgsModel, reply: Option<ReplyModel>) -> Outcome {
    match bound_args("decode"@, decode_params(), 0, args) {
        Err(error) => Err(error),
        Ok(slots) => match codec_args(vm, "decode"@, slots[0], slots[1]) {
            Err(error) => Err(error),
            Ok((encoding, errors)) => match reply {
                Some(ReplyModel::Text(text)) => Ok(MadeModel::Text(text)),
                Some(ReplyModel::Failed(error)) => Err(error),
                _ => Ok(MadeModel::Ask(QuestionModel::Decode { encoding, errors })),
            },
        },
    }
}

/// Converts bytes to a text, once the host has decoded them.
pub fn bytes_decode(args: &ArgValues, vm: &VM, reply: Option<Reply>) -> (result: RunResult<Made>)
    requires
        holds_args(vm@, args@),
    ensures
        makes(result, decode_model(vm@, args@, reply_model(reply))),
{
    let params = vec!["encoding", "errors"];
    assert(texts_of(params@) =~= decode_params());
    let slots = bind_held(vm, args, "decode", &params, 0)?;
    let (encoding, errors) = parse_codec_args(vm, "decode", slots[0], slots[1])?;
    match reply {
        Some(Reply::Text(text)) => Ok(Made::Text(text)),
        Some(Reply::Failed(error)) => Err(error),
        _ => Ok(Made::Ask(Question::Decode { encoding: encoding.to_owned(), errors: errors.to_owned() })),
    }
}

/// What a method makes.
pub open spec fn method_model(
    vm: VmModel,
    bytes: Seq<u8>,
    method: BytesMethod,
    args: ArgsModel,
    reply: Option<ReplyModel>,
) -> Outcome {
    match method {
        BytesMethod::Decode => decode_model(vm, args, reply),
        BytesMethod::Case(change) => match zero_args(method_name(method), args) {
            Err(error) => Err(error),
            Ok(_) => Ok(MadeModel::Bytes(case_changed(change, bytes))),
        },
        BytesMethod::Test(predicate) => match zero_args(method_name(method), args) {
            Err(error) => Err(error),
            Ok(_) => Ok(MadeModel::Plain(Value::Bool(answer(predicate, bytes)))),
        },
        BytesMethod::Count => count_model(vm, bytes, args),
        BytesMethod::Find => search_model(vm, "bytes.find"@, bytes, args, false, false),
        BytesMethod::Rfind => search_model(vm, "bytes.rfind"@, bytes, args, true, false),
        BytesMethod::Index => search_model(vm, "bytes.index"@, bytes, args, false, true),
        BytesMethod::Rindex => search_model(vm, "bytes.rindex"@, bytes, args, true, true),
        BytesMethod::Startswith => affix_model(vm, bytes, args, false),
        BytesMethod::Endswith => affix_model(vm, bytes, args, true),
        BytesMethod::Strip(side) => strip_model(vm, side, bytes, args),
        BytesMethod::Removeprefix => remove_model(vm, bytes, args, false),
        BytesMethod::Removesuffix => remove_model(vm, bytes, args, true),
        BytesMethod::Split => split_model(vm, bytes, args, false),
        BytesMethod::Rsplit => split_model(vm, bytes, args, true),
        BytesMethod::Splitlines => splitlines_model(vm, bytes, args, reply),
        BytesMethod::Partition => partition_model(vm, bytes, args, false),
        BytesMethod::Rpartition => partition_model(vm, bytes, args, true),
        BytesMethod::Replace => replace_model(vm, bytes, args),
        BytesMethod::Justify(how) => justify_model(vm, how, bytes, args),
        BytesMethod::Join => join_model(vm, bytes, args, reply),
        BytesMethod::Hex => hex_model(vm, bytes, args),
        BytesMethod::Fromhex => fromhex_model(vm, args),
    }
}

/// The method scans the bytes or makes a list of them: a limit can stop it on
/// its way.
pub open spec fn scans(method: BytesMethod) -> bool {
    match method {
        BytesMethod::Count => true,
        BytesMethod::Find => true,
        BytesMethod::Rfind => true,
        BytesMethod::Index => true,
        BytesMethod::Rindex => true,
        BytesMethod::Split => true,
        BytesMethod::Rsplit => true,
        BytesMethod::Splitlines => true,
        BytesMethod::Partition => true,
        BytesMethod::Rpartition => true,
        BytesMethod::Replace => true,
        _ => false,
    }
}

/// Calls a method of a byte string.
pub fn call_bytes_method_impl(bytes: &[u8], method: BytesMethod, args: &ArgValues, vm: &VM, reply: Option<Reply>) -> (
    result: RunResult<Made>)
    requires
        holds_args(vm@, args@),
        holds_reply(vm@, reply_model(reply)),
        vm@.wf(),
        bytes@.len() < i64::MAX,
    ensures
        makes_in_limits(
            vm@.tracker,
            result,
            method_model(vm@, bytes@, method, args@, reply_model(reply)),
            method is Replace && replacing_looks_at_memory(vm@, bytes@, args@),
        ),
        !scans(method) ==> makes(result, method_model(vm@, bytes@, method, args@, reply_model(reply))),
{
    match method {
        BytesMethod::Decode => bytes_decode(args, vm, reply),
        BytesMethod::Case(change) => {
            match args.check_zero_args(name_of_method(method)) {
                Ok(_) => Ok(Made::Bytes(bytes_change_case(change, bytes))),
                Err(error) => Err(error),
            }
        },
        BytesMethod::Test(predicate) => {
            match args.check_zero_args(name_of_method(method)) {
                Ok(_) => Ok(Made::Plain(Value::Bool(bytes_test(predicate, bytes)))),
                Err(error) => Err(error),
            }
        },
        BytesMethod::Count => bytes_count(bytes, args, vm),
        BytesMethod::Find => bytes_search("bytes.find", bytes, args, vm, false, false),
        BytesMethod::Rfind => bytes_search("bytes.rfind", bytes, args, vm, true, false),
        BytesMethod::Index => bytes_search("bytes.index", bytes, args, vm, false, true),
        BytesMethod::Rindex => bytes_search("bytes.rindex", bytes, args, vm, true, true),
        BytesMethod::Startswith => bytes_test_affix(bytes, args, vm, false),
        BytesMethod::Endswith => bytes_test_affix(bytes, args, vm, true),
        BytesMethod::Strip(side) => bytes_strip(side, bytes, args, vm),
        BytesMethod::Removeprefix => bytes_remove_affix(bytes, args, vm, false),
        BytesMethod::Removesuffix => bytes_remove_affix(bytes, args, vm, true),
        BytesMethod::Split => bytes_split(bytes, args, vm, false),
        BytesMethod::Rsplit => bytes_split(bytes, args, vm, true),
        BytesMethod::Splitlines => bytes_splitlines(bytes, args, vm, reply),
        BytesMethod::Partition => bytes_partition(bytes, args, vm, false),
        BytesMethod::Rpartition => bytes_partition(bytes, args, vm, true),
        BytesMethod::Replace => bytes_replace(bytes, args, vm),
        BytesMethod::Justify(how) => bytes_pad(how, bytes, args, vm),
        BytesMethod::Join => bytes_join(bytes, args, vm, reply),
        BytesMethod::Hex => bytes_hex(bytes, args, vm),
        BytesMethod::Fromhex => make_fromhex(args, vm),
    }
}

/// What a call gives: a value, or a question to the host.
pub enum Called {
    Done(Value),
    Ask(Question),
}

/// What a call gives, as a mathematical value.
#[verifier::ext_equal]
pub enum CalledModel {
    Done(Value),
    Ask(QuestionModel),
}

impl View for Called {
    type V = CalledModel;

    open spec fn view(&self) -> CalledModel {
        match *self {
            Called::Done(value) => CalledModel::Done(value),
            Called::Ask(question) => CalledModel::Ask(question@),
        }
    }
}

/// The items that byte strings make.
pub open spec fn bytes_items(parts: Seq<Seq<u8>>) -> Seq<DataModel> {
    Seq::new(parts.len(), |i: int| DataModel::Bytes(parts[i]))
}

/// References to `count` items from `first` on.
pub open spec fn refs_from(first: int, count: nat) -> Seq<Value> {
    Seq::new(count, |i: int| Value::Ref((first + i) as usize))
}

/// The state with what was made on the heap, and the value that stands for it.
pub open spec fn placed(vm: VmModel, made: MadeModel) -> (VmModel, CalledModel) {
    let next = vm.heap.len();
    match made {
        MadeModel::Plain(value) => (vm, CalledModel::Done(value)),
        MadeModel::Ask(question) => (vm, CalledModel::Ask(question)),
        MadeModel::Bytes(bytes) => (
            vm.with(DataModel::Bytes(bytes)),
            CalledModel::Done(Value::Ref(next as usize)),
        ),
        MadeModel::Text(text) => (vm.with(DataModel::Str(text)), CalledModel::Done(Value::Ref(next as usize))),
        MadeModel::Parts(parts) => (
            VmModel {
                heap: (vm.heap + bytes_items(parts)).push(DataModel::List(refs_from(next as int, parts.len()))),
                ..vm
            },
            CalledModel::Done(Value::Ref((next + parts.len()) as usize)),
        ),
        MadeModel::Triple(a, b, c) => (
            VmModel {
                heap: (vm.heap + bytes_items(seq![a, b, c])).push(DataModel::Tuple(refs_from(next as int, 3))),
                ..vm
            },
            CalledModel::Done(Value::Ref((next + 3) as usize)),
        ),
    }
}

/// What a call gives and leaves behind: what the model says.
pub open spec fn calls(before: VmModel, after: VmModel, result: RunResult<Called>, model: Outcome) -> bool {
    match model {
        Ok(made) => after == placed(before, made).0 && (result matches Ok(called) && called@ == placed(before, made).1),
        Err(expected) => after == before && (result matches Err(error) && error@ == expected),
    }
}

/// What a call gives and leaves behind: what the model says or, where its time
/// ran out on the way or it looked at the memory in use and found too much, an
/// error and a heap that still holds what it held.
pub open spec fn calls_in_limits(
    before: VmModel,
    after: VmModel,
    result: RunResult<Called>,
    model: Outcome,
    memory: bool,
) -> bool {
    ||| calls(before, after, result, model)
    ||| {
        &&& scanned(model)
        &&& timed_out(before.tracker, result) || memory && out_of_memory(before.tracker, result)
        &&& extends(before, after)
    }
}

/// The method looks at the memory in use: while it replaces, and while it makes
/// a list of parts.
pub open spec fn method_looks_at_memory(
    vm: VmModel,
    bytes: Seq<u8>,
    method: BytesMethod,
    args: ArgsModel,
    reply: Option<ReplyModel>,
) -> bool {
    ||| method is Replace && replacing_looks_at_memory(vm, bytes, args)
    ||| method_model(vm, bytes, method, args, reply) matches Ok(MadeModel::Parts(parts)) && parts.len() > 0
}

/// The state holds what the other holds, and maybe more items.
pub open spec fn extends(before: VmModel, after: VmModel) -> bool {
    &&& after.strings == before.strings
    &&& after.literals == before.literals
    &&& after.tracker == before.tracker
    &&& before.heap.len() <= after.heap.len()
    &&& after.heap.subrange(0, before.heap.len() as int) == before.heap
}

/// Puts byte strings on the heap and gives references to them. The run is held
/// against its limits on the way where `polls` says so.
fn allocate_parts(parts: Vec<Vec<u8>>, polls: bool, vm: &mut VM) -> (values: Result<Vec<Value>, ResourceError>)
    ensures
        extends(old(vm)@, final(vm)@),
        match values {
            Ok(values) => values@ == refs_from(old(vm)@.heap.len() as int, parts@.len()) && final(vm)@.heap == old(
                vm,
            )@.heap + bytes_items(all_bytes(parts@)),
            Err(limit) => parts@.len() > 0 && polls && may_stop(old(vm)@.tracker, limit),
        },
{
    let ghost before = vm@;
    let mut values: Vec<Value> = Vec::new();
    let mut i: usize = 0;
    let ghost items = bytes_items(all_bytes(parts@));
    proof {
        assert(before.heap + items.subrange(0, 0) =~= before.heap);
        assert(before.heap.subrange(0, before.heap.len() as int) =~= before.heap);
    }
    while i < parts.len()
        invariant
            i <= parts@.len(),
            items == bytes_items(all_bytes(parts@)),
            extends(before, vm@),
            before == old(vm)@,
            vm@.heap == before.heap + items.subrange(0, i as int),
            values@.len() == i,
            forall|j: int| 0 <= j < i ==> values@[j] == Value::Ref((before.heap.len() + j) as usize),
        decreases parts@.len() - i,
    {
        if polls {
            check_memory_time_every(i, &vm.tracker)?;
        }
        let copy = copied(parts[i].as_slice(), 0, parts[i].len());
        assert(copy@ =~= parts@[i as int]@);
        let id: usize = vm.allocate(HeapData::Bytes(Bytes::new(copy)));
        values.push(Value::Ref(id));
        proof {
            assert(items[i as int] == DataModel::Bytes(copy@));
            assert(vm@.heap =~= before.heap + items.subrange(0, i + 1));
            assert(vm@.heap.subrange(0, before.heap.len() as int) =~= before.heap);
        }
        i = i + 1;
    }
    assert(values@ =~= refs_from(before.heap.len() as int, parts@.len()));
    assert(items.subrange(0, parts@.len() as int) =~= items);
    Ok(values)
}

/// Puts what was made on the heap.
fn place(made: Made, vm: &mut VM) -> (result: RunResult<Called>)
    ensures
        calls_in_limits(
            old(vm)@,
            final(vm)@,
            result,
            Ok::<MadeModel, ErrorModel>(made@),
            made@ matches MadeModel::Parts(parts) && parts.len() > 0,
        ),
        !(made@ is Parts) ==> calls(
            old(vm)@,
            final(vm)@,
            result,
            Ok::<MadeModel, ErrorModel>(made@),
        ),
{
    let ghost before = vm@;
    match made {
        Made::Plain(value) => Ok(Called::Done(value)),
        Made::Ask(question) => Ok(Called::Ask(question)),
        Made::Bytes(bytes) => Ok(Called::Done(Value::Ref(vm.allocate(HeapData::Bytes(Bytes::new(bytes)))))),
        Made::Text(text) => Ok(Called::Done(Value::Ref(vm.allocate(HeapData::Str(text))))),
        Made::Parts(parts) => {
            match allocate_parts(parts, true, vm) {
                Ok(values) => {
                    let id: usize = vm.allocate(HeapData::List(values));
                    assert(vm@ =~= placed(before, MadeModel::Parts(all_bytes(parts@))).0);
                    Ok(Called::Done(Value::Ref(id)))
                },
                Err(limit) => {
                    let error = run_error(limit);
                    assert(may_time_out(before.tracker, limit) ==> timed_out(
                        before.tracker,
                        Err::<Called, RunError>(error),
                    ));
                    Err(error)
                },
            }
        },
        Made::Triple(a, b, c) => {
            let parts = vec![a, b, c];
            assert(all_bytes(parts@) =~= seq![a@, b@, c@]);
            match allocate_parts(parts, false, vm) {
                Ok(values) => {
                    let id: usize = vm.allocate(HeapData::Tuple(values));
                    assert(vm@ =~= placed(before, MadeModel::Triple(a@, b@, c@)).0);
                    Ok(Called::Done(Value::Ref(id)))
                },
                Err(limit) => {
                    assert(false);
                    Err(run_error(limit))
                },
            }
        },
    }
}

/// What a call of a method by its name gives.
pub open spec fn named_method_model(
    vm: VmModel,
    bytes: Seq<u8>,
    name: Seq<char>,
    args: ArgsModel,
    reply: Option<ReplyModel>,
) -> Outcome {
    match method_called(name) {
        Some(method) => method_model(vm, bytes, method, args, reply),
        None => Err(raised(ExcType::AttributeError, "'bytes' object has no attribute '"@ + name + "'"@)),
    }
}

/// What a call of a method by its name gives and leaves behind. Only a method
/// that scans can be stopped.
pub open spec fn calls_named(
    before: VmModel,
    after: VmModel,
    result: RunResult<Called>,
    bytes: Seq<u8>,
    name: Seq<char>,
    args: ArgsModel,
    reply: Option<ReplyModel>,
) -> bool {
    let model = named_method_model(before, bytes, name, args, reply);
    match method_called(name) {
        Some(method) if scans(method) => calls_in_limits(
            before,
            after,
            result,
            model,
            method_looks_at_memory(before, bytes, method, args, reply),
        ),
        _ => calls(before, after, result, model),
    }
}

/// The method of a name.
fn method_named(name: &str) -> (method: RunResult<BytesMethod>)
    ensures
        match method {
            Ok(method) => method_called(name@) == Some(method),
            Err(error) => method_called(name@) is None && error@ == raised(
                ExcType::AttributeError,
                "'bytes' object has no attribute '"@ + name@ + "'"@,
            ),
        },
{
    match find_method(name) {
        Some(method) => Ok(method),
        None => Err(raise3(ExcType::AttributeError, "'bytes' object has no attribute '", name, "'")),
    }
}

/// Calls a method and puts what it makes on the heap.
fn call_method(bytes: &[u8], method: BytesMethod, args: &ArgValues, vm: &mut VM, reply: Option<Reply>) -> (
    result: RunResult<Called>)
    requires
        holds_args(old(vm)@, args@),
        holds_reply(old(vm)@, reply_model(reply)),
        old(vm)@.wf(),
        bytes@.len() < i64::MAX,
    ensures
        ({
            let model = method_model(old(vm)@, bytes@, method, args@, reply_model(reply));
            if scans(method) {
                calls_in_limits(
                    old(vm)@,
                    final(vm)@,
                    result,
                    model,
                    method_looks_at_memory(old(vm)@, bytes@, method, args@, reply_model(reply)),
                )
            } else {
                calls(old(vm)@, final(vm)@, result, model)
            }
        }),
{
    let ghost before = vm@;
    proof {
        assert(before.heap.subrange(0, before.heap.len() as int) =~= before.heap);
    }
    match call_bytes_method_impl(bytes, method, args, &*vm, reply) {
        Ok(made) => place(made, vm),
        Err(error) => {
            proof {
                let failed = Err::<Made, RunError>(error);
                let ended = Err::<Called, RunError>(error);
                assert(timed_out(before.tracker, failed) ==> timed_out(before.tracker, ended));
            }
            Err(error)
        },
    }
}

/// Calls a method of a byte string by its interned name.
pub fn call_bytes_method(bytes: &[u8], method_id: StringId, args: &ArgValues, vm: &mut VM, reply: Option<Reply>) -> (
    result: RunResult<Called>)
    requires
        method_id < old(vm)@.strings.len(),
        holds_args(old(vm)@, args@),
        holds_reply(old(vm)@, reply_model(reply)),
        old(vm)@.wf(),
        bytes@.len() < i64::MAX,
    ensures
        calls_named(
            old(vm)@,
            final(vm)@,
            result,
            bytes@,
            old(vm)@.strings[method_id as int],
            args@,
            reply_model(reply),
        ),
{
    let method = match method_named(vm.strings[method_id as usize].as_str()) {
        Ok(method) => method,
        Err(error) => return Err(error),
    };
    call_method(bytes, method, args, vm, reply)
}

impl HeapRead<Bytes> {
    /// Calls a method of a byte string on the heap by its name.
    pub fn py_call_attr(&self, attr: &EitherStr, args: &ArgValues, vm: &mut VM, reply: Option<Reply>) -> (
        result: RunResult<Called>)
        requires
            old(vm)@.holds_text(attr@),
            holds_args(old(vm)@, args@),
            holds_reply(old(vm)@, reply_model(reply)),
            old(vm)@.wf(),
            self.item@.len() < i64::MAX,
        ensures
            calls_named(
                old(vm)@,
                final(vm)@,
                result,
                self.item@,
                old(vm)@.chars(attr@),
                args@,
                reply_model(reply),
            ),
    {
        let method = match method_named(vm.text_of_either(attr)) {
            Ok(method) => method,
            Err(error) => return Err(error),
        };
        call_method(self.item.as_slice(), method, args, vm, reply)
    }
}

/// A result of a call as a mathematical value.
pub open spec fn called_of(result: RunResult<Called>) -> Result<CalledModel, ErrorModel> {
    match result {
        Ok(called) => Ok(called@),
        Err(error) => Err(error@),
    }
}

/// A method gives on a literal what it gives on a byte string of the heap that
/// holds the same, and leaves the same behind, unless a limit stops one of
/// them.
pub proof fn law_literals_answer_like_items(
    before: VmModel,
    on_literal: (VmModel, RunResult<Called>),
    on_item: (VmModel, RunResult<Called>),
    bytes: Seq<u8>,
    name: Seq<char>,
    args: ArgsModel,
    reply: Option<ReplyModel>,
)
    requires
        calls_named(before, on_literal.0, on_literal.1, bytes, name, args, reply),
        calls_named(before, on_item.0, on_item.1, bytes, name, args, reply),
        !stopped(before.tracker, on_literal.1),
        !stopped(before.tracker, on_item.1),
    ensures
        on_literal.0 == on_item.0,
        called_of(on_literal.1) == called_of(on_item.1),
{
}

/// A name that is no method of byte strings is an error, and leaves everything
/// as it was.
pub proof fn law_unknown_methods_are_errors(
    before: VmModel,
    after: VmModel,
    result: RunResult<Called>,
    bytes: Seq<u8>,
    name: Seq<char>,
    args: ArgsModel,
    reply: Option<ReplyModel>,
)
    requires
        method_called(name) is None,
        calls_named(before, after, result, bytes, name, args, reply),
    ensures
        after == before,
        called_of(result) == Err::<CalledModel, ErrorModel>(
            raised(ExcType::AttributeError, "'bytes' object has no attribute '"@ + name + "'"@),
        ),
{
}

/// A byte string that stands on the heap still stands there after a call.
pub proof fn law_calls_leave_the_heap(
    before: VmModel,
    after: VmModel,
    result: RunResult<Called>,
    bytes: Seq<u8>,
    name: Seq<char>,
    args: ArgsModel,
    reply: Option<ReplyModel>,
    id: int,
)
    requires
        calls_named(before, after, result, bytes, name, args, reply),
        0 <= id < before.heap.len(),
    ensures
        id < after.heap.len(),
        after.heap[id] == before.heap[id],
{
    if !(named_method_model(before, bytes, name, args, reply) matches Ok(made) && after == placed(before, made).0) {
        if extends(before, after) {
            assert(after.heap.subrange(0, before.heap.len() as int)[id] == after.heap[id]);
        }
    }
}

/// Reads bytes that a text writes in hexadecimal digits.
pub fn bytes_fromhex(args: &ArgValues, vm: &mut VM) -> (result: RunResult<Called>)
    requires
        holds_args(old(vm)@, args@),
    ensures
        calls(old(vm)@, final(vm)@, result, fromhex_model(old(vm)@, args@)),
{
    let made = make_fromhex(args, &*vm)?;
    place(made, vm)
}

/// The parameters of the constructor.
pub open spec fn init_params() -> Seq<Seq<char>> {
    seq!["source"@, "encoding"@, "errors"@]
}

/// The bytes of a constructor call without an encoding.
pub open spec fn plain_source(vm: VmModel, source: Option<Value>) -> Outcome {
    match source {
        None => Ok(MadeModel::Bytes(Seq::empty())),
        Some(value) => match immediate(value) {
            Some(n) => if n < 0 {
                Err(value_error_model("negative count"@))
            } else if n > usize::MAX {
                Err(raised(ExcType::OverflowError, "cannot fit 'int' into an index-sized integer"@))
            } else {
                match size_excess(vm.tracker, capped_product(n as int, 1, usize::MAX as int) as usize) {
                    Some(limit) => Err(limit_error(limit)),
                    None => Ok(MadeModel::Bytes(Seq::new(n as nat, |i: int| 0u8))),
                }
            },
            None => match vm.bytes_of(value) {
                Some(bytes) => Ok(MadeModel::Bytes(bytes)),
                None => Err(
                    type_error_model("cannot convert '"@ + vm.name_of_type(value) + "' object to bytes"@),
                ),
            },
        },
    }
}

/// The names that a constructor call gives for an encoding and an error
/// handler, the first of them a text of its own.
pub open spec fn init_names(vm: VmModel, slots: Seq<Option<Value>>) -> Result<(Seq<char>, Seq<char>), ErrorModel> {
    codec_args(vm, "bytes"@, slots[1], slots[2])
}

/// The constructor: nothing, so many zeros, a copy, or a text in an encoding,
/// which the host encodes. An encoding wants a text, a text wants an encoding,
/// and an error handler alone is wrong.
pub open spec fn init_model(vm: VmModel, args: ArgsModel, reply: Option<ReplyModel>) -> Outcome {
    match bound_args("bytes"@, init_params(), 0, args) {
        Err(error) => Err(error),
        Ok(slots) => match init_names(vm, slots) {
            Err(error) => Err(error),
            Ok((encoding, errors)) => {
                let text = match slots[0] {
                    Some(value) => vm.text_of(value) is Some,
                    None => false,
                };
                if slots[1] is Some {
                    if !text {
                        Err(type_error_model("encoding without a string argument"@))
                    } else {
                        match reply {
                            Some(ReplyModel::Bytes(bytes)) => Ok(MadeModel::Bytes(bytes)),
                            Some(ReplyModel::Failed(error)) => Err(error),
                            _ => Ok(
                                MadeModel::Ask(
                                    QuestionModel::Encode { source: slots[0]->Some_0, encoding, errors },
                                ),
                            ),
                        }
                    }
                } else if text {
                    Err(type_error_model("string argument without an encoding"@))
                } else if slots[2] is Some {
                    Err(type_error_model("errors without a string argument"@))
                } else {
                    plain_source(vm, slots[0])
                }
            },
        },
    }
}

/// Makes the bytes of a constructor call without an encoding.
fn make_plain_source(vm: &VM, source: Option<Value>) -> (result: RunResult<Made>)
    requires
        source matches Some(value) ==> vm@.holds(value),
    ensures
        makes(result, plain_source(vm@, source)),
{
    match source {
        None => Ok(Made::Bytes(Vec::new())),
        Some(value) => match immediate_int(value) {
            Some(n) => {
                if n < 0 {
                    return Err(value_error("negative count"));
                }
                if n as u64 > usize::MAX as u64 {
                    return Err(raise(ExcType::OverflowError, "cannot fit 'int' into an index-sized integer"));
                }
                let size: usize = n as usize;
                match check_repeat_size(size, 1, &vm.tracker) {
                    Ok(_) => {},
                    Err(limit) => return Err(run_error(limit)),
                }
                let zeros: Vec<u8> = vec![0u8; size];
                assert(zeros@ =~= Seq::new(n as nat, |i: int| 0u8));
                Ok(Made::Bytes(zeros))
            },
            None => match vm.get_bytes(value) {
                Some(bytes) => Ok(Made::Bytes(slice_to_vec(bytes))),
                None => Err(
                    raise3(
                        ExcType::TypeError,
                        "cannot convert '",
                        vm.py_type_name(value),
                        "' object to bytes",
                    ),
                ),
            },
        },
    }
}

/// Makes the bytes of a constructor call.
fn make_init(vm: &VM, args: &ArgValues, reply: Option<Reply>) -> (result: RunResult<Made>)
    requires
        holds_args(vm@, args@),
    ensures
        makes(result, init_model(vm@, args@, reply_model(reply))),
{
    let params = vec!["source", "encoding", "errors"];
    assert(texts_of(params@) =~= init_params());
    let slots = bind_held(vm, args, "bytes", &params, 0)?;
    let (encoding, errors) = parse_codec_args(vm, "bytes", slots[1], slots[2])?;
    let source = slots[0];
    let text: bool = match source {
        Some(value) => vm.get_text(value).is_some(),
        None => false,
    };
    if slots[1].is_some() {
        if !text {
            return Err(type_error("encoding without a string argument"));
        }
        return match reply {
            Some(Reply::Bytes(bytes)) => Ok(Made::Bytes(bytes)),
            Some(Reply::Failed(error)) => Err(error),
            _ => Ok(
                Made::Ask(
                    Question::Encode {
                        source: source.unwrap(),
                        encoding: encoding.to_owned(),
                        errors: errors.to_owned(),
                    },
                ),
            ),
        };
    }
    if text {
        return Err(type_error("string argument without an encoding"));
    }
    if slots[2].is_some() {
        return Err(type_error("errors without a string argument"));
    }
    make_plain_source(vm, source)
}

impl Bytes {
    /// Makes a byte string as the constructor does.
    pub fn init(vm: &mut VM, args: &ArgValues, reply: Option<Reply>) -> (result: RunResult<Called>)
        requires
            holds_args(old(vm)@, args@),
        ensures
            calls(old(vm)@, final(vm)@, result, init_model(old(vm)@, args@, reply_model(reply))),
    {
        let made = make_init(&*vm, args, reply)?;
        place(made, vm)
    }
}

/// The three parts that a partition gives make the whole.
pub proof fn law_partitions_make_the_whole(vm: VmModel, bytes: Seq<u8>, args: ArgsModel, last: bool)
    ensures
        partition_model(vm, bytes, args, last) matches Ok(MadeModel::Triple(before, sep, after)) ==> before + sep + after
            == bytes,
{
    if args.positional.len() == 1 {
        match bytes_only(vm, args.positional[0]) {
            Ok(sep) if sep.len() > 0 => {
                lemma_first_from(bytes, sep, 0);
                lemma_last_before(bytes, sep, bytes.len() as int);
                let place = if last {
                    last_before(bytes, sep, bytes.len() as int)
                } else {
                    first_from(bytes, sep, 0)
                };
                match place {
                    Some(at) => {
                        assert(bytes.subrange(0, at) + sep + bytes.subrange(at + sep.len(), bytes.len() as int)
                            =~= bytes);
                    },
                    None => {
                        assert(bytes + Seq::<u8>::empty() + Seq::<u8>::empty() =~= bytes);
                        assert(Seq::<u8>::empty() + Seq::<u8>::empty() + bytes =~= bytes);
                    },
                }
            },
            _ => {},
        }
    }
}

} // verus!
