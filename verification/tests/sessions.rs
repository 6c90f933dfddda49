use std::collections::hash_map::DefaultHasher;
use std::hash::{Hash, Hasher};

use monty::args::ArgValues;
use monty::asyncio::{
    construct, error_as_value_opt, init_future, AsyncPrimitive, AsyncType, Combinator, CombinatorAnswer, Future, FutureAnswer,
    FutureKind, FutureState, NewFuture, TaskRun,
};
use monty::attrgetter::{call as get_attributes, init as new_getter, AttributeReply, GetAnswer};
use monty::code::{Code, CodeMode};
use monty::contextvar::{self, ContextAnswer};
use monty::contextvars::{self, VarAnswer};
use monty::cwd::canonical_cwd;
use monty::event_loop::EventLoop;
use monty::exceptions::{raise, ExcType, RunError, RunResult};
use monty::heap::{HeapData, HeapRead, VM};
use monty::program::Program;
use monty::repl::{
    call_turn, convert_args, inject_inputs, AfterRun, AutoOsCalls, CallAction, CallExit, CompileOptions, ConvertedExit,
    Executor, ExtFunctionResult,
    LookupAction, LookupScope, MontyRepl, NameLookupResult, ReplProgress, RunEnd, SessionTables, VMSnapshot,
};
use monty::repl_continuation::{
    continuation_mode, detect_repl_continuation_mode, starts_with_triple_quote, ReplContinuationMode, SourceError,
    SourceErrorKind,
};
use monty::parse::CodeRange;
use monty::resource_checks::{
    check_div_size, check_lshift_size, check_mult_size, check_pow_size, check_repeat_size, check_replace_size,
    estimate_bits_to_bytes, run_error, ResourceError, ResourceTracker,
};
use monty::str_format::{format_template, FormatQuestion, FormatReply, Formatted, ItemKey, Numbering};
use monty::value::{EitherStr, Value};

fn free() -> ResourceTracker {
    ResourceTracker::new(None, None)
}

fn vm() -> VM {
    VM::new(vec!["v".to_owned(), "__main__".to_owned()], vec![], free())
}

fn args(positional: Vec<Value>) -> ArgValues {
    ArgValues { positional, keywords: vec![] }
}

fn error<T>(result: RunResult<T>) -> (ExcType, String) {
    match result {
        Ok(_) => panic!("an error was expected"),
        Err(error) => (error.exc_type, error.message.unwrap_or_default()),
    }
}

// ---------------------------------------------------------------- templates

/// Formats with a host that shows integers by their digits.
fn format(template: &str, positional: Vec<Value>, named: Vec<(String, Value)>) -> RunResult<String> {
    let run = vm();
    let mut replies: Vec<FormatReply> = vec![];
    loop {
        match format_template(template, &positional, &named, &run, &replies)? {
            Formatted::Done(text) => return Ok(text),
            Formatted::Ask(question) => replies.push(match question {
                FormatQuestion::Str(Value::Int(n)) | FormatQuestion::Repr(Value::Int(n)) => FormatReply::Text(n.to_string()),
                FormatQuestion::Ascii(Value::Int(n)) => FormatReply::Text(format!("ascii {n}")),
                FormatQuestion::Attribute(Value::Int(n), name) => match name.as_str() {
                    "next" => FormatReply::Value(Value::Int(n + 1)),
                    "lazy" => FormatReply::Suspends,
                    _ => FormatReply::Failed(raise(ExcType::AttributeError, "no such attribute")),
                },
                FormatQuestion::Item(Value::Int(n), ItemKey::Index(i)) => FormatReply::Value(Value::Int(n * 10 + i)),
                FormatQuestion::Item(Value::Int(n), ItemKey::Name(name)) => FormatReply::Value(Value::Int(n + name.len() as i64)),
                FormatQuestion::Format(subject, spec) => match spec.as_str() {
                    "bad" => FormatReply::BadSpec("Invalid format specifier 'bad'".to_owned(), true),
                    _ => FormatReply::Text(format!("{subject:?}|{spec}")),
                },
                _ => panic!("an integer was expected"),
            }),
        }
    }
}

#[test]
fn fields_are_filled_in_order() {
    assert_eq!(format("{}-{}", vec![Value::Int(1), Value::Int(2)], vec![]).ok(), Some("1-2".to_owned()));
    assert_eq!(format("{1}{0}{1}", vec![Value::Int(1), Value::Int(2)], vec![]).ok(), Some("212".to_owned()));
    assert_eq!(format("<{n}>", vec![], vec![("n".to_owned(), Value::Int(7))]).ok(), Some("<7>".to_owned()));
}

#[test]
fn doubled_braces_stand_for_one_wherever_they_are() {
    assert_eq!(format("{} {{}} {}", vec![Value::Int(1), Value::Int(2)], vec![]).ok(), Some("1 {} 2".to_owned()));
    assert_eq!(format("{1} {{1}} {0}", vec![Value::Int(1), Value::Int(2)], vec![]).ok(), Some("2 {1} 1".to_owned()));
}

#[test]
fn doubled_braces_stand_for_one() {
    assert_eq!(format("{{}}", vec![], vec![]).ok(), Some("{}".to_owned()));
    assert_eq!(format("a{{b}}c", vec![], vec![]).ok(), Some("a{b}c".to_owned()));
}

#[test]
fn fields_read_attributes_and_items() {
    assert_eq!(format("{0.next.next}", vec![Value::Int(1)], vec![]).ok(), Some("3".to_owned()));
    assert_eq!(format("{0[5]}", vec![Value::Int(1)], vec![]).ok(), Some("15".to_owned()));
    assert_eq!(format("{0[key]}", vec![Value::Int(1)], vec![]).ok(), Some("4".to_owned()));
    assert_eq!(format("{0[99999999999999999999]}", vec![Value::Int(1)], vec![]).ok(), Some("21".to_owned()));
}

#[test]
fn conversions_and_specifications() {
    assert_eq!(format("{!r}", vec![Value::Int(4)], vec![]).ok(), Some("4".to_owned()));
    assert_eq!(format("{!a}", vec![Value::Int(4)], vec![]).ok(), Some("ascii 4".to_owned()));
    assert_eq!(format("{:>5}", vec![Value::Int(4)], vec![]).ok(), Some("Value(Int(4))|>5".to_owned()));
    assert_eq!(format("{!s:>5}", vec![Value::Int(4)], vec![]).ok(), Some("Text(\"4\")|>5".to_owned()));
    assert_eq!(format("{:{}}", vec![Value::Int(4), Value::Int(9)], vec![]).ok(), Some("Value(Int(4))|9".to_owned()));
}

#[test]
fn broken_templates_are_refused() {
    let message = |template: &str| error(format(template, vec![Value::Int(1)], vec![])).1;
    assert_eq!(message("}"), "Single '}' encountered in format string");
    assert_eq!(message("{"), "expected '}' before end of string");
    assert_eq!(message("{0!}"), "end of string while looking for conversion specifier");
    assert_eq!(message("{0!rx}"), "expected ':' after conversion specifier");
    assert_eq!(message("{0!z}"), "Unknown conversion specifier z");
    assert_eq!(message("{0.}"), "Empty attribute in format string");
    assert_eq!(message("{0[x}"), "Missing ']' in format string");
    assert_eq!(message("{0:{1:{2}}}"), "Replacement index 1 out of range for positional args tuple");
    assert_eq!(message("{0:{0:{0}}}"), "Max string recursion exceeded");
    assert_eq!(message("{5}"), "Replacement index 5 out of range for positional args tuple");
    assert_eq!(message("{99999999999999999999}"), "Replacement index 99999999999999999999 is too large");
    assert_eq!(message("{x}"), "'x'");
    assert_eq!(message("{0:bad}"), "Invalid format specifier 'bad' for object of type 'int'");
    assert_eq!(
        message("{0.lazy}"),
        "reading 'lazy' in a format field would have to run code, which it cannot here"
    );
    assert_eq!(message("{0.other}"), "no such attribute");
}

#[test]
fn numberings_do_not_mix() {
    let both = vec![Value::Int(1), Value::Int(2)];
    assert_eq!(
        error(format("{}{0}", both.clone(), vec![])).1,
        "cannot switch from automatic field numbering to manual field specification"
    );
    assert_eq!(
        error(format("{0}{}", both, vec![])).1,
        "cannot switch from manual field specification to automatic field numbering"
    );
    let mut numbering = Numbering::Untouched;
    assert_eq!(numbering.next().ok(), Some(0));
    assert_eq!(numbering.next().ok(), Some(1));
    assert!(numbering.by_hand().is_err());
}

// ---------------------------------------------------------- async objects

#[test]
fn coordination_objects_are_made() {
    let run = vm();
    let made = construct(AsyncType::Semaphore, &args(vec![Value::Int(2)]), &run);
    assert!(matches!(&made, Ok(AsyncPrimitive::Semaphore(s)) if s.value == 2 && s.bound.is_none()));
    let made = construct(AsyncType::BoundedSemaphore, &args(vec![]), &run);
    assert!(matches!(&made, Ok(AsyncPrimitive::Semaphore(s)) if s.value == 1 && s.bound == Some(1)));
    assert_eq!(made.ok().map(|made| made.py_repr()), Some("<BoundedSemaphore>".to_owned()));
    let made = construct(AsyncType::Queue, &args(vec![Value::Int(-3)]), &run);
    assert_eq!(made.ok().and_then(|made| made.py_getattr("maxsize")), Some(Value::Int(0)));
    let made = construct(AsyncType::Barrier, &args(vec![Value::Int(2)]), &run).ok().expect("a barrier");
    assert_eq!(made.py_getattr("parties"), Some(Value::Int(2)));
    assert_eq!(made.py_getattr("n_waiting"), Some(Value::Int(0)));
    assert!(construct(AsyncType::Lock, &args(vec![]), &run).is_ok());
    assert!(construct(AsyncType::Event, &args(vec![]), &run).is_ok());
    assert!(construct(AsyncType::TaskGroup, &args(vec![]), &run).is_ok());
}

#[test]
fn bad_constructor_arguments_are_refused() {
    let run = vm();
    let message = |of, given| error(construct(of, &args(given), &run)).1;
    assert_eq!(message(AsyncType::Semaphore, vec![Value::Int(-1)]), "Semaphore initial value must be >= 0");
    assert_eq!(message(AsyncType::Barrier, vec![Value::Int(0)]), "parties must be > 0");
    assert_eq!(message(AsyncType::Barrier, vec![]), "Barrier() missing 1 required positional argument: 'parties'");
}

#[test]
fn a_queue_object_lists_what_it_keeps_alive() {
    let run = vm();
    let Ok(mut made) = construct(AsyncType::Queue, &args(vec![]), &run) else { panic!("a queue") };
    let mut none = vec![];
    made.owned_ids(&mut none);
    assert!(none.is_empty());
    if let AsyncPrimitive::Queue(queue) = &mut made {
        queue.items.push_back(Value::Ref(1));
        queue.items.push_back(Value::Int(9));
        queue.getters.push_back(2);
        queue.putters.push_back((3, Value::Ref(4)));
        queue.join_waiters.push_back(5);
    }
    let (mut owned, mut dropped) = (vec![], vec![]);
    made.owned_ids(&mut owned);
    made.py_dec_ref_ids(&mut dropped);
    assert_eq!(owned, vec![1, 2, 3, 4, 5]);
    assert_eq!(owned, dropped);
}

fn ask(future: &mut HeapRead<Future>, name: &str, given: Vec<Value>) -> RunResult<FutureAnswer> {
    future.py_call_attr(8, name, &args(given), &mut vm())
}

#[test]
fn a_pending_future_can_be_set() {
    let mut future = HeapRead { item: Future::new(FutureKind::Future, None) };
    assert!(matches!(ask(&mut future, "done", vec![]), Ok(FutureAnswer::Value(Value::Bool(false)))));
    assert_eq!(error(ask(&mut future, "result", vec![])), (ExcType::InvalidStateError, "Result is not set.".to_owned()));
    assert_eq!(error(ask(&mut future, "exception", vec![])).1, "Exception is not set.");
    assert!(matches!(ask(&mut future, "set_result", vec![Value::Int(3)]), Ok(FutureAnswer::Settle(Value::Int(3)))));
    assert!(matches!(ask(&mut future, "cancel", vec![]), Ok(FutureAnswer::Cancel(Value::NoneValue))));
    assert_eq!(future.py_getattr("_asyncio_future_blocking"), Some(Value::Bool(true)));
    assert_eq!(future.py_repr(""), "<Future pending>");
}

#[test]
fn a_settled_future_stays() {
    let mut future = HeapRead { item: Future::new(FutureKind::Future, None) };
    future.item.state = FutureState::Finished(Value::Int(3));
    assert!(matches!(ask(&mut future, "result", vec![]), Ok(FutureAnswer::Value(Value::Int(3)))));
    assert_eq!(error(ask(&mut future, "set_result", vec![Value::Int(4)])).1, "invalid state");
    assert_eq!(error(ask(&mut future, "set_exception", vec![Value::Int(4)])).1, "invalid state");
    let answer = ask(&mut future, "add_done_callback", vec![Value::Builtin(1)]);
    assert!(matches!(answer, Ok(FutureAnswer::Schedule(Value::Builtin(1)))));
    assert_eq!(future.py_repr("3"), "<Future finished result=3>");
    future.item.state = FutureState::Failed(raise(ExcType::ValueError, "no"));
    assert_eq!(error(ask(&mut future, "result", vec![])), (ExcType::ValueError, "no".to_owned()));
    assert!(matches!(ask(&mut future, "exception", vec![]), Ok(FutureAnswer::Exception(_))));
    future.item.state = FutureState::Failed(run_error(ResourceError::Memory { limit: 1, used: 2 }));
    assert!(matches!(ask(&mut future, "exception", vec![]), Ok(FutureAnswer::Value(Value::NoneValue))));
}

#[test]
fn callbacks_come_and_go() {
    let mut future = HeapRead { item: Future::new(FutureKind::Future, None) };
    for callback in [1, 2, 1] {
        assert!(ask(&mut future, "add_done_callback", vec![Value::Builtin(callback)]).is_ok());
    }
    let removed = ask(&mut future, "remove_done_callback", vec![Value::Builtin(1)]);
    assert!(matches!(removed, Ok(FutureAnswer::Value(Value::Int(2)))));
    assert_eq!(future.item.callbacks, vec![Value::Builtin(2)]);
}

#[test]
fn only_tasks_have_names() {
    let mut run = vm();
    let mut task = HeapRead { item: Future::new(FutureKind::Task, Some(TaskRun { task_id: 12, coroutine: Some(4) })) };
    let Ok(FutureAnswer::Value(named)) = task.py_call_attr(8, "get_name", &args(vec![]), &mut run) else { panic!("a name") };
    assert_eq!(run.get_text(named), Some("Task-12"));
    task.item.set_name(EitherStr::Interned(0));
    assert!(matches!(ask(&mut task, "get_name", vec![]), Ok(FutureAnswer::Value(Value::InternString(0)))));
    assert!(matches!(ask(&mut task, "get_coro", vec![]), Ok(FutureAnswer::Value(Value::Ref(4)))));
    assert!(matches!(ask(&mut task, "uncancel", vec![]), Ok(FutureAnswer::Value(Value::Int(0)))));
    assert!(matches!(ask(&mut task, "__await__", vec![]), Ok(FutureAnswer::Value(Value::Ref(8)))));
    let mut future = HeapRead { item: Future::new(FutureKind::Future, None) };
    assert_eq!(error(ask(&mut future, "get_name", vec![])).1, "'Future' object has no attribute 'get_name'");
}

#[test]
fn tasks_run_coroutines() {
    let mut run = vm();
    let coroutine = Value::Ref(run.allocate(HeapData::Other { named: "coroutine".to_owned(), iterable: false }));
    assert!(matches!(init_future(FutureKind::Task, &args(vec![coroutine]), &run), Ok(NewFuture::Task(0))));
    assert_eq!(error(init_future(FutureKind::Task, &args(vec![Value::Int(1)]), &run)).1, "a coroutine was expected");
    assert!(matches!(init_future(FutureKind::Future, &args(vec![]), &run), Ok(NewFuture::Future)));
    assert!(error_as_value_opt(&raise(ExcType::ValueError, "x")).is_some());
}

#[test]
fn a_combinator_goes_on() {
    let all = HeapRead { item: Combinator { children: vec![1, 2, 3] } };
    assert_eq!((all.py_len(), all.py_repr()), (3, "<as_completed(3)>".to_owned()));
    assert!(matches!(all.py_call_attr(5, "__anext__", &args(vec![])), Ok(CombinatorAnswer::Next)));
    assert!(matches!(all.py_call_attr(5, "__aiter__", &args(vec![])), Ok(CombinatorAnswer::Value(Value::Ref(5)))));
    assert_eq!(error(all.py_call_attr(5, "x", &args(vec![]))).1, "'as_completed' object has no attribute 'x'");
}

#[test]
fn the_loop_is_running() {
    let running = HeapRead { item: EventLoop };
    assert_eq!(running.py_call_attr("is_running", &args(vec![])).ok(), Some(Value::Bool(true)));
    assert_eq!(running.py_call_attr("is_closed", &args(vec![])).ok(), Some(Value::Bool(false)));
    assert_eq!(error(running.py_call_attr("stop", &args(vec![]))).1, "'EventLoop' object has no attribute 'stop'");
    assert_eq!(running.py_repr(255), "<EventLoop running=True at 0xff>");
}

// ------------------------------------------------------- context variables

#[test]
fn a_reset_undoes_a_set() {
    let run = vm();
    let named = ArgValues { positional: vec![Value::InternString(0)], keywords: vec![("default".to_owned(), Value::Int(1))] };
    let mut var = HeapRead { item: contextvar::ContextVar::init(&named, &run).ok().expect("a variable") };
    assert_eq!(var.get_value(&args(vec![]), "v").ok(), Some(Value::Int(1)));
    let Ok(ContextAnswer::Token(token)) = var.py_call_attr(3, "set", &args(vec![Value::Int(9)]), None, "") else {
        panic!("a token")
    };
    assert_eq!(var.get_value(&args(vec![Value::Int(5)]), "v").ok(), Some(Value::Int(9)));
    let Ok(ContextAnswer::Spent(spent)) = var.py_call_attr(3, "reset", &args(vec![Value::Ref(7)]), Some(token), "t") else {
        panic!("spent")
    };
    assert_eq!(var.get_value(&args(vec![]), "v").ok(), Some(Value::Int(1)));
    let again = var.py_call_attr(3, "reset", &args(vec![Value::Ref(7)]), Some(spent), "<Token>");
    assert_eq!(error(again), (ExcType::RuntimeError, "<Token> has already been used once".to_owned()));
}

#[test]
fn a_token_belongs_to_its_variable() {
    let run = vm();
    let mut var = HeapRead { item: contextvar::ContextVar::init(&args(vec![Value::InternString(0)]), &run).ok().expect("one") };
    let token = var.set_value(3, &args(vec![Value::Int(9)])).ok().expect("a token");
    assert_eq!(
        error(var.reset_value(4, &args(vec![Value::Ref(7)]), Some(token), "<T>")),
        (ExcType::ValueError, "<T> was created by a different ContextVar".to_owned())
    );
    assert_eq!(
        error(var.reset_value(3, &args(vec![Value::Int(7)]), None, "7")),
        (ExcType::TypeError, "expected an instance of Token, got 7".to_owned())
    );
    let mut held = HeapRead { item: token };
    assert_eq!(held.py_exit(&mut var, "t").ok(), Some(Value::NoneValue));
    assert_eq!(error(var.get_value(&args(vec![]), "<ContextVar>")), (ExcType::LookupError, "<ContextVar>".to_owned()));
    assert_eq!(held.py_repr(16, "V"), "<Token used var=V at 0x10>");
    assert_eq!(var.py_repr(16, "'v'", None), "<ContextVar name='v' at 0x10>");
}

#[test]
fn a_variable_needs_a_name() {
    let run = vm();
    let message = |given: &ArgValues| error(contextvar::ContextVar::init(given, &run)).1;
    assert_eq!(message(&args(vec![Value::Int(1)])), "context variable name must be a str");
    let name = Value::InternString(0);
    assert_eq!(message(&args(vec![name, name])), "ContextVar() takes at most 1 positional argument (2 given)");
    assert_eq!(message(&args(vec![name, name, name])), "ContextVar() takes at most 2 arguments (3 given)");
    let named = ArgValues { positional: vec![name], keywords: vec![("other".to_owned(), name)] };
    assert_eq!(message(&named), "ContextVar() got an unexpected keyword argument 'other'");
    assert_eq!(
        error(contextvars::init(&args(vec![name, name]), &run)).1,
        "ContextVar() takes exactly 1 positional argument (2 given)"
    );
}

#[test]
fn a_spent_token_is_refused_first() {
    let mut run = vm();
    let mut var = HeapRead { item: contextvars::init(&args(vec![Value::InternString(0)]), &run).ok().expect("a variable") };
    let Ok(VarAnswer::Token(token)) = var.py_call_attr(3, "set", &args(vec![Value::Int(9)]), None, "") else { panic!("one") };
    let Ok(VarAnswer::Spent(spent)) = var.py_call_attr(3, "reset", &args(vec![Value::Ref(7)]), Some(token), "t") else {
        panic!("spent")
    };
    assert_eq!((spent.used, spent.old_value), (true, None));
    assert_eq!(error(var.call_reset(99, &args(vec![Value::Ref(7)]), Some(spent), "t")).0, ExcType::RuntimeError);
    assert_eq!(error(var.call_reset(99, &args(vec![Value::Ref(7)]), Some(token), "t")).0, ExcType::ValueError);
    assert_eq!(error(var.call_set(3, &args(vec![]))).1, "ContextVar.set() takes exactly one argument (0 given)");
    assert_eq!(error(var.call_get(&args(vec![]), "unset")), (ExcType::LookupError, "unset".to_owned()));
    assert_eq!(var.py_getattr("name", &mut run), Some(Value::InternString(0)));
    assert_eq!(var.repr_fmt(1, Some("0"), &run), "<ContextVar name='v' default=0 at 0x1>");
    let held = HeapRead { item: token };
    assert_eq!(held.py_getattr("old_value"), Some(Value::NoneValue));
    assert_eq!(held.repr_fmt(2, "V"), "<Token var=V at 0x2>");
}

// ------------------------------------------------------ getters and code

#[test]
fn getters_follow_dotted_names() {
    let mut run = vm();
    let one = Value::Ref(run.allocate(HeapData::Str("a.b".to_owned())));
    let two = Value::Ref(run.allocate(HeapData::Str("c".to_owned())));
    let getter = new_getter(&args(vec![one, two]), &run).ok().expect("a getter");
    assert_eq!(getter.py_repr(), "operator.attrgetter('a.b', 'c')");
    let target = args(vec![Value::Int(0)]);
    let mut replies = vec![];
    let mut asked = vec![];
    let value = loop {
        match get_attributes(&getter, &target, &mut run, &replies) {
            Ok(GetAnswer::Value(value)) => break value,
            Ok(GetAnswer::Ask(of, name)) => {
                asked.push((of, name));
                replies.push(AttributeReply::Value(Value::Int(replies.len() as i64 + 1)));
            }
            Err(_) => panic!("attributes"),
        }
    };
    assert_eq!(
        asked,
        vec![
            (Value::Int(0), "a".to_owned()),
            (Value::Int(1), "b".to_owned()),
            (Value::Int(0), "c".to_owned())
        ]
    );
    let Value::Ref(id) = value else { panic!("a tuple") };
    assert!(matches!(&run.heap[id], HeapData::Tuple(items) if *items == vec![Value::Int(2), Value::Int(3)]));
}

#[test]
fn getters_refuse_what_they_cannot_use() {
    let mut run = vm();
    assert_eq!(error(new_getter(&args(vec![]), &run)).1, "attrgetter expected 1 argument, got 0");
    assert_eq!(error(new_getter(&args(vec![Value::Int(1)]), &run)).1, "attribute name must be a string");
    let getter = new_getter(&args(vec![Value::InternString(0)]), &run).ok().expect("a getter");
    assert_eq!(error(get_attributes(&getter, &args(vec![]), &mut run, &vec![])).1, "attrgetter expected 1 argument, got 0");
    let replies = vec![AttributeReply::NotSimple];
    assert_eq!(
        error(get_attributes(&getter, &args(vec![Value::Int(0)]), &mut run, &replies)).1,
        "attrgetter(): attribute is not a simple value"
    );
    let replies = vec![AttributeReply::Value(Value::Int(5))];
    let got = get_attributes(&getter, &args(vec![Value::Int(0)]), &mut run, &replies);
    assert!(matches!(got, Ok(GetAnswer::Value(Value::Int(5)))));
}

#[test]
fn code_is_what_it_runs() {
    let code = |source: &str, file: &str, mode| HeapRead { item: Code::new(source.to_owned(), file.to_owned(), mode) };
    let a = code("1", "a.py", CodeMode::Eval);
    assert!(a.py_eq(&code("1", "b.py", CodeMode::Eval)));
    assert!(!a.py_eq(&code("1", "a.py", CodeMode::Exec)));
    assert_eq!((a.item.source(), a.item.filename(), a.item.mode()), ("1", "a.py", CodeMode::Eval));
    assert_eq!(a.py_hash(), code("1", "b.py", CodeMode::Eval).py_hash());
    assert_ne!(a.py_hash(), code("1", "a.py", CodeMode::Exec).py_hash());
    assert_ne!(a.py_hash(), code("2", "a.py", CodeMode::Eval).py_hash());
    let mut hasher = DefaultHasher::new();
    "1".hash(&mut hasher);
    CodeMode::Eval.hash(&mut hasher);
    assert_eq!(a.py_hash(), hasher.finish());
    assert_eq!(a.py_repr(), "<code object <module>, file \"a.py\">");
}

// ------------------------------------------------------- continuation

#[test]
fn complete_input_runs() {
    for source in ["", "1 + 1", "x = 1\n", "if True:\n    pass\n", "x = )", "\"unfinished"] {
        assert_eq!(detect_repl_continuation_mode(source), ReplContinuationMode::Complete, "{source}");
    }
}

#[test]
fn open_constructs_go_on() {
    for source in ["(1 +", "[1,", "x = '''abc", "x = \"\"\"abc", "f'''{x}", "@decorator\n"] {
        assert_eq!(detect_repl_continuation_mode(source), ReplContinuationMode::IncompleteImplicit, "{source}");
    }
}

#[test]
fn open_blocks_wait_for_a_blank_line() {
    for source in ["if True:\n", "def f():\n", "for x in y:", "class A:"] {
        assert_eq!(detect_repl_continuation_mode(source), ReplContinuationMode::IncompleteBlock, "{source}");
    }
}

#[test]
fn an_error_decides_what_to_do() {
    let mode = |source: &str, start, end, kind| continuation_mode(source, &Some(SourceError { start, end, kind }));
    assert_eq!(continuation_mode("x", &None), ReplContinuationMode::Complete);
    assert_eq!(mode("x", 0, 1, SourceErrorKind::Unnamed), ReplContinuationMode::Complete);
    assert_eq!(mode("x", 0, 1, SourceErrorKind::EndOfFile), ReplContinuationMode::IncompleteImplicit);
    assert_eq!(mode("x", 0, 1, SourceErrorKind::LexicalEnd), ReplContinuationMode::IncompleteImplicit);
    assert_eq!(mode("é'''", 0, 5, SourceErrorKind::UnclosedString), ReplContinuationMode::IncompleteImplicit);
    assert_eq!(mode("é'''", 1, 5, SourceErrorKind::UnclosedString), ReplContinuationMode::Complete);
    assert_eq!(mode("é'''", 0, 9, SourceErrorKind::UnclosedString), ReplContinuationMode::Complete);
    let decorator = "Expected class, function definition or async function definition after decorator".to_owned();
    assert_eq!(mode("@d", 2, 2, SourceErrorKind::Message(decorator.clone())), ReplContinuationMode::IncompleteImplicit);
    assert_eq!(mode("@d", 0, 2, SourceErrorKind::Message(decorator)), ReplContinuationMode::Complete);
}

#[test]
fn the_first_quote_decides() {
    assert!(starts_with_triple_quote(b"rb'''x"));
    assert!(starts_with_triple_quote(b"\"\"\""));
    assert!(!starts_with_triple_quote(b"'\"\"\""));
    assert!(!starts_with_triple_quote(b"''"));
    assert!(!starts_with_triple_quote(b"no quote"));
}

// ------------------------------------------------------------- sessions

/// Symbols with these names, each in a slot.
fn tables(names: &[&str]) -> SessionTables {
    let mut program = Program::new();
    for name in names {
        let id = program.interns.intern(name);
        assert!(program.globals.ensure_slot(id, CodeRange::default()).is_ok());
    }
    SessionTables { program, modules: vec![] }
}

fn compiled(names: &[&str]) -> Executor {
    Executor { tables: tables(names), namespace_size: names.len(), input_slots: vec![0], code: "call".to_owned() }
}

fn ended(globals: Vec<Value>) -> RunEnd {
    RunEnd { globals, cwd: None, random: vec![] }
}

#[test]
fn inputs_are_named_and_kept() {
    let mut repl = MontyRepl::new("main.py", free(), CompileOptions::default());
    assert_eq!(repl.feed_start(""), None);
    assert_eq!(repl.feed_start("x = 1").as_deref(), Some("<python-input-0>"));
    assert_eq!(repl.feed_start("y = 2").as_deref(), Some("<python-input-1>"));
    assert_eq!(repl.source("<python-input-0>").map(|text| text.as_str()), Some("x = 1"));
    assert_eq!(repl.source("<python-input-1>").map(|text| text.as_str()), Some("y = 2"));
    assert_eq!(repl.source("<python-input-2>"), None);
    assert_eq!((repl.cwd.as_str(), repl.heap_entry_count()), ("/", 0));
    repl.set_cwd("/tmp");
    assert_eq!(repl.cwd, "/tmp");
}

#[test]
fn working_directories_have_no_detours() {
    let mut repl = MontyRepl::new("main.py", free(), CompileOptions::default());
    for (path, cwd) in [
        ("/tmp/", "/tmp"),
        ("/a/./b//c", "/a/b/c"),
        ("/a/b/../c", "/a/c"),
        ("/../a", "/a"),
        ("/a/..", "/"),
        ("a/b", "/a/b"),
        ("", "/"),
        ("/...", "/..."),
    ] {
        repl.set_cwd(path);
        assert_eq!(repl.cwd, cwd);
        assert_eq!(canonical_cwd(cwd), cwd);
    }
}

#[test]
fn only_functions_of_the_session_are_listed() {
    let mut repl = MontyRepl::new("main.py", free(), CompileOptions::default());
    repl.tables = tables(&["f", "g", "h", "l", "x"]);
    let closure = repl.heap.allocate(HeapData::Function { external: false });
    let host = repl.heap.allocate(HeapData::Function { external: true });
    repl.globals =
        vec![Value::DefFunction(1), Value::Ref(closure), Value::Ref(host), Value::Builtin(1), Value::Int(1)];
    assert_eq!(repl.function_names(), vec!["f", "g"]);
    assert!(repl.has_function("f") && repl.has_function("g"));
    assert!(!repl.has_function("h") && !repl.has_function("l") && !repl.has_function("x"));
}

/// Waits until the clock is past a moment.
fn pass_time(moment: std::time::Instant) {
    while std::time::Instant::now() <= moment {}
}

#[test]
fn every_feed_and_turn_starts_its_time() {
    let mut repl = MontyRepl::new("main.py", ResourceTracker::new(None, Some(1_000_000_000)), CompileOptions::default());
    let long_ago = repl.tracker().started;
    pass_time(long_ago);
    repl.start_run(&compiled(&["x"]));
    let fed = repl.tracker().started;
    assert!(fed > long_ago);
    assert_eq!(repl.tracker().max_duration, Some(1_000_000_000));
    pass_time(fed);
    let state = VMSnapshot { globals: vec![], cwd: "/".to_owned(), random: vec![], frames: vec![] };
    let Ok(ReplProgress::FunctionCall(call)) =
        repl.finish_run(compiled(&["x"]), function_call(), AfterRun::Suspended(state))
    else {
        panic!("a call")
    };
    let turn = call.resume(ExtFunctionResult::Return(Value::Int(1)));
    assert!(turn.snapshot.repl.tracker().started > fed);
    let mut tracker = free();
    tracker.restart_at(long_ago);
    assert_eq!(tracker.started, long_ago);
}

#[test]
fn a_failed_snippet_keeps_the_names_it_did_not_touch() {
    let mut repl = MontyRepl::new("main.py", free(), CompileOptions::default());
    repl.tables = tables(&["x", "y"]);
    repl.globals = vec![Value::Int(1), Value::Int(2)];
    assert!(repl.feed_start("y = 3; z").is_some());
    assert_eq!(repl.globals, vec![Value::Int(1), Value::Int(2)]);
    let executor = compiled(&["x", "y", "z"]);
    let mut start = repl.start_run(&executor);
    assert_eq!(start.globals, vec![Value::Int(1), Value::Int(2), Value::Undefined]);
    start.globals[1] = Value::Int(3);
    let end = RunEnd { globals: start.globals, cwd: None, random: start.random };
    let result = repl.finish_feed(executor, end, Err(raise(ExcType::NameError, "name 'z' is not defined")));
    assert!(result.is_err());
    assert_eq!(repl.globals, vec![Value::Int(1), Value::Int(3), Value::Undefined]);
    let next = repl.start_run(&compiled(&["x", "y", "z"]));
    assert_eq!(next.globals[0], Value::Int(1));
}

#[test]
fn limits_can_be_changed() {
    let mut repl = MontyRepl::new("main.py", free(), CompileOptions::default());
    repl.tracker_mut().max_memory = Some(5);
    assert_eq!(repl.tracker().max_memory, Some(5));
}

#[test]
fn a_completed_snippet_leaves_its_values() {
    let mut repl = MontyRepl::new("main.py", free(), CompileOptions::default());
    let executor = compiled(&["x", "y"]);
    let start = repl.start_run(&executor);
    assert_eq!(start.globals, vec![Value::Undefined, Value::Undefined]);
    let end = RunEnd { globals: vec![Value::Int(1), Value::DefFunction(2)], cwd: Some("/w".to_owned()), random: vec![4] };
    let done = repl.finish_run(executor, ConvertedExit::Complete(Value::Int(3)), AfterRun::Ended(end));
    let Ok(progress) = done else { panic!("complete") };
    let (repl, value) = progress.into_complete().expect("complete");
    assert_eq!(value, Value::Int(3));
    assert_eq!((repl.cwd.as_str(), repl.random.clone()), ("/w", vec![4]));
    assert_eq!(repl.function_names(), vec!["y".to_owned()]);
    assert!(repl.has_function("y") && !repl.has_function("x") && !repl.has_function("z"));
}

#[test]
fn a_failed_snippet_leaves_its_values_too() {
    let mut repl = MontyRepl::new("main.py", free(), CompileOptions::default());
    let executor = compiled(&["x"]);
    let _ = repl.start_run(&executor);
    let exit = ConvertedExit::Error(raise(ExcType::ValueError, "no"));
    let Err(failed) = repl.finish_run(executor, exit, AfterRun::Ended(ended(vec![Value::DefFunction(1)]))) else {
        panic!("failed")
    };
    assert_eq!(failed.error.message.as_deref(), Some("no"));
    assert!(failed.repl.has_function("x"));
}

fn waiting(exit: ConvertedExit) -> ReplProgress {
    let mut repl = MontyRepl::new("main.py", free(), CompileOptions::default());
    let executor = compiled(&["x"]);
    let _ = repl.start_run(&executor);
    let state = VMSnapshot { globals: vec![Value::DefFunction(1)], cwd: "/s".to_owned(), random: vec![7], frames: vec![] };
    match repl.finish_run(executor, exit, AfterRun::Suspended(state)) {
        Ok(progress) => progress,
        Err(_) => panic!("waiting"),
    }
}

#[test]
fn a_failing_snippet_keeps_what_it_changed() {
    let mut repl = MontyRepl::new("main.py", free(), CompileOptions::default());
    let executor = compiled(&["x"]);
    let _ = repl.start_run(&executor);
    let end = RunEnd { globals: vec![Value::DefFunction(1)], cwd: None, random: vec![3] };
    let result = repl.finish_feed(executor, end, Err(raise(ExcType::ValueError, "no")));
    assert_eq!(result.err().and_then(|error| error.message), Some("no".to_owned()));
    assert_eq!((repl.cwd.as_str(), repl.random.clone()), ("/", vec![3]));
    assert!(repl.has_function("x"));
}

fn function_call() -> ConvertedExit {
    ConvertedExit::FunctionCall {
        function_name: "fetch".to_owned(),
        args: vec![Value::Int(1)],
        call_id: 6,
        object_id: None,
        allow_eager_await: true,
    }
}

#[test]
fn a_run_that_is_given_up_keeps_its_values() {
    let progress = waiting(function_call());
    assert_eq!(progress.tracker().max_memory, None);
    let repl = progress.into_repl();
    assert_eq!((repl.cwd.as_str(), repl.random.clone()), ("/s", vec![7]));
    assert!(repl.has_function("x"));
}

#[test]
fn a_call_goes_on_with_a_result() {
    let call = waiting(function_call()).into_function_call().expect("a call");
    assert_eq!((call.function_name.as_str(), call.args.clone()), ("fetch", vec![Value::Int(1)]));
    let turn = call.resume_pending();
    assert!(matches!(turn.result, ExtFunctionResult::Future(6)) && turn.eager_call_id.is_none());
    let call = waiting(function_call()).into_function_call().expect("a call");
    let turn = call.resume_eager(Ok(Value::Int(2)));
    assert!(matches!(turn.result, ExtFunctionResult::Return(Value::Int(2))) && turn.eager_call_id == Some(6));
    let call = waiting(function_call()).into_function_call().expect("a call");
    let failed = call.abort(ended(vec![Value::Int(9)]), raise(ExcType::TimeoutError, "stop"));
    assert_eq!(failed.repl.globals, vec![Value::Int(9)]);
}

#[test]
fn an_operation_goes_on_with_its_handler() {
    let exit = ConvertedExit::OsCall { function_call: vec![Value::Int(4)], call_id: 2, allow_eager_await: false };
    let ReplProgress::OsCall(call) = waiting(exit) else { panic!("an operation") };
    let turn = call.resume_with(|call| ExtFunctionResult::Return(call[0]));
    assert!(matches!(turn.result, ExtFunctionResult::Return(Value::Int(4))));
}

#[test]
fn a_lookup_knows_its_object() {
    let exit = ConvertedExit::NameLookup { name: "n".to_owned(), scope: LookupScope::Attribute(5) };
    let lookup = waiting(exit).into_name_lookup().expect("a lookup");
    assert_eq!(lookup.object_id(), Some(5));
    let exit = ConvertedExit::NameLookup { name: "n".to_owned(), scope: LookupScope::Global(0) };
    assert_eq!(waiting(exit).into_name_lookup().expect("a lookup").object_id(), None);
}

fn looked_up(scope: LookupScope, result: NameLookupResult) -> LookupAction {
    let exit = ConvertedExit::NameLookup { name: "n".to_owned(), scope };
    waiting(exit).into_name_lookup().expect("a lookup").resume(result).action
}

#[test]
fn the_value_of_a_name_is_kept() {
    let LookupAction::Keep(scope, value) = looked_up(LookupScope::Local(3), NameLookupResult::Value(Value::Int(1))) else {
        panic!("kept")
    };
    assert_eq!((scope, value), (LookupScope::Local(3), Value::Int(1)));
    let LookupAction::Use(value) = looked_up(LookupScope::Attribute(5), NameLookupResult::Value(Value::Int(1))) else {
        panic!("used")
    };
    assert_eq!(value, Value::Int(1));
    let LookupAction::Raise(error) = looked_up(LookupScope::Global(0), NameLookupResult::Undefined) else {
        panic!("raised")
    };
    assert_eq!(error.message.as_deref(), Some("name 'n' is not defined"));
    let LookupAction::NoAttribute(id) = looked_up(LookupScope::Attribute(5), NameLookupResult::Undefined) else {
        panic!("missing")
    };
    assert_eq!(id, 5);
    let refusal = RunError { exc_type: ExcType::ValueError, message: None, catchable: true };
    let LookupAction::Raise(error) = looked_up(LookupScope::Attribute(5), NameLookupResult::Error(refusal)) else {
        panic!("raised")
    };
    assert_eq!(error.exc_type, ExcType::ValueError);
}

#[test]
fn an_unknown_call_gives_the_run_up() {
    let futures = waiting(ConvertedExit::ResolveFutures(vec![1, 2])).into_resolve_futures().expect("futures");
    assert_eq!(futures.pending_call_ids(), &vec![1, 2]);
    let Err(failed) = futures.resume(vec![(1, ExtFunctionResult::Return(Value::Int(1))), (9, ExtFunctionResult::Future(9))])
    else {
        panic!("refused")
    };
    assert_eq!(failed.error.message.as_deref(), Some("unknown call_id 9, expected one of: [1, 2]"));
    assert!(failed.repl.has_function("x"));
    let futures = waiting(ConvertedExit::ResolveFutures(vec![1, 2])).into_resolve_futures().expect("futures");
    assert!(futures.resume(vec![(2, ExtFunctionResult::Return(Value::Int(1)))]).is_ok());
}

#[test]
fn a_function_is_called_by_name() {
    let mut repl = MontyRepl::new("main.py", free(), CompileOptions::default());
    repl.tables = tables(&["f", "g"]);
    repl.globals = vec![Value::DefFunction(1), Value::Undefined];
    assert_eq!(error(repl.call_function("f", 1)).1, "call_function() takes positional arguments only");
    assert_eq!(error(repl.call_function("h", 0)), (ExcType::NameError, "name 'h' is not defined".to_owned()));
    assert_eq!(error(repl.call_function("g", 0)).1, "name 'g' is not defined");
    let site = repl.call_function("f", 0).ok().expect("a call");
    assert_eq!((site.slot, site.script_name.as_str()), (0, "<python-input-0>"));
    let mut executor = compiled(&["f", "g", "args"]);
    executor.input_slots = vec![2];
    let start = repl.start_call(&site, &executor, &args(vec![Value::Int(5)]));
    assert_eq!(start.globals, vec![Value::DefFunction(1), Value::Undefined, Value::Ref(0)]);
    assert!(matches!(&repl.heap.heap[0], HeapData::Tuple(items) if *items == vec![Value::Int(5)]));
    assert_eq!(repl.source("<python-input-0>").map(|text| text.as_str()), Some("call"));
    repl.finish_call(executor, ended(start.globals));
    assert_eq!(repl.globals, vec![Value::DefFunction(1), Value::Undefined, Value::Undefined]);
}

#[test]
fn a_call_without_a_host_goes_on() {
    assert!(matches!(call_turn(CallExit::Return(Value::Int(1))), CallAction::Finish(Ok(Value::Int(1)))));
    assert!(matches!(call_turn(CallExit::AttrLookup { optional: true }), CallAction::Undefined));
    assert!(matches!(call_turn(CallExit::AttrLookup { optional: false }), CallAction::Refuse));
    assert!(matches!(call_turn(CallExit::Unsupported), CallAction::Refuse));
    let failed: RunError = raise(ExcType::ValueError, "x");
    assert!(matches!(call_turn(CallExit::Failed(failed)), CallAction::Finish(Err(_))));
}

#[test]
fn inputs_go_into_their_slots() {
    let mut globals = vec![Value::Undefined; 3];
    inject_inputs(&vec![2, 0], &vec![Value::Int(7), Value::Int(8)], &vec![1, 0], &mut globals);
    assert_eq!(globals, vec![Value::Int(7), Value::Undefined, Value::Int(8)]);
    let made = convert_args(&vec![Value::Int(7), Value::Int(8)], &vec![1, 1]);
    assert_eq!(made.positional, vec![Value::Int(8), Value::Int(8)]);
}

// ---------------------------------------------------------------- limits

#[test]
fn sizes_are_estimated() {
    let tight = ResourceTracker::new(Some(1_000), None);
    assert_eq!(estimate_bits_to_bytes(9), 2);
    assert!(check_repeat_size(10, 10, &tight).is_ok());
    assert!(check_repeat_size(1_000, 1_000, &tight).is_err());
    assert!(check_repeat_size(usize::MAX, 2, &tight).is_err());
    assert!(check_pow_size(64, 1_000_000, &tight).is_err());
    assert!(check_pow_size(64, 2, &tight).is_ok());
    assert!(check_mult_size(8_000_000, 8_000_000, &tight).is_err());
    assert!(check_lshift_size(1, u64::MAX, &tight).is_err());
    assert!(check_div_size(64, &tight).is_ok());
    assert!(check_replace_size(1_000_000, 1, 10, -1, &tight).is_err());
    assert!(check_replace_size(10, 1, 10, -1, &tight).is_ok());
}

#[test]
fn a_time_limit_is_held() {
    let late = ResourceTracker::new(None, Some(5));
    assert!(late.check_elapsed(5).is_ok());
    assert!(matches!(late.check_elapsed(6), Err(ResourceError::Time { limit: 5, elapsed: 6 })));
    assert!(free().check_time().is_ok());
    let done = ResourceTracker::new(None, Some(0));
    let mut stopped = false;
    for _ in 0..1_000_000 {
        if done.check_time().is_err() {
            stopped = true;
            break;
        }
    }
    assert!(stopped);
}

#[test]
fn a_session_keeps_its_options() {
    let options = CompileOptions { encoded: vec![1, 2] };
    let repl = MontyRepl::new("main.py", free(), options);
    assert!(repl.auto_os_calls.encoded.is_empty());
    let mut repl = repl.with_auto_os_calls(AutoOsCalls { encoded: vec![3] });
    assert!(repl.feed_start("x = 1").is_some());
    let executor = compiled(&["x"]);
    let _ = repl.start_run(&executor);
    let failed = repl.fail_run(executor, ended(vec![Value::Int(1)]), raise(ExcType::ValueError, "no"));
    assert_eq!(failed.repl.options.encoded, vec![1, 2]);
    assert_eq!(failed.repl.auto_os_calls.encoded, vec![3]);
    assert_eq!(failed.repl.script_name, "main.py");
}

#[test]
fn a_snippet_only_adds_symbols() {
    let mut repl = MontyRepl::new("main.py", free(), CompileOptions::default());
    assert!(repl.is_extended_by(&compiled(&["x"])));
    repl.tables = tables(&["x", "y"]);
    assert!(repl.is_extended_by(&compiled(&["x", "y"])));
    assert!(repl.is_extended_by(&compiled(&["x", "y", "z"])));
    assert!(!repl.is_extended_by(&compiled(&["x"])));
    assert!(!repl.is_extended_by(&compiled(&["y", "x"])));
}

#[test]
fn a_refused_snippet_leaves_the_session() {
    let mut repl = MontyRepl::new("main.py", free(), CompileOptions::default());
    repl.tables = tables(&["x"]);
    repl.globals = vec![Value::Int(5)];
    assert!(repl.feed_start("x = = 1").is_some());
    let mut failed = repl.refuse_snippet(raise(ExcType::ValueError, "invalid syntax"));
    assert_eq!(failed.error.message.as_deref(), Some("invalid syntax"));
    assert_eq!(failed.repl.start_run(&compiled(&["x"])).globals, vec![Value::Int(5)]);
}
