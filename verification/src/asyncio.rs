//! Futures, tasks and the coordination objects built on them.
//!
//! None of these waits. A coordination object hands out a future and settles
//! it later, so its state is a few values and the futures it owes.

use crate::args::{holds_args, zero_args, zero_one_arg, ArgValues, ArgsModel};
use crate::deque::ref_ids;
use crate::exceptions::{
    copy_error, raise, raise5, raised, type_error, type_error_model, value_error, value_error_model, ErrorModel, ExcType,
    RunError, RunResult,
};
use crate::heap::{HeapRead, VmModel, VM};
use crate::text::{decimal, decimal_text, join3, same_text};
use crate::value::{EitherModel, EitherStr, HeapId, Value};
use std::collections::VecDeque;
use vstd::prelude::*;

verus! {

/// The types of this module.
#[derive(Clone, Copy, Debug, PartialEq, Eq, Structural)]
pub enum AsyncType {
    Future,
    Task,
    Lock,
    Event,
    Semaphore,
    BoundedSemaphore,
    Barrier,
    Queue,
    TaskGroup,
    Timeout,
    AsCompleted,
}

/// The name of a type.
pub open spec fn async_type_named(of: AsyncType) -> Seq<char> {
    match of {
        AsyncType::Future => "Future"@,
        AsyncType::Task => "Task"@,
        AsyncType::Lock => "Lock"@,
        AsyncType::Event => "Event"@,
        AsyncType::Semaphore => "Semaphore"@,
        AsyncType::BoundedSemaphore => "BoundedSemaphore"@,
        AsyncType::Barrier => "Barrier"@,
        AsyncType::Queue => "Queue"@,
        AsyncType::TaskGroup => "TaskGroup"@,
        AsyncType::Timeout => "Timeout"@,
        AsyncType::AsCompleted => "as_completed"@,
    }
}

impl AsyncType {
    /// The name of the type.
    pub fn name(self) -> (name: &'static str)
        ensures
            name@ == async_type_named(self),
    {
        match self {
            AsyncType::Future => "Future",
            AsyncType::Task => "Task",
            AsyncType::Lock => "Lock",
            AsyncType::Event => "Event",
            AsyncType::Semaphore => "Semaphore",
            AsyncType::BoundedSemaphore => "BoundedSemaphore",
            AsyncType::Barrier => "Barrier",
            AsyncType::Queue => "Queue",
            AsyncType::TaskGroup => "TaskGroup",
            AsyncType::Timeout => "Timeout",
            AsyncType::AsCompleted => "as_completed",
        }
    }
}

/// At most one holder; the others wait in the order in which they came.
pub struct Lock {
    pub locked: bool,
    pub waiters: VecDeque<HeapId>,
}

/// A flag that every waiter sees once it is raised.
pub struct Event {
    pub is_set: bool,
    pub waiters: VecDeque<HeapId>,
}

/// So many permits.
pub struct Semaphore {
    /// The permits that are left.
    pub value: i64,
    /// The count that is never exceeded, where there is one.
    pub bound: Option<i64>,
    pub waiters: VecDeque<HeapId>,
}

/// Opens when so many have come.
pub struct Barrier {
    pub parties: i64,
    pub waiters: VecDeque<HeapId>,
}

/// Items on their way from those who put to those who get.
pub struct Queue {
    pub items: VecDeque<Value>,
    /// How many items fit, or zero for any number.
    pub maxsize: i64,
    /// Futures of those who wait for an item.
    pub getters: VecDeque<HeapId>,
    /// Futures of those who wait for room, each with its item.
    pub putters: VecDeque<(HeapId, Value)>,
    /// Items that were put and are not yet done.
    pub unfinished: i64,
    /// Futures of those who wait until nothing is unfinished.
    pub join_waiters: VecDeque<HeapId>,
}

/// Tasks that end together.
pub struct TaskGroup {
    pub entered: bool,
    pub children: Vec<HeapId>,
}

/// Cancels a body when the clock reaches a time.
pub struct Timeout {
    pub deadline: Option<u64>,
    /// The future that the timer settles.
    pub timer: Option<HeapId>,
    pub expired: bool,
}

/// One of the coordination objects.
pub enum AsyncPrimitive {
    Lock(Lock),
    Event(Event),
    Semaphore(Semaphore),
    Barrier(Barrier),
    Queue(Queue),
    TaskGroup(TaskGroup),
    Timeout(Timeout),
}

/// A coordination object as a mathematical value.
#[allow(inconsistent_fields)]
#[verifier::ext_equal]
pub enum PrimitiveModel {
    Lock { locked: bool, waiters: Seq<HeapId> },
    Event { is_set: bool, waiters: Seq<HeapId> },
    Semaphore { value: i64, bound: Option<i64>, waiters: Seq<HeapId> },
    Barrier { parties: i64, waiters: Seq<HeapId> },
    Queue {
        items: Seq<Value>,
        maxsize: i64,
        getters: Seq<HeapId>,
        putters: Seq<(HeapId, Value)>,
        unfinished: i64,
        join_waiters: Seq<HeapId>,
    },
    TaskGroup { entered: bool, children: Seq<HeapId> },
    Timeout { deadline: Option<u64>, timer: Option<HeapId>, expired: bool },
}

impl View for AsyncPrimitive {
    type V = PrimitiveModel;

    open spec fn view(&self) -> PrimitiveModel {
        match *self {
            AsyncPrimitive::Lock(lock) => PrimitiveModel::Lock { locked: lock.locked, waiters: lock.waiters@ },
            AsyncPrimitive::Event(event) => PrimitiveModel::Event { is_set: event.is_set, waiters: event.waiters@ },
            AsyncPrimitive::Semaphore(semaphore) => PrimitiveModel::Semaphore {
                value: semaphore.value,
                bound: semaphore.bound,
                waiters: semaphore.waiters@,
            },
            AsyncPrimitive::Barrier(barrier) => PrimitiveModel::Barrier {
                parties: barrier.parties,
                waiters: barrier.waiters@,
            },
            AsyncPrimitive::Queue(queue) => PrimitiveModel::Queue {
                items: queue.items@,
                maxsize: queue.maxsize,
                getters: queue.getters@,
                putters: queue.putters@,
                unfinished: queue.unfinished,
                join_waiters: queue.join_waiters@,
            },
            AsyncPrimitive::TaskGroup(group) => PrimitiveModel::TaskGroup {
                entered: group.entered,
                children: group.children@,
            },
            AsyncPrimitive::Timeout(timeout) => PrimitiveModel::Timeout {
                deadline: timeout.deadline,
                timer: timeout.timer,
                expired: timeout.expired,
            },
        }
    }
}

/// The type of a coordination object.
pub open spec fn primitive_type(primitive: PrimitiveModel) -> AsyncType {
    match primitive {
        PrimitiveModel::Lock { .. } => AsyncType::Lock,
        PrimitiveModel::Event { .. } => AsyncType::Event,
        PrimitiveModel::Semaphore { bound, .. } => if bound is Some {
            AsyncType::BoundedSemaphore
        } else {
            AsyncType::Semaphore
        },
        PrimitiveModel::Barrier { .. } => AsyncType::Barrier,
        PrimitiveModel::Queue { .. } => AsyncType::Queue,
        PrimitiveModel::TaskGroup { .. } => AsyncType::TaskGroup,
        PrimitiveModel::Timeout { .. } => AsyncType::Timeout,
    }
}

/// The futures of waiting putters, from `i` on, each with the item of the heap
/// that it holds.
pub open spec fn putter_ids(putters: Seq<(HeapId, Value)>, i: int) -> Seq<HeapId>
    decreases putters.len() - i,
{
    if i < 0 || i >= putters.len() {
        Seq::empty()
    } else {
        let (future, item) = putters[i];
        (match item {
            Value::Ref(id) => seq![future, id],
            _ => seq![future],
        }) + putter_ids(putters, i + 1)
    }
}

/// The items of the heap that a coordination object keeps alive.
pub open spec fn primitive_ids(primitive: PrimitiveModel) -> Seq<HeapId> {
    match primitive {
        PrimitiveModel::Lock { waiters, .. } => waiters,
        PrimitiveModel::Event { waiters, .. } => waiters,
        PrimitiveModel::Semaphore { waiters, .. } => waiters,
        PrimitiveModel::Barrier { waiters, .. } => waiters,
        PrimitiveModel::Queue { items, getters, putters, join_waiters, .. } => ref_ids(items, 0) + getters
            + putter_ids(putters, 0) + join_waiters,
        PrimitiveModel::TaskGroup { children, .. } => children,
        PrimitiveModel::Timeout { timer, .. } => match timer {
            Some(id) => seq![id],
            None => Seq::empty(),
        },
    }
}

/// Lists the futures of a queue.
fn list_waiters(waiters: &VecDeque<HeapId>, stack: &mut Vec<HeapId>)
    ensures
        final(stack)@ == old(stack)@ + waiters@,
{
    let mut i: usize = 0;
    assert(stack@ =~= old(stack)@ + waiters@.subrange(0, 0));
    while i < waiters.len()
        invariant
            i <= waiters@.len(),
            stack@ == old(stack)@ + waiters@.subrange(0, i as int),
        decreases waiters@.len() - i,
    {
        stack.push(waiters[i]);
        i = i + 1;
        assert(stack@ =~= old(stack)@ + waiters@.subrange(0, i as int));
    }
    assert(waiters@.subrange(0, i as int) =~= waiters@);
}

/// Lists the items of the heap among the items of a queue.
fn list_items(items: &VecDeque<Value>, stack: &mut Vec<HeapId>)
    ensures
        final(stack)@ == old(stack)@ + ref_ids(items@, 0),
{
    let mut i: usize = 0;
    while i < items.len()
        invariant
            i <= items@.len(),
            stack@ + ref_ids(items@, i as int) == old(stack)@ + ref_ids(items@, 0),
        decreases items@.len() - i,
    {
        let ghost done = stack@;
        if let Value::Ref(id) = items[i] {
            stack.push(id);
            assert(done.push(id) + ref_ids(items@, i + 1) =~= done + (seq![id] + ref_ids(items@, i + 1)));
        } else {
            assert(ref_ids(items@, i as int) == ref_ids(items@, i + 1));
        }
        i = i + 1;
    }
    assert(stack@ + Seq::<HeapId>::empty() =~= stack@);
}

/// Lists the futures of waiting putters and the items that they hold.
fn list_putters(putters: &VecDeque<(HeapId, Value)>, stack: &mut Vec<HeapId>)
    ensures
        final(stack)@ == old(stack)@ + putter_ids(putters@, 0),
{
    let mut i: usize = 0;
    while i < putters.len()
        invariant
            i <= putters@.len(),
            stack@ + putter_ids(putters@, i as int) == old(stack)@ + putter_ids(putters@, 0),
        decreases putters@.len() - i,
    {
        let ghost done = stack@;
        let (future, item) = putters[i];
        stack.push(future);
        if let Value::Ref(id) = item {
            stack.push(id);
            assert(done.push(future).push(id) + putter_ids(putters@, i + 1) =~= done + (seq![future, id] + putter_ids(
                putters@,
                i + 1,
            )));
        } else {
            assert(done.push(future) + putter_ids(putters@, i + 1) =~= done + (seq![future] + putter_ids(
                putters@,
                i + 1,
            )));
        }
        i = i + 1;
    }
    assert(stack@ + Seq::<HeapId>::empty() =~= stack@);
}

impl AsyncPrimitive {
    /// The type of the object.
    pub fn py_type(&self) -> (of: AsyncType)
        ensures
            of == primitive_type(self@),
    {
        match self {
            AsyncPrimitive::Lock(_) => AsyncType::Lock,
            AsyncPrimitive::Event(_) => AsyncType::Event,
            AsyncPrimitive::Semaphore(semaphore) => {
                if semaphore.bound.is_some() {
                    AsyncType::BoundedSemaphore
                } else {
                    AsyncType::Semaphore
                }
            },
            AsyncPrimitive::Barrier(_) => AsyncType::Barrier,
            AsyncPrimitive::Queue(_) => AsyncType::Queue,
            AsyncPrimitive::TaskGroup(_) => AsyncType::TaskGroup,
            AsyncPrimitive::Timeout(_) => AsyncType::Timeout,
        }
    }

    /// Lists the items of the heap that the object keeps alive.
    pub fn owned_ids(&self, ids: &mut Vec<HeapId>)
        ensures
            final(ids)@ == old(ids)@ + primitive_ids(self@),
    {
        let ghost before = ids@;
        match self {
            AsyncPrimitive::Lock(lock) => list_waiters(&lock.waiters, ids),
            AsyncPrimitive::Event(event) => list_waiters(&event.waiters, ids),
            AsyncPrimitive::Semaphore(semaphore) => list_waiters(&semaphore.waiters, ids),
            AsyncPrimitive::Barrier(barrier) => list_waiters(&barrier.waiters, ids),
            AsyncPrimitive::Queue(queue) => {
                list_items(&queue.items, ids);
                list_waiters(&queue.getters, ids);
                list_putters(&queue.putters, ids);
                list_waiters(&queue.join_waiters, ids);
                assert(ids@ =~= before + primitive_ids(self@));
            },
            AsyncPrimitive::TaskGroup(group) => {
                let mut i: usize = 0;
                assert(ids@ =~= before + group.children@.subrange(0, 0));
                while i < group.children.len()
                    invariant
                        i <= group.children@.len(),
                        ids@ == before + group.children@.subrange(0, i as int),
                    decreases group.children@.len() - i,
                {
                    ids.push(group.children[i]);
                    i = i + 1;
                    assert(ids@ =~= before + group.children@.subrange(0, i as int));
                }
                assert(group.children@.subrange(0, i as int) =~= group.children@);
            },
            AsyncPrimitive::Timeout(timeout) => {
                if let Some(timer) = timeout.timer {
                    ids.push(timer);
                }
                assert(ids@ =~= before + primitive_ids(self@));
            },
        }
    }

    /// Lists what is no longer kept alive when the object goes: what it kept.
    pub fn py_dec_ref_ids(&mut self, stack: &mut Vec<HeapId>)
        ensures
            final(self)@ == old(self)@,
            final(stack)@ == old(stack)@ + primitive_ids(old(self)@),
    {
        self.owned_ids(stack);
    }

    /// The object as text.
    pub fn py_repr(&self) -> (text: String)
        ensures
            text@ == "<"@ + async_type_named(primitive_type(self@)) + ">"@,
    {
        join3("<", self.py_type().name(), ">")
    }

    /// The attributes that can be read.
    pub fn py_getattr(&self, name: &str) -> (value: Option<Value>)
        ensures
            value == primitive_attribute(self@, name@),
    {
        match self {
            AsyncPrimitive::Barrier(barrier) => {
                if same_text(name, "parties") {
                    Some(Value::Int(barrier.parties))
                } else if same_text(name, "n_waiting") {
                    let count: usize = barrier.waiters.len();
                    Some(
                        Value::Int(
                            if count as u64 <= i64::MAX as u64 {
                                count as i64
                            } else {
                                i64::MAX
                            },
                        ),
                    )
                } else {
                    None
                }
            },
            AsyncPrimitive::Queue(queue) => {
                if same_text(name, "maxsize") {
                    Some(Value::Int(queue.maxsize))
                } else {
                    None
                }
            },
            _ => None,
        }
    }
}

/// The value of an attribute of a coordination object, where it has it.
pub open spec fn primitive_attribute(primitive: PrimitiveModel, name: Seq<char>) -> Option<Value> {
    match primitive {
        PrimitiveModel::Barrier { parties, waiters } => if name == "parties"@ {
            Some(Value::Int(parties))
        } else if name == "n_waiting"@ {
            Some(
                Value::Int(
                    if waiters.len() <= i64::MAX {
                        waiters.len() as i64
                    } else {
                        i64::MAX
                    },
                ),
            )
        } else {
            None
        },
        PrimitiveModel::Queue { maxsize, .. } => if name == "maxsize"@ {
            Some(Value::Int(maxsize))
        } else {
            None
        },
        _ => None,
    }
}

/// The optional integer argument of a constructor.
pub open spec fn optional_int(vm: VmModel, name: Seq<char>, args: ArgsModel) -> Result<Option<i64>, ErrorModel> {
    match zero_one_arg(name, args) {
        Err(error) => Err(error),
        Ok(None) => Ok(None),
        Ok(Some(value)) => match vm.int_of(value) {
            Err(error) => Err(error),
            Ok(n) => Ok(Some(n)),
        },
    }
}

/// Reads the optional integer argument of a constructor.
fn read_optional_int(name: &str, args: &ArgValues, vm: &VM) -> (number: RunResult<Option<i64>>)
    requires
        holds_args(vm@, args@),
    ensures
        match (number, optional_int(vm@, name@, args@)) {
            (Ok(n), Ok(expected)) => n == expected,
            (Err(error), Err(expected)) => error@ == expected,
            _ => false,
        },
{
    match args.get_zero_one_arg(name)? {
        Some(value) => {
            assert(value == args@.positional[0]);
            let n: i64 = vm.as_int(value)?;
            Ok(Some(n))
        },
        None => Ok(None),
    }
}

/// What a constructor makes.
pub open spec fn constructed(vm: VmModel, of: AsyncType, args: ArgsModel) -> Result<PrimitiveModel, ErrorModel> {
    match of {
        AsyncType::Lock => match zero_args("Lock"@, args) {
            Err(error) => Err(error),
            Ok(_) => Ok(PrimitiveModel::Lock { locked: false, waiters: Seq::empty() }),
        },
        AsyncType::Event => match zero_args("Event"@, args) {
            Err(error) => Err(error),
            Ok(_) => Ok(PrimitiveModel::Event { is_set: false, waiters: Seq::empty() }),
        },
        AsyncType::Barrier => match optional_int(vm, "Barrier"@, args) {
            Err(error) => Err(error),
            Ok(None) => Err(type_error_model("Barrier() missing 1 required positional argument: 'parties'"@)),
            Ok(Some(parties)) => if parties < 1 {
                Err(value_error_model("parties must be > 0"@))
            } else {
                Ok(PrimitiveModel::Barrier { parties, waiters: Seq::empty() })
            },
        },
        AsyncType::Queue => match optional_int(vm, "Queue"@, args) {
            Err(error) => Err(error),
            Ok(given) => Ok(
                PrimitiveModel::Queue {
                    items: Seq::empty(),
                    maxsize: match given {
                        Some(n) if n > 0 => n,
                        _ => 0,
                    },
                    getters: Seq::empty(),
                    putters: Seq::empty(),
                    unfinished: 0,
                    join_waiters: Seq::empty(),
                },
            ),
        },
        AsyncType::TaskGroup => match zero_args("TaskGroup"@, args) {
            Err(error) => Err(error),
            Ok(_) => Ok(PrimitiveModel::TaskGroup { entered: false, children: Seq::empty() }),
        },
        _ => match optional_int(vm, "Semaphore"@, args) {
            Err(error) => Err(error),
            Ok(given) => {
                let value = match given {
                    Some(n) => n,
                    None => 1,
                };
                if value < 0 {
                    Err(value_error_model("Semaphore initial value must be >= 0"@))
                } else {
                    Ok(
                        PrimitiveModel::Semaphore {
                            value,
                            bound: if of == AsyncType::BoundedSemaphore {
                                Some(value)
                            } else {
                                None
                            },
                            waiters: Seq::empty(),
                        },
                    )
                }
            },
        },
    }
}

/// The types that `construct` makes objects of.
pub open spec fn constructible(of: AsyncType) -> bool {
    match of {
        AsyncType::Future => false,
        AsyncType::Task => false,
        AsyncType::Timeout => false,
        AsyncType::AsCompleted => false,
        _ => true,
    }
}

/// Makes a coordination object.
pub fn construct(of: AsyncType, args: &ArgValues, vm: &VM) -> (primitive: RunResult<AsyncPrimitive>)
    requires
        constructible(of),
        holds_args(vm@, args@),
    ensures
        match (primitive, constructed(vm@, of, args@)) {
            (Ok(primitive), Ok(expected)) => primitive@ == expected,
            (Err(error), Err(expected)) => error@ == expected,
            _ => false,
        },
{
    match of {
        AsyncType::Lock => {
            args.check_zero_args("Lock")?;
            Ok(AsyncPrimitive::Lock(Lock { locked: false, waiters: VecDeque::new() }))
        },
        AsyncType::Event => {
            args.check_zero_args("Event")?;
            Ok(AsyncPrimitive::Event(Event { is_set: false, waiters: VecDeque::new() }))
        },
        AsyncType::Barrier => {
            let parties: i64 = match read_optional_int("Barrier", args, vm)? {
                Some(parties) => parties,
                None => {
                    return Err(type_error("Barrier() missing 1 required positional argument: 'parties'"));
                },
            };
            if parties < 1 {
                return Err(value_error("parties must be > 0"));
            }
            Ok(AsyncPrimitive::Barrier(Barrier { parties, waiters: VecDeque::new() }))
        },
        AsyncType::Queue => {
            let maxsize: i64 = match read_optional_int("Queue", args, vm)? {
                Some(n) if n > 0 => n,
                _ => 0,
            };
            Ok(
                AsyncPrimitive::Queue(
                    Queue {
                        items: VecDeque::new(),
                        maxsize,
                        getters: VecDeque::new(),
                        putters: VecDeque::new(),
                        unfinished: 0,
                        join_waiters: VecDeque::new(),
                    },
                ),
            )
        },
        AsyncType::TaskGroup => {
            args.check_zero_args("TaskGroup")?;
            Ok(AsyncPrimitive::TaskGroup(TaskGroup { entered: false, children: Vec::new() }))
        },
        _ => {
            let value: i64 = match read_optional_int("Semaphore", args, vm)? {
                Some(n) => n,
                None => 1,
            };
            if value < 0 {
                return Err(value_error("Semaphore initial value must be >= 0"));
            }
            let bound = match of {
                AsyncType::BoundedSemaphore => Some(value),
                _ => None,
            };
            Ok(AsyncPrimitive::Semaphore(Semaphore { value, bound, waiters: VecDeque::new() }))
        },
    }
}

/// A new coordination object owes nobody anything and keeps nothing alive.
pub proof fn law_new_primitive_owns_nothing(vm: VmModel, of: AsyncType, args: ArgsModel)
    requires
        constructible(of),
    ensures
        constructed(vm, of, args) matches Ok(primitive) ==> primitive_ids(primitive) == Seq::<HeapId>::empty()
            && primitive_type(primitive) == of,
{
    if let Ok(primitive) = constructed(vm, of, args) {
        assert(primitive_ids(primitive) =~= Seq::<HeapId>::empty());
    }
}

/// Whether a future is a task.
#[derive(Clone, Copy, Debug, PartialEq, Eq, Structural)]
pub enum FutureKind {
    Future,
    Task,
}

/// How far a future has come.
pub enum FutureState {
    Pending,
    Finished(Value),
    Failed(RunError),
    Cancelled(RunError),
}

/// What a task runs.
#[derive(Clone, Copy, Debug, PartialEq, Eq, Structural)]
pub struct TaskRun {
    pub task_id: u32,
    pub coroutine: Option<HeapId>,
}

/// A future, or a task.
pub struct Future {
    pub kind: FutureKind,
    pub state: FutureState,
    /// What is called when it settles.
    pub callbacks: Vec<Value>,
    pub name: Option<EitherStr>,
    /// How many requests to cancel it are under way.
    pub cancelling: u32,
    pub run: Option<TaskRun>,
}

#[verifier::ext_equal]
pub enum StateModel {
    Pending,
    Finished(Value),
    Failed(ErrorModel),
    Cancelled(ErrorModel),
}

/// A future as a mathematical value.
#[verifier::ext_equal]
pub struct FutureModel {
    pub kind: FutureKind,
    pub state: StateModel,
    pub callbacks: Seq<Value>,
    pub name: Option<EitherModel>,
    pub cancelling: u32,
    pub run: Option<TaskRun>,
}

impl View for Future {
    type V = FutureModel;

    open spec fn view(&self) -> FutureModel {
        FutureModel {
            kind: self.kind,
            state: match self.state {
                FutureState::Pending => StateModel::Pending,
                FutureState::Finished(value) => StateModel::Finished(value),
                FutureState::Failed(error) => StateModel::Failed(error@),
                FutureState::Cancelled(error) => StateModel::Cancelled(error@),
            },
            callbacks: self.callbacks@,
            name: match self.name {
                Some(name) => Some(name@),
                None => None,
            },
            cancelling: self.cancelling,
            run: self.run,
        }
    }
}

/// The future has a result, an error or was cancelled.
pub open spec fn settled(state: StateModel) -> bool {
    !(state is Pending)
}

/// The type of a future.
pub open spec fn future_type(kind: FutureKind) -> AsyncType {
    match kind {
        FutureKind::Future => AsyncType::Future,
        FutureKind::Task => AsyncType::Task,
    }
}

/// What a method of a future gives, or what the loop has to do for it.
pub enum FutureAnswer {
    Value(Value),
    /// The exception object that stands for the error.
    Exception(RunError),
    /// Cancel the future, with this message, and give whether that worked.
    Cancel(Value),
    /// Settle the future with a result.
    Settle(Value),
    /// Settle the future with the error that this value stands for.
    SettleError(Value),
    /// Call this soon, since the future has settled.
    Schedule(Value),
    /// Name the task after this value, as text.
    Rename(Value),
}

#[verifier::ext_equal]
pub enum AnswerModel {
    Value(Value),
    Exception(ErrorModel),
    Cancel(Value),
    Settle(Value),
    SettleError(Value),
    Schedule(Value),
    Rename(Value),
}

impl View for FutureAnswer {
    type V = AnswerModel;

    open spec fn view(&self) -> AnswerModel {
        match *self {
            FutureAnswer::Value(value) => AnswerModel::Value(value),
            FutureAnswer::Exception(error) => AnswerModel::Exception(error@),
            FutureAnswer::Cancel(value) => AnswerModel::Cancel(value),
            FutureAnswer::Settle(value) => AnswerModel::Settle(value),
            FutureAnswer::SettleError(value) => AnswerModel::SettleError(value),
            FutureAnswer::Schedule(value) => AnswerModel::Schedule(value),
            FutureAnswer::Rename(value) => AnswerModel::Rename(value),
        }
    }
}

/// What a call leaves of the future and of the run, and what it gives.
#[verifier::ext_equal]
pub struct FutureEffect {
    pub future: FutureModel,
    pub vm: VmModel,
    pub answer: Result<AnswerModel, ErrorModel>,
}

/// The error about a future that is not in the state that a call needs.
pub open spec fn invalid_state_model(text: Seq<char>) -> ErrorModel {
    raised(ExcType::InvalidStateError, text)
}

/// A call that changes nothing.
pub open spec fn answers(vm: VmModel, future: FutureModel, answer: Result<AnswerModel, ErrorModel>) -> FutureEffect {
    FutureEffect { future, vm, answer }
}

/// A call without arguments that gives a value.
pub open spec fn reads(vm: VmModel, future: FutureModel, name: Seq<char>, args: ArgsModel, value: Value) -> FutureEffect {
    answers(
        vm,
        future,
        match zero_args(name, args) {
            Err(error) => Err(error),
            Ok(_) => Ok(AnswerModel::Value(value)),
        },
    )
}

/// The argument of a call that takes exactly one.
pub open spec fn exactly_one(name: Seq<char>, missing: Seq<char>, args: ArgsModel) -> Result<Value, ErrorModel> {
    match zero_one_arg(name, args) {
        Err(error) => Err(error),
        Ok(None) => Err(type_error_model(missing)),
        Ok(Some(value)) => Ok(value),
    }
}

/// Reads the argument of a call that takes exactly one.
fn get_exactly_one(name: &str, missing: &str, args: &ArgValues) -> (value: RunResult<Value>)
    ensures
        match (value, exactly_one(name@, missing@, args@)) {
            (Ok(value), Ok(expected)) => value == expected,
            (Err(error), Err(expected)) => error@ == expected,
            _ => false,
        },
{
    match args.get_zero_one_arg(name)? {
        Some(value) => Ok(value),
        None => Err(type_error(missing)),
    }
}

/// What `result()` gives.
pub open spec fn result_of(state: StateModel) -> Result<AnswerModel, ErrorModel> {
    match state {
        StateModel::Finished(value) => Ok(AnswerModel::Value(value)),
        StateModel::Failed(error) => Err(error),
        StateModel::Cancelled(error) => Err(error),
        StateModel::Pending => Err(invalid_state_model("Result is not set."@)),
    }
}

/// What `exception()` gives. An error that no code can catch has no object.
pub open spec fn exception_of(state: StateModel) -> Result<AnswerModel, ErrorModel> {
    match state {
        StateModel::Finished(_) => Ok(AnswerModel::Value(Value::NoneValue)),
        StateModel::Cancelled(error) => Err(error),
        StateModel::Failed(error) => Ok(
            if error.catchable {
                AnswerModel::Exception(error)
            } else {
                AnswerModel::Value(Value::NoneValue)
            },
        ),
        StateModel::Pending => Err(invalid_state_model("Exception is not set."@)),
    }
}

/// The callbacks that are not this one, from `i` on.
pub open spec fn other_callbacks(callbacks: Seq<Value>, callback: Value, i: int) -> Seq<Value>
    decreases callbacks.len() - i,
{
    if i < 0 || i >= callbacks.len() {
        Seq::empty()
    } else if callbacks[i] == callback {
        other_callbacks(callbacks, callback, i + 1)
    } else {
        seq![callbacks[i]] + other_callbacks(callbacks, callback, i + 1)
    }
}

/// How many callbacks are this one, as far as an `i64` counts.
pub open spec fn removed_callbacks(callbacks: Seq<Value>, callback: Value) -> i64 {
    let count = callbacks.len() - other_callbacks(callbacks, callback, 0).len();
    if count <= i64::MAX {
        count as i64
    } else {
        i64::MAX
    }
}

/// The text of a task's name where it was not given one.
pub open spec fn default_task_name(run: Option<TaskRun>) -> Seq<char> {
    "Task-"@ + decimal(
        match run {
            Some(run) => run.task_id as nat,
            None => 0,
        },
    )
}

/// What `get_name()` leaves and gives.
pub open spec fn name_of_task(vm: VmModel, future: FutureModel) -> FutureEffect {
    let (next, name) = vm.with_text(
        match future.name {
            Some(name) => name,
            None => EitherModel::Heap(default_task_name(future.run)),
        },
    );
    FutureEffect { future, vm: next, answer: Ok(AnswerModel::Value(name)) }
}

/// What a method that only tasks have leaves and gives, or nothing where the
/// name is none of them.
pub open spec fn task_call(vm: VmModel, future: FutureModel, name: Seq<char>, args: ArgsModel) -> Option<FutureEffect> {
    if name == "get_name"@ {
        Some(
            match zero_args("get_name"@, args) {
                Err(error) => answers(vm, future, Err(error)),
                Ok(_) => name_of_task(vm, future),
            },
        )
    } else if name == "set_name"@ {
        Some(
            answers(
                vm,
                future,
                match exactly_one("set_name"@, "Task.set_name() takes exactly one argument (0 given)"@, args) {
                    Err(error) => Err(error),
                    Ok(value) => Ok(AnswerModel::Rename(value)),
                },
            ),
        )
    } else if name == "get_coro"@ {
        Some(
            reads(
                vm,
                future,
                "get_coro"@,
                args,
                match future.run {
                    Some(TaskRun { coroutine: Some(id), .. }) => Value::Ref(id),
                    _ => Value::NoneValue,
                },
            ),
        )
    } else if name == "cancelling"@ {
        Some(reads(vm, future, "cancelling"@, args, Value::Int(future.cancelling as i64)))
    } else if name == "uncancel"@ {
        Some(
            match zero_args("uncancel"@, args) {
                Err(error) => answers(vm, future, Err(error)),
                Ok(_) => {
                    let left = if future.cancelling == 0 {
                        0u32
                    } else {
                        (future.cancelling - 1) as u32
                    };
                    FutureEffect {
                        future: FutureModel { cancelling: left, ..future },
                        vm,
                        answer: Ok(AnswerModel::Value(Value::Int(left as i64))),
                    }
                },
            },
        )
    } else {
        None
    }
}

/// What a method that sets a future leaves and gives.
pub open spec fn setter_call(future: FutureModel, name: Seq<char>, args: ArgsModel) -> (
    FutureModel,
    Result<AnswerModel, ErrorModel>,
) {
    if name == "set_result"@ {
        (
            future,
            match exactly_one("set_result"@, "Future.set_result() takes exactly one argument (0 given)"@, args) {
                Err(error) => Err(error),
                Ok(value) => if settled(future.state) {
                    Err(invalid_state_model("invalid state"@))
                } else {
                    Ok(AnswerModel::Settle(value))
                },
            },
        )
    } else if name == "set_exception"@ {
        (
            future,
            match exactly_one("set_exception"@, "Future.set_exception() takes exactly one argument (0 given)"@, args) {
                Err(error) => Err(error),
                Ok(value) => if settled(future.state) {
                    Err(invalid_state_model("invalid state"@))
                } else {
                    Ok(AnswerModel::SettleError(value))
                },
            },
        )
    } else if name == "add_done_callback"@ {
        match exactly_one(
            "add_done_callback"@,
            "Future.add_done_callback() takes exactly one argument (0 given)"@,
            args,
        ) {
            Err(error) => (future, Err(error)),
            Ok(callback) => if settled(future.state) {
                (future, Ok(AnswerModel::Schedule(callback)))
            } else {
                (
                    FutureModel { callbacks: future.callbacks.push(callback), ..future },
                    Ok(AnswerModel::Value(Value::NoneValue)),
                )
            },
        }
    } else {
        match exactly_one(
            "remove_done_callback"@,
            "Future.remove_done_callback() takes exactly one argument (0 given)"@,
            args,
        ) {
            Err(error) => (future, Err(error)),
            Ok(callback) => (
                FutureModel { callbacks: other_callbacks(future.callbacks, callback, 0), ..future },
                Ok(AnswerModel::Value(Value::Int(removed_callbacks(future.callbacks, callback)))),
            ),
        }
    }
}

/// The name is that of a method that sets a future.
pub open spec fn is_setter(name: Seq<char>) -> bool {
    name == "set_result"@ || name == "set_exception"@ || name == "add_done_callback"@ || name
        == "remove_done_callback"@
}

/// What a call of a method by its name leaves and gives.
pub open spec fn future_call(vm: VmModel, future: FutureModel, self_id: HeapId, name: Seq<char>, args: ArgsModel) -> FutureEffect {
    if name == "done"@ {
        reads(vm, future, "done"@, args, Value::Bool(settled(future.state)))
    } else if name == "cancelled"@ {
        reads(vm, future, "cancelled"@, args, Value::Bool(future.state is Cancelled))
    } else if name == "result"@ {
        answers(
            vm,
            future,
            match zero_args("result"@, args) {
                Err(error) => Err(error),
                Ok(_) => result_of(future.state),
            },
        )
    } else if name == "exception"@ {
        answers(
            vm,
            future,
            match zero_args("exception"@, args) {
                Err(error) => Err(error),
                Ok(_) => exception_of(future.state),
            },
        )
    } else if name == "cancel"@ {
        answers(
            vm,
            future,
            match zero_one_arg("cancel"@, args) {
                Err(error) => Err(error),
                Ok(Some(message)) => Ok(AnswerModel::Cancel(message)),
                Ok(None) => Ok(AnswerModel::Cancel(Value::NoneValue)),
            },
        )
    } else if is_setter(name) {
        let (next, answer) = setter_call(future, name, args);
        answers(vm, next, answer)
    } else if future.kind is Task && task_call(vm, future, name, args) is Some {
        task_call(vm, future, name, args)->Some_0
    } else if name == "__await__"@ {
        reads(vm, future, "__await__"@, args, Value::Ref(self_id))
    } else {
        answers(
            vm,
            future,
            Err(
                raised(
                    ExcType::AttributeError,
                    "'"@ + async_type_named(future_type(future.kind)) + "' object has no attribute '"@ + name + "'"@,
                ),
            ),
        )
    }
}

/// The result is the one that the model gives.
pub open spec fn answered(result: RunResult<FutureAnswer>, model: Result<AnswerModel, ErrorModel>) -> bool {
    match (result, model) {
        (Ok(answer), Ok(expected)) => answer@ == expected,
        (Err(error), Err(expected)) => error@ == expected,
        _ => false,
    }
}

impl FutureState {
    /// Says whether the future has settled.
    pub fn is_settled(&self) -> (is: bool)
        ensures
            is == !(*self is Pending),
    {
        match self {
            FutureState::Pending => false,
            _ => true,
        }
    }
}

impl Future {
    /// A future that nothing has settled.
    pub fn new(kind: FutureKind, run: Option<TaskRun>) -> (future: Future)
        ensures
            future@ == (FutureModel {
                kind,
                state: StateModel::Pending,
                callbacks: Seq::empty(),
                name: None,
                cancelling: 0,
                run,
            }),
    {
        Future { kind, state: FutureState::Pending, callbacks: Vec::new(), name: None, cancelling: 0, run }
    }

    /// The type of the future.
    pub fn py_type(&self) -> (of: AsyncType)
        ensures
            of == future_type(self@.kind),
    {
        match self.kind {
            FutureKind::Future => AsyncType::Future,
            FutureKind::Task => AsyncType::Task,
        }
    }

    /// Gives a task its name.
    pub fn set_name(&mut self, name: EitherStr)
        ensures
            final(self)@ == (FutureModel {
                name: Some(name@),
                ..old(self)@
            }),
    {
        self.name = Some(name);
    }

    /// Takes a callback away, however often it is there.
    fn remove_callback(&mut self, callback: Value) -> (removed: i64)
        ensures
            final(self)@ == (FutureModel {
                callbacks: other_callbacks(old(self)@.callbacks, callback, 0),
                ..old(self)@
            }),
            removed == removed_callbacks(old(self)@.callbacks, callback),
    {
        let ghost all = self.callbacks@;
        let mut kept: Vec<Value> = Vec::new();
        let mut removed: i64 = 0;
        let mut i: usize = 0;
        assert(kept@ + other_callbacks(all, callback, 0) =~= other_callbacks(all, callback, 0));
        while i < self.callbacks.len()
            invariant
                i <= all.len(),
                all == self.callbacks@,
                self@ == old(self)@,
                kept@ + other_callbacks(all, callback, i as int) == other_callbacks(all, callback, 0),
                kept@.len() <= i,
                0 <= removed,
                removed == if i - kept@.len() <= i64::MAX {
                    i - kept@.len()
                } else {
                    i64::MAX as int
                },
            decreases all.len() - i,
        {
            let existing: Value = self.callbacks[i];
            if existing == callback {
                if removed < i64::MAX {
                    removed = removed + 1;
                }
            } else {
                let ghost before = kept@;
                kept.push(existing);
                assert(before.push(existing) + other_callbacks(all, callback, i + 1) =~= before + (seq![existing]
                    + other_callbacks(all, callback, i + 1)));
            }
            i = i + 1;
        }
        assert(kept@ + Seq::<Value>::empty() =~= kept@);
        self.callbacks = kept;
        removed
    }

    /// Calls a method that sets the future.
    fn call_setter(&mut self, name: &str, args: &ArgValues) -> (result: RunResult<FutureAnswer>)
        requires
            is_setter(name@),
        ensures
            final(self)@ == setter_call(old(self)@, name@, args@).0,
            answered(result, setter_call(old(self)@, name@, args@).1),
    {
        if same_text(name, "set_result") {
            let value: Value = get_exactly_one(
                "set_result",
                "Future.set_result() takes exactly one argument (0 given)",
                args,
            )?;
            if self.state.is_settled() {
                return Err(raise(ExcType::InvalidStateError, "invalid state"));
            }
            return Ok(FutureAnswer::Settle(value));
        }
        if same_text(name, "set_exception") {
            let value: Value = get_exactly_one(
                "set_exception",
                "Future.set_exception() takes exactly one argument (0 given)",
                args,
            )?;
            if self.state.is_settled() {
                return Err(raise(ExcType::InvalidStateError, "invalid state"));
            }
            return Ok(FutureAnswer::SettleError(value));
        }
        if same_text(name, "add_done_callback") {
            let callback: Value = get_exactly_one(
                "add_done_callback",
                "Future.add_done_callback() takes exactly one argument (0 given)",
                args,
            )?;
            if self.state.is_settled() {
                return Ok(FutureAnswer::Schedule(callback));
            }
            self.callbacks.push(callback);
            return Ok(FutureAnswer::Value(Value::NoneValue));
        }
        let callback: Value = get_exactly_one(
            "remove_done_callback",
            "Future.remove_done_callback() takes exactly one argument (0 given)",
            args,
        )?;
        let removed: i64 = self.remove_callback(callback);
        Ok(FutureAnswer::Value(Value::Int(removed)))
    }

    /// Calls a method that only tasks have.
    fn call_task(&mut self, name: &str, args: &ArgValues, vm: &mut VM) -> (result: Option<RunResult<FutureAnswer>>)
        ensures
            match task_call(old(vm)@, old(self)@, name@, args@) {
                Some(effect) => final(self)@ == effect.future && final(vm)@ == effect.vm && (result matches Some(result)
                    && answered(result, effect.answer)),
                None => result is None && final(self)@ == old(self)@ && final(vm)@ == old(vm)@,
            },
    {
        if same_text(name, "get_name") {
            if let Err(error) = args.check_zero_args("get_name") {
                return Some(Err(error));
            }
            let value: Value = match &self.name {
                Some(name) => vm.allocate_text(name),
                None => {
                    let number: u64 = match self.run {
                        Some(run) => run.task_id as u64,
                        None => 0,
                    };
                    let mut text = "Task-".to_owned();
                    text.append(decimal_text(number).as_str());
                    vm.allocate_text(&EitherStr::Heap(text))
                },
            };
            return Some(Ok(FutureAnswer::Value(value)));
        }
        if same_text(name, "set_name") {
            return Some(
                match get_exactly_one("set_name", "Task.set_name() takes exactly one argument (0 given)", args) {
                    Ok(value) => Ok(FutureAnswer::Rename(value)),
                    Err(error) => Err(error),
                },
            );
        }
        if same_text(name, "get_coro") {
            if let Err(error) = args.check_zero_args("get_coro") {
                return Some(Err(error));
            }
            let value: Value = match self.run {
                Some(TaskRun { coroutine: Some(id), .. }) => Value::Ref(id),
                _ => Value::NoneValue,
            };
            return Some(Ok(FutureAnswer::Value(value)));
        }
        if same_text(name, "cancelling") {
            if let Err(error) = args.check_zero_args("cancelling") {
                return Some(Err(error));
            }
            return Some(Ok(FutureAnswer::Value(Value::Int(self.cancelling as i64))));
        }
        if same_text(name, "uncancel") {
            if let Err(error) = args.check_zero_args("uncancel") {
                return Some(Err(error));
            }
            self.cancelling = self.cancelling.saturating_sub(1);
            return Some(Ok(FutureAnswer::Value(Value::Int(self.cancelling as i64))));
        }
        None
    }

    /// What `result()` gives.
    fn read_result(&self) -> (result: RunResult<FutureAnswer>)
        ensures
            answered(result, result_of(self@.state)),
    {
        match &self.state {
            FutureState::Finished(value) => Ok(FutureAnswer::Value(*value)),
            FutureState::Failed(error) => Err(copy_error(error)),
            FutureState::Cancelled(error) => Err(copy_error(error)),
            FutureState::Pending => Err(raise(ExcType::InvalidStateError, "Result is not set.")),
        }
    }

    /// What `exception()` gives.
    fn read_exception(&self) -> (result: RunResult<FutureAnswer>)
        ensures
            answered(result, exception_of(self@.state)),
    {
        match &self.state {
            FutureState::Finished(_) => Ok(FutureAnswer::Value(Value::NoneValue)),
            FutureState::Cancelled(error) => Err(copy_error(error)),
            FutureState::Failed(error) => match error_as_value_opt(error) {
                Some(error) => Ok(FutureAnswer::Exception(error)),
                None => Ok(FutureAnswer::Value(Value::NoneValue)),
            },
            FutureState::Pending => Err(raise(ExcType::InvalidStateError, "Exception is not set.")),
        }
    }
}

impl HeapRead<Future> {
    /// Calls a method by its name.
    pub fn py_call_attr(&mut self, self_id: HeapId, name: &str, args: &ArgValues, vm: &mut VM) -> (result: RunResult<
        FutureAnswer,
    >)
        ensures
            ({
                let effect = future_call(old(vm)@, old(self).item@, self_id, name@, args@);
                final(self).item@ == effect.future && final(vm)@ == effect.vm && answered(result, effect.answer)
            }),
    {
        if same_text(name, "done") {
            args.check_zero_args("done")?;
            return Ok(FutureAnswer::Value(Value::Bool(self.item.state.is_settled())));
        }
        if same_text(name, "cancelled") {
            args.check_zero_args("cancelled")?;
            let cancelled: bool = match &self.item.state {
                FutureState::Cancelled(_) => true,
                _ => false,
            };
            return Ok(FutureAnswer::Value(Value::Bool(cancelled)));
        }
        if same_text(name, "result") {
            args.check_zero_args("result")?;
            return self.item.read_result();
        }
        if same_text(name, "exception") {
            args.check_zero_args("exception")?;
            return self.item.read_exception();
        }
        if same_text(name, "cancel") {
            return match args.get_zero_one_arg("cancel")? {
                Some(message) => Ok(FutureAnswer::Cancel(message)),
                None => Ok(FutureAnswer::Cancel(Value::NoneValue)),
            };
        }
        if same_text(name, "set_result") || same_text(name, "set_exception") || same_text(name, "add_done_callback")
            || same_text(name, "remove_done_callback") {
            return self.item.call_setter(name, args);
        }
        if let FutureKind::Task = self.item.kind {
            if let Some(result) = self.item.call_task(name, args, vm) {
                return result;
            }
        }
        if same_text(name, "__await__") {
            args.check_zero_args("__await__")?;
            return Ok(FutureAnswer::Value(Value::Ref(self_id)));
        }
        Err(
            raise5(
                ExcType::AttributeError,
                "'",
                self.item.py_type().name(),
                "' object has no attribute '",
                name,
                "'",
            ),
        )
    }

    /// The attribute that can be read: whether the future still waits.
    pub fn py_getattr(&self, name: &str) -> (value: Option<Value>)
        ensures
            value == if name@ == "_asyncio_future_blocking"@ {
                Some(Value::Bool(!settled(self.item@.state)))
            } else {
                None
            },
    {
        if same_text(name, "_asyncio_future_blocking") {
            Some(Value::Bool(!self.item.state.is_settled()))
        } else {
            None
        }
    }

    /// The future as text. `settled_as` is the text of what it has settled
    /// with, where it has a result or an error.
    pub fn py_repr(&self, settled_as: &str) -> (text: String)
        ensures
            text@ == future_text(self.item@, settled_as@),
    {
        let name: &str = self.item.py_type().name();
        let mut text = "<".to_owned();
        text.append(name);
        match &self.item.state {
            FutureState::Pending => {
                text.append(" pending>");
            },
            FutureState::Cancelled(_) => {
                text.append(" cancelled>");
            },
            FutureState::Finished(_) => {
                text.append(" finished result=");
                text.append(settled_as);
                text.append(">");
            },
            FutureState::Failed(_) => {
                text.append(" finished exception=");
                text.append(settled_as);
                text.append(">");
            },
        }
        text
    }
}

/// A future as text.
pub open spec fn future_text(future: FutureModel, settled_as: Seq<char>) -> Seq<char> {
    let name = "<"@ + async_type_named(future_type(future.kind));
    match future.state {
        StateModel::Pending => name + " pending>"@,
        StateModel::Cancelled(_) => name + " cancelled>"@,
        StateModel::Finished(_) => name + " finished result="@ + settled_as + ">"@,
        StateModel::Failed(_) => name + " finished exception="@ + settled_as + ">"@,
    }
}

/// The error that an exception object stands for, where there can be one. No
/// object stands for an error that no code can catch.
pub fn error_as_value_opt(error: &RunError) -> (object: Option<RunError>)
    ensures
        match object {
            Some(copy) => error@.catchable && copy@ == error@,
            None => !error@.catchable,
        },
{
    if error.catchable {
        Some(copy_error(error))
    } else {
        None
    }
}

/// What the call of a future type makes.
#[derive(Clone, Copy, Debug, PartialEq, Eq, Structural)]
pub enum NewFuture {
    /// A future that nothing has settled.
    Future,
    /// A task that runs this coroutine.
    Task(HeapId),
}

/// The value is a coroutine.
pub open spec fn is_coroutine(vm: VmModel, value: Value) -> bool {
    value is Ref && vm.name_of_type(value) == "coroutine"@
}

/// What the call of a future type makes.
pub open spec fn new_future(vm: VmModel, kind: FutureKind, args: ArgsModel) -> Result<NewFuture, ErrorModel> {
    match kind {
        FutureKind::Future => match zero_args("Future"@, args) {
            Err(error) => Err(error),
            Ok(_) => Ok(NewFuture::Future),
        },
        FutureKind::Task => match exactly_one(
            "Task"@,
            "Task() missing 1 required positional argument: 'coro'"@,
            args,
        ) {
            Err(error) => Err(error),
            Ok(coroutine) => if is_coroutine(vm, coroutine) {
                Ok(NewFuture::Task(coroutine->Ref_0))
            } else {
                Err(type_error_model("a coroutine was expected"@))
            },
        },
    }
}

/// Reads the call of a future type.
pub fn init_future(kind: FutureKind, args: &ArgValues, vm: &VM) -> (made: RunResult<NewFuture>)
    requires
        holds_args(vm@, args@),
    ensures
        match (made, new_future(vm@, kind, args@)) {
            (Ok(made), Ok(expected)) => made == expected,
            (Err(error), Err(expected)) => error@ == expected,
            _ => false,
        },
{
    match kind {
        FutureKind::Future => {
            args.check_zero_args("Future")?;
            Ok(NewFuture::Future)
        },
        FutureKind::Task => {
            let coroutine: Value = get_exactly_one(
                "Task",
                "Task() missing 1 required positional argument: 'coro'",
                args,
            )?;
            assert(coroutine == args@.positional[0]);
            if let Value::Ref(id) = coroutine {
                if same_text(vm.py_type_name(coroutine), "coroutine") {
                    return Ok(NewFuture::Task(id));
                }
            }
            Err(type_error("a coroutine was expected"))
        },
    }
}

/// A future that has settled cannot be set again: neither its state nor its
/// callbacks change any more.
pub proof fn law_settled_future_stays(vm: VmModel, future: FutureModel, self_id: HeapId, args: ArgsModel)
    requires
        settled(future.state),
        args.keywords.len() == 0,
        args.positional.len() == 1,
    ensures
        future_call(vm, future, self_id, "set_result"@, args).answer == Err::<AnswerModel, ErrorModel>(
            invalid_state_model("invalid state"@),
        ),
        future_call(vm, future, self_id, "set_result"@, args).future == future,
        future_call(vm, future, self_id, "set_exception"@, args).answer == Err::<AnswerModel, ErrorModel>(
            invalid_state_model("invalid state"@),
        ),
        future_call(vm, future, self_id, "set_exception"@, args).future == future,
        future_call(vm, future, self_id, "add_done_callback"@, args).future == future,
        future_call(vm, future, self_id, "add_done_callback"@, args).answer == Ok::<AnswerModel, ErrorModel>(
            AnswerModel::Schedule(args.positional[0]),
        ),
{
    reveal_strlit("done");
    reveal_strlit("cancelled");
    reveal_strlit("result");
    reveal_strlit("exception");
    reveal_strlit("cancel");
    reveal_strlit("set_result");
    reveal_strlit("set_exception");
    reveal_strlit("add_done_callback");
    assert("set_result"@.len() == 10);
    assert("set_exception"@.len() == 13);
    assert("add_done_callback"@.len() == 17);
    assert("done"@.len() == 4);
    assert("cancelled"@.len() == 9);
    assert("result"@.len() == 6);
    assert("exception"@.len() == 9);
    assert("cancel"@.len() == 6);
}

/// A callback that was taken away is no longer there, and the others stay.
pub proof fn law_removed_callback_is_gone(callbacks: Seq<Value>, callback: Value, i: int)
    requires
        0 <= i <= callbacks.len(),
    ensures
        !other_callbacks(callbacks, callback, i).contains(callback),
        forall|other: Value|
            other != callback && callbacks.skip(i).contains(other) ==> #[trigger] other_callbacks(
                callbacks,
                callback,
                i,
            ).contains(other),
    decreases callbacks.len() - i,
{
    if i < callbacks.len() {
        law_removed_callback_is_gone(callbacks, callback, i + 1);
        let rest = other_callbacks(callbacks, callback, i + 1);
        let whole = other_callbacks(callbacks, callback, i);
        if callbacks[i] != callback {
            assert(whole == seq![callbacks[i]] + rest);
            assert forall|k: int| 0 <= k < whole.len() implies #[trigger] whole[k] != callback by {
                if k > 0 {
                    assert(whole[k] == rest[k - 1]);
                    assert(rest.contains(rest[k - 1]));
                }
            }
        }
        assert forall|other: Value| other != callback && callbacks.skip(i).contains(other) implies #[trigger] whole.contains(
            other,
        ) by {
            let k = choose|k: int| 0 <= k < callbacks.skip(i).len() && callbacks.skip(i)[k] == other;
            if k == 0 {
                assert(callbacks[i] == other);
                assert(whole[0] == other);
            } else {
                assert(callbacks.skip(i + 1)[k - 1] == other);
                assert(rest.contains(other));
                let j = choose|j: int| 0 <= j < rest.len() && rest[j] == other;
                if callbacks[i] != callback {
                    assert(whole[j + 1] == other);
                } else {
                    assert(whole[j] == other);
                }
            }
        }
    }
}

/// Futures in the order in which they finish.
pub struct Combinator {
    pub children: Vec<HeapId>,
}

/// What a method of a combinator gives.
#[derive(Clone, Copy, Debug, PartialEq, Eq, Structural)]
pub enum CombinatorAnswer {
    Value(Value),
    /// A future that settles with the next child that finishes.
    Next,
}

/// What a call of a combinator's method gives.
pub open spec fn combinator_call(self_id: HeapId, name: Seq<char>, args: ArgsModel) -> Result<CombinatorAnswer, ErrorModel> {
    if name == "__aiter__"@ {
        match zero_args("__aiter__"@, args) {
            Err(error) => Err(error),
            Ok(_) => Ok(CombinatorAnswer::Value(Value::Ref(self_id))),
        }
    } else if name == "__anext__"@ {
        match zero_args("__anext__"@, args) {
            Err(error) => Err(error),
            Ok(_) => Ok(CombinatorAnswer::Next),
        }
    } else {
        Err(
            raised(
                ExcType::AttributeError,
                "'"@ + async_type_named(AsyncType::AsCompleted) + "' object has no attribute '"@ + name + "'"@,
            ),
        )
    }
}

impl HeapRead<Combinator> {
    /// How many children there are.
    pub fn py_len(&self) -> (len: usize)
        ensures
            len == self.item.children@.len(),
    {
        self.item.children.len()
    }

    /// The combinator as text.
    pub fn py_repr(&self) -> (text: String)
        ensures
            text@ == "<as_completed("@ + decimal(self.item.children@.len()) + ")>"@,
    {
        join3("<as_completed(", decimal_text(self.item.children.len() as u64).as_str(), ")>")
    }

    /// Calls a method by its name.
    pub fn py_call_attr(&self, self_id: HeapId, name: &str, args: &ArgValues) -> (answer: RunResult<CombinatorAnswer>)
        ensures
            match (answer, combinator_call(self_id, name@, args@)) {
                (Ok(answer), Ok(expected)) => answer == expected,
                (Err(error), Err(expected)) => error@ == expected,
                _ => false,
            },
    {
        if same_text(name, "__aiter__") {
            args.check_zero_args("__aiter__")?;
            return Ok(CombinatorAnswer::Value(Value::Ref(self_id)));
        }
        if same_text(name, "__anext__") {
            args.check_zero_args("__anext__")?;
            return Ok(CombinatorAnswer::Next);
        }
        Err(
            raise5(
                ExcType::AttributeError,
                "'",
                AsyncType::AsCompleted.name(),
                "' object has no attribute '",
                name,
                "'",
            ),
        )
    }
}

} // verus!
