//! Interactive sessions, which run one snippet after the other against one
//! heap and one set of names.
//!
//! Compiling and running a snippet is the work of the host. A session hands
//! out what a run needs, takes back what the run leaves, and says what comes
//! next. The symbols that a snippet was compiled with are taken back on every
//! way out of it, since values that stay may name them.

use crate::args::ArgValues;
use crate::ast::{Expr, ExprLoc, Identifier, Node};
use crate::cwd::{canonical, canonical_cwd};
use crate::exceptions::{raise, raise3, raised, type_error, type_error_model, ErrorModel, ExcType, RunError, RunResult};
use crate::heap::{DataModel, HeapData, VmModel, VM};
use crate::intern::{lemma_position_of, position_of};
use crate::model::module_start;
use crate::name_map::{first_slot, keeps_slots, lemma_slots_stay};
use crate::names::{NamespaceId, StringId};
use crate::parse::CodeRange;
use crate::prepare::{law_known_names_are_read_from_their_slots, prepares_module};
use crate::prepared::{PreparedExpr, PreparedNode};
use crate::program::Program;
use crate::resource_checks::ResourceTracker;
use crate::text::{decimal, decimal_text, join3, push_decimal};
use crate::value::{HeapId, Value};
use ahash::AHashMap;
use vstd::prelude::*;

verus! {

/// The texts that a map of sources holds, each under its name.
pub uninterp spec fn source_texts(sources: AHashMap<String, String>) -> Map<Seq<char>, Seq<char>>;

/// No sources.
pub open spec fn no_sources() -> Map<Seq<char>, Seq<char>> {
    Map::empty()
}

/// `AHashMap::new`: a map that holds nothing.
#[verifier::external_body]
fn sources_new() -> (sources: AHashMap<String, String>)
    ensures
        source_texts(sources) == no_sources(),
{
    AHashMap::new()
}

/// `AHashMap::insert`: the text under the name from now on, in the place of
/// what was under it.
#[verifier::external_body]
fn sources_insert(sources: &mut AHashMap<String, String>, name: String, text: String)
    ensures
        source_texts(*final(sources)) == source_texts(*old(sources)).insert(name@, text@),
{
    sources.insert(name, text);
}

/// `AHashMap::get`: the text under a name, where there is one.
#[verifier::external_body]
fn sources_get<'a>(sources: &'a AHashMap<String, String>, name: &str) -> (text: Option<&'a String>)
    ensures
        text is Some == source_texts(*sources).contains_key(name@),
        text matches Some(found) ==> found@ == source_texts(*sources)[name@],
{
    sources.get(name)
}

/// The working directory that a session starts in.
pub open spec fn default_cwd() -> Seq<char> {
    "/"@
}

/// What compiling extends: names, interned strings and imported modules.
pub struct SessionTables {
    pub program: Program,
    pub modules: Vec<(String, Value)>,
}

/// What compiling extends, as a mathematical value.
#[verifier::ext_equal]
pub struct TablesModel {
    pub names: Seq<StringId>,
    pub strings: Seq<Seq<char>>,
    pub modules: Seq<(Seq<char>, Value)>,
}

impl View for SessionTables {
    type V = TablesModel;

    open spec fn view(&self) -> TablesModel {
        TablesModel {
            names: self.program.globals@,
            strings: self.program.interns@,
            modules: Seq::new(self.modules@.len(), |i: int| (self.modules@[i].0@, self.modules@[i].1)),
        }
    }
}

/// Every slot and every interned string of `before` stands for the same in
/// `after`: symbols are only added.
pub open spec fn extends_tables(before: TablesModel, after: TablesModel) -> bool {
    keeps_slots(before.names, after.names) && before.strings.is_prefix_of(after.strings)
}

/// How snippets are compiled, as the host writes it. A session keeps the
/// options and does not look into them.
#[derive(Debug)]
pub struct CompileOptions {
    pub encoded: Vec<u8>,
}

impl View for CompileOptions {
    type V = Seq<u8>;

    open spec fn view(&self) -> Seq<u8> {
        self.encoded@
    }
}

impl Default for CompileOptions {
    /// Nothing is asked for.
    fn default() -> (options: CompileOptions)
        ensures
            options@ == Seq::<u8>::empty(),
    {
        CompileOptions { encoded: Vec::new() }
    }
}

/// How calls of the clock, of sleeping and of the start of random numbers are
/// answered without the host, as the host writes it. A session keeps the
/// policies and does not look into them.
#[derive(Debug)]
pub struct AutoOsCalls {
    pub encoded: Vec<u8>,
}

impl View for AutoOsCalls {
    type V = Seq<u8>;

    open spec fn view(&self) -> Seq<u8> {
        self.encoded@
    }
}

impl Default for AutoOsCalls {
    /// The policies that the host starts with.
    fn default() -> (policies: AutoOsCalls)
        ensures
            policies@ == Seq::<u8>::empty(),
    {
        AutoOsCalls { encoded: Vec::new() }
    }
}

/// A session.
pub struct MontyRepl {
    /// The name of the session.
    pub script_name: String,
    /// The number of the next input.
    pub next_input_id: u64,
    pub tables: SessionTables,
    /// The source of every input, under its name.
    pub sources: AHashMap<String, String>,
    /// How every snippet is compiled.
    pub options: CompileOptions,
    /// How calls of the system are answered without the host.
    pub auto_os_calls: AutoOsCalls,
    /// The working directory that the next snippet starts in.
    pub cwd: String,
    /// The state of the generator of random numbers.
    pub random: Vec<u64>,
    pub heap: VM,
    /// The values of the module-level names, each at its slot.
    pub globals: Vec<Value>,
}

/// A session as a mathematical value.
#[verifier::ext_equal]
pub struct ReplModel {
    pub script_name: Seq<char>,
    pub next_input_id: u64,
    pub tables: TablesModel,
    pub sources: Map<Seq<char>, Seq<char>>,
    pub options: Seq<u8>,
    pub auto_os_calls: Seq<u8>,
    pub cwd: Seq<char>,
    pub random: Seq<u64>,
    pub heap: VmModel,
    pub globals: Seq<Value>,
}

impl View for MontyRepl {
    type V = ReplModel;

    open spec fn view(&self) -> ReplModel {
        ReplModel {
            script_name: self.script_name@,
            next_input_id: self.next_input_id,
            tables: self.tables@,
            sources: source_texts(self.sources),
            options: self.options@,
            auto_os_calls: self.auto_os_calls@,
            cwd: self.cwd@,
            random: self.random@,
            heap: self.heap@,
            globals: self.globals@,
        }
    }
}

/// A snippet that was compiled.
pub struct Executor {
    pub tables: SessionTables,
    /// How many slots the module-level names take.
    pub namespace_size: usize,
    /// The slots of the inputs.
    pub input_slots: Vec<NamespaceId>,
    /// The source of the snippet.
    pub code: String,
}

/// A snippet that was compiled, as a mathematical value.
#[verifier::ext_equal]
pub struct ExecutorModel {
    pub tables: TablesModel,
    pub namespace_size: usize,
    pub input_slots: Seq<NamespaceId>,
    pub code: Seq<char>,
}

impl View for Executor {
    type V = ExecutorModel;

    open spec fn view(&self) -> ExecutorModel {
        ExecutorModel {
            tables: self.tables@,
            namespace_size: self.namespace_size,
            input_slots: self.input_slots@,
            code: self.code@,
        }
    }
}

impl Executor {
    /// The snippet was compiled for the session: its symbols are in good order
    /// and extend those of the session.
    pub open spec fn belongs_to(self, repl: MontyRepl) -> bool {
        self.tables.program.wf() && extends_tables(repl@.tables, self@.tables)
    }
}

/// What a run starts from: the values of the names and the generator.
pub struct RunStart {
    pub globals: Vec<Value>,
    pub random: Vec<u64>,
}

/// What a run that ended leaves.
pub struct RunEnd {
    pub globals: Vec<Value>,
    /// The working directory, where the run owned one.
    pub cwd: Option<String>,
    pub random: Vec<u64>,
}

/// A run that waits for the host.
pub struct VMSnapshot {
    pub globals: Vec<Value>,
    pub cwd: String,
    pub random: Vec<u64>,
    /// The stack and the frames.
    pub frames: Vec<u8>,
}

/// A run that waits, as a mathematical value.
#[verifier::ext_equal]
pub struct SnapshotModel {
    pub globals: Seq<Value>,
    pub cwd: Seq<char>,
    pub random: Seq<u64>,
    pub frames: Seq<u8>,
}

/// What a run that ended leaves, as a mathematical value.
#[verifier::ext_equal]
pub struct EndModel {
    pub globals: Seq<Value>,
    pub cwd: Option<Seq<char>>,
    pub random: Seq<u64>,
}

impl View for VMSnapshot {
    type V = SnapshotModel;

    open spec fn view(&self) -> SnapshotModel {
        SnapshotModel { globals: self.globals@, cwd: self.cwd@, random: self.random@, frames: self.frames@ }
    }
}

impl View for RunEnd {
    type V = EndModel;

    open spec fn view(&self) -> EndModel {
        EndModel {
            globals: self.globals@,
            cwd: match self.cwd {
                Some(cwd) => Some(cwd@),
                None => None,
            },
            random: self.random@,
        }
    }
}

/// The name of the input with a number.
pub open spec fn input_name(id: u64) -> Seq<char> {
    "<python-input-"@ + decimal(id as nat) + ">"@
}

/// The values of the names, with room for so many slots.
pub open spec fn sized(globals: Seq<Value>, size: nat) -> Seq<Value> {
    if globals.len() < size {
        globals + Seq::new((size - globals.len()) as nat, |i: int| Value::Undefined)
    } else {
        globals
    }
}

/// A session with one more input.
pub open spec fn fed(repl: ReplModel, code: Seq<char>) -> ReplModel {
    ReplModel {
        next_input_id: (repl.next_input_id + 1) as u64,
        sources: repl.sources.insert(input_name(repl.next_input_id), code),
        ..repl
    }
}

/// A session whose time counts from a moment on.
pub open spec fn timed(repl: ReplModel, moment: std::time::Instant) -> ReplModel {
    ReplModel { heap: VmModel { tracker: repl.heap.tracker.starting_at(moment), ..repl.heap }, ..repl }
}

/// A session without what it has handed out to a run.
pub open spec fn handed_out(repl: ReplModel) -> ReplModel {
    ReplModel { globals: Seq::empty(), random: Seq::empty(), ..repl }
}

/// A session with the symbols of a snippet.
pub open spec fn committed(repl: ReplModel, executor: ExecutorModel) -> ReplModel {
    ReplModel { tables: executor.tables, ..repl }
}

/// A session with what a run left.
pub open spec fn reclaimed(repl: ReplModel, end: EndModel) -> ReplModel {
    ReplModel {
        globals: end.globals,
        random: end.random,
        cwd: match end.cwd {
            Some(cwd) => cwd,
            None => repl.cwd,
        },
        ..repl
    }
}

/// A session that gives up a run that waits.
pub open spec fn abandoned(repl: ReplModel, executor: ExecutorModel, state: SnapshotModel) -> ReplModel {
    committed(
        ReplModel { globals: state.globals, cwd: state.cwd, random: state.random, ..repl },
        executor,
    )
}

/// The value is a function that the session defines: with or without what it
/// captured or its defaults, but neither one that is built in nor one of the
/// host.
pub open spec fn callable(heap: VmModel, value: Value) -> bool {
    match value {
        Value::DefFunction(_) => true,
        Value::Ref(id) => id < heap.heap.len() && heap.heap[id as int] == (DataModel::Function { external: false }),
        _ => false,
    }
}

/// The slot holds a function that the session defines.
pub open spec fn holds_function(repl: ReplModel, slot: int) -> bool {
    0 <= slot < repl.globals.len() && callable(repl.heap, repl.globals[slot])
}

/// The names of the functions, from a slot on.
pub open spec fn functions_from(repl: ReplModel, slot: int) -> Seq<Seq<char>>
    decreases repl.tables.names.len() - slot,
{
    if slot < 0 || slot >= repl.tables.names.len() {
        Seq::empty()
    } else if holds_function(repl, slot) {
        seq![repl.tables.strings[repl.tables.names[slot] as int]] + functions_from(repl, slot + 1)
    } else {
        functions_from(repl, slot + 1)
    }
}

/// The slot of a name.
pub open spec fn slot_of(tables: TablesModel, name: Seq<char>) -> Option<NamespaceId> {
    match position_of(tables.strings, name) {
        None => None,
        Some(id) => first_slot(tables.names, id as StringId),
    }
}

/// Says whether a value is a function that the session defines.
pub fn is_callable(value: Value, heap: &VM) -> (is: bool)
    ensures
        is == callable(heap@, value),
{
    match value {
        Value::DefFunction(_) => true,
        Value::Ref(id) => {
            if id < heap.heap.len() {
                match &heap.heap[id] {
                    HeapData::Function { external } => !*external,
                    _ => false,
                }
            } else {
                false
            }
        },
        _ => false,
    }
}

/// The error about a name that stands for nothing.
pub open spec fn name_error(name: Seq<char>) -> ErrorModel {
    raised(ExcType::NameError, "name '"@ + name + "' is not defined"@)
}

/// Where the host calls a function of the session.
pub struct CallSite {
    pub name_id: StringId,
    pub slot: NamespaceId,
    /// The name of the input that the call is.
    pub script_name: String,
}

/// The slot of a function that the host calls, or why it cannot.
pub open spec fn call_slot(repl: ReplModel, name: Seq<char>, keywords: nat) -> Result<NamespaceId, ErrorModel> {
    if keywords != 0 {
        Err(type_error_model("call_function() takes positional arguments only"@))
    } else {
        match slot_of(repl.tables, name) {
            None => Err(name_error(name)),
            Some(slot) => if slot >= repl.globals.len() || repl.globals[slot as int] is Undefined {
                Err(name_error(name))
            } else {
                Ok(slot)
            },
        }
    }
}

impl MontyRepl {
    /// The symbols are in good order.
    pub open spec fn wf(self) -> bool {
        self.tables.program.wf()
    }

    /// A session that has run nothing.
    pub fn new(script_name: &str, tracker: ResourceTracker, options: CompileOptions) -> (repl: MontyRepl)
        ensures
            repl.wf(),
            repl@.script_name == script_name@,
            repl@.next_input_id == 0,
            repl@.tables == (TablesModel { names: Seq::empty(), strings: Seq::empty(), modules: Seq::empty() }),
            repl@.sources == no_sources(),
            repl@.options == options@,
            repl@.auto_os_calls == Seq::<u8>::empty(),
            repl@.cwd == default_cwd(),
            repl@.random == Seq::<u64>::empty(),
            repl@.globals == Seq::<Value>::empty(),
            repl@.heap.heap == Seq::<DataModel>::empty(),
            repl@.heap.tracker == tracker,
    {
        let tables = SessionTables { program: Program::new(), modules: Vec::new() };
        assert(tables@.modules =~= Seq::<(Seq<char>, Value)>::empty());
        MontyRepl {
            script_name: script_name.to_owned(),
            next_input_id: 0,
            tables,
            sources: sources_new(),
            options,
            auto_os_calls: AutoOsCalls::default(),
            cwd: "/".to_owned(),
            random: Vec::new(),
            heap: VM::new(Vec::new(), Vec::new(), tracker),
            globals: Vec::new(),
        }
    }

    /// Replaces the policies for calls of the system.
    pub fn with_auto_os_calls(self, auto_os_calls: AutoOsCalls) -> (repl: MontyRepl)
        requires
            self.wf(),
        ensures
            repl.wf(),
            repl@ == (ReplModel { auto_os_calls: auto_os_calls@, ..self@ }),
    {
        let mut repl = self;
        repl.auto_os_calls = auto_os_calls;
        repl
    }

    /// Says whether the symbols of a snippet extend those of the session.
    pub fn is_extended_by(&self, executor: &Executor) -> (extended: bool)
        ensures
            extended == extends_tables(self@.tables, executor@.tables),
    {
        self.tables.program.globals.is_extended_by(&executor.tables.program.globals)
            && self.tables.program.interns.is_extended_by(&executor.tables.program.interns)
    }

    /// Changes the working directory to where an absolute path leads, written
    /// without detours.
    pub fn set_cwd(&mut self, cwd: &str)
        requires
            old(self).wf(),
        ensures
            final(self).wf(),
            final(self)@ == (ReplModel { cwd: canonical(cwd@), ..old(self)@ }),
    {
        self.cwd = canonical_cwd(cwd);
    }

    /// The limits of the next run.
    pub fn tracker(&self) -> (tracker: &ResourceTracker)
        ensures
            *tracker == self@.heap.tracker,
    {
        &self.heap.tracker
    }

    /// The limits of the next run, to be changed.
    pub fn tracker_mut(&mut self) -> (tracker: &mut ResourceTracker)
        ensures
            *tracker == old(self)@.heap.tracker,
            final(self).wf() == old(self).wf(),
            final(self)@ == (ReplModel {
                heap: VmModel { tracker: *final(tracker), ..old(self)@.heap },
                ..old(self)@
            }),
    {
        &mut self.heap.tracker
    }

    /// How many items the heap holds.
    pub fn heap_entry_count(&self) -> (count: usize)
        ensures
            count == self@.heap.heap.len(),
    {
        self.heap.heap.len()
    }

    /// The source of an input, by its name.
    pub fn source(&self, name: &str) -> (text: Option<&String>)
        ensures
            match text {
                Some(text) => self@.sources.contains_key(name@) && text@ == self@.sources[name@],
                None => !self@.sources.contains_key(name@),
            },
    {
        sources_get(&self.sources, name)
    }

    /// The name of the next input.
    pub fn next_input_script_name(&mut self) -> (name: String)
        requires
            old(self).wf(),
            old(self)@.next_input_id < u64::MAX,
        ensures
            final(self).wf(),
            name@ == input_name(old(self)@.next_input_id),
            final(self)@ == (ReplModel { next_input_id: (old(self)@.next_input_id + 1) as u64, ..old(self)@ }),
    {
        let id: u64 = self.next_input_id;
        self.next_input_id = id + 1;
        join3("<python-input-", decimal_text(id).as_str(), ">")
    }

    /// Makes room for so many slots.
    pub fn ensure_globals_size(&mut self, size: usize)
        requires
            old(self).wf(),
        ensures
            final(self).wf(),
            final(self)@ == (ReplModel { globals: sized(old(self)@.globals, size as nat), ..old(self)@ }),
    {
        let ghost before = self.globals@;
        while self.globals.len() < size
            invariant
                self.wf(),
                before == old(self)@.globals,
                before.len() <= self.globals@.len(),
                self.globals@.len() <= size || self.globals@ == before,
                self@ == (ReplModel { globals: self.globals@, ..old(self)@ }),
                forall|i: int| 0 <= i < before.len() ==> #[trigger] self.globals@[i] == before[i],
                forall|i: int| before.len() <= i < self.globals@.len() ==> #[trigger] self.globals@[i] is Undefined,
            decreases size - self.globals@.len(),
        {
            self.globals.push(Value::Undefined);
        }
        assert(self.globals@ =~= sized(before, size as nat));
    }

    /// Takes the symbols of a snippet back.
    pub fn commit_executor(&mut self, executor: Executor)
        requires
            executor.belongs_to(*old(self)),
        ensures
            final(self).wf(),
            final(self)@ == committed(old(self)@, executor@),
    {
        self.tables = executor.tables;
    }

    /// Takes back what a run left.
    pub fn reclaim_vm_state(&mut self, end: RunEnd)
        requires
            old(self).wf(),
        ensures
            final(self).wf(),
            final(self)@ == reclaimed(old(self)@, end@),
    {
        self.globals = end.globals;
        if let Some(cwd) = end.cwd {
            self.cwd = cwd;
        }
        self.random = end.random;
    }

    /// Starts a snippet: its name, under which its source is kept. Nothing is
    /// to be done for an empty one.
    pub fn feed_start(&mut self, code: &str) -> (name: Option<String>)
        requires
            old(self).wf(),
            old(self)@.next_input_id < u64::MAX,
        ensures
            final(self).wf(),
            if code@.len() == 0 {
                name is None && final(self)@ == old(self)@
            } else {
                &&& name is Some && name->Some_0@ == input_name(old(self)@.next_input_id)
                &&& final(self)@ == fed(old(self)@, code@)
            },
    {
        if code.is_empty() {
            return None;
        }
        let name = self.next_input_script_name();
        sources_insert(&mut self.sources, name.clone(), code.to_owned());
        Some(name)
    }

    /// The session whose time counts from a moment on.
    pub open spec fn starting_at(self, moment: std::time::Instant) -> MontyRepl {
        MontyRepl { heap: VM { tracker: self.heap.tracker.starting_at(moment), ..self.heap }, ..self }
    }

    /// Hands out what a run of a compiled snippet starts from. Its time counts
    /// from now on.
    pub fn start_run(&mut self, executor: &Executor) -> (start: RunStart)
        requires
            old(self).wf(),
            executor.belongs_to(*old(self)),
        ensures
            final(self).wf(),
            executor.belongs_to(*final(self)),
            start.globals@ == sized(old(self)@.globals, executor@.namespace_size as nat),
            start.random@ == old(self)@.random,
            final(self)@ == timed(handed_out(old(self)@), final(self)@.heap.tracker.started),
    {
        self.ensure_globals_size(executor.namespace_size);
        self.heap.tracker.on_feed_start();
        let mut globals: Vec<Value> = Vec::new();
        std::mem::swap(&mut globals, &mut self.globals);
        let mut random: Vec<u64> = Vec::new();
        std::mem::swap(&mut random, &mut self.random);
        RunStart { globals, random }
    }

    /// The names of the functions that the host can call.
    pub fn function_names(&self) -> (names: Vec<String>)
        requires
            self.wf(),
        ensures
            Seq::new(names@.len(), |i: int| names@[i]@) == functions_from(self@, 0),
    {
        let mut names: Vec<String> = Vec::new();
        let total: usize = self.tables.program.globals.len();
        let mut slot: usize = 0;
        assert(Seq::new(names@.len(), |i: int| names@[i]@) + functions_from(self@, 0) =~= functions_from(self@, 0));
        while slot < total
            invariant
                slot <= total == self@.tables.names.len(),
                self.wf(),
                Seq::new(names@.len(), |i: int| names@[i]@) + functions_from(self@, slot as int) == functions_from(
                    self@,
                    0,
                ),
            decreases total - slot,
        {
            let ghost before = Seq::new(names@.len(), |i: int| names@[i]@);
            if slot < self.globals.len() && is_callable(self.globals[slot], &self.heap) {
                assert(holds_function(self@, slot as int));
                let id: StringId = self.tables.program.globals.labels()[slot];
                assert(self.tables.program.globals@[slot as int] < self.tables.program.interns@.len());
                if let Some(name) = self.tables.program.interns.get_str(id) {
                    names.push(name.to_owned());
                    let ghost text = self@.tables.strings[id as int];
                    assert(Seq::new(names@.len(), |i: int| names@[i]@) =~= before.push(text));
                    assert(before.push(text) + functions_from(self@, slot + 1) =~= before + (seq![text]
                        + functions_from(self@, slot + 1)));
                }
            } else {
                assert(!holds_function(self@, slot as int));
            }
            slot = slot + 1;
        }
        assert(Seq::new(names@.len(), |i: int| names@[i]@) + Seq::<Seq<char>>::empty() =~= Seq::new(
            names@.len(),
            |i: int| names@[i]@,
        ));
        names
    }

    /// Says whether the host can call a function of this name.
    pub fn has_function(&self, name: &str) -> (has: bool)
        requires
            self.wf(),
        ensures
            has == match slot_of(self@.tables, name@) {
                None => false,
                Some(slot) => holds_function(self@, slot as int),
            },
    {
        let id: StringId = match self.tables.program.interns.get_string_id_by_name(name) {
            Some(id) => id,
            None => return false,
        };
        match self.tables.program.globals.get(id) {
            None => false,
            Some(slot) => {
                let place: usize = slot as usize;
                place < self.globals.len() && is_callable(self.globals[place], &self.heap)
            },
        }
    }

    /// Finds the function that the host calls, and names the input that the
    /// call is.
    pub fn call_function(&mut self, name: &str, keywords: usize) -> (site: RunResult<CallSite>)
        requires
            old(self).wf(),
            old(self)@.next_input_id < u64::MAX,
        ensures
            final(self).wf(),
            match (site, call_slot(old(self)@, name@, keywords as nat)) {
                (Ok(site), Ok(slot)) => {
                    &&& site.slot == slot
                    &&& position_of(old(self)@.tables.strings, name@) == Some(site.name_id as int)
                    &&& site.script_name@ == input_name(old(self)@.next_input_id)
                    &&& final(self)@ == (ReplModel {
                        next_input_id: (old(self)@.next_input_id + 1) as u64,
                        ..old(self)@
                    })
                },
                (Err(error), Err(expected)) => error@ == expected && final(self)@ == old(self)@,
                _ => false,
            },
    {
        if keywords != 0 {
            return Err(type_error("call_function() takes positional arguments only"));
        }
        let name_id: StringId = match self.tables.program.interns.get_string_id_by_name(name) {
            Some(id) => id,
            None => return Err(undefined_name(name)),
        };
        let slot: NamespaceId = match self.tables.program.globals.get(name_id) {
            Some(slot) => slot,
            None => return Err(undefined_name(name)),
        };
        if slot as usize >= self.globals.len() {
            return Err(undefined_name(name));
        }
        if let Value::Undefined = self.globals[slot as usize] {
            return Err(undefined_name(name));
        }
        let script_name = self.next_input_script_name();
        Ok(CallSite { name_id, slot, script_name })
    }

    /// Hands out what the run of a call starts from. The arguments stand in a
    /// tuple, at the slot of the only input.
    pub fn start_call(&mut self, site: &CallSite, executor: &Executor, args: &ArgValues) -> (start: RunStart)
        requires
            old(self).wf(),
            executor.belongs_to(*old(self)),
            executor@.input_slots.len() > 0,
            executor@.input_slots[0] < executor@.namespace_size,
        ensures
            final(self).wf(),
            executor.belongs_to(*final(self)),
            start.random@ == old(self)@.random,
            start.globals@ == sized(old(self)@.globals, executor@.namespace_size as nat).update(
                executor@.input_slots[0] as int,
                Value::Ref(old(self)@.heap.heap.len() as usize),
            ),
            final(self)@ == timed(
                ReplModel {
                    sources: old(self)@.sources.insert(site.script_name@, executor@.code),
                    heap: old(self)@.heap.with(DataModel::Tuple(args@.positional)),
                    ..handed_out(old(self)@)
                },
                final(self)@.heap.tracker.started,
            ),
    {
        sources_insert(&mut self.sources, site.script_name.clone(), executor.code.clone());
        let mut start = self.start_run(executor);
        let id: HeapId = self.heap.allocate(HeapData::Tuple(args.positional.clone()));
        start.globals.set(executor.input_slots[0] as usize, Value::Ref(id));
        start
    }

    /// Takes back what the run of a call left, without the arguments.
    pub fn finish_call(&mut self, executor: Executor, end: RunEnd)
        requires
            executor.belongs_to(*old(self)),
            executor@.input_slots.len() > 0,
            executor@.input_slots[0] < end@.globals.len(),
        ensures
            final(self).wf(),
            final(self)@ == reclaimed(
                committed(old(self)@, executor@),
                (EndModel {
                    globals: end@.globals.update(executor@.input_slots[0] as int, Value::Undefined),
                    ..end@
                }),
            ),
    {
        let slot: usize = executor.input_slots[0] as usize;
        let mut end = end;
        end.globals.set(slot, Value::Undefined);
        self.commit_executor(executor);
        self.reclaim_vm_state(end);
    }

    /// Gives the session of a snippet back that could not be compiled.
    pub fn refuse_snippet(self, error: RunError) -> (failed: ReplStartError)
        requires
            self.wf(),
        ensures
            failed.repl.wf(),
            failed.repl@ == self@,
            failed.error@ == error@,
    {
        ReplStartError { repl: self, error }
    }

    /// Takes back what a run left and the symbols of its snippet, where the
    /// snippet could not be run to its end.
    pub fn fail_run(self, executor: Executor, end: RunEnd, error: RunError) -> (failed: ReplStartError)
        requires
            self.wf(),
            executor.belongs_to(self),
        ensures
            failed.repl.wf(),
            failed.repl@ == committed(reclaimed(self@, end@), executor@),
            failed.error@ == error@,
    {
        let mut repl = self;
        repl.reclaim_vm_state(end);
        repl.commit_executor(executor);
        ReplStartError { repl, error }
    }

    /// Takes back what a snippet left that was run to its end, and hands its
    /// result on. What it changed stays, also where it failed.
    pub fn finish_feed(&mut self, executor: Executor, end: RunEnd, result: RunResult<Value>) -> (value: RunResult<Value>)
        requires
            old(self).wf(),
            executor.belongs_to(*old(self)),
        ensures
            final(self).wf(),
            final(self)@ == committed(reclaimed(old(self)@, end@), executor@),
            value == result,
    {
        self.reclaim_vm_state(end);
        self.commit_executor(executor);
        result
    }

    /// Goes on after a run: it waits for the host, has a result or has failed.
    pub fn finish_run(self, executor: Executor, exit: ConvertedExit, after: AfterRun) -> (progress: Result<
        ReplProgress,
        ReplStartError,
    >)
        requires
            self.wf(),
            executor.belongs_to(self),
            exit.needs_snapshot() == (after is Suspended),
        ensures
            progresses(
                progress,
                exit,
                match after {
                    AfterRun::Suspended(_) => self@,
                    AfterRun::Ended(end) => reclaimed(self@, end@),
                },
                executor@,
                match after {
                    AfterRun::Suspended(state) => Some(state@),
                    AfterRun::Ended(_) => None,
                },
            ),
    {
        let mut repl = self;
        match after {
            AfterRun::Suspended(state) => build_repl_progress(exit, Some(state), executor, repl),
            AfterRun::Ended(end) => {
                repl.reclaim_vm_state(end);
                build_repl_progress(exit, None, executor, repl)
            },
        }
    }
}

/// Reports a name that stands for nothing.
fn undefined_name(name: &str) -> (error: RunError)
    ensures
        error@ == name_error(name@),
{
    raise3(ExcType::NameError, "name '", name, "' is not defined")
}

/// The values of the names with the inputs in their slots, the first `count`
/// of them.
pub open spec fn injected(
    globals: Seq<Value>,
    slots: Seq<NamespaceId>,
    values: Seq<Value>,
    ids: Seq<usize>,
    count: nat,
) -> Seq<Value>
    decreases count,
{
    if count == 0 {
        globals
    } else {
        injected(globals, slots, values, ids, (count - 1) as nat).update(
            slots[count - 1] as int,
            values[ids[count - 1] as int],
        )
    }
}

/// Puts the inputs into their slots. The inputs are named by their places
/// among `values`.
pub fn inject_inputs(slots: &Vec<NamespaceId>, values: &Vec<Value>, ids: &Vec<usize>, globals: &mut Vec<Value>)
    requires
        slots@.len() == ids@.len(),
        forall|i: int| 0 <= i < slots@.len() ==> (#[trigger] slots@[i]) < old(globals)@.len(),
        forall|i: int| 0 <= i < ids@.len() ==> (#[trigger] ids@[i]) < values@.len(),
    ensures
        final(globals)@ == injected(old(globals)@, slots@, values@, ids@, slots@.len()),
        final(globals)@.len() == old(globals)@.len(),
{
    let mut i: usize = 0;
    while i < slots.len()
        invariant
            i <= slots@.len() == ids@.len(),
            globals@.len() == old(globals)@.len(),
            globals@ == injected(old(globals)@, slots@, values@, ids@, i as nat),
            forall|i: int| 0 <= i < slots@.len() ==> (#[trigger] slots@[i]) < old(globals)@.len(),
            forall|i: int| 0 <= i < ids@.len() ==> (#[trigger] ids@[i]) < values@.len(),
        decreases slots@.len() - i,
    {
        globals.set(slots[i] as usize, values[ids[i]]);
        i = i + 1;
    }
}

/// The arguments of a call, by their places among `values`.
pub fn convert_args(values: &Vec<Value>, ids: &Vec<usize>) -> (args: ArgValues)
    requires
        forall|i: int| 0 <= i < ids@.len() ==> (#[trigger] ids@[i]) < values@.len(),
    ensures
        args@.keywords == Seq::<(Seq<char>, Value)>::empty(),
        args@.positional == Seq::new(ids@.len(), |i: int| values@[ids@[i] as int]),
{
    let mut positional: Vec<Value> = Vec::new();
    let mut i: usize = 0;
    while i < ids.len()
        invariant
            i <= ids@.len(),
            forall|i: int| 0 <= i < ids@.len() ==> (#[trigger] ids@[i]) < values@.len(),
            positional@.len() == i,
            forall|k: int| 0 <= k < i ==> #[trigger] positional@[k] == values@[ids@[k] as int],
        decreases ids@.len() - i,
    {
        positional.push(values[ids[i]]);
        i = i + 1;
    }
    let args = ArgValues { positional, keywords: Vec::new() };
    assert(args@.keywords =~= Seq::<(Seq<char>, Value)>::empty());
    assert(args@.positional =~= Seq::new(ids@.len(), |i: int| values@[ids@[i] as int]));
    args
}

/// How a call that the host drives goes on.
pub enum CallExit {
    Return(Value),
    /// An attribute that only the host has. `optional` says whether the code
    /// can do without it.
    AttrLookup { optional: bool },
    /// Anything else that only the host could answer.
    Unsupported,
    Failed(RunError),
}

/// What is done when a call that the host drives goes on.
pub enum CallAction {
    Finish(RunResult<Value>),
    /// Resume as if the attribute were not there.
    Undefined,
    /// Resume with an error about what is not supported.
    Refuse,
}

/// What is done when a call goes on, as a mathematical value.
pub open spec fn acts(action: CallAction, exit: CallExit) -> bool {
    match exit {
        CallExit::Return(value) => action matches CallAction::Finish(Ok(result)) && result == value,
        CallExit::AttrLookup { optional } => if optional {
            action is Undefined
        } else {
            action is Refuse
        },
        CallExit::Unsupported => action is Refuse,
        CallExit::Failed(error) => action matches CallAction::Finish(Err(result)) && result@ == error@,
    }
}

/// Says what is done when a call that the host drives goes on. No host answers
/// inside such a call.
pub fn call_turn(exit: CallExit) -> (action: CallAction)
    ensures
        acts(action, exit),
{
    match exit {
        CallExit::Return(value) => CallAction::Finish(Ok(value)),
        CallExit::AttrLookup { optional } => {
            if optional {
                CallAction::Undefined
            } else {
                CallAction::Refuse
            }
        },
        CallExit::Unsupported => CallAction::Refuse,
        CallExit::Failed(error) => CallAction::Finish(Err(error)),
    }
}

/// Where the value of a name that the host looks up goes.
#[derive(Clone, Copy, Debug, PartialEq, Eq, Structural)]
pub enum LookupScope {
    Global(NamespaceId),
    Local(NamespaceId),
    /// An attribute of an object that the host has.
    Attribute(u128),
}

/// What a run has come to.
pub enum ConvertedExit {
    Complete(Value),
    FunctionCall {
        function_name: String,
        args: Vec<Value>,
        call_id: u32,
        object_id: Option<u128>,
        allow_eager_await: bool,
    },
    OsCall { function_call: Vec<Value>, call_id: u32, allow_eager_await: bool },
    ResolveFutures(Vec<u32>),
    NameLookup { name: String, scope: LookupScope },
    Error(RunError),
}

impl ConvertedExit {
    /// The run waits for the host.
    pub open spec fn needs_snapshot(self) -> bool {
        !(self is Complete) && !(self is Error)
    }
}

/// Where a run stands behind a turn.
pub enum AfterRun {
    Suspended(VMSnapshot),
    Ended(RunEnd),
}

/// A run that waits, with its session.
pub struct ReplSnapshot {
    pub repl: MontyRepl,
    pub executor: Executor,
    pub vm_state: VMSnapshot,
}

/// A run that waits for the result of a function of the host.
pub struct ReplFunctionCall {
    pub function_name: String,
    pub args: Vec<Value>,
    pub call_id: u32,
    /// The object whose method is called.
    pub object_id: Option<u128>,
    /// The host may wait for the result before it answers.
    pub allow_eager_await: bool,
    pub snapshot: ReplSnapshot,
}

/// A run that waits for the result of an operation of the system.
pub struct ReplOsCall {
    pub function_call: Vec<Value>,
    pub call_id: u32,
    pub allow_eager_await: bool,
    pub snapshot: ReplSnapshot,
}

/// A run that waits for the value of a name.
pub struct ReplNameLookup {
    pub name: String,
    pub scope: LookupScope,
    pub snapshot: ReplSnapshot,
}

/// A run all of whose tasks wait for results of the host.
pub struct ReplResolveFutures {
    pub snapshot: ReplSnapshot,
    /// The calls that are waited for.
    pub pending_call_ids: Vec<u32>,
}

/// How far a snippet has come.
pub enum ReplProgress {
    FunctionCall(ReplFunctionCall),
    OsCall(ReplOsCall),
    ResolveFutures(ReplResolveFutures),
    NameLookup(ReplNameLookup),
    Complete { repl: MontyRepl, value: Value },
}

/// A snippet that failed, with its session.
pub struct ReplStartError {
    pub repl: MontyRepl,
    pub error: RunError,
}

/// The result of a call, from the host.
pub enum ExtFunctionResult {
    Return(Value),
    Error(RunError),
    /// The result comes later, under this number.
    Future(u32),
}

/// A run that goes on with a result of the host.
pub struct Turn {
    pub snapshot: ReplSnapshot,
    pub result: ExtFunctionResult,
    /// The call whose result the host has waited for.
    pub eager_call_id: Option<u32>,
}

/// The value of a name, from the host.
pub enum NameLookupResult {
    Value(Value),
    /// The host does not know the name.
    Undefined,
    Error(RunError),
}

/// How a run goes on with the answer to a lookup.
pub enum LookupAction {
    /// The value is kept at the slot of the name, and used.
    Keep(LookupScope, Value),
    /// The value is used, and asked for again the next time.
    Use(Value),
    /// The object has no such attribute: what the code gave for that case, or
    /// else an error.
    NoAttribute(u128),
    /// The error is raised, whatever the code gave for a missing attribute.
    Raise(RunError),
}

/// A run that goes on with the answer to a lookup.
pub struct LookupTurn {
    pub snapshot: ReplSnapshot,
    pub action: LookupAction,
}

/// The action is what an answer means where the value of a name goes to
/// `scope`. The value of a name is kept, that of an attribute is not.
pub open spec fn looks_up(action: LookupAction, name: Seq<char>, scope: LookupScope, result: NameLookupResult) -> bool {
    match (result, scope) {
        (NameLookupResult::Error(error), _) => action == LookupAction::Raise(error),
        (NameLookupResult::Value(value), LookupScope::Attribute(_)) => action == LookupAction::Use(value),
        (NameLookupResult::Value(value), _) => action == LookupAction::Keep(scope, value),
        (NameLookupResult::Undefined, LookupScope::Attribute(id)) => action == LookupAction::NoAttribute(id),
        (NameLookupResult::Undefined, _) => action matches LookupAction::Raise(error) && error@ == name_error(name),
    }
}

/// The snapshot waits with this session.
pub open spec fn waits(snapshot: ReplSnapshot, repl: ReplModel, executor: ExecutorModel, state: Option<SnapshotModel>) -> bool {
    &&& snapshot.wf()
    &&& snapshot.repl@ == repl
    &&& snapshot.executor@ == executor
    &&& state == Some(snapshot.vm_state@)
}

/// The progress is what an exit means for a session. Every way out of the
/// snippet takes its symbols back.
pub open spec fn progresses(
    progress: Result<ReplProgress, ReplStartError>,
    exit: ConvertedExit,
    repl: ReplModel,
    executor: ExecutorModel,
    state: Option<SnapshotModel>,
) -> bool {
    match exit {
        ConvertedExit::Complete(value) => progress matches Ok(ReplProgress::Complete { repl: next, value: result })
            && next.wf() && next@ == committed(repl, executor) && result == value,
        ConvertedExit::Error(error) => progress matches Err(failed) && failed.repl.wf() && failed.repl@ == committed(
            repl,
            executor,
        ) && failed.error@ == error@,
        ConvertedExit::FunctionCall { function_name, args, call_id, object_id, allow_eager_await } => {
            progress matches Ok(ReplProgress::FunctionCall(call)) && call.function_name@ == function_name@ && call.args@
                == args@ && call.call_id == call_id && call.object_id == object_id && call.allow_eager_await
                == allow_eager_await && waits(call.snapshot, repl, executor, state)
        },
        ConvertedExit::OsCall { function_call, call_id, allow_eager_await } => {
            progress matches Ok(ReplProgress::OsCall(call)) && call.function_call@ == function_call@ && call.call_id
                == call_id && call.allow_eager_await == allow_eager_await && waits(call.snapshot, repl, executor, state)
        },
        ConvertedExit::ResolveFutures(ids) => progress matches Ok(ReplProgress::ResolveFutures(futures))
            && futures.pending_call_ids@ == ids@ && waits(futures.snapshot, repl, executor, state),
        ConvertedExit::NameLookup { name, scope } => progress matches Ok(ReplProgress::NameLookup(lookup))
            && lookup.name@ == name@ && lookup.scope == scope && waits(lookup.snapshot, repl, executor, state),
    }
}

/// Says what an exit means for a session.
pub fn build_repl_progress(exit: ConvertedExit, vm_state: Option<VMSnapshot>, executor: Executor, repl: MontyRepl) -> (
    progress: Result<ReplProgress, ReplStartError>)
    requires
        repl.wf(),
        executor.belongs_to(repl),
        exit.needs_snapshot() == (vm_state is Some),
    ensures
        progresses(
            progress,
            exit,
            repl@,
            executor@,
            match vm_state {
                Some(state) => Some(state@),
                None => None,
            },
        ),
{
    let mut repl = repl;
    match vm_state {
        None => match exit {
            ConvertedExit::Complete(value) => {
                repl.commit_executor(executor);
                Ok(ReplProgress::Complete { repl, value })
            },
            ConvertedExit::Error(error) => {
                repl.commit_executor(executor);
                Err(ReplStartError { repl, error })
            },
            _ => {
                assert(false);
                Ok(ReplProgress::Complete { repl, value: Value::NoneValue })
            },
        },
        Some(vm_state) => {
            let snapshot = ReplSnapshot { repl, executor, vm_state };
            match exit {
                ConvertedExit::FunctionCall { function_name, args, call_id, object_id, allow_eager_await } => Ok(
                    ReplProgress::FunctionCall(
                        ReplFunctionCall { function_name, args, call_id, object_id, allow_eager_await, snapshot },
                    ),
                ),
                ConvertedExit::OsCall { function_call, call_id, allow_eager_await } => Ok(
                    ReplProgress::OsCall(ReplOsCall { function_call, call_id, allow_eager_await, snapshot }),
                ),
                ConvertedExit::ResolveFutures(pending_call_ids) => Ok(
                    ReplProgress::ResolveFutures(ReplResolveFutures { snapshot, pending_call_ids }),
                ),
                ConvertedExit::NameLookup { name, scope } => Ok(
                    ReplProgress::NameLookup(ReplNameLookup { name, scope, snapshot }),
                ),
                _ => {
                    assert(false);
                    Ok(ReplProgress::Complete { repl: snapshot.repl, value: Value::NoneValue })
                },
            }
        },
    }
}

impl ReplSnapshot {
    /// The symbols of the session are in good order, and those of the snippet
    /// extend them.
    pub open spec fn wf(self) -> bool {
        self.repl.wf() && self.executor.belongs_to(self.repl)
    }

    /// The session that gives the run up.
    pub open spec fn given_up(self) -> ReplModel {
        abandoned(self.repl@, self.executor@, self.vm_state@)
    }

    /// The session that ends the run, of which this is left.
    pub open spec fn aborted(self, end: EndModel) -> ReplModel {
        committed(reclaimed(self.repl@, end), self.executor@)
    }

    /// The run whose turn starts at a moment.
    pub open spec fn starting_at(self, moment: std::time::Instant) -> ReplSnapshot {
        ReplSnapshot { repl: self.repl.starting_at(moment), ..self }
    }

    /// Starts a turn: its time counts from now on.
    fn start_turn(self) -> (next: ReplSnapshot)
        ensures
            next == self.starting_at(next.repl.heap.tracker.started),
    {
        let mut next = self;
        next.repl.heap.tracker.on_turn_start();
        next
    }

    /// Ends the run with an error that no code can catch. Such a run does not
    /// wait again.
    pub fn abort(self, end: RunEnd, error: RunError) -> (failed: ReplStartError)
        requires
            self.wf(),
        ensures
            failed.repl.wf(),
            failed.repl@ == timed(self.aborted(end@), failed.repl@.heap.tracker.started),
            failed.error@ == error@,
    {
        let next = self.start_turn();
        next.repl.fail_run(next.executor, end, error)
    }

    /// Gives the run up. The names keep what it has set.
    pub fn into_repl(self) -> (repl: MontyRepl)
        requires
            self.wf(),
        ensures
            repl.wf(),
            repl@ == self.given_up(),
    {
        let mut repl = self.repl;
        repl.globals = self.vm_state.globals;
        repl.cwd = self.vm_state.cwd;
        repl.random = self.vm_state.random;
        repl.commit_executor(self.executor);
        repl
    }
}

/// A settled result, as the result of a call.
fn settled_result(result: RunResult<Value>) -> (settled: ExtFunctionResult)
    ensures
        match result {
            Ok(value) => settled == ExtFunctionResult::Return(value),
            Err(error) => settled == ExtFunctionResult::Error(error),
        },
{
    match result {
        Ok(value) => ExtFunctionResult::Return(value),
        Err(error) => ExtFunctionResult::Error(error),
    }
}

impl ReplFunctionCall {
    /// Gives the run up.
    pub fn into_repl(self) -> (repl: MontyRepl)
        requires
            self.snapshot.wf(),
        ensures
            repl.wf(),
            repl@ == self.snapshot.given_up(),
    {
        self.snapshot.into_repl()
    }

    /// Ends the run with an error that no code can catch. `end` is what the
    /// run leaves. The session can go on.
    pub fn abort(self, end: RunEnd, error: RunError) -> (failed: ReplStartError)
        requires
            self.snapshot.wf(),
        ensures
            failed.repl.wf(),
            failed.repl@ == timed(self.snapshot.aborted(end@), failed.repl@.heap.tracker.started),
            failed.error@ == error@,
    {
        self.snapshot.abort(end, error)
    }

    /// Goes on with a result.
    pub fn resume(self, result: ExtFunctionResult) -> (turn: Turn)
        ensures
            turn == (Turn {
                snapshot: self.snapshot.starting_at(turn.snapshot.repl.heap.tracker.started),
                result,
                eager_call_id: None,
            }),
    {
        Turn { snapshot: self.snapshot.start_turn(), result, eager_call_id: None }
    }

    /// Goes on with a result that comes later.
    pub fn resume_pending(self) -> (turn: Turn)
        ensures
            turn == (Turn {
                snapshot: self.snapshot.starting_at(turn.snapshot.repl.heap.tracker.started),
                result: ExtFunctionResult::Future(self.call_id),
                eager_call_id: None,
            }),
    {
        Turn {
            result: ExtFunctionResult::Future(self.call_id),
            snapshot: self.snapshot.start_turn(),
            eager_call_id: None,
        }
    }

    /// Goes on with a result that the host has waited for.
    pub fn resume_eager(self, result: RunResult<Value>) -> (turn: Turn)
        ensures
            turn == (Turn {
                snapshot: self.snapshot.starting_at(turn.snapshot.repl.heap.tracker.started),
                result: match result {
                    Ok(value) => ExtFunctionResult::Return(value),
                    Err(error) => ExtFunctionResult::Error(error),
                },
                eager_call_id: Some(self.call_id),
            }),
    {
        Turn {
            result: settled_result(result),
            eager_call_id: Some(self.call_id),
            snapshot: self.snapshot.start_turn(),
        }
    }
}

impl ReplOsCall {
    /// Gives the run up.
    pub fn into_repl(self) -> (repl: MontyRepl)
        requires
            self.snapshot.wf(),
        ensures
            repl.wf(),
            repl@ == self.snapshot.given_up(),
    {
        self.snapshot.into_repl()
    }

    /// Ends the run with an error that no code can catch. `end` is what the
    /// run leaves. The session can go on.
    pub fn abort(self, end: RunEnd, error: RunError) -> (failed: ReplStartError)
        requires
            self.snapshot.wf(),
        ensures
            failed.repl.wf(),
            failed.repl@ == timed(self.snapshot.aborted(end@), failed.repl@.heap.tracker.started),
            failed.error@ == error@,
    {
        self.snapshot.abort(end, error)
    }

    /// Goes on with a result.
    pub fn resume(self, result: ExtFunctionResult) -> (turn: Turn)
        ensures
            turn == (Turn {
                snapshot: self.snapshot.starting_at(turn.snapshot.repl.heap.tracker.started),
                result,
                eager_call_id: None,
            }),
    {
        Turn { snapshot: self.snapshot.start_turn(), result, eager_call_id: None }
    }

    /// Goes on with what a handler makes of the operation.
    pub fn resume_with<F: FnOnce(Vec<Value>) -> ExtFunctionResult>(self, handler: F) -> (turn: Turn)
        requires
            handler.requires((self.function_call,)),
        ensures
            handler.ensures((self.function_call,), turn.result),
            turn.snapshot == self.snapshot.starting_at(turn.snapshot.repl.heap.tracker.started),
            turn.eager_call_id is None,
    {
        let result = handler(self.function_call);
        Turn { snapshot: self.snapshot.start_turn(), result, eager_call_id: None }
    }

    /// Goes on with a result that the host has waited for.
    pub fn resume_eager(self, result: RunResult<Value>) -> (turn: Turn)
        ensures
            turn == (Turn {
                snapshot: self.snapshot.starting_at(turn.snapshot.repl.heap.tracker.started),
                result: match result {
                    Ok(value) => ExtFunctionResult::Return(value),
                    Err(error) => ExtFunctionResult::Error(error),
                },
                eager_call_id: Some(self.call_id),
            }),
    {
        Turn {
            result: settled_result(result),
            eager_call_id: Some(self.call_id),
            snapshot: self.snapshot.start_turn(),
        }
    }
}

impl ReplNameLookup {
    /// Gives the run up.
    pub fn into_repl(self) -> (repl: MontyRepl)
        requires
            self.snapshot.wf(),
        ensures
            repl.wf(),
            repl@ == self.snapshot.given_up(),
    {
        self.snapshot.into_repl()
    }

    /// Ends the run with an error that no code can catch. `end` is what the
    /// run leaves. The session can go on.
    pub fn abort(self, end: RunEnd, error: RunError) -> (failed: ReplStartError)
        requires
            self.snapshot.wf(),
        ensures
            failed.repl.wf(),
            failed.repl@ == timed(self.snapshot.aborted(end@), failed.repl@.heap.tracker.started),
            failed.error@ == error@,
    {
        self.snapshot.abort(end, error)
    }

    /// Goes on with the answer of the host.
    pub fn resume(self, result: NameLookupResult) -> (turn: LookupTurn)
        ensures
            turn.snapshot == self.snapshot.starting_at(turn.snapshot.repl.heap.tracker.started),
            looks_up(turn.action, self.name@, self.scope, result),
    {
        let action = match (result, self.scope) {
            (NameLookupResult::Error(error), _) => LookupAction::Raise(error),
            (NameLookupResult::Value(value), LookupScope::Attribute(_)) => LookupAction::Use(value),
            (NameLookupResult::Value(value), scope) => LookupAction::Keep(scope, value),
            (NameLookupResult::Undefined, LookupScope::Attribute(id)) => LookupAction::NoAttribute(id),
            (NameLookupResult::Undefined, _) => LookupAction::Raise(undefined_name(self.name.as_str())),
        };
        LookupTurn { snapshot: self.snapshot.start_turn(), action }
    }

    /// The object whose attribute is looked up.
    pub fn object_id(&self) -> (id: Option<u128>)
        ensures
            id == match self.scope {
                LookupScope::Attribute(id) => Some(id),
                _ => None,
            },
    {
        match self.scope {
            LookupScope::Attribute(id) => Some(id),
            _ => None,
        }
    }
}

/// The first result for a call that is not waited for, from `i` on.
pub open spec fn unknown_call(pending: Seq<u32>, results: Seq<(u32, ExtFunctionResult)>, i: int) -> Option<u32>
    decreases results.len() - i,
{
    if i < 0 || i >= results.len() {
        None
    } else if pending.contains(results[i].0) {
        unknown_call(pending, results, i + 1)
    } else {
        Some(results[i].0)
    }
}

/// Numbers as a list, from the first `count` of them.
pub open spec fn listed(ids: Seq<u32>, count: int) -> Seq<char>
    decreases count,
{
    if count <= 0 || count > ids.len() {
        Seq::empty()
    } else {
        (if count > 1 {
            listed(ids, count - 1) + ", "@
        } else {
            listed(ids, count - 1)
        }) + decimal(ids[count - 1] as nat)
    }
}

/// The error about a result for a call that is not waited for.
pub open spec fn unknown_call_error(id: u32, pending: Seq<u32>) -> ErrorModel {
    raised(
        ExcType::RuntimeError,
        "unknown call_id "@ + decimal(id as nat) + ", expected one of: ["@ + listed(pending, pending.len() as int)
            + "]"@,
    )
}

/// Reports a result for a call that is not waited for.
fn report_unknown_call(id: u32, pending: &Vec<u32>) -> (error: RunError)
    ensures
        error@ == unknown_call_error(id, pending@),
{
    let mut ids = String::new();
    let mut i: usize = 0;
    assert(ids@ =~= listed(pending@, 0));
    while i < pending.len()
        invariant
            i <= pending@.len(),
            ids@ == listed(pending@, i as int),
        decreases pending@.len() - i,
    {
        if i > 0 {
            ids.append(", ");
        }
        push_decimal(&mut ids, pending[i] as u64);
        i = i + 1;
    }
    let mut text = "unknown call_id ".to_owned();
    push_decimal(&mut text, id as u64);
    text.append(", expected one of: [");
    text.append(ids.as_str());
    text.append("]");
    raise(ExcType::RuntimeError, text.as_str())
}

impl ReplResolveFutures {
    /// Gives the run up.
    pub fn into_repl(self) -> (repl: MontyRepl)
        requires
            self.snapshot.wf(),
        ensures
            repl.wf(),
            repl@ == self.snapshot.given_up(),
    {
        self.snapshot.into_repl()
    }

    /// Ends the run with an error that no code can catch. `end` is what the
    /// run leaves. The session can go on.
    pub fn abort(self, end: RunEnd, error: RunError) -> (failed: ReplStartError)
        requires
            self.snapshot.wf(),
        ensures
            failed.repl.wf(),
            failed.repl@ == timed(self.snapshot.aborted(end@), failed.repl@.heap.tracker.started),
            failed.error@ == error@,
    {
        self.snapshot.abort(end, error)
    }

    /// The calls that are waited for.
    pub fn pending_call_ids(&self) -> (ids: &Vec<u32>)
        ensures
            ids@ == self.pending_call_ids@,
    {
        &self.pending_call_ids
    }

    /// The first result for a call that is not waited for.
    fn invalid_call_id(&self, results: &Vec<(u32, ExtFunctionResult)>) -> (id: Option<u32>)
        ensures
            id == unknown_call(self.pending_call_ids@, results@, 0),
    {
        let mut i: usize = 0;
        while i < results.len()
            invariant
                i <= results@.len(),
                unknown_call(self.pending_call_ids@, results@, i as int) == unknown_call(
                    self.pending_call_ids@,
                    results@,
                    0,
                ),
            decreases results@.len() - i,
        {
            let id: u32 = results[i].0;
            let mut known: bool = false;
            let mut k: usize = 0;
            while k < self.pending_call_ids.len()
                invariant
                    k <= self.pending_call_ids@.len(),
                    known == exists|j: int| 0 <= j < k && #[trigger] self.pending_call_ids@[j] == id,
                decreases self.pending_call_ids@.len() - k,
            {
                if self.pending_call_ids[k] == id {
                    known = true;
                }
                k = k + 1;
            }
            assert(known == self.pending_call_ids@.contains(id));
            if !known {
                return Some(id);
            }
            i = i + 1;
        }
        None
    }

    /// Goes on with results, for some of the calls or for all. A result for
    /// another call gives the run up.
    pub fn resume(self, results: Vec<(u32, ExtFunctionResult)>) -> (turn: Result<
        (ReplSnapshot, Vec<(u32, ExtFunctionResult)>),
        ReplStartError,
    >)
        requires
            self.snapshot.wf(),
        ensures
            match unknown_call(self.pending_call_ids@, results@, 0) {
                None => turn matches Ok(next) && next == (
                    self.snapshot.starting_at(next.0.repl.heap.tracker.started),
                    results,
                ),
                Some(id) => turn matches Err(failed) && failed.repl.wf() && failed.repl@ == timed(
                    self.snapshot.given_up(),
                    failed.repl@.heap.tracker.started,
                ) && failed.error@ == unknown_call_error(id, self.pending_call_ids@),
            },
    {
        match self.invalid_call_id(&results) {
            None => Ok((self.snapshot.start_turn(), results)),
            Some(id) => {
                let error = report_unknown_call(id, &self.pending_call_ids);
                Err(ReplStartError { repl: self.snapshot.start_turn().into_repl(), error })
            },
        }
    }
}

impl ReplProgress {
    /// The sessions are in good order.
    pub open spec fn wf(self) -> bool {
        match self {
            ReplProgress::FunctionCall(call) => call.snapshot.wf(),
            ReplProgress::OsCall(call) => call.snapshot.wf(),
            ReplProgress::ResolveFutures(state) => state.snapshot.wf(),
            ReplProgress::NameLookup(lookup) => lookup.snapshot.wf(),
            ReplProgress::Complete { repl, .. } => repl.wf(),
        }
    }

    /// The session, without the run.
    pub open spec fn session(self) -> ReplModel {
        match self {
            ReplProgress::FunctionCall(call) => call.snapshot.given_up(),
            ReplProgress::OsCall(call) => call.snapshot.given_up(),
            ReplProgress::ResolveFutures(state) => state.snapshot.given_up(),
            ReplProgress::NameLookup(lookup) => lookup.snapshot.given_up(),
            ReplProgress::Complete { repl, .. } => repl@,
        }
    }

    /// The call of a function that is waited for.
    pub fn into_function_call(self) -> (call: Option<ReplFunctionCall>)
        ensures
            call == match self {
                ReplProgress::FunctionCall(call) => Some(call),
                _ => None,
            },
    {
        match self {
            ReplProgress::FunctionCall(call) => Some(call),
            _ => None,
        }
    }

    /// The calls that are waited for.
    pub fn into_resolve_futures(self) -> (state: Option<ReplResolveFutures>)
        ensures
            state == match self {
                ReplProgress::ResolveFutures(state) => Some(state),
                _ => None,
            },
    {
        match self {
            ReplProgress::ResolveFutures(state) => Some(state),
            _ => None,
        }
    }

    /// The name that is looked up.
    pub fn into_name_lookup(self) -> (lookup: Option<ReplNameLookup>)
        ensures
            lookup == match self {
                ReplProgress::NameLookup(lookup) => Some(lookup),
                _ => None,
            },
    {
        match self {
            ReplProgress::NameLookup(lookup) => Some(lookup),
            _ => None,
        }
    }

    /// The session and the result.
    pub fn into_complete(self) -> (complete: Option<(MontyRepl, Value)>)
        ensures
            complete == match self {
                ReplProgress::Complete { repl, value } => Some((repl, value)),
                _ => None,
            },
    {
        match self {
            ReplProgress::Complete { repl, value } => Some((repl, value)),
            _ => None,
        }
    }

    /// The session, whatever the run has come to.
    pub fn into_repl(self) -> (repl: MontyRepl)
        requires
            self.wf(),
        ensures
            repl.wf(),
            repl@ == self.session(),
    {
        match self {
            ReplProgress::FunctionCall(call) => call.into_repl(),
            ReplProgress::OsCall(call) => call.into_repl(),
            ReplProgress::ResolveFutures(state) => state.into_repl(),
            ReplProgress::NameLookup(lookup) => lookup.into_repl(),
            ReplProgress::Complete { repl, .. } => repl,
        }
    }

    /// The limits of the session, whatever the run has come to.
    pub fn tracker(&self) -> (tracker: &ResourceTracker)
        ensures
            *tracker == self.session().heap.tracker,
    {
        match self {
            ReplProgress::FunctionCall(call) => call.snapshot.repl.tracker(),
            ReplProgress::OsCall(call) => call.snapshot.repl.tracker(),
            ReplProgress::ResolveFutures(state) => state.snapshot.repl.tracker(),
            ReplProgress::NameLookup(lookup) => lookup.snapshot.repl.tracker(),
            ReplProgress::Complete { repl, .. } => repl.tracker(),
        }
    }
}

/// Different numbers have different digits.
proof fn decimals_differ(a: nat, b: nat)
    requires
        decimal(a) == decimal(b),
    ensures
        a == b,
    decreases a,
{
    let x = decimal(a);
    let y = decimal(b);
    assert(x.last() == y.last());
    if a < 10 {
        assert(x.len() == 1);
        if b >= 10 {
            assert(decimal(b / 10).len() > 0) by {
                decimal_is_not_empty(b / 10);
            }
            assert(y.len() > 1);
        }
    } else {
        assert(decimal(a / 10).len() > 0) by {
            decimal_is_not_empty(a / 10);
        }
        assert(b >= 10);
        assert(x.drop_last() =~= decimal(a / 10));
        assert(y.drop_last() =~= decimal(b / 10));
        decimals_differ(a / 10, b / 10);
    }
}

/// A number has a digit.
proof fn decimal_is_not_empty(n: nat)
    ensures
        decimal(n).len() > 0,
{
}

/// No two inputs of a session have the same name, so none takes the place of
/// another's source.
pub proof fn law_input_names_differ(a: u64, b: u64)
    requires
        a != b,
    ensures
        input_name(a) != input_name(b),
{
    if input_name(a) == input_name(b) {
        let lead = "<python-input-"@;
        let x = decimal(a as nat);
        let y = decimal(b as nat);
        let end = ">"@;
        assert(input_name(a).len() == input_name(b).len());
        assert(x =~= input_name(a).subrange(lead.len() as int, (lead.len() + x.len()) as int));
        assert(y =~= input_name(b).subrange(lead.len() as int, (lead.len() + y.len()) as int));
        assert(x.len() == y.len());
        decimals_differ(a as nat, b as nat);
    }
}

/// A snippet that fails leaves the session that it would have left had it
/// completed: what it has set stays, and its symbols are known.
pub proof fn law_failing_keeps_the_session(
    failed: Result<ReplProgress, ReplStartError>,
    completed: Result<ReplProgress, ReplStartError>,
    error: RunError,
    value: Value,
    repl: ReplModel,
    executor: ExecutorModel,
)
    requires
        progresses(failed, ConvertedExit::Error(error), repl, executor, None),
        progresses(completed, ConvertedExit::Complete(value), repl, executor, None),
    ensures
        failed->Err_0.repl@ == completed->Ok_0.session(),
{
}

/// Whatever a run has come to, its session knows the symbols of the snippet
/// once the run is over or given up, and with them those that it knew before.
pub proof fn law_symbols_are_never_lost(
    progress: Result<ReplProgress, ReplStartError>,
    exit: ConvertedExit,
    repl: MontyRepl,
    executor: Executor,
    state: Option<SnapshotModel>,
)
    requires
        executor.belongs_to(repl),
        progresses(progress, exit, repl@, executor@, state),
    ensures
        match progress {
            Ok(progress) => progress.session().tables == executor@.tables && extends_tables(
                repl@.tables,
                progress.session().tables,
            ),
            Err(failed) => failed.repl@.tables == executor@.tables && extends_tables(repl@.tables, failed.repl@.tables),
        },
{
}

/// A session keeps its options and its policies for calls of the system,
/// whatever becomes of its snippets.
pub proof fn law_options_stay(
    repl: ReplModel,
    code: Seq<char>,
    moment: std::time::Instant,
    executor: ExecutorModel,
    end: EndModel,
    state: SnapshotModel,
)
    ensures
        ({
            let running = timed(handed_out(fed(repl, code)), moment);
            let over = committed(reclaimed(running, end), executor);
            let given_up = abandoned(running, executor, state);
            &&& over.options == repl.options && over.auto_os_calls == repl.auto_os_calls
            &&& given_up.options == repl.options && given_up.auto_os_calls == repl.auto_os_calls
        }),
{
}

/// A snippet that cannot be compiled leaves what the names hold, and the
/// symbols: only its source is kept.
pub proof fn law_refused_snippets_change_nothing(repl: ReplModel, code: Seq<char>)
    ensures
        fed(repl, code).globals == repl.globals,
        fed(repl, code).tables == repl.tables,
        fed(repl, code).heap == repl.heap,
        fed(repl, code).cwd == repl.cwd,
        fed(repl, code).random == repl.random,
{
}

/// A name keeps its slot when symbols are added.
proof fn lemma_slot_stays(before: TablesModel, after: TablesModel, name: Seq<char>)
    requires
        slot_of(before, name) is Some,
        extends_tables(before, after),
    ensures
        slot_of(after, name) == slot_of(before, name),
{
    lemma_position_of(before.strings, name);
    lemma_position_of(after.strings, name);
    let id = position_of(before.strings, name)->Some_0;
    assert(after.strings[id] == before.strings[id]);
    match position_of(after.strings, name) {
        Some(later) => {
            if later < id {
                assert(after.strings[later] == before.strings[later]);
            }
            assert(later == id);
        },
        None => {},
    }
    lemma_slots_stay(before.names, after.names, id as StringId);
}

/// A snippet that fails keeps the session and every name that it left alone.
///
/// A snippet that cannot be compiled leaves the names and what they hold. One
/// that fails while it runs leaves `end`: where that still holds for a name what
/// was handed out for it, the session that comes with the error holds for the
/// name what it held before, under the same slot, and hands that out to the next
/// run.
pub proof fn law_failed_snippets_keep_other_names(
    session: MontyRepl,
    code: Seq<char>,
    moment: std::time::Instant,
    executor: Executor,
    end: EndModel,
    name: Seq<char>,
    next_size: nat,
)
    requires
        executor.belongs_to(session),
        slot_of(session@.tables, name) matches Some(slot) && slot < session@.globals.len() && slot < end.globals.len()
            && end.globals[slot as int] == sized(session@.globals, executor@.namespace_size as nat)[slot as int],
    ensures
        ({
            let slot = slot_of(session@.tables, name)->Some_0;
            let refused = fed(session@, code);
            let running = timed(handed_out(refused), moment);
            let after = committed(reclaimed(running, end), executor@);
            &&& slot_of(refused.tables, name) == Some(slot)
            &&& sized(refused.globals, next_size)[slot as int] == session@.globals[slot as int]
            &&& slot_of(after.tables, name) == Some(slot)
            &&& after.globals[slot as int] == session@.globals[slot as int]
            &&& sized(after.globals, next_size)[slot as int] == session@.globals[slot as int]
        }),
{
    lemma_slot_stays(session@.tables, executor@.tables, name);
    law_room_keeps_values(session@.globals, executor@.namespace_size as nat);
    law_room_keeps_values(session@.globals, next_size);
    law_room_keeps_values(end.globals, next_size);
}

/// Behind a snippet that failed, a snippet that is nothing but a name which the
/// failed one left alone returns what the name held before: it reads the slot in
/// which the session hands that value out.
pub proof fn law_names_are_read_behind_a_failure(
    session: MontyRepl,
    code: Seq<char>,
    moment: std::time::Instant,
    executor: Executor,
    end: EndModel,
    name: Seq<char>,
    next_size: nat,
    builtins: Seq<Seq<char>>,
    ident: Identifier,
    position: CodeRange,
    out: Seq<PreparedNode>,
)
    requires
        executor.belongs_to(session),
        slot_of(session@.tables, name) matches Some(slot) && slot < session@.globals.len() && slot < end.globals.len()
            && end.globals[slot as int] == sized(session@.globals, executor@.namespace_size as nat)[slot as int],
        position_of(executor@.tables.strings, name) == Some(ident.name_id as int),
        prepares_module(
            module_start(executor@.tables.strings, builtins, executor@.tables.names),
            seq![Node::Expr(ExprLoc { position, expr: Expr::Name(ident) })],
            out,
        ),
    ensures
        ({
            let running = timed(handed_out(fed(session@, code)), moment);
            let after = committed(reclaimed(running, end), executor@);
            let slot = slot_of(session@.tables, name)->Some_0;
            &&& out.len() == 1
            &&& out[0] matches PreparedNode::Return(Some(value)) && (value.expr matches PreparedExpr::Name(read)
                && read.slot == slot && sized(after.globals, next_size)[read.slot as int] == session@.globals[slot as int])
        }),
{
    law_failed_snippets_keep_other_names(session, code, moment, executor, end, name, next_size);
    law_known_names_are_read_from_their_slots(
        executor@.tables.strings,
        builtins,
        executor@.tables.names,
        ident,
        position,
        out,
    );
}

/// Making room for slots keeps what the slots hold.
pub proof fn law_room_keeps_values(globals: Seq<Value>, size: nat)
    ensures
        sized(globals, size).len() >= size,
        sized(globals, size).len() >= globals.len(),
        forall|i: int| 0 <= i < globals.len() ==> sized(globals, size)[i] == #[trigger] globals[i],
        forall|i: int| globals.len() <= i < size ==> #[trigger] sized(globals, size)[i] == Value::Undefined,
{
}

} // verus!
