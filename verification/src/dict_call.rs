//! Methods and operators of dictionaries, and iteration over them.

use crate::args::{holds_args, zero_args, ArgValues, ArgsModel};
use crate::bytes::{Reply, ReplyModel};
use crate::deque::{get_known_items, known_items, not_iterable, not_iterable_error};
use crate::deque_call::{unpack, unpacked};
use crate::dict::{pairs_of, Dict, DictEntry, DictKind, DictModel, DictSpecial};
use crate::dict_iter::DictIter;
use crate::dict_merge::{
    holds_replies, is_too_long, maybe_dict, pairs_of_value, replies_model, says_stopped, source_pairs, Pairs, PairsModel,
};
use crate::dict_probe::holds_dict;
use crate::exceptions::{raise, raised, ErrorModel, ExcType, RunError, RunResult};
use crate::heap::{HeapData, HeapRead, VM, VmModel};
use crate::resource_checks::ResourceTracker;
use crate::text::same_text;
use crate::value::Value;
use vstd::prelude::*;

verus! {

/// Where a key stands, as a lookup found it.
#[derive(Clone, Copy, Debug, PartialEq, Eq, Structural)]
pub struct Lookup {
    pub hash: u64,
    pub place: Option<usize>,
}

/// The place of a lookup is one of the dictionary, with the hash.
pub open spec fn lookup_fits(dict: DictModel, lookup: Lookup) -> bool {
    lookup.place matches Some(i) ==> i < dict.entries.len() && dict.entries[i as int].hash == lookup.hash
}

/// The value of a key that was looked up.
pub open spec fn looked_up(dict: DictModel, lookup: Lookup) -> Option<Value> {
    match lookup.place {
        Some(i) => Some(dict.entries[i as int].value),
        None => None,
    }
}

/// Which view of a dictionary is meant.
#[derive(Clone, Copy, Debug, PartialEq, Eq, Structural)]
pub enum DictView {
    Keys,
    Values,
    Items,
}

/// A method of dictionaries.
#[derive(Clone, Copy, Debug, PartialEq, Eq, Structural)]
pub enum DictMethod {
    MostCommon,
    Elements,
    Total,
    Subtract,
    Get,
    View(DictView),
    Pop,
    Clear,
    Copy,
    Update,
    Setdefault,
    Popitem,
    Fromkeys,
    Missing,
}

/// The method with a name.
pub open spec fn dict_method_called(name: Seq<char>) -> Option<DictMethod> {
    if name == "most_common"@ {
        Some(DictMethod::MostCommon)
    } else if name == "elements"@ {
        Some(DictMethod::Elements)
    } else if name == "total"@ {
        Some(DictMethod::Total)
    } else if name == "subtract"@ {
        Some(DictMethod::Subtract)
    } else if name == "get"@ {
        Some(DictMethod::Get)
    } else if name == "keys"@ {
        Some(DictMethod::View(DictView::Keys))
    } else if name == "values"@ {
        Some(DictMethod::View(DictView::Values))
    } else if name == "items"@ {
        Some(DictMethod::View(DictView::Items))
    } else if name == "pop"@ {
        Some(DictMethod::Pop)
    } else if name == "clear"@ {
        Some(DictMethod::Clear)
    } else if name == "copy"@ {
        Some(DictMethod::Copy)
    } else if name == "update"@ {
        Some(DictMethod::Update)
    } else if name == "setdefault"@ {
        Some(DictMethod::Setdefault)
    } else if name == "popitem"@ {
        Some(DictMethod::Popitem)
    } else if name == "fromkeys"@ {
        Some(DictMethod::Fromkeys)
    } else if name == "__missing__"@ {
        Some(DictMethod::Missing)
    } else {
        None
    }
}

/// Finds the method with a name.
pub fn find_dict_method(name: &str) -> (method: Option<DictMethod>)
    ensures
        method == dict_method_called(name@),
{
    if same_text(name, "most_common") {
        Some(DictMethod::MostCommon)
    } else if same_text(name, "elements") {
        Some(DictMethod::Elements)
    } else if same_text(name, "total") {
        Some(DictMethod::Total)
    } else if same_text(name, "subtract") {
        Some(DictMethod::Subtract)
    } else if same_text(name, "get") {
        Some(DictMethod::Get)
    } else if same_text(name, "keys") {
        Some(DictMethod::View(DictView::Keys))
    } else if same_text(name, "values") {
        Some(DictMethod::View(DictView::Values))
    } else if same_text(name, "items") {
        Some(DictMethod::View(DictView::Items))
    } else if same_text(name, "pop") {
        Some(DictMethod::Pop)
    } else if same_text(name, "clear") {
        Some(DictMethod::Clear)
    } else if same_text(name, "copy") {
        Some(DictMethod::Copy)
    } else if same_text(name, "update") {
        Some(DictMethod::Update)
    } else if same_text(name, "setdefault") {
        Some(DictMethod::Setdefault)
    } else if same_text(name, "popitem") {
        Some(DictMethod::Popitem)
    } else if same_text(name, "fromkeys") {
        Some(DictMethod::Fromkeys)
    } else if same_text(name, "__missing__") {
        Some(DictMethod::Missing)
    } else {
        None
    }
}

/// What a method of dictionaries makes.
pub enum DictMade {
    Plain(Value),
    /// A new view of the dictionary.
    View(DictView),
    /// A tuple of a key and a value.
    Pair(Value, Value),
    /// The error that names a missing key.
    MissingKey(Value),
    /// The key has to be looked up first.
    Lookup(Value),
    /// These pairs go into the dictionary, and then the error is raised.
    Update(Vec<(Value, Value)>, Option<RunError>),
    /// What a walk over another dictionary gives goes into the dictionary, and
    /// then these pairs.
    Walk(DictIter, Vec<(Value, Value)>),
    /// These pairs go into a new dictionary of this kind, and then the error
    /// is raised.
    FromPairs(DictKind, Vec<(Value, Value)>, Option<RunError>),
    /// A method that only counting dictionaries have.
    Counter(DictMethod),
    /// The factory makes a value for the key.
    Factory(Value),
    /// The host has to say first which items the value yields.
    Items(Value),
}

/// What a method makes, as a mathematical value.
#[verifier::ext_equal]
pub enum DictMadeModel {
    Plain(Value),
    View(DictView),
    Pair(Value, Value),
    MissingKey(Value),
    Lookup(Value),
    Update(Seq<(Value, Value)>, Option<ErrorModel>),
    Walk(DictIter, Seq<(Value, Value)>),
    FromPairs(DictKind, Seq<(Value, Value)>, Option<ErrorModel>),
    Counter(DictMethod),
    Factory(Value),
    Items(Value),
}

impl View for DictMade {
    type V = DictMadeModel;

    open spec fn view(&self) -> DictMadeModel {
        match *self {
            DictMade::Plain(value) => DictMadeModel::Plain(value),
            DictMade::View(view) => DictMadeModel::View(view),
            DictMade::Pair(key, value) => DictMadeModel::Pair(key, value),
            DictMade::MissingKey(key) => DictMadeModel::MissingKey(key),
            DictMade::Lookup(key) => DictMadeModel::Lookup(key),
            DictMade::Update(pairs, failure) => DictMadeModel::Update(pairs@, error_model(failure)),
            DictMade::Walk(walk, pairs) => DictMadeModel::Walk(walk, pairs@),
            DictMade::FromPairs(kind, pairs, failure) => DictMadeModel::FromPairs(kind, pairs@, error_model(failure)),
            DictMade::Counter(method) => DictMadeModel::Counter(method),
            DictMade::Factory(key) => DictMadeModel::Factory(key),
            DictMade::Items(value) => DictMadeModel::Items(value),
        }
    }
}

/// An error that may be there, as a mathematical value.
pub open spec fn error_model(failure: Option<RunError>) -> Option<ErrorModel> {
    match failure {
        Some(error) => Some(error@),
        None => None,
    }
}

/// What a method gives.
pub type DictOutcome = Result<DictMadeModel, ErrorModel>;

/// What a method leaves behind and gives.
pub type DictEffect = (DictModel, DictOutcome);

/// The result is what the model gives.
pub open spec fn makes_dict(result: RunResult<DictMade>, model: DictOutcome) -> bool {
    match (result, model) {
        (Ok(made), Ok(expected)) => made@ == expected,
        (Err(error), Err(expected)) => error@ == expected,
        _ => false,
    }
}

/// An entry that the memory limit may refuse.
pub open spec fn is_insertion(dict: DictModel, method: DictMethod, args: ArgsModel, lookup: Option<Lookup>) -> bool {
    &&& method is Setdefault
    &&& unpacked("setdefault"@, 1, 2, args) is Ok
    &&& lookup matches Some(found) && found.place is None
}

/// `get`.
pub open spec fn get_effect(dict: DictModel, args: ArgsModel, lookup: Option<Lookup>) -> DictEffect {
    match unpacked("get"@, 1, 2, args) {
        Err(error) => (dict, Err(error)),
        Ok(values) => match lookup {
            None => (dict, Ok(DictMadeModel::Lookup(values[0]))),
            Some(lookup) => (
                dict,
                Ok(
                    DictMadeModel::Plain(
                        match looked_up(dict, lookup) {
                            Some(value) => value,
                            None => if values.len() > 1 {
                                values[1]
                            } else {
                                Value::NoneValue
                            },
                        },
                    ),
                ),
            ),
        },
    }
}

/// `pop`.
pub open spec fn dict_pop_effect(dict: DictModel, args: ArgsModel, lookup: Option<Lookup>) -> DictEffect {
    match unpacked("pop"@, 1, 2, args) {
        Err(error) => (dict, Err(error)),
        Ok(values) => match lookup {
            None => (dict, Ok(DictMadeModel::Lookup(values[0]))),
            Some(lookup) => match lookup.place {
                Some(i) => (dict.without(i as int), Ok(DictMadeModel::Plain(dict.entries[i as int].value))),
                None => (
                    dict,
                    Ok(
                        if values.len() > 1 {
                            DictMadeModel::Plain(values[1])
                        } else {
                            DictMadeModel::MissingKey(values[0])
                        },
                    ),
                ),
            },
        },
    }
}

/// `setdefault`.
pub open spec fn setdefault_effect(dict: DictModel, args: ArgsModel, lookup: Option<Lookup>) -> DictEffect {
    match unpacked("setdefault"@, 1, 2, args) {
        Err(error) => (dict, Err(error)),
        Ok(values) => match lookup {
            None => (dict, Ok(DictMadeModel::Lookup(values[0]))),
            Some(lookup) => match looked_up(dict, lookup) {
                Some(value) => (dict, Ok(DictMadeModel::Plain(value))),
                None => {
                    let value = if values.len() > 1 {
                        values[1]
                    } else {
                        Value::NoneValue
                    };
                    (
                        dict.with_entry(DictEntry { key: values[0], value, hash: lookup.hash }, None),
                        Ok(DictMadeModel::Plain(value)),
                    )
                },
            },
        },
    }
}

/// `popitem`.
pub open spec fn popitem_effect(dict: DictModel, args: ArgsModel) -> DictEffect {
    match zero_args("dict.popitem"@, args) {
        Err(error) => (dict, Err(error)),
        Ok(_) => if dict.entries.len() == 0 {
            (dict, Err(raised(ExcType::KeyError, "popitem(): dictionary is empty"@)))
        } else {
            let last = dict.entries.last();
            (dict.without(dict.entries.len() - 1), Ok(DictMadeModel::Pair(last.key, last.value)))
        },
    }
}

/// The pairs that items give, each with one value.
pub open spec fn keyed(items: Seq<Value>, value: Value) -> Seq<(Value, Value)> {
    Seq::new(items.len(), |i: int| (items[i], value))
}

/// `fromkeys`.
pub open spec fn fromkeys_model(vm: VmModel, args: ArgsModel, kind: DictKind, replies: Seq<ReplyModel>) -> DictOutcome {
    match unpacked("fromkeys"@, 1, 2, args) {
        Err(error) => Err(error),
        Ok(values) => {
            let value = if values.len() > 1 {
                values[1]
            } else {
                Value::NoneValue
            };
            match known_items(vm, values[0]) {
                Some(items) => Ok(DictMadeModel::FromPairs(kind, keyed(items, value), None)),
                None => if !vm.iterable(values[0]) {
                    Err(not_iterable_error(vm, values[0]))
                } else if replies.len() == 0 {
                    Ok(DictMadeModel::Items(values[0]))
                } else {
                    match replies[0] {
                        ReplyModel::Items(items, failure) => Ok(
                            DictMadeModel::FromPairs(kind, keyed(items, value), failure),
                        ),
                        ReplyModel::Failed(error) => Err(error),
                        _ => Ok(DictMadeModel::Items(values[0])),
                    }
                },
            }
        },
    }
}

/// Keyword arguments as pairs, whose keys stand on the heap from `first` on.
pub open spec fn keyword_pairs(keywords: Seq<(Seq<char>, Value)>, first: int) -> Seq<(Value, Value)> {
    Seq::new(keywords.len(), |i: int| (Value::Ref((first + i) as usize), keywords[i].1))
}

/// The pairs of `dict` and `update`: those of one value, and then those given
/// by name. Behind an error there are none. `update` walks over a dictionary,
/// where `dict` takes its pairs at once.
pub open spec fn update_model(
    vm: VmModel,
    walks: bool,
    args: ArgsModel,
    source: Option<DictModel>,
    replies: Seq<ReplyModel>,
    first: int,
) -> DictOutcome {
    if args.positional.len() > 1 {
        Err(crate::args::at_most_error(update_name(walks), 1, args.positional.len()))
    } else if walks && args.positional.len() == 1 && source is Some {
        Ok(
            DictMadeModel::Walk(
                DictIter { index: 0, expected_len: source->Some_0.entries.len() as usize },
                keyword_pairs(args.keywords, first),
            ),
        )
    } else {
        let lead = if args.positional.len() == 0 {
            PairsModel::Pairs(Seq::empty(), None)
        } else {
            source_pairs(vm, args.positional[0], source, replies)
        };
        match lead {
            PairsModel::Ask(value) => Ok(DictMadeModel::Items(value)),
            PairsModel::Pairs(pairs, Some(error)) => Ok(DictMadeModel::Update(pairs, Some(error))),
            PairsModel::Pairs(pairs, None) => Ok(
                DictMadeModel::Update(pairs + keyword_pairs(args.keywords, first), None),
            ),
        }
    }
}

/// The result is what the model of `dict` and `update` gives. Where that ends
/// with an item that holds more than two values, a limit may have stopped the
/// way over that item.
pub open spec fn updates_in_limits(tracker: ResourceTracker, result: RunResult<DictMade>, model: DictOutcome) -> bool {
    ||| makes_dict(result, model)
    ||| result matches Ok(made) && (made@ matches DictMadeModel::Update(pairs, Some(error)) && (model matches Ok(
        DictMadeModel::Update(expected, Some(length)),
    ) && pairs == expected && is_too_long(length) && says_stopped(tracker, error)))
}

/// The name that errors about the arguments give.
pub open spec fn update_name(walks: bool) -> Seq<char> {
    if walks {
        "update"@
    } else {
        "dict"@
    }
}

/// The names of arguments given by name are needed.
pub open spec fn takes_names(result: RunResult<DictMade>) -> bool {
    ||| result matches Ok(DictMade::Update(_, None))
    ||| result matches Ok(DictMade::Walk(_, _))
}

/// A method that the kind of a dictionary does not have.
pub open spec fn no_method(dict: DictModel, method: DictMethod) -> bool {
    let counter = dict.kind.special == Some(DictSpecial::Counter);
    match method {
        DictMethod::MostCommon | DictMethod::Elements | DictMethod::Total | DictMethod::Subtract => !counter,
        DictMethod::Missing => !(dict.kind.special matches Some(DictSpecial::Default(_))),
        _ => false,
    }
}

/// What a method leaves behind and gives, other than `update`.
pub open spec fn dict_effect(
    vm: VmModel,
    dict: DictModel,
    method: DictMethod,
    args: ArgsModel,
    lookup: Option<Lookup>,
    replies: Seq<ReplyModel>,
) -> DictEffect {
    let counter = dict.kind.special == Some(DictSpecial::Counter);
    match method {
        DictMethod::MostCommon | DictMethod::Elements | DictMethod::Subtract => (dict, Ok(DictMadeModel::Counter(method))),
        DictMethod::Total => match zero_args("total"@, args) {
            Err(error) => (dict, Err(error)),
            Ok(_) => (dict, Ok(DictMadeModel::Counter(method))),
        },
        DictMethod::Get => get_effect(dict, args, lookup),
        DictMethod::View(view) => match zero_args(
            match view {
                DictView::Keys => "dict.keys"@,
                DictView::Values => "dict.values"@,
                DictView::Items => "dict.items"@,
            },
            args,
        ) {
            Err(error) => (dict, Err(error)),
            Ok(_) => (dict, Ok(DictMadeModel::View(view))),
        },
        DictMethod::Pop => dict_pop_effect(dict, args, lookup),
        DictMethod::Clear => match zero_args("dict.clear"@, args) {
            Err(error) => (dict, Err(error)),
            Ok(_) => (
                DictModel { entries: Seq::empty(), ..dict },
                Ok(DictMadeModel::Plain(Value::NoneValue)),
            ),
        },
        DictMethod::Copy => match zero_args("dict.copy"@, args) {
            Err(error) => (dict, Err(error)),
            Ok(_) => (dict, Ok(DictMadeModel::FromPairs(dict.kind, pairs_of(dict.entries), None))),
        },
        DictMethod::Update => (dict, Ok(DictMadeModel::Counter(method))),
        DictMethod::Setdefault => setdefault_effect(dict, args, lookup),
        DictMethod::Popitem => popitem_effect(dict, args),
        DictMethod::Fromkeys => if counter {
            (
                dict,
                Err(
                    raised(
                        ExcType::NotImplementedError,
                        "Counter.fromkeys() is undefined.  Use Counter(iterable) instead."@,
                    ),
                ),
            )
        } else {
            (dict, fromkeys_model(vm, args, fromkeys_kind(dict.kind), replies))
        },
        DictMethod::Missing => match crate::args::one_arg("__missing__"@, args) {
            Err(error) => (dict, Err(error)),
            Ok(key) => (dict, Ok(DictMadeModel::Factory(key))),
        },
    }
}

/// The kind of a dictionary that `fromkeys` makes: one with a factory gives
/// one without.
pub open spec fn fromkeys_kind(kind: DictKind) -> DictKind {
    match kind.special {
        Some(DictSpecial::Default(_)) => DictKind { special: Some(DictSpecial::Default(None)) },
        _ => DictKind { special: None },
    }
}

/// Makes a new dictionary of the items of a value, each with one value.
pub fn dict_fromkeys(args: &ArgValues, kind: DictKind, vm: &VM, replies: &Vec<Reply>) -> (result: RunResult<DictMade>)
    requires
        holds_args(vm@, args@),
        vm@.wf(),
        holds_replies(vm@, replies_model(replies@)),
    ensures
        makes_dict(result, fromkeys_model(vm@, args@, kind, replies_model(replies@))),
{
    let values = unpack("fromkeys", 1, 2, args)?;
    let value: Value = if values.len() > 1 {
        values[1]
    } else {
        Value::NoneValue
    };
    match get_known_items(vm, values[0]) {
        Some(items) => {
            return Ok(DictMade::FromPairs(kind, with_value(items, value), None));
        },
        None => {},
    }
    if !vm.py_is_iterable(values[0]) {
        return Err(not_iterable(vm, values[0]));
    }
    if replies.len() == 0 {
        return Ok(DictMade::Items(values[0]));
    }
    match &replies[0] {
        Reply::Items(items, failure) => {
            let failed = match failure {
                Some(error) => Some(crate::exceptions::copy_error(error)),
                None => None,
            };
            Ok(DictMade::FromPairs(kind, with_value(items, value), failed))
        },
        Reply::Failed(error) => Err(crate::exceptions::copy_error(error)),
        _ => Ok(DictMade::Items(values[0])),
    }
}

/// Pairs of items, each with one value.
fn with_value(items: &Vec<Value>, value: Value) -> (pairs: Vec<(Value, Value)>)
    ensures
        pairs@ == keyed(items@, value),
{
    let mut pairs: Vec<(Value, Value)> = Vec::new();
    let mut i: usize = 0;
    while i < items.len()
        invariant
            i <= items@.len(),
            pairs@.len() == i,
            forall|j: int| 0 <= j < i ==> pairs@[j] == (items@[j], value),
        decreases items@.len() - i,
    {
        pairs.push((items[i], value));
        i = i + 1;
    }
    assert(pairs@ =~= keyed(items@, value));
    pairs
}

/// The state with the names of keyword arguments on the heap.
pub open spec fn with_names(vm: VmModel, keywords: Seq<(Seq<char>, Value)>) -> VmModel {
    VmModel {
        heap: vm.heap + Seq::new(keywords.len(), |i: int| crate::heap::DataModel::Str(keywords[i].0)),
        ..vm
    }
}

/// Puts the arguments given by name behind pairs. Their names go on the heap.
fn with_keywords(pairs: Vec<(Value, Value)>, args: &ArgValues, vm: &mut VM) -> (all: Vec<(Value, Value)>)
    ensures
        all@ == pairs@ + keyword_pairs(args@.keywords, old(vm)@.heap.len() as int),
        final(vm)@ == with_names(old(vm)@, args@.keywords),
{
    let ghost before = vm@;
    let ghost start = pairs@;
    let mut pairs = pairs;
    let first: usize = vm.heap.len();
    let mut i: usize = 0;
    let ghost tail = keyword_pairs(args@.keywords, first as int);
    let ghost names = Seq::new(args@.keywords.len(), |i: int| crate::heap::DataModel::Str(args@.keywords[i].0));
    proof {
        assert(start + tail.subrange(0, 0) =~= start);
        assert(before.heap + names.subrange(0, 0) =~= before.heap);
    }
    while i < args.keywords.len()
        invariant
            i <= args.keywords@.len(),
            tail == keyword_pairs(args@.keywords, first as int),
            names == Seq::new(args@.keywords.len(), |i: int| crate::heap::DataModel::Str(args@.keywords[i].0)),
            first == before.heap.len(),
            before == old(vm)@,
            pairs@ == start + tail.subrange(0, i as int),
            vm@ == (VmModel { heap: before.heap + names.subrange(0, i as int), ..before }),
        decreases args.keywords@.len() - i,
    {
        let text = args.keywords[i].0.clone();
        let value: Value = args.keywords[i].1;
        assert(args@.keywords[i as int] == (text@, value));
        let id: usize = vm.allocate(HeapData::Str(text));
        pairs.push((Value::Ref(id), value));
        proof {
            assert(pairs@ =~= start + tail.subrange(0, i + 1));
            assert(vm@.heap =~= before.heap + names.subrange(0, i + 1));
        }
        i = i + 1;
    }
    proof {
        assert(tail.subrange(0, args@.keywords.len() as int) =~= tail);
        assert(names.subrange(0, args@.keywords.len() as int) =~= names);
    }
    pairs
}

/// Gathers the pairs of `dict` or, where it walks, of `update`. `source` is
/// the dictionary that the one value is, where it is one. The names of
/// arguments given by name go on the heap.
pub fn dict_update(walks: bool, args: &ArgValues, source: Option<&Dict>, vm: &mut VM, replies: &Vec<Reply>) -> (result:
    RunResult<DictMade>)
    requires
        holds_args(old(vm)@, args@),
        old(vm)@.wf(),
        source matches Some(dict) ==> holds_dict(old(vm)@, dict@),
        holds_replies(old(vm)@, replies_model(replies@)),
    ensures
        updates_in_limits(
            old(vm)@.tracker,
            result,
            update_model(
                old(vm)@,
                walks,
                args@,
                maybe_dict(source),
                replies_model(replies@),
                old(vm)@.heap.len() as int,
            ),
        ),
        final(vm)@ == if takes_names(result) {
            with_names(old(vm)@, args@.keywords)
        } else {
            old(vm)@
        },
{
    let none: Vec<(Value, Value)> = Vec::new();
    assert(none@ =~= Seq::<(Value, Value)>::empty());
    if args.positional.len() > 1 {
        let name = if walks {
            "update"
        } else {
            "dict"
        };
        return Err(crate::args::type_error_at_most(name, 1, args.positional.len()));
    }
    if walks && args.positional.len() == 1 {
        if let Some(dict) = source {
            let walk = DictIter::new(dict);
            let pairs = with_keywords(none, args, vm);
            assert(pairs@ =~= keyword_pairs(args@.keywords, old(vm)@.heap.len() as int));
            return Ok(DictMade::Walk(walk, pairs));
        }
    }
    let lead = if args.positional.len() == 0 {
        Pairs::Pairs(none, None)
    } else {
        pairs_of_value(args.positional[0], source, &*vm, replies)
    };
    match lead {
        Pairs::Ask(value) => Ok(DictMade::Items(value)),
        Pairs::Pairs(pairs, Some(error)) => Ok(DictMade::Update(pairs, Some(error))),
        Pairs::Pairs(pairs, None) => {
            let all = with_keywords(pairs, args, vm);
            Ok(DictMade::Update(all, None))
        },
    }
}

/// The pairs that a copy of a dictionary is made of. The copy has the same
/// kind.
pub fn dict_copy(dict: &Dict) -> (made: DictMade)
    ensures
        made@ == DictMadeModel::FromPairs(dict@.kind, pairs_of(dict@.entries), None),
{
    DictMade::FromPairs(dict.cloned_kind(), dict.iter(), None)
}

/// Calls a method of a dictionary, other than `update` of one that does not
/// count. Only `setdefault` of a missing key can be refused by the memory
/// limit, and then only the mark changes.
pub fn call_dict_method(
    dict: &mut HeapRead<Dict>,
    method: DictMethod,
    args: &ArgValues,
    lookup: Option<Lookup>,
    vm: &VM,
    replies: &Vec<Reply>,
) -> (result: RunResult<DictMade>)
    requires
        old(dict).item.wf(),
        holds_args(vm@, args@),
        vm@.wf(),
        holds_replies(vm@, replies_model(replies@)),
        lookup matches Some(found) ==> lookup_fits(old(dict).item@, found),
    ensures
        final(dict).item.wf(),
        ({
            let effect = dict_effect(vm@, old(dict).item@, method, args@, lookup, replies_model(replies@));
            ||| final(dict).item@ == effect.0 && makes_dict(result, effect.1)
            ||| is_insertion(old(dict).item@, method, args@, lookup) && (result matches Err(error)
                && crate::dict::refuses_memory(vm@.tracker, old(dict).item@.entries.len() as int, error)) && final(dict).item@.entries
                == old(dict).item@.entries && final(dict).item@.kind == old(dict).item@.kind
        }),
{
    let ghost before = dict.item@;
    match method {
        DictMethod::MostCommon | DictMethod::Elements | DictMethod::Subtract => Ok(DictMade::Counter(method)),
        DictMethod::Total => {
            args.check_zero_args("total")?;
            Ok(DictMade::Counter(method))
        },
        DictMethod::Get => {
            let values = unpack("get", 1, 2, args)?;
            match lookup {
                None => Ok(DictMade::Lookup(values[0])),
                Some(found) => match found.place {
                    Some(i) => Ok(DictMade::Plain(dict.item.entries[i].value)),
                    None => Ok(
                        DictMade::Plain(
                            if values.len() > 1 {
                                values[1]
                            } else {
                                Value::NoneValue
                            },
                        ),
                    ),
                },
            }
        },
        DictMethod::View(view) => {
            args.check_zero_args(
                match view {
                    DictView::Keys => "dict.keys",
                    DictView::Values => "dict.values",
                    DictView::Items => "dict.items",
                },
            )?;
            Ok(DictMade::View(view))
        },
        DictMethod::Pop => {
            let values = unpack("pop", 1, 2, args)?;
            match lookup {
                None => Ok(DictMade::Lookup(values[0])),
                Some(found) => match dict.pop(found.place) {
                    Some((_, value)) => Ok(DictMade::Plain(value)),
                    None => {
                        if values.len() > 1 {
                            Ok(DictMade::Plain(values[1]))
                        } else {
                            Ok(DictMade::MissingKey(values[0]))
                        }
                    },
                },
            }
        },
        DictMethod::Clear => {
            args.check_zero_args("dict.clear")?;
            dict.item.clear();
            Ok(DictMade::Plain(Value::NoneValue))
        },
        DictMethod::Copy => {
            args.check_zero_args("dict.copy")?;
            Ok(dict_copy(&dict.item))
        },
        DictMethod::Update => Ok(DictMade::Counter(method)),
        DictMethod::Setdefault => {
            let values = unpack("setdefault", 1, 2, args)?;
            match lookup {
                None => Ok(DictMade::Lookup(values[0])),
                Some(found) => match found.place {
                    Some(i) => Ok(DictMade::Plain(dict.item.entries[i].value)),
                    None => {
                        let value: Value = if values.len() > 1 {
                            values[1]
                        } else {
                            Value::NoneValue
                        };
                        let entry = DictEntry { key: values[0], value, hash: found.hash };
                        match dict.set(entry, None, &vm.tracker) {
                            Ok(_) => Ok(DictMade::Plain(value)),
                            Err(error) => Err(error),
                        }
                    },
                },
            }
        },
        DictMethod::Popitem => {
            args.check_zero_args("dict.popitem")?;
            let len: usize = dict.item.entries.len();
            if len == 0 {
                return Err(raise(ExcType::KeyError, "popitem(): dictionary is empty"));
            }
            let entry = dict.item.remove_at(len - 1);
            Ok(DictMade::Pair(entry.key, entry.value))
        },
        DictMethod::Fromkeys => {
            if dict.item.is_counter() {
                return Err(
                    raise(
                        ExcType::NotImplementedError,
                        "Counter.fromkeys() is undefined.  Use Counter(iterable) instead.",
                    ),
                );
            }
            let kind = if dict.item.is_defaultdict() {
                DictKind::defaultdict(None)
            } else {
                DictKind::plain()
            };
            dict_fromkeys(args, kind, vm, replies)
        },
        DictMethod::Missing => {
            let key = args.get_one_arg("__missing__")?;
            Ok(DictMade::Factory(key))
        },
    }
}

/// `popitem` gives back the pair whose key was put in last, and leaves the
/// entries as they were before it.
pub proof fn law_popitem_takes_the_last_pair(dict: DictModel, entry: DictEntry, args: ArgsModel)
    requires
        args.positional.len() == 0,
        args.keywords.len() == 0,
    ensures
        ({
            let (after, made) = popitem_effect(dict.with_entry(entry, None), args);
            &&& made == Ok::<DictMadeModel, ErrorModel>(DictMadeModel::Pair(entry.key, entry.value))
            &&& after.entries == dict.entries
        }),
{
    assert(dict.entries.push(entry).remove(dict.entries.len() as int) =~= dict.entries);
}

} // verus!
