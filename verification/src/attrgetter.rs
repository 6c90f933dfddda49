//! `operator.attrgetter`: a callable that reads attributes, by dotted names.

use crate::args::{holds_args, pos_only, ArgValues, ArgsModel};
use crate::exceptions::{copy_error, raise2, type_error, type_error_model, ErrorModel, ExcType, RunError, RunResult};
use crate::heap::{DataModel, HeapData, VmModel, VM};
use crate::text::{chars_of, decimal, decimal_text, join3, text_from};
use crate::value::{HeapId, Value};
use vstd::prelude::*;

verus! {

/// A getter: the names that it was made with, each split at its dots.
pub struct AttrGetter {
    pub paths: Vec<Vec<String>>,
}

/// The texts of a path.
pub open spec fn path_of(path: Seq<String>) -> Seq<Seq<char>> {
    Seq::new(path.len(), |i: int| path[i]@)
}

impl View for AttrGetter {
    type V = Seq<Seq<Seq<char>>>;

    open spec fn view(&self) -> Seq<Seq<Seq<char>>> {
        Seq::new(self.paths@.len(), |i: int| path_of(self.paths@[i]@))
    }
}

/// The parts of a text between its dots, where the part that `at` stands in
/// begins at `start`.
pub open spec fn parts_from(text: Seq<char>, start: int, at: int) -> Seq<Seq<char>>
    decreases text.len() - at,
{
    if at < 0 || at >= text.len() {
        seq![text.subrange(start, text.len() as int)]
    } else if text[at] == '.' {
        seq![text.subrange(start, at)] + parts_from(text, at + 1, at + 1)
    } else {
        parts_from(text, start, at + 1)
    }
}

/// The parts of a text between its dots.
pub open spec fn split_dots(text: Seq<char>) -> Seq<Seq<char>> {
    parts_from(text, 0, 0)
}

/// The parts with a dot between each two, from `i` on.
pub open spec fn joined_from(parts: Seq<Seq<char>>, i: int) -> Seq<char>
    decreases parts.len() - i,
{
    if i < 0 || i >= parts.len() {
        Seq::empty()
    } else if i == parts.len() - 1 {
        parts[i]
    } else {
        parts[i] + seq!['.'] + joined_from(parts, i + 1)
    }
}

/// Parts behind one more part.
proof fn joined_behind(first: Seq<char>, rest: Seq<Seq<char>>, i: int)
    requires
        0 <= i <= rest.len(),
        rest.len() > 0,
    ensures
        joined_from(seq![first] + rest, i + 1) == joined_from(rest, i),
    decreases rest.len() - i,
{
    let whole = seq![first] + rest;
    if i < rest.len() {
        assert(whole[i + 1] == rest[i]);
        joined_behind(first, rest, i + 1);
    }
}

/// The rest of a text, from its parts.
proof fn rest_is_joined(text: Seq<char>, start: int, at: int)
    requires
        0 <= start <= at <= text.len(),
    ensures
        parts_from(text, start, at).len() > 0,
        joined_from(parts_from(text, start, at), 0) == text.subrange(start, text.len() as int),
    decreases text.len() - at,
{
    if at < text.len() {
        if text[at] == '.' {
            let rest = parts_from(text, at + 1, at + 1);
            rest_is_joined(text, at + 1, at + 1);
            joined_behind(text.subrange(start, at), rest, 0);
            let whole = parts_from(text, start, at);
            assert(whole[0] == text.subrange(start, at));
            assert(text.subrange(start, text.len() as int) =~= text.subrange(start, at) + seq!['.'] + text.subrange(
                at + 1,
                text.len() as int,
            ));
        } else {
            rest_is_joined(text, start, at + 1);
        }
    }
}

/// A name that was split at its dots is had back by joining the parts.
pub proof fn law_split_name_joins_to_itself(text: Seq<char>)
    ensures
        joined_from(split_dots(text), 0) == text,
{
    rest_is_joined(text, 0, 0);
    assert(text.subrange(0, text.len() as int) =~= text);
}

/// Splits a name at its dots.
fn split_name(text: &str) -> (parts: Vec<String>)
    ensures
        path_of(parts@) == split_dots(text@),
{
    let chars = chars_of(text);
    let total: usize = chars.len();
    let mut parts: Vec<String> = Vec::new();
    let mut start: usize = 0;
    let mut at: usize = 0;
    assert(path_of(parts@) + parts_from(text@, 0, 0) =~= split_dots(text@));
    while at < total
        invariant
            start <= at <= total == chars@.len(),
            chars@ == text@,
            path_of(parts@) + parts_from(text@, start as int, at as int) == split_dots(text@),
        decreases total - at,
    {
        if chars[at] == '.' {
            let ghost before = path_of(parts@);
            let piece = text_from(&chars, start, at);
            parts.push(piece);
            assert(path_of(parts@) =~= before.push(text@.subrange(start as int, at as int)));
            assert(before.push(text@.subrange(start as int, at as int)) + parts_from(text@, at + 1, at + 1) =~= before + (
            seq![text@.subrange(start as int, at as int)] + parts_from(text@, at + 1, at + 1)));
            start = at + 1;
        }
        at = at + 1;
    }
    let ghost before = path_of(parts@);
    parts.push(text_from(&chars, start, total));
    assert(path_of(parts@) =~= before + seq![text@.subrange(start as int, text@.len() as int)]);
    parts
}

/// The error about a count of arguments that is not one.
pub open spec fn expected_one(given: nat) -> ErrorModel {
    type_error_model("attrgetter expected 1 argument, got "@ + decimal(given))
}

/// Reports a count of arguments that is not one.
fn type_error_expected_one(given: usize) -> (error: RunError)
    ensures
        error@ == expected_one(given as nat),
{
    raise2(ExcType::TypeError, "attrgetter expected 1 argument, got ", decimal_text(given as u64).as_str())
}

/// The paths that the names from `i` on make, behind those before.
pub open spec fn paths_from(vm: VmModel, names: Seq<Value>, i: int) -> Result<Seq<Seq<Seq<char>>>, ErrorModel>
    decreases names.len() - i,
{
    if i < 0 || i >= names.len() {
        Ok(Seq::empty())
    } else {
        match vm.text_of(names[i]) {
            None => Err(type_error_model("attribute name must be a string"@)),
            Some(text) => match paths_from(vm, names, i + 1) {
                Err(error) => Err(error),
                Ok(rest) => Ok(seq![split_dots(text)] + rest),
            },
        }
    }
}

/// What the call of the type makes.
pub open spec fn new_getter(vm: VmModel, args: ArgsModel) -> Result<Seq<Seq<Seq<char>>>, ErrorModel> {
    match pos_only("attrgetter"@, args) {
        Err(error) => Err(error),
        Ok(names) => if names.len() == 0 {
            Err(expected_one(0))
        } else {
            paths_from(vm, names, 0)
        },
    }
}

/// Makes a getter.
pub fn init(args: &ArgValues, vm: &VM) -> (getter: RunResult<AttrGetter>)
    requires
        holds_args(vm@, args@),
    ensures
        match (getter, new_getter(vm@, args@)) {
            (Ok(getter), Ok(expected)) => getter@ == expected,
            (Err(error), Err(expected)) => error@ == expected,
            _ => false,
        },
{
    let names: &Vec<Value> = args.into_pos_only("attrgetter")?;
    if names.len() == 0 {
        return Err(type_error_expected_one(0));
    }
    let mut getter = AttrGetter { paths: Vec::new() };
    let mut i: usize = 0;
    while i < names.len()
        invariant
            i <= names@.len(),
            vm@.holds_all(names@),
            new_getter(vm@, args@) == paths_from(vm@, names@, 0),
            match (paths_from(vm@, names@, i as int), paths_from(vm@, names@, 0)) {
                (Ok(rest), Ok(whole)) => getter@ + rest == whole,
                (Err(error), Err(whole)) => error == whole,
                _ => false,
            },
        decreases names@.len() - i,
    {
        let text: &str = match vm.get_text(names[i]) {
            Some(text) => text,
            None => return Err(type_error("attribute name must be a string")),
        };
        let ghost before = getter@;
        let path = split_name(text);
        getter.paths.push(path);
        assert(getter@ =~= before.push(split_dots(text@)));
        proof {
            if let Ok(rest) = paths_from(vm@, names@, i + 1) {
                assert(before.push(split_dots(text@)) + rest =~= before + (seq![split_dots(text@)] + rest));
            }
        }
        i = i + 1;
    }
    assert(getter@ + Seq::<Seq<Seq<char>>>::empty() =~= getter@);
    Ok(getter)
}

/// What the host replies when it is asked for an attribute.
pub enum AttributeReply {
    Value(Value),
    /// Something that is not a plain value.
    NotSimple,
    Failed(RunError),
}

/// What the host replies, as a mathematical value.
#[verifier::ext_equal]
pub enum AttributeModel {
    Value(Value),
    NotSimple,
    Failed(ErrorModel),
}

impl View for AttributeReply {
    type V = AttributeModel;

    open spec fn view(&self) -> AttributeModel {
        match *self {
            AttributeReply::Value(value) => AttributeModel::Value(value),
            AttributeReply::NotSimple => AttributeModel::NotSimple,
            AttributeReply::Failed(error) => AttributeModel::Failed(error@),
        }
    }
}

/// The replies as mathematical values.
pub open spec fn attribute_models(replies: Seq<AttributeReply>) -> Seq<AttributeModel> {
    Seq::new(replies.len(), |i: int| replies[i]@)
}

/// What following names gives, and how many replies it used.
pub enum WalkModel<T> {
    Done(T, int),
    /// This attribute of this value has to be read first.
    Ask(Value, Seq<char>),
    Failed(ErrorModel),
}

/// What following names gives, and how many replies it used.
pub enum Walk<T> {
    Done(T, usize),
    Ask(Value, String),
    Failed(RunError),
}

/// Follows a path from `i` on.
pub open spec fn walk_from(replies: Seq<AttributeModel>, used: int, current: Value, path: Seq<Seq<char>>, i: int) -> WalkModel<
    Value,
>
    decreases path.len() - i,
{
    if i < 0 || i >= path.len() {
        WalkModel::Done(current, used)
    } else if used >= replies.len() {
        WalkModel::Ask(current, path[i])
    } else {
        match replies[used] {
            AttributeModel::Value(value) => walk_from(replies, used + 1, value, path, i + 1),
            AttributeModel::NotSimple => WalkModel::Failed(
                type_error_model("attrgetter(): attribute is not a simple value"@),
            ),
            AttributeModel::Failed(error) => WalkModel::Failed(error),
        }
    }
}

/// Follows one dotted path.
pub fn walk(replies: &Vec<AttributeReply>, start: usize, target: Value, path: &Vec<String>) -> (walked: Walk<Value>)
    requires
        start <= replies@.len(),
    ensures
        match (walked, walk_from(attribute_models(replies@), start as int, target, path_of(path@), 0)) {
            (Walk::Done(value, used), WalkModel::Done(expected, count)) => value == expected && used == count && used
                <= replies@.len(),
            (Walk::Ask(value, name), WalkModel::Ask(expected, wanted)) => value == expected && name@ == wanted,
            (Walk::Failed(error), WalkModel::Failed(expected)) => error@ == expected,
            _ => false,
        },
{
    let ghost models = attribute_models(replies@);
    let ghost texts = path_of(path@);
    let mut current: Value = target;
    let mut used: usize = start;
    let mut i: usize = 0;
    while i < path.len()
        invariant
            i <= path@.len(),
            used <= replies@.len(),
            models == attribute_models(replies@),
            texts == path_of(path@),
            walk_from(models, used as int, current, texts, i as int) == walk_from(
                models,
                start as int,
                target,
                texts,
                0,
            ),
        decreases path@.len() - i,
    {
        if used >= replies.len() {
            return Walk::Ask(current, path[i].clone());
        }
        assert(models[used as int] == replies@[used as int]@);
        match &replies[used] {
            AttributeReply::Value(value) => {
                current = *value;
            },
            AttributeReply::NotSimple => {
                return Walk::Failed(type_error("attrgetter(): attribute is not a simple value"));
            },
            AttributeReply::Failed(error) => return Walk::Failed(copy_error(error)),
        }
        used = used + 1;
        i = i + 1;
    }
    Walk::Done(current, used)
}

/// Follows the paths from `i` on.
pub open spec fn walk_all(
    replies: Seq<AttributeModel>,
    used: int,
    target: Value,
    paths: Seq<Seq<Seq<char>>>,
    i: int,
    results: Seq<Value>,
) -> WalkModel<Seq<Value>>
    decreases paths.len() - i,
{
    if i < 0 || i >= paths.len() {
        WalkModel::Done(results, used)
    } else {
        match walk_from(replies, used, target, paths[i], 0) {
            WalkModel::Done(value, next) => walk_all(replies, next, target, paths, i + 1, results.push(value)),
            WalkModel::Ask(value, name) => WalkModel::Ask(value, name),
            WalkModel::Failed(error) => WalkModel::Failed(error),
        }
    }
}

/// What a call of a getter gives, or the attribute that the host reads first.
pub enum GetAnswer {
    Value(Value),
    Ask(Value, String),
}

/// The value that the results of the paths make, and the run behind it. One
/// path gives its own value, more give a tuple.
pub open spec fn gathered(vm: VmModel, results: Seq<Value>) -> (VmModel, Value) {
    if results.len() == 1 {
        (vm, results[0])
    } else {
        (vm.with(DataModel::Tuple(results)), Value::Ref(vm.heap.len() as usize))
    }
}

/// The target of a call of a getter.
pub open spec fn call_target(args: ArgsModel) -> Result<Value, ErrorModel> {
    match pos_only("attrgetter"@, args) {
        Err(error) => Err(error),
        Ok(values) => if values.len() == 1 {
            Ok(values[0])
        } else {
            Err(expected_one(values.len()))
        },
    }
}

/// Applies a getter. The result is asked for again, with one more reply, until
/// it is there.
pub fn call(getter: &AttrGetter, args: &ArgValues, vm: &mut VM, replies: &Vec<AttributeReply>) -> (result: RunResult<
    GetAnswer,
>)
    ensures
        match call_target(args@) {
            Err(expected) => final(vm)@ == old(vm)@ && (result matches Err(error) && error@ == expected),
            Ok(target) => match walk_all(attribute_models(replies@), 0, target, getter@, 0, Seq::empty()) {
                WalkModel::Done(values, _) => result matches Ok(GetAnswer::Value(value)) && (final(vm)@, value)
                    == gathered(old(vm)@, values),
                WalkModel::Ask(value, name) => final(vm)@ == old(vm)@ && (result matches Ok(GetAnswer::Ask(of, wanted))
                    && of == value && wanted@ == name),
                WalkModel::Failed(expected) => final(vm)@ == old(vm)@ && (result matches Err(error) && error@
                    == expected),
            },
        },
{
    let values: &Vec<Value> = args.into_pos_only("attrgetter")?;
    if values.len() != 1 {
        return Err(type_error_expected_one(values.len()));
    }
    let target: Value = values[0];
    let ghost models = attribute_models(replies@);
    let mut results: Vec<Value> = Vec::new();
    let mut used: usize = 0;
    let mut i: usize = 0;
    assert(results@ =~= Seq::<Value>::empty());
    while i < getter.paths.len()
        invariant
            i <= getter.paths@.len(),
            used <= replies@.len(),
            vm@ == old(vm)@,
            call_target(args@) == Ok::<Value, ErrorModel>(target),
            models == attribute_models(replies@),
            walk_all(models, used as int, target, getter@, i as int, results@) == walk_all(
                models,
                0,
                target,
                getter@,
                0,
                Seq::empty(),
            ),
        decreases getter.paths@.len() - i,
    {
        assert(getter@[i as int] == path_of(getter.paths@[i as int]@));
        match walk(replies, used, target, &getter.paths[i]) {
            Walk::Done(value, next) => {
                results.push(value);
                used = next;
            },
            Walk::Ask(value, name) => return Ok(GetAnswer::Ask(value, name)),
            Walk::Failed(error) => return Err(error),
        }
        i = i + 1;
    }
    if results.len() == 1 {
        Ok(GetAnswer::Value(results[0]))
    } else {
        let id: HeapId = vm.allocate(HeapData::Tuple(results));
        Ok(GetAnswer::Value(Value::Ref(id)))
    }
}

/// The names of a getter as text, the first `count` of them.
pub open spec fn names_text(paths: Seq<Seq<Seq<char>>>, count: int) -> Seq<char>
    decreases count,
{
    if count <= 0 || count > paths.len() {
        Seq::empty()
    } else {
        (if count > 1 {
            names_text(paths, count - 1) + ", "@
        } else {
            names_text(paths, count - 1)
        }) + ("'"@ + joined_from(paths[count - 1], 0) + "'"@)
    }
}

/// Joins the parts of a path.
fn join_path(path: &Vec<String>) -> (text: String)
    ensures
        text@ == joined_from(path_of(path@), 0),
{
    let ghost parts = path_of(path@);
    let mut text = String::new();
    let mut i: usize = 0;
    assert(text@ + joined_from(parts, 0) =~= joined_from(parts, 0));
    while i < path.len()
        invariant
            i <= path@.len(),
            parts == path_of(path@),
            text@ + joined_from(parts, i as int) == joined_from(parts, 0),
        decreases path@.len() - i,
    {
        let ghost before = text@;
        text.append(path[i].as_str());
        if i + 1 < path.len() {
            text.push('.');
            assert(text@ + joined_from(parts, i + 1) =~= before + (parts[i as int] + seq!['.'] + joined_from(
                parts,
                i + 1,
            )));
        } else {
            assert(text@ + joined_from(parts, i + 1) =~= before + parts[i as int]);
        }
        i = i + 1;
    }
    assert(text@ + Seq::<char>::empty() =~= text@);
    text
}

impl AttrGetter {
    /// The getter as text.
    pub fn py_repr(&self) -> (text: String)
        ensures
            text@ == "operator.attrgetter("@ + names_text(self@, self@.len() as int) + ")"@,
    {
        let mut names = String::new();
        let mut i: usize = 0;
        assert(names@ =~= names_text(self@, 0));
        while i < self.paths.len()
            invariant
                i <= self.paths@.len(),
                names@ == names_text(self@, i as int),
            decreases self.paths@.len() - i,
        {
            if i > 0 {
                names.append(", ");
            }
            assert(self@[i as int] == path_of(self.paths@[i as int]@));
            let joined = join_path(&self.paths[i]);
            let quoted = join3("'", joined.as_str(), "'");
            names.append(quoted.as_str());
            i = i + 1;
        }
        join3("operator.attrgetter(", names.as_str(), ")")
    }

    /// Lists the items of the heap that the getter keeps alive: none.
    pub fn py_dec_ref_ids(&mut self, stack: &mut Vec<HeapId>)
        ensures
            final(self)@ == old(self)@,
            final(stack)@ == old(stack)@,
    {
    }
}

} // verus!
