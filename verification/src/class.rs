//! Classes that running code defines.

use crate::dict::{dict_ref_ids, set_outcome, Dict, DictEntry, DictModel};
use crate::dict_probe::{dict_len_fits, holds_dict, keys_once, seen_same, text_place};
use crate::exceptions::{raise3, raise5, raised, type_error_model, ErrorModel, ExcType, RunError, RunResult};
use crate::hash::hash_of_text;
use crate::heap::{DataModel, HeapData, HeapRead, VmModel, VM};
use crate::names::StringId;
use crate::text::{join3, same_text};
use crate::value::{EitherModel, EitherStr, HeapId, Value};
use vstd::prelude::*;

verus! {

/// The options of a data class.
#[derive(Clone, Copy, Debug, PartialEq, Eq, Hash, Structural)]
pub struct DataclassOptions {
    /// Instances are compared field by field.
    pub eq: bool,
    /// Attributes of instances cannot be set.
    pub frozen: bool,
}

impl Default for DataclassOptions {
    /// Instances are compared field by field, and can be changed.
    fn default() -> (options: DataclassOptions)
        ensures
            options == (DataclassOptions { eq: true, frozen: false }),
    {
        DataclassOptions { eq: true, frozen: false }
    }
}

/// The builtin type that a class inherits.
#[derive(Clone, Copy, PartialEq, Eq, Structural)]
pub enum BuiltinBase {
    /// An exception: instances of the class can be raised.
    Exception(ExcType),
    /// `str`: instances of the class are strings.
    Str,
}

/// A class.
pub struct Class {
    pub name: EitherStr,
    /// The members of the class.
    pub namespace: Dict,
    /// The base class, or nothing.
    pub bases: Vec<HeapId>,
    pub base: Option<BuiltinBase>,
    pub options: DataclassOptions,
    /// What the host knows the class by, once it does.
    pub uuid: Option<u128>,
}

/// A class as a mathematical value.
#[verifier::ext_equal]
pub struct ClassModel {
    pub name: EitherModel,
    pub namespace: DictModel,
    pub bases: Seq<HeapId>,
    pub base: Option<BuiltinBase>,
    pub options: DataclassOptions,
    pub uuid: Option<u128>,
}

impl View for Class {
    type V = ClassModel;

    open spec fn view(&self) -> ClassModel {
        ClassModel {
            name: self.name@,
            namespace: self.namespace@,
            bases: self.bases@,
            base: self.base,
            options: self.options,
            uuid: self.uuid,
        }
    }
}

impl Class {
    /// The members are kept in good order.
    pub open spec fn wf(self) -> bool {
        self.namespace.wf()
    }

    /// The class names only what exists, each member once, and at most one base
    /// class.
    pub open spec fn held_by(self, vm: VmModel) -> bool {
        &&& vm.holds_text(self.name@)
        &&& holds_dict(vm, self.namespace@)
        &&& members_once(vm, self@)
        &&& self.bases@.len() <= 1
        &&& forall|i: int|
            0 <= i < self.bases@.len() ==> (#[trigger] self.bases@[i]) < vm.heap.len()
                && vm.heap[self.bases@[i] as int] is Class
    }

    /// A class from its name and members.
    pub fn new(name: EitherStr, namespace: Dict, bases: Vec<HeapId>, base: Option<BuiltinBase>) -> (class: Class)
        requires
            namespace.wf(),
        ensures
            class.wf(),
            class@ == (ClassModel {
                name: name@,
                namespace: namespace@,
                bases: bases@,
                base,
                options: DataclassOptions { eq: true, frozen: false },
                uuid: None,
            }),
    {
        Class { name, namespace, bases, base, options: DataclassOptions { eq: true, frozen: false }, uuid: None }
    }

    /// The builtin type that the class inherits.
    pub fn base(&self) -> (base: Option<BuiltinBase>)
        ensures
            base == self@.base,
    {
        self.base
    }

    /// The exception that the class inherits.
    pub fn builtin_exc(&self) -> (exc: Option<ExcType>)
        ensures
            exc == match self@.base {
                Some(BuiltinBase::Exception(exc)) => Some(exc),
                _ => None,
            },
    {
        match self.base {
            Some(BuiltinBase::Exception(exc)) => Some(exc),
            _ => None,
        }
    }

    /// Says whether instances of the class are strings.
    pub fn inherits_str(&self) -> (is: bool)
        ensures
            is == (self@.base == Some(BuiltinBase::Str)),
    {
        match self.base {
            Some(BuiltinBase::Str) => true,
            _ => false,
        }
    }

    /// The base classes.
    pub fn bases(&self) -> (bases: &Vec<HeapId>)
        ensures
            bases@ == self@.bases,
    {
        &self.bases
    }

    /// What the host knows the class by: what it was first given.
    pub fn boundary_uuid(&mut self, fresh: u128) -> (uuid: u128)
        requires
            old(self).wf(),
        ensures
            final(self).wf(),
            uuid == known_by(old(self)@.uuid, fresh),
            final(self)@ == (ClassModel { uuid: Some(uuid), ..old(self)@ }),
    {
        match self.uuid {
            Some(uuid) => uuid,
            None => {
                self.uuid = Some(fresh);
                fresh
            },
        }
    }

    /// What the host knows the class by, once it does.
    pub fn uuid(&self) -> (uuid: Option<u128>)
        ensures
            uuid == self@.uuid,
    {
        self.uuid
    }

    /// The options of the data class.
    pub fn dataclass_options(&self) -> (options: DataclassOptions)
        ensures
            options == self@.options,
    {
        self.options
    }

    /// The name of the class.
    pub fn name(&self) -> (name: &EitherStr)
        ensures
            name@ == self@.name,
    {
        &self.name
    }

    /// The members of the class.
    pub fn namespace(&self) -> (namespace: &Dict)
        ensures
            namespace@ == self@.namespace,
    {
        &self.namespace
    }

    /// Lists the items of the heap that the class keeps alive: what its
    /// members do, and then its bases.
    pub fn py_dec_ref_ids(&mut self, stack: &mut Vec<HeapId>)
        requires
            old(self).wf(),
        ensures
            final(self)@ == old(self)@,
            final(stack)@ == old(stack)@ + dict_ref_ids(old(self)@.namespace) + old(self)@.bases,
    {
        self.namespace.py_dec_ref_ids(stack);
        let ghost before = stack@;
        let mut i: usize = 0;
        assert(stack@ =~= before + self.bases@.subrange(0, 0));
        while i < self.bases.len()
            invariant
                i <= self.bases@.len(),
                self@ == old(self)@,
                stack@ == before + self.bases@.subrange(0, i as int),
            decreases self.bases@.len() - i,
        {
            stack.push(self.bases[i]);
            i = i + 1;
            assert(stack@ =~= before + self.bases@.subrange(0, i as int));
        }
        assert(self.bases@.subrange(0, i as int) =~= self.bases@);
    }
}

/// No name stands twice among the members of the class itself.
pub open spec fn members_once(vm: VmModel, class: ClassModel) -> bool {
    keys_once(class.namespace, seen_same(vm))
}

/// An attribute that every class has without it being a member.
pub open spec fn default_member(name: Seq<char>, main: StringId) -> Option<Value> {
    if name == "__module__"@ {
        Some(Value::InternString(main))
    } else {
        None
    }
}

/// An attribute that every class has without it being a member: the name of
/// the module, which is the one that `main` is interned for.
pub fn class_default(name: &str, main: StringId) -> (value: Option<Value>)
    ensures
        value == default_member(name@, main),
{
    if same_text(name, "__module__") {
        Some(Value::InternString(main))
    } else {
        None
    }
}

/// The error about an attribute that a class does not have.
pub open spec fn no_member(class: Seq<char>, name: Seq<char>) -> ErrorModel {
    raised(ExcType::AttributeError, "type object '"@ + class + "' has no attribute '"@ + name + "'"@)
}

/// The classes of the heap are in good order, and each was made after the one
/// that it inherits from.
pub open spec fn classes_held(vm: VM) -> bool {
    forall|id: int|
        0 <= id < vm.heap@.len() && (#[trigger] vm.heap@[id]) is Class ==> {
            let class = vm.heap@[id]->Class_0;
            class.wf() && class.held_by(vm@) && (class.bases@.len() > 0 ==> class.bases@[0] < id)
        }
}

/// The class has the member of its own, with this value.
pub open spec fn own_member(vm: VmModel, class: ClassModel, name: Seq<char>, value: Value) -> bool {
    exists|place: usize| #[trigger]
        text_place(vm, class.namespace, name, hash_of_text(name), Some(place))
            && class.namespace.entries[place as int].value == value
}

/// The class has no such member of its own.
pub open spec fn lacks_member(vm: VmModel, class: ClassModel, name: Seq<char>) -> bool {
    text_place(vm, class.namespace, name, hash_of_text(name), None)
}

/// The class that a class inherits from. It is older than `limit`.
pub open spec fn base_class(vm: VmModel, class: ClassModel, limit: int) -> Option<HeapId> {
    if class.bases.len() > 0 && class.bases[0] < limit && class.bases[0] < vm.heap.len()
        && vm.heap[class.bases[0] as int] is Class {
        Some(class.bases[0])
    } else {
        None
    }
}

/// What looking a member up gives: the class itself comes first, then the one
/// that it inherits from, and so on. The first that has the member gives it.
pub open spec fn inherited(vm: VmModel, class: ClassModel, limit: int, name: Seq<char>, found: Option<Value>) -> bool
    decreases limit,
{
    ||| found matches Some(value) && own_member(vm, class, name, value)
    ||| lacks_member(vm, class, name) && match base_class(vm, class, limit) {
        Some(base) => inherited(vm, vm.heap[base as int]->Class_0, base as int, name, found),
        None => found is None,
    }
}

/// What reading a member gives: a member of the class or of one that it
/// inherits from, or else what every class has.
pub open spec fn member_read(
    vm: VmModel,
    class: ClassModel,
    name: Seq<char>,
    main: StringId,
    value: Result<Value, ErrorModel>,
) -> bool {
    exists|found: Option<Value>| #[trigger]
        inherited(vm, class, vm.heap.len() as int, name, found) && value == match found {
            Some(value) => Ok(value),
            None => match default_member(name, main) {
                Some(value) => Ok(value),
                None => Err(no_member(vm.chars(class.name), name)),
            },
        }
}

/// Looks a member up in a class and those that it inherits from.
fn find_member(class: &Class, name: &str, vm: &VM) -> (found: Option<Value>)
    requires
        class.wf(),
        class.held_by(vm@),
        classes_held(*vm),
    ensures
        inherited(vm@, class@, vm@.heap.len() as int, name@, found),
{
    let mut here: &Class = class;
    let mut limit: usize = vm.heap.len();
    loop
        invariant
            here.wf(),
            here.held_by(vm@),
            here.bases@.len() > 0 ==> here.bases@[0] < limit,
            classes_held(*vm),
            forall|found: Option<Value>| #[trigger]
                inherited(vm@, here@, limit as int, name@, found) ==> inherited(
                    vm@,
                    class@,
                    vm@.heap.len() as int,
                    name@,
                    found,
                ),
        decreases limit,
    {
        match here.namespace.get_by_str(name, vm) {
            Some(value) => {
                assert(own_member(vm@, here@, name@, value));
                assert(inherited(vm@, here@, limit as int, name@, Some(value)));
                return Some(value);
            },
            None => {},
        }
        if here.bases.len() == 0 {
            assert(inherited(vm@, here@, limit as int, name@, None));
            return None;
        }
        let base: HeapId = here.bases[0];
        assert(vm@.heap[base as int] == vm.heap@[base as int]@);
        match &vm.heap[base] {
            HeapData::Class(older) => {
                assert(base_class(vm@, here@, limit as int) == Some(base));
                assert forall|found: Option<Value>| #[trigger]
                    inherited(vm@, older@, base as int, name@, found) implies inherited(
                    vm@,
                    class@,
                    vm@.heap.len() as int,
                    name@,
                    found,
                ) by {
                    assert(inherited(vm@, here@, limit as int, name@, found));
                }
                here = older;
                limit = base;
            },
            _ => {
                assert(false);
                return None;
            },
        }
    }
}

/// A result as a mathematical value.
pub open spec fn outcome_of(result: RunResult<Value>) -> Result<Value, ErrorModel> {
    match result {
        Ok(value) => Ok(value),
        Err(error) => Err(error@),
    }
}

impl HeapRead<Class> {
    /// Sets a member of the class itself, and gives what it was before. A name
    /// still stands once among the members.
    pub fn set_attr(&mut self, name: Value, value: Value, vm: &VM) -> (result: RunResult<Option<Value>>)
        requires
            old(self).item.wf(),
            old(self).item.held_by(vm@),
            vm@.holds(name),
            vm@.text_of(name) is Some,
        ensures
            final(self).item.wf(),
            final(self).item@ == (ClassModel { namespace: final(self).item@.namespace, ..old(self).item@ }),
            ({
                let text = vm@.text_of(name)->Some_0;
                let hash = hash_of_text(text);
                exists|place: Option<usize>| #[trigger]
                    set_outcome(
                        old(self).item@.namespace,
                        final(self).item@.namespace,
                        (DictEntry { key: name, value, hash }),
                        place,
                        Some(vm@.tracker),
                        result,
                    ) && text_place(vm@, old(self).item@.namespace, text, hash, place)
            }),
            members_once(vm@, final(self).item@),
            vm@.holds(value) ==> final(self).item.held_by(vm@),
            result is Ok ==> own_member(vm@, final(self).item@, vm@.text_of(name)->Some_0, value),
    {
        let ghost before = self.item@.namespace;
        let result = self.item.namespace.set_json_string_key(name, value, vm);
        proof {
            let text = vm@.text_of(name)->Some_0;
            let entry = DictEntry { key: name, value, hash: hash_of_text(text) };
            let after = self.item@.namespace;
            let place = choose|place: Option<usize>| #[trigger]
                set_outcome(before, after, entry, place, Some(vm@.tracker), result) && text_place(
                    vm@,
                    before,
                    text,
                    entry.hash,
                    place,
                );
            assert forall|i: int| 0 <= i < after.entries.len() && vm@.holds(value) implies vm@.holds(
                (#[trigger] after.entries[i]).key,
            ) && vm@.holds(after.entries[i].value) by {
                if after.entries[i] != entry {
                    assert(after.entries[i] == before.entries[i]);
                }
            }
            if result is Ok {
                let at: usize = match place {
                    Some(i) => i,
                    None => before.entries.len() as usize,
                };
                dict_len_fits(&self.item.namespace);
                assert(after.entries[at as int] == entry);
                assert(text_place(vm@, after, text, entry.hash, Some(at)));
            }
        }
        result
    }

    /// Records what the class was decorated with.
    pub fn set_dataclass_options(&mut self, options: DataclassOptions)
        requires
            old(self).item.wf(),
        ensures
            final(self).item.wf(),
            final(self).item@ == (ClassModel { options, ..old(self).item@ }),
    {
        self.item.options = options;
    }

    /// The class as text.
    pub fn py_repr(&self, vm: &VM) -> (text: String)
        requires
            vm@.holds_text(self.item@.name),
        ensures
            text@ == "<class '"@ + vm@.chars(self.item@.name) + "'>"@,
    {
        join3("<class '", vm.text_of_either(&self.item.name), "'>")
    }

    /// `Class[key]` is an error.
    pub fn py_getitem(&self, vm: &VM) -> (error: RunError)
        requires
            vm@.holds_text(self.item@.name),
        ensures
            error@ == type_error_model("type '"@ + vm@.chars(self.item@.name) + "' is not subscriptable"@),
    {
        raise3(ExcType::TypeError, "type '", vm.text_of_either(&self.item.name), "' is not subscriptable")
    }

    /// Reads a member, or what every class has.
    fn read_member(&self, name: &str, main: StringId, vm: &VM) -> (value: RunResult<Value>)
        requires
            self.item.wf(),
            self.item.held_by(vm@),
            classes_held(*vm),
        ensures
            member_read(vm@, self.item@, name@, main, outcome_of(value)),
    {
        let found = find_member(&self.item, name, vm);
        assert(inherited(vm@, self.item@, vm@.heap.len() as int, name@, found));
        match found {
            Some(value) => Ok(value),
            None => match class_default(name, main) {
                Some(value) => Ok(value),
                None => Err(
                    raise5(
                        ExcType::AttributeError,
                        "type object '",
                        vm.text_of_either(&self.item.name),
                        "' has no attribute '",
                        name,
                        "'",
                    ),
                ),
            },
        }
    }

    /// Reads an attribute. `__name__` is the name of the class, whatever the
    /// members are.
    pub fn py_getattr(&self, name: &str, main: StringId, vm: &mut VM) -> (value: RunResult<Value>)
        requires
            self.item.wf(),
            self.item.held_by(old(vm)@),
            classes_held(*old(vm)),
        ensures
            if name@ == "__name__"@ {
                &&& value == Ok::<Value, RunError>(Value::Ref(old(vm)@.heap.len() as usize))
                &&& final(vm)@ == old(vm)@.with(DataModel::Str(old(vm)@.chars(self.item@.name)))
            } else {
                &&& final(vm)@ == old(vm)@
                &&& member_read(old(vm)@, self.item@, name@, main, outcome_of(value))
            },
    {
        if same_text(name, "__name__") {
            let text = vm.text_of_either(&self.item.name).to_owned();
            let id: HeapId = vm.allocate(HeapData::Str(text));
            return Ok(Value::Ref(id));
        }
        self.read_member(name, main, &*vm)
    }

    /// What a call of an attribute calls: the attribute, with nothing put
    /// before the arguments. `__name__` is a text, which no call takes.
    pub fn py_call_attr(&self, name: &str, main: StringId, vm: &mut VM) -> (callee: RunResult<Value>)
        requires
            self.item.wf(),
            self.item.held_by(old(vm)@),
            classes_held(*old(vm)),
        ensures
            if name@ == "__name__"@ {
                &&& callee == Ok::<Value, RunError>(Value::Ref(old(vm)@.heap.len() as usize))
                &&& final(vm)@ == old(vm)@.with(DataModel::Str(old(vm)@.chars(self.item@.name)))
            } else {
                &&& final(vm)@ == old(vm)@
                &&& member_read(old(vm)@, self.item@, name@, main, outcome_of(callee))
            },
    {
        self.py_getattr(name, main, vm)
    }
}

/// What the host knows a class by: what it was first given.
pub open spec fn known_by(uuid: Option<u128>, fresh: u128) -> u128 {
    match uuid {
        Some(uuid) => uuid,
        None => fresh,
    }
}

/// A class that has a member of its own gives that, whatever it inherits.
pub proof fn law_own_members_come_first(
    vm: VmModel,
    class: ClassModel,
    limit: int,
    name: Seq<char>,
    found: Option<Value>,
)
    requires
        !lacks_member(vm, class, name),
        inherited(vm, class, limit, name, found),
    ensures
        found matches Some(value) && own_member(vm, class, name, value),
{
}

/// A class that lacks a member gives what its base gives.
pub proof fn law_members_are_inherited(
    vm: VmModel,
    class: ClassModel,
    limit: int,
    base: HeapId,
    name: Seq<char>,
    found: Option<Value>,
)
    requires
        lacks_member(vm, class, name),
        base_class(vm, class, limit) == Some(base),
    ensures
        inherited(vm, class, limit, name, found) <==> inherited(
            vm,
            vm.heap[base as int]->Class_0,
            base as int,
            name,
            found,
        ),
{
    if found matches Some(value) && own_member(vm, class, name, value) {
        let value = found->Some_0;
        let place = choose|place: usize| #[trigger]
            text_place(vm, class.namespace, name, hash_of_text(name), Some(place))
                && class.namespace.entries[place as int].value == value;
        assert(text_place(vm, class.namespace, name, hash_of_text(name), Some(place)));
        assert(class.namespace.entries[place as int].hash == hash_of_text(name));
    }
}

/// A class has at most one value of its own for a name.
pub proof fn law_own_members_are_definite(vm: VmModel, class: ClassModel, name: Seq<char>, a: Value, b: Value)
    requires
        members_once(vm, class),
        own_member(vm, class, name, a),
        own_member(vm, class, name, b),
    ensures
        a == b,
        !lacks_member(vm, class, name),
{
    let hash = hash_of_text(name);
    let entries = class.namespace.entries;
    let i = choose|place: usize| #[trigger]
        text_place(vm, class.namespace, name, hash, Some(place)) && entries[place as int].value == a;
    let j = choose|place: usize| #[trigger]
        text_place(vm, class.namespace, name, hash, Some(place)) && entries[place as int].value == b;
    assert(entries[i as int].hash == hash);
    assert(entries[j as int].hash == hash);
    if i < j {
        assert(seen_same(vm)(entries[i as int].key, entries[j as int].key));
    } else if j < i {
        assert(seen_same(vm)(entries[j as int].key, entries[i as int].key));
    }
}

/// A member that was set is read back, by whatever the class inherits from.
pub proof fn law_set_members_are_read_back(
    vm: VmModel,
    class: ClassModel,
    name: Seq<char>,
    value: Value,
    main: StringId,
    read: Result<Value, ErrorModel>,
)
    requires
        members_once(vm, class),
        own_member(vm, class, name, value),
        member_read(vm, class, name, main, read),
    ensures
        read == Ok::<Value, ErrorModel>(value),
{
    law_own_members_are_definite(vm, class, name, value, value);
    let found = choose|found: Option<Value>| #[trigger]
        inherited(vm, class, vm.heap.len() as int, name, found) && read == match found {
            Some(value) => Ok(value),
            None => match default_member(name, main) {
                Some(value) => Ok(value),
                None => Err(no_member(vm.chars(class.name), name)),
            },
        };
    law_own_members_come_first(vm, class, vm.heap.len() as int, name, found);
    law_own_members_are_definite(vm, class, name, value, found->Some_0);
}

/// Setting a member leaves what the class has for every other name.
pub proof fn law_other_members_stay(
    vm: VmModel,
    before: ClassModel,
    after: ClassModel,
    entry: DictEntry,
    place: Option<usize>,
    name: Seq<char>,
    other: Seq<char>,
    value: Value,
)
    requires
        vm.text_of(entry.key) == Some(name),
        entry.hash == hash_of_text(name),
        text_place(vm, before.namespace, name, entry.hash, place),
        after.namespace == before.namespace.with_entry(entry, place),
        before.namespace.entries.len() < usize::MAX,
        other != name,
    ensures
        own_member(vm, after, other, value) <==> own_member(vm, before, other, value),
        lacks_member(vm, after, other) <==> lacks_member(vm, before, other),
{
    let hash = hash_of_text(other);
    let a = before.namespace.entries;
    let b = after.namespace.entries;
    let at = match place {
        Some(i) => i as int,
        None => a.len() as int,
    };
    assert(b[at] == entry);
    assert forall|i: int| 0 <= i < a.len() && i != at implies a[i] == #[trigger] b[i] by {}
    if own_member(vm, before, other, value) {
        let i = choose|place: usize| #[trigger]
            text_place(vm, before.namespace, other, hash, Some(place)) && a[place as int].value == value;
        assert(b[i as int] == a[i as int]);
        assert(text_place(vm, after.namespace, other, hash, Some(i)));
    }
    if own_member(vm, after, other, value) {
        let i = choose|place: usize| #[trigger]
            text_place(vm, after.namespace, other, hash, Some(place)) && b[place as int].value == value;
        assert(b[i as int] == a[i as int]);
        assert(text_place(vm, before.namespace, other, hash, Some(i)));
    }
    if lacks_member(vm, before, other) {
        assert forall|i: int| 0 <= i < b.len() && (#[trigger] b[i]).hash == hash implies vm.text_of(b[i].key) != Some(
            other,
        ) by {
            if i != at {
                assert(a[i] == b[i]);
            }
        }
    }
    if lacks_member(vm, after, other) {
        assert forall|i: int| 0 <= i < a.len() && (#[trigger] a[i]).hash == hash implies vm.text_of(a[i].key) != Some(
            other,
        ) by {
            if i != at {
                assert(b[i] == a[i]);
            }
        }
    }
}

/// What the host knows a class by stays the same, however often it is asked
/// for.
pub proof fn law_class_identity_is_stable(uuid: Option<u128>, first: u128, later: u128)
    ensures
        known_by(Some(known_by(uuid, first)), later) == known_by(uuid, first),
{
}

} // verus!
