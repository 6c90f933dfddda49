//! Dictionaries, which keep the order in which their keys came.

use crate::deque::ref_ids;
use crate::exceptions::{RunError, RunResult};
use crate::heap::HeapRead;
use crate::resource_checks::{
    capped_product, capped_sum, checked, limit_error, memory_excess, run_error, saturating_product, ResourceError,
    ResourceTracker,
};
use crate::value::{HeapId, Value};
use vstd::prelude::*;

verus! {

/// One entry of a dictionary.
#[derive(Clone, Copy, Debug, PartialEq, Eq, Structural)]
pub struct DictEntry {
    pub key: Value,
    pub value: Value,
    /// The hash of the key.
    pub hash: u64,
}

/// A hash table of the places of entries.
#[verifier::external_body]
pub struct IndexTable {
    table: hashbrown::HashTable<usize>,
}

/// The places that a table holds, each with the hash it was put in with.
pub uninterp spec fn table_places(table: IndexTable) -> Map<usize, u64>;

/// Calls `HashTable::new` of hashbrown: a table that holds nothing.
#[verifier::external_body]
fn table_new() -> (table: IndexTable)
    ensures
        table_places(table).dom() == Set::<usize>::empty(),
{
    IndexTable { table: hashbrown::HashTable::new() }
}

/// Calls `HashTable::clear` of hashbrown: takes everything out of the table.
#[verifier::external_body]
fn table_clear(table: &mut IndexTable)
    ensures
        table_places(*final(table)).dom() == Set::<usize>::empty(),
{
    table.table.clear();
}

/// The table holds only places of entries, each with the hash of its entry.
pub open spec fn agrees_with(table: IndexTable, entries: Seq<DictEntry>) -> bool {
    forall|place: usize| #[trigger]
        table_places(table).dom().contains(place) ==> place < entries.len() && table_places(table)[place]
            == entries[place as int].hash
}

/// Calls `HashTable::insert_unique` of hashbrown: puts a place in with a hash.
/// The hashes of the places that it may have to move are those of the entries.
#[verifier::external_body]
fn table_insert_unique(table: &mut IndexTable, hash: u64, place: usize, entries: &Vec<DictEntry>)
    requires
        agrees_with(*old(table), entries@),
        !table_places(*old(table)).dom().contains(place),
    ensures
        table_places(*final(table)) == table_places(*old(table)).insert(place, hash),
{
    table.table.insert_unique(hash, place, |held| entries[*held].hash);
}

/// Calls `HashTable::iter_hash` of hashbrown: every place that was put in with
/// this hash, in an order that is left open, and maybe others that the table
/// holds.
#[verifier::external_body]
fn table_iter_hash(table: &IndexTable, hash: u64) -> (places: Vec<usize>)
    ensures
        forall|i: int| 0 <= i < places@.len() ==> table_places(*table).dom().contains(#[trigger] places@[i]),
        forall|place: usize| #[trigger]
            table_places(*table).dom().contains(place) && table_places(*table)[place] == hash ==> places@.contains(
                place,
            ),
{
    table.table.iter_hash(hash).copied().collect()
}

/// Calls `HashTable::capacity` of hashbrown: how many places fit before the
/// table grows, which is left open.
#[verifier::external_body]
fn table_capacity(table: &IndexTable) -> (capacity: usize) {
    table.table.capacity()
}

/// Calls `Vec::capacity` of the standard library: how many entries fit before
/// the list grows, which is left open.
#[verifier::external_body]
fn entries_capacity(entries: &Vec<DictEntry>) -> (capacity: usize) {
    entries.capacity()
}

/// What a dictionary is besides a mapping.
#[derive(Clone, Copy, Debug, PartialEq, Eq, Structural)]
pub enum DictSpecial {
    /// It makes a value for a missing key where it has a factory.
    Default(Option<Value>),
    /// It counts, and a missing key counts nothing.
    Counter,
}

/// The kind of a dictionary.
#[derive(Clone, Copy, Debug, PartialEq, Eq, Structural)]
pub struct DictKind {
    pub special: Option<DictSpecial>,
}

impl DictKind {
    /// A plain dictionary.
    pub fn plain() -> (kind: DictKind)
        ensures
            kind.special is None,
    {
        DictKind { special: None }
    }

    /// A dictionary with a factory for missing keys, or with none.
    pub fn defaultdict(factory: Option<Value>) -> (kind: DictKind)
        ensures
            kind.special == Some(DictSpecial::Default(factory)),
    {
        DictKind { special: Some(DictSpecial::Default(factory)) }
    }

    /// A dictionary that counts.
    pub fn counter() -> (kind: DictKind)
        ensures
            kind.special == Some(DictSpecial::Counter),
    {
        DictKind { special: Some(DictSpecial::Counter) }
    }
}

/// The factory of a kind, where it has one.
pub open spec fn factory_of(kind: DictKind) -> Option<Value> {
    match kind.special {
        Some(DictSpecial::Default(factory)) => factory,
        _ => None,
    }
}

/// The factory of a kind is a reference.
pub open spec fn factory_ref(kind: DictKind) -> bool {
    factory_of(kind) matches Some(Value::Ref(_))
}

/// A dictionary.
pub struct Dict {
    /// Finds entries by the hashes of their keys.
    pub indices: IndexTable,
    /// The entries in the order in which their keys came.
    pub entries: Vec<DictEntry>,
    /// Whether a key, a value or the factory may be a reference.
    pub contains_refs: bool,
    pub kind: DictKind,
}

/// A dictionary as a mathematical value.
#[verifier::ext_equal]
pub struct DictModel {
    pub entries: Seq<DictEntry>,
    pub contains_refs: bool,
    pub kind: DictKind,
}

impl View for Dict {
    type V = DictModel;

    open spec fn view(&self) -> DictModel {
        DictModel { entries: self.entries@, contains_refs: self.contains_refs, kind: self.kind }
    }
}

/// The entry holds a reference.
pub open spec fn entry_ref(entry: DictEntry) -> bool {
    entry.key is Ref || entry.value is Ref
}

impl DictModel {
    /// The dictionary says so where it may hold a reference.
    pub open spec fn marked(self) -> bool {
        &&& forall|i: int| 0 <= i < self.entries.len() && entry_ref(#[trigger] self.entries[i]) ==> self.contains_refs
        &&& factory_ref(self.kind) ==> self.contains_refs
    }

    /// The dictionary with an entry: in the place of another, or at the end.
    pub open spec fn with_entry(self, entry: DictEntry, place: Option<usize>) -> DictModel {
        DictModel {
            entries: match place {
                Some(i) => self.entries.update(i as int, entry),
                None => self.entries.push(entry),
            },
            contains_refs: self.contains_refs || entry_ref(entry),
            ..self
        }
    }

    /// The dictionary without the entry at a place.
    pub open spec fn without(self, place: int) -> DictModel {
        DictModel { entries: self.entries.remove(place), ..self }
    }
}

impl Dict {
    /// The table holds the place of every entry, and no other.
    pub open spec fn indexed(self) -> bool {
        &&& agrees_with(self.indices, self.entries@)
        &&& forall|place: usize|
            place < self.entries@.len() ==> #[trigger] table_places(self.indices).dom().contains(place)
    }

    /// The table holds the place of every entry, and the marks are right.
    pub open spec fn wf(self) -> bool {
        &&& self.indexed()
        &&& self@.marked()
    }

    /// An empty dictionary.
    pub fn new() -> (dict: Dict)
        ensures
            dict.wf(),
            dict@.entries == Seq::<DictEntry>::empty(),
            !dict@.contains_refs,
            dict@.kind.special is None,
    {
        Dict { indices: table_new(), entries: Vec::new(), contains_refs: false, kind: DictKind::plain() }
    }

    /// An empty dictionary that is to hold about so many entries.
    pub fn with_capacity(capacity: usize) -> (dict: Dict)
        ensures
            dict.wf(),
            dict@.entries == Seq::<DictEntry>::empty(),
            !dict@.contains_refs,
            dict@.kind.special is None,
    {
        Dict {
            indices: table_new(),
            entries: Vec::with_capacity(capacity),
            contains_refs: false,
            kind: DictKind::plain(),
        }
    }

    /// Gives the dictionary a factory for missing keys.
    pub fn make_defaultdict(&mut self, factory: Option<Value>)
        requires
            old(self).wf(),
        ensures
            final(self).wf(),
            final(self)@ == (DictModel {
                contains_refs: old(self)@.contains_refs || factory matches Some(Value::Ref(_)),
                kind: DictKind { special: Some(DictSpecial::Default(factory)) },
                ..old(self)@
            }),
    {
        self.set_kind(DictKind::defaultdict(factory));
    }

    /// Says whether the dictionary has a factory, or could have one.
    pub fn is_defaultdict(&self) -> (found: bool)
        ensures
            found == (self@.kind.special matches Some(DictSpecial::Default(_))),
    {
        match self.kind.special {
            Some(DictSpecial::Default(_)) => true,
            _ => false,
        }
    }

    /// Makes the dictionary one that counts.
    pub fn make_counter(&mut self)
        requires
            old(self).wf(),
        ensures
            final(self).wf(),
            final(self)@ == (DictModel { kind: DictKind { special: Some(DictSpecial::Counter) }, ..old(self)@ }),
    {
        self.kind = DictKind::counter();
    }

    /// Says whether the dictionary counts.
    pub fn is_counter(&self) -> (found: bool)
        ensures
            found == (self@.kind.special == Some(DictSpecial::Counter)),
    {
        match self.kind.special {
            Some(DictSpecial::Counter) => true,
            _ => false,
        }
    }

    /// The kind, for a dictionary that is made from this one.
    pub fn cloned_kind(&self) -> (kind: DictKind)
        ensures
            kind == self@.kind,
    {
        self.kind
    }

    /// Takes over a kind.
    pub fn set_kind(&mut self, kind: DictKind)
        requires
            old(self).wf(),
        ensures
            final(self).wf(),
            final(self)@ == (DictModel {
                contains_refs: old(self)@.contains_refs || factory_ref(kind),
                kind,
                ..old(self)@
            }),
    {
        match kind.special {
            Some(DictSpecial::Default(Some(Value::Ref(_)))) => {
                self.contains_refs = true;
            },
            _ => {},
        }
        self.kind = kind;
    }

    /// The name of the type.
    pub fn kind_name(&self) -> (name: &'static str)
        ensures
            name@ == kind_name_of(self@.kind),
    {
        match self.kind.special {
            None => "dict",
            Some(DictSpecial::Default(_)) => "collections.defaultdict",
            Some(DictSpecial::Counter) => "collections.Counter",
        }
    }

    /// The factory, where there is one.
    pub fn default_factory(&self) -> (factory: Option<Value>)
        ensures
            factory == factory_of(self@.kind),
    {
        match self.kind.special {
            Some(DictSpecial::Default(factory)) => factory,
            _ => None,
        }
    }

    /// Puts another factory in and hands back the one before.
    pub fn replace_default_factory(&mut self, factory: Option<Value>) -> (before: Option<Value>)
        requires
            old(self).wf(),
        ensures
            final(self).wf(),
            before == factory_of(old(self)@.kind),
            final(self)@ == (DictModel {
                contains_refs: old(self)@.contains_refs || factory matches Some(Value::Ref(_)),
                kind: DictKind { special: Some(DictSpecial::Default(factory)) },
                ..old(self)@
            }),
    {
        let before = self.default_factory();
        self.set_kind(DictKind::defaultdict(factory));
        before
    }

    /// Whether something that the dictionary holds may be a reference.
    pub fn has_refs(&self) -> (found: bool)
        ensures
            found == self@.contains_refs,
    {
        self.contains_refs
    }

    /// How many entries there are.
    pub fn len(&self) -> (len: usize)
        ensures
            len == self@.entries.len(),
    {
        self.entries.len()
    }

    /// Says whether there are no entries.
    pub fn is_empty(&self) -> (empty: bool)
        ensures
            empty == (self@.entries.len() == 0),
    {
        self.entries.len() == 0
    }

    /// The keys and values, in order.
    pub fn iter(&self) -> (pairs: Vec<(Value, Value)>)
        ensures
            pairs@ == pairs_of(self@.entries),
    {
        let mut pairs: Vec<(Value, Value)> = Vec::new();
        let mut i: usize = 0;
        while i < self.entries.len()
            invariant
                i <= self.entries@.len(),
                pairs@.len() == i,
                forall|j: int| 0 <= j < i ==> pairs@[j] == (self.entries@[j].key, self.entries@[j].value),
            decreases self.entries@.len() - i,
        {
            pairs.push((self.entries[i].key, self.entries[i].value));
            i = i + 1;
        }
        assert(pairs@ =~= pairs_of(self@.entries));
        pairs
    }

    /// The key at a place.
    pub fn key_at(&self, index: usize) -> (key: Option<Value>)
        ensures
            key == if index < self@.entries.len() {
                Some(self@.entries[index as int].key)
            } else {
                None
            },
    {
        if index < self.entries.len() {
            Some(self.entries[index].key)
        } else {
            None
        }
    }

    /// The value at a place.
    pub fn value_at(&self, index: usize) -> (value: Option<Value>)
        ensures
            value == if index < self@.entries.len() {
                Some(self@.entries[index as int].value)
            } else {
                None
            },
    {
        if index < self.entries.len() {
            Some(self.entries[index].value)
        } else {
            None
        }
    }

    /// The key and the value at a place.
    pub fn item_at(&self, index: usize) -> (item: Option<(Value, Value)>)
        ensures
            item == if index < self@.entries.len() {
                Some((self@.entries[index as int].key, self@.entries[index as int].value))
            } else {
                None
            },
    {
        if index < self.entries.len() {
            Some((self.entries[index].key, self.entries[index].value))
        } else {
            None
        }
    }

    /// The places of the entries with a hash, in an order that is left open.
    pub fn candidates(&self, hash: u64) -> (places: Vec<usize>)
        requires
            self.wf(),
        ensures
            are_candidates(self@, hash, places@),
    {
        let held = table_iter_hash(&self.indices, hash);
        let mut places: Vec<usize> = Vec::new();
        let mut i: usize = 0;
        while i < held.len()
            invariant
                i <= held@.len(),
                self.wf(),
                forall|j: int| 0 <= j < held@.len() ==> table_places(self.indices).dom().contains(#[trigger] held@[j]),
                forall|j: int|
                    0 <= j < places@.len() ==> (#[trigger] places@[j]) < self@.entries.len() && self@.entries[places@[j]
                        as int].hash == hash,
                forall|j: int|
                    0 <= j < i && self@.entries[held@[j] as int].hash == hash ==> places@.contains(#[trigger] held@[j]),
            decreases held@.len() - i,
        {
            let place: usize = held[i];
            assert(table_places(self.indices).dom().contains(held@[i as int]));
            if self.entries[place].hash == hash {
                let ghost before = places@;
                places.push(place);
                proof {
                    assert forall|j: int| 0 <= j < i + 1 && self@.entries[held@[j] as int].hash == hash implies places@.contains(
                        #[trigger] held@[j],
                    ) by {
                        if j < i {
                            assert(before.contains(held@[j]));
                            let k = choose|k: int| 0 <= k < before.len() && before[k] == held@[j];
                            assert(places@[k] == held@[j]);
                        } else {
                            assert(places@[before.len() as int] == held@[j]);
                        }
                    }
                }
            }
            i = i + 1;
        }
        proof {
            assert forall|p: usize| p < self@.entries.len() && self@.entries[p as int].hash == hash implies #[trigger] places@.contains(
                p,
            ) by {
                assert(table_places(self.indices).dom().contains(p));
                assert(held@.contains(p));
                let j = choose|j: int| 0 <= j < held@.len() && held@[j] == p;
                assert(places@.contains(held@[j]));
            }
        }
        places
    }

    /// Puts an entry in the place of another.
    fn replace(&mut self, place: usize, entry: DictEntry) -> (before: DictEntry)
        requires
            old(self).wf(),
            place < old(self)@.entries.len(),
            old(self)@.entries[place as int].hash == entry.hash,
        ensures
            final(self).wf(),
            before == old(self)@.entries[place as int],
            final(self)@ == old(self)@.with_entry(entry, Some(place)),
    {
        let ghost start = self@;
        let before: DictEntry = self.entries[place];
        self.mark(entry);
        self.entries.set(place, entry);
        assert(self@.entries =~= start.entries.update(place as int, entry));
        before
    }

    /// Marks that an entry with a reference is put in.
    fn mark(&mut self, entry: DictEntry)
        ensures
            final(self)@ == (DictModel {
                contains_refs: old(self)@.contains_refs || entry_ref(entry),
                ..old(self)@
            }),
            final(self).indices == old(self).indices,
            final(self).entries == old(self).entries,
    {
        match entry.key {
            Value::Ref(_) => {
                self.contains_refs = true;
            },
            _ => {},
        }
        match entry.value {
            Value::Ref(_) => {
                self.contains_refs = true;
            },
            _ => {},
        }
    }

    /// Puts an entry in at the end.
    fn push(&mut self, entry: DictEntry)
        requires
            old(self).wf(),
        ensures
            final(self).wf(),
            final(self)@ == old(self)@.with_entry(entry, None),
    {
        let ghost start = self@;
        let place: usize = self.entries.len();
        self.mark(entry);
        self.entries.push(entry);
        table_insert_unique(&mut self.indices, entry.hash, place, &self.entries);
        assert(self@.entries =~= start.entries.push(entry));
    }

    /// A dictionary with the parts of a saved one: its table is made anew from
    /// the entries, so that all of them are found again.
    pub fn from_parts(entries: Vec<DictEntry>, contains_refs: bool, kind: DictKind) -> (dict: Dict)
        ensures
            dict@ == (DictModel { entries: entries@, contains_refs, kind }),
            dict.indexed(),
            dict@.marked() ==> dict.wf(),
    {
        let mut dict = Dict { indices: table_new(), entries, contains_refs, kind };
        dict.rebuild();
        dict
    }

    /// The table with the places of all entries, made anew.
    fn rebuild(&mut self)
        ensures
            final(self).indexed(),
            final(self)@ == old(self)@,
    {
        table_clear(&mut self.indices);
        let mut place: usize = 0;
        while place < self.entries.len()
            invariant
                place <= self.entries@.len(),
                self@ == old(self)@,
                agrees_with(self.indices, self.entries@),
                forall|p: usize| #[trigger] table_places(self.indices).dom().contains(p) <==> p < place,
            decreases self.entries@.len() - place,
        {
            let hash: u64 = self.entries[place].hash;
            table_insert_unique(&mut self.indices, hash, place, &self.entries);
            place = place + 1;
        }
    }

    /// Takes the entry at a place out.
    pub fn remove_at(&mut self, place: usize) -> (entry: DictEntry)
        requires
            old(self).wf(),
            place < old(self)@.entries.len(),
        ensures
            final(self).wf(),
            entry == old(self)@.entries[place as int],
            final(self)@ == old(self)@.without(place as int),
    {
        let ghost start = self@;
        let entry: DictEntry = self.entries.remove(place);
        proof {
            assert(self@.entries =~= start.entries.remove(place as int));
            assert forall|i: int| 0 <= i < self@.entries.len() && entry_ref(#[trigger] self@.entries[i]) implies self@.contains_refs by {
                if i < place {
                    assert(entry_ref(start.entries[i]));
                } else {
                    assert(entry_ref(start.entries[i + 1]));
                }
            }
        }
        self.rebuild();
        entry
    }

    /// Takes all entries out.
    pub fn clear(&mut self)
        requires
            old(self).wf(),
        ensures
            final(self).wf(),
            final(self)@ == (DictModel { entries: Seq::empty(), ..old(self)@ }),
    {
        table_clear(&mut self.indices);
        self.entries.clear();
    }

    /// Lists the items of the heap that the dictionary keeps alive: the
    /// factory, and then the key and the value of each entry.
    pub fn py_dec_ref_ids(&mut self, stack: &mut Vec<HeapId>)
        requires
            old(self).wf(),
        ensures
            final(self)@ == old(self)@,
            final(stack)@ == old(stack)@ + dict_ref_ids(old(self)@),
    {
        let ghost before = stack@;
        let ghost entries = self@.entries;
        match self.kind.special {
            Some(DictSpecial::Default(Some(Value::Ref(id)))) => {
                stack.push(id);
            },
            _ => {},
        }
        let ghost lead = factory_ids(self@.kind);
        assert(stack@ =~= before + lead);
        if !self.contains_refs {
            proof {
                lemma_no_entry_ids(entries, 0);
                assert(before + lead =~= before + (lead + Seq::<HeapId>::empty()));
            }
            return;
        }
        let mut i: usize = 0;
        assert(stack@ + entry_ids(entries, 0) =~= before + (lead + entry_ids(entries, 0)));
        while i < self.entries.len()
            invariant
                i <= entries.len(),
                entries == self.entries@,
                self@ == old(self)@,
                lead == factory_ids(self@.kind),
                before == old(stack)@,
                stack@ + entry_ids(entries, i as int) == before + (lead + entry_ids(entries, 0)),
            decreases entries.len() - i,
        {
            let ghost done = stack@;
            let entry: DictEntry = self.entries[i];
            match entry.key {
                Value::Ref(id) => {
                    stack.push(id);
                },
                _ => {},
            }
            match entry.value {
                Value::Ref(id) => {
                    stack.push(id);
                },
                _ => {},
            }
            proof {
                let rest = entry_ids(entries, i + 1);
                assert(stack@ + rest =~= done + (ref_ids(seq![entry.key, entry.value], 0) + rest)) by {
                    reveal_with_fuel(ref_ids, 3);
                }
            }
            i = i + 1;
        }
        assert(stack@ + Seq::<HeapId>::empty() =~= stack@);
    }
}

/// The keys and values of entries.
pub open spec fn pairs_of(entries: Seq<DictEntry>) -> Seq<(Value, Value)> {
    Seq::new(entries.len(), |i: int| (entries[i].key, entries[i].value))
}

/// The name of a kind's type.
pub open spec fn kind_name_of(kind: DictKind) -> Seq<char> {
    match kind.special {
        None => "dict"@,
        Some(DictSpecial::Default(_)) => "collections.defaultdict"@,
        Some(DictSpecial::Counter) => "collections.Counter"@,
    }
}

/// The places are exactly those of the entries with a hash.
pub open spec fn are_candidates(dict: DictModel, hash: u64, places: Seq<usize>) -> bool {
    &&& forall|j: int|
        0 <= j < places.len() ==> (#[trigger] places[j]) < dict.entries.len() && dict.entries[places[j] as int].hash
            == hash
    &&& forall|p: usize|
        p < dict.entries.len() && dict.entries[p as int].hash == hash ==> #[trigger] places.contains(p)
}

/// The factory's item of the heap, where it has one.
pub open spec fn factory_ids(kind: DictKind) -> Seq<HeapId> {
    match factory_of(kind) {
        Some(Value::Ref(id)) => seq![id],
        _ => Seq::empty(),
    }
}

/// The items of the heap that entries refer to, from `i` on.
pub open spec fn entry_ids(entries: Seq<DictEntry>, i: int) -> Seq<HeapId>
    decreases entries.len() - i,
{
    if i < 0 || i >= entries.len() {
        Seq::empty()
    } else {
        ref_ids(seq![entries[i].key, entries[i].value], 0) + entry_ids(entries, i + 1)
    }
}

/// The items of the heap that a dictionary refers to.
pub open spec fn dict_ref_ids(dict: DictModel) -> Seq<HeapId> {
    factory_ids(dict.kind) + entry_ids(dict.entries, 0)
}

/// Entries without references refer to nothing.
proof fn lemma_no_entry_ids(entries: Seq<DictEntry>, i: int)
    requires
        0 <= i,
        forall|j: int| 0 <= j < entries.len() ==> !entry_ref(#[trigger] entries[j]),
    ensures
        entry_ids(entries, i) == Seq::<HeapId>::empty(),
    decreases entries.len() - i,
{
    if i < entries.len() {
        lemma_no_entry_ids(entries, i + 1);
        assert(!entry_ref(entries[i]));
        reveal_with_fuel(ref_ids, 3);
        assert(entry_ids(entries, i) =~= Seq::<HeapId>::empty());
    }
}

/// The bytes that a list and a table that hold `len` entries and may hold
/// `capacity` take more, once one more is put in.
pub open spec fn growth_of(len: int, capacity: int, item_size: int) -> int {
    if len < capacity {
        0
    } else {
        let more = if capacity < 4 {
            4
        } else {
            capacity
        };
        more * item_size
    }
}

/// How many bytes an entry takes.
pub const ENTRY_SIZE: usize = 40;

/// How many bytes a place takes in the table.
pub const PLACE_SIZE: usize = 9;

/// The bytes that a list or a table takes more, once one more is put in, at
/// most as many as can be counted.
fn growth(len: usize, capacity: usize, item_size: usize) -> (bytes: usize)
    ensures
        bytes == capped_product(growth_of(len as int, capacity as int, item_size as int), 1, usize::MAX as int),
{
    if len < capacity {
        0
    } else {
        saturating_product(
            if capacity < 4 {
                4
            } else {
                capacity
            },
            item_size,
        )
    }
}

/// The bytes that a dictionary of `len` entries takes more for one more entry,
/// where its list and its table have room for so many.
pub open spec fn grown_bytes(len: int, list_capacity: int, table_capacity: int) -> int {
    capped_sum(
        growth_of(len, list_capacity, ENTRY_SIZE as int),
        growth_of(len, table_capacity, PLACE_SIZE as int),
        usize::MAX as int,
    )
}

/// The error of one more entry, where its memory is more than is allowed.
pub open spec fn growth_excess(tracker: ResourceTracker, len: int, list_capacity: usize, table_capacity: usize) -> Option<
    ResourceError,
> {
    memory_excess(tracker, grown_bytes(len, list_capacity as int, table_capacity as int) as usize)
}

/// The error refuses one more entry of a dictionary of `len`, for the room that
/// there is in its list and its table.
pub open spec fn refuses_memory(tracker: ResourceTracker, len: int, error: RunError) -> bool {
    exists|list_capacity: usize, table_capacity: usize| #[trigger]
        growth_excess(tracker, len, list_capacity, table_capacity) matches Some(limit) && error@ == limit_error(limit)
}

/// One more entry of a dictionary of `len` is allowed, for the room that there
/// is in its list and its table.
pub open spec fn allows_memory(tracker: ResourceTracker, len: int) -> bool {
    exists|list_capacity: usize, table_capacity: usize| #[trigger]
        growth_excess(tracker, len, list_capacity, table_capacity) is None
}

/// Holds the bytes that one more entry takes against the memory limit.
pub fn check_growth(len: usize, list_capacity: usize, table_capacity: usize, tracker: &ResourceTracker) -> (allowed:
    Result<(), ResourceError>)
    ensures
        checked(allowed, growth_excess(*tracker, len as int, list_capacity, table_capacity)),
{
    let list: usize = growth(len, list_capacity, ENTRY_SIZE);
    let table: usize = growth(len, table_capacity, PLACE_SIZE);
    let extra: usize = list.saturating_add(table);
    assert(extra == grown_bytes(len as int, list_capacity as int, table_capacity as int));
    tracker.check_large_result(extra)
}

/// Refuses an entry that would make the dictionary grow beyond the memory
/// limit. How much it grows depends on how much room there is, which is left
/// open.
pub fn check_dict_growth(dict: &Dict, tracker: &ResourceTracker) -> (allowed: RunResult<()>)
    ensures
        match allowed {
            Ok(_) => allows_memory(*tracker, dict@.entries.len() as int),
            Err(error) => refuses_memory(*tracker, dict@.entries.len() as int, error),
        },
{
    let list_room: usize = entries_capacity(&dict.entries);
    let table_room: usize = table_capacity(&dict.indices);
    match check_growth(dict.entries.len(), list_room, table_room, tracker) {
        Ok(_) => {
            assert(growth_excess(*tracker, dict@.entries.len() as int, list_room, table_room) is None);
            Ok(())
        },
        Err(limit) => {
            let error = run_error(limit);
            assert(growth_excess(*tracker, dict@.entries.len() as int, list_room, table_room) matches Some(
                limit,
            ) && error@ == limit_error(limit));
            Err(error)
        },
    }
}

/// A dictionary with room in its list and its table takes no more memory for
/// one more entry.
pub proof fn law_room_takes_no_memory(len: int, list_capacity: int, table_capacity: int)
    requires
        len < list_capacity,
        len < table_capacity,
    ensures
        grown_bytes(len, list_capacity, table_capacity) == 0,
{
}

/// Without a memory limit no entry is refused.
pub proof fn law_unlimited_dicts_grow(tracker: ResourceTracker, len: int, error: RunError)
    requires
        tracker.max_memory is None,
    ensures
        !refuses_memory(tracker, len, error),
{
}

/// What setting a key gives: the value before, where the key was there. Where
/// it was not, the memory limit may refuse the entry, and then only the mark
/// stays.
pub open spec fn set_outcome(
    before: DictModel,
    after: DictModel,
    entry: DictEntry,
    place: Option<usize>,
    tracker: Option<ResourceTracker>,
    result: RunResult<Option<Value>>,
) -> bool {
    match result {
        Ok(old_value) => {
            &&& place is None ==> (tracker matches Some(tracker) ==> allows_memory(
                tracker,
                before.entries.len() as int,
            ))
            &&& after == before.with_entry(entry, place)
            &&& old_value == match place {
                Some(i) => Some(before.entries[i as int].value),
                None => None,
            }
        },
        Err(error) => {
            &&& place is None
            &&& tracker matches Some(tracker) && refuses_memory(tracker, before.entries.len() as int, error)
            &&& after == (DictModel { contains_refs: before.contains_refs || entry_ref(entry), ..before })
        },
    }
}

impl Dict {
    /// Sets the value of a key. `place` is where the key stands, where it is
    /// there. The key is replaced too and the order stays.
    pub fn set_with(&mut self, entry: DictEntry, place: Option<usize>, tracker: Option<&ResourceTracker>) -> (result:
        RunResult<Option<Value>>)
        requires
            old(self).wf(),
            place matches Some(i) ==> i < old(self)@.entries.len() && old(self)@.entries[i as int].hash == entry.hash,
        ensures
            final(self).wf(),
            set_outcome(
                old(self)@,
                final(self)@,
                entry,
                place,
                match tracker {
                    Some(tracker) => Some(*tracker),
                    None => None,
                },
                result,
            ),
    {
        match place {
            Some(i) => {
                let before = self.replace(i, entry);
                Ok(Some(before.value))
            },
            None => {
                match tracker {
                    Some(tracker) => {
                        match check_dict_growth(self, tracker) {
                            Ok(_) => {},
                            Err(error) => {
                                self.mark(entry);
                                return Err(error);
                            },
                        }
                    },
                    None => {},
                }
                self.push(entry);
                Ok(None)
            },
        }
    }

    /// Sets the value of a key, held against the memory limit.
    pub fn set(&mut self, entry: DictEntry, place: Option<usize>, tracker: &ResourceTracker) -> (result: RunResult<
        Option<Value>,
    >)
        requires
            old(self).wf(),
            place matches Some(i) ==> i < old(self)@.entries.len() && old(self)@.entries[i as int].hash == entry.hash,
        ensures
            final(self).wf(),
            set_outcome(old(self)@, final(self)@, entry, place, Some(*tracker), result),
    {
        self.set_with(entry, place, Some(tracker))
    }

    /// Sets the value of a key, whatever memory it takes.
    pub fn set_without_growth_check(&mut self, entry: DictEntry, place: Option<usize>) -> (old_value: Option<Value>)
        requires
            old(self).wf(),
            place matches Some(i) ==> i < old(self)@.entries.len() && old(self)@.entries[i as int].hash == entry.hash,
        ensures
            final(self).wf(),
            set_outcome(old(self)@, final(self)@, entry, place, None, Ok::<Option<Value>, RunError>(old_value)),
    {
        match self.set_with(entry, place, None) {
            Ok(old_value) => old_value,
            Err(_) => {
                assert(false);
                None
            },
        }
    }
}

impl HeapRead<Dict> {
    /// Sets the value of a key, held against the memory limit.
    pub fn set(&mut self, entry: DictEntry, place: Option<usize>, tracker: &ResourceTracker) -> (result: RunResult<
        Option<Value>,
    >)
        requires
            old(self).item.wf(),
            place matches Some(i) ==> i < old(self).item@.entries.len() && old(self).item@.entries[i as int].hash
                == entry.hash,
        ensures
            final(self).item.wf(),
            set_outcome(old(self).item@, final(self).item@, entry, place, Some(*tracker), result),
    {
        self.item.set(entry, place, tracker)
    }

    /// Sets the value of a key, whatever memory it takes.
    pub fn set_without_growth_check(&mut self, entry: DictEntry, place: Option<usize>) -> (old_value: Option<Value>)
        requires
            old(self).item.wf(),
            place matches Some(i) ==> i < old(self).item@.entries.len() && old(self).item@.entries[i as int].hash
                == entry.hash,
        ensures
            final(self).item.wf(),
            set_outcome(old(self).item@, final(self).item@, entry, place, None, Ok::<Option<Value>, RunError>(old_value)),
    {
        self.item.set_without_growth_check(entry, place)
    }

    /// Takes a key and its value out. `place` is where the key stands, where
    /// it is there.
    pub fn pop(&mut self, place: Option<usize>) -> (pair: Option<(Value, Value)>)
        requires
            old(self).item.wf(),
            place matches Some(i) ==> i < old(self).item@.entries.len(),
        ensures
            final(self).item.wf(),
            match place {
                Some(i) => {
                    &&& pair == Some(
                        (old(self).item@.entries[i as int].key, old(self).item@.entries[i as int].value),
                    )
                    &&& final(self).item@ == old(self).item@.without(i as int)
                },
                None => pair is None && final(self).item@ == old(self).item@,
            },
    {
        match place {
            Some(i) => {
                let entry = self.item.remove_at(i);
                Some((entry.key, entry.value))
            },
            None => None,
        }
    }
}

/// A dictionary without a memory limit takes every key.
pub proof fn law_unlimited_set_succeeds(
    before: DictModel,
    after: DictModel,
    entry: DictEntry,
    place: Option<usize>,
    tracker: ResourceTracker,
    result: RunResult<Option<Value>>,
)
    requires
        set_outcome(before, after, entry, place, Some(tracker), result),
        tracker.max_memory is None,
    ensures
        result is Ok,
{
}

/// Setting a key leaves the other entries and their order as they were.
pub proof fn law_set_keeps_the_others(dict: DictModel, entry: DictEntry, place: Option<usize>, i: int)
    requires
        0 <= i < dict.entries.len(),
        place matches Some(p) ==> p < dict.entries.len() && p as int != i,
    ensures
        dict.with_entry(entry, place).entries[i] == dict.entries[i],
{
}

/// Taking out a key that was put in at the end gives the entries back.
pub proof fn law_set_then_pop(dict: DictModel, entry: DictEntry)
    ensures
        dict.with_entry(entry, None).without(dict.entries.len() as int).entries == dict.entries,
{
    assert(dict.entries.push(entry).remove(dict.entries.len() as int) =~= dict.entries);
}

} // verus!
