//! Name collections: the hash set of names, the hash map from names to
//! slots, and the insertion-ordered scope of one comprehension.
//!
//! Hash collections are walked in ascending order of name, so everything
//! derived from a walk is a function of the contents alone.

use ahash::{AHashMap, AHashSet};
use indexmap::IndexMap;
use vstd::prelude::*;

verus! {

/// Identifier of an interned string.
pub type StringId = u32;

/// Index of a slot in a namespace.
pub type NamespaceId = u16;

#[verifier::external_type_specification]
#[verifier::external_body]
pub struct ExRandomState(ahash::RandomState);

#[verifier::external_type_specification]
#[verifier::external_body]
#[verifier::reject_recursive_types(T)]
#[verifier::reject_recursive_types(S)]
pub struct ExAHashSet<T, S>(AHashSet<T, S>);

#[verifier::external_type_specification]
#[verifier::external_body]
#[verifier::reject_recursive_types(K)]
#[verifier::reject_recursive_types(V)]
#[verifier::reject_recursive_types(S)]
pub struct ExAHashMap<K, V, S>(AHashMap<K, V, S>);

#[verifier::external_type_specification]
#[verifier::external_body]
#[verifier::reject_recursive_types(K)]
#[verifier::reject_recursive_types(V)]
#[verifier::reject_recursive_types(S)]
pub struct ExIndexMap<K, V, S>(IndexMap<K, V, S>);

/// The numbers held by an `AHashSet`.
pub uninterp spec fn ahash_set_items(set: AHashSet<u32>) -> Set<u32>;

/// The entries held by an `AHashMap`.
pub uninterp spec fn ahash_map_entries(map: AHashMap<u32, u16>) -> Map<u32, u16>;

/// The keys of an `IndexMap`, in the order of the index.
pub uninterp spec fn index_map_keys(map: IndexMap<u32, CompBinding, ahash::RandomState>) -> Seq<u32>;

/// The entries held by an `IndexMap`.
pub uninterp spec fn index_map_entries(
    map: IndexMap<u32, CompBinding, ahash::RandomState>,
) -> Map<u32, CompBinding>;

/// Calls `AHashSet::new`: a set that holds nothing.
#[verifier::external_body]
fn ahash_set_new() -> (set: AHashSet<u32>)
    ensures
        ahash_set_items(set) == Set::<u32>::empty(),
{
    AHashSet::new()
}

/// Calls `insert` of the hash set behind an `AHashSet`: adds the number and
/// says whether it was new.
#[verifier::external_body]
fn ahash_set_insert(set: &mut AHashSet<u32>, item: u32) -> (added: bool)
    ensures
        ahash_set_items(*final(set)) == ahash_set_items(*old(set)).insert(item),
        added == !ahash_set_items(*old(set)).contains(item),
{
    set.insert(item)
}

/// Calls `remove` of the hash set behind an `AHashSet`: takes the number out
/// and says whether it was there.
#[verifier::external_body]
fn ahash_set_remove(set: &mut AHashSet<u32>, item: u32) -> (removed: bool)
    ensures
        ahash_set_items(*final(set)) == ahash_set_items(*old(set)).remove(item),
        removed == ahash_set_items(*old(set)).contains(item),
{
    set.remove(&item)
}

/// Calls `contains` of the hash set behind an `AHashSet`.
#[verifier::external_body]
fn ahash_set_contains(set: &AHashSet<u32>, item: u32) -> (found: bool)
    ensures
        found == ahash_set_items(*set).contains(item),
{
    set.contains(&item)
}

/// Calls `iter` of the hash set behind an `AHashSet`: every number that the
/// set holds comes once, in an order that is left open.
#[verifier::external_body]
fn ahash_set_iter(set: &AHashSet<u32>) -> (items: Vec<u32>)
    ensures
        items@.no_duplicates(),
        items@.to_set() == ahash_set_items(*set),
{
    set.iter().copied().collect()
}

/// Calls `AHashMap::new`: a map that holds nothing.
#[verifier::external_body]
fn ahash_map_new() -> (fresh: AHashMap<u32, u16>)
    ensures
        ahash_map_entries(fresh).dom() == Set::<u32>::empty(),
{
    AHashMap::new()
}

/// Calls `AHashMap::insert`: the key maps to the value from now on, and what
/// it mapped to before is handed back.
#[verifier::external_body]
fn ahash_map_insert(map: &mut AHashMap<u32, u16>, key: u32, value: u16) -> (previous: Option<u16>)
    ensures
        ahash_map_entries(*final(map)) == ahash_map_entries(*old(map)).insert(key, value),
        previous == (if ahash_map_entries(*old(map)).contains_key(key) {
            Some(ahash_map_entries(*old(map))[key])
        } else {
            None
        }),
{
    map.insert(key, value)
}

/// Calls `AHashMap::get`: what the key maps to, if anything.
#[verifier::external_body]
fn ahash_map_get(map: &AHashMap<u32, u16>, key: u32) -> (value: Option<u16>)
    ensures
        value == (if ahash_map_entries(*map).contains_key(key) {
            Some(ahash_map_entries(*map)[key])
        } else {
            None
        }),
{
    map.get(&key).copied()
}

/// Calls `keys` of the hash map behind an `AHashMap`: every key comes once, in
/// an order that is left open.
#[verifier::external_body]
fn ahash_map_keys(map: &AHashMap<u32, u16>) -> (keys: Vec<u32>)
    ensures
        keys@.no_duplicates(),
        keys@.to_set() == ahash_map_entries(*map).dom(),
{
    map.keys().copied().collect()
}

/// Calls `IndexMap::default`: a map that holds nothing.
#[verifier::external_body]
fn index_map_default() -> (fresh: IndexMap<u32, CompBinding, ahash::RandomState>)
    ensures
        index_map_keys(fresh) == Seq::<u32>::empty(),
        index_map_entries(fresh).dom() == Set::<u32>::empty(),
{
    IndexMap::default()
}

/// Calls `IndexMap::insert`: a key that is present keeps its place and gets
/// the new value, a new key goes behind all others.
#[verifier::external_body]
fn index_map_insert(map: &mut IndexMap<u32, CompBinding, ahash::RandomState>, key: u32, value: CompBinding)
    ensures
        index_map_entries(*final(map)) == index_map_entries(*old(map)).insert(key, value),
        index_map_keys(*final(map)) == (if index_map_entries(*old(map)).contains_key(key) {
            index_map_keys(*old(map))
        } else {
            index_map_keys(*old(map)).push(key)
        }),
{
    map.insert(key, value);
}

/// Calls `IndexMap::get`: what the key maps to, if anything.
#[verifier::external_body]
fn index_map_get(map: &IndexMap<u32, CompBinding, ahash::RandomState>, key: u32) -> (value: Option<CompBinding>)
    ensures
        value == (if index_map_entries(*map).contains_key(key) {
            Some(index_map_entries(*map)[key])
        } else {
            None
        }),
{
    map.get(&key).copied()
}

/// Calls `IndexMap::keys`: the keys in the order of the index, every one of
/// them.
#[verifier::external_body]
fn index_map_key_list(map: &IndexMap<u32, CompBinding, ahash::RandomState>) -> (keys: Vec<u32>)
    ensures
        keys@ == index_map_keys(*map),
        keys@.to_set() == index_map_entries(*map).dom(),
{
    map.keys().copied().collect()
}

/// A sequence whose numbers strictly ascend.
pub open spec fn ascending(items: Seq<u32>) -> bool {
    forall|i: int, j: int| 0 <= i < j < items.len() ==> items[i] < items[j]
}

/// The names of a finite set, from the smallest to the largest.
pub open spec fn in_order(names: Set<StringId>) -> Seq<StringId> {
    choose|items: Seq<StringId>| ascending(items) && items.to_set() == names
}

/// Two ascending sequences with the same numbers are the same sequence.
proof fn lemma_ascending_unique(a: Seq<u32>, b: Seq<u32>)
    requires
        ascending(a),
        ascending(b),
        forall|x: u32| a.contains(x) == b.contains(x),
    ensures
        a == b,
    decreases a.len(),
{
    if a.len() == 0 {
        if b.len() > 0 {
            assert(b.contains(b[0]));
            assert(a.contains(b[0]));
        }
    } else {
        assert(a.contains(a.last()));
        assert(b.contains(a.last()));
        assert(b.contains(b.last()));
        assert(a.contains(b.last()));
        let i = b.index_of(a.last());
        let j = a.index_of(b.last());
        assert(a.last() == b.last());
        let c = a.drop_last();
        let d = b.drop_last();
        assert forall|x: u32| c.contains(x) == d.contains(x) by {
            if c.contains(x) {
                let k = c.index_of(x);
                assert(a[k] == x);
                assert(a.contains(x));
                let l = b.index_of(x);
                assert(b[l] == x);
                assert(x < b.last());
                assert(d[l] == x);
            }
            if d.contains(x) {
                let k = d.index_of(x);
                assert(b[k] == x);
                assert(b.contains(x));
                let l = a.index_of(x);
                assert(a[l] == x);
                assert(x < a.last());
                assert(c[l] == x);
            }
        }
        lemma_ascending_unique(c, d);
        assert(a == c.push(a.last()));
        assert(b == d.push(b.last()));
    }
}

/// A walk in ascending order of a set of names is the walk of that set.
pub proof fn lemma_in_order(names: Set<StringId>, items: Seq<StringId>)
    requires
        ascending(items),
        items.to_set() == names,
    ensures
        in_order(names) == items,
{
    let chosen = in_order(names);
    assert(ascending(chosen) && chosen.to_set() == names);
    assert forall|x: u32| chosen.contains(x) == items.contains(x) by {
        assert(chosen.to_set().contains(x) == items.to_set().contains(x));
    }
    lemma_ascending_unique(chosen, items);
}

/// Sorts numbers that differ from each other into ascending order.
fn sort_names(unsorted: Vec<u32>) -> (sorted: Vec<u32>)
    requires
        unsorted@.no_duplicates(),
    ensures
        ascending(sorted@),
        sorted@.to_set() == unsorted@.to_set(),
{
    let mut sorted: Vec<u32> = Vec::new();
    let mut i: usize = 0;
    while i < unsorted.len()
        invariant
            i <= unsorted@.len(),
            unsorted@.no_duplicates(),
            ascending(sorted@),
            forall|x: u32| sorted@.contains(x) <==> unsorted@.take(i as int).contains(x),
        decreases unsorted@.len() - i,
    {
        let item = unsorted[i];
        assert(!sorted@.contains(item)) by {
            if unsorted@.take(i as int).contains(item) {
                let k = unsorted@.take(i as int).index_of(item);
                assert(unsorted@[k] == unsorted@[i as int]);
            }
        }
        let mut at: usize = 0;
        while at < sorted.len() && sorted[at] < item
            invariant
                at <= sorted@.len(),
                forall|k: int| 0 <= k < at ==> sorted@[k] < item,
            decreases sorted@.len() - at,
        {
            at += 1;
        }
        let ghost before = sorted@;
        assert(at < before.len() ==> before[at as int] != item) by {
            if at < before.len() {
                assert(before.contains(before[at as int]));
            }
        }
        assert forall|k: int| at <= k < before.len() implies item < before[k] by {
            if k > at {
                assert(before[at as int] < before[k]);
            }
        }
        sorted.insert(at, item);
        assert(sorted@ == before.insert(at as int, item));
        assert forall|x: u32| sorted@.contains(x) <==> unsorted@.take(i + 1).contains(x) by {
            assert(unsorted@.take(i + 1) == unsorted@.take(i as int).push(item));
            if sorted@.contains(x) {
                let k = sorted@.index_of(x);
                if k < at {
                    assert(before[k] == x);
                    assert(before.contains(x));
                    let l = unsorted@.take(i as int).index_of(x);
                    assert(unsorted@.take(i + 1)[l] == x);
                } else if k == at {
                    assert(unsorted@.take(i + 1)[i as int] == x);
                } else {
                    assert(before[k - 1] == x);
                    assert(before.contains(x));
                    let l = unsorted@.take(i as int).index_of(x);
                    assert(unsorted@.take(i + 1)[l] == x);
                }
            }
            if unsorted@.take(i + 1).contains(x) {
                let l = unsorted@.take(i + 1).index_of(x);
                if l == i {
                    assert(sorted@[at as int] == x);
                } else {
                    assert(unsorted@.take(i as int)[l] == x);
                    assert(before.contains(x));
                    let k = before.index_of(x);
                    if k < at {
                        assert(sorted@[k] == x);
                    } else {
                        assert(sorted@[k + 1] == x);
                    }
                }
            }
        }
        i += 1;
    }
    assert(unsorted@.take(i as int) == unsorted@);
    assert(sorted@.to_set() =~= unsorted@.to_set());
    sorted
}

/// A set of names.
pub struct NameSet {
    names: AHashSet<u32>,
}

impl View for NameSet {
    type V = Set<StringId>;

    closed spec fn view(&self) -> Set<StringId> {
        ahash_set_items(self.names)
    }
}

impl NameSet {
    /// The empty set.
    pub fn new() -> (set: NameSet)
        ensures
            set@ == Set::<StringId>::empty(),
    {
        NameSet { names: ahash_set_new() }
    }

    /// Adds `name` and says whether it is new.
    pub fn insert(&mut self, name: StringId) -> (added: bool)
        ensures
            final(self)@ == old(self)@.insert(name),
            added == !old(self)@.contains(name),
    {
        ahash_set_insert(&mut self.names, name)
    }

    /// Takes `name` out and says whether it was there.
    pub fn remove(&mut self, name: StringId) -> (removed: bool)
        ensures
            final(self)@ == old(self)@.remove(name),
            removed == old(self)@.contains(name),
    {
        ahash_set_remove(&mut self.names, name)
    }

    /// Says whether the set holds `name`.
    pub fn contains(&self, name: StringId) -> (found: bool)
        ensures
            found == self@.contains(name),
    {
        ahash_set_contains(&self.names, name)
    }

    /// The names of the set, from the smallest to the largest.
    pub fn walk(&self) -> (names: Vec<StringId>)
        ensures
            ascending(names@),
            names@ == in_order(self@),
            names@.to_set() == self@,
    {
        let names = sort_names(ahash_set_iter(&self.names));
        proof {
            lemma_in_order(self@, names@);
        }
        names
    }

    /// Adds every name of `list`.
    pub fn insert_all(&mut self, list: &Vec<StringId>)
        ensures
            final(self)@ == old(self)@ + list@.to_set(),
    {
        let ghost start = self@;
        let mut i: usize = 0;
        while i < list.len()
            invariant
                i <= list@.len(),
                self@ == start + list@.take(i as int).to_set(),
            decreases list@.len() - i,
        {
            proof {
                assert(list@.take(i + 1) == list@.take(i as int).push(list@[i as int]));
                lemma_push_to_set(list@.take(i as int), list@[i as int]);
            }
            self.insert(list[i]);
            i += 1;
        }
        assert(list@.take(i as int) == list@);
    }

    /// Adds every name of `other`.
    pub fn add_all(&mut self, other: &NameSet)
        ensures
            final(self)@ == old(self)@ + other@,
    {
        let names = other.walk();
        self.insert_all(&names);
    }

    /// Takes every name of `other` out.
    pub fn remove_all(&mut self, other: &NameSet)
        ensures
            final(self)@ == old(self)@.difference(other@),
    {
        let names = other.walk();
        let ghost start = self@;
        let mut i: usize = 0;
        while i < names.len()
            invariant
                i <= names@.len(),
                self@ == start.difference(names@.take(i as int).to_set()),
            decreases names@.len() - i,
        {
            proof {
                assert(names@.take(i + 1) == names@.take(i as int).push(names@[i as int]));
                lemma_push_to_set(names@.take(i as int), names@[i as int]);
            }
            self.remove(names[i]);
            i += 1;
        }
        assert(names@.take(i as int) == names@);
    }

    /// The names that both sets hold.
    pub fn common(&self, other: &NameSet) -> (set: NameSet)
        ensures
            set@ == self@.intersect(other@),
    {
        let names = self.walk();
        let mut set = NameSet::new();
        let mut i: usize = 0;
        while i < names.len()
            invariant
                i <= names@.len(),
                set@ == names@.take(i as int).to_set().intersect(other@),
            decreases names@.len() - i,
        {
            proof {
                assert(names@.take(i + 1) == names@.take(i as int).push(names@[i as int]));
                lemma_push_to_set(names@.take(i as int), names@[i as int]);
            }
            if other.contains(names[i]) {
                set.insert(names[i]);
            }
            i += 1;
        }
        assert(names@.take(i as int) == names@);
        set
    }

    /// A set with the same names.
    pub fn copy(&self) -> (set: NameSet)
        ensures
            set@ == self@,
    {
        let mut set = NameSet::new();
        set.add_all(self);
        set
    }

    /// Says whether the set holds nothing.
    pub fn is_empty(&self) -> (empty: bool)
        ensures
            empty == (self@ == Set::<StringId>::empty()),
    {
        let names = self.walk();
        if names.len() == 0 {
            assert(self@ =~= Set::<StringId>::empty());
            true
        } else {
            assert(names@.to_set().contains(names@[0]));
            false
        }
    }
}

/// One more element at the end is one more element in the set.
pub proof fn lemma_push_to_set(items: Seq<u32>, item: u32)
    ensures
        items.push(item).to_set() == items.to_set().insert(item),
{
    assert forall|x: u32| items.push(item).to_set().contains(x) == items.to_set().insert(item).contains(x) by {
        if items.contains(x) {
            let k = items.index_of(x);
            assert(items.push(item)[k] == x);
        }
        assert(items.push(item)[items.len() as int] == item);
        if items.push(item).contains(x) {
            let k = items.push(item).index_of(x);
            if k < items.len() {
                assert(items[k] == x);
            }
        }
    }
    assert(items.push(item).to_set() =~= items.to_set().insert(item));
}

/// A map from names to slots.
pub struct NameSlots {
    slots: AHashMap<u32, u16>,
}

impl View for NameSlots {
    type V = Map<StringId, NamespaceId>;

    closed spec fn view(&self) -> Map<StringId, NamespaceId> {
        ahash_map_entries(self.slots)
    }
}

impl NameSlots {
    /// The empty map.
    pub fn new() -> (map: NameSlots)
        ensures
            map@ == Map::<StringId, NamespaceId>::empty(),
    {
        let map = NameSlots { slots: ahash_map_new() };
        assert(map@ =~= Map::<StringId, NamespaceId>::empty());
        map
    }

    /// Maps `name` to `slot`.
    pub fn insert(&mut self, name: StringId, slot: NamespaceId)
        ensures
            final(self)@ == old(self)@.insert(name, slot),
    {
        ahash_map_insert(&mut self.slots, name, slot);
    }

    /// The slot that `name` maps to.
    pub fn get(&self, name: StringId) -> (slot: Option<NamespaceId>)
        ensures
            slot == (if self@.contains_key(name) {
                Some(self@[name])
            } else {
                None
            }),
    {
        ahash_map_get(&self.slots, name)
    }

    /// The names that are mapped, from the smallest to the largest.
    pub fn names(&self) -> (names: Vec<StringId>)
        ensures
            ascending(names@),
            names@ == in_order(self@.dom()),
            names@.to_set() == self@.dom(),
    {
        let names = sort_names(ahash_map_keys(&self.slots));
        proof {
            lemma_in_order(self@.dom(), names@);
        }
        names
    }
}

/// Preparation metadata for a target in an active comprehension scope.
#[derive(Clone, Copy, PartialEq, Eq, Structural)]
pub struct CompBinding {
    /// Scratch-slot identifier shared by the target and its expression reads.
    pub slot: u16,
    /// Whether a nested callable captured this target.
    pub captured: bool,
}

/// Model of a comprehension scope: its names in the order in which they were
/// bound, and what each is bound to.
#[verifier::ext_equal]
pub struct CompScope {
    pub order: Seq<StringId>,
    pub bindings: Map<StringId, CompBinding>,
}

impl CompScope {
    /// The scope that binds nothing.
    pub open spec fn empty() -> CompScope {
        CompScope { order: Seq::empty(), bindings: Map::empty() }
    }

    /// The scope with `name` bound to `binding`.
    pub open spec fn bind(self, name: StringId, binding: CompBinding) -> CompScope {
        CompScope {
            order: if self.bindings.contains_key(name) {
                self.order
            } else {
                self.order.push(name)
            },
            bindings: self.bindings.insert(name, binding),
        }
    }

    /// The slots of the captured bindings, in the order of binding.
    pub open spec fn captured(self) -> Seq<u16> {
        captured_among(self.order, self.bindings)
    }
}

/// The slots of those among `names` whose binding is captured.
pub open spec fn captured_among(names: Seq<StringId>, bindings: Map<StringId, CompBinding>) -> Seq<u16>
    decreases names.len(),
{
    if names.len() == 0 {
        Seq::empty()
    } else {
        let front = captured_among(names.drop_last(), bindings);
        if bindings.contains_key(names.last()) && bindings[names.last()].captured {
            front.push(bindings[names.last()].slot)
        } else {
            front
        }
    }
}

/// Insertion-ordered bindings for one active comprehension's lexical scope.
pub struct CompNameScope {
    bindings: IndexMap<u32, CompBinding, ahash::RandomState>,
}

impl View for CompNameScope {
    type V = CompScope;

    closed spec fn view(&self) -> CompScope {
        CompScope { order: index_map_keys(self.bindings), bindings: index_map_entries(self.bindings) }
    }
}

impl CompNameScope {
    /// The scope that binds nothing.
    pub fn new() -> (scope: CompNameScope)
        ensures
            scope@ == CompScope::empty(),
    {
        let scope = CompNameScope { bindings: index_map_default() };
        assert(scope@ =~= CompScope::empty());
        scope
    }

    /// Binds `name`.
    pub fn insert(&mut self, name: StringId, binding: CompBinding)
        ensures
            final(self)@ == old(self)@.bind(name, binding),
    {
        index_map_insert(&mut self.bindings, name, binding);
    }

    /// What `name` is bound to.
    pub fn get(&self, name: StringId) -> (binding: Option<CompBinding>)
        ensures
            binding == (if self@.bindings.contains_key(name) {
                Some(self@.bindings[name])
            } else {
                None
            }),
    {
        index_map_get(&self.bindings, name)
    }

    /// The names of the scope in the order in which they were bound.
    pub fn names(&self) -> (names: Vec<StringId>)
        ensures
            names@ == self@.order,
            names@.to_set() == self@.bindings.dom(),
    {
        index_map_key_list(&self.bindings)
    }

    /// The names of the scope.
    pub fn name_set(&self) -> (names: NameSet)
        ensures
            names@ == self@.bindings.dom(),
    {
        let mut names = NameSet::new();
        names.insert_all(&self.names());
        names
    }

    /// The slots of the captured bindings, in the order of binding.
    pub fn captured_slots(&self) -> (slots: Vec<u16>)
        ensures
            slots@ == self@.captured(),
    {
        let names = self.names();
        let mut slots: Vec<u16> = Vec::new();
        let mut i: usize = 0;
        while i < names.len()
            invariant
                i <= names@.len(),
                names@ == self@.order,
                slots@ == captured_among(names@.take(i as int), self@.bindings),
            decreases names@.len() - i,
        {
            assert(names@.take(i + 1).drop_last() == names@.take(i as int));
            if let Some(binding) = self.get(names[i]) {
                if binding.captured {
                    slots.push(binding.slot);
                }
            }
            i += 1;
        }
        assert(names@.take(i as int) == names@);
        slots
    }
}

} // verus!
