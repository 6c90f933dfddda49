//! The entries that a lookup compares a key with, and the keys that it has
//! compared.

use crate::value::Value;
use ahash::AHashSet;
use smallvec::SmallVec;
use vstd::prelude::*;

verus! {

/// A short list of places.
#[verifier::external_body]
pub struct SmallPlaces {
    list: SmallVec<[usize; 2]>,
}

/// A short list of values.
#[verifier::external_body]
pub struct SmallValues {
    list: SmallVec<[Value; 2]>,
}

/// The places that a list holds, in its order.
pub uninterp spec fn small_places(list: SmallPlaces) -> Seq<usize>;

/// The values that a list holds, in its order.
pub uninterp spec fn small_values(list: SmallValues) -> Seq<Value>;

/// The identities that an `AHashSet` holds.
pub uninterp spec fn identity_items(set: AHashSet<(u8, u64)>) -> Set<(u8, u64)>;

/// Calls `SmallVec::new`: a list of places that holds nothing.
#[verifier::external_body]
fn small_places_new() -> (list: SmallPlaces)
    ensures
        small_places(list) == Seq::<usize>::empty(),
{
    SmallPlaces { list: SmallVec::new() }
}

/// Calls `SmallVec::push`: puts a place behind the others.
#[verifier::external_body]
fn small_places_push(list: &mut SmallPlaces, place: usize)
    ensures
        small_places(*final(list)) == small_places(*old(list)).push(place),
{
    list.list.push(place);
}

/// Calls `SmallVec::as_slice`: the places of the list.
#[verifier::external_body]
fn small_places_slice(list: &SmallPlaces) -> (places: &[usize])
    ensures
        places@ == small_places(*list),
{
    list.list.as_slice()
}

/// Calls `SmallVec::new`: a list of values that holds nothing.
#[verifier::external_body]
fn small_values_new() -> (list: SmallValues)
    ensures
        small_values(list) == Seq::<Value>::empty(),
{
    SmallValues { list: SmallVec::new() }
}

/// Calls `SmallVec::push`: puts a value behind the others.
#[verifier::external_body]
fn small_values_push(list: &mut SmallValues, value: Value)
    ensures
        small_values(*final(list)) == small_values(*old(list)).push(value),
{
    list.list.push(value);
}

/// Calls `SmallVec::as_slice`: the values of the list.
#[verifier::external_body]
fn small_values_slice(list: &SmallValues) -> (values: &[Value])
    ensures
        values@ == small_values(*list),
{
    list.list.as_slice()
}

/// Calls `AHashSet::new`: a set that holds nothing.
#[verifier::external_body]
fn identities_new() -> (set: AHashSet<(u8, u64)>)
    ensures
        identity_items(set) == Set::<(u8, u64)>::empty(),
{
    AHashSet::new()
}

/// Calls `insert` of the hash set behind an `AHashSet`: adds the identity and
/// says whether it was new.
#[verifier::external_body]
fn identities_insert(set: &mut AHashSet<(u8, u64)>, identity: (u8, u64)) -> (added: bool)
    ensures
        identity_items(*final(set)) == identity_items(*old(set)).insert(identity),
        added == !identity_items(*old(set)).contains(identity),
{
    set.insert(identity)
}

/// Calls `contains` of the hash set behind an `AHashSet`.
#[verifier::external_body]
fn identities_contain(set: &AHashSet<(u8, u64)>, identity: (u8, u64)) -> (found: bool)
    ensures
        found == identity_items(*set).contains(identity),
{
    set.contains(&identity)
}

/// What tells a value from every other.
pub open spec fn identity_of(value: Value) -> (u8, u64) {
    match value {
        Value::Undefined => (0u8, 0u64),
        Value::NoneValue => (1u8, 0u64),
        Value::Ellipsis => (2u8, 0u64),
        Value::Bool(truth) => (
            3u8,
            if truth {
                1u64
            } else {
                0u64
            },
        ),
        Value::Int(n) => if n >= 0 {
            (4u8, n as u64)
        } else {
            (5u8, (-(n + 1)) as u64)
        },
        Value::FloatBits(bits) => (6u8, bits),
        Value::InternString(id) => (7u8, id as u64),
        Value::InternBytes(id) => (8u8, id as u64),
        Value::InternLongInt(id, negative) => if negative {
            (9u8, id as u64)
        } else {
            (10u8, id as u64)
        },
        Value::Builtin(id) => (11u8, id as u64),
        Value::DefFunction(id) => (12u8, id as u64),
        Value::Ref(id) => (13u8, id as u64),
    }
}

/// Two values with one identity are the same.
pub proof fn lemma_identity(a: Value, b: Value)
    requires
        identity_of(a) == identity_of(b),
    ensures
        a == b,
{
}

/// What tells a value from every other.
fn identity(value: Value) -> (identity: (u8, u64))
    ensures
        identity == identity_of(value),
{
    match value {
        Value::Undefined => (0, 0),
        Value::NoneValue => (1, 0),
        Value::Ellipsis => (2, 0),
        Value::Bool(truth) => (
            3,
            if truth {
                1
            } else {
                0
            },
        ),
        Value::Int(n) => if n >= 0 {
            (4, n as u64)
        } else {
            (5, (-(n + 1)) as u64)
        },
        Value::FloatBits(bits) => (6, bits),
        Value::InternString(id) => (7, id as u64),
        Value::InternBytes(id) => (8, id as u64),
        Value::InternLongInt(id, negative) => if negative {
            (9, id as u64)
        } else {
            (10, id as u64)
        },
        Value::Builtin(id) => (11, id as u64),
        Value::DefFunction(id) => (12, id as u64),
        Value::Ref(id) => (13, id as u64),
    }
}

/// Entries that a key is compared with: where they stood, and their keys as
/// they were then.
pub struct Candidates {
    places: SmallPlaces,
    keys: SmallValues,
}

impl View for Candidates {
    type V = Seq<(usize, Value)>;

    closed spec fn view(&self) -> Seq<(usize, Value)> {
        Seq::new(
            small_places(self.places).len(),
            |i: int| (small_places(self.places)[i], small_values(self.keys)[i]),
        )
    }
}

impl Candidates {
    /// Every place has its key.
    #[verifier::type_invariant]
    spec fn aligned(self) -> bool {
        small_places(self.places).len() == small_values(self.keys).len()
    }

    /// No entries.
    pub fn new() -> (candidates: Candidates)
        ensures
            candidates@ == Seq::<(usize, Value)>::empty(),
    {
        let candidates = Candidates { places: small_places_new(), keys: small_values_new() };
        assert(candidates@ =~= Seq::<(usize, Value)>::empty());
        candidates
    }

    /// The number of entries.
    pub fn len(&self) -> (count: usize)
        ensures
            count == self@.len(),
    {
        small_places_slice(&self.places).len()
    }

    /// One of the entries.
    pub fn get(&self, i: usize) -> (entry: (usize, Value))
        requires
            i < self@.len(),
        ensures
            entry == self@[i as int],
    {
        proof {
            use_type_invariant(self);
        }
        (small_places_slice(&self.places)[i], small_values_slice(&self.keys)[i])
    }

    /// Puts an entry behind the others.
    pub fn push(self, place: usize, key: Value) -> (candidates: Candidates)
        ensures
            candidates@ == self@.push((place, key)),
    {
        proof {
            use_type_invariant(&self);
        }
        let Candidates { mut places, mut keys } = self;
        small_places_push(&mut places, place);
        small_values_push(&mut keys, key);
        let candidates = Candidates { places, keys };
        assert(candidates@ =~= self@.push((place, key)));
        candidates
    }
}

/// The keys that a lookup has compared.
pub struct Compared {
    keys: SmallValues,
    identities: AHashSet<(u8, u64)>,
}

impl View for Compared {
    type V = Seq<Value>;

    closed spec fn view(&self) -> Seq<Value> {
        small_values(self.keys)
    }
}

impl Compared {
    /// The identities are those of the keys.
    #[verifier::type_invariant]
    spec fn agrees(self) -> bool {
        forall|value: Value|
            small_values(self.keys).contains(value) == #[trigger] identity_items(self.identities).contains(
                identity_of(value),
            )
    }

    /// No keys.
    pub fn new() -> (compared: Compared)
        ensures
            compared@ == Seq::<Value>::empty(),
    {
        Compared { keys: small_values_new(), identities: identities_new() }
    }

    /// Says whether a key was compared.
    pub fn contains(&self, key: Value) -> (found: bool)
        ensures
            found == self@.contains(key),
    {
        proof {
            use_type_invariant(self);
        }
        identities_contain(&self.identities, identity(key))
    }

    /// Puts a key behind the others.
    pub fn push(self, key: Value) -> (compared: Compared)
        ensures
            compared@ == self@.push(key),
    {
        proof {
            use_type_invariant(&self);
        }
        let Compared { mut keys, mut identities } = self;
        let ghost before = small_values(keys);
        let ghost held = identity_items(identities);
        let _new: bool = identities_insert(&mut identities, identity(key));
        small_values_push(&mut keys, key);
        proof {
            assert forall|value: Value|
                small_values(keys).contains(value) == #[trigger] identity_items(identities).contains(
                    identity_of(value),
                ) by {
                if small_values(keys).contains(value) {
                    let i = choose|i: int| 0 <= i < small_values(keys).len() && small_values(keys)[i] == value;
                    if i < before.len() {
                        assert(before.contains(value));
                        assert(held.contains(identity_of(value)));
                    }
                }
                if identity_items(identities).contains(identity_of(value)) {
                    if identity_of(value) == identity_of(key) {
                        lemma_identity(value, key);
                        assert(small_values(keys)[before.len() as int] == key);
                    } else {
                        assert(held.contains(identity_of(value)));
                        assert(before.contains(value));
                        let i = choose|i: int| 0 <= i < before.len() && before[i] == value;
                        assert(small_values(keys)[i] == value);
                    }
                }
            }
        }
        Compared { keys, identities }
    }
}

} // verus!
