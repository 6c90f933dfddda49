//! Looking up keys of dictionaries.
//!
//! Where two keys can only be compared by running code, the lookup hands the
//! comparison to the host and goes on with its answer. The code may have
//! changed the dictionary in between.

use crate::candidates::{Candidates, Compared};
use crate::dict::{are_candidates, set_outcome, Dict, DictEntry, DictModel};
use crate::equality::{native_equality, probe_native_eq};
use crate::exceptions::{RunError, RunResult};
use crate::hash::{hash_of_text, text_hash};
use crate::heap::{stopped, timed_out, VM, VmModel};
use crate::resource_checks::{limit_error, may_time_out, run_error, ResourceError, ResourceTracker};
use crate::text::same_text;
use crate::value::Value;
use vstd::prelude::*;

verus! {

/// What a lookup gives.
#[derive(Clone, Copy, Debug, PartialEq, Eq, Structural)]
pub enum ProbeStep {
    /// The key stands here.
    Found(usize),
    /// The key is not there.
    Missing,
    /// The host has to say whether this key of the dictionary equals the one
    /// that is looked up.
    Compare(Value),
}

/// A lookup that waits for the answer to a comparison.
pub struct Probe {
    /// The key that is looked up.
    pub key: Value,
    /// Its hash.
    pub hash: u64,
    /// No comparison of a first walk over the entries has been gone beyond.
    pub first: bool,
    /// The entries of this walk, as they were when it began.
    pub candidates: Candidates,
    /// Which of them is being compared.
    pub at: usize,
    /// The keys compared, once the first walk is over.
    pub compared: Compared,
}

/// The entry at a place still is the one that was there.
pub open spec fn still_there(dict: DictModel, place: usize, hash: u64, key: Value) -> bool {
    place < dict.entries.len() && dict.entries[place as int].hash == hash && dict.entries[place as int].key == key
}

/// The keys of entries.
pub open spec fn keys_of(candidates: Seq<(usize, Value)>) -> Seq<Value> {
    Seq::new(candidates.len(), |i: int| candidates[i].1)
}

/// The entry of a walk still is where it was.
pub open spec fn stands(dict: DictModel, hash: u64, candidate: (usize, Value)) -> bool {
    still_there(dict, candidate.0, hash, candidate.1)
}

impl Probe {
    /// One of the keys of the walk is being compared.
    pub open spec fn wf(self) -> bool {
        &&& self.at < self.candidates@.len()
        &&& !self.first ==> self.compared@.len() > 0 && self.compared@.last() == self.waiting()
    }

    /// The key that is being compared.
    pub open spec fn waiting(self) -> Value {
        self.candidates@[self.at as int].1
    }

    /// The keys that the host said are not equal.
    pub open spec fn refuted(self) -> Seq<Value> {
        if self.first {
            keys_of(self.candidates@).subrange(0, self.at as int)
        } else {
            self.compared@.drop_last()
        }
    }

    /// The keys of the lookup name only what exists.
    pub open spec fn held_by(self, vm: VmModel) -> bool {
        vm.holds(self.key) && vm.holds_all(keys_of(self.candidates@)) && vm.holds_all(self.compared@)
    }
}

/// The keys and values of a dictionary name only what exists.
pub open spec fn holds_dict(vm: VmModel, dict: DictModel) -> bool {
    forall|i: int|
        0 <= i < dict.entries.len() ==> vm.holds((#[trigger] dict.entries[i]).key) && vm.holds(dict.entries[i].value)
}

/// The key stands at this place, as can be seen without the host.
pub open spec fn natively_at(vm: VmModel, dict: DictModel, key: Value, hash: u64, place: usize) -> bool {
    place < dict.entries.len() && dict.entries[place as int].hash == hash && native_equality(
        vm,
        dict.entries[place as int].key,
        key,
    ) == Some(true)
}

/// Every entry with the hash has another key: as can be seen, or as the host
/// said.
pub open spec fn all_refuted(vm: VmModel, dict: DictModel, key: Value, hash: u64, refuted: Seq<Value>) -> bool {
    forall|i: int|
        0 <= i < dict.entries.len() && (#[trigger] dict.entries[i]).hash == hash ==> native_equality(
            vm,
            dict.entries[i].key,
            key,
        ) == Some(false) || refuted.contains(dict.entries[i].key)
}

/// What a fresh lookup may give. It asks the host only about an entry with the
/// hash whose key cannot be compared from here.
pub open spec fn fresh_step(vm: VmModel, dict: DictModel, key: Value, hash: u64, step: ProbeStep) -> bool {
    match step {
        ProbeStep::Found(place) => natively_at(vm, dict, key, hash, place),
        ProbeStep::Missing => all_refuted(vm, dict, key, hash, Seq::empty()),
        ProbeStep::Compare(stored) => exists|place: usize| #[trigger]
            still_there(dict, place, hash, stored) && native_equality(vm, stored, key) is None,
    }
}

/// The state that a fresh lookup waits in.
pub open spec fn fresh_probe(dict: DictModel, key: Value, hash: u64, stored: Value, probe: Probe) -> bool {
    &&& probe.wf()
    &&& probe.first
    &&& probe.at == 0
    &&& probe.key == key
    &&& probe.hash == hash
    &&& probe.waiting() == stored
    &&& stands(dict, hash, probe.candidates@[0])
}

/// Starts to look a key up.
pub fn start_probe(dict: &Dict, key: Value, hash: u64, vm: &VM) -> (started: (ProbeStep, Option<Probe>))
    requires
        dict.wf(),
        holds_dict(vm@, dict@),
        vm@.holds(key),
    ensures
        fresh_step(vm@, dict@, key, hash, started.0),
        match started.0 {
            ProbeStep::Compare(stored) => started.1 matches Some(probe) && fresh_probe(dict@, key, hash, stored, probe)
                && probe.held_by(vm@),
            _ => started.1 is None,
        },
{
    let places = dict.candidates(hash);
    let mut candidates = Candidates::new();
    let mut i: usize = 0;
    while i < places.len()
        invariant
            i <= places@.len(),
            dict.wf(),
            holds_dict(vm@, dict@),
            vm@.holds(key),
            are_candidates(dict@, hash, places@),
            forall|j: int| 0 <= j < candidates@.len() ==> stands(dict@, hash, #[trigger] candidates@[j]),
            candidates@.len() > 0 ==> native_equality(vm@, candidates@[0].1, key) is None,
            candidates@.len() == 0 ==> forall|j: int|
                0 <= j < i ==> native_equality(vm@, dict@.entries[(#[trigger] places@[j]) as int].key, key) == Some(
                    false,
                ),
        decreases places@.len() - i,
    {
        let place: usize = places[i];
        let stored: Value = dict.entries[place].key;
        assert(vm@.holds(dict@.entries[place as int].key));
        let known: Option<bool> = if candidates.len() == 0 {
            probe_native_eq(stored, key, vm)
        } else {
            None
        };
        match known {
            Some(equal) => {
                if equal {
                    return (ProbeStep::Found(place), None);
                }
            },
            None => {
                candidates = candidates.push(place, stored);
            },
        }
        i = i + 1;
    }
    if candidates.len() == 0 {
        proof {
            assert forall|k: int| 0 <= k < dict@.entries.len() && (#[trigger] dict@.entries[k]).hash == hash implies native_equality(
                vm@,
                dict@.entries[k].key,
                key,
            ) == Some(false) by {
                assert(k <= usize::MAX) by {
                    dict_len_fits(dict);
                }
                assert(places@.contains(k as usize));
                let j = choose|j: int| 0 <= j < places@.len() && places@[j] == k as usize;
                assert(native_equality(vm@, dict@.entries[places@[j] as int].key, key) == Some(false));
            }
        }
        return (ProbeStep::Missing, None);
    }
    let (place, stored): (usize, Value) = candidates.get(0);
    proof {
        assert(stands(dict@, hash, candidates@[0]));
        assert(still_there(dict@, place, hash, stored));
        assert(vm@.holds_all(keys_of(candidates@))) by {
            assert forall|j: int| 0 <= j < keys_of(candidates@).len() implies vm@.holds(
                #[trigger] keys_of(candidates@)[j],
            ) by {
                assert(stands(dict@, hash, candidates@[j]));
                assert(vm@.holds(dict@.entries[candidates@[j].0 as int].key));
            }
        }
    }
    (
        ProbeStep::Compare(stored),
        Some(Probe { key, hash, first: true, candidates, at: 0, compared: Compared::new() }),
    )
}

/// A dictionary has no more entries than can be counted.
pub proof fn dict_len_fits(dict: &Dict)
    ensures
        dict@.entries.len() <= usize::MAX,
{
    vstd::std_specs::vec::axiom_spec_len(&dict.entries);
}

/// What the rest of a walk gives, from the entry `i` on, where keys were
/// compared before. No key is compared twice: those compared are left out. An
/// entry that is no longer there makes the lookup start over.
pub open spec fn rest_step(
    vm: VmModel,
    dict: DictModel,
    key: Value,
    hash: u64,
    candidates: Seq<(usize, Value)>,
    compared: Seq<Value>,
    i: int,
    step: ProbeStep,
) -> bool
    decreases candidates.len() - i,
{
    if i < 0 || i >= candidates.len() {
        walked_step(vm, dict, key, hash, compared, step)
    } else if compared.contains(candidates[i].1) {
        rest_step(vm, dict, key, hash, candidates, compared, i + 1, step)
    } else if !stands(dict, hash, candidates[i]) {
        fresh_step(vm, dict, key, hash, step)
    } else {
        match native_equality(vm, candidates[i].1, key) {
            Some(true) => step == ProbeStep::Found(candidates[i].0),
            Some(false) => rest_step(vm, dict, key, hash, candidates, compared, i + 1, step),
            None => step == ProbeStep::Compare(candidates[i].1),
        }
    }
}

/// What a lookup gives once the host has answered. Where the entry is no
/// longer there, or the next one is not, it starts over. Behind the last entry
/// of a walk it looks for entries that came in while code ran.
pub open spec fn resumed_step(vm: VmModel, dict: DictModel, probe: Probe, equal: bool, step: ProbeStep) -> bool {
    let next = probe.at + 1;
    let candidates = probe.candidates@;
    if !stands(dict, probe.hash, candidates[probe.at as int]) {
        fresh_step(vm, dict, probe.key, probe.hash, step)
    } else if equal {
        step == ProbeStep::Found(candidates[probe.at as int].0)
    } else if probe.first && next < candidates.len() {
        if stands(dict, probe.hash, candidates[next]) {
            step == ProbeStep::Compare(candidates[next].1)
        } else {
            fresh_step(vm, dict, probe.key, probe.hash, step)
        }
    } else if probe.first {
        walked_step(vm, dict, probe.key, probe.hash, keys_of(candidates), step)
    } else {
        rest_step(vm, dict, probe.key, probe.hash, candidates, probe.compared@, next, step)
    }
}

/// The state that a lookup waits in once the host has answered.
pub open spec fn resumed_probe(dict: DictModel, before: Probe, stored: Value, probe: Probe) -> bool {
    ||| fresh_probe(dict, before.key, before.hash, stored, probe)
    ||| {
        &&& probe.wf()
        &&& probe.key == before.key
        &&& probe.hash == before.hash
        &&& probe.waiting() == stored
        &&& probe.refuted() == before.refuted().push(before.waiting())
        &&& stands(dict, probe.hash, probe.candidates@[probe.at as int])
    }
}

/// Says whether the entry at a place still is the one that was there.
pub fn probe_valid(dict: &Dict, place: usize, hash: u64, key: Value) -> (valid: bool)
    ensures
        valid == still_there(dict@, place, hash, key),
{
    place < dict.entries.len() && dict.entries[place].hash == hash && dict.entries[place].key == key
}

/// Holds the run against its limits.
fn poll(vm: &VM) -> (allowed: RunResult<()>)
    ensures
        allowed is Err ==> stopped(vm@.tracker, allowed),
{
    match vm.tracker.check_large_result(0) {
        Ok(_) => {},
        Err(limit) => {
            let error = run_error(limit);
            return Err(error);
        },
    }
    match vm.tracker.check_time() {
        Ok(_) => Ok(()),
        Err(limit) => {
            let error = run_error(limit);
            assert(may_time_out(vm@.tracker, limit) && error@ == limit_error(limit));
            Err(error)
        },
    }
}

/// What a new walk over the entries gives. Those compared before are left out,
/// and the host is asked only about a key that cannot be compared from here.
pub open spec fn walked_step(
    vm: VmModel,
    dict: DictModel,
    key: Value,
    hash: u64,
    compared: Seq<Value>,
    step: ProbeStep,
) -> bool {
    match step {
        ProbeStep::Found(place) => natively_at(vm, dict, key, hash, place),
        ProbeStep::Missing => all_refuted(vm, dict, key, hash, compared),
        ProbeStep::Compare(stored) => !compared.contains(stored) && exists|place: usize| #[trigger]
            still_there(dict, place, hash, stored) && native_equality(vm, stored, key) is None,
    }
}

/// Walks over the entries with the hash anew, without the keys compared
/// before.
fn walk_again(dict: &Dict, key: Value, hash: u64, compared: Compared, vm: &VM) -> (walked: (
    ProbeStep,
    Option<Probe>,
))
    requires
        dict.wf(),
        holds_dict(vm@, dict@),
        vm@.holds(key),
        vm@.holds_all(compared@),
    ensures
        walked_step(vm@, dict@, key, hash, compared@, walked.0),
        match walked.0 {
            ProbeStep::Compare(stored) => walked.1 matches Some(probe) && probe.wf() && !probe.first && probe.key == key
                && probe.hash == hash && probe.waiting() == stored && probe.refuted() == compared@ && probe.held_by(vm@)
                && stands(dict@, hash, probe.candidates@[probe.at as int]),
            _ => walked.1 is None,
        },
{
    let places = dict.candidates(hash);
    let mut candidates = Candidates::new();
    let mut i: usize = 0;
    while i < places.len()
        invariant
            i <= places@.len(),
            dict.wf(),
            holds_dict(vm@, dict@),
            are_candidates(dict@, hash, places@),
            candidates@.len() == i,
            forall|j: int|
                0 <= j < i ==> #[trigger] candidates@[j] == (places@[j], dict@.entries[places@[j] as int].key),
            vm@.holds_all(keys_of(candidates@)),
        decreases places@.len() - i,
    {
        let place: usize = places[i];
        assert(vm@.holds(dict@.entries[place as int].key));
        let ghost before = candidates@;
        candidates = candidates.push(place, dict.entries[place].key);
        assert(keys_of(candidates@) =~= keys_of(before).push(dict@.entries[place as int].key));
        assert(vm@.holds_all(keys_of(candidates@))) by {
            assert forall|j: int| 0 <= j < keys_of(candidates@).len() implies vm@.holds(
                #[trigger] keys_of(candidates@)[j],
            ) by {
                if j < before.len() {
                    assert(vm@.holds(keys_of(before)[j]));
                }
            }
        }
        i = i + 1;
    }
    let mut at: usize = 0;
    while at < candidates.len()
        invariant
            at <= candidates@.len() == places@.len(),
            dict.wf(),
            holds_dict(vm@, dict@),
            vm@.holds(key),
            vm@.holds_all(compared@),
            vm@.holds_all(keys_of(candidates@)),
            are_candidates(dict@, hash, places@),
            forall|j: int|
                0 <= j < candidates@.len() ==> #[trigger] candidates@[j] == (places@[j], dict@.entries[places@[j] as int].key),
            forall|j: int|
                0 <= j < at ==> native_equality(vm@, (#[trigger] candidates@[j]).1, key) == Some(false)
                    || compared@.contains(candidates@[j].1),
        decreases candidates@.len() - at,
    {
        let (place, stored): (usize, Value) = candidates.get(at);
        assert(vm@.holds(keys_of(candidates@)[at as int]));
        assert(candidates@[at as int] == (places@[at as int], dict@.entries[places@[at as int] as int].key));
        if !compared.contains(stored) {
            match probe_native_eq(stored, key, vm) {
                Some(equal) => {
                    if equal {
                        return (ProbeStep::Found(place), None);
                    }
                },
                None => {
                    let ghost before = compared@;
                    let compared = compared.push(stored);
                    proof {
                        assert(still_there(dict@, place, hash, stored));
                        assert(compared@.drop_last() =~= before);
                        lemma_holds_push(vm@, before, stored);
                    }
                    return (ProbeStep::Compare(stored), Some(Probe { key, hash, first: false, candidates, at, compared }));
                },
            }
        }
        at = at + 1;
    }
    proof {
        assert forall|k: int| 0 <= k < dict@.entries.len() && (#[trigger] dict@.entries[k]).hash == hash implies native_equality(
            vm@,
            dict@.entries[k].key,
            key,
        ) == Some(false) || compared@.contains(dict@.entries[k].key) by {
            dict_len_fits(dict);
            assert(places@.contains(k as usize));
            let j = choose|j: int| 0 <= j < places@.len() && places@[j] == k as usize;
            assert(candidates@[j].1 == dict@.entries[k].key);
        }
    }
    (ProbeStep::Missing, None)
}

/// One value more that exists.
proof fn lemma_holds_push(vm: VmModel, values: Seq<Value>, value: Value)
    requires
        vm.holds_all(values),
        vm.holds(value),
    ensures
        vm.holds_all(values.push(value)),
{
    assert forall|j: int| 0 <= j < values.push(value).len() implies vm.holds(#[trigger] values.push(value)[j]) by {
        if j < values.len() {
            assert(vm.holds(values[j]));
        }
    }
}

/// Starts over, after a look at the limits.
fn restart(dict: &Dict, key: Value, hash: u64, vm: &VM) -> (started: RunResult<(ProbeStep, Option<Probe>)>)
    requires
        dict.wf(),
        holds_dict(vm@, dict@),
        vm@.holds(key),
    ensures
        match started {
            Ok((step, probe)) => fresh_step(vm@, dict@, key, hash, step) && match step {
                ProbeStep::Compare(stored) => probe matches Some(probe) && fresh_probe(dict@, key, hash, stored, probe)
                    && probe.held_by(vm@),
                _ => probe is None,
            },
            Err(_) => stopped(vm@.tracker, started),
        },
{
    poll_then(vm)?;
    Ok(start_probe(dict, key, hash, vm))
}

/// An error that ends one operation ends another.
proof fn lemma_stopped<A, B>(tracker: ResourceTracker, a: RunResult<A>, b: RunResult<B>)
    requires
        stopped(tracker, a),
        a matches Err(first) && b matches Err(second) && first == second,
    ensures
        stopped(tracker, b),
{
    assert(timed_out(tracker, a) ==> timed_out(tracker, b));
}

/// Holds a lookup against the limits.
fn poll_then(vm: &VM) -> (allowed: RunResult<()>)
    ensures
        allowed matches Err(error) ==> stopped(vm@.tracker, Err::<(ProbeStep, Option<Probe>), RunError>(error)),
{
    match poll(vm) {
        Ok(_) => Ok(()),
        Err(error) => {
            proof {
                lemma_stopped(
                    vm@.tracker,
                    Err::<(), RunError>(error),
                    Err::<(ProbeStep, Option<Probe>), RunError>(error),
                );
            }
            Err(error)
        },
    }
}

/// The keys of all entries of a walk, as compared.
fn compare_all(candidates: &Candidates) -> (compared: Compared)
    ensures
        compared@ == keys_of(candidates@),
{
    let mut compared = Compared::new();
    let mut i: usize = 0;
    while i < candidates.len()
        invariant
            i <= candidates@.len(),
            compared@ == keys_of(candidates@).subrange(0, i as int),
        decreases candidates@.len() - i,
    {
        let (_, key): (usize, Value) = candidates.get(i);
        compared = compared.push(key);
        i = i + 1;
        assert(compared@ =~= keys_of(candidates@).subrange(0, i as int));
    }
    assert(compared@ =~= keys_of(candidates@));
    compared
}

/// Goes on with a lookup once the host has said whether the two keys are
/// equal.
pub fn resume_probe(probe: Probe, dict: &Dict, equal: bool, vm: &VM) -> (resumed: RunResult<
    (ProbeStep, Option<Probe>),
>)
    requires
        probe.wf(),
        probe.held_by(vm@),
        dict.wf(),
        holds_dict(vm@, dict@),
    ensures
        match resumed {
            Ok((step, next)) => resumed_step(vm@, dict@, probe, equal, step) && match step {
                ProbeStep::Compare(stored) => next matches Some(next) && resumed_probe(dict@, probe, stored, next)
                    && next.held_by(vm@),
                _ => next is None,
            },
            Err(_) => stopped(vm@.tracker, resumed),
        },
{
    let Probe { key, hash, first, candidates, at, compared } = probe;
    let (place, waiting): (usize, Value) = candidates.get(at);
    if !probe_valid(dict, place, hash, waiting) {
        return restart(dict, key, hash, vm);
    }
    if equal {
        return Ok((ProbeStep::Found(place), None));
    }
    let ghost refuted = probe.refuted().push(probe.waiting());
    let count: usize = candidates.len();
    let next: usize = at + 1;
    if first && next < count {
        let (place, stored): (usize, Value) = candidates.get(next);
        if !probe_valid(dict, place, hash, stored) {
            return restart(dict, key, hash, vm);
        }
        let probe = Probe { key, hash, first, candidates, at: next, compared };
        assert(probe.refuted() =~= refuted);
        return Ok((ProbeStep::Compare(stored), Some(probe)));
    }
    if first {
        let compared = compare_all(&candidates);
        assert(compared@ =~= refuted);
        poll_then(vm)?;
        return Ok(walk_again(dict, key, hash, compared, vm));
    }
    assert(compared@ =~= refuted);
    let mut i: usize = next;
    while i < candidates.len()
        invariant
            at < i <= candidates@.len(),
            probe.key == key,
            probe.hash == hash,
            probe.first == first,
            probe.candidates == candidates,
            probe.at == at,
            probe.compared == compared,
            probe.wf(),
            probe.held_by(vm@),
            !first,
            !equal,
            dict.wf(),
            holds_dict(vm@, dict@),
            compared@ == refuted,
            refuted == probe.refuted().push(probe.waiting()),
            stands(dict@, hash, candidates@[at as int]),
            forall|step: ProbeStep|
                rest_step(vm@, dict@, key, hash, candidates@, compared@, i as int, step) ==> #[trigger] resumed_step(
                    vm@,
                    dict@,
                    probe,
                    equal,
                    step,
                ),
        decreases candidates@.len() - i,
    {
        let (place, stored): (usize, Value) = candidates.get(i);
        assert(vm@.holds(keys_of(candidates@)[i as int]));
        if !compared.contains(stored) {
            if !probe_valid(dict, place, hash, stored) {
                return restart(dict, key, hash, vm);
            }
            match probe_native_eq(stored, key, vm) {
                Some(known) => {
                    if known {
                        return Ok((ProbeStep::Found(place), None));
                    }
                },
                None => {
                    let compared = compared.push(stored);
                    let next = Probe { key, hash, first, candidates, at: i, compared };
                    proof {
                        assert(next.refuted() =~= refuted);
                        lemma_holds_push(vm@, refuted, stored);
                    }
                    return Ok((ProbeStep::Compare(stored), Some(next)));
                },
            }
        }
        i = i + 1;
    }
    poll_then(vm)?;
    Ok(walk_again(dict, key, hash, compared, vm))
}

/// The rest of a walk finds only entries with the hash.
proof fn lemma_rest_finds(
    vm: VmModel,
    dict: DictModel,
    key: Value,
    hash: u64,
    candidates: Seq<(usize, Value)>,
    compared: Seq<Value>,
    i: int,
    place: usize,
)
    requires
        rest_step(vm, dict, key, hash, candidates, compared, i, ProbeStep::Found(place)),
    ensures
        place < dict.entries.len() && dict.entries[place as int].hash == hash,
    decreases candidates.len() - i,
{
    if 0 <= i < candidates.len() && (compared.contains(candidates[i].1) || (stands(dict, hash, candidates[i])
        && native_equality(vm, candidates[i].1, key) == Some(false))) {
        lemma_rest_finds(vm, dict, key, hash, candidates, compared, i + 1, place);
    }
}

/// The place that a lookup finds is that of an entry with the hash.
pub proof fn law_found_place_has_the_hash(vm: VmModel, dict: DictModel, probe: Probe, equal: bool, place: usize)
    requires
        resumed_step(vm, dict, probe, equal, ProbeStep::Found(place)),
    ensures
        place < dict.entries.len() && dict.entries[place as int].hash == probe.hash,
{
    let at = probe.at as int;
    let candidates = probe.candidates@;
    if stands(dict, probe.hash, candidates[at]) && !equal && !probe.first {
        lemma_rest_finds(vm, dict, probe.key, probe.hash, candidates, probe.compared@, at + 1, place);
    }
}

/// The rest of a walk asks about no key that was compared, unless the lookup
/// starts over.
proof fn lemma_rest_asks(
    vm: VmModel,
    dict: DictModel,
    key: Value,
    hash: u64,
    candidates: Seq<(usize, Value)>,
    compared: Seq<Value>,
    i: int,
    stored: Value,
)
    requires
        rest_step(vm, dict, key, hash, candidates, compared, i, ProbeStep::Compare(stored)),
        0 <= i,
        forall|j: int| i <= j < candidates.len() ==> stands(dict, hash, #[trigger] candidates[j]),
    ensures
        !compared.contains(stored),
    decreases candidates.len() - i,
{
    if i < candidates.len() && (compared.contains(candidates[i].1) || native_equality(vm, candidates[i].1, key) == Some(
        false,
    )) {
        lemma_rest_asks(vm, dict, key, hash, candidates, compared, i + 1, stored);
    }
}

/// While its entries stay, a lookup that is past its first walk asks about no
/// key that it has asked about before.
pub proof fn law_no_key_is_compared_twice(vm: VmModel, dict: DictModel, probe: Probe, stored: Value)
    requires
        probe.wf(),
        !probe.first,
        forall|j: int| 0 <= j < probe.candidates@.len() ==> stands(dict, probe.hash, #[trigger] probe.candidates@[j]),
        resumed_step(vm, dict, probe, false, ProbeStep::Compare(stored)),
    ensures
        !probe.refuted().push(probe.waiting()).contains(stored),
{
    assert(stands(dict, probe.hash, probe.candidates@[probe.at as int]));
    lemma_rest_asks(
        vm,
        dict,
        probe.key,
        probe.hash,
        probe.candidates@,
        probe.compared@,
        probe.at + 1,
        stored,
    );
    assert(probe.refuted().push(probe.waiting()) =~= probe.compared@);
}

/// A lookup in a dictionary whose keys with the hash can all be compared from
/// here never asks the host.
pub proof fn law_native_keys_need_no_host(vm: VmModel, dict: DictModel, key: Value, hash: u64, step: ProbeStep)
    requires
        fresh_step(vm, dict, key, hash, step),
        forall|i: int|
            0 <= i < dict.entries.len() && (#[trigger] dict.entries[i]).hash == hash ==> native_equality(
                vm,
                dict.entries[i].key,
                key,
            ) is Some,
    ensures
        !(step is Compare),
{
    if step is Compare {
        let stored = step->Compare_0;
        let place = choose|place: usize| #[trigger]
            still_there(dict, place, hash, stored) && native_equality(vm, stored, key) is None;
        assert(dict.entries[place as int].hash == hash);
    }
}

/// A key that stands in a dictionary under its hash, with all keys comparable
/// from here, is found and never missed.
pub proof fn law_present_key_is_found(vm: VmModel, dict: DictModel, key: Value, hash: u64, i: int, step: ProbeStep)
    requires
        fresh_step(vm, dict, key, hash, step),
        0 <= i < dict.entries.len(),
        dict.entries[i].hash == hash,
        dict.entries[i].key == key,
        forall|j: int|
            0 <= j < dict.entries.len() && (#[trigger] dict.entries[j]).hash == hash ==> native_equality(
                vm,
                dict.entries[j].key,
                key,
            ) is Some,
    ensures
        step is Found,
{
    law_native_keys_need_no_host(vm, dict, key, hash, step);
    assert(native_equality(vm, dict.entries[i].key, key) == Some(true));
}

/// The place of an entry with the hash whose key is this text, or none where
/// there is no such entry.
pub open spec fn text_place(vm: VmModel, dict: DictModel, text: Seq<char>, hash: u64, place: Option<usize>) -> bool {
    match place {
        Some(i) => i < dict.entries.len() && dict.entries[i as int].hash == hash && vm.text_of(
            dict.entries[i as int].key,
        ) == Some(text),
        None => forall|i: int|
            0 <= i < dict.entries.len() && (#[trigger] dict.entries[i]).hash == hash ==> vm.text_of(
                dict.entries[i].key,
            ) != Some(text),
    }
}

/// Finds the entry whose key is a text, by what it holds.
pub fn find_text_key(dict: &Dict, text: &str, hash: u64, vm: &VM) -> (place: Option<usize>)
    requires
        dict.wf(),
        holds_dict(vm@, dict@),
    ensures
        text_place(vm@, dict@, text@, hash, place),
{
    let places = dict.candidates(hash);
    let mut j: usize = 0;
    while j < places.len()
        invariant
            j <= places@.len(),
            dict.wf(),
            holds_dict(vm@, dict@),
            are_candidates(dict@, hash, places@),
            forall|k: int|
                0 <= k < j ==> vm@.text_of(dict@.entries[(#[trigger] places@[k]) as int].key) != Some(text@),
        decreases places@.len() - j,
    {
        let place: usize = places[j];
        assert(vm@.holds(dict@.entries[place as int].key));
        match vm.get_text(dict.entries[place].key) {
            Some(held) => {
                if same_text(held, text) {
                    return Some(place);
                }
            },
            None => {},
        }
        j = j + 1;
    }
    proof {
        assert forall|i: int| 0 <= i < dict@.entries.len() && (#[trigger] dict@.entries[i]).hash == hash implies vm@.text_of(
            dict@.entries[i].key,
        ) != Some(text@) by {
            dict_len_fits(dict);
            assert(places@.contains(i as usize));
            let k = choose|k: int| 0 <= k < places@.len() && places@[k] == i as usize;
            assert(vm@.text_of(dict@.entries[places@[k] as int].key) != Some(text@));
        }
    }
    None
}

impl Dict {
    /// The value of a key that is a text.
    pub fn get_by_str(&self, text: &str, vm: &VM) -> (value: Option<Value>)
        requires
            self.wf(),
            holds_dict(vm@, self@),
        ensures
            match value {
                Some(value) => exists|place: usize| #[trigger]
                    text_place(vm@, self@, text@, hash_of_text(text@), Some(place)) && self@.entries[place as int].value
                        == value,
                None => text_place(vm@, self@, text@, hash_of_text(text@), None),
            },
    {
        match find_text_key(self, text, text_hash(text), vm) {
            Some(place) => {
                assert(text_place(vm@, self@, text@, hash_of_text(text@), Some(place)));
                Some(self.entries[place].value)
            },
            None => None,
        }
    }

    /// Sets the value of a key that is a text, as the entries of a JSON object
    /// are. The last value of a key stays, at the place of the first.
    pub fn set_json_string_key(&mut self, key: Value, value: Value, vm: &VM) -> (result: RunResult<Option<Value>>)
        requires
            old(self).wf(),
            holds_dict(vm@, old(self)@),
            vm@.holds(key),
            vm@.text_of(key) is Some,
        ensures
            final(self).wf(),
            ({
                let text = vm@.text_of(key)->Some_0;
                let hash = hash_of_text(text);
                exists|place: Option<usize>| #[trigger]
                    set_outcome(
                        old(self)@,
                        final(self)@,
                        (DictEntry { key, value, hash }),
                        place,
                        Some(vm@.tracker),
                        result,
                    ) && text_place(vm@, old(self)@, text, hash, place)
            }),
            keys_once(old(self)@, seen_same(vm@)) ==> keys_once(final(self)@, seen_same(vm@)),
    {
        let text = match vm.get_text(key) {
            Some(text) => text,
            None => {
                assert(false);
                ""
            },
        };
        let hash: u64 = text_hash(text);
        let place = find_text_key(self, text, hash, vm);
        proof {
            law_text_places_are_places(vm@, self@, key, text@, hash, place);
            law_seen_equality_is_an_equivalence(vm@);
            if keys_once(self@, seen_same(vm@)) {
                law_a_key_stands_once(self@, DictEntry { key, value, hash }, place, seen_same(vm@));
            }
        }
        self.set(DictEntry { key, value, hash }, place, &vm.tracker)
    }
}

/// A value that was set under a text is read back under it: every lookup of
/// the text behind the change finds that value.
pub proof fn law_set_text_is_read_back(
    vm: VmModel,
    dict: DictModel,
    key: Value,
    value: Value,
    text: Seq<char>,
    place: Option<usize>,
    found: Option<usize>,
)
    requires
        vm.text_of(key) == Some(text),
        text_place(vm, dict, text, hash_of_text(text), place),
        keys_once(dict, seen_same(vm)),
        text_place(
            vm,
            dict.with_entry(DictEntry { key, value, hash: hash_of_text(text) }, place),
            text,
            hash_of_text(text),
            found,
        ),
    ensures
        found matches Some(at) && dict.with_entry(
            DictEntry { key, value, hash: hash_of_text(text) },
            place,
        ).entries[at as int].value == value,
{
    let entry = DictEntry { key, value, hash: hash_of_text(text) };
    let after = dict.with_entry(entry, place);
    let at = match place {
        Some(i) => i as int,
        None => dict.entries.len() as int,
    };
    assert(after.entries[at] == entry);
    if let Some(j) = found {
        if j != at {
            assert(after.entries[j as int] == dict.entries[j as int]);
            if let Some(i) = place {
                let (first, second) = if i < j {
                    (i as int, j as int)
                } else {
                    (j as int, i as int)
                };
                assert(dict.entries[first].hash == dict.entries[second].hash);
                assert(seen_same(vm)(dict.entries[first].key, dict.entries[second].key));
            }
        }
    }
}

/// A notion of equal keys.
pub open spec fn is_equivalence(same: spec_fn(Value, Value) -> bool) -> bool {
    &&& forall|a: Value| #[trigger] same(a, a)
    &&& forall|a: Value, b: Value| #[trigger] same(a, b) ==> same(b, a)
    &&& forall|a: Value, b: Value, c: Value| #[trigger] same(a, b) && #[trigger] same(b, c) ==> same(a, c)
}

/// The notion of equal keys says what can be seen without the host.
pub open spec fn fits_sight(vm: VmModel, same: spec_fn(Value, Value) -> bool) -> bool {
    forall|a: Value, b: Value| #[trigger]
        native_equality(vm, a, b) matches Some(equal) ==> equal == same(a, b)
}

/// The notion of equal keys as far as it can be seen without the host.
pub open spec fn seen_same(vm: VmModel) -> spec_fn(Value, Value) -> bool {
    |a: Value, b: Value| native_equality(vm, a, b) == Some(true)
}

/// No two entries with the same hash have equal keys.
pub open spec fn keys_once(dict: DictModel, same: spec_fn(Value, Value) -> bool) -> bool {
    forall|i: int, j: int|
        0 <= i < j < dict.entries.len() && (#[trigger] dict.entries[i]).hash == (#[trigger] dict.entries[j]).hash
            ==> !same(dict.entries[i].key, dict.entries[j].key)
}

/// The place is where an equal key stands under the hash, or there is none.
pub open spec fn is_place_of(
    dict: DictModel,
    key: Value,
    hash: u64,
    same: spec_fn(Value, Value) -> bool,
    place: Option<usize>,
) -> bool {
    match place {
        Some(i) => i < dict.entries.len() && dict.entries[i as int].hash == hash && same(
            dict.entries[i as int].key,
            key,
        ),
        None => forall|i: int|
            0 <= i < dict.entries.len() && (#[trigger] dict.entries[i]).hash == hash ==> !same(
                dict.entries[i].key,
                key,
            ),
    }
}

/// A dictionary that holds every key once still does when an entry is set where
/// its key stands.
pub proof fn law_a_key_stands_once(
    dict: DictModel,
    entry: DictEntry,
    place: Option<usize>,
    same: spec_fn(Value, Value) -> bool,
)
    requires
        is_equivalence(same),
        keys_once(dict, same),
        is_place_of(dict, entry.key, entry.hash, same, place),
    ensures
        keys_once(dict.with_entry(entry, place), same),
{
    let after = dict.with_entry(entry, place);
    assert forall|i: int, j: int|
        0 <= i < j < after.entries.len() && (#[trigger] after.entries[i]).hash == (#[trigger] after.entries[j]).hash
        implies !same(after.entries[i].key, after.entries[j].key) by {
        match place {
            Some(p) => {
                let held = dict.entries[p as int].key;
                if i == p {
                    assert(after.entries[j] == dict.entries[j]);
                    if same(entry.key, dict.entries[j].key) {
                        assert(same(held, entry.key));
                        assert(same(held, dict.entries[j].key));
                    }
                } else if j == p {
                    assert(after.entries[i] == dict.entries[i]);
                    if same(dict.entries[i].key, entry.key) {
                        assert(same(entry.key, held));
                        assert(same(dict.entries[i].key, held));
                    }
                } else {
                    assert(after.entries[i] == dict.entries[i]);
                    assert(after.entries[j] == dict.entries[j]);
                }
            },
            None => {
                assert(after.entries[i] == dict.entries[i]);
                if j < dict.entries.len() {
                    assert(after.entries[j] == dict.entries[j]);
                }
            },
        }
    }
}

/// A dictionary that holds every key once still does when an entry is taken
/// out.
pub proof fn law_taking_out_keeps_keys_once(dict: DictModel, place: int, same: spec_fn(Value, Value) -> bool)
    requires
        keys_once(dict, same),
        0 <= place < dict.entries.len(),
    ensures
        keys_once(dict.without(place), same),
{
    let after = dict.without(place);
    assert forall|i: int, j: int|
        0 <= i < j < after.entries.len() && (#[trigger] after.entries[i]).hash == (#[trigger] after.entries[j]).hash
        implies !same(after.entries[i].key, after.entries[j].key) by {
        let a = if i < place {
            i
        } else {
            i + 1
        };
        let b = if j < place {
            j
        } else {
            j + 1
        };
        assert(after.entries[i] == dict.entries[a]);
        assert(after.entries[j] == dict.entries[b]);
    }
}

/// A walk that says of no key that it is equal to another finds the place of an
/// equal key.
proof fn lemma_walked_is_place(
    vm: VmModel,
    dict: DictModel,
    key: Value,
    hash: u64,
    compared: Seq<Value>,
    step: ProbeStep,
    same: spec_fn(Value, Value) -> bool,
)
    requires
        fits_sight(vm, same),
        walked_step(vm, dict, key, hash, compared, step),
        forall|i: int| 0 <= i < compared.len() ==> !same(#[trigger] compared[i], key),
    ensures
        step matches ProbeStep::Found(place) ==> is_place_of(dict, key, hash, same, Some(place)),
        step is Missing ==> is_place_of(dict, key, hash, same, None),
{
    if step is Missing {
        assert forall|i: int| 0 <= i < dict.entries.len() && (#[trigger] dict.entries[i]).hash == hash implies !same(
            dict.entries[i].key,
            key,
        ) by {
            if compared.contains(dict.entries[i].key) {
                let k = choose|k: int| 0 <= k < compared.len() && compared[k] == dict.entries[i].key;
                assert(!same(compared[k], key));
            } else {
                assert(native_equality(vm, dict.entries[i].key, key) == Some(false));
            }
        }
    } else if step is Found {
        let place = step->Found_0;
        assert(native_equality(vm, dict.entries[place as int].key, key) == Some(true));
    }
}

/// A lookup that asks nothing finds where an equal key stands, or that there is
/// none.
pub proof fn law_lookups_find_the_place(
    vm: VmModel,
    dict: DictModel,
    key: Value,
    hash: u64,
    step: ProbeStep,
    same: spec_fn(Value, Value) -> bool,
)
    requires
        fits_sight(vm, same),
        fresh_step(vm, dict, key, hash, step),
    ensures
        step matches ProbeStep::Found(place) ==> is_place_of(dict, key, hash, same, Some(place)),
        step is Missing ==> is_place_of(dict, key, hash, same, None),
{
    assert(!(step is Compare) ==> walked_step(vm, dict, key, hash, Seq::empty(), step));
    if !(step is Compare) {
        lemma_walked_is_place(vm, dict, key, hash, Seq::empty(), step, same);
    }
}

/// The rest of a walk finds where an equal key stands, or that there is none.
proof fn lemma_rest_is_place(
    vm: VmModel,
    dict: DictModel,
    key: Value,
    hash: u64,
    candidates: Seq<(usize, Value)>,
    compared: Seq<Value>,
    i: int,
    step: ProbeStep,
    same: spec_fn(Value, Value) -> bool,
)
    requires
        fits_sight(vm, same),
        rest_step(vm, dict, key, hash, candidates, compared, i, step),
        forall|k: int| 0 <= k < compared.len() ==> !same(#[trigger] compared[k], key),
    ensures
        step matches ProbeStep::Found(place) ==> is_place_of(dict, key, hash, same, Some(place)),
        step is Missing ==> is_place_of(dict, key, hash, same, None),
    decreases candidates.len() - i,
{
    if i < 0 || i >= candidates.len() {
        lemma_walked_is_place(vm, dict, key, hash, compared, step, same);
    } else if compared.contains(candidates[i].1) {
        lemma_rest_is_place(vm, dict, key, hash, candidates, compared, i + 1, step, same);
    } else if !stands(dict, hash, candidates[i]) {
        law_lookups_find_the_place(vm, dict, key, hash, step, same);
    } else if native_equality(vm, candidates[i].1, key) == Some(false) {
        lemma_rest_is_place(vm, dict, key, hash, candidates, compared, i + 1, step, same);
    }
}

/// A lookup that goes on with an answer finds where an equal key stands, or that
/// there is none, where the host answers by the notion of equal keys.
pub proof fn law_answered_lookups_find_the_place(
    vm: VmModel,
    dict: DictModel,
    probe: Probe,
    equal: bool,
    step: ProbeStep,
    same: spec_fn(Value, Value) -> bool,
)
    requires
        fits_sight(vm, same),
        probe.wf(),
        resumed_step(vm, dict, probe, equal, step),
        equal == same(probe.waiting(), probe.key),
        forall|i: int| 0 <= i < probe.refuted().len() ==> !same(#[trigger] probe.refuted()[i], probe.key),
    ensures
        step matches ProbeStep::Found(place) ==> is_place_of(dict, probe.key, probe.hash, same, Some(place)),
        step is Missing ==> is_place_of(dict, probe.key, probe.hash, same, None),
{
    let candidates = probe.candidates@;
    let at = probe.at as int;
    if !stands(dict, probe.hash, candidates[at]) {
        law_lookups_find_the_place(vm, dict, probe.key, probe.hash, step, same);
    } else if equal {
    } else if probe.first && at + 1 < candidates.len() {
        if !stands(dict, probe.hash, candidates[at + 1]) {
            law_lookups_find_the_place(vm, dict, probe.key, probe.hash, step, same);
        }
    } else if probe.first {
        let compared = keys_of(candidates);
        assert forall|i: int| 0 <= i < compared.len() implies !same(#[trigger] compared[i], probe.key) by {
            if i < at {
                assert(compared[i] == probe.refuted()[i]);
            }
        }
        lemma_walked_is_place(vm, dict, probe.key, probe.hash, compared, step, same);
    } else {
        let compared = probe.compared@;
        assert forall|i: int| 0 <= i < compared.len() implies !same(#[trigger] compared[i], probe.key) by {
            if i < compared.len() - 1 {
                assert(compared[i] == probe.refuted()[i]);
            }
        }
        lemma_rest_is_place(
            vm,
            dict,
            probe.key,
            probe.hash,
            candidates,
            compared,
            at + 1,
            step,
            same,
        );
    }
}

/// What can be seen of equal keys is a notion of equal keys.
pub proof fn law_seen_equality_is_an_equivalence(vm: VmModel)
    ensures
        is_equivalence(seen_same(vm)),
{
}

/// The place of a text is where an equal key stands, as can be seen.
pub proof fn law_text_places_are_places(
    vm: VmModel,
    dict: DictModel,
    key: Value,
    text: Seq<char>,
    hash: u64,
    place: Option<usize>,
)
    requires
        vm.text_of(key) == Some(text),
        text_place(vm, dict, text, hash, place),
    ensures
        is_place_of(dict, key, hash, seen_same(vm), place),
{
}

} // verus!
