//! Iteration over dictionaries.

use crate::dict::Dict;
use crate::exceptions::{raise, raised, ErrorModel, ExcType, RunResult};
use crate::heap::{check_time_every, timed_out};
use crate::resource_checks::{may_time_out, run_error, ResourceTracker};
use crate::value::{HeapId, Value};
use vstd::prelude::*;

verus! {

/// A walk over a dictionary that must not change its size meanwhile.
#[derive(Clone, Copy, Debug, PartialEq, Eq, Structural)]
pub struct DictIter {
    /// The place of the next entry.
    pub index: usize,
    /// How many entries the dictionary had at the start.
    pub expected_len: usize,
}

/// The next place of a walk, and the walk behind it.
pub open spec fn next_entry(iter: DictIter, current_len: usize) -> (Result<Option<usize>, ErrorModel>, DictIter) {
    if current_len != iter.expected_len {
        (Err(changed_size_error()), iter)
    } else if iter.index >= iter.expected_len {
        (Ok(None), iter)
    } else {
        (Ok(Some(iter.index)), DictIter { index: (iter.index + 1) as usize, ..iter })
    }
}

impl DictIter {
    /// A walk over a dictionary.
    pub fn new(dict: &Dict) -> (iter: DictIter)
        ensures
            iter == (DictIter { index: 0, expected_len: dict@.entries.len() as usize }),
    {
        DictIter { index: 0, expected_len: dict.entries.len() }
    }

    /// The place of the next entry. The walk is held against the time limit.
    pub fn advance(&mut self, current_len: usize, tracker: &ResourceTracker) -> (place: RunResult<Option<usize>>)
        ensures
            ({
                let (expected, next) = next_entry(*old(self), current_len);
                ||| timed_out(*tracker, place) && *final(self) == *old(self)
                ||| *final(self) == next && match (place, expected) {
                    (Ok(place), Ok(expected)) => place == expected,
                    (Err(error), Err(expected)) => error@ == expected,
                    _ => false,
                }
            }),
            place matches Ok(Some(p)) ==> p < current_len,
    {
        if let Err(limit) = check_time_every(self.index, tracker) {
            let failed: RunResult<Option<usize>> = Err(run_error(limit));
            assert(may_time_out(*tracker, limit));
            return failed;
        }
        if current_len != self.expected_len {
            return Err(raise(ExcType::RuntimeError, "dictionary changed size during iteration"));
        }
        if self.index >= self.expected_len {
            return Ok(None);
        }
        let index: usize = self.index;
        self.index = index + 1;
        Ok(Some(index))
    }

    /// The next key and value. The walk is held against the time limit.
    pub fn next_owned(&mut self, dict: &Dict, tracker: &ResourceTracker) -> (pair: RunResult<Option<(Value, Value)>>)
        ensures
            ({
                let (expected, next) = next_entry(*old(self), dict@.entries.len() as usize);
                ||| timed_out(*tracker, pair) && *final(self) == *old(self)
                ||| *final(self) == next && match (pair, expected) {
                    (Ok(Some(pair)), Ok(Some(p))) => pair == (
                        dict@.entries[p as int].key,
                        dict@.entries[p as int].value,
                    ),
                    (Ok(None), Ok(None)) => true,
                    (Err(error), Err(expected)) => error@ == expected,
                    _ => false,
                }
            }),
    {
        match self.advance(dict.entries.len(), tracker) {
            Ok(Some(place)) => Ok(Some((dict.entries[place].key, dict.entries[place].value))),
            Ok(None) => Ok(None),
            Err(error) => Err(error),
        }
    }
}

/// Where an iterator over a dictionary stands.
#[derive(Clone, Copy, Debug, PartialEq, Eq, Structural)]
pub struct DictIteratorState {
    /// The dictionary.
    pub dict: HeapId,
    /// The place of the next entry.
    pub index: usize,
    /// How many entries the dictionary had at the start.
    pub expected_len: usize,
    /// The end was reached once.
    pub exhausted: bool,
}

/// The error about a dictionary that grew or shrank under an iterator.
pub open spec fn changed_size_error() -> ErrorModel {
    raised(ExcType::RuntimeError, "dictionary changed size during iteration"@)
}

/// The next place, and the state behind the step. A change of the size counts
/// until the end was reached, also at the last step.
pub open spec fn next_place(state: DictIteratorState, current_len: usize) -> (
    Result<Option<usize>, ErrorModel>,
    DictIteratorState,
) {
    if state.exhausted {
        (Ok(None), state)
    } else if current_len != state.expected_len {
        (Err(changed_size_error()), state)
    } else if state.index >= state.expected_len {
        (Ok(None), DictIteratorState { exhausted: true, ..state })
    } else {
        (Ok(Some(state.index)), DictIteratorState { index: (state.index + 1) as usize, ..state })
    }
}

impl DictIteratorState {
    /// Starts to iterate over a dictionary of so many entries.
    pub fn new(dict: HeapId, expected_len: usize) -> (state: DictIteratorState)
        ensures
            state == (DictIteratorState { dict, index: 0, expected_len, exhausted: false }),
    {
        DictIteratorState { dict, index: 0, expected_len, exhausted: false }
    }

    /// The place of the next entry, or nothing at the end.
    pub fn next_index(&mut self, current_len: usize) -> (place: RunResult<Option<usize>>)
        ensures
            *final(self) == next_place(*old(self), current_len).1,
            match (place, next_place(*old(self), current_len).0) {
                (Ok(place), Ok(expected)) => place == expected,
                (Err(error), Err(expected)) => error@ == expected,
                _ => false,
            },
            place matches Ok(Some(p)) ==> p < current_len,
    {
        if self.exhausted {
            Ok(None)
        } else if current_len != self.expected_len {
            Err(raise(ExcType::RuntimeError, "dictionary changed size during iteration"))
        } else if self.index >= self.expected_len {
            self.exhausted = true;
            Ok(None)
        } else {
            let index: usize = self.index;
            self.index = self.index + 1;
            Ok(Some(index))
        }
    }

    /// How many entries are still to come.
    pub fn size_hint(&self) -> (count: usize)
        ensures
            count == if self.index <= self.expected_len {
                self.expected_len - self.index
            } else {
                0
            },
    {
        self.expected_len.saturating_sub(self.index)
    }

    /// The dictionary that the iterator keeps alive.
    pub fn source_id(&self) -> (id: HeapId)
        ensures
            id == self.dict,
    {
        self.dict
    }

    /// Lists the items of the heap that the iterator keeps alive.
    pub fn py_dec_ref_ids(&mut self, stack: &mut Vec<HeapId>)
        ensures
            *final(self) == *old(self),
            final(stack)@ == old(stack)@.push(old(self).dict),
    {
        stack.push(self.dict);
    }

    /// The next key and value.
    pub fn next_item(&mut self, dict: &Dict) -> (item: RunResult<Option<(Value, Value)>>)
        ensures
            *final(self) == next_place(*old(self), dict@.entries.len() as usize).1,
            match (item, next_place(*old(self), dict@.entries.len() as usize).0) {
                (Ok(Some(item)), Ok(Some(p))) => item == (dict@.entries[p as int].key, dict@.entries[p as int].value),
                (Ok(None), Ok(None)) => true,
                (Err(error), Err(expected)) => error@ == expected,
                _ => false,
            },
    {
        match self.next_index(dict.entries.len())? {
            Some(place) => Ok(Some((dict.entries[place].key, dict.entries[place].value))),
            None => Ok(None),
        }
    }
}

/// An iterator that has reached its end stays there, whatever happens to the
/// dictionary.
pub proof fn law_exhausted_iterator_stays(state: DictIteratorState, current_len: usize)
    requires
        state.exhausted,
    ensures
        next_place(state, current_len).0 == Ok::<Option<usize>, ErrorModel>(None),
        next_place(state, current_len).1 == state,
{
}

/// An iterator over a dictionary whose size changed ends with an error, unless
/// it has reached its end.
pub proof fn law_changed_size_ends_iteration(state: DictIteratorState, current_len: usize)
    requires
        !state.exhausted,
        current_len != state.expected_len,
    ensures
        next_place(state, current_len).0 == Err::<Option<usize>, ErrorModel>(changed_size_error()),
{
}

} // verus!
