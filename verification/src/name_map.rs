//! Namespaces: which name each slot stands for, and which slot each name has.

use crate::names::{NameSlots, NamespaceId, StringId};
use crate::parse::{CodeRange, ParseError, ParseErrorKind};
use vstd::prelude::*;

verus! {

/// The first of `slots` that stands for `name`.
pub open spec fn first_slot(slots: Seq<StringId>, name: StringId) -> Option<NamespaceId>
    decreases slots.len(),
{
    if slots.len() == 0 {
        None
    } else {
        match first_slot(slots.drop_last(), name) {
            Some(slot) => Some(slot),
            None => if slots.last() == name {
                Some((slots.len() - 1) as NamespaceId)
            } else {
                None
            },
        }
    }
}

/// The error of a namespace that has no room for another slot.
pub open spec fn overflow_error(position: CodeRange) -> ParseError {
    ParseError { kind: ParseErrorKind::NamespaceOverflow, position }
}

/// The slots after one more, labelled `name`, was asked for.
pub open spec fn with_new_slot(
    slots: Seq<StringId>,
    name: StringId,
    position: CodeRange,
) -> Result<Seq<StringId>, ParseError> {
    if slots.len() > NamespaceId::MAX {
        Err(overflow_error(position))
    } else {
        Ok(slots.push(name))
    }
}

/// The slots after one for `name` was asked for: there is a new one only
/// where the name has none.
pub open spec fn with_slot(
    slots: Seq<StringId>,
    name: StringId,
    position: CodeRange,
) -> Result<Seq<StringId>, ParseError> {
    if first_slot(slots, name) is Some {
        Ok(slots)
    } else {
        with_new_slot(slots, name, position)
    }
}

/// Every slot of `before` stands for the same name in `after`.
pub open spec fn keeps_slots(before: Seq<StringId>, after: Seq<StringId>) -> bool {
    &&& before.len() <= after.len()
    &&& forall|i: int| 0 <= i < before.len() ==> before[i] == #[trigger] after[i]
}

/// A name that has a slot in `before` has the same one in `after`, and one that
/// has none has a new one or none.
pub open spec fn known_or_new(before: Seq<StringId>, after: Seq<StringId>, name: StringId) -> bool {
    match first_slot(before, name) {
        Some(slot) => first_slot(after, name) == Some(slot),
        None => first_slot(after, name) matches Some(slot) ==> before.len() <= slot < after.len(),
    }
}

/// Names keep their slots, and new names get new ones.
pub open spec fn new_names_get_new_slots(before: Seq<StringId>, after: Seq<StringId>) -> bool {
    forall|name: StringId| #[trigger] known_or_new(before, after, name)
}

/// A slot that a name has is one that stands for it; a name without one
/// labels no slot.
pub proof fn lemma_first_slot(slots: Seq<StringId>, name: StringId)
    requires
        slots.len() <= NamespaceId::MAX + 1,
    ensures
        match first_slot(slots, name) {
            Some(slot) => slot < slots.len() && slots[slot as int] == name && (forall|i: int|
                0 <= i < slot ==> slots[i] != name),
            None => forall|i: int| 0 <= i < slots.len() ==> slots[i] != name,
        },
        first_slot(slots, name) is Some == slots.contains(name),
    decreases slots.len(),
{
    if slots.len() > 0 {
        let front = slots.drop_last();
        lemma_first_slot(front, name);
        assert forall|i: int| 0 <= i < front.len() implies slots[i] == front[i] by {}
        assert(slots[slots.len() - 1] == slots.last());
        if slots.contains(name) {
            let i = slots.index_of(name);
            if i < front.len() {
                assert(front[i] == name);
            }
        }
    }
}

/// Names that have a slot keep it when slots are added.
pub proof fn lemma_slots_stay(before: Seq<StringId>, after: Seq<StringId>, name: StringId)
    requires
        keeps_slots(before, after),
        first_slot(before, name) is Some,
    ensures
        first_slot(after, name) == first_slot(before, name),
    decreases after.len(),
{
    if before.len() == after.len() {
        assert(before =~= after);
    } else {
        assert(keeps_slots(before, after.drop_last()));
        lemma_slots_stay(before, after.drop_last(), name);
    }
}

/// A name that gets a slot when slots are added gets one of the new ones.
pub proof fn lemma_new_names_get_new_slots(before: Seq<StringId>, after: Seq<StringId>, name: StringId)
    requires
        keeps_slots(before, after),
        after.len() <= NamespaceId::MAX + 1,
        first_slot(before, name) is None,
    ensures
        first_slot(after, name) matches Some(slot) ==> before.len() <= slot < after.len(),
{
    lemma_first_slot(after, name);
    lemma_first_slot(before, name);
    if let Some(slot) = first_slot(after, name) {
        if slot < before.len() {
            assert(before[slot as int] == after[slot as int]);
        }
    }
}

/// A namespace: slots in the order of allocation, each labelled by a name.
///
/// Its view is the sequence of labels. A name resolves to the first slot
/// that it labels.
pub struct NameMap {
    labels: Vec<StringId>,
    index: NameSlots,
}

impl View for NameMap {
    type V = Seq<StringId>;

    closed spec fn view(&self) -> Seq<StringId> {
        self.labels@
    }
}

impl NameMap {
    /// The index finds the first slot of every name, and slots fit their
    /// index type.
    pub closed spec fn wf(&self) -> bool {
        &&& self.labels@.len() <= NamespaceId::MAX + 1
        &&& forall|name: StringId| #[trigger]
            self.index@.contains_key(name) == (first_slot(self.labels@, name) is Some)
        &&& forall|name: StringId| #[trigger]
            self.index@.contains_key(name) ==> first_slot(self.labels@, name) == Some(self.index@[name])
    }

    /// A namespace has no more slots than can be numbered.
    pub proof fn lemma_slots_fit(&self)
        requires
            self.wf(),
        ensures
            self@.len() <= NamespaceId::MAX + 1,
    {
    }

    /// The empty namespace.
    pub fn new() -> (names: NameMap)
        ensures
            names.wf(),
            names@ == Seq::<StringId>::empty(),
    {
        NameMap { labels: Vec::new(), index: NameSlots::new() }
    }

    /// The number of slots.
    pub fn len(&self) -> (count: usize)
        ensures
            count == self@.len(),
    {
        self.labels.len()
    }

    /// The slot of `name`.
    pub fn get(&self, name: StringId) -> (slot: Option<NamespaceId>)
        requires
            self.wf(),
        ensures
            slot == first_slot(self@, name),
    {
        self.index.get(name)
    }

    /// Says whether `name` has a slot.
    pub fn contains(&self, name: StringId) -> (found: bool)
        requires
            self.wf(),
        ensures
            found == (first_slot(self@, name) is Some),
            found == self@.contains(name),
    {
        proof {
            lemma_first_slot(self@, name);
        }
        self.index.get(name).is_some()
    }

    /// The name that labels `slot`.
    pub fn label(&self, slot: usize) -> (name: Option<StringId>)
        ensures
            name == (if slot < self@.len() {
                Some(self@[slot as int])
            } else {
                None
            }),
    {
        if slot < self.labels.len() {
            Some(self.labels[slot])
        } else {
            None
        }
    }

    /// The label of every slot.
    pub fn labels(&self) -> (names: &Vec<StringId>)
        ensures
            names@ == self@,
    {
        &self.labels
    }

    /// Says whether every slot stands for the same name in another namespace.
    pub fn is_extended_by(&self, other: &NameMap) -> (extended: bool)
        ensures
            extended == keeps_slots(self@, other@),
    {
        if self.labels.len() > other.labels.len() {
            return false;
        }
        let mut i: usize = 0;
        while i < self.labels.len()
            invariant
                i <= self@.len() <= other@.len(),
                forall|k: int| 0 <= k < i ==> self@[k] == #[trigger] other@[k],
            decreases self@.len() - i,
        {
            if self.labels[i] != other.labels[i] {
                assert(self@[i as int] != other@[i as int]);
                return false;
            }
            i = i + 1;
        }
        true
    }

    /// The slot of `name`, a new one where it has none.
    pub fn ensure_slot(&mut self, name: StringId, position: CodeRange) -> (slot: Result<NamespaceId, ParseError>)
        requires
            old(self).wf(),
        ensures
            final(self).wf(),
            match with_slot(old(self)@, name, position) {
                Ok(slots) => final(self)@ == slots && slot is Ok && first_slot(slots, name) == Some(slot->Ok_0),
                Err(error) => final(self)@ == old(self)@ && slot == Err::<NamespaceId, ParseError>(error),
            },
    {
        match self.get(name) {
            Some(slot) => Ok(slot),
            None => self.push_aliased_slot(name, position),
        }
    }

    /// A new slot labelled `name`, even where the name has one already.
    pub fn push_aliased_slot(&mut self, name: StringId, position: CodeRange) -> (slot: Result<
        NamespaceId,
        ParseError,
    >)
        requires
            old(self).wf(),
        ensures
            final(self).wf(),
            match with_new_slot(old(self)@, name, position) {
                Ok(slots) => final(self)@ == slots && slot == Ok::<NamespaceId, ParseError>(
                    old(self)@.len() as NamespaceId,
                ) && (first_slot(old(self)@, name) is None ==> first_slot(slots, name) == Some(
                    old(self)@.len() as NamespaceId,
                )),
                Err(error) => final(self)@ == old(self)@ && slot == Err::<NamespaceId, ParseError>(error),
            },
    {
        let count: usize = self.labels.len();
        if count > NamespaceId::MAX as usize {
            return Err(ParseError { kind: ParseErrorKind::NamespaceOverflow, position });
        }
        let slot: NamespaceId = count as NamespaceId;
        let known = self.index.get(name).is_some();
        self.labels.push(name);
        if !known {
            self.index.insert(name, slot);
        }
        proof {
            let before = old(self)@;
            assert(self.labels@.drop_last() =~= before);
            assert forall|other: StringId| #[trigger]
                self.index@.contains_key(other) == (first_slot(self.labels@, other) is Some) by {
                assert(old(self).index@.contains_key(other) == (first_slot(before, other) is Some));
            }
            assert forall|other: StringId| #[trigger]
                self.index@.contains_key(other) implies first_slot(self.labels@, other) == Some(
                self.index@[other],
            ) by {
                assert(old(self).index@.contains_key(other) == (first_slot(before, other) is Some));
            }
        }
        Ok(slot)
    }
}

} // verus!
