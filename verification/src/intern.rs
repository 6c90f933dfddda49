//! Interned strings and the table of builtin names.

use crate::names::StringId;
use crate::text::same_text;
use vstd::prelude::*;

verus! {

/// The position of the first of `strings` that reads `text`.
pub open spec fn position_of(strings: Seq<Seq<char>>, text: Seq<char>) -> Option<int>
    decreases strings.len(),
{
    if strings.len() == 0 {
        None
    } else {
        match position_of(strings.drop_last(), text) {
            Some(i) => Some(i),
            None => if strings.last() == text {
                Some(strings.len() - 1)
            } else {
                None
            },
        }
    }
}

/// A text that stands nowhere has no position, and a position is one where
/// the text stands and before which it does not.
pub proof fn lemma_position_of(strings: Seq<Seq<char>>, text: Seq<char>)
    ensures
        match position_of(strings, text) {
            Some(i) => 0 <= i < strings.len() && strings[i] == text && (forall|k: int|
                0 <= k < i ==> strings[k] != text),
            None => forall|k: int| 0 <= k < strings.len() ==> strings[k] != text,
        },
    decreases strings.len(),
{
    if strings.len() > 0 {
        lemma_position_of(strings.drop_last(), text);
        let front = strings.drop_last();
        match position_of(strings, text) {
            Some(i) => {
                assert forall|k: int| 0 <= k < i implies strings[k] != text by {
                    assert(strings[k] == front[k]);
                }
            },
            None => {
                assert forall|k: int| 0 <= k < strings.len() implies strings[k] != text by {
                    if k < front.len() {
                        assert(strings[k] == front[k]);
                    }
                }
            },
        }
    }
}

/// The texts that a list of strings holds.
pub open spec fn texts(strings: Seq<String>) -> Seq<Seq<char>> {
    Seq::new(strings.len(), |i: int| strings[i]@)
}

/// Looks for `text` among `strings`.
pub fn find_text(strings: &Vec<String>, text: &str) -> (found: Option<usize>)
    ensures
        match position_of(texts(strings@), text@) {
            Some(i) => found == Some(i as usize) && i < strings@.len(),
            None => found is None,
        },
{
    let mut i: usize = 0;
    while i < strings.len()
        invariant
            i <= strings@.len(),
            forall|k: int| 0 <= k < i ==> strings@[k]@ != text@,
        decreases strings@.len() - i,
    {
        if same_text(strings[i].as_str(), text) {
            proof {
                lemma_position_of(texts(strings@), text@);
                assert(texts(strings@)[i as int] == text@);
            }
            return Some(i);
        }
        i += 1;
    }
    proof {
        lemma_position_of(texts(strings@), text@);
    }
    None
}

/// The strings interned so far; a string's identifier is its position.
pub struct InternerBuilder {
    strings: Vec<String>,
}

impl View for InternerBuilder {
    type V = Seq<Seq<char>>;

    closed spec fn view(&self) -> Seq<Seq<char>> {
        texts(self.strings@)
    }
}

impl InternerBuilder {
    /// An interner that holds nothing.
    pub fn new() -> (interner: InternerBuilder)
        ensures
            interner@ == Seq::<Seq<char>>::empty(),
    {
        let interner = InternerBuilder { strings: Vec::new() };
        assert(interner@ =~= Seq::<Seq<char>>::empty());
        interner
    }

    /// The identifier of `text`: the one that it has, else the next one.
    ///
    /// Identifiers are 32 bits wide, so an interner holds at most that many
    /// strings.
    pub fn intern(&mut self, text: &str) -> (id: StringId)
        requires
            old(self)@.len() < u32::MAX,
        ensures
            match position_of(old(self)@, text@) {
                Some(i) => id == i && final(self)@ == old(self)@,
                None => id == old(self)@.len() && final(self)@ == old(self)@.push(text@),
            },
            id < final(self)@.len(),
            final(self)@[id as int] == text@,
    {
        proof {
            lemma_position_of(self@, text@);
        }
        match find_text(&self.strings, text) {
            Some(i) => i as u32,
            None => {
                let id: u32 = self.strings.len() as u32;
                self.strings.push(text.to_owned());
                assert(self@ =~= old(self)@.push(text@));
                id
            },
        }
    }

    /// The identifier of `text`, where it has one.
    pub fn get_string_id_by_name(&self, text: &str) -> (id: Option<StringId>)
        requires
            self@.len() <= u32::MAX,
        ensures
            match position_of(self@, text@) {
                Some(i) => 0 <= i < self@.len() && id == Some(i as StringId),
                None => id is None,
            },
    {
        proof {
            lemma_position_of(self@, text@);
        }
        match find_text(&self.strings, text) {
            Some(i) => Some(i as u32),
            None => None,
        }
    }

    /// Says whether every identifier stands for the same string in another
    /// interner.
    pub fn is_extended_by(&self, other: &InternerBuilder) -> (extended: bool)
        ensures
            extended == self@.is_prefix_of(other@),
    {
        if self.strings.len() > other.strings.len() {
            return false;
        }
        let mut i: usize = 0;
        while i < self.strings.len()
            invariant
                i <= self@.len() <= other@.len(),
                self@.len() == self.strings@.len(),
                other@.len() == other.strings@.len(),
                forall|k: int| 0 <= k < i ==> self@[k] == #[trigger] other@[k],
            decreases self@.len() - i,
        {
            if !same_text(self.strings[i].as_str(), other.strings[i].as_str()) {
                assert(self@[i as int] != other@[i as int]);
                assert(other@.subrange(0, self@.len() as int)[i as int] == other@[i as int]);
                return false;
            }
            i = i + 1;
        }
        assert(self@ =~= other@.subrange(0, self@.len() as int));
        true
    }

    /// The string with identifier `id`.
    pub fn get_str(&self, id: StringId) -> (text: Option<&str>)
        ensures
            match text {
                Some(t) => id < self@.len() && t@ == self@[id as int],
                None => id >= self@.len(),
            },
    {
        if (id as usize) < self.strings.len() {
            Some(self.strings[id as usize].as_str())
        } else {
            None
        }
    }
}

/// A builtin function, type or exception, by its place in the table of
/// builtin names.
#[derive(Clone, Copy, PartialEq, Eq, Structural)]
pub struct Builtins {
    pub index: usize,
}

/// The names that builtins go by.
pub struct BuiltinTable {
    names: Vec<String>,
}

impl View for BuiltinTable {
    type V = Seq<Seq<char>>;

    closed spec fn view(&self) -> Seq<Seq<char>> {
        texts(self.names@)
    }
}

/// The builtin that goes by `name`.
pub open spec fn builtin_named(table: Seq<Seq<char>>, name: Seq<char>) -> Option<Builtins> {
    match position_of(table, name) {
        Some(i) => Some(Builtins { index: i as usize }),
        None => None,
    }
}

impl BuiltinTable {
    /// The table with the given names.
    pub fn new(names: Vec<String>) -> (table: BuiltinTable)
        ensures
            table@ == texts(names@),
    {
        BuiltinTable { names }
    }

    /// The builtin that goes by `name`.
    pub fn parse(&self, name: &str) -> (builtin: Option<Builtins>)
        ensures
            builtin == builtin_named(self@, name@),
    {
        match find_text(&self.names, name) {
            Some(index) => Some(Builtins { index }),
            None => None,
        }
    }
}

} // verus!
