//! The symbols that every compilation of a session extends.

use crate::intern::InternerBuilder;
use crate::name_map::NameMap;
use crate::names::StringId;
use vstd::prelude::*;

verus! {

/// The slots of the module-level names, and everything that is interned.
///
/// Both only grow: what a slot or an identifier stands for never changes.
pub struct Program {
    pub globals: NameMap,
    pub interns: InternerBuilder,
}

impl Program {
    /// The names that label slots are interned.
    pub open spec fn wf(self) -> bool {
        &&& self.globals.wf()
        &&& self.interns@.len() <= u32::MAX
        &&& forall|i: int| 0 <= i < self.globals@.len() ==> (#[trigger] self.globals@[i]) < self.interns@.len()
    }

    /// Symbols before anything was compiled.
    pub fn new() -> (program: Program)
        ensures
            program.wf(),
            program.globals@ == Seq::<StringId>::empty(),
            program.interns@ == Seq::<Seq<char>>::empty(),
    {
        Program { globals: NameMap::new(), interns: InternerBuilder::new() }
    }
}

} // verus!
