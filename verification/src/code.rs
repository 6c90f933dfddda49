//! Code objects: source that was found to compile, and how it is to run.

use crate::hash::{text_writes, write_text};
use crate::heap::HeapRead;
use crate::text::{join3, same_text};
use crate::value::HeapId;
use std::collections::hash_map::DefaultHasher;
use std::hash::Hasher;
use vstd::prelude::*;
use vstd::std_specs::hash::DefaultHasherAdditionalSpecFns;

verus! {

/// How the source of a code object is read.
#[derive(Clone, Copy, Debug, PartialEq, Eq, Hash, Structural)]
pub enum CodeMode {
    /// The source is a module body.
    Exec,
    /// The source is one expression.
    Eval,
}

/// A code object.
pub struct Code {
    source: String,
    filename: String,
    mode: CodeMode,
}

/// A code object as a mathematical value.
#[verifier::ext_equal]
pub struct CodeModel {
    pub source: Seq<char>,
    pub filename: Seq<char>,
    pub mode: CodeMode,
}

impl View for Code {
    type V = CodeModel;

    closed spec fn view(&self) -> CodeModel {
        CodeModel { source: self.source@, filename: self.filename@, mode: self.mode }
    }
}

/// Two code objects run the same source in the same way.
pub open spec fn same_code(left: CodeModel, right: CodeModel) -> bool {
    left.source == right.source && left.mode == right.mode
}

impl Code {
    /// A code object over source that was found to compile.
    pub fn new(source: String, filename: String, mode: CodeMode) -> (code: Code)
        ensures
            code@ == (CodeModel { source: source@, filename: filename@, mode }),
    {
        Code { source, filename, mode }
    }

    /// The source that the code object runs.
    pub fn source(&self) -> (source: &str)
        ensures
            source@ == self@.source,
    {
        self.source.as_str()
    }

    /// The name of the file that the source came from.
    pub fn filename(&self) -> (filename: &str)
        ensures
            filename@ == self@.filename,
    {
        self.filename.as_str()
    }

    /// How the source is read.
    pub fn mode(&self) -> (mode: CodeMode)
        ensures
            mode == self@.mode,
    {
        self.mode
    }

    /// Lists the items of the heap that the code object keeps alive: none.
    pub fn py_dec_ref_ids(&mut self, stack: &mut Vec<HeapId>)
        ensures
            *final(self) == *old(self),
            final(stack)@ == old(stack)@,
    {
    }
}

impl HeapRead<Code> {
    /// Whether two code objects run the same source in the same way. The file
    /// does not count.
    pub fn py_eq(&self, other: &HeapRead<Code>) -> (equal: bool)
        ensures
            equal == same_code(self.item@, other.item@),
    {
        same_text(self.item.source(), other.item.source()) && self.item.mode() == other.item.mode()
    }

    /// The hash of the code object, which the file does not count in.
    pub fn py_hash(&self) -> (hash: u64)
        ensures
            hash == code_hash(self.item@),
    {
        let mut hasher = DefaultHasher::new();
        write_text(&mut hasher, self.item.source());
        let mut mode: Vec<u8> = Vec::new();
        mode.push(mode_number(self.item.mode()));
        let mut i: usize = 1;
        while i < 8
            invariant
                1 <= i <= 8,
                mode@ == mode_write(self.item@.mode).subrange(0, i as int),
            decreases 8 - i,
        {
            mode.push(0);
            i = i + 1;
            assert(mode@ =~= mode_write(self.item@.mode).subrange(0, i as int));
        }
        assert(mode@ =~= mode_write(self.item@.mode));
        hasher.write(mode.as_slice());
        assert(hasher@ =~= text_writes(self.item@.source).push(mode_write(self.item@.mode)));
        hasher.finish()
    }

    /// The code object as text.
    pub fn py_repr(&self) -> (text: String)
        ensures
            text@ == "<code object <module>, file \""@ + self.item@.filename + "\">"@,
    {
        join3("<code object <module>, file \"", self.item.filename(), "\">")
    }
}

/// The number of a mode.
fn mode_number(mode: CodeMode) -> (number: u8)
    ensures
        number == mode_write(mode)[0],
{
    match mode {
        CodeMode::Exec => 0,
        CodeMode::Eval => 1,
    }
}

/// What a mode adds to what is hashed: its number, in eight bytes.
pub open spec fn mode_write(mode: CodeMode) -> Seq<u8> {
    seq![
        match mode {
            CodeMode::Exec => 0u8,
            CodeMode::Eval => 1u8,
        },
        0,
        0,
        0,
        0,
        0,
        0,
        0,
    ]
}

/// The hash of a code object.
pub open spec fn code_hash(code: CodeModel) -> u64 {
    DefaultHasher::spec_finish(text_writes(code.source).push(mode_write(code.mode)))
}

/// The same code has the same hash.
pub proof fn law_same_code_has_one_hash(a: CodeModel, b: CodeModel)
    requires
        same_code(a, b),
    ensures
        code_hash(a) == code_hash(b),
{
}

/// Being the same code is an equivalence.
pub proof fn law_same_code_is_an_equivalence(a: CodeModel, b: CodeModel, c: CodeModel)
    ensures
        same_code(a, a),
        same_code(a, b) == same_code(b, a),
        same_code(a, b) && same_code(b, c) ==> same_code(a, c),
{
}

} // verus!
