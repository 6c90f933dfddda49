//! Source positions and the errors of parsing and preparing.

use crate::intern::InternerBuilder;
use crate::names::StringId;
use crate::text::join3;
use vstd::prelude::*;

verus! {

/// A range of source code.
#[derive(Clone, Copy, PartialEq, Eq, Structural)]
pub struct CodeRange {
    /// The file, by the identifier of its name.
    pub filename: StringId,
    /// Offset of the first byte.
    pub start: u32,
    /// Offset behind the last byte.
    pub end: u32,
}

impl CodeRange {
    /// The range that stands for no position.
    pub open spec fn nowhere() -> CodeRange {
        CodeRange { filename: 0, start: 0, end: 0 }
    }
}

impl Default for CodeRange {
    fn default() -> (range: CodeRange)
        ensures
            range == CodeRange::nowhere(),
    {
        CodeRange { filename: 0, start: 0, end: 0 }
    }
}

/// What is wrong with a program.
#[derive(Clone, Copy, PartialEq, Eq, Structural)]
pub enum ParseErrorKind {
    /// A parameter name occurs twice.
    DuplicateArgument(StringId),
    /// A name is bound above the statement that declares it global.
    AssignedBeforeGlobal(StringId),
    /// A name is read above the statement that declares it global.
    UsedBeforeGlobal(StringId),
    /// A name is bound above the statement that declares it nonlocal.
    AssignedBeforeNonlocal(StringId),
    /// A name is read above the statement that declares it nonlocal.
    UsedBeforeNonlocal(StringId),
    /// No enclosing function binds a name that is declared nonlocal.
    NoBindingForNonlocal(StringId),
    /// A nonlocal declaration stands at module level.
    NonlocalAtModuleLevel,
    /// A namespace needs more slots than a slot index can address.
    NamespaceOverflow,
    /// A comprehension binds an attribute or a subscript.
    ComprehensionTarget,
    /// A class member and a variable captured through the class body share
    /// a name.
    ShadowingClassMember(StringId),
    /// A class lists a member that its body does not bind.
    UnboundClassMember(StringId),
    /// A method of a name is called that nothing binds.
    UndefinedName(StringId),
}

/// An error in a program, with the place to report.
#[derive(Clone, Copy, PartialEq, Eq, Structural)]
pub struct ParseError {
    pub kind: ParseErrorKind,
    pub position: CodeRange,
}

/// The family an error belongs to.
#[derive(Clone, Copy, PartialEq, Eq, Structural)]
pub enum ParseErrorFamily {
    /// The program breaks a rule of the language.
    Syntax,
    /// The program uses what is not supported.
    NotImplemented,
    /// The program uses a name that stands for nothing.
    Name,
}

/// The text of identifier `id`, and nothing where there is none.
pub open spec fn name_text(strings: Seq<Seq<char>>, id: StringId) -> Seq<char> {
    if id < strings.len() {
        strings[id as int]
    } else {
        Seq::empty()
    }
}

/// The words of an error's message, given the interned strings.
pub open spec fn message_text(kind: ParseErrorKind, strings: Seq<Seq<char>>) -> Seq<char> {
    match kind {
        ParseErrorKind::DuplicateArgument(id) => "duplicate argument '"@ + name_text(strings, id)
            + "' in function definition"@,
        ParseErrorKind::AssignedBeforeGlobal(id) => "name '"@ + name_text(strings, id)
            + "' is assigned to before global declaration"@,
        ParseErrorKind::UsedBeforeGlobal(id) => "name '"@ + name_text(strings, id)
            + "' is used prior to global declaration"@,
        ParseErrorKind::AssignedBeforeNonlocal(id) => "name '"@ + name_text(strings, id)
            + "' is assigned to before nonlocal declaration"@,
        ParseErrorKind::UsedBeforeNonlocal(id) => "name '"@ + name_text(strings, id)
            + "' is used prior to nonlocal declaration"@,
        ParseErrorKind::NoBindingForNonlocal(id) => "no binding for nonlocal '"@ + name_text(strings, id)
            + "' found"@,
        ParseErrorKind::NonlocalAtModuleLevel => "nonlocal declaration not allowed at module level"@,
        ParseErrorKind::NamespaceOverflow => "too many names in one namespace"@,
        ParseErrorKind::ComprehensionTarget => "attribute or subscript targets in a comprehension"@,
        ParseErrorKind::ShadowingClassMember(id) => "class member '"@ + name_text(strings, id)
            + "' that shadows a captured variable of the same name from an enclosing scope"@,
        ParseErrorKind::UnboundClassMember(id) => "class member '"@ + name_text(strings, id)
            + "' missing from class-body locals"@,
        ParseErrorKind::UndefinedName(id) => "name '"@ + name_text(strings, id) + "' is not defined"@,
    }
}

impl ParseError {
    /// The family of this error.
    pub open spec fn family_spec(self) -> ParseErrorFamily {
        match self.kind {
            ParseErrorKind::ComprehensionTarget | ParseErrorKind::ShadowingClassMember(_) => {
                ParseErrorFamily::NotImplemented
            },
            ParseErrorKind::UndefinedName(_) => ParseErrorFamily::Name,
            _ => ParseErrorFamily::Syntax,
        }
    }

    /// The family of this error.
    pub fn family(&self) -> (family: ParseErrorFamily)
        ensures
            family == self.family_spec(),
    {
        match self.kind {
            ParseErrorKind::ComprehensionTarget | ParseErrorKind::ShadowingClassMember(_) => {
                ParseErrorFamily::NotImplemented
            },
            ParseErrorKind::UndefinedName(_) => ParseErrorFamily::Name,
            _ => ParseErrorFamily::Syntax,
        }
    }

    /// The words of this error.
    pub fn message(&self, interner: &InternerBuilder) -> (text: String)
        ensures
            text@ == message_text(self.kind, interner@),
    {
        match self.kind {
            ParseErrorKind::DuplicateArgument(id) => quoting(
                "duplicate argument '",
                id,
                "' in function definition",
                interner,
            ),
            ParseErrorKind::AssignedBeforeGlobal(id) => quoting(
                "name '",
                id,
                "' is assigned to before global declaration",
                interner,
            ),
            ParseErrorKind::UsedBeforeGlobal(id) => quoting(
                "name '",
                id,
                "' is used prior to global declaration",
                interner,
            ),
            ParseErrorKind::AssignedBeforeNonlocal(id) => quoting(
                "name '",
                id,
                "' is assigned to before nonlocal declaration",
                interner,
            ),
            ParseErrorKind::UsedBeforeNonlocal(id) => quoting(
                "name '",
                id,
                "' is used prior to nonlocal declaration",
                interner,
            ),
            ParseErrorKind::NoBindingForNonlocal(id) => quoting(
                "no binding for nonlocal '",
                id,
                "' found",
                interner,
            ),
            ParseErrorKind::NonlocalAtModuleLevel => {
                "nonlocal declaration not allowed at module level".to_owned()
            },
            ParseErrorKind::NamespaceOverflow => "too many names in one namespace".to_owned(),
            ParseErrorKind::ComprehensionTarget => {
                "attribute or subscript targets in a comprehension".to_owned()
            },
            ParseErrorKind::ShadowingClassMember(id) => quoting(
                "class member '",
                id,
                "' that shadows a captured variable of the same name from an enclosing scope",
                interner,
            ),
            ParseErrorKind::UnboundClassMember(id) => quoting(
                "class member '",
                id,
                "' missing from class-body locals",
                interner,
            ),
            ParseErrorKind::UndefinedName(id) => quoting("name '", id, "' is not defined", interner),
        }
    }
}

/// A message that quotes a name.
fn quoting(before: &str, id: StringId, after: &str, interner: &InternerBuilder) -> (text: String)
    ensures
        text@ == before@ + name_text(interner@, id) + after@,
{
    match interner.get_str(id) {
        Some(name) => join3(before, name, after),
        None => {
            let text = join3(before, "", after);
            proof {
                reveal_strlit("");
                assert(""@ =~= Seq::<char>::empty());
            }
            text
        },
    }
}

} // verus!
