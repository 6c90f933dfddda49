//! The syntax tree after preparation: every name is resolved to a slot.

use crate::ast::{CmpOperator, ConversionFlag, Literal, Operator};
use crate::intern::Builtins;
use crate::names::{NamespaceId, StringId};
use crate::parse::CodeRange;
use vstd::prelude::*;

verus! {

/// Where the slot of a resolved name lies.
#[derive(Clone, Copy, PartialEq, Eq, Structural)]
pub enum NameScope {
    /// In the namespace of the running function.
    Local,
    /// In the namespace of the module.
    Global,
    /// In the namespace of the running function, which holds a cell there.
    Cell,
    /// Among the scratch slots of a comprehension.
    CompVar,
}

/// An occurrence of a name with the slot that it stands for.
#[derive(Clone, Copy, PartialEq, Eq, Structural)]
pub struct ResolvedIdentifier {
    pub name_id: StringId,
    pub position: CodeRange,
    pub slot: NamespaceId,
    pub scope: NameScope,
}

/// Where the cell of a captured variable comes from when a closure is built.
#[derive(Clone, Copy, PartialEq, Eq, Structural)]
pub enum CaptureSource {
    /// A slot of the enclosing namespace.
    Namespace(NamespaceId),
    /// A scratch slot of an enclosing comprehension.
    CompVar(u16),
}

/// A prepared expression and where it stands.
pub struct PreparedExprLoc {
    pub position: CodeRange,
    pub expr: PreparedExpr,
}

/// What a plain call calls.
#[derive(Clone, Copy, PartialEq, Eq, Structural)]
pub enum PreparedCallable {
    Builtin(Builtins),
    Name(ResolvedIdentifier),
}

/// An element of a list, tuple or set display.
pub enum PreparedSequenceItem {
    Value(PreparedExprLoc),
    Unpack(PreparedExprLoc),
}

/// An element of a dict display.
pub enum PreparedDictItem {
    Pair(PreparedExprLoc, PreparedExprLoc),
    Unpack(PreparedExprLoc),
}

/// A keyword argument.
pub struct PreparedKwarg {
    pub key: crate::ast::Identifier,
    pub value: PreparedExprLoc,
}

/// A positional argument of a call that mixes values and unpackings.
pub enum PreparedCallArg {
    Value(PreparedExprLoc),
    Unpack(PreparedExprLoc),
}

/// A keyword argument of a call that mixes names and unpackings.
pub enum PreparedCallKwarg {
    Named(PreparedKwarg),
    Unpack(PreparedExprLoc),
}

/// The arguments of a call.
#[allow(inconsistent_fields)]
pub enum PreparedArgs {
    Empty,
    One(PreparedExprLoc),
    Two(PreparedExprLoc, PreparedExprLoc),
    Args(Vec<PreparedExprLoc>),
    Kwargs(Vec<PreparedKwarg>),
    ArgsKargs {
        args: Option<Vec<PreparedExprLoc>>,
        kwargs: Option<Vec<PreparedKwarg>>,
        var_args: Option<PreparedExprLoc>,
        var_kwargs: Option<PreparedExprLoc>,
    },
    GeneralizedCall { args: Vec<PreparedCallArg>, kwargs: Vec<PreparedCallKwarg> },
}

/// The format spec of an interpolation.
pub enum PreparedFormatSpec {
    Static(StringId),
    Dynamic(Vec<PreparedFStringPart>),
}

/// A part of a formatted string.
pub enum PreparedFStringPart {
    Literal(StringId),
    Interpolation {
        expr: Box<PreparedExprLoc>,
        conversion: ConversionFlag,
        format_spec: Option<PreparedFormatSpec>,
        debug_prefix: Option<StringId>,
    },
}

/// A field of a template string.
pub struct PreparedInterpolation {
    pub expr: Box<PreparedExprLoc>,
    pub expression: StringId,
    pub conversion: ConversionFlag,
    pub format_spec: Vec<PreparedFStringPart>,
}

/// A template string.
pub struct PreparedTemplate {
    pub strings: Vec<StringId>,
    pub interpolations: Vec<PreparedInterpolation>,
}

/// A target that a value is bound to.
pub enum PreparedTarget {
    Name(ResolvedIdentifier),
    Starred(ResolvedIdentifier),
    Attr { object: PreparedExprLoc, attr: StringId, position: CodeRange },
    Subscript { object: PreparedExprLoc, index: PreparedExprLoc, position: CodeRange },
    Tuple { targets: Vec<PreparedTarget>, position: CodeRange },
}

/// A target of `del`.
pub enum PreparedDeleteTarget {
    Name(ResolvedIdentifier),
    Attr { object: PreparedExprLoc, attr: StringId, position: CodeRange },
    Subscript { object: PreparedExprLoc, index: PreparedExprLoc, position: CodeRange },
}

/// One `for` clause of a comprehension with its filters.
pub struct PreparedClause {
    pub target: PreparedTarget,
    pub iter: PreparedExprLoc,
    pub ifs: Vec<PreparedExprLoc>,
}

/// The `for` clauses of a comprehension.
pub struct PreparedGenerators {
    pub first: PreparedClause,
    pub rest: Vec<PreparedClause>,
}

/// The parameters of a function as a call binds them.
pub struct Signature {
    /// Names of the positional-only parameters.
    pub pos_args: Vec<StringId>,
    /// How many of them have a default.
    pub pos_defaults_count: usize,
    /// Names of the ordinary parameters.
    pub args: Vec<StringId>,
    /// How many of them have a default.
    pub arg_defaults_count: usize,
    /// Name of the parameter that takes surplus positional arguments.
    pub var_args: Option<StringId>,
    /// Names of the keyword-only parameters.
    pub kwargs: Vec<StringId>,
    /// For each of them, which of their defaults belongs to it.
    pub kwarg_default_map: Vec<Option<usize>>,
    /// Name of the parameter that takes surplus keyword arguments.
    pub var_kwargs: Option<StringId>,
}

/// A function ready for compilation.
pub struct PreparedFunctionDef {
    pub name: ResolvedIdentifier,
    pub signature: Signature,
    pub body: Vec<PreparedNode>,
    /// The number of slots of its namespace.
    pub namespace_size: usize,
    /// Where each captured cell is taken from when the closure is built.
    pub free_var_enclosing_slots: Vec<CaptureSource>,
    /// The slot that each captured cell goes to when the function is called.
    pub free_var_slots: Vec<NamespaceId>,
    /// The slot that each fresh cell goes to when the function is called.
    pub cell_var_slots: Vec<NamespaceId>,
    /// The parameter that each fresh cell starts from.
    pub cell_param_indices: Vec<Option<usize>>,
    /// The default values: those of positional-only, ordinary and
    /// keyword-only parameters, in that order.
    pub default_exprs: Vec<PreparedExprLoc>,
    pub is_async: bool,
    pub is_generator: bool,
}

/// A prepared expression.
#[allow(inconsistent_fields)]
pub enum PreparedExpr {
    Literal(Literal),
    Builtin(Builtins),
    Name(ResolvedIdentifier),
    Op { left: Box<PreparedExprLoc>, op: Operator, right: Box<PreparedExprLoc> },
    CmpOp { left: Box<PreparedExprLoc>, op: CmpOperator, right: Box<PreparedExprLoc> },
    ChainCmp { left: Box<PreparedExprLoc>, comparisons: Vec<(CmpOperator, PreparedExprLoc)> },
    Call { callable: PreparedCallable, args: Box<PreparedArgs> },
    AttrCall { object: Box<PreparedExprLoc>, attr: StringId, args: Box<PreparedArgs> },
    IndirectCall { callable: Box<PreparedExprLoc>, args: Box<PreparedArgs> },
    AttrGet { object: Box<PreparedExprLoc>, attr: StringId },
    List(Vec<PreparedSequenceItem>),
    Tuple(Vec<PreparedSequenceItem>),
    SetDisplay(Vec<PreparedSequenceItem>),
    Subscript { object: Box<PreparedExprLoc>, index: Box<PreparedExprLoc> },
    Dict(Vec<PreparedDictItem>),
    Not(Box<PreparedExprLoc>),
    UnaryMinus(Box<PreparedExprLoc>),
    UnaryPlus(Box<PreparedExprLoc>),
    UnaryInvert(Box<PreparedExprLoc>),
    Await(Box<PreparedExprLoc>),
    FString(Vec<PreparedFStringPart>),
    TString(Box<PreparedTemplate>),
    IfElse { test: Box<PreparedExprLoc>, body: Box<PreparedExprLoc>, orelse: Box<PreparedExprLoc> },
    ListComp { elt: Box<PreparedExprLoc>, generators: Box<PreparedGenerators>, captured_slots: Vec<u16> },
    SetComp { elt: Box<PreparedExprLoc>, generators: Box<PreparedGenerators>, captured_slots: Vec<u16> },
    DictComp {
        key: Box<PreparedExprLoc>,
        value: Box<PreparedExprLoc>,
        generators: Box<PreparedGenerators>,
        captured_slots: Vec<u16>,
    },
    Lambda { func_def: Box<PreparedFunctionDef> },
    GeneratorExp { func_def: Box<PreparedFunctionDef>, iter: Box<PreparedExprLoc> },
    Yield(Option<Box<PreparedExprLoc>>),
    YieldFrom(Box<PreparedExprLoc>),
    Slice {
        lower: Option<Box<PreparedExprLoc>>,
        upper: Option<Box<PreparedExprLoc>>,
        step: Option<Box<PreparedExprLoc>>,
    },
    Named { target: ResolvedIdentifier, value: Box<PreparedExprLoc> },
}

/// A class definition.
pub struct PreparedClassDef {
    pub name: ResolvedIdentifier,
    pub bases: Vec<PreparedExprLoc>,
    pub body: PreparedFunctionDef,
    pub members: Vec<ResolvedIdentifier>,
    pub decorators: Vec<PreparedExprLoc>,
    pub position: CodeRange,
}

/// One `except` clause.
pub struct PreparedHandler {
    pub exc_type: Option<PreparedExprLoc>,
    pub name: Option<ResolvedIdentifier>,
    pub body: Vec<PreparedNode>,
}

/// A `try` statement.
pub struct PreparedTry {
    pub body: Vec<PreparedNode>,
    pub handlers: Vec<PreparedHandler>,
    pub or_else: Vec<PreparedNode>,
    pub finally: Vec<PreparedNode>,
}

/// A module that an `import` statement names, and what it binds.
#[derive(Clone, Copy, PartialEq, Eq, Structural)]
pub struct PreparedImportName {
    pub module_name: StringId,
    pub bound_name: StringId,
    pub binding: ResolvedIdentifier,
}

/// A prepared statement.
#[allow(inconsistent_fields)]
pub enum PreparedNode {
    Expr(PreparedExprLoc),
    Return(Option<PreparedExprLoc>),
    Raise { exc: Option<PreparedExprLoc>, cause: Option<PreparedExprLoc> },
    Assert { test: PreparedExprLoc, msg: Option<PreparedExprLoc> },
    Assign { target: ResolvedIdentifier, object: PreparedExprLoc },
    UnpackAssign { targets: Vec<PreparedTarget>, targets_position: CodeRange, object: PreparedExprLoc },
    OpAssign { target: ResolvedIdentifier, op: Operator, value: PreparedExprLoc },
    SubscriptOpAssign {
        target: PreparedExprLoc,
        index: PreparedExprLoc,
        op: Operator,
        value: PreparedExprLoc,
        target_position: CodeRange,
    },
    SubscriptAssign {
        target: PreparedExprLoc,
        index: PreparedExprLoc,
        value: PreparedExprLoc,
        target_position: CodeRange,
    },
    AttrOpAssign {
        object: PreparedExprLoc,
        attr: StringId,
        op: Operator,
        value: PreparedExprLoc,
        target_position: CodeRange,
    },
    AttrAssign { object: PreparedExprLoc, attr: StringId, target_position: CodeRange, value: PreparedExprLoc },
    ChainAssign { targets: Vec<PreparedTarget>, object: PreparedExprLoc },
    Delete(Vec<PreparedDeleteTarget>),
    TypeAlias { name: ResolvedIdentifier, value: PreparedFunctionDef },
    For {
        target: PreparedTarget,
        iter: PreparedExprLoc,
        body: Vec<PreparedNode>,
        or_else: Vec<PreparedNode>,
        is_async: bool,
    },
    Break { position: CodeRange },
    Continue { position: CodeRange },
    While { test: PreparedExprLoc, body: Vec<PreparedNode>, or_else: Vec<PreparedNode> },
    If { test: PreparedExprLoc, body: Vec<PreparedNode>, or_else: Vec<PreparedNode> },
    FunctionDef { def: PreparedFunctionDef, decorators: Vec<PreparedExprLoc> },
    ClassDef(Box<PreparedClassDef>),
    Try(PreparedTry),
    With {
        context: PreparedExprLoc,
        target: Option<PreparedTarget>,
        body: Vec<PreparedNode>,
        position: CodeRange,
        is_async: bool,
    },
    Import { names: Vec<PreparedImportName> },
    ImportFrom { module_name: StringId, names: Vec<(StringId, ResolvedIdentifier)>, position: CodeRange },
}

impl PreparedExpr {
    /// The expression is the constant `None`.
    pub open spec fn is_none_spec(&self) -> bool {
        *self == PreparedExpr::Literal(Literal::NoneValue)
    }

    /// Says whether the expression is the constant `None`.
    pub fn is_none(&self) -> (none: bool)
        ensures
            none == self.is_none_spec(),
    {
        match self {
            PreparedExpr::Literal(Literal::NoneValue) => true,
            _ => false,
        }
    }
}

} // verus!
