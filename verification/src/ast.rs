//! The syntax tree as the parser hands it over: names are not resolved yet.

use crate::intern::Builtins;
use crate::names::StringId;
use crate::parse::CodeRange;
use crate::tstring::ParsedTemplate;
use vstd::prelude::*;

verus! {

/// A binary operator.
#[derive(Clone, Copy, PartialEq, Eq, Structural)]
pub enum Operator {
    Add,
    Sub,
    Mult,
    MatMult,
    Div,
    FloorDiv,
    Mod,
    Pow,
    LShift,
    RShift,
    BitOr,
    BitXor,
    BitAnd,
    And,
    Or,
}

/// A comparison operator.
#[derive(Clone, Copy, PartialEq, Eq, Structural)]
pub enum CmpOperator {
    Eq,
    NotEq,
    Lt,
    LtE,
    Gt,
    GtE,
    Is,
    IsNot,
    In,
    NotIn,
}

/// A constant that stands in the source. Numbers with a fraction are kept by
/// their bits; long integers and byte strings are interned.
#[derive(Clone, Copy, PartialEq, Eq, Structural)]
pub enum Literal {
    Ellipsis,
    NoneValue,
    Bool(bool),
    Int(i64),
    FloatBits(u64),
    Str(StringId),
    Bytes(u32),
    LongInt(u32),
}

/// How an interpolated value is turned into text before it is formatted.
#[derive(Clone, Copy, PartialEq, Eq, Structural)]
pub enum ConversionFlag {
    Plain,
    Str,
    Repr,
    Ascii,
}

/// An occurrence of a name.
#[derive(Clone, Copy, PartialEq, Eq, Structural)]
pub struct Identifier {
    pub name_id: StringId,
    pub position: CodeRange,
}

/// An expression and where it stands.
pub struct ExprLoc {
    pub position: CodeRange,
    pub expr: Expr,
}

/// What a plain call calls.
#[derive(Clone, Copy, PartialEq, Eq, Structural)]
pub enum Callable {
    Builtin(Builtins),
    Name(Identifier),
}

/// An element of a list, tuple or set display.
pub enum SequenceItem {
    Value(ExprLoc),
    Unpack(ExprLoc),
}

/// An element of a dict display.
pub enum DictItem {
    Pair(ExprLoc, ExprLoc),
    Unpack(ExprLoc),
}

/// A keyword argument.
pub struct Kwarg {
    pub key: Identifier,
    pub value: ExprLoc,
}

/// A positional argument of a call that mixes values and unpackings.
pub enum CallArg {
    Value(ExprLoc),
    Unpack(ExprLoc),
}

/// A keyword argument of a call that mixes names and unpackings.
pub enum CallKwarg {
    Named(Kwarg),
    Unpack(ExprLoc),
}

/// The arguments of a call.
#[allow(inconsistent_fields)]
pub enum ArgExprs {
    Empty,
    One(ExprLoc),
    Two(ExprLoc, ExprLoc),
    Args(Vec<ExprLoc>),
    Kwargs(Vec<Kwarg>),
    ArgsKargs {
        args: Option<Vec<ExprLoc>>,
        kwargs: Option<Vec<Kwarg>>,
        var_args: Option<ExprLoc>,
        var_kwargs: Option<ExprLoc>,
    },
    GeneralizedCall { args: Vec<CallArg>, kwargs: Vec<CallKwarg> },
}

/// The format spec of an interpolation.
pub enum FormatSpec {
    Static(StringId),
    Dynamic(Vec<FStringPart>),
}

/// A part of a formatted string.
pub enum FStringPart {
    Literal(StringId),
    Interpolation {
        expr: Box<ExprLoc>,
        conversion: ConversionFlag,
        format_spec: Option<FormatSpec>,
        debug_prefix: Option<StringId>,
    },
}

/// A target that a value is bound to.
pub enum UnpackTarget {
    Name(Identifier),
    Starred(Identifier),
    Attr { object: ExprLoc, attr: StringId, position: CodeRange },
    Subscript { object: ExprLoc, index: ExprLoc, position: CodeRange },
    Tuple { targets: Vec<UnpackTarget>, position: CodeRange },
}

/// A target of `del`.
pub enum DeleteTarget {
    Name(Identifier),
    Attr { object: ExprLoc, attr: StringId, position: CodeRange },
    Subscript { object: ExprLoc, index: ExprLoc, position: CodeRange },
}

/// One `for` clause of a comprehension with its filters.
pub struct Comprehension {
    pub target: UnpackTarget,
    pub iter: ExprLoc,
    pub ifs: Vec<ExprLoc>,
}

/// The `for` clauses of a comprehension, of which there is at least one.
pub struct Generators {
    pub first: Comprehension,
    pub rest: Vec<Comprehension>,
}

/// A parameter and its default value.
pub struct ParsedParam {
    pub name: StringId,
    pub default: Option<ExprLoc>,
}

/// The parameters of a function.
pub struct ParsedSignature {
    pub pos_args: Vec<ParsedParam>,
    pub args: Vec<ParsedParam>,
    pub var_args: Option<StringId>,
    pub kwargs: Vec<ParsedParam>,
    pub var_kwargs: Option<StringId>,
}

/// A lambda expression.
pub struct LambdaDef {
    pub name_id: StringId,
    pub signature: ParsedSignature,
    pub body: ExprLoc,
    pub is_generator: bool,
}

/// A generator expression: its outermost iterable, and the function that the
/// rest amounts to.
pub struct GeneratorDef {
    pub name_id: StringId,
    pub signature: ParsedSignature,
    pub body: Vec<Node>,
    pub iter: ExprLoc,
}

/// An expression.
#[allow(inconsistent_fields)]
pub enum Expr {
    Literal(Literal),
    Builtin(Builtins),
    Name(Identifier),
    Op { left: Box<ExprLoc>, op: Operator, right: Box<ExprLoc> },
    CmpOp { left: Box<ExprLoc>, op: CmpOperator, right: Box<ExprLoc> },
    ChainCmp { left: Box<ExprLoc>, comparisons: Vec<(CmpOperator, ExprLoc)> },
    Call { callable: Callable, args: Box<ArgExprs> },
    AttrCall { object: Box<ExprLoc>, attr: StringId, args: Box<ArgExprs> },
    IndirectCall { callable: Box<ExprLoc>, args: Box<ArgExprs> },
    AttrGet { object: Box<ExprLoc>, attr: StringId },
    List(Vec<SequenceItem>),
    Tuple(Vec<SequenceItem>),
    SetDisplay(Vec<SequenceItem>),
    Subscript { object: Box<ExprLoc>, index: Box<ExprLoc> },
    Dict(Vec<DictItem>),
    Not(Box<ExprLoc>),
    UnaryMinus(Box<ExprLoc>),
    UnaryPlus(Box<ExprLoc>),
    UnaryInvert(Box<ExprLoc>),
    Await(Box<ExprLoc>),
    FString(Vec<FStringPart>),
    TString(Box<ParsedTemplate>),
    IfElse { test: Box<ExprLoc>, body: Box<ExprLoc>, orelse: Box<ExprLoc> },
    ListComp { elt: Box<ExprLoc>, generators: Box<Generators> },
    SetComp { elt: Box<ExprLoc>, generators: Box<Generators> },
    DictComp { key: Box<ExprLoc>, value: Box<ExprLoc>, generators: Box<Generators> },
    LambdaRaw(Box<LambdaDef>),
    GeneratorExpRaw(Box<GeneratorDef>),
    Yield(Option<Box<ExprLoc>>),
    YieldFrom(Box<ExprLoc>),
    Slice { lower: Option<Box<ExprLoc>>, upper: Option<Box<ExprLoc>>, step: Option<Box<ExprLoc>> },
    Named { target: Identifier, value: Box<ExprLoc> },
}

/// The definition of a function; the body of a class and the value of a type
/// alias are functions too.
pub struct RawFunctionDef {
    pub name: Identifier,
    pub signature: ParsedSignature,
    pub body: Vec<Node>,
    pub is_async: bool,
    pub is_generator: bool,
}

/// A class definition.
pub struct ClassDef {
    pub name: Identifier,
    pub bases: Vec<ExprLoc>,
    pub body: RawFunctionDef,
    pub members: Vec<Identifier>,
    pub decorators: Vec<ExprLoc>,
    pub position: CodeRange,
}

/// One `except` clause.
pub struct ExceptHandler {
    pub exc_type: Option<ExprLoc>,
    pub name: Option<Identifier>,
    pub body: Vec<Node>,
}

/// A `try` statement.
pub struct Try {
    pub body: Vec<Node>,
    pub handlers: Vec<ExceptHandler>,
    pub or_else: Vec<Node>,
    pub finally: Vec<Node>,
}

/// A module that an `import` statement names, and what it binds.
#[derive(Clone, Copy, PartialEq, Eq, Structural)]
pub struct ImportName {
    pub module_name: StringId,
    pub bound_name: StringId,
    pub binding: Identifier,
}

/// A statement.
#[allow(inconsistent_fields)]
pub enum Node {
    Pass,
    Expr(ExprLoc),
    Return(Option<ExprLoc>),
    Raise { exc: Option<ExprLoc>, cause: Option<ExprLoc> },
    Assert { test: ExprLoc, msg: Option<ExprLoc> },
    Assign { target: Identifier, object: ExprLoc },
    UnpackAssign { targets: Vec<UnpackTarget>, targets_position: CodeRange, object: ExprLoc },
    OpAssign { target: Identifier, op: Operator, value: ExprLoc },
    SubscriptOpAssign {
        target: ExprLoc,
        index: ExprLoc,
        op: Operator,
        value: ExprLoc,
        target_position: CodeRange,
    },
    SubscriptAssign { target: ExprLoc, index: ExprLoc, value: ExprLoc, target_position: CodeRange },
    AttrOpAssign {
        object: ExprLoc,
        attr: StringId,
        op: Operator,
        value: ExprLoc,
        target_position: CodeRange,
    },
    AttrAssign { object: ExprLoc, attr: StringId, target_position: CodeRange, value: ExprLoc },
    ChainAssign { targets: Vec<UnpackTarget>, object: ExprLoc },
    Delete(Vec<DeleteTarget>),
    TypeAlias { name: Identifier, value: RawFunctionDef },
    For {
        target: UnpackTarget,
        iter: ExprLoc,
        body: Vec<Node>,
        or_else: Vec<Node>,
        is_async: bool,
    },
    Break { position: CodeRange },
    Continue { position: CodeRange },
    While { test: ExprLoc, body: Vec<Node>, or_else: Vec<Node> },
    If { test: ExprLoc, body: Vec<Node>, or_else: Vec<Node> },
    FunctionDef { def: RawFunctionDef, decorators: Vec<ExprLoc> },
    ClassDef(Box<ClassDef>),
    Global { names: Vec<StringId>, position: CodeRange },
    Nonlocal { names: Vec<StringId>, position: CodeRange },
    Try(Try),
    With {
        context: ExprLoc,
        target: Option<UnpackTarget>,
        body: Vec<Node>,
        position: CodeRange,
        is_async: bool,
    },
    Import { names: Vec<ImportName> },
    ImportFrom { module_name: StringId, names: Vec<(StringId, Identifier)>, position: CodeRange },
}

} // verus!
