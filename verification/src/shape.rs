//! The shape of a program: what is left of its syntax tree where scopes and
//! slots are not looked at. Preparation keeps it.

use crate::ast::{
    ArgExprs, CallArg, CallKwarg, ClassDef, CmpOperator, Comprehension, ConversionFlag, DeleteTarget, DictItem,
    ExceptHandler, Expr, ExprLoc, FStringPart, FormatSpec, Generators, Identifier, Kwarg, Literal, Node, Operator,
    ParsedParam, ParsedSignature, RawFunctionDef, SequenceItem, Try, UnpackTarget,
};
use crate::model::{bound_comp_var, resolved, resolved_read, stored, stored_by_walrus, Model};
use crate::names::StringId;
use crate::parse::CodeRange;
use crate::prepared::{
    PreparedArgs, PreparedCallArg, PreparedCallKwarg, PreparedCallable, PreparedClassDef, PreparedClause,
    PreparedDeleteTarget, PreparedDictItem, PreparedExpr, PreparedExprLoc, PreparedFStringPart, PreparedFormatSpec,
    PreparedFunctionDef, PreparedGenerators, PreparedHandler, PreparedInterpolation, PreparedKwarg, PreparedNode,
    PreparedSequenceItem, PreparedTarget,
};
use crate::tstring::TemplateInterpolation;
use vstd::prelude::*;

verus! {

/// The head of a function.
pub struct Head {
    pub name: StringId,
    pub position: CodeRange,
    pub pos_args: Seq<StringId>,
    pub args: Seq<StringId>,
    pub var_args: Option<StringId>,
    pub kwargs: Seq<StringId>,
    pub var_kwargs: Option<StringId>,
    pub is_async: bool,
    pub is_generator: bool,
}

/// What a piece of syntax is, without its parts.
pub enum Form {
    At(CodeRange),
    Absent,
    List,
    Literal(Literal),
    Read,
    Op(Operator),
    Compare(CmpOperator),
    Chain,
    Call,
    MethodCall(StringId),
    ValueCall,
    Attribute(StringId),
    ListDisplay,
    TupleDisplay,
    SetDisplay,
    Subscript,
    DictDisplay,
    Not,
    Minus,
    Plus,
    Invert,
    Await,
    FormattedString,
    Template(Seq<StringId>),
    Conditional,
    ListComprehension,
    SetComprehension,
    DictComprehension,
    Lambda,
    Generator,
    Yield,
    YieldFrom,
    Slice,
    Named(StringId, CodeRange),
    Value,
    Unpack,
    Pair,
    Keyword(StringId, CodeRange),
    NoArguments,
    OneArgument,
    TwoArguments,
    PositionalArguments,
    KeywordArguments,
    MixedArguments,
    GeneralArguments,
    Text(StringId),
    Field(ConversionFlag, Option<StringId>),
    StaticSpec(StringId),
    DynamicSpec,
    TemplateField(StringId, ConversionFlag),
    BoundName(StringId, CodeRange),
    StarredName(StringId, CodeRange),
    BoundAttribute(StringId, CodeRange),
    BoundSubscript(CodeRange),
    BoundTuple(CodeRange),
    Clause,
    Function(Head),
    Expression,
    Return,
    Raise,
    Assert,
    Assign(StringId, CodeRange),
    UnpackAssign(CodeRange),
    OpAssign(StringId, CodeRange, Operator),
    SubscriptOpAssign(Operator, CodeRange),
    SubscriptAssign(CodeRange),
    AttributeOpAssign(StringId, Operator, CodeRange),
    AttributeAssign(StringId, CodeRange),
    ChainAssign,
    Delete,
    TypeAlias(StringId, CodeRange),
    For(bool),
    Break(CodeRange),
    Continue(CodeRange),
    While,
    If,
    FunctionDefinition,
    Class(StringId, CodeRange, CodeRange, Seq<(StringId, CodeRange)>),
    Handler(Option<(StringId, CodeRange)>),
    Try,
    With(CodeRange, bool),
    Import(Seq<(StringId, StringId, StringId, CodeRange)>),
    ImportFrom(StringId, CodeRange, Seq<(StringId, StringId, CodeRange)>),
}

/// A piece of syntax: what it is and its parts, each in its role.
pub struct Shape {
    pub form: Form,
    pub parts: Seq<Shape>,
}

/// A piece of syntax with parts.
pub open spec fn branch(form: Form, parts: Seq<Shape>) -> Shape {
    Shape { form, parts }
}

/// A piece of syntax without parts.
pub open spec fn leaf(form: Form) -> Shape {
    Shape { form, parts: Seq::empty() }
}

/// A part that is not there.
pub open spec fn absent() -> Shape {
    leaf(Form::Absent)
}

/// A part that is a list.
pub open spec fn listed(parts: Seq<Shape>) -> Shape {
    branch(Form::List, parts)
}

/// A name that is read at a place.
pub open spec fn read_at(position: CodeRange) -> Shape {
    branch(Form::At(position), seq![leaf(Form::Read)])
}

/// The shape of a parsed expression.
#[verifier::opaque]
pub open spec fn parsed_expr(it: ExprLoc) -> Shape
    decreases it, 0int,
{
    branch(Form::At(it.position), seq![
        match it.expr {
            Expr::Literal(literal) => leaf(Form::Literal(literal)),
            Expr::Builtin(_) => leaf(Form::Read),
            Expr::Name(_) => leaf(Form::Read),
            Expr::Call { args, .. } => branch(Form::Call, seq![leaf(Form::Read), parsed_args(*args)]),
            Expr::Op { left, op, right } => branch(Form::Op(op), seq![parsed_expr(*left), parsed_expr(*right)]),
            Expr::CmpOp { left, op, right } => branch(Form::Compare(op), seq![parsed_expr(*left), parsed_expr(*right)]),
            Expr::ChainCmp { left, comparisons } => branch(Form::Chain, seq![parsed_expr(*left), listed(parsed_comparisons(comparisons@))]),
            Expr::AttrCall { object, attr, args } => branch(Form::MethodCall(attr), seq![parsed_expr(*object), parsed_args(*args)]),
            Expr::IndirectCall { callable, args } => branch(Form::ValueCall, seq![parsed_expr(*callable), parsed_args(*args)]),
            Expr::AttrGet { object, attr } => branch(Form::Attribute(attr), seq![parsed_expr(*object)]),
            Expr::List(items) => branch(Form::ListDisplay, seq![listed(parsed_items(items@))]),
            Expr::Tuple(items) => branch(Form::TupleDisplay, seq![listed(parsed_items(items@))]),
            Expr::SetDisplay(items) => branch(Form::SetDisplay, seq![listed(parsed_items(items@))]),
            Expr::Subscript { object, index } => branch(Form::Subscript, seq![parsed_expr(*object), parsed_expr(*index)]),
            Expr::Dict(items) => branch(Form::DictDisplay, seq![listed(parsed_dict_items(items@))]),
            Expr::Not(operand) => branch(Form::Not, seq![parsed_expr(*operand)]),
            Expr::UnaryMinus(operand) => branch(Form::Minus, seq![parsed_expr(*operand)]),
            Expr::UnaryPlus(operand) => branch(Form::Plus, seq![parsed_expr(*operand)]),
            Expr::UnaryInvert(operand) => branch(Form::Invert, seq![parsed_expr(*operand)]),
            Expr::Await(operand) => branch(Form::Await, seq![parsed_expr(*operand)]),
            Expr::FString(parts) => branch(Form::FormattedString, seq![listed(parsed_fstring_parts(parts@))]),
            Expr::IfElse { test, body, orelse } => branch(Form::Conditional, seq![parsed_expr(*test), parsed_expr(*body), parsed_expr(*orelse)]),
            Expr::Yield(value) => branch(Form::Yield, seq![(match value { Some(inner) => parsed_expr(*inner), None => absent() })]),
            Expr::YieldFrom(value) => branch(Form::YieldFrom, seq![parsed_expr(*value)]),
            Expr::Slice { lower, upper, step } => branch(Form::Slice, seq![(match lower { Some(inner) => parsed_expr(*inner), None => absent() }), (match upper { Some(inner) => parsed_expr(*inner), None => absent() }), (match step { Some(inner) => parsed_expr(*inner), None => absent() })]),
            Expr::TString(template) => branch(
                Form::Template(template.strings@),
                parsed_interpolations(template.interpolations@),
            ),
            Expr::ListComp { elt, generators, .. } => branch(
                Form::ListComprehension,
                seq![parsed_expr(*elt), parsed_generators(*generators)],
            ),
            Expr::SetComp { elt, generators, .. } => branch(
                Form::SetComprehension,
                seq![parsed_expr(*elt), parsed_generators(*generators)],
            ),
            Expr::DictComp { key, value, generators, .. } => branch(
                Form::DictComprehension,
                seq![parsed_expr(*key), parsed_expr(*value), parsed_generators(*generators)],
            ),
            Expr::Named { target, value } => branch(
                Form::Named(target.name_id, target.position),
                seq![parsed_expr(*value)],
            ),
            Expr::LambdaRaw(def) => branch(
                Form::Lambda,
                seq![
                    branch(
                        Form::Function(parsed_head(def.name_id, it.position, def.signature, false, def.is_generator)),
                        seq![
                            listed(parsed_defaults(def.signature.pos_args@)),
                            listed(parsed_defaults(def.signature.args@)),
                            listed(parsed_options(def.signature.kwargs@)),
                            listed(seq![branch(Form::Return, seq![parsed_expr(def.body)])]),
                        ],
                    ),
                ],
            ),
            Expr::GeneratorExpRaw(def) => branch(
                Form::Generator,
                seq![
                    branch(
                        Form::Function(parsed_head(def.name_id, it.position, def.signature, false, true)),
                        seq![
                            listed(parsed_defaults(def.signature.pos_args@)),
                            listed(parsed_defaults(def.signature.args@)),
                            listed(parsed_options(def.signature.kwargs@)),
                            listed(parsed_nodes(def.body@)),
                        ],
                    ),
                    parsed_expr(def.iter),
                ],
            ),
        },
    ])
}

/// The shape of the arguments of a parsed call.
pub open spec fn parsed_args(it: ArgExprs) -> Shape
    decreases it, 0int,
{
    match it {
        ArgExprs::Empty => leaf(Form::NoArguments),
        ArgExprs::One(first) => branch(Form::OneArgument, seq![parsed_expr(first)]),
        ArgExprs::Two(first, second) => branch(Form::TwoArguments, seq![parsed_expr(first), parsed_expr(second)]),
        ArgExprs::Args(args) => branch(Form::PositionalArguments, parsed_exprs(args@)),
        ArgExprs::Kwargs(kwargs) => branch(Form::KeywordArguments, parsed_kwargs(kwargs@)),
        ArgExprs::ArgsKargs { args, kwargs, var_args, var_kwargs } => branch(
            Form::MixedArguments,
            seq![
                (match args { Some(args) => listed(parsed_exprs(args@)), None => absent() }),
                (match kwargs { Some(kwargs) => listed(parsed_kwargs(kwargs@)), None => absent() }),
                (match var_args { Some(inner) => parsed_expr(inner), None => absent() }),
                (match var_kwargs { Some(inner) => parsed_expr(inner), None => absent() }),
            ],
        ),
        ArgExprs::GeneralizedCall { args, kwargs } => branch(
            Form::GeneralArguments,
            seq![listed(parsed_call_args(args@)), listed(parsed_call_kwargs(kwargs@))],
        ),
    }
}

/// The shape of an element of a parsed display.
pub open spec fn parsed_item(it: SequenceItem) -> Shape
    decreases it, 0int,
{
    match it {
        SequenceItem::Value(value) => branch(Form::Value, seq![parsed_expr(value)]),
        SequenceItem::Unpack(value) => branch(Form::Unpack, seq![parsed_expr(value)]),
    }
}

/// The shape of an entry of a parsed dict display.
pub open spec fn parsed_dict_item(it: DictItem) -> Shape
    decreases it, 0int,
{
    match it {
        DictItem::Pair(key, value) => branch(Form::Pair, seq![parsed_expr(key), parsed_expr(value)]),
        DictItem::Unpack(value) => branch(Form::Unpack, seq![parsed_expr(value)]),
    }
}

/// The shape of a parsed positional argument.
pub open spec fn parsed_call_arg(it: CallArg) -> Shape
    decreases it, 0int,
{
    match it {
        CallArg::Value(value) => branch(Form::Value, seq![parsed_expr(value)]),
        CallArg::Unpack(value) => branch(Form::Unpack, seq![parsed_expr(value)]),
    }
}

/// The shape of a parsed keyword argument.
pub open spec fn parsed_kwarg(it: Kwarg) -> Shape
    decreases it, 0int,
{
    branch(Form::Keyword(it.key.name_id, it.key.position), seq![parsed_expr(it.value)])
}

/// The shape of a parsed keyword argument or unpacking.
pub open spec fn parsed_call_kwarg(it: CallKwarg) -> Shape
    decreases it, 0int,
{
    match it {
        CallKwarg::Named(kwarg) => parsed_kwarg(kwarg),
        CallKwarg::Unpack(value) => branch(Form::Unpack, seq![parsed_expr(value)]),
    }
}

/// The shape of a part of a parsed formatted string.
pub open spec fn parsed_fstring_part(it: FStringPart) -> Shape
    decreases it, 0int,
{
    match it {
        FStringPart::Literal(text) => leaf(Form::Text(text)),
        FStringPart::Interpolation { expr, conversion, format_spec, debug_prefix } => branch(
            Form::Field(conversion, debug_prefix),
            seq![
                parsed_expr(*expr),
                (match format_spec {
                    Some(FormatSpec::Dynamic(parts)) => branch(Form::DynamicSpec, parsed_fstring_parts(parts@)),
                    Some(FormatSpec::Static(text)) => leaf(Form::StaticSpec(text)),
                    None => absent(),
                }),
            ],
        ),
    }
}

/// The shape of a field of a parsed template.
pub open spec fn parsed_interpolation(it: TemplateInterpolation) -> Shape
    decreases it, 0int,
{
    branch(
        Form::TemplateField(it.expression, it.conversion),
        seq![parsed_expr(*it.expr), listed(parsed_fstring_parts(it.format_spec@))],
    )
}

/// The shape of an operand of a parsed chain of comparisons.
pub open spec fn parsed_comparison(it: (CmpOperator, ExprLoc)) -> Shape
    decreases it, 0int,
{
    branch(Form::Compare(it.0), seq![parsed_expr(it.1)])
}

/// The shape of a parsed target.
pub open spec fn parsed_target(it: UnpackTarget) -> Shape
    decreases it, 0int,
{
    match it {
        UnpackTarget::Name(ident) => leaf(Form::BoundName(ident.name_id, ident.position)),
        UnpackTarget::Starred(ident) => leaf(Form::StarredName(ident.name_id, ident.position)),
        UnpackTarget::Attr { object, attr, position } => branch(Form::BoundAttribute(attr, position), seq![parsed_expr(object)]),
        UnpackTarget::Subscript { object, index, position } => branch(
            Form::BoundSubscript(position),
            seq![parsed_expr(object), parsed_expr(index)],
        ),
        UnpackTarget::Tuple { targets, position } => branch(Form::BoundTuple(position), parsed_targets(targets@)),
    }
}

/// The shape of a parsed target of `del`.
pub open spec fn parsed_delete_target(it: DeleteTarget) -> Shape
    decreases it, 0int,
{
    match it {
        DeleteTarget::Name(ident) => leaf(Form::BoundName(ident.name_id, ident.position)),
        DeleteTarget::Attr { object, attr, position } => branch(Form::BoundAttribute(attr, position), seq![parsed_expr(object)]),
        DeleteTarget::Subscript { object, index, position } => branch(
            Form::BoundSubscript(position),
            seq![parsed_expr(object), parsed_expr(index)],
        ),
    }
}

/// The shape of a clause of a parsed comprehension.
pub open spec fn parsed_clause(it: Comprehension) -> Shape
    decreases it, 0int,
{
    branch(Form::Clause, seq![parsed_target(it.target), parsed_expr(it.iter), listed(parsed_exprs(it.ifs@))])
}

/// The shape of the clauses of a parsed comprehension.
pub open spec fn parsed_generators(it: Generators) -> Shape
    decreases it, 0int,
{
    listed(seq![parsed_clause(it.first)] + parsed_clauses(it.rest@))
}

/// The shape of a parsed exception handler.
pub open spec fn parsed_handler(it: ExceptHandler) -> Shape
    decreases it, 0int,
{
    branch(
        Form::Handler(match it.name { Some(ident) => Some((ident.name_id, ident.position)), None => None }),
        seq![(match it.exc_type { Some(inner) => parsed_expr(inner), None => absent() }), listed(parsed_nodes(it.body@))],
    )
}

/// The shapes of parsed expressions.
pub open spec fn parsed_exprs(list: Seq<ExprLoc>) -> Seq<Shape>
    decreases list, 1int,
{
    if list.len() == 0 {
        Seq::empty()
    } else {
        parsed_exprs(list.drop_last()).push(parsed_expr(list.last()))
    }
}

/// The shapes of parsed elements.
pub open spec fn parsed_items(list: Seq<SequenceItem>) -> Seq<Shape>
    decreases list, 1int,
{
    if list.len() == 0 {
        Seq::empty()
    } else {
        parsed_items(list.drop_last()).push(parsed_item(list.last()))
    }
}

/// The shapes of parsed entries.
pub open spec fn parsed_dict_items(list: Seq<DictItem>) -> Seq<Shape>
    decreases list, 1int,
{
    if list.len() == 0 {
        Seq::empty()
    } else {
        parsed_dict_items(list.drop_last()).push(parsed_dict_item(list.last()))
    }
}

/// The shapes of parsed positional arguments.
pub open spec fn parsed_call_args(list: Seq<CallArg>) -> Seq<Shape>
    decreases list, 1int,
{
    if list.len() == 0 {
        Seq::empty()
    } else {
        parsed_call_args(list.drop_last()).push(parsed_call_arg(list.last()))
    }
}

/// The shapes of parsed keyword arguments.
pub open spec fn parsed_kwargs(list: Seq<Kwarg>) -> Seq<Shape>
    decreases list, 1int,
{
    if list.len() == 0 {
        Seq::empty()
    } else {
        parsed_kwargs(list.drop_last()).push(parsed_kwarg(list.last()))
    }
}

/// The shapes of parsed keyword arguments.
pub open spec fn parsed_call_kwargs(list: Seq<CallKwarg>) -> Seq<Shape>
    decreases list, 1int,
{
    if list.len() == 0 {
        Seq::empty()
    } else {
        parsed_call_kwargs(list.drop_last()).push(parsed_call_kwarg(list.last()))
    }
}

/// The shapes of parsed parts of formatted strings.
pub open spec fn parsed_fstring_parts(list: Seq<FStringPart>) -> Seq<Shape>
    decreases list, 1int,
{
    if list.len() == 0 {
        Seq::empty()
    } else {
        parsed_fstring_parts(list.drop_last()).push(parsed_fstring_part(list.last()))
    }
}

/// The shapes of parsed fields of templates.
pub open spec fn parsed_interpolations(list: Seq<TemplateInterpolation>) -> Seq<Shape>
    decreases list, 1int,
{
    if list.len() == 0 {
        Seq::empty()
    } else {
        parsed_interpolations(list.drop_last()).push(parsed_interpolation(list.last()))
    }
}

/// The shapes of parsed operands.
pub open spec fn parsed_comparisons(list: Seq<(CmpOperator, ExprLoc)>) -> Seq<Shape>
    decreases list, 1int,
{
    if list.len() == 0 {
        Seq::empty()
    } else {
        parsed_comparisons(list.drop_last()).push(parsed_comparison(list.last()))
    }
}

/// The shapes of parsed targets.
pub open spec fn parsed_targets(list: Seq<UnpackTarget>) -> Seq<Shape>
    decreases list, 1int,
{
    if list.len() == 0 {
        Seq::empty()
    } else {
        parsed_targets(list.drop_last()).push(parsed_target(list.last()))
    }
}

/// The shapes of parsed targets of `del`.
pub open spec fn parsed_delete_targets(list: Seq<DeleteTarget>) -> Seq<Shape>
    decreases list, 1int,
{
    if list.len() == 0 {
        Seq::empty()
    } else {
        parsed_delete_targets(list.drop_last()).push(parsed_delete_target(list.last()))
    }
}

/// The shapes of parsed clauses.
pub open spec fn parsed_clauses(list: Seq<Comprehension>) -> Seq<Shape>
    decreases list, 1int,
{
    if list.len() == 0 {
        Seq::empty()
    } else {
        parsed_clauses(list.drop_last()).push(parsed_clause(list.last()))
    }
}

/// The shapes of parsed handlers.
pub open spec fn parsed_handlers(list: Seq<ExceptHandler>) -> Seq<Shape>
    decreases list, 1int,
{
    if list.len() == 0 {
        Seq::empty()
    } else {
        parsed_handlers(list.drop_last()).push(parsed_handler(list.last()))
    }
}

/// The head of a parsed function.
pub open spec fn parsed_head(
    name: StringId,
    position: CodeRange,
    signature: ParsedSignature,
    is_async: bool,
    is_generator: bool,
) -> Head {
    Head {
        name,
        position,
        pos_args: Seq::new(signature.pos_args@.len(), |i: int| signature.pos_args@[i].name),
        args: Seq::new(signature.args@.len(), |i: int| signature.args@[i].name),
        var_args: signature.var_args,
        kwargs: Seq::new(signature.kwargs@.len(), |i: int| signature.kwargs@[i].name),
        var_kwargs: signature.var_kwargs,
        is_async,
        is_generator,
    }
}

/// The shapes of the defaults of those parameters that have one.
pub open spec fn parsed_defaults(list: Seq<ParsedParam>) -> Seq<Shape>
    decreases list, 1int,
{
    if list.len() == 0 {
        Seq::empty()
    } else {
        match list.last().default {
            Some(default) => parsed_defaults(list.drop_last()).push(parsed_expr(default)),
            None => parsed_defaults(list.drop_last()),
        }
    }
}

/// For each parameter the shape of its default, where it has one.
pub open spec fn parsed_options(list: Seq<ParsedParam>) -> Seq<Shape>
    decreases list, 1int,
{
    if list.len() == 0 {
        Seq::empty()
    } else {
        parsed_options(list.drop_last()).push(
            match list.last().default {
                Some(default) => parsed_expr(default),
                None => absent(),
            },
        )
    }
}

/// The shape of a parsed function.
pub open spec fn parsed_function(it: RawFunctionDef) -> Shape
    decreases it, 0int,
{
    branch(
        Form::Function(
            parsed_head(it.name.name_id, it.name.position, it.signature, it.is_async, it.is_generator),
        ),
        seq![
            listed(parsed_defaults(it.signature.pos_args@)),
            listed(parsed_defaults(it.signature.args@)),
            listed(parsed_options(it.signature.kwargs@)),
            listed(parsed_nodes(it.body@)),
        ],
    )
}

/// The shape of a parsed class. Its body is a function without parameters.
pub open spec fn parsed_class(it: ClassDef) -> Shape
    decreases it, 0int,
{
    branch(
        Form::Class(
            it.name.name_id,
            it.name.position,
            it.position,
            Seq::new(it.members@.len(), |i: int| (it.members@[i].name_id, it.members@[i].position)),
        ),
        seq![
            listed(parsed_exprs(it.bases@)),
            listed(parsed_exprs(it.decorators@)),
            branch(
                Form::Function(
                    Head {
                        name: it.body.name.name_id,
                        position: it.body.name.position,
                        pos_args: Seq::empty(),
                        args: Seq::empty(),
                        var_args: None,
                        kwargs: Seq::empty(),
                        var_kwargs: None,
                        is_async: false,
                        is_generator: false,
                    },
                ),
                seq![
                    listed(Seq::empty()),
                    listed(Seq::empty()),
                    listed(Seq::empty()),
                    listed(parsed_nodes(it.body.body@)),
                ],
            ),
        ],
    )
}

/// The shape of a parsed expression that is raised. A class that is raised is
/// called, so a call without arguments is not told from what it calls.
pub open spec fn parsed_raised(it: ExprLoc) -> Shape
    decreases it, 1int,
{
    match it.expr {
        Expr::Call { args, .. } => if *args is Empty {
            read_at(it.position)
        } else {
            parsed_expr(it)
        },
        _ => parsed_expr(it),
    }
}

/// The shape of a parsed statement.
#[verifier::opaque]
pub open spec fn parsed_node(it: Node) -> Shape
    decreases it, 0int,
{
    match it {
        Node::Expr(expr) => branch(Form::Expression, seq![parsed_expr(expr)]),
        Node::Return(value) => branch(Form::Return, seq![(match value { Some(inner) => parsed_expr(inner), None => absent() })]),
        Node::Assert { test, msg } => branch(Form::Assert, seq![parsed_expr(test), (match msg { Some(inner) => parsed_expr(inner), None => absent() })]),
        Node::UnpackAssign { targets, targets_position, object } => branch(Form::UnpackAssign(targets_position), seq![listed(parsed_targets(targets@)), parsed_expr(object)]),
        Node::SubscriptOpAssign { target, index, op, value, target_position } => branch(Form::SubscriptOpAssign(op, target_position), seq![parsed_expr(target), parsed_expr(index), parsed_expr(value)]),
        Node::SubscriptAssign { target, index, value, target_position } => branch(Form::SubscriptAssign(target_position), seq![parsed_expr(target), parsed_expr(index), parsed_expr(value)]),
        Node::AttrOpAssign { object, attr, op, value, target_position } => branch(Form::AttributeOpAssign(attr, op, target_position), seq![parsed_expr(object), parsed_expr(value)]),
        Node::AttrAssign { object, attr, target_position, value } => branch(Form::AttributeAssign(attr, target_position), seq![parsed_expr(object), parsed_expr(value)]),
        Node::ChainAssign { targets, object } => branch(Form::ChainAssign, seq![listed(parsed_targets(targets@)), parsed_expr(object)]),
        Node::Delete(targets) => branch(Form::Delete, seq![listed(parsed_delete_targets(targets@))]),
        Node::For { target, iter, body, or_else, is_async } => branch(Form::For(is_async), seq![parsed_target(target), parsed_expr(iter), listed(parsed_nodes(body@)), listed(parsed_nodes(or_else@))]),
        Node::Break { position } => leaf(Form::Break(position)),
        Node::Continue { position } => leaf(Form::Continue(position)),
        Node::While { test, body, or_else } => branch(Form::While, seq![parsed_expr(test), listed(parsed_nodes(body@)), listed(parsed_nodes(or_else@))]),
        Node::If { test, body, or_else } => branch(Form::If, seq![parsed_expr(test), listed(parsed_nodes(body@)), listed(parsed_nodes(or_else@))]),
        Node::With { context, target, body, position, is_async } => branch(Form::With(position, is_async), seq![parsed_expr(context), (match target { Some(inner) => parsed_target(inner), None => absent() }), listed(parsed_nodes(body@))]),
        Node::Raise { exc, cause } => branch(
            Form::Raise,
            seq![
                (match exc { Some(inner) => parsed_raised(inner), None => absent() }),
                (match cause { Some(inner) => parsed_expr(inner), None => absent() }),
            ],
        ),
        Node::Assign { target, object } => branch(
            Form::Assign(target.name_id, target.position),
            seq![parsed_expr(object)],
        ),
        Node::OpAssign { target, op, value } => branch(
            Form::OpAssign(target.name_id, target.position, op),
            seq![parsed_expr(value)],
        ),
        Node::TypeAlias { name, value } => branch(
            Form::TypeAlias(name.name_id, name.position),
            seq![parsed_function(value)],
        ),
        Node::FunctionDef { def, decorators } => branch(
            Form::FunctionDefinition,
            seq![listed(parsed_exprs(decorators@)), parsed_function(def)],
        ),
        Node::ClassDef(def) => parsed_class(*def),
        Node::Try(block) => branch(
            Form::Try,
            seq![
                listed(parsed_nodes(block.body@)),
                listed(parsed_handlers(block.handlers@)),
                listed(parsed_nodes(block.or_else@)),
                listed(parsed_nodes(block.finally@)),
            ],
        ),
        Node::Import { names } => leaf(
            Form::Import(
                Seq::new(
                    names@.len(),
                    |i: int|
                        (
                            names@[i].module_name,
                            names@[i].bound_name,
                            names@[i].binding.name_id,
                            names@[i].binding.position,
                        ),
                ),
            ),
        ),
        Node::ImportFrom { module_name, names, position } => leaf(
            Form::ImportFrom(
                module_name,
                position,
                Seq::new(names@.len(), |i: int| (names@[i].0, names@[i].1.name_id, names@[i].1.position)),
            ),
        ),
        Node::Pass | Node::Global { .. } | Node::Nonlocal { .. } => absent(),
    }
}

/// The shapes of parsed statements, without those that leave nothing to run.
pub open spec fn parsed_nodes(list: Seq<Node>) -> Seq<Shape>
    decreases list, 1int,
{
    if list.len() == 0 {
        Seq::empty()
    } else {
        match list.last() {
            Node::Pass | Node::Global { .. } | Node::Nonlocal { .. } => parsed_nodes(list.drop_last()),
            last => parsed_nodes(list.drop_last()).push(parsed_node(last)),
        }
    }
}

/// The shape of a prepared expression.
#[verifier::opaque]
pub open spec fn prepared_expr(it: PreparedExprLoc) -> Shape
    decreases it, 0int,
{
    branch(Form::At(it.position), seq![
        match it.expr {
            PreparedExpr::Literal(literal) => leaf(Form::Literal(literal)),
            PreparedExpr::Builtin(_) => leaf(Form::Read),
            PreparedExpr::Name(_) => leaf(Form::Read),
            PreparedExpr::Call { args, .. } => branch(Form::Call, seq![leaf(Form::Read), prepared_args(*args)]),
            PreparedExpr::Op { left, op, right } => branch(Form::Op(op), seq![prepared_expr(*left), prepared_expr(*right)]),
            PreparedExpr::CmpOp { left, op, right } => branch(Form::Compare(op), seq![prepared_expr(*left), prepared_expr(*right)]),
            PreparedExpr::ChainCmp { left, comparisons } => branch(Form::Chain, seq![prepared_expr(*left), listed(prepared_comparisons(comparisons@))]),
            PreparedExpr::AttrCall { object, attr, args } => branch(Form::MethodCall(attr), seq![prepared_expr(*object), prepared_args(*args)]),
            PreparedExpr::IndirectCall { callable, args } => branch(Form::ValueCall, seq![prepared_expr(*callable), prepared_args(*args)]),
            PreparedExpr::AttrGet { object, attr } => branch(Form::Attribute(attr), seq![prepared_expr(*object)]),
            PreparedExpr::List(items) => branch(Form::ListDisplay, seq![listed(prepared_items(items@))]),
            PreparedExpr::Tuple(items) => branch(Form::TupleDisplay, seq![listed(prepared_items(items@))]),
            PreparedExpr::SetDisplay(items) => branch(Form::SetDisplay, seq![listed(prepared_items(items@))]),
            PreparedExpr::Subscript { object, index } => branch(Form::Subscript, seq![prepared_expr(*object), prepared_expr(*index)]),
            PreparedExpr::Dict(items) => branch(Form::DictDisplay, seq![listed(prepared_dict_items(items@))]),
            PreparedExpr::Not(operand) => branch(Form::Not, seq![prepared_expr(*operand)]),
            PreparedExpr::UnaryMinus(operand) => branch(Form::Minus, seq![prepared_expr(*operand)]),
            PreparedExpr::UnaryPlus(operand) => branch(Form::Plus, seq![prepared_expr(*operand)]),
            PreparedExpr::UnaryInvert(operand) => branch(Form::Invert, seq![prepared_expr(*operand)]),
            PreparedExpr::Await(operand) => branch(Form::Await, seq![prepared_expr(*operand)]),
            PreparedExpr::FString(parts) => branch(Form::FormattedString, seq![listed(prepared_fstring_parts(parts@))]),
            PreparedExpr::IfElse { test, body, orelse } => branch(Form::Conditional, seq![prepared_expr(*test), prepared_expr(*body), prepared_expr(*orelse)]),
            PreparedExpr::Yield(value) => branch(Form::Yield, seq![(match value { Some(inner) => prepared_expr(*inner), None => absent() })]),
            PreparedExpr::YieldFrom(value) => branch(Form::YieldFrom, seq![prepared_expr(*value)]),
            PreparedExpr::Slice { lower, upper, step } => branch(Form::Slice, seq![(match lower { Some(inner) => prepared_expr(*inner), None => absent() }), (match upper { Some(inner) => prepared_expr(*inner), None => absent() }), (match step { Some(inner) => prepared_expr(*inner), None => absent() })]),
            PreparedExpr::TString(template) => branch(
                Form::Template(template.strings@),
                prepared_interpolations(template.interpolations@),
            ),
            PreparedExpr::ListComp { elt, generators, .. } => branch(
                Form::ListComprehension,
                seq![prepared_expr(*elt), prepared_generators(*generators)],
            ),
            PreparedExpr::SetComp { elt, generators, .. } => branch(
                Form::SetComprehension,
                seq![prepared_expr(*elt), prepared_generators(*generators)],
            ),
            PreparedExpr::DictComp { key, value, generators, .. } => branch(
                Form::DictComprehension,
                seq![prepared_expr(*key), prepared_expr(*value), prepared_generators(*generators)],
            ),
            PreparedExpr::Named { target, value } => branch(
                Form::Named(target.name_id, target.position),
                seq![prepared_expr(*value)],
            ),
            PreparedExpr::Lambda { func_def } => branch(Form::Lambda, seq![prepared_function(*func_def)]),
            PreparedExpr::GeneratorExp { func_def, iter } => branch(
                Form::Generator,
                seq![prepared_function(*func_def), prepared_expr(*iter)],
            ),
        },
    ])
}

/// The shape of the arguments of a prepared call.
pub open spec fn prepared_args(it: PreparedArgs) -> Shape
    decreases it, 0int,
{
    match it {
        PreparedArgs::Empty => leaf(Form::NoArguments),
        PreparedArgs::One(first) => branch(Form::OneArgument, seq![prepared_expr(first)]),
        PreparedArgs::Two(first, second) => branch(Form::TwoArguments, seq![prepared_expr(first), prepared_expr(second)]),
        PreparedArgs::Args(args) => branch(Form::PositionalArguments, prepared_exprs(args@)),
        PreparedArgs::Kwargs(kwargs) => branch(Form::KeywordArguments, prepared_kwargs(kwargs@)),
        PreparedArgs::ArgsKargs { args, kwargs, var_args, var_kwargs } => branch(
            Form::MixedArguments,
            seq![
                (match args { Some(args) => listed(prepared_exprs(args@)), None => absent() }),
                (match kwargs { Some(kwargs) => listed(prepared_kwargs(kwargs@)), None => absent() }),
                (match var_args { Some(inner) => prepared_expr(inner), None => absent() }),
                (match var_kwargs { Some(inner) => prepared_expr(inner), None => absent() }),
            ],
        ),
        PreparedArgs::GeneralizedCall { args, kwargs } => branch(
            Form::GeneralArguments,
            seq![listed(prepared_call_args(args@)), listed(prepared_call_kwargs(kwargs@))],
        ),
    }
}

/// The shape of an element of a prepared display.
pub open spec fn prepared_item(it: PreparedSequenceItem) -> Shape
    decreases it, 0int,
{
    match it {
        PreparedSequenceItem::Value(value) => branch(Form::Value, seq![prepared_expr(value)]),
        PreparedSequenceItem::Unpack(value) => branch(Form::Unpack, seq![prepared_expr(value)]),
    }
}

/// The shape of an entry of a prepared dict display.
pub open spec fn prepared_dict_item(it: PreparedDictItem) -> Shape
    decreases it, 0int,
{
    match it {
        PreparedDictItem::Pair(key, value) => branch(Form::Pair, seq![prepared_expr(key), prepared_expr(value)]),
        PreparedDictItem::Unpack(value) => branch(Form::Unpack, seq![prepared_expr(value)]),
    }
}

/// The shape of a prepared positional argument.
pub open spec fn prepared_call_arg(it: PreparedCallArg) -> Shape
    decreases it, 0int,
{
    match it {
        PreparedCallArg::Value(value) => branch(Form::Value, seq![prepared_expr(value)]),
        PreparedCallArg::Unpack(value) => branch(Form::Unpack, seq![prepared_expr(value)]),
    }
}

/// The shape of a prepared keyword argument.
pub open spec fn prepared_kwarg(it: PreparedKwarg) -> Shape
    decreases it, 0int,
{
    branch(Form::Keyword(it.key.name_id, it.key.position), seq![prepared_expr(it.value)])
}

/// The shape of a prepared keyword argument or unpacking.
pub open spec fn prepared_call_kwarg(it: PreparedCallKwarg) -> Shape
    decreases it, 0int,
{
    match it {
        PreparedCallKwarg::Named(kwarg) => prepared_kwarg(kwarg),
        PreparedCallKwarg::Unpack(value) => branch(Form::Unpack, seq![prepared_expr(value)]),
    }
}

/// The shape of a part of a prepared formatted string.
pub open spec fn prepared_fstring_part(it: PreparedFStringPart) -> Shape
    decreases it, 0int,
{
    match it {
        PreparedFStringPart::Literal(text) => leaf(Form::Text(text)),
        PreparedFStringPart::Interpolation { expr, conversion, format_spec, debug_prefix } => branch(
            Form::Field(conversion, debug_prefix),
            seq![
                prepared_expr(*expr),
                (match format_spec {
                    Some(PreparedFormatSpec::Dynamic(parts)) => branch(Form::DynamicSpec, prepared_fstring_parts(parts@)),
                    Some(PreparedFormatSpec::Static(text)) => leaf(Form::StaticSpec(text)),
                    None => absent(),
                }),
            ],
        ),
    }
}

/// The shape of a field of a prepared template.
pub open spec fn prepared_interpolation(it: PreparedInterpolation) -> Shape
    decreases it, 0int,
{
    branch(
        Form::TemplateField(it.expression, it.conversion),
        seq![prepared_expr(*it.expr), listed(prepared_fstring_parts(it.format_spec@))],
    )
}

/// The shape of an operand of a prepared chain of comparisons.
pub open spec fn prepared_comparison(it: (CmpOperator, PreparedExprLoc)) -> Shape
    decreases it, 0int,
{
    branch(Form::Compare(it.0), seq![prepared_expr(it.1)])
}

/// The shape of a prepared target.
pub open spec fn prepared_target(it: PreparedTarget) -> Shape
    decreases it, 0int,
{
    match it {
        PreparedTarget::Name(ident) => leaf(Form::BoundName(ident.name_id, ident.position)),
        PreparedTarget::Starred(ident) => leaf(Form::StarredName(ident.name_id, ident.position)),
        PreparedTarget::Attr { object, attr, position } => branch(Form::BoundAttribute(attr, position), seq![prepared_expr(object)]),
        PreparedTarget::Subscript { object, index, position } => branch(
            Form::BoundSubscript(position),
            seq![prepared_expr(object), prepared_expr(index)],
        ),
        PreparedTarget::Tuple { targets, position } => branch(Form::BoundTuple(position), prepared_targets(targets@)),
    }
}

/// The shape of a prepared target of `del`.
pub open spec fn prepared_delete_target(it: PreparedDeleteTarget) -> Shape
    decreases it, 0int,
{
    match it {
        PreparedDeleteTarget::Name(ident) => leaf(Form::BoundName(ident.name_id, ident.position)),
        PreparedDeleteTarget::Attr { object, attr, position } => branch(Form::BoundAttribute(attr, position), seq![prepared_expr(object)]),
        PreparedDeleteTarget::Subscript { object, index, position } => branch(
            Form::BoundSubscript(position),
            seq![prepared_expr(object), prepared_expr(index)],
        ),
    }
}

/// The shape of a clause of a prepared comprehension.
pub open spec fn prepared_clause(it: PreparedClause) -> Shape
    decreases it, 0int,
{
    branch(Form::Clause, seq![prepared_target(it.target), prepared_expr(it.iter), listed(prepared_exprs(it.ifs@))])
}

/// The shape of the clauses of a prepared comprehension.
pub open spec fn prepared_generators(it: PreparedGenerators) -> Shape
    decreases it, 0int,
{
    listed(seq![prepared_clause(it.first)] + prepared_clauses(it.rest@))
}

/// The shape of a prepared exception handler.
pub open spec fn prepared_handler(it: PreparedHandler) -> Shape
    decreases it, 0int,
{
    branch(
        Form::Handler(match it.name { Some(ident) => Some((ident.name_id, ident.position)), None => None }),
        seq![(match it.exc_type { Some(inner) => prepared_expr(inner), None => absent() }), listed(prepared_nodes(it.body@))],
    )
}

/// The shapes of prepared expressions.
pub open spec fn prepared_exprs(list: Seq<PreparedExprLoc>) -> Seq<Shape>
    decreases list, 1int,
{
    if list.len() == 0 {
        Seq::empty()
    } else {
        prepared_exprs(list.drop_last()).push(prepared_expr(list.last()))
    }
}

/// The shapes of prepared elements.
pub open spec fn prepared_items(list: Seq<PreparedSequenceItem>) -> Seq<Shape>
    decreases list, 1int,
{
    if list.len() == 0 {
        Seq::empty()
    } else {
        prepared_items(list.drop_last()).push(prepared_item(list.last()))
    }
}

/// The shapes of prepared entries.
pub open spec fn prepared_dict_items(list: Seq<PreparedDictItem>) -> Seq<Shape>
    decreases list, 1int,
{
    if list.len() == 0 {
        Seq::empty()
    } else {
        prepared_dict_items(list.drop_last()).push(prepared_dict_item(list.last()))
    }
}

/// The shapes of prepared positional arguments.
pub open spec fn prepared_call_args(list: Seq<PreparedCallArg>) -> Seq<Shape>
    decreases list, 1int,
{
    if list.len() == 0 {
        Seq::empty()
    } else {
        prepared_call_args(list.drop_last()).push(prepared_call_arg(list.last()))
    }
}

/// The shapes of prepared keyword arguments.
pub open spec fn prepared_kwargs(list: Seq<PreparedKwarg>) -> Seq<Shape>
    decreases list, 1int,
{
    if list.len() == 0 {
        Seq::empty()
    } else {
        prepared_kwargs(list.drop_last()).push(prepared_kwarg(list.last()))
    }
}

/// The shapes of prepared keyword arguments.
pub open spec fn prepared_call_kwargs(list: Seq<PreparedCallKwarg>) -> Seq<Shape>
    decreases list, 1int,
{
    if list.len() == 0 {
        Seq::empty()
    } else {
        prepared_call_kwargs(list.drop_last()).push(prepared_call_kwarg(list.last()))
    }
}

/// The shapes of prepared parts of formatted strings.
pub open spec fn prepared_fstring_parts(list: Seq<PreparedFStringPart>) -> Seq<Shape>
    decreases list, 1int,
{
    if list.len() == 0 {
        Seq::empty()
    } else {
        prepared_fstring_parts(list.drop_last()).push(prepared_fstring_part(list.last()))
    }
}

/// The shapes of prepared fields of templates.
pub open spec fn prepared_interpolations(list: Seq<PreparedInterpolation>) -> Seq<Shape>
    decreases list, 1int,
{
    if list.len() == 0 {
        Seq::empty()
    } else {
        prepared_interpolations(list.drop_last()).push(prepared_interpolation(list.last()))
    }
}

/// The shapes of prepared operands.
pub open spec fn prepared_comparisons(list: Seq<(CmpOperator, PreparedExprLoc)>) -> Seq<Shape>
    decreases list, 1int,
{
    if list.len() == 0 {
        Seq::empty()
    } else {
        prepared_comparisons(list.drop_last()).push(prepared_comparison(list.last()))
    }
}

/// The shapes of prepared targets.
pub open spec fn prepared_targets(list: Seq<PreparedTarget>) -> Seq<Shape>
    decreases list, 1int,
{
    if list.len() == 0 {
        Seq::empty()
    } else {
        prepared_targets(list.drop_last()).push(prepared_target(list.last()))
    }
}

/// The shapes of prepared targets of `del`.
pub open spec fn prepared_delete_targets(list: Seq<PreparedDeleteTarget>) -> Seq<Shape>
    decreases list, 1int,
{
    if list.len() == 0 {
        Seq::empty()
    } else {
        prepared_delete_targets(list.drop_last()).push(prepared_delete_target(list.last()))
    }
}

/// The shapes of prepared clauses.
pub open spec fn prepared_clauses(list: Seq<PreparedClause>) -> Seq<Shape>
    decreases list, 1int,
{
    if list.len() == 0 {
        Seq::empty()
    } else {
        prepared_clauses(list.drop_last()).push(prepared_clause(list.last()))
    }
}

/// The shapes of prepared handlers.
pub open spec fn prepared_handlers(list: Seq<PreparedHandler>) -> Seq<Shape>
    decreases list, 1int,
{
    if list.len() == 0 {
        Seq::empty()
    } else {
        prepared_handlers(list.drop_last()).push(prepared_handler(list.last()))
    }
}

/// The shapes of some of the defaults of a prepared function.
pub open spec fn prepared_defaults(defaults: Seq<PreparedExprLoc>, from: int, to: int) -> Seq<Shape>
    decreases defaults, to - from,
{
    if from < 0 || to <= from || to > defaults.len() {
        Seq::empty()
    } else {
        prepared_defaults(defaults, from, to - 1).push(prepared_expr(defaults[to - 1]))
    }
}

/// For each keyword-only parameter the shape of its default, where it has one.
/// `places` says which of the defaults from `from` on that is.
pub open spec fn prepared_options(places: Seq<Option<usize>>, defaults: Seq<PreparedExprLoc>, from: int) -> Seq<Shape>
    decreases defaults, places.len(),
{
    if places.len() == 0 {
        Seq::empty()
    } else {
        prepared_options(places.drop_last(), defaults, from).push(
            match places.last() {
                Some(k) => if 0 <= from + k < defaults.len() {
                    prepared_expr(defaults[from + k])
                } else {
                    absent()
                },
                None => absent(),
            },
        )
    }
}

/// The shape of a prepared function.
pub open spec fn prepared_function(it: PreparedFunctionDef) -> Shape
    decreases it, 0int,
{
    let first = it.signature.pos_defaults_count as int;
    let second = first + it.signature.arg_defaults_count;
    branch(
        Form::Function(
            Head {
                name: it.name.name_id,
                position: it.name.position,
                pos_args: it.signature.pos_args@,
                args: it.signature.args@,
                var_args: it.signature.var_args,
                kwargs: it.signature.kwargs@,
                var_kwargs: it.signature.var_kwargs,
                is_async: it.is_async,
                is_generator: it.is_generator,
            },
        ),
        seq![
            listed(prepared_defaults(it.default_exprs@, 0, first)),
            listed(prepared_defaults(it.default_exprs@, first, second)),
            listed(prepared_options(it.signature.kwarg_default_map@, it.default_exprs@, second)),
            listed(prepared_nodes(it.body@)),
        ],
    )
}

/// The shape of a prepared class.
pub open spec fn prepared_class(it: PreparedClassDef) -> Shape
    decreases it, 0int,
{
    branch(
        Form::Class(
            it.name.name_id,
            it.name.position,
            it.position,
            Seq::new(it.members@.len(), |i: int| (it.members@[i].name_id, it.members@[i].position)),
        ),
        seq![listed(prepared_exprs(it.bases@)), listed(prepared_exprs(it.decorators@)), prepared_function(it.body)],
    )
}

/// The shape of a prepared expression that is raised. A class that is raised is
/// called, so a call without arguments is not told from what it calls.
pub open spec fn prepared_raised(it: PreparedExprLoc) -> Shape
    decreases it, 1int,
{
    match it.expr {
        PreparedExpr::Call { args, .. } => if *args is Empty {
            read_at(it.position)
        } else {
            prepared_expr(it)
        },
        _ => prepared_expr(it),
    }
}

/// The shape of a prepared statement.
#[verifier::opaque]
pub open spec fn prepared_node(it: PreparedNode) -> Shape
    decreases it, 0int,
{
    match it {
        PreparedNode::Expr(expr) => branch(Form::Expression, seq![prepared_expr(expr)]),
        PreparedNode::Return(value) => branch(Form::Return, seq![(match value { Some(inner) => prepared_expr(inner), None => absent() })]),
        PreparedNode::Assert { test, msg } => branch(Form::Assert, seq![prepared_expr(test), (match msg { Some(inner) => prepared_expr(inner), None => absent() })]),
        PreparedNode::UnpackAssign { targets, targets_position, object } => branch(Form::UnpackAssign(targets_position), seq![listed(prepared_targets(targets@)), prepared_expr(object)]),
        PreparedNode::SubscriptOpAssign { target, index, op, value, target_position } => branch(Form::SubscriptOpAssign(op, target_position), seq![prepared_expr(target), prepared_expr(index), prepared_expr(value)]),
        PreparedNode::SubscriptAssign { target, index, value, target_position } => branch(Form::SubscriptAssign(target_position), seq![prepared_expr(target), prepared_expr(index), prepared_expr(value)]),
        PreparedNode::AttrOpAssign { object, attr, op, value, target_position } => branch(Form::AttributeOpAssign(attr, op, target_position), seq![prepared_expr(object), prepared_expr(value)]),
        PreparedNode::AttrAssign { object, attr, target_position, value } => branch(Form::AttributeAssign(attr, target_position), seq![prepared_expr(object), prepared_expr(value)]),
        PreparedNode::ChainAssign { targets, object } => branch(Form::ChainAssign, seq![listed(prepared_targets(targets@)), prepared_expr(object)]),
        PreparedNode::Delete(targets) => branch(Form::Delete, seq![listed(prepared_delete_targets(targets@))]),
        PreparedNode::For { target, iter, body, or_else, is_async } => branch(Form::For(is_async), seq![prepared_target(target), prepared_expr(iter), listed(prepared_nodes(body@)), listed(prepared_nodes(or_else@))]),
        PreparedNode::Break { position } => leaf(Form::Break(position)),
        PreparedNode::Continue { position } => leaf(Form::Continue(position)),
        PreparedNode::While { test, body, or_else } => branch(Form::While, seq![prepared_expr(test), listed(prepared_nodes(body@)), listed(prepared_nodes(or_else@))]),
        PreparedNode::If { test, body, or_else } => branch(Form::If, seq![prepared_expr(test), listed(prepared_nodes(body@)), listed(prepared_nodes(or_else@))]),
        PreparedNode::With { context, target, body, position, is_async } => branch(Form::With(position, is_async), seq![prepared_expr(context), (match target { Some(inner) => prepared_target(inner), None => absent() }), listed(prepared_nodes(body@))]),
        PreparedNode::Raise { exc, cause } => branch(
            Form::Raise,
            seq![
                (match exc { Some(inner) => prepared_raised(inner), None => absent() }),
                (match cause { Some(inner) => prepared_expr(inner), None => absent() }),
            ],
        ),
        PreparedNode::Assign { target, object } => branch(
            Form::Assign(target.name_id, target.position),
            seq![prepared_expr(object)],
        ),
        PreparedNode::OpAssign { target, op, value } => branch(
            Form::OpAssign(target.name_id, target.position, op),
            seq![prepared_expr(value)],
        ),
        PreparedNode::TypeAlias { name, value } => branch(
            Form::TypeAlias(name.name_id, name.position),
            seq![prepared_function(value)],
        ),
        PreparedNode::FunctionDef { def, decorators } => branch(
            Form::FunctionDefinition,
            seq![listed(prepared_exprs(decorators@)), prepared_function(def)],
        ),
        PreparedNode::ClassDef(def) => prepared_class(*def),
        PreparedNode::Try(block) => branch(
            Form::Try,
            seq![
                listed(prepared_nodes(block.body@)),
                listed(prepared_handlers(block.handlers@)),
                listed(prepared_nodes(block.or_else@)),
                listed(prepared_nodes(block.finally@)),
            ],
        ),
        PreparedNode::Import { names } => leaf(
            Form::Import(
                Seq::new(
                    names@.len(),
                    |i: int|
                        (
                            names@[i].module_name,
                            names@[i].bound_name,
                            names@[i].binding.name_id,
                            names@[i].binding.position,
                        ),
                ),
            ),
        ),
        PreparedNode::ImportFrom { module_name, names, position } => leaf(
            Form::ImportFrom(
                module_name,
                position,
                Seq::new(names@.len(), |i: int| (names@[i].0, names@[i].1.name_id, names@[i].1.position)),
            ),
        ),
    }
}

/// The shapes of prepared statements.
pub open spec fn prepared_nodes(list: Seq<PreparedNode>) -> Seq<Shape>
    decreases list, 1int,
{
    if list.len() == 0 {
        Seq::empty()
    } else {
        prepared_nodes(list.drop_last()).push(prepared_node(list.last()))
    }
}

/// A name that is resolved stays the same name at the same place.
#[verifier::spinoff_prover]
pub(crate) proof fn lemma_resolved_name(model: Model, ident: Identifier, is_read: bool)
    ensures
        resolved(model, ident, is_read) matches Ok((_, name)) ==> name.name_id == ident.name_id && name.position
            == ident.position,
{
    reveal(resolved);
}

/// A name that is bound stays the same name at the same place.
#[verifier::spinoff_prover]
pub proof fn law_bound_names_stay_the_same(model: Model, ident: Identifier)
    ensures
        stored(model, ident) matches Ok((_, name)) ==> name.name_id == ident.name_id && name.position == ident.position,
        stored_by_walrus(model, ident) matches Ok((_, name)) ==> name.name_id == ident.name_id && name.position
            == ident.position,
        bound_comp_var(model, ident) matches Ok((_, name)) ==> name.name_id == ident.name_id && name.position
            == ident.position,
{
    reveal(stored);
    reveal(stored_by_walrus);
    reveal(bound_comp_var);
    lemma_resolved_name(model.mark_assigned(ident.name_id), ident, false);
    let bare = Model { comp_scopes: Seq::empty(), ..model.mark_assigned(ident.name_id) };
    lemma_resolved_name(bare, ident, false);
}

/// A name that is read is the same name at the same place, or the builtin that
/// goes by that name.
#[verifier::spinoff_prover]
pub proof fn law_read_names_stay_the_same(model: Model, ident: Identifier)
    requires
        model.builtins.len() <= usize::MAX,
    ensures
        match resolved_read(model, ident) {
            Ok((_, PreparedCallable::Name(name))) => name.name_id == ident.name_id && name.position == ident.position,
            Ok((_, PreparedCallable::Builtin(builtin))) => ident.name_id < model.strings.len() && builtin.index
                < model.builtins.len() && model.builtins[builtin.index as int] == model.strings[ident.name_id as int],
            Err(_) => true,
        },
{
    reveal(resolved_read);
    let after = Model { used: model.used.insert(ident.name_id), ..model };
    lemma_resolved_name(after, ident, true);
    if ident.name_id < model.strings.len() {
        lemma_position_of(model.builtins, model.strings[ident.name_id as int]);
    }
}

/// The place of a text in a list of texts.
#[verifier::spinoff_prover]
proof fn lemma_position_of(list: Seq<Seq<char>>, text: Seq<char>)
    ensures
        crate::intern::position_of(list, text) matches Some(i) ==> 0 <= i < list.len() && list[i] == text,
    decreases list.len(),
{
    if list.len() > 0 {
        lemma_position_of(list.drop_last(), text);
    }
}

} // verus!
