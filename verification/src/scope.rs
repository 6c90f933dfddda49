//! Scope analysis: which names a piece of syntax binds, reads and captures.
//!
//! The analysis of a function body has three passes. The first collects the
//! names that the body binds or declares, the second the names that nested
//! scopes capture, the third the names that are read. Each pass is a function
//! from syntax to a set of names; the executable collectors add that set to
//! the one they are given.

use crate::ast::{
    ArgExprs, CallArg, CallKwarg, Callable, CmpOperator, Comprehension, DeleteTarget, DictItem, ExceptHandler, Expr,
    ExprLoc, FStringPart, FormatSpec, Generators, ImportName, Identifier, Kwarg, LambdaDef, Node, ParsedParam,
    ParsedSignature, SequenceItem, UnpackTarget,
};
use crate::names::{NameSet, StringId};
use crate::tstring::TemplateInterpolation;
use vstd::prelude::*;

verus! {

/// The names of a list of parameters.
pub open spec fn names_of_params(params: Seq<ParsedParam>) -> Seq<StringId> {
    Seq::new(params.len(), |i: int| params[i].name)
}

/// A list of the one name, where there is one.
pub open spec fn listed(name: Option<StringId>) -> Seq<StringId> {
    match name {
        Some(inner) => seq![inner],
        None => Seq::empty(),
    }
}

/// The parameter names of a signature, in the order of their slots.
pub open spec fn param_names(signature: ParsedSignature) -> Seq<StringId> {
    names_of_params(signature.pos_args@) + names_of_params(signature.args@) + listed(signature.var_args)
        + names_of_params(signature.kwargs@) + listed(signature.var_kwargs)
}

/// Writes the names of a list of parameters behind `names`.
fn push_param_names(params: &Vec<ParsedParam>, names: &mut Vec<StringId>)
    ensures
        final(names)@ == old(names)@ + names_of_params(params@),
{
    let ghost start = names@;
    let mut i: usize = 0;
    while i < params.len()
        invariant
            i <= params@.len(),
            names@ == start + names_of_params(params@).take(i as int),
        decreases params@.len() - i,
    {
        names.push(params[i].name);
        i += 1;
        assert(names@ =~= start + names_of_params(params@).take(i as int));
    }
    assert(names_of_params(params@).take(i as int) == names_of_params(params@));
}

impl ParsedSignature {
    /// The parameter names, in the order of their slots.
    pub fn param_names(&self) -> (names: Vec<StringId>)
        ensures
            names@ == param_names(*self),
    {
        let mut names: Vec<StringId> = Vec::new();
        push_param_names(&self.pos_args, &mut names);
        push_param_names(&self.args, &mut names);
        if let Some(name) = self.var_args {
            names.push(name);
        }
        push_param_names(&self.kwargs, &mut names);
        if let Some(name) = self.var_kwargs {
            names.push(name);
        }
        assert(names@ =~= param_names(*self));
        names
    }
}

/// The parameter names as a set.
fn param_set(signature: &ParsedSignature) -> (names: NameSet)
    ensures
        names@ == param_names(*signature).to_set(),
{
    let mut names = NameSet::new();
    names.insert_all(&signature.param_names());
    assert(names@ =~= param_names(*signature).to_set());
    names
}

/// Names that assignment expressions inside an expression bind in the scope
/// that evaluates it. Lambdas and generator expressions are scopes of their own.
pub open spec fn bound_in_expr(e: ExprLoc) -> Set<StringId>
    decreases e,
{
    match e.expr {
        Expr::Named { target, value } => set![target.name_id] + bound_in_expr(*value),
        Expr::List(items) | Expr::Tuple(items) | Expr::SetDisplay(items) => bound_in_items(items@),
        Expr::Dict(items) => bound_in_dict_items(items@),
        Expr::Op { left, right, .. } | Expr::CmpOp { left, right, .. } => bound_in_expr(*left) + bound_in_expr(*right),
        Expr::ChainCmp { left, comparisons } => bound_in_expr(*left) + bound_in_comparisons(comparisons@),
        Expr::Not(operand) | Expr::UnaryMinus(operand) | Expr::UnaryPlus(operand) | Expr::UnaryInvert(operand) | Expr::Await(operand) | Expr::YieldFrom(operand) => bound_in_expr(*operand),
        Expr::Yield(value) => (match value {
            Some(inner) => bound_in_expr(*inner),
            None => Set::empty(),
        }),
        Expr::Subscript { object, index } => bound_in_expr(*object) + bound_in_expr(*index),
        Expr::AttrCall { object, args, .. } => bound_in_expr(*object) + bound_in_args(*args),
        Expr::IndirectCall { callable, args } => bound_in_expr(*callable) + bound_in_args(*args),
        Expr::AttrGet { object, .. } => bound_in_expr(*object),
        Expr::IfElse { test, body, orelse } => bound_in_expr(*test) + bound_in_expr(*body) + bound_in_expr(*orelse),
        Expr::FString(parts) => bound_in_fstring_parts(parts@),
        Expr::TString(template) => bound_in_interpolations(template.interpolations@),
        Expr::ListComp { elt, generators } | Expr::SetComp { elt, generators } => bound_in_expr(*elt) + bound_in_generators(*generators),
        Expr::DictComp { key, value, generators } => bound_in_expr(*key) + bound_in_expr(*value) + bound_in_generators(*generators),
        Expr::Slice { lower, upper, step } => (match lower {
            Some(inner) => bound_in_expr(*inner),
            None => Set::empty(),
        }) + (match upper {
            Some(inner) => bound_in_expr(*inner),
            None => Set::empty(),
        }) + (match step {
            Some(inner) => bound_in_expr(*inner),
            None => Set::empty(),
        }),
        Expr::Call { args, .. } => bound_in_args(*args),
        Expr::GeneratorExpRaw(def) => bound_in_expr(def.iter),
        Expr::LambdaRaw(def) => bound_in_params(def.signature.pos_args@) + bound_in_params(def.signature.args@) + bound_in_params(
            def.signature.kwargs@,
        ),
        Expr::Literal(_) | Expr::Builtin(_) | Expr::Name(_) => Set::empty(),
    }
}

/// Names that the default values of a list of parameters bind.
pub open spec fn bound_in_params(list: Seq<ParsedParam>) -> Set<StringId>
    decreases list,
{
    if list.len() == 0 {
        Set::empty()
    } else {
        bound_in_params(list.drop_last()) + (match list.last().default {
            Some(inner) => bound_in_expr(inner),
            None => Set::empty(),
        })
    }
}

/// The names bound in the arguments of a call.
pub open spec fn bound_in_args(args: ArgExprs) -> Set<StringId>
    decreases args,
{
    match args {
        ArgExprs::Empty => Set::empty(),
        ArgExprs::One(arg) => bound_in_expr(arg),
        ArgExprs::Two(arg1, arg2) => bound_in_expr(arg1) + bound_in_expr(arg2),
        ArgExprs::Args(args) => bound_in_exprs(args@),
        ArgExprs::Kwargs(kwargs) => bound_in_kwargs(kwargs@),
        ArgExprs::GeneralizedCall { args, kwargs } => bound_in_call_args(args@) + bound_in_call_kwargs(kwargs@),
        ArgExprs::ArgsKargs { args, kwargs, var_args, var_kwargs } => (match args {
            Some(list) => bound_in_exprs(list@),
            None => Set::empty(),
        }) + (match kwargs {
            Some(list) => bound_in_kwargs(list@),
            None => Set::empty(),
        }) + (match var_args {
            Some(inner) => bound_in_expr(inner),
            None => Set::empty(),
        }) + (match var_kwargs {
            Some(inner) => bound_in_expr(inner),
            None => Set::empty(),
        }),
    }
}

/// The names bound in a list of expressions.
pub open spec fn bound_in_exprs(list: Seq<ExprLoc>) -> Set<StringId>
    decreases list,
{
    if list.len() == 0 {
        Set::empty()
    } else {
        bound_in_exprs(list.drop_last()) + bound_in_expr(list.last())
    }
}

/// The names bound in the elements of a display.
pub open spec fn bound_in_items(list: Seq<SequenceItem>) -> Set<StringId>
    decreases list,
{
    if list.len() == 0 {
        Set::empty()
    } else {
        bound_in_items(list.drop_last()) + (match list.last() {
            SequenceItem::Value(e) | SequenceItem::Unpack(e) => bound_in_expr(e),
        })
    }
}

/// The names bound in the entries of a dict display.
pub open spec fn bound_in_dict_items(list: Seq<DictItem>) -> Set<StringId>
    decreases list,
{
    if list.len() == 0 {
        Set::empty()
    } else {
        bound_in_dict_items(list.drop_last()) + (match list.last() {
            DictItem::Pair(key, value) => bound_in_expr(key) + bound_in_expr(value),
            DictItem::Unpack(e) => bound_in_expr(e),
        })
    }
}

/// The names bound in the operands of a comparison chain.
pub open spec fn bound_in_comparisons(list: Seq<(CmpOperator, ExprLoc)>) -> Set<StringId>
    decreases list,
{
    if list.len() == 0 {
        Set::empty()
    } else {
        bound_in_comparisons(list.drop_last()) + bound_in_expr(list.last().1)
    }
}

/// The names bound in keyword arguments.
pub open spec fn bound_in_kwargs(list: Seq<Kwarg>) -> Set<StringId>
    decreases list,
{
    if list.len() == 0 {
        Set::empty()
    } else {
        bound_in_kwargs(list.drop_last()) + bound_in_expr(list.last().value)
    }
}

/// The names bound in positional arguments.
pub open spec fn bound_in_call_args(list: Seq<CallArg>) -> Set<StringId>
    decreases list,
{
    if list.len() == 0 {
        Set::empty()
    } else {
        bound_in_call_args(list.drop_last()) + (match list.last() {
            CallArg::Value(e) | CallArg::Unpack(e) => bound_in_expr(e),
        })
    }
}

/// The names bound in keyword arguments and unpackings.
pub open spec fn bound_in_call_kwargs(list: Seq<CallKwarg>) -> Set<StringId>
    decreases list,
{
    if list.len() == 0 {
        Set::empty()
    } else {
        bound_in_call_kwargs(list.drop_last()) + (match list.last() {
            CallKwarg::Named(kwarg) => bound_in_expr(kwarg.value),
            CallKwarg::Unpack(e) => bound_in_expr(e),
        })
    }
}

/// The names bound in the parts of a formatted string and in its format specs.
pub open spec fn bound_in_fstring_parts(list: Seq<FStringPart>) -> Set<StringId>
    decreases list,
{
    if list.len() == 0 {
        Set::empty()
    } else {
        bound_in_fstring_parts(list.drop_last()) + (match list.last() {
            FStringPart::Interpolation { expr, format_spec: Some(FormatSpec::Dynamic(parts)), .. } => bound_in_expr(*expr) + bound_in_fstring_parts(parts@),
            FStringPart::Interpolation { expr, .. } => bound_in_expr(*expr),
            FStringPart::Literal(_) => Set::empty(),
        })
    }
}

/// The names bound in the fields of a template.
pub open spec fn bound_in_interpolations(list: Seq<TemplateInterpolation>) -> Set<StringId>
    decreases list,
{
    if list.len() == 0 {
        Set::empty()
    } else {
        bound_in_interpolations(list.drop_last()) + (bound_in_expr(*list.last().expr) + bound_in_fstring_parts(list.last().format_spec@))
    }
}

/// The names bound in the clauses of a comprehension.
pub open spec fn bound_in_clauses(list: Seq<Comprehension>) -> Set<StringId>
    decreases list,
{
    if list.len() == 0 {
        Set::empty()
    } else {
        bound_in_clauses(list.drop_last()) + (bound_in_expr(list.last().iter) + bound_in_exprs(list.last().ifs@))
    }
}

/// The names bound in a list of binding targets.
pub open spec fn bound_in_unpack_targets(list: Seq<UnpackTarget>) -> Set<StringId>
    decreases list,
{
    if list.len() == 0 {
        Set::empty()
    } else {
        bound_in_unpack_targets(list.drop_last()) + bound_in_unpack_target(list.last())
    }
}

/// The names bound in the iterables and filters of a comprehension.
pub open spec fn bound_in_generators(generators: Generators) -> Set<StringId>
    decreases generators,
{
    bound_in_expr(generators.first.iter) + bound_in_exprs(generators.first.ifs@) + bound_in_clauses(generators.rest@)
}

/// The names bound in a binding target.
pub open spec fn bound_in_unpack_target(target: UnpackTarget) -> Set<StringId>
    decreases target,
{
    match target {
        UnpackTarget::Name(ident) | UnpackTarget::Starred(ident) => set![ident.name_id],
        UnpackTarget::Attr { object, .. } => bound_in_expr(object),
        UnpackTarget::Subscript { object, index, .. } => bound_in_expr(object) + bound_in_expr(index),
        UnpackTarget::Tuple { targets, .. } => bound_in_unpack_targets(targets@),
    }
}

/// Adds the names that assignment expressions inside an expression bind in the scope
/// that evaluates it. Lambdas and generator expressions are scopes of their own.
pub fn collect_assigned_names_from_expr(e: &ExprLoc, assigned_names: &mut NameSet)
    ensures
        final(assigned_names)@ == old(assigned_names)@ + bound_in_expr(*e),
    decreases *e,
{
    match &e.expr {
        Expr::Named { target, value } => {
            assigned_names.insert(target.name_id);
            collect_assigned_names_from_expr(value, assigned_names);
        },
        Expr::List(items) | Expr::Tuple(items) | Expr::SetDisplay(items) => {
            collect_assigned_names_from_items(items, assigned_names);
        },
        Expr::Dict(items) => {
            collect_assigned_names_from_dict_items(items, assigned_names);
        },
        Expr::Op { left, right, .. } | Expr::CmpOp { left, right, .. } => {
            collect_assigned_names_from_expr(left, assigned_names);
            collect_assigned_names_from_expr(right, assigned_names);
        },
        Expr::ChainCmp { left, comparisons } => {
            collect_assigned_names_from_expr(left, assigned_names);
            collect_assigned_names_from_comparisons(comparisons, assigned_names);
        },
        Expr::Not(operand) | Expr::UnaryMinus(operand) | Expr::UnaryPlus(operand) | Expr::UnaryInvert(operand) | Expr::Await(operand) | Expr::YieldFrom(operand) => {
            collect_assigned_names_from_expr(operand, assigned_names);
        },
        Expr::Yield(value) => {
            if let Some(inner) = value {
                collect_assigned_names_from_expr(inner, assigned_names);
            }
        },
        Expr::Subscript { object, index } => {
            collect_assigned_names_from_expr(object, assigned_names);
            collect_assigned_names_from_expr(index, assigned_names);
        },
        Expr::AttrCall { object, args, .. } => {
            collect_assigned_names_from_expr(object, assigned_names);
            collect_assigned_names_from_args(args, assigned_names);
        },
        Expr::IndirectCall { callable, args } => {
            collect_assigned_names_from_expr(callable, assigned_names);
            collect_assigned_names_from_args(args, assigned_names);
        },
        Expr::AttrGet { object, .. } => {
            collect_assigned_names_from_expr(object, assigned_names);
        },
        Expr::IfElse { test, body, orelse } => {
            collect_assigned_names_from_expr(test, assigned_names);
            collect_assigned_names_from_expr(body, assigned_names);
            collect_assigned_names_from_expr(orelse, assigned_names);
        },
        Expr::FString(parts) => {
            collect_assigned_names_from_fstring_parts(parts, assigned_names);
        },
        Expr::TString(template) => {
            collect_assigned_names_from_interpolations(&template.interpolations, assigned_names);
        },
        Expr::ListComp { elt, generators } | Expr::SetComp { elt, generators } => {
            collect_assigned_names_from_expr(elt, assigned_names);
            collect_assigned_names_from_generators(generators, assigned_names);
        },
        Expr::DictComp { key, value, generators } => {
            collect_assigned_names_from_expr(key, assigned_names);
            collect_assigned_names_from_expr(value, assigned_names);
            collect_assigned_names_from_generators(generators, assigned_names);
        },
        Expr::Slice { lower, upper, step } => {
            if let Some(inner) = lower {
                collect_assigned_names_from_expr(inner, assigned_names);
            }
            if let Some(inner) = upper {
                collect_assigned_names_from_expr(inner, assigned_names);
            }
            if let Some(inner) = step {
                collect_assigned_names_from_expr(inner, assigned_names);
            }
        },
        Expr::Call { args, .. } => {
            collect_assigned_names_from_args(args, assigned_names);
        },
        Expr::GeneratorExpRaw(def) => {
            collect_assigned_names_from_expr(&def.iter, assigned_names);
        },
        Expr::LambdaRaw(def) => {
            collect_assigned_names_from_params(&def.signature.pos_args, assigned_names);
            collect_assigned_names_from_params(&def.signature.args, assigned_names);
            collect_assigned_names_from_params(&def.signature.kwargs, assigned_names);
        },
        Expr::Literal(_) | Expr::Builtin(_) | Expr::Name(_) => {
        },
    }
}

/// Adds the names that the default values of a list of parameters bind.
fn collect_assigned_names_from_params(list: &Vec<ParsedParam>, assigned_names: &mut NameSet)
    ensures
        final(assigned_names)@ == old(assigned_names)@ + bound_in_params(list@),
    decreases list@,
{
    let ghost start = assigned_names@;
    let mut i: usize = 0;
    while i < list.len()
        invariant
            i <= list@.len(),
            assigned_names@ == start + bound_in_params(list@.take(i as int)),
        decreases list@.len() - i,
    {
        assert(list@.take(i + 1).drop_last() == list@.take(i as int));
        assert(list@.take(i + 1).last() == list@[i as int]);
        if let Some(default) = &list[i].default {
            collect_assigned_names_from_expr(default, assigned_names);
        }
        i += 1;
    }
    assert(list@.take(i as int) == list@);
}

/// Adds the names bound in the arguments of a call.
pub fn collect_assigned_names_from_args(args: &ArgExprs, assigned_names: &mut NameSet)
    ensures
        final(assigned_names)@ == old(assigned_names)@ + bound_in_args(*args),
    decreases *args,
{
    match args {
        ArgExprs::Empty => {
        },
        ArgExprs::One(arg) => {
            collect_assigned_names_from_expr(arg, assigned_names);
        },
        ArgExprs::Two(arg1, arg2) => {
            collect_assigned_names_from_expr(arg1, assigned_names);
            collect_assigned_names_from_expr(arg2, assigned_names);
        },
        ArgExprs::Args(args) => {
            collect_assigned_names_from_exprs(args, assigned_names);
        },
        ArgExprs::Kwargs(kwargs) => {
            collect_assigned_names_from_kwargs(kwargs, assigned_names);
        },
        ArgExprs::GeneralizedCall { args, kwargs } => {
            collect_assigned_names_from_call_args(args, assigned_names);
            collect_assigned_names_from_call_kwargs(kwargs, assigned_names);
        },
        ArgExprs::ArgsKargs { args, kwargs, var_args, var_kwargs } => {
            if let Some(inner) = args {
                collect_assigned_names_from_exprs(inner, assigned_names);
            }
            if let Some(inner) = kwargs {
                collect_assigned_names_from_kwargs(inner, assigned_names);
            }
            if let Some(inner) = var_args {
                collect_assigned_names_from_expr(inner, assigned_names);
            }
            if let Some(inner) = var_kwargs {
                collect_assigned_names_from_expr(inner, assigned_names);
            }
        },
    }
}

/// Adds the names bound in a list of expressions.
pub fn collect_assigned_names_from_exprs(list: &Vec<ExprLoc>, assigned_names: &mut NameSet)
    ensures
        final(assigned_names)@ == old(assigned_names)@ + bound_in_exprs(list@),
    decreases list@,
{
    let ghost start = assigned_names@;
    let mut i: usize = 0;
    while i < list.len()
        invariant
            i <= list@.len(),
            assigned_names@ == start + bound_in_exprs(list@.take(i as int)),
        decreases list@.len() - i,
    {
        assert(list@.take(i + 1).drop_last() == list@.take(i as int));
        assert(list@.take(i + 1).last() == list@[i as int]);
        collect_assigned_names_from_expr(&list[i], assigned_names);
        i += 1;
    }
    assert(list@.take(i as int) == list@);
}

/// Adds the names bound in the elements of a display.
fn collect_assigned_names_from_items(list: &Vec<SequenceItem>, assigned_names: &mut NameSet)
    ensures
        final(assigned_names)@ == old(assigned_names)@ + bound_in_items(list@),
    decreases list@,
{
    let ghost start = assigned_names@;
    let mut i: usize = 0;
    while i < list.len()
        invariant
            i <= list@.len(),
            assigned_names@ == start + bound_in_items(list@.take(i as int)),
        decreases list@.len() - i,
    {
        assert(list@.take(i + 1).drop_last() == list@.take(i as int));
        assert(list@.take(i + 1).last() == list@[i as int]);
        match &list[i] {
            SequenceItem::Value(e) | SequenceItem::Unpack(e) => {
                collect_assigned_names_from_expr(e, assigned_names);
            },
        }
        i += 1;
    }
    assert(list@.take(i as int) == list@);
}

/// Adds the names bound in the entries of a dict display.
fn collect_assigned_names_from_dict_items(list: &Vec<DictItem>, assigned_names: &mut NameSet)
    ensures
        final(assigned_names)@ == old(assigned_names)@ + bound_in_dict_items(list@),
    decreases list@,
{
    let ghost start = assigned_names@;
    let mut i: usize = 0;
    while i < list.len()
        invariant
            i <= list@.len(),
            assigned_names@ == start + bound_in_dict_items(list@.take(i as int)),
        decreases list@.len() - i,
    {
        assert(list@.take(i + 1).drop_last() == list@.take(i as int));
        assert(list@.take(i + 1).last() == list@[i as int]);
        match &list[i] {
            DictItem::Pair(key, value) => {
                collect_assigned_names_from_expr(key, assigned_names);
                collect_assigned_names_from_expr(value, assigned_names);
            },
            DictItem::Unpack(e) => {
                collect_assigned_names_from_expr(e, assigned_names);
            },
        }
        i += 1;
    }
    assert(list@.take(i as int) == list@);
}

/// Adds the names bound in the operands of a comparison chain.
fn collect_assigned_names_from_comparisons(list: &Vec<(CmpOperator, ExprLoc)>, assigned_names: &mut NameSet)
    ensures
        final(assigned_names)@ == old(assigned_names)@ + bound_in_comparisons(list@),
    decreases list@,
{
    let ghost start = assigned_names@;
    let mut i: usize = 0;
    while i < list.len()
        invariant
            i <= list@.len(),
            assigned_names@ == start + bound_in_comparisons(list@.take(i as int)),
        decreases list@.len() - i,
    {
        assert(list@.take(i + 1).drop_last() == list@.take(i as int));
        assert(list@.take(i + 1).last() == list@[i as int]);
        collect_assigned_names_from_expr(&list[i].1, assigned_names);
        i += 1;
    }
    assert(list@.take(i as int) == list@);
}

/// Adds the names bound in keyword arguments.
fn collect_assigned_names_from_kwargs(list: &Vec<Kwarg>, assigned_names: &mut NameSet)
    ensures
        final(assigned_names)@ == old(assigned_names)@ + bound_in_kwargs(list@),
    decreases list@,
{
    let ghost start = assigned_names@;
    let mut i: usize = 0;
    while i < list.len()
        invariant
            i <= list@.len(),
            assigned_names@ == start + bound_in_kwargs(list@.take(i as int)),
        decreases list@.len() - i,
    {
        assert(list@.take(i + 1).drop_last() == list@.take(i as int));
        assert(list@.take(i + 1).last() == list@[i as int]);
        collect_assigned_names_from_expr(&list[i].value, assigned_names);
        i += 1;
    }
    assert(list@.take(i as int) == list@);
}

/// Adds the names bound in positional arguments.
fn collect_assigned_names_from_call_args(list: &Vec<CallArg>, assigned_names: &mut NameSet)
    ensures
        final(assigned_names)@ == old(assigned_names)@ + bound_in_call_args(list@),
    decreases list@,
{
    let ghost start = assigned_names@;
    let mut i: usize = 0;
    while i < list.len()
        invariant
            i <= list@.len(),
            assigned_names@ == start + bound_in_call_args(list@.take(i as int)),
        decreases list@.len() - i,
    {
        assert(list@.take(i + 1).drop_last() == list@.take(i as int));
        assert(list@.take(i + 1).last() == list@[i as int]);
        match &list[i] {
            CallArg::Value(e) | CallArg::Unpack(e) => {
                collect_assigned_names_from_expr(e, assigned_names);
            },
        }
        i += 1;
    }
    assert(list@.take(i as int) == list@);
}

/// Adds the names bound in keyword arguments and unpackings.
fn collect_assigned_names_from_call_kwargs(list: &Vec<CallKwarg>, assigned_names: &mut NameSet)
    ensures
        final(assigned_names)@ == old(assigned_names)@ + bound_in_call_kwargs(list@),
    decreases list@,
{
    let ghost start = assigned_names@;
    let mut i: usize = 0;
    while i < list.len()
        invariant
            i <= list@.len(),
            assigned_names@ == start + bound_in_call_kwargs(list@.take(i as int)),
        decreases list@.len() - i,
    {
        assert(list@.take(i + 1).drop_last() == list@.take(i as int));
        assert(list@.take(i + 1).last() == list@[i as int]);
        match &list[i] {
            CallKwarg::Named(kwarg) => {
                collect_assigned_names_from_expr(&kwarg.value, assigned_names);
            },
            CallKwarg::Unpack(e) => {
                collect_assigned_names_from_expr(e, assigned_names);
            },
        }
        i += 1;
    }
    assert(list@.take(i as int) == list@);
}

/// Adds the names bound in the parts of a formatted string and in its format specs.
fn collect_assigned_names_from_fstring_parts(list: &Vec<FStringPart>, assigned_names: &mut NameSet)
    ensures
        final(assigned_names)@ == old(assigned_names)@ + bound_in_fstring_parts(list@),
    decreases list@,
{
    let ghost start = assigned_names@;
    let mut i: usize = 0;
    while i < list.len()
        invariant
            i <= list@.len(),
            assigned_names@ == start + bound_in_fstring_parts(list@.take(i as int)),
        decreases list@.len() - i,
    {
        assert(list@.take(i + 1).drop_last() == list@.take(i as int));
        assert(list@.take(i + 1).last() == list@[i as int]);
        if let FStringPart::Interpolation { expr, format_spec, .. } = &list[i] {
            collect_assigned_names_from_expr(expr, assigned_names);
            if let Some(FormatSpec::Dynamic(parts)) = format_spec {
                collect_assigned_names_from_fstring_parts(parts, assigned_names);
            }
        }
        i += 1;
    }
    assert(list@.take(i as int) == list@);
}

/// Adds the names bound in the fields of a template.
fn collect_assigned_names_from_interpolations(list: &Vec<TemplateInterpolation>, assigned_names: &mut NameSet)
    ensures
        final(assigned_names)@ == old(assigned_names)@ + bound_in_interpolations(list@),
    decreases list@,
{
    let ghost start = assigned_names@;
    let mut i: usize = 0;
    while i < list.len()
        invariant
            i <= list@.len(),
            assigned_names@ == start + bound_in_interpolations(list@.take(i as int)),
        decreases list@.len() - i,
    {
        assert(list@.take(i + 1).drop_last() == list@.take(i as int));
        assert(list@.take(i + 1).last() == list@[i as int]);
        collect_assigned_names_from_expr(&list[i].expr, assigned_names);
        collect_assigned_names_from_fstring_parts(&list[i].format_spec, assigned_names);
        i += 1;
    }
    assert(list@.take(i as int) == list@);
}

/// Adds the names bound in the clauses of a comprehension.
fn collect_assigned_names_from_clauses(list: &Vec<Comprehension>, assigned_names: &mut NameSet)
    ensures
        final(assigned_names)@ == old(assigned_names)@ + bound_in_clauses(list@),
    decreases list@,
{
    let ghost start = assigned_names@;
    let mut i: usize = 0;
    while i < list.len()
        invariant
            i <= list@.len(),
            assigned_names@ == start + bound_in_clauses(list@.take(i as int)),
        decreases list@.len() - i,
    {
        assert(list@.take(i + 1).drop_last() == list@.take(i as int));
        assert(list@.take(i + 1).last() == list@[i as int]);
        collect_assigned_names_from_expr(&list[i].iter, assigned_names);
        collect_assigned_names_from_exprs(&list[i].ifs, assigned_names);
        i += 1;
    }
    assert(list@.take(i as int) == list@);
}

/// Adds the names bound in a list of binding targets.
fn collect_assigned_names_from_unpack_targets(list: &Vec<UnpackTarget>, assigned_names: &mut NameSet)
    ensures
        final(assigned_names)@ == old(assigned_names)@ + bound_in_unpack_targets(list@),
    decreases list@,
{
    let ghost start = assigned_names@;
    let mut i: usize = 0;
    while i < list.len()
        invariant
            i <= list@.len(),
            assigned_names@ == start + bound_in_unpack_targets(list@.take(i as int)),
        decreases list@.len() - i,
    {
        assert(list@.take(i + 1).drop_last() == list@.take(i as int));
        assert(list@.take(i + 1).last() == list@[i as int]);
        collect_assigned_names_from_unpack_target(&list[i], assigned_names);
        i += 1;
    }
    assert(list@.take(i as int) == list@);
}

/// Adds the names bound in the iterables and filters of a comprehension.
fn collect_assigned_names_from_generators(generators: &Generators, assigned_names: &mut NameSet)
    ensures
        final(assigned_names)@ == old(assigned_names)@ + bound_in_generators(*generators),
    decreases *generators,
{
    collect_assigned_names_from_expr(&generators.first.iter, assigned_names);
    collect_assigned_names_from_exprs(&generators.first.ifs, assigned_names);
    collect_assigned_names_from_clauses(&generators.rest, assigned_names);
}

/// Adds the names bound in a binding target.
pub fn collect_assigned_names_from_unpack_target(target: &UnpackTarget, assigned_names: &mut NameSet)
    ensures
        final(assigned_names)@ == old(assigned_names)@ + bound_in_unpack_target(*target),
    decreases *target,
{
    match target {
        UnpackTarget::Name(ident) | UnpackTarget::Starred(ident) => {
            assigned_names.insert(ident.name_id);
        },
        UnpackTarget::Attr { object, .. } => {
            collect_assigned_names_from_expr(object, assigned_names);
        },
        UnpackTarget::Subscript { object, index, .. } => {
            collect_assigned_names_from_expr(object, assigned_names);
            collect_assigned_names_from_expr(index, assigned_names);
        },
        UnpackTarget::Tuple { targets, .. } => {
            collect_assigned_names_from_unpack_targets(targets, assigned_names);
        },
    }
}

/// Names that a list of `import` clauses binds.
pub open spec fn bound_in_import_names(list: Seq<ImportName>) -> Set<StringId>
    decreases list,
{
    if list.len() == 0 {
        Set::empty()
    } else {
        bound_in_import_names(list.drop_last()).insert(list.last().binding.name_id)
    }
}

/// Adds the names that a list of `import` clauses binds.
fn collect_assigned_names_from_import_names(list: &Vec<ImportName>, assigned_names: &mut NameSet)
    ensures
        final(assigned_names)@ == old(assigned_names)@ + bound_in_import_names(list@),
{
    let ghost start = assigned_names@;
    let mut i: usize = 0;
    while i < list.len()
        invariant
            i <= list@.len(),
            assigned_names@ == start + bound_in_import_names(list@.take(i as int)),
        decreases list@.len() - i,
    {
        assert(list@.take(i + 1).drop_last() == list@.take(i as int));
        assigned_names.insert(list[i].binding.name_id);
        i += 1;
    }
    assert(list@.take(i as int) == list@);
}

/// Names that a `from` import binds.
pub open spec fn bound_in_import_from(list: Seq<(StringId, Identifier)>) -> Set<StringId>
    decreases list,
{
    if list.len() == 0 {
        Set::empty()
    } else {
        bound_in_import_from(list.drop_last()).insert(list.last().1.name_id)
    }
}

/// Adds the names that a `from` import binds.
fn collect_assigned_names_from_import_from(list: &Vec<(StringId, Identifier)>, assigned_names: &mut NameSet)
    ensures
        final(assigned_names)@ == old(assigned_names)@ + bound_in_import_from(list@),
{
    let ghost start = assigned_names@;
    let mut i: usize = 0;
    while i < list.len()
        invariant
            i <= list@.len(),
            assigned_names@ == start + bound_in_import_from(list@.take(i as int)),
        decreases list@.len() - i,
    {
        assert(list@.take(i + 1).drop_last() == list@.take(i as int));
        assigned_names.insert(list[i].1.name_id);
        i += 1;
    }
    assert(list@.take(i as int) == list@);
}

/// Names that the targets of `del` make local, and those that assignment
/// expressions in them bind.
pub open spec fn bound_in_delete_targets(list: Seq<DeleteTarget>) -> Set<StringId>
    decreases list,
{
    if list.len() == 0 {
        Set::empty()
    } else {
        bound_in_delete_targets(list.drop_last()) + (match list.last() {
            DeleteTarget::Name(ident) => set![ident.name_id],
            DeleteTarget::Attr { object, .. } => bound_in_expr(object),
            DeleteTarget::Subscript { object, index, .. } => bound_in_expr(object) + bound_in_expr(index),
        })
    }
}

/// Adds the names that the targets of `del` bind.
fn collect_assigned_names_from_delete_targets(list: &Vec<DeleteTarget>, assigned_names: &mut NameSet)
    ensures
        final(assigned_names)@ == old(assigned_names)@ + bound_in_delete_targets(list@),
{
    let ghost start = assigned_names@;
    let mut i: usize = 0;
    while i < list.len()
        invariant
            i <= list@.len(),
            assigned_names@ == start + bound_in_delete_targets(list@.take(i as int)),
        decreases list@.len() - i,
    {
        assert(list@.take(i + 1).drop_last() == list@.take(i as int));
        match &list[i] {
            DeleteTarget::Name(ident) => {
                assigned_names.insert(ident.name_id);
            },
            DeleteTarget::Attr { object, .. } => {
                collect_assigned_names_from_expr(object, assigned_names);
            },
            DeleteTarget::Subscript { object, index, .. } => {
                collect_assigned_names_from_expr(object, assigned_names);
                collect_assigned_names_from_expr(index, assigned_names);
            },
        }
        i += 1;
    }
    assert(list@.take(i as int) == list@);
}

/// Names that a statement binds in its scope.
pub open spec fn bound_in_node(node: Node) -> Set<StringId>
    decreases node,
{
    match node {
        Node::Assign { target, object } => set![target.name_id] + bound_in_expr(object),
        Node::UnpackAssign { targets, object, .. } | Node::ChainAssign { targets, object } => bound_in_unpack_targets(
            targets@,
        ) + bound_in_expr(object),
        Node::OpAssign { target, value, .. } => set![target.name_id] + bound_in_expr(value),
        Node::SubscriptOpAssign { target, index, value, .. }
        | Node::SubscriptAssign { target, index, value, .. } => bound_in_expr(target) + bound_in_expr(index)
            + bound_in_expr(value),
        Node::AttrOpAssign { object, value, .. } | Node::AttrAssign { object, value, .. } => bound_in_expr(object)
            + bound_in_expr(value),
        Node::For { target, iter, body, or_else, .. } => bound_in_unpack_target(target) + bound_in_expr(iter)
            + bound_in_nodes(body@) + bound_in_nodes(or_else@),
        Node::While { test, body, or_else } | Node::If { test, body, or_else } => bound_in_expr(test) + bound_in_nodes(
            body@,
        ) + bound_in_nodes(or_else@),
        Node::FunctionDef { def, decorators } => set![def.name.name_id] + bound_in_params(def.signature.pos_args@)
            + bound_in_params(def.signature.args@) + bound_in_params(def.signature.kwargs@) + bound_in_exprs(decorators@),
        Node::ClassDef(def) => set![def.name.name_id] + bound_in_exprs(def.bases@) + bound_in_exprs(def.decorators@),
        Node::TypeAlias { name, .. } => set![name.name_id],
        Node::Delete(targets) => bound_in_delete_targets(targets@),
        Node::Try(block) => bound_in_nodes(block.body@) + bound_in_handlers(block.handlers@) + bound_in_nodes(
            block.or_else@,
        ) + bound_in_nodes(block.finally@),
        Node::With { context, target, body, .. } => (match target {
            Some(inner) => bound_in_unpack_target(inner),
            None => Set::empty(),
        }) + bound_in_expr(context) + bound_in_nodes(body@),
        Node::Import { names } => bound_in_import_names(names@),
        Node::ImportFrom { names, .. } => bound_in_import_from(names@),
        Node::Expr(expr) | Node::Return(Some(expr)) => bound_in_expr(expr),
        Node::Raise { exc, cause } => (match exc {
            Some(inner) => bound_in_expr(inner),
            None => Set::empty(),
        }) + (match cause {
            Some(inner) => bound_in_expr(inner),
            None => Set::empty(),
        }),
        Node::Assert { test, msg } => bound_in_expr(test) + (match msg {
            Some(inner) => bound_in_expr(inner),
            None => Set::empty(),
        }),
        Node::Pass
        | Node::Return(None)
        | Node::Break { .. }
        | Node::Continue { .. }
        | Node::Global { .. }
        | Node::Nonlocal { .. } => Set::empty(),
    }
}

/// Names that a list of statements binds.
pub open spec fn bound_in_nodes(list: Seq<Node>) -> Set<StringId>
    decreases list,
{
    if list.len() == 0 {
        Set::empty()
    } else {
        bound_in_nodes(list.drop_last()) + bound_in_node(list.last())
    }
}

/// Names that the handlers of a `try` statement bind.
pub open spec fn bound_in_handlers(list: Seq<ExceptHandler>) -> Set<StringId>
    decreases list,
{
    if list.len() == 0 {
        Set::empty()
    } else {
        bound_in_handlers(list.drop_last()) + (match list.last().exc_type {
            Some(inner) => bound_in_expr(inner),
            None => Set::empty(),
        }) + (match list.last().name {
            Some(ident) => set![ident.name_id],
            None => Set::empty(),
        }) + bound_in_nodes(list.last().body@)
    }
}

/// Which of the two declaration statements is meant.
#[derive(Clone, Copy, PartialEq, Eq, Structural)]
pub enum Declaration {
    Global,
    Nonlocal,
}

/// Names that a statement declares, in its own scope, to be global or nonlocal.
pub open spec fn declared_in_node(node: Node, kind: Declaration) -> Set<StringId>
    decreases node,
{
    match node {
        Node::Global { names, .. } => if kind == Declaration::Global {
            names@.to_set()
        } else {
            Set::empty()
        },
        Node::Nonlocal { names, .. } => if kind == Declaration::Nonlocal {
            names@.to_set()
        } else {
            Set::empty()
        },
        Node::For { body, or_else, .. } | Node::While { body, or_else, .. } | Node::If { body, or_else, .. } =>
            declared_in_nodes(body@, kind) + declared_in_nodes(or_else@, kind),
        Node::Try(block) => declared_in_nodes(block.body@, kind) + declared_in_handlers(block.handlers@, kind)
            + declared_in_nodes(block.or_else@, kind) + declared_in_nodes(block.finally@, kind),
        Node::With { body, .. } => declared_in_nodes(body@, kind),
        _ => Set::empty(),
    }
}

/// Names that a list of statements declares.
pub open spec fn declared_in_nodes(list: Seq<Node>, kind: Declaration) -> Set<StringId>
    decreases list,
{
    if list.len() == 0 {
        Set::empty()
    } else {
        declared_in_nodes(list.drop_last(), kind) + declared_in_node(list.last(), kind)
    }
}

/// Names that the handlers of a `try` statement declare.
pub open spec fn declared_in_handlers(list: Seq<ExceptHandler>, kind: Declaration) -> Set<StringId>
    decreases list,
{
    if list.len() == 0 {
        Set::empty()
    } else {
        declared_in_handlers(list.drop_last(), kind) + declared_in_nodes(list.last().body@, kind)
    }
}

/// Adds the names that a statement declares and binds in its scope.
pub fn collect_scope_info_from_node(
    node: &Node,
    global_names: &mut NameSet,
    nonlocal_names: &mut NameSet,
    assigned_names: &mut NameSet,
)
    ensures
        final(global_names)@ == old(global_names)@ + declared_in_node(*node, Declaration::Global),
        final(nonlocal_names)@ == old(nonlocal_names)@ + declared_in_node(*node, Declaration::Nonlocal),
        final(assigned_names)@ == old(assigned_names)@ + bound_in_node(*node),
    decreases *node,
{
    match node {
        Node::Global { names, .. } => {
            global_names.insert_all(names);
        },
        Node::Nonlocal { names, .. } => {
            nonlocal_names.insert_all(names);
        },
        Node::Assign { target, object } => {
            assigned_names.insert(target.name_id);
            collect_assigned_names_from_expr(object, assigned_names);
        },
        Node::UnpackAssign { targets, object, .. } | Node::ChainAssign { targets, object } => {
            collect_assigned_names_from_unpack_targets(targets, assigned_names);
            collect_assigned_names_from_expr(object, assigned_names);
        },
        Node::OpAssign { target, value, .. } => {
            assigned_names.insert(target.name_id);
            collect_assigned_names_from_expr(value, assigned_names);
        },
        Node::SubscriptOpAssign { target, index, value, .. } | Node::SubscriptAssign { target, index, value, .. } => {
            collect_assigned_names_from_expr(target, assigned_names);
            collect_assigned_names_from_expr(index, assigned_names);
            collect_assigned_names_from_expr(value, assigned_names);
        },
        Node::AttrOpAssign { object, value, .. } | Node::AttrAssign { object, value, .. } => {
            collect_assigned_names_from_expr(object, assigned_names);
            collect_assigned_names_from_expr(value, assigned_names);
        },
        Node::For { target, iter, body, or_else, .. } => {
            collect_assigned_names_from_unpack_target(target, assigned_names);
            collect_assigned_names_from_expr(iter, assigned_names);
            collect_scope_info_from_nodes(body, global_names, nonlocal_names, assigned_names);
            collect_scope_info_from_nodes(or_else, global_names, nonlocal_names, assigned_names);
        },
        Node::While { test, body, or_else } | Node::If { test, body, or_else } => {
            collect_assigned_names_from_expr(test, assigned_names);
            collect_scope_info_from_nodes(body, global_names, nonlocal_names, assigned_names);
            collect_scope_info_from_nodes(or_else, global_names, nonlocal_names, assigned_names);
        },
        Node::FunctionDef { def, decorators } => {
            assigned_names.insert(def.name.name_id);
            collect_assigned_names_from_params(&def.signature.pos_args, assigned_names);
            collect_assigned_names_from_params(&def.signature.args, assigned_names);
            collect_assigned_names_from_params(&def.signature.kwargs, assigned_names);
            collect_assigned_names_from_exprs(decorators, assigned_names);
        },
        Node::ClassDef(def) => {
            assigned_names.insert(def.name.name_id);
            collect_assigned_names_from_exprs(&def.bases, assigned_names);
            collect_assigned_names_from_exprs(&def.decorators, assigned_names);
        },
        Node::TypeAlias { name, .. } => {
            assigned_names.insert(name.name_id);
        },
        Node::Delete(targets) => {
            collect_assigned_names_from_delete_targets(targets, assigned_names);
        },
        Node::Try(block) => {
            collect_scope_info_from_nodes(&block.body, global_names, nonlocal_names, assigned_names);
            collect_scope_info_from_handlers(&block.handlers, global_names, nonlocal_names, assigned_names);
            collect_scope_info_from_nodes(&block.or_else, global_names, nonlocal_names, assigned_names);
            collect_scope_info_from_nodes(&block.finally, global_names, nonlocal_names, assigned_names);
        },
        Node::With { context, target, body, .. } => {
            if let Some(inner) = target {
                collect_assigned_names_from_unpack_target(inner, assigned_names);
            }
            collect_assigned_names_from_expr(context, assigned_names);
            collect_scope_info_from_nodes(body, global_names, nonlocal_names, assigned_names);
        },
        Node::Import { names } => {
            collect_assigned_names_from_import_names(names, assigned_names);
        },
        Node::ImportFrom { names, .. } => {
            collect_assigned_names_from_import_from(names, assigned_names);
        },
        Node::Expr(expr) | Node::Return(Some(expr)) => {
            collect_assigned_names_from_expr(expr, assigned_names);
        },
        Node::Raise { exc, cause } => {
            if let Some(inner) = exc {
                collect_assigned_names_from_expr(inner, assigned_names);
            }
            if let Some(inner) = cause {
                collect_assigned_names_from_expr(inner, assigned_names);
            }
        },
        Node::Assert { test, msg } => {
            collect_assigned_names_from_expr(test, assigned_names);
            if let Some(inner) = msg {
                collect_assigned_names_from_expr(inner, assigned_names);
            }
        },
        Node::Pass | Node::Return(None) | Node::Break { .. } | Node::Continue { .. } => {
        },
    }
}

/// Adds the names that a list of statements declares and binds.
fn collect_scope_info_from_nodes(
    list: &Vec<Node>,
    global_names: &mut NameSet,
    nonlocal_names: &mut NameSet,
    assigned_names: &mut NameSet,
)
    ensures
        final(global_names)@ == old(global_names)@ + declared_in_nodes(list@, Declaration::Global),
        final(nonlocal_names)@ == old(nonlocal_names)@ + declared_in_nodes(list@, Declaration::Nonlocal),
        final(assigned_names)@ == old(assigned_names)@ + bound_in_nodes(list@),
    decreases list@,
{
    let ghost globals = global_names@;
    let ghost nonlocals = nonlocal_names@;
    let ghost assigned = assigned_names@;
    let mut i: usize = 0;
    while i < list.len()
        invariant
            i <= list@.len(),
            global_names@ == globals + declared_in_nodes(list@.take(i as int), Declaration::Global),
            nonlocal_names@ == nonlocals + declared_in_nodes(list@.take(i as int), Declaration::Nonlocal),
            assigned_names@ == assigned + bound_in_nodes(list@.take(i as int)),
        decreases list@.len() - i,
    {
        assert(list@.take(i + 1).drop_last() == list@.take(i as int));
        assert(list@.take(i + 1).last() == list@[i as int]);
        collect_scope_info_from_node(&list[i], global_names, nonlocal_names, assigned_names);
        i += 1;
    }
    assert(list@.take(i as int) == list@);
}

/// Adds the names that the handlers of a `try` statement declare and bind.
fn collect_scope_info_from_handlers(
    list: &Vec<ExceptHandler>,
    global_names: &mut NameSet,
    nonlocal_names: &mut NameSet,
    assigned_names: &mut NameSet,
)
    ensures
        final(global_names)@ == old(global_names)@ + declared_in_handlers(list@, Declaration::Global),
        final(nonlocal_names)@ == old(nonlocal_names)@ + declared_in_handlers(list@, Declaration::Nonlocal),
        final(assigned_names)@ == old(assigned_names)@ + bound_in_handlers(list@),
    decreases list@,
{
    let ghost globals = global_names@;
    let ghost nonlocals = nonlocal_names@;
    let ghost assigned = assigned_names@;
    let mut i: usize = 0;
    while i < list.len()
        invariant
            i <= list@.len(),
            global_names@ == globals + declared_in_handlers(list@.take(i as int), Declaration::Global),
            nonlocal_names@ == nonlocals + declared_in_handlers(list@.take(i as int), Declaration::Nonlocal),
            assigned_names@ == assigned + bound_in_handlers(list@.take(i as int)),
        decreases list@.len() - i,
    {
        assert(list@.take(i + 1).drop_last() == list@.take(i as int));
        assert(list@.take(i + 1).last() == list@[i as int]);
        if let Some(inner) = &list[i].exc_type {
            collect_assigned_names_from_expr(inner, assigned_names);
        }
        if let Some(ident) = &list[i].name {
            assigned_names.insert(ident.name_id);
        }
        collect_scope_info_from_nodes(&list[i].body, global_names, nonlocal_names, assigned_names);
        i += 1;
    }
    assert(list@.take(i as int) == list@);
}

/// Names that an expression reads, other than those that a nested scope or a
/// comprehension binds for itself.
pub open spec fn read_in_expr(e: ExprLoc) -> Set<StringId>
    decreases e, 0int,
{
    match e.expr {
        Expr::Name(ident) => set![ident.name_id],
        Expr::List(items) | Expr::Tuple(items) | Expr::SetDisplay(items) => read_in_items(items@),
        Expr::Dict(items) => read_in_dict_items(items@),
        Expr::Op { left, right, .. } | Expr::CmpOp { left, right, .. } => read_in_expr(*left) + read_in_expr(*right),
        Expr::ChainCmp { left, comparisons } => read_in_expr(*left) + read_in_comparisons(comparisons@),
        Expr::Not(operand) | Expr::UnaryMinus(operand) | Expr::UnaryPlus(operand) | Expr::UnaryInvert(operand) | Expr::Await(operand) | Expr::YieldFrom(operand) => read_in_expr(*operand),
        Expr::Yield(value) => (match value {
            Some(inner) => read_in_expr(*inner),
            None => Set::empty(),
        }),
        Expr::Subscript { object, index } => read_in_expr(*object) + read_in_expr(*index),
        Expr::AttrCall { object, args, .. } => read_in_expr(*object) + read_in_args(*args),
        Expr::IndirectCall { callable, args } => read_in_expr(*callable) + read_in_args(*args),
        Expr::AttrGet { object, .. } => read_in_expr(*object),
        Expr::IfElse { test, body, orelse } => read_in_expr(*test) + read_in_expr(*body) + read_in_expr(*orelse),
        Expr::FString(parts) => read_in_fstring_parts(parts@),
        Expr::TString(template) => read_in_interpolations(template.interpolations@),
        Expr::Slice { lower, upper, step } => (match lower {
            Some(inner) => read_in_expr(*inner),
            None => Set::empty(),
        }) + (match upper {
            Some(inner) => read_in_expr(*inner),
            None => Set::empty(),
        }) + (match step {
            Some(inner) => read_in_expr(*inner),
            None => Set::empty(),
        }),
        Expr::Named { value, .. } => read_in_expr(*value),
        Expr::Call { callable, args } => match callable {
            Callable::Name(ident) => set![ident.name_id] + read_in_args(*args),
            Callable::Builtin(_) => read_in_args(*args),
        },
        Expr::ListComp { elt, generators } | Expr::SetComp { elt, generators } => read_in_expr(generators.first.iter) + (
        read_in_generators(*generators) + read_in_expr(*elt)).difference(bound_by_generators(*generators)),
        Expr::DictComp { key, value, generators } => read_in_expr(generators.first.iter) + (read_in_generators(
            *generators,
        ) + read_in_expr(*key) + read_in_expr(*value)).difference(bound_by_generators(*generators)),
        Expr::GeneratorExpRaw(def) => read_by_function(def.signature, def.body@) + read_in_expr(def.iter),
        Expr::LambdaRaw(def) => read_in_expr(def.body).difference(own_in_lambda(*def))
            + read_in_params(def.signature.pos_args@) + read_in_params(def.signature.args@) + read_in_params(
            def.signature.kwargs@,
        ),
        Expr::Literal(_) | Expr::Builtin(_) => Set::empty(),
    }
}

/// The names read in the arguments of a call.
pub open spec fn read_in_args(args: ArgExprs) -> Set<StringId>
    decreases args, 0int,
{
    match args {
        ArgExprs::Empty => Set::empty(),
        ArgExprs::One(arg) => read_in_expr(arg),
        ArgExprs::Two(arg1, arg2) => read_in_expr(arg1) + read_in_expr(arg2),
        ArgExprs::Args(args) => read_in_exprs(args@),
        ArgExprs::Kwargs(kwargs) => read_in_kwargs(kwargs@),
        ArgExprs::GeneralizedCall { args, kwargs } => read_in_call_args(args@) + read_in_call_kwargs(kwargs@),
        ArgExprs::ArgsKargs { args, kwargs, var_args, var_kwargs } => (match args {
            Some(list) => read_in_exprs(list@),
            None => Set::empty(),
        }) + (match kwargs {
            Some(list) => read_in_kwargs(list@),
            None => Set::empty(),
        }) + (match var_args {
            Some(inner) => read_in_expr(inner),
            None => Set::empty(),
        }) + (match var_kwargs {
            Some(inner) => read_in_expr(inner),
            None => Set::empty(),
        }),
    }
}

/// The names read in a list of expressions.
pub open spec fn read_in_exprs(list: Seq<ExprLoc>) -> Set<StringId>
    decreases list, 0int,
{
    if list.len() == 0 {
        Set::empty()
    } else {
        read_in_exprs(list.drop_last()) + read_in_expr(list.last())
    }
}

/// The names read in the elements of a display.
pub open spec fn read_in_items(list: Seq<SequenceItem>) -> Set<StringId>
    decreases list, 0int,
{
    if list.len() == 0 {
        Set::empty()
    } else {
        read_in_items(list.drop_last()) + (match list.last() {
            SequenceItem::Value(e) | SequenceItem::Unpack(e) => read_in_expr(e),
        })
    }
}

/// The names read in the entries of a dict display.
pub open spec fn read_in_dict_items(list: Seq<DictItem>) -> Set<StringId>
    decreases list, 0int,
{
    if list.len() == 0 {
        Set::empty()
    } else {
        read_in_dict_items(list.drop_last()) + (match list.last() {
            DictItem::Pair(key, value) => read_in_expr(key) + read_in_expr(value),
            DictItem::Unpack(e) => read_in_expr(e),
        })
    }
}

/// The names read in the operands of a comparison chain.
pub open spec fn read_in_comparisons(list: Seq<(CmpOperator, ExprLoc)>) -> Set<StringId>
    decreases list, 0int,
{
    if list.len() == 0 {
        Set::empty()
    } else {
        read_in_comparisons(list.drop_last()) + read_in_expr(list.last().1)
    }
}

/// The names read in keyword arguments.
pub open spec fn read_in_kwargs(list: Seq<Kwarg>) -> Set<StringId>
    decreases list, 0int,
{
    if list.len() == 0 {
        Set::empty()
    } else {
        read_in_kwargs(list.drop_last()) + read_in_expr(list.last().value)
    }
}

/// The names read in positional arguments.
pub open spec fn read_in_call_args(list: Seq<CallArg>) -> Set<StringId>
    decreases list, 0int,
{
    if list.len() == 0 {
        Set::empty()
    } else {
        read_in_call_args(list.drop_last()) + (match list.last() {
            CallArg::Value(e) | CallArg::Unpack(e) => read_in_expr(e),
        })
    }
}

/// The names read in keyword arguments and unpackings.
pub open spec fn read_in_call_kwargs(list: Seq<CallKwarg>) -> Set<StringId>
    decreases list, 0int,
{
    if list.len() == 0 {
        Set::empty()
    } else {
        read_in_call_kwargs(list.drop_last()) + (match list.last() {
            CallKwarg::Named(kwarg) => read_in_expr(kwarg.value),
            CallKwarg::Unpack(e) => read_in_expr(e),
        })
    }
}

/// The names read in the parts of a formatted string and in its format specs.
pub open spec fn read_in_fstring_parts(list: Seq<FStringPart>) -> Set<StringId>
    decreases list, 0int,
{
    if list.len() == 0 {
        Set::empty()
    } else {
        read_in_fstring_parts(list.drop_last()) + (match list.last() {
            FStringPart::Interpolation { expr, format_spec: Some(FormatSpec::Dynamic(parts)), .. } => read_in_expr(*expr) + read_in_fstring_parts(parts@),
            FStringPart::Interpolation { expr, .. } => read_in_expr(*expr),
            FStringPart::Literal(_) => Set::empty(),
        })
    }
}

/// The names read in the fields of a template.
pub open spec fn read_in_interpolations(list: Seq<TemplateInterpolation>) -> Set<StringId>
    decreases list, 0int,
{
    if list.len() == 0 {
        Set::empty()
    } else {
        read_in_interpolations(list.drop_last()) + (read_in_expr(*list.last().expr) + read_in_fstring_parts(list.last().format_spec@))
    }
}

/// The names read in a list of binding targets.
pub open spec fn read_in_unpack_targets(list: Seq<UnpackTarget>) -> Set<StringId>
    decreases list, 0int,
{
    if list.len() == 0 {
        Set::empty()
    } else {
        read_in_unpack_targets(list.drop_last()) + read_in_unpack_target(list.last())
    }
}

/// The names read in a binding target.
pub open spec fn read_in_unpack_target(target: UnpackTarget) -> Set<StringId>
    decreases target, 0int,
{
    match target {
        UnpackTarget::Name(_) | UnpackTarget::Starred(_) => Set::empty(),
        UnpackTarget::Attr { object, .. } => read_in_expr(object),
        UnpackTarget::Subscript { object, index, .. } => read_in_expr(object) + read_in_expr(index),
        UnpackTarget::Tuple { targets, .. } => read_in_unpack_targets(targets@),
    }
}

/// Adds the names that an expression reads, other than those that a nested scope or a
/// comprehension binds for itself.
pub fn collect_referenced_names_from_expr(e: &ExprLoc, referenced: &mut NameSet)
    ensures
        final(referenced)@ == old(referenced)@ + read_in_expr(*e),
    decreases *e, 0int,
{
    match &e.expr {
        Expr::Name(ident) => {
            referenced.insert(ident.name_id);
        },
        Expr::List(items) | Expr::Tuple(items) | Expr::SetDisplay(items) => {
            collect_referenced_names_from_items(items, referenced);
        },
        Expr::Dict(items) => {
            collect_referenced_names_from_dict_items(items, referenced);
        },
        Expr::Op { left, right, .. } | Expr::CmpOp { left, right, .. } => {
            collect_referenced_names_from_expr(left, referenced);
            collect_referenced_names_from_expr(right, referenced);
        },
        Expr::ChainCmp { left, comparisons } => {
            collect_referenced_names_from_expr(left, referenced);
            collect_referenced_names_from_comparisons(comparisons, referenced);
        },
        Expr::Not(operand) | Expr::UnaryMinus(operand) | Expr::UnaryPlus(operand) | Expr::UnaryInvert(operand) | Expr::Await(operand) | Expr::YieldFrom(operand) => {
            collect_referenced_names_from_expr(operand, referenced);
        },
        Expr::Yield(value) => {
            if let Some(inner) = value {
                collect_referenced_names_from_expr(inner, referenced);
            }
        },
        Expr::Subscript { object, index } => {
            collect_referenced_names_from_expr(object, referenced);
            collect_referenced_names_from_expr(index, referenced);
        },
        Expr::AttrCall { object, args, .. } => {
            collect_referenced_names_from_expr(object, referenced);
            collect_referenced_names_from_args(args, referenced);
        },
        Expr::IndirectCall { callable, args } => {
            collect_referenced_names_from_expr(callable, referenced);
            collect_referenced_names_from_args(args, referenced);
        },
        Expr::AttrGet { object, .. } => {
            collect_referenced_names_from_expr(object, referenced);
        },
        Expr::IfElse { test, body, orelse } => {
            collect_referenced_names_from_expr(test, referenced);
            collect_referenced_names_from_expr(body, referenced);
            collect_referenced_names_from_expr(orelse, referenced);
        },
        Expr::FString(parts) => {
            collect_referenced_names_from_fstring_parts(parts, referenced);
        },
        Expr::TString(template) => {
            collect_referenced_names_from_interpolations(&template.interpolations, referenced);
        },
        Expr::Slice { lower, upper, step } => {
            if let Some(inner) = lower {
                collect_referenced_names_from_expr(inner, referenced);
            }
            if let Some(inner) = upper {
                collect_referenced_names_from_expr(inner, referenced);
            }
            if let Some(inner) = step {
                collect_referenced_names_from_expr(inner, referenced);
            }
        },
        Expr::Named { value, .. } => {
            collect_referenced_names_from_expr(value, referenced);
        },
        Expr::Call { callable, args } => {
            if let Callable::Name(ident) = callable {
                referenced.insert(ident.name_id);
            }
            collect_referenced_names_from_args(args, referenced);
        },
        Expr::ListComp { elt, generators } | Expr::SetComp { elt, generators } => {
            let mut inner_refs = NameSet::new();
            collect_referenced_names_from_expr(elt, &mut inner_refs);
            collect_referenced_names_from_comprehension(generators, inner_refs, referenced);
        },
        Expr::DictComp { key, value, generators } => {
            let mut inner_refs = NameSet::new();
            collect_referenced_names_from_expr(key, &mut inner_refs);
            collect_referenced_names_from_expr(value, &mut inner_refs);
            collect_referenced_names_from_comprehension(generators, inner_refs, referenced);
        },
        Expr::GeneratorExpRaw(def) => {
            collect_nested_function_references(&def.signature, &def.body, referenced);
            collect_referenced_names_from_expr(&def.iter, referenced);
        },
        Expr::LambdaRaw(def) => {
            let own = lambda_names(def);
            let mut body_refs = NameSet::new();
            collect_referenced_names_from_expr(&def.body, &mut body_refs);
            body_refs.remove_all(&own);
            referenced.add_all(&body_refs);
            collect_referenced_names_from_params(&def.signature.pos_args, referenced);
            collect_referenced_names_from_params(&def.signature.args, referenced);
            collect_referenced_names_from_params(&def.signature.kwargs, referenced);
        },
        Expr::Literal(_) | Expr::Builtin(_) => {
        },
    }
}

/// Adds the names read in the arguments of a call.
pub fn collect_referenced_names_from_args(args: &ArgExprs, referenced: &mut NameSet)
    ensures
        final(referenced)@ == old(referenced)@ + read_in_args(*args),
    decreases *args, 0int,
{
    match args {
        ArgExprs::Empty => {
        },
        ArgExprs::One(arg) => {
            collect_referenced_names_from_expr(arg, referenced);
        },
        ArgExprs::Two(arg1, arg2) => {
            collect_referenced_names_from_expr(arg1, referenced);
            collect_referenced_names_from_expr(arg2, referenced);
        },
        ArgExprs::Args(args) => {
            collect_referenced_names_from_exprs(args, referenced);
        },
        ArgExprs::Kwargs(kwargs) => {
            collect_referenced_names_from_kwargs(kwargs, referenced);
        },
        ArgExprs::GeneralizedCall { args, kwargs } => {
            collect_referenced_names_from_call_args(args, referenced);
            collect_referenced_names_from_call_kwargs(kwargs, referenced);
        },
        ArgExprs::ArgsKargs { args, kwargs, var_args, var_kwargs } => {
            if let Some(inner) = args {
                collect_referenced_names_from_exprs(inner, referenced);
            }
            if let Some(inner) = kwargs {
                collect_referenced_names_from_kwargs(inner, referenced);
            }
            if let Some(inner) = var_args {
                collect_referenced_names_from_expr(inner, referenced);
            }
            if let Some(inner) = var_kwargs {
                collect_referenced_names_from_expr(inner, referenced);
            }
        },
    }
}

/// Adds the names read in a list of expressions.
fn collect_referenced_names_from_exprs(list: &Vec<ExprLoc>, referenced: &mut NameSet)
    ensures
        final(referenced)@ == old(referenced)@ + read_in_exprs(list@),
    decreases list@, 0int,
{
    let ghost start = referenced@;
    let mut i: usize = 0;
    while i < list.len()
        invariant
            i <= list@.len(),
            referenced@ == start + read_in_exprs(list@.take(i as int)),
        decreases list@.len() - i,
    {
        assert(list@.take(i + 1).drop_last() == list@.take(i as int));
        assert(list@.take(i + 1).last() == list@[i as int]);
        collect_referenced_names_from_expr(&list[i], referenced);
        i += 1;
    }
    assert(list@.take(i as int) == list@);
}

/// Adds the names read in the elements of a display.
fn collect_referenced_names_from_items(list: &Vec<SequenceItem>, referenced: &mut NameSet)
    ensures
        final(referenced)@ == old(referenced)@ + read_in_items(list@),
    decreases list@, 0int,
{
    let ghost start = referenced@;
    let mut i: usize = 0;
    while i < list.len()
        invariant
            i <= list@.len(),
            referenced@ == start + read_in_items(list@.take(i as int)),
        decreases list@.len() - i,
    {
        assert(list@.take(i + 1).drop_last() == list@.take(i as int));
        assert(list@.take(i + 1).last() == list@[i as int]);
        match &list[i] {
            SequenceItem::Value(e) | SequenceItem::Unpack(e) => {
                collect_referenced_names_from_expr(e, referenced);
            },
        }
        i += 1;
    }
    assert(list@.take(i as int) == list@);
}

/// Adds the names read in the entries of a dict display.
fn collect_referenced_names_from_dict_items(list: &Vec<DictItem>, referenced: &mut NameSet)
    ensures
        final(referenced)@ == old(referenced)@ + read_in_dict_items(list@),
    decreases list@, 0int,
{
    let ghost start = referenced@;
    let mut i: usize = 0;
    while i < list.len()
        invariant
            i <= list@.len(),
            referenced@ == start + read_in_dict_items(list@.take(i as int)),
        decreases list@.len() - i,
    {
        assert(list@.take(i + 1).drop_last() == list@.take(i as int));
        assert(list@.take(i + 1).last() == list@[i as int]);
        match &list[i] {
            DictItem::Pair(key, value) => {
                collect_referenced_names_from_expr(key, referenced);
                collect_referenced_names_from_expr(value, referenced);
            },
            DictItem::Unpack(e) => {
                collect_referenced_names_from_expr(e, referenced);
            },
        }
        i += 1;
    }
    assert(list@.take(i as int) == list@);
}

/// Adds the names read in the operands of a comparison chain.
fn collect_referenced_names_from_comparisons(list: &Vec<(CmpOperator, ExprLoc)>, referenced: &mut NameSet)
    ensures
        final(referenced)@ == old(referenced)@ + read_in_comparisons(list@),
    decreases list@, 0int,
{
    let ghost start = referenced@;
    let mut i: usize = 0;
    while i < list.len()
        invariant
            i <= list@.len(),
            referenced@ == start + read_in_comparisons(list@.take(i as int)),
        decreases list@.len() - i,
    {
        assert(list@.take(i + 1).drop_last() == list@.take(i as int));
        assert(list@.take(i + 1).last() == list@[i as int]);
        collect_referenced_names_from_expr(&list[i].1, referenced);
        i += 1;
    }
    assert(list@.take(i as int) == list@);
}

/// Adds the names read in keyword arguments.
fn collect_referenced_names_from_kwargs(list: &Vec<Kwarg>, referenced: &mut NameSet)
    ensures
        final(referenced)@ == old(referenced)@ + read_in_kwargs(list@),
    decreases list@, 0int,
{
    let ghost start = referenced@;
    let mut i: usize = 0;
    while i < list.len()
        invariant
            i <= list@.len(),
            referenced@ == start + read_in_kwargs(list@.take(i as int)),
        decreases list@.len() - i,
    {
        assert(list@.take(i + 1).drop_last() == list@.take(i as int));
        assert(list@.take(i + 1).last() == list@[i as int]);
        collect_referenced_names_from_expr(&list[i].value, referenced);
        i += 1;
    }
    assert(list@.take(i as int) == list@);
}

/// Adds the names read in positional arguments.
fn collect_referenced_names_from_call_args(list: &Vec<CallArg>, referenced: &mut NameSet)
    ensures
        final(referenced)@ == old(referenced)@ + read_in_call_args(list@),
    decreases list@, 0int,
{
    let ghost start = referenced@;
    let mut i: usize = 0;
    while i < list.len()
        invariant
            i <= list@.len(),
            referenced@ == start + read_in_call_args(list@.take(i as int)),
        decreases list@.len() - i,
    {
        assert(list@.take(i + 1).drop_last() == list@.take(i as int));
        assert(list@.take(i + 1).last() == list@[i as int]);
        match &list[i] {
            CallArg::Value(e) | CallArg::Unpack(e) => {
                collect_referenced_names_from_expr(e, referenced);
            },
        }
        i += 1;
    }
    assert(list@.take(i as int) == list@);
}

/// Adds the names read in keyword arguments and unpackings.
fn collect_referenced_names_from_call_kwargs(list: &Vec<CallKwarg>, referenced: &mut NameSet)
    ensures
        final(referenced)@ == old(referenced)@ + read_in_call_kwargs(list@),
    decreases list@, 0int,
{
    let ghost start = referenced@;
    let mut i: usize = 0;
    while i < list.len()
        invariant
            i <= list@.len(),
            referenced@ == start + read_in_call_kwargs(list@.take(i as int)),
        decreases list@.len() - i,
    {
        assert(list@.take(i + 1).drop_last() == list@.take(i as int));
        assert(list@.take(i + 1).last() == list@[i as int]);
        match &list[i] {
            CallKwarg::Named(kwarg) => {
                collect_referenced_names_from_expr(&kwarg.value, referenced);
            },
            CallKwarg::Unpack(e) => {
                collect_referenced_names_from_expr(e, referenced);
            },
        }
        i += 1;
    }
    assert(list@.take(i as int) == list@);
}

/// Adds the names read in the parts of a formatted string and in its format specs.
pub fn collect_referenced_names_from_fstring_parts(list: &Vec<FStringPart>, referenced: &mut NameSet)
    ensures
        final(referenced)@ == old(referenced)@ + read_in_fstring_parts(list@),
    decreases list@, 0int,
{
    let ghost start = referenced@;
    let mut i: usize = 0;
    while i < list.len()
        invariant
            i <= list@.len(),
            referenced@ == start + read_in_fstring_parts(list@.take(i as int)),
        decreases list@.len() - i,
    {
        assert(list@.take(i + 1).drop_last() == list@.take(i as int));
        assert(list@.take(i + 1).last() == list@[i as int]);
        if let FStringPart::Interpolation { expr, format_spec, .. } = &list[i] {
            collect_referenced_names_from_expr(expr, referenced);
            if let Some(FormatSpec::Dynamic(parts)) = format_spec {
                collect_referenced_names_from_fstring_parts(parts, referenced);
            }
        }
        i += 1;
    }
    assert(list@.take(i as int) == list@);
}

/// Adds the names read in the fields of a template.
fn collect_referenced_names_from_interpolations(list: &Vec<TemplateInterpolation>, referenced: &mut NameSet)
    ensures
        final(referenced)@ == old(referenced)@ + read_in_interpolations(list@),
    decreases list@, 0int,
{
    let ghost start = referenced@;
    let mut i: usize = 0;
    while i < list.len()
        invariant
            i <= list@.len(),
            referenced@ == start + read_in_interpolations(list@.take(i as int)),
        decreases list@.len() - i,
    {
        assert(list@.take(i + 1).drop_last() == list@.take(i as int));
        assert(list@.take(i + 1).last() == list@[i as int]);
        collect_referenced_names_from_expr(&list[i].expr, referenced);
        collect_referenced_names_from_fstring_parts(&list[i].format_spec, referenced);
        i += 1;
    }
    assert(list@.take(i as int) == list@);
}

/// Adds the names read in a list of binding targets.
fn collect_referenced_names_from_unpack_targets(list: &Vec<UnpackTarget>, referenced: &mut NameSet)
    ensures
        final(referenced)@ == old(referenced)@ + read_in_unpack_targets(list@),
    decreases list@, 0int,
{
    let ghost start = referenced@;
    let mut i: usize = 0;
    while i < list.len()
        invariant
            i <= list@.len(),
            referenced@ == start + read_in_unpack_targets(list@.take(i as int)),
        decreases list@.len() - i,
    {
        assert(list@.take(i + 1).drop_last() == list@.take(i as int));
        assert(list@.take(i + 1).last() == list@[i as int]);
        collect_referenced_names_from_unpack_target(&list[i], referenced);
        i += 1;
    }
    assert(list@.take(i as int) == list@);
}

/// Adds the names read in a binding target.
pub fn collect_referenced_names_from_unpack_target(target: &UnpackTarget, referenced: &mut NameSet)
    ensures
        final(referenced)@ == old(referenced)@ + read_in_unpack_target(*target),
    decreases *target, 0int,
{
    match target {
        UnpackTarget::Name(_) | UnpackTarget::Starred(_) => {
        },
        UnpackTarget::Attr { object, .. } => {
            collect_referenced_names_from_expr(object, referenced);
        },
        UnpackTarget::Subscript { object, index, .. } => {
            collect_referenced_names_from_expr(object, referenced);
            collect_referenced_names_from_expr(index, referenced);
        },
        UnpackTarget::Tuple { targets, .. } => {
            collect_referenced_names_from_unpack_targets(targets, referenced);
        },
    }
}

/// Names that the iterables of all clauses but the first, and the filters of
/// all clauses, read.
pub open spec fn read_in_generators(generators: Generators) -> Set<StringId>
    decreases generators, 0int,
{
    read_in_exprs(generators.first.ifs@) + read_in_clauses(generators.rest@)
}

/// Names that the iterables and filters of a list of clauses read.
pub open spec fn read_in_clauses(list: Seq<Comprehension>) -> Set<StringId>
    decreases list, 0int,
{
    if list.len() == 0 {
        Set::empty()
    } else {
        read_in_clauses(list.drop_last()) + read_in_expr(list.last().iter) + read_in_exprs(list.last().ifs@)
    }
}

/// Names that the targets of a comprehension bind.
pub open spec fn bound_by_generators(generators: Generators) -> Set<StringId> {
    bound_in_unpack_target(generators.first.target) + bound_by_clauses(generators.rest@)
}

/// Names that the targets of a list of clauses bind.
pub open spec fn bound_by_clauses(list: Seq<Comprehension>) -> Set<StringId>
    decreases list.len(),
{
    if list.len() == 0 {
        Set::empty()
    } else {
        bound_by_clauses(list.drop_last()) + bound_in_unpack_target(list.last().target)
    }
}

/// Adds the names that a list of clauses reads to `inner_refs`, and those that
/// its targets bind to `comp_locals`.
fn collect_referenced_names_from_clauses(
    list: &Vec<Comprehension>,
    inner_refs: &mut NameSet,
    comp_locals: &mut NameSet,
)
    ensures
        final(inner_refs)@ == old(inner_refs)@ + read_in_clauses(list@),
        final(comp_locals)@ == old(comp_locals)@ + bound_by_clauses(list@),
    decreases list@, 0int,
{
    let ghost start = inner_refs@;
    let ghost bound = comp_locals@;
    let mut i: usize = 0;
    while i < list.len()
        invariant
            i <= list@.len(),
            inner_refs@ == start + read_in_clauses(list@.take(i as int)),
            comp_locals@ == bound + bound_by_clauses(list@.take(i as int)),
        decreases list@.len() - i,
    {
        assert(list@.take(i + 1).drop_last() == list@.take(i as int));
        assert(list@.take(i + 1).last() == list@[i as int]);
        collect_referenced_names_from_expr(&list[i].iter, inner_refs);
        collect_assigned_names_from_unpack_target(&list[i].target, comp_locals);
        collect_referenced_names_from_exprs(&list[i].ifs, inner_refs);
        i += 1;
    }
    assert(list@.take(i as int) == list@);
}

/// Adds the names that a comprehension reads: those of the first iterable,
/// which the enclosing scope evaluates, and those of everything else that no
/// target of the comprehension binds. `inner_refs` holds what its element
/// reads.
pub fn collect_referenced_names_from_comprehension(
    generators: &Generators,
    mut inner_refs: NameSet,
    referenced: &mut NameSet,
)
    ensures
        final(referenced)@ == old(referenced)@ + (read_in_expr(generators.first.iter) + (read_in_generators(*generators)
            + inner_refs@).difference(bound_by_generators(*generators))),
    decreases *generators, 0int,
{
    let mut comp_locals = NameSet::new();
    collect_referenced_names_from_expr(&generators.first.iter, referenced);
    collect_assigned_names_from_unpack_target(&generators.first.target, &mut comp_locals);
    collect_referenced_names_from_exprs(&generators.first.ifs, &mut inner_refs);
    collect_referenced_names_from_clauses(&generators.rest, &mut inner_refs, &mut comp_locals);
    inner_refs.remove_all(&comp_locals);
    referenced.add_all(&inner_refs);
}

/// Names that a lambda binds for itself: its parameters, and what assignment
/// expressions in its body bind.
pub open spec fn own_in_lambda(def: LambdaDef) -> Set<StringId> {
    param_names(def.signature).to_set() + bound_in_expr(def.body)
}

/// The names that a lambda binds for itself.
fn lambda_names(def: &LambdaDef) -> (own: NameSet)
    ensures
        own@ == own_in_lambda(*def),
{
    let mut own = param_set(&def.signature);
    collect_assigned_names_from_expr(&def.body, &mut own);
    own
}

/// Names that the default values of a list of parameters read.
pub open spec fn read_in_params(list: Seq<ParsedParam>) -> Set<StringId>
    decreases list, 0int,
{
    if list.len() == 0 {
        Set::empty()
    } else {
        read_in_params(list.drop_last()) + (match list.last().default {
            Some(inner) => read_in_expr(inner),
            None => Set::empty(),
        })
    }
}

/// Adds the names that the default values of a list of parameters read.
fn collect_referenced_names_from_params(list: &Vec<ParsedParam>, referenced: &mut NameSet)
    ensures
        final(referenced)@ == old(referenced)@ + read_in_params(list@),
    decreases list@, 0int,
{
    let ghost start = referenced@;
    let mut i: usize = 0;
    while i < list.len()
        invariant
            i <= list@.len(),
            referenced@ == start + read_in_params(list@.take(i as int)),
        decreases list@.len() - i,
    {
        assert(list@.take(i + 1).drop_last() == list@.take(i as int));
        assert(list@.take(i + 1).last() == list@[i as int]);
        if let Some(default) = &list[i].default {
            collect_referenced_names_from_expr(default, referenced);
        }
        i += 1;
    }
    assert(list@.take(i as int) == list@);
}

/// Names that a statement and its descendants read, other than those that a
/// nested scope binds for itself. The default values of a nested function are
/// read here, whatever the function binds.
pub open spec fn read_in_node(node: Node) -> Set<StringId>
    decreases node, 0int,
{
    match node {
        Node::For { target, iter, body, or_else, .. } => read_in_unpack_target(target) + read_in_expr(iter) + read_in_nodes(body@) + read_in_nodes(or_else@),
        Node::While { test, body, or_else } | Node::If { test, body, or_else } => read_in_expr(test) + read_in_nodes(body@) + read_in_nodes(or_else@),
        Node::Expr(expr) | Node::Return(Some(expr)) => read_in_expr(expr),
        Node::SubscriptOpAssign { target, index, value, .. } | Node::SubscriptAssign { target, index, value, .. } => read_in_expr(target) + read_in_expr(index) + read_in_expr(value),
        Node::AttrOpAssign { object, value, .. } | Node::AttrAssign { object, value, .. } => read_in_expr(object) + read_in_expr(value),
        Node::UnpackAssign { targets, object, .. } | Node::ChainAssign { targets, object } => read_in_unpack_targets(targets@) + read_in_expr(object),
        Node::Delete(targets) => read_in_delete_targets(targets@),
        Node::Raise { exc, cause } => (match exc {
            Some(inner) => read_in_expr(inner),
            None => Set::empty(),
        }) + (match cause {
            Some(inner) => read_in_expr(inner),
            None => Set::empty(),
        }),
        Node::Assert { test, msg } => read_in_expr(test) + (match msg {
            Some(inner) => read_in_expr(inner),
            None => Set::empty(),
        }),
        Node::Assign { object, .. } => read_in_expr(object),
        Node::OpAssign { target, value, .. } => set![target.name_id] + read_in_expr(value),
        Node::With { context, target, body, .. } => read_in_expr(context) + (match target {
            Some(inner) => read_in_unpack_target(inner),
            None => Set::empty(),
        }) + read_in_nodes(body@),
        Node::Return(None) => Set::empty(),
        Node::FunctionDef { def, decorators } => read_by_function(def.signature, def.body@) + read_in_params(def.signature.pos_args@) + read_in_params(def.signature.args@) + read_in_params(def.signature.kwargs@) + read_in_exprs(decorators@),
        Node::ClassDef(def) => read_in_exprs(def.bases@) + read_in_exprs(def.decorators@),
        Node::TypeAlias { value, .. } => read_by_function(value.signature, value.body@) + read_in_params(value.signature.pos_args@) + read_in_params(value.signature.args@) + read_in_params(value.signature.kwargs@),
        Node::Try(block) => read_in_nodes(block.body@) + read_in_handlers(block.handlers@) + read_in_nodes(
            block.or_else@,
        ) + read_in_nodes(block.finally@),
        Node::Import { .. } | Node::ImportFrom { .. } => Set::empty(),
        Node::Pass | Node::Global { .. } | Node::Nonlocal { .. } | Node::Break { .. } | Node::Continue { .. } => Set::empty(),
    }
}

/// The names read in a list of statements.
pub open spec fn read_in_nodes(list: Seq<Node>) -> Set<StringId>
    decreases list, 0int,
{
    if list.len() == 0 {
        Set::empty()
    } else {
        read_in_nodes(list.drop_last()) + read_in_node(list.last())
    }
}

/// The names read in the handlers of a `try` statement.
pub open spec fn read_in_handlers(list: Seq<ExceptHandler>) -> Set<StringId>
    decreases list, 0int,
{
    if list.len() == 0 {
        Set::empty()
    } else {
        read_in_handlers(list.drop_last()) + (match list.last().exc_type {
            Some(inner) => read_in_expr(inner),
            None => Set::empty(),
        }) + read_in_nodes(list.last().body@)
    }
}

/// The names read in the targets of `del`.
pub open spec fn read_in_delete_targets(list: Seq<DeleteTarget>) -> Set<StringId>
    decreases list, 0int,
{
    if list.len() == 0 {
        Set::empty()
    } else {
        read_in_delete_targets(list.drop_last()) + (match list.last() {
            DeleteTarget::Name(_) => Set::empty(),
            DeleteTarget::Attr { object, .. } => read_in_expr(object),
            DeleteTarget::Subscript { object, index, .. } => read_in_expr(object) + read_in_expr(index),
        })
    }
}

/// Adds the names that a statement and its descendants read, other than those that a
/// nested scope binds for itself.
pub fn collect_referenced_names_from_node(node: &Node, referenced: &mut NameSet)
    ensures
        final(referenced)@ == old(referenced)@ + read_in_node(*node),
    decreases *node, 0int,
{
    match node {
        Node::For { target, iter, body, or_else, .. } => {
            collect_referenced_names_from_unpack_target(target, referenced);
            collect_referenced_names_from_expr(iter, referenced);
            collect_referenced_names_from_nodes(body, referenced);
            collect_referenced_names_from_nodes(or_else, referenced);
        },
        Node::While { test, body, or_else } | Node::If { test, body, or_else } => {
            collect_referenced_names_from_expr(test, referenced);
            collect_referenced_names_from_nodes(body, referenced);
            collect_referenced_names_from_nodes(or_else, referenced);
        },
        Node::Expr(expr) | Node::Return(Some(expr)) => {
            collect_referenced_names_from_expr(expr, referenced);
        },
        Node::SubscriptOpAssign { target, index, value, .. } | Node::SubscriptAssign { target, index, value, .. } => {
            collect_referenced_names_from_expr(target, referenced);
            collect_referenced_names_from_expr(index, referenced);
            collect_referenced_names_from_expr(value, referenced);
        },
        Node::AttrOpAssign { object, value, .. } | Node::AttrAssign { object, value, .. } => {
            collect_referenced_names_from_expr(object, referenced);
            collect_referenced_names_from_expr(value, referenced);
        },
        Node::UnpackAssign { targets, object, .. } | Node::ChainAssign { targets, object } => {
            collect_referenced_names_from_unpack_targets(targets, referenced);
            collect_referenced_names_from_expr(object, referenced);
        },
        Node::Delete(targets) => {
            collect_referenced_names_from_delete_targets(targets, referenced);
        },
        Node::Raise { exc, cause } => {
            if let Some(inner) = exc {
                collect_referenced_names_from_expr(inner, referenced);
            }
            if let Some(inner) = cause {
                collect_referenced_names_from_expr(inner, referenced);
            }
        },
        Node::Assert { test, msg } => {
            collect_referenced_names_from_expr(test, referenced);
            if let Some(inner) = msg {
                collect_referenced_names_from_expr(inner, referenced);
            }
        },
        Node::Assign { object, .. } => {
            collect_referenced_names_from_expr(object, referenced);
        },
        Node::OpAssign { target, value, .. } => {
            referenced.insert(target.name_id);
            collect_referenced_names_from_expr(value, referenced);
        },
        Node::With { context, target, body, .. } => {
            collect_referenced_names_from_expr(context, referenced);
            if let Some(inner) = target {
                collect_referenced_names_from_unpack_target(inner, referenced);
            }
            collect_referenced_names_from_nodes(body, referenced);
        },
        Node::Return(None) => {
        },
        Node::FunctionDef { def, decorators } => {
            collect_nested_function_references(&def.signature, &def.body, referenced);
            collect_referenced_names_from_params(&def.signature.pos_args, referenced);
            collect_referenced_names_from_params(&def.signature.args, referenced);
            collect_referenced_names_from_params(&def.signature.kwargs, referenced);
            collect_referenced_names_from_exprs(decorators, referenced);
        },
        Node::ClassDef(def) => {
            collect_referenced_names_from_exprs(&def.bases, referenced);
            collect_referenced_names_from_exprs(&def.decorators, referenced);
        },
        Node::TypeAlias { value, .. } => {
            collect_nested_function_references(&value.signature, &value.body, referenced);
            collect_referenced_names_from_params(&value.signature.pos_args, referenced);
            collect_referenced_names_from_params(&value.signature.args, referenced);
            collect_referenced_names_from_params(&value.signature.kwargs, referenced);
        },
        Node::Try(block) => {
            collect_referenced_names_from_nodes(&block.body, referenced);
            collect_referenced_names_from_handlers(&block.handlers, referenced);
            collect_referenced_names_from_nodes(&block.or_else, referenced);
            collect_referenced_names_from_nodes(&block.finally, referenced);
        },
        Node::Import { .. } | Node::ImportFrom { .. } => {
        },
        Node::Pass | Node::Global { .. } | Node::Nonlocal { .. } | Node::Break { .. } | Node::Continue { .. } => {
        },
    }
}

/// Adds the names read in a list of statements.
fn collect_referenced_names_from_nodes(list: &Vec<Node>, referenced: &mut NameSet)
    ensures
        final(referenced)@ == old(referenced)@ + read_in_nodes(list@),
    decreases list@, 0int,
{
    let ghost start = referenced@;
    let mut i: usize = 0;
    while i < list.len()
        invariant
            i <= list@.len(),
            referenced@ == start + read_in_nodes(list@.take(i as int)),
        decreases list@.len() - i,
    {
        assert(list@.take(i + 1).drop_last() == list@.take(i as int));
        assert(list@.take(i + 1).last() == list@[i as int]);
        collect_referenced_names_from_node(&list[i], referenced);
        i += 1;
    }
    assert(list@.take(i as int) == list@);
}

/// Adds the names read in the handlers of a `try` statement.
fn collect_referenced_names_from_handlers(list: &Vec<ExceptHandler>, referenced: &mut NameSet)
    ensures
        final(referenced)@ == old(referenced)@ + read_in_handlers(list@),
    decreases list@, 0int,
{
    let ghost start = referenced@;
    let mut i: usize = 0;
    while i < list.len()
        invariant
            i <= list@.len(),
            referenced@ == start + read_in_handlers(list@.take(i as int)),
        decreases list@.len() - i,
    {
        assert(list@.take(i + 1).drop_last() == list@.take(i as int));
        assert(list@.take(i + 1).last() == list@[i as int]);
        if let Some(exc_type) = &list[i].exc_type {
            collect_referenced_names_from_expr(exc_type, referenced);
        }
        collect_referenced_names_from_nodes(&list[i].body, referenced);
        i += 1;
    }
    assert(list@.take(i as int) == list@);
}

/// Adds the names read in the targets of `del`.
fn collect_referenced_names_from_delete_targets(list: &Vec<DeleteTarget>, referenced: &mut NameSet)
    ensures
        final(referenced)@ == old(referenced)@ + read_in_delete_targets(list@),
    decreases list@, 0int,
{
    let ghost start = referenced@;
    let mut i: usize = 0;
    while i < list.len()
        invariant
            i <= list@.len(),
            referenced@ == start + read_in_delete_targets(list@.take(i as int)),
        decreases list@.len() - i,
    {
        assert(list@.take(i + 1).drop_last() == list@.take(i as int));
        assert(list@.take(i + 1).last() == list@[i as int]);
        match &list[i] {
            DeleteTarget::Name(_) => {
            },
            DeleteTarget::Attr { object, .. } => {
                collect_referenced_names_from_expr(object, referenced);
            },
            DeleteTarget::Subscript { object, index, .. } => {
                collect_referenced_names_from_expr(object, referenced);
                collect_referenced_names_from_expr(index, referenced);
            },
        }
        i += 1;
    }
    assert(list@.take(i as int) == list@);
}

/// Names that a nested function reads and does not bind for itself: neither
/// as a parameter, nor in its body, nor by declaring them global.
pub open spec fn read_by_function(signature: ParsedSignature, body: Seq<Node>) -> Set<StringId>
    decreases body, 1int,
{
    read_in_nodes(body).difference(param_names(signature).to_set()).difference(bound_in_nodes(body)).difference(
        declared_in_nodes(body, Declaration::Global),
    )
}

/// Adds the names that a nested function reads and does not bind for itself.
///
/// The names of functions nested deeper come along, so a scope that only
/// passes a variable on to a deeper function still sees it.
pub fn collect_nested_function_references(signature: &ParsedSignature, body: &Vec<Node>, referenced: &mut NameSet)
    ensures
        final(referenced)@ == old(referenced)@ + read_by_function(*signature, body@),
    decreases body@, 1int,
{
    let mut nested_referenced = NameSet::new();
    collect_referenced_names_from_nodes(body, &mut nested_referenced);
    let mut nested_global = NameSet::new();
    let mut nested_nonlocal = NameSet::new();
    let mut nested_assigned = NameSet::new();
    collect_scope_info_from_nodes(body, &mut nested_global, &mut nested_nonlocal, &mut nested_assigned);
    let nested_params = param_set(signature);
    nested_referenced.remove_all(&nested_params);
    nested_referenced.remove_all(&nested_assigned);
    nested_referenced.remove_all(&nested_global);
    referenced.add_all(&nested_referenced);
}

/// Names that the default values of a signature read.
pub open spec fn read_in_defaults(signature: ParsedSignature) -> Set<StringId> {
    read_in_params(signature.pos_args@) + read_in_params(signature.args@) + read_in_params(signature.kwargs@)
}

/// The names that the default values of a signature read.
fn default_references(signature: &ParsedSignature) -> (names: NameSet)
    ensures
        names@ == read_in_defaults(*signature),
{
    let mut names = NameSet::new();
    collect_referenced_names_from_params(&signature.pos_args, &mut names);
    collect_referenced_names_from_params(&signature.args, &mut names);
    collect_referenced_names_from_params(&signature.kwargs, &mut names);
    assert(names@ =~= read_in_defaults(*signature));
    names
}

/// Names among `locals` that a nested function captures: what its default
/// values read, what its body reads and it does not bind for itself, what it
/// declares nonlocal, and what functions nested deeper capture of the names
/// that it does not rebind.
pub open spec fn captured_by_function(
    signature: ParsedSignature,
    body: Seq<Node>,
    locals: Set<StringId>,
) -> Set<StringId>
    decreases body, 1int,
{
    let own = param_names(signature).to_set() + bound_in_nodes(body) + declared_in_nodes(body, Declaration::Global);
    let deeper = locals.difference(own);
    read_in_defaults(signature).intersect(locals) + read_in_nodes(body).difference(own).intersect(locals)
        + declared_in_nodes(body, Declaration::Nonlocal).intersect(locals) + (if deeper == Set::<StringId>::empty() {
        Set::empty()
    } else {
        captured_in_nodes(body, deeper)
    })
}

/// Names among `locals` that scopes nested in an expression capture.
pub open spec fn captured_in_expr(e: ExprLoc, locals: Set<StringId>) -> Set<StringId>
    decreases e, 0int,
{
    match e.expr {
        Expr::List(items) | Expr::Tuple(items) | Expr::SetDisplay(items) => captured_in_items(items@, locals),
        Expr::Dict(items) => captured_in_dict_items(items@, locals),
        Expr::Op { left, right, .. } | Expr::CmpOp { left, right, .. } => captured_in_expr(*left, locals) + captured_in_expr(*right, locals),
        Expr::ChainCmp { left, comparisons } => captured_in_expr(*left, locals) + captured_in_comparisons(comparisons@, locals),
        Expr::Not(operand) | Expr::UnaryMinus(operand) | Expr::UnaryPlus(operand) | Expr::UnaryInvert(operand) | Expr::Await(operand) | Expr::YieldFrom(operand) => captured_in_expr(*operand, locals),
        Expr::Yield(value) => (match value {
            Some(inner) => captured_in_expr(*inner, locals),
            None => Set::empty(),
        }),
        Expr::Subscript { object, index } => captured_in_expr(*object, locals) + captured_in_expr(*index, locals),
        Expr::AttrCall { object, args, .. } => captured_in_expr(*object, locals) + captured_in_args(*args, locals),
        Expr::IndirectCall { callable, args } => captured_in_expr(*callable, locals) + captured_in_args(*args, locals),
        Expr::AttrGet { object, .. } => captured_in_expr(*object, locals),
        Expr::IfElse { test, body, orelse } => captured_in_expr(*test, locals) + captured_in_expr(*body, locals) + captured_in_expr(*orelse, locals),
        Expr::FString(parts) => captured_in_fstring_parts(parts@, locals),
        Expr::TString(template) => captured_in_interpolations(template.interpolations@, locals),
        Expr::ListComp { elt, generators } | Expr::SetComp { elt, generators } => captured_in_expr(
            *elt,
            locals.difference(bound_by_generators(*generators)),
        ) + captured_in_generators(*generators, locals),
        Expr::DictComp { key, value, generators } => captured_in_expr(
            *key,
            locals.difference(bound_by_generators(*generators)),
        ) + captured_in_expr(*value, locals.difference(bound_by_generators(*generators))) + captured_in_generators(
            *generators,
            locals,
        ),
        Expr::Call { args, .. } => captured_in_args(*args, locals),
        Expr::Named { value, .. } => captured_in_expr(*value, locals),
        Expr::GeneratorExpRaw(def) => captured_by_function(def.signature, def.body@, locals) + captured_in_expr(
            def.iter,
            locals,
        ),
        Expr::LambdaRaw(def) => {
            let own = own_in_lambda(*def);
            read_in_defaults(def.signature).intersect(locals) + read_in_expr(def.body).difference(own).intersect(
                locals,
            ) + captured_in_expr(def.body, locals.difference(own))
        },
        Expr::Slice { lower, upper, step } => (match lower {
            Some(inner) => captured_in_expr(*inner, locals),
            None => Set::empty(),
        }) + (match upper {
            Some(inner) => captured_in_expr(*inner, locals),
            None => Set::empty(),
        }) + (match step {
            Some(inner) => captured_in_expr(*inner, locals),
            None => Set::empty(),
        }),
        Expr::Literal(_) | Expr::Builtin(_) | Expr::Name(_) => Set::empty(),
    }
}

/// The names captured in the arguments of a call.
pub open spec fn captured_in_args(args: ArgExprs, locals: Set<StringId>) -> Set<StringId>
    decreases args, 0int,
{
    match args {
        ArgExprs::Empty => Set::empty(),
        ArgExprs::One(arg) => captured_in_expr(arg, locals),
        ArgExprs::Two(arg1, arg2) => captured_in_expr(arg1, locals) + captured_in_expr(arg2, locals),
        ArgExprs::Args(args) => captured_in_exprs(args@, locals),
        ArgExprs::Kwargs(kwargs) => captured_in_kwargs(kwargs@, locals),
        ArgExprs::GeneralizedCall { args, kwargs } => captured_in_call_args(args@, locals) + captured_in_call_kwargs(kwargs@, locals),
        ArgExprs::ArgsKargs { args, kwargs, var_args, var_kwargs } => (match args {
            Some(list) => captured_in_exprs(list@, locals),
            None => Set::empty(),
        }) + (match kwargs {
            Some(list) => captured_in_kwargs(list@, locals),
            None => Set::empty(),
        }) + (match var_args {
            Some(inner) => captured_in_expr(inner, locals),
            None => Set::empty(),
        }) + (match var_kwargs {
            Some(inner) => captured_in_expr(inner, locals),
            None => Set::empty(),
        }),
    }
}

/// The names captured in a list of expressions.
pub open spec fn captured_in_exprs(list: Seq<ExprLoc>, locals: Set<StringId>) -> Set<StringId>
    decreases list, 0int,
{
    if list.len() == 0 {
        Set::empty()
    } else {
        captured_in_exprs(list.drop_last(), locals) + captured_in_expr(list.last(), locals)
    }
}

/// The names captured in the elements of a display.
pub open spec fn captured_in_items(list: Seq<SequenceItem>, locals: Set<StringId>) -> Set<StringId>
    decreases list, 0int,
{
    if list.len() == 0 {
        Set::empty()
    } else {
        captured_in_items(list.drop_last(), locals) + (match list.last() {
            SequenceItem::Value(e) | SequenceItem::Unpack(e) => captured_in_expr(e, locals),
        })
    }
}

/// The names captured in the entries of a dict display.
pub open spec fn captured_in_dict_items(list: Seq<DictItem>, locals: Set<StringId>) -> Set<StringId>
    decreases list, 0int,
{
    if list.len() == 0 {
        Set::empty()
    } else {
        captured_in_dict_items(list.drop_last(), locals) + (match list.last() {
            DictItem::Pair(key, value) => captured_in_expr(key, locals) + captured_in_expr(value, locals),
            DictItem::Unpack(e) => captured_in_expr(e, locals),
        })
    }
}

/// The names captured in the operands of a comparison chain.
pub open spec fn captured_in_comparisons(list: Seq<(CmpOperator, ExprLoc)>, locals: Set<StringId>) -> Set<StringId>
    decreases list, 0int,
{
    if list.len() == 0 {
        Set::empty()
    } else {
        captured_in_comparisons(list.drop_last(), locals) + captured_in_expr(list.last().1, locals)
    }
}

/// The names captured in keyword arguments.
pub open spec fn captured_in_kwargs(list: Seq<Kwarg>, locals: Set<StringId>) -> Set<StringId>
    decreases list, 0int,
{
    if list.len() == 0 {
        Set::empty()
    } else {
        captured_in_kwargs(list.drop_last(), locals) + captured_in_expr(list.last().value, locals)
    }
}

/// The names captured in positional arguments.
pub open spec fn captured_in_call_args(list: Seq<CallArg>, locals: Set<StringId>) -> Set<StringId>
    decreases list, 0int,
{
    if list.len() == 0 {
        Set::empty()
    } else {
        captured_in_call_args(list.drop_last(), locals) + (match list.last() {
            CallArg::Value(e) | CallArg::Unpack(e) => captured_in_expr(e, locals),
        })
    }
}

/// The names captured in keyword arguments and unpackings.
pub open spec fn captured_in_call_kwargs(list: Seq<CallKwarg>, locals: Set<StringId>) -> Set<StringId>
    decreases list, 0int,
{
    if list.len() == 0 {
        Set::empty()
    } else {
        captured_in_call_kwargs(list.drop_last(), locals) + (match list.last() {
            CallKwarg::Named(kwarg) => captured_in_expr(kwarg.value, locals),
            CallKwarg::Unpack(e) => captured_in_expr(e, locals),
        })
    }
}

/// The names captured in the parts of a formatted string and in its format specs.
pub open spec fn captured_in_fstring_parts(list: Seq<FStringPart>, locals: Set<StringId>) -> Set<StringId>
    decreases list, 0int,
{
    if list.len() == 0 {
        Set::empty()
    } else {
        captured_in_fstring_parts(list.drop_last(), locals) + (match list.last() {
            FStringPart::Interpolation { expr, format_spec: Some(FormatSpec::Dynamic(parts)), .. } => captured_in_expr(*expr, locals) + captured_in_fstring_parts(parts@, locals),
            FStringPart::Interpolation { expr, .. } => captured_in_expr(*expr, locals),
            FStringPart::Literal(_) => Set::empty(),
        })
    }
}

/// The names captured in the fields of a template.
pub open spec fn captured_in_interpolations(list: Seq<TemplateInterpolation>, locals: Set<StringId>) -> Set<StringId>
    decreases list, 0int,
{
    if list.len() == 0 {
        Set::empty()
    } else {
        captured_in_interpolations(list.drop_last(), locals) + (captured_in_expr(*list.last().expr, locals) + captured_in_fstring_parts(list.last().format_spec@, locals))
    }
}

/// The names captured in the clauses of a comprehension.
pub open spec fn captured_in_clauses(list: Seq<Comprehension>, locals: Set<StringId>) -> Set<StringId>
    decreases list, 0int,
{
    if list.len() == 0 {
        Set::empty()
    } else {
        captured_in_clauses(list.drop_last(), locals) + (captured_in_expr(list.last().iter, locals) + captured_in_exprs(list.last().ifs@, locals))
    }
}

/// The names captured in a list of binding targets.
pub open spec fn captured_in_unpack_targets(list: Seq<UnpackTarget>, locals: Set<StringId>) -> Set<StringId>
    decreases list, 0int,
{
    if list.len() == 0 {
        Set::empty()
    } else {
        captured_in_unpack_targets(list.drop_last(), locals) + captured_in_unpack_target(list.last(), locals)
    }
}

/// The names captured in the iterables and filters of a comprehension.
pub open spec fn captured_in_generators(generators: Generators, locals: Set<StringId>) -> Set<StringId>
    decreases generators, 0int,
{
    let inner = locals.difference(bound_by_generators(generators));
    captured_in_expr(generators.first.iter, locals) + captured_in_exprs(generators.first.ifs@, inner) + captured_in_clauses(generators.rest@, inner)
}

/// The names captured in a binding target.
pub open spec fn captured_in_unpack_target(target: UnpackTarget, locals: Set<StringId>) -> Set<StringId>
    decreases target, 0int,
{
    match target {
        UnpackTarget::Name(_) | UnpackTarget::Starred(_) => Set::empty(),
        UnpackTarget::Attr { object, .. } => captured_in_expr(object, locals),
        UnpackTarget::Subscript { object, index, .. } => captured_in_expr(object, locals) + captured_in_expr(index, locals),
        UnpackTarget::Tuple { targets, .. } => captured_in_unpack_targets(targets@, locals),
    }
}

/// Adds the names among `locals` that scopes nested in an expression capture.
pub fn collect_cell_vars_from_expr(e: &ExprLoc, our_locals: &NameSet, cell_vars: &mut NameSet)
    ensures
        final(cell_vars)@ == old(cell_vars)@ + captured_in_expr(*e, our_locals@),
        final(cell_vars)@.subset_of(old(cell_vars)@ + our_locals@),
    decreases *e, 0int,
{
    match &e.expr {
        Expr::List(items) | Expr::Tuple(items) | Expr::SetDisplay(items) => {
            collect_cell_vars_from_items(items, our_locals, cell_vars);
        },
        Expr::Dict(items) => {
            collect_cell_vars_from_dict_items(items, our_locals, cell_vars);
        },
        Expr::Op { left, right, .. } | Expr::CmpOp { left, right, .. } => {
            collect_cell_vars_from_expr(left, our_locals, cell_vars);
            collect_cell_vars_from_expr(right, our_locals, cell_vars);
        },
        Expr::ChainCmp { left, comparisons } => {
            collect_cell_vars_from_expr(left, our_locals, cell_vars);
            collect_cell_vars_from_comparisons(comparisons, our_locals, cell_vars);
        },
        Expr::Not(operand) | Expr::UnaryMinus(operand) | Expr::UnaryPlus(operand) | Expr::UnaryInvert(operand) | Expr::Await(operand) | Expr::YieldFrom(operand) => {
            collect_cell_vars_from_expr(operand, our_locals, cell_vars);
        },
        Expr::Yield(value) => {
            if let Some(inner) = value {
                collect_cell_vars_from_expr(inner, our_locals, cell_vars);
            }
        },
        Expr::Subscript { object, index } => {
            collect_cell_vars_from_expr(object, our_locals, cell_vars);
            collect_cell_vars_from_expr(index, our_locals, cell_vars);
        },
        Expr::AttrCall { object, args, .. } => {
            collect_cell_vars_from_expr(object, our_locals, cell_vars);
            collect_cell_vars_from_args(args, our_locals, cell_vars);
        },
        Expr::IndirectCall { callable, args } => {
            collect_cell_vars_from_expr(callable, our_locals, cell_vars);
            collect_cell_vars_from_args(args, our_locals, cell_vars);
        },
        Expr::AttrGet { object, .. } => {
            collect_cell_vars_from_expr(object, our_locals, cell_vars);
        },
        Expr::IfElse { test, body, orelse } => {
            collect_cell_vars_from_expr(test, our_locals, cell_vars);
            collect_cell_vars_from_expr(body, our_locals, cell_vars);
            collect_cell_vars_from_expr(orelse, our_locals, cell_vars);
        },
        Expr::FString(parts) => {
            collect_cell_vars_from_fstring_parts(parts, our_locals, cell_vars);
        },
        Expr::TString(template) => {
            collect_cell_vars_from_interpolations(&template.interpolations, our_locals, cell_vars);
        },
        Expr::ListComp { elt, generators } | Expr::SetComp { elt, generators } => {
            let inner_locals = outside_comprehension(generators, our_locals);
            collect_cell_vars_from_expr(elt, &inner_locals, cell_vars);
            collect_cell_vars_from_generators(generators, our_locals, cell_vars);
        },
        Expr::DictComp { key, value, generators } => {
            let inner_locals = outside_comprehension(generators, our_locals);
            collect_cell_vars_from_expr(key, &inner_locals, cell_vars);
            collect_cell_vars_from_expr(value, &inner_locals, cell_vars);
            collect_cell_vars_from_generators(generators, our_locals, cell_vars);
        },
        Expr::Call { args, .. } => {
            collect_cell_vars_from_args(args, our_locals, cell_vars);
        },
        Expr::Named { value, .. } => {
            collect_cell_vars_from_expr(value, our_locals, cell_vars);
        },
        Expr::GeneratorExpRaw(def) => {
            collect_cell_vars_from_function(&def.signature, &def.body, our_locals, cell_vars);
            collect_cell_vars_from_expr(&def.iter, our_locals, cell_vars);
        },
        Expr::LambdaRaw(def) => {
            collect_cell_vars_from_lambda(def, our_locals, cell_vars);
        },
        Expr::Slice { lower, upper, step } => {
            if let Some(inner) = lower {
                collect_cell_vars_from_expr(inner, our_locals, cell_vars);
            }
            if let Some(inner) = upper {
                collect_cell_vars_from_expr(inner, our_locals, cell_vars);
            }
            if let Some(inner) = step {
                collect_cell_vars_from_expr(inner, our_locals, cell_vars);
            }
        },
        Expr::Literal(_) | Expr::Builtin(_) | Expr::Name(_) => {
        },
    }
}

/// Adds the names captured in the arguments of a call.
pub fn collect_cell_vars_from_args(args: &ArgExprs, our_locals: &NameSet, cell_vars: &mut NameSet)
    ensures
        final(cell_vars)@ == old(cell_vars)@ + captured_in_args(*args, our_locals@),
        final(cell_vars)@.subset_of(old(cell_vars)@ + our_locals@),
    decreases *args, 0int,
{
    match args {
        ArgExprs::Empty => {
        },
        ArgExprs::One(arg) => {
            collect_cell_vars_from_expr(arg, our_locals, cell_vars);
        },
        ArgExprs::Two(arg1, arg2) => {
            collect_cell_vars_from_expr(arg1, our_locals, cell_vars);
            collect_cell_vars_from_expr(arg2, our_locals, cell_vars);
        },
        ArgExprs::Args(args) => {
            collect_cell_vars_from_exprs(args, our_locals, cell_vars);
        },
        ArgExprs::Kwargs(kwargs) => {
            collect_cell_vars_from_kwargs(kwargs, our_locals, cell_vars);
        },
        ArgExprs::GeneralizedCall { args, kwargs } => {
            collect_cell_vars_from_call_args(args, our_locals, cell_vars);
            collect_cell_vars_from_call_kwargs(kwargs, our_locals, cell_vars);
        },
        ArgExprs::ArgsKargs { args, kwargs, var_args, var_kwargs } => {
            if let Some(inner) = args {
                collect_cell_vars_from_exprs(inner, our_locals, cell_vars);
            }
            if let Some(inner) = kwargs {
                collect_cell_vars_from_kwargs(inner, our_locals, cell_vars);
            }
            if let Some(inner) = var_args {
                collect_cell_vars_from_expr(inner, our_locals, cell_vars);
            }
            if let Some(inner) = var_kwargs {
                collect_cell_vars_from_expr(inner, our_locals, cell_vars);
            }
        },
    }
}

/// Adds the names captured in a list of expressions.
fn collect_cell_vars_from_exprs(list: &Vec<ExprLoc>, our_locals: &NameSet, cell_vars: &mut NameSet)
    ensures
        final(cell_vars)@ == old(cell_vars)@ + captured_in_exprs(list@, our_locals@),
        final(cell_vars)@.subset_of(old(cell_vars)@ + our_locals@),
    decreases list@, 0int,
{
    let ghost start = cell_vars@;
    let mut i: usize = 0;
    while i < list.len()
        invariant
            i <= list@.len(),
            cell_vars@ == start + captured_in_exprs(list@.take(i as int), our_locals@),
            cell_vars@.subset_of(start + our_locals@),
        decreases list@.len() - i,
    {
        assert(list@.take(i + 1).drop_last() == list@.take(i as int));
        assert(list@.take(i + 1).last() == list@[i as int]);
        collect_cell_vars_from_expr(&list[i], our_locals, cell_vars);
        i += 1;
    }
    assert(list@.take(i as int) == list@);
}

/// Adds the names captured in the elements of a display.
fn collect_cell_vars_from_items(list: &Vec<SequenceItem>, our_locals: &NameSet, cell_vars: &mut NameSet)
    ensures
        final(cell_vars)@ == old(cell_vars)@ + captured_in_items(list@, our_locals@),
        final(cell_vars)@.subset_of(old(cell_vars)@ + our_locals@),
    decreases list@, 0int,
{
    let ghost start = cell_vars@;
    let mut i: usize = 0;
    while i < list.len()
        invariant
            i <= list@.len(),
            cell_vars@ == start + captured_in_items(list@.take(i as int), our_locals@),
            cell_vars@.subset_of(start + our_locals@),
        decreases list@.len() - i,
    {
        assert(list@.take(i + 1).drop_last() == list@.take(i as int));
        assert(list@.take(i + 1).last() == list@[i as int]);
        match &list[i] {
            SequenceItem::Value(e) | SequenceItem::Unpack(e) => {
                collect_cell_vars_from_expr(e, our_locals, cell_vars);
            },
        }
        i += 1;
    }
    assert(list@.take(i as int) == list@);
}

/// Adds the names captured in the entries of a dict display.
fn collect_cell_vars_from_dict_items(list: &Vec<DictItem>, our_locals: &NameSet, cell_vars: &mut NameSet)
    ensures
        final(cell_vars)@ == old(cell_vars)@ + captured_in_dict_items(list@, our_locals@),
        final(cell_vars)@.subset_of(old(cell_vars)@ + our_locals@),
    decreases list@, 0int,
{
    let ghost start = cell_vars@;
    let mut i: usize = 0;
    while i < list.len()
        invariant
            i <= list@.len(),
            cell_vars@ == start + captured_in_dict_items(list@.take(i as int), our_locals@),
            cell_vars@.subset_of(start + our_locals@),
        decreases list@.len() - i,
    {
        assert(list@.take(i + 1).drop_last() == list@.take(i as int));
        assert(list@.take(i + 1).last() == list@[i as int]);
        match &list[i] {
            DictItem::Pair(key, value) => {
                collect_cell_vars_from_expr(key, our_locals, cell_vars);
                collect_cell_vars_from_expr(value, our_locals, cell_vars);
            },
            DictItem::Unpack(e) => {
                collect_cell_vars_from_expr(e, our_locals, cell_vars);
            },
        }
        i += 1;
    }
    assert(list@.take(i as int) == list@);
}

/// Adds the names captured in the operands of a comparison chain.
fn collect_cell_vars_from_comparisons(list: &Vec<(CmpOperator, ExprLoc)>, our_locals: &NameSet, cell_vars: &mut NameSet)
    ensures
        final(cell_vars)@ == old(cell_vars)@ + captured_in_comparisons(list@, our_locals@),
        final(cell_vars)@.subset_of(old(cell_vars)@ + our_locals@),
    decreases list@, 0int,
{
    let ghost start = cell_vars@;
    let mut i: usize = 0;
    while i < list.len()
        invariant
            i <= list@.len(),
            cell_vars@ == start + captured_in_comparisons(list@.take(i as int), our_locals@),
            cell_vars@.subset_of(start + our_locals@),
        decreases list@.len() - i,
    {
        assert(list@.take(i + 1).drop_last() == list@.take(i as int));
        assert(list@.take(i + 1).last() == list@[i as int]);
        collect_cell_vars_from_expr(&list[i].1, our_locals, cell_vars);
        i += 1;
    }
    assert(list@.take(i as int) == list@);
}

/// Adds the names captured in keyword arguments.
fn collect_cell_vars_from_kwargs(list: &Vec<Kwarg>, our_locals: &NameSet, cell_vars: &mut NameSet)
    ensures
        final(cell_vars)@ == old(cell_vars)@ + captured_in_kwargs(list@, our_locals@),
        final(cell_vars)@.subset_of(old(cell_vars)@ + our_locals@),
    decreases list@, 0int,
{
    let ghost start = cell_vars@;
    let mut i: usize = 0;
    while i < list.len()
        invariant
            i <= list@.len(),
            cell_vars@ == start + captured_in_kwargs(list@.take(i as int), our_locals@),
            cell_vars@.subset_of(start + our_locals@),
        decreases list@.len() - i,
    {
        assert(list@.take(i + 1).drop_last() == list@.take(i as int));
        assert(list@.take(i + 1).last() == list@[i as int]);
        collect_cell_vars_from_expr(&list[i].value, our_locals, cell_vars);
        i += 1;
    }
    assert(list@.take(i as int) == list@);
}

/// Adds the names captured in positional arguments.
fn collect_cell_vars_from_call_args(list: &Vec<CallArg>, our_locals: &NameSet, cell_vars: &mut NameSet)
    ensures
        final(cell_vars)@ == old(cell_vars)@ + captured_in_call_args(list@, our_locals@),
        final(cell_vars)@.subset_of(old(cell_vars)@ + our_locals@),
    decreases list@, 0int,
{
    let ghost start = cell_vars@;
    let mut i: usize = 0;
    while i < list.len()
        invariant
            i <= list@.len(),
            cell_vars@ == start + captured_in_call_args(list@.take(i as int), our_locals@),
            cell_vars@.subset_of(start + our_locals@),
        decreases list@.len() - i,
    {
        assert(list@.take(i + 1).drop_last() == list@.take(i as int));
        assert(list@.take(i + 1).last() == list@[i as int]);
        match &list[i] {
            CallArg::Value(e) | CallArg::Unpack(e) => {
                collect_cell_vars_from_expr(e, our_locals, cell_vars);
            },
        }
        i += 1;
    }
    assert(list@.take(i as int) == list@);
}

/// Adds the names captured in keyword arguments and unpackings.
fn collect_cell_vars_from_call_kwargs(list: &Vec<CallKwarg>, our_locals: &NameSet, cell_vars: &mut NameSet)
    ensures
        final(cell_vars)@ == old(cell_vars)@ + captured_in_call_kwargs(list@, our_locals@),
        final(cell_vars)@.subset_of(old(cell_vars)@ + our_locals@),
    decreases list@, 0int,
{
    let ghost start = cell_vars@;
    let mut i: usize = 0;
    while i < list.len()
        invariant
            i <= list@.len(),
            cell_vars@ == start + captured_in_call_kwargs(list@.take(i as int), our_locals@),
            cell_vars@.subset_of(start + our_locals@),
        decreases list@.len() - i,
    {
        assert(list@.take(i + 1).drop_last() == list@.take(i as int));
        assert(list@.take(i + 1).last() == list@[i as int]);
        match &list[i] {
            CallKwarg::Named(kwarg) => {
                collect_cell_vars_from_expr(&kwarg.value, our_locals, cell_vars);
            },
            CallKwarg::Unpack(e) => {
                collect_cell_vars_from_expr(e, our_locals, cell_vars);
            },
        }
        i += 1;
    }
    assert(list@.take(i as int) == list@);
}

/// Adds the names captured in the parts of a formatted string and in its format specs.
fn collect_cell_vars_from_fstring_parts(list: &Vec<FStringPart>, our_locals: &NameSet, cell_vars: &mut NameSet)
    ensures
        final(cell_vars)@ == old(cell_vars)@ + captured_in_fstring_parts(list@, our_locals@),
        final(cell_vars)@.subset_of(old(cell_vars)@ + our_locals@),
    decreases list@, 0int,
{
    let ghost start = cell_vars@;
    let mut i: usize = 0;
    while i < list.len()
        invariant
            i <= list@.len(),
            cell_vars@ == start + captured_in_fstring_parts(list@.take(i as int), our_locals@),
            cell_vars@.subset_of(start + our_locals@),
        decreases list@.len() - i,
    {
        assert(list@.take(i + 1).drop_last() == list@.take(i as int));
        assert(list@.take(i + 1).last() == list@[i as int]);
        if let FStringPart::Interpolation { expr, format_spec, .. } = &list[i] {
            collect_cell_vars_from_expr(expr, our_locals, cell_vars);
            if let Some(FormatSpec::Dynamic(parts)) = format_spec {
                collect_cell_vars_from_fstring_parts(parts, our_locals, cell_vars);
            }
        }
        i += 1;
    }
    assert(list@.take(i as int) == list@);
}

/// Adds the names captured in the fields of a template.
fn collect_cell_vars_from_interpolations(list: &Vec<TemplateInterpolation>, our_locals: &NameSet, cell_vars: &mut NameSet)
    ensures
        final(cell_vars)@ == old(cell_vars)@ + captured_in_interpolations(list@, our_locals@),
        final(cell_vars)@.subset_of(old(cell_vars)@ + our_locals@),
    decreases list@, 0int,
{
    let ghost start = cell_vars@;
    let mut i: usize = 0;
    while i < list.len()
        invariant
            i <= list@.len(),
            cell_vars@ == start + captured_in_interpolations(list@.take(i as int), our_locals@),
            cell_vars@.subset_of(start + our_locals@),
        decreases list@.len() - i,
    {
        assert(list@.take(i + 1).drop_last() == list@.take(i as int));
        assert(list@.take(i + 1).last() == list@[i as int]);
        collect_cell_vars_from_expr(&list[i].expr, our_locals, cell_vars);
        collect_cell_vars_from_fstring_parts(&list[i].format_spec, our_locals, cell_vars);
        i += 1;
    }
    assert(list@.take(i as int) == list@);
}

/// Adds the names captured in the clauses of a comprehension.
fn collect_cell_vars_from_clauses(list: &Vec<Comprehension>, our_locals: &NameSet, cell_vars: &mut NameSet)
    ensures
        final(cell_vars)@ == old(cell_vars)@ + captured_in_clauses(list@, our_locals@),
        final(cell_vars)@.subset_of(old(cell_vars)@ + our_locals@),
    decreases list@, 0int,
{
    let ghost start = cell_vars@;
    let mut i: usize = 0;
    while i < list.len()
        invariant
            i <= list@.len(),
            cell_vars@ == start + captured_in_clauses(list@.take(i as int), our_locals@),
            cell_vars@.subset_of(start + our_locals@),
        decreases list@.len() - i,
    {
        assert(list@.take(i + 1).drop_last() == list@.take(i as int));
        assert(list@.take(i + 1).last() == list@[i as int]);
        collect_cell_vars_from_expr(&list[i].iter, our_locals, cell_vars);
        collect_cell_vars_from_exprs(&list[i].ifs, our_locals, cell_vars);
        i += 1;
    }
    assert(list@.take(i as int) == list@);
}

/// Adds the names captured in a list of binding targets.
fn collect_cell_vars_from_unpack_targets(list: &Vec<UnpackTarget>, our_locals: &NameSet, cell_vars: &mut NameSet)
    ensures
        final(cell_vars)@ == old(cell_vars)@ + captured_in_unpack_targets(list@, our_locals@),
        final(cell_vars)@.subset_of(old(cell_vars)@ + our_locals@),
    decreases list@, 0int,
{
    let ghost start = cell_vars@;
    let mut i: usize = 0;
    while i < list.len()
        invariant
            i <= list@.len(),
            cell_vars@ == start + captured_in_unpack_targets(list@.take(i as int), our_locals@),
            cell_vars@.subset_of(start + our_locals@),
        decreases list@.len() - i,
    {
        assert(list@.take(i + 1).drop_last() == list@.take(i as int));
        assert(list@.take(i + 1).last() == list@[i as int]);
        collect_cell_vars_from_unpack_target(&list[i], our_locals, cell_vars);
        i += 1;
    }
    assert(list@.take(i as int) == list@);
}

/// Adds the names captured in the iterables and filters of a comprehension.
fn collect_cell_vars_from_generators(generators: &Generators, our_locals: &NameSet, cell_vars: &mut NameSet)
    ensures
        final(cell_vars)@ == old(cell_vars)@ + captured_in_generators(*generators, our_locals@),
        final(cell_vars)@.subset_of(old(cell_vars)@ + our_locals@),
    decreases *generators, 0int,
{
    let inner_locals = outside_comprehension(generators, our_locals);
    collect_cell_vars_from_expr(&generators.first.iter, our_locals, cell_vars);
    collect_cell_vars_from_exprs(&generators.first.ifs, &inner_locals, cell_vars);
    collect_cell_vars_from_clauses(&generators.rest, &inner_locals, cell_vars);
}

/// The names among `our_locals` that no target of a comprehension hides.
fn outside_comprehension(generators: &Generators, our_locals: &NameSet) -> (inner_locals: NameSet)
    ensures
        inner_locals@ == our_locals@.difference(bound_by_generators(*generators)),
{
    let mut targets = NameSet::new();
    collect_assigned_names_from_unpack_target(&generators.first.target, &mut targets);
    let mut i: usize = 0;
    assert(generators.rest@.take(0) =~= Seq::<Comprehension>::empty());
    while i < generators.rest.len()
        invariant
            i <= generators.rest@.len(),
            targets@ == bound_in_unpack_target(generators.first.target) + bound_by_clauses(
                generators.rest@.take(i as int),
            ),
        decreases generators.rest@.len() - i,
    {
        assert(generators.rest@.take(i + 1).drop_last() == generators.rest@.take(i as int));
        assert(generators.rest@.take(i + 1).last() == generators.rest@[i as int]);
        collect_assigned_names_from_unpack_target(&generators.rest[i].target, &mut targets);
        i += 1;
    }
    assert(generators.rest@.take(i as int) == generators.rest@);
    let mut inner_locals = our_locals.copy();
    inner_locals.remove_all(&targets);
    inner_locals
}

/// Adds the names captured in a binding target.
pub fn collect_cell_vars_from_unpack_target(target: &UnpackTarget, our_locals: &NameSet, cell_vars: &mut NameSet)
    ensures
        final(cell_vars)@ == old(cell_vars)@ + captured_in_unpack_target(*target, our_locals@),
        final(cell_vars)@.subset_of(old(cell_vars)@ + our_locals@),
    decreases *target, 0int,
{
    match target {
        UnpackTarget::Name(_) | UnpackTarget::Starred(_) => {
        },
        UnpackTarget::Attr { object, .. } => {
            collect_cell_vars_from_expr(object, our_locals, cell_vars);
        },
        UnpackTarget::Subscript { object, index, .. } => {
            collect_cell_vars_from_expr(object, our_locals, cell_vars);
            collect_cell_vars_from_expr(index, our_locals, cell_vars);
        },
        UnpackTarget::Tuple { targets, .. } => {
            collect_cell_vars_from_unpack_targets(targets, our_locals, cell_vars);
        },
    }
}

/// Names among `locals` that scopes nested in a statement capture.
pub open spec fn captured_in_node(node: Node, locals: Set<StringId>) -> Set<StringId>
    decreases node, 0int,
{
    match node {
        Node::For { target, iter, body, or_else, .. } => captured_in_unpack_target(target, locals) + captured_in_expr(iter, locals) + captured_in_nodes(body@, locals) + captured_in_nodes(or_else@, locals),
        Node::While { test, body, or_else } | Node::If { test, body, or_else } => captured_in_expr(test, locals) + captured_in_nodes(body@, locals) + captured_in_nodes(or_else@, locals),
        Node::Expr(expr) | Node::Return(Some(expr)) => captured_in_expr(expr, locals),
        Node::SubscriptOpAssign { target, index, value, .. } | Node::SubscriptAssign { target, index, value, .. } => captured_in_expr(target, locals) + captured_in_expr(index, locals) + captured_in_expr(value, locals),
        Node::AttrOpAssign { object, value, .. } | Node::AttrAssign { object, value, .. } => captured_in_expr(object, locals) + captured_in_expr(value, locals),
        Node::UnpackAssign { targets, object, .. } | Node::ChainAssign { targets, object } => captured_in_unpack_targets(targets@, locals) + captured_in_expr(object, locals),
        Node::Delete(targets) => captured_in_delete_targets(targets@, locals),
        Node::Assign { object, .. } => captured_in_expr(object, locals),
        Node::OpAssign { value, .. } => captured_in_expr(value, locals),
        Node::With { context, target, body, .. } => captured_in_expr(context, locals) + (match target {
            Some(inner) => captured_in_unpack_target(inner, locals),
            None => Set::empty(),
        }) + captured_in_nodes(body@, locals),
        Node::FunctionDef { def, decorators } => captured_by_function(def.signature, def.body@, locals)
            + captured_in_exprs(decorators@, locals),
        Node::ClassDef(def) => captured_by_function(def.body.signature, def.body.body@, locals) + captured_in_exprs(
            def.bases@,
            locals,
        ) + captured_in_exprs(def.decorators@, locals),
        Node::TypeAlias { value, .. } => captured_by_function(value.signature, value.body@, locals),
        Node::Try(block) => captured_in_nodes(block.body@, locals) + captured_in_handlers(block.handlers@, locals)
            + captured_in_nodes(block.or_else@, locals) + captured_in_nodes(block.finally@, locals),
        Node::Raise { exc, cause } => (match exc {
            Some(inner) => captured_in_expr(inner, locals),
            None => Set::empty(),
        }) + (match cause {
            Some(inner) => captured_in_expr(inner, locals),
            None => Set::empty(),
        }),
        Node::Assert { test, msg } => captured_in_expr(test, locals) + (match msg {
            Some(inner) => captured_in_expr(inner, locals),
            None => Set::empty(),
        }),
        Node::Pass
        | Node::Return(None)
        | Node::Break { .. }
        | Node::Continue { .. }
        | Node::Global { .. }
        | Node::Nonlocal { .. }
        | Node::Import { .. }
        | Node::ImportFrom { .. } => Set::empty(),
    }
}

/// The names captured in a list of statements.
pub open spec fn captured_in_nodes(list: Seq<Node>, locals: Set<StringId>) -> Set<StringId>
    decreases list, 0int,
{
    if list.len() == 0 {
        Set::empty()
    } else {
        captured_in_nodes(list.drop_last(), locals) + captured_in_node(list.last(), locals)
    }
}

/// The names captured in the handlers of a `try` statement.
pub open spec fn captured_in_handlers(list: Seq<ExceptHandler>, locals: Set<StringId>) -> Set<StringId>
    decreases list, 0int,
{
    if list.len() == 0 {
        Set::empty()
    } else {
        captured_in_handlers(list.drop_last(), locals) + (match list.last().exc_type {
            Some(inner) => captured_in_expr(inner, locals),
            None => Set::empty(),
        }) + captured_in_nodes(list.last().body@, locals)
    }
}

/// The names captured in the targets of `del`.
pub open spec fn captured_in_delete_targets(list: Seq<DeleteTarget>, locals: Set<StringId>) -> Set<StringId>
    decreases list, 0int,
{
    if list.len() == 0 {
        Set::empty()
    } else {
        captured_in_delete_targets(list.drop_last(), locals) + (match list.last() {
            DeleteTarget::Name(_) => Set::empty(),
            DeleteTarget::Attr { object, .. } => captured_in_expr(object, locals),
            DeleteTarget::Subscript { object, index, .. } => captured_in_expr(object, locals) + captured_in_expr(index, locals),
        })
    }
}

/// Adds the names among `locals` that scopes nested in a statement capture.
pub fn collect_cell_vars_from_node(node: &Node, our_locals: &NameSet, cell_vars: &mut NameSet)
    ensures
        final(cell_vars)@ == old(cell_vars)@ + captured_in_node(*node, our_locals@),
        final(cell_vars)@.subset_of(old(cell_vars)@ + our_locals@),
    decreases *node, 0int,
{
    match node {
        Node::For { target, iter, body, or_else, .. } => {
            collect_cell_vars_from_unpack_target(target, our_locals, cell_vars);
            collect_cell_vars_from_expr(iter, our_locals, cell_vars);
            collect_cell_vars_from_nodes(body, our_locals, cell_vars);
            collect_cell_vars_from_nodes(or_else, our_locals, cell_vars);
        },
        Node::While { test, body, or_else } | Node::If { test, body, or_else } => {
            collect_cell_vars_from_expr(test, our_locals, cell_vars);
            collect_cell_vars_from_nodes(body, our_locals, cell_vars);
            collect_cell_vars_from_nodes(or_else, our_locals, cell_vars);
        },
        Node::Expr(expr) | Node::Return(Some(expr)) => {
            collect_cell_vars_from_expr(expr, our_locals, cell_vars);
        },
        Node::SubscriptOpAssign { target, index, value, .. } | Node::SubscriptAssign { target, index, value, .. } => {
            collect_cell_vars_from_expr(target, our_locals, cell_vars);
            collect_cell_vars_from_expr(index, our_locals, cell_vars);
            collect_cell_vars_from_expr(value, our_locals, cell_vars);
        },
        Node::AttrOpAssign { object, value, .. } | Node::AttrAssign { object, value, .. } => {
            collect_cell_vars_from_expr(object, our_locals, cell_vars);
            collect_cell_vars_from_expr(value, our_locals, cell_vars);
        },
        Node::UnpackAssign { targets, object, .. } | Node::ChainAssign { targets, object } => {
            collect_cell_vars_from_unpack_targets(targets, our_locals, cell_vars);
            collect_cell_vars_from_expr(object, our_locals, cell_vars);
        },
        Node::Delete(targets) => {
            collect_cell_vars_from_delete_targets(targets, our_locals, cell_vars);
        },
        Node::Assign { object, .. } => {
            collect_cell_vars_from_expr(object, our_locals, cell_vars);
        },
        Node::OpAssign { value, .. } => {
            collect_cell_vars_from_expr(value, our_locals, cell_vars);
        },
        Node::With { context, target, body, .. } => {
            collect_cell_vars_from_expr(context, our_locals, cell_vars);
            if let Some(inner) = target {
                collect_cell_vars_from_unpack_target(inner, our_locals, cell_vars);
            }
            collect_cell_vars_from_nodes(body, our_locals, cell_vars);
        },
        Node::FunctionDef { def, decorators } => {
            collect_cell_vars_from_function(&def.signature, &def.body, our_locals, cell_vars);
            collect_cell_vars_from_exprs(decorators, our_locals, cell_vars);
        },
        Node::ClassDef(def) => {
            collect_cell_vars_from_function(&def.body.signature, &def.body.body, our_locals, cell_vars);
            collect_cell_vars_from_exprs(&def.bases, our_locals, cell_vars);
            collect_cell_vars_from_exprs(&def.decorators, our_locals, cell_vars);
        },
        Node::TypeAlias { value, .. } => {
            collect_cell_vars_from_function(&value.signature, &value.body, our_locals, cell_vars);
        },
        Node::Try(block) => {
            collect_cell_vars_from_nodes(&block.body, our_locals, cell_vars);
            collect_cell_vars_from_handlers(&block.handlers, our_locals, cell_vars);
            collect_cell_vars_from_nodes(&block.or_else, our_locals, cell_vars);
            collect_cell_vars_from_nodes(&block.finally, our_locals, cell_vars);
        },
        Node::Raise { exc, cause } => {
            if let Some(inner) = exc {
                collect_cell_vars_from_expr(inner, our_locals, cell_vars);
            }
            if let Some(inner) = cause {
                collect_cell_vars_from_expr(inner, our_locals, cell_vars);
            }
        },
        Node::Assert { test, msg } => {
            collect_cell_vars_from_expr(test, our_locals, cell_vars);
            if let Some(inner) = msg {
                collect_cell_vars_from_expr(inner, our_locals, cell_vars);
            }
        },
        Node::Pass
        | Node::Return(None)
        | Node::Break { .. }
        | Node::Continue { .. }
        | Node::Global { .. }
        | Node::Nonlocal { .. }
        | Node::Import { .. }
        | Node::ImportFrom { .. } => {
        },
    }
}

/// Adds the names captured in a list of statements.
fn collect_cell_vars_from_nodes(list: &Vec<Node>, our_locals: &NameSet, cell_vars: &mut NameSet)
    ensures
        final(cell_vars)@ == old(cell_vars)@ + captured_in_nodes(list@, our_locals@),
        final(cell_vars)@.subset_of(old(cell_vars)@ + our_locals@),
    decreases list@, 0int,
{
    let ghost start = cell_vars@;
    let mut i: usize = 0;
    while i < list.len()
        invariant
            i <= list@.len(),
            cell_vars@ == start + captured_in_nodes(list@.take(i as int), our_locals@),
            cell_vars@.subset_of(start + our_locals@),
        decreases list@.len() - i,
    {
        assert(list@.take(i + 1).drop_last() == list@.take(i as int));
        assert(list@.take(i + 1).last() == list@[i as int]);
        collect_cell_vars_from_node(&list[i], our_locals, cell_vars);
        i += 1;
    }
    assert(list@.take(i as int) == list@);
}

/// Adds the names captured in the handlers of a `try` statement.
fn collect_cell_vars_from_handlers(list: &Vec<ExceptHandler>, our_locals: &NameSet, cell_vars: &mut NameSet)
    ensures
        final(cell_vars)@ == old(cell_vars)@ + captured_in_handlers(list@, our_locals@),
        final(cell_vars)@.subset_of(old(cell_vars)@ + our_locals@),
    decreases list@, 0int,
{
    let ghost start = cell_vars@;
    let mut i: usize = 0;
    while i < list.len()
        invariant
            i <= list@.len(),
            cell_vars@ == start + captured_in_handlers(list@.take(i as int), our_locals@),
            cell_vars@.subset_of(start + our_locals@),
        decreases list@.len() - i,
    {
        assert(list@.take(i + 1).drop_last() == list@.take(i as int));
        assert(list@.take(i + 1).last() == list@[i as int]);
        if let Some(exc_type) = &list[i].exc_type {
            collect_cell_vars_from_expr(exc_type, our_locals, cell_vars);
        }
        collect_cell_vars_from_nodes(&list[i].body, our_locals, cell_vars);
        i += 1;
    }
    assert(list@.take(i as int) == list@);
}

/// Adds the names captured in the targets of `del`.
fn collect_cell_vars_from_delete_targets(list: &Vec<DeleteTarget>, our_locals: &NameSet, cell_vars: &mut NameSet)
    ensures
        final(cell_vars)@ == old(cell_vars)@ + captured_in_delete_targets(list@, our_locals@),
        final(cell_vars)@.subset_of(old(cell_vars)@ + our_locals@),
    decreases list@, 0int,
{
    let ghost start = cell_vars@;
    let mut i: usize = 0;
    while i < list.len()
        invariant
            i <= list@.len(),
            cell_vars@ == start + captured_in_delete_targets(list@.take(i as int), our_locals@),
            cell_vars@.subset_of(start + our_locals@),
        decreases list@.len() - i,
    {
        assert(list@.take(i + 1).drop_last() == list@.take(i as int));
        assert(list@.take(i + 1).last() == list@[i as int]);
        match &list[i] {
            DeleteTarget::Name(_) => {
            },
            DeleteTarget::Attr { object, .. } => {
                collect_cell_vars_from_expr(object, our_locals, cell_vars);
            },
            DeleteTarget::Subscript { object, index, .. } => {
                collect_cell_vars_from_expr(object, our_locals, cell_vars);
                collect_cell_vars_from_expr(index, our_locals, cell_vars);
            },
        }
        i += 1;
    }
    assert(list@.take(i as int) == list@);
}

/// Adds the names among `our_locals` that a nested function captures.
pub fn collect_cell_vars_from_function(
    signature: &ParsedSignature,
    body: &Vec<Node>,
    our_locals: &NameSet,
    cell_vars: &mut NameSet,
)
    ensures
        final(cell_vars)@ == old(cell_vars)@ + captured_by_function(*signature, body@, our_locals@),
        final(cell_vars)@.subset_of(old(cell_vars)@ + our_locals@),
    decreases body@, 1int,
{
    let from_defaults = default_references(signature).common(our_locals);
    cell_vars.add_all(&from_defaults);

    let mut referenced = NameSet::new();
    collect_referenced_names_from_nodes(body, &mut referenced);
    let mut nested_global = NameSet::new();
    let mut nested_nonlocal = NameSet::new();
    let mut nested_assigned = NameSet::new();
    collect_scope_info_from_nodes(body, &mut nested_global, &mut nested_nonlocal, &mut nested_assigned);
    let mut own = param_set(signature);
    own.add_all(&nested_assigned);
    own.add_all(&nested_global);

    referenced.remove_all(&own);
    cell_vars.add_all(&referenced.common(our_locals));
    cell_vars.add_all(&nested_nonlocal.common(our_locals));

    let mut deeper_locals = our_locals.copy();
    deeper_locals.remove_all(&own);
    assert(own@ =~= param_names(*signature).to_set() + bound_in_nodes(body@) + declared_in_nodes(
        body@,
        Declaration::Global,
    ));
    assert(nested_nonlocal@ =~= declared_in_nodes(body@, Declaration::Nonlocal));
    if !deeper_locals.is_empty() {
        collect_cell_vars_from_nodes(body, &deeper_locals, cell_vars);
    }
}

/// Adds the names among `our_locals` that a lambda captures.
///
/// What lambdas nested deeper capture of its own names is theirs and not of the
/// scope around it.
fn collect_cell_vars_from_lambda(def: &LambdaDef, our_locals: &NameSet, cell_vars: &mut NameSet)
    ensures
        final(cell_vars)@ == old(cell_vars)@ + (read_in_defaults(def.signature).intersect(our_locals@) + read_in_expr(
            def.body,
        ).difference(own_in_lambda(*def)).intersect(our_locals@) + captured_in_expr(
            def.body,
            our_locals@.difference(own_in_lambda(*def)),
        )),
        final(cell_vars)@.subset_of(old(cell_vars)@ + our_locals@),
    decreases *def, 1int,
{
    let from_defaults = default_references(&def.signature).common(our_locals);
    cell_vars.add_all(&from_defaults);
    let mut referenced = NameSet::new();
    collect_referenced_names_from_expr(&def.body, &mut referenced);
    let own = lambda_names(def);
    referenced.remove_all(&own);
    cell_vars.add_all(&referenced.common(our_locals));
    let mut deeper_locals = our_locals.copy();
    deeper_locals.remove_all(&own);
    collect_cell_vars_from_expr(&def.body, &deeper_locals, cell_vars);
}

/// Model of what the first look at a function body finds out.
#[verifier::ext_equal]
pub struct ScopeInfo {
    /// Names declared global.
    pub global_names: Set<StringId>,
    /// Names declared nonlocal.
    pub nonlocal_names: Set<StringId>,
    /// Names that the body binds.
    pub assigned_names: Set<StringId>,
    /// Locals that nested scopes capture.
    pub cell_var_names: Set<StringId>,
    /// Names that are read and neither local nor declared.
    pub potential_captures: Set<StringId>,
}

/// What a look at a function body finds out.
pub open spec fn scope_info(body: Seq<Node>, params: Seq<StringId>) -> ScopeInfo {
    let global_names = declared_in_nodes(body, Declaration::Global);
    let nonlocal_names = declared_in_nodes(body, Declaration::Nonlocal);
    let assigned_names = bound_in_nodes(body);
    let our_locals = (params.to_set() + assigned_names).difference(global_names);
    ScopeInfo {
        global_names,
        nonlocal_names,
        assigned_names,
        cell_var_names: captured_in_nodes(body, our_locals),
        potential_captures: read_in_nodes(body).difference(our_locals).difference(global_names).difference(
            nonlocal_names,
        ),
    }
}

/// What a look at the body of a lambda finds out: a lambda declares nothing,
/// and its body is the one expression that it returns.
pub open spec fn lambda_scope_info(body: ExprLoc, params: Seq<StringId>) -> ScopeInfo {
    let assigned_names = bound_in_expr(body);
    let our_locals = params.to_set() + assigned_names;
    ScopeInfo {
        global_names: Set::empty(),
        nonlocal_names: Set::empty(),
        assigned_names,
        cell_var_names: captured_in_expr(body, our_locals),
        potential_captures: read_in_expr(body).difference(our_locals),
    }
}

/// What a look at a function body finds out.
pub struct FunctionScopeInfo {
    /// Names declared global.
    pub global_names: NameSet,
    /// Names declared nonlocal.
    pub nonlocal_names: NameSet,
    /// Names that the body binds.
    pub assigned_names: NameSet,
    /// Locals that nested scopes capture, which must live in cells.
    pub cell_var_names: NameSet,
    /// Names that are read and neither local nor declared: each may be a
    /// capture, a global or a builtin.
    pub potential_captures: NameSet,
}

impl View for FunctionScopeInfo {
    type V = ScopeInfo;

    open spec fn view(&self) -> ScopeInfo {
        ScopeInfo {
            global_names: self.global_names@,
            nonlocal_names: self.nonlocal_names@,
            assigned_names: self.assigned_names@,
            cell_var_names: self.cell_var_names@,
            potential_captures: self.potential_captures@,
        }
    }
}

/// Scans a function body for the names that it declares, binds, lets nested
/// scopes capture, and may itself capture.
pub fn collect_function_scope_info(body: &Vec<Node>, params: &Vec<StringId>) -> (info: FunctionScopeInfo)
    ensures
        info@ == scope_info(body@, params@),
{
    let mut global_names = NameSet::new();
    let mut nonlocal_names = NameSet::new();
    let mut assigned_names = NameSet::new();
    let mut cell_var_names = NameSet::new();
    let mut referenced_names = NameSet::new();
    collect_scope_info_from_nodes(body, &mut global_names, &mut nonlocal_names, &mut assigned_names);
    let mut our_locals = NameSet::new();
    our_locals.insert_all(params);
    our_locals.add_all(&assigned_names);
    our_locals.remove_all(&global_names);
    assert(global_names@ =~= declared_in_nodes(body@, Declaration::Global));
    assert(nonlocal_names@ =~= declared_in_nodes(body@, Declaration::Nonlocal));
    assert(assigned_names@ =~= bound_in_nodes(body@));
    assert(our_locals@ =~= (params@.to_set() + assigned_names@).difference(global_names@));
    collect_cell_vars_from_nodes(body, &our_locals, &mut cell_var_names);
    collect_referenced_names_from_nodes(body, &mut referenced_names);
    let mut potential_captures = referenced_names;
    potential_captures.remove_all(&our_locals);
    potential_captures.remove_all(&global_names);
    potential_captures.remove_all(&nonlocal_names);
    let info = FunctionScopeInfo {
        global_names,
        nonlocal_names,
        assigned_names,
        cell_var_names,
        potential_captures,
    };
    assert(info@ =~= scope_info(body@, params@));
    info
}

/// Scans the body of a lambda.
pub fn collect_lambda_scope_info(body: &ExprLoc, params: &Vec<StringId>) -> (info: FunctionScopeInfo)
    ensures
        info@ == lambda_scope_info(*body, params@),
{
    let mut assigned_names = NameSet::new();
    collect_assigned_names_from_expr(body, &mut assigned_names);
    let mut our_locals = NameSet::new();
    our_locals.insert_all(params);
    our_locals.add_all(&assigned_names);
    assert(assigned_names@ =~= bound_in_expr(*body));
    assert(our_locals@ =~= params@.to_set() + assigned_names@);
    let mut cell_var_names = NameSet::new();
    collect_cell_vars_from_expr(body, &our_locals, &mut cell_var_names);
    let mut potential_captures = NameSet::new();
    collect_referenced_names_from_expr(body, &mut potential_captures);
    potential_captures.remove_all(&our_locals);
    let info = FunctionScopeInfo {
        global_names: NameSet::new(),
        nonlocal_names: NameSet::new(),
        assigned_names,
        cell_var_names,
        potential_captures,
    };
    assert(info@ =~= lambda_scope_info(*body, params@));
    info
}

} // verus!
