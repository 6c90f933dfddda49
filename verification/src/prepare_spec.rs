//! What preparation makes of each piece of syntax.
//!
//! For each kind of syntax there are two functions. `after_..` gives the state
//! after that piece was prepared, or the error that ends preparation.
//! `prepares_..` says that a prepared tree is what preparation makes of it:
//! the same tree with every name resolved in the state that holds where the
//! name stands.

use crate::ast::{
    ArgExprs, CallArg, CallKwarg, Callable, ClassDef, CmpOperator, Comprehension, DeleteTarget, DictItem,
    ExceptHandler, Expr, ExprLoc, FStringPart, FormatSpec, GeneratorDef, Generators, Identifier, ImportName, Kwarg,
    LambdaDef, Node, ParsedParam, ParsedSignature, RawFunctionDef, SequenceItem, UnpackTarget,
};
use crate::intern::Builtins;
use crate::model::{
    bound_comp_var, cell_var_lists, cells_labelled, closed, free_var_lists, global_conflict, nonlocal_conflict, opened,
    placed, resolved, resolved_read, stored, stored_by_walrus, undefined_object, with_comp_scope, with_walrus_slots,
    without_comp_scope, Model, Outcome,
};
use crate::name_map::first_slot;
use crate::names::{in_order, StringId};
use crate::parse::{CodeRange, ParseError, ParseErrorKind};
use crate::prepared::{
    NameScope, PreparedArgs, PreparedCallArg, PreparedCallKwarg, PreparedCallable, PreparedClassDef, PreparedClause,
    PreparedDeleteTarget, PreparedDictItem, PreparedExpr, PreparedExprLoc, PreparedFStringPart, PreparedFormatSpec,
    PreparedFunctionDef, PreparedGenerators, PreparedHandler, PreparedImportName, PreparedInterpolation,
    PreparedKwarg, PreparedNode, PreparedSequenceItem, PreparedTarget, ResolvedIdentifier, Signature,
};
use crate::scope::{
    bound_in_expr, bound_in_exprs, lambda_scope_info, names_of_params, param_names, scope_info, ScopeInfo,
};
use crate::tstring::TemplateInterpolation;
use vstd::prelude::*;

verus! {

/// The state after an expression was prepared.
pub open spec fn after_expr(model: Model, it: ExprLoc) -> Outcome
    decreases it, 1int,
{
    expr_step(model, it)
}

/// The same, in terms of the parts.
pub open spec fn expr_step(model: Model, it: ExprLoc) -> Outcome
    decreases it, 0int,
{
    match it.expr {
        Expr::Literal(_) => Ok(model),
        Expr::Builtin(_) => Ok(model),
        Expr::Op { left, right, .. } => match after_expr(model, *left) {
            Err(error) => Err(error),
            Ok(m1) => after_expr(m1, *right),
        },
        Expr::CmpOp { left, right, .. } => match after_expr(model, *left) {
            Err(error) => Err(error),
            Ok(m1) => after_expr(m1, *right),
        },
        Expr::ChainCmp { left, comparisons } => match after_expr(model, *left) {
            Err(error) => Err(error),
            Ok(m1) => after_comparisons(m1, comparisons@),
        },
        Expr::AttrCall { object, args, .. } => match undefined_object(model, *object) {
            Some(error) => Err(error),
            None => match after_expr(model, *object) {
                Err(error) => Err(error),
                Ok(m1) => after_args(m1, *args),
            },
        },
        Expr::IndirectCall { callable, args } => match after_expr(model, *callable) {
            Err(error) => Err(error),
            Ok(m1) => after_args(m1, *args),
        },
        Expr::AttrGet { object, .. } => after_expr(model, *object),
        Expr::List(items) => after_items(model, items@),
        Expr::Tuple(items) => after_items(model, items@),
        Expr::SetDisplay(items) => after_items(model, items@),
        Expr::Subscript { object, index } => match after_expr(model, *object) {
            Err(error) => Err(error),
            Ok(m1) => after_expr(m1, *index),
        },
        Expr::Dict(items) => after_dict_items(model, items@),
        Expr::Not(operand) => after_expr(model, *operand),
        Expr::UnaryMinus(operand) => after_expr(model, *operand),
        Expr::UnaryPlus(operand) => after_expr(model, *operand),
        Expr::UnaryInvert(operand) => after_expr(model, *operand),
        Expr::Await(operand) => after_expr(model, *operand),
        Expr::FString(parts) => after_fstring_parts(model, parts@),
        Expr::TString(template) => after_interpolations(model, template.interpolations@),
        Expr::IfElse { test, body, orelse } => match after_expr(model, *test) {
            Err(error) => Err(error),
            Ok(m1) => match after_expr(m1, *body) {
                Err(error) => Err(error),
                Ok(m2) => after_expr(m2, *orelse),
            },
        },
        Expr::Yield(value) => (match value { Some(inner) => after_expr(model, *inner), None => Ok(model) }),
        Expr::YieldFrom(value) => after_expr(model, *value),
        Expr::Slice { lower, upper, step } => match (match lower { Some(inner) => after_expr(model, *inner), None => Ok(model) }) {
            Err(error) => Err(error),
            Ok(m1) => match (match upper { Some(inner) => after_expr(m1, *inner), None => Ok(m1) }) {
                Err(error) => Err(error),
                Ok(m2) => (match step { Some(inner) => after_expr(m2, *inner), None => Ok(m2) }),
            },
        },
        Expr::Named { target, value } => match after_expr(model, *value) {
            Err(error) => Err(error),
            Ok(m1) => match stored_by_walrus(m1, target) {
                Err(error) => Err(error),
                Ok((m2, _)) => Ok(m2),
            },
        },
        Expr::Name(ident) => match resolved_read(model, ident) {
            Err(error) => Err(error),
            Ok((after, _)) => Ok(after),
        },
        Expr::Call { callable, args } => match after_args(model, *args) {
            Err(error) => Err(error),
            Ok(m1) => match callable {
                Callable::Builtin(_) => Ok(m1),
                Callable::Name(ident) => match resolved_read(m1, ident) {
                    Err(error) => Err(error),
                    Ok((after, _)) => Ok(after),
                },
            },
        },
        Expr::ListComp { elt, generators } | Expr::SetComp { elt, generators } => match after_generators(
            model,
            *generators,
            bound_in_expr(*elt),
        ) {
            Err(error) => Err(error),
            Ok(m1) => match after_expr(m1, *elt) {
                Err(error) => Err(error),
                Ok(m2) => Ok(without_comp_scope(m2, model.comp_var_depth)),
            },
        },
        Expr::DictComp { key, value, generators } => match after_generators(
            model,
            *generators,
            bound_in_expr(*key) + bound_in_expr(*value),
        ) {
            Err(error) => Err(error),
            Ok(m1) => match after_expr(m1, *key) {
                Err(error) => Err(error),
                Ok(m2) => match after_expr(m2, *value) {
                    Err(error) => Err(error),
                    Ok(m3) => Ok(without_comp_scope(m3, model.comp_var_depth)),
                },
            },
        },
        Expr::LambdaRaw(def) => after_lambda(model, *def, it.position),
        Expr::GeneratorExpRaw(def) => after_generator_def(model, *def, it.position),
    }
}

/// `out` is an expression with every name resolved.
pub open spec fn prepares_expr(model: Model, it: ExprLoc, out: PreparedExprLoc) -> bool
    decreases it, 1int,
{
    expr_tree(model, it, out)
}

/// The same, in terms of the parts.
pub open spec fn expr_tree(model: Model, it: ExprLoc, out: PreparedExprLoc) -> bool
    decreases it, 0int,
{
    out.position == it.position && match it.expr {
        Expr::Literal(literal) => out.expr matches PreparedExpr::Literal(literal_out) && literal_out == literal,
        Expr::Builtin(builtin) => out.expr matches PreparedExpr::Builtin(builtin_out) && builtin_out == builtin,
        Expr::Op { left, op, right } => out.expr matches PreparedExpr::Op { left: left_out, op: op_out, right: right_out } && op_out == op && prepares_expr(model, *left, *left_out) && match after_expr(model, *left) {
            Err(_) => false,
            Ok(m1) => prepares_expr(m1, *right, *right_out),
        },
        Expr::CmpOp { left, op, right } => out.expr matches PreparedExpr::CmpOp { left: left_out, op: op_out, right: right_out } && op_out == op && prepares_expr(model, *left, *left_out) && match after_expr(model, *left) {
            Err(_) => false,
            Ok(m1) => prepares_expr(m1, *right, *right_out),
        },
        Expr::ChainCmp { left, comparisons } => out.expr matches PreparedExpr::ChainCmp { left: left_out, comparisons: comparisons_out } && prepares_expr(model, *left, *left_out) && match after_expr(model, *left) {
            Err(_) => false,
            Ok(m1) => prepares_comparisons(m1, comparisons@, comparisons_out@),
        },
        Expr::AttrCall { object, attr, args } => out.expr matches PreparedExpr::AttrCall { object: object_out, attr: attr_out, args: args_out } && undefined_object(model, *object) is None && attr_out == attr && prepares_expr(model, *object, *object_out) && match after_expr(model, *object) {
            Err(_) => false,
            Ok(m1) => prepares_args(m1, *args, *args_out),
        },
        Expr::IndirectCall { callable, args } => out.expr matches PreparedExpr::IndirectCall { callable: callable_out, args: args_out } && prepares_expr(model, *callable, *callable_out) && match after_expr(model, *callable) {
            Err(_) => false,
            Ok(m1) => prepares_args(m1, *args, *args_out),
        },
        Expr::AttrGet { object, attr } => out.expr matches PreparedExpr::AttrGet { object: object_out, attr: attr_out } && attr_out == attr && prepares_expr(model, *object, *object_out),
        Expr::List(items) => out.expr matches PreparedExpr::List(items_out) && prepares_items(model, items@, items_out@),
        Expr::Tuple(items) => out.expr matches PreparedExpr::Tuple(items_out) && prepares_items(model, items@, items_out@),
        Expr::SetDisplay(items) => out.expr matches PreparedExpr::SetDisplay(items_out) && prepares_items(model, items@, items_out@),
        Expr::Subscript { object, index } => out.expr matches PreparedExpr::Subscript { object: object_out, index: index_out } && prepares_expr(model, *object, *object_out) && match after_expr(model, *object) {
            Err(_) => false,
            Ok(m1) => prepares_expr(m1, *index, *index_out),
        },
        Expr::Dict(items) => out.expr matches PreparedExpr::Dict(items_out) && prepares_dict_items(model, items@, items_out@),
        Expr::Not(operand) => out.expr matches PreparedExpr::Not(operand_out) && prepares_expr(model, *operand, *operand_out),
        Expr::UnaryMinus(operand) => out.expr matches PreparedExpr::UnaryMinus(operand_out) && prepares_expr(model, *operand, *operand_out),
        Expr::UnaryPlus(operand) => out.expr matches PreparedExpr::UnaryPlus(operand_out) && prepares_expr(model, *operand, *operand_out),
        Expr::UnaryInvert(operand) => out.expr matches PreparedExpr::UnaryInvert(operand_out) && prepares_expr(model, *operand, *operand_out),
        Expr::Await(operand) => out.expr matches PreparedExpr::Await(operand_out) && prepares_expr(model, *operand, *operand_out),
        Expr::FString(parts) => out.expr matches PreparedExpr::FString(parts_out) && prepares_fstring_parts(model, parts@, parts_out@),
        Expr::TString(template) => out.expr matches PreparedExpr::TString(template_out) && template_out.strings@ == template.strings@ && prepares_interpolations(model, template.interpolations@, template_out.interpolations@),
        Expr::IfElse { test, body, orelse } => out.expr matches PreparedExpr::IfElse { test: test_out, body: body_out, orelse: orelse_out } && prepares_expr(model, *test, *test_out) && match after_expr(model, *test) {
            Err(_) => false,
            Ok(m1) => prepares_expr(m1, *body, *body_out) && match after_expr(m1, *body) {
                Err(_) => false,
                Ok(m2) => prepares_expr(m2, *orelse, *orelse_out),
            },
        },
        Expr::Yield(value) => out.expr matches PreparedExpr::Yield(value_out) && (match (value, value_out) { (Some(x), Some(y)) => prepares_expr(model, *x, *y), (None, None) => true, _ => false }),
        Expr::YieldFrom(value) => out.expr matches PreparedExpr::YieldFrom(value_out) && prepares_expr(model, *value, *value_out),
        Expr::Slice { lower, upper, step } => out.expr matches PreparedExpr::Slice { lower: lower_out, upper: upper_out, step: step_out } && (match (lower, lower_out) { (Some(x), Some(y)) => prepares_expr(model, *x, *y), (None, None) => true, _ => false }) && match (match lower { Some(inner) => after_expr(model, *inner), None => Ok(model) }) {
            Err(_) => false,
            Ok(m1) => (match (upper, upper_out) { (Some(x), Some(y)) => prepares_expr(m1, *x, *y), (None, None) => true, _ => false }) && match (match upper { Some(inner) => after_expr(m1, *inner), None => Ok(m1) }) {
                Err(_) => false,
                Ok(m2) => (match (step, step_out) { (Some(x), Some(y)) => prepares_expr(m2, *x, *y), (None, None) => true, _ => false }),
            },
        },
        Expr::Named { target, value } => out.expr matches PreparedExpr::Named { target: target_out, value: value_out } && prepares_expr(model, *value, *value_out) && match after_expr(model, *value) {
            Err(_) => false,
            Ok(m1) => match stored_by_walrus(m1, target) {
                Err(_) => false,
                Ok((_, name)) => name == target_out,
            },
        },
        Expr::Name(ident) => match resolved_read(model, ident) {
            Err(_) => false,
            Ok((_, PreparedCallable::Builtin(builtin))) => out.expr == PreparedExpr::Builtin(builtin),
            Ok((_, PreparedCallable::Name(name))) => out.expr == PreparedExpr::Name(name),
        },
        Expr::Call { callable, args } => out.expr matches PreparedExpr::Call { callable: callable_out, args: args_out }
            && prepares_args(model, *args, *args_out) && match after_args(model, *args) {
            Err(_) => false,
            Ok(m1) => match callable {
                Callable::Builtin(builtin) => callable_out == PreparedCallable::Builtin(builtin),
                Callable::Name(ident) => match resolved_read(m1, ident) {
                    Err(_) => false,
                    Ok((_, name)) => callable_out == name,
                },
            },
        },
        Expr::ListComp { elt, generators } => out.expr matches PreparedExpr::ListComp {
            elt: elt_out,
            generators: generators_out,
            captured_slots,
        } && prepares_generators(model, *generators, bound_in_expr(*elt), *generators_out) && match after_generators(
            model,
            *generators,
            bound_in_expr(*elt),
        ) {
            Err(_) => false,
            Ok(m1) => prepares_expr(m1, *elt, *elt_out) && match after_expr(m1, *elt) {
                Err(_) => false,
                Ok(m2) => captured_slots@ == m2.comp_scopes.last().captured(),
            },
        },
        Expr::SetComp { elt, generators } => out.expr matches PreparedExpr::SetComp {
            elt: elt_out,
            generators: generators_out,
            captured_slots,
        } && prepares_generators(model, *generators, bound_in_expr(*elt), *generators_out) && match after_generators(
            model,
            *generators,
            bound_in_expr(*elt),
        ) {
            Err(_) => false,
            Ok(m1) => prepares_expr(m1, *elt, *elt_out) && match after_expr(m1, *elt) {
                Err(_) => false,
                Ok(m2) => captured_slots@ == m2.comp_scopes.last().captured(),
            },
        },
        Expr::DictComp { key, value, generators } => out.expr matches PreparedExpr::DictComp {
            key: key_out,
            value: value_out,
            generators: generators_out,
            captured_slots,
        } && prepares_generators(model, *generators, bound_in_expr(*key) + bound_in_expr(*value), *generators_out)
            && match after_generators(model, *generators, bound_in_expr(*key) + bound_in_expr(*value)) {
            Err(_) => false,
            Ok(m1) => prepares_expr(m1, *key, *key_out) && match after_expr(m1, *key) {
                Err(_) => false,
                Ok(m2) => prepares_expr(m2, *value, *value_out) && match after_expr(m2, *value) {
                    Err(_) => false,
                    Ok(m3) => captured_slots@ == m3.comp_scopes.last().captured(),
                },
            },
        },
        Expr::LambdaRaw(def) => out.expr matches PreparedExpr::Lambda { func_def } && prepares_lambda(
            model,
            *def,
            it.position,
            *func_def,
        ),
        Expr::GeneratorExpRaw(def) => out.expr matches PreparedExpr::GeneratorExp { func_def, iter }
            && prepares_generator_def(model, *def, it.position, *func_def, *iter),
    }
}

/// The state after the argument list of a call was prepared.
pub open spec fn after_args(model: Model, it: ArgExprs) -> Outcome
    decreases it, 1int,
{
    args_step(model, it)
}

/// The same, in terms of the parts.
pub open spec fn args_step(model: Model, it: ArgExprs) -> Outcome
    decreases it, 0int,
{
    match it {
        ArgExprs::Empty => Ok(model),
        ArgExprs::One(arg) => after_expr(model, arg),
        ArgExprs::Two(arg1, arg2) => match after_expr(model, arg1) {
            Err(error) => Err(error),
            Ok(m1) => after_expr(m1, arg2),
        },
        ArgExprs::Args(args) => after_exprs(model, args@),
        ArgExprs::Kwargs(kwargs) => after_kwargs(model, kwargs@),
        ArgExprs::ArgsKargs { args, kwargs, var_args, var_kwargs } => match (match args { Some(inner) => after_exprs(model, inner@), None => Ok(model) }) {
            Err(error) => Err(error),
            Ok(m1) => match (match kwargs { Some(inner) => after_kwargs(m1, inner@), None => Ok(m1) }) {
                Err(error) => Err(error),
                Ok(m2) => match (match var_args { Some(inner) => after_expr(m2, inner), None => Ok(m2) }) {
                    Err(error) => Err(error),
                    Ok(m3) => (match var_kwargs { Some(inner) => after_expr(m3, inner), None => Ok(m3) }),
                },
            },
        },
        ArgExprs::GeneralizedCall { args, kwargs } => match after_call_args(model, args@) {
            Err(error) => Err(error),
            Ok(m1) => after_call_kwargs(m1, kwargs@),
        },
    }
}

/// `out` is the argument list of a call with every name resolved.
pub open spec fn prepares_args(model: Model, it: ArgExprs, out: PreparedArgs) -> bool
    decreases it, 1int,
{
    args_tree(model, it, out)
}

/// The same, in terms of the parts.
pub open spec fn args_tree(model: Model, it: ArgExprs, out: PreparedArgs) -> bool
    decreases it, 0int,
{
    match it {
        ArgExprs::Empty => out == PreparedArgs::Empty,
        ArgExprs::One(arg) => out matches PreparedArgs::One(arg_out) && prepares_expr(model, arg, arg_out),
        ArgExprs::Two(arg1, arg2) => out matches PreparedArgs::Two(arg1_out, arg2_out) && prepares_expr(model, arg1, arg1_out) && match after_expr(model, arg1) {
            Err(_) => false,
            Ok(m1) => prepares_expr(m1, arg2, arg2_out),
        },
        ArgExprs::Args(args) => out matches PreparedArgs::Args(args_out) && prepares_exprs(model, args@, args_out@),
        ArgExprs::Kwargs(kwargs) => out matches PreparedArgs::Kwargs(kwargs_out) && prepares_kwargs(model, kwargs@, kwargs_out@),
        ArgExprs::ArgsKargs { args, kwargs, var_args, var_kwargs } => out matches PreparedArgs::ArgsKargs { args: args_out, kwargs: kwargs_out, var_args: var_args_out, var_kwargs: var_kwargs_out } && (match (args, args_out) { (Some(x), Some(y)) => prepares_exprs(model, x@, y@), (None, None) => true, _ => false }) && match (match args { Some(inner) => after_exprs(model, inner@), None => Ok(model) }) {
            Err(_) => false,
            Ok(m1) => (match (kwargs, kwargs_out) { (Some(x), Some(y)) => prepares_kwargs(m1, x@, y@), (None, None) => true, _ => false }) && match (match kwargs { Some(inner) => after_kwargs(m1, inner@), None => Ok(m1) }) {
                Err(_) => false,
                Ok(m2) => (match (var_args, var_args_out) { (Some(x), Some(y)) => prepares_expr(m2, x, y), (None, None) => true, _ => false }) && match (match var_args { Some(inner) => after_expr(m2, inner), None => Ok(m2) }) {
                    Err(_) => false,
                    Ok(m3) => (match (var_kwargs, var_kwargs_out) { (Some(x), Some(y)) => prepares_expr(m3, x, y), (None, None) => true, _ => false }),
                },
            },
        },
        ArgExprs::GeneralizedCall { args, kwargs } => out matches PreparedArgs::GeneralizedCall { args: args_out, kwargs: kwargs_out } && prepares_call_args(model, args@, args_out@) && match after_call_args(model, args@) {
            Err(_) => false,
            Ok(m1) => prepares_call_kwargs(m1, kwargs@, kwargs_out@),
        },
    }
}

/// The state after an element of a display was prepared.
pub open spec fn after_item(model: Model, it: SequenceItem) -> Outcome
    decreases it, 1int,
{
    item_step(model, it)
}

/// The same, in terms of the parts.
pub open spec fn item_step(model: Model, it: SequenceItem) -> Outcome
    decreases it, 0int,
{
    match it {
        SequenceItem::Value(value) => after_expr(model, value),
        SequenceItem::Unpack(value) => after_expr(model, value),
    }
}

/// `out` is an element of a display with every name resolved.
pub open spec fn prepares_item(model: Model, it: SequenceItem, out: PreparedSequenceItem) -> bool
    decreases it, 1int,
{
    item_tree(model, it, out)
}

/// The same, in terms of the parts.
pub open spec fn item_tree(model: Model, it: SequenceItem, out: PreparedSequenceItem) -> bool
    decreases it, 0int,
{
    match it {
        SequenceItem::Value(value) => out matches PreparedSequenceItem::Value(value_out) && prepares_expr(model, value, value_out),
        SequenceItem::Unpack(value) => out matches PreparedSequenceItem::Unpack(value_out) && prepares_expr(model, value, value_out),
    }
}

/// The state after an entry of a dict display was prepared.
pub open spec fn after_dict_item(model: Model, it: DictItem) -> Outcome
    decreases it, 1int,
{
    dict_item_step(model, it)
}

/// The same, in terms of the parts.
pub open spec fn dict_item_step(model: Model, it: DictItem) -> Outcome
    decreases it, 0int,
{
    match it {
        DictItem::Pair(key, value) => match after_expr(model, key) {
            Err(error) => Err(error),
            Ok(m1) => after_expr(m1, value),
        },
        DictItem::Unpack(value) => after_expr(model, value),
    }
}

/// `out` is an entry of a dict display with every name resolved.
pub open spec fn prepares_dict_item(model: Model, it: DictItem, out: PreparedDictItem) -> bool
    decreases it, 1int,
{
    dict_item_tree(model, it, out)
}

/// The same, in terms of the parts.
pub open spec fn dict_item_tree(model: Model, it: DictItem, out: PreparedDictItem) -> bool
    decreases it, 0int,
{
    match it {
        DictItem::Pair(key, value) => out matches PreparedDictItem::Pair(key_out, value_out) && prepares_expr(model, key, key_out) && match after_expr(model, key) {
            Err(_) => false,
            Ok(m1) => prepares_expr(m1, value, value_out),
        },
        DictItem::Unpack(value) => out matches PreparedDictItem::Unpack(value_out) && prepares_expr(model, value, value_out),
    }
}

/// The state after a positional argument was prepared.
pub open spec fn after_call_arg(model: Model, it: CallArg) -> Outcome
    decreases it, 1int,
{
    call_arg_step(model, it)
}

/// The same, in terms of the parts.
pub open spec fn call_arg_step(model: Model, it: CallArg) -> Outcome
    decreases it, 0int,
{
    match it {
        CallArg::Value(value) => after_expr(model, value),
        CallArg::Unpack(value) => after_expr(model, value),
    }
}

/// `out` is a positional argument with every name resolved.
pub open spec fn prepares_call_arg(model: Model, it: CallArg, out: PreparedCallArg) -> bool
    decreases it, 1int,
{
    call_arg_tree(model, it, out)
}

/// The same, in terms of the parts.
pub open spec fn call_arg_tree(model: Model, it: CallArg, out: PreparedCallArg) -> bool
    decreases it, 0int,
{
    match it {
        CallArg::Value(value) => out matches PreparedCallArg::Value(value_out) && prepares_expr(model, value, value_out),
        CallArg::Unpack(value) => out matches PreparedCallArg::Unpack(value_out) && prepares_expr(model, value, value_out),
    }
}

/// The state after a keyword argument or unpacking was prepared.
pub open spec fn after_call_kwarg(model: Model, it: CallKwarg) -> Outcome
    decreases it, 1int,
{
    call_kwarg_step(model, it)
}

/// The same, in terms of the parts.
pub open spec fn call_kwarg_step(model: Model, it: CallKwarg) -> Outcome
    decreases it, 0int,
{
    match it {
        CallKwarg::Named(kwarg) => after_expr(model, kwarg.value),
        CallKwarg::Unpack(value) => after_expr(model, value),
    }
}

/// `out` is a keyword argument or unpacking with every name resolved.
pub open spec fn prepares_call_kwarg(model: Model, it: CallKwarg, out: PreparedCallKwarg) -> bool
    decreases it, 1int,
{
    call_kwarg_tree(model, it, out)
}

/// The same, in terms of the parts.
pub open spec fn call_kwarg_tree(model: Model, it: CallKwarg, out: PreparedCallKwarg) -> bool
    decreases it, 0int,
{
    match it {
        CallKwarg::Named(kwarg) => out matches PreparedCallKwarg::Named(kwarg_out) && kwarg_out.key == kwarg.key
            && prepares_expr(model, kwarg.value, kwarg_out.value),
        CallKwarg::Unpack(value) => out matches PreparedCallKwarg::Unpack(value_out) && prepares_expr(
            model,
            value,
            value_out,
        ),
    }
}

/// The state after a part of a formatted string was prepared.
pub open spec fn after_fstring_part(model: Model, it: FStringPart) -> Outcome
    decreases it, 1int,
{
    fstring_part_step(model, it)
}

/// The same, in terms of the parts.
pub open spec fn fstring_part_step(model: Model, it: FStringPart) -> Outcome
    decreases it, 0int,
{
    match it {
        FStringPart::Literal(_) => Ok(model),
        FStringPart::Interpolation { expr, format_spec, .. } => match after_expr(model, *expr) {
            Err(error) => Err(error),
            Ok(m1) => match format_spec {
                Some(FormatSpec::Dynamic(parts)) => after_fstring_parts(m1, parts@),
                Some(FormatSpec::Static(_)) => Ok(m1),
                None => Ok(m1),
            },
        },
    }
}

/// `out` is a part of a formatted string with every name resolved.
pub open spec fn prepares_fstring_part(model: Model, it: FStringPart, out: PreparedFStringPart) -> bool
    decreases it, 1int,
{
    fstring_part_tree(model, it, out)
}

/// The same, in terms of the parts.
pub open spec fn fstring_part_tree(model: Model, it: FStringPart, out: PreparedFStringPart) -> bool
    decreases it, 0int,
{
    match it {
        FStringPart::Literal(text) => out == PreparedFStringPart::Literal(text),
        FStringPart::Interpolation { expr, conversion, format_spec, debug_prefix } => out matches
            PreparedFStringPart::Interpolation {
            expr: expr_out,
            conversion: conversion_out,
            format_spec: spec_out,
            debug_prefix: prefix_out,
        } && conversion_out == conversion && prefix_out == debug_prefix && prepares_expr(model, *expr, *expr_out)
            && match after_expr(model, *expr) {
            Err(_) => false,
            Ok(m1) => match format_spec {
                Some(FormatSpec::Dynamic(parts)) => spec_out matches Some(PreparedFormatSpec::Dynamic(parts_out))
                    && prepares_fstring_parts(m1, parts@, parts_out@),
                Some(FormatSpec::Static(text)) => spec_out == Some(PreparedFormatSpec::Static(text)),
                None => spec_out is None,
            },
        },
    }
}

/// The state after the expressions of a list were prepared from left to right.
pub open spec fn after_exprs(model: Model, list: Seq<ExprLoc>) -> Outcome
    decreases list, 1int,
{
    exprs_step(model, list)
}

/// The same, in terms of the parts.
pub open spec fn exprs_step(model: Model, list: Seq<ExprLoc>) -> Outcome
    decreases list, 0int,
{
    if list.len() == 0 {
        Ok(model)
    } else {
        match after_exprs(model, list.drop_last()) {
            Err(error) => Err(error),
            Ok(before) => after_expr(before, list.last()),
        }
    }
}

/// `out` is the expressions of a list with every name resolved.
pub open spec fn prepares_exprs(model: Model, list: Seq<ExprLoc>, out: Seq<PreparedExprLoc>) -> bool
    decreases list, 1int,
{
    exprs_tree(model, list, out)
}

/// The same, in terms of the parts.
pub open spec fn exprs_tree(model: Model, list: Seq<ExprLoc>, out: Seq<PreparedExprLoc>) -> bool
    decreases list, 0int,
{
    out.len() == list.len() && (list.len() == 0 || prepares_exprs(model, list.drop_last(), out.drop_last()) && match after_exprs(
        model,
        list.drop_last(),
    ) {
        Err(_) => false,
        Ok(before) => prepares_expr(before, list.last(), out.last()),
    })
}

/// The first error ends the preparation of a list.
pub proof fn lemma_exprs_error(model: Model, list: Seq<ExprLoc>, count: int)
    requires
        0 <= count <= list.len(),
        after_exprs(model, list.take(count)) is Err,
    ensures
        after_exprs(model, list) == after_exprs(model, list.take(count)),
    decreases list.len() - count,
{
    if count < list.len() {
        let longer = list.take(count + 1);
        assert(longer.drop_last() == list.take(count));
        assert(after_exprs(model, longer) == exprs_step(model, longer));
        lemma_exprs_error(model, list, count + 1);
    } else {
        assert(list.take(count) == list);
    }
}

/// The state after the elements of a display were prepared from left to right.
pub open spec fn after_items(model: Model, list: Seq<SequenceItem>) -> Outcome
    decreases list, 1int,
{
    items_step(model, list)
}

/// The same, in terms of the parts.
pub open spec fn items_step(model: Model, list: Seq<SequenceItem>) -> Outcome
    decreases list, 0int,
{
    if list.len() == 0 {
        Ok(model)
    } else {
        match after_items(model, list.drop_last()) {
            Err(error) => Err(error),
            Ok(before) => after_item(before, list.last()),
        }
    }
}

/// `out` is the elements of a display with every name resolved.
pub open spec fn prepares_items(model: Model, list: Seq<SequenceItem>, out: Seq<PreparedSequenceItem>) -> bool
    decreases list, 1int,
{
    items_tree(model, list, out)
}

/// The same, in terms of the parts.
pub open spec fn items_tree(model: Model, list: Seq<SequenceItem>, out: Seq<PreparedSequenceItem>) -> bool
    decreases list, 0int,
{
    out.len() == list.len() && (list.len() == 0 || prepares_items(model, list.drop_last(), out.drop_last()) && match after_items(
        model,
        list.drop_last(),
    ) {
        Err(_) => false,
        Ok(before) => prepares_item(before, list.last(), out.last()),
    })
}

/// The first error ends the preparation of a list.
pub proof fn lemma_items_error(model: Model, list: Seq<SequenceItem>, count: int)
    requires
        0 <= count <= list.len(),
        after_items(model, list.take(count)) is Err,
    ensures
        after_items(model, list) == after_items(model, list.take(count)),
    decreases list.len() - count,
{
    if count < list.len() {
        let longer = list.take(count + 1);
        assert(longer.drop_last() == list.take(count));
        assert(after_items(model, longer) == items_step(model, longer));
        lemma_items_error(model, list, count + 1);
    } else {
        assert(list.take(count) == list);
    }
}

/// The state after the entries of a dict display were prepared from left to right.
pub open spec fn after_dict_items(model: Model, list: Seq<DictItem>) -> Outcome
    decreases list, 1int,
{
    dict_items_step(model, list)
}

/// The same, in terms of the parts.
pub open spec fn dict_items_step(model: Model, list: Seq<DictItem>) -> Outcome
    decreases list, 0int,
{
    if list.len() == 0 {
        Ok(model)
    } else {
        match after_dict_items(model, list.drop_last()) {
            Err(error) => Err(error),
            Ok(before) => after_dict_item(before, list.last()),
        }
    }
}

/// `out` is the entries of a dict display with every name resolved.
pub open spec fn prepares_dict_items(model: Model, list: Seq<DictItem>, out: Seq<PreparedDictItem>) -> bool
    decreases list, 1int,
{
    dict_items_tree(model, list, out)
}

/// The same, in terms of the parts.
pub open spec fn dict_items_tree(model: Model, list: Seq<DictItem>, out: Seq<PreparedDictItem>) -> bool
    decreases list, 0int,
{
    out.len() == list.len() && (list.len() == 0 || prepares_dict_items(model, list.drop_last(), out.drop_last()) && match after_dict_items(
        model,
        list.drop_last(),
    ) {
        Err(_) => false,
        Ok(before) => prepares_dict_item(before, list.last(), out.last()),
    })
}

/// The first error ends the preparation of a list.
pub proof fn lemma_dict_items_error(model: Model, list: Seq<DictItem>, count: int)
    requires
        0 <= count <= list.len(),
        after_dict_items(model, list.take(count)) is Err,
    ensures
        after_dict_items(model, list) == after_dict_items(model, list.take(count)),
    decreases list.len() - count,
{
    if count < list.len() {
        let longer = list.take(count + 1);
        assert(longer.drop_last() == list.take(count));
        assert(after_dict_items(model, longer) == dict_items_step(model, longer));
        lemma_dict_items_error(model, list, count + 1);
    } else {
        assert(list.take(count) == list);
    }
}

/// The state after the operands of a comparison chain were prepared from left to right.
pub open spec fn after_comparisons(model: Model, list: Seq<(CmpOperator, ExprLoc)>) -> Outcome
    decreases list, 1int,
{
    comparisons_step(model, list)
}

/// The same, in terms of the parts.
pub open spec fn comparisons_step(model: Model, list: Seq<(CmpOperator, ExprLoc)>) -> Outcome
    decreases list, 0int,
{
    if list.len() == 0 {
        Ok(model)
    } else {
        match after_comparisons(model, list.drop_last()) {
            Err(error) => Err(error),
            Ok(before) => after_expr(before, list.last().1),
        }
    }
}

/// `out` is the operands of a comparison chain with every name resolved.
pub open spec fn prepares_comparisons(model: Model, list: Seq<(CmpOperator, ExprLoc)>, out: Seq<(CmpOperator, PreparedExprLoc)>) -> bool
    decreases list, 1int,
{
    comparisons_tree(model, list, out)
}

/// The same, in terms of the parts.
pub open spec fn comparisons_tree(model: Model, list: Seq<(CmpOperator, ExprLoc)>, out: Seq<(CmpOperator, PreparedExprLoc)>) -> bool
    decreases list, 0int,
{
    out.len() == list.len() && (list.len() == 0 || prepares_comparisons(model, list.drop_last(), out.drop_last()) && match after_comparisons(
        model,
        list.drop_last(),
    ) {
        Err(_) => false,
        Ok(before) => out.last().0 == list.last().0 && prepares_expr(before, list.last().1, out.last().1),
    })
}

/// The first error ends the preparation of a list.
pub proof fn lemma_comparisons_error(model: Model, list: Seq<(CmpOperator, ExprLoc)>, count: int)
    requires
        0 <= count <= list.len(),
        after_comparisons(model, list.take(count)) is Err,
    ensures
        after_comparisons(model, list) == after_comparisons(model, list.take(count)),
    decreases list.len() - count,
{
    if count < list.len() {
        let longer = list.take(count + 1);
        assert(longer.drop_last() == list.take(count));
        assert(after_comparisons(model, longer) == comparisons_step(model, longer));
        lemma_comparisons_error(model, list, count + 1);
    } else {
        assert(list.take(count) == list);
    }
}

/// The state after the keyword arguments of a call were prepared from left to right.
pub open spec fn after_kwargs(model: Model, list: Seq<Kwarg>) -> Outcome
    decreases list, 1int,
{
    kwargs_step(model, list)
}

/// The same, in terms of the parts.
pub open spec fn kwargs_step(model: Model, list: Seq<Kwarg>) -> Outcome
    decreases list, 0int,
{
    if list.len() == 0 {
        Ok(model)
    } else {
        match after_kwargs(model, list.drop_last()) {
            Err(error) => Err(error),
            Ok(before) => after_expr(before, list.last().value),
        }
    }
}

/// `out` is the keyword arguments of a call with every name resolved.
pub open spec fn prepares_kwargs(model: Model, list: Seq<Kwarg>, out: Seq<PreparedKwarg>) -> bool
    decreases list, 1int,
{
    kwargs_tree(model, list, out)
}

/// The same, in terms of the parts.
pub open spec fn kwargs_tree(model: Model, list: Seq<Kwarg>, out: Seq<PreparedKwarg>) -> bool
    decreases list, 0int,
{
    out.len() == list.len() && (list.len() == 0 || prepares_kwargs(model, list.drop_last(), out.drop_last()) && match after_kwargs(
        model,
        list.drop_last(),
    ) {
        Err(_) => false,
        Ok(before) => out.last().key == list.last().key && prepares_expr(
            before,
            list.last().value,
            out.last().value,
        ),
    })
}

/// The first error ends the preparation of a list.
pub proof fn lemma_kwargs_error(model: Model, list: Seq<Kwarg>, count: int)
    requires
        0 <= count <= list.len(),
        after_kwargs(model, list.take(count)) is Err,
    ensures
        after_kwargs(model, list) == after_kwargs(model, list.take(count)),
    decreases list.len() - count,
{
    if count < list.len() {
        let longer = list.take(count + 1);
        assert(longer.drop_last() == list.take(count));
        assert(after_kwargs(model, longer) == kwargs_step(model, longer));
        lemma_kwargs_error(model, list, count + 1);
    } else {
        assert(list.take(count) == list);
    }
}

/// The state after the positional arguments and unpackings of a call were prepared from left to right.
pub open spec fn after_call_args(model: Model, list: Seq<CallArg>) -> Outcome
    decreases list, 1int,
{
    call_args_step(model, list)
}

/// The same, in terms of the parts.
pub open spec fn call_args_step(model: Model, list: Seq<CallArg>) -> Outcome
    decreases list, 0int,
{
    if list.len() == 0 {
        Ok(model)
    } else {
        match after_call_args(model, list.drop_last()) {
            Err(error) => Err(error),
            Ok(before) => after_call_arg(before, list.last()),
        }
    }
}

/// `out` is the positional arguments and unpackings of a call with every name resolved.
pub open spec fn prepares_call_args(model: Model, list: Seq<CallArg>, out: Seq<PreparedCallArg>) -> bool
    decreases list, 1int,
{
    call_args_tree(model, list, out)
}

/// The same, in terms of the parts.
pub open spec fn call_args_tree(model: Model, list: Seq<CallArg>, out: Seq<PreparedCallArg>) -> bool
    decreases list, 0int,
{
    out.len() == list.len() && (list.len() == 0 || prepares_call_args(model, list.drop_last(), out.drop_last()) && match after_call_args(
        model,
        list.drop_last(),
    ) {
        Err(_) => false,
        Ok(before) => prepares_call_arg(before, list.last(), out.last()),
    })
}

/// The first error ends the preparation of a list.
pub proof fn lemma_call_args_error(model: Model, list: Seq<CallArg>, count: int)
    requires
        0 <= count <= list.len(),
        after_call_args(model, list.take(count)) is Err,
    ensures
        after_call_args(model, list) == after_call_args(model, list.take(count)),
    decreases list.len() - count,
{
    if count < list.len() {
        let longer = list.take(count + 1);
        assert(longer.drop_last() == list.take(count));
        assert(after_call_args(model, longer) == call_args_step(model, longer));
        lemma_call_args_error(model, list, count + 1);
    } else {
        assert(list.take(count) == list);
    }
}

/// The state after the keyword arguments and unpackings of a call were prepared from left to right.
pub open spec fn after_call_kwargs(model: Model, list: Seq<CallKwarg>) -> Outcome
    decreases list, 1int,
{
    call_kwargs_step(model, list)
}

/// The same, in terms of the parts.
pub open spec fn call_kwargs_step(model: Model, list: Seq<CallKwarg>) -> Outcome
    decreases list, 0int,
{
    if list.len() == 0 {
        Ok(model)
    } else {
        match after_call_kwargs(model, list.drop_last()) {
            Err(error) => Err(error),
            Ok(before) => after_call_kwarg(before, list.last()),
        }
    }
}

/// `out` is the keyword arguments and unpackings of a call with every name resolved.
pub open spec fn prepares_call_kwargs(model: Model, list: Seq<CallKwarg>, out: Seq<PreparedCallKwarg>) -> bool
    decreases list, 1int,
{
    call_kwargs_tree(model, list, out)
}

/// The same, in terms of the parts.
pub open spec fn call_kwargs_tree(model: Model, list: Seq<CallKwarg>, out: Seq<PreparedCallKwarg>) -> bool
    decreases list, 0int,
{
    out.len() == list.len() && (list.len() == 0 || prepares_call_kwargs(model, list.drop_last(), out.drop_last()) && match after_call_kwargs(
        model,
        list.drop_last(),
    ) {
        Err(_) => false,
        Ok(before) => prepares_call_kwarg(before, list.last(), out.last()),
    })
}

/// The first error ends the preparation of a list.
pub proof fn lemma_call_kwargs_error(model: Model, list: Seq<CallKwarg>, count: int)
    requires
        0 <= count <= list.len(),
        after_call_kwargs(model, list.take(count)) is Err,
    ensures
        after_call_kwargs(model, list) == after_call_kwargs(model, list.take(count)),
    decreases list.len() - count,
{
    if count < list.len() {
        let longer = list.take(count + 1);
        assert(longer.drop_last() == list.take(count));
        assert(after_call_kwargs(model, longer) == call_kwargs_step(model, longer));
        lemma_call_kwargs_error(model, list, count + 1);
    } else {
        assert(list.take(count) == list);
    }
}

/// The state after the parts of a formatted string were prepared from left to right.
pub open spec fn after_fstring_parts(model: Model, list: Seq<FStringPart>) -> Outcome
    decreases list, 1int,
{
    fstring_parts_step(model, list)
}

/// The same, in terms of the parts.
pub open spec fn fstring_parts_step(model: Model, list: Seq<FStringPart>) -> Outcome
    decreases list, 0int,
{
    if list.len() == 0 {
        Ok(model)
    } else {
        match after_fstring_parts(model, list.drop_last()) {
            Err(error) => Err(error),
            Ok(before) => after_fstring_part(before, list.last()),
        }
    }
}

/// `out` is the parts of a formatted string with every name resolved.
pub open spec fn prepares_fstring_parts(model: Model, list: Seq<FStringPart>, out: Seq<PreparedFStringPart>) -> bool
    decreases list, 1int,
{
    fstring_parts_tree(model, list, out)
}

/// The same, in terms of the parts.
pub open spec fn fstring_parts_tree(model: Model, list: Seq<FStringPart>, out: Seq<PreparedFStringPart>) -> bool
    decreases list, 0int,
{
    out.len() == list.len() && (list.len() == 0 || prepares_fstring_parts(model, list.drop_last(), out.drop_last()) && match after_fstring_parts(
        model,
        list.drop_last(),
    ) {
        Err(_) => false,
        Ok(before) => prepares_fstring_part(before, list.last(), out.last()),
    })
}

/// The first error ends the preparation of a list.
pub proof fn lemma_fstring_parts_error(model: Model, list: Seq<FStringPart>, count: int)
    requires
        0 <= count <= list.len(),
        after_fstring_parts(model, list.take(count)) is Err,
    ensures
        after_fstring_parts(model, list) == after_fstring_parts(model, list.take(count)),
    decreases list.len() - count,
{
    if count < list.len() {
        let longer = list.take(count + 1);
        assert(longer.drop_last() == list.take(count));
        assert(after_fstring_parts(model, longer) == fstring_parts_step(model, longer));
        lemma_fstring_parts_error(model, list, count + 1);
    } else {
        assert(list.take(count) == list);
    }
}

/// The state after the fields of a template were prepared from left to right.
pub open spec fn after_interpolations(model: Model, list: Seq<TemplateInterpolation>) -> Outcome
    decreases list, 1int,
{
    interpolations_step(model, list)
}

/// The same, in terms of the parts.
pub open spec fn interpolations_step(model: Model, list: Seq<TemplateInterpolation>) -> Outcome
    decreases list, 0int,
{
    if list.len() == 0 {
        Ok(model)
    } else {
        match after_interpolations(model, list.drop_last()) {
            Err(error) => Err(error),
            Ok(before) => match after_expr(before, *list.last().expr) {
                Err(error) => Err(error),
                Ok(m1) => after_fstring_parts(m1, list.last().format_spec@),
            },
        }
    }
}

/// `out` is the fields of a template with every name resolved.
pub open spec fn prepares_interpolations(model: Model, list: Seq<TemplateInterpolation>, out: Seq<PreparedInterpolation>) -> bool
    decreases list, 1int,
{
    interpolations_tree(model, list, out)
}

/// The same, in terms of the parts.
pub open spec fn interpolations_tree(model: Model, list: Seq<TemplateInterpolation>, out: Seq<PreparedInterpolation>) -> bool
    decreases list, 0int,
{
    out.len() == list.len() && (list.len() == 0 || prepares_interpolations(model, list.drop_last(), out.drop_last()) && match after_interpolations(
        model,
        list.drop_last(),
    ) {
        Err(_) => false,
        Ok(before) => out.last().expression == list.last().expression && out.last().conversion == list.last().conversion
            && prepares_expr(before, *list.last().expr, *out.last().expr) && match after_expr(before, *list.last().expr) {
            Err(_) => false,
            Ok(m1) => prepares_fstring_parts(m1, list.last().format_spec@, out.last().format_spec@),
        },
    })
}

/// The first error ends the preparation of a list.
pub proof fn lemma_interpolations_error(model: Model, list: Seq<TemplateInterpolation>, count: int)
    requires
        0 <= count <= list.len(),
        after_interpolations(model, list.take(count)) is Err,
    ensures
        after_interpolations(model, list) == after_interpolations(model, list.take(count)),
    decreases list.len() - count,
{
    if count < list.len() {
        let longer = list.take(count + 1);
        assert(longer.drop_last() == list.take(count));
        assert(after_interpolations(model, longer) == interpolations_step(model, longer));
        lemma_interpolations_error(model, list, count + 1);
    } else {
        assert(list.take(count) == list);
    }
}

/// The state after a binding target was prepared.
pub open spec fn after_target(model: Model, it: UnpackTarget) -> Outcome
    decreases it, 1int,
{
    target_step(model, it)
}

/// The same, in terms of the parts.
pub open spec fn target_step(model: Model, it: UnpackTarget) -> Outcome
    decreases it, 0int,
{
    match it {
        UnpackTarget::Name(ident) => match stored(model, ident) {
            Err(error) => Err(error),
            Ok((m1, _)) => Ok(m1),
        },
        UnpackTarget::Starred(ident) => match stored(model, ident) {
            Err(error) => Err(error),
            Ok((m1, _)) => Ok(m1),
        },
        UnpackTarget::Attr { object, .. } => after_expr(model, object),
        UnpackTarget::Subscript { object, index, .. } => match after_expr(model, object) {
            Err(error) => Err(error),
            Ok(m1) => after_expr(m1, index),
        },
        UnpackTarget::Tuple { targets, .. } => after_targets(model, targets@),
    }
}

/// `out` is a binding target with every name resolved.
pub open spec fn prepares_target(model: Model, it: UnpackTarget, out: PreparedTarget) -> bool
    decreases it, 1int,
{
    target_tree(model, it, out)
}

/// The same, in terms of the parts.
pub open spec fn target_tree(model: Model, it: UnpackTarget, out: PreparedTarget) -> bool
    decreases it, 0int,
{
    match it {
        UnpackTarget::Name(ident) => out matches PreparedTarget::Name(ident_out) && match stored(model, ident) {
            Err(_) => false,
            Ok((_, name)) => name == ident_out,
        },
        UnpackTarget::Starred(ident) => out matches PreparedTarget::Starred(ident_out) && match stored(model, ident) {
            Err(_) => false,
            Ok((_, name)) => name == ident_out,
        },
        UnpackTarget::Attr { object, attr, position } => out matches PreparedTarget::Attr { object: object_out, attr: attr_out, position: position_out } && attr_out == attr && position_out == position && prepares_expr(model, object, object_out),
        UnpackTarget::Subscript { object, index, position } => out matches PreparedTarget::Subscript { object: object_out, index: index_out, position: position_out } && position_out == position && prepares_expr(model, object, object_out) && match after_expr(model, object) {
            Err(_) => false,
            Ok(m1) => prepares_expr(m1, index, index_out),
        },
        UnpackTarget::Tuple { targets, position } => out matches PreparedTarget::Tuple { targets: targets_out, position: position_out } && position_out == position && prepares_targets(model, targets@, targets_out@),
    }
}

/// The state after the binding targets of a list were prepared from left to right.
pub open spec fn after_targets(model: Model, list: Seq<UnpackTarget>) -> Outcome
    decreases list, 1int,
{
    targets_step(model, list)
}

/// The same, in terms of the parts.
pub open spec fn targets_step(model: Model, list: Seq<UnpackTarget>) -> Outcome
    decreases list, 0int,
{
    if list.len() == 0 {
        Ok(model)
    } else {
        match after_targets(model, list.drop_last()) {
            Err(error) => Err(error),
            Ok(before) => after_target(before, list.last()),
        }
    }
}

/// `out` is the binding targets of a list with every name resolved.
pub open spec fn prepares_targets(model: Model, list: Seq<UnpackTarget>, out: Seq<PreparedTarget>) -> bool
    decreases list, 1int,
{
    targets_tree(model, list, out)
}

/// The same, in terms of the parts.
pub open spec fn targets_tree(model: Model, list: Seq<UnpackTarget>, out: Seq<PreparedTarget>) -> bool
    decreases list, 0int,
{
    out.len() == list.len() && (list.len() == 0 || prepares_targets(model, list.drop_last(), out.drop_last()) && match after_targets(
        model,
        list.drop_last(),
    ) {
        Err(_) => false,
        Ok(before) => prepares_target(before, list.last(), out.last()),
    })
}

/// The first error ends the preparation of a list.
pub proof fn lemma_targets_error(model: Model, list: Seq<UnpackTarget>, count: int)
    requires
        0 <= count <= list.len(),
        after_targets(model, list.take(count)) is Err,
    ensures
        after_targets(model, list) == after_targets(model, list.take(count)),
    decreases list.len() - count,
{
    if count < list.len() {
        let longer = list.take(count + 1);
        assert(longer.drop_last() == list.take(count));
        assert(after_targets(model, longer) == targets_step(model, longer));
        lemma_targets_error(model, list, count + 1);
    } else {
        assert(list.take(count) == list);
    }
}

/// The state after a target of `del` was prepared.
pub open spec fn after_delete_target(model: Model, it: DeleteTarget) -> Outcome
    decreases it, 1int,
{
    delete_target_step(model, it)
}

/// The same, in terms of the parts.
pub open spec fn delete_target_step(model: Model, it: DeleteTarget) -> Outcome
    decreases it, 0int,
{
    match it {
        DeleteTarget::Name(ident) => match stored(model, ident) {
            Err(error) => Err(error),
            Ok((m1, _)) => Ok(m1),
        },
        DeleteTarget::Attr { object, .. } => after_expr(model, object),
        DeleteTarget::Subscript { object, index, .. } => match after_expr(model, object) {
            Err(error) => Err(error),
            Ok(m1) => after_expr(m1, index),
        },
    }
}

/// `out` is a target of `del` with every name resolved.
pub open spec fn prepares_delete_target(model: Model, it: DeleteTarget, out: PreparedDeleteTarget) -> bool
    decreases it, 1int,
{
    delete_target_tree(model, it, out)
}

/// The same, in terms of the parts.
pub open spec fn delete_target_tree(model: Model, it: DeleteTarget, out: PreparedDeleteTarget) -> bool
    decreases it, 0int,
{
    match it {
        DeleteTarget::Name(ident) => out matches PreparedDeleteTarget::Name(ident_out) && match stored(model, ident) {
            Err(_) => false,
            Ok((_, name)) => name == ident_out,
        },
        DeleteTarget::Attr { object, attr, position } => out matches PreparedDeleteTarget::Attr { object: object_out, attr: attr_out, position: position_out } && attr_out == attr && position_out == position && prepares_expr(model, object, object_out),
        DeleteTarget::Subscript { object, index, position } => out matches PreparedDeleteTarget::Subscript { object: object_out, index: index_out, position: position_out } && position_out == position && prepares_expr(model, object, object_out) && match after_expr(model, object) {
            Err(_) => false,
            Ok(m1) => prepares_expr(m1, index, index_out),
        },
    }
}

/// The state after the targets of `del` were prepared from left to right.
pub open spec fn after_delete_targets(model: Model, list: Seq<DeleteTarget>) -> Outcome
    decreases list, 1int,
{
    delete_targets_step(model, list)
}

/// The same, in terms of the parts.
pub open spec fn delete_targets_step(model: Model, list: Seq<DeleteTarget>) -> Outcome
    decreases list, 0int,
{
    if list.len() == 0 {
        Ok(model)
    } else {
        match after_delete_targets(model, list.drop_last()) {
            Err(error) => Err(error),
            Ok(before) => after_delete_target(before, list.last()),
        }
    }
}

/// `out` is the targets of `del` with every name resolved.
pub open spec fn prepares_delete_targets(model: Model, list: Seq<DeleteTarget>, out: Seq<PreparedDeleteTarget>) -> bool
    decreases list, 1int,
{
    delete_targets_tree(model, list, out)
}

/// The same, in terms of the parts.
pub open spec fn delete_targets_tree(model: Model, list: Seq<DeleteTarget>, out: Seq<PreparedDeleteTarget>) -> bool
    decreases list, 0int,
{
    out.len() == list.len() && (list.len() == 0 || prepares_delete_targets(model, list.drop_last(), out.drop_last()) && match after_delete_targets(
        model,
        list.drop_last(),
    ) {
        Err(_) => false,
        Ok(before) => prepares_delete_target(before, list.last(), out.last()),
    })
}

/// The first error ends the preparation of a list.
pub proof fn lemma_delete_targets_error(model: Model, list: Seq<DeleteTarget>, count: int)
    requires
        0 <= count <= list.len(),
        after_delete_targets(model, list.take(count)) is Err,
    ensures
        after_delete_targets(model, list) == after_delete_targets(model, list.take(count)),
    decreases list.len() - count,
{
    if count < list.len() {
        let longer = list.take(count + 1);
        assert(longer.drop_last() == list.take(count));
        assert(after_delete_targets(model, longer) == delete_targets_step(model, longer));
        lemma_delete_targets_error(model, list, count + 1);
    } else {
        assert(list.take(count) == list);
    }
}

/// The state after the names of a comprehension target were bound in the
/// innermost comprehension. Attributes and subscripts cannot be bound there.
pub open spec fn after_comp_target(model: Model, it: UnpackTarget) -> Outcome
    decreases it, 1int,
{
    comp_target_step(model, it)
}

/// The same, in terms of the parts.
pub open spec fn comp_target_step(model: Model, it: UnpackTarget) -> Outcome
    decreases it, 0int,
{
    match it {
        UnpackTarget::Name(ident) | UnpackTarget::Starred(ident) => match bound_comp_var(model, ident) {
            Err(error) => Err(error),
            Ok((after, _)) => Ok(after),
        },
        UnpackTarget::Tuple { targets, .. } => after_comp_targets(model, targets@),
        UnpackTarget::Attr { position, .. } | UnpackTarget::Subscript { position, .. } => Err(
            ParseError { kind: ParseErrorKind::ComprehensionTarget, position },
        ),
    }
}

/// `out` is a comprehension target with its names bound to scratch slots.
pub open spec fn prepares_comp_target(model: Model, it: UnpackTarget, out: PreparedTarget) -> bool
    decreases it, 1int,
{
    comp_target_tree(model, it, out)
}

/// The same, in terms of the parts.
pub open spec fn comp_target_tree(model: Model, it: UnpackTarget, out: PreparedTarget) -> bool
    decreases it, 0int,
{
    match it {
        UnpackTarget::Name(ident) => match bound_comp_var(model, ident) {
            Err(_) => false,
            Ok((_, name)) => out == PreparedTarget::Name(name),
        },
        UnpackTarget::Starred(ident) => match bound_comp_var(model, ident) {
            Err(_) => false,
            Ok((_, name)) => out == PreparedTarget::Starred(name),
        },
        UnpackTarget::Tuple { targets, position } => out matches PreparedTarget::Tuple {
            targets: targets_out,
            position: position_out,
        } && position_out == position && prepares_comp_targets(model, targets@, targets_out@),
        UnpackTarget::Attr { .. } | UnpackTarget::Subscript { .. } => false,
    }
}

/// The state after the targets of a comprehension tuple were prepared from left to right.
pub open spec fn after_comp_targets(model: Model, list: Seq<UnpackTarget>) -> Outcome
    decreases list, 1int,
{
    comp_targets_step(model, list)
}

/// The same, in terms of the parts.
pub open spec fn comp_targets_step(model: Model, list: Seq<UnpackTarget>) -> Outcome
    decreases list, 0int,
{
    if list.len() == 0 {
        Ok(model)
    } else {
        match after_comp_targets(model, list.drop_last()) {
            Err(error) => Err(error),
            Ok(before) => after_comp_target(before, list.last()),
        }
    }
}

/// `out` is the targets of a comprehension tuple with every name resolved.
pub open spec fn prepares_comp_targets(model: Model, list: Seq<UnpackTarget>, out: Seq<PreparedTarget>) -> bool
    decreases list, 1int,
{
    comp_targets_tree(model, list, out)
}

/// The same, in terms of the parts.
pub open spec fn comp_targets_tree(model: Model, list: Seq<UnpackTarget>, out: Seq<PreparedTarget>) -> bool
    decreases list, 0int,
{
    out.len() == list.len() && (list.len() == 0 || prepares_comp_targets(model, list.drop_last(), out.drop_last()) && match after_comp_targets(
        model,
        list.drop_last(),
    ) {
        Err(_) => false,
        Ok(before) => prepares_comp_target(before, list.last(), out.last()),
    })
}

/// The first error ends the preparation of a list.
pub proof fn lemma_comp_targets_error(model: Model, list: Seq<UnpackTarget>, count: int)
    requires
        0 <= count <= list.len(),
        after_comp_targets(model, list.take(count)) is Err,
    ensures
        after_comp_targets(model, list) == after_comp_targets(model, list.take(count)),
    decreases list.len() - count,
{
    if count < list.len() {
        let longer = list.take(count + 1);
        assert(longer.drop_last() == list.take(count));
        assert(after_comp_targets(model, longer) == comp_targets_step(model, longer));
        lemma_comp_targets_error(model, list, count + 1);
    } else {
        assert(list.take(count) == list);
    }
}

/// The state after the targets of later comprehension clauses were prepared from left to right.
pub open spec fn after_clause_targets(model: Model, list: Seq<Comprehension>) -> Outcome
    decreases list, 1int,
{
    clause_targets_step(model, list)
}

/// The same, in terms of the parts.
pub open spec fn clause_targets_step(model: Model, list: Seq<Comprehension>) -> Outcome
    decreases list, 0int,
{
    if list.len() == 0 {
        Ok(model)
    } else {
        match after_clause_targets(model, list.drop_last()) {
            Err(error) => Err(error),
            Ok(before) => after_comp_target(before, list.last().target),
        }
    }
}

/// `out` is the targets of later comprehension clauses with every name resolved.
pub open spec fn prepares_clause_targets(model: Model, list: Seq<Comprehension>, out: Seq<PreparedTarget>) -> bool
    decreases list, 1int,
{
    clause_targets_tree(model, list, out)
}

/// The same, in terms of the parts.
pub open spec fn clause_targets_tree(model: Model, list: Seq<Comprehension>, out: Seq<PreparedTarget>) -> bool
    decreases list, 0int,
{
    out.len() == list.len() && (list.len() == 0 || prepares_clause_targets(model, list.drop_last(), out.drop_last()) && match after_clause_targets(
        model,
        list.drop_last(),
    ) {
        Err(_) => false,
        Ok(before) => prepares_comp_target(before, list.last().target, out.last()),
    })
}

/// The first error ends the preparation of a list.
pub proof fn lemma_clause_targets_error(model: Model, list: Seq<Comprehension>, count: int)
    requires
        0 <= count <= list.len(),
        after_clause_targets(model, list.take(count)) is Err,
    ensures
        after_clause_targets(model, list) == after_clause_targets(model, list.take(count)),
    decreases list.len() - count,
{
    if count < list.len() {
        let longer = list.take(count + 1);
        assert(longer.drop_last() == list.take(count));
        assert(after_clause_targets(model, longer) == clause_targets_step(model, longer));
        lemma_clause_targets_error(model, list, count + 1);
    } else {
        assert(list.take(count) == list);
    }
}

/// The state after the iterables and filters of later comprehension clauses were prepared from left to right.
pub open spec fn after_clauses(model: Model, list: Seq<Comprehension>) -> Outcome
    decreases list, 1int,
{
    clauses_step(model, list)
}

/// The same, in terms of the parts.
pub open spec fn clauses_step(model: Model, list: Seq<Comprehension>) -> Outcome
    decreases list, 0int,
{
    if list.len() == 0 {
        Ok(model)
    } else {
        match after_clauses(model, list.drop_last()) {
            Err(error) => Err(error),
            Ok(before) => match after_expr(before, list.last().iter) {
                Err(error) => Err(error),
                Ok(m1) => after_exprs(m1, list.last().ifs@),
            },
        }
    }
}

/// `out` is the iterables and filters of later comprehension clauses with every name resolved.
pub open spec fn prepares_clauses(model: Model, list: Seq<Comprehension>, out: Seq<PreparedClause>) -> bool
    decreases list, 1int,
{
    clauses_tree(model, list, out)
}

/// The same, in terms of the parts.
pub open spec fn clauses_tree(model: Model, list: Seq<Comprehension>, out: Seq<PreparedClause>) -> bool
    decreases list, 0int,
{
    out.len() == list.len() && (list.len() == 0 || prepares_clauses(model, list.drop_last(), out.drop_last()) && match after_clauses(
        model,
        list.drop_last(),
    ) {
        Err(_) => false,
        Ok(before) => prepares_expr(before, list.last().iter, out.last().iter) && match after_expr(before, list.last().iter) {
            Err(_) => false,
            Ok(m1) => prepares_exprs(m1, list.last().ifs@, out.last().ifs@),
        },
    })
}

/// The first error ends the preparation of a list.
pub proof fn lemma_clauses_error(model: Model, list: Seq<Comprehension>, count: int)
    requires
        0 <= count <= list.len(),
        after_clauses(model, list.take(count)) is Err,
    ensures
        after_clauses(model, list) == after_clauses(model, list.take(count)),
    decreases list.len() - count,
{
    if count < list.len() {
        let longer = list.take(count + 1);
        assert(longer.drop_last() == list.take(count));
        assert(after_clauses(model, longer) == clauses_step(model, longer));
        lemma_clauses_error(model, list, count + 1);
    } else {
        assert(list.take(count) == list);
    }
}

/// Names that the filters of a list of clauses bind.
pub open spec fn bound_in_filters(list: Seq<Comprehension>) -> Set<StringId>
    decreases list.len(),
{
    if list.len() == 0 {
        Set::empty()
    } else {
        bound_in_filters(list.drop_last()) + bound_in_exprs(list.last().ifs@)
    }
}

/// Names that assignment expressions inside a comprehension bind outside of
/// it: those in its element, which `element` holds, and those in its filters.
pub open spec fn walrus_names(generators: Generators, element: Set<StringId>) -> Set<StringId> {
    element + bound_in_exprs(generators.first.ifs@) + bound_in_filters(generators.rest@)
}

/// The state inside a comprehension after its clauses were prepared.
///
/// Slots for assignment expressions come first. The first iterable is
/// prepared before any target is bound; then all targets are bound, so later
/// iterables, all filters and the element see every one of them.
pub open spec fn after_generators(model: Model, it: Generators, element: Set<StringId>) -> Outcome
    decreases it, 1int,
{
    generators_step(model, it, element)
}

/// The same, in terms of the parts.
pub open spec fn generators_step(model: Model, it: Generators, element: Set<StringId>) -> Outcome
    decreases it, 0int,
{
    match with_walrus_slots(model, in_order(walrus_names(it, element)), it.first.iter.position) {
        Err(error) => Err(error),
        Ok(m1) => match after_expr(with_comp_scope(m1), it.first.iter) {
            Err(error) => Err(error),
            Ok(m2) => match after_comp_target(m2, it.first.target) {
                Err(error) => Err(error),
                Ok(m3) => match after_clause_targets(m3, it.rest@) {
                    Err(error) => Err(error),
                    Ok(m4) => match after_exprs(m4, it.first.ifs@) {
                        Err(error) => Err(error),
                        Ok(m5) => after_clauses(m5, it.rest@),
                    },
                },
            },
        },
    }
}

/// The targets of a list of prepared clauses.
pub open spec fn clause_targets(clauses: Seq<PreparedClause>) -> Seq<PreparedTarget> {
    clauses.map_values(|clause: PreparedClause| clause.target)
}

/// `out` is the clauses of a comprehension with every name resolved.
pub open spec fn prepares_generators(
    model: Model,
    it: Generators,
    element: Set<StringId>,
    out: PreparedGenerators,
) -> bool
    decreases it, 1int,
{
    generators_tree(model, it, element, out)
}

/// The same, in terms of the parts.
pub open spec fn generators_tree(
    model: Model,
    it: Generators,
    element: Set<StringId>,
    out: PreparedGenerators,
) -> bool
    decreases it, 0int,
{
    match with_walrus_slots(model, in_order(walrus_names(it, element)), it.first.iter.position) {
        Err(_) => false,
        Ok(m1) => prepares_expr(with_comp_scope(m1), it.first.iter, out.first.iter) && match after_expr(
            with_comp_scope(m1),
            it.first.iter,
        ) {
            Err(_) => false,
            Ok(m2) => prepares_comp_target(m2, it.first.target, out.first.target) && match after_comp_target(
                m2,
                it.first.target,
            ) {
                Err(_) => false,
                Ok(m3) => prepares_clause_targets(m3, it.rest@, clause_targets(out.rest@)) && match after_clause_targets(
                    m3,
                    it.rest@,
                ) {
                    Err(_) => false,
                    Ok(m4) => prepares_exprs(m4, it.first.ifs@, out.first.ifs@) && match after_exprs(
                        m4,
                        it.first.ifs@,
                    ) {
                        Err(_) => false,
                        Ok(m5) => prepares_clauses(m5, it.rest@, out.rest@),
                    },
                },
            },
        },
    }
}

/// How many of a list of parameters have a default value.
pub open spec fn count_defaults(params: Seq<ParsedParam>) -> nat
    decreases params.len(),
{
    if params.len() == 0 {
        0
    } else {
        count_defaults(params.drop_last()) + (if params.last().default is Some {
            1nat
        } else {
            0nat
        })
    }
}

/// For each parameter that has a default value, the number of those before it.
pub open spec fn default_indices(params: Seq<ParsedParam>) -> Seq<Option<usize>>
    decreases params.len(),
{
    if params.len() == 0 {
        Seq::empty()
    } else {
        default_indices(params.drop_last()).push(
            if params.last().default is Some {
                Some(count_defaults(params.drop_last()) as usize)
            } else {
                None
            },
        )
    }
}

/// `out` describes the parameters of `signature`.
pub open spec fn describes_signature(signature: ParsedSignature, out: Signature) -> bool {
    &&& out.pos_args@ == names_of_params(signature.pos_args@)
    &&& out.pos_defaults_count == count_defaults(signature.pos_args@)
    &&& out.args@ == names_of_params(signature.args@)
    &&& out.arg_defaults_count == count_defaults(signature.args@)
    &&& out.var_args == signature.var_args
    &&& out.kwargs@ == names_of_params(signature.kwargs@)
    &&& out.kwarg_default_map@ == default_indices(signature.kwargs@)
    &&& out.var_kwargs == signature.var_kwargs
}

/// The state after the default values of a list of parameters were prepared.
pub open spec fn after_params(model: Model, list: Seq<ParsedParam>) -> Outcome
    decreases list, 1int,
{
    params_step(model, list)
}

/// The same, in terms of the parts.
pub open spec fn params_step(model: Model, list: Seq<ParsedParam>) -> Outcome
    decreases list, 0int,
{
    if list.len() == 0 {
        Ok(model)
    } else {
        match after_params(model, list.drop_last()) {
            Err(error) => Err(error),
            Ok(before) => match list.last().default {
                Some(default) => after_expr(before, default),
                None => Ok(before),
            },
        }
    }
}

/// `out` is the default values of a list of parameters with every name
/// resolved.
pub open spec fn prepares_params(model: Model, list: Seq<ParsedParam>, out: Seq<PreparedExprLoc>) -> bool
    decreases list, 1int,
{
    params_tree(model, list, out)
}

/// The same, in terms of the parts.
pub open spec fn params_tree(model: Model, list: Seq<ParsedParam>, out: Seq<PreparedExprLoc>) -> bool
    decreases list, 0int,
{
    if list.len() == 0 {
        out.len() == 0
    } else {
        match list.last().default {
            Some(default) => out.len() > 0 && prepares_params(model, list.drop_last(), out.drop_last())
                && match after_params(model, list.drop_last()) {
                Err(_) => false,
                Ok(before) => prepares_expr(before, default, out.last()),
            },
            None => prepares_params(model, list.drop_last(), out),
        }
    }
}

/// The first error ends the preparation of a list.
pub proof fn lemma_params_error(model: Model, list: Seq<ParsedParam>, count: int)
    requires
        0 <= count <= list.len(),
        after_params(model, list.take(count)) is Err,
    ensures
        after_params(model, list) == after_params(model, list.take(count)),
    decreases list.len() - count,
{
    if count < list.len() {
        let longer = list.take(count + 1);
        assert(longer.drop_last() == list.take(count));
        assert(after_params(model, longer) == params_step(model, longer));
        lemma_params_error(model, list, count + 1);
    } else {
        assert(list.take(count) == list);
    }
}

/// The state after the default values of a signature were prepared.
pub open spec fn after_defaults(model: Model, it: ParsedSignature) -> Outcome
    decreases it, 1int,
{
    defaults_step(model, it)
}

/// The same, in terms of the parts.
pub open spec fn defaults_step(model: Model, it: ParsedSignature) -> Outcome
    decreases it, 0int,
{
    match after_params(model, it.pos_args@) {
        Err(error) => Err(error),
        Ok(m1) => match after_params(m1, it.args@) {
            Err(error) => Err(error),
            Ok(m2) => after_params(m2, it.kwargs@),
        },
    }
}

/// `out` is the default values of a signature: those of positional-only,
/// ordinary and keyword-only parameters, in that order.
pub open spec fn prepares_defaults(model: Model, it: ParsedSignature, out: Seq<PreparedExprLoc>) -> bool
    decreases it, 1int,
{
    defaults_tree(model, it, out)
}

/// The same, in terms of the parts.
pub open spec fn defaults_tree(model: Model, it: ParsedSignature, out: Seq<PreparedExprLoc>) -> bool
    decreases it, 0int,
{
    let first = count_defaults(it.pos_args@) as int;
    let second = first + count_defaults(it.args@);
    second <= out.len() && prepares_params(model, it.pos_args@, out.subrange(0, first)) && match after_params(
        model,
        it.pos_args@,
    ) {
        Err(_) => false,
        Ok(m1) => prepares_params(m1, it.args@, out.subrange(first, second)) && match after_params(m1, it.args@) {
            Err(_) => false,
            Ok(m2) => prepares_params(m2, it.kwargs@, out.subrange(second, out.len() as int)),
        },
    }
}

/// `out` has the closure slots of a nested scope that ended in state `child`
/// and was closed in state `model`. Its slots are labelled by the names that
/// they are for.
pub open spec fn describes_closure(model: Model, child: Model, params: Seq<StringId>, out: PreparedFunctionDef) -> bool {
    child.function matches Some(f) && cells_labelled(f) && free_var_lists(
        model,
        f.free_vars,
        out.free_var_slots@,
        out.free_var_enclosing_slots@,
    ) && cell_var_lists(f.cell_vars, params, out.cell_var_slots@, out.cell_param_indices@) && out.namespace_size
        == f.locals.len()
}

/// The name of a function that is not bound to any name.
pub open spec fn unbound_name(name_id: StringId, position: CodeRange) -> ResolvedIdentifier {
    ResolvedIdentifier { name_id, position, slot: 0, scope: NameScope::Local }
}

/// The state after a function definition was prepared: its name is bound
/// first, then its body is prepared in a scope of its own, then its default
/// values are prepared in the enclosing scope.
pub open spec fn after_function_def(model: Model, it: RawFunctionDef) -> Outcome
    decreases it, 1int,
{
    function_def_step(model, it)
}

/// The same, in terms of the parts.
pub open spec fn function_def_step(model: Model, it: RawFunctionDef) -> Outcome
    decreases it, 0int,
{
    let params = param_names(it.signature);
    match stored(model, it.name) {
        Err(error) => Err(error),
        Ok((m1, _)) => match opened(m1, params, scope_info(it.body@, params), false, it.name.position) {
            Err(error) => Err(error),
            Ok(inner) => match after_nodes(inner, it.body@) {
                Err(error) => Err(error),
                Ok(child) => match closed(m1, child, it.name.position) {
                    Err(error) => Err(error),
                    Ok(m2) => after_defaults(m2, it.signature),
                },
            },
        },
    }
}

/// `out` is a function definition with every name resolved.
pub open spec fn prepares_function_def(model: Model, it: RawFunctionDef, out: PreparedFunctionDef) -> bool
    decreases it, 1int,
{
    function_def_tree(model, it, out)
}

/// The same, in terms of the parts.
pub open spec fn function_def_tree(model: Model, it: RawFunctionDef, out: PreparedFunctionDef) -> bool
    decreases it, 0int,
{
    let params = param_names(it.signature);
    out.is_async == it.is_async && out.is_generator == it.is_generator && describes_signature(
        it.signature,
        out.signature,
    ) && match stored(model, it.name) {
        Err(_) => false,
        Ok((m1, name)) => out.name == name && match opened(
            m1,
            params,
            scope_info(it.body@, params),
            false,
            it.name.position,
        ) {
            Err(_) => false,
            Ok(inner) => prepares_nodes(inner, it.body@, out.body@) && match after_nodes(inner, it.body@) {
                Err(_) => false,
                Ok(child) => match closed(m1, child, it.name.position) {
                    Err(_) => false,
                    Ok(m2) => describes_closure(m2, child, params, out) && prepares_defaults(
                        m2,
                        it.signature,
                        out.default_exprs@,
                    ),
                },
            },
        },
    }
}

/// The state after a lambda was prepared: its body in a scope of its own, then
/// its default values in the enclosing scope.
pub open spec fn after_lambda(model: Model, it: LambdaDef, position: CodeRange) -> Outcome
    decreases it, 1int,
{
    lambda_step(model, it, position)
}

/// The same, in terms of the parts.
pub open spec fn lambda_step(model: Model, it: LambdaDef, position: CodeRange) -> Outcome
    decreases it, 0int,
{
    let params = param_names(it.signature);
    match opened(model, params, lambda_scope_info(it.body, params), false, position) {
        Err(error) => Err(error),
        Ok(inner) => match after_expr(inner, it.body) {
            Err(error) => Err(error),
            Ok(child) => match closed(model, child, position) {
                Err(error) => Err(error),
                Ok(m1) => after_defaults(m1, it.signature),
            },
        },
    }
}

/// `out` is a lambda with every name resolved: a function that returns the
/// value of the lambda's body.
pub open spec fn prepares_lambda(model: Model, it: LambdaDef, position: CodeRange, out: PreparedFunctionDef) -> bool
    decreases it, 1int,
{
    lambda_tree(model, it, position, out)
}

/// The same, in terms of the parts.
pub open spec fn lambda_tree(model: Model, it: LambdaDef, position: CodeRange, out: PreparedFunctionDef) -> bool
    decreases it, 0int,
{
    let params = param_names(it.signature);
    out.name == unbound_name(it.name_id, position) && !out.is_async && out.is_generator == it.is_generator
        && describes_signature(it.signature, out.signature) && match opened(
        model,
        params,
        lambda_scope_info(it.body, params),
        false,
        position,
    ) {
        Err(_) => false,
        Ok(inner) => out.body@.len() == 1 && (out.body@[0] matches PreparedNode::Return(Some(body)) && prepares_expr(
            inner,
            it.body,
            body,
        )) && match after_expr(inner, it.body) {
            Err(_) => false,
            Ok(child) => match closed(model, child, position) {
                Err(_) => false,
                Ok(m1) => describes_closure(m1, child, params, out) && prepares_defaults(
                    m1,
                    it.signature,
                    out.default_exprs@,
                ),
            },
        },
    }
}

/// The state after a generator expression was prepared: its outermost iterable
/// in the enclosing scope, then its body in a scope of its own.
pub open spec fn after_generator_def(model: Model, it: GeneratorDef, position: CodeRange) -> Outcome
    decreases it, 1int,
{
    generator_def_step(model, it, position)
}

/// The same, in terms of the parts.
pub open spec fn generator_def_step(model: Model, it: GeneratorDef, position: CodeRange) -> Outcome
    decreases it, 0int,
{
    let params = param_names(it.signature);
    match after_expr(model, it.iter) {
        Err(error) => Err(error),
        Ok(m1) => match opened(m1, params, scope_info(it.body@, params), false, position) {
            Err(error) => Err(error),
            Ok(inner) => match after_nodes(inner, it.body@) {
                Err(error) => Err(error),
                Ok(child) => match closed(m1, child, position) {
                    Err(error) => Err(error),
                    Ok(m2) => after_defaults(m2, it.signature),
                },
            },
        },
    }
}

/// `out` and `iter` are a generator expression with every name resolved.
pub open spec fn prepares_generator_def(
    model: Model,
    it: GeneratorDef,
    position: CodeRange,
    out: PreparedFunctionDef,
    iter: PreparedExprLoc,
) -> bool
    decreases it, 1int,
{
    generator_def_tree(model, it, position, out, iter)
}

/// The same, in terms of the parts.
pub open spec fn generator_def_tree(
    model: Model,
    it: GeneratorDef,
    position: CodeRange,
    out: PreparedFunctionDef,
    iter: PreparedExprLoc,
) -> bool
    decreases it, 0int,
{
    let params = param_names(it.signature);
    out.name == unbound_name(it.name_id, position) && !out.is_async && out.is_generator && describes_signature(
        it.signature,
        out.signature,
    ) && prepares_expr(model, it.iter, iter) && match after_expr(model, it.iter) {
        Err(_) => false,
        Ok(m1) => match opened(m1, params, scope_info(it.body@, params), false, position) {
            Err(_) => false,
            Ok(inner) => prepares_nodes(inner, it.body@, out.body@) && match after_nodes(inner, it.body@) {
                Err(_) => false,
                Ok(child) => match closed(m1, child, position) {
                    Err(_) => false,
                    Ok(m2) => describes_closure(m2, child, params, out) && prepares_defaults(
                        m2,
                        it.signature,
                        out.default_exprs@,
                    ),
                },
            },
        },
    }
}

/// The first of `members` that has no slot among `locals`.
pub open spec fn first_unbound_member(locals: Seq<StringId>, members: Seq<Identifier>) -> Option<StringId>
    decreases members.len(),
{
    if members.len() == 0 {
        None
    } else {
        match first_unbound_member(locals, members.drop_last()) {
            Some(name) => Some(name),
            None => if first_slot(locals, members.last().name_id) is None {
                Some(members.last().name_id)
            } else {
                None
            },
        }
    }
}

/// What is wrong with a class whose body ended in state `child`: a member
/// that the body does not bind, or else a member whose name a nested scope
/// captures from outside the class.
pub open spec fn class_error(child: Model, members: Seq<Identifier>, position: CodeRange) -> Option<ParseError> {
    match child.function {
        None => None,
        Some(f) => match first_unbound_member(f.locals, members) {
            Some(name) => Some(ParseError { kind: ParseErrorKind::UnboundClassMember(name), position }),
            None => if f.cell_vars.dom() == Set::<StringId>::empty() {
                None
            } else {
                Some(
                    ParseError {
                        kind: ParseErrorKind::ShadowingClassMember(in_order(f.cell_vars.dom())[0]),
                        position,
                    },
                )
            },
        },
    }
}

/// What a look at a class body finds out: the body lends no cell to nested
/// scopes.
pub open spec fn class_scope_info(body: Seq<Node>) -> ScopeInfo {
    ScopeInfo { cell_var_names: Set::empty(), ..scope_info(body, Seq::empty()) }
}

/// The state after a class definition was prepared: its name is bound first,
/// then come bases and decorators, then its body in a class scope.
pub open spec fn after_class_def(model: Model, it: ClassDef) -> Outcome
    decreases it, 1int,
{
    class_def_step(model, it)
}

/// The same, in terms of the parts.
pub open spec fn class_def_step(model: Model, it: ClassDef) -> Outcome
    decreases it, 0int,
{
    match stored(model, it.name) {
        Err(error) => Err(error),
        Ok((m1, _)) => match after_exprs(m1, it.bases@) {
            Err(error) => Err(error),
            Ok(m2) => match after_exprs(m2, it.decorators@) {
                Err(error) => Err(error),
                Ok(m3) => match opened(m3, Seq::empty(), class_scope_info(it.body.body@), true, it.body.name.position) {
                    Err(error) => Err(error),
                    Ok(inner) => match after_nodes(inner, it.body.body@) {
                        Err(error) => Err(error),
                        Ok(child) => match class_error(child, it.members@, it.position) {
                            Some(error) => Err(error),
                            None => closed(m3, child, it.position),
                        },
                    },
                },
            },
        },
    }
}

/// The members of a class, each with the slot that it has in the class body.
pub open spec fn placed_members(locals: Seq<StringId>, members: Seq<Identifier>) -> Seq<ResolvedIdentifier> {
    members.map_values(
        |member: Identifier| placed(member, first_slot(locals, member.name_id)->0, NameScope::Local),
    )
}

/// `out` is a class definition with every name resolved.
pub open spec fn prepares_class_def(model: Model, it: ClassDef, out: PreparedClassDef) -> bool
    decreases it, 1int,
{
    class_def_tree(model, it, out)
}

/// The same, in terms of the parts.
pub open spec fn class_def_tree(model: Model, it: ClassDef, out: PreparedClassDef) -> bool
    decreases it, 0int,
{
    out.position == it.position && out.body.name == unbound_name(it.body.name.name_id, it.body.name.position)
        && !out.body.is_async && !out.body.is_generator && out.body.default_exprs@.len() == 0 && is_empty_signature(
        out.body.signature,
    ) && match stored(model, it.name) {
        Err(_) => false,
        Ok((m1, name)) => out.name == name && prepares_exprs(m1, it.bases@, out.bases@) && match after_exprs(
            m1,
            it.bases@,
        ) {
            Err(_) => false,
            Ok(m2) => prepares_exprs(m2, it.decorators@, out.decorators@) && match after_exprs(m2, it.decorators@) {
                Err(_) => false,
                Ok(m3) => match opened(m3, Seq::empty(), class_scope_info(it.body.body@), true, it.body.name.position) {
                    Err(_) => false,
                    Ok(inner) => prepares_nodes(inner, it.body.body@, out.body.body@) && match after_nodes(
                        inner,
                        it.body.body@,
                    ) {
                        Err(_) => false,
                        Ok(child) => match closed(m3, child, it.position) {
                            Err(_) => false,
                            Ok(m4) => describes_closure(m4, child, Seq::empty(), out.body) && (child.function matches
                                Some(f) && out.members@ == placed_members(f.locals, it.members@)),
                        },
                    },
                },
            },
        },
    }
}

/// The signature of a function without parameters.
pub open spec fn is_empty_signature(out: Signature) -> bool {
    &&& out.pos_args@.len() == 0
    &&& out.pos_defaults_count == 0
    &&& out.args@.len() == 0
    &&& out.arg_defaults_count == 0
    &&& out.var_args is None
    &&& out.kwargs@.len() == 0
    &&& out.kwarg_default_map@.len() == 0
    &&& out.var_kwargs is None
}

/// The state after an exception handler was prepared.
pub open spec fn after_handler(model: Model, it: ExceptHandler) -> Outcome
    decreases it, 1int,
{
    handler_step(model, it)
}

/// The same, in terms of the parts.
pub open spec fn handler_step(model: Model, it: ExceptHandler) -> Outcome
    decreases it, 0int,
{
    match (match it.exc_type {
        Some(inner) => after_expr(model, inner),
        None => Ok(model),
    }) {
        Err(error) => Err(error),
        Ok(m1) => match it.name {
            Some(ident) => match stored(m1, ident) {
                Err(error) => Err(error),
                Ok((m2, _)) => after_nodes(m2, it.body@),
            },
            None => after_nodes(m1, it.body@),
        },
    }
}

/// `out` is an exception handler with every name resolved.
pub open spec fn prepares_handler(model: Model, it: ExceptHandler, out: PreparedHandler) -> bool
    decreases it, 1int,
{
    handler_tree(model, it, out)
}

/// The same, in terms of the parts.
pub open spec fn handler_tree(model: Model, it: ExceptHandler, out: PreparedHandler) -> bool
    decreases it, 0int,
{
    (match (it.exc_type, out.exc_type) {
        (Some(x), Some(y)) => prepares_expr(model, x, y),
        (None, None) => true,
        _ => false,
    }) && match (match it.exc_type {
        Some(inner) => after_expr(model, inner),
        None => Ok(model),
    }) {
        Err(_) => false,
        Ok(m1) => match it.name {
            Some(ident) => match stored(m1, ident) {
                Err(_) => false,
                Ok((m2, name)) => out.name == Some(name) && prepares_nodes(m2, it.body@, out.body@),
            },
            None => out.name is None && prepares_nodes(m1, it.body@, out.body@),
        },
    }
}

/// The state after the handlers of a `try` statement were prepared from left to right.
pub open spec fn after_handlers(model: Model, list: Seq<ExceptHandler>) -> Outcome
    decreases list, 1int,
{
    handlers_step(model, list)
}

/// The same, in terms of the parts.
pub open spec fn handlers_step(model: Model, list: Seq<ExceptHandler>) -> Outcome
    decreases list, 0int,
{
    if list.len() == 0 {
        Ok(model)
    } else {
        match after_handlers(model, list.drop_last()) {
            Err(error) => Err(error),
            Ok(before) => after_handler(before, list.last()),
        }
    }
}

/// `out` is the handlers of a `try` statement with every name resolved.
pub open spec fn prepares_handlers(model: Model, list: Seq<ExceptHandler>, out: Seq<PreparedHandler>) -> bool
    decreases list, 1int,
{
    handlers_tree(model, list, out)
}

/// The same, in terms of the parts.
pub open spec fn handlers_tree(model: Model, list: Seq<ExceptHandler>, out: Seq<PreparedHandler>) -> bool
    decreases list, 0int,
{
    out.len() == list.len() && (list.len() == 0 || prepares_handlers(model, list.drop_last(), out.drop_last()) && match after_handlers(
        model,
        list.drop_last(),
    ) {
        Err(_) => false,
        Ok(before) => prepares_handler(before, list.last(), out.last()),
    })
}

/// The first error ends the preparation of a list.
pub proof fn lemma_handlers_error(model: Model, list: Seq<ExceptHandler>, count: int)
    requires
        0 <= count <= list.len(),
        after_handlers(model, list.take(count)) is Err,
    ensures
        after_handlers(model, list) == after_handlers(model, list.take(count)),
    decreases list.len() - count,
{
    if count < list.len() {
        let longer = list.take(count + 1);
        assert(longer.drop_last() == list.take(count));
        assert(after_handlers(model, longer) == handlers_step(model, longer));
        lemma_handlers_error(model, list, count + 1);
    } else {
        assert(list.take(count) == list);
    }
}

/// The state after the modules that an `import` statement names were prepared from left to right.
pub open spec fn after_import_names(model: Model, list: Seq<ImportName>) -> Outcome
    decreases list.len(), 1int,
{
    import_names_step(model, list)
}

/// The same, in terms of the parts.
pub open spec fn import_names_step(model: Model, list: Seq<ImportName>) -> Outcome
    decreases list.len(), 0int,
{
    if list.len() == 0 {
        Ok(model)
    } else {
        match after_import_names(model, list.drop_last()) {
            Err(error) => Err(error),
            Ok(before) => match resolved(before, list.last().binding, false) {
                Err(error) => Err(error),
                Ok((after, _)) => Ok(after),
            },
        }
    }
}

/// `out` is the modules that an `import` statement names with every name resolved.
pub open spec fn prepares_import_names(model: Model, list: Seq<ImportName>, out: Seq<PreparedImportName>) -> bool
    decreases list.len(), 1int,
{
    import_names_tree(model, list, out)
}

/// The same, in terms of the parts.
pub open spec fn import_names_tree(model: Model, list: Seq<ImportName>, out: Seq<PreparedImportName>) -> bool
    decreases list.len(), 0int,
{
    out.len() == list.len() && (list.len() == 0 || prepares_import_names(model, list.drop_last(), out.drop_last()) && match after_import_names(
        model,
        list.drop_last(),
    ) {
        Err(_) => false,
        Ok(before) => match resolved(before, list.last().binding, false) {
            Err(_) => false,
            Ok((_, name)) => out.last() == (PreparedImportName {
                module_name: list.last().module_name,
                bound_name: list.last().bound_name,
                binding: name,
            }),
        },
    })
}

/// The first error ends the preparation of a list.
pub proof fn lemma_import_names_error(model: Model, list: Seq<ImportName>, count: int)
    requires
        0 <= count <= list.len(),
        after_import_names(model, list.take(count)) is Err,
    ensures
        after_import_names(model, list) == after_import_names(model, list.take(count)),
    decreases list.len() - count,
{
    if count < list.len() {
        let longer = list.take(count + 1);
        assert(longer.drop_last() == list.take(count));
        assert(after_import_names(model, longer) == import_names_step(model, longer));
        lemma_import_names_error(model, list, count + 1);
    } else {
        assert(list.take(count) == list);
    }
}

/// The state after the names that a `from` import binds were prepared from left to right.
pub open spec fn after_import_from(model: Model, list: Seq<(StringId, Identifier)>) -> Outcome
    decreases list.len(), 1int,
{
    import_from_step(model, list)
}

/// The same, in terms of the parts.
pub open spec fn import_from_step(model: Model, list: Seq<(StringId, Identifier)>) -> Outcome
    decreases list.len(), 0int,
{
    if list.len() == 0 {
        Ok(model)
    } else {
        match after_import_from(model, list.drop_last()) {
            Err(error) => Err(error),
            Ok(before) => match resolved(before, list.last().1, false) {
                Err(error) => Err(error),
                Ok((after, _)) => Ok(after),
            },
        }
    }
}

/// `out` is the names that a `from` import binds with every name resolved.
pub open spec fn prepares_import_from(model: Model, list: Seq<(StringId, Identifier)>, out: Seq<(StringId, ResolvedIdentifier)>) -> bool
    decreases list.len(), 1int,
{
    import_from_tree(model, list, out)
}

/// The same, in terms of the parts.
pub open spec fn import_from_tree(model: Model, list: Seq<(StringId, Identifier)>, out: Seq<(StringId, ResolvedIdentifier)>) -> bool
    decreases list.len(), 0int,
{
    out.len() == list.len() && (list.len() == 0 || prepares_import_from(model, list.drop_last(), out.drop_last()) && match after_import_from(
        model,
        list.drop_last(),
    ) {
        Err(_) => false,
        Ok(before) => match resolved(before, list.last().1, false) {
            Err(_) => false,
            Ok((_, name)) => out.last() == (list.last().0, name),
        },
    })
}

/// The first error ends the preparation of a list.
pub proof fn lemma_import_from_error(model: Model, list: Seq<(StringId, Identifier)>, count: int)
    requires
        0 <= count <= list.len(),
        after_import_from(model, list.take(count)) is Err,
    ensures
        after_import_from(model, list) == after_import_from(model, list.take(count)),
    decreases list.len() - count,
{
    if count < list.len() {
        let longer = list.take(count + 1);
        assert(longer.drop_last() == list.take(count));
        assert(after_import_from(model, longer) == import_from_step(model, longer));
        lemma_import_from_error(model, list, count + 1);
    } else {
        assert(list.take(count) == list);
    }
}

/// The builtin that a raised expression names without a call.
pub open spec fn raised_builtin(model: Model, it: ExprLoc) -> Option<Builtins> {
    match it.expr {
        Expr::Builtin(builtin) => Some(builtin),
        Expr::Name(ident) => match resolved_read(model, ident) {
            Ok((_, PreparedCallable::Builtin(builtin))) => Some(builtin),
            _ => None,
        },
        _ => None,
    }
}

/// `out` is a raised expression with every name resolved. A bare builtin is
/// called, so that what is raised is an instance.
pub open spec fn prepares_raised(model: Model, it: ExprLoc, out: PreparedExprLoc) -> bool
    decreases it, 2int,
{
    match raised_builtin(model, it) {
        Some(builtin) => out.position == it.position && (out.expr matches PreparedExpr::Call { callable, args } && callable
            == PreparedCallable::Builtin(builtin) && *args is Empty),
        None => prepares_expr(model, it, out),
    }
}

/// The state after a statement was prepared.
pub open spec fn after_node(model: Model, it: Node) -> Outcome
    decreases it, 1int,
{
    node_step(model, it)
}

/// The same, in terms of the parts.
pub open spec fn node_step(model: Model, it: Node) -> Outcome
    decreases it, 0int,
{
    match it {
        Node::Expr(expr) => after_expr(model, expr),
        Node::Return(value) => (match value { Some(inner) => after_expr(model, inner), None => Ok(model) }),
        Node::Assert { test, msg } => match after_expr(model, test) {
            Err(error) => Err(error),
            Ok(m1) => (match msg { Some(inner) => after_expr(m1, inner), None => Ok(m1) }),
        },
        Node::Assign { target, object } => match after_expr(model, object) {
            Err(error) => Err(error),
            Ok(m1) => match stored(m1, target) {
                Err(error) => Err(error),
                Ok((m2, _)) => Ok(m2.mark_member(target.name_id)),
            },
        },
        Node::UnpackAssign { targets, object, .. } => match after_expr(model, object) {
            Err(error) => Err(error),
            Ok(m1) => after_targets(m1, targets@),
        },
        Node::OpAssign { target, value, .. } => match stored(model, target) {
            Err(error) => Err(error),
            Ok((m1, _)) => after_expr(m1, value),
        },
        Node::SubscriptOpAssign { target, index, value, .. } => match after_expr(model, target) {
            Err(error) => Err(error),
            Ok(m1) => match after_expr(m1, index) {
                Err(error) => Err(error),
                Ok(m2) => after_expr(m2, value),
            },
        },
        Node::SubscriptAssign { target, index, value, .. } => match after_expr(model, target) {
            Err(error) => Err(error),
            Ok(m1) => match after_expr(m1, index) {
                Err(error) => Err(error),
                Ok(m2) => after_expr(m2, value),
            },
        },
        Node::AttrOpAssign { object, value, .. } => match after_expr(model, object) {
            Err(error) => Err(error),
            Ok(m1) => after_expr(m1, value),
        },
        Node::AttrAssign { object, value, .. } => match after_expr(model, object) {
            Err(error) => Err(error),
            Ok(m1) => after_expr(m1, value),
        },
        Node::ChainAssign { targets, object } => match after_expr(model, object) {
            Err(error) => Err(error),
            Ok(m1) => after_targets(m1, targets@),
        },
        Node::Delete(targets) => after_delete_targets(model, targets@),
        Node::TypeAlias { name, value } => match after_function_def(model, value) {
            Err(error) => Err(error),
            Ok(m1) => match stored(m1, name) {
                Err(error) => Err(error),
                Ok((m2, _)) => Ok(m2.mark_member(name.name_id)),
            },
        },
        Node::For { target, iter, body, or_else, .. } => match after_target(model, target) {
            Err(error) => Err(error),
            Ok(m1) => match after_expr(m1, iter) {
                Err(error) => Err(error),
                Ok(m2) => match after_nodes(m2, body@) {
                    Err(error) => Err(error),
                    Ok(m3) => after_nodes(m3, or_else@),
                },
            },
        },
        Node::Break { .. } => Ok(model),
        Node::Continue { .. } => Ok(model),
        Node::While { test, body, or_else } => match after_expr(model, test) {
            Err(error) => Err(error),
            Ok(m1) => match after_nodes(m1, body@) {
                Err(error) => Err(error),
                Ok(m2) => after_nodes(m2, or_else@),
            },
        },
        Node::If { test, body, or_else } => match after_expr(model, test) {
            Err(error) => Err(error),
            Ok(m1) => match after_nodes(m1, body@) {
                Err(error) => Err(error),
                Ok(m2) => after_nodes(m2, or_else@),
            },
        },
        Node::FunctionDef { def, decorators } => match after_exprs(model, decorators@) {
            Err(error) => Err(error),
            Ok(m1) => match after_function_def(m1, def) {
                Err(error) => Err(error),
                Ok(m2) => Ok(m2.mark_member(def.name.name_id)),
            },
        },
        Node::With { context, target, body, .. } => match after_expr(model, context) {
            Err(error) => Err(error),
            Ok(m1) => match (match target { Some(inner) => after_target(m1, inner), None => Ok(m1) }) {
                Err(error) => Err(error),
                Ok(m2) => after_nodes(m2, body@),
            },
        },
        Node::Import { names } => after_import_names(model, names@),
        Node::ImportFrom { names, .. } => after_import_from(model, names@),
        Node::Pass => Ok(model),
        Node::Raise { exc, cause } => match (match exc {
            Some(inner) => after_expr(model, inner),
            None => Ok(model),
        }) {
            Err(error) => Err(error),
            Ok(m1) => match cause {
                Some(inner) => after_expr(m1, inner),
                None => Ok(m1),
            },
        },
        Node::ClassDef(def) => after_class_def(model, *def),
        Node::Global { names, position } => match global_conflict(model, names@) {
            Some(kind) => Err(ParseError { kind, position }),
            None => Ok(model),
        },
        Node::Nonlocal { names, position } => match model.function {
            None => Err(ParseError { kind: ParseErrorKind::NonlocalAtModuleLevel, position }),
            Some(f) => match nonlocal_conflict(model, f, names@) {
                Some(kind) => Err(ParseError { kind, position }),
                None => Ok(model),
            },
        },
        Node::Try(block) => match after_nodes(model, block.body@) {
            Err(error) => Err(error),
            Ok(m1) => match after_handlers(m1, block.handlers@) {
                Err(error) => Err(error),
                Ok(m2) => match after_nodes(m2, block.or_else@) {
                    Err(error) => Err(error),
                    Ok(m3) => after_nodes(m3, block.finally@),
                },
            },
        },
    }
}

/// `out` is a statement with every name resolved.
pub open spec fn prepares_node(model: Model, it: Node, out: Option<PreparedNode>) -> bool
    decreases it, 1int,
{
    node_tree(model, it, out)
}

/// The same, in terms of the parts.
pub open spec fn node_tree(model: Model, it: Node, out: Option<PreparedNode>) -> bool
    decreases it, 0int,
{
    match it {
        Node::Expr(expr) => out matches Some(PreparedNode::Expr(expr_out)) && prepares_expr(model, expr, expr_out),
        Node::Return(value) => out matches Some(PreparedNode::Return(value_out)) && (match (value, value_out) { (Some(x), Some(y)) => prepares_expr(model, x, y), (None, None) => true, _ => false }),
        Node::Assert { test, msg } => out matches Some(PreparedNode::Assert { test: test_out, msg: msg_out }) && prepares_expr(model, test, test_out) && match after_expr(model, test) {
            Err(_) => false,
            Ok(m1) => (match (msg, msg_out) { (Some(x), Some(y)) => prepares_expr(m1, x, y), (None, None) => true, _ => false }),
        },
        Node::Assign { target, object } => out matches Some(PreparedNode::Assign { target: target_out, object: object_out }) && prepares_expr(model, object, object_out) && match after_expr(model, object) {
            Err(_) => false,
            Ok(m1) => match stored(m1, target) {
                Err(_) => false,
                Ok((_, name)) => name == target_out,
            },
        },
        Node::UnpackAssign { targets, targets_position, object } => out matches Some(PreparedNode::UnpackAssign { targets: targets_out, targets_position: targets_position_out, object: object_out }) && targets_position_out == targets_position && prepares_expr(model, object, object_out) && match after_expr(model, object) {
            Err(_) => false,
            Ok(m1) => prepares_targets(m1, targets@, targets_out@),
        },
        Node::OpAssign { target, op, value } => out matches Some(PreparedNode::OpAssign { target: target_out, op: op_out, value: value_out }) && op_out == op && match stored(model, target) {
            Err(_) => false,
            Ok((m1, name)) => name == target_out && prepares_expr(m1, value, value_out),
        },
        Node::SubscriptOpAssign { target, index, op, value, target_position } => out matches Some(PreparedNode::SubscriptOpAssign { target: target_out, index: index_out, op: op_out, value: value_out, target_position: target_position_out }) && op_out == op && target_position_out == target_position && prepares_expr(model, target, target_out) && match after_expr(model, target) {
            Err(_) => false,
            Ok(m1) => prepares_expr(m1, index, index_out) && match after_expr(m1, index) {
                Err(_) => false,
                Ok(m2) => prepares_expr(m2, value, value_out),
            },
        },
        Node::SubscriptAssign { target, index, value, target_position } => out matches Some(PreparedNode::SubscriptAssign { target: target_out, index: index_out, value: value_out, target_position: target_position_out }) && target_position_out == target_position && prepares_expr(model, target, target_out) && match after_expr(model, target) {
            Err(_) => false,
            Ok(m1) => prepares_expr(m1, index, index_out) && match after_expr(m1, index) {
                Err(_) => false,
                Ok(m2) => prepares_expr(m2, value, value_out),
            },
        },
        Node::AttrOpAssign { object, attr, op, value, target_position } => out matches Some(PreparedNode::AttrOpAssign { object: object_out, attr: attr_out, op: op_out, value: value_out, target_position: target_position_out }) && attr_out == attr && op_out == op && target_position_out == target_position && prepares_expr(model, object, object_out) && match after_expr(model, object) {
            Err(_) => false,
            Ok(m1) => prepares_expr(m1, value, value_out),
        },
        Node::AttrAssign { object, attr, target_position, value } => out matches Some(PreparedNode::AttrAssign { object: object_out, attr: attr_out, target_position: target_position_out, value: value_out }) && attr_out == attr && target_position_out == target_position && prepares_expr(model, object, object_out) && match after_expr(model, object) {
            Err(_) => false,
            Ok(m1) => prepares_expr(m1, value, value_out),
        },
        Node::ChainAssign { targets, object } => out matches Some(PreparedNode::ChainAssign { targets: targets_out, object: object_out }) && prepares_expr(model, object, object_out) && match after_expr(model, object) {
            Err(_) => false,
            Ok(m1) => prepares_targets(m1, targets@, targets_out@),
        },
        Node::Delete(targets) => out matches Some(PreparedNode::Delete(targets_out)) && prepares_delete_targets(model, targets@, targets_out@),
        Node::TypeAlias { name, value } => out matches Some(PreparedNode::TypeAlias { name: name_out, value: value_out }) && prepares_function_def(model, value, value_out) && match after_function_def(model, value) {
            Err(_) => false,
            Ok(m1) => match stored(m1, name) {
                Err(_) => false,
                Ok((_, name)) => name == name_out,
            },
        },
        Node::For { target, iter, body, or_else, is_async } => out matches Some(PreparedNode::For { target: target_out, iter: iter_out, body: body_out, or_else: or_else_out, is_async: is_async_out }) && is_async_out == is_async && prepares_target(model, target, target_out) && match after_target(model, target) {
            Err(_) => false,
            Ok(m1) => prepares_expr(m1, iter, iter_out) && match after_expr(m1, iter) {
                Err(_) => false,
                Ok(m2) => prepares_nodes(m2, body@, body_out@) && match after_nodes(m2, body@) {
                    Err(_) => false,
                    Ok(m3) => prepares_nodes(m3, or_else@, or_else_out@),
                },
            },
        },
        Node::Break { position } => out matches Some(PreparedNode::Break { position: position_out }) && position_out == position,
        Node::Continue { position } => out matches Some(PreparedNode::Continue { position: position_out }) && position_out == position,
        Node::While { test, body, or_else } => out matches Some(PreparedNode::While { test: test_out, body: body_out, or_else: or_else_out }) && prepares_expr(model, test, test_out) && match after_expr(model, test) {
            Err(_) => false,
            Ok(m1) => prepares_nodes(m1, body@, body_out@) && match after_nodes(m1, body@) {
                Err(_) => false,
                Ok(m2) => prepares_nodes(m2, or_else@, or_else_out@),
            },
        },
        Node::If { test, body, or_else } => out matches Some(PreparedNode::If { test: test_out, body: body_out, or_else: or_else_out }) && prepares_expr(model, test, test_out) && match after_expr(model, test) {
            Err(_) => false,
            Ok(m1) => prepares_nodes(m1, body@, body_out@) && match after_nodes(m1, body@) {
                Err(_) => false,
                Ok(m2) => prepares_nodes(m2, or_else@, or_else_out@),
            },
        },
        Node::FunctionDef { def, decorators } => out matches Some(PreparedNode::FunctionDef { def: def_out, decorators: decorators_out }) && prepares_exprs(model, decorators@, decorators_out@) && match after_exprs(model, decorators@) {
            Err(_) => false,
            Ok(m1) => prepares_function_def(m1, def, def_out),
        },
        Node::With { context, target, body, position, is_async } => out matches Some(PreparedNode::With { context: context_out, target: target_out, body: body_out, position: position_out, is_async: is_async_out }) && position_out == position && is_async_out == is_async && prepares_expr(model, context, context_out) && match after_expr(model, context) {
            Err(_) => false,
            Ok(m1) => (match (target, target_out) { (Some(x), Some(y)) => prepares_target(m1, x, y), (None, None) => true, _ => false }) && match (match target { Some(inner) => after_target(m1, inner), None => Ok(m1) }) {
                Err(_) => false,
                Ok(m2) => prepares_nodes(m2, body@, body_out@),
            },
        },
        Node::Import { names } => out matches Some(PreparedNode::Import { names: names_out }) && prepares_import_names(model, names@, names_out@),
        Node::ImportFrom { module_name, names, position } => out matches Some(PreparedNode::ImportFrom { module_name: module_name_out, names: names_out, position: position_out }) && module_name_out == module_name && position_out == position && prepares_import_from(model, names@, names_out@),
        Node::Pass | Node::Global { .. } | Node::Nonlocal { .. } => out is None,
        Node::Raise { exc, cause } => out matches Some(PreparedNode::Raise { exc: exc_out, cause: cause_out }) && (match (
            exc,
            exc_out,
        ) {
            (Some(x), Some(y)) => prepares_raised(model, x, y),
            (None, None) => true,
            _ => false,
        }) && match (match exc {
            Some(inner) => after_expr(model, inner),
            None => Ok(model),
        }) {
            Err(_) => false,
            Ok(m1) => match (cause, cause_out) {
                (Some(x), Some(y)) => prepares_expr(m1, x, y),
                (None, None) => true,
                _ => false,
            },
        },
        Node::ClassDef(def) => out matches Some(PreparedNode::ClassDef(def_out)) && prepares_class_def(
            model,
            *def,
            *def_out,
        ),
        Node::Try(block) => out matches Some(PreparedNode::Try(block_out)) && prepares_nodes(
            model,
            block.body@,
            block_out.body@,
        ) && match after_nodes(model, block.body@) {
            Err(_) => false,
            Ok(m1) => prepares_handlers(m1, block.handlers@, block_out.handlers@) && match after_handlers(
                m1,
                block.handlers@,
            ) {
                Err(_) => false,
                Ok(m2) => prepares_nodes(m2, block.or_else@, block_out.or_else@) && match after_nodes(
                    m2,
                    block.or_else@,
                ) {
                    Err(_) => false,
                    Ok(m3) => prepares_nodes(m3, block.finally@, block_out.finally@),
                },
            },
        },
    }
}

/// A statement leaves something to run.
pub open spec fn emits(node: Node) -> bool {
    !(node is Pass || node is Global || node is Nonlocal)
}

/// The state after a list of statements was prepared.
pub open spec fn after_nodes(model: Model, list: Seq<Node>) -> Outcome
    decreases list, 1int,
{
    nodes_step(model, list)
}

/// The same, in terms of the parts.
pub open spec fn nodes_step(model: Model, list: Seq<Node>) -> Outcome
    decreases list, 0int,
{
    if list.len() == 0 {
        Ok(model)
    } else {
        match after_nodes(model, list.drop_last()) {
            Err(error) => Err(error),
            Ok(before) => after_node(before, list.last()),
        }
    }
}

/// `out` is a list of statements with every name resolved; statements that
/// leave nothing to run are not in it.
pub open spec fn prepares_nodes(model: Model, list: Seq<Node>, out: Seq<PreparedNode>) -> bool
    decreases list, 1int,
{
    nodes_tree(model, list, out)
}

/// The same, in terms of the parts.
pub open spec fn nodes_tree(model: Model, list: Seq<Node>, out: Seq<PreparedNode>) -> bool
    decreases list, 0int,
{
    if list.len() == 0 {
        out.len() == 0
    } else {
        match after_nodes(model, list.drop_last()) {
            Err(_) => false,
            Ok(before) => if emits(list.last()) {
                out.len() > 0 && prepares_nodes(model, list.drop_last(), out.drop_last()) && prepares_node(
                    before,
                    list.last(),
                    Some(out.last()),
                )
            } else {
                prepares_nodes(model, list.drop_last(), out)
            },
        }
    }
}

/// The first error ends the preparation of a list.
pub proof fn lemma_nodes_error(model: Model, list: Seq<Node>, count: int)
    requires
        0 <= count <= list.len(),
        after_nodes(model, list.take(count)) is Err,
    ensures
        after_nodes(model, list) == after_nodes(model, list.take(count)),
    decreases list.len() - count,
{
    if count < list.len() {
        let longer = list.take(count + 1);
        assert(longer.drop_last() == list.take(count));
        assert(after_nodes(model, longer) == nodes_step(model, longer));
        lemma_nodes_error(model, list, count + 1);
    } else {
        assert(list.take(count) == list);
    }
}

} // verus!
