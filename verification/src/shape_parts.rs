//! What preparation makes of the parts of each form of syntax.

use crate::ast::{
    ArgExprs, Callable, ClassDef, ExceptHandler, Expr, ExprLoc, FStringPart, FormatSpec, Literal, Node, Try,
};
use crate::model::{resolved_read, stored, stored_by_walrus, Model};
use crate::prepare_spec::{
    after_args, after_expr, after_exprs, after_function_def, after_generators, after_handlers, after_kwargs,
    after_nodes, after_target, args_tree, expr_tree, fstring_part_tree, node_tree, prepares_args, prepares_class_def,
    prepares_comparisons, prepares_delete_targets, prepares_dict_items, prepares_expr, prepares_exprs,
    prepares_fstring_part, prepares_fstring_parts, prepares_function_def, prepares_generator_def,
    prepares_generators, prepares_handlers, prepares_import_from, prepares_import_names, prepares_interpolations,
    prepares_items, prepares_kwargs, prepares_lambda, prepares_node, prepares_nodes, prepares_raised,
    prepares_target, prepares_targets,
};
use crate::prepared::{
    PreparedArgs, PreparedCallable, PreparedExpr, PreparedExprLoc, PreparedFStringPart, PreparedFormatSpec,
    PreparedHandler, PreparedNode,
};
use crate::scope::bound_in_expr;
use crate::shape::{
    absent, listed, parsed_args, parsed_expr, parsed_exprs, parsed_fstring_part, parsed_fstring_parts,
    parsed_handler, parsed_kwargs, parsed_node, parsed_nodes, parsed_raised, parsed_target, prepared_args,
    prepared_expr, prepared_exprs, prepared_fstring_part, prepared_fstring_parts, prepared_handler, prepared_kwargs,
    prepared_node, prepared_nodes, prepared_raised, prepared_target,
};
use vstd::prelude::*;

verus! {

#[verifier::spinoff_prover]
pub(crate) proof fn lemma_op_parts(model: Model, it: ExprLoc, out: PreparedExprLoc)
    requires
        it.expr is Op,
        prepares_expr(model, it, out),
    ensures
        out.position == it.position,
        match (it.expr, out.expr) {
            (Expr::Op { left, op, right }, PreparedExpr::Op { left: left_out, op: op_out, right: right_out }) => {
                let m1 = after_expr(model, *left)->Ok_0;
                &&& op_out == op
                &&& prepares_expr(model, *left, *left_out)
                &&& prepares_expr(m1, *right, *right_out)
            },
            _ => false,
        },
{
    assert(expr_tree(model, it, out));
}

#[verifier::spinoff_prover]
pub(crate) proof fn lemma_cmp_op_parts(model: Model, it: ExprLoc, out: PreparedExprLoc)
    requires
        it.expr is CmpOp,
        prepares_expr(model, it, out),
    ensures
        out.position == it.position,
        match (it.expr, out.expr) {
            (Expr::CmpOp { left, op, right }, PreparedExpr::CmpOp { left: left_out, op: op_out, right: right_out }) => {
                let m1 = after_expr(model, *left)->Ok_0;
                &&& op_out == op
                &&& prepares_expr(model, *left, *left_out)
                &&& prepares_expr(m1, *right, *right_out)
            },
            _ => false,
        },
{
    assert(expr_tree(model, it, out));
}

#[verifier::spinoff_prover]
pub(crate) proof fn lemma_chain_cmp_parts(model: Model, it: ExprLoc, out: PreparedExprLoc)
    requires
        it.expr is ChainCmp,
        prepares_expr(model, it, out),
    ensures
        out.position == it.position,
        match (it.expr, out.expr) {
            (Expr::ChainCmp { left, comparisons }, PreparedExpr::ChainCmp { left: left_out, comparisons: comparisons_out }) => {
                let m1 = after_expr(model, *left)->Ok_0;
                &&& prepares_expr(model, *left, *left_out)
                &&& prepares_comparisons(m1, comparisons@, comparisons_out@)
            },
            _ => false,
        },
{
    assert(expr_tree(model, it, out));
}

#[verifier::spinoff_prover]
pub(crate) proof fn lemma_attr_call_parts(model: Model, it: ExprLoc, out: PreparedExprLoc)
    requires
        it.expr is AttrCall,
        prepares_expr(model, it, out),
    ensures
        out.position == it.position,
        match (it.expr, out.expr) {
            (Expr::AttrCall { object, attr, args }, PreparedExpr::AttrCall { object: object_out, attr: attr_out, args: args_out }) => {
                let m1 = after_expr(model, *object)->Ok_0;
                &&& attr_out == attr
                &&& prepares_expr(model, *object, *object_out)
                &&& prepares_args(m1, *args, *args_out)
            },
            _ => false,
        },
{
    assert(expr_tree(model, it, out));
}

#[verifier::spinoff_prover]
pub(crate) proof fn lemma_indirect_call_parts(model: Model, it: ExprLoc, out: PreparedExprLoc)
    requires
        it.expr is IndirectCall,
        prepares_expr(model, it, out),
    ensures
        out.position == it.position,
        match (it.expr, out.expr) {
            (Expr::IndirectCall { callable, args }, PreparedExpr::IndirectCall { callable: callable_out, args: args_out }) => {
                let m1 = after_expr(model, *callable)->Ok_0;
                &&& prepares_expr(model, *callable, *callable_out)
                &&& prepares_args(m1, *args, *args_out)
            },
            _ => false,
        },
{
    assert(expr_tree(model, it, out));
}

#[verifier::spinoff_prover]
pub(crate) proof fn lemma_attr_get_parts(model: Model, it: ExprLoc, out: PreparedExprLoc)
    requires
        it.expr is AttrGet,
        prepares_expr(model, it, out),
    ensures
        out.position == it.position,
        match (it.expr, out.expr) {
            (Expr::AttrGet { object, attr }, PreparedExpr::AttrGet { object: object_out, attr: attr_out }) => {
                &&& attr_out == attr
                &&& prepares_expr(model, *object, *object_out)
            },
            _ => false,
        },
{
    assert(expr_tree(model, it, out));
}

#[verifier::spinoff_prover]
pub(crate) proof fn lemma_list_parts(model: Model, it: ExprLoc, out: PreparedExprLoc)
    requires
        it.expr is List,
        prepares_expr(model, it, out),
    ensures
        out.position == it.position,
        match (it.expr, out.expr) {
            (Expr::List(items), PreparedExpr::List(items_out)) => {
                &&& prepares_items(model, items@, items_out@)
            },
            _ => false,
        },
{
    assert(expr_tree(model, it, out));
}

#[verifier::spinoff_prover]
pub(crate) proof fn lemma_tuple_parts(model: Model, it: ExprLoc, out: PreparedExprLoc)
    requires
        it.expr is Tuple,
        prepares_expr(model, it, out),
    ensures
        out.position == it.position,
        match (it.expr, out.expr) {
            (Expr::Tuple(items), PreparedExpr::Tuple(items_out)) => {
                &&& prepares_items(model, items@, items_out@)
            },
            _ => false,
        },
{
    assert(expr_tree(model, it, out));
}

#[verifier::spinoff_prover]
pub(crate) proof fn lemma_set_display_parts(model: Model, it: ExprLoc, out: PreparedExprLoc)
    requires
        it.expr is SetDisplay,
        prepares_expr(model, it, out),
    ensures
        out.position == it.position,
        match (it.expr, out.expr) {
            (Expr::SetDisplay(items), PreparedExpr::SetDisplay(items_out)) => {
                &&& prepares_items(model, items@, items_out@)
            },
            _ => false,
        },
{
    assert(expr_tree(model, it, out));
}

#[verifier::spinoff_prover]
pub(crate) proof fn lemma_subscript_parts(model: Model, it: ExprLoc, out: PreparedExprLoc)
    requires
        it.expr is Subscript,
        prepares_expr(model, it, out),
    ensures
        out.position == it.position,
        match (it.expr, out.expr) {
            (Expr::Subscript { object, index }, PreparedExpr::Subscript { object: object_out, index: index_out }) => {
                let m1 = after_expr(model, *object)->Ok_0;
                &&& prepares_expr(model, *object, *object_out)
                &&& prepares_expr(m1, *index, *index_out)
            },
            _ => false,
        },
{
    assert(expr_tree(model, it, out));
}

#[verifier::spinoff_prover]
pub(crate) proof fn lemma_dict_parts(model: Model, it: ExprLoc, out: PreparedExprLoc)
    requires
        it.expr is Dict,
        prepares_expr(model, it, out),
    ensures
        out.position == it.position,
        match (it.expr, out.expr) {
            (Expr::Dict(items), PreparedExpr::Dict(items_out)) => {
                &&& prepares_dict_items(model, items@, items_out@)
            },
            _ => false,
        },
{
    assert(expr_tree(model, it, out));
}

#[verifier::spinoff_prover]
pub(crate) proof fn lemma_not_parts(model: Model, it: ExprLoc, out: PreparedExprLoc)
    requires
        it.expr is Not,
        prepares_expr(model, it, out),
    ensures
        out.position == it.position,
        match (it.expr, out.expr) {
            (Expr::Not(operand), PreparedExpr::Not(operand_out)) => {
                &&& prepares_expr(model, *operand, *operand_out)
            },
            _ => false,
        },
{
    assert(expr_tree(model, it, out));
}

#[verifier::spinoff_prover]
pub(crate) proof fn lemma_unary_minus_parts(model: Model, it: ExprLoc, out: PreparedExprLoc)
    requires
        it.expr is UnaryMinus,
        prepares_expr(model, it, out),
    ensures
        out.position == it.position,
        match (it.expr, out.expr) {
            (Expr::UnaryMinus(operand), PreparedExpr::UnaryMinus(operand_out)) => {
                &&& prepares_expr(model, *operand, *operand_out)
            },
            _ => false,
        },
{
    assert(expr_tree(model, it, out));
}

#[verifier::spinoff_prover]
pub(crate) proof fn lemma_unary_plus_parts(model: Model, it: ExprLoc, out: PreparedExprLoc)
    requires
        it.expr is UnaryPlus,
        prepares_expr(model, it, out),
    ensures
        out.position == it.position,
        match (it.expr, out.expr) {
            (Expr::UnaryPlus(operand), PreparedExpr::UnaryPlus(operand_out)) => {
                &&& prepares_expr(model, *operand, *operand_out)
            },
            _ => false,
        },
{
    assert(expr_tree(model, it, out));
}

#[verifier::spinoff_prover]
pub(crate) proof fn lemma_unary_invert_parts(model: Model, it: ExprLoc, out: PreparedExprLoc)
    requires
        it.expr is UnaryInvert,
        prepares_expr(model, it, out),
    ensures
        out.position == it.position,
        match (it.expr, out.expr) {
            (Expr::UnaryInvert(operand), PreparedExpr::UnaryInvert(operand_out)) => {
                &&& prepares_expr(model, *operand, *operand_out)
            },
            _ => false,
        },
{
    assert(expr_tree(model, it, out));
}

#[verifier::spinoff_prover]
pub(crate) proof fn lemma_await_parts(model: Model, it: ExprLoc, out: PreparedExprLoc)
    requires
        it.expr is Await,
        prepares_expr(model, it, out),
    ensures
        out.position == it.position,
        match (it.expr, out.expr) {
            (Expr::Await(operand), PreparedExpr::Await(operand_out)) => {
                &&& prepares_expr(model, *operand, *operand_out)
            },
            _ => false,
        },
{
    assert(expr_tree(model, it, out));
}

#[verifier::spinoff_prover]
pub(crate) proof fn lemma_f_string_parts(model: Model, it: ExprLoc, out: PreparedExprLoc)
    requires
        it.expr is FString,
        prepares_expr(model, it, out),
    ensures
        out.position == it.position,
        match (it.expr, out.expr) {
            (Expr::FString(parts), PreparedExpr::FString(parts_out)) => {
                &&& prepares_fstring_parts(model, parts@, parts_out@)
            },
            _ => false,
        },
{
    assert(expr_tree(model, it, out));
}

#[verifier::spinoff_prover]
pub(crate) proof fn lemma_if_else_parts(model: Model, it: ExprLoc, out: PreparedExprLoc)
    requires
        it.expr is IfElse,
        prepares_expr(model, it, out),
    ensures
        out.position == it.position,
        match (it.expr, out.expr) {
            (Expr::IfElse { test, body, orelse }, PreparedExpr::IfElse { test: test_out, body: body_out, orelse: orelse_out }) => {
                let m1 = after_expr(model, *test)->Ok_0;
                let m2 = after_expr(m1, *body)->Ok_0;
                &&& prepares_expr(model, *test, *test_out)
                &&& prepares_expr(m1, *body, *body_out)
                &&& prepares_expr(m2, *orelse, *orelse_out)
            },
            _ => false,
        },
{
    assert(expr_tree(model, it, out));
}

#[verifier::spinoff_prover]
pub(crate) proof fn lemma_yield_parts(model: Model, it: ExprLoc, out: PreparedExprLoc)
    requires
        it.expr is Yield,
        prepares_expr(model, it, out),
    ensures
        out.position == it.position,
        match (it.expr, out.expr) {
            (Expr::Yield(value), PreparedExpr::Yield(value_out)) => {
                &&& (match (value, value_out) { (Some(x), Some(y)) => prepares_expr(model, *x, *y), (None, None) => true, _ => false })
            },
            _ => false,
        },
{
    assert(expr_tree(model, it, out));
}

#[verifier::spinoff_prover]
pub(crate) proof fn lemma_yield_whole_parts(it: ExprLoc, out: PreparedExprLoc)
    requires
        out.position == it.position,
        match (it.expr, out.expr) {
            (Expr::Yield(value), PreparedExpr::Yield(value_out)) => {
                &&& (match value_out { Some(inner) => prepared_expr(*inner), None => absent() }) == (match value { Some(inner) => parsed_expr(*inner), None => absent() })
            },
            _ => false,
        },
    ensures
        prepared_expr(out) == parsed_expr(it),
{
    reveal(parsed_expr);
    reveal(prepared_expr);
    assert(prepared_expr(out).parts[0].parts =~= parsed_expr(it).parts[0].parts);
    assert(prepared_expr(out).parts =~= parsed_expr(it).parts);
}

#[verifier::spinoff_prover]
pub(crate) proof fn lemma_yield_from_parts(model: Model, it: ExprLoc, out: PreparedExprLoc)
    requires
        it.expr is YieldFrom,
        prepares_expr(model, it, out),
    ensures
        out.position == it.position,
        match (it.expr, out.expr) {
            (Expr::YieldFrom(value), PreparedExpr::YieldFrom(value_out)) => {
                &&& prepares_expr(model, *value, *value_out)
            },
            _ => false,
        },
{
    assert(expr_tree(model, it, out));
}

#[verifier::spinoff_prover]
pub(crate) proof fn lemma_slice_parts(model: Model, it: ExprLoc, out: PreparedExprLoc)
    requires
        it.expr is Slice,
        prepares_expr(model, it, out),
    ensures
        out.position == it.position,
        match (it.expr, out.expr) {
            (Expr::Slice { lower, upper, step }, PreparedExpr::Slice { lower: lower_out, upper: upper_out, step: step_out }) => {
                let m1 = (match lower { Some(inner) => after_expr(model, *inner), None => Ok(model) })->Ok_0;
                let m2 = (match upper { Some(inner) => after_expr(m1, *inner), None => Ok(m1) })->Ok_0;
                &&& (match (lower, lower_out) { (Some(x), Some(y)) => prepares_expr(model, *x, *y), (None, None) => true, _ => false })
                &&& (match (upper, upper_out) { (Some(x), Some(y)) => prepares_expr(m1, *x, *y), (None, None) => true, _ => false })
                &&& (match (step, step_out) { (Some(x), Some(y)) => prepares_expr(m2, *x, *y), (None, None) => true, _ => false })
            },
            _ => false,
        },
{
    assert(expr_tree(model, it, out));
}

#[verifier::spinoff_prover]
pub(crate) proof fn lemma_slice_whole_parts(it: ExprLoc, out: PreparedExprLoc)
    requires
        out.position == it.position,
        match (it.expr, out.expr) {
            (Expr::Slice { lower, upper, step }, PreparedExpr::Slice { lower: lower_out, upper: upper_out, step: step_out }) => {
                &&& (match lower_out { Some(inner) => prepared_expr(*inner), None => absent() }) == (match lower { Some(inner) => parsed_expr(*inner), None => absent() })
                &&& (match upper_out { Some(inner) => prepared_expr(*inner), None => absent() }) == (match upper { Some(inner) => parsed_expr(*inner), None => absent() })
                &&& (match step_out { Some(inner) => prepared_expr(*inner), None => absent() }) == (match step { Some(inner) => parsed_expr(*inner), None => absent() })
            },
            _ => false,
        },
    ensures
        prepared_expr(out) == parsed_expr(it),
{
    reveal(parsed_expr);
    reveal(prepared_expr);
    assert(prepared_expr(out).parts[0].parts =~= parsed_expr(it).parts[0].parts);
    assert(prepared_expr(out).parts =~= parsed_expr(it).parts);
}

#[verifier::spinoff_prover]
pub(crate) proof fn lemma_literal_parts(model: Model, it: ExprLoc, out: PreparedExprLoc)
    requires
        it.expr is Literal,
        prepares_expr(model, it, out),
    ensures
        out.position == it.position,
        out.expr is Literal,
        out.expr->Literal_0 == it.expr->Literal_0,
{
    assert(expr_tree(model, it, out));
}

#[verifier::spinoff_prover]
pub(crate) proof fn lemma_builtin_parts(model: Model, it: ExprLoc, out: PreparedExprLoc)
    requires
        it.expr is Builtin,
        prepares_expr(model, it, out),
    ensures
        out.position == it.position,
        out.expr is Builtin,
        out.expr->Builtin_0 == it.expr->Builtin_0,
{
    assert(expr_tree(model, it, out));
}

#[verifier::spinoff_prover]
pub(crate) proof fn lemma_name_parts(model: Model, it: ExprLoc, out: PreparedExprLoc)
    requires
        it.expr is Name,
        prepares_expr(model, it, out),
    ensures
        out.position == it.position,
        resolved_read(model, it.expr->Name_0) is Ok,
        match resolved_read(model, it.expr->Name_0)->Ok_0.1 {
            PreparedCallable::Builtin(builtin) => out.expr == PreparedExpr::Builtin(builtin),
            PreparedCallable::Name(name) => out.expr == PreparedExpr::Name(name),
        },
{
    assert(expr_tree(model, it, out));
}

#[verifier::spinoff_prover]
pub(crate) proof fn lemma_call_parts(model: Model, it: ExprLoc, out: PreparedExprLoc)
    requires
        it.expr is Call,
        prepares_expr(model, it, out),
    ensures
        out.position == it.position,
        match (it.expr, out.expr) {
            (Expr::Call { callable, args }, PreparedExpr::Call { callable: callable_out, args: args_out }) => {
                let m1 = after_args(model, *args)->Ok_0;
                &&& prepares_args(model, *args, *args_out)
                &&& match callable {
                    Callable::Builtin(builtin) => callable_out == PreparedCallable::Builtin(builtin),
                    Callable::Name(ident) => resolved_read(m1, ident) is Ok && callable_out == resolved_read(
                        m1,
                        ident,
                    )->Ok_0.1,
                }
            },
            _ => false,
        },
{
    assert(expr_tree(model, it, out));
}

#[verifier::spinoff_prover]
pub(crate) proof fn lemma_t_string_parts(model: Model, it: ExprLoc, out: PreparedExprLoc)
    requires
        it.expr is TString,
        prepares_expr(model, it, out),
    ensures
        out.position == it.position,
        match (it.expr, out.expr) {
            (Expr::TString(template), PreparedExpr::TString(template_out)) => {
                &&& template_out.strings@ == template.strings@
                &&& prepares_interpolations(model, template.interpolations@, template_out.interpolations@)
            },
            _ => false,
        },
{
    assert(expr_tree(model, it, out));
}

#[verifier::spinoff_prover]
pub(crate) proof fn lemma_list_comp_parts(model: Model, it: ExprLoc, out: PreparedExprLoc)
    requires
        it.expr is ListComp,
        prepares_expr(model, it, out),
    ensures
        out.position == it.position,
        match (it.expr, out.expr) {
            (
                Expr::ListComp { elt, generators },
                PreparedExpr::ListComp { elt: elt_out, generators: generators_out, .. },
            ) => {
                let m1 = after_generators(model, *generators, bound_in_expr(*elt))->Ok_0;
                &&& prepares_generators(model, *generators, bound_in_expr(*elt), *generators_out)
                &&& prepares_expr(m1, *elt, *elt_out)
            },
            _ => false,
        },
{
    assert(expr_tree(model, it, out));
}

#[verifier::spinoff_prover]
pub(crate) proof fn lemma_set_comp_parts(model: Model, it: ExprLoc, out: PreparedExprLoc)
    requires
        it.expr is SetComp,
        prepares_expr(model, it, out),
    ensures
        out.position == it.position,
        match (it.expr, out.expr) {
            (
                Expr::SetComp { elt, generators },
                PreparedExpr::SetComp { elt: elt_out, generators: generators_out, .. },
            ) => {
                let m1 = after_generators(model, *generators, bound_in_expr(*elt))->Ok_0;
                &&& prepares_generators(model, *generators, bound_in_expr(*elt), *generators_out)
                &&& prepares_expr(m1, *elt, *elt_out)
            },
            _ => false,
        },
{
    assert(expr_tree(model, it, out));
}

#[verifier::spinoff_prover]
pub(crate) proof fn lemma_dict_comp_parts(model: Model, it: ExprLoc, out: PreparedExprLoc)
    requires
        it.expr is DictComp,
        prepares_expr(model, it, out),
    ensures
        out.position == it.position,
        match (it.expr, out.expr) {
            (
                Expr::DictComp { key, value, generators },
                PreparedExpr::DictComp { key: key_out, value: value_out, generators: generators_out, .. },
            ) => {
                let bound = bound_in_expr(*key) + bound_in_expr(*value);
                let m1 = after_generators(model, *generators, bound)->Ok_0;
                let m2 = after_expr(m1, *key)->Ok_0;
                &&& prepares_generators(model, *generators, bound, *generators_out)
                &&& prepares_expr(m1, *key, *key_out)
                &&& prepares_expr(m2, *value, *value_out)
            },
            _ => false,
        },
{
    assert(expr_tree(model, it, out));
}

#[verifier::spinoff_prover]
pub(crate) proof fn lemma_lambda_parts(model: Model, it: ExprLoc, out: PreparedExprLoc)
    requires
        it.expr is LambdaRaw,
        prepares_expr(model, it, out),
    ensures
        out.position == it.position,
        match (it.expr, out.expr) {
            (Expr::LambdaRaw(def), PreparedExpr::Lambda { func_def }) => prepares_lambda(
                model,
                *def,
                it.position,
                *func_def,
            ),
            _ => false,
        },
{
    assert(expr_tree(model, it, out));
}

#[verifier::spinoff_prover]
pub(crate) proof fn lemma_generator_parts(model: Model, it: ExprLoc, out: PreparedExprLoc)
    requires
        it.expr is GeneratorExpRaw,
        prepares_expr(model, it, out),
    ensures
        out.position == it.position,
        match (it.expr, out.expr) {
            (Expr::GeneratorExpRaw(def), PreparedExpr::GeneratorExp { func_def, iter }) => prepares_generator_def(
                model,
                *def,
                it.position,
                *func_def,
                *iter,
            ),
            _ => false,
        },
{
    assert(expr_tree(model, it, out));
}

#[verifier::spinoff_prover]
pub(crate) proof fn lemma_named_parts(model: Model, it: ExprLoc, out: PreparedExprLoc)
    requires
        it.expr is Named,
        prepares_expr(model, it, out),
    ensures
        out.position == it.position,
        match (it.expr, out.expr) {
            (Expr::Named { target, value }, PreparedExpr::Named { target: target_out, value: value_out }) => {
                let m1 = after_expr(model, *value)->Ok_0;
                &&& prepares_expr(model, *value, *value_out)
                &&& stored_by_walrus(m1, target) is Ok
                &&& target_out == stored_by_walrus(m1, target)->Ok_0.1
            },
            _ => false,
        },
{
    assert(expr_tree(model, it, out));
}

#[verifier::spinoff_prover]
pub(crate) proof fn lemma_mixed_args_whole_parts(it: ArgExprs, out: PreparedArgs)
    requires
        match (it, out) {
            (
                ArgExprs::ArgsKargs { args, kwargs, var_args, var_kwargs },
                PreparedArgs::ArgsKargs { args: args_out, kwargs: kwargs_out, var_args: var_args_out, var_kwargs: var_kwargs_out },
            ) => {
                &&& (match args_out { Some(inner) => listed(prepared_exprs(inner@)), None => absent() }) == (match args {
                    Some(inner) => listed(parsed_exprs(inner@)),
                    None => absent(),
                })
                &&& (match kwargs_out { Some(inner) => listed(prepared_kwargs(inner@)), None => absent() }) == (
                match kwargs {
                    Some(inner) => listed(parsed_kwargs(inner@)),
                    None => absent(),
                })
                &&& (match var_args_out { Some(inner) => prepared_expr(inner), None => absent() }) == (match var_args {
                    Some(inner) => parsed_expr(inner),
                    None => absent(),
                })
                &&& (match var_kwargs_out { Some(inner) => prepared_expr(inner), None => absent() }) == (
                match var_kwargs {
                    Some(inner) => parsed_expr(inner),
                    None => absent(),
                })
            },
            _ => false,
        },
    ensures
        prepared_args(out) == parsed_args(it),
{
    assert(prepared_args(out).parts =~= parsed_args(it).parts);
}

#[verifier::spinoff_prover]
pub(crate) proof fn lemma_field_whole_parts(it: FStringPart, out: PreparedFStringPart)
    requires
        match (it, out) {
            (
                FStringPart::Interpolation { expr, conversion, format_spec, debug_prefix },
                PreparedFStringPart::Interpolation {
                    expr: expr_out,
                    conversion: conversion_out,
                    format_spec: spec_out,
                    debug_prefix: prefix_out,
                },
            ) => {
                &&& conversion_out == conversion
                &&& prefix_out == debug_prefix
                &&& prepared_expr(*expr_out) == parsed_expr(*expr)
                &&& match format_spec {
                    Some(FormatSpec::Dynamic(x)) => match spec_out {
                        Some(PreparedFormatSpec::Dynamic(y)) => prepared_fstring_parts(y@) == parsed_fstring_parts(x@),
                        _ => false,
                    },
                    Some(FormatSpec::Static(x)) => spec_out == Some(PreparedFormatSpec::Static(x)),
                    None => spec_out is None,
                }
            },
            _ => false,
        },
    ensures
        prepared_fstring_part(out) == parsed_fstring_part(it),
{
    assert(prepared_fstring_part(out).parts =~= parsed_fstring_part(it).parts);
}

#[verifier::spinoff_prover]
pub(crate) proof fn lemma_handler_whole_parts(it: ExceptHandler, out: PreparedHandler)
    requires
        match it.name {
            Some(x) => match out.name {
                Some(y) => x.name_id == y.name_id && x.position == y.position,
                None => false,
            },
            None => out.name is None,
        },
        (match out.exc_type { Some(inner) => prepared_expr(inner), None => absent() }) == (match it.exc_type {
            Some(inner) => parsed_expr(inner),
            None => absent(),
        }),
        prepared_nodes(out.body@) == parsed_nodes(it.body@),
    ensures
        prepared_handler(out) == parsed_handler(it),
{
    assert(prepared_handler(out).parts =~= parsed_handler(it).parts);
}

#[verifier::spinoff_prover]
pub(crate) proof fn lemma_field_parts(model: Model, it: FStringPart, out: PreparedFStringPart)
    requires
        prepares_fstring_part(model, it, out),
        it is Interpolation,
    ensures
        match (it, out) {
            (
                FStringPart::Interpolation { expr, conversion, format_spec, debug_prefix },
                PreparedFStringPart::Interpolation {
                    expr: expr_out,
                    conversion: conversion_out,
                    format_spec: spec_out,
                    debug_prefix: prefix_out,
                },
            ) => {
                let m1 = after_expr(model, *expr)->Ok_0;
                &&& conversion_out == conversion
                &&& prefix_out == debug_prefix
                &&& prepares_expr(model, *expr, *expr_out)
                &&& match format_spec {
                    Some(FormatSpec::Dynamic(x)) => match spec_out {
                        Some(PreparedFormatSpec::Dynamic(y)) => prepares_fstring_parts(m1, x@, y@),
                        _ => false,
                    },
                    Some(FormatSpec::Static(x)) => spec_out == Some(PreparedFormatSpec::Static(x)),
                    None => spec_out is None,
                }
            },
            _ => false,
        },
{
    assert(fstring_part_tree(model, it, out));
}

#[verifier::spinoff_prover]
pub(crate) proof fn lemma_mixed_args_parts(model: Model, it: ArgExprs, out: PreparedArgs)
    requires
        prepares_args(model, it, out),
        it is ArgsKargs,
    ensures
        match (it, out) {
            (
                ArgExprs::ArgsKargs { args, kwargs, var_args, var_kwargs },
                PreparedArgs::ArgsKargs { args: args_out, kwargs: kwargs_out, var_args: var_args_out, var_kwargs: var_kwargs_out },
            ) => {
                let m1 = (match args { Some(inner) => after_exprs(model, inner@), None => Ok(model) })->Ok_0;
                let m2 = (match kwargs { Some(inner) => after_kwargs(m1, inner@), None => Ok(m1) })->Ok_0;
                let m3 = (match var_args { Some(inner) => after_expr(m2, inner), None => Ok(m2) })->Ok_0;
                &&& (match (args, args_out) { (Some(x), Some(y)) => prepares_exprs(model, x@, y@), (None, None) => true, _ => false })
                &&& (match (kwargs, kwargs_out) { (Some(x), Some(y)) => prepares_kwargs(m1, x@, y@), (None, None) => true, _ => false })
                &&& (match (var_args, var_args_out) { (Some(x), Some(y)) => prepares_expr(m2, x, y), (None, None) => true, _ => false })
                &&& (match (var_kwargs, var_kwargs_out) { (Some(x), Some(y)) => prepares_expr(m3, x, y), (None, None) => true, _ => false })
            },
            _ => false,
        },
{
    assert(args_tree(model, it, out));
}

#[verifier::spinoff_prover]
pub(crate) proof fn lemma_raise_statement_whole_parts(it: Node, out: PreparedNode)
    requires
        match (it, out) {
            (Node::Raise { exc, cause }, PreparedNode::Raise { exc: exc_out, cause: cause_out }) => {
                &&& (match exc_out { Some(inner) => prepared_raised(inner), None => absent() }) == (match exc {
                    Some(inner) => parsed_raised(inner),
                    None => absent(),
                })
                &&& (match cause_out { Some(inner) => prepared_expr(inner), None => absent() }) == (match cause {
                    Some(inner) => parsed_expr(inner),
                    None => absent(),
                })
            },
            _ => false,
        },
    ensures
        prepared_node(out) == parsed_node(it),
{
    reveal(parsed_node);
    reveal(prepared_node);
    assert(prepared_node(out).parts =~= parsed_node(it).parts);
}

#[verifier::spinoff_prover]
pub(crate) proof fn lemma_expr_statement_parts(model: Model, it: Node, out: Option<PreparedNode>)
    requires
        it is Expr,
        prepares_node(model, it, out),
    ensures
        match (it, out) {
            (Node::Expr(expr), Some(PreparedNode::Expr(expr_out))) => {
                &&& prepares_expr(model, expr, expr_out)
            },
            _ => false,
        },
{
    assert(node_tree(model, it, out));
}

#[verifier::spinoff_prover]
pub(crate) proof fn lemma_return_statement_parts(model: Model, it: Node, out: Option<PreparedNode>)
    requires
        it is Return,
        prepares_node(model, it, out),
    ensures
        match (it, out) {
            (Node::Return(value), Some(PreparedNode::Return(value_out))) => {
                &&& (match (value, value_out) { (Some(x), Some(y)) => prepares_expr(model, x, y), (None, None) => true, _ => false })
            },
            _ => false,
        },
{
    assert(node_tree(model, it, out));
}

#[verifier::spinoff_prover]
pub(crate) proof fn lemma_return_statement_whole_parts(it: Node, out: PreparedNode)
    requires
        match (it, out) {
            (Node::Return(value), PreparedNode::Return(value_out)) => {
                &&& (match value_out { Some(inner) => prepared_expr(inner), None => absent() }) == (match value { Some(inner) => parsed_expr(inner), None => absent() })
            },
            _ => false,
        },
    ensures
        prepared_node(out) == parsed_node(it),
{
    reveal(parsed_node);
    reveal(prepared_node);
    assert(prepared_node(out).parts =~= parsed_node(it).parts);
}

#[verifier::spinoff_prover]
pub(crate) proof fn lemma_assert_statement_parts(model: Model, it: Node, out: Option<PreparedNode>)
    requires
        it is Assert,
        prepares_node(model, it, out),
    ensures
        match (it, out) {
            (Node::Assert { test, msg }, Some(PreparedNode::Assert { test: test_out, msg: msg_out })) => {
                let m1 = after_expr(model, test)->Ok_0;
                &&& prepares_expr(model, test, test_out)
                &&& (match (msg, msg_out) { (Some(x), Some(y)) => prepares_expr(m1, x, y), (None, None) => true, _ => false })
            },
            _ => false,
        },
{
    assert(node_tree(model, it, out));
}

#[verifier::spinoff_prover]
pub(crate) proof fn lemma_assert_statement_whole_parts(it: Node, out: PreparedNode)
    requires
        match (it, out) {
            (Node::Assert { test, msg }, PreparedNode::Assert { test: test_out, msg: msg_out }) => {
                &&& prepared_expr(test_out) == parsed_expr(test)
                &&& (match msg_out { Some(inner) => prepared_expr(inner), None => absent() }) == (match msg { Some(inner) => parsed_expr(inner), None => absent() })
            },
            _ => false,
        },
    ensures
        prepared_node(out) == parsed_node(it),
{
    reveal(parsed_node);
    reveal(prepared_node);
    assert(prepared_node(out).parts =~= parsed_node(it).parts);
}

#[verifier::spinoff_prover]
pub(crate) proof fn lemma_unpack_assign_statement_parts(model: Model, it: Node, out: Option<PreparedNode>)
    requires
        it is UnpackAssign,
        prepares_node(model, it, out),
    ensures
        match (it, out) {
            (Node::UnpackAssign { targets, targets_position, object }, Some(PreparedNode::UnpackAssign { targets: targets_out, targets_position: targets_position_out, object: object_out })) => {
                let m1 = after_expr(model, object)->Ok_0;
                &&& targets_position_out == targets_position
                &&& prepares_expr(model, object, object_out)
                &&& prepares_targets(m1, targets@, targets_out@)
            },
            _ => false,
        },
{
    assert(node_tree(model, it, out));
}

#[verifier::spinoff_prover]
pub(crate) proof fn lemma_subscript_op_assign_statement_parts(model: Model, it: Node, out: Option<PreparedNode>)
    requires
        it is SubscriptOpAssign,
        prepares_node(model, it, out),
    ensures
        match (it, out) {
            (Node::SubscriptOpAssign { target, index, op, value, target_position }, Some(PreparedNode::SubscriptOpAssign { target: target_out, index: index_out, op: op_out, value: value_out, target_position: target_position_out })) => {
                let m1 = after_expr(model, target)->Ok_0;
                let m2 = after_expr(m1, index)->Ok_0;
                &&& op_out == op
                &&& target_position_out == target_position
                &&& prepares_expr(model, target, target_out)
                &&& prepares_expr(m1, index, index_out)
                &&& prepares_expr(m2, value, value_out)
            },
            _ => false,
        },
{
    assert(node_tree(model, it, out));
}

#[verifier::spinoff_prover]
pub(crate) proof fn lemma_subscript_assign_statement_parts(model: Model, it: Node, out: Option<PreparedNode>)
    requires
        it is SubscriptAssign,
        prepares_node(model, it, out),
    ensures
        match (it, out) {
            (Node::SubscriptAssign { target, index, value, target_position }, Some(PreparedNode::SubscriptAssign { target: target_out, index: index_out, value: value_out, target_position: target_position_out })) => {
                let m1 = after_expr(model, target)->Ok_0;
                let m2 = after_expr(m1, index)->Ok_0;
                &&& target_position_out == target_position
                &&& prepares_expr(model, target, target_out)
                &&& prepares_expr(m1, index, index_out)
                &&& prepares_expr(m2, value, value_out)
            },
            _ => false,
        },
{
    assert(node_tree(model, it, out));
}

#[verifier::spinoff_prover]
pub(crate) proof fn lemma_attr_op_assign_statement_parts(model: Model, it: Node, out: Option<PreparedNode>)
    requires
        it is AttrOpAssign,
        prepares_node(model, it, out),
    ensures
        match (it, out) {
            (Node::AttrOpAssign { object, attr, op, value, target_position }, Some(PreparedNode::AttrOpAssign { object: object_out, attr: attr_out, op: op_out, value: value_out, target_position: target_position_out })) => {
                let m1 = after_expr(model, object)->Ok_0;
                &&& attr_out == attr
                &&& op_out == op
                &&& target_position_out == target_position
                &&& prepares_expr(model, object, object_out)
                &&& prepares_expr(m1, value, value_out)
            },
            _ => false,
        },
{
    assert(node_tree(model, it, out));
}

#[verifier::spinoff_prover]
pub(crate) proof fn lemma_attr_assign_statement_parts(model: Model, it: Node, out: Option<PreparedNode>)
    requires
        it is AttrAssign,
        prepares_node(model, it, out),
    ensures
        match (it, out) {
            (Node::AttrAssign { object, attr, target_position, value }, Some(PreparedNode::AttrAssign { object: object_out, attr: attr_out, target_position: target_position_out, value: value_out })) => {
                let m1 = after_expr(model, object)->Ok_0;
                &&& attr_out == attr
                &&& target_position_out == target_position
                &&& prepares_expr(model, object, object_out)
                &&& prepares_expr(m1, value, value_out)
            },
            _ => false,
        },
{
    assert(node_tree(model, it, out));
}

#[verifier::spinoff_prover]
pub(crate) proof fn lemma_chain_assign_statement_parts(model: Model, it: Node, out: Option<PreparedNode>)
    requires
        it is ChainAssign,
        prepares_node(model, it, out),
    ensures
        match (it, out) {
            (Node::ChainAssign { targets, object }, Some(PreparedNode::ChainAssign { targets: targets_out, object: object_out })) => {
                let m1 = after_expr(model, object)->Ok_0;
                &&& prepares_expr(model, object, object_out)
                &&& prepares_targets(m1, targets@, targets_out@)
            },
            _ => false,
        },
{
    assert(node_tree(model, it, out));
}

#[verifier::spinoff_prover]
pub(crate) proof fn lemma_delete_statement_parts(model: Model, it: Node, out: Option<PreparedNode>)
    requires
        it is Delete,
        prepares_node(model, it, out),
    ensures
        match (it, out) {
            (Node::Delete(targets), Some(PreparedNode::Delete(targets_out))) => {
                &&& prepares_delete_targets(model, targets@, targets_out@)
            },
            _ => false,
        },
{
    assert(node_tree(model, it, out));
}

#[verifier::spinoff_prover]
pub(crate) proof fn lemma_for_statement_parts(model: Model, it: Node, out: Option<PreparedNode>)
    requires
        it is For,
        prepares_node(model, it, out),
    ensures
        match (it, out) {
            (Node::For { target, iter, body, or_else, is_async }, Some(PreparedNode::For { target: target_out, iter: iter_out, body: body_out, or_else: or_else_out, is_async: is_async_out })) => {
                let m1 = after_target(model, target)->Ok_0;
                let m2 = after_expr(m1, iter)->Ok_0;
                let m3 = after_nodes(m2, body@)->Ok_0;
                &&& is_async_out == is_async
                &&& prepares_target(model, target, target_out)
                &&& prepares_expr(m1, iter, iter_out)
                &&& prepares_nodes(m2, body@, body_out@)
                &&& prepares_nodes(m3, or_else@, or_else_out@)
            },
            _ => false,
        },
{
    assert(node_tree(model, it, out));
}

#[verifier::spinoff_prover]
pub(crate) proof fn lemma_break_statement_parts(model: Model, it: Node, out: Option<PreparedNode>)
    requires
        it is Break,
        prepares_node(model, it, out),
    ensures
        match (it, out) {
            (Node::Break { position }, Some(PreparedNode::Break { position: position_out })) => {
                &&& position_out == position
            },
            _ => false,
        },
{
    assert(node_tree(model, it, out));
}

#[verifier::spinoff_prover]
pub(crate) proof fn lemma_continue_statement_parts(model: Model, it: Node, out: Option<PreparedNode>)
    requires
        it is Continue,
        prepares_node(model, it, out),
    ensures
        match (it, out) {
            (Node::Continue { position }, Some(PreparedNode::Continue { position: position_out })) => {
                &&& position_out == position
            },
            _ => false,
        },
{
    assert(node_tree(model, it, out));
}

#[verifier::spinoff_prover]
pub(crate) proof fn lemma_while_statement_parts(model: Model, it: Node, out: Option<PreparedNode>)
    requires
        it is While,
        prepares_node(model, it, out),
    ensures
        match (it, out) {
            (Node::While { test, body, or_else }, Some(PreparedNode::While { test: test_out, body: body_out, or_else: or_else_out })) => {
                let m1 = after_expr(model, test)->Ok_0;
                let m2 = after_nodes(m1, body@)->Ok_0;
                &&& prepares_expr(model, test, test_out)
                &&& prepares_nodes(m1, body@, body_out@)
                &&& prepares_nodes(m2, or_else@, or_else_out@)
            },
            _ => false,
        },
{
    assert(node_tree(model, it, out));
}

#[verifier::spinoff_prover]
pub(crate) proof fn lemma_if_statement_parts(model: Model, it: Node, out: Option<PreparedNode>)
    requires
        it is If,
        prepares_node(model, it, out),
    ensures
        match (it, out) {
            (Node::If { test, body, or_else }, Some(PreparedNode::If { test: test_out, body: body_out, or_else: or_else_out })) => {
                let m1 = after_expr(model, test)->Ok_0;
                let m2 = after_nodes(m1, body@)->Ok_0;
                &&& prepares_expr(model, test, test_out)
                &&& prepares_nodes(m1, body@, body_out@)
                &&& prepares_nodes(m2, or_else@, or_else_out@)
            },
            _ => false,
        },
{
    assert(node_tree(model, it, out));
}

#[verifier::spinoff_prover]
pub(crate) proof fn lemma_with_statement_parts(model: Model, it: Node, out: Option<PreparedNode>)
    requires
        it is With,
        prepares_node(model, it, out),
    ensures
        match (it, out) {
            (Node::With { context, target, body, position, is_async }, Some(PreparedNode::With { context: context_out, target: target_out, body: body_out, position: position_out, is_async: is_async_out })) => {
                let m1 = after_expr(model, context)->Ok_0;
                let m2 = (match target { Some(inner) => after_target(m1, inner), None => Ok(m1) })->Ok_0;
                &&& position_out == position
                &&& is_async_out == is_async
                &&& prepares_expr(model, context, context_out)
                &&& (match (target, target_out) { (Some(x), Some(y)) => prepares_target(m1, x, y), (None, None) => true, _ => false })
                &&& prepares_nodes(m2, body@, body_out@)
            },
            _ => false,
        },
{
    assert(node_tree(model, it, out));
}

#[verifier::spinoff_prover]
pub(crate) proof fn lemma_with_statement_whole_parts(it: Node, out: PreparedNode)
    requires
        match (it, out) {
            (Node::With { context, target, body, position, is_async }, PreparedNode::With { context: context_out, target: target_out, body: body_out, position: position_out, is_async: is_async_out }) => {
                &&& position_out == position
                &&& is_async_out == is_async
                &&& prepared_expr(context_out) == parsed_expr(context)
                &&& (match target_out { Some(inner) => prepared_target(inner), None => absent() }) == (match target { Some(inner) => parsed_target(inner), None => absent() })
                &&& listed(prepared_nodes(body_out@)) == listed(parsed_nodes(body@))
            },
            _ => false,
        },
    ensures
        prepared_node(out) == parsed_node(it),
{
    reveal(parsed_node);
    reveal(prepared_node);
    assert(prepared_node(out).parts =~= parsed_node(it).parts);
}

#[verifier::spinoff_prover]
pub(crate) proof fn lemma_raise_statement_parts(model: Model, it: Node, out: Option<PreparedNode>)
    requires
        it is Raise,
        prepares_node(model, it, out),
    ensures
        match (it, out) {
            (Node::Raise { exc, cause }, Some(PreparedNode::Raise { exc: exc_out, cause: cause_out })) => {
                let m1 = (match exc { Some(inner) => after_expr(model, inner), None => Ok(model) })->Ok_0;
                &&& (match (exc, exc_out) { (Some(x), Some(y)) => prepares_raised(model, x, y), (None, None) => true, _ => false })
                &&& (match (cause, cause_out) { (Some(x), Some(y)) => prepares_expr(m1, x, y), (None, None) => true, _ => false })
            },
            _ => false,
        },
{
    assert(node_tree(model, it, out));
}

#[verifier::spinoff_prover]
pub(crate) proof fn lemma_assign_statement_parts(model: Model, it: Node, out: Option<PreparedNode>)
    requires
        it is Assign,
        prepares_node(model, it, out),
    ensures
        match (it, out) {
            (Node::Assign { target, object }, Some(PreparedNode::Assign { target: target_out, object: object_out })) => {
                let m1 = after_expr(model, object)->Ok_0;
                &&& prepares_expr(model, object, object_out)
                &&& stored(m1, target) is Ok
                &&& target_out == stored(m1, target)->Ok_0.1
            },
            _ => false,
        },
{
    assert(node_tree(model, it, out));
}

#[verifier::spinoff_prover]
pub(crate) proof fn lemma_op_assign_statement_parts(model: Model, it: Node, out: Option<PreparedNode>)
    requires
        it is OpAssign,
        prepares_node(model, it, out),
    ensures
        match (it, out) {
            (Node::OpAssign { target, op, value }, Some(PreparedNode::OpAssign { target: target_out, op: op_out, value: value_out })) => {
                &&& op_out == op
                &&& stored(model, target) is Ok
                &&& target_out == stored(model, target)->Ok_0.1
                &&& prepares_expr(stored(model, target)->Ok_0.0, value, value_out)
            },
            _ => false,
        },
{
    assert(node_tree(model, it, out));
}

#[verifier::spinoff_prover]
pub(crate) proof fn lemma_type_alias_statement_parts(model: Model, it: Node, out: Option<PreparedNode>)
    requires
        it is TypeAlias,
        prepares_node(model, it, out),
    ensures
        match (it, out) {
            (Node::TypeAlias { name, value }, Some(PreparedNode::TypeAlias { name: name_out, value: value_out })) => {
                let m1 = after_function_def(model, value)->Ok_0;
                &&& prepares_function_def(model, value, value_out)
                &&& stored(m1, name) is Ok
                &&& name_out == stored(m1, name)->Ok_0.1
            },
            _ => false,
        },
{
    assert(node_tree(model, it, out));
}

#[verifier::spinoff_prover]
pub(crate) proof fn lemma_function_def_statement_parts(model: Model, it: Node, out: Option<PreparedNode>)
    requires
        it is FunctionDef,
        prepares_node(model, it, out),
    ensures
        match (it, out) {
            (Node::FunctionDef { def, decorators }, Some(PreparedNode::FunctionDef { def: def_out, decorators: decorators_out })) => {
                let m1 = after_exprs(model, decorators@)->Ok_0;
                &&& prepares_exprs(model, decorators@, decorators_out@)
                &&& prepares_function_def(m1, def, def_out)
            },
            _ => false,
        },
{
    assert(node_tree(model, it, out));
}

#[verifier::spinoff_prover]
pub(crate) proof fn lemma_class_def_statement_parts(model: Model, it: Node, out: Option<PreparedNode>)
    requires
        it is ClassDef,
        prepares_node(model, it, out),
    ensures
        match (it, out) {
            (Node::ClassDef(def), Some(PreparedNode::ClassDef(def_out))) => {
                prepares_class_def(model, *def, *def_out)
            },
            _ => false,
        },
{
    assert(node_tree(model, it, out));
}

#[verifier::spinoff_prover]
pub(crate) proof fn lemma_try_statement_parts(model: Model, it: Node, out: Option<PreparedNode>)
    requires
        it is Try,
        prepares_node(model, it, out),
    ensures
        match (it, out) {
            (Node::Try(block), Some(PreparedNode::Try(block_out))) => {
                let m1 = after_nodes(model, block.body@)->Ok_0;
                let m2 = after_handlers(m1, block.handlers@)->Ok_0;
                let m3 = after_nodes(m2, block.or_else@)->Ok_0;
                &&& prepares_nodes(model, block.body@, block_out.body@)
                &&& prepares_handlers(m1, block.handlers@, block_out.handlers@)
                &&& prepares_nodes(m2, block.or_else@, block_out.or_else@)
                &&& prepares_nodes(m3, block.finally@, block_out.finally@)
            },
            _ => false,
        },
{
    assert(node_tree(model, it, out));
}

#[verifier::spinoff_prover]
pub(crate) proof fn lemma_import_statement_parts(model: Model, it: Node, out: Option<PreparedNode>)
    requires
        it is Import,
        prepares_node(model, it, out),
    ensures
        match (it, out) {
            (Node::Import { names }, Some(PreparedNode::Import { names: names_out })) => {
                prepares_import_names(model, names@, names_out@)
            },
            _ => false,
        },
{
    assert(node_tree(model, it, out));
}

#[verifier::spinoff_prover]
pub(crate) proof fn lemma_import_from_statement_parts(model: Model, it: Node, out: Option<PreparedNode>)
    requires
        it is ImportFrom,
        prepares_node(model, it, out),
    ensures
        match (it, out) {
            (Node::ImportFrom { module_name, names, position }, Some(PreparedNode::ImportFrom { module_name: module_name_out, names: names_out, position: position_out })) => {
                &&& module_name_out == module_name
                &&& position_out == position
                &&& prepares_import_from(model, names@, names_out@)
            },
            _ => false,
        },
{
    assert(node_tree(model, it, out));
}

} // verus!
