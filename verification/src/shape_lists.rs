//! Preparation keeps the shape of what expressions and statements are made of.

use crate::ast::{
    ArgExprs, CallArg, CallKwarg, CmpOperator, Comprehension, DeleteTarget, DictItem, ExceptHandler, Expr, ExprLoc,
    FStringPart, FormatSpec, GeneratorDef, Generators, Identifier, ImportName, Kwarg, LambdaDef, Literal, Node,
    ParsedParam, ParsedSignature, SequenceItem, UnpackTarget,
};
use crate::model::{closed, opened, stored, with_comp_scope, with_walrus_slots, Model};
use crate::names::{in_order, StringId};
use crate::parse::CodeRange;
use crate::prepare_spec::{
    after_call_args, after_call_kwargs, after_clause_targets, after_clauses, after_comp_target, after_comp_targets,
    after_comparisons, after_delete_targets, after_dict_items, after_expr, after_exprs, after_fstring_parts,
    after_handlers, after_import_from, after_import_names, after_interpolations, after_items, after_kwargs,
    after_nodes, after_params, after_targets, args_tree, call_arg_tree, call_args_tree, call_kwarg_tree,
    call_kwargs_tree, clause_targets, clause_targets_tree, clauses_tree, comp_target_tree, comp_targets_tree,
    comparisons_tree, count_defaults, default_indices, defaults_tree, delete_target_tree, delete_targets_tree,
    describes_signature, dict_item_tree, dict_items_tree, exprs_tree, fstring_part_tree, fstring_parts_tree,
    generator_def_tree, generators_tree, handler_tree, handlers_tree, import_from_tree, import_names_tree,
    interpolations_tree, item_tree, items_tree, kwargs_tree, lambda_tree, node_tree, params_tree, prepares_args,
    prepares_call_arg, prepares_call_args, prepares_call_kwarg, prepares_call_kwargs, prepares_clause_targets,
    prepares_clauses, prepares_comp_target, prepares_comp_targets, prepares_comparisons, prepares_defaults,
    prepares_delete_target, prepares_delete_targets, prepares_dict_item, prepares_dict_items, prepares_expr,
    prepares_exprs, prepares_fstring_part, prepares_fstring_parts, prepares_generator_def, prepares_generators,
    prepares_handler, prepares_handlers, prepares_import_from, prepares_import_names, prepares_interpolations,
    prepares_item, prepares_items, prepares_kwargs, prepares_lambda, prepares_node, prepares_params, prepares_raised,
    prepares_target, prepares_targets, target_tree, targets_tree, walrus_names,
};
use crate::prepared::{
    PreparedArgs, PreparedCallArg, PreparedCallKwarg, PreparedClause, PreparedDeleteTarget, PreparedDictItem,
    PreparedExpr, PreparedExprLoc, PreparedFStringPart, PreparedFormatSpec, PreparedFunctionDef, PreparedGenerators,
    PreparedHandler, PreparedImportName, PreparedInterpolation, PreparedKwarg, PreparedNode, PreparedSequenceItem,
    PreparedTarget, ResolvedIdentifier,
};
use crate::scope::{lambda_scope_info, names_of_params, param_names, scope_info};
use crate::shape::{
    absent, branch, law_bound_names_stay_the_same, lemma_resolved_name, listed, parsed_args, parsed_call_arg,
    parsed_call_args, parsed_call_kwarg, parsed_call_kwargs, parsed_clause, parsed_clauses, parsed_comparison,
    parsed_comparisons, parsed_defaults, parsed_delete_target, parsed_delete_targets, parsed_dict_item,
    parsed_dict_items, parsed_expr, parsed_exprs, parsed_fstring_part, parsed_fstring_parts, parsed_generators,
    parsed_handler, parsed_handlers, parsed_head, parsed_interpolation, parsed_interpolations, parsed_item,
    parsed_items, parsed_kwarg, parsed_kwargs, parsed_node, parsed_nodes, parsed_options, parsed_raised,
    parsed_target, parsed_targets, prepared_args, prepared_call_arg, prepared_call_args, prepared_call_kwarg,
    prepared_call_kwargs, prepared_clause, prepared_clauses, prepared_comparison, prepared_comparisons,
    prepared_defaults, prepared_delete_target, prepared_delete_targets, prepared_dict_item, prepared_dict_items,
    prepared_expr, prepared_exprs, prepared_fstring_part, prepared_fstring_parts, prepared_function,
    prepared_generators, prepared_handler, prepared_handlers, prepared_interpolation, prepared_interpolations,
    prepared_item, prepared_items, prepared_kwarg, prepared_kwargs, prepared_node, prepared_nodes, prepared_options,
    prepared_raised, prepared_target, prepared_targets, Form, Shape,
};
use crate::shape_laws::{law_shape_of_expr, law_shape_of_nodes, law_shape_of_raised};
use crate::shape_parts::{
    lemma_call_parts, lemma_field_parts, lemma_field_whole_parts, lemma_handler_whole_parts, lemma_mixed_args_parts,
    lemma_mixed_args_whole_parts,
};
use crate::tstring::TemplateInterpolation;
use vstd::prelude::*;

verus! {

#[verifier::spinoff_prover]
pub(crate) proof fn lemma_boxed_option_shape(model: Model, it: Option<Box<ExprLoc>>, out: Option<Box<PreparedExprLoc>>)
    requires
        match (it, out) { (Some(x), Some(y)) => prepares_expr(model, *x, *y), (None, None) => true, _ => false },
    ensures
        (match out { Some(inner) => prepared_expr(*inner), None => absent() }) == (match it {
            Some(inner) => parsed_expr(*inner),
            None => absent(),
        }),
    decreases it, 0int,
{
    match (it, out) {
        (Some(x), Some(y)) => {
            law_shape_of_expr(model, *x, *y);
        },
        _ => {},
    }
}

#[verifier::spinoff_prover]
pub(crate) proof fn lemma_option_shape(model: Model, it: Option<ExprLoc>, out: Option<PreparedExprLoc>)
    requires
        match (it, out) { (Some(x), Some(y)) => prepares_expr(model, x, y), (None, None) => true, _ => false },
    ensures
        (match out { Some(inner) => prepared_expr(inner), None => absent() }) == (match it {
            Some(inner) => parsed_expr(inner),
            None => absent(),
        }),
    decreases it, 0int,
{
    match (it, out) {
        (Some(x), Some(y)) => {
            law_shape_of_expr(model, x, y);
        },
        _ => {},
    }
}

#[verifier::spinoff_prover]
pub(crate) proof fn lemma_target_option_shape(model: Model, it: Option<UnpackTarget>, out: Option<PreparedTarget>)
    requires
        match (it, out) { (Some(x), Some(y)) => prepares_target(model, x, y), (None, None) => true, _ => false },
    ensures
        (match out { Some(inner) => prepared_target(inner), None => absent() }) == (match it {
            Some(inner) => parsed_target(inner),
            None => absent(),
        }),
    decreases it, 0int,
{
    match (it, out) {
        (Some(x), Some(y)) => {
            lemma_target_shape(model, x, y);
        },
        _ => {},
    }
}

#[verifier::spinoff_prover]
pub(crate) proof fn lemma_exprs_option_shape(model: Model, it: Option<Vec<ExprLoc>>, out: Option<Vec<PreparedExprLoc>>)
    requires
        match (it, out) { (Some(x), Some(y)) => prepares_exprs(model, x@, y@), (None, None) => true, _ => false },
    ensures
        (match out { Some(inner) => listed(prepared_exprs(inner@)), None => absent() }) == (match it {
            Some(inner) => listed(parsed_exprs(inner@)),
            None => absent(),
        }),
    decreases it, 0int,
{
    match (it, out) {
        (Some(x), Some(y)) => {
            lemma_exprs_shape(model, x@, y@);
        },
        _ => {},
    }
}

#[verifier::spinoff_prover]
pub(crate) proof fn lemma_kwargs_option_shape(model: Model, it: Option<Vec<Kwarg>>, out: Option<Vec<PreparedKwarg>>)
    requires
        match (it, out) { (Some(x), Some(y)) => prepares_kwargs(model, x@, y@), (None, None) => true, _ => false },
    ensures
        (match out { Some(inner) => listed(prepared_kwargs(inner@)), None => absent() }) == (match it {
            Some(inner) => listed(parsed_kwargs(inner@)),
            None => absent(),
        }),
    decreases it, 0int,
{
    match (it, out) {
        (Some(x), Some(y)) => {
            lemma_kwargs_shape(model, x@, y@);
        },
        _ => {},
    }
}

#[verifier::spinoff_prover]
pub(crate) proof fn lemma_raised_option_shape(model: Model, it: Option<ExprLoc>, out: Option<PreparedExprLoc>)
    requires
        match (it, out) { (Some(x), Some(y)) => prepares_raised(model, x, y), (None, None) => true, _ => false },
    ensures
        (match out { Some(inner) => prepared_raised(inner), None => absent() }) == (match it {
            Some(inner) => parsed_raised(inner),
            None => absent(),
        }),
    decreases it, 0int,
{
    match (it, out) {
        (Some(x), Some(y)) => {
            law_shape_of_raised(model, x, y);
        },
        _ => {},
    }
}

#[verifier::spinoff_prover]
pub(crate) proof fn lemma_mixed_args_shape(model: Model, it: ArgExprs, out: PreparedArgs)
    requires
        prepares_args(model, it, out),
        it is ArgsKargs,
    ensures
        prepared_args(out) == parsed_args(it),
    decreases it, 0int,
{
    lemma_mixed_args_parts(model, it, out);
    match it {
        ArgExprs::ArgsKargs { args, kwargs, var_args, var_kwargs } => {
            match out {
                PreparedArgs::ArgsKargs { args: args_out, kwargs: kwargs_out, var_args: var_args_out, var_kwargs: var_kwargs_out } => {
                    let m1 = (match args { Some(inner) => after_exprs(model, inner@), None => Ok(model) })->Ok_0;
                    let m2 = (match kwargs { Some(inner) => after_kwargs(m1, inner@), None => Ok(m1) })->Ok_0;
                    let m3 = (match var_args { Some(inner) => after_expr(m2, inner), None => Ok(m2) })->Ok_0;
                    lemma_exprs_option_shape(model, args, args_out);
                    lemma_kwargs_option_shape(m1, kwargs, kwargs_out);
                    lemma_option_shape(m2, var_args, var_args_out);
                    lemma_option_shape(m3, var_kwargs, var_kwargs_out);
                    lemma_mixed_args_whole_parts(it, out);
                },
                _ => {},
            }
        },
        _ => {},
    }
}

#[verifier::spinoff_prover]
pub(crate) proof fn lemma_args_shape(model: Model, it: ArgExprs, out: PreparedArgs)
    requires
        prepares_args(model, it, out),
    ensures
        prepared_args(out) == parsed_args(it),
    decreases it, 1int,
{
    assert(args_tree(model, it, out));
    match (it, out) {
        (ArgExprs::One(x), PreparedArgs::One(y)) => {
            law_shape_of_expr(model, x, y);
        },
        (ArgExprs::Two(x, u), PreparedArgs::Two(y, v)) => {
            law_shape_of_expr(model, x, y);
            law_shape_of_expr(after_expr(model, x)->Ok_0, u, v);
        },
        (ArgExprs::Args(x), PreparedArgs::Args(y)) => {
            lemma_exprs_shape(model, x@, y@);
        },
        (ArgExprs::Kwargs(x), PreparedArgs::Kwargs(y)) => {
            lemma_kwargs_shape(model, x@, y@);
        },
        (ArgExprs::ArgsKargs { .. }, _) => {
            lemma_mixed_args_shape(model, it, out);
        },
        (
            ArgExprs::GeneralizedCall { args, kwargs },
            PreparedArgs::GeneralizedCall { args: args_out, kwargs: kwargs_out },
        ) => {
            lemma_call_args_shape(model, args@, args_out@);
            lemma_call_kwargs_shape(after_call_args(model, args@)->Ok_0, kwargs@, kwargs_out@);
        },
        _ => {},
    }
}

#[verifier::spinoff_prover]
pub(crate) proof fn lemma_item_shape(model: Model, it: SequenceItem, out: PreparedSequenceItem)
    requires
        prepares_item(model, it, out),
    ensures
        prepared_item(out) == parsed_item(it),
    decreases it, 0int,
{
    assert(item_tree(model, it, out));
    match (it, out) {
        (SequenceItem::Value(x), PreparedSequenceItem::Value(y)) => {
            law_shape_of_expr(model, x, y);
        },
        (SequenceItem::Unpack(x), PreparedSequenceItem::Unpack(y)) => {
            law_shape_of_expr(model, x, y);
        },
        _ => {},
    }
}

#[verifier::spinoff_prover]
pub(crate) proof fn lemma_dict_item_shape(model: Model, it: DictItem, out: PreparedDictItem)
    requires
        prepares_dict_item(model, it, out),
    ensures
        prepared_dict_item(out) == parsed_dict_item(it),
    decreases it, 0int,
{
    assert(dict_item_tree(model, it, out));
    match (it, out) {
        (DictItem::Pair(x, u), PreparedDictItem::Pair(y, v)) => {
            law_shape_of_expr(model, x, y);
            law_shape_of_expr(after_expr(model, x)->Ok_0, u, v);
        },
        (DictItem::Unpack(x), PreparedDictItem::Unpack(y)) => {
            law_shape_of_expr(model, x, y);
        },
        _ => {},
    }
}

#[verifier::spinoff_prover]
pub(crate) proof fn lemma_call_arg_shape(model: Model, it: CallArg, out: PreparedCallArg)
    requires
        prepares_call_arg(model, it, out),
    ensures
        prepared_call_arg(out) == parsed_call_arg(it),
    decreases it, 0int,
{
    assert(call_arg_tree(model, it, out));
    match (it, out) {
        (CallArg::Value(x), PreparedCallArg::Value(y)) => {
            law_shape_of_expr(model, x, y);
        },
        (CallArg::Unpack(x), PreparedCallArg::Unpack(y)) => {
            law_shape_of_expr(model, x, y);
        },
        _ => {},
    }
}

#[verifier::spinoff_prover]
pub(crate) proof fn lemma_call_kwarg_shape(model: Model, it: CallKwarg, out: PreparedCallKwarg)
    requires
        prepares_call_kwarg(model, it, out),
    ensures
        prepared_call_kwarg(out) == parsed_call_kwarg(it),
    decreases it, 0int,
{
    assert(call_kwarg_tree(model, it, out));
    match (it, out) {
        (CallKwarg::Named(x), PreparedCallKwarg::Named(y)) => {
            law_shape_of_expr(model, x.value, y.value);
            assert(prepared_kwarg(y) == parsed_kwarg(x));
        },
        (CallKwarg::Unpack(x), PreparedCallKwarg::Unpack(y)) => {
            law_shape_of_expr(model, x, y);
        },
        _ => {},
    }
}

#[verifier::spinoff_prover]
pub(crate) proof fn lemma_fstring_part_shape(model: Model, it: FStringPart, out: PreparedFStringPart)
    requires
        prepares_fstring_part(model, it, out),
    ensures
        prepared_fstring_part(out) == parsed_fstring_part(it),
    decreases it, 0int,
{
    match it {
        FStringPart::Interpolation { expr, format_spec, .. } => {
            lemma_field_parts(model, it, out);
            match out {
                PreparedFStringPart::Interpolation { expr: expr_out, format_spec: spec_out, .. } => {
                    law_shape_of_expr(model, *expr, *expr_out);
                    let m1 = after_expr(model, *expr)->Ok_0;
                    match format_spec {
                        Some(FormatSpec::Dynamic(x)) => match spec_out {
                            Some(PreparedFormatSpec::Dynamic(y)) => {
                                lemma_fstring_parts_shape(m1, x@, y@);
                            },
                            _ => {},
                        },
                        _ => {},
                    }
                    lemma_field_whole_parts(it, out);
                },
                _ => {},
            }
        },
        FStringPart::Literal(_) => {
            assert(fstring_part_tree(model, it, out));
        },
    }
}

#[verifier::spinoff_prover]
pub(crate) proof fn lemma_target_shape(model: Model, it: UnpackTarget, out: PreparedTarget)
    requires
        prepares_target(model, it, out),
    ensures
        prepared_target(out) == parsed_target(it),
    decreases it, 0int,
{
    assert(target_tree(model, it, out));
    match (it, out) {
        (UnpackTarget::Name(x), PreparedTarget::Name(_)) => {
            law_bound_names_stay_the_same(model, x);
        },
        (UnpackTarget::Starred(x), PreparedTarget::Starred(_)) => {
            law_bound_names_stay_the_same(model, x);
        },
        (UnpackTarget::Attr { object, .. }, PreparedTarget::Attr { object: object_out, .. }) => {
            law_shape_of_expr(model, object, object_out);
        },
        (
            UnpackTarget::Subscript { object, index, .. },
            PreparedTarget::Subscript { object: object_out, index: index_out, .. },
        ) => {
            law_shape_of_expr(model, object, object_out);
            law_shape_of_expr(after_expr(model, object)->Ok_0, index, index_out);
        },
        (UnpackTarget::Tuple { targets, .. }, PreparedTarget::Tuple { targets: targets_out, .. }) => {
            lemma_targets_shape(model, targets@, targets_out@);
        },
        _ => {},
    }
}

#[verifier::spinoff_prover]
pub(crate) proof fn lemma_delete_target_shape(model: Model, it: DeleteTarget, out: PreparedDeleteTarget)
    requires
        prepares_delete_target(model, it, out),
    ensures
        prepared_delete_target(out) == parsed_delete_target(it),
    decreases it, 0int,
{
    assert(delete_target_tree(model, it, out));
    match (it, out) {
        (DeleteTarget::Name(x), PreparedDeleteTarget::Name(_)) => {
            law_bound_names_stay_the_same(model, x);
        },
        (DeleteTarget::Attr { object, .. }, PreparedDeleteTarget::Attr { object: object_out, .. }) => {
            law_shape_of_expr(model, object, object_out);
        },
        (
            DeleteTarget::Subscript { object, index, .. },
            PreparedDeleteTarget::Subscript { object: object_out, index: index_out, .. },
        ) => {
            law_shape_of_expr(model, object, object_out);
            law_shape_of_expr(after_expr(model, object)->Ok_0, index, index_out);
        },
        _ => {},
    }
}

#[verifier::spinoff_prover]
pub(crate) proof fn lemma_comp_target_shape(model: Model, it: UnpackTarget, out: PreparedTarget)
    requires
        prepares_comp_target(model, it, out),
    ensures
        prepared_target(out) == parsed_target(it),
    decreases it, 0int,
{
    assert(comp_target_tree(model, it, out));
    match (it, out) {
        (UnpackTarget::Name(x), PreparedTarget::Name(_)) => {
            law_bound_names_stay_the_same(model, x);
        },
        (UnpackTarget::Starred(x), PreparedTarget::Starred(_)) => {
            law_bound_names_stay_the_same(model, x);
        },
        (UnpackTarget::Tuple { targets, .. }, PreparedTarget::Tuple { targets: targets_out, .. }) => {
            lemma_comp_targets_shape(model, targets@, targets_out@);
        },
        _ => {},
    }
}

#[verifier::spinoff_prover]
pub(crate) proof fn lemma_exprs_shape(model: Model, list: Seq<ExprLoc>, out: Seq<PreparedExprLoc>)
    requires
        prepares_exprs(model, list, out),
    ensures
        prepared_exprs(out) == parsed_exprs(list),
    decreases list, 1int,
{
    assert(exprs_tree(model, list, out));
    if list.len() > 0 {
        let before = after_exprs(model, list.drop_last())->Ok_0;
        lemma_exprs_shape(model, list.drop_last(), out.drop_last());
        law_shape_of_expr(before, list.last(), out.last());
    }
}

#[verifier::spinoff_prover]
pub(crate) proof fn lemma_items_shape(model: Model, list: Seq<SequenceItem>, out: Seq<PreparedSequenceItem>)
    requires
        prepares_items(model, list, out),
    ensures
        prepared_items(out) == parsed_items(list),
    decreases list, 1int,
{
    assert(items_tree(model, list, out));
    if list.len() > 0 {
        let before = after_items(model, list.drop_last())->Ok_0;
        lemma_items_shape(model, list.drop_last(), out.drop_last());
        lemma_item_shape(before, list.last(), out.last());
    }
}

#[verifier::spinoff_prover]
pub(crate) proof fn lemma_dict_items_shape(model: Model, list: Seq<DictItem>, out: Seq<PreparedDictItem>)
    requires
        prepares_dict_items(model, list, out),
    ensures
        prepared_dict_items(out) == parsed_dict_items(list),
    decreases list, 1int,
{
    assert(dict_items_tree(model, list, out));
    if list.len() > 0 {
        let before = after_dict_items(model, list.drop_last())->Ok_0;
        lemma_dict_items_shape(model, list.drop_last(), out.drop_last());
        lemma_dict_item_shape(before, list.last(), out.last());
    }
}

#[verifier::spinoff_prover]
pub(crate) proof fn lemma_call_args_shape(model: Model, list: Seq<CallArg>, out: Seq<PreparedCallArg>)
    requires
        prepares_call_args(model, list, out),
    ensures
        prepared_call_args(out) == parsed_call_args(list),
    decreases list, 1int,
{
    assert(call_args_tree(model, list, out));
    if list.len() > 0 {
        let before = after_call_args(model, list.drop_last())->Ok_0;
        lemma_call_args_shape(model, list.drop_last(), out.drop_last());
        lemma_call_arg_shape(before, list.last(), out.last());
    }
}

#[verifier::spinoff_prover]
pub(crate) proof fn lemma_call_kwargs_shape(model: Model, list: Seq<CallKwarg>, out: Seq<PreparedCallKwarg>)
    requires
        prepares_call_kwargs(model, list, out),
    ensures
        prepared_call_kwargs(out) == parsed_call_kwargs(list),
    decreases list, 1int,
{
    assert(call_kwargs_tree(model, list, out));
    if list.len() > 0 {
        let before = after_call_kwargs(model, list.drop_last())->Ok_0;
        lemma_call_kwargs_shape(model, list.drop_last(), out.drop_last());
        lemma_call_kwarg_shape(before, list.last(), out.last());
    }
}

#[verifier::spinoff_prover]
pub(crate) proof fn lemma_kwargs_shape(model: Model, list: Seq<Kwarg>, out: Seq<PreparedKwarg>)
    requires
        prepares_kwargs(model, list, out),
    ensures
        prepared_kwargs(out) == parsed_kwargs(list),
    decreases list, 1int,
{
    assert(kwargs_tree(model, list, out));
    if list.len() > 0 {
        let before = after_kwargs(model, list.drop_last())->Ok_0;
        lemma_kwargs_shape(model, list.drop_last(), out.drop_last());
        law_shape_of_expr(before, list.last().value, out.last().value);
        assert(prepared_kwarg(out.last()) == parsed_kwarg(list.last()));
    }
}

#[verifier::spinoff_prover]
pub(crate) proof fn lemma_fstring_parts_shape(model: Model, list: Seq<FStringPart>, out: Seq<PreparedFStringPart>)
    requires
        prepares_fstring_parts(model, list, out),
    ensures
        prepared_fstring_parts(out) == parsed_fstring_parts(list),
    decreases list, 1int,
{
    assert(fstring_parts_tree(model, list, out));
    if list.len() > 0 {
        let before = after_fstring_parts(model, list.drop_last())->Ok_0;
        lemma_fstring_parts_shape(model, list.drop_last(), out.drop_last());
        lemma_fstring_part_shape(before, list.last(), out.last());
    }
}

#[verifier::spinoff_prover]
pub(crate) proof fn lemma_comparisons_shape(model: Model, list: Seq<(CmpOperator, ExprLoc)>, out: Seq<(CmpOperator, PreparedExprLoc)>)
    requires
        prepares_comparisons(model, list, out),
    ensures
        prepared_comparisons(out) == parsed_comparisons(list),
    decreases list, 1int,
{
    assert(comparisons_tree(model, list, out));
    if list.len() > 0 {
        let before = after_comparisons(model, list.drop_last())->Ok_0;
        lemma_comparisons_shape(model, list.drop_last(), out.drop_last());
        law_shape_of_expr(before, list.last().1, out.last().1);
        assert(prepared_comparison(out.last()) == parsed_comparison(list.last()));
    }
}

#[verifier::spinoff_prover]
pub(crate) proof fn lemma_interpolations_shape(model: Model, list: Seq<TemplateInterpolation>, out: Seq<PreparedInterpolation>)
    requires
        prepares_interpolations(model, list, out),
    ensures
        prepared_interpolations(out) == parsed_interpolations(list),
    decreases list, 1int,
{
    assert(interpolations_tree(model, list, out));
    if list.len() > 0 {
        let before = after_interpolations(model, list.drop_last())->Ok_0;
        lemma_interpolations_shape(model, list.drop_last(), out.drop_last());
        let last = list.last();
        law_shape_of_expr(before, *last.expr, *out.last().expr);
        let inside = after_expr(before, *last.expr)->Ok_0;
        lemma_fstring_parts_shape(inside, last.format_spec@, out.last().format_spec@);
        assert(prepared_interpolation(out.last()) == parsed_interpolation(last));
    }
}

#[verifier::spinoff_prover]
pub(crate) proof fn lemma_targets_shape(model: Model, list: Seq<UnpackTarget>, out: Seq<PreparedTarget>)
    requires
        prepares_targets(model, list, out),
    ensures
        prepared_targets(out) == parsed_targets(list),
    decreases list, 1int,
{
    assert(targets_tree(model, list, out));
    if list.len() > 0 {
        let before = after_targets(model, list.drop_last())->Ok_0;
        lemma_targets_shape(model, list.drop_last(), out.drop_last());
        lemma_target_shape(before, list.last(), out.last());
    }
}

#[verifier::spinoff_prover]
pub(crate) proof fn lemma_delete_targets_shape(model: Model, list: Seq<DeleteTarget>, out: Seq<PreparedDeleteTarget>)
    requires
        prepares_delete_targets(model, list, out),
    ensures
        prepared_delete_targets(out) == parsed_delete_targets(list),
    decreases list, 1int,
{
    assert(delete_targets_tree(model, list, out));
    if list.len() > 0 {
        let before = after_delete_targets(model, list.drop_last())->Ok_0;
        lemma_delete_targets_shape(model, list.drop_last(), out.drop_last());
        lemma_delete_target_shape(before, list.last(), out.last());
    }
}

#[verifier::spinoff_prover]
pub(crate) proof fn lemma_comp_targets_shape(model: Model, list: Seq<UnpackTarget>, out: Seq<PreparedTarget>)
    requires
        prepares_comp_targets(model, list, out),
    ensures
        prepared_targets(out) == parsed_targets(list),
    decreases list, 1int,
{
    assert(comp_targets_tree(model, list, out));
    if list.len() > 0 {
        let before = after_comp_targets(model, list.drop_last())->Ok_0;
        lemma_comp_targets_shape(model, list.drop_last(), out.drop_last());
        lemma_comp_target_shape(before, list.last(), out.last());
    }
}

#[verifier::spinoff_prover]
pub(crate) proof fn lemma_handlers_shape(model: Model, list: Seq<ExceptHandler>, out: Seq<PreparedHandler>)
    requires
        prepares_handlers(model, list, out),
    ensures
        prepared_handlers(out) == parsed_handlers(list),
    decreases list, 1int,
{
    assert(handlers_tree(model, list, out));
    if list.len() > 0 {
        let before = after_handlers(model, list.drop_last())->Ok_0;
        lemma_handlers_shape(model, list.drop_last(), out.drop_last());
        lemma_handler_shape(before, list.last(), out.last());
    }
}

#[verifier::spinoff_prover]
pub(crate) proof fn lemma_clauses_shape(bound: Model, model: Model, list: Seq<Comprehension>, out: Seq<PreparedClause>)
    requires
        prepares_clause_targets(bound, list, clause_targets(out)),
        prepares_clauses(model, list, out),
    ensures
        prepared_clauses(out) == parsed_clauses(list),
    decreases list, 1int,
{
    assert(clause_targets_tree(bound, list, clause_targets(out)));
    assert(clauses_tree(model, list, out));
    if list.len() > 0 {
        let bound_before = after_clause_targets(bound, list.drop_last())->Ok_0;
        let before = after_clauses(model, list.drop_last())->Ok_0;
        assert(clause_targets(out).drop_last() =~= clause_targets(out.drop_last()));
        assert(clause_targets(out).last() == out.last().target);
        lemma_clauses_shape(bound, model, list.drop_last(), out.drop_last());
        let last = list.last();
        lemma_comp_target_shape(bound_before, last.target, out.last().target);
        law_shape_of_expr(before, last.iter, out.last().iter);
        lemma_exprs_shape(after_expr(before, last.iter)->Ok_0, last.ifs@, out.last().ifs@);
        assert(prepared_clause(out.last()) == parsed_clause(last));
    }
}

#[verifier::spinoff_prover]
pub(crate) proof fn lemma_generators_shape(model: Model, it: Generators, element: Set<StringId>, out: PreparedGenerators)
    requires
        prepares_generators(model, it, element, out),
    ensures
        prepared_generators(out) == parsed_generators(it),
    decreases it, 0int,
{
    assert(generators_tree(model, it, element, out));
    let m1 = with_walrus_slots(model, in_order(walrus_names(it, element)), it.first.iter.position)->Ok_0;
    let inside = with_comp_scope(m1);
    let m2 = after_expr(inside, it.first.iter)->Ok_0;
    let m3 = after_comp_target(m2, it.first.target)->Ok_0;
    let m4 = after_clause_targets(m3, it.rest@)->Ok_0;
    let m5 = after_exprs(m4, it.first.ifs@)->Ok_0;
    law_shape_of_expr(inside, it.first.iter, out.first.iter);
    lemma_comp_target_shape(m2, it.first.target, out.first.target);
    lemma_exprs_shape(m4, it.first.ifs@, out.first.ifs@);
    lemma_clauses_shape(m3, m5, it.rest@, out.rest@);
    assert(prepared_clause(out.first) == parsed_clause(it.first));
}

#[verifier::spinoff_prover]
pub(crate) proof fn lemma_count_defaults(list: Seq<ParsedParam>)
    ensures
        count_defaults(list) <= list.len(),
    decreases list.len(),
{
    if list.len() > 0 {
        lemma_count_defaults(list.drop_last());
    }
}

/// The defaults of a list of parameters stand in order.
#[verifier::spinoff_prover]
pub(crate) proof fn lemma_defaults_shape(model: Model, list: Seq<ParsedParam>, all: Seq<PreparedExprLoc>, from: int, to: int)
    requires
        0 <= from <= to <= all.len(),
        list.len() <= usize::MAX,
        prepares_params(model, list, all.subrange(from, to)),
    ensures
        to - from == count_defaults(list),
        prepared_defaults(all, from, to) == parsed_defaults(list),
        prepared_options(default_indices(list), all, from) == parsed_options(list),
    decreases list, 1int,
{
    let part = all.subrange(from, to);
    assert(params_tree(model, list, part));
    if list.len() > 0 {
        let fewer = list.drop_last();
        lemma_count_defaults(fewer);
        assert(default_indices(list).drop_last() =~= default_indices(fewer));
        match list.last().default {
            Some(default) => {
                assert(part.drop_last() =~= all.subrange(from, to - 1));
                assert(part.last() == all[to - 1]);
                lemma_defaults_shape(model, fewer, all, from, to - 1);
                law_shape_of_expr(after_params(model, fewer)->Ok_0, default, all[to - 1]);
            },
            None => {
                lemma_defaults_shape(model, fewer, all, from, to);
            },
        }
    }
}

/// The head and the defaults of a function stay the same.
#[verifier::spinoff_prover]
pub(crate) proof fn lemma_signature_shape(model: Model, signature: ParsedSignature, out: PreparedFunctionDef)
    requires
        describes_signature(signature, out.signature),
        prepares_defaults(model, signature, out.default_exprs@),
    ensures
        ({
            let first = out.signature.pos_defaults_count as int;
            let second = first + out.signature.arg_defaults_count;
            let head = parsed_head(out.name.name_id, out.name.position, signature, out.is_async, out.is_generator);
            let parts = prepared_function(out).parts;
            &&& prepared_function(out).form == Form::Function(head)
            &&& parts.len() == 4
            &&& parts[0] == listed(parsed_defaults(signature.pos_args@))
            &&& parts[1] == listed(parsed_defaults(signature.args@))
            &&& parts[2] == listed(parsed_options(signature.kwargs@))
            &&& parts[3] == listed(prepared_nodes(out.body@))
        }),
    decreases signature, 0int,
{
    let all = out.default_exprs@;
    assert(defaults_tree(model, signature, all));
    let first = count_defaults(signature.pos_args@) as int;
    let second = first + count_defaults(signature.args@);
    assert(signature.pos_args.len() <= usize::MAX);
    assert(signature.args.len() <= usize::MAX);
    assert(signature.kwargs.len() <= usize::MAX);
    lemma_defaults_shape(model, signature.pos_args@, all, 0, first);
    let m1 = after_params(model, signature.pos_args@)->Ok_0;
    lemma_defaults_shape(m1, signature.args@, all, first, second);
    let m2 = after_params(m1, signature.args@)->Ok_0;
    lemma_defaults_shape(m2, signature.kwargs@, all, second, all.len() as int);
    let head = parsed_head(out.name.name_id, out.name.position, signature, out.is_async, out.is_generator);
    assert(head.pos_args =~= names_of_params(signature.pos_args@));
    assert(head.args =~= names_of_params(signature.args@));
    assert(head.kwargs =~= names_of_params(signature.kwargs@));
}

#[verifier::spinoff_prover]
pub(crate) proof fn lemma_lambda_shape(model: Model, it: LambdaDef, position: CodeRange, out: PreparedFunctionDef)
    requires
        prepares_lambda(model, it, position, out),
    ensures
        prepared_function(out) == branch(
            Form::Function(parsed_head(it.name_id, position, it.signature, false, it.is_generator)),
            seq![
                listed(parsed_defaults(it.signature.pos_args@)),
                listed(parsed_defaults(it.signature.args@)),
                listed(parsed_options(it.signature.kwargs@)),
                listed(seq![branch(Form::Return, seq![parsed_expr(it.body)])]),
            ],
        ),
    decreases it, 0int,
{
    assert(lambda_tree(model, it, position, out));
    let params = param_names(it.signature);
    let inner = opened(model, params, lambda_scope_info(it.body, params), false, position)->Ok_0;
    let child = after_expr(inner, it.body)->Ok_0;
    let m1 = closed(model, child, position)->Ok_0;
    lemma_signature_shape(m1, it.signature, out);
    match out.body@[0] {
        PreparedNode::Return(Some(body)) => {
            law_shape_of_expr(inner, it.body, body);
            lemma_one_node(out.body@);
            reveal(prepared_node);
        },
        _ => {},
    }
    assert(prepared_function(out).parts =~= seq![
        listed(parsed_defaults(it.signature.pos_args@)),
        listed(parsed_defaults(it.signature.args@)),
        listed(parsed_options(it.signature.kwargs@)),
        listed(seq![branch(Form::Return, seq![parsed_expr(it.body)])]),
    ]);
}

#[verifier::spinoff_prover]
pub(crate) proof fn lemma_one_node(list: Seq<PreparedNode>)
    requires
        list.len() == 1,
    ensures
        prepared_nodes(list) == seq![prepared_node(list[0])],
{
    assert(list.drop_last() =~= Seq::<PreparedNode>::empty());
    assert(prepared_nodes(list.drop_last()) == Seq::<Shape>::empty());
    assert(prepared_nodes(list) == prepared_nodes(list.drop_last()).push(prepared_node(list.last())));
    assert(prepared_nodes(list) =~= seq![prepared_node(list[0])]);
}

#[verifier::spinoff_prover]
pub(crate) proof fn lemma_generator_shape(
    model: Model,
    it: GeneratorDef,
    position: CodeRange,
    out: PreparedFunctionDef,
    iter: PreparedExprLoc,
)
    requires
        prepares_generator_def(model, it, position, out, iter),
    ensures
        prepared_expr(iter) == parsed_expr(it.iter),
        prepared_function(out) == branch(
            Form::Function(parsed_head(it.name_id, position, it.signature, false, true)),
            seq![
                listed(parsed_defaults(it.signature.pos_args@)),
                listed(parsed_defaults(it.signature.args@)),
                listed(parsed_options(it.signature.kwargs@)),
                listed(parsed_nodes(it.body@)),
            ],
        ),
    decreases it, 0int,
{
    assert(generator_def_tree(model, it, position, out, iter));
    let params = param_names(it.signature);
    law_shape_of_expr(model, it.iter, iter);
    let m1 = after_expr(model, it.iter)->Ok_0;
    let inner = opened(m1, params, scope_info(it.body@, params), false, position)->Ok_0;
    law_shape_of_nodes(inner, it.body@, out.body@);
    let child = after_nodes(inner, it.body@)->Ok_0;
    let m2 = closed(m1, child, position)->Ok_0;
    lemma_signature_shape(m2, it.signature, out);
    assert(prepared_function(out).parts =~= seq![
        listed(parsed_defaults(it.signature.pos_args@)),
        listed(parsed_defaults(it.signature.args@)),
        listed(parsed_options(it.signature.kwargs@)),
        listed(parsed_nodes(it.body@)),
    ]);
}

#[verifier::spinoff_prover]
pub(crate) proof fn lemma_handler_shape(model: Model, it: ExceptHandler, out: PreparedHandler)
    requires
        prepares_handler(model, it, out),
    ensures
        prepared_handler(out) == parsed_handler(it),
    decreases it, 0int,
{
    assert(handler_tree(model, it, out));
    lemma_option_shape(model, it.exc_type, out.exc_type);
    let m1 = (match it.exc_type { Some(inner) => after_expr(model, inner), None => Ok(model) })->Ok_0;
    match it.name {
        Some(ident) => {
            law_bound_names_stay_the_same(m1, ident);
            law_shape_of_nodes(stored(m1, ident)->Ok_0.0, it.body@, out.body@);
        },
        None => {
            law_shape_of_nodes(m1, it.body@, out.body@);
        },
    }
    lemma_handler_whole_parts(it, out);
}

#[verifier::spinoff_prover]
pub(crate) proof fn lemma_import_names_shape(model: Model, list: Seq<ImportName>, out: Seq<PreparedImportName>)
    requires
        prepares_import_names(model, list, out),
    ensures
        out.len() == list.len(),
        forall|i: int|
            0 <= i < list.len() ==> (#[trigger] out[i]).module_name == list[i].module_name && out[i].bound_name
                == list[i].bound_name && out[i].binding.name_id == list[i].binding.name_id && out[i].binding.position
                == list[i].binding.position,
    decreases list.len(),
{
    assert(import_names_tree(model, list, out));
    if list.len() > 0 {
        let fewer = list.drop_last();
        let before = after_import_names(model, fewer)->Ok_0;
        lemma_import_names_shape(model, fewer, out.drop_last());
        lemma_resolved_name(before, list.last().binding, false);
        assert forall|i: int| 0 <= i < list.len() implies (#[trigger] out[i]).module_name == list[i].module_name
            && out[i].bound_name == list[i].bound_name && out[i].binding.name_id == list[i].binding.name_id
            && out[i].binding.position == list[i].binding.position by {
            if i < fewer.len() {
                assert(out.drop_last()[i] == out[i] && fewer[i] == list[i]);
            }
        }
    }
}

#[verifier::spinoff_prover]
pub(crate) proof fn lemma_import_from_shape(
    model: Model,
    list: Seq<(StringId, Identifier)>,
    out: Seq<(StringId, ResolvedIdentifier)>,
)
    requires
        prepares_import_from(model, list, out),
    ensures
        out.len() == list.len(),
        forall|i: int|
            0 <= i < list.len() ==> (#[trigger] out[i]).0 == list[i].0 && out[i].1.name_id == list[i].1.name_id
                && out[i].1.position == list[i].1.position,
    decreases list.len(),
{
    assert(import_from_tree(model, list, out));
    if list.len() > 0 {
        let fewer = list.drop_last();
        let before = after_import_from(model, fewer)->Ok_0;
        lemma_import_from_shape(model, fewer, out.drop_last());
        lemma_resolved_name(before, list.last().1, false);
        assert forall|i: int| 0 <= i < list.len() implies (#[trigger] out[i]).0 == list[i].0 && out[i].1.name_id
            == list[i].1.name_id && out[i].1.position == list[i].1.position by {
            if i < fewer.len() {
                assert(out.drop_last()[i] == out[i] && fewer[i] == list[i]);
            }
        }
    }
}

#[verifier::spinoff_prover]
pub(crate) proof fn lemma_empty_calls(model: Model, it: ExprLoc, out: PreparedExprLoc)
    requires
        prepares_expr(model, it, out),
        prepared_expr(out) == parsed_expr(it),
    ensures
        prepared_raised(out) == parsed_raised(it),
{
    reveal(parsed_expr);
    reveal(prepared_expr);
    let shape = parsed_expr(it).parts[0];
    assert(prepared_expr(out).parts[0] == shape);
    assert(it.position == out.position) by {
        assert(prepared_expr(out).form == Form::At(out.position));
        assert(parsed_expr(it).form == Form::At(it.position));
    }
    if shape.form is Call {
        assert(it.expr is Call && out.expr is Call);
        lemma_call_parts(model, it, out);
        match (it.expr, out.expr) {
            (Expr::Call { args, .. }, PreparedExpr::Call { args: args_out, .. }) => {
                assert(shape.parts[1] == parsed_args(*args));
                assert(prepared_expr(out).parts[0].parts[1] == prepared_args(*args_out));
                assert(*args is Empty <==> parsed_args(*args).form is NoArguments);
                assert(*args_out is Empty <==> prepared_args(*args_out).form is NoArguments);
            },
            _ => {},
        }
    }
}

#[verifier::spinoff_prover]
pub(crate) proof fn lemma_nothing_is_left(model: Model, it: Node, out: PreparedNode)
    requires
        it is Pass || it is Global || it is Nonlocal,
        prepares_node(model, it, Some(out)),
    ensures
        prepared_node(out) == parsed_node(it),
{
    assert(node_tree(model, it, Some(out)));
}

#[verifier::spinoff_prover]
pub(crate) proof fn lemma_import_lists(names: Seq<ImportName>, out: Seq<PreparedImportName>)
    requires
        out.len() == names.len(),
        forall|i: int|
            0 <= i < names.len() ==> (#[trigger] out[i]).module_name == names[i].module_name && out[i].bound_name
                == names[i].bound_name && out[i].binding.name_id == names[i].binding.name_id && out[i].binding.position
                == names[i].binding.position,
    ensures
        Seq::new(
            names.len(),
            |i: int| (names[i].module_name, names[i].bound_name, names[i].binding.name_id, names[i].binding.position),
        ) == Seq::new(
            out.len(),
            |i: int| (out[i].module_name, out[i].bound_name, out[i].binding.name_id, out[i].binding.position),
        ),
{
}

#[verifier::spinoff_prover]
pub(crate) proof fn lemma_import_from_lists(names: Seq<(StringId, Identifier)>, out: Seq<(StringId, ResolvedIdentifier)>)
    requires
        out.len() == names.len(),
        forall|i: int|
            0 <= i < names.len() ==> (#[trigger] out[i]).0 == names[i].0 && out[i].1.name_id == names[i].1.name_id
                && out[i].1.position == names[i].1.position,
    ensures
        Seq::new(names.len(), |i: int| (names[i].0, names[i].1.name_id, names[i].1.position)) == Seq::new(
            out.len(),
            |i: int| (out[i].0, out[i].1.name_id, out[i].1.position),
        ),
{
}

} // verus!
