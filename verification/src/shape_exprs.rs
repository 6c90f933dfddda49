//! Preparation keeps the shape of each form of expression.

use crate::ast::{Expr, ExprLoc, Literal};
use crate::model::Model;
use crate::prepare_spec::{after_expr, after_generators, prepares_expr};
use crate::prepared::{PreparedExpr, PreparedExprLoc};
use crate::scope::bound_in_expr;
use crate::shape::{law_bound_names_stay_the_same, parsed_expr, prepared_expr};
use crate::shape_laws::law_shape_of_expr;
use crate::shape_lists::{
    lemma_args_shape, lemma_boxed_option_shape, lemma_comparisons_shape, lemma_dict_items_shape,
    lemma_fstring_parts_shape, lemma_generator_shape, lemma_generators_shape, lemma_interpolations_shape,
    lemma_items_shape, lemma_lambda_shape,
};
use crate::shape_parts::{
    lemma_attr_call_parts, lemma_attr_get_parts, lemma_await_parts, lemma_builtin_parts, lemma_call_parts,
    lemma_chain_cmp_parts, lemma_cmp_op_parts, lemma_dict_comp_parts, lemma_dict_parts, lemma_f_string_parts,
    lemma_generator_parts, lemma_if_else_parts, lemma_indirect_call_parts, lemma_lambda_parts, lemma_list_comp_parts,
    lemma_list_parts, lemma_literal_parts, lemma_name_parts, lemma_named_parts, lemma_not_parts, lemma_op_parts,
    lemma_set_comp_parts, lemma_set_display_parts, lemma_slice_parts, lemma_slice_whole_parts, lemma_subscript_parts,
    lemma_t_string_parts, lemma_tuple_parts, lemma_unary_invert_parts, lemma_unary_minus_parts,
    lemma_unary_plus_parts, lemma_yield_from_parts, lemma_yield_parts, lemma_yield_whole_parts,
};
use vstd::prelude::*;

verus! {

#[verifier::spinoff_prover]
pub(crate) proof fn lemma_literal_expr_shape(model: Model, it: ExprLoc, out: PreparedExprLoc)
    requires
        it.expr is Literal,
        prepares_expr(model, it, out),
    ensures
        prepared_expr(out) == parsed_expr(it),
    decreases it, 0int,
{
    reveal(parsed_expr);
    reveal(prepared_expr);
    match it.expr {
        Expr::Literal(_) => {
            lemma_literal_parts(model, it, out);
        },
        _ => {},
    }
}

#[verifier::spinoff_prover]
pub(crate) proof fn lemma_builtin_expr_shape(model: Model, it: ExprLoc, out: PreparedExprLoc)
    requires
        it.expr is Builtin,
        prepares_expr(model, it, out),
    ensures
        prepared_expr(out) == parsed_expr(it),
    decreases it, 0int,
{
    reveal(parsed_expr);
    reveal(prepared_expr);
    match it.expr {
        Expr::Builtin(_) => {
            lemma_builtin_parts(model, it, out);
        },
        _ => {},
    }
}

#[verifier::spinoff_prover]
pub(crate) proof fn lemma_name_expr_shape(model: Model, it: ExprLoc, out: PreparedExprLoc)
    requires
        it.expr is Name,
        prepares_expr(model, it, out),
    ensures
        prepared_expr(out) == parsed_expr(it),
    decreases it, 0int,
{
    reveal(parsed_expr);
    reveal(prepared_expr);
    match it.expr {
        Expr::Name(_) => {
            lemma_name_parts(model, it, out);
        },
        _ => {},
    }
}

#[verifier::spinoff_prover]
pub(crate) proof fn lemma_call_expr_shape(model: Model, it: ExprLoc, out: PreparedExprLoc)
    requires
        it.expr is Call,
        prepares_expr(model, it, out),
    ensures
        prepared_expr(out) == parsed_expr(it),
    decreases it, 0int,
{
    reveal(parsed_expr);
    reveal(prepared_expr);
    match it.expr {
        Expr::Call { args, .. } => {
            lemma_call_parts(model, it, out);
            match out.expr {
                PreparedExpr::Call { args: args_out, .. } => {
                    lemma_args_shape(model, *args, *args_out);
                },
                _ => {},
            }
        },
        _ => {},
    }
}

#[verifier::spinoff_prover]
pub(crate) proof fn lemma_op_expr_shape(model: Model, it: ExprLoc, out: PreparedExprLoc)
    requires
        it.expr is Op,
        prepares_expr(model, it, out),
    ensures
        prepared_expr(out) == parsed_expr(it),
    decreases it, 0int,
{
    reveal(parsed_expr);
    reveal(prepared_expr);
    match it.expr {
        Expr::Op { left, op, right } => {
            lemma_op_parts(model, it, out);
            match out.expr {
                PreparedExpr::Op { left: left_out, op: op_out, right: right_out } => {
                    law_shape_of_expr(model, *left, *left_out);
                    let m1 = after_expr(model, *left)->Ok_0;
                    law_shape_of_expr(m1, *right, *right_out);
                },
                _ => {},
            }
        },
        _ => {},
    }
}

#[verifier::spinoff_prover]
pub(crate) proof fn lemma_cmp_op_expr_shape(model: Model, it: ExprLoc, out: PreparedExprLoc)
    requires
        it.expr is CmpOp,
        prepares_expr(model, it, out),
    ensures
        prepared_expr(out) == parsed_expr(it),
    decreases it, 0int,
{
    reveal(parsed_expr);
    reveal(prepared_expr);
    match it.expr {
        Expr::CmpOp { left, op, right } => {
            lemma_cmp_op_parts(model, it, out);
            match out.expr {
                PreparedExpr::CmpOp { left: left_out, op: op_out, right: right_out } => {
                    law_shape_of_expr(model, *left, *left_out);
                    let m1 = after_expr(model, *left)->Ok_0;
                    law_shape_of_expr(m1, *right, *right_out);
                },
                _ => {},
            }
        },
        _ => {},
    }
}

#[verifier::spinoff_prover]
pub(crate) proof fn lemma_chain_cmp_expr_shape(model: Model, it: ExprLoc, out: PreparedExprLoc)
    requires
        it.expr is ChainCmp,
        prepares_expr(model, it, out),
    ensures
        prepared_expr(out) == parsed_expr(it),
    decreases it, 0int,
{
    reveal(parsed_expr);
    reveal(prepared_expr);
    match it.expr {
        Expr::ChainCmp { left, comparisons } => {
            lemma_chain_cmp_parts(model, it, out);
            match out.expr {
                PreparedExpr::ChainCmp { left: left_out, comparisons: comparisons_out } => {
                    law_shape_of_expr(model, *left, *left_out);
                    let m1 = after_expr(model, *left)->Ok_0;
                    lemma_comparisons_shape(m1, comparisons@, comparisons_out@);
                },
                _ => {},
            }
        },
        _ => {},
    }
}

#[verifier::spinoff_prover]
pub(crate) proof fn lemma_attr_call_expr_shape(model: Model, it: ExprLoc, out: PreparedExprLoc)
    requires
        it.expr is AttrCall,
        prepares_expr(model, it, out),
    ensures
        prepared_expr(out) == parsed_expr(it),
    decreases it, 0int,
{
    reveal(parsed_expr);
    reveal(prepared_expr);
    match it.expr {
        Expr::AttrCall { object, attr, args } => {
            lemma_attr_call_parts(model, it, out);
            match out.expr {
                PreparedExpr::AttrCall { object: object_out, attr: attr_out, args: args_out } => {
                    law_shape_of_expr(model, *object, *object_out);
                    let m1 = after_expr(model, *object)->Ok_0;
                    lemma_args_shape(m1, *args, *args_out);
                },
                _ => {},
            }
        },
        _ => {},
    }
}

#[verifier::spinoff_prover]
pub(crate) proof fn lemma_indirect_call_expr_shape(model: Model, it: ExprLoc, out: PreparedExprLoc)
    requires
        it.expr is IndirectCall,
        prepares_expr(model, it, out),
    ensures
        prepared_expr(out) == parsed_expr(it),
    decreases it, 0int,
{
    reveal(parsed_expr);
    reveal(prepared_expr);
    match it.expr {
        Expr::IndirectCall { callable, args } => {
            lemma_indirect_call_parts(model, it, out);
            match out.expr {
                PreparedExpr::IndirectCall { callable: callable_out, args: args_out } => {
                    law_shape_of_expr(model, *callable, *callable_out);
                    let m1 = after_expr(model, *callable)->Ok_0;
                    lemma_args_shape(m1, *args, *args_out);
                },
                _ => {},
            }
        },
        _ => {},
    }
}

#[verifier::spinoff_prover]
pub(crate) proof fn lemma_attr_get_expr_shape(model: Model, it: ExprLoc, out: PreparedExprLoc)
    requires
        it.expr is AttrGet,
        prepares_expr(model, it, out),
    ensures
        prepared_expr(out) == parsed_expr(it),
    decreases it, 0int,
{
    reveal(parsed_expr);
    reveal(prepared_expr);
    match it.expr {
        Expr::AttrGet { object, attr } => {
            lemma_attr_get_parts(model, it, out);
            match out.expr {
                PreparedExpr::AttrGet { object: object_out, attr: attr_out } => {
                    law_shape_of_expr(model, *object, *object_out);
                },
                _ => {},
            }
        },
        _ => {},
    }
}

#[verifier::spinoff_prover]
pub(crate) proof fn lemma_list_expr_shape(model: Model, it: ExprLoc, out: PreparedExprLoc)
    requires
        it.expr is List,
        prepares_expr(model, it, out),
    ensures
        prepared_expr(out) == parsed_expr(it),
    decreases it, 0int,
{
    reveal(parsed_expr);
    reveal(prepared_expr);
    match it.expr {
        Expr::List(items) => {
            lemma_list_parts(model, it, out);
            match out.expr {
                PreparedExpr::List(items_out) => {
                    lemma_items_shape(model, items@, items_out@);
                },
                _ => {},
            }
        },
        _ => {},
    }
}

#[verifier::spinoff_prover]
pub(crate) proof fn lemma_tuple_expr_shape(model: Model, it: ExprLoc, out: PreparedExprLoc)
    requires
        it.expr is Tuple,
        prepares_expr(model, it, out),
    ensures
        prepared_expr(out) == parsed_expr(it),
    decreases it, 0int,
{
    reveal(parsed_expr);
    reveal(prepared_expr);
    match it.expr {
        Expr::Tuple(items) => {
            lemma_tuple_parts(model, it, out);
            match out.expr {
                PreparedExpr::Tuple(items_out) => {
                    lemma_items_shape(model, items@, items_out@);
                },
                _ => {},
            }
        },
        _ => {},
    }
}

#[verifier::spinoff_prover]
pub(crate) proof fn lemma_set_display_expr_shape(model: Model, it: ExprLoc, out: PreparedExprLoc)
    requires
        it.expr is SetDisplay,
        prepares_expr(model, it, out),
    ensures
        prepared_expr(out) == parsed_expr(it),
    decreases it, 0int,
{
    reveal(parsed_expr);
    reveal(prepared_expr);
    match it.expr {
        Expr::SetDisplay(items) => {
            lemma_set_display_parts(model, it, out);
            match out.expr {
                PreparedExpr::SetDisplay(items_out) => {
                    lemma_items_shape(model, items@, items_out@);
                },
                _ => {},
            }
        },
        _ => {},
    }
}

#[verifier::spinoff_prover]
pub(crate) proof fn lemma_subscript_expr_shape(model: Model, it: ExprLoc, out: PreparedExprLoc)
    requires
        it.expr is Subscript,
        prepares_expr(model, it, out),
    ensures
        prepared_expr(out) == parsed_expr(it),
    decreases it, 0int,
{
    reveal(parsed_expr);
    reveal(prepared_expr);
    match it.expr {
        Expr::Subscript { object, index } => {
            lemma_subscript_parts(model, it, out);
            match out.expr {
                PreparedExpr::Subscript { object: object_out, index: index_out } => {
                    law_shape_of_expr(model, *object, *object_out);
                    let m1 = after_expr(model, *object)->Ok_0;
                    law_shape_of_expr(m1, *index, *index_out);
                },
                _ => {},
            }
        },
        _ => {},
    }
}

#[verifier::spinoff_prover]
pub(crate) proof fn lemma_dict_expr_shape(model: Model, it: ExprLoc, out: PreparedExprLoc)
    requires
        it.expr is Dict,
        prepares_expr(model, it, out),
    ensures
        prepared_expr(out) == parsed_expr(it),
    decreases it, 0int,
{
    reveal(parsed_expr);
    reveal(prepared_expr);
    match it.expr {
        Expr::Dict(items) => {
            lemma_dict_parts(model, it, out);
            match out.expr {
                PreparedExpr::Dict(items_out) => {
                    lemma_dict_items_shape(model, items@, items_out@);
                },
                _ => {},
            }
        },
        _ => {},
    }
}

#[verifier::spinoff_prover]
pub(crate) proof fn lemma_not_expr_shape(model: Model, it: ExprLoc, out: PreparedExprLoc)
    requires
        it.expr is Not,
        prepares_expr(model, it, out),
    ensures
        prepared_expr(out) == parsed_expr(it),
    decreases it, 0int,
{
    reveal(parsed_expr);
    reveal(prepared_expr);
    match it.expr {
        Expr::Not(operand) => {
            lemma_not_parts(model, it, out);
            match out.expr {
                PreparedExpr::Not(operand_out) => {
                    law_shape_of_expr(model, *operand, *operand_out);
                },
                _ => {},
            }
        },
        _ => {},
    }
}

#[verifier::spinoff_prover]
pub(crate) proof fn lemma_unary_minus_expr_shape(model: Model, it: ExprLoc, out: PreparedExprLoc)
    requires
        it.expr is UnaryMinus,
        prepares_expr(model, it, out),
    ensures
        prepared_expr(out) == parsed_expr(it),
    decreases it, 0int,
{
    reveal(parsed_expr);
    reveal(prepared_expr);
    match it.expr {
        Expr::UnaryMinus(operand) => {
            lemma_unary_minus_parts(model, it, out);
            match out.expr {
                PreparedExpr::UnaryMinus(operand_out) => {
                    law_shape_of_expr(model, *operand, *operand_out);
                },
                _ => {},
            }
        },
        _ => {},
    }
}

#[verifier::spinoff_prover]
pub(crate) proof fn lemma_unary_plus_expr_shape(model: Model, it: ExprLoc, out: PreparedExprLoc)
    requires
        it.expr is UnaryPlus,
        prepares_expr(model, it, out),
    ensures
        prepared_expr(out) == parsed_expr(it),
    decreases it, 0int,
{
    reveal(parsed_expr);
    reveal(prepared_expr);
    match it.expr {
        Expr::UnaryPlus(operand) => {
            lemma_unary_plus_parts(model, it, out);
            match out.expr {
                PreparedExpr::UnaryPlus(operand_out) => {
                    law_shape_of_expr(model, *operand, *operand_out);
                },
                _ => {},
            }
        },
        _ => {},
    }
}

#[verifier::spinoff_prover]
pub(crate) proof fn lemma_unary_invert_expr_shape(model: Model, it: ExprLoc, out: PreparedExprLoc)
    requires
        it.expr is UnaryInvert,
        prepares_expr(model, it, out),
    ensures
        prepared_expr(out) == parsed_expr(it),
    decreases it, 0int,
{
    reveal(parsed_expr);
    reveal(prepared_expr);
    match it.expr {
        Expr::UnaryInvert(operand) => {
            lemma_unary_invert_parts(model, it, out);
            match out.expr {
                PreparedExpr::UnaryInvert(operand_out) => {
                    law_shape_of_expr(model, *operand, *operand_out);
                },
                _ => {},
            }
        },
        _ => {},
    }
}

#[verifier::spinoff_prover]
pub(crate) proof fn lemma_await_expr_shape(model: Model, it: ExprLoc, out: PreparedExprLoc)
    requires
        it.expr is Await,
        prepares_expr(model, it, out),
    ensures
        prepared_expr(out) == parsed_expr(it),
    decreases it, 0int,
{
    reveal(parsed_expr);
    reveal(prepared_expr);
    match it.expr {
        Expr::Await(operand) => {
            lemma_await_parts(model, it, out);
            match out.expr {
                PreparedExpr::Await(operand_out) => {
                    law_shape_of_expr(model, *operand, *operand_out);
                },
                _ => {},
            }
        },
        _ => {},
    }
}

#[verifier::spinoff_prover]
pub(crate) proof fn lemma_f_string_expr_shape(model: Model, it: ExprLoc, out: PreparedExprLoc)
    requires
        it.expr is FString,
        prepares_expr(model, it, out),
    ensures
        prepared_expr(out) == parsed_expr(it),
    decreases it, 0int,
{
    reveal(parsed_expr);
    reveal(prepared_expr);
    match it.expr {
        Expr::FString(parts) => {
            lemma_f_string_parts(model, it, out);
            match out.expr {
                PreparedExpr::FString(parts_out) => {
                    lemma_fstring_parts_shape(model, parts@, parts_out@);
                },
                _ => {},
            }
        },
        _ => {},
    }
}

#[verifier::spinoff_prover]
pub(crate) proof fn lemma_if_else_expr_shape(model: Model, it: ExprLoc, out: PreparedExprLoc)
    requires
        it.expr is IfElse,
        prepares_expr(model, it, out),
    ensures
        prepared_expr(out) == parsed_expr(it),
    decreases it, 0int,
{
    reveal(parsed_expr);
    reveal(prepared_expr);
    match it.expr {
        Expr::IfElse { test, body, orelse } => {
            lemma_if_else_parts(model, it, out);
            match out.expr {
                PreparedExpr::IfElse { test: test_out, body: body_out, orelse: orelse_out } => {
                    law_shape_of_expr(model, *test, *test_out);
                    let m1 = after_expr(model, *test)->Ok_0;
                    law_shape_of_expr(m1, *body, *body_out);
                    let m2 = after_expr(m1, *body)->Ok_0;
                    law_shape_of_expr(m2, *orelse, *orelse_out);
                },
                _ => {},
            }
        },
        _ => {},
    }
}

#[verifier::spinoff_prover]
pub(crate) proof fn lemma_yield_expr_shape(model: Model, it: ExprLoc, out: PreparedExprLoc)
    requires
        it.expr is Yield,
        prepares_expr(model, it, out),
    ensures
        prepared_expr(out) == parsed_expr(it),
    decreases it, 0int,
{
    match it.expr {
        Expr::Yield(value) => {
            lemma_yield_parts(model, it, out);
            match out.expr {
                PreparedExpr::Yield(value_out) => {
                    lemma_boxed_option_shape(model, value, value_out);
                    lemma_yield_whole_parts(it, out);
                },
                _ => {},
            }
        },
        _ => {},
    }
}

#[verifier::spinoff_prover]
pub(crate) proof fn lemma_yield_from_expr_shape(model: Model, it: ExprLoc, out: PreparedExprLoc)
    requires
        it.expr is YieldFrom,
        prepares_expr(model, it, out),
    ensures
        prepared_expr(out) == parsed_expr(it),
    decreases it, 0int,
{
    reveal(parsed_expr);
    reveal(prepared_expr);
    match it.expr {
        Expr::YieldFrom(value) => {
            lemma_yield_from_parts(model, it, out);
            match out.expr {
                PreparedExpr::YieldFrom(value_out) => {
                    law_shape_of_expr(model, *value, *value_out);
                },
                _ => {},
            }
        },
        _ => {},
    }
}

#[verifier::spinoff_prover]
pub(crate) proof fn lemma_slice_expr_shape(model: Model, it: ExprLoc, out: PreparedExprLoc)
    requires
        it.expr is Slice,
        prepares_expr(model, it, out),
    ensures
        prepared_expr(out) == parsed_expr(it),
    decreases it, 0int,
{
    match it.expr {
        Expr::Slice { lower, upper, step } => {
            lemma_slice_parts(model, it, out);
            match out.expr {
                PreparedExpr::Slice { lower: lower_out, upper: upper_out, step: step_out } => {
                    lemma_boxed_option_shape(model, lower, lower_out);
                    let m1 = (match lower { Some(inner) => after_expr(model, *inner), None => Ok(model) })->Ok_0;
                    lemma_boxed_option_shape(m1, upper, upper_out);
                    let m2 = (match upper { Some(inner) => after_expr(m1, *inner), None => Ok(m1) })->Ok_0;
                    lemma_boxed_option_shape(m2, step, step_out);
                    lemma_slice_whole_parts(it, out);
                },
                _ => {},
            }
        },
        _ => {},
    }
}

#[verifier::spinoff_prover]
pub(crate) proof fn lemma_t_string_expr_shape(model: Model, it: ExprLoc, out: PreparedExprLoc)
    requires
        it.expr is TString,
        prepares_expr(model, it, out),
    ensures
        prepared_expr(out) == parsed_expr(it),
    decreases it, 0int,
{
    reveal(parsed_expr);
    reveal(prepared_expr);
    match it.expr {
        Expr::TString(template) => {
            lemma_t_string_parts(model, it, out);
            match out.expr {
                PreparedExpr::TString(template_out) => {
                    lemma_interpolations_shape(model, template.interpolations@, template_out.interpolations@);
                },
                _ => {},
            }
        },
        _ => {},
    }
}

#[verifier::spinoff_prover]
pub(crate) proof fn lemma_list_comp_expr_shape(model: Model, it: ExprLoc, out: PreparedExprLoc)
    requires
        it.expr is ListComp,
        prepares_expr(model, it, out),
    ensures
        prepared_expr(out) == parsed_expr(it),
    decreases it, 0int,
{
    reveal(parsed_expr);
    reveal(prepared_expr);
    match it.expr {
        Expr::ListComp { elt, generators } => {
            lemma_list_comp_parts(model, it, out);
            match out.expr {
                PreparedExpr::ListComp { elt: elt_out, generators: generators_out, .. } => {
                    lemma_generators_shape(model, *generators, bound_in_expr(*elt), *generators_out);
                    let m1 = after_generators(model, *generators, bound_in_expr(*elt))->Ok_0;
                    law_shape_of_expr(m1, *elt, *elt_out);
                },
                _ => {},
            }
        },
        _ => {},
    }
}

#[verifier::spinoff_prover]
pub(crate) proof fn lemma_set_comp_expr_shape(model: Model, it: ExprLoc, out: PreparedExprLoc)
    requires
        it.expr is SetComp,
        prepares_expr(model, it, out),
    ensures
        prepared_expr(out) == parsed_expr(it),
    decreases it, 0int,
{
    reveal(parsed_expr);
    reveal(prepared_expr);
    match it.expr {
        Expr::SetComp { elt, generators } => {
            lemma_set_comp_parts(model, it, out);
            match out.expr {
                PreparedExpr::SetComp { elt: elt_out, generators: generators_out, .. } => {
                    lemma_generators_shape(model, *generators, bound_in_expr(*elt), *generators_out);
                    let m1 = after_generators(model, *generators, bound_in_expr(*elt))->Ok_0;
                    law_shape_of_expr(m1, *elt, *elt_out);
                },
                _ => {},
            }
        },
        _ => {},
    }
}

#[verifier::spinoff_prover]
pub(crate) proof fn lemma_dict_comp_expr_shape(model: Model, it: ExprLoc, out: PreparedExprLoc)
    requires
        it.expr is DictComp,
        prepares_expr(model, it, out),
    ensures
        prepared_expr(out) == parsed_expr(it),
    decreases it, 0int,
{
    reveal(parsed_expr);
    reveal(prepared_expr);
    match it.expr {
        Expr::DictComp { key, value, generators } => {
            lemma_dict_comp_parts(model, it, out);
            match out.expr {
                PreparedExpr::DictComp { key: key_out, value: value_out, generators: generators_out, .. } => {
                    let bound = bound_in_expr(*key) + bound_in_expr(*value);
                    lemma_generators_shape(model, *generators, bound, *generators_out);
                    let m1 = after_generators(model, *generators, bound)->Ok_0;
                    law_shape_of_expr(m1, *key, *key_out);
                    let m2 = after_expr(m1, *key)->Ok_0;
                    law_shape_of_expr(m2, *value, *value_out);
                },
                _ => {},
            }
        },
        _ => {},
    }
}

#[verifier::spinoff_prover]
pub(crate) proof fn lemma_lambda_raw_expr_shape(model: Model, it: ExprLoc, out: PreparedExprLoc)
    requires
        it.expr is LambdaRaw,
        prepares_expr(model, it, out),
    ensures
        prepared_expr(out) == parsed_expr(it),
    decreases it, 0int,
{
    reveal(parsed_expr);
    reveal(prepared_expr);
    match it.expr {
        Expr::LambdaRaw(def) => {
            lemma_lambda_parts(model, it, out);
            match out.expr {
                PreparedExpr::Lambda { func_def } => {
                    lemma_lambda_shape(model, *def, it.position, *func_def);
                },
                _ => {},
            }
        },
        _ => {},
    }
}

#[verifier::spinoff_prover]
pub(crate) proof fn lemma_generator_exp_raw_expr_shape(model: Model, it: ExprLoc, out: PreparedExprLoc)
    requires
        it.expr is GeneratorExpRaw,
        prepares_expr(model, it, out),
    ensures
        prepared_expr(out) == parsed_expr(it),
    decreases it, 0int,
{
    reveal(parsed_expr);
    reveal(prepared_expr);
    match it.expr {
        Expr::GeneratorExpRaw(def) => {
            lemma_generator_parts(model, it, out);
            match out.expr {
                PreparedExpr::GeneratorExp { func_def, iter } => {
                    lemma_generator_shape(model, *def, it.position, *func_def, *iter);
                },
                _ => {},
            }
        },
        _ => {},
    }
}

#[verifier::spinoff_prover]
pub(crate) proof fn lemma_named_expr_shape(model: Model, it: ExprLoc, out: PreparedExprLoc)
    requires
        it.expr is Named,
        prepares_expr(model, it, out),
    ensures
        prepared_expr(out) == parsed_expr(it),
    decreases it, 0int,
{
    reveal(parsed_expr);
    reveal(prepared_expr);
    match it.expr {
        Expr::Named { target, value } => {
            lemma_named_parts(model, it, out);
            match out.expr {
                PreparedExpr::Named { value: value_out, .. } => {
                    law_shape_of_expr(model, *value, *value_out);
                    law_bound_names_stay_the_same(after_expr(model, *value)->Ok_0, target);
                },
                _ => {},
            }
        },
        _ => {},
    }
}

} // verus!
