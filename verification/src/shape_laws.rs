//! Preparation keeps the shape of a program.

use crate::ast::{Callable, ClassDef, Expr, ExprLoc, Identifier, Literal, Node, RawFunctionDef, Try};
use crate::model::{closed, opened, stored, Model};
use crate::names::StringId;
use crate::prepare::{prepares_module, with_returned_value};
use crate::prepare_spec::{
    after_args, after_exprs, after_nodes, class_def_tree, class_scope_info, function_def_tree, nodes_tree,
    prepares_class_def, prepares_expr, prepares_function_def, prepares_node, prepares_nodes, prepares_raised,
    raised_builtin,
};
use crate::prepared::{
    PreparedCallable, PreparedClassDef, PreparedExpr, PreparedExprLoc, PreparedFunctionDef, PreparedNode,
};
use crate::scope::{param_names, scope_info};
use crate::shape::{
    branch, law_bound_names_stay_the_same, law_read_names_stay_the_same, parsed_class, parsed_expr, parsed_function,
    parsed_node, parsed_nodes, parsed_raised, prepared_class, prepared_defaults, prepared_expr, prepared_function,
    prepared_node, prepared_nodes, prepared_options, prepared_raised, read_at, Form, Shape,
};
use crate::shape_exprs::{
    lemma_attr_call_expr_shape, lemma_attr_get_expr_shape, lemma_await_expr_shape, lemma_builtin_expr_shape,
    lemma_call_expr_shape, lemma_chain_cmp_expr_shape, lemma_cmp_op_expr_shape, lemma_dict_comp_expr_shape,
    lemma_dict_expr_shape, lemma_f_string_expr_shape, lemma_generator_exp_raw_expr_shape, lemma_if_else_expr_shape,
    lemma_indirect_call_expr_shape, lemma_lambda_raw_expr_shape, lemma_list_comp_expr_shape, lemma_list_expr_shape,
    lemma_literal_expr_shape, lemma_name_expr_shape, lemma_named_expr_shape, lemma_not_expr_shape,
    lemma_op_expr_shape, lemma_set_comp_expr_shape, lemma_set_display_expr_shape, lemma_slice_expr_shape,
    lemma_subscript_expr_shape, lemma_t_string_expr_shape, lemma_tuple_expr_shape, lemma_unary_invert_expr_shape,
    lemma_unary_minus_expr_shape, lemma_unary_plus_expr_shape, lemma_yield_expr_shape, lemma_yield_from_expr_shape,
};
use crate::shape_lists::{lemma_empty_calls, lemma_exprs_shape, lemma_nothing_is_left, lemma_signature_shape};
use crate::shape_nodes::{
    lemma_assert_node_shape, lemma_assign_node_shape, lemma_attr_assign_node_shape, lemma_attr_op_assign_node_shape,
    lemma_break_node_shape, lemma_chain_assign_node_shape, lemma_class_def_node_shape, lemma_continue_node_shape,
    lemma_delete_node_shape, lemma_expr_node_shape, lemma_for_node_shape, lemma_function_def_node_shape,
    lemma_if_node_shape, lemma_import_from_node_shape, lemma_import_node_shape, lemma_op_assign_node_shape,
    lemma_raise_node_shape, lemma_return_node_shape, lemma_subscript_assign_node_shape,
    lemma_subscript_op_assign_node_shape, lemma_try_node_shape, lemma_type_alias_node_shape,
    lemma_unpack_assign_node_shape, lemma_while_node_shape, lemma_with_node_shape,
};
use crate::shape_parts::{lemma_builtin_parts, lemma_call_parts, lemma_name_parts};
use vstd::prelude::*;

verus! {

/// Preparing keeps the shape of an expression: erasing scopes and slots from the
/// prepared tree gives what erasing names that are read from the parsed tree
/// gives, with every part in the same role.
#[verifier::spinoff_prover]
pub proof fn law_shape_of_expr(model: Model, it: ExprLoc, out: PreparedExprLoc)
    requires
        prepares_expr(model, it, out),
    ensures
        prepared_expr(out) == parsed_expr(it),
    decreases it, 1int,
{
    match it.expr {
        Expr::Literal { .. } => {
            lemma_literal_expr_shape(model, it, out);
        },
        Expr::Builtin { .. } => {
            lemma_builtin_expr_shape(model, it, out);
        },
        Expr::Name { .. } => {
            lemma_name_expr_shape(model, it, out);
        },
        Expr::Call { .. } => {
            lemma_call_expr_shape(model, it, out);
        },
        Expr::Op { .. } => {
            lemma_op_expr_shape(model, it, out);
        },
        Expr::CmpOp { .. } => {
            lemma_cmp_op_expr_shape(model, it, out);
        },
        Expr::ChainCmp { .. } => {
            lemma_chain_cmp_expr_shape(model, it, out);
        },
        Expr::AttrCall { .. } => {
            lemma_attr_call_expr_shape(model, it, out);
        },
        Expr::IndirectCall { .. } => {
            lemma_indirect_call_expr_shape(model, it, out);
        },
        Expr::AttrGet { .. } => {
            lemma_attr_get_expr_shape(model, it, out);
        },
        Expr::List { .. } => {
            lemma_list_expr_shape(model, it, out);
        },
        Expr::Tuple { .. } => {
            lemma_tuple_expr_shape(model, it, out);
        },
        Expr::SetDisplay { .. } => {
            lemma_set_display_expr_shape(model, it, out);
        },
        Expr::Subscript { .. } => {
            lemma_subscript_expr_shape(model, it, out);
        },
        Expr::Dict { .. } => {
            lemma_dict_expr_shape(model, it, out);
        },
        Expr::Not { .. } => {
            lemma_not_expr_shape(model, it, out);
        },
        Expr::UnaryMinus { .. } => {
            lemma_unary_minus_expr_shape(model, it, out);
        },
        Expr::UnaryPlus { .. } => {
            lemma_unary_plus_expr_shape(model, it, out);
        },
        Expr::UnaryInvert { .. } => {
            lemma_unary_invert_expr_shape(model, it, out);
        },
        Expr::Await { .. } => {
            lemma_await_expr_shape(model, it, out);
        },
        Expr::FString { .. } => {
            lemma_f_string_expr_shape(model, it, out);
        },
        Expr::IfElse { .. } => {
            lemma_if_else_expr_shape(model, it, out);
        },
        Expr::Yield { .. } => {
            lemma_yield_expr_shape(model, it, out);
        },
        Expr::YieldFrom { .. } => {
            lemma_yield_from_expr_shape(model, it, out);
        },
        Expr::Slice { .. } => {
            lemma_slice_expr_shape(model, it, out);
        },
        Expr::TString { .. } => {
            lemma_t_string_expr_shape(model, it, out);
        },
        Expr::ListComp { .. } => {
            lemma_list_comp_expr_shape(model, it, out);
        },
        Expr::SetComp { .. } => {
            lemma_set_comp_expr_shape(model, it, out);
        },
        Expr::DictComp { .. } => {
            lemma_dict_comp_expr_shape(model, it, out);
        },
        Expr::LambdaRaw { .. } => {
            lemma_lambda_raw_expr_shape(model, it, out);
        },
        Expr::GeneratorExpRaw { .. } => {
            lemma_generator_exp_raw_expr_shape(model, it, out);
        },
        Expr::Named { .. } => {
            lemma_named_expr_shape(model, it, out);
        },
    }
}

/// Preparing keeps the shape of a function.
#[verifier::spinoff_prover]
pub proof fn law_shape_of_function(model: Model, it: RawFunctionDef, out: PreparedFunctionDef)
    requires
        prepares_function_def(model, it, out),
    ensures
        prepared_function(out) == parsed_function(it),
    decreases it, 0int,
{
    assert(function_def_tree(model, it, out));
    law_bound_names_stay_the_same(model, it.name);
    let params = param_names(it.signature);
    let m1 = stored(model, it.name)->Ok_0.0;
    let inner = opened(m1, params, scope_info(it.body@, params), false, it.name.position)->Ok_0;
    law_shape_of_nodes(inner, it.body@, out.body@);
    let child = after_nodes(inner, it.body@)->Ok_0;
    let m2 = closed(m1, child, it.name.position)->Ok_0;
    lemma_signature_shape(m2, it.signature, out);
    assert(prepared_function(out).parts =~= parsed_function(it).parts);
}

/// Preparing keeps the shape of a class.
#[verifier::rlimit(40)]
#[verifier::spinoff_prover]
pub proof fn law_shape_of_class(model: Model, it: ClassDef, out: PreparedClassDef)
    requires
        prepares_class_def(model, it, out),
    ensures
        prepared_class(out) == parsed_class(it),
    decreases it, 0int,
{
    assert(class_def_tree(model, it, out));
    law_bound_names_stay_the_same(model, it.name);
    let m1 = stored(model, it.name)->Ok_0.0;
    lemma_exprs_shape(m1, it.bases@, out.bases@);
    let m2 = after_exprs(m1, it.bases@)->Ok_0;
    lemma_exprs_shape(m2, it.decorators@, out.decorators@);
    let m3 = after_exprs(m2, it.decorators@)->Ok_0;
    let inner = opened(m3, Seq::empty(), class_scope_info(it.body.body@), true, it.body.name.position)->Ok_0;
    law_shape_of_nodes(inner, it.body.body@, out.body.body@);
    assert(Seq::new(it.members@.len(), |i: int| (it.members@[i].name_id, it.members@[i].position)) =~= Seq::new(
        out.members@.len(),
        |i: int| (out.members@[i].name_id, out.members@[i].position),
    ));
    let body = out.body;
    assert(body.signature.pos_args@ =~= Seq::<StringId>::empty());
    assert(body.signature.args@ =~= Seq::<StringId>::empty());
    assert(body.signature.kwargs@ =~= Seq::<StringId>::empty());
    assert(prepared_defaults(body.default_exprs@, 0, 0) =~= Seq::<Shape>::empty());
    assert(prepared_options(body.signature.kwarg_default_map@, body.default_exprs@, 0) =~= Seq::<Shape>::empty());
}

/// What is raised keeps its shape, but for a builtin that is only named: that is
/// called without arguments.
#[verifier::spinoff_prover]
pub proof fn law_shape_of_raised(model: Model, it: ExprLoc, out: PreparedExprLoc)
    requires
        prepares_raised(model, it, out),
    ensures
        prepared_raised(out) == parsed_raised(it),
        raised_builtin(model, it) is None ==> prepared_expr(out) == parsed_expr(it),
        raised_builtin(model, it) matches Some(builtin) ==> out.position == it.position && (out.expr matches
            PreparedExpr::Call { callable, args } && callable == PreparedCallable::Builtin(builtin) && *args is Empty),
    decreases it, 2int,
{
    match raised_builtin(model, it) {
        Some(_) => {
            reveal(parsed_expr);
            assert(parsed_expr(it) == read_at(it.position));
        },
        None => {
            law_shape_of_expr(model, it, out);
            lemma_empty_calls(model, it, out);
        },
    }
}

/// Preparing keeps the shape of a statement.
#[verifier::spinoff_prover]
pub proof fn law_shape_of_node(model: Model, it: Node, out: PreparedNode)
    requires
        prepares_node(model, it, Some(out)),
    ensures
        prepared_node(out) == parsed_node(it),
    decreases it, 1int,
{
    match it {
        Node::Expr { .. } => {
            lemma_expr_node_shape(model, it, out);
        },
        Node::Return { .. } => {
            lemma_return_node_shape(model, it, out);
        },
        Node::Assert { .. } => {
            lemma_assert_node_shape(model, it, out);
        },
        Node::UnpackAssign { .. } => {
            lemma_unpack_assign_node_shape(model, it, out);
        },
        Node::SubscriptOpAssign { .. } => {
            lemma_subscript_op_assign_node_shape(model, it, out);
        },
        Node::SubscriptAssign { .. } => {
            lemma_subscript_assign_node_shape(model, it, out);
        },
        Node::AttrOpAssign { .. } => {
            lemma_attr_op_assign_node_shape(model, it, out);
        },
        Node::AttrAssign { .. } => {
            lemma_attr_assign_node_shape(model, it, out);
        },
        Node::ChainAssign { .. } => {
            lemma_chain_assign_node_shape(model, it, out);
        },
        Node::Delete { .. } => {
            lemma_delete_node_shape(model, it, out);
        },
        Node::For { .. } => {
            lemma_for_node_shape(model, it, out);
        },
        Node::Break { .. } => {
            lemma_break_node_shape(model, it, out);
        },
        Node::Continue { .. } => {
            lemma_continue_node_shape(model, it, out);
        },
        Node::While { .. } => {
            lemma_while_node_shape(model, it, out);
        },
        Node::If { .. } => {
            lemma_if_node_shape(model, it, out);
        },
        Node::With { .. } => {
            lemma_with_node_shape(model, it, out);
        },
        Node::Raise { .. } => {
            lemma_raise_node_shape(model, it, out);
        },
        Node::Assign { .. } => {
            lemma_assign_node_shape(model, it, out);
        },
        Node::OpAssign { .. } => {
            lemma_op_assign_node_shape(model, it, out);
        },
        Node::TypeAlias { .. } => {
            lemma_type_alias_node_shape(model, it, out);
        },
        Node::FunctionDef { .. } => {
            lemma_function_def_node_shape(model, it, out);
        },
        Node::ClassDef { .. } => {
            lemma_class_def_node_shape(model, it, out);
        },
        Node::Try { .. } => {
            lemma_try_node_shape(model, it, out);
        },
        Node::Import { .. } => {
            lemma_import_node_shape(model, it, out);
        },
        Node::ImportFrom { .. } => {
            lemma_import_from_node_shape(model, it, out);
        },
        Node::Pass | Node::Global { .. } | Node::Nonlocal { .. } => {
            lemma_nothing_is_left(model, it, out);
        },
    }
}

/// Preparing keeps the shape of a list of statements, in order. Only those that
/// leave nothing to run are dropped.
#[verifier::spinoff_prover]
pub proof fn law_shape_of_nodes(model: Model, list: Seq<Node>, out: Seq<PreparedNode>)
    requires
        prepares_nodes(model, list, out),
    ensures
        prepared_nodes(out) == parsed_nodes(list),
    decreases list, 1int,
{
    assert(nodes_tree(model, list, out));
    if list.len() > 0 {
        let before = after_nodes(model, list.drop_last())->Ok_0;
        let last = list.last();
        if last is Pass || last is Global || last is Nonlocal {
            law_shape_of_nodes(model, list.drop_last(), out);
        } else {
            law_shape_of_nodes(model, list.drop_last(), out.drop_last());
            law_shape_of_node(before, last, out.last());
        }
    }
}

/// Preparing keeps the shape of a module, but for its last statement: where that
/// is an expression other than the constant `None`, its value is returned.
#[verifier::spinoff_prover]
pub proof fn law_shape_of_module(model: Model, list: Seq<Node>, out: Seq<PreparedNode>)
    requires
        prepares_module(model, list, out),
    ensures
        ({
            let shapes = parsed_nodes(list);
            ||| prepared_nodes(out) == shapes
            ||| shapes.len() > 0 && shapes.last().form is Expression && prepared_nodes(out) == shapes.drop_last().push(
                branch(Form::Return, shapes.last().parts),
            )
        }),
{
    let tree = choose|tree: Seq<PreparedNode>| #[trigger]
        prepares_nodes(model, list, tree) && out == with_returned_value(tree);
    law_shape_of_nodes(model, list, tree);
    reveal(prepared_node);
    if out != tree {
        let value = tree.last()->Expr_0;
        assert(out.drop_last() =~= tree.drop_last());
        assert(prepared_nodes(out) == prepared_nodes(tree.drop_last()).push(prepared_node(out.last())));
        assert(prepared_nodes(tree).drop_last() =~= prepared_nodes(tree.drop_last()));
        assert(prepared_node(tree.last()).parts == seq![prepared_expr(value)]);
        assert(prepared_node(out.last()) == branch(Form::Return, seq![prepared_expr(value)]));
    }
}

/// An expression that is a name is prepared to the same name at the same place,
/// or to the builtin that goes by that name. One that is a builtin stays that.
#[verifier::spinoff_prover]
pub proof fn law_names_are_read_as_they_stand(model: Model, it: ExprLoc, out: PreparedExprLoc)
    requires
        prepares_expr(model, it, out),
        model.builtins.len() <= usize::MAX,
    ensures
        it.expr matches Expr::Builtin(builtin) ==> out.expr == PreparedExpr::Builtin(builtin),
        it.expr matches Expr::Name(ident) ==> match out.expr {
            PreparedExpr::Name(name) => name.name_id == ident.name_id && name.position == ident.position,
            PreparedExpr::Builtin(builtin) => ident.name_id < model.strings.len() && builtin.index
                < model.builtins.len() && model.builtins[builtin.index as int] == model.strings[ident.name_id as int],
            _ => false,
        },
{
    match it.expr {
        Expr::Builtin(_) => {
            lemma_builtin_parts(model, it, out);
        },
        Expr::Name(ident) => {
            lemma_name_parts(model, it, out);
            law_read_names_stay_the_same(model, ident);
        },
        _ => {},
    }
}

/// A call by name calls the same name, or the builtin that goes by that name.
#[verifier::spinoff_prover]
pub proof fn law_calls_call_what_they_name(model: Model, it: ExprLoc, out: PreparedExprLoc, ident: Identifier)
    requires
        prepares_expr(model, it, out),
        it.expr matches Expr::Call { callable, args } && callable == Callable::Name(ident) && after_args(
            model,
            *args,
        )->Ok_0.builtins.len() <= usize::MAX,
    ensures
        it.expr matches Expr::Call { args, .. } && (out.expr matches PreparedExpr::Call { callable, .. } && match callable {
            PreparedCallable::Name(name) => name.name_id == ident.name_id && name.position == ident.position,
            PreparedCallable::Builtin(builtin) => {
                let now = after_args(model, *args)->Ok_0;
                ident.name_id < now.strings.len() && builtin.index < now.builtins.len()
                    && now.builtins[builtin.index as int] == now.strings[ident.name_id as int]
            },
        }),
{
    lemma_call_parts(model, it, out);
    match it.expr {
        Expr::Call { args, .. } => {
            law_read_names_stay_the_same(after_args(model, *args)->Ok_0, ident);
        },
        _ => {},
    }
}

} // verus!
