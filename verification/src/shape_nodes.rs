//! Preparation keeps the shape of each form of statement.

use crate::ast::{ClassDef, Expr, Node, Try};
use crate::model::{stored, Model};
use crate::prepare_spec::{
    after_expr, after_exprs, after_function_def, after_handlers, after_nodes, after_target, prepares_node,
};
use crate::prepared::PreparedNode;
use crate::shape::{law_bound_names_stay_the_same, parsed_node, prepared_node};
use crate::shape_laws::{law_shape_of_class, law_shape_of_expr, law_shape_of_function, law_shape_of_nodes};
use crate::shape_lists::{
    lemma_delete_targets_shape, lemma_exprs_shape, lemma_handlers_shape, lemma_import_from_lists,
    lemma_import_from_shape, lemma_import_lists, lemma_import_names_shape, lemma_option_shape,
    lemma_raised_option_shape, lemma_target_option_shape, lemma_target_shape, lemma_targets_shape,
};
use crate::shape_parts::{
    lemma_assert_statement_parts, lemma_assert_statement_whole_parts, lemma_assign_statement_parts,
    lemma_attr_assign_statement_parts, lemma_attr_op_assign_statement_parts, lemma_break_statement_parts,
    lemma_chain_assign_statement_parts, lemma_class_def_statement_parts, lemma_continue_statement_parts,
    lemma_delete_statement_parts, lemma_expr_statement_parts, lemma_for_statement_parts,
    lemma_function_def_statement_parts, lemma_if_statement_parts, lemma_import_from_statement_parts,
    lemma_import_statement_parts, lemma_op_assign_statement_parts, lemma_raise_statement_parts,
    lemma_raise_statement_whole_parts, lemma_return_statement_parts, lemma_return_statement_whole_parts,
    lemma_subscript_assign_statement_parts, lemma_subscript_op_assign_statement_parts, lemma_try_statement_parts,
    lemma_type_alias_statement_parts, lemma_unpack_assign_statement_parts, lemma_while_statement_parts,
    lemma_with_statement_parts, lemma_with_statement_whole_parts,
};
use vstd::prelude::*;

verus! {

#[verifier::spinoff_prover]
pub(crate) proof fn lemma_expr_node_shape(model: Model, it: Node, out: PreparedNode)
    requires
        it is Expr,
        prepares_node(model, it, Some(out)),
    ensures
        prepared_node(out) == parsed_node(it),
    decreases it, 0int,
{
    reveal(parsed_node);
    reveal(prepared_node);
    match it {
        Node::Expr(expr) => {
            lemma_expr_statement_parts(model, it, Some(out));
            match out {
                PreparedNode::Expr(expr_out) => {
                    law_shape_of_expr(model, expr, expr_out);
                },
                _ => {},
            }
        },
        _ => {},
    }
}

#[verifier::spinoff_prover]
pub(crate) proof fn lemma_return_node_shape(model: Model, it: Node, out: PreparedNode)
    requires
        it is Return,
        prepares_node(model, it, Some(out)),
    ensures
        prepared_node(out) == parsed_node(it),
    decreases it, 0int,
{
    match it {
        Node::Return(value) => {
            lemma_return_statement_parts(model, it, Some(out));
            match out {
                PreparedNode::Return(value_out) => {
                    lemma_option_shape(model, value, value_out);
                    lemma_return_statement_whole_parts(it, out);
                },
                _ => {},
            }
        },
        _ => {},
    }
}

#[verifier::spinoff_prover]
pub(crate) proof fn lemma_assert_node_shape(model: Model, it: Node, out: PreparedNode)
    requires
        it is Assert,
        prepares_node(model, it, Some(out)),
    ensures
        prepared_node(out) == parsed_node(it),
    decreases it, 0int,
{
    match it {
        Node::Assert { test, msg } => {
            lemma_assert_statement_parts(model, it, Some(out));
            match out {
                PreparedNode::Assert { test: test_out, msg: msg_out } => {
                    law_shape_of_expr(model, test, test_out);
                    let m1 = after_expr(model, test)->Ok_0;
                    lemma_option_shape(m1, msg, msg_out);
                    lemma_assert_statement_whole_parts(it, out);
                },
                _ => {},
            }
        },
        _ => {},
    }
}

#[verifier::spinoff_prover]
pub(crate) proof fn lemma_unpack_assign_node_shape(model: Model, it: Node, out: PreparedNode)
    requires
        it is UnpackAssign,
        prepares_node(model, it, Some(out)),
    ensures
        prepared_node(out) == parsed_node(it),
    decreases it, 0int,
{
    reveal(parsed_node);
    reveal(prepared_node);
    match it {
        Node::UnpackAssign { targets, targets_position, object } => {
            lemma_unpack_assign_statement_parts(model, it, Some(out));
            match out {
                PreparedNode::UnpackAssign { targets: targets_out, targets_position: targets_position_out, object: object_out } => {
                    law_shape_of_expr(model, object, object_out);
                    let m1 = after_expr(model, object)->Ok_0;
                    lemma_targets_shape(m1, targets@, targets_out@);
                },
                _ => {},
            }
        },
        _ => {},
    }
}

#[verifier::spinoff_prover]
pub(crate) proof fn lemma_subscript_op_assign_node_shape(model: Model, it: Node, out: PreparedNode)
    requires
        it is SubscriptOpAssign,
        prepares_node(model, it, Some(out)),
    ensures
        prepared_node(out) == parsed_node(it),
    decreases it, 0int,
{
    reveal(parsed_node);
    reveal(prepared_node);
    match it {
        Node::SubscriptOpAssign { target, index, op, value, target_position } => {
            lemma_subscript_op_assign_statement_parts(model, it, Some(out));
            match out {
                PreparedNode::SubscriptOpAssign { target: target_out, index: index_out, op: op_out, value: value_out, target_position: target_position_out } => {
                    law_shape_of_expr(model, target, target_out);
                    let m1 = after_expr(model, target)->Ok_0;
                    law_shape_of_expr(m1, index, index_out);
                    let m2 = after_expr(m1, index)->Ok_0;
                    law_shape_of_expr(m2, value, value_out);
                },
                _ => {},
            }
        },
        _ => {},
    }
}

#[verifier::spinoff_prover]
pub(crate) proof fn lemma_subscript_assign_node_shape(model: Model, it: Node, out: PreparedNode)
    requires
        it is SubscriptAssign,
        prepares_node(model, it, Some(out)),
    ensures
        prepared_node(out) == parsed_node(it),
    decreases it, 0int,
{
    reveal(parsed_node);
    reveal(prepared_node);
    match it {
        Node::SubscriptAssign { target, index, value, target_position } => {
            lemma_subscript_assign_statement_parts(model, it, Some(out));
            match out {
                PreparedNode::SubscriptAssign { target: target_out, index: index_out, value: value_out, target_position: target_position_out } => {
                    law_shape_of_expr(model, target, target_out);
                    let m1 = after_expr(model, target)->Ok_0;
                    law_shape_of_expr(m1, index, index_out);
                    let m2 = after_expr(m1, index)->Ok_0;
                    law_shape_of_expr(m2, value, value_out);
                },
                _ => {},
            }
        },
        _ => {},
    }
}

#[verifier::spinoff_prover]
pub(crate) proof fn lemma_attr_op_assign_node_shape(model: Model, it: Node, out: PreparedNode)
    requires
        it is AttrOpAssign,
        prepares_node(model, it, Some(out)),
    ensures
        prepared_node(out) == parsed_node(it),
    decreases it, 0int,
{
    reveal(parsed_node);
    reveal(prepared_node);
    match it {
        Node::AttrOpAssign { object, attr, op, value, target_position } => {
            lemma_attr_op_assign_statement_parts(model, it, Some(out));
            match out {
                PreparedNode::AttrOpAssign { object: object_out, attr: attr_out, op: op_out, value: value_out, target_position: target_position_out } => {
                    law_shape_of_expr(model, object, object_out);
                    let m1 = after_expr(model, object)->Ok_0;
                    law_shape_of_expr(m1, value, value_out);
                },
                _ => {},
            }
        },
        _ => {},
    }
}

#[verifier::spinoff_prover]
pub(crate) proof fn lemma_attr_assign_node_shape(model: Model, it: Node, out: PreparedNode)
    requires
        it is AttrAssign,
        prepares_node(model, it, Some(out)),
    ensures
        prepared_node(out) == parsed_node(it),
    decreases it, 0int,
{
    reveal(parsed_node);
    reveal(prepared_node);
    match it {
        Node::AttrAssign { object, attr, target_position, value } => {
            lemma_attr_assign_statement_parts(model, it, Some(out));
            match out {
                PreparedNode::AttrAssign { object: object_out, attr: attr_out, target_position: target_position_out, value: value_out } => {
                    law_shape_of_expr(model, object, object_out);
                    let m1 = after_expr(model, object)->Ok_0;
                    law_shape_of_expr(m1, value, value_out);
                },
                _ => {},
            }
        },
        _ => {},
    }
}

#[verifier::spinoff_prover]
pub(crate) proof fn lemma_chain_assign_node_shape(model: Model, it: Node, out: PreparedNode)
    requires
        it is ChainAssign,
        prepares_node(model, it, Some(out)),
    ensures
        prepared_node(out) == parsed_node(it),
    decreases it, 0int,
{
    reveal(parsed_node);
    reveal(prepared_node);
    match it {
        Node::ChainAssign { targets, object } => {
            lemma_chain_assign_statement_parts(model, it, Some(out));
            match out {
                PreparedNode::ChainAssign { targets: targets_out, object: object_out } => {
                    law_shape_of_expr(model, object, object_out);
                    let m1 = after_expr(model, object)->Ok_0;
                    lemma_targets_shape(m1, targets@, targets_out@);
                },
                _ => {},
            }
        },
        _ => {},
    }
}

#[verifier::spinoff_prover]
pub(crate) proof fn lemma_delete_node_shape(model: Model, it: Node, out: PreparedNode)
    requires
        it is Delete,
        prepares_node(model, it, Some(out)),
    ensures
        prepared_node(out) == parsed_node(it),
    decreases it, 0int,
{
    reveal(parsed_node);
    reveal(prepared_node);
    match it {
        Node::Delete(targets) => {
            lemma_delete_statement_parts(model, it, Some(out));
            match out {
                PreparedNode::Delete(targets_out) => {
                    lemma_delete_targets_shape(model, targets@, targets_out@);
                },
                _ => {},
            }
        },
        _ => {},
    }
}

#[verifier::spinoff_prover]
pub(crate) proof fn lemma_for_node_shape(model: Model, it: Node, out: PreparedNode)
    requires
        it is For,
        prepares_node(model, it, Some(out)),
    ensures
        prepared_node(out) == parsed_node(it),
    decreases it, 0int,
{
    reveal(parsed_node);
    reveal(prepared_node);
    match it {
        Node::For { target, iter, body, or_else, is_async } => {
            lemma_for_statement_parts(model, it, Some(out));
            match out {
                PreparedNode::For { target: target_out, iter: iter_out, body: body_out, or_else: or_else_out, is_async: is_async_out } => {
                    lemma_target_shape(model, target, target_out);
                    let m1 = after_target(model, target)->Ok_0;
                    law_shape_of_expr(m1, iter, iter_out);
                    let m2 = after_expr(m1, iter)->Ok_0;
                    law_shape_of_nodes(m2, body@, body_out@);
                    let m3 = after_nodes(m2, body@)->Ok_0;
                    law_shape_of_nodes(m3, or_else@, or_else_out@);
                },
                _ => {},
            }
        },
        _ => {},
    }
}

#[verifier::spinoff_prover]
pub(crate) proof fn lemma_break_node_shape(model: Model, it: Node, out: PreparedNode)
    requires
        it is Break,
        prepares_node(model, it, Some(out)),
    ensures
        prepared_node(out) == parsed_node(it),
    decreases it, 0int,
{
    reveal(parsed_node);
    reveal(prepared_node);
    match it {
        Node::Break { position } => {
            lemma_break_statement_parts(model, it, Some(out));
            match out {
                PreparedNode::Break { position: position_out } => {
                    
                },
                _ => {},
            }
        },
        _ => {},
    }
}

#[verifier::spinoff_prover]
pub(crate) proof fn lemma_continue_node_shape(model: Model, it: Node, out: PreparedNode)
    requires
        it is Continue,
        prepares_node(model, it, Some(out)),
    ensures
        prepared_node(out) == parsed_node(it),
    decreases it, 0int,
{
    reveal(parsed_node);
    reveal(prepared_node);
    match it {
        Node::Continue { position } => {
            lemma_continue_statement_parts(model, it, Some(out));
            match out {
                PreparedNode::Continue { position: position_out } => {
                    
                },
                _ => {},
            }
        },
        _ => {},
    }
}

#[verifier::spinoff_prover]
pub(crate) proof fn lemma_while_node_shape(model: Model, it: Node, out: PreparedNode)
    requires
        it is While,
        prepares_node(model, it, Some(out)),
    ensures
        prepared_node(out) == parsed_node(it),
    decreases it, 0int,
{
    reveal(parsed_node);
    reveal(prepared_node);
    match it {
        Node::While { test, body, or_else } => {
            lemma_while_statement_parts(model, it, Some(out));
            match out {
                PreparedNode::While { test: test_out, body: body_out, or_else: or_else_out } => {
                    law_shape_of_expr(model, test, test_out);
                    let m1 = after_expr(model, test)->Ok_0;
                    law_shape_of_nodes(m1, body@, body_out@);
                    let m2 = after_nodes(m1, body@)->Ok_0;
                    law_shape_of_nodes(m2, or_else@, or_else_out@);
                },
                _ => {},
            }
        },
        _ => {},
    }
}

#[verifier::spinoff_prover]
pub(crate) proof fn lemma_if_node_shape(model: Model, it: Node, out: PreparedNode)
    requires
        it is If,
        prepares_node(model, it, Some(out)),
    ensures
        prepared_node(out) == parsed_node(it),
    decreases it, 0int,
{
    reveal(parsed_node);
    reveal(prepared_node);
    match it {
        Node::If { test, body, or_else } => {
            lemma_if_statement_parts(model, it, Some(out));
            match out {
                PreparedNode::If { test: test_out, body: body_out, or_else: or_else_out } => {
                    law_shape_of_expr(model, test, test_out);
                    let m1 = after_expr(model, test)->Ok_0;
                    law_shape_of_nodes(m1, body@, body_out@);
                    let m2 = after_nodes(m1, body@)->Ok_0;
                    law_shape_of_nodes(m2, or_else@, or_else_out@);
                },
                _ => {},
            }
        },
        _ => {},
    }
}

#[verifier::spinoff_prover]
pub(crate) proof fn lemma_with_node_shape(model: Model, it: Node, out: PreparedNode)
    requires
        it is With,
        prepares_node(model, it, Some(out)),
    ensures
        prepared_node(out) == parsed_node(it),
    decreases it, 0int,
{
    match it {
        Node::With { context, target, body, position, is_async } => {
            lemma_with_statement_parts(model, it, Some(out));
            match out {
                PreparedNode::With { context: context_out, target: target_out, body: body_out, position: position_out, is_async: is_async_out } => {
                    law_shape_of_expr(model, context, context_out);
                    let m1 = after_expr(model, context)->Ok_0;
                    lemma_target_option_shape(m1, target, target_out);
                    let m2 = (match target { Some(inner) => after_target(m1, inner), None => Ok(m1) })->Ok_0;
                    law_shape_of_nodes(m2, body@, body_out@);
                    lemma_with_statement_whole_parts(it, out);
                },
                _ => {},
            }
        },
        _ => {},
    }
}

#[verifier::spinoff_prover]
pub(crate) proof fn lemma_raise_node_shape(model: Model, it: Node, out: PreparedNode)
    requires
        it is Raise,
        prepares_node(model, it, Some(out)),
    ensures
        prepared_node(out) == parsed_node(it),
    decreases it, 0int,
{
    match it {
        Node::Raise { exc, cause } => {
            lemma_raise_statement_parts(model, it, Some(out));
            match out {
                PreparedNode::Raise { exc: exc_out, cause: cause_out } => {
                    lemma_raised_option_shape(model, exc, exc_out);
                    let m1 = (match exc { Some(inner) => after_expr(model, inner), None => Ok(model) })->Ok_0;
                    lemma_option_shape(m1, cause, cause_out);
                    lemma_raise_statement_whole_parts(it, out);
                },
                _ => {},
            }
        },
        _ => {},
    }
}

#[verifier::spinoff_prover]
pub(crate) proof fn lemma_assign_node_shape(model: Model, it: Node, out: PreparedNode)
    requires
        it is Assign,
        prepares_node(model, it, Some(out)),
    ensures
        prepared_node(out) == parsed_node(it),
    decreases it, 0int,
{
    reveal(parsed_node);
    reveal(prepared_node);
    match it {
        Node::Assign { target, object } => {
            lemma_assign_statement_parts(model, it, Some(out));
            match out {
                PreparedNode::Assign { object: object_out, .. } => {
                    law_shape_of_expr(model, object, object_out);
                    law_bound_names_stay_the_same(after_expr(model, object)->Ok_0, target);
                },
                _ => {},
            }
        },
        _ => {},
    }
}

#[verifier::spinoff_prover]
pub(crate) proof fn lemma_op_assign_node_shape(model: Model, it: Node, out: PreparedNode)
    requires
        it is OpAssign,
        prepares_node(model, it, Some(out)),
    ensures
        prepared_node(out) == parsed_node(it),
    decreases it, 0int,
{
    reveal(parsed_node);
    reveal(prepared_node);
    match it {
        Node::OpAssign { target, value, .. } => {
            lemma_op_assign_statement_parts(model, it, Some(out));
            match out {
                PreparedNode::OpAssign { value: value_out, .. } => {
                    law_bound_names_stay_the_same(model, target);
                    law_shape_of_expr(stored(model, target)->Ok_0.0, value, value_out);
                },
                _ => {},
            }
        },
        _ => {},
    }
}

#[verifier::spinoff_prover]
pub(crate) proof fn lemma_type_alias_node_shape(model: Model, it: Node, out: PreparedNode)
    requires
        it is TypeAlias,
        prepares_node(model, it, Some(out)),
    ensures
        prepared_node(out) == parsed_node(it),
    decreases it, 0int,
{
    reveal(parsed_node);
    reveal(prepared_node);
    match it {
        Node::TypeAlias { name, value } => {
            lemma_type_alias_statement_parts(model, it, Some(out));
            match out {
                PreparedNode::TypeAlias { value: value_out, .. } => {
                    law_shape_of_function(model, value, value_out);
                    law_bound_names_stay_the_same(after_function_def(model, value)->Ok_0, name);
                },
                _ => {},
            }
        },
        _ => {},
    }
}

#[verifier::spinoff_prover]
pub(crate) proof fn lemma_function_def_node_shape(model: Model, it: Node, out: PreparedNode)
    requires
        it is FunctionDef,
        prepares_node(model, it, Some(out)),
    ensures
        prepared_node(out) == parsed_node(it),
    decreases it, 0int,
{
    reveal(parsed_node);
    reveal(prepared_node);
    match it {
        Node::FunctionDef { def, decorators } => {
            lemma_function_def_statement_parts(model, it, Some(out));
            match out {
                PreparedNode::FunctionDef { def: def_out, decorators: decorators_out } => {
                    lemma_exprs_shape(model, decorators@, decorators_out@);
                    law_shape_of_function(after_exprs(model, decorators@)->Ok_0, def, def_out);
                },
                _ => {},
            }
        },
        _ => {},
    }
}

#[verifier::spinoff_prover]
pub(crate) proof fn lemma_class_def_node_shape(model: Model, it: Node, out: PreparedNode)
    requires
        it is ClassDef,
        prepares_node(model, it, Some(out)),
    ensures
        prepared_node(out) == parsed_node(it),
    decreases it, 0int,
{
    reveal(parsed_node);
    reveal(prepared_node);
    match it {
        Node::ClassDef(def) => {
            lemma_class_def_statement_parts(model, it, Some(out));
            match out {
                PreparedNode::ClassDef(def_out) => {
                    law_shape_of_class(model, *def, *def_out);
                },
                _ => {},
            }
        },
        _ => {},
    }
}

#[verifier::spinoff_prover]
pub(crate) proof fn lemma_try_node_shape(model: Model, it: Node, out: PreparedNode)
    requires
        it is Try,
        prepares_node(model, it, Some(out)),
    ensures
        prepared_node(out) == parsed_node(it),
    decreases it, 0int,
{
    reveal(parsed_node);
    reveal(prepared_node);
    match it {
        Node::Try(block) => {
            lemma_try_statement_parts(model, it, Some(out));
            match out {
                PreparedNode::Try(block_out) => {
                    let m1 = after_nodes(model, block.body@)->Ok_0;
                    let m2 = after_handlers(m1, block.handlers@)->Ok_0;
                    let m3 = after_nodes(m2, block.or_else@)->Ok_0;
                    law_shape_of_nodes(model, block.body@, block_out.body@);
                    lemma_handlers_shape(m1, block.handlers@, block_out.handlers@);
                    law_shape_of_nodes(m2, block.or_else@, block_out.or_else@);
                    law_shape_of_nodes(m3, block.finally@, block_out.finally@);
                },
                _ => {},
            }
        },
        _ => {},
    }
}

#[verifier::spinoff_prover]
pub(crate) proof fn lemma_import_node_shape(model: Model, it: Node, out: PreparedNode)
    requires
        it is Import,
        prepares_node(model, it, Some(out)),
    ensures
        prepared_node(out) == parsed_node(it),
    decreases it, 0int,
{
    reveal(parsed_node);
    reveal(prepared_node);
    match it {
        Node::Import { names } => {
            lemma_import_statement_parts(model, it, Some(out));
            match out {
                PreparedNode::Import { names: names_out } => {
                    lemma_import_names_shape(model, names@, names_out@);
                    lemma_import_lists(names@, names_out@);
                },
                _ => {},
            }
        },
        _ => {},
    }
}

#[verifier::spinoff_prover]
pub(crate) proof fn lemma_import_from_node_shape(model: Model, it: Node, out: PreparedNode)
    requires
        it is ImportFrom,
        prepares_node(model, it, Some(out)),
    ensures
        prepared_node(out) == parsed_node(it),
    decreases it, 0int,
{
    reveal(parsed_node);
    reveal(prepared_node);
    match it {
        Node::ImportFrom { names, .. } => {
            lemma_import_from_statement_parts(model, it, Some(out));
            match out {
                PreparedNode::ImportFrom { names: names_out, .. } => {
                    lemma_import_from_shape(model, names@, names_out@);
                    lemma_import_from_lists(names@, names_out@);
                },
                _ => {},
            }
        },
        _ => {},
    }
}

} // verus!
