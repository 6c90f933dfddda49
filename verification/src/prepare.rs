//! Preparation: resolves every name of a parsed program to a slot.
//!
//! A scope is prepared in two passes. The first collects what its body binds,
//! declares, lets nested scopes capture and may itself capture; the second
//! walks the body in source order and resolves each name.

use crate::ast::{
    ArgExprs, CallArg, CallKwarg, Callable, ClassDef, CmpOperator, Comprehension, DeleteTarget, DictItem,
    ExceptHandler, Expr, ExprLoc, FStringPart, FormatSpec, GeneratorDef, Generators, Identifier, ImportName, Kwarg,
    LambdaDef, Node, ParsedParam, ParsedSignature, RawFunctionDef, SequenceItem, UnpackTarget,
};
use crate::intern::{lemma_position_of, position_of, texts, BuiltinTable, InternerBuilder};
use crate::model::{
    bound_comp_var, bound_outside, bubbled, bubbled_all, by_slot, capture_source, cell_var_lists, cells_labelled, closed,
    comp_binding, comp_names, free_var_lists, global_conflict, grows, grows_outside, has_cell,
    lemma_bound_outside_empty, lemma_bound_outside_grows, lemma_bound_outside_union, lemma_child_enclosing_grows,
    lemma_comp_names, lemma_grows_chain, lemma_grows_reflexive, lemma_grows_transitive, lemma_has_cell_grows,
    lemma_labelled_slot, lemma_labelled_slots_ascend, lemma_opened_labelled, lemma_same_bindings,
    lemma_with_captured, module_start, nonlocal_conflict, nothing_binds, opened, opened_function,
    param_index, param_slots, placed, resolved, resolved_global, resolved_read, stored, stored_by_walrus, undefined_object,
    with_aliased_slots,
    with_captured, with_comp_scope, with_scope_slot, with_walrus_slots, without_comp_scope, FunctionModel, Model,
    Outcome,
};
use crate::name_map::{
    first_slot, keeps_slots, known_or_new, lemma_first_slot, lemma_new_names_get_new_slots, lemma_slots_stay,
    new_names_get_new_slots, with_slot, NameMap,
};
use crate::names::{
    ascending, in_order, lemma_push_to_set, CompBinding, CompNameScope, CompScope, NameSet, NameSlots, NamespaceId,
    StringId,
};
use crate::parse::{CodeRange, ParseError, ParseErrorKind};
use crate::prepare_spec::{
    describes_closure,
    after_args, after_call_arg, after_call_args, after_call_kwarg, after_call_kwargs, after_class_def,
    after_clause_targets, after_clauses, after_comp_target, after_comp_targets, after_comparisons, after_defaults,
    after_delete_target, after_delete_targets, after_dict_item, after_dict_items, after_expr, after_exprs,
    after_fstring_part, after_fstring_parts, after_function_def, after_generator_def, after_generators, after_handler,
    after_handlers, after_import_from, after_import_names, after_interpolations, after_item, after_items,
    after_kwargs, after_lambda, after_node, after_nodes, after_params, after_target, after_targets, args_step,
    args_tree, bound_in_filters, call_arg_step, call_arg_tree, call_args_step, call_args_tree, call_kwarg_step,
    call_kwarg_tree, call_kwargs_step, call_kwargs_tree, class_def_step, class_def_tree, class_error,
    class_scope_info, clause_targets, clause_targets_step, clause_targets_tree, clauses_step, clauses_tree,
    comp_target_step, comp_target_tree, comp_targets_step, comp_targets_tree, comparisons_step, comparisons_tree,
    count_defaults, default_indices, defaults_step, defaults_tree, delete_target_step, delete_target_tree,
    delete_targets_step, delete_targets_tree, describes_signature, dict_item_step, dict_item_tree, dict_items_step,
    dict_items_tree, expr_step, expr_tree, exprs_step, exprs_tree, first_unbound_member, fstring_part_step,
    fstring_part_tree, fstring_parts_step, fstring_parts_tree, function_def_step, function_def_tree,
    generator_def_step, generator_def_tree, generators_step, generators_tree, handler_step, handler_tree,
    handlers_step, handlers_tree, import_from_step, import_from_tree, import_names_step, import_names_tree,
    interpolations_step, interpolations_tree, is_empty_signature, item_step, item_tree, items_step, items_tree,
    kwargs_step, kwargs_tree, lambda_step, lambda_tree, lemma_call_args_error, lemma_call_kwargs_error,
    lemma_clause_targets_error, lemma_clauses_error, lemma_comp_targets_error, lemma_comparisons_error,
    lemma_delete_targets_error, lemma_dict_items_error, lemma_exprs_error, lemma_fstring_parts_error,
    lemma_handlers_error, lemma_import_from_error, lemma_import_names_error, lemma_interpolations_error,
    lemma_items_error, lemma_kwargs_error, lemma_nodes_error, lemma_params_error, lemma_targets_error, node_step,
    node_tree, nodes_step, nodes_tree, params_step, params_tree, placed_members, prepares_args, prepares_call_arg,
    prepares_call_args, prepares_call_kwarg, prepares_call_kwargs, prepares_class_def, prepares_clause_targets,
    prepares_clauses, prepares_comp_target, prepares_comp_targets, prepares_comparisons, prepares_defaults,
    prepares_delete_target, prepares_delete_targets, prepares_dict_item, prepares_dict_items, prepares_expr,
    prepares_exprs, prepares_fstring_part, prepares_fstring_parts, prepares_function_def, prepares_generator_def,
    prepares_generators, prepares_handler, prepares_handlers, prepares_import_from, prepares_import_names,
    prepares_interpolations, prepares_item, prepares_items, prepares_kwargs, prepares_lambda, prepares_node,
    prepares_nodes, prepares_params, prepares_raised, prepares_target, prepares_targets, target_step, target_tree,
    targets_step, targets_tree, unbound_name, walrus_names,
};
use crate::prepared::{
    CaptureSource, NameScope, PreparedArgs, PreparedCallArg, PreparedCallKwarg, PreparedCallable, PreparedClassDef,
    PreparedClause, PreparedDeleteTarget, PreparedDictItem, PreparedExpr, PreparedExprLoc, PreparedFStringPart,
    PreparedFormatSpec, PreparedFunctionDef, PreparedGenerators, PreparedHandler, PreparedImportName,
    PreparedInterpolation, PreparedKwarg, PreparedNode, PreparedSequenceItem, PreparedTarget, PreparedTemplate,
    PreparedTry, ResolvedIdentifier, Signature,
};
use crate::scope::{
    bound_in_expr, collect_assigned_names_from_expr, collect_assigned_names_from_exprs, collect_function_scope_info,
    collect_lambda_scope_info, declared_in_handlers, declared_in_node, declared_in_nodes, names_of_params,
    param_names, Declaration, FunctionScopeInfo, ScopeInfo,
};
use crate::tstring::TemplateInterpolation;
use vstd::prelude::*;

verus! {

broadcast use {lemma_grows_chain, lemma_bound_outside_union, lemma_bound_outside_empty, lemma_bound_outside_grows};

/// State that only a function scope has.
pub struct FunctionState {
    /// The namespace of the function: parameters, then owned cells, then
    /// captured cells, then other locals.
    locals: NameMap,
    /// Names declared global.
    global_names: NameSet,
    /// Names that the body binds.
    assigned_names: NameSet,
    /// Names that some enclosing scope can hand down.
    enclosing_locals: NameSet,
    /// Captured variables, with the slot that holds the cell.
    free_var_map: NameSlots,
    /// Locals that nested scopes capture, with the slot that holds the cell.
    cell_var_map: NameSlots,
}

impl View for FunctionState {
    type V = FunctionModel;

    closed spec fn view(&self) -> FunctionModel {
        FunctionModel {
            locals: self.locals@,
            global_names: self.global_names@,
            assigned_names: self.assigned_names@,
            enclosing_locals: self.enclosing_locals@,
            free_vars: self.free_var_map@,
            cell_vars: self.cell_var_map@,
        }
    }
}

/// Preparation of one scope.
pub struct Prepare<'a> {
    interner: &'a InternerBuilder,
    builtins: &'a BuiltinTable,
    /// The namespace of the module.
    globals: NameMap,
    /// What a function scope has; absent at module level.
    function: Option<FunctionState>,
    /// Names bound so far.
    names_assigned_in_order: NameSet,
    /// Names read so far.
    names_used: NameSet,
    /// The number of comprehension slots in use.
    comp_var_depth: u16,
    /// The active comprehensions, from the outermost to the innermost.
    comp_name_scopes: Vec<CompNameScope>,
    /// Whether the scope is the body of a class.
    is_class_scope: bool,
    /// The class members bound so far.
    bound_class_members: NameSet,
}

/// The contents of a list of comprehension scopes.
pub open spec fn scopes_view(scopes: Seq<CompNameScope>) -> Seq<CompScope> {
    scopes.map_values(|scope: CompNameScope| scope@)
}

impl View for Prepare<'_> {
    type V = Model;

    closed spec fn view(&self) -> Model {
        Model {
            strings: self.interner@,
            builtins: self.builtins@,
            globals: self.globals@,
            function: match self.function {
                Some(state) => Some(state@),
                None => None,
            },
            assigned: self.names_assigned_in_order@,
            used: self.names_used@,
            comp_var_depth: self.comp_var_depth,
            comp_scopes: scopes_view(self.comp_name_scopes@),
            is_class_scope: self.is_class_scope,
            bound_members: self.bound_class_members@,
        }
    }
}

/// The closure slots of a finished child scope.
pub struct FinalizedScope {
    free_var_enclosing_slots: Vec<CaptureSource>,
    free_var_slots: Vec<NamespaceId>,
    cell_var_slots: Vec<NamespaceId>,
    cell_param_indices: Vec<Option<usize>>,
    namespace_size: usize,
}

/// Lists the names of `map` in ascending order of their slots.
fn names_by_slot(map: &NameSlots) -> (names: Vec<StringId>)
    ensures
        by_slot(map@, names@),
{
    let unsorted = map.names();
    let mut names: Vec<StringId> = Vec::new();
    let mut i: usize = 0;
    while i < unsorted.len()
        invariant
            i <= unsorted@.len(),
            ascending(unsorted@),
            unsorted@.to_set() == map@.dom(),
            names@.no_duplicates(),
            forall|x: StringId| names@.contains(x) <==> unsorted@.take(i as int).contains(x),
            forall|k: int| 0 <= k < names@.len() ==> map@.contains_key(#[trigger] names@[k]),
            forall|a: int, b: int| 0 <= a < b < names@.len() ==> map@[names@[a]] <= map@[names@[b]],
        decreases unsorted@.len() - i,
    {
        let name = unsorted[i];
        proof {
            assert(unsorted@.contains(name));
            assert(map@.dom().contains(name));
            assert(!names@.contains(name)) by {
                if unsorted@.take(i as int).contains(name) {
                    let k = unsorted@.take(i as int).index_of(name);
                    assert(unsorted@[k] < unsorted@[i as int]);
                }
            }
        }
        let slot: NamespaceId = map.get(name).unwrap();
        let mut at: usize = names.len();
        while at > 0 && slot_after(map, names[at - 1], slot)
            invariant
                at <= names@.len(),
                forall|k: int| at <= k < names@.len() ==> slot < map@[names@[k]],
                forall|k: int| 0 <= k < names@.len() ==> map@.contains_key(#[trigger] names@[k]),
            decreases at,
        {
            at -= 1;
        }
        let ghost before = names@;
        names.insert(at, name);
        proof {
            assert(names@ == before.insert(at as int, name));
            assert forall|k: int| 0 <= k < names@.len() implies map@.contains_key(#[trigger] names@[k]) by {
                if k < at {
                    assert(names@[k] == before[k]);
                } else if k > at {
                    assert(names@[k] == before[k - 1]);
                }
            }
            assert forall|a: int, b: int| 0 <= a < b < names@.len() implies map@[names@[a]] <= map@[names@[b]] by {
                let oa = if a < at { a } else { a - 1 };
                let ob = if b < at { b } else { b - 1 };
                if a != at && b != at {
                    assert(map@[before[oa]] <= map@[before[ob]]);
                } else if a == at {
                    assert(names@[b] == before[b - 1]);
                } else {
                    if a < at - 1 {
                        assert(map@[before[a]] <= map@[before[at - 1]]);
                    }
                }
            }
            assert(unsorted@.take(i + 1) == unsorted@.take(i as int).push(name));
            assert forall|x: StringId| names@.contains(x) <==> unsorted@.take(i + 1).contains(x) by {
                lemma_insert_contains(before, at as int, name, x);
                lemma_push_contains(unsorted@.take(i as int), name, x);
            }
            lemma_insert_no_duplicates(before, at as int, name);
        }
        i += 1;
    }
    proof {
        assert(unsorted@.take(i as int) == unsorted@);
        assert(names@.to_set() =~= map@.dom());
    }
    names
}

/// Says whether the slot of `name` lies behind `slot`.
fn slot_after(map: &NameSlots, name: StringId, slot: NamespaceId) -> (after: bool)
    requires
        map@.contains_key(name),
    ensures
        after == (slot < map@[name]),
{
    slot < map.get(name).unwrap()
}

/// Inserting an element adds that element and keeps the others.
proof fn lemma_insert_contains(items: Seq<u32>, at: int, item: u32, x: u32)
    requires
        0 <= at <= items.len(),
    ensures
        items.insert(at, item).contains(x) <==> items.contains(x) || x == item,
{
    let all = items.insert(at, item);
    if all.contains(x) {
        let k = all.index_of(x);
        if k < at {
            assert(items[k] == x);
        } else if k > at {
            assert(items[k - 1] == x);
        }
    }
    if items.contains(x) {
        let k = items.index_of(x);
        if k < at {
            assert(all[k] == x);
        } else {
            assert(all[k + 1] == x);
        }
    }
    assert(all[at] == item);
}

/// Appending an element adds that element and keeps the others.
proof fn lemma_push_contains(items: Seq<u32>, item: u32, x: u32)
    ensures
        items.push(item).contains(x) <==> items.contains(x) || x == item,
{
    assert(items.push(item) == items.insert(items.len() as int, item));
    lemma_insert_contains(items, items.len() as int, item, x);
}

/// Inserting a new element into a list without duplicates makes no duplicate.
proof fn lemma_insert_no_duplicates(items: Seq<u32>, at: int, item: u32)
    requires
        0 <= at <= items.len(),
        items.no_duplicates(),
        !items.contains(item),
    ensures
        items.insert(at, item).no_duplicates(),
{
    let all = items.insert(at, item);
    assert forall|i: int, j: int| 0 <= i < all.len() && 0 <= j < all.len() && i != j implies all[i] != all[j] by {
        let oi = if i < at { i } else { i - 1 };
        let oj = if j < at { j } else { j - 1 };
        if i == at {
            assert(items.contains(items[oj]));
        } else if j == at {
            assert(items.contains(items[oi]));
        } else {
            assert(items[oi] != items[oj]);
        }
    }
}

/// The position of `name` among `params`.
fn find_param(params: &Vec<StringId>, name: StringId) -> (index: Option<usize>)
    ensures
        index == param_index(params@, name),
{
    let mut end: usize = params.len();
    assert(params@.take(end as int) == params@);
    while end > 0
        invariant
            end <= params@.len(),
            param_index(params@, name) == param_index(params@.take(end as int), name),
        decreases end,
    {
        assert(params@.take(end as int).drop_last() == params@.take(end - 1));
        if params[end - 1] == name {
            return Some(end - 1);
        }
        end -= 1;
    }
    None
}

/// The owned-cell lists of a scope: the slots in ascending order, each with
/// the parameter that its cell starts from.
pub fn build_cell_slots(cell_var_map: &NameSlots, params: &Vec<StringId>) -> (lists: (
    Vec<NamespaceId>,
    Vec<Option<usize>>,
))
    ensures
        cell_var_lists(cell_var_map@, params@, lists.0@, lists.1@),
{
    let names = names_by_slot(cell_var_map);
    let mut slots: Vec<NamespaceId> = Vec::new();
    let mut indices: Vec<Option<usize>> = Vec::new();
    let mut i: usize = 0;
    while i < names.len()
        invariant
            i <= names@.len(),
            by_slot(cell_var_map@, names@),
            slots@ == names@.take(i as int).map_values(|name: StringId| cell_var_map@[name]),
            indices@ == names@.take(i as int).map_values(|name: StringId| param_index(params@, name)),
        decreases names@.len() - i,
    {
        proof {
            assert(names@.contains(names@[i as int]));
            assert(names@.to_set().contains(names@[i as int]));
        }
        slots.push(cell_var_map.get(names[i]).unwrap());
        indices.push(find_param(params, names[i]));
        i += 1;
        assert(slots@ =~= names@.take(i as int).map_values(|name: StringId| cell_var_map@[name]));
        assert(indices@ =~= names@.take(i as int).map_values(|name: StringId| param_index(params@, name)));
    }
    assert(names@.take(i as int) == names@);
    (slots, indices)
}

/// Gives each of `names` a slot of its own and records it in `cells`.
fn push_aliased_slots(
    locals: &mut NameMap,
    cells: &mut NameSlots,
    names: &Vec<StringId>,
    position: CodeRange,
) -> (done: Result<(), ParseError>)
    requires
        old(locals).wf(),
    ensures
        final(locals).wf(),
        match with_aliased_slots(old(locals)@, old(cells)@, names@, position) {
            Ok((slots, map)) => done is Ok && final(locals)@ == slots && final(cells)@ == map,
            Err(error) => done == Err::<(), ParseError>(error),
        },
{
    let ghost slots = locals@;
    let ghost map = cells@;
    let mut i: usize = 0;
    while i < names.len()
        invariant
            i <= names@.len(),
            locals.wf(),
            slots == old(locals)@,
            map == old(cells)@,
            with_aliased_slots(slots, map, names@.take(i as int), position) == Ok::<_, ParseError>(
                (locals@, cells@),
            ),
        decreases names@.len() - i,
    {
        assert(names@.take(i + 1).drop_last() == names@.take(i as int));
        match locals.push_aliased_slot(names[i], position) {
            Ok(slot) => {
                cells.insert(names[i], slot);
            },
            Err(error) => {
                proof {
                    lemma_aliased_error(slots, map, names@, position, i + 1);
                }
                return Err(error);
            },
        }
        i += 1;
    }
    assert(names@.take(i as int) == names@);
    Ok(())
}

/// Once slots have run out the rest does not matter.
proof fn lemma_aliased_error(
    slots: Seq<StringId>,
    cells: Map<StringId, NamespaceId>,
    names: Seq<StringId>,
    position: CodeRange,
    count: int,
)
    requires
        0 <= count <= names.len(),
        with_aliased_slots(slots, cells, names.take(count), position) is Err,
    ensures
        with_aliased_slots(slots, cells, names, position) == with_aliased_slots(
            slots,
            cells,
            names.take(count),
            position,
        ),
    decreases names.len() - count,
{
    if count < names.len() {
        assert(names.take(count + 1).drop_last() == names.take(count));
        lemma_aliased_error(slots, cells, names, position, count + 1);
    } else {
        assert(names.take(count) == names);
    }
}

/// The names that got slots of their own are the keys that were added.
proof fn lemma_aliased_keys(
    slots: Seq<StringId>,
    cells: Map<StringId, NamespaceId>,
    names: Seq<StringId>,
    position: CodeRange,
)
    ensures
        with_aliased_slots(slots, cells, names, position) matches Ok((_, map)) ==> map.dom() == cells.dom()
            + names.to_set(),
    decreases names.len(),
{
    if names.len() > 0 {
        lemma_aliased_keys(slots, cells, names.drop_last(), position);
        assert(names == names.drop_last().push(names.last()));
        lemma_push_to_set(names.drop_last(), names.last());
        if let Ok((_, map)) = with_aliased_slots(slots, cells, names, position) {
            assert(map.dom() =~= cells.dom() + names.to_set());
        }
    } else {
        assert(names.to_set() =~= Set::<StringId>::empty());
        assert(cells.dom() + names.to_set() =~= cells.dom());
    }
}

/// A duplicate parameter is an error whatever follows.
proof fn lemma_param_slots_error(params: Seq<StringId>, position: CodeRange, count: int)
    requires
        0 <= count <= params.len(),
        param_slots(params.take(count), position) is Err,
    ensures
        param_slots(params, position) == param_slots(params.take(count), position),
    decreases params.len() - count,
{
    if count < params.len() {
        assert(params.take(count + 1).drop_last() == params.take(count));
        lemma_param_slots_error(params, position, count + 1);
    } else {
        assert(params.take(count) == params);
    }
}

/// The namespace of a function whose parameters are `params`.
fn bind_params(params: &Vec<StringId>, position: CodeRange) -> (locals: Result<NameMap, ParseError>)
    ensures
        match param_slots(params@, position) {
            Ok(slots) => locals matches Ok(map) && map.wf() && map@ == slots,
            Err(error) => locals matches Err(e) && e == error,
        },
{
    let mut locals = NameMap::new();
    let mut i: usize = 0;
    while i < params.len()
        invariant
            i <= params@.len(),
            locals.wf(),
            param_slots(params@.take(i as int), position) == Ok::<_, ParseError>(locals@),
        decreases params@.len() - i,
    {
        assert(params@.take(i + 1).drop_last() == params@.take(i as int));
        if locals.contains(params[i]) {
            proof {
                lemma_param_slots_error(params@, position, i + 1);
            }
            return Err(ParseError { kind: ParseErrorKind::DuplicateArgument(params[i]), position });
        }
        match locals.ensure_slot(params[i], position) {
            Ok(_) => {},
            Err(error) => {
                proof {
                    lemma_param_slots_error(params@, position, i + 1);
                }
                return Err(error);
            },
        }
        i += 1;
    }
    assert(params@.take(i as int) == params@);
    Ok(locals)
}

impl FunctionState {
    /// The state that a function scope starts with.
    ///
    /// A parameter that is also a cell keeps its own slot and gets another
    /// for the cell.
    fn open(
        params: &Vec<StringId>,
        info: FunctionScopeInfo,
        enclosing_locals: NameSet,
        position: CodeRange,
    ) -> (state: Result<FunctionState, ParseError>)
        ensures
            match opened_function(params@, info@, enclosing_locals@, position) {
                Ok(model) => state matches Ok(s) && s@ == model && s.locals.wf(),
                Err(error) => state matches Err(e) && e == error,
            },
            state is Ok ==> captures_listed(info@, enclosing_locals@),
    {
        let implicit_captures = info.potential_captures.common(&enclosing_locals);
        let mut owned = info.cell_var_names.copy();
        owned.remove_all(&info.nonlocal_names);
        owned.remove_all(&implicit_captures);
        let mut locals = bind_params(params, position)?;
        let mut cell_var_map = NameSlots::new();
        push_aliased_slots(&mut locals, &mut cell_var_map, &owned.walk(), position)?;
        let mut free_var_map = NameSlots::new();
        push_aliased_slots(&mut locals, &mut free_var_map, &info.nonlocal_names.walk(), position)?;
        push_aliased_slots(&mut locals, &mut free_var_map, &implicit_captures.walk(), position)?;
        Ok(
            FunctionState {
                locals,
                global_names: info.global_names,
                assigned_names: info.assigned_names,
                enclosing_locals,
                free_var_map,
                cell_var_map,
            },
        )
    }
}

impl<'a> Prepare<'a> {
    /// The namespaces are well formed.
    pub closed spec fn wf(&self) -> bool {
        &&& self.globals.wf()
        &&& self.function matches Some(state) ==> state.locals.wf()
    }

    /// Preparation of a module whose namespace starts as `globals`.
    pub fn new_module(globals: NameMap, interner: &'a InternerBuilder, builtins: &'a BuiltinTable) -> (prepare: Prepare<'a>)
        requires
            globals.wf(),
        ensures
            prepare.wf(),
            prepare@ == module_start(interner@, builtins@, globals@),
    {
        let prepare = Prepare {
            interner,
            builtins,
            globals,
            function: None,
            names_assigned_in_order: NameSet::new(),
            names_used: NameSet::new(),
            comp_var_depth: 0,
            comp_name_scopes: Vec::new(),
            is_class_scope: false,
            bound_class_members: NameSet::new(),
        };
        assert(prepare@.comp_scopes =~= Seq::<CompScope>::empty());
        prepare
    }

    /// Says whether this is the scope of the module.
    pub fn is_module_scope(&self) -> (module: bool)
        ensures
            module == (self@.function is None),
    {
        self.function.is_none()
    }

    /// The slot of `name` in the namespace of this scope, a new one where it
    /// has none.
    pub fn ensure_scope_slot(&mut self, name: StringId, position: CodeRange) -> (done: Result<(), ParseError>)
        requires
            old(self).wf(),
        ensures
            match with_scope_slot(old(self)@, name, position) {
                Ok(model) => done is Ok && final(self).wf() && final(self)@ == model,
                Err(error) => done == Err::<(), ParseError>(error),
            },
            done is Ok ==> grows(old(self)@, final(self)@),
    {
        proof {
            reveal(grows);
            if let Some(f) = self@.function {
                if cells_labelled(f) && with_slot(f.locals, name, position) is Ok {
                    lemma_labelled_slot(f, name, position);
                }
            }
        }
        match &mut self.function {
            None => {
                self.globals.ensure_slot(name, position)?;
            },
            Some(state) => {
                state.locals.ensure_slot(name, position)?;
            },
        }
        Ok(())
    }

    /// Names that a scope nested in this one may capture.
    pub fn child_enclosing_locals(&self) -> (names: NameSet)
        ensures
            names@ == self@.child_enclosing(),
    {
        let mut names = NameSet::new();
        if let Some(state) = &self.function {
            if self.is_class_scope {
                names.insert_all(&state.free_var_map.names());
            } else {
                names.add_all(&state.assigned_names);
                names.insert_all(&state.locals.labels());
            }
            names.add_all(&state.enclosing_locals);
            names.remove_all(&state.global_names);
        }
        let ghost start = names@;
        let mut i: usize = 0;
        while i < self.comp_name_scopes.len()
            invariant
                i <= self.comp_name_scopes@.len(),
                names@ == start + comp_names(scopes_view(self.comp_name_scopes@).take(i as int)),
            decreases self.comp_name_scopes@.len() - i,
        {
            let ghost scopes = scopes_view(self.comp_name_scopes@);
            assert(scopes.take(i + 1).drop_last() == scopes.take(i as int));
            names.add_all(&self.comp_name_scopes[i].name_set());
            i += 1;
        }
        assert(scopes_view(self.comp_name_scopes@).take(i as int) == scopes_view(self.comp_name_scopes@));
        assert(names@ =~= self@.child_enclosing());
        names
    }

    /// The binding of `name` in the innermost comprehension that has one.
    fn find_comp_binding(&self, name: StringId) -> (binding: Option<CompBinding>)
        ensures
            binding == comp_binding(self@.comp_scopes, name),
    {
        let mut end: usize = self.comp_name_scopes.len();
        let ghost scopes = scopes_view(self.comp_name_scopes@);
        assert(scopes.take(end as int) == scopes);
        while end > 0
            invariant
                end <= self.comp_name_scopes@.len(),
                scopes == scopes_view(self.comp_name_scopes@),
                comp_binding(scopes, name) == comp_binding(scopes.take(end as int), name),
            decreases end,
        {
            assert(scopes.take(end as int).drop_last() == scopes.take(end - 1));
            if let Some(binding) = self.comp_name_scopes[end - 1].get(name) {
                return Some(binding);
            }
            end -= 1;
        }
        None
    }

    /// Marks the innermost comprehension binding of `name` as captured and
    /// says whether there is one.
    fn capture_comp_binding(&mut self, name: StringId) -> (found: bool)
        ensures
            found == (comp_binding(old(self)@.comp_scopes, name) is Some),
            found ==> final(self)@ == (Model {
                comp_scopes: with_captured(old(self)@.comp_scopes, name),
                ..old(self)@
            }),
            !found ==> final(self)@ == old(self)@,
            final(self).wf() == old(self).wf(),
    {
        let mut end: usize = self.comp_name_scopes.len();
        let ghost scopes = scopes_view(self.comp_name_scopes@);
        assert(scopes.take(end as int) == scopes);
        assert(scopes.skip(end as int) == Seq::<CompScope>::empty());
        while end > 0
            invariant
                *self == *old(self),
                end <= self.comp_name_scopes@.len(),
                scopes == scopes_view(self.comp_name_scopes@),
                comp_binding(scopes, name) == comp_binding(scopes.take(end as int), name),
                with_captured(scopes, name) == with_captured(scopes.take(end as int), name) + scopes.skip(end as int),
            decreases end,
        {
            let ghost top = scopes.take(end as int);
            assert(top.drop_last() == scopes.take(end - 1));
            assert(top.last() == scopes[end - 1]);
            if let Some(binding) = self.comp_name_scopes[end - 1].get(name) {
                self.comp_name_scopes[end - 1].insert(name, CompBinding { slot: binding.slot, captured: true });
                assert(scopes_view(self.comp_name_scopes@) =~= with_captured(scopes, name));
                return true;
            }
            end -= 1;
            assert(with_captured(scopes, name) =~= with_captured(scopes.take(end as int), name) + scopes.skip(
                end as int,
            ));
        }
        false
    }

    /// The cell that a nested scope takes for a captured name.
    pub fn lookup_captured_slot(&self, name: StringId) -> (source: CaptureSource)
        requires
            has_cell(self@, name),
        ensures
            source == capture_source(self@, name),
    {
        if let Some(binding) = self.find_comp_binding(name) {
            return CaptureSource::CompVar(binding.slot);
        }
        match &self.function {
            Some(state) => match state.cell_var_map.get(name) {
                Some(slot) => CaptureSource::Namespace(slot),
                None => CaptureSource::Namespace(state.free_var_map.get(name).unwrap()),
            },
            None => vstd::pervasive::unreached(),
        }
    }

    /// Makes a cell for `name` available to a nested scope that captures it.
    ///
    /// The innermost comprehension that binds the name marks it. Else a
    /// function that binds the name owns the cell from now on, and one that
    /// does not captures it in turn.
    pub fn bubble_up_captured_name(&mut self, name: StringId, position: CodeRange) -> (done: Result<(), ParseError>)
        requires
            old(self).wf(),
            old(self)@.child_enclosing().contains(name),
        ensures
            match bubbled(old(self)@, name, position) {
                Ok(model) => done is Ok && final(self).wf() && final(self)@ == model,
                Err(error) => done == Err::<(), ParseError>(error),
            },
            done is Ok ==> grows(old(self)@, final(self)@) && has_cell(final(self)@, name),
    {
        proof {
            reveal(grows);
            if let Some(f) = self@.function {
                if cells_labelled(f) && with_slot(f.locals, name, position) is Ok {
                    lemma_labelled_slot(f, name, position);
                }
            }
        }
        let ghost before = self@;
        proof {
            lemma_comp_names(before.comp_scopes, name);
        }
        if self.capture_comp_binding(name) {
            proof {
                lemma_with_captured(before.comp_scopes, name);
                lemma_same_bindings(before.comp_scopes, self@.comp_scopes, name);
            }
            return Ok(());
        }
        match &mut self.function {
            None => Ok(()),
            Some(state) => {
                if state.cell_var_map.get(name).is_some() || state.free_var_map.get(name).is_some() {
                    return Ok(());
                }
                let owned = state.assigned_names.contains(name) || state.locals.contains(name);
                let slot = state.locals.ensure_slot(name, position)?;
                if owned {
                    state.cell_var_map.insert(name, slot);
                } else {
                    state.free_var_map.insert(name, slot);
                }
                Ok(())
            },
        }
    }

    /// The captured-cell lists of a finished child scope: its slots in
    /// ascending order, each with the cell that this scope hands it.
    pub fn build_free_var_slots(&self, inner_free_var_map: &NameSlots) -> (lists: (Vec<NamespaceId>, Vec<CaptureSource>))
        requires
            forall|name: StringId| #[trigger] inner_free_var_map@.contains_key(name) ==> has_cell(self@, name),
        ensures
            free_var_lists(self@, inner_free_var_map@, lists.0@, lists.1@),
    {
        let names = names_by_slot(inner_free_var_map);
        let mut slots: Vec<NamespaceId> = Vec::new();
        let mut sources: Vec<CaptureSource> = Vec::new();
        let mut i: usize = 0;
        while i < names.len()
            invariant
                i <= names@.len(),
                by_slot(inner_free_var_map@, names@),
                forall|name: StringId| #[trigger] inner_free_var_map@.contains_key(name) ==> has_cell(self@, name),
                slots@ == names@.take(i as int).map_values(|name: StringId| inner_free_var_map@[name]),
                sources@ == names@.take(i as int).map_values(|name: StringId| capture_source(self@, name)),
            decreases names@.len() - i,
        {
            proof {
                assert(names@.contains(names@[i as int]));
                assert(names@.to_set().contains(names@[i as int]));
            }
            slots.push(inner_free_var_map.get(names[i]).unwrap());
            sources.push(self.lookup_captured_slot(names[i]));
            i += 1;
            assert(slots@ =~= names@.take(i as int).map_values(|name: StringId| inner_free_var_map@[name]));
            assert(sources@ =~= names@.take(i as int).map_values(|name: StringId| capture_source(self@, name)));
        }
        assert(names@.take(i as int) == names@);
        (slots, sources)
    }

    /// Makes a cell available for each of `names`.
    fn bubble_up_all(&mut self, names: &Vec<StringId>, position: CodeRange) -> (done: Result<(), ParseError>)
        requires
            old(self).wf(),
            names@.to_set().subset_of(old(self)@.child_enclosing()),
        ensures
            match bubbled_all(old(self)@, names@, position) {
                Ok(model) => done is Ok && final(self).wf() && final(self)@ == model,
                Err(error) => done == Err::<(), ParseError>(error),
            },
            done is Ok ==> grows(old(self)@, final(self)@),
            done is Ok ==> forall|name: StringId| #[trigger] names@.to_set().contains(name) ==> has_cell(final(self)@, name),
    {
        proof {
            reveal(grows);
        }
        let ghost start = self@;
        let mut i: usize = 0;
        while i < names.len()
            invariant
                i <= names@.len(),
                self.wf(),
                start == old(self)@,
                names@.to_set().subset_of(start.child_enclosing()),
                bubbled_all(start, names@.take(i as int), position) == Outcome::Ok(self@),
                grows(start, self@),
                forall|k: int| 0 <= k < i ==> has_cell(self@, #[trigger] names@[k]),
            decreases names@.len() - i,
        {
            let ghost before = self@;
            proof {
                assert(names@.take(i + 1).drop_last() == names@.take(i as int));
                assert(names@.to_set().contains(names@[i as int]));
                lemma_child_enclosing_grows(start, before);
            }
            match self.bubble_up_captured_name(names[i], position) {
                Ok(_) => {},
                Err(error) => {
                    proof {
                        lemma_bubbled_error(start, names@, position, i + 1);
                    }
                    return Err(error);
                },
            }
            proof {
                lemma_grows_transitive(start, before, self@);
                assert forall|k: int| 0 <= k < i + 1 implies has_cell(self@, #[trigger] names@[k]) by {
                    if k < i {
                        lemma_has_cell_grows(before, self@, names@[k]);
                    }
                }
            }
            i += 1;
        }
        assert(names@.take(i as int) == names@);
        Ok(())
    }

    /// Starts the preparation of a scope nested in this one.
    ///
    /// The namespace of the module goes along and comes back when the nested
    /// scope is finished.
    pub fn new_function(
        &mut self,
        params: &Vec<StringId>,
        info: FunctionScopeInfo,
        is_class_scope: bool,
        position: CodeRange,
    ) -> (child: Result<Prepare<'a>, ParseError>)
        requires
            old(self).wf(),
        ensures
            match opened(old(self)@, params@, info@, is_class_scope, position) {
                Ok(model) => child matches Ok(c) && c.wf() && c@ == model,
                Err(error) => child matches Err(e) && e == error,
            },
            child is Ok ==> (Model { globals: old(self)@.globals, ..final(self)@ }) == old(self)@,
            child is Ok ==> final(self).wf(),
            child is Ok ==> captures_listed(info@, old(self)@.child_enclosing()),
    {
        proof {
            reveal(opened);
        }
        let enclosing_locals = self.child_enclosing_locals();
        let state = FunctionState::open(params, info, enclosing_locals, position)?;
        let mut globals = NameMap::new();
        std::mem::swap(&mut globals, &mut self.globals);
        let child = Prepare {
            interner: self.interner,
            builtins: self.builtins,
            globals,
            function: Some(state),
            names_assigned_in_order: NameSet::new(),
            names_used: NameSet::new(),
            comp_var_depth: 0,
            comp_name_scopes: Vec::new(),
            is_class_scope,
            bound_class_members: NameSet::new(),
        };
        assert(child@.comp_scopes =~= Seq::<CompScope>::empty());
        Ok(child)
    }

    /// Takes the namespace of the module back from a finished child scope,
    /// makes its captures available, and builds its closure slots.
    fn finalize_child_scope(
        &mut self,
        child: Prepare<'a>,
        params: &Vec<StringId>,
        position: CodeRange,
        Ghost(start): Ghost<Model>,
    ) -> (finalized: Result<FinalizedScope, ParseError>)
        requires
            old(self).wf(),
            child.wf(),
            (Model { globals: start.globals, ..old(self)@ }) == start,
            keeps_slots(start.globals, child@.globals),
            child@.function is Some,
            child@.function->0.free_vars.dom().subset_of(start.child_enclosing()),
            cells_labelled(child@.function->0),
        ensures
            match closed(start, child@, position) {
                Ok(model) => finalized matches Ok(scope) && final(self).wf() && final(self)@ == model && grows(
                    start,
                    model,
                ) && scope.describes(model, child@, params@),
                Err(error) => finalized matches Err(e) && e == error,
            },
    {
        proof {
            reveal(grows);
        }
        proof {
            reveal(closed);
        }
        self.globals = child.globals;
        let ghost reopened = self@;
        assert(reopened == Model { globals: child@.globals, ..start });
        assert(grows(start, reopened));
        assert(reopened.child_enclosing() == start.child_enclosing());
        match child.function {
            Some(state) => {
                self.bubble_up_all(&state.free_var_map.names(), position)?;
                proof {
                    lemma_grows_transitive(start, reopened, self@);
                }
                let (free_var_slots, free_var_enclosing_slots) = self.build_free_var_slots(&state.free_var_map);
                let (cell_var_slots, cell_param_indices) = build_cell_slots(&state.cell_var_map, params);
                Ok(
                    FinalizedScope {
                        free_var_enclosing_slots,
                        free_var_slots,
                        cell_var_slots,
                        cell_param_indices,
                        namespace_size: state.locals.len(),
                    },
                )
            },
            None => vstd::pervasive::unreached(),
        }
    }

    /// Resolves a name for a place where it is bound.
    pub fn get_id(&mut self, ident: Identifier) -> (name: Result<ResolvedIdentifier, ParseError>)
        requires
            old(self).wf(),
        ensures
            match resolved(old(self)@, ident, false) {
                Ok((model, r)) => name == Ok::<ResolvedIdentifier, ParseError>(r) && final(self).wf() && final(self)@
                    == model && grows(old(self)@, model),
                Err(error) => name == Err::<ResolvedIdentifier, ParseError>(error),
            },
    {
        self.get_id_impl(ident, false)
    }

    /// Resolves a name for a place where it is read.
    pub fn get_id_read(&mut self, ident: Identifier) -> (name: Result<ResolvedIdentifier, ParseError>)
        requires
            old(self).wf(),
        ensures
            match resolved(old(self)@, ident, true) {
                Ok((model, r)) => name == Ok::<ResolvedIdentifier, ParseError>(r) && final(self).wf() && final(self)@
                    == model && grows(old(self)@, model),
                Err(error) => name == Err::<ResolvedIdentifier, ParseError>(error),
            },
    {
        self.get_id_impl(ident, true)
    }

    /// Resolves a name to a module slot.
    fn get_global_id(&mut self, ident: Identifier) -> (name: Result<ResolvedIdentifier, ParseError>)
        requires
            old(self).wf(),
        ensures
            match resolved_global(old(self)@, ident) {
                Ok((model, r)) => name == Ok::<ResolvedIdentifier, ParseError>(r) && final(self).wf() && final(self)@
                    == model && grows(old(self)@, model),
                Err(error) => name == Err::<ResolvedIdentifier, ParseError>(error),
            },
    {
        proof {
            reveal(grows);
        }
        let slot = self.globals.ensure_slot(ident.name_id, ident.position)?;
        Ok(resolved_identifier(ident, slot, NameScope::Global))
    }

    /// Resolves a name, in the order that [`resolved`] states.
    pub fn get_id_impl(&mut self, ident: Identifier, is_read: bool) -> (name: Result<ResolvedIdentifier, ParseError>)
        requires
            old(self).wf(),
        ensures
            match resolved(old(self)@, ident, is_read) {
                Ok((model, r)) => name == Ok::<ResolvedIdentifier, ParseError>(r) && final(self).wf() && final(self)@
                    == model && grows(old(self)@, model),
                Err(error) => name == Err::<ResolvedIdentifier, ParseError>(error),
            },
    {
        proof {
            reveal(grows);
            if let Some(f) = self@.function {
                if cells_labelled(f) && with_slot(f.locals, ident.name_id, ident.position) is Ok {
                    lemma_labelled_slot(f, ident.name_id, ident.position);
                }
            }
        }
        proof {
            reveal(resolved);
        }
        if let Some(binding) = self.find_comp_binding(ident.name_id) {
            return Ok(resolved_identifier(ident, binding.slot, NameScope::CompVar));
        }
        let in_globals = match &self.function {
            None => true,
            Some(state) => {
                (is_read && self.is_class_scope && !self.bound_class_members.contains(ident.name_id)
                    && state.assigned_names.contains(ident.name_id)) || state.global_names.contains(ident.name_id)
            },
        };
        if in_globals {
            return self.get_global_id(ident);
        }
        if let Some(state) = &mut self.function {
            if let Some(slot) = state.free_var_map.get(ident.name_id) {
                return Ok(resolved_identifier(ident, slot, NameScope::Cell));
            }
            if let Some(slot) = state.cell_var_map.get(ident.name_id) {
                return Ok(resolved_identifier(ident, slot, NameScope::Cell));
            }
            if state.assigned_names.contains(ident.name_id) {
                let slot = state.locals.ensure_slot(ident.name_id, ident.position)?;
                return Ok(resolved_identifier(ident, slot, NameScope::Local));
            }
            if let Some(slot) = state.locals.get(ident.name_id) {
                return Ok(resolved_identifier(ident, slot, NameScope::Local));
            }
            if state.enclosing_locals.contains(ident.name_id) {
                let slot = state.locals.ensure_slot(ident.name_id, ident.position)?;
                state.free_var_map.insert(ident.name_id, slot);
                return Ok(resolved_identifier(ident, slot, NameScope::Cell));
            }
        }
        self.get_global_id(ident)
    }

    /// Resolves a name that is bound here and records that it is.
    fn bind_id(&mut self, ident: Identifier) -> (name: Result<ResolvedIdentifier, ParseError>)
        requires
            old(self).wf(),
        ensures
            match stored(old(self)@, ident) {
                Ok((model, r)) => name == Ok::<ResolvedIdentifier, ParseError>(r) && final(self).wf() && final(self)@
                    == model && grows(old(self)@, model),
                Err(error) => name == Err::<ResolvedIdentifier, ParseError>(error),
            },
    {
        proof {
            reveal(grows);
        }
        proof {
            reveal(stored);
        }
        let ghost before = self@;
        self.names_assigned_in_order.insert(ident.name_id);
        let ghost marked = self@;
        assert(marked == before.mark_assigned(ident.name_id));
        assert(grows(before, marked));
        let name = self.get_id(ident)?;
        proof {
            lemma_grows_transitive(before, marked, self@);
        }
        Ok(name)
    }

    /// Resolves the target of an assignment expression, which binds outside
    /// of every comprehension.
    pub fn get_id_for_store_target(&mut self, ident: Identifier) -> (name: Result<ResolvedIdentifier, ParseError>)
        requires
            old(self).wf(),
        ensures
            match stored_by_walrus(old(self)@, ident) {
                Ok((model, r)) => name == Ok::<ResolvedIdentifier, ParseError>(r) && final(self).wf() && final(self)@
                    == model && grows(old(self)@, model),
                Err(error) => name == Err::<ResolvedIdentifier, ParseError>(error),
            },
    {
        proof {
            reveal(grows);
        }
        proof {
            reveal(stored_by_walrus);
        }
        let ghost before = self@;
        let mut saved_scopes: Vec<CompNameScope> = Vec::new();
        std::mem::swap(&mut saved_scopes, &mut self.comp_name_scopes);
        self.names_assigned_in_order.insert(ident.name_id);
        assert(self@.comp_scopes =~= Seq::<CompScope>::empty());
        assert(self@ == Model { comp_scopes: Seq::empty(), ..before.mark_assigned(ident.name_id) });
        let name = self.get_id(ident)?;
        self.comp_name_scopes = saved_scopes;
        Ok(name)
    }

    /// Records that a class body has bound `name`.
    fn note_member(&mut self, name: StringId)
        ensures
            final(self)@ == old(self)@.mark_member(name),
            final(self).wf() == old(self).wf(),
            grows(old(self)@, final(self)@),
    {
        proof {
            reveal(grows);
        }
        if self.is_class_scope {
            self.bound_class_members.insert(name);
        }
    }

    /// Resolves a name that is read, to a builtin or to a slot.
    ///
    /// Only at module level is a builtin certain: a function can run after
    /// the module has rebound the name.
    pub fn resolve_name_or_builtin(&mut self, ident: Identifier) -> (name: Result<PreparedCallable, ParseError>)
        requires
            old(self).wf(),
        ensures
            match resolved_read(old(self)@, ident) {
                Ok((model, r)) => name == Ok::<PreparedCallable, ParseError>(r) && final(self).wf() && final(self)@
                    == model && grows(old(self)@, model),
                Err(error) => name == Err::<PreparedCallable, ParseError>(error),
            },
    {
        proof {
            reveal(grows);
        }
        proof {
            reveal(resolved_read);
        }
        let ghost before = self@;
        self.names_used.insert(ident.name_id);
        let ghost noted = self@;
        assert(noted == Model { used: before.used.insert(ident.name_id), ..before });
        assert(grows(before, noted));
        if self.is_module_scope() && self.find_comp_binding(ident.name_id).is_none()
            && !self.names_assigned_in_order.contains(ident.name_id) && !self.globals.contains(ident.name_id) {
            if let Some(text) = self.interner.get_str(ident.name_id) {
                if let Some(builtin) = self.builtins.parse(text) {
                    return Ok(PreparedCallable::Builtin(builtin));
                }
            }
        }
        let name = self.get_id_read(ident)?;
        proof {
            lemma_grows_transitive(before, noted, self@);
        }
        Ok(PreparedCallable::Name(name))
    }

    /// Says whether nothing binds a name.
    fn is_unbound(&self, name: StringId) -> (unbound: bool)
        requires
            self.wf(),
        ensures
            unbound == nothing_binds(self@, name),
    {
        if let Some(text) = self.interner.get_str(name) {
            if self.builtins.parse(text).is_some() {
                return false;
            }
        }
        if self.find_comp_binding(name).is_some() || self.globals.contains(name)
            || self.names_assigned_in_order.contains(name) {
            return false;
        }
        match &self.function {
            None => true,
            Some(state) => state.free_var_map.get(name).is_none() && state.cell_var_map.get(name).is_none()
                && !state.assigned_names.contains(name) && state.locals.get(name).is_none()
                && !state.enclosing_locals.contains(name),
        }
    }

    /// The error of calling a method of an object that is a name which nothing
    /// binds.
    fn undefined_object(&self, object: &ExprLoc) -> (error: Option<ParseError>)
        requires
            self.wf(),
        ensures
            error == undefined_object(self@, *object),
    {
        proof {
            reveal(undefined_object);
        }
        match &object.expr {
            Expr::Name(ident) => {
                if self.is_unbound(ident.name_id) {
                    Some(ParseError { kind: ParseErrorKind::UndefinedName(ident.name_id), position: ident.position })
                } else {
                    None
                }
            },
            _ => None,
        }
    }

    /// Binds a target of the innermost comprehension to its slot.
    pub fn alloc_comp_var_slot(&mut self, ident: Identifier) -> (name: Result<ResolvedIdentifier, ParseError>)
        requires
            old(self).wf(),
            old(self)@.comp_scopes.len() > 0,
        ensures
            match bound_comp_var(old(self)@, ident) {
                Ok((model, r)) => name == Ok::<ResolvedIdentifier, ParseError>(r) && final(self).wf() && final(self)@
                    == model && grows_outside(old(self)@, model),
                Err(error) => name == Err::<ResolvedIdentifier, ParseError>(error),
            },
    {
        proof {
            reveal(grows);
        }
        proof {
            reveal(bound_comp_var);
        }
        let ghost before = self@;
        let top: usize = self.comp_name_scopes.len() - 1;
        assert(before.comp_scopes.last() == self.comp_name_scopes@[top as int]@);
        match self.comp_name_scopes[top].get(ident.name_id) {
            Some(binding) => Ok(resolved_identifier(ident, binding.slot, NameScope::CompVar)),
            None => {
                let slot: u16 = self.comp_var_depth;
                if slot == u16::MAX {
                    return Err(ParseError { kind: ParseErrorKind::NamespaceOverflow, position: ident.position });
                }
                self.comp_var_depth = slot + 1;
                self.comp_name_scopes[top].insert(ident.name_id, CompBinding { slot, captured: false });
                proof {
                    assert(self@.comp_scopes =~= bound_comp_var(before, ident)->Ok_0.0.comp_scopes);
                    assert(self@.comp_scopes.drop_last() =~= before.comp_scopes.drop_last());
                }
                Ok(resolved_identifier(ident, slot, NameScope::CompVar))
            },
        }
    }

    /// Enters a comprehension, after the targets of the assignment
    /// expressions inside it were given slots outside of it.
    fn enter_comprehension(&mut self, walrus_targets: &NameSet, position: CodeRange) -> (done: Result<(), ParseError>)
        requires
            old(self).wf(),
        ensures
            match with_walrus_slots(old(self)@, in_order(walrus_targets@), position) {
                Ok(model) => done is Ok && final(self).wf() && final(self)@ == with_comp_scope(model) && grows(
                    old(self)@,
                    model,
                ),
                Err(error) => done == Err::<(), ParseError>(error),
            },
    {
        proof {
            reveal(grows);
        }
        proof {
            reveal(with_walrus_slots);
        }
        let names = walrus_targets.walk();
        let ghost start = self@;
        let mut i: usize = 0;
        while i < names.len()
            invariant
                i <= names@.len(),
                names@ == in_order(walrus_targets@),
                start == old(self)@,
                self.wf(),
                with_walrus_slots(start, names@.take(i as int), position) == Outcome::Ok(self@),
                grows(start, self@),
            decreases names@.len() - i,
        {
            let ghost before = self@;
            proof {
                reveal(with_walrus_slots);
                assert(names@.take(i + 1).drop_last() == names@.take(i as int));
            }
            match self.ensure_scope_slot(names[i], position) {
                Ok(_) => {},
                Err(error) => {
                    proof {
                        lemma_walrus_error(start, names@, position, i + 1);
                    }
                    return Err(error);
                },
            }
            let ghost slotted = self@;
            self.names_assigned_in_order.insert(names[i]);
            proof {
                reveal(grows);
                assert(self@ == slotted.mark_assigned(names@[i as int]));
                assert(grows(slotted, self@));
                lemma_grows_transitive(start, before, slotted);
                lemma_grows_transitive(start, slotted, self@);
            }
            i += 1;
        }
        assert(names@.take(i as int) == names@);
        let ghost slotted = self@;
        self.comp_name_scopes.push(CompNameScope::new());
        assert(self@.comp_scopes =~= slotted.comp_scopes.push(CompScope::empty()));
        Ok(())
    }

    /// Leaves the innermost comprehension and hands over the slots of its
    /// captured targets.
    fn leave_comprehension(&mut self, saved_var_depth: u16) -> (captured_slots: Vec<u16>)
        requires
            old(self)@.comp_scopes.len() > 0,
        ensures
            final(self)@ == without_comp_scope(old(self)@, saved_var_depth),
            final(self).wf() == old(self).wf(),
            captured_slots@ == old(self)@.comp_scopes.last().captured(),
    {
        let ghost before = self@;
        match self.comp_name_scopes.pop() {
            Some(scope) => {
                self.comp_var_depth = saved_var_depth;
                assert(self@.comp_scopes =~= before.comp_scopes.drop_last());
                scope.captured_slots()
            },
            None => Vec::new(),
        }
    }

    /// Refuses a global declaration of a name that is bound or read above it.
    fn check_global(&self, names: &Vec<StringId>, position: CodeRange) -> (done: Result<(), ParseError>)
        ensures
            match global_conflict(self@, names@) {
                Some(kind) => done == Err::<(), ParseError>(ParseError { kind, position }),
                None => done is Ok,
            },
    {
        if self.is_module_scope() {
            return Ok(());
        }
        let mut i: usize = 0;
        while i < names.len()
            invariant
                i <= names@.len(),
                self@.function is Some,
                global_conflict(self@, names@.take(i as int)) is None,
            decreases names@.len() - i,
        {
            assert(names@.take(i + 1).drop_last() == names@.take(i as int));
            if self.names_assigned_in_order.contains(names[i]) {
                proof {
                    lemma_global_conflict(self@, names@, i + 1);
                }
                return Err(ParseError { kind: ParseErrorKind::AssignedBeforeGlobal(names[i]), position });
            } else if self.names_used.contains(names[i]) {
                proof {
                    lemma_global_conflict(self@, names@, i + 1);
                }
                return Err(ParseError { kind: ParseErrorKind::UsedBeforeGlobal(names[i]), position });
            }
            i += 1;
        }
        assert(names@.take(i as int) == names@);
        Ok(())
    }

    /// Refuses a nonlocal declaration at module level, of a name that is bound
    /// or read above it, and of a name that no enclosing scope binds.
    fn check_nonlocal(&self, names: &Vec<StringId>, position: CodeRange) -> (done: Result<(), ParseError>)
        ensures
            match self@.function {
                None => done == Err::<(), ParseError>(
                    ParseError { kind: ParseErrorKind::NonlocalAtModuleLevel, position },
                ),
                Some(f) => match nonlocal_conflict(self@, f, names@) {
                    Some(kind) => done == Err::<(), ParseError>(ParseError { kind, position }),
                    None => done is Ok && bound_outside(self@, names@.to_set()),
                },
            },
    {
        proof {
            reveal(bound_outside);
        }
        match &self.function {
            None => Err(ParseError { kind: ParseErrorKind::NonlocalAtModuleLevel, position }),
            Some(state) => {
                let ghost f = state@;
                let mut i: usize = 0;
                while i < names.len()
                    invariant
                        i <= names@.len(),
                        self@.function == Some(state@),
                        f == state@,
                        nonlocal_conflict(self@, f, names@.take(i as int)) is None,
                        forall|k: int| 0 <= k < i ==> f.enclosing_locals.contains(#[trigger] names@[k]),
                    decreases names@.len() - i,
                {
                    assert(names@.take(i + 1).drop_last() == names@.take(i as int));
                    let kind = if self.names_assigned_in_order.contains(names[i]) {
                        Some(ParseErrorKind::AssignedBeforeNonlocal(names[i]))
                    } else if self.names_used.contains(names[i]) {
                        Some(ParseErrorKind::UsedBeforeNonlocal(names[i]))
                    } else if !state.enclosing_locals.contains(names[i]) {
                        Some(ParseErrorKind::NoBindingForNonlocal(names[i]))
                    } else {
                        None
                    };
                    if let Some(kind) = kind {
                        proof {
                            lemma_nonlocal_conflict(self@, f, names@, i + 1);
                        }
                        return Err(ParseError { kind, position });
                    }
                    i += 1;
                }
                assert(names@.take(i as int) == names@);
                Ok(())
            },
        }
    }

    /// Prepares an expression.
    #[verifier::rlimit(20)]
    pub fn prepare_expression(&mut self, it: &ExprLoc) -> (out: Result<PreparedExprLoc, ParseError>)
        requires
            old(self).wf(),
        ensures
            match out {
                Ok(tree) => {
                    &&& final(self).wf()
                    &&& after_expr(old(self)@, *it) == Outcome::Ok(final(self)@)
                    &&& prepares_expr(old(self)@, *it, tree)
                    &&& grows(old(self)@, final(self)@)
                },
                Err(error) => after_expr(old(self)@, *it) == Outcome::Err(error),
            },
        decreases *it, 1int,
    {
        let ghost start = self@;
        proof {
            lemma_grows_reflexive(self@);
            assert(after_expr(start, *it) == expr_step(start, *it));
        }
        let expr = match &it.expr {
            Expr::Literal(literal) => {
                PreparedExpr::Literal(*literal)
            },
            Expr::Builtin(builtin) => {
                PreparedExpr::Builtin(*builtin)
            },
            Expr::Name(ident) => match self.resolve_name_or_builtin(*ident)? {
                PreparedCallable::Builtin(builtin) => PreparedExpr::Builtin(builtin),
                PreparedCallable::Name(name) => PreparedExpr::Name(name),
            },
            Expr::ListComp { elt, generators } => {
                let saved_var_depth: u16 = self.comp_var_depth;
                let generators_out = Box::new(self.prepare_comprehension(generators, assigned_names(elt))?);
                let ghost inside = self@;
                let elt_out = Box::new(self.prepare_expression(elt)?);
                proof {
                    lemma_leave_comprehension(start, inside, self@);
                }
                let captured_slots = self.leave_comprehension(saved_var_depth);
                PreparedExpr::ListComp { elt: elt_out, generators: generators_out, captured_slots }
            },
            Expr::SetComp { elt, generators } => {
                let saved_var_depth: u16 = self.comp_var_depth;
                let generators_out = Box::new(self.prepare_comprehension(generators, assigned_names(elt))?);
                let ghost inside = self@;
                let elt_out = Box::new(self.prepare_expression(elt)?);
                proof {
                    lemma_leave_comprehension(start, inside, self@);
                }
                let captured_slots = self.leave_comprehension(saved_var_depth);
                PreparedExpr::SetComp { elt: elt_out, generators: generators_out, captured_slots }
            },
            Expr::DictComp { key, value, generators } => {
                let saved_var_depth: u16 = self.comp_var_depth;
                let mut walrus_targets = assigned_names(key);
                walrus_targets.add_all(&assigned_names(value));
                let generators_out = Box::new(self.prepare_comprehension(generators, walrus_targets)?);
                let ghost inside = self@;
                let key_out = Box::new(self.prepare_expression(key)?);
                let value_out = Box::new(self.prepare_expression(value)?);
                proof {
                    lemma_leave_comprehension(start, inside, self@);
                }
                let captured_slots = self.leave_comprehension(saved_var_depth);
                PreparedExpr::DictComp { key: key_out, value: value_out, generators: generators_out, captured_slots }
            },
            Expr::LambdaRaw(def) => {
                let func_def = Box::new(self.prepare_lambda(def, it.position)?);
                PreparedExpr::Lambda { func_def }
            },
            Expr::GeneratorExpRaw(def) => {
                let (func_def, iter) = self.prepare_generator_expression(def, it.position)?;
                PreparedExpr::GeneratorExp { func_def: Box::new(func_def), iter: Box::new(iter) }
            },
            Expr::Op { .. }
            | Expr::CmpOp { .. }
            | Expr::ChainCmp { .. }
            | Expr::Not(_)
            | Expr::UnaryMinus(_)
            | Expr::UnaryPlus(_)
            | Expr::UnaryInvert(_)
            | Expr::Await(_)
            | Expr::IfElse { .. }
            | Expr::Yield(_)
            | Expr::YieldFrom(_)
            | Expr::Slice { .. }
            | Expr::Named { .. } => {
                return self.prepare_operation(it);
            },
            Expr::AttrCall { .. }
            | Expr::IndirectCall { .. }
            | Expr::AttrGet { .. }
            | Expr::List(_)
            | Expr::Tuple(_)
            | Expr::SetDisplay(_)
            | Expr::Dict(_)
            | Expr::Subscript { .. }
            | Expr::FString(_)
            | Expr::Call { .. }
            | Expr::TString(_) => {
                return self.prepare_compound(it);
            },
        };
        let tree = PreparedExprLoc { position: it.position, expr };
        proof {
            assert(prepares_expr(start, *it, tree) == expr_tree(start, *it, tree));
        }
        Ok(tree)
    }

    /// Prepares an operation on one or more operands.
    #[verifier::rlimit(20)]
    fn prepare_operation(&mut self, it: &ExprLoc) -> (out: Result<PreparedExprLoc, ParseError>)
        requires
            old(self).wf(),
            it.expr is Op
                || it.expr is CmpOp
                || it.expr is ChainCmp
                || it.expr is Not
                || it.expr is UnaryMinus
                || it.expr is UnaryPlus
                || it.expr is UnaryInvert
                || it.expr is Await
                || it.expr is IfElse
                || it.expr is Yield
                || it.expr is YieldFrom
                || it.expr is Slice
                || it.expr is Named,
        ensures
            match out {
                Ok(tree) => {
                    &&& final(self).wf()
                    &&& after_expr(old(self)@, *it) == Outcome::Ok(final(self)@)
                    &&& prepares_expr(old(self)@, *it, tree)
                    &&& grows(old(self)@, final(self)@)
                },
                Err(error) => after_expr(old(self)@, *it) == Outcome::Err(error),
            },
        decreases *it, 0int,
    {
        let ghost start = self@;
        proof {
            lemma_grows_reflexive(self@);
            assert(after_expr(start, *it) == expr_step(start, *it));
        }
        let expr = match &it.expr {
            Expr::Op { left, op, right } => {
                let left_out = Box::new(self.prepare_expression(left)?);
                let right_out = Box::new(self.prepare_expression(right)?);
                PreparedExpr::Op { left: left_out, op: *op, right: right_out }
            },
            Expr::CmpOp { left, op, right } => {
                let left_out = Box::new(self.prepare_expression(left)?);
                let right_out = Box::new(self.prepare_expression(right)?);
                PreparedExpr::CmpOp { left: left_out, op: *op, right: right_out }
            },
            Expr::ChainCmp { left, comparisons } => {
                let left_out = Box::new(self.prepare_expression(left)?);
                let comparisons_out = self.prepare_comparisons(comparisons)?;
                PreparedExpr::ChainCmp { left: left_out, comparisons: comparisons_out }
            },
            Expr::Not(operand) => {
                let operand_out = Box::new(self.prepare_expression(operand)?);
                PreparedExpr::Not(operand_out)
            },
            Expr::UnaryMinus(operand) => {
                let operand_out = Box::new(self.prepare_expression(operand)?);
                PreparedExpr::UnaryMinus(operand_out)
            },
            Expr::UnaryPlus(operand) => {
                let operand_out = Box::new(self.prepare_expression(operand)?);
                PreparedExpr::UnaryPlus(operand_out)
            },
            Expr::UnaryInvert(operand) => {
                let operand_out = Box::new(self.prepare_expression(operand)?);
                PreparedExpr::UnaryInvert(operand_out)
            },
            Expr::Await(operand) => {
                let operand_out = Box::new(self.prepare_expression(operand)?);
                PreparedExpr::Await(operand_out)
            },
            Expr::IfElse { test, body, orelse } => {
                let test_out = Box::new(self.prepare_expression(test)?);
                let body_out = Box::new(self.prepare_expression(body)?);
                let orelse_out = Box::new(self.prepare_expression(orelse)?);
                PreparedExpr::IfElse { test: test_out, body: body_out, orelse: orelse_out }
            },
            Expr::Yield(value) => {
                let value_out = match value {
                    Some(inner) => Some(Box::new(self.prepare_expression(inner)?)),
                    None => None,
                };
                PreparedExpr::Yield(value_out)
            },
            Expr::YieldFrom(value) => {
                let value_out = Box::new(self.prepare_expression(value)?);
                PreparedExpr::YieldFrom(value_out)
            },
            Expr::Slice { lower, upper, step } => {
                let lower_out = match lower {
                    Some(inner) => Some(Box::new(self.prepare_expression(inner)?)),
                    None => None,
                };
                let upper_out = match upper {
                    Some(inner) => Some(Box::new(self.prepare_expression(inner)?)),
                    None => None,
                };
                let step_out = match step {
                    Some(inner) => Some(Box::new(self.prepare_expression(inner)?)),
                    None => None,
                };
                PreparedExpr::Slice { lower: lower_out, upper: upper_out, step: step_out }
            },
            Expr::Named { target, value } => {
                let value_out = Box::new(self.prepare_expression(value)?);
                let target_out = self.get_id_for_store_target(*target)?;
                PreparedExpr::Named { target: target_out, value: value_out }
            },
            _ => vstd::pervasive::unreached(),
        };
        let tree = PreparedExprLoc { position: it.position, expr };
        proof {
            assert(prepares_expr(start, *it, tree) == expr_tree(start, *it, tree));
        }
        Ok(tree)
    }

    /// Prepares a call, an access, a display or a formatted string.
    #[verifier::rlimit(20)]
    fn prepare_compound(&mut self, it: &ExprLoc) -> (out: Result<PreparedExprLoc, ParseError>)
        requires
            old(self).wf(),
            it.expr is AttrCall
                || it.expr is IndirectCall
                || it.expr is AttrGet
                || it.expr is List
                || it.expr is Tuple
                || it.expr is SetDisplay
                || it.expr is Dict
                || it.expr is Subscript
                || it.expr is FString
                || it.expr is Call
                || it.expr is TString,
        ensures
            match out {
                Ok(tree) => {
                    &&& final(self).wf()
                    &&& after_expr(old(self)@, *it) == Outcome::Ok(final(self)@)
                    &&& prepares_expr(old(self)@, *it, tree)
                    &&& grows(old(self)@, final(self)@)
                },
                Err(error) => after_expr(old(self)@, *it) == Outcome::Err(error),
            },
        decreases *it, 0int,
    {
        let ghost start = self@;
        proof {
            lemma_grows_reflexive(self@);
            assert(after_expr(start, *it) == expr_step(start, *it));
        }
        let expr = match &it.expr {
            Expr::AttrCall { object, attr, args } => {
                if let Some(error) = self.undefined_object(object) {
                    return Err(error);
                }
                let object_out = Box::new(self.prepare_expression(object)?);
                let args_out = Box::new(self.prepare_args(args)?);
                PreparedExpr::AttrCall { object: object_out, attr: *attr, args: args_out }
            },
            Expr::IndirectCall { callable, args } => {
                let callable_out = Box::new(self.prepare_expression(callable)?);
                let args_out = Box::new(self.prepare_args(args)?);
                PreparedExpr::IndirectCall { callable: callable_out, args: args_out }
            },
            Expr::AttrGet { object, attr } => {
                let object_out = Box::new(self.prepare_expression(object)?);
                PreparedExpr::AttrGet { object: object_out, attr: *attr }
            },
            Expr::List(items) => {
                let items_out = self.prepare_sequence_items(items)?;
                PreparedExpr::List(items_out)
            },
            Expr::Tuple(items) => {
                let items_out = self.prepare_sequence_items(items)?;
                PreparedExpr::Tuple(items_out)
            },
            Expr::SetDisplay(items) => {
                let items_out = self.prepare_sequence_items(items)?;
                PreparedExpr::SetDisplay(items_out)
            },
            Expr::Subscript { object, index } => {
                let object_out = Box::new(self.prepare_expression(object)?);
                let index_out = Box::new(self.prepare_expression(index)?);
                PreparedExpr::Subscript { object: object_out, index: index_out }
            },
            Expr::Dict(items) => {
                let items_out = self.prepare_dict_items(items)?;
                PreparedExpr::Dict(items_out)
            },
            Expr::FString(parts) => {
                let parts_out = self.prepare_fstring_parts(parts)?;
                PreparedExpr::FString(parts_out)
            },
            Expr::TString(template) => {
                let interpolations = self.prepare_interpolations(&template.interpolations)?;
                let strings = copy_ids(&template.strings);
                PreparedExpr::TString(Box::new(PreparedTemplate { strings, interpolations }))
            },
            Expr::Call { callable, args } => {
                let args_out = Box::new(self.prepare_args(args)?);
                let callable_out = match callable {
                    Callable::Builtin(builtin) => PreparedCallable::Builtin(*builtin),
                    Callable::Name(ident) => self.resolve_name_or_builtin(*ident)?,
                };
                PreparedExpr::Call { callable: callable_out, args: args_out }
            },
            _ => vstd::pervasive::unreached(),
        };
        let tree = PreparedExprLoc { position: it.position, expr };
        proof {
            assert(prepares_expr(start, *it, tree) == expr_tree(start, *it, tree));
        }
        Ok(tree)
    }

    /// Prepares the argument list of a call.
    fn prepare_args(&mut self, it: &ArgExprs) -> (out: Result<PreparedArgs, ParseError>)
        requires
            old(self).wf(),
        ensures
            match out {
                Ok(tree) => {
                    &&& final(self).wf()
                    &&& after_args(old(self)@, *it) == Outcome::Ok(final(self)@)
                    &&& prepares_args(old(self)@, *it, tree)
                    &&& grows(old(self)@, final(self)@)
                },
                Err(error) => after_args(old(self)@, *it) == Outcome::Err(error),
            },
        decreases *it, 0int,
    {
        let ghost start = self@;
        proof {
            lemma_grows_reflexive(self@);
            assert(after_args(start, *it) == args_step(start, *it));
        }
        let tree = match it {
            ArgExprs::Empty => PreparedArgs::Empty,
            ArgExprs::One(arg) => {
                let arg_out = self.prepare_expression(arg)?;
                PreparedArgs::One(arg_out)
            },
            ArgExprs::Two(arg1, arg2) => {
                let arg1_out = self.prepare_expression(arg1)?;
                let arg2_out = self.prepare_expression(arg2)?;
                PreparedArgs::Two(arg1_out, arg2_out)
            },
            ArgExprs::Args(args) => {
                let args_out = self.prepare_exprs(args)?;
                PreparedArgs::Args(args_out)
            },
            ArgExprs::Kwargs(kwargs) => {
                let kwargs_out = self.prepare_kwargs(kwargs)?;
                PreparedArgs::Kwargs(kwargs_out)
            },
            ArgExprs::ArgsKargs { args, kwargs, var_args, var_kwargs } => {
                let args_out = match args {
                    Some(inner) => Some(self.prepare_exprs(inner)?),
                    None => None,
                };
                let kwargs_out = match kwargs {
                    Some(inner) => Some(self.prepare_kwargs(inner)?),
                    None => None,
                };
                let var_args_out = match var_args {
                    Some(inner) => Some(self.prepare_expression(inner)?),
                    None => None,
                };
                let var_kwargs_out = match var_kwargs {
                    Some(inner) => Some(self.prepare_expression(inner)?),
                    None => None,
                };
                PreparedArgs::ArgsKargs { args: args_out, kwargs: kwargs_out, var_args: var_args_out, var_kwargs: var_kwargs_out }
            },
            ArgExprs::GeneralizedCall { args, kwargs } => {
                let args_out = self.prepare_call_args(args)?;
                let kwargs_out = self.prepare_call_kwargs(kwargs)?;
                PreparedArgs::GeneralizedCall { args: args_out, kwargs: kwargs_out }
            },
        };
        proof {
            assert(prepares_args(start, *it, tree) == args_tree(start, *it, tree));
        }
        Ok(tree)
    }

    /// Prepares an element of a display.
    pub fn prepare_sequence_item(&mut self, it: &SequenceItem) -> (out: Result<PreparedSequenceItem, ParseError>)
        requires
            old(self).wf(),
        ensures
            match out {
                Ok(tree) => {
                    &&& final(self).wf()
                    &&& after_item(old(self)@, *it) == Outcome::Ok(final(self)@)
                    &&& prepares_item(old(self)@, *it, tree)
                    &&& grows(old(self)@, final(self)@)
                },
                Err(error) => after_item(old(self)@, *it) == Outcome::Err(error),
            },
        decreases *it, 0int,
    {
        let ghost start = self@;
        proof {
            lemma_grows_reflexive(self@);
            assert(after_item(start, *it) == item_step(start, *it));
        }
        let tree = match it {
            SequenceItem::Value(value) => {
                let value_out = self.prepare_expression(value)?;
                PreparedSequenceItem::Value(value_out)
            },
            SequenceItem::Unpack(value) => {
                let value_out = self.prepare_expression(value)?;
                PreparedSequenceItem::Unpack(value_out)
            },
        };
        proof {
            assert(prepares_item(start, *it, tree) == item_tree(start, *it, tree));
        }
        Ok(tree)
    }

    /// Prepares an entry of a dict display.
    fn prepare_dict_item(&mut self, it: &DictItem) -> (out: Result<PreparedDictItem, ParseError>)
        requires
            old(self).wf(),
        ensures
            match out {
                Ok(tree) => {
                    &&& final(self).wf()
                    &&& after_dict_item(old(self)@, *it) == Outcome::Ok(final(self)@)
                    &&& prepares_dict_item(old(self)@, *it, tree)
                    &&& grows(old(self)@, final(self)@)
                },
                Err(error) => after_dict_item(old(self)@, *it) == Outcome::Err(error),
            },
        decreases *it, 0int,
    {
        let ghost start = self@;
        proof {
            lemma_grows_reflexive(self@);
            assert(after_dict_item(start, *it) == dict_item_step(start, *it));
        }
        let tree = match it {
            DictItem::Pair(key, value) => {
                let key_out = self.prepare_expression(key)?;
                let value_out = self.prepare_expression(value)?;
                PreparedDictItem::Pair(key_out, value_out)
            },
            DictItem::Unpack(value) => {
                let value_out = self.prepare_expression(value)?;
                PreparedDictItem::Unpack(value_out)
            },
        };
        proof {
            assert(prepares_dict_item(start, *it, tree) == dict_item_tree(start, *it, tree));
        }
        Ok(tree)
    }

    /// Prepares a positional argument.
    fn prepare_call_arg(&mut self, it: &CallArg) -> (out: Result<PreparedCallArg, ParseError>)
        requires
            old(self).wf(),
        ensures
            match out {
                Ok(tree) => {
                    &&& final(self).wf()
                    &&& after_call_arg(old(self)@, *it) == Outcome::Ok(final(self)@)
                    &&& prepares_call_arg(old(self)@, *it, tree)
                    &&& grows(old(self)@, final(self)@)
                },
                Err(error) => after_call_arg(old(self)@, *it) == Outcome::Err(error),
            },
        decreases *it, 0int,
    {
        let ghost start = self@;
        proof {
            lemma_grows_reflexive(self@);
            assert(after_call_arg(start, *it) == call_arg_step(start, *it));
        }
        let tree = match it {
            CallArg::Value(value) => {
                let value_out = self.prepare_expression(value)?;
                PreparedCallArg::Value(value_out)
            },
            CallArg::Unpack(value) => {
                let value_out = self.prepare_expression(value)?;
                PreparedCallArg::Unpack(value_out)
            },
        };
        proof {
            assert(prepares_call_arg(start, *it, tree) == call_arg_tree(start, *it, tree));
        }
        Ok(tree)
    }

    /// Prepares a binding target. Names in it count as bound from here on.
    pub fn prepare_unpack_target(&mut self, it: &UnpackTarget) -> (out: Result<PreparedTarget, ParseError>)
        requires
            old(self).wf(),
        ensures
            match out {
                Ok(tree) => {
                    &&& final(self).wf()
                    &&& after_target(old(self)@, *it) == Outcome::Ok(final(self)@)
                    &&& prepares_target(old(self)@, *it, tree)
                    &&& grows(old(self)@, final(self)@)
                },
                Err(error) => after_target(old(self)@, *it) == Outcome::Err(error),
            },
        decreases *it, 0int,
    {
        let ghost start = self@;
        proof {
            lemma_grows_reflexive(self@);
            assert(after_target(start, *it) == target_step(start, *it));
        }
        let tree = match it {
            UnpackTarget::Name(ident) => {
                let ident_out = self.bind_id(*ident)?;
                PreparedTarget::Name(ident_out)
            },
            UnpackTarget::Starred(ident) => {
                let ident_out = self.bind_id(*ident)?;
                PreparedTarget::Starred(ident_out)
            },
            UnpackTarget::Attr { object, attr, position } => {
                let object_out = self.prepare_expression(object)?;
                PreparedTarget::Attr { object: object_out, attr: *attr, position: *position }
            },
            UnpackTarget::Subscript { object, index, position } => {
                let object_out = self.prepare_expression(object)?;
                let index_out = self.prepare_expression(index)?;
                PreparedTarget::Subscript { object: object_out, index: index_out, position: *position }
            },
            UnpackTarget::Tuple { targets, position } => {
                let targets_out = self.prepare_unpack_targets(targets)?;
                PreparedTarget::Tuple { targets: targets_out, position: *position }
            },
        };
        proof {
            assert(prepares_target(start, *it, tree) == target_tree(start, *it, tree));
        }
        Ok(tree)
    }

    /// Prepares a target of `del`, which binds a name as an assignment does.
    pub fn prepare_delete_target(&mut self, it: &DeleteTarget) -> (out: Result<PreparedDeleteTarget, ParseError>)
        requires
            old(self).wf(),
        ensures
            match out {
                Ok(tree) => {
                    &&& final(self).wf()
                    &&& after_delete_target(old(self)@, *it) == Outcome::Ok(final(self)@)
                    &&& prepares_delete_target(old(self)@, *it, tree)
                    &&& grows(old(self)@, final(self)@)
                },
                Err(error) => after_delete_target(old(self)@, *it) == Outcome::Err(error),
            },
        decreases *it, 0int,
    {
        let ghost start = self@;
        proof {
            lemma_grows_reflexive(self@);
            assert(after_delete_target(start, *it) == delete_target_step(start, *it));
        }
        let tree = match it {
            DeleteTarget::Name(ident) => {
                let ident_out = self.bind_id(*ident)?;
                PreparedDeleteTarget::Name(ident_out)
            },
            DeleteTarget::Attr { object, attr, position } => {
                let object_out = self.prepare_expression(object)?;
                PreparedDeleteTarget::Attr { object: object_out, attr: *attr, position: *position }
            },
            DeleteTarget::Subscript { object, index, position } => {
                let object_out = self.prepare_expression(object)?;
                let index_out = self.prepare_expression(index)?;
                PreparedDeleteTarget::Subscript { object: object_out, index: index_out, position: *position }
            },
        };
        proof {
            assert(prepares_delete_target(start, *it, tree) == delete_target_tree(start, *it, tree));
        }
        Ok(tree)
    }

    /// Prepares a keyword argument or unpacking.
    fn prepare_call_kwarg(&mut self, it: &CallKwarg) -> (out: Result<PreparedCallKwarg, ParseError>)
        requires
            old(self).wf(),
        ensures
            match out {
                Ok(tree) => {
                    &&& final(self).wf()
                    &&& after_call_kwarg(old(self)@, *it) == Outcome::Ok(final(self)@)
                    &&& prepares_call_kwarg(old(self)@, *it, tree)
                    &&& grows(old(self)@, final(self)@)
                },
                Err(error) => after_call_kwarg(old(self)@, *it) == Outcome::Err(error),
            },
        decreases *it, 0int,
    {
        let ghost start = self@;
        proof {
            lemma_grows_reflexive(self@);
            assert(after_call_kwarg(start, *it) == call_kwarg_step(start, *it));
        }
        let tree = match it {
            CallKwarg::Named(kwarg) => {
                let value = self.prepare_expression(&kwarg.value)?;
                PreparedCallKwarg::Named(PreparedKwarg { key: kwarg.key, value })
            },
            CallKwarg::Unpack(value) => PreparedCallKwarg::Unpack(self.prepare_expression(value)?),
        };
        proof {
            assert(prepares_call_kwarg(start, *it, tree) == call_kwarg_tree(start, *it, tree));
        }
        Ok(tree)
    }

    /// Prepares a part of a formatted string.
    pub fn prepare_fstring_part(&mut self, it: &FStringPart) -> (out: Result<PreparedFStringPart, ParseError>)
        requires
            old(self).wf(),
        ensures
            match out {
                Ok(tree) => {
                    &&& final(self).wf()
                    &&& after_fstring_part(old(self)@, *it) == Outcome::Ok(final(self)@)
                    &&& prepares_fstring_part(old(self)@, *it, tree)
                    &&& grows(old(self)@, final(self)@)
                },
                Err(error) => after_fstring_part(old(self)@, *it) == Outcome::Err(error),
            },
        decreases *it, 0int,
    {
        let ghost start = self@;
        proof {
            lemma_grows_reflexive(self@);
            assert(after_fstring_part(start, *it) == fstring_part_step(start, *it));
        }
        let tree = match it {
            FStringPart::Literal(text) => PreparedFStringPart::Literal(*text),
            FStringPart::Interpolation { expr, conversion, format_spec, debug_prefix } => {
                let expr_out = Box::new(self.prepare_expression(expr)?);
                let format_spec_out = match format_spec {
                    Some(FormatSpec::Dynamic(parts)) => Some(
                        PreparedFormatSpec::Dynamic(self.prepare_fstring_parts(parts)?),
                    ),
                    Some(FormatSpec::Static(text)) => Some(PreparedFormatSpec::Static(*text)),
                    None => None,
                };
                PreparedFStringPart::Interpolation {
                    expr: expr_out,
                    conversion: *conversion,
                    format_spec: format_spec_out,
                    debug_prefix: *debug_prefix,
                }
            },
        };
        proof {
            assert(prepares_fstring_part(start, *it, tree) == fstring_part_tree(start, *it, tree));
        }
        Ok(tree)
    }

    /// Prepares the expressions of a list.
    fn prepare_exprs(&mut self, list: &Vec<ExprLoc>) -> (out: Result<Vec<PreparedExprLoc>, ParseError>)
        requires
            old(self).wf(),
        ensures
            match out {
                Ok(tree) => {
                    &&& final(self).wf()
                    &&& after_exprs(old(self)@, list@) == Outcome::Ok(final(self)@)
                    &&& prepares_exprs(old(self)@, list@, tree@)
                    &&& grows(old(self)@, final(self)@)
                },
                Err(error) => after_exprs(old(self)@, list@) == Outcome::Err(error),
            },
        decreases list@, 0int,
    {
        let ghost start = self@;
        proof {
            lemma_grows_reflexive(start);
        }
        let mut trees: Vec<PreparedExprLoc> = Vec::new();
        proof {
            let none = list@.take(0);
            assert(after_exprs(start, none) == exprs_step(start, none));
            assert(prepares_exprs(start, none, trees@) == exprs_tree(start, none, trees@));
        }
        let mut i: usize = 0;
        while i < list.len()
            invariant
                i <= list@.len(),
                start == old(self)@,
                self.wf(),
                after_exprs(start, list@.take(i as int)) == Outcome::Ok(self@),
                prepares_exprs(start, list@.take(i as int), trees@),
                grows(start, self@),
            decreases list@.len() - i,
        {
            let ghost before = self@;
            let ghost longer = list@.take(i + 1);
            proof {
                assert(longer.drop_last() == list@.take(i as int));
                assert(longer.last() == list@[i as int]);
                assert(after_exprs(start, longer) == exprs_step(start, longer));
            }
            let step = self.prepare_expression(&list[i]);
            match step {
                Ok(tree) => {
                    let ghost earlier = trees@;
                    trees.push(tree);
                    assert(trees@.drop_last() == earlier);
                    assert(prepares_exprs(start, longer, trees@) == exprs_tree(start, longer, trees@));
                },
                Err(error) => {
                    proof {
                        lemma_exprs_error(start, list@, i + 1);
                    }
                    return Err(error);
                },
            }
            i += 1;
        }
        assert(list@.take(i as int) == list@);
        Ok(trees)
    }

    /// Prepares the elements of a display.
    fn prepare_sequence_items(&mut self, list: &Vec<SequenceItem>) -> (out: Result<Vec<PreparedSequenceItem>, ParseError>)
        requires
            old(self).wf(),
        ensures
            match out {
                Ok(tree) => {
                    &&& final(self).wf()
                    &&& after_items(old(self)@, list@) == Outcome::Ok(final(self)@)
                    &&& prepares_items(old(self)@, list@, tree@)
                    &&& grows(old(self)@, final(self)@)
                },
                Err(error) => after_items(old(self)@, list@) == Outcome::Err(error),
            },
        decreases list@, 0int,
    {
        let ghost start = self@;
        proof {
            lemma_grows_reflexive(start);
        }
        let mut trees: Vec<PreparedSequenceItem> = Vec::new();
        proof {
            let none = list@.take(0);
            assert(after_items(start, none) == items_step(start, none));
            assert(prepares_items(start, none, trees@) == items_tree(start, none, trees@));
        }
        let mut i: usize = 0;
        while i < list.len()
            invariant
                i <= list@.len(),
                start == old(self)@,
                self.wf(),
                after_items(start, list@.take(i as int)) == Outcome::Ok(self@),
                prepares_items(start, list@.take(i as int), trees@),
                grows(start, self@),
            decreases list@.len() - i,
        {
            let ghost before = self@;
            let ghost longer = list@.take(i + 1);
            proof {
                assert(longer.drop_last() == list@.take(i as int));
                assert(longer.last() == list@[i as int]);
                assert(after_items(start, longer) == items_step(start, longer));
            }
            let step = self.prepare_sequence_item(&list[i]);
            match step {
                Ok(tree) => {
                    let ghost earlier = trees@;
                    trees.push(tree);
                    assert(trees@.drop_last() == earlier);
                    assert(prepares_items(start, longer, trees@) == items_tree(start, longer, trees@));
                },
                Err(error) => {
                    proof {
                        lemma_items_error(start, list@, i + 1);
                    }
                    return Err(error);
                },
            }
            i += 1;
        }
        assert(list@.take(i as int) == list@);
        Ok(trees)
    }

    /// Prepares the entries of a dict display.
    fn prepare_dict_items(&mut self, list: &Vec<DictItem>) -> (out: Result<Vec<PreparedDictItem>, ParseError>)
        requires
            old(self).wf(),
        ensures
            match out {
                Ok(tree) => {
                    &&& final(self).wf()
                    &&& after_dict_items(old(self)@, list@) == Outcome::Ok(final(self)@)
                    &&& prepares_dict_items(old(self)@, list@, tree@)
                    &&& grows(old(self)@, final(self)@)
                },
                Err(error) => after_dict_items(old(self)@, list@) == Outcome::Err(error),
            },
        decreases list@, 0int,
    {
        let ghost start = self@;
        proof {
            lemma_grows_reflexive(start);
        }
        let mut trees: Vec<PreparedDictItem> = Vec::new();
        proof {
            let none = list@.take(0);
            assert(after_dict_items(start, none) == dict_items_step(start, none));
            assert(prepares_dict_items(start, none, trees@) == dict_items_tree(start, none, trees@));
        }
        let mut i: usize = 0;
        while i < list.len()
            invariant
                i <= list@.len(),
                start == old(self)@,
                self.wf(),
                after_dict_items(start, list@.take(i as int)) == Outcome::Ok(self@),
                prepares_dict_items(start, list@.take(i as int), trees@),
                grows(start, self@),
            decreases list@.len() - i,
        {
            let ghost before = self@;
            let ghost longer = list@.take(i + 1);
            proof {
                assert(longer.drop_last() == list@.take(i as int));
                assert(longer.last() == list@[i as int]);
                assert(after_dict_items(start, longer) == dict_items_step(start, longer));
            }
            let step = self.prepare_dict_item(&list[i]);
            match step {
                Ok(tree) => {
                    let ghost earlier = trees@;
                    trees.push(tree);
                    assert(trees@.drop_last() == earlier);
                    assert(prepares_dict_items(start, longer, trees@) == dict_items_tree(start, longer, trees@));
                },
                Err(error) => {
                    proof {
                        lemma_dict_items_error(start, list@, i + 1);
                    }
                    return Err(error);
                },
            }
            i += 1;
        }
        assert(list@.take(i as int) == list@);
        Ok(trees)
    }

    /// Prepares the operands of a comparison chain.
    fn prepare_comparisons(&mut self, list: &Vec<(CmpOperator, ExprLoc)>) -> (out: Result<Vec<(CmpOperator, PreparedExprLoc)>, ParseError>)
        requires
            old(self).wf(),
        ensures
            match out {
                Ok(tree) => {
                    &&& final(self).wf()
                    &&& after_comparisons(old(self)@, list@) == Outcome::Ok(final(self)@)
                    &&& prepares_comparisons(old(self)@, list@, tree@)
                    &&& grows(old(self)@, final(self)@)
                },
                Err(error) => after_comparisons(old(self)@, list@) == Outcome::Err(error),
            },
        decreases list@, 0int,
    {
        let ghost start = self@;
        proof {
            lemma_grows_reflexive(start);
        }
        let mut trees: Vec<(CmpOperator, PreparedExprLoc)> = Vec::new();
        proof {
            let none = list@.take(0);
            assert(after_comparisons(start, none) == comparisons_step(start, none));
            assert(prepares_comparisons(start, none, trees@) == comparisons_tree(start, none, trees@));
        }
        let mut i: usize = 0;
        while i < list.len()
            invariant
                i <= list@.len(),
                start == old(self)@,
                self.wf(),
                after_comparisons(start, list@.take(i as int)) == Outcome::Ok(self@),
                prepares_comparisons(start, list@.take(i as int), trees@),
                grows(start, self@),
            decreases list@.len() - i,
        {
            let ghost before = self@;
            let ghost longer = list@.take(i + 1);
            proof {
                assert(longer.drop_last() == list@.take(i as int));
                assert(longer.last() == list@[i as int]);
                assert(after_comparisons(start, longer) == comparisons_step(start, longer));
            }
            let step = match self.prepare_expression(&list[i].1) {
                Ok(operand) => Ok((list[i].0, operand)),
                Err(error) => Err(error),
            };
            match step {
                Ok(tree) => {
                    let ghost earlier = trees@;
                    trees.push(tree);
                    assert(trees@.drop_last() == earlier);
                    assert(prepares_comparisons(start, longer, trees@) == comparisons_tree(start, longer, trees@));
                },
                Err(error) => {
                    proof {
                        lemma_comparisons_error(start, list@, i + 1);
                    }
                    return Err(error);
                },
            }
            i += 1;
        }
        assert(list@.take(i as int) == list@);
        Ok(trees)
    }

    /// Prepares the keyword arguments of a call.
    fn prepare_kwargs(&mut self, list: &Vec<Kwarg>) -> (out: Result<Vec<PreparedKwarg>, ParseError>)
        requires
            old(self).wf(),
        ensures
            match out {
                Ok(tree) => {
                    &&& final(self).wf()
                    &&& after_kwargs(old(self)@, list@) == Outcome::Ok(final(self)@)
                    &&& prepares_kwargs(old(self)@, list@, tree@)
                    &&& grows(old(self)@, final(self)@)
                },
                Err(error) => after_kwargs(old(self)@, list@) == Outcome::Err(error),
            },
        decreases list@, 0int,
    {
        let ghost start = self@;
        proof {
            lemma_grows_reflexive(start);
        }
        let mut trees: Vec<PreparedKwarg> = Vec::new();
        proof {
            let none = list@.take(0);
            assert(after_kwargs(start, none) == kwargs_step(start, none));
            assert(prepares_kwargs(start, none, trees@) == kwargs_tree(start, none, trees@));
        }
        let mut i: usize = 0;
        while i < list.len()
            invariant
                i <= list@.len(),
                start == old(self)@,
                self.wf(),
                after_kwargs(start, list@.take(i as int)) == Outcome::Ok(self@),
                prepares_kwargs(start, list@.take(i as int), trees@),
                grows(start, self@),
            decreases list@.len() - i,
        {
            let ghost before = self@;
            let ghost longer = list@.take(i + 1);
            proof {
                assert(longer.drop_last() == list@.take(i as int));
                assert(longer.last() == list@[i as int]);
                assert(after_kwargs(start, longer) == kwargs_step(start, longer));
            }
            let step = match self.prepare_expression(&list[i].value) {
                Ok(value) => Ok(PreparedKwarg { key: list[i].key, value }),
                Err(error) => Err(error),
            };
            match step {
                Ok(tree) => {
                    let ghost earlier = trees@;
                    trees.push(tree);
                    assert(trees@.drop_last() == earlier);
                    assert(prepares_kwargs(start, longer, trees@) == kwargs_tree(start, longer, trees@));
                },
                Err(error) => {
                    proof {
                        lemma_kwargs_error(start, list@, i + 1);
                    }
                    return Err(error);
                },
            }
            i += 1;
        }
        assert(list@.take(i as int) == list@);
        Ok(trees)
    }

    /// Prepares the positional arguments and unpackings of a call.
    fn prepare_call_args(&mut self, list: &Vec<CallArg>) -> (out: Result<Vec<PreparedCallArg>, ParseError>)
        requires
            old(self).wf(),
        ensures
            match out {
                Ok(tree) => {
                    &&& final(self).wf()
                    &&& after_call_args(old(self)@, list@) == Outcome::Ok(final(self)@)
                    &&& prepares_call_args(old(self)@, list@, tree@)
                    &&& grows(old(self)@, final(self)@)
                },
                Err(error) => after_call_args(old(self)@, list@) == Outcome::Err(error),
            },
        decreases list@, 0int,
    {
        let ghost start = self@;
        proof {
            lemma_grows_reflexive(start);
        }
        let mut trees: Vec<PreparedCallArg> = Vec::new();
        proof {
            let none = list@.take(0);
            assert(after_call_args(start, none) == call_args_step(start, none));
            assert(prepares_call_args(start, none, trees@) == call_args_tree(start, none, trees@));
        }
        let mut i: usize = 0;
        while i < list.len()
            invariant
                i <= list@.len(),
                start == old(self)@,
                self.wf(),
                after_call_args(start, list@.take(i as int)) == Outcome::Ok(self@),
                prepares_call_args(start, list@.take(i as int), trees@),
                grows(start, self@),
            decreases list@.len() - i,
        {
            let ghost before = self@;
            let ghost longer = list@.take(i + 1);
            proof {
                assert(longer.drop_last() == list@.take(i as int));
                assert(longer.last() == list@[i as int]);
                assert(after_call_args(start, longer) == call_args_step(start, longer));
            }
            let step = self.prepare_call_arg(&list[i]);
            match step {
                Ok(tree) => {
                    let ghost earlier = trees@;
                    trees.push(tree);
                    assert(trees@.drop_last() == earlier);
                    assert(prepares_call_args(start, longer, trees@) == call_args_tree(start, longer, trees@));
                },
                Err(error) => {
                    proof {
                        lemma_call_args_error(start, list@, i + 1);
                    }
                    return Err(error);
                },
            }
            i += 1;
        }
        assert(list@.take(i as int) == list@);
        Ok(trees)
    }

    /// Prepares the keyword arguments and unpackings of a call.
    fn prepare_call_kwargs(&mut self, list: &Vec<CallKwarg>) -> (out: Result<Vec<PreparedCallKwarg>, ParseError>)
        requires
            old(self).wf(),
        ensures
            match out {
                Ok(tree) => {
                    &&& final(self).wf()
                    &&& after_call_kwargs(old(self)@, list@) == Outcome::Ok(final(self)@)
                    &&& prepares_call_kwargs(old(self)@, list@, tree@)
                    &&& grows(old(self)@, final(self)@)
                },
                Err(error) => after_call_kwargs(old(self)@, list@) == Outcome::Err(error),
            },
        decreases list@, 0int,
    {
        let ghost start = self@;
        proof {
            lemma_grows_reflexive(start);
        }
        let mut trees: Vec<PreparedCallKwarg> = Vec::new();
        proof {
            let none = list@.take(0);
            assert(after_call_kwargs(start, none) == call_kwargs_step(start, none));
            assert(prepares_call_kwargs(start, none, trees@) == call_kwargs_tree(start, none, trees@));
        }
        let mut i: usize = 0;
        while i < list.len()
            invariant
                i <= list@.len(),
                start == old(self)@,
                self.wf(),
                after_call_kwargs(start, list@.take(i as int)) == Outcome::Ok(self@),
                prepares_call_kwargs(start, list@.take(i as int), trees@),
                grows(start, self@),
            decreases list@.len() - i,
        {
            let ghost before = self@;
            let ghost longer = list@.take(i + 1);
            proof {
                assert(longer.drop_last() == list@.take(i as int));
                assert(longer.last() == list@[i as int]);
                assert(after_call_kwargs(start, longer) == call_kwargs_step(start, longer));
            }
            let step = self.prepare_call_kwarg(&list[i]);
            match step {
                Ok(tree) => {
                    let ghost earlier = trees@;
                    trees.push(tree);
                    assert(trees@.drop_last() == earlier);
                    assert(prepares_call_kwargs(start, longer, trees@) == call_kwargs_tree(start, longer, trees@));
                },
                Err(error) => {
                    proof {
                        lemma_call_kwargs_error(start, list@, i + 1);
                    }
                    return Err(error);
                },
            }
            i += 1;
        }
        assert(list@.take(i as int) == list@);
        Ok(trees)
    }

    /// Prepares the parts of a formatted string.
    fn prepare_fstring_parts(&mut self, list: &Vec<FStringPart>) -> (out: Result<Vec<PreparedFStringPart>, ParseError>)
        requires
            old(self).wf(),
        ensures
            match out {
                Ok(tree) => {
                    &&& final(self).wf()
                    &&& after_fstring_parts(old(self)@, list@) == Outcome::Ok(final(self)@)
                    &&& prepares_fstring_parts(old(self)@, list@, tree@)
                    &&& grows(old(self)@, final(self)@)
                },
                Err(error) => after_fstring_parts(old(self)@, list@) == Outcome::Err(error),
            },
        decreases list@, 0int,
    {
        let ghost start = self@;
        proof {
            lemma_grows_reflexive(start);
        }
        let mut trees: Vec<PreparedFStringPart> = Vec::new();
        proof {
            let none = list@.take(0);
            assert(after_fstring_parts(start, none) == fstring_parts_step(start, none));
            assert(prepares_fstring_parts(start, none, trees@) == fstring_parts_tree(start, none, trees@));
        }
        let mut i: usize = 0;
        while i < list.len()
            invariant
                i <= list@.len(),
                start == old(self)@,
                self.wf(),
                after_fstring_parts(start, list@.take(i as int)) == Outcome::Ok(self@),
                prepares_fstring_parts(start, list@.take(i as int), trees@),
                grows(start, self@),
            decreases list@.len() - i,
        {
            let ghost before = self@;
            let ghost longer = list@.take(i + 1);
            proof {
                assert(longer.drop_last() == list@.take(i as int));
                assert(longer.last() == list@[i as int]);
                assert(after_fstring_parts(start, longer) == fstring_parts_step(start, longer));
            }
            let step = self.prepare_fstring_part(&list[i]);
            match step {
                Ok(tree) => {
                    let ghost earlier = trees@;
                    trees.push(tree);
                    assert(trees@.drop_last() == earlier);
                    assert(prepares_fstring_parts(start, longer, trees@) == fstring_parts_tree(start, longer, trees@));
                },
                Err(error) => {
                    proof {
                        lemma_fstring_parts_error(start, list@, i + 1);
                    }
                    return Err(error);
                },
            }
            i += 1;
        }
        assert(list@.take(i as int) == list@);
        Ok(trees)
    }

    /// Prepares the fields of a template.
    fn prepare_interpolations(&mut self, list: &Vec<TemplateInterpolation>) -> (out: Result<Vec<PreparedInterpolation>, ParseError>)
        requires
            old(self).wf(),
        ensures
            match out {
                Ok(tree) => {
                    &&& final(self).wf()
                    &&& after_interpolations(old(self)@, list@) == Outcome::Ok(final(self)@)
                    &&& prepares_interpolations(old(self)@, list@, tree@)
                    &&& grows(old(self)@, final(self)@)
                },
                Err(error) => after_interpolations(old(self)@, list@) == Outcome::Err(error),
            },
        decreases list@, 0int,
    {
        let ghost start = self@;
        proof {
            lemma_grows_reflexive(start);
        }
        let mut trees: Vec<PreparedInterpolation> = Vec::new();
        proof {
            let none = list@.take(0);
            assert(after_interpolations(start, none) == interpolations_step(start, none));
            assert(prepares_interpolations(start, none, trees@) == interpolations_tree(start, none, trees@));
        }
        let mut i: usize = 0;
        while i < list.len()
            invariant
                i <= list@.len(),
                start == old(self)@,
                self.wf(),
                after_interpolations(start, list@.take(i as int)) == Outcome::Ok(self@),
                prepares_interpolations(start, list@.take(i as int), trees@),
                grows(start, self@),
            decreases list@.len() - i,
        {
            let ghost before = self@;
            let ghost longer = list@.take(i + 1);
            proof {
                assert(longer.drop_last() == list@.take(i as int));
                assert(longer.last() == list@[i as int]);
                assert(after_interpolations(start, longer) == interpolations_step(start, longer));
            }
            let step = match self.prepare_expression(&list[i].expr) {
                Ok(value) => match self.prepare_fstring_parts(&list[i].format_spec) {
                    Ok(format_spec) => Ok(
                        PreparedInterpolation {
                            expr: Box::new(value),
                            expression: list[i].expression,
                            conversion: list[i].conversion,
                            format_spec,
                        },
                    ),
                    Err(error) => Err(error),
                },
                Err(error) => Err(error),
            };
            match step {
                Ok(tree) => {
                    let ghost earlier = trees@;
                    trees.push(tree);
                    assert(trees@.drop_last() == earlier);
                    assert(prepares_interpolations(start, longer, trees@) == interpolations_tree(start, longer, trees@));
                },
                Err(error) => {
                    proof {
                        lemma_interpolations_error(start, list@, i + 1);
                    }
                    return Err(error);
                },
            }
            i += 1;
        }
        assert(list@.take(i as int) == list@);
        Ok(trees)
    }

    /// Prepares the binding targets of a list.
    fn prepare_unpack_targets(&mut self, list: &Vec<UnpackTarget>) -> (out: Result<Vec<PreparedTarget>, ParseError>)
        requires
            old(self).wf(),
        ensures
            match out {
                Ok(tree) => {
                    &&& final(self).wf()
                    &&& after_targets(old(self)@, list@) == Outcome::Ok(final(self)@)
                    &&& prepares_targets(old(self)@, list@, tree@)
                    &&& grows(old(self)@, final(self)@)
                },
                Err(error) => after_targets(old(self)@, list@) == Outcome::Err(error),
            },
        decreases list@, 0int,
    {
        let ghost start = self@;
        proof {
            lemma_grows_reflexive(start);
        }
        let mut trees: Vec<PreparedTarget> = Vec::new();
        proof {
            let none = list@.take(0);
            assert(after_targets(start, none) == targets_step(start, none));
            assert(prepares_targets(start, none, trees@) == targets_tree(start, none, trees@));
        }
        let mut i: usize = 0;
        while i < list.len()
            invariant
                i <= list@.len(),
                start == old(self)@,
                self.wf(),
                after_targets(start, list@.take(i as int)) == Outcome::Ok(self@),
                prepares_targets(start, list@.take(i as int), trees@),
                grows(start, self@),
            decreases list@.len() - i,
        {
            let ghost before = self@;
            let ghost longer = list@.take(i + 1);
            proof {
                assert(longer.drop_last() == list@.take(i as int));
                assert(longer.last() == list@[i as int]);
                assert(after_targets(start, longer) == targets_step(start, longer));
            }
            let step = self.prepare_unpack_target(&list[i]);
            match step {
                Ok(tree) => {
                    let ghost earlier = trees@;
                    trees.push(tree);
                    assert(trees@.drop_last() == earlier);
                    assert(prepares_targets(start, longer, trees@) == targets_tree(start, longer, trees@));
                },
                Err(error) => {
                    proof {
                        lemma_targets_error(start, list@, i + 1);
                    }
                    return Err(error);
                },
            }
            i += 1;
        }
        assert(list@.take(i as int) == list@);
        Ok(trees)
    }

    /// Prepares the targets of `del`.
    fn prepare_delete_targets(&mut self, list: &Vec<DeleteTarget>) -> (out: Result<Vec<PreparedDeleteTarget>, ParseError>)
        requires
            old(self).wf(),
        ensures
            match out {
                Ok(tree) => {
                    &&& final(self).wf()
                    &&& after_delete_targets(old(self)@, list@) == Outcome::Ok(final(self)@)
                    &&& prepares_delete_targets(old(self)@, list@, tree@)
                    &&& grows(old(self)@, final(self)@)
                },
                Err(error) => after_delete_targets(old(self)@, list@) == Outcome::Err(error),
            },
        decreases list@, 0int,
    {
        let ghost start = self@;
        proof {
            lemma_grows_reflexive(start);
        }
        let mut trees: Vec<PreparedDeleteTarget> = Vec::new();
        proof {
            let none = list@.take(0);
            assert(after_delete_targets(start, none) == delete_targets_step(start, none));
            assert(prepares_delete_targets(start, none, trees@) == delete_targets_tree(start, none, trees@));
        }
        let mut i: usize = 0;
        while i < list.len()
            invariant
                i <= list@.len(),
                start == old(self)@,
                self.wf(),
                after_delete_targets(start, list@.take(i as int)) == Outcome::Ok(self@),
                prepares_delete_targets(start, list@.take(i as int), trees@),
                grows(start, self@),
            decreases list@.len() - i,
        {
            let ghost before = self@;
            let ghost longer = list@.take(i + 1);
            proof {
                assert(longer.drop_last() == list@.take(i as int));
                assert(longer.last() == list@[i as int]);
                assert(after_delete_targets(start, longer) == delete_targets_step(start, longer));
            }
            let step = self.prepare_delete_target(&list[i]);
            match step {
                Ok(tree) => {
                    let ghost earlier = trees@;
                    trees.push(tree);
                    assert(trees@.drop_last() == earlier);
                    assert(prepares_delete_targets(start, longer, trees@) == delete_targets_tree(start, longer, trees@));
                },
                Err(error) => {
                    proof {
                        lemma_delete_targets_error(start, list@, i + 1);
                    }
                    return Err(error);
                },
            }
            i += 1;
        }
        assert(list@.take(i as int) == list@);
        Ok(trees)
    }

    /// Prepares the handlers of a `try` statement.
    fn prepare_except_handlers(&mut self, list: &Vec<ExceptHandler>) -> (out: Result<Vec<PreparedHandler>, ParseError>)
        requires
            old(self).wf(),
        ensures
            match out {
                Ok(tree) => {
                    &&& final(self).wf()
                    &&& after_handlers(old(self)@, list@) == Outcome::Ok(final(self)@)
                    &&& prepares_handlers(old(self)@, list@, tree@)
                    &&& grows(old(self)@, final(self)@)
                },
                Err(error) => after_handlers(old(self)@, list@) == Outcome::Err(error),
            },
            out is Ok ==> bound_outside(old(self)@, declared_in_handlers(list@, Declaration::Nonlocal)),
        decreases list@, 0int,
    {
        let ghost start = self@;
        proof {
            lemma_grows_reflexive(start);
        }
        let mut trees: Vec<PreparedHandler> = Vec::new();
        proof {
            let none = list@.take(0);
            assert(after_handlers(start, none) == handlers_step(start, none));
            assert(prepares_handlers(start, none, trees@) == handlers_tree(start, none, trees@));
        }
        let mut i: usize = 0;
        while i < list.len()
            invariant
                i <= list@.len(),
                start == old(self)@,
                self.wf(),
                after_handlers(start, list@.take(i as int)) == Outcome::Ok(self@),
                prepares_handlers(start, list@.take(i as int), trees@),
                grows(start, self@),
                bound_outside(start, declared_in_handlers(list@.take(i as int), Declaration::Nonlocal)),
            decreases list@.len() - i,
        {
            let ghost before = self@;
            let ghost longer = list@.take(i + 1);
            proof {
                assert(longer.drop_last() == list@.take(i as int));
                assert(longer.last() == list@[i as int]);
                assert(after_handlers(start, longer) == handlers_step(start, longer));
            }
            let step = self.prepare_except_handler(&list[i]);
            match step {
                Ok(tree) => {
                    let ghost earlier = trees@;
                    trees.push(tree);
                    assert(trees@.drop_last() == earlier);
                    assert(prepares_handlers(start, longer, trees@) == handlers_tree(start, longer, trees@));
                },
                Err(error) => {
                    proof {
                        lemma_handlers_error(start, list@, i + 1);
                    }
                    return Err(error);
                },
            }
            i += 1;
        }
        assert(list@.take(i as int) == list@);
        Ok(trees)
    }

    /// Prepares the modules that an `import` statement names.
    ///
    /// An import does not count as binding a name above a global declaration.
    fn prepare_import_names(&mut self, list: &Vec<ImportName>) -> (out: Result<Vec<PreparedImportName>, ParseError>)
        requires
            old(self).wf(),
        ensures
            match out {
                Ok(tree) => {
                    &&& final(self).wf()
                    &&& after_import_names(old(self)@, list@) == Outcome::Ok(final(self)@)
                    &&& prepares_import_names(old(self)@, list@, tree@)
                    &&& grows(old(self)@, final(self)@)
                },
                Err(error) => after_import_names(old(self)@, list@) == Outcome::Err(error),
            },
        decreases list@, 0int,
    {
        let ghost start = self@;
        proof {
            lemma_grows_reflexive(start);
        }
        let mut trees: Vec<PreparedImportName> = Vec::new();
        proof {
            let none = list@.take(0);
            assert(after_import_names(start, none) == import_names_step(start, none));
            assert(prepares_import_names(start, none, trees@) == import_names_tree(start, none, trees@));
        }
        let mut i: usize = 0;
        while i < list.len()
            invariant
                i <= list@.len(),
                start == old(self)@,
                self.wf(),
                after_import_names(start, list@.take(i as int)) == Outcome::Ok(self@),
                prepares_import_names(start, list@.take(i as int), trees@),
                grows(start, self@),
            decreases list@.len() - i,
        {
            let ghost before = self@;
            let ghost longer = list@.take(i + 1);
            proof {
                assert(longer.drop_last() == list@.take(i as int));
                assert(longer.last() == list@[i as int]);
                assert(after_import_names(start, longer) == import_names_step(start, longer));
            }
            let step = match self.get_id(list[i].binding) {
                Ok(binding) => Ok(
                    PreparedImportName {
                        module_name: list[i].module_name,
                        bound_name: list[i].bound_name,
                        binding,
                    },
                ),
                Err(error) => Err(error),
            };
            match step {
                Ok(tree) => {
                    let ghost earlier = trees@;
                    trees.push(tree);
                    assert(trees@.drop_last() == earlier);
                    assert(prepares_import_names(start, longer, trees@) == import_names_tree(start, longer, trees@));
                },
                Err(error) => {
                    proof {
                        lemma_import_names_error(start, list@, i + 1);
                    }
                    return Err(error);
                },
            }
            i += 1;
        }
        assert(list@.take(i as int) == list@);
        Ok(trees)
    }

    /// Prepares the names that a `from` import binds.
    fn prepare_import_from(&mut self, list: &Vec<(StringId, Identifier)>) -> (out: Result<Vec<(StringId, ResolvedIdentifier)>, ParseError>)
        requires
            old(self).wf(),
        ensures
            match out {
                Ok(tree) => {
                    &&& final(self).wf()
                    &&& after_import_from(old(self)@, list@) == Outcome::Ok(final(self)@)
                    &&& prepares_import_from(old(self)@, list@, tree@)
                    &&& grows(old(self)@, final(self)@)
                },
                Err(error) => after_import_from(old(self)@, list@) == Outcome::Err(error),
            },
        decreases list@, 0int,
    {
        let ghost start = self@;
        proof {
            lemma_grows_reflexive(start);
        }
        let mut trees: Vec<(StringId, ResolvedIdentifier)> = Vec::new();
        proof {
            let none = list@.take(0);
            assert(after_import_from(start, none) == import_from_step(start, none));
            assert(prepares_import_from(start, none, trees@) == import_from_tree(start, none, trees@));
        }
        let mut i: usize = 0;
        while i < list.len()
            invariant
                i <= list@.len(),
                start == old(self)@,
                self.wf(),
                after_import_from(start, list@.take(i as int)) == Outcome::Ok(self@),
                prepares_import_from(start, list@.take(i as int), trees@),
                grows(start, self@),
            decreases list@.len() - i,
        {
            let ghost before = self@;
            let ghost longer = list@.take(i + 1);
            proof {
                assert(longer.drop_last() == list@.take(i as int));
                assert(longer.last() == list@[i as int]);
                assert(after_import_from(start, longer) == import_from_step(start, longer));
            }
            let step = match self.get_id(list[i].1) {
                Ok(binding) => Ok((list[i].0, binding)),
                Err(error) => Err(error),
            };
            match step {
                Ok(tree) => {
                    let ghost earlier = trees@;
                    trees.push(tree);
                    assert(trees@.drop_last() == earlier);
                    assert(prepares_import_from(start, longer, trees@) == import_from_tree(start, longer, trees@));
                },
                Err(error) => {
                    proof {
                        lemma_import_from_error(start, list@, i + 1);
                    }
                    return Err(error);
                },
            }
            i += 1;
        }
        assert(list@.take(i as int) == list@);
        Ok(trees)
    }

    /// Binds the names of a comprehension target to scratch slots.
    pub fn prepare_unpack_target_for_comprehension(&mut self, it: &UnpackTarget) -> (out: Result<PreparedTarget, ParseError>)
        requires
            old(self).wf(),
            old(self)@.comp_scopes.len() > 0,
        ensures
            match out {
                Ok(tree) => {
                    &&& final(self).wf()
                    &&& after_comp_target(old(self)@, *it) == Outcome::Ok(final(self)@)
                    &&& prepares_comp_target(old(self)@, *it, tree)
                    &&& grows_outside(old(self)@, final(self)@)
                },
                Err(error) => after_comp_target(old(self)@, *it) == Outcome::Err(error),
            },
        decreases *it, 0int,
    {
        let ghost start = self@;
        proof {
            lemma_grows_outside_reflexive(self@);
            assert(after_comp_target(start, *it) == comp_target_step(start, *it));
        }
        let tree = match it {
            UnpackTarget::Name(ident) => PreparedTarget::Name(self.alloc_comp_var_slot(*ident)?),
            UnpackTarget::Starred(ident) => PreparedTarget::Starred(self.alloc_comp_var_slot(*ident)?),
            UnpackTarget::Tuple { targets, position } => {
                let targets_out = self.prepare_comp_targets(targets)?;
                PreparedTarget::Tuple { targets: targets_out, position: *position }
            },
            UnpackTarget::Attr { position, .. } | UnpackTarget::Subscript { position, .. } => {
                return Err(ParseError { kind: ParseErrorKind::ComprehensionTarget, position: *position });
            },
        };
        proof {
            assert(prepares_comp_target(start, *it, tree) == comp_target_tree(start, *it, tree));
        }
        Ok(tree)
    }

    /// Binds the names of the targets of a comprehension tuple.
    fn prepare_comp_targets(&mut self, list: &Vec<UnpackTarget>) -> (out: Result<Vec<PreparedTarget>, ParseError>)
        requires
            old(self).wf(),
            old(self)@.comp_scopes.len() > 0,
        ensures
            match out {
                Ok(tree) => {
                    &&& final(self).wf()
                    &&& after_comp_targets(old(self)@, list@) == Outcome::Ok(final(self)@)
                    &&& prepares_comp_targets(old(self)@, list@, tree@)
                    &&& grows_outside(old(self)@, final(self)@)
                },
                Err(error) => after_comp_targets(old(self)@, list@) == Outcome::Err(error),
            },
        decreases list@, 0int,
    {
        let ghost start = self@;
        proof {
            lemma_grows_outside_reflexive(start);
        }
        let mut trees: Vec<PreparedTarget> = Vec::new();
        proof {
            let none = list@.take(0);
            assert(after_comp_targets(start, none) == comp_targets_step(start, none));
            assert(prepares_comp_targets(start, none, trees@) == comp_targets_tree(start, none, trees@));
        }
        let mut i: usize = 0;
        while i < list.len()
            invariant
                i <= list@.len(),
                start == old(self)@,
                self.wf(),
                start.comp_scopes.len() > 0,
                self@.comp_scopes.len() > 0,
                after_comp_targets(start, list@.take(i as int)) == Outcome::Ok(self@),
                prepares_comp_targets(start, list@.take(i as int), trees@),
                grows_outside(start, self@),
            decreases list@.len() - i,
        {
            let ghost before = self@;
            let ghost longer = list@.take(i + 1);
            proof {
                assert(longer.drop_last() == list@.take(i as int));
                assert(longer.last() == list@[i as int]);
                assert(after_comp_targets(start, longer) == comp_targets_step(start, longer));
            }
            let step = self.prepare_unpack_target_for_comprehension(&list[i]);
            match step {
                Ok(tree) => {
                    let ghost earlier = trees@;
                    trees.push(tree);
                    proof {
                        lemma_grows_outside_transitive(start, before, self@);
                    }
                    assert(trees@.drop_last() == earlier);
                    assert(prepares_comp_targets(start, longer, trees@) == comp_targets_tree(start, longer, trees@));
                },
                Err(error) => {
                    proof {
                        lemma_comp_targets_error(start, list@, i + 1);
                    }
                    return Err(error);
                },
            }
            i += 1;
        }
        assert(list@.take(i as int) == list@);
        Ok(trees)
    }

    /// Binds the names of the targets of later comprehension clauses.
    fn prepare_clause_targets(&mut self, list: &Vec<Comprehension>) -> (out: Result<Vec<PreparedTarget>, ParseError>)
        requires
            old(self).wf(),
            old(self)@.comp_scopes.len() > 0,
        ensures
            match out {
                Ok(tree) => {
                    &&& final(self).wf()
                    &&& after_clause_targets(old(self)@, list@) == Outcome::Ok(final(self)@)
                    &&& prepares_clause_targets(old(self)@, list@, tree@)
                    &&& grows_outside(old(self)@, final(self)@)
                },
                Err(error) => after_clause_targets(old(self)@, list@) == Outcome::Err(error),
            },
        decreases list@, 0int,
    {
        let ghost start = self@;
        proof {
            lemma_grows_outside_reflexive(start);
        }
        let mut trees: Vec<PreparedTarget> = Vec::new();
        proof {
            let none = list@.take(0);
            assert(after_clause_targets(start, none) == clause_targets_step(start, none));
            assert(prepares_clause_targets(start, none, trees@) == clause_targets_tree(start, none, trees@));
        }
        let mut i: usize = 0;
        while i < list.len()
            invariant
                i <= list@.len(),
                start == old(self)@,
                self.wf(),
                start.comp_scopes.len() > 0,
                self@.comp_scopes.len() > 0,
                after_clause_targets(start, list@.take(i as int)) == Outcome::Ok(self@),
                prepares_clause_targets(start, list@.take(i as int), trees@),
                grows_outside(start, self@),
            decreases list@.len() - i,
        {
            let ghost before = self@;
            let ghost longer = list@.take(i + 1);
            proof {
                assert(longer.drop_last() == list@.take(i as int));
                assert(longer.last() == list@[i as int]);
                assert(after_clause_targets(start, longer) == clause_targets_step(start, longer));
            }
            let step = self.prepare_unpack_target_for_comprehension(&list[i].target);
            match step {
                Ok(tree) => {
                    let ghost earlier = trees@;
                    trees.push(tree);
                    proof {
                        lemma_grows_outside_transitive(start, before, self@);
                    }
                    assert(trees@.drop_last() == earlier);
                    assert(prepares_clause_targets(start, longer, trees@) == clause_targets_tree(start, longer, trees@));
                },
                Err(error) => {
                    proof {
                        lemma_clause_targets_error(start, list@, i + 1);
                    }
                    return Err(error);
                },
            }
            i += 1;
        }
        assert(list@.take(i as int) == list@);
        Ok(trees)
    }

    /// Prepares the iterables and filters of later comprehension clauses, whose
    /// targets are bound already.
    fn prepare_clauses(&mut self, list: &Vec<Comprehension>, mut targets: Vec<PreparedTarget>) -> (out: Result<
        Vec<PreparedClause>,
        ParseError,
    >)
        requires
            old(self).wf(),
            targets@.len() == list@.len(),
        ensures
            match out {
                Ok(tree) => {
                    &&& final(self).wf()
                    &&& after_clauses(old(self)@, list@) == Outcome::Ok(final(self)@)
                    &&& prepares_clauses(old(self)@, list@, tree@)
                    &&& clause_targets(tree@) == targets@
                    &&& grows(old(self)@, final(self)@)
                },
                Err(error) => after_clauses(old(self)@, list@) == Outcome::Err(error),
            },
        decreases list@, 0int,
    {
        let ghost start = self@;
        let ghost all = targets@;
        proof {
            lemma_grows_reflexive(start);
        }
        let mut trees: Vec<PreparedClause> = Vec::new();
        proof {
            let none = list@.take(0);
            assert(after_clauses(start, none) == clauses_step(start, none));
            assert(prepares_clauses(start, none, trees@) == clauses_tree(start, none, trees@));
        }
        let mut i: usize = 0;
        while i < list.len()
            invariant
                i <= list@.len(),
                start == old(self)@,
                self.wf(),
                all.len() == list@.len(),
                targets@ == all.skip(i as int),
                after_clauses(start, list@.take(i as int)) == Outcome::Ok(self@),
                prepares_clauses(start, list@.take(i as int), trees@),
                clause_targets(trees@) == all.take(i as int),
                grows(start, self@),
            decreases list@.len() - i,
        {
            let ghost longer = list@.take(i + 1);
            proof {
                assert(longer.drop_last() == list@.take(i as int));
                assert(longer.last() == list@[i as int]);
                assert(after_clauses(start, longer) == clauses_step(start, longer));
            }
            let step = match self.prepare_expression(&list[i].iter) {
                Ok(iter) => match self.prepare_exprs(&list[i].ifs) {
                    Ok(ifs) => Ok((iter, ifs)),
                    Err(error) => Err(error),
                },
                Err(error) => Err(error),
            };
            match step {
                Ok((iter, ifs)) => {
                    let ghost earlier = trees@;
                    let target = targets.remove(0);
                    trees.push(PreparedClause { target, iter, ifs });
                    assert(trees@.drop_last() == earlier);
                    assert(prepares_clauses(start, longer, trees@) == clauses_tree(start, longer, trees@));
                    assert(targets@ =~= all.skip(i + 1));
                    assert(clause_targets(trees@) =~= all.take(i + 1));
                },
                Err(error) => {
                    proof {
                        lemma_clauses_error(start, list@, i + 1);
                    }
                    return Err(error);
                },
            }
            i += 1;
        }
        assert(list@.take(i as int) == list@);
        assert(all.take(i as int) == all);
        Ok(trees)
    }

    /// Enters a comprehension and prepares its clauses. `walrus_targets` holds
    /// the names that assignment expressions in its element bind.
    #[verifier::rlimit(20)]
    pub fn prepare_comprehension(&mut self, it: &Generators, mut walrus_targets: NameSet) -> (out: Result<
        PreparedGenerators,
        ParseError,
    >)
        requires
            old(self).wf(),
        ensures
            match out {
                Ok(tree) => {
                    &&& final(self).wf()
                    &&& after_generators(old(self)@, *it, walrus_targets@) == Outcome::Ok(final(self)@)
                    &&& prepares_generators(old(self)@, *it, walrus_targets@, tree)
                    &&& final(self)@.comp_scopes.len() > 0
                    &&& grows(old(self)@, without_comp_scope(final(self)@, old(self)@.comp_var_depth))
                },
                Err(error) => after_generators(old(self)@, *it, walrus_targets@) == Outcome::Err(error),
            },
        decreases *it, 0int,
    {
        proof {
            assert(after_generators(self@, *it, walrus_targets@) == generators_step(self@, *it, walrus_targets@));
        }
        let ghost start = self@;
        let ghost element = walrus_targets@;
        collect_assigned_names_from_exprs(&it.first.ifs, &mut walrus_targets);
        add_filter_names(&it.rest, &mut walrus_targets);
        assert(walrus_targets@ =~= walrus_names(*it, element));
        self.enter_comprehension(&walrus_targets, it.first.iter.position)?;
        let ghost entered = self@;
        let iter = self.prepare_expression(&it.first.iter)?;
        let ghost m2 = self@;
        proof {
            lemma_enter_comprehension(start, entered);
            lemma_grows_inside(entered, m2);
        }
        let target = self.prepare_unpack_target_for_comprehension(&it.first.target)?;
        let ghost m3 = self@;
        let targets = self.prepare_clause_targets(&it.rest)?;
        let ghost m4 = self@;
        let ifs = self.prepare_exprs(&it.first.ifs)?;
        let ghost m5 = self@;
        let rest = self.prepare_clauses(&it.rest, targets)?;
        proof {
            lemma_grows_outside_transitive(entered, m2, m3);
            lemma_grows_outside_transitive(entered, m3, m4);
            lemma_grows_inside(m4, m5);
            lemma_grows_outside_transitive(entered, m4, m5);
            lemma_grows_inside(m5, self@);
            lemma_grows_outside_transitive(entered, m5, self@);
            lemma_outside(start, entered, self@);
        }
        let tree = PreparedGenerators { first: PreparedClause { target, iter, ifs }, rest };
        proof {
            assert(prepares_generators(start, *it, element, tree) == generators_tree(start, *it, element, tree));
        }
        Ok(tree)
    }

    /// Prepares the default values of a list of parameters and writes them
    /// behind `trees`.
    fn prepare_params(&mut self, list: &Vec<ParsedParam>) -> (out: Result<Vec<PreparedExprLoc>, ParseError>)
        requires
            old(self).wf(),
        ensures
            match out {
                Ok(tree) => {
                    &&& final(self).wf()
                    &&& after_params(old(self)@, list@) == Outcome::Ok(final(self)@)
                    &&& prepares_params(old(self)@, list@, tree@)
                    &&& tree@.len() == count_defaults(list@)
                    &&& grows(old(self)@, final(self)@)
                },
                Err(error) => after_params(old(self)@, list@) == Outcome::Err(error),
            },
        decreases list@, 0int,
    {
        let ghost start = self@;
        proof {
            lemma_grows_reflexive(start);
        }
        let mut trees: Vec<PreparedExprLoc> = Vec::new();
        proof {
            let none = list@.take(0);
            assert(after_params(start, none) == params_step(start, none));
            assert(prepares_params(start, none, trees@) == params_tree(start, none, trees@));
        }
        let mut i: usize = 0;
        while i < list.len()
            invariant
                i <= list@.len(),
                start == old(self)@,
                self.wf(),
                after_params(start, list@.take(i as int)) == Outcome::Ok(self@),
                prepares_params(start, list@.take(i as int), trees@),
                trees@.len() == count_defaults(list@.take(i as int)),
                grows(start, self@),
            decreases list@.len() - i,
        {
            let ghost longer = list@.take(i + 1);
            proof {
                assert(longer.drop_last() == list@.take(i as int));
                assert(longer.last() == list@[i as int]);
                assert(after_params(start, longer) == params_step(start, longer));
            }
            if let Some(default) = &list[i].default {
                match self.prepare_expression(default) {
                    Ok(tree) => {
                        let ghost earlier = trees@;
                        trees.push(tree);
                        assert(trees@.drop_last() == earlier);
                    },
                    Err(error) => {
                        proof {
                            lemma_params_error(start, list@, i + 1);
                        }
                        return Err(error);
                    },
                }
            }
            assert(prepares_params(start, longer, trees@) == params_tree(start, longer, trees@));
            i += 1;
        }
        assert(list@.take(i as int) == list@);
        Ok(trees)
    }

    /// Prepares the default values of a signature, in the enclosing scope.
    fn prepare_defaults(&mut self, it: &ParsedSignature) -> (out: Result<Vec<PreparedExprLoc>, ParseError>)
        requires
            old(self).wf(),
        ensures
            match out {
                Ok(tree) => {
                    &&& final(self).wf()
                    &&& after_defaults(old(self)@, *it) == Outcome::Ok(final(self)@)
                    &&& prepares_defaults(old(self)@, *it, tree@)
                    &&& grows(old(self)@, final(self)@)
                },
                Err(error) => after_defaults(old(self)@, *it) == Outcome::Err(error),
            },
        decreases *it, 0int,
    {
        proof {
            assert(after_defaults(self@, *it) == defaults_step(self@, *it));
        }
        let mut trees = self.prepare_params(&it.pos_args)?;
        let ghost first = trees@;
        let mut more = self.prepare_params(&it.args)?;
        let ghost second = more@;
        trees.append(&mut more);
        let mut last = self.prepare_params(&it.kwargs)?;
        let ghost third = last@;
        trees.append(&mut last);
        proof {
            let all = trees@;
            let a = first.len() as int;
            let b = a + second.len();
            assert(all.subrange(0, a) =~= first);
            assert(all.subrange(a, b) =~= second);
            assert(all.subrange(b, all.len() as int) =~= third);
            assert(prepares_defaults(old(self)@, *it, all) == defaults_tree(old(self)@, *it, all));
        }
        Ok(trees)
    }

    /// Prepares a function definition.
    #[verifier::rlimit(20)]
    pub fn prepare_function_def(&mut self, it: &RawFunctionDef) -> (out: Result<PreparedFunctionDef, ParseError>)
        requires
            old(self).wf(),
        ensures
            match out {
                Ok(tree) => {
                    &&& final(self).wf()
                    &&& after_function_def(old(self)@, *it) == Outcome::Ok(final(self)@)
                    &&& prepares_function_def(old(self)@, *it, tree)
                    &&& grows(old(self)@, final(self)@)
                },
                Err(error) => after_function_def(old(self)@, *it) == Outcome::Err(error),
            },
        decreases *it, 0int,
    {
        proof {
            assert(after_function_def(self@, *it) == function_def_step(self@, *it));
        }
        let ghost start = self@;
        let name = self.bind_id(it.name)?;
        let ghost named = self@;
        let params = it.signature.param_names();
        let info = collect_function_scope_info(&it.body, &params);
        let ghost info_view = info@;
        let mut child = self.new_function(&params, info, false, it.name.position)?;
        let ghost inner = child@;
        let body = child.prepare_nodes(&it.body)?;
        let ghost ended = child@;
        proof {
            lemma_child_captures(named, params@, info_view, false, it.name.position, inner, ended);
        }
        let finalized = self.finalize_child_scope(child, &params, it.name.position, Ghost(named))?;
        let ghost closed_state = self@;
        let default_exprs = self.prepare_defaults(&it.signature)?;
        proof {
            lemma_grows_transitive(start, named, closed_state);
            lemma_grows_transitive(start, closed_state, self@);
        }
        let tree = PreparedFunctionDef {
                name,
                signature: build_signature(&it.signature),
                body,
                namespace_size: finalized.namespace_size,
                free_var_enclosing_slots: finalized.free_var_enclosing_slots,
                free_var_slots: finalized.free_var_slots,
                cell_var_slots: finalized.cell_var_slots,
                cell_param_indices: finalized.cell_param_indices,
                default_exprs,
                is_async: it.is_async,
                is_generator: it.is_generator,
        };
        proof {
            assert(prepares_function_def(start, *it, tree) == function_def_tree(start, *it, tree));
        }
        Ok(tree)
    }

    /// Prepares a lambda: a function that returns the value of the lambda's
    /// body and that no name is bound to.
    #[verifier::rlimit(20)]
    pub fn prepare_lambda(&mut self, it: &LambdaDef, position: CodeRange) -> (out: Result<PreparedFunctionDef, ParseError>)
        requires
            old(self).wf(),
        ensures
            match out {
                Ok(tree) => {
                    &&& final(self).wf()
                    &&& after_lambda(old(self)@, *it, position) == Outcome::Ok(final(self)@)
                    &&& prepares_lambda(old(self)@, *it, position, tree)
                    &&& grows(old(self)@, final(self)@)
                },
                Err(error) => after_lambda(old(self)@, *it, position) == Outcome::Err(error),
            },
        decreases *it, 0int,
    {
        proof {
            assert(after_lambda(self@, *it, position) == lambda_step(self@, *it, position));
        }
        let ghost start = self@;
        let params = it.signature.param_names();
        let info = collect_lambda_scope_info(&it.body, &params);
        let ghost info_view = info@;
        let mut child = self.new_function(&params, info, false, position)?;
        let ghost inner = child@;
        let value = child.prepare_expression(&it.body)?;
        let ghost ended = child@;
        proof {
            lemma_child_captures(start, params@, info_view, false, position, inner, ended);
        }
        let finalized = self.finalize_child_scope(child, &params, position, Ghost(start))?;
        let ghost closed_state = self@;
        let mut body: Vec<PreparedNode> = Vec::new();
        body.push(PreparedNode::Return(Some(value)));
        let def = self.prepare_synthetic_function(it.name_id, &it.signature, body, finalized, position, it.is_generator)?;
        proof {
            lemma_grows_transitive(start, closed_state, self@);
            assert(prepares_lambda(start, *it, position, def) == lambda_tree(start, *it, position, def));
        }
        Ok(def)
    }

    /// Prepares a generator expression: its outermost iterable here, the rest
    /// as a function that no name is bound to.
    #[verifier::rlimit(20)]
    pub fn prepare_generator_expression(&mut self, it: &GeneratorDef, position: CodeRange) -> (out: Result<
        (PreparedFunctionDef, PreparedExprLoc),
        ParseError,
    >)
        requires
            old(self).wf(),
        ensures
            match out {
                Ok((tree, iter)) => {
                    &&& final(self).wf()
                    &&& after_generator_def(old(self)@, *it, position) == Outcome::Ok(final(self)@)
                    &&& prepares_generator_def(old(self)@, *it, position, tree, iter)
                    &&& grows(old(self)@, final(self)@)
                },
                Err(error) => after_generator_def(old(self)@, *it, position) == Outcome::Err(error),
            },
        decreases *it, 0int,
    {
        proof {
            assert(after_generator_def(self@, *it, position) == generator_def_step(self@, *it, position));
        }
        let ghost before = self@;
        let iter = self.prepare_expression(&it.iter)?;
        let ghost start = self@;
        let params = it.signature.param_names();
        let info = collect_function_scope_info(&it.body, &params);
        let ghost info_view = info@;
        let mut child = self.new_function(&params, info, false, position)?;
        let ghost inner = child@;
        let body = child.prepare_nodes(&it.body)?;
        let ghost ended = child@;
        proof {
            lemma_child_captures(start, params@, info_view, false, position, inner, ended);
        }
        let finalized = self.finalize_child_scope(child, &params, position, Ghost(start))?;
        let ghost closed_state = self@;
        let def = self.prepare_synthetic_function(it.name_id, &it.signature, body, finalized, position, true)?;
        proof {
            lemma_grows_transitive(before, start, closed_state);
            lemma_grows_transitive(before, closed_state, self@);
            assert(prepares_generator_def(before, *it, position, def, iter) == generator_def_tree(
                before,
                *it,
                position,
                def,
                iter,
            ));
        }
        Ok((def, iter))
    }

    /// Puts together a function that the source never named, once its body is
    /// prepared. Its default values are prepared here.
    fn prepare_synthetic_function(
        &mut self,
        name_id: StringId,
        signature: &ParsedSignature,
        body: Vec<PreparedNode>,
        finalized: FinalizedScope,
        position: CodeRange,
        is_generator: bool,
    ) -> (out: Result<PreparedFunctionDef, ParseError>)
        requires
            old(self).wf(),
        ensures
            match out {
                Ok(tree) => {
                    &&& final(self).wf()
                    &&& after_defaults(old(self)@, *signature) == Outcome::Ok(final(self)@)
                    &&& prepares_defaults(old(self)@, *signature, tree.default_exprs@)
                    &&& describes_signature(*signature, tree.signature)
                    &&& tree.name == unbound_name(name_id, position)
                    &&& tree.body@ == body@
                    &&& tree.namespace_size == finalized.namespace_size
                    &&& tree.free_var_enclosing_slots@ == finalized.free_var_enclosing_slots@
                    &&& tree.free_var_slots@ == finalized.free_var_slots@
                    &&& tree.cell_var_slots@ == finalized.cell_var_slots@
                    &&& tree.cell_param_indices@ == finalized.cell_param_indices@
                    &&& !tree.is_async
                    &&& tree.is_generator == is_generator
                    &&& grows(old(self)@, final(self)@)
                },
                Err(error) => after_defaults(old(self)@, *signature) == Outcome::Err(error),
            },
        decreases *signature, 1int,
    {
        let default_exprs = self.prepare_defaults(signature)?;
        Ok(
            PreparedFunctionDef {
                name: ResolvedIdentifier { name_id, position, slot: 0, scope: NameScope::Local },
                signature: build_signature(signature),
                body,
                namespace_size: finalized.namespace_size,
                free_var_enclosing_slots: finalized.free_var_enclosing_slots,
                free_var_slots: finalized.free_var_slots,
                cell_var_slots: finalized.cell_var_slots,
                cell_param_indices: finalized.cell_param_indices,
                default_exprs,
                is_async: false,
                is_generator,
            },
        )
    }

    /// Finds the slot that each member has in the class body, and refuses a
    /// class that cannot be represented.
    fn place_members(&self, members: &Vec<Identifier>, position: CodeRange) -> (placed: Result<
        Vec<ResolvedIdentifier>,
        ParseError,
    >)
        requires
            self.wf(),
            self@.function is Some,
        ensures
            match class_error(self@, members@, position) {
                Some(error) => placed matches Err(e) && e == error,
                None => placed matches Ok(list) && list@ == placed_members(self@.function->0.locals, members@),
            },
    {
        match &self.function {
            None => Ok(Vec::new()),
            Some(state) => {
                let ghost f = state@;
                let mut list: Vec<ResolvedIdentifier> = Vec::new();
                let mut i: usize = 0;
                while i < members.len()
                    invariant
                        i <= members@.len(),
                        state.locals.wf(),
                        f == state@,
                        self@.function == Some(f),
                        first_unbound_member(f.locals, members@.take(i as int)) is None,
                        list@ == placed_members(f.locals, members@.take(i as int)),
                    decreases members@.len() - i,
                {
                    assert(members@.take(i + 1).drop_last() == members@.take(i as int));
                    match state.locals.get(members[i].name_id) {
                        Some(slot) => {
                            list.push(resolved_identifier(members[i], slot, NameScope::Local));
                            assert(list@ =~= placed_members(f.locals, members@.take(i + 1)));
                        },
                        None => {
                            proof {
                                lemma_unbound_member(f.locals, members@, i + 1);
                            }
                            return Err(
                                ParseError { kind: ParseErrorKind::UnboundClassMember(members[i].name_id), position },
                            );
                        },
                    }
                    i += 1;
                }
                assert(members@.take(i as int) == members@);
                let captured = state.cell_var_map.names();
                if captured.len() > 0 {
                    assert(captured@.to_set().contains(captured@[0]));
                    return Err(ParseError { kind: ParseErrorKind::ShadowingClassMember(captured[0]), position });
                }
                assert(f.cell_vars.dom() =~= Set::<StringId>::empty());
                Ok(list)
            },
        }
    }

    /// Prepares a class definition.
    #[verifier::rlimit(20)]
    pub fn prepare_class_def(&mut self, it: &ClassDef) -> (out: Result<PreparedClassDef, ParseError>)
        requires
            old(self).wf(),
        ensures
            match out {
                Ok(tree) => {
                    &&& final(self).wf()
                    &&& after_class_def(old(self)@, *it) == Outcome::Ok(final(self)@)
                    &&& prepares_class_def(old(self)@, *it, tree)
                    &&& grows(old(self)@, final(self)@)
                },
                Err(error) => after_class_def(old(self)@, *it) == Outcome::Err(error),
            },
        decreases *it, 0int,
    {
        proof {
            assert(after_class_def(self@, *it) == class_def_step(self@, *it));
        }
        let ghost start = self@;
        let name = self.bind_id(it.name)?;
        let ghost m1 = self@;
        let bases = self.prepare_exprs(&it.bases)?;
        let ghost m2 = self@;
        let decorators = self.prepare_exprs(&it.decorators)?;
        let ghost m3 = self@;
        let params: Vec<StringId> = Vec::new();
        let mut info = collect_function_scope_info(&it.body.body, &params);
        info.cell_var_names = NameSet::new();
        let ghost info_view = info@;
        proof {
            assert(params@ =~= Seq::<StringId>::empty());
            assert(info_view == class_scope_info(it.body.body@));
        }
        let mut child = self.new_function(&params, info, true, it.body.name.position)?;
        let ghost inner = child@;
        let body = child.prepare_nodes(&it.body.body)?;
        let ghost ended = child@;
        proof {
            lemma_child_captures(m3, params@, info_view, true, it.body.name.position, inner, ended);
        }
        let members = child.place_members(&it.members, it.position)?;
        let finalized = self.finalize_child_scope(child, &params, it.position, Ghost(m3))?;
        proof {
            lemma_grows_transitive(start, m1, m2);
            lemma_grows_transitive(start, m2, m3);
            lemma_grows_transitive(start, m3, self@);
        }
        let body_def = PreparedFunctionDef {
            name: ResolvedIdentifier {
                name_id: it.body.name.name_id,
                position: it.body.name.position,
                slot: 0,
                scope: NameScope::Local,
            },
            signature: empty_signature(),
            body,
            namespace_size: finalized.namespace_size,
            free_var_enclosing_slots: finalized.free_var_enclosing_slots,
            free_var_slots: finalized.free_var_slots,
            cell_var_slots: finalized.cell_var_slots,
            cell_param_indices: finalized.cell_param_indices,
            default_exprs: Vec::new(),
            is_async: false,
            is_generator: false,
        };
        let tree = PreparedClassDef { name, bases, body: body_def, members, decorators, position: it.position };
        proof {
            assert(prepares_class_def(start, *it, tree) == class_def_tree(start, *it, tree));
        }
        Ok(tree)
    }

    /// Prepares an exception handler. The name that it gives the exception is
    /// bound.
    pub fn prepare_except_handler(&mut self, it: &ExceptHandler) -> (out: Result<PreparedHandler, ParseError>)
        requires
            old(self).wf(),
        ensures
            match out {
                Ok(tree) => {
                    &&& final(self).wf()
                    &&& after_handler(old(self)@, *it) == Outcome::Ok(final(self)@)
                    &&& prepares_handler(old(self)@, *it, tree)
                    &&& grows(old(self)@, final(self)@)
                },
                Err(error) => after_handler(old(self)@, *it) == Outcome::Err(error),
            },
            out is Ok ==> bound_outside(old(self)@, declared_in_nodes(it.body@, Declaration::Nonlocal)),
        decreases *it, 0int,
    {
        let ghost start = self@;
        proof {
            lemma_grows_reflexive(self@);
            assert(after_handler(start, *it) == handler_step(start, *it));
        }
        let exc_type = match &it.exc_type {
            Some(inner) => Some(self.prepare_expression(inner)?),
            None => None,
        };
        let name = match it.name {
            Some(ident) => Some(self.bind_id(ident)?),
            None => None,
        };
        let body = self.prepare_nodes(&it.body)?;
        let tree = PreparedHandler { exc_type, name, body };
        proof {
            assert(prepares_handler(start, *it, tree) == handler_tree(start, *it, tree));
        }
        Ok(tree)
    }

    /// Prepares a raised expression. A bare builtin is called, so that what is
    /// raised is an instance.
    #[verifier::rlimit(20)]
    fn prepare_raised(&mut self, it: &ExprLoc) -> (out: Result<PreparedExprLoc, ParseError>)
        requires
            old(self).wf(),
        ensures
            match out {
                Ok(tree) => {
                    &&& final(self).wf()
                    &&& after_expr(old(self)@, *it) == Outcome::Ok(final(self)@)
                    &&& prepares_raised(old(self)@, *it, tree)
                    &&& grows(old(self)@, final(self)@)
                },
                Err(error) => after_expr(old(self)@, *it) == Outcome::Err(error),
            },
        decreases *it, 2int,
    {
        let prepared = self.prepare_expression(it)?;
        proof {
            assert(prepares_expr(old(self)@, *it, prepared) == expr_tree(old(self)@, *it, prepared));
        }
        match prepared.expr {
            PreparedExpr::Builtin(builtin) => Ok(
                PreparedExprLoc {
                    position: prepared.position,
                    expr: PreparedExpr::Call {
                        callable: PreparedCallable::Builtin(builtin),
                        args: Box::new(PreparedArgs::Empty),
                    },
                },
            ),
            expr => Ok(PreparedExprLoc { position: prepared.position, expr }),
        }
    }

    /// Prepares a statement that binds, rebinds or unbinds.
    #[verifier::rlimit(20)]
    fn prepare_binding(&mut self, it: &Node) -> (out: Result<Option<PreparedNode>, ParseError>)
        requires
            old(self).wf(),
            it is Assign
                || it is UnpackAssign
                || it is OpAssign
                || it is SubscriptOpAssign
                || it is SubscriptAssign
                || it is AttrOpAssign
                || it is AttrAssign
                || it is ChainAssign
                || it is Delete
                || it is TypeAlias,
        ensures
            match out {
                Ok(tree) => {
                    &&& final(self).wf()
                    &&& after_node(old(self)@, *it) == Outcome::Ok(final(self)@)
                    &&& prepares_node(old(self)@, *it, tree)
                    &&& grows(old(self)@, final(self)@)
                },
                Err(error) => after_node(old(self)@, *it) == Outcome::Err(error),
            },
            out is Ok ==> bound_outside(old(self)@, declared_in_node(*it, Declaration::Nonlocal)),
        decreases *it, 0int,
    {
        let ghost start = self@;
        proof {
            lemma_grows_reflexive(self@);
            assert(after_node(start, *it) == node_step(start, *it));
        }
        let tree = match it {
            Node::Assign { target, object } => {
                let object_out = self.prepare_expression(object)?;
                let target_out = self.bind_id(*target)?;
                self.note_member(target.name_id);
                Some(PreparedNode::Assign { target: target_out, object: object_out })
            },
            Node::UnpackAssign { targets, targets_position, object } => {
                let object_out = self.prepare_expression(object)?;
                let targets_out = self.prepare_unpack_targets(targets)?;
                Some(PreparedNode::UnpackAssign { targets: targets_out, targets_position: *targets_position, object: object_out })
            },
            Node::OpAssign { target, op, value } => {
                let target_out = self.bind_id(*target)?;
                let value_out = self.prepare_expression(value)?;
                Some(PreparedNode::OpAssign { target: target_out, op: *op, value: value_out })
            },
            Node::SubscriptOpAssign { target, index, op, value, target_position } => {
                let target_out = self.prepare_expression(target)?;
                let index_out = self.prepare_expression(index)?;
                let value_out = self.prepare_expression(value)?;
                Some(PreparedNode::SubscriptOpAssign { target: target_out, index: index_out, op: *op, value: value_out, target_position: *target_position })
            },
            Node::SubscriptAssign { target, index, value, target_position } => {
                let target_out = self.prepare_expression(target)?;
                let index_out = self.prepare_expression(index)?;
                let value_out = self.prepare_expression(value)?;
                Some(PreparedNode::SubscriptAssign { target: target_out, index: index_out, value: value_out, target_position: *target_position })
            },
            Node::AttrOpAssign { object, attr, op, value, target_position } => {
                let object_out = self.prepare_expression(object)?;
                let value_out = self.prepare_expression(value)?;
                Some(PreparedNode::AttrOpAssign { object: object_out, attr: *attr, op: *op, value: value_out, target_position: *target_position })
            },
            Node::AttrAssign { object, attr, target_position, value } => {
                let object_out = self.prepare_expression(object)?;
                let value_out = self.prepare_expression(value)?;
                Some(PreparedNode::AttrAssign { object: object_out, attr: *attr, target_position: *target_position, value: value_out })
            },
            Node::ChainAssign { targets, object } => {
                let object_out = self.prepare_expression(object)?;
                let targets_out = self.prepare_unpack_targets(targets)?;
                Some(PreparedNode::ChainAssign { targets: targets_out, object: object_out })
            },
            Node::Delete(targets) => {
                let targets_out = self.prepare_delete_targets(targets)?;
                Some(PreparedNode::Delete(targets_out))
            },
            Node::TypeAlias { name, value } => {
                let value_out = self.prepare_function_def(value)?;
                let name_out = self.bind_id(*name)?;
                self.note_member(name.name_id);
                Some(PreparedNode::TypeAlias { name: name_out, value: value_out })
            },
            _ => vstd::pervasive::unreached(),
        };
        proof {
            assert(prepares_node(start, *it, tree) == node_tree(start, *it, tree));
        }
        Ok(tree)
    }

    /// Prepares a statement that holds statements.
    #[verifier::rlimit(20)]
    fn prepare_block(&mut self, it: &Node) -> (out: Result<Option<PreparedNode>, ParseError>)
        requires
            old(self).wf(),
            it is For
                || it is While
                || it is If
                || it is With
                || it is Try,
        ensures
            match out {
                Ok(tree) => {
                    &&& final(self).wf()
                    &&& after_node(old(self)@, *it) == Outcome::Ok(final(self)@)
                    &&& prepares_node(old(self)@, *it, tree)
                    &&& grows(old(self)@, final(self)@)
                },
                Err(error) => after_node(old(self)@, *it) == Outcome::Err(error),
            },
            out is Ok ==> bound_outside(old(self)@, declared_in_node(*it, Declaration::Nonlocal)),
        decreases *it, 0int,
    {
        let ghost start = self@;
        proof {
            lemma_grows_reflexive(self@);
            assert(after_node(start, *it) == node_step(start, *it));
        }
        let tree = match it {
            Node::For { target, iter, body, or_else, is_async } => {
                let target_out = self.prepare_unpack_target(target)?;
                let iter_out = self.prepare_expression(iter)?;
                let body_out = self.prepare_nodes(body)?;
                let or_else_out = self.prepare_nodes(or_else)?;
                Some(PreparedNode::For { target: target_out, iter: iter_out, body: body_out, or_else: or_else_out, is_async: *is_async })
            },
            Node::While { test, body, or_else } => {
                let test_out = self.prepare_expression(test)?;
                let body_out = self.prepare_nodes(body)?;
                let or_else_out = self.prepare_nodes(or_else)?;
                Some(PreparedNode::While { test: test_out, body: body_out, or_else: or_else_out })
            },
            Node::If { test, body, or_else } => {
                let test_out = self.prepare_expression(test)?;
                let body_out = self.prepare_nodes(body)?;
                let or_else_out = self.prepare_nodes(or_else)?;
                Some(PreparedNode::If { test: test_out, body: body_out, or_else: or_else_out })
            },
            Node::With { context, target, body, position, is_async } => {
                let context_out = self.prepare_expression(context)?;
                let target_out = match target {
                    Some(inner) => Some(self.prepare_unpack_target(inner)?),
                    None => None,
                };
                let body_out = self.prepare_nodes(body)?;
                Some(PreparedNode::With { context: context_out, target: target_out, body: body_out, position: *position, is_async: *is_async })
            },
            Node::Try(block) => {
                let body = self.prepare_nodes(&block.body)?;
                let handlers = self.prepare_except_handlers(&block.handlers)?;
                let or_else = self.prepare_nodes(&block.or_else)?;
                let finally = self.prepare_nodes(&block.finally)?;
                Some(PreparedNode::Try(PreparedTry { body, handlers, or_else, finally }))
            },
            _ => vstd::pervasive::unreached(),
        };
        proof {
            assert(prepares_node(start, *it, tree) == node_tree(start, *it, tree));
        }
        Ok(tree)
    }

    /// Prepares a statement. One that leaves nothing to run yields nothing.
    #[verifier::rlimit(20)]
    fn prepare_node(&mut self, it: &Node) -> (out: Result<Option<PreparedNode>, ParseError>)
        requires
            old(self).wf(),
        ensures
            match out {
                Ok(tree) => {
                    &&& final(self).wf()
                    &&& after_node(old(self)@, *it) == Outcome::Ok(final(self)@)
                    &&& prepares_node(old(self)@, *it, tree)
                    &&& grows(old(self)@, final(self)@)
                },
                Err(error) => after_node(old(self)@, *it) == Outcome::Err(error),
            },
            out is Ok ==> bound_outside(old(self)@, declared_in_node(*it, Declaration::Nonlocal)),
        decreases *it, 1int,
    {
        let ghost start = self@;
        proof {
            lemma_grows_reflexive(self@);
            assert(after_node(start, *it) == node_step(start, *it));
        }
        let tree = match it {
            Node::Expr(expr) => {
                let expr_out = self.prepare_expression(expr)?;
                Some(PreparedNode::Expr(expr_out))
            },
            Node::Return(value) => {
                let value_out = match value {
                    Some(inner) => Some(self.prepare_expression(inner)?),
                    None => None,
                };
                Some(PreparedNode::Return(value_out))
            },
            Node::Assert { test, msg } => {
                let test_out = self.prepare_expression(test)?;
                let msg_out = match msg {
                    Some(inner) => Some(self.prepare_expression(inner)?),
                    None => None,
                };
                Some(PreparedNode::Assert { test: test_out, msg: msg_out })
            },
            Node::Break { position } => {
                Some(PreparedNode::Break { position: *position })
            },
            Node::Continue { position } => {
                Some(PreparedNode::Continue { position: *position })
            },
            Node::FunctionDef { def, decorators } => {
                let decorators_out = self.prepare_exprs(decorators)?;
                let def_out = self.prepare_function_def(def)?;
                self.note_member(def.name.name_id);
                Some(PreparedNode::FunctionDef { def: def_out, decorators: decorators_out })
            },
            Node::Import { names } => {
                let names_out = self.prepare_import_names(names)?;
                Some(PreparedNode::Import { names: names_out })
            },
            Node::ImportFrom { module_name, names, position } => {
                let names_out = self.prepare_import_from(names)?;
                Some(PreparedNode::ImportFrom { module_name: *module_name, names: names_out, position: *position })
            },
            Node::Pass => None,
            Node::Raise { exc, cause } => {
                let exc_out = match exc {
                    Some(inner) => Some(self.prepare_raised(inner)?),
                    None => None,
                };
                let cause_out = match cause {
                    Some(inner) => Some(self.prepare_expression(inner)?),
                    None => None,
                };
                Some(PreparedNode::Raise { exc: exc_out, cause: cause_out })
            },
            Node::ClassDef(def) => Some(PreparedNode::ClassDef(Box::new(self.prepare_class_def(def)?))),
            Node::Global { names, position } => {
                self.check_global(names, *position)?;
                None
            },
            Node::Nonlocal { names, position } => {
                self.check_nonlocal(names, *position)?;
                None
            },
            Node::Assign { .. }
            | Node::UnpackAssign { .. }
            | Node::OpAssign { .. }
            | Node::SubscriptOpAssign { .. }
            | Node::SubscriptAssign { .. }
            | Node::AttrOpAssign { .. }
            | Node::AttrAssign { .. }
            | Node::ChainAssign { .. }
            | Node::Delete(_)
            | Node::TypeAlias { .. } => {
                return self.prepare_binding(it);
            },
            Node::For { .. }
            | Node::While { .. }
            | Node::If { .. }
            | Node::With { .. }
            | Node::Try(_) => {
                return self.prepare_block(it);
            },
        };
        proof {
            assert(prepares_node(start, *it, tree) == node_tree(start, *it, tree));
        }
        Ok(tree)
    }

    /// Prepares a list of statements in source order.
    pub fn prepare_nodes(&mut self, list: &Vec<Node>) -> (out: Result<Vec<PreparedNode>, ParseError>)
        requires
            old(self).wf(),
        ensures
            match out {
                Ok(tree) => {
                    &&& final(self).wf()
                    &&& after_nodes(old(self)@, list@) == Outcome::Ok(final(self)@)
                    &&& prepares_nodes(old(self)@, list@, tree@)
                    &&& grows(old(self)@, final(self)@)
                },
                Err(error) => after_nodes(old(self)@, list@) == Outcome::Err(error),
            },
            out is Ok ==> bound_outside(old(self)@, declared_in_nodes(list@, Declaration::Nonlocal)),
        decreases list@, 0int,
    {
        let ghost start = self@;
        proof {
            lemma_grows_reflexive(start);
        }
        let mut trees: Vec<PreparedNode> = Vec::new();
        proof {
            let none = list@.take(0);
            assert(after_nodes(start, none) == nodes_step(start, none));
            assert(prepares_nodes(start, none, trees@) == nodes_tree(start, none, trees@));
        }
        let mut i: usize = 0;
        while i < list.len()
            invariant
                i <= list@.len(),
                start == old(self)@,
                self.wf(),
                after_nodes(start, list@.take(i as int)) == Outcome::Ok(self@),
                prepares_nodes(start, list@.take(i as int), trees@),
                grows(start, self@),
                bound_outside(start, declared_in_nodes(list@.take(i as int), Declaration::Nonlocal)),
            decreases list@.len() - i,
        {
            let ghost before = self@;
            let ghost longer = list@.take(i + 1);
            proof {
                assert(longer.drop_last() == list@.take(i as int));
                assert(longer.last() == list@[i as int]);
                assert(after_nodes(start, longer) == nodes_step(start, longer));
            }
            let step = self.prepare_node(&list[i]);
            match step {
                Ok(tree) => {
                    if let Some(inner) = tree {
                        let ghost earlier = trees@;
                        trees.push(inner);
                        assert(trees@.drop_last() == earlier);
                    }
                    assert(prepares_nodes(start, longer, trees@) == nodes_tree(start, longer, trees@));
                },
                Err(error) => {
                    proof {
                        lemma_nodes_error(start, list@, i + 1);
                    }
                    return Err(error);
                },
            }
            i += 1;
        }
        assert(list@.take(i as int) == list@);
        Ok(trees)
    }
}

impl FinalizedScope {
    /// The lists are those of the finished child scope.
    closed spec fn describes(&self, model: Model, child: Model, params: Seq<StringId>) -> bool {
        child.function matches Some(f) && {
            &&& cells_labelled(f)
            &&& free_var_lists(model, f.free_vars, self.free_var_slots@, self.free_var_enclosing_slots@)
            &&& cell_var_lists(f.cell_vars, params, self.cell_var_slots@, self.cell_param_indices@)
            &&& self.namespace_size == f.locals.len()
        }
    }
}

/// The name as resolved to a slot of the given scope.
fn resolved_identifier(ident: Identifier, slot: NamespaceId, scope: NameScope) -> (name: ResolvedIdentifier)
    ensures
        name == placed(ident, slot, scope),
{
    ResolvedIdentifier { name_id: ident.name_id, position: ident.position, slot, scope }
}

/// Once a capture finds no slot the rest does not matter.
proof fn lemma_bubbled_error(model: Model, names: Seq<StringId>, position: CodeRange, count: int)
    requires
        0 <= count <= names.len(),
        bubbled_all(model, names.take(count), position) is Err,
    ensures
        bubbled_all(model, names, position) == bubbled_all(model, names.take(count), position),
    decreases names.len() - count,
{
    if count < names.len() {
        assert(names.take(count + 1).drop_last() == names.take(count));
        lemma_bubbled_error(model, names, position, count + 1);
    } else {
        assert(names.take(count) == names);
    }
}

/// Once an assignment expression finds no slot the rest does not matter.
proof fn lemma_walrus_error(model: Model, names: Seq<StringId>, position: CodeRange, count: int)
    requires
        0 <= count <= names.len(),
        with_walrus_slots(model, names.take(count), position) is Err,
    ensures
        with_walrus_slots(model, names, position) == with_walrus_slots(model, names.take(count), position),
    decreases names.len() - count,
{
    reveal(with_walrus_slots);
    if count < names.len() {
        assert(names.take(count + 1).drop_last() == names.take(count));
        lemma_walrus_error(model, names, position, count + 1);
    } else {
        assert(names.take(count) == names);
    }
}

/// The first conflict is the one that counts.
proof fn lemma_global_conflict(model: Model, names: Seq<StringId>, count: int)
    requires
        0 <= count <= names.len(),
        global_conflict(model, names.take(count)) is Some,
    ensures
        global_conflict(model, names) == global_conflict(model, names.take(count)),
    decreases names.len() - count,
{
    if count < names.len() {
        assert(names.take(count + 1).drop_last() == names.take(count));
        lemma_global_conflict(model, names, count + 1);
    } else {
        assert(names.take(count) == names);
    }
}

/// The first conflict is the one that counts.
proof fn lemma_nonlocal_conflict(model: Model, f: FunctionModel, names: Seq<StringId>, count: int)
    requires
        0 <= count <= names.len(),
        nonlocal_conflict(model, f, names.take(count)) is Some,
    ensures
        nonlocal_conflict(model, f, names) == nonlocal_conflict(model, f, names.take(count)),
    decreases names.len() - count,
{
    if count < names.len() {
        assert(names.take(count + 1).drop_last() == names.take(count));
        lemma_nonlocal_conflict(model, f, names, count + 1);
    } else {
        assert(names.take(count) == names);
    }
}

/// The captures of a scope can be listed.
pub open spec fn captures_listed(info: ScopeInfo, enclosing: Set<StringId>) -> bool {
    let implicit = info.potential_captures.intersect(enclosing);
    in_order(info.nonlocal_names).to_set() == info.nonlocal_names && in_order(implicit).to_set() == implicit
}

/// The names that assignment expressions inside an expression bind.
fn assigned_names(it: &ExprLoc) -> (names: NameSet)
    ensures
        names@ == bound_in_expr(*it),
{
    let mut names = NameSet::new();
    collect_assigned_names_from_expr(it, &mut names);
    assert(names@ =~= bound_in_expr(*it));
    names
}

/// Adds the names that the filters of a list of clauses bind.
fn add_filter_names(list: &Vec<Comprehension>, names: &mut NameSet)
    ensures
        final(names)@ == old(names)@ + bound_in_filters(list@),
{
    let ghost start = names@;
    let mut i: usize = 0;
    while i < list.len()
        invariant
            i <= list@.len(),
            names@ == start + bound_in_filters(list@.take(i as int)),
        decreases list@.len() - i,
    {
        assert(list@.take(i + 1).drop_last() == list@.take(i as int));
        collect_assigned_names_from_exprs(&list[i].ifs, names);
        i += 1;
    }
    assert(list@.take(i as int) == list@);
}

/// A list with the same identifiers.
fn copy_ids(list: &Vec<StringId>) -> (copy: Vec<StringId>)
    ensures
        copy@ == list@,
{
    let mut copy: Vec<StringId> = Vec::new();
    let mut i: usize = 0;
    while i < list.len()
        invariant
            i <= list@.len(),
            copy@ == list@.take(i as int),
        decreases list@.len() - i,
    {
        copy.push(list[i]);
        i += 1;
        assert(copy@ =~= list@.take(i as int));
    }
    assert(list@.take(i as int) == list@);
    copy
}

/// The names of a list of parameters.
fn copy_param_names(params: &Vec<ParsedParam>) -> (names: Vec<StringId>)
    ensures
        names@ == names_of_params(params@),
{
    let mut names: Vec<StringId> = Vec::new();
    let mut i: usize = 0;
    while i < params.len()
        invariant
            i <= params@.len(),
            names@ == names_of_params(params@).take(i as int),
        decreases params@.len() - i,
    {
        names.push(params[i].name);
        i += 1;
        assert(names@ =~= names_of_params(params@).take(i as int));
    }
    assert(names_of_params(params@).take(i as int) == names_of_params(params@));
    names
}

/// How many of a list of parameters have a default value, and for each that
/// has one the number of those before it.
fn index_defaults(params: &Vec<ParsedParam>) -> (counted: (usize, Vec<Option<usize>>))
    ensures
        counted.0 == count_defaults(params@),
        counted.1@ == default_indices(params@),
{
    let mut count: usize = 0;
    let mut indices: Vec<Option<usize>> = Vec::new();
    let mut i: usize = 0;
    while i < params.len()
        invariant
            i <= params@.len(),
            count == count_defaults(params@.take(i as int)),
            count <= i,
            indices@ == default_indices(params@.take(i as int)),
        decreases params@.len() - i,
    {
        assert(params@.take(i + 1).drop_last() == params@.take(i as int));
        if params[i].default.is_some() {
            indices.push(Some(count));
            count += 1;
        } else {
            indices.push(None);
        }
        i += 1;
    }
    assert(params@.take(i as int) == params@);
    (count, indices)
}

/// The runtime signature of a parsed one.
fn build_signature(signature: &ParsedSignature) -> (out: Signature)
    ensures
        describes_signature(*signature, out),
{
    let (pos_defaults_count, _) = index_defaults(&signature.pos_args);
    let (arg_defaults_count, _) = index_defaults(&signature.args);
    let (_, kwarg_default_map) = index_defaults(&signature.kwargs);
    Signature {
        pos_args: copy_param_names(&signature.pos_args),
        pos_defaults_count,
        args: copy_param_names(&signature.args),
        arg_defaults_count,
        var_args: signature.var_args,
        kwargs: copy_param_names(&signature.kwargs),
        kwarg_default_map,
        var_kwargs: signature.var_kwargs,
    }
}

/// The signature of a function without parameters.
fn empty_signature() -> (out: Signature)
    ensures
        is_empty_signature(out),
{
    Signature {
        pos_args: Vec::new(),
        pos_defaults_count: 0,
        args: Vec::new(),
        arg_defaults_count: 0,
        var_args: None,
        kwargs: Vec::new(),
        kwarg_default_map: Vec::new(),
        var_kwargs: None,
    }
}

/// The first member without a slot is the one that counts.
proof fn lemma_unbound_member(locals: Seq<StringId>, members: Seq<Identifier>, count: int)
    requires
        0 <= count <= members.len(),
        first_unbound_member(locals, members.take(count)) is Some,
    ensures
        first_unbound_member(locals, members) == first_unbound_member(locals, members.take(count)),
    decreases members.len() - count,
{
    if count < members.len() {
        assert(members.take(count + 1).drop_last() == members.take(count));
        lemma_unbound_member(locals, members, count + 1);
    } else {
        assert(members.take(count) == members);
    }
}

/// Every name that a nested scope captures is one that the enclosing scope
/// can hand down, once the declarations in its body were found in order.
proof fn lemma_child_captures(
    model: Model,
    params: Seq<StringId>,
    info: ScopeInfo,
    is_class_scope: bool,
    position: CodeRange,
    inner: Model,
    ended: Model,
)
    requires
        opened(model, params, info, is_class_scope, position) == Outcome::Ok(inner),
        grows(inner, ended),
        bound_outside(inner, info.nonlocal_names),
        captures_listed(info, model.child_enclosing()),
    ensures
        ended.function is Some,
        ended.function->0.free_vars.dom().subset_of(model.child_enclosing()),
        cells_labelled(ended.function->0),
        keeps_slots(model.globals, ended.globals),
{
    reveal(grows);
    lemma_opened_labelled(params, info, model.child_enclosing(), position);
    reveal(opened);
    reveal(bound_outside);
    let enclosing = model.child_enclosing();
    let implicit = info.potential_captures.intersect(enclosing);
    let owned = info.cell_var_names.difference(info.nonlocal_names).difference(implicit);
    let slots = param_slots(params, position)->Ok_0;
    let (with_cells, _) = with_aliased_slots(slots, Map::empty(), in_order(owned), position)->Ok_0;
    let (with_nonlocals, declared) = with_aliased_slots(
        with_cells,
        Map::empty(),
        in_order(info.nonlocal_names),
        position,
    )->Ok_0;
    lemma_aliased_keys(with_cells, Map::empty(), in_order(info.nonlocal_names), position);
    lemma_aliased_keys(with_nonlocals, declared, in_order(implicit), position);
    let f = inner.function->0;
    let g = ended.function->0;
    assert forall|name: StringId| g.free_vars.dom().contains(name) implies enclosing.contains(name) by {
        assert(g.free_vars.contains_key(name));
        if f.free_vars.contains_key(name) {
            assert(f.free_vars.dom().contains(name));
        }
    }
}

/// Nothing changed is kept outside too.
proof fn lemma_grows_outside_reflexive(model: Model)
    requires
        model.comp_scopes.len() > 0,
    ensures
        grows_outside(model, model),
{
    reveal(grows);
}

/// Keeping outside is transitive.
proof fn lemma_grows_outside_transitive(a: Model, b: Model, c: Model)
    requires
        grows_outside(a, b),
        grows_outside(b, c),
    ensures
        grows_outside(a, c),
{
    lemma_grows_transitive(without_comp_scope(a, 0), without_comp_scope(b, 0), without_comp_scope(c, 0));
}

/// What is kept is kept outside the innermost comprehension.
proof fn lemma_grows_inside(before: Model, after: Model)
    requires
        grows(before, after),
        before.comp_scopes.len() > 0,
    ensures
        grows_outside(before, after),
{
    reveal(grows);
    let a = before.comp_scopes;
    let b = after.comp_scopes;
    assert forall|i: int| 0 <= i < a.drop_last().len() implies {
        &&& a.drop_last()[i].order == (#[trigger] b.drop_last()[i]).order
        &&& a.drop_last()[i].bindings.dom() == b.drop_last()[i].bindings.dom()
        &&& forall|name: StringId| #[trigger]
            a.drop_last()[i].bindings.contains_key(name) ==> {
                &&& a.drop_last()[i].bindings[name].slot == b.drop_last()[i].bindings[name].slot
                &&& a.drop_last()[i].bindings[name].captured ==> b.drop_last()[i].bindings[name].captured
            }
    } by {
        assert(a.drop_last()[i] == a[i]);
        assert(b.drop_last()[i] == b[i]);
    }
}

/// Entering a comprehension keeps what is outside of it.
proof fn lemma_enter_comprehension(start: Model, entered: Model)
    requires
        exists|m: Model| grows(start, m) && entered == with_comp_scope(m),
    ensures
        entered.comp_scopes.len() > 0,
        grows(start, without_comp_scope(entered, start.comp_var_depth)),
{
    reveal(grows);
    let m = choose|m: Model| grows(start, m) && entered == with_comp_scope(m);
    assert(entered.comp_scopes.drop_last() =~= m.comp_scopes);
    assert(without_comp_scope(entered, start.comp_var_depth) == m);
}

/// What is kept inside a comprehension is kept when it is left.
proof fn lemma_outside(start: Model, entered: Model, last: Model)
    requires
        entered.comp_scopes.len() > 0,
        grows(start, without_comp_scope(entered, start.comp_var_depth)),
        grows_outside(entered, last),
    ensures
        last.comp_scopes.len() > 0,
        grows(start, without_comp_scope(last, start.comp_var_depth)),
{
    reveal(grows);
    lemma_grows_transitive(
        start,
        without_comp_scope(entered, start.comp_var_depth),
        without_comp_scope(last, start.comp_var_depth),
    );
}

/// Leaving a comprehension keeps what was there before it was entered.
proof fn lemma_leave_comprehension(start: Model, inside: Model, last: Model)
    requires
        inside.comp_scopes.len() > 0,
        grows(start, without_comp_scope(inside, start.comp_var_depth)),
        grows(inside, last),
    ensures
        last.comp_scopes.len() > 0,
        grows(start, without_comp_scope(last, start.comp_var_depth)),
{
    lemma_grows_inside(inside, last);
    lemma_outside(start, inside, last);
}

/// A parsed program: its statements and the strings interned while parsing.
pub struct ParseResult {
    pub nodes: Vec<Node>,
    pub interner: InternerBuilder,
}

/// Everything that compilation needs of a prepared program.
pub struct PrepareResult {
    /// The namespace of the module. Its length is the size of the namespace
    /// and the slot that the next new name gets.
    pub globals: NameMap,
    /// The statements with every name resolved.
    pub nodes: Vec<PreparedNode>,
    /// The interned strings.
    pub interner: InternerBuilder,
}

/// The statements of a module, of which a last expression is returned unless
/// it is the constant `None`.
pub open spec fn with_returned_value(nodes: Seq<PreparedNode>) -> Seq<PreparedNode> {
    if nodes.len() > 0 && (nodes.last() matches PreparedNode::Expr(value) && !value.expr.is_none_spec()) {
        nodes.drop_last().push(PreparedNode::Return(Some(nodes.last()->Expr_0)))
    } else {
        nodes
    }
}

/// The prepared statements are what preparation makes of `nodes` when it
/// starts in state `start`.
pub open spec fn prepares_module(start: Model, nodes: Seq<Node>, out: Seq<PreparedNode>) -> bool {
    exists|tree: Seq<PreparedNode>| #[trigger]
        prepares_nodes(start, nodes, tree) && out == with_returned_value(tree)
}

/// Prepares a program on top of an existing namespace.
///
/// Names that have a slot keep it and new names get new slots, so programs
/// prepared one after the other share one namespace.
pub fn prepare_with_existing_names(
    parse_result: ParseResult,
    globals: NameMap,
    builtins: &BuiltinTable,
) -> (result: Result<PrepareResult, ParseError>)
    requires
        globals.wf(),
    ensures
        ({
            let start = module_start(parse_result.interner@, builtins@, globals@);
            match after_nodes(start, parse_result.nodes@) {
                Ok(model) => {
                    &&& result matches Ok(done)
                    &&& done.globals.wf()
                    &&& done.globals@ == model.globals
                    &&& keeps_slots(globals@, done.globals@)
                    &&& new_names_get_new_slots(globals@, done.globals@)
                    &&& done.interner@ == parse_result.interner@
                    &&& prepares_module(start, parse_result.nodes@, done.nodes@)
                },
                Err(error) => result matches Err(e) && e == error,
            }
        }),
{
    let interner = parse_result.interner;
    let mut prepare = Prepare::new_module(globals, &interner, builtins);
    let ghost start = prepare@;
    let mut nodes = prepare.prepare_nodes(&parse_result.nodes)?;
    proof {
        reveal(grows);
    }
    let ghost tree = nodes@;
    let names = prepare.globals;
    proof {
        names.lemma_slots_fit();
        assert forall|name: StringId| #[trigger] known_or_new(globals@, names@, name) by {
            if first_slot(globals@, name) is Some {
                lemma_slots_stay(globals@, names@, name);
            } else {
                lemma_new_names_get_new_slots(globals@, names@, name);
            }
        }
    }
    match nodes.pop() {
        Some(PreparedNode::Expr(value)) => {
            if value.expr.is_none() {
                nodes.push(PreparedNode::Expr(value));
            } else {
                nodes.push(PreparedNode::Return(Some(value)));
            }
        },
        Some(node) => {
            nodes.push(node);
        },
        None => {},
    }
    proof {
        assert(nodes@ =~= with_returned_value(tree));
        assert(prepares_nodes(start, parse_result.nodes@, tree));
    }
    Ok(PrepareResult { globals: names, nodes, interner })
}

/// The interned strings with `text` among them.
pub open spec fn interned(strings: Seq<Seq<char>>, text: Seq<char>) -> Seq<Seq<char>> {
    match position_of(strings, text) {
        Some(_) => strings,
        None => strings.push(text),
    }
}

/// The identifier of `text` once it is interned.
pub open spec fn interned_id(strings: Seq<Seq<char>>, text: Seq<char>) -> StringId {
    match position_of(strings, text) {
        Some(i) => i as StringId,
        None => strings.len() as StringId,
    }
}

/// The interned strings and the namespace after each of `names` was interned
/// and given a slot.
pub open spec fn with_input_names(strings: Seq<Seq<char>>, names: Seq<Seq<char>>) -> Result<
    (Seq<Seq<char>>, Seq<StringId>),
    ParseError,
>
    decreases names.len(),
{
    if names.len() == 0 {
        Ok((strings, Seq::empty()))
    } else {
        match with_input_names(strings, names.drop_last()) {
            Err(error) => Err(error),
            Ok((before, slots)) => match with_slot(slots, interned_id(before, names.last()), CodeRange::nowhere()) {
                Err(error) => Err(error),
                Ok(all) => Ok((interned(before, names.last()), all)),
            },
        }
    }
}

/// Slot `i` is labelled by name `i`.
pub open spec fn labelled(strings: Seq<Seq<char>>, slots: Seq<StringId>, names: Seq<Seq<char>>, i: int) -> bool {
    slots[i] < strings.len() && strings[slots[i] as int] == names[i]
}

/// Input names that differ from each other own the first slots, in order.
pub proof fn law_input_names_own_first_slots(strings: Seq<Seq<char>>, names: Seq<Seq<char>>)
    requires
        names.no_duplicates(),
        strings.len() + names.len() < u32::MAX,
    ensures
        with_input_names(strings, names) matches Ok((after, slots)) ==> slots.len() == names.len() && (forall|i: int|
            0 <= i < names.len() ==> #[trigger] labelled(after, slots, names, i)) && strings.len() <= after.len() <= strings.len() + names.len() && slots.len() <= NamespaceId::MAX + 1,
    decreases names.len(),
{
    if names.len() > 0 {
        let front = names.drop_last();
        law_input_names_own_first_slots(strings, front);
        if let Ok((before, slots)) = with_input_names(strings, front) {
            let text = names.last();
            let id = interned_id(before, text);
            let after = interned(before, text);
            lemma_position_of(before, text);
            assert(after[id as int] == text);
            lemma_first_slot(slots, id);
            if first_slot(slots, id) is Some {
                let k = first_slot(slots, id)->0 as int;
                assert(labelled(before, slots, front, k));
                assert(names[k] == front[k]);
                assert(names[k] == names[names.len() - 1]);
                assert(false);
            }
            if let Ok((last, all)) = with_input_names(strings, names) {
                assert(all == slots.push(id));
                assert(last == after);
                assert(all.len() == names.len());
                assert(strings.len() <= last.len() <= strings.len() + names.len());
                assert(all.len() <= NamespaceId::MAX + 1);
                assert forall|i: int| 0 <= i < names.len() implies #[trigger] labelled(last, all, names, i) by {
                    if i < front.len() {
                        assert(front[i] == names[i]);
                        assert(labelled(before, slots, front, i));
                    } else {
                        assert(all[i] == id);
                    }
                }
            }
        } else {
            assert(with_input_names(strings, names) is Err);
        }
    } else {
        assert(with_input_names(strings, names) == Ok::<_, ParseError>((strings, Seq::<StringId>::empty())));
    }
}

/// Interns the input names and gives each a slot, in order.
pub fn build_initial_globals(input_names: &Vec<String>, interner: &mut InternerBuilder) -> (globals: Result<
    NameMap,
    ParseError,
>)
    requires
        old(interner)@.len() + input_names@.len() < u32::MAX,
    ensures
        match with_input_names(old(interner)@, texts(input_names@)) {
            Ok((strings, slots)) => {
                &&& globals matches Ok(map)
                &&& map.wf()
                &&& map@ == slots
                &&& final(interner)@ == strings
            },
            Err(error) => globals matches Err(e) && e == error,
        },
{
    let mut globals = NameMap::new();
    let ghost start = interner@;
    let ghost names = texts(input_names@);
    let mut i: usize = 0;
    while i < input_names.len()
        invariant
            i <= input_names@.len(),
            start == old(interner)@,
            names == texts(input_names@),
            start.len() + input_names@.len() < u32::MAX,
            interner@.len() <= start.len() + i,
            globals.wf(),
            with_input_names(start, names.take(i as int)) == Ok::<_, ParseError>((interner@, globals@)),
        decreases input_names@.len() - i,
    {
        assert(names.take(i + 1).drop_last() == names.take(i as int));
        let id = interner.intern(input_names[i].as_str());
        match globals.ensure_slot(id, CodeRange::default()) {
            Ok(_) => {},
            Err(error) => {
                proof {
                    lemma_input_names_error(start, names, i + 1);
                }
                return Err(error);
            },
        }
        i += 1;
    }
    assert(names.take(i as int) == names);
    Ok(globals)
}

/// Once slots have run out the rest does not matter.
proof fn lemma_input_names_error(strings: Seq<Seq<char>>, names: Seq<Seq<char>>, count: int)
    requires
        0 <= count <= names.len(),
        with_input_names(strings, names.take(count)) is Err,
    ensures
        with_input_names(strings, names) == with_input_names(strings, names.take(count)),
    decreases names.len() - count,
{
    if count < names.len() {
        assert(names.take(count + 1).drop_last() == names.take(count));
        lemma_input_names_error(strings, names, count + 1);
    } else {
        assert(names.take(count) == names);
    }
}

/// Prepares a program whose namespace starts with the input names.
///
/// Interned strings and input names must together stay below the number of
/// identifiers that there are.
pub fn prepare(parse_result: ParseResult, input_names: Vec<String>, builtins: &BuiltinTable) -> (result: Result<
    PrepareResult,
    ParseError,
>)
    requires
        parse_result.interner@.len() + input_names@.len() < u32::MAX,
    ensures
        match with_input_names(parse_result.interner@, texts(input_names@)) {
            Err(error) => result matches Err(e) && e == error,
            Ok((strings, slots)) => {
                let start = module_start(strings, builtins@, slots);
                match after_nodes(start, parse_result.nodes@) {
                    Ok(model) => {
                        &&& result matches Ok(done)
                        &&& done.globals.wf()
                        &&& done.globals@ == model.globals
                        &&& keeps_slots(slots, done.globals@)
                        &&& done.interner@ == strings
                        &&& prepares_module(start, parse_result.nodes@, done.nodes@)
                    },
                    Err(error) => result matches Err(e) && e == error,
                }
            },
        },
{
    let nodes = parse_result.nodes;
    let mut interner = parse_result.interner;
    let globals = build_initial_globals(&input_names, &mut interner)?;
    prepare_with_existing_names(ParseResult { nodes, interner }, globals, builtins)
}

/// The target of an assignment expression never lies in a comprehension.
pub proof fn law_walrus_binds_outside(model: Model, ident: Identifier)
    ensures
        stored_by_walrus(model, ident) matches Ok((after, name)) ==> name.scope != NameScope::CompVar
            && after.comp_scopes == model.comp_scopes,
{
    reveal(stored_by_walrus);
    reveal(resolved);
}

/// Inside a comprehension its targets shadow every other binding of the name,
/// also that of a builtin.
pub proof fn law_comprehension_target_shadows(model: Model, ident: Identifier)
    requires
        comp_binding(model.comp_scopes, ident.name_id) is Some,
    ensures
        resolved_read(model, ident) matches Ok((_, PreparedCallable::Name(name))) && name.scope == NameScope::CompVar
            && name.slot == comp_binding(model.comp_scopes, ident.name_id)->0.slot,
{
    reveal(resolved_read);
    reveal(resolved);
}

/// A name that is read stands for a builtin only at module level, and only
/// where no scope binds it.
pub proof fn law_builtins_come_last(model: Model, ident: Identifier)
    ensures
        resolved_read(model, ident) matches Ok((_, PreparedCallable::Builtin(_))) ==> {
            &&& model.function is None
            &&& !model.assigned.contains(ident.name_id)
            &&& first_slot(model.globals, ident.name_id) is None
            &&& comp_binding(model.comp_scopes, ident.name_id) is None
        },
{
    reveal(resolved_read);
}

/// A program that is nothing but a name which has a slot returns what the slot
/// holds: a snippet reads what the ones before it have bound.
pub proof fn law_known_names_are_read_from_their_slots(
    strings: Seq<Seq<char>>,
    builtins: Seq<Seq<char>>,
    globals: Seq<StringId>,
    ident: Identifier,
    position: CodeRange,
    out: Seq<PreparedNode>,
)
    requires
        first_slot(globals, ident.name_id) is Some,
        prepares_module(
            module_start(strings, builtins, globals),
            seq![Node::Expr(ExprLoc { position, expr: Expr::Name(ident) })],
            out,
        ),
    ensures
        out.len() == 1,
        out[0] matches PreparedNode::Return(Some(value)) && (value.expr matches PreparedExpr::Name(name) && Some(name.slot)
            == first_slot(globals, ident.name_id)),
{
    let start = module_start(strings, builtins, globals);
    let nodes = seq![Node::Expr(ExprLoc { position, expr: Expr::Name(ident) })];
    let tree = choose|tree: Seq<PreparedNode>| #[trigger]
        prepares_nodes(start, nodes, tree) && out == with_returned_value(tree);
    let value = lemma_one_expression(start, ExprLoc { position, expr: Expr::Name(ident) }, tree);
    lemma_read_name(start, position, ident, value);
    lemma_known_name(start, ident);
}

/// A program that is one expression is prepared to one.
#[verifier::spinoff_prover]
proof fn lemma_one_expression(start: Model, expr: ExprLoc, tree: Seq<PreparedNode>) -> (value: PreparedExprLoc)
    requires
        prepares_nodes(start, seq![Node::Expr(expr)], tree),
    ensures
        tree == seq![PreparedNode::Expr(value)],
        prepares_expr(start, expr, value),
{
    let none = Seq::<Node>::empty();
    let nodes = none.push(Node::Expr(expr));
    assert(nodes =~= seq![Node::Expr(expr)]);
    assert(nodes.drop_last() =~= none);
    reveal_with_fuel(prepares_nodes, 3);
    reveal_with_fuel(nodes_tree, 3);
    reveal_with_fuel(after_nodes, 2);
    reveal_with_fuel(nodes_step, 2);
    assert(after_nodes(start, none) == Ok::<Model, ParseError>(start));
    assert(prepares_nodes(start, none, tree.drop_last()));
    let value = lemma_expression_statement(start, expr, Some(tree.last()));
    assert(tree =~= seq![PreparedNode::Expr(value)]);
    value
}

/// A statement that is an expression is prepared to one.
#[verifier::spinoff_prover]
proof fn lemma_expression_statement(start: Model, expr: ExprLoc, out: Option<PreparedNode>) -> (value: PreparedExprLoc)
    requires
        prepares_node(start, Node::Expr(expr), out),
    ensures
        out == Some(PreparedNode::Expr(value)),
        prepares_expr(start, expr, value),
{
    assert(node_tree(start, Node::Expr(expr), out));
    match out {
        Some(PreparedNode::Expr(value)) => value,
        _ => arbitrary(),
    }
}

/// A name that is read is prepared to what it resolves to.
#[verifier::spinoff_prover]
proof fn lemma_read_name(start: Model, position: CodeRange, ident: Identifier, out: PreparedExprLoc)
    requires
        prepares_expr(start, ExprLoc { position, expr: Expr::Name(ident) }, out),
    ensures
        resolved_read(start, ident) matches Ok((_, PreparedCallable::Name(name))) ==> out.expr == PreparedExpr::Name(name),
{
    assert(expr_tree(start, ExprLoc { position, expr: Expr::Name(ident) }, out));
}

/// A name that the module has bound resolves to its slot there.
proof fn lemma_known_name(start: Model, ident: Identifier)
    requires
        start.function is None,
        start.comp_scopes.len() == 0,
        first_slot(start.globals, ident.name_id) is Some,
    ensures
        resolved_read(start, ident) matches Ok((_, PreparedCallable::Name(name))) && Some(name.slot) == first_slot(
            start.globals,
            ident.name_id,
        ),
{
    reveal(resolved_read);
    reveal(resolved);
    let after = Model { used: start.used.insert(ident.name_id), ..start };
    assert(comp_binding(after.comp_scopes, ident.name_id) is None);
    assert(resolved(after, ident, true) == resolved_global(after, ident));
}

/// A name that a function declares global lies in the namespace of the
/// module, where no comprehension binds it.
pub proof fn law_declared_globals_are_global(model: Model, ident: Identifier, is_read: bool)
    requires
        model.function is Some,
        model.function->0.global_names.contains(ident.name_id),
        comp_binding(model.comp_scopes, ident.name_id) is None,
    ensures
        resolved(model, ident, is_read) matches Ok((_, name)) ==> name.scope == NameScope::Global,
{
    reveal(resolved);
}

/// A scope nested in a class body cannot capture a member of the class: what
/// it can capture comes from outside the class or from a comprehension.
pub proof fn law_class_members_are_not_captured(model: Model, name: StringId)
    requires
        model.is_class_scope,
        model.function is Some,
        model.child_enclosing().contains(name),
    ensures
        model.function->0.free_vars.contains_key(name) || model.function->0.enclosing_locals.contains(name)
            || comp_binding(model.comp_scopes, name) is Some,
{
    lemma_comp_names(model.comp_scopes, name);
}

/// The lists of a closure are aligned: one cell for each slot of a captured
/// variable and one entry for each slot of an own cell. The slots are in
/// strictly ascending order, and slots of the function.
pub proof fn law_closure_lists_align(model: Model, child: Model, params: Seq<StringId>, out: PreparedFunctionDef)
    requires
        describes_closure(model, child, params, out),
    ensures
        out.free_var_slots@.len() == out.free_var_enclosing_slots@.len(),
        out.cell_var_slots@.len() == out.cell_param_indices@.len(),
        forall|i: int, j: int|
            0 <= i < j < out.free_var_slots@.len() ==> out.free_var_slots@[i] < out.free_var_slots@[j],
        forall|i: int, j: int|
            0 <= i < j < out.cell_var_slots@.len() ==> out.cell_var_slots@[i] < out.cell_var_slots@[j],
        forall|i: int|
            0 <= i < out.free_var_slots@.len() ==> (#[trigger] out.free_var_slots@[i]) < out.namespace_size,
        forall|i: int|
            0 <= i < out.cell_var_slots@.len() ==> (#[trigger] out.cell_var_slots@[i]) < out.namespace_size,
{
    reveal(cells_labelled);
    let f = child.function->0;
    let captured = choose|names: Seq<StringId>| #[trigger]
        by_slot(f.free_vars, names) && out.free_var_slots@ == names.map_values(|name: StringId| f.free_vars[name])
            && out.free_var_enclosing_slots@ == names.map_values(|name: StringId| capture_source(model, name));
    lemma_labelled_slots_ascend(f.locals, f.free_vars, captured, out.free_var_slots@);
    let owned = choose|names: Seq<StringId>| #[trigger]
        by_slot(f.cell_vars, names) && out.cell_var_slots@ == names.map_values(|name: StringId| f.cell_vars[name])
            && out.cell_param_indices@ == names.map_values(|name: StringId| param_index(params, name));
    lemma_labelled_slots_ascend(f.locals, f.cell_vars, owned, out.cell_var_slots@);
}

/// A method of a name that nothing binds is not called: the statement is
/// refused, and the error names it.
pub proof fn law_undefined_objects_are_refused(model: Model, it: ExprLoc, ident: Identifier)
    requires
        it.expr matches Expr::AttrCall { object, .. } && object.expr == Expr::Name(ident),
        nothing_binds(model, ident.name_id),
    ensures
        after_expr(model, it) == Outcome::Err(
            ParseError { kind: ParseErrorKind::UndefinedName(ident.name_id), position: ident.position },
        ),
{
    reveal(undefined_object);
    assert(after_expr(model, it) == expr_step(model, it));
}

/// The lists of a template that line up still do once it was prepared: there is
/// one more string than there are interpolations.
pub proof fn law_templates_stay_aligned(model: Model, it: ExprLoc, out: PreparedExprLoc)
    requires
        it.expr matches Expr::TString(template) && template.strings@.len() == template.interpolations@.len() + 1,
        prepares_expr(model, it, out),
    ensures
        out.expr matches PreparedExpr::TString(template) && template.strings@.len() == template.interpolations@.len() + 1,
{
    assert(prepares_expr(model, it, out) == expr_tree(model, it, out));
    if let (Expr::TString(raw), PreparedExpr::TString(prepared)) = (it.expr, out.expr) {
        let (list, made) = (raw.interpolations@, prepared.interpolations@);
        assert(prepares_interpolations(model, list, made) == interpolations_tree(model, list, made));
    }
}

/// The parameters of a function own its first slots, in order.
pub proof fn law_params_own_first_slots(
    params: Seq<StringId>,
    info: ScopeInfo,
    enclosing: Set<StringId>,
    position: CodeRange,
)
    ensures
        opened_function(params, info, enclosing, position) matches Ok(f) ==> keeps_slots(params, f.locals)
            && params.no_duplicates(),
{
    lemma_param_slots(params, position);
    if let Ok(slots) = param_slots(params, position) {
        let implicit = info.potential_captures.intersect(enclosing);
        let owned = info.cell_var_names.difference(info.nonlocal_names).difference(implicit);
        lemma_aliased_keep(slots, Map::empty(), in_order(owned), position);
        if let Ok((with_cells, _)) = with_aliased_slots(slots, Map::empty(), in_order(owned), position) {
            lemma_aliased_keep(with_cells, Map::empty(), in_order(info.nonlocal_names), position);
            if let Ok((with_nonlocals, declared)) = with_aliased_slots(
                with_cells,
                Map::empty(),
                in_order(info.nonlocal_names),
                position,
            ) {
                lemma_aliased_keep(with_nonlocals, declared, in_order(implicit), position);
            }
        }
    }
}

/// The namespace of the parameters is the list of the parameters.
proof fn lemma_param_slots(params: Seq<StringId>, position: CodeRange)
    ensures
        param_slots(params, position) matches Ok(slots) ==> slots == params && params.no_duplicates() && params.len()
            <= NamespaceId::MAX + 1,
    decreases params.len(),
{
    if params.len() > 0 {
        let front = params.drop_last();
        lemma_param_slots(front, position);
        if let Ok(slots) = param_slots(params, position) {
            lemma_first_slot(front, params.last());
            assert(params == front.push(params.last()));
            assert forall|i: int, j: int| 0 <= i < params.len() && 0 <= j < params.len() && i != j implies params[i]
                != params[j] by {
                if i < front.len() && j < front.len() {
                    assert(front[i] != front[j]);
                } else if i < front.len() {
                    assert(front[i] != params.last());
                } else {
                    assert(front[j] != params.last());
                }
            }
        }
    }
}

/// Slots of their own go behind the others.
proof fn lemma_aliased_keep(
    slots: Seq<StringId>,
    cells: Map<StringId, NamespaceId>,
    names: Seq<StringId>,
    position: CodeRange,
)
    ensures
        with_aliased_slots(slots, cells, names, position) matches Ok((all, _)) ==> keeps_slots(slots, all),
    decreases names.len(),
{
    if names.len() > 0 {
        lemma_aliased_keep(slots, cells, names.drop_last(), position);
    }
}

} // verus!
