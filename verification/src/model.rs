//! The state of preparation as a mathematical value, and what the basic steps
//! do to it.

use crate::ast::{Expr, ExprLoc, Identifier};
use crate::intern::{builtin_named, Builtins};
use crate::name_map::{first_slot, keeps_slots, lemma_first_slot, overflow_error, with_new_slot, with_slot};
use crate::names::{in_order, CompBinding, CompScope, NamespaceId, StringId};
use crate::parse::{CodeRange, ParseError, ParseErrorKind};
use crate::prepared::{CaptureSource, NameScope, PreparedCallable, ResolvedIdentifier};
use crate::scope::ScopeInfo;
use vstd::prelude::*;

verus! {

/// What only the scope of a function has.
#[verifier::ext_equal]
pub struct FunctionModel {
    /// The namespace of the function.
    pub locals: Seq<StringId>,
    /// Names declared global.
    pub global_names: Set<StringId>,
    /// Names that the body binds.
    pub assigned_names: Set<StringId>,
    /// Names that some enclosing scope can hand down.
    pub enclosing_locals: Set<StringId>,
    /// Captured variables, with the slot that holds the cell.
    pub free_vars: Map<StringId, NamespaceId>,
    /// Locals that nested scopes capture, with the slot that holds the cell.
    pub cell_vars: Map<StringId, NamespaceId>,
}

/// The state of preparation in one scope.
#[verifier::ext_equal]
pub struct Model {
    /// The interned strings.
    pub strings: Seq<Seq<char>>,
    /// The names of the builtins.
    pub builtins: Seq<Seq<char>>,
    /// The namespace of the module.
    pub globals: Seq<StringId>,
    /// What a function scope has; absent at module level.
    pub function: Option<FunctionModel>,
    /// Names bound so far.
    pub assigned: Set<StringId>,
    /// Names read so far.
    pub used: Set<StringId>,
    /// The number of comprehension slots in use.
    pub comp_var_depth: u16,
    /// The active comprehensions, from the outermost to the innermost.
    pub comp_scopes: Seq<CompScope>,
    /// Whether the scope is the body of a class.
    pub is_class_scope: bool,
    /// The class members bound so far.
    pub bound_members: Set<StringId>,
}

/// The state after a step, or the error that ends preparation.
pub type Outcome = Result<Model, ParseError>;

/// The state that preparation of a module starts with.
pub open spec fn module_start(strings: Seq<Seq<char>>, builtins: Seq<Seq<char>>, globals: Seq<StringId>) -> Model {
    Model {
        strings,
        builtins,
        globals,
        function: None,
        assigned: Set::empty(),
        used: Set::empty(),
        comp_var_depth: 0,
        comp_scopes: Seq::empty(),
        is_class_scope: false,
        bound_members: Set::empty(),
    }
}

/// The binding of `name` in the innermost comprehension that has one.
pub open spec fn comp_binding(scopes: Seq<CompScope>, name: StringId) -> Option<CompBinding>
    decreases scopes.len(),
{
    if scopes.len() == 0 {
        None
    } else if scopes.last().bindings.contains_key(name) {
        Some(scopes.last().bindings[name])
    } else {
        comp_binding(scopes.drop_last(), name)
    }
}

/// The comprehensions after the innermost binding of `name` was captured.
pub open spec fn with_captured(scopes: Seq<CompScope>, name: StringId) -> Seq<CompScope>
    decreases scopes.len(),
{
    if scopes.len() == 0 {
        scopes
    } else if scopes.last().bindings.contains_key(name) {
        let binding = scopes.last().bindings[name];
        scopes.drop_last().push(scopes.last().bind(name, CompBinding { captured: true, ..binding }))
    } else {
        with_captured(scopes.drop_last(), name).push(scopes.last())
    }
}

/// Every name that some active comprehension binds.
pub open spec fn comp_names(scopes: Seq<CompScope>) -> Set<StringId>
    decreases scopes.len(),
{
    if scopes.len() == 0 {
        Set::empty()
    } else {
        comp_names(scopes.drop_last()) + scopes.last().bindings.dom()
    }
}

impl Model {
    /// The state after `name` was recorded as bound.
    pub open spec fn mark_assigned(self, name: StringId) -> Model {
        Model { assigned: self.assigned.insert(name), ..self }
    }

    /// The state after `name` was recorded as a bound member of the class,
    /// where the scope is the body of one.
    pub open spec fn mark_member(self, name: StringId) -> Model {
        if self.is_class_scope {
            Model { bound_members: self.bound_members.insert(name), ..self }
        } else {
            self
        }
    }

    /// Names that a scope nested in this one may capture.
    ///
    /// At module level these are the targets of active comprehensions. A
    /// function adds what it binds and what it can capture itself; a class
    /// body adds only what it captures or can capture, never its members. In
    /// both, a name that is declared global is no candidate.
    pub open spec fn child_enclosing(self) -> Set<StringId> {
        (match self.function {
            None => Set::empty(),
            Some(f) => if self.is_class_scope {
                (f.free_vars.dom() + f.enclosing_locals).difference(f.global_names)
            } else {
                (f.assigned_names + f.locals.to_set() + f.enclosing_locals).difference(f.global_names)
            },
        }) + comp_names(self.comp_scopes)
    }
}

/// The name as resolved to a slot of the given scope.
pub open spec fn placed(ident: Identifier, slot: NamespaceId, scope: NameScope) -> ResolvedIdentifier {
    ResolvedIdentifier { name_id: ident.name_id, position: ident.position, slot, scope }
}

/// Resolution of a name to a module slot.
pub open spec fn resolved_global(model: Model, ident: Identifier) -> Result<(Model, ResolvedIdentifier), ParseError> {
    match with_slot(model.globals, ident.name_id, ident.position) {
        Err(error) => Err(error),
        Ok(slots) => Ok(
            (
                Model { globals: slots, ..model },
                placed(ident, first_slot(slots, ident.name_id)->0, NameScope::Global),
            ),
        ),
    }
}

/// Resolution of a name inside a function that binds it in some way.
pub open spec fn resolved_in_function(model: Model, f: FunctionModel, ident: Identifier) -> Result<
    (Model, ResolvedIdentifier),
    ParseError,
> {
    let name = ident.name_id;
    if f.global_names.contains(name) {
        resolved_global(model, ident)
    } else if f.free_vars.contains_key(name) {
        Ok((model, placed(ident, f.free_vars[name], NameScope::Cell)))
    } else if f.cell_vars.contains_key(name) {
        Ok((model, placed(ident, f.cell_vars[name], NameScope::Cell)))
    } else if f.assigned_names.contains(name) {
        match with_slot(f.locals, name, ident.position) {
            Err(error) => Err(error),
            Ok(slots) => Ok(
                (
                    Model { function: Some(FunctionModel { locals: slots, ..f }), ..model },
                    placed(ident, first_slot(slots, name)->0, NameScope::Local),
                ),
            ),
        }
    } else if first_slot(f.locals, name) is Some {
        Ok((model, placed(ident, first_slot(f.locals, name)->0, NameScope::Local)))
    } else if f.enclosing_locals.contains(name) {
        match with_slot(f.locals, name, ident.position) {
            Err(error) => Err(error),
            Ok(slots) => {
                let slot = first_slot(slots, name)->0;
                Ok(
                    (
                        Model {
                            function: Some(
                                FunctionModel {
                                    locals: slots,
                                    free_vars: f.free_vars.insert(name, slot),
                                    ..f
                                },
                            ),
                            ..model
                        },
                        placed(ident, slot, NameScope::Cell),
                    ),
                )
            },
        }
    } else {
        resolved_global(model, ident)
    }
}

/// Resolution of a name: the state afterwards, and the name with its slot.
///
/// The first that applies decides: an active comprehension binds the name;
/// the name is read in a class body whose binding of it stands further down;
/// the scope is the module; the function declares the name global, captures
/// it, lends it to nested scopes, binds it, or has it as a parameter; an
/// enclosing scope binds it, which makes it a capture; else it is global.
#[verifier::opaque]
pub open spec fn resolved(model: Model, ident: Identifier, is_read: bool) -> Result<
    (Model, ResolvedIdentifier),
    ParseError,
> {
    match comp_binding(model.comp_scopes, ident.name_id) {
        Some(binding) => Ok((model, placed(ident, binding.slot, NameScope::CompVar))),
        None => match model.function {
            None => resolved_global(model, ident),
            Some(f) => if is_read && model.is_class_scope && !model.bound_members.contains(ident.name_id)
                && f.assigned_names.contains(ident.name_id) {
                resolved_global(model, ident)
            } else {
                resolved_in_function(model, f, ident)
            },
        },
    }
}

/// Resolution of the target of an assignment expression, which no
/// comprehension can shadow.
pub open spec fn resolved_for_store(model: Model, ident: Identifier) -> Result<
    (Model, ResolvedIdentifier),
    ParseError,
> {
    match resolved(Model { comp_scopes: Seq::empty(), ..model }, ident, false) {
        Err(error) => Err(error),
        Ok((after, name)) => Ok((Model { comp_scopes: model.comp_scopes, ..after }, name)),
    }
}

/// Resolution of a name that is bound: it counts as bound from here on.
#[verifier::opaque]
pub open spec fn stored(model: Model, ident: Identifier) -> Result<(Model, ResolvedIdentifier), ParseError> {
    resolved(model.mark_assigned(ident.name_id), ident, false)
}

/// Resolution of the target of an assignment expression, which counts as
/// bound from here on.
#[verifier::opaque]
pub open spec fn stored_by_walrus(model: Model, ident: Identifier) -> Result<(Model, ResolvedIdentifier), ParseError> {
    resolved_for_store(model.mark_assigned(ident.name_id), ident)
}

/// The builtin that a name stands for as long as nothing rebinds it.
pub open spec fn builtin_for(model: Model, name: StringId) -> Option<Builtins> {
    if name < model.strings.len() {
        builtin_named(model.builtins, model.strings[name as int])
    } else {
        None
    }
}

/// Resolution of a name that is read: a builtin at module level where neither
/// an active comprehension nor the module has bound the name, else a slot.
#[verifier::opaque]
pub open spec fn resolved_read(model: Model, ident: Identifier) -> Result<(Model, PreparedCallable), ParseError> {
    let name = ident.name_id;
    let after = Model { used: model.used.insert(name), ..model };
    let unbound = model.function is None && comp_binding(model.comp_scopes, name) is None && !model.assigned.contains(
        name,
    ) && first_slot(model.globals, name) is None;
    if unbound && builtin_for(model, name) is Some {
        Ok((after, PreparedCallable::Builtin(builtin_for(model, name)->0)))
    } else {
        match resolved(after, ident, true) {
            Err(error) => Err(error),
            Ok((last, resolved_name)) => Ok((last, PreparedCallable::Name(resolved_name))),
        }
    }
}

/// Nothing binds a name: it is no builtin, and neither a comprehension, nor
/// the current scope, nor one around it, nor the module binds it.
pub open spec fn nothing_binds(model: Model, name: StringId) -> bool {
    &&& builtin_for(model, name) is None
    &&& comp_binding(model.comp_scopes, name) is None
    &&& first_slot(model.globals, name) is None
    &&& !model.assigned.contains(name)
    &&& model.function matches Some(f) ==> {
        &&& !f.free_vars.contains_key(name)
        &&& !f.cell_vars.contains_key(name)
        &&& !f.assigned_names.contains(name)
        &&& first_slot(f.locals, name) is None
        &&& !f.enclosing_locals.contains(name)
    }
}

/// The error of calling a method of an object that is a name which nothing
/// binds.
///
/// Only what was bound so far counts. So the body of a function is refused too
/// where it calls a method of a name that the module binds further down, or of
/// one that only the host knows.
#[verifier::opaque]
pub open spec fn undefined_object(model: Model, object: ExprLoc) -> Option<ParseError> {
    match object.expr {
        Expr::Name(ident) => if nothing_binds(model, ident.name_id) {
            Some(ParseError { kind: ParseErrorKind::UndefinedName(ident.name_id), position: ident.position })
        } else {
            None
        },
        _ => None,
    }
}

/// The first reason why `names` may not be declared global here.
pub open spec fn global_conflict(model: Model, names: Seq<StringId>) -> Option<ParseErrorKind>
    decreases names.len(),
{
    if names.len() == 0 || model.function is None {
        None
    } else {
        match global_conflict(model, names.drop_last()) {
            Some(kind) => Some(kind),
            None => if model.assigned.contains(names.last()) {
                Some(ParseErrorKind::AssignedBeforeGlobal(names.last()))
            } else if model.used.contains(names.last()) {
                Some(ParseErrorKind::UsedBeforeGlobal(names.last()))
            } else {
                None
            },
        }
    }
}

/// The first reason why `names` may not be declared nonlocal in function `f`.
pub open spec fn nonlocal_conflict(model: Model, f: FunctionModel, names: Seq<StringId>) -> Option<ParseErrorKind>
    decreases names.len(),
{
    if names.len() == 0 {
        None
    } else {
        match nonlocal_conflict(model, f, names.drop_last()) {
            Some(kind) => Some(kind),
            None => if model.assigned.contains(names.last()) {
                Some(ParseErrorKind::AssignedBeforeNonlocal(names.last()))
            } else if model.used.contains(names.last()) {
                Some(ParseErrorKind::UsedBeforeNonlocal(names.last()))
            } else if !f.enclosing_locals.contains(names.last()) {
                Some(ParseErrorKind::NoBindingForNonlocal(names.last()))
            } else {
                None
            },
        }
    }
}

/// The state after a slot of the current scope was asked for.
pub open spec fn with_scope_slot(model: Model, name: StringId, position: CodeRange) -> Outcome {
    match model.function {
        None => match with_slot(model.globals, name, position) {
            Err(error) => Err(error),
            Ok(slots) => Ok(Model { globals: slots, ..model }),
        },
        Some(f) => match with_slot(f.locals, name, position) {
            Err(error) => Err(error),
            Ok(slots) => Ok(Model { function: Some(FunctionModel { locals: slots, ..f }), ..model }),
        },
    }
}

/// The state after the targets of assignment expressions inside a
/// comprehension were given their slots outside of it.
#[verifier::opaque]
pub open spec fn with_walrus_slots(model: Model, names: Seq<StringId>, position: CodeRange) -> Outcome
    decreases names.len(),
{
    if names.len() == 0 {
        Ok(model)
    } else {
        match with_walrus_slots(model, names.drop_last(), position) {
            Err(error) => Err(error),
            Ok(before) => match with_scope_slot(before, names.last(), position) {
                Err(error) => Err(error),
                Ok(after) => Ok(after.mark_assigned(names.last())),
            },
        }
    }
}

/// The state inside a new comprehension.
pub open spec fn with_comp_scope(model: Model) -> Model {
    Model { comp_scopes: model.comp_scopes.push(CompScope::empty()), ..model }
}

/// The state outside the innermost comprehension, whose slots are free again
/// from `depth` on.
pub open spec fn without_comp_scope(model: Model, depth: u16) -> Model {
    Model { comp_scopes: model.comp_scopes.drop_last(), comp_var_depth: depth, ..model }
}

/// A comprehension target bound in the innermost comprehension: the slot that
/// the name has there, else the next one.
#[verifier::opaque]
pub open spec fn bound_comp_var(model: Model, ident: Identifier) -> Result<(Model, ResolvedIdentifier), ParseError> {
    let top = model.comp_scopes.last();
    if top.bindings.contains_key(ident.name_id) {
        Ok((model, placed(ident, top.bindings[ident.name_id].slot, NameScope::CompVar)))
    } else if model.comp_var_depth == u16::MAX {
        Err(overflow_error(ident.position))
    } else {
        let slot = model.comp_var_depth;
        Ok(
            (
                Model {
                    comp_var_depth: (slot + 1) as u16,
                    comp_scopes: model.comp_scopes.drop_last().push(
                        top.bind(ident.name_id, CompBinding { slot, captured: false }),
                    ),
                    ..model
                },
                placed(ident, slot, NameScope::CompVar),
            ),
        )
    }
}

/// The namespace of a function whose parameters are `params`.
pub open spec fn param_slots(params: Seq<StringId>, position: CodeRange) -> Result<Seq<StringId>, ParseError>
    decreases params.len(),
{
    if params.len() == 0 {
        Ok(Seq::empty())
    } else {
        match param_slots(params.drop_last(), position) {
            Err(error) => Err(error),
            Ok(slots) => if first_slot(slots, params.last()) is Some {
                Err(ParseError { kind: ParseErrorKind::DuplicateArgument(params.last()), position })
            } else {
                with_slot(slots, params.last(), position)
            },
        }
    }
}

/// A namespace and a map after each of `names` got a slot of its own.
pub open spec fn with_aliased_slots(
    slots: Seq<StringId>,
    cells: Map<StringId, NamespaceId>,
    names: Seq<StringId>,
    position: CodeRange,
) -> Result<(Seq<StringId>, Map<StringId, NamespaceId>), ParseError>
    decreases names.len(),
{
    if names.len() == 0 {
        Ok((slots, cells))
    } else {
        match with_aliased_slots(slots, cells, names.drop_last(), position) {
            Err(error) => Err(error),
            Ok((front, map)) => match with_new_slot(front, names.last(), position) {
                Err(error) => Err(error),
                Ok(all) => Ok((all, map.insert(names.last(), front.len() as NamespaceId))),
            },
        }
    }
}

/// The function state that a scope starts with: its namespace holds the
/// parameters, then the cells that it owns, then the cells that it captures,
/// first those that it declares nonlocal.
pub open spec fn opened_function(
    params: Seq<StringId>,
    info: ScopeInfo,
    enclosing: Set<StringId>,
    position: CodeRange,
) -> Result<FunctionModel, ParseError> {
    let implicit = info.potential_captures.intersect(enclosing);
    let owned = info.cell_var_names.difference(info.nonlocal_names).difference(implicit);
    match param_slots(params, position) {
        Err(error) => Err(error),
        Ok(slots) => match with_aliased_slots(slots, Map::empty(), in_order(owned), position) {
            Err(error) => Err(error),
            Ok((with_cells, cell_vars)) => match with_aliased_slots(
                with_cells,
                Map::empty(),
                in_order(info.nonlocal_names),
                position,
            ) {
                Err(error) => Err(error),
                Ok((with_nonlocals, declared)) => match with_aliased_slots(
                    with_nonlocals,
                    declared,
                    in_order(implicit),
                    position,
                ) {
                    Err(error) => Err(error),
                    Ok((locals, free_vars)) => Ok(
                        FunctionModel {
                            locals,
                            global_names: info.global_names,
                            assigned_names: info.assigned_names,
                            enclosing_locals: enclosing,
                            free_vars,
                            cell_vars,
                        },
                    ),
                },
            },
        },
    }
}

/// The state that preparation of a nested scope starts with.
#[verifier::opaque]
pub open spec fn opened(
    model: Model,
    params: Seq<StringId>,
    info: ScopeInfo,
    is_class_scope: bool,
    position: CodeRange,
) -> Outcome {
    match opened_function(params, info, model.child_enclosing(), position) {
        Err(error) => Err(error),
        Ok(function) => Ok(
            Model {
                strings: model.strings,
                builtins: model.builtins,
                globals: model.globals,
                function: Some(function),
                assigned: Set::empty(),
                used: Set::empty(),
                comp_var_depth: 0,
                comp_scopes: Seq::empty(),
                is_class_scope,
                bound_members: Set::empty(),
            },
        ),
    }
}

/// The state after a nested scope turned out to capture `name`: the innermost
/// comprehension that binds it marks it; else a function that binds it owns
/// its cell, and one that does not captures it in turn.
pub open spec fn bubbled(model: Model, name: StringId, position: CodeRange) -> Outcome {
    if comp_binding(model.comp_scopes, name) is Some {
        Ok(Model { comp_scopes: with_captured(model.comp_scopes, name), ..model })
    } else {
        match model.function {
            None => Ok(model),
            Some(f) => if f.cell_vars.contains_key(name) || f.free_vars.contains_key(name) {
                Ok(model)
            } else {
                match with_slot(f.locals, name, position) {
                    Err(error) => Err(error),
                    Ok(slots) => {
                        let slot = first_slot(slots, name)->0;
                        let after = if f.assigned_names.contains(name) || first_slot(f.locals, name) is Some {
                            FunctionModel { locals: slots, cell_vars: f.cell_vars.insert(name, slot), ..f }
                        } else {
                            FunctionModel { locals: slots, free_vars: f.free_vars.insert(name, slot), ..f }
                        };
                        Ok(Model { function: Some(after), ..model })
                    },
                }
            },
        }
    }
}

/// The state after a nested scope turned out to capture each of `names`.
pub open spec fn bubbled_all(model: Model, names: Seq<StringId>, position: CodeRange) -> Outcome
    decreases names.len(),
{
    if names.len() == 0 {
        Ok(model)
    } else {
        match bubbled_all(model, names.drop_last(), position) {
            Err(error) => Err(error),
            Ok(before) => bubbled(before, names.last(), position),
        }
    }
}

/// The state after a nested scope that ended in state `child` was closed.
#[verifier::opaque]
pub open spec fn closed(model: Model, child: Model, position: CodeRange) -> Outcome {
    match child.function {
        None => Ok(model),
        Some(f) => bubbled_all(
            Model { globals: child.globals, ..model },
            in_order(f.free_vars.dom()),
            position,
        ),
    }
}

/// The cell that a nested scope takes for a captured name.
pub open spec fn capture_source(model: Model, name: StringId) -> CaptureSource {
    match comp_binding(model.comp_scopes, name) {
        Some(binding) => CaptureSource::CompVar(binding.slot),
        None => match model.function {
            Some(f) => if f.cell_vars.contains_key(name) {
                CaptureSource::Namespace(f.cell_vars[name])
            } else {
                CaptureSource::Namespace(f.free_vars[name])
            },
            None => CaptureSource::Namespace(first_slot(model.globals, name)->0),
        },
    }
}

/// A cell for `name` is at hand in this scope.
pub open spec fn has_cell(model: Model, name: StringId) -> bool {
    ||| comp_binding(model.comp_scopes, name) is Some
    ||| (model.function matches Some(f) && (f.cell_vars.contains_key(name) || f.free_vars.contains_key(name)))
}

/// `names` lists the keys of `map` in ascending order of their slots.
pub open spec fn by_slot(map: Map<StringId, NamespaceId>, names: Seq<StringId>) -> bool {
    &&& names.no_duplicates()
    &&& names.to_set() == map.dom()
    &&& forall|i: int, j: int| 0 <= i < j < names.len() ==> map[names[i]] <= map[names[j]]
}

/// The two lists pair the slot of each captured variable with the cell that
/// goes there, in ascending order of slots.
pub open spec fn free_var_lists(
    model: Model,
    free_vars: Map<StringId, NamespaceId>,
    slots: Seq<NamespaceId>,
    sources: Seq<CaptureSource>,
) -> bool {
    exists|names: Seq<StringId>| #[trigger]
        by_slot(free_vars, names) && slots == names.map_values(|name: StringId| free_vars[name]) && sources
            == names.map_values(|name: StringId| capture_source(model, name))
}

/// The position of `name` among `params`.
pub open spec fn param_index(params: Seq<StringId>, name: StringId) -> Option<usize>
    decreases params.len(),
{
    if params.len() == 0 {
        None
    } else if params.last() == name {
        Some((params.len() - 1) as usize)
    } else {
        param_index(params.drop_last(), name)
    }
}

/// The two lists pair the slot of each owned cell with the parameter that it
/// starts from, in ascending order of slots.
pub open spec fn cell_var_lists(
    cell_vars: Map<StringId, NamespaceId>,
    params: Seq<StringId>,
    slots: Seq<NamespaceId>,
    indices: Seq<Option<usize>>,
) -> bool {
    exists|names: Seq<StringId>| #[trigger]
        by_slot(cell_vars, names) && slots == names.map_values(|name: StringId| cell_vars[name]) && indices
            == names.map_values(|name: StringId| param_index(params, name))
}

/// The comprehensions bind the same names to the same slots; what was captured
/// stays captured.
pub open spec fn same_bindings(before: Seq<CompScope>, after: Seq<CompScope>) -> bool {
    &&& before.len() == after.len()
    &&& forall|i: int|
        0 <= i < before.len() ==> {
            &&& before[i].order == (#[trigger] after[i]).order
            &&& before[i].bindings.dom() == after[i].bindings.dom()
            &&& forall|name: StringId| #[trigger]
                before[i].bindings.contains_key(name) ==> {
                    &&& before[i].bindings[name].slot == after[i].bindings[name].slot
                    &&& before[i].bindings[name].captured ==> after[i].bindings[name].captured
                }
        }
}

/// Every entry of `before` is one of `after`.
pub open spec fn keeps_entries(before: Map<StringId, NamespaceId>, after: Map<StringId, NamespaceId>) -> bool {
    forall|name: StringId| #[trigger]
        before.contains_key(name) ==> after.contains_key(name) && before[name] == after[name]
}

/// What every step of preparation keeps in a function scope: slots stay where
/// they are, captures and cells are only added, and a capture is added only
/// for a name that an enclosing scope can hand down.
pub open spec fn function_grows(before: FunctionModel, after: FunctionModel) -> bool {
    &&& keeps_slots(before.locals, after.locals)
    &&& before.global_names == after.global_names
    &&& before.assigned_names == after.assigned_names
    &&& before.enclosing_locals == after.enclosing_locals
    &&& keeps_entries(before.free_vars, after.free_vars)
    &&& keeps_entries(before.cell_vars, after.cell_vars)
    &&& forall|name: StringId| #[trigger]
        after.free_vars.contains_key(name) ==> before.free_vars.contains_key(name)
            || before.enclosing_locals.contains(name)
    &&& cells_labelled(before) ==> cells_labelled(after)
}

/// Every slot of a map is one that its name labels.
pub open spec fn labels(locals: Seq<StringId>, map: Map<StringId, NamespaceId>) -> bool {
    forall|name: StringId| #[trigger]
        map.contains_key(name) ==> map[name] < locals.len() && locals[map[name] as int] == name
}

/// The captures and the cells of a function stand at slots of its own, each at
/// one that its name labels.
#[verifier::opaque]
pub open spec fn cells_labelled(f: FunctionModel) -> bool {
    &&& f.locals.len() <= NamespaceId::MAX + 1
    &&& labels(f.locals, f.free_vars)
    &&& labels(f.locals, f.cell_vars)
}

/// A function that asks for a slot still has its captures and cells at slots
/// that their names label, with the name among them or not.
pub proof fn lemma_labelled_slot(f: FunctionModel, name: StringId, position: CodeRange)
    requires
        with_slot(f.locals, name, position) is Ok,
        cells_labelled(f),
    ensures
        ({
            let slots = with_slot(f.locals, name, position)->Ok_0;
            let slot = first_slot(slots, name)->0;
            &&& cells_labelled(FunctionModel { locals: slots, ..f })
            &&& cells_labelled(FunctionModel { locals: slots, cell_vars: f.cell_vars.insert(name, slot), ..f })
            &&& cells_labelled(FunctionModel { locals: slots, free_vars: f.free_vars.insert(name, slot), ..f })
        }),
{
    reveal(cells_labelled);
    let slots = with_slot(f.locals, name, position)->Ok_0;
    assert(slots.len() <= NamespaceId::MAX + 1);
    lemma_first_slot(slots, name);
    lemma_first_slot(f.locals, name);
    assert(slots.contains(name)) by {
        if first_slot(f.locals, name) is None {
            assert(slots[slots.len() - 1] == name);
        }
    }
}

/// Slots of their own are labelled by their names.
proof fn lemma_aliased_labels(
    slots: Seq<StringId>,
    cells: Map<StringId, NamespaceId>,
    names: Seq<StringId>,
    position: CodeRange,
)
    requires
        slots.len() <= NamespaceId::MAX + 1,
        labels(slots, cells),
    ensures
        with_aliased_slots(slots, cells, names, position) matches Ok((all, map)) ==> {
            &&& all.len() <= NamespaceId::MAX + 1
            &&& labels(all, map)
            &&& keeps_slots(slots, all)
        },
    decreases names.len(),
{
    if names.len() > 0 {
        lemma_aliased_labels(slots, cells, names.drop_last(), position);
    }
}

/// Parameters take no more slots than there can be.
proof fn lemma_param_slots_fit(params: Seq<StringId>, position: CodeRange)
    ensures
        param_slots(params, position) matches Ok(slots) ==> slots.len() <= NamespaceId::MAX + 1,
    decreases params.len(),
{
    if params.len() > 0 {
        lemma_param_slots_fit(params.drop_last(), position);
    }
}

/// A scope starts with its captures and cells at slots that their names label.
pub proof fn lemma_opened_labelled(
    params: Seq<StringId>,
    info: ScopeInfo,
    enclosing: Set<StringId>,
    position: CodeRange,
)
    ensures
        opened_function(params, info, enclosing, position) matches Ok(f) ==> cells_labelled(f),
{
    reveal(cells_labelled);
    let implicit = info.potential_captures.intersect(enclosing);
    let owned = info.cell_var_names.difference(info.nonlocal_names).difference(implicit);
    lemma_param_slots_fit(params, position);
    if let Ok(slots) = param_slots(params, position) {
        lemma_aliased_labels(slots, Map::empty(), in_order(owned), position);
        if let Ok((with_cells, cell_vars)) = with_aliased_slots(slots, Map::empty(), in_order(owned), position) {
            lemma_aliased_labels(with_cells, Map::empty(), in_order(info.nonlocal_names), position);
            if let Ok((with_nonlocals, declared)) = with_aliased_slots(
                with_cells,
                Map::empty(),
                in_order(info.nonlocal_names),
                position,
            ) {
                lemma_aliased_labels(with_nonlocals, declared, in_order(implicit), position);
            }
        }
    }
}

/// Slots in ascending order that names label are in strictly ascending order,
/// and there are as many names.
pub proof fn lemma_labelled_slots_ascend(
    locals: Seq<StringId>,
    map: Map<StringId, NamespaceId>,
    names: Seq<StringId>,
    slots: Seq<NamespaceId>,
)
    requires
        labels(locals, map),
        by_slot(map, names),
        slots == names.map_values(|name: StringId| map[name]),
    ensures
        forall|i: int, j: int| 0 <= i < j < slots.len() ==> slots[i] < slots[j],
        forall|i: int| 0 <= i < slots.len() ==> (#[trigger] slots[i]) < locals.len(),
{
    assert forall|i: int| 0 <= i < slots.len() implies (#[trigger] slots[i]) < locals.len() && locals[slots[i] as int]
        == names[i] by {
        assert(names.to_set().contains(names[i]));
        assert(map.dom().contains(names[i]));
        assert(map.contains_key(names[i]));
    }
    assert forall|i: int, j: int| 0 <= i < j < slots.len() implies slots[i] < slots[j] by {
        assert(slots[i] == map[names[i]] && slots[j] == map[names[j]]);
        assert(names[i] != names[j]);
        assert(locals[slots[i] as int] == names[i] && locals[slots[j] as int] == names[j]);
    }
}

/// What every step inside a comprehension keeps outside of it.
pub open spec fn grows_outside(before: Model, after: Model) -> bool {
    &&& before.comp_scopes.len() > 0
    &&& before.comp_scopes.len() == after.comp_scopes.len()
    &&& grows(without_comp_scope(before, 0), without_comp_scope(after, 0))
}

/// Every one of `names` is bound in a scope that encloses the function.
#[verifier::opaque]
pub open spec fn bound_outside(model: Model, names: Set<StringId>) -> bool {
    model.function matches Some(f) ==> names.subset_of(f.enclosing_locals)
}

/// What every step of preparation keeps.
#[verifier::opaque]
pub open spec fn grows(before: Model, after: Model) -> bool {
    &&& before.strings == after.strings
    &&& before.builtins == after.builtins
    &&& keeps_slots(before.globals, after.globals)
    &&& before.is_class_scope == after.is_class_scope
    &&& before.comp_var_depth == after.comp_var_depth
    &&& same_bindings(before.comp_scopes, after.comp_scopes)
    &&& before.assigned.subset_of(after.assigned)
    &&& before.used.subset_of(after.used)
    &&& before.bound_members.subset_of(after.bound_members)
    &&& match (before.function, after.function) {
        (None, None) => true,
        (Some(f), Some(g)) => function_grows(f, g),
        _ => false,
    }
}

/// Keeping is transitive.
pub proof fn lemma_grows_transitive(a: Model, b: Model, c: Model)
    requires
        grows(a, b),
        grows(b, c),
    ensures
        grows(a, c),
{
    reveal(grows);
    assert forall|i: int| 0 <= i < a.globals.len() implies a.globals[i] == #[trigger] c.globals[i] by {
        assert(a.globals[i] == b.globals[i]);
    }
    assert forall|i: int| 0 <= i < a.comp_scopes.len() implies {
        &&& a.comp_scopes[i].order == (#[trigger] c.comp_scopes[i]).order
        &&& a.comp_scopes[i].bindings.dom() == c.comp_scopes[i].bindings.dom()
        &&& forall|name: StringId| #[trigger]
            a.comp_scopes[i].bindings.contains_key(name) ==> {
                &&& a.comp_scopes[i].bindings[name].slot == c.comp_scopes[i].bindings[name].slot
                &&& a.comp_scopes[i].bindings[name].captured ==> c.comp_scopes[i].bindings[name].captured
            }
    } by {
        assert(a.comp_scopes[i].order == b.comp_scopes[i].order);
        assert forall|name: StringId| #[trigger] a.comp_scopes[i].bindings.contains_key(name) implies {
            &&& a.comp_scopes[i].bindings[name].slot == c.comp_scopes[i].bindings[name].slot
            &&& a.comp_scopes[i].bindings[name].captured ==> c.comp_scopes[i].bindings[name].captured
        } by {
            assert(b.comp_scopes[i].bindings.contains_key(name));
        }
    }
    match (a.function, b.function, c.function) {
        (Some(f), Some(g), Some(h)) => {
            assert forall|i: int| 0 <= i < f.locals.len() implies f.locals[i] == #[trigger] h.locals[i] by {
                assert(f.locals[i] == g.locals[i]);
            }
            assert forall|name: StringId| #[trigger]
                h.free_vars.contains_key(name) implies f.free_vars.contains_key(name)
                || f.enclosing_locals.contains(name) by {
                if g.free_vars.contains_key(name) {
                }
            }
            assert(function_grows(f, h));
        },
        _ => {},
    }
}

/// Keeping is transitive.
pub broadcast proof fn lemma_grows_chain(a: Model, b: Model, c: Model)
    requires
        #[trigger] grows(a, b),
        #[trigger] grows(b, c),
    ensures
        grows(a, c),
{
    lemma_grows_transitive(a, b, c);
}

/// What is bound outside together was bound outside each for itself.
pub broadcast proof fn lemma_bound_outside_union(model: Model, a: Set<StringId>, b: Set<StringId>)
    requires
        bound_outside(model, a),
        bound_outside(model, b),
    ensures
        #[trigger] bound_outside(model, a + b),
{
    reveal(bound_outside);
}

/// No name at all is bound outside.
pub broadcast proof fn lemma_bound_outside_empty(model: Model)
    ensures
        #[trigger] bound_outside(model, Set::empty()),
{
    reveal(bound_outside);
}

/// What is bound outside later was bound outside before.
pub broadcast proof fn lemma_bound_outside_grows(before: Model, after: Model, names: Set<StringId>)
    requires
        #[trigger] grows(before, after),
        #[trigger] bound_outside(after, names),
    ensures
        bound_outside(before, names),
{
    reveal(bound_outside);
    reveal(grows);
}

/// Nothing changed is kept.
pub proof fn lemma_grows_reflexive(a: Model)
    ensures
        grows(a, a),
{
    reveal(grows);
}

/// A name that some comprehension binds has an innermost binding.
pub proof fn lemma_comp_names(scopes: Seq<CompScope>, name: StringId)
    ensures
        comp_names(scopes).contains(name) == (comp_binding(scopes, name) is Some),
    decreases scopes.len(),
{
    if scopes.len() > 0 {
        lemma_comp_names(scopes.drop_last(), name);
    }
}

/// Scopes with the same bindings bind the same names.
pub proof fn lemma_same_bindings(before: Seq<CompScope>, after: Seq<CompScope>, name: StringId)
    requires
        same_bindings(before, after),
    ensures
        comp_binding(before, name) is Some == (comp_binding(after, name) is Some),
        comp_names(before) == comp_names(after),
        comp_binding(before, name) matches Some(b) ==> comp_binding(after, name)->0.slot == b.slot,
    decreases before.len(),
{
    if before.len() > 0 {
        assert(before.last() == before[before.len() - 1]);
        assert(after.last() == after[after.len() - 1]);
        assert(before[before.len() - 1].bindings.dom() == after[after.len() - 1].bindings.dom());
        assert(before.last().bindings.contains_key(name) == after.last().bindings.contains_key(name)) by {
            assert(before.last().bindings.dom().contains(name) == after.last().bindings.dom().contains(name));
        }
        assert(same_bindings(before.drop_last(), after.drop_last())) by {
            assert forall|i: int| 0 <= i < before.drop_last().len() implies {
                &&& before.drop_last()[i].order == (#[trigger] after.drop_last()[i]).order
                &&& before.drop_last()[i].bindings.dom() == after.drop_last()[i].bindings.dom()
                &&& forall|other: StringId| #[trigger]
                    before.drop_last()[i].bindings.contains_key(other) ==> {
                        &&& before.drop_last()[i].bindings[other].slot == after.drop_last()[i].bindings[other].slot
                        &&& before.drop_last()[i].bindings[other].captured
                            ==> after.drop_last()[i].bindings[other].captured
                    }
            } by {
                assert(before.drop_last()[i] == before[i]);
                assert(after.drop_last()[i] == after[i]);
            }
        }
        lemma_same_bindings(before.drop_last(), after.drop_last(), name);
    }
}

/// Marking a capture leaves names and slots alone.
pub proof fn lemma_with_captured(scopes: Seq<CompScope>, name: StringId)
    ensures
        same_bindings(scopes, with_captured(scopes, name)),
    decreases scopes.len(),
{
    let after = with_captured(scopes, name);
    if scopes.len() > 0 {
        let front = scopes.drop_last();
        if scopes.last().bindings.contains_key(name) {
            assert forall|i: int| 0 <= i < scopes.len() implies {
                &&& scopes[i].order == (#[trigger] after[i]).order
                &&& scopes[i].bindings.dom() == after[i].bindings.dom()
                &&& forall|other: StringId| #[trigger]
                    scopes[i].bindings.contains_key(other) ==> {
                        &&& scopes[i].bindings[other].slot == after[i].bindings[other].slot
                        &&& scopes[i].bindings[other].captured ==> after[i].bindings[other].captured
                    }
            } by {
                if i < front.len() {
                    assert(after[i] == front[i]);
                } else {
                    assert(scopes[i] == scopes.last());
                    assert(scopes[i].bindings.dom() =~= after[i].bindings.dom());
                }
            }
        } else {
            lemma_with_captured(front, name);
            assert forall|i: int| 0 <= i < scopes.len() implies {
                &&& scopes[i].order == (#[trigger] after[i]).order
                &&& scopes[i].bindings.dom() == after[i].bindings.dom()
                &&& forall|other: StringId| #[trigger]
                    scopes[i].bindings.contains_key(other) ==> {
                        &&& scopes[i].bindings[other].slot == after[i].bindings[other].slot
                        &&& scopes[i].bindings[other].captured ==> after[i].bindings[other].captured
                    }
            } by {
                if i < front.len() {
                    assert(scopes[i] == front[i]);
                    assert(after[i] == with_captured(front, name)[i]);
                } else {
                    assert(after[i] == scopes[i]);
                }
            }
        }
    }
}

/// What a nested scope may capture stays capturable.
pub proof fn lemma_child_enclosing_grows(before: Model, after: Model)
    requires
        grows(before, after),
    ensures
        before.child_enclosing().subset_of(after.child_enclosing()),
{
    reveal(grows);
    assert forall|name: StringId| before.child_enclosing().contains(name) implies after.child_enclosing().contains(
        name,
    ) by {
        lemma_same_bindings(before.comp_scopes, after.comp_scopes, name);
        match (before.function, after.function) {
            (Some(f), Some(g)) => {
                if f.locals.to_set().contains(name) {
                    let i = f.locals.index_of(name);
                    assert(g.locals[i] == name);
                    assert(g.locals.contains(name));
                }
                if f.free_vars.contains_key(name) {
                    assert(g.free_vars.contains_key(name));
                }
            },
            _ => {},
        }
    }
}

/// A cell that is at hand stays at hand.
pub proof fn lemma_has_cell_grows(before: Model, after: Model, name: StringId)
    requires
        grows(before, after),
        has_cell(before, name),
    ensures
        has_cell(after, name),
{
    reveal(grows);
    lemma_same_bindings(before.comp_scopes, after.comp_scopes, name);
    match (before.function, after.function) {
        (Some(f), Some(g)) => {
            if f.cell_vars.contains_key(name) {
                assert(g.cell_vars.contains_key(name));
            }
            if f.free_vars.contains_key(name) {
                assert(g.free_vars.contains_key(name));
            }
        },
        _ => {},
    }
}

} // verus!
