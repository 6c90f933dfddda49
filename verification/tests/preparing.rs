use monty::ast::{
    ArgExprs, Callable, ClassDef, Comprehension, ConversionFlag, ExceptHandler, Expr, ExprLoc, FStringPart, FormatSpec, Generators, Identifier, LambdaDef, Literal,
    Node, Operator, ParsedParam, ParsedSignature, RawFunctionDef, Try, UnpackTarget,
};
use monty::intern::{BuiltinTable, InternerBuilder};
use monty::name_map::NameMap;
use monty::names::{NameSet, StringId};
use monty::parse::{CodeRange, ParseError, ParseErrorFamily, ParseErrorKind};
use monty::prepare::{prepare, prepare_with_existing_names, ParseResult, PrepareResult};
use monty::prepared::{CaptureSource, NameScope, PreparedArgs, PreparedCallable, PreparedExpr, PreparedNode, PreparedTarget};
use monty::scope::{collect_assigned_names_from_expr, collect_function_scope_info, collect_lambda_scope_info};
use monty::tstring::{ParsedTemplate, TemplateInterpolation};

fn at(start: u32) -> CodeRange {
    CodeRange { filename: 0, start, end: start + 1 }
}

fn ident(name_id: StringId) -> Identifier {
    Identifier { name_id, position: at(1) }
}

fn loc(expr: Expr) -> ExprLoc {
    ExprLoc { position: at(2), expr }
}

fn name(id: StringId) -> ExprLoc {
    loc(Expr::Name(ident(id)))
}

fn number(n: i64) -> ExprLoc {
    loc(Expr::Literal(Literal::Int(n)))
}

fn params(names: Vec<StringId>) -> ParsedSignature {
    ParsedSignature {
        pos_args: vec![],
        args: names.into_iter().map(|name| ParsedParam { name, default: None }).collect(),
        var_args: None,
        kwargs: vec![],
        var_kwargs: None,
    }
}

fn function(id: StringId, args: Vec<StringId>, body: Vec<Node>) -> RawFunctionDef {
    RawFunctionDef { name: ident(id), signature: params(args), body, is_async: false, is_generator: false }
}

fn def(id: StringId, args: Vec<StringId>, body: Vec<Node>) -> Node {
    Node::FunctionDef { def: function(id, args, body), decorators: vec![] }
}

fn assign(id: StringId, object: ExprLoc) -> Node {
    Node::Assign { target: ident(id), object }
}

fn list_comp(elt: ExprLoc, target: StringId, iter: ExprLoc) -> ExprLoc {
    loc(Expr::ListComp {
        elt: Box::new(elt),
        generators: Box::new(Generators {
            first: Comprehension { target: UnpackTarget::Name(ident(target)), iter, ifs: vec![] },
            rest: vec![],
        }),
    })
}

fn strings(texts: &[&str]) -> InternerBuilder {
    let mut interner = InternerBuilder::new();
    for text in texts {
        interner.intern(text);
    }
    interner
}

fn builtins() -> BuiltinTable {
    BuiltinTable::new(vec!["print".to_owned(), "len".to_owned()])
}

fn run(texts: &[&str], nodes: Vec<Node>) -> Result<PrepareResult, ParseError> {
    prepare(ParseResult { nodes, interner: strings(texts) }, vec![], &builtins())
}

fn kind(result: Result<PrepareResult, ParseError>) -> ParseErrorKind {
    match result {
        Ok(_) => panic!("an error was expected"),
        Err(error) => error.kind,
    }
}

#[test]
fn inputs_take_the_first_slots() {
    let result = prepare(
        ParseResult { nodes: vec![assign(0, name(1))], interner: strings(&["y", "x"]) },
        vec!["x".to_owned(), "z".to_owned()],
        &builtins(),
    );
    let Ok(done) = result else { panic!("prepared") };
    assert_eq!(done.globals.len(), 3);
    assert_eq!(done.globals.labels(), &vec![1, 2, 0]);
    assert_eq!(done.interner.get_str(2), Some("z"));
    let PreparedNode::Assign { target, object } = &done.nodes[0] else { panic!("an assignment") };
    assert_eq!(target.slot, 2);
    assert!(target.scope == NameScope::Global || target.scope == NameScope::Local);
    let PreparedExpr::Name(read) = &object.expr else { panic!("a name") };
    assert_eq!(read.slot, 0);
}

#[test]
fn a_repeated_input_is_one_slot_or_an_alias() {
    let result = prepare(
        ParseResult { nodes: vec![], interner: strings(&[]) },
        vec!["a".to_owned(), "a".to_owned()],
        &builtins(),
    );
    let Ok(done) = result else { panic!("prepared") };
    assert_eq!(done.globals.get(0), Some(0));
}

#[test]
fn a_last_expression_is_returned() {
    let Ok(done) = run(&["x"], vec![assign(0, number(1)), Node::Expr(name(0))]) else { panic!("prepared") };
    assert_eq!(done.nodes.len(), 2);
    assert!(matches!(&done.nodes[1], PreparedNode::Return(Some(value)) if matches!(value.expr, PreparedExpr::Name(_))));
}

#[test]
fn a_last_none_is_not_returned() {
    let Ok(done) = run(&[], vec![Node::Expr(loc(Expr::Literal(Literal::NoneValue)))]) else { panic!("prepared") };
    assert!(matches!(&done.nodes[0], PreparedNode::Expr(_)));
}

#[test]
fn pass_leaves_no_statement() {
    let Ok(done) = run(&[], vec![Node::Pass, Node::Pass]) else { panic!("prepared") };
    assert_eq!(done.nodes.len(), 0);
}

#[test]
fn a_template_keeps_its_lists_aligned() {
    let field = TemplateInterpolation {
        expr: Box::new(name(0)),
        expression: 0,
        conversion: ConversionFlag::Repr,
        format_spec: vec![],
    };
    let template = ParsedTemplate { strings: vec![1, 2], interpolations: vec![field] };
    let prepared = run(&["x", "a", "b"], vec![assign(0, number(1)), Node::Expr(loc(Expr::TString(Box::new(template))))]);
    let Ok(prepared) = prepared else { panic!("prepared") };
    let Some(PreparedNode::Return(Some(value))) = prepared.nodes.last() else { panic!("a value") };
    let PreparedExpr::TString(template) = &value.expr else { panic!("a template") };
    assert_eq!(template.strings, vec![1, 2]);
    assert_eq!(template.interpolations.len(), 1);
    let PreparedExpr::Name(read) = &template.interpolations[0].expr.expr else { panic!("a name") };
    assert!(read.scope == NameScope::Global || read.scope == NameScope::Local);
    assert_eq!(read.slot, 0);
}

#[test]
fn a_name_that_nothing_binds_is_a_builtin() {
    let call = loc(Expr::Call {
        callable: Callable::Name(ident(0)),
        args: Box::new(ArgExprs::One(number(3))),
    });
    let Ok(done) = run(&["print"], vec![Node::Expr(call)]) else { panic!("prepared") };
    let PreparedNode::Return(Some(value)) = &done.nodes[0] else { panic!("a value") };
    let PreparedExpr::Call { callable, args } = &value.expr else { panic!("a call") };
    assert!(matches!(callable, PreparedCallable::Builtin(_)));
    assert!(matches!(**args, PreparedArgs::One(_)));
    assert_eq!(done.globals.len(), 0);
}

#[test]
fn a_binding_shadows_a_builtin() {
    let Ok(done) = run(&["print"], vec![assign(0, number(1)), Node::Expr(name(0))]) else { panic!("prepared") };
    let PreparedNode::Return(Some(value)) = &done.nodes[1] else { panic!("a value") };
    assert!(matches!(value.expr, PreparedExpr::Name(_)));
}

#[test]
fn parameters_take_the_first_slots_of_a_function() {
    let body = vec![assign(3, name(2)), Node::Return(Some(name(1)))];
    let Ok(done) = run(&["f", "a", "b", "c"], vec![def(0, vec![1, 2], body)]) else { panic!("prepared") };
    let PreparedNode::FunctionDef { def, .. } = &done.nodes[0] else { panic!("a function") };
    assert_eq!(def.namespace_size, 3);
    assert_eq!(def.signature.args, vec![1, 2]);
    let PreparedNode::Assign { target, object } = &def.body[0] else { panic!("an assignment") };
    assert_eq!(target.slot, 2);
    assert!(target.scope == NameScope::Local);
    let PreparedExpr::Name(read) = &object.expr else { panic!("a name") };
    assert_eq!(read.slot, 1);
}

#[test]
fn a_closure_captures_through_a_cell() {
    // def f(a): def g(): return a
    let inner = def(2, vec![], vec![Node::Return(Some(name(1)))]);
    let Ok(done) = run(&["f", "a", "g"], vec![def(0, vec![1], vec![inner])]) else { panic!("prepared") };
    let PreparedNode::FunctionDef { def: outer, .. } = &done.nodes[0] else { panic!("a function") };
    assert_eq!(outer.cell_var_slots.len(), 1);
    assert_eq!(outer.cell_param_indices, vec![Some(0)]);
    let PreparedNode::FunctionDef { def: nested, .. } = &outer.body[0] else { panic!("a function") };
    assert_eq!(nested.free_var_slots.len(), 1);
    assert_eq!(nested.free_var_enclosing_slots.len(), 1);
    assert!(nested.free_var_enclosing_slots[0] == CaptureSource::Namespace(outer.cell_var_slots[0]));
    let PreparedNode::Return(Some(value)) = &nested.body[0] else { panic!("a value") };
    let PreparedExpr::Name(read) = &value.expr else { panic!("a name") };
    assert!(read.scope == NameScope::Cell);
    assert_eq!(read.slot, nested.free_var_slots[0]);
}

#[test]
fn a_global_declaration_reaches_the_module() {
    // def f(): global x; x = 1
    let body = vec![Node::Global { names: vec![1], position: at(9) }, assign(1, number(1))];
    let Ok(done) = run(&["f", "x"], vec![def(0, vec![], body)]) else { panic!("prepared") };
    let PreparedNode::FunctionDef { def, .. } = &done.nodes[0] else { panic!("a function") };
    let PreparedNode::Assign { target, .. } = &def.body[0] else { panic!("an assignment") };
    assert!(target.scope == NameScope::Global);
    assert_eq!(done.globals.get(1), Some(target.slot));
}

#[test]
fn a_comprehension_has_its_own_target() {
    let comp = list_comp(name(0), 0, loc(Expr::List(vec![])));
    let Ok(done) = run(&["i"], vec![Node::Expr(comp)]) else { panic!("prepared") };
    let PreparedNode::Return(Some(value)) = &done.nodes[0] else { panic!("a value") };
    let PreparedExpr::ListComp { elt, generators, .. } = &value.expr else { panic!("a comprehension") };
    let PreparedExpr::Name(read) = &elt.expr else { panic!("a name") };
    let PreparedTarget::Name(target) = &generators.first.target else { panic!("a name") };
    assert!(read.scope == NameScope::CompVar && target.scope == NameScope::CompVar);
    assert_eq!(read.slot, target.slot);
    assert_eq!(done.globals.len(), 0);
}

#[test]
fn a_comprehension_target_shadows_a_builtin() {
    let comp = list_comp(name(0), 0, loc(Expr::List(vec![])));
    let Ok(done) = run(&["len"], vec![Node::Expr(comp)]) else { panic!("prepared") };
    let PreparedNode::Return(Some(value)) = &done.nodes[0] else { panic!("a value") };
    let PreparedExpr::ListComp { elt, .. } = &value.expr else { panic!("a comprehension") };
    assert!(matches!(&elt.expr, PreparedExpr::Name(read) if read.scope == NameScope::CompVar));
}

#[test]
fn an_assignment_expression_binds_outside_its_comprehension() {
    let walrus = loc(Expr::Named { target: ident(1), value: Box::new(name(0)) });
    let comp = list_comp(walrus, 0, loc(Expr::List(vec![])));
    let Ok(done) = run(&["i", "last"], vec![Node::Expr(comp)]) else { panic!("prepared") };
    assert_eq!(done.globals.get(1), Some(0));
    let PreparedNode::Return(Some(value)) = &done.nodes[0] else { panic!("a value") };
    let PreparedExpr::ListComp { elt, .. } = &value.expr else { panic!("a comprehension") };
    assert!(matches!(&elt.expr, PreparedExpr::Named { target, .. } if target.scope != NameScope::CompVar));
}

#[test]
fn a_lambda_captures_a_comprehension_target() {
    let lambda = loc(Expr::LambdaRaw(Box::new(LambdaDef {
        name_id: 1,
        signature: params(vec![]),
        body: name(0),
        is_generator: false,
    })));
    let comp = list_comp(lambda, 0, loc(Expr::List(vec![])));
    let Ok(done) = run(&["i", "<lambda>"], vec![Node::Expr(comp)]) else { panic!("prepared") };
    let PreparedNode::Return(Some(value)) = &done.nodes[0] else { panic!("a value") };
    let PreparedExpr::ListComp { elt, captured_slots, .. } = &value.expr else { panic!("a comprehension") };
    assert_eq!(captured_slots.len(), 1);
    let PreparedExpr::Lambda { func_def } = &elt.expr else { panic!("a lambda") };
    assert!(func_def.free_var_enclosing_slots[0] == CaptureSource::CompVar(captured_slots[0]));
}

#[test]
fn a_duplicate_argument_is_refused() {
    let got = kind(run(&["f", "a"], vec![def(0, vec![1, 1], vec![])]));
    assert!(got == ParseErrorKind::DuplicateArgument(1));
}

#[test]
fn a_late_global_declaration_is_refused() {
    let assigned = vec![assign(1, number(1)), Node::Global { names: vec![1], position: at(9) }];
    assert!(kind(run(&["f", "x"], vec![def(0, vec![], assigned)])) == ParseErrorKind::AssignedBeforeGlobal(1));
    let read = vec![Node::Expr(name(1)), Node::Global { names: vec![1], position: at(9) }];
    assert!(kind(run(&["f", "x"], vec![def(0, vec![], read)])) == ParseErrorKind::UsedBeforeGlobal(1));
}

#[test]
fn a_late_nonlocal_declaration_is_refused() {
    let outer = |body: Vec<Node>| vec![def(0, vec![1], vec![def(2, vec![], body)])];
    let assigned = vec![assign(1, number(1)), Node::Nonlocal { names: vec![1], position: at(9) }];
    assert!(kind(run(&["f", "x", "g"], outer(assigned))) == ParseErrorKind::AssignedBeforeNonlocal(1));
    let read = vec![Node::Expr(name(1)), Node::Nonlocal { names: vec![1], position: at(9) }];
    assert!(kind(run(&["f", "x", "g"], outer(read))) == ParseErrorKind::UsedBeforeNonlocal(1));
}

#[test]
fn a_nonlocal_needs_a_binding() {
    let body = vec![Node::Nonlocal { names: vec![1], position: at(9) }];
    assert!(kind(run(&["f", "x"], vec![def(0, vec![], body)])) == ParseErrorKind::NoBindingForNonlocal(1));
}

#[test]
fn a_nonlocal_at_module_level_is_refused() {
    let got = kind(run(&["x"], vec![Node::Nonlocal { names: vec![0], position: at(9) }]));
    assert!(got == ParseErrorKind::NonlocalAtModuleLevel);
}

#[test]
fn a_comprehension_binds_no_attribute() {
    let comp = loc(Expr::ListComp {
        elt: Box::new(number(1)),
        generators: Box::new(Generators {
            first: Comprehension {
                target: UnpackTarget::Attr { object: name(0), attr: 1, position: at(4) },
                iter: loc(Expr::List(vec![])),
                ifs: vec![],
            },
            rest: vec![],
        }),
    });
    let Err(error) = run(&["x", "y"], vec![Node::Expr(comp)]) else { panic!("refused") };
    assert!(error.kind == ParseErrorKind::ComprehensionTarget);
    assert!(error.family() == ParseErrorFamily::NotImplemented);
}

fn class(members: Vec<Identifier>, body: Vec<Node>) -> Node {
    Node::ClassDef(Box::new(ClassDef {
        name: ident(0),
        bases: vec![],
        body: function(0, vec![], body),
        members,
        decorators: vec![],
        position: at(5),
    }))
}

#[test]
fn class_members_are_slots_of_the_body() {
    let node = class(vec![ident(1)], vec![assign(1, number(1))]);
    let Ok(done) = run(&["C", "x"], vec![node]) else { panic!("prepared") };
    let PreparedNode::ClassDef(class) = &done.nodes[0] else { panic!("a class") };
    assert_eq!(class.members.len(), 1);
    let PreparedNode::Assign { target, .. } = &class.body.body[0] else { panic!("an assignment") };
    assert_eq!(class.members[0].slot, target.slot);
}

#[test]
fn a_class_member_must_be_bound() {
    let got = kind(run(&["C", "x"], vec![class(vec![ident(1)], vec![])]));
    assert!(got == ParseErrorKind::UnboundClassMember(1));
}

#[test]
fn error_messages_name_what_they_are_about() {
    let interner = strings(&["x"]);
    let message = |kind| ParseError { kind, position: at(0) }.message(&interner);
    assert_eq!(message(ParseErrorKind::DuplicateArgument(0)), "duplicate argument 'x' in function definition");
    assert_eq!(message(ParseErrorKind::AssignedBeforeGlobal(0)), "name 'x' is assigned to before global declaration");
    assert_eq!(message(ParseErrorKind::UsedBeforeNonlocal(0)), "name 'x' is used prior to nonlocal declaration");
    assert_eq!(message(ParseErrorKind::NoBindingForNonlocal(0)), "no binding for nonlocal 'x' found");
    assert_eq!(message(ParseErrorKind::NonlocalAtModuleLevel), "nonlocal declaration not allowed at module level");
    assert_eq!(message(ParseErrorKind::DuplicateArgument(9)), "duplicate argument '' in function definition");
    let error = ParseError { kind: ParseErrorKind::NonlocalAtModuleLevel, position: at(0) };
    assert!(error.family() == ParseErrorFamily::Syntax);
}

#[test]
fn an_existing_namespace_keeps_its_slots() {
    let mut globals = NameMap::new();
    assert!(globals.ensure_slot(1, at(0)).is_ok());
    assert!(globals.ensure_slot(0, at(0)).is_ok());
    let nodes = vec![assign(0, name(1)), assign(2, number(1))];
    let result = prepare_with_existing_names(
        ParseResult { nodes, interner: strings(&["a", "b", "c"]) },
        globals,
        &builtins(),
    );
    let Ok(done) = result else { panic!("prepared") };
    assert_eq!(done.globals.labels(), &vec![1, 0, 2]);
    assert_eq!(done.globals.label(2), Some(2));
    assert_eq!(done.globals.label(3), None);
}

#[test]
fn a_full_namespace_is_refused() {
    let mut globals = NameMap::new();
    for id in 0..65536u32 {
        assert!(globals.ensure_slot(id, at(0)).is_ok());
    }
    let Err(error) = globals.ensure_slot(70000, at(3)) else { panic!("refused") };
    assert!(error.kind == ParseErrorKind::NamespaceOverflow);
    assert_eq!(globals.len(), 65536);
    assert_eq!(globals.get(65535), Some(65535));
}

#[test]
fn an_aliased_slot_leaves_the_first_one_in_force() {
    let mut globals = NameMap::new();
    assert!(globals.ensure_slot(7, at(0)).is_ok());
    let Ok(alias) = globals.push_aliased_slot(7, at(0)) else { panic!("a slot") };
    assert_eq!(alias, 1);
    assert_eq!(globals.get(7), Some(0));
    assert!(globals.contains(7) && !globals.contains(8));
}

fn ids(set: &NameSet) -> Vec<StringId> {
    set.walk()
}

#[test]
fn a_function_knows_its_names() {
    // def f(a): x = a + y; def g(): return x
    let sum = loc(Expr::Op { left: Box::new(name(0)), op: Operator::Add, right: Box::new(name(2)) });
    let body = vec![assign(1, sum), def(3, vec![], vec![Node::Return(Some(name(1)))])];
    let info = collect_function_scope_info(&body, &vec![0]);
    assert_eq!(ids(&info.assigned_names), vec![1, 3]);
    assert_eq!(ids(&info.cell_var_names), vec![1]);
    assert_eq!(ids(&info.potential_captures), vec![2]);
    assert!(info.global_names.is_empty() && info.nonlocal_names.is_empty());
}

#[test]
fn declared_names_are_told_apart() {
    let body = vec![
        Node::Global { names: vec![5], position: at(0) },
        Node::Nonlocal { names: vec![4], position: at(0) },
        assign(5, name(4)),
    ];
    let info = collect_function_scope_info(&body, &vec![]);
    assert_eq!(ids(&info.global_names), vec![5]);
    assert_eq!(ids(&info.nonlocal_names), vec![4]);
    assert_eq!(ids(&info.potential_captures), Vec::<StringId>::new());
}

#[test]
fn a_lambda_knows_its_names() {
    let info = collect_lambda_scope_info(&name(8), &vec![7]);
    assert_eq!(ids(&info.potential_captures), vec![8]);
    let own = collect_lambda_scope_info(&name(7), &vec![7]);
    assert!(own.potential_captures.is_empty());
}

#[test]
fn assignment_expressions_assign() {
    let mut names = NameSet::new();
    let walrus = loc(Expr::Named { target: ident(3), value: Box::new(number(1)) });
    collect_assigned_names_from_expr(&list_comp(walrus, 4, loc(Expr::List(vec![]))), &mut names);
    assert_eq!(names.walk(), vec![3]);
}

#[test]
fn name_sets_hold_each_name_once() {
    let mut a = NameSet::new();
    assert!(a.insert(3) && a.insert(1) && !a.insert(3));
    let mut b = NameSet::new();
    b.insert_all(&vec![1, 2]);
    assert_eq!(a.common(&b).walk(), vec![1]);
    let mut c = a.copy();
    c.add_all(&b);
    assert_eq!(c.walk(), vec![1, 2, 3]);
    c.remove_all(&b);
    assert_eq!(c.walk(), vec![3]);
    assert!(c.remove(3) && !c.remove(3) && c.is_empty());
    assert!(a.contains(1) && !a.contains(2));
}

fn method_call(object: ExprLoc) -> ExprLoc {
    loc(Expr::AttrCall { object: Box::new(object), attr: 1, args: Box::new(ArgExprs::Empty) })
}

#[test]
fn a_method_of_an_undefined_name_is_refused() {
    // foo.bar()
    let Err(error) = run(&["foo", "bar"], vec![Node::Expr(method_call(name(0)))]) else { panic!("an error") };
    assert!(error.kind == ParseErrorKind::UndefinedName(0));
    assert!(error.family() == ParseErrorFamily::Name);
    assert_eq!(error.message(&strings(&["foo", "bar"])), "name 'foo' is not defined");
    assert!(run(&["foo", "bar"], vec![assign(0, number(1)), Node::Expr(method_call(name(0)))]).is_ok());
    assert!(run(&["len", "bar"], vec![Node::Expr(method_call(name(0)))]).is_ok());
}

fn lambda(names: Vec<StringId>, body: ExprLoc) -> ExprLoc {
    loc(Expr::LambdaRaw(Box::new(LambdaDef { name_id: 9, signature: params(names), body, is_generator: false })))
}

fn called(callable: ExprLoc) -> ExprLoc {
    loc(Expr::IndirectCall { callable: Box::new(callable), args: Box::new(ArgExprs::Empty) })
}

#[test]
fn a_lambda_in_a_check_captures() {
    // x = 1; assert (lambda: x)()
    let test = called(lambda(vec![], name(0)));
    let body = vec![assign(0, number(1)), Node::Assert { test, msg: None }];
    assert_eq!(ids(&collect_function_scope_info(&body, &vec![]).cell_var_names), vec![0]);
    // x = 1; raise (lambda: x)()
    let exc = called(lambda(vec![], name(0)));
    let body = vec![assign(0, number(1)), Node::Raise { exc: Some(exc), cause: None }];
    assert_eq!(ids(&collect_function_scope_info(&body, &vec![]).cell_var_names), vec![0]);
}

#[test]
fn a_parameter_of_a_lambda_is_its_own() {
    // x = 1; lambda x: lambda: x
    let nested = lambda(vec![0], lambda(vec![], name(0)));
    let body = vec![assign(0, number(1)), Node::Expr(nested)];
    assert!(collect_function_scope_info(&body, &vec![]).cell_var_names.is_empty());
}

#[test]
fn an_assignment_in_a_format_specification_assigns() {
    // f"{1:{(n := 2)}}"
    let spec = FStringPart::Interpolation {
        expr: Box::new(loc(Expr::Named { target: ident(3), value: Box::new(number(2)) })),
        conversion: ConversionFlag::Plain,
        format_spec: None,
        debug_prefix: None,
    };
    let part = FStringPart::Interpolation {
        expr: Box::new(number(1)),
        conversion: ConversionFlag::Plain,
        format_spec: Some(FormatSpec::Dynamic(vec![spec])),
        debug_prefix: None,
    };
    let mut names = NameSet::new();
    collect_assigned_names_from_expr(&loc(Expr::FString(vec![part])), &mut names);
    assert_eq!(names.walk(), vec![3]);
}

#[test]
fn a_default_of_a_nested_function_is_read() {
    // def g(p=d): pass
    let mut nested = function(2, vec![], vec![Node::Pass]);
    nested.signature.args.push(ParsedParam { name: 4, default: Some(name(5)) });
    let body = vec![Node::FunctionDef { def: nested, decorators: vec![] }];
    assert_eq!(ids(&collect_function_scope_info(&body, &vec![]).potential_captures), vec![5]);
}

#[test]
fn the_slots_of_a_closure_ascend() {
    // def f(): a = 1; b = 2; def g(): return a + b
    let sum = loc(Expr::Op { left: Box::new(name(2)), op: Operator::Add, right: Box::new(name(1)) });
    let inner = def(3, vec![], vec![Node::Return(Some(sum))]);
    let body = vec![assign(1, number(1)), assign(2, number(2)), inner];
    let Ok(done) = run(&["f", "a", "b", "g"], vec![def(0, vec![], body)]) else { panic!("prepared") };
    let PreparedNode::FunctionDef { def: outer, .. } = &done.nodes[0] else { panic!("a function") };
    assert_eq!(outer.cell_var_slots, vec![0, 1]);
    assert!(outer.cell_var_slots.iter().all(|slot| (*slot as usize) < outer.namespace_size));
    let PreparedNode::FunctionDef { def: inner, .. } = &outer.body[2] else { panic!("a function") };
    assert_eq!(inner.free_var_slots, vec![0, 1]);
    assert_eq!(inner.free_var_enclosing_slots.len(), 2);
    assert!(inner.free_var_slots.iter().all(|slot| (*slot as usize) < inner.namespace_size));
}

fn named(id: StringId, value: ExprLoc) -> ExprLoc {
    loc(Expr::Named { target: ident(id), value: Box::new(value) })
}

#[test]
fn an_assignment_in_a_default_assigns_outside() {
    // lambda p=(n := 1): p
    let signature = ParsedSignature {
        pos_args: vec![],
        args: vec![ParsedParam { name: 4, default: Some(named(3, number(1))) }],
        var_args: None,
        kwargs: vec![],
        var_kwargs: None,
    };
    let lambda = loc(Expr::LambdaRaw(Box::new(LambdaDef { name_id: 9, signature, body: name(4), is_generator: false })));
    let mut names = NameSet::new();
    collect_assigned_names_from_expr(&lambda, &mut names);
    assert_eq!(names.walk(), vec![3]);
    // def g(p=(n := 1)): pass
    let mut nested = function(2, vec![], vec![Node::Pass]);
    nested.signature.args.push(ParsedParam { name: 4, default: Some(named(5, number(1))) });
    let body = vec![Node::FunctionDef { def: nested, decorators: vec![] }];
    assert_eq!(ids(&collect_function_scope_info(&body, &vec![]).assigned_names), vec![2, 5]);
}

#[test]
fn an_assignment_in_an_exception_type_assigns() {
    // try: pass except (n := e): pass
    let handler = ExceptHandler { exc_type: Some(named(3, name(4))), name: None, body: vec![Node::Pass] };
    let block = Try { body: vec![Node::Pass], handlers: vec![handler], or_else: vec![], finally: vec![] };
    let info = collect_function_scope_info(&vec![Node::Try(block)], &vec![]);
    assert_eq!(ids(&info.assigned_names), vec![3]);
}

#[test]
fn a_comprehension_hides_the_names_it_binds() {
    // x = 1; [lambda: x for x in y]
    let comp = list_comp(lambda(vec![], name(0)), 0, name(1));
    let body = vec![assign(0, number(1)), Node::Expr(comp)];
    assert!(collect_function_scope_info(&body, &vec![]).cell_var_names.is_empty());
    // x = 1; [lambda: x for z in y]
    let comp = list_comp(lambda(vec![], name(0)), 2, name(1));
    let body = vec![assign(0, number(1)), Node::Expr(comp)];
    assert_eq!(ids(&collect_function_scope_info(&body, &vec![]).cell_var_names), vec![0]);
}

#[test]
fn an_assignment_in_a_lambda_is_its_own() {
    // x = 1; lambda: (x := (lambda: x))
    let nested = lambda(vec![], named(0, lambda(vec![], name(0))));
    let body = vec![assign(0, number(1)), Node::Expr(nested)];
    assert!(collect_function_scope_info(&body, &vec![]).cell_var_names.is_empty());
}

#[test]
fn a_later_snippet_reads_what_an_earlier_one_bound() {
    let Ok(first) = run(&["x", "y"], vec![assign(0, number(1)), assign(1, number(2))]) else { panic!("prepared") };
    let slot = first.globals.get(1);
    let again = ParseResult { nodes: vec![Node::Expr(name(1))], interner: first.interner };
    let Ok(second) = prepare_with_existing_names(again, first.globals, &builtins()) else { panic!("prepared") };
    let PreparedNode::Return(Some(value)) = &second.nodes[0] else { panic!("returned") };
    let PreparedExpr::Name(read) = &value.expr else { panic!("a name") };
    assert_eq!(Some(read.slot), slot);
    assert_eq!(second.nodes.len(), 1);
}

#[test]
fn a_new_name_gets_a_slot_behind_the_known_ones() {
    let Ok(first) = run(&["x", "y", "z"], vec![assign(0, number(1))]) else { panic!("prepared") };
    let known = first.globals.len();
    let again = ParseResult { nodes: vec![assign(2, number(1)), assign(0, number(2))], interner: first.interner };
    let Ok(second) = prepare_with_existing_names(again, first.globals, &builtins()) else { panic!("prepared") };
    assert_eq!(second.globals.get(0), Some(0));
    assert!(second.globals.get(2).is_some_and(|slot| slot as usize >= known));
}
