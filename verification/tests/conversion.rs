use closure_transform::ast::{
    ArgList, Class, Expr, FunctionBody, FunctionDefinition, FunctionParameter, FunctionSignature,
    Literal, Phase, Reference, Scope, Stmt, StmtKind, Symbol, TypeAnnotation, UserDefinedType,
};
use closure_transform::closure_transform::ClosureTransformer;
use closure_transform::count::{conversions_in_expr, conversions_in_scope};
use closure_transform::named_args::NamedArgs;

fn ident(name: &str) -> Expr {
    Expr::Reference(Reference::Identifier(Symbol::new(name)))
}

fn member(object: Expr, property: &str) -> Expr {
    Expr::Reference(Reference::InstanceMember {
        object: Box::new(object),
        property: Symbol::new(property),
        optional_accessor: false,
    })
}

fn call(function: Expr, pos_args: Vec<Expr>) -> Expr {
    Expr::Call { function: Box::new(function), arg_list: ArgList { pos_args, named_args: NamedArgs::new() } }
}

fn stmt(idx: usize, kind: StmtKind) -> Stmt {
    Stmt { kind, idx }
}

fn let_stmt(idx: usize, name: &str, value: Expr) -> Stmt {
    stmt(
        idx,
        StmtKind::Let { reassignable: false, var_name: Symbol::new(name), initial_value: value, type_: None },
    )
}

fn param(name: &str) -> FunctionParameter {
    FunctionParameter { name: Symbol::new(name), type_annotation: TypeAnnotation::Str, reassignable: false }
}

fn function(phase: Phase, is_static: bool, parameters: Vec<FunctionParameter>, statements: Vec<Stmt>) -> FunctionDefinition {
    FunctionDefinition {
        body: FunctionBody::Statements(Scope::new(statements)),
        signature: FunctionSignature { parameters, return_type: Box::new(TypeAnnotation::Void), phase },
        is_static,
    }
}

fn closure(phase: Phase, parameters: Vec<FunctionParameter>, statements: Vec<Stmt>) -> Expr {
    Expr::FunctionClosure(function(phase, true, parameters, statements))
}

fn class_type(name: &str) -> TypeAnnotation {
    TypeAnnotation::UserDefined(UserDefinedType { root: Symbol::new(name), fields: vec![] })
}

fn new_instance(name: &str) -> Expr {
    Expr::New {
        class: class_type(name),
        obj_id: None,
        obj_scope: None,
        arg_list: ArgList { pos_args: vec![], named_args: NamedArgs::new() },
    }
}

fn hidden_marker() -> Stmt {
    stmt(
        0,
        StmtKind::Assignment {
            variable: Reference::InstanceMember {
                object: Box::new(member(ident("this"), "display")),
                property: Symbol::new("hidden"),
                optional_accessor: false,
            },
            value: Expr::Literal(Literal::Boolean(true)),
        },
    )
}

fn closure_class(idx: usize, name: &str, handler: FunctionDefinition) -> Stmt {
    stmt(
        idx,
        StmtKind::Class(Class {
            name: Symbol::new(name),
            phase: Phase::Preflight,
            initializer: FunctionDefinition {
                body: FunctionBody::Statements(Scope::new(vec![hidden_marker()])),
                signature: FunctionSignature {
                    parameters: vec![],
                    return_type: Box::new(class_type(name)),
                    phase: Phase::Preflight,
                },
                is_static: true,
            },
            fields: vec![],
            implements: vec![],
            parent: None,
            methods: vec![(Symbol::new("handle"), handler)],
            inflight_initializer: function(Phase::Inflight, false, vec![], vec![]),
        }),
    )
}

fn put_message(object: &str) -> Stmt {
    stmt(0, StmtKind::Expression(call(member(ident(object), "put"), vec![ident("msg")])))
}

#[test]
fn inflight_closure_in_preflight_scope_becomes_a_class() {
    let input = Scope::new(vec![
        let_stmt(0, "b", new_instance("Bucket")),
        let_stmt(1, "f", closure(Phase::Inflight, vec![param("msg")], vec![put_message("b")])),
    ]);
    let mut transformer = ClosureTransformer::new();
    let output = transformer.fold_scope(input);
    let expected = Scope::new(vec![
        let_stmt(0, "b", new_instance("Bucket")),
        closure_class(
            1,
            "$Closure1",
            function(Phase::Inflight, false, vec![param("msg")], vec![put_message("b")]),
        ),
        let_stmt(1, "f", new_instance("$Closure1")),
    ]);
    assert_eq!(output, expected);
}

#[test]
fn closure_in_instance_method_captures_this() {
    let method = function(
        Phase::Preflight,
        false,
        vec![],
        vec![let_stmt(
            4,
            "f",
            closure(
                Phase::Inflight,
                vec![param("msg")],
                vec![stmt(0, StmtKind::Expression(call(member(member(ident("this"), "b"), "put"), vec![ident("msg")])))],
            ),
        )],
    );
    let input = stmt(
        7,
        StmtKind::Class(Class {
            name: Symbol::new("Store"),
            phase: Phase::Preflight,
            initializer: function(Phase::Preflight, true, vec![], vec![]),
            fields: vec![],
            implements: vec![],
            parent: None,
            methods: vec![(Symbol::new("setup"), method)],
            inflight_initializer: function(Phase::Inflight, false, vec![], vec![]),
        }),
    );
    let mut transformer = ClosureTransformer::new();
    let output = transformer.fold_stmt(input);

    let handler = function(
        Phase::Inflight,
        false,
        vec![param("msg")],
        vec![stmt(
            0,
            StmtKind::Expression(call(member(member(ident("__parent_this_1"), "b"), "put"), vec![ident("msg")])),
        )],
    );
    let expected_method = function(
        Phase::Preflight,
        false,
        vec![],
        vec![
            let_stmt(4, "__parent_this_1", ident("this")),
            closure_class(4, "$Closure1", handler),
            let_stmt(4, "f", new_instance("$Closure1")),
        ],
    );
    let expected = stmt(
        7,
        StmtKind::Class(Class {
            name: Symbol::new("Store"),
            phase: Phase::Preflight,
            initializer: function(Phase::Preflight, true, vec![], vec![]),
            fields: vec![],
            implements: vec![],
            parent: None,
            methods: vec![(Symbol::new("setup"), expected_method)],
            inflight_initializer: function(Phase::Inflight, false, vec![], vec![]),
        }),
    );
    assert_eq!(output, expected);
}

#[test]
fn closure_inside_inflight_closure_is_left_alone() {
    let inner = closure(Phase::Inflight, vec![], vec![put_message("b")]);
    let outer_body = vec![let_stmt(0, "g", inner)];
    let input = Scope::new(vec![let_stmt(0, "f", closure(Phase::Inflight, vec![param("msg")], outer_body))]);
    let mut transformer = ClosureTransformer::new();
    let output = transformer.fold_scope(input);

    let kept = closure(Phase::Inflight, vec![], vec![put_message("b")]);
    let expected = Scope::new(vec![
        closure_class(
            0,
            "$Closure1",
            function(Phase::Inflight, false, vec![param("msg")], vec![let_stmt(0, "g", kept)]),
        ),
        let_stmt(0, "f", new_instance("$Closure1")),
    ]);
    assert_eq!(output, expected);
}

#[test]
fn closures_of_one_statement_come_out_in_the_order_met() {
    let first = closure(Phase::Inflight, vec![], vec![]);
    let second = closure(Phase::Inflight, vec![param("msg")], vec![]);
    let input = Scope::new(vec![
        stmt(0, StmtKind::Break),
        stmt(1, StmtKind::Expression(call(ident("join"), vec![first, second]))),
        let_stmt(2, "h", closure(Phase::Inflight, vec![], vec![])),
    ]);
    let mut transformer = ClosureTransformer::new();
    let output = transformer.fold_scope(input);
    let expected = Scope::new(vec![
        stmt(0, StmtKind::Break),
        closure_class(1, "$Closure1", function(Phase::Inflight, false, vec![], vec![])),
        closure_class(1, "$Closure2", function(Phase::Inflight, false, vec![param("msg")], vec![])),
        stmt(1, StmtKind::Expression(call(ident("join"), vec![new_instance("$Closure1"), new_instance("$Closure2")]))),
        closure_class(2, "$Closure3", function(Phase::Inflight, false, vec![], vec![])),
        let_stmt(2, "h", new_instance("$Closure3")),
    ]);
    assert_eq!(output, expected);
}

#[test]
fn preflight_closure_is_converted_inside() {
    let inner = closure(Phase::Inflight, vec![], vec![]);
    let input = Scope::new(vec![let_stmt(
        3,
        "make",
        closure(Phase::Preflight, vec![], vec![stmt(0, StmtKind::Return(Some(inner)))]),
    )]);
    let mut transformer = ClosureTransformer::new();
    let output = transformer.fold_scope(input);
    let expected = Scope::new(vec![let_stmt(
        3,
        "make",
        closure(
            Phase::Preflight,
            vec![],
            vec![
                closure_class(0, "$Closure1", function(Phase::Inflight, false, vec![], vec![])),
                stmt(0, StmtKind::Return(Some(new_instance("$Closure1")))),
            ],
        ),
    )]);
    assert_eq!(output, expected);
}

#[test]
fn second_pass_converts_nothing() {
    let input = Scope::new(vec![
        let_stmt(0, "b", new_instance("Bucket")),
        let_stmt(1, "f", closure(Phase::Inflight, vec![param("msg")], vec![put_message("b")])),
    ]);
    let mut first = ClosureTransformer::new();
    let once = first.fold_scope(input);
    let mut second = ClosureTransformer::new();
    let twice = second.fold_scope(once);
    let expected = Scope::new(vec![
        let_stmt(0, "b", new_instance("Bucket")),
        closure_class(
            1,
            "$Closure1",
            function(Phase::Inflight, false, vec![param("msg")], vec![put_message("b")]),
        ),
        let_stmt(1, "f", new_instance("$Closure1")),
    ]);
    assert_eq!(twice, expected);
}

#[test]
fn closure_passed_as_named_argument_is_converted() {
    let mut named = NamedArgs::new();
    assert!(named.insert("timeout".to_string(), Expr::Literal(Literal::Number(5))).is_none());
    assert!(named.insert("handler".to_string(), closure(Phase::Inflight, vec![], vec![])).is_none());
    let input = Expr::Call { function: Box::new(ident("on")), arg_list: ArgList { pos_args: vec![], named_args: named } };
    let mut transformer = ClosureTransformer::new();
    let output = transformer.fold_expr(input);
    match output {
        Expr::Call { function, arg_list } => {
            assert_eq!(*function, ident("on"));
            let entries = arg_list.named_args.into_entries();
            assert_eq!(
                entries,
                vec![
                    ("timeout".to_string(), Expr::Literal(Literal::Number(5))),
                    ("handler".to_string(), new_instance("$Closure1")),
                ]
            );
        }
        other => panic!("a call is expected, not {:?}", other),
    }
}

fn class_stmt(idx: usize, name: &str, methods: Vec<(Symbol, FunctionDefinition)>) -> Stmt {
    stmt(
        idx,
        StmtKind::Class(Class {
            name: Symbol::new(name),
            phase: Phase::Preflight,
            initializer: function(Phase::Preflight, true, vec![], vec![]),
            fields: vec![],
            implements: vec![],
            parent: None,
            methods,
            inflight_initializer: function(Phase::Inflight, false, vec![], vec![]),
        }),
    )
}

#[test]
fn static_method_does_not_capture_this() {
    let method = |value: Expr| function(Phase::Preflight, true, vec![], vec![let_stmt(0, "f", value)]);
    let input = class_stmt(0, "Util", vec![(Symbol::new("make"), method(closure(Phase::Inflight, vec![], vec![])))]);
    let mut transformer = ClosureTransformer::new();
    let output = transformer.fold_stmt(input);
    let converted = function(
        Phase::Preflight,
        true,
        vec![],
        vec![
            closure_class(0, "$Closure1", function(Phase::Inflight, false, vec![], vec![])),
            let_stmt(0, "f", new_instance("$Closure1")),
        ],
    );
    assert_eq!(output, class_stmt(0, "Util", vec![(Symbol::new("make"), converted)]));
}

#[test]
fn preflight_closure_in_instance_method_keeps_this() {
    let use_this = |name: &str| stmt(0, StmtKind::Expression(member(ident(name), "count")));
    let inner = closure(Phase::Inflight, vec![], vec![use_this("this")]);
    let maker = closure(Phase::Preflight, vec![], vec![stmt(2, StmtKind::Return(Some(inner)))]);
    let method = function(Phase::Preflight, false, vec![], vec![let_stmt(1, "make", maker)]);
    let mut transformer = ClosureTransformer::new();
    let output = transformer.fold_function_definition(method);

    let handler = function(Phase::Inflight, false, vec![], vec![use_this("__parent_this_1")]);
    let expected_maker = closure(
        Phase::Preflight,
        vec![],
        vec![
            let_stmt(2, "__parent_this_1", ident("this")),
            closure_class(2, "$Closure1", handler),
            stmt(2, StmtKind::Return(Some(new_instance("$Closure1")))),
        ],
    );
    let expected = function(Phase::Preflight, false, vec![], vec![let_stmt(1, "make", expected_maker)]);
    assert_eq!(output, expected);
}

#[test]
fn closures_in_inflight_methods_are_left_alone() {
    let method = || {
        function(Phase::Inflight, false, vec![], vec![let_stmt(0, "f", closure(Phase::Inflight, vec![], vec![]))])
    };
    let input = class_stmt(3, "Worker", vec![(Symbol::new("run"), method())]);
    let mut transformer = ClosureTransformer::new();
    let output = transformer.fold_stmt(input);
    assert_eq!(output, class_stmt(3, "Worker", vec![(Symbol::new("run"), method())]));
}

#[test]
fn external_function_bodies_stay() {
    let external = || FunctionDefinition {
        body: FunctionBody::External("./util.js".to_string()),
        signature: FunctionSignature { parameters: vec![], return_type: Box::new(TypeAnnotation::Number), phase: Phase::Preflight },
        is_static: true,
    };
    let mut transformer = ClosureTransformer::new();
    assert_eq!(transformer.fold_function_definition(external()), external());
}

#[test]
fn nested_if_and_loop_bodies_are_converted() {
    let body = |value: Expr| Scope::new(vec![let_stmt(0, "f", value)]);
    let converted_body = |name: &str| {
        Scope::new(vec![
            closure_class(0, name, function(Phase::Inflight, false, vec![], vec![])),
            let_stmt(0, "f", new_instance(name)),
        ])
    };
    let input = Scope::new(vec![
        stmt(
            0,
            StmtKind::If {
                condition: Expr::Literal(Literal::Boolean(true)),
                statements: body(closure(Phase::Inflight, vec![], vec![])),
                else_statements: Some(body(closure(Phase::Inflight, vec![], vec![]))),
            },
        ),
        stmt(
            1,
            StmtKind::ForLoop {
                iterator: Symbol::new("i"),
                iterable: ident("items"),
                statements: body(closure(Phase::Inflight, vec![], vec![])),
            },
        ),
        stmt(2, StmtKind::Scope(body(closure(Phase::Inflight, vec![], vec![])))),
    ]);
    let mut transformer = ClosureTransformer::new();
    let output = transformer.fold_scope(input);
    let expected = Scope::new(vec![
        stmt(
            0,
            StmtKind::If {
                condition: Expr::Literal(Literal::Boolean(true)),
                statements: converted_body("$Closure1"),
                else_statements: Some(converted_body("$Closure2")),
            },
        ),
        stmt(
            1,
            StmtKind::ForLoop {
                iterator: Symbol::new("i"),
                iterable: ident("items"),
                statements: converted_body("$Closure3"),
            },
        ),
        stmt(2, StmtKind::Scope(converted_body("$Closure4"))),
    ]);
    assert_eq!(output, expected);
}

#[test]
fn every_converted_closure_gets_a_name_of_its_own() {
    let mut statements = vec![];
    for idx in 0..12 {
        statements.push(let_stmt(idx, "f", closure(Phase::Inflight, vec![], vec![])));
    }
    let mut transformer = ClosureTransformer::new();
    let output = transformer.fold_scope(Scope::new(statements));
    let mut names = vec![];
    for statement in &output.statements {
        if let StmtKind::Class(class) = &statement.kind {
            names.push(class.name.name.clone());
        }
    }
    assert_eq!(names.len(), 12);
    assert_eq!(names[0], "$Closure1");
    assert_eq!(names[9], "$Closure10");
    assert_eq!(names[11], "$Closure12");
    for i in 0..names.len() {
        for j in 0..i {
            assert_ne!(names[i], names[j]);
        }
    }
}

#[test]
fn counter_goes_on_from_one_scope_to_the_next() {
    let mut transformer = ClosureTransformer::new();
    let first = transformer.fold_scope(Scope::new(vec![let_stmt(0, "f", closure(Phase::Inflight, vec![], vec![]))]));
    let second = transformer.fold_scope(Scope::new(vec![let_stmt(0, "g", closure(Phase::Inflight, vec![], vec![]))]));
    assert_eq!(first.statements[1], let_stmt(0, "f", new_instance("$Closure1")));
    assert_eq!(second.statements[1], let_stmt(0, "g", new_instance("$Closure2")));
}

#[test]
fn conversions_are_counted_without_converting() {
    let nested = closure(Phase::Inflight, vec![], vec![let_stmt(0, "g", closure(Phase::Inflight, vec![], vec![]))]);
    let scope = Scope::new(vec![
        let_stmt(0, "f", nested),
        let_stmt(
            1,
            "h",
            closure(Phase::Preflight, vec![], vec![stmt(0, StmtKind::Return(Some(closure(Phase::Inflight, vec![], vec![]))))]),
        ),
        stmt(2, StmtKind::Expression(call(ident("join"), vec![closure(Phase::Inflight, vec![], vec![]), ident("x")]))),
    ]);
    assert_eq!(conversions_in_scope(Phase::Preflight, &scope), Some(3));
    assert_eq!(conversions_in_scope(Phase::Inflight, &scope), Some(0));
    let method = function(Phase::Preflight, false, vec![], vec![let_stmt(0, "f", closure(Phase::Inflight, vec![], vec![]))]);
    let declared = Scope::new(vec![class_stmt(0, "Store", vec![(Symbol::new("setup"), method)])]);
    assert_eq!(conversions_in_scope(Phase::Inflight, &declared), Some(1));
    assert_eq!(conversions_in_scope(Phase::Preflight, &declared), Some(1));
    assert_eq!(conversions_in_expr(Phase::Preflight, &closure(Phase::Inflight, vec![], vec![])), Some(1));
    assert_eq!(conversions_in_expr(Phase::Inflight, &closure(Phase::Inflight, vec![], vec![])), Some(0));
    assert_eq!(conversions_in_expr(Phase::Preflight, &ident("x")), Some(0));
}

#[test]
fn try_fold_scope_converts_what_fold_scope_converts() {
    let input = || {
        Scope::new(vec![
            let_stmt(0, "b", new_instance("Bucket")),
            let_stmt(1, "f", closure(Phase::Inflight, vec![param("msg")], vec![put_message("b")])),
        ])
    };
    let mut plain = ClosureTransformer::new();
    let expected = plain.fold_scope(input());
    let mut checked = ClosureTransformer::new();
    assert_eq!(checked.try_fold_scope(input()), Ok(expected));
}

#[test]
fn empty_scope_stays_empty() {
    let mut transformer = ClosureTransformer::new();
    assert_eq!(transformer.fold_scope(Scope::new(vec![])), Scope::new(vec![]));
}

#[test]
fn this_in_class_inside_converted_closure_is_kept() {
    let inner_class = || {
        stmt(
            1,
            StmtKind::Class(Class {
                name: Symbol::new("Inner"),
                phase: Phase::Inflight,
                initializer: function(Phase::Inflight, true, vec![], vec![]),
                fields: vec![],
                implements: vec![],
                parent: None,
                methods: vec![(
                    Symbol::new("get"),
                    function(
                        Phase::Inflight,
                        false,
                        vec![],
                        vec![stmt(0, StmtKind::Return(Some(member(ident("this"), "value"))))],
                    ),
                )],
                inflight_initializer: function(Phase::Inflight, false, vec![], vec![]),
            }),
        )
    };
    let body = |name: &str| vec![stmt(0, StmtKind::Expression(member(ident(name), "count"))), inner_class()];
    let method = function(
        Phase::Preflight,
        false,
        vec![],
        vec![let_stmt(0, "f", closure(Phase::Inflight, vec![], body("this")))],
    );
    let mut transformer = ClosureTransformer::new();
    let output = transformer.fold_function_definition(method);
    let expected = function(
        Phase::Preflight,
        false,
        vec![],
        vec![
            let_stmt(0, "__parent_this_1", ident("this")),
            closure_class(0, "$Closure1", function(Phase::Inflight, false, vec![], body("__parent_this_1"))),
            let_stmt(0, "f", new_instance("$Closure1")),
        ],
    );
    assert_eq!(output, expected);
}

#[test]
fn new_classes_take_the_index_of_their_statement() {
    let input = Scope::new(vec![
        let_stmt(17, "f", closure(Phase::Inflight, vec![], vec![])),
        let_stmt(3, "g", closure(Phase::Inflight, vec![], vec![])),
    ]);
    let mut transformer = ClosureTransformer::new();
    let output = transformer.fold_scope(input);
    let indices: Vec<usize> = output.statements.iter().map(|statement| statement.idx).collect();
    assert_eq!(indices, vec![17, 17, 3, 3]);
}

#[test]
fn class_for_a_closure_in_a_condition_stands_before_the_if() {
    let condition = |value: Expr| call(ident("check"), vec![value]);
    let input = Scope::new(vec![stmt(
        0,
        StmtKind::If {
            condition: condition(closure(Phase::Inflight, vec![], vec![])),
            statements: Scope::new(vec![stmt(5, StmtKind::Break)]),
            else_statements: None,
        },
    )]);
    let mut transformer = ClosureTransformer::new();
    let output = transformer.fold_scope(input);
    let expected = Scope::new(vec![
        closure_class(0, "$Closure1", function(Phase::Inflight, false, vec![], vec![])),
        stmt(
            0,
            StmtKind::If {
                condition: condition(new_instance("$Closure1")),
                statements: Scope::new(vec![stmt(5, StmtKind::Break)]),
                else_statements: None,
            },
        ),
    ]);
    assert_eq!(output, expected);
}

#[test]
fn class_does_not_cross_into_a_preflight_closure_that_follows() {
    let follower = |value: Expr| closure(Phase::Preflight, vec![], vec![let_stmt(3, "g", value)]);
    let input = Scope::new(vec![
        stmt(
            0,
            StmtKind::Expression(call(
                ident("join"),
                vec![closure(Phase::Inflight, vec![param("msg")], vec![]), follower(closure(Phase::Inflight, vec![], vec![]))],
            )),
        ),
        let_stmt(1, "h", closure(Phase::Inflight, vec![], vec![])),
    ]);
    let mut transformer = ClosureTransformer::new();
    let output = transformer.fold_scope(input);
    let converted_follower = closure(
        Phase::Preflight,
        vec![],
        vec![
            closure_class(3, "$Closure2", function(Phase::Inflight, false, vec![], vec![])),
            let_stmt(3, "g", new_instance("$Closure2")),
        ],
    );
    let expected = Scope::new(vec![
        closure_class(0, "$Closure1", function(Phase::Inflight, false, vec![param("msg")], vec![])),
        stmt(0, StmtKind::Expression(call(ident("join"), vec![new_instance("$Closure1"), converted_follower]))),
        closure_class(1, "$Closure3", function(Phase::Inflight, false, vec![], vec![])),
        let_stmt(1, "h", new_instance("$Closure3")),
    ]);
    assert_eq!(output, expected);
}

#[test]
fn inflight_function_takes_in_nothing_that_waits() {
    let mut transformer = ClosureTransformer::new();
    // One class waits after this conversion.
    let instance = transformer.fold_expr(closure(Phase::Inflight, vec![], vec![]));
    assert_eq!(instance, new_instance("$Closure1"));
    assert_eq!(transformer.closure_counter(), 1);

    let body = || vec![let_stmt(0, "f", closure(Phase::Inflight, vec![], vec![])), put_message("b")];
    let folded = transformer.fold_function_definition(function(Phase::Inflight, false, vec![], body()));
    assert_eq!(folded, function(Phase::Inflight, false, vec![], body()));
    assert_eq!(transformer.closure_counter(), 1);

    // A scope sets aside what waits: the class is not put into it.
    let scope = transformer.fold_scope(Scope::new(vec![stmt(0, StmtKind::Break)]));
    assert_eq!(scope, Scope::new(vec![stmt(0, StmtKind::Break)]));
}

#[test]
fn second_pass_gives_back_what_it_was_given() {
    let method = function(
        Phase::Preflight,
        false,
        vec![],
        vec![let_stmt(
            0,
            "f",
            call(ident("wrap"), vec![closure(Phase::Inflight, vec![], vec![stmt(0, StmtKind::Expression(ident("this")))])]),
        )],
    );
    let input = Scope::new(vec![
        class_stmt(0, "Store", vec![(Symbol::new("setup"), method)]),
        stmt(
            1,
            StmtKind::If {
                condition: call(ident("check"), vec![closure(Phase::Inflight, vec![], vec![])]),
                statements: Scope::new(vec![let_stmt(0, "g", closure(Phase::Inflight, vec![], vec![]))]),
                else_statements: None,
            },
        ),
    ]);
    let mut first = ClosureTransformer::new();
    let once = first.fold_scope(input);
    assert_eq!(first.closure_counter(), 3);
    assert_eq!(conversions_in_scope(Phase::Preflight, &once), Some(0));

    let mut second = ClosureTransformer::new();
    let again = first_copy(&mut second, &once);
    assert_eq!(second.closure_counter(), 0);
    assert_eq!(again, once);
}

fn first_copy(transformer: &mut ClosureTransformer, scope: &Scope) -> Scope {
    // The tree has no `Clone`: the second pass runs on a tree built anew.
    let rebuilt = rebuild_scope(scope);
    transformer.fold_scope(rebuilt)
}

fn rebuild_scope(scope: &Scope) -> Scope {
    Scope::new(scope.statements.iter().map(rebuild_stmt).collect())
}

fn rebuild_function(definition: &FunctionDefinition) -> FunctionDefinition {
    FunctionDefinition {
        body: match &definition.body {
            FunctionBody::Statements(scope) => FunctionBody::Statements(rebuild_scope(scope)),
            FunctionBody::External(path) => FunctionBody::External(path.to_string()),
        },
        signature: FunctionSignature {
            parameters: definition.signature.parameters.iter().map(|p| param(&p.name.name)).collect(),
            return_type: Box::new(rebuild_type(&definition.signature.return_type)),
            phase: definition.signature.phase,
        },
        is_static: definition.is_static,
    }
}

fn rebuild_type(annotation: &TypeAnnotation) -> TypeAnnotation {
    match annotation {
        TypeAnnotation::UserDefined(named) => class_type(&named.root.name),
        TypeAnnotation::Str => TypeAnnotation::Str,
        _ => TypeAnnotation::Void,
    }
}

fn rebuild_expr(expr: &Expr) -> Expr {
    match expr {
        Expr::Reference(Reference::Identifier(symbol)) => ident(&symbol.name),
        Expr::Reference(Reference::InstanceMember { object, property, .. }) => member(rebuild_expr(object), &property.name),
        Expr::Call { function, arg_list } => call(rebuild_expr(function), arg_list.pos_args.iter().map(rebuild_expr).collect()),
        Expr::New { class, .. } => Expr::New {
            class: rebuild_type(class),
            obj_id: None,
            obj_scope: None,
            arg_list: ArgList { pos_args: vec![], named_args: NamedArgs::new() },
        },
        Expr::Literal(Literal::Boolean(value)) => Expr::Literal(Literal::Boolean(*value)),
        Expr::FunctionClosure(definition) => Expr::FunctionClosure(rebuild_function(definition)),
        other => panic!("this test builds no {:?}", other),
    }
}

fn rebuild_stmt(statement: &Stmt) -> Stmt {
    let kind = match &statement.kind {
        StmtKind::Let { reassignable, var_name, initial_value, .. } => StmtKind::Let {
            reassignable: *reassignable,
            var_name: Symbol::new(&var_name.name),
            initial_value: rebuild_expr(initial_value),
            type_: None,
        },
        StmtKind::Expression(expr) => StmtKind::Expression(rebuild_expr(expr)),
        StmtKind::Assignment { variable: Reference::InstanceMember { object, property, .. }, value } => StmtKind::Assignment {
            variable: Reference::InstanceMember {
                object: Box::new(rebuild_expr(object)),
                property: Symbol::new(&property.name),
                optional_accessor: false,
            },
            value: rebuild_expr(value),
        },
        StmtKind::If { condition, statements, .. } => StmtKind::If {
            condition: rebuild_expr(condition),
            statements: rebuild_scope(statements),
            else_statements: None,
        },
        StmtKind::Class(class) => StmtKind::Class(Class {
            name: Symbol::new(&class.name.name),
            phase: class.phase,
            initializer: rebuild_function(&class.initializer),
            fields: vec![],
            implements: vec![],
            parent: None,
            methods: class.methods.iter().map(|(name, definition)| (Symbol::new(&name.name), rebuild_function(definition))).collect(),
            inflight_initializer: rebuild_function(&class.inflight_initializer),
        }),
        other => panic!("this test builds no {:?}", other),
    };
    Stmt { kind, idx: statement.idx }
}

#[test]
fn classes_of_a_scope_are_numbered_in_their_order() {
    let mut statements = vec![];
    for idx in 0..5 {
        statements.push(stmt(
            idx,
            StmtKind::Expression(call(
                ident("pair"),
                vec![closure(Phase::Inflight, vec![], vec![]), closure(Phase::Inflight, vec![], vec![])],
            )),
        ));
    }
    let mut transformer = ClosureTransformer::new();
    let output = transformer.fold_scope(Scope::new(statements));
    assert_eq!(output.statements.len(), 15);
    let mut names = vec![];
    for (position, statement) in output.statements.iter().enumerate() {
        match &statement.kind {
            StmtKind::Class(class) => {
                assert_ne!(position % 3, 2);
                assert_eq!(statement.idx, position / 3);
                names.push(class.name.name.clone());
            }
            _ => assert_eq!(position % 3, 2),
        }
    }
    let expected: Vec<String> = (1..=10).map(|n| format!("$Closure{}", n)).collect();
    assert_eq!(names, expected);
    assert_eq!(transformer.closure_counter(), 10);
}

#[test]
fn preflight_method_in_a_moved_body_is_reached_by_the_next_pass() {
    let declared = |value: Expr| {
        class_stmt(
            0,
            "Inner",
            vec![(Symbol::new("setup"), function(Phase::Preflight, true, vec![], vec![let_stmt(0, "g", value)]))],
        )
    };
    let input = Scope::new(vec![let_stmt(
        0,
        "f",
        closure(Phase::Inflight, vec![], vec![declared(closure(Phase::Inflight, vec![], vec![]))]),
    )]);
    let mut first = ClosureTransformer::new();
    let once = first.fold_scope(input);
    let moved = function(Phase::Inflight, false, vec![], vec![declared(closure(Phase::Inflight, vec![], vec![]))]);
    let expected = Scope::new(vec![closure_class(0, "$Closure1", moved), let_stmt(0, "f", new_instance("$Closure1"))]);
    assert_eq!(once, expected);
    assert_eq!(conversions_in_scope(Phase::Preflight, &once), Some(1));
}
