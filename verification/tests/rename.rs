use closure_transform::ast::{
    ArgList, Class, Expr, FunctionBody, FunctionDefinition, FunctionSignature, Literal, Phase,
    Reference, Scope, Stmt, StmtKind, Symbol, TypeAnnotation, UserDefinedType,
};
use closure_transform::named_args::NamedArgs;
use closure_transform::rename_this::RenameThisTransformer;

fn ident(name: &str) -> Expr {
    Expr::Reference(Reference::Identifier(Symbol::new(name)))
}

fn member(object: Expr, property: &str) -> Expr {
    Expr::Reference(Reference::InstanceMember {
        object: Box::new(object),
        property: Symbol::new(property),
        optional_accessor: false,
    })
}

fn expression(idx: usize, expr: Expr) -> Stmt {
    Stmt { kind: StmtKind::Expression(expr), idx }
}

fn function(phase: Phase, is_static: bool, statements: Vec<Stmt>) -> FunctionDefinition {
    FunctionDefinition {
        body: FunctionBody::Statements(Scope::new(statements)),
        signature: FunctionSignature { parameters: vec![], return_type: Box::new(TypeAnnotation::Void), phase },
        is_static,
    }
}

fn class_with_method(name: &str, method: FunctionDefinition) -> Stmt {
    Stmt {
        idx: 1,
        kind: StmtKind::Class(Class {
            name: Symbol::new(name),
            phase: Phase::Inflight,
            initializer: function(Phase::Inflight, true, vec![expression(0, member(ident("this"), "x"))]),
            fields: vec![],
            implements: vec![],
            parent: None,
            methods: vec![(Symbol::new("get"), method)],
            inflight_initializer: function(Phase::Inflight, false, vec![]),
        }),
    }
}

#[test]
fn bare_identifier_is_renamed() {
    let mut renamer = RenameThisTransformer::new("this", "__parent_this_3");
    let renamed = renamer.fold_reference(Reference::Identifier(Symbol::new("this")));
    assert_eq!(renamed, Reference::Identifier(Symbol::new("__parent_this_3")));
}

#[test]
fn other_identifiers_stay() {
    let mut renamer = RenameThisTransformer::new("this", "__parent_this_3");
    assert_eq!(renamer.fold_expr(ident("that")), ident("that"));
    assert_eq!(renamer.fold_expr(ident("thi")), ident("thi"));
    assert_eq!(renamer.fold_expr(Expr::Literal(Literal::String("this".to_string()))), Expr::Literal(Literal::String("this".to_string())));
}

#[test]
fn member_access_is_renamed_at_its_root_only() {
    let mut renamer = RenameThisTransformer::new("this", "__parent_this_1");
    let renamed = renamer.fold_expr(member(member(ident("this"), "this"), "b"));
    assert_eq!(renamed, member(member(ident("__parent_this_1"), "this"), "b"));
}

#[test]
fn type_member_is_not_renamed() {
    let mut renamer = RenameThisTransformer::new("this", "__parent_this_1");
    let reference = || Reference::TypeMember {
        type_: UserDefinedType { root: Symbol::new("this"), fields: vec![] },
        property: Symbol::new("this"),
    };
    assert_eq!(renamer.fold_reference(reference()), reference());
}

#[test]
fn this_inside_nested_class_is_left_unchanged() {
    let method = || function(Phase::Inflight, false, vec![expression(0, member(ident("this"), "x"))]);
    let body = Scope::new(vec![
        expression(0, member(ident("this"), "b")),
        class_with_method("Inner", method()),
        expression(2, ident("this")),
    ]);
    let mut renamer = RenameThisTransformer::new("this", "__parent_this_1");
    let renamed = renamer.fold_scope(body);
    let expected = Scope::new(vec![
        expression(0, member(ident("__parent_this_1"), "b")),
        class_with_method("Inner", method()),
        expression(2, ident("__parent_this_1")),
    ]);
    assert_eq!(renamed, expected);
}

#[test]
fn renaming_goes_on_after_a_class() {
    let method = || function(Phase::Inflight, false, vec![expression(0, ident("this"))]);
    let mut renamer = RenameThisTransformer::new("this", "self_1");
    let class = match class_with_method("Inner", method()).kind {
        StmtKind::Class(class) => class,
        _ => unreachable!(),
    };
    let kept = renamer.fold_class(class);
    let expected = match class_with_method("Inner", method()).kind {
        StmtKind::Class(class) => class,
        _ => unreachable!(),
    };
    assert_eq!(kept, expected);
    assert_eq!(renamer.fold_expr(ident("this")), ident("self_1"));
}

#[test]
fn closures_in_the_body_are_renamed_inside() {
    let inner = |name: &str| {
        Expr::FunctionClosure(function(Phase::Inflight, true, vec![expression(0, member(ident(name), "b"))]))
    };
    let mut renamer = RenameThisTransformer::new("this", "__parent_this_2");
    let renamed = renamer.fold_function_definition(function(
        Phase::Inflight,
        true,
        vec![Stmt { kind: StmtKind::Return(Some(inner("this"))), idx: 0 }],
    ));
    let expected = function(
        Phase::Inflight,
        true,
        vec![Stmt { kind: StmtKind::Return(Some(inner("__parent_this_2"))), idx: 0 }],
    );
    assert_eq!(renamed, expected);
}

#[test]
fn arguments_are_renamed_in_their_places() {
    let mut named = NamedArgs::new();
    named.insert("first".to_string(), ident("this"));
    named.insert("second".to_string(), ident("other"));
    let call = Expr::Call {
        function: Box::new(member(ident("this"), "run")),
        arg_list: ArgList { pos_args: vec![ident("a"), ident("this")], named_args: named },
    };
    let mut renamer = RenameThisTransformer::new("this", "__parent_this_1");
    match renamer.fold_expr(call) {
        Expr::Call { function, arg_list } => {
            assert_eq!(*function, member(ident("__parent_this_1"), "run"));
            assert_eq!(arg_list.pos_args, vec![ident("a"), ident("__parent_this_1")]);
            assert_eq!(
                arg_list.named_args.into_entries(),
                vec![("first".to_string(), ident("__parent_this_1")), ("second".to_string(), ident("other"))]
            );
        }
        other => panic!("a call is expected, not {:?}", other),
    }
}

#[test]
fn default_renamer_renames_this_to_the_capture_stem() {
    let mut renamer = RenameThisTransformer::default();
    assert_eq!(renamer.fold_expr(ident("this")), ident("__parent_this"));
    assert_eq!(renamer.fold_expr(ident("__parent_this")), ident("__parent_this"));
}

#[test]
fn statements_keep_their_order_and_indices() {
    let body = Scope::new(vec![
        Stmt {
            idx: 5,
            kind: StmtKind::Let {
                reassignable: true,
                var_name: Symbol::new("this"),
                initial_value: ident("this"),
                type_: Some(TypeAnnotation::Number),
            },
        },
        Stmt {
            idx: 9,
            kind: StmtKind::Assignment {
                variable: Reference::Identifier(Symbol::new("this")),
                value: Expr::Literal(Literal::Number(3)),
            },
        },
        Stmt { idx: 2, kind: StmtKind::Break },
    ]);
    let mut renamer = RenameThisTransformer::new("this", "t");
    let renamed = renamer.fold_scope(body);
    let expected = Scope::new(vec![
        Stmt {
            idx: 5,
            kind: StmtKind::Let {
                reassignable: true,
                var_name: Symbol::new("this"),
                initial_value: ident("t"),
                type_: Some(TypeAnnotation::Number),
            },
        },
        Stmt {
            idx: 9,
            kind: StmtKind::Assignment {
                variable: Reference::Identifier(Symbol::new("t")),
                value: Expr::Literal(Literal::Number(3)),
            },
        },
        Stmt { idx: 2, kind: StmtKind::Break },
    ]);
    assert_eq!(renamed, expected);
}
