//! The conversion as a function on trees: what each node becomes, and what
//! the traversal carries on from it.

use vstd::prelude::*;
use crate::ast::Phase;
use crate::synthesis::{converted_closure, Ambient, Converted, Synthesis};
use crate::view::{
    ArgListView, ClassView, ExprView, FunctionBodyView, FunctionDefinitionView, ReferenceView,
    ScopeView, StmtKindView, StmtView,
};

verus! {

/// An expression after conversion. Inflight code is left as it is. In
/// preflight code an inflight closure is converted, a preflight closure is
/// converted inside, and every other expression is converted child by child,
/// from left to right.
pub open spec fn converted_expr(
    ambient: Ambient,
    synthesis: Synthesis,
    expr: ExprView,
) -> Converted<ExprView>
    decreases expr,
{
    if ambient.phase == Phase::Inflight {
        Converted { synthesis, node: expr }
    } else {
        match expr {
            ExprView::FunctionClosure(definition) => {
                if definition.signature.phase == Phase::Inflight {
                    converted_closure(ambient, synthesis, definition)
                } else {
                    let inner = converted_function_definition(ambient, synthesis, definition);
                    Converted { synthesis: inner.synthesis, node: ExprView::FunctionClosure(inner.node) }
                }
            },
            ExprView::New { class, obj_id, obj_scope, arg_list } => {
                let scope = converted_optional_expr(ambient, synthesis, obj_scope);
                let args = converted_args(ambient, scope.synthesis, arg_list);
                Converted {
                    synthesis: args.synthesis,
                    node: ExprView::New { class, obj_id, obj_scope: scope.node, arg_list: args.node },
                }
            },
            ExprView::Literal(_) => Converted { synthesis, node: expr },
            ExprView::Reference(reference) => {
                let inner = converted_reference(ambient, synthesis, reference);
                Converted { synthesis: inner.synthesis, node: ExprView::Reference(inner.node) }
            },
            ExprView::Call { function, arg_list } => {
                let callee = converted_expr(ambient, synthesis, *function);
                let args = converted_args(ambient, callee.synthesis, arg_list);
                Converted {
                    synthesis: args.synthesis,
                    node: ExprView::Call { function: Box::new(callee.node), arg_list: args.node },
                }
            },
            ExprView::Unary { op, exp } => {
                let inner = converted_expr(ambient, synthesis, *exp);
                Converted { synthesis: inner.synthesis, node: ExprView::Unary { op, exp: Box::new(inner.node) } }
            },
            ExprView::Binary { op, left, right } => {
                let first = converted_expr(ambient, synthesis, *left);
                let second = converted_expr(ambient, first.synthesis, *right);
                Converted {
                    synthesis: second.synthesis,
                    node: ExprView::Binary { op, left: Box::new(first.node), right: Box::new(second.node) },
                }
            },
            ExprView::ArrayLiteral { type_, items } => {
                let inner = converted_exprs(ambient, synthesis, items);
                Converted { synthesis: inner.synthesis, node: ExprView::ArrayLiteral { type_, items: inner.node } }
            },
        }
    }
}

/// An expression that may be absent, after conversion.
pub open spec fn converted_optional_expr(
    ambient: Ambient,
    synthesis: Synthesis,
    expr: Option<Box<ExprView>>,
) -> Converted<Option<Box<ExprView>>>
    decreases expr,
{
    match expr {
        Some(inner) => {
            let converted = converted_expr(ambient, synthesis, *inner);
            Converted { synthesis: converted.synthesis, node: Some(Box::new(converted.node)) }
        },
        None => Converted { synthesis, node: None },
    }
}

/// A sequence of expressions after conversion, from the first to the last.
pub open spec fn converted_exprs(
    ambient: Ambient,
    synthesis: Synthesis,
    exprs: Seq<ExprView>,
) -> Converted<Seq<ExprView>>
    decreases exprs,
{
    if exprs.len() == 0 {
        Converted { synthesis, node: Seq::empty() }
    } else {
        let front = converted_exprs(ambient, synthesis, exprs.drop_last());
        let last = converted_expr(ambient, front.synthesis, exprs.last());
        Converted { synthesis: last.synthesis, node: front.node.push(last.node) }
    }
}

/// Named arguments after conversion, from the first to the last; the names
/// stay.
pub open spec fn converted_named_args(
    ambient: Ambient,
    synthesis: Synthesis,
    entries: Seq<(Seq<char>, ExprView)>,
) -> Converted<Seq<(Seq<char>, ExprView)>>
    decreases entries,
{
    if entries.len() == 0 {
        Converted { synthesis, node: Seq::empty() }
    } else {
        let front = converted_named_args(ambient, synthesis, entries.drop_last());
        let last = converted_expr(ambient, front.synthesis, entries.last().1);
        Converted { synthesis: last.synthesis, node: front.node.push((entries.last().0, last.node)) }
    }
}

/// An argument list after conversion: the positional arguments first, then
/// the named ones.
pub open spec fn converted_args(
    ambient: Ambient,
    synthesis: Synthesis,
    args: ArgListView,
) -> Converted<ArgListView>
    decreases args,
{
    let positional = converted_exprs(ambient, synthesis, args.pos_args);
    let named = converted_named_args(ambient, positional.synthesis, args.named_args);
    Converted {
        synthesis: named.synthesis,
        node: ArgListView { pos_args: positional.node, named_args: named.node },
    }
}

/// A reference after conversion: only the object of a member access can
/// change.
pub open spec fn converted_reference(
    ambient: Ambient,
    synthesis: Synthesis,
    reference: ReferenceView,
) -> Converted<ReferenceView>
    decreases reference,
{
    match reference {
        ReferenceView::InstanceMember { object, property, optional_accessor } => {
            let inner = converted_expr(ambient, synthesis, *object);
            Converted {
                synthesis: inner.synthesis,
                node: ReferenceView::InstanceMember { object: Box::new(inner.node), property, optional_accessor },
            }
        },
        _ => Converted { synthesis, node: reference },
    }
}

/// The surroundings of a function's body: the function's own phase, and
/// `this` where the function is an instance method or `this` was there
/// already.
pub open spec fn ambient_inside(ambient: Ambient, definition: FunctionDefinitionView) -> Ambient {
    Ambient {
        phase: definition.signature.phase,
        inside_scope_with_this: ambient.inside_scope_with_this || !definition.is_static,
        nearest_stmt_idx: ambient.nearest_stmt_idx,
    }
}

/// A function definition after conversion: its body is converted in the
/// function's own surroundings.
pub open spec fn converted_function_definition(
    ambient: Ambient,
    synthesis: Synthesis,
    definition: FunctionDefinitionView,
) -> Converted<FunctionDefinitionView>
    decreases definition,
{
    match definition.body {
        FunctionBodyView::Statements(scope) => {
            let body = converted_scope(ambient_inside(ambient, definition), synthesis, scope);
            Converted {
                synthesis: body.synthesis,
                node: FunctionDefinitionView {
                    body: FunctionBodyView::Statements(body.node),
                    signature: definition.signature,
                    is_static: definition.is_static,
                },
            }
        },
        FunctionBodyView::External(_) => Converted { synthesis, node: definition },
    }
}

/// What the traversal carries when it enters a scope: the counter goes on,
/// and nothing waits, since what waits outside belongs to a statement of an
/// enclosing scope.
pub open spec fn entering_scope(synthesis: Synthesis) -> Synthesis {
    Synthesis { closure_counter: synthesis.closure_counter, class_statements: Seq::empty() }
}

/// A scope after conversion. The scope has a waiting list of its own: what
/// waits when the scope begins is set aside and waits again, untouched, when
/// the scope ends. Every declaration made for a statement of the scope is put
/// out inside the scope.
pub open spec fn converted_scope(
    ambient: Ambient,
    synthesis: Synthesis,
    scope: ScopeView,
) -> Converted<ScopeView>
    decreases scope,
{
    let statements = converted_stmts(ambient, entering_scope(synthesis), scope.statements);
    Converted {
        synthesis: Synthesis {
            closure_counter: statements.synthesis.closure_counter,
            class_statements: synthesis.class_statements,
        },
        node: ScopeView { statements: statements.node },
    }
}

/// The statements of a scope after conversion. Each statement is converted
/// under its own index; the statements that wait after that are put out in
/// the order in which they came, then the converted statement, and nothing
/// waits when the next statement begins.
pub open spec fn converted_stmts(
    ambient: Ambient,
    synthesis: Synthesis,
    stmts: Seq<StmtView>,
) -> Converted<Seq<StmtView>>
    decreases stmts,
{
    if stmts.len() == 0 {
        Converted { synthesis, node: Seq::empty() }
    } else {
        let front = converted_stmts(ambient, synthesis, stmts.drop_last());
        let last = converted_stmt(
            Ambient { nearest_stmt_idx: stmts.last().idx, ..ambient },
            front.synthesis,
            stmts.last(),
        );
        Converted {
            synthesis: Synthesis {
                closure_counter: last.synthesis.closure_counter,
                class_statements: Seq::empty(),
            },
            node: front.node + last.synthesis.class_statements + seq![last.node],
        }
    }
}

/// A scope that may be absent, after conversion.
pub open spec fn converted_optional_scope(
    ambient: Ambient,
    synthesis: Synthesis,
    scope: Option<ScopeView>,
) -> Converted<Option<ScopeView>>
    decreases scope,
{
    match scope {
        Some(inner) => {
            let converted = converted_scope(ambient, synthesis, inner);
            Converted { synthesis: converted.synthesis, node: Some(converted.node) }
        },
        None => Converted { synthesis, node: None },
    }
}

/// A statement after conversion: its parts are converted from left to right,
/// and it keeps its index.
pub open spec fn converted_stmt(
    ambient: Ambient,
    synthesis: Synthesis,
    stmt: StmtView,
) -> Converted<StmtView>
    decreases stmt,
{
    let kind = converted_stmt_kind(ambient, synthesis, stmt.kind);
    Converted { synthesis: kind.synthesis, node: StmtView { kind: kind.node, idx: stmt.idx } }
}

/// What a statement says, after conversion.
pub open spec fn converted_stmt_kind(
    ambient: Ambient,
    synthesis: Synthesis,
    kind: StmtKindView,
) -> Converted<StmtKindView>
    decreases kind,
{
    match kind {
        StmtKindView::Let { reassignable, var_name, initial_value, type_ } => {
            let value = converted_expr(ambient, synthesis, initial_value);
            Converted {
                synthesis: value.synthesis,
                node: StmtKindView::Let { reassignable, var_name, initial_value: value.node, type_ },
            }
        },
        StmtKindView::ForLoop { iterator, iterable, statements } => {
            let source = converted_expr(ambient, synthesis, iterable);
            let body = converted_scope(ambient, source.synthesis, statements);
            Converted {
                synthesis: body.synthesis,
                node: StmtKindView::ForLoop { iterator, iterable: source.node, statements: body.node },
            }
        },
        StmtKindView::If { condition, statements, else_statements } => {
            let test = converted_expr(ambient, synthesis, condition);
            let body = converted_scope(ambient, test.synthesis, statements);
            let otherwise = converted_optional_scope(ambient, body.synthesis, else_statements);
            Converted {
                synthesis: otherwise.synthesis,
                node: StmtKindView::If {
                    condition: test.node,
                    statements: body.node,
                    else_statements: otherwise.node,
                },
            }
        },
        StmtKindView::Expression(expr) => {
            let inner = converted_expr(ambient, synthesis, expr);
            Converted { synthesis: inner.synthesis, node: StmtKindView::Expression(inner.node) }
        },
        StmtKindView::Assignment { variable, value } => {
            let target = converted_reference(ambient, synthesis, variable);
            let source = converted_expr(ambient, target.synthesis, value);
            Converted {
                synthesis: source.synthesis,
                node: StmtKindView::Assignment { variable: target.node, value: source.node },
            }
        },
        StmtKindView::Return(value) => {
            match value {
                Some(expr) => {
                    let inner = converted_expr(ambient, synthesis, expr);
                    Converted { synthesis: inner.synthesis, node: StmtKindView::Return(Some(inner.node)) }
                },
                None => Converted { synthesis, node: kind },
            }
        },
        StmtKindView::Scope(scope) => {
            let inner = converted_scope(ambient, synthesis, scope);
            Converted { synthesis: inner.synthesis, node: StmtKindView::Scope(inner.node) }
        },
        StmtKindView::Class(class) => {
            let inner = converted_class(ambient, synthesis, class);
            Converted { synthesis: inner.synthesis, node: StmtKindView::Class(inner.node) }
        },
        StmtKindView::Break => Converted { synthesis, node: kind },
        StmtKindView::Continue => Converted { synthesis, node: kind },
    }
}

/// A class declaration after conversion: its initializer, then its methods in
/// their order, then its inflight initializer.
pub open spec fn converted_class(
    ambient: Ambient,
    synthesis: Synthesis,
    class: ClassView,
) -> Converted<ClassView>
    decreases class,
{
    let initializer = converted_function_definition(ambient, synthesis, class.initializer);
    let methods = converted_methods(ambient, initializer.synthesis, class.methods);
    let inflight_initializer = converted_function_definition(
        ambient,
        methods.synthesis,
        class.inflight_initializer,
    );
    Converted {
        synthesis: inflight_initializer.synthesis,
        node: ClassView {
            initializer: initializer.node,
            methods: methods.node,
            inflight_initializer: inflight_initializer.node,
            ..class
        },
    }
}

/// The methods of a class after conversion, from the first to the last; the
/// names stay.
pub open spec fn converted_methods(
    ambient: Ambient,
    synthesis: Synthesis,
    methods: Seq<(Seq<char>, FunctionDefinitionView)>,
) -> Converted<Seq<(Seq<char>, FunctionDefinitionView)>>
    decreases methods,
{
    if methods.len() == 0 {
        Converted { synthesis, node: Seq::empty() }
    } else {
        let front = converted_methods(ambient, synthesis, methods.drop_last());
        let last = converted_function_definition(ambient, front.synthesis, methods.last().1);
        Converted { synthesis: last.synthesis, node: front.node.push((methods.last().0, last.node)) }
    }
}

} // verus!
