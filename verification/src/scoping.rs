//! Where a name is still referred to, and the proof that renaming leaves no
//! bare reference to the old name outside class declarations.

use vstd::prelude::*;
use crate::rename_this::{
    renamed_args, renamed_expr, renamed_exprs, renamed_function_definition, renamed_named_args,
    renamed_reference, renamed_scope, renamed_stmt, renamed_stmts,
};
use crate::view::{
    ArgListView, ExprView, FunctionBodyView, FunctionDefinitionView, ReferenceView, ScopeView,
    StmtKindView, StmtView,
};

verus! {

/// Whether `reference` holds no bare reference to `name`.
pub open spec fn free_of_reference(name: Seq<char>, reference: ReferenceView) -> bool
    decreases reference,
{
    match reference {
        ReferenceView::Identifier(identifier) => identifier != name,
        ReferenceView::InstanceMember { object, .. } => free_of_expr(name, *object),
        ReferenceView::TypeMember { .. } => true,
    }
}

/// Whether `expr` holds no bare reference to `name` outside the class
/// declarations in it.
pub open spec fn free_of_expr(name: Seq<char>, expr: ExprView) -> bool
    decreases expr,
{
    match expr {
        ExprView::New { obj_scope, arg_list, .. } => {
            &&& match obj_scope {
                Some(scope) => free_of_expr(name, *scope),
                None => true,
            }
            &&& free_of_args(name, arg_list)
        },
        ExprView::Literal(_) => true,
        ExprView::Reference(reference) => free_of_reference(name, reference),
        ExprView::Call { function, arg_list } => free_of_expr(name, *function) && free_of_args(name, arg_list),
        ExprView::Unary { exp, .. } => free_of_expr(name, *exp),
        ExprView::Binary { left, right, .. } => free_of_expr(name, *left) && free_of_expr(name, *right),
        ExprView::ArrayLiteral { items, .. } => free_of_exprs(name, items),
        ExprView::FunctionClosure(definition) => free_of_function_definition(name, definition),
    }
}

/// Whether a sequence of expressions holds no bare reference to `name` outside
/// class declarations.
pub open spec fn free_of_exprs(name: Seq<char>, exprs: Seq<ExprView>) -> bool
    decreases exprs,
{
    forall|i: int| 0 <= i < exprs.len() ==> free_of_expr(name, #[trigger] exprs[i])
}

/// Whether named arguments holds no bare reference to `name` outside class
/// declarations.
pub open spec fn free_of_named_args(name: Seq<char>, entries: Seq<(Seq<char>, ExprView)>) -> bool
    decreases entries,
{
    forall|i: int| 0 <= i < entries.len() ==> free_of_expr(name, (#[trigger] entries[i]).1)
}

/// Whether an argument list holds no bare reference to `name` outside class
/// declarations.
pub open spec fn free_of_args(name: Seq<char>, args: ArgListView) -> bool
    decreases args,
{
    free_of_exprs(name, args.pos_args) && free_of_named_args(name, args.named_args)
}

/// Whether a function definition holds no bare reference to `name` outside
/// class declarations.
pub open spec fn free_of_function_definition(
    name: Seq<char>,
    definition: FunctionDefinitionView,
) -> bool
    decreases definition,
{
    match definition.body {
        FunctionBodyView::Statements(scope) => free_of_scope(name, scope),
        FunctionBodyView::External(_) => true,
    }
}

/// Whether a scope holds no bare reference to `name` outside class
/// declarations.
pub open spec fn free_of_scope(name: Seq<char>, scope: ScopeView) -> bool
    decreases scope,
{
    free_of_stmts(name, scope.statements)
}

/// Whether a sequence of statements holds no bare reference to `name` outside
/// class declarations.
pub open spec fn free_of_stmts(name: Seq<char>, stmts: Seq<StmtView>) -> bool
    decreases stmts,
{
    forall|i: int| 0 <= i < stmts.len() ==> free_of_stmt(name, #[trigger] stmts[i])
}

/// Whether `stmt` holds no bare reference to `name`. What a class declaration
/// holds does not count: there the name speaks of something else.
pub open spec fn free_of_stmt(name: Seq<char>, stmt: StmtView) -> bool
    decreases stmt,
{
    match stmt.kind {
        StmtKindView::Let { initial_value, .. } => free_of_expr(name, initial_value),
        StmtKindView::ForLoop { iterable, statements, .. } => free_of_expr(name, iterable) && free_of_scope(
            name,
            statements,
        ),
        StmtKindView::If { condition, statements, else_statements } => {
            &&& free_of_expr(name, condition)
            &&& free_of_scope(name, statements)
            &&& match else_statements {
                Some(scope) => free_of_scope(name, scope),
                None => true,
            }
        },
        StmtKindView::Expression(expr) => free_of_expr(name, expr),
        StmtKindView::Assignment { variable, value } => free_of_reference(name, variable) && free_of_expr(
            name,
            value,
        ),
        StmtKindView::Return(value) => match value {
            Some(expr) => free_of_expr(name, expr),
            None => true,
        },
        StmtKindView::Scope(scope) => free_of_scope(name, scope),
        StmtKindView::Class(_) => true,
        StmtKindView::Break => true,
        StmtKindView::Continue => true,
    }
}

/// A bare reference to the old name becomes a bare reference to the new one.
pub proof fn lemma_rename_replaces_bare_reference(from: Seq<char>, to: Seq<char>)
    ensures
        renamed_reference(from, to, ReferenceView::Identifier(from)) == ReferenceView::Identifier(to),
        renamed_expr(from, to, ExprView::Reference(ReferenceView::Identifier(from)))
            == ExprView::Reference(ReferenceView::Identifier(to)),
{
}

/// Renaming leaves a class declaration as it is, whatever refers to the old
/// name inside it.
pub proof fn lemma_rename_keeps_class_declarations(from: Seq<char>, to: Seq<char>, stmt: StmtView)
    requires
        stmt.kind is Class,
    ensures
        renamed_stmt(from, to, stmt) == stmt,
{
}

// The induction behind `lemma_rename_frees_function_definition`, one step
// for each kind of node.

proof fn lemma_rename_frees_reference(from: Seq<char>, to: Seq<char>, reference: ReferenceView)
    requires
        from != to,
    ensures
        free_of_reference(from, renamed_reference(from, to, reference)),
    decreases reference,
{
    match reference {
        ReferenceView::InstanceMember { object, property, optional_accessor } => {
            lemma_rename_frees_expr(from, to, *object);
        },
        _ => {},
    }
}

proof fn lemma_rename_frees_expr(from: Seq<char>, to: Seq<char>, expr: ExprView)
    requires
        from != to,
    ensures
        free_of_expr(from, renamed_expr(from, to, expr)),
    decreases expr,
{
    match expr {
        ExprView::New { class, obj_id, obj_scope, arg_list } => {
            match obj_scope {
                Some(scope) => {
                    lemma_rename_frees_expr(from, to, *scope);
                },
                None => {},
            }
            lemma_rename_frees_args(from, to, arg_list);
        },
        ExprView::Literal(_) => {},
        ExprView::Reference(reference) => {
            lemma_rename_frees_reference(from, to, reference);
        },
        ExprView::Call { function, arg_list } => {
            lemma_rename_frees_expr(from, to, *function);
            lemma_rename_frees_args(from, to, arg_list);
        },
        ExprView::Unary { op, exp } => {
            lemma_rename_frees_expr(from, to, *exp);
        },
        ExprView::Binary { op, left, right } => {
            lemma_rename_frees_expr(from, to, *left);
            lemma_rename_frees_expr(from, to, *right);
        },
        ExprView::ArrayLiteral { type_, items } => {
            lemma_rename_frees_exprs(from, to, items);
        },
        ExprView::FunctionClosure(definition) => {
            lemma_rename_frees_function_definition(from, to, definition);
        },
    }
}

proof fn lemma_rename_frees_exprs(from: Seq<char>, to: Seq<char>, exprs: Seq<ExprView>)
    requires
        from != to,
    ensures
        free_of_exprs(from, renamed_exprs(from, to, exprs)),
    decreases exprs,
{
    let renamed = renamed_exprs(from, to, exprs);
    assert forall|i: int| 0 <= i < renamed.len() implies free_of_expr(from, #[trigger] renamed[i]) by {
        lemma_rename_frees_expr(from, to, exprs[i]);
    }
}

proof fn lemma_rename_frees_named_args(
    from: Seq<char>,
    to: Seq<char>,
    entries: Seq<(Seq<char>, ExprView)>,
)
    requires
        from != to,
    ensures
        free_of_named_args(from, renamed_named_args(from, to, entries)),
    decreases entries,
{
    let renamed = renamed_named_args(from, to, entries);
    assert forall|i: int| 0 <= i < renamed.len() implies free_of_expr(from, (#[trigger] renamed[i]).1) by {
        lemma_rename_frees_expr(from, to, entries[i].1);
    }
}

proof fn lemma_rename_frees_args(from: Seq<char>, to: Seq<char>, args: ArgListView)
    requires
        from != to,
    ensures
        free_of_args(from, renamed_args(from, to, args)),
    decreases args,
{
    lemma_rename_frees_exprs(from, to, args.pos_args);
    lemma_rename_frees_named_args(from, to, args.named_args);
}

/// After renaming, the body of a function holds no bare reference to the
/// old name outside the class declarations in it.
pub proof fn lemma_rename_frees_function_definition(
    from: Seq<char>,
    to: Seq<char>,
    definition: FunctionDefinitionView,
)
    requires
        from != to,
    ensures
        free_of_function_definition(from, renamed_function_definition(from, to, definition)),
    decreases definition,
{
    match definition.body {
        FunctionBodyView::Statements(scope) => {
            lemma_rename_frees_scope(from, to, scope);
        },
        FunctionBodyView::External(_) => {},
    }
}

proof fn lemma_rename_frees_scope(from: Seq<char>, to: Seq<char>, scope: ScopeView)
    requires
        from != to,
    ensures
        free_of_scope(from, renamed_scope(from, to, scope)),
    decreases scope,
{
    lemma_rename_frees_stmts(from, to, scope.statements);
}

proof fn lemma_rename_frees_stmts(from: Seq<char>, to: Seq<char>, stmts: Seq<StmtView>)
    requires
        from != to,
    ensures
        free_of_stmts(from, renamed_stmts(from, to, stmts)),
    decreases stmts,
{
    let renamed = renamed_stmts(from, to, stmts);
    assert forall|i: int| 0 <= i < renamed.len() implies free_of_stmt(from, #[trigger] renamed[i]) by {
        lemma_rename_frees_stmt(from, to, stmts[i]);
    }
}

proof fn lemma_rename_frees_stmt(from: Seq<char>, to: Seq<char>, stmt: StmtView)
    requires
        from != to,
    ensures
        free_of_stmt(from, renamed_stmt(from, to, stmt)),
    decreases stmt,
{
    match stmt.kind {
        StmtKindView::Let { reassignable, var_name, initial_value, type_ } => {
            lemma_rename_frees_expr(from, to, initial_value);
        },
        StmtKindView::ForLoop { iterator, iterable, statements } => {
            lemma_rename_frees_expr(from, to, iterable);
            lemma_rename_frees_scope(from, to, statements);
        },
        StmtKindView::If { condition, statements, else_statements } => {
            lemma_rename_frees_expr(from, to, condition);
            lemma_rename_frees_scope(from, to, statements);
            match else_statements {
                Some(scope) => {
                    lemma_rename_frees_scope(from, to, scope);
                },
                None => {},
            }
        },
        StmtKindView::Expression(expr) => {
            lemma_rename_frees_expr(from, to, expr);
        },
        StmtKindView::Assignment { variable, value } => {
            lemma_rename_frees_reference(from, to, variable);
            lemma_rename_frees_expr(from, to, value);
        },
        StmtKindView::Return(value) => {
            match value {
                Some(expr) => {
                    lemma_rename_frees_expr(from, to, expr);
                },
                None => {},
            }
        },
        StmtKindView::Scope(scope) => {
            lemma_rename_frees_scope(from, to, scope);
        },
        StmtKindView::Class(_) => {},
        StmtKindView::Break => {},
        StmtKindView::Continue => {},
    }
}

} // verus!
