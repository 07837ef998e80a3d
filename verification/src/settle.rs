//! One pass is enough: after a conversion no inflight closure is left in
//! preflight code, so that a second conversion converts nothing.
//!
//! This holds of every tree in which the body of each converted closure is
//! itself free of closures to convert. Such a closure can only sit in a
//! preflight function of a class that the body declares as a statement: the
//! conversion does not look into the body while it moves it, but a later walk
//! reaches that function through the new class.

use vstd::prelude::*;
use crate::ast::Phase;
use crate::conversion::{
    ambient_inside, converted_args, converted_class, converted_expr, converted_exprs,
    converted_function_definition, converted_methods, converted_named_args, converted_optional_expr,
    converted_optional_scope, converted_reference, converted_scope, converted_stmt,
    converted_stmt_kind, converted_stmts, entering_scope,
};
use crate::count::{
    conversions_args, conversions_class, conversions_expr, conversions_exprs,
    conversions_function_definition, conversions_methods, conversions_named_args,
    conversions_optional_expr, conversions_optional_scope, conversions_reference, conversions_scope,
    conversions_stmt, conversions_stmt_kind, conversions_stmts, lemma_conversions_stmts_split,
};
use crate::names::THIS_NAME;
use crate::rename_this::{
    renamed_args, renamed_expr, renamed_exprs, renamed_function_definition, renamed_named_args,
    renamed_reference, renamed_scope, renamed_stmt, renamed_stmts,
};
use crate::synthesis::{
    capture_binding, closure_class, closure_class_inflight_initializer, closure_class_initializer,
    closure_instance, closure_method, closure_statements, hidden_marker, this_reference, Ambient,
    Converted, Synthesis,
};
use crate::view::{
    ArgListView, ClassView, ExprView, FunctionBodyView, FunctionDefinitionView, ReferenceView,
    ScopeView, StmtKindView, StmtView,
};

verus! {

/// Whether one conversion of `expr`, in code of the given phase, is enough:
/// the body of every closure that it converts holds nothing to convert.
pub open spec fn settles_expr(phase: Phase, expr: ExprView) -> bool
    decreases expr,
{
    if phase == Phase::Inflight {
        true
    } else {
        match expr {
            ExprView::FunctionClosure(definition) => {
                if definition.signature.phase == Phase::Inflight {
                    conversions_function_definition(definition) == 0
                } else {
                    settles_function_definition(definition)
                }
            },
            ExprView::New { obj_scope, arg_list, .. } => {
                &&& match obj_scope {
                    Some(scope) => settles_expr(phase, *scope),
                    None => true,
                }
                &&& settles_args(phase, arg_list)
            },
            ExprView::Literal(_) => true,
            ExprView::Reference(reference) => settles_reference(phase, reference),
            ExprView::Call { function, arg_list } => settles_expr(phase, *function) && settles_args(
                phase,
                arg_list,
            ),
            ExprView::Unary { exp, .. } => settles_expr(phase, *exp),
            ExprView::Binary { left, right, .. } => settles_expr(phase, *left) && settles_expr(phase, *right),
            ExprView::ArrayLiteral { items, .. } => settles_exprs(phase, items),
        }
    }
}

/// Whether one conversion is enough for a sequence of expressions.
pub open spec fn settles_exprs(phase: Phase, exprs: Seq<ExprView>) -> bool
    decreases exprs,
{
    forall|i: int| 0 <= i < exprs.len() ==> settles_expr(phase, #[trigger] exprs[i])
}

/// Whether one conversion is enough for named arguments.
pub open spec fn settles_named_args(phase: Phase, entries: Seq<(Seq<char>, ExprView)>) -> bool
    decreases entries,
{
    forall|i: int| 0 <= i < entries.len() ==> settles_expr(phase, (#[trigger] entries[i]).1)
}

/// Whether one conversion is enough for an argument list.
pub open spec fn settles_args(phase: Phase, args: ArgListView) -> bool
    decreases args,
{
    settles_exprs(phase, args.pos_args) && settles_named_args(phase, args.named_args)
}

/// Whether one conversion is enough for a reference.
pub open spec fn settles_reference(phase: Phase, reference: ReferenceView) -> bool
    decreases reference,
{
    match reference {
        ReferenceView::InstanceMember { object, .. } => settles_expr(phase, *object),
        _ => true,
    }
}

/// Whether one conversion is enough for a function definition.
pub open spec fn settles_function_definition(definition: FunctionDefinitionView) -> bool
    decreases definition,
{
    match definition.body {
        FunctionBodyView::Statements(scope) => settles_scope(definition.signature.phase, scope),
        FunctionBodyView::External(_) => true,
    }
}

/// Whether one conversion is enough for a scope.
pub open spec fn settles_scope(phase: Phase, scope: ScopeView) -> bool
    decreases scope,
{
    settles_stmts(phase, scope.statements)
}

/// Whether one conversion is enough for a sequence of statements.
pub open spec fn settles_stmts(phase: Phase, stmts: Seq<StmtView>) -> bool
    decreases stmts,
{
    forall|i: int| 0 <= i < stmts.len() ==> settles_stmt(phase, #[trigger] stmts[i])
}

/// Whether one conversion is enough for a statement.
pub open spec fn settles_stmt(phase: Phase, stmt: StmtView) -> bool
    decreases stmt,
{
    match stmt.kind {
        StmtKindView::Let { initial_value, .. } => settles_expr(phase, initial_value),
        StmtKindView::ForLoop { iterable, statements, .. } => settles_expr(phase, iterable) && settles_scope(
            phase,
            statements,
        ),
        StmtKindView::If { condition, statements, else_statements } => {
            &&& settles_expr(phase, condition)
            &&& settles_scope(phase, statements)
            &&& match else_statements {
                Some(scope) => settles_scope(phase, scope),
                None => true,
            }
        },
        StmtKindView::Expression(expr) => settles_expr(phase, expr),
        StmtKindView::Assignment { variable, value } => settles_reference(phase, variable) && settles_expr(
            phase,
            value,
        ),
        StmtKindView::Return(value) => match value {
            Some(expr) => settles_expr(phase, expr),
            None => true,
        },
        StmtKindView::Scope(scope) => settles_scope(phase, scope),
        StmtKindView::Class(class) => settles_class(class),
        StmtKindView::Break => true,
        StmtKindView::Continue => true,
    }
}

/// Whether one conversion is enough for a class declaration.
pub open spec fn settles_class(class: ClassView) -> bool
    decreases class,
{
    &&& settles_function_definition(class.initializer)
    &&& settles_methods(class.methods)
    &&& settles_function_definition(class.inflight_initializer)
}

/// Whether one conversion is enough for the methods of a class.
pub open spec fn settles_methods(methods: Seq<(Seq<char>, FunctionDefinitionView)>) -> bool
    decreases methods,
{
    forall|i: int| 0 <= i < methods.len() ==> settles_function_definition((#[trigger] methods[i]).1)
}

/// Whether the statements hold nothing to convert, wherever they are put.
pub open spec fn quiet(stmts: Seq<StmtView>) -> bool {
    conversions_stmts(Phase::Preflight, stmts) == 0 && conversions_stmts(Phase::Inflight, stmts) == 0
}

// Renaming keeps the number of conversions, shown for each kind of node.

proof fn lemma_rename_keeps_conversions_reference(
    phase: Phase,
    from: Seq<char>,
    to: Seq<char>,
    reference: ReferenceView,
)
    ensures
        conversions_reference(phase, renamed_reference(from, to, reference)) == conversions_reference(
            phase,
            reference,
        ),
    decreases reference,
{
    match reference {
        ReferenceView::InstanceMember { object, property, optional_accessor } => {
            lemma_rename_keeps_conversions_expr(phase, from, to, *object);
        },
        _ => {},
    }
}

proof fn lemma_rename_keeps_conversions_expr(
    phase: Phase,
    from: Seq<char>,
    to: Seq<char>,
    expr: ExprView,
)
    ensures
        conversions_expr(phase, renamed_expr(from, to, expr)) == conversions_expr(phase, expr),
    decreases expr,
{
    match expr {
        ExprView::New { class, obj_id, obj_scope, arg_list } => {
            match obj_scope {
                Some(scope) => {
                    lemma_rename_keeps_conversions_expr(phase, from, to, *scope);
                },
                None => {},
            }
            lemma_rename_keeps_conversions_args(phase, from, to, arg_list);
            let renamed_scope = renamed_expr(from, to, expr)->New_obj_scope;
            assert(conversions_optional_expr(phase, renamed_scope) == conversions_optional_expr(
                phase,
                obj_scope,
            ));
        },
        ExprView::Literal(_) => {},
        ExprView::Reference(reference) => {
            lemma_rename_keeps_conversions_reference(phase, from, to, reference);
        },
        ExprView::Call { function, arg_list } => {
            lemma_rename_keeps_conversions_expr(phase, from, to, *function);
            lemma_rename_keeps_conversions_args(phase, from, to, arg_list);
        },
        ExprView::Unary { op, exp } => {
            lemma_rename_keeps_conversions_expr(phase, from, to, *exp);
        },
        ExprView::Binary { op, left, right } => {
            lemma_rename_keeps_conversions_expr(phase, from, to, *left);
            lemma_rename_keeps_conversions_expr(phase, from, to, *right);
        },
        ExprView::ArrayLiteral { type_, items } => {
            lemma_rename_keeps_conversions_exprs(phase, from, to, items);
        },
        ExprView::FunctionClosure(definition) => {
            lemma_rename_keeps_conversions_function_definition(from, to, definition);
        },
    }
}

proof fn lemma_rename_keeps_conversions_exprs(
    phase: Phase,
    from: Seq<char>,
    to: Seq<char>,
    exprs: Seq<ExprView>,
)
    ensures
        conversions_exprs(phase, renamed_exprs(from, to, exprs)) == conversions_exprs(phase, exprs),
    decreases exprs,
{
    if exprs.len() > 0 {
        lemma_rename_keeps_conversions_exprs(phase, from, to, exprs.drop_last());
        lemma_rename_keeps_conversions_expr(phase, from, to, exprs.last());
        assert(renamed_exprs(from, to, exprs).drop_last() =~= renamed_exprs(from, to, exprs.drop_last()));
    }
}

proof fn lemma_rename_keeps_conversions_named_args(
    phase: Phase,
    from: Seq<char>,
    to: Seq<char>,
    entries: Seq<(Seq<char>, ExprView)>,
)
    ensures
        conversions_named_args(phase, renamed_named_args(from, to, entries)) == conversions_named_args(
            phase,
            entries,
        ),
    decreases entries,
{
    if entries.len() > 0 {
        lemma_rename_keeps_conversions_named_args(phase, from, to, entries.drop_last());
        lemma_rename_keeps_conversions_expr(phase, from, to, entries.last().1);
        assert(renamed_named_args(from, to, entries).drop_last() =~= renamed_named_args(
            from,
            to,
            entries.drop_last(),
        ));
    }
}

proof fn lemma_rename_keeps_conversions_args(
    phase: Phase,
    from: Seq<char>,
    to: Seq<char>,
    args: ArgListView,
)
    ensures
        conversions_args(phase, renamed_args(from, to, args)) == conversions_args(phase, args),
    decreases args,
{
    lemma_rename_keeps_conversions_exprs(phase, from, to, args.pos_args);
    lemma_rename_keeps_conversions_named_args(phase, from, to, args.named_args);
}

/// Renaming neither adds nor removes a closure to convert.
pub proof fn lemma_rename_keeps_conversions_function_definition(
    from: Seq<char>,
    to: Seq<char>,
    definition: FunctionDefinitionView,
)
    ensures
        conversions_function_definition(renamed_function_definition(from, to, definition))
            == conversions_function_definition(definition),
    decreases definition,
{
    match definition.body {
        FunctionBodyView::Statements(scope) => {
            lemma_rename_keeps_conversions_scope(definition.signature.phase, from, to, scope);
        },
        FunctionBodyView::External(_) => {},
    }
}

proof fn lemma_rename_keeps_conversions_scope(
    phase: Phase,
    from: Seq<char>,
    to: Seq<char>,
    scope: ScopeView,
)
    ensures
        conversions_scope(phase, renamed_scope(from, to, scope)) == conversions_scope(phase, scope),
    decreases scope,
{
    lemma_rename_keeps_conversions_stmts(phase, from, to, scope.statements);
}

proof fn lemma_rename_keeps_conversions_stmts(
    phase: Phase,
    from: Seq<char>,
    to: Seq<char>,
    stmts: Seq<StmtView>,
)
    ensures
        conversions_stmts(phase, renamed_stmts(from, to, stmts)) == conversions_stmts(phase, stmts),
    decreases stmts,
{
    if stmts.len() > 0 {
        lemma_rename_keeps_conversions_stmts(phase, from, to, stmts.drop_last());
        lemma_rename_keeps_conversions_stmt(phase, from, to, stmts.last());
        assert(renamed_stmts(from, to, stmts).drop_last() =~= renamed_stmts(from, to, stmts.drop_last()));
    }
}

proof fn lemma_rename_keeps_conversions_stmt(
    phase: Phase,
    from: Seq<char>,
    to: Seq<char>,
    stmt: StmtView,
)
    ensures
        conversions_stmt(phase, renamed_stmt(from, to, stmt)) == conversions_stmt(phase, stmt),
    decreases stmt,
{
    let renamed = renamed_stmt(from, to, stmt);
    match stmt.kind {
        StmtKindView::Let { reassignable, var_name, initial_value, type_ } => {
            lemma_rename_keeps_conversions_expr(phase, from, to, initial_value);
        },
        StmtKindView::ForLoop { iterator, iterable, statements } => {
            lemma_rename_keeps_conversions_expr(phase, from, to, iterable);
            lemma_rename_keeps_conversions_scope(phase, from, to, statements);
        },
        StmtKindView::If { condition, statements, else_statements } => {
            lemma_rename_keeps_conversions_expr(phase, from, to, condition);
            lemma_rename_keeps_conversions_scope(phase, from, to, statements);
            match else_statements {
                Some(scope) => {
                    lemma_rename_keeps_conversions_scope(phase, from, to, scope);
                },
                None => {},
            }
            assert(conversions_optional_scope(phase, renamed.kind->If_else_statements)
                == conversions_optional_scope(phase, else_statements));
        },
        StmtKindView::Expression(expr) => {
            lemma_rename_keeps_conversions_expr(phase, from, to, expr);
        },
        StmtKindView::Assignment { variable, value } => {
            lemma_rename_keeps_conversions_reference(phase, from, to, variable);
            lemma_rename_keeps_conversions_expr(phase, from, to, value);
        },
        StmtKindView::Return(value) => {
            match value {
                Some(expr) => {
                    lemma_rename_keeps_conversions_expr(phase, from, to, expr);
                },
                None => {},
            }
        },
        StmtKindView::Scope(scope) => {
            lemma_rename_keeps_conversions_scope(phase, from, to, scope);
        },
        StmtKindView::Class(_) => {},
        StmtKindView::Break => {},
        StmtKindView::Continue => {},
    }
    assert(conversions_stmt_kind(phase, renamed.kind) == conversions_stmt_kind(phase, stmt.kind));
}

/// The conversions in two runs of statements, one after the other, are those
/// of the first and those of the second.
pub proof fn lemma_conversions_stmts_concat(
    phase: Phase,
    first: Seq<StmtView>,
    second: Seq<StmtView>,
)
    ensures
        conversions_stmts(phase, first + second) == conversions_stmts(phase, first) + conversions_stmts(
            phase,
            second,
        ),
{
    let all = first + second;
    lemma_conversions_stmts_split(phase, all, first.len() as int);
    assert(all.take(first.len() as int) =~= first);
    assert(all.skip(first.len() as int) =~= second);
}

/// A single statement holds the conversions that it holds.
proof fn lemma_conversions_single_stmt(phase: Phase, stmt: StmtView)
    ensures
        conversions_stmts(phase, seq![stmt]) == conversions_stmt(phase, stmt),
{
    let one = seq![stmt];
    assert(one.drop_last() =~= Seq::<StmtView>::empty());
    assert(one.last() == stmt);
    assert(conversions_stmts(phase, one.drop_last()) == 0);
}

/// The construction that takes a closure's place holds nothing to convert.
proof fn lemma_closure_instance_is_quiet(phase: Phase, n: nat)
    ensures
        conversions_expr(phase, closure_instance(n)) == 0,
{
    let instance = closure_instance(n);
    let args = instance->New_arg_list;
    assert(conversions_exprs(phase, args.pos_args) == 0);
    assert(conversions_named_args(phase, args.named_args) == 0);
    assert(conversions_args(phase, args) == 0);
    assert(conversions_optional_expr(phase, instance->New_obj_scope) == 0);
}

/// The binding that captures `this` holds nothing to convert.
proof fn lemma_capture_binding_is_quiet(phase: Phase, n: nat, idx: nat)
    ensures
        conversions_stmt(phase, capture_binding(n, idx)) == 0,
{
    let binding = capture_binding(n, idx);
    assert(conversions_reference(phase, ReferenceView::Identifier(THIS_NAME@)) == 0);
    assert(conversions_expr(phase, this_reference()) == 0);
    assert(conversions_stmt_kind(phase, binding.kind) == 0);
}

/// The initializers of a closure class hold nothing to convert.
proof fn lemma_closure_class_initializers_are_quiet(n: nat)
    ensures
        conversions_function_definition(closure_class_initializer(n)) == 0,
        conversions_function_definition(closure_class_inflight_initializer()) == 0,
{
    let phase = Phase::Preflight;
    let marker = hidden_marker();
    let variable = marker.kind->Assignment_variable;
    let display = *variable->InstanceMember_object;
    assert(conversions_reference(phase, ReferenceView::Identifier(THIS_NAME@)) == 0);
    assert(conversions_expr(phase, this_reference()) == 0);
    assert(conversions_reference(phase, display->Reference_0) == 0);
    assert(conversions_expr(phase, display) == 0);
    assert(conversions_reference(phase, variable) == 0);
    assert(conversions_expr(phase, marker.kind->Assignment_value) == 0);
    assert(conversions_stmt_kind(phase, marker.kind) == 0);
    assert(conversions_stmt(phase, marker) == 0);
    lemma_conversions_single_stmt(phase, marker);
    let body = ScopeView { statements: seq![marker] };
    assert(conversions_scope(phase, body) == 0);
    let empty = ScopeView { statements: Seq::empty() };
    assert(conversions_stmts(Phase::Inflight, empty.statements) == 0);
    assert(conversions_scope(Phase::Inflight, empty) == 0);
}

/// What the conversion of a closure leaves waiting holds nothing to convert,
/// where the closure's body holds nothing to convert.
proof fn lemma_closure_statements_are_quiet(
    ambient: Ambient,
    n: nat,
    closure: FunctionDefinitionView,
)
    requires
        conversions_function_definition(closure) == 0,
    ensures
        quiet(closure_statements(ambient, n, closure)),
{
    let method = closure_method(ambient.inside_scope_with_this, n, closure);
    let idx = ambient.nearest_stmt_idx;
    let class = closure_class(n, method, idx);
    lemma_rename_keeps_conversions_function_definition(THIS_NAME@, crate::names::capture_name(n), closure);
    assert(conversions_function_definition(method) == 0);
    lemma_closure_class_initializers_are_quiet(n);
    let methods = class.kind->Class_0.methods;
    assert(methods.drop_last() =~= Seq::<(Seq<char>, FunctionDefinitionView)>::empty());
    assert(conversions_methods(methods.drop_last()) == 0);
    assert(conversions_methods(methods) == 0);
    assert(conversions_class(class.kind->Class_0) == 0);
    assert forall|phase: Phase| conversions_stmts(phase, closure_statements(ambient, n, closure)) == 0 by {
        assert(conversions_stmt_kind(phase, class.kind) == 0);
        assert(conversions_stmt(phase, class) == 0);
        lemma_conversions_single_stmt(phase, class);
        if ambient.inside_scope_with_this {
            let binding = capture_binding(n, idx);
            lemma_capture_binding_is_quiet(phase, n, idx);
            lemma_conversions_single_stmt(phase, binding);
            lemma_conversions_stmts_concat(phase, seq![binding], seq![class]);
            assert(seq![binding] + seq![class] =~= closure_statements(ambient, n, closure));
        }
    }
}

// The induction behind `lemma_settles_scope`, one step for each kind of node.

proof fn lemma_settles_expr(ambient: Ambient, synthesis: Synthesis, expr: ExprView)
    requires
        settles_expr(ambient.phase, expr),
        quiet(synthesis.class_statements),
    ensures
        conversions_expr(ambient.phase, converted_expr(ambient, synthesis, expr).node) == 0,
        quiet(converted_expr(ambient, synthesis, expr).synthesis.class_statements),
    decreases expr,
{
    let phase = ambient.phase;
    if phase == Phase::Inflight {
    } else {
        match expr {
            ExprView::FunctionClosure(definition) => {
                if definition.signature.phase == Phase::Inflight {
                    let n = synthesis.closure_counter + 1;
                    lemma_closure_instance_is_quiet(phase, n);
                    lemma_closure_statements_are_quiet(ambient, n, definition);
                    let added = closure_statements(ambient, n, definition);
                    lemma_conversions_stmts_concat(Phase::Preflight, synthesis.class_statements, added);
                    lemma_conversions_stmts_concat(Phase::Inflight, synthesis.class_statements, added);
                } else {
                    lemma_settles_function_definition(ambient, synthesis, definition);
                }
            },
            ExprView::New { class, obj_id, obj_scope, arg_list } => {
                let scope = converted_optional_expr(ambient, synthesis, obj_scope);
                match obj_scope {
                    Some(inner) => {
                        lemma_settles_expr(ambient, synthesis, *inner);
                    },
                    None => {},
                }
                assert(conversions_optional_expr(phase, scope.node) == 0);
                lemma_settles_args(ambient, scope.synthesis, arg_list);
            },
            ExprView::Literal(_) => {},
            ExprView::Reference(reference) => {
                lemma_settles_reference(ambient, synthesis, reference);
            },
            ExprView::Call { function, arg_list } => {
                lemma_settles_expr(ambient, synthesis, *function);
                let callee = converted_expr(ambient, synthesis, *function);
                lemma_settles_args(ambient, callee.synthesis, arg_list);
            },
            ExprView::Unary { op, exp } => {
                lemma_settles_expr(ambient, synthesis, *exp);
            },
            ExprView::Binary { op, left, right } => {
                lemma_settles_expr(ambient, synthesis, *left);
                let first = converted_expr(ambient, synthesis, *left);
                lemma_settles_expr(ambient, first.synthesis, *right);
            },
            ExprView::ArrayLiteral { type_, items } => {
                lemma_settles_exprs(ambient, synthesis, items);
            },
        }
    }
}

proof fn lemma_settles_exprs(ambient: Ambient, synthesis: Synthesis, exprs: Seq<ExprView>)
    requires
        settles_exprs(ambient.phase, exprs),
        quiet(synthesis.class_statements),
    ensures
        conversions_exprs(ambient.phase, converted_exprs(ambient, synthesis, exprs).node) == 0,
        quiet(converted_exprs(ambient, synthesis, exprs).synthesis.class_statements),
    decreases exprs,
{
    if exprs.len() > 0 {
        lemma_settles_exprs(ambient, synthesis, exprs.drop_last());
        let front = converted_exprs(ambient, synthesis, exprs.drop_last());
        lemma_settles_expr(ambient, front.synthesis, exprs.last());
        let last = converted_expr(ambient, front.synthesis, exprs.last());
        assert(front.node.push(last.node).drop_last() =~= front.node);
    }
}

proof fn lemma_settles_named_args(
    ambient: Ambient,
    synthesis: Synthesis,
    entries: Seq<(Seq<char>, ExprView)>,
)
    requires
        settles_named_args(ambient.phase, entries),
        quiet(synthesis.class_statements),
    ensures
        conversions_named_args(ambient.phase, converted_named_args(ambient, synthesis, entries).node) == 0,
        quiet(converted_named_args(ambient, synthesis, entries).synthesis.class_statements),
    decreases entries,
{
    if entries.len() > 0 {
        lemma_settles_named_args(ambient, synthesis, entries.drop_last());
        let front = converted_named_args(ambient, synthesis, entries.drop_last());
        lemma_settles_expr(ambient, front.synthesis, entries.last().1);
        let last = converted_expr(ambient, front.synthesis, entries.last().1);
        assert(front.node.push((entries.last().0, last.node)).drop_last() =~= front.node);
    }
}

proof fn lemma_settles_args(ambient: Ambient, synthesis: Synthesis, args: ArgListView)
    requires
        settles_args(ambient.phase, args),
        quiet(synthesis.class_statements),
    ensures
        conversions_args(ambient.phase, converted_args(ambient, synthesis, args).node) == 0,
        quiet(converted_args(ambient, synthesis, args).synthesis.class_statements),
    decreases args,
{
    lemma_settles_exprs(ambient, synthesis, args.pos_args);
    let positional = converted_exprs(ambient, synthesis, args.pos_args);
    lemma_settles_named_args(ambient, positional.synthesis, args.named_args);
}

proof fn lemma_settles_reference(ambient: Ambient, synthesis: Synthesis, reference: ReferenceView)
    requires
        settles_reference(ambient.phase, reference),
        quiet(synthesis.class_statements),
    ensures
        conversions_reference(ambient.phase, converted_reference(ambient, synthesis, reference).node) == 0,
        quiet(converted_reference(ambient, synthesis, reference).synthesis.class_statements),
    decreases reference,
{
    match reference {
        ReferenceView::InstanceMember { object, property, optional_accessor } => {
            lemma_settles_expr(ambient, synthesis, *object);
        },
        _ => {},
    }
}

proof fn lemma_settles_function_definition(
    ambient: Ambient,
    synthesis: Synthesis,
    definition: FunctionDefinitionView,
)
    requires
        settles_function_definition(definition),
        quiet(synthesis.class_statements),
    ensures
        conversions_function_definition(
            converted_function_definition(ambient, synthesis, definition).node,
        ) == 0,
        quiet(converted_function_definition(ambient, synthesis, definition).synthesis.class_statements),
    decreases definition,
{
    match definition.body {
        FunctionBodyView::Statements(scope) => {
            lemma_settles_scope(ambient_inside(ambient, definition), synthesis, scope);
        },
        FunctionBodyView::External(_) => {},
    }
}

/// After the conversion of a scope in which one pass is enough, the scope
/// holds nothing to convert, and neither do the statements that still wait.
pub proof fn lemma_settles_scope(ambient: Ambient, synthesis: Synthesis, scope: ScopeView)
    requires
        settles_scope(ambient.phase, scope),
        quiet(synthesis.class_statements),
    ensures
        conversions_scope(ambient.phase, converted_scope(ambient, synthesis, scope).node) == 0,
        quiet(converted_scope(ambient, synthesis, scope).synthesis.class_statements),
    decreases scope,
{
    assert(conversions_stmts(Phase::Preflight, Seq::<StmtView>::empty()) == 0);
    assert(conversions_stmts(Phase::Inflight, Seq::<StmtView>::empty()) == 0);
    lemma_settles_stmts(ambient, entering_scope(synthesis), scope.statements);
}

proof fn lemma_settles_stmts(ambient: Ambient, synthesis: Synthesis, stmts: Seq<StmtView>)
    requires
        settles_stmts(ambient.phase, stmts),
        quiet(synthesis.class_statements),
    ensures
        conversions_stmts(ambient.phase, converted_stmts(ambient, synthesis, stmts).node) == 0,
        quiet(converted_stmts(ambient, synthesis, stmts).synthesis.class_statements),
    decreases stmts,
{
    assert(conversions_stmts(Phase::Preflight, Seq::<StmtView>::empty()) == 0);
    assert(conversions_stmts(Phase::Inflight, Seq::<StmtView>::empty()) == 0);
    if stmts.len() > 0 {
        lemma_settles_stmts(ambient, synthesis, stmts.drop_last());
        let front = converted_stmts(ambient, synthesis, stmts.drop_last());
        let inner = Ambient { nearest_stmt_idx: stmts.last().idx, ..ambient };
        lemma_settles_stmt(inner, front.synthesis, stmts.last());
        let last = converted_stmt(inner, front.synthesis, stmts.last());
        lemma_conversions_single_stmt(ambient.phase, last.node);
        lemma_conversions_stmts_concat(ambient.phase, front.node, last.synthesis.class_statements);
        lemma_conversions_stmts_concat(
            ambient.phase,
            front.node + last.synthesis.class_statements,
            seq![last.node],
        );
    }
}

proof fn lemma_settles_stmt(ambient: Ambient, synthesis: Synthesis, stmt: StmtView)
    requires
        settles_stmt(ambient.phase, stmt),
        quiet(synthesis.class_statements),
    ensures
        conversions_stmt(ambient.phase, converted_stmt(ambient, synthesis, stmt).node) == 0,
        quiet(converted_stmt(ambient, synthesis, stmt).synthesis.class_statements),
    decreases stmt,
{
    let phase = ambient.phase;
    let converted = converted_stmt_kind(ambient, synthesis, stmt.kind);
    match stmt.kind {
        StmtKindView::Let { reassignable, var_name, initial_value, type_ } => {
            lemma_settles_expr(ambient, synthesis, initial_value);
        },
        StmtKindView::ForLoop { iterator, iterable, statements } => {
            lemma_settles_expr(ambient, synthesis, iterable);
            let source = converted_expr(ambient, synthesis, iterable);
            lemma_settles_scope(ambient, source.synthesis, statements);
        },
        StmtKindView::If { condition, statements, else_statements } => {
            lemma_settles_expr(ambient, synthesis, condition);
            let test = converted_expr(ambient, synthesis, condition);
            lemma_settles_scope(ambient, test.synthesis, statements);
            let body = converted_scope(ambient, test.synthesis, statements);
            let otherwise = converted_optional_scope(ambient, body.synthesis, else_statements);
            match else_statements {
                Some(scope) => {
                    lemma_settles_scope(ambient, body.synthesis, scope);
                },
                None => {},
            }
            assert(conversions_optional_scope(phase, otherwise.node) == 0);
        },
        StmtKindView::Expression(expr) => {
            lemma_settles_expr(ambient, synthesis, expr);
        },
        StmtKindView::Assignment { variable, value } => {
            lemma_settles_reference(ambient, synthesis, variable);
            let target = converted_reference(ambient, synthesis, variable);
            lemma_settles_expr(ambient, target.synthesis, value);
        },
        StmtKindView::Return(value) => {
            match value {
                Some(expr) => {
                    lemma_settles_expr(ambient, synthesis, expr);
                },
                None => {},
            }
        },
        StmtKindView::Scope(scope) => {
            lemma_settles_scope(ambient, synthesis, scope);
        },
        StmtKindView::Class(class) => {
            lemma_settles_class(ambient, synthesis, class);
        },
        StmtKindView::Break => {},
        StmtKindView::Continue => {},
    }
    assert(conversions_stmt_kind(phase, converted.node) == 0);
}

proof fn lemma_settles_class(ambient: Ambient, synthesis: Synthesis, class: ClassView)
    requires
        settles_class(class),
        quiet(synthesis.class_statements),
    ensures
        conversions_class(converted_class(ambient, synthesis, class).node) == 0,
        quiet(converted_class(ambient, synthesis, class).synthesis.class_statements),
    decreases class,
{
    lemma_settles_function_definition(ambient, synthesis, class.initializer);
    let initializer = converted_function_definition(ambient, synthesis, class.initializer);
    lemma_settles_methods(ambient, initializer.synthesis, class.methods);
    let methods = converted_methods(ambient, initializer.synthesis, class.methods);
    lemma_settles_function_definition(ambient, methods.synthesis, class.inflight_initializer);
}

proof fn lemma_settles_methods(
    ambient: Ambient,
    synthesis: Synthesis,
    methods: Seq<(Seq<char>, FunctionDefinitionView)>,
)
    requires
        settles_methods(methods),
        quiet(synthesis.class_statements),
    ensures
        conversions_methods(converted_methods(ambient, synthesis, methods).node) == 0,
        quiet(converted_methods(ambient, synthesis, methods).synthesis.class_statements),
    decreases methods,
{
    if methods.len() > 0 {
        lemma_settles_methods(ambient, synthesis, methods.drop_last());
        let front = converted_methods(ambient, synthesis, methods.drop_last());
        lemma_settles_function_definition(ambient, front.synthesis, methods.last().1);
        let last = converted_function_definition(ambient, front.synthesis, methods.last().1);
        assert(front.node.push((methods.last().0, last.node)).drop_last() =~= front.node);
    }
}

// Where there is nothing to convert, nothing changes; shown for each kind of
// node.

proof fn lemma_unchanged_expr(ambient: Ambient, synthesis: Synthesis, expr: ExprView)
    requires
        conversions_expr(ambient.phase, expr) == 0,
    ensures
        converted_expr(ambient, synthesis, expr) == (Converted { synthesis, node: expr }),
    decreases expr,
{
    let phase = ambient.phase;
    if phase == Phase::Inflight {
    } else {
        match expr {
            ExprView::FunctionClosure(definition) => {
                lemma_unchanged_function_definition(ambient, synthesis, definition);
            },
            ExprView::New { class, obj_id, obj_scope, arg_list } => {
                assert(conversions_optional_expr(phase, obj_scope) == 0);
                match obj_scope {
                    Some(inner) => {
                        lemma_unchanged_expr(ambient, synthesis, *inner);
                    },
                    None => {},
                }
                assert(converted_optional_expr(ambient, synthesis, obj_scope) == (Converted {
                    synthesis,
                    node: obj_scope,
                }));
                lemma_unchanged_args(ambient, synthesis, arg_list);
            },
            ExprView::Literal(_) => {},
            ExprView::Reference(reference) => {
                lemma_unchanged_reference(ambient, synthesis, reference);
            },
            ExprView::Call { function, arg_list } => {
                lemma_unchanged_expr(ambient, synthesis, *function);
                lemma_unchanged_args(ambient, synthesis, arg_list);
            },
            ExprView::Unary { op, exp } => {
                lemma_unchanged_expr(ambient, synthesis, *exp);
            },
            ExprView::Binary { op, left, right } => {
                lemma_unchanged_expr(ambient, synthesis, *left);
                lemma_unchanged_expr(ambient, synthesis, *right);
            },
            ExprView::ArrayLiteral { type_, items } => {
                lemma_unchanged_exprs(ambient, synthesis, items);
            },
        }
    }
}

proof fn lemma_unchanged_exprs(ambient: Ambient, synthesis: Synthesis, exprs: Seq<ExprView>)
    requires
        conversions_exprs(ambient.phase, exprs) == 0,
    ensures
        converted_exprs(ambient, synthesis, exprs) == (Converted { synthesis, node: exprs }),
    decreases exprs,
{
    if exprs.len() == 0 {
        assert(exprs =~= Seq::<ExprView>::empty());
    } else {
        lemma_unchanged_exprs(ambient, synthesis, exprs.drop_last());
        lemma_unchanged_expr(ambient, synthesis, exprs.last());
        assert(exprs.drop_last().push(exprs.last()) =~= exprs);
    }
}

proof fn lemma_unchanged_named_args(
    ambient: Ambient,
    synthesis: Synthesis,
    entries: Seq<(Seq<char>, ExprView)>,
)
    requires
        conversions_named_args(ambient.phase, entries) == 0,
    ensures
        converted_named_args(ambient, synthesis, entries) == (Converted { synthesis, node: entries }),
    decreases entries,
{
    if entries.len() == 0 {
        assert(entries =~= Seq::<(Seq<char>, ExprView)>::empty());
    } else {
        lemma_unchanged_named_args(ambient, synthesis, entries.drop_last());
        lemma_unchanged_expr(ambient, synthesis, entries.last().1);
        assert(entries.drop_last().push((entries.last().0, entries.last().1)) =~= entries);
    }
}

proof fn lemma_unchanged_args(ambient: Ambient, synthesis: Synthesis, args: ArgListView)
    requires
        conversions_args(ambient.phase, args) == 0,
    ensures
        converted_args(ambient, synthesis, args) == (Converted { synthesis, node: args }),
    decreases args,
{
    lemma_unchanged_exprs(ambient, synthesis, args.pos_args);
    lemma_unchanged_named_args(ambient, synthesis, args.named_args);
}

proof fn lemma_unchanged_reference(ambient: Ambient, synthesis: Synthesis, reference: ReferenceView)
    requires
        conversions_reference(ambient.phase, reference) == 0,
    ensures
        converted_reference(ambient, synthesis, reference) == (Converted { synthesis, node: reference }),
    decreases reference,
{
    match reference {
        ReferenceView::InstanceMember { object, property, optional_accessor } => {
            lemma_unchanged_expr(ambient, synthesis, *object);
        },
        _ => {},
    }
}

/// A function in which there is nothing to convert is left as it is, and so
/// is what the traversal carries: no closure in it is converted, and no
/// declaration is put into its body.
pub proof fn lemma_unchanged_function_definition(
    ambient: Ambient,
    synthesis: Synthesis,
    definition: FunctionDefinitionView,
)
    requires
        conversions_function_definition(definition) == 0,
    ensures
        converted_function_definition(ambient, synthesis, definition) == (Converted {
            synthesis,
            node: definition,
        }),
    decreases definition,
{
    match definition.body {
        FunctionBodyView::Statements(scope) => {
            lemma_unchanged_scope(ambient_inside(ambient, definition), synthesis, scope);
        },
        FunctionBodyView::External(_) => {},
    }
}

/// A scope in which there is nothing to convert is left as it is, and so is
/// what the traversal carries.
pub proof fn lemma_unchanged_scope(ambient: Ambient, synthesis: Synthesis, scope: ScopeView)
    requires
        conversions_scope(ambient.phase, scope) == 0,
    ensures
        converted_scope(ambient, synthesis, scope) == (Converted { synthesis, node: scope }),
    decreases scope,
{
    lemma_unchanged_stmts(ambient, entering_scope(synthesis), scope.statements);
}

proof fn lemma_unchanged_stmts(ambient: Ambient, synthesis: Synthesis, stmts: Seq<StmtView>)
    requires
        conversions_stmts(ambient.phase, stmts) == 0,
        synthesis.class_statements == Seq::<StmtView>::empty(),
    ensures
        converted_stmts(ambient, synthesis, stmts) == (Converted { synthesis, node: stmts }),
    decreases stmts,
{
    if stmts.len() == 0 {
        assert(stmts =~= Seq::<StmtView>::empty());
    } else {
        lemma_unchanged_stmts(ambient, synthesis, stmts.drop_last());
        let inner = Ambient { nearest_stmt_idx: stmts.last().idx, ..ambient };
        lemma_unchanged_stmt(inner, synthesis, stmts.last());
        assert(stmts.drop_last() + Seq::<StmtView>::empty() + seq![stmts.last()] =~= stmts);
    }
}

proof fn lemma_unchanged_stmt(ambient: Ambient, synthesis: Synthesis, stmt: StmtView)
    requires
        conversions_stmt(ambient.phase, stmt) == 0,
    ensures
        converted_stmt(ambient, synthesis, stmt) == (Converted { synthesis, node: stmt }),
    decreases stmt,
{
    let phase = ambient.phase;
    match stmt.kind {
        StmtKindView::Let { reassignable, var_name, initial_value, type_ } => {
            lemma_unchanged_expr(ambient, synthesis, initial_value);
        },
        StmtKindView::ForLoop { iterator, iterable, statements } => {
            lemma_unchanged_expr(ambient, synthesis, iterable);
            lemma_unchanged_scope(ambient, synthesis, statements);
        },
        StmtKindView::If { condition, statements, else_statements } => {
            lemma_unchanged_expr(ambient, synthesis, condition);
            lemma_unchanged_scope(ambient, synthesis, statements);
            assert(conversions_optional_scope(phase, else_statements) == 0);
            match else_statements {
                Some(scope) => {
                    lemma_unchanged_scope(ambient, synthesis, scope);
                },
                None => {},
            }
            assert(converted_optional_scope(ambient, synthesis, else_statements) == (Converted {
                synthesis,
                node: else_statements,
            }));
        },
        StmtKindView::Expression(expr) => {
            lemma_unchanged_expr(ambient, synthesis, expr);
        },
        StmtKindView::Assignment { variable, value } => {
            lemma_unchanged_reference(ambient, synthesis, variable);
            lemma_unchanged_expr(ambient, synthesis, value);
        },
        StmtKindView::Return(value) => {
            match value {
                Some(expr) => {
                    lemma_unchanged_expr(ambient, synthesis, expr);
                },
                None => {},
            }
        },
        StmtKindView::Scope(scope) => {
            lemma_unchanged_scope(ambient, synthesis, scope);
        },
        StmtKindView::Class(class) => {
            lemma_unchanged_class(ambient, synthesis, class);
        },
        StmtKindView::Break => {},
        StmtKindView::Continue => {},
    }
    assert(converted_stmt_kind(ambient, synthesis, stmt.kind) == (Converted {
        synthesis,
        node: stmt.kind,
    }));
}

proof fn lemma_unchanged_class(ambient: Ambient, synthesis: Synthesis, class: ClassView)
    requires
        conversions_class(class) == 0,
    ensures
        converted_class(ambient, synthesis, class) == (Converted { synthesis, node: class }),
    decreases class,
{
    lemma_unchanged_function_definition(ambient, synthesis, class.initializer);
    lemma_unchanged_methods(ambient, synthesis, class.methods);
    lemma_unchanged_function_definition(ambient, synthesis, class.inflight_initializer);
}

proof fn lemma_unchanged_methods(
    ambient: Ambient,
    synthesis: Synthesis,
    methods: Seq<(Seq<char>, FunctionDefinitionView)>,
)
    requires
        conversions_methods(methods) == 0,
    ensures
        converted_methods(ambient, synthesis, methods) == (Converted { synthesis, node: methods }),
    decreases methods,
{
    if methods.len() == 0 {
        assert(methods =~= Seq::<(Seq<char>, FunctionDefinitionView)>::empty());
    } else {
        lemma_unchanged_methods(ambient, synthesis, methods.drop_last());
        lemma_unchanged_function_definition(ambient, synthesis, methods.last().1);
        assert(methods.drop_last().push((methods.last().0, methods.last().1)) =~= methods);
    }
}

/// An expression in which there is nothing to convert is left as it is, and
/// so is what the traversal carries.
pub proof fn lemma_nothing_to_convert(ambient: Ambient, synthesis: Synthesis, expr: ExprView)
    requires
        conversions_expr(ambient.phase, expr) == 0,
    ensures
        converted_expr(ambient, synthesis, expr) == (Converted { synthesis, node: expr }),
{
    lemma_unchanged_expr(ambient, synthesis, expr);
}

/// A second conversion of a converted scope converts nothing and changes
/// nothing: its result is the scope it was given, its counter stays where it
/// was, and what waited goes on waiting. This holds wherever the second
/// conversion starts, as long as it walks code of the same phase.
pub proof fn lemma_second_pass_converts_nothing(
    ambient: Ambient,
    synthesis: Synthesis,
    scope: ScopeView,
    again: Ambient,
    carried: Synthesis,
)
    requires
        settles_scope(ambient.phase, scope),
        quiet(synthesis.class_statements),
        again.phase == ambient.phase,
    ensures
        conversions_scope(ambient.phase, converted_scope(ambient, synthesis, scope).node) == 0,
        converted_scope(again, carried, converted_scope(ambient, synthesis, scope).node) == (Converted {
            synthesis: carried,
            node: converted_scope(ambient, synthesis, scope).node,
        }),
{
    lemma_settles_scope(ambient, synthesis, scope);
    lemma_unchanged_scope(again, carried, converted_scope(ambient, synthesis, scope).node);
}

} // verus!
