//! Where the declarations for a closure are put: directly before the
//! statement in which the closure stands, in the scope of that statement, in
//! the order of the closures. No declaration crosses into another scope.

use vstd::prelude::*;
use crate::ast::Phase;
use crate::conversion::{
    converted_args, converted_class, converted_expr, converted_exprs, converted_function_definition,
    converted_methods, converted_named_args, converted_optional_expr, converted_optional_scope,
    converted_reference, converted_scope, converted_stmt, converted_stmt_kind, converted_stmts,
    entering_scope,
};
use crate::count::{
    conversions_args, conversions_expr, conversions_exprs, conversions_named_args,
    conversions_optional_expr, conversions_reference, conversions_stmt,
    lemma_conversions_stmts_split, lemma_counter_expr, lemma_counter_exprs,
    lemma_counter_named_args, lemma_counter_optional_expr, lemma_counter_reference,
    lemma_counter_stmt, lemma_counter_stmts,
};
use crate::laws::{lemma_scope_order, lemma_scope_output_grows};
use crate::synthesis::{
    capture_binding, closure_class, closure_method, closure_statements, Ambient, Synthesis,
};
use crate::view::{
    ArgListView, ClassView, ExprView, FunctionDefinitionView, ReferenceView, ScopeView,
    StmtKindView, StmtView,
};

verus! {

/// The closures that a conversion of `expr` converts and that stand directly
/// in it, outside the body of any preflight closure: each with the number
/// that the conversion gives it, in the order in which it comes to them.
/// `counter` is the number of the closure converted last before `expr`.
pub open spec fn direct_closures_expr(phase: Phase, counter: nat, expr: ExprView) -> Seq<
    (nat, FunctionDefinitionView),
>
    decreases expr,
{
    if phase == Phase::Inflight {
        Seq::empty()
    } else {
        match expr {
            ExprView::FunctionClosure(definition) => {
                if definition.signature.phase == Phase::Inflight {
                    seq![(counter + 1, definition)]
                } else {
                    Seq::empty()
                }
            },
            ExprView::New { obj_scope, arg_list, .. } => direct_closures_optional_expr(
                phase,
                counter,
                obj_scope,
            ) + direct_closures_args(
                phase,
                counter + conversions_optional_expr(phase, obj_scope),
                arg_list,
            ),
            ExprView::Literal(_) => Seq::empty(),
            ExprView::Reference(reference) => direct_closures_reference(phase, counter, reference),
            ExprView::Call { function, arg_list } => direct_closures_expr(phase, counter, *function)
                + direct_closures_args(phase, counter + conversions_expr(phase, *function), arg_list),
            ExprView::Unary { exp, .. } => direct_closures_expr(phase, counter, *exp),
            ExprView::Binary { left, right, .. } => direct_closures_expr(phase, counter, *left)
                + direct_closures_expr(phase, counter + conversions_expr(phase, *left), *right),
            ExprView::ArrayLiteral { items, .. } => direct_closures_exprs(phase, counter, items),
        }
    }
}

/// The closures that stand directly in an expression that may be absent.
pub open spec fn direct_closures_optional_expr(
    phase: Phase,
    counter: nat,
    expr: Option<Box<ExprView>>,
) -> Seq<(nat, FunctionDefinitionView)>
    decreases expr,
{
    match expr {
        Some(inner) => direct_closures_expr(phase, counter, *inner),
        None => Seq::empty(),
    }
}

/// The closures that stand directly in a sequence of expressions.
pub open spec fn direct_closures_exprs(phase: Phase, counter: nat, exprs: Seq<ExprView>) -> Seq<
    (nat, FunctionDefinitionView),
>
    decreases exprs,
{
    if exprs.len() == 0 {
        Seq::empty()
    } else {
        direct_closures_exprs(phase, counter, exprs.drop_last()) + direct_closures_expr(
            phase,
            counter + conversions_exprs(phase, exprs.drop_last()),
            exprs.last(),
        )
    }
}

/// The closures that stand directly in named arguments.
pub open spec fn direct_closures_named_args(
    phase: Phase,
    counter: nat,
    entries: Seq<(Seq<char>, ExprView)>,
) -> Seq<(nat, FunctionDefinitionView)>
    decreases entries,
{
    if entries.len() == 0 {
        Seq::empty()
    } else {
        direct_closures_named_args(phase, counter, entries.drop_last()) + direct_closures_expr(
            phase,
            counter + conversions_named_args(phase, entries.drop_last()),
            entries.last().1,
        )
    }
}

/// The closures that stand directly in an argument list.
pub open spec fn direct_closures_args(phase: Phase, counter: nat, args: ArgListView) -> Seq<
    (nat, FunctionDefinitionView),
>
    decreases args,
{
    direct_closures_exprs(phase, counter, args.pos_args) + direct_closures_named_args(
        phase,
        counter + conversions_exprs(phase, args.pos_args),
        args.named_args,
    )
}

/// The closures that stand directly in a reference.
pub open spec fn direct_closures_reference(
    phase: Phase,
    counter: nat,
    reference: ReferenceView,
) -> Seq<(nat, FunctionDefinitionView)>
    decreases reference,
{
    match reference {
        ReferenceView::InstanceMember { object, .. } => direct_closures_expr(phase, counter, *object),
        _ => Seq::empty(),
    }
}

/// The closures that stand directly in a statement: in its own expressions,
/// not in a scope that it holds nor in a class that it declares.
pub open spec fn direct_closures_stmt(phase: Phase, counter: nat, stmt: StmtView) -> Seq<
    (nat, FunctionDefinitionView),
> {
    match stmt.kind {
        StmtKindView::Let { initial_value, .. } => direct_closures_expr(phase, counter, initial_value),
        StmtKindView::ForLoop { iterable, .. } => direct_closures_expr(phase, counter, iterable),
        StmtKindView::If { condition, .. } => direct_closures_expr(phase, counter, condition),
        StmtKindView::Expression(expr) => direct_closures_expr(phase, counter, expr),
        StmtKindView::Assignment { variable, value } => direct_closures_reference(
            phase,
            counter,
            variable,
        ) + direct_closures_expr(phase, counter + conversions_reference(phase, variable), value),
        StmtKindView::Return(value) => match value {
            Some(expr) => direct_closures_expr(phase, counter, expr),
            None => Seq::empty(),
        },
        _ => Seq::empty(),
    }
}

/// The declarations made for a run of closures: for each closure in its turn
/// what its conversion leaves waiting, which is its class, and before the
/// class the binding that captures `this` where there is a `this`.
pub open spec fn statements_for(ambient: Ambient, closures: Seq<(nat, FunctionDefinitionView)>) -> Seq<
    StmtView,
>
    decreases closures.len(),
{
    if closures.len() == 0 {
        Seq::empty()
    } else {
        statements_for(ambient, closures.drop_last()) + closure_statements(
            ambient,
            closures.last().0,
            closures.last().1,
        )
    }
}

/// The declarations for two runs of closures, one after the other, are those
/// for the first and then those for the second.
pub proof fn lemma_statements_for_concat(
    ambient: Ambient,
    first: Seq<(nat, FunctionDefinitionView)>,
    second: Seq<(nat, FunctionDefinitionView)>,
)
    ensures
        statements_for(ambient, first + second) == statements_for(ambient, first) + statements_for(
            ambient,
            second,
        ),
    decreases second.len(),
{
    if second.len() == 0 {
        assert(first + second =~= first);
        assert(statements_for(ambient, first) + Seq::<StmtView>::empty() =~= statements_for(
            ambient,
            first,
        ));
    } else {
        lemma_statements_for_concat(ambient, first, second.drop_last());
        assert((first + second).drop_last() =~= first + second.drop_last());
        assert((first + second).last() == second.last());
        let tail = closure_statements(ambient, second.last().0, second.last().1);
        assert((statements_for(ambient, first) + statements_for(ambient, second.drop_last())) + tail
            =~= statements_for(ambient, first) + (statements_for(ambient, second.drop_last()) + tail));
    }
}

/// The declarations for a single closure.
proof fn lemma_statements_for_one(ambient: Ambient, number: nat, closure: FunctionDefinitionView)
    ensures
        statements_for(ambient, seq![(number, closure)]) == closure_statements(ambient, number, closure),
{
    let one = seq![(number, closure)];
    assert(one.drop_last() =~= Seq::<(nat, FunctionDefinitionView)>::empty());
    assert(statements_for(ambient, one.drop_last()) =~= Seq::<StmtView>::empty());
    assert(Seq::<StmtView>::empty() + closure_statements(ambient, number, closure)
        =~= closure_statements(ambient, number, closure));
}

/// No closures, no declarations.
proof fn lemma_statements_for_none(ambient: Ambient, waiting: Seq<StmtView>)
    ensures
        waiting + statements_for(ambient, Seq::<(nat, FunctionDefinitionView)>::empty()) == waiting,
{
    assert(waiting + Seq::<StmtView>::empty() =~= waiting);
}

/// What one part and then another add to the waiting list is what the
/// closures of both add.
proof fn lemma_waiting_compose(
    ambient: Ambient,
    waiting: Seq<StmtView>,
    first: Seq<(nat, FunctionDefinitionView)>,
    second: Seq<(nat, FunctionDefinitionView)>,
)
    ensures
        (waiting + statements_for(ambient, first)) + statements_for(ambient, second) == waiting
            + statements_for(ambient, first + second),
{
    lemma_statements_for_concat(ambient, first, second);
    assert((waiting + statements_for(ambient, first)) + statements_for(ambient, second) =~= waiting
        + (statements_for(ambient, first) + statements_for(ambient, second)));
}

// What waits is only added to, shown for each kind of node: a conversion
// leaves what waited where it was and puts after it the declarations for the
// closures that stand directly in the node.

proof fn lemma_waiting_expr(ambient: Ambient, synthesis: Synthesis, expr: ExprView)
    ensures
        converted_expr(ambient, synthesis, expr).synthesis.class_statements == synthesis.class_statements
            + statements_for(
            ambient,
            direct_closures_expr(ambient.phase, synthesis.closure_counter, expr),
        ),
    decreases expr,
{
    let phase = ambient.phase;
    let counter = synthesis.closure_counter;
    let waiting = synthesis.class_statements;
    if phase == Phase::Inflight {
        lemma_statements_for_none(ambient, waiting);
    } else {
        match expr {
            ExprView::FunctionClosure(definition) => {
                if definition.signature.phase == Phase::Inflight {
                    lemma_statements_for_one(ambient, counter + 1, definition);
                } else {
                    lemma_waiting_function_definition(ambient, synthesis, definition);
                    lemma_statements_for_none(ambient, waiting);
                }
            },
            ExprView::New { class, obj_id, obj_scope, arg_list } => {
                lemma_waiting_optional_expr(ambient, synthesis, obj_scope);
                lemma_counter_optional_expr(ambient, synthesis, obj_scope);
                let scope = converted_optional_expr(ambient, synthesis, obj_scope);
                lemma_waiting_args(ambient, scope.synthesis, arg_list);
                lemma_waiting_compose(
                    ambient,
                    waiting,
                    direct_closures_optional_expr(phase, counter, obj_scope),
                    direct_closures_args(phase, scope.synthesis.closure_counter, arg_list),
                );
            },
            ExprView::Literal(_) => {
                lemma_statements_for_none(ambient, waiting);
            },
            ExprView::Reference(reference) => {
                lemma_waiting_reference(ambient, synthesis, reference);
            },
            ExprView::Call { function, arg_list } => {
                lemma_waiting_expr(ambient, synthesis, *function);
                lemma_counter_expr(ambient, synthesis, *function);
                let callee = converted_expr(ambient, synthesis, *function);
                lemma_waiting_args(ambient, callee.synthesis, arg_list);
                lemma_waiting_compose(
                    ambient,
                    waiting,
                    direct_closures_expr(phase, counter, *function),
                    direct_closures_args(phase, callee.synthesis.closure_counter, arg_list),
                );
            },
            ExprView::Unary { op, exp } => {
                lemma_waiting_expr(ambient, synthesis, *exp);
            },
            ExprView::Binary { op, left, right } => {
                lemma_waiting_expr(ambient, synthesis, *left);
                lemma_counter_expr(ambient, synthesis, *left);
                let first = converted_expr(ambient, synthesis, *left);
                lemma_waiting_expr(ambient, first.synthesis, *right);
                lemma_waiting_compose(
                    ambient,
                    waiting,
                    direct_closures_expr(phase, counter, *left),
                    direct_closures_expr(phase, first.synthesis.closure_counter, *right),
                );
            },
            ExprView::ArrayLiteral { type_, items } => {
                lemma_waiting_exprs(ambient, synthesis, items);
            },
        }
    }
}

proof fn lemma_waiting_optional_expr(ambient: Ambient, synthesis: Synthesis, expr: Option<Box<ExprView>>)
    ensures
        converted_optional_expr(ambient, synthesis, expr).synthesis.class_statements
            == synthesis.class_statements + statements_for(
            ambient,
            direct_closures_optional_expr(ambient.phase, synthesis.closure_counter, expr),
        ),
    decreases expr,
{
    match expr {
        Some(inner) => {
            lemma_waiting_expr(ambient, synthesis, *inner);
        },
        None => {
            lemma_statements_for_none(ambient, synthesis.class_statements);
        },
    }
}

proof fn lemma_waiting_exprs(ambient: Ambient, synthesis: Synthesis, exprs: Seq<ExprView>)
    ensures
        converted_exprs(ambient, synthesis, exprs).synthesis.class_statements == synthesis.class_statements
            + statements_for(
            ambient,
            direct_closures_exprs(ambient.phase, synthesis.closure_counter, exprs),
        ),
    decreases exprs,
{
    if exprs.len() == 0 {
        lemma_statements_for_none(ambient, synthesis.class_statements);
    } else {
        lemma_waiting_exprs(ambient, synthesis, exprs.drop_last());
        lemma_counter_exprs(ambient, synthesis, exprs.drop_last());
        let front = converted_exprs(ambient, synthesis, exprs.drop_last());
        lemma_waiting_expr(ambient, front.synthesis, exprs.last());
        lemma_waiting_compose(
            ambient,
            synthesis.class_statements,
            direct_closures_exprs(ambient.phase, synthesis.closure_counter, exprs.drop_last()),
            direct_closures_expr(ambient.phase, front.synthesis.closure_counter, exprs.last()),
        );
    }
}

proof fn lemma_waiting_named_args(
    ambient: Ambient,
    synthesis: Synthesis,
    entries: Seq<(Seq<char>, ExprView)>,
)
    ensures
        converted_named_args(ambient, synthesis, entries).synthesis.class_statements
            == synthesis.class_statements + statements_for(
            ambient,
            direct_closures_named_args(ambient.phase, synthesis.closure_counter, entries),
        ),
    decreases entries,
{
    if entries.len() == 0 {
        lemma_statements_for_none(ambient, synthesis.class_statements);
    } else {
        lemma_waiting_named_args(ambient, synthesis, entries.drop_last());
        lemma_counter_named_args(ambient, synthesis, entries.drop_last());
        let front = converted_named_args(ambient, synthesis, entries.drop_last());
        lemma_waiting_expr(ambient, front.synthesis, entries.last().1);
        lemma_waiting_compose(
            ambient,
            synthesis.class_statements,
            direct_closures_named_args(ambient.phase, synthesis.closure_counter, entries.drop_last()),
            direct_closures_expr(ambient.phase, front.synthesis.closure_counter, entries.last().1),
        );
    }
}

proof fn lemma_waiting_args(ambient: Ambient, synthesis: Synthesis, args: ArgListView)
    ensures
        converted_args(ambient, synthesis, args).synthesis.class_statements == synthesis.class_statements
            + statements_for(
            ambient,
            direct_closures_args(ambient.phase, synthesis.closure_counter, args),
        ),
    decreases args,
{
    lemma_waiting_exprs(ambient, synthesis, args.pos_args);
    lemma_counter_exprs(ambient, synthesis, args.pos_args);
    let positional = converted_exprs(ambient, synthesis, args.pos_args);
    lemma_waiting_named_args(ambient, positional.synthesis, args.named_args);
    lemma_waiting_compose(
        ambient,
        synthesis.class_statements,
        direct_closures_exprs(ambient.phase, synthesis.closure_counter, args.pos_args),
        direct_closures_named_args(ambient.phase, positional.synthesis.closure_counter, args.named_args),
    );
}

proof fn lemma_waiting_reference(ambient: Ambient, synthesis: Synthesis, reference: ReferenceView)
    ensures
        converted_reference(ambient, synthesis, reference).synthesis.class_statements
            == synthesis.class_statements + statements_for(
            ambient,
            direct_closures_reference(ambient.phase, synthesis.closure_counter, reference),
        ),
    decreases reference,
{
    match reference {
        ReferenceView::InstanceMember { object, property, optional_accessor } => {
            lemma_waiting_expr(ambient, synthesis, *object);
        },
        _ => {
            lemma_statements_for_none(ambient, synthesis.class_statements);
        },
    }
}

/// No declaration crosses the boundary of a scope. What waits when a scope
/// begins waits when it ends, the same statements in the same order: the
/// scope takes none of them in and leaves none of its own behind.
pub proof fn lemma_waiting_scope(ambient: Ambient, synthesis: Synthesis, scope: ScopeView)
    ensures
        converted_scope(ambient, synthesis, scope).synthesis.class_statements
            == synthesis.class_statements,
{
}

/// A scope that may be absent leaves what waits as it was.
proof fn lemma_waiting_optional_scope(ambient: Ambient, synthesis: Synthesis, scope: Option<ScopeView>)
    ensures
        converted_optional_scope(ambient, synthesis, scope).synthesis.class_statements
            == synthesis.class_statements,
{
}

/// The conversion of a function, whatever its phase, leaves what waits as it
/// was: nothing that waits outside is put into the function's body, and
/// nothing made for the body is left waiting outside.
pub proof fn lemma_waiting_function_definition(
    ambient: Ambient,
    synthesis: Synthesis,
    definition: FunctionDefinitionView,
)
    ensures
        converted_function_definition(ambient, synthesis, definition).synthesis.class_statements
            == synthesis.class_statements,
{
}

proof fn lemma_waiting_methods(
    ambient: Ambient,
    synthesis: Synthesis,
    methods: Seq<(Seq<char>, FunctionDefinitionView)>,
)
    ensures
        converted_methods(ambient, synthesis, methods).synthesis.class_statements
            == synthesis.class_statements,
    decreases methods.len(),
{
    if methods.len() > 0 {
        lemma_waiting_methods(ambient, synthesis, methods.drop_last());
        let front = converted_methods(ambient, synthesis, methods.drop_last());
        lemma_waiting_function_definition(ambient, front.synthesis, methods.last().1);
    }
}

/// The conversion of a class declaration leaves what waits as it was.
pub proof fn lemma_waiting_class(ambient: Ambient, synthesis: Synthesis, class: ClassView)
    ensures
        converted_class(ambient, synthesis, class).synthesis.class_statements
            == synthesis.class_statements,
{
    lemma_waiting_function_definition(ambient, synthesis, class.initializer);
    let initializer = converted_function_definition(ambient, synthesis, class.initializer);
    lemma_waiting_methods(ambient, initializer.synthesis, class.methods);
    let methods = converted_methods(ambient, initializer.synthesis, class.methods);
    lemma_waiting_function_definition(ambient, methods.synthesis, class.inflight_initializer);
}

/// What waits is only added to. The conversion of a statement leaves what
/// waited where it was, and puts after it the declarations for the closures
/// that stand directly in the statement, in their order, and nothing else.
pub proof fn lemma_waiting_stmt(ambient: Ambient, synthesis: Synthesis, stmt: StmtView)
    ensures
        converted_stmt(ambient, synthesis, stmt).synthesis.class_statements == synthesis.class_statements
            + statements_for(
            ambient,
            direct_closures_stmt(ambient.phase, synthesis.closure_counter, stmt),
        ),
{
    let phase = ambient.phase;
    let counter = synthesis.closure_counter;
    let waiting = synthesis.class_statements;
    let converted = converted_stmt_kind(ambient, synthesis, stmt.kind);
    match stmt.kind {
        StmtKindView::Let { reassignable, var_name, initial_value, type_ } => {
            lemma_waiting_expr(ambient, synthesis, initial_value);
        },
        StmtKindView::ForLoop { iterator, iterable, statements } => {
            lemma_waiting_expr(ambient, synthesis, iterable);
            let source = converted_expr(ambient, synthesis, iterable);
            lemma_waiting_scope(ambient, source.synthesis, statements);
        },
        StmtKindView::If { condition, statements, else_statements } => {
            lemma_waiting_expr(ambient, synthesis, condition);
            let test = converted_expr(ambient, synthesis, condition);
            lemma_waiting_scope(ambient, test.synthesis, statements);
            let body = converted_scope(ambient, test.synthesis, statements);
            lemma_waiting_optional_scope(ambient, body.synthesis, else_statements);
        },
        StmtKindView::Expression(expr) => {
            lemma_waiting_expr(ambient, synthesis, expr);
        },
        StmtKindView::Assignment { variable, value } => {
            lemma_waiting_reference(ambient, synthesis, variable);
            lemma_counter_reference(ambient, synthesis, variable);
            let target = converted_reference(ambient, synthesis, variable);
            lemma_waiting_expr(ambient, target.synthesis, value);
            lemma_waiting_compose(
                ambient,
                waiting,
                direct_closures_reference(phase, counter, variable),
                direct_closures_expr(phase, target.synthesis.closure_counter, value),
            );
        },
        StmtKindView::Return(value) => {
            match value {
                Some(expr) => {
                    lemma_waiting_expr(ambient, synthesis, expr);
                },
                None => {
                    lemma_statements_for_none(ambient, waiting);
                },
            }
        },
        StmtKindView::Scope(scope) => {
            lemma_waiting_scope(ambient, synthesis, scope);
            lemma_statements_for_none(ambient, waiting);
        },
        StmtKindView::Class(class) => {
            lemma_waiting_class(ambient, synthesis, class);
            lemma_statements_for_none(ambient, waiting);
        },
        StmtKindView::Break => {
            lemma_statements_for_none(ambient, waiting);
        },
        StmtKindView::Continue => {
            lemma_statements_for_none(ambient, waiting);
        },
    }
    assert(converted.synthesis.class_statements == waiting + statements_for(
        ambient,
        direct_closures_stmt(phase, counter, stmt),
    ));
}

/// The same of an expression: what waited stays, and the declarations for
/// the closures that stand directly in the expression come after it.
pub proof fn lemma_waiting_is_only_added_to(ambient: Ambient, synthesis: Synthesis, expr: ExprView)
    ensures
        converted_expr(ambient, synthesis, expr).synthesis.class_statements == synthesis.class_statements
            + statements_for(
            ambient,
            direct_closures_expr(ambient.phase, synthesis.closure_counter, expr),
        ),
{
    lemma_waiting_expr(ambient, synthesis, expr);
}

/// Whether the closures are inflight closures numbered above `low` and up to
/// `high`, each with a higher number than the one before it.
pub open spec fn numbered_within(closures: Seq<(nat, FunctionDefinitionView)>, low: nat, high: nat) -> bool {
    &&& forall|i: int|
        0 <= i < closures.len() ==> low < (#[trigger] closures[i]).0 <= high
            && closures[i].1.signature.phase == Phase::Inflight
    &&& forall|i: int, j: int|
        0 <= i < j < closures.len() ==> (#[trigger] closures[i]).0 < (#[trigger] closures[j]).0
}

/// Two runs of closures, the second numbered above the first, make one run.
proof fn lemma_numbered_compose(
    first: Seq<(nat, FunctionDefinitionView)>,
    second: Seq<(nat, FunctionDefinitionView)>,
    low: nat,
    middle: nat,
    high: nat,
)
    requires
        low <= middle <= high,
        numbered_within(first, low, middle),
        numbered_within(second, middle, high),
    ensures
        numbered_within(first + second, low, high),
{
    let all = first + second;
    assert forall|i: int| 0 <= i < all.len() implies low < (#[trigger] all[i]).0 <= high
        && all[i].1.signature.phase == Phase::Inflight by {
        if i < first.len() {
            assert(all[i] == first[i]);
        } else {
            assert(all[i] == second[i - first.len()]);
        }
    }
    assert forall|i: int, j: int| 0 <= i < j < all.len() implies (#[trigger] all[i]).0 < (
    #[trigger] all[j]).0 by {
        if j < first.len() {
            assert(all[i] == first[i] && all[j] == first[j]);
        } else if i < first.len() {
            assert(all[i] == first[i] && all[j] == second[j - first.len()]);
        } else {
            assert(all[i] == second[i - first.len()] && all[j] == second[j - first.len()]);
        }
    }
}

// The closures that stand directly in a node are numbered in their order,
// within what the conversion of the node counts; shown for each kind of node.

proof fn lemma_numbered_expr(phase: Phase, counter: nat, expr: ExprView)
    ensures
        numbered_within(
            direct_closures_expr(phase, counter, expr),
            counter,
            counter + conversions_expr(phase, expr),
        ),
    decreases expr,
{
    if phase == Phase::Inflight {
    } else {
        match expr {
            ExprView::FunctionClosure(definition) => {},
            ExprView::New { class, obj_id, obj_scope, arg_list } => {
                let middle = counter + conversions_optional_expr(phase, obj_scope);
                lemma_numbered_optional_expr(phase, counter, obj_scope);
                lemma_numbered_args(phase, middle, arg_list);
                lemma_numbered_compose(
                    direct_closures_optional_expr(phase, counter, obj_scope),
                    direct_closures_args(phase, middle, arg_list),
                    counter,
                    middle,
                    middle + conversions_args(phase, arg_list),
                );
            },
            ExprView::Literal(_) => {},
            ExprView::Reference(reference) => {
                lemma_numbered_reference(phase, counter, reference);
            },
            ExprView::Call { function, arg_list } => {
                let middle = counter + conversions_expr(phase, *function);
                lemma_numbered_expr(phase, counter, *function);
                lemma_numbered_args(phase, middle, arg_list);
                lemma_numbered_compose(
                    direct_closures_expr(phase, counter, *function),
                    direct_closures_args(phase, middle, arg_list),
                    counter,
                    middle,
                    middle + conversions_args(phase, arg_list),
                );
            },
            ExprView::Unary { op, exp } => {
                lemma_numbered_expr(phase, counter, *exp);
            },
            ExprView::Binary { op, left, right } => {
                let middle = counter + conversions_expr(phase, *left);
                lemma_numbered_expr(phase, counter, *left);
                lemma_numbered_expr(phase, middle, *right);
                lemma_numbered_compose(
                    direct_closures_expr(phase, counter, *left),
                    direct_closures_expr(phase, middle, *right),
                    counter,
                    middle,
                    middle + conversions_expr(phase, *right),
                );
            },
            ExprView::ArrayLiteral { type_, items } => {
                lemma_numbered_exprs(phase, counter, items);
            },
        }
    }
}

proof fn lemma_numbered_optional_expr(phase: Phase, counter: nat, expr: Option<Box<ExprView>>)
    ensures
        numbered_within(
            direct_closures_optional_expr(phase, counter, expr),
            counter,
            counter + conversions_optional_expr(phase, expr),
        ),
    decreases expr,
{
    match expr {
        Some(inner) => {
            lemma_numbered_expr(phase, counter, *inner);
        },
        None => {},
    }
}

proof fn lemma_numbered_exprs(phase: Phase, counter: nat, exprs: Seq<ExprView>)
    ensures
        numbered_within(
            direct_closures_exprs(phase, counter, exprs),
            counter,
            counter + conversions_exprs(phase, exprs),
        ),
    decreases exprs,
{
    if exprs.len() > 0 {
        let middle = counter + conversions_exprs(phase, exprs.drop_last());
        lemma_numbered_exprs(phase, counter, exprs.drop_last());
        lemma_numbered_expr(phase, middle, exprs.last());
        lemma_numbered_compose(
            direct_closures_exprs(phase, counter, exprs.drop_last()),
            direct_closures_expr(phase, middle, exprs.last()),
            counter,
            middle,
            middle + conversions_expr(phase, exprs.last()),
        );
    }
}

proof fn lemma_numbered_named_args(phase: Phase, counter: nat, entries: Seq<(Seq<char>, ExprView)>)
    ensures
        numbered_within(
            direct_closures_named_args(phase, counter, entries),
            counter,
            counter + conversions_named_args(phase, entries),
        ),
    decreases entries,
{
    if entries.len() > 0 {
        let middle = counter + conversions_named_args(phase, entries.drop_last());
        lemma_numbered_named_args(phase, counter, entries.drop_last());
        lemma_numbered_expr(phase, middle, entries.last().1);
        lemma_numbered_compose(
            direct_closures_named_args(phase, counter, entries.drop_last()),
            direct_closures_expr(phase, middle, entries.last().1),
            counter,
            middle,
            middle + conversions_expr(phase, entries.last().1),
        );
    }
}

proof fn lemma_numbered_args(phase: Phase, counter: nat, args: ArgListView)
    ensures
        numbered_within(
            direct_closures_args(phase, counter, args),
            counter,
            counter + conversions_args(phase, args),
        ),
    decreases args,
{
    let middle = counter + conversions_exprs(phase, args.pos_args);
    lemma_numbered_exprs(phase, counter, args.pos_args);
    lemma_numbered_named_args(phase, middle, args.named_args);
    lemma_numbered_compose(
        direct_closures_exprs(phase, counter, args.pos_args),
        direct_closures_named_args(phase, middle, args.named_args),
        counter,
        middle,
        middle + conversions_named_args(phase, args.named_args),
    );
}

proof fn lemma_numbered_reference(phase: Phase, counter: nat, reference: ReferenceView)
    ensures
        numbered_within(
            direct_closures_reference(phase, counter, reference),
            counter,
            counter + conversions_reference(phase, reference),
        ),
    decreases reference,
{
    match reference {
        ReferenceView::InstanceMember { object, property, optional_accessor } => {
            lemma_numbered_expr(phase, counter, *object);
        },
        _ => {},
    }
}

/// The closures that stand directly in a statement are inflight closures,
/// numbered in their order, above the counter that the statement began with
/// and up to the counter that it ends with.
pub proof fn lemma_numbered_stmt(phase: Phase, counter: nat, stmt: StmtView)
    ensures
        numbered_within(
            direct_closures_stmt(phase, counter, stmt),
            counter,
            counter + conversions_stmt(phase, stmt),
        ),
{
    match stmt.kind {
        StmtKindView::Let { reassignable, var_name, initial_value, type_ } => {
            lemma_numbered_expr(phase, counter, initial_value);
        },
        StmtKindView::ForLoop { iterator, iterable, statements } => {
            lemma_numbered_expr(phase, counter, iterable);
        },
        StmtKindView::If { condition, statements, else_statements } => {
            lemma_numbered_expr(phase, counter, condition);
        },
        StmtKindView::Expression(expr) => {
            lemma_numbered_expr(phase, counter, expr);
        },
        StmtKindView::Assignment { variable, value } => {
            let middle = counter + conversions_reference(phase, variable);
            lemma_numbered_reference(phase, counter, variable);
            lemma_numbered_expr(phase, middle, value);
            lemma_numbered_compose(
                direct_closures_reference(phase, counter, variable),
                direct_closures_expr(phase, middle, value),
                counter,
                middle,
                middle + conversions_expr(phase, value),
            );
        },
        StmtKindView::Return(value) => {
            match value {
                Some(expr) => {
                    lemma_numbered_expr(phase, counter, expr);
                },
                None => {},
            }
        },
        _ => {},
    }
}

/// What the declarations for a run of closures are, one by one. Outside an
/// instance method there is one for each closure: its class. Inside an
/// instance method there are two for each closure: the binding that captures
/// `this`, and directly after it the class. Binding and class carry the
/// closure's number and the index of the statement.
pub proof fn lemma_statements_for_shape(
    ambient: Ambient,
    closures: Seq<(nat, FunctionDefinitionView)>,
    i: int,
)
    requires
        0 <= i < closures.len(),
    ensures
        ({
            let made = statements_for(ambient, closures);
            let class = closure_class(
                closures[i].0,
                closure_method(ambient.inside_scope_with_this, closures[i].0, closures[i].1),
                ambient.nearest_stmt_idx,
            );
            &&& !ambient.inside_scope_with_this ==> made.len() == closures.len() && made[i] == class
            &&& ambient.inside_scope_with_this ==> made.len() == 2 * closures.len() && made[2 * i]
                == capture_binding(closures[i].0, ambient.nearest_stmt_idx) && made[2 * i + 1] == class
        }),
    decreases closures.len(),
{
    let front = closures.drop_last();
    let last = closure_statements(ambient, closures.last().0, closures.last().1);
    lemma_statements_for_length(ambient, front);
    if i < closures.len() - 1 {
        lemma_statements_for_shape(ambient, front, i);
        assert(front[i] == closures[i]);
    }
}

/// How many declarations are made for a run of closures.
pub proof fn lemma_statements_for_length(ambient: Ambient, closures: Seq<(nat, FunctionDefinitionView)>)
    ensures
        !ambient.inside_scope_with_this ==> statements_for(ambient, closures).len() == closures.len(),
        ambient.inside_scope_with_this ==> statements_for(ambient, closures).len() == 2 * closures.len(),
    decreases closures.len(),
{
    if closures.len() > 0 {
        lemma_statements_for_length(ambient, closures.drop_last());
    }
}

/// The counter of a scope does not go back from one statement to a later
/// one.
pub proof fn lemma_scope_counter_grows(
    ambient: Ambient,
    synthesis: Synthesis,
    stmts: Seq<StmtView>,
    i: int,
    j: int,
)
    requires
        0 <= i <= j <= stmts.len(),
    ensures
        converted_stmts(ambient, synthesis, stmts.take(i)).synthesis.closure_counter <= converted_stmts(
            ambient,
            synthesis,
            stmts.take(j),
        ).synthesis.closure_counter,
{
    lemma_counter_stmts(ambient, synthesis, stmts.take(i));
    lemma_counter_stmts(ambient, synthesis, stmts.take(j));
    lemma_conversions_stmts_split(ambient.phase, stmts.take(j), i);
    assert(stmts.take(j).take(i) =~= stmts.take(i));
}

/// Placement. In a converted scope, the statement at position `k` is
/// preceded directly by the declarations for the closures that stand
/// directly in it, and by nothing else that is new. They form one run, in
/// the order of the closures, that begins right after what the statements
/// before have put out and ends right before the converted statement. The
/// closures are numbered in their order, above every closure converted for an
/// earlier statement and up to the counter after this one.
pub proof fn lemma_declarations_stand_before_their_statement(
    ambient: Ambient,
    synthesis: Synthesis,
    scope: ScopeView,
    k: int,
)
    requires
        0 <= k < scope.statements.len(),
    ensures
        ({
            let stmts = scope.statements;
            let start = entering_scope(synthesis);
            let before = converted_stmts(ambient, start, stmts.take(k));
            let inner = Ambient { nearest_stmt_idx: stmts[k].idx, ..ambient };
            let step = converted_stmt(inner, before.synthesis, stmts[k]);
            let upto = converted_stmts(ambient, start, stmts.take(k + 1));
            let closures = direct_closures_stmt(ambient.phase, before.synthesis.closure_counter, stmts[k]);
            &&& upto.node == before.node + statements_for(inner, closures) + seq![step.node]
            &&& upto.node.is_prefix_of(converted_scope(ambient, synthesis, scope).node.statements)
            &&& numbered_within(
                closures,
                before.synthesis.closure_counter,
                upto.synthesis.closure_counter,
            )
            &&& synthesis.closure_counter <= before.synthesis.closure_counter
        }),
{
    let stmts = scope.statements;
    let start = entering_scope(synthesis);
    let before = converted_stmts(ambient, start, stmts.take(k));
    let inner = Ambient { nearest_stmt_idx: stmts[k].idx, ..ambient };
    lemma_scope_order(ambient, start, stmts, k);
    assert(before.synthesis.class_statements =~= Seq::<StmtView>::empty()) by {
        if k > 0 {
            assert(stmts.take(k).len() == k);
        }
    }
    lemma_waiting_stmt(inner, before.synthesis, stmts[k]);
    assert(Seq::<StmtView>::empty() + statements_for(
        inner,
        direct_closures_stmt(ambient.phase, before.synthesis.closure_counter, stmts[k]),
    ) =~= statements_for(
        inner,
        direct_closures_stmt(ambient.phase, before.synthesis.closure_counter, stmts[k]),
    ));
    lemma_numbered_stmt(ambient.phase, before.synthesis.closure_counter, stmts[k]);
    lemma_counter_stmt(inner, before.synthesis, stmts[k]);
    lemma_counter_stmts(ambient, start, stmts.take(k));
}

/// Order across statements. A closure that stands directly in an earlier
/// statement of a scope has a lower number than one that stands directly in a
/// later statement. With the law above this puts the classes of a scope in
/// the order of their numbers: the run of an earlier statement lies in what
/// was put out before the later statement began.
pub proof fn lemma_earlier_statement_has_lower_numbers(
    ambient: Ambient,
    synthesis: Synthesis,
    scope: ScopeView,
    i: int,
    j: int,
    a: int,
    b: int,
)
    requires
        0 <= i < j < scope.statements.len(),
        0 <= a < direct_closures_stmt(
            ambient.phase,
            converted_stmts(
                ambient,
                entering_scope(synthesis),
                scope.statements.take(i),
            ).synthesis.closure_counter,
            scope.statements[i],
        ).len(),
        0 <= b < direct_closures_stmt(
            ambient.phase,
            converted_stmts(
                ambient,
                entering_scope(synthesis),
                scope.statements.take(j),
            ).synthesis.closure_counter,
            scope.statements[j],
        ).len(),
    ensures
        ({
            let stmts = scope.statements;
            let start = entering_scope(synthesis);
            let earlier = direct_closures_stmt(
                ambient.phase,
                converted_stmts(ambient, start, stmts.take(i)).synthesis.closure_counter,
                stmts[i],
            );
            let later = direct_closures_stmt(
                ambient.phase,
                converted_stmts(ambient, start, stmts.take(j)).synthesis.closure_counter,
                stmts[j],
            );
            &&& earlier[a].0 < later[b].0
            &&& converted_stmts(ambient, start, stmts.take(i + 1)).node.is_prefix_of(
                converted_stmts(ambient, start, stmts.take(j)).node,
            )
        }),
{
    let stmts = scope.statements;
    let start = entering_scope(synthesis);
    lemma_declarations_stand_before_their_statement(ambient, synthesis, scope, i);
    lemma_declarations_stand_before_their_statement(ambient, synthesis, scope, j);
    lemma_scope_counter_grows(ambient, start, stmts, i + 1, j);
    lemma_scope_output_grows(ambient, start, stmts.take(j), i + 1);
    assert(stmts.take(j).take(i + 1) =~= stmts.take(i + 1));
}

} // verus!
