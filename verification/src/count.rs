//! How many closures a conversion of a tree converts, and the proof that the
//! counter of the traversal advances by exactly that number.

use vstd::prelude::*;
use crate::ast::{
    exprs_view, methods_view, stmts_view, ArgList, Class, Expr, FunctionBody, FunctionDefinition,
    Phase, Reference, Scope, Stmt, StmtKind, Symbol,
};
use crate::conversion::{
    ambient_inside, converted_args, converted_class, converted_expr, converted_exprs,
    converted_function_definition, converted_methods, converted_named_args, converted_optional_expr,
    converted_optional_scope, converted_reference, converted_scope, converted_stmt,
    converted_stmt_kind, converted_stmts, entering_scope,
};
use crate::named_args::{named_args_entries, NamedArgs};
use crate::synthesis::{Ambient, Synthesis};
use crate::view::{
    ArgListView, ClassView, ExprView, FunctionBodyView, FunctionDefinitionView, ReferenceView,
    ScopeView, StmtKindView, StmtView,
};

verus! {

/// The number of closures in `expr` that a conversion in code of the given
/// phase converts: the inflight closures that stand in preflight code.
pub open spec fn conversions_expr(phase: Phase, expr: ExprView) -> nat
    decreases expr,
{
    if phase == Phase::Inflight {
        0
    } else {
        match expr {
            ExprView::FunctionClosure(definition) => {
                if definition.signature.phase == Phase::Inflight {
                    1
                } else {
                    conversions_function_definition(definition)
                }
            },
            ExprView::New { obj_scope, arg_list, .. } => conversions_optional_expr(phase, obj_scope)
                + conversions_args(phase, arg_list),
            ExprView::Literal(_) => 0,
            ExprView::Reference(reference) => conversions_reference(phase, reference),
            ExprView::Call { function, arg_list } => conversions_expr(phase, *function) + conversions_args(
                phase,
                arg_list,
            ),
            ExprView::Unary { exp, .. } => conversions_expr(phase, *exp),
            ExprView::Binary { left, right, .. } => conversions_expr(phase, *left) + conversions_expr(
                phase,
                *right,
            ),
            ExprView::ArrayLiteral { items, .. } => conversions_exprs(phase, items),
        }
    }
}

/// The number of closures in an expression that may be absent that a conversion
/// converts.
pub open spec fn conversions_optional_expr(phase: Phase, expr: Option<Box<ExprView>>) -> nat
    decreases expr,
{
    match expr {
        Some(inner) => conversions_expr(phase, *inner),
        None => 0,
    }
}

/// The number of closures in a sequence of expressions that a conversion
/// converts.
pub open spec fn conversions_exprs(phase: Phase, exprs: Seq<ExprView>) -> nat
    decreases exprs,
{
    if exprs.len() == 0 {
        0
    } else {
        conversions_exprs(phase, exprs.drop_last()) + conversions_expr(phase, exprs.last())
    }
}

/// The number of closures in named arguments that a conversion converts.
pub open spec fn conversions_named_args(phase: Phase, entries: Seq<(Seq<char>, ExprView)>) -> nat
    decreases entries,
{
    if entries.len() == 0 {
        0
    } else {
        conversions_named_args(phase, entries.drop_last()) + conversions_expr(phase, entries.last().1)
    }
}

/// The number of closures in an argument list that a conversion converts.
pub open spec fn conversions_args(phase: Phase, args: ArgListView) -> nat
    decreases args,
{
    conversions_exprs(phase, args.pos_args) + conversions_named_args(phase, args.named_args)
}

/// The number of closures in a reference that a conversion converts.
pub open spec fn conversions_reference(phase: Phase, reference: ReferenceView) -> nat
    decreases reference,
{
    match reference {
        ReferenceView::InstanceMember { object, .. } => conversions_expr(phase, *object),
        _ => 0,
    }
}

/// The number of conversions inside a function: those of its body, counted in
/// the function's own phase.
pub open spec fn conversions_function_definition(definition: FunctionDefinitionView) -> nat
    decreases definition,
{
    match definition.body {
        FunctionBodyView::Statements(scope) => conversions_scope(definition.signature.phase, scope),
        FunctionBodyView::External(_) => 0,
    }
}

/// The number of closures in a scope that a conversion converts.
pub open spec fn conversions_scope(phase: Phase, scope: ScopeView) -> nat
    decreases scope,
{
    conversions_stmts(phase, scope.statements)
}

/// The number of closures in a scope that may be absent that a conversion
/// converts.
pub open spec fn conversions_optional_scope(phase: Phase, scope: Option<ScopeView>) -> nat
    decreases scope,
{
    match scope {
        Some(inner) => conversions_scope(phase, inner),
        None => 0,
    }
}

/// The number of closures in a sequence of statements that a conversion
/// converts.
pub open spec fn conversions_stmts(phase: Phase, stmts: Seq<StmtView>) -> nat
    decreases stmts,
{
    if stmts.len() == 0 {
        0
    } else {
        conversions_stmts(phase, stmts.drop_last()) + conversions_stmt(phase, stmts.last())
    }
}

/// The number of closures in a statement that a conversion converts.
pub open spec fn conversions_stmt(phase: Phase, stmt: StmtView) -> nat
    decreases stmt,
{
    conversions_stmt_kind(phase, stmt.kind)
}

/// The number of closures in what a statement says that a conversion converts.
pub open spec fn conversions_stmt_kind(phase: Phase, kind: StmtKindView) -> nat
    decreases kind,
{
    match kind {
        StmtKindView::Let { initial_value, .. } => conversions_expr(phase, initial_value),
        StmtKindView::ForLoop { iterable, statements, .. } => conversions_expr(phase, iterable)
            + conversions_scope(phase, statements),
        StmtKindView::If { condition, statements, else_statements } => conversions_expr(phase, condition)
            + conversions_scope(phase, statements) + conversions_optional_scope(phase, else_statements),
        StmtKindView::Expression(expr) => conversions_expr(phase, expr),
        StmtKindView::Assignment { variable, value } => conversions_reference(phase, variable)
            + conversions_expr(phase, value),
        StmtKindView::Return(value) => match value {
            Some(expr) => conversions_expr(phase, expr),
            None => 0,
        },
        StmtKindView::Scope(scope) => conversions_scope(phase, scope),
        StmtKindView::Class(class) => conversions_class(class),
        StmtKindView::Break => 0,
        StmtKindView::Continue => 0,
    }
}

/// The number of conversions inside a class declaration: those of its
/// functions, each counted in its own phase.
pub open spec fn conversions_class(class: ClassView) -> nat
    decreases class,
{
    conversions_function_definition(class.initializer) + conversions_methods(class.methods)
        + conversions_function_definition(class.inflight_initializer)
}

/// The number of closures in the methods of a class that a conversion converts.
pub open spec fn conversions_methods(methods: Seq<(Seq<char>, FunctionDefinitionView)>) -> nat
    decreases methods,
{
    if methods.len() == 0 {
        0
    } else {
        conversions_methods(methods.drop_last()) + conversions_function_definition(methods.last().1)
    }
}

/// Converting an expression advances the counter by the number of closures
/// converted in it.
pub proof fn lemma_counter_expr(ambient: Ambient, synthesis: Synthesis, expr: ExprView)
    ensures
        converted_expr(ambient, synthesis, expr).synthesis.closure_counter == synthesis.closure_counter
            + conversions_expr(ambient.phase, expr),
    decreases expr,
{
    if ambient.phase == Phase::Inflight {
    } else {
        match expr {
            ExprView::FunctionClosure(definition) => {
                if definition.signature.phase != Phase::Inflight {
                    lemma_counter_function_definition(ambient, synthesis, definition);
                }
            },
            ExprView::New { class, obj_id, obj_scope, arg_list } => {
                lemma_counter_optional_expr(ambient, synthesis, obj_scope);
                let scope = converted_optional_expr(ambient, synthesis, obj_scope);
                lemma_counter_args(ambient, scope.synthesis, arg_list);
            },
            ExprView::Literal(_) => {},
            ExprView::Reference(reference) => {
                lemma_counter_reference(ambient, synthesis, reference);
            },
            ExprView::Call { function, arg_list } => {
                lemma_counter_expr(ambient, synthesis, *function);
                let callee = converted_expr(ambient, synthesis, *function);
                lemma_counter_args(ambient, callee.synthesis, arg_list);
            },
            ExprView::Unary { op, exp } => {
                lemma_counter_expr(ambient, synthesis, *exp);
            },
            ExprView::Binary { op, left, right } => {
                lemma_counter_expr(ambient, synthesis, *left);
                let first = converted_expr(ambient, synthesis, *left);
                lemma_counter_expr(ambient, first.synthesis, *right);
            },
            ExprView::ArrayLiteral { type_, items } => {
                lemma_counter_exprs(ambient, synthesis, items);
            },
        }
    }
}

/// Converting an expression that may be absent advances the counter by the
/// number of closures converted in it.
pub proof fn lemma_counter_optional_expr(
    ambient: Ambient,
    synthesis: Synthesis,
    expr: Option<Box<ExprView>>,
)
    ensures
        converted_optional_expr(ambient, synthesis, expr).synthesis.closure_counter
            == synthesis.closure_counter + conversions_optional_expr(ambient.phase, expr),
    decreases expr,
{
    match expr {
        Some(inner) => {
            lemma_counter_expr(ambient, synthesis, *inner);
        },
        None => {},
    }
}

/// Converting a sequence of expressions advances the counter by the number of
/// closures converted in it.
pub proof fn lemma_counter_exprs(ambient: Ambient, synthesis: Synthesis, exprs: Seq<ExprView>)
    ensures
        converted_exprs(ambient, synthesis, exprs).synthesis.closure_counter == synthesis.closure_counter
            + conversions_exprs(ambient.phase, exprs),
        converted_exprs(ambient, synthesis, exprs).node.len() == exprs.len(),
    decreases exprs,
{
    if exprs.len() > 0 {
        lemma_counter_exprs(ambient, synthesis, exprs.drop_last());
        let front = converted_exprs(ambient, synthesis, exprs.drop_last());
        lemma_counter_expr(ambient, front.synthesis, exprs.last());
    }
}

/// Converting named arguments advances the counter by the number of closures
/// converted in it.
pub proof fn lemma_counter_named_args(
    ambient: Ambient,
    synthesis: Synthesis,
    entries: Seq<(Seq<char>, ExprView)>,
)
    ensures
        converted_named_args(ambient, synthesis, entries).synthesis.closure_counter
            == synthesis.closure_counter + conversions_named_args(ambient.phase, entries),
        converted_named_args(ambient, synthesis, entries).node.len() == entries.len(),
    decreases entries,
{
    if entries.len() > 0 {
        lemma_counter_named_args(ambient, synthesis, entries.drop_last());
        let front = converted_named_args(ambient, synthesis, entries.drop_last());
        lemma_counter_expr(ambient, front.synthesis, entries.last().1);
    }
}

/// Converting an argument list advances the counter by the number of closures
/// converted in it.
pub proof fn lemma_counter_args(ambient: Ambient, synthesis: Synthesis, args: ArgListView)
    ensures
        converted_args(ambient, synthesis, args).synthesis.closure_counter == synthesis.closure_counter
            + conversions_args(ambient.phase, args),
    decreases args,
{
    lemma_counter_exprs(ambient, synthesis, args.pos_args);
    let positional = converted_exprs(ambient, synthesis, args.pos_args);
    lemma_counter_named_args(ambient, positional.synthesis, args.named_args);
}

/// Converting a reference advances the counter by the number of closures
/// converted in it.
pub proof fn lemma_counter_reference(
    ambient: Ambient,
    synthesis: Synthesis,
    reference: ReferenceView,
)
    ensures
        converted_reference(ambient, synthesis, reference).synthesis.closure_counter
            == synthesis.closure_counter + conversions_reference(ambient.phase, reference),
    decreases reference,
{
    match reference {
        ReferenceView::InstanceMember { object, property, optional_accessor } => {
            lemma_counter_expr(ambient, synthesis, *object);
        },
        _ => {},
    }
}

/// Converting a function definition advances the counter by the number of
/// closures converted in it.
pub proof fn lemma_counter_function_definition(
    ambient: Ambient,
    synthesis: Synthesis,
    definition: FunctionDefinitionView,
)
    ensures
        converted_function_definition(ambient, synthesis, definition).synthesis.closure_counter
            == synthesis.closure_counter + conversions_function_definition(definition),
    decreases definition,
{
    match definition.body {
        FunctionBodyView::Statements(scope) => {
            lemma_counter_scope(ambient_inside(ambient, definition), synthesis, scope);
        },
        FunctionBodyView::External(_) => {},
    }
}

/// Converting a scope advances the counter by the number of closures converted
/// in it.
pub proof fn lemma_counter_scope(ambient: Ambient, synthesis: Synthesis, scope: ScopeView)
    ensures
        converted_scope(ambient, synthesis, scope).synthesis.closure_counter == synthesis.closure_counter
            + conversions_scope(ambient.phase, scope),
    decreases scope,
{
    lemma_counter_stmts(ambient, entering_scope(synthesis), scope.statements);
}

/// Converting a scope that may be absent advances the counter by the number of
/// closures converted in it.
pub proof fn lemma_counter_optional_scope(
    ambient: Ambient,
    synthesis: Synthesis,
    scope: Option<ScopeView>,
)
    ensures
        converted_optional_scope(ambient, synthesis, scope).synthesis.closure_counter
            == synthesis.closure_counter + conversions_optional_scope(ambient.phase, scope),
    decreases scope,
{
    match scope {
        Some(inner) => {
            lemma_counter_scope(ambient, synthesis, inner);
        },
        None => {},
    }
}

/// Converting a sequence of statements advances the counter by the number of
/// closures converted in it.
pub proof fn lemma_counter_stmts(ambient: Ambient, synthesis: Synthesis, stmts: Seq<StmtView>)
    ensures
        converted_stmts(ambient, synthesis, stmts).synthesis.closure_counter == synthesis.closure_counter
            + conversions_stmts(ambient.phase, stmts),
    decreases stmts,
{
    if stmts.len() > 0 {
        lemma_counter_stmts(ambient, synthesis, stmts.drop_last());
        let front = converted_stmts(ambient, synthesis, stmts.drop_last());
        lemma_counter_stmt(
            Ambient { nearest_stmt_idx: stmts.last().idx, ..ambient },
            front.synthesis,
            stmts.last(),
        );
    }
}

/// Converting a statement advances the counter by the number of closures
/// converted in it.
pub proof fn lemma_counter_stmt(ambient: Ambient, synthesis: Synthesis, stmt: StmtView)
    ensures
        converted_stmt(ambient, synthesis, stmt).synthesis.closure_counter == synthesis.closure_counter
            + conversions_stmt(ambient.phase, stmt),
    decreases stmt,
{
    lemma_counter_stmt_kind(ambient, synthesis, stmt.kind);
}

/// Converting what a statement says advances the counter by the number of
/// closures converted in it.
pub proof fn lemma_counter_stmt_kind(ambient: Ambient, synthesis: Synthesis, kind: StmtKindView)
    ensures
        converted_stmt_kind(ambient, synthesis, kind).synthesis.closure_counter == synthesis.closure_counter
            + conversions_stmt_kind(ambient.phase, kind),
    decreases kind,
{
    match kind {
        StmtKindView::Let { reassignable, var_name, initial_value, type_ } => {
            lemma_counter_expr(ambient, synthesis, initial_value);
        },
        StmtKindView::ForLoop { iterator, iterable, statements } => {
            lemma_counter_expr(ambient, synthesis, iterable);
            let source = converted_expr(ambient, synthesis, iterable);
            lemma_counter_scope(ambient, source.synthesis, statements);
        },
        StmtKindView::If { condition, statements, else_statements } => {
            lemma_counter_expr(ambient, synthesis, condition);
            let test = converted_expr(ambient, synthesis, condition);
            lemma_counter_scope(ambient, test.synthesis, statements);
            let body = converted_scope(ambient, test.synthesis, statements);
            lemma_counter_optional_scope(ambient, body.synthesis, else_statements);
        },
        StmtKindView::Expression(expr) => {
            lemma_counter_expr(ambient, synthesis, expr);
        },
        StmtKindView::Assignment { variable, value } => {
            lemma_counter_reference(ambient, synthesis, variable);
            let target = converted_reference(ambient, synthesis, variable);
            lemma_counter_expr(ambient, target.synthesis, value);
        },
        StmtKindView::Return(value) => {
            match value {
                Some(expr) => {
                    lemma_counter_expr(ambient, synthesis, expr);
                },
                None => {},
            }
        },
        StmtKindView::Scope(scope) => {
            lemma_counter_scope(ambient, synthesis, scope);
        },
        StmtKindView::Class(class) => {
            lemma_counter_class(ambient, synthesis, class);
        },
        StmtKindView::Break => {},
        StmtKindView::Continue => {},
    }
}

/// Converting a class declaration advances the counter by the number of
/// closures converted in it.
pub proof fn lemma_counter_class(ambient: Ambient, synthesis: Synthesis, class: ClassView)
    ensures
        converted_class(ambient, synthesis, class).synthesis.closure_counter == synthesis.closure_counter
            + conversions_class(class),
    decreases class,
{
    lemma_counter_function_definition(ambient, synthesis, class.initializer);
    let initializer = converted_function_definition(ambient, synthesis, class.initializer);
    lemma_counter_methods(ambient, initializer.synthesis, class.methods);
    let methods = converted_methods(ambient, initializer.synthesis, class.methods);
    lemma_counter_function_definition(ambient, methods.synthesis, class.inflight_initializer);
}

/// Converting the methods of a class advances the counter by the number of
/// closures converted in it.
pub proof fn lemma_counter_methods(
    ambient: Ambient,
    synthesis: Synthesis,
    methods: Seq<(Seq<char>, FunctionDefinitionView)>,
)
    ensures
        converted_methods(ambient, synthesis, methods).synthesis.closure_counter
            == synthesis.closure_counter + conversions_methods(methods),
        converted_methods(ambient, synthesis, methods).node.len() == methods.len(),
    decreases methods,
{
    if methods.len() > 0 {
        lemma_counter_methods(ambient, synthesis, methods.drop_last());
        let front = converted_methods(ambient, synthesis, methods.drop_last());
        lemma_counter_function_definition(ambient, front.synthesis, methods.last().1);
    }
}

/// The conversions in a sequence of expressions are those of any front part
/// of it and those of the rest.
pub proof fn lemma_conversions_exprs_split(phase: Phase, exprs: Seq<ExprView>, k: int)
    requires
        0 <= k <= exprs.len(),
    ensures
        conversions_exprs(phase, exprs) == conversions_exprs(phase, exprs.take(k)) + conversions_exprs(
            phase,
            exprs.skip(k),
        ),
    decreases exprs.len(),
{
    if k == exprs.len() {
        assert(exprs.take(k) =~= exprs);
    } else {
        lemma_conversions_exprs_split(phase, exprs.drop_last(), k);
        assert(exprs.drop_last().take(k) =~= exprs.take(k));
        assert(exprs.skip(k).drop_last() =~= exprs.drop_last().skip(k));
    }
}

/// The conversions in named arguments are those of any front part of them
/// and those of the rest.
pub proof fn lemma_conversions_named_args_split(
    phase: Phase,
    entries: Seq<(Seq<char>, ExprView)>,
    k: int,
)
    requires
        0 <= k <= entries.len(),
    ensures
        conversions_named_args(phase, entries) == conversions_named_args(phase, entries.take(k))
            + conversions_named_args(phase, entries.skip(k)),
    decreases entries.len(),
{
    if k == entries.len() {
        assert(entries.take(k) =~= entries);
    } else {
        lemma_conversions_named_args_split(phase, entries.drop_last(), k);
        assert(entries.drop_last().take(k) =~= entries.take(k));
        assert(entries.skip(k).drop_last() =~= entries.drop_last().skip(k));
    }
}

/// The conversions in a sequence of statements are those of any front part
/// of it and those of the rest.
pub proof fn lemma_conversions_stmts_split(phase: Phase, stmts: Seq<StmtView>, k: int)
    requires
        0 <= k <= stmts.len(),
    ensures
        conversions_stmts(phase, stmts) == conversions_stmts(phase, stmts.take(k)) + conversions_stmts(
            phase,
            stmts.skip(k),
        ),
    decreases stmts.len(),
{
    if k == stmts.len() {
        assert(stmts.take(k) =~= stmts);
    } else {
        lemma_conversions_stmts_split(phase, stmts.drop_last(), k);
        assert(stmts.drop_last().take(k) =~= stmts.take(k));
        assert(stmts.skip(k).drop_last() =~= stmts.drop_last().skip(k));
    }
}

/// The conversions in the methods of a class are those of any front part of
/// them and those of the rest.
pub proof fn lemma_conversions_methods_split(
    methods: Seq<(Seq<char>, FunctionDefinitionView)>,
    k: int,
)
    requires
        0 <= k <= methods.len(),
    ensures
        conversions_methods(methods) == conversions_methods(methods.take(k)) + conversions_methods(
            methods.skip(k),
        ),
    decreases methods.len(),
{
    if k == methods.len() {
        assert(methods.take(k) =~= methods);
    } else {
        lemma_conversions_methods_split(methods.drop_last(), k);
        assert(methods.drop_last().take(k) =~= methods.take(k));
        assert(methods.skip(k).drop_last() =~= methods.drop_last().skip(k));
    }
}

/// A number of conversions as a machine number, where it is one.
pub open spec fn counted(total: nat) -> Option<usize> {
    if total <= usize::MAX {
        Some(total as usize)
    } else {
        None
    }
}

/// The sum of two counts, where both are machine numbers and the sum is one.
fn sum_of_counts(first: Option<usize>, second: Option<usize>) -> (sum: Option<usize>)
    ensures
        sum == match (first, second) {
            (Some(x), Some(y)) => counted((x + y) as nat),
            _ => None,
        },
{
    match (first, second) {
        (Some(x), Some(y)) => x.checked_add(y),
        _ => None,
    }
}

/// Counts the closures in an expression that a conversion in code of the
/// given phase converts, if their number is a machine number.
pub fn conversions_in_expr(phase: Phase, expr: &Expr) -> (count: Option<usize>)
    ensures
        count == counted(conversions_expr(phase, expr@)),
    decreases expr@,
{
    if phase == Phase::Inflight {
        return Some(0);
    }
    match expr {
        Expr::FunctionClosure(definition) => {
            if definition.signature.phase == Phase::Inflight {
                Some(1)
            } else {
                conversions_in_function_definition(definition)
            }
        },
        Expr::New { obj_scope, arg_list, .. } => {
            let ghost scope = expr@->New_obj_scope;
            proof {
                assert(scope is Some ==> decreases_to!(scope => scope->0));
            }
            let first = match obj_scope {
                Some(inner) => conversions_in_expr(phase, inner),
                None => Some(0),
            };
            assert(first == counted(conversions_optional_expr(phase, scope)));
            let second = conversions_in_args(phase, arg_list);
            sum_of_counts(first, second)
        },
        Expr::Literal(_) => Some(0),
        Expr::Reference(reference) => conversions_in_reference(phase, reference),
        Expr::Call { function, arg_list } => {
            let first = conversions_in_expr(phase, function);
            let second = conversions_in_args(phase, arg_list);
            sum_of_counts(first, second)
        },
        Expr::Unary { exp, .. } => conversions_in_expr(phase, exp),
        Expr::Binary { left, right, .. } => {
            let first = conversions_in_expr(phase, left);
            let second = conversions_in_expr(phase, right);
            sum_of_counts(first, second)
        },
        Expr::ArrayLiteral { items, .. } => conversions_in_exprs(phase, items),
    }
}

/// Counts the conversions in a sequence of expressions.
pub fn conversions_in_exprs(phase: Phase, exprs: &Vec<Expr>) -> (count: Option<usize>)
    ensures
        count == counted(conversions_exprs(phase, exprs_view(exprs@))),
    decreases exprs_view(exprs@),
{
    let ghost models = exprs_view(exprs@);
    let mut count: Option<usize> = Some(0);
    for i in 0..exprs.len()
        invariant
            models == exprs_view(exprs@),
            count == counted(conversions_exprs(phase, models.take(i as int))),
    {
        proof {
            assert(models.take(i + 1).drop_last() =~= models.take(i as int));
        }
        let one = conversions_in_expr(phase, &exprs[i]);
        count = sum_of_counts(count, one);
    }
    proof {
        assert(models.take(models.len() as int) =~= models);
    }
    count
}

/// Counts the conversions in the named arguments of a call.
pub fn conversions_in_named_args(phase: Phase, args: &NamedArgs) -> (count: Option<usize>)
    ensures
        count == counted(conversions_named_args(phase, named_args_entries(*args))),
    decreases named_args_entries(*args),
{
    let ghost models = named_args_entries(*args);
    let mut count: Option<usize> = Some(0);
    let len = args.len();
    for i in 0..len
        invariant
            models == named_args_entries(*args),
            len == models.len(),
            count == counted(conversions_named_args(phase, models.take(i as int))),
    {
        proof {
            assert(models.take(i + 1).drop_last() =~= models.take(i as int));
        }
        let one = match args.get_index(i) {
            Some(entry) => conversions_in_expr(phase, entry.1),
            None => Some(0),
        };
        count = sum_of_counts(count, one);
    }
    proof {
        assert(models.take(models.len() as int) =~= models);
    }
    count
}

/// Counts the conversions in the arguments of a call or a construction.
pub fn conversions_in_args(phase: Phase, args: &ArgList) -> (count: Option<usize>)
    ensures
        count == counted(conversions_args(phase, args@)),
    decreases args@,
{
    let first = conversions_in_exprs(phase, &args.pos_args);
    let second = conversions_in_named_args(phase, &args.named_args);
    sum_of_counts(first, second)
}

/// Counts the conversions in a reference.
pub fn conversions_in_reference(phase: Phase, reference: &Reference) -> (count: Option<usize>)
    ensures
        count == counted(conversions_reference(phase, reference@)),
    decreases reference@,
{
    match reference {
        Reference::InstanceMember { object, .. } => conversions_in_expr(phase, object),
        _ => Some(0),
    }
}

/// Counts the conversions in a function, whose body counts in the
/// function's own phase.
pub fn conversions_in_function_definition(definition: &FunctionDefinition) -> (count: Option<usize>)
    ensures
        count == counted(conversions_function_definition(definition@)),
    decreases definition@,
{
    match &definition.body {
        FunctionBody::Statements(scope) => conversions_in_scope(definition.signature.phase, scope),
        FunctionBody::External(_) => Some(0),
    }
}

/// Counts the closures in a scope that a conversion in code of the given
/// phase converts, if their number is a machine number.
pub fn conversions_in_scope(phase: Phase, scope: &Scope) -> (count: Option<usize>)
    ensures
        count == counted(conversions_scope(phase, scope@)),
    decreases scope@,
{
    let ghost models = stmts_view(scope.statements@);
    let mut count: Option<usize> = Some(0);
    for i in 0..scope.statements.len()
        invariant
            models == stmts_view(scope.statements@),
            scope@.statements == models,
            count == counted(conversions_stmts(phase, models.take(i as int))),
    {
        proof {
            assert(models.take(i + 1).drop_last() =~= models.take(i as int));
        }
        let one = conversions_in_stmt(phase, &scope.statements[i]);
        count = sum_of_counts(count, one);
    }
    proof {
        assert(models.take(models.len() as int) =~= models);
    }
    count
}

/// Counts the conversions in a statement.
pub fn conversions_in_stmt(phase: Phase, stmt: &Stmt) -> (count: Option<usize>)
    ensures
        count == counted(conversions_stmt(phase, stmt@)),
    decreases stmt@,
{
    match &stmt.kind {
        StmtKind::Let { initial_value, .. } => conversions_in_expr(phase, initial_value),
        StmtKind::ForLoop { iterable, statements, .. } => {
            let first = conversions_in_expr(phase, iterable);
            let second = conversions_in_scope(phase, statements);
            sum_of_counts(first, second)
        },
        StmtKind::If { condition, statements, else_statements } => {
            let first = conversions_in_expr(phase, condition);
            let second = conversions_in_scope(phase, statements);
            let third = match else_statements {
                Some(scope) => conversions_in_scope(phase, scope),
                None => Some(0),
            };
            let both = sum_of_counts(first, second);
            sum_of_counts(both, third)
        },
        StmtKind::Expression(expr) => conversions_in_expr(phase, expr),
        StmtKind::Assignment { variable, value } => {
            let first = conversions_in_reference(phase, variable);
            let second = conversions_in_expr(phase, value);
            sum_of_counts(first, second)
        },
        StmtKind::Return(value) => match value {
            Some(expr) => conversions_in_expr(phase, expr),
            None => Some(0),
        },
        StmtKind::Scope(scope) => conversions_in_scope(phase, scope),
        StmtKind::Class(class) => conversions_in_class(class),
        StmtKind::Break => Some(0),
        StmtKind::Continue => Some(0),
    }
}

/// Counts the conversions in the functions of a class declaration.
pub fn conversions_in_class(class: &Class) -> (count: Option<usize>)
    ensures
        count == counted(conversions_class(class@)),
    decreases class@,
{
    let first = conversions_in_function_definition(&class.initializer);
    let second = conversions_in_methods(&class.methods);
    let third = conversions_in_function_definition(&class.inflight_initializer);
    let both = sum_of_counts(first, second);
    sum_of_counts(both, third)
}

/// Counts the conversions in the methods of a class.
pub fn conversions_in_methods(methods: &Vec<(Symbol, FunctionDefinition)>) -> (count: Option<usize>)
    ensures
        count == counted(conversions_methods(methods_view(methods@))),
    decreases methods_view(methods@),
{
    let ghost models = methods_view(methods@);
    let mut count: Option<usize> = Some(0);
    for i in 0..methods.len()
        invariant
            models == methods_view(methods@),
            count == counted(conversions_methods(models.take(i as int))),
    {
        proof {
            assert(models.take(i + 1).drop_last() =~= models.take(i as int));
        }
        let one = conversions_in_function_definition(&methods[i].1);
        count = sum_of_counts(count, one);
    }
    proof {
        assert(models.take(models.len() as int) =~= models);
    }
    count
}

} // verus!
