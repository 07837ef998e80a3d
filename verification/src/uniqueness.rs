//! Every name that the conversion makes up is declared once: the proof
//! counts, for any name, its declarations before and after a conversion.

use vstd::prelude::*;
use crate::ast::Phase;
use crate::conversion::{
    ambient_inside, converted_args, converted_class, converted_expr, converted_exprs,
    converted_function_definition, converted_methods, converted_named_args, converted_optional_expr,
    converted_optional_scope, converted_reference, converted_scope, converted_stmt,
    converted_stmt_kind, converted_stmts, entering_scope,
};
use crate::count::{
    conversions_expr, conversions_exprs, conversions_function_definition, conversions_methods,
    conversions_named_args, conversions_optional_expr, conversions_reference, conversions_scope,
    conversions_stmts, lemma_counter_expr, lemma_counter_exprs, lemma_counter_function_definition,
    lemma_counter_methods, lemma_counter_named_args, lemma_counter_optional_expr,
    lemma_counter_reference, lemma_counter_scope, lemma_counter_stmts,
};
use crate::names::{
    capture_name, class_name, is_reserved, lemma_class_name_is_no_capture_name,
    lemma_numbered_names_distinct, lemma_numbered_names_reserved, THIS_NAME,
};
use crate::rename_this::{
    renamed_args, renamed_expr, renamed_exprs, renamed_function_definition, renamed_named_args,
    renamed_reference, renamed_scope, renamed_stmt, renamed_stmts,
};
use crate::synthesis::{
    capture_binding, closure_class, closure_class_inflight_initializer, closure_class_initializer,
    closure_instance, closure_method, closure_statements, converted_closure, hidden_marker,
    this_reference, Ambient, Synthesis,
};
use crate::view::{
    ArgListView, ClassView, ExprView, FunctionBodyView, FunctionDefinitionView,
    FunctionParameterView, ReferenceView, ScopeView, StmtKindView, StmtView,
};

verus! {

/// One where the condition holds, zero where it does not.
pub open spec fn one_if(condition: bool) -> nat {
    if condition {
        1
    } else {
        0
    }
}

/// How many of the parameters are called `name`.
pub open spec fn declared_parameters(name: Seq<char>, parameters: Seq<FunctionParameterView>) -> nat
    decreases parameters.len(),
{
    if parameters.len() == 0 {
        0
    } else {
        declared_parameters(name, parameters.drop_last()) + one_if(parameters.last().name == name)
    }
}

/// How many declarations in a reference declare `name`.
pub open spec fn declared_reference(name: Seq<char>, reference: ReferenceView) -> nat
    decreases reference,
{
    match reference {
        ReferenceView::InstanceMember { object, .. } => declared_expr(name, *object),
        _ => 0,
    }
}

/// How many declarations in `expr` declare `name`: variables, loop
/// variables, parameters and classes, at any depth.
pub open spec fn declared_expr(name: Seq<char>, expr: ExprView) -> nat
    decreases expr,
{
    match expr {
        ExprView::New { obj_scope, arg_list, .. } => declared_optional_expr(name, obj_scope) + declared_args(
            name,
            arg_list,
        ),
        ExprView::Literal(_) => 0,
        ExprView::Reference(reference) => declared_reference(name, reference),
        ExprView::Call { function, arg_list } => declared_expr(name, *function) + declared_args(name, arg_list),
        ExprView::Unary { exp, .. } => declared_expr(name, *exp),
        ExprView::Binary { left, right, .. } => declared_expr(name, *left) + declared_expr(name, *right),
        ExprView::ArrayLiteral { items, .. } => declared_exprs(name, items),
        ExprView::FunctionClosure(definition) => declared_function_definition(name, definition),
    }
}

/// How many declarations in an expression that may be absent declare `name`.
pub open spec fn declared_optional_expr(name: Seq<char>, expr: Option<Box<ExprView>>) -> nat
    decreases expr,
{
    match expr {
        Some(inner) => declared_expr(name, *inner),
        None => 0,
    }
}

/// How many declarations in a sequence of expressions declare `name`.
pub open spec fn declared_exprs(name: Seq<char>, exprs: Seq<ExprView>) -> nat
    decreases exprs,
{
    if exprs.len() == 0 {
        0
    } else {
        declared_exprs(name, exprs.drop_last()) + declared_expr(name, exprs.last())
    }
}

/// How many declarations in named arguments declare `name`.
pub open spec fn declared_named_args(name: Seq<char>, entries: Seq<(Seq<char>, ExprView)>) -> nat
    decreases entries,
{
    if entries.len() == 0 {
        0
    } else {
        declared_named_args(name, entries.drop_last()) + declared_expr(name, entries.last().1)
    }
}

/// How many declarations in an argument list declare `name`.
pub open spec fn declared_args(name: Seq<char>, args: ArgListView) -> nat
    decreases args,
{
    declared_exprs(name, args.pos_args) + declared_named_args(name, args.named_args)
}

/// How many declarations in a function definition declare `name`.
pub open spec fn declared_function_definition(
    name: Seq<char>,
    definition: FunctionDefinitionView,
) -> nat
    decreases definition,
{
    declared_parameters(name, definition.signature.parameters) + match definition.body {
        FunctionBodyView::Statements(scope) => declared_scope(name, scope),
        FunctionBodyView::External(_) => 0,
    }
}

/// How many declarations in a scope declare `name`.
pub open spec fn declared_scope(name: Seq<char>, scope: ScopeView) -> nat
    decreases scope,
{
    declared_stmts(name, scope.statements)
}

/// How many declarations in a scope that may be absent declare `name`.
pub open spec fn declared_optional_scope(name: Seq<char>, scope: Option<ScopeView>) -> nat
    decreases scope,
{
    match scope {
        Some(inner) => declared_scope(name, inner),
        None => 0,
    }
}

/// How many declarations in a sequence of statements declare `name`.
pub open spec fn declared_stmts(name: Seq<char>, stmts: Seq<StmtView>) -> nat
    decreases stmts,
{
    if stmts.len() == 0 {
        0
    } else {
        declared_stmts(name, stmts.drop_last()) + declared_stmt(name, stmts.last())
    }
}

/// How many declarations in a statement declare `name`.
pub open spec fn declared_stmt(name: Seq<char>, stmt: StmtView) -> nat
    decreases stmt,
{
    declared_stmt_kind(name, stmt.kind)
}

/// How many declarations in what a statement says declare `name`.
pub open spec fn declared_stmt_kind(name: Seq<char>, kind: StmtKindView) -> nat
    decreases kind,
{
    match kind {
        StmtKindView::Let { var_name, initial_value, .. } => one_if(var_name == name) + declared_expr(
            name,
            initial_value,
        ),
        StmtKindView::ForLoop { iterator, iterable, statements } => one_if(iterator == name) + declared_expr(
            name,
            iterable,
        ) + declared_scope(name, statements),
        StmtKindView::If { condition, statements, else_statements } => declared_expr(name, condition)
            + declared_scope(name, statements) + declared_optional_scope(name, else_statements),
        StmtKindView::Expression(expr) => declared_expr(name, expr),
        StmtKindView::Assignment { variable, value } => declared_reference(name, variable) + declared_expr(
            name,
            value,
        ),
        StmtKindView::Return(value) => match value {
            Some(expr) => declared_expr(name, expr),
            None => 0,
        },
        StmtKindView::Scope(scope) => declared_scope(name, scope),
        StmtKindView::Class(class) => declared_class(name, class),
        StmtKindView::Break => 0,
        StmtKindView::Continue => 0,
    }
}

/// How many declarations in a class declaration declare `name`.
pub open spec fn declared_class(name: Seq<char>, class: ClassView) -> nat
    decreases class,
{
    one_if(class.name == name) + declared_function_definition(name, class.initializer) + declared_methods(
        name,
        class.methods,
    ) + declared_function_definition(name, class.inflight_initializer)
}

/// How many declarations in the methods of a class declare `name`.
pub open spec fn declared_methods(
    name: Seq<char>,
    methods: Seq<(Seq<char>, FunctionDefinitionView)>,
) -> nat
    decreases methods,
{
    if methods.len() == 0 {
        0
    } else {
        declared_methods(name, methods.drop_last()) + declared_function_definition(name, methods.last().1)
    }
}

/// The numbers of the closures in `expr` whose conversion captures `this`:
/// those that the conversion converts at a place where `this` names an
/// instance. `this` says whether it does so where `expr` stands, `counter` is
/// the number of the closure converted last before `expr`.
pub open spec fn capturing_expr(this: bool, phase: Phase, counter: nat, expr: ExprView) -> Set<nat>
    decreases expr,
{
    if phase == Phase::Inflight {
        Set::empty()
    } else {
        match expr {
            ExprView::FunctionClosure(definition) => {
                if definition.signature.phase == Phase::Inflight {
                    if this {
                        Set::empty().insert(counter + 1)
                    } else {
                        Set::empty()
                    }
                } else {
                    capturing_function_definition(this, counter, definition)
                }
            },
            ExprView::New { obj_scope, arg_list, .. } => capturing_optional_expr(
                this,
                phase,
                counter,
                obj_scope,
            ).union(
                capturing_args(
                    this,
                    phase,
                    counter + conversions_optional_expr(phase, obj_scope),
                    arg_list,
                ),
            ),
            ExprView::Literal(_) => Set::empty(),
            ExprView::Reference(reference) => capturing_reference(this, phase, counter, reference),
            ExprView::Call { function, arg_list } => capturing_expr(this, phase, counter, *function).union(
                capturing_args(this, phase, counter + conversions_expr(phase, *function), arg_list),
            ),
            ExprView::Unary { exp, .. } => capturing_expr(this, phase, counter, *exp),
            ExprView::Binary { left, right, .. } => capturing_expr(this, phase, counter, *left).union(
                capturing_expr(this, phase, counter + conversions_expr(phase, *left), *right),
            ),
            ExprView::ArrayLiteral { items, .. } => capturing_exprs(this, phase, counter, items),
        }
    }
}

/// The numbers of the capturing closures in an expression that may be absent.
pub open spec fn capturing_optional_expr(
    this: bool,
    phase: Phase,
    counter: nat,
    expr: Option<Box<ExprView>>,
) -> Set<nat>
    decreases expr,
{
    match expr {
        Some(inner) => capturing_expr(this, phase, counter, *inner),
        None => Set::empty(),
    }
}

/// The numbers of the capturing closures in a sequence of expressions.
pub open spec fn capturing_exprs(this: bool, phase: Phase, counter: nat, exprs: Seq<ExprView>) -> Set<nat>
    decreases exprs,
{
    if exprs.len() == 0 {
        Set::empty()
    } else {
        capturing_exprs(this, phase, counter, exprs.drop_last()).union(
            capturing_expr(
                this,
                phase,
                counter + conversions_exprs(phase, exprs.drop_last()),
                exprs.last(),
            ),
        )
    }
}

/// The numbers of the capturing closures in named arguments.
pub open spec fn capturing_named_args(
    this: bool,
    phase: Phase,
    counter: nat,
    entries: Seq<(Seq<char>, ExprView)>,
) -> Set<nat>
    decreases entries,
{
    if entries.len() == 0 {
        Set::empty()
    } else {
        capturing_named_args(this, phase, counter, entries.drop_last()).union(
            capturing_expr(
                this,
                phase,
                counter + conversions_named_args(phase, entries.drop_last()),
                entries.last().1,
            ),
        )
    }
}

/// The numbers of the capturing closures in an argument list.
pub open spec fn capturing_args(this: bool, phase: Phase, counter: nat, args: ArgListView) -> Set<nat>
    decreases args,
{
    capturing_exprs(this, phase, counter, args.pos_args).union(
        capturing_named_args(
            this,
            phase,
            counter + conversions_exprs(phase, args.pos_args),
            args.named_args,
        ),
    )
}

/// The numbers of the capturing closures in a reference.
pub open spec fn capturing_reference(
    this: bool,
    phase: Phase,
    counter: nat,
    reference: ReferenceView,
) -> Set<nat>
    decreases reference,
{
    match reference {
        ReferenceView::InstanceMember { object, .. } => capturing_expr(this, phase, counter, *object),
        _ => Set::empty(),
    }
}

/// The numbers of the capturing closures in a function: those of its body,
/// where `this` names an instance if it did so outside or the function is an
/// instance method.
pub open spec fn capturing_function_definition(
    this: bool,
    counter: nat,
    definition: FunctionDefinitionView,
) -> Set<nat>
    decreases definition,
{
    match definition.body {
        FunctionBodyView::Statements(scope) => capturing_scope(
            this || !definition.is_static,
            definition.signature.phase,
            counter,
            scope,
        ),
        FunctionBodyView::External(_) => Set::empty(),
    }
}

/// The numbers of the capturing closures in a scope.
pub open spec fn capturing_scope(this: bool, phase: Phase, counter: nat, scope: ScopeView) -> Set<nat>
    decreases scope,
{
    capturing_stmts(this, phase, counter, scope.statements)
}

/// The numbers of the capturing closures in a scope that may be absent.
pub open spec fn capturing_optional_scope(
    this: bool,
    phase: Phase,
    counter: nat,
    scope: Option<ScopeView>,
) -> Set<nat>
    decreases scope,
{
    match scope {
        Some(inner) => capturing_scope(this, phase, counter, inner),
        None => Set::empty(),
    }
}

/// The numbers of the capturing closures in a sequence of statements.
pub open spec fn capturing_stmts(this: bool, phase: Phase, counter: nat, stmts: Seq<StmtView>) -> Set<nat>
    decreases stmts,
{
    if stmts.len() == 0 {
        Set::empty()
    } else {
        capturing_stmts(this, phase, counter, stmts.drop_last()).union(
            capturing_stmt(
                this,
                phase,
                counter + conversions_stmts(phase, stmts.drop_last()),
                stmts.last(),
            ),
        )
    }
}

/// The numbers of the capturing closures in a statement.
pub open spec fn capturing_stmt(this: bool, phase: Phase, counter: nat, stmt: StmtView) -> Set<nat>
    decreases stmt,
{
    capturing_stmt_kind(this, phase, counter, stmt.kind)
}

/// The numbers of the capturing closures in what a statement says.
pub open spec fn capturing_stmt_kind(this: bool, phase: Phase, counter: nat, kind: StmtKindView) -> Set<nat>
    decreases kind,
{
    match kind {
        StmtKindView::Let { initial_value, .. } => capturing_expr(this, phase, counter, initial_value),
        StmtKindView::ForLoop { iterable, statements, .. } => capturing_expr(
            this,
            phase,
            counter,
            iterable,
        ).union(capturing_scope(this, phase, counter + conversions_expr(phase, iterable), statements)),
        StmtKindView::If { condition, statements, else_statements } => capturing_expr(
            this,
            phase,
            counter,
            condition,
        ).union(
            capturing_scope(this, phase, counter + conversions_expr(phase, condition), statements),
        ).union(
            capturing_optional_scope(
                this,
                phase,
                counter + conversions_expr(phase, condition) + conversions_scope(phase, statements),
                else_statements,
            ),
        ),
        StmtKindView::Expression(expr) => capturing_expr(this, phase, counter, expr),
        StmtKindView::Assignment { variable, value } => capturing_reference(
            this,
            phase,
            counter,
            variable,
        ).union(capturing_expr(this, phase, counter + conversions_reference(phase, variable), value)),
        StmtKindView::Return(value) => match value {
            Some(expr) => capturing_expr(this, phase, counter, expr),
            None => Set::empty(),
        },
        StmtKindView::Scope(scope) => capturing_scope(this, phase, counter, scope),
        StmtKindView::Class(class) => capturing_class(this, counter, class),
        StmtKindView::Break => Set::empty(),
        StmtKindView::Continue => Set::empty(),
    }
}

/// The numbers of the capturing closures in a class declaration.
pub open spec fn capturing_class(this: bool, counter: nat, class: ClassView) -> Set<nat>
    decreases class,
{
    capturing_function_definition(this, counter, class.initializer).union(
        capturing_methods(
            this,
            counter + conversions_function_definition(class.initializer),
            class.methods,
        ),
    ).union(
        capturing_function_definition(
            this,
            counter + conversions_function_definition(class.initializer) + conversions_methods(
                class.methods,
            ),
            class.inflight_initializer,
        ),
    )
}

/// The numbers of the capturing closures in the methods of a class.
pub open spec fn capturing_methods(
    this: bool,
    counter: nat,
    methods: Seq<(Seq<char>, FunctionDefinitionView)>,
) -> Set<nat>
    decreases methods,
{
    if methods.len() == 0 {
        Set::empty()
    } else {
        capturing_methods(this, counter, methods.drop_last()).union(
            capturing_function_definition(
                this,
                counter + conversions_methods(methods.drop_last()),
                methods.last().1,
            ),
        )
    }
}

/// Whether `name` is the class name of a closure numbered above `low` and up
/// to `high`.
pub open spec fn names_class_in(name: Seq<char>, low: nat, high: nat) -> bool {
    exists|k: nat| low < k <= high && name == #[trigger] class_name(k)
}

/// Whether `name` is the capture name of a closure numbered above `low` and
/// up to `high`.
pub open spec fn names_capture_in(name: Seq<char>, low: nat, high: nat) -> bool {
    exists|k: nat| low < k <= high && name == #[trigger] capture_name(k)
}

/// Whether `gain` declarations of `name` are what the conversions numbered
/// above `low` and up to `high` add, of which those in `capturing` capture
/// `this`: one for the class name of such a conversion; one for the capture
/// name of one that captures `this`, none for the capture name of one that
/// does not; none for any other name.
pub open spec fn fits(name: Seq<char>, low: nat, high: nat, capturing: Set<nat>, gain: int) -> bool {
    &&& forall|k: nat| #[trigger] capturing.contains(k) ==> low < k <= high
    &&& names_class_in(name, low, high) ==> gain == 1
    &&& forall|k: nat|
        low < k <= high && name == #[trigger] capture_name(k) ==> gain == one_if(
            capturing.contains(k),
        )
    &&& !names_class_in(name, low, high) && !names_capture_in(name, low, high) ==> gain == 0
}

/// What two runs of conversions add, one after the other, is what the whole
/// run adds.
proof fn lemma_fits_compose(
    name: Seq<char>,
    low: nat,
    middle: nat,
    high: nat,
    first_capturing: Set<nat>,
    second_capturing: Set<nat>,
    first: int,
    second: int,
)
    requires
        low <= middle <= high,
        fits(name, low, middle, first_capturing, first),
        fits(name, middle, high, second_capturing, second),
    ensures
        fits(name, low, high, first_capturing.union(second_capturing), first + second),
{
    let capturing = first_capturing.union(second_capturing);
    lemma_out_of_range(name, low, middle, high);
    if names_class_in(name, low, high) {
        let k = choose|k: nat| low < k <= high && name == #[trigger] class_name(k);
        if k <= middle {
            assert(names_class_in(name, low, middle));
        } else {
            assert(names_class_in(name, middle, high));
        }
    }
    assert forall|k: nat| low < k <= high && name == #[trigger] capture_name(k) implies first + second
        == one_if(capturing.contains(k)) by {
        if k <= middle {
            assert(names_capture_in(name, low, middle));
        } else {
            assert(names_capture_in(name, middle, high));
        }
    }
    if !names_class_in(name, low, high) && !names_capture_in(name, low, high) {
        if names_class_in(name, low, middle) {
            let j = choose|j: nat| low < j <= middle && name == #[trigger] class_name(j);
            assert(names_class_in(name, low, high));
        }
        if names_class_in(name, middle, high) {
            let j = choose|j: nat| middle < j <= high && name == #[trigger] class_name(j);
            assert(names_class_in(name, low, high));
        }
        if names_capture_in(name, low, middle) {
            let j = choose|j: nat| low < j <= middle && name == #[trigger] capture_name(j);
            assert(names_capture_in(name, low, high));
        }
        if names_capture_in(name, middle, high) {
            let j = choose|j: nat| middle < j <= high && name == #[trigger] capture_name(j);
            assert(names_capture_in(name, low, high));
        }
    }
}

/// A name is made up in at most one of two runs of numbers that follow one
/// another, and as one kind of name only.
proof fn lemma_out_of_range(name: Seq<char>, low: nat, middle: nat, high: nat)
    requires
        low <= middle <= high,
    ensures
        !(names_class_in(name, low, middle) && names_class_in(name, middle, high)),
        !(names_capture_in(name, low, middle) && names_capture_in(name, middle, high)),
        !(names_class_in(name, low, high) && names_capture_in(name, low, high)),
        !(names_class_in(name, low, middle) && names_capture_in(name, middle, high)),
        !(names_capture_in(name, low, middle) && names_class_in(name, middle, high)),
        names_class_in(name, low, middle) ==> !names_capture_in(name, low, middle),
        names_class_in(name, middle, high) ==> !names_capture_in(name, middle, high),
{
    if names_class_in(name, low, middle) && names_class_in(name, middle, high) {
        let k = choose|k: nat| low < k <= middle && name == #[trigger] class_name(k);
        let j = choose|j: nat| middle < j <= high && name == #[trigger] class_name(j);
        lemma_numbered_names_distinct(k, j);
    }
    if names_capture_in(name, low, middle) && names_capture_in(name, middle, high) {
        let k = choose|k: nat| low < k <= middle && name == #[trigger] capture_name(k);
        let j = choose|j: nat| middle < j <= high && name == #[trigger] capture_name(j);
        lemma_numbered_names_distinct(k, j);
    }
    if names_class_in(name, low, high) && names_capture_in(name, low, high) {
        let k = choose|k: nat| low < k <= high && name == #[trigger] class_name(k);
        let j = choose|j: nat| low < j <= high && name == #[trigger] capture_name(j);
        lemma_class_name_is_no_capture_name(k, j);
    }
    if names_class_in(name, low, middle) && names_capture_in(name, middle, high) {
        let k = choose|k: nat| low < k <= middle && name == #[trigger] class_name(k);
        let j = choose|j: nat| middle < j <= high && name == #[trigger] capture_name(j);
        lemma_class_name_is_no_capture_name(k, j);
    }
    if names_capture_in(name, low, middle) && names_class_in(name, middle, high) {
        let k = choose|k: nat| low < k <= middle && name == #[trigger] capture_name(k);
        let j = choose|j: nat| middle < j <= high && name == #[trigger] class_name(j);
        lemma_class_name_is_no_capture_name(j, k);
    }
    if names_class_in(name, low, middle) && names_capture_in(name, low, middle) {
        let k = choose|k: nat| low < k <= middle && name == #[trigger] class_name(k);
        let j = choose|j: nat| low < j <= middle && name == #[trigger] capture_name(j);
        lemma_class_name_is_no_capture_name(k, j);
    }
    if names_class_in(name, middle, high) && names_capture_in(name, middle, high) {
        let k = choose|k: nat| middle < k <= high && name == #[trigger] class_name(k);
        let j = choose|j: nat| middle < j <= high && name == #[trigger] capture_name(j);
        lemma_class_name_is_no_capture_name(k, j);
    }
}

// Renaming keeps the number of declarations, shown for each kind of node.

proof fn lemma_rename_keeps_declared_reference(
    name: Seq<char>,
    from: Seq<char>,
    to: Seq<char>,
    reference: ReferenceView,
)
    ensures
        declared_reference(name, renamed_reference(from, to, reference)) == declared_reference(name, reference),
    decreases reference,
{
    match reference {
        ReferenceView::InstanceMember { object, property, optional_accessor } => {
            lemma_rename_keeps_declared_expr(name, from, to, *object);
        },
        _ => {},
    }
}

proof fn lemma_rename_keeps_declared_expr(
    name: Seq<char>,
    from: Seq<char>,
    to: Seq<char>,
    expr: ExprView,
)
    ensures
        declared_expr(name, renamed_expr(from, to, expr)) == declared_expr(name, expr),
    decreases expr,
{
    match expr {
        ExprView::New { class, obj_id, obj_scope, arg_list } => {
            match obj_scope {
                Some(scope) => {
                    lemma_rename_keeps_declared_expr(name, from, to, *scope);
                },
                None => {},
            }
            lemma_rename_keeps_declared_args(name, from, to, arg_list);
            let renamed_scope = renamed_expr(from, to, expr)->New_obj_scope;
            assert(declared_optional_expr(name, renamed_scope) == declared_optional_expr(name, obj_scope));
        },
        ExprView::Literal(_) => {},
        ExprView::Reference(reference) => {
            lemma_rename_keeps_declared_reference(name, from, to, reference);
        },
        ExprView::Call { function, arg_list } => {
            lemma_rename_keeps_declared_expr(name, from, to, *function);
            lemma_rename_keeps_declared_args(name, from, to, arg_list);
        },
        ExprView::Unary { op, exp } => {
            lemma_rename_keeps_declared_expr(name, from, to, *exp);
        },
        ExprView::Binary { op, left, right } => {
            lemma_rename_keeps_declared_expr(name, from, to, *left);
            lemma_rename_keeps_declared_expr(name, from, to, *right);
        },
        ExprView::ArrayLiteral { type_, items } => {
            lemma_rename_keeps_declared_exprs(name, from, to, items);
        },
        ExprView::FunctionClosure(definition) => {
            lemma_rename_keeps_declared_function_definition(name, from, to, definition);
        },
    }
}

proof fn lemma_rename_keeps_declared_exprs(
    name: Seq<char>,
    from: Seq<char>,
    to: Seq<char>,
    exprs: Seq<ExprView>,
)
    ensures
        declared_exprs(name, renamed_exprs(from, to, exprs)) == declared_exprs(name, exprs),
    decreases exprs,
{
    if exprs.len() > 0 {
        lemma_rename_keeps_declared_exprs(name, from, to, exprs.drop_last());
        lemma_rename_keeps_declared_expr(name, from, to, exprs.last());
        assert(renamed_exprs(from, to, exprs).drop_last() =~= renamed_exprs(from, to, exprs.drop_last()));
    }
}

proof fn lemma_rename_keeps_declared_named_args(
    name: Seq<char>,
    from: Seq<char>,
    to: Seq<char>,
    entries: Seq<(Seq<char>, ExprView)>,
)
    ensures
        declared_named_args(name, renamed_named_args(from, to, entries)) == declared_named_args(name, entries),
    decreases entries,
{
    if entries.len() > 0 {
        lemma_rename_keeps_declared_named_args(name, from, to, entries.drop_last());
        lemma_rename_keeps_declared_expr(name, from, to, entries.last().1);
        assert(renamed_named_args(from, to, entries).drop_last() =~= renamed_named_args(
            from,
            to,
            entries.drop_last(),
        ));
    }
}

proof fn lemma_rename_keeps_declared_args(
    name: Seq<char>,
    from: Seq<char>,
    to: Seq<char>,
    args: ArgListView,
)
    ensures
        declared_args(name, renamed_args(from, to, args)) == declared_args(name, args),
    decreases args,
{
    lemma_rename_keeps_declared_exprs(name, from, to, args.pos_args);
    lemma_rename_keeps_declared_named_args(name, from, to, args.named_args);
}

/// Renaming neither adds nor removes a declaration.
pub proof fn lemma_rename_keeps_declared_function_definition(
    name: Seq<char>,
    from: Seq<char>,
    to: Seq<char>,
    definition: FunctionDefinitionView,
)
    ensures
        declared_function_definition(name, renamed_function_definition(from, to, definition))
            == declared_function_definition(name, definition),
    decreases definition,
{
    match definition.body {
        FunctionBodyView::Statements(scope) => {
            lemma_rename_keeps_declared_scope(name, from, to, scope);
        },
        FunctionBodyView::External(_) => {},
    }
}

proof fn lemma_rename_keeps_declared_scope(
    name: Seq<char>,
    from: Seq<char>,
    to: Seq<char>,
    scope: ScopeView,
)
    ensures
        declared_scope(name, renamed_scope(from, to, scope)) == declared_scope(name, scope),
    decreases scope,
{
    lemma_rename_keeps_declared_stmts(name, from, to, scope.statements);
}

proof fn lemma_rename_keeps_declared_stmts(
    name: Seq<char>,
    from: Seq<char>,
    to: Seq<char>,
    stmts: Seq<StmtView>,
)
    ensures
        declared_stmts(name, renamed_stmts(from, to, stmts)) == declared_stmts(name, stmts),
    decreases stmts,
{
    if stmts.len() > 0 {
        lemma_rename_keeps_declared_stmts(name, from, to, stmts.drop_last());
        lemma_rename_keeps_declared_stmt(name, from, to, stmts.last());
        assert(renamed_stmts(from, to, stmts).drop_last() =~= renamed_stmts(from, to, stmts.drop_last()));
    }
}

proof fn lemma_rename_keeps_declared_stmt(
    name: Seq<char>,
    from: Seq<char>,
    to: Seq<char>,
    stmt: StmtView,
)
    ensures
        declared_stmt(name, renamed_stmt(from, to, stmt)) == declared_stmt(name, stmt),
    decreases stmt,
{
    let renamed = renamed_stmt(from, to, stmt);
    match stmt.kind {
        StmtKindView::Let { reassignable, var_name, initial_value, type_ } => {
            lemma_rename_keeps_declared_expr(name, from, to, initial_value);
        },
        StmtKindView::ForLoop { iterator, iterable, statements } => {
            lemma_rename_keeps_declared_expr(name, from, to, iterable);
            lemma_rename_keeps_declared_scope(name, from, to, statements);
        },
        StmtKindView::If { condition, statements, else_statements } => {
            lemma_rename_keeps_declared_expr(name, from, to, condition);
            lemma_rename_keeps_declared_scope(name, from, to, statements);
            match else_statements {
                Some(scope) => {
                    lemma_rename_keeps_declared_scope(name, from, to, scope);
                },
                None => {},
            }
            assert(declared_optional_scope(name, renamed.kind->If_else_statements)
                == declared_optional_scope(name, else_statements));
        },
        StmtKindView::Expression(expr) => {
            lemma_rename_keeps_declared_expr(name, from, to, expr);
        },
        StmtKindView::Assignment { variable, value } => {
            lemma_rename_keeps_declared_reference(name, from, to, variable);
            lemma_rename_keeps_declared_expr(name, from, to, value);
        },
        StmtKindView::Return(value) => {
            match value {
                Some(expr) => {
                    lemma_rename_keeps_declared_expr(name, from, to, expr);
                },
                None => {},
            }
        },
        StmtKindView::Scope(scope) => {
            lemma_rename_keeps_declared_scope(name, from, to, scope);
        },
        StmtKindView::Class(_) => {},
        StmtKindView::Break => {},
        StmtKindView::Continue => {},
    }
    assert(declared_stmt_kind(name, renamed.kind) == declared_stmt_kind(name, stmt.kind));
}

/// The declarations in two runs of statements, one after the other, are
/// those of the first and those of the second.
pub proof fn lemma_declared_stmts_concat(
    name: Seq<char>,
    first: Seq<StmtView>,
    second: Seq<StmtView>,
)
    ensures
        declared_stmts(name, first + second) == declared_stmts(name, first) + declared_stmts(name, second),
    decreases second.len(),
{
    if second.len() == 0 {
        assert(first + second =~= first);
    } else {
        lemma_declared_stmts_concat(name, first, second.drop_last());
        assert((first + second).drop_last() =~= first + second.drop_last());
        assert((first + second).last() == second.last());
    }
}

/// A single statement declares what it declares.
proof fn lemma_declared_single_stmt(name: Seq<char>, stmt: StmtView)
    ensures
        declared_stmts(name, seq![stmt]) == declared_stmt(name, stmt),
{
    let one = seq![stmt];
    assert(one.drop_last() =~= Seq::<StmtView>::empty());
    assert(one.last() == stmt);
    assert(declared_stmts(name, one.drop_last()) == 0);
}

/// What the conversion of one closure leaves waiting declares the class
/// name once, inside an instance method the capture name once, and besides
/// that what the closure itself declared.
proof fn lemma_declared_closure_statements(
    name: Seq<char>,
    ambient: Ambient,
    n: nat,
    closure: FunctionDefinitionView,
)
    ensures
        declared_stmts(name, closure_statements(ambient, n, closure)) == one_if(name == class_name(n))
            + one_if(ambient.inside_scope_with_this && name == capture_name(n))
            + declared_function_definition(name, closure),
        declared_expr(name, closure_instance(n)) == 0,
{
    let with_this = ambient.inside_scope_with_this;
    let idx = ambient.nearest_stmt_idx;
    let method = closure_method(with_this, n, closure);
    lemma_rename_keeps_declared_function_definition(name, THIS_NAME@, capture_name(n), closure);
    assert(declared_function_definition(name, method) == declared_function_definition(name, closure));

    // The construction that takes the closure's place.
    let instance = closure_instance(n);
    let args = instance->New_arg_list;
    assert(declared_exprs(name, args.pos_args) == 0);
    assert(declared_named_args(name, args.named_args) == 0);
    assert(declared_args(name, args) == 0);
    assert(declared_optional_expr(name, instance->New_obj_scope) == 0);

    // The initializers of the class.
    let marker = hidden_marker();
    let variable = marker.kind->Assignment_variable;
    let display = *variable->InstanceMember_object;
    assert(declared_reference(name, ReferenceView::Identifier(THIS_NAME@)) == 0);
    assert(declared_expr(name, this_reference()) == 0);
    assert(declared_reference(name, display->Reference_0) == 0);
    assert(declared_expr(name, display) == 0);
    assert(declared_reference(name, variable) == 0);
    assert(declared_expr(name, marker.kind->Assignment_value) == 0);
    assert(declared_stmt_kind(name, marker.kind) == 0);
    assert(declared_stmt(name, marker) == 0);
    lemma_declared_single_stmt(name, marker);
    let initializer = closure_class_initializer(n);
    assert(declared_parameters(name, initializer.signature.parameters) == 0);
    assert(declared_scope(name, ScopeView { statements: seq![marker] }) == 0);
    assert(declared_function_definition(name, initializer) == 0);
    let inflight_initializer = closure_class_inflight_initializer();
    assert(declared_parameters(name, inflight_initializer.signature.parameters) == 0);
    assert(declared_stmts(name, Seq::<StmtView>::empty()) == 0);
    assert(declared_scope(name, ScopeView { statements: Seq::empty() }) == 0);
    assert(declared_function_definition(name, inflight_initializer) == 0);

    // The class.
    let class = closure_class(n, method, idx);
    let methods = class.kind->Class_0.methods;
    assert(methods.drop_last() =~= Seq::<(Seq<char>, FunctionDefinitionView)>::empty());
    assert(declared_methods(name, methods.drop_last()) == 0);
    assert(declared_methods(name, methods) == declared_function_definition(name, method));
    assert(declared_class(name, class.kind->Class_0) == one_if(name == class_name(n))
        + declared_function_definition(name, closure));
    assert(declared_stmt_kind(name, class.kind) == declared_class(name, class.kind->Class_0));
    assert(declared_stmt(name, class) == declared_class(name, class.kind->Class_0));
    lemma_declared_single_stmt(name, class);
    if with_this {
        let binding = capture_binding(n, idx);
        assert(declared_stmt_kind(name, binding.kind) == one_if(name == capture_name(n)));
        assert(declared_stmt(name, binding) == one_if(name == capture_name(n)));
        lemma_declared_single_stmt(name, binding);
        lemma_declared_stmts_concat(name, seq![binding], seq![class]);
        assert(seq![binding] + seq![class] =~= closure_statements(ambient, n, closure));
    }
}

/// The declarations of `name` that wait to be put into a scope.
pub open spec fn declared_waiting(name: Seq<char>, synthesis: Synthesis) -> nat {
    declared_stmts(name, synthesis.class_statements)
}

/// The conversion of one closure adds one declaration of its class name,
/// inside an instance method one of its capture name, and no other.
proof fn lemma_gain_closure(
    name: Seq<char>,
    ambient: Ambient,
    synthesis: Synthesis,
    closure: FunctionDefinitionView,
)
    requires
        ambient.phase == Phase::Preflight,
        closure.signature.phase == Phase::Inflight,
    ensures
        ({
            let converted = converted_closure(ambient, synthesis, closure);
            fits(
                name,
                synthesis.closure_counter,
                converted.synthesis.closure_counter,
                capturing_expr(
                    ambient.inside_scope_with_this,
                    ambient.phase,
                    synthesis.closure_counter,
                    ExprView::FunctionClosure(closure),
                ),
                declared_expr(name, converted.node) + declared_waiting(name, converted.synthesis)
                    - declared_function_definition(name, closure) - declared_waiting(name, synthesis),
            )
        }),
{
    let n = synthesis.closure_counter + 1;
    let converted = converted_closure(ambient, synthesis, closure);
    let gain = declared_expr(name, converted.node) + declared_waiting(name, converted.synthesis)
        - declared_function_definition(name, closure) - declared_waiting(name, synthesis);
    let capturing = capturing_expr(
        ambient.inside_scope_with_this,
        ambient.phase,
        synthesis.closure_counter,
        ExprView::FunctionClosure(closure),
    );
    lemma_declared_closure_statements(name, ambient, n, closure);
    lemma_declared_stmts_concat(name, synthesis.class_statements, closure_statements(ambient, n, closure));
    lemma_class_name_is_no_capture_name(n, n);
    let low = synthesis.closure_counter;
    assert(gain == one_if(name == class_name(n)) + one_if(
        ambient.inside_scope_with_this && name == capture_name(n),
    ));
    assert(capturing.contains(n) == ambient.inside_scope_with_this);
    if names_class_in(name, low, n) {
        let k = choose|k: nat| low < k <= n && name == #[trigger] class_name(k);
        assert(k == n);
    }
    if names_capture_in(name, low, n) {
        let k = choose|k: nat| low < k <= n && name == #[trigger] capture_name(k);
        assert(k == n);
    }
    if name == class_name(n) {
        assert(names_class_in(name, low, n));
    }
    if name == capture_name(n) {
        assert(names_capture_in(name, low, n));
    }
    assert forall|k: nat| low < k <= n && name == #[trigger] capture_name(k) implies gain == one_if(
        capturing.contains(k),
    ) by {
        assert(k == n);
    }
}

// The induction behind `lemma_gain_scope`, one step for each kind of node.
// Each step says of the node what `lemma_gain_scope` says of a scope.

proof fn lemma_gain_expr(name: Seq<char>, ambient: Ambient, synthesis: Synthesis, expr: ExprView)
    ensures
        ({
            let converted = converted_expr(ambient, synthesis, expr);
            &&& synthesis.closure_counter <= converted.synthesis.closure_counter
            &&& fits(
                name,
                synthesis.closure_counter,
                converted.synthesis.closure_counter,
                capturing_expr(
                    ambient.inside_scope_with_this,
                    ambient.phase,
                    synthesis.closure_counter,
                    expr,
                ),
                declared_expr(name, converted.node) + declared_waiting(name, converted.synthesis)
                    - declared_expr(name, expr) - declared_waiting(name, synthesis),
            )
        }),
    decreases expr,
{
    lemma_counter_expr(ambient, synthesis, expr);
    if ambient.phase == Phase::Inflight {
    } else {
        match expr {
            ExprView::FunctionClosure(definition) => {
                if definition.signature.phase == Phase::Inflight {
                    lemma_gain_closure(name, ambient, synthesis, definition);
                } else {
                    lemma_gain_function_definition(name, ambient, synthesis, definition);
                }
            },
            ExprView::New { class, obj_id, obj_scope, arg_list } => {
                lemma_gain_optional_expr(name, ambient, synthesis, obj_scope);
                let scope = converted_optional_expr(ambient, synthesis, obj_scope);
                lemma_gain_args(name, ambient, scope.synthesis, arg_list);
                let args = converted_args(ambient, scope.synthesis, arg_list);
                lemma_counter_optional_expr(ambient, synthesis, obj_scope);
                lemma_fits_compose(
                    name,
                    synthesis.closure_counter,
                    scope.synthesis.closure_counter,
                    args.synthesis.closure_counter,
                    capturing_optional_expr(
                        ambient.inside_scope_with_this,
                        ambient.phase,
                        synthesis.closure_counter,
                        obj_scope,
                    ),
                    capturing_args(
                        ambient.inside_scope_with_this,
                        ambient.phase,
                        scope.synthesis.closure_counter,
                        arg_list,
                    ),
                    declared_optional_expr(name, scope.node) + declared_waiting(name, scope.synthesis)
                        - declared_optional_expr(name, obj_scope) - declared_waiting(name, synthesis),
                    declared_args(name, args.node) + declared_waiting(name, args.synthesis) - declared_args(
                        name,
                        arg_list,
                    ) - declared_waiting(name, scope.synthesis),
                );
            },
            ExprView::Literal(_) => {},
            ExprView::Reference(reference) => {
                lemma_gain_reference(name, ambient, synthesis, reference);
            },
            ExprView::Call { function, arg_list } => {
                lemma_gain_expr(name, ambient, synthesis, *function);
                let callee = converted_expr(ambient, synthesis, *function);
                lemma_gain_args(name, ambient, callee.synthesis, arg_list);
                let args = converted_args(ambient, callee.synthesis, arg_list);
                lemma_counter_expr(ambient, synthesis, *function);
                lemma_fits_compose(
                    name,
                    synthesis.closure_counter,
                    callee.synthesis.closure_counter,
                    args.synthesis.closure_counter,
                    capturing_expr(
                        ambient.inside_scope_with_this,
                        ambient.phase,
                        synthesis.closure_counter,
                        *function,
                    ),
                    capturing_args(
                        ambient.inside_scope_with_this,
                        ambient.phase,
                        callee.synthesis.closure_counter,
                        arg_list,
                    ),
                    declared_expr(name, callee.node) + declared_waiting(name, callee.synthesis)
                        - declared_expr(name, *function) - declared_waiting(name, synthesis),
                    declared_args(name, args.node) + declared_waiting(name, args.synthesis) - declared_args(
                        name,
                        arg_list,
                    ) - declared_waiting(name, callee.synthesis),
                );
            },
            ExprView::Unary { op, exp } => {
                lemma_gain_expr(name, ambient, synthesis, *exp);
            },
            ExprView::Binary { op, left, right } => {
                lemma_gain_expr(name, ambient, synthesis, *left);
                let first = converted_expr(ambient, synthesis, *left);
                lemma_gain_expr(name, ambient, first.synthesis, *right);
                let second = converted_expr(ambient, first.synthesis, *right);
                lemma_counter_expr(ambient, synthesis, *left);
                lemma_fits_compose(
                    name,
                    synthesis.closure_counter,
                    first.synthesis.closure_counter,
                    second.synthesis.closure_counter,
                    capturing_expr(
                        ambient.inside_scope_with_this,
                        ambient.phase,
                        synthesis.closure_counter,
                        *left,
                    ),
                    capturing_expr(
                        ambient.inside_scope_with_this,
                        ambient.phase,
                        first.synthesis.closure_counter,
                        *right,
                    ),
                    declared_expr(name, first.node) + declared_waiting(name, first.synthesis) - declared_expr(
                        name,
                        *left,
                    ) - declared_waiting(name, synthesis),
                    declared_expr(name, second.node) + declared_waiting(name, second.synthesis)
                        - declared_expr(name, *right) - declared_waiting(name, first.synthesis),
                );
            },
            ExprView::ArrayLiteral { type_, items } => {
                lemma_gain_exprs(name, ambient, synthesis, items);
            },
        }
    }
}

proof fn lemma_gain_optional_expr(
    name: Seq<char>,
    ambient: Ambient,
    synthesis: Synthesis,
    expr: Option<Box<ExprView>>,
)
    ensures
        ({
            let converted = converted_optional_expr(ambient, synthesis, expr);
            &&& synthesis.closure_counter <= converted.synthesis.closure_counter
            &&& fits(
                name,
                synthesis.closure_counter,
                converted.synthesis.closure_counter,
                capturing_optional_expr(
                    ambient.inside_scope_with_this,
                    ambient.phase,
                    synthesis.closure_counter,
                    expr,
                ),
                declared_optional_expr(name, converted.node) + declared_waiting(name, converted.synthesis)
                    - declared_optional_expr(name, expr) - declared_waiting(name, synthesis),
            )
        }),
    decreases expr,
{
    match expr {
        Some(inner) => {
            lemma_gain_expr(name, ambient, synthesis, *inner);
        },
        None => {},
    }
}

proof fn lemma_gain_exprs(
    name: Seq<char>,
    ambient: Ambient,
    synthesis: Synthesis,
    exprs: Seq<ExprView>,
)
    ensures
        ({
            let converted = converted_exprs(ambient, synthesis, exprs);
            &&& synthesis.closure_counter <= converted.synthesis.closure_counter
            &&& fits(
                name,
                synthesis.closure_counter,
                converted.synthesis.closure_counter,
                capturing_exprs(
                    ambient.inside_scope_with_this,
                    ambient.phase,
                    synthesis.closure_counter,
                    exprs,
                ),
                declared_exprs(name, converted.node) + declared_waiting(name, converted.synthesis)
                    - declared_exprs(name, exprs) - declared_waiting(name, synthesis),
            )
        }),
    decreases exprs,
{
    if exprs.len() > 0 {
        lemma_gain_exprs(name, ambient, synthesis, exprs.drop_last());
        let front = converted_exprs(ambient, synthesis, exprs.drop_last());
        lemma_gain_expr(name, ambient, front.synthesis, exprs.last());
        let last = converted_expr(ambient, front.synthesis, exprs.last());
        assert(front.node.push(last.node).drop_last() =~= front.node);
        lemma_counter_exprs(ambient, synthesis, exprs.drop_last());
        lemma_fits_compose(
            name,
            synthesis.closure_counter,
            front.synthesis.closure_counter,
            last.synthesis.closure_counter,
            capturing_exprs(
                ambient.inside_scope_with_this,
                ambient.phase,
                synthesis.closure_counter,
                exprs.drop_last(),
            ),
            capturing_expr(
                ambient.inside_scope_with_this,
                ambient.phase,
                front.synthesis.closure_counter,
                exprs.last(),
            ),
            declared_exprs(name, front.node) + declared_waiting(name, front.synthesis) - declared_exprs(
                name,
                exprs.drop_last(),
            ) - declared_waiting(name, synthesis),
            declared_expr(name, last.node) + declared_waiting(name, last.synthesis) - declared_expr(
                name,
                exprs.last(),
            ) - declared_waiting(name, front.synthesis),
        );
    }
}

proof fn lemma_gain_named_args(
    name: Seq<char>,
    ambient: Ambient,
    synthesis: Synthesis,
    entries: Seq<(Seq<char>, ExprView)>,
)
    ensures
        ({
            let converted = converted_named_args(ambient, synthesis, entries);
            &&& synthesis.closure_counter <= converted.synthesis.closure_counter
            &&& fits(
                name,
                synthesis.closure_counter,
                converted.synthesis.closure_counter,
                capturing_named_args(
                    ambient.inside_scope_with_this,
                    ambient.phase,
                    synthesis.closure_counter,
                    entries,
                ),
                declared_named_args(name, converted.node) + declared_waiting(name, converted.synthesis)
                    - declared_named_args(name, entries) - declared_waiting(name, synthesis),
            )
        }),
    decreases entries,
{
    if entries.len() > 0 {
        lemma_gain_named_args(name, ambient, synthesis, entries.drop_last());
        let front = converted_named_args(ambient, synthesis, entries.drop_last());
        lemma_gain_expr(name, ambient, front.synthesis, entries.last().1);
        let last = converted_expr(ambient, front.synthesis, entries.last().1);
        assert(front.node.push((entries.last().0, last.node)).drop_last() =~= front.node);
        lemma_counter_named_args(ambient, synthesis, entries.drop_last());
        lemma_fits_compose(
            name,
            synthesis.closure_counter,
            front.synthesis.closure_counter,
            last.synthesis.closure_counter,
            capturing_named_args(
                ambient.inside_scope_with_this,
                ambient.phase,
                synthesis.closure_counter,
                entries.drop_last(),
            ),
            capturing_expr(
                ambient.inside_scope_with_this,
                ambient.phase,
                front.synthesis.closure_counter,
                entries.last().1,
            ),
            declared_named_args(name, front.node) + declared_waiting(name, front.synthesis)
                - declared_named_args(name, entries.drop_last()) - declared_waiting(name, synthesis),
            declared_expr(name, last.node) + declared_waiting(name, last.synthesis) - declared_expr(
                name,
                entries.last().1,
            ) - declared_waiting(name, front.synthesis),
        );
    }
}

proof fn lemma_gain_args(name: Seq<char>, ambient: Ambient, synthesis: Synthesis, args: ArgListView)
    ensures
        ({
            let converted = converted_args(ambient, synthesis, args);
            &&& synthesis.closure_counter <= converted.synthesis.closure_counter
            &&& fits(
                name,
                synthesis.closure_counter,
                converted.synthesis.closure_counter,
                capturing_args(
                    ambient.inside_scope_with_this,
                    ambient.phase,
                    synthesis.closure_counter,
                    args,
                ),
                declared_args(name, converted.node) + declared_waiting(name, converted.synthesis)
                    - declared_args(name, args) - declared_waiting(name, synthesis),
            )
        }),
    decreases args,
{
    lemma_gain_exprs(name, ambient, synthesis, args.pos_args);
    let positional = converted_exprs(ambient, synthesis, args.pos_args);
    lemma_gain_named_args(name, ambient, positional.synthesis, args.named_args);
    let named = converted_named_args(ambient, positional.synthesis, args.named_args);
    lemma_counter_exprs(ambient, synthesis, args.pos_args);
    lemma_fits_compose(
        name,
        synthesis.closure_counter,
        positional.synthesis.closure_counter,
        named.synthesis.closure_counter,
        capturing_exprs(
            ambient.inside_scope_with_this,
            ambient.phase,
            synthesis.closure_counter,
            args.pos_args,
        ),
        capturing_named_args(
            ambient.inside_scope_with_this,
            ambient.phase,
            positional.synthesis.closure_counter,
            args.named_args,
        ),
        declared_exprs(name, positional.node) + declared_waiting(name, positional.synthesis)
            - declared_exprs(name, args.pos_args) - declared_waiting(name, synthesis),
        declared_named_args(name, named.node) + declared_waiting(name, named.synthesis)
            - declared_named_args(name, args.named_args) - declared_waiting(name, positional.synthesis),
    );
}

proof fn lemma_gain_reference(
    name: Seq<char>,
    ambient: Ambient,
    synthesis: Synthesis,
    reference: ReferenceView,
)
    ensures
        ({
            let converted = converted_reference(ambient, synthesis, reference);
            &&& synthesis.closure_counter <= converted.synthesis.closure_counter
            &&& fits(
                name,
                synthesis.closure_counter,
                converted.synthesis.closure_counter,
                capturing_reference(
                    ambient.inside_scope_with_this,
                    ambient.phase,
                    synthesis.closure_counter,
                    reference,
                ),
                declared_reference(name, converted.node) + declared_waiting(name, converted.synthesis)
                    - declared_reference(name, reference) - declared_waiting(name, synthesis),
            )
        }),
    decreases reference,
{
    match reference {
        ReferenceView::InstanceMember { object, property, optional_accessor } => {
            lemma_gain_expr(name, ambient, synthesis, *object);
        },
        _ => {},
    }
}

proof fn lemma_gain_function_definition(
    name: Seq<char>,
    ambient: Ambient,
    synthesis: Synthesis,
    definition: FunctionDefinitionView,
)
    ensures
        ({
            let converted = converted_function_definition(ambient, synthesis, definition);
            &&& synthesis.closure_counter <= converted.synthesis.closure_counter
            &&& fits(
                name,
                synthesis.closure_counter,
                converted.synthesis.closure_counter,
                capturing_function_definition(
                    ambient.inside_scope_with_this,
                    synthesis.closure_counter,
                    definition,
                ),
                declared_function_definition(name, converted.node) + declared_waiting(
                    name,
                    converted.synthesis,
                ) - declared_function_definition(name, definition) - declared_waiting(name, synthesis),
            )
        }),
    decreases definition,
{
    match definition.body {
        FunctionBodyView::Statements(scope) => {
            lemma_gain_scope(name, ambient_inside(ambient, definition), synthesis, scope);
        },
        FunctionBodyView::External(_) => {},
    }
}

/// Counting declarations. Take any name, and count its declarations in a
/// scope together with those that wait, before a conversion and after it.
/// For the class name of a closure that this conversion converted, the count
/// has grown by one. For the capture name of such a closure it has grown by
/// one where the closure was converted at a place with a `this`, and stayed
/// where it was not. For every other name it has stayed.
pub proof fn lemma_gain_scope(
    name: Seq<char>,
    ambient: Ambient,
    synthesis: Synthesis,
    scope: ScopeView,
)
    ensures
        ({
            let converted = converted_scope(ambient, synthesis, scope);
            &&& synthesis.closure_counter <= converted.synthesis.closure_counter
            &&& fits(
                name,
                synthesis.closure_counter,
                converted.synthesis.closure_counter,
                capturing_scope(
                    ambient.inside_scope_with_this,
                    ambient.phase,
                    synthesis.closure_counter,
                    scope,
                ),
                declared_scope(name, converted.node) + declared_waiting(name, converted.synthesis)
                    - declared_scope(name, scope) - declared_waiting(name, synthesis),
            )
        }),
    decreases scope,
{
    lemma_gain_stmts(name, ambient, entering_scope(synthesis), scope.statements);
    let inner = converted_stmts(ambient, entering_scope(synthesis), scope.statements);
    assert(declared_waiting(name, entering_scope(synthesis)) == 0);
    assert(declared_waiting(name, inner.synthesis) == 0);
}

proof fn lemma_gain_optional_scope(
    name: Seq<char>,
    ambient: Ambient,
    synthesis: Synthesis,
    scope: Option<ScopeView>,
)
    ensures
        ({
            let converted = converted_optional_scope(ambient, synthesis, scope);
            &&& synthesis.closure_counter <= converted.synthesis.closure_counter
            &&& fits(
                name,
                synthesis.closure_counter,
                converted.synthesis.closure_counter,
                capturing_optional_scope(
                    ambient.inside_scope_with_this,
                    ambient.phase,
                    synthesis.closure_counter,
                    scope,
                ),
                declared_optional_scope(name, converted.node) + declared_waiting(name, converted.synthesis)
                    - declared_optional_scope(name, scope) - declared_waiting(name, synthesis),
            )
        }),
    decreases scope,
{
    match scope {
        Some(inner) => {
            lemma_gain_scope(name, ambient, synthesis, inner);
        },
        None => {},
    }
}

proof fn lemma_gain_stmts(
    name: Seq<char>,
    ambient: Ambient,
    synthesis: Synthesis,
    stmts: Seq<StmtView>,
)
    ensures
        ({
            let converted = converted_stmts(ambient, synthesis, stmts);
            &&& synthesis.closure_counter <= converted.synthesis.closure_counter
            &&& fits(
                name,
                synthesis.closure_counter,
                converted.synthesis.closure_counter,
                capturing_stmts(
                    ambient.inside_scope_with_this,
                    ambient.phase,
                    synthesis.closure_counter,
                    stmts,
                ),
                declared_stmts(name, converted.node) + declared_waiting(name, converted.synthesis)
                    - declared_stmts(name, stmts) - declared_waiting(name, synthesis),
            )
        }),
    decreases stmts,
{
    if stmts.len() > 0 {
        lemma_gain_stmts(name, ambient, synthesis, stmts.drop_last());
        let front = converted_stmts(ambient, synthesis, stmts.drop_last());
        let inner = Ambient { nearest_stmt_idx: stmts.last().idx, ..ambient };
        lemma_gain_stmt(name, inner, front.synthesis, stmts.last());
        let last = converted_stmt(inner, front.synthesis, stmts.last());
        let converted = converted_stmts(ambient, synthesis, stmts);
        lemma_declared_single_stmt(name, last.node);
        lemma_declared_stmts_concat(name, front.node, last.synthesis.class_statements);
        lemma_declared_stmts_concat(name, front.node + last.synthesis.class_statements, seq![last.node]);
        assert(declared_waiting(name, converted.synthesis) == 0);
        lemma_counter_stmts(ambient, synthesis, stmts.drop_last());
        lemma_fits_compose(
            name,
            synthesis.closure_counter,
            front.synthesis.closure_counter,
            last.synthesis.closure_counter,
            capturing_stmts(
                ambient.inside_scope_with_this,
                ambient.phase,
                synthesis.closure_counter,
                stmts.drop_last(),
            ),
            capturing_stmt(
                ambient.inside_scope_with_this,
                ambient.phase,
                front.synthesis.closure_counter,
                stmts.last(),
            ),
            declared_stmts(name, front.node) + declared_waiting(name, front.synthesis) - declared_stmts(
                name,
                stmts.drop_last(),
            ) - declared_waiting(name, synthesis),
            declared_stmt(name, last.node) + declared_waiting(name, last.synthesis) - declared_stmt(
                name,
                stmts.last(),
            ) - declared_waiting(name, front.synthesis),
        );
    }
}

proof fn lemma_gain_stmt(name: Seq<char>, ambient: Ambient, synthesis: Synthesis, stmt: StmtView)
    ensures
        ({
            let converted = converted_stmt(ambient, synthesis, stmt);
            &&& synthesis.closure_counter <= converted.synthesis.closure_counter
            &&& fits(
                name,
                synthesis.closure_counter,
                converted.synthesis.closure_counter,
                capturing_stmt(
                    ambient.inside_scope_with_this,
                    ambient.phase,
                    synthesis.closure_counter,
                    stmt,
                ),
                declared_stmt(name, converted.node) + declared_waiting(name, converted.synthesis)
                    - declared_stmt(name, stmt) - declared_waiting(name, synthesis),
            )
        }),
    decreases stmt,
{
    let kind = stmt.kind;
    let converted = converted_stmt_kind(ambient, synthesis, kind);
    match kind {
        StmtKindView::Let { reassignable, var_name, initial_value, type_ } => {
            lemma_gain_expr(name, ambient, synthesis, initial_value);
        },
        StmtKindView::ForLoop { iterator, iterable, statements } => {
            lemma_gain_for_loop(name, ambient, synthesis, kind);
        },
        StmtKindView::If { condition, statements, else_statements } => {
            lemma_gain_if(name, ambient, synthesis, kind);
        },
        StmtKindView::Expression(expr) => {
            lemma_gain_expr(name, ambient, synthesis, expr);
        },
        StmtKindView::Assignment { variable, value } => {
            lemma_gain_assignment(name, ambient, synthesis, kind);
        },
        StmtKindView::Return(value) => {
            match value {
                Some(expr) => {
                    lemma_gain_expr(name, ambient, synthesis, expr);
                },
                None => {},
            }
        },
        StmtKindView::Scope(scope) => {
            lemma_gain_scope(name, ambient, synthesis, scope);
        },
        StmtKindView::Class(class) => {
            lemma_gain_class(name, ambient, synthesis, class);
        },
        StmtKindView::Break => {},
        StmtKindView::Continue => {},
    }
    assert(fits(
        name,
        synthesis.closure_counter,
        converted.synthesis.closure_counter,
        capturing_stmt_kind(
            ambient.inside_scope_with_this,
            ambient.phase,
            synthesis.closure_counter,
            kind,
        ),
        declared_stmt_kind(name, converted.node) + declared_waiting(name, converted.synthesis)
            - declared_stmt_kind(name, kind) - declared_waiting(name, synthesis),
    ));
}

proof fn lemma_gain_for_loop(name: Seq<char>, ambient: Ambient, synthesis: Synthesis, kind: StmtKindView)
    requires
        kind is ForLoop,
    ensures
        ({
            let converted = converted_stmt_kind(ambient, synthesis, kind);
            &&& synthesis.closure_counter <= converted.synthesis.closure_counter
            &&& fits(
                name,
                synthesis.closure_counter,
                converted.synthesis.closure_counter,
                capturing_stmt_kind(
                    ambient.inside_scope_with_this,
                    ambient.phase,
                    synthesis.closure_counter,
                    kind,
                ),
                declared_stmt_kind(name, converted.node) + declared_waiting(name, converted.synthesis)
                    - declared_stmt_kind(name, kind) - declared_waiting(name, synthesis),
            )
        }),
    decreases kind,
{
    let iterable = kind->ForLoop_iterable;
    let statements = kind->ForLoop_statements;
    lemma_gain_expr(name, ambient, synthesis, iterable);
    lemma_counter_expr(ambient, synthesis, iterable);
    let source = converted_expr(ambient, synthesis, iterable);
    lemma_gain_scope(name, ambient, source.synthesis, statements);
    let body = converted_scope(ambient, source.synthesis, statements);
    lemma_fits_compose(
        name,
        synthesis.closure_counter,
        source.synthesis.closure_counter,
        body.synthesis.closure_counter,
        capturing_expr(
            ambient.inside_scope_with_this,
            ambient.phase,
            synthesis.closure_counter,
            iterable,
        ),
        capturing_scope(
            ambient.inside_scope_with_this,
            ambient.phase,
            source.synthesis.closure_counter,
            statements,
        ),
        declared_expr(name, source.node) + declared_waiting(name, source.synthesis) - declared_expr(
            name,
            iterable,
        ) - declared_waiting(name, synthesis),
        declared_scope(name, body.node) + declared_waiting(name, body.synthesis) - declared_scope(
            name,
            statements,
        ) - declared_waiting(name, source.synthesis),
    );
}

proof fn lemma_gain_if(name: Seq<char>, ambient: Ambient, synthesis: Synthesis, kind: StmtKindView)
    requires
        kind is If,
    ensures
        ({
            let converted = converted_stmt_kind(ambient, synthesis, kind);
            &&& synthesis.closure_counter <= converted.synthesis.closure_counter
            &&& fits(
                name,
                synthesis.closure_counter,
                converted.synthesis.closure_counter,
                capturing_stmt_kind(
                    ambient.inside_scope_with_this,
                    ambient.phase,
                    synthesis.closure_counter,
                    kind,
                ),
                declared_stmt_kind(name, converted.node) + declared_waiting(name, converted.synthesis)
                    - declared_stmt_kind(name, kind) - declared_waiting(name, synthesis),
            )
        }),
    decreases kind,
{
    let condition = kind->If_condition;
    let statements = kind->If_statements;
    let else_statements = kind->If_else_statements;
    lemma_gain_expr(name, ambient, synthesis, condition);
    lemma_counter_expr(ambient, synthesis, condition);
    let test = converted_expr(ambient, synthesis, condition);
    lemma_gain_scope(name, ambient, test.synthesis, statements);
    lemma_counter_scope(ambient, test.synthesis, statements);
    let body = converted_scope(ambient, test.synthesis, statements);
    lemma_gain_optional_scope(name, ambient, body.synthesis, else_statements);
    let otherwise = converted_optional_scope(ambient, body.synthesis, else_statements);
    let first = declared_expr(name, test.node) + declared_waiting(name, test.synthesis) - declared_expr(
        name,
        condition,
    ) - declared_waiting(name, synthesis);
    let second = declared_scope(name, body.node) + declared_waiting(name, body.synthesis)
        - declared_scope(name, statements) - declared_waiting(name, test.synthesis);
    let third = declared_optional_scope(name, otherwise.node) + declared_waiting(
        name,
        otherwise.synthesis,
    ) - declared_optional_scope(name, else_statements) - declared_waiting(name, body.synthesis);
    let first_capturing = capturing_expr(
        ambient.inside_scope_with_this,
        ambient.phase,
        synthesis.closure_counter,
        condition,
    );
    let second_capturing = capturing_scope(
        ambient.inside_scope_with_this,
        ambient.phase,
        test.synthesis.closure_counter,
        statements,
    );
    let third_capturing = capturing_optional_scope(
        ambient.inside_scope_with_this,
        ambient.phase,
        body.synthesis.closure_counter,
        else_statements,
    );
    lemma_fits_compose(
        name,
        synthesis.closure_counter,
        test.synthesis.closure_counter,
        body.synthesis.closure_counter,
        first_capturing,
        second_capturing,
        first,
        second,
    );
    lemma_fits_compose(
        name,
        synthesis.closure_counter,
        body.synthesis.closure_counter,
        otherwise.synthesis.closure_counter,
        first_capturing.union(second_capturing),
        third_capturing,
        first + second,
        third,
    );
}

proof fn lemma_gain_assignment(name: Seq<char>, ambient: Ambient, synthesis: Synthesis, kind: StmtKindView)
    requires
        kind is Assignment,
    ensures
        ({
            let converted = converted_stmt_kind(ambient, synthesis, kind);
            &&& synthesis.closure_counter <= converted.synthesis.closure_counter
            &&& fits(
                name,
                synthesis.closure_counter,
                converted.synthesis.closure_counter,
                capturing_stmt_kind(
                    ambient.inside_scope_with_this,
                    ambient.phase,
                    synthesis.closure_counter,
                    kind,
                ),
                declared_stmt_kind(name, converted.node) + declared_waiting(name, converted.synthesis)
                    - declared_stmt_kind(name, kind) - declared_waiting(name, synthesis),
            )
        }),
    decreases kind,
{
    let variable = kind->Assignment_variable;
    let value = kind->Assignment_value;
    lemma_gain_reference(name, ambient, synthesis, variable);
    lemma_counter_reference(ambient, synthesis, variable);
    let target = converted_reference(ambient, synthesis, variable);
    lemma_gain_expr(name, ambient, target.synthesis, value);
    let source = converted_expr(ambient, target.synthesis, value);
    lemma_fits_compose(
        name,
        synthesis.closure_counter,
        target.synthesis.closure_counter,
        source.synthesis.closure_counter,
        capturing_reference(
            ambient.inside_scope_with_this,
            ambient.phase,
            synthesis.closure_counter,
            variable,
        ),
        capturing_expr(
            ambient.inside_scope_with_this,
            ambient.phase,
            target.synthesis.closure_counter,
            value,
        ),
        declared_reference(name, target.node) + declared_waiting(name, target.synthesis)
            - declared_reference(name, variable) - declared_waiting(name, synthesis),
        declared_expr(name, source.node) + declared_waiting(name, source.synthesis) - declared_expr(
            name,
            value,
        ) - declared_waiting(name, target.synthesis),
    );
}

proof fn lemma_gain_class(name: Seq<char>, ambient: Ambient, synthesis: Synthesis, class: ClassView)
    ensures
        ({
            let converted = converted_class(ambient, synthesis, class);
            &&& synthesis.closure_counter <= converted.synthesis.closure_counter
            &&& fits(
                name,
                synthesis.closure_counter,
                converted.synthesis.closure_counter,
                capturing_class(ambient.inside_scope_with_this, synthesis.closure_counter, class),
                declared_class(name, converted.node) + declared_waiting(name, converted.synthesis)
                    - declared_class(name, class) - declared_waiting(name, synthesis),
            )
        }),
    decreases class,
{
    lemma_gain_function_definition(name, ambient, synthesis, class.initializer);
    let initializer = converted_function_definition(ambient, synthesis, class.initializer);
    lemma_gain_methods(name, ambient, initializer.synthesis, class.methods);
    let methods = converted_methods(ambient, initializer.synthesis, class.methods);
    lemma_gain_function_definition(name, ambient, methods.synthesis, class.inflight_initializer);
    let inflight_initializer = converted_function_definition(
        ambient,
        methods.synthesis,
        class.inflight_initializer,
    );
    let first = declared_function_definition(name, initializer.node) + declared_waiting(
        name,
        initializer.synthesis,
    ) - declared_function_definition(name, class.initializer) - declared_waiting(name, synthesis);
    let second = declared_methods(name, methods.node) + declared_waiting(name, methods.synthesis)
        - declared_methods(name, class.methods) - declared_waiting(name, initializer.synthesis);
    let third = declared_function_definition(name, inflight_initializer.node) + declared_waiting(
        name,
        inflight_initializer.synthesis,
    ) - declared_function_definition(name, class.inflight_initializer) - declared_waiting(
        name,
        methods.synthesis,
    );
    lemma_counter_function_definition(ambient, synthesis, class.initializer);
    lemma_fits_compose(
        name,
        synthesis.closure_counter,
        initializer.synthesis.closure_counter,
        methods.synthesis.closure_counter,
        capturing_function_definition(
            ambient.inside_scope_with_this,
            synthesis.closure_counter,
            class.initializer,
        ),
        capturing_methods(
            ambient.inside_scope_with_this,
            initializer.synthesis.closure_counter,
            class.methods,
        ),
        first,
        second,
    );
    lemma_counter_methods(ambient, initializer.synthesis, class.methods);
    lemma_fits_compose(
        name,
        synthesis.closure_counter,
        methods.synthesis.closure_counter,
        inflight_initializer.synthesis.closure_counter,
        capturing_function_definition(
            ambient.inside_scope_with_this,
            synthesis.closure_counter,
            class.initializer,
        ).union(
            capturing_methods(
                ambient.inside_scope_with_this,
                initializer.synthesis.closure_counter,
                class.methods,
            ),
        ),
        capturing_function_definition(
            ambient.inside_scope_with_this,
            methods.synthesis.closure_counter,
            class.inflight_initializer,
        ),
        first + second,
        third,
    );
}

proof fn lemma_gain_methods(
    name: Seq<char>,
    ambient: Ambient,
    synthesis: Synthesis,
    methods: Seq<(Seq<char>, FunctionDefinitionView)>,
)
    ensures
        ({
            let converted = converted_methods(ambient, synthesis, methods);
            &&& synthesis.closure_counter <= converted.synthesis.closure_counter
            &&& fits(
                name,
                synthesis.closure_counter,
                converted.synthesis.closure_counter,
                capturing_methods(
                    ambient.inside_scope_with_this,
                    synthesis.closure_counter,
                    methods,
                ),
                declared_methods(name, converted.node) + declared_waiting(name, converted.synthesis)
                    - declared_methods(name, methods) - declared_waiting(name, synthesis),
            )
        }),
    decreases methods,
{
    if methods.len() > 0 {
        lemma_gain_methods(name, ambient, synthesis, methods.drop_last());
        let front = converted_methods(ambient, synthesis, methods.drop_last());
        lemma_gain_function_definition(name, ambient, front.synthesis, methods.last().1);
        let last = converted_function_definition(ambient, front.synthesis, methods.last().1);
        assert(front.node.push((methods.last().0, last.node)).drop_last() =~= front.node);
        lemma_counter_methods(ambient, synthesis, methods.drop_last());
        lemma_fits_compose(
            name,
            synthesis.closure_counter,
            front.synthesis.closure_counter,
            last.synthesis.closure_counter,
            capturing_methods(
                ambient.inside_scope_with_this,
                synthesis.closure_counter,
                methods.drop_last(),
            ),
            capturing_function_definition(
                ambient.inside_scope_with_this,
                front.synthesis.closure_counter,
                methods.last().1,
            ),
            declared_methods(name, front.node) + declared_waiting(name, front.synthesis) - declared_methods(
                name,
                methods.drop_last(),
            ) - declared_waiting(name, synthesis),
            declared_function_definition(name, last.node) + declared_waiting(name, last.synthesis)
                - declared_function_definition(name, methods.last().1) - declared_waiting(
                name,
                front.synthesis,
            ),
        );
    }
}

/// Global uniqueness. Convert a scope that declares no reserved name. Then in
/// the converted scope, counted through all the scopes inside it, every
/// class name that the conversion made up is declared exactly once. The
/// capture name of a closure is declared exactly once where the closure was
/// converted at a place with a `this`, and not at all where it was not: one
/// binding for each such closure, and no other. Every name that is not
/// reserved is declared as often as before. The names made up differ from
/// one another where their numbers differ, and all of them are reserved.
pub proof fn lemma_synthesized_names_are_unique(
    name: Seq<char>,
    ambient: Ambient,
    synthesis: Synthesis,
    scope: ScopeView,
)
    requires
        is_reserved(name) ==> declared_scope(name, scope) == 0,
    ensures
        ({
            let converted = converted_scope(ambient, synthesis, scope);
            let low = synthesis.closure_counter;
            let high = converted.synthesis.closure_counter;
            let capturing = capturing_scope(ambient.inside_scope_with_this, ambient.phase, low, scope);
            &&& names_class_in(name, low, high) ==> declared_scope(name, converted.node) == 1
            &&& forall|k: nat|
                low < k <= high && name == #[trigger] capture_name(k) ==> declared_scope(
                    name,
                    converted.node,
                ) == one_if(capturing.contains(k))
            &&& !is_reserved(name) ==> declared_scope(name, converted.node) == declared_scope(name, scope)
        }),
{
    let converted = converted_scope(ambient, synthesis, scope);
    let low = synthesis.closure_counter;
    let high = converted.synthesis.closure_counter;
    lemma_gain_scope(name, ambient, synthesis, scope);
    assert(converted.synthesis.class_statements == synthesis.class_statements);
    if names_class_in(name, low, high) {
        let k = choose|k: nat| low < k <= high && name == #[trigger] class_name(k);
        lemma_numbered_names_reserved(k);
    }
    if names_capture_in(name, low, high) {
        let k = choose|k: nat| low < k <= high && name == #[trigger] capture_name(k);
        lemma_numbered_names_reserved(k);
    }
    assert forall|k: nat| low < k <= high && name == #[trigger] capture_name(k) implies declared_scope(
        name,
        converted.node,
    ) == one_if(
        capturing_scope(ambient.inside_scope_with_this, ambient.phase, low, scope).contains(k),
    ) by {
        lemma_numbered_names_reserved(k);
    }
}

} // verus!
