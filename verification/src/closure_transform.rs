//! The conversion itself: one walk over a syntax tree that turns every
//! inflight closure written in preflight code into a preflight class.
//!
//! ```text
//! let b = new cloud.Bucket();
//! let f = inflight (message: str) => {
//!   b.put("file.txt", message);
//! };
//! ```
//!
//! becomes
//!
//! ```text
//! let b = new cloud.Bucket();
//! class $Closure1 {
//!   init() { this.display.hidden = true; }
//!   inflight handle(message: str) {
//!     b.put("file.txt", message);
//!   }
//! }
//! let f = new $Closure1();
//! ```

use vstd::prelude::*;
use crate::ast::{
    entries_view, exprs_view, methods_view, stmts_view, ArgList, Class, ClassField, Expr,
    FunctionBody, FunctionDefinition, FunctionParameter, FunctionSignature, Literal, Phase,
    Reference, Scope, Stmt, StmtKind, Symbol, TypeAnnotation, UserDefinedType,
};
use crate::conversion::{
    converted_args, converted_class, converted_expr, converted_exprs, converted_function_definition,
    converted_methods, converted_named_args, converted_reference, converted_scope, converted_stmt,
    converted_stmts, entering_scope,
};
use crate::count::{
    conversions_args, conversions_class, conversions_expr, conversions_exprs,
    conversions_function_definition, conversions_in_scope, conversions_methods,
    conversions_named_args, conversions_reference, conversions_scope, conversions_stmt,
    conversions_stmts, lemma_conversions_exprs_split, lemma_conversions_methods_split,
    lemma_conversions_named_args_split, lemma_conversions_stmts_split, lemma_counter_args,
    lemma_counter_class, lemma_counter_expr, lemma_counter_exprs, lemma_counter_function_definition,
    lemma_counter_methods, lemma_counter_named_args, lemma_counter_optional_expr,
    lemma_counter_reference, lemma_counter_scope, lemma_counter_stmt, lemma_counter_stmts,
};
use crate::named_args::{distinct_names, has_name, named_args_entries, NamedArgs};
use crate::names::{
    closure_class_name, parent_this_name, DISPLAY_MEMBER, HANDLE_METHOD_NAME, HIDDEN_MEMBER,
    THIS_NAME,
};
use crate::placement::{lemma_waiting_class, lemma_waiting_function_definition};
use crate::rename_this::RenameThisTransformer;
use crate::synthesis::{
    capture_binding, closure_class, closure_class_inflight_initializer, closure_class_initializer,
    closure_instance, closure_statements, converted_closure, hidden_marker, this_reference, Ambient,
    Synthesis,
};
use crate::view::{ArgListView, ReferenceView, StmtView, TypeAnnotationView, UserDefinedTypeView};

verus! {

/// What a transformer is at one moment of its walk.
pub struct TransformerView {
    /// The phase of the code that the walk is in.
    pub phase: Phase,
    /// Whether `this` names an instance where the walk is.
    pub inside_scope_with_this: bool,
    /// How many closures have been converted so far.
    pub closure_counter: nat,
    /// The statements that wait to be put into the nearest scope.
    pub class_statements: Seq<StmtView>,
    /// The index of the statement that the walk is in.
    pub nearest_stmt_idx: nat,
}

impl TransformerView {
    /// Where the walk stands.
    pub open spec fn ambient(self) -> Ambient {
        Ambient {
            phase: self.phase,
            inside_scope_with_this: self.inside_scope_with_this,
            nearest_stmt_idx: self.nearest_stmt_idx,
        }
    }

    /// What the walk carries along.
    pub open spec fn synthesis(self) -> Synthesis {
        Synthesis { closure_counter: self.closure_counter, class_statements: self.class_statements }
    }
}

/// Transforms inflight closures defined in preflight scopes into preflight
/// classes: the closure's code goes into a class with a single method, and a
/// construction of that class takes the closure's place. Each class gets a
/// name of its own.
pub struct ClosureTransformer {
    // The phase of the code that the walk is in. Only inflight closures in
    // preflight code are converted.
    phase: Phase,
    // Whether `this` names an instance where the walk is.
    inside_scope_with_this: bool,
    // The number of the closure converted last; it makes the names differ.
    closure_counter: usize,
    // The declarations that wait to be put into the nearest scope.
    class_statements: Vec<Stmt>,
    // The index of the statement that the walk is in; new declarations take
    // it, so that later stages find for them what they find for the statement.
    nearest_stmt_idx: usize,
}

/// The type annotation that names a class by `name` alone.
fn class_type_annotation(name: String) -> (annotation: TypeAnnotation)
    ensures
        annotation@ == TypeAnnotationView::UserDefined(
            UserDefinedTypeView { root: name@, fields: Seq::empty() },
        ),
{
    let fields: Vec<Symbol> = Vec::new();
    let annotation = TypeAnnotation::UserDefined(UserDefinedType { root: Symbol { name }, fields });
    proof {
        assert(fields@.map_values(|s: Symbol| s@) =~= Seq::<Seq<char>>::empty());
    }
    annotation
}

/// A bare reference to `this`.
fn this_expr() -> (expr: Expr)
    ensures
        expr@ == this_reference(),
{
    let reference = Reference::Identifier(Symbol::new(THIS_NAME));
    assert(reference@ == ReferenceView::Identifier(THIS_NAME@));
    Expr::Reference(reference)
}

/// The statement `this.display.hidden = true`.
fn hidden_marker_stmt() -> (stmt: Stmt)
    ensures
        stmt@ == hidden_marker(),
{
    let display = Reference::InstanceMember {
        object: Box::new(this_expr()),
        property: Symbol::new(DISPLAY_MEMBER),
        optional_accessor: false,
    };
    assert(display@ == ReferenceView::InstanceMember {
        object: Box::new(this_reference()),
        property: DISPLAY_MEMBER@,
        optional_accessor: false,
    });
    let display = Expr::Reference(display);
    let hidden = Reference::InstanceMember {
        object: Box::new(display),
        property: Symbol::new(HIDDEN_MEMBER),
        optional_accessor: false,
    };
    let value = Expr::Literal(Literal::Boolean(true));
    let kind = StmtKind::Assignment { variable: hidden, value };
    Stmt { idx: 0, kind }
}

/// The preflight initializer of the class for the closure numbered `counter`.
fn class_initializer(counter: usize) -> (initializer: FunctionDefinition)
    ensures
        initializer@ == closure_class_initializer(counter as nat),
{
    let class_init_params: Vec<FunctionParameter> = Vec::new();
    let class_init_body: Vec<Stmt> = vec![hidden_marker_stmt()];
    proof {
        assert(class_init_params@.map_values(|p: FunctionParameter| p@) =~= Seq::empty());
        assert(stmts_view(class_init_body@) =~= seq![hidden_marker()]);
    }
    FunctionDefinition {
        signature: FunctionSignature {
            parameters: class_init_params,
            return_type: Box::new(class_type_annotation(closure_class_name(counter))),
            phase: Phase::Preflight,
        },
        is_static: true,
        body: FunctionBody::Statements(Scope::new(class_init_body)),
    }
}

/// The empty inflight initializer of a closure class.
fn class_inflight_initializer() -> (initializer: FunctionDefinition)
    ensures
        initializer@ == closure_class_inflight_initializer(),
{
    let parameters: Vec<FunctionParameter> = Vec::new();
    let statements: Vec<Stmt> = Vec::new();
    proof {
        assert(parameters@.map_values(|p: FunctionParameter| p@) =~= Seq::empty());
        assert(stmts_view(statements@) =~= Seq::empty());
    }
    FunctionDefinition {
        signature: FunctionSignature {
            parameters,
            return_type: Box::new(TypeAnnotation::Void),
            phase: Phase::Inflight,
        },
        is_static: false,
        body: FunctionBody::Statements(Scope::new(statements)),
    }
}

/// The declaration of the class for the closure numbered `counter`, with
/// `method` as its handler.
fn class_definition(counter: usize, method: FunctionDefinition, idx: usize) -> (stmt: Stmt)
    ensures
        stmt@ == closure_class(counter as nat, method@, idx as nat),
{
    let class_fields: Vec<ClassField> = Vec::new();
    let implements: Vec<UserDefinedType> = Vec::new();
    let ghost handler = method@;
    let methods: Vec<(Symbol, FunctionDefinition)> = vec![(Symbol::new(HANDLE_METHOD_NAME), method)];
    proof {
        assert(class_fields@.map_values(|f: ClassField| f@) =~= Seq::empty());
        assert(implements@.map_values(|t: UserDefinedType| t@) =~= Seq::empty());
        assert(methods_view(methods@) =~= seq![(HANDLE_METHOD_NAME@, handler)]);
    }
    Stmt {
        kind: StmtKind::Class(
            Class {
                name: Symbol { name: closure_class_name(counter) },
                phase: Phase::Preflight,
                initializer: class_initializer(counter),
                fields: class_fields,
                implements,
                parent: None,
                methods,
                inflight_initializer: class_inflight_initializer(),
            },
        ),
        idx,
    }
}

/// The binding `let __parent_this_<counter> = this`.
fn parent_this_definition(counter: usize, idx: usize) -> (stmt: Stmt)
    ensures
        stmt@ == capture_binding(counter as nat, idx as nat),
{
    Stmt {
        kind: StmtKind::Let {
            reassignable: false,
            var_name: Symbol { name: parent_this_name(counter) },
            initial_value: this_expr(),
            type_: None,
        },
        idx,
    }
}

/// The construction `new $Closure<counter>()`.
fn new_class_instance(counter: usize) -> (expr: Expr)
    ensures
        expr@ == closure_instance(counter as nat),
{
    let pos_args: Vec<Expr> = Vec::new();
    proof {
        assert(exprs_view(pos_args@) =~= Seq::empty());
    }
    let arg_list = ArgList { named_args: NamedArgs::new(), pos_args };
    assert(arg_list@ == ArgListView { pos_args: Seq::empty(), named_args: Seq::empty() });
    Expr::New {
        class: class_type_annotation(closure_class_name(counter)),
        arg_list,
        obj_id: None,
        obj_scope: None,
    }
}

impl ClosureTransformer {
    /// The model of this value.
    pub closed spec fn view(self) -> TransformerView {
        TransformerView {
            phase: self.phase,
            inside_scope_with_this: self.inside_scope_with_this,
            closure_counter: self.closure_counter as nat,
            class_statements: stmts_view(self.class_statements@),
            nearest_stmt_idx: self.nearest_stmt_idx as nat,
        }
    }

    /// A transformer at the start of a compilation unit: in preflight code,
    /// outside any instance method, with nothing converted and nothing
    /// waiting.
    pub fn new() -> (transformer: Self)
        ensures
            transformer@ == (TransformerView {
                phase: Phase::Preflight,
                inside_scope_with_this: false,
                closure_counter: 0,
                class_statements: Seq::empty(),
                nearest_stmt_idx: 0,
            }),
    {
        let class_statements: Vec<Stmt> = Vec::new();
        proof {
            assert(stmts_view(class_statements@) =~= Seq::empty());
        }
        ClosureTransformer {
            phase: Phase::Preflight,
            inside_scope_with_this: false,
            closure_counter: 0,
            class_statements,
            nearest_stmt_idx: 0,
        }
    }

    /// The number of closures converted so far, which is the number of the
    /// closure converted last.
    pub fn closure_counter(&self) -> (count: usize)
        ensures
            count == self@.closure_counter,
    {
        self.closure_counter
    }

    /// The counter and the index of a transformer are machine numbers.
    pub proof fn lemma_view_is_bounded(&self)
        ensures
            self@.closure_counter <= usize::MAX,
            self@.nearest_stmt_idx <= usize::MAX,
    {
    }

    /// Converts the statements of a scope in their order. The scope has a
    /// waiting list of its own: what waits when the scope begins is set aside
    /// and waits again, untouched, when the scope ends. After each statement,
    /// the declarations made for it are put out first, in the order in which
    /// they were made, then the converted statement; nothing waits when the
    /// next statement begins.
    pub fn fold_scope(&mut self, node: Scope) -> (folded: Scope)
        requires
            old(self)@.closure_counter + conversions_scope(old(self)@.phase, node@) <= usize::MAX,
        ensures
            final(self)@.ambient() == old(self)@.ambient(),
            final(self)@.class_statements == old(self)@.class_statements,
            final(self)@.synthesis() == converted_scope(
                old(self)@.ambient(),
                old(self)@.synthesis(),
                node@,
            ).synthesis,
            folded@ == converted_scope(old(self)@.ambient(), old(self)@.synthesis(), node@).node,
            final(self)@.closure_counter == old(self)@.closure_counter + conversions_scope(
                old(self)@.phase,
                node@,
            ),
        decreases node@,
    {
        let ghost scope_model = node@;
        let ghost models = stmts_view(node.statements@);
        let ghost ambient = self@.ambient();
        let ghost outside = self@.synthesis();
        let ghost start = entering_scope(outside);

        // What waits belongs to a statement of an enclosing scope: it is set
        // aside while this scope is converted.
        let mut waiting_outside: Vec<Stmt> = Vec::new();
        proof {
            assert(stmts_view(waiting_outside@) =~= Seq::empty());
        }
        std::mem::swap(&mut waiting_outside, &mut self.class_statements);

        let mut statements: Vec<Stmt> = Vec::new();
        proof {
            assert(stmts_view(statements@) =~= Seq::empty());
            assert(models.take(0) =~= Seq::empty());
        }
        let input = node.statements;
        for stmt in it: input
            invariant
                it.seq() == input@,
                models == stmts_view(input@),
                scope_model == node@,
                scope_model.statements == models,
                self@.ambient() == ambient,
                self@.synthesis() == converted_stmts(ambient, start, models.take(it.index() as int)).synthesis,
                stmts_view(statements@) == converted_stmts(
                    ambient,
                    start,
                    models.take(it.index() as int),
                ).node,
                start.closure_counter + conversions_stmts(ambient.phase, models) <= usize::MAX,
        {
            let ghost k = it.index() as int;
            proof {
                lemma_counter_stmts(ambient, start, models.take(k));
                lemma_conversions_stmts_split(ambient.phase, models, k + 1);
                assert(models.take(k + 1).drop_last() =~= models.take(k));
            }
            // What this statement gives rise to takes its index.
            let old_nearest_stmt_idx = self.nearest_stmt_idx;
            self.nearest_stmt_idx = stmt.idx;
            let new_stmt = self.fold_stmt(stmt);
            self.nearest_stmt_idx = old_nearest_stmt_idx;

            // First the declarations that wait, so that the statement finds
            // the classes it constructs, then the statement itself.
            statements.append(&mut self.class_statements);
            statements.push(new_stmt);

            // Nothing waits when the next statement begins.
            self.class_statements.clear();
            proof {
                assert(stmts_view(self.class_statements@) =~= Seq::empty());
            }
        }
        proof {
            assert(models.take(models.len() as int) =~= models);
            lemma_counter_scope(ambient, outside, scope_model);
        }
        // What was set aside waits again.
        self.class_statements = waiting_outside;
        Scope { statements }
    }

    /// Converts a scope as `fold_scope` does, if the counter can number every
    /// closure that is to be converted in it. If it cannot, nothing is done
    /// and the scope is handed back as it came.
    pub fn try_fold_scope(&mut self, node: Scope) -> (outcome: Result<Scope, Scope>)
        ensures
            match outcome {
                Ok(folded) => {
                    &&& old(self)@.closure_counter + conversions_scope(old(self)@.phase, node@)
                        <= usize::MAX
                    &&& final(self)@.ambient() == old(self)@.ambient()
                    &&& final(self)@.synthesis() == converted_scope(
                        old(self)@.ambient(),
                        old(self)@.synthesis(),
                        node@,
                    ).synthesis
                    &&& folded@ == converted_scope(old(self)@.ambient(), old(self)@.synthesis(), node@).node
                },
                Err(unchanged) => {
                    &&& old(self)@.closure_counter + conversions_scope(old(self)@.phase, node@)
                        > usize::MAX
                    &&& final(self)@ == old(self)@
                    &&& unchanged == node
                },
            },
    {
        match conversions_in_scope(self.phase, &node) {
            Some(count) => {
                if count <= usize::MAX - self.closure_counter {
                    Ok(self.fold_scope(node))
                } else {
                    Err(node)
                }
            },
            None => Err(node),
        }
    }

    /// Converts a statement, part by part; the statement keeps its index.
    pub fn fold_stmt(&mut self, node: Stmt) -> (folded: Stmt)
        requires
            old(self)@.closure_counter + conversions_stmt(old(self)@.phase, node@) <= usize::MAX,
        ensures
            final(self)@.ambient() == old(self)@.ambient(),
            final(self)@.synthesis() == converted_stmt(
                old(self)@.ambient(),
                old(self)@.synthesis(),
                node@,
            ).synthesis,
            folded@ == converted_stmt(old(self)@.ambient(), old(self)@.synthesis(), node@).node,
            final(self)@.closure_counter == old(self)@.closure_counter + conversions_stmt(
                old(self)@.phase,
                node@,
            ),
        decreases node@,
    {
        proof {
            lemma_counter_stmt(self@.ambient(), self@.synthesis(), node@);
        }
        let Stmt { kind, idx } = node;
        let kind = match kind {
            StmtKind::Let { reassignable, var_name, initial_value, type_ } => {
                let initial_value = self.fold_expr(initial_value);
                StmtKind::Let { reassignable, var_name, initial_value, type_ }
            },
            StmtKind::ForLoop { iterator, iterable, statements } => {
                let iterable = self.fold_expr(iterable);
                let statements = self.fold_scope(statements);
                StmtKind::ForLoop { iterator, iterable, statements }
            },
            StmtKind::If { condition, statements, else_statements } => {
                let condition = self.fold_expr(condition);
                let statements = self.fold_scope(statements);
                let else_statements = match else_statements {
                    Some(scope) => Some(self.fold_scope(scope)),
                    None => None,
                };
                StmtKind::If { condition, statements, else_statements }
            },
            StmtKind::Expression(expr) => StmtKind::Expression(self.fold_expr(expr)),
            StmtKind::Assignment { variable, value } => {
                let variable = self.fold_reference(variable);
                let value = self.fold_expr(value);
                StmtKind::Assignment { variable, value }
            },
            StmtKind::Return(value) => StmtKind::Return(
                match value {
                    Some(expr) => Some(self.fold_expr(expr)),
                    None => None,
                },
            ),
            StmtKind::Scope(scope) => StmtKind::Scope(self.fold_scope(scope)),
            StmtKind::Class(class) => {
                StmtKind::Class(self.fold_class(class))
            },
            StmtKind::Break => StmtKind::Break,
            StmtKind::Continue => StmtKind::Continue,
        };
        Stmt { kind, idx }
    }

    /// Converts the functions of a class declaration: the initializer, the
    /// methods in their order, the inflight initializer.
    pub fn fold_class(&mut self, node: Class) -> (folded: Class)
        requires
            old(self)@.closure_counter + conversions_class(node@) <= usize::MAX,
        ensures
            final(self)@.ambient() == old(self)@.ambient(),
            final(self)@.synthesis() == converted_class(
                old(self)@.ambient(),
                old(self)@.synthesis(),
                node@,
            ).synthesis,
            folded@ == converted_class(old(self)@.ambient(), old(self)@.synthesis(), node@).node,
            final(self)@.closure_counter == old(self)@.closure_counter + conversions_class(node@),
            final(self)@.class_statements == old(self)@.class_statements,
        decreases node@,
    {
        let ghost model = node@;
        proof {
            lemma_counter_class(self@.ambient(), self@.synthesis(), model);
            lemma_waiting_class(self@.ambient(), self@.synthesis(), model);
        }
        let Class { name, phase, initializer, fields, implements, parent, methods, inflight_initializer } = node;
        let initializer = self.fold_function_definition(initializer);
        let methods = self.fold_methods(methods);
        let inflight_initializer = self.fold_function_definition(inflight_initializer);
        Class { name, phase, initializer, fields, implements, parent, methods, inflight_initializer }
    }

    /// Converts the methods of a class, from the first to the last.
    pub fn fold_methods(
        &mut self,
        nodes: Vec<(Symbol, FunctionDefinition)>,
    ) -> (folded: Vec<(Symbol, FunctionDefinition)>)
        requires
            old(self)@.closure_counter + conversions_methods(methods_view(nodes@)) <= usize::MAX,
        ensures
            final(self)@.ambient() == old(self)@.ambient(),
            final(self)@.synthesis() == converted_methods(
                old(self)@.ambient(),
                old(self)@.synthesis(),
                methods_view(nodes@),
            ).synthesis,
            methods_view(folded@) == converted_methods(
                old(self)@.ambient(),
                old(self)@.synthesis(),
                methods_view(nodes@),
            ).node,
            final(self)@.closure_counter == old(self)@.closure_counter + conversions_methods(
                methods_view(nodes@),
            ),
        decreases methods_view(nodes@),
    {
        let ghost models = methods_view(nodes@);
        let ghost ambient = self@.ambient();
        let ghost start = self@.synthesis();
        let mut folded: Vec<(Symbol, FunctionDefinition)> = Vec::new();
        for node in it: nodes
            invariant
                it.seq() == nodes@,
                models == methods_view(nodes@),
                self@.ambient() == ambient,
                self@.synthesis() == converted_methods(ambient, start, models.take(it.index() as int)).synthesis,
                methods_view(folded@) == converted_methods(
                    ambient,
                    start,
                    models.take(it.index() as int),
                ).node,
                start.closure_counter + conversions_methods(models) <= usize::MAX,
        {
            let ghost k = it.index() as int;
            proof {
                lemma_counter_methods(ambient, start, models.take(k));
                lemma_conversions_methods_split(models, k + 1);
                assert(models.take(k + 1).drop_last() =~= models.take(k));
            }
            let (name, definition) = node;
            let converted = self.fold_function_definition(definition);
            folded.push((name, converted));
        }
        proof {
            assert(models.take(models.len() as int) =~= models);
            lemma_counter_methods(ambient, start, models);
        }
        folded
    }

    /// Converts the body of a function in the function's own surroundings:
    /// its phase, and `this` where it is an instance method. The
    /// surroundings of the caller are back in place afterwards, and what
    /// waits is what waited before: nothing is put into the body from
    /// outside, and nothing made for the body is left outside.
    pub fn fold_function_definition(
        &mut self,
        node: FunctionDefinition,
    ) -> (folded: FunctionDefinition)
        requires
            old(self)@.closure_counter + conversions_function_definition(node@) <= usize::MAX,
        ensures
            final(self)@.ambient() == old(self)@.ambient(),
            final(self)@.synthesis() == converted_function_definition(
                old(self)@.ambient(),
                old(self)@.synthesis(),
                node@,
            ).synthesis,
            folded@ == converted_function_definition(
                old(self)@.ambient(),
                old(self)@.synthesis(),
                node@,
            ).node,
            final(self)@.closure_counter == old(self)@.closure_counter
                + conversions_function_definition(node@),
            final(self)@.class_statements == old(self)@.class_statements,
        decreases node@,
    {
        proof {
            lemma_counter_function_definition(self@.ambient(), self@.synthesis(), node@);
            lemma_waiting_function_definition(self@.ambient(), self@.synthesis(), node@);
        }
        let prev_phase = self.phase;
        self.phase = node.signature.phase;
        let prev_inside_scope_with_this = self.inside_scope_with_this;
        if !node.is_static {
            self.inside_scope_with_this = true;
        }
        let FunctionDefinition { body, signature, is_static } = node;
        let body = match body {
            FunctionBody::Statements(scope) => FunctionBody::Statements(self.fold_scope(scope)),
            FunctionBody::External(path) => FunctionBody::External(path),
        };
        self.inside_scope_with_this = prev_inside_scope_with_this;
        self.phase = prev_phase;
        FunctionDefinition { body, signature, is_static }
    }

    /// Converts the object of a member access; other references stay.
    pub fn fold_reference(&mut self, node: Reference) -> (folded: Reference)
        requires
            old(self)@.closure_counter + conversions_reference(old(self)@.phase, node@) <= usize::MAX,
        ensures
            final(self)@.ambient() == old(self)@.ambient(),
            final(self)@.synthesis() == converted_reference(
                old(self)@.ambient(),
                old(self)@.synthesis(),
                node@,
            ).synthesis,
            folded@ == converted_reference(old(self)@.ambient(), old(self)@.synthesis(), node@).node,
            final(self)@.closure_counter == old(self)@.closure_counter + conversions_reference(
                old(self)@.phase,
                node@,
            ),
        decreases node@,
    {
        proof {
            lemma_counter_reference(self@.ambient(), self@.synthesis(), node@);
        }
        match node {
            Reference::InstanceMember { object, property, optional_accessor } => {
                let object = self.fold_expr(*object);
                Reference::InstanceMember { object: Box::new(object), property, optional_accessor }
            },
            Reference::Identifier(symbol) => Reference::Identifier(symbol),
            Reference::TypeMember { type_, property } => Reference::TypeMember { type_, property },
        }
    }

    /// Converts the arguments of a call or a construction: the positional
    /// ones first, then the named ones.
    pub fn fold_args(&mut self, node: ArgList) -> (folded: ArgList)
        requires
            old(self)@.closure_counter + conversions_args(old(self)@.phase, node@) <= usize::MAX,
        ensures
            final(self)@.ambient() == old(self)@.ambient(),
            final(self)@.synthesis() == converted_args(
                old(self)@.ambient(),
                old(self)@.synthesis(),
                node@,
            ).synthesis,
            folded@ == converted_args(old(self)@.ambient(), old(self)@.synthesis(), node@).node,
            final(self)@.closure_counter == old(self)@.closure_counter + conversions_args(
                old(self)@.phase,
                node@,
            ),
        decreases node@,
    {
        proof {
            lemma_counter_args(self@.ambient(), self@.synthesis(), node@);
        }
        let ArgList { pos_args, named_args } = node;
        let pos_args = self.fold_exprs(pos_args);
        let named_args = self.fold_named_args(named_args);
        ArgList { pos_args, named_args }
    }

    /// Converts a sequence of expressions, from the first to the last.
    pub fn fold_exprs(&mut self, nodes: Vec<Expr>) -> (folded: Vec<Expr>)
        requires
            old(self)@.closure_counter + conversions_exprs(old(self)@.phase, exprs_view(nodes@))
                <= usize::MAX,
        ensures
            final(self)@.ambient() == old(self)@.ambient(),
            final(self)@.synthesis() == converted_exprs(
                old(self)@.ambient(),
                old(self)@.synthesis(),
                exprs_view(nodes@),
            ).synthesis,
            exprs_view(folded@) == converted_exprs(
                old(self)@.ambient(),
                old(self)@.synthesis(),
                exprs_view(nodes@),
            ).node,
            final(self)@.closure_counter == old(self)@.closure_counter + conversions_exprs(
                old(self)@.phase,
                exprs_view(nodes@),
            ),
        decreases exprs_view(nodes@),
    {
        let ghost models = exprs_view(nodes@);
        let ghost ambient = self@.ambient();
        let ghost start = self@.synthesis();
        let mut folded: Vec<Expr> = Vec::new();
        for node in it: nodes
            invariant
                it.seq() == nodes@,
                models == exprs_view(nodes@),
                self@.ambient() == ambient,
                self@.synthesis() == converted_exprs(ambient, start, models.take(it.index() as int)).synthesis,
                exprs_view(folded@) == converted_exprs(ambient, start, models.take(it.index() as int)).node,
                start.closure_counter + conversions_exprs(ambient.phase, models) <= usize::MAX,
        {
            let ghost k = it.index() as int;
            proof {
                lemma_counter_exprs(ambient, start, models.take(k));
                lemma_conversions_exprs_split(ambient.phase, models, k + 1);
                assert(models.take(k + 1).drop_last() =~= models.take(k));
            }
            let converted = self.fold_expr(node);
            folded.push(converted);
        }
        proof {
            assert(models.take(models.len() as int) =~= models);
            lemma_counter_exprs(ambient, start, models);
        }
        folded
    }

    /// Converts the named arguments, from the first to the last; the names
    /// and their order stay.
    pub fn fold_named_args(&mut self, node: NamedArgs) -> (folded: NamedArgs)
        requires
            old(self)@.closure_counter + conversions_named_args(
                old(self)@.phase,
                named_args_entries(node),
            ) <= usize::MAX,
        ensures
            final(self)@.ambient() == old(self)@.ambient(),
            final(self)@.synthesis() == converted_named_args(
                old(self)@.ambient(),
                old(self)@.synthesis(),
                named_args_entries(node),
            ).synthesis,
            named_args_entries(folded) == converted_named_args(
                old(self)@.ambient(),
                old(self)@.synthesis(),
                named_args_entries(node),
            ).node,
            final(self)@.closure_counter == old(self)@.closure_counter + conversions_named_args(
                old(self)@.phase,
                named_args_entries(node),
            ),
        decreases named_args_entries(node),
    {
        let ghost models = named_args_entries(node);
        let ghost ambient = self@.ambient();
        let ghost start = self@.synthesis();
        let entries = node.into_entries();
        let mut folded = NamedArgs::new();
        for entry in it: entries
            invariant
                it.seq() == entries@,
                models == entries_view(entries@),
                models == named_args_entries(node),
                distinct_names(models),
                self@.ambient() == ambient,
                self@.synthesis() == converted_named_args(
                    ambient,
                    start,
                    models.take(it.index() as int),
                ).synthesis,
                named_args_entries(folded) == converted_named_args(
                    ambient,
                    start,
                    models.take(it.index() as int),
                ).node,
                named_args_entries(folded).len() == it.index(),
                forall|j: int|
                    0 <= j < it.index() ==> (#[trigger] named_args_entries(folded)[j]).0 == models[j].0,
                start.closure_counter + conversions_named_args(ambient.phase, models) <= usize::MAX,
        {
            let ghost k = it.index() as int;
            let ghost before = named_args_entries(folded);
            proof {
                lemma_counter_named_args(ambient, start, models.take(k));
                lemma_conversions_named_args_split(ambient.phase, models, k + 1);
                assert(models.take(k + 1).drop_last() =~= models.take(k));
            }
            let (name, value) = entry;
            let converted = self.fold_expr(value);
            proof {
                assert(!has_name(before, name@)) by {
                    if has_name(before, name@) {
                        let j = choose|j: int| 0 <= j < before.len() && (#[trigger] before[j]).0 == name@;
                        assert(models[j].0 != models[k].0);
                    }
                }
            }
            folded.insert(name, converted);
        }
        proof {
            assert(models.take(models.len() as int) =~= models);
            lemma_counter_named_args(ambient, start, models);
        }
        folded
    }

    /// Converts one inflight closure that stands in preflight code: the
    /// counter numbers it, its class (after the binding that captures
    /// `this`, inside an instance method) joins the statements that wait,
    /// and a construction of the class is returned in its place.
    fn convert_closure(&mut self, func_def: FunctionDefinition) -> (folded: Expr)
        requires
            old(self)@.closure_counter + 1 <= usize::MAX,
        ensures
            final(self)@.ambient() == old(self)@.ambient(),
            final(self)@.synthesis() == converted_closure(
                old(self)@.ambient(),
                old(self)@.synthesis(),
                func_def@,
            ).synthesis,
            folded@ == converted_closure(old(self)@.ambient(), old(self)@.synthesis(), func_def@).node,
    {
        let ghost ambient = self@.ambient();
        let ghost waiting = self@.class_statements;
        let ghost closure = func_def@;
        self.closure_counter += 1;

        let mut new_func_def = if self.inside_scope_with_this {
            // Inside an instance method the closure may speak of `this`. In the
            // new class `this` is another instance, so the body refers to a
            // binding that holds the enclosing one.
            let parent_this = parent_this_name(self.closure_counter);
            let mut this_transform = RenameThisTransformer::new(THIS_NAME, parent_this.as_str());
            this_transform.fold_function_definition(func_def)
        } else {
            func_def
        };

        // A closure is a static function; as a method of the new class it is
        // an instance method.
        new_func_def.is_static = false;

        // The binding that the renamed body refers to comes before the class.
        if self.inside_scope_with_this {
            let parent_this_def = parent_this_definition(self.closure_counter, self.nearest_stmt_idx);
            self.class_statements.push(parent_this_def);
        }
        let class_def = class_definition(self.closure_counter, new_func_def, self.nearest_stmt_idx);
        proof {
            assert(stmts_view(self.class_statements@.push(class_def)) =~= stmts_view(
                self.class_statements@,
            ).push(class_def@));
            assert(stmts_view(self.class_statements@).push(class_def@) =~= waiting + closure_statements(
                ambient,
                self.closure_counter as nat,
                closure,
            ));
        }
        self.class_statements.push(class_def);

        new_class_instance(self.closure_counter)
    }

    /// Converts an expression. In inflight code nothing is done. In
    /// preflight code an inflight closure becomes a construction of its new
    /// class; any other expression is converted inside.
    pub fn fold_expr(&mut self, expr: Expr) -> (folded: Expr)
        requires
            old(self)@.closure_counter + conversions_expr(old(self)@.phase, expr@) <= usize::MAX,
        ensures
            final(self)@.ambient() == old(self)@.ambient(),
            final(self)@.synthesis() == converted_expr(
                old(self)@.ambient(),
                old(self)@.synthesis(),
                expr@,
            ).synthesis,
            folded@ == converted_expr(old(self)@.ambient(), old(self)@.synthesis(), expr@).node,
            final(self)@.closure_counter == old(self)@.closure_counter + conversions_expr(
                old(self)@.phase,
                expr@,
            ),
        decreases expr@,
    {
        proof {
            lemma_counter_expr(self@.ambient(), self@.synthesis(), expr@);
        }
        // A closure in inflight code is made inflight: there is nothing to
        // declare for it in preflight.
        if self.phase == Phase::Inflight {
            return expr;
        }
        match expr {
            Expr::FunctionClosure(func_def) => {
                proof {
                    assert(func_def@.signature.phase == func_def.signature.phase);
                }
                if func_def.signature.phase == Phase::Inflight {
                    self.convert_closure(func_def)
                } else {
                    // A preflight closure stays a closure, but its body may
                    // hold inflight closures.
                    Expr::FunctionClosure(self.fold_function_definition(func_def))
                }
            },
            Expr::New { class, obj_id, obj_scope, arg_list } => {
                proof {
                    let scope = expr@->New_obj_scope;
                    lemma_counter_optional_expr(self@.ambient(), self@.synthesis(), scope);
                }
                let obj_scope = match obj_scope {
                    Some(scope) => Some(Box::new(self.fold_expr(*scope))),
                    None => None,
                };
                let arg_list = self.fold_args(arg_list);
                Expr::New { class, obj_id, obj_scope, arg_list }
            },
            Expr::Literal(literal) => Expr::Literal(literal),
            Expr::Reference(reference) => Expr::Reference(self.fold_reference(reference)),
            Expr::Call { function, arg_list } => {
                let function = self.fold_expr(*function);
                let arg_list = self.fold_args(arg_list);
                Expr::Call { function: Box::new(function), arg_list }
            },
            Expr::Unary { op, exp } => {
                let exp = self.fold_expr(*exp);
                Expr::Unary { op, exp: Box::new(exp) }
            },
            Expr::Binary { op, left, right } => {
                let left = self.fold_expr(*left);
                let right = self.fold_expr(*right);
                Expr::Binary { op, left: Box::new(left), right: Box::new(right) }
            },
            Expr::ArrayLiteral { type_, items } => {
                let items = self.fold_exprs(items);
                Expr::ArrayLiteral { type_, items }
            },
        }
    }
}

} // verus!
