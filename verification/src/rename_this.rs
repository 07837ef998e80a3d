//! Renaming of the references to `this` inside the body of a closure, so that
//! the body can reach the enclosing instance from inside another class.

use vstd::prelude::*;
use crate::ast::{
    entries_view, exprs_view, methods_view, stmts_view, ArgList, Class, Expr, FunctionBody,
    FunctionDefinition, Reference, Scope, Stmt, StmtKind, Symbol,
};
use crate::named_args::{distinct_names, has_name, named_args_entries, NamedArgs};
use crate::names::{PARENT_THIS_NAME, THIS_NAME};
use crate::view::{
    ArgListView, ExprView, FunctionBodyView, FunctionDefinitionView, ReferenceView, ScopeView,
    StmtKindView, StmtView,
};

verus! {

/// A reference after renaming: a bare identifier `from` becomes `to`; a member
/// access is renamed inside its object; a member of a type stays as it is.
pub open spec fn renamed_reference(
    from: Seq<char>,
    to: Seq<char>,
    reference: ReferenceView,
) -> ReferenceView
    decreases reference,
{
    match reference {
        ReferenceView::Identifier(name) => if name == from {
            ReferenceView::Identifier(to)
        } else {
            reference
        },
        ReferenceView::InstanceMember { object, property, optional_accessor } => ReferenceView::InstanceMember {
            object: Box::new(renamed_expr(from, to, *object)),
            property,
            optional_accessor,
        },
        ReferenceView::TypeMember { .. } => reference,
    }
}

/// An expression after renaming, which reaches every reference in it but
/// those inside a class declaration.
pub open spec fn renamed_expr(from: Seq<char>, to: Seq<char>, expr: ExprView) -> ExprView
    decreases expr,
{
    match expr {
        ExprView::New { class, obj_id, obj_scope, arg_list } => ExprView::New {
            class,
            obj_id,
            obj_scope: match obj_scope {
                Some(scope) => Some(Box::new(renamed_expr(from, to, *scope))),
                None => None,
            },
            arg_list: renamed_args(from, to, arg_list),
        },
        ExprView::Literal(_) => expr,
        ExprView::Reference(reference) => ExprView::Reference(renamed_reference(from, to, reference)),
        ExprView::Call { function, arg_list } => ExprView::Call {
            function: Box::new(renamed_expr(from, to, *function)),
            arg_list: renamed_args(from, to, arg_list),
        },
        ExprView::Unary { op, exp } => ExprView::Unary { op, exp: Box::new(renamed_expr(from, to, *exp)) },
        ExprView::Binary { op, left, right } => ExprView::Binary {
            op,
            left: Box::new(renamed_expr(from, to, *left)),
            right: Box::new(renamed_expr(from, to, *right)),
        },
        ExprView::ArrayLiteral { type_, items } => ExprView::ArrayLiteral {
            type_,
            items: renamed_exprs(from, to, items),
        },
        ExprView::FunctionClosure(definition) => ExprView::FunctionClosure(
            renamed_function_definition(from, to, definition),
        ),
    }
}

/// A sequence of expressions after renaming, each in its place.
pub open spec fn renamed_exprs(
    from: Seq<char>,
    to: Seq<char>,
    exprs: Seq<ExprView>,
) -> Seq<ExprView>
    decreases exprs,
{
    Seq::new(
        exprs.len(),
        |i: int|
            if 0 <= i < exprs.len() {
                renamed_expr(from, to, exprs[i])
            } else {
                arbitrary()
            },
    )
}

/// Named arguments after renaming: the names stay, each expression is renamed.
pub open spec fn renamed_named_args(
    from: Seq<char>,
    to: Seq<char>,
    entries: Seq<(Seq<char>, ExprView)>,
) -> Seq<(Seq<char>, ExprView)>
    decreases entries,
{
    Seq::new(
        entries.len(),
        |i: int|
            if 0 <= i < entries.len() {
                (entries[i].0, renamed_expr(from, to, entries[i].1))
            } else {
                arbitrary()
            },
    )
}

/// An argument list after renaming.
pub open spec fn renamed_args(from: Seq<char>, to: Seq<char>, args: ArgListView) -> ArgListView
    decreases args,
{
    ArgListView {
        pos_args: renamed_exprs(from, to, args.pos_args),
        named_args: renamed_named_args(from, to, args.named_args),
    }
}

/// A function definition after renaming: only its body changes.
pub open spec fn renamed_function_definition(
    from: Seq<char>,
    to: Seq<char>,
    definition: FunctionDefinitionView,
) -> FunctionDefinitionView
    decreases definition,
{
    FunctionDefinitionView {
        body: match definition.body {
            FunctionBodyView::Statements(scope) => FunctionBodyView::Statements(renamed_scope(from, to, scope)),
            FunctionBodyView::External(_) => definition.body,
        },
        signature: definition.signature,
        is_static: definition.is_static,
    }
}

/// A scope after renaming: the same statements in the same order, each renamed.
pub open spec fn renamed_scope(from: Seq<char>, to: Seq<char>, scope: ScopeView) -> ScopeView
    decreases scope,
{
    ScopeView { statements: renamed_stmts(from, to, scope.statements) }
}

/// A sequence of statements after renaming, each in its place.
pub open spec fn renamed_stmts(
    from: Seq<char>,
    to: Seq<char>,
    stmts: Seq<StmtView>,
) -> Seq<StmtView>
    decreases stmts,
{
    Seq::new(
        stmts.len(),
        |i: int|
            if 0 <= i < stmts.len() {
                renamed_stmt(from, to, stmts[i])
            } else {
                arbitrary()
            },
    )
}

/// A statement after renaming. A class declaration is left as it is: inside
/// it, `this` is another instance.
pub open spec fn renamed_stmt(from: Seq<char>, to: Seq<char>, stmt: StmtView) -> StmtView
    decreases stmt,
{
    StmtView {
        kind: match stmt.kind {
            StmtKindView::Let { reassignable, var_name, initial_value, type_ } => StmtKindView::Let {
                reassignable,
                var_name,
                initial_value: renamed_expr(from, to, initial_value),
                type_,
            },
            StmtKindView::ForLoop { iterator, iterable, statements } => StmtKindView::ForLoop {
                iterator,
                iterable: renamed_expr(from, to, iterable),
                statements: renamed_scope(from, to, statements),
            },
            StmtKindView::If { condition, statements, else_statements } => StmtKindView::If {
                condition: renamed_expr(from, to, condition),
                statements: renamed_scope(from, to, statements),
                else_statements: match else_statements {
                    Some(scope) => Some(renamed_scope(from, to, scope)),
                    None => None,
                },
            },
            StmtKindView::Expression(expr) => StmtKindView::Expression(renamed_expr(from, to, expr)),
            StmtKindView::Assignment { variable, value } => StmtKindView::Assignment {
                variable: renamed_reference(from, to, variable),
                value: renamed_expr(from, to, value),
            },
            StmtKindView::Return(value) => StmtKindView::Return(
                match value {
                    Some(expr) => Some(renamed_expr(from, to, expr)),
                    None => None,
                },
            ),
            StmtKindView::Scope(scope) => StmtKindView::Scope(renamed_scope(from, to, scope)),
            StmtKindView::Class(_) => stmt.kind,
            StmtKindView::Break => stmt.kind,
            StmtKindView::Continue => stmt.kind,
        },
        idx: stmt.idx,
    }
}

/// What a renamer is: the name it looks for, the name it writes, and whether
/// it stands inside a class declaration, where it changes nothing.
pub struct RenamerView {
    pub from: Seq<char>,
    pub to: Seq<char>,
    pub inside_class: bool,
}

impl RenamerView {
    /// What the renamer makes of a reference: the same inside a class
    /// declaration, the renamed one elsewhere.
    pub open spec fn reference(self, reference: ReferenceView) -> ReferenceView {
        if self.inside_class {
            reference
        } else {
            renamed_reference(self.from, self.to, reference)
        }
    }

    /// What the renamer makes of an expression: the same inside a class
    /// declaration, the renamed one elsewhere.
    pub open spec fn expr(self, expr: ExprView) -> ExprView {
        if self.inside_class {
            expr
        } else {
            renamed_expr(self.from, self.to, expr)
        }
    }

    /// What the renamer makes of a sequence of expressions: the same inside a
    /// class declaration, the renamed one elsewhere.
    pub open spec fn exprs(self, exprs: Seq<ExprView>) -> Seq<ExprView> {
        if self.inside_class {
            exprs
        } else {
            renamed_exprs(self.from, self.to, exprs)
        }
    }

    /// What the renamer makes of named arguments: the same inside a class
    /// declaration, the renamed one elsewhere.
    pub open spec fn named_args(
        self,
        entries: Seq<(Seq<char>, ExprView)>,
    ) -> Seq<(Seq<char>, ExprView)> {
        if self.inside_class {
            entries
        } else {
            renamed_named_args(self.from, self.to, entries)
        }
    }

    /// What the renamer makes of an argument list: the same inside a class
    /// declaration, the renamed one elsewhere.
    pub open spec fn args(self, args: ArgListView) -> ArgListView {
        if self.inside_class {
            args
        } else {
            renamed_args(self.from, self.to, args)
        }
    }

    /// What the renamer makes of a function definition: the same inside a class
    /// declaration, the renamed one elsewhere.
    pub open spec fn function_definition(
        self,
        definition: FunctionDefinitionView,
    ) -> FunctionDefinitionView {
        if self.inside_class {
            definition
        } else {
            renamed_function_definition(self.from, self.to, definition)
        }
    }

    /// What the renamer makes of a scope: the same inside a class declaration,
    /// the renamed one elsewhere.
    pub open spec fn scope(self, scope: ScopeView) -> ScopeView {
        if self.inside_class {
            scope
        } else {
            renamed_scope(self.from, self.to, scope)
        }
    }

    /// What the renamer makes of a statement: the same inside a class
    /// declaration, the renamed one elsewhere.
    pub open spec fn stmt(self, stmt: StmtView) -> StmtView {
        if self.inside_class {
            stmt
        } else {
            renamed_stmt(self.from, self.to, stmt)
        }
    }
}

/// Rewrites the bare references to one identifier inside a closure's body to
/// another name, and leaves alone those inside class declarations, which
/// speak of another instance.
pub struct RenameThisTransformer {
    from: String,
    to: String,
    inside_class: bool,
}

impl Default for RenameThisTransformer {
    /// Renames `this` to the stem of the capture bindings.
    fn default() -> (renamer: Self)
        ensures
            renamer@ == (RenamerView { from: THIS_NAME@, to: PARENT_THIS_NAME@, inside_class: false }),
    {
        RenameThisTransformer {
            from: THIS_NAME.to_owned(),
            to: PARENT_THIS_NAME.to_owned(),
            inside_class: false,
        }
    }
}

impl RenameThisTransformer {
    /// The model of this value.
    pub closed spec fn view(self) -> RenamerView {
        RenamerView { from: self.from@, to: self.to@, inside_class: self.inside_class }
    }

    /// A renamer from `from` to `to`, outside any class declaration.
    pub fn new(from: &str, to: &str) -> (renamer: Self)
        ensures
            renamer@ == (RenamerView { from: from@, to: to@, inside_class: false }),
    {
        RenameThisTransformer { from: from.to_owned(), to: to.to_owned(), inside_class: false }
    }

    /// Renames inside a reference. A bare identifier equal to the name looked
    /// for is replaced; a member access is followed into its object.
    pub fn fold_reference(&mut self, node: Reference) -> (folded: Reference)
        ensures
            final(self)@ == old(self)@,
            folded@ == old(self)@.reference(node@),
        decreases node@,
    {
        match node {
            Reference::Identifier(ident) => {
                if !self.inside_class && ident.name == self.from {
                    Reference::Identifier(Symbol { name: self.to.clone() })
                } else {
                    Reference::Identifier(ident)
                }
            },
            Reference::InstanceMember { object, property, optional_accessor } => {
                let object = self.fold_expr(*object);
                Reference::InstanceMember { object: Box::new(object), property, optional_accessor }
            },
            Reference::TypeMember { type_, property } => Reference::TypeMember { type_, property },
        }
    }

    /// Renames inside an expression.
    pub fn fold_expr(&mut self, node: Expr) -> (folded: Expr)
        ensures
            final(self)@ == old(self)@,
            folded@ == old(self)@.expr(node@),
        decreases node@,
    {
        match node {
            Expr::New { class, obj_id, obj_scope, arg_list } => {
                let obj_scope = match obj_scope {
                    Some(scope) => Some(Box::new(self.fold_expr(*scope))),
                    None => None,
                };
                let arg_list = self.fold_args(arg_list);
                Expr::New { class, obj_id, obj_scope, arg_list }
            },
            Expr::Literal(literal) => Expr::Literal(literal),
            Expr::Reference(reference) => Expr::Reference(self.fold_reference(reference)),
            Expr::Call { function, arg_list } => {
                let function = self.fold_expr(*function);
                let arg_list = self.fold_args(arg_list);
                Expr::Call { function: Box::new(function), arg_list }
            },
            Expr::Unary { op, exp } => {
                let exp = self.fold_expr(*exp);
                Expr::Unary { op, exp: Box::new(exp) }
            },
            Expr::Binary { op, left, right } => {
                let left = self.fold_expr(*left);
                let right = self.fold_expr(*right);
                Expr::Binary { op, left: Box::new(left), right: Box::new(right) }
            },
            Expr::ArrayLiteral { type_, items } => {
                let items = self.fold_exprs(items);
                Expr::ArrayLiteral { type_, items }
            },
            Expr::FunctionClosure(definition) => Expr::FunctionClosure(
                self.fold_function_definition(definition),
            ),
        }
    }

    /// Renames inside each expression of a sequence.
    pub fn fold_exprs(&mut self, nodes: Vec<Expr>) -> (folded: Vec<Expr>)
        ensures
            final(self)@ == old(self)@,
            exprs_view(folded@) == old(self)@.exprs(exprs_view(nodes@)),
        decreases exprs_view(nodes@),
    {
        let ghost models = exprs_view(nodes@);
        let ghost renamer = self@;
        let mut folded: Vec<Expr> = Vec::new();
        for node in it: nodes
            invariant
                it.seq() == nodes@,
                models == exprs_view(nodes@),
                self@ == renamer,
                folded@.len() == it.index(),
                forall|j: int| 0 <= j < folded@.len() ==> (#[trigger] folded@[j])@ == renamer.expr(models[j]),
        {
            proof {
                assert(models[it.index() as int] == node@);
            }
            let renamed = self.fold_expr(node);
            folded.push(renamed);
        }
        folded
    }

    /// Renames inside each named argument; the names and their order stay.
    pub fn fold_named_args(&mut self, node: NamedArgs) -> (folded: NamedArgs)
        ensures
            final(self)@ == old(self)@,
            named_args_entries(folded) == old(self)@.named_args(named_args_entries(node)),
        decreases named_args_entries(node),
    {
        let ghost models = named_args_entries(node);
        let ghost renamer = self@;
        let entries = node.into_entries();
        let mut folded = NamedArgs::new();
        for entry in it: entries
            invariant
                it.seq() == entries@,
                models == entries_view(entries@),
                models == named_args_entries(node),
                distinct_names(models),
                self@ == renamer,
                named_args_entries(folded).len() == it.index(),
                forall|j: int|
                    0 <= j < it.index() ==> (#[trigger] named_args_entries(folded)[j]) == (
                        models[j].0,
                        renamer.expr(models[j].1),
                    ),
        {
            let ghost k = it.index() as int;
            let ghost before = named_args_entries(folded);
            proof {
                assert(decreases_to!(models[k] => models[k].1));
            }
            let (name, value) = entry;
            let renamed = self.fold_expr(value);
            proof {
                assert(!has_name(before, name@)) by {
                    if has_name(before, name@) {
                        let j = choose|j: int| 0 <= j < before.len() && (#[trigger] before[j]).0 == name@;
                        assert(models[j].0 != models[k].0);
                    }
                }
            }
            folded.insert(name, renamed);
        }
        folded
    }

    /// Renames inside the arguments of a call or a construction.
    pub fn fold_args(&mut self, node: ArgList) -> (folded: ArgList)
        ensures
            final(self)@ == old(self)@,
            folded@ == old(self)@.args(node@),
        decreases node@,
    {
        proof {
            assert(decreases_to!(node@ => node@.pos_args));
            assert(decreases_to!(node@ => node@.named_args));
        }
        let ArgList { pos_args, named_args } = node;
        let pos_args = self.fold_exprs(pos_args);
        let named_args = self.fold_named_args(named_args);
        ArgList { pos_args, named_args }
    }

    /// Renames inside the body of a function; a body that lives elsewhere
    /// stays as it is.
    pub fn fold_function_definition(
        &mut self,
        node: FunctionDefinition,
    ) -> (folded: FunctionDefinition)
        ensures
            final(self)@ == old(self)@,
            folded@ == old(self)@.function_definition(node@),
        decreases node@,
    {
        let FunctionDefinition { body, signature, is_static } = node;
        let body = match body {
            FunctionBody::Statements(scope) => FunctionBody::Statements(self.fold_scope(scope)),
            FunctionBody::External(path) => FunctionBody::External(path),
        };
        FunctionDefinition { body, signature, is_static }
    }

    /// Renames inside each statement of a scope; order and indices stay.
    pub fn fold_scope(&mut self, node: Scope) -> (folded: Scope)
        ensures
            final(self)@ == old(self)@,
            folded@ == old(self)@.scope(node@),
        decreases node@,
    {
        let ghost models = stmts_view(node.statements@);
        let ghost renamer = self@;
        let ghost scope_model = node@;
        let statements = node.statements;
        let mut folded: Vec<Stmt> = Vec::new();
        for stmt in it: statements
            invariant
                it.seq() == statements@,
                models == stmts_view(statements@),
                scope_model.statements == models,
                scope_model == node@,
                self@ == renamer,
                folded@.len() == it.index(),
                forall|j: int| 0 <= j < folded@.len() ==> (#[trigger] folded@[j])@ == renamer.stmt(models[j]),
        {
            proof {
                assert(models[it.index() as int] == stmt@);
            }
            let renamed = self.fold_stmt(stmt);
            folded.push(renamed);
        }
        let folded = Scope { statements: folded };
        proof {
            assert(folded@.statements =~= renamer.scope(scope_model).statements);
        }
        folded
    }

    /// Renames inside a statement. Inside a class declaration nothing is
    /// renamed.
    pub fn fold_stmt(&mut self, node: Stmt) -> (folded: Stmt)
        ensures
            final(self)@ == old(self)@,
            folded@ == old(self)@.stmt(node@),
        decreases node@,
    {
        let Stmt { kind, idx } = node;
        let kind = match kind {
            StmtKind::Let { reassignable, var_name, initial_value, type_ } => {
                let initial_value = self.fold_expr(initial_value);
                StmtKind::Let { reassignable, var_name, initial_value, type_ }
            },
            StmtKind::ForLoop { iterator, iterable, statements } => {
                let iterable = self.fold_expr(iterable);
                let statements = self.fold_scope(statements);
                StmtKind::ForLoop { iterator, iterable, statements }
            },
            StmtKind::If { condition, statements, else_statements } => {
                let condition = self.fold_expr(condition);
                let statements = self.fold_scope(statements);
                let else_statements = match else_statements {
                    Some(scope) => Some(self.fold_scope(scope)),
                    None => None,
                };
                StmtKind::If { condition, statements, else_statements }
            },
            StmtKind::Expression(expr) => StmtKind::Expression(self.fold_expr(expr)),
            StmtKind::Assignment { variable, value } => {
                let variable = self.fold_reference(variable);
                let value = self.fold_expr(value);
                StmtKind::Assignment { variable, value }
            },
            StmtKind::Return(value) => StmtKind::Return(
                match value {
                    Some(expr) => Some(self.fold_expr(expr)),
                    None => None,
                },
            ),
            StmtKind::Scope(scope) => StmtKind::Scope(self.fold_scope(scope)),
            StmtKind::Class(class) => {
                proof {
                    assert(decreases_to!(node@.kind => node@.kind->Class_0));
                }
                StmtKind::Class(self.fold_class(class))
            },
            StmtKind::Break => StmtKind::Break,
            StmtKind::Continue => StmtKind::Continue,
        };
        Stmt { kind, idx }
    }

    /// Walks through a class declaration without renaming anything in it:
    /// its `this` is another instance.
    pub fn fold_class(&mut self, node: Class) -> (folded: Class)
        ensures
            final(self)@ == old(self)@,
            folded@ == node@,
        decreases node@,
    {
        let ghost model = node@;
        proof {
            assert(decreases_to!(model => model.initializer));
            assert(decreases_to!(model => model.methods));
            assert(decreases_to!(model => model.inflight_initializer));
        }
        let old_inside_class = self.inside_class;
        self.inside_class = true;
        let Class { name, phase, initializer, fields, implements, parent, methods, inflight_initializer } = node;
        let initializer = self.fold_function_definition(initializer);
        let methods = self.fold_methods(methods);
        let inflight_initializer = self.fold_function_definition(inflight_initializer);
        self.inside_class = old_inside_class;
        proof {
            assert(methods_view(methods@) =~= model.methods);
        }
        Class { name, phase, initializer, fields, implements, parent, methods, inflight_initializer }
    }

    /// Renames inside each method of a class.
    pub fn fold_methods(
        &mut self,
        nodes: Vec<(Symbol, FunctionDefinition)>,
    ) -> (folded: Vec<(Symbol, FunctionDefinition)>)
        ensures
            final(self)@ == old(self)@,
            methods_view(folded@).len() == nodes@.len(),
            forall|j: int|
                0 <= j < nodes@.len() ==> (#[trigger] methods_view(folded@)[j]) == (
                    methods_view(nodes@)[j].0,
                    old(self)@.function_definition(methods_view(nodes@)[j].1),
                ),
        decreases methods_view(nodes@),
    {
        let ghost models = methods_view(nodes@);
        let ghost renamer = self@;
        let mut folded: Vec<(Symbol, FunctionDefinition)> = Vec::new();
        for node in it: nodes
            invariant
                it.seq() == nodes@,
                models == methods_view(nodes@),
                self@ == renamer,
                folded@.len() == it.index(),
                forall|j: int|
                    0 <= j < folded@.len() ==> (#[trigger] folded@[j]).0@ == models[j].0 && folded@[j].1@
                        == renamer.function_definition(models[j].1),
        {
            proof {
                assert(decreases_to!(models[it.index() as int] => models[it.index() as int].1));
            }
            let (name, definition) = node;
            let renamed = self.fold_function_definition(definition);
            folded.push((name, renamed));
        }
        folded
    }
}

} // verus!
