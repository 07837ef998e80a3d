//! The syntax tree that the conversion reads and writes.

use vstd::prelude::*;
use crate::named_args::{named_args_entries, NamedArgs};
use crate::view::{
    ArgListView, ClassFieldView, ClassView, ExprView, FunctionBodyView, FunctionDefinitionView,
    FunctionParameterView, FunctionSignatureView, LiteralView, ReferenceView, ScopeView,
    StmtKindView, StmtView, TypeAnnotationView, UserDefinedTypeView,
};

verus! {

/// When a piece of code runs: while the deployment is put together
/// (preflight), or inside the deployed system (inflight).
#[derive(Clone, Copy, Debug, PartialEq, Eq, Structural)]
pub enum Phase {
    Inflight,
    Preflight,
}

/// An operator with one operand.
#[derive(Clone, Copy, Debug, PartialEq, Eq, Structural)]
pub enum UnaryOperator {
    Minus,
    Not,
}

/// An operator with two operands.
#[derive(Clone, Copy, Debug, PartialEq, Eq, Structural)]
pub enum BinaryOperator {
    Add,
    Sub,
    Mul,
    Div,
    Equal,
    NotEqual,
    Less,
    Greater,
    LogicalAnd,
    LogicalOr,
}

/// A name as it is written in the program.
#[derive(Debug, PartialEq)]
pub struct Symbol {
    pub name: String,
}

/// A type named by the user: a root name and the names that follow it.
#[derive(Debug, PartialEq)]
pub struct UserDefinedType {
    pub root: Symbol,
    pub fields: Vec<Symbol>,
}

/// A type as it is written in the program.
#[derive(Debug, PartialEq)]
pub enum TypeAnnotation {
    Number,
    Str,
    Bool,
    Void,
    Optional(Box<TypeAnnotation>),
    Array(Box<TypeAnnotation>),
    UserDefined(UserDefinedType),
}

/// A parameter of a function.
#[derive(Debug, PartialEq)]
pub struct FunctionParameter {
    pub name: Symbol,
    pub type_annotation: TypeAnnotation,
    pub reassignable: bool,
}

/// The parameters, the return type and the phase of a function.
#[derive(Debug, PartialEq)]
pub struct FunctionSignature {
    pub parameters: Vec<FunctionParameter>,
    pub return_type: Box<TypeAnnotation>,
    pub phase: Phase,
}

/// The body of a function: statements, or the path of a file that holds it.
#[derive(Debug, PartialEq)]
pub enum FunctionBody {
    Statements(Scope),
    External(String),
}

/// A function: a closure, a method or an initializer.
#[derive(Debug, PartialEq)]
pub struct FunctionDefinition {
    pub body: FunctionBody,
    pub signature: FunctionSignature,
    pub is_static: bool,
}

/// A sequence of statements; their order is part of the program's meaning.
#[derive(Debug, PartialEq)]
pub struct Scope {
    pub statements: Vec<Stmt>,
}

/// A statement, with the index under which later stages look it up.
#[derive(Debug, PartialEq)]
pub struct Stmt {
    pub kind: StmtKind,
    pub idx: usize,
}

/// What a statement says.
#[derive(Debug, PartialEq)]
#[allow(inconsistent_fields)]
pub enum StmtKind {
    Let {
        reassignable: bool,
        var_name: Symbol,
        initial_value: Expr,
        type_: Option<TypeAnnotation>,
    },
    ForLoop { iterator: Symbol, iterable: Expr, statements: Scope },
    If { condition: Expr, statements: Scope, else_statements: Option<Scope> },
    Expression(Expr),
    Assignment { variable: Reference, value: Expr },
    Return(Option<Expr>),
    Scope(Scope),
    Class(Class),
    Break,
    Continue,
}

/// A field of a class.
#[derive(Debug, PartialEq)]
pub struct ClassField {
    pub name: Symbol,
    pub member_type: TypeAnnotation,
    pub reassignable: bool,
    pub phase: Phase,
    pub is_static: bool,
}

/// A class declaration.
#[derive(Debug, PartialEq)]
pub struct Class {
    pub name: Symbol,
    pub phase: Phase,
    pub initializer: FunctionDefinition,
    pub fields: Vec<ClassField>,
    pub implements: Vec<UserDefinedType>,
    pub parent: Option<UserDefinedType>,
    pub methods: Vec<(Symbol, FunctionDefinition)>,
    pub inflight_initializer: FunctionDefinition,
}

/// A literal value.
#[derive(Debug, PartialEq)]
pub enum Literal {
    String(String),
    Number(i64),
    Boolean(bool),
}

/// The arguments of a call or a construction.
#[derive(Debug, PartialEq)]
pub struct ArgList {
    pub pos_args: Vec<Expr>,
    pub named_args: NamedArgs,
}

/// A reference: a bare identifier, a member of an instance, or a member of a
/// type.
#[derive(Debug, PartialEq)]
pub enum Reference {
    Identifier(Symbol),
    InstanceMember { object: Box<Expr>, property: Symbol, optional_accessor: bool },
    TypeMember { type_: UserDefinedType, property: Symbol },
}

/// An expression.
#[derive(Debug, PartialEq)]
#[allow(inconsistent_fields)]
pub enum Expr {
    New {
        class: TypeAnnotation,
        obj_id: Option<String>,
        obj_scope: Option<Box<Expr>>,
        arg_list: ArgList,
    },
    Literal(Literal),
    Reference(Reference),
    Call { function: Box<Expr>, arg_list: ArgList },
    Unary { op: UnaryOperator, exp: Box<Expr> },
    Binary { op: BinaryOperator, left: Box<Expr>, right: Box<Expr> },
    ArrayLiteral { type_: Option<TypeAnnotation>, items: Vec<Expr> },
    FunctionClosure(FunctionDefinition),
}

impl Symbol {
    /// The model of this value.
    pub open spec fn view(self) -> Seq<char> {
        self.name@
    }

    /// A symbol with the given name.
    pub fn new(name: &str) -> (symbol: Symbol)
        ensures
            symbol@ == name@,
    {
        Symbol { name: name.to_owned() }
    }
}

impl UserDefinedType {
    /// The model of this value.
    pub open spec fn view(self) -> UserDefinedTypeView {
        UserDefinedTypeView { root: self.root@, fields: self.fields@.map_values(|s: Symbol| s@) }
    }
}

impl TypeAnnotation {
    /// The model of this value.
    pub open spec fn view(self) -> TypeAnnotationView
        decreases self,
    {
        match self {
            TypeAnnotation::Number => TypeAnnotationView::Number,
            TypeAnnotation::Str => TypeAnnotationView::Str,
            TypeAnnotation::Bool => TypeAnnotationView::Bool,
            TypeAnnotation::Void => TypeAnnotationView::Void,
            TypeAnnotation::Optional(inner) => TypeAnnotationView::Optional(Box::new(inner.view())),
            TypeAnnotation::Array(inner) => TypeAnnotationView::Array(Box::new(inner.view())),
            TypeAnnotation::UserDefined(t) => TypeAnnotationView::UserDefined(t@),
        }
    }
}

/// The model of a type annotation that may be absent.
pub open spec fn optional_type_view(t: Option<TypeAnnotation>) -> Option<TypeAnnotationView> {
    match t {
        Some(t) => Some(t@),
        None => None,
    }
}

impl FunctionParameter {
    /// The model of this value.
    pub open spec fn view(self) -> FunctionParameterView {
        FunctionParameterView {
            name: self.name@,
            type_annotation: self.type_annotation@,
            reassignable: self.reassignable,
        }
    }
}

impl FunctionSignature {
    /// The model of this value.
    pub open spec fn view(self) -> FunctionSignatureView {
        FunctionSignatureView {
            parameters: self.parameters@.map_values(|p: FunctionParameter| p@),
            return_type: self.return_type@,
            phase: self.phase,
        }
    }
}

impl ClassField {
    /// The model of this value.
    pub open spec fn view(self) -> ClassFieldView {
        ClassFieldView {
            name: self.name@,
            member_type: self.member_type@,
            reassignable: self.reassignable,
            phase: self.phase,
            is_static: self.is_static,
        }
    }
}

impl Literal {
    /// The model of this value.
    pub open spec fn view(self) -> LiteralView {
        match self {
            Literal::String(s) => LiteralView::String(s@),
            Literal::Number(n) => LiteralView::Number(n as int),
            Literal::Boolean(b) => LiteralView::Boolean(b),
        }
    }
}

impl FunctionBody {
    /// The model of this value.
    pub open spec fn view(self) -> FunctionBodyView
        decreases self,
    {
        match self {
            FunctionBody::Statements(scope) => FunctionBodyView::Statements(scope@),
            FunctionBody::External(path) => FunctionBodyView::External(path@),
        }
    }
}

impl FunctionDefinition {
    /// The model of this value.
    pub open spec fn view(self) -> FunctionDefinitionView
        decreases self,
    {
        FunctionDefinitionView {
            body: self.body@,
            signature: self.signature@,
            is_static: self.is_static,
        }
    }
}

impl Scope {
    /// The model of this value.
    pub open spec fn view(self) -> ScopeView
        decreases self,
    {
        ScopeView { statements: stmts_view(self.statements@) }
    }

    /// A scope that holds the given statements, in their order.
    pub fn new(statements: Vec<Stmt>) -> (scope: Scope)
        ensures
            scope.statements == statements,
    {
        Scope { statements }
    }
}

impl Stmt {
    /// The model of this value.
    pub open spec fn view(self) -> StmtView
        decreases self,
    {
        StmtView { kind: self.kind@, idx: self.idx as nat }
    }
}

impl StmtKind {
    /// The model of this value.
    pub open spec fn view(self) -> StmtKindView
        decreases self,
    {
        match self {
            StmtKind::Let { reassignable, var_name, initial_value, type_ } => StmtKindView::Let {
                reassignable,
                var_name: var_name@,
                initial_value: initial_value@,
                type_: optional_type_view(type_),
            },
            StmtKind::ForLoop { iterator, iterable, statements } => StmtKindView::ForLoop {
                iterator: iterator@,
                iterable: iterable@,
                statements: statements@,
            },
            StmtKind::If { condition, statements, else_statements } => StmtKindView::If {
                condition: condition@,
                statements: statements@,
                else_statements: match else_statements {
                    Some(scope) => Some(scope@),
                    None => None,
                },
            },
            StmtKind::Expression(e) => StmtKindView::Expression(e@),
            StmtKind::Assignment { variable, value } => StmtKindView::Assignment {
                variable: variable@,
                value: value@,
            },
            StmtKind::Return(value) => StmtKindView::Return(
                match value {
                    Some(e) => Some(e@),
                    None => None,
                },
            ),
            StmtKind::Scope(scope) => StmtKindView::Scope(scope@),
            StmtKind::Class(class) => StmtKindView::Class(class@),
            StmtKind::Break => StmtKindView::Break,
            StmtKind::Continue => StmtKindView::Continue,
        }
    }
}

impl Class {
    /// The model of this value.
    pub open spec fn view(self) -> ClassView
        decreases self,
    {
        ClassView {
            name: self.name@,
            phase: self.phase,
            initializer: self.initializer@,
            fields: self.fields@.map_values(|f: ClassField| f@),
            implements: self.implements@.map_values(|t: UserDefinedType| t@),
            parent: match self.parent {
                Some(t) => Some(t@),
                None => None,
            },
            methods: methods_view(self.methods@),
            inflight_initializer: self.inflight_initializer@,
        }
    }
}

impl ArgList {
    /// The model of this value.
    pub open spec fn view(self) -> ArgListView
        decreases self,
    {
        ArgListView {
            pos_args: exprs_view(self.pos_args@),
            named_args: named_args_entries(self.named_args),
        }
    }
}

impl Reference {
    /// The model of this value.
    pub open spec fn view(self) -> ReferenceView
        decreases self,
    {
        match self {
            Reference::Identifier(symbol) => ReferenceView::Identifier(symbol@),
            Reference::InstanceMember { object, property, optional_accessor } => ReferenceView::InstanceMember {
                object: Box::new(object.view()),
                property: property@,
                optional_accessor,
            },
            Reference::TypeMember { type_, property } => ReferenceView::TypeMember {
                type_: type_@,
                property: property@,
            },
        }
    }
}

impl Expr {
    /// The model of this value.
    pub open spec fn view(self) -> ExprView
        decreases self,
    {
        match self {
            Expr::New { class, obj_id, obj_scope, arg_list } => ExprView::New {
                class: class@,
                obj_id: match obj_id {
                    Some(id) => Some(id@),
                    None => None,
                },
                obj_scope: match obj_scope {
                    Some(scope) => Some(Box::new(scope.view())),
                    None => None,
                },
                arg_list: arg_list@,
            },
            Expr::Literal(literal) => ExprView::Literal(literal@),
            Expr::Reference(reference) => ExprView::Reference(reference@),
            Expr::Call { function, arg_list } => ExprView::Call {
                function: Box::new(function.view()),
                arg_list: arg_list@,
            },
            Expr::Unary { op, exp } => ExprView::Unary { op, exp: Box::new(exp.view()) },
            Expr::Binary { op, left, right } => ExprView::Binary {
                op,
                left: Box::new(left.view()),
                right: Box::new(right.view()),
            },
            Expr::ArrayLiteral { type_, items } => ExprView::ArrayLiteral {
                type_: optional_type_view(type_),
                items: exprs_view(items@),
            },
            Expr::FunctionClosure(definition) => ExprView::FunctionClosure(definition@),
        }
    }
}

/// The models of a sequence of expressions, position by position.
pub open spec fn exprs_view(exprs: Seq<Expr>) -> Seq<ExprView>
    decreases exprs,
{
    Seq::new(
        exprs.len(),
        |i: int|
            if 0 <= i < exprs.len() {
                exprs[i]@
            } else {
                arbitrary()
            },
    )
}

/// The models of a sequence of statements, position by position.
pub open spec fn stmts_view(stmts: Seq<Stmt>) -> Seq<StmtView>
    decreases stmts,
{
    Seq::new(
        stmts.len(),
        |i: int|
            if 0 <= i < stmts.len() {
                stmts[i]@
            } else {
                arbitrary()
            },
    )
}

/// The models of a class's methods, each with its name, position by position.
pub open spec fn methods_view(
    methods: Seq<(Symbol, FunctionDefinition)>,
) -> Seq<(Seq<char>, FunctionDefinitionView)>
    decreases methods,
{
    Seq::new(
        methods.len(),
        |i: int|
            if 0 <= i < methods.len() {
                (methods[i].0@, methods[i].1@)
            } else {
                arbitrary()
            },
    )
}

/// The models of named entries that were taken out of an argument list.
pub open spec fn entries_view(entries: Seq<(String, Expr)>) -> Seq<(Seq<char>, ExprView)> {
    Seq::new(entries.len(), |i: int| (entries[i].0@, entries[i].1@))
}

} // verus!
