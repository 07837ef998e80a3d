//! The mathematical model of the syntax tree: what a tree is, apart from how
//! it is held in memory. Contracts and laws speak of these values.

use vstd::prelude::*;
use crate::ast::{BinaryOperator, Phase, UnaryOperator};

verus! {

/// A type named by the user: a root name and the names that follow it.
pub struct UserDefinedTypeView {
    pub root: Seq<char>,
    pub fields: Seq<Seq<char>>,
}

/// A type as it is written in the program.
pub enum TypeAnnotationView {
    Number,
    Str,
    Bool,
    Void,
    Optional(Box<TypeAnnotationView>),
    Array(Box<TypeAnnotationView>),
    UserDefined(UserDefinedTypeView),
}

/// A parameter of a function.
pub struct FunctionParameterView {
    pub name: Seq<char>,
    pub type_annotation: TypeAnnotationView,
    pub reassignable: bool,
}

/// The parameters, the return type and the phase of a function.
pub struct FunctionSignatureView {
    pub parameters: Seq<FunctionParameterView>,
    pub return_type: TypeAnnotationView,
    pub phase: Phase,
}

/// The body of a function: statements, or the path of a file that holds it.
pub enum FunctionBodyView {
    Statements(ScopeView),
    External(Seq<char>),
}

/// A function: a closure, a method or an initializer.
pub struct FunctionDefinitionView {
    pub body: FunctionBodyView,
    pub signature: FunctionSignatureView,
    pub is_static: bool,
}

/// A scope: its statements in their order.
pub struct ScopeView {
    pub statements: Seq<StmtView>,
}

/// A statement with its index.
pub struct StmtView {
    pub kind: StmtKindView,
    pub idx: nat,
}

/// What a statement says.
#[allow(inconsistent_fields)]
pub enum StmtKindView {
    Let {
        reassignable: bool,
        var_name: Seq<char>,
        initial_value: ExprView,
        type_: Option<TypeAnnotationView>,
    },
    ForLoop { iterator: Seq<char>, iterable: ExprView, statements: ScopeView },
    If { condition: ExprView, statements: ScopeView, else_statements: Option<ScopeView> },
    Expression(ExprView),
    Assignment { variable: ReferenceView, value: ExprView },
    Return(Option<ExprView>),
    Scope(ScopeView),
    Class(ClassView),
    Break,
    Continue,
}

/// A field of a class.
pub struct ClassFieldView {
    pub name: Seq<char>,
    pub member_type: TypeAnnotationView,
    pub reassignable: bool,
    pub phase: Phase,
    pub is_static: bool,
}

/// A class declaration.
pub struct ClassView {
    pub name: Seq<char>,
    pub phase: Phase,
    pub initializer: FunctionDefinitionView,
    pub fields: Seq<ClassFieldView>,
    pub implements: Seq<UserDefinedTypeView>,
    pub parent: Option<UserDefinedTypeView>,
    pub methods: Seq<(Seq<char>, FunctionDefinitionView)>,
    pub inflight_initializer: FunctionDefinitionView,
}

/// A literal value.
pub enum LiteralView {
    String(Seq<char>),
    Number(int),
    Boolean(bool),
}

/// The arguments of a call or a construction: positional ones, then named ones
/// in their order.
pub struct ArgListView {
    pub pos_args: Seq<ExprView>,
    pub named_args: Seq<(Seq<char>, ExprView)>,
}

/// A reference: a bare identifier, a member of an instance, or a member of a
/// type.
pub enum ReferenceView {
    Identifier(Seq<char>),
    InstanceMember { object: Box<ExprView>, property: Seq<char>, optional_accessor: bool },
    TypeMember { type_: UserDefinedTypeView, property: Seq<char> },
}

/// An expression.
#[allow(inconsistent_fields)]
pub enum ExprView {
    New {
        class: TypeAnnotationView,
        obj_id: Option<Seq<char>>,
        obj_scope: Option<Box<ExprView>>,
        arg_list: ArgListView,
    },
    Literal(LiteralView),
    Reference(ReferenceView),
    Call { function: Box<ExprView>, arg_list: ArgListView },
    Unary { op: UnaryOperator, exp: Box<ExprView> },
    Binary { op: BinaryOperator, left: Box<ExprView>, right: Box<ExprView> },
    ArrayLiteral { type_: Option<TypeAnnotationView>, items: Seq<ExprView> },
    FunctionClosure(FunctionDefinitionView),
}

} // verus!
