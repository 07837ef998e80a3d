//! What the conversion puts in the place of one closure: a class that holds
//! the closure's body as its only inflight method, a construction of that
//! class, and, inside an instance method, a binding that captures `this`.

use vstd::prelude::*;
use crate::ast::Phase;
use crate::names::{
    capture_name, class_name, DISPLAY_MEMBER, HANDLE_METHOD_NAME, HIDDEN_MEMBER, THIS_NAME,
};
use crate::rename_this::renamed_function_definition;
use crate::view::{
    ArgListView, ClassView, ExprView, FunctionBodyView, FunctionDefinitionView,
    FunctionSignatureView, LiteralView, ReferenceView, ScopeView, StmtKindView, StmtView,
    TypeAnnotationView, UserDefinedTypeView,
};

verus! {

/// Where the traversal stands: the phase of the code around it, whether
/// `this` names an instance there, and the index of the statement it is in.
pub struct Ambient {
    pub phase: Phase,
    pub inside_scope_with_this: bool,
    pub nearest_stmt_idx: nat,
}

/// What the traversal carries along: how many closures it has converted, and
/// the statements that wait to be put before the statement it is in.
pub struct Synthesis {
    pub closure_counter: nat,
    pub class_statements: Seq<StmtView>,
}

/// A node after conversion, with what the traversal carries after it.
pub struct Converted<T> {
    pub synthesis: Synthesis,
    pub node: T,
}

/// The type of the class for the closure numbered `n`.
pub open spec fn closure_class_type(n: nat) -> TypeAnnotationView {
    TypeAnnotationView::UserDefined(UserDefinedTypeView { root: class_name(n), fields: Seq::empty() })
}

/// The expression that takes the closure's place: a construction of its
/// class, without arguments.
pub open spec fn closure_instance(n: nat) -> ExprView {
    ExprView::New {
        class: closure_class_type(n),
        obj_id: None,
        obj_scope: None,
        arg_list: ArgListView { pos_args: Seq::empty(), named_args: Seq::empty() },
    }
}

/// A bare reference to `this`.
pub open spec fn this_reference() -> ExprView {
    ExprView::Reference(ReferenceView::Identifier(THIS_NAME@))
}

/// The statement `this.display.hidden = true`, which marks an instance as an
/// implementation detail.
pub open spec fn hidden_marker() -> StmtView {
    StmtView {
        kind: StmtKindView::Assignment {
            variable: ReferenceView::InstanceMember {
                object: Box::new(
                    ExprView::Reference(
                        ReferenceView::InstanceMember {
                            object: Box::new(this_reference()),
                            property: DISPLAY_MEMBER@,
                            optional_accessor: false,
                        },
                    ),
                ),
                property: HIDDEN_MEMBER@,
                optional_accessor: false,
            },
            value: ExprView::Literal(LiteralView::Boolean(true)),
        },
        idx: 0,
    }
}

/// The preflight initializer of a closure class: it sets the hidden marker,
/// and does nothing else.
pub open spec fn closure_class_initializer(n: nat) -> FunctionDefinitionView {
    FunctionDefinitionView {
        body: FunctionBodyView::Statements(ScopeView { statements: seq![hidden_marker()] }),
        signature: FunctionSignatureView {
            parameters: Seq::empty(),
            return_type: closure_class_type(n),
            phase: Phase::Preflight,
        },
        is_static: true,
    }
}

/// The inflight initializer of a closure class: it is empty.
pub open spec fn closure_class_inflight_initializer() -> FunctionDefinitionView {
    FunctionDefinitionView {
        body: FunctionBodyView::Statements(ScopeView { statements: Seq::empty() }),
        signature: FunctionSignatureView {
            parameters: Seq::empty(),
            return_type: TypeAnnotationView::Void,
            phase: Phase::Inflight,
        },
        is_static: false,
    }
}

/// The method that a closure becomes. Inside an instance method its bare
/// references to `this` are renamed to the capture binding. In either case it
/// is an instance method afterwards.
pub open spec fn closure_method(
    with_this: bool,
    n: nat,
    closure: FunctionDefinitionView,
) -> FunctionDefinitionView {
    let body = if with_this {
        renamed_function_definition(THIS_NAME@, capture_name(n), closure)
    } else {
        closure
    };
    FunctionDefinitionView { body: body.body, signature: body.signature, is_static: false }
}

/// The declaration of the class for the closure numbered `n`: preflight,
/// without fields or parent, with `method` as its only method, under the name
/// of the handler method. It carries the index `idx`.
pub open spec fn closure_class(n: nat, method: FunctionDefinitionView, idx: nat) -> StmtView {
    StmtView {
        kind: StmtKindView::Class(
            ClassView {
                name: class_name(n),
                phase: Phase::Preflight,
                initializer: closure_class_initializer(n),
                fields: Seq::empty(),
                implements: Seq::empty(),
                parent: None,
                methods: seq![(HANDLE_METHOD_NAME@, method)],
                inflight_initializer: closure_class_inflight_initializer(),
            },
        ),
        idx,
    }
}

/// The binding `let __parent_this_<n> = this`, which cannot be reassigned. It
/// carries the index `idx`.
pub open spec fn capture_binding(n: nat, idx: nat) -> StmtView {
    StmtView {
        kind: StmtKindView::Let {
            reassignable: false,
            var_name: capture_name(n),
            initial_value: this_reference(),
            type_: None,
        },
        idx,
    }
}

/// The statements that one conversion leaves waiting: inside an instance
/// method the capture binding, and in every case the class declaration after
/// it.
pub open spec fn closure_statements(
    ambient: Ambient,
    n: nat,
    closure: FunctionDefinitionView,
) -> Seq<StmtView> {
    let class = closure_class(
        n,
        closure_method(ambient.inside_scope_with_this, n, closure),
        ambient.nearest_stmt_idx,
    );
    if ambient.inside_scope_with_this {
        seq![capture_binding(n, ambient.nearest_stmt_idx), class]
    } else {
        seq![class]
    }
}

/// The conversion of one inflight closure in preflight code: the counter goes
/// up by one and numbers the closure, the closure's statements join those
/// that wait, and a construction of the new class takes the closure's place.
pub open spec fn converted_closure(
    ambient: Ambient,
    synthesis: Synthesis,
    closure: FunctionDefinitionView,
) -> Converted<ExprView> {
    let n = synthesis.closure_counter + 1;
    Converted {
        synthesis: Synthesis {
            closure_counter: n,
            class_statements: synthesis.class_statements + closure_statements(ambient, n, closure),
        },
        node: closure_instance(n),
    }
}

} // verus!
