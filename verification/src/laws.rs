//! What holds of every conversion: where the new declarations stand in a
//! scope, what one conversion does and does not touch, and how `this` is
//! handed into the new class.

use vstd::prelude::*;
use crate::ast::Phase;
use crate::conversion::{converted_expr, converted_stmt, converted_stmts};
use crate::count::conversions_expr;
use crate::names::{capture_name, class_name, HANDLE_METHOD_NAME, THIS_NAME};
use crate::rename_this::renamed_function_definition;
use crate::scoping::{free_of_function_definition, lemma_rename_frees_function_definition};
use crate::synthesis::{
    capture_binding, closure_class, closure_instance, closure_method, Ambient, Synthesis,
};
use crate::view::{ExprView, FunctionDefinitionView, StmtKindView, StmtView};

verus! {

/// What a scope has put out after its first `k` statements stays at the
/// front of what it puts out in the end: later statements add to the output,
/// and change nothing in it.
pub proof fn lemma_scope_output_grows(
    ambient: Ambient,
    synthesis: Synthesis,
    stmts: Seq<StmtView>,
    k: int,
)
    requires
        0 <= k <= stmts.len(),
    ensures
        converted_stmts(ambient, synthesis, stmts.take(k)).node.is_prefix_of(
            converted_stmts(ambient, synthesis, stmts).node,
        ),
    decreases stmts.len(),
{
    if k == stmts.len() {
        assert(stmts.take(k) =~= stmts);
    } else {
        lemma_scope_output_grows(ambient, synthesis, stmts.drop_last(), k);
        assert(stmts.drop_last().take(k) =~= stmts.take(k));
    }
}

/// Ordering within a scope. The output of a scope is made statement by
/// statement: for the statement at position `k`, first the declarations that
/// wait when the statement has been converted, in the order in which they
/// were made, then the converted statement itself, directly after them. This
/// comes after everything that the earlier statements put out, and nothing is
/// left waiting for the statement that follows. Which declarations these are
/// is said in `placement`: those for the closures that stand directly in the
/// statement.
pub proof fn lemma_scope_order(ambient: Ambient, synthesis: Synthesis, stmts: Seq<StmtView>, k: int)
    requires
        0 <= k < stmts.len(),
    ensures
        ({
            let before = converted_stmts(ambient, synthesis, stmts.take(k));
            let step = converted_stmt(
                Ambient { nearest_stmt_idx: stmts[k].idx, ..ambient },
                before.synthesis,
                stmts[k],
            );
            let upto = converted_stmts(ambient, synthesis, stmts.take(k + 1));
            &&& upto.node == before.node + step.synthesis.class_statements + seq![step.node]
            &&& upto.node.is_prefix_of(converted_stmts(ambient, synthesis, stmts).node)
            &&& upto.synthesis.class_statements == Seq::<StmtView>::empty()
            &&& upto.synthesis.closure_counter == step.synthesis.closure_counter
        }),
{
    assert(stmts.take(k + 1).drop_last() =~= stmts.take(k));
    assert(stmts.take(k + 1).last() == stmts[k]);
    lemma_scope_output_grows(ambient, synthesis, stmts, k + 1);
}

/// Phase containment. An inflight closure in preflight code is one
/// conversion, whatever it holds: the counter goes up by one, a construction
/// of the new class takes the closure's place, and the closure's body goes
/// into the method of the class that is declared last. Outside an instance
/// method the body is moved as it is, with every closure in it.
pub proof fn lemma_phase_containment(
    ambient: Ambient,
    synthesis: Synthesis,
    closure: FunctionDefinitionView,
)
    requires
        ambient.phase == Phase::Preflight,
        closure.signature.phase == Phase::Inflight,
    ensures
        ({
            let converted = converted_expr(ambient, synthesis, ExprView::FunctionClosure(closure));
            let n = synthesis.closure_counter + 1;
            let method = closure_method(ambient.inside_scope_with_this, n, closure);
            &&& conversions_expr(ambient.phase, ExprView::FunctionClosure(closure)) == 1
            &&& converted.synthesis.closure_counter == n
            &&& converted.node == closure_instance(n)
            &&& converted.synthesis.class_statements.last() == closure_class(
                n,
                method,
                ambient.nearest_stmt_idx,
            )
            &&& method.signature == closure.signature
            &&& !method.is_static
            &&& !ambient.inside_scope_with_this ==> method.body == closure.body
            &&& ambient.inside_scope_with_this ==> method.body == renamed_function_definition(
                THIS_NAME@,
                capture_name(n),
                closure,
            ).body
        }),
{
}

/// The name of a capture binding is not `this`.
pub proof fn lemma_capture_name_is_not_this(n: nat)
    ensures
        capture_name(n) != THIS_NAME@,
{
    reveal_strlit("__parent_this");
    reveal_strlit("this");
    assert(capture_name(n)[0] == '_');
    assert(THIS_NAME@[0] == 't');
}

/// Capture threading. The conversion of a closure inside an instance method
/// leaves two statements waiting, after those that waited before: the
/// binding that captures `this`, and directly after it the declaration of
/// the class. In the method of the class no bare reference to `this` is left
/// outside the class declarations in it.
pub proof fn lemma_capture_threading(
    ambient: Ambient,
    synthesis: Synthesis,
    closure: FunctionDefinitionView,
)
    requires
        ambient.phase == Phase::Preflight,
        closure.signature.phase == Phase::Inflight,
        ambient.inside_scope_with_this,
    ensures
        ({
            let converted = converted_expr(ambient, synthesis, ExprView::FunctionClosure(closure));
            let n = synthesis.closure_counter + 1;
            let method = closure_method(true, n, closure);
            &&& converted.synthesis.class_statements == synthesis.class_statements + seq![
                capture_binding(n, ambient.nearest_stmt_idx),
                closure_class(n, method, ambient.nearest_stmt_idx),
            ]
            &&& free_of_function_definition(THIS_NAME@, method)
        }),
{
    let n = synthesis.closure_counter + 1;
    lemma_capture_name_is_not_this(n);
    lemma_rename_frees_function_definition(THIS_NAME@, capture_name(n), closure);
}

/// What a closure class is. The class that stands for a closure is a
/// preflight class without fields, without a parent and without interfaces.
/// Its only method is the closure's body under the name of the handler
/// method, and is inflight as the closure was. It carries the index of the
/// statement in which the closure stood.
pub proof fn lemma_closure_class_shape(
    ambient: Ambient,
    synthesis: Synthesis,
    closure: FunctionDefinitionView,
)
    requires
        ambient.phase == Phase::Preflight,
        closure.signature.phase == Phase::Inflight,
    ensures
        ({
            let converted = converted_expr(ambient, synthesis, ExprView::FunctionClosure(closure));
            let n = synthesis.closure_counter + 1;
            let declaration = converted.synthesis.class_statements.last();
            &&& declaration.idx == ambient.nearest_stmt_idx
            &&& declaration.kind matches StmtKindView::Class(class)
            &&& class.name == class_name(n)
            &&& class.phase == Phase::Preflight
            &&& class.fields.len() == 0
            &&& class.implements.len() == 0
            &&& class.parent is None
            &&& class.initializer.signature.phase == Phase::Preflight
            &&& class.inflight_initializer.signature.phase == Phase::Inflight
            &&& class.methods.len() == 1
            &&& class.methods[0].0 == HANDLE_METHOD_NAME@
            &&& class.methods[0].1 == closure_method(ambient.inside_scope_with_this, n, closure)
            &&& class.methods[0].1.signature.phase == Phase::Inflight
        }),
{
}

/// Outside an instance method the conversion of a closure leaves one
/// statement waiting, after those that waited before: the declaration of the
/// class, whose method is the closure as it was, made an instance method. No
/// capture binding is made.
pub proof fn lemma_no_capture_without_this(
    ambient: Ambient,
    synthesis: Synthesis,
    closure: FunctionDefinitionView,
)
    requires
        ambient.phase == Phase::Preflight,
        closure.signature.phase == Phase::Inflight,
        !ambient.inside_scope_with_this,
    ensures
        ({
            let converted = converted_expr(ambient, synthesis, ExprView::FunctionClosure(closure));
            let n = synthesis.closure_counter + 1;
            let method = FunctionDefinitionView { is_static: false, ..closure };
            converted.synthesis.class_statements == synthesis.class_statements + seq![
                closure_class(n, method, ambient.nearest_stmt_idx),
            ]
        }),
{
}

} // verus!
