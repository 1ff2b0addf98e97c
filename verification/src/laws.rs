//! What holds of every run of the checker.

use vstd::prelude::*;
use crate::error::TypeCheckErrorView;
use crate::python_type::PythonType;
use crate::rules::{
    bind_names, conflicts, drift_names, enforced_type, first_conflict, run, step,
    typed_assignment, untyped_assignment, CheckerState,
};
use crate::syntax::{AnnotationView, ExprView, StatementView};

verus! {

/// Whether `later` can follow `earlier` in one analysis: every variable
/// that was bound is still bound, every explicitly typed variable still
/// is, and the configuration is the same.
pub open spec fn extends(earlier: CheckerState, later: CheckerState) -> bool {
    &&& earlier.bindings.dom().subset_of(later.bindings.dom())
    &&& earlier.explicit.subset_of(later.explicit)
    &&& earlier.implicit_checking == later.implicit_checking
}

/// Whether every explicitly typed variable of a state has a type on
/// record.
pub open spec fn explicit_are_bound(state: CheckerState) -> bool {
    state.explicit.subset_of(state.bindings.dom())
}

/// An empty program succeeds and changes nothing.
pub proof fn lemma_empty_program(state: CheckerState)
    ensures
        run(state, Seq::<StatementView>::empty()) == (state, Ok::<(), TypeCheckErrorView>(())),
{
}

/// A program of one statement does what the statement does.
pub proof fn lemma_single_statement(state: CheckerState, statement: StatementView)
    ensures
        run(state, seq![statement]) == step(state, statement),
{
    let program = seq![statement];
    let (next, result) = step(state, statement);
    assert(program[0] == statement);
    assert(program.drop_first() =~= Seq::<StatementView>::empty());
    lemma_empty_program(next);
}

/// Running two programs one after the other, where the first succeeds,
/// is running the second from where the first ended; where the first
/// fails, the second is never looked at.
pub proof fn lemma_run_in_sequence(
    state: CheckerState,
    first: Seq<StatementView>,
    second: Seq<StatementView>,
)
    ensures
        run(state, first + second) == if run(state, first).1 is Err {
            run(state, first)
        } else {
            run(run(state, first).0, second)
        },
    decreases first.len(),
{
    if first.len() == 0 {
        assert(first + second =~= second);
    } else {
        let whole = first + second;
        assert(whole[0] == first[0]);
        assert(whole.drop_first() =~= first.drop_first() + second);
        let (next, result) = step(state, first[0]);
        if result is Ok {
            lemma_run_in_sequence(next, first.drop_first(), second);
        }
    }
}

/// The analysis ends at the first statement that fails: if the `k`
/// statements before it succeed and the statement at `k` fails, the whole
/// program ends as that statement does, whatever follows it.
pub proof fn lemma_run_stops_at_first_error(
    state: CheckerState,
    program: Seq<StatementView>,
    k: int,
)
    requires
        0 <= k < program.len(),
        run(state, program.take(k)).1 is Ok,
        step(run(state, program.take(k)).0, program[k]).1 is Err,
    ensures
        run(state, program) == step(run(state, program.take(k)).0, program[k]),
{
    let before = program.take(k);
    let failing = seq![program[k]];
    let after = program.skip(k + 1);
    let reached = run(state, before).0;
    assert(program =~= before + (failing + after));
    lemma_run_in_sequence(state, before, failing + after);
    lemma_run_in_sequence(reached, failing, after);
    lemma_single_statement(reached, program[k]);
}

/// Binding names leaves every earlier variable bound and keeps the
/// configuration.
pub proof fn lemma_bind_names_extends(state: CheckerState, targets: Seq<ExprView>, ty: PythonType)
    ensures
        extends(state, bind_names(state, targets, ty)),
        explicit_are_bound(state) ==> explicit_are_bound(bind_names(state, targets, ty)),
{
}

/// Giving names a value leaves every earlier variable bound and keeps
/// the configuration and the explicitly typed variables.
pub proof fn lemma_drift_names_extends(state: CheckerState, targets: Seq<ExprView>, ty: PythonType)
    ensures
        extends(state, drift_names(state, targets, ty)),
        drift_names(state, targets, ty).explicit == state.explicit,
        explicit_are_bound(state) ==> explicit_are_bound(drift_names(state, targets, ty)),
{
}

/// A variable that is held to a type keeps that type across an untyped
/// assignment, whether the assignment is accepted or refused.
pub proof fn lemma_enforced_type_is_kept(
    state: CheckerState,
    targets: Seq<ExprView>,
    groups: Seq<Seq<ExprView>>,
    name: Seq<char>,
)
    requires
        enforced_type(state, name) is Some,
    ensures
        enforced_type(untyped_assignment(state, targets, groups).0, name) == enforced_type(
            state,
            name,
        ),
{
}

/// A typed assignment that fails leaves the state as it was.
pub proof fn lemma_failed_typed_assignment(
    state: CheckerState,
    targets: Seq<ExprView>,
    annotation: AnnotationView,
    values: Seq<ExprView>,
)
    requires
        typed_assignment(state, targets, annotation, values).1 is Err,
    ensures
        typed_assignment(state, targets, annotation, values).0 == state,
{
}

/// The position at which an untyped assignment stops lies among the
/// targets or just behind them; where it lies among them, that target is
/// a bare name that refuses the value, and no target before it does.
pub proof fn lemma_first_conflict_is_first(
    state: CheckerState,
    targets: Seq<ExprView>,
    inferred: PythonType,
)
    ensures
        0 <= first_conflict(state, targets, inferred) <= targets.len(),
        first_conflict(state, targets, inferred) < targets.len() ==> conflicts(
            state,
            targets[first_conflict(state, targets, inferred)],
            inferred,
        ),
        forall|j: int|
            0 <= j < first_conflict(state, targets, inferred) ==> !conflicts(
                state,
                #[trigger] targets[j],
                inferred,
            ),
    decreases targets.len(),
{
    if targets.len() > 0 && !conflicts(state, targets[0], inferred) {
        let rest = targets.drop_first();
        lemma_first_conflict_is_first(state, rest, inferred);
        let stop = first_conflict(state, rest, inferred);
        assert forall|j: int| 0 <= j < stop + 1 implies !conflicts(
            state,
            #[trigger] targets[j],
            inferred,
        ) by {
            if j > 0 {
                assert(targets[j] == rest[j - 1]);
            }
        }
        if stop < rest.len() {
            assert(rest[stop] == targets[stop + 1]);
        }
    }
}

/// One statement, whether it succeeds or fails, leaves every earlier
/// variable bound, every explicitly typed variable explicitly typed, and
/// the configuration as it was.
pub proof fn lemma_step_extends(state: CheckerState, statement: StatementView)
    ensures
        extends(state, step(state, statement).0),
        explicit_are_bound(state) ==> explicit_are_bound(step(state, statement).0),
{
}

/// A whole program, whether it succeeds or fails, leaves every earlier
/// variable bound, every explicitly typed variable explicitly typed, and
/// the configuration as it was.
pub proof fn lemma_run_extends(state: CheckerState, program: Seq<StatementView>)
    ensures
        extends(state, run(state, program).0),
        explicit_are_bound(state) ==> explicit_are_bound(run(state, program).0),
    decreases program.len(),
{
    if program.len() > 0 {
        lemma_step_extends(state, program[0]);
        let (next, result) = step(state, program[0]);
        if result is Ok {
            lemma_run_extends(next, program.drop_first());
        }
    }
}

/// What the statements before a failing one have bound stays bound when
/// the analysis stops at it.
pub proof fn lemma_bindings_survive_failure(
    state: CheckerState,
    program: Seq<StatementView>,
    k: int,
    name: Seq<char>,
)
    requires
        0 <= k < program.len(),
        run(state, program.take(k)).1 is Ok,
        step(run(state, program.take(k)).0, program[k]).1 is Err,
        run(state, program.take(k)).0.bindings.dom().contains(name),
    ensures
        run(state, program).1 is Err,
        run(state, program).0.bindings.dom().contains(name),
{
    lemma_run_stops_at_first_error(state, program, k);
    lemma_step_extends(run(state, program.take(k)).0, program[k]);
}

/// An explicitly typed variable is held to its type whatever the
/// configuration says: an untyped assignment of a value that does not fit
/// is refused.
pub proof fn lemma_explicit_is_enforced(
    state: CheckerState,
    name: Seq<char>,
    inferred: PythonType,
)
    requires
        state.explicit.contains(name),
        state.bindings.dom().contains(name),
        !PythonType::spec_is_assignable(inferred, state.bindings[name]),
    ensures
        conflicts(state, ExprView::Name(name), inferred),
{
}

/// Without implicit checking, a variable that was never typed explicitly
/// takes a value of any type.
pub proof fn lemma_untyped_may_drift(state: CheckerState, name: Seq<char>, inferred: PythonType)
    requires
        !state.explicit.contains(name),
        !state.implicit_checking,
    ensures
        !conflicts(state, ExprView::Name(name), inferred),
{
}

} // verus!
