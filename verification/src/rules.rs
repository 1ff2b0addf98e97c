//! The checking rules, stated over mathematical values.
//!
//! Everything here is specification: what the type of a value is, what an
//! assignment does to the state of a checker, and what a whole program
//! does. The executable checker is proved against these functions.

use vstd::prelude::*;
use crate::error::TypeCheckErrorView;
use crate::python_type::PythonType;
use crate::syntax::{AnnotationView, ExprView, StatementView, StringFragmentView};

verus! {

/// What a checker knows at one moment.
pub struct CheckerState {
    /// The type on record for each variable that has one.
    pub bindings: Map<Seq<char>, PythonType>,
    /// The variables that a typed assignment has named at least once.
    pub explicit: Set<Seq<char>>,
    /// Whether every variable is held to its type, not only those in
    /// `explicit`.
    pub implicit_checking: bool,
}

/// What one step leaves behind: the state, and whether it went well.
pub type Outcome = (CheckerState, Result<(), TypeCheckErrorView>);

/// Whether a prefix marks a formatted string, whose value is computed
/// when the program runs: it holds the letter `f`, small or capital.
pub open spec fn is_formatted(prefix: Seq<char>) -> bool {
    prefix.contains('f') || prefix.contains('F')
}

/// Whether a string is a literal through and through: none of its
/// fragments is formatted.
pub open spec fn is_plain(fragments: Seq<StringFragmentView>) -> bool {
    forall|i: int| 0 <= i < fragments.len() ==> !is_formatted(#[trigger] fragments[i].prefix)
}

/// The type that the shape of a value gives away, if any.
pub open spec fn infer_type(value: ExprView) -> Option<PythonType> {
    match value {
        ExprView::Int(_) => Some(PythonType::Int),
        ExprView::Float => Some(PythonType::Float),
        ExprView::String(fragments) => if is_plain(fragments) {
            Some(PythonType::String)
        } else {
            None
        },
        ExprView::True => Some(PythonType::Bool),
        ExprView::False => Some(PythonType::Bool),
        ExprView::ListLiteral => Some(PythonType::List),
        ExprView::DictLiteral => Some(PythonType::Dict),
        ExprView::TupleLiteral => Some(PythonType::Tuple),
        ExprView::Name(_) => None,
        ExprView::Other => None,
    }
}

/// The contents of the fragments of a string, one after the other.
pub open spec fn joined(fragments: Seq<StringFragmentView>) -> Seq<char>
    decreases fragments.len(),
{
    if fragments.len() == 0 {
        Seq::empty()
    } else {
        joined(fragments.drop_last()) + fragments.last().content
    }
}

/// The text by which a message shows a literal value: an integer by its
/// digits, a string literal by its contents between single quotes. Other
/// values have none.
pub open spec fn literal_text(value: ExprView) -> Option<Seq<char>> {
    match value {
        ExprView::Int(digits) => Some(digits),
        ExprView::String(fragments) => if is_plain(fragments) {
            Some("'"@ + joined(fragments) + "'"@)
        } else {
            None
        },
        _ => None,
    }
}

/// The type that an annotation asks for, or the error that rejects it.
pub open spec fn resolve_annotation(annotation: AnnotationView) -> Result<
    PythonType,
    TypeCheckErrorView,
> {
    match annotation {
        AnnotationView::Name(name) => match PythonType::spec_from_name(name) {
            Some(t) => Ok(t),
            None => Err(TypeCheckErrorView::UnknownType(name)),
        },
        AnnotationView::Unsupported(raw) => Err(TypeCheckErrorView::UnsupportedAnnotation(raw)),
    }
}

/// Whether `name` is written as a bare name among `targets`.
pub open spec fn names(targets: Seq<ExprView>, name: Seq<char>) -> bool {
    targets.contains(ExprView::Name(name))
}

/// The state after a typed assignment has given every bare name among
/// `targets` the type `ty`: each is bound to `ty` and explicitly typed.
pub open spec fn bind_names(
    state: CheckerState,
    targets: Seq<ExprView>,
    ty: PythonType,
) -> CheckerState {
    CheckerState {
        bindings: Map::new(
            |name: Seq<char>| state.bindings.dom().contains(name) || names(targets, name),
            |name: Seq<char>|
                if names(targets, name) {
                    ty
                } else {
                    state.bindings[name]
                },
        ),
        explicit: Set::new(
            |name: Seq<char>| state.explicit.contains(name) || names(targets, name),
        ),
        implicit_checking: state.implicit_checking,
    }
}

/// The type that a later untyped assignment to `name` must fit: the type
/// on record, if the variable is explicitly typed or every variable is
/// checked.
pub open spec fn enforced_type(state: CheckerState, name: Seq<char>) -> Option<PythonType> {
    if (state.explicit.contains(name) || state.implicit_checking) && state.bindings.dom().contains(
        name,
    ) {
        Some(state.bindings[name])
    } else {
        None
    }
}

/// The state after an untyped assignment has given the bare names among
/// `targets` a value of type `ty`: a name that is held to a type keeps
/// that type, any other name takes `ty`.
pub open spec fn drift_names(
    state: CheckerState,
    targets: Seq<ExprView>,
    ty: PythonType,
) -> CheckerState {
    CheckerState {
        bindings: Map::new(
            |name: Seq<char>| state.bindings.dom().contains(name) || names(targets, name),
            |name: Seq<char>|
                if names(targets, name) && enforced_type(state, name) is None {
                    ty
                } else {
                    state.bindings[name]
                },
        ),
        explicit: state.explicit,
        implicit_checking: state.implicit_checking,
    }
}

/// Whether an untyped assignment of a value of type `inferred` to `target`
/// is refused.
pub open spec fn conflicts(state: CheckerState, target: ExprView, inferred: PythonType) -> bool {
    match target {
        ExprView::Name(name) => match enforced_type(state, name) {
            Some(expected) => !PythonType::spec_is_assignable(inferred, expected),
            None => false,
        },
        _ => false,
    }
}

/// The position of the first target that refuses the value, or the number
/// of targets if none does.
pub open spec fn first_conflict(
    state: CheckerState,
    targets: Seq<ExprView>,
    inferred: PythonType,
) -> int
    decreases targets.len(),
{
    if targets.len() == 0 {
        0
    } else if conflicts(state, targets[0], inferred) {
        0
    } else {
        1 + first_conflict(state, targets.drop_first(), inferred)
    }
}

/// What a typed assignment does.
///
/// The annotation is resolved first. Then the first value is held against
/// it, if the value has a type that can be inferred and the first target
/// is a bare name. If that goes well every bare name among the targets is
/// bound to the annotated type and becomes explicitly typed.
pub open spec fn typed_assignment(
    state: CheckerState,
    targets: Seq<ExprView>,
    annotation: AnnotationView,
    values: Seq<ExprView>,
) -> Outcome {
    match resolve_annotation(annotation) {
        Err(error) => (state, Err(error)),
        Ok(expected) => {
            if values.len() > 0 && targets.len() > 0 && typed_mismatch(
                targets[0],
                expected,
                values[0],
            ) is Some {
                (state, Err(typed_mismatch(targets[0], expected, values[0]).unwrap()))
            } else {
                (bind_names(state, targets, expected), Ok(()))
            }
        },
    }
}

/// The mismatch that a typed assignment of `value` to `target` reports,
/// if it reports one.
pub open spec fn typed_mismatch(
    target: ExprView,
    expected: PythonType,
    value: ExprView,
) -> Option<TypeCheckErrorView> {
    match (target, infer_type(value)) {
        (ExprView::Name(variable), Some(actual)) => {
            if PythonType::spec_is_assignable(actual, expected) {
                None
            } else {
                Some(
                    TypeCheckErrorView::TypeMismatch {
                        variable,
                        expected,
                        actual,
                        literal_value: literal_text(value),
                    },
                )
            }
        },
        _ => None,
    }
}

/// The value that an untyped assignment assigns: the first value of the
/// last group, if there is one.
pub open spec fn assigned_value(groups: Seq<Seq<ExprView>>) -> Option<ExprView> {
    if groups.len() > 0 && groups.last().len() > 0 {
        Some(groups.last()[0])
    } else {
        None
    }
}

/// What an untyped assignment does.
///
/// Without a value whose type can be inferred nothing happens. Otherwise
/// the targets are taken in order, until one refuses the value. A bare
/// name that is held to a type and accepts the value keeps its type; any
/// other bare name is bound to the inferred type. What the targets before
/// a refusal were given stays.
pub open spec fn untyped_assignment(
    state: CheckerState,
    targets: Seq<ExprView>,
    groups: Seq<Seq<ExprView>>,
) -> Outcome {
    match assigned_value(groups) {
        None => (state, Ok(())),
        Some(value) => match infer_type(value) {
            None => (state, Ok(())),
            Some(inferred) => {
                let stop = first_conflict(state, targets, inferred);
                let after = drift_names(state, targets.take(stop), inferred);
                if stop < targets.len() {
                    let variable = targets[stop]->Name_0;
                    (
                        after,
                        Err(
                            TypeCheckErrorView::TypeMismatch {
                                variable,
                                expected: state.bindings[variable],
                                actual: inferred,
                                literal_value: literal_text(value),
                            },
                        ),
                    )
                } else {
                    (after, Ok(()))
                }
            },
        },
    }
}

/// What one statement does.
pub open spec fn step(state: CheckerState, statement: StatementView) -> Outcome {
    match statement {
        StatementView::TypedAssignment { targets, annotation, values } => typed_assignment(
            state,
            targets,
            annotation,
            values,
        ),
        StatementView::Assignment { targets, groups } => untyped_assignment(state, targets, groups),
        StatementView::Other => (state, Ok(())),
    }
}

/// What a program does: its statements one after the other, up to and
/// including the first that fails.
pub open spec fn run(state: CheckerState, program: Seq<StatementView>) -> Outcome
    decreases program.len(),
{
    if program.len() == 0 {
        (state, Ok(()))
    } else {
        let (next, result) = step(state, program[0]);
        if result is Err {
            (next, result)
        } else {
            run(next, program.drop_first())
        }
    }
}

/// Joining one more fragment appends its content.
pub proof fn lemma_joined_take(fragments: Seq<StringFragmentView>, i: int)
    requires
        0 <= i < fragments.len(),
    ensures
        joined(fragments.take(i + 1)) == joined(fragments.take(i)) + fragments[i].content,
{
    assert(fragments.take(i + 1).drop_last() =~= fragments.take(i));
}

/// A name is written among the first `i + 1` targets if it is written
/// among the first `i` or is the target at `i`.
pub proof fn lemma_names_take(targets: Seq<ExprView>, i: int, name: Seq<char>)
    requires
        0 <= i < targets.len(),
    ensures
        names(targets.take(i + 1), name) == (names(targets.take(i), name) || targets[i]
            == ExprView::Name(name)),
{
    let wanted = ExprView::Name(name);
    let shorter = targets.take(i);
    let longer = targets.take(i + 1);
    if shorter.contains(wanted) {
        let j = choose|j: int| 0 <= j < shorter.len() && shorter[j] == wanted;
        assert(longer[j] == wanted);
    }
    if targets[i] == wanted {
        assert(longer[i] == wanted);
    }
    if longer.contains(wanted) {
        let j = choose|j: int| 0 <= j < longer.len() && longer[j] == wanted;
        if j < i {
            assert(shorter[j] == wanted);
        }
    }
}

/// Binding the first `i + 1` targets is binding the first `i` and then
/// the target at `i`, if that is a bare name.
pub proof fn lemma_bind_names_take(
    state: CheckerState,
    targets: Seq<ExprView>,
    i: int,
    ty: PythonType,
)
    requires
        0 <= i < targets.len(),
    ensures
        ({
            let before = bind_names(state, targets.take(i), ty);
            let after = bind_names(state, targets.take(i + 1), ty);
            match targets[i] {
                ExprView::Name(name) => {
                    &&& after.bindings == before.bindings.insert(name, ty)
                    &&& after.explicit == before.explicit.insert(name)
                    &&& after.implicit_checking == before.implicit_checking
                },
                _ => after == before,
            }
        }),
{
    let before = bind_names(state, targets.take(i), ty);
    let after = bind_names(state, targets.take(i + 1), ty);
    let wanted_bindings = match targets[i] {
        ExprView::Name(name) => before.bindings.insert(name, ty),
        _ => before.bindings,
    };
    let wanted_explicit = match targets[i] {
        ExprView::Name(name) => before.explicit.insert(name),
        _ => before.explicit,
    };
    assert forall|key: Seq<char>| #[trigger]
        after.bindings.dom().contains(key) == wanted_bindings.dom().contains(key) by {
        lemma_names_take(targets, i, key);
    }
    assert forall|key: Seq<char>| after.bindings.dom().contains(key) implies #[trigger]
        after.bindings[key] == wanted_bindings[key] by {
        lemma_names_take(targets, i, key);
    }
    assert forall|key: Seq<char>| after.explicit.contains(key) == wanted_explicit.contains(key) by {
        lemma_names_take(targets, i, key);
    }
    assert(after.bindings =~= wanted_bindings);
    assert(after.explicit =~= wanted_explicit);
}

/// Binding no targets changes nothing.
pub proof fn lemma_bind_names_none(state: CheckerState, ty: PythonType)
    ensures
        bind_names(state, Seq::<ExprView>::empty(), ty) == state,
{
    let after = bind_names(state, Seq::<ExprView>::empty(), ty);
    assert(after.bindings =~= state.bindings);
    assert(after.explicit =~= state.explicit);
}

/// Giving no targets a value changes nothing.
pub proof fn lemma_drift_names_none(state: CheckerState, ty: PythonType)
    ensures
        drift_names(state, Seq::<ExprView>::empty(), ty) == state,
{
    let after = drift_names(state, Seq::<ExprView>::empty(), ty);
    assert(after.bindings =~= state.bindings);
}

/// What a name is held to after the first `i` targets were given a value:
/// the type it was held to before, if any; else the type of the value, if
/// it is among those targets and now counts as held.
pub proof fn lemma_enforced_after_drift(
    state: CheckerState,
    targets: Seq<ExprView>,
    i: int,
    ty: PythonType,
    name: Seq<char>,
)
    requires
        0 <= i <= targets.len(),
    ensures
        ({
            let current = drift_names(state, targets.take(i), ty);
            match enforced_type(state, name) {
                Some(held) => enforced_type(current, name) == Some(held),
                None => enforced_type(current, name) is Some ==> {
                    &&& names(targets.take(i), name)
                    &&& enforced_type(current, name) == Some(ty)
                },
            }
        }),
{
}

/// Giving the first `i + 1` targets a value is giving it to the first `i`
/// and then to the target at `i`: a bare name that is held to no type by
/// then is bound to the type of the value, and nothing else changes.
pub proof fn lemma_drift_names_take(
    state: CheckerState,
    targets: Seq<ExprView>,
    i: int,
    ty: PythonType,
)
    requires
        0 <= i < targets.len(),
    ensures
        ({
            let before = drift_names(state, targets.take(i), ty);
            let after = drift_names(state, targets.take(i + 1), ty);
            match targets[i] {
                ExprView::Name(name) => if enforced_type(before, name) is None {
                    &&& after.bindings == before.bindings.insert(name, ty)
                    &&& after.explicit == before.explicit
                    &&& after.implicit_checking == before.implicit_checking
                } else {
                    after == before
                },
                _ => after == before,
            }
        }),
{
    let before = drift_names(state, targets.take(i), ty);
    let after = drift_names(state, targets.take(i + 1), ty);
    let wanted = match targets[i] {
        ExprView::Name(name) => if enforced_type(before, name) is None {
            before.bindings.insert(name, ty)
        } else {
            before.bindings
        },
        _ => before.bindings,
    };
    if let ExprView::Name(name) = targets[i] {
        lemma_enforced_after_drift(state, targets, i, ty, name);
    }
    assert forall|key: Seq<char>| #[trigger]
        after.bindings.dom().contains(key) == wanted.dom().contains(key) by {
        lemma_names_take(targets, i, key);
    }
    assert forall|key: Seq<char>| after.bindings.dom().contains(key) implies #[trigger]
        after.bindings[key] == wanted[key] by {
        lemma_names_take(targets, i, key);
    }
    assert(after.bindings =~= wanted);
}

/// The first conflict is the one position that refuses the value while
/// no position before it does.
pub proof fn lemma_first_conflict(
    state: CheckerState,
    targets: Seq<ExprView>,
    inferred: PythonType,
    stop: int,
)
    requires
        0 <= stop <= targets.len(),
        forall|j: int| 0 <= j < stop ==> !conflicts(state, #[trigger] targets[j], inferred),
        stop < targets.len() ==> conflicts(state, targets[stop], inferred),
    ensures
        first_conflict(state, targets, inferred) == stop,
    decreases targets.len(),
{
    if targets.len() > 0 && stop > 0 {
        let rest = targets.drop_first();
        assert forall|j: int| 0 <= j < stop - 1 implies !conflicts(
            state,
            #[trigger] rest[j],
            inferred,
        ) by {
            assert(rest[j] == targets[j + 1]);
        }
        lemma_first_conflict(state, rest, inferred, stop - 1);
    }
}

/// The target at `i` meets the same answer in the state reached after
/// the first `i` targets as in the state the assignment began with, and
/// where it refuses the value it is held to the same type in both.
pub proof fn lemma_conflict_is_stable(
    state: CheckerState,
    targets: Seq<ExprView>,
    inferred: PythonType,
    i: int,
)
    requires
        0 <= i < targets.len(),
    ensures
        ({
            let current = drift_names(state, targets.take(i), inferred);
            &&& conflicts(current, targets[i], inferred) == conflicts(state, targets[i], inferred)
            &&& conflicts(state, targets[i], inferred) ==> enforced_type(
                current,
                targets[i]->Name_0,
            ) == enforced_type(state, targets[i]->Name_0)
        }),
{
    if let ExprView::Name(name) = targets[i] {
        lemma_enforced_after_drift(state, targets, i, inferred, name);
    }
}

} // verus!
