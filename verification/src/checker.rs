//! The checker: the state it keeps and the statements it takes.

use vstd::prelude::*;
use vstd::string::*;
use crate::bindings::{lists, Bindings};
use crate::error::{result_view, TypeCheckError, TypeCheckErrorView, TypeCheckResult};
use crate::laws::explicit_are_bound;
use crate::parser::{program_of, read_program};
use crate::python_type::PythonType;
use crate::rules::{
    assigned_value, bind_names, conflicts, drift_names, enforced_type, infer_type, is_formatted,
    is_plain, joined, lemma_bind_names_none, lemma_bind_names_take, lemma_conflict_is_stable,
    lemma_drift_names_none, lemma_drift_names_take, lemma_first_conflict, lemma_joined_take,
    literal_text, resolve_annotation, run, step, typed_assignment, untyped_assignment,
    CheckerState, Outcome,
};
use crate::syntax::{Annotation, Expr, ExprView, Statement, StringFragment, StringFragmentView};

verus! {

/// A type checker for the top-level assignments of one program.
///
/// It keeps the type of every variable that an accepted assignment has
/// bound, and remembers which variables a typed assignment has named.
pub struct TypeChecker {
    table: Bindings,
    including_implicit: bool,
}

/// What the analysis of a source text does: nothing but report why the
/// text is no program if it is none, and otherwise what the program does.
pub open spec fn analysis(state: CheckerState, source: Seq<char>) -> Outcome {
    match program_of(source) {
        Ok(program) => run(state, program),
        Err(detail) => (state, Err(TypeCheckErrorView::ParseError(detail))),
    }
}

impl View for TypeChecker {
    type V = CheckerState;

    closed spec fn view(&self) -> CheckerState {
        CheckerState {
            bindings: self.table.bindings(),
            explicit: self.table.explicit(),
            implicit_checking: self.including_implicit,
        }
    }
}

impl TypeChecker {
    /// A checker that knows no variable and holds only explicitly typed
    /// variables to their type.
    pub fn new() -> (checker: TypeChecker)
        ensures
            checker@ == (CheckerState {
                bindings: Map::empty(),
                explicit: Set::empty(),
                implicit_checking: false,
            }),
    {
        TypeChecker { table: Bindings::new(), including_implicit: false }
    }

    /// The same checker, holding every variable to its type from now on.
    pub fn with_implicit_checking(self) -> (checker: TypeChecker)
        ensures
            checker@ == (CheckerState { implicit_checking: true, ..self@ }),
    {
        let mut checker = self;
        checker.including_implicit = true;
        checker
    }

    /// In every checker, each explicitly typed variable has a type on
    /// record.
    pub proof fn lemma_explicit_are_bound(&self)
        ensures
            explicit_are_bound(self@),
    {
        self.table.lemma_explicit_is_bound();
    }

    /// The type on record for `name`, if it has one.
    pub fn get_variable_type(&self, name: &str) -> (found: Option<&PythonType>)
        ensures
            match found {
                Some(ty) => self@.bindings.dom().contains(name@) && *ty == self@.bindings[name@],
                None => !self@.bindings.dom().contains(name@),
            },
    {
        self.table.get(name)
    }

    /// Every variable with the type on record for it.
    pub fn get_all_variables(&self) -> (variables: Vec<(String, PythonType)>)
        ensures
            lists(variables@, self@.bindings),
    {
        self.table.to_vec()
    }

    /// The type that a later untyped assignment to `name` must fit.
    pub fn get_enforced_type(&self, name: &str) -> (found: Option<&PythonType>)
        ensures
            match found {
                Some(ty) => enforced_type(self@, name@) == Some(*ty),
                None => enforced_type(self@, name@) is None,
            },
    {
        if self.table.is_explicit(name) || self.including_implicit {
            self.table.get(name)
        } else {
            None
        }
    }

    /// The type that an annotation asks for.
    pub fn parse_type_annotation(annotation: &Annotation) -> (resolved: TypeCheckResult<
        PythonType,
    >)
        ensures
            match resolved {
                Ok(ty) => resolve_annotation(annotation@) == Ok::<PythonType, TypeCheckErrorView>(
                    ty,
                ),
                Err(error) => resolve_annotation(annotation@) == Err::<
                    PythonType,
                    TypeCheckErrorView,
                >(error@),
            },
    {
        match annotation {
            Annotation::Name(wanted) => match PythonType::from_name(wanted.as_str()) {
                Some(ty) => Ok(ty),
                None => Err(TypeCheckError::UnknownType(wanted.clone())),
            },
            Annotation::Unsupported(raw) => Err(TypeCheckError::UnsupportedAnnotation(raw.clone())),
        }
    }

    /// The type that the shape of a value gives away, if any.
    pub fn infer_type_from_expression(expr: &Expr) -> (inferred: Option<PythonType>)
        ensures
            inferred == infer_type(expr@),
    {
        match expr {
            Expr::Int(_) => Some(PythonType::Int),
            Expr::Float => Some(PythonType::Float),
            Expr::String(fragments) => if is_plain_string(fragments) {
                Some(PythonType::String)
            } else {
                None
            },
            Expr::True | Expr::False => Some(PythonType::Bool),
            Expr::ListLiteral => Some(PythonType::List),
            Expr::DictLiteral => Some(PythonType::Dict),
            Expr::TupleLiteral => Some(PythonType::Tuple),
            _ => None,
        }
    }

    /// The text by which a message shows a literal value.
    pub fn get_literal_value(expr: &Expr) -> (literal: Option<String>)
        ensures
            match literal {
                Some(text) => literal_text(expr@) == Some(text@),
                None => literal_text(expr@) is None,
            },
    {
        match expr {
            Expr::Int(digits) => Some(digits.clone()),
            Expr::String(fragments) => {
                if !is_plain_string(fragments) {
                    return None;
                }
                let ghost parts = fragments.deep_view();
                let mut text = "'".to_owned();
                let mut i: usize = 0;
                assert(parts.take(0) =~= Seq::<StringFragmentView>::empty());
                while i < fragments.len()
                    invariant
                        i <= fragments.len(),
                        parts == fragments.deep_view(),
                        text@ == "'"@ + joined(parts.take(i as int)),
                    decreases fragments.len() - i,
                {
                    proof {
                        lemma_joined_take(parts, i as int);
                    }
                    text.append(fragments[i].content.as_str());
                    i += 1;
                }
                assert(parts.take(i as int) =~= parts);
                text.append("'");
                Some(text)
            },
            _ => None,
        }
    }

    /// Takes a typed assignment `targets: annotation = values`.
    pub fn handle_typed_assignment(
        &mut self,
        target: Vec<Expr>,
        annotation: Annotation,
        values: Vec<Expr>,
    ) -> (result: TypeCheckResult<()>)
        ensures
            (final(self)@, result_view(result)) == typed_assignment(
                old(self)@,
                target.deep_view(),
                annotation@,
                values.deep_view(),
            ),
    {
        let expected_type = match Self::parse_type_annotation(&annotation) {
            Ok(ty) => ty,
            Err(error) => {
                return Err(error);
            },
        };
        let ghost targets = target.deep_view();
        if values.len() > 0 && target.len() > 0 {
            match (&target[0], Self::infer_type_from_expression(&values[0])) {
                (Expr::Name(var_name), Some(actual_type)) => {
                    if !PythonType::is_assignable(actual_type, expected_type) {
                        let literal_value = Self::get_literal_value(&values[0]);
                        return Err(
                            TypeCheckError::TypeMismatch {
                                variable: var_name.clone(),
                                expected: expected_type,
                                actual: actual_type,
                                literal_value,
                            },
                        );
                    }
                },
                _ => {},
            }
        }
        let mut i: usize = 0;
        proof {
            assert(targets.take(0) =~= Seq::<ExprView>::empty());
            lemma_bind_names_none(self@, expected_type);
        }
        while i < target.len()
            invariant
                i <= target.len(),
                targets == target.deep_view(),
                self@ == bind_names(old(self)@, targets.take(i as int), expected_type),
            decreases target.len() - i,
        {
            proof {
                lemma_bind_names_take(old(self)@, targets, i as int, expected_type);
            }
            match &target[i] {
                Expr::Name(name) => {
                    self.table.bind(name.clone(), expected_type, true);
                },
                _ => {},
            }
            i += 1;
        }
        assert(targets.take(i as int) =~= targets);
        Ok(())
    }

    /// Takes an untyped assignment `targets = group = ... = group`.
    pub fn handle_untyped_assignment(
        &mut self,
        lhs: Vec<Expr>,
        rhs_list: Vec<Vec<Expr>>,
    ) -> (result: TypeCheckResult<()>)
        ensures
            (final(self)@, result_view(result)) == untyped_assignment(
                old(self)@,
                lhs.deep_view(),
                rhs_list.deep_view(),
            ),
    {
        if rhs_list.len() == 0 {
            return Ok(());
        }
        let last = &rhs_list[rhs_list.len() - 1];
        if last.len() == 0 {
            return Ok(());
        }
        let value = &last[0];
        assert(assigned_value(rhs_list.deep_view()) == Some(value@));
        let inferred_type = match Self::infer_type_from_expression(value) {
            Some(ty) => ty,
            None => {
                return Ok(());
            },
        };
        let ghost targets = lhs.deep_view();
        let mut i: usize = 0;
        proof {
            assert(targets.take(0) =~= Seq::<ExprView>::empty());
            lemma_drift_names_none(self@, inferred_type);
        }
        while i < lhs.len()
            invariant
                i <= lhs.len(),
                targets == lhs.deep_view(),
                self@ == drift_names(old(self)@, targets.take(i as int), inferred_type),
                forall|j: int|
                    0 <= j < i ==> !conflicts(old(self)@, #[trigger] targets[j], inferred_type),
                assigned_value(rhs_list.deep_view()) == Some(value@),
                infer_type(value@) == Some(inferred_type),
            decreases lhs.len() - i,
        {
            proof {
                lemma_drift_names_take(old(self)@, targets, i as int, inferred_type);
                lemma_conflict_is_stable(old(self)@, targets, inferred_type, i as int);
            }
            match &lhs[i] {
                Expr::Name(name) => {
                    match self.get_enforced_type(name.as_str()) {
                        Some(existing_type) => {
                            if !PythonType::is_assignable(inferred_type, *existing_type) {
                                let expected = *existing_type;
                                proof {
                                    lemma_first_conflict(
                                        old(self)@,
                                        targets,
                                        inferred_type,
                                        i as int,
                                    );
                                }
                                return Err(
                                    TypeCheckError::TypeMismatch {
                                        variable: name.clone(),
                                        expected,
                                        actual: inferred_type,
                                        literal_value: Self::get_literal_value(value),
                                    },
                                );
                            }
                        },
                        None => {
                            self.table.bind(name.clone(), inferred_type, false);
                        },
                    }
                },
                _ => {},
            }
            i += 1;
        }
        proof {
            lemma_first_conflict(old(self)@, targets, inferred_type, i as int);
            assert(targets.take(i as int) =~= targets);
        }
        Ok(())
    }

    /// Takes one statement. A statement that is no assignment is passed
    /// over.
    pub fn process_statement(&mut self, statement: Statement) -> (result: TypeCheckResult<()>)
        ensures
            (final(self)@, result_view(result)) == step(old(self)@, statement@),
    {
        match statement {
            Statement::TypedAssignment { targets, annotation, values } => {
                self.handle_typed_assignment(targets, annotation, values)
            },
            Statement::Assignment { targets, groups } => {
                self.handle_untyped_assignment(targets, groups)
            },
            Statement::Other => Ok(()),
        }
    }

    /// Takes a program, statement by statement, and stops at the first
    /// statement that fails. What the statements before it have bound
    /// stays on record.
    pub fn analyze_statements(&mut self, program: Vec<Statement>) -> (result: TypeCheckResult<()>)
        ensures
            (final(self)@, result_view(result)) == run(old(self)@, program.deep_view()),
    {
        let ghost statements = program.deep_view();
        assert(statements.skip(0) =~= statements);
        for statement in it: program
            invariant
                statements == program.deep_view(),
                it.seq().len() == statements.len(),
                forall|j: int|
                    0 <= j < statements.len() ==> (#[trigger] it.seq()[j])@ == statements[j],
                run(old(self)@, statements) == run(self@, statements.skip(it.index() as int)),
        {
            let ghost i = it.index() as int;
            assert(statements.skip(i).drop_first() =~= statements.skip(i + 1));
            assert(statements.skip(i)[0] == statement@);
            match self.process_statement(statement) {
                Ok(_) => {},
                Err(error) => {
                    return Err(error);
                },
            }
        }
        Ok(())
    }

    /// Parses a source text and takes its statements in order, up to the
    /// first that fails.
    pub fn analyze_source(&mut self, python_source: &str) -> (result: TypeCheckResult<()>)
        ensures
            (final(self)@, result_view(result)) == analysis(old(self)@, python_source@),
    {
        match read_program(python_source) {
            Ok(program) => self.analyze_statements(program),
            Err(detail) => Err(TypeCheckError::ParseError(detail)),
        }
    }
}

/// Whether a prefix marks a formatted string.
fn has_format_prefix(prefix: &str) -> (formatted: bool)
    ensures
        formatted == is_formatted(prefix@),
{
    let mut found = false;
    for c in it: prefix.chars()
        invariant
            it.seq() == prefix@,
            found == (exists|j: int|
                0 <= j < it.index() && (prefix@[j] == 'f' || prefix@[j] == 'F')),
    {
        if c == 'f' || c == 'F' {
            found = true;
        }
    }
    found
}

/// Whether none of the fragments of a string is formatted.
fn is_plain_string(fragments: &Vec<StringFragment>) -> (plain: bool)
    ensures
        plain == is_plain(fragments.deep_view()),
{
    let mut i: usize = 0;
    while i < fragments.len()
        invariant
            i <= fragments.len(),
            forall|j: int| 0 <= j < i ==> !is_formatted(#[trigger] fragments.deep_view()[j].prefix),
        decreases fragments.len() - i,
    {
        if has_format_prefix(fragments[i].prefix.as_str()) {
            assert(is_formatted(fragments.deep_view()[i as int].prefix));
            return false;
        }
        i += 1;
    }
    true
}

impl Default for TypeChecker {
    fn default() -> (checker: TypeChecker)
        ensures
            checker@ == (CheckerState {
                bindings: Map::empty(),
                explicit: Set::empty(),
                implicit_checking: false,
            }),
    {
        Self::new()
    }
}

} // verus!
