//! The shapes of statements and expressions that the checker reads.
//!
//! A program reaches the checker as a sequence of [`Statement`]s. Only
//! what the rules look at is kept: which kind of literal a value is, the
//! text of a name, of an integer and of a string, and the annotation of a
//! typed assignment.

use vstd::prelude::*;

verus! {

/// One fragment of a string literal: `r"a\d"` has the prefix `r`, a
/// plain `"abc"` the empty prefix.
#[derive(Debug, PartialEq, Eq)]
pub struct StringFragment {
    /// The letters in front of the opening quote.
    pub prefix: String,
    /// What the fragment holds, escapes resolved.
    pub content: String,
}

/// The mathematical value of a [`StringFragment`].
pub struct StringFragmentView {
    pub prefix: Seq<char>,
    pub content: Seq<char>,
}

impl View for StringFragment {
    type V = StringFragmentView;

    open spec fn view(&self) -> StringFragmentView {
        StringFragmentView { prefix: self.prefix@, content: self.content@ }
    }
}

impl DeepView for StringFragment {
    type V = StringFragmentView;

    open spec fn deep_view(&self) -> StringFragmentView {
        self@
    }
}

/// An expression, as far as the checker tells expressions apart.
#[derive(Debug, PartialEq, Eq)]
pub enum Expr {
    /// A bare name.
    Name(String),
    /// An integer literal, with its decimal digits.
    Int(String),
    /// A floating-point literal.
    Float,
    /// A string literal: its adjacent fragments, in order.
    String(Vec<StringFragment>),
    /// The literal `True`.
    True,
    /// The literal `False`.
    False,
    /// A list display.
    ListLiteral,
    /// A dict display.
    DictLiteral,
    /// A tuple display.
    TupleLiteral,
    /// Anything else: a call, an operation, a comprehension and so on.
    Other,
}

/// The mathematical value of an [`Expr`].
pub enum ExprView {
    Name(Seq<char>),
    Int(Seq<char>),
    Float,
    String(Seq<StringFragmentView>),
    True,
    False,
    ListLiteral,
    DictLiteral,
    TupleLiteral,
    Other,
}

impl View for Expr {
    type V = ExprView;

    open spec fn view(&self) -> ExprView {
        match self {
            Expr::Name(name) => ExprView::Name(name@),
            Expr::Int(digits) => ExprView::Int(digits@),
            Expr::Float => ExprView::Float,
            Expr::String(fragments) => ExprView::String(fragments.deep_view()),
            Expr::True => ExprView::True,
            Expr::False => ExprView::False,
            Expr::ListLiteral => ExprView::ListLiteral,
            Expr::DictLiteral => ExprView::DictLiteral,
            Expr::TupleLiteral => ExprView::TupleLiteral,
            Expr::Other => ExprView::Other,
        }
    }
}

impl DeepView for Expr {
    type V = ExprView;

    open spec fn deep_view(&self) -> ExprView {
        self@
    }
}

/// The annotation of a typed assignment.
#[derive(Debug, PartialEq, Eq)]
pub enum Annotation {
    /// A bare name, which may or may not be the name of a known type.
    Name(String),
    /// Any other expression, with the text that stands for it in
    /// messages. For a statement read from source text this is the
    /// parser's debug rendering of the expression.
    Unsupported(String),
}

/// The mathematical value of an [`Annotation`].
pub enum AnnotationView {
    Name(Seq<char>),
    Unsupported(Seq<char>),
}

impl View for Annotation {
    type V = AnnotationView;

    open spec fn view(&self) -> AnnotationView {
        match self {
            Annotation::Name(name) => AnnotationView::Name(name@),
            Annotation::Unsupported(raw) => AnnotationView::Unsupported(raw@),
        }
    }
}

/// A top-level statement.
#[derive(Debug, PartialEq, Eq)]
pub enum Statement {
    /// `targets: annotation = values`
    TypedAssignment { targets: Vec<Expr>, annotation: Annotation, values: Vec<Expr> },
    /// `targets = group = ... = group`, each group a list of values; also
    /// a bare expression statement, which has no group at all.
    Assignment { targets: Vec<Expr>, groups: Vec<Vec<Expr>> },
    /// Any statement that assigns nothing the checker follows.
    Other,
}

/// The mathematical value of a [`Statement`].
pub enum StatementView {
    TypedAssignment {
        targets: Seq<ExprView>,
        annotation: AnnotationView,
        values: Seq<ExprView>,
    },
    Assignment { targets: Seq<ExprView>, groups: Seq<Seq<ExprView>> },
    Other,
}

impl View for Statement {
    type V = StatementView;

    open spec fn view(&self) -> StatementView {
        match self {
            Statement::TypedAssignment { targets, annotation, values } => {
                StatementView::TypedAssignment {
                    targets: targets.deep_view(),
                    annotation: annotation@,
                    values: values.deep_view(),
                }
            },
            Statement::Assignment { targets, groups } => StatementView::Assignment {
                targets: targets.deep_view(),
                groups: groups.deep_view(),
            },
            Statement::Other => StatementView::Other,
        }
    }
}

impl DeepView for Statement {
    type V = StatementView;

    open spec fn deep_view(&self) -> StatementView {
        self@
    }
}

} // verus!
