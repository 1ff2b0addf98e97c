//! From source text to statements.
//!
//! Reading source text is the work of the `python_parser` crate. This
//! module calls it and turns the tree it returns into the statements of
//! [`crate::syntax`]. The calls into the parser are the only code of the
//! library that is not verified; each says below what is taken on trust.
//! A text on which the parser would stop the program never reaches it:
//! see [`crate::screening`].

use vstd::prelude::*;
use python_parser::ast;
use crate::screening::{find_refusal, parser_takes, refusal};
use crate::syntax::{
    Annotation, AnnotationView, Expr, ExprView, Statement, StatementView, StringFragment,
};

verus! {

/// An expression as the parser built it. Nothing of it is visible to the
/// verifier; the checker reads it through [`lower_expression`] and
/// [`lower_annotation`].
#[verifier::external_type_specification]
#[verifier::external_body]
pub struct ExExpression(python_parser::ast::Expression);

/// A top-level statement as the parser built it, split into the parts
/// that the checker follows. The expressions are still the parser's own.
pub enum ParsedStatement {
    /// `targets: annotation = values`
    TypedAssignment(Vec<ast::Expression>, ast::Expression, Vec<ast::Expression>),
    /// `targets = group = ... = group`
    Assignment(Vec<ast::Expression>, Vec<Vec<ast::Expression>>),
    /// Any other statement.
    Other,
}

/// What the parser makes of a source text: the top-level statements in
/// order, or its account of why the text is no program.
pub uninterp spec fn parsed_source(source: Seq<char>) -> Result<Seq<ParsedStatement>, Seq<char>>;

/// What [`lower_expression`] makes of an expression of the parser.
pub uninterp spec fn expression_model(expression: ast::Expression) -> ExprView;

/// What [`lower_annotation`] makes of an expression of the parser.
pub uninterp spec fn annotation_model(expression: ast::Expression) -> AnnotationView;

/// Parses a source text with `python_parser::file_input`. On success the
/// statements come in source order, each split by its variant; on failure
/// the text is the parser's error in its debug form.
///
/// Taken on trust: on a text that [`parser_takes`] admits the parser
/// returns, and the outcome depends on the text alone, so that it has a
/// name, [`parsed_source`]. The parser recurses on nested syntax; how
/// deep a text may nest before the stack is spent is a limit of the
/// machine and is not stated.
#[verifier::external_body]
fn parse_source(source: &str) -> (parsed: Result<Vec<ParsedStatement>, String>)
    requires
        parser_takes(source@),
    ensures
        match parsed {
            Ok(statements) => parsed_source(source@) == Ok::<Seq<ParsedStatement>, Seq<char>>(
                statements@,
            ),
            Err(detail) => parsed_source(source@) == Err::<Seq<ParsedStatement>, Seq<char>>(
                detail@,
            ),
        },
{
    match python_parser::file_input(python_parser::make_strspan(source)) {
        Ok((_, statements)) => Ok(statements.into_iter().map(|statement| match statement {
            ast::Statement::TypedAssignment(t, a, v) => ParsedStatement::TypedAssignment(t, a, v),
            ast::Statement::Assignment(t, g) => ParsedStatement::Assignment(t, g),
            _ => ParsedStatement::Other,
        }).collect()),
        Err(error) => Err(format!("{error:?}")),
    }
}

/// Tells the variants of `python_parser::ast::Expression` apart. A name
/// keeps its text, an integer its decimal digits, a string the prefix and
/// the contents of each fragment; the other literals keep their kind
/// only, and every other expression is [`Expr::Other`].
///
/// Taken on trust: the result depends on the expression alone, so that it
/// has a name, [`expression_model`].
#[verifier::external_body]
fn lower_expression(expression: &ast::Expression) -> (lowered: Expr)
    ensures
        lowered@ == expression_model(*expression),
{
    match expression {
        ast::Expression::Name(name) => Expr::Name(name.clone()),
        ast::Expression::Int(value) => Expr::Int(value.to_string()),
        ast::Expression::Float(_) => Expr::Float,
        ast::Expression::String(parts) => Expr::String(parts.iter().map(|part| StringFragment {
            prefix: part.prefix.clone(),
            content: part.content.to_string_lossy().into_owned(),
        }).collect()),
        ast::Expression::True => Expr::True,
        ast::Expression::False => Expr::False,
        ast::Expression::ListLiteral(_) => Expr::ListLiteral,
        ast::Expression::DictLiteral(_) => Expr::DictLiteral,
        ast::Expression::TupleLiteral(_) => Expr::TupleLiteral,
        _ => Expr::Other,
    }
}

/// Reads a `python_parser::ast::Expression` as an annotation. A bare
/// name keeps its text; anything else is kept in its debug form.
///
/// Taken on trust: the result depends on the expression alone, so that it
/// has a name, [`annotation_model`].
#[verifier::external_body]
fn lower_annotation(expression: &ast::Expression) -> (lowered: Annotation)
    ensures
        lowered@ == annotation_model(*expression),
{
    match expression {
        ast::Expression::Name(name) => Annotation::Name(name.clone()),
        other => Annotation::Unsupported(format!("{other:?}")),
    }
}

/// The expressions of a list, each as the checker reads it.
pub open spec fn expression_models(expressions: Seq<ast::Expression>) -> Seq<ExprView> {
    expressions.map_values(|expression: ast::Expression| expression_model(expression))
}

/// The statement that the checker reads in a parsed statement.
pub open spec fn statement_model(parsed: ParsedStatement) -> StatementView {
    match parsed {
        ParsedStatement::TypedAssignment(targets, annotation, values) => {
            StatementView::TypedAssignment {
                targets: expression_models(targets@),
                annotation: annotation_model(annotation),
                values: expression_models(values@),
            }
        },
        ParsedStatement::Assignment(targets, groups) => StatementView::Assignment {
            targets: expression_models(targets@),
            groups: groups@.map_values(|group: Vec<ast::Expression>| expression_models(group@)),
        },
        ParsedStatement::Other => StatementView::Other,
    }
}

/// The program that a source text stands for, or why it stands for none:
/// the reason for which the text is turned away before the parser sees
/// it, or else the parser's account.
pub open spec fn program_of(source: Seq<char>) -> Result<Seq<StatementView>, Seq<char>> {
    match refusal(source) {
        Some(reason) => Err(reason),
        None => match parsed_source(source) {
            Ok(statements) => Ok(
                statements.map_values(|parsed: ParsedStatement| statement_model(parsed)),
            ),
            Err(detail) => Err(detail),
        },
    }
}

/// Lowers a list of expressions, one by one.
fn lower_expressions(expressions: &Vec<ast::Expression>) -> (lowered: Vec<Expr>)
    ensures
        lowered.deep_view() == expression_models(expressions@),
{
    let mut lowered: Vec<Expr> = Vec::new();
    let mut i: usize = 0;
    while i < expressions.len()
        invariant
            i <= expressions.len(),
            lowered.len() == i,
            forall|j: int|
                0 <= j < i ==> (#[trigger] lowered[j])@ == expression_model(expressions[j]),
        decreases expressions.len() - i,
    {
        lowered.push(lower_expression(&expressions[i]));
        i += 1;
    }
    assert(lowered.deep_view() =~= expression_models(expressions@));
    lowered
}

/// Lowers the value groups of an assignment, one by one.
fn lower_groups(groups: &Vec<Vec<ast::Expression>>) -> (lowered: Vec<Vec<Expr>>)
    ensures
        lowered.deep_view() == groups@.map_values(
            |group: Vec<ast::Expression>| expression_models(group@),
        ),
{
    let mut lowered: Vec<Vec<Expr>> = Vec::new();
    let mut i: usize = 0;
    while i < groups.len()
        invariant
            i <= groups.len(),
            lowered.len() == i,
            forall|j: int|
                0 <= j < i ==> (#[trigger] lowered[j]).deep_view() == expression_models(groups[j]@),
        decreases groups.len() - i,
    {
        lowered.push(lower_expressions(&groups[i]));
        i += 1;
    }
    assert(lowered.deep_view() =~= groups@.map_values(
        |group: Vec<ast::Expression>| expression_models(group@),
    ));
    lowered
}

/// Lowers one parsed statement.
fn lower_statement(parsed: &ParsedStatement) -> (lowered: Statement)
    ensures
        lowered@ == statement_model(*parsed),
{
    match parsed {
        ParsedStatement::TypedAssignment(targets, annotation, values) => {
            Statement::TypedAssignment {
                targets: lower_expressions(targets),
                annotation: lower_annotation(annotation),
                values: lower_expressions(values),
            }
        },
        ParsedStatement::Assignment(targets, groups) => Statement::Assignment {
            targets: lower_expressions(targets),
            groups: lower_groups(groups),
        },
        ParsedStatement::Other => Statement::Other,
    }
}

/// Reads a source text as a program: the statements that the checker
/// takes, or why the text is no program. A text that the parser cannot be
/// given is turned away without a call of the parser.
pub fn read_program(source: &str) -> (program: Result<Vec<Statement>, String>)
    ensures
        match program {
            Ok(statements) => program_of(source@) == Ok::<Seq<StatementView>, Seq<char>>(
                statements.deep_view(),
            ),
            Err(detail) => program_of(source@) == Err::<Seq<StatementView>, Seq<char>>(detail@),
        },
{
    match find_refusal(source) {
        Some(reason) => {
            return Err(reason);
        },
        None => {},
    }
    let parsed = match parse_source(source) {
        Ok(parsed) => parsed,
        Err(detail) => {
            return Err(detail);
        },
    };
    let mut statements: Vec<Statement> = Vec::new();
    let mut i: usize = 0;
    while i < parsed.len()
        invariant
            i <= parsed.len(),
            statements.len() == i,
            forall|j: int| 0 <= j < i ==> (#[trigger] statements[j])@ == statement_model(parsed[j]),
        decreases parsed.len() - i,
    {
        statements.push(lower_statement(&parsed[i]));
        i += 1;
    }
    assert(statements.deep_view() =~= parsed@.map_values(
        |parsed: ParsedStatement| statement_model(parsed),
    ));
    Ok(statements)
}

} // verus!
