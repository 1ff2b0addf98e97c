//! The ways in which an analysis can end without success.

use vstd::prelude::*;
use vstd::string::*;
use crate::python_type::PythonType;

verus! {

/// The one error that ends a failed analysis.
#[derive(Debug)]
pub enum TypeCheckError {
    /// The source could not be read as a program at all; the text is the
    /// parser's own account of what went wrong.
    ParseError(String),
    /// An annotation that is not a bare name, with its raw text.
    UnsupportedAnnotation(String),
    /// A name in annotation position that is no known type.
    UnknownType(String),
    /// A value whose type does not fit the type expected of the variable.
    TypeMismatch {
        variable: String,
        expected: PythonType,
        actual: PythonType,
        literal_value: Option<String>,
    },
}

/// The result of a check.
pub type TypeCheckResult<T> = Result<T, TypeCheckError>;

/// The mathematical value of a [`TypeCheckError`].
pub enum TypeCheckErrorView {
    ParseError(Seq<char>),
    UnsupportedAnnotation(Seq<char>),
    UnknownType(Seq<char>),
    TypeMismatch {
        variable: Seq<char>,
        expected: PythonType,
        actual: PythonType,
        literal_value: Option<Seq<char>>,
    },
}

impl View for TypeCheckError {
    type V = TypeCheckErrorView;

    open spec fn view(&self) -> TypeCheckErrorView {
        match self {
            TypeCheckError::ParseError(detail) => TypeCheckErrorView::ParseError(detail@),
            TypeCheckError::UnsupportedAnnotation(raw) => TypeCheckErrorView::UnsupportedAnnotation(
                raw@,
            ),
            TypeCheckError::UnknownType(name) => TypeCheckErrorView::UnknownType(name@),
            TypeCheckError::TypeMismatch { variable, expected, actual, literal_value } => {
                TypeCheckErrorView::TypeMismatch {
                    variable: variable@,
                    expected: *expected,
                    actual: *actual,
                    literal_value: match literal_value {
                        Some(text) => Some(text@),
                        None => None,
                    },
                }
            },
        }
    }
}

/// The mathematical value of the result of a check.
pub open spec fn result_view(result: TypeCheckResult<()>) -> Result<(), TypeCheckErrorView> {
    match result {
        Ok(_) => Ok(()),
        Err(error) => Err(error@),
    }
}

/// How the offending value of a mismatch is named in its message: as a
/// literal where its text is known, by the name of its type otherwise.
pub open spec fn mismatch_subject(actual: PythonType, literal_value: Option<Seq<char>>) -> Seq<
    char,
> {
    match literal_value {
        Some(text) => "Literal["@ + text + "]"@,
        None => actual.spec_name(),
    }
}

impl TypeCheckErrorView {
    /// The text shown for an error. A mismatch takes two lines, the second
    /// indented by two spaces; each names the offending value and the
    /// expected type in double quotes.
    pub open spec fn message(self) -> Seq<char> {
        match self {
            TypeCheckErrorView::ParseError(detail) => "Parse error: "@ + detail,
            TypeCheckErrorView::UnsupportedAnnotation(raw) => "Unsupported annotation: "@ + raw,
            TypeCheckErrorView::UnknownType(name) => "Unknown type: "@ + name,
            TypeCheckErrorView::TypeMismatch { variable, expected, actual, literal_value } => {
                let subject = mismatch_subject(actual, literal_value);
                "Type \""@ + subject + "\" is not assignable to declared type \""@
                    + expected.spec_name() + "\"\n  \""@ + subject + "\" is not assignable to \""@
                    + expected.spec_name() + "\""@
            },
        }
    }
}

impl TypeCheckError {
    /// The text shown for this error.
    pub fn to_string(&self) -> (text: String)
        ensures
            text@ == self@.message(),
    {
        match self {
            TypeCheckError::ParseError(detail) => {
                let mut text = "Parse error: ".to_owned();
                text.append(detail.as_str());
                text
            },
            TypeCheckError::UnsupportedAnnotation(raw) => {
                let mut text = "Unsupported annotation: ".to_owned();
                text.append(raw.as_str());
                text
            },
            TypeCheckError::UnknownType(name) => {
                let mut text = "Unknown type: ".to_owned();
                text.append(name.as_str());
                text
            },
            TypeCheckError::TypeMismatch { variable: _, expected, actual, literal_value } => {
                let subject = match literal_value {
                    Some(literal) => {
                        let mut subject = "Literal[".to_owned();
                        subject.append(literal.as_str());
                        subject.append("]");
                        subject
                    },
                    None => actual.to_string(),
                };
                let mut text = "Type \"".to_owned();
                text.append(subject.as_str());
                text.append("\" is not assignable to declared type \"");
                text.append(expected.name());
                text.append("\"\n  \"");
                text.append(subject.as_str());
                text.append("\" is not assignable to \"");
                text.append(expected.name());
                text.append("\"");
                text
            },
        }
    }
}

} // verus!
