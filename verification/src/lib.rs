//! A small static type checker for the top-level assignments of a
//! dynamically typed script.
//!
//! The checker walks a program statement by statement, records the type
//! that each variable has been given, and rejects an assignment whose
//! value does not fit the type on record.

pub mod text;
pub mod python_type;
pub mod syntax;
pub mod error;
pub mod rules;
pub mod laws;
pub mod bindings;
pub mod screening;
pub mod parser;
pub mod checker;

pub use crate::checker::TypeChecker;
pub use crate::error::{TypeCheckError, TypeCheckResult};
pub use crate::python_type::PythonType;
pub use crate::syntax::{Annotation, Expr, Statement, StringFragment};
