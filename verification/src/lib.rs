//! An expression language: a precedence-ladder parser and a
//! substitution-based evaluator over a two-tier numeric tower.
//!
//! A program is a list of function type declarations and function
//! definitions. Definitions populate an [`Environment`]; expressions are
//! parsed into trees and evaluated against it. Integers are fixed-width
//! and are promoted to decimals of a fixed working precision where a
//! result leaves the fixed-width range or a division is inexact.
//!
//! The grammar is stated in [`grammar`], the meaning of expressions in
//! [`semantics`]; [`parser`] and [`evaluator`] are proved against them.

pub mod decimal;
pub mod environment;
pub mod evaluator;
pub mod grammar;
pub mod laws;
pub mod number;
pub mod parser;
pub mod semantics;
pub mod syntax;
pub mod text;
pub mod value;

pub use environment::Environment;
pub use evaluator::Evaluation;
pub use grammar::Expected;
pub use number::Real;
pub use parser::parse_expression;
pub use parser::parse_function_definition;
pub use parser::parse_top_level;
pub use parser::ParseFailure;
pub use semantics::Operator;
pub use syntax::Expression;
pub use syntax::TopLevelStatement;
pub use syntax::Type;
pub use value::Function;
pub use value::RuntimeError;
pub use value::Value;
