//! Runtime values, runtime errors and their mathematical models.

use vstd::prelude::*;
use vstd::string::StringExecFns;
use crate::decimal::decimal_text;
use crate::number::Dyadic;
use crate::number::Real;
use crate::syntax::Expression;
use crate::syntax::ExpressionModel;
use crate::syntax::names_view;
use crate::syntax::clone_names;
use crate::text::integer_text;
use crate::text::natural_text;
use crate::text::write_integer;
use crate::text::write_natural;

verus! {

/// A function value: immutable once constructed.
#[derive(Debug, PartialEq, Eq)]
pub struct Function {
    pub name: String,
    pub parameter_names: Vec<String>,
    pub body: Expression,
}

/// The model of a [`Function`].
pub ghost struct FunctionModel {
    pub name: Seq<char>,
    pub parameter_names: Seq<Seq<char>>,
    pub body: ExpressionModel,
}

impl View for Function {
    type V = FunctionModel;

    open spec fn view(&self) -> FunctionModel {
        FunctionModel {
            name: self.name@,
            parameter_names: names_view(self.parameter_names@),
            body: self.body@,
        }
    }
}

impl Clone for Function {
    fn clone(&self) -> (copy: Function)
        ensures
            copy@ == self@,
    {
        Function {
            name: self.name.clone(),
            parameter_names: clone_names(&self.parameter_names),
            body: self.body.clone(),
        }
    }
}

/// A value of the two-tier numeric tower, or a function.
#[derive(Debug, PartialEq, Eq)]
pub enum Value {
    SmallInt(i64),
    Real(Real),
    Function(Function),
}

/// The model of a [`Value`].
pub ghost enum ValueModel {
    SmallInt(int),
    Real(Dyadic),
    Function(FunctionModel),
}

impl ValueModel {
    /// The tag that names the tier of the value.
    pub open spec fn type_tag(self) -> Seq<char> {
        match self {
            ValueModel::SmallInt(_) => "SmallInt"@,
            ValueModel::Real(_) => "Decimal"@,
            ValueModel::Function(_) => "Function"@,
        }
    }
}

impl ValueModel {
    /// How the value is written: an integer in decimal digits, a decimal as
    /// its decimal expansion, a function as a placeholder.
    pub open spec fn text(self) -> Seq<char> {
        match self {
            ValueModel::SmallInt(n) => integer_text(n),
            ValueModel::Real(d) => decimal_text(d),
            ValueModel::Function(_) => "<function>"@,
        }
    }
}

impl View for Value {
    type V = ValueModel;

    open spec fn view(&self) -> ValueModel {
        match self {
            Value::SmallInt(n) => ValueModel::SmallInt(*n as int),
            Value::Real(r) => ValueModel::Real(r@),
            Value::Function(f) => ValueModel::Function(f@),
        }
    }
}

impl Clone for Value {
    fn clone(&self) -> (copy: Value)
        ensures
            copy@ == self@,
    {
        match self {
            Value::SmallInt(n) => Value::SmallInt(*n),
            Value::Real(r) => Value::Real(r.clone()),
            Value::Function(f) => Value::Function(f.clone()),
        }
    }
}

impl Value {
    /// The tag that names the tier of the value.
    pub fn type_tag(&self) -> (name: String)
        ensures
            name@ == self@.type_tag(),
    {
        match self {
            Value::SmallInt(_) => "SmallInt".to_string(),
            Value::Real(_) => "Decimal".to_string(),
            Value::Function(_) => "Function".to_string(),
        }
    }

    /// The value as text.
    pub fn to_string(&self) -> (out: String)
        ensures
            out@ == self@.text(),
    {
        match self {
            Value::SmallInt(n) => {
                let mut out = String::new();
                write_integer(&mut out, *n);
                out
            },
            Value::Real(r) => r.to_string(),
            Value::Function(_) => "<function>".to_string(),
        }
    }
}

/// Why an evaluation failed.
#[derive(Debug, PartialEq, Eq)]
#[allow(inconsistent_fields)]
pub enum RuntimeError {
    UnboundVariable(String),
    InvalidType { found: String, operation: String },
    TypeMismatch { first: String, last: String, operation: String },
    DivisionByZero,
    ParameterMismatch { expected: usize, found: usize },
}

/// The model of a [`RuntimeError`].
#[allow(inconsistent_fields)]
pub ghost enum RuntimeErrorModel {
    UnboundVariable(Seq<char>),
    InvalidType { found: Seq<char>, operation: Seq<char> },
    TypeMismatch { first: Seq<char>, last: Seq<char>, operation: Seq<char> },
    DivisionByZero,
    ParameterMismatch { expected: nat, found: nat },
}

impl RuntimeErrorModel {
    /// The message that describes the error.
    pub open spec fn message(self) -> Seq<char> {
        match self {
            RuntimeErrorModel::UnboundVariable(name) => "Unbound variable: "@ + name,
            RuntimeErrorModel::InvalidType { found, operation } => "Invalid type: "@ + found
                + " for operation "@ + operation,
            RuntimeErrorModel::TypeMismatch { first, last, operation } => "Type mismatch: "@
                + first + " "@ + operation + " "@ + last,
            RuntimeErrorModel::DivisionByZero => "Division by zero"@,
            RuntimeErrorModel::ParameterMismatch { expected, found } =>
                "Parameter mismatch: expected "@ + natural_text(expected) + " arguments, found "@
                    + natural_text(found),
        }
    }
}

impl View for RuntimeError {
    type V = RuntimeErrorModel;

    open spec fn view(&self) -> RuntimeErrorModel {
        match self {
            RuntimeError::UnboundVariable(name) => RuntimeErrorModel::UnboundVariable(name@),
            RuntimeError::InvalidType { found, operation } => RuntimeErrorModel::InvalidType {
                found: found@,
                operation: operation@,
            },
            RuntimeError::TypeMismatch { first, last, operation } => RuntimeErrorModel::TypeMismatch {
                first: first@,
                last: last@,
                operation: operation@,
            },
            RuntimeError::DivisionByZero => RuntimeErrorModel::DivisionByZero,
            RuntimeError::ParameterMismatch { expected, found } => {
                RuntimeErrorModel::ParameterMismatch {
                    expected: *expected as nat,
                    found: *found as nat,
                }
            },
        }
    }
}

impl RuntimeError {
    /// The message that describes the error.
    pub fn to_string(&self) -> (out: String)
        ensures
            out@ == self@.message(),
    {
        match self {
            RuntimeError::UnboundVariable(name) => {
                let mut out = "Unbound variable: ".to_string();
                out.append(name.as_str());
                out
            },
            RuntimeError::InvalidType { found, operation } => {
                let mut out = "Invalid type: ".to_string();
                out.append(found.as_str());
                out.append(" for operation ");
                out.append(operation.as_str());
                out
            },
            RuntimeError::TypeMismatch { first, last, operation } => {
                let mut out = "Type mismatch: ".to_string();
                out.append(first.as_str());
                out.append(" ");
                out.append(operation.as_str());
                out.append(" ");
                out.append(last.as_str());
                out
            },
            RuntimeError::DivisionByZero => "Division by zero".to_string(),
            RuntimeError::ParameterMismatch { expected, found } => {
                let mut out = "Parameter mismatch: expected ".to_string();
                write_natural(&mut out, *expected as u64);
                out.append(" arguments, found ");
                write_natural(&mut out, *found as u64);
                out
            },
        }
    }
}

impl Clone for RuntimeError {
    fn clone(&self) -> (copy: RuntimeError)
        ensures
            copy@ == self@,
    {
        match self {
            RuntimeError::UnboundVariable(name) => RuntimeError::UnboundVariable(name.clone()),
            RuntimeError::InvalidType { found, operation } => RuntimeError::InvalidType {
                found: found.clone(),
                operation: operation.clone(),
            },
            RuntimeError::TypeMismatch { first, last, operation } => RuntimeError::TypeMismatch {
                first: first.clone(),
                last: last.clone(),
                operation: operation.clone(),
            },
            RuntimeError::DivisionByZero => RuntimeError::DivisionByZero,
            RuntimeError::ParameterMismatch { expected, found } => RuntimeError::ParameterMismatch {
                expected: *expected,
                found: *found,
            },
        }
    }
}

} // verus!
