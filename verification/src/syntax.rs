//! The syntax tree and its mathematical model.

use vstd::prelude::*;

verus! {

/// A nominal type tag. Declared types are recorded and never inspected.
#[derive(Debug, PartialEq, Eq)]
pub enum Type {
    Named(String),
}

/// The model of a [`Type`]: its name as a sequence of characters.
pub ghost enum TypeModel {
    Named(Seq<char>),
}

impl View for Type {
    type V = TypeModel;

    open spec fn view(&self) -> TypeModel {
        match self {
            Type::Named(name) => TypeModel::Named(name@),
        }
    }
}

/// An expression tree. Every operand is owned by its parent node.
#[derive(Debug, PartialEq, Eq)]
pub enum Expression {
    Integer(i64),
    Variable(String),
    Negate(Box<Expression>),
    Add(Box<Expression>, Box<Expression>),
    Subtract(Box<Expression>, Box<Expression>),
    Multiply(Box<Expression>, Box<Expression>),
    Divide(Box<Expression>, Box<Expression>),
    Power(Box<Expression>, Box<Expression>),
    ApplyFunction { function: Box<Expression>, arguments: Vec<Expression> },
}

/// The model of an [`Expression`]: the same tree over mathematical
/// integers and sequences.
pub ghost enum ExpressionModel {
    Integer(int),
    Variable(Seq<char>),
    Negate(Box<ExpressionModel>),
    Add(Box<ExpressionModel>, Box<ExpressionModel>),
    Subtract(Box<ExpressionModel>, Box<ExpressionModel>),
    Multiply(Box<ExpressionModel>, Box<ExpressionModel>),
    Divide(Box<ExpressionModel>, Box<ExpressionModel>),
    Power(Box<ExpressionModel>, Box<ExpressionModel>),
    ApplyFunction { function: Box<ExpressionModel>, arguments: Seq<ExpressionModel> },
}

impl Expression {
    /// The model of the tree, node by node.
    pub open spec fn model(&self) -> ExpressionModel
        decreases self,
    {
        match self {
            Expression::Integer(value) => ExpressionModel::Integer(*value as int),
            Expression::Variable(name) => ExpressionModel::Variable(name@),
            Expression::Negate(a) => ExpressionModel::Negate(Box::new(a.model())),
            Expression::Add(a, b) => ExpressionModel::Add(Box::new(a.model()), Box::new(b.model())),
            Expression::Subtract(a, b) => ExpressionModel::Subtract(
                Box::new(a.model()),
                Box::new(b.model()),
            ),
            Expression::Multiply(a, b) => ExpressionModel::Multiply(
                Box::new(a.model()),
                Box::new(b.model()),
            ),
            Expression::Divide(a, b) => ExpressionModel::Divide(
                Box::new(a.model()),
                Box::new(b.model()),
            ),
            Expression::Power(a, b) => ExpressionModel::Power(
                Box::new(a.model()),
                Box::new(b.model()),
            ),
            Expression::ApplyFunction { function, arguments } => ExpressionModel::ApplyFunction {
                function: Box::new(function.model()),
                arguments: Seq::new(
                    arguments@.len(),
                    |i: int|
                        if 0 <= i < arguments@.len() {
                            arguments@[i].model()
                        } else {
                            ExpressionModel::Integer(0)
                        },
                ),
            },
        }
    }
}

impl View for Expression {
    type V = ExpressionModel;

    open spec fn view(&self) -> ExpressionModel {
        self.model()
    }
}

impl Clone for Expression {
    /// A deep copy of the tree.
    #[verifier::loop_isolation(false)]
    fn clone(&self) -> (copy: Expression)
        ensures
            copy@ == self@,
        decreases self,
    {
        match self {
            Expression::Integer(value) => Expression::Integer(*value),
            Expression::Variable(name) => Expression::Variable(name.clone()),
            Expression::Negate(a) => Expression::Negate(Box::new((**a).clone())),
            Expression::Add(a, b) => Expression::Add(
                Box::new((**a).clone()),
                Box::new((**b).clone()),
            ),
            Expression::Subtract(a, b) => Expression::Subtract(
                Box::new((**a).clone()),
                Box::new((**b).clone()),
            ),
            Expression::Multiply(a, b) => Expression::Multiply(
                Box::new((**a).clone()),
                Box::new((**b).clone()),
            ),
            Expression::Divide(a, b) => Expression::Divide(
                Box::new((**a).clone()),
                Box::new((**b).clone()),
            ),
            Expression::Power(a, b) => Expression::Power(
                Box::new((**a).clone()),
                Box::new((**b).clone()),
            ),
            Expression::ApplyFunction { function, arguments } => {
                let mut copies: Vec<Expression> = Vec::new();
                let mut i: usize = 0;
                while i < arguments.len()
                    invariant
                        i <= arguments.len(),
                        copies@.len() == i,
                        forall|j: int| 0 <= j < i ==> copies@[j]@ == arguments@[j]@,
                    decreases arguments.len() - i,
                {
                    copies.push(arguments[i].clone());
                    i += 1;
                }
                let copy = Expression::ApplyFunction {
                    function: Box::new((**function).clone()),
                    arguments: copies,
                };
                assert(copy@->ApplyFunction_arguments =~= self@->ApplyFunction_arguments);
                copy
            },
        }
    }
}

impl Clone for Type {
    fn clone(&self) -> (copy: Type)
        ensures
            copy@ == self@,
    {
        match self {
            Type::Named(name) => Type::Named(name.clone()),
        }
    }
}

/// The model of a vector of names.
pub open spec fn names_view(names: Seq<String>) -> Seq<Seq<char>> {
    Seq::new(names.len(), |i: int| names[i]@)
}

/// A copy of a vector of names.
pub fn clone_names(names: &Vec<String>) -> (copy: Vec<String>)
    ensures
        names_view(copy@) == names_view(names@),
{
    let mut copy: Vec<String> = Vec::new();
    let mut i: usize = 0;
    while i < names.len()
        invariant
            i <= names.len(),
            copy@.len() == i,
            forall|j: int| 0 <= j < i ==> copy@[j]@ == names@[j]@,
        decreases names.len() - i,
    {
        copy.push(names[i].clone());
        i += 1;
    }
    copy
}

/// A statement at the top level of a program.
#[derive(Debug, PartialEq, Eq)]
pub enum TopLevelStatement {
    FunctionTypeDeclaration { name: String, domain: Type, codomain: Type },
    FunctionDefinition { name: String, parameters: Vec<String>, body: Expression },
}

/// The model of a [`TopLevelStatement`].
pub ghost enum StatementModel {
    FunctionTypeDeclaration { name: Seq<char>, domain: TypeModel, codomain: TypeModel },
    FunctionDefinition { name: Seq<char>, parameters: Seq<Seq<char>>, body: ExpressionModel },
}

impl View for TopLevelStatement {
    type V = StatementModel;

    open spec fn view(&self) -> StatementModel {
        match self {
            TopLevelStatement::FunctionTypeDeclaration { name, domain, codomain } => {
                StatementModel::FunctionTypeDeclaration {
                    name: name@,
                    domain: domain@,
                    codomain: codomain@,
                }
            },
            TopLevelStatement::FunctionDefinition { name, parameters, body } => {
                StatementModel::FunctionDefinition {
                    name: name@,
                    parameters: names_view(parameters@),
                    body: body@,
                }
            },
        }
    }
}

impl Clone for TopLevelStatement {
    fn clone(&self) -> (copy: TopLevelStatement)
        ensures
            copy@ == self@,
    {
        match self {
            TopLevelStatement::FunctionTypeDeclaration { name, domain, codomain } => {
                TopLevelStatement::FunctionTypeDeclaration {
                    name: name.clone(),
                    domain: domain.clone(),
                    codomain: codomain.clone(),
                }
            },
            TopLevelStatement::FunctionDefinition { name, parameters, body } => {
                TopLevelStatement::FunctionDefinition {
                    name: name.clone(),
                    parameters: clone_names(parameters),
                    body: body.clone(),
                }
            },
        }
    }
}

} // verus!
