//! The data model: literals, expressions, statements, algorithms, and the
//! errors of a run.
use std::rc::Rc;
use vstd::prelude::*;

use crate::lexer::{FunctionParamType, Operator, TypeDefinition};
use crate::tables::{parameters_clone, share_function};

verus! {

/// A real number. The library computes nothing on reals: it carries them
/// between the source text, the variables and the host, which alone reads,
/// combines and prints them.
#[derive(Debug, PartialEq)]
pub enum Float {
    /// A literal as the source text writes it: digits and dots.
    Written(String),
    /// A computed value, as the bits of an IEEE 754 single.
    Bits(u32),
}

impl Clone for Float {
    fn clone(&self) -> (copy: Self)
        ensures
            copy == *self,
    {
        match self {
            Float::Written(text) => Float::Written(text.clone()),
            Float::Bits(bits) => Float::Bits(*bits),
        }
    }
}

/// A value of the language.
#[derive(Debug, PartialEq)]
pub enum Literal {
    Int(i32),
    Float(Float),
    String(String),
    Char(char),
    Bool(bool),
}

impl Clone for Literal {
    fn clone(&self) -> (copy: Self)
        ensures
            copy == *self,
    {
        match self {
            Literal::Int(value) => Literal::Int(*value),
            Literal::Float(value) => Literal::Float(value.clone()),
            Literal::String(value) => Literal::String(value.clone()),
            Literal::Char(value) => Literal::Char(*value),
            Literal::Bool(value) => Literal::Bool(*value),
        }
    }
}

impl Literal {
    /// The type that a variable must be declared with to hold this value.
    pub open spec fn type_of(&self) -> TypeDefinition {
        match self {
            Literal::Int(_) => TypeDefinition::Int,
            Literal::Float(_) => TypeDefinition::Float,
            Literal::String(_) => TypeDefinition::String,
            Literal::Char(_) => TypeDefinition::Char,
            Literal::Bool(_) => TypeDefinition::Bool,
        }
    }

    #[verifier::when_used_as_spec(type_of)]
    pub fn get_type(&self) -> (type_def: TypeDefinition)
        ensures
            type_def == self.type_of(),
    {
        match self {
            Literal::Int(_) => TypeDefinition::Int,
            Literal::Float(_) => TypeDefinition::Float,
            Literal::String(_) => TypeDefinition::String,
            Literal::Char(_) => TypeDefinition::Char,
            Literal::Bool(_) => TypeDefinition::Bool,
        }
    }
}

/// Declared type and passing mode of one parameter.
#[derive(Debug, PartialEq, Eq, Clone, Copy, Structural)]
pub struct FunctionParameter {
    pub type_definition: TypeDefinition,
    pub result_type: FunctionParamType,
}

#[derive(Debug, PartialEq)]
pub enum Expr {
    Literal(Literal),
    Identifier(String),
    BinaryOp(BinaryOp),
    FunctionCall(FunctionCall),
    /// The line-break marker; it has a meaning only in an output statement.
    NewLine,
}

#[derive(Debug, PartialEq)]
pub struct BinaryOp {
    pub left: Box<Expr>,
    pub op: Operator,
    pub right: Box<Expr>,
}

#[derive(Debug, PartialEq)]
pub struct FunctionCall {
    pub name: String,
    pub args: Vec<Expr>,
}

#[derive(Debug, PartialEq)]
pub struct VarDecl {
    pub name: String,
    pub type_def: TypeDefinition,
    pub value: Option<Expr>,
}

#[derive(Debug, PartialEq)]
pub struct ImportNamespace {
    pub name: String,
}

/// A loop with an optional guard, tested before each round; without a guard
/// only `Break` ends it.
#[derive(Debug, PartialEq)]
pub struct Loop {
    pub condition: Option<Expr>,
    pub body: Box<AstNode>,
}

/// A loop over a range of integers, in steps of 1.
#[derive(Debug, PartialEq)]
pub struct ForLoop {
    pub var: String,
    pub start: Expr,
    pub end: Expr,
    pub body: Box<AstNode>,
}

#[derive(Debug, PartialEq)]
pub struct Condition {
    pub condition: Expr,
    pub left: Box<AstNode>,
    pub right: Option<Box<AstNode>>,
}

/// A loop that counts its rounds, with an optional guard tested after each.
#[derive(Debug, PartialEq)]
pub struct RepeatLoop {
    pub condition: Option<Expr>,
    pub count: Expr,
    pub body: Box<AstNode>,
}

#[derive(Debug, PartialEq)]
pub enum Stmt {
    VarDecl(VarDecl),
    VarsDecl(Vec<VarDecl>),
    Assign { name: String, value: Expr },
    /// An algorithm declaration. The declaration is shared, not copied, by
    /// the function tables that hold it.
    Alg(Rc<Function>),
    Condition(Condition),
    Loop(Loop),
    ForLoop(ForLoop),
    RepeatLoop(RepeatLoop),
    Output { values: Vec<Expr> },
    FunctionCall(FunctionCall),
    ImportNamespace(ImportNamespace),
    Break,
}

#[derive(Debug, PartialEq)]
pub enum AstNode {
    /// A statement list; it runs in a scope of its own.
    Program(Vec<Stmt>),
    /// One statement; it runs in the scope it is given.
    Stmt(Stmt),
}

/// An algorithm written in the language.
#[derive(Debug, PartialEq)]
pub struct Function {
    pub name: String,
    pub body: Box<AstNode>,
    /// The parameters in the order of their declaration, by which a call
    /// binds its arguments.
    pub params: indexmap::IndexMap<String, FunctionParameter>,
    pub return_type: Option<TypeDefinition>,
}

/// A capability of the host, callable like an algorithm. `native_function`
/// is the number under which the host knows it.
#[derive(Debug, PartialEq)]
pub struct NativeFunction {
    pub params: indexmap::IndexMap<String, FunctionParameter>,
    pub return_type: Option<TypeDefinition>,
    pub native_function: u64,
}

impl Clone for NativeFunction {
    fn clone(&self) -> (copy: Self)
        ensures
            copy == *self,
    {
        NativeFunction {
            params: parameters_clone(&self.params),
            return_type: self.return_type,
            native_function: self.native_function,
        }
    }
}

#[derive(Debug, PartialEq)]
pub enum FunctionVariant {
    Native(NativeFunction),
    Kumir(Rc<Function>),
}

impl Clone for FunctionVariant {
    fn clone(&self) -> (copy: Self)
        ensures
            copy == *self,
    {
        match self {
            FunctionVariant::Native(function) => FunctionVariant::Native(function.clone()),
            FunctionVariant::Kumir(function) => FunctionVariant::Kumir(share_function(function)),
        }
    }
}

/// How the evaluation of a statement or a statement list ended.
#[derive(Debug, PartialEq)]
pub enum EvalResult {
    /// It ran to its end.
    Procedure,
    /// It produced a value.
    Literal(Literal),
    /// It asks the innermost loop around it to stop.
    Break,
}

/// What a call gave.
#[derive(Debug, PartialEq)]
pub enum FunctionResult {
    Literal(Literal),
    Procedure,
}

/// A variable of a scope: its declared type and, once set, its value.
#[derive(Debug, PartialEq)]
pub struct Variable {
    pub type_def: TypeDefinition,
    pub value: Option<Literal>,
}

impl Clone for Variable {
    fn clone(&self) -> (copy: Self)
        ensures
            copy == *self,
    {
        let value = match &self.value {
            Some(literal) => Some(literal.clone()),
            None => None,
        };
        Variable { type_def: self.type_def, value }
    }
}

/// Why a run stopped.
#[allow(inconsistent_fields)]
#[derive(Debug, PartialEq)]
pub enum RuntimeError {
    /// No scope in reach declares the variable, or it has no value yet.
    UndefinedVariable(String),
    /// No function table in reach holds the name.
    UndefinedFunction(String),
    /// No namespace of that name is registered.
    UndefinedNamespace(String),
    /// A value of one type met a variable or a parameter of another.
    TypeMismatch { expected: TypeDefinition, found: TypeDefinition },
    /// A call with another number of arguments than the callee has parameters.
    ArityMismatch { parameters: usize, arguments: usize },
    /// The operator is not defined on these two operands.
    InvalidOperation { left: Literal, operator: Operator, right: Literal },
    /// A condition or a guard that is no boolean.
    NotBoolean(Literal),
    /// A loop bound or a count that is no integer.
    NotInteger(Literal),
    /// A value was asked of what gives none: a procedure, a line break.
    NotAValue,
    /// A result parameter or a function's return value was never set.
    UnsetVariable(String),
    /// The host asked the run to stop.
    UserInterrupt,
    /// The step budget of the run is used up.
    StepLimit,
    /// A native function failed; the text is the host's.
    Native(String),
}

/// An error with its texts as character sequences.
#[allow(inconsistent_fields)]
pub enum ErrorView {
    UndefinedVariable(Seq<char>),
    UndefinedFunction(Seq<char>),
    UndefinedNamespace(Seq<char>),
    TypeMismatch { expected: TypeDefinition, found: TypeDefinition },
    ArityMismatch { parameters: usize, arguments: usize },
    InvalidOperation { left: Literal, operator: Operator, right: Literal },
    NotBoolean(Literal),
    NotInteger(Literal),
    NotAValue,
    UnsetVariable(Seq<char>),
    UserInterrupt,
    StepLimit,
    Native(Seq<char>),
}

impl View for RuntimeError {
    type V = ErrorView;

    open spec fn view(&self) -> ErrorView {
        match self {
            RuntimeError::UndefinedVariable(name) => ErrorView::UndefinedVariable(name@),
            RuntimeError::UndefinedFunction(name) => ErrorView::UndefinedFunction(name@),
            RuntimeError::UndefinedNamespace(name) => ErrorView::UndefinedNamespace(name@),
            RuntimeError::TypeMismatch { expected, found } => ErrorView::TypeMismatch {
                expected: *expected,
                found: *found,
            },
            RuntimeError::ArityMismatch { parameters, arguments } => ErrorView::ArityMismatch {
                parameters: *parameters,
                arguments: *arguments,
            },
            RuntimeError::InvalidOperation { left, operator, right } => ErrorView::InvalidOperation {
                left: *left,
                operator: *operator,
                right: *right,
            },
            RuntimeError::NotBoolean(value) => ErrorView::NotBoolean(*value),
            RuntimeError::NotInteger(value) => ErrorView::NotInteger(*value),
            RuntimeError::NotAValue => ErrorView::NotAValue,
            RuntimeError::UnsetVariable(name) => ErrorView::UnsetVariable(name@),
            RuntimeError::UserInterrupt => ErrorView::UserInterrupt,
            RuntimeError::StepLimit => ErrorView::StepLimit,
            RuntimeError::Native(text) => ErrorView::Native(text@),
        }
    }
}

/// A result with its error as an [`ErrorView`].
pub open spec fn outcome<T>(result: Result<T, RuntimeError>) -> Result<T, ErrorView> {
    match result {
        Ok(value) => Ok(value),
        Err(error) => Err(error@),
    }
}

} // verus!
