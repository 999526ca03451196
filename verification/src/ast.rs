//! Abstract syntax for the language: statements, expressions, operators,
//! literal values and type annotations, as the parser produces them and the
//! compiler consumes them.
use vstd::prelude::*;

verus! {

/// A half-open region of source text, kept on every node for diagnostics.
#[derive(Debug, Clone, Copy)]
pub struct Span {
    pub start: usize,
    pub end: usize,
    pub line: usize,
    pub column: usize,
}

impl Span {
    /// A span that points at the start of the source; used where no better
    /// position is known.
    pub fn zero() -> (s: Span)
        ensures
            s.start == 0 && s.end == 0 && s.line == 0 && s.column == 0,
    {
        Span { start: 0, end: 0, line: 0, column: 0 }
    }
}

/// One statement of the language.
#[derive(Debug)]
pub enum Statement {
    /// `{ ... }`
    Block { statements: Vec<Statement>, span: Span },
    /// `if (condition) { ... } else { ... }`
    If {
        condition: Box<Expression>,
        then_branch: Box<Statement>,
        else_branch: Option<Box<Statement>>,
        span: Span,
    },
    /// `while (condition) { ... }`
    While { condition: Box<Expression>, body: Box<Statement>, span: Span },
    /// `for (init; condition; increment) { ... }`
    For {
        init: Option<Box<Statement>>,
        condition: Box<Expression>,
        increment: Option<Box<Statement>>,
        body: Box<Statement>,
        span: Span,
    },
    /// `ret value;`
    Return { value: Option<Box<Expression>>, span: Span },
    /// `expression;`
    Expression { expression: Box<Expression>, span: Span },
    /// `def x: int = 5;`
    VariableDeclaration {
        name: String,
        type_ann: Option<Type>,
        initializer: Option<Box<Expression>>,
        span: Span,
    },
    /// `fun foo(x, y) { ... }`
    FunctionDeclaration {
        name: String,
        parameters: Vec<String>,
        body: Box<Statement>,
        span: Span,
    },
}

/// One expression of the language.
#[derive(Debug)]
pub enum Expression {
    /// `5 + 3`
    Binary {
        left: Box<Expression>,
        operator: BinaryOp,
        right: Box<Expression>,
        span: Span,
    },
    /// `-5`, `!b`
    Unary { operator: PrefixOp, operand: Box<Expression>, span: Span },
    /// `5`, `"hello"`, `true`
    Literal { value: LiteralValue, span: Span },
    /// `x`
    Variable { name: String, span: Span },
    /// `foo(x, y)`
    Call { callee: Box<Expression>, arguments: Vec<Expression>, span: Span },
    /// `x = 5`, `a[i] = 5`
    Assign { target: Box<Expression>, value: Box<Expression>, span: Span },
    /// `a[i]`
    Index { object: Box<Expression>, index: Box<Expression>, span: Span },
}

/// A prefix operator.
#[derive(Debug, Clone, Copy)]
pub enum PrefixOp {
    Not,
    Neg,
}

/// A binary operator.
#[derive(Debug, Clone, Copy)]
pub enum BinaryOp {
    Plus,
    Minus,
    Multiply,
    Divide,
    Modulo,
    Equal,
    NotEqual,
    LessThan,
    GreaterThan,
    LessEqual,
    GreaterEqual,
    And,
    Or,
}

/// A literal as written in the source.
#[derive(Debug)]
pub enum LiteralValue {
    Integer(i64),
    String(String),
    Char(char),
    Bool(bool),
}

/// A type annotation. Annotations are carried through the syntax tree but do
/// not influence compilation: the language is dynamically checked at run time.
#[derive(Debug)]
pub enum Type {
    Int,
    Float,
    String,
    Bool,
    Void,
    Array(Box<Type>),
    Object(String),
    Function(Vec<Type>, Box<Type>),
}

} // verus!
