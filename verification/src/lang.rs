//! The closed vocabularies of the language: value types, operators,
//! parse-tree node labels, the parse tree itself, and the error kinds.

use vstd::prelude::*;
use vstd::string::*;

verus! {

/// The value types of the source language. `Str` exists only as an interned
/// constant and may appear only as a `print` element.
#[derive(Clone, Copy, PartialEq, Eq, Structural, Debug)]
pub enum Type {
    Int,
    Float,
    Str,
}

/// Storage class of an address: a declared variable, a compiler temporary,
/// or an interned constant.
#[derive(Clone, Copy, PartialEq, Eq, Structural, Debug)]
pub enum Kind {
    Regular,
    Temporal,
    Constant,
}

/// The binary operators of expressions and assignment.
#[derive(Clone, Copy, PartialEq, Eq, Structural, Debug)]
pub enum BinOp {
    Add,
    Sub,
    Mul,
    Div,
    Less,
    Greater,
    Equal,
    NotEqual,
    Assign,
}

/// One entry of the operator stack: a pending binary operator, or the
/// marker pushed for an open parenthesis.
#[derive(Clone, Copy, PartialEq, Eq, Structural, Debug)]
pub enum OpStackItem {
    Bin(BinOp),
    Paren,
}

/// Labels of parse-tree nodes. The names mirror the grammar: `Program`,
/// `Vars`, `TypeVar`, `IdList`, `Funcs`, `Parameters`, `IdTypeList`,
/// `FuncBody`, `Body`, `Statement`, `Assign`, `Condition`, `WhileLoop`,
/// `Print`, `PrintElement`, `FuncCall`, `Expression`, `Exp`, `Term`,
/// `Factor`, `Value`, `Cte`, `CteInt`, `CteFloat`, `StringLit`, `Id`,
/// `Operator` (`*` `/`), `Sign` (`+` `-`), `Comparator` (`<` `>` `==` `!=`),
/// `Equals` (`=`), `OpenP`, `CloseP`, `Delimiter`, and the keyword tokens.
#[derive(Clone, Copy, PartialEq, Eq, Structural, Debug)]
pub enum Rule {
    Program,
    Vars,
    TypeVar,
    IdList,
    Funcs,
    Parameters,
    IdTypeList,
    FuncBody,
    Body,
    Statement,
    Assign,
    Condition,
    WhileLoop,
    Print,
    PrintElement,
    FuncCall,
    Expression,
    Exp,
    Term,
    Factor,
    Value,
    Cte,
    CteInt,
    CteFloat,
    StringLit,
    Id,
    Operator,
    Sign,
    Comparator,
    Equals,
    OpenP,
    CloseP,
    Delimiter,
    BeginKeyword,
    DoKeyword,
    ElseKeyword,
    EndKeyword,
}

/// A node of the parse tree the translator consumes. Each node carries its
/// label, its literal source text, its source position, and its children in
/// source order.
pub struct Node {
    pub rule: Rule,
    pub text: String,
    pub line: usize,
    pub col: usize,
    pub children: Vec<Node>,
}

impl Node {
    /// A node with children.
    pub fn new(rule: Rule, text: String, line: usize, col: usize, children: Vec<Node>) -> (n: Node)
        ensures
            n.rule == rule,
            n.text == text,
            n.line == line,
            n.col == col,
            n.children == children,
    {
        Node { rule, text, line, col, children }
    }

    /// A node without children: a token or an empty syntactic rule.
    pub fn leaf(rule: Rule, text: &str, line: usize, col: usize) -> (n: Node)
        ensures
            n.rule == rule,
            n.text@ == text@,
            n.line == line,
            n.col == col,
            n.children@.len() == 0,
    {
        Node { rule, text: String::from_str(text), line, col, children: Vec::new() }
    }
}

/// Errors detected while translating the tree into quadruples. Every error
/// is fatal at its first occurrence: the translator does not recover.
#[derive(Clone, Debug)]
pub enum CompileError {
    /// A variable or function name declared twice in the same scope.
    RedeclaredIdentifier { name: String, line: usize, col: usize },
    /// A name used that is neither in the current scope nor global.
    UndeclaredIdentifier { name: String, line: usize, col: usize },
    /// The semantic cube rejects the operand types of an operator.
    TypeMismatch { op: BinOp, left: Type, right: Type },
    /// A call whose argument count differs from the callee's declared arity.
    ArityMismatch { name: String, expected: usize, got: usize, line: usize, col: usize },
    /// An `if` or `while` condition whose type is not `int`.
    BadConditionType { found: Type },
    /// A missing operand or operator: a malformed tree.
    StackUnderflow,
    /// A node whose children do not follow the grammar shape.
    MalformedTree { line: usize, col: usize },
    /// A memory segment ran out of addresses.
    SegmentExhausted { var_type: Type, kind: Kind },
    /// The quadruple counter would no longer fit an address slot.
    ProgramTooLong,
}

/// Errors raised while the virtual machine executes a quadruple stream.
#[derive(Clone, Debug)]
pub enum RuntimeError {
    /// Integer or float division with a zero divisor.
    DivideByZero,
    /// A write aimed at one of the read-only constant segments.
    WriteToConstant { address: u32 },
    /// An access through an address outside every declared segment, or one
    /// whose segment does not hold a value of the kind required.
    AddressOutOfRange { address: u32 },
    /// A constant whose literal text cannot be materialized into a value.
    MalformedLiteral { text: String },
    /// An `era`, `param`, `gosub` or `endfunc` outside the strict
    /// `era` / `param`* / `gosub` / ... / `endfunc` bracketing of a call.
    BrokenCallSequence,
    /// An `era` naming a function the directory does not hold.
    UnknownFunction { name: String },
}

} // verus!
