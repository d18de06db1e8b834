//! The evaluation tree that the parser builds, and its mathematical model.
use vstd::prelude::*;
use vstd::string::StringExecFns;

verus! {

/// `!` or unary `-`.
#[allow(non_camel_case_types)]
#[derive(Clone, Copy, Debug, PartialEq, Eq, Structural)]
pub enum UnaryOperator {
    NOT,
    NEGATIVE,
}

#[allow(non_camel_case_types)]
#[derive(Clone, Copy, Debug, PartialEq, Eq, Structural)]
pub enum FactorOperator {
    MUL,
    DIV,
}

#[allow(non_camel_case_types)]
#[derive(Clone, Copy, Debug, PartialEq, Eq, Structural)]
pub enum AdditiveOperator {
    ADD,
    SUB,
}

#[allow(non_camel_case_types)]
#[derive(Clone, Copy, Debug, PartialEq, Eq, Structural)]
pub enum ComparisonOperator {
    LESS_THAN,
    GREATER_THAN,
    GREATER_THAN_EQ,
    LESS_THAN_EQ,
}

#[allow(non_camel_case_types)]
#[derive(Clone, Copy, Debug, PartialEq, Eq, Structural)]
pub enum EqualityOperator {
    EQUAL_TOO,
    NOT_EQUAL_TOO,
}

/// The kinds of literal that a primary expression can be.
#[allow(non_camel_case_types)]
#[derive(Clone, Copy, Debug, PartialEq, Eq, Structural)]
pub enum YarnValueType {
    VARIABLE,
    STRING,
    NUMBER,
    BOOL,
}

/// A binary operator of any precedence layer.
#[derive(Clone, Copy, Debug, PartialEq, Eq, Structural)]
pub enum BinaryOperator {
    Factor(FactorOperator),
    Additive(AdditiveOperator),
    Comparison(ComparisonOperator),
    Equality(EqualityOperator),
}

/// A number literal, kept as its text (`digits` or `digits.digits`).
#[derive(Debug)]
pub struct NumberLiteralNode {
    pub value: String,
}

#[derive(Debug)]
pub struct StringLiteralNode {
    pub value: String,
}

#[derive(Debug)]
pub struct BoolLiteralNode {
    pub value: bool,
}

/// A reference to a variable, with the position of its name.
#[derive(Debug)]
pub struct VariableNode {
    pub identifier: String,
    pub line: usize,
    pub col: usize,
}

/// `!x` or `-x`, with the position of the operator.
#[derive(Debug)]
pub struct UnaryExpressionNode {
    pub operator: UnaryOperator,
    pub child: Box<YarnExpression>,
    pub line: usize,
    pub col: usize,
}

/// `lhs op rhs`; the position is that of the left operand's first token.
#[derive(Debug)]
pub struct FactorExpressionNode {
    pub lhs: Box<YarnExpression>,
    pub rhs: Box<YarnExpression>,
    pub operator: FactorOperator,
    pub line: usize,
    pub col: usize,
}

/// `lhs op rhs`; the position is that of the left operand's first token.
#[derive(Debug)]
pub struct AdditiveExpressionNode {
    pub lhs: Box<YarnExpression>,
    pub rhs: Box<YarnExpression>,
    pub operator: AdditiveOperator,
    pub line: usize,
    pub col: usize,
}

/// `lhs op rhs`; the position is that of the left operand's first token.
#[derive(Debug)]
pub struct ComparisonExpressionNode {
    pub lhs: Box<YarnExpression>,
    pub rhs: Box<YarnExpression>,
    pub operator: ComparisonOperator,
    pub line: usize,
    pub col: usize,
}

/// `lhs op rhs`; the position is that of the left operand's first token.
#[derive(Debug)]
pub struct EqualityExpressionNode {
    pub lhs: Box<YarnExpression>,
    pub rhs: Box<YarnExpression>,
    pub operator: EqualityOperator,
    pub line: usize,
    pub col: usize,
}

/// A call of a native function, with the position of its name.
#[derive(Debug)]
pub struct FunctionNode {
    pub arguments: Vec<YarnExpression>,
    pub function_name: String,
    pub line: usize,
    pub col: usize,
}

/// A node of the evaluation tree. Each node owns its children.
#[derive(Debug)]
pub enum YarnExpression {
    Number(NumberLiteralNode),
    Str(StringLiteralNode),
    Bool(BoolLiteralNode),
    Variable(VariableNode),
    Unary(UnaryExpressionNode),
    Factor(FactorExpressionNode),
    Additive(AdditiveExpressionNode),
    Comparison(ComparisonExpressionNode),
    Equality(EqualityExpressionNode),
    Function(FunctionNode),
}

/// The mathematical model of an evaluation tree.
pub enum Expr {
    Number(Seq<char>),
    Str(Seq<char>),
    Bool(bool),
    Variable(Seq<char>, usize, usize),
    Unary(UnaryOperator, Box<Expr>, usize, usize),
    Binary(BinaryOperator, Box<Expr>, Box<Expr>, usize, usize),
    Call(Seq<char>, Seq<Expr>, usize, usize),
}

broadcast use vstd::std_specs::vec::axiom_vec_decreases_to_view;

/// The models of a list of trees.
pub open spec fn args_view(s: Seq<YarnExpression>) -> Seq<Expr>
    decreases s,
{
    if s.len() == 0 {
        seq![]
    } else {
        args_view(s.drop_last()).push(s.last()@)
    }
}

impl View for YarnExpression {
    type V = Expr;

    open spec fn view(&self) -> Expr
        decreases self,
    {
        match self {
            YarnExpression::Number(n) => Expr::Number(n.value@),
            YarnExpression::Str(s) => Expr::Str(s.value@),
            YarnExpression::Bool(b) => Expr::Bool(b.value),
            YarnExpression::Variable(v) => Expr::Variable(v.identifier@, v.line, v.col),
            YarnExpression::Unary(u) => Expr::Unary(u.operator, Box::new((*u.child)@), u.line, u.col),
            YarnExpression::Factor(b) => Expr::Binary(
                BinaryOperator::Factor(b.operator),
                Box::new((*b.lhs)@),
                Box::new((*b.rhs)@),
                b.line,
                b.col,
            ),
            YarnExpression::Additive(b) => Expr::Binary(
                BinaryOperator::Additive(b.operator),
                Box::new((*b.lhs)@),
                Box::new((*b.rhs)@),
                b.line,
                b.col,
            ),
            YarnExpression::Comparison(b) => Expr::Binary(
                BinaryOperator::Comparison(b.operator),
                Box::new((*b.lhs)@),
                Box::new((*b.rhs)@),
                b.line,
                b.col,
            ),
            YarnExpression::Equality(b) => Expr::Binary(
                BinaryOperator::Equality(b.operator),
                Box::new((*b.lhs)@),
                Box::new((*b.rhs)@),
                b.line,
                b.col,
            ),
            YarnExpression::Function(f) => Expr::Call(
                f.function_name@,
                args_view(f.arguments@),
                f.line,
                f.col,
            ),
        }
    }
}

impl NumberLiteralNode {
    pub fn new(value: &str) -> (r: NumberLiteralNode)
        ensures
            r.value@ == value@,
    {
        NumberLiteralNode { value: String::from_str(value) }
    }

    pub fn new_boxed(value: &str) -> (r: Box<NumberLiteralNode>)
        ensures
            r.value@ == value@,
    {
        Box::new(NumberLiteralNode::new(value))
    }
}

impl StringLiteralNode {
    pub fn new(value: &str) -> (r: StringLiteralNode)
        ensures
            r.value@ == value@,
    {
        StringLiteralNode { value: String::from_str(value) }
    }

    pub fn new_boxed(value: &str) -> (r: Box<StringLiteralNode>)
        ensures
            r.value@ == value@,
    {
        Box::new(StringLiteralNode::new(value))
    }
}

impl BoolLiteralNode {
    pub fn new(value: bool) -> (r: BoolLiteralNode)
        ensures
            r.value == value,
    {
        BoolLiteralNode { value }
    }

    pub fn new_boxed(value: bool) -> (r: Box<BoolLiteralNode>)
        ensures
            r.value == value,
    {
        Box::new(BoolLiteralNode { value })
    }
}

impl VariableNode {
    pub fn new(identifier: String, line: usize, col: usize) -> (r: VariableNode)
        ensures
            r.identifier == identifier,
            r.line == line,
            r.col == col,
    {
        VariableNode { identifier, line, col }
    }

    pub fn new_boxed(identifier: String, line: usize, col: usize) -> (r: Box<VariableNode>)
        ensures
            r.identifier == identifier,
            r.line == line,
            r.col == col,
    {
        Box::new(VariableNode { identifier, line, col })
    }
}

impl UnaryExpressionNode {
    pub fn new(child: Box<YarnExpression>, operator: UnaryOperator, line: usize, col: usize) -> (r:
        UnaryExpressionNode)
        ensures
            r.child == child,
            r.operator == operator,
            r.line == line,
            r.col == col,
    {
        UnaryExpressionNode { operator, child, line, col }
    }

    pub fn new_boxed(
        child: Box<YarnExpression>,
        operator: UnaryOperator,
        line: usize,
        col: usize,
    ) -> (r: Box<UnaryExpressionNode>)
        ensures
            r.child == child,
            r.operator == operator,
            r.line == line,
            r.col == col,
    {
        Box::new(UnaryExpressionNode { operator, child, line, col })
    }
}

impl FactorExpressionNode {
    pub fn new(
        lhs: Box<YarnExpression>,
        rhs: Box<YarnExpression>,
        operator: FactorOperator,
        line: usize,
        col: usize,
    ) -> (r: FactorExpressionNode)
        ensures
            r.lhs == lhs,
            r.rhs == rhs,
            r.operator == operator,
            r.line == line,
            r.col == col,
    {
        FactorExpressionNode { lhs, rhs, operator, line, col }
    }

    pub fn new_boxed(
        lhs: Box<YarnExpression>,
        rhs: Box<YarnExpression>,
        operator: FactorOperator,
        line: usize,
        col: usize,
    ) -> (r: Box<FactorExpressionNode>)
        ensures
            r.lhs == lhs,
            r.rhs == rhs,
            r.operator == operator,
            r.line == line,
            r.col == col,
    {
        Box::new(FactorExpressionNode { lhs, rhs, operator, line, col })
    }
}

impl AdditiveExpressionNode {
    pub fn new(
        lhs: Box<YarnExpression>,
        rhs: Box<YarnExpression>,
        operator: AdditiveOperator,
        line: usize,
        col: usize,
    ) -> (r: AdditiveExpressionNode)
        ensures
            r.lhs == lhs,
            r.rhs == rhs,
            r.operator == operator,
            r.line == line,
            r.col == col,
    {
        AdditiveExpressionNode { lhs, rhs, operator, line, col }
    }

    pub fn new_boxed(
        lhs: Box<YarnExpression>,
        rhs: Box<YarnExpression>,
        operator: AdditiveOperator,
        line: usize,
        col: usize,
    ) -> (r: Box<AdditiveExpressionNode>)
        ensures
            r.lhs == lhs,
            r.rhs == rhs,
            r.operator == operator,
            r.line == line,
            r.col == col,
    {
        Box::new(AdditiveExpressionNode { lhs, rhs, operator, line, col })
    }
}

impl ComparisonExpressionNode {
    pub fn new(
        lhs: Box<YarnExpression>,
        rhs: Box<YarnExpression>,
        operator: ComparisonOperator,
        line: usize,
        col: usize,
    ) -> (r: ComparisonExpressionNode)
        ensures
            r.lhs == lhs,
            r.rhs == rhs,
            r.operator == operator,
            r.line == line,
            r.col == col,
    {
        ComparisonExpressionNode { lhs, rhs, operator, line, col }
    }

    pub fn new_boxed(
        lhs: Box<YarnExpression>,
        rhs: Box<YarnExpression>,
        operator: ComparisonOperator,
        line: usize,
        col: usize,
    ) -> (r: Box<ComparisonExpressionNode>)
        ensures
            r.lhs == lhs,
            r.rhs == rhs,
            r.operator == operator,
            r.line == line,
            r.col == col,
    {
        Box::new(ComparisonExpressionNode { lhs, rhs, operator, line, col })
    }
}

impl EqualityExpressionNode {
    pub fn new(
        lhs: Box<YarnExpression>,
        rhs: Box<YarnExpression>,
        operator: EqualityOperator,
        line: usize,
        col: usize,
    ) -> (r: EqualityExpressionNode)
        ensures
            r.lhs == lhs,
            r.rhs == rhs,
            r.operator == operator,
            r.line == line,
            r.col == col,
    {
        EqualityExpressionNode { lhs, rhs, operator, line, col }
    }

    pub fn new_boxed(
        lhs: Box<YarnExpression>,
        rhs: Box<YarnExpression>,
        operator: EqualityOperator,
        line: usize,
        col: usize,
    ) -> (r: Box<EqualityExpressionNode>)
        ensures
            r.lhs == lhs,
            r.rhs == rhs,
            r.operator == operator,
            r.line == line,
            r.col == col,
    {
        Box::new(EqualityExpressionNode { lhs, rhs, operator, line, col })
    }
}

impl FunctionNode {
    pub fn new(arguments: Vec<YarnExpression>, function_name: String, line: usize, col: usize) -> (r:
        FunctionNode)
        ensures
            r.arguments == arguments,
            r.function_name == function_name,
            r.line == line,
            r.col == col,
    {
        FunctionNode { arguments, function_name, line, col }
    }

    pub fn new_boxed(
        arguments: Vec<YarnExpression>,
        function_name: String,
        line: usize,
        col: usize,
    ) -> (r: Box<FunctionNode>)
        ensures
            r.arguments == arguments,
            r.function_name == function_name,
            r.line == line,
            r.col == col,
    {
        Box::new(FunctionNode { arguments, function_name, line, col })
    }
}

} // verus!
