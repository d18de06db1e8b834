//! The expression parser: six precedence layers over the read-only token
//! cursor. Each rule either parses (giving a tree and the offset after it),
//! reports malformed input, or fails (does not apply at that offset).
use vstd::prelude::*;
use vstd::string::StringExecFns;
use crate::ast::{
    AdditiveExpressionNode, AdditiveOperator, BinaryOperator, BoolLiteralNode,
    ComparisonExpressionNode, ComparisonOperator, EqualityExpressionNode, EqualityOperator, Expr, args_view,
    FactorExpressionNode, FactorOperator, FunctionNode, NumberLiteralNode, StringLiteralNode,
    UnaryExpressionNode, UnaryOperator, VariableNode, YarnExpression,
};
use crate::error::{YarnError, YarnErrorKind};
use crate::lexer::{tokenize, tokenize_spec};
use crate::token::{
    all_digits, col_at, content_of, has_type, line_at, skip_spaces, YarnToken, YarnTokenQueue,
    YarnTokenType,
};

verus! {

/// The model of a parse outcome.
pub enum SpecParse {
    Parsed(Expr, int),
    Error(YarnError),
    Failed,
}

/// The outcome of a grammar rule at an offset: a tree and the offset after it;
/// malformed input, which aborts the whole expression; or `Failed`, meaning the
/// rule does not apply there and the caller may try another.
#[derive(Debug)]
pub enum YarnParseResult {
    Parsed(YarnExpression, usize),
    Error(YarnError),
    Failed,
}

impl View for YarnParseResult {
    type V = SpecParse;

    open spec fn view(&self) -> SpecParse {
        match self {
            YarnParseResult::Parsed(e, n) => SpecParse::Parsed(e@, *n as int),
            YarnParseResult::Error(e) => SpecParse::Error(*e),
            YarnParseResult::Failed => SpecParse::Failed,
        }
    }
}

/// Grammar rule that tries the literals in turn and then a parenthesized
/// expression.
pub struct PrimaryExpressionNode;

/// How many tokens are left from `i` on.
pub open spec fn remaining(ts: Seq<YarnToken>, i: int) -> nat {
    if 0 <= i < ts.len() {
        (ts.len() - i) as nat
    } else {
        0
    }
}

/// An error of kind `kind` at (`line`, `col`).
pub open spec fn err(kind: YarnErrorKind, line: usize, col: usize) -> YarnError {
    YarnError { kind, line, col }
}

/// The text of the token at `i`.
pub open spec fn tok_text(ts: Seq<YarnToken>, src: Seq<char>, i: int) -> Seq<char> {
    content_of(src, ts[i])
}

/// `$` followed by a word.
pub open spec fn parse_variable_spec(ts: Seq<YarnToken>, src: Seq<char>, off: int) -> SpecParse {
    if has_type(ts, off, YarnTokenType::DOLLAR_SIGN) {
        if has_type(ts, off + 1, YarnTokenType::WORD) {
            SpecParse::Parsed(
                Expr::Variable(tok_text(ts, src, off + 1), ts[off + 1].line, ts[off + 1].col),
                off + 2,
            )
        } else {
            SpecParse::Error(
                err(
                    YarnErrorKind::InvalidVariableIdentifier,
                    line_at(ts, off + 1),
                    col_at(ts, off + 1),
                ),
            )
        }
    } else {
        SpecParse::Failed
    }
}

/// The rest of a string literal from token `i`, having read `acc`; `escape`
/// says that the token before was an unescaped backslash.
pub open spec fn string_body_spec(
    ts: Seq<YarnToken>,
    src: Seq<char>,
    i: int,
    escape: bool,
    acc: Seq<char>,
) -> SpecParse
    decreases remaining(ts, i),
{
    if !(0 <= i < ts.len()) {
        SpecParse::Error(err(YarnErrorKind::Eof, line_at(ts, i), col_at(ts, i)))
    } else if ts[i].token_type == YarnTokenType::QUOTATION && !escape {
        SpecParse::Parsed(Expr::Str(acc), i + 1)
    } else if ts[i].token_type == YarnTokenType::END_LINE {
        SpecParse::Error(err(YarnErrorKind::Eol, ts[i].line, ts[i].col))
    } else if ts[i].token_type == YarnTokenType::EOF {
        SpecParse::Error(err(YarnErrorKind::Eof, ts[i].line, ts[i].col))
    } else {
        let esc = ts[i].token_type == YarnTokenType::BACKWARD_SLASH && !escape;
        string_body_spec(
            ts,
            src,
            i + 1,
            esc,
            if esc {
                acc
            } else {
                acc + tok_text(ts, src, i)
            },
        )
    }
}

/// A quotation mark, the text up to the next unescaped quotation mark, and it.
pub open spec fn parse_string_spec(ts: Seq<YarnToken>, src: Seq<char>, off: int) -> SpecParse {
    if has_type(ts, off, YarnTokenType::QUOTATION) {
        string_body_spec(ts, src, off + 1, false, seq![])
    } else {
        SpecParse::Failed
    }
}

/// A word of digits, optionally followed by a period and a second word of
/// digits. A period followed by a word that is not all digits is an error.
pub open spec fn parse_number_spec(ts: Seq<YarnToken>, src: Seq<char>, off: int) -> SpecParse {
    if has_type(ts, off, YarnTokenType::WORD) && all_digits(tok_text(ts, src, off)) {
        if has_type(ts, off + 1, YarnTokenType::PERIOD) && has_type(
            ts,
            off + 2,
            YarnTokenType::WORD,
        ) {
            if all_digits(tok_text(ts, src, off + 2)) {
                SpecParse::Parsed(
                    Expr::Number(tok_text(ts, src, off) + seq!['.'] + tok_text(ts, src, off + 2)),
                    off + 3,
                )
            } else {
                SpecParse::Error(
                    err(YarnErrorKind::InvalidNumber, ts[off + 2].line, ts[off + 2].col),
                )
            }
        } else {
            SpecParse::Parsed(Expr::Number(tok_text(ts, src, off)), off + 1)
        }
    } else {
        SpecParse::Failed
    }
}

/// A word that reads `true` or `false`; any other word is an error.
pub open spec fn parse_bool_spec(ts: Seq<YarnToken>, src: Seq<char>, off: int) -> SpecParse {
    if has_type(ts, off, YarnTokenType::WORD) {
        if tok_text(ts, src, off) == "true"@ {
            SpecParse::Parsed(Expr::Bool(true), off + 1)
        } else if tok_text(ts, src, off) == "false"@ {
            SpecParse::Parsed(Expr::Bool(false), off + 1)
        } else {
            SpecParse::Error(err(YarnErrorKind::InvalidBoolean, ts[off].line, ts[off].col))
        }
    } else {
        SpecParse::Failed
    }
}

/// A word directly followed by `(`, then the arguments up to `)`.
pub open spec fn parse_function_spec(ts: Seq<YarnToken>, src: Seq<char>, off: int) -> SpecParse
    decreases remaining(ts, off), 0nat,
{
    if has_type(ts, off, YarnTokenType::WORD) && has_type(ts, off + 1, YarnTokenType::LEFT_PAREN) {
        call_args_spec(ts, src, off, off + 2, false, seq![])
    } else {
        SpecParse::Failed
    }
}

/// The arguments of the call named at `off`, from token `i` on, having read
/// `args`; `comma` says that a comma came after the last argument.
pub open spec fn call_args_spec(
    ts: Seq<YarnToken>,
    src: Seq<char>,
    off: int,
    i: int,
    comma: bool,
    args: Seq<Expr>,
) -> SpecParse
    decreases remaining(ts, i), 7nat,
{
    if !(0 <= i < ts.len()) {
        SpecParse::Error(err(YarnErrorKind::UnexpectedToken, line_at(ts, i), col_at(ts, i)))
    } else if ts[i].token_type == YarnTokenType::RIGHT_PAREN {
        SpecParse::Parsed(
            Expr::Call(tok_text(ts, src, off), args, line_at(ts, off), col_at(ts, off)),
            i + 1,
        )
    } else {
        match parse_equality_spec(ts, src, i) {
            SpecParse::Parsed(e, end) => if end > i {
                call_args_spec(ts, src, off, end, false, args.push(e))
            } else {
                SpecParse::Failed
            },
            SpecParse::Error(e) => SpecParse::Error(e),
            SpecParse::Failed => if ts[i].token_type == YarnTokenType::COMMA {
                if comma {
                    SpecParse::Error(err(YarnErrorKind::UnexpectedToken, ts[i].line, ts[i].col))
                } else {
                    call_args_spec(ts, src, off, i + 1, true, args)
                }
            } else if ts[i].token_type == YarnTokenType::SPACE {
                call_args_spec(ts, src, off, i + 1, comma, args)
            } else {
                SpecParse::Error(err(YarnErrorKind::UnexpectedToken, ts[i].line, ts[i].col))
            },
        }
    }
}

/// The first of variable, string, number, call, boolean and parenthesized
/// expression that does not fail, tried in that order at the same offset. The
/// call is tried before the boolean: a word directly followed by `(` names a
/// function, and any other word that is not `true` or `false` is an error.
pub open spec fn parse_primary_spec(ts: Seq<YarnToken>, src: Seq<char>, off: int) -> SpecParse
    decreases remaining(ts, off), 1nat,
{
    if !(0 <= off < ts.len()) {
        SpecParse::Failed
    } else if !(parse_variable_spec(ts, src, off) is Failed) {
        parse_variable_spec(ts, src, off)
    } else if !(parse_string_spec(ts, src, off) is Failed) {
        parse_string_spec(ts, src, off)
    } else if !(parse_number_spec(ts, src, off) is Failed) {
        parse_number_spec(ts, src, off)
    } else if !(parse_function_spec(ts, src, off) is Failed) {
        parse_function_spec(ts, src, off)
    } else if !(parse_bool_spec(ts, src, off) is Failed) {
        parse_bool_spec(ts, src, off)
    } else if has_type(ts, off, YarnTokenType::LEFT_PAREN) {
        match parse_equality_spec(ts, src, off + 1) {
            SpecParse::Parsed(e, end) => if has_type(ts, end, YarnTokenType::RIGHT_PAREN) {
                SpecParse::Parsed(e, end + 1)
            } else {
                SpecParse::Error(
                    err(YarnErrorKind::UnexpectedToken, line_at(ts, end), col_at(ts, end)),
                )
            },
            other => other,
        }
    } else {
        SpecParse::Failed
    }
}

/// `-` or `!` before a primary expression, or a primary expression alone.
pub open spec fn parse_unary_spec(ts: Seq<YarnToken>, src: Seq<char>, off: int) -> SpecParse
    decreases remaining(ts, off), 2nat,
{
    if !(0 <= off < ts.len()) {
        SpecParse::Failed
    } else if has_type(ts, off, YarnTokenType::SUB) || has_type(ts, off, YarnTokenType::BANG) {
        let op = if has_type(ts, off, YarnTokenType::SUB) {
            UnaryOperator::NEGATIVE
        } else {
            UnaryOperator::NOT
        };
        match parse_primary_spec(ts, src, off + 1) {
            SpecParse::Parsed(x, end) => SpecParse::Parsed(
                Expr::Unary(op, Box::new(x), ts[off].line, ts[off].col),
                end,
            ),
            other => other,
        }
    } else {
        parse_primary_spec(ts, src, off)
    }
}

/// The left operand `lhs` (ending at `le`), combined with the outcome of the
/// right operand: a right operand gives a binary node, an error in it aborts,
/// and when it fails the left operand stands alone.
pub open spec fn combine(
    lhs: Expr,
    le: int,
    op: BinaryOperator,
    rhs: SpecParse,
    line: usize,
    col: usize,
) -> SpecParse {
    match rhs {
        SpecParse::Parsed(r, re) => SpecParse::Parsed(
            Expr::Binary(op, Box::new(lhs), Box::new(r), line, col),
            re,
        ),
        SpecParse::Error(e) => SpecParse::Error(e),
        SpecParse::Failed => SpecParse::Parsed(lhs, le),
    }
}

/// The operator of each binary layer that the token at `i` names, if any.
pub open spec fn factor_operator(ts: Seq<YarnToken>, i: int) -> Option<BinaryOperator> {
    if has_type(ts, i, YarnTokenType::FORWARD_SLASH) {
        Some(BinaryOperator::Factor(FactorOperator::DIV))
    } else if has_type(ts, i, YarnTokenType::MULT) {
        Some(BinaryOperator::Factor(FactorOperator::MUL))
    } else {
        None
    }
}

pub open spec fn additive_operator(ts: Seq<YarnToken>, i: int) -> Option<BinaryOperator> {
    if has_type(ts, i, YarnTokenType::ADD) {
        Some(BinaryOperator::Additive(AdditiveOperator::ADD))
    } else if has_type(ts, i, YarnTokenType::SUB) {
        Some(BinaryOperator::Additive(AdditiveOperator::SUB))
    } else {
        None
    }
}

pub open spec fn comparison_operator(ts: Seq<YarnToken>, i: int) -> Option<BinaryOperator> {
    if has_type(ts, i, YarnTokenType::GREATER_THAN) {
        Some(BinaryOperator::Comparison(ComparisonOperator::GREATER_THAN))
    } else if has_type(ts, i, YarnTokenType::LESS_THAN) {
        Some(BinaryOperator::Comparison(ComparisonOperator::LESS_THAN))
    } else if has_type(ts, i, YarnTokenType::GREATER_THAN_EQ) {
        Some(BinaryOperator::Comparison(ComparisonOperator::GREATER_THAN_EQ))
    } else if has_type(ts, i, YarnTokenType::LESS_THAN_EQ) {
        Some(BinaryOperator::Comparison(ComparisonOperator::LESS_THAN_EQ))
    } else {
        None
    }
}

pub open spec fn equality_operator(ts: Seq<YarnToken>, i: int) -> Option<BinaryOperator> {
    if has_type(ts, i, YarnTokenType::EQUAL_TOO) {
        Some(BinaryOperator::Equality(EqualityOperator::EQUAL_TOO))
    } else if has_type(ts, i, YarnTokenType::NOT_EQUAL_TOO) {
        Some(BinaryOperator::Equality(EqualityOperator::NOT_EQUAL_TOO))
    } else {
        None
    }
}

/// `*` and `/` over unary expressions.
pub open spec fn parse_factor_spec(ts: Seq<YarnToken>, src: Seq<char>, off: int) -> SpecParse
    decreases remaining(ts, off), 3nat,
{
    if !(0 <= off < ts.len()) {
        SpecParse::Failed
    } else {
        match parse_unary_spec(ts, src, off) {
            SpecParse::Parsed(lhs, le) => {
                let opi = skip_spaces(ts, le);
                let ri = skip_spaces(ts, opi + 1);
                if factor_operator(ts, opi) is Some && ri > off {
                    combine(
                        lhs,
                        le,
                        factor_operator(ts, opi)->0,
                        parse_unary_spec(ts, src, ri),
                        line_at(ts, off),
                        col_at(ts, off),
                    )
                } else {
                    SpecParse::Parsed(lhs, le)
                }
            },
            other => other,
        }
    }
}

/// `+` and `-` over factor expressions.
pub open spec fn parse_additive_spec(ts: Seq<YarnToken>, src: Seq<char>, off: int) -> SpecParse
    decreases remaining(ts, off), 4nat,
{
    if !(0 <= off < ts.len()) {
        SpecParse::Failed
    } else {
        match parse_factor_spec(ts, src, off) {
            SpecParse::Parsed(lhs, le) => {
                let opi = skip_spaces(ts, le);
                let ri = skip_spaces(ts, opi + 1);
                if additive_operator(ts, opi) is Some && ri > off {
                    combine(
                        lhs,
                        le,
                        additive_operator(ts, opi)->0,
                        parse_factor_spec(ts, src, ri),
                        line_at(ts, off),
                        col_at(ts, off),
                    )
                } else {
                    SpecParse::Parsed(lhs, le)
                }
            },
            other => other,
        }
    }
}

/// `<`, `>`, `<=` and `>=` over additive expressions.
pub open spec fn parse_comparison_spec(ts: Seq<YarnToken>, src: Seq<char>, off: int) -> SpecParse
    decreases remaining(ts, off), 5nat,
{
    if !(0 <= off < ts.len()) {
        SpecParse::Failed
    } else {
        match parse_additive_spec(ts, src, off) {
            SpecParse::Parsed(lhs, le) => {
                let opi = skip_spaces(ts, le);
                let ri = skip_spaces(ts, opi + 1);
                if comparison_operator(ts, opi) is Some && ri > off {
                    combine(
                        lhs,
                        le,
                        comparison_operator(ts, opi)->0,
                        parse_additive_spec(ts, src, ri),
                        line_at(ts, off),
                        col_at(ts, off),
                    )
                } else {
                    SpecParse::Parsed(lhs, le)
                }
            },
            other => other,
        }
    }
}

/// `==` and `!=` over comparison expressions: the loosest layer.
pub open spec fn parse_equality_spec(ts: Seq<YarnToken>, src: Seq<char>, off: int) -> SpecParse
    decreases remaining(ts, off), 6nat,
{
    if !(0 <= off < ts.len()) {
        SpecParse::Failed
    } else {
        match parse_comparison_spec(ts, src, off) {
            SpecParse::Parsed(lhs, le) => {
                let opi = skip_spaces(ts, le);
                let ri = skip_spaces(ts, opi + 1);
                if equality_operator(ts, opi) is Some && ri > off {
                    combine(
                        lhs,
                        le,
                        equality_operator(ts, opi)->0,
                        parse_comparison_spec(ts, src, ri),
                        line_at(ts, off),
                        col_at(ts, off),
                    )
                } else {
                    SpecParse::Parsed(lhs, le)
                }
            },
            other => other,
        }
    }
}

/// A parse that succeeded at `off` consumed at least one token and ends inside
/// the sequence (or just after it).
pub open spec fn progress(r: SpecParse, off: int, n: int) -> bool {
    r matches SpecParse::Parsed(_, end) ==> off < end <= n
}

/// Skipping spaces never moves back, nor past the end.
pub proof fn lemma_skip_spaces(ts: Seq<YarnToken>, i: int)
    ensures
        skip_spaces(ts, i) >= i,
        i <= ts.len() ==> skip_spaces(ts, i) <= ts.len(),
        0 <= i ==> skip_spaces(ts, i) >= ts.len() || ts[skip_spaces(ts, i)].token_type != YarnTokenType::SPACE,
    decreases ts.len() - i,
{
    if 0 <= i < ts.len() && ts[i].token_type == YarnTokenType::SPACE {
        lemma_skip_spaces(ts, i + 1);
    }
}


impl VariableNode {
    /// `$` followed by a word: a reference to the variable of that name.
    pub fn parse(tokens: &YarnTokenQueue, offset: usize) -> (r: YarnParseResult)
        requires
            tokens.wf(),
        ensures
            r@ == parse_variable_spec(tokens.spec_tokens(), tokens.spec_source(), offset as int),
            progress(r@, offset as int, tokens.spec_tokens().len() as int),
    {
        if tokens.check_index(offset, YarnTokenType::DOLLAR_SIGN) {
            if tokens.check_index(offset + 1, YarnTokenType::WORD) {
                let name = String::from_str(tokens.content(offset + 1));
                let node = VariableNode::new(
                    name,
                    tokens.peek_line(offset + 1),
                    tokens.peek_col(offset + 1),
                );
                YarnParseResult::Parsed(YarnExpression::Variable(node), offset + 2)
            } else {
                YarnParseResult::Error(
                    YarnError::new_invalid_variable_identifier_error(
                        tokens.peek_line(offset + 1),
                        tokens.peek_col(offset + 1),
                    ),
                )
            }
        } else {
            YarnParseResult::Failed
        }
    }
}

impl StringLiteralNode {
    /// A quoted string. A backslash makes the next token literal (an escaped
    /// quotation mark does not end the string) and is itself dropped.
    pub fn parse(tokens: &YarnTokenQueue, offset: usize) -> (r: YarnParseResult)
        requires
            tokens.wf(),
        ensures
            r@ == parse_string_spec(tokens.spec_tokens(), tokens.spec_source(), offset as int),
            progress(r@, offset as int, tokens.spec_tokens().len() as int),
    {
        let ghost ts = tokens.spec_tokens();
        let ghost src = tokens.spec_source();
        if !tokens.check_index(offset, YarnTokenType::QUOTATION) {
            return YarnParseResult::Failed;
        }
        let n = tokens.len();
        let mut cursor: usize = offset + 1;
        let mut content = String::new();
        let mut escape = false;
        loop
            invariant
                tokens.wf(),
                ts == tokens.spec_tokens(),
                src == tokens.spec_source(),
                n == ts.len(),
                offset < cursor <= n,
                parse_string_spec(ts, src, offset as int) == string_body_spec(
                    ts,
                    src,
                    cursor as int,
                    escape,
                    content@,
                ),
            decreases n - cursor,
        {
            if cursor >= n {
                return YarnParseResult::Error(
                    YarnError::new_eof_error(tokens.peek_line(cursor), tokens.peek_col(cursor)),
                );
            }
            if tokens.check_index(cursor, YarnTokenType::QUOTATION) && !escape {
                let node = StringLiteralNode { value: content };
                return YarnParseResult::Parsed(YarnExpression::Str(node), cursor + 1);
            }
            if tokens.check_index(cursor, YarnTokenType::END_LINE) {
                return YarnParseResult::Error(
                    YarnError::new_eol_error(tokens.peek_line(cursor), tokens.peek_col(cursor)),
                );
            }
            if tokens.check_index(cursor, YarnTokenType::EOF) {
                return YarnParseResult::Error(
                    YarnError::new_eof_error(tokens.peek_line(cursor), tokens.peek_col(cursor)),
                );
            }
            let esc = tokens.check_index(cursor, YarnTokenType::BACKWARD_SLASH) && !escape;
            if !esc {
                content.append(tokens.content(cursor));
            }
            escape = esc;
            cursor = cursor + 1;
        }
    }
}

impl NumberLiteralNode {
    /// An unsigned number literal: digits, optionally a period and more digits.
    pub fn parse(tokens: &YarnTokenQueue, offset: usize) -> (r: YarnParseResult)
        requires
            tokens.wf(),
        ensures
            r@ == parse_number_spec(tokens.spec_tokens(), tokens.spec_source(), offset as int),
            progress(r@, offset as int, tokens.spec_tokens().len() as int),
    {
        if tokens.check_index(offset, YarnTokenType::WORD) && tokens.is_numeric(offset) {
            let mut value = String::from_str(tokens.content(offset));
            if tokens.check_index(offset + 1, YarnTokenType::PERIOD) && tokens.check_index(
                offset + 2,
                YarnTokenType::WORD,
            ) {
                if tokens.is_numeric(offset + 2) {
                    proof {
                        reveal_strlit(".");
                        assert("."@ =~= seq!['.']);
                    }
                    value.append(".");
                    value.append(tokens.content(offset + 2));
                    let node = NumberLiteralNode { value };
                    return YarnParseResult::Parsed(YarnExpression::Number(node), offset + 3);
                } else {
                    return YarnParseResult::Error(
                        YarnError::new_invalid_number_error(
                            tokens.peek_line(offset + 2),
                            tokens.peek_col(offset + 2),
                        ),
                    );
                }
            }
            let node = NumberLiteralNode { value };
            YarnParseResult::Parsed(YarnExpression::Number(node), offset + 1)
        } else {
            YarnParseResult::Failed
        }
    }
}

impl BoolLiteralNode {
    /// `true` or `false`; any other word here is an error.
    pub fn parse(tokens: &YarnTokenQueue, offset: usize) -> (r: YarnParseResult)
        requires
            tokens.wf(),
        ensures
            r@ == parse_bool_spec(tokens.spec_tokens(), tokens.spec_source(), offset as int),
            progress(r@, offset as int, tokens.spec_tokens().len() as int),
    {
        if tokens.check_index(offset, YarnTokenType::WORD) {
            let text = String::from_str(tokens.content(offset));
            if text == String::from_str("true") {
                YarnParseResult::Parsed(YarnExpression::Bool(BoolLiteralNode::new(true)), offset + 1)
            } else if text == String::from_str("false") {
                YarnParseResult::Parsed(YarnExpression::Bool(BoolLiteralNode::new(false)), offset + 1)
            } else {
                YarnParseResult::Error(
                    YarnError::new_invalid_boolean_error(
                        tokens.peek_line(offset),
                        tokens.peek_col(offset),
                    ),
                )
            }
        } else {
            YarnParseResult::Failed
        }
    }
}

impl FunctionNode {
    /// The call named by the word at `offset`, with arguments `evals`.
    fn call_node(tokens: &YarnTokenQueue, offset: usize, evals: Vec<YarnExpression>) -> (r:
        YarnExpression)
        requires
            tokens.wf(),
            offset < tokens.spec_tokens().len(),
        ensures
            r@ == Expr::Call(
                tok_text(tokens.spec_tokens(), tokens.spec_source(), offset as int),
                args_view(evals@),
                line_at(tokens.spec_tokens(), offset as int),
                col_at(tokens.spec_tokens(), offset as int),
            ),
    {
        let name = String::from_str(tokens.content(offset));
        let node = FunctionNode::new(evals, name, tokens.peek_line(offset), tokens.peek_col(offset));
        let r = YarnExpression::Function(node);
        r
    }

    /// A call: a word, `(`, arguments separated by single commas (spaces are
    /// skipped), and `)`.
    pub fn parse(tokens: &YarnTokenQueue, offset: usize) -> (r: YarnParseResult)
        requires
            tokens.wf(),
        ensures
            r@ == parse_function_spec(tokens.spec_tokens(), tokens.spec_source(), offset as int),
            progress(r@, offset as int, tokens.spec_tokens().len() as int),
        decreases remaining(tokens.spec_tokens(), offset as int), 0nat,
    {
        let ghost ts = tokens.spec_tokens();
        let ghost src = tokens.spec_source();
        if !tokens.check_index(offset, YarnTokenType::WORD) {
            return YarnParseResult::Failed;
        }
        if !tokens.check_index(offset + 1, YarnTokenType::LEFT_PAREN) {
            return YarnParseResult::Failed;
        }
        let n = tokens.len();
        let mut evals: Vec<YarnExpression> = Vec::new();
        let mut i: usize = offset + 2;
        let mut comma = false;
        assert(args_view(evals@) == Seq::<Expr>::empty());
        loop
            invariant
                tokens.wf(),
                ts == tokens.spec_tokens(),
                src == tokens.spec_source(),
                n == ts.len(),
                offset + 2 <= i <= n,
                has_type(ts, offset as int, YarnTokenType::WORD),
                parse_function_spec(ts, src, offset as int) == call_args_spec(
                    ts,
                    src,
                    offset as int,
                    i as int,
                    comma,
                    args_view(evals@),
                ),
            decreases n - i,
        {
            if i >= n {
                return YarnParseResult::Error(
                    YarnError::new_unexpected_token_error(tokens.peek_line(i), tokens.peek_col(i)),
                );
            }
            if tokens.check_index(i, YarnTokenType::RIGHT_PAREN) {
                let call = FunctionNode::call_node(tokens, offset, evals);
                return YarnParseResult::Parsed(call, i + 1);
            }
            match EqualityExpressionNode::parse(tokens, i) {
                YarnParseResult::Parsed(e, end) => {
                    let ghost before = evals@;
                    evals.push(e);
                    assert(evals@.drop_last() =~= before);
                    i = end;
                    comma = false;
                },
                YarnParseResult::Error(e) => {
                    return YarnParseResult::Error(e);
                },
                YarnParseResult::Failed => {
                    if tokens.check_index(i, YarnTokenType::COMMA) {
                        if comma {
                            return YarnParseResult::Error(
                                YarnError::new_unexpected_token_error(
                                    tokens.peek_line(i),
                                    tokens.peek_col(i),
                                ),
                            );
                        }
                        comma = true;
                        i = i + 1;
                    } else if tokens.check_index(i, YarnTokenType::SPACE) {
                        i = i + 1;
                    } else {
                        return YarnParseResult::Error(
                            YarnError::new_unexpected_token_error(
                                tokens.peek_line(i),
                                tokens.peek_col(i),
                            ),
                        );
                    }
                },
            }
        }
    }
}

impl PrimaryExpressionNode {
    /// Variable, string, number, call, boolean, then `( expression )`, each
    /// tried at `offset`; the first that does not fail wins.
    pub fn parse(tokens: &YarnTokenQueue, offset: usize) -> (r: YarnParseResult)
        requires
            tokens.wf(),
        ensures
            r@ == parse_primary_spec(tokens.spec_tokens(), tokens.spec_source(), offset as int),
            progress(r@, offset as int, tokens.spec_tokens().len() as int),
        decreases remaining(tokens.spec_tokens(), offset as int), 1nat,
    {
        if offset >= tokens.len() {
            return YarnParseResult::Failed;
        }
        let r = VariableNode::parse(tokens, offset);
        match r {
            YarnParseResult::Failed => {},
            other => {
                return other;
            },
        }
        let r = StringLiteralNode::parse(tokens, offset);
        match r {
            YarnParseResult::Failed => {},
            other => {
                return other;
            },
        }
        let r = NumberLiteralNode::parse(tokens, offset);
        match r {
            YarnParseResult::Failed => {},
            other => {
                return other;
            },
        }
        let r = FunctionNode::parse(tokens, offset);
        match r {
            YarnParseResult::Failed => {},
            other => {
                return other;
            },
        }
        let r = BoolLiteralNode::parse(tokens, offset);
        match r {
            YarnParseResult::Failed => {},
            other => {
                return other;
            },
        }
        if tokens.check_index(offset, YarnTokenType::LEFT_PAREN) {
            match EqualityExpressionNode::parse(tokens, offset + 1) {
                YarnParseResult::Parsed(e, end) => {
                    if tokens.check_index(end, YarnTokenType::RIGHT_PAREN) {
                        YarnParseResult::Parsed(e, end + 1)
                    } else {
                        YarnParseResult::Error(
                            YarnError::new_unexpected_token_error(
                                tokens.peek_line(end),
                                tokens.peek_col(end),
                            ),
                        )
                    }
                },
                other => other,
            }
        } else {
            YarnParseResult::Failed
        }
    }
}

impl UnaryExpressionNode {
    /// `-` (negate) or `!` (not) applied to a primary expression, or a primary
    /// expression alone.
    pub fn parse(tokens: &YarnTokenQueue, offset: usize) -> (r: YarnParseResult)
        requires
            tokens.wf(),
        ensures
            r@ == parse_unary_spec(tokens.spec_tokens(), tokens.spec_source(), offset as int),
            progress(r@, offset as int, tokens.spec_tokens().len() as int),
        decreases remaining(tokens.spec_tokens(), offset as int), 2nat,
    {
        if offset >= tokens.len() {
            return YarnParseResult::Failed;
        }
        let operator = if tokens.check_index(offset, YarnTokenType::SUB) {
            Some(UnaryOperator::NEGATIVE)
        } else if tokens.check_index(offset, YarnTokenType::BANG) {
            Some(UnaryOperator::NOT)
        } else {
            None
        };
        match operator {
            Some(op) => {
                let line = tokens.peek_line(offset);
                let col = tokens.peek_col(offset);
                match PrimaryExpressionNode::parse(tokens, offset + 1) {
                    YarnParseResult::Parsed(x, end) => {
                        let node = UnaryExpressionNode::new(Box::new(x), op, line, col);
                        YarnParseResult::Parsed(YarnExpression::Unary(node), end)
                    },
                    other => other,
                }
            },
            None => PrimaryExpressionNode::parse(tokens, offset),
        }
    }
}

impl FactorExpressionNode {
    /// `*` or `/` between two unary expressions, or one unary expression. Operands are binary, not chained; the node carries the
    /// position of the left operand's first token.
    pub fn parse(tokens: &YarnTokenQueue, offset: usize) -> (r: YarnParseResult)
        requires
            tokens.wf(),
        ensures
            r@ == parse_factor_spec(tokens.spec_tokens(), tokens.spec_source(), offset as int),
            progress(r@, offset as int, tokens.spec_tokens().len() as int),
        decreases remaining(tokens.spec_tokens(), offset as int), 3nat,
    {
        let ghost ts = tokens.spec_tokens();
        if offset >= tokens.len() {
            return YarnParseResult::Failed;
        }
        match UnaryExpressionNode::parse(tokens, offset) {
            YarnParseResult::Parsed(lhs, lhs_end) => {
                let opi = tokens.next_non_space_after(lhs_end - 1);
                let operator = if tokens.check_index(opi, YarnTokenType::FORWARD_SLASH) {
                Some(FactorOperator::DIV)
            } else if tokens.check_index(opi, YarnTokenType::MULT) {
                Some(FactorOperator::MUL)
            } else {
                None
            };
                match operator {
                    Some(op) => {
                        let ri = tokens.next_non_space_after(opi);
                        proof {
                            lemma_skip_spaces(ts, lhs_end as int);
                            lemma_skip_spaces(ts, opi + 1);
                        }
                        assert(factor_operator(ts, opi as int) == Some(BinaryOperator::Factor(op)));
                        match UnaryExpressionNode::parse(tokens, ri) {
                            YarnParseResult::Parsed(rhs, rhs_end) => {
                                let node = FactorExpressionNode::new(
                                    Box::new(lhs),
                                    Box::new(rhs),
                                    op,
                                    tokens.peek_line(offset),
                                    tokens.peek_col(offset),
                                );
                                YarnParseResult::Parsed(YarnExpression::Factor(node), rhs_end)
                            },
                            YarnParseResult::Error(e) => YarnParseResult::Error(e),
                            YarnParseResult::Failed => YarnParseResult::Parsed(lhs, lhs_end),
                        }
                    },
                    None => YarnParseResult::Parsed(lhs, lhs_end),
                }
            },
            other => other,
        }
    }
}

impl AdditiveExpressionNode {
    /// `+` or `-` between two factor expressions, or one factor expression. Operands are binary, not chained; the node carries the
    /// position of the left operand's first token.
    pub fn parse(tokens: &YarnTokenQueue, offset: usize) -> (r: YarnParseResult)
        requires
            tokens.wf(),
        ensures
            r@ == parse_additive_spec(tokens.spec_tokens(), tokens.spec_source(), offset as int),
            progress(r@, offset as int, tokens.spec_tokens().len() as int),
        decreases remaining(tokens.spec_tokens(), offset as int), 4nat,
    {
        let ghost ts = tokens.spec_tokens();
        if offset >= tokens.len() {
            return YarnParseResult::Failed;
        }
        match FactorExpressionNode::parse(tokens, offset) {
            YarnParseResult::Parsed(lhs, lhs_end) => {
                let opi = tokens.next_non_space_after(lhs_end - 1);
                let operator = if tokens.check_index(opi, YarnTokenType::ADD) {
                Some(AdditiveOperator::ADD)
            } else if tokens.check_index(opi, YarnTokenType::SUB) {
                Some(AdditiveOperator::SUB)
            } else {
                None
            };
                match operator {
                    Some(op) => {
                        let ri = tokens.next_non_space_after(opi);
                        proof {
                            lemma_skip_spaces(ts, lhs_end as int);
                            lemma_skip_spaces(ts, opi + 1);
                        }
                        assert(additive_operator(ts, opi as int) == Some(BinaryOperator::Additive(op)));
                        match FactorExpressionNode::parse(tokens, ri) {
                            YarnParseResult::Parsed(rhs, rhs_end) => {
                                let node = AdditiveExpressionNode::new(
                                    Box::new(lhs),
                                    Box::new(rhs),
                                    op,
                                    tokens.peek_line(offset),
                                    tokens.peek_col(offset),
                                );
                                YarnParseResult::Parsed(YarnExpression::Additive(node), rhs_end)
                            },
                            YarnParseResult::Error(e) => YarnParseResult::Error(e),
                            YarnParseResult::Failed => YarnParseResult::Parsed(lhs, lhs_end),
                        }
                    },
                    None => YarnParseResult::Parsed(lhs, lhs_end),
                }
            },
            other => other,
        }
    }
}

impl ComparisonExpressionNode {
    /// `<`, `>`, `<=` or `>=` between two additive expressions, or one additive expression. Operands are binary, not chained; the node carries the
    /// position of the left operand's first token.
    pub fn parse(tokens: &YarnTokenQueue, offset: usize) -> (r: YarnParseResult)
        requires
            tokens.wf(),
        ensures
            r@ == parse_comparison_spec(tokens.spec_tokens(), tokens.spec_source(), offset as int),
            progress(r@, offset as int, tokens.spec_tokens().len() as int),
        decreases remaining(tokens.spec_tokens(), offset as int), 5nat,
    {
        let ghost ts = tokens.spec_tokens();
        if offset >= tokens.len() {
            return YarnParseResult::Failed;
        }
        match AdditiveExpressionNode::parse(tokens, offset) {
            YarnParseResult::Parsed(lhs, lhs_end) => {
                let opi = tokens.next_non_space_after(lhs_end - 1);
                let operator = if tokens.check_index(opi, YarnTokenType::GREATER_THAN) {
                Some(ComparisonOperator::GREATER_THAN)
            } else if tokens.check_index(opi, YarnTokenType::LESS_THAN) {
                Some(ComparisonOperator::LESS_THAN)
            } else if tokens.check_index(opi, YarnTokenType::GREATER_THAN_EQ) {
                Some(ComparisonOperator::GREATER_THAN_EQ)
            } else if tokens.check_index(opi, YarnTokenType::LESS_THAN_EQ) {
                Some(ComparisonOperator::LESS_THAN_EQ)
            } else {
                None
            };
                match operator {
                    Some(op) => {
                        let ri = tokens.next_non_space_after(opi);
                        proof {
                            lemma_skip_spaces(ts, lhs_end as int);
                            lemma_skip_spaces(ts, opi + 1);
                        }
                        assert(comparison_operator(ts, opi as int) == Some(BinaryOperator::Comparison(op)));
                        match AdditiveExpressionNode::parse(tokens, ri) {
                            YarnParseResult::Parsed(rhs, rhs_end) => {
                                let node = ComparisonExpressionNode::new(
                                    Box::new(lhs),
                                    Box::new(rhs),
                                    op,
                                    tokens.peek_line(offset),
                                    tokens.peek_col(offset),
                                );
                                YarnParseResult::Parsed(YarnExpression::Comparison(node), rhs_end)
                            },
                            YarnParseResult::Error(e) => YarnParseResult::Error(e),
                            YarnParseResult::Failed => YarnParseResult::Parsed(lhs, lhs_end),
                        }
                    },
                    None => YarnParseResult::Parsed(lhs, lhs_end),
                }
            },
            other => other,
        }
    }
}

impl EqualityExpressionNode {
    /// `==` or `!=` between two comparison expressions, or one comparison expression. Operands are binary, not chained; the node carries the
    /// position of the left operand's first token.
    pub fn parse(tokens: &YarnTokenQueue, offset: usize) -> (r: YarnParseResult)
        requires
            tokens.wf(),
        ensures
            r@ == parse_equality_spec(tokens.spec_tokens(), tokens.spec_source(), offset as int),
            progress(r@, offset as int, tokens.spec_tokens().len() as int),
        decreases remaining(tokens.spec_tokens(), offset as int), 6nat,
    {
        let ghost ts = tokens.spec_tokens();
        if offset >= tokens.len() {
            return YarnParseResult::Failed;
        }
        match ComparisonExpressionNode::parse(tokens, offset) {
            YarnParseResult::Parsed(lhs, lhs_end) => {
                let opi = tokens.next_non_space_after(lhs_end - 1);
                let operator = if tokens.check_index(opi, YarnTokenType::EQUAL_TOO) {
                Some(EqualityOperator::EQUAL_TOO)
            } else if tokens.check_index(opi, YarnTokenType::NOT_EQUAL_TOO) {
                Some(EqualityOperator::NOT_EQUAL_TOO)
            } else {
                None
            };
                match operator {
                    Some(op) => {
                        let ri = tokens.next_non_space_after(opi);
                        proof {
                            lemma_skip_spaces(ts, lhs_end as int);
                            lemma_skip_spaces(ts, opi + 1);
                        }
                        assert(equality_operator(ts, opi as int) == Some(BinaryOperator::Equality(op)));
                        match ComparisonExpressionNode::parse(tokens, ri) {
                            YarnParseResult::Parsed(rhs, rhs_end) => {
                                let node = EqualityExpressionNode::new(
                                    Box::new(lhs),
                                    Box::new(rhs),
                                    op,
                                    tokens.peek_line(offset),
                                    tokens.peek_col(offset),
                                );
                                YarnParseResult::Parsed(YarnExpression::Equality(node), rhs_end)
                            },
                            YarnParseResult::Error(e) => YarnParseResult::Error(e),
                            YarnParseResult::Failed => YarnParseResult::Parsed(lhs, lhs_end),
                        }
                    },
                    None => YarnParseResult::Parsed(lhs, lhs_end),
                }
            },
            other => other,
        }
    }
}

/// The compile entry point: the loosest rule at the first token after the
/// line-start marker.
pub fn parse_expression(tokens: &YarnTokenQueue) -> (r: YarnParseResult)
    requires
        tokens.wf(),
    ensures
        r@ == parse_equality_spec(tokens.spec_tokens(), tokens.spec_source(), 1),
{
    EqualityExpressionNode::parse(tokens, 1)
}

/// Lexes `source` and parses one expression from it.
pub fn compile(source: &str) -> (r: YarnParseResult)
    ensures
        r@ == parse_equality_spec(tokenize_spec(source@), source@, 1),
{
    let tokens = tokenize(source);
    parse_expression(&tokens)
}

} // verus!
