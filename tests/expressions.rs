use rand::Rng;
use yarn_spinner::ast::{
    AdditiveExpressionNode, BoolLiteralNode, ComparisonExpressionNode, EqualityExpressionNode,
    FactorExpressionNode, FunctionNode, NumberLiteralNode, StringLiteralNode,
    UnaryExpressionNode, VariableNode,
};
use yarn_spinner::error::{YarnError, YarnErrorKind};
use yarn_spinner::eval::YarnFunctions;
use yarn_spinner::lexer::tokenize;
use yarn_spinner::parser::{compile, PrimaryExpressionNode, YarnParseResult};
use yarn_spinner::value::{YarnNumber, YarnValue};
use yarn_spinner::variables::YarnVariableMap;

#[derive(Clone, Copy, Debug)]
struct Num(f64);

impl PartialEq for Num {
    fn eq(&self, other: &Num) -> bool {
        (self.0 - other.0).abs() < 1e-10
    }
}

impl PartialOrd for Num {
    fn partial_cmp(&self, other: &Num) -> Option<std::cmp::Ordering> {
        self.0.partial_cmp(&other.0)
    }
}

impl YarnNumber for Num {
    fn spec_from_literal(text: &String) -> Num {
        Num::from_literal(text)
    }
    fn from_literal(text: &String) -> Num {
        Num(text.parse().unwrap())
    }
    fn spec_plus(self, other: Num) -> Num {
        self.plus(other)
    }
    fn plus(self, other: Num) -> Num {
        Num(self.0 + other.0)
    }
    fn spec_minus(self, other: Num) -> Num {
        self.minus(other)
    }
    fn minus(self, other: Num) -> Num {
        Num(self.0 - other.0)
    }
    fn spec_times(self, other: Num) -> Num {
        self.times(other)
    }
    fn times(self, other: Num) -> Num {
        Num(self.0 * other.0)
    }
    fn spec_divided_by(self, other: Num) -> Num {
        self.divided_by(other)
    }
    fn divided_by(self, other: Num) -> Num {
        Num(self.0 / other.0)
    }
    fn spec_negated(self) -> Num {
        self.negated()
    }
    fn negated(self) -> Num {
        Num(-self.0)
    }
    fn spec_equals(self, other: Num) -> bool {
        self.equals(other)
    }
    fn equals(self, other: Num) -> bool {
        (self.0 - other.0).abs() < 1e-10
    }
    fn spec_less_than(self, other: Num) -> bool {
        self.less_than(other)
    }
    fn less_than(self, other: Num) -> bool {
        self.0 < other.0
    }
    fn spec_less_than_eq(self, other: Num) -> bool {
        self.less_than_eq(other)
    }
    fn less_than_eq(self, other: Num) -> bool {
        self.0 <= other.0
    }
    fn spec_greater_than(self, other: Num) -> bool {
        self.greater_than(other)
    }
    fn greater_than(self, other: Num) -> bool {
        self.0 > other.0
    }
    fn spec_greater_than_eq(self, other: Num) -> bool {
        self.greater_than_eq(other)
    }
    fn greater_than_eq(self, other: Num) -> bool {
        self.0 >= other.0
    }
    fn spec_text(self) -> String {
        self.to_text()
    }
    fn to_text(self) -> String {
        format!("{}", self.0)
    }
}

type Value = YarnValue<Num>;
type Outcome = Result<Option<Value>, YarnError>;

fn number_arg(args: &[Value], index: usize, line: usize, col: usize) -> Result<f64, YarnError> {
    match args.get(index) {
        Some(YarnValue::NUMBER(n)) => Ok(n.0),
        Some(other) => Err(YarnError::new_type_mismatch_error(
            line,
            col,
            "NUMBER",
            other.get_type_as_string().as_str(),
        )),
        None => Err(YarnError::new_null_function_arg_error(line, col)),
    }
}

/// The native functions that a host registers by default.
struct Natives;

impl Natives {
    fn run(&self, name: &str, args: &[Value], line: usize, col: usize) -> Option<Outcome> {
        let number = |v: f64| -> Outcome { Ok(Some(YarnValue::NUMBER(Num(v)))) };
        let result = match name {
            "dice" => number_arg(args, 0, line, col)
                .and_then(|sides| number(rand::thread_rng().gen_range(0.0..=sides).round())),
            "random" => number(rand::thread_rng().gen()),
            "random_range" => number_arg(args, 0, line, col).and_then(|min| {
                number_arg(args, 1, line, col)
                    .and_then(|max| number(rand::thread_rng().gen_range(min..=max)))
            }),
            "round" => number_arg(args, 0, line, col).and_then(|v| number(v.round())),
            "round_places" => number_arg(args, 0, line, col).and_then(|v| {
                number_arg(args, 1, line, col).and_then(|places| {
                    let significance = 10.0_f64.powi(places as i32);
                    number((v * significance).round() / significance)
                })
            }),
            "floor" => number_arg(args, 0, line, col).and_then(|v| number(v.floor())),
            "ceil" => number_arg(args, 0, line, col).and_then(|v| number(v.ceil())),
            "inc" => number_arg(args, 0, line, col)
                .and_then(|v| number(if v.fract() != 0.0 { v.ceil() } else { v + 1.0 })),
            "dec" => number_arg(args, 0, line, col)
                .and_then(|v| number(if v.fract() != 0.0 { v.floor() } else { v - 1.0 })),
            "decimal" => number_arg(args, 0, line, col).and_then(|v| number(v - v.floor())),
            "test" => Ok(Some(YarnValue::BOOL(true))),
            _ => return None,
        };
        Some(result)
    }
}

/// The functions whose answer is a random draw.
fn draws_at_random(name: &str) -> bool {
    name == "dice" || name == "random" || name == "random_range"
}

impl YarnFunctions<Num> for Natives {
    fn may_answer(
        &self,
        name: &String,
        arguments: &Vec<Value>,
        line: usize,
        col: usize,
        answer: &Option<Outcome>,
    ) -> bool {
        if draws_at_random(name) {
            matches!(answer, Some(Ok(Some(YarnValue::NUMBER(_)))) | Some(Err(_)))
        } else {
            *answer == self.run(name, arguments, line, col)
        }
    }
    fn call(&self, name: &String, arguments: Vec<Value>, line: usize, col: usize) -> Option<Outcome> {
        self.run(name, &arguments, line, col)
    }
}

/// A registry with nothing in it.
struct NoFunctions;

impl YarnFunctions<Num> for NoFunctions {
    fn may_answer(
        &self,
        _name: &String,
        _arguments: &Vec<Value>,
        _line: usize,
        _col: usize,
        answer: &Option<Outcome>,
    ) -> bool {
        answer.is_none()
    }
    fn call(&self, _name: &String, _arguments: Vec<Value>, _line: usize, _col: usize) -> Option<Outcome> {
        None
    }
}

fn num(v: f64) -> Value {
    YarnValue::NUMBER(Num(v))
}

fn parsed(result: YarnParseResult) -> (yarn_spinner::ast::YarnExpression, usize) {
    match result {
        YarnParseResult::Parsed(e, end) => (e, end),
        YarnParseResult::Error(e) => panic!("unexpected error: {}", e.gen_error_message()),
        YarnParseResult::Failed => panic!("unexpected failure"),
    }
}

fn eval_with(
    result: YarnParseResult,
    variables: &mut YarnVariableMap<Num>,
) -> (Outcome, usize) {
    let (e, end) = parsed(result);
    (e.eval(variables, &Natives), end)
}

#[test]
fn compile_equality_test() {
    let mut variables = YarnVariableMap::new();
    let (value, _) = eval_with(compile("1+1*2"), &mut variables);
    assert_eq!(value.unwrap().unwrap(), num(3.0));
}

#[test]
fn compile_bool_test() {
    let mut variables = YarnVariableMap::new();
    let (value, _) = eval_with(compile("true"), &mut variables);
    assert_eq!(value.unwrap().unwrap(), YarnValue::BOOL(true));
}

#[test]
fn compile_number_test() {
    let mut variables = YarnVariableMap::new();
    let (value, _) = eval_with(compile("-2.2"), &mut variables);
    assert_eq!(value.unwrap().unwrap(), num(-2.2));
    match compile("2.invalid") {
        YarnParseResult::Error(e) => assert_eq!(e.kind, YarnErrorKind::InvalidNumber),
        _ => panic!("expected an invalid number"),
    }
}

#[test]
fn compile_string_test() {
    let mut variables = YarnVariableMap::new();
    let (value, _) = eval_with(compile("\"This is a test String.\""), &mut variables);
    assert_eq!(
        value.unwrap().unwrap(),
        YarnValue::STRING("This is a test String.".to_string())
    );
    assert!(matches!(compile("\"Forgot to end this string"), YarnParseResult::Error(_)));
}

#[test]
fn compile_variable_test() {
    let mut variables = YarnVariableMap::new();
    variables.insert("test".to_string(), num(2.2));
    let (value, _) = eval_with(compile("$test"), &mut variables);
    assert_eq!(value.unwrap().unwrap(), num(2.2));
}

#[test]
fn additive_expression_test_parse_variable_literal() {
    let mut variables = YarnVariableMap::new();
    variables.insert("foo".to_string(), num(2.0));

    let tokens = tokenize("2 + $foo");
    let (value, end) = eval_with(AdditiveExpressionNode::parse(&tokens, 1), &mut variables);
    assert_eq!(value.unwrap().unwrap(), num(4.0));
    assert_eq!(end, 7);

    let tokens = tokenize("2 + $foo * 2");
    let (value, end) = eval_with(AdditiveExpressionNode::parse(&tokens, 1), &mut variables);
    assert_eq!(value.unwrap().unwrap(), num(6.0));
    assert_eq!(end, 11);
}

#[test]
fn test_parse_bool_literal() {
    let mut variables = YarnVariableMap::new();

    let tokens = tokenize("true");
    let (value, end) = eval_with(BoolLiteralNode::parse(&tokens, 1), &mut variables);
    assert_eq!(end, 2);
    assert_eq!(value.unwrap().unwrap(), YarnValue::BOOL(true));

    let tokens = tokenize("false");
    let (value, end) = eval_with(BoolLiteralNode::parse(&tokens, 1), &mut variables);
    assert_eq!(end, 2);
    assert_eq!(value.unwrap().unwrap(), YarnValue::BOOL(false));

    let tokens = tokenize("Notabool");
    match BoolLiteralNode::parse(&tokens, 1) {
        YarnParseResult::Error(error) => {
            assert_eq!(error.error_name(), "Invalid Boolean Error".to_string())
        }
        _ => panic!("expected an invalid boolean"),
    }

    let tokens = tokenize("");
    assert!(matches!(BoolLiteralNode::parse(&tokens, 1), YarnParseResult::Failed));
}

#[test]
fn comparison_expression_test_parse_variable_literal() {
    let mut variables = YarnVariableMap::new();
    variables.insert("test".to_string(), YarnValue::BOOL(true));

    let tokens = tokenize("3 > 2");
    let (value, end) = eval_with(ComparisonExpressionNode::parse(&tokens, 1), &mut variables);
    assert_eq!(value.unwrap().unwrap(), YarnValue::BOOL(true));
    assert_eq!(end, 6);

    let tokens = tokenize("3 >= 2 + 1");
    let (value, end) = eval_with(ComparisonExpressionNode::parse(&tokens, 1), &mut variables);
    assert_eq!(value.unwrap().unwrap(), YarnValue::BOOL(true));
    assert_eq!(end, 10);

    let tokens = tokenize("3 * 3 <= 2");
    let (value, end) = eval_with(ComparisonExpressionNode::parse(&tokens, 1), &mut variables);
    assert_eq!(value.unwrap().unwrap(), YarnValue::BOOL(false));
    assert_eq!(end, 10);
}

#[test]
fn equality_expression_test_parse_variable_literal() {
    let mut variables = YarnVariableMap::new();
    variables.insert("test".to_string(), YarnValue::BOOL(true));

    let tokens = tokenize("2 == 2");
    let (value, end) = eval_with(EqualityExpressionNode::parse(&tokens, 1), &mut variables);
    assert_eq!(value.unwrap().unwrap(), YarnValue::BOOL(true));
    assert_eq!(end, 6);

    let tokens = tokenize("10 * 10 == 5 * (2 + 18)");
    let (value, _) = eval_with(EqualityExpressionNode::parse(&tokens, 1), &mut variables);
    assert_eq!(value.unwrap().unwrap(), YarnValue::BOOL(true));
}

#[test]
fn factor_expression_test_parse_variable_literal() {
    let mut variables = YarnVariableMap::new();
    variables.insert("test".to_string(), YarnValue::BOOL(true));

    let tokens = tokenize("2 * 2");
    let (value, end) = eval_with(FactorExpressionNode::parse(&tokens, 1), &mut variables);
    assert_eq!(value.unwrap().unwrap(), num(4.0));
    assert_eq!(end, 6);

    let tokens = tokenize("2 / 2");
    let (value, end) = eval_with(FactorExpressionNode::parse(&tokens, 1), &mut variables);
    assert_eq!(value.unwrap().unwrap(), num(1.0));
    assert_eq!(end, 6);

    let tokens = tokenize("true");
    let (value, end) = eval_with(FactorExpressionNode::parse(&tokens, 1), &mut variables);
    assert_eq!(value.unwrap().unwrap(), YarnValue::BOOL(true));
    assert_eq!(end, 2);

    let tokens = tokenize("!true");
    let (value, end) = eval_with(FactorExpressionNode::parse(&tokens, 1), &mut variables);
    assert_eq!(value.unwrap().unwrap(), YarnValue::BOOL(false));
    assert_eq!(end, 3);

    let tokens = tokenize("2 / false");
    let (value, end) = eval_with(FactorExpressionNode::parse(&tokens, 1), &mut variables);
    assert!(value.is_err());
    assert_eq!(end, 6);
}

#[test]
fn function_test_parse_variable_literal() {
    let mut variables = YarnVariableMap::new();
    variables.insert("foo".to_string(), num(2.0));

    let tokens = tokenize("dice(6)");
    let (value, _) = eval_with(FunctionNode::parse(&tokens, 1), &mut variables);
    match value.unwrap().unwrap() {
        YarnValue::NUMBER(n) => assert!(n >= Num(0.0) && n <= Num(6.0)),
        other => panic!("expected a number, got {:?}", other),
    }

    let tokens = tokenize("random_range(0, 2)");
    let (value, _) = eval_with(FunctionNode::parse(&tokens, 1), &mut variables);
    match value.unwrap().unwrap() {
        YarnValue::NUMBER(n) => assert!(n >= Num(0.0) && n <= Num(2.0)),
        other => panic!("expected a number, got {:?}", other),
    }

    let cases = [
        ("round(2.2)", 2.0),
        ("round_places(2.24, 1)", 2.2),
        ("floor(2.24)", 2.0),
        ("ceil(2.24)", 3.0),
        ("inc(2)", 3.0),
        ("dec(2)", 1.0),
    ];
    for (source, expected) in cases {
        let tokens = tokenize(source);
        let (value, _) = eval_with(FunctionNode::parse(&tokens, 1), &mut variables);
        assert_eq!(value.unwrap().unwrap(), num(expected), "{}", source);
    }

    let tokens = tokenize("decimal(5.7)");
    let (value, _) = eval_with(FunctionNode::parse(&tokens, 1), &mut variables);
    match value.unwrap().unwrap() {
        YarnValue::NUMBER(n) => assert!((n.0 - 0.7).abs() < 1e-9),
        other => panic!("expected a number, got {:?}", other),
    }
}

#[test]
fn test_parse_number_literal() {
    let mut variables = YarnVariableMap::new();

    let tokens = tokenize("2");
    let (value, end) = eval_with(NumberLiteralNode::parse(&tokens, 1), &mut variables);
    assert_eq!(value.unwrap().unwrap(), num(2.0));
    assert_eq!(end, 2);

    let tokens = tokenize("2.2");
    let (value, end) = eval_with(NumberLiteralNode::parse(&tokens, 1), &mut variables);
    assert_eq!(value.unwrap().unwrap(), num(2.2));
    assert_eq!(end, 4);

    let tokens = tokenize("2.test");
    assert!(matches!(NumberLiteralNode::parse(&tokens, 1), YarnParseResult::Error(_)));

    let tokens = tokenize("test.2");
    assert!(matches!(NumberLiteralNode::parse(&tokens, 1), YarnParseResult::Failed));

    let tokens = tokenize("");
    assert!(matches!(NumberLiteralNode::parse(&tokens, 1), YarnParseResult::Failed));
}

#[test]
fn primary_expression_test_parse_primary_expression() {
    let mut variables = YarnVariableMap::new();
    variables.insert("test".to_string(), YarnValue::BOOL(true));

    let cases: [(&str, usize, Value); 5] = [
        ("true", 2, YarnValue::BOOL(true)),
        ("2.2", 4, num(2.2)),
        ("\"test\"", 4, YarnValue::STRING("test".to_string())),
        ("$test", 3, YarnValue::BOOL(true)),
        ("($test == true)", 9, YarnValue::BOOL(true)),
    ];
    for (source, expected_end, expected) in cases {
        let tokens = tokenize(source);
        let (value, end) = eval_with(PrimaryExpressionNode::parse(&tokens, 1), &mut variables);
        assert_eq!(end, expected_end, "{}", source);
        assert_eq!(value.unwrap().unwrap(), expected, "{}", source);
    }
}

#[test]
fn test_parse_string_literal() {
    let mut variables = YarnVariableMap::new();

    let tokens = tokenize("\"test\"");
    let (value, end) = eval_with(StringLiteralNode::parse(&tokens, 1), &mut variables);
    assert_eq!(value.unwrap().unwrap(), YarnValue::STRING("test".to_string()));
    assert_eq!(end, 4);

    let tokens = tokenize("\"test\\\"\"");
    let (value, end) = eval_with(StringLiteralNode::parse(&tokens, 1), &mut variables);
    assert_eq!(value.unwrap().unwrap(), YarnValue::STRING("test\"".to_string()));
    assert_eq!(end, 6);

    let tokens = tokenize("\"test with multiple words\"");
    let (value, end) = eval_with(StringLiteralNode::parse(&tokens, 1), &mut variables);
    assert_eq!(
        value.unwrap().unwrap(),
        YarnValue::STRING("test with multiple words".to_string())
    );
    assert_eq!(end, 10);

    let tokens = tokenize("\"test with multiple words");
    assert!(matches!(StringLiteralNode::parse(&tokens, 1), YarnParseResult::Error(_)));

    let tokens = tokenize("");
    assert!(matches!(StringLiteralNode::parse(&tokens, 1), YarnParseResult::Failed));
}

#[test]
fn unary_expression_test_parse_primary_expression() {
    let mut variables = YarnVariableMap::new();

    let tokens = tokenize("!true");
    let (value, end) = eval_with(UnaryExpressionNode::parse(&tokens, 1), &mut variables);
    assert_eq!(value.unwrap().unwrap(), YarnValue::BOOL(false));
    assert_eq!(end, 3);

    let tokens = tokenize("-2.2");
    let (value, end) = eval_with(UnaryExpressionNode::parse(&tokens, 1), &mut variables);
    assert_eq!(value.unwrap().unwrap(), num(-2.2));
    assert_eq!(end, 5);

    let tokens = tokenize("-\"test\"");
    let (value, end) = eval_with(UnaryExpressionNode::parse(&tokens, 1), &mut variables);
    assert!(value.is_err());
    assert_eq!(end, 5);
}

#[test]
fn variable_test_parse_variable_literal() {
    let mut variables = YarnVariableMap::new();
    variables.insert("test".to_string(), YarnValue::BOOL(true));

    let tokens = tokenize("$test");
    let (value, end) = eval_with(VariableNode::parse(&tokens, 1), &mut variables);
    assert_eq!(value.unwrap().unwrap(), YarnValue::BOOL(true));
    assert_eq!(end, 3);

    let tokens = tokenize("$not_a_var");
    let (value, end) = eval_with(VariableNode::parse(&tokens, 1), &mut variables);
    assert!(value.is_err());
    assert_eq!(end, 3);
}

#[test]
fn factor_binds_tighter_than_additive() {
    let mut variables = YarnVariableMap::new();
    let (value, end) = eval_with(compile("1+1*2"), &mut variables);
    assert_eq!(value.unwrap().unwrap(), num(3.0));
    assert_eq!(end, 6);
}

#[test]
fn additive_binds_tighter_than_comparison() {
    let mut variables = YarnVariableMap::new();
    let (value, _) = eval_with(compile("3 >= 2 + 1"), &mut variables);
    assert_eq!(value.unwrap().unwrap(), YarnValue::BOOL(true));
}

#[test]
fn string_concatenation_and_invalid_addition() {
    let mut variables = YarnVariableMap::new();
    let (value, _) = eval_with(compile("\"a\" + 1"), &mut variables);
    assert_eq!(value.unwrap().unwrap(), YarnValue::STRING("a1".to_string()));

    let (value, _) = eval_with(compile("1 + \"a\""), &mut variables);
    assert_eq!(value.unwrap().unwrap(), YarnValue::STRING("1a".to_string()));

    let (value, _) = eval_with(compile("\"a\" + true"), &mut variables);
    assert_eq!(value.unwrap().unwrap(), YarnValue::STRING("atrue".to_string()));

    let (value, _) = eval_with(compile("true + 1"), &mut variables);
    let error = value.unwrap_err();
    assert_eq!(error.kind, YarnErrorKind::InvalidOperation);
    assert_eq!((error.line, error.col), (0, 0));
}

#[test]
fn unterminated_string_reports_end_of_line() {
    match compile("\"abc") {
        YarnParseResult::Error(error) => {
            assert_eq!(error.kind, YarnErrorKind::Eol);
            assert_eq!((error.line, error.col), (0, 4));
        }
        _ => panic!("expected an end-of-line error"),
    }
}

#[test]
fn variable_lookup() {
    let mut variables = YarnVariableMap::new();
    let (value, _) = eval_with(compile("$x"), &mut variables);
    let error = value.unwrap_err();
    assert_eq!(error.kind, YarnErrorKind::VariableNotDeclared);
    assert_eq!((error.line, error.col), (0, 1));

    variables.insert("x".to_string(), YarnValue::BOOL(true));
    let (value, _) = eval_with(compile("$x"), &mut variables);
    assert_eq!(value.unwrap().unwrap(), YarnValue::BOOL(true));
}

#[test]
fn dice_stays_in_range_and_unknown_functions_fail() {
    let mut variables = YarnVariableMap::new();
    for _ in 0..50 {
        let tokens = tokenize("dice(6)");
        let (value, _) = eval_with(FunctionNode::parse(&tokens, 1), &mut variables);
        match value.unwrap().unwrap() {
            YarnValue::NUMBER(n) => assert!(0.0 <= n.0 && n.0 <= 6.0),
            other => panic!("expected a number, got {:?}", other),
        }
    }
    let tokens = tokenize("dice(6)");
    let (e, _) = parsed(FunctionNode::parse(&tokens, 1));
    let error = e.eval(&mut variables, &NoFunctions).unwrap_err();
    assert_eq!(error.kind, YarnErrorKind::UndefinedFunction);
    assert_eq!((error.line, error.col), (0, 0));
}

#[test]
fn compiled_calls_reach_native_functions() {
    let mut variables = YarnVariableMap::new();
    for _ in 0..50 {
        let (value, end) = eval_with(compile("dice(6)"), &mut variables);
        assert_eq!(end, 5);
        match value.unwrap().unwrap() {
            YarnValue::NUMBER(n) => assert!(0.0 <= n.0 && n.0 <= 6.0),
            other => panic!("expected a number, got {:?}", other),
        }
    }
    let (value, _) = eval_with(compile("round(2.2) + inc(2)"), &mut variables);
    assert_eq!(value.unwrap().unwrap(), num(5.0));
    let (value, _) = eval_with(compile("floor(ceil(2.24) * 2)"), &mut variables);
    assert_eq!(value.unwrap().unwrap(), num(6.0));
    let (e, _) = parsed(compile("foo(6)"));
    let error = e.eval(&mut variables, &NoFunctions).unwrap_err();
    assert_eq!(error.kind, YarnErrorKind::UndefinedFunction);
    match compile("maybe") {
        YarnParseResult::Error(error) => assert_eq!(error.kind, YarnErrorKind::InvalidBoolean),
        _ => panic!("expected an invalid boolean"),
    }
}

#[test]
fn invalid_operations_on_numbers() {
    let mut variables = YarnVariableMap::new();
    for source in ["2 / false", "!2", "-true", "1 < \"a\"", "true * 1"] {
        let (value, _) = eval_with(compile(source), &mut variables);
        let error = value.unwrap_err();
        assert_eq!(error.kind, YarnErrorKind::InvalidOperation, "{}", source);
        assert_eq!((error.line, error.col), (0, 0), "{}", source);
    }
    let (value, _) = eval_with(compile("1 < $missing"), &mut variables);
    assert_eq!(value.unwrap_err().kind, YarnErrorKind::VariableNotDeclared);
}

#[test]
fn evaluating_twice_gives_the_same_result() {
    let mut variables = YarnVariableMap::new();
    variables.insert("x".to_string(), num(4.0));
    let (e, _) = parsed(compile("$x * 2 + 1 > 8 == true"));
    let first = e.eval(&mut variables, &Natives);
    let second = e.eval(&mut variables, &Natives);
    assert_eq!(first.clone().unwrap().unwrap(), YarnValue::BOOL(true));
    assert_eq!(first, second);
}

#[test]
fn function_arguments_errors() {
    let mut variables = YarnVariableMap::new();
    let tokens = tokenize("round(2,, 3)");
    match FunctionNode::parse(&tokens, 1) {
        YarnParseResult::Error(e) => assert_eq!(e.kind, YarnErrorKind::UnexpectedToken),
        _ => panic!("expected an unexpected token"),
    }
    let tokens = tokenize("round($missing)");
    let (value, _) = eval_with(FunctionNode::parse(&tokens, 1), &mut variables);
    assert_eq!(value.unwrap_err().kind, YarnErrorKind::VariableNotDeclared);
    let tokens = tokenize("round(\"a\")");
    let (value, _) = eval_with(FunctionNode::parse(&tokens, 1), &mut variables);
    assert!(matches!(value.unwrap_err().kind, YarnErrorKind::TypeMismatch { .. }));
}

#[test]
fn missing_right_parenthesis() {
    match compile("(1 + 2") {
        YarnParseResult::Error(e) => assert_eq!(e.kind, YarnErrorKind::UnexpectedToken),
        _ => panic!("expected an unexpected token"),
    }
}

#[test]
fn invalid_variable_identifier() {
    match compile("$\"x\"") {
        YarnParseResult::Error(e) => {
            assert_eq!(e.kind, YarnErrorKind::InvalidVariableIdentifier);
            assert_eq!((e.line, e.col), (0, 1));
        }
        _ => panic!("expected an invalid identifier"),
    }
}

#[test]
fn not_equal_and_less_than() {
    let mut variables = YarnVariableMap::new();
    let (value, _) = eval_with(compile("1 < 2"), &mut variables);
    assert_eq!(value.unwrap().unwrap(), YarnValue::BOOL(true));
    let (value, _) = eval_with(compile("\"a\" != \"b\""), &mut variables);
    assert_eq!(value.unwrap().unwrap(), YarnValue::BOOL(true));
    let (value, _) = eval_with(compile("true == 1"), &mut variables);
    assert_eq!(value.unwrap_err().kind, YarnErrorKind::InvalidOperation);
}
