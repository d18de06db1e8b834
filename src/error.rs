//! Positioned, kind-tagged errors shared by lexing, parsing and evaluation.
use vstd::prelude::*;
use vstd::string::StringExecFns;

verus! {

/// What went wrong; the position is carried by `YarnError`.
#[derive(Clone, Debug, PartialEq, Eq)]
pub enum YarnErrorKind {
    Eof,
    Eol,
    InvalidNumber,
    InvalidBoolean,
    VariableNotDeclared,
    InvalidVariableIdentifier,
    InvalidOperation,
    UnexpectedToken,
    UndefinedFunction,
    NullFunctionArg,
    FailedToParseArg,
    TypeMismatch { expected: String, received: String },
}

/// An error together with the line and column of the offending token.
#[derive(Clone, Debug, PartialEq, Eq)]
pub struct YarnError {
    pub kind: YarnErrorKind,
    pub line: usize,
    pub col: usize,
}

/// The character of a decimal digit.
pub open spec fn digit_char(d: nat) -> char {
    if d == 0 { '0' }
    else if d == 1 { '1' }
    else if d == 2 { '2' }
    else if d == 3 { '3' }
    else if d == 4 { '4' }
    else if d == 5 { '5' }
    else if d == 6 { '6' }
    else if d == 7 { '7' }
    else if d == 8 { '8' }
    else { '9' }
}

/// The decimal notation of `n`, without leading zeros.
pub open spec fn decimal_text(n: nat) -> Seq<char>
    decreases n,
{
    if n < 10 {
        seq![digit_char(n)]
    } else {
        decimal_text(n / 10).push(digit_char(n % 10))
    }
}

/// The short name that identifies each kind of error.
pub open spec fn error_name_of(kind: YarnErrorKind) -> Seq<char> {
    match kind {
        YarnErrorKind::Eof => "EOF Error"@,
        YarnErrorKind::Eol => "EOL Error"@,
        YarnErrorKind::InvalidNumber => "Invalid Number Error"@,
        YarnErrorKind::InvalidBoolean => "Invalid Boolean Error"@,
        YarnErrorKind::VariableNotDeclared => "Variable Not Declared Error"@,
        YarnErrorKind::InvalidVariableIdentifier => "Invalid Variable Identifier Error"@,
        YarnErrorKind::InvalidOperation => "Invalid Opperation Error"@,
        YarnErrorKind::UnexpectedToken => "Unexpected Token Error"@,
        YarnErrorKind::UndefinedFunction => "Undefined Function Error"@,
        YarnErrorKind::NullFunctionArg => "Null Function Argument Error"@,
        YarnErrorKind::FailedToParseArg => "Failed to Parse Argument Error"@,
        YarnErrorKind::TypeMismatch { .. } => "Type Mismatch Error"@,
    }
}

/// The explanation given for each kind of error.
pub open spec fn error_message_of(kind: YarnErrorKind) -> Seq<char> {
    match kind {
        YarnErrorKind::Eof => "There was an end of file before a string was closed."@,
        YarnErrorKind::Eol => "There was an end of the line before a string was closed."@,
        YarnErrorKind::InvalidNumber =>
            "The number at the given line is invalid. Numbers may only contain numerical digits (1-9) and decimals."@,
        YarnErrorKind::InvalidBoolean =>
            "The boolean at the given line is invalid. Boolean must be either 'true' or 'false'."@,
        YarnErrorKind::VariableNotDeclared => "Variable invoked here has not been declared."@,
        YarnErrorKind::InvalidVariableIdentifier => "The variable name is invalid"@,
        YarnErrorKind::InvalidOperation => "You cannot us this operation on these types."@,
        YarnErrorKind::UnexpectedToken => "While parsing, the system ran into an unexpected token."@,
        YarnErrorKind::UndefinedFunction => "This function has not been defined."@,
        YarnErrorKind::NullFunctionArg => "The function argument is null."@,
        YarnErrorKind::FailedToParseArg => "This argument in the function failed to parse."@,
        YarnErrorKind::TypeMismatch { expected, received } =>
            "The value is the wrong type. Type expected: "@ + expected@ + " | Type received: "@
                + received@,
    }
}

/// The one-line report `name at (line, col) : message`.
pub open spec fn error_report(e: YarnError) -> Seq<char> {
    error_name_of(e.kind) + " at ("@ + decimal_text(e.line as nat) + ", "@ + decimal_text(
        e.col as nat,
    ) + ") : "@ + error_message_of(e.kind)
}

fn digit_str(d: usize) -> (r: &'static str)
    requires
        d < 10,
    ensures
        r@ == seq![digit_char(d as nat)],
{
    proof {
        reveal_strlit("0");
        reveal_strlit("1");
        reveal_strlit("2");
        reveal_strlit("3");
        reveal_strlit("4");
        reveal_strlit("5");
        reveal_strlit("6");
        reveal_strlit("7");
        reveal_strlit("8");
        reveal_strlit("9");
    }
    match d {
        0 => "0",
        1 => "1",
        2 => "2",
        3 => "3",
        4 => "4",
        5 => "5",
        6 => "6",
        7 => "7",
        8 => "8",
        _ => "9",
    }
}

/// Writes `n` in decimal.
pub fn decimal(n: usize) -> (r: String)
    ensures
        r@ == decimal_text(n as nat),
    decreases n,
{
    if n < 10 {
        String::from_str(digit_str(n))
    } else {
        let mut s = decimal(n / 10);
        s.append(digit_str(n % 10));
        s
    }
}

impl YarnError {
    pub fn new_eof_error(line: usize, col: usize) -> (r: Self)
        ensures
            r == (YarnError { kind: YarnErrorKind::Eof, line, col }),
    {
        YarnError { kind: YarnErrorKind::Eof, line, col }
    }

    pub fn new_eol_error(line: usize, col: usize) -> (r: Self)
        ensures
            r == (YarnError { kind: YarnErrorKind::Eol, line, col }),
    {
        YarnError { kind: YarnErrorKind::Eol, line, col }
    }

    pub fn new_invalid_number_error(line: usize, col: usize) -> (r: Self)
        ensures
            r == (YarnError { kind: YarnErrorKind::InvalidNumber, line, col }),
    {
        YarnError { kind: YarnErrorKind::InvalidNumber, line, col }
    }

    pub fn new_invalid_boolean_error(line: usize, col: usize) -> (r: Self)
        ensures
            r == (YarnError { kind: YarnErrorKind::InvalidBoolean, line, col }),
    {
        YarnError { kind: YarnErrorKind::InvalidBoolean, line, col }
    }

    pub fn new_variable_not_declared_error(line: usize, col: usize) -> (r: Self)
        ensures
            r == (YarnError { kind: YarnErrorKind::VariableNotDeclared, line, col }),
    {
        YarnError { kind: YarnErrorKind::VariableNotDeclared, line, col }
    }

    pub fn new_invalid_variable_identifier_error(line: usize, col: usize) -> (r: Self)
        ensures
            r == (YarnError { kind: YarnErrorKind::InvalidVariableIdentifier, line, col }),
    {
        YarnError { kind: YarnErrorKind::InvalidVariableIdentifier, line, col }
    }

    pub fn new_invalid_operation_error(line: usize, col: usize) -> (r: Self)
        ensures
            r == (YarnError { kind: YarnErrorKind::InvalidOperation, line, col }),
    {
        YarnError { kind: YarnErrorKind::InvalidOperation, line, col }
    }

    pub fn new_unexpected_token_error(line: usize, col: usize) -> (r: Self)
        ensures
            r == (YarnError { kind: YarnErrorKind::UnexpectedToken, line, col }),
    {
        YarnError { kind: YarnErrorKind::UnexpectedToken, line, col }
    }

    pub fn new_undefined_function_error(line: usize, col: usize) -> (r: Self)
        ensures
            r == (YarnError { kind: YarnErrorKind::UndefinedFunction, line, col }),
    {
        YarnError { kind: YarnErrorKind::UndefinedFunction, line, col }
    }

    pub fn new_null_function_arg_error(line: usize, col: usize) -> (r: Self)
        ensures
            r == (YarnError { kind: YarnErrorKind::NullFunctionArg, line, col }),
    {
        YarnError { kind: YarnErrorKind::NullFunctionArg, line, col }
    }

    pub fn new_failed_to_parse_arg_error(line: usize, col: usize) -> (r: Self)
        ensures
            r == (YarnError { kind: YarnErrorKind::FailedToParseArg, line, col }),
    {
        YarnError { kind: YarnErrorKind::FailedToParseArg, line, col }
    }

    pub fn new_type_mismatch_error(
        line: usize,
        col: usize,
        type_expected: &str,
        type_recieved: &str,
    ) -> (r: Self)
        ensures
            r.line == line,
            r.col == col,
            r.kind matches YarnErrorKind::TypeMismatch { expected, received }
                && expected@ == type_expected@ && received@ == type_recieved@,
    {
        YarnError {
            kind: YarnErrorKind::TypeMismatch {
                expected: String::from_str(type_expected),
                received: String::from_str(type_recieved),
            },
            line,
            col,
        }
    }

    /// The full report, `name at (line, col) : message`.
    pub fn gen_error_message(&self) -> (r: String)
        ensures
            r@ == error_report(*self),
    {
        let mut s = self.error_name();
        s.append(" at (");
        let l = decimal(self.line);
        s.append(l.as_str());
        s.append(", ");
        let c = decimal(self.col);
        s.append(c.as_str());
        s.append(") : ");
        let m = self.error_message();
        s.append(m.as_str());
        s
    }

    pub fn error_name(&self) -> (r: String)
        ensures
            r@ == error_name_of(self.kind),
    {
        let name = match &self.kind {
            YarnErrorKind::Eof => "EOF Error",
            YarnErrorKind::Eol => "EOL Error",
            YarnErrorKind::InvalidNumber => "Invalid Number Error",
            YarnErrorKind::InvalidBoolean => "Invalid Boolean Error",
            YarnErrorKind::VariableNotDeclared => "Variable Not Declared Error",
            YarnErrorKind::InvalidVariableIdentifier => "Invalid Variable Identifier Error",
            YarnErrorKind::InvalidOperation => "Invalid Opperation Error",
            YarnErrorKind::UnexpectedToken => "Unexpected Token Error",
            YarnErrorKind::UndefinedFunction => "Undefined Function Error",
            YarnErrorKind::NullFunctionArg => "Null Function Argument Error",
            YarnErrorKind::FailedToParseArg => "Failed to Parse Argument Error",
            YarnErrorKind::TypeMismatch { .. } => "Type Mismatch Error",
        };
        String::from_str(name)
    }

    pub fn error_message(&self) -> (r: String)
        ensures
            r@ == error_message_of(self.kind),
    {
        match &self.kind {
            YarnErrorKind::Eof => String::from_str(
                "There was an end of file before a string was closed.",
            ),
            YarnErrorKind::Eol => String::from_str(
                "There was an end of the line before a string was closed.",
            ),
            YarnErrorKind::InvalidNumber => String::from_str(
                "The number at the given line is invalid. Numbers may only contain numerical digits (1-9) and decimals.",
            ),
            YarnErrorKind::InvalidBoolean => String::from_str(
                "The boolean at the given line is invalid. Boolean must be either 'true' or 'false'.",
            ),
            YarnErrorKind::VariableNotDeclared => String::from_str(
                "Variable invoked here has not been declared.",
            ),
            YarnErrorKind::InvalidVariableIdentifier => String::from_str(
                "The variable name is invalid",
            ),
            YarnErrorKind::InvalidOperation => String::from_str(
                "You cannot us this operation on these types.",
            ),
            YarnErrorKind::UnexpectedToken => String::from_str(
                "While parsing, the system ran into an unexpected token.",
            ),
            YarnErrorKind::UndefinedFunction => String::from_str(
                "This function has not been defined.",
            ),
            YarnErrorKind::NullFunctionArg => String::from_str("The function argument is null."),
            YarnErrorKind::FailedToParseArg => String::from_str(
                "This argument in the function failed to parse.",
            ),
            YarnErrorKind::TypeMismatch { expected, received } => {
                let mut s = String::from_str("The value is the wrong type. Type expected: ");
                s.append(expected.as_str());
                s.append(" | Type received: ");
                s.append(received.as_str());
                s
            },
        }
    }
}

} // verus!
