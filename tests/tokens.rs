use yarn_spinner::error::{decimal, YarnError};
use yarn_spinner::lexer::tokenize;
use yarn_spinner::token::{YarnToken, YarnTokenType};
use yarn_spinner::token::YarnTokenType::{
    ARROW, DOLLAR_SIGN, ELSEIF, END_COMMAND, END_LINE, END_NODE, ENDIF, EOF, EQUAL_TOO, GREATER_THAN,
    GREATER_THAN_EQ, IF, LESS_THAN, LESS_THAN_EQ, NOT_EQUAL_TOO, SPACE, START_COMMAND, START_LINE,
    START_NODE, WORD,
};

fn has_tokens(source: &str, start: usize, expected: &[YarnTokenType]) {
    let q = tokenize(source);
    for (k, t) in expected.iter().enumerate() {
        assert!(q.check_index(start + k, *t), "{:?}: token {} is not {:?}", source, start + k, t);
    }
}

#[test]
fn test_matched_tokens() {
    has_tokens("<<>>", 1, &[START_COMMAND, END_COMMAND]);
}

#[test]
fn test_basic_tokens() {
    has_tokens("<>", 1, &[LESS_THAN, GREATER_THAN]);
}

#[test]
fn test_concat() {
    let source = "This is test source code. -> --- === ";
    let token_1 = YarnToken::new(WORD, 0, 0, 0, 4);
    let mut token_2 = YarnToken::new(WORD, 0, 8, 8, 4);
    token_2.merge(&token_1, WORD);
    assert_eq!(token_2.content(source), "This is test");
    assert_eq!((token_2.line(), token_2.col()), (0, 0));
}

#[test]
fn merged_operators_cover_their_characters() {
    let source = "a == b != c <= d >= e -> f";
    let q = tokenize(source);
    let expected = [(EQUAL_TOO, "=="), (NOT_EQUAL_TOO, "!="), (LESS_THAN_EQ, "<="), (GREATER_THAN_EQ, ">="), (ARROW, "->")];
    let mut found = 0;
    for i in 0..q.len() {
        for (t, text) in expected.iter() {
            if q.check_index(i, *t) {
                assert_eq!(q.content(i), *text);
                found += 1;
            }
        }
    }
    assert_eq!(found, expected.len());
    has_tokens("==", 1, &[EQUAL_TOO, END_LINE, EOF]);
    assert_eq!(tokenize("==").content(1), "==");
}

#[test]
fn longer_patterns_merge_first() {
    has_tokens("===", 1, &[END_NODE, END_LINE]);
    has_tokens("---", 1, &[START_NODE, END_LINE]);
    has_tokens("<<if $x>>", 1, &[START_COMMAND, IF, SPACE, DOLLAR_SIGN, WORD, END_COMMAND]);
    has_tokens("elseif endif", 1, &[ELSEIF, SPACE, ENDIF, END_LINE]);
}

#[test]
fn lines_and_positions() {
    let q = tokenize("a\r\nbc\n");
    has_tokens("a\r\nbc\n", 0, &[START_LINE, WORD, END_LINE, START_LINE, WORD, END_LINE, EOF]);
    assert_eq!(q.len(), 7);
    assert_eq!((q.peek_line(4), q.peek_col(4)), (1, 0));
    assert_eq!(q.content(4), "bc");
    assert_eq!(q.content(1), "a");
    let eol = q.peek(2).unwrap();
    assert_eq!((eol.line(), eol.col()), (0, 1));
}

#[test]
fn empty_source_has_only_end_of_file() {
    let q = tokenize("");
    assert_eq!(q.len(), 1);
    assert!(q.check_index(0, EOF));
}

#[test]
fn words_and_cursor() {
    let q = tokenize("foo  bar");
    has_tokens("foo  bar", 0, &[START_LINE, WORD, SPACE, SPACE, WORD, END_LINE, EOF]);
    assert_eq!(q.next_non_space_after(1), 4);
    assert_eq!(q.next_non_space_after(4), 5);
    assert!(q.peek_only_if_type(1, WORD).is_some());
    assert!(q.peek_only_if_type(1, SPACE).is_none());
    assert_eq!(q.peek_line(99), 0);
    assert!(q.is_numeric(1) == false);
    assert!(tokenize("123").is_numeric(1));
}

#[test]
fn queue_pops_and_merges() {
    let mut q = tokenize("a b");
    assert!(q.check(START_LINE));
    assert!(q.check_and_pop(START_LINE));
    assert_eq!(q.pop().unwrap().token_type(), WORD);
    q.remove_leading_spaces();
    assert!(q.check(WORD));
    assert!(q.pop_if_type(SPACE).is_none());
    let front = q.front().unwrap();
    q.merge_tokens(0, 1, WORD);
    assert_eq!(q.content(0), "b");
    q.re_add(front);
    assert_eq!(q.len(), 3);
}

#[test]
fn error_reports() {
    let e = YarnError::new_eof_error(3, 14);
    assert_eq!(e.error_name(), "EOF Error");
    assert_eq!(
        e.gen_error_message(),
        "EOF Error at (3, 14) : There was an end of file before a string was closed."
    );
    let e = YarnError::new_type_mismatch_error(0, 2, "NUMBER", "BOOL");
    assert_eq!(
        e.error_message(),
        "The value is the wrong type. Type expected: NUMBER | Type received: BOOL"
    );
    assert_eq!(YarnError::new_invalid_operation_error(1, 1).error_name(), "Invalid Opperation Error");
    assert_eq!(YarnError::new_undefined_function_error(1, 1).error_message(), "This function has not been defined.");
    assert_eq!(decimal(0), "0");
    assert_eq!(decimal(1207), "1207");
}
