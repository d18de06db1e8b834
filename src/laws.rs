//! Properties that relate the lexer, the parser and the evaluator.
use vstd::prelude::*;
use crate::ast::{Expr, UnaryOperator};
use crate::lexer::{
    first_pattern, first_pattern_from, first_rule_from, lemma_first_pattern, lemma_first_rule,
    lemma_rule_len, line_stop, line_tokens, merge_from, mk_token, pattern_text, pattern_type,
    raw_from, rule_applies, rule_pattern, rule_result, scan_line, tokenize_spec, word_between,
    PATTERN_COUNT,
};
use crate::parser::{
    err, parse_number_spec, parse_primary_spec, parse_string_spec, parse_unary_spec, string_body_spec,
    SpecParse,
};
use crate::error::YarnErrorKind;
use crate::token::{all_digits, content_of, in_bounds, merged, YarnToken, YarnTokenType};

verus! {

/// No literal of the scanning table ends with a digit; only the period ends
/// with `.` among the first eleven; only the last dash ends with `-` among the
/// first twenty-five that are one character long.
proof fn lemma_pattern_ends(k: int)
    requires
        0 <= k < PATTERN_COUNT,
    ensures
        pattern_text(k).len() >= 1,
        !('0' <= pattern_text(k).last() <= '9'),
        k < 10 ==> pattern_text(k).last() != '.',
        k == 10 ==> pattern_text(k) == seq!['.'],
        k < 24 && pattern_text(k).len() == 1 ==> pattern_text(k)[0] != '-',
        k == 24 ==> pattern_text(k) == seq!['-'],
{
}

/// A non-empty run of digits ends with no literal of the table.
proof fn lemma_digits_no_pattern(seg: Seq<char>, k: int)
    requires
        seg.len() > 0,
        all_digits(seg),
        0 <= k,
    ensures
        first_pattern_from(seg, k) is None,
    decreases PATTERN_COUNT - k,
{
    if k < PATTERN_COUNT {
        lemma_pattern_ends(k);
        let p = pattern_text(k);
        if p.len() <= seg.len() {
            let tail = seg.subrange(seg.len() - p.len(), seg.len() as int);
            assert(tail[p.len() - 1] == seg[seg.len() - 1]);
            assert(tail != p);
        }
        lemma_digits_no_pattern(seg, k + 1);
    }
}

/// `first_pattern_from` skips the literals that `seg` does not end with.
proof fn lemma_first_pattern_at(seg: Seq<char>, k: int, target: int)
    requires
        0 <= k <= target < PATTERN_COUNT,
        ends_with_target(seg, target),
        forall|j: int| k <= j < target ==> !crate::lexer::ends_with(seg, #[trigger] pattern_text(j)),
    ensures
        first_pattern_from(seg, k) == Some(target),
    decreases target - k,
{
    if k < target {
        lemma_first_pattern_at(seg, k + 1, target);
    }
}

/// `seg` ends with the table literal at position `target`.
spec fn ends_with_target(seg: Seq<char>, target: int) -> bool {
    crate::lexer::ends_with(seg, pattern_text(target))
}

/// A line whose characters from `anchor` on are all digits scans to one word.
proof fn lemma_scan_digits(line: Seq<char>, ln: int, base: int, anchor: int, end: int)
    requires
        0 <= anchor <= end <= line.len(),
        all_digits(line.subrange(anchor, line.len() as int)),
    ensures
        scan_line(line, ln, base, anchor, end) == word_between(ln, base, anchor, line.len() as int),
    decreases line.len() - end,
{
    if anchor < end {
        let seg = line.subrange(anchor, end);
        assert(all_digits(seg)) by {
            assert forall|i: int| 0 <= i < seg.len() implies '0' <= #[trigger] seg[i] && seg[i] <= '9' by {
                assert(seg[i] == line.subrange(anchor, line.len() as int)[i]);
            }
        }
        lemma_digits_no_pattern(seg, 0);
    }
    if end < line.len() {
        lemma_scan_digits(line, ln, base, anchor, end + 1);
    }
}

/// Growing the candidate over positions where no literal ends leaves the scan
/// unchanged.
proof fn lemma_scan_skip(line: Seq<char>, ln: int, base: int, anchor: int, end: int, stop: int)
    requires
        0 <= anchor <= end <= stop <= line.len(),
        forall|e: int| end <= e < stop ==> anchor == e || first_pattern(#[trigger] line.subrange(anchor, e)) is None,
        stop > end ==> end < line.len(),
    ensures
        scan_line(line, ln, base, anchor, end) == scan_line(line, ln, base, anchor, stop),
    decreases stop - end,
{
    if end < stop {
        assert(anchor == end || first_pattern(line.subrange(anchor, end)) is None);
        lemma_scan_skip(line, ln, base, anchor, end + 1, stop);
    }
}

/// Text without a line feed is one line.
proof fn lemma_one_line(src: Seq<char>, pos: int)
    requires
        src.len() > 0,
        0 <= pos <= src.len(),
        forall|i: int| 0 <= i < src.len() ==> src[i] != '\n',
    ensures
        raw_from(src, 0, pos, 0) == line_tokens(src.subrange(0, src.len() as int), 0, 0),
    decreases src.len() - pos,
{
    if pos < src.len() {
        lemma_one_line(src, pos + 1);
    }
}

/// The first kind of each merge rule.
spec fn starts_rule(t: YarnTokenType) -> bool {
    t == YarnTokenType::LESS_THAN || t == YarnTokenType::GREATER_THAN || t == YarnTokenType::SUB
        || t == YarnTokenType::EQUAL || t == YarnTokenType::BANG || t == YarnTokenType::ELSE || t
        == YarnTokenType::END
}

/// No rule applies at `j` when the token there starts none, or is a dash that
/// is followed by neither a dash nor `>`.
proof fn lemma_no_rule(ts: Seq<YarnToken>, j: int, r: int)
    requires
        0 <= j < ts.len(),
        0 <= r,
        !starts_rule(ts[j].token_type) || (ts[j].token_type == YarnTokenType::SUB && j + 1 < ts.len()
            && ts[j + 1].token_type != YarnTokenType::SUB && ts[j + 1].token_type
            != YarnTokenType::GREATER_THAN),
    ensures
        first_rule_from(ts, j, r) is None,
    decreases 11 - r,
{
    if r < 11 {
        let p = rule_pattern(r);
        if rule_applies(ts, j, p) {
            assert(ts[j + 0].token_type == p[0]);
            assert(ts[j + 1].token_type == p[1]);
            assert(false);
        }
        lemma_no_rule(ts, j, r + 1);
    }
}

/// Where no rule applies from `i` on, the merge pass keeps the tokens.
proof fn lemma_merge_keeps(ts: Seq<YarnToken>, i: int)
    requires
        0 <= i <= ts.len(),
        forall|j: int| i <= j < ts.len() ==> #[trigger] first_rule_from(ts, j, 0) is None,
    ensures
        merge_from(ts, i) == ts.subrange(i, ts.len() as int),
    decreases ts.len() - i,
{
    if i < ts.len() {
        lemma_merge_keeps(ts, i + 1);
        assert(seq![ts[i]] + ts.subrange(i + 1, ts.len() as int) =~= ts.subrange(i, ts.len() as int));
    } else {
        assert(ts.subrange(i, ts.len() as int) =~= Seq::<YarnToken>::empty());
    }
}

/// A run of digits that is not empty.
pub open spec fn digit_run(d: Seq<char>) -> bool {
    d.len() > 0 && all_digits(d)
}

proof fn lemma_digits_sub(s: Seq<char>, a: int, b: int, d: Seq<char>, off: int)
    requires
        all_digits(d),
        0 <= a <= b <= s.len(),
        0 <= off,
        off + d.len() <= s.len(),
        off <= a,
        b <= off + d.len(),
        forall|i: int| 0 <= i < d.len() ==> s[off + i] == d[i],
    ensures
        all_digits(s.subrange(a, b)),
{
    assert forall|i: int| 0 <= i < b - a implies '0' <= #[trigger] s.subrange(a, b)[i] && s.subrange(a, b)[i] <= '9' by {
        assert(s.subrange(a, b)[i] == s[a + i]);
        assert(s[off + (a + i - off)] == d[a + i - off]);
    }
}

/// The tokens of a literal `d` of digits.
proof fn lemma_tokens_of_integer(d: Seq<char>)
    requires
        digit_run(d),
        d.len() <= usize::MAX,
    ensures
        tokenize_spec(d) == seq![
            mk_token(YarnTokenType::START_LINE, 0, 0, 0, 0),
            mk_token(YarnTokenType::WORD, 0, 0, 0, d.len() as int),
            mk_token(YarnTokenType::END_LINE, 0, d.len() as int, d.len() as int, 0),
            mk_token(YarnTokenType::EOF, 0, 0, d.len() as int, 0),
        ],
{
    let n = d.len() as int;
    assert forall|i: int| 0 <= i < n implies d[i] != '\n' by {
        assert('0' <= d[i] && d[i] <= '9');
    }
    lemma_one_line(d, 0);
    assert(d.subrange(0, n) =~= d);
    lemma_scan_digits(d, 0, 0, 0, 0);
    let raw = raw_from(d, 0, 0, 0).push(mk_token(YarnTokenType::EOF, 0, 0, n, 0));
    let ts = seq![
        mk_token(YarnTokenType::START_LINE, 0, 0, 0, 0),
        mk_token(YarnTokenType::WORD, 0, 0, 0, n),
        mk_token(YarnTokenType::END_LINE, 0, n, n, 0),
        mk_token(YarnTokenType::EOF, 0, 0, n, 0),
    ];
    assert(raw =~= ts);
    assert forall|j: int| 0 <= j < ts.len() implies #[trigger] first_rule_from(ts, j, 0) is None by {
        lemma_no_rule(ts, j, 0);
    }
    lemma_merge_keeps(ts, 0);
    assert(ts.subrange(0, 4) =~= ts);
}

/// The scanner's tokens for a line whose text from `off` on is `d1.d2`.
proof fn lemma_scan_decimal(src: Seq<char>, off: int, d1: Seq<char>, d2: Seq<char>)
    requires
        digit_run(d1),
        digit_run(d2),
        0 <= off <= src.len(),
        src.len() <= usize::MAX,
        src.subrange(off, src.len() as int) == d1 + seq!['.'] + d2,
    ensures
        scan_line(src, 0, 0, off, off) == seq![
            mk_token(YarnTokenType::WORD, 0, off, off, d1.len() as int),
            mk_token(YarnTokenType::PERIOD, 0, off + d1.len(), off + d1.len(), 1),
            mk_token(YarnTokenType::WORD, 0, off + d1.len() + 1, off + d1.len() + 1, d2.len() as int),
        ],
{
    let n1 = d1.len() as int;
    let tail = d1 + seq!['.'] + d2;
    assert(src.len() == off + tail.len());
    assert forall|i: int| 0 <= i < tail.len() implies src[off + i] == #[trigger] tail[i] by {
        assert(src.subrange(off, src.len() as int)[i] == src[off + i]);
    }
    assert forall|i: int| 0 <= i < n1 implies src[off + i] == d1[i] by {
        assert(tail[i] == d1[i]);
    }
    assert forall|i: int| 0 <= i < d2.len() implies src[off + n1 + 1 + i] == d2[i] by {
        assert(tail[n1 + 1 + i] == d2[i]);
    }
    assert(src[off + n1] == '.') by {
        assert(tail[n1] == '.');
    }
    assert forall|e: int| off <= e < off + n1 + 1 implies off == e || first_pattern(
        #[trigger] src.subrange(off, e),
    ) is None by {
        if off < e {
            lemma_digits_sub(src, off, e, d1, off);
            lemma_digits_no_pattern(src.subrange(off, e), 0);
        }
    }
    lemma_scan_skip(src, 0, 0, off, off, off + n1 + 1);
    let seg = src.subrange(off, off + n1 + 1);
    assert forall|j: int| 0 <= j < 10 implies !crate::lexer::ends_with(seg, #[trigger] pattern_text(j)) by {
        lemma_pattern_ends(j);
        let p = pattern_text(j);
        if p.len() <= seg.len() {
            let t = seg.subrange(seg.len() - p.len(), seg.len() as int);
            assert(t[p.len() - 1] == seg[seg.len() - 1]);
        }
    }
    lemma_pattern_ends(10);
    assert(seg.subrange(seg.len() - 1, seg.len() as int) =~= seq!['.']);
    lemma_first_pattern_at(seg, 0, 10);
    lemma_digits_sub(src, off + n1 + 1, src.len() as int, d2, off + n1 + 1);
    lemma_scan_digits(src, 0, 0, off + n1 + 1, off + n1 + 1);
    assert(scan_line(src, 0, 0, off, off + n1 + 1) == word_between(0, 0, off, off + n1) + seq![
        mk_token(YarnTokenType::PERIOD, 0, off + n1, off + n1, 1),
    ] + scan_line(src, 0, 0, off + n1 + 1, off + n1 + 1));
}

/// Lexing a literal `digits` and parsing a number at the first token gives
/// that literal, ending at the token after it.
pub proof fn lemma_integer_literal_round_trip(d: Seq<char>)
    requires
        digit_run(d),
        d.len() <= usize::MAX,
    ensures
        parse_number_spec(tokenize_spec(d), d, 1) == SpecParse::Parsed(Expr::Number(d), 2),
{
    lemma_tokens_of_integer(d);
    assert(d.subrange(0, d.len() as int) =~= d);
}

/// The tokens of a literal `d1.d2`.
proof fn lemma_tokens_of_decimal(d1: Seq<char>, d2: Seq<char>)
    requires
        digit_run(d1),
        digit_run(d2),
        d1.len() + d2.len() + 1 <= usize::MAX,
    ensures
        tokenize_spec(d1 + seq!['.'] + d2) == seq![
            mk_token(YarnTokenType::START_LINE, 0, 0, 0, 0),
            mk_token(YarnTokenType::WORD, 0, 0, 0, d1.len() as int),
            mk_token(YarnTokenType::PERIOD, 0, d1.len() as int, d1.len() as int, 1),
            mk_token(YarnTokenType::WORD, 0, (d1.len() + 1) as int, (d1.len() + 1) as int, d2.len() as int),
            mk_token(YarnTokenType::END_LINE, 0, (d1.len() + d2.len() + 1) as int, (d1.len() + d2.len() + 1) as int, 0),
            mk_token(YarnTokenType::EOF, 0, 0, (d1.len() + d2.len() + 1) as int, 0),
        ],
{
    let src = d1 + seq!['.'] + d2;
    let n = src.len() as int;
    let n1 = d1.len() as int;
    assert forall|i: int| 0 <= i < n implies src[i] != '\n' by {
        if i < n1 {
            assert(src[i] == d1[i]);
        } else if i > n1 {
            assert(src[i] == d2[i - n1 - 1]);
        }
    }
    lemma_one_line(src, 0);
    assert(src.subrange(0, n) =~= src);
    lemma_scan_decimal(src, 0, d1, d2);
    let ts = seq![
        mk_token(YarnTokenType::START_LINE, 0, 0, 0, 0),
        mk_token(YarnTokenType::WORD, 0, 0, 0, n1),
        mk_token(YarnTokenType::PERIOD, 0, n1, n1, 1),
        mk_token(YarnTokenType::WORD, 0, n1 + 1, n1 + 1, d2.len() as int),
        mk_token(YarnTokenType::END_LINE, 0, n, n, 0),
        mk_token(YarnTokenType::EOF, 0, 0, n, 0),
    ];
    assert(raw_from(src, 0, 0, 0).push(mk_token(YarnTokenType::EOF, 0, 0, n, 0)) =~= ts);
    assert forall|j: int| 0 <= j < ts.len() implies #[trigger] first_rule_from(ts, j, 0) is None by {
        lemma_no_rule(ts, j, 0);
    }
    lemma_merge_keeps(ts, 0);
    assert(ts.subrange(0, 6) =~= ts);
}

/// Lexing a literal `digits.digits` and parsing a number at the first token
/// gives that literal, ending after its three tokens.
pub proof fn lemma_decimal_literal_round_trip(d1: Seq<char>, d2: Seq<char>)
    requires
        digit_run(d1),
        digit_run(d2),
        d1.len() + d2.len() + 1 <= usize::MAX,
    ensures
        parse_number_spec(tokenize_spec(d1 + seq!['.'] + d2), d1 + seq!['.'] + d2, 1)
            == SpecParse::Parsed(Expr::Number(d1 + seq!['.'] + d2), 4),
{
    let src = d1 + seq!['.'] + d2;
    let n = src.len() as int;
    let n1 = d1.len() as int;
    lemma_tokens_of_decimal(d1, d2);
    assert(src.subrange(0, n1) =~= d1);
    assert(src.subrange(n1 + 1, n) =~= d2);
}

/// The tokens of a literal `-d1.d2`.
#[verifier::rlimit(50)]
proof fn lemma_tokens_of_negative(d1: Seq<char>, d2: Seq<char>)
    requires
        digit_run(d1),
        digit_run(d2),
        d1.len() + d2.len() + 2 <= usize::MAX,
    ensures
        tokenize_spec(seq!['-'] + d1 + seq!['.'] + d2) == seq![
            mk_token(YarnTokenType::START_LINE, 0, 0, 0, 0),
            mk_token(YarnTokenType::SUB, 0, 0, 0, 1),
            mk_token(YarnTokenType::WORD, 0, 1, 1, d1.len() as int),
            mk_token(YarnTokenType::PERIOD, 0, (d1.len() + 1) as int, (d1.len() + 1) as int, 1),
            mk_token(YarnTokenType::WORD, 0, (d1.len() + 2) as int, (d1.len() + 2) as int, d2.len() as int),
            mk_token(YarnTokenType::END_LINE, 0, (d1.len() + d2.len() + 2) as int, (d1.len() + d2.len() + 2) as int, 0),
            mk_token(YarnTokenType::EOF, 0, 0, (d1.len() + d2.len() + 2) as int, 0),
        ],
{
    let src = seq!['-'] + d1 + seq!['.'] + d2;
    let n = src.len() as int;
    let n1 = d1.len() as int;
    assert forall|i: int| 0 <= i < n implies src[i] != '\n' by {
        if 1 <= i < n1 + 1 {
            assert(src[i] == d1[i - 1]);
        } else if i > n1 + 1 {
            assert(src[i] == d2[i - n1 - 2]);
        }
    }
    lemma_one_line(src, 0);
    assert(src.subrange(0, n) =~= src);
    assert(src.subrange(1, n) =~= d1 + seq!['.'] + d2);
    lemma_scan_decimal(src, 1, d1, d2);
    let seg = src.subrange(0, 1);
    assert(seg =~= seq!['-']);
    assert forall|j: int| 0 <= j < 24 implies !crate::lexer::ends_with(seg, #[trigger] pattern_text(j)) by {
        lemma_pattern_ends(j);
    }
    lemma_pattern_ends(24);
    assert(seg.subrange(0, 1) =~= seq!['-']);
    assert(ends_with_target(seg, 24));
    lemma_first_pattern_at(seg, 0, 24);
    lemma_scan_skip(src, 0, 0, 0, 0, 1);
    assert(scan_line(src, 0, 0, 0, 1) == word_between(0, 0, 0, 0) + seq![
        mk_token(YarnTokenType::SUB, 0, 0, 0, 1),
    ] + scan_line(src, 0, 0, 1, 1));
    let ts = seq![
        mk_token(YarnTokenType::START_LINE, 0, 0, 0, 0),
        mk_token(YarnTokenType::SUB, 0, 0, 0, 1),
        mk_token(YarnTokenType::WORD, 0, 1, 1, n1),
        mk_token(YarnTokenType::PERIOD, 0, n1 + 1, n1 + 1, 1),
        mk_token(YarnTokenType::WORD, 0, n1 + 2, n1 + 2, d2.len() as int),
        mk_token(YarnTokenType::END_LINE, 0, n, n, 0),
        mk_token(YarnTokenType::EOF, 0, 0, n, 0),
    ];
    assert(raw_from(src, 0, 0, 0).push(mk_token(YarnTokenType::EOF, 0, 0, n, 0)) =~= ts);
    assert forall|j: int| 0 <= j < ts.len() implies #[trigger] first_rule_from(ts, j, 0) is None by {
        lemma_no_rule(ts, j, 0);
    }
    lemma_merge_keeps(ts, 0);
    assert(ts.subrange(0, 7) =~= ts);
}

/// Lexing `-digits.digits` and parsing a unary expression at the first token
/// gives the negation of the unsigned literal: the sign belongs to the unary
/// layer, not to the literal.
pub proof fn lemma_negative_literal_round_trip(d1: Seq<char>, d2: Seq<char>)
    requires
        digit_run(d1),
        digit_run(d2),
        d1.len() + d2.len() + 2 <= usize::MAX,
    ensures
        parse_unary_spec(
            tokenize_spec(seq!['-'] + d1 + seq!['.'] + d2),
            seq!['-'] + d1 + seq!['.'] + d2,
            1,
        ) == SpecParse::Parsed(
            Expr::Unary(UnaryOperator::NEGATIVE, Box::new(Expr::Number(d1 + seq!['.'] + d2)), 0, 0),
            5,
        ),
{
    let src = seq!['-'] + d1 + seq!['.'] + d2;
    let n = src.len() as int;
    let n1 = d1.len() as int;
    lemma_tokens_of_negative(d1, d2);
    let ts = tokenize_spec(src);
    assert(src.subrange(1, n1 + 1) =~= d1);
    assert(src.subrange(n1 + 2, n) =~= d2);
    assert(parse_number_spec(ts, src, 2) == SpecParse::Parsed(Expr::Number(d1 + seq!['.'] + d2), 5));
    assert(parse_primary_spec(ts, src, 2) == SpecParse::Parsed(Expr::Number(d1 + seq!['.'] + d2), 5));
}

/// Line markers and the end-of-file marker.
spec fn is_marker(t: YarnToken) -> bool {
    t.token_type == YarnTokenType::START_LINE || t.token_type == YarnTokenType::END_LINE
        || t.token_type == YarnTokenType::EOF
}

/// The text of each single-character token that a merge rule below fuses.
spec fn single_text(t: YarnTokenType) -> Option<Seq<char>> {
    if t == YarnTokenType::EQUAL {
        Some(seq!['='])
    } else if t == YarnTokenType::BANG {
        Some(seq!['!'])
    } else if t == YarnTokenType::LESS_THAN {
        Some(seq!['<'])
    } else if t == YarnTokenType::GREATER_THAN {
        Some(seq!['>'])
    } else if t == YarnTokenType::SUB {
        Some(seq!['-'])
    } else if t == YarnTokenType::ELSE {
        Some(seq!['e', 'l', 's', 'e'])
    } else if t == YarnTokenType::IF {
        Some(seq!['i', 'f'])
    } else if t == YarnTokenType::END {
        Some(seq!['e', 'n', 'd'])
    } else {
        None
    }
}

/// The kinds that the merge pass produces, with the text they stand for.
pub open spec fn merged_text(t: YarnTokenType) -> Option<Seq<char>> {
    if t == YarnTokenType::START_COMMAND {
        Some(seq!['<', '<'])
    } else if t == YarnTokenType::END_COMMAND {
        Some(seq!['>', '>'])
    } else if t == YarnTokenType::START_NODE {
        Some(seq!['-', '-', '-'])
    } else if t == YarnTokenType::END_NODE {
        Some(seq!['=', '=', '='])
    } else if t == YarnTokenType::EQUAL_TOO {
        Some(seq!['=', '='])
    } else if t == YarnTokenType::NOT_EQUAL_TOO {
        Some(seq!['!', '='])
    } else if t == YarnTokenType::ARROW {
        Some(seq!['-', '>'])
    } else if t == YarnTokenType::GREATER_THAN_EQ {
        Some(seq!['>', '='])
    } else if t == YarnTokenType::LESS_THAN_EQ {
        Some(seq!['<', '='])
    } else if t == YarnTokenType::ELSEIF {
        Some(seq!['e', 'l', 's', 'e', 'i', 'f'])
    } else if t == YarnTokenType::ENDIF {
        Some(seq!['e', 'n', 'd', 'i', 'f'])
    } else {
        None
    }
}

/// Each merge rule's text is the texts of the kinds it fuses, in order.
proof fn lemma_rule_text(r: int)
    requires
        0 <= r < 11,
    ensures
        forall|i: int| 0 <= i < rule_pattern(r).len() ==> #[trigger] single_text(rule_pattern(r)[i]) is Some,
        rule_pattern(r).len() == 2 ==> merged_text(rule_result(r)) == Some(
            single_text(rule_pattern(r)[0])->0 + single_text(rule_pattern(r)[1])->0,
        ),
        rule_pattern(r).len() == 3 ==> merged_text(rule_result(r)) == Some(
            single_text(rule_pattern(r)[0])->0 + single_text(rule_pattern(r)[1])->0 + single_text(
                rule_pattern(r)[2],
            )->0,
        ),
{
    lemma_rule_len(r);
    let p = rule_pattern(r);
    if p.len() == 2 {
        assert(merged_text(rule_result(r))->0 =~= single_text(p[0])->0 + single_text(p[1])->0);
    } else {
        assert(merged_text(rule_result(r))->0 =~= single_text(p[0])->0 + single_text(p[1])->0
            + single_text(p[2])->0);
    }
}

/// What the scanner guarantees of each token it emits.
spec fn scanned_ok(src: Seq<char>, t: YarnToken) -> bool {
    &&& in_bounds(t, src.len())
    &&& merged_text(t.token_type) matches Some(x) ==> content_of(src, t) == x
    &&& single_text(t.token_type) matches Some(x) ==> content_of(src, t) == x
}

/// Consecutive tokens that are not markers are adjacent in the source.
#[verifier::opaque]
spec fn tiles(ts: Seq<YarnToken>) -> bool {
    forall|j: int|
        0 <= j < ts.len() - 1 && !is_marker(#[trigger] ts[j]) && !is_marker(ts[j + 1])
            ==> ts[j].token_offset + ts[j].token_length == ts[j + 1].token_offset
}

#[verifier::opaque]
spec fn all_scanned_ok(src: Seq<char>, ts: Seq<YarnToken>) -> bool {
    forall|j: int| 0 <= j < ts.len() ==> scanned_ok(src, #[trigger] ts[j])
}

#[verifier::opaque]
spec fn no_markers(ts: Seq<YarnToken>) -> bool {
    forall|j: int| 0 <= j < ts.len() ==> !is_marker(#[trigger] ts[j])
}

proof fn lemma_pattern_kinds(k: int)
    requires
        0 <= k < PATTERN_COUNT,
    ensures
        merged_text(pattern_type(k)) matches Some(x) ==> pattern_text(k) == x,
        !is_marker(mk_token(pattern_type(k), 0, 0, 0, 0)),
        single_text(pattern_type(k)) matches Some(x) ==> pattern_text(k) == x,
{
}

proof fn lemma_tiles_concat(a: Seq<YarnToken>, b: Seq<YarnToken>)
    requires
        tiles(a),
        tiles(b),
        a.len() == 0 || b.len() == 0 || is_marker(a.last()) || is_marker(b[0]) || a.last().token_offset
            + a.last().token_length == b[0].token_offset,
    ensures
        tiles(a + b),
{
    let c = a + b;
    assert forall|j: int|
        0 <= j < c.len() - 1 && !is_marker(#[trigger] c[j]) && !is_marker(c[j + 1]) implies c[j].token_offset
        + c[j].token_length == c[j + 1].token_offset by {
        if j < a.len() - 1 {
            assert(c[j] == a[j] && c[j + 1] == a[j + 1]);
            lemma_tiles_at(a, j);
        } else if j == a.len() - 1 {
            assert(c[j] == a.last() && c[j + 1] == b[0]);
        } else {
            assert(c[j] == b[j - a.len()] && c[j + 1] == b[j - a.len() + 1]);
            lemma_tiles_at(b, j - a.len());
        }
    }
    lemma_tiles_intro(c);
}

proof fn lemma_tiles_intro(ts: Seq<YarnToken>)
    requires
        forall|j: int|
            0 <= j < ts.len() - 1 && !is_marker(#[trigger] ts[j]) && !is_marker(ts[j + 1])
                ==> ts[j].token_offset + ts[j].token_length == ts[j + 1].token_offset,
    ensures
        tiles(ts),
{
    reveal(tiles);
}

proof fn lemma_tiles_at(ts: Seq<YarnToken>, j: int)
    requires
        tiles(ts),
        0 <= j < ts.len() - 1,
        !is_marker(ts[j]),
        !is_marker(ts[j + 1]),
    ensures
        ts[j].token_offset + ts[j].token_length == ts[j + 1].token_offset,
{
    reveal(tiles);
}

proof fn lemma_ok_at(src: Seq<char>, ts: Seq<YarnToken>, j: int)
    requires
        all_scanned_ok(src, ts),
        0 <= j < ts.len(),
    ensures
        scanned_ok(src, ts[j]),
{
    reveal(all_scanned_ok);
}

proof fn lemma_empty_ok(src: Seq<char>)
    ensures
        all_scanned_ok(src, Seq::<YarnToken>::empty()),
        tiles(Seq::<YarnToken>::empty()),
{
    reveal(all_scanned_ok);
    reveal(tiles);
}

proof fn lemma_ok_concat(src: Seq<char>, a: Seq<YarnToken>, b: Seq<YarnToken>)
    requires
        all_scanned_ok(src, a),
        all_scanned_ok(src, b),
    ensures
        all_scanned_ok(src, a + b),
{
    reveal(all_scanned_ok);
    assert forall|j: int| 0 <= j < (a + b).len() implies scanned_ok(src, #[trigger] (a + b)[j]) by {
        if j < a.len() {
            assert((a + b)[j] == a[j]);
        } else {
            assert((a + b)[j] == b[j - a.len()]);
        }
    }
}

proof fn lemma_no_markers_concat(a: Seq<YarnToken>, b: Seq<YarnToken>)
    requires
        no_markers(a),
        no_markers(b),
    ensures
        no_markers(a + b),
{
    reveal(no_markers);
    assert forall|j: int| 0 <= j < (a + b).len() implies !is_marker(#[trigger] (a + b)[j]) by {
        if j < a.len() {
            assert((a + b)[j] == a[j]);
        } else {
            assert((a + b)[j] == b[j - a.len()]);
        }
    }
}

proof fn lemma_single(src: Seq<char>, t: YarnToken)
    requires
        scanned_ok(src, t),
    ensures
        all_scanned_ok(src, seq![t]),
        tiles(seq![t]),
        !is_marker(t) ==> no_markers(seq![t]),
{
    reveal(all_scanned_ok);
    reveal(tiles);
    reveal(no_markers);
}

/// A word of a line held at `base` is checked and is no marker.
proof fn lemma_word_ok(src: Seq<char>, ln: int, base: int, a: int, b: int)
    requires
        0 <= base,
        0 <= a,
        base + b <= src.len(),
        src.len() <= usize::MAX,
    ensures
        all_scanned_ok(src, word_between(ln, base, a, b)),
        no_markers(word_between(ln, base, a, b)),
        tiles(word_between(ln, base, a, b)),
{
    reveal(all_scanned_ok);
    reveal(tiles);
    reveal(no_markers);
}

/// The token for table literal `k`, found at `start` of a line held at `base`.
proof fn lemma_pattern_token_ok(src: Seq<char>, line: Seq<char>, ln: int, base: int, start: int, k: int)
    requires
        0 <= k < PATTERN_COUNT,
        0 <= base,
        0 <= start,
        start + pattern_text(k).len() <= line.len(),
        base + line.len() <= src.len(),
        src.len() <= usize::MAX,
        line == src.subrange(base, base + line.len()),
        line.subrange(start, start + pattern_text(k).len()) == pattern_text(k),
    ensures
        scanned_ok(src, mk_token(pattern_type(k), ln, start, base + start, pattern_text(k).len() as int)),
        !is_marker(mk_token(pattern_type(k), ln, start, base + start, pattern_text(k).len() as int)),
{
    let p = pattern_text(k);
    let t = mk_token(pattern_type(k), ln, start, base + start, p.len() as int);
    lemma_pattern_kinds(k);
    assert(content_of(src, t) =~= p) by {
        assert forall|i: int| 0 <= i < p.len() implies content_of(src, t)[i] == p[i] by {
            assert(line.subrange(start, start + p.len())[i] == line[start + i]);
            assert(line[start + i] == src[base + start + i]);
        }
    }
}

/// The scanner's tokens for a line held at `base` of `src`: each is checked,
/// none is a marker, they tile the line, and the first starts at the anchor.
#[verifier::spinoff_prover]
proof fn lemma_scan_ok(src: Seq<char>, line: Seq<char>, ln: int, base: int, anchor: int, end: int)
    requires
        0 <= base,
        base + line.len() <= src.len(),
        src.len() <= usize::MAX,
        line == src.subrange(base, base + line.len()),
        0 <= anchor <= end <= line.len(),
    ensures
        all_scanned_ok(src, scan_line(line, ln, base, anchor, end)),
        no_markers(scan_line(line, ln, base, anchor, end)),
        tiles(scan_line(line, ln, base, anchor, end)),
        scan_line(line, ln, base, anchor, end).len() > 0 ==> scan_line(
            line,
            ln,
            base,
            anchor,
            end,
        )[0].token_offset == base + anchor,
    decreases line.len() - end, end - anchor,
{
    if anchor < end && first_pattern(line.subrange(anchor, end)) is Some {
        let seg = line.subrange(anchor, end);
        let k = first_pattern(seg)->0;
        lemma_first_pattern(seg, 0);
        let p = pattern_text(k);
        let start = end - p.len();
        assert(line.subrange(start, start + p.len()) =~= seg.subrange(seg.len() - p.len(), seg.len() as int));
        lemma_pattern_token_ok(src, line, ln, base, start, k);
        let w = word_between(ln, base, anchor, start);
        let t = mk_token(pattern_type(k), ln, start, base + start, p.len() as int);
        lemma_scan_ok(src, line, ln, base, end, end);
        let rest = scan_line(line, ln, base, end, end);
        assert(scan_line(line, ln, base, anchor, end) == w + seq![t] + rest);
        lemma_single(src, t);
        lemma_word_ok(src, ln, base, anchor, start);
        lemma_ok_concat(src, w, seq![t]);
        lemma_ok_concat(src, w + seq![t], rest);
        lemma_no_markers_concat(w, seq![t]);
        lemma_no_markers_concat(w + seq![t], rest);
        lemma_tiles_concat(w, seq![t]);
        lemma_tiles_concat(w + seq![t], rest);
    } else if end == line.len() {
        lemma_word_ok(src, ln, base, anchor, end);
    } else {
        lemma_scan_ok(src, line, ln, base, anchor, end + 1);
    }
}

/// The same for the tokens of the lines from `start` on.
#[verifier::spinoff_prover]
proof fn lemma_raw_ok(src: Seq<char>, start: int, pos: int, ln: int)
    requires
        0 <= start <= pos,
        src.len() <= usize::MAX,
    ensures
        all_scanned_ok(src, raw_from(src, start, pos, ln)),
        tiles(raw_from(src, start, pos, ln)),
        raw_from(src, start, pos, ln).len() > 0 ==> is_marker(raw_from(src, start, pos, ln)[0])
            && is_marker(raw_from(src, start, pos, ln).last()),
    decreases src.len() - pos,
{
    if pos >= src.len() {
        if start < src.len() {
            lemma_line_ok(src, src.subrange(start, src.len() as int), ln, start);
        } else {
            lemma_empty_ok(src);
        }
    } else if src[pos] == '\n' {
        let stop = line_stop(src, start, pos);
        let lt = line_tokens(src.subrange(start, stop), ln, start);
        lemma_line_ok(src, src.subrange(start, stop), ln, start);
        lemma_raw_ok(src, pos + 1, pos + 1, ln + 1);
        let rest = raw_from(src, pos + 1, pos + 1, ln + 1);
        assert(raw_from(src, start, pos, ln) == lt + rest);
        lemma_tiles_concat(lt, rest);
        lemma_ok_concat(src, lt, rest);
        if rest.len() > 0 {
            assert((lt + rest).last() == rest.last());
        }
        assert((lt + rest)[0] == lt[0]);
    } else {
        lemma_raw_ok(src, start, pos + 1, ln);
    }
}

#[verifier::spinoff_prover]
proof fn lemma_line_ok(src: Seq<char>, line: Seq<char>, ln: int, base: int)
    requires
        0 <= base,
        base + line.len() <= src.len(),
        src.len() <= usize::MAX,
        line == src.subrange(base, base + line.len()),
    ensures
        all_scanned_ok(src, line_tokens(line, ln, base)),
        tiles(line_tokens(line, ln, base)),
        is_marker(line_tokens(line, ln, base)[0]),
        is_marker(line_tokens(line, ln, base).last()),
{
    lemma_scan_ok(src, line, ln, base, 0, 0);
    let sl = seq![mk_token(YarnTokenType::START_LINE, ln, 0, base, 0)];
    let sc = scan_line(line, ln, base, 0, 0);
    let el = seq![mk_token(YarnTokenType::END_LINE, ln, line.len() as int, base + line.len(), 0)];
    lemma_single(src, sl[0]);
    lemma_single(src, el[0]);
    assert(seq![sl[0]] == sl);
    assert(seq![el[0]] == el);
    lemma_tiles_concat(sl, sc);
    lemma_tiles_concat(sl + sc, el);
    lemma_ok_concat(src, sl, sc);
    lemma_ok_concat(src, sl + sc, el);
    assert(line_tokens(line, ln, base) == sl + sc + el);
    assert((sl + sc + el)[0] == sl[0]);
    assert((sl + sc + el).last() == el[0]);
}

/// Each token after the merge pass from `i` on is an input token or the
/// fusion of the tokens that a rule names.
proof fn lemma_merge_shape(ts: Seq<YarnToken>, i: int, p: int)
    requires
        0 <= i,
        0 <= p < merge_from(ts, i).len(),
    ensures
        (exists|j: int| i <= j < ts.len() && merge_from(ts, i)[p] == ts[j]) || (exists|j: int, r: int|
            0 <= r < 11 && i <= j && rule_applies(ts, j, rule_pattern(r)) && merge_from(ts, i)[p]
                == merged(ts[j], ts[j + rule_pattern(r).len() - 1], rule_result(r))),
    decreases ts.len() - i,
{
    lemma_first_rule(ts, i, 0);
    if i < ts.len() {
        if first_rule_from(ts, i, 0) is Some {
            let r = first_rule_from(ts, i, 0)->0;
            lemma_rule_len(r);
            let n = rule_pattern(r).len() as int;
            if p > 0 {
                lemma_merge_shape(ts, i + n, p - 1);
            }
        } else if p > 0 {
            lemma_merge_shape(ts, i + 1, p - 1);
        }
    }
}

#[verifier::spinoff_prover]
#[verifier::rlimit(50)]
/// Every token of a kind that the merge pass produces (`<<`, `>>`, `---`,
/// `===`, `==`, `!=`, `->`, `>=`, `<=`, `elseif`, `endif`) covers exactly the
/// text of that kind in the source: the span of a fused token holds the
/// characters that were fused.
pub proof fn lemma_merged_tokens_cover_their_text(src: Seq<char>, p: int)
    requires
        src.len() <= usize::MAX,
        0 <= p < tokenize_spec(src).len(),
        merged_text(tokenize_spec(src)[p].token_type) is Some,
    ensures
        content_of(src, tokenize_spec(src)[p]) == merged_text(tokenize_spec(src)[p].token_type)->0,
{
    let raw0 = raw_from(src, 0, 0, 0);
    let eof = mk_token(YarnTokenType::EOF, 0, 0, src.len() as int, 0);
    let raw = raw0.push(eof);
    lemma_raw_ok(src, 0, 0, 0);
    lemma_single(src, eof);
    lemma_tiles_concat(raw0, seq![eof]);
    lemma_ok_concat(src, raw0, seq![eof]);
    assert(raw == raw0 + seq![eof]);
    let u = tokenize_spec(src)[p];
    lemma_merge_shape(raw, 0, p);
    if exists|j: int| 0 <= j < raw.len() && u == raw[j] {
        let j = choose|j: int| 0 <= j < raw.len() && u == raw[j];
        lemma_ok_at(src, raw, j);
    } else {
        let (j, r) = choose|j: int, r: int|
            0 <= r < 11 && 0 <= j && rule_applies(raw, j, rule_pattern(r)) && u == merged(
                raw[j],
                raw[j + rule_pattern(r).len() - 1],
                rule_result(r),
            );
        let pat = rule_pattern(r);
        lemma_rule_len(r);
        lemma_rule_text(r);
        assert(raw[j + 0].token_type == pat[0]);
        assert(raw[j + 1].token_type == pat[1]);
        assert(single_text(pat[0]) is Some && single_text(pat[1]) is Some);
        let a = raw[j];
        let b = raw[j + 1];
        lemma_ok_at(src, raw, j);
        lemma_ok_at(src, raw, j + 1);
        assert(!is_marker(a) && !is_marker(b));
        lemma_tiles_at(raw, j);
        if pat.len() == 2 {
            assert(content_of(src, u) =~= content_of(src, a) + content_of(src, b));
        } else {
            assert(raw[j + 2].token_type == pat[2]);
            assert(single_text(pat[2]) is Some);
            let c = raw[j + 2];
            lemma_ok_at(src, raw, j + 2);
            assert(!is_marker(c));
            lemma_tiles_at(raw, j + 1);
            assert(content_of(src, u) =~= content_of(src, a) + content_of(src, b) + content_of(src, c));
        }
    }
}

/// The first end-of-line or end-of-file token at or after `i`, or the length
/// of `ts` when there is none.
pub open spec fn first_end_from(ts: Seq<YarnToken>, i: int) -> int
    decreases ts.len() - i,
{
    if i >= ts.len() {
        ts.len() as int
    } else if ts[i].token_type == YarnTokenType::END_LINE || ts[i].token_type == YarnTokenType::EOF {
        i
    } else {
        first_end_from(ts, i + 1)
    }
}

proof fn lemma_first_end_from(ts: Seq<YarnToken>, i: int)
    ensures
        i <= ts.len() ==> first_end_from(ts, i) >= i,
    decreases ts.len() - i,
{
    if i < ts.len() {
        lemma_first_end_from(ts, i + 1);
    }
}

/// Where a string literal goes wrong: at the first end of line or end of file
/// after what it has read, with an end-of-line or end-of-file error there.
pub open spec fn unterminated_at(ts: Seq<YarnToken>, i: int, e: crate::error::YarnError) -> bool {
    let k = first_end_from(ts, i);
    if k < ts.len() && ts[k].token_type == YarnTokenType::END_LINE {
        e == err(YarnErrorKind::Eol, ts[k].line, ts[k].col)
    } else if k < ts.len() {
        e == err(YarnErrorKind::Eof, ts[k].line, ts[k].col)
    } else {
        e == err(YarnErrorKind::Eof, 0, 0)
    }
}

/// The rest of a string literal from token `i` either closes with a quotation
/// mark before the next end of line or end of file, or is an end-of-line or
/// end-of-file error at that token; it is never anything else.
pub proof fn lemma_string_body_ends(
    ts: Seq<YarnToken>,
    src: Seq<char>,
    i: int,
    escape: bool,
    acc: Seq<char>,
)
    requires
        0 <= i,
    ensures
        !(string_body_spec(ts, src, i, escape, acc) is Failed),
        string_body_spec(ts, src, i, escape, acc) matches SpecParse::Error(e) ==> unterminated_at(
            ts,
            i,
            e,
        ),
        string_body_spec(ts, src, i, escape, acc) matches SpecParse::Parsed(_, end) ==> i < end
            <= first_end_from(ts, i) && ts[end - 1].token_type == YarnTokenType::QUOTATION,
    decreases ts.len() - i,
{
    lemma_first_end_from(ts, i + 1);
    if i < ts.len() {
        let t = ts[i];
        if !(t.token_type == YarnTokenType::QUOTATION && !escape) && t.token_type
            != YarnTokenType::END_LINE && t.token_type != YarnTokenType::EOF {
            let esc = t.token_type == YarnTokenType::BACKWARD_SLASH && !escape;
            let acc2 = if esc {
                acc
            } else {
                acc + content_of(src, t)
            };
            lemma_string_body_ends(ts, src, i + 1, esc, acc2);
        }
    }
}

/// An unterminated string literal: a quotation mark with no closing one before
/// the end of its line is an end-of-line error at that line's end marker (an
/// end-of-file error where the tokens end first), never a parse and never a
/// failure.
pub proof fn lemma_unterminated_string(ts: Seq<YarnToken>, src: Seq<char>, off: int)
    requires
        0 <= off < ts.len(),
        ts[off].token_type == YarnTokenType::QUOTATION,
        forall|j: int|
            off < j < first_end_from(ts, off + 1) ==> (#[trigger] ts[j]).token_type
                != YarnTokenType::QUOTATION,
    ensures
        parse_string_spec(ts, src, off) matches SpecParse::Error(e) && unterminated_at(ts, off + 1, e),
{
    lemma_string_body_ends(ts, src, off + 1, false, seq![]);
}

/// Lexing a two-character text whose characters are single table literals
/// `k1` and `k2` that merge rule `r` fuses gives one token of `r`'s kind over
/// the whole text.
proof fn lemma_relex_pair(c1: char, c2: char, k1: int, k2: int, r: int)
    requires
        0 <= k1 < PATTERN_COUNT,
        0 <= k2 < PATTERN_COUNT,
        0 <= r < 11,
        pattern_text(k1) == seq![c1],
        pattern_text(k2) == seq![c2],
        c1 != '\n',
        c2 != '\n',
        forall|j: int| 0 <= j < k1 ==> !crate::lexer::ends_with(seq![c1], #[trigger] pattern_text(j)),
        forall|j: int| 0 <= j < k2 ==> !crate::lexer::ends_with(seq![c2], #[trigger] pattern_text(j)),
        rule_pattern(r) == seq![pattern_type(k1), pattern_type(k2)],
        forall|q: int|
            0 <= q < r ==> #[trigger] rule_pattern(q)[0] != pattern_type(k1) || rule_pattern(q)[1]
                != pattern_type(k2) || rule_pattern(q).len() > 2,
    ensures
        tokenize_spec(seq![c1, c2]) == seq![
            mk_token(YarnTokenType::START_LINE, 0, 0, 0, 0),
            mk_token(rule_result(r), 0, 0, 0, 2),
            mk_token(YarnTokenType::END_LINE, 0, 2, 2, 0),
            mk_token(YarnTokenType::EOF, 0, 0, 2, 0),
        ],
{
    let src = seq![c1, c2];
    lemma_one_line(src, 0);
    assert(src.subrange(0, 2) =~= src);
    assert(src.subrange(0, 1) =~= seq![c1]);
    assert(src.subrange(1, 2) =~= seq![c2]);
    assert(seq![c1].subrange(0, 1) =~= seq![c1]);
    assert(seq![c2].subrange(0, 1) =~= seq![c2]);
    assert(crate::lexer::ends_with(seq![c1], pattern_text(k1)));
    assert(crate::lexer::ends_with(seq![c2], pattern_text(k2)));
    lemma_first_pattern_at_any(seq![c1], 0, k1);
    lemma_first_pattern_at_any(seq![c2], 0, k2);
    assert(scan_line(src, 0, 0, 1, 1) == scan_line(src, 0, 0, 1, 2));
    assert(scan_line(src, 0, 0, 2, 2) == Seq::<YarnToken>::empty());
    assert(scan_line(src, 0, 0, 1, 2) =~= seq![mk_token(pattern_type(k2), 0, 1, 1, 1)]);
    assert(scan_line(src, 0, 0, 0, 0) == scan_line(src, 0, 0, 0, 1));
    assert(scan_line(src, 0, 0, 0, 1) =~= seq![
        mk_token(pattern_type(k1), 0, 0, 0, 1),
        mk_token(pattern_type(k2), 0, 1, 1, 1),
    ]);
    let ts = seq![
        mk_token(YarnTokenType::START_LINE, 0, 0, 0, 0),
        mk_token(pattern_type(k1), 0, 0, 0, 1),
        mk_token(pattern_type(k2), 0, 1, 1, 1),
        mk_token(YarnTokenType::END_LINE, 0, 2, 2, 0),
        mk_token(YarnTokenType::EOF, 0, 0, 2, 0),
    ];
    assert(raw_from(src, 0, 0, 0).push(mk_token(YarnTokenType::EOF, 0, 0, 2, 0)) =~= ts);
    assert(rule_applies(ts, 1, rule_pattern(r))) by {
        assert(ts[1int + 0int].token_type == rule_pattern(r)[0]);
        assert(ts[1int + 1int].token_type == rule_pattern(r)[1]);
    }
    assert forall|q: int| 0 <= q < r implies !rule_applies(ts, 1, #[trigger] rule_pattern(q)) by {
        lemma_rule_len(q);
        if rule_applies(ts, 1, rule_pattern(q)) {
            assert(ts[1int + 0int].token_type == rule_pattern(q)[0]);
            assert(ts[1int + 1int].token_type == rule_pattern(q)[1]);
            if rule_pattern(q).len() > 2 {
                assert(ts[1int + 2int].token_type == rule_pattern(q)[2]);
            }
        }
    }
    lemma_first_rule_at(ts, 1, 0, r);
    lemma_no_rule(ts, 0, 0);
    lemma_no_rule(ts, 3, 0);
    lemma_no_rule(ts, 4, 0);
    lemma_merge_keeps(ts, 3);
    assert(ts.subrange(3, 5) =~= seq![ts[3], ts[4]]);
    let m = merged(ts[1], ts[2], rule_result(r));
    assert(m == mk_token(rule_result(r), 0, 0, 0, 2));
    assert(merge_from(ts, 1) == seq![m] + merge_from(ts, 3));
    assert(merge_from(ts, 0) == seq![ts[0]] + merge_from(ts, 1));
    assert(merge_from(ts, 0) =~= seq![ts[0], m, ts[3], ts[4]]);
}

proof fn lemma_first_pattern_at_any(seg: Seq<char>, k: int, target: int)
    requires
        0 <= k <= target < PATTERN_COUNT,
        crate::lexer::ends_with(seg, pattern_text(target)),
        forall|j: int| k <= j < target ==> !crate::lexer::ends_with(seg, #[trigger] pattern_text(j)),
    ensures
        first_pattern_from(seg, k) == Some(target),
    decreases target - k,
{
    if k < target {
        lemma_first_pattern_at_any(seg, k + 1, target);
    }
}

proof fn lemma_first_rule_at(ts: Seq<YarnToken>, i: int, q: int, r: int)
    requires
        0 <= q <= r < 11,
        rule_applies(ts, i, rule_pattern(r)),
        forall|x: int| q <= x < r ==> !rule_applies(ts, i, #[trigger] rule_pattern(x)),
    ensures
        first_rule_from(ts, i, q) == Some(r),
    decreases r - q,
{
    if q < r {
        lemma_first_rule_at(ts, i, q + 1, r);
    }
}

/// A one-character text ends with no other one-character literal.
proof fn lemma_not_single(c: char, p: Seq<char>)
    requires
        p.len() >= 1,
        p.len() != 1 || p[0] != c,
    ensures
        !crate::lexer::ends_with(seq![c], p),
{
    if p.len() == 1 && crate::lexer::ends_with(seq![c], p) {
        assert(seq![c].subrange(0, 1)[0] == p[0]);
    }
}

/// The position in the scanning table of the literal that is the single
/// character `c`, which no earlier literal matches.
proof fn lemma_first_single(c: char, k: int)
    requires
        0 <= k < PATTERN_COUNT,
        forall|j: int| 0 <= j < k ==> #[trigger] pattern_text(j).len() != 1 || pattern_text(j)[0] != c,
    ensures
        forall|j: int| 0 <= j < k ==> !crate::lexer::ends_with(seq![c], #[trigger] pattern_text(j)),
{
    assert forall|j: int| 0 <= j < k implies !crate::lexer::ends_with(seq![c], #[trigger] pattern_text(j)) by {
        lemma_pattern_ends(j);
        lemma_not_single(c, pattern_text(j));
    }
}

/// The token sequence of a two-character operator text.
pub open spec fn operator_tokens(t: YarnTokenType) -> Seq<YarnToken> {
    seq![
        mk_token(YarnTokenType::START_LINE, 0, 0, 0, 0),
        mk_token(t, 0, 0, 0, 2),
        mk_token(YarnTokenType::END_LINE, 0, 2, 2, 0),
        mk_token(YarnTokenType::EOF, 0, 0, 2, 0),
    ]
}

/// Lexing the text of `==`, `!=`, `<<`, `>>`, `->`, `>=` or `<=` gives back
/// exactly one token of that kind, spanning the whole text.
pub proof fn lemma_operators_relex()
    ensures
        tokenize_spec(seq!['=', '=']) == operator_tokens(YarnTokenType::EQUAL_TOO),
        tokenize_spec(seq!['!', '=']) == operator_tokens(YarnTokenType::NOT_EQUAL_TOO),
        tokenize_spec(seq!['<', '<']) == operator_tokens(YarnTokenType::START_COMMAND),
        tokenize_spec(seq!['>', '>']) == operator_tokens(YarnTokenType::END_COMMAND),
        tokenize_spec(seq!['-', '>']) == operator_tokens(YarnTokenType::ARROW),
        tokenize_spec(seq!['>', '=']) == operator_tokens(YarnTokenType::GREATER_THAN_EQ),
        tokenize_spec(seq!['<', '=']) == operator_tokens(YarnTokenType::LESS_THAN_EQ),
{
    lemma_first_single('=', 15);
    lemma_first_single('!', 26);
    lemma_first_single('<', 11);
    lemma_first_single('>', 12);
    lemma_first_single('-', 24);
    lemma_relex_pair('=', '=', 15, 15, 4);
    lemma_relex_pair('!', '=', 26, 15, 5);
    lemma_relex_pair('<', '<', 11, 11, 0);
    lemma_relex_pair('>', '>', 12, 12, 1);
    lemma_relex_pair('-', '>', 24, 12, 6);
    lemma_relex_pair('>', '=', 12, 15, 7);
    lemma_relex_pair('<', '=', 11, 15, 8);
}

} // verus!
