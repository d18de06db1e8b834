//! The lexer: splits the source into lines, scans each line against a fixed
//! table of literals, then fuses runs of single-character tokens into compound
//! operators.
use vstd::prelude::*;
use vstd::string::StrSliceExecFns;
use crate::token::{in_bounds, merged, YarnToken, YarnTokenQueue, YarnTokenType};

verus! {

/// How many literals the scanning table holds.
pub const PATTERN_COUNT: usize = 29;

/// The literal at position `k` of the scanning table, tried in this order.
pub open spec fn pattern_text(k: int) -> Seq<char> {
    if k == 0 { seq![':'] }
    else if k == 1 { seq!['-', '>'] }
    else if k == 2 { seq!['-', '-', '-'] }
    else if k == 3 { seq!['=', '=', '='] }
    else if k == 4 { seq![' '] }
    else if k == 5 { seq!['e', 'l', 's', 'e', 'i', 'f'] }
    else if k == 6 { seq!['e', 'n', 'd', 'i', 'f'] }
    else if k == 7 { seq!['i', 'f'] }
    else if k == 8 { seq!['e', 'l', 's', 'e'] }
    else if k == 9 { seq!['"'] }
    else if k == 10 { seq!['.'] }
    else if k == 11 { seq!['<'] }
    else if k == 12 { seq!['>'] }
    else if k == 13 { seq!['<', '='] }
    else if k == 14 { seq!['>', '='] }
    else if k == 15 { seq!['='] }
    else if k == 16 { seq!['#'] }
    else if k == 17 { seq!['['] }
    else if k == 18 { seq![']'] }
    else if k == 19 { seq!['('] }
    else if k == 20 { seq![')'] }
    else if k == 21 { seq!['/'] }
    else if k == 22 { seq!['*'] }
    else if k == 23 { seq!['+'] }
    else if k == 24 { seq!['-'] }
    else if k == 25 { seq!['$'] }
    else if k == 26 { seq!['!'] }
    else if k == 27 { seq!['\\'] }
    else { seq![','] }
}

/// The kind of token that the literal at position `k` of the table produces.
pub open spec fn pattern_type(k: int) -> YarnTokenType {
    if k == 0 { YarnTokenType::COLON }
    else if k == 1 { YarnTokenType::ARROW }
    else if k == 2 { YarnTokenType::START_NODE }
    else if k == 3 { YarnTokenType::END_NODE }
    else if k == 4 { YarnTokenType::SPACE }
    else if k == 5 { YarnTokenType::ELSEIF }
    else if k == 6 { YarnTokenType::ENDIF }
    else if k == 7 { YarnTokenType::IF }
    else if k == 8 { YarnTokenType::ELSE }
    else if k == 9 { YarnTokenType::QUOTATION }
    else if k == 10 { YarnTokenType::PERIOD }
    else if k == 11 { YarnTokenType::LESS_THAN }
    else if k == 12 { YarnTokenType::GREATER_THAN }
    else if k == 13 { YarnTokenType::LESS_THAN_EQ }
    else if k == 14 { YarnTokenType::GREATER_THAN_EQ }
    else if k == 15 { YarnTokenType::EQUAL }
    else if k == 16 { YarnTokenType::HASHTAG }
    else if k == 17 { YarnTokenType::LEFT_SQUARE_BRACKET }
    else if k == 18 { YarnTokenType::RIGHT_SQUARE_BRACKET }
    else if k == 19 { YarnTokenType::LEFT_PAREN }
    else if k == 20 { YarnTokenType::RIGHT_PAREN }
    else if k == 21 { YarnTokenType::FORWARD_SLASH }
    else if k == 22 { YarnTokenType::MULT }
    else if k == 23 { YarnTokenType::ADD }
    else if k == 24 { YarnTokenType::SUB }
    else if k == 25 { YarnTokenType::DOLLAR_SIGN }
    else if k == 26 { YarnTokenType::BANG }
    else if k == 27 { YarnTokenType::BACKWARD_SLASH }
    else { YarnTokenType::COMMA }
}

/// `s` ends with `p`.
pub open spec fn ends_with(s: Seq<char>, p: Seq<char>) -> bool {
    p.len() <= s.len() && s.subrange(s.len() - p.len(), s.len() as int) == p
}

/// The first position at or after `k` of a table literal that `seg` ends with.
pub open spec fn first_pattern_from(seg: Seq<char>, k: int) -> Option<int>
    decreases PATTERN_COUNT - k,
{
    if k < 0 || k >= PATTERN_COUNT {
        None
    } else if ends_with(seg, pattern_text(k)) {
        Some(k)
    } else {
        first_pattern_from(seg, k + 1)
    }
}

/// The first table literal that `seg` ends with. The candidate grows one
/// character at a time and is tested at each length, so the first literal that
/// it contains is always one that it ends with.
pub open spec fn first_pattern(seg: Seq<char>) -> Option<int> {
    first_pattern_from(seg, 0)
}

/// The token of kind `t` at line `ln`, column `col`, spanning `length`
/// characters from `offset`.
pub open spec fn mk_token(t: YarnTokenType, ln: int, col: int, offset: int, length: int) -> YarnToken {
    YarnToken {
        token_type: t,
        line: ln as usize,
        col: col as usize,
        token_offset: offset as usize,
        token_length: length as usize,
    }
}

/// A word over columns `a .. b` of a line that starts at `base`, when non-empty.
pub open spec fn word_between(ln: int, base: int, a: int, b: int) -> Seq<YarnToken> {
    if a < b {
        seq![mk_token(YarnTokenType::WORD, ln, a, base + a, b - a)]
    } else {
        seq![]
    }
}

/// The tokens of `line` (line number `ln`, starting at offset `base` of the
/// source) from the candidate `anchor .. end` on: the candidate grows until it
/// ends with a table literal, which is emitted after the word before it; what
/// is left at the end of the line is a word.
pub open spec fn scan_line(line: Seq<char>, ln: int, base: int, anchor: int, end: int) -> Seq<
    YarnToken,
>
    decreases line.len() - end, end - anchor,
{
    if !(0 <= anchor <= end <= line.len()) {
        seq![]
    } else if anchor < end && first_pattern(line.subrange(anchor, end)) is Some {
        let k = first_pattern(line.subrange(anchor, end))->0;
        let start = end - pattern_text(k).len();
        word_between(ln, base, anchor, start) + seq![
            mk_token(pattern_type(k), ln, start, base + start, pattern_text(k).len() as int),
        ] + scan_line(line, ln, base, end, end)
    } else if end == line.len() {
        word_between(ln, base, anchor, end)
    } else {
        scan_line(line, ln, base, anchor, end + 1)
    }
}

/// The tokens of one line: a start marker, the scanned tokens, an end marker.
pub open spec fn line_tokens(line: Seq<char>, ln: int, base: int) -> Seq<YarnToken> {
    seq![mk_token(YarnTokenType::START_LINE, ln, 0, base, 0)] + scan_line(line, ln, base, 0, 0)
        + seq![mk_token(YarnTokenType::END_LINE, ln, line.len() as int, base + line.len(), 0)]
}

/// Where the text of a line that ends at the line feed `nl` stops: a carriage
/// return just before the line feed is not part of it.
pub open spec fn line_stop(src: Seq<char>, start: int, nl: int) -> int {
    if nl > start && src[nl - 1] == '\r' {
        nl - 1
    } else {
        nl
    }
}

/// The tokens of the lines of `src` from the line that starts at `start`
/// (numbered `ln`), having looked at the characters before `pos`. Lines end at
/// a line feed; the last one may end at the end of the text instead.
pub open spec fn raw_from(src: Seq<char>, start: int, pos: int, ln: int) -> Seq<YarnToken>
    decreases src.len() - pos,
{
    if !(0 <= start <= pos) {
        seq![]
    } else if pos >= src.len() {
        if start < src.len() {
            line_tokens(src.subrange(start, src.len() as int), ln, start)
        } else {
            seq![]
        }
    } else if src[pos] == '\n' {
        line_tokens(src.subrange(start, line_stop(src, start, pos)), ln, start) + raw_from(
            src,
            pos + 1,
            pos + 1,
            ln + 1,
        )
    } else {
        raw_from(src, start, pos + 1, ln)
    }
}

/// How many merge rules there are.
pub const RULE_COUNT: usize = 11;

/// The kinds that merge rule `r` fuses, tried in this order at each position.
pub open spec fn rule_pattern(r: int) -> Seq<YarnTokenType> {
    if r == 0 { seq![YarnTokenType::LESS_THAN, YarnTokenType::LESS_THAN] }
    else if r == 1 { seq![YarnTokenType::GREATER_THAN, YarnTokenType::GREATER_THAN] }
    else if r == 2 { seq![YarnTokenType::SUB, YarnTokenType::SUB, YarnTokenType::SUB] }
    else if r == 3 { seq![YarnTokenType::EQUAL, YarnTokenType::EQUAL, YarnTokenType::EQUAL] }
    else if r == 4 { seq![YarnTokenType::EQUAL, YarnTokenType::EQUAL] }
    else if r == 5 { seq![YarnTokenType::BANG, YarnTokenType::EQUAL] }
    else if r == 6 { seq![YarnTokenType::SUB, YarnTokenType::GREATER_THAN] }
    else if r == 7 { seq![YarnTokenType::GREATER_THAN, YarnTokenType::EQUAL] }
    else if r == 8 { seq![YarnTokenType::LESS_THAN, YarnTokenType::EQUAL] }
    else if r == 9 { seq![YarnTokenType::ELSE, YarnTokenType::IF] }
    else { seq![YarnTokenType::END, YarnTokenType::IF] }
}

/// The kind of the token that merge rule `r` produces.
pub open spec fn rule_result(r: int) -> YarnTokenType {
    if r == 0 { YarnTokenType::START_COMMAND }
    else if r == 1 { YarnTokenType::END_COMMAND }
    else if r == 2 { YarnTokenType::START_NODE }
    else if r == 3 { YarnTokenType::END_NODE }
    else if r == 4 { YarnTokenType::EQUAL_TOO }
    else if r == 5 { YarnTokenType::NOT_EQUAL_TOO }
    else if r == 6 { YarnTokenType::ARROW }
    else if r == 7 { YarnTokenType::GREATER_THAN_EQ }
    else if r == 8 { YarnTokenType::LESS_THAN_EQ }
    else if r == 9 { YarnTokenType::ELSEIF }
    else { YarnTokenType::ENDIF }
}

/// The tokens from `i` on have the kinds of `p`, in order.
pub open spec fn rule_applies(ts: Seq<YarnToken>, i: int, p: Seq<YarnTokenType>) -> bool {
    0 <= i && i + p.len() <= ts.len() && forall|j: int|
        0 <= j < p.len() ==> #[trigger] ts[i + j].token_type == p[j]
}

/// The first merge rule at or after `r` that applies at `i`.
pub open spec fn first_rule_from(ts: Seq<YarnToken>, i: int, r: int) -> Option<int>
    decreases RULE_COUNT - r,
{
    if r < 0 || r >= RULE_COUNT {
        None
    } else if rule_applies(ts, i, rule_pattern(r)) {
        Some(r)
    } else {
        first_rule_from(ts, i, r + 1)
    }
}

/// The tokens from `i` on after the merge pass: at each position the first rule
/// that applies fuses its tokens into one, and the scan goes on after them.
pub open spec fn merge_from(ts: Seq<YarnToken>, i: int) -> Seq<YarnToken>
    decreases ts.len() - i via merge_from_decreases
{
    if i < 0 || i >= ts.len() {
        seq![]
    } else if first_rule_from(ts, i, 0) is Some {
        let r = first_rule_from(ts, i, 0)->0;
        let n = rule_pattern(r).len() as int;
        seq![merged(ts[i], ts[i + n - 1], rule_result(r))] + merge_from(ts, i + n)
    } else {
        seq![ts[i]] + merge_from(ts, i + 1)
    }
}

#[via_fn]
proof fn merge_from_decreases(ts: Seq<YarnToken>, i: int) {
    lemma_first_rule(ts, i, 0);
    if first_rule_from(ts, i, 0) is Some {
        lemma_rule_len(first_rule_from(ts, i, 0)->0);
    }
}

/// Every merge rule fuses at least two tokens.
pub proof fn lemma_rule_len(r: int)
    ensures
        rule_pattern(r).len() >= 2,
{
    if r == 0 {
    } else if r == 1 {
    } else if r == 2 {
        assert(rule_pattern(r).len() == 3);
    } else if r == 3 {
        assert(rule_pattern(r).len() == 3);
    } else if r == 4 {
    } else if r == 5 {
    } else if r == 6 {
    } else if r == 7 {
    } else if r == 8 {
    } else if r == 9 {
    } else {
    }
}

/// The rule that `first_rule_from` picks applies.
pub proof fn lemma_first_rule(ts: Seq<YarnToken>, i: int, r0: int)
    ensures
        first_rule_from(ts, i, r0) matches Some(r) ==> r0 <= r < RULE_COUNT && rule_applies(
            ts,
            i,
            rule_pattern(r),
        ),
    decreases RULE_COUNT - r0,
{
    if 0 <= r0 < RULE_COUNT && !rule_applies(ts, i, rule_pattern(r0)) {
        lemma_first_rule(ts, i, r0 + 1);
    }
}

/// The literal that `first_pattern_from` picks is one that `seg` ends with.
pub proof fn lemma_first_pattern(seg: Seq<char>, k0: int)
    ensures
        first_pattern_from(seg, k0) matches Some(k) ==> k0 <= k < PATTERN_COUNT && ends_with(
            seg,
            pattern_text(k),
        ),
    decreases PATTERN_COUNT - k0,
{
    if 0 <= k0 < PATTERN_COUNT && !ends_with(seg, pattern_text(k0)) {
        lemma_first_pattern(seg, k0 + 1);
    }
}

/// The token sequence of `src`: the lines' tokens, an end-of-file marker, and
/// then the merge pass over all of them.
pub open spec fn tokenize_spec(src: Seq<char>) -> Seq<YarnToken> {
    merge_from(
        raw_from(src, 0, 0, 0).push(mk_token(YarnTokenType::EOF, 0, 0, src.len() as int, 0)),
        0,
    )
}

fn pattern_at(k: usize) -> (r: (Vec<char>, YarnTokenType))
    requires
        k < PATTERN_COUNT,
    ensures
        r.0@ == pattern_text(k as int),
        r.1 == pattern_type(k as int),
{
    let r = match k {
        0 => (vec![':'], YarnTokenType::COLON),
        1 => (vec!['-', '>'], YarnTokenType::ARROW),
        2 => (vec!['-', '-', '-'], YarnTokenType::START_NODE),
        3 => (vec!['=', '=', '='], YarnTokenType::END_NODE),
        4 => (vec![' '], YarnTokenType::SPACE),
        5 => (vec!['e', 'l', 's', 'e', 'i', 'f'], YarnTokenType::ELSEIF),
        6 => (vec!['e', 'n', 'd', 'i', 'f'], YarnTokenType::ENDIF),
        7 => (vec!['i', 'f'], YarnTokenType::IF),
        8 => (vec!['e', 'l', 's', 'e'], YarnTokenType::ELSE),
        9 => (vec!['"'], YarnTokenType::QUOTATION),
        10 => (vec!['.'], YarnTokenType::PERIOD),
        11 => (vec!['<'], YarnTokenType::LESS_THAN),
        12 => (vec!['>'], YarnTokenType::GREATER_THAN),
        13 => (vec!['<', '='], YarnTokenType::LESS_THAN_EQ),
        14 => (vec!['>', '='], YarnTokenType::GREATER_THAN_EQ),
        15 => (vec!['='], YarnTokenType::EQUAL),
        16 => (vec!['#'], YarnTokenType::HASHTAG),
        17 => (vec!['['], YarnTokenType::LEFT_SQUARE_BRACKET),
        18 => (vec![']'], YarnTokenType::RIGHT_SQUARE_BRACKET),
        19 => (vec!['('], YarnTokenType::LEFT_PAREN),
        20 => (vec![')'], YarnTokenType::RIGHT_PAREN),
        21 => (vec!['/'], YarnTokenType::FORWARD_SLASH),
        22 => (vec!['*'], YarnTokenType::MULT),
        23 => (vec!['+'], YarnTokenType::ADD),
        24 => (vec!['-'], YarnTokenType::SUB),
        25 => (vec!['$'], YarnTokenType::DOLLAR_SIGN),
        26 => (vec!['!'], YarnTokenType::BANG),
        27 => (vec!['\\'], YarnTokenType::BACKWARD_SLASH),
        _ => (vec![','], YarnTokenType::COMMA),
    };
    assert(r.0@ =~= pattern_text(k as int));
    r
}

/// Whether `chars[from .. to]` ends with `pat`.
fn ends_with_at(chars: &Vec<char>, from: usize, to: usize, pat: &Vec<char>) -> (r: bool)
    requires
        from <= to <= chars@.len(),
    ensures
        r == ends_with(chars@.subrange(from as int, to as int), pat@),
{
    let ghost seg = chars@.subrange(from as int, to as int);
    let plen = pat.len();
    if plen > to - from {
        return false;
    }
    let start = to - plen;
    let mut j: usize = 0;
    while j < plen
        invariant
            from <= start <= to <= chars@.len(),
            plen == pat@.len(),
            start + plen == to,
            seg == chars@.subrange(from as int, to as int),
            j <= plen,
            forall|i: int| 0 <= i < j ==> chars@[start + i] == pat@[i],
        decreases plen - j,
    {
        if chars[start + j] != pat[j] {
            assert(seg.subrange(seg.len() - plen, seg.len() as int)[j as int] == chars@[start + j]);
            return false;
        }
        j = j + 1;
    }
    assert(seg.subrange(seg.len() - plen, seg.len() as int) =~= pat@);
    true
}

/// The first table literal that `chars[from .. to]` ends with.
fn find_pattern(chars: &Vec<char>, from: usize, to: usize) -> (r: Option<usize>)
    requires
        from <= to <= chars@.len(),
    ensures
        r is None <==> first_pattern(chars@.subrange(from as int, to as int)) is None,
        r matches Some(k) ==> k < PATTERN_COUNT && first_pattern(
            chars@.subrange(from as int, to as int),
        ) == Some(k as int),
{
    let ghost seg = chars@.subrange(from as int, to as int);
    proof {
        lemma_first_pattern(seg, 0);
    }
    let mut k: usize = 0;
    while k < PATTERN_COUNT
        invariant
            k <= PATTERN_COUNT,
            seg == chars@.subrange(from as int, to as int),
            from <= to <= chars@.len(),
            first_pattern(seg) == first_pattern_from(seg, k as int),
        decreases PATTERN_COUNT - k,
    {
        let (pat, _) = pattern_at(k);
        if ends_with_at(chars, from, to, &pat) {
            return Some(k);
        }
        k = k + 1;
    }
    None
}

/// All tokens of `v` lie inside a source of `n` characters.
pub open spec fn all_in_bounds(v: Seq<YarnToken>, n: int) -> bool {
    forall|i: int| 0 <= i < v.len() ==> in_bounds(#[trigger] v[i], n as nat)
}

/// Appends the tokens of the line `chars[base .. stop]`, numbered `ln`.
fn lex_line(chars: &Vec<char>, base: usize, stop: usize, ln: usize, out: &mut Vec<YarnToken>)
    requires
        base <= stop <= chars@.len(),
        all_in_bounds(old(out)@, chars@.len() as int),
    ensures
        final(out)@ == old(out)@ + line_tokens(chars@.subrange(base as int, stop as int), ln as int, base as int),
        all_in_bounds(final(out)@, chars@.len() as int),
{
    let ghost line = chars@.subrange(base as int, stop as int);
    let ghost n = chars@.len() as int;
    let llen = stop - base;
    out.push(YarnToken::new(YarnTokenType::START_LINE, ln, 0, base, 0));
    let ghost out0 = out@;
    let mut anchor: usize = 0;
    let mut end: usize = 0;
    loop
        invariant_except_break
            out@ + scan_line(line, ln as int, base as int, anchor as int, end as int) == out0
                + scan_line(line, ln as int, base as int, 0, 0),
        invariant
            base <= stop <= chars@.len(),
            llen == stop - base,
            line == chars@.subrange(base as int, stop as int),
            n == chars@.len(),
            anchor <= end <= llen,
            all_in_bounds(out@, n),
        ensures
            out@ == out0 + scan_line(line, ln as int, base as int, 0, 0),
        decreases llen - end, end - anchor,
    {
        let ghost before = out@;
        assert(line.subrange(anchor as int, end as int) =~= chars@.subrange(
            base + anchor,
            base + end,
        ));
        let m = if anchor < end {
            find_pattern(chars, base + anchor, base + end)
        } else {
            None
        };
        match m {
            Some(k) => {
                proof {
                    lemma_first_pattern(line.subrange(anchor as int, end as int), 0);
                }
                let (pat, ty) = pattern_at(k);
                let plen = pat.len();
                let start = end - plen;
                if anchor < start {
                    out.push(YarnToken::new(YarnTokenType::WORD, ln, anchor, base + anchor, start - anchor));
                }
                out.push(YarnToken::new(ty, ln, start, base + start, plen));
                assert(out@ =~= before + word_between(ln as int, base as int, anchor as int, start as int) + seq![
                    mk_token(pattern_type(k as int), ln as int, start as int, base + start, plen as int),
                ]);
                anchor = end;
            },
            None => {
                if end == llen {
                    if anchor < end {
                        out.push(YarnToken::new(YarnTokenType::WORD, ln, anchor, base + anchor, end - anchor));
                    }
                    assert(out@ =~= before + word_between(ln as int, base as int, anchor as int, end as int));
                    assert(out@ =~= out0 + scan_line(line, ln as int, base as int, 0, 0));
                    break;
                }
                end = end + 1;
            },
        }
    }
    let ghost scanned = out@;
    out.push(YarnToken::new(YarnTokenType::END_LINE, ln, llen, base + llen, 0));
    assert(out@ =~= scanned + seq![
        mk_token(YarnTokenType::END_LINE, ln as int, line.len() as int, base + line.len(), 0),
    ]);
}

/// Where the line that starts at `start` and whose line feed is at `nl` stops.
fn stop_of(chars: &Vec<char>, start: usize, nl: usize) -> (r: usize)
    requires
        start <= nl < chars@.len(),
    ensures
        r == line_stop(chars@, start as int, nl as int),
{
    if nl > start && chars[nl - 1] == '\r' {
        nl - 1
    } else {
        nl
    }
}

/// The characters of `s`.
fn chars_of(s: &str) -> (r: Vec<char>)
    ensures
        r@ == s@,
{
    let n = s.unicode_len();
    let mut v: Vec<char> = Vec::new();
    let mut i: usize = 0;
    while i < n
        invariant
            n == s@.len(),
            i <= n,
            v@ == s@.subrange(0, i as int),
        decreases n - i,
    {
        v.push(s.get_char(i));
        i = i + 1;
        assert(v@ =~= s@.subrange(0, i as int));
    }
    assert(v@ =~= s@);
    v
}

fn rule_at(r: usize) -> (p: (Vec<YarnTokenType>, YarnTokenType))
    requires
        r < RULE_COUNT,
    ensures
        p.0@ == rule_pattern(r as int),
        p.1 == rule_result(r as int),
{
    let p = match r {
        0 => (vec![YarnTokenType::LESS_THAN, YarnTokenType::LESS_THAN], YarnTokenType::START_COMMAND),
        1 => (vec![YarnTokenType::GREATER_THAN, YarnTokenType::GREATER_THAN], YarnTokenType::END_COMMAND),
        2 => (vec![YarnTokenType::SUB, YarnTokenType::SUB, YarnTokenType::SUB], YarnTokenType::START_NODE),
        3 => (vec![YarnTokenType::EQUAL, YarnTokenType::EQUAL, YarnTokenType::EQUAL], YarnTokenType::END_NODE),
        4 => (vec![YarnTokenType::EQUAL, YarnTokenType::EQUAL], YarnTokenType::EQUAL_TOO),
        5 => (vec![YarnTokenType::BANG, YarnTokenType::EQUAL], YarnTokenType::NOT_EQUAL_TOO),
        6 => (vec![YarnTokenType::SUB, YarnTokenType::GREATER_THAN], YarnTokenType::ARROW),
        7 => (vec![YarnTokenType::GREATER_THAN, YarnTokenType::EQUAL], YarnTokenType::GREATER_THAN_EQ),
        8 => (vec![YarnTokenType::LESS_THAN, YarnTokenType::EQUAL], YarnTokenType::LESS_THAN_EQ),
        9 => (vec![YarnTokenType::ELSE, YarnTokenType::IF], YarnTokenType::ELSEIF),
        _ => (vec![YarnTokenType::END, YarnTokenType::IF], YarnTokenType::ENDIF),
    };
    assert(p.0@ =~= rule_pattern(r as int));
    p
}

/// Whether the tokens from `i` on have the kinds of `p`.
fn applies_at(ts: &Vec<YarnToken>, i: usize, p: &Vec<YarnTokenType>) -> (r: bool)
    ensures
        r == rule_applies(ts@, i as int, p@),
{
    let n = ts.len();
    let plen = p.len();
    if plen > n || i > n - plen {
        return false;
    }
    let mut j: usize = 0;
    while j < plen
        invariant
            plen == p@.len(),
            n == ts@.len(),
            i + plen <= n,
            j <= plen,
            forall|k: int| 0 <= k < j ==> #[trigger] ts@[i + k].token_type == p@[k],
        decreases plen - j,
    {
        if ts[i + j].token_type != p[j] {
            return false;
        }
        j = j + 1;
    }
    true
}

/// The first merge rule that applies at `i`.
fn find_rule(ts: &Vec<YarnToken>, i: usize) -> (r: Option<usize>)
    ensures
        r is None <==> first_rule_from(ts@, i as int, 0) is None,
        r matches Some(k) ==> k < RULE_COUNT && first_rule_from(ts@, i as int, 0) == Some(k as int),
{
    let mut r: usize = 0;
    while r < RULE_COUNT
        invariant
            r <= RULE_COUNT,
            first_rule_from(ts@, i as int, 0) == first_rule_from(ts@, i as int, r as int),
        decreases RULE_COUNT - r,
    {
        let (p, _) = rule_at(r);
        if applies_at(ts, i, &p) {
            return Some(r);
        }
        r = r + 1;
    }
    None
}

/// The merge pass: fuses each run of tokens that a merge rule names into one
/// token that spans them.
fn match_tokens(ts: &Vec<YarnToken>, n: usize) -> (r: Vec<YarnToken>)
    requires
        all_in_bounds(ts@, n as int),
    ensures
        r@ == merge_from(ts@, 0),
        all_in_bounds(r@, n as int),
{
    let len = ts.len();
    let mut out: Vec<YarnToken> = Vec::new();
    let mut i: usize = 0;
    while i < len
        invariant
            len == ts@.len(),
            i <= len,
            all_in_bounds(ts@, n as int),
            all_in_bounds(out@, n as int),
            out@ + merge_from(ts@, i as int) == merge_from(ts@, 0),
        decreases len - i,
    {
        let ghost before = out@;
        proof {
            lemma_first_rule(ts@, i as int, 0);
        }
        match find_rule(ts, i) {
            Some(r) => {
                let (p, t) = rule_at(r);
                let plen = p.len();
                proof {
                    lemma_rule_len(r as int);
                }
                assert(in_bounds(ts@[i as int], n as nat));
                assert(in_bounds(ts@[i + plen - 1], n as nat));
                let mut first = ts[i];
                first.merge(&ts[i + plen - 1], t);
                out.push(first);
                assert(out@ =~= before + seq![first]);
                i = i + plen;
            },
            None => {
                assert(in_bounds(ts@[i as int], n as nat));
                out.push(ts[i]);
                assert(out@ =~= before + seq![ts@[i as int]]);
                i = i + 1;
            },
        }
    }
    assert(merge_from(ts@, i as int) =~= seq![]);
    assert(out@ =~= merge_from(ts@, 0));
    out
}

/// Lexes `source`. Lexing never fails: text that matches no literal becomes
/// words. Lines are split at line feeds (a carriage return before a line feed
/// is dropped); each line gives a start marker, its tokens and an end marker,
/// and an end-of-file marker closes the sequence before the merge pass.
pub fn tokenize(source: &str) -> (r: YarnTokenQueue)
    ensures
        r.wf(),
        r.spec_source() == source@,
        r.spec_tokens() == tokenize_spec(source@),
{
    let chars = chars_of(source);
    let n = chars.len();
    let mut raw: Vec<YarnToken> = Vec::new();
    let mut start: usize = 0;
    let mut pos: usize = 0;
    let mut ln: usize = 0;
    while pos < n
        invariant
            n == chars@.len(),
            chars@ == source@,
            ln <= start <= pos <= n,
            all_in_bounds(raw@, n as int),
            raw@ + raw_from(chars@, start as int, pos as int, ln as int) == raw_from(chars@, 0, 0, 0),
        decreases n - pos,
    {
        if chars[pos] == '\n' {
            let stop = stop_of(&chars, start, pos);
            let ghost before = raw@;
            lex_line(&chars, start, stop, ln, &mut raw);
            assert(raw@ + raw_from(chars@, (pos + 1) as int, (pos + 1) as int, (ln + 1) as int)
                =~= before + raw_from(chars@, start as int, pos as int, ln as int));
            start = pos + 1;
            ln = ln + 1;
        }
        pos = pos + 1;
    }
    if start < n {
        lex_line(&chars, start, n, ln, &mut raw);
    } else {
        assert(raw@ =~= raw@ + raw_from(chars@, start as int, pos as int, ln as int));
    }
    let ghost unmerged = raw@;
    raw.push(YarnToken::new(YarnTokenType::EOF, 0, 0, n, 0));
    assert(raw@ == unmerged.push(mk_token(YarnTokenType::EOF, 0, 0, n as int, 0)));
    assert(all_in_bounds(raw@, n as int)) by {
        assert forall|i: int| 0 <= i < raw@.len() implies in_bounds(#[trigger] raw@[i], n as nat) by {
            if i < unmerged.len() {
                assert(raw@[i] == unmerged[i]);
            }
        }
    }
    let merged_tokens = match_tokens(&raw, n);
    let owned = source.to_owned();
    YarnTokenQueue::from_parts(owned, merged_tokens)
}

} // verus!
