//! Tokens and the read-only token cursor that the parser walks.
use vstd::prelude::*;
use vstd::string::StrSliceExecFns;

verus! {

/// The kind of a token.
#[allow(non_camel_case_types)]
#[derive(Clone, Copy, Debug, PartialEq, Eq, Structural)]
pub enum YarnTokenType {
    COLON,
    ARROW,
    WORD,
    TAB,
    MULT,
    ADD,
    SUB,
    EQUAL,
    START_LINE,
    END_LINE,
    START_NODE,
    END_NODE,
    START_COMMAND,
    END_COMMAND,
    SPACE,
    IF,
    ELSE,
    ELSEIF,
    END,
    ENDIF,
    QUOTATION,
    PERIOD,
    COMMA,
    BANG,
    HASHTAG,
    LEFT_PAREN,
    RIGHT_PAREN,
    LEFT_SQUARE_BRACKET,
    RIGHT_SQUARE_BRACKET,
    EQUAL_TOO,
    NOT_EQUAL_TOO,
    LESS_THAN,
    LESS_THAN_EQ,
    GREATER_THAN,
    GREATER_THAN_EQ,
    FORWARD_SLASH,
    BACKWARD_SLASH,
    EOF,
    DOLLAR_SIGN,
}

/// A positioned span of the source with a kind. The characters themselves stay
/// in the source; the span is `token_offset .. token_offset + token_length`,
/// counted in characters.
#[derive(Clone, Copy, Debug, PartialEq, Eq, Structural)]
pub struct YarnToken {
    pub token_type: YarnTokenType,
    pub line: usize,
    pub col: usize,
    pub token_offset: usize,
    pub token_length: usize,
}

/// The span of a token lies inside a source of `n` characters.
pub open spec fn in_bounds(t: YarnToken, n: nat) -> bool {
    t.token_offset + t.token_length <= n
}

/// The characters that a token covers.
pub open spec fn content_of(src: Seq<char>, t: YarnToken) -> Seq<char> {
    src.subrange(t.token_offset as int, t.token_offset + t.token_length)
}

/// Every character is an ASCII digit.
pub open spec fn all_digits(s: Seq<char>) -> bool {
    forall|i: int| 0 <= i < s.len() ==> '0' <= #[trigger] s[i] && s[i] <= '9'
}

/// Whether every character of `s` is an ASCII digit.
pub fn is_str_numeric(s: &str) -> (r: bool)
    ensures
        r == all_digits(s@),
{
    let n = s.unicode_len();
    let mut i: usize = 0;
    while i < n
        invariant
            n == s@.len(),
            i <= n,
            all_digits(s@.subrange(0, i as int)),
        decreases n - i,
    {
        let ch = s.get_char(i);
        if !('0' <= ch && ch <= '9') {
            return false;
        }
        assert(s@.subrange(0, i + 1) =~= s@.subrange(0, i as int).push(ch));
        i = i + 1;
    }
    assert(s@.subrange(0, i as int) =~= s@);
    true
}

/// The token that covers the union of the spans of `a` and `b`, with kind `t`;
/// its position is that of whichever of the two starts first.
pub open spec fn merged(a: YarnToken, b: YarnToken, t: YarnTokenType) -> YarnToken {
    let a_end = a.token_offset + a.token_length;
    let b_end = b.token_offset + b.token_length;
    let start = if a.token_offset <= b.token_offset { a.token_offset } else { b.token_offset };
    let end = if a_end >= b_end { a_end } else { b_end };
    YarnToken {
        token_type: t,
        line: if a.token_offset <= b.token_offset { a.line } else { b.line },
        col: if a.token_offset <= b.token_offset { a.col } else { b.col },
        token_offset: start,
        token_length: (end - start) as usize,
    }
}

impl YarnToken {
    pub fn new(
        token_type: YarnTokenType,
        line: usize,
        col: usize,
        token_offset: usize,
        token_length: usize,
    ) -> (r: YarnToken)
        ensures
            r == (YarnToken { token_type, line, col, token_offset, token_length }),
    {
        YarnToken { token_type, line, col, token_offset, token_length }
    }

    pub fn token_type(&self) -> (r: YarnTokenType)
        ensures
            r == self.token_type,
    {
        self.token_type
    }

    pub fn line(&self) -> (r: usize)
        ensures
            r == self.line,
    {
        self.line
    }

    pub fn col(&self) -> (r: usize)
        ensures
            r == self.col,
    {
        self.col
    }

    /// The characters of `source` that this token covers.
    pub fn content<'a>(&self, source: &'a str) -> (r: &'a str)
        requires
            in_bounds(*self, source@.len()),
            source@.len() <= usize::MAX,
        ensures
            r@ == content_of(source@, *self),
    {
        source.substring_char(self.token_offset, self.token_offset + self.token_length)
    }

    /// Whether every character that this token covers is an ASCII digit.
    pub fn is_numeric(&self, source: &str) -> (r: bool)
        requires
            in_bounds(*self, source@.len()),
            source@.len() <= usize::MAX,
        ensures
            r == all_digits(content_of(source@, *self)),
    {
        is_str_numeric(self.content(source))
    }

    /// Widens this token to the union of both spans and gives it kind `new_type`.
    pub fn merge(&mut self, rhs: &YarnToken, new_type: YarnTokenType)
        requires
            old(self).token_offset + old(self).token_length <= usize::MAX,
            rhs.token_offset + rhs.token_length <= usize::MAX,
        ensures
            *final(self) == merged(*old(self), *rhs, new_type),
    {
        let lhs_start = self.token_offset;
        let rhs_start = rhs.token_offset;
        let lhs_end = self.token_offset + self.token_length;
        let rhs_end = rhs.token_offset + rhs.token_length;
        let token_offset = if lhs_start <= rhs_start {
            lhs_start
        } else {
            self.line = rhs.line;
            self.col = rhs.col;
            rhs_start
        };
        let token_length = if lhs_end >= rhs_end {
            lhs_end - token_offset
        } else {
            rhs_end - token_offset
        };
        self.token_type = new_type;
        self.token_offset = token_offset;
        self.token_length = token_length;
    }
}

/// The index of the first token at or after `i` that is not a space.
pub open spec fn skip_spaces(ts: Seq<YarnToken>, i: int) -> int
    decreases ts.len() - i,
{
    if 0 <= i < ts.len() && ts[i].token_type == YarnTokenType::SPACE {
        skip_spaces(ts, i + 1)
    } else {
        i
    }
}

/// The token at `i` exists and has kind `t`.
pub open spec fn has_type(ts: Seq<YarnToken>, i: int, t: YarnTokenType) -> bool {
    0 <= i < ts.len() && ts[i].token_type == t
}

/// The line of the token at `i`, or 0 past the end.
pub open spec fn line_at(ts: Seq<YarnToken>, i: int) -> usize {
    if 0 <= i < ts.len() { ts[i].line } else { 0 }
}

/// The column of the token at `i`, or 0 past the end.
pub open spec fn col_at(ts: Seq<YarnToken>, i: int) -> usize {
    if 0 <= i < ts.len() { ts[i].col } else { 0 }
}

/// A token sequence over a source text it never mutates. Every span lies inside
/// the source.
#[derive(Debug)]
pub struct YarnTokenQueue {
    source: String,
    tokens: Vec<YarnToken>,
}

impl YarnTokenQueue {
    /// The tokens, in order.
    pub closed spec fn spec_tokens(&self) -> Seq<YarnToken> {
        self.tokens@
    }

    /// The source text.
    pub closed spec fn spec_source(&self) -> Seq<char> {
        self.source@
    }

    /// Every span lies inside the source.
    pub open spec fn wf(&self) -> bool {
        &&& self.spec_source().len() <= usize::MAX
        &&& self.spec_tokens().len() <= usize::MAX
        &&& forall|i: int|
            0 <= i < self.spec_tokens().len() ==> in_bounds(
                #[trigger] self.spec_tokens()[i],
                self.spec_source().len(),
            )
    }

    /// A queue over `source` holding `tokens`.
    pub fn from_parts(source: String, tokens: Vec<YarnToken>) -> (r: Self)
        requires
            source@.len() <= usize::MAX,
            forall|i: int| 0 <= i < tokens@.len() ==> in_bounds(#[trigger] tokens@[i], source@.len()),
        ensures
            r.wf(),
            r.spec_source() == source@,
            r.spec_tokens() == tokens@,
    {
        let _ = tokens.len();
        YarnTokenQueue { source, tokens }
    }

    /// An empty queue over `source`.
    pub fn new(source: &str) -> (r: Self)
        ensures
            r.wf(),
            r.spec_source() == source@,
            r.spec_tokens() == Seq::<YarnToken>::empty(),
    {
        let _ = source.unicode_len();
        YarnTokenQueue { source: source.to_owned(), tokens: Vec::new() }
    }

    pub fn source(&self) -> (r: &str)
        ensures
            r@ == self.spec_source(),
    {
        self.source.as_str()
    }

    pub fn len(&self) -> (r: usize)
        ensures
            r == self.spec_tokens().len(),
    {
        self.tokens.len()
    }

    /// Appends a token; its span must lie inside the source.
    pub fn add(
        &mut self,
        line: usize,
        col: usize,
        offset: usize,
        size: usize,
        token_type: YarnTokenType,
    )
        requires
            old(self).wf(),
            offset + size <= old(self).spec_source().len(),
        ensures
            final(self).wf(),
            final(self).spec_source() == old(self).spec_source(),
            final(self).spec_tokens() == old(self).spec_tokens().push(
                YarnToken { token_type, line, col, token_offset: offset, token_length: size },
            ),
    {
        self.push(YarnToken { token_type, line, col, token_offset: offset, token_length: size });
    }

    /// Appends a token; its span must lie inside the source.
    pub fn push(&mut self, token: YarnToken)
        requires
            old(self).wf(),
            in_bounds(token, old(self).spec_source().len()),
        ensures
            final(self).wf(),
            final(self).spec_source() == old(self).spec_source(),
            final(self).spec_tokens() == old(self).spec_tokens().push(token),
    {
        self.tokens.push(token);
        let _ = self.tokens.len();
        assert(forall|i: int|
            0 <= i < self.spec_tokens().len() ==> #[trigger] self.spec_tokens()[i] == (
            if i < old(self).spec_tokens().len() { old(self).spec_tokens()[i] } else { token }));
    }

    /// Puts a token back at the front.
    pub fn re_add(&mut self, token: YarnToken)
        requires
            old(self).wf(),
            in_bounds(token, old(self).spec_source().len()),
        ensures
            final(self).wf(),
            final(self).spec_source() == old(self).spec_source(),
            final(self).spec_tokens() == seq![token] + old(self).spec_tokens(),
    {
        self.tokens.insert(0, token);
        let _ = self.tokens.len();
        assert(self.spec_tokens() =~= seq![token] + old(self).spec_tokens());
        assert(forall|i: int|
            0 < i < self.spec_tokens().len() ==> #[trigger] self.spec_tokens()[i] == old(self).spec_tokens()[i - 1]);
    }

    /// Replaces the tokens `start ..= start + length` by one token that covers
    /// their first and last spans, of kind `new_type`.
    pub fn merge_tokens(&mut self, start: usize, length: usize, new_type: YarnTokenType)
        requires
            old(self).wf(),
            start + length < old(self).spec_tokens().len(),
        ensures
            final(self).wf(),
            final(self).spec_source() == old(self).spec_source(),
            final(self).spec_tokens() == old(self).spec_tokens().subrange(0, start as int).push(
                merged(
                    old(self).spec_tokens()[start as int],
                    old(self).spec_tokens()[start + length],
                    new_type,
                ),
            ) + old(self).spec_tokens().subrange(start + length + 1, old(self).spec_tokens().len() as int),
    {
        let ghost old_ts = self.tokens@;
        let ghost n = self.source@.len();
        assert(in_bounds(old_ts[start as int], n));
        assert(in_bounds(old_ts[start + length], n));
        let count = self.tokens.len();
        let mut first = self.tokens[start];
        let last = self.tokens[start + length];
        first.merge(&last, new_type);
        let mut rest = self.tokens.split_off(start);
        let tail = rest.split_off(length + 1);
        self.tokens.push(first);
        let mut tail = tail;
        self.tokens.append(&mut tail);
        let _ = self.tokens.len();
        let ghost new_ts = old_ts.subrange(0, start as int).push(first) + old_ts.subrange(
            start + length + 1,
            old_ts.len() as int,
        );
        assert(self.tokens@ =~= new_ts);
        assert forall|i: int| 0 <= i < self.spec_tokens().len() implies in_bounds(
            #[trigger] self.spec_tokens()[i],
            n,
        ) by {
            if i < start {
                assert(self.spec_tokens()[i] == old_ts[i]);
            } else if i > start {
                assert(self.spec_tokens()[i] == old_ts[i + length]);
            }
        }
    }

    /// Whether the front token has kind `token_type`.
    pub fn check(&self, token_type: YarnTokenType) -> (r: bool)
        ensures
            r == has_type(self.spec_tokens(), 0, token_type),
    {
        self.check_index(0, token_type)
    }

    /// Whether the token at `index` exists and has kind `token_type`.
    pub fn check_index(&self, index: usize, token_type: YarnTokenType) -> (r: bool)
        ensures
            r == has_type(self.spec_tokens(), index as int, token_type),
    {
        if index < self.tokens.len() {
            self.tokens[index].token_type == token_type
        } else {
            false
        }
    }

    /// Removes the front token when it has kind `token_type`.
    pub fn check_and_pop(&mut self, token_type: YarnTokenType) -> (r: bool)
        requires
            old(self).wf(),
        ensures
            final(self).wf(),
            final(self).spec_source() == old(self).spec_source(),
            r == has_type(old(self).spec_tokens(), 0, token_type),
            final(self).spec_tokens() == (if r {
                old(self).spec_tokens().drop_first()
            } else {
                old(self).spec_tokens()
            }),
    {
        if self.check(token_type) {
            self.pop();
            true
        } else {
            false
        }
    }

    /// Removes and returns the front token.
    pub fn pop(&mut self) -> (r: Option<YarnToken>)
        requires
            old(self).wf(),
        ensures
            final(self).wf(),
            final(self).spec_source() == old(self).spec_source(),
            old(self).spec_tokens().len() == 0 ==> r is None && final(self).spec_tokens()
                == old(self).spec_tokens(),
            old(self).spec_tokens().len() > 0 ==> r == Some(old(self).spec_tokens()[0])
                && final(self).spec_tokens() == old(self).spec_tokens().drop_first(),
    {
        if self.tokens.len() == 0 {
            None
        } else {
            let t = self.tokens.remove(0);
            assert(self.spec_tokens() =~= old(self).spec_tokens().drop_first());
            assert(forall|i: int|
                0 <= i < self.spec_tokens().len() ==> #[trigger] self.spec_tokens()[i] == old(self).spec_tokens()[i + 1]);
            Some(t)
        }
    }

    /// Removes and returns the front token when it has kind `token_type`.
    pub fn pop_if_type(&mut self, token_type: YarnTokenType) -> (r: Option<YarnToken>)
        requires
            old(self).wf(),
        ensures
            final(self).wf(),
            final(self).spec_source() == old(self).spec_source(),
            has_type(old(self).spec_tokens(), 0, token_type) ==> r == Some(
                old(self).spec_tokens()[0],
            ) && final(self).spec_tokens() == old(self).spec_tokens().drop_first(),
            !has_type(old(self).spec_tokens(), 0, token_type) ==> r is None && final(self).spec_tokens() == old(self).spec_tokens(),
    {
        if self.check(token_type) {
            self.pop()
        } else {
            None
        }
    }

    /// The token at `index`, if there is one.
    pub fn peek(&self, index: usize) -> (r: Option<YarnToken>)
        ensures
            index < self.spec_tokens().len() ==> r == Some(self.spec_tokens()[index as int]),
            index >= self.spec_tokens().len() ==> r is None,
    {
        if index < self.tokens.len() {
            Some(self.tokens[index])
        } else {
            None
        }
    }

    /// The token at `index`, if there is one of kind `t`.
    pub fn peek_only_if_type(&self, index: usize, t: YarnTokenType) -> (r: Option<YarnToken>)
        ensures
            has_type(self.spec_tokens(), index as int, t) ==> r == Some(
                self.spec_tokens()[index as int],
            ),
            !has_type(self.spec_tokens(), index as int, t) ==> r is None,
    {
        if self.check_index(index, t) {
            Some(self.tokens[index])
        } else {
            None
        }
    }

    /// The line of the token at `offset`, or 0 when there is none.
    pub fn peek_line(&self, offset: usize) -> (r: usize)
        ensures
            r == line_at(self.spec_tokens(), offset as int),
    {
        if offset < self.tokens.len() {
            self.tokens[offset].line
        } else {
            0
        }
    }

    /// The column of the token at `offset`, or 0 when there is none.
    pub fn peek_col(&self, offset: usize) -> (r: usize)
        ensures
            r == col_at(self.spec_tokens(), offset as int),
    {
        if offset < self.tokens.len() {
            self.tokens[offset].col
        } else {
            0
        }
    }

    /// Drops the run of space tokens at the front.
    pub fn remove_leading_spaces(&mut self)
        requires
            old(self).wf(),
        ensures
            final(self).wf(),
            final(self).spec_source() == old(self).spec_source(),
            final(self).spec_tokens() == old(self).spec_tokens().subrange(
                skip_spaces(old(self).spec_tokens(), 0),
                old(self).spec_tokens().len() as int,
            ),
    {
        let ghost ts = old(self).spec_tokens();
        let ghost mut k: int = 0;
        while self.check(YarnTokenType::SPACE)
            invariant
                self.wf(),
                self.spec_source() == old(self).spec_source(),
                0 <= k <= ts.len(),
                skip_spaces(ts, k) == skip_spaces(ts, 0),
                self.spec_tokens() == ts.subrange(k, ts.len() as int),
            decreases self.spec_tokens().len(),
        {
            assert(self.spec_tokens()[0] == ts[k]);
            self.pop();
            proof {
                k = k + 1;
            }
            assert(self.spec_tokens() =~= ts.subrange(k, ts.len() as int));
        }
        assert(ts.subrange(k, ts.len() as int).len() > 0 ==> ts.subrange(k, ts.len() as int)[0] == ts[k]);
    }

    /// The front token, if there is one.
    pub fn front(&self) -> (r: Option<YarnToken>)
        ensures
            self.spec_tokens().len() > 0 ==> r == Some(self.spec_tokens()[0]),
            self.spec_tokens().len() == 0 ==> r is None,
    {
        self.peek(0)
    }

    /// The index of the first token after `offset` that is not a space.
    pub fn next_non_space_after(&self, offset: usize) -> (r: usize)
        requires
            offset < usize::MAX,
        ensures
            r == skip_spaces(self.spec_tokens(), offset + 1),
    {
        let count = self.len();
        let mut next_index: usize = offset + 1;
        while self.check_index(next_index, YarnTokenType::SPACE)
            invariant
                offset < next_index,
                count == self.spec_tokens().len(),
                skip_spaces(self.spec_tokens(), next_index as int) == skip_spaces(
                    self.spec_tokens(),
                    offset + 1,
                ),
            decreases self.spec_tokens().len() - next_index,
        {
            next_index = next_index + 1;
        }
        next_index
    }

    /// The characters of the token at `index`.
    pub fn content(&self, index: usize) -> (r: &str)
        requires
            self.wf(),
            index < self.spec_tokens().len(),
        ensures
            r@ == content_of(self.spec_source(), self.spec_tokens()[index as int]),
    {
        let t = self.tokens[index];
        assert(in_bounds(self.spec_tokens()[index as int], self.spec_source().len()));
        let s = self.source.as_str();
        t.content(s)
    }

    /// Whether the token at `index` is made of ASCII digits only.
    pub fn is_numeric(&self, index: usize) -> (r: bool)
        requires
            self.wf(),
            index < self.spec_tokens().len(),
        ensures
            r == all_digits(content_of(self.spec_source(), self.spec_tokens()[index as int])),
    {
        let t = self.tokens[index];
        assert(in_bounds(self.spec_tokens()[index as int], self.spec_source().len()));
        let s = self.source.as_str();
        t.is_numeric(s)
    }
}

} // verus!
