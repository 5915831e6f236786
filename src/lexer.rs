//! The scanner: turns text into positioned tokens, one call at a time.
use vstd::prelude::*;
use vstd::string::*;

verus! {

#[derive(Debug, Clone, Copy, PartialEq, Eq, Structural)]
pub enum TokenKind {
    Number(i64),
    Plus,
    Minus,
    Asterisk,
    Slash,
    LeftParen,
    RightParen,
    Bad,
    Eof,
    Whitespace,
}

/// A half-open interval of character offsets, with the text it covers.
#[derive(Debug, Clone)]
pub struct TextSpan {
    pub start: usize,
    pub end: usize,
    pub literal: String,
}

impl TextSpan {
    pub fn new(start: usize, end: usize, literal: String) -> (r: Self)
        ensures
            r.start == start,
            r.end == end,
            r.literal@ == literal@,
    {
        Self { start, end, literal }
    }

    pub fn length(&self) -> (r: usize)
        requires
            self.start <= self.end,
        ensures
            r == self.end - self.start,
    {
        self.end - self.start
    }

    /// A copy of this span that the verifier knows to be equal to it.
    pub fn duplicate(&self) -> (r: Self)
        ensures
            r == *self,
    {
        TextSpan { start: self.start, end: self.end, literal: self.literal.clone() }
    }
}

#[derive(Debug, Clone)]
pub struct Token {
    pub kind: TokenKind,
    pub span: TextSpan,
}

impl Token {
    pub fn new(kind: TokenKind, span: TextSpan) -> (r: Self)
        ensures
            r.kind == kind,
            r.span == span,
    {
        Self { kind, span }
    }

    /// A copy of this token that the verifier knows to be equal to it.
    pub fn duplicate(&self) -> (r: Self)
        ensures
            r == *self,
    {
        Token { kind: self.kind, span: self.span.duplicate() }
    }
}

pub open spec fn is_decimal_digit(c: char) -> bool {
    '0' <= c && c <= '9'
}

pub open spec fn digit_value(c: char) -> int {
    c as int - '0' as int
}

/// The number that a run of decimal digits denotes.
pub open spec fn decimal_value(s: Seq<char>) -> int
    decreases s.len(),
{
    if s.len() == 0 {
        0
    } else {
        decimal_value(s.drop_last()) * 10 + digit_value(s.last())
    }
}

pub open spec fn digit_char(d: nat) -> char {
    if d == 0 {
        '0'
    } else if d == 1 {
        '1'
    } else if d == 2 {
        '2'
    } else if d == 3 {
        '3'
    } else if d == 4 {
        '4'
    } else if d == 5 {
        '5'
    } else if d == 6 {
        '6'
    } else if d == 7 {
        '7'
    } else if d == 8 {
        '8'
    } else {
        '9'
    }
}

/// The decimal numeral of a natural number, without leading zeros.
pub open spec fn decimal(n: nat) -> Seq<char>
    decreases n,
{
    if n < 10 {
        seq![digit_char(n)]
    } else {
        decimal(n / 10).push(digit_char(n % 10))
    }
}

/// Numbers too large for an `i64` are held at `i64::MAX`.
pub open spec fn saturate(v: int) -> i64 {
    if v > i64::MAX {
        i64::MAX
    } else {
        v as i64
    }
}

/// The end of the run of decimal digits that starts at offset `i`.
pub open spec fn digit_run_end(s: Seq<char>, i: int) -> int
    decreases s.len() - i,
{
    if 0 <= i < s.len() && is_decimal_digit(s[i]) {
        digit_run_end(s, i + 1)
    } else {
        i
    }
}

pub open spec fn punctuation_kind(c: char) -> TokenKind {
    if c == '+' {
        TokenKind::Plus
    } else if c == '-' {
        TokenKind::Minus
    } else if c == '*' {
        TokenKind::Asterisk
    } else if c == '/' {
        TokenKind::Slash
    } else if c == '(' {
        TokenKind::LeftParen
    } else if c == ')' {
        TokenKind::RightParen
    } else {
        TokenKind::Bad
    }
}

/// Whether a character has Unicode's White_Space property.
pub uninterp spec fn unicode_white_space(c: char) -> bool;

/// Where the token that starts at offset `i` ends: after a maximal run of
/// digits, else after one character.
pub open spec fn token_end(s: Seq<char>, i: int) -> int {
    if is_decimal_digit(s[i]) {
        digit_run_end(s, i)
    } else {
        i + 1
    }
}

/// The kind of the token that starts at offset `i`.
pub open spec fn token_kind(s: Seq<char>, i: int) -> TokenKind {
    if is_decimal_digit(s[i]) {
        TokenKind::Number(saturate(decimal_value(s.subrange(i, digit_run_end(s, i)))))
    } else if unicode_white_space(s[i]) {
        TokenKind::Whitespace
    } else {
        punctuation_kind(s[i])
    }
}

pub open spec fn token_is(t: Token, kind: TokenKind, start: int, end: int, literal: Seq<char>) -> bool {
    &&& t.kind == kind
    &&& t.span.start == start
    &&& t.span.end == end
    &&& t.span.literal@ == literal
}

/// The token that closes every scan: an empty span at offset zero whose text
/// is the NUL character.
pub open spec fn is_eof_token(t: Token) -> bool {
    token_is(t, TokenKind::Eof, 0, 0, seq!['\0'])
}

/// The tokens (kind, start, end) that scanning `s` from offset `i` yields
/// before the end-of-input token.
pub open spec fn scanned(s: Seq<char>, i: int) -> Seq<(TokenKind, int, int)>
    decreases s.len() - i,
    via scanned_decreases
{
    if 0 <= i < s.len() {
        seq![(token_kind(s, i), i, token_end(s, i))] + scanned(s, token_end(s, i))
    } else {
        Seq::empty()
    }
}

#[via_fn]
proof fn scanned_decreases(s: Seq<char>, i: int) {
    if 0 <= i < s.len() {
        lemma_token_end_bounds(s, i);
    }
}

pub proof fn lemma_digit_run_end_bounds(s: Seq<char>, i: int)
    requires
        0 <= i <= s.len(),
    ensures
        i <= digit_run_end(s, i) <= s.len(),
        forall|k: int| i <= k < digit_run_end(s, i) ==> is_decimal_digit(#[trigger] s[k]),
        digit_run_end(s, i) < s.len() ==> !is_decimal_digit(s[digit_run_end(s, i)]),
    decreases s.len() - i,
{
    if i < s.len() && is_decimal_digit(s[i]) {
        lemma_digit_run_end_bounds(s, i + 1);
    }
}

pub proof fn lemma_token_end_bounds(s: Seq<char>, i: int)
    requires
        0 <= i < s.len(),
    ensures
        i < token_end(s, i) <= s.len(),
{
    if is_decimal_digit(s[i]) {
        lemma_digit_run_end_bounds(s, i + 1);
    }
}

pub proof fn lemma_decimal_value_nonnegative(s: Seq<char>)
    requires
        forall|k: int| 0 <= k < s.len() ==> is_decimal_digit(#[trigger] s[k]),
    ensures
        decimal_value(s) >= 0,
    decreases s.len(),
{
    if s.len() > 0 {
        lemma_decimal_value_nonnegative(s.drop_last());
    }
}

/// Relies on `char::is_whitespace`: whether `c` has the White_Space property,
/// which depends on `c` alone.
#[verifier::external_body]
fn is_white_space_char(c: char) -> (r: bool)
    ensures
        r == unicode_white_space(c),
        is_decimal_digit(c) ==> !r,
{
    c.is_whitespace()
}

/// Whether `tokens` is what scanning `s` to its end yields: the scanned
/// tokens, each with the text of its span, then the end-of-input token.
pub open spec fn is_scan_of(tokens: Seq<Token>, s: Seq<char>) -> bool {
    let expected = scanned(s, 0);
    &&& tokens.len() == expected.len() + 1
    &&& forall|k: int|
        0 <= k < expected.len() ==> #[trigger] token_is(
            tokens[k],
            expected[k].0,
            expected[k].1,
            expected[k].2,
            s.subrange(expected[k].1, expected[k].2),
        )
    &&& is_eof_token(tokens.last())
}

/// Scans one string; offsets count characters, not bytes.
pub struct Lexer<'a> {
    input: &'a str,
    length: usize,
    current_pos: usize,
}

impl<'a> Lexer<'a> {
    /// The characters being scanned.
    pub closed spec fn source(&self) -> Seq<char> {
        self.input@
    }

    /// The offset of the next character to scan; one past the end once the
    /// end-of-input token has been handed out.
    pub closed spec fn position(&self) -> int {
        self.current_pos as int
    }

    pub closed spec fn wf(&self) -> bool {
        &&& self.length as int == self.input@.len()
        &&& self.current_pos <= self.length + 1
        &&& self.length < usize::MAX
    }

    pub fn new(input: &'a str) -> (r: Self)
        requires
            input@.len() < usize::MAX,
        ensures
            r.wf(),
            r.source() == input@,
            r.position() == 0,
    {
        let length = input.unicode_len();
        Self { input, length, current_pos: 0 }
    }

    /// Hands out the token at the current position; at the end of the input
    /// the end-of-input token, and after that nothing.
    pub fn next_token(&mut self) -> (r: Option<Token>)
        requires
            old(self).wf(),
        ensures
            final(self).wf(),
            final(self).source() == old(self).source(),
            ({
                let s = old(self).source();
                let p = old(self).position();
                &&& p < s.len() ==> {
                    &&& r matches Some(t) && token_is(t, token_kind(s, p), p, token_end(s, p), s.subrange(p, token_end(s, p)))
                    &&& final(self).position() == token_end(s, p)
                }
                &&& p == s.len() ==> {
                    &&& r matches Some(t) && is_eof_token(t)
                    &&& final(self).position() == s.len() + 1
                }
                &&& p > s.len() ==> r is None && final(self).position() == p
            }),
    {
        if self.current_pos == self.length {
            self.current_pos = self.current_pos + 1;
            let eof_text = String::from_str("\0");
            proof {
                reveal_strlit("\0");
                assert(eof_text@ =~= seq!['\0']);
            }
            return Some(Token::new(TokenKind::Eof, TextSpan::new(0, 0, eof_text)));
        }
        match self.current_char() {
            None => None,
            Some(c) => {
                proof {
                    lemma_token_end_bounds(self.source(), self.position());
                }
                let start = self.current_pos;
                let kind = if Self::is_number_start(&c) {
                    let number = self.consume_number();
                    TokenKind::Number(number)
                } else if Self::is_whitespace(&c) {
                    self.consume();
                    TokenKind::Whitespace
                } else {
                    self.consume_punctuation()
                };
                let end = self.current_pos;
                let literal = String::from_str(self.input.substring_char(start, end));
                Some(Token::new(kind, TextSpan::new(start, end, literal)))
            },
        }
    }

    fn consume_punctuation(&mut self) -> (r: TokenKind)
        requires
            old(self).wf(),
            old(self).position() < old(self).source().len(),
        ensures
            final(self).wf(),
            final(self).source() == old(self).source(),
            final(self).position() == old(self).position() + 1,
            r == punctuation_kind(old(self).source()[old(self).position()]),
    {
        let c = self.input.get_char(self.current_pos);
        self.current_pos = self.current_pos + 1;
        if c == '+' {
            TokenKind::Plus
        } else if c == '-' {
            TokenKind::Minus
        } else if c == '*' {
            TokenKind::Asterisk
        } else if c == '/' {
            TokenKind::Slash
        } else if c == '(' {
            TokenKind::LeftParen
        } else if c == ')' {
            TokenKind::RightParen
        } else {
            TokenKind::Bad
        }
    }

    fn is_number_start(c: &char) -> (r: bool)
        ensures
            r == is_decimal_digit(*c),
    {
        '0' <= *c && *c <= '9'
    }

    fn is_whitespace(c: &char) -> (r: bool)
        ensures
            r == unicode_white_space(*c),
    {
        is_white_space_char(*c)
    }

    fn current_char(&self) -> (r: Option<char>)
        requires
            self.wf(),
        ensures
            self.position() < self.source().len() ==> r == Some(self.source()[self.position()]),
            self.position() >= self.source().len() ==> r is None,
    {
        if self.current_pos < self.length {
            Some(self.input.get_char(self.current_pos))
        } else {
            None
        }
    }

    fn consume(&mut self) -> (r: Option<char>)
        requires
            old(self).wf(),
        ensures
            final(self).wf(),
            final(self).source() == old(self).source(),
            old(self).position() < old(self).source().len() ==> {
                &&& r == Some(old(self).source()[old(self).position()])
                &&& final(self).position() == old(self).position() + 1
            },
            old(self).position() >= old(self).source().len() ==> {
                &&& r is None
                &&& final(self).position() == old(self).position()
            },
    {
        if self.current_pos >= self.length {
            return None;
        }
        let c = self.current_char();
        self.current_pos = self.current_pos + 1;
        c
    }

    /// Reads the maximal run of decimal digits at the current position and
    /// returns its value, held at `i64::MAX` when it does not fit.
    pub fn consume_number(&mut self) -> (r: i64)
        requires
            old(self).wf(),
            old(self).position() <= old(self).source().len(),
        ensures
            final(self).wf(),
            final(self).source() == old(self).source(),
            ({
                let s = old(self).source();
                let p = old(self).position();
                &&& final(self).position() == digit_run_end(s, p)
                &&& r == saturate(decimal_value(s.subrange(p, digit_run_end(s, p))))
            }),
    {
        let ghost s = self.source();
        let ghost p = self.position();
        proof {
            lemma_digit_run_end_bounds(s, p);
        }
        let mut number: i64 = 0;
        while self.current_pos < self.length
            invariant
                self.wf(),
                self.source() == s,
                p <= self.position() <= digit_run_end(s, p),
                digit_run_end(s, p) <= s.len(),
                forall|k: int| p <= k < digit_run_end(s, p) ==> is_decimal_digit(#[trigger] s[k]),
                digit_run_end(s, p) < s.len() ==> !is_decimal_digit(s[digit_run_end(s, p)]),
                number == saturate(decimal_value(s.subrange(p, self.position()))),
            ensures
                self.wf(),
                self.source() == s,
                self.position() == digit_run_end(s, p),
                number == saturate(decimal_value(s.subrange(p, self.position()))),
            decreases self.length - self.current_pos,
        {
            let c = self.input.get_char(self.current_pos);
            if !Self::is_number_start(&c) {
                break;
            }
            let ghost i = self.position();
            let ghost before = s.subrange(p, i);
            let ghost v = decimal_value(before);
            self.current_pos = self.current_pos + 1;
            let d: i64 = (c as u32 - '0' as u32) as i64;
            proof {
                let after = s.subrange(p, i + 1);
                assert(after.drop_last() =~= before);
                assert(decimal_value(after) == v * 10 + d);
                assert(forall|k: int| 0 <= k < before.len() ==> is_decimal_digit(#[trigger] before[k]));
                lemma_decimal_value_nonnegative(before);
                assert(v * 10 + d >= v) by (nonlinear_arith)
                    requires v >= 0, 0 <= d <= 9;
            }
            number = match number.checked_mul(10) {
                Some(m) => match m.checked_add(d) {
                    Some(n) => n,
                    None => i64::MAX,
                },
                None => i64::MAX,
            };
        }
        number
    }
}

/// Scans all of `input`: every token in order, ending with the end-of-input
/// token.
pub fn tokenize(input: &str) -> (r: Vec<Token>)
    requires
        input@.len() < usize::MAX,
    ensures
        is_scan_of(r@, input@),
{
    let ghost s = input@;
    let mut lexer = Lexer::new(input);
    let mut tokens: Vec<Token> = Vec::new();
    let ghost mut done: Seq<(TokenKind, int, int)> = Seq::empty();
    loop
        invariant
            lexer.wf(),
            lexer.source() == s,
            lexer.position() <= s.len() ==> {
                &&& scanned(s, 0) == done + scanned(s, lexer.position())
                &&& tokens@.len() == done.len()
            },
            lexer.position() <= s.len() + 1,
            lexer.position() == s.len() + 1 ==> is_scan_of(tokens@, s),
            forall|k: int|
                0 <= k < done.len() ==> #[trigger] token_is(
                    tokens@[k],
                    done[k].0,
                    done[k].1,
                    done[k].2,
                    s.subrange(done[k].1, done[k].2),
                ),
        ensures
            is_scan_of(tokens@, s),
        decreases s.len() + 2 - lexer.position(),
    {
        let ghost p = lexer.position();
        let ghost before = tokens@;
        proof {
            if p < s.len() {
                lemma_token_end_bounds(s, p);
            }
        }
        match lexer.next_token() {
            None => break,
            Some(token) => {
                tokens.push(token);
                proof {
                    assert(forall|k: int| 0 <= k < before.len() ==> tokens@[k] == before[k]);
                    if p < s.len() {
                        let item = (token_kind(s, p), p, token_end(s, p));
                        assert(scanned(s, p) == seq![item] + scanned(s, token_end(s, p)));
                        assert(done + scanned(s, p) =~= done.push(item) + scanned(s, token_end(s, p)));
                        done = done.push(item);
                    } else {
                        assert(scanned(s, p) =~= Seq::<(TokenKind, int, int)>::empty());
                        assert(done + scanned(s, p) =~= done);
                        assert(scanned(s, 0) == done);
                        assert(is_scan_of(tokens@, s));
                    }
                }
            },
        }
    }
    tokens
}

} // verus!
