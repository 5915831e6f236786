//! The parser: statements out of a token sequence, one expression each, by
//! precedence climbing.
use vstd::prelude::*;
use crate::ast::{
    binary_expression, number_expression, parenthesized_expression, precedence_of,
    ASTBinaryOperator, ASTBinaryOperatorKind, ASTExpression, ASTStatement, ASTStatementKind,
};
use crate::lexer::{Token, TokenKind};

verus! {

#[derive(Debug, Clone, Copy, PartialEq, Eq, Structural)]
pub enum ParseErrorKind {
    /// A number or an opening parenthesis was needed.
    ExpectedOperand,
    /// A parenthesized expression was not closed.
    ExpectedRightParen,
}

/// A statement that could not be parsed: what was missing, the index of the
/// token where it was missing, and that token, if the sequence has one there.
#[derive(Debug)]
pub struct ParseError {
    pub kind: ParseErrorKind,
    pub position: usize,
    pub found: Option<Token>,
}

/// The tokens that the parser keeps: all but whitespace.
pub open spec fn significant(tokens: Seq<Token>) -> Seq<Token>
    decreases tokens.len(),
{
    if tokens.len() == 0 {
        tokens
    } else if tokens.last().kind == TokenKind::Whitespace {
        significant(tokens.drop_last())
    } else {
        significant(tokens.drop_last()).push(tokens.last())
    }
}

pub open spec fn binary_operator_kind(kind: TokenKind) -> Option<ASTBinaryOperatorKind> {
    match kind {
        TokenKind::Plus => Some(ASTBinaryOperatorKind::Plus),
        TokenKind::Minus => Some(ASTBinaryOperatorKind::Minus),
        TokenKind::Asterisk => Some(ASTBinaryOperatorKind::Multiply),
        TokenKind::Slash => Some(ASTBinaryOperatorKind::Divide),
        _ => None,
    }
}

/// What parsing an expression yields: the tree and the index after it, or
/// the error and the index where it arose.
pub type ParseOutcome = Result<(ASTExpression, int), (ParseErrorKind, int)>;

/// A primary expression at `pos`: a number, or an expression in parentheses.
pub open spec fn parse_primary(t: Seq<Token>, pos: int) -> ParseOutcome
    decreases t.len() - pos, 1int,
{
    if !(0 <= pos < t.len()) {
        Err((ParseErrorKind::ExpectedOperand, pos))
    } else {
        match t[pos].kind {
            TokenKind::Number(n) => Ok((number_expression(n), pos + 1)),
            TokenKind::LeftParen => match parse_binary(t, pos + 1, 0) {
                Err(e) => Err(e),
                Ok((inner, p)) => if 0 <= p < t.len() && t[p].kind == TokenKind::RightParen {
                    Ok((parenthesized_expression(inner), p + 1))
                } else {
                    Err((ParseErrorKind::ExpectedRightParen, p))
                },
            },
            _ => Err((ParseErrorKind::ExpectedOperand, pos)),
        }
    }
}

/// An expression at `pos` whose operators bind at level `min` or tighter.
pub open spec fn parse_binary(t: Seq<Token>, pos: int, min: int) -> ParseOutcome
    decreases t.len() - pos, 2int,
{
    match parse_primary(t, pos) {
        Err(e) => Err(e),
        Ok((left, p)) => if pos < p <= t.len() {
            climb(t, left, p, min)
        } else {
            Ok((left, p))
        },
    }
}

/// Extends `left` with the operators at `pos` and after that bind at level
/// `min` or tighter; the right operand of each is parsed at the operator's
/// own level, so equal levels group from the right.
pub open spec fn climb(t: Seq<Token>, left: ASTExpression, pos: int, min: int) -> ParseOutcome
    decreases t.len() - pos, 0int,
{
    if 0 <= pos < t.len() && binary_operator_kind(t[pos].kind) is Some
        && precedence_of(binary_operator_kind(t[pos].kind)->0) >= min {
        let kind = binary_operator_kind(t[pos].kind)->0;
        match parse_binary(t, pos + 1, precedence_of(kind) as int) {
            Err(e) => Err(e),
            Ok((right, p)) => if pos < p <= t.len() {
                climb(t, binary_expression(ASTBinaryOperator { kind, token: t[pos] }, left, right), p, min)
            } else {
                Ok((left, pos))
            },
        }
    } else {
        Ok((left, pos))
    }
}

/// Whether `error` reports `failure` against the tokens `t`.
pub open spec fn reports(error: ParseError, failure: (ParseErrorKind, int), t: Seq<Token>) -> bool {
    &&& error.kind == failure.0
    &&& error.position == failure.1
    &&& error.found == if 0 <= failure.1 < t.len() {
        Some(t[failure.1])
    } else {
        None
    }
}

pub struct Parser {
    tokens: Vec<Token>,
    current: usize,
}

impl Parser {
    /// The tokens being parsed.
    pub closed spec fn tokens(&self) -> Seq<Token> {
        self.tokens@
    }

    /// The index of the next token to parse.
    pub closed spec fn position(&self) -> int {
        self.current as int
    }

    pub closed spec fn wf(&self) -> bool {
        self.current <= self.tokens@.len()
    }

    /// A parser over `tokens` with whitespace left out.
    pub fn new(tokens: Vec<Token>) -> (r: Self)
        ensures
            r.wf(),
            r.tokens() == significant(tokens@),
            r.position() == 0,
    {
        let mut kept: Vec<Token> = Vec::new();
        let mut i: usize = 0;
        while i < tokens.len()
            invariant
                i <= tokens@.len(),
                kept@ == significant(tokens@.subrange(0, i as int)),
            decreases tokens@.len() - i,
        {
            proof {
                assert(tokens@.subrange(0, i as int + 1).drop_last() =~= tokens@.subrange(0, i as int));
            }
            let ghost before = kept@;
            if tokens[i].kind != TokenKind::Whitespace {
                kept.push(tokens[i].duplicate());
            }
            proof {
                let done = tokens@.subrange(0, i as int + 1);
                assert(done.last() == tokens@[i as int]);
            }
            i = i + 1;
        }
        proof {
            assert(tokens@.subrange(0, tokens@.len() as int) =~= tokens@);
        }
        Self { tokens: kept, current: 0 }
    }

    /// The next statement; `None` once the tokens run out or the end-of-input
    /// token is reached. A statement that cannot be parsed yields its error
    /// and ends the session: no part of it is returned.
    pub fn next_statement(&mut self) -> (r: Option<Result<ASTStatement, ParseError>>)
        requires
            old(self).wf(),
        ensures
            final(self).wf(),
            final(self).tokens() == old(self).tokens(),
            ({
                let t = old(self).tokens();
                let p = old(self).position();
                if p >= t.len() || t[p].kind == TokenKind::Eof {
                    r is None && final(self).position() == p
                } else {
                    match parse_binary(t, p, 0) {
                        Ok((e, q)) => r == Some(
                            Ok::<ASTStatement, ParseError>(ASTStatement { kind: ASTStatementKind::Expression(e) }),
                        ) && final(self).position() == q,
                        Err(failure) => r matches Some(Err(error)) && reports(error, failure, t)
                            && final(self).position() == t.len(),
                    }
                }
            }),
    {
        self.parse_statement()
    }

    fn parse_statement(&mut self) -> (r: Option<Result<ASTStatement, ParseError>>)
        requires
            old(self).wf(),
        ensures
            final(self).wf(),
            final(self).tokens() == old(self).tokens(),
            ({
                let t = old(self).tokens();
                let p = old(self).position();
                if p >= t.len() || t[p].kind == TokenKind::Eof {
                    r is None && final(self).position() == p
                } else {
                    match parse_binary(t, p, 0) {
                        Ok((e, q)) => r == Some(
                            Ok::<ASTStatement, ParseError>(ASTStatement { kind: ASTStatementKind::Expression(e) }),
                        ) && final(self).position() == q,
                        Err(failure) => r matches Some(Err(error)) && reports(error, failure, t)
                            && final(self).position() == t.len(),
                    }
                }
            }),
    {
        match self.current() {
            None => return None,
            Some(token) => {
                if token.kind == TokenKind::Eof {
                    return None;
                }
            },
        }
        match self.parse_expression() {
            Ok(expression) => Some(Ok(ASTStatement::expression(expression))),
            Err(error) => {
                self.current = self.tokens.len();
                Some(Err(error))
            },
        }
    }

    fn parse_expression(&mut self) -> (r: Result<ASTExpression, ParseError>)
        requires
            old(self).wf(),
        ensures
            final(self).wf(),
            final(self).tokens() == old(self).tokens(),
            match parse_binary(old(self).tokens(), old(self).position(), 0) {
                Ok((e, q)) => r == Ok::<ASTExpression, ParseError>(e) && final(self).position() == q
                    && old(self).position() < q,
                Err(failure) => r matches Err(error) && reports(error, failure, old(self).tokens()),
            },
        decreases old(self).tokens@.len() - old(self).current, 3int,
    {
        self.parse_binary_expression(0)
    }

    fn parse_binary_expression(&mut self, precedence: u8) -> (r: Result<ASTExpression, ParseError>)
        requires
            old(self).wf(),
        ensures
            final(self).wf(),
            final(self).tokens() == old(self).tokens(),
            match parse_binary(old(self).tokens(), old(self).position(), precedence as int) {
                Ok((e, q)) => r == Ok::<ASTExpression, ParseError>(e) && final(self).position() == q
                    && old(self).position() < q,
                Err(failure) => r matches Err(error) && reports(error, failure, old(self).tokens()),
            },
        decreases old(self).tokens@.len() - old(self).current, 2int,
    {
        let ghost t = self.tokens();
        let ghost start = self.position();
        let mut left = match self.parse_primary_expression() {
            Ok(e) => e,
            Err(error) => return Err(error),
        };
        loop
            invariant
                self.wf(),
                self.tokens() == t,
                t == old(self).tokens(),
                start == old(self).position(),
                start < self.position() <= t.len(),
                parse_binary(t, start, precedence as int) == climb(t, left, self.position(), precedence as int),
            ensures
                self.wf(),
                self.tokens() == t,
                start < self.position() <= t.len(),
                parse_binary(t, start, precedence as int) == Ok::<(ASTExpression, int), (ParseErrorKind, int)>((left, self.position())),
            decreases t.len() - self.position(),
        {
            let operator = match self.parse_binary_operator() {
                Some(operator) => operator,
                None => break,
            };
            let operator_precedence = operator.precedence();
            if operator_precedence < precedence {
                break;
            }
            let ghost at = self.position();
            self.consume();
            let right = match self.parse_binary_expression(operator_precedence) {
                Ok(e) => e,
                Err(error) => return Err(error),
            };
            proof {
                assert(operator == ASTBinaryOperator { kind: operator.kind, token: t[at] });
            }
            left = ASTExpression::binary(operator, left, right);
        }
        Ok(left)
    }

    /// The operator at the current token, if it is one; nothing is consumed.
    pub fn parse_binary_operator(&self) -> (r: Option<ASTBinaryOperator>)
        requires
            self.wf(),
        ensures
            ({
                let t = self.tokens();
                let p = self.position();
                if p < t.len() && binary_operator_kind(t[p].kind) is Some {
                    r == Some(ASTBinaryOperator { kind: binary_operator_kind(t[p].kind)->0, token: t[p] })
                } else {
                    r is None
                }
            }),
    {
        match self.current() {
            None => None,
            Some(token) => {
                let kind = match token.kind {
                    TokenKind::Plus => ASTBinaryOperatorKind::Plus,
                    TokenKind::Minus => ASTBinaryOperatorKind::Minus,
                    TokenKind::Asterisk => ASTBinaryOperatorKind::Multiply,
                    TokenKind::Slash => ASTBinaryOperatorKind::Divide,
                    _ => return None,
                };
                Some(ASTBinaryOperator::new(kind, token.duplicate()))
            },
        }
    }

    fn parse_primary_expression(&mut self) -> (r: Result<ASTExpression, ParseError>)
        requires
            old(self).wf(),
        ensures
            final(self).wf(),
            final(self).tokens() == old(self).tokens(),
            match parse_primary(old(self).tokens(), old(self).position()) {
                Ok((e, q)) => r == Ok::<ASTExpression, ParseError>(e) && final(self).position() == q
                    && old(self).position() < q,
                Err(failure) => r matches Err(error) && reports(error, failure, old(self).tokens()),
            },
        decreases old(self).tokens@.len() - old(self).current, 1int,
    {
        let start = self.current;
        let number = match self.consume() {
            None => return Err(self.error_at(ParseErrorKind::ExpectedOperand, start)),
            Some(token) => match token.kind {
                TokenKind::Number(n) => Some(n),
                TokenKind::LeftParen => None,
                _ => return Err(self.error_at(ParseErrorKind::ExpectedOperand, start)),
            },
        };
        match number {
            Some(n) => Ok(ASTExpression::number(n)),
            None => {
                let expression = match self.parse_expression() {
                    Ok(e) => e,
                    Err(error) => return Err(error),
                };
                let closing = self.current;
                let closed = match self.consume() {
                    Some(token) => token.kind == TokenKind::RightParen,
                    None => false,
                };
                if !closed {
                    return Err(self.error_at(ParseErrorKind::ExpectedRightParen, closing));
                }
                Ok(ASTExpression::parenthesized(expression))
            },
        }
    }

    /// The error `kind` at token index `position`.
    fn error_at(&self, kind: ParseErrorKind, position: usize) -> (r: ParseError)
        ensures
            reports(r, (kind, position as int), self.tokens()),
    {
        let found = if position < self.tokens.len() {
            Some(self.tokens[position].duplicate())
        } else {
            None
        };
        ParseError { kind, position, found }
    }

    fn peek(&self, offset: usize) -> (r: Option<&Token>)
        requires
            self.wf(),
        ensures
            self.position() + offset < self.tokens().len() ==> r == Some(&self.tokens()[self.position() + offset]),
            self.position() + offset >= self.tokens().len() ==> r is None,
    {
        if offset < self.tokens.len() - self.current {
            Some(&self.tokens[self.current + offset])
        } else {
            None
        }
    }

    fn current(&self) -> (r: Option<&Token>)
        requires
            self.wf(),
        ensures
            self.position() < self.tokens().len() ==> r == Some(&self.tokens()[self.position()]),
            self.position() >= self.tokens().len() ==> r is None,
    {
        self.peek(0)
    }

    /// Steps past the current token and returns it.
    pub fn consume(&mut self) -> (r: Option<&Token>)
        requires
            old(self).wf(),
        ensures
            final(self).wf(),
            final(self).tokens() == old(self).tokens(),
            old(self).position() < old(self).tokens().len() ==> {
                &&& r == Some(&old(self).tokens()[old(self).position()])
                &&& final(self).position() == old(self).position() + 1
            },
            old(self).position() >= old(self).tokens().len() ==> {
                &&& r is None
                &&& final(self).position() == old(self).position()
            },
    {
        if self.current >= self.tokens.len() {
            return None;
        }
        self.current = self.current + 1;
        Some(&self.tokens[self.current - 1])
    }
}

} // verus!
