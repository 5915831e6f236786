//! The tree that the parser builds, and the protocol by which visitors walk it.
use vstd::prelude::*;
use crate::lexer::Token;

verus! {

/// A program: its statements in the order of the source.
#[derive(Debug)]
pub struct Ast {
    pub statements: Vec<ASTStatement>,
}

#[derive(Debug)]
pub enum ASTStatementKind {
    Expression(ASTExpression),
}

#[derive(Debug)]
pub struct ASTStatement {
    pub kind: ASTStatementKind,
}

#[derive(Debug)]
pub enum ASTExpressionKind {
    Number(ASTNumberExpression),
    Binary(ASTBinaryExpression),
    Parenthesized(ParenthesizedExpression),
}

#[derive(Debug, Clone, Copy, PartialEq, Eq, Structural)]
pub enum ASTBinaryOperatorKind {
    Plus,
    Minus,
    Multiply,
    Divide,
}

#[derive(Debug)]
pub struct ASTBinaryOperator {
    pub kind: ASTBinaryOperatorKind,
    pub token: Token,
}

#[derive(Debug)]
pub struct ASTBinaryExpression {
    pub left: Box<ASTExpression>,
    pub right: Box<ASTExpression>,
    pub operator: ASTBinaryOperator,
}

#[derive(Debug)]
pub struct ASTNumberExpression {
    pub number: i64,
}

/// Grouping written with parentheses, kept apart from grouping by precedence.
#[derive(Debug)]
pub struct ParenthesizedExpression {
    pub expression: Box<ASTExpression>,
}

#[derive(Debug)]
pub struct ASTExpression {
    pub kind: ASTExpressionKind,
}

/// Plus and minus bind at level 1, multiply and divide at level 2.
pub open spec fn precedence_of(kind: ASTBinaryOperatorKind) -> u8 {
    match kind {
        ASTBinaryOperatorKind::Plus => 1,
        ASTBinaryOperatorKind::Minus => 1,
        ASTBinaryOperatorKind::Multiply => 2,
        ASTBinaryOperatorKind::Divide => 2,
    }
}

pub open spec fn number_expression(n: i64) -> ASTExpression {
    ASTExpression { kind: ASTExpressionKind::Number(ASTNumberExpression { number: n }) }
}

pub open spec fn binary_expression(
    operator: ASTBinaryOperator,
    left: ASTExpression,
    right: ASTExpression,
) -> ASTExpression {
    ASTExpression {
        kind: ASTExpressionKind::Binary(
            ASTBinaryExpression { left: Box::new(left), right: Box::new(right), operator },
        ),
    }
}

pub open spec fn parenthesized_expression(inner: ASTExpression) -> ASTExpression {
    ASTExpression {
        kind: ASTExpressionKind::Parenthesized(ParenthesizedExpression { expression: Box::new(inner) }),
    }
}

pub open spec fn statement_expression(statement: ASTStatement) -> ASTExpression {
    match statement.kind {
        ASTStatementKind::Expression(e) => e,
    }
}

/// The number of nodes in a tree; visitors recurse on it.
pub open spec fn size(e: ASTExpression) -> nat
    decreases e,
{
    match e.kind {
        ASTExpressionKind::Number(_) => 1,
        ASTExpressionKind::Binary(b) => 1 + size(*b.left) + size(*b.right),
        ASTExpressionKind::Parenthesized(p) => 1 + size(*p.expression),
    }
}

impl ASTStatement {
    pub fn new(kind: ASTStatementKind) -> (r: Self)
        ensures
            r == (ASTStatement { kind }),
    {
        ASTStatement { kind }
    }

    pub fn expression(expression: ASTExpression) -> (r: Self)
        ensures
            r == (ASTStatement { kind: ASTStatementKind::Expression(expression) }),
    {
        ASTStatement::new(ASTStatementKind::Expression(expression))
    }
}

impl ASTBinaryOperator {
    pub fn new(kind: ASTBinaryOperatorKind, token: Token) -> (r: Self)
        ensures
            r == (ASTBinaryOperator { kind, token }),
    {
        ASTBinaryOperator { kind, token }
    }

    pub fn precedence(&self) -> (r: u8)
        ensures
            r == precedence_of(self.kind),
    {
        match self.kind {
            ASTBinaryOperatorKind::Plus => 1,
            ASTBinaryOperatorKind::Minus => 1,
            ASTBinaryOperatorKind::Multiply => 2,
            ASTBinaryOperatorKind::Divide => 2,
        }
    }
}

impl ASTExpression {
    pub fn new(kind: ASTExpressionKind) -> (r: Self)
        ensures
            r == (ASTExpression { kind }),
    {
        ASTExpression { kind }
    }

    pub fn number(number: i64) -> (r: Self)
        ensures
            r == number_expression(number),
    {
        ASTExpression::new(ASTExpressionKind::Number(ASTNumberExpression { number }))
    }

    pub fn binary(operator: ASTBinaryOperator, left: ASTExpression, right: ASTExpression) -> (r: Self)
        ensures
            r == binary_expression(operator, left, right),
    {
        ASTExpression::new(
            ASTExpressionKind::Binary(
                ASTBinaryExpression { left: Box::new(left), operator, right: Box::new(right) },
            ),
        )
    }

    pub fn parenthesized(expression: ASTExpression) -> (r: Self)
        ensures
            r == parenthesized_expression(expression),
    {
        ASTExpression::new(
            ASTExpressionKind::Parenthesized(ParenthesizedExpression { expression: Box::new(expression) }),
        )
    }
}

/// A consumer of the tree. Each hook states, as a relation between the state
/// before and the state after, what visiting its node does; a consumer walks
/// the children itself, left child fully before right child.
pub trait ASTVisitor: Sized {
    spec fn visited_statement(self, statement: ASTStatement, after: Self) -> bool;

    spec fn visited_expression(self, expression: ASTExpression, after: Self) -> bool;

    spec fn visited_number(self, number: ASTNumberExpression, after: Self) -> bool;

    spec fn visited_binary(self, expression: ASTBinaryExpression, after: Self) -> bool;

    spec fn visited_parenthesized(self, expression: ParenthesizedExpression, after: Self) -> bool;

    fn visit_statement(&mut self, statement: &ASTStatement)
        ensures
            old(self).visited_statement(*statement, *final(self)),
    ;

    fn visit_expression(&mut self, expression: &ASTExpression)
        ensures
            old(self).visited_expression(*expression, *final(self)),
    ;

    fn visit_number(&mut self, number: &ASTNumberExpression)
        ensures
            old(self).visited_number(*number, *final(self)),
    ;

    fn visit_binary_expression(&mut self, expression: &ASTBinaryExpression)
        ensures
            old(self).visited_binary(*expression, *final(self)),
    ;

    fn visit_parenthesized_expression(&mut self, parenthesized_expression: &ParenthesizedExpression)
        ensures
            old(self).visited_parenthesized(*parenthesized_expression, *final(self)),
    ;
}

/// `trace` is a run of `visitor` over `statements`: it starts at the visitor's
/// state, and each statement takes one state to the next.
pub open spec fn is_visit_trace<V: ASTVisitor>(visitor: V, statements: Seq<ASTStatement>, trace: Seq<V>) -> bool {
    &&& trace.len() == statements.len() + 1
    &&& trace[0] == visitor
    &&& forall|i: int| 0 <= i < statements.len() ==> #[trigger] trace[i].visited_statement(statements[i], trace[i + 1])
}

/// Visiting `statements` in order takes `visitor` to `after`.
pub open spec fn visited_all<V: ASTVisitor>(visitor: V, statements: Seq<ASTStatement>, after: V) -> bool {
    exists|trace: Seq<V>| #[trigger] is_visit_trace(visitor, statements, trace) && trace.last() == after
}

impl Ast {
    pub fn new() -> (r: Self)
        ensures
            r.statements@ == Seq::<ASTStatement>::empty(),
    {
        Self { statements: Vec::new() }
    }

    pub fn add_statement(&mut self, statement: ASTStatement)
        ensures
            final(self).statements@ == old(self).statements@.push(statement),
    {
        self.statements.push(statement);
    }

    /// Walks every statement in order with `visitor`.
    pub fn visit<V: ASTVisitor>(&self, visitor: &mut V)
        ensures
            visited_all(*old(visitor), self.statements@, *final(visitor)),
    {
        let n = self.statements.len();
        let mut i: usize = 0;
        let ghost mut trace: Seq<V> = seq![*visitor];
        while i < n
            invariant
                n == self.statements@.len(),
                i <= n,
                is_visit_trace(*old(visitor), self.statements@.subrange(0, i as int), trace),
                trace.last() == *visitor,
            decreases n - i,
        {
            visitor.visit_statement(&self.statements[i]);
            proof {
                let next = trace.push(*visitor);
                let done = self.statements@.subrange(0, i as int + 1);
                assert forall|k: int| 0 <= k < done.len() implies #[trigger] next[k].visited_statement(done[k], next[k + 1]) by {
                    if k < i {
                        assert(trace[k].visited_statement(self.statements@.subrange(0, i as int)[k], trace[k + 1]));
                    }
                }
                trace = next;
            }
            i = i + 1;
        }
        proof {
            assert(self.statements@.subrange(0, n as int) =~= self.statements@);
        }
    }
}

} // verus!
