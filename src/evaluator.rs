//! The evaluator: a visitor that reduces a tree to one integer.
use vstd::prelude::*;
use crate::ast::{
    size, statement_expression, ASTBinaryExpression, ASTBinaryOperatorKind, ASTExpression,
    ASTExpressionKind, ASTNumberExpression, ASTStatement, ASTStatementKind, ASTVisitor,
    ParenthesizedExpression,
};

verus! {

#[derive(Debug, Clone, Copy, PartialEq, Eq, Structural)]
pub enum EvalError {
    DivisionByZero,
    /// A result, final or intermediate, does not fit in an `i64`.
    Overflow,
}

pub open spec fn abs(a: int) -> int {
    if a < 0 {
        -a
    } else {
        a
    }
}

/// Division that truncates toward zero.
pub open spec fn truncated_quotient(a: int, b: int) -> int {
    if (a < 0) == (b < 0) {
        abs(a) / abs(b)
    } else {
        -(abs(a) / abs(b))
    }
}

pub open spec fn fits_i64(v: int) -> bool {
    i64::MIN <= v <= i64::MAX
}

pub open spec fn checked(v: int) -> Result<i64, EvalError> {
    if fits_i64(v) {
        Ok(v as i64)
    } else {
        Err(EvalError::Overflow)
    }
}

pub open spec fn apply_operator(kind: ASTBinaryOperatorKind, l: i64, r: i64) -> Result<i64, EvalError> {
    match kind {
        ASTBinaryOperatorKind::Plus => checked(l + r),
        ASTBinaryOperatorKind::Minus => checked(l - r),
        ASTBinaryOperatorKind::Multiply => checked(l * r),
        ASTBinaryOperatorKind::Divide => if r == 0 {
            Err(EvalError::DivisionByZero)
        } else {
            checked(truncated_quotient(l as int, r as int))
        },
    }
}

/// The value of a tree: operands left before right, the first failure wins;
/// parentheses do not change a value.
pub open spec fn evaluate(e: ASTExpression) -> Result<i64, EvalError>
    decreases e,
{
    match e.kind {
        ASTExpressionKind::Number(n) => Ok(n.number),
        ASTExpressionKind::Parenthesized(p) => evaluate(*p.expression),
        ASTExpressionKind::Binary(b) => match evaluate(*b.left) {
            Err(x) => Err(x),
            Ok(l) => match evaluate(*b.right) {
                Err(x) => Err(x),
                Ok(r) => apply_operator(b.operator.kind, l, r),
            },
        },
    }
}

/// Holds the most recently computed value, or the failure that stopped the
/// last evaluation.
pub struct ASTEvaluator {
    pub last_value: Option<i64>,
    pub error: Option<EvalError>,
}

impl ASTEvaluator {
    pub fn new() -> (r: Self)
        ensures
            r.last_value is None,
            r.error is None,
    {
        Self { last_value: None, error: None }
    }

    /// Whether the evaluator records `outcome`.
    pub open spec fn holds(self, outcome: Result<i64, EvalError>) -> bool {
        match outcome {
            Ok(v) => self.last_value == Some(v) && self.error is None,
            Err(x) => self.last_value is None && self.error == Some(x),
        }
    }

    fn record(&mut self, outcome: Result<i64, EvalError>)
        ensures
            final(self).holds(outcome),
    {
        match outcome {
            Ok(v) => {
                self.last_value = Some(v);
                self.error = None;
            },
            Err(x) => {
                self.last_value = None;
                self.error = Some(x);
            },
        }
    }
}

fn apply(kind: ASTBinaryOperatorKind, l: i64, r: i64) -> (res: Result<i64, EvalError>)
    ensures
        res == apply_operator(kind, l, r),
{
    let value = match kind {
        ASTBinaryOperatorKind::Plus => l.checked_add(r),
        ASTBinaryOperatorKind::Minus => l.checked_sub(r),
        ASTBinaryOperatorKind::Multiply => l.checked_mul(r),
        ASTBinaryOperatorKind::Divide => {
            if r == 0 {
                return Err(EvalError::DivisionByZero);
            }
            l.checked_div(r)
        },
    };
    match value {
        Some(v) => Ok(v),
        None => Err(EvalError::Overflow),
    }
}

impl ASTVisitor for ASTEvaluator {
    open spec fn visited_statement(self, statement: ASTStatement, after: Self) -> bool {
        after.holds(evaluate(statement_expression(statement)))
    }

    open spec fn visited_expression(self, expression: ASTExpression, after: Self) -> bool {
        after.holds(evaluate(expression))
    }

    open spec fn visited_number(self, number: ASTNumberExpression, after: Self) -> bool {
        after.holds(Ok(number.number))
    }

    open spec fn visited_binary(self, expression: ASTBinaryExpression, after: Self) -> bool {
        after.holds(evaluate(ASTExpression { kind: ASTExpressionKind::Binary(expression) }))
    }

    open spec fn visited_parenthesized(self, expression: ParenthesizedExpression, after: Self) -> bool {
        after.holds(evaluate(*expression.expression))
    }

    fn visit_statement(&mut self, statement: &ASTStatement) {
        match &statement.kind {
            ASTStatementKind::Expression(expression) => self.visit_expression(expression),
        }
    }

    fn visit_expression(&mut self, expression: &ASTExpression)
        decreases size(*expression), 1nat,
    {
        match &expression.kind {
            ASTExpressionKind::Number(number) => self.visit_number(number),
            ASTExpressionKind::Binary(binary) => self.visit_binary_expression(binary),
            ASTExpressionKind::Parenthesized(inner) => self.visit_parenthesized_expression(inner),
        }
    }

    fn visit_number(&mut self, number: &ASTNumberExpression) {
        self.last_value = Some(number.number);
        self.error = None;
    }

    /// Resolves the left operand fully, then the right one, then combines
    /// the two values that the register held after each.
    fn visit_binary_expression(&mut self, expression: &ASTBinaryExpression)
        decreases size(ASTExpression { kind: ASTExpressionKind::Binary(*expression) }), 0nat,
    {
        self.visit_expression(&expression.left);
        let left = match self.last_value {
            Some(v) => v,
            None => return,
        };
        self.visit_expression(&expression.right);
        let right = match self.last_value {
            Some(v) => v,
            None => return,
        };
        let outcome = apply(expression.operator.kind, left, right);
        self.record(outcome);
    }

    fn visit_parenthesized_expression(&mut self, parenthesized_expression: &ParenthesizedExpression)
        decreases size(ASTExpression { kind: ASTExpressionKind::Parenthesized(*parenthesized_expression) }), 0nat,
    {
        self.visit_expression(&parenthesized_expression.expression)
    }
}

} // verus!
