use arith_ast::ast::{ASTBinaryOperatorKind, ASTVisitor, Ast};
use arith_ast::evaluator::{ASTEvaluator, EvalError};
use arith_ast::lexer::{tokenize, TextSpan, Token, TokenKind};
use arith_ast::parser::{ParseErrorKind, Parser};

#[test]
fn test_parse_binary_operator() {
    let mut parser = Parser::new(vec![
        Token::new(TokenKind::Plus, TextSpan::new(0, 1, "+".to_string())),
        Token::new(TokenKind::Minus, TextSpan::new(1, 2, "-".to_string())),
        Token::new(TokenKind::Asterisk, TextSpan::new(1, 3, "*".to_string())),
        Token::new(TokenKind::Slash, TextSpan::new(2, 3, "/".to_string())),
        Token::new(TokenKind::Number(123), TextSpan::new(2, 3, "123".to_string())),
    ]);

    let expected_kinds = [
        ASTBinaryOperatorKind::Plus,
        ASTBinaryOperatorKind::Minus,
        ASTBinaryOperatorKind::Multiply,
        ASTBinaryOperatorKind::Divide,
    ];

    for expected_kind in expected_kinds.iter() {
        assert_eq!(parser.parse_binary_operator().unwrap().kind, *expected_kind);
        parser.consume();
    }

    assert!(parser.parse_binary_operator().is_none());
}

/// Parses every statement of `input` and evaluates each.
fn run(input: &str) -> Vec<Result<i64, EvalError>> {
    let mut parser = Parser::new(tokenize(input));
    let mut ast = Ast::new();
    while let Some(statement) = parser.next_statement() {
        ast.add_statement(statement.expect("statement parses"));
    }
    let mut results = Vec::new();
    for statement in &ast.statements {
        let mut evaluator = ASTEvaluator::new();
        evaluator.visit_statement(statement);
        results.push(match (evaluator.last_value, evaluator.error) {
            (Some(v), None) => Ok(v),
            (None, Some(e)) => Err(e),
            _ => panic!("evaluator holds neither a value nor an error"),
        });
    }
    results
}

fn first_error(input: &str) -> (ParseErrorKind, usize) {
    let mut parser = Parser::new(tokenize(input));
    loop {
        match parser.next_statement() {
            Some(Ok(_)) => continue,
            Some(Err(error)) => return (error.kind, error.position),
            None => panic!("no error in {input:?}"),
        }
    }
}

#[test]
fn multiplication_binds_tighter_than_addition() {
    assert_eq!(run("2 + 3 * 4"), vec![Ok(14)]);
}

#[test]
fn parentheses_override_precedence() {
    assert_eq!(run("(2 + 3) * 4"), vec![Ok(20)]);
}

#[test]
fn equal_precedence_groups_from_the_right() {
    assert_eq!(run("7 - 30 + 7"), vec![Ok(-30)]);
}

#[test]
fn canonical_example() {
    assert_eq!(run("7 - (30 + 7) * 8 / 2"), vec![Ok(-141)]);
}

#[test]
fn lower_precedence_after_higher_continues_the_expression() {
    assert_eq!(run("2 * 3 + 4"), vec![Ok(10)]);
}

#[test]
fn division_truncates_toward_zero() {
    assert_eq!(run("7 / 2"), vec![Ok(3)]);
    assert_eq!(run("(0 - 7) / 2"), vec![Ok(-3)]);
}

#[test]
fn unary_minus_is_rejected() {
    assert_eq!(first_error("-7 / 2"), (ParseErrorKind::ExpectedOperand, 0));
}

#[test]
fn unclosed_parenthesis_is_rejected() {
    assert_eq!(first_error("(1 + 2"), (ParseErrorKind::ExpectedRightParen, 4));
}

#[test]
fn bad_character_is_rejected_where_an_operand_is_needed() {
    let mut parser = Parser::new(tokenize("1 + x"));
    let error = parser.next_statement().unwrap().unwrap_err();
    assert_eq!(error.kind, ParseErrorKind::ExpectedOperand);
    assert_eq!(error.position, 2);
    assert_eq!(error.found.unwrap().kind, TokenKind::Bad);
    assert!(parser.next_statement().is_none());
}

#[test]
fn statements_follow_one_another() {
    assert_eq!(run("1 + 1 2 * 3"), vec![Ok(2), Ok(6)]);
}

#[test]
fn whitespace_only_text_has_no_statement() {
    let mut parser = Parser::new(tokenize("  \t "));
    assert!(parser.next_statement().is_none());
}

#[test]
fn division_by_zero_is_an_error() {
    assert_eq!(run("1 / (2 - 2)"), vec![Err(EvalError::DivisionByZero)]);
}

#[test]
fn overflow_is_an_error() {
    assert_eq!(run("9223372036854775807 + 1"), vec![Err(EvalError::Overflow)]);
    assert_eq!(run("(0 - 9223372036854775807) * 2"), vec![Err(EvalError::Overflow)]);
}
