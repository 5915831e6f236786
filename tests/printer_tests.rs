use arith_ast::ast::{ASTBinaryOperator, ASTBinaryOperatorKind, ASTExpression, ASTStatement, Ast};
use arith_ast::evaluator::ASTEvaluator;
use arith_ast::lexer::{tokenize, TextSpan, Token, TokenKind};
use arith_ast::parser::Parser;

fn parse_all(input: &str) -> Ast {
    let mut parser = Parser::new(tokenize(input));
    let mut ast = Ast::new();
    while let Some(statement) = parser.next_statement() {
        ast.add_statement(statement.expect("statement parses"));
    }
    ast
}

#[test]
fn tree_is_rendered_with_indentation() {
    let ast = parse_all("(1 + 2) * 3");
    assert_eq!(
        ast.visualize(),
        vec![
            "Statement:",
            "  Expression:",
            "    Binary Expression:",
            "      Operator: Multiply",
            "      Expression:",
            "        Parenthesized Expression:",
            "          Expression:",
            "            Binary Expression:",
            "              Operator: Plus",
            "              Expression:",
            "                Number: 1",
            "              Expression:",
            "                Number: 2",
            "      Expression:",
            "        Number: 3",
        ]
    );
}

#[test]
fn negative_numbers_are_rendered_with_a_sign() {
    let mut ast = Ast::new();
    let operator = ASTBinaryOperator::new(
        ASTBinaryOperatorKind::Divide,
        Token::new(TokenKind::Slash, TextSpan::new(0, 1, "/".to_string())),
    );
    ast.add_statement(ASTStatement::expression(ASTExpression::binary(
        operator,
        ASTExpression::number(-42),
        ASTExpression::number(1234567),
    )));
    assert_eq!(
        ast.visualize(),
        vec![
            "Statement:",
            "  Expression:",
            "    Binary Expression:",
            "      Operator: Divide",
            "      Expression:",
            "        Number: -42",
            "      Expression:",
            "        Number: 1234567",
        ]
    );
}

#[test]
fn every_statement_is_rendered_in_order() {
    let ast = parse_all("1 2");
    assert_eq!(
        ast.visualize(),
        vec!["Statement:", "  Expression:", "    Number: 1", "Statement:", "  Expression:", "    Number: 2"]
    );
}

#[test]
fn visiting_a_program_leaves_the_last_value() {
    let ast = parse_all("1 + 1 7 - (30 + 7) * 8 / 2");
    let mut evaluator = ASTEvaluator::new();
    ast.visit(&mut evaluator);
    assert_eq!(evaluator.last_value, Some(-141));
    assert_eq!(evaluator.error, None);
}

#[test]
fn empty_program_renders_nothing() {
    assert!(Ast::new().visualize().is_empty());
}
