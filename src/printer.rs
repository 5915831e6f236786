//! The printer: a visitor that renders a tree as indented lines of text.
//! The rendering is for people to read; it is not input that the parser
//! accepts, so printing and parsing again is no round trip.
use vstd::prelude::*;
use vstd::string::*;
use crate::lexer::decimal;
use crate::ast::{
    size, statement_expression, is_visit_trace, ASTBinaryExpression,
    ASTBinaryOperatorKind, ASTExpression, ASTExpressionKind, ASTNumberExpression, ASTStatement,
    ASTStatementKind, ASTVisitor, Ast, ParenthesizedExpression,
};

verus! {

/// How many spaces each level of the tree adds.
pub const LEVEL_INDENT: usize = 2;

pub open spec fn spaces(n: nat) -> Seq<char> {
    Seq::new(n, |i: int| ' ')
}

/// The indentation one level down, held at `usize::MAX`.
pub open spec fn deeper(indent: usize) -> usize {
    if indent <= usize::MAX - LEVEL_INDENT {
        (indent + LEVEL_INDENT) as usize
    } else {
        usize::MAX
    }
}

pub open spec fn line(indent: usize, text: Seq<char>) -> Seq<char> {
    spaces(indent as nat) + text
}

/// The decimal numeral of an integer, with a minus sign when negative.
pub open spec fn signed_decimal(n: int) -> Seq<char> {
    if n < 0 {
        seq!['-'] + decimal((-n) as nat)
    } else {
        decimal(n as nat)
    }
}

pub open spec fn operator_name(kind: ASTBinaryOperatorKind) -> Seq<char> {
    match kind {
        ASTBinaryOperatorKind::Plus => "Plus"@,
        ASTBinaryOperatorKind::Minus => "Minus"@,
        ASTBinaryOperatorKind::Multiply => "Multiply"@,
        ASTBinaryOperatorKind::Divide => "Divide"@,
    }
}

pub open spec fn number_lines(number: ASTNumberExpression, indent: usize) -> Seq<Seq<char>> {
    seq![line(indent, "Number: "@ + signed_decimal(number.number as int))]
}

/// The lines for a node of any kind, without its "Expression:" header.
pub open spec fn kind_lines(e: ASTExpression, indent: usize) -> Seq<Seq<char>>
    decreases size(e), 0nat,
{
    match e.kind {
        ASTExpressionKind::Number(n) => number_lines(n, indent),
        ASTExpressionKind::Binary(b) => seq![
            line(indent, "Binary Expression:"@),
            line(deeper(indent), "Operator: "@ + operator_name(b.operator.kind)),
        ] + expression_lines(*b.left, deeper(indent)) + expression_lines(*b.right, deeper(indent)),
        ASTExpressionKind::Parenthesized(p) => seq![line(indent, "Parenthesized Expression:"@)]
            + expression_lines(*p.expression, deeper(indent)),
    }
}

pub open spec fn expression_lines(e: ASTExpression, indent: usize) -> Seq<Seq<char>>
    decreases size(e), 1nat,
{
    seq![line(indent, "Expression:"@)] + kind_lines(e, deeper(indent))
}

pub open spec fn statement_lines(s: ASTStatement, indent: usize) -> Seq<Seq<char>> {
    seq![line(indent, "Statement:"@)] + expression_lines(statement_expression(s), deeper(indent))
}

/// The lines for a whole program, statement after statement.
pub open spec fn program_lines(statements: Seq<ASTStatement>, indent: usize) -> Seq<Seq<char>>
    decreases statements.len(),
{
    if statements.len() == 0 {
        Seq::empty()
    } else {
        program_lines(statements.drop_last(), indent) + statement_lines(statements.last(), indent)
    }
}

/// Relies on `i64`'s `to_string`: the decimal numeral, with a leading minus
/// sign when negative.
#[verifier::external_body]
fn decimal_text(n: i64) -> (r: String)
    ensures
        r@ == signed_decimal(n as int),
{
    n.to_string()
}

/// Collects the rendering line by line, at the current indentation.
pub struct ASTPrinter {
    indent: usize,
    lines: Vec<String>,
}

impl ASTPrinter {
    pub closed spec fn indent(&self) -> usize {
        self.indent
    }

    /// The lines written so far.
    pub closed spec fn output(&self) -> Seq<Seq<char>> {
        self.lines@.map_values(|l: String| l@)
    }

    pub fn new() -> (r: Self)
        ensures
            r.indent() == 0,
            r.output() == Seq::<Seq<char>>::empty(),
    {
        let r = ASTPrinter { indent: 0, lines: Vec::new() };
        proof {
            assert(r.output() =~= Seq::<Seq<char>>::empty());
        }
        r
    }

    /// The lines written so far, handed over.
    pub fn into_lines(self) -> (r: Vec<String>)
        ensures
            r@.map_values(|l: String| l@) == self.output(),
    {
        self.lines
    }

    fn print_with_indent(&mut self, text: &str)
        ensures
            final(self).indent() == old(self).indent(),
            final(self).output() == old(self).output().push(line(old(self).indent(), text@)),
    {
        let mut l = String::new();
        let mut i: usize = 0;
        while i < self.indent
            invariant
                i <= self.indent,
                l@ == spaces(i as nat),
            decreases self.indent - i,
        {
            l.append(" ");
            proof {
                reveal_strlit(" ");
                assert(l@ =~= spaces(i as nat + 1));
            }
            i = i + 1;
        }
        l.append(text);
        self.lines.push(l);
        proof {
            assert(self.output() =~= old(self).output().push(line(old(self).indent(), text@)));
        }
    }

    fn indent_more(&mut self)
        ensures
            final(self).indent() == deeper(old(self).indent()),
            final(self).output() == old(self).output(),
    {
        self.indent = if self.indent <= usize::MAX - LEVEL_INDENT {
            self.indent + LEVEL_INDENT
        } else {
            usize::MAX
        };
    }
}

fn operator_text(kind: ASTBinaryOperatorKind) -> (r: &'static str)
    ensures
        r@ == operator_name(kind),
{
    match kind {
        ASTBinaryOperatorKind::Plus => "Plus",
        ASTBinaryOperatorKind::Minus => "Minus",
        ASTBinaryOperatorKind::Multiply => "Multiply",
        ASTBinaryOperatorKind::Divide => "Divide",
    }
}

impl ASTVisitor for ASTPrinter {
    open spec fn visited_statement(self, statement: ASTStatement, after: Self) -> bool {
        &&& after.indent() == self.indent()
        &&& after.output() == self.output() + statement_lines(statement, self.indent())
    }

    open spec fn visited_expression(self, expression: ASTExpression, after: Self) -> bool {
        &&& after.indent() == self.indent()
        &&& after.output() == self.output() + expression_lines(expression, self.indent())
    }

    open spec fn visited_number(self, number: ASTNumberExpression, after: Self) -> bool {
        &&& after.indent() == self.indent()
        &&& after.output() == self.output() + number_lines(number, self.indent())
    }

    open spec fn visited_binary(self, expression: ASTBinaryExpression, after: Self) -> bool {
        &&& after.indent() == self.indent()
        &&& after.output() == self.output() + kind_lines(
            ASTExpression { kind: ASTExpressionKind::Binary(expression) },
            self.indent(),
        )
    }

    open spec fn visited_parenthesized(self, expression: ParenthesizedExpression, after: Self) -> bool {
        &&& after.indent() == self.indent()
        &&& after.output() == self.output() + kind_lines(
            ASTExpression { kind: ASTExpressionKind::Parenthesized(expression) },
            self.indent(),
        )
    }

    fn visit_statement(&mut self, statement: &ASTStatement) {
        let saved = self.indent;
        self.print_with_indent("Statement:");
        self.indent_more();
        match &statement.kind {
            ASTStatementKind::Expression(expression) => self.visit_expression(expression),
        }
        self.indent = saved;
        proof {
            assert(self.output() =~= old(self).output() + statement_lines(*statement, old(self).indent()));
        }
    }

    fn visit_expression(&mut self, expression: &ASTExpression)
        decreases size(*expression), 1nat,
    {
        let saved = self.indent;
        self.print_with_indent("Expression:");
        self.indent_more();
        match &expression.kind {
            ASTExpressionKind::Number(number) => self.visit_number(number),
            ASTExpressionKind::Binary(binary) => self.visit_binary_expression(binary),
            ASTExpressionKind::Parenthesized(inner) => self.visit_parenthesized_expression(inner),
        }
        self.indent = saved;
        proof {
            assert(self.output() =~= old(self).output() + expression_lines(*expression, old(self).indent()));
        }
    }

    fn visit_number(&mut self, number: &ASTNumberExpression) {
        let mut text = String::from_str("Number: ");
        let digits = decimal_text(number.number);
        text.append(digits.as_str());
        self.print_with_indent(text.as_str());
        proof {
            assert(self.output() =~= old(self).output() + number_lines(*number, old(self).indent()));
        }
    }

    fn visit_binary_expression(&mut self, binary_expression: &ASTBinaryExpression)
        decreases size(ASTExpression { kind: ASTExpressionKind::Binary(*binary_expression) }), 0nat,
    {
        let saved = self.indent;
        self.print_with_indent("Binary Expression:");
        self.indent_more();
        let mut text = String::from_str("Operator: ");
        text.append(operator_text(binary_expression.operator.kind));
        self.print_with_indent(text.as_str());
        self.visit_expression(&binary_expression.left);
        self.visit_expression(&binary_expression.right);
        self.indent = saved;
        proof {
            assert(self.output() =~= old(self).output() + kind_lines(
                ASTExpression { kind: ASTExpressionKind::Binary(*binary_expression) },
                old(self).indent(),
            ));
        }
    }

    fn visit_parenthesized_expression(&mut self, parenthesized_expression: &ParenthesizedExpression)
        decreases size(ASTExpression { kind: ASTExpressionKind::Parenthesized(*parenthesized_expression) }), 0nat,
    {
        let saved = self.indent;
        self.print_with_indent("Parenthesized Expression:");
        self.indent_more();
        self.visit_expression(&parenthesized_expression.expression);
        self.indent = saved;
        proof {
            assert(self.output() =~= old(self).output() + kind_lines(
                ASTExpression { kind: ASTExpressionKind::Parenthesized(*parenthesized_expression) },
                old(self).indent(),
            ));
        }
    }
}

/// A printer run over `statements` adds their lines, in order, at its
/// indentation.
pub proof fn lemma_printer_trace(p: ASTPrinter, statements: Seq<ASTStatement>, trace: Seq<ASTPrinter>, k: int)
    requires
        is_visit_trace(p, statements, trace),
        0 <= k <= statements.len(),
    ensures
        trace[k].indent() == p.indent(),
        trace[k].output() == p.output() + program_lines(statements.subrange(0, k), p.indent()),
    decreases k,
{
    if k == 0 {
        assert(p.output() + program_lines(statements.subrange(0, 0), p.indent()) =~= p.output());
    } else {
        lemma_printer_trace(p, statements, trace, k - 1);
        let j = k - 1;
        assert(trace[j].visited_statement(statements[j], trace[j + 1]));
        assert(statements.subrange(0, k).drop_last() =~= statements.subrange(0, k - 1));
        assert(trace[k].output() =~= p.output() + program_lines(statements.subrange(0, k), p.indent()));
    }
}

impl Ast {
    /// The program rendered as an indented tree, one line per entry.
    pub fn visualize(&self) -> (r: Vec<String>)
        ensures
            r@.map_values(|l: String| l@) == program_lines(self.statements@, 0),
    {
        let mut printer = ASTPrinter::new();
        let ghost start = printer;
        self.visit(&mut printer);
        proof {
            let trace = choose|trace: Seq<ASTPrinter>|
                #[trigger] is_visit_trace(start, self.statements@, trace) && trace.last() == printer;
            lemma_printer_trace(start, self.statements@, trace, self.statements@.len() as int);
            assert(self.statements@.subrange(0, self.statements@.len() as int) =~= self.statements@);
            assert(printer.output() =~= program_lines(self.statements@, 0));
        }
        printer.into_lines()
    }
}

} // verus!
