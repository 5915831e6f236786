//! Laws of the scanner and the parser, stated over their models and proved.
use vstd::prelude::*;
use crate::lexer::{
    decimal, decimal_value, digit_run_end, is_decimal_digit, is_eof_token, is_scan_of,
    lemma_token_end_bounds, scanned, token_end, token_is, token_kind, unicode_white_space, Token,
    TokenKind, digit_value, digit_char,
};
use crate::ast::ASTExpression;
use crate::parser::{parse_binary, significant, ParseErrorKind};

verus! {

proof fn lemma_decimal_digits(n: nat)
    ensures
        decimal(n).len() > 0,
        forall|k: int| 0 <= k < decimal(n).len() ==> is_decimal_digit(#[trigger] decimal(n)[k]),
        decimal_value(decimal(n)) == n,
    decreases n,
{
    let d = digit_char(n % 10);
    assert(is_decimal_digit(d) && digit_value(d) == n % 10);
    if n >= 10 {
        lemma_decimal_digits(n / 10);
        let s = decimal(n);
        assert(s.drop_last() =~= decimal(n / 10));
        assert(s.last() == d);
        assert(decimal_value(s) == decimal_value(s.drop_last()) * 10 + digit_value(d));
        assert((n / 10) * 10 + n % 10 == n) by (nonlinear_arith);
    } else {
        let s = decimal(n);
        assert(s.drop_last() =~= Seq::<char>::empty());
        assert(decimal_value(Seq::<char>::empty()) == 0);
        assert(s.last() == d);
        assert(decimal_value(s) == decimal_value(s.drop_last()) * 10 + digit_value(d));
    }
}

proof fn lemma_digit_run_to_end(s: Seq<char>, i: int)
    requires
        0 <= i <= s.len(),
        forall|k: int| i <= k < s.len() ==> is_decimal_digit(#[trigger] s[k]),
    ensures
        digit_run_end(s, i) == s.len(),
    decreases s.len() - i,
{
    if i < s.len() {
        lemma_digit_run_to_end(s, i + 1);
    }
}

/// Scanning the numeral of a number that fits in an `i64` yields one number
/// token, of that value and spanning the whole numeral, then the
/// end-of-input token.
pub proof fn scanning_a_numeral(n: nat, tokens: Seq<Token>)
    requires
        n <= i64::MAX,
        is_scan_of(tokens, decimal(n)),
    ensures
        tokens.len() == 2,
        token_is(tokens[0], TokenKind::Number(n as i64), 0, decimal(n).len() as int, decimal(n)),
        is_eof_token(tokens[1]),
{
    let s = decimal(n);
    lemma_decimal_digits(n);
    lemma_digit_run_to_end(s, 0);
    assert(s.subrange(0, s.len() as int) =~= s);
    assert(scanned(s, s.len() as int) =~= Seq::<(TokenKind, int, int)>::empty());
    assert(scanned(s, 0) =~= seq![(TokenKind::Number(n as i64), 0, s.len() as int)]);
    assert(token_is(tokens[0], scanned(s, 0)[0].0, scanned(s, 0)[0].1, scanned(s, 0)[0].2, s.subrange(0, s.len() as int)));
}

/// Scanning empty text yields the end-of-input token and nothing else.
pub proof fn scanning_empty_text(tokens: Seq<Token>)
    requires
        is_scan_of(tokens, Seq::<char>::empty()),
    ensures
        tokens.len() == 1,
        is_eof_token(tokens[0]),
{
}

/// The texts of `tokens`, one after another.
pub open spec fn joined_literals(tokens: Seq<Token>) -> Seq<char>
    decreases tokens.len(),
{
    if tokens.len() == 0 {
        Seq::empty()
    } else {
        tokens[0].span.literal@ + joined_literals(tokens.subrange(1, tokens.len() as int))
    }
}

spec fn scanned_text(s: Seq<char>, ts: Seq<(TokenKind, int, int)>) -> Seq<char>
    decreases ts.len(),
{
    if ts.len() == 0 {
        Seq::empty()
    } else {
        s.subrange(ts[0].1, ts[0].2) + scanned_text(s, ts.subrange(1, ts.len() as int))
    }
}

/// Every token of a scan from `i` starts at a character offset at or after
/// `i` and has the kind and end that the scanner gives that offset.
proof fn lemma_scanned_items(s: Seq<char>, i: int)
    requires
        0 <= i <= s.len(),
    ensures
        forall|k: int|
            0 <= k < scanned(s, i).len() ==> {
                let item = #[trigger] scanned(s, i)[k];
                &&& i <= item.1 < s.len()
                &&& item.0 == token_kind(s, item.1)
                &&& item.2 == token_end(s, item.1)
            },
    decreases s.len() - i,
{
    if i < s.len() {
        lemma_token_end_bounds(s, i);
        lemma_scanned_items(s, token_end(s, i));
        let rest = scanned(s, token_end(s, i));
        assert forall|k: int| 1 <= k < scanned(s, i).len() implies scanned(s, i)[k] == rest[k - 1] by {}
    }
}

proof fn lemma_scanned_text(s: Seq<char>, i: int)
    requires
        0 <= i <= s.len(),
    ensures
        scanned_text(s, scanned(s, i)) == s.subrange(i, s.len() as int),
    decreases s.len() - i,
{
    if i < s.len() {
        let e = token_end(s, i);
        lemma_token_end_bounds(s, i);
        lemma_scanned_text(s, e);
        let ts = scanned(s, i);
        assert(ts.subrange(1, ts.len() as int) =~= scanned(s, e));
        assert(s.subrange(i, e) + s.subrange(e, s.len() as int) =~= s.subrange(i, s.len() as int));
    } else {
        assert(s.subrange(i, s.len() as int) =~= Seq::<char>::empty());
    }
}

proof fn lemma_joined(s: Seq<char>, ts: Seq<(TokenKind, int, int)>, tokens: Seq<Token>)
    requires
        tokens.len() == ts.len(),
        forall|k: int| 0 <= k < ts.len() ==> (#[trigger] tokens[k]).span.literal@ == s.subrange(ts[k].1, ts[k].2),
    ensures
        joined_literals(tokens) == scanned_text(s, ts),
    decreases ts.len(),
{
    if ts.len() > 0 {
        let rest_ts = ts.subrange(1, ts.len() as int);
        let rest = tokens.subrange(1, tokens.len() as int);
        assert forall|k: int| 0 <= k < rest_ts.len() implies (#[trigger] rest[k]).span.literal@ == s.subrange(rest_ts[k].1, rest_ts[k].2) by {
            assert(rest[k] == tokens[k + 1]);
        }
        lemma_joined(s, rest_ts, rest);
        assert(tokens[0].span.literal@ == s.subrange(ts[0].1, ts[0].2));
    }
}

/// The texts of all tokens but the end-of-input token, joined, give back
/// the scanned text.
pub proof fn literals_rebuild_input(s: Seq<char>, tokens: Seq<Token>)
    requires
        is_scan_of(tokens, s),
    ensures
        joined_literals(tokens.drop_last()) == s,
{
    let ts = scanned(s, 0);
    let body = tokens.drop_last();
    assert forall|k: int| 0 <= k < ts.len() implies (#[trigger] body[k]).span.literal@ == s.subrange(ts[k].1, ts[k].2) by {
        assert(token_is(tokens[k], ts[k].0, ts[k].1, ts[k].2, s.subrange(ts[k].1, ts[k].2)));
    }
    lemma_joined(s, ts, body);
    lemma_scanned_text(s, 0);
    assert(s.subrange(0, s.len() as int) =~= s);
}

proof fn lemma_significant_has_no_whitespace(tokens: Seq<Token>)
    ensures
        forall|k: int| 0 <= k < significant(tokens).len() ==> (#[trigger] significant(tokens)[k]).kind != TokenKind::Whitespace,
    decreases tokens.len(),
{
    if tokens.len() > 0 {
        lemma_significant_has_no_whitespace(tokens.drop_last());
    }
}

/// Each whitespace token of a scan covers exactly one whitespace character,
/// and the parser's filter keeps none of them.
pub proof fn whitespace_tokens_are_single_and_dropped(s: Seq<char>, tokens: Seq<Token>)
    requires
        is_scan_of(tokens, s),
    ensures
        forall|k: int|
            0 <= k < tokens.len() && (#[trigger] tokens[k]).kind == TokenKind::Whitespace ==> {
                &&& tokens[k].span.end == tokens[k].span.start + 1
                &&& tokens[k].span.start < s.len()
                &&& unicode_white_space(s[tokens[k].span.start as int])
            },
        forall|k: int| 0 <= k < significant(tokens).len() ==> (#[trigger] significant(tokens)[k]).kind != TokenKind::Whitespace,
{
    let ts = scanned(s, 0);
    lemma_scanned_items(s, 0);
    assert forall|k: int| 0 <= k < tokens.len() && (#[trigger] tokens[k]).kind == TokenKind::Whitespace implies {
        &&& tokens[k].span.end == tokens[k].span.start + 1
        &&& tokens[k].span.start < s.len()
        &&& unicode_white_space(s[tokens[k].span.start as int])
    } by {
        if k < ts.len() {
            assert(token_is(tokens[k], ts[k].0, ts[k].1, ts[k].2, s.subrange(ts[k].1, ts[k].2)));
            let item = ts[k];
            assert(!is_decimal_digit(s[item.1]));
        }
    }
    lemma_significant_has_no_whitespace(tokens);
}

proof fn lemma_whitespace_scan(s: Seq<char>, i: int)
    requires
        0 <= i <= s.len(),
        forall|k: int| 0 <= k < s.len() ==> #[trigger] token_kind(s, k) == TokenKind::Whitespace,
    ensures
        scanned(s, i) == Seq::new((s.len() - i) as nat, |j: int| (TokenKind::Whitespace, i + j, i + j + 1)),
    decreases s.len() - i,
{
    if i < s.len() {
        assert(token_kind(s, i) == TokenKind::Whitespace);
        lemma_whitespace_scan(s, i + 1);
        assert(scanned(s, i) =~= Seq::new((s.len() - i) as nat, |j: int| (TokenKind::Whitespace, i + j, i + j + 1)));
    } else {
        assert(scanned(s, i) =~= Seq::new((s.len() - i) as nat, |j: int| (TokenKind::Whitespace, i + j, i + j + 1)));
    }
}

proof fn lemma_significant_of_whitespace(tokens: Seq<Token>, n: int)
    requires
        0 <= n <= tokens.len(),
        forall|k: int| 0 <= k < n ==> (#[trigger] tokens[k]).kind == TokenKind::Whitespace,
    ensures
        significant(tokens.subrange(0, n)) == Seq::<Token>::empty(),
    decreases n,
{
    if n > 0 {
        lemma_significant_of_whitespace(tokens, n - 1);
        assert(tokens.subrange(0, n).drop_last() =~= tokens.subrange(0, n - 1));
    } else {
        assert(tokens.subrange(0, 0) =~= Seq::<Token>::empty());
    }
}

/// Text whose every character scans as whitespace gives one whitespace
/// token per character, and after the parser's filter only the
/// end-of-input token is left.
pub proof fn whitespace_runs_collapse(s: Seq<char>, tokens: Seq<Token>)
    requires
        is_scan_of(tokens, s),
        forall|k: int| 0 <= k < s.len() ==> #[trigger] token_kind(s, k) == TokenKind::Whitespace,
    ensures
        tokens.len() == s.len() + 1,
        forall|k: int|
            0 <= k < s.len() ==> #[trigger] token_is(tokens[k], TokenKind::Whitespace, k, k + 1, seq![s[k]]),
        significant(tokens) == seq![tokens.last()],
{
    lemma_whitespace_scan(s, 0);
    let ts = scanned(s, 0);
    assert forall|k: int| 0 <= k < s.len() implies #[trigger] token_is(tokens[k], TokenKind::Whitespace, k, k + 1, seq![s[k]]) by {
        assert(ts[k] == (TokenKind::Whitespace, k, k + 1));
        assert(token_is(tokens[k], ts[k].0, ts[k].1, ts[k].2, s.subrange(ts[k].1, ts[k].2)));
        assert(s.subrange(k, k + 1) =~= seq![s[k]]);
    }
    let n = s.len() as int;
    assert forall|k: int| 0 <= k < n implies (#[trigger] tokens[k]).kind == TokenKind::Whitespace by {
        assert(token_is(tokens[k], TokenKind::Whitespace, k, k + 1, seq![s[k]]));
    }
    lemma_significant_of_whitespace(tokens, n);
    assert(tokens.drop_last() =~= tokens.subrange(0, n));
    assert(significant(tokens) =~= seq![tokens.last()]);
}

/// There is no unary minus: an expression that starts with `-` is refused
/// as a missing operand at that token, whatever follows it.
pub proof fn leading_minus_is_rejected(tokens: Seq<Token>, pos: int, min: int)
    requires
        0 <= pos < tokens.len(),
        tokens[pos].kind == TokenKind::Minus,
    ensures
        parse_binary(tokens, pos, min) == Err::<(ASTExpression, int), (ParseErrorKind, int)>(
            (ParseErrorKind::ExpectedOperand, pos),
        ),
{
}

} // verus!
