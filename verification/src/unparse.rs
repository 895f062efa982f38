//! From trees back to tokens, and the proofs that parsing and this are
//! inverse to each other.
//!
//! Each tree has a canonical token sequence: its operators and parentheses
//! where the grammar puts them, its constants as decimal literals. Parsing
//! that sequence gives the tree back, whatever follows it, as long as what
//! follows could not continue the tree. In the other direction, the tokens
//! that the parser consumes for a tree are the tree's tokens, up to the
//! spelling of literals and to text that a token carries without need.

use crate::lexer::{Integer, Keyword, Operator, Symbol, TokenType, TokenView};
use crate::parser::{
    exp_wf, factor_wf, keyword, lemma_parsing_consumes, program_wf, spec_exp_tail, spec_expect,
    spec_expect_header, spec_expect_name, spec_parse, spec_parse_exp, spec_parse_factor,
    spec_parse_fn, spec_parse_statement, spec_parse_term, spec_term_tail, starts_additive,
    starts_multiplicative, symbol, term_wf, Expression, Factor, FunctionView, ParseErrorView,
    ProgramView, Statement, Term,
};
use crate::text::{decimal_text, lemma_decimal_literal, literal_value};
use vstd::prelude::*;

verus! {

/// A token without text.
pub open spec fn bare(ttype: TokenType) -> TokenView {
    TokenView { ttype, value: None }
}

/// The token of an operator.
pub open spec fn operator_token(op: Operator) -> TokenView {
    bare(TokenType::Operator { otype: op })
}

/// The decimal literal that writes `n`.
pub open spec fn constant_token(n: u32) -> TokenView {
    TokenView {
        ttype: TokenType::Integer { itype: Integer::Decimal },
        value: Some(decimal_text(n as nat)),
    }
}

/// The identifier with the given text.
pub open spec fn name_token(name: Seq<char>) -> TokenView {
    TokenView { ttype: TokenType::Identifier, value: Some(name) }
}

/// The tokens of a factor.
pub open spec fn factor_tokens(factor: Factor) -> Seq<TokenView>
    decreases factor,
{
    match factor {
        Factor::Expression(exp) => seq![bare(symbol(Symbol::LeftParenthesis))] + exp_tokens(*exp)
            + seq![bare(symbol(Symbol::RightParenthesis))],
        Factor::UnaryOperation { operator, factor } => seq![operator_token(operator)]
            + factor_tokens(*factor),
        Factor::Const(n) => seq![constant_token(n)],
    }
}

/// The tokens of a term.
pub open spec fn term_tokens(term: Term) -> Seq<TokenView>
    decreases term,
{
    match term {
        Term::Factor(factor) => factor_tokens(factor),
        Term::BinaryOperation { left, operator, right } => term_tokens(*left) + seq![
            operator_token(operator),
        ] + factor_tokens(right),
    }
}

/// The tokens of an expression.
pub open spec fn exp_tokens(exp: Expression) -> Seq<TokenView>
    decreases exp,
{
    match exp {
        Expression::Term(term) => term_tokens(term),
        Expression::BinaryOperation { left, operator, right } => exp_tokens(*left) + seq![
            operator_token(operator),
        ] + term_tokens(right),
    }
}

/// The tokens of a statement: `return`, the expression, `;`.
pub open spec fn statement_tokens(stmt: Statement) -> Seq<TokenView> {
    match stmt {
        Statement::Return(exp) => seq![bare(keyword(Keyword::Return))] + exp_tokens(exp) + seq![
            bare(symbol(Symbol::Semicolon)),
        ],
    }
}

/// The tokens of a program: `int`, the name, `(`, `)`, `{`, the statement, `}`.
pub open spec fn program_tokens(prog: ProgramView) -> Seq<TokenView> {
    seq![
        bare(keyword(Keyword::Int)),
        name_token(prog.function.name),
        bare(symbol(Symbol::LeftParenthesis)),
        bare(symbol(Symbol::RightParenthesis)),
        bare(symbol(Symbol::LeftBrace)),
    ] + statement_tokens(prog.function.statement) + seq![bare(symbol(Symbol::RightBrace))]
}

/// Parsing the tokens of a well-formed factor gives the factor back and
/// leaves what follows.
pub proof fn lemma_factor_round_trip(factor: Factor, rest: Seq<TokenView>)
    requires
        factor_wf(factor),
    ensures
        spec_parse_factor(factor_tokens(factor) + rest) == (
            Ok::<Factor, ParseErrorView>(factor),
            rest,
        ),
    decreases factor, 0nat,
{
    let ts = factor_tokens(factor) + rest;
    match factor {
        Factor::Expression(exp) => {
            let close = seq![bare(symbol(Symbol::RightParenthesis))];
            assert(ts.skip(1) =~= exp_tokens(*exp) + (close + rest));
            lemma_exp_round_trip(*exp, close + rest);
        },
        Factor::UnaryOperation { operator, factor: operand } => {
            assert(ts.skip(1) =~= factor_tokens(*operand) + rest);
            lemma_factor_round_trip(*operand, rest);
        },
        Factor::Const(n) => {
            lemma_decimal_literal(n);
        },
    }
}

/// Parsing the tokens of a well-formed term and what follows is continuing
/// that term with what follows.
pub proof fn lemma_term_prefix(term: Term, rest: Seq<TokenView>)
    requires
        term_wf(term),
    ensures
        spec_parse_term(term_tokens(term) + rest) == spec_term_tail(term, rest),
    decreases term, 1nat,
{
    match term {
        Term::Factor(factor) => {
            lemma_factor_round_trip(factor, rest);
        },
        Term::BinaryOperation { left, operator, right } => {
            let tail = seq![operator_token(operator)] + (factor_tokens(right) + rest);
            assert(term_tokens(term) + rest =~= term_tokens(*left) + tail);
            lemma_term_prefix(*left, tail);
            assert(tail.skip(1) =~= factor_tokens(right) + rest);
            lemma_factor_round_trip(right, rest);
        },
    }
}

/// Parsing the tokens of a well-formed term gives the term back and leaves
/// what follows, unless that starts with `*` or `/`.
pub proof fn lemma_term_round_trip(term: Term, rest: Seq<TokenView>)
    requires
        term_wf(term),
        !starts_multiplicative(rest),
    ensures
        spec_parse_term(term_tokens(term) + rest) == (Ok::<Term, ParseErrorView>(term), rest),
    decreases term, 2nat,
{
    lemma_term_prefix(term, rest);
}

/// Parsing the tokens of a well-formed expression and what follows is
/// continuing that expression with what follows, unless that starts with `*`
/// or `/`.
pub proof fn lemma_exp_prefix(exp: Expression, rest: Seq<TokenView>)
    requires
        exp_wf(exp),
        !starts_multiplicative(rest),
    ensures
        spec_parse_exp(exp_tokens(exp) + rest) == spec_exp_tail(exp, rest),
    decreases exp, 3nat,
{
    match exp {
        Expression::Term(term) => {
            lemma_term_round_trip(term, rest);
        },
        Expression::BinaryOperation { left, operator, right } => {
            let tail = seq![operator_token(operator)] + (term_tokens(right) + rest);
            assert(exp_tokens(exp) + rest =~= exp_tokens(*left) + tail);
            lemma_exp_prefix(*left, tail);
            assert(tail.skip(1) =~= term_tokens(right) + rest);
            lemma_term_round_trip(right, rest);
        },
    }
}

/// Parsing the tokens of a well-formed expression gives the expression back
/// and leaves what follows, unless that starts with a binary operator.
pub proof fn lemma_exp_round_trip(exp: Expression, rest: Seq<TokenView>)
    requires
        exp_wf(exp),
        !starts_multiplicative(rest),
        !starts_additive(rest),
    ensures
        spec_parse_exp(exp_tokens(exp) + rest) == (
            Ok::<Expression, ParseErrorView>(exp),
            rest,
        ),
    decreases exp, 4nat,
{
    lemma_exp_prefix(exp, rest);
}

/// Parsing the tokens of a well-formed program gives the program back,
/// whatever follows its closing brace.
pub proof fn lemma_program_round_trip(prog: ProgramView, rest: Seq<TokenView>)
    requires
        program_wf(prog),
    ensures
        spec_parse(program_tokens(prog) + rest) == Ok::<ProgramView, ParseErrorView>(prog),
{
    let ts = program_tokens(prog) + rest;
    let Statement::Return(exp) = prog.function.statement;
    let close = seq![bare(symbol(Symbol::Semicolon)), bare(symbol(Symbol::RightBrace))] + rest;
    let after_int = ts.skip(1);
    let after_name = after_int.skip(1);
    let after_open = after_name.skip(1);
    let after_close = after_open.skip(1);
    let body = after_close.skip(1);
    let after_return = body.skip(1);
    assert(after_return =~= exp_tokens(exp) + close);
    lemma_exp_round_trip(exp, close);
}

/// The canonical form of a token: an integer literal that denotes a
/// constant is written in decimal, an identifier stays as it is, and every
/// other token carries no text.
pub open spec fn canonical_token(token: TokenView) -> TokenView {
    match token.ttype {
        TokenType::Integer { itype } => match token.value {
            Some(text) => match literal_value(itype, text) {
                Some(n) => constant_token(n),
                None => token,
            },
            None => token,
        },
        TokenType::Identifier => token,
        _ => bare(token.ttype),
    }
}

/// The canonical forms of a sequence of tokens.
pub open spec fn canonical(ts: Seq<TokenView>) -> Seq<TokenView> {
    ts.map_values(|t: TokenView| canonical_token(t))
}

/// `rest` is what is left of `ts` after tokens were taken from its front.
pub open spec fn leaves(ts: Seq<TokenView>, rest: Seq<TokenView>) -> bool {
    rest.len() <= ts.len() && ts.skip(ts.len() - rest.len()) == rest
}

/// The tokens taken from the front of `ts` when `rest` is left.
pub open spec fn consumed(ts: Seq<TokenView>, rest: Seq<TokenView>) -> Seq<TokenView> {
    ts.take(ts.len() - rest.len())
}

/// Taking tokens twice is taking both parts at once.
proof fn lemma_consumed_twice(ts: Seq<TokenView>, mid: Seq<TokenView>, rest: Seq<TokenView>)
    requires
        leaves(ts, mid),
        leaves(mid, rest),
    ensures
        leaves(ts, rest),
        canonical(consumed(ts, rest)) == canonical(consumed(ts, mid)) + canonical(
            consumed(mid, rest),
        ),
{
    assert(ts.skip(ts.len() - rest.len()) =~= mid.skip(mid.len() - rest.len()));
}

/// Taking the first token.
proof fn lemma_consumed_first(ts: Seq<TokenView>)
    requires
        ts.len() > 0,
    ensures
        leaves(ts, ts.skip(1)),
        canonical(consumed(ts, ts.skip(1))) == seq![canonical_token(ts[0])],
{
}

/// Taking nothing.
proof fn lemma_consumed_nothing(ts: Seq<TokenView>)
    ensures
        leaves(ts, ts),
        canonical(consumed(ts, ts)) == Seq::<TokenView>::empty(),
{
    assert(ts.skip(0) =~= ts);
}

/// What the parser consumes for a tree is the tree's tokens: where parsing
/// succeeds, the tokens left are the end of the input, and the tokens before
/// them are, in canonical form, the tokens of the tree that was built.
pub proof fn lemma_parsed_from_its_tokens(ts: Seq<TokenView>)
    ensures
        spec_parse_factor(ts) matches (Ok(factor), rest) ==> leaves(ts, rest) && canonical(
            consumed(ts, rest),
        ) == factor_tokens(factor),
        spec_parse_term(ts) matches (Ok(term), rest) ==> leaves(ts, rest) && canonical(
            consumed(ts, rest),
        ) == term_tokens(term),
        spec_parse_exp(ts) matches (Ok(exp), rest) ==> leaves(ts, rest) && canonical(
            consumed(ts, rest),
        ) == exp_tokens(exp),
    decreases ts.len(), 1nat,
{
    lemma_parsing_consumes(ts);
    if let (Ok(factor), rest) = spec_parse_factor(ts) {
        let inner = ts.skip(1);
        lemma_consumed_first(ts);
        lemma_parsed_from_its_tokens(inner);
        match factor {
            Factor::Expression(exp) => {
                let after = spec_parse_exp(inner).1;
                lemma_consumed_first(after);
                lemma_consumed_twice(ts, inner, after);
                lemma_consumed_twice(ts, after, rest);
            },
            Factor::UnaryOperation { operator, factor: operand } => {
                lemma_consumed_twice(ts, inner, rest);
            },
            Factor::Const(n) => {},
        }
        assert(canonical(consumed(ts, rest)) == factor_tokens(factor));
        lemma_consumed_nothing(rest);
        lemma_term_tail_from_its_tokens(Term::Factor(factor), rest);
        if let (Ok(term), after_term) = spec_parse_term(ts) {
            lemma_consumed_twice(ts, rest, after_term);
            lemma_consumed_nothing(after_term);
            lemma_exp_tail_from_its_tokens(Expression::Term(term), after_term);
            if let (Ok(exp), after_exp) = spec_parse_exp(ts) {
                lemma_consumed_twice(ts, after_term, after_exp);
            }
        }
    }
}

/// What continuing a term consumes is the tokens that the term gains.
pub proof fn lemma_term_tail_from_its_tokens(left: Term, ts: Seq<TokenView>)
    ensures
        spec_term_tail(left, ts) matches (Ok(term), rest) ==> leaves(ts, rest) && term_tokens(left)
            + canonical(consumed(ts, rest)) == term_tokens(term),
    decreases ts.len(), 0nat,
{
    lemma_consumed_nothing(ts);
    if starts_multiplicative(ts) {
        let inner = ts.skip(1);
        lemma_consumed_first(ts);
        lemma_parsed_from_its_tokens(inner);
        lemma_parsing_consumes(inner);
        if let (Ok(right), after) = spec_parse_factor(inner) {
            let longer = Term::BinaryOperation {
                left: Box::new(left),
                operator: ts[0].ttype->otype,
                right,
            };
            lemma_term_tail_from_its_tokens(longer, after);
            if let (Ok(term), rest) = spec_term_tail(longer, after) {
                lemma_consumed_twice(ts, inner, after);
                lemma_consumed_twice(ts, after, rest);
            }
        }
    }
}

/// What continuing an expression consumes is the tokens that the expression
/// gains.
pub proof fn lemma_exp_tail_from_its_tokens(left: Expression, ts: Seq<TokenView>)
    ensures
        spec_exp_tail(left, ts) matches (Ok(exp), rest) ==> leaves(ts, rest) && exp_tokens(left)
            + canonical(consumed(ts, rest)) == exp_tokens(exp),
    decreases ts.len(), 0nat,
{
    lemma_consumed_nothing(ts);
    if starts_additive(ts) {
        let inner = ts.skip(1);
        lemma_consumed_first(ts);
        lemma_parsed_from_its_tokens(inner);
        lemma_parsing_consumes(inner);
        if let (Ok(right), after) = spec_parse_term(inner) {
            let longer = Expression::BinaryOperation {
                left: Box::new(left),
                operator: ts[0].ttype->otype,
                right,
            };
            lemma_exp_tail_from_its_tokens(longer, after);
            if let (Ok(exp), rest) = spec_exp_tail(longer, after) {
                lemma_consumed_twice(ts, inner, after);
                lemma_consumed_twice(ts, after, rest);
            }
        }
    }
}

/// What the parser consumes for a program is the program's tokens: where
/// parsing succeeds, the tokens up to the function's closing brace are, in
/// canonical form, the tokens of the program that was built.
pub proof fn lemma_program_parsed_from_its_tokens(ts: Seq<TokenView>)
    ensures
        spec_parse_fn(ts) matches (Ok(function), rest) ==> leaves(ts, rest) && canonical(
            consumed(ts, rest),
        ) == program_tokens(ProgramView { function }),
{
    if let (Ok(function), rest) = spec_parse_fn(ts) {
        let Statement::Return(exp) = function.statement;
        let t1 = ts.skip(1);
        let t2 = t1.skip(1);
        let t3 = t2.skip(1);
        let t4 = t3.skip(1);
        let t5 = t4.skip(1);
        let t6 = t5.skip(1);
        let t7 = spec_parse_exp(t6).1;
        let t8 = t7.skip(1);
        lemma_parsed_from_its_tokens(t6);
        lemma_consumed_first(ts);
        lemma_consumed_first(t1);
        lemma_consumed_first(t2);
        lemma_consumed_first(t3);
        lemma_consumed_first(t4);
        lemma_consumed_first(t5);
        lemma_consumed_first(t7);
        lemma_consumed_first(t8);
        lemma_consumed_twice(ts, t1, t2);
        lemma_consumed_twice(ts, t2, t3);
        lemma_consumed_twice(ts, t3, t4);
        lemma_consumed_twice(ts, t4, t5);
        lemma_consumed_twice(ts, t5, t6);
        lemma_consumed_twice(ts, t6, t7);
        lemma_consumed_twice(ts, t7, t8);
        lemma_consumed_twice(ts, t8, rest);
    }
}

} // verus!
