//! The syntax tree and the recursive-descent parser that builds it.
//!
//! Operator precedence is part of the tree's shape: an [`Expression`] is a
//! chain of additive operators over [`Term`]s, a [`Term`] a chain of
//! multiplicative operators over [`Factor`]s. Both chains associate to the left.

use crate::lexer::{token_views, Keyword, Operator, Symbol, Token, TokenType, TokenView};
use crate::text::{decimal_text, decode_literal, literal_value, push_decimal};
use std::collections::VecDeque;
use vstd::prelude::*;
use vstd::string::*;

verus! {

/// A whole program: one function.
#[derive(Debug, PartialEq, Eq)]
pub struct Program {
    pub function: Function,
}

/// The only statement is `return`.
#[derive(Debug, PartialEq, Eq)]
pub enum Statement {
    Return(Expression),
}

/// A function without parameters and its single statement.
#[derive(Debug, PartialEq, Eq)]
pub struct Function {
    pub name: String,
    pub statement: Statement,
}

/// A term, or an addition or subtraction whose left operand is an expression.
#[derive(Debug, PartialEq, Eq)]
pub enum Expression {
    Term(Term),
    BinaryOperation { left: Box<Expression>, operator: Operator, right: Term },
}

/// A factor, or a multiplication or division whose left operand is a term.
#[derive(Debug, PartialEq, Eq)]
pub enum Term {
    Factor(Factor),
    BinaryOperation { left: Box<Term>, operator: Operator, right: Factor },
}

/// A parenthesized expression, a unary operation on a factor, or a constant.
#[derive(Debug, PartialEq, Eq)]
pub enum Factor {
    Expression(Box<Expression>),
    UnaryOperation { operator: Operator, factor: Box<Factor> },
    Const(u32),
}

/// The mathematical value of a [`Function`].
pub struct FunctionView {
    pub name: Seq<char>,
    pub statement: Statement,
}

/// The mathematical value of a [`Program`].
pub struct ProgramView {
    pub function: FunctionView,
}

impl View for Function {
    type V = FunctionView;

    open spec fn view(&self) -> FunctionView {
        FunctionView { name: self.name@, statement: self.statement }
    }
}

impl View for Program {
    type V = ProgramView;

    open spec fn view(&self) -> ProgramView {
        ProgramView { function: self.function@ }
    }
}

/// Why a token sequence is not a program.
#[derive(Debug, PartialEq, Eq)]
pub enum ParseError {
    /// A token of kind `expected` was required; `found` is the token met
    /// instead, `None` at the end of the input.
    UnexpectedToken { found: Option<Token>, expected: TokenType },
    /// A factor was required; `found` starts none, `None` at the end of the
    /// input.
    UnexpectedFactor { found: Option<Token> },
}

/// The mathematical value of a [`ParseError`].
pub enum ParseErrorView {
    UnexpectedToken { found: Option<TokenView>, expected: TokenType },
    UnexpectedFactor { found: Option<TokenView> },
}

impl View for ParseError {
    type V = ParseErrorView;

    open spec fn view(&self) -> ParseErrorView {
        match *self {
            ParseError::UnexpectedToken { found, expected } => ParseErrorView::UnexpectedToken {
                found: match found {
                    Some(t) => Some(t@),
                    None => None,
                },
                expected,
            },
            ParseError::UnexpectedFactor { found } => ParseErrorView::UnexpectedFactor {
                found: match found {
                    Some(t) => Some(t@),
                    None => None,
                },
            },
        }
    }
}

/// The outcome of a parsing step as a value: the node or the error's value.
pub open spec fn outcome<T>(r: Result<T, ParseError>) -> Result<T, ParseErrorView> {
    match r {
        Ok(node) => Ok(node),
        Err(e) => Err(e@),
    }
}

/// The outcome of parsing a function, as a value.
pub open spec fn function_outcome(r: Result<Function, ParseError>) -> Result<
    FunctionView,
    ParseErrorView,
> {
    match r {
        Ok(f) => Ok(f@),
        Err(e) => Err(e@),
    }
}

/// The outcome of parsing a program, as a value.
pub open spec fn program_outcome(r: Result<Program, ParseError>) -> Result<
    ProgramView,
    ParseErrorView,
> {
    match r {
        Ok(p) => Ok(p@),
        Err(e) => Err(e@),
    }
}

/// `op` joins terms into an expression: `+` or `-`.
pub open spec fn is_additive(op: Operator) -> bool {
    op == Operator::Plus || op == Operator::Negate
}

/// `op` joins factors into a term: `*` or `/`.
pub open spec fn is_multiplicative(op: Operator) -> bool {
    op == Operator::Star || op == Operator::Divide
}

/// `op` applies to a single factor: `-`, `~` or `!`.
pub open spec fn is_unary(op: Operator) -> bool {
    op == Operator::Negate || op == Operator::Not || op == Operator::Bang
}

/// Every operator of the factor stands where the grammar allows it.
pub open spec fn factor_wf(factor: Factor) -> bool
    decreases factor,
{
    match factor {
        Factor::Expression(exp) => exp_wf(*exp),
        Factor::UnaryOperation { operator, factor } => is_unary(operator) && factor_wf(*factor),
        Factor::Const(_) => true,
    }
}

/// Every operator of the term stands where the grammar allows it.
pub open spec fn term_wf(term: Term) -> bool
    decreases term,
{
    match term {
        Term::Factor(factor) => factor_wf(factor),
        Term::BinaryOperation { left, operator, right } => term_wf(*left) && is_multiplicative(
            operator,
        ) && factor_wf(right),
    }
}

/// Every operator of the expression stands where the grammar allows it: `+`
/// and `-` between terms, `*` and `/` between factors, `-`, `~` and `!`
/// before a factor.
pub open spec fn exp_wf(exp: Expression) -> bool
    decreases exp,
{
    match exp {
        Expression::Term(term) => term_wf(term),
        Expression::BinaryOperation { left, operator, right } => exp_wf(*left) && is_additive(
            operator,
        ) && term_wf(right),
    }
}

/// Every operator of the program stands where the grammar allows it.
pub open spec fn program_wf(prog: ProgramView) -> bool {
    match prog.function.statement {
        Statement::Return(exp) => exp_wf(exp),
    }
}

/// The token kind of a keyword.
pub open spec fn keyword(ktype: Keyword) -> TokenType {
    TokenType::Keyword { ktype }
}

/// The token kind of a symbol.
pub open spec fn symbol(stype: Symbol) -> TokenType {
    TokenType::Symbol { stype }
}

/// The first token is `+` or `-`.
pub open spec fn starts_additive(ts: Seq<TokenView>) -> bool {
    ts.len() > 0 && (ts[0].ttype matches TokenType::Operator { otype } && is_additive(otype))
}

/// The first token is `*` or `/`.
pub open spec fn starts_multiplicative(ts: Seq<TokenView>) -> bool {
    ts.len() > 0 && (ts[0].ttype matches TokenType::Operator { otype } && is_multiplicative(otype))
}

/// Requires that the next token has the kind `expected`, whatever its text,
/// and consumes it. Yields the error, if any, and the tokens that remain:
/// a token of another kind is consumed too and reported.
pub open spec fn spec_expect(ts: Seq<TokenView>, expected: TokenType) -> (
    Option<ParseErrorView>,
    Seq<TokenView>,
) {
    if ts.len() == 0 {
        (Some(ParseErrorView::UnexpectedToken { found: None, expected }), ts)
    } else if ts[0].ttype == expected {
        (None, ts.skip(1))
    } else {
        (Some(ParseErrorView::UnexpectedToken { found: Some(ts[0]), expected }), ts.skip(1))
    }
}

/// Parses one factor from the front of `ts`: a parenthesized expression, a
/// unary operator and its operand, or an integer literal whose text denotes a
/// 32-bit constant. Yields the factor or the error, and the tokens that remain.
pub open spec fn spec_parse_factor(ts: Seq<TokenView>) -> (
    Result<Factor, ParseErrorView>,
    Seq<TokenView>,
)
    decreases ts.len(), 0nat,
{
    if ts.len() == 0 {
        (Err(ParseErrorView::UnexpectedFactor { found: None }), ts)
    } else {
        let rest = ts.skip(1);
        let unexpected = (Err(ParseErrorView::UnexpectedFactor { found: Some(ts[0]) }), rest);
        match ts[0].ttype {
            TokenType::Symbol { stype: Symbol::LeftParenthesis } => match spec_parse_exp(rest) {
                (Ok(exp), after) => match spec_expect(after, symbol(Symbol::RightParenthesis)) {
                    (None, end) => (Ok(Factor::Expression(Box::new(exp))), end),
                    (Some(e), end) => (Err(e), end),
                },
                (Err(e), after) => (Err(e), after),
            },
            TokenType::Operator { otype } => if is_unary(otype) {
                match spec_parse_factor(rest) {
                    (Ok(factor), after) => (
                        Ok(Factor::UnaryOperation { operator: otype, factor: Box::new(factor) }),
                        after,
                    ),
                    (Err(e), after) => (Err(e), after),
                }
            } else {
                unexpected
            },
            TokenType::Integer { itype } => match ts[0].value {
                Some(text) => match literal_value(itype, text) {
                    Some(n) => (Ok(Factor::Const(n)), rest),
                    None => unexpected,
                },
                None => unexpected,
            },
            _ => unexpected,
        }
    }
}

/// Continues a term whose operands so far make up `left`: while the next token
/// is `*` or `/`, it and the factor after it extend the term to the right.
///
/// The test on the lengths always succeeds, since parsing never lengthens its
/// input ([`lemma_parsing_consumes`]); it makes the definition well-founded.
pub open spec fn spec_term_tail(left: Term, ts: Seq<TokenView>) -> (
    Result<Term, ParseErrorView>,
    Seq<TokenView>,
)
    decreases ts.len(), 1nat,
{
    if starts_multiplicative(ts) {
        match spec_parse_factor(ts.skip(1)) {
            (Ok(right), after) => if after.len() < ts.len() {
                spec_term_tail(
                    Term::BinaryOperation {
                        left: Box::new(left),
                        operator: ts[0].ttype->otype,
                        right,
                    },
                    after,
                )
            } else {
                (Ok(left), ts)
            },
            (Err(e), after) => (Err(e), after),
        }
    } else {
        (Ok(left), ts)
    }
}

/// Parses one term from the front of `ts`: a factor, then every `*` or `/`
/// with its right operand, grouped to the left.
pub open spec fn spec_parse_term(ts: Seq<TokenView>) -> (
    Result<Term, ParseErrorView>,
    Seq<TokenView>,
)
    decreases ts.len(), 2nat,
{
    match spec_parse_factor(ts) {
        (Ok(first), after) => if after.len() <= ts.len() {
            spec_term_tail(Term::Factor(first), after)
        } else {
            (Ok(Term::Factor(first)), after)
        },
        (Err(e), after) => (Err(e), after),
    }
}

/// Continues an expression whose operands so far make up `left`: while the
/// next token is `+` or `-`, it and the term after it extend the expression to
/// the right.
///
/// The test on the lengths always succeeds ([`lemma_parsing_consumes`]).
pub open spec fn spec_exp_tail(left: Expression, ts: Seq<TokenView>) -> (
    Result<Expression, ParseErrorView>,
    Seq<TokenView>,
)
    decreases ts.len(), 3nat,
{
    if starts_additive(ts) {
        match spec_parse_term(ts.skip(1)) {
            (Ok(right), after) => if after.len() < ts.len() {
                spec_exp_tail(
                    Expression::BinaryOperation {
                        left: Box::new(left),
                        operator: ts[0].ttype->otype,
                        right,
                    },
                    after,
                )
            } else {
                (Ok(left), ts)
            },
            (Err(e), after) => (Err(e), after),
        }
    } else {
        (Ok(left), ts)
    }
}

/// Parses one expression from the front of `ts`: a term, then every `+` or `-`
/// with its right operand, grouped to the left.
pub open spec fn spec_parse_exp(ts: Seq<TokenView>) -> (
    Result<Expression, ParseErrorView>,
    Seq<TokenView>,
)
    decreases ts.len(), 4nat,
{
    match spec_parse_term(ts) {
        (Ok(first), after) => if after.len() <= ts.len() {
            spec_exp_tail(Expression::Term(first), after)
        } else {
            (Ok(Expression::Term(first)), after)
        },
        (Err(e), after) => (Err(e), after),
    }
}

/// Parses `return`, an expression and `;`.
pub open spec fn spec_parse_statement(ts: Seq<TokenView>) -> (
    Result<Statement, ParseErrorView>,
    Seq<TokenView>,
) {
    match spec_expect(ts, keyword(Keyword::Return)) {
        (Some(e), after) => (Err(e), after),
        (None, after) => match spec_parse_exp(after) {
            (Err(e), rest) => (Err(e), rest),
            (Ok(exp), rest) => match spec_expect(rest, symbol(Symbol::Semicolon)) {
                (Some(e), end) => (Err(e), end),
                (None, end) => (Ok(Statement::Return(exp)), end),
            },
        },
    }
}

/// Requires an identifier that carries its text, and consumes it.
pub open spec fn spec_expect_name(ts: Seq<TokenView>) -> (
    Result<Seq<char>, ParseErrorView>,
    Seq<TokenView>,
) {
    if ts.len() == 0 {
        (Err(ParseErrorView::UnexpectedToken { found: None, expected: TokenType::Identifier }), ts)
    } else if ts[0].ttype == TokenType::Identifier && ts[0].value is Some {
        (Ok(ts[0].value->0), ts.skip(1))
    } else {
        (
            Err(
                ParseErrorView::UnexpectedToken {
                    found: Some(ts[0]),
                    expected: TokenType::Identifier,
                },
            ),
            ts.skip(1),
        )
    }
}

/// The symbols between a function's name and its statement: `(`, `)`, `{`.
pub open spec fn spec_expect_header(ts: Seq<TokenView>) -> (Option<ParseErrorView>, Seq<TokenView>) {
    match spec_expect(ts, symbol(Symbol::LeftParenthesis)) {
        (Some(e), after) => (Some(e), after),
        (None, after) => match spec_expect(after, symbol(Symbol::RightParenthesis)) {
            (Some(e), rest) => (Some(e), rest),
            (None, rest) => spec_expect(rest, symbol(Symbol::LeftBrace)),
        },
    }
}

/// Parses `int`, the function's name, `(`, `)`, `{`, one statement and `}`.
pub open spec fn spec_parse_fn(ts: Seq<TokenView>) -> (
    Result<FunctionView, ParseErrorView>,
    Seq<TokenView>,
) {
    match spec_expect(ts, keyword(Keyword::Int)) {
        (Some(e), after) => (Err(e), after),
        (None, after) => match spec_expect_name(after) {
            (Err(e), rest) => (Err(e), rest),
            (Ok(name), rest) => match spec_expect_header(rest) {
                (Some(e), body) => (Err(e), body),
                (None, body) => match spec_parse_statement(body) {
                    (Err(e), end) => (Err(e), end),
                    (Ok(statement), end) => match spec_expect(end, symbol(Symbol::RightBrace)) {
                        (Some(e), last) => (Err(e), last),
                        (None, last) => (Ok(FunctionView { name, statement }), last),
                    },
                },
            },
        },
    }
}

/// The program that a token sequence denotes, or the first error. Tokens after
/// the function's closing brace are not looked at.
pub open spec fn spec_parse(ts: Seq<TokenView>) -> Result<ProgramView, ParseErrorView> {
    match spec_parse_fn(ts).0 {
        Ok(function) => Ok(ProgramView { function }),
        Err(e) => Err(e),
    }
}

/// Parsing consumes tokens from the front and never adds any: what remains is
/// no longer than the input, and shorter after a success.
pub proof fn lemma_parsing_consumes(ts: Seq<TokenView>)
    ensures
        spec_parse_factor(ts).1.len() <= ts.len(),
        spec_parse_factor(ts).0 is Ok ==> spec_parse_factor(ts).1.len() < ts.len(),
        spec_parse_term(ts).1.len() <= ts.len(),
        spec_parse_term(ts).0 is Ok ==> spec_parse_term(ts).1.len() < ts.len(),
        spec_parse_exp(ts).1.len() <= ts.len(),
        spec_parse_exp(ts).0 is Ok ==> spec_parse_exp(ts).1.len() < ts.len(),
    decreases ts.len(),
{
    if ts.len() > 0 {
        lemma_parsing_consumes(ts.skip(1));
    }
    let (factor, after) = spec_parse_factor(ts);
    if let Ok(first) = factor {
        lemma_term_tail_consumes(Term::Factor(first), after);
        let (term, rest) = spec_parse_term(ts);
        if let Ok(t) = term {
            lemma_exp_tail_consumes(Expression::Term(t), rest);
        }
    }
}

/// Continuing a term never adds tokens.
pub proof fn lemma_term_tail_consumes(left: Term, ts: Seq<TokenView>)
    ensures
        spec_term_tail(left, ts).1.len() <= ts.len(),
    decreases ts.len(), 0nat,
{
    if starts_multiplicative(ts) {
        lemma_parsing_consumes(ts.skip(1));
        if let (Ok(right), after) = spec_parse_factor(ts.skip(1)) {
            lemma_term_tail_consumes(
                Term::BinaryOperation { left: Box::new(left), operator: ts[0].ttype->otype, right },
                after,
            );
        }
    }
}

/// Continuing an expression never adds tokens.
pub proof fn lemma_exp_tail_consumes(left: Expression, ts: Seq<TokenView>)
    ensures
        spec_exp_tail(left, ts).1.len() <= ts.len(),
    decreases ts.len(), 0nat,
{
    if starts_additive(ts) {
        lemma_parsing_consumes(ts.skip(1));
        if let (Ok(right), after) = spec_parse_term(ts.skip(1)) {
            lemma_exp_tail_consumes(
                Expression::BinaryOperation {
                    left: Box::new(left),
                    operator: ts[0].ttype->otype,
                    right,
                },
                after,
            );
        }
    }
}

/// Removing the first token removes the first value.
proof fn lemma_views_pop(before: Seq<Token>)
    requires
        before.len() > 0,
    ensures
        token_views(before.subrange(1, before.len() as int)) == token_views(before).skip(1),
        token_views(before)[0] == before[0]@,
        token_views(before).len() == before.len(),
{
}

/// Consumes the next token and checks that its kind is `expected`.
fn expect(tokens: &mut VecDeque<Token>, expected: TokenType) -> (r: Result<(), ParseError>)
    ensures
        (
            match r {
                Ok(_) => None,
                Err(e) => Some(e@),
            },
            token_views(final(tokens)@),
        ) == spec_expect(token_views(old(tokens)@), expected),
        final(tokens)@.len() <= old(tokens)@.len(),
{
    match tokens.pop_front() {
        Some(tok) => {
            proof {
                lemma_views_pop(old(tokens)@);
            }
            if tok.ttype == expected {
                Ok(())
            } else {
                Err(ParseError::UnexpectedToken { found: Some(tok), expected })
            }
        },
        None => Err(ParseError::UnexpectedToken { found: None, expected }),
    }
}

/// Parses a program from the whole token sequence: the function it consists
/// of. The result is the program that [`spec_parse`] assigns to the tokens, or
/// the error that it assigns to them. Tokens after the function's closing
/// brace are not looked at.
pub fn parse(tokens: VecDeque<Token>) -> (r: Result<Program, ParseError>)
    ensures
        program_outcome(r) == spec_parse(token_views(tokens@)),
{
    let mut tokens = tokens;
    match parse_fn(&mut tokens) {
        Ok(function) => Ok(Program { function }),
        Err(e) => Err(e),
    }
}

/// Parses a function definition from the front of `tokens` and consumes it.
pub fn parse_fn(tokens: &mut VecDeque<Token>) -> (r: Result<Function, ParseError>)
    ensures
        (function_outcome(r), token_views(final(tokens)@)) == spec_parse_fn(
            token_views(old(tokens)@),
        ),
        final(tokens)@.len() <= old(tokens)@.len(),
{
    match expect(tokens, TokenType::Keyword { ktype: Keyword::Int }) {
        Ok(_) => {},
        Err(e) => {
            return Err(e);
        },
    }
    let ghost at_name = tokens@;
    let name = match tokens.pop_front() {
        Some(tok) => {
            proof {
                lemma_views_pop(at_name);
            }
            match tok {
                Token { ttype: TokenType::Identifier, value: Some(name) } => name,
                other => {
                    return Err(
                        ParseError::UnexpectedToken {
                            found: Some(other),
                            expected: TokenType::Identifier,
                        },
                    );
                },
            }
        },
        None => {
            return Err(
                ParseError::UnexpectedToken { found: None, expected: TokenType::Identifier },
            );
        },
    };
    match expect(tokens, TokenType::Symbol { stype: Symbol::LeftParenthesis }) {
        Ok(_) => {},
        Err(e) => {
            return Err(e);
        },
    }
    match expect(tokens, TokenType::Symbol { stype: Symbol::RightParenthesis }) {
        Ok(_) => {},
        Err(e) => {
            return Err(e);
        },
    }
    match expect(tokens, TokenType::Symbol { stype: Symbol::LeftBrace }) {
        Ok(_) => {},
        Err(e) => {
            return Err(e);
        },
    }
    let statement = match parse_statement(tokens) {
        Ok(statement) => statement,
        Err(e) => {
            return Err(e);
        },
    };
    match expect(tokens, TokenType::Symbol { stype: Symbol::RightBrace }) {
        Ok(_) => Ok(Function { name, statement }),
        Err(e) => Err(e),
    }
}

/// Parses a `return` statement from the front of `tokens` and consumes it.
pub fn parse_statement(tokens: &mut VecDeque<Token>) -> (r: Result<Statement, ParseError>)
    ensures
        (outcome(r), token_views(final(tokens)@)) == spec_parse_statement(
            token_views(old(tokens)@),
        ),
        final(tokens)@.len() <= old(tokens)@.len(),
{
    match expect(tokens, TokenType::Keyword { ktype: Keyword::Return }) {
        Ok(_) => {},
        Err(e) => {
            return Err(e);
        },
    }
    let exp = match parse_exp(tokens) {
        Ok(exp) => exp,
        Err(e) => {
            return Err(e);
        },
    };
    match expect(tokens, TokenType::Symbol { stype: Symbol::Semicolon }) {
        Ok(_) => Ok(Statement::Return(exp)),
        Err(e) => Err(e),
    }
}

/// Parses an expression from the front of `tokens` and consumes it: terms
/// joined by `+` and `-`, grouped to the left. Stops before the first token
/// that is neither.
pub fn parse_exp(tokens: &mut VecDeque<Token>) -> (r: Result<Expression, ParseError>)
    ensures
        (outcome(r), token_views(final(tokens)@)) == spec_parse_exp(token_views(old(tokens)@)),
        final(tokens)@.len() <= old(tokens)@.len(),
    decreases old(tokens)@.len(), 4nat,
{
    let ghost entry = token_views(tokens@);
    proof {
        lemma_parsing_consumes(entry);
    }
    let mut exp = match parse_term(tokens) {
        Ok(term) => Expression::Term(term),
        Err(e) => {
            return Err(e);
        },
    };
    loop
        invariant
            entry == token_views(old(tokens)@),
            tokens@.len() <= old(tokens)@.len(),
            spec_parse_exp(entry) == spec_exp_tail(exp, token_views(tokens@)),
        decreases tokens@.len(),
    {
        if tokens.len() == 0 {
            return Ok(exp);
        }
        let ghost before = tokens@;
        proof {
            lemma_views_pop(before);
            lemma_parsing_consumes(token_views(before).skip(1));
        }
        let operator = match tokens[0].ttype {
            TokenType::Operator { otype } => otype,
            _ => {
                return Ok(exp);
            },
        };
        match operator {
            Operator::Plus | Operator::Negate => {},
            _ => {
                return Ok(exp);
            },
        }
        tokens.pop_front();
        let right = match parse_term(tokens) {
            Ok(term) => term,
            Err(e) => {
                return Err(e);
            },
        };
        exp = Expression::BinaryOperation { left: Box::new(exp), operator, right };
    }
}

/// Parses a term from the front of `tokens` and consumes it: factors joined
/// by `*` and `/`, grouped to the left. Stops before the first token that is
/// neither.
pub fn parse_term(tokens: &mut VecDeque<Token>) -> (r: Result<Term, ParseError>)
    ensures
        (outcome(r), token_views(final(tokens)@)) == spec_parse_term(token_views(old(tokens)@)),
        final(tokens)@.len() <= old(tokens)@.len(),
    decreases old(tokens)@.len(), 2nat,
{
    let ghost entry = token_views(tokens@);
    proof {
        lemma_parsing_consumes(entry);
    }
    let mut term = match parse_factor(tokens) {
        Ok(factor) => Term::Factor(factor),
        Err(e) => {
            return Err(e);
        },
    };
    loop
        invariant
            entry == token_views(old(tokens)@),
            tokens@.len() <= old(tokens)@.len(),
            spec_parse_term(entry) == spec_term_tail(term, token_views(tokens@)),
        decreases tokens@.len(),
    {
        if tokens.len() == 0 {
            return Ok(term);
        }
        let ghost before = tokens@;
        proof {
            lemma_views_pop(before);
            lemma_parsing_consumes(token_views(before).skip(1));
        }
        let operator = match tokens[0].ttype {
            TokenType::Operator { otype } => otype,
            _ => {
                return Ok(term);
            },
        };
        match operator {
            Operator::Star | Operator::Divide => {},
            _ => {
                return Ok(term);
            },
        }
        tokens.pop_front();
        let right = match parse_factor(tokens) {
            Ok(factor) => factor,
            Err(e) => {
                return Err(e);
            },
        };
        term = Term::BinaryOperation { left: Box::new(term), operator, right };
    }
}

/// Parses a factor from the front of `tokens` and consumes it: `(`, an
/// expression and `)`; a unary operator and the factor it applies to; or an
/// integer literal, decoded in its base. The calls nest as deep as the
/// parentheses and unary operators of the input do.
pub fn parse_factor(tokens: &mut VecDeque<Token>) -> (r: Result<Factor, ParseError>)
    ensures
        (outcome(r), token_views(final(tokens)@)) == spec_parse_factor(token_views(old(tokens)@)),
        final(tokens)@.len() <= old(tokens)@.len(),
    decreases old(tokens)@.len(), 0nat,
{
    let tok = match tokens.pop_front() {
        Some(tok) => tok,
        None => {
            return Err(ParseError::UnexpectedFactor { found: None });
        },
    };
    proof {
        lemma_views_pop(old(tokens)@);
    }
    match tok.ttype {
        TokenType::Symbol { stype: Symbol::LeftParenthesis } => {
            let exp = match parse_exp(tokens) {
                Ok(exp) => exp,
                Err(e) => {
                    return Err(e);
                },
            };
            match expect(tokens, TokenType::Symbol { stype: Symbol::RightParenthesis }) {
                Ok(_) => Ok(Factor::Expression(Box::new(exp))),
                Err(e) => Err(e),
            }
        },
        TokenType::Operator { otype } => match otype {
            Operator::Negate | Operator::Bang | Operator::Not => {
                match parse_factor(tokens) {
                    Ok(factor) => Ok(
                        Factor::UnaryOperation { operator: otype, factor: Box::new(factor) },
                    ),
                    Err(e) => Err(e),
                }
            },
            _ => Err(ParseError::UnexpectedFactor { found: Some(tok) }),
        },
        TokenType::Integer { itype } => {
            let decoded = match &tok.value {
                Some(text) => decode_literal(itype, text.as_str()),
                None => None,
            };
            match decoded {
                Some(n) => Ok(Factor::Const(n)),
                None => Err(ParseError::UnexpectedFactor { found: Some(tok) }),
            }
        },
        _ => Err(ParseError::UnexpectedFactor { found: Some(tok) }),
    }
}

/// The parser builds trees in which every operator stands where the grammar
/// allows it.
pub proof fn lemma_parsed_is_well_formed(ts: Seq<TokenView>)
    ensures
        spec_parse_factor(ts).0 matches Ok(factor) ==> factor_wf(factor),
        spec_parse_term(ts).0 matches Ok(term) ==> term_wf(term),
        spec_parse_exp(ts).0 matches Ok(exp) ==> exp_wf(exp),
    decreases ts.len(),
{
    lemma_parsing_consumes(ts);
    let (factor, after) = spec_parse_factor(ts);
    if let Ok(first) = factor {
        let rest = ts.skip(1);
        lemma_parsed_is_well_formed(rest);
        assert(factor_wf(first));
        lemma_term_tail_is_well_formed(Term::Factor(first), after);
        let (term, rest) = spec_parse_term(ts);
        if let Ok(t) = term {
            lemma_exp_tail_is_well_formed(Expression::Term(t), rest);
        }
    }
}

/// The parser builds programs in which every operator stands where the
/// grammar allows it.
pub proof fn lemma_parsed_program_is_well_formed(ts: Seq<TokenView>)
    ensures
        spec_parse(ts) matches Ok(prog) ==> program_wf(prog),
{
    if let Ok(prog) = spec_parse(ts) {
        let after_int = spec_expect(ts, keyword(Keyword::Int)).1;
        let after_name = spec_expect_name(after_int).1;
        let body = spec_expect_header(after_name).1;
        let after_return = spec_expect(body, keyword(Keyword::Return)).1;
        lemma_parsed_is_well_formed(after_return);
    }
}

/// Continuing a well-formed term gives a well-formed term.
pub proof fn lemma_term_tail_is_well_formed(left: Term, ts: Seq<TokenView>)
    requires
        term_wf(left),
    ensures
        spec_term_tail(left, ts).0 matches Ok(term) ==> term_wf(term),
    decreases ts.len(), 0nat,
{
    if starts_multiplicative(ts) {
        lemma_parsed_is_well_formed(ts.skip(1));
        if let (Ok(right), after) = spec_parse_factor(ts.skip(1)) {
            if after.len() < ts.len() {
                lemma_term_tail_is_well_formed(
                    Term::BinaryOperation {
                        left: Box::new(left),
                        operator: ts[0].ttype->otype,
                        right,
                    },
                    after,
                );
            }
        }
    }
}

/// Continuing a well-formed expression gives a well-formed expression.
pub proof fn lemma_exp_tail_is_well_formed(left: Expression, ts: Seq<TokenView>)
    requires
        exp_wf(left),
    ensures
        spec_exp_tail(left, ts).0 matches Ok(exp) ==> exp_wf(exp),
    decreases ts.len(), 0nat,
{
    if starts_additive(ts) {
        lemma_parsed_is_well_formed(ts.skip(1));
        if let (Ok(right), after) = spec_parse_term(ts.skip(1)) {
            if after.len() < ts.len() {
                lemma_exp_tail_is_well_formed(
                    Expression::BinaryOperation {
                        left: Box::new(left),
                        operator: ts[0].ttype->otype,
                        right,
                    },
                    after,
                );
            }
        }
    }
}

/// The text of an operator.
pub open spec fn op_text(op: Operator) -> Seq<char> {
    match op {
        Operator::Negate => "-"@,
        Operator::Not => "~"@,
        Operator::Bang => "!"@,
        Operator::Plus => "+"@,
        Operator::Star => "*"@,
        Operator::Divide => "/"@,
    }
}

/// A factor in source notation: a constant in decimal, a unary operator
/// directly before its operand, an expression in parentheses.
pub open spec fn factor_text(factor: Factor) -> Seq<char>
    decreases factor,
{
    match factor {
        Factor::Expression(exp) => "("@ + exp_text(*exp) + ")"@,
        Factor::UnaryOperation { operator, factor } => op_text(operator) + factor_text(*factor),
        Factor::Const(n) => decimal_text(n as nat),
    }
}

/// A term in source notation, with a space on each side of a binary operator.
pub open spec fn term_text(term: Term) -> Seq<char>
    decreases term,
{
    match term {
        Term::Factor(factor) => factor_text(factor),
        Term::BinaryOperation { left, operator, right } => term_text(*left) + " "@ + op_text(
            operator,
        ) + " "@ + factor_text(right),
    }
}

/// An expression in source notation, with a space on each side of a binary
/// operator.
pub open spec fn exp_text(exp: Expression) -> Seq<char>
    decreases exp,
{
    match exp {
        Expression::Term(term) => term_text(term),
        Expression::BinaryOperation { left, operator, right } => exp_text(*left) + " "@ + op_text(
            operator,
        ) + " "@ + term_text(right),
    }
}

/// The listing of a statement: a line with a tab, `RETURN` and the
/// expression.
pub open spec fn stmt_text(stmt: Statement) -> Seq<char> {
    match stmt {
        Statement::Return(exp) => "\tRETURN "@ + exp_text(exp) + "\n"@,
    }
}

/// The listing of a function: a line with `FUNCTION`, its name and a colon,
/// then its statement.
pub open spec fn func_text(func: FunctionView) -> Seq<char> {
    "FUNCTION "@ + func.name + ":\n"@ + stmt_text(func.statement)
}

/// The listing of a program, for a reader who follows the compiler's work.
pub fn print_program(prog: &Program) -> (r: String)
    ensures
        r@ == func_text(prog@.function),
{
    print_func(&prog.function)
}

/// The listing of a function.
pub fn print_func(func: &Function) -> (r: String)
    ensures
        r@ == func_text(func@),
{
    let mut out = String::from_str("FUNCTION ");
    out.append(func.name.as_str());
    out.append(":\n");
    out.append(print_stmt(&func.statement).as_str());
    out
}

/// The listing of a statement.
pub fn print_stmt(stmt: &Statement) -> (r: String)
    ensures
        r@ == stmt_text(*stmt),
{
    match stmt {
        Statement::Return(exp) => {
            let mut out = String::from_str("\tRETURN ");
            out.append(print_exp(exp).as_str());
            out.append("\n");
            out
        },
    }
}

/// An expression in source notation.
pub fn print_exp(exp: &Expression) -> (r: String)
    ensures
        r@ == exp_text(*exp),
    decreases exp,
{
    match exp {
        Expression::Term(term) => print_term(term),
        Expression::BinaryOperation { left, operator, right } => {
            let mut out = print_exp(left);
            out.append(" ");
            out.append(get_op(operator));
            out.append(" ");
            out.append(print_term(right).as_str());
            out
        },
    }
}

/// The text of an operator.
pub fn get_op(op: &Operator) -> (r: &'static str)
    ensures
        r@ == op_text(*op),
{
    match op {
        Operator::Negate => "-",
        Operator::Not => "~",
        Operator::Bang => "!",
        Operator::Plus => "+",
        Operator::Star => "*",
        Operator::Divide => "/",
    }
}

/// A term in source notation.
pub fn print_term(term: &Term) -> (r: String)
    ensures
        r@ == term_text(*term),
    decreases term,
{
    match term {
        Term::Factor(factor) => print_factor(factor),
        Term::BinaryOperation { left, operator, right } => {
            let mut out = print_term(left);
            out.append(" ");
            out.append(get_op(operator));
            out.append(" ");
            out.append(print_factor(right).as_str());
            out
        },
    }
}

/// A factor in source notation.
pub fn print_factor(factor: &Factor) -> (r: String)
    ensures
        r@ == factor_text(*factor),
    decreases factor,
{
    match factor {
        Factor::Expression(exp) => {
            let mut out = String::from_str("(");
            out.append(print_exp(exp).as_str());
            out.append(")");
            out
        },
        Factor::UnaryOperation { operator, factor } => {
            let mut out = String::from_str(get_op(operator));
            out.append(print_factor(factor).as_str());
            out
        },
        Factor::Const(n) => {
            let mut out = String::new();
            push_decimal(&mut out, *n);
            out
        },
    }
}

} // verus!
