//! Token vocabulary and the tokenizer.
//!
//! The tokenizer walks the source from front to back. At each position it
//! tries the token shapes in a fixed order; the first shape whose pattern
//! matches a prefix of what remains decides the token. A pattern also consumes
//! the white space after its token.

use crate::pattern::{compile, find, first_match, pattern_compiles, pattern_of};
use crate::text::{byte_len, byte_slice, lemma_trimmed, slice, trim, trimmed, white_space};
use regex::Regex;
use std::collections::VecDeque;
use vstd::prelude::*;
use vstd::string::*;
use vstd::utf8::*;

verus! {

/// Reserved words.
#[derive(Debug, Clone, Copy, PartialEq, Eq, Structural)]
pub enum Keyword {
    Int,
    Return,
}

/// Punctuation.
#[derive(Debug, Clone, Copy, PartialEq, Eq, Structural)]
pub enum Symbol {
    LeftBrace,
    RightBrace,
    LeftParenthesis,
    RightParenthesis,
    Semicolon,
}

/// Operator characters. `Negate` is `-` (unary negation and binary
/// subtraction), `Not` is `~`, `Bang` is `!`.
#[derive(Debug, Clone, Copy, PartialEq, Eq, Structural)]
pub enum Operator {
    Negate,
    Not,
    Bang,
    Plus,
    Star,
    Divide,
}

/// The base in which an integer literal is written.
#[derive(Debug, Clone, Copy, PartialEq, Eq, Structural)]
pub enum Integer {
    Decimal,
    Hexadecimal,
}

impl Integer {
    /// The radix of the notation.
    pub open spec fn spec_base(self) -> nat {
        match self {
            Integer::Decimal => 10,
            Integer::Hexadecimal => 16,
        }
    }

    /// The radix of the notation.
    pub fn base(&self) -> (r: u32)
        ensures
            r == self.spec_base(),
    {
        match self {
            Integer::Decimal => 10,
            Integer::Hexadecimal => 16,
        }
    }
}

/// The kind of a token.
#[derive(Debug, Clone, Copy, PartialEq, Eq, Structural)]
pub enum TokenType {
    Symbol { stype: Symbol },
    Operator { otype: Operator },
    Keyword { ktype: Keyword },
    Integer { itype: Integer },
    Identifier,
}

/// A token: its kind and, for integer literals and identifiers, its text.
#[derive(Debug, PartialEq, Eq)]
pub struct Token {
    pub ttype: TokenType,
    pub value: Option<String>,
}

/// The mathematical value of a [`Token`]: its kind and its text as a sequence
/// of characters.
pub struct TokenView {
    pub ttype: TokenType,
    pub value: Option<Seq<char>>,
}

impl View for Token {
    type V = TokenView;

    open spec fn view(&self) -> TokenView {
        TokenView {
            ttype: self.ttype,
            value: match self.value {
                Some(text) => Some(text@),
                None => None,
            },
        }
    }
}

/// The values of a sequence of tokens.
pub open spec fn token_views(tokens: Seq<Token>) -> Seq<TokenView> {
    tokens.map_values(|t: Token| t@)
}

impl TokenType {
    /// The regular expression that recognizes a token of this kind.
    pub open spec fn spec_regex(self) -> Seq<char> {
        match self {
            TokenType::Symbol { stype: Symbol::LeftBrace } => r"\{"@,
            TokenType::Symbol { stype: Symbol::RightBrace } => r"\}"@,
            TokenType::Symbol { stype: Symbol::LeftParenthesis } => r"\("@,
            TokenType::Symbol { stype: Symbol::RightParenthesis } => r"\)"@,
            TokenType::Symbol { stype: Symbol::Semicolon } => r";"@,
            TokenType::Operator { otype: Operator::Negate } => r"-"@,
            TokenType::Operator { otype: Operator::Not } => r"~"@,
            TokenType::Operator { otype: Operator::Bang } => r"!"@,
            TokenType::Operator { otype: Operator::Plus } => r"\+"@,
            TokenType::Operator { otype: Operator::Star } => r"\*"@,
            TokenType::Operator { otype: Operator::Divide } => r"/"@,
            TokenType::Keyword { ktype: Keyword::Int } => r"int"@,
            TokenType::Keyword { ktype: Keyword::Return } => r"return"@,
            TokenType::Integer { itype: Integer::Hexadecimal } => r"0x[0-9a-fA-F]+"@,
            TokenType::Integer { itype: Integer::Decimal } => r"[0-9]+"@,
            TokenType::Identifier => r"[a-zA-Z]+"@,
        }
    }

    /// The regular expression that recognizes a token of this kind.
    pub fn regex(&self) -> (r: &'static str)
        ensures
            r@ == self.spec_regex(),
    {
        match self {
            TokenType::Symbol { stype: Symbol::LeftBrace } => r"\{",
            TokenType::Symbol { stype: Symbol::RightBrace } => r"\}",
            TokenType::Symbol { stype: Symbol::LeftParenthesis } => r"\(",
            TokenType::Symbol { stype: Symbol::RightParenthesis } => r"\)",
            TokenType::Symbol { stype: Symbol::Semicolon } => r";",
            TokenType::Operator { otype: Operator::Negate } => r"-",
            TokenType::Operator { otype: Operator::Not } => r"~",
            TokenType::Operator { otype: Operator::Bang } => r"!",
            TokenType::Operator { otype: Operator::Plus } => r"\+",
            TokenType::Operator { otype: Operator::Star } => r"\*",
            TokenType::Operator { otype: Operator::Divide } => r"/",
            TokenType::Keyword { ktype: Keyword::Int } => r"int",
            TokenType::Keyword { ktype: Keyword::Return } => r"return",
            TokenType::Integer { itype: Integer::Hexadecimal } => r"0x[0-9a-fA-F]+",
            TokenType::Integer { itype: Integer::Decimal } => r"[0-9]+",
            TokenType::Identifier => r"[a-zA-Z]+",
        }
    }

    /// What must follow the token: a word boundary after a keyword, so that
    /// a longer word is no keyword; nothing for the other kinds.
    pub open spec fn spec_bound(self) -> Seq<char> {
        match self {
            TokenType::Keyword { .. } => r"\b"@,
            _ => ""@,
        }
    }

    /// What must follow the token.
    pub fn bound(&self) -> (r: &'static str)
        ensures
            r@ == self.spec_bound(),
    {
        match self {
            TokenType::Keyword { .. } => r"\b",
            _ => "",
        }
    }

    /// The pattern that is matched against the rest of the source: anchored
    /// at its start, the token, what must follow it, and any white space.
    pub open spec fn spec_prepare(self) -> Seq<char> {
        r"^"@ + self.spec_regex() + self.spec_bound() + r"\s*"@
    }

    /// The pattern that is matched against the rest of the source.
    pub fn prepare(&self) -> (r: String)
        ensures
            r@ == self.spec_prepare(),
    {
        let mut pattern = String::from_str(r"^");
        pattern.append(self.regex());
        pattern.append(self.bound());
        pattern.append(r"\s*");
        pattern
    }
}

/// The token shapes in the order in which they are tried: symbols, operators,
/// keywords, hexadecimal before decimal literals, identifiers.
pub open spec fn shapes() -> Seq<TokenType> {
    seq![
        TokenType::Symbol { stype: Symbol::LeftBrace },
        TokenType::Symbol { stype: Symbol::RightBrace },
        TokenType::Symbol { stype: Symbol::LeftParenthesis },
        TokenType::Symbol { stype: Symbol::RightParenthesis },
        TokenType::Symbol { stype: Symbol::Semicolon },
        TokenType::Operator { otype: Operator::Negate },
        TokenType::Operator { otype: Operator::Not },
        TokenType::Operator { otype: Operator::Bang },
        TokenType::Operator { otype: Operator::Plus },
        TokenType::Operator { otype: Operator::Star },
        TokenType::Operator { otype: Operator::Divide },
        TokenType::Keyword { ktype: Keyword::Int },
        TokenType::Keyword { ktype: Keyword::Return },
        TokenType::Integer { itype: Integer::Hexadecimal },
        TokenType::Integer { itype: Integer::Decimal },
        TokenType::Identifier,
    ]
}

/// The token shapes in the order in which they are tried.
pub fn raw_patterns() -> (r: Vec<TokenType>)
    ensures
        r@ == shapes(),
{
    let mut r: Vec<TokenType> = Vec::new();
    r.push(TokenType::Symbol { stype: Symbol::LeftBrace });
    r.push(TokenType::Symbol { stype: Symbol::RightBrace });
    r.push(TokenType::Symbol { stype: Symbol::LeftParenthesis });
    r.push(TokenType::Symbol { stype: Symbol::RightParenthesis });
    r.push(TokenType::Symbol { stype: Symbol::Semicolon });
    r.push(TokenType::Operator { otype: Operator::Negate });
    r.push(TokenType::Operator { otype: Operator::Not });
    r.push(TokenType::Operator { otype: Operator::Bang });
    r.push(TokenType::Operator { otype: Operator::Plus });
    r.push(TokenType::Operator { otype: Operator::Star });
    r.push(TokenType::Operator { otype: Operator::Divide });
    r.push(TokenType::Keyword { ktype: Keyword::Int });
    r.push(TokenType::Keyword { ktype: Keyword::Return });
    r.push(TokenType::Integer { itype: Integer::Hexadecimal });
    r.push(TokenType::Integer { itype: Integer::Decimal });
    r.push(TokenType::Identifier);
    r
}

/// Why a text is not a sequence of tokens.
#[derive(Debug, PartialEq, Eq)]
pub enum LexError {
    /// No shape matches at the start of `rest`, the part of the source that
    /// was not consumed.
    UnrecognizedToken { rest: String },
    /// The pattern of `shape` was not accepted as a regular expression.
    InvalidPattern { shape: TokenType },
}

/// The mathematical value of a [`LexError`].
pub enum LexErrorView {
    UnrecognizedToken { rest: Seq<char> },
    InvalidPattern { shape: TokenType },
}

impl View for LexError {
    type V = LexErrorView;

    open spec fn view(&self) -> LexErrorView {
        match *self {
            LexError::UnrecognizedToken { rest } => LexErrorView::UnrecognizedToken { rest: rest@ },
            LexError::InvalidPattern { shape } => LexErrorView::InvalidPattern { shape },
        }
    }
}

/// The outcome of tokenizing, as a value.
pub open spec fn lex_outcome(r: Result<VecDeque<Token>, LexError>) -> Result<
    Seq<TokenView>,
    LexErrorView,
> {
    match r {
        Ok(tokens) => Ok(token_views(tokens@)),
        Err(e) => Err(e@),
    }
}

/// A token shape with its compiled pattern.
pub struct TokenDef {
    pub ttype: TokenType,
    pub regex: Regex,
}

impl TokenDef {
    /// The compiled pattern is the one of the shape.
    pub open spec fn wf(&self) -> bool {
        pattern_of(self.regex) == self.ttype.spec_prepare()
    }

    /// Compiles the pattern of a shape.
    pub fn create(ttype: TokenType) -> (r: Result<TokenDef, LexError>)
        ensures
            match r {
                Ok(def) => def.wf() && def.ttype == ttype && pattern_compiles(ttype.spec_prepare()),
                Err(e) => e@ == (LexErrorView::InvalidPattern { shape: ttype }) && !pattern_compiles(
                    ttype.spec_prepare(),
                ),
            },
    {
        let pattern = ttype.prepare();
        match compile(pattern.as_str()) {
            Ok(regex) => Ok(TokenDef { ttype, regex }),
            Err(_) => Err(LexError::InvalidPattern { shape: ttype }),
        }
    }
}

/// The first of `shapes`, from index `from` on, whose pattern is not accepted
/// as a regular expression.
pub open spec fn first_invalid_shape(shapes: Seq<TokenType>, from: int) -> Option<TokenType>
    decreases shapes.len() - from,
{
    if from < 0 || from >= shapes.len() {
        None
    } else if !pattern_compiles(shapes[from].spec_prepare()) {
        Some(shapes[from])
    } else {
        first_invalid_shape(shapes, from + 1)
    }
}

/// Where the pattern of `shape` matches at the start of `text`: the byte
/// offsets of the match, if there is one and it is not empty.
pub open spec fn shape_match(shape: TokenType, text: Seq<char>) -> Option<(int, int)> {
    match first_match(shape.spec_prepare(), text) {
        Some((start, end)) => if end > 0 {
            Some((start, end))
        } else {
            None
        },
        None => None,
    }
}

/// The index of the first of `shapes`, from index `from` on, that matches at
/// the start of `text`.
pub open spec fn first_shape(shapes: Seq<TokenType>, text: Seq<char>, from: int) -> Option<int>
    decreases shapes.len() - from,
{
    if from < 0 || from >= shapes.len() {
        None
    } else if shape_match(shapes[from], text) is Some {
        Some(from)
    } else {
        first_shape(shapes, text, from + 1)
    }
}

/// The token of kind `shape` whose pattern matched `matched`. Integer
/// literals and identifiers carry the matched text without the white space
/// around it; the other kinds carry no text.
pub open spec fn token_of(shape: TokenType, matched: Seq<char>) -> TokenView {
    TokenView {
        ttype: shape,
        value: match shape {
            TokenType::Integer { .. } | TokenType::Identifier => Some(trimmed(matched)),
            _ => None,
        },
    }
}

/// `tokens` before the tokens of `rest`, or the error of `rest`.
pub open spec fn after_tokens(
    tokens: Seq<TokenView>,
    rest: Result<Seq<TokenView>, LexErrorView>,
) -> Result<Seq<TokenView>, LexErrorView> {
    match rest {
        Ok(more) => Ok(tokens + more),
        Err(e) => Err(e),
    }
}

/// The tokens of `text`, which starts with a token or is empty. At each
/// position the first shape that matches gives the token, and the text goes on
/// where the match ends. Where no shape matches, the text that is left is
/// reported.
///
/// A match that is not empty ends past the start, so the text that is left
/// gets shorter; the test on the lengths makes the definition well-founded
/// without knowing so.
pub open spec fn spec_lex_from(text: Seq<char>) -> Result<Seq<TokenView>, LexErrorView>
    decreases byte_len(text),
{
    if text.len() == 0 {
        Ok(Seq::empty())
    } else {
        match first_shape(shapes(), text, 0) {
            None => Err(LexErrorView::UnrecognizedToken { rest: text }),
            Some(i) => {
                let (start, end) = shape_match(shapes()[i], text)->0;
                let token = token_of(shapes()[i], byte_slice(text, start, end));
                let rest = byte_slice(text, end, byte_len(text) as int);
                if byte_len(rest) < byte_len(text) {
                    after_tokens(seq![token], spec_lex_from(rest))
                } else {
                    Err(LexErrorView::UnrecognizedToken { rest: text })
                }
            },
        }
    }
}

/// The tokens of a source text: those of the text without the white space
/// around it.
pub open spec fn spec_lex(code: Seq<char>) -> Result<Seq<TokenView>, LexErrorView> {
    spec_lex_from(trimmed(code))
}

/// The tokens of a source text, once the patterns are compiled: if the
/// pattern of a shape is not accepted as a regular expression, the first such
/// shape is reported and nothing is tokenized.
pub open spec fn spec_tokenize(code: Seq<char>) -> Result<Seq<TokenView>, LexErrorView> {
    match first_invalid_shape(shapes(), 0) {
        Some(shape) => Err(LexErrorView::InvalidPattern { shape }),
        None => spec_lex(code),
    }
}

/// The shape that [`first_shape`] finds matches, and no shape before it does:
/// where several shapes match, their order decides.
pub proof fn lemma_first_shape_is_first(shapes: Seq<TokenType>, text: Seq<char>, from: int)
    requires
        0 <= from,
    ensures
        match first_shape(shapes, text, from) {
            Some(i) => {
                &&& from <= i < shapes.len()
                &&& shape_match(shapes[i], text) is Some
                &&& forall|j: int| from <= j < i ==> shape_match(#[trigger] shapes[j], text) is None
            },
            None => forall|j: int|
                from <= j < shapes.len() ==> shape_match(#[trigger] shapes[j], text) is None,
        },
    decreases shapes.len() - from,
{
    if from < shapes.len() && shape_match(shapes[from], text) is None {
        lemma_first_shape_is_first(shapes, text, from + 1);
    }
}

/// A token carries text exactly if it is an integer literal or an identifier,
/// and its text neither starts nor ends with white space.
pub open spec fn carries_text(token: TokenView) -> bool {
    &&& token.value is Some <==> (token.ttype is Integer || token.ttype is Identifier)
    &&& token.value matches Some(text) ==> (text.len() > 0 ==> !white_space(text.first())
        && !white_space(text.last()))
}

/// Every token of a text has one of the shapes as its kind, and carries text
/// exactly if it is an integer literal or an identifier: the matched text
/// without the white space around it.
pub proof fn lemma_tokens_have_shapes(text: Seq<char>)
    ensures
        spec_lex_from(text) matches Ok(tokens) ==> forall|i: int|
            0 <= i < tokens.len() ==> shapes().contains((#[trigger] tokens[i]).ttype)
                && carries_text(tokens[i]),
    decreases byte_len(text),
{
    if text.len() > 0 {
        if let Some(k) = first_shape(shapes(), text, 0) {
            lemma_first_shape_is_first(shapes(), text, 0);
            let (start, end) = shape_match(shapes()[k], text)->0;
            let rest = byte_slice(text, end, byte_len(text) as int);
            if byte_len(rest) < byte_len(text) {
                lemma_tokens_have_shapes(rest);
                if let Ok(more) = spec_lex_from(rest) {
                    let token = token_of(shapes()[k], byte_slice(text, start, end));
                    let tokens = seq![token] + more;
                    lemma_trimmed(byte_slice(text, start, end));
                    assert forall|i: int| 0 <= i < tokens.len() implies shapes().contains(
                        (#[trigger] tokens[i]).ttype,
                    ) && carries_text(tokens[i]) by {
                        if i > 0 {
                            assert(tokens[i] == more[i - 1]);
                        }
                    }
                }
            }
        }
    }
}

/// Compiles the pattern of every shape, in order.
fn compile_shapes() -> (r: Result<Vec<TokenDef>, LexError>)
    ensures
        match r {
            Ok(defs) => {
                &&& first_invalid_shape(shapes(), 0) is None
                &&& defs@.len() == shapes().len()
                &&& forall|i: int|
                    0 <= i < defs@.len() ==> (#[trigger] defs@[i]).wf() && defs@[i].ttype
                        == shapes()[i]
            },
            Err(e) => first_invalid_shape(shapes(), 0) matches Some(shape) && e@
                == (LexErrorView::InvalidPattern { shape }),
        },
{
    let patterns = raw_patterns();
    let mut defs: Vec<TokenDef> = Vec::new();
    let mut i: usize = 0;
    while i < patterns.len()
        invariant
            i <= patterns.len(),
            patterns@ == shapes(),
            defs@.len() == i,
            first_invalid_shape(shapes(), 0) == first_invalid_shape(shapes(), i as int),
            forall|k: int|
                0 <= k < i ==> (#[trigger] defs@[k]).wf() && defs@[k].ttype == shapes()[k],
        decreases patterns.len() - i,
    {
        match TokenDef::create(patterns[i]) {
            Ok(def) => {
                defs.push(def);
            },
            Err(e) => {
                return Err(e);
            },
        }
        i += 1;
    }
    Ok(defs)
}

/// Finds the first shape that matches at the start of `text`: its index and
/// the byte offsets of the match.
fn match_shape(defs: &Vec<TokenDef>, text: &str) -> (r: Option<(usize, usize, usize)>)
    requires
        defs@.len() == shapes().len(),
        forall|i: int|
            0 <= i < defs@.len() ==> (#[trigger] defs@[i]).wf() && defs@[i].ttype == shapes()[i],
    ensures
        match r {
            Some((i, start, end)) => {
                &&& first_shape(shapes(), text@, 0) == Some(i as int)
                &&& shape_match(shapes()[i as int], text@) == Some((start as int, end as int))
                &&& i < defs@.len()
                &&& start <= end <= byte_len(text@)
                &&& is_char_boundary(encode_utf8(text@), start as int)
                &&& is_char_boundary(encode_utf8(text@), end as int)
            },
            None => first_shape(shapes(), text@, 0) is None,
        },
{
    let mut i: usize = 0;
    while i < defs.len()
        invariant
            i <= defs@.len(),
            defs@.len() == shapes().len(),
            forall|k: int|
                0 <= k < defs@.len() ==> (#[trigger] defs@[k]).wf() && defs@[k].ttype
                    == shapes()[k],
            first_shape(shapes(), text@, 0) == first_shape(shapes(), text@, i as int),
        decreases defs@.len() - i,
    {
        match find(&defs[i].regex, text) {
            Some((start, end)) => {
                if end > 0 {
                    return Some((i, start, end));
                }
            },
            None => {},
        }
        i += 1;
    }
    None
}

/// Builds the token of kind `shape` from a match of its pattern in `text`
/// between the byte offsets `start` and `end`, and gives the text after the
/// match.
pub fn take_token<'a>(shape: TokenType, text: &'a str, start: usize, end: usize) -> (r: (
    Token,
    &'a str,
))
    requires
        start <= end <= byte_len(text@),
        is_char_boundary(encode_utf8(text@), start as int),
        is_char_boundary(encode_utf8(text@), end as int),
    ensures
        r.0@ == token_of(shape, byte_slice(text@, start as int, end as int)),
        r.1@ == byte_slice(text@, end as int, byte_len(text@) as int),
        byte_len(r.1@) == byte_len(text@) - end,
{
    let value = match shape {
        TokenType::Integer { .. } | TokenType::Identifier => Some(
            String::from_str(trim(slice(text, start, end))),
        ),
        _ => None,
    };
    proof {
        encode_utf8_valid_utf8(text@);
        is_char_boundary_start_end_of_seq(encode_utf8(text@));
    }
    let rest = slice(text, end, text.as_bytes().len());
    (Token { ttype: shape, value }, rest)
}

/// Splits a source text into its tokens. Compiles the pattern of every shape
/// first; then fails where no token shape matches the text that is left, and
/// reports that text. No tokens are returned with an error.
pub fn lex(code: &String) -> (r: Result<VecDeque<Token>, LexError>)
    ensures
        lex_outcome(r) == spec_tokenize(code@),
{
    let defs = match compile_shapes() {
        Ok(defs) => defs,
        Err(e) => {
            return Err(e);
        },
    };
    let mut tokens: VecDeque<Token> = VecDeque::new();
    let mut source: &str = trim(code.as_str());
    assert(after_tokens(token_views(tokens@), spec_lex_from(source@)) == spec_lex_from(source@))
        by {
        if let Ok(more) = spec_lex_from(source@) {
            assert(token_views(tokens@) + more =~= more);
        }
    }
    while !source.is_empty()
        invariant
            defs@.len() == shapes().len(),
            forall|i: int|
                0 <= i < defs@.len() ==> (#[trigger] defs@[i]).wf() && defs@[i].ttype
                    == shapes()[i],
            first_invalid_shape(shapes(), 0) is None,
            spec_lex(code@) == after_tokens(token_views(tokens@), spec_lex_from(source@)),
        decreases byte_len(source@),
    {
        match match_shape(&defs, source) {
            None => {
                return Err(LexError::UnrecognizedToken { rest: String::from_str(source) });
            },
            Some((i, start, end)) => {
                let ghost done = token_views(tokens@);
                let (token, rest) = take_token(defs[i].ttype, source, start, end);
                tokens.push_back(token);
                source = rest;
                proof {
                    assert(token_views(tokens@) =~= done.push(token@));
                    if let Ok(more) = spec_lex_from(rest@) {
                        assert(done + (seq![token@] + more) =~= done.push(token@) + more);
                    }
                }
            },
        }
    }
    Ok(tokens)
}

} // verus!
