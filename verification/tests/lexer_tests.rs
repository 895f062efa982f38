use rcc::lexer::{
    lex, raw_patterns, take_token, Integer, Keyword, LexError, Operator, Symbol, Token, TokenDef,
    TokenType,
};

fn kinds_and_texts(src: &str) -> Vec<(TokenType, Option<String>)> {
    lex(&src.to_string()).unwrap().into_iter().map(|t| (t.ttype, t.value)).collect()
}

fn keyword(ktype: Keyword) -> (TokenType, Option<String>) {
    (TokenType::Keyword { ktype }, None)
}

fn symbol(stype: Symbol) -> (TokenType, Option<String>) {
    (TokenType::Symbol { stype }, None)
}

fn operator(otype: Operator) -> (TokenType, Option<String>) {
    (TokenType::Operator { otype }, None)
}

fn identifier(text: &str) -> (TokenType, Option<String>) {
    (TokenType::Identifier, Some(text.to_string()))
}

fn decimal(text: &str) -> (TokenType, Option<String>) {
    (TokenType::Integer { itype: Integer::Decimal }, Some(text.to_string()))
}

fn hexadecimal(text: &str) -> (TokenType, Option<String>) {
    (TokenType::Integer { itype: Integer::Hexadecimal }, Some(text.to_string()))
}

#[test]
fn tokenizes_a_minimal_program() {
    assert_eq!(
        kinds_and_texts("int main() { return 2; }"),
        vec![
            keyword(Keyword::Int),
            identifier("main"),
            symbol(Symbol::LeftParenthesis),
            symbol(Symbol::RightParenthesis),
            symbol(Symbol::LeftBrace),
            keyword(Keyword::Return),
            decimal("2"),
            symbol(Symbol::Semicolon),
            symbol(Symbol::RightBrace),
        ]
    );
}

#[test]
fn empty_and_blank_sources_have_no_tokens() {
    assert_eq!(kinds_and_texts(""), vec![]);
    assert_eq!(kinds_and_texts(" \t\r\n "), vec![]);
}

#[test]
fn white_space_around_and_between_tokens_is_dropped() {
    assert_eq!(
        kinds_and_texts("\n\t  return\n\n 42   ;\t\n"),
        vec![keyword(Keyword::Return), decimal("42"), symbol(Symbol::Semicolon)]
    );
}

#[test]
fn tokens_need_no_white_space_between_them() {
    assert_eq!(
        kinds_and_texts("return(1+2)*3;"),
        vec![
            keyword(Keyword::Return),
            symbol(Symbol::LeftParenthesis),
            decimal("1"),
            operator(Operator::Plus),
            decimal("2"),
            symbol(Symbol::RightParenthesis),
            operator(Operator::Star),
            decimal("3"),
            symbol(Symbol::Semicolon),
        ]
    );
}

#[test]
fn every_operator_is_one_character() {
    assert_eq!(
        kinds_and_texts("-~!+*/"),
        vec![
            operator(Operator::Negate),
            operator(Operator::Not),
            operator(Operator::Bang),
            operator(Operator::Plus),
            operator(Operator::Star),
            operator(Operator::Divide),
        ]
    );
}

#[test]
fn a_word_that_starts_with_a_keyword_is_an_identifier() {
    assert_eq!(kinds_and_texts("intx"), vec![identifier("intx")]);
    assert_eq!(kinds_and_texts("returning"), vec![identifier("returning")]);
    assert_eq!(kinds_and_texts("int x"), vec![keyword(Keyword::Int), identifier("x")]);
}

#[test]
fn a_keyword_before_a_digit_is_no_keyword() {
    assert_eq!(kinds_and_texts("int5"), vec![identifier("int"), decimal("5")]);
}

#[test]
fn hexadecimal_is_tried_before_decimal() {
    assert_eq!(kinds_and_texts("0x1F"), vec![hexadecimal("0x1F")]);
    assert_eq!(kinds_and_texts("0xff 10"), vec![hexadecimal("0xff"), decimal("10")]);
    assert_eq!(kinds_and_texts("0x"), vec![decimal("0"), identifier("x")]);
    assert_eq!(kinds_and_texts("0xg"), vec![decimal("0"), identifier("xg")]);
}

#[test]
fn literal_and_identifier_text_is_kept_without_white_space() {
    assert_eq!(
        kinds_and_texts("main   \n 0012 \t"),
        vec![identifier("main"), decimal("0012")]
    );
}

#[test]
fn an_unknown_character_is_reported_with_the_text_that_is_left() {
    assert_eq!(
        lex(&"int main() { return 2 @ 3; }".to_string()),
        Err(LexError::UnrecognizedToken { rest: "@ 3; }".to_string() })
    );
    assert_eq!(
        lex(&"  # ".to_string()),
        Err(LexError::UnrecognizedToken { rest: "#".to_string() })
    );
}

#[test]
fn text_beyond_ascii_is_handled_by_byte_offsets() {
    assert_eq!(
        lex(&"return\u{2003}7;\u{a0}é".to_string()),
        Err(LexError::UnrecognizedToken { rest: "é".to_string() })
    );
    assert_eq!(
        kinds_and_texts("return\u{2003}7\u{a0};"),
        vec![keyword(Keyword::Return), decimal("7"), symbol(Symbol::Semicolon)]
    );
}

#[test]
fn shapes_are_tried_in_a_fixed_order() {
    let shapes = raw_patterns();
    assert_eq!(shapes.len(), 16);
    assert_eq!(shapes[0], TokenType::Symbol { stype: Symbol::LeftBrace });
    assert_eq!(shapes[4], TokenType::Symbol { stype: Symbol::Semicolon });
    assert_eq!(shapes[5], TokenType::Operator { otype: Operator::Negate });
    assert_eq!(shapes[10], TokenType::Operator { otype: Operator::Divide });
    assert_eq!(shapes[11], TokenType::Keyword { ktype: Keyword::Int });
    assert_eq!(shapes[12], TokenType::Keyword { ktype: Keyword::Return });
    assert_eq!(shapes[13], TokenType::Integer { itype: Integer::Hexadecimal });
    assert_eq!(shapes[14], TokenType::Integer { itype: Integer::Decimal });
    assert_eq!(shapes[15], TokenType::Identifier);
}

#[test]
fn patterns_are_anchored_and_consume_white_space() {
    let int = TokenType::Keyword { ktype: Keyword::Int };
    assert_eq!(int.regex(), "int");
    assert_eq!(int.bound(), "\\b");
    assert_eq!(int.prepare(), "^int\\b\\s*");
    let plus = TokenType::Operator { otype: Operator::Plus };
    assert_eq!(plus.regex(), "\\+");
    assert_eq!(plus.bound(), "");
    assert_eq!(plus.prepare(), "^\\+\\s*");
    assert_eq!(TokenType::Identifier.prepare(), "^[a-zA-Z]+\\s*");
    assert_eq!(
        TokenType::Integer { itype: Integer::Hexadecimal }.prepare(),
        "^0x[0-9a-fA-F]+\\s*"
    );
}

#[test]
fn every_shape_has_a_pattern_that_compiles() {
    for shape in raw_patterns() {
        let def = TokenDef::create(shape).unwrap();
        assert_eq!(def.ttype, shape);
        assert_eq!(def.regex.as_str(), shape.prepare());
    }
}

#[test]
fn a_token_is_built_from_the_offsets_of_its_match() {
    let text = "main  () {";
    let (token, rest) = take_token(TokenType::Identifier, text, 0, 6);
    assert_eq!(token, Token { ttype: TokenType::Identifier, value: Some("main".to_string()) });
    assert_eq!(rest, "() {");
    let (token, rest) = take_token(TokenType::Symbol { stype: Symbol::LeftParenthesis }, rest, 0, 1);
    assert_eq!(token, Token { ttype: TokenType::Symbol { stype: Symbol::LeftParenthesis }, value: None });
    assert_eq!(rest, ") {");
    let (token, rest) = take_token(TokenType::Integer { itype: Integer::Decimal }, "é 12 ;", 3, 6);
    assert_eq!(
        token,
        Token { ttype: TokenType::Integer { itype: Integer::Decimal }, value: Some("12".to_string()) }
    );
    assert_eq!(rest, ";");
}

#[test]
fn integer_notations_have_their_bases() {
    assert_eq!(Integer::Decimal.base(), 10);
    assert_eq!(Integer::Hexadecimal.base(), 16);
}
