use rcc::lexer::{lex, Integer, Keyword, Operator, Symbol, Token, TokenType};
use rcc::parser::{
    get_op, parse, parse_exp, parse_factor, parse_fn, parse_statement, parse_term, print_exp,
    print_factor, print_func, print_program, print_stmt, print_term, Expression, Factor, Function,
    ParseError, Program, Statement, Term,
};
use rcc::text::decode_literal;
use std::collections::VecDeque;

fn tokens_of(src: &str) -> VecDeque<Token> {
    lex(&src.to_string()).unwrap()
}

fn bare(ttype: TokenType) -> Token {
    Token { ttype, value: None }
}

fn symbol(stype: Symbol) -> Token {
    bare(TokenType::Symbol { stype })
}

fn operator(otype: Operator) -> Token {
    bare(TokenType::Operator { otype })
}

fn constant(n: u32) -> Term {
    Term::Factor(Factor::Const(n))
}

fn binary_exp(left: Expression, operator: Operator, right: Term) -> Expression {
    Expression::BinaryOperation { left: Box::new(left), operator, right }
}

fn binary_term(left: Term, operator: Operator, right: Factor) -> Term {
    Term::BinaryOperation { left: Box::new(left), operator, right }
}

fn unary(operator: Operator, factor: Factor) -> Factor {
    Factor::UnaryOperation { operator, factor: Box::new(factor) }
}

fn expression_of(src: &str) -> Expression {
    let mut tokens = tokens_of(src);
    let exp = parse_exp(&mut tokens).unwrap();
    assert!(tokens.is_empty());
    exp
}

fn program_error(src: &str) -> ParseError {
    parse(tokens_of(src)).unwrap_err()
}

fn unexpected(found: Option<Token>, expected: TokenType) -> ParseError {
    ParseError::UnexpectedToken { found, expected }
}

#[test]
fn parses_a_minimal_program() {
    let expected = Program {
        function: Function {
            name: "main".to_string(),
            statement: Statement::Return(Expression::Term(constant(2))),
        },
    };
    assert_eq!(parse(tokens_of("int main() { return 2; }")), Ok(expected));
}

#[test]
fn multiplication_binds_tighter_than_addition() {
    let mut tokens = tokens_of("return 1+2*3;");
    let stmt = parse_statement(&mut tokens).unwrap();
    assert!(tokens.is_empty());
    let expected = Statement::Return(binary_exp(
        Expression::Term(constant(1)),
        Operator::Plus,
        binary_term(constant(2), Operator::Star, Factor::Const(3)),
    ));
    assert_eq!(stmt, expected);
}

#[test]
fn parentheses_override_precedence() {
    let mut tokens = tokens_of("return (1+2)*3;");
    let stmt = parse_statement(&mut tokens).unwrap();
    assert!(tokens.is_empty());
    let sum = binary_exp(Expression::Term(constant(1)), Operator::Plus, constant(2));
    let expected = Statement::Return(Expression::Term(binary_term(
        Term::Factor(Factor::Expression(Box::new(sum))),
        Operator::Star,
        Factor::Const(3),
    )));
    assert_eq!(stmt, expected);
}

#[test]
fn additive_operators_group_to_the_left() {
    let expected = binary_exp(
        binary_exp(Expression::Term(constant(10)), Operator::Negate, constant(3)),
        Operator::Plus,
        constant(2),
    );
    assert_eq!(expression_of("10 - 3 + 2"), expected);
}

#[test]
fn multiplicative_operators_group_to_the_left() {
    let expected = Expression::Term(binary_term(
        binary_term(constant(8), Operator::Divide, Factor::Const(4)),
        Operator::Star,
        Factor::Const(2),
    ));
    assert_eq!(expression_of("8 / 4 * 2"), expected);
}

#[test]
fn unary_operators_nest_to_the_right() {
    let expected = Expression::Term(Term::Factor(unary(
        Operator::Negate,
        unary(Operator::Not, unary(Operator::Bang, Factor::Const(5))),
    )));
    assert_eq!(expression_of("-~!5"), expected);
}

#[test]
fn a_minus_after_an_operand_subtracts_and_before_one_negates() {
    let expected = binary_exp(
        Expression::Term(constant(1)),
        Operator::Negate,
        Term::Factor(unary(Operator::Negate, Factor::Const(2))),
    );
    assert_eq!(expression_of("1 - -2"), expected);
}

#[test]
fn an_expression_stops_before_a_token_that_cannot_continue_it() {
    let mut tokens = tokens_of("1 + 2 ) 3");
    let exp = parse_exp(&mut tokens).unwrap();
    assert_eq!(exp, binary_exp(Expression::Term(constant(1)), Operator::Plus, constant(2)));
    assert_eq!(tokens.len(), 2);
    assert_eq!(tokens[0], symbol(Symbol::RightParenthesis));
}

#[test]
fn a_term_stops_before_an_additive_operator() {
    let mut tokens = tokens_of("2 * 3 + 4");
    let term = parse_term(&mut tokens).unwrap();
    assert_eq!(term, binary_term(constant(2), Operator::Star, Factor::Const(3)));
    assert_eq!(tokens.len(), 2);
    assert_eq!(tokens[0], operator(Operator::Plus));
}

#[test]
fn a_factor_consumes_only_its_own_tokens() {
    let mut tokens = tokens_of("(7) 8");
    let factor = parse_factor(&mut tokens).unwrap();
    assert_eq!(factor, Factor::Expression(Box::new(Expression::Term(constant(7)))));
    assert_eq!(tokens.len(), 1);
}

#[test]
fn literals_are_decoded_in_their_base() {
    assert_eq!(expression_of("0x1F"), Expression::Term(constant(31)));
    assert_eq!(expression_of("0xff"), Expression::Term(constant(255)));
    assert_eq!(expression_of("0010"), Expression::Term(constant(10)));
    assert_eq!(expression_of("4294967295"), Expression::Term(constant(4294967295)));
    assert_eq!(expression_of("0xFFFFFFFF"), Expression::Term(constant(4294967295)));
}

#[test]
fn decoding_tells_digits_from_other_text() {
    assert_eq!(decode_literal(Integer::Decimal, "0"), Some(0));
    assert_eq!(decode_literal(Integer::Decimal, "1234567890"), Some(1234567890));
    assert_eq!(decode_literal(Integer::Decimal, "4294967295"), Some(4294967295));
    assert_eq!(decode_literal(Integer::Decimal, "4294967296"), None);
    assert_eq!(decode_literal(Integer::Decimal, "99999999999999999999"), None);
    assert_eq!(decode_literal(Integer::Decimal, ""), None);
    assert_eq!(decode_literal(Integer::Decimal, "12a"), None);
    assert_eq!(decode_literal(Integer::Decimal, "+5"), None);
    assert_eq!(decode_literal(Integer::Decimal, "١٢"), None);
    assert_eq!(decode_literal(Integer::Hexadecimal, "0x0"), Some(0));
    assert_eq!(decode_literal(Integer::Hexadecimal, "0xAbCdEf"), Some(0xabcdef));
    assert_eq!(decode_literal(Integer::Hexadecimal, "1f"), Some(31));
    assert_eq!(decode_literal(Integer::Hexadecimal, "0x"), None);
    assert_eq!(decode_literal(Integer::Hexadecimal, "0x100000000"), None);
    assert_eq!(decode_literal(Integer::Hexadecimal, "0xg"), None);
    assert_eq!(decode_literal(Integer::Hexadecimal, "0X1"), None);
}

#[test]
fn missing_expression_is_an_unexpected_factor() {
    assert_eq!(
        program_error("int main() { return ; }"),
        ParseError::UnexpectedFactor { found: Some(symbol(Symbol::Semicolon)) }
    );
}

#[test]
fn a_binary_operator_starts_no_factor() {
    assert_eq!(
        program_error("int main() { return * 2; }"),
        ParseError::UnexpectedFactor { found: Some(operator(Operator::Star)) }
    );
    assert_eq!(
        program_error("int main() { return 1 + / 2; }"),
        ParseError::UnexpectedFactor { found: Some(operator(Operator::Divide)) }
    );
}

#[test]
fn the_end_of_the_input_starts_no_factor() {
    assert_eq!(
        program_error("int main() { return 1 +"),
        ParseError::UnexpectedFactor { found: None }
    );
}

#[test]
fn a_literal_above_32_bits_starts_no_factor() {
    let literal = Token {
        ttype: TokenType::Integer { itype: Integer::Decimal },
        value: Some("4294967296".to_string()),
    };
    assert_eq!(
        program_error("int main() { return 4294967296; }"),
        ParseError::UnexpectedFactor { found: Some(literal) }
    );
}

#[test]
fn a_literal_without_text_starts_no_factor() {
    let literal = bare(TokenType::Integer { itype: Integer::Decimal });
    let mut tokens = VecDeque::new();
    tokens.push_back(bare(TokenType::Integer { itype: Integer::Decimal }));
    assert_eq!(
        parse_factor(&mut tokens),
        Err(ParseError::UnexpectedFactor { found: Some(literal) })
    );
}

#[test]
fn each_token_of_a_function_is_required_in_its_place() {
    let int = TokenType::Keyword { ktype: Keyword::Int };
    let ret = TokenType::Keyword { ktype: Keyword::Return };
    let name = Token { ttype: TokenType::Identifier, value: Some("main".to_string()) };
    assert_eq!(program_error(""), unexpected(None, int));
    assert_eq!(program_error("main() { return 2; }"), unexpected(Some(name), int));
    assert_eq!(
        program_error("int () { return 2; }"),
        unexpected(Some(symbol(Symbol::LeftParenthesis)), TokenType::Identifier)
    );
    assert_eq!(
        program_error("int main) { return 2; }"),
        unexpected(
            Some(symbol(Symbol::RightParenthesis)),
            TokenType::Symbol { stype: Symbol::LeftParenthesis }
        )
    );
    assert_eq!(
        program_error("int main( { return 2; }"),
        unexpected(
            Some(symbol(Symbol::LeftBrace)),
            TokenType::Symbol { stype: Symbol::RightParenthesis }
        )
    );
    assert_eq!(
        program_error("int main() return 2; }"),
        unexpected(Some(bare(ret)), TokenType::Symbol { stype: Symbol::LeftBrace })
    );
    assert_eq!(
        program_error("int main() { 2; }"),
        unexpected(
            Some(Token {
                ttype: TokenType::Integer { itype: Integer::Decimal },
                value: Some("2".to_string())
            }),
            ret
        )
    );
    assert_eq!(
        program_error("int main() { return 2 }"),
        unexpected(
            Some(symbol(Symbol::RightBrace)),
            TokenType::Symbol { stype: Symbol::Semicolon }
        )
    );
    assert_eq!(
        program_error("int main() { return 2;"),
        unexpected(None, TokenType::Symbol { stype: Symbol::RightBrace })
    );
    assert_eq!(
        program_error("int main() { return (2; }"),
        unexpected(
            Some(symbol(Symbol::Semicolon)),
            TokenType::Symbol { stype: Symbol::RightParenthesis }
        )
    );
}

#[test]
fn an_identifier_without_text_is_no_name() {
    let mut tokens = VecDeque::new();
    tokens.push_back(bare(TokenType::Keyword { ktype: Keyword::Int }));
    tokens.push_back(bare(TokenType::Identifier));
    assert_eq!(
        parse_fn(&mut tokens),
        Err(unexpected(Some(bare(TokenType::Identifier)), TokenType::Identifier))
    );
    assert!(tokens.is_empty());
}

#[test]
fn tokens_after_the_function_are_not_looked_at() {
    let program = parse(tokens_of("int main() { return 2; } int")).unwrap();
    assert_eq!(program.function.name, "main");
}

#[test]
fn operators_are_written_as_in_the_source() {
    assert_eq!(get_op(&Operator::Negate), "-");
    assert_eq!(get_op(&Operator::Not), "~");
    assert_eq!(get_op(&Operator::Bang), "!");
    assert_eq!(get_op(&Operator::Plus), "+");
    assert_eq!(get_op(&Operator::Star), "*");
    assert_eq!(get_op(&Operator::Divide), "/");
}

#[test]
fn trees_are_listed_in_source_notation() {
    assert_eq!(print_exp(&expression_of("1+2*3")), "1 + 2 * 3");
    assert_eq!(print_exp(&expression_of("(1+2)*3")), "(1 + 2) * 3");
    assert_eq!(print_exp(&expression_of("-~!0x10")), "-~!16");
    assert_eq!(print_exp(&expression_of("10-3-2")), "10 - 3 - 2");
    assert_eq!(print_term(&binary_term(constant(8), Operator::Divide, Factor::Const(4))), "8 / 4");
    assert_eq!(print_factor(&Factor::Const(4294967295)), "4294967295");
    assert_eq!(print_factor(&Factor::Const(0)), "0");
    assert_eq!(print_factor(&unary(Operator::Negate, Factor::Const(7))), "-7");
}

#[test]
fn a_program_is_listed_with_its_function_and_statement() {
    let program = parse(tokens_of("int main() { return 1+2*3; }")).unwrap();
    assert_eq!(print_stmt(&program.function.statement), "\tRETURN 1 + 2 * 3\n");
    assert_eq!(print_func(&program.function), "FUNCTION main:\n\tRETURN 1 + 2 * 3\n");
    assert_eq!(print_program(&program), "FUNCTION main:\n\tRETURN 1 + 2 * 3\n");
}

#[test]
fn a_listed_expression_parses_back_to_the_same_tree() {
    for src in [
        "1+2*3",
        "(1+2)*3",
        "-5",
        "!0",
        "~(1 - -2) / 3 * (4 + 5)",
        "((((7))))",
        "1 - 2 - 3 - 4",
        "0xff / 0x10 * !~-0",
        "4294967295 + 0",
    ] {
        let tree = expression_of(src);
        let listed = print_exp(&tree);
        assert_eq!(expression_of(&listed), tree);
        assert_eq!(print_exp(&expression_of(&listed)), listed);
    }
}

#[test]
fn a_constant_written_in_decimal_reads_back() {
    for n in [0u32, 1, 9, 10, 99, 100, 255, 65536, 1234567890, 4294967294, 4294967295] {
        let written = print_factor(&Factor::Const(n));
        assert_eq!(written, n.to_string());
        assert_eq!(decode_literal(Integer::Decimal, &written), Some(n));
    }
}

#[test]
fn parsed_programs_always_have_code() {
    for src in [
        "int main() { return 0; }",
        "int f() { return -~!1 + 2 * (3 - 4) / 5; }",
        "int g() { return ((1)); }",
    ] {
        let program = parse(tokens_of(src)).unwrap();
        assert!(rcc::generator::generate_prog(&program).is_ok());
    }
}
