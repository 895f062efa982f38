use rcc::compiler::{compile, CompileError};
use rcc::generator::{
    append, combine, generate, generate_exp, generate_factor, generate_fn, generate_prog,
    generate_stmt, generate_term, Directive, DoubleArgInst, GenerateError, Line, NoArgInst, Param,
    Register, SingleArgInst, Syntax,
};
use rcc::lexer::{lex, LexError, Operator, Symbol, Token, TokenType};
use rcc::parser::{parse, Expression, Factor, Function, ParseError, Program, Statement, Term};

fn program_of(src: &str) -> Program {
    parse(lex(&src.to_string()).unwrap()).unwrap()
}

fn returning(expression: &str) -> Program {
    program_of(&format!("int main() {{ return {}; }}", expression))
}

fn expression_of(expression: &str) -> Expression {
    match returning(expression).function.statement {
        Statement::Return(exp) => exp,
    }
}

fn rax() -> Param {
    Param::Register(Register::RAX)
}

fn rbx() -> Param {
    Param::Register(Register::RBX)
}

fn rcx() -> Param {
    Param::Register(Register::RCX)
}

fn rdx() -> Param {
    Param::Register(Register::RDX)
}

fn load(n: u32) -> Line {
    Line::DoubleArgInst(DoubleArgInst::Mov, Param::Const(n), rax())
}

fn push() -> Line {
    Line::SingleArgInst(SingleArgInst::Push, rax())
}

fn pop() -> Line {
    Line::SingleArgInst(SingleArgInst::Pop, rcx())
}

/// Runs instruction lines on 64-bit registers and gives the exit status.
fn exit_status(lines: &[Line]) -> u8 {
    let mut regs = [0i64; 4];
    let mut zero = false;
    let mut stack: Vec<i64> = Vec::new();
    let index = |r: &Register| match r {
        Register::RAX | Register::AL => 0,
        Register::RBX => 1,
        Register::RCX => 2,
        Register::RDX => 3,
    };
    for line in lines {
        match line {
            Line::Directive(..) | Line::Label(..) => {}
            Line::NoArgInst(NoArgInst::Ret) => {
                assert!(stack.is_empty());
                return regs[0] as u8;
            }
            Line::SingleArgInst(inst, Param::Register(r)) => {
                let i = index(r);
                match inst {
                    SingleArgInst::Push => stack.push(regs[i]),
                    SingleArgInst::Pop => regs[i] = stack.pop().unwrap(),
                    SingleArgInst::Neg => {
                        regs[i] = regs[i].wrapping_neg();
                        zero = regs[i] == 0;
                    }
                    SingleArgInst::Not => regs[i] = !regs[i],
                    SingleArgInst::Sete => {
                        assert_eq!(*r, Register::AL);
                        regs[0] = (regs[0] & !0xff) | (zero as i64);
                    }
                    SingleArgInst::Idiv => {
                        let dividend = ((regs[3] as i128) << 64) | (regs[0] as u64 as i128);
                        let divisor = regs[i] as i128;
                        regs[0] = i64::try_from(dividend / divisor).unwrap();
                        regs[3] = (dividend % divisor) as i64;
                    }
                }
            }
            Line::DoubleArgInst(inst, src, Param::Register(dst)) => {
                let s = match src {
                    Param::Const(n) => *n as i64,
                    Param::Register(r) => regs[index(r)],
                };
                let d = index(dst);
                match inst {
                    DoubleArgInst::Mov => regs[d] = s,
                    DoubleArgInst::Cmp => zero = regs[d] == s,
                    DoubleArgInst::Add => {
                        regs[d] = regs[d].wrapping_add(s);
                        zero = regs[d] == 0;
                    }
                    DoubleArgInst::Sub => {
                        regs[d] = regs[d].wrapping_sub(s);
                        zero = regs[d] == 0;
                    }
                    DoubleArgInst::Imul => regs[d] = regs[d].wrapping_mul(s),
                }
            }
            other => panic!("no such instruction: {:?}", other),
        }
    }
    panic!("the code does not return");
}

#[test]
fn negation_of_a_constant_is_move_negate_return() {
    let lines = generate_prog(&returning("-5")).unwrap();
    let expected = vec![
        Line::Directive(Directive::Globl, "main".to_string()),
        Line::Label("main".to_string()),
        load(5),
        Line::SingleArgInst(SingleArgInst::Neg, rax()),
        Line::NoArgInst(NoArgInst::Ret),
    ];
    assert_eq!(lines, expected);
}

#[test]
fn logical_not_is_compare_clear_set() {
    let lines = generate_exp(&expression_of("!0")).unwrap();
    let expected = vec![
        load(0),
        Line::DoubleArgInst(DoubleArgInst::Cmp, Param::Const(0), rax()),
        Line::DoubleArgInst(DoubleArgInst::Mov, Param::Const(0), rax()),
        Line::SingleArgInst(SingleArgInst::Sete, Param::Register(Register::AL)),
    ];
    assert_eq!(lines, expected);
    assert_eq!(exit_status(&generate_prog(&returning("!0")).unwrap()), 1);
    assert_eq!(exit_status(&generate_prog(&returning("!5")).unwrap()), 0);
}

#[test]
fn bitwise_not_is_one_instruction() {
    let lines = generate_exp(&expression_of("~3")).unwrap();
    assert_eq!(lines, vec![load(3), Line::SingleArgInst(SingleArgInst::Not, rax())]);
}

#[test]
fn addition_saves_the_left_operand_on_the_stack() {
    let lines = generate_exp(&expression_of("1+2")).unwrap();
    let expected = vec![
        load(1),
        push(),
        load(2),
        pop(),
        Line::DoubleArgInst(DoubleArgInst::Add, rcx(), rax()),
    ];
    assert_eq!(lines, expected);
}

#[test]
fn subtraction_moves_the_difference_to_the_accumulator() {
    let lines = generate_exp(&expression_of("7-2")).unwrap();
    let expected = vec![
        load(7),
        push(),
        load(2),
        pop(),
        Line::DoubleArgInst(DoubleArgInst::Sub, rax(), rcx()),
        Line::DoubleArgInst(DoubleArgInst::Mov, rcx(), rax()),
    ];
    assert_eq!(lines, expected);
}

#[test]
fn multiplication_is_a_signed_multiply() {
    let lines = generate_exp(&expression_of("3*4")).unwrap();
    let expected = vec![
        load(3),
        push(),
        load(4),
        pop(),
        Line::DoubleArgInst(DoubleArgInst::Imul, rcx(), rax()),
    ];
    assert_eq!(lines, expected);
}

#[test]
fn division_stages_divisor_and_dividend() {
    let lines = generate_exp(&expression_of("9/3")).unwrap();
    let expected = vec![
        load(9),
        push(),
        load(3),
        pop(),
        Line::DoubleArgInst(DoubleArgInst::Mov, rax(), rbx()),
        Line::DoubleArgInst(DoubleArgInst::Mov, rcx(), rax()),
        Line::DoubleArgInst(DoubleArgInst::Mov, Param::Const(0), rdx()),
        Line::SingleArgInst(SingleArgInst::Idiv, rbx()),
    ];
    assert_eq!(lines, expected);
}

#[test]
fn parentheses_add_no_code() {
    assert_eq!(
        generate_exp(&expression_of("((5))")).unwrap(),
        generate_exp(&expression_of("5")).unwrap()
    );
    assert_eq!(generate_factor(&Factor::Const(5)).unwrap(), vec![load(5)]);
}

#[test]
fn nested_operations_keep_the_stack_discipline() {
    let lines = generate_exp(&expression_of("1+2*3")).unwrap();
    let expected = vec![
        load(1),
        push(),
        load(2),
        push(),
        load(3),
        pop(),
        Line::DoubleArgInst(DoubleArgInst::Imul, rcx(), rax()),
        pop(),
        Line::DoubleArgInst(DoubleArgInst::Add, rcx(), rax()),
    ];
    assert_eq!(lines, expected);
}

#[test]
fn a_statement_ends_with_return_and_a_function_starts_with_its_label() {
    let program = returning("2");
    assert_eq!(
        generate_stmt(&program.function.statement).unwrap(),
        vec![load(2), Line::NoArgInst(NoArgInst::Ret)]
    );
    assert_eq!(
        generate_fn(&program.function).unwrap(),
        vec![
            Line::Directive(Directive::Globl, "main".to_string()),
            Line::Label("main".to_string()),
            load(2),
            Line::NoArgInst(NoArgInst::Ret),
        ]
    );
}

#[test]
fn compiled_programs_exit_with_the_value_of_their_expression() {
    for (expression, status) in [
        ("2", 2u8),
        ("1+2*3", 7),
        ("(1+2)*3", 9),
        ("-5", 251),
        ("~0", 255),
        ("!0", 1),
        ("!5", 0),
        ("!!7", 1),
        ("7/2", 3),
        ("10-3-2", 5),
        ("100/5/2", 10),
        ("2*(3+4)-5", 9),
        ("7/(0-2)", 253),
        ("1-2", 255),
        ("0xff+1", 0),
        ("4294967295*4294967295", 1),
        ("-(2+3)*4", 236),
    ] {
        let lines = generate_prog(&returning(expression)).unwrap();
        assert_eq!(exit_status(&lines), status, "return {};", expression);
    }
}

#[test]
fn an_operator_out_of_place_has_no_code() {
    let five = || Term::Factor(Factor::Const(5));
    let in_expression = Expression::BinaryOperation {
        left: Box::new(Expression::Term(five())),
        operator: Operator::Star,
        right: five(),
    };
    assert_eq!(
        generate_exp(&in_expression),
        Err(GenerateError::UnsupportedOperator { operator: Operator::Star })
    );
    let in_term = Term::BinaryOperation {
        left: Box::new(five()),
        operator: Operator::Plus,
        right: Factor::Const(5),
    };
    assert_eq!(
        generate_term(&in_term),
        Err(GenerateError::UnsupportedOperator { operator: Operator::Plus })
    );
    let in_factor =
        Factor::UnaryOperation { operator: Operator::Divide, factor: Box::new(Factor::Const(5)) };
    assert_eq!(
        generate_factor(&in_factor),
        Err(GenerateError::UnsupportedOperator { operator: Operator::Divide })
    );
    let program = Program {
        function: Function {
            name: "main".to_string(),
            statement: Statement::Return(Expression::Term(Term::Factor(in_factor))),
        },
    };
    assert_eq!(
        generate(&program, &Syntax::ATT),
        Err(GenerateError::UnsupportedOperator { operator: Operator::Divide })
    );
}

#[test]
fn the_first_operator_out_of_place_is_reported() {
    let bad = |operator| Factor::UnaryOperation { operator, factor: Box::new(Factor::Const(1)) };
    let term = Term::BinaryOperation {
        left: Box::new(Term::Factor(bad(Operator::Plus))),
        operator: Operator::Negate,
        right: bad(Operator::Star),
    };
    assert_eq!(
        generate_term(&term),
        Err(GenerateError::UnsupportedOperator { operator: Operator::Plus })
    );
    let term = Term::BinaryOperation {
        left: Box::new(Term::Factor(Factor::Const(1))),
        operator: Operator::Negate,
        right: bad(Operator::Star),
    };
    assert_eq!(
        generate_term(&term),
        Err(GenerateError::UnsupportedOperator { operator: Operator::Star })
    );
}

#[test]
fn lines_are_written_in_att_syntax() {
    let att = Syntax::ATT;
    assert_eq!(Line::Directive(Directive::Globl, "main".to_string()).apply_syntax(&att), ".globl main");
    assert_eq!(Line::Label("main".to_string()).apply_syntax(&att), "main:");
    assert_eq!(Line::NoArgInst(NoArgInst::Ret).apply_syntax(&att), "\tret");
    assert_eq!(push().apply_syntax(&att), "\tpush\t%rax");
    assert_eq!(pop().apply_syntax(&att), "\tpop\t%rcx");
    assert_eq!(Line::SingleArgInst(SingleArgInst::Idiv, rbx()).apply_syntax(&att), "\tidiv\t%rbx");
    assert_eq!(
        Line::SingleArgInst(SingleArgInst::Sete, Param::Register(Register::AL)).apply_syntax(&att),
        "\tsete\t%al"
    );
    assert_eq!(load(4294967295).apply_syntax(&att), "\tmov\t$4294967295, %rax");
    assert_eq!(
        Line::DoubleArgInst(DoubleArgInst::Sub, rax(), rcx()).apply_syntax(&att),
        "\tsub\t%rax, %rcx"
    );
    assert_eq!(
        Line::DoubleArgInst(DoubleArgInst::Imul, rcx(), rax()).apply_syntax(&att),
        "\timul\t%rcx, %rax"
    );
    assert_eq!(
        Line::DoubleArgInst(DoubleArgInst::Cmp, Param::Const(0), rdx()).apply_syntax(&att),
        "\tcmp\t$0, %rdx"
    );
}

#[test]
fn names_are_written_in_lower_case() {
    assert_eq!(Directive::Globl.to_asm(), "globl");
    assert_eq!(NoArgInst::Ret.to_asm(), "ret");
    assert_eq!(SingleArgInst::Neg.to_asm(), "neg");
    assert_eq!(SingleArgInst::Not.to_asm(), "not");
    assert_eq!(DoubleArgInst::Add.to_asm(), "add");
    assert_eq!(Register::RAX.to_asm(), "rax");
    assert_eq!(Register::AL.to_asm(), "al");
    assert_eq!(Param::Const(10).to_string(), "$10");
    assert_eq!(Param::Const(0).to_string(), "$0");
    assert_eq!(Param::Register(Register::RDX).to_string(), "%rdx");
}

#[test]
fn lists_of_lines_are_joined_in_order() {
    assert_eq!(combine(vec![1, 2], vec![3, 4]), vec![1, 2, 3, 4]);
    assert_eq!(combine(Vec::<u8>::new(), vec![3]), vec![3]);
    assert_eq!(append(vec![1, 2], 3), vec![1, 2, 3]);
    assert_eq!(append(Vec::new(), 'a'), vec!['a']);
}

#[test]
fn a_source_text_compiles_to_assembly_text() {
    let text = compile(&"int main() { return -5; }".to_string(), &Syntax::ATT).unwrap();
    assert_eq!(text, vec![".globl main", "main:", "\tmov\t$5, %rax", "\tneg\t%rax", "\tret"]);
    let text = generate(&returning("!0"), &Syntax::ATT).unwrap();
    assert_eq!(
        text,
        vec![
            ".globl main",
            "main:",
            "\tmov\t$0, %rax",
            "\tcmp\t$0, %rax",
            "\tmov\t$0, %rax",
            "\tsete\t%al",
            "\tret",
        ]
    );
}

#[test]
fn compiling_fails_with_the_error_of_the_stage_that_fails() {
    assert_eq!(
        compile(&"int main() { return 2 $ }".to_string(), &Syntax::ATT),
        Err(CompileError::Lex(LexError::UnrecognizedToken { rest: "$ }".to_string() }))
    );
    let semicolon = Token { ttype: TokenType::Symbol { stype: Symbol::Semicolon }, value: None };
    assert_eq!(
        compile(&"int main() { return ; }".to_string(), &Syntax::ATT),
        Err(CompileError::Parse(ParseError::UnexpectedFactor { found: Some(semicolon) }))
    );
}
