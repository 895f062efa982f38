//! What generated code computes.
//!
//! An expression has a value in 64-bit two's complement arithmetic. The
//! module proves that the code of an expression, run on the machine model,
//! leaves that value in the accumulator and the stack as it was, and that the
//! code of a program ends with the value's low byte as its exit status.
//!
//! The division sequence clears the high half of the dividend instead of
//! extending its sign. It therefore divides correctly only a dividend that is
//! not negative, and the theorems ask for that.

use crate::generator::{
    one, reg, spec_additive_code, spec_binary_code, spec_generate_exp, spec_generate_factor,
    spec_generate_prog, spec_generate_term, spec_multiplicative_code, spec_unary_code, two,
    Directive, DoubleArgInst, LineView, NoArgInst, Param, Register, SingleArgInst, ACCUMULATOR,
    SCRATCH,
};
use crate::lexer::Operator;
use crate::machine::{
    exit_status, lemma_idiv_step, lemma_run_concat, lemma_run_one, lemma_run_push,
    lemma_trunc_div_bound, run, step, trunc_div, wrap, Machine,
};
use crate::parser::{
    exp_wf, factor_wf, is_additive, is_multiplicative, is_unary, program_wf, term_wf, Expression,
    Factor, ProgramView, Statement, Term,
};
use vstd::prelude::*;

verus! {

/// The value of a factor in 64-bit two's complement arithmetic.
pub open spec fn factor_value(factor: Factor) -> i64
    decreases factor,
{
    match factor {
        Factor::Expression(exp) => exp_value(*exp),
        Factor::Const(n) => n as i64,
        Factor::UnaryOperation { operator, factor } => {
            let v = factor_value(*factor);
            match operator {
                Operator::Negate => wrap(-v),
                Operator::Not => (-v - 1) as i64,
                Operator::Bang => if v == 0 {
                    1
                } else {
                    0
                },
                _ => 0,
            }
        },
    }
}

/// The value of a term in 64-bit two's complement arithmetic. Division
/// rounds toward zero; a division by zero has the value zero.
pub open spec fn term_value(term: Term) -> i64
    decreases term,
{
    match term {
        Term::Factor(factor) => factor_value(factor),
        Term::BinaryOperation { left, operator, right } => {
            let l = term_value(*left);
            let r = factor_value(right);
            match operator {
                Operator::Star => wrap(l * r),
                Operator::Divide => if r == 0 {
                    0
                } else {
                    wrap(trunc_div(l as int, r as int))
                },
                _ => 0,
            }
        },
    }
}

/// The value of an expression in 64-bit two's complement arithmetic.
pub open spec fn exp_value(exp: Expression) -> i64
    decreases exp,
{
    match exp {
        Expression::Term(term) => term_value(term),
        Expression::BinaryOperation { left, operator, right } => {
            let l = exp_value(*left);
            let r = term_value(right);
            match operator {
                Operator::Plus => wrap(l + r),
                Operator::Negate => wrap(l - r),
                _ => 0,
            }
        },
    }
}

/// The value that a program returns.
pub open spec fn program_value(prog: ProgramView) -> i64 {
    match prog.function.statement {
        Statement::Return(exp) => exp_value(exp),
    }
}

/// Every division in the factor has a dividend that is not negative and a
/// divisor that is not zero.
pub open spec fn factor_divides_naturals(factor: Factor) -> bool
    decreases factor,
{
    match factor {
        Factor::Expression(exp) => exp_divides_naturals(*exp),
        Factor::Const(_) => true,
        Factor::UnaryOperation { operator, factor } => factor_divides_naturals(*factor),
    }
}

/// Every division in the term has a dividend that is not negative and a
/// divisor that is not zero.
pub open spec fn term_divides_naturals(term: Term) -> bool
    decreases term,
{
    match term {
        Term::Factor(factor) => factor_divides_naturals(factor),
        Term::BinaryOperation { left, operator, right } => term_divides_naturals(*left)
            && factor_divides_naturals(right) && (operator == Operator::Divide ==> term_value(*left)
            >= 0 && factor_value(right) != 0),
    }
}

/// Every division in the expression has a dividend that is not negative and
/// a divisor that is not zero. The division sequence clears the high half of
/// the dividend instead of extending its sign, so it divides correctly only
/// then.
pub open spec fn exp_divides_naturals(exp: Expression) -> bool
    decreases exp,
{
    match exp {
        Expression::Term(term) => term_divides_naturals(term),
        Expression::BinaryOperation { left, operator, right } => exp_divides_naturals(*left)
            && term_divides_naturals(right),
    }
}

/// Every division in the program has a dividend that is not negative and a
/// divisor that is not zero.
pub open spec fn program_divides_naturals(prog: ProgramView) -> bool {
    match prog.function.statement {
        Statement::Return(exp) => exp_divides_naturals(exp),
    }
}

/// `rax` holds `value`, and stack and exit are those of `before`.
pub open spec fn yields(after: Option<Machine>, before: Machine, value: i64) -> bool {
    after matches Some(end) && end.rax == value && end.stack == before.stack && end.exit
        == before.exit
}

/// The code of `+` and `-` combines the scratch register and the accumulator.
proof fn lemma_additive_code(operator: Operator, m: Machine)
    requires
        is_additive(operator),
        m.exit is None,
    ensures
        spec_additive_code(operator) matches Ok(code) && yields(
            run(code, m),
            m,
            match operator {
                Operator::Plus => wrap(m.rcx + m.rax),
                _ => wrap(m.rcx - m.rax),
            },
        ),
{
    let code = spec_additive_code(operator)->Ok_0;
    if operator == Operator::Plus {
        lemma_run_one(code[0], m);
    } else {
        assert(code =~= seq![code[0]].push(code[1]));
        lemma_run_one(code[0], m);
        lemma_run_push(seq![code[0]], code[1], m);
    }
}

/// The division sequence divides the scratch register by the accumulator, if
/// the first is not negative and the second is not zero.
proof fn lemma_divide_code(m: Machine)
    requires
        m.exit is None,
        m.rcx >= 0,
        m.rax != 0,
    ensures
        spec_multiplicative_code(Operator::Divide) matches Ok(code) && yields(
            run(code, m),
            m,
            wrap(trunc_div(m.rcx as int, m.rax as int)),
        ),
{
    let code = spec_multiplicative_code(Operator::Divide)->Ok_0;
    let c1 = seq![code[0]];
    let c2 = c1.push(code[1]);
    let c3 = c2.push(code[2]);
    assert(code =~= c3.push(code[3]));
    let m1 = m.set(Register::RBX, m.rax);
    let m2 = m1.set(Register::RAX, m.rcx);
    let m3 = m2.set(Register::RDX, 0);
    lemma_run_one(code[0], m);
    lemma_run_push(c1, code[1], m);
    lemma_run_push(c2, code[2], m);
    lemma_run_push(c3, code[3], m);
    lemma_idiv_step(m3);
    lemma_trunc_div_bound(m.rcx as int, m.rax as int);
}

/// The code of `*` and `/` combines the scratch register and the accumulator.
proof fn lemma_multiplicative_code(operator: Operator, m: Machine)
    requires
        is_multiplicative(operator),
        m.exit is None,
        operator == Operator::Divide ==> m.rcx >= 0 && m.rax != 0,
    ensures
        spec_multiplicative_code(operator) matches Ok(code) && yields(
            run(code, m),
            m,
            match operator {
                Operator::Star => wrap(m.rcx * m.rax),
                _ => wrap(trunc_div(m.rcx as int, m.rax as int)),
            },
        ),
{
    let code = spec_multiplicative_code(operator)->Ok_0;
    if operator == Operator::Star {
        lemma_run_one(code[0], m);
        assert(m.rax * m.rcx == m.rcx * m.rax) by (nonlinear_arith);
    } else {
        lemma_divide_code(m);
    }
}

/// The code of a unary operator applies it to the accumulator.
proof fn lemma_unary_code(operator: Operator, m: Machine)
    requires
        is_unary(operator),
        m.exit is None,
    ensures
        spec_unary_code(operator) matches Ok(code) && yields(
            run(code, m),
            m,
            match operator {
                Operator::Negate => wrap(-m.rax),
                Operator::Not => (-m.rax - 1) as i64,
                _ => if m.rax == 0 {
                    1i64
                } else {
                    0i64
                },
            },
        ),
{
    let code = spec_unary_code(operator)->Ok_0;
    if operator == Operator::Bang {
        let c1 = seq![code[0]];
        let c2 = c1.push(code[1]);
        assert(code =~= c2.push(code[2]));
        lemma_run_one(code[0], m);
        lemma_run_push(c1, code[1], m);
        lemma_run_push(c2, code[2], m);
    } else {
        lemma_run_one(code[0], m);
    }
}

/// The code of a binary operation leaves the left operand in the scratch
/// register and the right one in the accumulator, with the stack as it was,
/// and then runs the operator's code.
proof fn lemma_binary_code(
    left: Seq<LineView>,
    right: Seq<LineView>,
    operator: Seq<LineView>,
    m: Machine,
    l: i64,
    r: i64,
)
    requires
        m.exit is None,
        yields(run(left, m), m, l),
        forall|from: Machine| from.exit is None ==> #[trigger] yields(run(right, from), from, r),
    ensures
        run(spec_binary_code(left, right, operator), m) matches Some(end) ==> exists|mid: Machine|
            mid.exit is None && mid.rcx == l && mid.rax == r && mid.stack == m.stack && run(
                operator,
                mid,
            ) == Some(end),
        run(spec_binary_code(left, right, operator), m) is None ==> exists|mid: Machine|
            mid.exit is None && mid.rcx == l && mid.rax == r && mid.stack == m.stack && run(
                operator,
                mid,
            ) is None,
{
    let push = one(SingleArgInst::Push, reg(ACCUMULATOR));
    let pop = one(SingleArgInst::Pop, reg(SCRATCH));
    let m1 = run(left, m)->0;
    lemma_run_push(left, push, m);
    let m2 = step(m1, push)->0;
    lemma_run_concat(left.push(push), right, m);
    assert(yields(run(right, m2), m2, r));
    let m3 = run(right, m2)->0;
    lemma_run_push(left.push(push) + right, pop, m);
    lemma_run_concat((left.push(push) + right).push(pop), operator, m);
}

/// The code of a well-formed factor computes the factor's value: run from
/// any state, it ends with the value in the accumulator and the stack as
/// before, provided that every division in it has a dividend that is not
/// negative and a divisor that is not zero.
pub proof fn lemma_factor_code(factor: Factor, m: Machine)
    requires
        factor_wf(factor),
        factor_divides_naturals(factor),
        m.exit is None,
    ensures
        spec_generate_factor(factor) matches Ok(code) && yields(
            run(code, m),
            m,
            factor_value(factor),
        ),
    decreases factor,
{
    match factor {
        Factor::Expression(exp) => {
            lemma_exp_code(*exp, m);
        },
        Factor::Const(n) => {
            lemma_run_one(two(DoubleArgInst::Mov, Param::Const(n), reg(ACCUMULATOR)), m);
        },
        Factor::UnaryOperation { operator, factor: inner } => {
            lemma_factor_code(*inner, m);
            let operand_code = spec_generate_factor(*inner)->Ok_0;
            let mid = run(operand_code, m)->0;
            lemma_unary_code(operator, mid);
            lemma_run_concat(operand_code, spec_unary_code(operator)->Ok_0, m);
        },
    }
}

/// The code of a well-formed term computes the term's value, under the same
/// condition on its divisions.
pub proof fn lemma_term_code(term: Term, m: Machine)
    requires
        term_wf(term),
        term_divides_naturals(term),
        m.exit is None,
    ensures
        spec_generate_term(term) matches Ok(code) && yields(run(code, m), m, term_value(term)),
    decreases term,
{
    match term {
        Term::Factor(factor) => {
            lemma_factor_code(factor, m);
        },
        Term::BinaryOperation { left, operator, right } => {
            lemma_term_code(*left, m);
            let l = spec_generate_term(*left)->Ok_0;
            let r = spec_generate_factor(right)->Ok_0;
            assert forall|from: Machine| from.exit is None implies #[trigger] yields(
                run(r, from),
                from,
                factor_value(right),
            ) by {
                lemma_factor_code(right, from);
            }
            lemma_factor_code(right, m);
            let op = spec_multiplicative_code(operator)->Ok_0;
            lemma_binary_code(l, r, op, m, term_value(*left), factor_value(right));
            assert forall|mid: Machine|
                mid.exit is None && mid.rcx == term_value(*left) && mid.rax == factor_value(right)
                    && mid.stack == m.stack implies #[trigger] yields(
                run(op, mid),
                m,
                term_value(term),
            ) by {
                lemma_multiplicative_code(operator, mid);
            }
        },
    }
}

/// The code of a well-formed expression computes the expression's value,
/// under the same condition on its divisions.
pub proof fn lemma_exp_code(exp: Expression, m: Machine)
    requires
        exp_wf(exp),
        exp_divides_naturals(exp),
        m.exit is None,
    ensures
        spec_generate_exp(exp) matches Ok(code) && yields(run(code, m), m, exp_value(exp)),
    decreases exp,
{
    match exp {
        Expression::Term(term) => {
            lemma_term_code(term, m);
        },
        Expression::BinaryOperation { left, operator, right } => {
            lemma_exp_code(*left, m);
            let l = spec_generate_exp(*left)->Ok_0;
            let r = spec_generate_term(right)->Ok_0;
            assert forall|from: Machine| from.exit is None implies #[trigger] yields(
                run(r, from),
                from,
                term_value(right),
            ) by {
                lemma_term_code(right, from);
            }
            lemma_term_code(right, m);
            let op = spec_additive_code(operator)->Ok_0;
            lemma_binary_code(l, r, op, m, exp_value(*left), term_value(right));
            assert forall|mid: Machine|
                mid.exit is None && mid.rcx == exp_value(*left) && mid.rax == term_value(right)
                    && mid.stack == m.stack implies #[trigger] yields(
                run(op, mid),
                m,
                exp_value(exp),
            ) by {
                lemma_additive_code(operator, mid);
            }
        },
    }
}

/// A compiled program returns the value of its expression: its code, run
/// from any state at the function's entry, ends with the value's low byte as
/// exit status. The program is one that the parser can build, and every
/// division in it has a dividend that is not negative and a divisor that is
/// not zero.
pub proof fn lemma_program_exit_status(prog: ProgramView, m: Machine)
    requires
        program_wf(prog),
        program_divides_naturals(prog),
        m.exit is None,
        m.stack.len() == 0,
    ensures
        spec_generate_prog(prog) matches Ok(code) && run(code, m) matches Some(end) && end.exit
            == Some(exit_status(program_value(prog))),
{
    let Statement::Return(exp) = prog.function.statement;
    lemma_exp_code(exp, m);
    let body = spec_generate_exp(exp)->Ok_0;
    let ret = LineView::NoArgInst(NoArgInst::Ret);
    lemma_run_push(body, ret, m);
    let head = seq![
        LineView::Directive(Directive::Globl, prog.function.name),
        LineView::Label(prog.function.name),
    ];
    assert(head =~= seq![head[0]].push(head[1]));
    lemma_run_one(head[0], m);
    lemma_run_push(seq![head[0]], head[1], m);
    lemma_run_concat(head, body.push(ret), m);
}

/// `v` fits in a 64-bit word read as signed.
pub open spec fn is_word(v: int) -> bool {
    i64::MIN <= v <= i64::MAX
}

/// The value of a factor in the arithmetic of the integers, without bounds.
pub open spec fn factor_number(factor: Factor) -> int
    decreases factor,
{
    match factor {
        Factor::Expression(exp) => exp_number(*exp),
        Factor::Const(n) => n as int,
        Factor::UnaryOperation { operator, factor } => {
            let v = factor_number(*factor);
            match operator {
                Operator::Negate => -v,
                Operator::Not => -v - 1,
                Operator::Bang => if v == 0 {
                    1
                } else {
                    0
                },
                _ => 0,
            }
        },
    }
}

/// The value of a term in the arithmetic of the integers. Division rounds
/// toward zero; a division by zero has the value zero.
pub open spec fn term_number(term: Term) -> int
    decreases term,
{
    match term {
        Term::Factor(factor) => factor_number(factor),
        Term::BinaryOperation { left, operator, right } => {
            let l = term_number(*left);
            let r = factor_number(right);
            match operator {
                Operator::Star => l * r,
                Operator::Divide => if r == 0 {
                    0
                } else {
                    trunc_div(l, r)
                },
                _ => 0,
            }
        },
    }
}

/// The value of an expression in the arithmetic of the integers.
pub open spec fn exp_number(exp: Expression) -> int
    decreases exp,
{
    match exp {
        Expression::Term(term) => term_number(term),
        Expression::BinaryOperation { left, operator, right } => {
            let l = exp_number(*left);
            let r = term_number(right);
            match operator {
                Operator::Plus => l + r,
                Operator::Negate => l - r,
                _ => 0,
            }
        },
    }
}

/// The number that a program returns, in the arithmetic of the integers.
pub open spec fn program_number(prog: ProgramView) -> int {
    match prog.function.statement {
        Statement::Return(exp) => exp_number(exp),
    }
}

/// Every operation in the factor has a result that fits in a word, and every
/// division a dividend that is not negative and a divisor that is not zero.
pub open spec fn factor_exact(factor: Factor) -> bool
    decreases factor,
{
    match factor {
        Factor::Expression(exp) => exp_exact(*exp),
        Factor::Const(_) => true,
        Factor::UnaryOperation { operator, factor: operand } => factor_exact(*operand) && is_word(
            factor_number(factor),
        ),
    }
}

/// Every operation in the term has a result that fits in a word, and every
/// division a dividend that is not negative and a divisor that is not zero.
pub open spec fn term_exact(term: Term) -> bool
    decreases term,
{
    match term {
        Term::Factor(factor) => factor_exact(factor),
        Term::BinaryOperation { left, operator, right } => term_exact(*left) && factor_exact(right)
            && is_word(term_number(term)) && (operator == Operator::Divide ==> term_number(*left)
            >= 0 && factor_number(right) != 0),
    }
}

/// Every operation in the expression has a result that fits in a word, and
/// every division a dividend that is not negative and a divisor that is not
/// zero.
pub open spec fn exp_exact(exp: Expression) -> bool
    decreases exp,
{
    match exp {
        Expression::Term(term) => term_exact(term),
        Expression::BinaryOperation { left, operator, right } => exp_exact(*left) && term_exact(
            right,
        ) && is_word(exp_number(exp)),
    }
}

/// Every operation in the program has a result that fits in a word, and
/// every division a dividend that is not negative and a divisor that is not
/// zero.
pub open spec fn program_exact(prog: ProgramView) -> bool {
    match prog.function.statement {
        Statement::Return(exp) => exp_exact(exp),
    }
}

/// Where no operation leaves the range of a word, the value of a factor in
/// 64-bit arithmetic is its value in the arithmetic of the integers.
pub proof fn lemma_exact_factor(factor: Factor)
    requires
        factor_exact(factor),
    ensures
        factor_value(factor) == factor_number(factor),
        factor_divides_naturals(factor),
    decreases factor,
{
    match factor {
        Factor::Expression(exp) => {
            lemma_exact_exp(*exp);
        },
        Factor::Const(_) => {},
        Factor::UnaryOperation { operator, factor: operand } => {
            lemma_exact_factor(*operand);
        },
    }
}

/// Where no operation leaves the range of a word, the value of a term in
/// 64-bit arithmetic is its value in the arithmetic of the integers.
pub proof fn lemma_exact_term(term: Term)
    requires
        term_exact(term),
    ensures
        term_value(term) == term_number(term),
        term_divides_naturals(term),
    decreases term,
{
    match term {
        Term::Factor(factor) => {
            lemma_exact_factor(factor);
        },
        Term::BinaryOperation { left, operator, right } => {
            lemma_exact_term(*left);
            lemma_exact_factor(right);
        },
    }
}

/// Where no operation leaves the range of a word, the value of an expression
/// in 64-bit arithmetic is its value in the arithmetic of the integers.
pub proof fn lemma_exact_exp(exp: Expression)
    requires
        exp_exact(exp),
    ensures
        exp_value(exp) == exp_number(exp),
        exp_divides_naturals(exp),
    decreases exp,
{
    match exp {
        Expression::Term(term) => {
            lemma_exact_term(term);
        },
        Expression::BinaryOperation { left, operator, right } => {
            lemma_exact_exp(*left);
            lemma_exact_term(right);
        },
    }
}

/// A compiled program exits with the number that its expression denotes,
/// reduced modulo 256: its code, run from any state at the function's entry,
/// returns, and the exit status is that remainder. The program is one that
/// the parser can build; no operation in it leaves the range of a 64-bit
/// word, and every division in it has a dividend that is not negative and a
/// divisor that is not zero.
pub proof fn lemma_exact_program_exit_status(prog: ProgramView, m: Machine)
    requires
        program_wf(prog),
        program_exact(prog),
        m.exit is None,
        m.stack.len() == 0,
    ensures
        spec_generate_prog(prog) matches Ok(code) && run(code, m) matches Some(end) && end.exit
            == Some(program_number(prog) % 256),
{
    let Statement::Return(exp) = prog.function.statement;
    lemma_exact_exp(exp);
    lemma_program_exit_status(prog, m);
}

} // verus!
