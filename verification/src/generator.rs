//! Code generation: from the syntax tree to assembly lines.
//!
//! The code for every expression leaves its value in the accumulator. A
//! binary operation evaluates its left operand, pushes it, evaluates its right
//! operand, pops the left one into the scratch register and combines the two.

use crate::lexer::{Operator, TokenView};
use crate::parser::{
    exp_wf, factor_wf, lemma_parsed_program_is_well_formed, program_wf, spec_parse, term_wf,
    Expression, Factor, Function, FunctionView, Program, ProgramView, Statement, Term,
};
use crate::text::{decimal_text, push_decimal};
use vstd::prelude::*;
use vstd::string::*;

verus! {

/// The assembler dialect in which lines are written.
#[derive(Debug, Clone, Copy, PartialEq, Eq, Structural)]
pub enum Syntax {
    ATT,
}

/// Assembler directives.
#[derive(Debug, Clone, Copy, PartialEq, Eq, Structural)]
pub enum Directive {
    Globl,
}

/// Instructions without operands.
#[derive(Debug, Clone, Copy, PartialEq, Eq, Structural)]
pub enum NoArgInst {
    Ret,
}

/// Instructions with one operand.
#[derive(Debug, Clone, Copy, PartialEq, Eq, Structural)]
pub enum SingleArgInst {
    Sete,
    Not,
    Neg,
    Push,
    Idiv,
    Pop,
}

/// Instructions with a source and a destination operand.
#[derive(Debug, Clone, Copy, PartialEq, Eq, Structural)]
pub enum DoubleArgInst {
    Mov,
    Cmp,
    Add,
    Sub,
    Imul,
}

/// The registers that generated code uses. `AL` is the low byte of `RAX`.
#[derive(Debug, Clone, Copy, PartialEq, Eq, Structural)]
pub enum Register {
    RAX,
    RBX,
    RCX,
    RDX,
    AL,
}

/// An operand: an immediate constant or a register.
#[derive(Debug, Clone, Copy, PartialEq, Eq, Structural)]
pub enum Param {
    Const(u32),
    Register(Register),
}

/// Holds the value of the expression just evaluated.
pub const ACCUMULATOR: Register = Register::RAX;

/// Holds the left operand of a binary operation while the two are combined.
pub const SCRATCH: Register = Register::RCX;

/// Holds the divisor of a division.
pub const DIVISOR: Register = Register::RBX;

/// The high half of a division's dividend.
pub const DIVIDEND_HIGH: Register = Register::RDX;

/// The low byte of the accumulator.
pub const ACCUMULATOR_LOW: Register = Register::AL;

/// One line of assembly.
#[derive(Debug, PartialEq, Eq)]
pub enum Line {
    Directive(Directive, String),
    Label(String),
    NoArgInst(NoArgInst),
    SingleArgInst(SingleArgInst, Param),
    DoubleArgInst(DoubleArgInst, Param, Param),
}

/// The mathematical value of a [`Line`].
pub enum LineView {
    Directive(Directive, Seq<char>),
    Label(Seq<char>),
    NoArgInst(NoArgInst),
    SingleArgInst(SingleArgInst, Param),
    DoubleArgInst(DoubleArgInst, Param, Param),
}

impl View for Line {
    type V = LineView;

    open spec fn view(&self) -> LineView {
        match *self {
            Line::Directive(directive, text) => LineView::Directive(directive, text@),
            Line::Label(label) => LineView::Label(label@),
            Line::NoArgInst(inst) => LineView::NoArgInst(inst),
            Line::SingleArgInst(inst, arg) => LineView::SingleArgInst(inst, arg),
            Line::DoubleArgInst(inst, src, dst) => LineView::DoubleArgInst(inst, src, dst),
        }
    }
}

/// The values of a sequence of lines.
pub open spec fn line_views(lines: Seq<Line>) -> Seq<LineView> {
    lines.map_values(|l: Line| l@)
}

/// Why a syntax tree has no code.
#[derive(Debug, Clone, Copy, PartialEq, Eq, Structural)]
pub enum GenerateError {
    /// The tree holds `operator` where the grammar has no such operation: in
    /// an expression anything but `+` and `-`, in a term anything but `*` and
    /// `/`, before a factor anything but `-`, `~` and `!`.
    UnsupportedOperator { operator: Operator },
}

/// The outcome of generating code, as a value.
pub open spec fn code_outcome(r: Result<Vec<Line>, GenerateError>) -> Result<
    Seq<LineView>,
    GenerateError,
> {
    match r {
        Ok(lines) => Ok(line_views(lines@)),
        Err(e) => Err(e),
    }
}

/// The operand that names a register.
pub open spec fn reg(r: Register) -> Param {
    Param::Register(r)
}

/// The instruction `inst arg`.
pub open spec fn one(inst: SingleArgInst, arg: Param) -> LineView {
    LineView::SingleArgInst(inst, arg)
}

/// The instruction `inst src, dst`.
pub open spec fn two(inst: DoubleArgInst, src: Param, dst: Param) -> LineView {
    LineView::DoubleArgInst(inst, src, dst)
}

/// The code that combines the left operand, in the scratch register, with the
/// right operand, in the accumulator, by `+` or `-`. Subtraction leaves the
/// difference in the scratch register and moves it to the accumulator.
pub open spec fn spec_additive_code(operator: Operator) -> Result<Seq<LineView>, GenerateError> {
    match operator {
        Operator::Plus => Ok(seq![two(DoubleArgInst::Add, reg(SCRATCH), reg(ACCUMULATOR))]),
        Operator::Negate => Ok(
            seq![
                two(DoubleArgInst::Sub, reg(ACCUMULATOR), reg(SCRATCH)),
                two(DoubleArgInst::Mov, reg(SCRATCH), reg(ACCUMULATOR)),
            ],
        ),
        _ => Err(GenerateError::UnsupportedOperator { operator }),
    }
}

/// The code that combines the left operand, in the scratch register, with the
/// right operand, in the accumulator, by `*` or `/`. Division moves the right
/// operand to the divisor register and the left one to the accumulator, clears
/// the high half of the dividend and divides.
pub open spec fn spec_multiplicative_code(operator: Operator) -> Result<
    Seq<LineView>,
    GenerateError,
> {
    match operator {
        Operator::Star => Ok(seq![two(DoubleArgInst::Imul, reg(SCRATCH), reg(ACCUMULATOR))]),
        Operator::Divide => Ok(
            seq![
                two(DoubleArgInst::Mov, reg(ACCUMULATOR), reg(DIVISOR)),
                two(DoubleArgInst::Mov, reg(SCRATCH), reg(ACCUMULATOR)),
                two(DoubleArgInst::Mov, Param::Const(0), reg(DIVIDEND_HIGH)),
                one(SingleArgInst::Idiv, reg(DIVISOR)),
            ],
        ),
        _ => Err(GenerateError::UnsupportedOperator { operator }),
    }
}

/// The code that applies a unary operator to the accumulator. Logical
/// negation compares the accumulator with zero, clears it, and sets its low
/// byte if the comparison found equality.
pub open spec fn spec_unary_code(operator: Operator) -> Result<Seq<LineView>, GenerateError> {
    match operator {
        Operator::Negate => Ok(seq![one(SingleArgInst::Neg, reg(ACCUMULATOR))]),
        Operator::Not => Ok(seq![one(SingleArgInst::Not, reg(ACCUMULATOR))]),
        Operator::Bang => Ok(
            seq![
                two(DoubleArgInst::Cmp, Param::Const(0), reg(ACCUMULATOR)),
                two(DoubleArgInst::Mov, Param::Const(0), reg(ACCUMULATOR)),
                one(SingleArgInst::Sete, reg(ACCUMULATOR_LOW)),
            ],
        ),
        _ => Err(GenerateError::UnsupportedOperator { operator }),
    }
}

/// The code of a binary operation, from the code of its operands and of its
/// operator: left operand, push, right operand, pop, operator.
pub open spec fn spec_binary_code(
    left: Seq<LineView>,
    right: Seq<LineView>,
    operator: Seq<LineView>,
) -> Seq<LineView> {
    (left.push(one(SingleArgInst::Push, reg(ACCUMULATOR))) + right).push(
        one(SingleArgInst::Pop, reg(SCRATCH)),
    ) + operator
}

/// The code of a factor. A constant is moved into the accumulator;
/// parentheses add nothing to the code of the expression inside; a unary
/// operation is the operand's code and then the operator's.
pub open spec fn spec_generate_factor(factor: Factor) -> Result<Seq<LineView>, GenerateError>
    decreases factor,
{
    match factor {
        Factor::Expression(exp) => spec_generate_exp(*exp),
        Factor::Const(n) => Ok(seq![two(DoubleArgInst::Mov, Param::Const(n), reg(ACCUMULATOR))]),
        Factor::UnaryOperation { operator, factor } => match spec_generate_factor(*factor) {
            Err(e) => Err(e),
            Ok(operand) => match spec_unary_code(operator) {
                Err(e) => Err(e),
                Ok(code) => Ok(operand + code),
            },
        },
    }
}

/// The code of a term.
pub open spec fn spec_generate_term(term: Term) -> Result<Seq<LineView>, GenerateError>
    decreases term,
{
    match term {
        Term::Factor(factor) => spec_generate_factor(factor),
        Term::BinaryOperation { left, operator, right } => match spec_generate_term(*left) {
            Err(e) => Err(e),
            Ok(l) => match spec_generate_factor(right) {
                Err(e) => Err(e),
                Ok(r) => match spec_multiplicative_code(operator) {
                    Err(e) => Err(e),
                    Ok(code) => Ok(spec_binary_code(l, r, code)),
                },
            },
        },
    }
}

/// The code of an expression.
pub open spec fn spec_generate_exp(exp: Expression) -> Result<Seq<LineView>, GenerateError>
    decreases exp,
{
    match exp {
        Expression::Term(term) => spec_generate_term(term),
        Expression::BinaryOperation { left, operator, right } => match spec_generate_exp(*left) {
            Err(e) => Err(e),
            Ok(l) => match spec_generate_term(right) {
                Err(e) => Err(e),
                Ok(r) => match spec_additive_code(operator) {
                    Err(e) => Err(e),
                    Ok(code) => Ok(spec_binary_code(l, r, code)),
                },
            },
        },
    }
}

/// The code of a statement: the returned expression's, then `ret`.
pub open spec fn spec_generate_stmt(stmt: Statement) -> Result<Seq<LineView>, GenerateError> {
    match stmt {
        Statement::Return(exp) => match spec_generate_exp(exp) {
            Err(e) => Err(e),
            Ok(code) => Ok(code.push(LineView::NoArgInst(NoArgInst::Ret))),
        },
    }
}

/// The code of a function: a directive that makes its name global, its
/// label, and its statement's code.
pub open spec fn spec_generate_fn(func: FunctionView) -> Result<Seq<LineView>, GenerateError> {
    match spec_generate_stmt(func.statement) {
        Err(e) => Err(e),
        Ok(code) => Ok(
            seq![LineView::Directive(Directive::Globl, func.name), LineView::Label(func.name)]
                + code,
        ),
    }
}

/// The code of a program: that of its function.
pub open spec fn spec_generate_prog(prog: ProgramView) -> Result<Seq<LineView>, GenerateError> {
    spec_generate_fn(prog.function)
}

/// A factor has code exactly if every operator in it stands where the
/// grammar allows it.
pub proof fn lemma_factor_has_code(factor: Factor)
    ensures
        spec_generate_factor(factor) is Ok <==> factor_wf(factor),
    decreases factor,
{
    match factor {
        Factor::Expression(exp) => {
            lemma_exp_has_code(*exp);
        },
        Factor::Const(_) => {},
        Factor::UnaryOperation { operator, factor } => {
            lemma_factor_has_code(*factor);
        },
    }
}

/// A term has code exactly if every operator in it stands where the grammar
/// allows it.
pub proof fn lemma_term_has_code(term: Term)
    ensures
        spec_generate_term(term) is Ok <==> term_wf(term),
    decreases term,
{
    match term {
        Term::Factor(factor) => {
            lemma_factor_has_code(factor);
        },
        Term::BinaryOperation { left, operator, right } => {
            lemma_term_has_code(*left);
            lemma_factor_has_code(right);
        },
    }
}

/// An expression has code exactly if every operator in it stands where the
/// grammar allows it.
pub proof fn lemma_exp_has_code(exp: Expression)
    ensures
        spec_generate_exp(exp) is Ok <==> exp_wf(exp),
    decreases exp,
{
    match exp {
        Expression::Term(term) => {
            lemma_term_has_code(term);
        },
        Expression::BinaryOperation { left, operator, right } => {
            lemma_exp_has_code(*left);
            lemma_term_has_code(right);
        },
    }
}

/// A program has code exactly if every operator in it stands where the
/// grammar allows it.
pub proof fn lemma_program_has_code(prog: ProgramView)
    ensures
        spec_generate_prog(prog) is Ok <==> program_wf(prog),
{
    let Statement::Return(exp) = prog.function.statement;
    lemma_exp_has_code(exp);
}

/// Every program that the parser builds has code: generation cannot fail
/// after parsing has succeeded.
pub proof fn lemma_parsed_program_has_code(tokens: Seq<TokenView>)
    ensures
        spec_parse(tokens) matches Ok(prog) ==> spec_generate_prog(prog) is Ok,
{
    lemma_parsed_program_is_well_formed(tokens);
    if let Ok(prog) = spec_parse(tokens) {
        lemma_program_has_code(prog);
    }
}

impl Directive {
    /// The directive's name in assembly.
    pub open spec fn asm_text(self) -> Seq<char> {
        match self {
            Directive::Globl => "globl"@,
        }
    }

    /// The directive's name in assembly.
    pub fn to_asm(&self) -> (r: String)
        ensures
            r@ == self.asm_text(),
    {
        match self {
            Directive::Globl => String::from_str("globl"),
        }
    }
}

impl NoArgInst {
    /// The instruction's mnemonic.
    pub open spec fn asm_text(self) -> Seq<char> {
        match self {
            NoArgInst::Ret => "ret"@,
        }
    }

    /// The instruction's mnemonic.
    pub fn to_asm(&self) -> (r: String)
        ensures
            r@ == self.asm_text(),
    {
        match self {
            NoArgInst::Ret => String::from_str("ret"),
        }
    }
}

impl SingleArgInst {
    /// The instruction's mnemonic.
    pub open spec fn asm_text(self) -> Seq<char> {
        match self {
            SingleArgInst::Sete => "sete"@,
            SingleArgInst::Not => "not"@,
            SingleArgInst::Neg => "neg"@,
            SingleArgInst::Push => "push"@,
            SingleArgInst::Idiv => "idiv"@,
            SingleArgInst::Pop => "pop"@,
        }
    }

    /// The instruction's mnemonic.
    pub fn to_asm(&self) -> (r: String)
        ensures
            r@ == self.asm_text(),
    {
        match self {
            SingleArgInst::Sete => String::from_str("sete"),
            SingleArgInst::Not => String::from_str("not"),
            SingleArgInst::Neg => String::from_str("neg"),
            SingleArgInst::Push => String::from_str("push"),
            SingleArgInst::Idiv => String::from_str("idiv"),
            SingleArgInst::Pop => String::from_str("pop"),
        }
    }
}

impl DoubleArgInst {
    /// The instruction's mnemonic.
    pub open spec fn asm_text(self) -> Seq<char> {
        match self {
            DoubleArgInst::Mov => "mov"@,
            DoubleArgInst::Cmp => "cmp"@,
            DoubleArgInst::Add => "add"@,
            DoubleArgInst::Sub => "sub"@,
            DoubleArgInst::Imul => "imul"@,
        }
    }

    /// The instruction's mnemonic.
    pub fn to_asm(&self) -> (r: String)
        ensures
            r@ == self.asm_text(),
    {
        match self {
            DoubleArgInst::Mov => String::from_str("mov"),
            DoubleArgInst::Cmp => String::from_str("cmp"),
            DoubleArgInst::Add => String::from_str("add"),
            DoubleArgInst::Sub => String::from_str("sub"),
            DoubleArgInst::Imul => String::from_str("imul"),
        }
    }
}

impl Register {
    /// The register's name in assembly.
    pub open spec fn asm_text(self) -> Seq<char> {
        match self {
            Register::RAX => "rax"@,
            Register::RBX => "rbx"@,
            Register::RCX => "rcx"@,
            Register::RDX => "rdx"@,
            Register::AL => "al"@,
        }
    }

    /// The register's name in assembly.
    pub fn to_asm(&self) -> (r: String)
        ensures
            r@ == self.asm_text(),
    {
        match self {
            Register::RAX => String::from_str("rax"),
            Register::RBX => String::from_str("rbx"),
            Register::RCX => String::from_str("rcx"),
            Register::RDX => String::from_str("rdx"),
            Register::AL => String::from_str("al"),
        }
    }
}

impl Param {
    /// The operand in AT&T notation: `$` and the constant in decimal, or `%`
    /// and the register's name.
    pub open spec fn text(self) -> Seq<char> {
        match self {
            Param::Const(n) => "$"@ + decimal_text(n as nat),
            Param::Register(r) => "%"@ + r.asm_text(),
        }
    }

    /// The operand in AT&T notation.
    pub fn to_string(&self) -> (r: String)
        ensures
            r@ == self.text(),
    {
        match self {
            Param::Const(n) => {
                let mut out = String::from_str("$");
                push_decimal(&mut out, *n);
                out
            },
            Param::Register(r) => {
                let mut out = String::from_str("%");
                out.append(r.to_asm().as_str());
                out
            },
        }
    }
}

/// The text of a line. In AT&T syntax a directive is `.`, its name, a space
/// and its argument; a label ends in `:`; an instruction is a tab and its
/// mnemonic, then a tab and its operands, the source before the destination,
/// separated by a comma and a space.
pub open spec fn line_text(line: LineView, syntax: Syntax) -> Seq<char> {
    match syntax {
        Syntax::ATT => match line {
            LineView::Directive(directive, other) => "."@ + directive.asm_text() + " "@ + other,
            LineView::Label(label) => label + ":"@,
            LineView::NoArgInst(inst) => "\t"@ + inst.asm_text(),
            LineView::SingleArgInst(inst, arg) => "\t"@ + inst.asm_text() + "\t"@ + arg.text(),
            LineView::DoubleArgInst(inst, src, dst) => "\t"@ + inst.asm_text() + "\t"@ + src.text()
                + ", "@ + dst.text(),
        },
    }
}

impl Line {
    /// Writes the line in the given syntax.
    pub fn apply_syntax(&self, syntax: &Syntax) -> (r: String)
        ensures
            r@ == line_text(self@, *syntax),
    {
        match syntax {
            Syntax::ATT => match self {
                Line::Directive(directive, other) => {
                    let mut out = String::from_str(".");
                    out.append(directive.to_asm().as_str());
                    out.append(" ");
                    out.append(other.as_str());
                    out
                },
                Line::Label(label) => {
                    let mut out = label.clone();
                    out.append(":");
                    out
                },
                Line::NoArgInst(inst) => {
                    let mut out = String::from_str("\t");
                    out.append(inst.to_asm().as_str());
                    out
                },
                Line::SingleArgInst(inst, arg) => {
                    let mut out = String::from_str("\t");
                    out.append(inst.to_asm().as_str());
                    out.append("\t");
                    out.append(arg.to_string().as_str());
                    out
                },
                Line::DoubleArgInst(inst, src, dst) => {
                    let mut out = String::from_str("\t");
                    out.append(inst.to_asm().as_str());
                    out.append("\t");
                    out.append(src.to_string().as_str());
                    out.append(", ");
                    out.append(dst.to_string().as_str());
                    out
                },
            },
        }
    }
}

/// The lines `left` followed by the lines `right`.
pub fn combine<T>(left: Vec<T>, right: Vec<T>) -> (r: Vec<T>)
    ensures
        r@ == left@ + right@,
{
    let mut left = left;
    let mut right = right;
    left.append(&mut right);
    left
}

/// The lines `left` followed by the line `right`.
pub fn append<T>(left: Vec<T>, right: T) -> (r: Vec<T>)
    ensures
        r@ == left@.push(right),
{
    let mut left = left;
    left.push(right);
    left
}

/// The values of lines laid end to end are the values of the parts.
proof fn lemma_line_views_concat(a: Seq<Line>, b: Seq<Line>)
    ensures
        line_views(a + b) == line_views(a) + line_views(b),
{
}

/// The values of lines with one more line.
proof fn lemma_line_views_push(a: Seq<Line>, l: Line)
    ensures
        line_views(a.push(l)) == line_views(a).push(l@),
{
}

/// The instruction `inst src, dst` on two registers.
fn on_registers(inst: DoubleArgInst, src: Register, dst: Register) -> (r: Line)
    ensures
        r@ == two(inst, reg(src), reg(dst)),
{
    Line::DoubleArgInst(inst, Param::Register(src), Param::Register(dst))
}

/// The instruction `inst arg` on a register.
fn on_register(inst: SingleArgInst, arg: Register) -> (r: Line)
    ensures
        r@ == one(inst, reg(arg)),
{
    Line::SingleArgInst(inst, Param::Register(arg))
}

/// The instruction `inst $value, dst`.
fn on_constant(inst: DoubleArgInst, value: u32, dst: Register) -> (r: Line)
    ensures
        r@ == two(inst, Param::Const(value), reg(dst)),
{
    Line::DoubleArgInst(inst, Param::Const(value), Param::Register(dst))
}

/// The code for `+` or `-` on the scratch register and the accumulator.
fn additive_code(operator: Operator) -> (r: Result<Vec<Line>, GenerateError>)
    ensures
        code_outcome(r) == spec_additive_code(operator),
{
    let mut code: Vec<Line> = Vec::new();
    match operator {
        Operator::Plus => {
            code.push(on_registers(DoubleArgInst::Add, SCRATCH, ACCUMULATOR));
        },
        Operator::Negate => {
            code.push(on_registers(DoubleArgInst::Sub, ACCUMULATOR, SCRATCH));
            code.push(on_registers(DoubleArgInst::Mov, SCRATCH, ACCUMULATOR));
        },
        _ => {
            return Err(GenerateError::UnsupportedOperator { operator });
        },
    }
    assert(line_views(code@) =~= spec_additive_code(operator)->Ok_0);
    Ok(code)
}

/// The code for `*` or `/` on the scratch register and the accumulator.
fn multiplicative_code(operator: Operator) -> (r: Result<Vec<Line>, GenerateError>)
    ensures
        code_outcome(r) == spec_multiplicative_code(operator),
{
    let mut code: Vec<Line> = Vec::new();
    match operator {
        Operator::Star => {
            code.push(on_registers(DoubleArgInst::Imul, SCRATCH, ACCUMULATOR));
        },
        Operator::Divide => {
            code.push(on_registers(DoubleArgInst::Mov, ACCUMULATOR, DIVISOR));
            code.push(on_registers(DoubleArgInst::Mov, SCRATCH, ACCUMULATOR));
            code.push(on_constant(DoubleArgInst::Mov, 0, DIVIDEND_HIGH));
            code.push(on_register(SingleArgInst::Idiv, DIVISOR));
        },
        _ => {
            return Err(GenerateError::UnsupportedOperator { operator });
        },
    }
    assert(line_views(code@) =~= spec_multiplicative_code(operator)->Ok_0);
    Ok(code)
}

/// The code for a unary operator on the accumulator.
fn unary_code(operator: Operator) -> (r: Result<Vec<Line>, GenerateError>)
    ensures
        code_outcome(r) == spec_unary_code(operator),
{
    let mut code: Vec<Line> = Vec::new();
    match operator {
        Operator::Negate => {
            code.push(on_register(SingleArgInst::Neg, ACCUMULATOR));
        },
        Operator::Not => {
            code.push(on_register(SingleArgInst::Not, ACCUMULATOR));
        },
        Operator::Bang => {
            code.push(on_constant(DoubleArgInst::Cmp, 0, ACCUMULATOR));
            code.push(on_constant(DoubleArgInst::Mov, 0, ACCUMULATOR));
            code.push(on_register(SingleArgInst::Sete, ACCUMULATOR_LOW));
        },
        _ => {
            return Err(GenerateError::UnsupportedOperator { operator });
        },
    }
    assert(line_views(code@) =~= spec_unary_code(operator)->Ok_0);
    Ok(code)
}

/// Lays out a binary operation: left operand, push, right operand, pop,
/// operator.
fn binary_code(left: Vec<Line>, right: Vec<Line>, operator: Vec<Line>) -> (r: Vec<Line>)
    ensures
        line_views(r@) == spec_binary_code(
            line_views(left@),
            line_views(right@),
            line_views(operator@),
        ),
{
    let saved = append(left, on_register(SingleArgInst::Push, ACCUMULATOR));
    let both = combine(saved, right);
    let restored = append(both, on_register(SingleArgInst::Pop, SCRATCH));
    let code = combine(restored, operator);
    proof {
        lemma_line_views_push(left@, saved@.last());
        lemma_line_views_concat(saved@, right@);
        lemma_line_views_push(both@, restored@.last());
        lemma_line_views_concat(restored@, operator@);
    }
    code
}

/// Writes the code of a program, one string per line, in the given syntax.
/// Fails, with the first operator met that the grammar does not allow where
/// it stands, if there is one; a tree that the parser built has none.
pub fn generate(prog: &Program, syntax: &Syntax) -> (r: Result<Vec<String>, GenerateError>)
    ensures
        match spec_generate_prog(prog@) {
            Ok(lines) => r is Ok && r->Ok_0@.map_values(|s: String| s@) == lines.map_values(
                |l: LineView| line_text(l, *syntax),
            ),
            Err(e) => r == Err::<Vec<String>, GenerateError>(e),
        },
{
    let lines = match generate_prog(prog) {
        Ok(lines) => lines,
        Err(e) => {
            return Err(e);
        },
    };
    let mut out: Vec<String> = Vec::new();
    let mut i: usize = 0;
    while i < lines.len()
        invariant
            i <= lines.len(),
            out@.len() == i,
            forall|k: int| 0 <= k < i ==> (#[trigger] out@[k])@ == line_text(lines@[k]@, *syntax),
        decreases lines.len() - i,
    {
        out.push(lines[i].apply_syntax(syntax));
        i += 1;
    }
    Ok(out)
}

/// The code of a program.
pub fn generate_prog(prog: &Program) -> (r: Result<Vec<Line>, GenerateError>)
    ensures
        code_outcome(r) == spec_generate_prog(prog@),
{
    generate_fn(&prog.function)
}

/// The code of a function.
pub fn generate_fn(func: &Function) -> (r: Result<Vec<Line>, GenerateError>)
    ensures
        code_outcome(r) == spec_generate_fn(func@),
{
    let body = match generate_stmt(&func.statement) {
        Ok(body) => body,
        Err(e) => {
            return Err(e);
        },
    };
    let mut head: Vec<Line> = Vec::new();
    head.push(Line::Directive(Directive::Globl, func.name.clone()));
    head.push(Line::Label(func.name.clone()));
    let code = combine(head, body);
    proof {
        lemma_line_views_concat(head@, body@);
        assert(line_views(head@) =~= seq![
            LineView::Directive(Directive::Globl, func@.name),
            LineView::Label(func@.name),
        ]);
    }
    Ok(code)
}

/// The code of a statement.
pub fn generate_stmt(stmt: &Statement) -> (r: Result<Vec<Line>, GenerateError>)
    ensures
        code_outcome(r) == spec_generate_stmt(*stmt),
{
    match stmt {
        Statement::Return(exp) => match generate_exp(exp) {
            Ok(code) => {
                proof {
                    lemma_line_views_push(code@, Line::NoArgInst(NoArgInst::Ret));
                }
                Ok(append(code, Line::NoArgInst(NoArgInst::Ret)))
            },
            Err(e) => Err(e),
        },
    }
}

/// The code of an expression.
pub fn generate_exp(exp: &Expression) -> (r: Result<Vec<Line>, GenerateError>)
    ensures
        code_outcome(r) == spec_generate_exp(*exp),
    decreases exp,
{
    match exp {
        Expression::Term(term) => generate_term(term),
        Expression::BinaryOperation { left, operator, right } => {
            let l = match generate_exp(left) {
                Ok(l) => l,
                Err(e) => {
                    return Err(e);
                },
            };
            let r = match generate_term(right) {
                Ok(r) => r,
                Err(e) => {
                    return Err(e);
                },
            };
            let op = match additive_code(*operator) {
                Ok(op) => op,
                Err(e) => {
                    return Err(e);
                },
            };
            Ok(binary_code(l, r, op))
        },
    }
}

/// The code of a term.
pub fn generate_term(term: &Term) -> (r: Result<Vec<Line>, GenerateError>)
    ensures
        code_outcome(r) == spec_generate_term(*term),
    decreases term,
{
    match term {
        Term::Factor(factor) => generate_factor(factor),
        Term::BinaryOperation { left, operator, right } => {
            let l = match generate_term(left) {
                Ok(l) => l,
                Err(e) => {
                    return Err(e);
                },
            };
            let r = match generate_factor(right) {
                Ok(r) => r,
                Err(e) => {
                    return Err(e);
                },
            };
            let op = match multiplicative_code(*operator) {
                Ok(op) => op,
                Err(e) => {
                    return Err(e);
                },
            };
            Ok(binary_code(l, r, op))
        },
    }
}

/// The code of a factor. The calls nest as deep as the tree does.
pub fn generate_factor(factor: &Factor) -> (r: Result<Vec<Line>, GenerateError>)
    ensures
        code_outcome(r) == spec_generate_factor(*factor),
    decreases factor,
{
    match factor {
        Factor::Expression(exp) => generate_exp(exp),
        Factor::Const(n) => {
            let mut code: Vec<Line> = Vec::new();
            code.push(on_constant(DoubleArgInst::Mov, *n, ACCUMULATOR));
            assert(line_views(code@) =~= spec_generate_factor(*factor)->Ok_0);
            Ok(code)
        },
        Factor::UnaryOperation { operator, factor } => {
            let operand = match generate_factor(factor) {
                Ok(operand) => operand,
                Err(e) => {
                    return Err(e);
                },
            };
            let op = match unary_code(*operator) {
                Ok(op) => op,
                Err(e) => {
                    return Err(e);
                },
            };
            proof {
                lemma_line_views_concat(operand@, op@);
            }
            Ok(combine(operand, op))
        },
    }
}

} // verus!
