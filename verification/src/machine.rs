//! A model of the target machine, just large enough to run the instructions
//! that the generator emits: four 64-bit registers, the zero flag and a
//! stack. It exists in specifications and proofs only.

use crate::generator::{
    reg, DoubleArgInst, LineView, NoArgInst, Param, Register, SingleArgInst,
};
use vstd::prelude::*;

verus! {

/// The number of values of a 64-bit word.
pub open spec fn word_count() -> int {
    0x1_0000_0000_0000_0000
}

/// The 64-bit word, read as a signed number, whose bits are the low 64 bits
/// of `v` in two's complement.
pub open spec fn wrap(v: int) -> i64 {
    let low = v % word_count();
    if low > i64::MAX {
        (low - word_count()) as i64
    } else {
        low as i64
    }
}

/// A 64-bit word read as an unsigned number.
pub open spec fn unsigned(v: i64) -> int {
    if v < 0 {
        v + word_count()
    } else {
        v as int
    }
}

/// The quotient of `a` by `b`, rounded toward zero. `b` is not zero.
pub open spec fn trunc_div(a: int, b: int) -> int {
    if a >= 0 {
        if b > 0 {
            a / b
        } else {
            -(a / (-b))
        }
    } else {
        if b > 0 {
            -((-a) / b)
        } else {
            (-a) / (-b)
        }
    }
}

/// The low byte of a word, as a number from 0 to 255.
pub open spec fn low_byte(v: i64) -> int {
    (v as int) % 256
}

/// The exit status that a returned value gives: its low byte.
pub open spec fn exit_status(value: i64) -> int {
    low_byte(value)
}

/// The state of the machine.
pub struct Machine {
    pub rax: i64,
    pub rbx: i64,
    pub rcx: i64,
    pub rdx: i64,
    /// The zero flag: whether the last result was zero, or `None` after an
    /// instruction that leaves the flag undefined.
    pub zero: Option<bool>,
    /// The words pushed since the function was entered, the newest last.
    pub stack: Seq<i64>,
    /// The exit status, once the function has returned.
    pub exit: Option<int>,
}

impl Machine {
    /// The content of a register. `AL` is the low byte of `RAX`.
    pub open spec fn get(self, r: Register) -> i64 {
        match r {
            Register::RAX => self.rax,
            Register::RBX => self.rbx,
            Register::RCX => self.rcx,
            Register::RDX => self.rdx,
            Register::AL => low_byte(self.rax) as i64,
        }
    }

    /// The machine after `v` is written to a register. Writing to `AL`
    /// replaces the low byte of `RAX` by the low byte of `v`.
    pub open spec fn set(self, r: Register, v: i64) -> Machine {
        match r {
            Register::RAX => Machine { rax: v, ..self },
            Register::RBX => Machine { rbx: v, ..self },
            Register::RCX => Machine { rcx: v, ..self },
            Register::RDX => Machine { rdx: v, ..self },
            Register::AL => Machine {
                rax: (self.rax - low_byte(self.rax) + low_byte(v)) as i64,
                ..self
            },
        }
    }

    /// The machine with the zero flag set by the result `v`.
    pub open spec fn flag(self, v: i64) -> Machine {
        Machine { zero: Some(v == 0), ..self }
    }

    /// The machine with the zero flag undefined.
    pub open spec fn no_flag(self) -> Machine {
        Machine { zero: None, ..self }
    }
}

/// `r` is one of the 64-bit registers.
pub open spec fn is_wide(r: Register) -> bool {
    r != Register::AL
}

/// The value of a 64-bit operand: a constant, or the content of a 64-bit
/// register.
pub open spec fn operand(m: Machine, p: Param) -> Option<i64> {
    match p {
        Param::Const(c) => Some(c as i64),
        Param::Register(r) => if is_wide(r) {
            Some(m.get(r))
        } else {
            None
        },
    }
}

/// The instruction takes the source operand: `mov` any, the others a register
/// or a constant that fits in 31 bits, which is its own sign extension.
pub open spec fn takes_source(inst: DoubleArgInst, src: Param) -> bool {
    inst == DoubleArgInst::Mov || match src {
        Param::Const(c) => c <= i32::MAX,
        Param::Register(_) => true,
    }
}

/// What `idiv` does with the divisor in `r`, a 64-bit register. The dividend
/// has 128 bits: its high half is `RDX`, read as signed, its low half `RAX`,
/// read as unsigned. The quotient, rounded toward zero, goes to `RAX` and the
/// remainder to `RDX`; the flag is left undefined. The instruction faults if
/// the divisor is zero or the quotient does not fit in a word.
#[verifier::opaque]
pub open spec fn divide(m: Machine, r: Register) -> Option<Machine> {
    let divisor = m.get(r);
    let dividend = m.rdx * word_count() + unsigned(m.rax);
    let quotient = trunc_div(dividend, divisor as int);
    if is_wide(r) && divisor != 0 && i64::MIN <= quotient <= i64::MAX {
        Some(
            Machine {
                rax: quotient as i64,
                rdx: (dividend - quotient * divisor) as i64,
                zero: None,
                ..m
            },
        )
    } else {
        None
    }
}

/// What an instruction with one operand does, `None` where it faults or its
/// operand has no such form.
pub open spec fn step_one(m: Machine, inst: SingleArgInst, arg: Param) -> Option<Machine> {
    match inst {
        SingleArgInst::Push => match operand(m, arg) {
            Some(v) => Some(Machine { stack: m.stack.push(v), ..m }),
            None => None,
        },
        SingleArgInst::Pop => match arg {
            Param::Register(r) => if is_wide(r) && m.stack.len() > 0 {
                Some(Machine { stack: m.stack.drop_last(), ..m.set(r, m.stack.last()) })
            } else {
                None
            },
            _ => None,
        },
        SingleArgInst::Neg => match arg {
            Param::Register(r) => if is_wide(r) {
                let v = wrap(-m.get(r));
                Some(m.set(r, v).flag(v))
            } else {
                None
            },
            _ => None,
        },
        SingleArgInst::Not => match arg {
            Param::Register(r) => if is_wide(r) {
                Some(m.set(r, (-m.get(r) - 1) as i64))
            } else {
                None
            },
            _ => None,
        },
        SingleArgInst::Idiv => match arg {
            Param::Register(r) => divide(m, r),
            _ => None,
        },
        SingleArgInst::Sete => match (arg, m.zero) {
            (Param::Register(Register::AL), Some(z)) => Some(
                m.set(
                    Register::AL,
                    if z {
                        1
                    } else {
                        0
                    },
                ),
            ),
            _ => None,
        },
    }
}

/// What an instruction with a source and a destination does, `None` where
/// its operands have no such form. The destination is a 64-bit register.
pub open spec fn step_two(m: Machine, inst: DoubleArgInst, src: Param, dst: Param) -> Option<
    Machine,
> {
    match (operand(m, src), dst) {
        (Some(s), Param::Register(r)) => if is_wide(r) && takes_source(inst, src) {
            let d = m.get(r);
            match inst {
                DoubleArgInst::Mov => Some(m.set(r, s)),
                DoubleArgInst::Cmp => Some(m.flag(wrap(d - s))),
                DoubleArgInst::Add => Some(m.set(r, wrap(d + s)).flag(wrap(d + s))),
                DoubleArgInst::Sub => Some(m.set(r, wrap(d - s)).flag(wrap(d - s))),
                DoubleArgInst::Imul => Some(m.set(r, wrap(d * s)).no_flag()),
            }
        } else {
            None
        },
        _ => None,
    }
}

/// What one line does to the machine. Directives and labels do nothing;
/// `ret` needs the stack as it was at entry, and ends the run with the low
/// byte of the accumulator as exit status.
pub open spec fn step(m: Machine, line: LineView) -> Option<Machine> {
    match line {
        LineView::Directive(_, _) => Some(m),
        LineView::Label(_) => Some(m),
        LineView::NoArgInst(NoArgInst::Ret) => if m.stack.len() == 0 {
            Some(Machine { exit: Some(exit_status(m.rax)), ..m })
        } else {
            None
        },
        LineView::SingleArgInst(inst, arg) => step_one(m, inst, arg),
        LineView::DoubleArgInst(inst, src, dst) => step_two(m, inst, src, dst),
    }
}

/// Runs the lines in order, until the function returns or the lines end.
/// `None` if a line faults.
pub open spec fn run(code: Seq<LineView>, m: Machine) -> Option<Machine>
    decreases code.len(),
{
    if code.len() == 0 || m.exit is Some {
        Some(m)
    } else {
        match step(m, code[0]) {
            Some(next) => run(code.skip(1), next),
            None => None,
        }
    }
}

/// Running one line is taking one step.
pub proof fn lemma_run_one(line: LineView, m: Machine)
    requires
        m.exit is None,
    ensures
        run(seq![line], m) == step(m, line),
{
    let code = seq![line];
    if let Some(next) = step(m, line) {
        assert(run(code.skip(1), next) == Some(next));
    }
}

/// Running two pieces of code laid end to end is running the first and then,
/// from where it ends, the second.
pub proof fn lemma_run_concat(a: Seq<LineView>, b: Seq<LineView>, m: Machine)
    ensures
        run(a + b, m) == match run(a, m) {
            Some(mid) => run(b, mid),
            None => None,
        },
    decreases a.len(),
{
    if a.len() == 0 {
        assert(a + b =~= b);
    } else if m.exit is Some {
        lemma_run_halted(b, m);
    } else {
        assert((a + b).skip(1) =~= a.skip(1) + b);
        if let Some(next) = step(m, a[0]) {
            lemma_run_concat(a.skip(1), b, next);
        }
    }
}

/// After the function has returned nothing runs.
pub proof fn lemma_run_halted(code: Seq<LineView>, m: Machine)
    requires
        m.exit is Some,
    ensures
        run(code, m) == Some(m),
{
}

/// Running code and one more line.
pub proof fn lemma_run_push(code: Seq<LineView>, line: LineView, m: Machine)
    ensures
        run(code.push(line), m) == match run(code, m) {
            Some(mid) => if mid.exit is Some {
                Some(mid)
            } else {
                step(mid, line)
            },
            None => None,
        },
{
    assert(code.push(line) =~= code + seq![line]);
    lemma_run_concat(code, seq![line], m);
    if let Some(mid) = run(code, m) {
        if mid.exit is None {
            lemma_run_one(line, mid);
        }
    }
}

/// Dividing a dividend that is not negative, with its high half clear, by a
/// divisor that is not zero leaves their quotient in the accumulator.
pub proof fn lemma_idiv_step(m: Machine)
    requires
        m.rdx == 0,
        m.rax >= 0,
        m.rbx != 0,
    ensures
        step_one(m, SingleArgInst::Idiv, reg(Register::RBX)) matches Some(end) && end.rax
            == trunc_div(m.rax as int, m.rbx as int) && end.stack == m.stack && end.exit == m.exit,
{
    reveal(divide);
    lemma_trunc_div_bound(m.rax as int, m.rbx as int);
    assert(m.rdx * word_count() == 0) by (nonlinear_arith)
        requires
            m.rdx == 0,
    ;
}

/// A quotient is no larger in magnitude than its dividend.
pub proof fn lemma_trunc_div_bound(a: int, b: int)
    requires
        a >= 0,
        b != 0,
    ensures
        -a <= trunc_div(a, b) <= a,
{
    if b > 0 {
        assert(0 <= a / b <= a) by (nonlinear_arith)
            requires
                a >= 0,
                b > 0,
        ;
    } else {
        let c = -b;
        assert(0 <= a / c <= a) by (nonlinear_arith)
            requires
                a >= 0,
                c > 0,
        ;
    }
}

} // verus!
