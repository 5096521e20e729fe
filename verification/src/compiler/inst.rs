//! The instruction model the code generator emits, and its rendering to
//! NASM-syntax text. `::` in user identifiers becomes `_` in label names.

use vstd::prelude::*;

use crate::strings::{replace_str, spec_int_string, spec_replace, i64_string};

verus! {

/// An instruction operand: a register, a label, an immediate, a raw memory
/// operand, or nothing.
#[derive(Debug, Clone)]
pub enum Op {
    Rax,
    Rbx,
    Rcx,
    Rdx,
    Rsi,
    Rsp,
    Rbp,
    R8,
    R9,
    R10,
    R11,
    R12,
    R13,
    R14,
    R15,
    Label(String),
    Immediate(i64),
    Memory(String),
    Ignore,
}

/// The textual rendering of an operand.
pub open spec fn op_text(op: Op) -> Seq<char> {
    match op {
        Op::Rax => "rax"@,
        Op::Rbx => "rbx"@,
        Op::Rcx => "rcx"@,
        Op::Rdx => "rdx"@,
        Op::Rsi => "rsi"@,
        Op::Rsp => "rsp"@,
        Op::Rbp => "rbp"@,
        Op::R8 => "r8"@,
        Op::R9 => "r9"@,
        Op::R10 => "r10"@,
        Op::R11 => "r11"@,
        Op::R12 => "r12"@,
        Op::R13 => "r13"@,
        Op::R14 => "r14"@,
        Op::R15 => "r15"@,
        Op::Label(label) => spec_replace(label@, "::"@, "_"@),
        Op::Immediate(integer) => spec_int_string(integer as int),
        Op::Memory(mem) => mem@,
        Op::Ignore => ""@,
    }
}

pub open spec fn op_is_register(op: Op) -> bool {
    match op {
        Op::Rax | Op::Rbx | Op::Rcx | Op::Rdx | Op::Rsi | Op::Rsp | Op::Rbp | Op::R8 | Op::R9
            | Op::R10 | Op::R11 | Op::R12 | Op::R13 | Op::R14 | Op::R15 => true,
        _ => false,
    }
}

impl Op {
    /// Renders the operand as it appears in the output listing.
    pub fn to_string(&self) -> (r: String)
        ensures
            r@ == op_text(*self),
    {
        match self {
            Op::Rax => String::from_str("rax"),
            Op::Rbx => String::from_str("rbx"),
            Op::Rcx => String::from_str("rcx"),
            Op::Rdx => String::from_str("rdx"),
            Op::Rsi => String::from_str("rsi"),
            Op::Rsp => String::from_str("rsp"),
            Op::Rbp => String::from_str("rbp"),
            Op::R8 => String::from_str("r8"),
            Op::R9 => String::from_str("r9"),
            Op::R10 => String::from_str("r10"),
            Op::R11 => String::from_str("r11"),
            Op::R12 => String::from_str("r12"),
            Op::R13 => String::from_str("r13"),
            Op::R14 => String::from_str("r14"),
            Op::R15 => String::from_str("r15"),
            Op::Label(label) => {
                proof {
                    reveal_strlit("::");
                }
                replace_str(label.as_str(), "::", "_")
            },
            Op::Immediate(integer) => i64_string(*integer),
            Op::Memory(mem) => mem.clone(),
            Op::Ignore => String::from_str(""),
        }
    }

    pub fn is_register(&self) -> (r: bool)
        ensures
            r == op_is_register(*self),
    {
        match self {
            Op::Rax | Op::Rbx | Op::Rcx | Op::Rdx | Op::Rsi | Op::Rsp | Op::Rbp | Op::R8 | Op::R9
                | Op::R10 | Op::R11 | Op::R12 | Op::R13 | Op::R14 | Op::R15 => true,
            _ => false,
        }
    }
}

/// One emitted instruction, or a label line, or nothing.
#[derive(Debug, Clone)]
pub enum Inst {
    Push(Op),
    Pop(Op),
    Mov(Op, Op),
    Lea(Op, Op),
    Call(Op),
    Add(Op, Op),
    Sub(Op, Op),
    Mul(Op),
    Div(Op),
    Xor(Op, Op),
    Cmp(Op, Op),
    Inst2Op(&'static str, Op, Op),
    Inst1Op(&'static str, Op),
    Label(String),
    Ret,
    Ignore,
}

/// A two-operand instruction line over operand texts:
/// `\t<name> <dest>, <src>\n`.
pub open spec fn line2t(name: Seq<char>, dest: Seq<char>, src: Seq<char>) -> Seq<char> {
    "\t"@ + name + " "@ + dest + ", "@ + src + "\n"@
}

/// A one-operand instruction line over an operand text: `\t<name> <op>\n`.
pub open spec fn line1t(name: Seq<char>, op: Seq<char>) -> Seq<char> {
    "\t"@ + name + " "@ + op + "\n"@
}

/// A two-operand instruction line: `\t<name> <dest>, <src>\n`.
pub open spec fn line2(name: Seq<char>, dest: Op, src: Op) -> Seq<char> {
    line2t(name, op_text(dest), op_text(src))
}

/// A one-operand instruction line: `\t<name> <op>\n`.
pub open spec fn line1(name: Seq<char>, op: Op) -> Seq<char> {
    line1t(name, op_text(op))
}

/// A call line; `::` in the target becomes `_`.
pub open spec fn call_line(target: Seq<char>) -> Seq<char> {
    line1t("call"@, spec_replace(target, "::"@, "_"@))
}

/// A jump line (`jz`, `jmp`, ...); `::` in the target becomes `_`.
pub open spec fn jump_line(name: Seq<char>, target: Seq<char>) -> Seq<char> {
    line1t(name, spec_replace(target, "::"@, "_"@))
}

/// A label-definition line; `::` in the name becomes `_`.
pub open spec fn label_line(name: Seq<char>) -> Seq<char> {
    spec_replace(name + ":"@ + "\n"@, "::"@, "_"@)
}

/// The textual rendering of an instruction.
pub open spec fn inst_text(inst: Inst) -> Seq<char> {
    match inst {
        Inst::Push(op) => line1("push"@, op),
        Inst::Pop(op) => line1("pop"@, op),
        Inst::Mov(dest, src) => line2("mov"@, dest, src),
        Inst::Lea(dest, src) => line2("lea"@, dest, src),
        Inst::Call(op) => line1("call"@, op),
        Inst::Add(dest, src) => line2("add"@, dest, src),
        Inst::Sub(dest, src) => line2("sub"@, dest, src),
        Inst::Mul(op) => line1("mul"@, op),
        Inst::Div(op) => line1("div"@, op),
        Inst::Xor(dest, src) => line2("xor"@, dest, src),
        Inst::Cmp(dest, src) => line2("cmp"@, dest, src),
        Inst::Inst2Op(name, dest, src) => line2(name@, dest, src),
        Inst::Inst1Op(name, op) => line1(name@, op),
        Inst::Label(label) => spec_replace(label@ + "\n"@, "::"@, "_"@),
        Inst::Ret => "\tret\n"@,
        Inst::Ignore => ""@,
    }
}

/// The concatenated rendering of a list of instructions.
pub open spec fn insts_text(insts: Seq<Inst>) -> Seq<char>
    decreases insts.len(),
{
    if insts.len() == 0 {
        Seq::empty()
    } else {
        inst_text(insts.first()) + insts_text(insts.drop_first())
    }
}

/// Rendering distributes over concatenation.
pub proof fn lemma_insts_text_concat(a: Seq<Inst>, b: Seq<Inst>)
    ensures
        insts_text(a + b) == insts_text(a) + insts_text(b),
    decreases a.len(),
{
    if a.len() == 0 {
        assert(a + b =~= b);
        assert(insts_text(a) + insts_text(b) =~= insts_text(b));
    } else {
        assert((a + b).drop_first() =~= a.drop_first() + b);
        assert((a + b).first() == a.first());
        lemma_insts_text_concat(a.drop_first(), b);
        assert(insts_text(a + b) =~= insts_text(a) + insts_text(b));
    }
}

/// Rendering distributes over appending one instruction.
pub proof fn lemma_insts_text_push(a: Seq<Inst>, x: Inst)
    ensures
        insts_text(a.push(x)) == insts_text(a) + inst_text(x),
{
    assert(a.push(x) =~= a + seq![x]);
    lemma_insts_text_concat(a, seq![x]);
    assert(seq![x].drop_first() =~= Seq::<Inst>::empty());
    assert(insts_text(seq![x]) == inst_text(x) + insts_text(Seq::<Inst>::empty()));
    assert(inst_text(x) + Seq::<char>::empty() =~= inst_text(x));
}

/// The rendering of short instruction lists, flattened: these discharge the
/// recursive `insts_text` against a flat concatenation.
pub proof fn lemma_text1(insts: Seq<Inst>, expect: Seq<char>)
    requires
        insts.len() == 1,
        inst_text(insts[0]) + Seq::<char>::empty() =~= expect,
    ensures
        insts_text(insts) == expect,
{
    assert(insts.drop_first() =~= Seq::<Inst>::empty());
    assert(insts_text(Seq::<Inst>::empty()) == Seq::<char>::empty());
    assert(insts_text(insts) == inst_text(insts[0]) + Seq::<char>::empty());
}

pub proof fn lemma_text2(insts: Seq<Inst>, expect: Seq<char>)
    requires
        insts.len() == 2,
        inst_text(insts[0]) + inst_text(insts[1]) =~= expect,
    ensures
        insts_text(insts) == expect,
{
    lemma_text1(insts.drop_first(), inst_text(insts[1]));
    assert(inst_text(insts[1]) + Seq::<char>::empty() =~= inst_text(insts[1]));
}

pub proof fn lemma_text3(insts: Seq<Inst>, expect: Seq<char>)
    requires
        insts.len() == 3,
        inst_text(insts[0]) + inst_text(insts[1]) + inst_text(insts[2]) =~= expect,
    ensures
        insts_text(insts) == expect,
{
    lemma_text2(insts.drop_first(), inst_text(insts[1]) + inst_text(insts[2]));
}

pub proof fn lemma_text4(insts: Seq<Inst>, expect: Seq<char>)
    requires
        insts.len() == 4,
        inst_text(insts[0]) + inst_text(insts[1]) + inst_text(insts[2]) + inst_text(insts[3])
            =~= expect,
    ensures
        insts_text(insts) == expect,
{
    lemma_text3(
        insts.drop_first(),
        inst_text(insts[1]) + inst_text(insts[2]) + inst_text(insts[3]),
    );
}

pub proof fn lemma_text5(insts: Seq<Inst>, expect: Seq<char>)
    requires
        insts.len() == 5,
        inst_text(insts[0]) + inst_text(insts[1]) + inst_text(insts[2]) + inst_text(insts[3])
            + inst_text(insts[4]) =~= expect,
    ensures
        insts_text(insts) == expect,
{
    lemma_text4(
        insts.drop_first(),
        inst_text(insts[1]) + inst_text(insts[2]) + inst_text(insts[3]) + inst_text(insts[4]),
    );
}

pub proof fn lemma_text6(insts: Seq<Inst>, expect: Seq<char>)
    requires
        insts.len() == 6,
        inst_text(insts[0]) + inst_text(insts[1]) + inst_text(insts[2]) + inst_text(insts[3])
            + inst_text(insts[4]) + inst_text(insts[5]) =~= expect,
    ensures
        insts_text(insts) == expect,
{
    lemma_text5(
        insts.drop_first(),
        inst_text(insts[1]) + inst_text(insts[2]) + inst_text(insts[3]) + inst_text(insts[4])
            + inst_text(insts[5]),
    );
}

/// A seven-instruction list, used by the comparison emission.
pub proof fn lemma_text7(insts: Seq<Inst>, expect: Seq<char>)
    requires
        insts.len() == 7,
        inst_text(insts[0]) + inst_text(insts[1]) + inst_text(insts[2]) + inst_text(insts[3])
            + inst_text(insts[4]) + inst_text(insts[5]) + inst_text(insts[6]) =~= expect,
    ensures
        insts_text(insts) == expect,
{
    lemma_text6(
        insts.drop_first(),
        inst_text(insts[1]) + inst_text(insts[2]) + inst_text(insts[3]) + inst_text(insts[4])
            + inst_text(insts[5]) + inst_text(insts[6]),
    );
}

fn render1(name: &str, op: &Op) -> (r: String)
    ensures
        r@ == line1(name@, *op),
{
    let mut out = String::from_str("\t");
    out.append(name);
    out.append(" ");
    out.append(op.to_string().as_str());
    out.append("\n");
    proof {
        assert(out@ =~= line1(name@, *op));
    }
    out
}

fn render2(name: &str, dest: &Op, src: &Op) -> (r: String)
    ensures
        r@ == line2(name@, *dest, *src),
{
    let mut out = String::from_str("\t");
    out.append(name);
    out.append(" ");
    out.append(dest.to_string().as_str());
    out.append(", ");
    out.append(src.to_string().as_str());
    out.append("\n");
    proof {
        assert(out@ =~= line2(name@, *dest, *src));
    }
    out
}

impl Inst {
    /// Renders the instruction as one line of the output listing.
    pub fn to_string(&self) -> (r: String)
        ensures
            r@ == inst_text(*self),
    {
        match self {
            Inst::Push(op) => render1("push", op),
            Inst::Pop(op) => render1("pop", op),
            Inst::Mov(dest, src) => render2("mov", dest, src),
            Inst::Lea(dest, src) => render2("lea", dest, src),
            Inst::Call(op) => render1("call", op),
            Inst::Add(dest, src) => render2("add", dest, src),
            Inst::Sub(dest, src) => render2("sub", dest, src),
            Inst::Mul(op) => render1("mul", op),
            Inst::Div(op) => render1("div", op),
            Inst::Xor(dest, src) => render2("xor", dest, src),
            Inst::Cmp(dest, src) => render2("cmp", dest, src),
            Inst::Inst2Op(name, dest, src) => render2(name, dest, src),
            Inst::Inst1Op(name, op) => render1(name, op),
            Inst::Label(label) => {
                let mut raw = label.clone();
                raw.append("\n");
                proof {
                    reveal_strlit("::");
                }
                replace_str(raw.as_str(), "::", "_")
            },
            Inst::Ret => String::from_str("\tret\n"),
            Inst::Ignore => String::from_str(""),
        }
    }
}

} // verus!
