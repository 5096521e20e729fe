//! Comparison tokens: each compiles to a flag-setting compare and a
//! conditional move of 1 over 0.

use vstd::prelude::*;

use crate::compiler::err::Error;
use crate::compiler::inst::{Inst, Op};

verus! {

#[derive(Debug, Clone, Copy, PartialEq, Eq, Structural)]
pub enum Token {
    Eq,
    NotEq,
    Gt,
    Lt,
    Le,
    Ge,
}

/// The conditional-move instruction for each comparison.
pub open spec fn cmov_inst(t: Token) -> Inst {
    match t {
        Token::Eq => Inst::Inst2Op("cmove", Op::Rcx, Op::Rdx),
        Token::NotEq => Inst::Inst2Op("cmovne", Op::Rcx, Op::Rdx),
        Token::Le => Inst::Inst2Op("cmovle", Op::Rcx, Op::Rdx),
        Token::Lt => Inst::Inst2Op("cmovl", Op::Rcx, Op::Rdx),
        Token::Ge => Inst::Inst2Op("cmovge", Op::Rcx, Op::Rdx),
        Token::Gt => Inst::Inst2Op("cmovg", Op::Rcx, Op::Rdx),
    }
}

/// The whole emission: zero `rcx`, set `rdx` to 1, compare the two popped
/// operands, conditionally move, push the flag value.
pub open spec fn cmp_insts(t: Token) -> Seq<Inst> {
    seq![
        Inst::Xor(Op::Rcx, Op::Rcx),
        Inst::Mov(Op::Rdx, Op::Immediate(1)),
        Inst::Pop(Op::Rbx),
        Inst::Pop(Op::Rax),
        Inst::Cmp(Op::Rax, Op::Rbx),
        cmov_inst(t),
        Inst::Push(Op::Rcx),
    ]
}

impl Token {
    /// Emits the instruction list for this comparison.
    pub fn compile(&self) -> (r: Result<Vec<Inst>, Error>)
        ensures
            r matches Ok(v) && v@ == cmp_insts(*self),
    {
        let mut output: Vec<Inst> = Vec::new();
        output.push(Inst::Xor(Op::Rcx, Op::Rcx));
        output.push(Inst::Mov(Op::Rdx, Op::Immediate(1)));
        output.push(Inst::Pop(Op::Rbx));
        output.push(Inst::Pop(Op::Rax));
        output.push(Inst::Cmp(Op::Rax, Op::Rbx));
        let name: &'static str = match self {
            Token::Eq => "cmove",
            Token::NotEq => "cmovne",
            Token::Le => "cmovle",
            Token::Lt => "cmovl",
            Token::Ge => "cmovge",
            Token::Gt => "cmovg",
        };
        output.push(Inst::Inst2Op(name, Op::Rcx, Op::Rdx));
        output.push(Inst::Push(Op::Rcx));
        proof {
            assert(output@ =~= cmp_insts(*self));
        }
        Ok(output)
    }
}

} // verus!
