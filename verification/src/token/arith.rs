//! Arithmetic and bitwise tokens and their emitted instruction sequences.

use vstd::prelude::*;

use crate::compiler::err::Error;
use crate::compiler::inst::{Inst, Op};

verus! {

#[derive(Debug, Clone, Copy, PartialEq, Eq, Structural)]
pub enum Token {
    Plus,
    Minus,
    Div,
    Mul,
    Mod,
    LogicalAnd,
    LogicalOr,
}

/// The operation-specific middle of an arithmetic emission.
pub open spec fn arith_core(t: Token) -> Seq<Inst> {
    match t {
        Token::Plus => seq![Inst::Add(Op::Rax, Op::Rbx)],
        Token::Minus => seq![Inst::Sub(Op::Rax, Op::Rbx)],
        Token::Mul => seq![Inst::Mul(Op::Rbx)],
        Token::Div => seq![Inst::Xor(Op::Rdx, Op::Rdx), Inst::Div(Op::Rbx)],
        Token::Mod => seq![
            Inst::Xor(Op::Rdx, Op::Rdx),
            Inst::Div(Op::Rbx),
            Inst::Mov(Op::Rax, Op::Rdx),
        ],
        Token::LogicalAnd => seq![Inst::Inst2Op("and", Op::Rax, Op::Rbx)],
        Token::LogicalOr => seq![Inst::Inst2Op("or", Op::Rax, Op::Rbx)],
    }
}

/// The whole emission: pop both operands, operate, push the result.
pub open spec fn arith_insts(t: Token) -> Seq<Inst> {
    seq![Inst::Pop(Op::Rbx), Inst::Pop(Op::Rax)] + arith_core(t) + seq![Inst::Push(Op::Rax)]
}

impl Token {
    /// Emits the instruction list for this operator.
    pub fn compile(&self) -> (r: Result<Vec<Inst>, Error>)
        ensures
            r matches Ok(v) && v@ == arith_insts(*self),
    {
        let mut output: Vec<Inst> = Vec::new();
        output.push(Inst::Pop(Op::Rbx));
        output.push(Inst::Pop(Op::Rax));
        match self {
            Token::Plus => output.push(Inst::Add(Op::Rax, Op::Rbx)),
            Token::Minus => output.push(Inst::Sub(Op::Rax, Op::Rbx)),
            Token::Mul => output.push(Inst::Mul(Op::Rbx)),
            Token::Div => {
                output.push(Inst::Xor(Op::Rdx, Op::Rdx));
                output.push(Inst::Div(Op::Rbx));
            },
            Token::Mod => {
                output.push(Inst::Xor(Op::Rdx, Op::Rdx));
                output.push(Inst::Div(Op::Rbx));
                output.push(Inst::Mov(Op::Rax, Op::Rdx));
            },
            Token::LogicalAnd => output.push(Inst::Inst2Op("and", Op::Rax, Op::Rbx)),
            Token::LogicalOr => output.push(Inst::Inst2Op("or", Op::Rax, Op::Rbx)),
        }
        output.push(Inst::Push(Op::Rax));
        proof {
            assert(output@ =~= arith_insts(*self));
        }
        Ok(output)
    }
}

} // verus!
