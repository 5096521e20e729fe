//! Memory and stack-shuffling tokens, and the variable tokens `put` and
//! `fetch`, which consume the pending identifier recorded in the walk state.

use vstd::prelude::*;

use crate::compiler::err::{ErrTyp, Error};
use crate::compiler::inst::{call_line, insts_text, line1t, line2t, lemma_text1, lemma_text2, lemma_text3, lemma_text4, lemma_text5, lemma_text6, Inst, Op};
use crate::compiler::internals::{slot_of, lemma_slot_of_first, lemma_slot_of_absent, Internals};
use crate::strings::{eq_str, spec_int_string};

verus! {

/// The operand width of a load or store.
#[derive(Debug, Clone, Copy, PartialEq, Eq, Structural)]
pub enum Size {
    Qword,
    Dword,
    Word,
    Byte,
}

/// The NASM size keyword.
pub open spec fn size_name(s: Size) -> Seq<char> {
    match s {
        Size::Qword => "qword"@,
        Size::Dword => "dword"@,
        Size::Word => "word"@,
        Size::Byte => "byte"@,
    }
}

/// The name of the `rbx` portion of matching width.
pub open spec fn size_rbx_name(s: Size) -> Seq<char> {
    match s {
        Size::Qword => "rbx"@,
        Size::Dword => "ebx"@,
        Size::Word => "bx"@,
        Size::Byte => "bl"@,
    }
}

impl Size {
    /// The NASM size keyword.
    pub fn to_string(&self) -> (r: String)
        ensures
            r@ == size_name(*self),
    {
        match self {
            Size::Qword => String::from_str("qword"),
            Size::Dword => String::from_str("dword"),
            Size::Word => String::from_str("word"),
            Size::Byte => String::from_str("byte"),
        }
    }

    /// The operand naming the `rbx` portion of matching width.
    pub fn to_rbx(&self) -> (r: Op)
        ensures
            crate::compiler::inst::op_text(r) == size_rbx_name(*self),
    {
        match self {
            Size::Qword => Op::Rbx,
            Size::Dword => Op::Memory(String::from_str("ebx")),
            Size::Word => Op::Memory(String::from_str("bx")),
            Size::Byte => Op::Memory(String::from_str("bl")),
        }
    }
}

#[derive(Debug, Clone, PartialEq)]
pub enum Token {
    InternalMem,
    Mem,
    Swap,
    Dup,
    Over,
    Rot,
    Drop,
    Load(Size),
    Store(Size),
    Put,
    Fetch,
}

/// The emitted text of every memory token except `put` and `fetch`.
pub open spec fn mem_text(t: Token) -> Seq<char> {
    match t {
        Token::InternalMem => line2t("lea"@, "rax"@, "[_mem@internal]"@) + line1t(
            "push"@,
            "rax"@,
        ),
        Token::Mem => line2t("lea"@, "rax"@, "[_mem@mem]"@) + line1t("push"@, "rax"@),
        Token::Dup => line1t("pop"@, "rax"@) + line2t("mov"@, "rbx"@, "rax"@) + line1t(
            "push"@,
            "rax"@,
        ) + line1t("push"@, "rbx"@),
        Token::Swap => line1t("pop"@, "rax"@) + line1t("pop"@, "rbx"@) + line1t("push"@, "rax"@)
            + line1t("push"@, "rbx"@),
        Token::Over => line1t("pop"@, "rax"@) + line1t("pop"@, "rbx"@) + line1t("push"@, "rbx"@)
            + line1t("push"@, "rax"@) + line1t("push"@, "rbx"@),
        Token::Drop => line1t("pop"@, "rax"@),
        Token::Rot => line1t("pop"@, "rax"@) + line1t("pop"@, "rbx"@) + line1t("pop"@, "rcx"@)
            + line1t("push"@, "rbx"@) + line1t("push"@, "rax"@) + line1t("push"@, "rcx"@),
        Token::Load(s) => line2t("xor"@, "rbx"@, "rbx"@) + line1t("pop"@, "rax"@) + line2t(
            "mov"@,
            size_rbx_name(s),
            size_name(s) + " [rax]"@,
        ) + line1t("push"@, "rbx"@),
        Token::Store(s) => line1t("pop"@, "rax"@) + line1t("pop"@, "rbx"@) + line2t(
            "mov"@,
            size_name(s) + " [rax]"@,
            size_rbx_name(s),
        ),
        Token::Put | Token::Fetch => Seq::empty(),
    }
}

/// The emitted text of `put` for slot `k`: push the slot index and call the
/// runtime store routine.
pub open spec fn put_text(k: usize) -> Seq<char> {
    line1t("push"@, spec_int_string(k as i64 as int)) + call_line("_std@put_variable"@)
}

/// The emitted text of `fetch` for slot `k`.
pub open spec fn fetch_text(k: usize) -> Seq<char> {
    line1t("push"@, spec_int_string(k as i64 as int)) + call_line("_std@fetch_variable"@)
}

/// A diagnostic at the walk's current location, with the given message text
/// and token width.
pub open spec fn located_error(e: Error, loc: (usize, usize, String), message: Seq<char>, token_len: usize) -> bool {
    e.typ == ErrTyp::User && e.message@ == message && e.location == (loc.0, loc.1) && e.filename@
        == loc.2@ && e.token_len == token_len && e.function_line is None
}

/// Every field of the walk state except the variable list is kept.
pub open spec fn keeps_all_but_variables(pre: Internals, post: Internals) -> bool {
    post.strings == pre.strings && post.idx == pre.idx && post.addresses_usage
        == pre.addresses_usage && post.should_increment == pre.should_increment
        && post.current_variable == pre.current_variable && post.location == pre.location
}

impl Token {
    /// Emits the instruction list for this token. `put` allocates or reuses
    /// the slot of the pending identifier; `fetch` requires one; both fail
    /// without a pending identifier.
    pub fn compile(&self, internals: &mut Internals) -> (r: Result<Vec<Inst>, Error>)
        ensures
            keeps_all_but_variables(*old(internals), *final(internals)),
            (match *self {
                Token::Put => (match old(internals).current_variable {
                    Some(v) => r matches Ok(out) && (match slot_of(
                        old(internals).variables@,
                        v@,
                    ) {
                        Some(k) => insts_text(out@) == put_text(k as usize)
                            && final(internals).variables == old(internals).variables,
                        None => insts_text(out@) == put_text(
                            old(internals).variables@.len() as usize,
                        ) && final(internals).variables@ == old(internals).variables@.push(v),
                    }),
                    None => r matches Err(e) && located_error(
                        e,
                        old(internals).location,
                        "`put` should be preceeded by an identifier but was not."@,
                        3,
                    ) && final(internals).variables == old(internals).variables,
                }),
                Token::Fetch => final(internals).variables == old(internals).variables && (match old(
                    internals,
                ).current_variable {
                    Some(v) => (match slot_of(old(internals).variables@, v@) {
                        Some(k) => r matches Ok(out) && insts_text(out@)
                            == fetch_text(k as usize),
                        None => r matches Err(e) && located_error(
                            e,
                            old(internals).location,
                            "The variable "@ + v@
                                + " was not declared in the current scope. Declare your variables with `put`"@,
                            5,
                        ),
                    }),
                    None => r matches Err(e) && located_error(
                        e,
                        old(internals).location,
                        "`fetch` should be preceeded by an identifier but was not."@,
                        5,
                    ),
                }),
                _ => r matches Ok(out) && insts_text(out@) == mem_text(
                    *self,
                ) && final(internals).variables == old(internals).variables,
            }),
    {
        match self {
            Token::InternalMem => {
                let mut out: Vec<Inst> = Vec::new();
                out.push(Inst::Lea(Op::Rax, Op::Memory(String::from_str("[_mem@internal]"))));
                out.push(Inst::Push(Op::Rax));
                proof {
                    lemma_text2(out@, mem_text(*self));
                }
                Ok(out)
            },
            Token::Mem => {
                let mut out: Vec<Inst> = Vec::new();
                out.push(Inst::Lea(Op::Rax, Op::Memory(String::from_str("[_mem@mem]"))));
                out.push(Inst::Push(Op::Rax));
                proof {
                    lemma_text2(out@, mem_text(*self));
                }
                Ok(out)
            },
            Token::Dup => {
                let mut out: Vec<Inst> = Vec::new();
                out.push(Inst::Pop(Op::Rax));
                out.push(Inst::Mov(Op::Rbx, Op::Rax));
                out.push(Inst::Push(Op::Rax));
                out.push(Inst::Push(Op::Rbx));
                proof {
                    lemma_text4(out@, mem_text(*self));
                }
                Ok(out)
            },
            Token::Swap => {
                let mut out: Vec<Inst> = Vec::new();
                out.push(Inst::Pop(Op::Rax));
                out.push(Inst::Pop(Op::Rbx));
                out.push(Inst::Push(Op::Rax));
                out.push(Inst::Push(Op::Rbx));
                proof {
                    lemma_text4(out@, mem_text(*self));
                }
                Ok(out)
            },
            Token::Over => {
                let mut out: Vec<Inst> = Vec::new();
                out.push(Inst::Pop(Op::Rax));
                out.push(Inst::Pop(Op::Rbx));
                out.push(Inst::Push(Op::Rbx));
                out.push(Inst::Push(Op::Rax));
                out.push(Inst::Push(Op::Rbx));
                proof {
                    lemma_text5(out@, mem_text(*self));
                }
                Ok(out)
            },
            Token::Rot => {
                let mut out: Vec<Inst> = Vec::new();
                out.push(Inst::Pop(Op::Rax));
                out.push(Inst::Pop(Op::Rbx));
                out.push(Inst::Pop(Op::Rcx));
                out.push(Inst::Push(Op::Rbx));
                out.push(Inst::Push(Op::Rax));
                out.push(Inst::Push(Op::Rcx));
                proof {
                    lemma_text6(out@, mem_text(*self));
                }
                Ok(out)
            },
            Token::Drop => {
                let mut out: Vec<Inst> = Vec::new();
                out.push(Inst::Pop(Op::Rax));
                proof {
                    lemma_text1(out@, mem_text(*self));
                }
                Ok(out)
            },
            Token::Load(size) => {
                let mut operand = size.to_string();
                operand.append(" [rax]");
                let mut out: Vec<Inst> = Vec::new();
                out.push(Inst::Xor(Op::Rbx, Op::Rbx));
                out.push(Inst::Pop(Op::Rax));
                out.push(Inst::Mov(size.to_rbx(), Op::Memory(operand)));
                out.push(Inst::Push(Op::Rbx));
                proof {
                    lemma_text4(out@, mem_text(*self));
                }
                Ok(out)
            },
            Token::Store(size) => {
                let mut operand = size.to_string();
                operand.append(" [rax]");
                let mut out: Vec<Inst> = Vec::new();
                out.push(Inst::Pop(Op::Rax));
                out.push(Inst::Pop(Op::Rbx));
                out.push(Inst::Mov(Op::Memory(operand), size.to_rbx()));
                proof {
                    lemma_text3(out@, mem_text(*self));
                }
                Ok(out)
            },
            Token::Put => {
                match &internals.current_variable {
                    Some(variable) => {
                        let name = variable.clone();
                        let idx = match find_slot(&internals.variables, name.as_str()) {
                            Some(idx) => idx,
                            None => {
                                let fresh = internals.variables.len();
                                internals.variables.push(name.clone());
                                fresh
                            },
                        };
                        let mut out: Vec<Inst> = Vec::new();
                        #[verifier::truncate]
                        let imm = idx as i64;
                        out.push(Inst::Push(Op::Immediate(imm)));
                        out.push(Inst::Call(Op::Label(String::from_str("_std@put_variable"))));
                        proof {
                            lemma_text2(out@, put_text(idx));
                        }
                        Ok(out)
                    },
                    None => Err(
                        Error::new(
                            String::from_str(
                                "`put` should be preceeded by an identifier but was not.",
                            ),
                            clone_location(&internals.location),
                            3,
                        ),
                    ),
                }
            },
            Token::Fetch => {
                match &internals.current_variable {
                    Some(variable) => {
                        match find_slot(&internals.variables, variable.as_str()) {
                            Some(idx) => {
                                let mut out: Vec<Inst> = Vec::new();
                                #[verifier::truncate]
                                let imm = idx as i64;
                                out.push(Inst::Push(Op::Immediate(imm)));
                                out.push(
                                    Inst::Call(Op::Label(String::from_str("_std@fetch_variable"))),
                                );
                                proof {
                                    lemma_text2(out@, fetch_text(idx));
                                }
                                Ok(out)
                            },
                            None => {
                                let mut m = String::from_str("The variable ");
                                m.append(variable.as_str());
                                m.append(
                                    " was not declared in the current scope. Declare your variables with `put`",
                                );
                                Err(Error::new(m, clone_location(&internals.location), 5))
                            },
                        }
                    },
                    None => Err(
                        Error::new(
                            String::from_str(
                                "`fetch` should be preceeded by an identifier but was not.",
                            ),
                            clone_location(&internals.location),
                            5,
                        ),
                    ),
                }
            },
        }
    }
}

/// Copies a source location triple.
fn clone_location(loc: &(usize, usize, String)) -> (r: (usize, usize, String))
    ensures
        r.0 == loc.0,
        r.1 == loc.1,
        r.2@ == loc.2@,
{
    (loc.0, loc.1, loc.2.clone())
}

/// The first slot bound to `name`, as the executable lookup.
fn find_slot(vars: &Vec<String>, name: &str) -> (r: Option<usize>)
    ensures
        (match r {
            Some(k) => slot_of(vars@, name@) == Some(k as int),
            None => slot_of(vars@, name@) is None,
        }),
{
    let n = vars.len();
    let mut i: usize = 0;
    while i < n
        invariant
            0 <= i <= n,
            n == vars@.len(),
            forall|j: int| 0 <= j < i ==> (#[trigger] vars@[j])@ != name@,
        decreases n - i,
    {
        if eq_str(vars[i].as_str(), name) {
            proof {
                lemma_slot_of_first(vars@, name@, i as int);
            }
            return Some(i);
        }
        i += 1;
    }
    proof {
        lemma_slot_of_absent(vars@, name@);
    }
    None
}

} // verus!
