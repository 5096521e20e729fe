//! Platform-call tokens: `sys::NAME` dispatches through a host symbol whose
//! argument count comes from a constant of the same name; `include` is erased
//! by the structural parser and emits nothing.

use vstd::prelude::*;

use crate::compiler::err::Error;
use crate::compiler::inst::{
    call_line,
    insts_text,
    line1t,
    lemma_text3,
    lemma_text4,
    lemma_text5,
    lemma_text6,
    Inst,
    Op,
};
use crate::compiler::internals::Internals;
use crate::tables::{const_lookup, find_const};
use crate::token::mem::located_error;

verus! {

#[derive(Debug, Clone, PartialEq)]
pub enum Token {
    Sys(String),
    Include,
}

/// The pops filling the first `k` Windows x64 argument registers, `k <= 4`.
pub open spec fn arg_pops_text(k: int) -> Seq<char> {
    if k <= 0 {
        Seq::empty()
    } else if k == 1 {
        line1t("pop"@, "rcx"@)
    } else if k == 2 {
        line1t("pop"@, "rcx"@) + line1t("pop"@, "rdx"@)
    } else if k == 3 {
        line1t("pop"@, "rcx"@) + line1t("pop"@, "rdx"@) + line1t("pop"@, "r8"@)
    } else {
        line1t("pop"@, "rcx"@) + line1t("pop"@, "rdx"@) + line1t("pop"@, "r8"@) + line1t(
            "pop"@,
            "r9"@,
        )
    }
}

/// The emission for `sys::<name>` with `args` declared arguments: pop up to
/// four of them into the argument registers, call the symbol, push `rax`.
pub open spec fn sys_text(name: Seq<char>, args: i64) -> Seq<char> {
    arg_pops_text(clamped_args(args)) + call_line(name) + line1t("push"@, "rax"@)
}

/// The register count for a declared argument count: at most four; the count
/// is reinterpreted as unsigned, so a negative constant also fills all four.
pub open spec fn clamped_args(args: i64) -> int {
    if 4 < args as usize {
        4
    } else {
        args as usize as int
    }
}

/// The diagnostic for a `sys::<name>` with no constant `<name>`.
pub open spec fn sys_missing_const_message(name: Seq<char>) -> Seq<char> {
    "Before using a sys call, you must defined a const with it's number of arguments. The const must have the same name as the sys call does. `"@
        + name + "` has no const assossiated."@
}

impl Token {
    /// Emits the instruction list for this token, reading the argument count
    /// of a platform call from the constant table.
    pub fn compile(&self, consts: &Vec<(String, i64)>, internals: &mut Internals) -> (r: Result<
        Vec<Inst>,
        Error,
    >)
        ensures
            *final(internals) == *old(internals),
            (match *self {
                Token::Sys(name) => (match const_lookup(consts@, name@) {
                    Some(args) => r matches Ok(out) && insts_text(out@) == sys_text(name@, args),
                    None => r matches Err(e) && located_error(
                        e,
                        old(internals).location,
                        sys_missing_const_message(name@),
                        name@.len() as usize,
                    ),
                }),
                Token::Include => r matches Ok(out) && out@ == Seq::<Inst>::empty(),
            }),
    {
        match self {
            Token::Sys(sys) => {
                match find_const(consts, sys.as_str()) {
                    Some(args) => {
                        #[verifier::truncate]
                        let args_unsigned = args as usize;
                        let args_count: usize = if 4 < args_unsigned {
                            4
                        } else {
                            args_unsigned
                        };
                        let mut out: Vec<Inst> = Vec::new();
                        if args_count >= 1 {
                            out.push(Inst::Pop(Op::Rcx));
                        }
                        if args_count >= 2 {
                            out.push(Inst::Pop(Op::Rdx));
                        }
                        if args_count >= 3 {
                            out.push(Inst::Pop(Op::R8));
                        }
                        if args_count >= 4 {
                            out.push(Inst::Pop(Op::R9));
                        }
                        out.push(Inst::Call(Op::Label(sys.clone())));
                        out.push(Inst::Push(Op::Rax));
                        proof {
                            if args_count == 0 {
                                crate::compiler::inst::lemma_text2(out@, sys_text(sys@, args));
                            } else if args_count == 1 {
                                lemma_text3(out@, sys_text(sys@, args));
                            } else if args_count == 2 {
                                lemma_text4(out@, sys_text(sys@, args));
                            } else if args_count == 3 {
                                lemma_text5(out@, sys_text(sys@, args));
                            } else {
                                lemma_text6(out@, sys_text(sys@, args));
                            }
                        }
                        Ok(out)
                    },
                    None => {
                        let mut m = String::from_str(
                            "Before using a sys call, you must defined a const with it's number of arguments. The const must have the same name as the sys call does. `",
                        );
                        m.append(sys.as_str());
                        m.append("` has no const assossiated.");
                        let token_len = sys.as_str().unicode_len();
                        proof {
                            assert(m@ =~= sys_missing_const_message(sys@));
                        }
                        Err(
                            Error::new(
                                m,
                                (
                                    internals.location.0,
                                    internals.location.1,
                                    internals.location.2.clone(),
                                ),
                                token_len,
                            ),
                        )
                    },
                }
            },
            Token::Include => {
                let out: Vec<Inst> = Vec::new();
                Ok(out)
            },
        }
    }
}

} // verus!
