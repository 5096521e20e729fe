//! Control-flow tokens. Openers emit conditional jumps to the address their
//! `jmp_idx` names; closers emit the matching label; `fn` and `const` skip
//! the walk past their body.

use vstd::prelude::*;

use crate::compiler::err::{ErrTyp, Error};
use crate::compiler::inst::{
    insts_text,
    jump_line,
    label_line,
    lemma_text1,
    lemma_text2,
    lemma_text3,
    line1t,
    line2t,
    Inst,
    Op,
};
use crate::compiler::internals::{address_label, next_of, usage_map, Internals};
use crate::token::mem::located_error;

verus! {

#[derive(Debug, Clone, Copy, PartialEq, Eq, Structural)]
pub enum Token {
    EndWhile,
    End,
    If,
    While,
    Do,
    Else,
    Macro,
    Fn,
    Const,
}

/// The fields of the walk state that no control-flow emission touches.
pub open spec fn keeps_rest(pre: Internals, post: Internals) -> bool {
    post.strings == pre.strings && post.should_increment == pre.should_increment
        && post.current_variable == pre.current_variable && post.variables == pre.variables
        && post.location == pre.location
}

/// The conditional branch of `if` and `do`: pop and test the condition, then
/// jump past the block when it is zero.
pub open spec fn cond_jump_text(target: Seq<char>) -> Seq<char> {
    line1t("pop"@, "rax"@) + line2t("test"@, "rax"@, "rax"@) + jump_line("jz"@, target)
}

impl Token {
    /// Emits the instruction list for this token, drawing jump-target labels
    /// from the walk state's per-index usage counts.
    pub fn compile(&self, jmp_idx: Option<usize>, internals: &mut Internals) -> (r: Result<
        Vec<Inst>,
        Error,
    >)
        ensures
            keeps_rest(*old(internals), *final(internals)),
            (match *self {
                Token::If | Token::Do => final(internals).idx == old(internals).idx && (match jmp_idx {
                    Some(j) => {
                        let u = next_of(usage_map(old(internals).addresses_usage@), j);
                        r matches Ok(out) && insts_text(out@) == cond_jump_text(
                            address_label(j, u),
                        ) && usage_map(final(internals).addresses_usage@) == usage_map(
                            old(internals).addresses_usage@,
                        ).insert(j, u)
                    },
                    None => r matches Err(e) && located_error(
                        e,
                        old(internals).location,
                        "Missing an `end` statement after the `if` or `do`. Should be in this format: `<condition> if <if_true> else <if_false> end`"@,
                        2,
                    ) && final(internals).addresses_usage == old(internals).addresses_usage,
                }),
                Token::Else => final(internals).idx == old(internals).idx && (match jmp_idx {
                    Some(j) => {
                        let m0 = usage_map(old(internals).addresses_usage@);
                        let u1 = next_of(m0, j);
                        let m1 = m0.insert(j, u1);
                        let u2 = next_of(m1, old(internals).idx);
                        r matches Ok(out) && insts_text(out@) == jump_line(
                            "jmp"@,
                            address_label(j, u1),
                        ) + label_line(address_label(old(internals).idx, u2)) && usage_map(
                            final(internals).addresses_usage@,
                        ) == m1.insert(old(internals).idx, u2)
                    },
                    None => r matches Err(e) && located_error(
                        e,
                        old(internals).location,
                        "Missing an `end` statement after the `else`. Should be in this format: `<condition> if <if_true> else <if_false> end`"@,
                        4,
                    ) && final(internals).addresses_usage == old(internals).addresses_usage,
                }),
                Token::While | Token::End => {
                    let u = next_of(
                        usage_map(old(internals).addresses_usage@),
                        old(internals).idx,
                    );
                    final(internals).idx == old(internals).idx && (r matches Ok(out)
                        && insts_text(out@) == label_line(address_label(old(internals).idx, u))
                        && usage_map(final(internals).addresses_usage@) == usage_map(
                        old(internals).addresses_usage@,
                    ).insert(old(internals).idx, u))
                },
                Token::EndWhile => final(internals).idx == old(internals).idx && (match jmp_idx {
                    Some(j) => {
                        let m0 = usage_map(old(internals).addresses_usage@);
                        let u1 = next_of(m0, j);
                        let m1 = m0.insert(j, u1);
                        let u2 = next_of(m1, old(internals).idx);
                        r matches Ok(out) && insts_text(out@) == jump_line(
                            "jmp"@,
                            address_label(j, u1),
                        ) + label_line(address_label(old(internals).idx, u2)) && usage_map(
                            final(internals).addresses_usage@,
                        ) == m1.insert(old(internals).idx, u2)
                    },
                    None => {
                        let u = next_of(
                            usage_map(old(internals).addresses_usage@),
                            old(internals).idx,
                        );
                        r matches Ok(out) && insts_text(out@) == label_line(
                            address_label(old(internals).idx, u),
                        ) && usage_map(final(internals).addresses_usage@) == usage_map(
                            old(internals).addresses_usage@,
                        ).insert(old(internals).idx, u)
                    },
                }),
                Token::Fn | Token::Const => r matches Ok(out) && out@ == Seq::<Inst>::empty()
                    && final(internals).addresses_usage == old(internals).addresses_usage
                    && final(internals).idx == (match jmp_idx {
                    Some(j) => j,
                    None => old(internals).idx,
                }),
                Token::Macro => r matches Err(e) && e.typ == ErrTyp::Internal && e.message@
                    == "An internal error occured while parsing or compiling the program"@
                    && e.location == (old(internals).location.0, old(internals).location.1)
                    && e.filename@ == old(internals).location.2@ && e.token_len == 1
                    && e.function_line is None
                    && final(internals).addresses_usage == old(internals).addresses_usage
                    && final(internals).idx == old(internals).idx,
            }),
    {
        match self {
            Token::If | Token::Do => {
                match jmp_idx {
                    Some(idx) => {
                        let address = internals.compute_address(idx);
                        let mut out: Vec<Inst> = Vec::new();
                        out.push(Inst::Pop(Op::Rax));
                        out.push(Inst::Inst2Op("test", Op::Rax, Op::Rax));
                        out.push(Inst::Inst1Op("jz", Op::Label(address)));
                        proof {
                            lemma_text3(
                                out@,
                                cond_jump_text(
                                    address_label(
                                        idx,
                                        next_of(usage_map(old(internals).addresses_usage@), idx),
                                    ),
                                ),
                            );
                        }
                        Ok(out)
                    },
                    None => Err(
                        Error::new(
                            String::from_str(
                                "Missing an `end` statement after the `if` or `do`. Should be in this format: `<condition> if <if_true> else <if_false> end`",
                            ),
                            (
                                internals.location.0,
                                internals.location.1,
                                internals.location.2.clone(),
                            ),
                            2,
                        ),
                    ),
                }
            },
            Token::Else => {
                match jmp_idx {
                    Some(idx) => {
                        let address = internals.compute_address(idx);
                        let own = internals.idx;
                        let mut label = internals.compute_address(own);
                        label.append(":");
                        let mut out: Vec<Inst> = Vec::new();
                        out.push(Inst::Inst1Op("jmp", Op::Label(address)));
                        out.push(Inst::Label(label));
                        proof {
                            let m0 = usage_map(old(internals).addresses_usage@);
                            let u1 = next_of(m0, idx);
                            let m1 = m0.insert(idx, u1);
                            let u2 = next_of(m1, old(internals).idx);
                            lemma_text2(
                                out@,
                                jump_line("jmp"@, address_label(idx, u1)) + label_line(
                                    address_label(old(internals).idx, u2),
                                ),
                            );
                        }
                        Ok(out)
                    },
                    None => Err(
                        Error::new(
                            String::from_str(
                                "Missing an `end` statement after the `else`. Should be in this format: `<condition> if <if_true> else <if_false> end`",
                            ),
                            (
                                internals.location.0,
                                internals.location.1,
                                internals.location.2.clone(),
                            ),
                            4,
                        ),
                    ),
                }
            },
            Token::While | Token::End => {
                let own = internals.idx;
                let mut label = internals.compute_address(own);
                label.append(":");
                let mut out: Vec<Inst> = Vec::new();
                out.push(Inst::Label(label));
                proof {
                    let u = next_of(usage_map(old(internals).addresses_usage@), old(internals).idx);
                    lemma_text1(out@, label_line(address_label(old(internals).idx, u)));
                }
                Ok(out)
            },
            Token::EndWhile => {
                let mut out: Vec<Inst> = Vec::new();
                match jmp_idx {
                    Some(idx) => {
                        let address = internals.compute_address(idx);
                        out.push(Inst::Inst1Op("jmp", Op::Label(address)));
                        let own = internals.idx;
                        let mut label = internals.compute_address(own);
                        label.append(":");
                        out.push(Inst::Label(label));
                        proof {
                            let m0 = usage_map(old(internals).addresses_usage@);
                            let u1 = next_of(m0, idx);
                            let m1 = m0.insert(idx, u1);
                            let u2 = next_of(m1, old(internals).idx);
                            lemma_text2(
                                out@,
                                jump_line("jmp"@, address_label(idx, u1)) + label_line(
                                    address_label(old(internals).idx, u2),
                                ),
                            );
                        }
                    },
                    None => {
                        let own = internals.idx;
                        let mut label = internals.compute_address(own);
                        label.append(":");
                        out.push(Inst::Label(label));
                        proof {
                            let u = next_of(
                                usage_map(old(internals).addresses_usage@),
                                old(internals).idx,
                            );
                            lemma_text1(out@, label_line(address_label(old(internals).idx, u)));
                        }
                    },
                }
                Ok(out)
            },
            Token::Fn | Token::Const => {
                if let Some(idx) = jmp_idx {
                    internals.idx = idx;
                }
                let out: Vec<Inst> = Vec::new();
                Ok(out)
            },
            Token::Macro => {
                // Macro bodies are recorded by the parser but macro expansion
                // is not part of the code generator: reaching one here is a
                // compiler fault, reported as an internal diagnostic.
                Err(
                    Error::internal(
                        (internals.location.0, internals.location.1, internals.location.2.clone()),
                    ),
                )
            },
        }
    }
}

} // verus!
