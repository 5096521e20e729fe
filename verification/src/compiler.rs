//! The code generator: a second walk over the token sequence that lowers
//! each token to instructions and assembles the output listing — preamble,
//! function bodies, the program entry point, and the string pool.

pub mod err;
pub mod inst;
pub mod internals;
pub mod template;

use vstd::prelude::*;

use crate::compiler::err::Error;
use crate::compiler::inst::Inst;
use crate::compiler::internals::Internals;
use crate::parser::token::Token;
use crate::strings::str_views;
use crate::tables::FnEntry;
use crate::type_checker::{entry_wf, walk_jumps_forward};

verus! {

/// The lowering target; only the Windows x64 convention is implemented.
pub enum Platform {
    Windows,
}

/// The fixed text every listing starts with.
pub open spec fn init_text() -> Seq<char> {
    crate::compiler::template::header_text() + crate::compiler::template::ret_ptr_text()
        + crate::compiler::template::print_int_text()
        + crate::compiler::template::variables_text() + crate::compiler::template::exit_text()
        + "\n"@
}

/// The data-section header, before the string pool entries.
pub open spec fn data_header_text() -> Seq<char> {
    "\n"@ + "segment .data\n\t_mem@ret_ptr_idx dw 0\n"@
}

/// A diagnostic the walk raises: a source-level one, or an internal fault.
pub struct EmitErr {
    pub internal: bool,
    pub at: crate::parser::token::LexErr,
}

/// Does the built diagnostic render the walk's?
pub open spec fn emit_err_matches(e: Error, f: EmitErr) -> bool {
    if f.internal {
        e.typ == crate::compiler::err::ErrTyp::Internal && e.message@
            == "An internal error occured while parsing or compiling the program"@ && e.location.0
            == f.at.row && e.location.1 == f.at.col && e.filename@ == f.at.filename && e.token_len
            == 1 && e.function_line is None
    } else {
        crate::parser::token::error_matches(e, f.at)
    }
}

/// The observable content of a walk state: what every emission depends on
/// and what it changes, over mathematical values, plus the text emitted so
/// far and the first diagnostic raised.
pub struct EmitState {
    pub strings: Seq<Seq<char>>,
    pub usage: Map<usize, usize>,
    pub current: Option<Seq<char>>,
    pub vars: Seq<Seq<char>>,
    pub location: (int, int, Seq<char>),
    pub idx: int,
    pub text: Seq<char>,
    pub fail: Option<EmitErr>,
}

/// Does the walk state carry the observable content of `st`?
pub open spec fn emit_inv(i: Internals, st: EmitState) -> bool {
    &&& str_views(i.strings@) == st.strings
    &&& crate::compiler::internals::usage_map(i.addresses_usage@) == st.usage
    &&& (match i.current_variable {
        Some(v) => st.current matches Some(c) && v@ == c,
        None => st.current is None,
    })
    &&& str_views(i.variables@) == st.vars
    &&& i.location.0 as int == st.location.0
    &&& i.location.1 as int == st.location.1
    &&& i.location.2@ == st.location.2
    &&& i.idx as int == st.idx
}

/// The observable content a walk starts from, with nothing emitted.
pub open spec fn emit_init(i: Internals) -> EmitState {
    EmitState {
        strings: str_views(i.strings@),
        usage: crate::compiler::internals::usage_map(i.addresses_usage@),
        current: (match i.current_variable {
            Some(v) => Some(v@),
            None => None,
        }),
        vars: str_views(i.variables@),
        location: (i.location.0 as int, i.location.1 as int, i.location.2@),
        idx: 0,
        text: Seq::empty(),
        fail: None,
    }
}

/// A source-level walk diagnostic.
pub open spec fn emit_user(at: crate::parser::token::LexErr) -> Option<EmitErr> {
    Some(EmitErr { internal: false, at: at })
}

/// One emission step over `tokens[st.idx]`: the text it appends, the
/// diagnostic it raises, and how it moves the observable content — the
/// view-level form of one `Token::compile` call.
pub open spec fn emit_step(
    st: EmitState,
    tokens: Seq<Token>,
    fns: Seq<(String, FnEntry)>,
    consts: Seq<(String, i64)>,
) -> EmitState {
    let i = st.idx;
    let t = tokens[i];
    if st.current is Some && !crate::parser::token::is_put_or_fetch(t.typ) {
        let v = st.current->0;
        EmitState {
            fail: emit_user(
                crate::parser::token::LexErr {
                    message: crate::parser::token::free_standing_message(v),
                    row: st.location.0,
                    col: st.location.1,
                    filename: st.location.2,
                    token_len: v.len() as int,
                },
            ),
            ..st
        }
    } else {
        let here = (t.row as int, t.col as int, t.filename@);
        let at = EmitState { location: here, current: None, ..st };
        let fail_at = |message: Seq<char>, token_len: int| Some(
            EmitErr {
                internal: false,
                at: crate::parser::token::LexErr {
                    message: message,
                    row: t.row as int,
                    col: t.col as int,
                    filename: t.filename@,
                    token_len: token_len,
                },
            },
        );
        match t.typ {
            crate::parser::typ::Typ::Memory(m) => (match m {
                crate::token::mem::Token::Put => (match st.current {
                    Some(v) => (match crate::compiler::internals::vslot(st.vars, v) {
                        Some(k) => EmitState {
                            text: st.text + crate::token::mem::put_text(k as usize),
                            ..at
                        },
                        None => EmitState {
                            text: st.text + crate::token::mem::put_text(st.vars.len() as usize),
                            vars: st.vars.push(v),
                            ..at
                        },
                    }),
                    None => EmitState {
                        fail: fail_at(
                            "`put` should be preceeded by an identifier but was not."@,
                            3,
                        ),
                        ..at
                    },
                }),
                crate::token::mem::Token::Fetch => (match st.current {
                    Some(v) => (match crate::compiler::internals::vslot(st.vars, v) {
                        Some(k) => EmitState {
                            text: st.text + crate::token::mem::fetch_text(k as usize),
                            ..at
                        },
                        None => EmitState {
                            fail: fail_at(
                                "The variable "@ + v
                                    + " was not declared in the current scope. Declare your variables with `put`"@,
                                5,
                            ),
                            ..at
                        },
                    }),
                    None => EmitState {
                        fail: fail_at(
                            "`fetch` should be preceeded by an identifier but was not."@,
                            5,
                        ),
                        ..at
                    },
                }),
                _ => EmitState { text: st.text + crate::token::mem::mem_text(m), ..at },
            }),
            crate::parser::typ::Typ::ControlFlow(c) => (match c {
                crate::token::control_flow::Token::If | crate::token::control_flow::Token::Do => (
                match t.jmp_idx {
                    Some(j) => {
                        let u = crate::compiler::internals::next_of(st.usage, j);
                        EmitState {
                            text: st.text + crate::token::control_flow::cond_jump_text(
                                crate::compiler::internals::address_label(j, u),
                            ),
                            usage: st.usage.insert(j, u),
                            ..at
                        }
                    },
                    None => EmitState {
                        fail: fail_at(
                            "Missing an `end` statement after the `if` or `do`. Should be in this format: `<condition> if <if_true> else <if_false> end`"@,
                            2,
                        ),
                        ..at
                    },
                }),
                crate::token::control_flow::Token::Else => (match t.jmp_idx {
                    Some(j) => {
                        let u1 = crate::compiler::internals::next_of(st.usage, j);
                        let m1 = st.usage.insert(j, u1);
                        let u2 = crate::compiler::internals::next_of(m1, i as usize);
                        EmitState {
                            text: st.text + crate::compiler::inst::jump_line(
                                "jmp"@,
                                crate::compiler::internals::address_label(j, u1),
                            ) + crate::compiler::inst::label_line(
                                crate::compiler::internals::address_label(i as usize, u2),
                            ),
                            usage: m1.insert(i as usize, u2),
                            ..at
                        }
                    },
                    None => EmitState {
                        fail: fail_at(
                            "Missing an `end` statement after the `else`. Should be in this format: `<condition> if <if_true> else <if_false> end`"@,
                            4,
                        ),
                        ..at
                    },
                }),
                crate::token::control_flow::Token::While | crate::token::control_flow::Token::End
                    => {
                    let u = crate::compiler::internals::next_of(st.usage, i as usize);
                    EmitState {
                        text: st.text + crate::compiler::inst::label_line(
                            crate::compiler::internals::address_label(i as usize, u),
                        ),
                        usage: st.usage.insert(i as usize, u),
                        ..at
                    }
                },
                crate::token::control_flow::Token::EndWhile => (match t.jmp_idx {
                    Some(j) => {
                        let u1 = crate::compiler::internals::next_of(st.usage, j);
                        let m1 = st.usage.insert(j, u1);
                        let u2 = crate::compiler::internals::next_of(m1, i as usize);
                        EmitState {
                            text: st.text + crate::compiler::inst::jump_line(
                                "jmp"@,
                                crate::compiler::internals::address_label(j, u1),
                            ) + crate::compiler::inst::label_line(
                                crate::compiler::internals::address_label(i as usize, u2),
                            ),
                            usage: m1.insert(i as usize, u2),
                            ..at
                        }
                    },
                    None => {
                        let u = crate::compiler::internals::next_of(st.usage, i as usize);
                        EmitState {
                            text: st.text + crate::compiler::inst::label_line(
                                crate::compiler::internals::address_label(i as usize, u),
                            ),
                            usage: st.usage.insert(i as usize, u),
                            ..at
                        }
                    },
                }),
                crate::token::control_flow::Token::Fn | crate::token::control_flow::Token::Const
                    => EmitState {
                    idx: (match t.jmp_idx {
                        Some(j) => j as int,
                        None => i,
                    }),
                    ..at
                },
                crate::token::control_flow::Token::Macro => EmitState {
                    fail: Some(
                        EmitErr {
                            internal: true,
                            at: crate::parser::token::LexErr {
                                message:
                                    "An internal error occured while parsing or compiling the program"@,
                                row: t.row as int,
                                col: t.col as int,
                                filename: t.filename@,
                                token_len: 1,
                            },
                        },
                    ),
                    ..at
                },
            }),
            crate::parser::typ::Typ::Comparison(c) => EmitState {
                text: st.text + crate::compiler::inst::insts_text(crate::token::cmp::cmp_insts(c)),
                ..at
            },
            crate::parser::typ::Typ::Arithmetic(a) => EmitState {
                text: st.text + crate::compiler::inst::insts_text(
                    crate::token::arith::arith_insts(a),
                ),
                ..at
            },
            crate::parser::typ::Typ::Sys(s) => (match s {
                crate::token::sys::Token::Sys(name) => (match crate::tables::const_lookup(
                    consts,
                    name@,
                ) {
                    Some(args) => EmitState {
                        text: st.text + crate::token::sys::sys_text(name@, args),
                        ..at
                    },
                    None => EmitState {
                        fail: fail_at(
                            crate::token::sys::sys_missing_const_message(name@),
                            (name@.len() as usize) as int,
                        ),
                        ..at
                    },
                }),
                crate::token::sys::Token::Include => at,
            }),
            crate::parser::typ::Typ::Str(string) => EmitState {
                text: st.text + crate::parser::token::str_push_text(st.strings.len() as int),
                strings: st.strings.push(string@),
                ..at
            },
            crate::parser::typ::Typ::Int(integer) => EmitState {
                text: st.text + crate::parser::token::int_push_text(integer),
                ..at
            },
            crate::parser::typ::Typ::Identifier(identifier) => {
                if crate::tables::fn_position(fns, identifier@) is Some {
                    EmitState {
                        text: st.text + crate::compiler::inst::call_line(identifier@),
                        current: st.current,
                        ..at
                    }
                } else if crate::tables::const_lookup(consts, identifier@) is Some {
                    EmitState {
                        text: st.text + crate::parser::token::const_push_text(
                            crate::tables::const_lookup(consts, identifier@)->0,
                        ),
                        current: st.current,
                        ..at
                    }
                } else {
                    EmitState { current: Some(identifier@), ..at }
                }
            },
            _ => at,
        }
    }
}

/// The emission walk folded from `st.idx` to `end`: each step, then one
/// position forward (a `fn`/`const` jump included), capped at `end`; a
/// diagnostic stops it.
pub open spec fn emit_fold(
    st: EmitState,
    tokens: Seq<Token>,
    fns: Seq<(String, FnEntry)>,
    consts: Seq<(String, i64)>,
    end: int,
) -> EmitState
    decreases (if end - st.idx > 0 { end - st.idx } else { 0 }),
{
    if st.idx >= end || st.fail is Some {
        st
    } else {
        let s1 = emit_step(st, tokens, fns, consts);
        if s1.fail is Some {
            s1
        } else {
            let a = if s1.idx >= st.idx {
                s1.idx
            } else {
                st.idx
            };
            let next = if a >= end {
                end
            } else {
                a + 1
            };
            emit_fold(EmitState { idx: next, ..s1 }, tokens, fns, consts, end)
        }
    }
}

/// The function sections, in table order: for each entry its name resolves
/// to, its label, the return-pointer save, the walk of its body, the
/// return-pointer restore and `ret`; shadowed entries are not lowered.
pub open spec fn fns_fold(
    st: EmitState,
    tokens: Seq<Token>,
    fns: Seq<(String, FnEntry)>,
    consts: Seq<(String, i64)>,
    p: int,
) -> EmitState
    decreases fns.len() - p,
{
    if p < 0 || p >= fns.len() || st.fail is Some {
        st
    } else if !crate::tables::fn_active(fns, p) {
        fns_fold(st, tokens, fns, consts, p + 1)
    } else {
        let e = fns[p].1;
        let st1 = EmitState {
            idx: e.body_start as int,
            text: st.text + crate::compiler::inst::label_line(fns[p].0@)
                + crate::compiler::inst::call_line("_std@store_ret_ptr"@),
            ..st
        };
        let st2 = emit_fold(st1, tokens, fns, consts, e.body_end as int);
        if st2.fail is Some {
            st2
        } else {
            fns_fold(
                EmitState {
                    text: st2.text + crate::compiler::inst::call_line("_std@load_ret_ptr"@)
                        + "\tret\n"@,
                    ..st2
                },
                tokens,
                fns,
                consts,
                p + 1,
            )
        }
    }
}

/// One `Token::compile` call carries the observable correspondence: from a
/// state matching `st`, a successful call emits exactly the step's text and
/// leaves a state matching the step's, and a failing call raises exactly
/// the step's diagnostic.
pub proof fn lemma_step_glue(
    tokens: Seq<Token>,
    fns: Seq<(String, FnEntry)>,
    consts: Seq<(String, i64)>,
    pre_i: Internals,
    post_i: Internals,
    r: Result<Vec<Inst>, Error>,
    st: EmitState,
)
    requires
        0 <= st.idx < tokens.len(),
        st.fail is None,
        emit_inv(pre_i, st),
        crate::parser::token::compile_post(tokens[st.idx], fns, consts, pre_i, post_i, r),
    ensures
        ({
            let s1 = emit_step(st, tokens, fns, consts);
            match r {
                Ok(out) => s1.fail is None && emit_inv(post_i, s1) && s1.text == st.text
                    + crate::compiler::inst::insts_text(out@),
                Err(e) => s1.fail matches Some(f) && emit_err_matches(e, f),
            }
        }),
{
    if pre_i.current_variable is Some {
        crate::compiler::internals::lemma_vslot_agree(
            pre_i.variables@,
            pre_i.current_variable->0@,
        );
    }
    let t = tokens[st.idx];
    if t.typ matches crate::parser::typ::Typ::Memory(crate::token::mem::Token::Put) {
        if pre_i.current_variable is Some && r is Ok {
            if crate::compiler::internals::slot_of(
                pre_i.variables@,
                pre_i.current_variable->0@,
            ) is None {
                assert(str_views(post_i.variables@) =~= str_views(pre_i.variables@).push(
                    pre_i.current_variable->0@,
                ));
            }
        }
    }
    match t.typ {
        crate::parser::typ::Typ::Str(string) => {
            if !(pre_i.current_variable is Some) || crate::parser::token::is_put_or_fetch(t.typ) {
                if r is Ok {
                    assert(str_views(post_i.strings@) =~= st.strings.push(string@));
                }
            }
        },
        _ => {},
    }
}

/// The code generator's state: the listing built so far, the tables the
/// walk resolves identifiers against, and the walk state.
pub struct Compiler {
    pub output: String,
    pub platform: Platform,
    pub functions: Vec<(String, FnEntry)>,
    pub consts: Vec<(String, i64)>,
    pub internals: Internals,
}

impl Compiler {
    /// A fresh code generator over the given tables.
    pub fn new(functions: Vec<(String, FnEntry)>, consts: Vec<(String, i64)>) -> (r: Compiler)
        ensures
            r.output@ == Seq::<char>::empty(),
            r.functions == functions,
            r.consts == consts,
            r.internals.strings@ == Seq::<String>::empty(),
            r.internals.idx == 0,
            r.internals.addresses_usage@ == Seq::<(usize, usize)>::empty(),
            r.internals.current_variable is None,
            r.internals.variables@ == Seq::<String>::empty(),
    {
        Compiler {
            output: String::new(),
            platform: Platform::Windows,
            internals: Internals::new(),
            functions,
            consts,
        }
    }

    /// Lowers the whole program: the preamble, then every function body
    /// wrapped in the return-pointer calls, then the top-level walk as
    /// `_start`, then the data section with the string pool. The output is
    /// exactly the text of the emission walks — a function of the tokens and
    /// the tables — and the first diagnostic any token raises stops the run
    /// with exactly that diagnostic.
    #[verifier::rlimit(100)]
    #[verifier::spinoff_prover]
    pub fn compile(&mut self, tokens: Vec<Token>) -> (r: Result<(), Error>)
        requires
            walk_jumps_forward(tokens@, 0, tokens@.len() as int),
            forall|p: int|
                0 <= p < old(self).functions@.len() ==> entry_wf(
                    tokens@,
                    (#[trigger] old(self).functions@[p]).1,
                ),
        ensures
            ({
                let fns = old(self).functions@;
                let cs = old(self).consts@;
                let wf = fns_fold(emit_init(old(self).internals), tokens@, fns, cs, 0);
                if wf.fail is Some {
                    r matches Err(e) && emit_err_matches(e, wf.fail->0)
                } else {
                    let wt = emit_fold(
                        EmitState { idx: 0, text: Seq::empty(), ..wf },
                        tokens@,
                        fns,
                        cs,
                        tokens@.len() as int,
                    );
                    if wt.fail is Some {
                        r matches Err(e) && emit_err_matches(e, wt.fail->0)
                    } else {
                        r is Ok && final(self).output@ == old(self).output@ + init_text()
                            + wf.text + "\n"@ + "_start:\n"@ + wt.text + "call _std@exit\n"@
                            + data_header_text() + crate::compiler::internals::strings_text(
                            wt.strings,
                            0,
                        ) && str_views(final(self).internals.strings@) == wt.strings
                    }
                }
            }),
    {
        self.init_output();
        let ghost o0 = self.output@;
        let ghost fns = self.functions@;
        let ghost cs = self.consts@;
        let ghost e0 = emit_init(old(self).internals);
        let ghost mut est = e0;
        let mut functions_out: Vec<Inst> = Vec::new();
        let fncount = self.functions.len();
        let mut p: usize = 0;
        while p < fncount
            invariant
                0 <= p <= fncount,
                fncount == self.functions@.len(),
                walk_jumps_forward(tokens@, 0, tokens@.len() as int),
                forall|q: int|
                    0 <= q < self.functions@.len() ==> entry_wf(
                        tokens@,
                        (#[trigger] self.functions@[q]).1,
                    ),
                self.functions == old(self).functions,
                self.consts == old(self).consts,
                self.output@ == o0,
                o0 == old(self).output@ + init_text(),
                fns == old(self).functions@,
                cs == old(self).consts@,
                e0 == emit_init(old(self).internals),
                est.fail is None,
                emit_inv(self.internals, EmitState { idx: self.internals.idx as int, ..est }),
                est.text == crate::compiler::inst::insts_text(functions_out@),
                fns_fold(est, tokens@, fns, cs, p as int) == fns_fold(e0, tokens@, fns, cs, 0),
            decreases fncount - p,
        {
            let name = &self.functions[p].0;
            let active = match crate::tables::find_fn_position(&self.functions, name.as_str()) {
                Some(q) => q == p,
                None => false,
            };
            if !active {
                proof {
                    assert(!crate::tables::fn_active(fns, p as int));
                    assert(fns_fold(est, tokens@, fns, cs, p as int) == fns_fold(
                        est,
                        tokens@,
                        fns,
                        cs,
                        p as int + 1,
                    ));
                }
                p += 1;
                continue ;
            }
            proof {
                assert(crate::tables::fn_active(fns, p as int));
            }
            let mut label = self.functions[p].0.clone();
            label.append(":");
            let ghost pre_out = functions_out@;
            functions_out.push(Inst::Label(label));
            functions_out.push(
                Inst::Call(inst::Op::Label(String::from_str("_std@store_ret_ptr"))),
            );
            let body_start = self.functions[p].1.body_start;
            let body_end = self.functions[p].1.body_end;
            self.internals.idx = body_start;
            let ghost est_head = est;
            let ghost st1 = EmitState {
                idx: body_start as int,
                text: est.text + crate::compiler::inst::label_line(fns[p as int].0@)
                    + crate::compiler::inst::call_line("_std@store_ret_ptr"@),
                ..est
            };
            proof {
                crate::compiler::inst::lemma_insts_text_push(
                    pre_out,
                    functions_out@[pre_out.len() as int],
                );
                crate::compiler::inst::lemma_insts_text_push(
                    pre_out.push(functions_out@[pre_out.len() as int]),
                    functions_out@[pre_out.len() as int + 1],
                );
                assert(functions_out@ =~= pre_out.push(functions_out@[pre_out.len() as int]).push(
                    functions_out@[pre_out.len() as int + 1],
                ));
                assert(crate::compiler::inst::inst_text(functions_out@[pre_out.len() as int])
                    == crate::compiler::inst::label_line(fns[p as int].0@));
                assert(crate::compiler::inst::inst_text(functions_out@[pre_out.len() as int + 1])
                    == crate::compiler::inst::call_line("_std@store_ret_ptr"@));
                est = st1;
                assert(est.text == crate::compiler::inst::insts_text(functions_out@));
            }
            while self.internals.idx < body_end
                invariant
                    body_end <= tokens@.len(),
                    walk_jumps_forward(tokens@, 0, tokens@.len() as int),
                    self.functions == old(self).functions,
                    self.consts == old(self).consts,
                    self.output@ == o0,
                    fns == old(self).functions@,
                    cs == old(self).consts@,
                    est.fail is None,
                    emit_inv(self.internals, est),
                    est.text == crate::compiler::inst::insts_text(functions_out@),
                    emit_fold(est, tokens@, fns, cs, body_end as int) == emit_fold(
                        st1,
                        tokens@,
                        fns,
                        cs,
                        body_end as int,
                    ),
                    p < fns.len(),
                    crate::tables::fn_active(fns, p as int),
                    body_start == fns[p as int].1.body_start,
                    body_end == fns[p as int].1.body_end,
                    est_head.fail is None,
                    st1 == (EmitState {
                        idx: body_start as int,
                        text: est_head.text + crate::compiler::inst::label_line(fns[p as int].0@)
                            + crate::compiler::inst::call_line("_std@store_ret_ptr"@),
                        ..est_head
                    }),
                    fns_fold(est_head, tokens@, fns, cs, p as int) == fns_fold(
                        e0,
                        tokens@,
                        fns,
                        cs,
                        0,
                    ),
                    e0 == emit_init(old(self).internals),
                decreases body_end - self.internals.idx,
            {
                let i = self.internals.idx;
                let ghost pre_int = self.internals;
                let ghost pre_est = est;
                let r = tokens[i].compile(&mut self.internals, &self.functions, &self.consts);
                proof {
                    lemma_step_glue(tokens@, fns, cs, pre_int, self.internals, r, pre_est);
                }
                match r {
                    Ok(mut toks) => {
                        let ghost fo = functions_out@;
                        let ghost gtoks = toks@;
                        let ghost s1 = emit_step(pre_est, tokens@, fns, cs);
                        functions_out.append(&mut toks);
                        let cur = self.internals.idx;
                        let next = if cur >= body_end {
                            body_end
                        } else {
                            cur + 1
                        };
                        self.internals.idx = next;
                        proof {
                            crate::compiler::inst::lemma_insts_text_concat(fo, gtoks);
                            assert(functions_out@ =~= fo + gtoks);
                            est = EmitState { idx: next as int, ..s1 };
                            assert(emit_fold(pre_est, tokens@, fns, cs, body_end as int)
                                == emit_fold(est, tokens@, fns, cs, body_end as int));
                        }
                    },
                    Err(e) => {
                        proof {
                            let s1 = emit_step(pre_est, tokens@, fns, cs);
                            assert(emit_fold(pre_est, tokens@, fns, cs, body_end as int) == s1);
                            assert(emit_fold(st1, tokens@, fns, cs, body_end as int) == s1);
                            assert(fns_fold(est_head, tokens@, fns, cs, p as int) == s1);
                            assert(fns_fold(e0, tokens@, fns, cs, 0) == s1);
                        }
                        return Err(e);
                    },
                }
            }
            let ghost st2 = est;
            let ghost pre_out2 = functions_out@;
            functions_out.push(
                Inst::Call(inst::Op::Label(String::from_str("_std@load_ret_ptr"))),
            );
            functions_out.push(Inst::Ret);
            proof {
                assert(emit_fold(st2, tokens@, fns, cs, body_end as int) == st2);
                crate::compiler::inst::lemma_insts_text_push(
                    pre_out2,
                    functions_out@[pre_out2.len() as int],
                );
                crate::compiler::inst::lemma_insts_text_push(
                    pre_out2.push(functions_out@[pre_out2.len() as int]),
                    functions_out@[pre_out2.len() as int + 1],
                );
                assert(functions_out@ =~= pre_out2.push(
                    functions_out@[pre_out2.len() as int],
                ).push(functions_out@[pre_out2.len() as int + 1]));
                est = EmitState {
                    text: st2.text + crate::compiler::inst::call_line("_std@load_ret_ptr"@)
                        + "\tret\n"@,
                    ..st2
                };
                assert(est.text == crate::compiler::inst::insts_text(functions_out@));
                assert(emit_fold(st1, tokens@, fns, cs, body_end as int) == st2);
                assert(fns_fold(est_head, tokens@, fns, cs, p as int) == fns_fold(
                    est,
                    tokens@,
                    fns,
                    cs,
                    p as int + 1,
                ));
                assert(fns_fold(est, tokens@, fns, cs, p as int + 1) == fns_fold(
                    e0,
                    tokens@,
                    fns,
                    cs,
                    0,
                ));
            }
            p += 1;
        }
        let ghost wf = fns_fold(e0, tokens@, fns, cs, 0);
        proof {
            assert(fns_fold(est, tokens@, fns, cs, fncount as int) == est);
            assert(est == wf);
        }
        let mut k: usize = 0;
        while k < functions_out.len()
            invariant
                0 <= k <= functions_out@.len(),
                self.output@ == o0 + crate::compiler::inst::insts_text(
                    functions_out@.take(k as int),
                ),
                self.functions == old(self).functions,
                self.consts == old(self).consts,
                self.internals == old(self).internals || true,
                emit_inv(self.internals, EmitState { idx: self.internals.idx as int, ..est }),
                walk_jumps_forward(tokens@, 0, tokens@.len() as int),
            decreases functions_out@.len() - k,
        {
            let line = functions_out[k].to_string();
            self.push_op(line.as_str());
            proof {
                assert(functions_out@.take(k + 1) =~= functions_out@.take(k as int).push(
                    functions_out@[k as int],
                ));
                crate::compiler::inst::lemma_insts_text_push(
                    functions_out@.take(k as int),
                    functions_out@[k as int],
                );
            }
            k += 1;
        }
        proof {
            assert(functions_out@.take(functions_out@.len() as int) =~= functions_out@);
        }
        let ghost o1 = self.output@;
        self.push_op("\n");
        self.push_op("_start:\n");
        let ghost o2 = self.output@;
        let ghost est2_0 = EmitState { idx: 0, text: Seq::empty(), ..wf };
        let ghost mut est2 = est2_0;
        let mut output_insts: Vec<Inst> = Vec::new();
        let total = tokens.len();
        self.internals.idx = 0;
        proof {
            assert(emit_inv(self.internals, est2));
            assert(est2.text == crate::compiler::inst::insts_text(output_insts@));
        }
        while self.internals.idx < total
            invariant
                total == tokens@.len(),
                walk_jumps_forward(tokens@, 0, tokens@.len() as int),
                self.functions == old(self).functions,
                self.consts == old(self).consts,
                self.output@ == o2,
                fns == old(self).functions@,
                cs == old(self).consts@,
                est2.fail is None,
                emit_inv(self.internals, est2),
                est2.text == crate::compiler::inst::insts_text(output_insts@),
                emit_fold(est2, tokens@, fns, cs, total as int) == emit_fold(
                    est2_0,
                    tokens@,
                    fns,
                    cs,
                    total as int,
                ),
                wf == fns_fold(e0, tokens@, fns, cs, 0),
                wf.fail is None,
                est2_0 == (EmitState { idx: 0, text: Seq::empty(), ..wf }),
                e0 == emit_init(old(self).internals),
            decreases total - self.internals.idx,
        {
            let i = self.internals.idx;
            let ghost pre_int = self.internals;
            let ghost pre_est = est2;
            let r = tokens[i].compile(&mut self.internals, &self.functions, &self.consts);
            proof {
                lemma_step_glue(tokens@, fns, cs, pre_int, self.internals, r, pre_est);
            }
            match r {
                Ok(mut toks) => {
                    let ghost fo = output_insts@;
                    let ghost gtoks = toks@;
                    let ghost s1 = emit_step(pre_est, tokens@, fns, cs);
                    output_insts.append(&mut toks);
                    let cur = self.internals.idx;
                    let next = if cur >= total {
                        total
                    } else {
                        cur + 1
                    };
                    self.internals.idx = next;
                    proof {
                        crate::compiler::inst::lemma_insts_text_concat(fo, gtoks);
                        assert(output_insts@ =~= fo + gtoks);
                        est2 = EmitState { idx: next as int, ..s1 };
                        assert(emit_fold(pre_est, tokens@, fns, cs, total as int) == emit_fold(
                            est2,
                            tokens@,
                            fns,
                            cs,
                            total as int,
                        ));
                    }
                },
                Err(e) => {
                    proof {
                        let s1 = emit_step(pre_est, tokens@, fns, cs);
                        assert(emit_fold(pre_est, tokens@, fns, cs, total as int) == s1);
                    }
                    return Err(e);
                },
            }
        }
        let ghost wt = emit_fold(est2_0, tokens@, fns, cs, total as int);
        proof {
            assert(emit_fold(est2, tokens@, fns, cs, total as int) == est2);
            assert(est2 == wt);
        }
        let mut k2: usize = 0;
        while k2 < output_insts.len()
            invariant
                0 <= k2 <= output_insts@.len(),
                self.output@ == o2 + crate::compiler::inst::insts_text(
                    output_insts@.take(k2 as int),
                ),
                self.functions == old(self).functions,
                self.consts == old(self).consts,
                emit_inv(self.internals, EmitState { idx: self.internals.idx as int, ..est2 }),
            decreases output_insts@.len() - k2,
        {
            let line = output_insts[k2].to_string();
            self.push_op(line.as_str());
            proof {
                assert(output_insts@.take(k2 + 1) =~= output_insts@.take(k2 as int).push(
                    output_insts@[k2 as int],
                ));
                crate::compiler::inst::lemma_insts_text_push(
                    output_insts@.take(k2 as int),
                    output_insts@[k2 as int],
                );
            }
            k2 += 1;
        }
        proof {
            assert(output_insts@.take(output_insts@.len() as int) =~= output_insts@);
        }
        self.push_op("call _std@exit\n");
        self.compile_strings();
        proof {
            assert(str_views(self.internals.strings@) == wt.strings);
            assert(self.output@ =~= old(self).output@ + init_text() + wf.text + "\n"@
                + "_start:\n"@ + wt.text + "call _std@exit\n"@ + data_header_text()
                + crate::compiler::internals::strings_text(wt.strings, 0));
        }
        Ok(())
    }

    /// Renders the data section: the return-pointer index slot, then the
    /// interned strings.
    fn compile_strings(&mut self)
        ensures
            final(self).output@ == old(self).output@ + data_header_text() + crate::compiler::internals::strings_text(
                str_views(old(self).internals.strings@),
                0,
            ),
            final(self).internals == old(self).internals,
            final(self).functions == old(self).functions,
            final(self).consts == old(self).consts,
    {
        self.push_op("\n");
        self.push_op("segment .data\n\t_mem@ret_ptr_idx dw 0\n");
        let strings = self.internals.compile_strings();
        self.push_op(strings.as_str());
        proof {
            assert(self.output@ =~= old(self).output@ + data_header_text()
                + crate::compiler::internals::strings_text(
                str_views(old(self).internals.strings@),
                0,
            ));
        }
    }

    /// Appends one piece of text to the listing.
    fn push_op(&mut self, op: &str)
        ensures
            final(self).output@ == old(self).output@ + op@,
            final(self).internals == old(self).internals,
            final(self).functions == old(self).functions,
            final(self).consts == old(self).consts,
    {
        self.output.append(op);
    }

    /// Emits the fixed preamble for the lowering target.
    fn init_output(&mut self)
        ensures
            final(self).output@ == old(self).output@ + init_text(),
            final(self).internals == old(self).internals,
            final(self).functions == old(self).functions,
            final(self).consts == old(self).consts,
    {
        match self.platform {
            Platform::Windows => {
                self.push_op(crate::compiler::template::header());
                self.push_op(crate::compiler::template::ret_ptr());
                self.push_op(crate::compiler::template::print_int());
                self.push_op(crate::compiler::template::variables());
                self.push_op(crate::compiler::template::exit());
            },
        }
        self.push_op("\n");
        proof {
            assert(self.output@ =~= old(self).output@ + init_text());
        }
    }
}

} // verus!
