//! A token: a kind with its source position, and its translation to
//! instructions during the code-generation walk.

use vstd::prelude::*;

use crate::compiler::err::{ErrTyp, Error};
use crate::compiler::inst::{call_line, insts_text, line1t, line2t, lemma_text1, lemma_text2, Inst, Op};
use crate::compiler::internals::{slot_of, Internals};
use crate::parser::typ::{is_token_error_for, is_token_for, Typ};
use crate::strings::{spec_int_string, spec_nat_string, str_views, i64_string, trim_str};
use crate::tables::{const_lookup, fn_position, find_const, find_fn, FnEntry};
use crate::token::{arith, cmp, control_flow, helper, mem, sys};
use crate::token::control_flow::cond_jump_text;
use crate::token::mem::{fetch_text, located_error, mem_text, put_text};
use crate::token::sys::{sys_missing_const_message, sys_text};
use crate::compiler::internals::{address_label, next_of, usage_map};

verus! {

/// A token: its kind, its source position, and — for control-flow openers —
/// the index of its jump target, filled in by the structural parser.
#[derive(Debug)]
pub struct Token {
    pub typ: Typ,
    pub col: usize,
    pub row: usize,
    pub filename: String,
    pub jmp_idx: Option<usize>,
}

/// The width of the token as it appears in a source file, in characters,
/// clamped at the machine limit.
pub open spec fn spec_token_len(t: Typ) -> int {
    match t {
        Typ::Arithmetic(_) => 1,
        Typ::Str(string) => string@.len() as int,
        Typ::Identifier(identifier) => identifier@.len() as int,
        Typ::Int(integer) => spec_int_string(integer as int).len() as int,
        Typ::Helper(_) => 1,
        Typ::Sys(sys::Token::Sys(identifier)) => if identifier@.len() + 5 > usize::MAX {
            usize::MAX as int
        } else {
            identifier@.len() as int + 5
        },
        Typ::Sys(sys::Token::Include) => 7,
        Typ::Ignore => 0,
        Typ::Memory(token) => match token {
            mem::Token::Dup | mem::Token::Rot | mem::Token::Put | mem::Token::Mem => 3,
            mem::Token::InternalMem | mem::Token::Swap | mem::Token::Load(_) | mem::Token::Drop
                | mem::Token::Over => 4,
            mem::Token::Store(_) | mem::Token::Fetch => 5,
        },
        Typ::ControlFlow(token) => match token {
            control_flow::Token::Do | control_flow::Token::Fn | control_flow::Token::If => 2,
            control_flow::Token::End | control_flow::Token::EndWhile => 3,
            control_flow::Token::Else => 4,
            control_flow::Token::Const | control_flow::Token::Macro
                | control_flow::Token::While => 5,
        },
        Typ::Comparison(token) => match token {
            cmp::Token::Eq | cmp::Token::Gt | cmp::Token::Lt => 1,
            cmp::Token::NotEq | cmp::Token::Ge | cmp::Token::Le => 2,
        },
    }
}

/// The diagnostic for an identifier that neither names a function or
/// constant nor is followed by `put` or `fetch`.
pub open spec fn free_standing_message(v: Seq<char>) -> Seq<char> {
    "An identifier cannot be free standing, it should be a `fn` or have a `put` or `fetch` (or `!`) after it. `"@
        + v + "` is free standing. Check the spelling of the identifier."@
}

/// The emission of a string literal interned at pool index `k`.
pub open spec fn str_push_text(k: int) -> Seq<char> {
    line2t("lea"@, "rax"@, "[str_"@ + spec_nat_string(k) + "]"@) + line1t("push"@, "rax"@)
}

/// The emission of an integer literal.
pub open spec fn int_push_text(i: i64) -> Seq<char> {
    line2t("mov"@, "rax"@, spec_int_string(i as int)) + line1t("push"@, "rax"@)
}

/// The emission of a constant reference.
pub open spec fn const_push_text(v: i64) -> Seq<char> {
    line1t("push"@, spec_int_string(v as int))
}

/// Does this kind consume the pending identifier?
pub open spec fn is_put_or_fetch(t: Typ) -> bool {
    t matches Typ::Memory(mem::Token::Put) || t matches Typ::Memory(mem::Token::Fetch)
}

/// What compiling one token does: the instruction text it yields or the
/// diagnostic it raises, and how it moves the walk state. Stated against the
/// state before (`pre`) and after (`post`) the call.
pub open spec fn compile_post(
    t: Token,
    fns: Seq<(String, FnEntry)>,
    consts: Seq<(String, i64)>,
    pre: Internals,
    post: Internals,
    r: Result<Vec<Inst>, Error>,
) -> bool {
    if pre.current_variable is Some && !is_put_or_fetch(t.typ) {
        // A pending identifier must be consumed at once.
        let v = pre.current_variable->0;
        &&& r matches Err(e) && e.typ == ErrTyp::User && e.message@ == free_standing_message(v@)
            && e.location == (pre.location.0, pre.location.1) && e.filename@ == pre.location.2@
            && e.token_len == v@.len() && e.function_line is None
        &&& post == pre
    } else {
        // The walk's location moves to this token, …
        &&& post.location.0 == t.row && post.location.1 == t.col && post.location.2@ == t.filename@
        &&& post.should_increment == pre.should_increment
        &&& (match t.typ {
            Typ::Memory(m) => post.idx == pre.idx && post.addresses_usage == pre.addresses_usage
                && post.strings == pre.strings && post.current_variable is None && (match m {
                mem::Token::Put => (match pre.current_variable {
                    Some(v) => r matches Ok(out) && (match slot_of(pre.variables@, v@) {
                        Some(k) => insts_text(out@) == put_text(k as usize) && post.variables
                            == pre.variables,
                        None => insts_text(out@) == put_text(pre.variables@.len() as usize)
                            && post.variables@ == pre.variables@.push(v),
                    }),
                    None => r matches Err(e) && located_error(
                        e,
                        post.location,
                        "`put` should be preceeded by an identifier but was not."@,
                        3,
                    ) && post.variables == pre.variables,
                }),
                mem::Token::Fetch => post.variables == pre.variables && (match pre.current_variable {
                    Some(v) => (match slot_of(pre.variables@, v@) {
                        Some(k) => r matches Ok(out) && insts_text(out@) == fetch_text(k as usize),
                        None => r matches Err(e) && located_error(
                            e,
                            post.location,
                            "The variable "@ + v@
                                + " was not declared in the current scope. Declare your variables with `put`"@,
                            5,
                        ),
                    }),
                    None => r matches Err(e) && located_error(
                        e,
                        post.location,
                        "`fetch` should be preceeded by an identifier but was not."@,
                        5,
                    ),
                }),
                _ => r matches Ok(out) && insts_text(out@) == mem_text(m) && post.variables
                    == pre.variables,
            }),
            Typ::ControlFlow(c) => post.variables == pre.variables && post.strings == pre.strings
                && post.current_variable is None && (match c {
                control_flow::Token::If | control_flow::Token::Do => post.idx == pre.idx && (match t.jmp_idx {
                    Some(j) => {
                        let u = next_of(usage_map(pre.addresses_usage@), j);
                        r matches Ok(out) && insts_text(out@) == cond_jump_text(
                            address_label(j, u),
                        ) && usage_map(post.addresses_usage@) == usage_map(
                            pre.addresses_usage@,
                        ).insert(j, u)
                    },
                    None => r matches Err(e) && located_error(
                        e,
                        post.location,
                        "Missing an `end` statement after the `if` or `do`. Should be in this format: `<condition> if <if_true> else <if_false> end`"@,
                        2,
                    ) && post.addresses_usage == pre.addresses_usage,
                }),
                control_flow::Token::Else => post.idx == pre.idx && (match t.jmp_idx {
                    Some(j) => {
                        let m0 = usage_map(pre.addresses_usage@);
                        let u1 = next_of(m0, j);
                        let m1 = m0.insert(j, u1);
                        let u2 = next_of(m1, pre.idx);
                        r matches Ok(out) && insts_text(out@) == crate::compiler::inst::jump_line(
                            "jmp"@,
                            address_label(j, u1),
                        ) + crate::compiler::inst::label_line(address_label(pre.idx, u2))
                            && usage_map(post.addresses_usage@) == m1.insert(pre.idx, u2)
                    },
                    None => r matches Err(e) && located_error(
                        e,
                        post.location,
                        "Missing an `end` statement after the `else`. Should be in this format: `<condition> if <if_true> else <if_false> end`"@,
                        4,
                    ) && post.addresses_usage == pre.addresses_usage,
                }),
                control_flow::Token::While | control_flow::Token::End => {
                    let u = next_of(usage_map(pre.addresses_usage@), pre.idx);
                    post.idx == pre.idx && (r matches Ok(out) && insts_text(out@)
                        == crate::compiler::inst::label_line(address_label(pre.idx, u))
                        && usage_map(post.addresses_usage@) == usage_map(
                        pre.addresses_usage@,
                    ).insert(pre.idx, u))
                },
                control_flow::Token::EndWhile => post.idx == pre.idx && (match t.jmp_idx {
                    Some(j) => {
                        let m0 = usage_map(pre.addresses_usage@);
                        let u1 = next_of(m0, j);
                        let m1 = m0.insert(j, u1);
                        let u2 = next_of(m1, pre.idx);
                        r matches Ok(out) && insts_text(out@) == crate::compiler::inst::jump_line(
                            "jmp"@,
                            address_label(j, u1),
                        ) + crate::compiler::inst::label_line(address_label(pre.idx, u2))
                            && usage_map(post.addresses_usage@) == m1.insert(pre.idx, u2)
                    },
                    None => {
                        let u = next_of(usage_map(pre.addresses_usage@), pre.idx);
                        r matches Ok(out) && insts_text(out@)
                            == crate::compiler::inst::label_line(address_label(pre.idx, u))
                            && usage_map(post.addresses_usage@) == usage_map(
                            pre.addresses_usage@,
                        ).insert(pre.idx, u)
                    },
                }),
                control_flow::Token::Fn | control_flow::Token::Const => r matches Ok(out) && out@
                    == Seq::<Inst>::empty() && post.addresses_usage == pre.addresses_usage
                    && post.idx == (match t.jmp_idx {
                    Some(j) => j,
                    None => pre.idx,
                }),
                control_flow::Token::Macro => r matches Err(e) && e.typ == ErrTyp::Internal
                    && e.message@
                    == "An internal error occured while parsing or compiling the program"@
                    && e.location == (post.location.0, post.location.1) && e.filename@
                    == post.location.2@ && e.token_len == 1 && e.function_line is None
                    && post.addresses_usage == pre.addresses_usage && post.idx == pre.idx,
            }),
            Typ::Comparison(c) => unchanged_but_cleared(pre, post) && (r matches Ok(out) && out@
                == cmp::cmp_insts(c)),
            Typ::Arithmetic(a) => unchanged_but_cleared(pre, post) && (r matches Ok(out) && out@
                == arith::arith_insts(a)),
            Typ::Sys(s) => unchanged_but_cleared(pre, post) && (match s {
                sys::Token::Sys(name) => (match const_lookup(consts, name@) {
                    Some(args) => r matches Ok(out) && insts_text(out@) == sys_text(name@, args),
                    None => r matches Err(e) && located_error(
                        e,
                        post.location,
                        sys_missing_const_message(name@),
                        name@.len() as usize,
                    ),
                }),
                sys::Token::Include => r matches Ok(out) && out@ == Seq::<Inst>::empty(),
            }),
            Typ::Str(string) => post.idx == pre.idx && post.addresses_usage == pre.addresses_usage
                && post.variables == pre.variables && post.current_variable is None && (r matches Ok(
                out,
            ) && insts_text(out@) == str_push_text(pre.strings@.len() as int)) && str_views(
                post.strings@,
            ) == str_views(pre.strings@).push(string@),
            Typ::Int(integer) => unchanged_but_cleared(pre, post) && (r matches Ok(out)
                && insts_text(out@) == int_push_text(integer)),
            Typ::Identifier(identifier) => post.idx == pre.idx && post.addresses_usage
                == pre.addresses_usage && post.variables == pre.variables && post.strings
                == pre.strings && (if fn_position(
                fns,
                identifier@,
            ) is Some {
                r matches Ok(out) && insts_text(out@) == call_line(identifier@)
                    && post.current_variable == pre.current_variable
            } else if const_lookup(consts, identifier@) is Some {
                r matches Ok(out) && insts_text(out@) == const_push_text(
                    const_lookup(consts, identifier@)->0,
                ) && post.current_variable == pre.current_variable
            } else {
                r matches Ok(out) && out@ == Seq::<Inst>::empty() && (post.current_variable
                    matches Some(cv) && cv@ == identifier@)
            }),
            Typ::Ignore => unchanged_but_cleared(pre, post) && (r matches Ok(out) && out@
                == Seq::<Inst>::empty()),
            Typ::Helper(_) => unchanged_but_cleared(pre, post) && (r matches Ok(out) && out@
                == Seq::<Inst>::empty()),
        })
    }
}

/// No state moved but the pending identifier, which is cleared.
pub open spec fn unchanged_but_cleared(pre: Internals, post: Internals) -> bool {
    post.idx == pre.idx && post.addresses_usage == pre.addresses_usage && post.variables
        == pre.variables && post.strings == pre.strings && post.current_variable is None
}

/// The string-push emission, except for the `Str` case where it interns.
impl Token {
    /// Builds the token for a lexeme at a source position. A blank lexeme is
    /// refused silently; a malformed type annotation is refused with its
    /// diagnostic.
    pub fn new(
        value: &str,
        is_string: bool,
        is_char: bool,
        is_type_annot: bool,
        row: usize,
        col: usize,
        filename: &str,
    ) -> (r: Result<Token, Option<String>>)
        ensures
            (match r {
                Ok(tok) => is_token_for(tok.typ, value@, is_string, is_char, is_type_annot)
                    && tok.row == row && tok.col == col && tok.filename@ == filename@
                    && tok.jmp_idx is None,
                Err(e) => is_token_error_for(e, value@, is_string, is_char, is_type_annot),
            }),
    {
        match Typ::try_from(value, is_string, is_char, is_type_annot) {
            Ok(typ) => Ok(
                Token { typ, row, col, filename: String::from_str(filename), jmp_idx: None },
            ),
            Err(e) => Err(e),
        }
    }

    /// The width of the token as it appears in a file, for caret rules under
    /// diagnostics.
    pub fn len(&self) -> (r: usize)
        ensures
            r == spec_token_len(self.typ),
    {
        match &self.typ {
            Typ::Arithmetic(_) => 1,
            Typ::Str(string) => string.as_str().unicode_len(),
            Typ::Identifier(identifier) => identifier.as_str().unicode_len(),
            Typ::Int(integer) => i64_string(*integer).as_str().unicode_len(),
            Typ::Helper(_) => 1,
            Typ::Sys(sys::Token::Sys(identifier)) => identifier.as_str().unicode_len()
                .saturating_add(5),
            Typ::Sys(sys::Token::Include) => 7,
            Typ::Ignore => 0,
            Typ::Memory(token) => match token {
                mem::Token::Dup | mem::Token::Rot | mem::Token::Put | mem::Token::Mem => 3,
                mem::Token::InternalMem | mem::Token::Swap | mem::Token::Load(_)
                    | mem::Token::Drop | mem::Token::Over => 4,
                mem::Token::Store(_) | mem::Token::Fetch => 5,
            },
            Typ::ControlFlow(token) => match token {
                control_flow::Token::Do | control_flow::Token::Fn | control_flow::Token::If => 2,
                control_flow::Token::End | control_flow::Token::EndWhile => 3,
                control_flow::Token::Else => 4,
                control_flow::Token::Const | control_flow::Token::Macro
                    | control_flow::Token::While => 5,
            },
            Typ::Comparison(token) => match token {
                cmp::Token::Eq | cmp::Token::Gt | cmp::Token::Lt => 1,
                cmp::Token::NotEq | cmp::Token::Ge | cmp::Token::Le => 2,
            },
        }
    }

    /// Translates the token to its instruction list, updating the walk state:
    /// the location moves here, an unconsumed pending identifier is an error,
    /// and identifiers resolve against the function and constant tables.
    pub fn compile(
        &self,
        internals: &mut Internals,
        functions: &Vec<(String, FnEntry)>,
        consts: &Vec<(String, i64)>,
    ) -> (r: Result<Vec<Inst>, Error>)
        ensures
            compile_post(*self, functions@, consts@, *old(internals), *final(internals), r),
    {
        let pending = internals.current_variable.is_some();
        if pending && !self.typ.is_affected_by_identifier() {
            let identifier = match &internals.current_variable {
                Some(v) => v.clone(),
                None => String::new(),
            };
            let mut m = String::from_str(
                "An identifier cannot be free standing, it should be a `fn` or have a `put` or `fetch` (or `!`) after it. `",
            );
            m.append(identifier.as_str());
            m.append("` is free standing. Check the spelling of the identifier.");
            let token_len = identifier.as_str().unicode_len();
            proof {
                assert(m@ =~= free_standing_message(identifier@));
            }
            return Err(
                Error::new(
                    m,
                    (internals.location.0, internals.location.1, internals.location.2.clone()),
                    token_len,
                ),
            );
        }
        internals.location = (self.row, self.col, String::from_str(self.filename.as_str()));
        let was_identifier = match &self.typ {
            Typ::Identifier(_) => true,
            _ => false,
        };
        let toks: Result<Vec<Inst>, Error> = match &self.typ {
            Typ::Memory(typ) => typ.compile(internals),
            Typ::ControlFlow(typ) => typ.compile(self.jmp_idx, internals),
            Typ::Comparison(typ) => typ.compile(),
            Typ::Arithmetic(typ) => typ.compile(),
            Typ::Sys(typ) => typ.compile(consts, internals),
            Typ::Str(string) => {
                let str_idx = internals.push_string(string.clone());
                let mut operand = String::from_str("[str_");
                operand.append(crate::strings::usize_string(str_idx).as_str());
                operand.append("]");
                let mut out: Vec<Inst> = Vec::new();
                out.push(Inst::Lea(Op::Rax, Op::Memory(operand)));
                out.push(Inst::Push(Op::Rax));
                proof {
                    assert(str_views(internals.strings@) =~= str_views(
                        old(internals).strings@,
                    ).push(string@));
                    lemma_text2(out@, str_push_text(old(internals).strings@.len() as int));
                }
                Ok(out)
            },
            Typ::Int(integer) => {
                let mut out: Vec<Inst> = Vec::new();
                out.push(Inst::Mov(Op::Rax, Op::Immediate(*integer)));
                out.push(Inst::Push(Op::Rax));
                proof {
                    lemma_text2(out@, int_push_text(*integer));
                }
                Ok(out)
            },
            Typ::Identifier(identifier) => {
                if find_fn(functions, identifier.as_str()).is_some() {
                    let mut out: Vec<Inst> = Vec::new();
                    out.push(Inst::Call(Op::Label(identifier.clone())));
                    proof {
                        lemma_text1(out@, call_line(identifier@));
                    }
                    Ok(out)
                } else if let Some(value) = find_const(consts, identifier.as_str()) {
                    let mut out: Vec<Inst> = Vec::new();
                    out.push(Inst::Push(Op::Immediate(value)));
                    proof {
                        lemma_text1(out@, const_push_text(value));
                    }
                    Ok(out)
                } else {
                    internals.current_variable = Some(identifier.clone());
                    let out: Vec<Inst> = Vec::new();
                    Ok(out)
                }
            },
            Typ::Ignore => {
                let out: Vec<Inst> = Vec::new();
                Ok(out)
            },
            Typ::Helper(_) => {
                let out: Vec<Inst> = Vec::new();
                Ok(out)
            },
        };
        if !was_identifier {
            internals.current_variable = None;
        }
        toks
    }
}

/// The code generator is deterministic, token by token: whenever two
/// successful emissions of the same token run from walk states with the same
/// observable content, they emit the same text and leave the same observable
/// content behind. The rendered listing is a function of the tokens and the
/// tables alone.
pub proof fn lemma_emission_deterministic(
    t: Token,
    fns: Seq<(String, FnEntry)>,
    consts: Seq<(String, i64)>,
    pre: Internals,
    post1: Internals,
    post2: Internals,
    out1: Vec<Inst>,
    out2: Vec<Inst>,
)
    requires
        compile_post(t, fns, consts, pre, post1, Ok(out1)),
        compile_post(t, fns, consts, pre, post2, Ok(out2)),
    ensures
        insts_text(out1@) == insts_text(out2@),
        usage_map(post1.addresses_usage@) == usage_map(post2.addresses_usage@),
        str_views(post1.strings@) == str_views(post2.strings@),
        str_views(post1.variables@) == str_views(post2.variables@),
        post1.idx == post2.idx,
        post1.current_variable is Some <==> post2.current_variable is Some,
        post1.current_variable is Some ==> post1.current_variable->0@
            == post2.current_variable->0@,
{
}

/// One lexeme the scanner hands to the classifier: its text, the mode it was
/// read in, and its source position.
pub struct LexItem {
    pub value: Seq<char>,
    pub is_string: bool,
    pub is_char: bool,
    pub is_type_annot: bool,
    pub row: int,
    pub col: int,
    pub filename: Seq<char>,
}

/// One scan diagnostic.
pub struct LexErr {
    pub message: Seq<char>,
    pub row: int,
    pub col: int,
    pub filename: Seq<char>,
    pub token_len: int,
}

/// The scanner's state: the current file and row base, the in-line scan
/// flags, and everything produced so far.
pub struct LexState {
    pub filename: Seq<char>,
    pub row_offset: int,
    pub start: int,
    pub in_comment: bool,
    pub is_string: bool,
    pub is_char: bool,
    pub is_type_annot: bool,
    pub is_two_char_tok: bool,
    pub ignore_equal: bool,
    pub items: Seq<LexItem>,
    pub errors: Seq<LexErr>,
}

/// Handing a lexeme to the classifier: a blank lexeme is dropped, a bad type
/// annotation becomes a diagnostic, anything else becomes an item.
pub open spec fn push_candidate(
    st: LexState,
    value: Seq<char>,
    is_string: bool,
    is_char: bool,
    is_type_annot: bool,
    row: int,
    col: int,
) -> LexState {
    if crate::strings::spec_trim(value).len() == 0 {
        st
    } else if !is_string && !is_char && is_type_annot && helper::spec_new_type_annot(value) is Err {
        LexState {
            errors: st.errors.push(
                LexErr {
                    message: helper::spec_new_type_annot(value)->Err_0,
                    row: row - st.row_offset,
                    col: col,
                    filename: st.filename,
                    token_len: value.len() as int,
                },
            ),
            ..st
        }
    } else {
        LexState {
            items: st.items.push(
                LexItem {
                    value,
                    is_string,
                    is_char,
                    is_type_annot,
                    row: row - st.row_offset,
                    col: col,
                    filename: st.filename,
                },
            ),
            ..st
        }
    }
}

/// The characters that end a lexeme and stand as one-character tokens.
pub open spec fn is_boundary_char(c: char) -> bool {
    c == '(' || c == ')' || c == '&' || c == '|' || c == '+' || c == '*' || c == '/' || c == '%'
        || c == '=' || c == ',' || c == ' ' || c == '\t'
}

/// One scanner step over `line[col]`.
pub open spec fn lex_char(st: LexState, line: Seq<char>, row: int, col: int) -> LexState {
    if st.in_comment {
        st
    } else {
        let c = line[col];
        // A pending `!`, `>` or `<`: widen to the two-character token when an
        // `=` follows, else emit the single character and rescan.
        let st1 = if st.is_two_char_tok {
            let two_start = st.start;
            let end = if c == '=' {
                col + 1
            } else {
                col
            };
            let sta = LexState {
                ignore_equal: if c == '=' {
                    true
                } else {
                    st.ignore_equal
                },
                start: if c == '=' {
                    st.start
                } else {
                    col
                },
                is_two_char_tok: false,
                ..st
            };
            push_candidate(
                sta,
                crate::strings::spec_trim(line.subrange(two_start, end)),
                false,
                false,
                false,
                row,
                col,
            )
        } else {
            st
        };
        if c == '#' {
            LexState { in_comment: true, ..st1 }
        } else if c == '!' || c == '>' || c == '<' {
            if !st1.is_string && !st1.is_char && !st1.is_type_annot {
                let st2 = push_candidate(
                    st1,
                    crate::strings::spec_trim(line.subrange(st1.start, col)),
                    false,
                    false,
                    false,
                    row,
                    col,
                );
                let st3 = if col == line.len() - 1 {
                    push_candidate(st2, line.skip(col), false, false, false, row, col)
                } else {
                    st2
                };
                LexState { is_two_char_tok: true, start: col, ..st3 }
            } else {
                st1
            }
        } else if is_boundary_char(c) {
            if !st1.is_char && !st1.is_string && !st1.is_type_annot {
                if st1.ignore_equal {
                    LexState { ignore_equal: false, start: col + 1, ..st1 }
                } else {
                    let st2 = push_candidate(
                        st1,
                        crate::strings::spec_trim(line.subrange(st1.start, col)),
                        false,
                        false,
                        false,
                        row,
                        col,
                    );
                    let st3 = push_candidate(
                        st2,
                        line.subrange(col, col + 1),
                        false,
                        false,
                        false,
                        row,
                        col,
                    );
                    LexState { start: col + 1, ..st3 }
                }
            } else {
                st1
            }
        } else if c == '[' {
            let st2 = push_candidate(
                st1,
                crate::strings::spec_trim(line.subrange(st1.start, col)),
                false,
                false,
                false,
                row,
                col,
            );
            if !st2.is_string && !st2.is_char {
                LexState { start: col + 1, is_type_annot: true, ..st2 }
            } else {
                st2
            }
        } else if c == ']' {
            if st1.is_type_annot {
                let st2 = push_candidate(
                    st1,
                    crate::strings::spec_trim(line.subrange(st1.start, col)),
                    false,
                    false,
                    true,
                    row,
                    col,
                );
                LexState { start: col + 1, is_type_annot: false, ..st2 }
            } else {
                st1
            }
        } else if c == '"' {
            if st1.is_string {
                let st2 = push_candidate(
                    st1,
                    crate::strings::spec_trim(line.subrange(st1.start, col)),
                    true,
                    false,
                    false,
                    row,
                    col,
                );
                LexState { start: col + 1, is_string: false, ..st2 }
            } else if !st1.is_char && !st1.is_type_annot {
                let st2 = push_candidate(
                    st1,
                    crate::strings::spec_trim(line.subrange(st1.start, col)),
                    false,
                    false,
                    false,
                    row,
                    col,
                );
                LexState { start: col + 1, is_string: true, ..st2 }
            } else {
                st1
            }
        } else if c == '\'' {
            if st1.is_char {
                if col - st1.start == 1 {
                    let st2 = push_candidate(
                        st1,
                        line.subrange(col - 1, col),
                        false,
                        true,
                        false,
                        row,
                        col,
                    );
                    LexState { start: col + 1, is_char: false, ..st2 }
                } else {
                    LexState {
                        is_char: false,
                        errors: st1.errors.push(
                            LexErr {
                                message:
                                    "a char should be 1 charater long. To have longer strings, use \" not '."@,
                                row: row - st1.row_offset,
                                col: st1.start + 1,
                                filename: st1.filename,
                                token_len: col - st1.start,
                            },
                        ),
                        ..st1
                    }
                }
            } else if !st1.is_string && !st1.is_type_annot {
                let st2 = push_candidate(
                    st1,
                    line.subrange(st1.start, col),
                    false,
                    false,
                    false,
                    row,
                    col,
                );
                LexState { start: col + 1, is_char: true, ..st2 }
            } else {
                st1
            }
        } else {
            if col == line.len() - 1 {
                if !st1.is_string && !st1.is_char && !st1.is_type_annot {
                    push_candidate(st1, line.skip(st1.start), false, false, false, row, col)
                } else if !st1.is_type_annot {
                    LexState {
                        errors: st1.errors.push(
                            LexErr {
                                message:
                                    "a string can only be on one line and should be closed before the end of the line"@,
                                row: row - st1.row_offset,
                                col: col,
                                filename: st1.filename,
                                token_len: 1,
                            },
                        ),
                        ..st1
                    }
                } else {
                    LexState {
                        errors: st1.errors.push(
                            LexErr {
                                message:
                                    "An opening braket '[' must be matched with a closing one ']'."@,
                                row: row - st1.row_offset,
                                col: col,
                                filename: st1.filename,
                                token_len: 1,
                            },
                        ),
                        ..st1
                    }
                }
            } else {
                st1
            }
        }
    }
}

/// The synthetic line marker carrying a filename between included files.
pub open spec fn file_marker() -> Seq<char> {
    "___rk___ __rk_newfile_rk__ ___rk___ "@
}

/// The per-line reset; a file-delimiter line sets the filename, rebases the
/// row numbering, and is otherwise skipped.
pub open spec fn line_init(st: LexState, line: Seq<char>, row: int) -> LexState {
    let parts = crate::strings::spec_split(line, file_marker());
    let delim = parts.len() == 2;
    LexState {
        filename: if delim {
            parts[1]
        } else {
            st.filename
        },
        row_offset: if delim {
            row
        } else {
            st.row_offset
        },
        start: 0,
        in_comment: delim,
        is_string: false,
        is_char: false,
        is_type_annot: false,
        is_two_char_tok: false,
        ignore_equal: false,
        ..st
    }
}

/// The scanner folded over the columns of one line from `col` on.
pub open spec fn lex_cols(st: LexState, line: Seq<char>, row: int, col: int) -> LexState
    decreases line.len() - col,
{
    if col < 0 || col >= line.len() {
        st
    } else {
        lex_cols(lex_char(st, line, row, col), line, row, col + 1)
    }
}

/// The scanner over one whole line.
pub open spec fn lex_line(st: LexState, line: Seq<char>, row: int) -> LexState {
    lex_cols(line_init(st, line, row), line, row, 0)
}

/// The scanner folded over the lines from `row` on.
pub open spec fn lex_rows(st: LexState, lines: Seq<Seq<char>>, row: int) -> LexState
    decreases lines.len() - row,
{
    if row < 0 || row >= lines.len() {
        st
    } else {
        lex_rows(lex_line(st, lines[row], row), lines, row + 1)
    }
}

pub open spec fn init_lex_state() -> LexState {
    LexState {
        filename: Seq::empty(),
        row_offset: 0,
        start: 0,
        in_comment: false,
        is_string: false,
        is_char: false,
        is_type_annot: false,
        is_two_char_tok: false,
        ignore_equal: false,
        items: Seq::empty(),
        errors: Seq::empty(),
    }
}

/// What scanning a whole input yields.
pub open spec fn spec_lex(input: Seq<char>) -> LexState {
    lex_rows(init_lex_state(), crate::strings::spec_lines(input), 0)
}

/// Does the built token render the scanned lexeme?
pub open spec fn token_matches_item(t: Token, it: LexItem) -> bool {
    is_token_for(t.typ, it.value, it.is_string, it.is_char, it.is_type_annot) && t.row == it.row
        && t.col == it.col && t.filename@ == it.filename && t.jmp_idx is None
}

/// Does the built diagnostic render the scanned one?
pub open spec fn error_matches(e: Error, le: LexErr) -> bool {
    e.typ == ErrTyp::User && e.message@ == le.message && e.location.0 == le.row && e.location.1
        == le.col && e.filename@ == le.filename && e.token_len == le.token_len
        && e.function_line is None
}

/// Converts the text of a source program into its token sequence, or the
/// collected scan diagnostics when there was at least one.
#[verifier::rlimit(100)]
pub fn tokenize(input: &str) -> (r: Result<Vec<Token>, Vec<Error>>)
    ensures
        (match r {
            Ok(tokens) => spec_lex(input@).errors.len() == 0 && tokens@.len() == spec_lex(
                input@,
            ).items.len() && forall|i: int|
                0 <= i < tokens@.len() ==> token_matches_item(
                    #[trigger] tokens@[i],
                    spec_lex(input@).items[i],
                ),
            Err(errors) => spec_lex(input@).errors.len() > 0 && errors@.len() == spec_lex(
                input@,
            ).errors.len() && forall|i: int|
                0 <= i < errors@.len() ==> error_matches(
                    #[trigger] errors@[i],
                    spec_lex(input@).errors[i],
                ),
        }),
{
    let lines = crate::strings::split_lines(input);
    let ghost glines = crate::strings::spec_lines(input@);
    let mut tokens: Vec<Token> = Vec::new();
    let mut errors: Vec<Error> = Vec::new();
    let mut filename: String = String::new();
    let mut row_offset: usize = 0;
    let mut row: usize = 0;
    let ghost mut gst = init_lex_state();
    while row < lines.len()
        invariant
            0 <= row <= lines.len(),
            glines == crate::strings::spec_lines(input@),
            crate::strings::str_views(lines@) == glines,
            lex_inv(filename@, row_offset as int, tokens@, errors@, gst),
            lex_rows(gst, glines, row as int) == spec_lex(input@),
            row_offset <= row,
        decreases lines.len() - row,
    {
        let ghost target = lex_line(gst, glines[row as int], row as int);
        proof {
            assert(lex_rows(gst, glines, row as int) == lex_rows(target, glines, row as int + 1));
        }
        let line: &String = &lines[row];
        let n = line.as_str().unicode_len();
        // The file-delimiter check.
        let parts = crate::strings::split_str(line.as_str(), file_marker_str());
        proof {
            crate::strings::lemma_split_len(line@, file_marker());
        }
        let mut in_comment = false;
        if parts.len() == 2 {
            filename = parts[1].clone();
            in_comment = true;
            row_offset = row;
        }
        let ghost mut cur = line_init(gst, glines[row as int], row as int);
        let mut start: usize = 0;
        let mut is_string = false;
        let mut is_char = false;
        let mut is_type_annot = false;
        let mut is_two_char_tok = false;
        let mut ignore_equal = false;
        let mut col: usize = 0;
        while col < n
            invariant
                0 <= col <= n,
                n == glines[row as int].len(),
                0 <= row < glines.len(),
                line@ == glines[row as int],
                start <= col,
                row_offset <= row,
                lex_inv_line(
                    filename@,
                    row_offset as int,
                    start as int,
                    in_comment,
                    is_string,
                    is_char,
                    is_type_annot,
                    is_two_char_tok,
                    ignore_equal,
                    tokens@,
                    errors@,
                    cur,
                ),
                lex_cols(cur, glines[row as int], row as int, col as int) == target,
            decreases n - col,
        {
            let ghost pre = cur;
            let ghost post = lex_char(pre, glines[row as int], row as int, col as int);
            proof {
                assert(lex_cols(pre, glines[row as int], row as int, col as int) == lex_cols(
                    post,
                    glines[row as int],
                    row as int,
                    col as int + 1,
                ));
                cur = post;
            }
            let c = line.as_str().get_char(col);
            if !in_comment {
                let ghost st1 = if pre.is_two_char_tok {
                    push_candidate(
                        LexState {
                            ignore_equal: if glines[row as int][col as int] == '=' {
                                true
                            } else {
                                pre.ignore_equal
                            },
                            start: if glines[row as int][col as int] == '=' {
                                pre.start
                            } else {
                                col as int
                            },
                            is_two_char_tok: false,
                            ..pre
                        },
                        crate::strings::spec_trim(
                            glines[row as int].subrange(
                                pre.start,
                                if glines[row as int][col as int] == '=' {
                                    col as int + 1
                                } else {
                                    col as int
                                },
                            ),
                        ),
                        false,
                        false,
                        false,
                        row as int,
                        col as int,
                    )
                } else {
                    pre
                };
                if is_two_char_tok {
                    let two_tok_start = start;
                    let mut end = col;
                    if c == '=' {
                        ignore_equal = true;
                        end += 1;
                    } else {
                        start = col;
                    }
                    let value = trim_str(line.as_str().substring_char(two_tok_start, end));
                    push_token(
                        &mut tokens,
                        &mut errors,
                        value,
                        false,
                        false,
                        false,
                        row - row_offset,
                        col,
                        filename.as_str(),
                        Ghost(
                            LexState {
                                ignore_equal: ignore_equal,
                                start: start as int,
                                is_two_char_tok: false,
                                ..pre
                            },
                        ),
                    );
                    is_two_char_tok = false;
                }
                if c == '#' {
                    in_comment = true;
                } else if c == '!' || c == '>' || c == '<' {
                    if !is_string && !is_char && !is_type_annot {
                        is_two_char_tok = true;
                        let value = trim_str(line.as_str().substring_char(start, col));
                        push_token(
                            &mut tokens,
                            &mut errors,
                            value,
                            false,
                            false,
                            false,
                            row - row_offset,
                            col,
                            filename.as_str(),
                            Ghost(st1),
                        );
                        if col == n - 1 {
                            let tail = line.as_str().substring_char(col, n);
                            push_token(
                                &mut tokens,
                                &mut errors,
                                tail,
                                false,
                                false,
                                false,
                                row - row_offset,
                                col,
                                filename.as_str(),
                                Ghost(
                                    push_candidate(
                                        st1,
                                        crate::strings::spec_trim(
                                            glines[row as int].subrange(st1.start, col as int),
                                        ),
                                        false,
                                        false,
                                        false,
                                        row as int,
                                        col as int,
                                    ),
                                ),
                            );
                            proof {
                                assert(glines[row as int].skip(col as int) == line@.subrange(
                                    col as int,
                                    n as int,
                                ));
                            }
                        }
                        start = col;
                    }
                } else if c == '(' || c == ')' || c == '&' || c == '|' || c == '+' || c == '*' || c
                    == '/' || c == '%' || c == '=' || c == ',' || c == ' ' || c == '\t' {
                    if !is_char && !is_string && !is_type_annot {
                        if ignore_equal {
                            ignore_equal = false;
                            start = col + 1;
                        } else {
                            let value = trim_str(line.as_str().substring_char(start, col));
                            push_token(
                                &mut tokens,
                                &mut errors,
                                value,
                                false,
                                false,
                                false,
                                row - row_offset,
                                col,
                                filename.as_str(),
                                Ghost(st1),
                            );
                            let single = line.as_str().substring_char(col, col + 1);
                            push_token(
                                &mut tokens,
                                &mut errors,
                                single,
                                false,
                                false,
                                false,
                                row - row_offset,
                                col,
                                filename.as_str(),
                                Ghost(
                                    push_candidate(
                                        st1,
                                        crate::strings::spec_trim(
                                            glines[row as int].subrange(st1.start, col as int),
                                        ),
                                        false,
                                        false,
                                        false,
                                        row as int,
                                        col as int,
                                    ),
                                ),
                            );
                            start = col + 1;
                        }
                    }
                } else if c == '[' {
                    let value = trim_str(line.as_str().substring_char(start, col));
                    push_token(
                        &mut tokens,
                        &mut errors,
                        value,
                        false,
                        false,
                        false,
                        row - row_offset,
                        col,
                        filename.as_str(),
                        Ghost(st1),
                    );
                    if !is_string && !is_char {
                        start = col + 1;
                        is_type_annot = true;
                    }
                } else if c == ']' {
                    if is_type_annot {
                        let value = trim_str(line.as_str().substring_char(start, col));
                        push_token(
                            &mut tokens,
                            &mut errors,
                            value,
                            false,
                            false,
                            true,
                            row - row_offset,
                            col,
                            filename.as_str(),
                            Ghost(st1),
                        );
                        start = col + 1;
                        is_type_annot = false;
                    }
                } else if c == '"' {
                    if is_string {
                        let value = trim_str(line.as_str().substring_char(start, col));
                        push_token(
                            &mut tokens,
                            &mut errors,
                            value,
                            true,
                            false,
                            false,
                            row - row_offset,
                            col,
                            filename.as_str(),
                            Ghost(st1),
                        );
                        start = col + 1;
                        is_string = false;
                    } else if !is_char && !is_type_annot {
                        let value = trim_str(line.as_str().substring_char(start, col));
                        push_token(
                            &mut tokens,
                            &mut errors,
                            value,
                            false,
                            false,
                            false,
                            row - row_offset,
                            col,
                            filename.as_str(),
                            Ghost(st1),
                        );
                        start = col + 1;
                        is_string = true;
                    }
                } else if c == '\'' {
                    if is_char {
                        if col - start == 1 {
                            let value = line.as_str().substring_char(col - 1, col);
                            push_token(
                                &mut tokens,
                                &mut errors,
                                value,
                                false,
                                true,
                                false,
                                row - row_offset,
                                col,
                                filename.as_str(),
                                Ghost(st1),
                            );
                            start = col + 1;
                            is_char = false;
                        } else {
                            errors.push(
                                Error::new(
                                    String::from_str(
                                        "a char should be 1 charater long. To have longer strings, use \" not '.",
                                    ),
                                    (row - row_offset, start + 1, filename.clone()),
                                    col - start,
                                ),
                            );
                            is_char = false;
                        }
                    } else if !is_string && !is_type_annot {
                        let value = line.as_str().substring_char(start, col);
                        push_token(
                            &mut tokens,
                            &mut errors,
                            value,
                            false,
                            false,
                            false,
                            row - row_offset,
                            col,
                            filename.as_str(),
                            Ghost(st1),
                        );
                        start = col + 1;
                        is_char = true;
                    }
                } else {
                    if col == n - 1 {
                        if !is_string && !is_char && !is_type_annot {
                            let value = line.as_str().substring_char(start, n);
                            push_token(
                                &mut tokens,
                                &mut errors,
                                value,
                                false,
                                false,
                                false,
                                row - row_offset,
                                col,
                                filename.as_str(),
                                Ghost(st1),
                            );
                            proof {
                                assert(glines[row as int].skip(st1.start) == line@.subrange(
                                    start as int,
                                    n as int,
                                ));
                            }
                        } else if !is_type_annot {
                            errors.push(
                                Error::new(
                                    String::from_str(
                                        "a string can only be on one line and should be closed before the end of the line",
                                    ),
                                    (row - row_offset, col, filename.clone()),
                                    1,
                                ),
                            );
                        } else {
                            errors.push(
                                Error::new(
                                    String::from_str(
                                        "An opening braket '[' must be matched with a closing one ']'.",
                                    ),
                                    (row - row_offset, col, filename.clone()),
                                    1,
                                ),
                            );
                        }
                    }
                }
            }
            col += 1;
        }
        proof {
            gst = target;
        }
        row += 1;
    }
    if errors.len() > 0 {
        Err(errors)
    } else {
        Ok(tokens)
    }
}

/// Do the built tokens and diagnostics match the scanner state?
pub open spec fn lex_inv(
    filename: Seq<char>,
    row_offset: int,
    tokens: Seq<Token>,
    errors: Seq<Error>,
    st: LexState,
) -> bool {
    &&& st.filename == filename
    &&& st.row_offset == row_offset
    &&& tokens.len() == st.items.len()
    &&& forall|i: int| 0 <= i < tokens.len() ==> token_matches_item(#[trigger] tokens[i], st.items[i])
    &&& errors.len() == st.errors.len()
    &&& forall|i: int| 0 <= i < errors.len() ==> error_matches(#[trigger] errors[i], st.errors[i])
}

/// `lex_inv`, plus the in-line scan flags.
pub open spec fn lex_inv_line(
    filename: Seq<char>,
    row_offset: int,
    start: int,
    in_comment: bool,
    is_string: bool,
    is_char: bool,
    is_type_annot: bool,
    is_two_char_tok: bool,
    ignore_equal: bool,
    tokens: Seq<Token>,
    errors: Seq<Error>,
    st: LexState,
) -> bool {
    &&& lex_inv(filename, row_offset, tokens, errors, st)
    &&& st.start == start
    &&& st.in_comment == in_comment
    &&& st.is_string == is_string
    &&& st.is_char == is_char
    &&& st.is_type_annot == is_type_annot
    &&& st.is_two_char_tok == is_two_char_tok
    &&& st.ignore_equal == ignore_equal
}

/// The file-delimiter marker as a string slice.
pub fn file_marker_str() -> (r: &'static str)
    ensures
        r@ == file_marker(),
        r@.len() >= 1,
{
    proof {
        reveal_strlit("___rk___ __rk_newfile_rk__ ___rk___ ");
    }
    "___rk___ __rk_newfile_rk__ ___rk___ "
}

/// Classifies one lexeme and appends the token or diagnostic it yields; `st`
/// is the scanner state this push acts on.
fn push_token(
    tokens: &mut Vec<Token>,
    errors: &mut Vec<Error>,
    value: &str,
    is_string: bool,
    is_char: bool,
    is_type_annot: bool,
    row: usize,
    col: usize,
    filename: &str,
    Ghost(st): Ghost<LexState>,
) -> (r: ())
    requires
        lex_inv(filename@, st.row_offset, old(tokens)@, old(errors)@, st),
    ensures
        lex_inv(
            filename@,
            st.row_offset,
            final(tokens)@,
            final(errors)@,
            push_candidate(
                st,
                value@,
                is_string,
                is_char,
                is_type_annot,
                st.row_offset + row,
                col as int,
            ),
        ),
{
    match Token::new(value, is_string, is_char, is_type_annot, row, col, filename) {
        Ok(tok) => {
            tokens.push(tok);
        },
        Err(Some(m)) => {
            let token_len = value.unicode_len();
            errors.push(Error::new(m, (row, col, String::from_str(filename)), token_len));
        },
        Err(None) => {},
    }
}

} // verus!
