//! The structural parser: one forward sweep that pairs block openers with
//! their terminators, collects the function, constant and macro tables, and
//! relocates call-argument regions into postfix order.

pub mod token;
pub mod typ;

use vstd::prelude::*;

use crate::compiler::err::{ErrTyp, Error};
use crate::parser::token::{error_matches, spec_token_len, LexErr, Token};
use crate::parser::typ::Typ;
use crate::strings::eq_str;
use crate::tables::{typss, FnEntry};
use crate::token::{control_flow, helper, sys};
use crate::type_checker::Typ as ValueTyp;

verus! {

/// One function entry as the sweep records it, over mathematical values.
pub struct SpecFnEntry {
    pub body_start: int,
    pub body_end: int,
    pub args: Seq<Seq<ValueTyp>>,
    pub returns: Seq<Seq<ValueTyp>>,
    pub ignore_return: bool,
}

/// The sweep's state: the token sequence as rewritten so far, the two
/// stacks, the three tables, and the collected diagnostics.
pub struct ParseState {
    pub tokens: Seq<Token>,
    pub args_stack: Seq<int>,
    pub stack: Seq<(int, control_flow::Token)>,
    pub macros: Seq<(Seq<char>, (int, int))>,
    pub functions: Seq<(Seq<char>, SpecFnEntry)>,
    pub consts: Seq<(Seq<char>, i64)>,
    pub errors: Seq<LexErr>,
}

/// The diagnostic record for the token at `i`.
pub open spec fn err_at(tokens: Seq<Token>, i: int, message: Seq<char>) -> LexErr {
    LexErr {
        message: message,
        row: tokens[i].row as int,
        col: tokens[i].col as int,
        filename: tokens[i].filename@,
        token_len: spec_token_len(tokens[i].typ),
    }
}

/// The argument relocation: every token strictly between the opening index
/// and `close_idx`, except the separators, moves in order before the token
/// that precedes the opening parenthesis; the separators are erased where
/// they stand. Textual order is preserved across groups, so `f(a, b, c)`
/// evaluates as `a b c f`.
pub open spec fn arg_rewrite(
    tokens: Seq<Token>,
    open_idx: int,
    close_idx: int,
    arg_idx: int,
    offset: int,
) -> Seq<Token>
    decreases close_idx - arg_idx,
{
    if arg_idx >= close_idx || arg_idx >= tokens.len() || open_idx - 1 + offset > tokens.len() - 1
        || open_idx < 1 {
        tokens
    } else if tokens[arg_idx].typ matches Typ::Helper(helper::Token::ArgSep) {
        arg_rewrite(
            tokens.update(arg_idx, Token { typ: Typ::Ignore, ..tokens[arg_idx] }),
            open_idx,
            close_idx,
            arg_idx + 1,
            offset,
        )
    } else {
        let t = tokens[arg_idx];
        let moved = tokens.remove(arg_idx).insert(open_idx - 1 + offset, t);
        arg_rewrite(moved, open_idx, close_idx, arg_idx + 1, offset + 1)
    }
}

/// One step of the sweep, at token `idx`.
pub open spec fn parse_step(st: ParseState, idx: int) -> ParseState {
    let tokens = st.tokens;
    match tokens[idx].typ {
        Typ::Helper(helper::Token::ArgOpen) => {
            if idx > 0 {
                ParseState { args_stack: st.args_stack.push(idx), ..st }
            } else {
                ParseState {
                    errors: st.errors.push(
                        err_at(
                            tokens,
                            idx,
                            "arguments must be after at least one other element."@,
                        ),
                    ),
                    ..st
                }
            }
        },
        Typ::Helper(helper::Token::ArgClose) => {
            if st.args_stack.len() > 0 {
                // The matched parentheses are consumed: both are erased, the
                // opener before the region moves, the closer after it.
                let open_idx = st.args_stack.last();
                let erased = if 0 <= open_idx < tokens.len() {
                    tokens.update(open_idx, Token { typ: Typ::Ignore, ..tokens[open_idx] })
                } else {
                    tokens
                };
                let moved = arg_rewrite(erased, open_idx, idx, open_idx + 1, 0);
                ParseState {
                    args_stack: st.args_stack.drop_last(),
                    tokens: if 0 <= idx < moved.len() {
                        moved.update(idx, Token { typ: Typ::Ignore, ..moved[idx] })
                    } else {
                        moved
                    },
                    ..st
                }
            } else {
                ParseState {
                    errors: st.errors.push(
                        err_at(
                            tokens,
                            idx,
                            "A closing parenthesis ')' must be matched with an opening one '('."@,
                        ),
                    ),
                    ..st
                }
            }
        },
        Typ::ControlFlow(control_flow::Token::Else) => {
            if st.stack.len() > 0 && st.stack.last().1 == control_flow::Token::If {
                let op_idx = st.stack.last().0;
                ParseState {
                    stack: st.stack.drop_last().push((idx, control_flow::Token::Else)),
                    tokens: if 0 <= op_idx < tokens.len() {
                        tokens.update(
                            op_idx,
                            Token { jmp_idx: Some(idx as usize), ..tokens[op_idx] },
                        )
                    } else {
                        tokens
                    },
                    ..st
                }
            } else {
                ParseState {
                    stack: if st.stack.len() > 0 {
                        st.stack.drop_last()
                    } else {
                        st.stack
                    },
                    errors: st.errors.push(
                        err_at(
                            tokens,
                            idx,
                            "Missing an `if` statement before the `else`. Should be in this format: `<condition> if <if_true> else <if_false> end`"@,
                        ),
                    ),
                    ..st
                }
            }
        },
        Typ::ControlFlow(control_flow::Token::End) => parse_end_step(st, idx),
        Typ::ControlFlow(control_flow::Token::If) | Typ::ControlFlow(control_flow::Token::While)
            | Typ::ControlFlow(control_flow::Token::Do) | Typ::ControlFlow(
            control_flow::Token::Fn,
        ) | Typ::ControlFlow(control_flow::Token::Const) => {
            let k = (match tokens[idx].typ {
                Typ::ControlFlow(k) => k,
                _ => control_flow::Token::If,
            });
            ParseState { stack: st.stack.push((idx, k)), ..st }
        },
        Typ::Sys(sys::Token::Include) => {
            let t1 = tokens.update(idx, Token { typ: Typ::Ignore, ..tokens[idx] });
            ParseState {
                tokens: if idx + 1 < t1.len() {
                    t1.update(idx + 1, Token { typ: Typ::Ignore, ..t1[idx + 1] })
                } else {
                    t1
                },
                ..st
            }
        },
        _ => st,
    }
}

/// The `end` token: examine the innermost open block.
pub open spec fn parse_end_step(st: ParseState, idx: int) -> ParseState {
    let tokens = st.tokens;
    if st.stack.len() == 0 {
        ParseState {
            errors: st.errors.push(
                err_at(
                    tokens,
                    idx,
                    "The `end` keyword did not match any opening statement (like `if`, `while`, `const` or `fn`)."@,
                ),
            ),
            ..st
        }
    } else {
        let op_idx = st.stack.last().0;
        let kind = st.stack.last().1;
        let popped = ParseState { stack: st.stack.drop_last(), ..st };
        if kind == control_flow::Token::If || kind == control_flow::Token::Else {
            ParseState {
                tokens: if 0 <= op_idx < tokens.len() {
                    tokens.update(op_idx, Token { jmp_idx: Some(idx as usize), ..tokens[op_idx] })
                } else {
                    tokens
                },
                ..popped
            }
        } else if kind == control_flow::Token::Do {
            if popped.stack.len() > 0 && popped.stack.last().1 == control_flow::Token::While {
                let while_idx = popped.stack.last().0;
                let t1 = if 0 <= idx < tokens.len() && 0 <= while_idx {
                    tokens.update(
                        idx,
                        Token {
                            jmp_idx: Some(while_idx as usize),
                            typ: Typ::ControlFlow(control_flow::Token::EndWhile),
                            ..tokens[idx]
                        },
                    )
                } else {
                    tokens
                };
                let t2 = if 0 <= op_idx < t1.len() {
                    t1.update(op_idx, Token { jmp_idx: Some(idx as usize), ..t1[op_idx] })
                } else {
                    t1
                };
                ParseState { stack: popped.stack.drop_last(), tokens: t2, ..popped }
            } else {
                ParseState {
                    stack: if popped.stack.len() > 0 {
                        popped.stack.drop_last()
                    } else {
                        popped.stack
                    },
                    errors: popped.errors.push(
                        err_at(
                            tokens,
                            idx,
                            "Missing a `while` statement before the `do`. Should be in this format: `while <condition> do <if_true> end`"@,
                        ),
                    ),
                    ..popped
                }
            }
        } else if kind == control_flow::Token::Macro {
            if 0 <= op_idx && op_idx + 1 < tokens.len() {
                match tokens[op_idx + 1].typ {
                    Typ::Identifier(id) => ParseState {
                        macros: popped.macros.push((id@, (op_idx + 2, idx))),
                        ..popped
                    },
                    _ => ParseState {
                errors: popped.errors.push(
                    err_at(
                        tokens,
                        idx,
                        "Missing an `identifier` just after the `macro` keyword. Should be in this format: `macro <identifier> <statements> end`"@,
                    ),
                ),
                ..popped
            },
                }
            } else {
                ParseState {
                errors: popped.errors.push(
                    err_at(
                        tokens,
                        idx,
                        "Missing an `identifier` just after the `macro` keyword. Should be in this format: `macro <identifier> <statements> end`"@,
                    ),
                ),
                ..popped
            }
            }
        } else if kind == control_flow::Token::Fn {
            if 0 <= op_idx && op_idx + 1 < tokens.len() {
                match tokens[op_idx + 1].typ {
                    Typ::Identifier(id) => {
                        if op_idx + 2 < tokens.len() {
                            match tokens[op_idx + 2].typ {
                                Typ::Helper(
                                    helper::Token::TypeAnnot(args_type, ret_type, ignore_return),
                                ) => ParseState {
                                    tokens: tokens.update(
                                        op_idx,
                                        Token { jmp_idx: Some(idx as usize), ..tokens[op_idx] },
                                    ),
                                    functions: popped.functions.push(
                                        (
                                            id@,
                                            SpecFnEntry {
                                                body_start: op_idx + 3,
                                                body_end: idx,
                                                args: typss(args_type@),
                                                returns: typss(ret_type@),
                                                ignore_return: ignore_return,
                                            },
                                        ),
                                    ),
                                    ..popped
                                },
                                _ => ParseState {
                errors: popped.errors.push(
                    err_at(
                        tokens,
                        op_idx + 1,
                        "Missing type annotation just after the identifier. Should be in this format: `fn <identifier>[<type_annotation>] <statements> end`"@,
                    ),
                ),
                ..popped
            },
                            }
                        } else {
                            ParseState {
                errors: popped.errors.push(
                    err_at(
                        tokens,
                        op_idx + 1,
                        "Missing type annotation just after the identifier. Should be in this format: `fn <identifier>[<type_annotation>] <statements> end`"@,
                    ),
                ),
                ..popped
            }
                        }
                    },
                    _ => ParseState {
                errors: popped.errors.push(
                    err_at(
                        tokens,
                        idx,
                        "Missing an `identifier` just after the `fn` keyword. Should be in this format: `fn <identifier>[<type_annotation>] <statements> end`"@,
                    ),
                ),
                ..popped
            },
                }
            } else {
                ParseState {
                errors: popped.errors.push(
                    err_at(
                        tokens,
                        idx,
                        "Missing an `identifier` just after the `fn` keyword. Should be in this format: `fn <identifier>[<type_annotation>] <statements> end`"@,
                    ),
                ),
                ..popped
            }
            }
        } else if kind == control_flow::Token::Const {
            if 0 <= op_idx && op_idx + 1 < tokens.len() {
                match tokens[op_idx + 1].typ {
                    Typ::Identifier(id) => {
                        let t1 = tokens.update(
                            op_idx,
                            Token { jmp_idx: Some(idx as usize), ..tokens[op_idx] },
                        );
                        if op_idx + 2 < t1.len() {
                            match t1[op_idx + 2].typ {
                                Typ::Int(integer) => ParseState {
                                    tokens: t1,
                                    consts: popped.consts.push((id@, integer)),
                                    ..popped
                                },
                                _ => ParseState {
                                    tokens: t1,
                                    errors: popped.errors.push(
                                        err_at(tokens, idx, "A `const` can only be of type `int`."@),
                                    ),
                                    ..popped
                                },
                            }
                        } else {
                            ParseState {
                                tokens: t1,
                                errors: popped.errors.push(
                                    err_at(tokens, idx, "A `const` can only be of type `int`."@),
                                ),
                                ..popped
                            }
                        }
                    },
                    _ => ParseState {
                errors: popped.errors.push(
                    err_at(
                        tokens,
                        idx,
                        "Missing an `identifier` just after the `const` keyword. Should be in this format: `const <identifier> <int> end`"@,
                    ),
                ),
                ..popped
            },
                }
            } else {
                ParseState {
                errors: popped.errors.push(
                    err_at(
                        tokens,
                        idx,
                        "Missing an `identifier` just after the `const` keyword. Should be in this format: `const <identifier> <int> end`"@,
                    ),
                ),
                ..popped
            }
            }
        } else {
            ParseState {
                errors: popped.errors.push(
                    err_at(
                        tokens,
                        idx,
                        "The `end` keyword did not match any opening statement (like `if`, `while`, `const` or `fn`)."@,
                    ),
                ),
                ..popped
            }
        }
    }
}

/// The sweep folded from `idx` on; the length of the token sequence never
/// changes, so the bound is fixed.
pub open spec fn parse_fold(st: ParseState, idx: int, end: int) -> ParseState
    decreases end - idx,
{
    if idx < 0 || idx >= end {
        st
    } else {
        parse_fold(parse_step(st, idx), idx + 1, end)
    }
}

/// The diagnostic for a block opener left unclosed at the end of the sweep.
pub open spec fn unclosed_message() -> Seq<char> {
    "Missing an `end` statement to close this block. Every `if`, `while`, `do`, `fn` and `const` must be closed with an `end`."@
}

/// The diagnostic every block opener left unclosed at the end of the sweep
/// raises, at its own token.
pub open spec fn unclosed_errors(
    tokens: Seq<Token>,
    stack: Seq<(int, control_flow::Token)>,
    i: int,
) -> Seq<LexErr>
    decreases stack.len() - i,
{
    if i < 0 || i >= stack.len() {
        Seq::empty()
    } else if 0 <= stack[i].0 < tokens.len() {
        seq![err_at(tokens, stack[i].0, unclosed_message())] + unclosed_errors(
            tokens,
            stack,
            i + 1,
        )
    } else {
        unclosed_errors(tokens, stack, i + 1)
    }
}

/// With every stack entry in bounds, there is one unclosed-block
/// diagnostic per entry.
pub proof fn lemma_unclosed_len(
    tokens: Seq<Token>,
    stack: Seq<(int, control_flow::Token)>,
    i: int,
)
    requires
        0 <= i <= stack.len(),
        forall|j: int| 0 <= j < stack.len() ==> 0 <= (#[trigger] stack[j]).0 < tokens.len(),
    ensures
        unclosed_errors(tokens, stack, i).len() == stack.len() - i,
    decreases stack.len() - i,
{
    if i < stack.len() {
        lemma_unclosed_len(tokens, stack, i + 1);
    }
}

/// The unmatched-parenthesis and unclosed-block checks after the sweep.
pub open spec fn parse_finish(st: ParseState) -> ParseState {
    let st1 = if st.args_stack.len() > 0 && st.tokens.len() > 0 {
        ParseState {
            errors: st.errors.push(
                err_at(
                    st.tokens,
                    st.tokens.len() - 1,
                    "All opening parenthesis '(' must be matched with a closing one ')'."@,
                ),
            ),
            ..st
        }
    } else {
        st
    };
    ParseState { errors: st1.errors + unclosed_errors(st1.tokens, st1.stack, 0), ..st1 }
}

/// What one sweep over `tokens` yields.
pub open spec fn spec_parse(tokens: Seq<Token>) -> ParseState {
    parse_finish(
        parse_fold(
            ParseState {
                tokens: tokens,
                args_stack: Seq::empty(),
                stack: Seq::empty(),
                macros: Seq::empty(),
                functions: Seq::empty(),
                consts: Seq::empty(),
                errors: Seq::empty(),
            },
            0,
            tokens.len() as int,
        ),
    )
}

/// Do the built tables match the sweep's?
pub open spec fn fn_table_matches(t: Seq<(String, FnEntry)>, s: Seq<(Seq<char>, SpecFnEntry)>) -> bool {
    t.len() == s.len() && forall|i: int|
        0 <= i < t.len() ==> (#[trigger] t[i]).0@ == s[i].0 && t[i].1.body_start == s[i].1.body_start
            && t[i].1.body_end == s[i].1.body_end && typss(t[i].1.args@) == s[i].1.args && typss(
            t[i].1.returns@,
        ) == s[i].1.returns && t[i].1.ignore_return == s[i].1.ignore_return
}

pub open spec fn const_table_matches(t: Seq<(String, i64)>, s: Seq<(Seq<char>, i64)>) -> bool {
    t.len() == s.len() && forall|i: int|
        0 <= i < t.len() ==> (#[trigger] t[i]).0@ == s[i].0 && t[i].1 == s[i].1
}

pub open spec fn errors_match(errors: Seq<Error>, s: Seq<LexErr>) -> bool {
    errors.len() == s.len() && forall|i: int|
        0 <= i < errors.len() ==> error_matches(#[trigger] errors[i], s[i])
}

/// What `parse` returns for a source text: the lexer's diagnostics when it
/// had any; otherwise, for the token sequence the lexer yields, the sweep's
/// diagnostics when it had any, and else the rewritten tokens with the two
/// tables.
pub open spec fn parse_post(
    input: Seq<char>,
    r: Result<(Vec<Token>, Vec<(String, FnEntry)>, Vec<(String, i64)>), Vec<Error>>,
) -> bool {
    let lx = crate::parser::token::spec_lex(input);
    if lx.errors.len() > 0 {
        r matches Err(errors) && errors_match(errors@, lx.errors)
    } else {
        exists|tokens0: Seq<Token>|
            {
                &&& tokens0.len() == lx.items.len()
                &&& forall|i: int|
                    0 <= i < tokens0.len() ==> crate::parser::token::token_matches_item(
                        #[trigger] tokens0[i],
                        lx.items[i],
                    )
                &&& (if (#[trigger] spec_parse(tokens0)).errors.len() > 0 {
                    r matches Err(errors) && errors_match(errors@, spec_parse(tokens0).errors)
                } else {
                    r matches Ok(out) && out.0@ == spec_parse(tokens0).tokens && fn_table_matches(
                        out.1@,
                        spec_parse(tokens0).functions,
                    ) && const_table_matches(out.2@, spec_parse(tokens0).consts)
                })
            }
    }
}

/// Performs the structural sweep over the tokens of `input`: pairs openers
/// with their terminators, records the function and constant tables, and
/// relocates call-argument regions into postfix order. Lexer diagnostics or
/// sweep diagnostics, when there are any, are the result.
pub fn parse(input: &str) -> (r: Result<
    (Vec<Token>, Vec<(String, FnEntry)>, Vec<(String, i64)>),
    Vec<Error>,
>)
    ensures
        parse_post(input@, r),
{
    let mut tokens = match crate::parser::token::tokenize(input) {
        Ok(toks) => toks,
        Err(errs) => {
            return Err(errs);
        },
    };
    let ghost tokens0 = tokens@;
    let mut errors: Vec<Error> = Vec::new();
    let mut args_stack: Vec<usize> = Vec::new();
    let mut stack: Vec<(usize, control_flow::Token)> = Vec::new();
    let mut functions: Vec<(String, FnEntry)> = Vec::new();
    let mut consts: Vec<(String, i64)> = Vec::new();
    let len = tokens.len();
    let ghost mut gst = ParseState {
        tokens: tokens0,
        args_stack: Seq::empty(),
        stack: Seq::empty(),
        macros: Seq::empty(),
        functions: Seq::empty(),
        consts: Seq::empty(),
        errors: Seq::empty(),
    };
    let mut idx: usize = 0;
    while idx < len
        invariant
            0 <= idx <= len,
            len == tokens0.len(),
            parse_fold(gst, idx as int, len as int) == parse_fold(
                ParseState {
                    tokens: tokens0,
                    args_stack: Seq::empty(),
                    stack: Seq::empty(),
                    macros: Seq::empty(),
                    functions: Seq::empty(),
                    consts: Seq::empty(),
                    errors: Seq::empty(),
                },
                0,
                len as int,
            ),
            tokens@ == gst.tokens,
            tokens@.len() == len,
            args_stack@.len() == gst.args_stack.len(),
            forall|i: int|
                0 <= i < args_stack@.len() ==> (#[trigger] args_stack@[i]) as int
                    == gst.args_stack[i] && 1 <= args_stack@[i] < len,
            stack@.len() == gst.stack.len(),
            forall|i: int|
                0 <= i < stack@.len() ==> (#[trigger] stack@[i]).0 as int == gst.stack[i].0
                    && stack@[i].1 == gst.stack[i].1 && stack@[i].0 < len,
            fn_table_matches(functions@, gst.functions),
            const_table_matches(consts@, gst.consts),
            errors_match(errors@, gst.errors),
        decreases len - idx,
    {
        let ghost pre = gst;
        let ghost post = parse_step(pre, idx as int);
        proof {
            assert(parse_fold(pre, idx as int, len as int) == parse_fold(
                post,
                idx as int + 1,
                len as int,
            ));
            gst = post;
        }
        let is_arg_open = matches!(&tokens[idx].typ, Typ::Helper(helper::Token::ArgOpen));
        let is_arg_close = matches!(&tokens[idx].typ, Typ::Helper(helper::Token::ArgClose));
        if is_arg_open {
            if idx > 0 {
                args_stack.push(idx);
            } else {
                let token_len = tokens[idx].len();
                errors.push(
                    Error::new(
                        String::from_str("arguments must be after at least one other element."),
                        (tokens[idx].row, tokens[idx].col, tokens[idx].filename.clone()),
                        token_len,
                    ),
                );
            }
        } else if is_arg_close {
            match args_stack.pop() {
                Some(open_idx) => {
                    tokens[open_idx].typ = Typ::Ignore;
                    let ghost gtokens0 = tokens@;
                    let mut offset: usize = 0;
                    let mut arg_idx: usize = open_idx + 1;
                    while arg_idx < idx
                        invariant
                            open_idx + 1 <= arg_idx,
                            arg_idx <= idx || arg_idx == open_idx + 1,
                            1 <= open_idx < len,
                            idx < len,
                            tokens@.len() == len,
                            offset <= arg_idx - open_idx - 1,
                            arg_rewrite(tokens@, open_idx as int, idx as int, arg_idx as int, offset as int)
                                == arg_rewrite(
                                gtokens0,
                                open_idx as int,
                                idx as int,
                                open_idx as int + 1,
                                0,
                            ),
                        decreases idx - arg_idx,
                    {
                        let is_sep = matches!(
                            &tokens[arg_idx].typ,
                            Typ::Helper(helper::Token::ArgSep)
                        );
                        if is_sep {
                            tokens[arg_idx].typ = Typ::Ignore;
                        } else {
                            let tok = tokens.remove(arg_idx);
                            tokens.insert(open_idx - 1 + offset, tok);
                            offset += 1;
                        }
                        arg_idx += 1;
                    }
                    proof {
                        assert(tokens@ == arg_rewrite(
                            gtokens0,
                            open_idx as int,
                            idx as int,
                            open_idx as int + 1,
                            0,
                        ));
                    }
                    tokens[idx].typ = Typ::Ignore;
                },
                None => {
                    let token_len = tokens[idx].len();
                    errors.push(
                        Error::new(
                            String::from_str(
                                "A closing parenthesis ')' must be matched with an opening one '('.",
                            ),
                            (tokens[idx].row, tokens[idx].col, tokens[idx].filename.clone()),
                            token_len,
                        ),
                    );
                },
            }
        } else {
            let cf: Option<control_flow::Token> = match &tokens[idx].typ {
                Typ::ControlFlow(k) => Some(*k),
                _ => None,
            };
            match cf {
                Some(control_flow::Token::Else) => {
                    match stack.pop() {
                        Some((op_idx, control_flow::Token::If)) => {
                            tokens[op_idx].jmp_idx = Some(idx);
                            stack.push((idx, control_flow::Token::Else));
                        },
                        _ => {
                            let token_len = tokens[idx].len();
                            errors.push(
                                Error::new(
                                    String::from_str(
                                        "Missing an `if` statement before the `else`. Should be in this format: `<condition> if <if_true> else <if_false> end`",
                                    ),
                                    (
                                        tokens[idx].row,
                                        tokens[idx].col,
                                        tokens[idx].filename.clone(),
                                    ),
                                    token_len,
                                ),
                            );
                        },
                    }
                },
                Some(control_flow::Token::End) => {
                    compile_end(&mut tokens, &mut stack, &mut functions, &mut consts, &mut errors, idx, Ghost(pre));
                },
                Some(control_flow::Token::If) | Some(control_flow::Token::While) | Some(
                    control_flow::Token::Do,
                ) | Some(control_flow::Token::Fn) | Some(control_flow::Token::Const) => {
                    let k = match &tokens[idx].typ {
                        Typ::ControlFlow(k) => *k,
                        _ => control_flow::Token::If,
                    };
                    stack.push((idx, k));
                },
                _ => {
                    let is_include = matches!(&tokens[idx].typ, Typ::Sys(sys::Token::Include));
                    if is_include {
                        tokens[idx].typ = Typ::Ignore;
                        if idx + 1 < len {
                            tokens[idx + 1].typ = Typ::Ignore;
                        }
                    }
                },
            }
        }
        idx += 1;
    }
    let ghost gfinal = parse_finish(gst);
    if args_stack.len() > 0 && tokens.len() > 0 {
        let last = tokens.len() - 1;
        let token_len = tokens[last].len();
        errors.push(
            Error::new(
                String::from_str(
                    "All opening parenthesis '(' must be matched with a closing one ')'.",
                ),
                (tokens[last].row, tokens[last].col, tokens[last].filename.clone()),
                token_len,
            ),
        );
    }
    let ghost ebase = errors@;
    let ghost gstack = gst.stack;
    proof {
        assert forall|j: int| 0 <= j < gstack.len() implies 0 <= (#[trigger] gstack[j]).0
            < tokens@.len() by {
            assert(stack@[j].0 as int == gstack[j].0);
        }
        lemma_unclosed_len(tokens@, gstack, 0);
        assert(gfinal == spec_parse(tokens0));
    }
    let ghost gerrs1 = gfinal.errors.subrange(
        0,
        gfinal.errors.len() - unclosed_errors(tokens@, gstack, 0).len(),
    );
    proof {
        assert(gfinal.errors =~= gerrs1 + unclosed_errors(tokens@, gstack, 0));
        assert(errors_match(ebase, gerrs1));
    }
    let ghost mut emitted = Seq::<LexErr>::empty();
    proof {
        assert(emitted + unclosed_errors(tokens@, gstack, 0) =~= unclosed_errors(
            tokens@,
            gstack,
            0,
        ));
    }
    let mut k: usize = 0;
    while k < stack.len()
        invariant
            0 <= k <= stack@.len(),
            tokens@ == gst.tokens,
            stack@.len() == gstack.len(),
            forall|i: int|
                0 <= i < stack@.len() ==> (#[trigger] stack@[i]).0 as int == gstack[i].0
                    && stack@[i].0 < tokens@.len(),
            gfinal == spec_parse(tokens0),
            gfinal.errors == gerrs1 + unclosed_errors(tokens@, gstack, 0),
            errors_match(ebase, gerrs1),
            unclosed_errors(tokens@, gstack, 0).len() == gstack.len(),
            errors@.len() == ebase.len() + k,
            forall|j: int| 0 <= j < ebase.len() ==> #[trigger] errors@[j] == ebase[j],
            emitted.len() == k,
            forall|j: int|
                0 <= j < k ==> crate::parser::token::error_matches(
                    #[trigger] errors@[ebase.len() + j],
                    emitted[j],
                ),
            emitted + unclosed_errors(tokens@, gstack, k as int) == unclosed_errors(
                tokens@,
                gstack,
                0,
            ),
        decreases stack@.len() - k,
    {
        let op_idx = stack[k].0;
        let ghost head = err_at(tokens@, gstack[k as int].0, unclosed_message());
        proof {
            assert(unclosed_errors(tokens@, gstack, k as int) == seq![head] + unclosed_errors(
                tokens@,
                gstack,
                k as int + 1,
            ));
            let old_emitted = emitted;
            emitted = emitted.push(head);
            assert(emitted + unclosed_errors(tokens@, gstack, k as int + 1) =~= old_emitted
                + unclosed_errors(tokens@, gstack, k as int));
        }
        let token_len = tokens[op_idx].len();
        errors.push(
            Error::new(
                String::from_str(
                    "Missing an `end` statement to close this block. Every `if`, `while`, `do`, `fn` and `const` must be closed with an `end`.",
                ),
                (tokens[op_idx].row, tokens[op_idx].col, tokens[op_idx].filename.clone()),
                token_len,
            ),
        );
        k += 1;
    }
    proof {
        assert(unclosed_errors(tokens@, gstack, gstack.len() as int) =~= Seq::<LexErr>::empty());
        assert(emitted =~= unclosed_errors(tokens@, gstack, 0));
        assert forall|j: int|
            0 <= j < gfinal.errors.len() implies crate::parser::token::error_matches(
            #[trigger] errors@[j],
            gfinal.errors[j],
        ) by {
            if j < ebase.len() {
                assert(gfinal.errors[j] == gerrs1[j]);
                assert(crate::parser::token::error_matches(ebase[j], gerrs1[j]));
            } else {
                let jj = j - ebase.len();
                assert(gfinal.errors[j] == unclosed_errors(tokens@, gstack, 0)[jj]);
                assert(crate::parser::token::error_matches(
                    errors@[ebase.len() + jj],
                    emitted[jj],
                ));
                assert(errors@[ebase.len() + jj] == errors@[j]);
            }
        }
        assert(errors_match(errors@, gfinal.errors));
    }
    if errors.len() > 0 {
        let r: Result<(Vec<Token>, Vec<(String, FnEntry)>, Vec<(String, i64)>), Vec<Error>> =
            Err(errors);
        proof {
            lemma_parse_post_witness(input@, r, tokens0);
        }
        r
    } else {
        let r: Result<(Vec<Token>, Vec<(String, FnEntry)>, Vec<(String, i64)>), Vec<Error>> = Ok(
            (tokens, functions, consts),
        );
        proof {
            lemma_parse_post_witness(input@, r, tokens0);
        }
        r
    }
}

/// A fatal include-resolution diagnostic: either a located source error or a
/// usage error carrying only a message.
pub enum IncFatal {
    At(LexErr),
    Usage(Seq<char>),
}

/// The resolver's state over one file: whether an `include` is still legal,
/// the content gathered from included files, the collected (non-fatal)
/// diagnostics, and the fatal diagnostic that stops everything.
pub struct IncState {
    pub can_include: bool,
    pub content: Seq<char>,
    pub warnings: Seq<LexErr>,
    pub fatal: Option<IncFatal>,
}

/// The first content recorded for a path, if any.
pub open spec fn file_lookup(files: Seq<(Seq<char>, Seq<char>)>, path: Seq<char>) -> Option<
    Seq<char>,
>
    decreases files.len(),
{
    if files.len() == 0 {
        None
    } else if files.first().0 == path {
        Some(files.first().1)
    } else {
        file_lookup(files.drop_first(), path)
    }
}

/// The directory part of a path: everything before the last `/`, or empty.
pub open spec fn parent_dir(p: Seq<char>) -> Seq<char>
    decreases p.len(),
{
    if p.len() == 0 {
        Seq::empty()
    } else if p.last() == '/' {
        p.drop_last()
    } else {
        parent_dir(p.drop_last())
    }
}

/// A child path resolved against a parent directory.
pub open spec fn join_path(parent: Seq<char>, child: Seq<char>) -> Seq<char> {
    if parent.len() == 0 {
        child
    } else {
        parent + "/"@ + child
    }
}

/// How often `c` occurs in `s`.
pub open spec fn count_char(s: Seq<char>, c: char) -> int
    decreases s.len(),
{
    if s.len() == 0 {
        0
    } else {
        count_char(s.drop_first(), c) + if s.first() == c {
            1int
        } else {
            0int
        }
    }
}

/// The child source handed to the recursive resolution: a fresh marker line
/// naming the child, then its content.
pub open spec fn child_input(path: Seq<char>, content: Seq<char>) -> Seq<char> {
    "\n"@ + crate::parser::token::file_marker() + path + "\n"@ + content
}

/// The diagnostic for a missing included file.
pub open spec fn missing_file_message(child: Seq<char>, path: Seq<char>) -> Seq<char> {
    "The included file `"@ + child + "` (`"@ + path
        + "`) does not exists or is not able to being opened. Check the path and permission of the file."@
}

/// The diagnostic for includes nested beyond the file table's size: with
/// more nesting than there are files, some file includes itself.
pub open spec fn include_cycle_message() -> Seq<char> {
    "Includes are nested deeper than the number of source files; an included file includes itself."@
}

/// One line of the resolver. Lines before the first real token may include;
/// a marker, comment or blank line changes nothing; the first other line
/// ends the include region, and a later `include` is fatal.
pub open spec fn inc_line(
    st: IncState,
    main: Seq<char>,
    files: Seq<(Seq<char>, Seq<char>)>,
    line: Seq<char>,
    row: int,
    fuel: nat,
) -> IncState
    decreases fuel, 0nat, 0nat,
{
    let t = crate::strings::spec_trim(line);
    let starts_include = t.len() >= 7 && t.subrange(0, 7) == "include"@;
    if !st.can_include {
        if starts_include {
            IncState {
                fatal: Some(
                    IncFatal::At(
                        LexErr {
                            message:
                                "You can only include files at the begining of the file, before any other tokens."@,
                            row: row,
                            col: 0,
                            filename: main,
                            token_len: 7,
                        },
                    ),
                ),
                ..st
            }
        } else {
            st
        }
    } else if !starts_include && !(t.len() >= 8 && t.subrange(0, 8) == "___rk___"@) && !(t.len()
        >= 1 && t.first() == '#') && t.len() > 0 {
        IncState { can_include: false, ..st }
    } else if (t.len() >= 8 && t.subrange(0, 8) == "___rk___"@) || (t.len() >= 1 && t.first()
        == '#') || t.len() == 0 {
        st
    } else {
        let values = crate::strings::spec_split(t, "include"@);
        if values.len() != 2 || crate::strings::spec_trim(values[1]).len() == 0 {
            let message = if values.len() == 1 || values.len() == 2 {
                "You must put a string after the `include` keyword to include an other file. Example : `include \"std.rk\""@
            } else {
                "You can only include one file per `include` keyword but "@
                    + crate::strings::spec_nat_string(values.len() as int)
                    + " tokens were found after the `include` keyword."@
            };
            IncState {
                warnings: st.warnings.push(
                    LexErr { message: message, row: row, col: 0, filename: main, token_len: 7 },
                ),
                ..st
            }
        } else if count_char(values[1], '"') != 2 {
            IncState {
                warnings: st.warnings.push(
                    LexErr {
                        message:
                            "Included file must be specified in a string. Example: `include \"std.rk\""@,
                        row: row,
                        col: if line.len() - values[1].len() + 6 > usize::MAX {
                            usize::MAX as int
                        } else {
                            line.len() - values[1].len() + 6
                        },
                        filename: main,
                        token_len: crate::strings::spec_trim(values[1]).len() as int,
                    },
                ),
                ..st
            }
        } else {
            let child = crate::strings::spec_replace(
                crate::strings::spec_trim(values[1]),
                "\""@,
                Seq::empty(),
            );
            let path = join_path(parent_dir(main), child);
            match file_lookup(files, path) {
                Some(content) => {
                    if fuel == 0 {
                        IncState {
                            fatal: Some(IncFatal::Usage(include_cycle_message())),
                            ..st
                        }
                    } else {
                        let sub = spec_resolve(
                            path,
                            child_input(path, content),
                            files,
                            (fuel - 1) as nat,
                        );
                        IncState {
                            content: st.content + sub.content,
                            warnings: st.warnings + sub.warnings,
                            fatal: sub.fatal,
                            ..st
                        }
                    }
                },
                None => IncState {
                    fatal: Some(IncFatal::Usage(missing_file_message(child, path))),
                    ..st
                },
            }
        }
    }
}

/// The resolver folded over a file's lines; a fatal diagnostic stops it.
pub open spec fn inc_lines(
    st: IncState,
    main: Seq<char>,
    files: Seq<(Seq<char>, Seq<char>)>,
    lines: Seq<Seq<char>>,
    row: int,
    fuel: nat,
) -> IncState
    decreases fuel, 1nat, lines.len() - row,
{
    if row < 0 || row >= lines.len() || st.fatal is Some {
        st
    } else {
        inc_lines(inc_line(st, main, files, lines[row], row, fuel), main, files, lines, row + 1, fuel)
    }
}

/// What resolving one file yields: the concatenated content of its includes,
/// each resolved in turn, followed by a newline and the file's own text.
pub open spec fn spec_resolve(
    main: Seq<char>,
    input: Seq<char>,
    files: Seq<(Seq<char>, Seq<char>)>,
    fuel: nat,
) -> IncState
    decreases fuel, 2nat, 0nat,
{
    let st0 = IncState {
        can_include: true,
        content: Seq::empty(),
        warnings: Seq::empty(),
        fatal: None,
    };
    let w = inc_lines(st0, main, files, crate::strings::spec_lines(input), 0, fuel);
    if w.fatal is Some {
        w
    } else {
        IncState { content: w.content + "\n"@ + input, ..w }
    }
}

/// The views of the file table.
pub open spec fn file_views(files: Seq<(String, String)>) -> Seq<(Seq<char>, Seq<char>)> {
    files.map_values(|p: (String, String)| (p.0@, p.1@))
}

/// Does the built diagnostic render the resolver's fatal one?
pub open spec fn inc_fatal_matches(e: Error, f: IncFatal) -> bool {
    match f {
        IncFatal::At(le) => error_matches(e, le),
        IncFatal::Usage(m) => e.typ == crate::compiler::err::ErrTyp::CommandLine && e.message@
            == m && e.location == (0usize, 0usize) && e.token_len == 0 && e.function_line is None,
    }
}

/// Resolving a file that contains no `include` directive adds nothing: the
/// result is the input prefixed by one newline, with no diagnostics.
pub proof fn lemma_resolve_no_includes(
    main: Seq<char>,
    input: Seq<char>,
    files: Seq<(Seq<char>, Seq<char>)>,
    fuel: nat,
)
    requires
        forall|i: int|
            0 <= i < crate::strings::spec_lines(input).len() ==> !is_include_line(
                #[trigger] crate::strings::spec_lines(input)[i],
            ),
    ensures
        spec_resolve(main, input, files, fuel).fatal is None,
        spec_resolve(main, input, files, fuel).warnings == Seq::<LexErr>::empty(),
        spec_resolve(main, input, files, fuel).content == "\n"@ + input,
{
    let st0 = IncState {
        can_include: true,
        content: Seq::empty(),
        warnings: Seq::empty(),
        fatal: None,
    };
    lemma_inc_lines_no_includes(st0, main, files, crate::strings::spec_lines(input), 0, fuel);
    assert(Seq::<char>::empty() + "\n"@ + input =~= "\n"@ + input);
}

/// Does the line's trimmed text start with `include`?
pub open spec fn is_include_line(line: Seq<char>) -> bool {
    let t = crate::strings::spec_trim(line);
    t.len() >= 7 && t.subrange(0, 7) == "include"@
}

proof fn lemma_inc_lines_no_includes(
    st: IncState,
    main: Seq<char>,
    files: Seq<(Seq<char>, Seq<char>)>,
    lines: Seq<Seq<char>>,
    row: int,
    fuel: nat,
)
    requires
        forall|i: int| 0 <= i < lines.len() ==> !is_include_line(#[trigger] lines[i]),
        st.fatal is None,
    ensures
        inc_lines(st, main, files, lines, row, fuel).fatal == st.fatal,
        inc_lines(st, main, files, lines, row, fuel).warnings == st.warnings,
        inc_lines(st, main, files, lines, row, fuel).content == st.content,
    decreases lines.len() - row,
{
    if 0 <= row < lines.len() {
        lemma_inc_lines_no_includes(
            inc_line(st, main, files, lines[row], row, fuel),
            main,
            files,
            lines,
            row + 1,
            fuel,
        );
    }
}

/// Resolves the includes of one source text against a table of file
/// contents: each included file's resolved text, in order, then a newline
/// and the text itself. An `include` after the first real token, a file
/// missing from the table, and a self-including file are fatal; a malformed
/// directive is skipped with a diagnostic.
pub fn parse_includes(main_file: &str, input: &str, files: &Vec<(String, String)>) -> (r: Result<
    (String, Vec<Error>),
    Error,
>)
    ensures
        ({
            let w = spec_resolve(main_file@, input@, file_views(files@), files@.len() as nat);
            match r {
                Ok(out) => w.fatal is None && out.0@ == w.content && errors_match(
                    out.1@,
                    w.warnings,
                ),
                Err(e) => w.fatal matches Some(f) && inc_fatal_matches(e, f),
            }
        }),
{
    resolve_includes(main_file, input, files, files.len())
}

/// One level of include resolution, with the nesting budget left.
#[verifier::rlimit(100)]
fn resolve_includes(main_file: &str, input: &str, files: &Vec<(String, String)>, fuel: usize) -> (r:
    Result<(String, Vec<Error>), Error>)
    ensures
        ({
            let w = spec_resolve(main_file@, input@, file_views(files@), fuel as nat);
            match r {
                Ok(out) => w.fatal is None && out.0@ == w.content && errors_match(
                    out.1@,
                    w.warnings,
                ),
                Err(e) => w.fatal matches Some(f) && inc_fatal_matches(e, f),
            }
        }),
    decreases fuel,
{
    proof {
        reveal_strlit("include");
        reveal_strlit("___rk___");
    }
    let lines = crate::strings::split_lines(input);
    let ghost glines = crate::strings::spec_lines(input@);
    let ghost st0 = IncState {
        can_include: true,
        content: Seq::empty(),
        warnings: Seq::empty(),
        fatal: None,
    };
    let mut content = String::new();
    let mut warnings: Vec<Error> = Vec::new();
    let mut can_include = true;
    let ghost mut cur = st0;
    let mut row: usize = 0;
    while row < lines.len()
        invariant
            0 <= row <= lines.len(),
            glines == crate::strings::spec_lines(input@),
            crate::strings::str_views(lines@) == glines,
            st0 == (IncState {
                can_include: true,
                content: Seq::<char>::empty(),
                warnings: Seq::<LexErr>::empty(),
                fatal: None::<IncFatal>,
            }),
            cur.fatal is None,
            cur.can_include == can_include,
            content@ == cur.content,
            errors_match(warnings@, cur.warnings),
            inc_lines(cur, main_file@, file_views(files@), glines, row as int, fuel as nat)
                == inc_lines(st0, main_file@, file_views(files@), glines, 0, fuel as nat),
        decreases lines.len() - row,
    {
        let ghost pre = cur;
        let ghost post = inc_line(
            pre,
            main_file@,
            file_views(files@),
            glines[row as int],
            row as int,
            fuel as nat,
        );
        proof {
            assert(inc_lines(
                pre,
                main_file@,
                file_views(files@),
                glines,
                row as int,
                fuel as nat,
            ) == inc_lines(
                post,
                main_file@,
                file_views(files@),
                glines,
                row as int + 1,
                fuel as nat,
            ));
        }
        let line = &lines[row];
        proof {
            reveal_strlit("include");
            reveal_strlit("___rk___");
            assert(line@ == glines[row as int]);
        }
        let t = crate::strings::trim_str(line.as_str());
        let starts_include = crate::strings::starts_with(t, "include");
        let is_marker = crate::strings::starts_with(t, "___rk___");
        let is_comment = t.unicode_len() >= 1 && t.get_char(0) == '#';
        let is_blank = t.unicode_len() == 0;
        if !can_include {
            if starts_include {
                proof {
                    assert(post.fatal is Some);
                    assert(inc_lines(
                        post,
                        main_file@,
                        file_views(files@),
                        glines,
                        row as int + 1,
                        fuel as nat,
                    ) == post);
                    assert(inc_lines(st0, main_file@, file_views(files@), glines, 0, fuel as nat)
                        == post);
                    lemma_resolve_unfold(main_file@, input@, file_views(files@), fuel as nat);
                    assert(spec_resolve(main_file@, input@, file_views(files@), fuel as nat)
                        == post);
                }
                return Err(
                    Error::new(
                        String::from_str(
                            "You can only include files at the begining of the file, before any other tokens.",
                        ),
                        (row, 0, String::from_str(main_file)),
                        7,
                    ),
                );
            }
            proof {
                cur = post;
            }
            row += 1;
            continue ;
        }
        if !starts_include && !is_marker && !is_comment && !is_blank {
            can_include = false;
            proof {
                cur = post;
            }
            row += 1;
            continue ;
        }
        if is_marker || is_comment || is_blank {
            proof {
                cur = post;
            }
            row += 1;
            continue ;
        }
        let values = crate::strings::split_str(t, "include");
        proof {
            crate::strings::lemma_split_len(t@, "include"@);
        }
        let second_trim_len = if values.len() >= 2 {
            crate::strings::trim_str(values[1].as_str()).unicode_len()
        } else {
            0
        };
        if values.len() != 2 || second_trim_len == 0 {
            let m: String = if values.len() == 1 || values.len() == 2 {
                String::from_str(
                    "You must put a string after the `include` keyword to include an other file. Example : `include \"std.rk\"",
                )
            } else {
                let mut mm = String::from_str("You can only include one file per `include` keyword but ");
                mm.append(crate::strings::usize_string(values.len()).as_str());
                mm.append(" tokens were found after the `include` keyword.");
                mm
            };
            warnings.push(Error::new(m, (row, 0, String::from_str(main_file)), 7));
            proof {
                cur = post;
            }
            row += 1;
            continue ;
        }
        let quote_count = count_quotes(values[1].as_str());
        if quote_count != 2 {
            proof {
                lemma_trim_len_le(line@);
                lemma_split_seg_le(t@, "include"@, 1);
            }
            let col = (line.as_str().unicode_len() - values[1].as_str().unicode_len())
                .saturating_add(6);
            let token_len = crate::strings::trim_str(values[1].as_str()).unicode_len();
            warnings.push(
                Error::new(
                    String::from_str(
                        "Included file must be specified in a string. Example: `include \"std.rk\"",
                    ),
                    (row, col, String::from_str(main_file)),
                    token_len,
                ),
            );
            proof {
                cur = post;
            }
            row += 1;
            continue ;
        }
        proof {
            reveal_strlit("\"");
            reveal_strlit("");
            assert(""@ =~= Seq::<char>::empty());
        }
        let child_file = crate::strings::replace_str(
            crate::strings::trim_str(values[1].as_str()),
            "\"",
            "",
        );
        let parent = parent_of(main_file);
        let mut child_path = parent;
        if child_path.as_str().unicode_len() > 0 {
            child_path.append("/");
        }
        child_path.append(child_file.as_str());
        proof {
            assert(child_path@ =~= join_path(parent_dir(main_file@), child_file@));
        }
        match find_file(files, child_path.as_str()) {
            Some(file_content) => {
                if fuel == 0 {
                    return Err(
                        Error::command_line(
                            String::from_str(
                                "Includes are nested deeper than the number of source files; an included file includes itself.",
                            ),
                        ),
                    );
                }
                let mut sub_input = String::from_str("\n");
                sub_input.append(crate::parser::token::file_marker_str());
                sub_input.append(child_path.as_str());
                sub_input.append("\n");
                sub_input.append(file_content.as_str());
                proof {
                    assert(sub_input@ =~= child_input(child_path@, file_content@));
                }
                match resolve_includes(child_path.as_str(), sub_input.as_str(), files, fuel - 1) {
                    Ok(mut sub) => {
                        content.append(sub.0.as_str());
                        let ghost wpre = warnings@;
                        let ghost gsub = spec_resolve(
                            child_path@,
                            sub_input@,
                            file_views(files@),
                            (fuel - 1) as nat,
                        );
                        let mut extra = sub.1;
                        let mut q: usize = 0;
                        while q < extra.len()
                            invariant
                                0 <= q <= extra@.len(),
                                warnings@.len() == wpre.len() + q,
                                errors_match(extra@, gsub.warnings),
                                forall|j: int|
                                    0 <= j < wpre.len() ==> #[trigger] warnings@[j] == wpre[j],
                                forall|j: int|
                                    wpre.len() <= j < warnings@.len()
                                        ==> #[trigger] warnings@[j] == extra@[j - wpre.len()],
                            decreases extra@.len() - q,
                        {
                            let e = move_error(&mut extra, q);
                            warnings.push(e);
                            q += 1;
                        }
                        proof {
                            assert(post.warnings == pre.warnings + gsub.warnings);
                            assert forall|j: int|
                                0 <= j < warnings@.len() implies error_matches(
                                #[trigger] warnings@[j],
                                post.warnings[j],
                            ) by {
                                if j < wpre.len() {
                                    assert(error_matches(wpre[j], pre.warnings[j]));
                                    assert(post.warnings[j] == pre.warnings[j]);
                                } else {
                                    assert(warnings@[j] == extra@[j - wpre.len()]);
                                    assert(error_matches(
                                        extra@[j - wpre.len()],
                                        gsub.warnings[j - wpre.len()],
                                    ));
                                    assert(post.warnings[j] == gsub.warnings[j - wpre.len()]);
                                }
                            }
                            cur = post;
                        }
                        row += 1;
                        continue ;
                    },
                    Err(e) => {
                        return Err(e);
                    },
                }
            },
            None => {
                let mut m = String::from_str("The included file `");
                m.append(child_file.as_str());
                m.append("` (`");
                m.append(child_path.as_str());
                m.append(
                    "`) does not exists or is not able to being opened. Check the path and permission of the file.",
                );
                proof {
                    assert(m@ =~= missing_file_message(child_file@, child_path@));
                }
                return Err(Error::command_line(m));
            },
        }
    }
    content.append("\n");
    content.append(input);
    proof {
        assert(content@ =~= cur.content + "\n"@ + input@);
    }
    Ok((content, warnings))
}

/// Reads one collected diagnostic out of a list by index.
fn move_error(v: &mut Vec<Error>, i: usize) -> (r: Error)
    requires
        i < old(v)@.len(),
    ensures
        r == old(v)@[i as int],
        final(v)@ == old(v)@,
{
    let e = v.remove(i);
    let copy = Error {
        typ: e.typ,
        message: e.message.clone(),
        location: e.location,
        filename: e.filename.clone(),
        token_len: e.token_len,
        function_line: e.function_line,
    };
    v.insert(i, copy);
    proof {
        assert(final(v)@ =~= old(v)@);
    }
    e
}

/// Counts double quotes.
fn count_quotes(s: &str) -> (r: usize)
    ensures
        r == count_char(s@, '"'),
{
    let n = s.unicode_len();
    let mut i: usize = 0;
    let mut count: usize = 0;
    while i < n
        invariant
            0 <= i <= n,
            n == s@.len(),
            count == count_char(s@.take(i as int), '"'),
            count <= i,
        decreases n - i,
    {
        proof {
            assert(s@.take(i + 1) =~= s@.take(i as int).push(s@[i as int]));
            lemma_count_push(s@.take(i as int), s@[i as int], '"');
        }
        if s.get_char(i) == '"' {
            count += 1;
        }
        i += 1;
    }
    proof {
        assert(s@.take(n as int) =~= s@);
    }
    count
}

proof fn lemma_count_push(s: Seq<char>, c: char, d: char)
    ensures
        count_char(s.push(c), d) == count_char(s, d) + if c == d {
            1int
        } else {
            0int
        },
    decreases s.len(),
{
    assert(count_char(s.push(c), d) == count_char(s.push(c).drop_first(), d) + if s.push(
        c,
    ).first() == d {
        1int
    } else {
        0int
    });
    if s.len() == 0 {
        assert(s.push(c).drop_first() =~= Seq::<char>::empty());
        assert(s.push(c).first() == c);
    } else {
        assert(s.push(c).drop_first() =~= s.drop_first().push(c));
        assert(s.push(c).first() == s.first());
        lemma_count_push(s.drop_first(), c, d);
    }
}

/// The directory part of a path, before the last `/`.
fn parent_of(p: &str) -> (r: String)
    ensures
        r@ == parent_dir(p@),
{
    let n = p.unicode_len();
    let mut i: usize = n;
    while i > 0
        invariant
            0 <= i <= n,
            n == p@.len(),
            forall|j: int| i <= j < n ==> p@[j] != '/',
        decreases i,
    {
        if p.get_char(i - 1) == '/' {
            let r = String::from_str(p.substring_char(0, i - 1));
            proof {
                lemma_parent_dir(p@, i as int - 1);
            }
            return r;
        }
        i -= 1;
    }
    proof {
        lemma_parent_dir_none(p@);
    }
    String::new()
}

proof fn lemma_parent_dir(p: Seq<char>, j: int)
    requires
        0 <= j < p.len(),
        p[j] == '/',
        forall|k: int| j < k < p.len() ==> p[k] != '/',
    ensures
        parent_dir(p) == p.take(j),
    decreases p.len(),
{
    if j == p.len() - 1 {
        assert(p.drop_last() =~= p.take(j));
    } else {
        lemma_parent_dir(p.drop_last(), j);
        assert(p.drop_last().take(j) =~= p.take(j));
    }
}

proof fn lemma_parent_dir_none(p: Seq<char>)
    requires
        forall|k: int| 0 <= k < p.len() ==> p[k] != '/',
    ensures
        parent_dir(p) == Seq::<char>::empty(),
    decreases p.len(),
{
    if p.len() > 0 {
        lemma_parent_dir_none(p.drop_last());
    }
}

/// The first content recorded for a path, as the executable lookup.
fn find_file<'a>(files: &'a Vec<(String, String)>, path: &str) -> (r: Option<&'a String>)
    ensures
        (match r {
            Some(c) => file_lookup(file_views(files@), path@) == Some(c@),
            None => file_lookup(file_views(files@), path@) is None,
        }),
{
    let mut i: usize = 0;
    while i < files.len()
        invariant
            0 <= i <= files@.len(),
            forall|j: int| 0 <= j < i ==> (#[trigger] files@[j]).0@ != path@,
        decreases files@.len() - i,
    {
        if eq_str(files[i].0.as_str(), path) {
            proof {
                lemma_file_lookup_found(file_views(files@), path@, i as int);
            }
            return Some(&files[i].1);
        }
        i += 1;
    }
    proof {
        lemma_file_lookup_absent(file_views(files@), path@, files@.len() as int);
    }
    None
}

proof fn lemma_file_lookup_found(files: Seq<(Seq<char>, Seq<char>)>, path: Seq<char>, p: int)
    requires
        0 <= p < files.len(),
        files[p].0 == path,
        forall|j: int| 0 <= j < p ==> (#[trigger] files[j]).0 != path,
    ensures
        file_lookup(files, path) == Some(files[p].1),
    decreases files.len(),
{
    if p > 0 {
        lemma_file_lookup_found(files.drop_first(), path, p - 1);
    }
}

proof fn lemma_file_lookup_absent(files: Seq<(Seq<char>, Seq<char>)>, path: Seq<char>, n: int)
    requires
        n == files.len(),
        forall|j: int| 0 <= j < n ==> (#[trigger] files[j]).0 != path,
    ensures
        file_lookup(files, path) is None,
    decreases files.len(),
{
    if files.len() > 0 {
        lemma_file_lookup_absent(files.drop_first(), path, n - 1);
    }
}

/// `spec_resolve`, unfolded one step.
pub proof fn lemma_resolve_unfold(
    main: Seq<char>,
    input: Seq<char>,
    files: Seq<(Seq<char>, Seq<char>)>,
    fuel: nat,
)
    ensures
        ({
            let st0 = IncState {
                can_include: true,
                content: Seq::empty(),
                warnings: Seq::empty(),
                fatal: None,
            };
            let w = inc_lines(st0, main, files, crate::strings::spec_lines(input), 0, fuel);
            spec_resolve(main, input, files, fuel) == (if w.fatal is Some {
                w
            } else {
                IncState { content: w.content + "\n"@ + input, ..w }
            })
        }),
{
}

/// No token of the sequence is an argument parenthesis.
pub open spec fn paren_free(tokens: Seq<Token>) -> bool {
    forall|i: int|
        0 <= i < tokens.len() ==> !((#[trigger] tokens[i]).typ matches Typ::Helper(
            helper::Token::ArgOpen,
        )) && !(tokens[i].typ matches Typ::Helper(helper::Token::ArgClose))
}

/// The sweep introduces no parenthesis token: on a sequence that holds
/// none, the output holds none either. (Where they do occur, a matched pair
/// and the separators between them are erased where they stand, as
/// `arg_rewrite` and the closing-parenthesis step state.)
pub proof fn lemma_parse_paren_free(tokens: Seq<Token>)
    requires
        paren_free(tokens),
    ensures
        paren_free(spec_parse(tokens).tokens),
{
    let st0 = ParseState {
        tokens: tokens,
        args_stack: Seq::empty(),
        stack: Seq::empty(),
        macros: Seq::empty(),
        functions: Seq::empty(),
        consts: Seq::empty(),
        errors: Seq::empty(),
    };
    lemma_fold_paren_free(st0, 0, tokens.len() as int);
}

proof fn lemma_step_paren_free(st: ParseState, idx: int)
    requires
        paren_free(st.tokens),
        0 <= idx < st.tokens.len(),
    ensures
        paren_free(parse_step(st, idx).tokens),
        parse_step(st, idx).tokens.len() == st.tokens.len(),
{
    let post = parse_step(st, idx);
    assert forall|i: int|
        0 <= i < post.tokens.len() implies !((#[trigger] post.tokens[i]).typ matches Typ::Helper(
        helper::Token::ArgOpen,
    )) && !(post.tokens[i].typ matches Typ::Helper(helper::Token::ArgClose)) by {
        assert(!(st.tokens[idx].typ matches Typ::Helper(helper::Token::ArgOpen)));
        assert(!(st.tokens[idx].typ matches Typ::Helper(helper::Token::ArgClose)));
        assert(!(st.tokens[i].typ matches Typ::Helper(helper::Token::ArgOpen)));
    }
}

proof fn lemma_fold_paren_free(st: ParseState, idx: int, end: int)
    requires
        paren_free(st.tokens),
        end <= st.tokens.len(),
    ensures
        paren_free(parse_finish(parse_fold(st, idx, end)).tokens),
        paren_free(parse_fold(st, idx, end).tokens),
        parse_fold(st, idx, end).tokens.len() == st.tokens.len(),
    decreases end - idx,
{
    if 0 <= idx < end {
        lemma_step_paren_free(st, idx);
        lemma_fold_paren_free(parse_step(st, idx), idx + 1, end);
    }
}

/// The pairing an `end` performs, one step at a time: with an `if` or an
/// `else` open on top of the block stack, the `end` at `idx` writes `idx`
/// into that opener's jump target and touches no other token.
pub proof fn lemma_end_pairs_if(st: ParseState, idx: int)
    requires
        0 <= idx < st.tokens.len(),
        st.tokens[idx].typ matches Typ::ControlFlow(control_flow::Token::End),
        st.stack.len() > 0,
        0 <= st.stack.last().0 < st.tokens.len(),
        st.stack.last().1 == control_flow::Token::If || st.stack.last().1
            == control_flow::Token::Else,
    ensures
        parse_step(st, idx).tokens[st.stack.last().0].jmp_idx == Some(idx as usize),
        forall|i: int|
            0 <= i < st.tokens.len() && i != st.stack.last().0 ==> parse_step(st, idx).tokens[i]
                == st.tokens[i],
        parse_step(st, idx).stack == st.stack.drop_last(),
{
}

/// An `else` at `idx` pairs with the `if` open on top of the block stack:
/// the `if` jumps to the `else`, and the `else` takes the `if`'s place.
pub proof fn lemma_else_pairs_if(st: ParseState, idx: int)
    requires
        0 <= idx < st.tokens.len(),
        st.tokens[idx].typ matches Typ::ControlFlow(control_flow::Token::Else),
        st.stack.len() > 0,
        0 <= st.stack.last().0 < st.tokens.len(),
        st.stack.last().1 == control_flow::Token::If,
    ensures
        parse_step(st, idx).tokens[st.stack.last().0].jmp_idx == Some(idx as usize),
        parse_step(st, idx).stack == st.stack.drop_last().push(
            (idx, control_flow::Token::Else),
        ),
        forall|i: int|
            0 <= i < st.tokens.len() && i != st.stack.last().0 ==> parse_step(st, idx).tokens[i]
                == st.tokens[i],
{
}

/// With a `do` on top and its `while` beneath, the `end` at `idx` becomes an
/// `endwhile` that jumps back to the `while`, and the `do` jumps to it.
pub proof fn lemma_end_pairs_while(st: ParseState, idx: int)
    requires
        0 <= idx < st.tokens.len(),
        st.tokens[idx].typ matches Typ::ControlFlow(control_flow::Token::End),
        st.stack.len() >= 2,
        st.stack.last().1 == control_flow::Token::Do,
        st.stack[st.stack.len() - 2].1 == control_flow::Token::While,
        0 <= st.stack.last().0 < st.tokens.len(),
        0 <= st.stack[st.stack.len() - 2].0,
        st.stack.last().0 != idx,
    ensures
        parse_step(st, idx).tokens[idx].typ matches Typ::ControlFlow(
            control_flow::Token::EndWhile,
        ),
        parse_step(st, idx).tokens[idx].jmp_idx == Some(
            st.stack[st.stack.len() - 2].0 as usize,
        ),
        parse_step(st, idx).tokens[st.stack.last().0].jmp_idx == Some(idx as usize),
{
    let popped = ParseState { stack: st.stack.drop_last(), ..st };
    assert(popped.stack.last() == st.stack[st.stack.len() - 2]);
}

/// Trimming never lengthens.
proof fn lemma_trim_len_le(s: Seq<char>)
    ensures
        crate::strings::spec_trim(s).len() <= s.len(),
    decreases s.len(),
{
    if s.len() > 0 {
        if crate::strings::is_space(s[0]) {
            lemma_trim_len_le(s.drop_first());
        } else if crate::strings::is_space(s[s.len() - 1]) {
            lemma_trim_len_le(s.drop_last());
        }
    }
}

/// A split segment never outgrows its source.
proof fn lemma_split_seg_le(s: Seq<char>, sep: Seq<char>, i: int)
    requires
        0 <= i < crate::strings::spec_split(s, sep).len(),
    ensures
        crate::strings::spec_split(s, sep)[i].len() <= s.len(),
    decreases s.len(),
{
    if sep.len() == 0 || s.len() < sep.len() {
    } else if s.subrange(0, sep.len() as int) == sep {
        if i > 0 {
            lemma_split_seg_le(s.skip(sep.len() as int), sep, i - 1);
        }
    } else {
        let rest = crate::strings::spec_split(s.drop_first(), sep);
        crate::strings::lemma_split_len(s.drop_first(), sep);
        if i == 0 {
            lemma_split_seg_le(s.drop_first(), sep, 0);
        } else {
            lemma_split_seg_le(s.drop_first(), sep, i);
        }
    }
}

/// Supplies the lexed token sequence as the witness for `parse_post`.
proof fn lemma_parse_post_witness(
    input: Seq<char>,
    r: Result<(Vec<Token>, Vec<(String, FnEntry)>, Vec<(String, i64)>), Vec<Error>>,
    tokens0: Seq<Token>,
)
    requires
        crate::parser::token::spec_lex(input).errors.len() == 0,
        tokens0.len() == crate::parser::token::spec_lex(input).items.len(),
        forall|i: int|
            0 <= i < tokens0.len() ==> crate::parser::token::token_matches_item(
                #[trigger] tokens0[i],
                crate::parser::token::spec_lex(input).items[i],
            ),
        (if spec_parse(tokens0).errors.len() > 0 {
            r matches Err(errors) && errors_match(errors@, spec_parse(tokens0).errors)
        } else {
            r matches Ok(out) && out.0@ == spec_parse(tokens0).tokens && fn_table_matches(
                out.1@,
                spec_parse(tokens0).functions,
            ) && const_table_matches(out.2@, spec_parse(tokens0).consts)
        }),
    ensures
        parse_post(input, r),
{
    assert(spec_parse(tokens0) == spec_parse(tokens0));
}

/// The `end` handler of the sweep.
fn compile_end(
    tokens: &mut Vec<Token>,
    stack: &mut Vec<(usize, control_flow::Token)>,
    functions: &mut Vec<(String, FnEntry)>,
    consts: &mut Vec<(String, i64)>,
    errors: &mut Vec<Error>,
    idx: usize,
    Ghost(pre): Ghost<ParseState>,
) -> (r: ())
    requires
        idx < old(tokens)@.len(),
        old(tokens)@ == pre.tokens,
        old(stack)@.len() == pre.stack.len(),
        forall|i: int|
            0 <= i < old(stack)@.len() ==> (#[trigger] old(stack)@[i]).0 as int == pre.stack[i].0
                && old(stack)@[i].1 == pre.stack[i].1 && old(stack)@[i].0 < old(tokens)@.len(),
        fn_table_matches(old(functions)@, pre.functions),
        const_table_matches(old(consts)@, pre.consts),
        errors_match(old(errors)@, pre.errors),
    ensures
        ({
            let post = parse_end_step(pre, idx as int);
            &&& final(tokens)@ == post.tokens
            &&& final(stack)@.len() == post.stack.len()
            &&& forall|i: int|
                0 <= i < final(stack)@.len() ==> (#[trigger] final(stack)@[i]).0 as int
                    == post.stack[i].0 && final(stack)@[i].1 == post.stack[i].1
                    && final(stack)@[i].0 < final(tokens)@.len()
            &&& fn_table_matches(final(functions)@, post.functions)
            &&& const_table_matches(final(consts)@, post.consts)
            &&& errors_match(final(errors)@, post.errors)
            &&& final(tokens)@.len() == old(tokens)@.len()
        }),
{
    proof {
        if old(stack)@.len() > 0 {
            assert(old(stack)@[old(stack)@.len() - 1].0 < old(tokens)@.len());
        }
    }
    match stack.pop() {
        Some((op_idx, control_flow::Token::If)) | Some((op_idx, control_flow::Token::Else)) => {
            tokens[op_idx].jmp_idx = Some(idx);
        },
        Some((op_idx, control_flow::Token::Do)) => {
            match stack.pop() {
                Some((while_idx, control_flow::Token::While)) => {
                    tokens[idx].jmp_idx = Some(while_idx);
                    tokens[idx].typ = Typ::ControlFlow(control_flow::Token::EndWhile);
                    tokens[op_idx].jmp_idx = Some(idx);
                    proof {
                        let t1 = pre.tokens.update(
                            idx as int,
                            Token {
                                jmp_idx: Some(while_idx),
                                typ: Typ::ControlFlow(control_flow::Token::EndWhile),
                                ..pre.tokens[idx as int]
                            },
                        );
                        assert(tokens@ =~= t1.update(
                            op_idx as int,
                            Token { jmp_idx: Some(idx), ..t1[op_idx as int] },
                        ));
                    }
                },
                _ => {
                    let token_len = tokens[idx].len();
                    errors.push(
                        Error::new(
                            String::from_str(
                                "Missing a `while` statement before the `do`. Should be in this format: `while <condition> do <if_true> end`",
                            ),
                            (tokens[idx].row, tokens[idx].col, tokens[idx].filename.clone()),
                            token_len,
                        ),
                    );
                },
            }
        },
        Some((op_idx, control_flow::Token::Macro)) => {
            let is_id = op_idx < tokens.len() && op_idx + 1 < tokens.len() && matches!(
                &tokens[op_idx + 1].typ,
                Typ::Identifier(_)
            );
            if !is_id {
                let token_len = tokens[idx].len();
                errors.push(
                    Error::new(
                        String::from_str(
                            "Missing an `identifier` just after the `macro` keyword. Should be in this format: `macro <identifier> <statements> end`",
                        ),
                        (tokens[idx].row, tokens[idx].col, tokens[idx].filename.clone()),
                        token_len,
                    ),
                );
            }
        },
        Some((op_idx, control_flow::Token::Fn)) => {
            let id: Option<String> = if op_idx < tokens.len() && op_idx + 1 < tokens.len() {
                match &tokens[op_idx + 1].typ {
                    Typ::Identifier(identifier) => Some(identifier.clone()),
                    _ => None,
                }
            } else {
                None
            };
            match id {
                Some(identifier) => {
                    let annot: Option<FnEntry> = if op_idx + 2 < tokens.len() {
                        match &tokens[op_idx + 2].typ {
                            Typ::Helper(helper::Token::TypeAnnot(args_type, ret_type, ignore_return)) => Some(
                                FnEntry {
                                    body_start: op_idx + 3,
                                    body_end: idx,
                                    args: crate::tables::clone_typss(args_type),
                                    returns: crate::tables::clone_typss(ret_type),
                                    ignore_return: *ignore_return,
                                },
                            ),
                            _ => None,
                        }
                    } else {
                        None
                    };
                    match annot {
                        Some(entry) => {
                            tokens[op_idx].jmp_idx = Some(idx);
                            functions.push((identifier, entry));
                        },
                        None => {
                            let token_len = tokens[op_idx + 1].len();
                            errors.push(
                                Error::new(
                                    String::from_str(
                                        "Missing type annotation just after the identifier. Should be in this format: `fn <identifier>[<type_annotation>] <statements> end`",
                                    ),
                                    (
                                        tokens[op_idx + 1].row,
                                        tokens[op_idx + 1].col,
                                        tokens[op_idx + 1].filename.clone(),
                                    ),
                                    token_len,
                                ),
                            );
                        },
                    }
                },
                None => {
                    let token_len = tokens[idx].len();
                    errors.push(
                        Error::new(
                            String::from_str(
                                "Missing an `identifier` just after the `fn` keyword. Should be in this format: `fn <identifier>[<type_annotation>] <statements> end`",
                            ),
                            (tokens[idx].row, tokens[idx].col, tokens[idx].filename.clone()),
                            token_len,
                        ),
                    );
                },
            }
        },
        Some((op_idx, control_flow::Token::Const)) => {
            let id: Option<String> = if op_idx < tokens.len() && op_idx + 1 < tokens.len() {
                match &tokens[op_idx + 1].typ {
                    Typ::Identifier(identifier) => Some(identifier.clone()),
                    _ => None,
                }
            } else {
                None
            };
            match id {
                Some(identifier) => {
                    tokens[op_idx].jmp_idx = Some(idx);
                    let value: Option<i64> = if op_idx + 2 < tokens.len() {
                        match &tokens[op_idx + 2].typ {
                            Typ::Int(integer) => Some(*integer),
                            _ => None,
                        }
                    } else {
                        None
                    };
                    match value {
                        Some(integer) => {
                            consts.push((identifier, integer));
                        },
                        None => {
                            let token_len = tokens[idx].len();
                            errors.push(
                                Error::new(
                                    String::from_str("A `const` can only be of type `int`."),
                                    (
                                        tokens[idx].row,
                                        tokens[idx].col,
                                        tokens[idx].filename.clone(),
                                    ),
                                    token_len,
                                ),
                            );
                        },
                    }
                },
                None => {
                    let token_len = tokens[idx].len();
                    errors.push(
                        Error::new(
                            String::from_str(
                                "Missing an `identifier` just after the `const` keyword. Should be in this format: `const <identifier> <int> end`",
                            ),
                            (tokens[idx].row, tokens[idx].col, tokens[idx].filename.clone()),
                            token_len,
                        ),
                    );
                },
            }
        },
        _ => {
            let token_len = tokens[idx].len();
            errors.push(
                Error::new(
                    String::from_str(
                        "The `end` keyword did not match any opening statement (like `if`, `while`, `const` or `fn`).",
                    ),
                    (tokens[idx].row, tokens[idx].col, tokens[idx].filename.clone()),
                    token_len,
                ),
            );
        },
    }
}

} // verus!
