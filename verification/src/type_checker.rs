//! The stack-effect type checker's value taxonomy and its abstract
//! interpreter over a type stack.

use vstd::prelude::*;

use crate::compiler::err::Error;
use crate::strings::{eq_str, spec_split, split_str, str_views};

verus! {

/// The closed set of value types tracked by the type checker.
#[derive(Clone, Copy, PartialEq, Eq, Structural, Debug)]
pub enum Typ {
    Ptr,
    Int,
    Str,
    Void,
    Float,
    Any,
    Char,
}

/// The source spelling of each type name.
pub open spec fn typ_name(t: Typ) -> Seq<char> {
    match t {
        Typ::Ptr => "ptr"@,
        Typ::Str => "str"@,
        Typ::Int => "int"@,
        Typ::Void => "void"@,
        Typ::Float => "float"@,
        Typ::Any => "any"@,
        Typ::Char => "char"@,
    }
}

/// The type a name denotes, tried in the same order as the recogniser.
pub open spec fn typ_of_name(s: Seq<char>) -> Option<Typ> {
    if s == "ptr"@ {
        Some(Typ::Ptr)
    } else if s == "int"@ {
        Some(Typ::Int)
    } else if s == "str"@ {
        Some(Typ::Str)
    } else if s == "float"@ {
        Some(Typ::Float)
    } else if s == "void"@ {
        Some(Typ::Void)
    } else if s == "any"@ {
        Some(Typ::Any)
    } else if s == "char"@ {
        Some(Typ::Char)
    } else {
        None
    }
}

/// The diagnostic for an unknown type name.
pub open spec fn unknown_typ_message(v: Seq<char>) -> Seq<char> {
    "Types can only be `ptr`, `int`, `str`, `float`, `void` or `any` but "@ + v
        + " was found. You can also put multiple types separated by `|`."@
}

/// Resolving a list of type names: the first unknown name decides the error.
pub open spec fn spec_typ_list(segs: Seq<Seq<char>>) -> Result<Seq<Typ>, Seq<char>>
    decreases segs.len(),
{
    if segs.len() == 0 {
        Ok(Seq::empty())
    } else {
        match typ_of_name(segs.first()) {
            None => Err(unknown_typ_message(segs.first())),
            Some(t) => match spec_typ_list(segs.drop_first()) {
                Ok(rest) => Ok(seq![t] + rest),
                Err(e) => Err(e),
            },
        }
    }
}

/// What parsing a `|`-separated union of type names yields.
pub open spec fn spec_typ_union(value: Seq<char>) -> Result<Seq<Typ>, Seq<char>> {
    spec_typ_list(spec_split(value, "|"@))
}

proof fn lemma_typ_list_ok(segs: Seq<Seq<char>>)
    requires
        forall|j: int| 0 <= j < segs.len() ==> (#[trigger] typ_of_name(segs[j])) is Some,
    ensures
        spec_typ_list(segs) is Ok,
        spec_typ_list(segs)->Ok_0.len() == segs.len(),
        forall|j: int|
            0 <= j < segs.len() ==> spec_typ_list(segs)->Ok_0[j] == (#[trigger] typ_of_name(
                segs[j],
            ))->0,
    decreases segs.len(),
{
    if segs.len() > 0 {
        lemma_typ_list_ok(segs.drop_first());
        assert(typ_of_name(segs[0]) is Some);
        assert forall|j: int| 0 <= j < segs.len() implies spec_typ_list(segs)->Ok_0[j] == (
        #[trigger] typ_of_name(segs[j]))->0 by {
            if j > 0 {
                assert(segs.drop_first()[j - 1] == segs[j]);
                assert(spec_typ_list(segs.drop_first())->Ok_0[j - 1] == typ_of_name(
                    segs.drop_first()[j - 1],
                )->0);
            }
        }
    }
}

proof fn lemma_typ_list_err(segs: Seq<Seq<char>>, i: int)
    requires
        0 <= i < segs.len(),
        forall|j: int| 0 <= j < i ==> (#[trigger] typ_of_name(segs[j])) is Some,
        typ_of_name(segs[i]) is None,
    ensures
        spec_typ_list(segs) == Err::<Seq<Typ>, Seq<char>>(unknown_typ_message(segs[i])),
    decreases segs.len(),
{
    if i > 0 {
        lemma_typ_list_err(segs.drop_first(), i - 1);
    }
}

impl Typ {
    /// Renders the type name as it is written in source.
    pub fn to_string(&self) -> (r: String)
        ensures
            r@ == typ_name(*self),
    {
        match self {
            Typ::Ptr => String::from_str("ptr"),
            Typ::Str => String::from_str("str"),
            Typ::Int => String::from_str("int"),
            Typ::Void => String::from_str("void"),
            Typ::Float => String::from_str("float"),
            Typ::Any => String::from_str("any"),
            Typ::Char => String::from_str("char"),
        }
    }

    /// Parses a `|`-separated union of type names; an unknown name yields the
    /// diagnostic text for that name.
    pub fn try_from(value: &str) -> (r: Result<Vec<Typ>, String>)
        ensures
            (match r {
                Ok(v) => spec_typ_union(value@) matches Ok(sv) && v@ == sv,
                Err(m) => spec_typ_union(value@) matches Err(se) && m@ == se,
            }),
    {
        proof {
            reveal_strlit("|");
        }
        let segs = split_str(value, "|");
        let ghost gsegs = spec_split(value@, "|"@);
        let mut output: Vec<Typ> = Vec::new();
        let mut i: usize = 0;
        while i < segs.len()
            invariant
                0 <= i <= segs.len(),
                gsegs == spec_split(value@, "|"@),
                str_views(segs@) == gsegs,
                output@.len() == i,
                forall|j: int| 0 <= j < i ==> (#[trigger] typ_of_name(gsegs[j])) is Some,
                forall|j: int| 0 <= j < i ==> output@[j] == typ_of_name(gsegs[j])->0,
            decreases segs.len() - i,
        {
            proof {
                assert(gsegs[i as int] == segs@[i as int]@);
            }
            let v = &segs[i];
            let t = if eq_str(v.as_str(), "ptr") {
                Some(Typ::Ptr)
            } else if eq_str(v.as_str(), "int") {
                Some(Typ::Int)
            } else if eq_str(v.as_str(), "str") {
                Some(Typ::Str)
            } else if eq_str(v.as_str(), "float") {
                Some(Typ::Float)
            } else if eq_str(v.as_str(), "void") {
                Some(Typ::Void)
            } else if eq_str(v.as_str(), "any") {
                Some(Typ::Any)
            } else if eq_str(v.as_str(), "char") {
                Some(Typ::Char)
            } else {
                None
            };
            match t {
                Some(t) => {
                    output.push(t);
                },
                None => {
                    let mut m = String::from_str(
                        "Types can only be `ptr`, `int`, `str`, `float`, `void` or `any` but ",
                    );
                    m.append(v.as_str());
                    m.append(" was found. You can also put multiple types separated by `|`.");
                    proof {
                        lemma_typ_list_err(gsegs, i as int);
                        assert(m@ =~= unknown_typ_message(gsegs[i as int]));
                    }
                    return Err(m);
                },
            }
            i += 1;
        }
        proof {
            lemma_typ_list_ok(gsegs);
            assert(output@ =~= spec_typ_list(gsegs)->Ok_0);
        }
        Ok(output)
    }
}

/// Is value type `t` accepted by the union `slot`? `any` is compatible in
/// both directions.
pub open spec fn compatible(slot: Seq<Typ>, t: Typ) -> bool {
    slot.contains(t) || slot.contains(Typ::Any) || t == Typ::Any
}

/// The types popped by a check of `n` slots, top of stack first.
pub open spec fn popped_of(stack: Seq<Typ>, n: int) -> Seq<Typ> {
    Seq::new(n as nat, |i: int| stack[stack.len() - 1 - i])
}

/// Does any popped slot violate its union?
pub open spec fn any_mismatch(stack: Seq<Typ>, allowed: Seq<Seq<Typ>>) -> bool {
    exists|i: int|
        0 <= i < allowed.len() && !compatible(#[trigger] allowed[i], stack[stack.len() - 1 - i])
}

/// A union rendered as it is written: names joined with `|`.
pub open spec fn union_text(slot: Seq<Typ>) -> Seq<char>
    decreases slot.len(),
{
    if slot.len() == 0 {
        Seq::empty()
    } else if slot.len() == 1 {
        typ_name(slot[0])
    } else {
        typ_name(slot[0]) + "|"@ + union_text(slot.drop_first())
    }
}

/// A slot list rendered as `a|b, c`.
pub open spec fn allowed_text(allowed: Seq<Seq<Typ>>) -> Seq<char>
    decreases allowed.len(),
{
    if allowed.len() == 0 {
        Seq::empty()
    } else if allowed.len() == 1 {
        union_text(allowed[0])
    } else {
        union_text(allowed[0]) + ", "@ + allowed_text(allowed.drop_first())
    }
}

/// A found-type list rendered as `a, b`.
pub open spec fn found_text(found: Seq<Typ>) -> Seq<char>
    decreases found.len(),
{
    if found.len() == 0 {
        Seq::empty()
    } else if found.len() == 1 {
        typ_name(found[0])
    } else {
        typ_name(found[0]) + ", "@ + found_text(found.drop_first())
    }
}

/// The diagnostic for a stack shorter than an operation needs.
pub open spec fn short_stack_message(keyword: Seq<char>, min_len: int, cur: int) -> Seq<char> {
    "You cannot use `"@ + keyword + "` because the minimum length of the stack is "@
        + crate::strings::spec_nat_string(min_len) + " but "@ + crate::strings::spec_nat_string(
        cur,
    ) + " value was found on the stack."@
}

/// The diagnostic for popped types that violate their unions.
pub open spec fn mismatch_message(
    keyword: Seq<char>,
    allowed: Seq<Seq<Typ>>,
    found: Seq<Typ>,
) -> Seq<char> {
    "To use `"@ + keyword + "` you need values of type `"@ + allowed_text(allowed)
        + "` on the stack but values of types `"@ + found_text(found) + "` were found"@
}

/// The diagnostic for a function whose body leaves the wrong types.
pub open spec fn return_mismatch_message(
    keyword: Seq<char>,
    allowed: Seq<Seq<Typ>>,
    found: Seq<Typ>,
) -> Seq<char> {
    "The function `"@ + keyword + "` should return types of `"@ + allowed_text(allowed)
        + "` but returned types of `"@ + found_text(found) + "` on the stack."@
}

/// The checker's state during one walk: the type stack, the variable types,
/// the pending identifier, the collected diagnostics, a fatal diagnostic
/// that stops the walk, and the position.
pub struct TcState {
    pub stack: Seq<Typ>,
    pub vars: Seq<(Seq<char>, Typ)>,
    pub current: Option<Seq<char>>,
    pub errors: Seq<crate::parser::token::LexErr>,
    pub fatal: Option<crate::parser::token::LexErr>,
    pub idx: int,
}

/// The type last recorded for a variable, if any.
pub open spec fn var_lookup(vars: Seq<(Seq<char>, Typ)>, name: Seq<char>) -> Option<Typ>
    decreases vars.len(),
{
    if vars.len() == 0 {
        None
    } else if vars.last().0 == name {
        Some(vars.last().1)
    } else {
        var_lookup(vars.drop_last(), name)
    }
}

/// A union collapsed to the single type the walk tracks: a one-type slot is
/// that type, anything else is `any`.
pub open spec fn collapse(slot: Seq<Typ>) -> Typ {
    if slot.len() == 1 {
        slot[0]
    } else {
        Typ::Any
    }
}

pub open spec fn collapsed(slots: Seq<Seq<Typ>>) -> Seq<Typ> {
    Seq::new(slots.len(), |i: int| collapse(slots[i]))
}

/// The stack a function body starts from: its declared arguments, last
/// argument on top.
pub open spec fn seeded_args(args: Seq<Seq<Typ>>) -> Seq<Typ> {
    Seq::new(args.len(), |i: int| collapse(args[args.len() - 1 - i]))
}

/// The effect of popping `allowed.len()` slots against their unions: a short
/// stack is fatal; a union violation pops anyway and collects a diagnostic.
pub open spec fn cs_effect(
    st: TcState,
    tokens: Seq<crate::parser::token::Token>,
    i: int,
    keyword: Seq<char>,
    allowed: Seq<Seq<Typ>>,
) -> TcState {
    if st.stack.len() < allowed.len() {
        TcState {
            fatal: Some(
                crate::parser::err_at(
                    tokens,
                    i,
                    short_stack_message(keyword, allowed.len() as int, st.stack.len() as int),
                ),
            ),
            ..st
        }
    } else if any_mismatch(st.stack, allowed) {
        TcState {
            stack: st.stack.take(st.stack.len() - allowed.len()),
            errors: st.errors.push(
                crate::parser::err_at(
                    tokens,
                    i,
                    mismatch_message(keyword, allowed, popped_of(st.stack, allowed.len() as int)),
                ),
            ),
            ..st
        }
    } else {
        TcState { stack: st.stack.take(st.stack.len() - allowed.len()), ..st }
    }
}

/// A fatal diagnostic at token `i`.
pub open spec fn tc_fatal(
    st: TcState,
    tokens: Seq<crate::parser::token::Token>,
    i: int,
    message: Seq<char>,
) -> TcState {
    TcState { fatal: Some(crate::parser::err_at(tokens, i, message)), ..st }
}

/// One checker step over `tokens[st.idx]`.
pub open spec fn tc_step(
    st: TcState,
    tokens: Seq<crate::parser::token::Token>,
    fns: Seq<(String, crate::tables::FnEntry)>,
    consts: Seq<(String, i64)>,
) -> TcState {
    let i = st.idx;
    let tok = tokens[i];
    let cleared = TcState { current: None, idx: i + 1, ..st };
    let jumped = TcState {
        current: None,
        idx: (match tok.jmp_idx {
            Some(j) => if j >= i {
                j + 1
            } else {
                i + 1
            },
            None => i + 1,
        }),
        ..st
    };
    match tok.typ {
        crate::parser::typ::Typ::Int(_) => TcState { stack: st.stack.push(Typ::Int), ..cleared },
        crate::parser::typ::Typ::Str(_) => TcState { stack: st.stack.push(Typ::Str), ..cleared },
        crate::parser::typ::Typ::Memory(m) => (match m {
            crate::token::mem::Token::Mem | crate::token::mem::Token::InternalMem => TcState {
                stack: st.stack.push(Typ::Ptr),
                ..cleared
            },
            crate::token::mem::Token::Dup => {
                if st.stack.len() < 1 {
                    tc_fatal(cleared, tokens, i, short_stack_message("dup"@, 1, 0))
                } else {
                    TcState { stack: st.stack.push(st.stack.last()), ..cleared }
                }
            },
            crate::token::mem::Token::Drop => TcState {
                ..cs_effect(cleared, tokens, i, "drop"@, seq![seq![Typ::Any]])
            },
            crate::token::mem::Token::Fetch => (match st.current {
                Some(v) => (match var_lookup(st.vars, v) {
                    Some(t) => TcState { stack: st.stack.push(t), ..cleared },
                    None => tc_fatal(
                        cleared,
                        tokens,
                        i,
                        "You have to define a variable before using it, but "@ + v
                            + " was not found before."@,
                    ),
                }),
                None => tc_fatal(
                    cleared,
                    tokens,
                    i,
                    "You need an identifier before the `put` keyword."@,
                ),
            }),
            crate::token::mem::Token::Load(_) => {
                let s1 = cs_effect(cleared, tokens, i, "load"@, seq![seq![Typ::Ptr, Typ::Int]]);
                if s1.fatal is Some {
                    s1
                } else {
                    TcState { stack: s1.stack.push(Typ::Any), ..s1 }
                }
            },
            crate::token::mem::Token::Over => {
                if st.stack.len() < 2 {
                    tc_fatal(
                        cleared,
                        tokens,
                        i,
                        short_stack_message("over"@, 2, st.stack.len() as int),
                    )
                } else {
                    TcState { stack: st.stack.push(st.stack[st.stack.len() - 2]), ..cleared }
                }
            },
            crate::token::mem::Token::Put => (match st.current {
                Some(v) => {
                    if st.stack.len() > 0 {
                        TcState {
                            stack: st.stack.drop_last(),
                            vars: st.vars.push((v, st.stack.last())),
                            ..cleared
                        }
                    } else {
                        tc_fatal(
                            cleared,
                            tokens,
                            i,
                            "You need a value on the stack to put a variable, but the stack was empty."@,
                        )
                    }
                },
                None => tc_fatal(
                    cleared,
                    tokens,
                    i,
                    "You need an identifier before the `put` keyword."@,
                ),
            }),
            crate::token::mem::Token::Rot => {
                if st.stack.len() < 3 {
                    tc_fatal(
                        cleared,
                        tokens,
                        i,
                        short_stack_message("rot"@, 3, st.stack.len() as int),
                    )
                } else {
                    let l = st.stack.len() as int;
                    TcState {
                        stack: st.stack.update(l - 3, st.stack[l - 2]).update(
                            l - 2,
                            st.stack[l - 1],
                        ).update(l - 1, st.stack[l - 3]),
                        ..cleared
                    }
                }
            },
            crate::token::mem::Token::Store(_) => TcState {
                ..cs_effect(
                    cleared,
                    tokens,
                    i,
                    "store"@,
                    seq![seq![Typ::Ptr, Typ::Int], seq![Typ::Any]],
                )
            },
            crate::token::mem::Token::Swap => {
                if st.stack.len() < 2 {
                    tc_fatal(
                        cleared,
                        tokens,
                        i,
                        short_stack_message("swap"@, 2, st.stack.len() as int),
                    )
                } else {
                    let l = st.stack.len() as int;
                    TcState {
                        stack: st.stack.update(l - 2, st.stack[l - 1]).update(
                            l - 1,
                            st.stack[l - 2],
                        ),
                        ..cleared
                    }
                }
            },
        }),
        crate::parser::typ::Typ::Arithmetic(_) => {
            if st.stack.len() < 2 {
                cs_effect(
                    cleared,
                    tokens,
                    i,
                    "arithmetic"@,
                    seq![seq![Typ::Int, Typ::Ptr], seq![Typ::Int, Typ::Ptr]],
                )
            } else {
                let is_ptr = st.stack[st.stack.len() - 1] == Typ::Ptr || st.stack[st.stack.len()
                    - 2] == Typ::Ptr;
                let s1 = cs_effect(
                    cleared,
                    tokens,
                    i,
                    "arithmetic"@,
                    seq![seq![Typ::Int, Typ::Ptr], seq![Typ::Int, Typ::Ptr]],
                );
                TcState {
                    stack: s1.stack.push(
                        if is_ptr {
                            Typ::Ptr
                        } else {
                            Typ::Int
                        },
                    ),
                    ..s1
                }
            }
        },
        crate::parser::typ::Typ::Comparison(_) => {
            let s1 = cs_effect(
                cleared,
                tokens,
                i,
                "cmp"@,
                seq![seq![Typ::Int, Typ::Ptr], seq![Typ::Int, Typ::Ptr]],
            );
            if s1.fatal is Some {
                s1
            } else {
                TcState { stack: s1.stack.push(Typ::Int), ..s1 }
            }
        },
        crate::parser::typ::Typ::ControlFlow(c) => (match c {
            crate::token::control_flow::Token::If => cs_effect(
                cleared,
                tokens,
                i,
                "if"@,
                seq![seq![Typ::Int]],
            ),
            crate::token::control_flow::Token::Else => jumped,
            crate::token::control_flow::Token::Do => {
                let s1 = cs_effect(cleared, tokens, i, "do"@, seq![seq![Typ::Int]]);
                if s1.fatal is Some {
                    s1
                } else {
                    TcState { idx: jumped.idx, ..s1 }
                }
            },
            crate::token::control_flow::Token::Fn | crate::token::control_flow::Token::Const => jumped,
            _ => cleared,
        }),
        crate::parser::typ::Typ::Identifier(identifier) => {
            let kept = TcState { idx: i + 1, ..st };
            if crate::tables::fn_position(fns, identifier@) is Some {
                let entry = fns[crate::tables::fn_position(fns, identifier@)->0].1;
                let s1 = cs_effect(kept, tokens, i, identifier@, crate::tables::typss(entry.args@));
                if s1.fatal is Some {
                    s1
                } else {
                    let ret = collapsed(crate::tables::typss(entry.returns@));
                    if ret == seq![Typ::Void] {
                        s1
                    } else {
                        TcState { stack: s1.stack + ret, ..s1 }
                    }
                }
            } else if crate::tables::const_lookup(consts, identifier@) is Some {
                TcState { stack: st.stack.push(Typ::Int), ..kept }
            } else {
                TcState { current: Some(identifier@), ..kept }
            }
        },
        crate::parser::typ::Typ::Sys(s) => (match s {
            crate::token::sys::Token::Sys(name) => (match crate::tables::const_lookup(
                consts,
                name@,
            ) {
                Some(value) => {
                    let s1 = if value > 0 {
                        if st.stack.len() < value {
                            tc_fatal(
                                cleared,
                                tokens,
                                i,
                                short_stack_message(name@, value as int, st.stack.len() as int),
                            )
                        } else {
                            TcState { stack: st.stack.take(st.stack.len() - value), ..cleared }
                        }
                    } else {
                        cleared
                    };
                    if s1.fatal is Some {
                        s1
                    } else {
                        TcState { stack: s1.stack.push(Typ::Any), ..s1 }
                    }
                },
                None => tc_fatal(
                    cleared,
                    tokens,
                    i,
                    crate::token::sys::sys_missing_const_message(name@),
                ),
            }),
            crate::token::sys::Token::Include => cleared,
        }),
        _ => cleared,
    }
}

/// The walk folded from `st.idx` to `end`; a fatal diagnostic stops it.
pub open spec fn tc_fold(
    st: TcState,
    tokens: Seq<crate::parser::token::Token>,
    fns: Seq<(String, crate::tables::FnEntry)>,
    consts: Seq<(String, i64)>,
    end: int,
) -> TcState
    decreases (if end - st.idx > 0 { end - st.idx } else { 0 }),
{
    if st.idx >= end || st.fatal is Some {
        st
    } else {
        tc_fold(tc_step(st, tokens, fns, consts), tokens, fns, consts, end)
    }
}

/// Do the control-flow jumps the walk takes point forward everywhere in
/// range? The walk requires this; the structural parser's pairing yields it.
pub open spec fn walk_jumps_forward(
    tokens: Seq<crate::parser::token::Token>,
    start: int,
    end: int,
) -> bool {
    forall|i: int|
        start <= i < end ==> (match (#[trigger] tokens[i]).typ {
            crate::parser::typ::Typ::ControlFlow(c) => (match c {
                crate::token::control_flow::Token::Else | crate::token::control_flow::Token::Do
                    | crate::token::control_flow::Token::Fn
                    | crate::token::control_flow::Token::Const => (match tokens[i].jmp_idx {
                    Some(j) => j >= i,
                    None => true,
                }),
                _ => true,
            }),
            _ => true,
        })
}

/// Does a function body's final stack satisfy its declared returns? The
/// spelled-out exit check: a `void` return wants an empty stack, any other
/// wants a pointwise compatible stack of equal length.
pub open spec fn ret_ok(stack: Seq<Typ>, rets: Seq<Seq<Typ>>) -> bool {
    if collapsed(rets) == seq![Typ::Void] {
        stack.len() == 0
    } else {
        stack.len() == rets.len() && forall|i: int|
            0 <= i < rets.len() ==> compatible(#[trigger] rets[i], stack[stack.len() - 1 - i])
    }
}

/// The walk of one function body from its declared arguments.
pub open spec fn fn_walk(
    tokens: Seq<crate::parser::token::Token>,
    fns: Seq<(String, crate::tables::FnEntry)>,
    consts: Seq<(String, i64)>,
    p: int,
) -> TcState {
    let entry = fns[p].1;
    tc_fold(
        TcState {
            stack: seeded_args(crate::tables::typss(entry.args@)),
            vars: Seq::empty(),
            current: None,
            errors: Seq::empty(),
            fatal: None,
            idx: entry.body_start as int,
        },
        tokens,
        fns,
        consts,
        entry.body_end as int,
    )
}

/// Does function `p` type-check: its body walk raises no diagnostic and its
/// final stack matches its declaration, unless the check is suppressed?
pub open spec fn fn_passes(
    tokens: Seq<crate::parser::token::Token>,
    fns: Seq<(String, crate::tables::FnEntry)>,
    consts: Seq<(String, i64)>,
    p: int,
) -> bool {
    let entry = fns[p].1;
    let w = fn_walk(tokens, fns, consts, p);
    &&& w.fatal is None
    &&& w.errors.len() == 0
    &&& (entry.ignore_return || ret_ok(w.stack, crate::tables::typss(entry.returns@)))
}

/// The walk of the top-level program, outside every body.
pub open spec fn toplevel_walk(
    tokens: Seq<crate::parser::token::Token>,
    fns: Seq<(String, crate::tables::FnEntry)>,
    consts: Seq<(String, i64)>,
) -> TcState {
    tc_fold(
        TcState {
            stack: Seq::empty(),
            vars: Seq::empty(),
            current: None,
            errors: Seq::empty(),
            fatal: None,
            idx: 0,
        },
        tokens,
        fns,
        consts,
        tokens.len() as int,
    )
}

/// The diagnostic record pointing at a token.
pub open spec fn tok_err(tok: crate::parser::token::Token, message: Seq<char>) -> crate::parser::token::LexErr {
    crate::parser::token::LexErr {
        message: message,
        row: tok.row as int,
        col: tok.col as int,
        filename: tok.filename@,
        token_len: crate::parser::token::spec_token_len(tok.typ),
    }
}

/// The abstract interpreter: one mutable type stack, the diagnostics
/// collected so far, and — when asked for — a trace of the walk.
pub struct TypeChecker {
    pub stack: Vec<Typ>,
    pub errors: Vec<Error>,
    pub trace: Vec<(usize, Vec<Typ>)>,
}

/// Copies a type list.
pub fn clone_typs(v: &Vec<Typ>) -> (r: Vec<Typ>)
    ensures
        r@ == v@,
{
    let mut out: Vec<Typ> = Vec::new();
    let mut i: usize = 0;
    while i < v.len()
        invariant
            0 <= i <= v@.len(),
            out@ == v@.take(i as int),
        decreases v@.len() - i,
    {
        out.push(v[i]);
        proof {
            assert(v@.take(i + 1) =~= v@.take(i as int).push(v@[i as int]));
        }
        i += 1;
    }
    proof {
        assert(v@.take(v@.len() as int) =~= v@);
    }
    out
}

fn slot_contains(slot: &Vec<Typ>, t: Typ) -> (r: bool)
    ensures
        r == slot@.contains(t),
{
    let mut i: usize = 0;
    while i < slot.len()
        invariant
            0 <= i <= slot@.len(),
            forall|j: int| 0 <= j < i ==> slot@[j] != t,
        decreases slot@.len() - i,
    {
        if slot[i] == t {
            return true;
        }
        i += 1;
    }
    false
}

fn union_string_from(slot: &Vec<Typ>, i: usize) -> (r: String)
    requires
        i <= slot@.len(),
    ensures
        r@ == union_text(slot@.skip(i as int)),
    decreases slot@.len() - i,
{
    proof {
        if i < slot@.len() {
            assert(slot@.skip(i as int)[0] == slot@[i as int]);
            assert(slot@.skip(i as int).drop_first() =~= slot@.skip(i + 1));
        }
    }
    if i >= slot.len() {
        proof {
            assert(slot@.skip(i as int) =~= Seq::<Typ>::empty());
        }
        String::new()
    } else if i + 1 == slot.len() {
        slot[i].to_string()
    } else {
        let mut s = slot[i].to_string();
        s.append("|");
        s.append(union_string_from(slot, i + 1).as_str());
        proof {
            assert(s@ =~= union_text(slot@.skip(i as int)));
        }
        s
    }
}

fn allowed_string_from(allowed: &Vec<Vec<Typ>>, i: usize) -> (r: String)
    requires
        i <= allowed@.len(),
    ensures
        r@ == allowed_text(crate::tables::typss(allowed@).skip(i as int)),
    decreases allowed@.len() - i,
{
    proof {
        if i < allowed@.len() {
            assert(crate::tables::typss(allowed@).skip(i as int)[0] == allowed@[i as int]@);
            assert(crate::tables::typss(allowed@).skip(i as int).drop_first()
                =~= crate::tables::typss(allowed@).skip(i + 1));
        }
    }
    if i >= allowed.len() {
        proof {
            assert(crate::tables::typss(allowed@).skip(i as int) =~= Seq::<Seq<Typ>>::empty());
        }
        String::new()
    } else if i + 1 == allowed.len() {
        let r = union_string_from(&allowed[i], 0);
        proof {
            assert(allowed@[i as int]@.skip(0) =~= allowed@[i as int]@);
        }
        r
    } else {
        let mut s = union_string_from(&allowed[i], 0);
        s.append(", ");
        s.append(allowed_string_from(allowed, i + 1).as_str());
        proof {
            assert(allowed@[i as int]@.skip(0) =~= allowed@[i as int]@);
            assert(s@ =~= allowed_text(crate::tables::typss(allowed@).skip(i as int)));
        }
        s
    }
}

fn found_string_from(found: &Vec<Typ>, i: usize) -> (r: String)
    requires
        i <= found@.len(),
    ensures
        r@ == found_text(found@.skip(i as int)),
    decreases found@.len() - i,
{
    proof {
        if i < found@.len() {
            assert(found@.skip(i as int)[0] == found@[i as int]);
            assert(found@.skip(i as int).drop_first() =~= found@.skip(i + 1));
        }
    }
    if i >= found.len() {
        proof {
            assert(found@.skip(i as int) =~= Seq::<Typ>::empty());
        }
        String::new()
    } else if i + 1 == found.len() {
        found[i].to_string()
    } else {
        let mut s = found[i].to_string();
        s.append(", ");
        s.append(found_string_from(found, i + 1).as_str());
        proof {
            assert(s@ =~= found_text(found@.skip(i as int)));
        }
        s
    }
}

impl TypeChecker {
    /// A fresh checker: empty stack, no diagnostics, no trace.
    pub fn new() -> (r: TypeChecker)
        ensures
            r.stack@ == Seq::<Typ>::empty(),
            r.errors@ == Seq::<Error>::empty(),
            r.trace@ == Seq::<(usize, Vec<Typ>)>::empty(),
    {
        TypeChecker { stack: Vec::new(), errors: Vec::new(), trace: Vec::new() }
    }

    /// The union list rendered as `a|b, c`, for diagnostics.
    pub fn allowed_types_to_string(&self, allowed: Vec<Vec<Typ>>) -> (r: String)
        ensures
            r@ == allowed_text(crate::tables::typss(allowed@)),
    {
        let r = allowed_string_from(&allowed, 0);
        proof {
            assert(crate::tables::typss(allowed@).skip(0) =~= crate::tables::typss(allowed@));
        }
        r
    }

    /// The found-type list rendered as `a, b`, for diagnostics.
    pub fn found_types_to_string(&self, found: Vec<Typ>) -> (r: String)
        ensures
            r@ == found_text(found@),
    {
        let r = found_string_from(&found, 0);
        proof {
            assert(found@.skip(0) =~= found@);
        }
        r
    }

    /// Refuses an operation on a stack shorter than it needs.
    pub fn check_stack_len(&self, keyword: &str, min_len: usize, tok: &crate::parser::token::Token) -> (r: Result<(), Error>)
        ensures
            (if self.stack@.len() < min_len {
                r matches Err(e) && crate::parser::token::error_matches(
                    e,
                    tok_err(*tok, short_stack_message(keyword@, min_len as int, self.stack@.len() as int)),
                )
            } else {
                r is Ok
            }),
    {
        if self.stack.len() < min_len {
            let mut m = String::from_str("You cannot use `");
            m.append(keyword);
            m.append("` because the minimum length of the stack is ");
            m.append(crate::strings::usize_string(min_len).as_str());
            m.append(" but ");
            m.append(crate::strings::usize_string(self.stack.len()).as_str());
            m.append(" value was found on the stack.");
            let token_len = tok.len();
            proof {
                assert(m@ =~= short_stack_message(
                    keyword@,
                    min_len as int,
                    self.stack@.len() as int,
                ));
            }
            Err(Error::new(m, (tok.row, tok.col, tok.filename.clone()), token_len))
        } else {
            Ok(())
        }
    }

    /// Pops one type per slot and holds each against its union: a short
    /// stack is refused outright, a union violation pops anyway, collects a
    /// diagnostic, and answers `false`.
    pub fn check_stack(&mut self, keyword: &str, typs_allowed: Vec<Vec<Typ>>, tok: &crate::parser::token::Token) -> (r: Result<bool, Error>)
        ensures
            ({
                let n = typs_allowed@.len();
                let pre = old(self).stack@;
                &&& final(self).trace == old(self).trace
                &&& (if pre.len() < n {
                    (r matches Err(e) && crate::parser::token::error_matches(
                        e,
                        tok_err(
                            *tok,
                            short_stack_message(keyword@, n as int, pre.len() as int),
                        ),
                    )) && final(self).stack == old(self).stack && final(self).errors
                        == old(self).errors
                } else {
                    final(self).stack@ == pre.take(pre.len() - n) && (if any_mismatch(
                        pre,
                        crate::tables::typss(typs_allowed@),
                    ) {
                        r == Ok::<bool, Error>(false) && final(self).errors@ == old(
                            self,
                        ).errors@.push(final(self).errors@.last()) && crate::parser::token::error_matches(
                            final(self).errors@.last(),
                            tok_err(
                                *tok,
                                mismatch_message(
                                    keyword@,
                                    crate::tables::typss(typs_allowed@),
                                    popped_of(pre, n as int),
                                ),
                            ),
                        )
                    } else {
                        r == Ok::<bool, Error>(true) && final(self).errors == old(self).errors
                    })
                })
            }),
    {
        let n = typs_allowed.len();
        if self.stack.len() < n {
            match self.check_stack_len(keyword, n, tok) {
                Err(e) => {
                    return Err(e);
                },
                Ok(()) => {
                    return Err(Error::command_line(String::new()));
                },
            }
        }
        let ghost pre = self.stack@;
        let mut found_types: Vec<Typ> = Vec::new();
        let mut error = false;
        let mut q: usize = 0;
        while q < n
            invariant
                0 <= q <= n,
                n == typs_allowed@.len(),
                n <= pre.len(),
                pre == old(self).stack@,
                self.stack@ == pre.take(pre.len() - q),
                found_types@ == popped_of(pre, q as int),
                self.errors == old(self).errors,
                self.trace == old(self).trace,
                error == exists|i: int|
                    0 <= i < q && !compatible(
                        #[trigger] crate::tables::typss(typs_allowed@)[i],
                        pre[pre.len() - 1 - i],
                    ),
            decreases n - q,
        {
            let typ = match self.stack.pop() {
                Some(t) => t,
                None => {
                    proof {
                        assert(false);
                    }
                    Typ::Any
                },
            };
            proof {
                assert(pre.take(pre.len() - q).last() == pre[pre.len() - 1 - q]);
                assert(pre.take(pre.len() - q).drop_last() =~= pre.take(pre.len() - (q + 1)));
                assert(found_types@.push(typ) =~= popped_of(pre, q + 1));
            }
            found_types.push(typ);
            let slot = &typs_allowed[q];
            let ok = slot_contains(slot, typ) || slot_contains(slot, Typ::Any) || typ == Typ::Any;
            proof {
                assert(crate::tables::typss(typs_allowed@)[q as int] == typs_allowed@[q as int]@);
                assert(ok == compatible(
                    crate::tables::typss(typs_allowed@)[q as int],
                    pre[pre.len() - 1 - q],
                ));
            }
            if !ok {
                error = true;
            }
            q += 1;
        }
        if error {
            let mut m = String::from_str("To use `");
            m.append(keyword);
            m.append("` you need values of type `");
            m.append(self.allowed_types_to_string(typs_allowed).as_str());
            m.append("` on the stack but values of types `");
            m.append(self.found_types_to_string(found_types).as_str());
            m.append("` were found");
            let token_len = tok.len();
            proof {
                assert(m@ =~= mismatch_message(
                    keyword@,
                    crate::tables::typss(typs_allowed@),
                    popped_of(pre, n as int),
                ));
            }
            self.errors.push(Error::new(m, (tok.row, tok.col, tok.filename.clone()), token_len));
            Ok(false)
        } else {
            Ok(true)
        }
    }

    /// Holds a function body's final stack against its declared returns; the
    /// first violating slot is a fatal diagnostic.
    pub fn check_return_stack(&mut self, keyword: &str, typs_allowed: Vec<Vec<Typ>>, tok: &crate::parser::token::Token) -> (r: Result<(), Error>)
        requires
            old(self).stack@.len() >= typs_allowed@.len(),
        ensures
            final(self).errors == old(self).errors,
            final(self).trace == old(self).trace,
            ({
                let n = typs_allowed@.len();
                let pre = old(self).stack@;
                if first_mismatch_from(pre, crate::tables::typss(typs_allowed@), 0) is Some {
                    let i = first_mismatch_from(pre, crate::tables::typss(typs_allowed@), 0)->0;
                    r matches Err(e) && crate::parser::token::error_matches(
                        e,
                        tok_err(
                            *tok,
                            return_mismatch_message(
                                keyword@,
                                crate::tables::typss(typs_allowed@),
                                popped_of(pre, i + 1),
                            ),
                        ),
                    ) && final(self).stack@ == pre.take(pre.len() - (i + 1))
                } else {
                    r is Ok && final(self).stack@ == pre.take(pre.len() - n)
                }
            }),
    {
        let n = typs_allowed.len();
        let ghost pre = self.stack@;
        let mut found_types: Vec<Typ> = Vec::new();
        let mut q: usize = 0;
        while q < n
            invariant
                0 <= q <= n,
                n == typs_allowed@.len(),
                n <= pre.len(),
                pre == old(self).stack@,
                self.stack@ == pre.take(pre.len() - q),
                found_types@ == popped_of(pre, q as int),
                self.errors == old(self).errors,
                self.trace == old(self).trace,
                first_mismatch_from(pre, crate::tables::typss(typs_allowed@), 0)
                    == first_mismatch_from(pre, crate::tables::typss(typs_allowed@), q as int),
            decreases n - q,
        {
            let typ = match self.stack.pop() {
                Some(t) => t,
                None => {
                    proof {
                        assert(false);
                    }
                    Typ::Any
                },
            };
            proof {
                assert(pre.take(pre.len() - q).last() == pre[pre.len() - 1 - q]);
                assert(pre.take(pre.len() - q).drop_last() =~= pre.take(pre.len() - (q + 1)));
                assert(found_types@.push(typ) =~= popped_of(pre, q + 1));
            }
            found_types.push(typ);
            let slot = &typs_allowed[q];
            let ok = slot_contains(slot, typ) || slot_contains(slot, Typ::Any) || typ == Typ::Any;
            proof {
                assert(crate::tables::typss(typs_allowed@)[q as int] == typs_allowed@[q as int]@);
            }
            if !ok {
                proof {
                    assert(!compatible(
                        crate::tables::typss(typs_allowed@)[q as int],
                        pre[pre.len() - 1 - q],
                    ));
                    assert(first_mismatch_from(pre, crate::tables::typss(typs_allowed@), q as int)
                        == Some(q as int));
                }
                let mut m = String::from_str("The function `");
                m.append(keyword);
                m.append("` should return types of `");
                m.append(self.allowed_types_to_string(typs_allowed).as_str());
                m.append("` but returned types of `");
                m.append(self.found_types_to_string(found_types).as_str());
                m.append("` on the stack.");
                let token_len = tok.len();
                proof {
                    assert(m@ =~= return_mismatch_message(
                        keyword@,
                        crate::tables::typss(typs_allowed@),
                        popped_of(pre, q + 1),
                    ));
                }
                let e = Error::new(m, (tok.row, tok.col, tok.filename.clone()), token_len);
                proof {
                    assert(first_mismatch_from(pre, crate::tables::typss(typs_allowed@), 0)
                        == Some(q as int));
                    assert(self.stack@ == pre.take(pre.len() - (q + 1)));
                    assert(crate::parser::token::error_matches(
                        e,
                        tok_err(
                            *tok,
                            return_mismatch_message(
                                keyword@,
                                crate::tables::typss(typs_allowed@),
                                popped_of(pre, q + 1),
                            ),
                        ),
                    ));
                }
                return Err(e);
            }
            q += 1;
        }
        Ok(())
    }
}

/// The first return slot whose popped type violates its union, from `i` on.
pub open spec fn first_mismatch_from(stack: Seq<Typ>, allowed: Seq<Seq<Typ>>, i: int) -> Option<
    int,
>
    decreases allowed.len() - i,
{
    if i < 0 || i >= allowed.len() {
        None
    } else if !compatible(allowed[i], stack[stack.len() - 1 - i]) {
        Some(i)
    } else {
        first_mismatch_from(stack, allowed, i + 1)
    }
}

/// The executable state matches the walk state.
pub open spec fn tc_inv(
    stack: Seq<Typ>,
    vars: Seq<(String, Typ)>,
    current: Option<String>,
    new_errors: Seq<Error>,
    cur: TcState,
) -> bool {
    &&& cur.fatal is None
    &&& stack == cur.stack
    &&& vars.len() == cur.vars.len()
    &&& forall|i: int|
        0 <= i < vars.len() ==> (#[trigger] vars[i]).0@ == cur.vars[i].0 && vars[i].1
            == cur.vars[i].1
    &&& (match current {
        Some(v) => cur.current matches Some(cv) && v@ == cv,
        None => cur.current is None,
    })
    &&& new_errors.len() == cur.errors.len()
    &&& forall|i: int|
        0 <= i < new_errors.len() ==> crate::parser::token::error_matches(
            #[trigger] new_errors[i],
            cur.errors[i],
        )
}

impl TypeChecker {
    /// Walks the tokens in `[start, end)`, abstractly interpreting each
    /// token's stack effect from the current type stack. A fatal diagnostic
    /// stops the walk at once and is the sole error returned; otherwise any
    /// diagnostics collected (including ones already held) are returned
    /// together. With `debug`, each visited position and the stack after it
    /// are appended to the trace.
    #[verifier::rlimit(100)]
    #[verifier::spinoff_prover]
    pub fn check(
        &mut self,
        tokens: &Vec<crate::parser::token::Token>,
        functions: &Vec<(String, crate::tables::FnEntry)>,
        consts: &Vec<(String, i64)>,
        start: usize,
        end: usize,
        debug: bool,
    ) -> (r: Result<(), Vec<Error>>)
        requires
            start <= end,
            end <= tokens@.len(),
            walk_jumps_forward(tokens@, start as int, end as int),
        ensures
            ({
                let w = tc_fold(
                    TcState {
                        stack: old(self).stack@,
                        vars: Seq::empty(),
                        current: None,
                        errors: Seq::empty(),
                        fatal: None,
                        idx: start as int,
                    },
                    tokens@,
                    functions@,
                    consts@,
                    end as int,
                );
                &&& final(self).stack@ == w.stack
                &&& (match w.fatal {
                    Some(f) => r matches Err(es) && es@.len() == 1
                        && crate::parser::token::error_matches(es@[0], f),
                    None => (if w.errors.len() + old(self).errors@.len() > 0 {
                        (r matches Err(es) && es@.len() == old(self).errors@.len() + w.errors.len()
                            && (forall|i: int|
                            0 <= i < old(self).errors@.len() ==> #[trigger] es@[i] == old(
                                self,
                            ).errors@[i]) && (forall|j: int|
                            0 <= j < w.errors.len()
                                ==> crate::parser::token::error_matches(
                                #[trigger] es@[old(self).errors@.len() + j],
                                w.errors[j],
                            ))) && final(self).errors@.len() == 0
                    } else {
                        r is Ok && final(self).errors@.len() == 0
                    }),
                })
            }),
    {
        let ghost target = tc_fold(
            TcState {
                stack: self.stack@,
                vars: Seq::empty(),
                current: None,
                errors: Seq::empty(),
                fatal: None,
                idx: start as int,
            },
            tokens@,
            functions@,
            consts@,
            end as int,
        );
        let mut variables_types: Vec<(String, Typ)> = Vec::new();
        let mut current_variable: Option<String> = None;
        let mut idx: usize = start;
        let ghost mut cur = TcState {
            stack: self.stack@,
            vars: Seq::empty(),
            current: None,
            errors: Seq::empty(),
            fatal: None,
            idx: start as int,
        };
        let ghost old_errors = self.errors@;
        proof {
            assert(self.errors@.skip(old_errors.len() as int) =~= Seq::<Error>::empty());
        }
        while idx < end
            invariant
                start <= idx,
                end <= tokens@.len(),
                walk_jumps_forward(tokens@, start as int, end as int),
                cur.idx == idx as int || (cur.idx >= end && idx as int >= end),
                idx <= end,
                idx >= start,
                old_errors == old(self).errors@,
                self.errors@.len() == old_errors.len() + cur.errors.len(),
                forall|i: int| 0 <= i < old_errors.len() ==> #[trigger] self.errors@[i] == old_errors[i],
                tc_inv(
                    self.stack@,
                    variables_types@,
                    current_variable,
                    self.errors@.skip(old_errors.len() as int),
                    cur,
                ),
                tc_fold(cur, tokens@, functions@, consts@, end as int) == target,
                target == tc_fold(
                    TcState {
                        stack: old(self).stack@,
                        vars: Seq::empty(),
                        current: None,
                        errors: Seq::empty(),
                        fatal: None,
                        idx: start as int,
                    },
                    tokens@,
                    functions@,
                    consts@,
                    end as int,
                ),
            decreases end - idx,
        {
            let ghost pre = cur;
            let ghost post = tc_step(pre, tokens@, functions@, consts@);
            let ghost epre = self.errors@;
            proof {
                assert(tc_fold(pre, tokens@, functions@, consts@, end as int) == tc_fold(
                    post,
                    tokens@,
                    functions@,
                    consts@,
                    end as int,
                ));
                cur = post;
            }
            let token = &tokens[idx];
            let mut was_identifier = false;
            match &token.typ {
                crate::parser::typ::Typ::Int(_) => {
                    self.stack.push(Typ::Int);
                },
                crate::parser::typ::Typ::Str(_) => {
                    self.stack.push(Typ::Str);
                },
                crate::parser::typ::Typ::Memory(tok) => {
                    match tok {
                        crate::token::mem::Token::Mem | crate::token::mem::Token::InternalMem => {
                            self.stack.push(Typ::Ptr);
                        },
                        crate::token::mem::Token::Dup => {
                            match self.check_stack_len("dup", 1, token) {
                                Ok(()) => {
                                    let top = self.stack[self.stack.len() - 1];
                                    self.stack.push(top);
                                },
                                Err(e) => {
                                    return Err(vec_of(e));
                                },
                            }
                        },
                        crate::token::mem::Token::Drop => {
                            let mut allowed: Vec<Vec<Typ>> = Vec::new();
                            allowed.push(vec_typ1(Typ::Any));
                            proof {
                                assert(crate::tables::typss(allowed@) =~= seq![seq![Typ::Any]]);
                            }
                            match self.check_stack("drop", allowed, token) {
                                Ok(_) => {},
                                Err(e) => {
                                    return Err(vec_of(e));
                                },
                            }
                        },
                        crate::token::mem::Token::Fetch => {
                            proof {
                                if current_variable is Some {
                                    lemma_var_lookup_agree(
                                        variables_types@,
                                        pre.vars,
                                        current_variable->0@,
                                    );
                                }
                            }
                            match &current_variable {
                                Some(variable) => {
                                    match lookup_var(&variables_types, variable.as_str()) {
                                        Some(typ) => {
                                            self.stack.push(typ);
                                        },
                                        None => {
                                            let mut m = String::from_str(
                                                "You have to define a variable before using it, but ",
                                            );
                                            m.append(variable.as_str());
                                            m.append(" was not found before.");
                                            let token_len = token.len();
                                            proof {
                                                assert(m@
                                                    =~= "You have to define a variable before using it, but "@
                                                    + current_variable->0@
                                                    + " was not found before."@);
                                            }
                                            return Err(
                                                vec_of(
                                                    Error::new(
                                                        m,
                                                        (
                                                            token.row,
                                                            token.col,
                                                            token.filename.clone(),
                                                        ),
                                                        token_len,
                                                    ),
                                                ),
                                            );
                                        },
                                    }
                                },
                                None => {
                                    let token_len = token.len();
                                    return Err(
                                        vec_of(
                                            Error::new(
                                                String::from_str(
                                                    "You need an identifier before the `put` keyword.",
                                                ),
                                                (token.row, token.col, token.filename.clone()),
                                                token_len,
                                            ),
                                        ),
                                    );
                                },
                            }
                        },
                        crate::token::mem::Token::Load(_) => {
                            let mut allowed: Vec<Vec<Typ>> = Vec::new();
                            allowed.push(vec_typ2(Typ::Ptr, Typ::Int));
                            proof {
                                assert(crate::tables::typss(allowed@) =~= seq![
                                    seq![Typ::Ptr, Typ::Int],
                                ]);
                            }
                            match self.check_stack("load", allowed, token) {
                                Ok(_) => {
                                    self.stack.push(Typ::Any);
                                },
                                Err(e) => {
                                    return Err(vec_of(e));
                                },
                            }
                        },
                        crate::token::mem::Token::Over => {
                            match self.check_stack_len("over", 2, token) {
                                Ok(()) => {
                                    let t = self.stack[self.stack.len() - 2];
                                    self.stack.push(t);
                                },
                                Err(e) => {
                                    return Err(vec_of(e));
                                },
                            }
                        },
                        crate::token::mem::Token::Put => {
                            match &current_variable {
                                Some(variable) => {
                                    if self.stack.len() > 0 {
                                        let typ = match self.stack.pop() {
                                            Some(t) => t,
                                            None => Typ::Any,
                                        };
                                        variables_types.push((variable.clone(), typ));
                                    } else {
                                        let token_len = token.len();
                                        return Err(
                                            vec_of(
                                                Error::new(
                                                    String::from_str(
                                                        "You need a value on the stack to put a variable, but the stack was empty.",
                                                    ),
                                                    (
                                                        token.row,
                                                        token.col,
                                                        token.filename.clone(),
                                                    ),
                                                    token_len,
                                                ),
                                            ),
                                        );
                                    }
                                },
                                None => {
                                    let token_len = token.len();
                                    return Err(
                                        vec_of(
                                            Error::new(
                                                String::from_str(
                                                    "You need an identifier before the `put` keyword.",
                                                ),
                                                (token.row, token.col, token.filename.clone()),
                                                token_len,
                                            ),
                                        ),
                                    );
                                },
                            }
                        },
                        crate::token::mem::Token::Rot => {
                            match self.check_stack_len("rot", 3, token) {
                                Ok(()) => {
                                    let len = self.stack.len();
                                    let tmp = self.stack[len - 3];
                                    let b = self.stack[len - 2];
                                    let c = self.stack[len - 1];
                                    self.stack[len - 3] = b;
                                    self.stack[len - 2] = c;
                                    self.stack[len - 1] = tmp;
                                },
                                Err(e) => {
                                    return Err(vec_of(e));
                                },
                            }
                        },
                        crate::token::mem::Token::Store(_) => {
                            let mut allowed: Vec<Vec<Typ>> = Vec::new();
                            allowed.push(vec_typ2(Typ::Ptr, Typ::Int));
                            allowed.push(vec_typ1(Typ::Any));
                            proof {
                                assert(crate::tables::typss(allowed@) =~= seq![
                                    seq![Typ::Ptr, Typ::Int],
                                    seq![Typ::Any],
                                ]);
                            }
                            match self.check_stack("store", allowed, token) {
                                Ok(_) => {},
                                Err(e) => {
                                    return Err(vec_of(e));
                                },
                            }
                        },
                        crate::token::mem::Token::Swap => {
                            match self.check_stack_len("swap", 2, token) {
                                Ok(()) => {
                                    let len = self.stack.len();
                                    let a = self.stack[len - 2];
                                    let b = self.stack[len - 1];
                                    self.stack[len - 2] = b;
                                    self.stack[len - 1] = a;
                                },
                                Err(e) => {
                                    return Err(vec_of(e));
                                },
                            }
                        },
                    }
                },
                crate::parser::typ::Typ::Ignore => {},
                crate::parser::typ::Typ::Arithmetic(_) => {
                    let is_ptr = self.stack.len() >= 2 && (matches!(
                        self.stack[self.stack.len() - 1],
                        Typ::Ptr,
                    ) || matches!(self.stack[self.stack.len() - 2], Typ::Ptr));
                    let mut allowed: Vec<Vec<Typ>> = Vec::new();
                    allowed.push(vec_typ2(Typ::Int, Typ::Ptr));
                    allowed.push(vec_typ2(Typ::Int, Typ::Ptr));
                    proof {
                        assert(crate::tables::typss(allowed@) =~= seq![
                            seq![Typ::Int, Typ::Ptr],
                            seq![Typ::Int, Typ::Ptr],
                        ]);
                    }
                    match self.check_stack("arithmetic", allowed, token) {
                        Ok(_) => {
                            if is_ptr {
                                self.stack.push(Typ::Ptr);
                            } else {
                                self.stack.push(Typ::Int);
                            }
                        },
                        Err(e) => {
                            return Err(vec_of(e));
                        },
                    }
                },
                crate::parser::typ::Typ::Comparison(_) => {
                    let mut allowed: Vec<Vec<Typ>> = Vec::new();
                    allowed.push(vec_typ2(Typ::Int, Typ::Ptr));
                    allowed.push(vec_typ2(Typ::Int, Typ::Ptr));
                    proof {
                        assert(crate::tables::typss(allowed@) =~= seq![
                            seq![Typ::Int, Typ::Ptr],
                            seq![Typ::Int, Typ::Ptr],
                        ]);
                    }
                    match self.check_stack("cmp", allowed, token) {
                        Ok(_) => {
                            self.stack.push(Typ::Int);
                        },
                        Err(e) => {
                            return Err(vec_of(e));
                        },
                    }
                },
                crate::parser::typ::Typ::ControlFlow(tok) => {
                    match tok {
                        crate::token::control_flow::Token::If => {
                            let mut allowed: Vec<Vec<Typ>> = Vec::new();
                            allowed.push(vec_typ1(Typ::Int));
                            proof {
                                assert(crate::tables::typss(allowed@) =~= seq![seq![Typ::Int]]);
                            }
                            match self.check_stack("if", allowed, token) {
                                Ok(_) => {},
                                Err(e) => {
                                    return Err(vec_of(e));
                                },
                            }
                        },
                        crate::token::control_flow::Token::Else => {
                            if let Some(jmp_idx) = token.jmp_idx {
                                if jmp_idx >= idx {
                                    idx = if jmp_idx < end {
                                        jmp_idx
                                    } else {
                                        end
                                    };
                                }
                            }
                        },
                        crate::token::control_flow::Token::Do => {
                            let mut allowed: Vec<Vec<Typ>> = Vec::new();
                            allowed.push(vec_typ1(Typ::Int));
                            proof {
                                assert(crate::tables::typss(allowed@) =~= seq![seq![Typ::Int]]);
                            }
                            match self.check_stack("do", allowed, token) {
                                Ok(_) => {
                                    if let Some(jmp_idx) = token.jmp_idx {
                                        if jmp_idx >= idx {
                                            idx = if jmp_idx < end {
                                                jmp_idx
                                            } else {
                                                end
                                            };
                                        }
                                    }
                                },
                                Err(e) => {
                                    return Err(vec_of(e));
                                },
                            }
                        },
                        crate::token::control_flow::Token::Fn
                        | crate::token::control_flow::Token::Const => {
                            if let Some(jmp_idx) = token.jmp_idx {
                                if jmp_idx >= idx {
                                    idx = if jmp_idx < end {
                                        jmp_idx
                                    } else {
                                        end
                                    };
                                }
                            }
                        },
                        _ => {},
                    }
                },
                crate::parser::typ::Typ::Helper(_) => {},
                crate::parser::typ::Typ::Identifier(identifier) => {
                    was_identifier = true;
                    match crate::tables::find_fn(functions, identifier.as_str()) {
                        Some(func) => {
                            let args = crate::tables::clone_typss(&func.args);
                            let ret_slots = crate::tables::clone_typss(&func.returns);
                            match self.check_stack(identifier.as_str(), args, token) {
                                Ok(_) => {
                                    let is_void = ret_slots.len() == 1 && ret_slots[0].len() == 1
                                        && matches!(ret_slots[0][0], Typ::Void);
                                    proof {
                                        let rts = crate::tables::typss(ret_slots@);
                                        if is_void {
                                            assert(rts[0] == ret_slots@[0]@);
                                            assert(ret_slots@[0]@.len() == 1);
                                            assert(ret_slots@[0]@[0] == Typ::Void);
                                            assert(collapse(rts[0]) == Typ::Void);
                                            assert(collapsed(rts) =~= seq![Typ::Void]);
                                        } else {
                                            if collapsed(rts) == seq![Typ::Void] {
                                                assert(rts.len() == 1);
                                                assert(rts[0] == ret_slots@[0]@);
                                                assert(collapsed(rts)[0] == collapse(rts[0]));
                                                assert(collapse(rts[0]) == Typ::Void);
                                                assert(false);
                                            }
                                        }
                                    }
                                    if !is_void {
                                        let mut q: usize = 0;
                                        let ghost mid = self.stack@;
                                        let ghost errs0 = self.errors@;
                                        let ghost trace0 = self.trace@;
                                        while q < ret_slots.len()
                                            invariant
                                                0 <= q <= ret_slots@.len(),
                                                self.stack@ == mid + collapsed(
                                                    crate::tables::typss(ret_slots@),
                                                ).take(q as int),
                                                self.errors@ == errs0,
                                                self.trace@ == trace0,
                                            decreases ret_slots@.len() - q,
                                        {
                                            let slot = &ret_slots[q];
                                            let t = if slot.len() == 1 {
                                                slot[0]
                                            } else {
                                                Typ::Any
                                            };
                                            self.stack.push(t);
                                            proof {
                                                assert(crate::tables::typss(ret_slots@)[q as int]
                                                    == ret_slots@[q as int]@);
                                                assert(collapsed(
                                                    crate::tables::typss(ret_slots@),
                                                ).take(q + 1) =~= collapsed(
                                                    crate::tables::typss(ret_slots@),
                                                ).take(q as int).push(t));
                                            }
                                            q += 1;
                                        }
                                        proof {
                                            assert(collapsed(
                                                crate::tables::typss(ret_slots@),
                                            ).take(ret_slots@.len() as int) =~= collapsed(
                                                crate::tables::typss(ret_slots@),
                                            ));
                                        }
                                    }
                                },
                                Err(e) => {
                                    return Err(vec_of(e));
                                },
                            }
                        },
                        None => {
                            match crate::tables::find_const(consts, identifier.as_str()) {
                                Some(_) => {
                                    self.stack.push(Typ::Int);
                                },
                                None => {
                                    current_variable = Some(identifier.clone());
                                },
                            }
                        },
                    }
                },
                crate::parser::typ::Typ::Sys(s) => {
                    match s {
                        crate::token::sys::Token::Sys(sys_name) => {
                            match crate::tables::find_const(consts, sys_name.as_str()) {
                                Some(value) => {
                                    if value > 0 {
                                        if (self.stack.len() as u64) < (value as u64) {
                                            let mut m = String::from_str("You cannot use `");
                                            m.append(sys_name.as_str());
                                            m.append(
                                                "` because the minimum length of the stack is ",
                                            );
                                            m.append(
                                                crate::strings::u64_string(
                                                    value as u64,
                                                ).as_str(),
                                            );
                                            m.append(" but ");
                                            m.append(
                                                crate::strings::usize_string(
                                                    self.stack.len(),
                                                ).as_str(),
                                            );
                                            m.append(" value was found on the stack.");
                                            let token_len = token.len();
                                            proof {
                                                assert(m@ =~= short_stack_message(
                                                    sys_name@,
                                                    value as int,
                                                    self.stack@.len() as int,
                                                ));
                                            }
                                            return Err(
                                                vec_of(
                                                    Error::new(
                                                        m,
                                                        (
                                                            token.row,
                                                            token.col,
                                                            token.filename.clone(),
                                                        ),
                                                        token_len,
                                                    ),
                                                ),
                                            );
                                        }
                                        let k = value as usize;
                                        let newlen = self.stack.len() - k;
                                        self.stack.truncate(newlen);
                                        proof {
                                            assert(self.stack@ =~= pre.stack.take(
                                                pre.stack.len() - value,
                                            ));
                                        }
                                    }
                                    self.stack.push(Typ::Any);
                                },
                                None => {
                                    let mut m = String::from_str(
                                        "Before using a sys call, you must defined a const with it's number of arguments. The const must have the same name as the sys call does. `",
                                    );
                                    m.append(sys_name.as_str());
                                    m.append("` has no const assossiated.");
                                    let token_len = token.len();
                                    proof {
                                        assert(m@
                                            =~= crate::token::sys::sys_missing_const_message(
                                            sys_name@,
                                        ));
                                    }
                                    return Err(
                                        vec_of(
                                            Error::new(
                                                m,
                                                (
                                                    token.row,
                                                    token.col,
                                                    token.filename.clone(),
                                                ),
                                                token_len,
                                            ),
                                        ),
                                    );
                                },
                            }
                        },
                        crate::token::sys::Token::Include => {},
                    }
                },
            }
            if !was_identifier {
                current_variable = None;
            }
            proof {
                assert(cur.fatal is None);
                assert(self.stack@ == cur.stack);
                assert(variables_types@.len() == cur.vars.len());
                assert((match current_variable {
                    Some(v) => cur.current matches Some(cv) && v@ == cv,
                    None => cur.current is None,
                }));
                assert(self.errors@.len() == old_errors.len() + cur.errors.len());
                assert(forall|i: int|
                    0 <= i < self.errors@.len() - old_errors.len()
                        ==> #[trigger] self.errors@.skip(old_errors.len() as int)[i]
                        == self.errors@[old_errors.len() + i]);
                assert(forall|i: int|
                    0 <= i < variables_types@.len() ==> (#[trigger] variables_types@[i]).0@
                        == cur.vars[i].0 && variables_types@[i].1 == cur.vars[i].1);
                assert forall|i: int|
                    0 <= i < self.errors@.len() - old_errors.len()
                        implies crate::parser::token::error_matches(
                    #[trigger] self.errors@.skip(old_errors.len() as int)[i],
                    cur.errors[i],
                ) by {
                    let n = old_errors.len() as int;
                    assert(self.errors@.skip(n)[i] == self.errors@[n + i]);
                    if n + i < epre.len() {
                        assert(self.errors@[n + i] == epre[n + i]);
                        assert(crate::parser::token::error_matches(
                            epre.skip(n)[i],
                            pre.errors[i],
                        ));
                        assert(epre.skip(n)[i] == epre[n + i]);
                        assert(cur.errors[i] == pre.errors[i]);
                    }
                }
            }
            if debug {
                let snapshot = clone_typs(&self.stack);
                self.trace.push((idx, snapshot));
            }
            if idx < end {
                idx += 1;
            }
        }
        proof {
            assert(cur == target);
        }
        if self.errors.len() > 0 {
            let ghost es0 = self.errors@;
            let mut out: Vec<Error> = Vec::new();
            core::mem::swap(&mut out, &mut self.errors);
            proof {
                assert(out@ == es0);
                assert forall|j: int|
                    0 <= j < cur.errors.len() implies crate::parser::token::error_matches(
                    #[trigger] out@[old_errors.len() + j],
                    cur.errors[j],
                ) by {
                    assert(crate::parser::token::error_matches(
                        es0.skip(old_errors.len() as int)[j],
                        cur.errors[j],
                    ));
                    assert(es0.skip(old_errors.len() as int)[j] == es0[old_errors.len() as int
                        + j]);
                }
            }
            return Err(out);
        }
        Ok(())
    }
}

/// A one-element error list.
fn vec_of(e: Error) -> (r: Vec<Error>)
    ensures
        r@.len() == 1,
        r@[0] == e,
{
    let mut v: Vec<Error> = Vec::new();
    v.push(e);
    v
}

fn vec_typ1(a: Typ) -> (r: Vec<Typ>)
    ensures
        r@ == seq![a],
{
    let mut v: Vec<Typ> = Vec::new();
    v.push(a);
    proof {
        assert(v@ =~= seq![a]);
    }
    v
}

fn vec_typ2(a: Typ, b: Typ) -> (r: Vec<Typ>)
    ensures
        r@ == seq![a, b],
{
    let mut v: Vec<Typ> = Vec::new();
    v.push(a);
    v.push(b);
    proof {
        assert(v@ =~= seq![a, b]);
    }
    v
}

/// The type last recorded for a variable, as the executable lookup.
fn lookup_var(vars: &Vec<(String, Typ)>, name: &str) -> (r: Option<Typ>)
    ensures
        r == var_lookup_exec(vars@, name@),
{
    let n = vars.len();
    let mut i: usize = n;
    proof {
        assert(vars@.take(n as int) =~= vars@);
    }
    while i > 0
        invariant
            0 <= i <= n,
            n == vars@.len(),
            var_lookup_exec(vars@, name@) == var_lookup_exec(vars@.take(i as int), name@),
        decreases i,
    {
        proof {
            assert(vars@.take(i as int).last() == vars@[i - 1]);
            assert(vars@.take(i as int).drop_last() =~= vars@.take(i - 1));
        }
        if eq_str(vars[i - 1].0.as_str(), name) {
            return Some(vars[i - 1].1);
        }
        i -= 1;
    }
    proof {
        assert(vars@.take(0) =~= Seq::<(String, Typ)>::empty());
    }
    None
}

/// `var_lookup` over executable pairs.
pub open spec fn var_lookup_exec(vars: Seq<(String, Typ)>, name: Seq<char>) -> Option<Typ>
    decreases vars.len(),
{
    if vars.len() == 0 {
        None
    } else if vars.last().0@ == name {
        Some(vars.last().1)
    } else {
        var_lookup_exec(vars.drop_last(), name)
    }
}

/// A function entry the checker can walk: the body range lies inside the
/// token sequence and leaves room for the name token before it.
pub open spec fn entry_wf(tokens: Seq<crate::parser::token::Token>, e: crate::tables::FnEntry) -> bool {
    2 <= e.body_start && e.body_start <= e.body_end && e.body_end <= tokens.len()
        && e.body_start - 2 < tokens.len()
}

/// The top-level walk raises no diagnostic.
pub open spec fn toplevel_clean(
    tokens: Seq<crate::parser::token::Token>,
    fns: Seq<(String, crate::tables::FnEntry)>,
    consts: Seq<(String, i64)>,
) -> bool {
    let w = toplevel_walk(tokens, fns, consts);
    w.fatal is None && w.errors.len() == 0
}

/// A found first mismatch is a real one.
proof fn lemma_mismatch_found(stack: Seq<Typ>, allowed: Seq<Seq<Typ>>, i: int, k: int)
    requires
        0 <= i <= allowed.len(),
        first_mismatch_from(stack, allowed, i) == Some(k),
    ensures
        i <= k < allowed.len(),
        !compatible(allowed[k], stack[stack.len() - 1 - k]),
    decreases allowed.len() - i,
{
    if i < allowed.len() && compatible(allowed[i], stack[stack.len() - 1 - i]) {
        lemma_mismatch_found(stack, allowed, i + 1, k);
    }
}

/// With no mismatching slot, every slot is compatible.
proof fn lemma_no_mismatch(stack: Seq<Typ>, allowed: Seq<Seq<Typ>>, i: int)
    requires
        0 <= i <= allowed.len(),
        first_mismatch_from(stack, allowed, i) is None,
    ensures
        forall|j: int| i <= j < allowed.len() ==> compatible(#[trigger] allowed[j], stack[stack.len() - 1 - j]),
    decreases allowed.len() - i,
{
    if i < allowed.len() {
        lemma_no_mismatch(stack, allowed, i + 1);
    }
}

impl TypeChecker {
    /// Type-checks every function body against its declaration, then the
    /// top-level program. Success is returned exactly when every function
    /// passes — its body walk raises no diagnostic and, unless suppressed,
    /// its final stack matches its declared returns — and the top-level walk
    /// raises none either.
    #[verifier::rlimit(100)]
    pub fn checks(
        &mut self,
        tokens: &Vec<crate::parser::token::Token>,
        functions: &Vec<(String, crate::tables::FnEntry)>,
        consts: &Vec<(String, i64)>,
    ) -> (r: Result<(), Vec<Error>>)
        requires
            old(self).errors@.len() == 0,
            walk_jumps_forward(tokens@, 0, tokens@.len() as int),
            forall|p: int|
                0 <= p < functions@.len() ==> entry_wf(tokens@, (#[trigger] functions@[p]).1),
        ensures
            r is Ok <==> (forall|p: int|
                0 <= p < functions@.len() && crate::tables::fn_active(functions@, p)
                    ==> fn_passes(tokens@, functions@, consts@, p)) && toplevel_clean(
                tokens@,
                functions@,
                consts@,
            ),
            r is Ok ==> final(self).stack@ == toplevel_walk(tokens@, functions@, consts@).stack,
            r matches Err(es) ==> es@.len() >= 1,
    {
        let mut p: usize = 0;
        while p < functions.len()
            invariant
                0 <= p <= functions@.len(),
                self.errors@.len() == 0,
                walk_jumps_forward(tokens@, 0, tokens@.len() as int),
                forall|q: int|
                    0 <= q < functions@.len() ==> entry_wf(tokens@, (#[trigger] functions@[q]).1),
                forall|q: int|
                    0 <= q < p && crate::tables::fn_active(functions@, q) ==> fn_passes(
                        tokens@,
                        functions@,
                        consts@,
                        q,
                    ),
            decreases functions@.len() - p,
        {
            let identifier = &functions[p].0;
            // A definition shadowed by a later one of the same name is not
            // part of the table's meaning: it is neither checked nor lowered.
            let active = match crate::tables::find_fn_position(functions, identifier.as_str()) {
                Some(q) => q == p,
                None => false,
            };
            if !active {
                p += 1;
                continue ;
            }
            proof {
                assert(crate::tables::fn_active(functions@, p as int));
            }
            let entry = &functions[p].1;
            let nargs = entry.args.len();
            let mut seed: Vec<Typ> = Vec::new();
            let mut q: usize = 0;
            while q < nargs
                invariant
                    0 <= q <= nargs,
                    nargs == entry.args@.len(),
                    entry == &functions@[p as int].1,
                    p < functions@.len(),
                    seed@ == seeded_args(crate::tables::typss(entry.args@)).take(q as int),
                decreases nargs - q,
            {
                let slot = &entry.args[nargs - 1 - q];
                let t = if slot.len() == 1 {
                    slot[0]
                } else {
                    Typ::Any
                };
                seed.push(t);
                proof {
                    assert(crate::tables::typss(entry.args@)[nargs - 1 - q as int] == entry.args@[
                        nargs - 1 - q as int
                    ]@);
                    assert(seeded_args(crate::tables::typss(entry.args@)).take(q + 1)
                        =~= seeded_args(crate::tables::typss(entry.args@)).take(q as int).push(t));
                }
                q += 1;
            }
            proof {
                assert(seeded_args(crate::tables::typss(entry.args@)).take(nargs as int)
                    =~= seeded_args(crate::tables::typss(entry.args@)));
            }
            self.stack = seed;
            let start = entry.body_start;
            let end = entry.body_end;
            match self.check(tokens, functions, consts, start, end, false) {
                Ok(()) => {},
                Err(es) => {
                    proof {
                        assert(!fn_passes(tokens@, functions@, consts@, p as int));
                    }
                    return Err(es);
                },
            }
            proof {
                assert(fn_walk(tokens@, functions@, consts@, p as int).fatal is None);
                assert(fn_walk(tokens@, functions@, consts@, p as int).errors.len() == 0);
                assert(self.stack@ == fn_walk(tokens@, functions@, consts@, p as int).stack);
            }
            if entry.ignore_return {
                p += 1;
                continue ;
            }
            let is_void = entry.returns.len() == 1 && entry.returns[0].len() == 1 && matches!(
                entry.returns[0][0],
                Typ::Void,
            );
            proof {
                let rts = crate::tables::typss(entry.returns@);
                if is_void {
                    assert(rts[0] == entry.returns@[0]@);
                    assert(collapse(rts[0]) == Typ::Void);
                    assert(collapsed(rts) =~= seq![Typ::Void]);
                } else {
                    if collapsed(rts) == seq![Typ::Void] {
                        assert(collapsed(rts).len() == rts.len());
                        assert(rts.len() == 1);
                        assert(rts[0] == entry.returns@[0]@);
                        assert(collapsed(rts)[0] == collapse(rts[0]));
                        assert(false);
                    }
                }
            }
            if is_void {
                if self.stack.len() != 0 {
                    let mut m = String::from_str("`");
                    m.append(identifier.as_str());
                    m.append("` should return an empty stack, but it returns ");
                    m.append(crate::strings::usize_string(self.stack.len()).as_str());
                    m.append(" values on the stack");
                    let loc = &tokens[start - 2];
                    let token_len = identifier.as_str().unicode_len();
                    proof {
                        assert(!ret_ok(
                            fn_walk(tokens@, functions@, consts@, p as int).stack,
                            crate::tables::typss(entry.returns@),
                        ));
                        assert(!fn_passes(tokens@, functions@, consts@, p as int));
                    }
                    return Err(
                        vec_of(
                            Error::new(m, (loc.row, loc.col, loc.filename.clone()), token_len),
                        ),
                    );
                }
            } else if self.stack.len() != entry.returns.len() {
                let mut m = String::from_str("`");
                m.append(identifier.as_str());
                m.append("` should return ");
                m.append(crate::strings::usize_string(entry.returns.len()).as_str());
                m.append(" values on the stack, but it returns ");
                m.append(crate::strings::usize_string(self.stack.len()).as_str());
                m.append(" values on the stack");
                let loc = &tokens[start - 2];
                let token_len = identifier.as_str().unicode_len();
                proof {
                    assert(!ret_ok(
                        fn_walk(tokens@, functions@, consts@, p as int).stack,
                        crate::tables::typss(entry.returns@),
                    ));
                    assert(!fn_passes(tokens@, functions@, consts@, p as int));
                }
                return Err(
                    vec_of(Error::new(m, (loc.row, loc.col, loc.filename.clone()), token_len)),
                );
            } else {
                let rets = crate::tables::clone_typss(&entry.returns);
                let ghost pre_stack = self.stack@;
                let res = {
                    let loc = &tokens[start - 2];
                    self.check_return_stack(identifier.as_str(), rets, loc)
                };
                match res {
                    Ok(()) => {
                        proof {
                            lemma_no_mismatch(
                                pre_stack,
                                crate::tables::typss(entry.returns@),
                                0,
                            );
                            assert(ret_ok(pre_stack, crate::tables::typss(entry.returns@)));
                        }
                    },
                    Err(e) => {
                        proof {
                            let fm = first_mismatch_from(
                                pre_stack,
                                crate::tables::typss(entry.returns@),
                                0,
                            );
                            assert(fm is Some);
                            lemma_mismatch_found(
                                pre_stack,
                                crate::tables::typss(entry.returns@),
                                0,
                                fm->0,
                            );
                            assert(!ret_ok(pre_stack, crate::tables::typss(entry.returns@)));
                            assert(!fn_passes(tokens@, functions@, consts@, p as int));
                        }
                        return Err(vec_of(e));
                    },
                }
            }
            proof {
                assert(fn_passes(tokens@, functions@, consts@, p as int));
            }
            p += 1;
        }
        self.stack = Vec::new();
        let total = tokens.len();
        match self.check(tokens, functions, consts, 0, total, false) {
            Ok(()) => {
                proof {
                    assert(toplevel_clean(tokens@, functions@, consts@));
                }
                Ok(())
            },
            Err(es) => {
                proof {
                    assert(!toplevel_clean(tokens@, functions@, consts@));
                }
                Err(es)
            },
        }
    }
}

/// Tests whether every jump the walks take points forward, as the walks
/// require; the structural parser's pairing yields such sequences.
pub fn jumps_are_forward(tokens: &Vec<crate::parser::token::Token>) -> (r: bool)
    ensures
        r == walk_jumps_forward(tokens@, 0, tokens@.len() as int),
{
    let mut i: usize = 0;
    while i < tokens.len()
        invariant
            0 <= i <= tokens@.len(),
            walk_jumps_forward(tokens@, 0, i as int),
        decreases tokens@.len() - i,
    {
        let jumps = match &tokens[i].typ {
            crate::parser::typ::Typ::ControlFlow(c) => match c {
                crate::token::control_flow::Token::Else | crate::token::control_flow::Token::Do
                    | crate::token::control_flow::Token::Fn
                    | crate::token::control_flow::Token::Const => true,
                _ => false,
            },
            _ => false,
        };
        if jumps {
            if let Some(j) = tokens[i].jmp_idx {
                if j < i {
                    proof {
                        assert(!walk_jumps_forward(tokens@, 0, tokens@.len() as int));
                    }
                    return false;
                }
            }
        }
        i += 1;
    }
    true
}

/// Tests whether every function entry's body range lies inside the token
/// sequence, as the checker and the code generator require.
pub fn entries_are_wf(
    tokens: &Vec<crate::parser::token::Token>,
    functions: &Vec<(String, crate::tables::FnEntry)>,
) -> (r: bool)
    ensures
        r == forall|p: int|
            0 <= p < functions@.len() ==> entry_wf(tokens@, (#[trigger] functions@[p]).1),
{
    let mut p: usize = 0;
    while p < functions.len()
        invariant
            0 <= p <= functions@.len(),
            forall|q: int| 0 <= q < p ==> entry_wf(tokens@, (#[trigger] functions@[q]).1),
        decreases functions@.len() - p,
    {
        let e = &functions[p].1;
        if !(2 <= e.body_start && e.body_start <= e.body_end && e.body_end <= tokens.len()
            && e.body_start - 2 < tokens.len()) {
            proof {
                assert(!entry_wf(tokens@, functions@[p as int].1));
            }
            return false;
        }
        p += 1;
    }
    true
}

/// Matching variable tables agree on every lookup.
proof fn lemma_var_lookup_agree(
    vars: Seq<(String, Typ)>,
    svars: Seq<(Seq<char>, Typ)>,
    name: Seq<char>,
)
    requires
        vars.len() == svars.len(),
        forall|i: int|
            0 <= i < vars.len() ==> (#[trigger] vars[i]).0@ == svars[i].0 && vars[i].1
                == svars[i].1,
    ensures
        var_lookup_exec(vars, name) == var_lookup(svars, name),
    decreases vars.len(),
{
    if vars.len() > 0 {
        assert(vars[vars.len() - 1].0@ == svars[svars.len() - 1].0);
        lemma_var_lookup_agree(vars.drop_last(), svars.drop_last(), name);
    }
}

} // verus!
