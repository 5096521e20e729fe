//! The token taxonomy: what kind of token a lexeme is.

use vstd::prelude::*;

use crate::strings::{
    eq_str,
    int_literal_value,
    is_int_literal,
    parse_i64,
    spec_split,
    spec_trim,
    split_str,
    trim_str,
};
use crate::tables::typss;
use crate::token::{arith, cmp, control_flow, helper, mem, sys};
use crate::token::helper::spec_new_type_annot;

verus! {

/// One token kind. Keywords are grouped by category; `Ignore` marks tokens
/// erased from the stream.
#[derive(Debug)]
pub enum Typ {
    Memory(mem::Token),
    ControlFlow(control_flow::Token),
    Comparison(cmp::Token),
    Arithmetic(arith::Token),
    Sys(sys::Token),
    Helper(helper::Token),
    Str(String),
    Int(i64),
    Identifier(String),
    Ignore,
}

/// The keyword table: the token kind each fixed lexeme denotes. `sys` and
/// type annotations are handled apart, as their kinds carry data.
pub open spec fn spec_keyword(value: Seq<char>) -> Option<Typ> {
    if value == "mem"@ {
        Some(Typ::Memory(mem::Token::Mem))
    } else if value == "_mem"@ {
        Some(Typ::Memory(mem::Token::InternalMem))
    } else if value == "swap"@ {
        Some(Typ::Memory(mem::Token::Swap))
    } else if value == "dup"@ {
        Some(Typ::Memory(mem::Token::Dup))
    } else if value == "over"@ {
        Some(Typ::Memory(mem::Token::Over))
    } else if value == "drop"@ {
        Some(Typ::Memory(mem::Token::Drop))
    } else if value == "rot"@ {
        Some(Typ::Memory(mem::Token::Rot))
    } else if value == "store"@ {
        Some(Typ::Memory(mem::Token::Store(mem::Size::Qword)))
    } else if value == "load"@ {
        Some(Typ::Memory(mem::Token::Load(mem::Size::Qword)))
    } else if value == "store32"@ {
        Some(Typ::Memory(mem::Token::Store(mem::Size::Dword)))
    } else if value == "load32"@ {
        Some(Typ::Memory(mem::Token::Load(mem::Size::Dword)))
    } else if value == "store16"@ {
        Some(Typ::Memory(mem::Token::Store(mem::Size::Word)))
    } else if value == "load16"@ {
        Some(Typ::Memory(mem::Token::Load(mem::Size::Word)))
    } else if value == "store8"@ {
        Some(Typ::Memory(mem::Token::Store(mem::Size::Byte)))
    } else if value == "load8"@ {
        Some(Typ::Memory(mem::Token::Load(mem::Size::Byte)))
    } else if value == "put"@ {
        Some(Typ::Memory(mem::Token::Put))
    } else if value == "fetch"@ || value == "!"@ {
        Some(Typ::Memory(mem::Token::Fetch))
    } else if value == "&"@ {
        Some(Typ::Arithmetic(arith::Token::LogicalAnd))
    } else if value == "|"@ {
        Some(Typ::Arithmetic(arith::Token::LogicalOr))
    } else if value == "+"@ {
        Some(Typ::Arithmetic(arith::Token::Plus))
    } else if value == "-"@ {
        Some(Typ::Arithmetic(arith::Token::Minus))
    } else if value == "*"@ {
        Some(Typ::Arithmetic(arith::Token::Mul))
    } else if value == "/"@ {
        Some(Typ::Arithmetic(arith::Token::Div))
    } else if value == "%"@ {
        Some(Typ::Arithmetic(arith::Token::Mod))
    } else if value == "="@ {
        Some(Typ::Comparison(cmp::Token::Eq))
    } else if value == "!="@ {
        Some(Typ::Comparison(cmp::Token::NotEq))
    } else if value == "<="@ {
        Some(Typ::Comparison(cmp::Token::Le))
    } else if value == "<"@ {
        Some(Typ::Comparison(cmp::Token::Lt))
    } else if value == ">"@ {
        Some(Typ::Comparison(cmp::Token::Gt))
    } else if value == ">="@ {
        Some(Typ::Comparison(cmp::Token::Ge))
    } else if value == "macro"@ {
        Some(Typ::ControlFlow(control_flow::Token::Macro))
    } else if value == "fn"@ {
        Some(Typ::ControlFlow(control_flow::Token::Fn))
    } else if value == "const"@ {
        Some(Typ::ControlFlow(control_flow::Token::Const))
    } else if value == "if"@ {
        Some(Typ::ControlFlow(control_flow::Token::If))
    } else if value == "else"@ {
        Some(Typ::ControlFlow(control_flow::Token::Else))
    } else if value == "while"@ {
        Some(Typ::ControlFlow(control_flow::Token::While))
    } else if value == "do"@ {
        Some(Typ::ControlFlow(control_flow::Token::Do))
    } else if value == "end"@ {
        Some(Typ::ControlFlow(control_flow::Token::End))
    } else if value == "include"@ {
        Some(Typ::Sys(sys::Token::Include))
    } else if value == "("@ {
        Some(Typ::Helper(helper::Token::ArgOpen))
    } else if value == ")"@ {
        Some(Typ::Helper(helper::Token::ArgClose))
    } else if value == ","@ {
        Some(Typ::Helper(helper::Token::ArgSep))
    } else {
        None
    }
}

/// Is `t` the token kind that the lexeme `value` denotes, under the lexer's
/// mode flags? Character literals lower to their code point; strings keep
/// their text; annotations parse per `spec_new_type_annot`; an integer
/// literal that fits becomes `Int`; then keywords; a `sys::<name>` path
/// becomes a platform call; anything else is an identifier.
pub open spec fn is_token_for(
    t: Typ,
    value: Seq<char>,
    is_string: bool,
    is_char: bool,
    is_type_annot: bool,
) -> bool {
    if spec_trim(value).len() == 0 {
        false
    } else if is_char {
        t matches Typ::Int(i) && i == value.first() as u32 as i64
    } else if is_string {
        t matches Typ::Str(s) && s@ == value
    } else if is_type_annot {
        t matches Typ::Helper(ht) && ht matches helper::Token::TypeAnnot(args, ret, ig)
            && spec_new_type_annot(value) matches Ok(sv) && typss(args@) == sv.0 && typss(ret@)
            == sv.1 && ig == sv.2
    } else if is_int_literal(value) && i64::MIN <= int_literal_value(value) <= i64::MAX {
        t matches Typ::Int(i) && i == int_literal_value(value)
    } else if value == "sys"@ {
        t matches Typ::Sys(st) && st matches sys::Token::Sys(name) && name@ == Seq::<char>::empty()
    } else if spec_keyword(value) is Some {
        t == spec_keyword(value)->0
    } else if spec_split(value, "::"@).len() > 1 && spec_split(value, "::"@)[0] == "sys"@ {
        t matches Typ::Sys(st) && st matches sys::Token::Sys(name) && name@ == spec_split(
            value,
            "::"@,
        )[1]
    } else {
        t matches Typ::Identifier(id) && id@ == value
    }
}

/// When classification fails: a blank lexeme yields no token at all; a bad
/// type annotation carries its diagnostic.
pub open spec fn is_token_error_for(
    e: Option<String>,
    value: Seq<char>,
    is_string: bool,
    is_char: bool,
    is_type_annot: bool,
) -> bool {
    if spec_trim(value).len() == 0 {
        e is None
    } else if is_char || is_string {
        false
    } else if is_type_annot {
        e matches Some(m) && spec_new_type_annot(value) matches Err(se) && m@ == se
    } else {
        false
    }
}

impl Typ {
    /// Classifies a lexeme under the lexer's mode flags. A blank lexeme is
    /// refused silently; a malformed type annotation is refused with its
    /// diagnostic; every other lexeme denotes a token.
    pub fn try_from(value: &str, is_string: bool, is_char: bool, is_type_annot: bool) -> (r:
        Result<Typ, Option<String>>)
        ensures
            (match r {
                Ok(t) => is_token_for(t, value@, is_string, is_char, is_type_annot),
                Err(e) => is_token_error_for(e, value@, is_string, is_char, is_type_annot),
            }),
    {
        let trimmed = trim_str(value);
        if trimmed.unicode_len() == 0 {
            return Err(None);
        }
        if is_char {
            let c = value.get_char(0);
            return Ok(Typ::Int((c as u32) as i64));
        }
        if is_string {
            return Ok(Typ::Str(String::from_str(value)));
        }
        if is_type_annot {
            return match helper::Token::new_type_annot(value) {
                Ok(annot) => Ok(Typ::Helper(annot)),
                Err(m) => Err(Some(m)),
            };
        }
        if let Some(integer) = parse_i64(value) {
            return Ok(Typ::Int(integer));
        }
        if eq_str(value, "sys") {
            return Ok(Typ::Sys(sys::Token::Sys(String::new())));
        }
        if let Some(t) = keyword_of(value) {
            return Ok(t);
        }
        proof {
            reveal_strlit("::");
        }
        let path = split_str(value, "::");
        if path.len() > 1 && eq_str(path[0].as_str(), "sys") {
            proof {
                assert(spec_split(value@, "::"@)[0] == path@[0]@);
                assert(spec_split(value@, "::"@)[1] == path@[1]@);
            }
            Ok(Typ::Sys(sys::Token::Sys(path[1].clone())))
        } else {
            Ok(Typ::Identifier(String::from_str(value)))
        }
    }

    /// Is this the kind that consumes a pending identifier (`put`, `fetch`)?
    pub fn is_affected_by_identifier(&self) -> (r: bool)
        ensures
            r == (self matches Typ::Memory(mem::Token::Put) || self matches Typ::Memory(
                mem::Token::Fetch,
            )),
    {
        match self {
            Typ::Memory(mem::Token::Put) | Typ::Memory(mem::Token::Fetch) => true,
            _ => false,
        }
    }
}

/// The executable keyword table.
fn keyword_of(value: &str) -> (r: Option<Typ>)
    ensures
        (match r {
            Some(t) => spec_keyword(value@) matches Some(st) && t == st,
            None => spec_keyword(value@) is None,
        }),
{
    if eq_str(value, "mem") {
        Some(Typ::Memory(mem::Token::Mem))
    } else if eq_str(value, "_mem") {
        Some(Typ::Memory(mem::Token::InternalMem))
    } else if eq_str(value, "swap") {
        Some(Typ::Memory(mem::Token::Swap))
    } else if eq_str(value, "dup") {
        Some(Typ::Memory(mem::Token::Dup))
    } else if eq_str(value, "over") {
        Some(Typ::Memory(mem::Token::Over))
    } else if eq_str(value, "drop") {
        Some(Typ::Memory(mem::Token::Drop))
    } else if eq_str(value, "rot") {
        Some(Typ::Memory(mem::Token::Rot))
    } else if eq_str(value, "store") {
        Some(Typ::Memory(mem::Token::Store(mem::Size::Qword)))
    } else if eq_str(value, "load") {
        Some(Typ::Memory(mem::Token::Load(mem::Size::Qword)))
    } else if eq_str(value, "store32") {
        Some(Typ::Memory(mem::Token::Store(mem::Size::Dword)))
    } else if eq_str(value, "load32") {
        Some(Typ::Memory(mem::Token::Load(mem::Size::Dword)))
    } else if eq_str(value, "store16") {
        Some(Typ::Memory(mem::Token::Store(mem::Size::Word)))
    } else if eq_str(value, "load16") {
        Some(Typ::Memory(mem::Token::Load(mem::Size::Word)))
    } else if eq_str(value, "store8") {
        Some(Typ::Memory(mem::Token::Store(mem::Size::Byte)))
    } else if eq_str(value, "load8") {
        Some(Typ::Memory(mem::Token::Load(mem::Size::Byte)))
    } else if eq_str(value, "put") {
        Some(Typ::Memory(mem::Token::Put))
    } else if eq_str(value, "fetch") || eq_str(value, "!") {
        Some(Typ::Memory(mem::Token::Fetch))
    } else if eq_str(value, "&") {
        Some(Typ::Arithmetic(arith::Token::LogicalAnd))
    } else if eq_str(value, "|") {
        Some(Typ::Arithmetic(arith::Token::LogicalOr))
    } else if eq_str(value, "+") {
        Some(Typ::Arithmetic(arith::Token::Plus))
    } else if eq_str(value, "-") {
        Some(Typ::Arithmetic(arith::Token::Minus))
    } else if eq_str(value, "*") {
        Some(Typ::Arithmetic(arith::Token::Mul))
    } else if eq_str(value, "/") {
        Some(Typ::Arithmetic(arith::Token::Div))
    } else if eq_str(value, "%") {
        Some(Typ::Arithmetic(arith::Token::Mod))
    } else if eq_str(value, "=") {
        Some(Typ::Comparison(cmp::Token::Eq))
    } else if eq_str(value, "!=") {
        Some(Typ::Comparison(cmp::Token::NotEq))
    } else if eq_str(value, "<=") {
        Some(Typ::Comparison(cmp::Token::Le))
    } else if eq_str(value, "<") {
        Some(Typ::Comparison(cmp::Token::Lt))
    } else if eq_str(value, ">") {
        Some(Typ::Comparison(cmp::Token::Gt))
    } else if eq_str(value, ">=") {
        Some(Typ::Comparison(cmp::Token::Ge))
    } else if eq_str(value, "macro") {
        Some(Typ::ControlFlow(control_flow::Token::Macro))
    } else if eq_str(value, "fn") {
        Some(Typ::ControlFlow(control_flow::Token::Fn))
    } else if eq_str(value, "const") {
        Some(Typ::ControlFlow(control_flow::Token::Const))
    } else if eq_str(value, "if") {
        Some(Typ::ControlFlow(control_flow::Token::If))
    } else if eq_str(value, "else") {
        Some(Typ::ControlFlow(control_flow::Token::Else))
    } else if eq_str(value, "while") {
        Some(Typ::ControlFlow(control_flow::Token::While))
    } else if eq_str(value, "do") {
        Some(Typ::ControlFlow(control_flow::Token::Do))
    } else if eq_str(value, "end") {
        Some(Typ::ControlFlow(control_flow::Token::End))
    } else if eq_str(value, "include") {
        Some(Typ::Sys(sys::Token::Include))
    } else if eq_str(value, "(") {
        Some(Typ::Helper(helper::Token::ArgOpen))
    } else if eq_str(value, ")") {
        Some(Typ::Helper(helper::Token::ArgClose))
    } else if eq_str(value, ",") {
        Some(Typ::Helper(helper::Token::ArgSep))
    } else {
        None
    }
}

} // verus!
