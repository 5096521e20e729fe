//! Unit-level checks: the lexer's corner cases, the type-name and annotation
//! parsers, the rendering helpers and the label scheme.

use rack::compiler::err::{ErrTyp, Error};
use rack::compiler::inst::{Inst, Op};
use rack::compiler::internals::Internals;
use rack::compiler::template;
use rack::parser::parse;
use rack::parser::token::{tokenize, Token};
use rack::parser::typ::Typ;
use rack::strings;
use rack::token::helper;
use rack::token::mem::Size;
use rack::type_checker::Typ as ValueTyp;

#[test]
fn type_names_parse_and_print() {
    assert_eq!(
        ValueTyp::try_from("int|ptr"),
        Ok(vec![ValueTyp::Int, ValueTyp::Ptr])
    );
    assert_eq!(ValueTyp::try_from("any"), Ok(vec![ValueTyp::Any]));
    let e = ValueTyp::try_from("float|quux").unwrap_err();
    assert!(e.contains("quux was found"));
    assert_eq!(ValueTyp::Str.to_string(), "str");
}

#[test]
fn annotations_split_arguments_and_returns() {
    match helper::Token::new_type_annot("int, str -> int").expect("annot") {
        helper::Token::TypeAnnot(args, ret, ignore) => {
            assert_eq!(args, vec![vec![ValueTyp::Int], vec![ValueTyp::Str]]);
            assert_eq!(ret, vec![vec![ValueTyp::Int]]);
            assert!(!ignore);
        }
        _ => panic!("expected a type annotation"),
    }
}

#[test]
fn annotation_bang_suppresses_the_return_check() {
    match helper::Token::new_type_annot("int -> !int").expect("annot") {
        helper::Token::TypeAnnot(args, ret, ignore) => {
            assert_eq!(args, vec![vec![ValueTyp::Int]]);
            assert_eq!(ret, vec![vec![ValueTyp::Int]]);
            assert!(ignore);
        }
        _ => panic!("expected a type annotation"),
    }
}

#[test]
fn annotation_splits_on_the_first_arrow_only() {
    let e = helper::Token::new_type_annot("int -> int -> int").unwrap_err();
    assert!(e.contains("int -> int was found"));
}

#[test]
fn annotation_single_segment_is_returns_only() {
    match helper::Token::new_type_annot("void").expect("annot") {
        helper::Token::TypeAnnot(args, ret, _) => {
            assert!(args.is_empty());
            assert_eq!(ret, vec![vec![ValueTyp::Void]]);
        }
        _ => panic!("expected a type annotation"),
    }
}

#[test]
fn char_literals_lower_to_code_points() {
    let tokens = tokenize("'a'").expect("lex");
    assert_eq!(tokens.len(), 1);
    assert!(matches!(tokens[0].typ, Typ::Int(97)));
}

#[test]
fn comments_run_to_end_of_line() {
    let tokens = tokenize("1 # two three\n3").expect("lex");
    assert_eq!(tokens.len(), 2);
    assert!(matches!(tokens[0].typ, Typ::Int(1)));
    assert!(matches!(tokens[1].typ, Typ::Int(3)));
}

#[test]
fn string_literals_keep_their_text() {
    let tokens = tokenize("\"hi there\" end").expect("lex");
    match &tokens[0].typ {
        Typ::Str(s) => assert_eq!(s, "hi there"),
        _ => panic!("expected a string token"),
    }
}

#[test]
fn compound_comparisons_lex_as_one_token() {
    let tokens = tokenize("1 2 >= 3 != 4 <").expect("lex");
    let kinds: Vec<&Typ> = tokens.iter().map(|t| &t.typ).collect();
    assert!(matches!(kinds[2], Typ::Comparison(_)));
    assert!(matches!(kinds[4], Typ::Comparison(_)));
    assert!(matches!(kinds[6], Typ::Comparison(_)));
    assert_eq!(tokens.len(), 7);
}

#[test]
fn overlong_char_literal_is_reported() {
    let errs = tokenize("'ab'").unwrap_err();
    assert!(errs[0]
        .message
        .contains("a char should be 1 charater long"));
}

#[test]
fn unterminated_string_is_reported() {
    let errs = tokenize("\"abc").unwrap_err();
    assert!(errs[0].message.contains("a string can only be on one line"));
}

#[test]
fn unterminated_annotation_is_reported() {
    let errs = tokenize("[int").unwrap_err();
    assert!(errs[0]
        .message
        .contains("An opening braket '[' must be matched"));
}

#[test]
fn unknown_type_in_annotation_is_reported() {
    let errs = tokenize("[foo]").unwrap_err();
    assert!(errs[0].message.contains("Types can only be"));
}

#[test]
fn sys_paths_resolve_to_platform_calls() {
    let tokens = tokenize("sys::WriteConsoleA").expect("lex");
    match &tokens[0].typ {
        Typ::Sys(rack::token::sys::Token::Sys(name)) => assert_eq!(name, "WriteConsoleA"),
        _ => panic!("expected a platform-call token"),
    }
}

#[test]
fn file_marker_rebases_rows_and_filename() {
    let tokens = tokenize("___rk___ __rk_newfile_rk__ ___rk___ lib.rk\n1").expect("lex");
    assert_eq!(tokens.len(), 1);
    assert_eq!(tokens[0].filename, "lib.rk");
    assert_eq!(tokens[0].row, 1);
}

#[test]
fn unmatched_end_is_reported() {
    let errs = parse("end").unwrap_err();
    assert!(errs[0]
        .message
        .contains("The `end` keyword did not match any opening statement"));
}

#[test]
fn unmatched_close_paren_is_reported() {
    let errs = parse("1 )").unwrap_err();
    assert!(errs[0].message.contains("A closing parenthesis ')'"));
}

#[test]
fn leading_open_paren_is_reported() {
    let errs = parse("( 1 )").unwrap_err();
    assert!(errs[0]
        .message
        .contains("arguments must be after at least one other element"));
}

#[test]
fn unmatched_open_paren_is_reported() {
    let errs = parse("1 ( 2").unwrap_err();
    assert!(errs[0]
        .message
        .contains("All opening parenthesis '(' must be matched"));
}

#[test]
fn else_without_if_is_reported() {
    let errs = parse("1 else 2 end").unwrap_err();
    assert!(errs[0].message.contains("Missing an `if` statement"));
}

#[test]
fn labels_pair_across_consecutive_calls() {
    let mut internals = Internals::new();
    let a = internals.compute_address(7);
    let b = internals.compute_address(7);
    assert_eq!(a, "ADDR_7_0");
    assert_eq!(b, "ADDR_7_0");
    let c = internals.compute_address(7);
    let d = internals.compute_address(7);
    assert_eq!(c, "ADDR_7_1");
    assert_eq!(d, "ADDR_7_1");
    let other = internals.compute_address(9);
    assert_eq!(other, "ADDR_9_0");
}

#[test]
fn operands_and_instructions_render() {
    assert_eq!(Op::Rax.to_string(), "rax");
    assert_eq!(Op::Immediate(-5).to_string(), "-5");
    assert_eq!(Op::Label(String::from("a::b")).to_string(), "a_b");
    assert!(Op::R15.is_register());
    assert!(!Op::Immediate(3).is_register());
    assert_eq!(
        Inst::Mov(Op::Rax, Op::Immediate(42)).to_string(),
        "\tmov rax, 42\n"
    );
    assert_eq!(Inst::Push(Op::Rcx).to_string(), "\tpush rcx\n");
    assert_eq!(Inst::Ret.to_string(), "\tret\n");
    assert_eq!(
        Inst::Label(String::from("f::g:")).to_string(),
        "f_g:\n"
    );
}

#[test]
fn sizes_render_for_loads_and_stores() {
    assert_eq!(Size::Qword.to_string(), "qword");
    assert_eq!(Size::Byte.to_string(), "byte");
    assert_eq!(Size::Dword.to_rbx().to_string(), "ebx");
    assert_eq!(Size::Qword.to_rbx().to_string(), "rbx");
}

#[test]
fn token_widths_match_their_spelling() {
    let tokens = tokenize("swap fetch else while -123").expect("lex");
    let widths: Vec<usize> = tokens.iter().map(|t| t.len()).collect();
    assert_eq!(widths, vec![4, 5, 4, 5, 4]);
}

#[test]
fn caret_rules_point_under_the_token() {
    let e = Error::new(String::from("m"), (3, 6, String::from("f.rk")), 4);
    let (column, carets) = e.caret_rule();
    assert_eq!(column, 4);
    assert_eq!(carets, "^^^^");
    let early = Error::new(String::from("m"), (0, 0, String::from("f.rk")), 7);
    let (column0, carets0) = early.caret_rule();
    assert_eq!(column0, 0);
    assert_eq!(carets0, "^^^^^^^");
}

#[test]
fn command_line_errors_carry_no_location() {
    let e = Error::command_line(String::from("no file"));
    assert!(matches!(e.typ, ErrTyp::CommandLine));
    assert_eq!(e.location, (0, 0));
    assert_eq!(e.token_len, 0);
}

#[test]
fn string_helpers_behave_like_std() {
    assert_eq!(strings::replace_str("a::b::c", "::", "_"), "a_b_c");
    assert_eq!(strings::i64_string(-5), "-5");
    assert_eq!(strings::i64_string(i64::MIN).parse::<i64>(), Ok(i64::MIN));
    assert_eq!(strings::usize_string(0), "0");
    assert_eq!(strings::parse_i64("-042"), Some(-42));
    assert_eq!(strings::parse_i64("12x"), None);
    assert_eq!(strings::parse_i64("99999999999999999999"), None);
    assert_eq!(strings::trim_str("  a b \t"), "a b");
    assert_eq!(
        strings::split_lines("a\r\nb\n"),
        vec![String::from("a"), String::from("b")]
    );
}

#[test]
fn preamble_templates_are_fixed() {
    assert!(template::header().contains("bits 64"));
    assert!(template::ret_ptr().contains("_std@store_ret_ptr:"));
    assert!(template::variables().contains("_std@fetch_variable:"));
    assert!(template::exit().contains("ExitProcess"));
    assert_eq!(template::print_int(), " ");
}

#[test]
fn loads_and_stores_pick_the_width() {
    let (tokens, functions, consts) = parse("mem load8 drop").expect("parse");
    let mut compiler = rack::compiler::Compiler::new(functions, consts);
    compiler.compile(tokens).expect("compile");
    let out = compiler.output;
    assert!(out.contains("\tlea rax, [_mem@mem]\n\tpush rax\n"));
    assert!(out.contains("\txor rbx, rbx\n\tpop rax\n\tmov bl, byte [rax]\n\tpush rbx\n"));
}

#[test]
fn misplaced_include_is_fatal() {
    let files: Vec<(String, String)> = Vec::new();
    let e = rack::parser::parse_includes("m.rk", "1 2\ninclude \"x.rk\"", &files).unwrap_err();
    assert!(matches!(e.typ, ErrTyp::User));
    assert!(e
        .message
        .contains("You can only include files at the begining"));
}

#[test]
fn malformed_include_is_a_warning_only() {
    let files: Vec<(String, String)> = Vec::new();
    let (content, warnings) = rack::parser::parse_includes("m.rk", "include std\n1", &files)
        .expect("a malformed directive is skipped, not fatal");
    assert_eq!(warnings.len(), 1);
    assert!(warnings[0]
        .message
        .contains("Included file must be specified in a string"));
    assert_eq!(content, "\ninclude std\n1");
}

#[test]
fn tokens_know_their_positions() {
    let tokens = tokenize("1\n 2").expect("lex");
    assert_eq!((tokens[0].row, tokens[0].col), (0, 0));
    assert_eq!((tokens[1].row, tokens[1].col), (1, 1));
    let t = Token::new("77", false, false, false, 4, 9, "f.rk").expect("token");
    assert_eq!((t.row, t.col, t.jmp_idx), (4, 9, None));
    assert_eq!(t.filename, "f.rk");
}
