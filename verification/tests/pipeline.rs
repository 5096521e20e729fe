//! End-to-end scenarios: lexing, structural parsing, type checking and code
//! generation on small literal programs.

use rack::compiler::err::ErrTyp;
use rack::compiler::Compiler;
use rack::parser::parse;
use rack::parser::parse_includes;
use rack::parser::token::tokenize;
use rack::parser::typ::Typ;
use rack::token::arith;
use rack::token::control_flow;
use rack::type_checker::TypeChecker;
use rack::type_checker::Typ as ValueTyp;

fn compile_source(input: &str) -> String {
    let (tokens, functions, consts) = parse(input).expect("parse should succeed");
    let mut checker = TypeChecker::new();
    checker
        .checks(&tokens, &functions, &consts)
        .expect("type check should succeed");
    let mut compiler = Compiler::new(functions, consts);
    compiler.compile(tokens).expect("compile should succeed");
    compiler.output
}

#[test]
fn lexes_ints_and_plus() {
    let tokens = tokenize("34 35 +").expect("lexing should succeed");
    assert_eq!(tokens.len(), 3);
    assert!(matches!(tokens[0].typ, Typ::Int(34)));
    assert!(matches!(tokens[1].typ, Typ::Int(35)));
    assert!(matches!(
        tokens[2].typ,
        Typ::Arithmetic(arith::Token::Plus)
    ));
}

#[test]
fn endless_program_types_and_compiles() {
    let (tokens, functions, consts) = parse("34 35 +").expect("parse");
    let mut checker = TypeChecker::new();
    checker.checks(&tokens, &functions, &consts).expect("check");
    assert_eq!(checker.stack, vec![ValueTyp::Int]);
    let mut compiler = Compiler::new(functions, consts);
    compiler.compile(tokens).expect("compile");
    let expected = "\tmov rax, 34\n\tpush rax\n\tmov rax, 35\n\tpush rax\n\tpop rbx\n\tpop rax\n\tadd rax, rbx\n\tpush rax\n";
    assert!(compiler.output.contains(expected));
}

#[test]
fn if_else_pairs_and_labels() {
    let (tokens, functions, consts) = parse("1 if 42 else 7 end").expect("parse");
    assert!(matches!(
        tokens[1].typ,
        Typ::ControlFlow(control_flow::Token::If)
    ));
    assert_eq!(tokens[1].jmp_idx, Some(3));
    assert!(matches!(
        tokens[3].typ,
        Typ::ControlFlow(control_flow::Token::Else)
    ));
    assert_eq!(tokens[3].jmp_idx, Some(5));
    let mut compiler = Compiler::new(functions, consts);
    compiler.compile(tokens).expect("compile");
    let out = compiler.output;
    assert!(out.contains("\tjz ADDR_3_0\n"));
    assert!(out.contains("\tjmp ADDR_5_0\n"));
    assert!(out.contains("ADDR_3_0:\n"));
    assert!(out.contains("ADDR_5_0:\n"));
    assert!(out.contains("\tmov rax, 42\n\tpush rax\n"));
    assert!(out.contains("\tmov rax, 7\n\tpush rax\n"));
}

#[test]
fn while_loop_rewrites_end_and_jumps_back() {
    let (tokens, functions, consts) = parse("10 while dup 0 > do dup 1 - end drop").expect("parse");
    assert!(matches!(
        tokens[9].typ,
        Typ::ControlFlow(control_flow::Token::EndWhile)
    ));
    assert_eq!(tokens[9].jmp_idx, Some(1));
    assert_eq!(tokens[5].jmp_idx, Some(9));
    let mut compiler = Compiler::new(functions, consts);
    compiler.compile(tokens).expect("compile");
    let out = compiler.output;
    assert!(out.contains("ADDR_1_0:\n"));
    assert!(out.contains("\tpop rax\n\ttest rax, rax\n\tjz ADDR_9_0\n"));
    assert!(out.contains("\tjmp ADDR_1_0\n"));
    assert!(out.contains("ADDR_9_0:\n"));
}

#[test]
fn function_definition_and_call() {
    let (tokens, functions, consts) = parse("fn sq [int -> int] dup * end  3 sq").expect("parse");
    assert_eq!(functions.len(), 1);
    assert_eq!(functions[0].0, "sq");
    assert_eq!(functions[0].1.body_start, 3);
    assert_eq!(functions[0].1.body_end, 5);
    assert_eq!(functions[0].1.args, vec![vec![ValueTyp::Int]]);
    assert_eq!(functions[0].1.returns, vec![vec![ValueTyp::Int]]);
    assert!(!functions[0].1.ignore_return);
    let mut checker = TypeChecker::new();
    checker.checks(&tokens, &functions, &consts).expect("check");
    assert_eq!(checker.stack, vec![ValueTyp::Int]);
    let mut compiler = Compiler::new(functions, consts);
    compiler.compile(tokens).expect("compile");
    let out = compiler.output;
    assert!(out.contains("sq:\n\tcall _std@store_ret_ptr\n"));
    assert!(out.contains("\tcall _std@load_ret_ptr\n\tret\n"));
    assert!(out.contains("\tcall sq\n"));
}

#[test]
fn missing_include_is_a_command_line_error() {
    let files: Vec<(String, String)> = Vec::new();
    let r = parse_includes("main.rk", "include \"std.rk\"\n1 2 +", &files);
    match r {
        Err(e) => {
            assert!(matches!(e.typ, ErrTyp::CommandLine));
            assert!(e.message.contains("std.rk"));
            assert!(e.message.contains("does not exists"));
        }
        Ok(_) => panic!("resolution should fail on a missing file"),
    }
}

#[test]
fn short_stack_at_plus_is_reported() {
    let (tokens, functions, consts) = parse("1 + 2").expect("parse");
    let mut checker = TypeChecker::new();
    let r = checker.checks(&tokens, &functions, &consts);
    match r {
        Err(es) => {
            assert_eq!(es.len(), 1);
            assert_eq!(
                es[0].message,
                "You cannot use `arithmetic` because the minimum length of the stack is 2 but 1 value was found on the stack."
            );
            assert!(matches!(es[0].typ, ErrTyp::User));
            assert_eq!(es[0].location, (0, 2));
        }
        Ok(()) => panic!("the checker should reject a one-element stack at `+`"),
    }
}

#[test]
fn two_runs_produce_identical_output() {
    let src = "fn sq [int -> int] dup * end  1 if 3 sq else 7 end \"hi\" drop";
    let first = compile_source(src);
    let second = compile_source(src);
    assert_eq!(first, second);
    assert!(!first.is_empty());
}

#[test]
fn include_free_input_resolves_to_itself() {
    let files: Vec<(String, String)> = Vec::new();
    let (content, warnings) = parse_includes("a.rk", "1 2 +", &files).expect("resolve");
    assert_eq!(content, "\n1 2 +");
    assert!(warnings.is_empty());
}

#[test]
fn include_inlines_the_child_before_the_parent() {
    let files = vec![(String::from("std.rk"), String::from("7"))];
    let (content, warnings) =
        parse_includes("main.rk", "include \"std.rk\"\n1", &files).expect("resolve");
    assert_eq!(
        content,
        "\n\n___rk___ __rk_newfile_rk__ ___rk___ std.rk\n7\ninclude \"std.rk\"\n1"
    );
    assert!(warnings.is_empty());
}

#[test]
fn argument_groups_move_before_the_callee() {
    // The groups keep their textual order, relocated before the callee, and
    // the consumed `(`, `)` and `,` tokens are erased from the sequence.
    let (tokens, _, _) = parse("9 dup(1 2, 3)").expect("parse");
    assert!(matches!(tokens[0].typ, Typ::Int(9)));
    assert!(matches!(tokens[1].typ, Typ::Int(1)));
    assert!(matches!(tokens[2].typ, Typ::Int(2)));
    assert!(matches!(tokens[3].typ, Typ::Int(3)));
    assert!(matches!(tokens[4].typ, Typ::Memory(_)));
    assert!(matches!(tokens[5].typ, Typ::Ignore));
    assert!(matches!(tokens[6].typ, Typ::Ignore));
    assert!(matches!(tokens[7].typ, Typ::Ignore));
    for t in &tokens {
        assert!(!matches!(t.typ, Typ::Helper(_)));
    }
}

#[test]
fn call_arguments_evaluate_in_textual_order() {
    let out = compile_source("const f 0 end 9 drop f(1, 2) drop");
    let one = out.find("\tmov rax, 1\n").expect("first argument emitted");
    let two = out.find("\tmov rax, 2\n").expect("second argument emitted");
    assert!(one < two);
}

#[test]
fn unclosed_opener_is_a_parse_error() {
    let errs = parse("1 if 2").unwrap_err();
    assert_eq!(errs.len(), 1);
    assert!(errs[0]
        .message
        .contains("Missing an `end` statement to close this block"));
    assert_eq!(errs[0].location, (0, 4));
}

#[test]
fn checker_rejects_sys_call_without_const() {
    let (tokens, functions, consts) = parse("sys::Q").expect("parse");
    let mut checker = TypeChecker::new();
    let r = checker.checks(&tokens, &functions, &consts);
    match r {
        Err(es) => {
            assert_eq!(es.len(), 1);
            assert!(es[0].message.contains("`Q` has no const assossiated"));
        }
        Ok(()) => panic!("a sys call without its argument-count const must be rejected"),
    }
}

#[test]
fn shadowed_function_definition_is_not_lowered() {
    let src = "fn f [void] 1 end fn f [void] end f";
    let (tokens, functions, consts) = parse(src).expect("parse");
    assert_eq!(functions.len(), 2);
    let mut checker = TypeChecker::new();
    checker
        .checks(&tokens, &functions, &consts)
        .expect("only the resolving definition is checked");
    let out = compile_source(src);
    assert_eq!(out.matches("f:\n").count(), 1);
}

#[test]
fn function_with_wrong_return_count_is_rejected() {
    let (tokens, functions, consts) = parse("fn bad [int -> int] drop end").expect("parse");
    let mut checker = TypeChecker::new();
    let r = checker.checks(&tokens, &functions, &consts);
    match r {
        Err(es) => {
            assert_eq!(es.len(), 1);
            assert_eq!(
                es[0].message,
                "`bad` should return 1 values on the stack, but it returns 0 values on the stack"
            );
        }
        Ok(()) => panic!("a body that drops its argument cannot return `int`"),
    }
}

#[test]
fn free_standing_identifier_is_a_code_generation_error() {
    let (tokens, functions, consts) = parse("xyz 1").expect("parse");
    let mut compiler = Compiler::new(functions, consts);
    let r = compiler.compile(tokens);
    match r {
        Err(e) => {
            assert!(e.message.contains("free standing"));
            assert!(e.message.contains("xyz"));
        }
        Ok(()) => panic!("an unresolved identifier not followed by put/fetch must fail"),
    }
}

#[test]
fn variables_get_dense_slots() {
    let out = compile_source("5 x put 6 y put x ! y ! + drop");
    assert!(out.contains("\tpush 0\n\tcall _std@put_variable\n"));
    assert!(out.contains("\tpush 1\n\tcall _std@put_variable\n"));
    assert!(out.contains("\tpush 0\n\tcall _std@fetch_variable\n"));
    assert!(out.contains("\tpush 1\n\tcall _std@fetch_variable\n"));
}

#[test]
fn sys_call_pops_into_argument_registers() {
    let out = compile_source("const W 2 end 1 2 sys::W drop");
    assert!(out.contains("\tpop rcx\n\tpop rdx\n\tcall W\n\tpush rax\n"));
}

#[test]
fn sys_call_without_const_is_rejected() {
    let (tokens, functions, consts) = parse("sys::Q").expect("parse");
    let mut compiler = Compiler::new(functions, consts);
    let r = compiler.compile(tokens);
    match r {
        Err(e) => {
            assert!(e.message.contains("`Q` has no const assossiated"));
        }
        Ok(()) => panic!("a sys call without its argument-count const must fail"),
    }
}

#[test]
fn constants_compile_to_pushes() {
    let out = compile_source("const K 7 end K drop");
    assert!(out.contains("\tpush 7\n"));
}

#[test]
fn string_literals_land_in_the_pool() {
    let out = compile_source("\"hello\" drop");
    assert!(out.contains("\tlea rax, [str_0]\n\tpush rax\n"));
    assert!(out.contains("\tstr_0 db \"hello\",0\n"));
    assert!(out.contains("segment .data\n\t_mem@ret_ptr_idx dw 0\n"));
}

#[test]
fn output_carries_the_fixed_preamble() {
    let out = compile_source("1 drop");
    assert!(out.contains("bits 64\ndefault rel\n"));
    assert!(out.contains("_std@store_ret_ptr:"));
    assert!(out.contains("_std@put_variable:"));
    assert!(out.contains("_std@exit:"));
    assert!(out.contains("_start:\n"));
    assert!(out.contains("call _std@exit\n"));
}
