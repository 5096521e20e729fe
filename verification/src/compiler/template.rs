//! The fixed assembly preamble the code generator emits before any user
//! code: BSS layout, external symbols, the return-pointer stack, variable
//! slot storage, and process exit.

use vstd::prelude::*;

verus! {

pub open spec fn header_text() -> Seq<char> {
    "\nbits 64\ndefault rel\nsegment .bss\n    _io@print_str_chars_written: resb 4\n    _io@print_char_buffer:  resb 1\n    _mem@mem: resb 256\n    _mem@internal: resb 256\n\t_mem@ret_ptr: resb 6144\n    _mem@variables: resb 24576\n\nsegment .text\n    global _start\n    extern GetStdHandle\n    extern WriteConsoleA\n    extern ExitProcess\n    extern HeapAlloc\n    extern HeapCreate\n    extern HeapReAlloc\n    extern HeapDestroy\n    extern GetProcessHeap\n    extern HeapFree\n    extern printf"@
}

/// The fixed preamble: BSS layout, text-section externs and the entry symbol.
pub fn header() -> (r: &'static str)
    ensures
        r@ == header_text(),
{
    "\nbits 64\ndefault rel\nsegment .bss\n    _io@print_str_chars_written: resb 4\n    _io@print_char_buffer:  resb 1\n    _mem@mem: resb 256\n    _mem@internal: resb 256\n\t_mem@ret_ptr: resb 6144\n    _mem@variables: resb 24576\n\nsegment .text\n    global _start\n    extern GetStdHandle\n    extern WriteConsoleA\n    extern ExitProcess\n    extern HeapAlloc\n    extern HeapCreate\n    extern HeapReAlloc\n    extern HeapDestroy\n    extern GetProcessHeap\n    extern HeapFree\n    extern printf"
}

pub open spec fn ret_ptr_text() -> Seq<char> {
    "\n_std@ret_ptr_addr:\n\txor rax, rax\n\tmov rdx, 8\n\tmov ax, word [_mem@ret_ptr_idx]\n\tmul rdx\n\tlea rbx, [_mem@ret_ptr]\n\tadd rax, rbx\n\tret\n\n_std@store_ret_ptr:\n\tpop r15\n\tpop r14\n\tcall _std@ret_ptr_addr\n\tmov qword [rax], r14\n\tinc word [_mem@ret_ptr_idx]\n\tpush r15\n\tret\n\n_std@load_ret_ptr:\n    pop r15\n\tdec word [_mem@ret_ptr_idx]\n\tcall _std@ret_ptr_addr\n\tmov r14, [rax]\n\tpush r14\n\tpush r15\n\tret"@
}

/// The software return-pointer stack routines.
pub fn ret_ptr() -> (r: &'static str)
    ensures
        r@ == ret_ptr_text(),
{
    "\n_std@ret_ptr_addr:\n\txor rax, rax\n\tmov rdx, 8\n\tmov ax, word [_mem@ret_ptr_idx]\n\tmul rdx\n\tlea rbx, [_mem@ret_ptr]\n\tadd rax, rbx\n\tret\n\n_std@store_ret_ptr:\n\tpop r15\n\tpop r14\n\tcall _std@ret_ptr_addr\n\tmov qword [rax], r14\n\tinc word [_mem@ret_ptr_idx]\n\tpush r15\n\tret\n\n_std@load_ret_ptr:\n    pop r15\n\tdec word [_mem@ret_ptr_idx]\n\tcall _std@ret_ptr_addr\n\tmov r14, [rax]\n\tpush r14\n\tpush r15\n\tret"
}

pub open spec fn print_int_text() -> Seq<char> {
    " "@
}

/// Reserved space for an integer-printing routine.
pub fn print_int() -> (r: &'static str)
    ensures
        r@ == print_int_text(),
{
    " "
}

pub open spec fn variables_text() -> Seq<char> {
    "\n_std@put_variable:\n    pop r15\n    pop rax ;variable idx\n    pop rbx ;variable\n\tmov rdx, 8\n\tmul rdx\n\tlea rcx, [_mem@variables]\n\tadd rax, rcx\n    mov qword [rax], rbx\n    push r15\n\tret\n\n_std@fetch_variable:\n    pop r15\n    pop rax ;variable idx\n\tmov rdx, 8\n\tmul rdx\n\tlea rcx, [_mem@variables]\n\tadd rax, rcx\n    mov rbx, qword [rax]\n    push rbx\n    push r15\n\tret"@
}

/// The variable-slot store and fetch routines.
pub fn variables() -> (r: &'static str)
    ensures
        r@ == variables_text(),
{
    "\n_std@put_variable:\n    pop r15\n    pop rax ;variable idx\n    pop rbx ;variable\n\tmov rdx, 8\n\tmul rdx\n\tlea rcx, [_mem@variables]\n\tadd rax, rcx\n    mov qword [rax], rbx\n    push r15\n\tret\n\n_std@fetch_variable:\n    pop r15\n    pop rax ;variable idx\n\tmov rdx, 8\n\tmul rdx\n\tlea rcx, [_mem@variables]\n\tadd rax, rcx\n    mov rbx, qword [rax]\n    push rbx\n    push r15\n\tret"
}

pub open spec fn exit_text() -> Seq<char> {
    "\n_std@exit:\n    lea rax, [_mem@internal]\n    add rax, 32\n    mov rcx, qword [rax]\n    call HeapDestroy\n    xor rcx, rcx\n    call ExitProcess\n    ret"@
}

/// The process-exit routine.
pub fn exit() -> (r: &'static str)
    ensures
        r@ == exit_text(),
{
    "\n_std@exit:\n    lea rax, [_mem@internal]\n    add rax, 32\n    mov rcx, qword [rax]\n    call HeapDestroy\n    xor rcx, rcx\n    call ExitProcess\n    ret"
}

} // verus!
