use mini_rustc::{generate, program, tokenize, CodeGenError, Node, TokenIter, Variable};

fn compile(src: &str) -> Result<String, CodeGenError> {
    let mut toks = TokenIter::new(tokenize(src).unwrap());
    let mut vars = Variable::new("".to_string(), 0, None);
    let node = program(&mut toks, &mut vars).unwrap();
    generate(&node)
}

#[test]
fn number_program_returns_its_value() {
    let text = compile("fn main() { 12; }").unwrap();
    let expected = ".section __TEXT,__text\n\
.globl _main\n\
_main:\n\
\x20   stp x29, x30, [sp, #-16]!\n\
\x20   mov x29, sp\n\
\x20   sub sp, sp, #48\n\
\x20   str x0, [x29, #-8]\n\
\x20   mov x0, #12\n\
\x20   str x0, [sp, #-16]!\n\
\x20   ldr x0, [sp], #16\n\
\x20   add sp, sp, #48\n\
\x20   ldp x29, x30, [sp], #16\n\
\x20   ret\n";
    assert_eq!(text, expected);
}

#[test]
fn largest_number_compiles() {
    let text = compile("fn main() { 18446744073709551615; }").unwrap();
    assert!(text.contains("    mov x0, #18446744073709551615\n"));
}

#[test]
fn binary_op_pops_right_then_left() {
    let text = compile("fn main() { 1 - 2; }").unwrap();
    assert!(text.contains(
        "    mov x0, #1\n    str x0, [sp, #-16]!\n    mov x0, #2\n    str x0, [sp, #-16]!\n    ldr x1, [sp], #16\n    ldr x0, [sp], #16\n    sub x0, x0, x1\n    str x0, [sp, #-16]!\n"
    ));
    let text = compile("fn main() { 1 <= 2; }").unwrap();
    assert!(text.contains("    cmp x0, x1\n    cset x0, le\n"));
}

#[test]
fn sibling_loops_get_distinct_labels() {
    let src = "fn main() { a = 0; for (i = 0; i < 10; i = i + 1) { a = a + 1; } for (i = 0; i < 2; i = i + 1) { while (0) 1; } return a; }";
    let text = compile(src).unwrap();
    assert_eq!(text.matches(".Lfor0:\n").count(), 1);
    assert_eq!(text.matches(".Lfor1:\n").count(), 1);
    assert_eq!(text.matches(".Lloop2:\n").count(), 1);
    assert_eq!(text.matches(".Lend0:\n").count(), 1);
    assert_eq!(text.matches(".Lend1:\n").count(), 1);
    assert_eq!(text.matches(".Lend2:\n").count(), 1);
    assert!(text.contains("    b .Lcond0\n.Lfor0:\n"));
    assert!(text.contains("    bne .Lfor1\n.Lend1:\n"));
}

#[test]
fn nested_ifs_get_distinct_labels() {
    let text = compile("fn main() { if (1) { if (2) 3; else 4; } else 5; }").unwrap();
    assert_eq!(text.matches(".Lelse0:\n").count(), 1);
    assert_eq!(text.matches(".Lelse1:\n").count(), 1);
    assert!(text.contains("    beq .Lelse0\n"));
    assert!(text.contains("    beq .Lelse1\n"));
}

#[test]
fn fibonacci_compiles_with_calls() {
    let src = "fn fib(n: i32) -> i32 { if (n <= 1) { return n; } return fib(n - 1) + fib(n - 2); } fn main() { return fib(10); }";
    let text = compile(src).unwrap();
    assert!(text.contains(".globl _fib\n_fib:\n"));
    assert!(text.contains(".globl _main\n_main:\n"));
    assert!(text.contains("    str x0, [x29, #-8]\n"));
    assert!(text.contains("    ldr x0, [sp], #16\n    stp x29, x30, [sp, #-16]!\n    bl _fib\n    ldp x29, x30, [sp], #16\n"));
}

#[test]
fn call_arguments_fill_registers_in_order() {
    let text = compile("fn main() { f(1, 2, 3); }").unwrap();
    assert!(text.contains("    ldr x2, [sp], #16\n    ldr x1, [sp], #16\n    ldr x0, [sp], #16\n    stp x29, x30"));
}

#[test]
fn array_frame_covers_the_whole_run() {
    let text = compile("fn main() { let arr = [1, 2, 3, 4, 5, 6, 7, 8, 9, 10]; return arr[9]; }").unwrap();
    assert!(text.contains("    sub sp, sp, #80\n"));
    assert!(text.contains("    sub x2, x2, #80\n    str x1, [x2]\n"));
    let text = compile("fn main() { let arr = [1, 2, 3, 4, 5, 6]; x = 1; return arr[0]; }").unwrap();
    assert!(text.contains("    sub sp, sp, #64\n"));
}

#[test]
fn array_indexing_loads_through_the_address() {
    let text = compile("fn main() { let arr = [1, 2, 3]; return arr[2]; }").unwrap();
    assert!(text.contains("    mov x0, x29\n    sub x0, x0, #8\n    str x0, [sp, #-16]!\n"));
    assert!(text.contains("    ldr x0, [sp], #16\n    ldr x0, [x0]\n    str x0, [sp, #-16]!\n"));
}

#[test]
fn string_and_write_syscall() {
    let text = compile("fn main() { let s = \"Hello\"; write(s); }").unwrap();
    assert!(text.contains(".section __DATA,__data\n.L.str.0:\n    .asciz \"Hello\"\n"));
    assert!(text.contains(".Lstrlen_loop1:\n"));
    assert!(text.contains("    svc #0x80\n"));
}

#[test]
fn assignment_to_non_variable_fails() {
    assert_eq!(compile("fn main() { 1 = 2; }"), Err(CodeGenError::AssignToNonVariable));
}

#[test]
fn address_of_literal_fails() {
    assert_eq!(compile("fn main() { &42; }"), Err(CodeGenError::AddrOfNonAddressable));
    let text = compile("fn main() { x = 1; &*x; }").unwrap();
    assert!(text.contains("    sub x2, x2, #8\n    ldr x0, [x2]\n"));
}

#[test]
fn unknown_syscall_fails() {
    let node = Node::Function {
        name: "main".to_string(),
        args: vec![],
        body: Box::new(Node::Syscall { name: "read".to_string(), args: vec![] }),
    };
    assert_eq!(generate(&node), Err(CodeGenError::UnknownSyscall));
}
