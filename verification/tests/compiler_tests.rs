use minicc::ast::FunctionAST;
use minicc::compiler::compile_function_ast;
use minicc::error::format_error;
use minicc::generate_assembly;
use minicc::tokenizer::{text_tokenizer, ProgramText};

fn compile_program(text: &str) -> Result<Vec<String>, (String, usize)> {
    let program = ProgramText::new(text);
    generate_assembly(&program).map_err(|e| (String::from(e.message), e.pos))
}

#[test]
fn simple_return_compiles_to_exact_assembly() {
    let lines = compile_program("int main() { return 10 + 20 - 8; }").unwrap();
    let expected = vec![
        ".intel_syntax noprefix",
        ".globl main",
        "",
        "",
        "main:",
        "    push rbp",
        "    mov rbp, rsp",
        "    push 10",
        "    push 20",
        "    pop rdi",
        "    pop rax",
        "    add rax, rdi",
        "    push rax",
        "    push 8",
        "    pop rdi",
        "    pop rax",
        "    sub rax, rdi",
        "    push rax",
        "    pop rax",
        "    mov rsp, rbp",
        "    pop rbp",
        "    ret",
        "    pop rax",
        "    mov rsp, rbp",
        "    pop rbp",
        "    ret",
    ];
    assert_eq!(lines, expected.into_iter().map(String::from).collect::<Vec<String>>());
}

#[test]
fn locals_reserve_an_aligned_frame() {
    let lines =
        compile_program("int main() { int a; int b; a = 3; b = 5 * 6 - 8; return a + b / 2; }")
            .unwrap();
    // Two locals are sixteen bytes: already aligned.
    assert!(lines.contains(&String::from("    sub rsp, 16")));
    // Storing into `a` addresses the first slot.
    assert!(lines.contains(&String::from("    sub rax, 8")));
    assert!(lines.contains(&String::from("    mov [rax], rdi")));
}

#[test]
fn odd_local_count_pads_to_sixteen_bytes() {
    let lines = compile_program("int main() { int a; a = 1; return a; }").unwrap();
    assert!(lines.contains(&String::from("    sub rsp, 16")));
}

#[test]
fn for_loop_emits_begin_and_end_labels() {
    let lines = compile_program(
        "int main() { int i; int s; s = 0; for (i = 0; i < 10; i = i + 1) s = s + i; return s; }",
    )
    .unwrap();
    assert!(lines.contains(&String::from(".Lbegin0:")));
    assert!(lines.contains(&String::from("    je .Lend0")));
    assert!(lines.contains(&String::from("    jmp .Lbegin0")));
    assert!(lines.contains(&String::from(".Lend0:")));
    assert!(lines.contains(&String::from("    setl al")));
    assert!(lines.contains(&String::from("    movzx rax, al")));
}

#[test]
fn if_else_emits_else_and_end_labels() {
    let lines = compile_program(
        "int main() { int x; int y; x = 3; y = 5; if (x < y) return y; else return x; }",
    )
    .unwrap();
    assert!(lines.contains(&String::from("    je .Lelse0")));
    assert!(lines.contains(&String::from(".Lelse0:")));
    assert!(lines.contains(&String::from("    jmp .Lend0")));
    assert!(lines.contains(&String::from(".Lend0:")));
}

#[test]
fn call_passes_arguments_in_abi_registers() {
    let lines =
        compile_program("int add(int a, int b) { return a + b; } int main() { return add(6, 7); }")
            .unwrap();
    assert!(lines.contains(&String::from("add:")));
    assert!(lines.contains(&String::from("main:")));
    assert!(lines.contains(&String::from("    mov [rbp - 8], rdi")));
    assert!(lines.contains(&String::from("    mov [rbp - 16], rsi")));
    assert!(lines.contains(&String::from("    pop rdi")));
    assert!(lines.contains(&String::from("    pop rsi")));
    assert!(lines.contains(&String::from("    call add")));
}

#[test]
fn address_of_and_dereference_compile() {
    let lines =
        compile_program("int main() { int x; int y; x = 3; y = &x; return *y; }").unwrap();
    // `&x` pushes the address of the first slot without loading it.
    assert!(lines.contains(&String::from("    mov rax, rbp")));
    // `*y` loads through the value on the stack.
    assert!(lines.contains(&String::from("    mov rax, [rax]")));
}

#[test]
fn labels_are_unique_across_functions() {
    let lines = compile_program(
        "int f() { if (1) return 2; return 3; } int main() { if (0) return 4; return f(); }",
    )
    .unwrap();
    assert!(lines.contains(&String::from(".Lend0:")));
    assert!(lines.contains(&String::from(".Lend1:")));
    assert_eq!(lines.iter().filter(|l| l.as_str() == ".Lend0:").count(), 1);
}

#[test]
fn assignment_to_non_lvalue_reports_at_equals_sign() {
    let text = "int main() { 1 = 2; }";
    let err = compile_program(text).unwrap_err();
    assert_eq!(err.0, "left value is not correct");
    assert_eq!(err.1, 15);
    assert_eq!(text.as_bytes()[15], b'=');
}

#[test]
fn non_lvalue_error_renders_a_caret_under_the_equals_sign() {
    let text = "int main() { 1 = 2; }";
    let program = ProgramText::new(text);
    let error = generate_assembly(&program).unwrap_err();
    let (first, second) = format_error(&program, &error);
    assert_eq!(first, String::from("line1: int main() { 1 = 2; }"));
    // The caret stands under column 15, after the "line1: " prefix.
    assert_eq!(second.chars().nth(7 + 15), Some('^'));
    assert_eq!(second, format!("{}^left value is not correct", " ".repeat(22)));
}

#[test]
fn address_of_non_variable_reports_at_ampersand() {
    let text = "int main() { int x; x = &1; return x; }";
    let err = compile_program(text).unwrap_err();
    assert_eq!(err.0, "address-of operand must be a variable");
    assert_eq!(err.1, 24);
    assert_eq!(text.as_bytes()[24], b'&');
}

#[test]
fn compile_function_ast_renders_one_function() {
    let program = ProgramText::new("int one() { return 1; }");
    let lists = text_tokenizer(&program).unwrap();
    let mut list = lists.into_iter().next().unwrap();
    let function_ast = FunctionAST::make_function_ast(&mut list, &program).unwrap();
    let lines = compile_function_ast(function_ast).unwrap();
    let expected = vec![
        "",
        "one:",
        "    push rbp",
        "    mov rbp, rsp",
        "    push 1",
        "    pop rax",
        "    mov rsp, rbp",
        "    pop rbp",
        "    ret",
        "    pop rax",
        "    mov rsp, rbp",
        "    pop rbp",
        "    ret",
    ];
    assert_eq!(lines, expected.into_iter().map(String::from).collect::<Vec<String>>());
}

#[test]
fn header_lines_are_fixed() {
    let lines = compile_program("int main() { return 0; }").unwrap();
    assert_eq!(lines[0], String::from(".intel_syntax noprefix"));
    assert_eq!(lines[1], String::from(".globl main"));
    assert_eq!(lines[2], String::from(""));
}

#[test]
fn division_uses_sign_extension() {
    let lines = compile_program("int main() { return 7 / 2; }").unwrap();
    assert!(lines.contains(&String::from("    cqo")));
    assert!(lines.contains(&String::from("    idiv rdi")));
}

#[test]
fn equality_comparison_sets_flags() {
    let lines = compile_program("int main() { return 1 == 1; }").unwrap();
    assert!(lines.contains(&String::from("    sete al")));
    let lines = compile_program("int main() { return 1 != 2; }").unwrap();
    assert!(lines.contains(&String::from("    setne al")));
}

#[test]
fn while_loop_compiles() {
    let lines =
        compile_program("int main() { int i; i = 0; while (i < 3) i = i + 1; return i; }")
            .unwrap();
    assert!(lines.contains(&String::from(".Lbegin0:")));
    assert!(lines.contains(&String::from("    jmp .Lbegin0")));
}

#[test]
fn greater_than_compiles_via_setl() {
    // `a > b` is evaluated as `b < a`: only setl appears, never a setg.
    let lines =
        compile_program("int main() { int a; int b; a = 2; b = 1; return a > b; }").unwrap();
    assert!(lines.contains(&String::from("    setl al")));
    assert!(!lines.iter().any(|l| l.contains("setg")));
}
