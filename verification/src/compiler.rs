//! The code generator: a tree walk that emits x86-64 instructions for a
//! stack-machine evaluation model, together with the exact text of each
//! instruction in Intel syntax.
//!
//! The generator is specified twice: `spec_compile_node` states, as a
//! mathematical function, exactly which instructions a tree compiles to and
//! how the label counters advance, and the executable `compile_node` is
//! proved to produce that sequence.

use vstd::prelude::*;

use crate::ast::{ASTNode, FunctionAST, FuntionInfo, PrimaryNodeKind, AST};
use crate::error::CompileError;
use crate::text::{append_dec, dec_of, push_char};
use crate::tokenizer::OperationKind;

verus! {

/// Which family a generated label belongs to: `.Lend`, `.Lelse`, `.Lbegin`.
#[derive(Debug, PartialEq, Eq, Structural, Clone, Copy)]
pub enum LabelKind {
    End,
    Else,
    Begin,
}

/// One emitted assembly line. Register-to-register forms carry no payload;
/// immediates, frame offsets, label numbers and call targets are payloads.
pub enum Instr {
    Blank,
    FuncLabel(String),
    PushRbp,
    MovRbpRsp,
    SubRsp(usize),
    MovRspRbp,
    PopRbp,
    Ret,
    StoreArg(usize),
    PushImm(i32),
    PushRax,
    PushRdi,
    PopRax,
    PopRdi,
    PopArg(usize),
    MovRaxRbp,
    SubRaxImm(usize),
    LoadRax,
    StoreRdi,
    AddRaxRdi,
    SubRaxRdi,
    ImulRaxRdi,
    Cqo,
    IdivRdi,
    CmpRaxRdi,
    CmpRaxZero,
    SetE,
    SetNe,
    SetL,
    SetLe,
    MovzxRaxAl,
    Call(String),
    Label(LabelKind, usize),
    Je(LabelKind, usize),
    Jmp(LabelKind, usize),
}

/// The argument register for the given argument position, in System V
/// order; positions past the sixth clamp to the last register, but the
/// generator never emits them.
pub open spec fn arg_reg(i: int) -> Seq<char> {
    if i == 0 {
        "rdi"@
    } else if i == 1 {
        "rsi"@
    } else if i == 2 {
        "rdx"@
    } else if i == 3 {
        "rcx"@
    } else if i == 4 {
        "r8"@
    } else {
        "r9"@
    }
}

/// The text of a label of the given family and number, without the colon.
pub open spec fn label_text(kind: LabelKind, k: int) -> Seq<char> {
    ".L"@ + (match kind {
        LabelKind::End => "end"@,
        LabelKind::Else => "else"@,
        LabelKind::Begin => "begin"@,
    }) + dec_of(k as nat)
}

/// The decimal text of a 32-bit signed immediate.
pub open spec fn dec_i32(n: int) -> Seq<char> {
    if n >= 0 {
        dec_of(n as nat)
    } else {
        "-"@ + dec_of((-n) as nat)
    }
}

/// The exact assembly text of one instruction.
pub open spec fn instr_text(i: Instr) -> Seq<char> {
    match i {
        Instr::Blank => ""@,
        Instr::FuncLabel(name) => name@ + ":"@,
        Instr::PushRbp => "    push rbp"@,
        Instr::MovRbpRsp => "    mov rbp, rsp"@,
        Instr::SubRsp(n) => "    sub rsp, "@ + dec_of(n as nat),
        Instr::MovRspRbp => "    mov rsp, rbp"@,
        Instr::PopRbp => "    pop rbp"@,
        Instr::Ret => "    ret"@,
        Instr::StoreArg(i) => "    mov [rbp - "@ + dec_of(8 * (clamp_arg(i as int) + 1) as nat)
            + "], "@ + arg_reg(clamp_arg(i as int)),
        Instr::PushImm(n) => "    push "@ + dec_i32(n as int),
        Instr::PushRax => "    push rax"@,
        Instr::PushRdi => "    push rdi"@,
        Instr::PopRax => "    pop rax"@,
        Instr::PopRdi => "    pop rdi"@,
        Instr::PopArg(i) => "    pop "@ + arg_reg(clamp_arg(i as int)),
        Instr::MovRaxRbp => "    mov rax, rbp"@,
        Instr::SubRaxImm(n) => "    sub rax, "@ + dec_of(n as nat),
        Instr::LoadRax => "    mov rax, [rax]"@,
        Instr::StoreRdi => "    mov [rax], rdi"@,
        Instr::AddRaxRdi => "    add rax, rdi"@,
        Instr::SubRaxRdi => "    sub rax, rdi"@,
        Instr::ImulRaxRdi => "    imul rax, rdi"@,
        Instr::Cqo => "    cqo"@,
        Instr::IdivRdi => "    idiv rdi"@,
        Instr::CmpRaxRdi => "    cmp rax, rdi"@,
        Instr::CmpRaxZero => "    cmp rax, 0"@,
        Instr::SetE => "    sete al"@,
        Instr::SetNe => "    setne al"@,
        Instr::SetL => "    setl al"@,
        Instr::SetLe => "    setle al"@,
        Instr::MovzxRaxAl => "    movzx rax, al"@,
        Instr::Call(name) => "    call "@ + name@,
        Instr::Label(kind, k) => label_text(kind, k as int) + ":"@,
        Instr::Je(kind, k) => "    je "@ + label_text(kind, k as int),
        Instr::Jmp(kind, k) => "    jmp "@ + label_text(kind, k as int),
    }
}

pub open spec fn clamp_arg(i: int) -> int {
    if i < 5 {
        i
    } else {
        5
    }
}

fn append_arg_reg(s: &mut String, i: usize)
    ensures
        final(s)@ == old(s)@ + arg_reg(clamp_arg(i as int)),
{
    if i == 0 {
        s.append("rdi");
    } else if i == 1 {
        s.append("rsi");
    } else if i == 2 {
        s.append("rdx");
    } else if i == 3 {
        s.append("rcx");
    } else if i == 4 {
        s.append("r8");
    } else {
        s.append("r9");
    }
}

fn append_label(s: &mut String, kind: &LabelKind, k: usize)
    ensures
        final(s)@ == old(s)@ + label_text(*kind, k as int),
{
    s.append(".L");
    match kind {
        LabelKind::End => s.append("end"),
        LabelKind::Else => s.append("else"),
        LabelKind::Begin => s.append("begin"),
    }
    append_dec(s, k as u64);
    proof {
        assert(final(s)@ =~= old(s)@ + label_text(*kind, k as int));
    }
}

/// Renders one instruction as its assembly text line.
pub fn render_instruction(i: &Instr) -> (r: String)
    ensures
        r@ == instr_text(*i),
{
    match i {
        Instr::Blank => {
            let s = String::new();
            proof {
                reveal_strlit("");
                assert(s@ =~= ""@);
            }
            s
        },
        Instr::FuncLabel(name) => {
            let mut s = name.clone();
            proof {
                assert(s@ == name@);
            }
            s.append(":");
            s
        },
        Instr::PushRbp => String::from_str("    push rbp"),
        Instr::MovRbpRsp => String::from_str("    mov rbp, rsp"),
        Instr::SubRsp(n) => {
            let mut s = String::from_str("    sub rsp, ");
            append_dec(&mut s, *n as u64);
            s
        },
        Instr::MovRspRbp => String::from_str("    mov rsp, rbp"),
        Instr::PopRbp => String::from_str("    pop rbp"),
        Instr::Ret => String::from_str("    ret"),
        Instr::StoreArg(idx) => {
            let clamped = if *idx < 5 {
                *idx
            } else {
                5
            };
            let mut s = String::from_str("    mov [rbp - ");
            append_dec(&mut s, 8 * (clamped as u64 + 1));
            s.append("], ");
            append_arg_reg(&mut s, clamped);
            proof {
                assert(s@ =~= instr_text(*i));
            }
            s
        },
        Instr::PushImm(n) => {
            let mut s = String::from_str("    push ");
            if *n >= 0 {
                append_dec(&mut s, *n as u64);
            } else {
                push_char(&mut s, '-');
                let magnitude = -(*n as i64);
                append_dec(&mut s, magnitude as u64);
                proof {
                    reveal_strlit("-");
                    assert("-"@ =~= Seq::<char>::empty().push('-'));
                    assert(s@ =~= "    push "@ + dec_i32(*n as int));
                }
            }
            s
        },
        Instr::PushRax => String::from_str("    push rax"),
        Instr::PushRdi => String::from_str("    push rdi"),
        Instr::PopRax => String::from_str("    pop rax"),
        Instr::PopRdi => String::from_str("    pop rdi"),
        Instr::PopArg(idx) => {
            let clamped = if *idx < 5 {
                *idx
            } else {
                5
            };
            let mut s = String::from_str("    pop ");
            append_arg_reg(&mut s, clamped);
            s
        },
        Instr::MovRaxRbp => String::from_str("    mov rax, rbp"),
        Instr::SubRaxImm(n) => {
            let mut s = String::from_str("    sub rax, ");
            append_dec(&mut s, *n as u64);
            s
        },
        Instr::LoadRax => String::from_str("    mov rax, [rax]"),
        Instr::StoreRdi => String::from_str("    mov [rax], rdi"),
        Instr::AddRaxRdi => String::from_str("    add rax, rdi"),
        Instr::SubRaxRdi => String::from_str("    sub rax, rdi"),
        Instr::ImulRaxRdi => String::from_str("    imul rax, rdi"),
        Instr::Cqo => String::from_str("    cqo"),
        Instr::IdivRdi => String::from_str("    idiv rdi"),
        Instr::CmpRaxRdi => String::from_str("    cmp rax, rdi"),
        Instr::CmpRaxZero => String::from_str("    cmp rax, 0"),
        Instr::SetE => String::from_str("    sete al"),
        Instr::SetNe => String::from_str("    setne al"),
        Instr::SetL => String::from_str("    setl al"),
        Instr::SetLe => String::from_str("    setle al"),
        Instr::MovzxRaxAl => String::from_str("    movzx rax, al"),
        Instr::Call(name) => {
            let mut s = String::from_str("    call ");
            s.append(name.as_str());
            s
        },
        Instr::Label(kind, k) => {
            let mut s = String::new();
            append_label(&mut s, kind, *k);
            s.append(":");
            s
        },
        Instr::Je(kind, k) => {
            let mut s = String::from_str("    je ");
            append_label(&mut s, kind, *k);
            s
        },
        Instr::Jmp(kind, k) => {
            let mut s = String::from_str("    jmp ");
            append_label(&mut s, kind, *k);
            s
        },
    }
}


/// The three label counters of the generator. Each counter is drawn and then
/// advanced when a construct needs a fresh label of its family.
#[derive(Debug, PartialEq, Eq, Structural, Clone, Copy)]
pub struct GenCounts {
    pub end_count: usize,
    pub else_count: usize,
    pub begin_count: usize,
}

/// A freshly drawn counter advances by one; at the top of the machine word
/// it stays put, a case no real program reaches.
pub open spec fn bump(c: usize) -> usize {
    if c < usize::MAX {
        (c + 1) as usize
    } else {
        c
    }
}

/// What compiling a tree yields: the emitted instructions and the advanced
/// counters, or a positioned error.
pub enum GenOutcome {
    Emitted(Seq<Instr>, GenCounts),
    Failed(Seq<char>, nat),
}

/// Pushes the address of the local variable at `offset` below the frame
/// base.
pub open spec fn local_address_code(offset: usize) -> Seq<Instr> {
    seq![Instr::MovRaxRbp, Instr::SubRaxImm(offset), Instr::PushRax]
}

/// Replaces the address on top of the stack by the value it points to.
pub open spec fn load_top_code() -> Seq<Instr> {
    seq![Instr::PopRax, Instr::LoadRax, Instr::PushRax]
}

/// Stores the value on top of the stack through the address below it, and
/// leaves the stored value on the stack.
pub open spec fn store_code() -> Seq<Instr> {
    seq![Instr::PopRdi, Instr::PopRax, Instr::StoreRdi, Instr::PushRdi]
}

/// Evaluates the returned value into `rax` and leaves the function.
pub open spec fn return_code() -> Seq<Instr> {
    seq![Instr::PopRax, Instr::MovRspRbp, Instr::PopRbp, Instr::Ret]
}

/// The instructions between `pop rdi; pop rax` and `push rax` for one binary
/// operator. `Gt` and `Ge` never reach the generator: the parser normalizes
/// them away.
pub open spec fn operation_code(op: OperationKind) -> Seq<Instr> {
    match op {
        OperationKind::Add => seq![Instr::AddRaxRdi],
        OperationKind::Sub => seq![Instr::SubRaxRdi],
        OperationKind::Mul => seq![Instr::ImulRaxRdi],
        OperationKind::Div => seq![Instr::Cqo, Instr::IdivRdi],
        OperationKind::Eq => seq![Instr::CmpRaxRdi, Instr::SetE, Instr::MovzxRaxAl],
        OperationKind::Ne => seq![Instr::CmpRaxRdi, Instr::SetNe, Instr::MovzxRaxAl],
        OperationKind::Lt => seq![Instr::CmpRaxRdi, Instr::SetL, Instr::MovzxRaxAl],
        OperationKind::Le => seq![Instr::CmpRaxRdi, Instr::SetLe, Instr::MovzxRaxAl],
        OperationKind::Gt => Seq::empty(),
        OperationKind::Ge => Seq::empty(),
    }
}

/// Exactly which instructions a tree compiles to, and how the counters
/// advance — or which error the structural checks report. The executable
/// generator is proved to match this function.
pub open spec fn spec_compile_node(n: ASTNode, c: GenCounts) -> GenOutcome
    decreases n, 1int,
{
    match n {
        ASTNode::Primary(PrimaryNodeKind::Number(num)) => GenOutcome::Emitted(
            seq![Instr::PushImm(num)],
            c,
        ),
        ASTNode::Primary(PrimaryNodeKind::LocalVariable(offset)) => GenOutcome::Emitted(
            local_address_code(offset) + load_top_code(),
            c,
        ),
        ASTNode::Operation(op, l, r) => {
            if op == OperationKind::Gt || op == OperationKind::Ge {
                GenOutcome::Failed("comparison is not normalized"@, 0)
            } else {
                match spec_compile_node(*l, c) {
                    GenOutcome::Failed(m, p) => GenOutcome::Failed(m, p),
                    GenOutcome::Emitted(left_code, c1) => match spec_compile_node(*r, c1) {
                        GenOutcome::Failed(m, p) => GenOutcome::Failed(m, p),
                        GenOutcome::Emitted(right_code, c2) => GenOutcome::Emitted(
                            left_code + right_code + seq![Instr::PopRdi, Instr::PopRax]
                                + operation_code(op) + seq![Instr::PushRax],
                            c2,
                        ),
                    },
                }
            }
        },
        ASTNode::Assign(pos, l, r) => {
            let address = match *l {
                ASTNode::Primary(PrimaryNodeKind::LocalVariable(offset)) => GenOutcome::Emitted(
                    local_address_code(offset),
                    c,
                ),
                ASTNode::Dereference(_, inner) => spec_compile_node(*inner, c),
                _ => GenOutcome::Failed("left value is not correct"@, pos as nat),
            };
            match address {
                GenOutcome::Failed(m, p) => GenOutcome::Failed(m, p),
                GenOutcome::Emitted(address_code, c1) => match spec_compile_node(*r, c1) {
                    GenOutcome::Failed(m, p) => GenOutcome::Failed(m, p),
                    GenOutcome::Emitted(value_code, c2) => GenOutcome::Emitted(
                        address_code + value_code + store_code(),
                        c2,
                    ),
                },
            }
        },
        ASTNode::Return(e) => {
            match spec_compile_node(*e, c) {
                GenOutcome::Failed(m, p) => GenOutcome::Failed(m, p),
                GenOutcome::Emitted(value_code, c1) => GenOutcome::Emitted(
                    value_code + return_code(),
                    c1,
                ),
            }
        },
        ASTNode::If(cond, then_branch) => {
            match spec_compile_node(*cond, c) {
                GenOutcome::Failed(m, p) => GenOutcome::Failed(m, p),
                GenOutcome::Emitted(cond_code, c1) => {
                    let k = c1.end_count;
                    let c2 = GenCounts { end_count: bump(k), ..c1 };
                    match spec_compile_node(*then_branch, c2) {
                        GenOutcome::Failed(m, p) => GenOutcome::Failed(m, p),
                        GenOutcome::Emitted(then_code, c3) => GenOutcome::Emitted(
                            cond_code + seq![
                                Instr::PopRax,
                                Instr::CmpRaxZero,
                                Instr::Je(LabelKind::End, k),
                            ] + then_code + seq![Instr::Label(LabelKind::End, k)],
                            c3,
                        ),
                    }
                },
            }
        },
        ASTNode::IfElse(cond, then_branch, else_branch) => {
            match spec_compile_node(*cond, c) {
                GenOutcome::Failed(m, p) => GenOutcome::Failed(m, p),
                GenOutcome::Emitted(cond_code, c1) => {
                    let j = c1.else_count;
                    let c2 = GenCounts { else_count: bump(j), ..c1 };
                    let k = c2.end_count;
                    let c3 = GenCounts { end_count: bump(k), ..c2 };
                    match spec_compile_node(*then_branch, c3) {
                        GenOutcome::Failed(m, p) => GenOutcome::Failed(m, p),
                        GenOutcome::Emitted(then_code, c4) => match spec_compile_node(
                            *else_branch,
                            c4,
                        ) {
                            GenOutcome::Failed(m, p) => GenOutcome::Failed(m, p),
                            GenOutcome::Emitted(else_code, c5) => GenOutcome::Emitted(
                                cond_code + seq![
                                    Instr::PopRax,
                                    Instr::CmpRaxZero,
                                    Instr::Je(LabelKind::Else, j),
                                ] + then_code + seq![
                                    Instr::Jmp(LabelKind::End, k),
                                    Instr::Label(LabelKind::Else, j),
                                ] + else_code + seq![Instr::Label(LabelKind::End, k)],
                                c5,
                            ),
                        },
                    }
                },
            }
        },
        ASTNode::While(cond, body) => {
            let b = c.begin_count;
            let c1 = GenCounts { begin_count: bump(b), ..c };
            match spec_compile_node(*cond, c1) {
                GenOutcome::Failed(m, p) => GenOutcome::Failed(m, p),
                GenOutcome::Emitted(cond_code, c2) => {
                    let k = c2.end_count;
                    let c3 = GenCounts { end_count: bump(k), ..c2 };
                    match spec_compile_node(*body, c3) {
                        GenOutcome::Failed(m, p) => GenOutcome::Failed(m, p),
                        GenOutcome::Emitted(body_code, c4) => GenOutcome::Emitted(
                            seq![Instr::Label(LabelKind::Begin, b)] + cond_code + seq![
                                Instr::PopRax,
                                Instr::CmpRaxZero,
                                Instr::Je(LabelKind::End, k),
                            ] + body_code + seq![
                                Instr::Jmp(LabelKind::Begin, b),
                                Instr::Label(LabelKind::End, k),
                            ],
                            c4,
                        ),
                    }
                },
            }
        },
        ASTNode::For(init, cond, update, body) => {
            // When no condition is present nothing ever jumps to an end
            // label, so none is emitted; with a condition, the shape is the
            // usual test-jump-body-loop.
            match spec_compile_opt(init, c) {
                GenOutcome::Failed(m, p) => GenOutcome::Failed(m, p),
                GenOutcome::Emitted(init_code, c1) => {
                    let b = c1.begin_count;
                    let c2 = GenCounts { begin_count: bump(b), ..c1 };
                    match spec_compile_opt(cond, c2) {
                        GenOutcome::Failed(m, p) => GenOutcome::Failed(m, p),
                        GenOutcome::Emitted(cond_code, c3) => {
                            let k = c3.end_count;
                            let c4 = if cond is Some {
                                GenCounts { end_count: bump(k), ..c3 }
                            } else {
                                c3
                            };
                            let test_code = if cond is Some {
                                cond_code + seq![
                                    Instr::PopRax,
                                    Instr::CmpRaxZero,
                                    Instr::Je(LabelKind::End, k),
                                ]
                            } else {
                                Seq::empty()
                            };
                            match spec_compile_node(*body, c4) {
                                GenOutcome::Failed(m, p) => GenOutcome::Failed(m, p),
                                GenOutcome::Emitted(body_code, c5) => match spec_compile_opt(
                                    update,
                                    c5,
                                ) {
                                    GenOutcome::Failed(m, p) => GenOutcome::Failed(m, p),
                                    GenOutcome::Emitted(update_code, c6) => GenOutcome::Emitted(
                                        init_code + seq![Instr::Label(LabelKind::Begin, b)]
                                            + test_code + body_code + update_code + seq![
                                            Instr::Jmp(LabelKind::Begin, b),
                                        ] + (if cond is Some {
                                            seq![Instr::Label(LabelKind::End, k)]
                                        } else {
                                            Seq::empty()
                                        }),
                                        c6,
                                    ),
                                },
                            }
                        },
                    }
                },
            }
        },
        ASTNode::MultStmt(stmts) => spec_compile_stmts(stmts@, c),
        ASTNode::FunctionCall(name, args) => {
            match spec_compile_args(args@, 0, c) {
                GenOutcome::Failed(m, p) => GenOutcome::Failed(m, p),
                GenOutcome::Emitted(args_code, c1) => GenOutcome::Emitted(
                    args_code + seq![Instr::Call(name), Instr::PushRax],
                    c1,
                ),
            }
        },
        ASTNode::Reference(pos, operand) => {
            match *operand {
                ASTNode::Primary(PrimaryNodeKind::LocalVariable(offset)) => GenOutcome::Emitted(
                    local_address_code(offset),
                    c,
                ),
                _ => GenOutcome::Failed("address-of operand must be a variable"@, pos as nat),
            }
        },
        ASTNode::Dereference(_, operand) => {
            match spec_compile_node(*operand, c) {
                GenOutcome::Failed(m, p) => GenOutcome::Failed(m, p),
                GenOutcome::Emitted(operand_code, c1) => GenOutcome::Emitted(
                    operand_code + load_top_code(),
                    c1,
                ),
            }
        },
    }
}

/// Compiles an optional tree: nothing is emitted for an absent one.
pub open spec fn spec_compile_opt(n: Option<Box<ASTNode>>, c: GenCounts) -> GenOutcome
    decreases n, 2int,
{
    match n {
        Some(node) => spec_compile_node(*node, c),
        None => GenOutcome::Emitted(Seq::empty(), c),
    }
}

/// Compiles the statements of a compound. Every statement leaves one value
/// on the stack, and a `pop rax` discards it — except after the last
/// statement, whose value the compound hands to its surroundings.
pub open spec fn spec_compile_stmts(stmts: Seq<ASTNode>, c: GenCounts) -> GenOutcome
    decreases stmts, 2int,
{
    if stmts.len() == 0 {
        GenOutcome::Emitted(Seq::empty(), c)
    } else if stmts.len() == 1 {
        spec_compile_node(stmts[0], c)
    } else {
        match spec_compile_node(stmts[0], c) {
            GenOutcome::Failed(m, p) => GenOutcome::Failed(m, p),
            GenOutcome::Emitted(first_code, c1) => match spec_compile_stmts(
                stmts.drop_first(),
                c1,
            ) {
                GenOutcome::Failed(m, p) => GenOutcome::Failed(m, p),
                GenOutcome::Emitted(rest_code, c2) => GenOutcome::Emitted(
                    first_code + seq![Instr::PopRax] + rest_code,
                    c2,
                ),
            },
        }
    }
}

/// Compiles a call's arguments: each one's value is evaluated and popped
/// into its System V argument register.
pub open spec fn spec_compile_args(args: Seq<ASTNode>, idx: int, c: GenCounts) -> GenOutcome
    decreases args, 2int,
{
    if args.len() == 0 {
        GenOutcome::Emitted(Seq::empty(), c)
    } else {
        match spec_compile_node(args[0], c) {
            GenOutcome::Failed(m, p) => GenOutcome::Failed(m, p),
            GenOutcome::Emitted(first_code, c1) => match spec_compile_args(
                args.drop_first(),
                idx + 1,
                c1,
            ) {
                GenOutcome::Failed(m, p) => GenOutcome::Failed(m, p),
                GenOutcome::Emitted(rest_code, c2) => GenOutcome::Emitted(
                    first_code + seq![Instr::PopArg(idx as usize)] + rest_code,
                    c2,
                ),
            },
        }
    }
}

/// The generator's state: the instructions emitted so far and the three
/// label counters.
pub struct Instructions {
    pub vec: Vec<Instr>,
    pub end_count: usize,
    pub else_count: usize,
    pub begin_count: usize,
}

impl Instructions {
    pub open spec fn counts(&self) -> GenCounts {
        GenCounts {
            end_count: self.end_count,
            else_count: self.else_count,
            begin_count: self.begin_count,
        }
    }

    pub fn new() -> (r: Instructions)
        ensures
            r.vec@ == Seq::<Instr>::empty(),
            r.counts() == (GenCounts { end_count: 0, else_count: 0, begin_count: 0 }),
    {
        Instructions { vec: Vec::new(), end_count: 0, else_count: 0, begin_count: 0 }
    }

    pub fn push(&mut self, instruction: Instr)
        ensures
            final(self).vec@ == old(self).vec@.push(instruction),
            final(self).counts() == old(self).counts(),
    {
        self.vec.push(instruction);
    }

    pub fn end_count_up(&mut self)
        ensures
            final(self).vec@ == old(self).vec@,
            final(self).end_count == bump(old(self).end_count),
            final(self).else_count == old(self).else_count,
            final(self).begin_count == old(self).begin_count,
    {
        if self.end_count < usize::MAX {
            self.end_count = self.end_count + 1;
        }
    }

    pub fn else_count_up(&mut self)
        ensures
            final(self).vec@ == old(self).vec@,
            final(self).else_count == bump(old(self).else_count),
            final(self).end_count == old(self).end_count,
            final(self).begin_count == old(self).begin_count,
    {
        if self.else_count < usize::MAX {
            self.else_count = self.else_count + 1;
        }
    }

    pub fn begin_count_up(&mut self)
        ensures
            final(self).vec@ == old(self).vec@,
            final(self).begin_count == bump(old(self).begin_count),
            final(self).end_count == old(self).end_count,
            final(self).else_count == old(self).else_count,
    {
        if self.begin_count < usize::MAX {
            self.begin_count = self.begin_count + 1;
        }
    }
}

/// Pushes the address of the local variable at `offset` below the frame
/// base.
fn push_local_variable_address(offset: usize, instructions: &mut Instructions)
    ensures
        final(instructions).vec@ == old(instructions).vec@ + local_address_code(offset),
        final(instructions).counts() == old(instructions).counts(),
{
    let ghost v0 = instructions.vec@;
    instructions.push(Instr::MovRaxRbp);
    instructions.push(Instr::SubRaxImm(offset));
    instructions.push(Instr::PushRax);
    proof {
        assert(instructions.vec@ =~= v0 + local_address_code(offset));
    }
}

/// Compiles one tree into instructions, exactly as `spec_compile_node`
/// states it: on success the stated instructions are appended and the
/// counters advance as stated; the structural errors (an assignment to a
/// non-lvalue, an address-of on a non-variable) are exactly the stated ones,
/// at the recorded `=` or `&` position.
#[verifier::rlimit(100)]
fn compile_node(node: ASTNode, instructions: &mut Instructions) -> (r: Result<(), CompileError>)
    ensures
        match spec_compile_node(node, old(instructions).counts()) {
            GenOutcome::Emitted(code, c2) => r is Ok && final(instructions).vec@ == old(
                instructions,
            ).vec@ + code && final(instructions).counts() == c2,
            GenOutcome::Failed(m, p) => r matches Err(e) && e.message@ == m && e.pos == p,
        },
    decreases node, 3int,
{
    let ghost n0 = node;
    let ghost c0 = instructions.counts();
    let ghost v0 = instructions.vec@;
    match node {
        ASTNode::Primary(PrimaryNodeKind::Number(num)) => {
            instructions.push(Instr::PushImm(num));
            proof {
                assert(instructions.vec@ =~= v0 + seq![Instr::PushImm(num)]);
            }
            Ok(())
        },
        ASTNode::Primary(PrimaryNodeKind::LocalVariable(offset)) => {
            push_local_variable_address(offset, instructions);
            instructions.push(Instr::PopRax);
            instructions.push(Instr::LoadRax);
            instructions.push(Instr::PushRax);
            proof {
                assert(instructions.vec@ =~= v0 + (local_address_code(offset) + load_top_code()));
            }
            Ok(())
        },
        ASTNode::Operation(op, l, r) => {
            if matches!(op, OperationKind::Gt) || matches!(op, OperationKind::Ge) {
                return Err(CompileError { message: "comparison is not normalized", pos: 0 });
            }
            compile_node(*l, instructions)?;
            let ghost left_code = instructions.vec@.skip(v0.len() as int);
            compile_node(*r, instructions)?;
            let ghost right_code = instructions.vec@.skip(v0.len() + left_code.len() as int);
            instructions.push(Instr::PopRdi);
            instructions.push(Instr::PopRax);
            match op {
                OperationKind::Add => instructions.push(Instr::AddRaxRdi),
                OperationKind::Sub => instructions.push(Instr::SubRaxRdi),
                OperationKind::Mul => instructions.push(Instr::ImulRaxRdi),
                OperationKind::Div => {
                    instructions.push(Instr::Cqo);
                    instructions.push(Instr::IdivRdi);
                },
                OperationKind::Eq => {
                    instructions.push(Instr::CmpRaxRdi);
                    instructions.push(Instr::SetE);
                    instructions.push(Instr::MovzxRaxAl);
                },
                OperationKind::Ne => {
                    instructions.push(Instr::CmpRaxRdi);
                    instructions.push(Instr::SetNe);
                    instructions.push(Instr::MovzxRaxAl);
                },
                OperationKind::Lt => {
                    instructions.push(Instr::CmpRaxRdi);
                    instructions.push(Instr::SetL);
                    instructions.push(Instr::MovzxRaxAl);
                },
                OperationKind::Le => {
                    instructions.push(Instr::CmpRaxRdi);
                    instructions.push(Instr::SetLe);
                    instructions.push(Instr::MovzxRaxAl);
                },
                _ => vstd::pervasive::unreached(),
            }
            instructions.push(Instr::PushRax);
            proof {
                assert(instructions.vec@ =~= v0 + (left_code + right_code + seq![
                    Instr::PopRdi,
                    Instr::PopRax,
                ] + operation_code(op) + seq![Instr::PushRax]));
            }
            Ok(())
        },
        _ => {
            // The remaining constructs are handled below.
            compile_node_rest(node, instructions)
        },
    }
}

/// The statement-level and pointer-level constructs of `compile_node`.
#[verifier::rlimit(100)]
fn compile_node_rest(node: ASTNode, instructions: &mut Instructions) -> (r: Result<
    (),
    CompileError,
>)
    requires
        !(node is Primary),
        !(node is Operation),
    ensures
        match spec_compile_node(node, old(instructions).counts()) {
            GenOutcome::Emitted(code, c2) => r is Ok && final(instructions).vec@ == old(
                instructions,
            ).vec@ + code && final(instructions).counts() == c2,
            GenOutcome::Failed(m, p) => r matches Err(e) && e.message@ == m && e.pos == p,
        },
    decreases node, 2int,
{
    let ghost n0 = node;
    let ghost c0 = instructions.counts();
    let ghost v0 = instructions.vec@;
    match node {
        ASTNode::Assign(pos, l, r) => {
            match *l {
                ASTNode::Primary(PrimaryNodeKind::LocalVariable(offset)) => {
                    push_local_variable_address(offset, instructions);
                },
                ASTNode::Dereference(_, inner) => {
                    compile_node(*inner, instructions)?;
                },
                _ => {
                    return Err(CompileError { message: "left value is not correct", pos });
                },
            }
            let ghost address_code = instructions.vec@.skip(v0.len() as int);
            compile_node(*r, instructions)?;
            let ghost value_code = instructions.vec@.skip(v0.len() + address_code.len() as int);
            instructions.push(Instr::PopRdi);
            instructions.push(Instr::PopRax);
            instructions.push(Instr::StoreRdi);
            instructions.push(Instr::PushRdi);
            proof {
                assert(instructions.vec@ =~= v0 + (address_code + value_code + store_code()));
            }
            Ok(())
        },
        ASTNode::Return(e) => {
            compile_node(*e, instructions)?;
            let ghost value_code = instructions.vec@.skip(v0.len() as int);
            instructions.push(Instr::PopRax);
            instructions.push(Instr::MovRspRbp);
            instructions.push(Instr::PopRbp);
            instructions.push(Instr::Ret);
            proof {
                assert(instructions.vec@ =~= v0 + (value_code + return_code()));
            }
            Ok(())
        },
        ASTNode::If(_, _) => compile_node_flow(node, instructions),
        ASTNode::IfElse(_, _, _) => compile_node_flow(node, instructions),
        ASTNode::While(_, _) => compile_node_flow(node, instructions),
        ASTNode::For(_, _, _, _) => compile_node_flow(node, instructions),
        ASTNode::MultStmt(stmts) => compile_stmts(stmts, instructions),
        ASTNode::FunctionCall(name, args) => {
            let ghost name0 = name;
            let arg_total = args.len();
            compile_args(args, 0, instructions)?;
            let ghost args_code = instructions.vec@.skip(v0.len() as int);
            instructions.push(Instr::Call(name));
            instructions.push(Instr::PushRax);
            proof {
                assert(instructions.vec@ =~= v0 + (args_code + seq![
                    Instr::Call(name0),
                    Instr::PushRax,
                ]));
            }
            Ok(())
        },
        ASTNode::Reference(pos, operand) => {
            match *operand {
                ASTNode::Primary(PrimaryNodeKind::LocalVariable(offset)) => {
                    push_local_variable_address(offset, instructions);
                    Ok(())
                },
                _ => Err(CompileError { message: "address-of operand must be a variable", pos }),
            }
        },
        ASTNode::Dereference(_, operand) => {
            compile_node(*operand, instructions)?;
            let ghost operand_code = instructions.vec@.skip(v0.len() as int);
            instructions.push(Instr::PopRax);
            instructions.push(Instr::LoadRax);
            instructions.push(Instr::PushRax);
            proof {
                assert(instructions.vec@ =~= v0 + (operand_code + load_top_code()));
            }
            Ok(())
        },
        _ => vstd::pervasive::unreached(),
    }
}

/// The control-flow constructs of `compile_node`: `if`, `if`/`else`,
/// `while` and `for`, each drawing fresh labels from the counters.
#[verifier::rlimit(100)]
fn compile_node_flow(node: ASTNode, instructions: &mut Instructions) -> (r: Result<
    (),
    CompileError,
>)
    requires
        node is If || node is IfElse || node is While || node is For,
    ensures
        match spec_compile_node(node, old(instructions).counts()) {
            GenOutcome::Emitted(code, c2) => r is Ok && final(instructions).vec@ == old(
                instructions,
            ).vec@ + code && final(instructions).counts() == c2,
            GenOutcome::Failed(m, p) => r matches Err(e) && e.message@ == m && e.pos == p,
        },
    decreases node, 1int,
{
    let ghost n0 = node;
    let ghost c0 = instructions.counts();
    let ghost v0 = instructions.vec@;
    match node {
        ASTNode::If(cond, then_branch) => {
            compile_node(*cond, instructions)?;
            let ghost cond_code = instructions.vec@.skip(v0.len() as int);
            let k = instructions.end_count;
            instructions.end_count_up();
            instructions.push(Instr::PopRax);
            instructions.push(Instr::CmpRaxZero);
            instructions.push(Instr::Je(LabelKind::End, k));
            let ghost v1 = instructions.vec@;
            compile_node(*then_branch, instructions)?;
            let ghost then_code = instructions.vec@.skip(v1.len() as int);
            instructions.push(Instr::Label(LabelKind::End, k));
            proof {
                assert(instructions.vec@ =~= v0 + (cond_code + seq![
                    Instr::PopRax,
                    Instr::CmpRaxZero,
                    Instr::Je(LabelKind::End, k),
                ] + then_code + seq![Instr::Label(LabelKind::End, k)]));
            }
            Ok(())
        },
        ASTNode::IfElse(cond, then_branch, else_branch) => {
            compile_node(*cond, instructions)?;
            let ghost cond_code = instructions.vec@.skip(v0.len() as int);
            let j = instructions.else_count;
            instructions.else_count_up();
            let k = instructions.end_count;
            instructions.end_count_up();
            instructions.push(Instr::PopRax);
            instructions.push(Instr::CmpRaxZero);
            instructions.push(Instr::Je(LabelKind::Else, j));
            let ghost v1 = instructions.vec@;
            compile_node(*then_branch, instructions)?;
            let ghost then_code = instructions.vec@.skip(v1.len() as int);
            instructions.push(Instr::Jmp(LabelKind::End, k));
            instructions.push(Instr::Label(LabelKind::Else, j));
            let ghost v2 = instructions.vec@;
            compile_node(*else_branch, instructions)?;
            let ghost else_code = instructions.vec@.skip(v2.len() as int);
            instructions.push(Instr::Label(LabelKind::End, k));
            proof {
                assert(instructions.vec@ =~= v0 + (cond_code + seq![
                    Instr::PopRax,
                    Instr::CmpRaxZero,
                    Instr::Je(LabelKind::Else, j),
                ] + then_code + seq![
                    Instr::Jmp(LabelKind::End, k),
                    Instr::Label(LabelKind::Else, j),
                ] + else_code + seq![Instr::Label(LabelKind::End, k)]));
            }
            Ok(())
        },
        ASTNode::While(cond, body) => {
            let b = instructions.begin_count;
            instructions.begin_count_up();
            instructions.push(Instr::Label(LabelKind::Begin, b));
            let ghost v1 = instructions.vec@;
            compile_node(*cond, instructions)?;
            let ghost cond_code = instructions.vec@.skip(v1.len() as int);
            let k = instructions.end_count;
            instructions.end_count_up();
            instructions.push(Instr::PopRax);
            instructions.push(Instr::CmpRaxZero);
            instructions.push(Instr::Je(LabelKind::End, k));
            let ghost v2 = instructions.vec@;
            compile_node(*body, instructions)?;
            let ghost body_code = instructions.vec@.skip(v2.len() as int);
            instructions.push(Instr::Jmp(LabelKind::Begin, b));
            instructions.push(Instr::Label(LabelKind::End, k));
            proof {
                assert(instructions.vec@ =~= v0 + (seq![Instr::Label(LabelKind::Begin, b)]
                    + cond_code + seq![
                    Instr::PopRax,
                    Instr::CmpRaxZero,
                    Instr::Je(LabelKind::End, k),
                ] + body_code + seq![
                    Instr::Jmp(LabelKind::Begin, b),
                    Instr::Label(LabelKind::End, k),
                ]));
            }
            Ok(())
        },
        ASTNode::For(_, _, _, _) => compile_node_for(node, instructions),
        _ => vstd::pervasive::unreached(),
    }
}

/// The `for` construct of `compile_node`: optional initializer, condition
/// and update around the body, with its begin label and, when a condition
/// is present, its end label.
#[verifier::rlimit(100)]
fn compile_node_for(node: ASTNode, instructions: &mut Instructions) -> (r: Result<
    (),
    CompileError,
>)
    requires
        node is For,
    ensures
        match spec_compile_node(node, old(instructions).counts()) {
            GenOutcome::Emitted(code, c2) => r is Ok && final(instructions).vec@ == old(
                instructions,
            ).vec@ + code && final(instructions).counts() == c2,
            GenOutcome::Failed(m, p) => r matches Err(e) && e.message@ == m && e.pos == p,
        },
    decreases node, 0int,
{
    let ghost n0 = node;
    let ghost c0 = instructions.counts();
    let ghost v0 = instructions.vec@;
    match node {
        ASTNode::For(init, cond, update, body) => {
            let ghost has_cond = cond is Some;
            compile_opt(init, instructions)?;
            let ghost init_code = instructions.vec@.skip(v0.len() as int);
            let b = instructions.begin_count;
            instructions.begin_count_up();
            instructions.push(Instr::Label(LabelKind::Begin, b));
            let ghost v1 = instructions.vec@;
            let mut end_label: usize = 0;
            let cond_present = matches!(cond, Some(_));
            compile_opt(cond, instructions)?;
            if cond_present {
                instructions.push(Instr::PopRax);
                instructions.push(Instr::CmpRaxZero);
                end_label = instructions.end_count;
                instructions.end_count_up();
                instructions.push(Instr::Je(LabelKind::End, end_label));
            }
            let ghost test_code = instructions.vec@.skip(v1.len() as int);
            let ghost v2 = instructions.vec@;
            compile_node(*body, instructions)?;
            let ghost body_code = instructions.vec@.skip(v2.len() as int);
            let ghost v3 = instructions.vec@;
            compile_opt(update, instructions)?;
            let ghost update_code = instructions.vec@.skip(v3.len() as int);
            instructions.push(Instr::Jmp(LabelKind::Begin, b));
            if cond_present {
                instructions.push(Instr::Label(LabelKind::End, end_label));
            }
            proof {
                assert(instructions.vec@ =~= v0 + (init_code + seq![
                    Instr::Label(LabelKind::Begin, b),
                ] + test_code + body_code + update_code + seq![Instr::Jmp(LabelKind::Begin, b)] + (
                if has_cond {
                    seq![Instr::Label(LabelKind::End, end_label)]
                } else {
                    Seq::<Instr>::empty()
                })));
            }
            Ok(())
        },
        _ => vstd::pervasive::unreached(),
    }
}

/// Compiles an optional tree, emitting nothing for an absent one.
fn compile_opt(node: Option<Box<ASTNode>>, instructions: &mut Instructions) -> (r: Result<
    (),
    CompileError,
>)
    ensures
        spec_compile_opt(node, old(instructions).counts()) == (match node {
            Some(inner) => spec_compile_node(*inner, old(instructions).counts()),
            None => GenOutcome::Emitted(Seq::empty(), old(instructions).counts()),
        }),
        match spec_compile_opt(node, old(instructions).counts()) {
            GenOutcome::Emitted(code, c2) => r is Ok && final(instructions).vec@ == old(
                instructions,
            ).vec@ + code && final(instructions).counts() == c2,
            GenOutcome::Failed(m, p) => r matches Err(e) && e.message@ == m && e.pos == p,
        },
    decreases node, 4int,
{
    match node {
        Some(inner) => compile_node(*inner, instructions),
        None => {
            proof {
                assert(old(instructions).vec@ =~= old(instructions).vec@ + Seq::<Instr>::empty());
            }
            Ok(())
        },
    }
}

/// Compiles a compound's statements, discarding each statement's value with
/// a `pop rax` except the last one's.
fn compile_stmts(stmts: Vec<ASTNode>, instructions: &mut Instructions) -> (r: Result<
    (),
    CompileError,
>)
    ensures
        match spec_compile_stmts(stmts@, old(instructions).counts()) {
            GenOutcome::Emitted(code, c2) => r is Ok && final(instructions).vec@ == old(
                instructions,
            ).vec@ + code && final(instructions).counts() == c2,
            GenOutcome::Failed(m, p) => r matches Err(e) && e.message@ == m && e.pos == p,
        },
    decreases stmts@, 0int,
{
    let ghost s0 = stmts@;
    let ghost c0 = instructions.counts();
    let ghost v0 = instructions.vec@;
    if stmts.len() == 0 {
        proof {
            assert(instructions.vec@ =~= v0 + Seq::<Instr>::empty());
        }
        return Ok(());
    }
    let mut stmts = stmts;
    let stmt_node = stmts.remove(0);
    proof {
        assert(stmt_node == s0[0]);
        assert(stmts@ =~= s0.drop_first());
    }
    compile_node(stmt_node, instructions)?;
    let ghost first_code = instructions.vec@.skip(v0.len() as int);
    let last = stmts.len() == 0;
    if !last {
        instructions.push(Instr::PopRax);
    }
    let ghost v1 = instructions.vec@;
    compile_stmts(stmts, instructions)?;
    let ghost rest_code = instructions.vec@.skip(v1.len() as int);
    proof {
        if last {
            assert(instructions.vec@ =~= v0 + first_code);
        } else {
            assert(instructions.vec@ =~= v0 + (first_code + seq![Instr::PopRax] + rest_code));
        }
    }
    Ok(())
}

/// Compiles a call's arguments in source order, popping each value into its
/// argument register, the first into position `idx`.
fn compile_args(args: Vec<ASTNode>, idx: usize, instructions: &mut Instructions) -> (r: Result<
    (),
    CompileError,
>)
    requires
        idx + args@.len() <= usize::MAX,
    ensures
        match spec_compile_args(args@, idx as int, old(instructions).counts()) {
            GenOutcome::Emitted(code, c2) => r is Ok && final(instructions).vec@ == old(
                instructions,
            ).vec@ + code && final(instructions).counts() == c2,
            GenOutcome::Failed(m, p) => r matches Err(e) && e.message@ == m && e.pos == p,
        },
    decreases args@, 0int,
{
    let ghost a0 = args@;
    let ghost c0 = instructions.counts();
    let ghost v0 = instructions.vec@;
    if args.len() == 0 {
        proof {
            assert(instructions.vec@ =~= v0 + Seq::<Instr>::empty());
        }
        return Ok(());
    }
    let mut args = args;
    let arg = args.remove(0);
    proof {
        assert(arg == a0[0]);
        assert(args@ =~= a0.drop_first());
    }
    compile_node(arg, instructions)?;
    let ghost first_code = instructions.vec@.skip(v0.len() as int);
    instructions.push(Instr::PopArg(idx));
    let ghost v1 = instructions.vec@;
    compile_args(args, idx + 1, instructions)?;
    let ghost rest_code = instructions.vec@.skip(v1.len() as int);
    proof {
        assert(instructions.vec@ =~= v0 + (first_code + seq![Instr::PopArg(idx)] + rest_code));
    }
    Ok(())
}

/// The local stack size rounded up to a multiple of sixteen, so that `rsp`
/// stays 16-byte aligned at calls.
pub open spec fn padded_stack_size(size: usize) -> usize {
    if size % 16 == 0 {
        size
    } else {
        (size + 8) as usize
    }
}

/// The instructions that store the first `k` arguments into their frame
/// slots.
pub open spec fn arg_store_code(k: nat) -> Seq<Instr> {
    Seq::new(k, |i: int| Instr::StoreArg(i as usize))
}

/// The prologue of one function: a separating blank line, the function's
/// label, the frame setup, the parameter stores, and the stack reservation
/// when any locals exist.
pub open spec fn spec_prologue(info: FuntionInfo) -> Seq<Instr> {
    seq![
        Instr::Blank,
        Instr::FuncLabel(info.function_name),
        Instr::PushRbp,
        Instr::MovRbpRsp,
    ] + arg_store_code(info.args_count as nat) + (if info.local_stack_size > 0 {
        seq![Instr::SubRsp(padded_stack_size(info.local_stack_size))]
    } else {
        Seq::empty()
    })
}

/// Emits a function's prologue.
fn compile_function_prologue(function_info: FuntionInfo, instructions: &mut Instructions)
    requires
        function_info.local_stack_size <= usize::MAX - 8,
    ensures
        final(instructions).vec@ == old(instructions).vec@ + spec_prologue(function_info),
        final(instructions).counts() == old(instructions).counts(),
{
    let ghost info0 = function_info;
    let ghost v0 = instructions.vec@;
    let args_count = function_info.args_count;
    let local_stack_size = function_info.local_stack_size;
    instructions.push(Instr::Blank);
    instructions.push(Instr::FuncLabel(function_info.function_name));
    instructions.push(Instr::PushRbp);
    instructions.push(Instr::MovRbpRsp);
    let ghost v1 = instructions.vec@;
    let mut arg_index: usize = 0;
    while arg_index < args_count
        invariant
            arg_index <= args_count,
            instructions.vec@ == v1 + arg_store_code(arg_index as nat),
            instructions.counts() == old(instructions).counts(),
            v1 == old(instructions).vec@ + seq![
                Instr::Blank,
                Instr::FuncLabel(info0.function_name),
                Instr::PushRbp,
                Instr::MovRbpRsp,
            ],
        decreases args_count - arg_index,
    {
        instructions.push(Instr::StoreArg(arg_index));
        proof {
            assert(instructions.vec@ =~= v1 + arg_store_code((arg_index + 1) as nat));
        }
        arg_index = arg_index + 1;
    }
    if local_stack_size > 0 {
        if local_stack_size % 16 == 0 {
            instructions.push(Instr::SubRsp(local_stack_size));
        } else {
            instructions.push(Instr::SubRsp(local_stack_size + 8));
        }
    }
    proof {
        assert(instructions.vec@ =~= v0 + spec_prologue(info0));
    }
}

/// Emits a function's epilogue: the body's value becomes the return value.
fn compile_function_epilogue(instructions: &mut Instructions)
    ensures
        final(instructions).vec@ == old(instructions).vec@ + return_code(),
        final(instructions).counts() == old(instructions).counts(),
{
    let ghost v0 = instructions.vec@;
    instructions.push(Instr::PopRax);
    instructions.push(Instr::MovRspRbp);
    instructions.push(Instr::PopRbp);
    instructions.push(Instr::Ret);
    proof {
        assert(instructions.vec@ =~= v0 + return_code());
    }
}

/// What compiling a whole statement tree yields: nothing for an absent root.
pub open spec fn spec_compile_ast(ast: AST, c: GenCounts) -> GenOutcome {
    match ast.root {
        Some(root) => spec_compile_node(*root, c),
        None => GenOutcome::Emitted(Seq::empty(), c),
    }
}

/// Compiles a function body's statement tree.
fn compile_ast(ast: AST, instructions: &mut Instructions) -> (r: Result<(), CompileError>)
    ensures
        match spec_compile_ast(ast, old(instructions).counts()) {
            GenOutcome::Emitted(code, c2) => r is Ok && final(instructions).vec@ == old(
                instructions,
            ).vec@ + code && final(instructions).counts() == c2,
            GenOutcome::Failed(m, p) => r matches Err(e) && e.message@ == m && e.pos == p,
        },
{
    match ast.root {
        Some(root) => compile_node(*root, instructions),
        None => {
            proof {
                assert(old(instructions).vec@ =~= old(instructions).vec@ + Seq::<Instr>::empty());
            }
            Ok(())
        },
    }
}

/// Exactly which instructions one whole function compiles to: its prologue,
/// its body, and the shared epilogue.
pub open spec fn spec_compile_function(f: FunctionAST, c: GenCounts) -> GenOutcome {
    match spec_compile_ast(f.function_ast, c) {
        GenOutcome::Failed(m, p) => GenOutcome::Failed(m, p),
        GenOutcome::Emitted(body_code, c2) => GenOutcome::Emitted(
            spec_prologue(f.function_info) + body_code + return_code(),
            c2,
        ),
    }
}

/// Compiles one function into a shared instruction buffer, so that label
/// numbers stay unique across a whole translation unit.
pub(crate) fn compile_function_into(function_ast: FunctionAST, instructions: &mut Instructions) -> (r:
    Result<(), CompileError>)
    requires
        function_ast.function_info.local_stack_size <= usize::MAX - 8,
    ensures
        match spec_compile_function(function_ast, old(instructions).counts()) {
            GenOutcome::Emitted(code, c2) => r is Ok && final(instructions).vec@ == old(
                instructions,
            ).vec@ + code && final(instructions).counts() == c2,
            GenOutcome::Failed(m, p) => r matches Err(e) && e.message@ == m && e.pos == p,
        },
{
    let ghost v0 = instructions.vec@;
    let FunctionAST { function_ast, function_info } = function_ast;
    let ghost info0 = function_info;
    compile_function_prologue(function_info, instructions);
    let ghost v1 = instructions.vec@;
    compile_ast(function_ast, instructions)?;
    let ghost body_code = instructions.vec@.skip(v1.len() as int);
    compile_function_epilogue(instructions);
    proof {
        assert(instructions.vec@ =~= v0 + (spec_prologue(info0) + body_code + return_code()));
    }
    Ok(())
}

/// Compiles one function to its assembly text lines, as `spec_compile_function`
/// and `instr_text` state them, starting from fresh label counters.
pub fn compile_function_ast(function_ast: FunctionAST) -> (r: Result<Vec<String>, CompileError>)
    requires
        function_ast.function_info.local_stack_size <= usize::MAX - 8,
    ensures
        ({
            let zero = GenCounts { end_count: 0, else_count: 0, begin_count: 0 };
            match spec_compile_function(function_ast, zero) {
                GenOutcome::Emitted(code, _) => r matches Ok(lines) && lines@.len() == code.len()
                    && (forall|i: int| 0 <= i < code.len() ==> #[trigger] lines@[i]@ == instr_text(
                    code[i],
                )),
                GenOutcome::Failed(m, p) => r matches Err(e) && e.message@ == m && e.pos == p,
            }
        }),
{
    let mut instructions = Instructions::new();
    compile_function_into(function_ast, &mut instructions)?;
    render_instructions(&instructions)
}

/// The effect one instruction has on the evaluation stack: pushes grow it
/// by one value, pops shrink it by one.
pub open spec fn instr_stack_delta(i: Instr) -> int {
    match i {
        Instr::PushImm(_) => 1,
        Instr::PushRax => 1,
        Instr::PushRdi => 1,
        Instr::PopRax => -1,
        Instr::PopRdi => -1,
        Instr::PopArg(_) => -1,
        _ => 0,
    }
}

/// The net evaluation-stack effect of a straight-line instruction sequence.
pub open spec fn stack_delta(code: Seq<Instr>) -> int
    decreases code.len(),
{
    if code.len() == 0 {
        0
    } else {
        stack_delta(code.drop_last()) + instr_stack_delta(code.last())
    }
}

/// A sequence without jumps or labels: it runs from its first instruction
/// to its last, so its static stack effect is its dynamic one.
pub open spec fn straight_line(code: Seq<Instr>) -> bool {
    forall|i: int|
        0 <= i < code.len() ==> !((#[trigger] code[i]) is Je || code[i] is Jmp || code[i] is Label
            || code[i] is Ret || code[i] is FuncLabel)
}

pub proof fn lemma_stack_delta_concat(a: Seq<Instr>, b: Seq<Instr>)
    ensures
        stack_delta(a + b) == stack_delta(a) + stack_delta(b),
    decreases b.len(),
{
    if b.len() == 0 {
        assert(a + b =~= a);
    } else {
        lemma_stack_delta_concat(a, b.drop_last());
        assert((a + b).drop_last() =~= a + b.drop_last());
        assert((a + b).last() == b.last());
    }
}

/// A tree built purely from expression constructs: the ones that evaluate
/// to a value on the stack. An assignment target is a variable or a chain
/// of dereferences over an expression, and an address-of applies to a
/// variable; these are exactly the trees whose compilation succeeds without
/// touching the label counters.
pub open spec fn is_expression_tree(n: ASTNode) -> bool
    decreases n,
{
    match n {
        ASTNode::Primary(_) => true,
        ASTNode::Operation(op, l, r) => op != OperationKind::Gt && op != OperationKind::Ge
            && is_expression_tree(*l) && is_expression_tree(*r),
        ASTNode::Assign(_, l, r) => is_expression_tree(*r) && (match *l {
            ASTNode::Primary(PrimaryNodeKind::LocalVariable(_)) => true,
            ASTNode::Dereference(_, inner) => is_expression_tree(*inner),
            _ => false,
        }),
        ASTNode::FunctionCall(_, args) => all_expression_trees(args@),
        ASTNode::Reference(_, operand) => *operand matches ASTNode::Primary(
            PrimaryNodeKind::LocalVariable(_),
        ),
        ASTNode::Dereference(_, operand) => is_expression_tree(*operand),
        _ => false,
    }
}

pub open spec fn all_expression_trees(s: Seq<ASTNode>) -> bool
    decreases s,
{
    if s.len() == 0 {
        true
    } else {
        is_expression_tree(s[0]) && all_expression_trees(s.drop_first())
    }
}

/// Every compiled expression leaves exactly one value on the evaluation
/// stack, and its code is straight-line: no jumps, labels, calls or returns,
/// so the static count is the dynamic one.
#[verifier::rlimit(100)]
pub proof fn lemma_expression_leaves_one_value(n: ASTNode, c: GenCounts)
    requires
        is_expression_tree(n),
        spec_compile_node(n, c) is Emitted,
    ensures
        stack_delta(spec_compile_node(n, c)->Emitted_0) == 1,
        straight_line(spec_compile_node(n, c)->Emitted_0),
        spec_compile_node(n, c)->Emitted_1 == c,
    decreases n,
{
    reveal_with_fuel(stack_delta, 3);
    match n {
        ASTNode::Primary(PrimaryNodeKind::Number(num)) => {
            lemma_stack_delta_concat(Seq::empty(), seq![Instr::PushImm(num)]);
        },
        ASTNode::Primary(PrimaryNodeKind::LocalVariable(offset)) => {
            lemma_stack_delta_concat(local_address_code(offset), load_top_code());
            lemma_fixed_code_deltas(offset);
        },
        ASTNode::Operation(op, l, r) => {
            lemma_expression_leaves_one_value(*l, c);
            let c1 = spec_compile_node(*l, c)->Emitted_1;
            lemma_expression_leaves_one_value(*r, c1);
            let left_code = spec_compile_node(*l, c)->Emitted_0;
            let right_code = spec_compile_node(*r, c1)->Emitted_0;
            let mid = seq![Instr::PopRdi, Instr::PopRax] + operation_code(op) + seq![
                Instr::PushRax,
            ];
            lemma_operation_code_delta(op);
            lemma_stack_delta_concat(seq![Instr::PopRdi, Instr::PopRax], operation_code(op));
            lemma_stack_delta_concat(
                seq![Instr::PopRdi, Instr::PopRax] + operation_code(op),
                seq![Instr::PushRax],
            );
            lemma_stack_delta_concat(left_code, right_code);
            lemma_stack_delta_concat(left_code + right_code, mid);
            assert(left_code + right_code + seq![Instr::PopRdi, Instr::PopRax] + operation_code(op)
                + seq![Instr::PushRax] =~= (left_code + right_code) + mid);
        },
        ASTNode::Assign(pos, l, r) => {
            let address = match *l {
                ASTNode::Primary(PrimaryNodeKind::LocalVariable(offset)) => GenOutcome::Emitted(
                    local_address_code(offset),
                    c,
                ),
                ASTNode::Dereference(_, inner) => spec_compile_node(*inner, c),
                _ => GenOutcome::Failed("left value is not correct"@, pos as nat),
            };
            match *l {
                ASTNode::Primary(PrimaryNodeKind::LocalVariable(offset)) => {
                    lemma_fixed_code_deltas(offset);
                },
                ASTNode::Dereference(_, inner) => {
                    lemma_expression_leaves_one_value(*inner, c);
                },
                _ => {},
            }
            let address_code = address->Emitted_0;
            let c1 = address->Emitted_1;
            lemma_expression_leaves_one_value(*r, c1);
            let value_code = spec_compile_node(*r, c1)->Emitted_0;
            lemma_fixed_code_deltas(0);
            lemma_stack_delta_concat(address_code, value_code);
            lemma_stack_delta_concat(address_code + value_code, store_code());
        },
        ASTNode::FunctionCall(name, args) => {
            lemma_args_zero_delta(args@, 0, c);
            let args_code = spec_compile_args(args@, 0, c)->Emitted_0;
            let tail = seq![Instr::Call(name), Instr::PushRax];
            assert(stack_delta(tail) == 1) by {
                assert(tail.drop_last() =~= seq![Instr::Call(name)]);
                assert(tail.drop_last().drop_last() =~= Seq::<Instr>::empty());
            }
            lemma_stack_delta_concat(args_code, tail);
        },
        ASTNode::Reference(_, operand) => {
            match *operand {
                ASTNode::Primary(PrimaryNodeKind::LocalVariable(offset)) => {
                    lemma_fixed_code_deltas(offset);
                },
                _ => {},
            }
        },
        ASTNode::Dereference(_, operand) => {
            lemma_expression_leaves_one_value(*operand, c);
            let operand_code = spec_compile_node(*operand, c)->Emitted_0;
            lemma_fixed_code_deltas(0);
            lemma_stack_delta_concat(operand_code, load_top_code());
        },
        _ => {},
    }
}

/// Evaluating a call's arguments has no net stack effect: each argument's
/// value is popped straight into its register.
pub proof fn lemma_args_zero_delta(args: Seq<ASTNode>, idx: int, c: GenCounts)
    requires
        all_expression_trees(args),
        spec_compile_args(args, idx, c) is Emitted,
    ensures
        stack_delta(spec_compile_args(args, idx, c)->Emitted_0) == 0,
        straight_line(spec_compile_args(args, idx, c)->Emitted_0),
        spec_compile_args(args, idx, c)->Emitted_1 == c,
    decreases args,
{
    reveal_with_fuel(stack_delta, 4);
    if args.len() > 0 {
        lemma_expression_leaves_one_value(args[0], c);
        let first_code = spec_compile_node(args[0], c)->Emitted_0;
        let c1 = spec_compile_node(args[0], c)->Emitted_1;
        assert(all_expression_trees(args.drop_first()));
        lemma_args_zero_delta(args.drop_first(), idx + 1, c1);
        let rest_code = spec_compile_args(args.drop_first(), idx + 1, c1)->Emitted_0;
        let pop = seq![Instr::PopArg(idx as usize)];
        assert(stack_delta(pop) == -1) by {
            assert(pop.drop_last() =~= Seq::<Instr>::empty());
        }
        lemma_stack_delta_concat(first_code, pop);
        lemma_stack_delta_concat(first_code + pop, rest_code);
    }
}

/// The stack effects of the fixed code fragments: pushing an address grows
/// the stack by one; loading through the top and storing through the second
/// slot keep and shrink it respectively.
pub proof fn lemma_fixed_code_deltas(offset: usize)
    ensures
        stack_delta(local_address_code(offset)) == 1,
        straight_line(local_address_code(offset)),
        stack_delta(load_top_code()) == 0,
        straight_line(load_top_code()),
        stack_delta(store_code()) == -1,
        straight_line(store_code()),
{
    reveal_with_fuel(stack_delta, 6);
    let code = local_address_code(offset);
    assert(code.drop_last() =~= seq![Instr::MovRaxRbp, Instr::SubRaxImm(offset)]);
    assert(code.drop_last().drop_last() =~= seq![Instr::MovRaxRbp]);
    assert(code.drop_last().drop_last().drop_last() =~= Seq::<Instr>::empty());
    let load = load_top_code();
    assert(load.drop_last() =~= seq![Instr::PopRax, Instr::LoadRax]);
    assert(load.drop_last().drop_last() =~= seq![Instr::PopRax]);
    assert(load.drop_last().drop_last().drop_last() =~= Seq::<Instr>::empty());
    let store = store_code();
    assert(store.drop_last() =~= seq![Instr::PopRdi, Instr::PopRax, Instr::StoreRdi]);
    assert(store.drop_last().drop_last() =~= seq![Instr::PopRdi, Instr::PopRax]);
    assert(store.drop_last().drop_last().drop_last() =~= seq![Instr::PopRdi]);
    assert(store.drop_last().drop_last().drop_last().drop_last() =~= Seq::<Instr>::empty());
}

proof fn lemma_operation_code_delta(op: OperationKind)
    requires
        op != OperationKind::Gt,
        op != OperationKind::Ge,
    ensures
        stack_delta(operation_code(op)) == 0,
        straight_line(operation_code(op)),
{
    reveal_with_fuel(stack_delta, 6);
    let code = operation_code(op);
    if code.len() == 1 {
        assert(code.drop_last() =~= Seq::<Instr>::empty());
    } else if code.len() == 2 {
        assert(code.drop_last().drop_last() =~= Seq::<Instr>::empty());
    } else {
        assert(code.drop_last().drop_last().drop_last() =~= Seq::<Instr>::empty());
    }
}

/// The discard rule of compound statements: with every statement an
/// expression, each one before the last contributes a net stack effect of
/// zero — its value and the discarding `pop rax` cancel — and the last one
/// leaves exactly the compound's single value.
pub proof fn lemma_compound_leaves_one_value(stmts: Seq<ASTNode>, c: GenCounts)
    requires
        stmts.len() > 0,
        all_expression_trees(stmts),
        spec_compile_stmts(stmts, c) is Emitted,
    ensures
        stack_delta(spec_compile_stmts(stmts, c)->Emitted_0) == 1,
    decreases stmts,
{
    reveal_with_fuel(stack_delta, 4);
    if stmts.len() == 1 {
        lemma_expression_leaves_one_value(stmts[0], c);
    } else {
        lemma_expression_leaves_one_value(stmts[0], c);
        let first_code = spec_compile_node(stmts[0], c)->Emitted_0;
        let c1 = spec_compile_node(stmts[0], c)->Emitted_1;
        assert(all_expression_trees(stmts.drop_first()));
        lemma_compound_leaves_one_value(stmts.drop_first(), c1);
        let rest_code = spec_compile_stmts(stmts.drop_first(), c1)->Emitted_0;
        lemma_stack_delta_concat(first_code, seq![Instr::PopRax]);
        lemma_stack_delta_concat(first_code + seq![Instr::PopRax], rest_code);
        assert(stack_delta(seq![Instr::PopRax]) == -1) by {
            assert(seq![Instr::PopRax].drop_last() =~= Seq::<Instr>::empty());
        }
    }
}

/// An assignment whose target is neither a variable nor a dereference is
/// rejected exactly at the recorded position of its `=`, whatever the
/// counters are.
pub proof fn lemma_assign_non_lvalue(
    pos: usize,
    l: Box<ASTNode>,
    r: Box<ASTNode>,
    c: GenCounts,
)
    requires
        !(*l matches ASTNode::Primary(PrimaryNodeKind::LocalVariable(_))),
        !(*l is Dereference),
    ensures
        spec_compile_node(ASTNode::Assign(pos, l, r), c) == GenOutcome::Failed(
            "left value is not correct"@,
            pos as nat,
        ),
{
}

/// An address-of whose operand is not a variable is rejected exactly at the
/// recorded position of its `&`.
pub proof fn lemma_reference_non_variable(pos: usize, operand: Box<ASTNode>, c: GenCounts)
    requires
        !(*operand matches ASTNode::Primary(PrimaryNodeKind::LocalVariable(_))),
    ensures
        spec_compile_node(ASTNode::Reference(pos, operand), c) == GenOutcome::Failed(
            "address-of operand must be a variable"@,
            pos as nat,
        ),
{
}

/// Renders every emitted instruction as its text line.
pub(crate) fn render_instructions(instructions: &Instructions) -> (r: Result<
    Vec<String>,
    CompileError,
>)
    ensures
        r matches Ok(lines) && lines@.len() == instructions.vec@.len() && (forall|i: int|
            0 <= i < instructions.vec@.len() ==> #[trigger] lines@[i]@ == instr_text(
                instructions.vec@[i],
            )),
{
    let mut lines: Vec<String> = Vec::new();
    let total = instructions.vec.len();
    let mut i: usize = 0;
    while i < total
        invariant
            i <= total == instructions.vec@.len(),
            lines@.len() == i,
            forall|j: int|
                0 <= j < i ==> #[trigger] lines@[j]@ == instr_text(instructions.vec@[j]),
        decreases total - i,
    {
        lines.push(render_instruction(&instructions.vec[i]));
        i = i + 1;
    }
    Ok(lines)
}

} // verus!
