//! A verified compiler for a small C-like language: a position-tracking
//! lexer, a recursive-descent parser and a tree-walking code generator that
//! emits x86-64 assembly text in Intel syntax.
//!
//! The pipeline runs strictly forward: text to tokens, tokens to one syntax
//! tree per function, trees to assembly lines. Every error is fatal and
//! carries the character position it refers to; rendering such an error as a
//! caret-aligned diagnostic is the error module's job, and writing the
//! assembly or the diagnostic out is left to the program around the library.

use vstd::prelude::*;

pub mod ast;
pub mod compiler;
pub mod error;
pub mod text;
pub mod tokenizer;

use crate::ast::FunctionAST;
use crate::compiler::{compile_function_into, render_instructions, Instructions};
use crate::error::CompileError;
use crate::tokenizer::{list_wf, text_tokenizer, ProgramText, LOCAL_LIMIT};

verus! {

/// Compiles a whole program to its assembly text lines: the fixed header,
/// then one block per function definition in source order. Label numbers are
/// drawn from counters shared across the whole program, so every label in
/// the output is unique.
pub fn generate_assembly(program: &ProgramText) -> (r: Result<Vec<String>, CompileError>)
    requires
        program.wf(),
    ensures
        r matches Ok(lines) ==> lines@.len() >= 3 && lines@[0]@ == ".intel_syntax noprefix"@
            && lines@[1]@ == ".globl main"@ && lines@[2]@ == ""@,
        crate::tokenizer::spec_skip_ws(program.text@, 0) == -1 ==> (r matches Err(e) && e.message@
            == "comment is unclosed"@),
{
    let mut lists = text_tokenizer(program)?;
    let mut lines: Vec<String> = Vec::new();
    lines.push(String::from_str(".intel_syntax noprefix"));
    lines.push(String::from_str(".globl main"));
    let blank = String::new();
    proof {
        reveal_strlit("");
        assert(blank@ =~= ""@);
    }
    lines.push(blank);
    let mut instructions = Instructions::new();
    while lists.len() > 0
        invariant
            program.wf(),
            crate::tokenizer::spec_skip_ws(program.text@, 0) >= 0,
            forall|k: int|
                0 <= k < lists@.len() ==> list_wf(#[trigger] lists@[k], program.text@),
            lines@.len() >= 3,
            lines@[0]@ == ".intel_syntax noprefix"@,
            lines@[1]@ == ".globl main"@,
            lines@[2]@ == ""@,
        decreases lists@.len(),
    {
        let mut token_list = lists.remove(0);
        proof {
            assert(list_wf(token_list, program.text@));
            assert(token_list@.len() > 0);
            assert(token_list@[0].token_pos < program.text@.len());
        }
        let function_ast = FunctionAST::make_function_ast(&mut token_list, program)?;
        proof {
            assert(function_ast.function_info.local_stack_size <= 8 * LOCAL_LIMIT);
        }
        compile_function_into(function_ast, &mut instructions)?;
    }
    let mut body = render_instructions(&instructions)?;
    while body.len() > 0
        invariant
            lines@.len() >= 3,
            lines@[0]@ == ".intel_syntax noprefix"@,
            lines@[1]@ == ".globl main"@,
            lines@[2]@ == ""@,
        decreases body@.len(),
    {
        lines.push(body.remove(0));
    }
    Ok(lines)
}

} // verus!
