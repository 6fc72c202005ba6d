//! The error value that every stage of the pipeline reports: a message and
//! the character position in the source text it refers to, plus the
//! rendering of such an error as a caret-aligned two-line diagnostic.

use vstd::prelude::*;

use crate::text::{append_dec, append_spaces, dec_of, spaces};
use crate::tokenizer::{ProgramText, TokenList};

verus! {

/// A fatal compilation error: a message and the character position in the
/// source text where it was detected.
#[derive(Debug, Clone, Copy)]
pub struct CompileError {
    pub message: &'static str,
    pub pos: usize,
}

/// An error positioned at the head of the remaining token stream, or at the
/// last character of the text when no token is left.
pub fn invalid_token_exit(error_text: &'static str, token_list: &TokenList, program: &ProgramText) -> (r: CompileError)
    requires
        program.text@.len() > 0,
    ensures
        r.message == error_text,
        r.pos == (if token_list@.len() > 0 {
            token_list@[0].token_pos as int
        } else {
            program.text@.len() - 1
        }),
{
    match token_list.peek_head() {
        Some(token) => CompileError { message: error_text, pos: token.token_pos },
        None => CompileError { message: error_text, pos: program.get_tail_pos() },
    }
}

/// The two diagnostic lines for an error: first `line<N>: <line text>`, then
/// a caret aligned under the offending column followed by the message.
pub fn format_error(program: &ProgramText, error: &CompileError) -> (r: (String, String))
    requires
        program.wf(),
        program.text@.len() > 0,
        error.pos < program.text@.len(),
    ensures
        ({
            let line_start = ProgramText::line_start_of(program.text@, error.pos as int);
            let line_end = ProgramText::line_end_of(program.text@, error.pos as int);
            let line_number = ProgramText::line_number_of(program.text@, error.pos as int);
            let prefix = "line"@ + dec_of(line_number) + ": "@;
            &&& r.0@ == prefix + program.text@.subrange(line_start, line_end)
            &&& r.1@ == spaces((prefix.len() + error.pos - line_start) as nat) + "^"@
                + error.message@
            &&& r.1@[prefix.len() + error.pos - line_start] == '^'
        }),
{
    let (line_text, line_number, column) = program.get_error_line(error.pos);
    let mut first = String::from_str("line");
    append_dec(&mut first, line_number as u64);
    first.append(": ");
    let prefix_len = first.unicode_len();
    first.append(line_text.as_str());

    let mut second = String::new();
    append_spaces(&mut second, prefix_len);
    append_spaces(&mut second, column);
    push_caret(&mut second);
    second.append(error.message);
    proof {
        reveal_strlit("line");
        reveal_strlit(": ");
        reveal_strlit("^");
        assert(first@ =~= ("line"@ + dec_of(line_number as nat) + ": "@) + program.text@.subrange(
            ProgramText::line_start_of(program.text@, error.pos as int),
            ProgramText::line_end_of(program.text@, error.pos as int),
        ));
        assert(second@ =~= spaces((prefix_len + column) as nat) + "^"@ + error.message@);
    }
    (first, second)
}

fn push_caret(s: &mut String)
    ensures
        final(s)@ == old(s)@ + "^"@,
{
    s.append("^");
    proof {
        reveal_strlit("^");
    }
}

} // verus!
