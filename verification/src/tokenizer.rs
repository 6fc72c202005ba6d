//! The lexer: the source context that locates error positions, the token
//! model, the token-list cursor that the parser consumes, and the tokenizer
//! that turns program text into one token list per function definition.

use std::collections::VecDeque;

use vstd::prelude::*;

use crate::ast::PrimaryNodeKind;
use crate::error::CompileError;
use crate::text::push_char;

verus! {

/// The program source as an indexable character sequence. Immutable once
/// built; both the lexer and the error reporter read positions against it.
pub struct ProgramText {
    pub text: Vec<char>,
}

impl ProgramText {
    /// Normalized text: empty, or terminated by a newline, so that every
    /// character position lies on some newline-terminated line.
    pub open spec fn wf(&self) -> bool {
        self.text@.len() > 0 ==> self.text@.last() == '\n'
    }

    /// The start of the line containing position `p`: the position right
    /// after the previous newline, or the start of the text.
    pub open spec fn line_start_of(s: Seq<char>, p: int) -> int
        decreases p,
    {
        if p <= 0 {
            0
        } else if s[p - 1] == '\n' {
            p
        } else {
            Self::line_start_of(s, p - 1)
        }
    }

    /// The end of the line containing position `p`: the position of the next
    /// newline at or after `p`, or the end of the text.
    pub open spec fn line_end_of(s: Seq<char>, p: int) -> int
        decreases s.len() - p,
    {
        if p < 0 || p >= s.len() {
            s.len() as int
        } else if s[p] == '\n' {
            p
        } else {
            Self::line_end_of(s, p + 1)
        }
    }

    /// The 1-based number of the line containing position `p`: one more than
    /// the number of newlines strictly before the line's start.
    pub open spec fn line_number_of(s: Seq<char>, p: int) -> nat {
        1 + Self::newlines_before(s, Self::line_start_of(s, p))
    }

    /// The number of newline characters in `s` before position `q`.
    pub open spec fn newlines_before(s: Seq<char>, q: int) -> nat
        decreases q,
    {
        if q <= 0 || q > s.len() {
            0
        } else {
            Self::newlines_before(s, q - 1) + (if s[q - 1] == '\n' {
                1nat
            } else {
                0nat
            })
        }
    }

    /// Builds the source context from the program text, appending a final
    /// newline when the text does not already end with one.
    pub fn new(text: &str) -> (r: ProgramText)
        ensures
            r.wf(),
            r.text@.len() >= text@.len(),
            text@ == r.text@.subrange(0, text@.len() as int),
            text@.len() > 0 && text@.last() == '\n' ==> r.text@ == text@,
            text@.len() > 0 && text@.last() != '\n' ==> r.text@ == text@.push('\n'),
            text@.len() == 0 ==> r.text@.len() == 0,
    {
        let mut chars = crate::text::chars_of_str(text);
        if chars.len() > 0 {
            let last = chars[chars.len() - 1];
            if last != '\n' {
                chars.push('\n');
            }
        }
        proof {
            assert(text@ =~= chars@.subrange(0, text@.len() as int));
        }
        ProgramText { text: chars }
    }

    /// The position of the last character of the text.
    pub fn get_tail_pos(&self) -> (r: usize)
        requires
            self.text@.len() > 0,
        ensures
            r == self.text@.len() - 1,
    {
        self.text.len() - 1
    }

    /// The line holding `error_pos`, as `(line text, 1-based line number,
    /// column of the error within the line)`.
    pub fn get_error_line(&self, error_pos: usize) -> (r: (String, usize, usize))
        requires
            self.wf(),
            error_pos < self.text@.len(),
        ensures
            ({
                let start = Self::line_start_of(self.text@, error_pos as int);
                let end = Self::line_end_of(self.text@, error_pos as int);
                &&& r.0@ == self.text@.subrange(start, end)
                &&& r.1 == Self::line_number_of(self.text@, error_pos as int)
                &&& r.2 == error_pos - start
            }),
    {
        let ghost s = self.text@;
        // Find the start of the line: scan back to just after a newline.
        let mut start: usize = error_pos;
        while start > 0 && self.text[start - 1] != '\n'
            invariant
                start <= error_pos < self.text@.len(),
                s == self.text@,
                Self::line_start_of(s, error_pos as int) == Self::line_start_of(s, start as int),
            decreases start,
        {
            start = start - 1;
        }
        proof {
            assert(Self::line_start_of(s, start as int) == start as int);
        }
        // Find the end of the line: scan forward to the next newline.
        let mut end: usize = error_pos;
        while end < self.text.len() && self.text[end] != '\n'
            invariant
                error_pos <= end <= self.text@.len(),
                s == self.text@,
                Self::line_end_of(s, error_pos as int) == Self::line_end_of(s, end as int),
            decreases self.text@.len() - end,
        {
            end = end + 1;
        }
        proof {
            assert(Self::line_end_of(s, end as int) == end as int);
        }
        // Collect the line's characters.
        let mut line_text = String::new();
        let mut i: usize = start;
        while i < end
            invariant
                start <= i <= end <= self.text@.len(),
                s == self.text@,
                line_text@ == s.subrange(start as int, i as int),
            decreases end - i,
        {
            push_char(&mut line_text, self.text[i]);
            proof {
                assert(line_text@ =~= s.subrange(start as int, i + 1));
            }
            i = i + 1;
        }
        // Count the newlines before the line's start.
        let text_len = self.text.len();
        let mut line: usize = 1;
        let mut curpos: usize = 0;
        while curpos < start
            invariant
                curpos <= start <= error_pos < text_len == self.text@.len(),
                s == self.text@,
                line == 1 + Self::newlines_before(s, curpos as int),
                line <= 1 + curpos,
            decreases start - curpos,
        {
            if self.text[curpos] == '\n' {
                line = line + 1;
            }
            curpos = curpos + 1;
        }
        (line_text, line, error_pos - start)
    }
}

/// A binary operator as it appears in tokens and in the syntax tree.
/// `Ne` is the `!=` operator.
#[derive(Debug, PartialEq, Eq, Structural, Clone, Copy)]
pub enum OperationKind {
    Gt,
    Ge,
    Eq,
    Ne,
    Le,
    Lt,
    Add,
    Sub,
    Mul,
    Div,
}

#[derive(Debug, PartialEq, Eq, Structural, Clone, Copy)]
pub enum ParenthesesKind {
    LeftParentheses,
    RightParentheses,
}

#[derive(Debug, PartialEq, Eq, Structural, Clone, Copy)]
pub enum BracesKind {
    LeftBraces,
    RightBraces,
}

/// What a token is. Local variables carry their byte offset from the frame
/// base; function tokens carry the function's name.
#[derive(Debug, PartialEq, Eq, Clone)]
pub enum TokenKind {
    Number(i32),
    Operation(OperationKind),
    Parentheses(ParenthesesKind),
    Braces(BracesKind),
    Comma,
    LocalVariable(usize),
    LocalVariableDefinition(usize),
    FunctionDefinition(String),
    FunctionCall(String),
    Assign,
    Reference,
    Return,
    While,
    If,
    Else,
    For,
    StatementEnd,
    InvalidToken,
}

/// A token: its kind and the character position in the source where it
/// starts.
#[derive(Debug, Clone)]
pub struct Token {
    pub token_kind: TokenKind,
    pub token_pos: usize,
}

impl Token {
    pub fn new(token_kind: TokenKind, token_pos: usize) -> (r: Token)
        ensures
            r.token_kind == token_kind,
            r.token_pos == token_pos,
    {
        Token { token_kind, token_pos }
    }
}

/// The tokens of one function definition, consumed front to back by the
/// parser, together with the function's local stack size in bytes.
#[derive(Debug)]
pub struct TokenList {
    pub tokens: VecDeque<Token>,
    pub local_stack_size: usize,
}

impl View for TokenList {
    type V = Seq<Token>;

    open spec fn view(&self) -> Seq<Token> {
        self.tokens@
    }
}

impl TokenList {
    pub fn new() -> (r: TokenList)
        ensures
            r@ == Seq::<Token>::empty(),
            r.local_stack_size == 0,
    {
        TokenList { tokens: VecDeque::new(), local_stack_size: 0 }
    }

    pub(crate) fn push_token(&mut self, token: Token)
        ensures
            final(self)@ == old(self)@.push(token),
            final(self).local_stack_size == old(self).local_stack_size,
    {
        self.tokens.push_back(token);
    }

    pub fn peek_head(&self) -> (r: Option<&Token>)
        ensures
            self@.len() > 0 ==> (r matches Some(t) && *t == self@[0]),
            self@.len() == 0 ==> r is None,
    {
        if self.tokens.len() > 0 {
            Some(&self.tokens[0])
        } else {
            None
        }
    }

    pub fn pop_head(&mut self) -> (r: Option<Token>)
        ensures
            final(self).local_stack_size == old(self).local_stack_size,
            old(self)@.len() > 0 ==> (r matches Some(t) && t == old(self)@[0] && final(self)@
                == old(self)@.drop_first()),
            old(self)@.len() == 0 ==> r is None && final(self)@ == old(self)@,
    {
        let r = self.tokens.pop_front();
        proof {
            if old(self)@.len() > 0 {
                assert(final(self)@ =~= old(self)@.drop_first());
            }
        }
        r
    }

    pub fn is_empty(&self) -> (r: bool)
        ensures
            r == (self@.len() == 0),
    {
        self.tokens.len() == 0
    }

    /// The head token's position, or the text's last position when no token
    /// is left: the place where an error about the head is reported.
    pub open spec fn head_pos(&self, program: ProgramText) -> int {
        if self@.len() > 0 {
            self@[0].token_pos as int
        } else {
            program.text@.len() - 1
        }
    }

    /// Whether the head token exists and has the given kind.
    pub open spec fn head_is(&self, kind: TokenKind) -> bool {
        self@.len() > 0 && self@[0].token_kind == kind
    }

    /// Consumes the head token when it is the given operation.
    pub fn consume_operation(&mut self, op: OperationKind) -> (r: bool)
        ensures
            final(self).local_stack_size == old(self).local_stack_size,
            r == old(self).head_is(TokenKind::Operation(op)),
            r ==> final(self)@ == old(self)@.drop_first(),
            !r ==> final(self)@ == old(self)@,
    {
        let consume = match self.peek_head() {
            Some(token) => match &token.token_kind {
                TokenKind::Operation(head_op) => *head_op == op,
                _ => false,
            },
            None => false,
        };
        if consume {
            self.pop_head();
        }
        consume
    }

    /// Whether the head token is the given operation, without consuming it.
    pub fn is_operation(&self, op: OperationKind) -> (r: bool)
        ensures
            r == self.head_is(TokenKind::Operation(op)),
    {
        match self.peek_head() {
            Some(token) => match &token.token_kind {
                TokenKind::Operation(head_op) => *head_op == op,
                _ => false,
            },
            None => false,
        }
    }

    /// Consumes the head token when it is a comma.
    pub fn consume_commma(&mut self) -> (r: bool)
        ensures
            final(self).local_stack_size == old(self).local_stack_size,
            r == old(self).head_is(TokenKind::Comma),
            r ==> final(self)@ == old(self)@.drop_first(),
            !r ==> final(self)@ == old(self)@,
    {
        let consume = match self.peek_head() {
            Some(token) => matches!(token.token_kind, TokenKind::Comma),
            None => false,
        };
        if consume {
            self.pop_head();
        }
        consume
    }

    /// Consumes the head token when it is a function call, returning the
    /// called function's name.
    pub fn consume_functioncall(&mut self) -> (r: Option<String>)
        ensures
            final(self).local_stack_size == old(self).local_stack_size,
            match r {
                Some(name) => old(self)@.len() > 0 && old(self)@[0].token_kind
                    == TokenKind::FunctionCall(name) && final(self)@ == old(self)@.drop_first(),
                None => final(self)@ == old(self)@ && !(old(self)@.len() > 0 && old(self)@[0].token_kind is FunctionCall),
            },
    {
        let is_call = match self.peek_head() {
            Some(token) => matches!(token.token_kind, TokenKind::FunctionCall(_)),
            None => false,
        };
        if is_call {
            match self.pop_head() {
                Some(Token { token_kind: TokenKind::FunctionCall(name), .. }) => Some(name),
                _ => vstd::pervasive::unreached(),
            }
        } else {
            None
        }
    }

    /// Consumes the head token when it is a function definition, returning
    /// the defined function's name.
    pub(crate) fn consume_function_definition(&mut self) -> (r: Option<String>)
        ensures
            final(self).local_stack_size == old(self).local_stack_size,
            match r {
                Some(name) => old(self)@.len() > 0 && old(self)@[0].token_kind
                    == TokenKind::FunctionDefinition(name) && final(self)@ == old(self)@.drop_first(),
                None => final(self)@ == old(self)@ && !(old(self)@.len() > 0 && old(self)@[0].token_kind is FunctionDefinition),
            },
    {
        let is_def = match self.peek_head() {
            Some(token) => matches!(token.token_kind, TokenKind::FunctionDefinition(_)),
            None => false,
        };
        if is_def {
            match self.pop_head() {
                Some(Token { token_kind: TokenKind::FunctionDefinition(name), .. }) => Some(name),
                _ => vstd::pervasive::unreached(),
            }
        } else {
            None
        }
    }

    /// Whether the head token is the given parenthesis, without consuming it.
    pub fn is_parentheses(&self, parenthese: ParenthesesKind) -> (r: bool)
        ensures
            r == self.head_is(TokenKind::Parentheses(parenthese)),
    {
        match self.peek_head() {
            Some(token) => match &token.token_kind {
                TokenKind::Parentheses(head) => *head == parenthese,
                _ => false,
            },
            None => false,
        }
    }

    /// Consumes the head token when it is the given parenthesis.
    pub fn comsume_parentheses(&mut self, parenthese: ParenthesesKind) -> (r: bool)
        ensures
            final(self).local_stack_size == old(self).local_stack_size,
            r == old(self).head_is(TokenKind::Parentheses(parenthese)),
            r ==> final(self)@ == old(self)@.drop_first(),
            !r ==> final(self)@ == old(self)@,
    {
        let consume = self.is_parentheses(parenthese);
        if consume {
            self.pop_head();
        }
        consume
    }

    /// Consumes the head token when it is the given brace.
    pub fn comsume_braces(&mut self, braces: BracesKind) -> (r: bool)
        ensures
            final(self).local_stack_size == old(self).local_stack_size,
            r == old(self).head_is(TokenKind::Braces(braces)),
            r ==> final(self)@ == old(self)@.drop_first(),
            !r ==> final(self)@ == old(self)@,
    {
        let consume = match self.peek_head() {
            Some(token) => match &token.token_kind {
                TokenKind::Braces(head) => *head == braces,
                _ => false,
            },
            None => false,
        };
        if consume {
            self.pop_head();
        }
        consume
    }

    /// Whether the head token is the `=` of an assignment, without consuming
    /// it.
    pub fn is_assign(&self) -> (r: bool)
        ensures
            r == self.head_is(TokenKind::Assign),
    {
        match self.peek_head() {
            Some(token) => matches!(token.token_kind, TokenKind::Assign),
            None => false,
        }
    }

    /// Whether the head token is the `&` address-of operator, without
    /// consuming it.
    pub(crate) fn is_reference(&self) -> (r: bool)
        ensures
            r == self.head_is(TokenKind::Reference),
    {
        match self.peek_head() {
            Some(token) => matches!(token.token_kind, TokenKind::Reference),
            None => false,
        }
    }

    /// Consumes the head token when it is `return`.
    pub fn consume_return(&mut self) -> (r: bool)
        ensures
            final(self).local_stack_size == old(self).local_stack_size,
            r == old(self).head_is(TokenKind::Return),
            r ==> final(self)@ == old(self)@.drop_first(),
            !r ==> final(self)@ == old(self)@,
    {
        let consume = match self.peek_head() {
            Some(token) => matches!(token.token_kind, TokenKind::Return),
            None => false,
        };
        if consume {
            self.pop_head();
        }
        consume
    }

    /// Consumes the head token when it is `if`.
    pub fn consume_if(&mut self) -> (r: bool)
        ensures
            final(self).local_stack_size == old(self).local_stack_size,
            r == old(self).head_is(TokenKind::If),
            r ==> final(self)@ == old(self)@.drop_first(),
            !r ==> final(self)@ == old(self)@,
    {
        let consume = match self.peek_head() {
            Some(token) => matches!(token.token_kind, TokenKind::If),
            None => false,
        };
        if consume {
            self.pop_head();
        }
        consume
    }

    /// Consumes the head token when it is `else`.
    pub fn consume_else(&mut self) -> (r: bool)
        ensures
            final(self).local_stack_size == old(self).local_stack_size,
            r == old(self).head_is(TokenKind::Else),
            r ==> final(self)@ == old(self)@.drop_first(),
            !r ==> final(self)@ == old(self)@,
    {
        let consume = match self.peek_head() {
            Some(token) => matches!(token.token_kind, TokenKind::Else),
            None => false,
        };
        if consume {
            self.pop_head();
        }
        consume
    }

    /// Consumes the head token when it is `while`.
    pub fn consume_while(&mut self) -> (r: bool)
        ensures
            final(self).local_stack_size == old(self).local_stack_size,
            r == old(self).head_is(TokenKind::While),
            r ==> final(self)@ == old(self)@.drop_first(),
            !r ==> final(self)@ == old(self)@,
    {
        let consume = match self.peek_head() {
            Some(token) => matches!(token.token_kind, TokenKind::While),
            None => false,
        };
        if consume {
            self.pop_head();
        }
        consume
    }

    /// Consumes the head token when it is `for`.
    pub fn consume_for(&mut self) -> (r: bool)
        ensures
            final(self).local_stack_size == old(self).local_stack_size,
            r == old(self).head_is(TokenKind::For),
            r ==> final(self)@ == old(self)@.drop_first(),
            !r ==> final(self)@ == old(self)@,
    {
        let consume = match self.peek_head() {
            Some(token) => matches!(token.token_kind, TokenKind::For),
            None => false,
        };
        if consume {
            self.pop_head();
        }
        consume
    }

    /// Whether the head token is the `;` ending a statement, without
    /// consuming it.
    pub fn is_statement_end(&self) -> (r: bool)
        ensures
            r == self.head_is(TokenKind::StatementEnd),
    {
        match self.peek_head() {
            Some(token) => matches!(token.token_kind, TokenKind::StatementEnd),
            None => false,
        }
    }

    /// Consumes the `;` that must end a statement, or reports an error at the
    /// offending token or at the end of the text.
    pub fn consume_statement_end(&mut self, program: &ProgramText) -> (r: Result<
        (),
        CompileError,
    >)
        requires
            program.text@.len() > 0,
        ensures
            final(self).local_stack_size == old(self).local_stack_size,
            match r {
                Ok(()) => old(self).head_is(TokenKind::StatementEnd) && final(self)@ == old(self)@.drop_first(),
                Err(e) => {
                    &&& !old(self).head_is(TokenKind::StatementEnd)
                    &&& final(self)@ == old(self)@
                    &&& e.pos == old(self).head_pos(*program)
                    &&& e.message@ == "expect ; at end of statement"@
                },
            },
    {
        let error_text = "expect ; at end of statement";
        match self.peek_head() {
            Some(token) => {
                if matches!(token.token_kind, TokenKind::StatementEnd) {
                    self.pop_head();
                    Ok(())
                } else {
                    Err(CompileError { message: error_text, pos: token.token_pos })
                }
            },
            None => Err(CompileError { message: error_text, pos: program.get_tail_pos() }),
        }
    }

    /// Consumes a token that must be usable as a primary expression: a
    /// number, a local variable, or a local variable definition.
    pub fn expect_primary(&mut self, program: &ProgramText) -> (r: Result<
        PrimaryNodeKind,
        CompileError,
    >)
        requires
            program.text@.len() > 0,
        ensures
            final(self).local_stack_size == old(self).local_stack_size,
            match r {
                Ok(kind) => {
                    &&& old(self)@.len() > 0
                    &&& final(self)@ == old(self)@.drop_first()
                    &&& match old(self)@[0].token_kind {
                        TokenKind::Number(num) => kind == PrimaryNodeKind::Number(num),
                        TokenKind::LocalVariable(offset) => kind == PrimaryNodeKind::LocalVariable(
                            offset,
                        ),
                        TokenKind::LocalVariableDefinition(offset) => kind
                            == PrimaryNodeKind::LocalVariable(offset),
                        _ => false,
                    }
                },
                Err(e) => {
                    &&& final(self)@ == old(self)@
                    &&& e.pos == old(self).head_pos(*program)
                    &&& e.message@ == "expect number or variable token"@
                    &&& (old(self)@.len() > 0 ==> !(old(self)@[0].token_kind is Number
                        || old(self)@[0].token_kind is LocalVariable
                        || old(self)@[0].token_kind is LocalVariableDefinition))
                },
            },
    {
        let error_text = "expect number or variable token";
        match self.peek_head() {
            Some(token) => {
                let pos = token.token_pos;
                match &token.token_kind {
                    TokenKind::Number(num) => {
                        let kind = PrimaryNodeKind::Number(*num);
                        self.pop_head();
                        Ok(kind)
                    },
                    TokenKind::LocalVariable(offset) => {
                        let kind = PrimaryNodeKind::LocalVariable(*offset);
                        self.pop_head();
                        Ok(kind)
                    },
                    TokenKind::LocalVariableDefinition(offset) => {
                        let kind = PrimaryNodeKind::LocalVariable(*offset);
                        self.pop_head();
                        Ok(kind)
                    },
                    _ => Err(CompileError { message: error_text, pos }),
                }
            },
            None => Err(CompileError { message: error_text, pos: program.get_tail_pos() }),
        }
    }

    /// Consumes a token that must be a parameter definition, returning its
    /// frame offset.
    pub(crate) fn expect_variable(&mut self, program: &ProgramText) -> (r: Result<
        usize,
        CompileError,
    >)
        requires
            program.text@.len() > 0,
        ensures
            final(self).local_stack_size == old(self).local_stack_size,
            match r {
                Ok(offset) => {
                    &&& old(self)@.len() > 0
                    &&& old(self)@[0].token_kind == TokenKind::LocalVariableDefinition(offset)
                    &&& final(self)@ == old(self)@.drop_first()
                },
                Err(e) => {
                    &&& final(self)@ == old(self)@
                    &&& e.pos == old(self).head_pos(*program)
                    &&& e.message@ == "expect parameter definition"@
                    &&& (old(self)@.len() > 0 ==> !(old(self)@[0].token_kind is LocalVariableDefinition))
                },
            },
    {
        let error_text = "expect parameter definition";
        match self.peek_head() {
            Some(token) => {
                let pos = token.token_pos;
                match &token.token_kind {
                    TokenKind::LocalVariableDefinition(offset) => {
                        let offset = *offset;
                        self.pop_head();
                        Ok(offset)
                    },
                    _ => Err(CompileError { message: error_text, pos }),
                }
            },
            None => Err(CompileError { message: error_text, pos: program.get_tail_pos() }),
        }
    }
}

/// Characters that may legally follow a decimal literal: operators,
/// punctuation and whitespace as the scanner knows them.
pub open spec fn spec_is_operational_char(c: char) -> bool {
    c == '=' || c == '+' || c == '-' || c == '*' || c == '/' || c == ';' || c == '{' || c == '}'
        || c == '[' || c == ']' || c == '(' || c == ')' || c == '\n' || c == ',' || c == ' '
}

pub fn is_operational_char(ch: &char) -> (r: bool)
    ensures
        r == spec_is_operational_char(*ch),
{
    let c = *ch;
    c == '=' || c == '+' || c == '-' || c == '*' || c == '/' || c == ';' || c == '{' || c == '}'
        || c == '[' || c == ']' || c == '(' || c == ')' || c == '\n' || c == ',' || c == ' '
}

pub open spec fn is_digit_char(c: char) -> bool {
    '0' <= c && c <= '9'
}

pub open spec fn digit_val(c: char) -> int {
    c as int - '0' as int
}

/// The value of a run of decimal digit characters.
pub open spec fn dec_val(s: Seq<char>) -> int
    decreases s.len(),
{
    if s.len() == 0 {
        0
    } else {
        dec_val(s.drop_last()) * 10 + digit_val(s.last())
    }
}

pub open spec fn all_digits(s: Seq<char>) -> bool {
    forall|i: int| 0 <= i < s.len() ==> is_digit_char(s[i])
}

/// The end of the digit run starting at `p`: the first position at or after
/// `p` holding a non-digit, or the end of the text.
pub open spec fn digits_end(s: Seq<char>, p: int) -> int
    decreases s.len() - p,
{
    if p < 0 || p >= s.len() {
        s.len() as int
    } else if is_digit_char(s[p]) {
        digits_end(s, p + 1)
    } else {
        p
    }
}

proof fn lemma_digits_end(s: Seq<char>, p: int)
    requires
        0 <= p <= s.len(),
    ensures
        p <= digits_end(s, p) <= s.len(),
        all_digits(s.subrange(p, digits_end(s, p))),
        digits_end(s, p) < s.len() ==> !is_digit_char(s[digits_end(s, p)]),
    decreases s.len() - p,
{
    if p < s.len() && is_digit_char(s[p]) {
        lemma_digits_end(s, p + 1);
        assert forall|i: int| p <= i < digits_end(s, p) implies is_digit_char(s[i]) by {
            if i > p {
                assert(s.subrange(p + 1, digits_end(s, p + 1))[i - p - 1] == s[i]);
            }
        }
        assert(all_digits(s.subrange(p, digits_end(s, p))));
    }
}

proof fn lemma_dec_val_nonneg(s: Seq<char>)
    requires
        all_digits(s),
    ensures
        dec_val(s) >= 0,
    decreases s.len(),
{
    if s.len() > 0 {
        lemma_dec_val_nonneg(s.drop_last());
    }
}

/// Scans the decimal literal starting at `*pos`, which must be a digit.
/// Consumes the whole digit run. Returns its value when it fits a 32-bit
/// signed integer and is followed by an operational character or the end of
/// the text; fails otherwise, leaving `*pos` at the run's end.
pub fn pop_digit(text: &Vec<char>, pos: &mut usize) -> (r: Result<i32, ()>)
    requires
        old(pos) < text@.len(),
        is_digit_char(text@[*old(pos) as int]),
    ensures
        *old(pos) < *final(pos) <= text@.len(),
        *final(pos) == digits_end(text@, *old(pos) as int),
        ({
            let run = text@.subrange(*old(pos) as int, *final(pos) as int);
            let end = *final(pos) as int;
            match r {
                Ok(num) => {
                    &&& num == dec_val(run)
                    &&& dec_val(run) <= i32::MAX
                    &&& (end == text@.len() || spec_is_operational_char(text@[end]))
                },
                Err(()) => dec_val(run) > i32::MAX || (end < text@.len()
                    && !spec_is_operational_char(text@[end])),
            }
        }),
{
    let ghost s = text@;
    let ghost p0 = *pos as int;
    let text_len = text.len();
    let mut num: i32 = 0;
    let mut overflow = false;
    proof {
        assert(s.subrange(p0, p0) =~= Seq::<char>::empty());
    }
    while *pos < text_len && char_is_digit(text[*pos])
        invariant
            0 <= p0 <= *pos <= text_len,
            s == text@,
            text_len == s.len(),
            all_digits(s.subrange(p0, *pos as int)),
            digits_end(s, p0) == digits_end(s, *pos as int),
            !overflow ==> num == dec_val(s.subrange(p0, *pos as int)),
            overflow ==> dec_val(s.subrange(p0, *pos as int)) > i32::MAX,
            0 <= num,
        decreases text_len - *pos,
    {
        let c = text[*pos];
        let d = digit_of_char(c);
        proof {
            assert(s.subrange(p0, *pos + 1).drop_last() =~= s.subrange(p0, *pos as int));
            lemma_dec_val_nonneg(s.subrange(p0, *pos as int));
        }
        if overflow {
            // The value already exceeds the 32-bit range; appending digits
            // keeps it there.
        } else if num <= (0x7FFF_FFFF - d as i32) / 10 {
            num = num * 10 + d as i32;
        } else {
            overflow = true;
        }
        *pos = *pos + 1;
    }
    proof {
        assert(digits_end(s, *pos as int) == *pos as int);
        assert(digits_end(s, p0) == digits_end(s, p0 + 1));
        lemma_digits_end(s, p0 + 1);
    }
    if overflow {
        return Err(());
    }
    if *pos < text_len {
        let next = text[*pos];
        if !is_operational_char(&next) {
            return Err(());
        }
    }
    Ok(num)
}

fn char_is_digit(c: char) -> (r: bool)
    ensures
        r == is_digit_char(c),
{
    '0' <= c && c <= '9'
}

fn char_is_ident(c: char) -> (r: bool)
    ensures
        r == is_ident_char(c),
{
    ('a' <= c && c <= 'z') || ('A' <= c && c <= 'Z') || ('0' <= c && c <= '9') || c == '_'
}

fn digit_of_char(c: char) -> (d: u32)
    requires
        is_digit_char(c),
    ensures
        d == digit_val(c),
        d < 10,
{
    c as u32 - '0' as u32
}

/// What the operator scanner recognizes at position `p`: the token kind and
/// the position right after the operator. `=`, `<`, `>` and `!` extend to
/// two characters when an `=` follows.
pub open spec fn spec_pop_operation(s: Seq<char>, p: int) -> (TokenKind, int) {
    let c = s[p];
    if c == '(' {
        (TokenKind::Parentheses(ParenthesesKind::LeftParentheses), p + 1)
    } else if c == ')' {
        (TokenKind::Parentheses(ParenthesesKind::RightParentheses), p + 1)
    } else if c == '{' {
        (TokenKind::Braces(BracesKind::LeftBraces), p + 1)
    } else if c == '}' {
        (TokenKind::Braces(BracesKind::RightBraces), p + 1)
    } else if c == ';' {
        (TokenKind::StatementEnd, p + 1)
    } else if c == ',' {
        (TokenKind::Comma, p + 1)
    } else if c == '&' {
        (TokenKind::Reference, p + 1)
    } else if c == '+' {
        (TokenKind::Operation(OperationKind::Add), p + 1)
    } else if c == '-' {
        (TokenKind::Operation(OperationKind::Sub), p + 1)
    } else if c == '*' {
        (TokenKind::Operation(OperationKind::Mul), p + 1)
    } else if c == '/' {
        (TokenKind::Operation(OperationKind::Div), p + 1)
    } else if c == '=' || c == '<' || c == '>' || c == '!' {
        if p + 1 < s.len() && s[p + 1] == '=' {
            if c == '=' {
                (TokenKind::Operation(OperationKind::Eq), p + 2)
            } else if c == '<' {
                (TokenKind::Operation(OperationKind::Le), p + 2)
            } else if c == '>' {
                (TokenKind::Operation(OperationKind::Ge), p + 2)
            } else {
                (TokenKind::Operation(OperationKind::Ne), p + 2)
            }
        } else {
            if c == '=' {
                (TokenKind::Assign, p + 1)
            } else if c == '<' {
                (TokenKind::Operation(OperationKind::Lt), p + 1)
            } else if c == '>' {
                (TokenKind::Operation(OperationKind::Gt), p + 1)
            } else {
                (TokenKind::InvalidToken, p + 1)
            }
        }
    } else {
        (TokenKind::InvalidToken, p + 1)
    }
}

/// Scans the operator or punctuator at `*pos`.
pub fn pop_operation(text: &Vec<char>, pos: &mut usize) -> (r: TokenKind)
    requires
        old(pos) < text@.len(),
    ensures
        r == spec_pop_operation(text@, *old(pos) as int).0,
        *final(pos) as int == spec_pop_operation(text@, *old(pos) as int).1,
        *final(pos) <= text@.len(),
{
    let text_len = text.len();
    let c = text[*pos];
    if c == '(' {
        *pos = *pos + 1;
        TokenKind::Parentheses(ParenthesesKind::LeftParentheses)
    } else if c == ')' {
        *pos = *pos + 1;
        TokenKind::Parentheses(ParenthesesKind::RightParentheses)
    } else if c == '{' {
        *pos = *pos + 1;
        TokenKind::Braces(BracesKind::LeftBraces)
    } else if c == '}' {
        *pos = *pos + 1;
        TokenKind::Braces(BracesKind::RightBraces)
    } else if c == ';' {
        *pos = *pos + 1;
        TokenKind::StatementEnd
    } else if c == ',' {
        *pos = *pos + 1;
        TokenKind::Comma
    } else if c == '&' {
        *pos = *pos + 1;
        TokenKind::Reference
    } else if c == '+' {
        *pos = *pos + 1;
        TokenKind::Operation(OperationKind::Add)
    } else if c == '-' {
        *pos = *pos + 1;
        TokenKind::Operation(OperationKind::Sub)
    } else if c == '*' {
        *pos = *pos + 1;
        TokenKind::Operation(OperationKind::Mul)
    } else if c == '/' {
        *pos = *pos + 1;
        TokenKind::Operation(OperationKind::Div)
    } else if c == '=' || c == '<' || c == '>' || c == '!' {
        if *pos + 1 < text.len() && text[*pos + 1] == '=' {
            *pos = *pos + 2;
            if c == '=' {
                TokenKind::Operation(OperationKind::Eq)
            } else if c == '<' {
                TokenKind::Operation(OperationKind::Le)
            } else if c == '>' {
                TokenKind::Operation(OperationKind::Ge)
            } else {
                TokenKind::Operation(OperationKind::Ne)
            }
        } else {
            *pos = *pos + 1;
            if c == '=' {
                TokenKind::Assign
            } else if c == '<' {
                TokenKind::Operation(OperationKind::Lt)
            } else if c == '>' {
                TokenKind::Operation(OperationKind::Gt)
            } else {
                TokenKind::InvalidToken
            }
        }
    } else {
        *pos = *pos + 1;
        TokenKind::InvalidToken
    }
}

pub open spec fn is_letter_char(c: char) -> bool {
    ('a' <= c && c <= 'z') || ('A' <= c && c <= 'Z')
}

/// A character that may continue an identifier.
pub open spec fn is_ident_char(c: char) -> bool {
    is_letter_char(c) || is_digit_char(c) || c == '_'
}

/// The end of the identifier starting at `p`: the first position after `p`
/// holding a character that cannot continue an identifier.
pub open spec fn ident_end(s: Seq<char>, p: int) -> int
    decreases s.len() - p,
{
    if p < 0 || p >= s.len() {
        s.len() as int
    } else if is_ident_char(s[p]) {
        ident_end(s, p + 1)
    } else {
        p
    }
}

/// Reads the identifier starting at `*pos`, which must be a letter.
fn read_identifier(text: &Vec<char>, pos: &mut usize) -> (r: String)
    requires
        old(pos) < text@.len(),
        is_letter_char(text@[*old(pos) as int]),
    ensures
        *old(pos) < *final(pos) <= text@.len(),
        *final(pos) == ident_end(text@, *old(pos) + 1),
        r@ == text@.subrange(*old(pos) as int, *final(pos) as int),
{
    let ghost s = text@;
    let ghost p0 = *pos as int;
    let text_len = text.len();
    let mut name = String::new();
    push_char(&mut name, text[*pos]);
    *pos = *pos + 1;
    proof {
        assert(name@ =~= s.subrange(p0, p0 + 1));
    }
    while *pos < text_len && char_is_ident(text[*pos])
        invariant
            0 <= p0 < *pos <= text_len,
            s == text@,
            text_len == s.len(),
            name@ == s.subrange(p0, *pos as int),
            ident_end(s, p0 + 1) == ident_end(s, *pos as int),
        decreases text_len - *pos,
    {
        push_char(&mut name, text[*pos]);
        proof {
            assert(name@ =~= s.subrange(p0, *pos + 1));
        }
        *pos = *pos + 1;
    }
    proof {
        assert(ident_end(s, *pos as int) == *pos as int);
    }
    name
}

/// Where the block comment whose body starts at `q` is closed: the position
/// right after its `*/`, or `-1` when it is never closed.
pub open spec fn block_comment_end(s: Seq<char>, q: int) -> int
    decreases s.len() - q,
{
    if q < 0 || q + 1 >= s.len() {
        -1
    } else if s[q] == '*' && s[q + 1] == '/' {
        q + 2
    } else {
        block_comment_end(s, q + 1)
    }
}

/// Whether a comment begins at position `p`.
pub open spec fn comment_starts_at(s: Seq<char>, p: int) -> bool {
    0 <= p && p + 1 < s.len() && s[p] == '/' && (s[p + 1] == '/' || s[p + 1] == '*')
}

/// Skips the comment starting at `*pos`, if any. A `//` comment runs to just
/// past the next newline or to the end of the text; a `/*` comment runs to
/// just past its `*/`, and fails without moving when it is never closed.
pub fn skip_comment(text: &Vec<char>, pos: &mut usize) -> (r: Result<(), ()>)
    requires
        *old(pos) <= text@.len(),
    ensures
        *old(pos) <= *final(pos) <= text@.len(),
        comment_starts_at(text@, *old(pos) as int) && r is Ok ==> *final(pos) >= *old(pos) + 2,
        ({
            let s = text@;
            let p = *old(pos) as int;
            if !comment_starts_at(s, p) {
                r is Ok && *final(pos) == *old(pos)
            } else if s[p + 1] == '/' {
                r is Ok && *final(pos) == (if ProgramText::line_end_of(s, p + 2) == s.len() {
                    s.len() as int
                } else {
                    ProgramText::line_end_of(s, p + 2) + 1
                })
            } else {
                if block_comment_end(s, p + 2) == -1 {
                    r is Err && *final(pos) == *old(pos)
                } else {
                    r is Ok && *final(pos) == block_comment_end(s, p + 2)
                }
            }
        }),
{
    let ghost s = text@;
    let ghost p = *old(pos) as int;
    let text_len = text.len();
    if *pos >= text_len || text[*pos] != '/' {
        return Ok(());
    }
    if *pos + 1 >= text_len {
        return Ok(());
    }
    let second = text[*pos + 1];
    if second == '/' {
        // A line comment: skip to just past the next newline.
        *pos = *pos + 2;
        while *pos < text_len && text[*pos] != '\n'
            invariant
                0 <= p,
                p + 2 <= *pos <= text_len,
                s == text@,
                text_len == s.len(),
                ProgramText::line_end_of(s, p + 2) == ProgramText::line_end_of(s, *pos as int),
            decreases text_len - *pos,
        {
            *pos = *pos + 1;
        }
        if *pos < text_len {
            proof {
                assert(ProgramText::line_end_of(s, *pos as int) == *pos as int);
            }
            *pos = *pos + 1;
        }
        Ok(())
    } else if second == '*' {
        // A block comment: skip to just past the closing `*/`.
        let mut q = *pos + 2;
        while q < text_len - 1 && !(text[q] == '*' && text[q + 1] == '/')
            invariant
                0 <= p,
                p + 2 <= q <= text_len,
                p + 2 <= text_len,
                s == text@,
                text_len == s.len(),
                block_comment_end(s, p + 2) == block_comment_end(s, q as int),
            decreases text_len - q,
        {
            q = q + 1;
        }
        if q < text_len - 1 {
            proof {
                assert(block_comment_end(s, q as int) == q + 2);
            }
            *pos = q + 2;
            Ok(())
        } else {
            proof {
                assert(block_comment_end(s, q as int) == -1);
            }
            Err(())
        }
    } else {
        Ok(())
    }
}

/// Whether the character is the space or newline whitespace that the lexer
/// skips between tokens.
pub open spec fn is_ws_char(c: char) -> bool {
    c == ' ' || c == '\n'
}

/// The line's end lies between the position asked about and the end of the
/// text.
pub proof fn lemma_line_end_bounds(s: Seq<char>, p: int)
    requires
        0 <= p <= s.len(),
    ensures
        p <= ProgramText::line_end_of(s, p) <= s.len(),
    decreases s.len() - p,
{
    if p < s.len() && s[p] != '\n' {
        lemma_line_end_bounds(s, p + 1);
    }
}

/// A closed block comment ends after at least its `*/`, within the text.
pub proof fn lemma_block_end_bounds(s: Seq<char>, q: int)
    requires
        0 <= q,
    ensures
        block_comment_end(s, q) == -1 || (q + 2 <= block_comment_end(s, q) <= s.len()),
    decreases s.len() - q,
{
    if q + 1 < s.len() && !(s[q] == '*' && s[q + 1] == '/') {
        lemma_block_end_bounds(s, q + 1);
    }
}

/// Where scanning stops after the whitespace and comments at `p`: the first
/// position holding a token character, the end of the text, or `-1` when an
/// unterminated block comment is reached.
pub open spec fn spec_skip_ws(s: Seq<char>, p: int) -> int
    decreases s.len() - p,
    when 0 <= p <= s.len()
    via spec_skip_ws_decreases
{
    if p >= s.len() {
        s.len() as int
    } else if is_ws_char(s[p]) {
        spec_skip_ws(s, p + 1)
    } else if comment_starts_at(s, p) {
        if s[p + 1] == '/' {
            let e = ProgramText::line_end_of(s, p + 2);
            if e == s.len() {
                s.len() as int
            } else {
                spec_skip_ws(s, e + 1)
            }
        } else {
            let e = block_comment_end(s, p + 2);
            if e == -1 {
                -1
            } else {
                spec_skip_ws(s, e)
            }
        }
    } else {
        p
    }
}

#[via_fn]
proof fn spec_skip_ws_decreases(s: Seq<char>, p: int) {
    if 0 <= p < s.len() && !is_ws_char(s[p]) && comment_starts_at(s, p) {
        if s[p + 1] == '/' {
            lemma_line_end_bounds(s, p + 2);
        } else {
            lemma_block_end_bounds(s, p + 2);
        }
    }
}

/// Advances past whitespace and comments, stopping exactly where
/// `spec_skip_ws` says: at the next token character or the end of the text.
/// Fails exactly when the skipped stretch runs into an unterminated block
/// comment, leaving `*pos` at its opening `/*`.
fn skip_ws_and_comments(text: &Vec<char>, pos: &mut usize) -> (r: Result<(), ()>)
    requires
        *old(pos) <= text@.len(),
    ensures
        *old(pos) <= *final(pos) <= text@.len(),
        r is Ok ==> *final(pos) == spec_skip_ws(text@, *old(pos) as int),
        r is Ok ==> *final(pos) == text@.len() || (!is_ws_char(text@[*final(pos) as int])
            && !comment_starts_at(text@, *final(pos) as int)),
        r is Err ==> spec_skip_ws(text@, *old(pos) as int) == -1,
        r is Err ==> *final(pos) + 1 < text@.len() && text@[*final(pos) as int] == '/'
            && text@[*final(pos) + 1] == '*' && block_comment_end(text@, *final(pos) + 2) == -1,
{
    let text_len = text.len();
    while *pos < text_len
        invariant
            *old(pos) <= *pos <= text_len,
            text_len == text@.len(),
            spec_skip_ws(text@, *old(pos) as int) == spec_skip_ws(text@, *pos as int),
        decreases text_len - *pos,
    {
        let c = text[*pos];
        if c == ' ' || c == '\n' {
            *pos = *pos + 1;
        } else if c == '/' {
            let before = *pos;
            match skip_comment(text, pos) {
                Ok(()) => {
                    if *pos == before {
                        // No comment here: `/` is a token character.
                        return Ok(());
                    }
                },
                Err(()) => {
                    return Err(());
                },
            }
        } else {
            return Ok(());
        }
    }
    Ok(())
}

/// The index of the first entry of `locals` holding exactly the characters
/// of `name`, or `-1` when none does.
pub open spec fn name_index(locals: Seq<String>, name: Seq<char>) -> int
    decreases locals.len(),
{
    if locals.len() == 0 {
        -1
    } else if locals[0]@ == name {
        0
    } else {
        let rest = name_index(locals.drop_first(), name);
        if rest < 0 {
            -1
        } else {
            rest + 1
        }
    }
}

pub proof fn lemma_name_index(locals: Seq<String>, name: Seq<char>)
    ensures
        name_index(locals, name) == -1 <==> (forall|i: int|
            0 <= i < locals.len() ==> locals[i]@ != name),
        name_index(locals, name) >= 0 ==> {
            let idx = name_index(locals, name);
            &&& 0 <= idx < locals.len()
            &&& locals[idx]@ == name
            &&& forall|j: int| 0 <= j < idx ==> locals[j]@ != name
        },
    decreases locals.len(),
{
    if locals.len() > 0 {
        lemma_name_index(locals.drop_first(), name);
        assert(forall|i: int|
            1 <= i < locals.len() ==> locals[i] == locals.drop_first()[i - 1]);
    }
}

/// Looks a name up in the local-variable table, returning the index of its
/// first occurrence.
fn lookup_local(locals: &Vec<String>, name: &String) -> (r: Option<usize>)
    ensures
        match r {
            Some(i) => i == name_index(locals@, name@),
            None => name_index(locals@, name@) == -1,
        },
{
    let mut i: usize = 0;
    while i < locals.len()
        invariant
            0 <= i <= locals@.len(),
            forall|j: int| 0 <= j < i ==> locals@[j]@ != name@,
        decreases locals@.len() - i,
    {
        if crate::text::string_eq(&locals[i], name) {
            proof {
                lemma_name_index_first(locals@, name@, i as int);
            }
            return Some(i);
        }
        i = i + 1;
    }
    proof {
        lemma_name_index(locals@, name@);
    }
    None
}

proof fn lemma_name_index_first(locals: Seq<String>, name: Seq<char>, i: int)
    requires
        0 <= i < locals.len(),
        locals[i]@ == name,
        forall|j: int| 0 <= j < i ==> locals[j]@ != name,
    ensures
        name_index(locals, name) == i,
    decreases locals.len(),
{
    if i > 0 {
        assert(forall|j: int|
            1 <= j < locals.len() ==> locals[j] == locals.drop_first()[j - 1]);
        lemma_name_index_first(locals.drop_first(), name, i - 1);
    }
}

/// The token kind of a reserved word, or nothing for other identifiers.
pub open spec fn spec_keyword(s: Seq<char>) -> Option<TokenKind> {
    if s == "return"@ {
        Some(TokenKind::Return)
    } else if s == "while"@ {
        Some(TokenKind::While)
    } else if s == "if"@ {
        Some(TokenKind::If)
    } else if s == "else"@ {
        Some(TokenKind::Else)
    } else if s == "for"@ {
        Some(TokenKind::For)
    } else {
        None
    }
}

fn keyword_token(name: &String) -> (r: Option<TokenKind>)
    ensures
        r == spec_keyword(name@),
{
    if crate::text::string_eq_str(name, "return") {
        Some(TokenKind::Return)
    } else if crate::text::string_eq_str(name, "while") {
        Some(TokenKind::While)
    } else if crate::text::string_eq_str(name, "if") {
        Some(TokenKind::If)
    } else if crate::text::string_eq_str(name, "else") {
        Some(TokenKind::Else)
    } else if crate::text::string_eq_str(name, "for") {
        Some(TokenKind::For)
    } else {
        None
    }
}

/// The most local variables one function may define: a machine limit, so
/// that every frame offset (eight bytes per slot, plus the alignment pad)
/// stays well within `usize` on any supported word size. No source a
/// machine can hold reaches it; past it the lexer reports an error rather
/// than overflow.
pub const LOCAL_LIMIT: usize = 0x0FFF_FFFF;

/// Token positions are strictly increasing across the list.
pub open spec fn positions_increasing(ts: Seq<Token>) -> bool {
    forall|i: int, j: int| 0 <= i < j < ts.len() ==> ts[i].token_pos < ts[j].token_pos
}

/// Every token position lies below the bound.
pub open spec fn positions_below(ts: Seq<Token>, bound: int) -> bool {
    forall|i: int| 0 <= i < ts.len() ==> ts[i].token_pos < bound
}

proof fn lemma_positions_push(ts: Seq<Token>, t: Token, bound: int)
    requires
        positions_increasing(ts),
        positions_below(ts, bound),
        t.token_pos >= bound,
    ensures
        positions_increasing(ts.push(t)),
        positions_below(ts.push(t), t.token_pos + 1),
{
    assert forall|i: int, j: int| 0 <= i < j < ts.push(t).len() implies ts.push(t)[i].token_pos
        < ts.push(t)[j].token_pos by {
        if j < ts.len() {
            assert(ts[i].token_pos < ts[j].token_pos);
        }
    }
}

/// A well-formed token list as the tokenizer hands it out: positions strictly
/// increasing and within the text, opened by a function-definition token and
/// closed by the `}` that ended the function.
pub open spec fn list_wf(l: TokenList, s: Seq<char>) -> bool {
    &&& positions_increasing(l@)
    &&& positions_below(l@, s.len() as int)
    &&& tokens_match_text(l@, s)
    &&& l@.len() > 0
    &&& l@[0].token_kind is FunctionDefinition
    &&& l@.last().token_kind == TokenKind::Braces(BracesKind::RightBraces)
    &&& l.local_stack_size == 0 || l.local_stack_size % 8 == 0
    &&& l.local_stack_size <= 8 * LOCAL_LIMIT
    &&& definition_offsets(l@) == expected_offsets((l.local_stack_size / 8) as nat)
    &&& offsets_bounded(l@, l.local_stack_size as int)
}

/// The first position at or after `p` that holds neither a space nor a
/// newline.
pub open spec fn nonws_from(s: Seq<char>, p: int) -> int
    decreases s.len() - p,
{
    if p < 0 || p >= s.len() {
        s.len() as int
    } else if is_ws_char(s[p]) {
        nonws_from(s, p + 1)
    } else {
        p
    }
}

/// Whether, skipping spaces and newlines from `p`, the next character is the
/// `(` that makes an identifier a function call.
fn peek_function_call(text: &Vec<char>, start: usize) -> (r: bool)
    requires
        start <= text@.len(),
    ensures
        r == {
            let q = nonws_from(text@, start as int);
            q < text@.len() && text@[q] == '('
        },
{
    let text_len = text.len();
    let mut q = start;
    while q < text_len && (text[q] == ' ' || text[q] == '\n')
        invariant
            start <= q <= text_len,
            text_len == text@.len(),
            nonws_from(text@, start as int) == nonws_from(text@, q as int),
        decreases text_len - q,
    {
        q = q + 1;
    }
    q < text_len && text[q] == '('
}

/// What scanning the variable name after an `int` keyword finds: one of the
/// definition errors, or the name's characters and the position right after
/// them.
pub enum VarScan {
    UnclosedComment,
    NameMissing(int),
    Reserved(int),
    AlreadyDefined(int),
    TooMany(int),
    Scanned(Seq<char>, int),
}

/// Scans the variable name of a definition, starting at `p` (right after the
/// `int` keyword), against the given table: skip whitespace and comments,
/// read a fresh non-reserved identifier.
pub open spec fn spec_scan_var(s: Seq<char>, p: int, locals: Seq<String>) -> VarScan {
    let q = spec_skip_ws(s, p);
    if q == -1 {
        VarScan::UnclosedComment
    } else if q == s.len() {
        VarScan::NameMissing(s.len() - 1)
    } else if !is_letter_char(s[q]) {
        VarScan::NameMissing(q)
    } else {
        let name_end = ident_end(s, q + 1);
        let nm = s.subrange(q, name_end);
        if spec_keyword(nm) is Some || nm == "int"@ {
            VarScan::Reserved(q)
        } else if name_index(locals, nm) >= 0 {
            VarScan::AlreadyDefined(q)
        } else if locals.len() >= LOCAL_LIMIT {
            VarScan::TooMany(q)
        } else {
            VarScan::Scanned(nm, name_end)
        }
    }
}

/// Reads the variable name after an `int` keyword, interns it, and returns
/// its frame offset, exactly as `spec_scan_var` says: each definition error
/// comes on exactly the input that shows it, and on success the fresh name
/// joins the table with the next free offset.
fn lex_variable_name(text: &Vec<char>, pos: &mut usize, locals: &mut Vec<String>) -> (r: Result<
    usize,
    CompileError,
>)
    requires
        text@.len() > 0,
        *old(pos) <= text@.len(),
    ensures
        *old(pos) <= *final(pos) <= text@.len(),
        match spec_scan_var(text@, *old(pos) as int, old(locals)@) {
            VarScan::UnclosedComment => (r matches Err(e) && e.message@ == "comment is unclosed"@
                && e.pos == text@.len() - 1),
            VarScan::NameMissing(ep) => (r matches Err(e) && e.message@
                == "variable name is missing"@ && e.pos == ep),
            VarScan::Reserved(ep) => (r matches Err(e) && e.message@
                == "reserved word cannot be a variable name"@ && e.pos == ep),
            VarScan::AlreadyDefined(ep) => (r matches Err(e) && e.message@
                == "variable is already defined"@ && e.pos == ep),
            VarScan::TooMany(ep) => (r matches Err(e) && e.message@
                == "too many local variables"@ && e.pos == ep),
            VarScan::Scanned(nm, name_end) => (r matches Ok(offset) && final(locals)@.len() == old(locals)@.len() + 1 && final(locals)@ == old(locals)@.push(final(locals)@.last()) && final(locals)@.last()@ == nm && name_index(old(locals)@, nm) == -1 && offset == 8 * final(locals)@.len() && *final(pos) == name_end),
        },
        r is Err ==> (r matches Err(e) && final(locals)@ == old(locals)@ && e.pos
            < text@.len()),
        r is Err ==> (r matches Err(e) && (e.message@ == "comment is unclosed"@ ==> e.pos
            == text@.len() - 1)),
{
    proof {
        lemma_messages_distinct();
    }
    let text_len = text.len();
    if let Err(()) = skip_ws_and_comments(text, pos) {
        return Err(CompileError { message: "comment is unclosed", pos: text_len - 1 });
    }
    if *pos >= text_len {
        return Err(CompileError { message: "variable name is missing", pos: text_len - 1 });
    }
    let c = text[*pos];
    if !(('a' <= c && c <= 'z') || ('A' <= c && c <= 'Z')) {
        return Err(CompileError { message: "variable name is missing", pos: *pos });
    }
    let name_pos = *pos;
    let name = read_identifier(text, pos);
    if keyword_token(&name).is_some() || crate::text::string_eq_str(&name, "int") {
        return Err(CompileError { message: "reserved word cannot be a variable name", pos: name_pos });
    }
    if lookup_local(locals, &name).is_some() {
        return Err(CompileError { message: "variable is already defined", pos: name_pos });
    }
    if locals.len() >= LOCAL_LIMIT {
        return Err(CompileError { message: "too many local variables", pos: name_pos });
    }
    proof {
        lemma_name_index(locals@, name@);
    }
    locals.push(name);
    Ok(8 * locals.len())
}

/// What a `int <name>` definition in a function body must yield, given the
/// text from the end of the `int` keyword: each definition error on exactly
/// the input that shows it, else the fresh name interned, the next free
/// offset in the token, and the cursor left on the terminating `;`.
pub open spec fn definition_case_holds(
    s: Seq<char>,
    e: int,
    locals0: Seq<String>,
    locals1: Seq<String>,
    endpos: int,
    r: Result<TokenKind, CompileError>,
) -> bool {
    match spec_scan_var(s, e, locals0) {
        VarScan::UnclosedComment => (r matches Err(err) && err.message@ == "comment is unclosed"@
            && err.pos == s.len() - 1),
        VarScan::NameMissing(ep) => (r matches Err(err) && err.message@
            == "variable name is missing"@ && err.pos == ep),
        VarScan::Reserved(ep) => (r matches Err(err) && err.message@
            == "reserved word cannot be a variable name"@ && err.pos == ep),
        VarScan::AlreadyDefined(ep) => (r matches Err(err) && err.message@
            == "variable is already defined"@ && err.pos == ep),
        VarScan::TooMany(ep) => (r matches Err(err) && err.message@
            == "too many local variables"@ && err.pos == ep),
        VarScan::Scanned(vn, name_end) => {
            let q3 = spec_skip_ws(s, name_end);
            if q3 == -1 {
                r matches Err(err) && err.message@ == "comment is unclosed"@ && err.pos == s.len()
                    - 1
            } else if q3 == s.len() || s[q3] != ';' {
                let ep = if q3 == s.len() {
                    s.len() - 1
                } else {
                    q3
                };
                r matches Err(err) && err.message@
                    == "local variable definition must end with ;"@ && err.pos == ep
            } else {
                r matches Ok(kind) && kind == TokenKind::LocalVariableDefinition(
                    ((8 * (locals0.len() + 1)) as usize),
                ) && locals1 == locals0.push(locals1.last()) && locals1.last()@ == vn && endpos
                    == q3
            }
        },
    }
}

/// Scans the identifier starting at `*pos` in a function body and classifies
/// it: a reserved word, an `int` variable definition, a function call, or the
/// use of an already interned local variable.
fn pop_identifier_token(text: &Vec<char>, pos: &mut usize, locals: &mut Vec<String>) -> (r: Result<
    TokenKind,
    CompileError,
>)
    requires
        text@.len() > 0,
        *old(pos) < text@.len(),
        is_letter_char(text@[*old(pos) as int]),
        old(locals)@.len() <= LOCAL_LIMIT,
    ensures
        *old(pos) <= *final(pos) <= text@.len(),
        r is Ok ==> *old(pos) < *final(pos),
        old(locals)@.len() <= final(locals)@.len() <= old(locals)@.len() + 1,
        final(locals)@.len() == old(locals)@.len() || old(locals)@.len() < LOCAL_LIMIT,
        r matches Err(err) ==> (err.pos < text@.len() && (err.message@ == "comment is unclosed"@
            ==> err.pos == text@.len() - 1)),
        ({
            let s = text@;
            let p0 = *old(pos) as int;
            let e = ident_end(s, p0 + 1);
            let nm = s.subrange(p0, e);
            &&& (spec_keyword(nm) matches Some(k) ==> (r matches Ok(kind) && kind == k && final(locals)@ == old(locals)@ && *final(pos) == e))
            &&& ((spec_keyword(nm) is None && nm != "int"@) ==> ({
                let q = nonws_from(s, e);
                if q < s.len() && s[q] == '(' {
                    r matches Ok(kind) && (kind matches TokenKind::FunctionCall(f) && f@ == nm)
                        && final(locals)@ == old(locals)@ && *final(pos) == e
                } else if name_index(old(locals)@, nm) >= 0 {
                    r matches Ok(kind) && kind == TokenKind::LocalVariable(
                        ((8 * (name_index(old(locals)@, nm) + 1)) as usize),
                    ) && final(locals)@ == old(locals)@ && *final(pos) == e
                } else {
                    r matches Err(err) && err.message@ == "variable is not defined"@ && err.pos
                        == p0 && final(locals)@ == old(locals)@
                }
            }))
            &&& (nm == "int"@ ==> definition_case_holds(
                s,
                e,
                old(locals)@,
                final(locals)@,
                *final(pos) as int,
                r,
            ))
        }),
{
    proof {
        lemma_messages_distinct();
    }
    let ghost s = text@;
    let ghost p0 = *pos as int;
    let name_pos = *pos;
    let name = read_identifier(text, pos);
    if let Some(kind) = keyword_token(&name) {
        proof {
            reveal_strlit("int");
            reveal_strlit("return");
            reveal_strlit("while");
            reveal_strlit("if");
            reveal_strlit("else");
            reveal_strlit("for");
            assert("int"@.len() == 3 && "return"@.len() == 6 && "while"@.len() == 5 && "if"@.len()
                == 2 && "else"@.len() == 4 && "for"@.len() == 3);
            assert("int"@ != "return"@ && "int"@ != "while"@ && "int"@ != "if"@ && "int"@
                != "else"@);
            assert("int"@[0] != "for"@[0]);
            assert("int"@ != "for"@);
            assert(spec_keyword("int"@) is None);
        }
        return Ok(kind);
    }
    if crate::text::string_eq_str(&name, "int") {
        // A local variable definition: `int <name>`, terminated by `;`.
        let offset = lex_variable_name(text, pos, locals)?;
        let text_len = text.len();
        if let Err(()) = skip_ws_and_comments(text, pos) {
            return Err(CompileError { message: "comment is unclosed", pos: text_len - 1 });
        }
        if *pos >= text_len || text[*pos] != ';' {
            let err_pos = if *pos >= text_len {
                text_len - 1
            } else {
                *pos
            };
            return Err(
                CompileError { message: "local variable definition must end with ;", pos: err_pos },
            );
        }
        return Ok(TokenKind::LocalVariableDefinition(offset));
    }
    if peek_function_call(text, *pos) {
        return Ok(TokenKind::FunctionCall(name));
    }
    match lookup_local(locals, &name) {
        Some(index) => {
            proof {
                lemma_name_index(locals@, name@);
            }
            Ok(TokenKind::LocalVariable(8 * (index + 1)))
        },
        None => Err(CompileError { message: "variable is not defined", pos: name_pos }),
    }
}

/// The diagnostic messages other than the unterminated-comment one, shown
/// distinct from it so that contracts can key on that message.
proof fn lemma_messages_distinct()
    ensures
        "only function definition is allowed in global area"@ != "comment is unclosed"@,
        "function name is missing"@ != "comment is unclosed"@,
        "reserved word cannot be a function name"@ != "comment is unclosed"@,
        "parameter definition must start with int"@ != "comment is unclosed"@,
        "parameter definition must end with , or )"@ != "comment is unclosed"@,
        "unsupported token"@ != "comment is unclosed"@,
        "unexpected }"@ != "comment is unclosed"@,
        "unexpected end of input"@ != "comment is unclosed"@,
        "variable name is missing"@ != "comment is unclosed"@,
        "reserved word cannot be a variable name"@ != "comment is unclosed"@,
        "variable is already defined"@ != "comment is unclosed"@,
        "too many local variables"@ != "comment is unclosed"@,
        "local variable definition must end with ;"@ != "comment is unclosed"@,
        "variable is not defined"@ != "comment is unclosed"@,
{
    reveal_strlit("comment is unclosed");
    reveal_strlit("only function definition is allowed in global area");
    reveal_strlit("function name is missing");
    reveal_strlit("reserved word cannot be a function name");
    reveal_strlit("parameter definition must start with int");
    reveal_strlit("parameter definition must end with , or )");
    reveal_strlit("unsupported token");
    reveal_strlit("unexpected }");
    reveal_strlit("unexpected end of input");
    reveal_strlit("variable name is missing");
    reveal_strlit("reserved word cannot be a variable name");
    reveal_strlit("variable is already defined");
    reveal_strlit("too many local variables");
    reveal_strlit("local variable definition must end with ;");
    reveal_strlit("variable is not defined");
    assert("comment is unclosed"@.len() == 19);
    assert("only function definition is allowed in global area"@.len() == 50);
    assert("function name is missing"@.len() == 24);
    assert("reserved word cannot be a function name"@.len() == 39);
    assert("parameter definition must start with int"@.len() == 40);
    assert("parameter definition must end with , or )"@.len() == 41);
    assert("unsupported token"@.len() == 17);
    assert("unexpected }"@.len() == 12);
    assert("unexpected end of input"@.len() == 23);
    assert("variable name is missing"@.len() == 24);
    assert("reserved word cannot be a variable name"@.len() == 39);
    assert("variable is already defined"@.len() == 27);
    assert("too many local variables"@.len() == 24);
    assert("local variable definition must end with ;"@.len() == 41);
    assert("variable is not defined"@.len() == 23);
}

/// Tokenizing the decimal text of a number gives back exactly that number:
/// the value of the digit run `dec_of(n)` is `n`. Together with the exact
/// contract of `pop_digit`, a literal that fits a 32-bit signed integer
/// scans to a single `Number` token carrying the literal's value.
pub proof fn lemma_numeral_round_trip(n: nat)
    ensures
        dec_val(crate::text::dec_of(n)) == n,
    decreases n,
{
    let digits = crate::text::dec_of(n);
    if n < 10 {
        assert(digit_val(crate::text::digit_char(n)) == n);
        assert(digits =~= seq![crate::text::digit_char(n)]);
        assert(digits.drop_last() =~= Seq::<char>::empty());
        assert(dec_val(Seq::<char>::empty()) == 0);
    } else {
        lemma_numeral_round_trip(n / 10);
        assert(digit_val(crate::text::digit_char(n % 10)) == n % 10);
        assert(digits.drop_last() =~= crate::text::dec_of(n / 10));
        assert(digits.last() == crate::text::digit_char(n % 10));
    }
}

/// No two entries of the local-variable table hold the same name.
pub open spec fn distinct_names(locals: Seq<String>) -> bool {
    forall|i: int, j: int| 0 <= i < j < locals.len() ==> locals[i]@ != locals[j]@
}

/// Interning a name that is not in the table keeps the table's names
/// distinct: the lexer only ever inserts fresh names.
pub proof fn lemma_intern_preserves_distinct(locals: Seq<String>, name: String)
    requires
        distinct_names(locals),
        name_index(locals, name@) == -1,
    ensures
        distinct_names(locals.push(name)),
{
    lemma_name_index(locals, name@);
    assert forall|i: int, j: int|
        0 <= i < j < locals.push(name).len() implies locals.push(name)[i]@ != locals.push(
        name,
    )[j]@ by {
        if j < locals.len() {
            assert(locals[i]@ != locals[j]@);
        } else {
            assert(locals[i]@ != name@);
        }
    }
}

/// Within one function, two textually identical names map to the same frame
/// offset, and distinct names map to distinct offsets: the offset is eight
/// times one more than the name's position in the table.
pub proof fn lemma_interning_offsets(locals: Seq<String>, a: Seq<char>, b: Seq<char>)
    requires
        name_index(locals, a) >= 0,
        name_index(locals, b) >= 0,
    ensures
        a == b <==> 8 * (name_index(locals, a) + 1) == 8 * (name_index(locals, b) + 1),
{
    lemma_name_index(locals, a);
    lemma_name_index(locals, b);
    if name_index(locals, a) == name_index(locals, b) {
        assert(locals[name_index(locals, a)]@ == a);
        assert(locals[name_index(locals, b)]@ == b);
    }
}

/// The number of distinct local names equals the table's length, and so
/// equals `local_stack_size / 8` once the lexer records eight bytes per
/// table entry.
pub proof fn lemma_distinct_name_count(locals: Seq<String>)
    requires
        distinct_names(locals),
    ensures
        locals.map_values(|s: String| s@).to_set().len() == locals.len(),
{
    let names = locals.map_values(|s: String| s@);
    assert(names.no_duplicates());
    names.unique_seq_to_set();
}

/// A token is what the text at its position scans to: a number token's
/// value is the value of the digit run at its position, a punctuation
/// token is what the operator scanner yields there, a word token's
/// identifier spells the keyword (or `int` for the definitions), and a call
/// token carries the identifier at its position with a `(` following.
/// Variable tokens carry a positive multiple-of-eight frame offset; how the
/// offsets relate to the definitions is stated by `definition_offsets`.
pub open spec fn token_matches_text(t: Token, s: Seq<char>) -> bool {
    &&& t.token_pos < s.len()
    &&& (match t.token_kind {
        TokenKind::Number(v) => is_digit_char(s[t.token_pos as int]) && v == dec_val(
            s.subrange(t.token_pos as int, digits_end(s, t.token_pos as int)),
        ),
        TokenKind::Operation(_) | TokenKind::Parentheses(_) | TokenKind::Braces(_)
            | TokenKind::Comma | TokenKind::StatementEnd | TokenKind::Assign
            | TokenKind::Reference => spec_pop_operation(s, t.token_pos as int).0 == t.token_kind,
        TokenKind::Return | TokenKind::While | TokenKind::If | TokenKind::Else
            | TokenKind::For => is_letter_char(s[t.token_pos as int]) && spec_keyword(
            s.subrange(t.token_pos as int, ident_end(s, t.token_pos + 1)),
        ) == Some(t.token_kind),
        TokenKind::FunctionDefinition(name) => is_letter_char(s[t.token_pos as int]) && s.subrange(
            t.token_pos as int,
            ident_end(s, t.token_pos + 1),
        ) == "int"@ && ({
            let q = spec_skip_ws(s, ident_end(s, t.token_pos + 1));
            0 <= q && q < s.len() && is_letter_char(s[q]) && name@ == s.subrange(
                q,
                ident_end(s, q + 1),
            )
        }),
        TokenKind::LocalVariableDefinition(_) => is_letter_char(s[t.token_pos as int])
            && s.subrange(t.token_pos as int, ident_end(s, t.token_pos + 1)) == "int"@,
        TokenKind::FunctionCall(name) => is_letter_char(s[t.token_pos as int]) && name@
            == s.subrange(t.token_pos as int, ident_end(s, t.token_pos + 1)) && ({
            let q = nonws_from(s, ident_end(s, t.token_pos + 1));
            q < s.len() && s[q] == '('
        }),
        TokenKind::LocalVariable(off) => is_letter_char(s[t.token_pos as int]) && off % 8 == 0
            && 8 <= off,
        TokenKind::InvalidToken => false,
    })
}

/// Every token of the list is what the text at its position scans to.
pub open spec fn tokens_match_text(ts: Seq<Token>, s: Seq<char>) -> bool {
    forall|i: int| 0 <= i < ts.len() ==> token_matches_text(#[trigger] ts[i], s)
}

/// The frame offsets carried by the definition tokens, in token order.
pub open spec fn definition_offsets(ts: Seq<Token>) -> Seq<usize>
    decreases ts.len(),
{
    if ts.len() == 0 {
        Seq::empty()
    } else {
        definition_offsets(ts.drop_last()) + (match ts.last().token_kind {
            TokenKind::LocalVariableDefinition(off) => seq![off],
            _ => Seq::empty(),
        })
    }
}

/// The offsets a function with `k` interned locals hands out: eight bytes
/// per slot, one-based.
pub open spec fn expected_offsets(k: nat) -> Seq<usize> {
    Seq::new(k, |i: int| ((8 * (i + 1)) as usize))
}

/// Every variable or definition token's offset lies within the bound.
pub open spec fn offsets_bounded(ts: Seq<Token>, bound: int) -> bool {
    forall|i: int|
        0 <= i < ts.len() ==> (match (#[trigger] ts[i]).token_kind {
            TokenKind::LocalVariable(off) => off <= bound,
            TokenKind::LocalVariableDefinition(off) => off <= bound,
            _ => true,
        })
}

proof fn lemma_tokens_match_push(ts: Seq<Token>, t: Token, s: Seq<char>)
    requires
        tokens_match_text(ts, s),
        token_matches_text(t, s),
    ensures
        tokens_match_text(ts.push(t), s),
{
    assert forall|i: int| 0 <= i < ts.push(t).len() implies token_matches_text(
        #[trigger] ts.push(t)[i],
        s,
    ) by {
        if i < ts.len() {
            assert(token_matches_text(ts[i], s));
        }
    }
}

proof fn lemma_definition_offsets_push(ts: Seq<Token>, t: Token)
    ensures
        definition_offsets(ts.push(t)) == definition_offsets(ts) + (match t.token_kind {
            TokenKind::LocalVariableDefinition(off) => seq![off],
            _ => Seq::<usize>::empty(),
        }),
{
    assert(ts.push(t).drop_last() =~= ts);
    assert(ts.push(t).last() == t);
}

proof fn lemma_offsets_bounded_push(ts: Seq<Token>, t: Token, bound: int)
    requires
        offsets_bounded(ts, bound),
        match t.token_kind {
            TokenKind::LocalVariable(off) => off <= bound,
            TokenKind::LocalVariableDefinition(off) => off <= bound,
            _ => true,
        },
    ensures
        offsets_bounded(ts.push(t), bound),
{
    assert forall|i: int| 0 <= i < ts.push(t).len() implies (match (#[trigger] ts.push(
        t,
    )[i]).token_kind {
        TokenKind::LocalVariable(off) => off <= bound,
        TokenKind::LocalVariableDefinition(off) => off <= bound,
        _ => true,
    }) by {
        if i < ts.len() {
            assert(offsets_bounded(ts, bound));
            assert(match ts[i].token_kind {
                TokenKind::LocalVariable(off) => off <= bound,
                TokenKind::LocalVariableDefinition(off) => off <= bound,
                _ => true,
            });
        }
    }
}

proof fn lemma_offsets_bounded_weaken(ts: Seq<Token>, b1: int, b2: int)
    requires
        offsets_bounded(ts, b1),
        b1 <= b2,
    ensures
        offsets_bounded(ts, b2),
{
    assert forall|i: int| 0 <= i < ts.len() implies (match (#[trigger] ts[i]).token_kind {
        TokenKind::LocalVariable(off) => off <= b2,
        TokenKind::LocalVariableDefinition(off) => off <= b2,
        _ => true,
    }) by {
        assert(match ts[i].token_kind {
            TokenKind::LocalVariable(off) => off <= b1,
            TokenKind::LocalVariableDefinition(off) => off <= b1,
            _ => true,
        });
    }
}

/// `int` is not one of the reserved statement words.
proof fn lemma_int_not_keyword()
    ensures
        spec_keyword("int"@) is None,
{
    reveal_strlit("int");
    reveal_strlit("return");
    reveal_strlit("while");
    reveal_strlit("if");
    reveal_strlit("else");
    reveal_strlit("for");
    assert("int"@.len() == 3 && "return"@.len() == 6 && "while"@.len() == 5 && "if"@.len() == 2
        && "else"@.len() == 4 && "for"@.len() == 3);
    assert("int"@[0] != "for"@[0]);
    assert("int"@ != "for"@);
}

/// The lexer's context: at the top level, inside a parameter list, or inside
/// a function body.
#[derive(Debug, PartialEq, Eq, Structural, Clone, Copy)]
enum TokenizerState {
    Global,
    FunctionDefinition,
    Local,
}

struct TokenizerInfo {
    state: TokenizerState,
    nest_level: usize,
}

impl TokenizerInfo {
    fn new() -> (r: TokenizerInfo)
        ensures
            r.state == TokenizerState::Global,
            r.nest_level == 0,
    {
        TokenizerInfo { state: TokenizerState::Global, nest_level: 0 }
    }
}

/// Turns the program text into one token list per top-level function
/// definition. Every token records the position where its text starts, and
/// is exactly what the text at that position scans to; positions are
/// strictly increasing within each list and lie inside the text. Each list
/// opens with the function-definition token and closes with the `}` that
/// ends the function, and carries the function's local stack size: eight
/// bytes per definition, the definitions handing out exactly the offsets
/// 8, 16, and so on, parameters included.
pub fn text_tokenizer(program: &ProgramText) -> (r: Result<Vec<TokenList>, CompileError>)
    requires
        program.wf(),
    ensures
        match r {
            Ok(lists) => forall|k: int|
                0 <= k < lists@.len() ==> list_wf(#[trigger] lists@[k], program.text@),
            Err(e) => {
                &&& program.text@.len() > 0
                &&& e.pos < program.text@.len()
                &&& (e.message@ == "comment is unclosed"@ ==> e.pos == program.text@.len() - 1)
            },
        },
        spec_skip_ws(program.text@, 0) == -1 ==> (r matches Err(e) && e.message@
            == "comment is unclosed"@ && e.pos == program.text@.len() - 1),
        r is Ok ==> spec_skip_ws(program.text@, 0) >= 0,
{
    let text = &program.text;
    let ghost s = text@;
    let text_len = text.len();
    let mut tokenlist_vec: Vec<TokenList> = Vec::new();
    let mut tokenlist = TokenList::new();
    let mut local_variables: Vec<String> = Vec::new();
    let mut info = TokenizerInfo::new();
    let mut pos: usize = 0;

    proof {
        lemma_messages_distinct();
    }
    while pos < text_len
        invariant
            pos <= text_len,
            s == text@,
            text == program.text,
            text_len == s.len(),
            program.wf(),
            positions_increasing(tokenlist@),
            positions_below(tokenlist@, pos as int),
            tokens_match_text(tokenlist@, s),
            definition_offsets(tokenlist@) == expected_offsets(local_variables@.len()),
            offsets_bounded(tokenlist@, 8 * local_variables@.len() as int),
            tokenlist.local_stack_size == 0,
            info.state == TokenizerState::Global ==> tokenlist@.len() == 0,
            info.state != TokenizerState::Global ==> tokenlist@.len() > 0
                && tokenlist@[0].token_kind is FunctionDefinition,
            local_variables@.len() <= LOCAL_LIMIT,
            info.nest_level <= pos,
            pos == 0 || spec_skip_ws(s, 0) >= 0,
            forall|k: int|
                0 <= k < tokenlist_vec@.len() ==> list_wf(
                    #[trigger] tokenlist_vec@[k],
                    s,
                ),
        decreases text_len - pos,
    {
        proof {
            lemma_messages_distinct();
        }
        if let Err(()) = skip_ws_and_comments(text, &mut pos) {
            return Err(CompileError { message: "comment is unclosed", pos: text_len - 1 });
        }
        if pos < text_len {
            let token_pos = pos;
            let c = text[pos];

            if info.state == TokenizerState::Global {
                if !(('a' <= c && c <= 'z') || ('A' <= c && c <= 'Z')) {
                    return Err(
                        CompileError {
                            message: "only function definition is allowed in global area",
                            pos: token_pos,
                        },
                    );
                }
                let word = read_identifier(text, &mut pos);
                if !crate::text::string_eq_str(&word, "int") {
                    return Err(
                        CompileError {
                            message: "only function definition is allowed in global area",
                            pos: token_pos,
                        },
                    );
                }
                if let Err(()) = skip_ws_and_comments(text, &mut pos) {
                    return Err(CompileError { message: "comment is unclosed", pos: text_len - 1 });
                }
                if pos >= text_len {
                    return Err(CompileError { message: "function name is missing", pos: text_len - 1 });
                }
                let c2 = text[pos];
                if !(('a' <= c2 && c2 <= 'z') || ('A' <= c2 && c2 <= 'Z')) {
                    return Err(CompileError { message: "function name is missing", pos });
                }
                let name_pos = pos;
                let name = read_identifier(text, &mut pos);
                if keyword_token(&name).is_some() || crate::text::string_eq_str(&name, "int") {
                    return Err(
                        CompileError { message: "reserved word cannot be a function name", pos: name_pos },
                    );
                }
                proof {
                    assert(tokenlist@ =~= Seq::<Token>::empty());
                    assert(definition_offsets(Seq::<Token>::empty()) =~= Seq::<usize>::empty());
                    assert(token_matches_text(
                        Token { token_kind: TokenKind::FunctionDefinition(name), token_pos },
                        s,
                    ));
                }
                push_checked(&mut tokenlist, TokenKind::FunctionDefinition(name), token_pos, Ghost(s));
                local_variables = Vec::new();
                proof {
                    assert(definition_offsets(tokenlist@) =~= expected_offsets(0));
                }
                info.state = TokenizerState::FunctionDefinition;
            } else if info.state == TokenizerState::FunctionDefinition {
                // Inside the parameter list.
                if c == '(' {
                    push_checked(&mut tokenlist, TokenKind::Parentheses(ParenthesesKind::LeftParentheses), token_pos, Ghost(s));
                    pos = pos + 1;
                } else if c == ')' {
                    push_checked(&mut tokenlist, TokenKind::Parentheses(ParenthesesKind::RightParentheses), token_pos, Ghost(s));
                    pos = pos + 1;
                    info.state = TokenizerState::Local;
                } else if c == ',' {
                    push_checked(&mut tokenlist, TokenKind::Comma, token_pos, Ghost(s));
                    pos = pos + 1;
                } else if ('a' <= c && c <= 'z') || ('A' <= c && c <= 'Z') {
                    let word = read_identifier(text, &mut pos);
                    if !crate::text::string_eq_str(&word, "int") {
                        return Err(
                            CompileError {
                                message: "parameter definition must start with int",
                                pos: token_pos,
                            },
                        );
                    }
                    let offset = match lex_variable_name(text, &mut pos, &mut local_variables) {
                        Ok(offset) => offset,
                        Err(e) => {
                            return Err(e);
                        },
                    };
                    if let Err(()) = skip_ws_and_comments(text, &mut pos) {
                        return Err(CompileError { message: "comment is unclosed", pos: text_len - 1 });
                    }
                    if pos >= text_len || !(text[pos] == ',' || text[pos] == ')') {
                        let err_pos = if pos >= text_len {
                            text_len - 1
                        } else {
                            pos
                        };
                        return Err(
                            CompileError {
                                message: "parameter definition must end with , or )",
                                pos: err_pos,
                            },
                        );
                    }
                    proof {
                        assert(token_matches_text(
                            Token {
                                token_kind: TokenKind::LocalVariableDefinition(offset),
                                token_pos,
                            },
                            s,
                        ));
                        lemma_offsets_bounded_weaken(
                            tokenlist@,
                            8 * (local_variables@.len() - 1),
                            8 * local_variables@.len() as int,
                        );
                    }
                    push_checked(&mut tokenlist, TokenKind::LocalVariableDefinition(offset), token_pos, Ghost(s));
                    proof {
                        assert(definition_offsets(tokenlist@) =~= expected_offsets(
                            local_variables@.len(),
                        ));
                    }
                } else {
                    return Err(CompileError { message: "unsupported token", pos: token_pos });
                }
            } else {
                // Inside a function body.
                if '0' <= c && c <= '9' {
                    match pop_digit(text, &mut pos) {
                        Ok(num) => {
                            push_checked(&mut tokenlist, TokenKind::Number(num), token_pos, Ghost(s));
                        },
                        Err(()) => {
                            let err_pos = if pos >= text_len {
                                text_len - 1
                            } else {
                                pos
                            };
                            return Err(CompileError { message: "unsupported token", pos: err_pos });
                        },
                    }
                } else if ('a' <= c && c <= 'z') || ('A' <= c && c <= 'Z') {
                    let ghost locals0 = local_variables@;
                    let kind = match pop_identifier_token(text, &mut pos, &mut local_variables) {
                        Ok(kind) => kind,
                        Err(e) => {
                            return Err(e);
                        },
                    };
                    proof {
                        let e = ident_end(s, token_pos + 1);
                        let nm = s.subrange(token_pos as int, e);
                        lemma_int_not_keyword();
                        if spec_keyword(nm) is None && nm != "int"@ && !({
                            let q = nonws_from(s, e);
                            q < s.len() && s[q] == '('
                        }) {
                            lemma_name_index(locals0, nm);
                        }
                        assert(token_matches_text(Token { token_kind: kind, token_pos }, s));
                        lemma_offsets_bounded_weaken(
                            tokenlist@,
                            8 * locals0.len() as int,
                            8 * local_variables@.len() as int,
                        );
                    }
                    push_checked(&mut tokenlist, kind, token_pos, Ghost(s));
                    proof {
                        if kind is LocalVariableDefinition {
                            assert(definition_offsets(tokenlist@) =~= expected_offsets(
                                local_variables@.len(),
                            ));
                        }
                    }
                } else {
                    let kind = pop_operation(text, &mut pos);
                    if matches!(kind, TokenKind::InvalidToken) {
                        return Err(CompileError { message: "unsupported token", pos: token_pos });
                    }
                    if matches!(kind, TokenKind::Braces(BracesKind::LeftBraces)) {
                        info.nest_level = info.nest_level + 1;
                        push_checked(&mut tokenlist, kind, token_pos, Ghost(s));
                    } else if matches!(kind, TokenKind::Braces(BracesKind::RightBraces)) {
                        if info.nest_level == 0 {
                            return Err(CompileError { message: "unexpected }", pos: token_pos });
                        }
                        info.nest_level = info.nest_level - 1;
                        push_checked(&mut tokenlist, kind, token_pos, Ghost(s));
                        if info.nest_level == 0 {
                            // The function's outermost block is closed: its
                            // token list is complete.
                            tokenlist.local_stack_size = 8 * local_variables.len();
                            proof {
                                assert(tokenlist.local_stack_size / 8 == local_variables@.len());
                            }
                            tokenlist_vec.push(tokenlist);
                            tokenlist = TokenList::new();
                            local_variables = Vec::new();
                            proof {
                                assert(tokenlist@ =~= Seq::<Token>::empty());
                                assert(definition_offsets(Seq::<Token>::empty())
                                    =~= expected_offsets(0));
                            }
                            info.state = TokenizerState::Global;
                        }
                    } else {
                        push_checked(&mut tokenlist, kind, token_pos, Ghost(s));
                    }
                }
            }
        }
    }
    proof {
        if pos == 0 {
            assert(s.len() == 0);
            assert(spec_skip_ws(s, 0) == 0);
        }
        assert(spec_skip_ws(s, 0) != -1);
    }
    if !matches!(info.state, TokenizerState::Global) {
        return Err(CompileError { message: "unexpected end of input", pos: text_len - 1 });
    }
    Ok(tokenlist_vec)
}

/// Appends a token to the list being built, keeping positions increasing,
/// every token tied to the text at its position, and the definition
/// offsets accounted for.
fn push_checked(tokenlist: &mut TokenList, kind: TokenKind, token_pos: usize, Ghost(s): Ghost<
    Seq<char>,
>)
    requires
        positions_increasing(old(tokenlist)@),
        positions_below(old(tokenlist)@, token_pos as int),
        tokens_match_text(old(tokenlist)@, s),
        token_matches_text(Token { token_kind: kind, token_pos }, s),
    ensures
        final(tokenlist)@ == old(tokenlist)@.push(Token { token_kind: kind, token_pos }),
        final(tokenlist).local_stack_size == old(tokenlist).local_stack_size,
        positions_increasing(final(tokenlist)@),
        positions_below(final(tokenlist)@, token_pos + 1),
        tokens_match_text(final(tokenlist)@, s),
        !(kind is LocalVariableDefinition) ==> definition_offsets(final(tokenlist)@)
            == definition_offsets(old(tokenlist)@),
        kind matches TokenKind::LocalVariableDefinition(off) ==> definition_offsets(
            final(tokenlist)@,
        ) == definition_offsets(old(tokenlist)@).push(off),
        forall|bound: int|
            offsets_bounded(old(tokenlist)@, bound) && (match kind {
                TokenKind::LocalVariable(off) => off <= bound,
                TokenKind::LocalVariableDefinition(off) => off <= bound,
                _ => true,
            }) ==> offsets_bounded(final(tokenlist)@, bound),
{
    proof {
        let t = Token { token_kind: kind, token_pos };
        lemma_positions_push(old(tokenlist)@, t, token_pos as int);
        lemma_tokens_match_push(old(tokenlist)@, t, s);
        lemma_definition_offsets_push(old(tokenlist)@, t);
        if !(kind is LocalVariableDefinition) {
            assert(definition_offsets(old(tokenlist)@) + Seq::<usize>::empty()
                =~= definition_offsets(old(tokenlist)@));
        }
        assert forall|bound: int|
            offsets_bounded(old(tokenlist)@, bound) && (match kind {
                TokenKind::LocalVariable(off) => off <= bound,
                TokenKind::LocalVariableDefinition(off) => off <= bound,
                _ => true,
            }) implies offsets_bounded(old(tokenlist)@.push(t), bound) by {
            lemma_offsets_bounded_push(old(tokenlist)@, t, bound);
        }
    }
    tokenlist.push_token(Token::new(kind, token_pos));
}

} // verus!

