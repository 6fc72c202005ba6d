use minicc::tokenizer::{
    pop_digit, pop_operation, text_tokenizer, BracesKind, OperationKind, ParenthesesKind,
    ProgramText, TokenKind,
};

#[test]
fn tokenizer_test() {
    let input_text = "18 + 21 - 8";
    let text: Vec<char> = input_text.chars().collect();
    let mut pos: usize = 0;

    assert_eq!(pop_digit(&text, &mut pos), Ok(18));
    pos += 1; // the space
    assert_eq!(pop_operation(&text, &mut pos), TokenKind::Operation(OperationKind::Add));
    pos += 1;
    assert_eq!(pop_digit(&text, &mut pos), Ok(21));
    pos += 1;
    assert_eq!(pop_operation(&text, &mut pos), TokenKind::Operation(OperationKind::Sub));
    pos += 1;
    assert_eq!(pop_digit(&text, &mut pos), Ok(8));
    assert!(pos == text.len());
}

#[test]
fn tokenizes_one_function() {
    let program = ProgramText::new("int main() { return 0; }");
    let lists = text_tokenizer(&program).unwrap();
    assert_eq!(lists.len(), 1);
    let mut list = lists.into_iter().next().unwrap();
    assert_eq!(list.local_stack_size, 0);

    let kinds: Vec<TokenKind> = {
        let mut v = Vec::new();
        while let Some(token) = list.pop_head() {
            v.push(token.token_kind);
        }
        v
    };
    assert_eq!(
        kinds,
        vec![
            TokenKind::FunctionDefinition(String::from("main")),
            TokenKind::Parentheses(ParenthesesKind::LeftParentheses),
            TokenKind::Parentheses(ParenthesesKind::RightParentheses),
            TokenKind::Braces(BracesKind::LeftBraces),
            TokenKind::Return,
            TokenKind::Number(0),
            TokenKind::StatementEnd,
            TokenKind::Braces(BracesKind::RightBraces),
        ]
    );
}

#[test]
fn token_positions_are_monotone_and_in_range() {
    let text = "int main() { int a; a = 3; if (a < 4) return a; return 0; }";
    let program = ProgramText::new(text);
    let lists = text_tokenizer(&program).unwrap();
    for mut list in lists {
        let mut last: Option<usize> = None;
        while let Some(token) = list.pop_head() {
            if let Some(prev) = last {
                assert!(prev < token.token_pos);
            }
            assert!(token.token_pos < program.text.len());
            last = Some(token.token_pos);
        }
    }
}

#[test]
fn interning_assigns_offsets_in_definition_order() {
    let program = ProgramText::new("int f(int a, int b) { int c; return a + b + c; }");
    let lists = text_tokenizer(&program).unwrap();
    let mut list = lists.into_iter().next().unwrap();
    assert_eq!(list.local_stack_size, 24);

    let mut definitions = Vec::new();
    let mut uses = Vec::new();
    while let Some(token) = list.pop_head() {
        match token.token_kind {
            TokenKind::LocalVariableDefinition(offset) => definitions.push(offset),
            TokenKind::LocalVariable(offset) => uses.push(offset),
            _ => {}
        }
    }
    assert_eq!(definitions, vec![8, 16, 24]);
    // The same names map back to the same offsets.
    assert_eq!(uses, vec![8, 16, 24]);
}

#[test]
fn same_name_maps_to_same_offset() {
    let program = ProgramText::new("int f() { int x; x = 1; x = x + 1; return x; }");
    let lists = text_tokenizer(&program).unwrap();
    let mut list = lists.into_iter().next().unwrap();
    assert_eq!(list.local_stack_size, 8);
    let mut uses = Vec::new();
    while let Some(token) = list.pop_head() {
        if let TokenKind::LocalVariable(offset) = token.token_kind {
            uses.push(offset);
        }
    }
    assert!(uses.iter().all(|&offset| offset == 8));
    assert_eq!(uses.len(), 4);
}

#[test]
fn redefinition_is_an_error() {
    let program = ProgramText::new("int f() { int x; int x; return 0; }");
    let err = text_tokenizer(&program).unwrap_err();
    assert_eq!(err.message, "variable is already defined");
}

#[test]
fn undefined_variable_is_an_error() {
    let program = ProgramText::new("int f() { return y; }");
    let err = text_tokenizer(&program).unwrap_err();
    assert_eq!(err.message, "variable is not defined");
    assert_eq!(err.pos, 17);
}

#[test]
fn unterminated_block_comment_reports_at_end_of_input() {
    let text = "int main() { /* no end";
    let program = ProgramText::new(text);
    let err = text_tokenizer(&program).unwrap_err();
    assert_eq!(err.message, "comment is unclosed");
    assert_eq!(err.pos, program.text.len() - 1);
}

#[test]
fn comments_are_skipped() {
    let program = ProgramText::new("int main() { // line comment\n  /* block */ return 7; }");
    let lists = text_tokenizer(&program).unwrap();
    assert_eq!(lists.len(), 1);
}

#[test]
fn number_round_trip_at_i32_max() {
    let text: Vec<char> = "2147483647;".chars().collect();
    let mut pos: usize = 0;
    assert_eq!(pop_digit(&text, &mut pos), Ok(2147483647));
    assert_eq!(pos, 10);
}

#[test]
fn number_past_i32_max_is_rejected() {
    let text: Vec<char> = "2147483648;".chars().collect();
    let mut pos: usize = 0;
    assert_eq!(pop_digit(&text, &mut pos), Err(()));
}

#[test]
fn digit_adjacent_to_letter_is_rejected() {
    let text: Vec<char> = "12ab".chars().collect();
    let mut pos: usize = 0;
    assert_eq!(pop_digit(&text, &mut pos), Err(()));
    assert_eq!(pos, 2);
}

#[test]
fn two_char_operators_scan_as_one_token() {
    let text: Vec<char> = "<= >= == != < > = &".chars().collect();
    let mut pos: usize = 0;
    assert_eq!(pop_operation(&text, &mut pos), TokenKind::Operation(OperationKind::Le));
    pos += 1;
    assert_eq!(pop_operation(&text, &mut pos), TokenKind::Operation(OperationKind::Ge));
    pos += 1;
    assert_eq!(pop_operation(&text, &mut pos), TokenKind::Operation(OperationKind::Eq));
    pos += 1;
    assert_eq!(pop_operation(&text, &mut pos), TokenKind::Operation(OperationKind::Ne));
    pos += 1;
    assert_eq!(pop_operation(&text, &mut pos), TokenKind::Operation(OperationKind::Lt));
    pos += 1;
    assert_eq!(pop_operation(&text, &mut pos), TokenKind::Operation(OperationKind::Gt));
    pos += 1;
    assert_eq!(pop_operation(&text, &mut pos), TokenKind::Assign);
    pos += 1;
    assert_eq!(pop_operation(&text, &mut pos), TokenKind::Reference);
}

#[test]
fn global_area_rejects_everything_but_int() {
    let program = ProgramText::new("x");
    let err = text_tokenizer(&program).unwrap_err();
    assert_eq!(err.message, "only function definition is allowed in global area");
    assert_eq!(err.pos, 0);
}

#[test]
fn missing_function_body_is_unexpected_end() {
    let program = ProgramText::new("int main()");
    let err = text_tokenizer(&program).unwrap_err();
    assert_eq!(err.message, "unexpected end of input");
}

#[test]
fn error_line_is_located() {
    let program = ProgramText::new("int main() {\n  retur x;\n}\n");
    let (line, number, column) = program.get_error_line(15);
    assert_eq!(line, String::from("  retur x;"));
    assert_eq!(number, 2);
    assert_eq!(column, 2);
}
