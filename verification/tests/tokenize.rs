use arams::errors::CompileErrorKind;
use arams::token::Token;
use arams::tokenizer::tokenize;

#[test]
fn test_empty_program() {
    let empty_program = "";
    let whitespace_only_program = "     ";
    let lf_newline_program = "\n\n\n ";
    let crlf_newline_program = "\r\n\r\n\r\n";

    let tokens = tokenize(empty_program).unwrap();
    assert!(tokens.is_empty(), "Expected no tokens for empty program");

    let tokens = tokenize(whitespace_only_program).unwrap();
    assert!(
        tokens.is_empty(),
        "Expected no tokens for whitespace only program"
    );

    let tokens = tokenize(lf_newline_program).unwrap();
    assert_eq!(tokens.len(), 3, "Expected 3 newline tokens");
    assert!(tokens
        .iter()
        .all(|token| matches!(token, Token::NewLine { .. })));

    let tokens = tokenize(crlf_newline_program).unwrap();
    assert_eq!(tokens.len(), 2, "Expected 2 newline tokens");
    assert!(tokens
        .iter()
        .all(|token| matches!(token, Token::NewLine { .. })));
}

#[test]
fn test_tokenize_complex_program() {
    let program = [
        "// This is a sample program",
        "start:       load #10   // Load the value 10",
        "store 2",
        "       add *3",
        "              sub 1",
        "mul 4",
        "div 2",
        "goto start",
        "jzero e",
        "jnzero start",
        "e:     ",
        "end",
    ];

    let tokens = tokenize(program.join("\n")).unwrap();
    assert_eq!(
        tokens,
        vec![
            Token::Comment {
                line_number: 1,
                value: "This is a sample program".to_string()
            },
            Token::NewLine { line_number: 1 },
            Token::LabelDefinition {
                line_number: 2,
                value: "start".to_string()
            },
            Token::Load { line_number: 2 },
            Token::Argument {
                line_number: 2,
                value: "#10".to_string()
            },
            Token::Comment {
                line_number: 2,
                value: "Load the value 10".to_string()
            },
            Token::NewLine { line_number: 2 },
            Token::Store { line_number: 3 },
            Token::Argument {
                line_number: 3,
                value: "2".to_string()
            },
            Token::NewLine { line_number: 3 },
            Token::Add { line_number: 4 },
            Token::Argument {
                line_number: 4,
                value: "*3".to_string()
            },
            Token::NewLine { line_number: 4 },
            Token::Sub { line_number: 5 },
            Token::Argument {
                line_number: 5,
                value: "1".to_string()
            },
            Token::NewLine { line_number: 5 },
            Token::Mul { line_number: 6 },
            Token::Argument {
                line_number: 6,
                value: "4".to_string()
            },
            Token::NewLine { line_number: 6 },
            Token::Div { line_number: 7 },
            Token::Argument {
                line_number: 7,
                value: "2".to_string()
            },
            Token::NewLine { line_number: 7 },
            Token::Goto { line_number: 8 },
            Token::Argument {
                line_number: 8,
                value: "start".to_string()
            },
            Token::NewLine { line_number: 8 },
            Token::Jzero { line_number: 9 },
            Token::Argument {
                line_number: 9,
                value: "e".to_string()
            },
            Token::NewLine { line_number: 9 },
            Token::Jnzero { line_number: 10 },
            Token::Argument {
                line_number: 10,
                value: "start".to_string()
            },
            Token::NewLine { line_number: 10 },
            Token::LabelDefinition {
                line_number: 11,
                value: "e".to_string()
            },
            Token::NewLine { line_number: 11 },
            Token::End { line_number: 12 },
        ]
    );
}

#[test]
fn tokenize_reports_every_lexical_fault() {
    let errors = tokenize("load 1 2\n:\nblub").unwrap_err();
    assert_eq!(errors.len(), 3);
    assert_eq!(errors[0].line_number(), 1);
    assert_eq!(*errors[0].kind(), CompileErrorKind::ExpectedToken);
    assert_eq!(errors[0].context(), "new line, got '2'");
    assert_eq!(errors[1].line_number(), 2);
    assert_eq!(*errors[1].kind(), CompileErrorKind::UnknownToken);
    assert_eq!(errors[1].context(), ":");
    assert_eq!(errors[2].line_number(), 3);
    assert_eq!(*errors[2].kind(), CompileErrorKind::UnknownToken);
    assert_eq!(errors[2].context(), "blub");
}

#[test]
fn tokenize_accepts_mixed_case_mnemonics() {
    let tokens = tokenize("LoAd #1").unwrap();
    assert_eq!(
        tokens,
        vec![
            Token::Load { line_number: 1 },
            Token::Argument {
                line_number: 1,
                value: "#1".to_string()
            },
        ]
    );
}
