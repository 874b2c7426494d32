use arams::analyzer::analyze;
use arams::lsp_errors::LSPError;
use arams::analyzer::{analyze_address, analyze_operand};
use arams::lsp_token::LSPTokenKind;

const FACTORIAL_PROGRAM: &str = "load 1
    store // no argument here to trigger an error
    jzero return_one
    sub #1
    jzero return_one
    load 1
    store 2
    loop: load 1
    sub #1
    jzero break
    store 1
    mul 2
    store 2
    goto loop
    return_one: load #1
    end
    break: load 2
    end";

#[test]
fn factorial_program_gets_analyzed() {
    let lines = analyze(FACTORIAL_PROGRAM);
    assert_eq!(lines.len(), 18);

    println!("{:#?}", lines);

    // line 1: load 1
    assert_eq!(lines[0][0].kind(), &LSPTokenKind::Load);
    assert_eq!(lines[0][0].lexeme(), "load");
    assert_eq!(lines[0][0].errors().len(), 0);
    assert_eq!(lines[0][1].kind(), &LSPTokenKind::DirectAddressArgument);
    assert_eq!(lines[0][1].lexeme(), "1");
    assert_eq!(lines[0][1].errors().len(), 0);
    assert_eq!(lines[0][2].kind(), &LSPTokenKind::NewLine);
    // line 2: store // no argument here to trigger an error
    assert_eq!(lines[1][0].kind(), &LSPTokenKind::Store);
    assert_eq!(lines[1][0].lexeme(), "store");
    assert_eq!(lines[1][1].errors().len(), 1);
    assert!(matches!(
        lines[1][1].errors()[0],
        LSPError::InvalidArgument(_)
    ));
}

#[test]
fn analyze_flags_missing_and_unknown_words() {
    let lines = analyze("load\nblub");
    assert_eq!(lines.len(), 2);
    assert_eq!(lines[0][0].kind(), &LSPTokenKind::Load);
    assert_eq!(lines[0][0].errors().len(), 1);
    assert!(matches!(lines[0][0].errors()[0], LSPError::MissingArgument));
    assert_eq!(lines[1][0].kind(), &LSPTokenKind::Unknown);
    assert_eq!(lines[1][0].lexeme(), "blub");
    assert!(matches!(lines[1][0].errors()[0], LSPError::UnknownToken(_)));
}

#[test]
fn analyze_flags_word_after_end() {
    let lines = analyze("end extra");
    assert_eq!(lines.len(), 1);
    assert_eq!(lines[0][0].kind(), &LSPTokenKind::End);
    assert_eq!(lines[0][1].kind(), &LSPTokenKind::Unknown);
    assert_eq!(lines[0][1].lexeme(), "extra");
    assert!(matches!(
        lines[0][1].errors()[0],
        LSPError::UnexpectedToken(_)
    ));
}

#[test]
fn analyze_classifies_arguments_and_labels() {
    let immediate = analyze_operand("#10");
    assert_eq!(immediate.kind(), &LSPTokenKind::ImmediateArgument);
    assert_eq!(immediate.errors().len(), 0);

    let indirect = analyze_operand("*3");
    assert_eq!(indirect.kind(), &LSPTokenKind::IndirectAddressArgument);
    assert_eq!(indirect.errors().len(), 0);

    let direct = analyze_operand("3");
    assert_eq!(direct.kind(), &LSPTokenKind::DirectAddressArgument);
    assert_eq!(direct.errors().len(), 0);

    let bad = analyze_operand("#x");
    assert_eq!(bad.kind(), &LSPTokenKind::ImmediateArgument);
    assert_eq!(bad.errors().len(), 1);

    let store_target = analyze_address("*7");
    assert_eq!(store_target.kind(), &LSPTokenKind::IndirectAddressArgument);
    assert_eq!(store_target.errors().len(), 0);

    let lines = analyze("here: goto there");
    assert_eq!(lines[0][0].kind(), &LSPTokenKind::LabelDefinition);
    assert_eq!(lines[0][0].lexeme(), "here");
    assert_eq!(lines[0][1].kind(), &LSPTokenKind::Goto);
    assert_eq!(lines[0][2].kind(), &LSPTokenKind::JumpArgument);
    assert_eq!(lines[0][2].lexeme(), "there");
}

#[test]
fn about_text_and_names_describe_the_kinds() {
    assert_eq!(LSPTokenKind::Load.name(), "load");
    assert_eq!(LSPTokenKind::NewLine.name(), "newline");
    assert!(LSPTokenKind::Load
        .get_about_text()
        .starts_with("Syntax: `load <operand>`"));
    assert_eq!(LSPTokenKind::Unknown.get_about_text(), "");
    assert_eq!(
        LSPError::UnknownToken("x".to_string()).message(),
        "Unknown token 'x'"
    );
}
