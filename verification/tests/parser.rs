use arams::parser::{address_from_str, operand_from_str, parse};
use arams::program::{Address, Instruction, Line, Operand, ProgramBuilder};
use arams::tokenizer::tokenize;

#[test]
fn test_parse_complex_program_is_ok() {
    let program = [
        "// This is a sample program",
        "start:       load #10   // Load the value 10",
        "store 2",
        "       add *3",
        "              sub 1",
        "mul 4",
        "div 2",
        "goto start",
        "jzero e",
        "jnzero start",
        "e:     ",
        "end",
    ];

    let program = parse(tokenize(program.join("\n")).unwrap());
    assert!(program.is_ok());
}

#[test]
fn operand_classification_round_trips_at_the_boundaries() {
    assert_eq!(operand_from_str("#0"), Some(Operand::Immediate(0)));
    assert_eq!(operand_from_str("#1"), Some(Operand::Immediate(1)));
    assert_eq!(
        operand_from_str("#18446744073709551615"),
        Some(Operand::Immediate(u64::MAX))
    );
    assert_eq!(operand_from_str("*0"), Some(Operand::IndirectAddress(0)));
    assert_eq!(operand_from_str("*1"), Some(Operand::IndirectAddress(1)));
    assert_eq!(operand_from_str("0"), Some(Operand::DirectAddress(0)));
    assert_eq!(operand_from_str("1"), Some(Operand::DirectAddress(1)));

    assert_eq!(address_from_str("*0"), Some(Address::Indirect(0)));
    assert_eq!(address_from_str("*1"), Some(Address::Indirect(1)));
    assert_eq!(address_from_str("0"), Some(Address::Direct(0)));
    assert_eq!(address_from_str("1"), Some(Address::Direct(1)));

    // one past the top of the range is rejected
    assert_eq!(operand_from_str("#18446744073709551616"), None);
    assert_eq!(operand_from_str(""), None);
    assert_eq!(operand_from_str("#"), None);
    assert_eq!(address_from_str("*"), None);
    assert_eq!(operand_from_str("x"), None);
}

#[test]
fn operand_prefixes_follow_the_standard_number_grammar() {
    // a `+` sign and repeated prefix characters are tolerated, as the
    // standard parsers and prefix stripping leave them
    assert_eq!(operand_from_str("#+5"), Some(Operand::Immediate(5)));
    assert_eq!(operand_from_str("##5"), Some(Operand::Immediate(5)));
    assert_eq!(operand_from_str("#-5"), None);
    assert_eq!(operand_from_str("# 5"), None);
}

#[test]
fn builder_collects_lines_and_labels() {
    let mut builder = ProgramBuilder::new();
    assert_eq!(builder.current_instruction_index(), 0);
    builder.add_line(Line::new(Instruction::Load(Operand::Immediate(1)), 1));
    assert_eq!(builder.current_instruction_index(), 1);
    builder.add_label("spot".to_string(), 1);
    assert!(builder.label_exists(&"spot".to_string()));
    assert!(!builder.label_exists(&"elsewhere".to_string()));
    builder.add_line(Line::new(Instruction::End, 2));

    let mut program = builder.build();
    let first = program.fetch().unwrap();
    assert_eq!(
        *first.instruction(),
        Instruction::Load(Operand::Immediate(1))
    );
    assert_eq!(first.line_number(), 1);
    program.advance();
    let second = program.fetch().unwrap();
    assert_eq!(*second.instruction(), Instruction::End);

    assert!(program.goto(&"spot".to_string()).is_ok());
    assert_eq!(*program.fetch().unwrap().instruction(), Instruction::End);
    assert!(program.goto(&"elsewhere".to_string()).is_err());
}
