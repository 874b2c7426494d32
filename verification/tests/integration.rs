use arams::executor::execute;
use arams::machine::Machine;
use arams::parser::parse;
use arams::tokenizer::tokenize;
use arams::errors::RuntimeError;
use arams::compiler::compile;
use arams::machine::StoppedReason;
use std::collections::HashMap;

#[test]
fn test_machine_creation() {
    let mut machine = Machine::default();
    machine.add(10).unwrap();
    assert_eq!(machine.get_accumulator(), 10);
    machine.store(0).unwrap();
    assert_eq!(*machine.get_register_value(0), 10);
}

#[test]
fn test_program_execution() {
    let source_code = "
    // Berechnung der Fakultaet
//Eingabe in R1: n
//Ergebnis in R0: n!


//Wir fangen den Fall 0! und 1! ab:
		Load 1
		JZero 01Faku
		Sub #1
		JZero 01Faku

		Load 1
		Store 2
Anfang:		Load 1
		Sub #1
		JZero Ende
		Store 1
		Mul 2
		Store 2
		Goto Anfang

01Faku:		Load #1
		End

Ende:		LOAD 2
 		END";

    let program = parse(tokenize(source_code).unwrap());
    assert!(program.is_ok());
    let program = program.unwrap();

    let mut regs_map = HashMap::new();
    regs_map.insert(1, 5);

    let execution_result = execute(program, Some(regs_map));
    assert!(execution_result.is_ok());
    let machine = execution_result.unwrap();
    assert_eq!(machine.get_accumulator(), 120); // 5! = 120
}

#[test]
fn stopped_machine_refuses_every_operation() {
    let mut machine = Machine::new();
    machine.end().unwrap();
    assert!(machine.is_stopped());
    assert!(matches!(machine.add(1), Err(RuntimeError::MachineStopped)));
    assert!(matches!(machine.sub(1), Err(RuntimeError::MachineStopped)));
    assert!(matches!(machine.mul(2), Err(RuntimeError::MachineStopped)));
    assert!(matches!(machine.div(2), Err(RuntimeError::MachineStopped)));
    assert!(matches!(machine.load(1), Err(RuntimeError::MachineStopped)));
    assert!(matches!(machine.store(0), Err(RuntimeError::MachineStopped)));
    assert!(matches!(
        machine.set_register_value(0, 1),
        Err(RuntimeError::MachineStopped)
    ));
    assert!(matches!(machine.end(), Err(RuntimeError::MachineStopped)));
    assert_eq!(machine.get_accumulator(), 0);
}

#[test]
fn machine_arithmetic_follows_the_accumulator() {
    let mut machine = Machine::new_with_preseeded_registers(HashMap::from([(7, 3)]));
    machine.load(20).unwrap();
    machine.sub(5).unwrap();
    assert_eq!(machine.get_accumulator(), 15);
    machine.mul(2).unwrap();
    assert_eq!(machine.get_accumulator(), 30);
    machine.div(4).unwrap();
    assert_eq!(machine.get_accumulator(), 7);
    assert_eq!(*machine.get_register_value(7), 3);
    machine.preseed_register(7, 9);
    assert_eq!(*machine.get_register_value(7), 9);
}

#[test]
fn subtraction_wraps_below_zero() {
    let mut machine = Machine::new();
    machine.sub(1).unwrap();
    assert_eq!(machine.get_accumulator(), u64::MAX);
}

#[test]
fn multiplication_wraps_modulo_word_size() {
    let mut machine = Machine::new();
    machine.load(1u64 << 63).unwrap();
    machine.mul(2).unwrap();
    assert_eq!(machine.get_accumulator(), 0);
}

#[test]
fn runtime_error_message_names_the_label() {
    let error = RuntimeError::UnknownLabel {
        label: "nowhere".to_string(),
    };
    assert_eq!(error.message(), "Tried to jump to unknown label 'nowhere'");
    assert_eq!(
        RuntimeError::MachineStopped.message(),
        "Tried to operate on a stopped machine"
    );
}

#[test]
fn preseeding_replaces_the_register_file() {
    let mut machine = Machine::new();
    machine.preseed_register(1, 5);
    machine.preseed_registers(HashMap::from([(2, 7)]));
    assert_eq!(*machine.get_register_value(1), 0);
    assert_eq!(*machine.get_register_value(2), 7);
    assert!(!machine.is_stopped());
}

#[test]
fn empty_program_stops_with_an_implicit_end() {
    let program = compile("").unwrap();
    let machine = execute(program, None).unwrap();
    assert!(machine.is_stopped());
    assert_eq!(
        machine.get_stopped_reason(),
        Some(StoppedReason::EndInstruction)
    );
    assert_eq!(machine.get_accumulator(), 0);
}
