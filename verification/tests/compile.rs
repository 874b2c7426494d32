use arams::compiler::compile;
use arams::errors::CompileErrorKind;
use arams::executor::execute;
use arams::machine::StoppedReason;
use std::collections::HashMap;

const FACTORIAL_PROGRAM: &str = "load 1
    jzero return_one
    sub #1
    jzero return_one
    load 1
    store 2
    loop: load 1
    sub #1
    jzero break
    store 1
    mul 2
    store 2
    goto loop
    return_one: load #1
    end
    break: load 2
    end";

#[test]
fn factorial_program_compiles() {
    let program = compile(FACTORIAL_PROGRAM);
    assert!(program.is_ok());
}

#[test]
fn factorial_program_exectutes() {
    let program = compile(FACTORIAL_PROGRAM).unwrap();
    let regs_map = std::collections::HashMap::from([(1, 3)]);
    let machine = execute(program, Some(regs_map));
    assert!(machine.is_ok());
    let machine = machine.unwrap();
    assert_eq!(machine.get_accumulator(), 6);
}

#[test]
fn missing_argument_fails_compilation() {
    let errors = compile("store").unwrap_err();
    assert_eq!(errors.len(), 1);
    assert_eq!(errors[0].line_number(), 1);
    assert_eq!(*errors[0].kind(), CompileErrorKind::MissingArgument);
    assert_eq!(errors[0].context(), "store");
    assert_eq!(
        errors[0].message(),
        "Missing argument for 'store' at line 1"
    );
}

#[test]
fn duplicate_label_reported_with_other_faults() {
    let errors = compile("loop:\nload\nloop:").unwrap_err();
    assert_eq!(errors.len(), 2);
    assert_eq!(*errors[0].kind(), CompileErrorKind::MissingArgument);
    assert_eq!(errors[0].line_number(), 2);
    assert_eq!(errors[0].context(), "load");
    assert_eq!(*errors[1].kind(), CompileErrorKind::DuplicateLabelDefinition);
    assert_eq!(errors[1].line_number(), 3);
    assert_eq!(errors[1].context(), "loop");
}

#[test]
fn invalid_argument_reported_at_argument_line() {
    let errors = compile("load #abc").unwrap_err();
    assert_eq!(errors.len(), 1);
    assert_eq!(*errors[0].kind(), CompileErrorKind::InvalidArgument);
    assert_eq!(errors[0].line_number(), 1);
    assert_eq!(errors[0].context(), "#abc");
}

#[test]
fn stray_argument_is_unexpected() {
    let errors = compile("end 5").unwrap_err();
    assert_eq!(errors.len(), 1);
    assert_eq!(*errors[0].kind(), CompileErrorKind::UnexpectedToken);
    assert_eq!(errors[0].context(), "5");
}

#[test]
fn unknown_label_compiles_but_fails_execution() {
    let program = compile("goto nowhere\nend").unwrap();
    let result = execute(program, None);
    match result {
        Err(arams::errors::RuntimeError::UnknownLabel { label }) => {
            assert_eq!(label, "nowhere");
        }
        _ => panic!("expected an unknown-label failure"),
    }
}

#[test]
fn division_by_zero_stops_quietly() {
    let program = compile("load #5\ndiv 0").unwrap();
    let machine = execute(program, None).unwrap();
    assert!(machine.is_stopped());
    assert_eq!(
        machine.get_stopped_reason(),
        Some(StoppedReason::DivisionByZero)
    );
    assert_eq!(machine.get_accumulator(), 5);
}

#[test]
fn addition_wraps_around() {
    let program = compile("load #18446744073709551615\nadd 1\nend").unwrap();
    let machine = execute(program, Some(HashMap::from([(1, 1)]))).unwrap();
    assert_eq!(machine.get_accumulator(), 0);
    assert_eq!(
        machine.get_stopped_reason(),
        Some(StoppedReason::EndInstruction)
    );
}

#[test]
fn execution_is_repeatable() {
    let run = || {
        let program = compile(FACTORIAL_PROGRAM).unwrap();
        execute(program, Some(HashMap::from([(1, 5)]))).unwrap()
    };
    let first = run();
    let second = run();
    assert_eq!(first.get_accumulator(), second.get_accumulator());
    assert_eq!(first.get_registers(), second.get_registers());
    assert_eq!(first.get_stopped_reason(), second.get_stopped_reason());
}

#[test]
fn straight_line_program_terminates_with_default_registers() {
    let program = compile("load #1\nadd 2\nstore 3").unwrap();
    let machine = execute(program, None).unwrap();
    assert!(machine.is_stopped());
    assert_eq!(machine.get_accumulator(), 1);
    assert_eq!(*machine.get_register_value(3), 1);
    assert_eq!(*machine.get_register_value(2), 0);
}

#[test]
fn factorial_of_five_is_120() {
    let source = "load 1
jzero return_one
sub #1
jzero return_one
load 1
store 2
loop: load 1
sub #1
jzero break
store 1
mul 2
store 2
goto loop
return_one: load #1
end
break: load 2
end";
    let program = compile(source).unwrap();
    let machine = execute(program, Some(HashMap::from([(1, 5)]))).unwrap();
    assert_eq!(machine.get_accumulator(), 120);
}

#[test]
fn every_source_form_compiles_alike() {
    let as_str = "load #1\nend";
    let as_string = as_str.to_string();
    let as_lines: Vec<String> = vec!["load #1".to_string(), "end".to_string()];
    let as_str_lines: Vec<&str> = vec!["load #1", "end"];

    let a = execute(compile(as_str).unwrap(), None).unwrap();
    let b = execute(compile(as_string).unwrap(), None).unwrap();
    let c = execute(compile(as_lines).unwrap(), None).unwrap();
    let d = execute(compile(as_str_lines).unwrap(), None).unwrap();
    assert_eq!(a.get_accumulator(), 1);
    assert_eq!(b.get_accumulator(), 1);
    assert_eq!(c.get_accumulator(), 1);
    assert_eq!(d.get_accumulator(), 1);
}
