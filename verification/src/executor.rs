use vstd::prelude::*;
use std::collections::HashMap;
use crate::errors::{RuntimeError, RuntimeErrorView};
use crate::machine::{Machine, MachineState, StoppedReason, spec_register_value};
use crate::program::{Address, Instruction, InstructionView, LineView, Operand, Program};

verus! {

/// The value an operand resolves to against a register file: a literal, a
/// register's contents, or — through one level of indirection — the contents
/// of the register whose index is stored in a register. An unwritten
/// register reads as 0.
pub open spec fn spec_operand_value(registers: Map<usize, u64>, operand: Operand) -> u64 {
    match operand {
        Operand::Immediate(v) => v,
        Operand::DirectAddress(r) => spec_register_value(registers, r),
        Operand::IndirectAddress(r) => spec_register_value(
            registers,
            spec_register_value(registers, r) as usize,
        ),
    }
}

/// The register index an address resolves to against a register file.
pub open spec fn spec_address_target(registers: Map<usize, u64>, address: Address) -> usize {
    match address {
        Address::Direct(r) => r,
        Address::Indirect(r) => spec_register_value(registers, r) as usize,
    }
}

/// How one execution step can end: still running, stopped normally (with the
/// machine's stop reason), or failed on a jump to an unknown label.
pub ghost enum RunStatus {
    Running,
    Halted(StoppedReason),
    Failed(Seq<char>),
}

/// The whole state of one execution: the cursor into the instruction
/// sequence, the accumulator, the register file, and the status.
pub ghost struct RunState {
    pub pc: nat,
    pub accumulator: u64,
    pub registers: Map<usize, u64>,
    pub status: RunStatus,
}

/// One fetch-decode-execute step. A state that is no longer `Running` is a
/// fixed point; a cursor past the end of the program acts as an implicit
/// `end`.
pub open spec fn spec_step(
    lines: Seq<LineView>,
    labels: Map<Seq<char>, usize>,
    s: RunState,
) -> RunState {
    if !(s.status is Running) {
        s
    } else if s.pc >= lines.len() {
        RunState { status: RunStatus::Halted(StoppedReason::EndInstruction), ..s }
    } else {
        match lines[s.pc as int].instruction {
            InstructionView::Load(op) => RunState {
                pc: s.pc + 1,
                accumulator: spec_operand_value(s.registers, op),
                ..s
            },
            InstructionView::Store(a) => RunState {
                pc: s.pc + 1,
                registers: s.registers.insert(
                    spec_address_target(s.registers, a),
                    s.accumulator,
                ),
                ..s
            },
            InstructionView::Add(op) => RunState {
                pc: s.pc + 1,
                accumulator: vstd::wrapping::u64_specs::wrapping_add(
                    s.accumulator,
                    spec_operand_value(s.registers, op),
                ),
                ..s
            },
            InstructionView::Sub(op) => RunState {
                pc: s.pc + 1,
                accumulator: vstd::wrapping::u64_specs::wrapping_sub(
                    s.accumulator,
                    spec_operand_value(s.registers, op),
                ),
                ..s
            },
            InstructionView::Mul(op) => RunState {
                pc: s.pc + 1,
                accumulator: vstd::wrapping::u64_specs::wrapping_mul(
                    s.accumulator,
                    spec_operand_value(s.registers, op),
                ),
                ..s
            },
            InstructionView::Div(op) => {
                let v = spec_operand_value(s.registers, op);
                if v == 0 {
                    RunState {
                        pc: s.pc + 1,
                        status: RunStatus::Halted(StoppedReason::DivisionByZero),
                        ..s
                    }
                } else {
                    RunState { pc: s.pc + 1, accumulator: s.accumulator / v, ..s }
                }
            },
            InstructionView::Goto(l) => {
                if labels.contains_key(l) {
                    RunState { pc: labels[l] as nat, ..s }
                } else {
                    RunState { status: RunStatus::Failed(l), ..s }
                }
            },
            InstructionView::Jzero(l) => {
                if s.accumulator == 0 {
                    if labels.contains_key(l) {
                        RunState { pc: labels[l] as nat, ..s }
                    } else {
                        RunState { status: RunStatus::Failed(l), ..s }
                    }
                } else {
                    RunState { pc: s.pc + 1, ..s }
                }
            },
            InstructionView::Jnzero(l) => {
                if s.accumulator != 0 {
                    if labels.contains_key(l) {
                        RunState { pc: labels[l] as nat, ..s }
                    } else {
                        RunState { status: RunStatus::Failed(l), ..s }
                    }
                } else {
                    RunState { pc: s.pc + 1, ..s }
                }
            },
            InstructionView::End => RunState {
                pc: s.pc + 1,
                status: RunStatus::Halted(StoppedReason::EndInstruction),
                ..s
            },
        }
    }
}

/// `n` steps from `s`.
pub open spec fn spec_run(
    lines: Seq<LineView>,
    labels: Map<Seq<char>, usize>,
    s: RunState,
    n: nat,
) -> RunState
    decreases n,
{
    if n == 0 {
        s
    } else {
        spec_step(lines, labels, spec_run(lines, labels, s, (n - 1) as nat))
    }
}

/// The starting state of an execution: the program's cursor, accumulator 0,
/// the caller's preseeded register file, running.
pub open spec fn spec_initial_state(pc: nat, registers: Map<usize, u64>) -> RunState {
    RunState { pc, accumulator: 0, registers, status: RunStatus::Running }
}

/// The machine's lifecycle state, read as a run status.
pub open spec fn spec_status_of(state: MachineState) -> RunStatus {
    match state {
        MachineState::Running => RunStatus::Running,
        MachineState::Stopped(reason) => RunStatus::Halted(reason),
    }
}

/// Running longer than it takes to leave `Running` changes nothing: a state
/// that has halted or failed is a fixed point of the step function.
pub proof fn lemma_run_absorbing(
    lines: Seq<LineView>,
    labels: Map<Seq<char>, usize>,
    s: RunState,
    n: nat,
    m: nat,
)
    requires
        n <= m,
        !(spec_run(lines, labels, s, n).status is Running),
    ensures
        spec_run(lines, labels, s, m) == spec_run(lines, labels, s, n),
    decreases m,
{
    if m > n {
        lemma_run_absorbing(lines, labels, s, n, (m - 1) as nat);
    }
}

/// Execution is deterministic: however many steps two runs from the same
/// start take to leave `Running`, they end in the same state. Re-running a
/// program with the same initial registers therefore yields the identical
/// final accumulator, register file and stop status.
pub proof fn lemma_execution_deterministic(
    lines: Seq<LineView>,
    labels: Map<Seq<char>, usize>,
    s: RunState,
    n: nat,
    m: nat,
)
    requires
        !(spec_run(lines, labels, s, n).status is Running),
        !(spec_run(lines, labels, s, m).status is Running),
    ensures
        spec_run(lines, labels, s, n) == spec_run(lines, labels, s, m),
{
    if n <= m {
        lemma_run_absorbing(lines, labels, s, n, m);
    } else {
        lemma_run_absorbing(lines, labels, s, m, n);
    }
}

/// Whether a program contains no jump instruction at all.
pub open spec fn spec_has_no_jumps(lines: Seq<LineView>) -> bool {
    forall|i: int|
        0 <= i < lines.len() ==> match #[trigger] lines[i].instruction {
            InstructionView::Goto(_) => false,
            InstructionView::Jzero(_) => false,
            InstructionView::Jnzero(_) => false,
            _ => true,
        }
}

/// Stepping from the back equals stepping from the front.
proof fn lemma_run_shift(
    lines: Seq<LineView>,
    labels: Map<Seq<char>, usize>,
    s: RunState,
    n: nat,
)
    ensures
        spec_run(lines, labels, s, n + 1) == spec_run(
            lines,
            labels,
            spec_step(lines, labels, s),
            n,
        ),
    decreases n,
{
    assert(spec_run(lines, labels, s, 0) == s);
    assert(spec_run(lines, labels, spec_step(lines, labels, s), 0) == spec_step(lines, labels, s));
    if n > 0 {
        lemma_run_shift(lines, labels, s, (n - 1) as nat);
        assert(spec_run(lines, labels, s, n + 1) == spec_step(
            lines,
            labels,
            spec_run(lines, labels, s, n),
        ));
        assert(spec_run(lines, labels, spec_step(lines, labels, s), n) == spec_step(
            lines,
            labels,
            spec_run(lines, labels, spec_step(lines, labels, s), (n - 1) as nat),
        ));
    }
}

/// An upper bound on the steps a jump-free run still needs before it halts.
spec fn spec_steps_to_halt(lines: Seq<LineView>, s: RunState) -> nat {
    if !(s.status is Running) {
        0
    } else if s.pc >= lines.len() {
        1
    } else {
        (lines.len() - s.pc + 1) as nat
    }
}

proof fn lemma_no_jumps_halts(lines: Seq<LineView>, labels: Map<Seq<char>, usize>, s: RunState)
    requires
        spec_has_no_jumps(lines),
    ensures
        spec_run(lines, labels, s, spec_steps_to_halt(lines, s)).status matches RunStatus::Halted(_)
            || !(s.status is Running) && spec_run(lines, labels, s, spec_steps_to_halt(lines, s))
            == s,
    decreases spec_steps_to_halt(lines, s),
{
    if s.status is Running {
        let s1 = spec_step(lines, labels, s);
        lemma_run_shift(lines, labels, s, (spec_steps_to_halt(lines, s) - 1) as nat);
        if s1.status is Running {
            lemma_no_jumps_halts(lines, labels, s1);
        } else {
            lemma_run_absorbing(lines, labels, s1, 0, (spec_steps_to_halt(lines, s) - 1) as nat);
        }
    }
}

/// A program with no jumps always terminates: some number of steps leaves
/// every starting state stopped by an `end` (explicit, implicit, or a
/// division by zero), never still running and never failed — and along the
/// way a register that was never written always reads as 0, as
/// `spec_register_value` defines.
pub proof fn lemma_no_jumps_terminates(
    lines: Seq<LineView>,
    labels: Map<Seq<char>, usize>,
    s: RunState,
)
    requires
        spec_has_no_jumps(lines),
        s.status is Running,
    ensures
        exists|n: nat|
            #[trigger] spec_run(lines, labels, s, n).status matches RunStatus::Halted(_),
{
    lemma_no_jumps_halts(lines, labels, s);
    assert(spec_run(lines, labels, s, spec_steps_to_halt(lines, s)).status matches
        RunStatus::Halted(_));
}


/// Two runs of `execute` on the same program and the same initial registers
/// that both come back `Ok` return machines with the identical final
/// accumulator, register file and stop reason.
pub proof fn lemma_execute_idempotent(
    lines: Seq<LineView>,
    labels: Map<Seq<char>, usize>,
    start: RunState,
    r1: Result<Machine, RuntimeError>,
    r2: Result<Machine, RuntimeError>,
)
    requires
        spec_execute_result(lines, labels, start, r1),
        spec_execute_result(lines, labels, start, r2),
        r1 is Ok,
        r2 is Ok,
    ensures
        r1.unwrap()@.accumulator == r2.unwrap()@.accumulator,
        r1.unwrap()@.registers == r2.unwrap()@.registers,
        r1.unwrap()@.state == r2.unwrap()@.state,
{
    let n1 = choose|n: nat|
        {
            let fin = #[trigger] spec_run(lines, labels, start, n);
            &&& fin.status matches RunStatus::Halted(reason) && r1.unwrap()@.state
                == MachineState::Stopped(reason)
            &&& r1.unwrap()@.accumulator == fin.accumulator
            &&& r1.unwrap()@.registers == fin.registers
        };
    let n2 = choose|n: nat|
        {
            let fin = #[trigger] spec_run(lines, labels, start, n);
            &&& fin.status matches RunStatus::Halted(reason) && r2.unwrap()@.state
                == MachineState::Stopped(reason)
            &&& r2.unwrap()@.accumulator == fin.accumulator
            &&& r2.unwrap()@.registers == fin.registers
        };
    lemma_execution_deterministic(lines, labels, start, n1, n2);
}

/// A program with no jumps, short enough to exist in memory, never fails:
/// whatever `execute` returned satisfying its contract is `Ok`.
pub proof fn lemma_no_jumps_execution_succeeds(
    lines: Seq<LineView>,
    labels: Map<Seq<char>, usize>,
    start: RunState,
    r: Result<Machine, RuntimeError>,
)
    requires
        spec_execute_result(lines, labels, start, r),
        spec_has_no_jumps(lines),
        start.status is Running,
        lines.len() < u64::MAX,
    ensures
        r is Ok,
{
    lemma_no_jumps_halts(lines, labels, start);
    let halt_n = spec_steps_to_halt(lines, start);
    if r is Err {
        let e = r->Err_0;
        match e@ {
            RuntimeErrorView::UnknownLabel(l) => {
                let nf = choose|n: nat|
                    #[trigger] spec_run(lines, labels, start, n).status == RunStatus::Failed(l);
                lemma_execution_deterministic(lines, labels, start, nf, halt_n);
            },
            RuntimeErrorView::MachineStopped => {
                assert(halt_n <= u64::MAX);
                assert(spec_run(lines, labels, start, halt_n).status is Running);
            },
        }
    }
}

/// The register file an execution starts from.
pub open spec fn spec_preseed(registers: Option<HashMap<usize, u64>>) -> Map<usize, u64> {
    match registers {
        Some(m) => m@,
        None => Map::empty(),
    }
}

/// What `execute` promises of its result: an `Ok` machine is the stopped
/// state that some number of steps reaches; an `UnknownLabel` error is the
/// failed jump that some number of steps reaches; a `MachineStopped` error
/// says that no step count up to 2^64 - 1 leaves the program anything but
/// running.
pub open spec fn spec_execute_result(
    lines: Seq<LineView>,
    labels: Map<Seq<char>, usize>,
    start: RunState,
    r: Result<Machine, RuntimeError>,
) -> bool {
    match r {
        Ok(m) => exists|n: nat|
            {
                let fin = #[trigger] spec_run(lines, labels, start, n);
                &&& fin.status matches RunStatus::Halted(reason) && m@.state
                    == MachineState::Stopped(reason)
                &&& m@.accumulator == fin.accumulator
                &&& m@.registers == fin.registers
            },
        Err(e) => match e@ {
            RuntimeErrorView::UnknownLabel(l) => exists|n: nat|
                #[trigger] spec_run(lines, labels, start, n).status == RunStatus::Failed(l),
            RuntimeErrorView::MachineStopped => forall|n: nat|
                n <= u64::MAX ==> (#[trigger] spec_run(lines, labels, start, n).status
                    is Running),
        },
    }
}

/// The value `operand` resolves to on `machine`'s registers.
fn resolve_operand(machine: &Machine, operand: &Operand) -> (v: u64)
    ensures
        v == spec_operand_value(machine@.registers, *operand),
{
    match operand {
        Operand::Immediate(value) => *value,
        Operand::DirectAddress(r) => *machine.get_register_value(*r),
        Operand::IndirectAddress(r) => {
            let inner = *machine.get_register_value(*r);
            *machine.get_register_value(inner as usize)
        },
    }
}

/// The register index `address` resolves to on `machine`'s registers.
fn resolve_address(machine: &Machine, address: &Address) -> (t: usize)
    ensures
        t == spec_address_target(machine@.registers, *address),
{
    match address {
        Address::Direct(r) => *r,
        Address::Indirect(r) => {
            let inner = *machine.get_register_value(*r);
            inner as usize
        },
    }
}

/// The fetch-decode-execute loop. Starting from a fresh machine whose
/// registers are preseeded from `registers`, it applies instructions until
/// the machine stops (by `end`, by running past the last instruction, or by
/// a division by zero) or a jump names a label the program never defines.
/// The result is exactly the final state that some number of `spec_step`
/// steps reaches from the initial state: `Ok` with the stopped machine, or
/// `Err(UnknownLabel)` for the failed jump.
///
/// The loop gives a program 2^64 - 1 steps — centuries of work — before it
/// gives up; a program still running then (an infinite loop, in practice) is
/// reported with `MachineStopped`, and the contract says that this happens
/// exactly when no step count up to that many stops the program.
#[verifier::loop_isolation(false)]
pub fn execute(program: Program, registers: Option<HashMap<usize, u64>>) -> (r: Result<
    Machine,
    RuntimeError,
>)
    ensures
        spec_execute_result(
            program@.lines,
            program@.labels,
            spec_initial_state(program@.program_counter, spec_preseed(registers)),
            r,
        ),
{
    let ghost lines = program@.lines;
    let ghost labels = program@.labels;
    let ghost s0 = spec_initial_state(program@.program_counter, spec_preseed(registers));

    let mut program = program;
    let mut machine = match registers {
        Some(regs) => Machine::new_with_preseeded_registers(regs),
        None => Machine::new(),
    };
    let mut steps: u64 = 0;

    while !machine.is_stopped() && steps < u64::MAX
        invariant
            program@.lines == lines,
            program@.labels == labels,
            spec_run(lines, labels, s0, steps as nat) == (RunState {
                pc: program@.program_counter,
                accumulator: machine@.accumulator,
                registers: machine@.registers,
                status: spec_status_of(machine@.state),
            }),
        decreases u64::MAX - steps,
    {
        let fetched = program.fetch();
        match fetched {
            None => {
                let _ = machine.end();
            },
            Some(line) => {
                match line.instruction() {
                    Instruction::Load(operand) => {
                        let value = resolve_operand(&machine, operand);
                        let _ = machine.load(value);
                        program.advance();
                    },
                    Instruction::Store(address) => {
                        let target = resolve_address(&machine, address);
                        let _ = machine.store(target);
                        program.advance();
                    },
                    Instruction::Add(operand) => {
                        let value = resolve_operand(&machine, operand);
                        let _ = machine.add(value);
                        program.advance();
                    },
                    Instruction::Sub(operand) => {
                        let value = resolve_operand(&machine, operand);
                        let _ = machine.sub(value);
                        program.advance();
                    },
                    Instruction::Mul(operand) => {
                        let value = resolve_operand(&machine, operand);
                        let _ = machine.mul(value);
                        program.advance();
                    },
                    Instruction::Div(operand) => {
                        let value = resolve_operand(&machine, operand);
                        let _ = machine.div(value);
                        program.advance();
                    },
                    Instruction::Goto(label) => {
                        match program.goto(label) {
                            Ok(()) => {},
                            Err(e) => {
                                let failed: Result<Machine, RuntimeError> = Err(e);
                                proof {
                                    assert(spec_run(lines, labels, s0, steps as nat + 1)
                                        == spec_step(
                                        lines,
                                        labels,
                                        spec_run(lines, labels, s0, steps as nat),
                                    ));
                                    assert(spec_run(lines, labels, s0, steps as nat + 1).status
                                        == RunStatus::Failed(label@));
                                    assert(spec_execute_result(lines, labels, s0, failed));
                                }
                                return failed;
                            },
                        }
                    },
                    Instruction::Jzero(label) => {
                        if machine.get_accumulator() == 0 {
                            match program.goto(label) {
                                Ok(()) => {},
                                Err(e) => {
                                    let failed: Result<Machine, RuntimeError> = Err(e);
                                    proof {
                                        assert(spec_run(lines, labels, s0, steps as nat + 1)
                                            == spec_step(
                                            lines,
                                            labels,
                                            spec_run(lines, labels, s0, steps as nat),
                                        ));
                                        assert(spec_run(lines, labels, s0, steps as nat + 1).status
                                            == RunStatus::Failed(label@));
                                        assert(spec_execute_result(lines, labels, s0, failed));
                                    }
                                    return failed;
                                },
                            }
                        } else {
                            program.advance();
                        }
                    },
                    Instruction::Jnzero(label) => {
                        if machine.get_accumulator() != 0 {
                            match program.goto(label) {
                                Ok(()) => {},
                                Err(e) => {
                                    let failed: Result<Machine, RuntimeError> = Err(e);
                                    proof {
                                        assert(spec_run(lines, labels, s0, steps as nat + 1)
                                            == spec_step(
                                            lines,
                                            labels,
                                            spec_run(lines, labels, s0, steps as nat),
                                        ));
                                        assert(spec_run(lines, labels, s0, steps as nat + 1).status
                                            == RunStatus::Failed(label@));
                                        assert(spec_execute_result(lines, labels, s0, failed));
                                    }
                                    return failed;
                                },
                            }
                        } else {
                            program.advance();
                        }
                    },
                    Instruction::End => {
                        let _ = machine.end();
                        program.advance();
                    },
                }
            },
        }
        proof {
            assert(spec_run(lines, labels, s0, steps as nat + 1) == spec_step(
                lines,
                labels,
                spec_run(lines, labels, s0, steps as nat),
            ));
        }
        steps = steps + 1;
    }
    if machine.is_stopped() {
        proof {
            assert(spec_run(lines, labels, s0, steps as nat).status is Halted);
        }
        let done: Result<Machine, RuntimeError> = Ok(machine);
        proof {
            assert(spec_execute_result(lines, labels, s0, done));
        }
        done
    } else {
        let gave_up: Result<Machine, RuntimeError> = Err(RuntimeError::MachineStopped);
        proof {
            assert forall|n: nat| n <= u64::MAX implies (#[trigger] spec_run(
                lines,
                labels,
                s0,
                n,
            ).status is Running) by {
                if !(spec_run(lines, labels, s0, n).status is Running) {
                    lemma_run_absorbing(lines, labels, s0, n, steps as nat);
                }
            }
            assert(spec_execute_result(lines, labels, s0, gave_up));
        }
        gave_up
    }
}

} // verus!
