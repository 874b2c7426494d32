use vstd::prelude::*;
use std::collections::HashMap;
use crate::errors::{RuntimeError, RuntimeErrorView};

verus! {

/// Why a machine left the `Running` state.
#[derive(Clone, Copy, Debug, PartialEq, Eq, Structural)]
pub enum StoppedReason {
    EndInstruction,
    DivisionByZero,
}

/// Lifecycle state of a machine: it runs until it stops, and the stop is
/// terminal.
#[derive(Clone, Copy, Debug, PartialEq, Eq, Structural)]
pub enum MachineState {
    Running,
    Stopped(StoppedReason),
}

/// Interpreter state: a single accumulator, a sparse register file in which
/// an absent register reads as 0, and the lifecycle state.
///
/// Every mutating operation first checks that the machine is running and
/// fails with `RuntimeError::MachineStopped` otherwise, so a stopped machine
/// can never change again.
#[derive(Debug)]
pub struct Machine {
    accumulator: u64,
    registers: HashMap<usize, u64>,
    state: MachineState,
}

/// Mathematical image of a `Machine`.
pub ghost struct MachineView {
    pub accumulator: u64,
    pub registers: Map<usize, u64>,
    pub state: MachineState,
}

impl View for Machine {
    type V = MachineView;

    closed spec fn view(&self) -> MachineView {
        MachineView {
            accumulator: self.accumulator,
            registers: self.registers@,
            state: self.state,
        }
    }
}

/// What a register holds: its entry in the sparse file, or 0 if it was
/// never written.
pub open spec fn spec_register_value(registers: Map<usize, u64>, register: usize) -> u64 {
    if registers.contains_key(register) {
        registers[register]
    } else {
        0
    }
}

impl Machine {
    /// A fresh machine: accumulator 0, no register written, running.
    pub fn new() -> (m: Machine)
        ensures
            m@.accumulator == 0,
            m@.registers == Map::<usize, u64>::empty(),
            m@.state == MachineState::Running,
    {
        Machine {
            accumulator: 0,
            registers: HashMap::new(),
            state: MachineState::Running,
        }
    }

    /// A fresh running machine whose register file starts as `registers`.
    pub fn new_with_preseeded_registers(registers: HashMap<usize, u64>) -> (m: Machine)
        ensures
            m@.accumulator == 0,
            m@.registers == registers@,
            m@.state == MachineState::Running,
    {
        Machine {
            accumulator: 0,
            registers,
            state: MachineState::Running,
        }
    }

    pub fn get_accumulator(&self) -> (v: u64)
        ensures
            v == self@.accumulator,
    {
        self.accumulator
    }

    pub fn get_registers(&self) -> (r: &HashMap<usize, u64>)
        ensures
            r@ == self@.registers,
    {
        &self.registers
    }

    /// The value of one register, 0 if it was never written.
    pub fn get_register_value(&self, register: usize) -> (v: &u64)
        ensures
            *v == spec_register_value(self@.registers, register),
    {
        match self.registers.get(&register) {
            Some(v) => v,
            None => &0,
        }
    }

    pub fn is_stopped(&self) -> (b: bool)
        ensures
            b == (self@.state != MachineState::Running),
    {
        match self.state {
            MachineState::Stopped(_) => true,
            MachineState::Running => false,
        }
    }

    /// The stop reason, or `None` while the machine is still running.
    pub fn get_stopped_reason(&self) -> (r: Option<StoppedReason>)
        ensures
            match self@.state {
                MachineState::Running => r is None,
                MachineState::Stopped(reason) => r == Some(reason),
            },
    {
        match self.state {
            MachineState::Stopped(reason) => Some(reason),
            MachineState::Running => None,
        }
    }

    /// Seed one register before execution starts. Seeding does not check the
    /// lifecycle state: it is meant for setting up a fresh machine.
    pub fn preseed_register(&mut self, register: usize, value: u64)
        ensures
            final(self)@.registers == old(self)@.registers.insert(register, value),
            final(self)@.accumulator == old(self)@.accumulator,
            final(self)@.state == old(self)@.state,
    {
        self.registers.insert(register, value);
    }

    /// Replace the whole register file before execution starts.
    pub fn preseed_registers(&mut self, registers: HashMap<usize, u64>)
        ensures
            final(self)@.registers == registers@,
            final(self)@.accumulator == old(self)@.accumulator,
            final(self)@.state == old(self)@.state,
    {
        self.registers = registers;
    }

    /// Write `value` to `register`; fails iff the machine has stopped.
    pub fn set_register_value(&mut self, register: usize, value: u64) -> (r: Result<(), RuntimeError>)
        ensures
            old(self)@.state == MachineState::Running ==> {
                &&& r is Ok
                &&& final(self)@.registers == old(self)@.registers.insert(register, value)
                &&& final(self)@.accumulator == old(self)@.accumulator
                &&& final(self)@.state == old(self)@.state
            },
            old(self)@.state != MachineState::Running ==> {
                &&& r matches Err(e) && e@ == RuntimeErrorView::MachineStopped
                &&& final(self)@ == old(self)@
            },
    {
        match self.state {
            MachineState::Stopped(_) => Err(RuntimeError::MachineStopped),
            MachineState::Running => {
                self.registers.insert(register, value);
                Ok(())
            }
        }
    }

    /// Add `value` to the accumulator, wrapping modulo 2^64; fails iff the
    /// machine has stopped.
    pub fn add(&mut self, value: u64) -> (r: Result<(), RuntimeError>)
        ensures
            old(self)@.state == MachineState::Running ==> {
                &&& r is Ok
                &&& final(self)@.accumulator == vstd::wrapping::u64_specs::wrapping_add(
                    old(self)@.accumulator,
                    value,
                )
                &&& final(self)@.registers == old(self)@.registers
                &&& final(self)@.state == old(self)@.state
            },
            old(self)@.state != MachineState::Running ==> {
                &&& r matches Err(e) && e@ == RuntimeErrorView::MachineStopped
                &&& final(self)@ == old(self)@
            },
    {
        match self.state {
            MachineState::Stopped(_) => Err(RuntimeError::MachineStopped),
            MachineState::Running => {
                self.accumulator = self.accumulator.wrapping_add(value);
                Ok(())
            }
        }
    }

    /// Subtract `value` from the accumulator, wrapping modulo 2^64; fails iff
    /// the machine has stopped.
    pub fn sub(&mut self, value: u64) -> (r: Result<(), RuntimeError>)
        ensures
            old(self)@.state == MachineState::Running ==> {
                &&& r is Ok
                &&& final(self)@.accumulator == vstd::wrapping::u64_specs::wrapping_sub(
                    old(self)@.accumulator,
                    value,
                )
                &&& final(self)@.registers == old(self)@.registers
                &&& final(self)@.state == old(self)@.state
            },
            old(self)@.state != MachineState::Running ==> {
                &&& r matches Err(e) && e@ == RuntimeErrorView::MachineStopped
                &&& final(self)@ == old(self)@
            },
    {
        match self.state {
            MachineState::Stopped(_) => Err(RuntimeError::MachineStopped),
            MachineState::Running => {
                self.accumulator = self.accumulator.wrapping_sub(value);
                Ok(())
            }
        }
    }

    /// Multiply the accumulator by `value`, wrapping modulo 2^64; fails iff
    /// the machine has stopped.
    pub fn mul(&mut self, value: u64) -> (r: Result<(), RuntimeError>)
        ensures
            old(self)@.state == MachineState::Running ==> {
                &&& r is Ok
                &&& final(self)@.accumulator == vstd::wrapping::u64_specs::wrapping_mul(
                    old(self)@.accumulator,
                    value,
                )
                &&& final(self)@.registers == old(self)@.registers
                &&& final(self)@.state == old(self)@.state
            },
            old(self)@.state != MachineState::Running ==> {
                &&& r matches Err(e) && e@ == RuntimeErrorView::MachineStopped
                &&& final(self)@ == old(self)@
            },
    {
        match self.state {
            MachineState::Stopped(_) => Err(RuntimeError::MachineStopped),
            MachineState::Running => {
                self.accumulator = self.accumulator.wrapping_mul(value);
                Ok(())
            }
        }
    }

    /// Divide the accumulator by `value` (truncating unsigned division).
    /// Division by zero is not a fault: it stops the machine with reason
    /// `DivisionByZero` and leaves the accumulator unchanged. The call fails
    /// iff the machine has already stopped.
    pub fn div(&mut self, value: u64) -> (r: Result<(), RuntimeError>)
        ensures
            old(self)@.state == MachineState::Running && value != 0 ==> {
                &&& r is Ok
                &&& final(self)@.accumulator == old(self)@.accumulator / value
                &&& final(self)@.registers == old(self)@.registers
                &&& final(self)@.state == old(self)@.state
            },
            old(self)@.state == MachineState::Running && value == 0 ==> {
                &&& r is Ok
                &&& final(self)@.accumulator == old(self)@.accumulator
                &&& final(self)@.registers == old(self)@.registers
                &&& final(self)@.state == MachineState::Stopped(StoppedReason::DivisionByZero)
            },
            old(self)@.state != MachineState::Running ==> {
                &&& r matches Err(e) && e@ == RuntimeErrorView::MachineStopped
                &&& final(self)@ == old(self)@
            },
    {
        match self.state {
            MachineState::Stopped(_) => Err(RuntimeError::MachineStopped),
            MachineState::Running => {
                if value == 0 {
                    self.state = MachineState::Stopped(StoppedReason::DivisionByZero);
                } else {
                    self.accumulator = self.accumulator / value;
                }
                Ok(())
            }
        }
    }

    /// Put `value` in the accumulator; fails iff the machine has stopped.
    pub fn load(&mut self, value: u64) -> (r: Result<(), RuntimeError>)
        ensures
            old(self)@.state == MachineState::Running ==> {
                &&& r is Ok
                &&& final(self)@.accumulator == value
                &&& final(self)@.registers == old(self)@.registers
                &&& final(self)@.state == old(self)@.state
            },
            old(self)@.state != MachineState::Running ==> {
                &&& r matches Err(e) && e@ == RuntimeErrorView::MachineStopped
                &&& final(self)@ == old(self)@
            },
    {
        match self.state {
            MachineState::Stopped(_) => Err(RuntimeError::MachineStopped),
            MachineState::Running => {
                self.accumulator = value;
                Ok(())
            }
        }
    }

    /// Write the accumulator to the register `address`; fails iff the machine
    /// has stopped.
    pub fn store(&mut self, address: usize) -> (r: Result<(), RuntimeError>)
        ensures
            old(self)@.state == MachineState::Running ==> {
                &&& r is Ok
                &&& final(self)@.registers == old(self)@.registers.insert(
                    address,
                    old(self)@.accumulator,
                )
                &&& final(self)@.accumulator == old(self)@.accumulator
                &&& final(self)@.state == old(self)@.state
            },
            old(self)@.state != MachineState::Running ==> {
                &&& r matches Err(e) && e@ == RuntimeErrorView::MachineStopped
                &&& final(self)@ == old(self)@
            },
    {
        match self.state {
            MachineState::Stopped(_) => Err(RuntimeError::MachineStopped),
            MachineState::Running => {
                let acc = self.accumulator;
                self.registers.insert(address, acc);
                Ok(())
            }
        }
    }

    /// Stop the machine with reason `EndInstruction`; fails iff it has
    /// already stopped.
    pub fn end(&mut self) -> (r: Result<(), RuntimeError>)
        ensures
            old(self)@.state == MachineState::Running ==> {
                &&& r is Ok
                &&& final(self)@.accumulator == old(self)@.accumulator
                &&& final(self)@.registers == old(self)@.registers
                &&& final(self)@.state == MachineState::Stopped(StoppedReason::EndInstruction)
            },
            old(self)@.state != MachineState::Running ==> {
                &&& r matches Err(e) && e@ == RuntimeErrorView::MachineStopped
                &&& final(self)@ == old(self)@
            },
    {
        match self.state {
            MachineState::Stopped(_) => Err(RuntimeError::MachineStopped),
            MachineState::Running => {
                self.state = MachineState::Stopped(StoppedReason::EndInstruction);
                Ok(())
            }
        }
    }
}

impl Default for Machine {
    /// Same as `Machine::new`.
    fn default() -> (m: Machine)
        ensures
            m@.accumulator == 0,
            m@.registers == Map::<usize, u64>::empty(),
            m@.state == MachineState::Running,
    {
        Machine::new()
    }
}

} // verus!
