//! The closed fault taxonomy of the machine.
//!
//! Faults come in two levels. [`ISAErr`] is raised while executing one
//! instruction; [`CpuErr`] is raised by the driving loop around instruction
//! fetch and can wrap any execution-level fault, never the other way round.
//! `Halt` is a termination sentinel, not an error: callers must test
//! [`ISAErr::is_halt`] before reporting a fault as a crash.

use vstd::prelude::*;

verus! {

/// A fault raised while executing a single instruction.
#[derive(Debug, Clone, Copy, PartialEq, Eq, Hash, Structural)]
pub enum ISAErr {
    /// A value's tag disagrees with the tag the opcode expects.
    TypeMismatch,
    /// A pop was attempted on an empty stack.
    StackUnderflow,
    /// A register reference decoded from an operand names no register.
    InvalidReg,
    /// A heap cell was read that was never written.
    InvalidHeapType,
    /// A frame-relative stack address lies outside the stack.
    InvalidStackAddr,
    /// Word-bank division or modulo by zero.
    DivByZero,
    /// The syscall index names no host function.
    InvalidSysCall,
    /// A host function rejected one of its arguments.
    InvalidSysCallArg,
    /// A host function reported a failure of its own.
    SysCallErr,
    /// Intentional program termination; a clean stop, not an error.
    Halt,
}

/// A fault raised by the driving loop around instruction fetch.
#[derive(Debug, Clone, Copy, PartialEq, Eq, Hash, Structural)]
pub enum CpuErr {
    /// The program counter names no populated code address.
    InvalidCodeAddr,
    /// An execution-level fault, promoted unchanged.
    Isa(ISAErr),
}

impl ISAErr {
    /// True exactly of the termination sentinel.
    pub fn is_halt(&self) -> (r: bool)
        ensures
            r == (*self == ISAErr::Halt),
    {
        match self {
            ISAErr::Halt => true,
            _ => false,
        }
    }
}

impl CpuErr {
    /// True exactly of a wrapped termination sentinel.
    pub fn is_halt(&self) -> (r: bool)
        ensures
            r == (*self == CpuErr::Isa(ISAErr::Halt)),
    {
        match self {
            CpuErr::Isa(e) => e.is_halt(),
            _ => false,
        }
    }
}

impl From<ISAErr> for CpuErr {
    /// Promotes an execution-level fault to a CPU-level fault.
    fn from(e: ISAErr) -> (r: CpuErr) {
        CpuErr::Isa(e)
    }
}

impl vstd::std_specs::convert::FromSpecImpl<ISAErr> for CpuErr {
    open spec fn obeys_from_spec() -> bool {
        true
    }

    open spec fn from_spec(e: ISAErr) -> CpuErr {
        CpuErr::Isa(e)
    }
}

} // verus!
