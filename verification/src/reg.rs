//! Register names, register content types, and the CPU status flags.
//!
//! The machine has two disjoint fixed-size banks of eight registers each:
//! a general-purpose bank holding machine words and a floating-point bank
//! holding IEEE-754 double-precision bit patterns. Registers are named
//! slots, never addressable memory.

use vstd::prelude::*;

verus! {

/// Content type of a general-purpose register: one unsigned machine word.
pub type UsizeRegType = usize;

/// Content type of a floating-point register: the bit pattern of one
/// IEEE-754 double-precision value. The bits are carried exactly; nothing
/// in this crate reinterprets them as a number.
pub type F64RegType = u64;

/// Names of the eight general-purpose (word) registers.
#[derive(Debug, Clone, Copy, PartialEq, Eq, Hash, Structural)]
pub enum UsizeReg {
    U1,
    U2,
    U3,
    U4,
    U5,
    U6,
    U7,
    U8,
}

/// Names of the eight floating-point registers.
#[derive(Debug, Clone, Copy, PartialEq, Eq, Hash, Structural)]
pub enum F64Reg {
    F1,
    F2,
    F3,
    F4,
    F5,
    F6,
    F7,
    F8,
}

/// CPU status flags. `Overflow` is set or cleared by every word-bank
/// arithmetic instruction; `Interrupt` is implementation-defined state
/// that no instruction of this catalogue touches.
#[derive(Debug, Clone, Copy, PartialEq, Eq, Hash, Structural)]
pub enum Flags {
    Overflow,
    Interrupt,
}

impl UsizeReg {
    /// Position of this register inside the word bank.
    pub open spec fn idx_spec(self) -> int {
        match self {
            UsizeReg::U1 => 0,
            UsizeReg::U2 => 1,
            UsizeReg::U3 => 2,
            UsizeReg::U4 => 3,
            UsizeReg::U5 => 4,
            UsizeReg::U6 => 5,
            UsizeReg::U7 => 6,
            UsizeReg::U8 => 7,
        }
    }

    /// Position of this register inside the word bank.
    pub fn idx(self) -> (i: usize)
        ensures
            i < 8,
            i as int == self.idx_spec(),
    {
        match self {
            UsizeReg::U1 => 0,
            UsizeReg::U2 => 1,
            UsizeReg::U3 => 2,
            UsizeReg::U4 => 3,
            UsizeReg::U5 => 4,
            UsizeReg::U6 => 5,
            UsizeReg::U7 => 6,
            UsizeReg::U8 => 7,
        }
    }
}

impl F64Reg {
    /// Position of this register inside the float bank.
    pub open spec fn idx_spec(self) -> int {
        match self {
            F64Reg::F1 => 0,
            F64Reg::F2 => 1,
            F64Reg::F3 => 2,
            F64Reg::F4 => 3,
            F64Reg::F5 => 4,
            F64Reg::F6 => 5,
            F64Reg::F7 => 6,
            F64Reg::F8 => 7,
        }
    }

    /// Position of this register inside the float bank.
    pub fn idx(self) -> (i: usize)
        ensures
            i < 8,
            i as int == self.idx_spec(),
    {
        match self {
            F64Reg::F1 => 0,
            F64Reg::F2 => 1,
            F64Reg::F3 => 2,
            F64Reg::F4 => 3,
            F64Reg::F5 => 4,
            F64Reg::F6 => 5,
            F64Reg::F7 => 6,
            F64Reg::F8 => 7,
        }
    }
}

} // verus!
