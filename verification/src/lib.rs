//! A small register-based virtual machine core: the instruction catalogue,
//! the dual register-bank model, the three-segment memory contract
//! (code/stack/heap), the fault taxonomy, and a binary program codec with a
//! proved round-trip law.
//!
//! The float bank stores IEEE-754 double-precision values by their bit
//! patterns, since verified code here does not compute with floating point;
//! binary float arithmetic is supplied by the driving loop through the
//! [`cpu::FloatOps`] capability, and every other instruction is executed by
//! verified code under an exact contract.

use vstd::prelude::*;

pub mod cpu;
pub mod err;
pub mod mem;
pub mod reg;
pub mod serde;

use reg::{F64Reg, F64RegType, UsizeReg, UsizeRegType};

verus! {

/// The closed instruction catalogue.
///
/// Operand order is always destination first, then sources. The suffixes
/// `U` and `D` name the general-purpose (word) and floating-point banks;
/// a further `I` suffix marks an immediate-operand variant. For example,
/// `MovU(UsizeReg::U1, UsizeReg::U2)` copies `U2` into `U1`, and
/// `AddU(UsizeReg::U1, UsizeReg::U2, UsizeReg::U3)` writes the sum of `U2`
/// and `U3` into `U1`.
///
/// `Shl` and `Shr` shift the destination register in place, by the amount
/// held in the source register; amounts at or beyond the word width leave
/// zero. For `Load`, `Store`, `In` and `Out` the first operand is the data
/// register and the second the address register. For `Jmp` and `Call` the
/// first operand is the register holding the target code address, with any
/// condition registers after it; jump targets are never immediates. `Push`
/// and `Pop` take one register; `Ret` and `Halt` take none. `SysCall`
/// takes the register holding the host-function index.
#[derive(Debug, Clone, Copy, PartialEq, Eq, Structural)]
pub enum Inst {
    Nop,
    MU(UsizeReg, UsizeRegType),
    MD(F64Reg, F64RegType),
    MovU(UsizeReg, UsizeReg),
    MovD(F64Reg, F64Reg),
    Mod(UsizeReg, UsizeReg, UsizeReg),
    AddU(UsizeReg, UsizeReg, UsizeReg),
    AddUI(UsizeReg, UsizeRegType),
    AddD(F64Reg, F64Reg, F64Reg),
    AddDI(F64Reg, F64RegType),
    SubU(UsizeReg, UsizeReg, UsizeReg),
    SubUI(UsizeReg, UsizeRegType),
    SubD(F64Reg, F64Reg, F64Reg),
    SubDI(F64Reg, F64RegType),
    MulU(UsizeReg, UsizeReg, UsizeReg),
    MulD(F64Reg, F64Reg, F64Reg),
    DivU(UsizeReg, UsizeReg, UsizeReg),
    DivD(F64Reg, F64Reg, F64Reg),
    And(UsizeReg, UsizeReg, UsizeReg),
    Or(UsizeReg, UsizeReg, UsizeReg),
    Xor(UsizeReg, UsizeReg, UsizeReg),
    Not(UsizeReg, UsizeReg),
    NegU(UsizeReg, UsizeReg),
    NegD(F64Reg, F64Reg),
    Shl(UsizeReg, UsizeReg),
    Shr(UsizeReg, UsizeReg),
    LoadUH(UsizeReg, UsizeReg),
    LoadDH(F64Reg, UsizeReg),
    LoadUS(UsizeReg, UsizeReg),
    LoadDS(F64Reg, UsizeReg),
    StoreUH(UsizeReg, UsizeReg),
    StoreDH(F64Reg, UsizeReg),
    StoreUS(UsizeReg, UsizeReg),
    StoreDS(F64Reg, UsizeReg),
    Jo(UsizeReg),
    Jno(UsizeReg),
    Je(UsizeReg, UsizeReg, UsizeReg),
    Jne(UsizeReg, UsizeReg, UsizeReg),
    Jz(UsizeReg, UsizeReg),
    Jnz(UsizeReg, UsizeReg),
    Jmp(UsizeReg),
    PushU(UsizeReg),
    PushD(F64Reg),
    PopU(UsizeReg),
    PopD(F64Reg),
    Call(UsizeReg),
    SysCall(UsizeReg),
    InU(UsizeReg, UsizeReg),
    InD(F64Reg, UsizeReg),
    OutU(UsizeReg, UsizeReg),
    OutD(F64Reg, UsizeReg),
    Ret,
    Halt,
}

/// A tagged value as it sits in a stack slot or heap cell. The tag never
/// changes implicitly: every reader states the tag it expects and faults
/// on disagreement, so a float cell is never reinterpreted as a word.
#[derive(Debug, Clone, Copy, PartialEq, Eq, Structural)]
pub enum RegType {
    /// An unsigned machine word.
    Usize(UsizeRegType),
    /// The bit pattern of an IEEE-754 double.
    F64(F64RegType),
}

/// Capability of a driving loop that can run a whole program.
///
/// Implementations live outside this core; the core only fixes the shape:
/// a run takes an instruction sequence and ends cleanly or with an
/// implementation-chosen fault type.
pub trait VmRunner {
    type VmErr;

    fn run(&mut self, code: &[Inst]) -> Result<(), Self::VmErr>;
}

} // verus!
