//! The execution contract: a register file that executes one instruction
//! at a time against any [`Memory`] backend.
//!
//! [`Cpu::execute_one`] is a single atomic transition; its contract is the
//! transition relation [`exec_rel`], which fixes the exact effect of every
//! instruction on registers, flags, program counter, base pointer, stack
//! and heap. [`Cpu::step`] adds the fetch-and-advance discipline: fetch at
//! `pc` (a miss is the fetch fault), advance `pc` by one, then execute, so
//! control-flow instructions that repoint `pc` win over the advance.
//!
//! Verified code does not compute with floating point, so the float bank
//! holds IEEE-754 bit patterns and the four binary float operations are
//! supplied by the driving loop through the [`FloatOps`] capability; the
//! relation pins everything about such an instruction except the returned
//! bit pattern. Float negation is exact: it flips the sign bit. Halting is
//! a fault variant (`ISAErr::Halt`), a clean stop that callers must not
//! report as a crash.

use vstd::prelude::*;

use crate::err::{CpuErr, ISAErr};
use crate::mem::{spec_heap_read_f, spec_heap_read_u, spec_stack_read, Memory};
use crate::reg::{F64Reg, Flags, UsizeReg};
use crate::{Inst, RegType};

verus! {

/// Capability supplying IEEE-754 double-precision arithmetic on bit
/// patterns. Implementations live with the driving loop; nothing is
/// assumed about the returned bits, so every contract here holds for
/// arbitrary implementations.
pub trait FloatOps {
    /// Bits of the sum of the doubles the operand bits denote.
    fn add(&self, a: u64, b: u64) -> u64;

    /// Bits of the difference of the doubles the operand bits denote.
    fn sub(&self, a: u64, b: u64) -> u64;

    /// Bits of the product of the doubles the operand bits denote.
    fn mul(&self, a: u64, b: u64) -> u64;

    /// Bits of the quotient of the doubles the operand bits denote.
    fn div(&self, a: u64, b: u64) -> u64;
}

/// Sign bit of an IEEE-754 double: float negation flips exactly this bit.
pub open spec fn f64_sign_mask() -> u64 {
    0x8000_0000_0000_0000u64
}

/// The whole observable state of one machine: register banks, program
/// counter, base pointer, flags, and the stack and heap segments.
pub ghost struct VmState {
    pub u: Seq<usize>,
    pub f: Seq<u64>,
    pub pc: usize,
    pub bp: usize,
    pub overflow: bool,
    pub interrupt: bool,
    pub stack: Seq<RegType>,
    pub heap: Map<usize, RegType>,
}

impl VmState {
    /// Both banks have exactly eight registers.
    pub open spec fn wf(self) -> bool {
        self.u.len() == 8 && self.f.len() == 8
    }

    /// Value of a word register.
    pub open spec fn ur(self, r: UsizeReg) -> usize {
        self.u[r.idx_spec()]
    }

    /// Bit pattern held by a float register.
    pub open spec fn fr(self, r: F64Reg) -> u64 {
        self.f[r.idx_spec()]
    }

    /// This state with one word register replaced.
    pub open spec fn with_u(self, d: UsizeReg, v: usize) -> VmState {
        VmState { u: self.u.update(d.idx_spec(), v), ..self }
    }

    /// This state with one float register replaced.
    pub open spec fn with_f(self, d: F64Reg, v: u64) -> VmState {
        VmState { f: self.f.update(d.idx_spec(), v), ..self }
    }

    /// This state with the overflow flag replaced.
    pub open spec fn with_of(self, o: bool) -> VmState {
        VmState { overflow: o, ..self }
    }

    /// This state with the program counter repointed.
    pub open spec fn with_pc(self, pc: usize) -> VmState {
        VmState { pc: pc, ..self }
    }

    /// This state with the stack segment replaced.
    pub open spec fn with_stack(self, s: Seq<RegType>) -> VmState {
        VmState { stack: s, ..self }
    }

    /// This state with the heap segment replaced.
    pub open spec fn with_heap(self, h: Map<usize, RegType>) -> VmState {
        VmState { heap: h, ..self }
    }

    /// Everything the CPU owns, and the stack, agree with `other`; the
    /// heap is left free (device reads and writes may repoint it).
    pub open spec fn same_but_heap(self, other: VmState) -> bool {
        self.u == other.u && self.f == other.f && self.pc == other.pc && self.bp == other.bp
            && self.overflow == other.overflow && self.interrupt == other.interrupt && self.stack
            == other.stack
    }
}

/// The machine state a CPU and a memory make up together.
pub open spec fn vm_state<M: Memory>(cpu: Cpu, mem: M) -> VmState {
    VmState {
        u: cpu.u@,
        f: cpu.f@,
        pc: cpu.pc,
        bp: cpu.bp,
        overflow: cpu.overflow,
        interrupt: cpu.interrupt,
        stack: mem.stack_view(),
        heap: mem.heap_view(),
    }
}

/// Word addition reduced modulo the word width.
pub open spec fn wrap_add(a: usize, b: usize) -> usize {
    if a + b > usize::MAX {
        (a + b - usize::MAX - 1) as usize
    } else {
        (a + b) as usize
    }
}

/// Word subtraction reduced modulo the word width.
pub open spec fn wrap_sub(a: usize, b: usize) -> usize {
    if a >= b {
        (a - b) as usize
    } else {
        (a - b + usize::MAX + 1) as usize
    }
}

/// Word multiplication reduced modulo the word width.
pub open spec fn wrap_mul(a: usize, b: usize) -> usize {
    ((a as int * b as int) % (usize::MAX as int + 1)) as usize
}

/// Left shift; amounts at or beyond the word width shift everything out.
pub open spec fn shl_val(x: usize, n: usize) -> usize {
    if n < usize::BITS {
        x << n
    } else {
        0
    }
}

/// Right shift; amounts at or beyond the word width shift everything out.
pub open spec fn shr_val(x: usize, n: usize) -> usize {
    if n < usize::BITS {
        x >> n
    } else {
        0
    }
}

/// The transition relation of one instruction: given the machine state
/// before, it fixes the state after and the result returned. Word-bank
/// arithmetic defines the overflow flag; bitwise, unary and every other
/// instruction leaves the flags alone. On a fault the state is unchanged
/// — except that a device transfer may have repointed the heap before its
/// fault surfaced. Only the bits a [`FloatOps`] returns, and the meaning
/// a backend gives device addresses, are left open.
pub open spec fn exec_rel(pre: VmState, i: Inst, post: VmState, r: Result<(), ISAErr>) -> bool {
    match i {
        Inst::Nop => post == pre && r == Ok::<(), ISAErr>(()),
        Inst::Halt => post == pre && r == Err::<(), ISAErr>(ISAErr::Halt),
        Inst::SysCall(_) => post == pre && r == Err::<(), ISAErr>(ISAErr::InvalidSysCall),
        Inst::MU(d, w) => post == pre.with_u(d, w) && r == Ok::<(), ISAErr>(()),
        Inst::MD(d, v) => post == pre.with_f(d, v) && r == Ok::<(), ISAErr>(()),
        Inst::MovU(d, s) => post == pre.with_u(d, pre.ur(s)) && r == Ok::<(), ISAErr>(()),
        Inst::MovD(d, s) => post == pre.with_f(d, pre.fr(s)) && r == Ok::<(), ISAErr>(()),
        Inst::AddU(d, a, b) => post == pre.with_u(d, wrap_add(pre.ur(a), pre.ur(b))).with_of(
            pre.ur(a) + pre.ur(b) > usize::MAX,
        ) && r == Ok::<(), ISAErr>(()),
        Inst::AddUI(d, w) => post == pre.with_u(d, wrap_add(pre.ur(d), w)).with_of(
            pre.ur(d) + w > usize::MAX,
        ) && r == Ok::<(), ISAErr>(()),
        Inst::SubU(d, a, b) => post == pre.with_u(d, wrap_sub(pre.ur(a), pre.ur(b))).with_of(
            pre.ur(a) < pre.ur(b),
        ) && r == Ok::<(), ISAErr>(()),
        Inst::SubUI(d, w) => post == pre.with_u(d, wrap_sub(pre.ur(d), w)).with_of(pre.ur(d) < w)
            && r == Ok::<(), ISAErr>(()),
        Inst::MulU(d, a, b) => post == pre.with_u(d, wrap_mul(pre.ur(a), pre.ur(b))).with_of(
            pre.ur(a) * pre.ur(b) > usize::MAX,
        ) && r == Ok::<(), ISAErr>(()),
        Inst::DivU(d, a, b) => if pre.ur(b) == 0 {
            post == pre && r == Err::<(), ISAErr>(ISAErr::DivByZero)
        } else {
            post == pre.with_u(d, pre.ur(a) / pre.ur(b)).with_of(false) && r == Ok::<(), ISAErr>(
                (),
            )
        },
        Inst::Mod(d, a, b) => if pre.ur(b) == 0 {
            post == pre && r == Err::<(), ISAErr>(ISAErr::DivByZero)
        } else {
            post == pre.with_u(d, pre.ur(a) % pre.ur(b)).with_of(false) && r == Ok::<(), ISAErr>(
                (),
            )
        },
        Inst::And(d, a, b) => post == pre.with_u(d, pre.ur(a) & pre.ur(b)) && r == Ok::<(), ISAErr>(
            (),
        ),
        Inst::Or(d, a, b) => post == pre.with_u(d, pre.ur(a) | pre.ur(b)) && r == Ok::<(), ISAErr>(
            (),
        ),
        Inst::Xor(d, a, b) => post == pre.with_u(d, pre.ur(a) ^ pre.ur(b)) && r == Ok::<(), ISAErr>(
            (),
        ),
        Inst::Not(d, s) => post == pre.with_u(d, !pre.ur(s)) && r == Ok::<(), ISAErr>(()),
        Inst::NegU(d, s) => post == pre.with_u(d, wrap_sub(0, pre.ur(s))) && r == Ok::<(), ISAErr>(
            (),
        ),
        Inst::NegD(d, s) => post == pre.with_f(d, pre.fr(s) ^ f64_sign_mask()) && r == Ok::<
            (),
            ISAErr,
        >(()),
        Inst::Shl(d, s) => post == pre.with_u(d, shl_val(pre.ur(d), pre.ur(s))) && r == Ok::<
            (),
            ISAErr,
        >(()),
        Inst::Shr(d, s) => post == pre.with_u(d, shr_val(pre.ur(d), pre.ur(s))) && r == Ok::<
            (),
            ISAErr,
        >(()),
        Inst::AddD(d, a, b) => post == pre.with_f(d, post.fr(d)) && r == Ok::<(), ISAErr>(()),
        Inst::SubD(d, a, b) => post == pre.with_f(d, post.fr(d)) && r == Ok::<(), ISAErr>(()),
        Inst::MulD(d, a, b) => post == pre.with_f(d, post.fr(d)) && r == Ok::<(), ISAErr>(()),
        Inst::DivD(d, a, b) => post == pre.with_f(d, post.fr(d)) && r == Ok::<(), ISAErr>(()),
        Inst::AddDI(d, _) => post == pre.with_f(d, post.fr(d)) && r == Ok::<(), ISAErr>(()),
        Inst::SubDI(d, _) => post == pre.with_f(d, post.fr(d)) && r == Ok::<(), ISAErr>(()),
        Inst::LoadUH(d, a) => (match spec_heap_read_u(pre.heap, pre.ur(a)) {
            Ok(w) => post == pre.with_u(d, w) && r == Ok::<(), ISAErr>(()),
            Err(e) => post == pre && r == Err::<(), ISAErr>(e),
        }),
        Inst::LoadDH(d, a) => (match spec_heap_read_f(pre.heap, pre.ur(a)) {
            Ok(v) => post == pre.with_f(d, v) && r == Ok::<(), ISAErr>(()),
            Err(e) => post == pre && r == Err::<(), ISAErr>(e),
        }),
        Inst::StoreUH(s, a) => post == pre.with_heap(
            pre.heap.insert(pre.ur(a), RegType::Usize(pre.ur(s))),
        ) && r == Ok::<(), ISAErr>(()),
        Inst::StoreDH(s, a) => post == pre.with_heap(
            pre.heap.insert(pre.ur(a), RegType::F64(pre.fr(s))),
        ) && r == Ok::<(), ISAErr>(()),
        Inst::LoadUS(d, a) => (match spec_stack_read(pre.stack, pre.bp, pre.ur(a)) {
            Ok(RegType::Usize(w)) => post == pre.with_u(d, w) && r == Ok::<(), ISAErr>(()),
            Ok(RegType::F64(_)) => post == pre && r == Err::<(), ISAErr>(ISAErr::TypeMismatch),
            Err(e) => post == pre && r == Err::<(), ISAErr>(e),
        }),
        Inst::LoadDS(d, a) => (match spec_stack_read(pre.stack, pre.bp, pre.ur(a)) {
            Ok(RegType::F64(v)) => post == pre.with_f(d, v) && r == Ok::<(), ISAErr>(()),
            Ok(RegType::Usize(_)) => post == pre && r == Err::<(), ISAErr>(ISAErr::TypeMismatch),
            Err(e) => post == pre && r == Err::<(), ISAErr>(e),
        }),
        Inst::StoreUS(s, a) => if pre.bp + pre.ur(a) < pre.stack.len() {
            post == pre.with_stack(
                pre.stack.update(pre.bp + pre.ur(a), RegType::Usize(pre.ur(s))),
            ) && r == Ok::<(), ISAErr>(())
        } else {
            post == pre && r == Err::<(), ISAErr>(ISAErr::InvalidStackAddr)
        },
        Inst::StoreDS(s, a) => if pre.bp + pre.ur(a) < pre.stack.len() {
            post == pre.with_stack(pre.stack.update(pre.bp + pre.ur(a), RegType::F64(pre.fr(s))))
                && r == Ok::<(), ISAErr>(())
        } else {
            post == pre && r == Err::<(), ISAErr>(ISAErr::InvalidStackAddr)
        },
        Inst::Jo(t) => post == (if pre.overflow {
            pre.with_pc(pre.ur(t))
        } else {
            pre
        }) && r == Ok::<(), ISAErr>(()),
        Inst::Jno(t) => post == (if !pre.overflow {
            pre.with_pc(pre.ur(t))
        } else {
            pre
        }) && r == Ok::<(), ISAErr>(()),
        Inst::Je(t, a, b) => post == (if pre.ur(a) == pre.ur(b) {
            pre.with_pc(pre.ur(t))
        } else {
            pre
        }) && r == Ok::<(), ISAErr>(()),
        Inst::Jne(t, a, b) => post == (if pre.ur(a) != pre.ur(b) {
            pre.with_pc(pre.ur(t))
        } else {
            pre
        }) && r == Ok::<(), ISAErr>(()),
        Inst::Jz(t, a) => post == (if pre.ur(a) == 0 {
            pre.with_pc(pre.ur(t))
        } else {
            pre
        }) && r == Ok::<(), ISAErr>(()),
        Inst::Jnz(t, a) => post == (if pre.ur(a) != 0 {
            pre.with_pc(pre.ur(t))
        } else {
            pre
        }) && r == Ok::<(), ISAErr>(()),
        Inst::Jmp(t) => post == pre.with_pc(pre.ur(t)) && r == Ok::<(), ISAErr>(()),
        Inst::PushU(s) => post == pre.with_stack(pre.stack.push(RegType::Usize(pre.ur(s)))) && r
            == Ok::<(), ISAErr>(()),
        Inst::PushD(s) => post == pre.with_stack(pre.stack.push(RegType::F64(pre.fr(s)))) && r
            == Ok::<(), ISAErr>(()),
        Inst::PopU(d) => if pre.stack.len() == 0 {
            post == pre && r == Err::<(), ISAErr>(ISAErr::StackUnderflow)
        } else {
            (match pre.stack.last() {
                RegType::Usize(w) => post == pre.with_stack(pre.stack.drop_last()).with_u(d, w)
                    && r == Ok::<(), ISAErr>(()),
                RegType::F64(_) => post == pre && r == Err::<(), ISAErr>(ISAErr::TypeMismatch),
            })
        },
        Inst::PopD(d) => if pre.stack.len() == 0 {
            post == pre && r == Err::<(), ISAErr>(ISAErr::StackUnderflow)
        } else {
            (match pre.stack.last() {
                RegType::F64(v) => post == pre.with_stack(pre.stack.drop_last()).with_f(d, v) && r
                    == Ok::<(), ISAErr>(()),
                RegType::Usize(_) => post == pre && r == Err::<(), ISAErr>(ISAErr::TypeMismatch),
            })
        },
        Inst::Call(t) => post == pre.with_stack(pre.stack.push(RegType::Usize(pre.pc))).with_pc(
            pre.ur(t),
        ) && r == Ok::<(), ISAErr>(()),
        Inst::Ret => if pre.stack.len() == 0 {
            post == pre && r == Err::<(), ISAErr>(ISAErr::StackUnderflow)
        } else {
            (match pre.stack.last() {
                RegType::Usize(a) => post == pre.with_stack(pre.stack.drop_last()).with_pc(a) && r
                    == Ok::<(), ISAErr>(()),
                RegType::F64(_) => post == pre && r == Err::<(), ISAErr>(ISAErr::TypeMismatch),
            })
        },
        Inst::InU(d, a) => (match r {
            Ok(_) => post.same_but_heap(
                VmState { u: pre.u.update(d.idx_spec(), post.ur(d)), ..pre },
            ),
            Err(_) => post.same_but_heap(pre),
        }),
        Inst::InD(d, a) => (match r {
            Ok(_) => post.same_but_heap(
                VmState { f: pre.f.update(d.idx_spec(), post.fr(d)), ..pre },
            ),
            Err(_) => post.same_but_heap(pre),
        }),
        Inst::OutU(s, a) => post.same_but_heap(pre),
        Inst::OutD(s, a) => post.same_but_heap(pre),
    }
}

/// The register file and CPU-owned state: two banks of eight registers,
/// program counter, base pointer, and the status flags.
pub struct Cpu {
    /// The word bank; always eight registers.
    pub u: Vec<usize>,
    /// The float bank, as IEEE-754 bit patterns; always eight registers.
    pub f: Vec<u64>,
    /// Code address of the next instruction to fetch.
    pub pc: usize,
    /// Base pointer: start of the current frame's addressing window.
    pub bp: usize,
    /// The overflow flag, defined by word-bank arithmetic.
    pub overflow: bool,
    /// The interrupt flag; no instruction of the catalogue touches it.
    pub interrupt: bool,
}

/// Executable mirror of [`wrap_add`], with the overflow verdict.
fn wadd(a: usize, b: usize) -> (r: (usize, bool))
    ensures
        r.0 == wrap_add(a, b),
        r.1 == (a + b > usize::MAX),
{
    if b <= usize::MAX - a {
        (a + b, false)
    } else {
        ((a - (usize::MAX - b)) - 1, true)
    }
}

/// Executable mirror of [`wrap_sub`], with the overflow verdict.
fn wsub(a: usize, b: usize) -> (r: (usize, bool))
    ensures
        r.0 == wrap_sub(a, b),
        r.1 == (a < b),
{
    if a >= b {
        (a - b, false)
    } else {
        (((usize::MAX - b) + a) + 1, true)
    }
}

/// Executable mirror of [`wrap_mul`], with the overflow verdict.
fn wmul(a: usize, b: usize) -> (r: (usize, bool))
    ensures
        r.0 == wrap_mul(a, b),
        r.1 == (a * b > usize::MAX),
{
    match a.checked_mul(b) {
        Some(p) => {
            proof {
                assert(wrap_mul(a, b) == a * b) by {
                    vstd::arithmetic::div_mod::lemma_small_mod(
                        (a * b) as nat,
                        (usize::MAX as nat) + 1,
                    );
                }
            }
            (p, false)
        },
        None => {
            let p = a.wrapping_mul(b);
            proof {
                assert(p == wrap_mul(a, b)) by {
                    assert((a as nat * b as nat) % ((usize::MAX - usize::MIN + 1) as nat) == (
                    a as int * b as int) % (usize::MAX as int + 1));
                }
            }
            (p, true)
        },
    }
}

impl Cpu {
    /// Both banks hold exactly eight registers.
    pub open spec fn wf(self) -> bool {
        self.u@.len() == 8 && self.f@.len() == 8
    }

    /// A register file with every register zero, `pc` and `bp` at zero,
    /// and both flags clear.
    pub fn new() -> (r: Cpu)
        ensures
            r.wf(),
            r.u@ == seq![0usize, 0usize, 0usize, 0usize, 0usize, 0usize, 0usize, 0usize],
            r.f@ == seq![0u64, 0u64, 0u64, 0u64, 0u64, 0u64, 0u64, 0u64],
            r.pc == 0,
            r.bp == 0,
            !r.overflow,
            !r.interrupt,
    {
        let mut u: Vec<usize> = Vec::new();
        let mut f: Vec<u64> = Vec::new();
        let mut k: usize = 0;
        while k < 8
            invariant
                k <= 8,
                u@.len() == k,
                f@.len() == k,
                forall|j: int| 0 <= j < k ==> u@[j] == 0usize,
                forall|j: int| 0 <= j < k ==> f@[j] == 0u64,
            decreases 8 - k,
        {
            u.push(0);
            f.push(0);
            k = k + 1;
        }
        proof {
            assert(u@ =~= seq![0usize, 0usize, 0usize, 0usize, 0usize, 0usize, 0usize, 0usize]);
            assert(f@ =~= seq![0u64, 0u64, 0u64, 0u64, 0u64, 0u64, 0u64, 0u64]);
        }
        Cpu { u, f, pc: 0, bp: 0, overflow: false, interrupt: false }
    }

    /// Reads a word register.
    pub fn get_u(&self, r: UsizeReg) -> (v: usize)
        requires
            self.wf(),
        ensures
            v == self.u@[r.idx_spec()],
    {
        let i = r.idx();
        self.u[i]
    }

    /// Writes a word register.
    pub fn set_u(&mut self, r: UsizeReg, v: usize)
        requires
            old(self).wf(),
        ensures
            final(self).wf(),
            final(self).u@ == old(self).u@.update(r.idx_spec(), v),
            final(self).f == old(self).f,
            final(self).pc == old(self).pc,
            final(self).bp == old(self).bp,
            final(self).overflow == old(self).overflow,
            final(self).interrupt == old(self).interrupt,
    {
        let i = r.idx();
        self.u.set(i, v);
    }

    /// Reads a float register's bit pattern.
    pub fn get_f(&self, r: F64Reg) -> (v: u64)
        requires
            self.wf(),
        ensures
            v == self.f@[r.idx_spec()],
    {
        let i = r.idx();
        self.f[i]
    }

    /// Writes a float register's bit pattern.
    pub fn set_f(&mut self, r: F64Reg, v: u64)
        requires
            old(self).wf(),
        ensures
            final(self).wf(),
            final(self).f@ == old(self).f@.update(r.idx_spec(), v),
            final(self).u == old(self).u,
            final(self).pc == old(self).pc,
            final(self).bp == old(self).bp,
            final(self).overflow == old(self).overflow,
            final(self).interrupt == old(self).interrupt,
    {
        let i = r.idx();
        self.f.set(i, v);
    }

    /// Reads the program counter.
    pub fn get_pc(&self) -> (v: usize)
        ensures
            v == self.pc,
    {
        self.pc
    }

    /// Repoints the program counter.
    pub fn set_pc(&mut self, v: usize)
        ensures
            *final(self) == (Cpu { pc: v, ..*old(self) }),
    {
        self.pc = v;
    }

    /// Reads the base pointer.
    pub fn get_bp(&self) -> (v: usize)
        ensures
            v == self.bp,
    {
        self.bp
    }

    /// Moves the base pointer.
    pub fn set_bp(&mut self, v: usize)
        ensures
            *final(self) == (Cpu { bp: v, ..*old(self) }),
    {
        self.bp = v;
    }

    /// Reads one status flag.
    pub fn get_flag(&self, f: Flags) -> (v: bool)
        ensures
            v == (match f {
                Flags::Overflow => self.overflow,
                Flags::Interrupt => self.interrupt,
            }),
    {
        match f {
            Flags::Overflow => self.overflow,
            Flags::Interrupt => self.interrupt,
        }
    }

    /// Writes one status flag.
    pub fn set_flag(&mut self, f: Flags, v: bool)
        ensures
            *final(self) == (match f {
                Flags::Overflow => Cpu { overflow: v, ..*old(self) },
                Flags::Interrupt => Cpu { interrupt: v, ..*old(self) },
            }),
    {
        match f {
            Flags::Overflow => self.overflow = v,
            Flags::Interrupt => self.interrupt = v,
        }
    }
}

impl Cpu {
    /// Executes one word-bank register instruction.
    #[verifier::rlimit(100)]
    fn exec_word<M: Memory>(&mut self, i: Inst, mem: &mut M) -> (r: Result<(), ISAErr>)
        requires
            old(self).wf(),
            i is MU || i is MovU || i is Mod || i is AddU || i is AddUI || i is SubU
                || i is SubUI || i is MulU || i is DivU || i is And || i is Or || i is Xor
                || i is Not || i is NegU || i is Shl || i is Shr,
        ensures
            final(self).wf(),
            final(mem).code_view() == old(mem).code_view(),
            exec_rel(vm_state(*old(self), *old(mem)), i, vm_state(*final(self), *final(mem)), r),
    {
        match i {
            Inst::MU(d, w) => {
                self.set_u(d, w);
                Ok(())
            },
            Inst::MovU(d, s) => {
                let v = self.get_u(s);
                self.set_u(d, v);
                Ok(())
            },
            Inst::Mod(d, a, b) => {
                let va = self.get_u(a);
                let vb = self.get_u(b);
                if vb == 0 {
                    Err(ISAErr::DivByZero)
                } else {
                    self.set_u(d, va % vb);
                    self.overflow = false;
                    Ok(())
                }
            },
            Inst::AddU(d, a, b) => {
                let (v, o) = wadd(self.get_u(a), self.get_u(b));
                self.set_u(d, v);
                self.overflow = o;
                Ok(())
            },
            Inst::AddUI(d, w) => {
                let (v, o) = wadd(self.get_u(d), w);
                self.set_u(d, v);
                self.overflow = o;
                Ok(())
            },
            Inst::SubU(d, a, b) => {
                let (v, o) = wsub(self.get_u(a), self.get_u(b));
                self.set_u(d, v);
                self.overflow = o;
                Ok(())
            },
            Inst::SubUI(d, w) => {
                let (v, o) = wsub(self.get_u(d), w);
                self.set_u(d, v);
                self.overflow = o;
                Ok(())
            },
            Inst::MulU(d, a, b) => {
                let (v, o) = wmul(self.get_u(a), self.get_u(b));
                self.set_u(d, v);
                self.overflow = o;
                Ok(())
            },
            Inst::DivU(d, a, b) => {
                let va = self.get_u(a);
                let vb = self.get_u(b);
                if vb == 0 {
                    Err(ISAErr::DivByZero)
                } else {
                    self.set_u(d, va / vb);
                    self.overflow = false;
                    Ok(())
                }
            },
            Inst::And(d, a, b) => {
                let v = self.get_u(a) & self.get_u(b);
                self.set_u(d, v);
                Ok(())
            },
            Inst::Or(d, a, b) => {
                let v = self.get_u(a) | self.get_u(b);
                self.set_u(d, v);
                Ok(())
            },
            Inst::Xor(d, a, b) => {
                let v = self.get_u(a) ^ self.get_u(b);
                self.set_u(d, v);
                Ok(())
            },
            Inst::Not(d, s) => {
                let v = !self.get_u(s);
                self.set_u(d, v);
                Ok(())
            },
            Inst::NegU(d, s) => {
                let (v, _) = wsub(0, self.get_u(s));
                self.set_u(d, v);
                Ok(())
            },
            Inst::Shl(d, s) => {
                let x = self.get_u(d);
                let n = self.get_u(s);
                let v = if n < usize::BITS as usize {
                    x << n
                } else {
                    0
                };
                self.set_u(d, v);
                Ok(())
            },
            Inst::Shr(d, s) => {
                let x = self.get_u(d);
                let n = self.get_u(s);
                let v = if n < usize::BITS as usize {
                    x >> n
                } else {
                    0
                };
                self.set_u(d, v);
                Ok(())
            },
            _ => Ok(()),
        }
    }

    /// Executes one float-bank instruction; the binary operations take
    /// their result bits from the supplied [`FloatOps`].
    #[verifier::rlimit(100)]
    fn exec_float<M: Memory, F: FloatOps>(&mut self, i: Inst, mem: &mut M, fp: &F) -> (r: Result<
        (),
        ISAErr,
    >)
        requires
            old(self).wf(),
            i is MD || i is MovD || i is NegD || i is AddD || i is AddDI || i is SubD
                || i is SubDI || i is MulD || i is DivD,
        ensures
            final(self).wf(),
            final(mem).code_view() == old(mem).code_view(),
            exec_rel(vm_state(*old(self), *old(mem)), i, vm_state(*final(self), *final(mem)), r),
    {
        match i {
            Inst::MD(d, v) => {
                self.set_f(d, v);
                Ok(())
            },
            Inst::MovD(d, s) => {
                let v = self.get_f(s);
                self.set_f(d, v);
                Ok(())
            },
            Inst::NegD(d, s) => {
                let v = self.get_f(s) ^ 0x8000_0000_0000_0000u64;
                self.set_f(d, v);
                Ok(())
            },
            Inst::AddD(d, a, b) => {
                let v = fp.add(self.get_f(a), self.get_f(b));
                self.set_f(d, v);
                Ok(())
            },
            Inst::SubD(d, a, b) => {
                let v = fp.sub(self.get_f(a), self.get_f(b));
                self.set_f(d, v);
                Ok(())
            },
            Inst::MulD(d, a, b) => {
                let v = fp.mul(self.get_f(a), self.get_f(b));
                self.set_f(d, v);
                Ok(())
            },
            Inst::DivD(d, a, b) => {
                let v = fp.div(self.get_f(a), self.get_f(b));
                self.set_f(d, v);
                Ok(())
            },
            Inst::AddDI(d, w) => {
                let v = fp.add(self.get_f(d), w);
                self.set_f(d, v);
                Ok(())
            },
            Inst::SubDI(d, w) => {
                let v = fp.sub(self.get_f(d), w);
                self.set_f(d, v);
                Ok(())
            },
            _ => Ok(()),
        }
    }

    /// Executes one heap, stack or device-transfer instruction.
    #[verifier::rlimit(100)]
    fn exec_memio<M: Memory>(&mut self, i: Inst, mem: &mut M) -> (r: Result<(), ISAErr>)
        requires
            old(self).wf(),
            i is LoadUH || i is LoadDH || i is LoadUS || i is LoadDS || i is StoreUH
                || i is StoreDH || i is StoreUS || i is StoreDS || i is PushU || i is PushD
                || i is PopU || i is PopD || i is InU || i is InD || i is OutU || i is OutD,
        ensures
            final(self).wf(),
            final(mem).code_view() == old(mem).code_view(),
            exec_rel(vm_state(*old(self), *old(mem)), i, vm_state(*final(self), *final(mem)), r),
    {
        match i {
            Inst::LoadUH(d, a) => {
                let addr = self.get_u(a);
                match mem.get_heap_u(addr) {
                    Ok(w) => {
                        self.set_u(d, w);
                        Ok(())
                    },
                    Err(e) => Err(e),
                }
            },
            Inst::LoadDH(d, a) => {
                let addr = self.get_u(a);
                match mem.get_heap_f(addr) {
                    Ok(v) => {
                        self.set_f(d, v);
                        Ok(())
                    },
                    Err(e) => Err(e),
                }
            },
            Inst::LoadUS(d, a) => {
                let off = self.get_u(a);
                match mem.get_stack(self.bp, off) {
                    Ok(RegType::Usize(w)) => {
                        self.set_u(d, w);
                        Ok(())
                    },
                    Ok(RegType::F64(_)) => Err(ISAErr::TypeMismatch),
                    Err(e) => Err(e),
                }
            },
            Inst::LoadDS(d, a) => {
                let off = self.get_u(a);
                match mem.get_stack(self.bp, off) {
                    Ok(RegType::F64(v)) => {
                        self.set_f(d, v);
                        Ok(())
                    },
                    Ok(RegType::Usize(_)) => Err(ISAErr::TypeMismatch),
                    Err(e) => Err(e),
                }
            },
            Inst::StoreUH(s, a) => {
                let addr = self.get_u(a);
                let v = self.get_u(s);
                mem.set_heap(addr, RegType::Usize(v));
                Ok(())
            },
            Inst::StoreDH(s, a) => {
                let addr = self.get_u(a);
                let v = self.get_f(s);
                mem.set_heap(addr, RegType::F64(v));
                Ok(())
            },
            Inst::StoreUS(s, a) => {
                let off = self.get_u(a);
                let v = self.get_u(s);
                match mem.set_stack(self.bp, off, RegType::Usize(v)) {
                    Ok(_) => Ok(()),
                    Err(e) => Err(e),
                }
            },
            Inst::StoreDS(s, a) => {
                let off = self.get_u(a);
                let v = self.get_f(s);
                match mem.set_stack(self.bp, off, RegType::F64(v)) {
                    Ok(_) => Ok(()),
                    Err(e) => Err(e),
                }
            },
            Inst::PushU(s) => {
                let v = self.get_u(s);
                mem.push_stack(RegType::Usize(v));
                Ok(())
            },
            Inst::PushD(s) => {
                let v = self.get_f(s);
                mem.push_stack(RegType::F64(v));
                Ok(())
            },
            Inst::PopU(d) => {
                let len = mem.stack_top_addr();
                if len == 0 {
                    Err(ISAErr::StackUnderflow)
                } else {
                    match mem.get_stack(len - 1, 0) {
                        Ok(RegType::Usize(w)) => {
                            let _ = mem.pop_stack();
                            self.set_u(d, w);
                            Ok(())
                        },
                        Ok(RegType::F64(_)) => Err(ISAErr::TypeMismatch),
                        Err(e) => {
                            proof {
                                assert(false);
                            }
                            Err(e)
                        },
                    }
                }
            },
            Inst::PopD(d) => {
                let len = mem.stack_top_addr();
                if len == 0 {
                    Err(ISAErr::StackUnderflow)
                } else {
                    match mem.get_stack(len - 1, 0) {
                        Ok(RegType::F64(v)) => {
                            let _ = mem.pop_stack();
                            self.set_f(d, v);
                            Ok(())
                        },
                        Ok(RegType::Usize(_)) => Err(ISAErr::TypeMismatch),
                        Err(e) => {
                            proof {
                                assert(false);
                            }
                            Err(e)
                        },
                    }
                }
            },
            Inst::InU(d, a) => {
                let addr = self.get_u(a);
                match mem.io_read_u(addr) {
                    Ok(w) => {
                        self.set_u(d, w);
                        Ok(())
                    },
                    Err(e) => Err(e),
                }
            },
            Inst::InD(d, a) => {
                let addr = self.get_u(a);
                match mem.io_read_f(addr) {
                    Ok(v) => {
                        self.set_f(d, v);
                        Ok(())
                    },
                    Err(e) => Err(e),
                }
            },
            Inst::OutU(s, a) => {
                let addr = self.get_u(a);
                let v = self.get_u(s);
                match mem.io_write(addr, RegType::Usize(v)) {
                    Ok(_) => Ok(()),
                    Err(e) => Err(e),
                }
            },
            Inst::OutD(s, a) => {
                let addr = self.get_u(a);
                let v = self.get_f(s);
                match mem.io_write(addr, RegType::F64(v)) {
                    Ok(_) => Ok(()),
                    Err(e) => Err(e),
                }
            },
            _ => Ok(()),
        }
    }

    /// Executes one control-flow instruction. Jump targets come from word
    /// registers, never immediates; `Call` pushes the current `pc` as the
    /// return address and `Ret` pops it back.
    #[verifier::rlimit(100)]
    fn exec_flow<M: Memory>(&mut self, i: Inst, mem: &mut M) -> (r: Result<(), ISAErr>)
        requires
            old(self).wf(),
            i is Jo || i is Jno || i is Je || i is Jne || i is Jz || i is Jnz || i is Jmp
                || i is Call || i is Ret,
        ensures
            final(self).wf(),
            final(mem).code_view() == old(mem).code_view(),
            exec_rel(vm_state(*old(self), *old(mem)), i, vm_state(*final(self), *final(mem)), r),
    {
        match i {
            Inst::Jo(t) => {
                let target = self.get_u(t);
                if self.overflow {
                    self.pc = target;
                }
                Ok(())
            },
            Inst::Jno(t) => {
                let target = self.get_u(t);
                if !self.overflow {
                    self.pc = target;
                }
                Ok(())
            },
            Inst::Je(t, a, b) => {
                let target = self.get_u(t);
                if self.get_u(a) == self.get_u(b) {
                    self.pc = target;
                }
                Ok(())
            },
            Inst::Jne(t, a, b) => {
                let target = self.get_u(t);
                if self.get_u(a) != self.get_u(b) {
                    self.pc = target;
                }
                Ok(())
            },
            Inst::Jz(t, a) => {
                let target = self.get_u(t);
                if self.get_u(a) == 0 {
                    self.pc = target;
                }
                Ok(())
            },
            Inst::Jnz(t, a) => {
                let target = self.get_u(t);
                if self.get_u(a) != 0 {
                    self.pc = target;
                }
                Ok(())
            },
            Inst::Jmp(t) => {
                let target = self.get_u(t);
                self.pc = target;
                Ok(())
            },
            Inst::Call(t) => {
                let target = self.get_u(t);
                mem.push_stack(RegType::Usize(self.pc));
                self.pc = target;
                Ok(())
            },
            Inst::Ret => {
                let len = mem.stack_top_addr();
                if len == 0 {
                    Err(ISAErr::StackUnderflow)
                } else {
                    match mem.get_stack(len - 1, 0) {
                        Ok(RegType::Usize(a)) => {
                            let _ = mem.pop_stack();
                            self.pc = a;
                            Ok(())
                        },
                        Ok(RegType::F64(_)) => Err(ISAErr::TypeMismatch),
                        Err(e) => {
                            proof {
                                assert(false);
                            }
                            Err(e)
                        },
                    }
                }
            },
            _ => Ok(()),
        }
    }

    /// Executes a single instruction against a memory: one atomic
    /// transition of the machine, exactly as [`exec_rel`] states it. The
    /// program counter is not advanced here — that is the fetch
    /// discipline's job ([`Cpu::step`]) — so `Call` pushes `pc` as it
    /// stands. This register file installs no host functions: every
    /// `SysCall` index is invalid and faults without effect.
    pub fn execute_one<M: Memory, F: FloatOps>(&mut self, i: Inst, mem: &mut M, fp: &F) -> (r:
        Result<(), ISAErr>)
        requires
            old(self).wf(),
        ensures
            final(self).wf(),
            final(mem).code_view() == old(mem).code_view(),
            exec_rel(vm_state(*old(self), *old(mem)), i, vm_state(*final(self), *final(mem)), r),
    {
        match i {
            Inst::Nop => Ok(()),
            Inst::Halt => Err(ISAErr::Halt),
            Inst::SysCall(_) => Err(ISAErr::InvalidSysCall),
            Inst::MU(_, _) | Inst::MovU(_, _) | Inst::Mod(_, _, _) | Inst::AddU(_, _, _)
                | Inst::AddUI(_, _) | Inst::SubU(_, _, _) | Inst::SubUI(_, _)
                | Inst::MulU(_, _, _) | Inst::DivU(_, _, _) | Inst::And(_, _, _)
                | Inst::Or(_, _, _) | Inst::Xor(_, _, _) | Inst::Not(_, _) | Inst::NegU(_, _)
                | Inst::Shl(_, _) | Inst::Shr(_, _) => self.exec_word(i, mem),
            Inst::MD(_, _) | Inst::MovD(_, _) | Inst::NegD(_, _) | Inst::AddD(_, _, _)
                | Inst::AddDI(_, _) | Inst::SubD(_, _, _) | Inst::SubDI(_, _)
                | Inst::MulD(_, _, _) | Inst::DivD(_, _, _) => self.exec_float(i, mem, fp),
            Inst::LoadUH(_, _) | Inst::LoadDH(_, _) | Inst::LoadUS(_, _) | Inst::LoadDS(_, _)
                | Inst::StoreUH(_, _) | Inst::StoreDH(_, _) | Inst::StoreUS(_, _)
                | Inst::StoreDS(_, _) | Inst::PushU(_) | Inst::PushD(_) | Inst::PopU(_)
                | Inst::PopD(_) | Inst::InU(_, _) | Inst::InD(_, _) | Inst::OutU(_, _)
                | Inst::OutD(_, _) => self.exec_memio(i, mem),
            Inst::Jo(_) | Inst::Jno(_) | Inst::Je(_, _, _) | Inst::Jne(_, _, _) | Inst::Jz(_, _)
                | Inst::Jnz(_, _) | Inst::Jmp(_) | Inst::Call(_) | Inst::Ret => self.exec_flow(
                i,
                mem,
            ),
        }
    }

    /// One fetch-decode-execute round: fetch the instruction at `pc` (a
    /// miss is the `InvalidCodeAddr` fetch fault and changes nothing),
    /// advance `pc` past it, then execute it; control flow that repoints
    /// `pc` overrides the advance. Execution faults come back wrapped as
    /// CPU-level faults, the halt sentinel among them.
    pub fn step<M: Memory, F: FloatOps>(&mut self, mem: &mut M, fp: &F) -> (r: Result<(), CpuErr>)
        requires
            old(self).wf(),
            old(mem).code_view().len() <= usize::MAX,
        ensures
            final(self).wf(),
            final(mem).code_view() == old(mem).code_view(),
            old(self).pc >= old(mem).code_view().len() ==> r == Err::<(), CpuErr>(
                CpuErr::InvalidCodeAddr,
            ) && *final(self) == *old(self) && final(mem).stack_view() == old(mem).stack_view()
                && final(mem).heap_view() == old(mem).heap_view(),
            old(self).pc < old(mem).code_view().len() ==> {
                let i = old(mem).code_view()[old(self).pc as int];
                let mid = vm_state(*old(self), *old(mem)).with_pc((old(self).pc + 1) as usize);
                match r {
                    Ok(_) => exec_rel(mid, i, vm_state(*final(self), *final(mem)), Ok(())),
                    Err(CpuErr::Isa(e)) => exec_rel(
                        mid,
                        i,
                        vm_state(*final(self), *final(mem)),
                        Err(e),
                    ),
                    Err(CpuErr::InvalidCodeAddr) => false,
                }
            },
    {
        match mem.fetch_code(self.pc) {
            Err(_) => Err(CpuErr::InvalidCodeAddr),
            Ok(i) => {
                self.pc = self.pc + 1;
                match self.execute_one(i, mem, fp) {
                    Ok(_) => Ok(()),
                    Err(e) => Err(CpuErr::Isa(e)),
                }
            },
        }
    }
}

/// Divide-by-zero asymmetry, word side: dividing by a register holding
/// zero faults with `DivByZero` and modifies nothing — the destination
/// register included — while a nonzero divisor always succeeds with the
/// exact quotient and a clear overflow flag. (The float bank never
/// faults on division: its transition is `Ok` for every operand, with
/// IEEE semantics supplied by the driving loop's [`FloatOps`].)
pub proof fn lemma_div_word(
    pre: VmState,
    d: UsizeReg,
    a: UsizeReg,
    b: UsizeReg,
    post: VmState,
    r: Result<(), ISAErr>,
)
    requires
        exec_rel(pre, Inst::DivU(d, a, b), post, r),
    ensures
        pre.ur(b) == 0 ==> r == Err::<(), ISAErr>(ISAErr::DivByZero) && post == pre,
        pre.ur(b) != 0 ==> r == Ok::<(), ISAErr>(()) && post == pre.with_u(
            d,
            pre.ur(a) / pre.ur(b),
        ).with_of(false),
{
}

/// The overflow flag: adding two word registers whose sum exceeds the
/// word width sets `Overflow`, and a jump-if-overflow right after takes
/// the branch to the target register's address.
pub proof fn lemma_overflow_sets_and_branches(
    pre: VmState,
    d: UsizeReg,
    a: UsizeReg,
    b: UsizeReg,
    mid: VmState,
    t: UsizeReg,
    post: VmState,
)
    requires
        exec_rel(pre, Inst::AddU(d, a, b), mid, Ok(())),
        pre.ur(a) + pre.ur(b) > usize::MAX,
        exec_rel(mid, Inst::Jo(t), post, Ok(())),
    ensures
        mid.overflow,
        post.pc == mid.ur(t),
{
}

/// The overflow flag is redefined by every word-bank arithmetic
/// instruction: a following addition that does not overflow clears it.
pub proof fn lemma_overflow_cleared(
    pre: VmState,
    d: UsizeReg,
    a: UsizeReg,
    b: UsizeReg,
    post: VmState,
)
    requires
        exec_rel(pre, Inst::AddU(d, a, b), post, Ok(())),
        pre.ur(a) + pre.ur(b) <= usize::MAX,
    ensures
        !post.overflow,
{
}

/// Call/return discipline: a call pushes the current `pc` — under the
/// fetch discipline of [`Cpu::step`] that is the address right after the
/// call — and jumps to the target register's address; a matching return
/// (one that finds the stack as the call left it) restores exactly that
/// `pc` and pops the return address off, leaving the stack as it was
/// before the call.
pub proof fn lemma_call_ret(
    pre: VmState,
    t: UsizeReg,
    mid: VmState,
    between: VmState,
    post: VmState,
)
    requires
        exec_rel(pre, Inst::Call(t), mid, Ok(())),
        between.stack == mid.stack,
        exec_rel(between, Inst::Ret, post, Ok(())),
    ensures
        mid.pc == pre.ur(t),
        mid.stack == pre.stack.push(RegType::Usize(pre.pc)),
        post.pc == pre.pc,
        post.stack == pre.stack,
{
    assert(pre.stack.push(RegType::Usize(pre.pc)).drop_last() =~= pre.stack);
}

/// A jump never faults, whatever its target holds: a corrupted target
/// only surfaces as the `InvalidCodeAddr` fetch fault on the next
/// [`Cpu::step`], not during the jump itself.
pub proof fn lemma_jump_never_faults(pre: VmState, t: UsizeReg, post: VmState, r: Result<
    (),
    ISAErr,
>)
    requires
        exec_rel(pre, Inst::Jmp(t), post, r),
    ensures
        r == Ok::<(), ISAErr>(()),
        post == pre.with_pc(pre.ur(t)),
{
}

} // verus!
