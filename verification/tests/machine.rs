use vm_isa::cpu::{Cpu, FloatOps};
use vm_isa::err::{CpuErr, ISAErr};
use vm_isa::mem::{Memory, VmMem};
use vm_isa::reg::F64Reg::{F1, F2, F3, F4, F5};
use vm_isa::reg::Flags;
use vm_isa::reg::UsizeReg::{U1, U2, U3, U4, U5, U6, U7};
use vm_isa::Inst;
use vm_isa::Inst::{
    AddD, AddDI, AddU, And, Call, DivD, DivU, Halt, InU, Je, Jmp, Jnz, Jo, LoadUH, LoadUS, Mod,
    MulD, MulU, NegD, NegU, Nop, Not, Or, OutU, PopU, PushD, Ret, Shl, StoreDH, StoreUH, StoreUS,
    SubD, SubU, SysCall, Xor, MD, MU,
};
use vm_isa::RegType;

/// The host's float unit: real IEEE-754 double arithmetic on bit patterns.
struct Ieee;

impl FloatOps for Ieee {
    fn add(&self, a: u64, b: u64) -> u64 {
        (f64::from_bits(a) + f64::from_bits(b)).to_bits()
    }
    fn sub(&self, a: u64, b: u64) -> u64 {
        (f64::from_bits(a) - f64::from_bits(b)).to_bits()
    }
    fn mul(&self, a: u64, b: u64) -> u64 {
        (f64::from_bits(a) * f64::from_bits(b)).to_bits()
    }
    fn div(&self, a: u64, b: u64) -> u64 {
        (f64::from_bits(a) / f64::from_bits(b)).to_bits()
    }
}

/// A driving loop with a step budget: runs until the first fault and
/// reports it, or gives up after `max_steps`.
fn run(cpu: &mut Cpu, mem: &mut VmMem, max_steps: usize) -> Option<CpuErr> {
    for _ in 0..max_steps {
        if let Err(e) = cpu.step(mem, &Ieee) {
            return Some(e);
        }
    }
    None
}

fn load(code: &[Inst]) -> (Cpu, VmMem) {
    let mut mem = VmMem::new();
    mem.append_code(code);
    (Cpu::new(), mem)
}

#[test]
fn heap_tag_safety_float_then_word_accessor_faults() {
    let mut mem = VmMem::new();
    mem.set_heap(7, RegType::F64((1.25f64).to_bits()));
    assert_eq!(mem.get_heap_u(7), Err(ISAErr::TypeMismatch));
    assert_eq!(mem.get_heap_f(7), Ok((1.25f64).to_bits()));
    mem.set_heap(7, RegType::Usize(99));
    assert_eq!(mem.get_heap_f(7), Err(ISAErr::TypeMismatch));
    assert_eq!(mem.get_heap_u(7), Ok(99));
}

#[test]
fn heap_read_of_unwritten_cell_faults() {
    let mem = VmMem::new();
    assert_eq!(mem.get_heap_u(0), Err(ISAErr::InvalidHeapType));
    assert_eq!(mem.get_heap_f(12345), Err(ISAErr::InvalidHeapType));
}

#[test]
fn stack_pop_on_empty_underflows() {
    let mut mem = VmMem::new();
    assert_eq!(mem.pop_stack(), Err(ISAErr::StackUnderflow));
}

#[test]
fn stack_push_then_pop_returns_exact_value() {
    let mut mem = VmMem::new();
    mem.push_stack(RegType::Usize(41));
    mem.push_stack(RegType::F64((2.5f64).to_bits()));
    assert_eq!(mem.pop_stack(), Ok(RegType::F64((2.5f64).to_bits())));
    assert_eq!(mem.pop_stack(), Ok(RegType::Usize(41)));
    assert_eq!(mem.pop_stack(), Err(ISAErr::StackUnderflow));
}

#[test]
fn stack_drop_bp_removes_exactly_the_frame() {
    let mut mem = VmMem::new();
    for k in 0..5 {
        mem.push_stack(RegType::Usize(k));
    }
    mem.drop_bp(2);
    assert_eq!(mem.stack_top_addr(), 2);
    // The slots below the dropped frame are untouched.
    assert_eq!(mem.get_stack(0, 0), Ok(RegType::Usize(0)));
    assert_eq!(mem.get_stack(0, 1), Ok(RegType::Usize(1)));
    assert_eq!(mem.get_stack(0, 2), Err(ISAErr::InvalidStackAddr));
}

#[test]
fn frame_relative_stack_access_is_bounded() {
    let mut mem = VmMem::new();
    mem.push_stack(RegType::Usize(10));
    mem.push_stack(RegType::Usize(20));
    assert_eq!(mem.get_stack(1, 0), Ok(RegType::Usize(20)));
    assert_eq!(mem.get_stack(1, 1), Err(ISAErr::InvalidStackAddr));
    assert_eq!(mem.set_stack(1, 0, RegType::Usize(21)), Ok(()));
    assert_eq!(mem.get_stack(1, 0), Ok(RegType::Usize(21)));
    assert_eq!(
        mem.set_stack(2, 0, RegType::Usize(5)),
        Err(ISAErr::InvalidStackAddr)
    );
}

#[test]
fn word_divide_by_zero_faults_with_register_untouched() {
    let (mut cpu, mut mem) = load(&[MU(U1, 10), MU(U2, 0), DivU(U3, U1, U2), Halt]);
    let fault = run(&mut cpu, &mut mem, 100);
    assert_eq!(fault, Some(CpuErr::Isa(ISAErr::DivByZero)));
    assert!(!fault.unwrap().is_halt());
    assert_eq!(cpu.get_u(U3), 0);
    assert_eq!(cpu.get_pc(), 3);
}

#[test]
fn float_divide_by_zero_gives_positive_infinity_without_fault() {
    let (mut cpu, mut mem) = load(&[
        MD(F1, (10.0f64).to_bits()),
        MD(F2, (0.0f64).to_bits()),
        DivD(F3, F1, F2),
        Halt,
    ]);
    let fault = run(&mut cpu, &mut mem, 100);
    assert_eq!(fault, Some(CpuErr::Isa(ISAErr::Halt)));
    assert!(fault.unwrap().is_halt());
    assert_eq!(cpu.get_f(F3), f64::INFINITY.to_bits());
}

#[test]
fn example_scenario_divide_by_zero_mid_program() {
    let (mut cpu, mut mem) = load(&[MU(U1, 5), MU(U2, 0), DivU(U3, U1, U2), Halt]);
    let fault = run(&mut cpu, &mut mem, 100);
    assert_eq!(fault, Some(CpuErr::Isa(ISAErr::DivByZero)));
    assert_eq!(cpu.get_u(U1), 5);
    assert_eq!(cpu.get_u(U2), 0);
    assert_eq!(cpu.get_u(U3), 0);
}

#[test]
fn overflow_flag_sets_branches_and_clears() {
    // U4 holds the branch target (5): an overflowing add must take the
    // jump-if-overflow there; the add at the target must clear the flag.
    let (mut cpu, mut mem) = load(&[
        MU(U1, usize::MAX),
        MU(U2, 1),
        MU(U4, 5),
        AddU(U3, U1, U2),
        Jo(U4),
        AddU(U3, U2, U2),
        Halt,
    ]);
    for _ in 0..4 {
        cpu.step(&mut mem, &Ieee).unwrap();
    }
    assert!(cpu.get_flag(Flags::Overflow));
    assert_eq!(cpu.get_u(U3), 0); // MAX + 1 wraps to zero
    cpu.step(&mut mem, &Ieee).unwrap();
    assert_eq!(cpu.get_pc(), 5);
    cpu.step(&mut mem, &Ieee).unwrap();
    assert!(!cpu.get_flag(Flags::Overflow));
    assert_eq!(cpu.get_u(U3), 2);
}

#[test]
fn jump_not_taken_when_no_overflow() {
    let (mut cpu, mut mem) = load(&[MU(U1, 1), MU(U2, 2), MU(U4, 0), AddU(U3, U1, U2), Jo(U4), Halt]);
    let fault = run(&mut cpu, &mut mem, 100);
    assert_eq!(fault, Some(CpuErr::Isa(ISAErr::Halt)));
    assert_eq!(cpu.get_u(U3), 3);
}

#[test]
fn call_then_ret_restores_pc_to_instruction_after_call() {
    // 0: MU(U1, 4)  1: Call(U1)  2: Halt  3: Nop  4: Ret
    let (mut cpu, mut mem) = load(&[MU(U1, 4), Call(U1), Halt, Nop, Ret]);
    cpu.step(&mut mem, &Ieee).unwrap();
    cpu.step(&mut mem, &Ieee).unwrap();
    assert_eq!(cpu.get_pc(), 4);
    assert_eq!(mem.stack_top_addr(), 1); // the return address sits on the stack
    cpu.step(&mut mem, &Ieee).unwrap();
    assert_eq!(cpu.get_pc(), 2); // right after the call
    assert_eq!(mem.stack_top_addr(), 0);
    let fault = run(&mut cpu, &mut mem, 10);
    assert!(fault.unwrap().is_halt());
}

#[test]
fn jump_to_invalid_address_faults_on_next_fetch() {
    let (mut cpu, mut mem) = load(&[MU(U1, 99), Jmp(U1), Halt]);
    cpu.step(&mut mem, &Ieee).unwrap();
    // The jump itself succeeds...
    cpu.step(&mut mem, &Ieee).unwrap();
    assert_eq!(cpu.get_pc(), 99);
    // ...the fetch after it is what faults.
    assert_eq!(cpu.step(&mut mem, &Ieee), Err(CpuErr::InvalidCodeAddr));
}

#[test]
fn ret_on_empty_stack_underflows() {
    let (mut cpu, mut mem) = load(&[Ret]);
    assert_eq!(
        run(&mut cpu, &mut mem, 10),
        Some(CpuErr::Isa(ISAErr::StackUnderflow))
    );
}

#[test]
fn pop_of_wrong_tag_is_a_type_mismatch() {
    let (mut cpu, mut mem) = load(&[PushD(F1), PopU(U1), Halt]);
    assert_eq!(
        run(&mut cpu, &mut mem, 10),
        Some(CpuErr::Isa(ISAErr::TypeMismatch))
    );
    // The mismatched value is still on the stack: the pop did not consume it.
    assert_eq!(mem.stack_top_addr(), 1);
}

#[test]
fn syscall_faults_as_invalid_when_no_host_functions_exist() {
    let (mut cpu, mut mem) = load(&[MU(U1, 3), SysCall(U1), Halt]);
    assert_eq!(
        run(&mut cpu, &mut mem, 10),
        Some(CpuErr::Isa(ISAErr::InvalidSysCall))
    );
}

#[test]
fn word_arithmetic_exact_values() {
    let (mut cpu, mut mem) = load(&[
        MU(U1, 29),
        MU(U2, 6),
        Mod(U3, U1, U2),
        DivU(U4, U1, U2),
        MulU(U5, U2, U2),
        SubU(U6, U1, U2),
        Halt,
    ]);
    let fault = run(&mut cpu, &mut mem, 100);
    assert!(fault.unwrap().is_halt());
    assert_eq!(cpu.get_u(U3), 29 % 6);
    assert_eq!(cpu.get_u(U4), 29 / 6);
    assert_eq!(cpu.get_u(U5), 36);
    assert_eq!(cpu.get_u(U6), 23);
}

#[test]
fn subtraction_borrow_sets_overflow_and_wraps() {
    let (mut cpu, mut mem) = load(&[MU(U1, 3), MU(U2, 5), SubU(U3, U1, U2), Halt]);
    run(&mut cpu, &mut mem, 100);
    assert!(cpu.get_flag(Flags::Overflow));
    assert_eq!(cpu.get_u(U3), usize::MAX - 1); // 3 - 5 modulo the word width
}

#[test]
fn bitwise_and_shift_exact_values() {
    let (mut cpu, mut mem) = load(&[
        MU(U1, 0b1100),
        MU(U2, 0b1010),
        And(U3, U1, U2),
        Or(U4, U1, U2),
        Xor(U5, U1, U2),
        Not(U6, U1),
        MU(U7, 2),
        Shl(U1, U7),
        Halt,
    ]);
    run(&mut cpu, &mut mem, 100);
    assert_eq!(cpu.get_u(U3), 0b1000);
    assert_eq!(cpu.get_u(U4), 0b1110);
    assert_eq!(cpu.get_u(U5), 0b0110);
    assert_eq!(cpu.get_u(U6), !0b1100usize);
    assert_eq!(cpu.get_u(U1), 0b110000);
}

#[test]
fn shift_beyond_word_width_yields_zero() {
    let (mut cpu, mut mem) = load(&[MU(U1, 123), MU(U2, 10_000), Shl(U1, U2), Halt]);
    run(&mut cpu, &mut mem, 100);
    assert_eq!(cpu.get_u(U1), 0);
}

#[test]
fn negate_word_wraps_and_negate_float_flips_sign() {
    let (mut cpu, mut mem) = load(&[
        MU(U1, 1),
        NegU(U2, U1),
        MD(F1, (5.25f64).to_bits()),
        NegD(F2, F1),
        Halt,
    ]);
    run(&mut cpu, &mut mem, 100);
    assert_eq!(cpu.get_u(U2), usize::MAX);
    assert_eq!(cpu.get_f(F2), (-5.25f64).to_bits());
}

#[test]
fn float_arithmetic_through_the_host_unit() {
    let (mut cpu, mut mem) = load(&[
        MD(F1, (1.5f64).to_bits()),
        MD(F2, (2.25f64).to_bits()),
        AddD(F3, F1, F2),
        SubD(F4, F2, F1),
        MulD(F5, F1, F2),
        AddDI(F1, (10.0f64).to_bits()),
        Halt,
    ]);
    run(&mut cpu, &mut mem, 100);
    assert_eq!(cpu.get_f(F3), (3.75f64).to_bits());
    assert_eq!(cpu.get_f(F4), (0.75f64).to_bits());
    assert_eq!(cpu.get_f(F5), (3.375f64).to_bits());
    assert_eq!(cpu.get_f(F1), (11.5f64).to_bits());
}

#[test]
fn heap_load_store_round_trip_through_instructions() {
    // U2 holds the heap address; store U1 there, load it back into U3.
    let (mut cpu, mut mem) = load(&[
        MU(U1, 777),
        MU(U2, 50),
        StoreUH(U1, U2),
        LoadUH(U3, U2),
        MD(F1, (9.5f64).to_bits()),
        StoreDH(F1, U2),
        Halt,
    ]);
    let fault = run(&mut cpu, &mut mem, 100);
    assert!(fault.unwrap().is_halt());
    assert_eq!(cpu.get_u(U3), 777);
    // The float store retagged the cell: a word read now mismatches.
    assert_eq!(mem.get_heap_u(50), Err(ISAErr::TypeMismatch));
    assert_eq!(mem.get_heap_f(50), Ok((9.5f64).to_bits()));
}

#[test]
fn stack_load_store_instructions_use_frame_addressing() {
    let mut mem = VmMem::new();
    mem.append_code(&[MU(U1, 0), LoadUS(U2, U1), MU(U3, 5), StoreUS(U3, U1), Halt]);
    mem.append_stack(&[RegType::Usize(10)]);
    let mut cpu = Cpu::new();
    let fault = run(&mut cpu, &mut mem, 100);
    assert!(fault.unwrap().is_halt());
    assert_eq!(cpu.get_u(U2), 10);
    assert_eq!(mem.get_stack(0, 0), Ok(RegType::Usize(5)));
}

#[test]
fn stack_load_of_float_slot_with_word_opcode_mismatches() {
    let mut mem = VmMem::new();
    mem.append_code(&[MU(U1, 0), LoadUS(U2, U1), Halt]);
    mem.append_stack(&[RegType::F64((1.0f64).to_bits())]);
    let mut cpu = Cpu::new();
    assert_eq!(
        run(&mut cpu, &mut mem, 10),
        Some(CpuErr::Isa(ISAErr::TypeMismatch))
    );
}

#[test]
fn io_transfers_are_heap_mapped_in_this_backend() {
    let (mut cpu, mut mem) = load(&[MU(U1, 123), MU(U2, 9), OutU(U1, U2), InU(U3, U2), Halt]);
    let fault = run(&mut cpu, &mut mem, 100);
    assert!(fault.unwrap().is_halt());
    assert_eq!(cpu.get_u(U3), 123);
    assert_eq!(mem.get_heap_u(9), Ok(123));
}

#[test]
fn conditional_jumps_compare_word_registers() {
    // Je taken: equal registers jump over the Halt at 4 to the Halt at 5.
    let (mut cpu, mut mem) = load(&[MU(U1, 5), MU(U2, 7), MU(U3, 7), Je(U1, U2, U3), Halt, Halt]);
    run(&mut cpu, &mut mem, 100);
    assert_eq!(cpu.get_pc(), 6);
    // Jnz not taken: register is zero, so the Halt right after runs.
    let (mut cpu2, mut mem2) = load(&[MU(U1, 3), MU(U2, 0), Jnz(U1, U2), Halt]);
    run(&mut cpu2, &mut mem2, 100);
    assert_eq!(cpu2.get_pc(), 4);
}

#[test]
fn flags_and_registers_are_per_instance_state() {
    let mut a = Cpu::new();
    let b = Cpu::new();
    a.set_flag(Flags::Overflow, true);
    a.set_flag(Flags::Interrupt, true);
    a.set_u(U1, 9);
    a.set_f(F1, (3.0f64).to_bits());
    a.set_bp(4);
    a.set_pc(11);
    assert!(a.get_flag(Flags::Overflow));
    assert!(a.get_flag(Flags::Interrupt));
    assert_eq!(a.get_u(U1), 9);
    assert_eq!(a.get_f(F1), (3.0f64).to_bits());
    assert_eq!(a.get_bp(), 4);
    assert_eq!(a.get_pc(), 11);
    assert!(!b.get_flag(Flags::Overflow));
    assert_eq!(b.get_u(U1), 0);
}

#[test]
fn segment_clears_are_independent() {
    let mut mem = VmMem::new();
    mem.append_code(&[Nop, Halt]);
    mem.push_stack(RegType::Usize(1));
    mem.set_heap(0, RegType::Usize(2));
    mem.clear_stack();
    assert_eq!(mem.stack_top_addr(), 0);
    assert_eq!(mem.get_heap_u(0), Ok(2));
    assert_eq!(mem.fetch_code(0), Ok(Nop));
    mem.clear_heap();
    assert_eq!(mem.get_heap_u(0), Err(ISAErr::InvalidHeapType));
    assert_eq!(mem.fetch_code(1), Ok(Halt));
    mem.clear_code();
    assert_eq!(mem.fetch_code(0), Err(CpuErr::InvalidCodeAddr));
}

#[test]
fn fault_promotion_wraps_execution_faults_one_way() {
    let c: CpuErr = CpuErr::from(ISAErr::DivByZero);
    assert_eq!(c, CpuErr::Isa(ISAErr::DivByZero));
    assert!(!c.is_halt());
    assert!(ISAErr::Halt.is_halt());
    assert!(CpuErr::from(ISAErr::Halt).is_halt());
    assert!(!ISAErr::TypeMismatch.is_halt());
    assert!(!CpuErr::InvalidCodeAddr.is_halt());
}

#[test]
fn program_survives_codec_and_still_runs() {
    let program = vec![MU(U1, 5), MU(U2, 0), DivU(U3, U1, U2), Halt];
    let bytes = vm_isa::serde::serde_code(&program).unwrap();
    let back = vm_isa::serde::de_serde_code(&bytes).unwrap();
    let (mut cpu, mut mem) = load(&back);
    let fault = run(&mut cpu, &mut mem, 100);
    assert_eq!(fault, Some(CpuErr::Isa(ISAErr::DivByZero)));
    assert_eq!(cpu.get_u(U3), 0);
}
