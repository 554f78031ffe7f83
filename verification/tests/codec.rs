use vm_isa::reg::F64Reg::{F1, F2, F3, F4, F5, F6, F7, F8};
use vm_isa::reg::UsizeReg::{U1, U2, U3, U4, U5, U6, U7, U8};
use vm_isa::serde::{de_serde_code, serde_code, CodecErr};
use vm_isa::Inst;
use vm_isa::Inst::{
    AddD, AddDI, AddU, AddUI, And, Call, DivD, DivU, Halt, InD, InU, Je, Jmp, Jne, Jno, Jnz, Jo,
    Jz, LoadDH, LoadDS, LoadUH, LoadUS, MovD, MovU, Mod, MulD, MulU, NegD, NegU, Nop, Not, Or,
    OutD, OutU, PopD, PopU, PushD, PushU, Ret, Shl, Shr, StoreDH, StoreDS, StoreUH, StoreUS, SubD,
    SubDI, SubU, SubUI, SysCall, Xor, MD, MU,
};

const NUM_INST: usize = 10000;

#[test]
fn test_serde_code() {
    let mut code = vec![Inst::Nop; NUM_INST];
    let mut len = serde_code(&code).unwrap().len();
    let codeenum = [
        Nop,
        MU(U1, 0),
        MD(F1, (0.0f64).to_bits()),
        MovU(U1, U2),
        MovD(F1, F2),
        Mod(U1, U2, U3),
        AddU(U1, U2, U3),
        AddUI(U1, 0),
        AddD(F1, F2, F3),
        AddDI(F1, (0.0f64).to_bits()),
        SubU(U1, U2, U3),
        SubUI(U1, 0),
        SubD(F1, F2, F3),
        SubDI(F1, (0.0f64).to_bits()),
        MulU(U1, U2, U3),
        MulD(F1, F2, F3),
        DivU(U1, U2, U3),
        DivD(F1, F2, F3),
        And(U1, U2, U3),
        Or(U1, U2, U3),
        Xor(U1, U2, U3),
        Not(U1, U2),
        NegU(U1, U2),
        NegD(F1, F2),
        Shl(U1, U2),
        Shr(U1, U2),
        LoadUH(U1, U2),
        LoadDH(F1, U2),
        LoadUS(U1, U2),
        LoadDS(F1, U2),
        StoreUH(U1, U2),
        StoreDH(F1, U2),
        StoreUS(U1, U2),
        StoreDS(F1, U2),
        InU(U1, U2),
        InD(F1, U1),
        OutD(F1, U1),
        OutU(U1, U2),
        Je(U1, U2, U3),
        Jmp(U1),
        Jne(U1, U2, U3),
        Jno(U1),
        Jnz(U1, U2),
        Jnz(U1, U2),
        Jo(U1),
        Jz(U1, U2),
        PushU(U1),
        PushD(F1),
        PopU(U1),
        PopD(F1),
        Jmp(U1),
        Jz(U1, U2),
        Jnz(U1, U2),
        Call(U1),
        Call(U1),
        SysCall(U1),
        Ret,
        Halt,
    ];
    for i in 0..codeenum.len() {
        code = vec![codeenum[i]; NUM_INST];
        len = serde_code(&code).unwrap().len();
        println!("{:?}len:{}", codeenum[i], len / NUM_INST);
    }
}

fn every_opcode() -> Vec<Inst> {
    vec![
        Nop,
        MU(U1, 0),
        MU(U2, usize::MAX),
        MU(U8, 1234567890),
        MD(F1, (0.0f64).to_bits()),
        MD(F2, (-0.0f64).to_bits()),
        MD(F3, f64::NAN.to_bits()),
        MD(F4, f64::INFINITY.to_bits()),
        MD(F5, f64::NEG_INFINITY.to_bits()),
        MD(F8, (-123.456e300f64).to_bits()),
        MovU(U1, U2),
        MovD(F1, F2),
        Mod(U1, U2, U3),
        AddU(U4, U5, U6),
        AddUI(U7, usize::MAX),
        AddD(F4, F5, F6),
        AddDI(F7, (1.5f64).to_bits()),
        SubU(U1, U2, U3),
        SubUI(U1, 42),
        SubD(F1, F2, F3),
        SubDI(F1, (2.5f64).to_bits()),
        MulU(U1, U2, U3),
        MulD(F1, F2, F3),
        DivU(U1, U2, U3),
        DivD(F1, F2, F3),
        And(U1, U2, U3),
        Or(U1, U2, U3),
        Xor(U1, U2, U3),
        Not(U1, U2),
        NegU(U1, U2),
        NegD(F1, F2),
        Shl(U1, U2),
        Shr(U1, U2),
        LoadUH(U1, U2),
        LoadDH(F1, U2),
        LoadUS(U1, U2),
        LoadDS(F1, U2),
        StoreUH(U1, U2),
        StoreDH(F1, U2),
        StoreUS(U1, U2),
        StoreDS(F1, U2),
        Jo(U1),
        Jno(U2),
        Je(U1, U2, U3),
        Jne(U1, U2, U3),
        Jz(U1, U2),
        Jnz(U1, U2),
        Jmp(U3),
        PushU(U1),
        PushD(F1),
        PopU(U1),
        PopD(F1),
        Call(U4),
        SysCall(U5),
        InU(U1, U2),
        InD(F1, U2),
        OutU(U1, U2),
        OutD(F1, U2),
        Ret,
        Halt,
    ]
}

#[test]
fn round_trip_every_opcode_and_boundary_immediates() {
    let code = every_opcode();
    let bytes = serde_code(&code).unwrap();
    let back = de_serde_code(&bytes).unwrap();
    assert_eq!(back, code);
}

#[test]
fn round_trip_empty_program() {
    let code: Vec<Inst> = vec![];
    let bytes = serde_code(&code).unwrap();
    assert_eq!(bytes.len(), 0);
    let back = de_serde_code(&bytes).unwrap();
    assert_eq!(back, code);
}

#[test]
fn nan_bits_survive_the_codec_exactly() {
    let weird_nan: u64 = 0x7ff8_dead_beef_cafe;
    let code = vec![MD(F6, weird_nan)];
    let back = de_serde_code(&serde_code(&code).unwrap()).unwrap();
    match back[0] {
        MD(r, bits) => {
            assert_eq!(r, F6);
            assert_eq!(bits, weird_nan);
        }
        _ => panic!("wrong instruction decoded"),
    }
}

#[test]
fn encoding_size_scales_with_operand_count() {
    assert_eq!(serde_code(&vec![Nop]).unwrap().len(), 1);
    assert_eq!(serde_code(&vec![Ret]).unwrap().len(), 1);
    assert_eq!(serde_code(&vec![Jo(U1)]).unwrap().len(), 2);
    assert_eq!(serde_code(&vec![PushD(F2)]).unwrap().len(), 2);
    assert_eq!(serde_code(&vec![MovU(U1, U2)]).unwrap().len(), 3);
    assert_eq!(serde_code(&vec![LoadDH(F1, U2)]).unwrap().len(), 3);
    assert_eq!(serde_code(&vec![AddU(U1, U2, U3)]).unwrap().len(), 4);
    assert_eq!(serde_code(&vec![AddD(F1, F2, F3)]).unwrap().len(), 4);
    assert_eq!(serde_code(&vec![MU(U1, 7)]).unwrap().len(), 10);
    assert_eq!(serde_code(&vec![MD(F1, (7.0f64).to_bits())]).unwrap().len(), 10);
}

#[test]
fn decode_rejects_truncated_input() {
    // An instruction with an immediate cut off mid-operand.
    let r = de_serde_code(&[1u8, 0u8, 1u8, 2u8]);
    assert_eq!(r, Err(CodecErr::Truncated));
    // A lone opcode byte that promises a register operand.
    let r = de_serde_code(&[40u8]);
    assert_eq!(r, Err(CodecErr::Truncated));
}

#[test]
fn decode_rejects_unknown_opcode() {
    let r = de_serde_code(&[200u8]);
    assert_eq!(r, Err(CodecErr::BadOpcode));
}

#[test]
fn decode_rejects_bad_register_byte() {
    // Opcode 3 encodes a register-register move; 8 names no register.
    let r = de_serde_code(&[3u8, 8u8, 0u8]);
    assert_eq!(r, Err(CodecErr::BadReg));
}

#[test]
fn decode_consumes_whole_instructions_only() {
    let code = vec![AddU(U1, U2, U3), Halt];
    let mut bytes = serde_code(&code).unwrap();
    // Chop off the trailing Halt byte plus one operand byte of AddU.
    bytes.pop();
    bytes.pop();
    assert_eq!(de_serde_code(&bytes), Err(CodecErr::Truncated));
}
