//! Binary program codec.
//!
//! [`serde_code`] turns an instruction sequence into a compact byte form;
//! [`de_serde_code`] turns such bytes back into instructions. The encoding
//! is structure-aware, not opcode-special-cased: every instruction is one
//! opcode byte followed by its operands, a register operand taking one
//! byte and an immediate taking eight little-endian bytes, so the size
//! scales with operand count alone. Words and float bit patterns are
//! carried at full precision. The round-trip law — decoding an encoding
//! yields the original sequence — is proved as [`lemma_round_trip`].

use vstd::prelude::*;

use crate::reg::{F64Reg, UsizeReg};
use crate::Inst;

verus! {

/// A fault raised while decoding a program image.
#[derive(Debug, Clone, Copy, PartialEq, Eq, Hash, Structural)]
pub enum CodecErr {
    /// The input ends inside an instruction.
    Truncated,
    /// A byte in opcode position names no opcode.
    BadOpcode,
    /// A byte in register position names no register.
    BadReg,
    /// An immediate does not fit a machine word.
    BadImmediate,
}

/// Byte encoding a word-bank register name.
pub open spec fn enc_ureg(r: UsizeReg) -> u8 {
    r.idx_spec() as u8
}

/// Byte encoding a float-bank register name.
pub open spec fn enc_freg(r: F64Reg) -> u8 {
    r.idx_spec() as u8
}

/// Word-bank register named by a byte, if any.
pub open spec fn dec_ureg(b: u8) -> Option<UsizeReg> {
    if b == 0 {
        Some(UsizeReg::U1)
    } else if b == 1 {
        Some(UsizeReg::U2)
    } else if b == 2 {
        Some(UsizeReg::U3)
    } else if b == 3 {
        Some(UsizeReg::U4)
    } else if b == 4 {
        Some(UsizeReg::U5)
    } else if b == 5 {
        Some(UsizeReg::U6)
    } else if b == 6 {
        Some(UsizeReg::U7)
    } else if b == 7 {
        Some(UsizeReg::U8)
    } else {
        None
    }
}

/// Float-bank register named by a byte, if any.
pub open spec fn dec_freg(b: u8) -> Option<F64Reg> {
    if b == 0 {
        Some(F64Reg::F1)
    } else if b == 1 {
        Some(F64Reg::F2)
    } else if b == 2 {
        Some(F64Reg::F3)
    } else if b == 3 {
        Some(F64Reg::F4)
    } else if b == 4 {
        Some(F64Reg::F5)
    } else if b == 5 {
        Some(F64Reg::F6)
    } else if b == 6 {
        Some(F64Reg::F7)
    } else if b == 7 {
        Some(F64Reg::F8)
    } else {
        None
    }
}

/// Little-endian byte image of a 64-bit value.
pub open spec fn enc_u64(v: u64) -> Seq<u8> {
    seq![
        (v & 0xff) as u8,
        ((v >> 8) & 0xff) as u8,
        ((v >> 16) & 0xff) as u8,
        ((v >> 24) & 0xff) as u8,
        ((v >> 32) & 0xff) as u8,
        ((v >> 40) & 0xff) as u8,
        ((v >> 48) & 0xff) as u8,
        ((v >> 56) & 0xff) as u8,
    ]
}

/// 64-bit value read little-endian from eight bytes starting at `k`.
pub open spec fn dec_u64_at(b: Seq<u8>, k: int) -> u64
    recommends
        0 <= k,
        k + 8 <= b.len(),
{
    (b[k] as u64) | ((b[k + 1] as u64) << 8) | ((b[k + 2] as u64) << 16) | ((b[k + 3] as u64)
        << 24) | ((b[k + 4] as u64) << 32) | ((b[k + 5] as u64) << 40) | ((b[k + 6] as u64) << 48)
        | ((b[k + 7] as u64) << 56)
}

/// Decoding the byte of a register name gives that name back.
pub proof fn lemma_ureg_roundtrip(r: UsizeReg)
    ensures
        dec_ureg(enc_ureg(r)) == Some(r),
{
}

/// Decoding the byte of a register name gives that name back.
pub proof fn lemma_freg_roundtrip(r: F64Reg)
    ensures
        dec_freg(enc_freg(r)) == Some(r),
{
}

/// Reading eight bytes that hold the little-endian image of `v` gives `v`.
pub proof fn lemma_u64_roundtrip_at(v: u64, b: Seq<u8>, k: int)
    requires
        0 <= k,
        k + 8 <= b.len(),
        b[k] == enc_u64(v)[0],
        b[k + 1] == enc_u64(v)[1],
        b[k + 2] == enc_u64(v)[2],
        b[k + 3] == enc_u64(v)[3],
        b[k + 4] == enc_u64(v)[4],
        b[k + 5] == enc_u64(v)[5],
        b[k + 6] == enc_u64(v)[6],
        b[k + 7] == enc_u64(v)[7],
    ensures
        dec_u64_at(b, k) == v,
{
    assert(enc_u64(v)[0] == (v & 0xff) as u8);
    assert(enc_u64(v)[1] == ((v >> 8) & 0xff) as u8);
    assert(enc_u64(v)[2] == ((v >> 16) & 0xff) as u8);
    assert(enc_u64(v)[3] == ((v >> 24) & 0xff) as u8);
    assert(enc_u64(v)[4] == ((v >> 32) & 0xff) as u8);
    assert(enc_u64(v)[5] == ((v >> 40) & 0xff) as u8);
    assert(enc_u64(v)[6] == ((v >> 48) & 0xff) as u8);
    assert(enc_u64(v)[7] == ((v >> 56) & 0xff) as u8);
    assert((((v & 0xff) as u8) as u64) | ((((v >> 8) & 0xff) as u8) as u64) << 8 | ((((v >> 16)
        & 0xff) as u8) as u64) << 16 | ((((v >> 24) & 0xff) as u8) as u64) << 24 | ((((v >> 32)
        & 0xff) as u8) as u64) << 32 | ((((v >> 40) & 0xff) as u8) as u64) << 40 | ((((v >> 48)
        & 0xff) as u8) as u64) << 48 | ((((v >> 56) & 0xff) as u8) as u64) << 56 == v)
        by (bit_vector);
}

/// Byte image of one instruction: the opcode byte, then one byte per
/// register operand, then eight little-endian bytes per immediate.
pub open spec fn spec_encode_inst(i: Inst) -> Seq<u8> {
    match i {
        Inst::Nop => seq![0u8],
        Inst::MU(r, w) => seq![1u8, enc_ureg(r)] + enc_u64(w as u64),
        Inst::MD(r, v) => seq![2u8, enc_freg(r)] + enc_u64(v),
        Inst::MovU(d, s) => seq![3u8, enc_ureg(d), enc_ureg(s)],
        Inst::MovD(d, s) => seq![4u8, enc_freg(d), enc_freg(s)],
        Inst::Mod(d, a, b) => seq![5u8, enc_ureg(d), enc_ureg(a), enc_ureg(b)],
        Inst::AddU(d, a, b) => seq![6u8, enc_ureg(d), enc_ureg(a), enc_ureg(b)],
        Inst::AddUI(r, w) => seq![7u8, enc_ureg(r)] + enc_u64(w as u64),
        Inst::AddD(d, a, b) => seq![8u8, enc_freg(d), enc_freg(a), enc_freg(b)],
        Inst::AddDI(r, v) => seq![9u8, enc_freg(r)] + enc_u64(v),
        Inst::SubU(d, a, b) => seq![10u8, enc_ureg(d), enc_ureg(a), enc_ureg(b)],
        Inst::SubUI(r, w) => seq![11u8, enc_ureg(r)] + enc_u64(w as u64),
        Inst::SubD(d, a, b) => seq![12u8, enc_freg(d), enc_freg(a), enc_freg(b)],
        Inst::SubDI(r, v) => seq![13u8, enc_freg(r)] + enc_u64(v),
        Inst::MulU(d, a, b) => seq![14u8, enc_ureg(d), enc_ureg(a), enc_ureg(b)],
        Inst::MulD(d, a, b) => seq![15u8, enc_freg(d), enc_freg(a), enc_freg(b)],
        Inst::DivU(d, a, b) => seq![16u8, enc_ureg(d), enc_ureg(a), enc_ureg(b)],
        Inst::DivD(d, a, b) => seq![17u8, enc_freg(d), enc_freg(a), enc_freg(b)],
        Inst::And(d, a, b) => seq![18u8, enc_ureg(d), enc_ureg(a), enc_ureg(b)],
        Inst::Or(d, a, b) => seq![19u8, enc_ureg(d), enc_ureg(a), enc_ureg(b)],
        Inst::Xor(d, a, b) => seq![20u8, enc_ureg(d), enc_ureg(a), enc_ureg(b)],
        Inst::Not(d, s) => seq![21u8, enc_ureg(d), enc_ureg(s)],
        Inst::NegU(d, s) => seq![22u8, enc_ureg(d), enc_ureg(s)],
        Inst::NegD(d, s) => seq![23u8, enc_freg(d), enc_freg(s)],
        Inst::Shl(d, s) => seq![24u8, enc_ureg(d), enc_ureg(s)],
        Inst::Shr(d, s) => seq![25u8, enc_ureg(d), enc_ureg(s)],
        Inst::LoadUH(d, a) => seq![26u8, enc_ureg(d), enc_ureg(a)],
        Inst::LoadDH(d, a) => seq![27u8, enc_freg(d), enc_ureg(a)],
        Inst::LoadUS(d, a) => seq![28u8, enc_ureg(d), enc_ureg(a)],
        Inst::LoadDS(d, a) => seq![29u8, enc_freg(d), enc_ureg(a)],
        Inst::StoreUH(s, a) => seq![30u8, enc_ureg(s), enc_ureg(a)],
        Inst::StoreDH(s, a) => seq![31u8, enc_freg(s), enc_ureg(a)],
        Inst::StoreUS(s, a) => seq![32u8, enc_ureg(s), enc_ureg(a)],
        Inst::StoreDS(s, a) => seq![33u8, enc_freg(s), enc_ureg(a)],
        Inst::Jo(t) => seq![34u8, enc_ureg(t)],
        Inst::Jno(t) => seq![35u8, enc_ureg(t)],
        Inst::Je(t, a, b) => seq![36u8, enc_ureg(t), enc_ureg(a), enc_ureg(b)],
        Inst::Jne(t, a, b) => seq![37u8, enc_ureg(t), enc_ureg(a), enc_ureg(b)],
        Inst::Jz(t, a) => seq![38u8, enc_ureg(t), enc_ureg(a)],
        Inst::Jnz(t, a) => seq![39u8, enc_ureg(t), enc_ureg(a)],
        Inst::Jmp(t) => seq![40u8, enc_ureg(t)],
        Inst::PushU(r) => seq![41u8, enc_ureg(r)],
        Inst::PushD(r) => seq![42u8, enc_freg(r)],
        Inst::PopU(r) => seq![43u8, enc_ureg(r)],
        Inst::PopD(r) => seq![44u8, enc_freg(r)],
        Inst::Call(t) => seq![45u8, enc_ureg(t)],
        Inst::SysCall(r) => seq![46u8, enc_ureg(r)],
        Inst::InU(d, a) => seq![47u8, enc_ureg(d), enc_ureg(a)],
        Inst::InD(d, a) => seq![48u8, enc_freg(d), enc_ureg(a)],
        Inst::OutU(s, a) => seq![49u8, enc_ureg(s), enc_ureg(a)],
        Inst::OutD(s, a) => seq![50u8, enc_freg(s), enc_ureg(a)],
        Inst::Ret => seq![51u8],
        Inst::Halt => seq![52u8],
    }
}

/// First instruction of a byte stream together with the count of bytes it
/// occupies, or nothing where no instruction starts the stream.
pub open spec fn spec_decode_inst(b: Seq<u8>) -> Option<(Inst, int)> {
    if b.len() < 1 {
        None
    } else {
        let op = b[0];
        if op == 0 {
            Some((Inst::Nop, 1))
        } else if op == 1 {
            dec_shape_ui(b, |r: UsizeReg, w: usize| Inst::MU(r, w))
        } else if op == 2 {
            dec_shape_fi(b, |r: F64Reg, v: u64| Inst::MD(r, v))
        } else if op == 3 {
            dec_shape_uu(b, |d: UsizeReg, s: UsizeReg| Inst::MovU(d, s))
        } else if op == 4 {
            dec_shape_ff(b, |d: F64Reg, s: F64Reg| Inst::MovD(d, s))
        } else if op == 5 {
            dec_shape_uuu(b, |d: UsizeReg, x: UsizeReg, y: UsizeReg| Inst::Mod(d, x, y))
        } else if op == 6 {
            dec_shape_uuu(b, |d: UsizeReg, x: UsizeReg, y: UsizeReg| Inst::AddU(d, x, y))
        } else if op == 7 {
            dec_shape_ui(b, |r: UsizeReg, w: usize| Inst::AddUI(r, w))
        } else if op == 8 {
            dec_shape_fff(b, |d: F64Reg, x: F64Reg, y: F64Reg| Inst::AddD(d, x, y))
        } else if op == 9 {
            dec_shape_fi(b, |r: F64Reg, v: u64| Inst::AddDI(r, v))
        } else if op == 10 {
            dec_shape_uuu(b, |d: UsizeReg, x: UsizeReg, y: UsizeReg| Inst::SubU(d, x, y))
        } else if op == 11 {
            dec_shape_ui(b, |r: UsizeReg, w: usize| Inst::SubUI(r, w))
        } else if op == 12 {
            dec_shape_fff(b, |d: F64Reg, x: F64Reg, y: F64Reg| Inst::SubD(d, x, y))
        } else if op == 13 {
            dec_shape_fi(b, |r: F64Reg, v: u64| Inst::SubDI(r, v))
        } else if op == 14 {
            dec_shape_uuu(b, |d: UsizeReg, x: UsizeReg, y: UsizeReg| Inst::MulU(d, x, y))
        } else if op == 15 {
            dec_shape_fff(b, |d: F64Reg, x: F64Reg, y: F64Reg| Inst::MulD(d, x, y))
        } else if op == 16 {
            dec_shape_uuu(b, |d: UsizeReg, x: UsizeReg, y: UsizeReg| Inst::DivU(d, x, y))
        } else if op == 17 {
            dec_shape_fff(b, |d: F64Reg, x: F64Reg, y: F64Reg| Inst::DivD(d, x, y))
        } else if op == 18 {
            dec_shape_uuu(b, |d: UsizeReg, x: UsizeReg, y: UsizeReg| Inst::And(d, x, y))
        } else if op == 19 {
            dec_shape_uuu(b, |d: UsizeReg, x: UsizeReg, y: UsizeReg| Inst::Or(d, x, y))
        } else if op == 20 {
            dec_shape_uuu(b, |d: UsizeReg, x: UsizeReg, y: UsizeReg| Inst::Xor(d, x, y))
        } else if op == 21 {
            dec_shape_uu(b, |d: UsizeReg, s: UsizeReg| Inst::Not(d, s))
        } else if op == 22 {
            dec_shape_uu(b, |d: UsizeReg, s: UsizeReg| Inst::NegU(d, s))
        } else if op == 23 {
            dec_shape_ff(b, |d: F64Reg, s: F64Reg| Inst::NegD(d, s))
        } else if op == 24 {
            dec_shape_uu(b, |d: UsizeReg, s: UsizeReg| Inst::Shl(d, s))
        } else if op == 25 {
            dec_shape_uu(b, |d: UsizeReg, s: UsizeReg| Inst::Shr(d, s))
        } else if op == 26 {
            dec_shape_uu(b, |d: UsizeReg, a: UsizeReg| Inst::LoadUH(d, a))
        } else if op == 27 {
            dec_shape_fu(b, |d: F64Reg, a: UsizeReg| Inst::LoadDH(d, a))
        } else if op == 28 {
            dec_shape_uu(b, |d: UsizeReg, a: UsizeReg| Inst::LoadUS(d, a))
        } else if op == 29 {
            dec_shape_fu(b, |d: F64Reg, a: UsizeReg| Inst::LoadDS(d, a))
        } else if op == 30 {
            dec_shape_uu(b, |s: UsizeReg, a: UsizeReg| Inst::StoreUH(s, a))
        } else if op == 31 {
            dec_shape_fu(b, |s: F64Reg, a: UsizeReg| Inst::StoreDH(s, a))
        } else if op == 32 {
            dec_shape_uu(b, |s: UsizeReg, a: UsizeReg| Inst::StoreUS(s, a))
        } else if op == 33 {
            dec_shape_fu(b, |s: F64Reg, a: UsizeReg| Inst::StoreDS(s, a))
        } else if op == 34 {
            dec_shape_u(b, |t: UsizeReg| Inst::Jo(t))
        } else if op == 35 {
            dec_shape_u(b, |t: UsizeReg| Inst::Jno(t))
        } else if op == 36 {
            dec_shape_uuu(b, |t: UsizeReg, x: UsizeReg, y: UsizeReg| Inst::Je(t, x, y))
        } else if op == 37 {
            dec_shape_uuu(b, |t: UsizeReg, x: UsizeReg, y: UsizeReg| Inst::Jne(t, x, y))
        } else if op == 38 {
            dec_shape_uu(b, |t: UsizeReg, a: UsizeReg| Inst::Jz(t, a))
        } else if op == 39 {
            dec_shape_uu(b, |t: UsizeReg, a: UsizeReg| Inst::Jnz(t, a))
        } else if op == 40 {
            dec_shape_u(b, |t: UsizeReg| Inst::Jmp(t))
        } else if op == 41 {
            dec_shape_u(b, |r: UsizeReg| Inst::PushU(r))
        } else if op == 42 {
            dec_shape_f(b, |r: F64Reg| Inst::PushD(r))
        } else if op == 43 {
            dec_shape_u(b, |r: UsizeReg| Inst::PopU(r))
        } else if op == 44 {
            dec_shape_f(b, |r: F64Reg| Inst::PopD(r))
        } else if op == 45 {
            dec_shape_u(b, |t: UsizeReg| Inst::Call(t))
        } else if op == 46 {
            dec_shape_u(b, |r: UsizeReg| Inst::SysCall(r))
        } else if op == 47 {
            dec_shape_uu(b, |d: UsizeReg, a: UsizeReg| Inst::InU(d, a))
        } else if op == 48 {
            dec_shape_fu(b, |d: F64Reg, a: UsizeReg| Inst::InD(d, a))
        } else if op == 49 {
            dec_shape_uu(b, |s: UsizeReg, a: UsizeReg| Inst::OutU(s, a))
        } else if op == 50 {
            dec_shape_fu(b, |s: F64Reg, a: UsizeReg| Inst::OutD(s, a))
        } else if op == 51 {
            Some((Inst::Ret, 1))
        } else if op == 52 {
            Some((Inst::Halt, 1))
        } else {
            None
        }
    }
}

/// Decodes the operand shape of one word register.
pub open spec fn dec_shape_u(b: Seq<u8>, make: spec_fn(UsizeReg) -> Inst) -> Option<(Inst, int)> {
    if b.len() < 2 {
        None
    } else {
        match dec_ureg(b[1]) {
            Some(r) => Some((make(r), 2)),
            None => None,
        }
    }
}

/// Decodes the operand shape of one float register.
pub open spec fn dec_shape_f(b: Seq<u8>, make: spec_fn(F64Reg) -> Inst) -> Option<(Inst, int)> {
    if b.len() < 2 {
        None
    } else {
        match dec_freg(b[1]) {
            Some(r) => Some((make(r), 2)),
            None => None,
        }
    }
}

/// Decodes the operand shape of two word registers.
pub open spec fn dec_shape_uu(b: Seq<u8>, make: spec_fn(UsizeReg, UsizeReg) -> Inst) -> Option<
    (Inst, int),
> {
    if b.len() < 3 {
        None
    } else {
        match (dec_ureg(b[1]), dec_ureg(b[2])) {
            (Some(x), Some(y)) => Some((make(x, y), 3)),
            _ => None,
        }
    }
}

/// Decodes the operand shape of two float registers.
pub open spec fn dec_shape_ff(b: Seq<u8>, make: spec_fn(F64Reg, F64Reg) -> Inst) -> Option<
    (Inst, int),
> {
    if b.len() < 3 {
        None
    } else {
        match (dec_freg(b[1]), dec_freg(b[2])) {
            (Some(x), Some(y)) => Some((make(x, y), 3)),
            _ => None,
        }
    }
}

/// Decodes the operand shape of a float register then a word register.
pub open spec fn dec_shape_fu(b: Seq<u8>, make: spec_fn(F64Reg, UsizeReg) -> Inst) -> Option<
    (Inst, int),
> {
    if b.len() < 3 {
        None
    } else {
        match (dec_freg(b[1]), dec_ureg(b[2])) {
            (Some(x), Some(y)) => Some((make(x, y), 3)),
            _ => None,
        }
    }
}

/// Decodes the operand shape of three word registers.
pub open spec fn dec_shape_uuu(
    b: Seq<u8>,
    make: spec_fn(UsizeReg, UsizeReg, UsizeReg) -> Inst,
) -> Option<(Inst, int)> {
    if b.len() < 4 {
        None
    } else {
        match (dec_ureg(b[1]), dec_ureg(b[2]), dec_ureg(b[3])) {
            (Some(x), Some(y), Some(z)) => Some((make(x, y, z), 4)),
            _ => None,
        }
    }
}

/// Decodes the operand shape of three float registers.
pub open spec fn dec_shape_fff(
    b: Seq<u8>,
    make: spec_fn(F64Reg, F64Reg, F64Reg) -> Inst,
) -> Option<(Inst, int)> {
    if b.len() < 4 {
        None
    } else {
        match (dec_freg(b[1]), dec_freg(b[2]), dec_freg(b[3])) {
            (Some(x), Some(y), Some(z)) => Some((make(x, y, z), 4)),
            _ => None,
        }
    }
}

/// Decodes the operand shape of a word register and a word immediate.
pub open spec fn dec_shape_ui(b: Seq<u8>, make: spec_fn(UsizeReg, usize) -> Inst) -> Option<
    (Inst, int),
> {
    if b.len() < 10 {
        None
    } else {
        match dec_ureg(b[1]) {
            Some(r) => {
                let w = dec_u64_at(b, 2);
                if w <= usize::MAX as u64 {
                    Some((make(r, w as usize), 10))
                } else {
                    None
                }
            },
            None => None,
        }
    }
}

/// Decodes the operand shape of a float register and a float-bits immediate.
pub open spec fn dec_shape_fi(b: Seq<u8>, make: spec_fn(F64Reg, u64) -> Inst) -> Option<
    (Inst, int),
> {
    if b.len() < 10 {
        None
    } else {
        match dec_freg(b[1]) {
            Some(r) => Some((make(r, dec_u64_at(b, 2)), 10)),
            None => None,
        }
    }
}

/// Every register-name byte decodes back to the name it encodes.
pub proof fn lemma_reg_roundtrip_all()
    ensures
        forall|r: UsizeReg| #[trigger] dec_ureg(enc_ureg(r)) == Some(r),
        forall|r: F64Reg| #[trigger] dec_freg(enc_freg(r)) == Some(r),
{
    assert forall|r: UsizeReg| #[trigger] dec_ureg(enc_ureg(r)) == Some(r) by {
        lemma_ureg_roundtrip(r);
    }
    assert forall|r: F64Reg| #[trigger] dec_freg(enc_freg(r)) == Some(r) by {
        lemma_freg_roundtrip(r);
    }
}

/// An immediate placed after a prefix reads back as itself.
proof fn lemma_imm_at(pre: Seq<u8>, v: u64, rest: Seq<u8>)
    ensures
        dec_u64_at(pre + enc_u64(v) + rest, pre.len() as int) == v,
{
    let b = pre + enc_u64(v) + rest;
    let k = pre.len() as int;
    assert(b[k] == enc_u64(v)[0]);
    assert(b[k + 1] == enc_u64(v)[1]);
    assert(b[k + 2] == enc_u64(v)[2]);
    assert(b[k + 3] == enc_u64(v)[3]);
    assert(b[k + 4] == enc_u64(v)[4]);
    assert(b[k + 5] == enc_u64(v)[5]);
    assert(b[k + 6] == enc_u64(v)[6]);
    assert(b[k + 7] == enc_u64(v)[7]);
    lemma_u64_roundtrip_at(v, b, k);
}

/// The encoding of one instruction occupies between one and ten bytes.
pub proof fn lemma_encode_inst_len(i: Inst)
    ensures
        1 <= spec_encode_inst(i).len() <= 10,
{
}

/// Round trip of one instruction of this operand shape, against any tail.
proof fn lemma_dec_enc_none(i: Inst, rest: Seq<u8>)
    requires
        i is Nop || i is Ret || i is Halt,
    ensures
        spec_decode_inst(spec_encode_inst(i) + rest) == Some(
            (i, spec_encode_inst(i).len() as int),
        ),
{
    lemma_reg_roundtrip_all();
    match i {
        Inst::Nop => {
            assert(spec_decode_inst(spec_encode_inst(i) + rest) == Some(
                (i, spec_encode_inst(i).len() as int),
            ));
        },
        Inst::Ret => {
            assert(spec_decode_inst(spec_encode_inst(i) + rest) == Some(
                (i, spec_encode_inst(i).len() as int),
            ));
        },
        Inst::Halt => {
            assert(spec_decode_inst(spec_encode_inst(i) + rest) == Some(
                (i, spec_encode_inst(i).len() as int),
            ));
        },
        _ => {},
    }
}

/// Round trip of one instruction of this operand shape, against any tail.
proof fn lemma_dec_enc_ui(i: Inst, rest: Seq<u8>)
    requires
        i is MU || i is AddUI || i is SubUI,
    ensures
        spec_decode_inst(spec_encode_inst(i) + rest) == Some(
            (i, spec_encode_inst(i).len() as int),
        ),
{
    lemma_reg_roundtrip_all();
    match i {
        Inst::MU(r, w) => {
            lemma_imm_at(seq![1u8, enc_ureg(r)], w as u64, rest);
            assert(spec_decode_inst(spec_encode_inst(i) + rest) == Some(
                (i, spec_encode_inst(i).len() as int),
            ));
        },
        Inst::AddUI(r, w) => {
            lemma_imm_at(seq![7u8, enc_ureg(r)], w as u64, rest);
            assert(spec_decode_inst(spec_encode_inst(i) + rest) == Some(
                (i, spec_encode_inst(i).len() as int),
            ));
        },
        Inst::SubUI(r, w) => {
            lemma_imm_at(seq![11u8, enc_ureg(r)], w as u64, rest);
            assert(spec_decode_inst(spec_encode_inst(i) + rest) == Some(
                (i, spec_encode_inst(i).len() as int),
            ));
        },
        _ => {},
    }
}

/// Round trip of one instruction of this operand shape, against any tail.
proof fn lemma_dec_enc_fi(i: Inst, rest: Seq<u8>)
    requires
        i is MD || i is AddDI || i is SubDI,
    ensures
        spec_decode_inst(spec_encode_inst(i) + rest) == Some(
            (i, spec_encode_inst(i).len() as int),
        ),
{
    lemma_reg_roundtrip_all();
    match i {
        Inst::MD(r, v) => {
            lemma_imm_at(seq![2u8, enc_freg(r)], v, rest);
            assert(spec_decode_inst(spec_encode_inst(i) + rest) == Some(
                (i, spec_encode_inst(i).len() as int),
            ));
        },
        Inst::AddDI(r, v) => {
            lemma_imm_at(seq![9u8, enc_freg(r)], v, rest);
            assert(spec_decode_inst(spec_encode_inst(i) + rest) == Some(
                (i, spec_encode_inst(i).len() as int),
            ));
        },
        Inst::SubDI(r, v) => {
            lemma_imm_at(seq![13u8, enc_freg(r)], v, rest);
            assert(spec_decode_inst(spec_encode_inst(i) + rest) == Some(
                (i, spec_encode_inst(i).len() as int),
            ));
        },
        _ => {},
    }
}

/// Round trip of one instruction of this operand shape, against any tail.
proof fn lemma_dec_enc_uu(i: Inst, rest: Seq<u8>)
    requires
        i is MovU || i is Not || i is NegU || i is Shl || i is Shr || i is LoadUH || i is LoadUS || i is StoreUH || i is StoreUS || i is Jz || i is Jnz || i is InU || i is OutU,
    ensures
        spec_decode_inst(spec_encode_inst(i) + rest) == Some(
            (i, spec_encode_inst(i).len() as int),
        ),
{
    lemma_reg_roundtrip_all();
    match i {
        Inst::MovU(a, b) => {
            assert(spec_decode_inst(spec_encode_inst(i) + rest) == Some(
                (i, spec_encode_inst(i).len() as int),
            ));
        },
        Inst::Not(a, b) => {
            assert(spec_decode_inst(spec_encode_inst(i) + rest) == Some(
                (i, spec_encode_inst(i).len() as int),
            ));
        },
        Inst::NegU(a, b) => {
            assert(spec_decode_inst(spec_encode_inst(i) + rest) == Some(
                (i, spec_encode_inst(i).len() as int),
            ));
        },
        Inst::Shl(a, b) => {
            assert(spec_decode_inst(spec_encode_inst(i) + rest) == Some(
                (i, spec_encode_inst(i).len() as int),
            ));
        },
        Inst::Shr(a, b) => {
            assert(spec_decode_inst(spec_encode_inst(i) + rest) == Some(
                (i, spec_encode_inst(i).len() as int),
            ));
        },
        Inst::LoadUH(a, b) => {
            assert(spec_decode_inst(spec_encode_inst(i) + rest) == Some(
                (i, spec_encode_inst(i).len() as int),
            ));
        },
        Inst::LoadUS(a, b) => {
            assert(spec_decode_inst(spec_encode_inst(i) + rest) == Some(
                (i, spec_encode_inst(i).len() as int),
            ));
        },
        Inst::StoreUH(a, b) => {
            assert(spec_decode_inst(spec_encode_inst(i) + rest) == Some(
                (i, spec_encode_inst(i).len() as int),
            ));
        },
        Inst::StoreUS(a, b) => {
            assert(spec_decode_inst(spec_encode_inst(i) + rest) == Some(
                (i, spec_encode_inst(i).len() as int),
            ));
        },
        Inst::Jz(a, b) => {
            assert(spec_decode_inst(spec_encode_inst(i) + rest) == Some(
                (i, spec_encode_inst(i).len() as int),
            ));
        },
        Inst::Jnz(a, b) => {
            assert(spec_decode_inst(spec_encode_inst(i) + rest) == Some(
                (i, spec_encode_inst(i).len() as int),
            ));
        },
        Inst::InU(a, b) => {
            assert(spec_decode_inst(spec_encode_inst(i) + rest) == Some(
                (i, spec_encode_inst(i).len() as int),
            ));
        },
        Inst::OutU(a, b) => {
            assert(spec_decode_inst(spec_encode_inst(i) + rest) == Some(
                (i, spec_encode_inst(i).len() as int),
            ));
        },
        _ => {},
    }
}

/// Round trip of one instruction of this operand shape, against any tail.
proof fn lemma_dec_enc_ff(i: Inst, rest: Seq<u8>)
    requires
        i is MovD || i is NegD,
    ensures
        spec_decode_inst(spec_encode_inst(i) + rest) == Some(
            (i, spec_encode_inst(i).len() as int),
        ),
{
    lemma_reg_roundtrip_all();
    match i {
        Inst::MovD(a, b) => {
            assert(spec_decode_inst(spec_encode_inst(i) + rest) == Some(
                (i, spec_encode_inst(i).len() as int),
            ));
        },
        Inst::NegD(a, b) => {
            assert(spec_decode_inst(spec_encode_inst(i) + rest) == Some(
                (i, spec_encode_inst(i).len() as int),
            ));
        },
        _ => {},
    }
}

/// Round trip of one instruction of this operand shape, against any tail.
proof fn lemma_dec_enc_uuu(i: Inst, rest: Seq<u8>)
    requires
        i is Mod || i is AddU || i is SubU || i is MulU || i is DivU || i is And || i is Or || i is Xor || i is Je || i is Jne,
    ensures
        spec_decode_inst(spec_encode_inst(i) + rest) == Some(
            (i, spec_encode_inst(i).len() as int),
        ),
{
    lemma_reg_roundtrip_all();
    match i {
        Inst::Mod(a, b, c) => {
            assert(spec_decode_inst(spec_encode_inst(i) + rest) == Some(
                (i, spec_encode_inst(i).len() as int),
            ));
        },
        Inst::AddU(a, b, c) => {
            assert(spec_decode_inst(spec_encode_inst(i) + rest) == Some(
                (i, spec_encode_inst(i).len() as int),
            ));
        },
        Inst::SubU(a, b, c) => {
            assert(spec_decode_inst(spec_encode_inst(i) + rest) == Some(
                (i, spec_encode_inst(i).len() as int),
            ));
        },
        Inst::MulU(a, b, c) => {
            assert(spec_decode_inst(spec_encode_inst(i) + rest) == Some(
                (i, spec_encode_inst(i).len() as int),
            ));
        },
        Inst::DivU(a, b, c) => {
            assert(spec_decode_inst(spec_encode_inst(i) + rest) == Some(
                (i, spec_encode_inst(i).len() as int),
            ));
        },
        Inst::And(a, b, c) => {
            assert(spec_decode_inst(spec_encode_inst(i) + rest) == Some(
                (i, spec_encode_inst(i).len() as int),
            ));
        },
        Inst::Or(a, b, c) => {
            assert(spec_decode_inst(spec_encode_inst(i) + rest) == Some(
                (i, spec_encode_inst(i).len() as int),
            ));
        },
        Inst::Xor(a, b, c) => {
            assert(spec_decode_inst(spec_encode_inst(i) + rest) == Some(
                (i, spec_encode_inst(i).len() as int),
            ));
        },
        Inst::Je(a, b, c) => {
            assert(spec_decode_inst(spec_encode_inst(i) + rest) == Some(
                (i, spec_encode_inst(i).len() as int),
            ));
        },
        Inst::Jne(a, b, c) => {
            assert(spec_decode_inst(spec_encode_inst(i) + rest) == Some(
                (i, spec_encode_inst(i).len() as int),
            ));
        },
        _ => {},
    }
}

/// Round trip of one instruction of this operand shape, against any tail.
proof fn lemma_dec_enc_fff(i: Inst, rest: Seq<u8>)
    requires
        i is AddD || i is SubD || i is MulD || i is DivD,
    ensures
        spec_decode_inst(spec_encode_inst(i) + rest) == Some(
            (i, spec_encode_inst(i).len() as int),
        ),
{
    lemma_reg_roundtrip_all();
    match i {
        Inst::AddD(a, b, c) => {
            assert(spec_decode_inst(spec_encode_inst(i) + rest) == Some(
                (i, spec_encode_inst(i).len() as int),
            ));
        },
        Inst::SubD(a, b, c) => {
            assert(spec_decode_inst(spec_encode_inst(i) + rest) == Some(
                (i, spec_encode_inst(i).len() as int),
            ));
        },
        Inst::MulD(a, b, c) => {
            assert(spec_decode_inst(spec_encode_inst(i) + rest) == Some(
                (i, spec_encode_inst(i).len() as int),
            ));
        },
        Inst::DivD(a, b, c) => {
            assert(spec_decode_inst(spec_encode_inst(i) + rest) == Some(
                (i, spec_encode_inst(i).len() as int),
            ));
        },
        _ => {},
    }
}

/// Round trip of one instruction of this operand shape, against any tail.
proof fn lemma_dec_enc_fu(i: Inst, rest: Seq<u8>)
    requires
        i is LoadDH || i is LoadDS || i is StoreDH || i is StoreDS || i is InD || i is OutD,
    ensures
        spec_decode_inst(spec_encode_inst(i) + rest) == Some(
            (i, spec_encode_inst(i).len() as int),
        ),
{
    lemma_reg_roundtrip_all();
    match i {
        Inst::LoadDH(a, b) => {
            assert(spec_decode_inst(spec_encode_inst(i) + rest) == Some(
                (i, spec_encode_inst(i).len() as int),
            ));
        },
        Inst::LoadDS(a, b) => {
            assert(spec_decode_inst(spec_encode_inst(i) + rest) == Some(
                (i, spec_encode_inst(i).len() as int),
            ));
        },
        Inst::StoreDH(a, b) => {
            assert(spec_decode_inst(spec_encode_inst(i) + rest) == Some(
                (i, spec_encode_inst(i).len() as int),
            ));
        },
        Inst::StoreDS(a, b) => {
            assert(spec_decode_inst(spec_encode_inst(i) + rest) == Some(
                (i, spec_encode_inst(i).len() as int),
            ));
        },
        Inst::InD(a, b) => {
            assert(spec_decode_inst(spec_encode_inst(i) + rest) == Some(
                (i, spec_encode_inst(i).len() as int),
            ));
        },
        Inst::OutD(a, b) => {
            assert(spec_decode_inst(spec_encode_inst(i) + rest) == Some(
                (i, spec_encode_inst(i).len() as int),
            ));
        },
        _ => {},
    }
}

/// Round trip of one instruction of this operand shape, against any tail.
proof fn lemma_dec_enc_u(i: Inst, rest: Seq<u8>)
    requires
        i is Jo || i is Jno || i is Jmp || i is PushU || i is PopU || i is Call || i is SysCall,
    ensures
        spec_decode_inst(spec_encode_inst(i) + rest) == Some(
            (i, spec_encode_inst(i).len() as int),
        ),
{
    lemma_reg_roundtrip_all();
    match i {
        Inst::Jo(a) => {
            assert(spec_decode_inst(spec_encode_inst(i) + rest) == Some(
                (i, spec_encode_inst(i).len() as int),
            ));
        },
        Inst::Jno(a) => {
            assert(spec_decode_inst(spec_encode_inst(i) + rest) == Some(
                (i, spec_encode_inst(i).len() as int),
            ));
        },
        Inst::Jmp(a) => {
            assert(spec_decode_inst(spec_encode_inst(i) + rest) == Some(
                (i, spec_encode_inst(i).len() as int),
            ));
        },
        Inst::PushU(a) => {
            assert(spec_decode_inst(spec_encode_inst(i) + rest) == Some(
                (i, spec_encode_inst(i).len() as int),
            ));
        },
        Inst::PopU(a) => {
            assert(spec_decode_inst(spec_encode_inst(i) + rest) == Some(
                (i, spec_encode_inst(i).len() as int),
            ));
        },
        Inst::Call(a) => {
            assert(spec_decode_inst(spec_encode_inst(i) + rest) == Some(
                (i, spec_encode_inst(i).len() as int),
            ));
        },
        Inst::SysCall(a) => {
            assert(spec_decode_inst(spec_encode_inst(i) + rest) == Some(
                (i, spec_encode_inst(i).len() as int),
            ));
        },
        _ => {},
    }
}

/// Round trip of one instruction of this operand shape, against any tail.
proof fn lemma_dec_enc_f(i: Inst, rest: Seq<u8>)
    requires
        i is PushD || i is PopD,
    ensures
        spec_decode_inst(spec_encode_inst(i) + rest) == Some(
            (i, spec_encode_inst(i).len() as int),
        ),
{
    lemma_reg_roundtrip_all();
    match i {
        Inst::PushD(a) => {
            assert(spec_decode_inst(spec_encode_inst(i) + rest) == Some(
                (i, spec_encode_inst(i).len() as int),
            ));
        },
        Inst::PopD(a) => {
            assert(spec_decode_inst(spec_encode_inst(i) + rest) == Some(
                (i, spec_encode_inst(i).len() as int),
            ));
        },
        _ => {},
    }
}

/// Decoding a byte stream that starts with the encoding of an instruction
/// yields exactly that instruction and consumes exactly its bytes,
/// whatever follows.
pub proof fn lemma_decode_encode_inst(i: Inst, rest: Seq<u8>)
    ensures
        spec_decode_inst(spec_encode_inst(i) + rest) == Some(
            (i, spec_encode_inst(i).len() as int),
        ),
{
    match i {
        Inst::Nop => lemma_dec_enc_none(i, rest),
        Inst::Ret => lemma_dec_enc_none(i, rest),
        Inst::Halt => lemma_dec_enc_none(i, rest),
        Inst::MU(_, _) => lemma_dec_enc_ui(i, rest),
        Inst::AddUI(_, _) => lemma_dec_enc_ui(i, rest),
        Inst::SubUI(_, _) => lemma_dec_enc_ui(i, rest),
        Inst::MD(_, _) => lemma_dec_enc_fi(i, rest),
        Inst::AddDI(_, _) => lemma_dec_enc_fi(i, rest),
        Inst::SubDI(_, _) => lemma_dec_enc_fi(i, rest),
        Inst::MovU(_, _) => lemma_dec_enc_uu(i, rest),
        Inst::Not(_, _) => lemma_dec_enc_uu(i, rest),
        Inst::NegU(_, _) => lemma_dec_enc_uu(i, rest),
        Inst::Shl(_, _) => lemma_dec_enc_uu(i, rest),
        Inst::Shr(_, _) => lemma_dec_enc_uu(i, rest),
        Inst::LoadUH(_, _) => lemma_dec_enc_uu(i, rest),
        Inst::LoadUS(_, _) => lemma_dec_enc_uu(i, rest),
        Inst::StoreUH(_, _) => lemma_dec_enc_uu(i, rest),
        Inst::StoreUS(_, _) => lemma_dec_enc_uu(i, rest),
        Inst::Jz(_, _) => lemma_dec_enc_uu(i, rest),
        Inst::Jnz(_, _) => lemma_dec_enc_uu(i, rest),
        Inst::InU(_, _) => lemma_dec_enc_uu(i, rest),
        Inst::OutU(_, _) => lemma_dec_enc_uu(i, rest),
        Inst::MovD(_, _) => lemma_dec_enc_ff(i, rest),
        Inst::NegD(_, _) => lemma_dec_enc_ff(i, rest),
        Inst::Mod(_, _, _) => lemma_dec_enc_uuu(i, rest),
        Inst::AddU(_, _, _) => lemma_dec_enc_uuu(i, rest),
        Inst::SubU(_, _, _) => lemma_dec_enc_uuu(i, rest),
        Inst::MulU(_, _, _) => lemma_dec_enc_uuu(i, rest),
        Inst::DivU(_, _, _) => lemma_dec_enc_uuu(i, rest),
        Inst::And(_, _, _) => lemma_dec_enc_uuu(i, rest),
        Inst::Or(_, _, _) => lemma_dec_enc_uuu(i, rest),
        Inst::Xor(_, _, _) => lemma_dec_enc_uuu(i, rest),
        Inst::Je(_, _, _) => lemma_dec_enc_uuu(i, rest),
        Inst::Jne(_, _, _) => lemma_dec_enc_uuu(i, rest),
        Inst::AddD(_, _, _) => lemma_dec_enc_fff(i, rest),
        Inst::SubD(_, _, _) => lemma_dec_enc_fff(i, rest),
        Inst::MulD(_, _, _) => lemma_dec_enc_fff(i, rest),
        Inst::DivD(_, _, _) => lemma_dec_enc_fff(i, rest),
        Inst::LoadDH(_, _) => lemma_dec_enc_fu(i, rest),
        Inst::LoadDS(_, _) => lemma_dec_enc_fu(i, rest),
        Inst::StoreDH(_, _) => lemma_dec_enc_fu(i, rest),
        Inst::StoreDS(_, _) => lemma_dec_enc_fu(i, rest),
        Inst::InD(_, _) => lemma_dec_enc_fu(i, rest),
        Inst::OutD(_, _) => lemma_dec_enc_fu(i, rest),
        Inst::Jo(_) => lemma_dec_enc_u(i, rest),
        Inst::Jno(_) => lemma_dec_enc_u(i, rest),
        Inst::Jmp(_) => lemma_dec_enc_u(i, rest),
        Inst::PushU(_) => lemma_dec_enc_u(i, rest),
        Inst::PopU(_) => lemma_dec_enc_u(i, rest),
        Inst::Call(_) => lemma_dec_enc_u(i, rest),
        Inst::SysCall(_) => lemma_dec_enc_u(i, rest),
        Inst::PushD(_) => lemma_dec_enc_f(i, rest),
        Inst::PopD(_) => lemma_dec_enc_f(i, rest),
    }
}

/// Byte image of a whole instruction sequence: the concatenation of the
/// images of its instructions.
pub open spec fn spec_encode(s: Seq<Inst>) -> Seq<u8>
    decreases s.len(),
{
    if s.len() == 0 {
        Seq::empty()
    } else {
        spec_encode_inst(s[0]) + spec_encode(s.skip(1))
    }
}

/// Instruction sequence read from a byte stream, or nothing where the
/// stream is not the exact image of one.
pub open spec fn spec_decode(b: Seq<u8>) -> Option<Seq<Inst>>
    decreases b.len(),
{
    if b.len() == 0 {
        Some(Seq::empty())
    } else {
        match spec_decode_inst(b) {
            None => None,
            Some((i, n)) => if 1 <= n <= b.len() {
                match spec_decode(b.skip(n)) {
                    None => None,
                    Some(t) => Some(seq![i] + t),
                }
            } else {
                None
            },
        }
    }
}

/// Appending one instruction appends its byte image.
pub proof fn lemma_encode_snoc(s: Seq<Inst>, i: Inst)
    ensures
        spec_encode(s.push(i)) == spec_encode(s) + spec_encode_inst(i),
    decreases s.len(),
{
    if s.len() == 0 {
        let t = s.push(i);
        assert(t.len() == 1);
        assert(t[0] == i);
        assert(t.skip(1) =~= Seq::<Inst>::empty());
        assert(spec_encode(t.skip(1)) == Seq::<u8>::empty());
        assert(spec_encode(t) == spec_encode_inst(i) + spec_encode(t.skip(1)));
        assert(spec_encode_inst(i) + Seq::<u8>::empty() =~= spec_encode_inst(i));
        assert(spec_encode(s) == Seq::<u8>::empty());
        assert(Seq::<u8>::empty() + spec_encode_inst(i) =~= spec_encode_inst(i));
    } else {
        assert(s.push(i)[0] == s[0]);
        assert(s.push(i).skip(1) =~= s.skip(1).push(i));
        lemma_encode_snoc(s.skip(1), i);
        assert(spec_encode(s.push(i)) =~= spec_encode(s) + spec_encode_inst(i));
    }
}

/// The round-trip law: decoding the encoding of any instruction sequence
/// gives that sequence back, for every representable sequence.
pub proof fn lemma_round_trip(s: Seq<Inst>)
    ensures
        spec_decode(spec_encode(s)) == Some(s),
    decreases s.len(),
{
    if s.len() == 0 {
    } else {
        let e0 = spec_encode_inst(s[0]);
        let erest = spec_encode(s.skip(1));
        let b = spec_encode(s);
        lemma_encode_inst_len(s[0]);
        lemma_decode_encode_inst(s[0], erest);
        assert(b == e0 + erest);
        assert(b.len() >= 1);
        assert(spec_decode_inst(b) == Some((s[0], e0.len() as int)));
        assert(b.skip(e0.len() as int) =~= erest);
        lemma_round_trip(s.skip(1));
        assert(seq![s[0]] + s.skip(1) =~= s);
    }
}

/// Byte encoding a word-bank register name.
fn ureg_byte(r: UsizeReg) -> (b: u8)
    ensures
        b == enc_ureg(r),
{
    match r {
        UsizeReg::U1 => 0,
        UsizeReg::U2 => 1,
        UsizeReg::U3 => 2,
        UsizeReg::U4 => 3,
        UsizeReg::U5 => 4,
        UsizeReg::U6 => 5,
        UsizeReg::U7 => 6,
        UsizeReg::U8 => 7,
    }
}

/// Byte encoding a float-bank register name.
fn freg_byte(r: F64Reg) -> (b: u8)
    ensures
        b == enc_freg(r),
{
    match r {
        F64Reg::F1 => 0,
        F64Reg::F2 => 1,
        F64Reg::F3 => 2,
        F64Reg::F4 => 3,
        F64Reg::F5 => 4,
        F64Reg::F6 => 5,
        F64Reg::F7 => 6,
        F64Reg::F8 => 7,
    }
}

/// Word-bank register named by a byte, if any.
fn parse_ureg(b: u8) -> (r: Option<UsizeReg>)
    ensures
        r == dec_ureg(b),
{
    match b {
        0 => Some(UsizeReg::U1),
        1 => Some(UsizeReg::U2),
        2 => Some(UsizeReg::U3),
        3 => Some(UsizeReg::U4),
        4 => Some(UsizeReg::U5),
        5 => Some(UsizeReg::U6),
        6 => Some(UsizeReg::U7),
        7 => Some(UsizeReg::U8),
        _ => None,
    }
}

/// Float-bank register named by a byte, if any.
fn parse_freg(b: u8) -> (r: Option<F64Reg>)
    ensures
        r == dec_freg(b),
{
    match b {
        0 => Some(F64Reg::F1),
        1 => Some(F64Reg::F2),
        2 => Some(F64Reg::F3),
        3 => Some(F64Reg::F4),
        4 => Some(F64Reg::F5),
        5 => Some(F64Reg::F6),
        6 => Some(F64Reg::F7),
        7 => Some(F64Reg::F8),
        _ => None,
    }
}

/// Appends the little-endian byte image of a 64-bit value.
fn push_u64(out: &mut Vec<u8>, v: u64)
    ensures
        final(out)@ == old(out)@ + enc_u64(v),
{
    out.push((v & 0xff) as u8);
    out.push(((v >> 8) & 0xff) as u8);
    out.push(((v >> 16) & 0xff) as u8);
    out.push(((v >> 24) & 0xff) as u8);
    out.push(((v >> 32) & 0xff) as u8);
    out.push(((v >> 40) & 0xff) as u8);
    out.push(((v >> 48) & 0xff) as u8);
    out.push(((v >> 56) & 0xff) as u8);
    proof {
        assert(out@ =~= old(out)@ + enc_u64(v));
    }
}

/// Reads a 64-bit value little-endian from eight bytes starting at `p`.
fn read_u64_at(bytes: &[u8], p: usize) -> (v: u64)
    requires
        p + 8 <= bytes@.len(),
    ensures
        v == dec_u64_at(bytes@, p as int),
{
    (bytes[p] as u64) | ((bytes[p + 1] as u64) << 8) | ((bytes[p + 2] as u64) << 16) | ((bytes[p
        + 3] as u64) << 24) | ((bytes[p + 4] as u64) << 32) | ((bytes[p + 5] as u64) << 40) | ((
    bytes[p + 6] as u64) << 48) | ((bytes[p + 7] as u64) << 56)
}

/// Appends the byte image of one instruction of its group.
#[verifier::rlimit(100)]
fn encode_inst_g0(i: Inst, out: &mut Vec<u8>)
    requires
        i is Nop || i is MU || i is MD || i is MovU || i is MovD || i is Mod || i is AddU || i is AddUI || i is AddD || i is AddDI || i is SubU || i is SubUI || i is SubD || i is SubDI,
    ensures
        final(out)@ == old(out)@ + spec_encode_inst(i),
{
    match i {
        Inst::Nop => {
            out.push(0u8);
            proof {
                assert(out@ =~= old(out)@ + spec_encode_inst(i));
            }
        },
        Inst::MU(r, w) => {
            out.push(1u8);
            out.push(ureg_byte(r));
            push_u64(out, w as u64);
            proof {
                assert(out@ =~= old(out)@ + spec_encode_inst(i));
            }
        },
        Inst::MD(r, v) => {
            out.push(2u8);
            out.push(freg_byte(r));
            push_u64(out, v);
            proof {
                assert(out@ =~= old(out)@ + spec_encode_inst(i));
            }
        },
        Inst::MovU(a, b) => {
            out.push(3u8);
            out.push(ureg_byte(a));
            out.push(ureg_byte(b));
            proof {
                assert(out@ =~= old(out)@ + spec_encode_inst(i));
            }
        },
        Inst::MovD(a, b) => {
            out.push(4u8);
            out.push(freg_byte(a));
            out.push(freg_byte(b));
            proof {
                assert(out@ =~= old(out)@ + spec_encode_inst(i));
            }
        },
        Inst::Mod(a, b, c) => {
            out.push(5u8);
            out.push(ureg_byte(a));
            out.push(ureg_byte(b));
            out.push(ureg_byte(c));
            proof {
                assert(out@ =~= old(out)@ + spec_encode_inst(i));
            }
        },
        Inst::AddU(a, b, c) => {
            out.push(6u8);
            out.push(ureg_byte(a));
            out.push(ureg_byte(b));
            out.push(ureg_byte(c));
            proof {
                assert(out@ =~= old(out)@ + spec_encode_inst(i));
            }
        },
        Inst::AddUI(r, w) => {
            out.push(7u8);
            out.push(ureg_byte(r));
            push_u64(out, w as u64);
            proof {
                assert(out@ =~= old(out)@ + spec_encode_inst(i));
            }
        },
        Inst::AddD(a, b, c) => {
            out.push(8u8);
            out.push(freg_byte(a));
            out.push(freg_byte(b));
            out.push(freg_byte(c));
            proof {
                assert(out@ =~= old(out)@ + spec_encode_inst(i));
            }
        },
        Inst::AddDI(r, v) => {
            out.push(9u8);
            out.push(freg_byte(r));
            push_u64(out, v);
            proof {
                assert(out@ =~= old(out)@ + spec_encode_inst(i));
            }
        },
        Inst::SubU(a, b, c) => {
            out.push(10u8);
            out.push(ureg_byte(a));
            out.push(ureg_byte(b));
            out.push(ureg_byte(c));
            proof {
                assert(out@ =~= old(out)@ + spec_encode_inst(i));
            }
        },
        Inst::SubUI(r, w) => {
            out.push(11u8);
            out.push(ureg_byte(r));
            push_u64(out, w as u64);
            proof {
                assert(out@ =~= old(out)@ + spec_encode_inst(i));
            }
        },
        Inst::SubD(a, b, c) => {
            out.push(12u8);
            out.push(freg_byte(a));
            out.push(freg_byte(b));
            out.push(freg_byte(c));
            proof {
                assert(out@ =~= old(out)@ + spec_encode_inst(i));
            }
        },
        Inst::SubDI(r, v) => {
            out.push(13u8);
            out.push(freg_byte(r));
            push_u64(out, v);
            proof {
                assert(out@ =~= old(out)@ + spec_encode_inst(i));
            }
        },
        _ => {
        },
    }
}

/// Appends the byte image of one instruction of its group.
#[verifier::rlimit(100)]
fn encode_inst_g1(i: Inst, out: &mut Vec<u8>)
    requires
        i is MulU || i is MulD || i is DivU || i is DivD || i is And || i is Or || i is Xor || i is Not || i is NegU || i is NegD || i is Shl || i is Shr || i is LoadUH || i is LoadDH,
    ensures
        final(out)@ == old(out)@ + spec_encode_inst(i),
{
    match i {
        Inst::MulU(a, b, c) => {
            out.push(14u8);
            out.push(ureg_byte(a));
            out.push(ureg_byte(b));
            out.push(ureg_byte(c));
            proof {
                assert(out@ =~= old(out)@ + spec_encode_inst(i));
            }
        },
        Inst::MulD(a, b, c) => {
            out.push(15u8);
            out.push(freg_byte(a));
            out.push(freg_byte(b));
            out.push(freg_byte(c));
            proof {
                assert(out@ =~= old(out)@ + spec_encode_inst(i));
            }
        },
        Inst::DivU(a, b, c) => {
            out.push(16u8);
            out.push(ureg_byte(a));
            out.push(ureg_byte(b));
            out.push(ureg_byte(c));
            proof {
                assert(out@ =~= old(out)@ + spec_encode_inst(i));
            }
        },
        Inst::DivD(a, b, c) => {
            out.push(17u8);
            out.push(freg_byte(a));
            out.push(freg_byte(b));
            out.push(freg_byte(c));
            proof {
                assert(out@ =~= old(out)@ + spec_encode_inst(i));
            }
        },
        Inst::And(a, b, c) => {
            out.push(18u8);
            out.push(ureg_byte(a));
            out.push(ureg_byte(b));
            out.push(ureg_byte(c));
            proof {
                assert(out@ =~= old(out)@ + spec_encode_inst(i));
            }
        },
        Inst::Or(a, b, c) => {
            out.push(19u8);
            out.push(ureg_byte(a));
            out.push(ureg_byte(b));
            out.push(ureg_byte(c));
            proof {
                assert(out@ =~= old(out)@ + spec_encode_inst(i));
            }
        },
        Inst::Xor(a, b, c) => {
            out.push(20u8);
            out.push(ureg_byte(a));
            out.push(ureg_byte(b));
            out.push(ureg_byte(c));
            proof {
                assert(out@ =~= old(out)@ + spec_encode_inst(i));
            }
        },
        Inst::Not(a, b) => {
            out.push(21u8);
            out.push(ureg_byte(a));
            out.push(ureg_byte(b));
            proof {
                assert(out@ =~= old(out)@ + spec_encode_inst(i));
            }
        },
        Inst::NegU(a, b) => {
            out.push(22u8);
            out.push(ureg_byte(a));
            out.push(ureg_byte(b));
            proof {
                assert(out@ =~= old(out)@ + spec_encode_inst(i));
            }
        },
        Inst::NegD(a, b) => {
            out.push(23u8);
            out.push(freg_byte(a));
            out.push(freg_byte(b));
            proof {
                assert(out@ =~= old(out)@ + spec_encode_inst(i));
            }
        },
        Inst::Shl(a, b) => {
            out.push(24u8);
            out.push(ureg_byte(a));
            out.push(ureg_byte(b));
            proof {
                assert(out@ =~= old(out)@ + spec_encode_inst(i));
            }
        },
        Inst::Shr(a, b) => {
            out.push(25u8);
            out.push(ureg_byte(a));
            out.push(ureg_byte(b));
            proof {
                assert(out@ =~= old(out)@ + spec_encode_inst(i));
            }
        },
        Inst::LoadUH(a, b) => {
            out.push(26u8);
            out.push(ureg_byte(a));
            out.push(ureg_byte(b));
            proof {
                assert(out@ =~= old(out)@ + spec_encode_inst(i));
            }
        },
        Inst::LoadDH(a, b) => {
            out.push(27u8);
            out.push(freg_byte(a));
            out.push(ureg_byte(b));
            proof {
                assert(out@ =~= old(out)@ + spec_encode_inst(i));
            }
        },
        _ => {
        },
    }
}

/// Appends the byte image of one instruction of its group.
#[verifier::rlimit(100)]
fn encode_inst_g2(i: Inst, out: &mut Vec<u8>)
    requires
        i is LoadUS || i is LoadDS || i is StoreUH || i is StoreDH || i is StoreUS || i is StoreDS || i is Jo || i is Jno || i is Je || i is Jne || i is Jz || i is Jnz || i is Jmp || i is PushU,
    ensures
        final(out)@ == old(out)@ + spec_encode_inst(i),
{
    match i {
        Inst::LoadUS(a, b) => {
            out.push(28u8);
            out.push(ureg_byte(a));
            out.push(ureg_byte(b));
            proof {
                assert(out@ =~= old(out)@ + spec_encode_inst(i));
            }
        },
        Inst::LoadDS(a, b) => {
            out.push(29u8);
            out.push(freg_byte(a));
            out.push(ureg_byte(b));
            proof {
                assert(out@ =~= old(out)@ + spec_encode_inst(i));
            }
        },
        Inst::StoreUH(a, b) => {
            out.push(30u8);
            out.push(ureg_byte(a));
            out.push(ureg_byte(b));
            proof {
                assert(out@ =~= old(out)@ + spec_encode_inst(i));
            }
        },
        Inst::StoreDH(a, b) => {
            out.push(31u8);
            out.push(freg_byte(a));
            out.push(ureg_byte(b));
            proof {
                assert(out@ =~= old(out)@ + spec_encode_inst(i));
            }
        },
        Inst::StoreUS(a, b) => {
            out.push(32u8);
            out.push(ureg_byte(a));
            out.push(ureg_byte(b));
            proof {
                assert(out@ =~= old(out)@ + spec_encode_inst(i));
            }
        },
        Inst::StoreDS(a, b) => {
            out.push(33u8);
            out.push(freg_byte(a));
            out.push(ureg_byte(b));
            proof {
                assert(out@ =~= old(out)@ + spec_encode_inst(i));
            }
        },
        Inst::Jo(a) => {
            out.push(34u8);
            out.push(ureg_byte(a));
            proof {
                assert(out@ =~= old(out)@ + spec_encode_inst(i));
            }
        },
        Inst::Jno(a) => {
            out.push(35u8);
            out.push(ureg_byte(a));
            proof {
                assert(out@ =~= old(out)@ + spec_encode_inst(i));
            }
        },
        Inst::Je(a, b, c) => {
            out.push(36u8);
            out.push(ureg_byte(a));
            out.push(ureg_byte(b));
            out.push(ureg_byte(c));
            proof {
                assert(out@ =~= old(out)@ + spec_encode_inst(i));
            }
        },
        Inst::Jne(a, b, c) => {
            out.push(37u8);
            out.push(ureg_byte(a));
            out.push(ureg_byte(b));
            out.push(ureg_byte(c));
            proof {
                assert(out@ =~= old(out)@ + spec_encode_inst(i));
            }
        },
        Inst::Jz(a, b) => {
            out.push(38u8);
            out.push(ureg_byte(a));
            out.push(ureg_byte(b));
            proof {
                assert(out@ =~= old(out)@ + spec_encode_inst(i));
            }
        },
        Inst::Jnz(a, b) => {
            out.push(39u8);
            out.push(ureg_byte(a));
            out.push(ureg_byte(b));
            proof {
                assert(out@ =~= old(out)@ + spec_encode_inst(i));
            }
        },
        Inst::Jmp(a) => {
            out.push(40u8);
            out.push(ureg_byte(a));
            proof {
                assert(out@ =~= old(out)@ + spec_encode_inst(i));
            }
        },
        Inst::PushU(a) => {
            out.push(41u8);
            out.push(ureg_byte(a));
            proof {
                assert(out@ =~= old(out)@ + spec_encode_inst(i));
            }
        },
        _ => {
        },
    }
}

/// Appends the byte image of one instruction of its group.
#[verifier::rlimit(100)]
fn encode_inst_g3(i: Inst, out: &mut Vec<u8>)
    requires
        i is PushD || i is PopU || i is PopD || i is Call || i is SysCall || i is InU || i is InD || i is OutU || i is OutD || i is Ret || i is Halt,
    ensures
        final(out)@ == old(out)@ + spec_encode_inst(i),
{
    match i {
        Inst::PushD(a) => {
            out.push(42u8);
            out.push(freg_byte(a));
            proof {
                assert(out@ =~= old(out)@ + spec_encode_inst(i));
            }
        },
        Inst::PopU(a) => {
            out.push(43u8);
            out.push(ureg_byte(a));
            proof {
                assert(out@ =~= old(out)@ + spec_encode_inst(i));
            }
        },
        Inst::PopD(a) => {
            out.push(44u8);
            out.push(freg_byte(a));
            proof {
                assert(out@ =~= old(out)@ + spec_encode_inst(i));
            }
        },
        Inst::Call(a) => {
            out.push(45u8);
            out.push(ureg_byte(a));
            proof {
                assert(out@ =~= old(out)@ + spec_encode_inst(i));
            }
        },
        Inst::SysCall(a) => {
            out.push(46u8);
            out.push(ureg_byte(a));
            proof {
                assert(out@ =~= old(out)@ + spec_encode_inst(i));
            }
        },
        Inst::InU(a, b) => {
            out.push(47u8);
            out.push(ureg_byte(a));
            out.push(ureg_byte(b));
            proof {
                assert(out@ =~= old(out)@ + spec_encode_inst(i));
            }
        },
        Inst::InD(a, b) => {
            out.push(48u8);
            out.push(freg_byte(a));
            out.push(ureg_byte(b));
            proof {
                assert(out@ =~= old(out)@ + spec_encode_inst(i));
            }
        },
        Inst::OutU(a, b) => {
            out.push(49u8);
            out.push(ureg_byte(a));
            out.push(ureg_byte(b));
            proof {
                assert(out@ =~= old(out)@ + spec_encode_inst(i));
            }
        },
        Inst::OutD(a, b) => {
            out.push(50u8);
            out.push(freg_byte(a));
            out.push(ureg_byte(b));
            proof {
                assert(out@ =~= old(out)@ + spec_encode_inst(i));
            }
        },
        Inst::Ret => {
            out.push(51u8);
            proof {
                assert(out@ =~= old(out)@ + spec_encode_inst(i));
            }
        },
        Inst::Halt => {
            out.push(52u8);
            proof {
                assert(out@ =~= old(out)@ + spec_encode_inst(i));
            }
        },
        _ => {
        },
    }
}

/// Appends the byte image of one instruction.
fn encode_inst(i: Inst, out: &mut Vec<u8>)
    ensures
        final(out)@ == old(out)@ + spec_encode_inst(i),
{
    match i {
        Inst::Nop => encode_inst_g0(i, out),
        Inst::MU(_, _) => encode_inst_g0(i, out),
        Inst::MD(_, _) => encode_inst_g0(i, out),
        Inst::MovU(_, _) => encode_inst_g0(i, out),
        Inst::MovD(_, _) => encode_inst_g0(i, out),
        Inst::Mod(_, _, _) => encode_inst_g0(i, out),
        Inst::AddU(_, _, _) => encode_inst_g0(i, out),
        Inst::AddUI(_, _) => encode_inst_g0(i, out),
        Inst::AddD(_, _, _) => encode_inst_g0(i, out),
        Inst::AddDI(_, _) => encode_inst_g0(i, out),
        Inst::SubU(_, _, _) => encode_inst_g0(i, out),
        Inst::SubUI(_, _) => encode_inst_g0(i, out),
        Inst::SubD(_, _, _) => encode_inst_g0(i, out),
        Inst::SubDI(_, _) => encode_inst_g0(i, out),
        Inst::MulU(_, _, _) => encode_inst_g1(i, out),
        Inst::MulD(_, _, _) => encode_inst_g1(i, out),
        Inst::DivU(_, _, _) => encode_inst_g1(i, out),
        Inst::DivD(_, _, _) => encode_inst_g1(i, out),
        Inst::And(_, _, _) => encode_inst_g1(i, out),
        Inst::Or(_, _, _) => encode_inst_g1(i, out),
        Inst::Xor(_, _, _) => encode_inst_g1(i, out),
        Inst::Not(_, _) => encode_inst_g1(i, out),
        Inst::NegU(_, _) => encode_inst_g1(i, out),
        Inst::NegD(_, _) => encode_inst_g1(i, out),
        Inst::Shl(_, _) => encode_inst_g1(i, out),
        Inst::Shr(_, _) => encode_inst_g1(i, out),
        Inst::LoadUH(_, _) => encode_inst_g1(i, out),
        Inst::LoadDH(_, _) => encode_inst_g1(i, out),
        Inst::LoadUS(_, _) => encode_inst_g2(i, out),
        Inst::LoadDS(_, _) => encode_inst_g2(i, out),
        Inst::StoreUH(_, _) => encode_inst_g2(i, out),
        Inst::StoreDH(_, _) => encode_inst_g2(i, out),
        Inst::StoreUS(_, _) => encode_inst_g2(i, out),
        Inst::StoreDS(_, _) => encode_inst_g2(i, out),
        Inst::Jo(_) => encode_inst_g2(i, out),
        Inst::Jno(_) => encode_inst_g2(i, out),
        Inst::Je(_, _, _) => encode_inst_g2(i, out),
        Inst::Jne(_, _, _) => encode_inst_g2(i, out),
        Inst::Jz(_, _) => encode_inst_g2(i, out),
        Inst::Jnz(_, _) => encode_inst_g2(i, out),
        Inst::Jmp(_) => encode_inst_g2(i, out),
        Inst::PushU(_) => encode_inst_g2(i, out),
        Inst::PushD(_) => encode_inst_g3(i, out),
        Inst::PopU(_) => encode_inst_g3(i, out),
        Inst::PopD(_) => encode_inst_g3(i, out),
        Inst::Call(_) => encode_inst_g3(i, out),
        Inst::SysCall(_) => encode_inst_g3(i, out),
        Inst::InU(_, _) => encode_inst_g3(i, out),
        Inst::InD(_, _) => encode_inst_g3(i, out),
        Inst::OutU(_, _) => encode_inst_g3(i, out),
        Inst::OutD(_, _) => encode_inst_g3(i, out),
        Inst::Ret => encode_inst_g3(i, out),
        Inst::Halt => encode_inst_g3(i, out),
    }
}

/// Reads the instruction starting at `pos`, with its byte count.
#[verifier::rlimit(100)]
fn decode_inst(bytes: &[u8], pos: usize) -> (r: Result<(Inst, usize), CodecErr>)
    requires
        pos < bytes@.len(),
    ensures
        (match r {
            Ok(p) => spec_decode_inst(bytes@.skip(pos as int)) == Some((p.0, p.1 as int))
                && 1 <= p.1 && pos + p.1 <= bytes@.len(),
            Err(_) => spec_decode_inst(bytes@.skip(pos as int)) is None,
        }),
{
    let n = bytes.len();
    let op = bytes[pos];
    match op {
        0 => Ok((Inst::Nop, 1)),
        1 => {
            if n - pos < 10 {
                Err(CodecErr::Truncated)
            } else {
                match parse_ureg(bytes[pos + 1]) {
                    Some(a) => {
                        let w = read_u64_at(bytes, pos + 2);
                        if w <= usize::MAX as u64 {
                            Ok((Inst::MU(a, w as usize), 10))
                        } else {
                            Err(CodecErr::BadImmediate)
                        }
                    },
                    None => Err(CodecErr::BadReg),
                }
            }
        },
        2 => {
            if n - pos < 10 {
                Err(CodecErr::Truncated)
            } else {
                match parse_freg(bytes[pos + 1]) {
                    Some(a) => {
                        let v = read_u64_at(bytes, pos + 2);
                        Ok((Inst::MD(a, v), 10))
                    },
                    None => Err(CodecErr::BadReg),
                }
            }
        },
        3 => {
            if n - pos < 3 {
                Err(CodecErr::Truncated)
            } else {
                match (parse_ureg(bytes[pos + 1]), parse_ureg(bytes[pos + 2])) {
                    (Some(a), Some(b)) => Ok((Inst::MovU(a, b), 3)),
                    _ => Err(CodecErr::BadReg),
                }
            }
        },
        4 => {
            if n - pos < 3 {
                Err(CodecErr::Truncated)
            } else {
                match (parse_freg(bytes[pos + 1]), parse_freg(bytes[pos + 2])) {
                    (Some(a), Some(b)) => Ok((Inst::MovD(a, b), 3)),
                    _ => Err(CodecErr::BadReg),
                }
            }
        },
        5 => {
            if n - pos < 4 {
                Err(CodecErr::Truncated)
            } else {
                match (parse_ureg(bytes[pos + 1]), parse_ureg(bytes[pos + 2]), parse_ureg(bytes[pos + 3])) {
                    (Some(a), Some(b), Some(c)) => Ok((Inst::Mod(a, b, c), 4)),
                    _ => Err(CodecErr::BadReg),
                }
            }
        },
        6 => {
            if n - pos < 4 {
                Err(CodecErr::Truncated)
            } else {
                match (parse_ureg(bytes[pos + 1]), parse_ureg(bytes[pos + 2]), parse_ureg(bytes[pos + 3])) {
                    (Some(a), Some(b), Some(c)) => Ok((Inst::AddU(a, b, c), 4)),
                    _ => Err(CodecErr::BadReg),
                }
            }
        },
        7 => {
            if n - pos < 10 {
                Err(CodecErr::Truncated)
            } else {
                match parse_ureg(bytes[pos + 1]) {
                    Some(a) => {
                        let w = read_u64_at(bytes, pos + 2);
                        if w <= usize::MAX as u64 {
                            Ok((Inst::AddUI(a, w as usize), 10))
                        } else {
                            Err(CodecErr::BadImmediate)
                        }
                    },
                    None => Err(CodecErr::BadReg),
                }
            }
        },
        8 => {
            if n - pos < 4 {
                Err(CodecErr::Truncated)
            } else {
                match (parse_freg(bytes[pos + 1]), parse_freg(bytes[pos + 2]), parse_freg(bytes[pos + 3])) {
                    (Some(a), Some(b), Some(c)) => Ok((Inst::AddD(a, b, c), 4)),
                    _ => Err(CodecErr::BadReg),
                }
            }
        },
        9 => {
            if n - pos < 10 {
                Err(CodecErr::Truncated)
            } else {
                match parse_freg(bytes[pos + 1]) {
                    Some(a) => {
                        let v = read_u64_at(bytes, pos + 2);
                        Ok((Inst::AddDI(a, v), 10))
                    },
                    None => Err(CodecErr::BadReg),
                }
            }
        },
        10 => {
            if n - pos < 4 {
                Err(CodecErr::Truncated)
            } else {
                match (parse_ureg(bytes[pos + 1]), parse_ureg(bytes[pos + 2]), parse_ureg(bytes[pos + 3])) {
                    (Some(a), Some(b), Some(c)) => Ok((Inst::SubU(a, b, c), 4)),
                    _ => Err(CodecErr::BadReg),
                }
            }
        },
        11 => {
            if n - pos < 10 {
                Err(CodecErr::Truncated)
            } else {
                match parse_ureg(bytes[pos + 1]) {
                    Some(a) => {
                        let w = read_u64_at(bytes, pos + 2);
                        if w <= usize::MAX as u64 {
                            Ok((Inst::SubUI(a, w as usize), 10))
                        } else {
                            Err(CodecErr::BadImmediate)
                        }
                    },
                    None => Err(CodecErr::BadReg),
                }
            }
        },
        12 => {
            if n - pos < 4 {
                Err(CodecErr::Truncated)
            } else {
                match (parse_freg(bytes[pos + 1]), parse_freg(bytes[pos + 2]), parse_freg(bytes[pos + 3])) {
                    (Some(a), Some(b), Some(c)) => Ok((Inst::SubD(a, b, c), 4)),
                    _ => Err(CodecErr::BadReg),
                }
            }
        },
        13 => {
            if n - pos < 10 {
                Err(CodecErr::Truncated)
            } else {
                match parse_freg(bytes[pos + 1]) {
                    Some(a) => {
                        let v = read_u64_at(bytes, pos + 2);
                        Ok((Inst::SubDI(a, v), 10))
                    },
                    None => Err(CodecErr::BadReg),
                }
            }
        },
        14 => {
            if n - pos < 4 {
                Err(CodecErr::Truncated)
            } else {
                match (parse_ureg(bytes[pos + 1]), parse_ureg(bytes[pos + 2]), parse_ureg(bytes[pos + 3])) {
                    (Some(a), Some(b), Some(c)) => Ok((Inst::MulU(a, b, c), 4)),
                    _ => Err(CodecErr::BadReg),
                }
            }
        },
        15 => {
            if n - pos < 4 {
                Err(CodecErr::Truncated)
            } else {
                match (parse_freg(bytes[pos + 1]), parse_freg(bytes[pos + 2]), parse_freg(bytes[pos + 3])) {
                    (Some(a), Some(b), Some(c)) => Ok((Inst::MulD(a, b, c), 4)),
                    _ => Err(CodecErr::BadReg),
                }
            }
        },
        16 => {
            if n - pos < 4 {
                Err(CodecErr::Truncated)
            } else {
                match (parse_ureg(bytes[pos + 1]), parse_ureg(bytes[pos + 2]), parse_ureg(bytes[pos + 3])) {
                    (Some(a), Some(b), Some(c)) => Ok((Inst::DivU(a, b, c), 4)),
                    _ => Err(CodecErr::BadReg),
                }
            }
        },
        17 => {
            if n - pos < 4 {
                Err(CodecErr::Truncated)
            } else {
                match (parse_freg(bytes[pos + 1]), parse_freg(bytes[pos + 2]), parse_freg(bytes[pos + 3])) {
                    (Some(a), Some(b), Some(c)) => Ok((Inst::DivD(a, b, c), 4)),
                    _ => Err(CodecErr::BadReg),
                }
            }
        },
        18 => {
            if n - pos < 4 {
                Err(CodecErr::Truncated)
            } else {
                match (parse_ureg(bytes[pos + 1]), parse_ureg(bytes[pos + 2]), parse_ureg(bytes[pos + 3])) {
                    (Some(a), Some(b), Some(c)) => Ok((Inst::And(a, b, c), 4)),
                    _ => Err(CodecErr::BadReg),
                }
            }
        },
        19 => {
            if n - pos < 4 {
                Err(CodecErr::Truncated)
            } else {
                match (parse_ureg(bytes[pos + 1]), parse_ureg(bytes[pos + 2]), parse_ureg(bytes[pos + 3])) {
                    (Some(a), Some(b), Some(c)) => Ok((Inst::Or(a, b, c), 4)),
                    _ => Err(CodecErr::BadReg),
                }
            }
        },
        20 => {
            if n - pos < 4 {
                Err(CodecErr::Truncated)
            } else {
                match (parse_ureg(bytes[pos + 1]), parse_ureg(bytes[pos + 2]), parse_ureg(bytes[pos + 3])) {
                    (Some(a), Some(b), Some(c)) => Ok((Inst::Xor(a, b, c), 4)),
                    _ => Err(CodecErr::BadReg),
                }
            }
        },
        21 => {
            if n - pos < 3 {
                Err(CodecErr::Truncated)
            } else {
                match (parse_ureg(bytes[pos + 1]), parse_ureg(bytes[pos + 2])) {
                    (Some(a), Some(b)) => Ok((Inst::Not(a, b), 3)),
                    _ => Err(CodecErr::BadReg),
                }
            }
        },
        22 => {
            if n - pos < 3 {
                Err(CodecErr::Truncated)
            } else {
                match (parse_ureg(bytes[pos + 1]), parse_ureg(bytes[pos + 2])) {
                    (Some(a), Some(b)) => Ok((Inst::NegU(a, b), 3)),
                    _ => Err(CodecErr::BadReg),
                }
            }
        },
        23 => {
            if n - pos < 3 {
                Err(CodecErr::Truncated)
            } else {
                match (parse_freg(bytes[pos + 1]), parse_freg(bytes[pos + 2])) {
                    (Some(a), Some(b)) => Ok((Inst::NegD(a, b), 3)),
                    _ => Err(CodecErr::BadReg),
                }
            }
        },
        24 => {
            if n - pos < 3 {
                Err(CodecErr::Truncated)
            } else {
                match (parse_ureg(bytes[pos + 1]), parse_ureg(bytes[pos + 2])) {
                    (Some(a), Some(b)) => Ok((Inst::Shl(a, b), 3)),
                    _ => Err(CodecErr::BadReg),
                }
            }
        },
        25 => {
            if n - pos < 3 {
                Err(CodecErr::Truncated)
            } else {
                match (parse_ureg(bytes[pos + 1]), parse_ureg(bytes[pos + 2])) {
                    (Some(a), Some(b)) => Ok((Inst::Shr(a, b), 3)),
                    _ => Err(CodecErr::BadReg),
                }
            }
        },
        26 => {
            if n - pos < 3 {
                Err(CodecErr::Truncated)
            } else {
                match (parse_ureg(bytes[pos + 1]), parse_ureg(bytes[pos + 2])) {
                    (Some(a), Some(b)) => Ok((Inst::LoadUH(a, b), 3)),
                    _ => Err(CodecErr::BadReg),
                }
            }
        },
        27 => {
            if n - pos < 3 {
                Err(CodecErr::Truncated)
            } else {
                match (parse_freg(bytes[pos + 1]), parse_ureg(bytes[pos + 2])) {
                    (Some(a), Some(b)) => Ok((Inst::LoadDH(a, b), 3)),
                    _ => Err(CodecErr::BadReg),
                }
            }
        },
        28 => {
            if n - pos < 3 {
                Err(CodecErr::Truncated)
            } else {
                match (parse_ureg(bytes[pos + 1]), parse_ureg(bytes[pos + 2])) {
                    (Some(a), Some(b)) => Ok((Inst::LoadUS(a, b), 3)),
                    _ => Err(CodecErr::BadReg),
                }
            }
        },
        29 => {
            if n - pos < 3 {
                Err(CodecErr::Truncated)
            } else {
                match (parse_freg(bytes[pos + 1]), parse_ureg(bytes[pos + 2])) {
                    (Some(a), Some(b)) => Ok((Inst::LoadDS(a, b), 3)),
                    _ => Err(CodecErr::BadReg),
                }
            }
        },
        30 => {
            if n - pos < 3 {
                Err(CodecErr::Truncated)
            } else {
                match (parse_ureg(bytes[pos + 1]), parse_ureg(bytes[pos + 2])) {
                    (Some(a), Some(b)) => Ok((Inst::StoreUH(a, b), 3)),
                    _ => Err(CodecErr::BadReg),
                }
            }
        },
        31 => {
            if n - pos < 3 {
                Err(CodecErr::Truncated)
            } else {
                match (parse_freg(bytes[pos + 1]), parse_ureg(bytes[pos + 2])) {
                    (Some(a), Some(b)) => Ok((Inst::StoreDH(a, b), 3)),
                    _ => Err(CodecErr::BadReg),
                }
            }
        },
        32 => {
            if n - pos < 3 {
                Err(CodecErr::Truncated)
            } else {
                match (parse_ureg(bytes[pos + 1]), parse_ureg(bytes[pos + 2])) {
                    (Some(a), Some(b)) => Ok((Inst::StoreUS(a, b), 3)),
                    _ => Err(CodecErr::BadReg),
                }
            }
        },
        33 => {
            if n - pos < 3 {
                Err(CodecErr::Truncated)
            } else {
                match (parse_freg(bytes[pos + 1]), parse_ureg(bytes[pos + 2])) {
                    (Some(a), Some(b)) => Ok((Inst::StoreDS(a, b), 3)),
                    _ => Err(CodecErr::BadReg),
                }
            }
        },
        34 => {
            if n - pos < 2 {
                Err(CodecErr::Truncated)
            } else {
                match parse_ureg(bytes[pos + 1]) {
                    Some(a) => Ok((Inst::Jo(a), 2)),
                    None => Err(CodecErr::BadReg),
                }
            }
        },
        35 => {
            if n - pos < 2 {
                Err(CodecErr::Truncated)
            } else {
                match parse_ureg(bytes[pos + 1]) {
                    Some(a) => Ok((Inst::Jno(a), 2)),
                    None => Err(CodecErr::BadReg),
                }
            }
        },
        36 => {
            if n - pos < 4 {
                Err(CodecErr::Truncated)
            } else {
                match (parse_ureg(bytes[pos + 1]), parse_ureg(bytes[pos + 2]), parse_ureg(bytes[pos + 3])) {
                    (Some(a), Some(b), Some(c)) => Ok((Inst::Je(a, b, c), 4)),
                    _ => Err(CodecErr::BadReg),
                }
            }
        },
        37 => {
            if n - pos < 4 {
                Err(CodecErr::Truncated)
            } else {
                match (parse_ureg(bytes[pos + 1]), parse_ureg(bytes[pos + 2]), parse_ureg(bytes[pos + 3])) {
                    (Some(a), Some(b), Some(c)) => Ok((Inst::Jne(a, b, c), 4)),
                    _ => Err(CodecErr::BadReg),
                }
            }
        },
        38 => {
            if n - pos < 3 {
                Err(CodecErr::Truncated)
            } else {
                match (parse_ureg(bytes[pos + 1]), parse_ureg(bytes[pos + 2])) {
                    (Some(a), Some(b)) => Ok((Inst::Jz(a, b), 3)),
                    _ => Err(CodecErr::BadReg),
                }
            }
        },
        39 => {
            if n - pos < 3 {
                Err(CodecErr::Truncated)
            } else {
                match (parse_ureg(bytes[pos + 1]), parse_ureg(bytes[pos + 2])) {
                    (Some(a), Some(b)) => Ok((Inst::Jnz(a, b), 3)),
                    _ => Err(CodecErr::BadReg),
                }
            }
        },
        40 => {
            if n - pos < 2 {
                Err(CodecErr::Truncated)
            } else {
                match parse_ureg(bytes[pos + 1]) {
                    Some(a) => Ok((Inst::Jmp(a), 2)),
                    None => Err(CodecErr::BadReg),
                }
            }
        },
        41 => {
            if n - pos < 2 {
                Err(CodecErr::Truncated)
            } else {
                match parse_ureg(bytes[pos + 1]) {
                    Some(a) => Ok((Inst::PushU(a), 2)),
                    None => Err(CodecErr::BadReg),
                }
            }
        },
        42 => {
            if n - pos < 2 {
                Err(CodecErr::Truncated)
            } else {
                match parse_freg(bytes[pos + 1]) {
                    Some(a) => Ok((Inst::PushD(a), 2)),
                    None => Err(CodecErr::BadReg),
                }
            }
        },
        43 => {
            if n - pos < 2 {
                Err(CodecErr::Truncated)
            } else {
                match parse_ureg(bytes[pos + 1]) {
                    Some(a) => Ok((Inst::PopU(a), 2)),
                    None => Err(CodecErr::BadReg),
                }
            }
        },
        44 => {
            if n - pos < 2 {
                Err(CodecErr::Truncated)
            } else {
                match parse_freg(bytes[pos + 1]) {
                    Some(a) => Ok((Inst::PopD(a), 2)),
                    None => Err(CodecErr::BadReg),
                }
            }
        },
        45 => {
            if n - pos < 2 {
                Err(CodecErr::Truncated)
            } else {
                match parse_ureg(bytes[pos + 1]) {
                    Some(a) => Ok((Inst::Call(a), 2)),
                    None => Err(CodecErr::BadReg),
                }
            }
        },
        46 => {
            if n - pos < 2 {
                Err(CodecErr::Truncated)
            } else {
                match parse_ureg(bytes[pos + 1]) {
                    Some(a) => Ok((Inst::SysCall(a), 2)),
                    None => Err(CodecErr::BadReg),
                }
            }
        },
        47 => {
            if n - pos < 3 {
                Err(CodecErr::Truncated)
            } else {
                match (parse_ureg(bytes[pos + 1]), parse_ureg(bytes[pos + 2])) {
                    (Some(a), Some(b)) => Ok((Inst::InU(a, b), 3)),
                    _ => Err(CodecErr::BadReg),
                }
            }
        },
        48 => {
            if n - pos < 3 {
                Err(CodecErr::Truncated)
            } else {
                match (parse_freg(bytes[pos + 1]), parse_ureg(bytes[pos + 2])) {
                    (Some(a), Some(b)) => Ok((Inst::InD(a, b), 3)),
                    _ => Err(CodecErr::BadReg),
                }
            }
        },
        49 => {
            if n - pos < 3 {
                Err(CodecErr::Truncated)
            } else {
                match (parse_ureg(bytes[pos + 1]), parse_ureg(bytes[pos + 2])) {
                    (Some(a), Some(b)) => Ok((Inst::OutU(a, b), 3)),
                    _ => Err(CodecErr::BadReg),
                }
            }
        },
        50 => {
            if n - pos < 3 {
                Err(CodecErr::Truncated)
            } else {
                match (parse_freg(bytes[pos + 1]), parse_ureg(bytes[pos + 2])) {
                    (Some(a), Some(b)) => Ok((Inst::OutD(a, b), 3)),
                    _ => Err(CodecErr::BadReg),
                }
            }
        },
        51 => Ok((Inst::Ret, 1)),
        52 => Ok((Inst::Halt, 1)),
        _ => Err(CodecErr::BadOpcode),
    }
}

/// Serializes an instruction sequence into its byte image.
///
/// Encoding cannot fail: every representable instruction has an image,
/// and the result is exactly [`spec_encode`] of the input.
pub fn serde_code(code: &Vec<Inst>) -> (r: Result<Vec<u8>, CodecErr>)
    ensures
        (match r {
            Ok(bytes) => bytes@ == spec_encode(code@),
            Err(_) => false,
        }),
{
    let mut out: Vec<u8> = Vec::new();
    let mut k: usize = 0;
    while k < code.len()
        invariant
            k <= code@.len(),
            out@ == spec_encode(code@.take(k as int)),
        decreases code@.len() - k,
    {
        encode_inst(code[k], &mut out);
        proof {
            lemma_encode_snoc(code@.take(k as int), code@[k as int]);
            assert(code@.take(k as int).push(code@[k as int]) =~= code@.take(k as int + 1));
        }
        k = k + 1;
    }
    proof {
        assert(code@.take(code@.len() as int) =~= code@);
    }
    Ok(out)
}

/// Deserializes a byte image back into the instruction sequence it
/// encodes, or reports a fault where the bytes are the image of none.
pub fn de_serde_code(code: &[u8]) -> (r: Result<Vec<Inst>, CodecErr>)
    ensures
        (match r {
            Ok(v) => spec_decode(code@) == Some(v@),
            Err(_) => spec_decode(code@) is None,
        }),
{
    let n = code.len();
    let mut out: Vec<Inst> = Vec::new();
    let mut pos: usize = 0;
    proof {
        assert(code@.skip(0) =~= code@);
        if spec_decode(code@) is Some {
            assert(Seq::<Inst>::empty() + spec_decode(code@).unwrap() =~= spec_decode(
                code@,
            ).unwrap());
        }
    }
    while pos < n
        invariant
            pos <= n,
            n == code@.len(),
            spec_decode(code@) == (match spec_decode(code@.skip(pos as int)) {
                None => None::<Seq<Inst>>,
                Some(t) => Some(out@ + t),
            }),
        decreases n - pos,
    {
        match decode_inst(code, pos) {
            Err(e) => {
                return Err(e);
            },
            Ok((i, len)) => {
                proof {
                    let rest = code@.skip(pos as int);
                    assert(code@.skip(pos as int).skip(len as int) =~= code@.skip(
                        pos as int + len as int,
                    ));
                    if spec_decode(code@.skip(pos as int + len as int)) is Some {
                        let t = spec_decode(code@.skip(pos as int + len as int)).unwrap();
                        assert(spec_decode(rest) == Some(seq![i] + t));
                        assert(out@ + (seq![i] + t) =~= out@.push(i) + t);
                    }
                }
                out.push(i);
                pos = pos + len;
            },
        }
    }
    proof {
        assert(code@.skip(n as int) =~= Seq::<u8>::empty());
        assert(spec_decode(code@.skip(n as int)) == Some(Seq::<Inst>::empty()));
        assert(out@ + Seq::<Inst>::empty() =~= out@);
    }
    Ok(out)
}

} // verus!

