use vstd::prelude::*;
use crate::regs::Flags;

verus! {

/// The eight accumulator operations selected by bits 3..5 of an ALU opcode.
#[derive(Clone, Copy, Debug, PartialEq, Eq, Structural)]
pub enum AluOp {
    Add,
    Adc,
    Sub,
    Sbc,
    And,
    Xor,
    Or,
    Cp,
}

/// Flags from four booleans.
pub open spec fn fl(z: bool, n: bool, h: bool, c: bool) -> Flags {
    Flags { zero: z, sub: n, half: h, carry: c }
}

/// The documented result and flags of `op` on accumulator `a`, operand `b`
/// and incoming carry `cin`. For `Cp` the result is `a` itself.
pub open spec fn alu_spec(op: AluOp, a: u8, b: u8, cin: bool) -> (u8, Flags) {
    let ci: int = if cin { 1 } else { 0 };
    match op {
        AluOp::Add => {
            let r = (a + b) % 256;
            (r as u8, fl(r == 0, false, a % 16 + b % 16 > 15, a + b > 255))
        },
        AluOp::Adc => {
            let r = (a + b + ci) % 256;
            (r as u8, fl(r == 0, false, a % 16 + b % 16 + ci > 15, a + b + ci > 255))
        },
        AluOp::Sub => {
            let r = (a - b + 256) % 256;
            (r as u8, fl(r == 0, true, a % 16 < b % 16, a < b))
        },
        AluOp::Sbc => {
            let r = (a - b - ci + 512) % 256;
            (r as u8, fl(r == 0, true, a % 16 < b % 16 + ci, a < b + ci))
        },
        AluOp::And => ((a & b), fl((a & b) == 0, false, true, false)),
        AluOp::Xor => ((a ^ b), fl((a ^ b) == 0, false, false, false)),
        AluOp::Or => ((a | b), fl((a | b) == 0, false, false, false)),
        AluOp::Cp => (a, fl(a == b, true, a % 16 < b % 16, a < b)),
    }
}

/// The operation encoded by bits 3..5 of an opcode.
pub open spec fn alu_op_of_spec(k: u8) -> AluOp {
    if k % 8 == 0 {
        AluOp::Add
    } else if k % 8 == 1 {
        AluOp::Adc
    } else if k % 8 == 2 {
        AluOp::Sub
    } else if k % 8 == 3 {
        AluOp::Sbc
    } else if k % 8 == 4 {
        AluOp::And
    } else if k % 8 == 5 {
        AluOp::Xor
    } else if k % 8 == 6 {
        AluOp::Or
    } else {
        AluOp::Cp
    }
}

/// Decodes the accumulator operation from bits 3..5 of an opcode.
pub fn alu_op_of(k: u8) -> (r: AluOp)
    ensures
        r == alu_op_of_spec(k),
{
    let m: u8 = k % 8;
    if m == 0 {
        AluOp::Add
    } else if m == 1 {
        AluOp::Adc
    } else if m == 2 {
        AluOp::Sub
    } else if m == 3 {
        AluOp::Sbc
    } else if m == 4 {
        AluOp::And
    } else if m == 5 {
        AluOp::Xor
    } else if m == 6 {
        AluOp::Or
    } else {
        AluOp::Cp
    }
}

/// Applies an accumulator operation and computes its flags.
pub fn alu(op: AluOp, a: u8, b: u8, cin: bool) -> (r: (u8, Flags))
    ensures
        r == alu_spec(op, a, b, cin),
{
    let ci: u16 = if cin { 1 } else { 0 };
    let a16: u16 = a as u16;
    let b16: u16 = b as u16;
    match op {
        AluOp::Add => {
            let r: u16 = (a16 + b16) % 256;
            (r as u8, Flags { zero: r == 0, sub: false, half: a16 % 16 + b16 % 16 > 15, carry: a16 + b16 > 255 })
        },
        AluOp::Adc => {
            let r: u16 = (a16 + b16 + ci) % 256;
            (r as u8, Flags { zero: r == 0, sub: false, half: a16 % 16 + b16 % 16 + ci > 15, carry: a16 + b16 + ci > 255 })
        },
        AluOp::Sub => {
            let r: u16 = (a16 + 256 - b16) % 256;
            (r as u8, Flags { zero: r == 0, sub: true, half: a16 % 16 < b16 % 16, carry: a16 < b16 })
        },
        AluOp::Sbc => {
            let r: u16 = (a16 + 512 - b16 - ci) % 256;
            (r as u8, Flags { zero: r == 0, sub: true, half: a16 % 16 < b16 % 16 + ci, carry: a16 < b16 + ci })
        },
        AluOp::And => (a & b, Flags { zero: (a & b) == 0, sub: false, half: true, carry: false }),
        AluOp::Xor => (a ^ b, Flags { zero: (a ^ b) == 0, sub: false, half: false, carry: false }),
        AluOp::Or => (a | b, Flags { zero: (a | b) == 0, sub: false, half: false, carry: false }),
        AluOp::Cp => (a, Flags { zero: a == b, sub: true, half: a16 % 16 < b16 % 16, carry: a16 < b16 }),
    }
}

/// INC r: the carry flag is left as it was.
pub open spec fn inc_spec(a: u8, f: Flags) -> (u8, Flags) {
    let r = (a + 1) % 256;
    (r as u8, fl(r == 0, false, a % 16 == 15, f.carry))
}

/// DEC r: the carry flag is left as it was.
pub open spec fn dec_spec(a: u8, f: Flags) -> (u8, Flags) {
    let r = (a + 255) % 256;
    (r as u8, fl(r == 0, true, a % 16 == 0, f.carry))
}

/// INC on an 8-bit value.
pub fn inc8(a: u8, f: Flags) -> (r: (u8, Flags))
    ensures
        r == inc_spec(a, f),
{
    let r: u8 = a.wrapping_add(1);
    (r, Flags { zero: r == 0, sub: false, half: a % 16 == 15, carry: f.carry })
}

/// DEC on an 8-bit value.
pub fn dec8(a: u8, f: Flags) -> (r: (u8, Flags))
    ensures
        r == dec_spec(a, f),
{
    let r: u8 = a.wrapping_sub(1);
    (r, Flags { zero: r == 0, sub: true, half: a % 16 == 0, carry: f.carry })
}

/// The rotate, shift and swap operations of the extended table (bits 3..5 of
/// a 0xCB-prefixed opcode below 0x40).
pub open spec fn shift_spec(k: u8, v: u8, cin: bool) -> (u8, Flags) {
    let ci: int = if cin { 1 } else { 0 };
    let w: int = v as int;
    let top: int = w / 128;
    let bot: int = w % 2;
    let r: int = if k % 8 == 0 {
        (w * 2) % 256 + top
    } else if k % 8 == 1 {
        w / 2 + bot * 128
    } else if k % 8 == 2 {
        (w * 2) % 256 + ci
    } else if k % 8 == 3 {
        w / 2 + ci * 128
    } else if k % 8 == 4 {
        (w * 2) % 256
    } else if k % 8 == 5 {
        w / 2 + top * 128
    } else if k % 8 == 6 {
        (w % 16) * 16 + w / 16
    } else {
        w / 2
    };
    let c: bool = if k % 8 == 0 || k % 8 == 2 || k % 8 == 4 {
        top == 1
    } else if k % 8 == 6 {
        false
    } else {
        bot == 1
    };
    (r as u8, fl(r == 0, false, false, c))
}

/// A rotate, shift or swap of the extended table.
pub fn shift(k: u8, v: u8, cin: bool) -> (r: (u8, Flags))
    ensures
        r == shift_spec(k, v, cin),
{
    let ci: u16 = if cin { 1 } else { 0 };
    let v16: u16 = v as u16;
    let top: u16 = v16 / 128;
    let bot: u16 = v16 % 2;
    let m: u8 = k % 8;
    let r: u16 = if m == 0 {
        (v16 * 2) % 256 + top
    } else if m == 1 {
        v16 / 2 + bot * 128
    } else if m == 2 {
        (v16 * 2) % 256 + ci
    } else if m == 3 {
        v16 / 2 + ci * 128
    } else if m == 4 {
        (v16 * 2) % 256
    } else if m == 5 {
        v16 / 2 + top * 128
    } else if m == 6 {
        (v16 % 16) * 16 + v16 / 16
    } else {
        v16 / 2
    };
    let c: bool = if m == 0 || m == 2 || m == 4 {
        top == 1
    } else if m == 6 {
        false
    } else {
        bot == 1
    };
    (r as u8, Flags { zero: r == 0, sub: false, half: false, carry: c })
}

/// ADD HL, rr: the zero flag is left as it was.
pub open spec fn add16_spec(hl: u16, v: u16, f: Flags) -> (u16, Flags) {
    (((hl + v) % 65536) as u16, fl(f.zero, false, hl % 4096 + v % 4096 > 4095, hl + v > 65535))
}

/// ADD HL, rr.
pub fn add16(hl: u16, v: u16, f: Flags) -> (r: (u16, Flags))
    ensures
        r == add16_spec(hl, v, f),
{
    let s: u32 = hl as u32 + v as u32;
    ((s % 65536) as u16, Flags { zero: f.zero, sub: false, half: hl % 4096 + v % 4096 > 4095, carry: s > 65535 })
}

} // verus!
