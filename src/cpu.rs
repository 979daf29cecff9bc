use vstd::prelude::*;
use crate::alu::{alu, alu_op_of, alu_op_of_spec, alu_spec, dec8, dec_spec, inc8, inc_spec};
use crate::bus::{MemoryBus, IF_ADDR};
use crate::cartridge::{mbc_of, Cartridge, FormatError, CART_TYPE_ADDR, HEADER_SIZE};
use crate::ppu::{
    advance_pos, bit_at, extra_for, stat_source, lemma_advance_split, LINE_CYCLES, lemma_frame_enters_vblank, lemma_line_entries_small, vblank_entries, Ppu, PpuMode,
    FRAME_CYCLES, SCREEN_HEIGHT, SCREEN_WIDTH, OAM_SCAN_CYCLES, PIXEL_TRANSFER_CYCLES, VBLANK_CYCLES, VISIBLE_LINES,
};
use vstd::arithmetic::div_mod::lemma_mod_bound;
use crate::sprite::{lemma_shade_same, pixel_shade};
use crate::sync::{hblank_point, lemma_drawn_step, lemma_passes_empty, lemma_start_step, line_drawn, passes, stat_fired};
use vstd::arithmetic::div_mod::lemma_small_mod;
use crate::regs::{bit_mask, bit_value, compose, high_of, low_of, Flags, Pair, Registers};

verus! {

/// The CPU with the memory bus, PPU and cartridge it owns.
pub struct Cpu {
    pub regs: Registers,
    /// Master interrupt enable.
    pub ime: bool,
    pub halted: bool,
    /// Set by an illegal opcode: the CPU stops fetching for good.
    pub locked_up: bool,
    pub bus: MemoryBus,
}

/// The register pair with operand index `k` in the LD/INC/DEC/ADD group
/// (BC, DE, HL; 3 is SP and handled apart).
pub open spec fn pair_of_spec(k: u8) -> Pair {
    if k == 0 {
        Pair::BC
    } else if k == 1 {
        Pair::DE
    } else {
        Pair::HL
    }
}

/// The PPU's position in the frame is the same in both states.
pub open spec fn timing_kept(a: Cpu, b: Cpu) -> bool {
    a.bus.ppu.ly == b.bus.ppu.ly && a.bus.ppu.dot == b.bus.ppu.dot && a.bus.ppu.draw_extra == b.bus.ppu.draw_extra
}

/// The operand with index `i` in state (`r`, `b`).
pub open spec fn operand(r: Registers, b: MemoryBus, i: u8) -> u8 {
    if i == 6 {
        b.read_spec(r.pair_spec(Pair::HL))
    } else {
        r.r8_spec(i)
    }
}

/// The registers with PC moved on by `n` bytes.
pub open spec fn pc_plus(r: Registers, n: int) -> Registers {
    Registers { pc: ((r.pc + n) % 65536) as u16, ..r }
}

/// Register pair `k` of the LD/INC/DEC/ADD group: BC, DE, HL, SP.
pub open spec fn rr_spec(r: Registers, k: u8) -> u16 {
    if k < 3 {
        r.pair_spec(pair_of_spec(k))
    } else {
        r.sp
    }
}

/// The registers after writing pair `k` of the LD/INC/DEC/ADD group.
pub open spec fn with_rr(r: Registers, k: u8, v: u16) -> Registers {
    if k < 3 {
        r.with_pair(pair_of_spec(k), v)
    } else {
        Registers { sp: v, ..r }
    }
}

/// Bus `b1` is bus `b0` after pushing `v` with SP at `sp`: the high byte
/// written at SP-1, then the low byte at SP-2.
pub open spec fn pushed(b0: MemoryBus, b1: MemoryBus, sp: u16, v: u16) -> bool {
    exists|m: MemoryBus|
        crate::bus::written(b0, m, ((sp + 65535) % 65536) as u16, high_of(v)) && #[trigger] crate::bus::written(
            m,
            b1,
            ((sp + 65534) % 65536) as u16,
            low_of(v),
        )
}

/// Bus `b1` is bus `b0` after storing `v` little-endian at `a`: the low
/// byte at `a`, then the high byte at `a + 1`.
pub open spec fn stored16(b0: MemoryBus, b1: MemoryBus, a: u16, v: u16) -> bool {
    exists|m: MemoryBus|
        crate::bus::written(b0, m, a, low_of(v)) && #[trigger] crate::bus::written(
            m,
            b1,
            ((a + 1) % 65536) as u16,
            high_of(v),
        )
}

/// PC after a relative jump by the signed displacement `e` from `pc`.
pub open spec fn rel_target(pc: u16, e: u8) -> u16 {
    ((pc + e + (if e < 128 { 0int } else { -256 }) + 65536) % 65536) as u16
}

/// A and the flags after DAA.
pub open spec fn daa_spec(a: u8, f: Flags) -> (u8, Flags) {
    let lo: int = if f.half || (!f.sub && a % 16 > 9) { 6 } else { 0 };
    let hi: int = if f.carry || (!f.sub && a > 0x99) { 0x60 } else { 0 };
    let r: int = if f.sub { (a - lo - hi + 256) % 256 } else { (a + lo + hi) % 256 };
    (r as u8, Flags { zero: r == 0, sub: f.sub, half: false, carry: f.carry || (!f.sub && a > 0x99) })
}

/// What an opcode below 0x40 does, from registers `r` and bus `b` with PC
/// past the opcode, for the opcodes whose effect is stated here.
pub open spec fn block0_post(r: Registers, b: MemoryBus, post: Cpu, op: u8, cycles: u32) -> bool {
    if op < 0x40 && 4 <= op % 8 <= 6 {
        r8_post(r, b, post, op, cycles)
    } else if op < 0x40 && (op % 16 == 1 || op % 16 == 3 || op % 16 == 9 || op % 16 == 0xB) {
        rr_post(r, b, post, op, cycles)
    } else {
        misc0_post(r, b, post, op, cycles)
    }
}

/// INC r, DEC r and LD r,n8 on a register operand.
pub open spec fn r8_post(r: Registers, b: MemoryBus, post: Cpu, op: u8, cycles: u32) -> bool {
    let y = (op / 8) % 8;
    let fl = crate::regs::flags_of(r.f);
    &&& op < 0x40 && op % 8 == 6 && y != 6 ==> post.regs == pc_plus(r, 1).with_r8(y, b.read_spec(r.pc))
        && post.bus == b && cycles == 8
    &&& op < 0x40 && op % 8 == 4 && y != 6 ==> ({
        let (v, f) = inc_spec(r.r8_spec(y), fl);
        post.regs == (Registers { f: f.byte(), ..r.with_r8(y, v) }) && post.bus == b && cycles == 4
    })
    &&& op < 0x40 && op % 8 == 5 && y != 6 ==> ({
        let (v, f) = dec_spec(r.r8_spec(y), fl);
        post.regs == (Registers { f: f.byte(), ..r.with_r8(y, v) }) && post.bus == b && cycles == 4
    })
    &&& op == 0x34 ==> ({
        let hl = r.pair_spec(Pair::HL);
        let (v, f) = inc_spec(b.read_spec(hl), fl);
        post.regs == (Registers { f: f.byte(), ..r }) && crate::bus::written(b, post.bus, hl, v) && cycles == 12
    })
    &&& op == 0x35 ==> ({
        let hl = r.pair_spec(Pair::HL);
        let (v, f) = dec_spec(b.read_spec(hl), fl);
        post.regs == (Registers { f: f.byte(), ..r }) && crate::bus::written(b, post.bus, hl, v) && cycles == 12
    })
    &&& op == 0x36 ==> post.regs == pc_plus(r, 1) && crate::bus::written(
        b,
        post.bus,
        r.pair_spec(Pair::HL),
        b.read_spec(r.pc),
    ) && cycles == 12
}

/// LD rr,n16, INC rr, DEC rr and ADD HL,rr.
pub open spec fn rr_post(r: Registers, b: MemoryBus, post: Cpu, op: u8, cycles: u32) -> bool {
    let fl = crate::regs::flags_of(r.f);
    &&& op < 0x40 && op % 16 == 1 ==> post.regs == with_rr(
        pc_plus(r, 2),
        op / 16,
        compose(b.read_spec(((r.pc + 1) % 65536) as u16), b.read_spec(r.pc)),
    ) && post.bus == b && cycles == 12
    &&& op < 0x40 && op % 16 == 3 ==> post.regs == with_rr(r, op / 16, ((rr_spec(r, op / 16) + 1) % 65536) as u16)
        && post.bus == b && cycles == 8
    &&& op < 0x40 && op % 16 == 0xB ==> post.regs == with_rr(r, op / 16, ((rr_spec(r, op / 16) + 65535) % 65536) as u16)
        && post.bus == b && cycles == 8
    &&& op < 0x40 && op % 16 == 9 ==> ({
        let (v, f) = crate::alu::add16_spec(r.pair_spec(Pair::HL), rr_spec(r, op / 16), fl);
        post.regs == (Registers { f: f.byte(), ..r.with_pair(Pair::HL, v) }) && post.bus == b && cycles == 8
    })
}

/// The other opcodes below 0x40 whose effect is stated here.
pub open spec fn misc0_post(r: Registers, b: MemoryBus, post: Cpu, op: u8, cycles: u32) -> bool {
    let y = (op / 8) % 8;
    let fl = crate::regs::flags_of(r.f);
    &&& op == 0 ==> post.regs == r && post.bus == b && cycles == 4
    &&& op == 0x10 ==> post.regs == pc_plus(r, 1) && post.bus == b && cycles == 4
    &&& op == 0x08 ==> post.regs == pc_plus(r, 2) && stored16(
        b,
        post.bus,
        compose(b.read_spec(((r.pc + 1) % 65536) as u16), b.read_spec(r.pc)),
        r.sp,
    ) && cycles == 20
    &&& (op == 0x02 || op == 0x12) ==> post.regs == r && crate::bus::written(
        b,
        post.bus,
        r.pair_spec(pair_of_spec(op / 16)),
        r.a,
    ) && cycles == 8
    &&& (op == 0x22 || op == 0x32) ==> ({
        let hl = r.pair_spec(Pair::HL);
        let next = if op == 0x22 { ((hl + 1) % 65536) as u16 } else { ((hl + 65535) % 65536) as u16 };
        post.regs == r.with_pair(Pair::HL, next) && crate::bus::written(b, post.bus, hl, r.a) && cycles == 8
    })
    &&& (op == 0x2A || op == 0x3A) ==> ({
        let hl = r.pair_spec(Pair::HL);
        let next = if op == 0x2A { ((hl + 1) % 65536) as u16 } else { ((hl + 65535) % 65536) as u16 };
        post.regs == (Registers { a: b.read_spec(hl), ..r.with_pair(Pair::HL, next) }) && post.bus == b && cycles == 8
    })
    &&& (op == 0x0A || op == 0x1A) ==> post.regs == (Registers { a: b.read_spec(r.pair_spec(pair_of_spec(op / 16))), ..r })
        && post.bus == b && cycles == 8
    &&& op == 0x18 ==> post.regs == (Registers { pc: rel_target(pc_plus(r, 1).pc, b.read_spec(r.pc)), ..r })
        && post.bus == b && cycles == 12
    &&& (op == 0x20 || op == 0x28 || op == 0x30 || op == 0x38) ==> ({
        let taken = Cpu::cond_spec(fl, (y - 4) as u8);
        &&& post.regs == (Registers {
            pc: if taken { rel_target(pc_plus(r, 1).pc, b.read_spec(r.pc)) } else { pc_plus(r, 1).pc },
            ..r
        })
        &&& post.bus == b
        &&& cycles == (if taken { 12u32 } else { 8 })
    })
    &&& (op == 0x07 || op == 0x0F || op == 0x17 || op == 0x1F) ==> ({
        let (v, f) = crate::alu::shift_spec(y, r.a, fl.carry);
        post.regs == (Registers { a: v, f: crate::regs::flag_byte(false, f.sub, f.half, f.carry), ..r })
            && post.bus == b && cycles == 4
    })
    &&& op == 0x27 ==> ({
        let (v, f) = daa_spec(r.a, fl);
        post.regs == (Registers { a: v, f: f.byte(), ..r }) && post.bus == b && cycles == 4
    })
    &&& op == 0x2F ==> post.regs == (Registers { a: (255 - r.a) as u8, f: crate::regs::flag_byte(fl.zero, true, true, fl.carry), ..r })
        && post.bus == b && cycles == 4
    &&& op == 0x37 ==> post.regs == (Registers { f: crate::regs::flag_byte(fl.zero, false, false, true), ..r })
        && post.bus == b && cycles == 4
    &&& op == 0x3F ==> post.regs == (Registers { f: crate::regs::flag_byte(fl.zero, false, false, !fl.carry), ..r })
        && post.bus == b && cycles == 4
}

/// The pair of PUSH/POP with index `k`: BC, DE, HL, AF.
pub open spec fn stack_pair(k: u8) -> Pair {
    if k == 0 {
        Pair::BC
    } else if k == 1 {
        Pair::DE
    } else if k == 2 {
        Pair::HL
    } else {
        Pair::AF
    }
}

/// Jumps, calls, returns and stack opcodes from 0xC0 up, from registers
/// `r` and bus `b` with PC past the opcode.
pub open spec fn control_post(r: Registers, b: MemoryBus, post: Cpu, op: u8, cycles: u32) -> bool {
    let y = (op / 8) % 8;
    let fl = crate::regs::flags_of(r.f);
    let sp_down = ((r.sp + 65534) % 65536) as u16;
    let sp_up = ((r.sp + 2) % 65536) as u16;
    let imm16 = compose(b.read_spec(((r.pc + 1) % 65536) as u16), b.read_spec(r.pc));
    let popped = compose(b.read_spec(((r.sp + 1) % 65536) as u16), b.read_spec(r.sp));
    let taken = Cpu::cond_spec(fl, y);
    &&& op >= 0xC0 && op % 8 == 7 ==> post.regs == (Registers { pc: (y * 8) as u16, sp: sp_down, ..r }) && pushed(
        b,
        post.bus,
        r.sp,
        r.pc,
    ) && cycles == 16
    &&& op == 0xCD ==> post.regs == (Registers { pc: imm16, sp: sp_down, ..pc_plus(r, 2) }) && pushed(
        b,
        post.bus,
        r.sp,
        pc_plus(r, 2).pc,
    ) && cycles == 24
    &&& (op == 0xC4 || op == 0xCC || op == 0xD4 || op == 0xDC) ==> if taken {
        post.regs == (Registers { pc: imm16, sp: sp_down, ..pc_plus(r, 2) }) && pushed(b, post.bus, r.sp, pc_plus(r, 2).pc)
            && cycles == 24
    } else {
        post.regs == pc_plus(r, 2) && post.bus == b && cycles == 12
    }
    &&& (op == 0xC9 || op == 0xD9) ==> post.regs == (Registers { pc: popped, sp: sp_up, ..r }) && post.bus == b
        && cycles == 16
    &&& (op == 0xC0 || op == 0xC8 || op == 0xD0 || op == 0xD8) ==> if taken {
        post.regs == (Registers { pc: popped, sp: sp_up, ..r }) && post.bus == b && cycles == 20
    } else {
        post.regs == r && post.bus == b && cycles == 8
    }
    &&& op == 0xC3 ==> post.regs == (Registers { pc: imm16, ..r }) && post.bus == b && cycles == 16
    &&& (op == 0xC2 || op == 0xCA || op == 0xD2 || op == 0xDA) ==> post.bus == b && if taken {
        post.regs == (Registers { pc: imm16, ..r }) && cycles == 16
    } else {
        post.regs == pc_plus(r, 2) && cycles == 12
    }
    &&& op >= 0xC0 && op % 16 == 1 ==> post.regs == (Registers { sp: sp_up, ..r }).with_pair(stack_pair((op / 16) % 4), popped)
        && post.bus == b && cycles == 12
    &&& op >= 0xC0 && op % 16 == 5 ==> post.regs == (Registers { sp: sp_down, ..r }) && pushed(
        b,
        post.bus,
        r.sp,
        r.pair_spec(stack_pair((op / 16) % 4)),
    ) && cycles == 16
    &&& op == 0xE9 ==> post.regs == (Registers { pc: r.pair_spec(Pair::HL), ..r }) && post.bus == b && cycles == 4
}

/// The flags of ADD SP,e8 and LD HL,SP+e8: carries out of bits 3 and 7
/// of the unsigned low-byte addition.
pub open spec fn sp_plus_flags(sp: u16, e: u8) -> u8 {
    crate::regs::flag_byte(false, false, sp % 16 + e % 16 > 15, sp % 256 + e > 255)
}

/// Loads and stack-pointer arithmetic from 0xC0 up whose effect is stated here.
pub open spec fn misc3_post(r: Registers, b: MemoryBus, post: Cpu, op: u8, cycles: u32) -> bool {
    &&& op == 0xF9 ==> post.regs == (Registers { sp: r.pair_spec(Pair::HL), ..r }) && post.bus == b && cycles == 8
    &&& op == 0xE0 ==> post.regs == pc_plus(r, 1) && crate::bus::written(b, post.bus, (0xFF00 + b.read_spec(r.pc)) as u16, r.a)
        && cycles == 12
    &&& op == 0xE2 ==> post.regs == r && crate::bus::written(b, post.bus, (0xFF00 + r.c) as u16, r.a) && cycles == 8
    &&& op == 0xEA ==> post.regs == pc_plus(r, 2) && crate::bus::written(
        b,
        post.bus,
        compose(b.read_spec(((r.pc + 1) % 65536) as u16), b.read_spec(r.pc)),
        r.a,
    ) && cycles == 16
    &&& op == 0xF0 ==> post.regs == (Registers { a: b.read_spec((0xFF00 + b.read_spec(r.pc)) as u16), ..pc_plus(r, 1) })
        && post.bus == b && cycles == 12
    &&& op == 0xE8 ==> post.regs == (Registers {
        sp: rel_target(r.sp, b.read_spec(r.pc)),
        f: sp_plus_flags(r.sp, b.read_spec(r.pc)),
        ..pc_plus(r, 1)
    }) && post.bus == b && cycles == 16
    &&& op == 0xF8 ==> post.regs == (Registers { f: sp_plus_flags(r.sp, b.read_spec(r.pc)), ..pc_plus(r, 1) }).with_pair(
        Pair::HL,
        rel_target(r.sp, b.read_spec(r.pc)),
    ) && post.bus == b && cycles == 12
    &&& op == 0xF2 ==> post.regs == (Registers { a: b.read_spec((0xFF00 + r.c) as u16), ..r }) && post.bus == b
        && cycles == 8
    &&& op == 0xFA ==> post.regs == (Registers {
        a: b.read_spec(compose(b.read_spec(((r.pc + 1) % 65536) as u16), b.read_spec(r.pc))),
        ..pc_plus(r, 2)
    }) && post.bus == b && cycles == 16
}

/// What a 0xCB-prefixed opcode does on a register operand, from registers
/// `r` and bus `b` with PC at the second opcode byte.
pub open spec fn cb_post(r: Registers, b: MemoryBus, post: Cpu, cycles: u32) -> bool {
    let op = b.read_spec(r.pc);
    let z = op % 8;
    let y = (op / 8) % 8;
    let v = operand(r, b, z);
    let regs1 = pc_plus(r, 1);
    let carry = crate::regs::flags_of(r.f).carry;
    &&& z != 6 && op < 0x40 ==> ({
        let (res, f) = crate::alu::shift_spec(y, v, carry);
        post.regs == (Registers { f: f.byte(), ..regs1.with_r8(z, res) })
    })
    &&& z != 6 && 0x40 <= op < 0x80 ==> post.regs == (Registers {
        f: crate::regs::flag_byte((v as int / bit_value(y)) % 2 == 0, false, true, carry),
        ..regs1
    })
    &&& z != 6 && 0x80 <= op < 0xC0 ==> post.regs == regs1.with_r8(z, (v - ((v as int / bit_value(y)) % 2) * bit_value(y)) as u8)
    &&& z != 6 && 0xC0 <= op ==> post.regs == regs1.with_r8(z, (v + (1 - (v as int / bit_value(y)) % 2) * bit_value(y)) as u8)
    &&& z != 6 ==> post.bus == b
    &&& z == 6 && op < 0x40 ==> ({
        let (res, f) = crate::alu::shift_spec(y, v, carry);
        post.regs == (Registers { f: f.byte(), ..regs1 }) && crate::bus::written(b, post.bus, r.pair_spec(Pair::HL), res)
    })
    &&& z == 6 && 0x40 <= op < 0x80 ==> post.regs == (Registers {
        f: crate::regs::flag_byte((v as int / bit_value(y)) % 2 == 0, false, true, carry),
        ..regs1
    }) && post.bus == b
    &&& z == 6 && 0x80 <= op < 0xC0 ==> post.regs == regs1 && crate::bus::written(
        b,
        post.bus,
        r.pair_spec(Pair::HL),
        (v - ((v as int / bit_value(y)) % 2) * bit_value(y)) as u8,
    )
    &&& z == 6 && 0xC0 <= op ==> post.regs == regs1 && crate::bus::written(
        b,
        post.bus,
        r.pair_spec(Pair::HL),
        (v + (1 - (v as int / bit_value(y)) % 2) * bit_value(y)) as u8,
    )
    &&& cycles == (if z != 6 { 8u32 } else if 0x40 <= op < 0x80 { 12 } else { 16 })
}

/// What the opcode `op` does, from registers `r` and bus `b` with PC past
/// the opcode, for the opcodes whose effect is stated here.
pub open spec fn exec_post(
    r: Registers,
    b: MemoryBus,
    ime: bool,
    halted: bool,
    locked_up: bool,
    post: Cpu,
    op: u8,
    cycles: u32,
) -> bool {
    let y = (op / 8) % 8;
    let z = op % 8;
    let fl = crate::regs::flags_of(r.f);
    &&& block0_post(r, b, post, op, cycles)
    &&& 0x40 <= op < 0x80 && op != 0x76 && y != 6 ==> post.regs == r.with_r8(y, operand(r, b, z))
        && post.bus == b && cycles == (if z == 6 { 8u32 } else { 4 })
    &&& 0x70 <= op < 0x78 && op != 0x76 ==> post.regs == r && crate::bus::written(
        b,
        post.bus,
        r.pair_spec(Pair::HL),
        operand(r, b, z),
    ) && cycles == 8
    &&& op == 0x76 ==> post.halted && post.regs == r && post.bus == b && cycles == 4
    &&& 0x80 <= op < 0xC0 ==> ({
        let (v, f) = alu_spec(alu_op_of_spec(y), r.a, operand(r, b, z), fl.carry);
        post.regs == (Registers { a: v, f: f.byte(), ..r }) && post.bus == b && cycles == (if z == 6 { 8u32 } else { 4 })
    })
    &&& 0xC0 <= op && z == 6 ==> ({
        let (v, f) = alu_spec(alu_op_of_spec(y), r.a, b.read_spec(r.pc), fl.carry);
        post.regs == (Registers { a: v, f: f.byte(), ..pc_plus(r, 1) }) && post.bus == b && cycles == 8
    })
    &&& op == 0xCB ==> cb_post(r, b, post, cycles)
    &&& op != 0xCB ==> control_post(r, b, post, op, cycles) && misc3_post(r, b, post, op, cycles)
    &&& op == 0xF3 ==> !post.ime && post.regs == r && post.bus == b && cycles == 4
    &&& op == 0xFB ==> post.ime && post.regs == r && post.bus == b && cycles == 4
    &&& op == 0xD9 ==> post.ime
    &&& op != 0xF3 && op != 0xFB && op != 0xD9 ==> post.ime == ime
    &&& op != 0x76 ==> post.halted == halted
    &&& Cpu::illegal(op) ==> post.locked_up && post.regs == r && post.bus == b && cycles == 4
    &&& !Cpu::illegal(op) ==> post.locked_up == locked_up
}

/// The interrupt-flag value `v` with the V-Blank request (bit 0) and the
/// STAT request (bit 1) added where asked.
pub fn with_requests(v: u8, vblank: bool, stat: bool) -> (r: u8)
    ensures
        r == with_requests_spec(v, vblank, stat),
        vblank ==> r % 2 == 1,
        stat ==> (r / 2) % 2 == 1,
        v % 2 == 1 ==> r % 2 == 1,
        (v / 2) % 2 == 1 ==> (r / 2) % 2 == 1,
{
    let a: u8 = if vblank && v % 2 == 0 { v + 1 } else { v };
    assert((a / 2) % 2 == (v / 2) % 2);
    if stat && (a / 2) % 2 == 0 {
        assert(a <= 253);
        a + 2
    } else {
        a
    }
}

/// What one CPU step does, from `pre` to `post`, taking `cycles`.
#[verifier::opaque]
pub open spec fn step_post(pre: Cpu, post: Cpu, cycles: u32) -> bool {
    &&& timing_kept(pre, post)
    &&& 4 <= cycles <= 24
    &&& pre.locked_up ==> post.regs == pre.regs && post.bus == pre.bus
        && cycles == 4
    &&& !pre.locked_up && pre.ime && pre.pending_spec() != 0 ==> {
        let i = lowest_bit(pre.pending_spec());
        &&& post.regs == (Registers {
            pc: (0x40 + 8 * i) as u16,
            sp: ((pre.regs.sp + 65534) % 65536) as u16,
            ..pre.regs
        })
        &&& !post.ime
        &&& !post.halted
        &&& exists|m: MemoryBus|
            pushed(pre.bus, m, pre.regs.sp, pre.regs.pc) && #[trigger] crate::bus::written(
                m,
                post.bus,
                IF_ADDR,
                pre.bus.if_spec() & !(bit_value(i) as u8),
            )
        &&& post.bus.if_spec() == pre.bus.if_spec() & !(bit_value(i) as u8)
        &&& cycles == 20
    }
    &&& !pre.locked_up && pre.halted && pre.pending_spec() == 0
        ==> post.regs == pre.regs && post.bus == pre.bus && post.halted
        && cycles == 4
    &&& !pre.locked_up && !(pre.ime && pre.pending_spec() != 0) && !(pre.halted
        && pre.pending_spec() == 0) ==> exec_post(
        pc_plus(pre.regs, 1),
        pre.bus,
        pre.ime,
        false,
        false,
        post,
        pre.bus.read_spec(pre.regs.pc),
        cycles,
    )
}

/// The interrupt-flag value `v` with bit 0 set if `vblank` and bit 1 set
/// if `stat`.
pub open spec fn with_requests_spec(v: u8, vblank: bool, stat: bool) -> u8 {
    (v + (if vblank && v % 2 == 0 { 1int } else { 0 }) + (if stat && (v / 2) % 2 == 0 { 2int } else { 0 })) as u8
}

/// What `sync_ppu` does, from `pre` to `post`: the PPU moves `cycles` on;
/// every visible line whose H-blank entry the move reaches is drawn from the
/// registers, sprite memory and video RAM as they stand; and the V-Blank and
/// STAT interrupts are requested when the move raises them.
#[verifier::opaque]
pub open spec fn sync_post(pre: Cpu, post: Cpu, cycles: u32) -> bool {
    let p0 = pre.bus.ppu;
    let p1 = post.bus.ppu;
    let b = p0.pos() + cycles;
    let vb = vblank_entries(p0.pos(), cycles as int) > 0;
    let st = stat_fired(p0, b);
    &&& post.regs == pre.regs && post.ime == pre.ime && post.halted == pre.halted && post.locked_up == pre.locked_up
    &&& post.bus.cart == pre.bus.cart && post.bus.vram@ == pre.bus.vram@ && post.bus.wram@ == pre.bus.wram@
    &&& post.bus.hram@ == pre.bus.hram@ && post.bus.ie == pre.bus.ie
    &&& p1.pos() == advance_pos(p0.pos(), cycles as int)
    &&& p1.oam@ == p0.oam@ && p1.same_regs(p0)
    &&& p1.draw_extra == (if p0.dot + cycles >= LINE_CYCLES { p1.line_extra() } else { p0.draw_extra as int })
    &&& forall|l: int, x: int|
        0 <= l < VISIBLE_LINES && 0 <= x < SCREEN_WIDTH ==> #[trigger] p1.framebuffer@[l * SCREEN_WIDTH + x] == (
        if line_drawn(p0, b, l) {
            pixel_shade(p0, pre.bus.vram@, l, x)
        } else {
            p0.framebuffer@[l * SCREEN_WIDTH + x]
        })
    &&& post.bus.io@ == (if vb || st {
        pre.bus.io@.update(0x0F, with_requests_spec(pre.bus.io@[0x0F], vb, st))
    } else {
        pre.bus.io@
    })
}

/// The index of the lowest set bit of a nonzero value of five bits.
pub open spec fn lowest_bit(p: u8) -> u8 {
    if p % 2 == 1 {
        0
    } else if (p / 2) % 2 == 1 {
        1
    } else if (p / 4) % 2 == 1 {
        2
    } else if (p / 8) % 2 == 1 {
        3
    } else {
        4
    }
}

/// Finds the lowest set bit of a pending-interrupt mask.
pub fn lowest_set_bit(p: u8) -> (r: u8)
    ensures
        r == lowest_bit(p),
        r < 5,
{
    if p % 2 == 1 {
        0
    } else if (p / 2) % 2 == 1 {
        1
    } else if (p / 4) % 2 == 1 {
        2
    } else if (p / 8) % 2 == 1 {
        3
    } else {
        4
    }
}

impl Cpu {
    /// The registers and the bus are well formed.
    pub open spec fn wf(&self) -> bool {
        self.regs.wf() && self.bus.wf()
    }

    /// The value of 8-bit operand `i`: a register, or the byte at HL for 6.
    pub open spec fn r8_val(&self, i: u8) -> u8 {
        if i == 6 {
            self.bus.read_spec(self.regs.pair_spec(Pair::HL))
        } else {
            self.regs.r8_spec(i)
        }
    }

    /// The flags held in F.
    pub open spec fn flags_spec(&self) -> Flags {
        crate::regs::flags_of(self.regs.f)
    }

    /// Register values at power-on: every register, SP and PC zero.
    pub fn init_regs() -> (r: Registers)
        ensures
            r.wf(),
            r == Cpu::init_regs_spec(),
            r.pair_spec(Pair::AF) == 0 && r.pair_spec(Pair::BC) == 0,
            r.pair_spec(Pair::DE) == 0 && r.pair_spec(Pair::HL) == 0,
    {
        Registers::zeroed()
    }

    /// A powered-on machine with no cartridge, all registers and memory zero.
    pub fn new() -> (r: Cpu)
        ensures
            r.wf(),
            r.regs == Cpu::init_regs_spec(),
            !r.ime && !r.halted && !r.locked_up,
            r.bus.initial(),
    {
        Cpu { regs: Cpu::init_regs(), ime: false, halted: false, locked_up: false, bus: MemoryBus::new() }
    }

    /// The register values at power-on.
    pub open spec fn init_regs_spec() -> Registers {
        Registers { a: 0, f: 0, b: 0, c: 0, d: 0, e: 0, h: 0, l: 0, sp: 0, pc: 0 }
    }

    /// Reads operand `i`.
    pub fn read_r8(&self, i: u8) -> (r: u8)
        requires
            self.wf(),
        ensures
            r == self.r8_val(i),
    {
        if i == 6 {
            let hl = self.regs.read_pair(Pair::HL);
            self.bus.read(hl)
        } else {
            self.regs.r8(i)
        }
    }

    /// Writes operand `i`: a register, or the byte at HL for 6.
    pub fn write_r8(&mut self, i: u8, v: u8)
        requires
            old(self).wf(),
        ensures
            final(self).wf(),
            timing_kept(*old(self), *final(self)),
            i != 6 ==> final(self).regs == old(self).regs.with_r8(i, v) && final(self).bus == old(self).bus,
            i == 6 ==> final(self).regs == old(self).regs && crate::bus::written(
                old(self).bus,
                final(self).bus,
                old(self).regs.pair_spec(Pair::HL),
                v,
            ),
            final(self).ime == old(self).ime,
            final(self).halted == old(self).halted,
            final(self).locked_up == old(self).locked_up,
    {
        if i == 6 {
            let hl = self.regs.read_pair(Pair::HL);
            self.bus.write(hl, v);
        } else {
            self.regs.set_r8(i, v);
        }
    }

    /// Reads the byte at PC and moves PC past it.
    pub fn fetch8(&mut self) -> (r: u8)
        requires
            old(self).wf(),
        ensures
            final(self).wf(),
            timing_kept(*old(self), *final(self)),
            r == old(self).bus.read_spec(old(self).regs.pc),
            final(self).regs == (Registers { pc: ((old(self).regs.pc + 1) % 65536) as u16, ..old(self).regs }),
            final(self).bus == old(self).bus,
            final(self).ime == old(self).ime,
            final(self).halted == old(self).halted,
            final(self).locked_up == old(self).locked_up,
    {
        let v = self.bus.read(self.regs.pc);
        self.regs.pc = self.regs.pc.wrapping_add(1);
        v
    }

    /// Reads a little-endian 16-bit immediate at PC and moves PC past it.
    pub fn fetch16(&mut self) -> (r: u16)
        requires
            old(self).wf(),
        ensures
            final(self).wf(),
            timing_kept(*old(self), *final(self)),
            r == compose(
                old(self).bus.read_spec(((old(self).regs.pc + 1) % 65536) as u16),
                old(self).bus.read_spec(old(self).regs.pc),
            ),
            final(self).regs == (Registers { pc: ((old(self).regs.pc + 2) % 65536) as u16, ..old(self).regs }),
            final(self).bus == old(self).bus,
            final(self).ime == old(self).ime,
            final(self).halted == old(self).halted,
            final(self).locked_up == old(self).locked_up,
    {
        let lo = self.fetch8();
        let hi = self.fetch8();
        crate::regs::as_u16((hi, lo))
    }
    /// Reads register pair `k` of the LD/INC/DEC/ADD group: BC, DE, HL, SP.
    pub fn read_rr(&self, k: u8) -> (r: u16)
        ensures
            r == rr_spec(self.regs, k),
    {
        if k == 0 {
            self.regs.read_pair(Pair::BC)
        } else if k == 1 {
            self.regs.read_pair(Pair::DE)
        } else if k == 2 {
            self.regs.read_pair(Pair::HL)
        } else {
            self.regs.sp
        }
    }

    /// Writes register pair `k` of the LD/INC/DEC/ADD group: BC, DE, HL, SP.
    pub fn write_rr(&mut self, k: u8, v: u16)
        requires
            old(self).wf(),
        ensures
            final(self).wf(),
            timing_kept(*old(self), *final(self)),
            final(self).regs == with_rr(old(self).regs, k, v),
            final(self).bus == old(self).bus,
            final(self).ime == old(self).ime,
            final(self).halted == old(self).halted,
            final(self).locked_up == old(self).locked_up,
    {
        if k == 0 {
            self.regs.write_pair(Pair::BC, v);
        } else if k == 1 {
            self.regs.write_pair(Pair::DE, v);
        } else if k == 2 {
            self.regs.write_pair(Pair::HL, v);
        } else {
            self.regs.sp = v;
        }
    }

    /// Pushes a 16-bit value: high byte at SP-1, low byte at SP-2.
    pub fn push16(&mut self, v: u16)
        requires
            old(self).wf(),
        ensures
            final(self).wf(),
            timing_kept(*old(self), *final(self)),
            final(self).regs == (Registers { sp: ((old(self).regs.sp + 65534) % 65536) as u16, ..old(self).regs }),
            pushed(old(self).bus, final(self).bus, old(self).regs.sp, v),
            final(self).ime == old(self).ime,
            final(self).halted == old(self).halted,
            final(self).locked_up == old(self).locked_up,
    {
        let (hi, lo) = crate::regs::split_u16(v);
        self.regs.sp = self.regs.sp.wrapping_sub(1);
        self.bus.write(self.regs.sp, hi);
        let ghost mid = self.bus;
        self.regs.sp = self.regs.sp.wrapping_sub(1);
        self.bus.write(self.regs.sp, lo);
        assert(crate::bus::written(mid, self.bus, ((old(self).regs.sp + 65534) % 65536) as u16, low_of(v)));
    }

    /// Pops a 16-bit value: low byte at SP, high byte at SP+1.
    pub fn pop16(&mut self) -> (r: u16)
        requires
            old(self).wf(),
        ensures
            final(self).wf(),
            timing_kept(*old(self), *final(self)),
            r == compose(
                old(self).bus.read_spec(((old(self).regs.sp + 1) % 65536) as u16),
                old(self).bus.read_spec(old(self).regs.sp),
            ),
            final(self).regs == (Registers { sp: ((old(self).regs.sp + 2) % 65536) as u16, ..old(self).regs }),
            final(self).bus == old(self).bus,
            final(self).ime == old(self).ime,
            final(self).halted == old(self).halted,
            final(self).locked_up == old(self).locked_up,
    {
        let lo = self.bus.read(self.regs.sp);
        self.regs.sp = self.regs.sp.wrapping_add(1);
        let hi = self.bus.read(self.regs.sp);
        self.regs.sp = self.regs.sp.wrapping_add(1);
        crate::regs::as_u16((hi, lo))
    }

    /// Condition `k` of the conditional jumps: NZ, Z, NC, C.
    pub fn condition(&self, k: u8) -> (r: bool)
        requires
            self.wf(),
        ensures
            r == Cpu::cond_spec(self.flags_spec(), k),
    {
        let f = self.regs.flags();
        if k % 4 == 0 {
            !f.zero
        } else if k % 4 == 1 {
            f.zero
        } else if k % 4 == 2 {
            !f.carry
        } else {
            f.carry
        }
    }

    /// Whether condition `k` (NZ, Z, NC, C) holds for flags `f`.
    pub open spec fn cond_spec(f: Flags, k: u8) -> bool {
        if k % 4 == 0 {
            !f.zero
        } else if k % 4 == 1 {
            f.zero
        } else if k % 4 == 2 {
            !f.carry
        } else {
            f.carry
        }
    }
    /// Adds a signed 8-bit displacement to PC.
    fn jump_relative(&mut self, e: u8)
        ensures
            final(self).regs == (Registers { pc: rel_target(old(self).regs.pc, e), ..old(self).regs }),
            final(self).bus == old(self).bus,
            final(self).ime == old(self).ime,
            final(self).halted == old(self).halted,
            final(self).locked_up == old(self).locked_up,
    {
        if e < 128 {
            self.regs.pc = self.regs.pc.wrapping_add(e as u16);
        } else {
            self.regs.pc = self.regs.pc.wrapping_sub(256 - e as u16);
        }
    }

    /// Decimal adjust of A after a BCD addition or subtraction.
    #[verifier::rlimit(40)]
    fn daa(&mut self)
        requires
            old(self).wf(),
        ensures
            final(self).wf(),
            ({
                let (v, f) = daa_spec(old(self).regs.a, old(self).flags_spec());
                final(self).regs == (Registers { a: v, f: f.byte(), ..old(self).regs })
            }),
            timing_kept(*old(self), *final(self)),
            final(self).bus == old(self).bus,
            final(self).ime == old(self).ime,
            final(self).halted == old(self).halted,
            final(self).locked_up == old(self).locked_up,
    {
        let f = self.regs.flags();
        let a = self.regs.a;
        let mut adj: u8 = 0;
        let mut carry = f.carry;
        if f.half || (!f.sub && a % 16 > 9) {
            adj = 0x06;
        }
        if f.carry || (!f.sub && a > 0x99) {
            adj = adj + 0x60;
            carry = true;
        }
        let r: u8 = if f.sub { a.wrapping_sub(adj) } else { a.wrapping_add(adj) };
        self.regs.a = r;
        self.regs.set_flags(Flags { zero: r == 0, sub: f.sub, half: false, carry });
    }

    /// Opcodes 0x00–0x3F; PC already points past the opcode. Returns cycles.
    fn exec_block0(&mut self, op: u8) -> (cycles: u32)
        requires
            old(self).wf(),
            op < 0x40,
        ensures
            final(self).wf(),
            timing_kept(*old(self), *final(self)),
            final(self).halted == old(self).halted,
            final(self).locked_up == old(self).locked_up,
            final(self).ime == old(self).ime,
            block0_post(old(self).regs, old(self).bus, *final(self), op, cycles),
            4 <= cycles <= 24,
    {
        if op % 8 >= 4 && op % 8 <= 6 {
            self.exec_r8_group(op)
        } else if op % 16 == 1 || op % 16 == 3 || op % 16 == 9 || op % 16 == 0xB {
            self.exec_rr_group(op)
        } else {
            self.exec_misc0(op)
        }
    }

    /// LD (a16),SP: stores SP little-endian at the immediate address.
    fn store_sp(&mut self)
        requires
            old(self).wf(),
        ensures
            final(self).wf(),
            timing_kept(*old(self), *final(self)),
            final(self).regs == pc_plus(old(self).regs, 2),
            stored16(
                old(self).bus,
                final(self).bus,
                compose(
                    old(self).bus.read_spec(((old(self).regs.pc + 1) % 65536) as u16),
                    old(self).bus.read_spec(old(self).regs.pc),
                ),
                old(self).regs.sp,
            ),
            final(self).ime == old(self).ime,
            final(self).halted == old(self).halted,
            final(self).locked_up == old(self).locked_up,
    {
        let a = self.fetch16();
        let (sh, sl) = crate::regs::split_u16(self.regs.sp);
        self.bus.write(a, sl);
        let ghost mid = self.bus;
        self.bus.write(a.wrapping_add(1), sh);
        assert(crate::bus::written(mid, self.bus, ((a + 1) % 65536) as u16, high_of(self.regs.sp)));
    }

    /// Opcodes 0x00–0x3F other than the register groups.
    #[verifier::rlimit(60)]
    fn exec_misc0(&mut self, op: u8) -> (cycles: u32)
        requires
            old(self).wf(),
            op < 0x40,
            !(op % 8 >= 4 && op % 8 <= 6),
            !(op % 16 == 1 || op % 16 == 3 || op % 16 == 9 || op % 16 == 0xB),
        ensures
            final(self).wf(),
            timing_kept(*old(self), *final(self)),
            final(self).halted == old(self).halted,
            final(self).locked_up == old(self).locked_up,
            final(self).ime == old(self).ime,
            misc0_post(old(self).regs, old(self).bus, *final(self), op, cycles),
            4 <= cycles <= 24,
    {
        let hi: u8 = op / 8;
        let k: u8 = op / 16;
        if op == 0x00 {
            4
        } else if op == 0x10 {
            let _ = self.fetch8();
            4
        } else if op == 0x08 {
            self.store_sp();
            20
        } else if op == 0x18 {
            let e = self.fetch8();
            self.jump_relative(e);
            12
        } else if op == 0x20 || op == 0x28 || op == 0x30 || op == 0x38 {
            let e = self.fetch8();
            if self.condition(hi - 4) {
                self.jump_relative(e);
                12
            } else {
                8
            }
        } else if op == 0x07 || op == 0x0F || op == 0x17 || op == 0x1F {
            let f = self.regs.flags();
            let (r, nf) = crate::alu::shift(hi, self.regs.a, f.carry);
            self.regs.a = r;
            self.regs.set_flags(Flags { zero: false, ..nf });
            4
        } else if op == 0x27 {
            self.daa();
            4
        } else if op == 0x2F {
            let f = self.regs.flags();
            self.regs.a = 255 - self.regs.a;
            self.regs.set_flags(Flags { sub: true, half: true, ..f });
            4
        } else if op == 0x37 {
            let f = self.regs.flags();
            self.regs.set_flags(Flags { sub: false, half: false, carry: true, ..f });
            4
        } else if op == 0x3F {
            let f = self.regs.flags();
            self.regs.set_flags(Flags { sub: false, half: false, carry: !f.carry, ..f });
            4
        } else {
            let addr = self.indirect_addr(k);
            if op % 16 == 2 {
                self.bus.write(addr, self.regs.a);
            } else {
                self.regs.a = self.bus.read(addr);
            }
            8
        }
    }

    /// LD rr,n16, INC rr, DEC rr and ADD HL,rr.
    #[verifier::rlimit(50)]
    fn exec_rr_group(&mut self, op: u8) -> (cycles: u32)
        requires
            old(self).wf(),
            op < 0x40,
            op % 16 == 1 || op % 16 == 3 || op % 16 == 9 || op % 16 == 0xB,
        ensures
            final(self).wf(),
            timing_kept(*old(self), *final(self)),
            final(self).halted == old(self).halted,
            final(self).locked_up == old(self).locked_up,
            final(self).ime == old(self).ime,
            rr_post(old(self).regs, old(self).bus, *final(self), op, cycles),
            4 <= cycles <= 24,
    {
        let k: u8 = op / 16;
        assert(op % 8 == 1 || op % 8 == 3);
        assert(op % 16 != 0);
        if op % 16 == 1 {
            let v = self.fetch16();
            self.write_rr(k, v);
            12
        } else if op % 16 == 9 {
            let hl = self.regs.read_pair(Pair::HL);
            let v = self.read_rr(k);
            let f = self.regs.flags();
            let (r, nf) = crate::alu::add16(hl, v, f);
            self.regs.write_pair(Pair::HL, r);
            self.regs.set_flags(nf);
            8
        } else if op % 16 == 3 {
            let v = self.read_rr(k);
            let n: u16 = if v == 0xFFFF { 0 } else { v + 1 };
            self.write_rr(k, n);
            8
        } else {
            let v = self.read_rr(k);
            let n: u16 = if v == 0 { 0xFFFF } else { v - 1 };
            self.write_rr(k, n);
            8
        }
    }

    /// INC r, DEC r and LD r,n8.
    fn exec_r8_group(&mut self, op: u8) -> (cycles: u32)
        requires
            old(self).wf(),
            op < 0x40,
            op % 8 >= 4 && op % 8 <= 6,
        ensures
            final(self).wf(),
            timing_kept(*old(self), *final(self)),
            final(self).halted == old(self).halted,
            final(self).locked_up == old(self).locked_up,
            final(self).ime == old(self).ime,
            r8_post(old(self).regs, old(self).bus, *final(self), op, cycles),
            4 <= cycles <= 24,
    {
        let hi: u8 = op / 8;
        if op % 8 == 4 {
            let f = self.regs.flags();
            let v = self.read_r8(hi);
            let (r, nf) = inc8(v, f);
            self.write_r8(hi, r);
            self.regs.set_flags(nf);
            if hi == 6 { 12 } else { 4 }
        } else if op % 8 == 5 {
            let f = self.regs.flags();
            let v = self.read_r8(hi);
            let (r, nf) = dec8(v, f);
            self.write_r8(hi, r);
            self.regs.set_flags(nf);
            if hi == 6 { 12 } else { 4 }
        } else {
            let v = self.fetch8();
            self.write_r8(hi, v);
            if hi == 6 { 12 } else { 8 }
        }
    }

    /// The address of LD (rr),A / LD A,(rr): BC, DE, HL then HL+1, HL then HL-1.
    fn indirect_addr(&mut self, k: u8) -> (r: u16)
        requires
            old(self).wf(),
        ensures
            final(self).wf(),
            k < 2 ==> r == old(self).regs.pair_spec(pair_of_spec(k)) && final(self).regs == old(self).regs,
            k == 2 ==> r == old(self).regs.pair_spec(Pair::HL) && final(self).regs == old(self).regs.with_pair(
                Pair::HL,
                ((r + 1) % 65536) as u16,
            ),
            k >= 3 ==> r == old(self).regs.pair_spec(Pair::HL) && final(self).regs == old(self).regs.with_pair(
                Pair::HL,
                ((r + 65535) % 65536) as u16,
            ),
            timing_kept(*old(self), *final(self)),
            final(self).bus == old(self).bus,
            final(self).ime == old(self).ime,
            final(self).halted == old(self).halted,
            final(self).locked_up == old(self).locked_up,
    {
        if k == 0 {
            self.regs.read_pair(Pair::BC)
        } else if k == 1 {
            self.regs.read_pair(Pair::DE)
        } else {
            let hl = self.regs.read_pair(Pair::HL);
            if k == 2 {
                let n: u16 = if hl == 0xFFFF { 0 } else { hl + 1 };
                self.regs.write_pair(Pair::HL, n);
            } else {
                let n: u16 = if hl == 0 { 0xFFFF } else { hl - 1 };
                self.regs.write_pair(Pair::HL, n);
            }
            hl
        }
    }
    /// Opcodes 0x40–0xBF: register loads, HALT and accumulator arithmetic.
    fn exec_ld_alu(&mut self, op: u8) -> (cycles: u32)
        requires
            old(self).wf(),
            0x40 <= op < 0xC0,
        ensures
            final(self).wf(),
            timing_kept(*old(self), *final(self)),
            final(self).locked_up == old(self).locked_up,
            final(self).ime == old(self).ime,
            op != 0x76 ==> final(self).halted == old(self).halted,
            op == 0x76 ==> final(self).halted && final(self).regs == old(self).regs && final(self).bus == old(self).bus,
            op < 0x80 && op != 0x76 && (op / 8) % 8 != 6 ==> final(self).regs == old(self).regs.with_r8(
                (op / 8) % 8,
                old(self).r8_val(op % 8),
            ) && final(self).bus == old(self).bus,
            0x70 <= op < 0x78 && op != 0x76 ==> final(self).regs == old(self).regs && crate::bus::written(
                old(self).bus,
                final(self).bus,
                old(self).regs.pair_spec(Pair::HL),
                old(self).r8_val(op % 8),
            ),
            op >= 0x80 ==> ({
                let (r, f) = alu_spec(alu_op_of_spec((op / 8) % 8), old(self).regs.a, old(self).r8_val(op % 8), old(self).flags_spec().carry);
                final(self).regs == (Registers { a: r, f: f.byte(), ..old(self).regs }) && final(self).bus == old(self).bus
            }),
            cycles == (if op == 0x76 { 4u32 } else if op % 8 == 6 || (op < 0x80 && (op / 8) % 8 == 6) { 8 } else { 4 }),
    {
        let src: u8 = op % 8;
        let dst: u8 = (op / 8) % 8;
        if op == 0x76 {
            self.halted = true;
            return 4;
        }
        let v = self.read_r8(src);
        if op < 0x80 {
            self.write_r8(dst, v);
        } else {
            self.alu_a(dst, v);
        }
        if src == 6 || (op < 0x80 && dst == 6) { 8 } else { 4 }
    }

    /// A ← A `op` v for the accumulator operation with index `k`.
    fn alu_a(&mut self, k: u8, v: u8)
        requires
            old(self).wf(),
        ensures
            final(self).wf(),
            timing_kept(*old(self), *final(self)),
            ({
                let (r, f) = alu_spec(alu_op_of_spec(k), old(self).regs.a, v, old(self).flags_spec().carry);
                final(self).regs == (Registers { a: r, f: f.byte(), ..old(self).regs })
            }),
            final(self).bus == old(self).bus,
            final(self).ime == old(self).ime,
            final(self).halted == old(self).halted,
            final(self).locked_up == old(self).locked_up,
    {
        let f = self.regs.flags();
        let (r, nf) = alu(alu_op_of(k), self.regs.a, v, f.carry);
        self.regs.a = r;
        self.regs.set_flags(nf);
    }
    /// Reads the pair of PUSH/POP with index `k`: BC, DE, HL, AF.
    fn read_stack_pair(&self, k: u8) -> (r: u16)
        ensures
            r == self.regs.pair_spec(stack_pair(k)),
    {
        if k == 0 {
            self.regs.read_pair(Pair::BC)
        } else if k == 1 {
            self.regs.read_pair(Pair::DE)
        } else if k == 2 {
            self.regs.read_pair(Pair::HL)
        } else {
            self.regs.read_pair(Pair::AF)
        }
    }

    /// Writes the pair of PUSH/POP with index `k`: BC, DE, HL, AF.
    fn write_stack_pair(&mut self, k: u8, v: u16)
        requires
            old(self).wf(),
        ensures
            final(self).wf(),
            final(self).regs == old(self).regs.with_pair(stack_pair(k), v),
            timing_kept(*old(self), *final(self)),
            final(self).bus == old(self).bus,
            final(self).ime == old(self).ime,
            final(self).halted == old(self).halted,
            final(self).locked_up == old(self).locked_up,
    {
        if k == 0 {
            self.regs.write_pair(Pair::BC, v);
        } else if k == 1 {
            self.regs.write_pair(Pair::DE, v);
        } else if k == 2 {
            self.regs.write_pair(Pair::HL, v);
        } else {
            self.regs.write_pair(Pair::AF, v);
        }
    }

    /// SP plus a signed displacement, with the flags of ADD SP,e8 and
    /// LD HL,SP+e8 (taken from the unsigned low-byte addition).
    fn sp_plus(&mut self, e: u8) -> (r: u16)
        requires
            old(self).wf(),
        ensures
            final(self).wf(),
            r == rel_target(old(self).regs.sp, e),
            final(self).regs == (Registers { f: sp_plus_flags(old(self).regs.sp, e), ..old(self).regs }),
            timing_kept(*old(self), *final(self)),
            final(self).bus == old(self).bus,
            final(self).ime == old(self).ime,
            final(self).halted == old(self).halted,
            final(self).locked_up == old(self).locked_up,
    {
        let sp = self.regs.sp;
        let half = sp % 16 + (e as u16) % 16 > 15;
        let carry = sp % 256 + e as u16 > 255;
        self.regs.set_flags(Flags { zero: false, sub: false, half, carry });
        if e < 128 {
            sp.wrapping_add(e as u16)
        } else {
            sp.wrapping_sub(256 - e as u16)
        }
    }

    /// Pushes PC and jumps to `target`.
    fn call(&mut self, target: u16)
        requires
            old(self).wf(),
        ensures
            final(self).wf(),
            timing_kept(*old(self), *final(self)),
            final(self).regs == (Registers {
                pc: target,
                sp: ((old(self).regs.sp + 65534) % 65536) as u16,
                ..old(self).regs
            }),
            pushed(old(self).bus, final(self).bus, old(self).regs.sp, old(self).regs.pc),
            final(self).ime == old(self).ime,
            final(self).halted == old(self).halted,
            final(self).locked_up == old(self).locked_up,
    {
        let pc = self.regs.pc;
        self.push16(pc);
        self.regs.pc = target;
    }

    /// Opcodes 0xC0–0xFF except the 0xCB prefix.
    fn exec_block3(&mut self, op: u8) -> (cycles: u32)
        requires
            old(self).wf(),
            0xC0 <= op,
            op != 0xCB,
        ensures
            final(self).wf(),
            timing_kept(*old(self), *final(self)),
            final(self).halted == old(self).halted,
            Cpu::illegal(op) ==> final(self).locked_up && final(self).regs == old(self).regs && final(self).bus
                == old(self).bus && cycles == 4,
            !Cpu::illegal(op) ==> final(self).locked_up == old(self).locked_up,
            control_post(old(self).regs, old(self).bus, *final(self), op, cycles),
            misc3_post(old(self).regs, old(self).bus, *final(self), op, cycles),
            op >= 0xC0 && op % 8 == 6 ==> ({
                let (r, f) = alu_spec(alu_op_of_spec((op / 8) % 8), old(self).regs.a, old(self).bus.read_spec(old(self).regs.pc), old(self).flags_spec().carry);
                final(self).regs == (Registers { a: r, f: f.byte(), pc: ((old(self).regs.pc + 1) % 65536) as u16, ..old(self).regs })
                    && final(self).bus == old(self).bus && cycles == 8
            }),
            op == 0xF3 ==> !final(self).ime && final(self).regs == old(self).regs && final(self).bus == old(self).bus
                && cycles == 4,
            op == 0xFB ==> final(self).ime && final(self).regs == old(self).regs && final(self).bus == old(self).bus
                && cycles == 4,
            op == 0xD9 ==> final(self).ime,
            op != 0xF3 && op != 0xFB && op != 0xD9 ==> final(self).ime == old(self).ime,
            4 <= cycles <= 24,
    {
        let k: u8 = (op / 16) % 4;
        let y: u8 = (op / 8) % 8;
        if Cpu::is_illegal(op) {
            self.locked_up = true;
            4
        } else if op % 8 == 6 {
            let v = self.fetch8();
            self.alu_a(y, v);
            8
        } else if op % 8 == 7 {
            self.call(y as u16 * 8);
            16
        } else if op == 0xC0 || op == 0xC8 || op == 0xD0 || op == 0xD8 {
            if self.condition(y) {
                let t = self.pop16();
                self.regs.pc = t;
                20
            } else {
                8
            }
        } else if op == 0xC9 || op == 0xD9 {
            let t = self.pop16();
            self.regs.pc = t;
            if op == 0xD9 {
                self.ime = true;
            }
            16
        } else if op % 16 == 1 {
            let v = self.pop16();
            self.write_stack_pair(k, v);
            12
        } else if op % 16 == 5 {
            let v = self.read_stack_pair(k);
            self.push16(v);
            16
        } else if op == 0xC2 || op == 0xCA || op == 0xD2 || op == 0xDA {
            let t = self.fetch16();
            if self.condition(y) {
                self.regs.pc = t;
                16
            } else {
                12
            }
        } else if op == 0xC3 {
            let t = self.fetch16();
            self.regs.pc = t;
            16
        } else if op == 0xC4 || op == 0xCC || op == 0xD4 || op == 0xDC {
            let t = self.fetch16();
            if self.condition(y) {
                self.call(t);
                24
            } else {
                12
            }
        } else if op == 0xCD {
            let t = self.fetch16();
            self.call(t);
            24
        } else if op == 0xE0 {
            let n = self.fetch8();
            self.bus.write(0xFF00 + n as u16, self.regs.a);
            12
        } else if op == 0xF0 {
            let n = self.fetch8();
            self.regs.a = self.bus.read(0xFF00 + n as u16);
            12
        } else if op == 0xE2 {
            self.bus.write(0xFF00 + self.regs.c as u16, self.regs.a);
            8
        } else if op == 0xF2 {
            self.regs.a = self.bus.read(0xFF00 + self.regs.c as u16);
            8
        } else if op == 0xE8 {
            let e = self.fetch8();
            let r = self.sp_plus(e);
            self.regs.sp = r;
            16
        } else if op == 0xF8 {
            let e = self.fetch8();
            let r = self.sp_plus(e);
            self.regs.write_pair(Pair::HL, r);
            12
        } else if op == 0xE9 {
            self.regs.pc = self.regs.read_pair(Pair::HL);
            4
        } else if op == 0xF9 {
            self.regs.sp = self.regs.read_pair(Pair::HL);
            8
        } else if op == 0xEA {
            let a = self.fetch16();
            self.bus.write(a, self.regs.a);
            16
        } else if op == 0xFA {
            let a = self.fetch16();
            self.regs.a = self.bus.read(a);
            16
        } else if op == 0xF3 {
            self.ime = false;
            4
        } else {
            self.ime = true;
            4
        }
    }

    /// The eleven opcodes with no instruction; they hang the CPU.
    pub open spec fn illegal(op: u8) -> bool {
        op == 0xD3 || op == 0xDB || op == 0xDD || op == 0xE3 || op == 0xE4 || op == 0xEB || op == 0xEC
            || op == 0xED || op == 0xF4 || op == 0xFC || op == 0xFD
    }

    /// Whether `op` is one of the opcodes with no instruction.
    pub fn is_illegal(op: u8) -> (r: bool)
        ensures
            r == Cpu::illegal(op),
    {
        op == 0xD3 || op == 0xDB || op == 0xDD || op == 0xE3 || op == 0xE4 || op == 0xEB || op == 0xEC
            || op == 0xED || op == 0xF4 || op == 0xFC || op == 0xFD
    }
    /// The 0xCB-prefixed table: rotates and shifts, BIT, RES and SET.
    fn exec_cb(&mut self) -> (cycles: u32)
        requires
            old(self).wf(),
        ensures
            final(self).wf(),
            timing_kept(*old(self), *final(self)),
            final(self).halted == old(self).halted,
            final(self).locked_up == old(self).locked_up,
            final(self).ime == old(self).ime,
            cb_post(old(self).regs, old(self).bus, *final(self), cycles),
    {
        let op = self.fetch8();
        let z: u8 = op % 8;
        let y: u8 = (op / 8) % 8;
        let v = self.read_r8(z);
        let f = self.regs.flags();
        if op < 0x40 {
            let (r, nf) = crate::alu::shift(y, v, f.carry);
            self.write_r8(z, r);
            self.regs.set_flags(nf);
            if z == 6 { 16 } else { 8 }
        } else {
            let p = bit_mask(y);
            let bit: u8 = (v / p) % 2;
            if op < 0x80 {
                self.regs.set_flags(Flags { zero: bit == 0, sub: false, half: true, carry: f.carry });
                if z == 6 { 12 } else { 8 }
            } else {
                assert(bit as int * p <= v) by (nonlinear_arith)
                    requires bit == (v / p) % 2, p >= 1;
                assert(v + (1 - bit as int) * p <= 255) by (nonlinear_arith)
                    requires bit == (v / p) % 2, p >= 1, p <= 128, v <= 255, p == 1 || p == 2 || p == 4 || p == 8 || p == 16 || p == 32 || p == 64 || p == 128;
                let r: u8 = if op < 0xC0 { v - bit * p } else { v + (1 - bit) * p };
                self.write_r8(z, r);
                if z == 6 { 16 } else { 8 }
            }
        }
    }
    /// Executes opcode `op`, whose byte has been fetched and PC moved past it.
    /// Returns the cycles the instruction takes.
    pub fn execute(&mut self, op: u8) -> (cycles: u32)
        requires
            old(self).wf(),
        ensures
            final(self).wf(),
            timing_kept(*old(self), *final(self)),
            exec_post(
                old(self).regs,
                old(self).bus,
                old(self).ime,
                old(self).halted,
                old(self).locked_up,
                *final(self),
                op,
                cycles,
            ),
            4 <= cycles <= 24,
    {
        if op < 0x40 {
            self.exec_block0(op)
        } else if op < 0xC0 {
            self.exec_ld_alu(op)
        } else if op == 0xCB {
            self.exec_cb()
        } else {
            self.exec_block3(op)
        }
    }
    /// Interrupts both enabled and requested (the low five bits of IE & IF).
    pub open spec fn pending_spec(&self) -> u8 {
        self.bus.ie & self.bus.if_spec() & 0x1F
    }

    /// One CPU step: an interrupt dispatch if one is due, else the next
    /// instruction. A halted CPU idles until an interrupt is requested; a
    /// locked-up one idles for good. Returns the cycles taken.
    pub fn step(&mut self) -> (cycles: u32)
        requires
            old(self).wf(),
        ensures
            final(self).wf(),
            step_post(*old(self), *final(self), cycles),
            4 <= cycles <= 24,
            timing_kept(*old(self), *final(self)),
    {
        proof {
            reveal(step_post);
        }
        if self.locked_up {
            return 4;
        }
        let iflag = self.bus.read(IF_ADDR);
        let pending: u8 = self.bus.ie & iflag & 0x1F;
        if self.ime && pending != 0 {
            let i = lowest_set_bit(pending);
            let cleared: u8 = iflag & !bit_mask(i);
            self.ime = false;
            self.halted = false;
            let pc = self.regs.pc;
            self.push16(pc);
            let ghost mid = self.bus;
            self.bus.write(IF_ADDR, cleared);
            assert(crate::bus::written(mid, self.bus, IF_ADDR, cleared));
            assert(pushed(old(self).bus, mid, old(self).regs.sp, old(self).regs.pc));
            self.regs.pc = 0x40 + 8 * i as u16;
            assert(cleared == old(self).bus.if_spec() & !(bit_value(i) as u8));
            assert(self.regs == (Registers {
                pc: (0x40 + 8 * i) as u16,
                sp: ((old(self).regs.sp + 65534) % 65536) as u16,
                ..old(self).regs
            }));
            return 20;
        }
        if self.halted {
            if pending == 0 {
                return 4;
            }
            self.halted = false;
        }
        let op = self.fetch8();
        self.execute(op)
    }
    /// Inserts the cartridge built from a ROM image. A rejected image leaves
    /// the emulator exactly as it was.
    pub fn load_cartridge(&mut self, bytes: Vec<u8>) -> (r: Result<(), FormatError>)
        requires
            old(self).wf(),
        ensures
            final(self).wf(),
            bytes@.len() < HEADER_SIZE ==> r == Err::<(), FormatError>(FormatError::TooShort(bytes@.len() as usize)),
            bytes@.len() >= HEADER_SIZE && mbc_of(bytes@[CART_TYPE_ADDR as int]) is None
                ==> r == Err::<(), FormatError>(FormatError::UnsupportedMbc(bytes@[CART_TYPE_ADDR as int])),
            r is Ok <==> bytes@.len() >= HEADER_SIZE && mbc_of(bytes@[CART_TYPE_ADDR as int]) is Some,
            r is Err ==> *final(self) == *old(self),
            r is Ok ==> (final(self).bus.cart matches Some(c) && c.rom@ == bytes@) && final(self).regs == old(self).regs,
    {
        match Cartridge::load(bytes) {
            Ok(c) => {
                self.bus.cart = Some(c);
                Ok(())
            },
            Err(e) => Err(e),
        }
    }

    /// Moves the PPU on by `cycles` after a CPU step, one cycle at a time:
    /// each visible line is drawn as it enters H-blank, and the V-Blank and
    /// STAT interrupts are requested for every entry the move passes.
    #[verifier::rlimit(100)]
    pub fn sync_ppu(&mut self, cycles: u32)
        requires
            old(self).wf(),
        ensures
            final(self).wf(),
            sync_post(*old(self), *final(self), cycles),
            final(self).bus.ppu.pos() == advance_pos(old(self).bus.ppu.pos(), cycles as int),
            vblank_entries(old(self).bus.ppu.pos(), cycles as int) > 0 ==> final(self).bus.if_spec() % 2 == 1,
    {
        let ghost pre = *self;
        let ghost p0 = self.bus.ppu;
        let ghost pos0 = p0.pos();
        let ghost start = (p0.ly + 1) * LINE_CYCLES;
        let stat = self.bus.ppu.stat;
        let lyc = self.bus.ppu.lyc;
        let on_oam = Ppu::bit(stat, 5) == 1;
        let on_vblank = Ppu::bit(stat, 4) == 1;
        let on_hblank = Ppu::bit(stat, 3) == 1;
        let on_lyc = Ppu::bit(stat, 6) == 1;
        let mut vb = false;
        let mut st = false;
        let mut i: u32 = 0;
        proof {
            assert(pos0 < FRAME_CYCLES) by (nonlinear_arith)
                requires pos0 == p0.ly * 456 + p0.dot, p0.ly < 154, p0.dot < 456;
            lemma_small_mod(pos0 as nat, FRAME_CYCLES as nat);
            assert forall|l: int| 0 <= l < VISIBLE_LINES implies !#[trigger] line_drawn(p0, pos0, l) by {
                assert(!passes(start, pos0, hblank_point(l, extra_for(p0.oam@, p0.lcdc, p0.scx, p0.wx, p0.wy, l))));
            }
            assert forall|l: int| 0 <= l < VISIBLE_LINES implies !#[trigger] passes(pos0, pos0, l * LINE_CYCLES) by {
                lemma_passes_empty(pos0, l * LINE_CYCLES);
            }
            lemma_passes_empty(pos0, lyc * LINE_CYCLES);
        }
        while i < cycles
            invariant
                self.wf(),
                i <= cycles,
                pos0 == p0.pos(),
                0 <= pos0 < FRAME_CYCLES,
                start == (p0.ly + 1) * LINE_CYCLES,
                p0 == pre.bus.ppu,
                pre.wf(),
                stat == p0.stat && lyc == p0.lyc,
                on_oam == (bit_at(stat, 5) == 1) && on_vblank == (bit_at(stat, 4) == 1),
                on_hblank == (bit_at(stat, 3) == 1) && on_lyc == (bit_at(stat, 6) == 1),
                self.regs == pre.regs && self.ime == pre.ime && self.halted == pre.halted,
                self.locked_up == pre.locked_up,
                self.bus.cart == pre.bus.cart && self.bus.vram == pre.bus.vram && self.bus.wram == pre.bus.wram,
                self.bus.hram == pre.bus.hram && self.bus.ie == pre.bus.ie && self.bus.io == pre.bus.io,
                self.bus.ppu.oam@ == p0.oam@ && self.bus.ppu.same_regs(p0),
                self.bus.ppu.pos() == advance_pos(pos0, i as int),
                pos0 + i < start ==> self.bus.ppu.ly == p0.ly && self.bus.ppu.dot == p0.dot + i
                    && self.bus.ppu.draw_extra == p0.draw_extra,
                pos0 + i >= start ==> self.bus.ppu.draw_extra == extra_for(
                    p0.oam@,
                    p0.lcdc,
                    p0.scx,
                    p0.wx,
                    p0.wy,
                    self.bus.ppu.ly as int,
                ),
                vblank_entries(pos0, i as int) >= 0,
                vb == (vblank_entries(pos0, i as int) > 0),
                st == stat_fired(p0, pos0 + i),
                forall|l: int, x: int|
                    0 <= l < VISIBLE_LINES && 0 <= x < SCREEN_WIDTH ==> #[trigger] self.bus.ppu.framebuffer@[l
                        * SCREEN_WIDTH + x] == (if line_drawn(p0, pos0 + i, l) {
                        pixel_shade(p0, pre.bus.vram@, l, x)
                    } else {
                        p0.framebuffer@[l * SCREEN_WIDTH + x]
                    }),
            decreases cycles - i,
        {
            let ghost b = pos0 + i;
            let ghost before = self.bus.ppu;
            let v1 = self.bus.ppu.advance(1);
            proof {
                lemma_advance_split(pos0, i as nat, 1);
            }
            let ly1 = self.bus.ppu.ly;
            let dot1 = self.bus.ppu.dot;
            let e1 = self.bus.ppu.draw_extra;
            let hb: bool = (ly1 as u32) < VISIBLE_LINES && dot1 as u32 == 252 + e1 as u32;
            proof {
                assert((b + 1) % (FRAME_CYCLES as int) == ly1 * LINE_CYCLES + dot1);
                if b + 1 >= start && b < start {
                    assert(before.dot + 1 >= LINE_CYCLES);
                }
                assert forall|l: int| 0 <= l < VISIBLE_LINES implies #[trigger] line_drawn(p0, b + 1, l) == (
                line_drawn(p0, b, l) || (hb && l == ly1)) by {
                    lemma_drawn_step(p0, b, l, ly1 as int, dot1 as int, e1 as int);
                }
                assert forall|l: int| 0 <= l < VISIBLE_LINES implies #[trigger] passes(pos0, b + 1, l * LINE_CYCLES)
                    == (passes(pos0, b, l * LINE_CYCLES) || (ly1 == l && dot1 == 0)) by {
                    lemma_start_step(pos0, b, l, ly1 as int, dot1 as int);
                }
                if lyc < 154 {
                    lemma_start_step(pos0, b, lyc as int, ly1 as int, dot1 as int);
                }
            }
            if hb {
                self.bus.ppu.render_line(&self.bus.vram);
                proof {
                    assert forall|x: int| 0 <= x < SCREEN_WIDTH implies pixel_shade(before, pre.bus.vram@, ly1 as int, x)
                        == pixel_shade(p0, pre.bus.vram@, ly1 as int, x) by {
                        lemma_shade_same(before, p0, pre.bus.vram@, ly1 as int, x);
                    }
                }
            }
            let line_start = dot1 == 0;
            proof {
                let bb = b + 1;
                if on_oam {
                    let e_new = exists|l: int| 0 <= l < VISIBLE_LINES && #[trigger] passes(pos0, bb, l * LINE_CYCLES);
                    let e_old = exists|l: int| 0 <= l < VISIBLE_LINES && #[trigger] passes(pos0, b, l * LINE_CYCLES);
                    if e_new {
                        let l = choose|l: int| 0 <= l < VISIBLE_LINES && #[trigger] passes(pos0, bb, l * LINE_CYCLES);
                        assert(passes(pos0, b, l * LINE_CYCLES) || (line_start && (ly1 as u32) < VISIBLE_LINES));
                    }
                    if e_old {
                        let l = choose|l: int| 0 <= l < VISIBLE_LINES && #[trigger] passes(pos0, b, l * LINE_CYCLES);
                        assert(passes(pos0, bb, l * LINE_CYCLES));
                    }
                    if line_start && (ly1 as u32) < VISIBLE_LINES {
                        assert(passes(pos0, bb, ly1 * LINE_CYCLES));
                    }
                    assert(e_new == (e_old || (line_start && (ly1 as u32) < VISIBLE_LINES)));
                }
                if on_hblank {
                    let e_new = exists|l: int| 0 <= l < VISIBLE_LINES && #[trigger] line_drawn(p0, bb, l);
                    let e_old = exists|l: int| 0 <= l < VISIBLE_LINES && #[trigger] line_drawn(p0, b, l);
                    if e_new {
                        let l = choose|l: int| 0 <= l < VISIBLE_LINES && #[trigger] line_drawn(p0, bb, l);
                        assert(line_drawn(p0, b, l) || hb);
                    }
                    if e_old {
                        let l = choose|l: int| 0 <= l < VISIBLE_LINES && #[trigger] line_drawn(p0, b, l);
                        assert(line_drawn(p0, bb, l));
                    }
                    if hb {
                        assert(line_drawn(p0, bb, ly1 as int));
                    }
                    assert(e_new == (e_old || hb));
                }
                assert(vblank_entries(pos0, i + 1) == vblank_entries(pos0, i as int) + v1);
                assert(stat_fired(p0, bb) == (st || (on_oam && line_start && (ly1 as u32) < VISIBLE_LINES) || (on_vblank
                    && v1 > 0) || (on_hblank && hb) || (on_lyc && line_start && ly1 == lyc)));
            }
            st = st || (on_oam && line_start && (ly1 as u32) < VISIBLE_LINES) || (on_vblank && v1 > 0) || (on_hblank
                && hb) || (on_lyc && line_start && ly1 == lyc);
            vb = vb || v1 > 0;
            i = i + 1;
        }
        if vb || st {
            let v = self.bus.read(IF_ADDR);
            self.bus.write(IF_ADDR, with_requests(v, vb, st));
            assert(self.bus.io@ == pre.bus.io@.update(0x0F, with_requests_spec(v, vb, st)));
        }
        proof {
            reveal(sync_post);
        }
    }

    /// One step of the whole machine: a CPU step, then the PPU moved on by
    /// the cycles it took (see `sync_ppu`).
    #[verifier::rlimit(50)]
    pub fn tick(&mut self) -> (cycles: u32)
        requires
            old(self).wf(),
        ensures
            final(self).wf(),
            exists|mid: Cpu| mid.wf() && step_post(*old(self), mid, cycles) && #[trigger] sync_post(mid, *final(self), cycles),
            4 <= cycles <= 24,
            final(self).bus.ppu.pos() == advance_pos(old(self).bus.ppu.pos(), cycles as int),
            vblank_entries(old(self).bus.ppu.pos(), cycles as int) > 0 ==> final(self).bus.if_spec() % 2 == 1,
    {
        let cycles = self.step();
        let ghost mid = *self;
        self.sync_ppu(cycles);
        assert(mid.wf() && step_post(*old(self), mid, cycles) && sync_post(mid, *self, cycles));
        cycles
    }
    /// Runs whole steps until the PPU enters V-blank, when the framebuffer
    /// holds a complete frame for the host. Returns the cycles taken, less
    /// than a frame plus one step.
    pub fn run_frame(&mut self) -> (total: u32)
        requires
            old(self).wf(),
        ensures
            final(self).wf(),
            final(self).bus.ppu.pos() == advance_pos(old(self).bus.ppu.pos(), total as int),
            vblank_entries(old(self).bus.ppu.pos(), total as int) == 1,
            final(self).bus.if_spec() % 2 == 1,
            total < FRAME_CYCLES + 24,
    {
        let ghost p0 = self.bus.ppu.pos();
        let mut total: u32 = 0;
        loop
            invariant
                self.wf(),
                p0 == old(self).bus.ppu.pos(),
                0 <= p0 < FRAME_CYCLES,
                total < FRAME_CYCLES,
                self.bus.ppu.pos() == advance_pos(p0, total as int),
                vblank_entries(p0, total as int) == 0,
            decreases FRAME_CYCLES - total,
        {
            let ly: u64 = self.bus.ppu.ly as u64;
            let dot: u64 = self.bus.ppu.dot as u64;
            let pos: u64 = ly * 456 + dot;
            proof {
                assert(pos < FRAME_CYCLES) by (nonlinear_arith)
                    requires pos == ly * 456 + dot, ly < 154, dot < 456;
                lemma_mod_bound(p0 + total, FRAME_CYCLES as int);
            }
            let c = self.tick();
            proof {
                lemma_advance_split(p0, total as nat, c as nat);
            }
            let entered: bool = (pos + c as u64 + VBLANK_CYCLES as u64) / FRAME_CYCLES as u64 > (pos
                + VBLANK_CYCLES as u64) / FRAME_CYCLES as u64;
            let next: u32 = total + c;
            if entered {
                proof {
                    assert(vblank_entries(pos as int, c as int) == 1) by {
                        lemma_line_entries_small(pos as int, c as int);
                    }
                }
                return next;
            }
            proof {
                if next >= FRAME_CYCLES {
                    lemma_frame_enters_vblank(p0, next as int);
                }
            }
            total = next;
        }
    }
}

} // verus!
