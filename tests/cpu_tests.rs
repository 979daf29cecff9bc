use gbcore::cartridge::FormatError;
use gbcore::cpu::{with_requests, Cpu};
use gbcore::regs::Flags;

fn rom_with(code: &[u8]) -> Vec<u8> {
    let mut rom = vec![0u8; 0x8000];
    for (i, b) in code.iter().enumerate() {
        rom[0x100 + i] = *b;
    }
    rom
}

fn cpu_with(code: &[u8]) -> Cpu {
    let mut cpu = Cpu::new();
    assert!(cpu.load_cartridge(rom_with(code)).is_ok());
    cpu.regs.pc = 0x0100;
    cpu.regs.sp = 0xFFFE;
    cpu
}

#[test]
fn ld_b_n8_loads_immediate() {
    let mut cpu = cpu_with(&[0x06, 0x42]);
    let f = cpu.regs.f;
    let pc = cpu.regs.pc;
    let cycles = cpu.step();
    assert_eq!(cpu.regs.b, 0x42);
    assert_eq!(cpu.regs.pc, pc + 2);
    assert_eq!(cycles, 8);
    assert_eq!(cpu.regs.f, f);
}

#[test]
fn inc_b_wraps_and_keeps_carry() {
    let mut cpu = cpu_with(&[0x04]);
    cpu.regs.b = 0xFF;
    cpu.regs.f = 0x10;
    let cycles = cpu.step();
    assert_eq!(cpu.regs.b, 0x00);
    let f = cpu.regs.flags();
    assert!(f.zero);
    assert!(f.half);
    assert!(!f.sub);
    assert!(f.carry);
    assert_eq!(cycles, 4);

    let mut cpu = cpu_with(&[0x04]);
    cpu.regs.b = 0xFF;
    cpu.regs.f = 0x40;
    cpu.step();
    assert_eq!(cpu.regs.flags(), Flags { zero: true, sub: false, half: true, carry: false });
}

#[test]
fn dec_b_sets_subtract_and_half_borrow() {
    let mut cpu = cpu_with(&[0x05]);
    cpu.regs.b = 0x10;
    cpu.regs.f = 0;
    cpu.step();
    assert_eq!(cpu.regs.b, 0x0F);
    assert_eq!(cpu.regs.flags(), Flags { zero: false, sub: true, half: true, carry: false });
}

#[test]
fn short_image_is_rejected_without_change() {
    let mut cpu = Cpu::new();
    let before = cpu.regs;
    let r = cpu.load_cartridge(vec![0u8; 0x100]);
    assert_eq!(r, Err(FormatError::TooShort(0x100)));
    assert!(cpu.bus.cart.is_none());
    assert_eq!(cpu.regs.pc, before.pc);
    assert_eq!(cpu.regs.a, before.a);
    assert_eq!(cpu.regs.f, before.f);
    assert_eq!(cpu.regs.sp, before.sp);
}

#[test]
fn unsupported_controller_is_rejected() {
    let mut rom = vec![0u8; 0x8000];
    rom[0x147] = 0x19;
    let mut cpu = Cpu::new();
    assert_eq!(cpu.load_cartridge(rom), Err(FormatError::UnsupportedMbc(0x19)));
    assert!(cpu.bus.cart.is_none());
}

#[test]
fn ld_register_to_register_and_alu() {
    // LD C,B ; ADD A,C ; SUB A,0x01 ; XOR A
    let mut cpu = cpu_with(&[0x48, 0x81, 0xD6, 0x01, 0xAF]);
    cpu.regs.a = 0x0F;
    cpu.regs.b = 0x01;
    assert_eq!(cpu.step(), 4);
    assert_eq!(cpu.regs.c, 0x01);
    assert_eq!(cpu.step(), 4);
    assert_eq!(cpu.regs.a, 0x10);
    assert_eq!(cpu.regs.flags(), Flags { zero: false, sub: false, half: true, carry: false });
    assert_eq!(cpu.step(), 8);
    assert_eq!(cpu.regs.a, 0x0F);
    assert_eq!(cpu.regs.flags(), Flags { zero: false, sub: true, half: true, carry: false });
    assert_eq!(cpu.step(), 4);
    assert_eq!(cpu.regs.a, 0);
    assert_eq!(cpu.regs.flags(), Flags { zero: true, sub: false, half: false, carry: false });
}

#[test]
fn jump_call_and_return() {
    // JP 0x0150 ; at 0x150: CALL 0x0160 ; at 0x160: RET
    let mut rom = rom_with(&[0xC3, 0x50, 0x01]);
    rom[0x150] = 0xCD;
    rom[0x151] = 0x60;
    rom[0x152] = 0x01;
    rom[0x160] = 0xC9;
    let mut cpu = Cpu::new();
    cpu.load_cartridge(rom).unwrap();
    cpu.regs.pc = 0x0100;
    cpu.regs.sp = 0xFFFE;
    assert_eq!(cpu.step(), 16);
    assert_eq!(cpu.regs.pc, 0x0150);
    assert_eq!(cpu.step(), 24);
    assert_eq!(cpu.regs.pc, 0x0160);
    assert_eq!(cpu.regs.sp, 0xFFFC);
    assert_eq!(cpu.step(), 16);
    assert_eq!(cpu.regs.pc, 0x0153);
    assert_eq!(cpu.regs.sp, 0xFFFE);
}

#[test]
fn conditional_relative_jump_costs() {
    // JR NZ,+2 with Z set (not taken), then JR Z,+2 (taken)
    let mut cpu = cpu_with(&[0x20, 0x02, 0x28, 0x02]);
    cpu.regs.f = 0x80;
    assert_eq!(cpu.step(), 8);
    assert_eq!(cpu.regs.pc, 0x0102);
    assert_eq!(cpu.step(), 12);
    assert_eq!(cpu.regs.pc, 0x0106);
}

#[test]
fn push_pop_af_clears_low_nibble() {
    // LD BC,0x12FF ; PUSH BC ; POP AF
    let mut cpu = cpu_with(&[0x01, 0xFF, 0x12, 0xC5, 0xF1]);
    assert_eq!(cpu.step(), 12);
    assert_eq!(cpu.regs.b, 0x12);
    assert_eq!(cpu.regs.c, 0xFF);
    assert_eq!(cpu.step(), 16);
    assert_eq!(cpu.step(), 12);
    assert_eq!(cpu.regs.a, 0x12);
    assert_eq!(cpu.regs.f, 0xF0);
}

#[test]
fn extended_table_ops() {
    // SWAP B ; BIT 7,B ; SET 0,B ; RES 4,B
    let mut cpu = cpu_with(&[0xCB, 0x30, 0xCB, 0x78, 0xCB, 0xC0, 0xCB, 0xA0]);
    cpu.regs.b = 0x1E;
    assert_eq!(cpu.step(), 8);
    assert_eq!(cpu.regs.b, 0xE1);
    assert_eq!(cpu.step(), 8);
    assert!(!cpu.regs.flags().zero);
    assert!(cpu.regs.flags().half);
    assert_eq!(cpu.step(), 8);
    assert_eq!(cpu.regs.b, 0xE1);
    assert_eq!(cpu.step(), 8);
    assert_eq!(cpu.regs.b, 0xE1);
    cpu.regs.b = 0x10;
    cpu.regs.pc = 0x0106;
    cpu.step();
    assert_eq!(cpu.regs.b, 0x00);
}

#[test]
fn interrupt_is_dispatched_before_fetch() {
    let mut cpu = cpu_with(&[0x00]);
    cpu.ime = true;
    cpu.bus.write(0xFFFF, 0x01);
    cpu.bus.write(0xFF0F, 0x01);
    let cycles = cpu.step();
    assert_eq!(cycles, 20);
    assert_eq!(cpu.regs.pc, 0x0040);
    assert!(!cpu.ime);
    assert_eq!(cpu.bus.read(0xFF0F) & 0x01, 0);
    assert_eq!(cpu.regs.sp, 0xFFFC);
    assert_eq!(cpu.bus.read(0xFFFC), 0x00);
    assert_eq!(cpu.bus.read(0xFFFD), 0x01);
}

#[test]
fn illegal_opcode_locks_up() {
    let mut cpu = cpu_with(&[0xD3, 0x00]);
    cpu.step();
    assert!(cpu.locked_up);
    let pc = cpu.regs.pc;
    assert_eq!(cpu.step(), 4);
    assert_eq!(cpu.regs.pc, pc);
}

#[test]
fn tick_requests_vblank_once_per_frame() {
    // JR -2: an endless loop of 12-cycle steps.
    let mut cpu = cpu_with(&[0x18, 0xFE]);
    let mut total: u32 = 0;
    while total < 144 * 456 {
        total += cpu.tick();
    }
    assert_eq!(cpu.bus.ppu.ly, 144);
    assert_eq!(cpu.bus.read(0xFF0F) & 0x01, 0x01);
}

#[test]
fn daa_after_bcd_add() {
    // LD A,0x15 ; ADD A,0x27 ; DAA  => 0x42
    let mut cpu = cpu_with(&[0x3E, 0x15, 0xC6, 0x27, 0x27]);
    cpu.step();
    cpu.step();
    assert_eq!(cpu.regs.a, 0x3C);
    cpu.step();
    assert_eq!(cpu.regs.a, 0x42);
    assert!(!cpu.regs.flags().carry);
    assert!(!cpu.regs.flags().zero);
}

#[test]
fn daa_after_bcd_sub() {
    // LD A,0x10 ; SUB A,0x01 ; DAA => 0x09
    let mut cpu = cpu_with(&[0x3E, 0x10, 0xD6, 0x01, 0x27]);
    cpu.step();
    cpu.step();
    cpu.step();
    assert_eq!(cpu.regs.a, 0x09);
}

#[test]
fn cpl_scf_ccf_and_rotates() {
    // CPL ; SCF ; CCF ; RLCA
    let mut cpu = cpu_with(&[0x2F, 0x37, 0x3F, 0x07]);
    cpu.regs.a = 0x85;
    cpu.regs.f = 0x80;
    cpu.step();
    assert_eq!(cpu.regs.a, 0x7A);
    assert_eq!(cpu.regs.flags(), Flags { zero: true, sub: true, half: true, carry: false });
    cpu.step();
    assert_eq!(cpu.regs.flags(), Flags { zero: true, sub: false, half: false, carry: true });
    cpu.step();
    assert!(!cpu.regs.flags().carry);
    cpu.step();
    assert_eq!(cpu.regs.a, 0xF4);
    assert_eq!(cpu.regs.flags(), Flags { zero: false, sub: false, half: false, carry: false });
}

#[test]
fn rst_pushes_and_jumps() {
    let mut cpu = cpu_with(&[0xEF]);
    assert_eq!(cpu.step(), 16);
    assert_eq!(cpu.regs.pc, 0x0028);
    assert_eq!(cpu.regs.sp, 0xFFFC);
    assert_eq!(cpu.bus.read(0xFFFC), 0x01);
    assert_eq!(cpu.bus.read(0xFFFD), 0x01);
}

#[test]
fn sixteen_bit_inc_dec_and_add() {
    // INC BC ; DEC DE ; ADD HL,BC
    let mut cpu = cpu_with(&[0x03, 0x1B, 0x09]);
    cpu.regs.b = 0x00;
    cpu.regs.c = 0xFF;
    cpu.regs.d = 0x00;
    cpu.regs.e = 0x00;
    cpu.regs.h = 0x0F;
    cpu.regs.l = 0x00;
    cpu.regs.f = 0x80;
    assert_eq!(cpu.step(), 8);
    assert_eq!((cpu.regs.b, cpu.regs.c), (0x01, 0x00));
    assert_eq!(cpu.step(), 8);
    assert_eq!((cpu.regs.d, cpu.regs.e), (0xFF, 0xFF));
    assert_eq!(cpu.step(), 8);
    assert_eq!((cpu.regs.h, cpu.regs.l), (0x10, 0x00));
    assert_eq!(cpu.regs.flags(), Flags { zero: true, sub: false, half: true, carry: false });
}

#[test]
fn ldh_reads_io_register() {
    // LDH A,(0x44) reads LY
    let mut cpu = cpu_with(&[0xF0, 0x44]);
    cpu.bus.ppu.advance(456 * 3);
    assert_eq!(cpu.step(), 12);
    assert_eq!(cpu.regs.a, 3);
}

#[test]
fn oam_dma_copies_page() {
    let mut cpu = Cpu::new();
    for i in 0..160u16 {
        cpu.bus.write(0xC000 + i, i as u8);
    }
    cpu.bus.write(0xFF46, 0xC0);
    assert_eq!(cpu.bus.ppu.oam[0], 0);
    assert_eq!(cpu.bus.ppu.oam[159], 159);
}

#[test]
fn halted_cpu_wakes_on_request() {
    let mut cpu = cpu_with(&[0x76, 0x00]);
    cpu.step();
    assert!(cpu.halted);
    assert_eq!(cpu.step(), 4);
    assert_eq!(cpu.regs.pc, 0x0101);
    cpu.bus.write(0xFFFF, 0x01);
    cpu.bus.write(0xFF0F, 0x01);
    cpu.step();
    assert!(!cpu.halted);
    assert_eq!(cpu.regs.pc, 0x0102);
}

#[test]
fn run_frame_stops_at_vblank() {
    let mut cpu = cpu_with(&[0x18, 0xFE]);
    let first = cpu.run_frame();
    assert!(first >= 144 * 456 && first < 144 * 456 + 24);
    assert_eq!(cpu.bus.ppu.ly, 144);
    assert_eq!(cpu.bus.read(0xFF0F) & 0x01, 0x01);
    let second = cpu.run_frame();
    assert!(second > 70224 - 24 && second < 70224 + 24);
    assert_eq!(cpu.bus.ppu.ly, 144);
}

#[test]
fn stat_interrupt_on_hblank_entry() {
    let mut cpu = cpu_with(&[0x18, 0xFE]);
    cpu.bus.write(0xFF41, 0x08);
    let mut total: u32 = 0;
    while total < 260 {
        total += cpu.tick();
    }
    assert_eq!(cpu.bus.read(0xFF0F) & 0x02, 0x02);
    assert_eq!(cpu.bus.read(0xFF0F) & 0x01, 0x00);
}

#[test]
fn interrupt_requests_keep_other_bits() {
    assert_eq!(with_requests(0x00, true, false), 0x01);
    assert_eq!(with_requests(0x00, false, true), 0x02);
    assert_eq!(with_requests(0x04, true, true), 0x07);
    assert_eq!(with_requests(0x03, true, true), 0x03);
    assert_eq!(with_requests(0x10, false, false), 0x10);
}

#[test]
fn power_on_state_is_zero() {
    let cpu = Cpu::new();
    let r = Cpu::init_regs();
    for v in [r.a, r.f, r.b, r.c, r.d, r.e, r.h, r.l] {
        assert_eq!(v, 0);
    }
    assert_eq!((r.sp, r.pc), (0, 0));
    assert_eq!((cpu.regs.sp, cpu.regs.pc, cpu.regs.a), (0, 0, 0));
    assert_eq!(cpu.bus.wram.len(), 32768);
    assert_eq!(cpu.bus.vram.len(), 16384);
    assert_eq!(cpu.bus.hram.len(), 127);
    assert_eq!(cpu.bus.ppu.oam.len(), 160);
    assert_eq!(cpu.bus.ppu.framebuffer.len(), 160 * 144);
    assert!(cpu.bus.wram.iter().all(|b| *b == 0));
}

#[test]
fn work_ram_and_video_ram_banks() {
    let mut cpu = Cpu::new();
    cpu.bus.write(0xD000, 0x11);
    cpu.bus.write(0xFF70, 0x02);
    assert_eq!(cpu.bus.read(0xD000), 0x00);
    cpu.bus.write(0xD000, 0x22);
    cpu.bus.write(0xFF70, 0x00);
    assert_eq!(cpu.bus.read(0xD000), 0x11);
    cpu.bus.write(0xFF70, 0x02);
    assert_eq!(cpu.bus.read(0xF000), 0x22);
    cpu.bus.write(0x8000, 0x33);
    cpu.bus.write(0xFF4F, 0x01);
    assert_eq!(cpu.bus.read(0x8000), 0x00);
    cpu.bus.write(0xFF4F, 0x00);
    assert_eq!(cpu.bus.read(0x8000), 0x33);
}

#[test]
fn ld_a16_sp_stores_little_endian() {
    let mut cpu = cpu_with(&[0x08, 0x00, 0xC0]);
    cpu.regs.sp = 0xBEEF;
    assert_eq!(cpu.step(), 20);
    assert_eq!(cpu.bus.read(0xC000), 0xEF);
    assert_eq!(cpu.bus.read(0xC001), 0xBE);
}

#[test]
fn one_long_sync_draws_every_line_it_passes() {
    let mut a = Cpu::new();
    a.bus.ppu.bgp = 0xFF;
    let mut b = Cpu::new();
    b.bus.ppu.bgp = 0xFF;
    a.sync_ppu(456);
    a.sync_ppu(456);
    b.sync_ppu(912);
    assert_eq!(a.bus.ppu.framebuffer, b.bus.ppu.framebuffer);
    assert!(b.bus.ppu.framebuffer[..320].iter().all(|s| *s == 3));
    assert!(b.bus.ppu.framebuffer[320..].iter().all(|s| *s == 0));
    assert_eq!((a.bus.ppu.ly, a.bus.ppu.dot), (b.bus.ppu.ly, b.bus.ppu.dot));
}

#[test]
fn stat_requested_for_entries_inside_one_sync() {
    let mut cpu = Cpu::new();
    cpu.bus.write(0xFF41, 0x20);
    cpu.sync_ppu(556);
    assert_eq!(cpu.bus.read(0xFF0F) & 0x02, 0x02);
    let mut split = Cpu::new();
    split.bus.write(0xFF41, 0x20);
    split.sync_ppu(300);
    split.sync_ppu(256);
    assert_eq!(split.bus.read(0xFF0F), cpu.bus.read(0xFF0F));
}

#[test]
fn whole_frame_in_one_sync_requests_vblank() {
    let mut cpu = Cpu::new();
    cpu.sync_ppu(70224);
    assert_eq!(cpu.bus.read(0xFF0F) & 0x01, 0x01);
    assert_eq!((cpu.bus.ppu.ly, cpu.bus.ppu.dot), (0, 0));
}
