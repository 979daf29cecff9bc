use gbcore::alu::{alu, dec8, inc8, AluOp};
use gbcore::bus::MemoryBus;
use gbcore::cartridge::Cartridge;
use gbcore::ppu::{Ppu, PpuMode};
use gbcore::regs::{as_u16, split_u16, Flags, Pair, Registers};

fn fl(zero: bool, sub: bool, half: bool, carry: bool) -> Flags {
    Flags { zero, sub, half, carry }
}

#[test]
fn pair_round_trip_all_values() {
    for v in 0..=0xFFFFu32 {
        let v = v as u16;
        let (hi, lo) = split_u16(v);
        assert_eq!(as_u16((hi, lo)), v);
    }
    assert_eq!(as_u16((0x12, 0x34)), 0x1234);
    let mut r = Registers::zeroed();
    r.write_pair(Pair::HL, 0xBEEF);
    assert_eq!((r.h, r.l), (0xBE, 0xEF));
    assert_eq!(r.read_pair(Pair::HL), 0xBEEF);
    r.write_pair(Pair::AF, 0x12FF);
    assert_eq!(r.read_pair(Pair::AF), 0x12F0);
}

#[test]
fn add_flag_boundaries() {
    assert_eq!(alu(AluOp::Add, 0x00, 0x00, false), (0x00, fl(true, false, false, false)));
    assert_eq!(alu(AluOp::Add, 0xFF, 0x01, false), (0x00, fl(true, false, true, true)));
    assert_eq!(alu(AluOp::Add, 0x0F, 0x01, false), (0x10, fl(false, false, true, false)));
    assert_eq!(alu(AluOp::Add, 0xFF, 0xFF, false), (0xFE, fl(false, false, true, true)));
    assert_eq!(alu(AluOp::Adc, 0x0E, 0x01, true), (0x10, fl(false, false, true, false)));
}

#[test]
fn sub_and_logic_flags() {
    assert_eq!(alu(AluOp::Sub, 0x00, 0x01, false), (0xFF, fl(false, true, true, true)));
    assert_eq!(alu(AluOp::Sub, 0x10, 0x10, false), (0x00, fl(true, true, false, false)));
    assert_eq!(alu(AluOp::Sbc, 0x10, 0x0F, true), (0x00, fl(true, true, true, false)));
    assert_eq!(alu(AluOp::Cp, 0x3C, 0x40, false), (0x3C, fl(false, true, false, true)));
    assert_eq!(alu(AluOp::And, 0xF0, 0x0F, false), (0x00, fl(true, false, true, false)));
    assert_eq!(alu(AluOp::Or, 0xF0, 0x0F, false), (0xFF, fl(false, false, false, false)));
    assert_eq!(alu(AluOp::Xor, 0xFF, 0xFF, false), (0x00, fl(true, false, false, false)));
}

#[test]
fn inc_dec_flags() {
    assert_eq!(inc8(0xFF, fl(false, true, false, true)), (0x00, fl(true, false, true, true)));
    assert_eq!(inc8(0x0F, fl(false, false, false, false)), (0x10, fl(false, false, true, false)));
    assert_eq!(dec8(0x01, fl(false, false, false, false)), (0x00, fl(true, true, false, false)));
    assert_eq!(dec8(0x00, fl(false, false, false, true)), (0xFF, fl(false, true, true, true)));
}

#[test]
fn scanline_modes_in_order() {
    let mut p = Ppu::new();
    let mut modes = Vec::new();
    for _ in 0..456 {
        modes.push(p.mode());
        p.advance(1);
    }
    assert!(modes[..80].iter().all(|m| *m == PpuMode::Scan));
    assert!(modes[80..252].iter().all(|m| *m == PpuMode::Drawing));
    assert!(modes[252..].iter().all(|m| *m == PpuMode::HBlank));
    assert_eq!(p.ly, 1);
    assert_eq!(p.dot, 0);
    assert_eq!(p.mode(), PpuMode::Scan);
}

#[test]
fn advance_split_matches_single_call() {
    let mut a = Ppu::new();
    let mut b = Ppu::new();
    a.advance(456);
    for n in [1u32, 79, 100, 72, 204] {
        b.advance(n);
    }
    assert_eq!((a.ly, a.dot), (b.ly, b.dot));
    let mut c = Ppu::new();
    let mut d = Ppu::new();
    let v1 = c.advance(100_000);
    let v2 = d.advance(50_000) + d.advance(50_000);
    assert_eq!((c.ly, c.dot), (d.ly, d.dot));
    assert_eq!(v1, v2);
}

#[test]
fn ly_counts_lines_and_wraps() {
    let mut p = Ppu::new();
    for line in 1..=154u32 {
        p.advance(456);
        assert_eq!(p.ly as u32, line % 154);
    }
    assert_eq!(p.ly, 0);
    assert_eq!(p.mode(), PpuMode::Scan);
}

#[test]
fn full_visible_frame_enters_vblank_once() {
    let mut p = Ppu::new();
    let mut vblanks = 0;
    for _ in 0..144 {
        vblanks += p.advance(456);
    }
    assert_eq!(p.ly, 144);
    assert_eq!(p.mode(), PpuMode::VBlank);
    assert_eq!(vblanks, 1);
}

#[test]
fn stat_reports_mode_and_coincidence() {
    let mut p = Ppu::new();
    assert_eq!(p.read_stat() & 0x07, 0x06);
    p.advance(100);
    assert_eq!(p.read_stat() & 0x03, 3);
}

#[test]
fn bus_routes_and_echoes() {
    let mut bus = MemoryBus::new();
    bus.write(0xC123, 0x77);
    assert_eq!(bus.read(0xE123), 0x77);
    bus.write(0xFF85, 0x11);
    assert_eq!(bus.read(0xFF85), 0x11);
    bus.write(0xFFFF, 0x1F);
    assert_eq!(bus.read(0xFFFF), 0x1F);
    assert_eq!(bus.read(0xFEA5), 0xFF);
    assert_eq!(bus.read(0x0000), 0xFF);
    bus.write(0x8000, 0x5A);
    assert_eq!(bus.read(0x8000), 0x5A);
    bus.write(0xFF44, 0x33);
    assert_eq!(bus.read(0xFF44), 0);
}

#[test]
fn vram_locked_during_pixel_transfer() {
    let mut bus = MemoryBus::new();
    bus.write(0x8000, 0x5A);
    bus.ppu.advance(100);
    assert_eq!(bus.read(0x8000), 0xFF);
    bus.write(0x8000, 0x01);
    bus.write(0xFE00, 0x01);
    bus.ppu.advance(200);
    assert_eq!(bus.read(0x8000), 0x5A);
    assert_eq!(bus.read(0xFE00), 0x00);
}

#[test]
fn mbc1_switches_rom_bank() {
    let mut rom = vec![0u8; 0x10000];
    rom[0x147] = 0x01;
    rom[0x4000] = 1;
    rom[0x8000] = 2;
    rom[0xC000] = 3;
    let mut c = Cartridge::load(rom).unwrap();
    assert_eq!(c.read(0x4000), 1);
    c.write(0x2000, 2);
    assert_eq!(c.read(0x4000), 2);
    c.write(0x2000, 3);
    assert_eq!(c.read(0x4000), 3);
    c.write(0x2000, 0);
    assert_eq!(c.read(0x4000), 1);
    assert_eq!(c.read(0xA000), 0xFF);
    c.write(0x0000, 0x0A);
    c.write(0xA010, 0x99);
    assert_eq!(c.read(0xA010), 0x99);
}

#[test]
fn flat_rom_ignores_writes() {
    let mut rom = vec![0u8; 0x8000];
    rom[0x4000] = 9;
    let mut c = Cartridge::load(rom).unwrap();
    c.write(0x2000, 2);
    assert_eq!(c.read(0x4000), 9);
    assert_eq!(c.read(0x0147), 0);
}

#[test]
fn background_line_through_palette() {
    let mut p = Ppu::new();
    let mut vram = vec![0u8; 0x4000];
    // Tile 1 (unsigned addressing, LCDC bit 4 set): row 0 all color 3.
    vram[16] = 0xFF;
    vram[17] = 0xFF;
    // Map entry (0,0) uses tile 1.
    vram[0x1800] = 1;
    p.lcdc = 0x91;
    p.bgp = 0xE4;
    p.render_line(&vram);
    assert!(p.framebuffer[..8].iter().all(|s| *s == 3));
    assert!(p.framebuffer[8..160].iter().all(|s| *s == 0));
    p.bgp = 0x1B;
    p.render_line(&vram);
    assert!(p.framebuffer[..8].iter().all(|s| *s == 0));
    assert!(p.framebuffer[8..160].iter().all(|s| *s == 3));
}

#[test]
fn sprite_drawn_over_background() {
    let mut p = Ppu::new();
    let mut vram = vec![0u8; 0x4000];
    // Tile 2: row 0 color 1 in every column.
    vram[32] = 0xFF;
    // Sprite 0 at screen (0,0) using tile 2; sprite 1 at x=4 also tile 2.
    p.oam[0] = 16;
    p.oam[1] = 8;
    p.oam[2] = 2;
    p.oam[3] = 0;
    p.oam[4] = 16;
    p.oam[5] = 12;
    p.oam[6] = 2;
    p.oam[7] = 0x10;
    p.lcdc = 0x93;
    p.bgp = 0xE4;
    p.obp0 = 0xE4;
    p.obp1 = 0x00;
    p.render_line(&vram);
    // Columns 0..8 from sprite 0 (lower X wins), shade 1 through OBP0.
    assert!(p.framebuffer[..8].iter().all(|s| *s == 1));
    // Columns 8..12 from sprite 1 through OBP1: shade 0.
    assert!(p.framebuffer[8..12].iter().all(|s| *s == 0));
    let sel = p.select_sprites();
    assert_eq!(sel, vec![0, 1]);
}

#[test]
fn at_most_ten_sprites_per_line() {
    let mut p = Ppu::new();
    for i in 0..40 {
        p.oam[4 * i] = 16;
        p.oam[4 * i + 1] = i as u8;
    }
    let sel = p.select_sprites();
    assert_eq!(sel, (0..10).collect::<Vec<usize>>());
}

#[test]
fn sprites_and_scroll_lengthen_pixel_transfer() {
    let mut p = Ppu::new();
    // Two sprites on line 1, fine scroll of 3.
    p.oam[0] = 17;
    p.oam[4] = 17;
    p.scx = 3;
    p.advance(456);
    assert_eq!(p.ly, 1);
    assert_eq!(p.draw_extra, 15);
    p.advance(80 + 172 + 14);
    assert_eq!(p.mode(), PpuMode::Drawing);
    p.advance(1);
    assert_eq!(p.mode(), PpuMode::HBlank);
    let mut q = Ppu::new();
    q.oam[0] = 17;
    q.oam[4] = 17;
    q.scx = 3;
    for n in [100u32, 356, 200, 67] {
        q.advance(n);
    }
    assert_eq!((q.ly, q.dot, q.draw_extra), (p.ly, p.dot, p.draw_extra));
}
