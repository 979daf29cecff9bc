use vstd::prelude::*;
use crate::cartridge::{cart_written, Cartridge};
use crate::ppu::{Ppu, PpuMode, OAM_SIZE};

verus! {

/// Work RAM: eight 4 KiB banks; bank 0 at 0xC000, the bank SVBK selects at 0xD000.
pub const WRAM_SIZE: usize = 0x8000;
/// Video RAM: two 8 KiB banks; VBK selects the one at 0x8000.
pub const VRAM_SIZE: usize = 0x4000;
/// Video RAM bank select.
pub const VBK_ADDR: u16 = 0xFF4F;
/// Work RAM bank select.
pub const SVBK_ADDR: u16 = 0xFF70;
pub const HRAM_SIZE: usize = 127;
pub const IO_SIZE: usize = 128;
/// Interrupt-flag register.
pub const IF_ADDR: u16 = 0xFF0F;
/// Interrupt-enable register.
pub const IE_ADDR: u16 = 0xFFFF;
/// What the CPU reads where nothing answers.
pub const OPEN_BUS: u8 = 0xFF;
/// Writing here copies 160 bytes from (value × 0x100) into sprite memory;
/// pages 0xFE and 0xFF, which hold sprite memory and I/O, are not copied.
pub const DMA_ADDR: u16 = 0xFF46;

/// The 64 KiB address space: cartridge, video RAM, work RAM and its echo,
/// sprite memory, I/O registers, high RAM and the interrupt-enable register.
pub struct MemoryBus {
    pub cart: Option<Cartridge>,
    pub vram: Vec<u8>,
    pub wram: Vec<u8>,
    pub hram: Vec<u8>,
    pub io: Vec<u8>,
    pub ie: u8,
    pub ppu: Ppu,
}

/// Work-RAM offset of an address in 0xC000–0xFDFF (0xE000–0xFDFF echoes
/// 0xC000–0xDDFF) when SVBK holds `svbk`: 0xD000–0xDFFF shows bank
/// `svbk % 8`, where 0 selects bank 1.
pub open spec fn wram_index(addr: u16, svbk: u8) -> int {
    let off: int = if addr < 0xE000 { addr - 0xC000 } else { addr - 0xE000 };
    let bank: int = if svbk % 8 == 0 { 1 } else { (svbk % 8) as int };
    if off < 0x1000 { off } else { bank * 0x1000 + off - 0x1000 }
}

/// Video-RAM offset of an address in 0x8000–0x9FFF when VBK holds `vbk`.
pub open spec fn vram_index(addr: u16, vbk: u8) -> int {
    (vbk % 2) * 0x2000 + addr - 0x8000
}

/// Computes `wram_index`.
pub fn wram_offset(addr: u16, svbk: u8) -> (r: usize)
    requires
        0xC000 <= addr < 0xFE00,
    ensures
        r == wram_index(addr, svbk),
        r < WRAM_SIZE,
{
    let off: usize = if addr < 0xE000 { addr as usize - 0xC000 } else { addr as usize - 0xE000 };
    let bank: usize = if svbk % 8 == 0 { 1 } else { (svbk % 8) as usize };
    if off < 0x1000 { off } else { bank * 0x1000 + off - 0x1000 }
}

/// Computes `vram_index`.
pub fn vram_offset(addr: u16, vbk: u8) -> (r: usize)
    requires
        0x8000 <= addr < 0xA000,
    ensures
        r == vram_index(addr, vbk),
        r < VRAM_SIZE,
{
    (vbk % 2) as usize * 0x2000 + addr as usize - 0x8000
}

/// The PPU registers after a write of `value` to `addr`: the one register
/// at `addr`, if any, takes the value; every other keeps its own.
pub open spec fn regs_written(old: Ppu, new: Ppu, addr: u16, value: u8) -> bool {
    &&& new.lcdc == (if addr == 0xFF40 { value } else { old.lcdc })
    &&& new.stat == (if addr == 0xFF41 { value } else { old.stat })
    &&& new.scy == (if addr == 0xFF42 { value } else { old.scy })
    &&& new.scx == (if addr == 0xFF43 { value } else { old.scx })
    &&& new.lyc == (if addr == 0xFF45 { value } else { old.lyc })
    &&& new.bgp == (if addr == 0xFF47 { value } else { old.bgp })
    &&& new.obp0 == (if addr == 0xFF48 { value } else { old.obp0 })
    &&& new.obp1 == (if addr == 0xFF49 { value } else { old.obp1 })
    &&& new.wy == (if addr == 0xFF4A { value } else { old.wy })
    &&& new.wx == (if addr == 0xFF4B { value } else { old.wx })
}

/// What a CPU write of `value` to `addr` does to the bus, from `old` to `new`.
pub open spec fn written(old: MemoryBus, new: MemoryBus, addr: u16, value: u8) -> bool {
    &&& (new.ppu.ly == old.ppu.ly)
    &&& (new.ppu.dot == old.ppu.dot)
    &&& (new.ppu.draw_extra == old.ppu.draw_extra)
    &&& (0xC000 <= addr < 0xFE00 ==> new.wram@ == old.wram@.update(wram_index(addr, old.io@[0x70]), value))
    &&& (!(0xC000 <= addr < 0xFE00) ==> new.wram@ == old.wram@)
    &&& (0xFF80 <= addr < 0xFFFF ==> new.hram@ == old.hram@.update(addr - 0xFF80, value))
    &&& (!(0xFF80 <= addr < 0xFFFF) ==> new.hram@ == old.hram@)
    &&& (addr == IE_ADDR ==> new.ie == value)
    &&& (0xC000 <= addr < 0xFE00 || 0xFF80 <= addr ==> new.read_spec(addr) == value)
    &&& (addr != IE_ADDR ==> new.ie == old.ie)
    &&& (0x8000 <= addr < 0xA000 && !old.locked() ==> new.vram@ == old.vram@.update(vram_index(addr, old.io@[0x4F]), value))
    &&& (!(0x8000 <= addr < 0xA000 && !old.locked()) ==> new.vram@ == old.vram@)
    &&& (0xFE00 <= addr < 0xFEA0 && !old.locked() ==> new.ppu.oam@ == old.ppu.oam@.update(addr - 0xFE00, value))
    &&& (!(0xFE00 <= addr < 0xFEA0 && !old.locked()) && !(addr == DMA_ADDR && value < 0xFE)
        ==> new.ppu.oam@ == old.ppu.oam@)
    &&& (addr == DMA_ADDR && value < 0xFE ==> forall|i: int|
        0 <= i < OAM_SIZE ==> #[trigger] new.ppu.oam@[i] == old.read_spec((value * 256 + i) as u16))
    &&& (0xFF00 <= addr < 0xFF80 && !(0xFF40 <= addr < 0xFF4C) ==> new.io@ == old.io@.update(addr - 0xFF00, value))
    &&& (!(0xFF00 <= addr < 0xFF80 && !(0xFF40 <= addr < 0xFF4C)) ==> new.io@ == old.io@)
    &&& (0xFF40 <= addr < 0xFF4C && addr != 0xFF41 && addr != 0xFF44 && addr != 0xFF46
        ==> new.io_spec(addr) == value)
    &&& (addr == 0xFF41 ==> new.ppu.stat == value)
    &&& regs_written(old.ppu, new.ppu, addr, value)
    &&& (new.ppu.framebuffer == old.ppu.framebuffer)
    &&& (addr < 0x8000 || 0xA000 <= addr < 0xC000 ==> match old.cart {
        Some(o) => new.cart matches Some(n) && cart_written(o, n, addr, value),
        None => new.cart is None,
    })
    &&& (!(addr < 0x8000 || 0xA000 <= addr < 0xC000) ==> new.cart == old.cart)
}

impl MemoryBus {
    /// Each region has its fixed size; the PPU and cartridge are well formed.
    pub open spec fn wf(&self) -> bool {
        &&& self.vram@.len() == VRAM_SIZE
        &&& self.wram@.len() == WRAM_SIZE
        &&& self.hram@.len() == HRAM_SIZE
        &&& self.io@.len() == IO_SIZE
        &&& self.ppu.wf()
        &&& (self.cart matches Some(c) ==> c.wf())
    }

    /// The state `new` gives: no cartridge, every memory byte and register
    /// zero, and the PPU as `Ppu::new` builds it.
    pub open spec fn initial(&self) -> bool {
        &&& self.wf()
        &&& self.cart is None
        &&& self.vram@ == Seq::new(VRAM_SIZE as nat, |i: int| 0u8)
        &&& self.wram@ == Seq::new(WRAM_SIZE as nat, |i: int| 0u8)
        &&& self.hram@ == Seq::new(HRAM_SIZE as nat, |i: int| 0u8)
        &&& self.io@ == Seq::new(IO_SIZE as nat, |i: int| 0u8)
        &&& self.ie == 0
        &&& self.ppu.initial()
    }

    /// True while the PPU holds video RAM and sprite memory.
    pub open spec fn locked(&self) -> bool {
        self.ppu.mode_spec() == PpuMode::Drawing
    }

    /// What a CPU read of `addr` returns.
    pub open spec fn read_spec(&self, addr: u16) -> u8 {
        if addr < 0x8000 || (0xA000 <= addr < 0xC000) {
            match self.cart {
                Some(c) => c.read_spec(addr),
                None => OPEN_BUS,
            }
        } else if addr < 0xA000 {
            if self.locked() { OPEN_BUS } else { self.vram@[vram_index(addr, self.io@[0x4F])] }
        } else if addr < 0xFE00 {
            self.wram@[wram_index(addr, self.io@[0x70])]
        } else if addr < 0xFEA0 {
            if self.locked() { OPEN_BUS } else { self.ppu.oam@[addr - 0xFE00] }
        } else if addr < 0xFF00 {
            OPEN_BUS
        } else if addr < 0xFF80 {
            self.io_spec(addr)
        } else if addr < 0xFFFF {
            self.hram@[addr - 0xFF80]
        } else {
            self.ie
        }
    }

    /// I/O register reads; the video registers come from the PPU.
    pub open spec fn io_spec(&self, addr: u16) -> u8 {
        if addr == 0xFF40 {
            self.ppu.lcdc
        } else if addr == 0xFF41 {
            self.ppu.stat_spec()
        } else if addr == 0xFF42 {
            self.ppu.scy
        } else if addr == 0xFF43 {
            self.ppu.scx
        } else if addr == 0xFF44 {
            self.ppu.ly
        } else if addr == 0xFF45 {
            self.ppu.lyc
        } else if addr == 0xFF47 {
            self.ppu.bgp
        } else if addr == 0xFF48 {
            self.ppu.obp0
        } else if addr == 0xFF49 {
            self.ppu.obp1
        } else if addr == 0xFF4A {
            self.ppu.wy
        } else if addr == 0xFF4B {
            self.ppu.wx
        } else {
            self.io@[addr - 0xFF00]
        }
    }

    /// A bus with no cartridge, all memory cleared and the PPU at line 0.
    pub fn new() -> (r: MemoryBus)
        ensures
            r.initial(),
    {
        let r = MemoryBus {
            cart: None,
            vram: vec![0u8; VRAM_SIZE],
            wram: vec![0u8; WRAM_SIZE],
            hram: vec![0u8; HRAM_SIZE],
            io: vec![0u8; IO_SIZE],
            ie: 0,
            ppu: Ppu::new(),
        };
        assert(r.vram@ =~= Seq::new(VRAM_SIZE as nat, |i: int| 0u8));
        assert(r.wram@ =~= Seq::new(WRAM_SIZE as nat, |i: int| 0u8));
        assert(r.hram@ =~= Seq::new(HRAM_SIZE as nat, |i: int| 0u8));
        assert(r.io@ =~= Seq::new(IO_SIZE as nat, |i: int| 0u8));
        r
    }

    /// The interrupt-flag register.
    pub open spec fn if_spec(&self) -> u8 {
        self.io@[0x0F]
    }

    /// A CPU read of `addr`.
    pub fn read(&self, addr: u16) -> (r: u8)
        requires
            self.wf(),
        ensures
            r == self.read_spec(addr),
    {
        if addr < 0x8000 || (0xA000 <= addr && addr < 0xC000) {
            match &self.cart {
                Some(c) => c.read(addr),
                None => OPEN_BUS,
            }
        } else if addr < 0xA000 {
            if self.ppu.mode() == PpuMode::Drawing {
                OPEN_BUS
            } else {
                self.vram[vram_offset(addr, self.io[0x4F])]
            }
        } else if addr < 0xFE00 {
            self.wram[wram_offset(addr, self.io[0x70])]
        } else if addr < 0xFEA0 {
            if self.ppu.mode() == PpuMode::Drawing {
                OPEN_BUS
            } else {
                self.ppu.oam[addr as usize - 0xFE00]
            }
        } else if addr < 0xFF00 {
            OPEN_BUS
        } else if addr < 0xFF80 {
            if addr == 0xFF41 {
                self.ppu.read_stat()
            } else {
                self.read_io(addr)
            }
        } else if addr < 0xFFFF {
            self.hram[addr as usize - 0xFF80]
        } else {
            self.ie
        }
    }

    fn read_io(&self, addr: u16) -> (r: u8)
        requires
            self.wf(),
            0xFF00 <= addr < 0xFF80,
            addr != 0xFF41,
        ensures
            r == self.io_spec(addr),
    {
        if addr == 0xFF40 {
            self.ppu.lcdc
        } else if addr == 0xFF42 {
            self.ppu.scy
        } else if addr == 0xFF43 {
            self.ppu.scx
        } else if addr == 0xFF44 {
            self.ppu.ly
        } else if addr == 0xFF45 {
            self.ppu.lyc
        } else if addr == 0xFF47 {
            self.ppu.bgp
        } else if addr == 0xFF48 {
            self.ppu.obp0
        } else if addr == 0xFF49 {
            self.ppu.obp1
        } else if addr == 0xFF4A {
            self.ppu.wy
        } else if addr == 0xFF4B {
            self.ppu.wx
        } else {
            self.io[addr as usize - 0xFF00]
        }
    }
    /// A CPU write of `value` to `addr`. Writes to video RAM and sprite memory
    /// while the PPU holds them, to the unusable region and to LY are ignored.
    pub fn write(&mut self, addr: u16, value: u8)
        requires
            old(self).wf(),
        ensures
            final(self).wf(),
            written(*old(self), *final(self), addr, value),
    {
        if addr < 0x8000 || (0xA000 <= addr && addr < 0xC000) {
            match &mut self.cart {
                Some(c) => c.write(addr, value),
                None => {},
            }
        } else if addr < 0xA000 {
            if self.ppu.mode() != PpuMode::Drawing {
                let i = vram_offset(addr, self.io[0x4F]);
                self.vram.set(i, value);
            }
        } else if addr < 0xFE00 {
            let i = wram_offset(addr, self.io[0x70]);
            self.wram.set(i, value);
        } else if addr < 0xFEA0 {
            if self.ppu.mode() != PpuMode::Drawing {
                self.ppu.oam.set(addr as usize - 0xFE00, value);
            }
        } else if addr < 0xFF00 {
        } else if addr < 0xFF80 {
            self.write_io(addr, value);
        } else if addr < 0xFFFF {
            self.hram.set(addr as usize - 0xFF80, value);
        } else {
            self.ie = value;
        }
    }

    fn write_io(&mut self, addr: u16, value: u8)
        requires
            old(self).wf(),
            0xFF00 <= addr < 0xFF80,
        ensures
            final(self).wf(),
            final(self).cart == old(self).cart,
            final(self).vram == old(self).vram,
            final(self).wram == old(self).wram,
            final(self).hram == old(self).hram,
            final(self).ie == old(self).ie,
            !(addr == DMA_ADDR && value < 0xFE) ==> final(self).ppu.oam == old(self).ppu.oam,
            addr == DMA_ADDR && value < 0xFE ==> forall|i: int|
                0 <= i < OAM_SIZE ==> #[trigger] final(self).ppu.oam@[i] == old(self).read_spec((value * 256 + i) as u16),
            final(self).ppu.ly == old(self).ppu.ly,
            final(self).ppu.dot == old(self).ppu.dot,
            final(self).ppu.draw_extra == old(self).ppu.draw_extra,
            !(0xFF40 <= addr < 0xFF4C) ==> final(self).io@ == old(self).io@.update(addr - 0xFF00, value),
            0xFF40 <= addr < 0xFF4C ==> final(self).io@ == old(self).io@,
            0xFF40 <= addr < 0xFF4C && addr != 0xFF41 && addr != 0xFF44 && addr != 0xFF46
                ==> final(self).io_spec(addr) == value,
            addr == 0xFF41 ==> final(self).ppu.stat == value,
            regs_written(old(self).ppu, final(self).ppu, addr, value),
            final(self).ppu.framebuffer == old(self).ppu.framebuffer,
    {
        if addr == 0xFF40 {
            self.ppu.lcdc = value;
        } else if addr == 0xFF41 {
            self.ppu.stat = value;
        } else if addr == 0xFF42 {
            self.ppu.scy = value;
        } else if addr == 0xFF43 {
            self.ppu.scx = value;
        } else if addr == 0xFF44 {
        } else if addr == 0xFF45 {
            self.ppu.lyc = value;
        } else if addr == DMA_ADDR {
            if value < 0xFE {
                self.dma(value);
            }
        } else if addr == 0xFF47 {
            self.ppu.bgp = value;
        } else if addr == 0xFF48 {
            self.ppu.obp0 = value;
        } else if addr == 0xFF49 {
            self.ppu.obp1 = value;
        } else if addr == 0xFF4A {
            self.ppu.wy = value;
        } else if addr == 0xFF4B {
            self.ppu.wx = value;
        } else {
            self.io.set(addr as usize - 0xFF00, value);
        }
    }
    /// Copies the 160 bytes at `page` × 0x100 into sprite memory, whatever
    /// the PPU's mode.
    fn dma(&mut self, page: u8)
        requires
            old(self).wf(),
        ensures
            final(self).wf(),
            final(self).cart == old(self).cart,
            final(self).vram == old(self).vram,
            final(self).wram == old(self).wram,
            final(self).hram == old(self).hram,
            final(self).io == old(self).io,
            final(self).ie == old(self).ie,
            final(self).ppu.ly == old(self).ppu.ly,
            final(self).ppu.dot == old(self).ppu.dot,
            final(self).ppu.draw_extra == old(self).ppu.draw_extra,
            final(self).ppu.same_regs(old(self).ppu),
            final(self).ppu.framebuffer == old(self).ppu.framebuffer,
            page < 0xFE ==> forall|i: int|
                0 <= i < OAM_SIZE ==> #[trigger] final(self).ppu.oam@[i] == old(self).read_spec((page * 256 + i) as u16),
    {
        let ghost start = *self;
        let base: u16 = page as u16 * 256;
        let mut i: usize = 0;
        while i < OAM_SIZE
            invariant
                i <= OAM_SIZE,
                base == page * 256,
                self.wf(),
                self.cart == start.cart && self.vram == start.vram && self.wram == start.wram,
                self.hram == start.hram && self.io == start.io && self.ie == start.ie,
                self.ppu.ly == start.ppu.ly && self.ppu.dot == start.ppu.dot && self.ppu.lcdc == start.ppu.lcdc,
                self.ppu.stat == start.ppu.stat && self.ppu.lyc == start.ppu.lyc,
                self.ppu.scx == start.ppu.scx && self.ppu.scy == start.ppu.scy && self.ppu.bgp == start.ppu.bgp,
                self.ppu.obp0 == start.ppu.obp0 && self.ppu.obp1 == start.ppu.obp1,
                self.ppu.wx == start.ppu.wx && self.ppu.wy == start.ppu.wy,
                self.ppu.framebuffer == start.ppu.framebuffer,
                self.ppu.draw_extra == start.ppu.draw_extra,
                page < 0xFE ==> forall|j: int|
                    0 <= j < i ==> #[trigger] self.ppu.oam@[j] == start.read_spec((page * 256 + j) as u16),
            decreases OAM_SIZE - i,
        {
            let b = self.read(base + i as u16);
            proof {
                if page < 0xFE {
                    assert(self.read_spec((base + i) as u16) == start.read_spec((base + i) as u16));
                }
            }
            self.ppu.oam.set(i, b);
            i = i + 1;
        }
    }
}


/// Echo RAM: each address in 0xE000–0xFDFF reads what the address 0x2000
/// below it in work RAM reads.
pub proof fn lemma_echo_mirrors(bus: MemoryBus, addr: u16)
    requires
        0xC000 <= addr < 0xDE00,
    ensures
        bus.read_spec(addr) == bus.read_spec((addr + 0x2000) as u16),
{
}

} // verus!
