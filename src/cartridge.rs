use vstd::prelude::*;

verus! {

/// Bytes up to and including the end of the cartridge header.
pub const HEADER_SIZE: usize = 0x150;
/// Where the header names the memory bank controller.
pub const CART_TYPE_ADDR: usize = 0x147;
pub const ROM_BANK_SIZE: usize = 0x4000;
pub const CART_RAM_SIZE: usize = 0x2000;

/// Why a ROM image was rejected.
#[derive(Clone, Copy, Debug, PartialEq, Eq, Structural)]
pub enum FormatError {
    /// The image is shorter than the header; holds its length.
    TooShort(usize),
    /// The header's type byte names a controller that is not supported.
    UnsupportedMbc(u8),
}

/// The memory bank controller a cartridge carries.
#[derive(Clone, Copy, Debug, PartialEq, Eq, Structural)]
pub enum Mbc {
    /// A flat ROM of at most 32 KiB.
    NoMbc,
    /// Switchable 16 KiB ROM banks at 0x4000–0x7FFF and 8 KiB of RAM.
    Mbc1,
}

/// The controller named by a header type byte, if supported.
pub open spec fn mbc_of(t: u8) -> Option<Mbc> {
    if t == 0 {
        Some(Mbc::NoMbc)
    } else if 1 <= t <= 3 {
        Some(Mbc::Mbc1)
    } else {
        None
    }
}

/// What a write of `value` to `addr` does to a cartridge, from `old` to `new`.
pub open spec fn cart_written(old: Cartridge, new: Cartridge, addr: u16, value: u8) -> bool {
    &&& new.rom == old.rom
    &&& new.mbc == old.mbc
    &&& old.mbc == Mbc::NoMbc ==> new == old
    &&& old.mbc == Mbc::Mbc1 ==> {
        &&& new.ram_enabled == (if addr < 0x2000 { value % 16 == 0xA } else { old.ram_enabled })
        &&& new.bank_lo == (if 0x2000 <= addr < 0x4000 { value % 32 } else { old.bank_lo })
        &&& new.bank_hi == (if 0x4000 <= addr < 0x6000 { value % 4 } else { old.bank_hi })
        &&& new.ram@ == (if 0xA000 <= addr < 0xC000 && old.ram_enabled {
            old.ram@.update(addr - 0xA000, value)
        } else {
            old.ram@
        })
    }
}

pub struct Cartridge {
    pub rom: Vec<u8>,
    pub mbc: Mbc,
    pub ram: Vec<u8>,
    pub ram_enabled: bool,
    /// Low five bits of the ROM bank number.
    pub bank_lo: u8,
    /// Upper two bits of the ROM bank number.
    pub bank_hi: u8,
}

impl Cartridge {
    /// The image holds at least the header; bank registers are in range.
    pub open spec fn wf(&self) -> bool {
        &&& self.rom@.len() >= HEADER_SIZE
        &&& self.rom@.len() <= usize::MAX
        &&& self.ram@.len() == CART_RAM_SIZE
        &&& self.bank_lo < 32
        &&& self.bank_hi < 4
    }

    /// The ROM bank mapped at 0x4000–0x7FFF; bank 0 there selects bank 1.
    pub open spec fn rom_bank(&self) -> int {
        match self.mbc {
            Mbc::NoMbc => 1,
            Mbc::Mbc1 => self.bank_hi * 32 + (if self.bank_lo == 0 { 1 } else { self.bank_lo as int }),
        }
    }

    /// The byte of the ROM image at `i`, or 0xFF past its end.
    pub open spec fn rom_at(&self, i: int) -> u8 {
        if 0 <= i < self.rom@.len() {
            self.rom@[i]
        } else {
            0xFF
        }
    }

    /// What a read of `addr` returns.
    pub open spec fn read_spec(&self, addr: u16) -> u8 {
        if addr < 0x4000 {
            self.rom_at(addr as int)
        } else if addr < 0x8000 {
            self.rom_at(self.rom_bank() * ROM_BANK_SIZE + (addr - 0x4000))
        } else if 0xA000 <= addr < 0xC000 && self.mbc == Mbc::Mbc1 && self.ram_enabled {
            self.ram@[addr - 0xA000]
        } else {
            0xFF
        }
    }

    /// Builds a cartridge from a ROM image, checking its header.
    pub fn load(bytes: Vec<u8>) -> (r: Result<Cartridge, FormatError>)
        ensures
            bytes@.len() < HEADER_SIZE ==> r == Err::<Cartridge, FormatError>(FormatError::TooShort(bytes@.len() as usize)),
            bytes@.len() >= HEADER_SIZE && mbc_of(bytes@[CART_TYPE_ADDR as int]) is None
                ==> r == Err::<Cartridge, FormatError>(FormatError::UnsupportedMbc(bytes@[CART_TYPE_ADDR as int])),
            r is Ok <==> bytes@.len() >= HEADER_SIZE && mbc_of(bytes@[CART_TYPE_ADDR as int]) is Some,
            r matches Ok(c) ==> {
                &&& c.wf()
                &&& c.rom@ == bytes@
                &&& Some(c.mbc) == mbc_of(bytes@[CART_TYPE_ADDR as int])
                &&& c.rom_bank() == 1
                &&& !c.ram_enabled
            },
    {
        if bytes.len() < HEADER_SIZE {
            return Err(FormatError::TooShort(bytes.len()));
        }
        let t: u8 = bytes[CART_TYPE_ADDR];
        let mbc = if t == 0 {
            Mbc::NoMbc
        } else if 1 <= t && t <= 3 {
            Mbc::Mbc1
        } else {
            return Err(FormatError::UnsupportedMbc(t));
        };
        Ok(Cartridge { rom: bytes, mbc, ram: vec![0u8; CART_RAM_SIZE], ram_enabled: false, bank_lo: 1, bank_hi: 0 })
    }

    fn rom_byte(&self, i: usize) -> (r: u8)
        ensures
            r == self.rom_at(i as int),
    {
        if i < self.rom.len() {
            self.rom[i]
        } else {
            0xFF
        }
    }

    /// A CPU read of `addr` in the cartridge's ranges.
    pub fn read(&self, addr: u16) -> (r: u8)
        requires
            self.wf(),
        ensures
            r == self.read_spec(addr),
    {
        if addr < 0x4000 {
            self.rom_byte(addr as usize)
        } else if addr < 0x8000 {
            let bank: usize = match self.mbc {
                Mbc::NoMbc => 1,
                Mbc::Mbc1 => self.bank_hi as usize * 32 + if self.bank_lo == 0 { 1 } else { self.bank_lo as usize },
            };
            self.rom_byte(bank * ROM_BANK_SIZE + (addr as usize - 0x4000))
        } else if 0xA000 <= addr && addr < 0xC000 && self.mbc == Mbc::Mbc1 && self.ram_enabled {
            self.ram[addr as usize - 0xA000]
        } else {
            0xFF
        }
    }

    /// A write: to the controller's registers below 0x8000, to cartridge RAM
    /// at 0xA000–0xBFFF when it is enabled; ignored otherwise and on a flat ROM.
    pub fn write(&mut self, addr: u16, value: u8)
        requires
            old(self).wf(),
        ensures
            final(self).wf(),
            cart_written(*old(self), *final(self), addr, value),
    {
        if self.mbc == Mbc::NoMbc {
            return;
        }
        if addr < 0x2000 {
            self.ram_enabled = value % 16 == 0xA;
        } else if addr < 0x4000 {
            self.bank_lo = value % 32;
        } else if addr < 0x6000 {
            self.bank_hi = value % 4;
        } else if 0xA000 <= addr && addr < 0xC000 && self.ram_enabled {
            self.ram.set(addr as usize - 0xA000, value);
        }
    }
}

} // verus!
