use vstd::prelude::*;

verus! {

/// The 16-bit value whose high byte is `hi` and low byte is `lo`.
pub open spec fn compose(hi: u8, lo: u8) -> u16 {
    (hi as int * 256 + lo as int) as u16
}

/// The high byte of a 16-bit value.
pub open spec fn high_of(v: u16) -> u8 {
    (v as int / 256) as u8
}

/// The low byte of a 16-bit value.
pub open spec fn low_of(v: u16) -> u8 {
    (v as int % 256) as u8
}

/// Joins a (high, low) byte pair into one 16-bit value: `(high << 8) | low`.
pub fn as_u16(d: (u8, u8)) -> (r: u16)
    ensures
        r == compose(d.0, d.1),
        r as int == d.0 as int * 256 + d.1 as int,
{
    let hi: u16 = d.0 as u16;
    let lo: u16 = d.1 as u16;
    let r: u16 = (hi << 8u16) | lo;
    assert(r == hi * 256 + lo) by (bit_vector)
        requires
            r == (hi << 8u16) | lo,
            hi < 256,
            lo < 256,
    ;
    r
}

/// Splits a 16-bit value into its (high, low) bytes.
pub fn split_u16(v: u16) -> (r: (u8, u8))
    ensures
        r.0 == high_of(v),
        r.1 == low_of(v),
        r.0 as int * 256 + r.1 as int == v as int,
{
    let hi: u16 = v >> 8u16;
    let lo: u16 = v & 0xFFu16;
    assert(hi == v / 256 && lo == v % 256) by (bit_vector)
        requires
            hi == v >> 8u16,
            lo == v & 0xFFu16,
    ;
    (hi as u8, lo as u8)
}

/// Splitting a 16-bit value and joining the bytes again gives the value back,
/// and joining two bytes and splitting the result gives the bytes back.
pub proof fn lemma_pair_round_trip(v: u16, hi: u8, lo: u8)
    ensures
        compose(high_of(v), low_of(v)) == v,
        high_of(compose(hi, lo)) == hi,
        low_of(compose(hi, lo)) == lo,
{
}

/// The four condition flags held in the top nibble of F.
pub open spec fn flag_byte(z: bool, n: bool, h: bool, c: bool) -> u8 {
    ((if z { 128int } else { 0 }) + (if n { 64int } else { 0 }) + (if h { 32int } else { 0 })
        + (if c { 16int } else { 0 })) as u8
}

/// The value of bit `y` (0–7) of a byte.
pub open spec fn bit_value(y: u8) -> int {
    if y == 0 {
        1
    } else if y == 1 {
        2
    } else if y == 2 {
        4
    } else if y == 3 {
        8
    } else if y == 4 {
        16
    } else if y == 5 {
        32
    } else if y == 6 {
        64
    } else {
        128
    }
}

/// The byte with only bit `y` set.
pub fn bit_mask(y: u8) -> (r: u8)
    requires
        y < 8,
    ensures
        r as int == bit_value(y),
{
    if y == 0 {
        1
    } else if y == 1 {
        2
    } else if y == 2 {
        4
    } else if y == 3 {
        8
    } else if y == 4 {
        16
    } else if y == 5 {
        32
    } else if y == 6 {
        64
    } else {
        128
    }
}

/// The flags held in an F register value.
pub open spec fn flags_of(f: u8) -> Flags {
    Flags { zero: f / 128 % 2 == 1, sub: f / 64 % 2 == 1, half: f / 32 % 2 == 1, carry: f / 16 % 2 == 1 }
}

/// Condition flags, as four booleans.
#[derive(Clone, Copy, Debug, PartialEq, Eq, Structural)]
pub struct Flags {
    pub zero: bool,
    pub sub: bool,
    pub half: bool,
    pub carry: bool,
}

impl Flags {
    /// These flags as an F register value.
    pub open spec fn byte(self) -> u8 {
        flag_byte(self.zero, self.sub, self.half, self.carry)
    }

    /// The F register's value for these flags; its low nibble is zero.
    pub fn to_byte(self) -> (r: u8)
        ensures
            r == self.byte(),
            r % 16 == 0,
    {
        let mut r: u8 = 0;
        if self.zero {
            r = r + 128;
        }
        if self.sub {
            r = r + 64;
        }
        if self.half {
            r = r + 32;
        }
        if self.carry {
            r = r + 16;
        }
        r
    }

    /// Reads the flags out of an F register value.
    pub fn from_byte(f: u8) -> (r: Flags)
        ensures
            r == flags_of(f),
            f % 16 == 0 ==> r.byte() == f,
    {
        Flags {
            zero: f / 128 % 2 == 1,
            sub: f / 64 % 2 == 1,
            half: f / 32 % 2 == 1,
            carry: f / 16 % 2 == 1,
        }
    }
}

/// The four 16-bit register pairs.
#[derive(Clone, Copy, Debug, PartialEq, Eq, Structural)]
pub enum Pair {
    AF,
    BC,
    DE,
    HL,
}

/// The register file: eight 8-bit registers, a stack pointer and a program counter.
#[derive(Clone, Copy, Debug)]
pub struct Registers {
    pub a: u8,
    pub f: u8,
    pub b: u8,
    pub c: u8,
    pub d: u8,
    pub e: u8,
    pub h: u8,
    pub l: u8,
    pub sp: u16,
    pub pc: u16,
}

impl Registers {
    /// The low nibble of F is always zero.
    pub open spec fn wf(self) -> bool {
        self.f % 16 == 0
    }

    /// The value of register pair `p`, high register first.
    pub open spec fn pair_spec(self, p: Pair) -> u16 {
        match p {
            Pair::AF => compose(self.a, self.f),
            Pair::BC => compose(self.b, self.c),
            Pair::DE => compose(self.d, self.e),
            Pair::HL => compose(self.h, self.l),
        }
    }

    /// The registers after writing `v` to pair `p` (F keeps only its flag bits).
    pub open spec fn with_pair(self, p: Pair, v: u16) -> Registers {
        match p {
            Pair::AF => Registers { a: high_of(v), f: (low_of(v) - low_of(v) % 16) as u8, ..self },
            Pair::BC => Registers { b: high_of(v), c: low_of(v), ..self },
            Pair::DE => Registers { d: high_of(v), e: low_of(v), ..self },
            Pair::HL => Registers { h: high_of(v), l: low_of(v), ..self },
        }
    }

    /// The 8-bit register with operand index `i` (B, C, D, E, H, L, -, A).
    pub open spec fn r8_spec(self, i: u8) -> u8 {
        if i == 0 {
            self.b
        } else if i == 1 {
            self.c
        } else if i == 2 {
            self.d
        } else if i == 3 {
            self.e
        } else if i == 4 {
            self.h
        } else if i == 5 {
            self.l
        } else {
            self.a
        }
    }

    /// The registers after writing `v` to the register with operand index `i`.
    pub open spec fn with_r8(self, i: u8, v: u8) -> Registers {
        if i == 0 {
            Registers { b: v, ..self }
        } else if i == 1 {
            Registers { c: v, ..self }
        } else if i == 2 {
            Registers { d: v, ..self }
        } else if i == 3 {
            Registers { e: v, ..self }
        } else if i == 4 {
            Registers { h: v, ..self }
        } else if i == 5 {
            Registers { l: v, ..self }
        } else {
            Registers { a: v, ..self }
        }
    }

    /// All registers zero.
    pub fn zeroed() -> (r: Registers)
        ensures
            r.wf(),
            r.a == 0 && r.f == 0 && r.b == 0 && r.c == 0,
            r.d == 0 && r.e == 0 && r.h == 0 && r.l == 0,
            r.sp == 0 && r.pc == 0,
    {
        Registers { a: 0, f: 0, b: 0, c: 0, d: 0, e: 0, h: 0, l: 0, sp: 0, pc: 0 }
    }

    /// Reads a register pair as (high << 8) | low.
    pub fn read_pair(&self, p: Pair) -> (r: u16)
        ensures
            r == self.pair_spec(p),
    {
        match p {
            Pair::AF => as_u16((self.a, self.f)),
            Pair::BC => as_u16((self.b, self.c)),
            Pair::DE => as_u16((self.d, self.e)),
            Pair::HL => as_u16((self.h, self.l)),
        }
    }

    /// Writes a register pair: high byte to the first register, low to the second.
    pub fn write_pair(&mut self, p: Pair, v: u16)
        requires
            old(self).wf(),
        ensures
            *final(self) == old(self).with_pair(p, v),
            final(self).wf(),
    {
        let (hi, lo) = split_u16(v);
        match p {
            Pair::AF => {
                self.a = hi;
                self.f = lo - lo % 16;
            },
            Pair::BC => {
                self.b = hi;
                self.c = lo;
            },
            Pair::DE => {
                self.d = hi;
                self.e = lo;
            },
            Pair::HL => {
                self.h = hi;
                self.l = lo;
            },
        }
    }

    /// The flags held in F.
    pub fn flags(&self) -> (r: Flags)
        requires
            self.wf(),
        ensures
            r.byte() == self.f,
            r == flags_of(self.f),
    {
        Flags::from_byte(self.f)
    }

    /// Stores the flags in F.
    pub fn set_flags(&mut self, fl: Flags)
        ensures
            *final(self) == (Registers { f: fl.byte(), ..*old(self) }),
            final(self).wf(),
    {
        self.f = fl.to_byte();
    }

    /// Reads the register with operand index `i` (not 6).
    pub fn r8(&self, i: u8) -> (r: u8)
        ensures
            r == self.r8_spec(i),
    {
        if i == 0 {
            self.b
        } else if i == 1 {
            self.c
        } else if i == 2 {
            self.d
        } else if i == 3 {
            self.e
        } else if i == 4 {
            self.h
        } else if i == 5 {
            self.l
        } else {
            self.a
        }
    }

    /// Writes the register with operand index `i` (not 6).
    pub fn set_r8(&mut self, i: u8, v: u8)
        ensures
            *final(self) == old(self).with_r8(i, v),
    {
        if i == 0 {
            self.b = v;
        } else if i == 1 {
            self.c = v;
        } else if i == 2 {
            self.d = v;
        } else if i == 3 {
            self.e = v;
        } else if i == 4 {
            self.h = v;
        } else if i == 5 {
            self.l = v;
        } else {
            self.a = v;
        }
    }
}

/// Writing a pair and reading it back gives the written value, except for
/// AF, whose low nibble reads back as zero.
pub proof fn lemma_write_read_pair(r: Registers, p: Pair, v: u16)
    ensures
        p != Pair::AF ==> r.with_pair(p, v).pair_spec(p) == v,
        p == Pair::AF ==> r.with_pair(p, v).pair_spec(p) as int == v as int - v as int % 16,
{
}

} // verus!
