use vstd::prelude::*;
use vstd::arithmetic::div_mod::*;
use crate::regs::{bit_mask, bit_value};
use crate::sprite::{lemma_front_is_selected, lemma_selected_on_line, pixel_shade, selected, SPRITE_COUNT};

verus! {

pub const LINE_CYCLES: u32 = 456;
pub const OAM_SCAN_CYCLES: u32 = 80;
pub const PIXEL_TRANSFER_CYCLES: u32 = 172;
pub const VISIBLE_LINES: u32 = 144;
pub const LINES_PER_FRAME: u32 = 154;
pub const FRAME_CYCLES: u32 = 70224;
/// Cycles from the start of V-blank to the end of the frame.
pub const VBLANK_CYCLES: u32 = 4560;
pub const OAM_SIZE: usize = 160;
pub const SCREEN_WIDTH: usize = 160;
pub const SCREEN_HEIGHT: usize = 144;

/// The four modes of the rendering state machine.
#[derive(Clone, Copy, Debug, PartialEq, Eq, Structural)]
pub enum PpuMode {
    HBlank,
    VBlank,
    Scan,
    Drawing,
}

/// The most cycles sprites, fine scroll and the window add to pixel transfer.
pub const MAX_DRAW_EXTRA: u16 = 73;

/// The mode at cycle `dot` of scanline `ly`, where pixel transfer takes
/// `extra` cycles beyond its least length.
pub open spec fn mode_at(ly: int, dot: int, extra: int) -> PpuMode {
    if ly >= VISIBLE_LINES {
        PpuMode::VBlank
    } else if dot < OAM_SCAN_CYCLES {
        PpuMode::Scan
    } else if dot < OAM_SCAN_CYCLES + PIXEL_TRANSFER_CYCLES + extra {
        PpuMode::Drawing
    } else {
        PpuMode::HBlank
    }
}

/// The position within the frame after `n` more cycles.
pub open spec fn advance_pos(pos: int, n: int) -> int {
    (pos + n) % (FRAME_CYCLES as int)
}

/// How many times V-blank is entered while moving `n` cycles on from `pos`.
pub open spec fn vblank_entries(pos: int, n: int) -> int {
    (pos + n + VBLANK_CYCLES) / (FRAME_CYCLES as int) - (pos + VBLANK_CYCLES) / (FRAME_CYCLES as int)
}

/// Bit `k` (0–7) of `v`, as 0 or 1.
pub open spec fn bit_at(v: u8, k: u8) -> int {
    (v as int / bit_value(k)) % 2
}

/// Where the 16 bytes of tile `idx` start in video RAM: unsigned from
/// 0x8000 when LCDC bit 4 is set, else signed around 0x9000.
pub open spec fn tile_addr(lcdc: u8, idx: u8) -> int {
    if bit_at(lcdc, 4) == 1 {
        idx * 16
    } else if idx < 128 {
        0x1000 + idx * 16
    } else {
        0x800 + (idx - 128) * 16
    }
}

/// The 2-bit color of point (`px`, `py`) of the 256×256 layer drawn from
/// the tile map at `map` (a video RAM offset).
pub open spec fn layer_color(vram: Seq<u8>, lcdc: u8, map: int, px: int, py: int) -> int {
    let idx = vram[map + (py / 8) * 32 + px / 8];
    let a = tile_addr(lcdc, idx) + (py % 8) * 2;
    let b = (7 - px % 8) as u8;
    2 * bit_at(vram[a + 1], b) + bit_at(vram[a], b)
}

/// Whether the window covers column `x` of line `ly`.
pub open spec fn window_at(lcdc: u8, wx: u8, wy: u8, ly: int, x: int) -> bool {
    bit_at(lcdc, 5) == 1 && ly >= wy && x + 7 >= wx
}

/// The background or window color index at column `x` of line `ly`.
pub open spec fn bg_index(p: Ppu, vram: Seq<u8>, ly: int, x: int) -> int {
    if bit_at(p.lcdc, 0) == 0 {
        0
    } else if window_at(p.lcdc, p.wx, p.wy, ly, x) {
        layer_color(vram, p.lcdc, if bit_at(p.lcdc, 6) == 1 { 0x1C00 } else { 0x1800 }, x + 7 - p.wx, ly - p.wy)
    } else {
        layer_color(
            vram,
            p.lcdc,
            if bit_at(p.lcdc, 3) == 1 { 0x1C00 } else { 0x1800 },
            (x + p.scx) % 256,
            (ly + p.scy) % 256,
        )
    }
}

/// The shade a palette register gives color index `c`.
pub open spec fn shade(pal: u8, c: int) -> u8 {
    ((pal as int / pow4(c)) % 4) as u8
}

/// Four to the power `c`, for `c` in 0..3.
pub open spec fn pow4(c: int) -> int {
    if c <= 0 {
        1
    } else if c == 1 {
        4
    } else if c == 2 {
        16
    } else {
        64
    }
}

/// Whether STAT asks for an interrupt on entry to `mode` (bits 3, 4 and 5
/// for H-blank, V-blank and OAM-scan; pixel-transfer has none).
pub open spec fn stat_source(stat: u8, mode: PpuMode) -> bool {
    match mode {
        PpuMode::HBlank => bit_at(stat, 3) == 1,
        PpuMode::VBlank => bit_at(stat, 4) == 1,
        PpuMode::Scan => bit_at(stat, 5) == 1,
        PpuMode::Drawing => false,
    }
}

/// The cycles pixel transfer of line `l` takes beyond 172, given sprite
/// memory and the LCDC, SCX, WX and WY registers.
pub open spec fn extra_for(oam: Seq<u8>, lcdc: u8, scx: u8, wx: u8, wy: u8, l: int) -> int {
    if l >= VISIBLE_LINES {
        0
    } else {
        selected(oam, lcdc, l, SPRITE_COUNT as int).len() * 6 + scx % 8 + (if bit_at(lcdc, 5) == 1 && l >= wy
            && wx <= 166 {
            6int
        } else {
            0
        })
    }
}

/// The pixel-processing unit: its timing state, its registers, sprite memory
/// and the framebuffer.
pub struct Ppu {
    pub ly: u8,
    pub dot: u16,
    pub lcdc: u8,
    pub stat: u8,
    pub scy: u8,
    pub scx: u8,
    pub lyc: u8,
    pub bgp: u8,
    pub obp0: u8,
    pub obp1: u8,
    pub wy: u8,
    pub wx: u8,
    pub oam: Vec<u8>,
    pub framebuffer: Vec<u8>,
    /// Cycles the current line's pixel transfer takes beyond 172.
    pub draw_extra: u16,
}

impl Ppu {
    /// LY and the line cycle are in range; sprite memory and framebuffer have their sizes.
    pub open spec fn wf(&self) -> bool {
        &&& self.ly < LINES_PER_FRAME
        &&& self.dot < LINE_CYCLES
        &&& self.oam@.len() == OAM_SIZE
        &&& self.framebuffer@.len() == SCREEN_WIDTH * SCREEN_HEIGHT
        &&& self.draw_extra <= MAX_DRAW_EXTRA
    }

    /// The cycles the current line's pixel transfer takes beyond 172: six
    /// for each sprite drawn on the line, the fine scroll `SCX % 8`, and six
    /// more when the window shows on the line.
    pub open spec fn line_extra(&self) -> int {
        extra_for(self.oam@, self.lcdc, self.scx, self.wx, self.wy, self.ly as int)
    }

    /// The state `new` gives: line 0, cycle 0, LCD and background on with
    /// tile data at 0x8000, the usual palettes, every other register, sprite
    /// memory and the framebuffer zero.
    pub open spec fn initial(&self) -> bool {
        &&& self.wf()
        &&& self.ly == 0 && self.dot == 0
        &&& self.lcdc == 0x91 && self.stat == 0 && self.scy == 0 && self.scx == 0 && self.lyc == 0
        &&& self.bgp == 0xFC && self.obp0 == 0xFF && self.obp1 == 0xFF && self.wy == 0 && self.wx == 0
        &&& self.oam@ == Seq::new(OAM_SIZE as nat, |i: int| 0u8)
        &&& self.framebuffer@ == Seq::new((SCREEN_WIDTH * SCREEN_HEIGHT) as nat, |i: int| 0u8)
        &&& self.draw_extra == 0
    }

    /// The two states hold the same control, scroll, window and palette
    /// registers.
    pub open spec fn same_regs(&self, o: Ppu) -> bool {
        &&& self.lcdc == o.lcdc && self.stat == o.stat && self.scy == o.scy && self.scx == o.scx
        &&& self.lyc == o.lyc && self.bgp == o.bgp && self.obp0 == o.obp0 && self.obp1 == o.obp1
        &&& self.wy == o.wy && self.wx == o.wx
    }

    /// The position of the state machine within the frame, in cycles.
    pub open spec fn pos(&self) -> int {
        self.ly * LINE_CYCLES + self.dot
    }

    /// The current mode, from LY and the cycle within the line.
    pub open spec fn mode_spec(&self) -> PpuMode {
        mode_at(self.ly as int, self.dot as int, self.draw_extra as int)
    }

    /// At line 0 in OAM-scan, with everything cleared.
    pub fn new() -> (r: Ppu)
        ensures
            r.initial(),
            r.mode_spec() == PpuMode::Scan,
    {
        let r = Ppu {
            ly: 0,
            dot: 0,
            lcdc: 0x91,
            stat: 0,
            scy: 0,
            scx: 0,
            lyc: 0,
            bgp: 0xFC,
            obp0: 0xFF,
            obp1: 0xFF,
            wy: 0,
            wx: 0,
            oam: vec![0u8; OAM_SIZE],
            framebuffer: vec![0u8; SCREEN_WIDTH * SCREEN_HEIGHT],
            draw_extra: 0,
        };
        assert(r.oam@ =~= Seq::new(OAM_SIZE as nat, |i: int| 0u8));
        assert(r.framebuffer@ =~= Seq::new((SCREEN_WIDTH * SCREEN_HEIGHT) as nat, |i: int| 0u8));
        r
    }

    /// The current mode.
    pub fn mode(&self) -> (r: PpuMode)
        ensures
            r == self.mode_spec(),
    {
        if self.ly as u32 >= VISIBLE_LINES {
            PpuMode::VBlank
        } else if (self.dot as u32) < OAM_SCAN_CYCLES {
            PpuMode::Scan
        } else if (self.dot as u32) < OAM_SCAN_CYCLES + PIXEL_TRANSFER_CYCLES + self.draw_extra as u32 {
            PpuMode::Drawing
        } else {
            PpuMode::HBlank
        }
    }

    /// STAT as the CPU reads it.
    pub open spec fn stat_spec(&self) -> u8 {
        ((self.stat / 8) * 8 + (if self.ly == self.lyc { 4int } else { 0 }) + match self.mode_spec() {
            PpuMode::HBlank => 0int,
            PpuMode::VBlank => 1,
            PpuMode::Scan => 2,
            PpuMode::Drawing => 3,
        }) as u8
    }

    /// The STAT register as read by the CPU: the interrupt-enable bits that
    /// were written, the LY=LYC bit, and the mode in the low two bits.
    pub fn read_stat(&self) -> (r: u8)
        ensures
            r == self.stat_spec(),
            r % 4 == match self.mode_spec() {
                PpuMode::HBlank => 0u8,
                PpuMode::VBlank => 1,
                PpuMode::Scan => 2,
                PpuMode::Drawing => 3,
            },
            (r / 4) % 2 == (if self.ly == self.lyc { 1int } else { 0 }),
    {
        let m: u8 = match self.mode() {
            PpuMode::HBlank => 0,
            PpuMode::VBlank => 1,
            PpuMode::Scan => 2,
            PpuMode::Drawing => 3,
        };
        let coincidence: u8 = if self.ly == self.lyc { 4 } else { 0 };
        (self.stat / 8) * 8 + coincidence + m
    }

    /// Moves the state machine on by `cycles`; returns how many times
    /// V-blank was entered (each entry is one V-Blank interrupt request).
    pub fn advance(&mut self, cycles: u32) -> (vblanks: u32)
        requires
            old(self).wf(),
        ensures
            final(self).wf(),
            final(self).pos() == advance_pos(old(self).pos(), cycles as int),
            vblanks as int == vblank_entries(old(self).pos(), cycles as int),
            old(self).dot + cycles >= LINE_CYCLES ==> final(self).draw_extra == final(self).line_extra(),
            old(self).dot + cycles < LINE_CYCLES ==> final(self).draw_extra == old(self).draw_extra,
            final(self).oam == old(self).oam,
            final(self).framebuffer == old(self).framebuffer,
            final(self).same_regs(*old(self)),
            final(self).lcdc == old(self).lcdc,
            final(self).stat == old(self).stat,
            final(self).lyc == old(self).lyc,
            final(self).scx == old(self).scx,
            final(self).scy == old(self).scy,
            final(self).bgp == old(self).bgp,
            final(self).obp0 == old(self).obp0,
            final(self).obp1 == old(self).obp1,
            final(self).wx == old(self).wx,
            final(self).wy == old(self).wy,
    {
        let dot0: u64 = self.dot as u64;
        let pos: u64 = self.ly as u64 * LINE_CYCLES as u64 + self.dot as u64;
        assert(pos < FRAME_CYCLES) by (nonlinear_arith)
            requires
                pos == self.ly as u64 * 456 + self.dot as u64,
                self.ly < 154,
                self.dot < 456,
        ;
        let total: u64 = pos + cycles as u64;
        let np: u64 = total % FRAME_CYCLES as u64;
        proof {
            lemma_div_is_ordered((pos + VBLANK_CYCLES) as int, (total + VBLANK_CYCLES) as int, FRAME_CYCLES as int);
            assert(np / 456 < 154) by (nonlinear_arith)
                requires np < 70224;
        }
        let v: u64 = (total + VBLANK_CYCLES as u64) / FRAME_CYCLES as u64 - (pos + VBLANK_CYCLES as u64)
            / FRAME_CYCLES as u64;
        assert(v <= 61163) by (nonlinear_arith)
            requires
                v == (total + 4560) / 70224 - (pos + 4560) / 70224,
                total == pos + cycles,
                cycles <= 0xFFFF_FFFF,
                pos < 70224,
        ;
        self.ly = (np / LINE_CYCLES as u64) as u8;
        self.dot = (np % LINE_CYCLES as u64) as u16;
        if dot0 + cycles as u64 >= LINE_CYCLES as u64 {
            self.draw_extra = self.compute_extra();
        }
        v as u32
    }

    /// Computes `line_extra`.
    pub fn compute_extra(&self) -> (r: u16)
        requires
            self.wf(),
        ensures
            r as int == self.line_extra(),
            r <= MAX_DRAW_EXTRA,
    {
        if self.ly as u32 >= VISIBLE_LINES {
            return 0;
        }
        let sel = self.select_sprites();
        proof {
            assert(sel@.len() == sel@.map_values(|i: usize| i as int).len());
        }
        let w: u16 = if Ppu::bit(self.lcdc, 5) == 1 && self.ly >= self.wy && self.wx <= 166 { 6 } else { 0 };
        sel.len() as u16 * 6 + (self.scx % 8) as u16 + w
    }
    /// Whether STAT asks for an interrupt on entry to `mode`.
    pub fn stat_enabled(stat: u8, mode: PpuMode) -> (r: bool)
        ensures
            r == stat_source(stat, mode),
    {
        match mode {
            PpuMode::HBlank => Ppu::bit(stat, 3) == 1,
            PpuMode::VBlank => Ppu::bit(stat, 4) == 1,
            PpuMode::Scan => Ppu::bit(stat, 5) == 1,
            PpuMode::Drawing => false,
        }
    }

    /// Bit `k` of `v`, as 0 or 1.
    pub fn bit(v: u8, k: u8) -> (r: u8)
        requires
            k < 8,
        ensures
            r as int == bit_at(v, k),
    {
        (v / bit_mask(k)) % 2
    }

    /// The color of a point of the layer drawn from the tile map at `map`.
    fn layer(&self, vram: &Vec<u8>, map: usize, px: usize, py: usize) -> (r: u8)
        requires
            vram@.len() == 0x4000,
            map == 0x1800 || map == 0x1C00,
            px < 256,
            py < 256,
        ensures
            r as int == layer_color(vram@, self.lcdc, map as int, px as int, py as int),
    {
        let idx = vram[map + (py / 8) * 32 + px / 8];
        let base: usize = if Ppu::bit(self.lcdc, 4) == 1 {
            idx as usize * 16
        } else if idx < 128 {
            0x1000 + idx as usize * 16
        } else {
            0x800 + (idx as usize - 128) * 16
        };
        let a: usize = base + (py % 8) * 2;
        let b: u8 = (7 - px % 8) as u8;
        2 * Ppu::bit(vram[a + 1], b) + Ppu::bit(vram[a], b)
    }

    /// The background or window color index at column `x` of the current line.
    fn bg_pixel(&self, vram: &Vec<u8>, x: usize) -> (r: u8)
        requires
            vram@.len() == 0x4000,
            self.ly < VISIBLE_LINES,
            x < SCREEN_WIDTH,
        ensures
            r as int == bg_index(*self, vram@, self.ly as int, x as int),
            r < 4,
    {
        if Ppu::bit(self.lcdc, 0) == 0 {
            0
        } else if Ppu::bit(self.lcdc, 5) == 1 && self.ly >= self.wy && x + 7 >= self.wx as usize {
            let map: usize = if Ppu::bit(self.lcdc, 6) == 1 { 0x1C00 } else { 0x1800 };
            self.layer(vram, map, x + 7 - self.wx as usize, (self.ly - self.wy) as usize)
        } else {
            let map: usize = if Ppu::bit(self.lcdc, 3) == 1 { 0x1C00 } else { 0x1800 };
            self.layer(vram, map, (x + self.scx as usize) % 256, (self.ly as usize + self.scy as usize) % 256)
        }
    }

    fn palette_shade(pal: u8, c: u8) -> (r: u8)
        requires
            c < 4,
        ensures
            r == shade(pal, c as int),
    {
        let d: u8 = if c == 0 {
            1
        } else if c == 1 {
            4
        } else if c == 2 {
            16
        } else {
            64
        };
        (pal / d) % 4
    }

    /// Draws the current line into the framebuffer: background, window and
    /// sprites, each through its palette.
    pub fn render_line(&mut self, vram: &Vec<u8>)
        requires
            old(self).wf(),
            vram@.len() == 0x4000,
            old(self).ly < VISIBLE_LINES,
        ensures
            final(self).wf(),
            forall|x: int|
                0 <= x < SCREEN_WIDTH ==> #[trigger] final(self).framebuffer@[old(self).ly * SCREEN_WIDTH + x]
                    == pixel_shade(*old(self), vram@, old(self).ly as int, x),
            forall|i: int|
                0 <= i < SCREEN_WIDTH * SCREEN_HEIGHT && !(old(self).ly * SCREEN_WIDTH <= i < old(self).ly
                    * SCREEN_WIDTH + SCREEN_WIDTH) ==> #[trigger] final(self).framebuffer@[i] == old(self).framebuffer@[i],
            final(self).ly == old(self).ly,
            final(self).dot == old(self).dot,
            final(self).oam == old(self).oam,
            final(self).same_regs(*old(self)),
            final(self).draw_extra == old(self).draw_extra,
    {
        let row: usize = self.ly as usize * SCREEN_WIDTH;
        assert(row + SCREEN_WIDTH <= SCREEN_WIDTH * SCREEN_HEIGHT) by (nonlinear_arith)
            requires row == self.ly as usize * 160, self.ly < 144;
        let ghost start = *self;
        let sel = self.select_sprites();
        let mut x: usize = 0;
        while x < SCREEN_WIDTH
            invariant
                0 <= x <= SCREEN_WIDTH,
                row == start.ly * SCREEN_WIDTH,
                row + SCREEN_WIDTH <= SCREEN_WIDTH * SCREEN_HEIGHT,
                start.wf(),
                start.ly < VISIBLE_LINES,
                vram@.len() == 0x4000,
                self.wf(),
                self.ly == start.ly && self.dot == start.dot && self.oam == start.oam,
                self.lcdc == start.lcdc && self.stat == start.stat && self.lyc == start.lyc,
                self.scx == start.scx && self.scy == start.scy && self.wx == start.wx && self.wy == start.wy,
                self.bgp == start.bgp && self.obp0 == start.obp0 && self.obp1 == start.obp1,
                self.draw_extra == start.draw_extra,
                sel@.map_values(|i: usize| i as int) == selected(start.oam@, start.lcdc, start.ly as int, SPRITE_COUNT as int),
                forall|j: int|
                    0 <= j < x ==> #[trigger] self.framebuffer@[row + j] == pixel_shade(start, vram@, start.ly as int, j),
                forall|i: int|
                    0 <= i < SCREEN_WIDTH * SCREEN_HEIGHT && !(row <= i < row + x)
                        ==> #[trigger] self.framebuffer@[i] == start.framebuffer@[i],
            decreases SCREEN_WIDTH - x,
        {
            let c = self.bg_pixel(vram, x);
            let mut s = Ppu::palette_shade(self.bgp, c);
            if let Some(i) = self.front(vram, &sel, x) {
                let attr = self.oam[4 * i + 3];
                if !(Ppu::bit(self.lcdc, 1) == 0 || (Ppu::bit(attr, 7) == 1 && c != 0)) {
                    let pal = if Ppu::bit(attr, 4) == 1 { self.obp1 } else { self.obp0 };
                    proof {
                        lemma_selected_on_line(start.oam@, start.lcdc, start.ly as int, SPRITE_COUNT as int);
                        lemma_front_is_selected(start.oam@, vram@, start.lcdc, start.ly as int, x as int,
                            selected(start.oam@, start.lcdc, start.ly as int, SPRITE_COUNT as int), sel@.len() as int);
                    }
                    s = Ppu::palette_shade(pal, self.sprite_pixel(vram, i, x));
                }
            }
            self.framebuffer.set(row + x, s);
            x = x + 1;
        }
    }
}

/// Advancing by `a` cycles and then by `b` cycles ends where advancing by
/// `a + b` cycles at once does, and enters V-blank as many times in all.
pub proof fn lemma_advance_split(pos: int, a: nat, b: nat)
    requires
        0 <= pos < FRAME_CYCLES,
    ensures
        advance_pos(advance_pos(pos, a as int), b as int) == advance_pos(pos, (a + b) as int),
        vblank_entries(pos, a as int) + vblank_entries(advance_pos(pos, a as int), b as int)
            == vblank_entries(pos, (a + b) as int),
{
    let f: int = FRAME_CYCLES as int;
    let x: int = pos + a;
    let q: int = x / f;
    let m: int = x % f;
    lemma_fundamental_div_mod(x, f);
    assert(x == f * q + m);
    lemma_mod_multiples_vanish(q, m + b as int, f);
    assert(f * q + (m + b) == x + b);
    lemma_mod_twice(x, f);
    lemma_div_shift(q, m + b + VBLANK_CYCLES as int, f);
    lemma_div_shift(q, m + VBLANK_CYCLES as int, f);
    assert(f * q + (m + b + VBLANK_CYCLES) == x + b + VBLANK_CYCLES);
    assert(f * q + (m + VBLANK_CYCLES) == x + VBLANK_CYCLES);
}

/// Within a visible scanline the modes run OAM-scan (80 cycles), then
/// pixel-transfer (172 cycles plus the line's extra), then H-blank for the
/// rest of the 456 cycles.
pub proof fn lemma_scanline_modes(ly: int, extra: int)
    requires
        0 <= ly < VISIBLE_LINES,
        0 <= extra <= MAX_DRAW_EXTRA,
    ensures
        forall|d: int| 0 <= d < 80 ==> mode_at(ly, d, extra) == PpuMode::Scan,
        forall|d: int| 80 <= d < 252 + extra ==> mode_at(ly, d, extra) == PpuMode::Drawing,
        forall|d: int| 252 + extra <= d < LINE_CYCLES ==> mode_at(ly, d, extra) == PpuMode::HBlank,
        OAM_SCAN_CYCLES + (PIXEL_TRANSFER_CYCLES + extra) + (LINE_CYCLES - 252 - extra) == LINE_CYCLES,
        LINE_CYCLES - 252 - extra > 0,
{
}

/// Each 456 cycles move LY on by exactly one, wrapping from 153 to 0, keep
/// the cycle within the line, and enter V-blank once, when LY goes from 143
/// to 144.
pub proof fn lemma_line_step(ly: int, dot: int)
    requires
        0 <= ly < LINES_PER_FRAME,
        0 <= dot < LINE_CYCLES,
    ensures
        advance_pos(ly * LINE_CYCLES + dot, LINE_CYCLES as int)
            == ((ly + 1) % (LINES_PER_FRAME as int)) * LINE_CYCLES + dot,
        vblank_entries(ly * LINE_CYCLES + dot, LINE_CYCLES as int) == (if ly == 143 { 1int } else { 0 }),
{
    let p = ly * 456 + dot;
    if ly < 153 {
        assert((ly + 1) * 456 + dot < 70224) by (nonlinear_arith)
            requires ly < 153, dot < 456;
        lemma_small_mod(((ly + 1) * 456 + dot) as nat, 70224);
        lemma_small_mod((ly + 1) as nat, 154);
    } else {
        assert(p + 456 == 70224 + dot);
        lemma_mod_add_multiples_vanish(dot, 70224);
        lemma_small_mod(dot as nat, 70224);
    }
    lemma_frame_count(p + 4560);
    lemma_frame_count(p + 456 + 4560);
    assert(ly <= 142 ==> p + 456 + 4560 < 70224) by (nonlinear_arith)
        requires p == ly * 456 + dot, dot < 456;
    assert(ly == 143 ==> p + 4560 < 70224 && p + 456 + 4560 >= 70224) by (nonlinear_arith)
        requires p == ly * 456 + dot, dot < 456, dot >= 0;
    assert(ly >= 144 ==> p + 4560 >= 70224) by (nonlinear_arith)
        requires p == ly * 456 + dot, dot >= 0;
    assert(p + 456 + 4560 < 2 * 70224) by (nonlinear_arith)
        requires p == ly * 456 + dot, dot < 456, ly < 154;
}

/// A value below two frames counts at most one whole frame.
proof fn lemma_frame_count(x: int)
    requires
        0 <= x < 2 * FRAME_CYCLES,
    ensures
        x / (FRAME_CYCLES as int) == (if x >= FRAME_CYCLES { 1int } else { 0 }),
{
    let f = FRAME_CYCLES as int;
    lemma_basic_div_specific_divisor(f);
    if x >= f {
        lemma_div_shift(1, x - f, f);
    }
}

/// From line 0, cycle 0, moving on a whole line at a time for `n` lines
/// (`n` ≤ 144) reaches line `n` at cycle 0; V-blank has been entered once
/// when `n` is 144, and not before. With 144 lines the PPU is in V-blank.
pub proof fn lemma_lines_from_frame_start(n: nat)
    requires
        n <= VISIBLE_LINES,
    ensures
        advance_pos(0, n * LINE_CYCLES) == n * LINE_CYCLES,
        vblank_entries(0, n * LINE_CYCLES) == (if n == VISIBLE_LINES { 1int } else { 0 }),
        forall|e: int| n == VISIBLE_LINES ==> #[trigger] mode_at(n as int, 0, e) == PpuMode::VBlank,
    decreases n,
{
    if n > 0 {
        let m = (n - 1) as nat;
        lemma_lines_from_frame_start(m);
        lemma_advance_split(0, m * LINE_CYCLES as nat, LINE_CYCLES as nat);
        lemma_line_step(m as int, 0);
        assert(m * LINE_CYCLES + LINE_CYCLES == n * LINE_CYCLES) by (nonlinear_arith)
            requires m + 1 == n;
        assert((m as int + 1) % (LINES_PER_FRAME as int) == n) by {
            lemma_small_mod(n, LINES_PER_FRAME as nat);
        }
    } else {
        lemma_small_mod(0, FRAME_CYCLES as nat);
    }
}

/// Moving on by a whole frame or more always enters V-blank.
pub proof fn lemma_frame_enters_vblank(pos: int, n: int)
    requires
        0 <= pos,
        n >= FRAME_CYCLES,
    ensures
        vblank_entries(pos, n) >= 1,
{
    let f = FRAME_CYCLES as int;
    lemma_div_is_ordered(pos + f + VBLANK_CYCLES, pos + n + VBLANK_CYCLES, f);
    lemma_div_shift(1, pos + VBLANK_CYCLES, f);
}

/// A short move (under a frame) enters V-blank at most once.
pub proof fn lemma_line_entries_small(pos: int, n: int)
    requires
        0 <= pos < FRAME_CYCLES,
        0 <= n < FRAME_CYCLES,
    ensures
        0 <= vblank_entries(pos, n) <= 1,
{
    let f = FRAME_CYCLES as int;
    lemma_frame_count(pos + VBLANK_CYCLES);
    if pos + n + VBLANK_CYCLES < 2 * f {
        lemma_frame_count(pos + n + VBLANK_CYCLES);
    } else {
        lemma_div_shift(2, pos + n + VBLANK_CYCLES - 2 * f, f);
        lemma_basic_div_specific_divisor(f);
    }
}

/// A move of `a + b` cycles passes the start of a line exactly when a move
/// of `a` does or the following move of `b` does; `advance` recomputes the
/// pixel-transfer extra on just those moves, from registers that neither
/// move changes, so splitting a move leaves the extra as one move would.
pub proof fn lemma_line_start_split(pos: int, a: nat, b: nat)
    requires
        0 <= pos < FRAME_CYCLES,
    ensures
        (pos % 456 + a + b >= LINE_CYCLES) == (pos % 456 + a >= LINE_CYCLES || advance_pos(pos, a as int) % 456 + b
            >= LINE_CYCLES),
{
    let l = LINE_CYCLES as int;
    lemma_mod_mod(pos + a, l, LINES_PER_FRAME as int);
    assert(l * (LINES_PER_FRAME as int) == FRAME_CYCLES);
    lemma_fundamental_div_mod(pos, l);
    lemma_mod_pos_bound(pos, l);
    if pos % l + a < l {
        lemma_mod_multiples_vanish(pos / l, pos % l + a, l);
        lemma_small_mod((pos % l + a) as nat, l as nat);
        assert(l * (pos / l) + (pos % l + a) == pos + a);
    }
}

/// From line 0, cycle 0, after `n` cycles in all (in one move or several,
/// by `lemma_advance_split`), LY is `(n / 456) % 154` and the cycle within
/// the line is `n % 456`: LY goes up once per 456 cycles and wraps from 153
/// to 0 at each frame boundary.
pub proof fn lemma_ly_after(n: nat)
    ensures
        advance_pos(0, n as int) / (LINE_CYCLES as int) == (n as int / LINE_CYCLES as int) % (LINES_PER_FRAME as int),
        advance_pos(0, n as int) % (LINE_CYCLES as int) == n as int % LINE_CYCLES as int,
{
    let x = n as int;
    lemma_mod_breakdown(x, 456, 154);
    assert(456 * 154 == 70224);
    lemma_mod_pos_bound(x, 456);
    lemma_mod_pos_bound(x / 456, 154);
    lemma_div_multiples_vanish_fancy((x / 456) % 154, x % 456, 456);
    lemma_mod_multiples_vanish((x / 456) % 154, x % 456, 456);
    lemma_small_mod((x % 456) as nat, 456);
}

/// Adding a whole number of `d` to `y` adds as much to `y / d`.
proof fn lemma_div_shift(q: int, y: int, d: int)
    requires
        0 < d,
        0 <= y,
    ensures
        (d * q + y) / d == q + y / d,
{
    lemma_fundamental_div_mod(y, d);
    assert(d * q + y == d * (q + y / d) + y % d) by (nonlinear_arith)
        requires
            y == d * (y / d) + y % d,
    ;
    lemma_mod_pos_bound(y, d);
    lemma_div_multiples_vanish_fancy(q + y / d, y % d, d);
}

} // verus!
