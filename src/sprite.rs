use vstd::prelude::*;
use crate::ppu::{bg_index, bit_at, shade, Ppu};

verus! {

/// Sprites in object attribute memory, four bytes each: Y, X, tile, attributes.
pub const SPRITE_COUNT: usize = 40;
/// At most this many sprites are drawn on one line.
pub const SPRITES_PER_LINE: usize = 10;

/// Sprite height: 16 when LCDC bit 2 is set, else 8.
pub open spec fn sprite_height(lcdc: u8) -> int {
    if bit_at(lcdc, 2) == 1 { 16 } else { 8 }
}

/// Whether sprite `i` has a row on line `ly` (its Y byte is the line plus 16).
pub open spec fn on_line(oam: Seq<u8>, lcdc: u8, ly: int, i: int) -> bool {
    oam[4 * i] <= ly + 16 < oam[4 * i] + sprite_height(lcdc)
}

/// The sprites drawn on line `ly`, from among the first `n`: those with a row
/// on the line, in table order, at most ten.
pub open spec fn selected(oam: Seq<u8>, lcdc: u8, ly: int, n: int) -> Seq<int>
    decreases n,
{
    if n <= 0 {
        Seq::empty()
    } else {
        let s = selected(oam, lcdc, ly, n - 1);
        if on_line(oam, lcdc, ly, n - 1) && s.len() < SPRITES_PER_LINE {
            s.push(n - 1)
        } else {
            s
        }
    }
}

/// The 2-bit color of sprite `i` at column `x` of line `ly`; 0 is clear,
/// as is every column the sprite does not cover.
pub open spec fn sprite_color(oam: Seq<u8>, vram: Seq<u8>, lcdc: u8, ly: int, x: int, i: int) -> int {
    let sy = oam[4 * i];
    let sx = oam[4 * i + 1];
    let attr = oam[4 * i + 3];
    let h = sprite_height(lcdc);
    if !(sx <= x + 8 < sx + 8) {
        0
    } else {
        let row0 = ly + 16 - sy;
        let row = if bit_at(attr, 6) == 1 { h - 1 - row0 } else { row0 };
        let tile = if h == 16 { oam[4 * i + 2] - oam[4 * i + 2] % 2 } else { oam[4 * i + 2] as int };
        let a = tile * 16 + row * 2;
        let col = x + 8 - sx;
        let b = (if bit_at(attr, 5) == 1 { col } else { 7 - col }) as u8;
        2 * bit_at(vram[a + 1], b) + bit_at(vram[a], b)
    }
}

/// Among the first `k` selected sprites, the one shown at column `x`: the
/// lowest X among those with a color there, the earlier in the table on a tie.
pub open spec fn front_sprite(oam: Seq<u8>, vram: Seq<u8>, lcdc: u8, ly: int, x: int, sel: Seq<int>, k: int) -> Option<int>
    decreases k,
{
    if k <= 0 {
        None
    } else {
        let b = front_sprite(oam, vram, lcdc, ly, x, sel, k - 1);
        let i = sel[k - 1];
        if sprite_color(oam, vram, lcdc, ly, x, i) != 0 && (b matches Some(j) ==> oam[4 * i + 1] < oam[4 * j + 1]) {
            Some(i)
        } else {
            b
        }
    }
}

/// An optional index as an integer.
pub open spec fn opt_int(o: Option<usize>) -> Option<int> {
    match o {
        Some(i) => Some(i as int),
        None => None,
    }
}

/// Every selected sprite has a row on the line and is one of the first `n`.
pub proof fn lemma_selected_on_line(oam: Seq<u8>, lcdc: u8, ly: int, n: int)
    ensures
        forall|j: int|
            0 <= j < selected(oam, lcdc, ly, n).len() ==> on_line(oam, lcdc, ly, #[trigger] selected(oam, lcdc, ly, n)[j])
                && 0 <= selected(oam, lcdc, ly, n)[j] < n,
        selected(oam, lcdc, ly, n).len() <= SPRITES_PER_LINE,
    decreases n,
{
    if n > 0 {
        lemma_selected_on_line(oam, lcdc, ly, n - 1);
    }
}

/// The front sprite, when there is one, is one of the selected sprites.
pub proof fn lemma_front_is_selected(oam: Seq<u8>, vram: Seq<u8>, lcdc: u8, ly: int, x: int, sel: Seq<int>, k: int)
    requires
        0 <= k <= sel.len(),
    ensures
        front_sprite(oam, vram, lcdc, ly, x, sel, k) matches Some(i) ==> exists|j: int| 0 <= j < k && sel[j] == i,
    decreases k,
{
    if k > 0 {
        lemma_front_is_selected(oam, vram, lcdc, ly, x, sel, k - 1);
    }
}

/// The shade of column `x` of line `ly`: the front sprite's, through its
/// palette, unless sprites are off, none has a color there, or it sits
/// behind a background color other than 0; else the background's.
pub open spec fn pixel_shade(p: Ppu, vram: Seq<u8>, ly: int, x: int) -> u8 {
    let bgc = bg_index(p, vram, ly, x);
    let sel = selected(p.oam@, p.lcdc, ly, SPRITE_COUNT as int);
    match front_sprite(p.oam@, vram, p.lcdc, ly, x, sel, sel.len() as int) {
        Some(i) => {
            let attr = p.oam@[4 * i + 3];
            if bit_at(p.lcdc, 1) == 0 || (bit_at(attr, 7) == 1 && bgc != 0) {
                shade(p.bgp, bgc)
            } else {
                shade(if bit_at(attr, 4) == 1 { p.obp1 } else { p.obp0 }, sprite_color(p.oam@, vram, p.lcdc, ly, x, i))
            }
        },
        None => shade(p.bgp, bgc),
    }
}

impl Ppu {
    /// The sprites drawn on the current line, in table order.
    pub fn select_sprites(&self) -> (r: Vec<usize>)
        requires
            self.wf(),
        ensures
            r@.len() <= SPRITES_PER_LINE,
            r@.map_values(|i: usize| i as int) == selected(self.oam@, self.lcdc, self.ly as int, SPRITE_COUNT as int),
            forall|j: int| 0 <= j < r@.len() ==> #[trigger] r@[j] < SPRITE_COUNT,
    {
        let h: u16 = if Ppu::bit(self.lcdc, 2) == 1 { 16 } else { 8 };
        let mut r: Vec<usize> = Vec::new();
        let mut i: usize = 0;
        while i < SPRITE_COUNT
            invariant
                self.wf(),
                i <= SPRITE_COUNT,
                h as int == sprite_height(self.lcdc),
                r@.len() <= SPRITES_PER_LINE,
                r@.map_values(|i: usize| i as int) == selected(self.oam@, self.lcdc, self.ly as int, i as int),
                forall|j: int| 0 <= j < r@.len() ==> #[trigger] r@[j] < i,
            decreases SPRITE_COUNT - i,
        {
            let sy: u16 = self.oam[4 * i] as u16;
            if sy <= self.ly as u16 + 16 && (self.ly as u16 + 16) < sy + h && r.len() < SPRITES_PER_LINE {
                r.push(i);
                assert(r@.map_values(|i: usize| i as int) =~= selected(self.oam@, self.lcdc, self.ly as int, i as int).push(i as int));
            }
            i = i + 1;
        }
        r
    }

    /// The color of sprite `i` at column `x` of the current line.
    pub fn sprite_pixel(&self, vram: &Vec<u8>, i: usize, x: usize) -> (r: u8)
        requires
            self.wf(),
            vram@.len() == 0x4000,
            i < SPRITE_COUNT,
            x < 160,
            on_line(self.oam@, self.lcdc, self.ly as int, i as int),
        ensures
            r as int == sprite_color(self.oam@, vram@, self.lcdc, self.ly as int, x as int, i as int),
            r < 4,
    {
        let sy: usize = self.oam[4 * i] as usize;
        let sx: usize = self.oam[4 * i + 1] as usize;
        let attr: u8 = self.oam[4 * i + 3];
        let h: usize = if Ppu::bit(self.lcdc, 2) == 1 { 16 } else { 8 };
        if !(sx <= x + 8 && x + 8 < sx + 8) {
            return 0;
        }
        let row0: usize = self.ly as usize + 16 - sy;
        let row: usize = if Ppu::bit(attr, 6) == 1 { h - 1 - row0 } else { row0 };
        let t: u8 = self.oam[4 * i + 2];
        let tile: usize = if h == 16 { (t - t % 2) as usize } else { t as usize };
        let a: usize = tile * 16 + row * 2;
        let col: usize = x + 8 - sx;
        let b: u8 = (if Ppu::bit(attr, 5) == 1 { col } else { 7 - col }) as u8;
        2 * Ppu::bit(vram[a + 1], b) + Ppu::bit(vram[a], b)
    }
    /// The sprite shown at column `x` of the current line, if any.
    pub fn front(&self, vram: &Vec<u8>, sel: &Vec<usize>, x: usize) -> (r: Option<usize>)
        requires
            self.wf(),
            vram@.len() == 0x4000,
            x < 160,
            sel@.map_values(|i: usize| i as int) == selected(self.oam@, self.lcdc, self.ly as int, SPRITE_COUNT as int),
        ensures
            r matches Some(i) ==> i < SPRITE_COUNT,
            opt_int(r) == front_sprite(
                self.oam@,
                vram@,
                self.lcdc,
                self.ly as int,
                x as int,
                selected(self.oam@, self.lcdc, self.ly as int, SPRITE_COUNT as int),
                sel@.len() as int,
            ),
    {
        let ghost full = selected(self.oam@, self.lcdc, self.ly as int, SPRITE_COUNT as int);
        proof {
            lemma_selected_on_line(self.oam@, self.lcdc, self.ly as int, SPRITE_COUNT as int);
            assert(sel@.len() == full.len());
        }
        let mut best: Option<usize> = None;
        let mut k: usize = 0;
        while k < sel.len()
            invariant
                self.wf(),
                vram@.len() == 0x4000,
                x < 160,
                k <= sel@.len(),
                sel@.len() == full.len(),
                sel@.map_values(|i: usize| i as int) == full,
                full == selected(self.oam@, self.lcdc, self.ly as int, SPRITE_COUNT as int),
                forall|j: int|
                    0 <= j < full.len() ==> on_line(self.oam@, self.lcdc, self.ly as int, #[trigger] full[j]) && 0
                        <= full[j] < SPRITE_COUNT,
                best matches Some(i) ==> i < SPRITE_COUNT,
                opt_int(best) == front_sprite(self.oam@, vram@, self.lcdc, self.ly as int, x as int, full, k as int),
            decreases sel@.len() - k,
        {
            let i = sel[k];
            assert(full[k as int] == i as int);
            let c = self.sprite_pixel(vram, i, x);
            if c != 0 {
                match best {
                    Some(j) => {
                        if self.oam[4 * i + 1] < self.oam[4 * j + 1] {
                            best = Some(i);
                        }
                    },
                    None => {
                        best = Some(i);
                    },
                }
            }
            k = k + 1;
        }
        best
    }
}


/// The shade of a pixel depends only on the registers, sprite memory and
/// video RAM, not on the PPU's position.
pub proof fn lemma_shade_same(p: Ppu, q: Ppu, vram: Seq<u8>, ly: int, x: int)
    requires
        p.oam@ == q.oam@,
        p.same_regs(q),
    ensures
        pixel_shade(p, vram, ly, x) == pixel_shade(q, vram, ly, x),
{
    assert(bg_index(p, vram, ly, x) == bg_index(q, vram, ly, x));
}

} // verus!
