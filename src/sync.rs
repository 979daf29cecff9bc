use vstd::prelude::*;
use vstd::arithmetic::div_mod::{lemma_div_is_ordered, lemma_fundamental_div_mod, lemma_mod_multiples_vanish, lemma_mod_self_0, lemma_small_mod};
use crate::ppu::{advance_pos, bit_at, lemma_advance_split, extra_for, vblank_entries, Ppu, FRAME_CYCLES, LINE_CYCLES, MAX_DRAW_EXTRA, VISIBLE_LINES};
use crate::sprite::{lemma_selected_on_line, SPRITE_COUNT};

verus! {

/// The frame position `pt` plus `k` whole frames.
pub open spec fn shifted(pt: int, k: int) -> int {
    pt + k * FRAME_CYCLES
}

/// Whether a move over the absolute cycles `a + 1 ..= b` reaches frame
/// position `pt` (in any frame).
pub open spec fn passes(a: int, b: int, pt: int) -> bool {
    exists|k: int| a < #[trigger] shifted(pt, k) <= b
}

/// Where line `l` enters H-blank when its pixel transfer takes `e` extra.
pub open spec fn hblank_point(l: int, e: int) -> int {
    l * LINE_CYCLES + 252 + e
}

/// Whether a move of the PPU `p` up to absolute cycle `b` (counted from the
/// frame start of `p`) enters H-blank on line `l`: on the current line with
/// the extra it holds, or on a later pass with the extra computed for `l`.
pub open spec fn line_drawn(p: Ppu, b: int, l: int) -> bool {
    let start = (p.ly + 1) * LINE_CYCLES;
    ||| (l == p.ly && p.ly < VISIBLE_LINES && p.pos() < hblank_point(l, p.draw_extra as int) <= b)
    ||| (0 <= l < VISIBLE_LINES && passes(start, b, hblank_point(l, extra_for(p.oam@, p.lcdc, p.scx, p.wx, p.wy, l))))
}

/// Whether a move of `p` up to absolute cycle `b` requests the STAT
/// interrupt: it enters OAM-scan (bit 5), V-blank (bit 4) or H-blank (bit 3)
/// with that source enabled, or LY becomes LYC with bit 6 set.
pub open spec fn stat_fired(p: Ppu, b: int) -> bool {
    ||| (bit_at(p.stat, 5) == 1 && exists|l: int| 0 <= l < VISIBLE_LINES && #[trigger] passes(p.pos(), b, l * LINE_CYCLES))
    ||| (bit_at(p.stat, 4) == 1 && vblank_entries(p.pos(), b - p.pos()) > 0)
    ||| (bit_at(p.stat, 3) == 1 && exists|l: int| 0 <= l < VISIBLE_LINES && #[trigger] line_drawn(p, b, l))
    ||| (bit_at(p.stat, 6) == 1 && p.lyc < 154 && passes(p.pos(), b, p.lyc * LINE_CYCLES))
}

/// Nothing is reached by an empty move.
pub proof fn lemma_passes_empty(a: int, pt: int)
    ensures
        !passes(a, a, pt),
{
}

/// Moving one cycle further reaches `pt` exactly when it was reached
/// before or the new cycle is `pt` in some frame.
pub proof fn lemma_passes_step(a: int, b: int, pt: int)
    requires
        a <= b,
    ensures
        passes(a, b + 1, pt) == (passes(a, b, pt) || (b + 1) % (FRAME_CYCLES as int) == pt % (FRAME_CYCLES as int)),
{
    let f = FRAME_CYCLES as int;
    if passes(a, b + 1, pt) {
        let k = choose|k: int| a < #[trigger] shifted(pt, k) <= b + 1;
        if shifted(pt, k) == b + 1 {
            lemma_mod_multiples_vanish(k, pt, f);
            assert(f * k + pt == b + 1) by (nonlinear_arith)
                requires shifted(pt, k) == b + 1, shifted(pt, k) == pt + k * f;
        } else {
            assert(a < shifted(pt, k) <= b);
        }
    }
    if (b + 1) % f == pt % f {
        lemma_fundamental_div_mod(b + 1, f);
        lemma_fundamental_div_mod(pt, f);
        let k = (b + 1) / f - pt / f;
        assert(shifted(pt, k) == b + 1) by (nonlinear_arith)
            requires
                b + 1 == f * ((b + 1) / f) + (b + 1) % f,
                pt == f * (pt / f) + pt % f,
                (b + 1) % f == pt % f,
                k == (b + 1) / f - pt / f,
                shifted(pt, k) == pt + k * f;
        assert(a < shifted(pt, k) <= b + 1);
    }
    if passes(a, b, pt) {
        let k = choose|k: int| a < #[trigger] shifted(pt, k) <= b;
        assert(a < shifted(pt, k) <= b + 1);
    }
}

/// A position on line `l` at cycle `c` is the position on line `ly` at
/// cycle `d` only when the lines and cycles agree.
pub proof fn lemma_line_point(l: int, c: int, ly: int, d: int)
    requires
        0 <= c < LINE_CYCLES,
        0 <= d < LINE_CYCLES,
    ensures
        (l * LINE_CYCLES + c == ly * LINE_CYCLES + d) == (l == ly && c == d),
{
    if l * 456 + c == ly * 456 + d {
        if l < ly {
            assert(l * 456 + 456 <= ly * 456) by (nonlinear_arith)
                requires l < ly;
        } else if l > ly {
            assert(ly * 456 + 456 <= l * 456) by (nonlinear_arith)
                requires ly < l;
        }
    }
}


/// Every line's pixel-transfer extra is at most `MAX_DRAW_EXTRA`.
pub proof fn lemma_extra_bound(oam: Seq<u8>, lcdc: u8, scx: u8, wx: u8, wy: u8, l: int)
    ensures
        0 <= extra_for(oam, lcdc, scx, wx, wy, l) <= MAX_DRAW_EXTRA,
{
    lemma_selected_on_line(oam, lcdc, l, SPRITE_COUNT as int);
}

/// Reaching line `l`'s start position: one cycle further reaches it exactly
/// when the new cycle is cycle 0 of line `l`.
pub proof fn lemma_start_step(a: int, b: int, l: int, ly1: int, dot1: int)
    requires
        a <= b,
        0 <= l < 154,
        0 <= ly1 < 154,
        0 <= dot1 < LINE_CYCLES,
        (b + 1) % (FRAME_CYCLES as int) == ly1 * LINE_CYCLES + dot1,
    ensures
        passes(a, b + 1, l * LINE_CYCLES) == (passes(a, b, l * LINE_CYCLES) || (ly1 == l && dot1 == 0)),
{
    lemma_passes_step(a, b, l * 456);
    assert(l * 456 < 70224) by (nonlinear_arith)
        requires l < 154, l >= 0;
    assert(l * 456 >= 0) by (nonlinear_arith)
        requires l >= 0;
    lemma_small_mod((l * 456) as nat, 70224);
    lemma_line_point(l, 0, ly1, dot1);
}

/// One cycle more of a move from `p` to absolute cycle `b + 1`: line `l` is
/// drawn exactly when it was already, or the new cycle is line `l`'s
/// H-blank entry with the extra `e1` that the line now holds.
pub proof fn lemma_drawn_step(p: Ppu, b: int, l: int, ly1: int, dot1: int, e1: int)
    requires
        p.ly < 154,
        p.dot < LINE_CYCLES,
        p.draw_extra <= MAX_DRAW_EXTRA,
        p.pos() <= b,
        0 <= ly1 < 154,
        0 <= dot1 < LINE_CYCLES,
        0 <= e1 <= MAX_DRAW_EXTRA,
        (b + 1) % (FRAME_CYCLES as int) == ly1 * LINE_CYCLES + dot1,
        b + 1 < (p.ly + 1) * LINE_CYCLES ==> ly1 == p.ly && dot1 == p.dot + (b + 1 - p.pos()) && e1 == p.draw_extra,
        b + 1 >= (p.ly + 1) * LINE_CYCLES ==> e1 == extra_for(p.oam@, p.lcdc, p.scx, p.wx, p.wy, ly1),
    ensures
        line_drawn(p, b + 1, l) == (line_drawn(p, b, l) || (ly1 < VISIBLE_LINES && dot1 == 252 + e1 && l == ly1)),
{
    let f = FRAME_CYCLES as int;
    let start = (p.ly + 1) * 456;
    let ex = extra_for(p.oam@, p.lcdc, p.scx, p.wx, p.wy, l);
    lemma_extra_bound(p.oam@, p.lcdc, p.scx, p.wx, p.wy, l);
    let h = hblank_point(l, ex);
    if b + 1 < start {
        assert(!passes(start, b + 1, h));
        assert(!passes(start, b, h));
        assert(b + 1 == p.ly * 456 + dot1);
    } else if b + 1 == start {
        assert(!passes(start, b + 1, h));
        assert(!passes(start, b, h));
        if p.ly < 153 {
            assert(start < f) by (nonlinear_arith)
                requires start == (p.ly + 1) * 456, p.ly < 153, f == 70224;
            lemma_small_mod(start as nat, f as nat);
            lemma_line_point(p.ly + 1, 0, ly1, dot1);
        } else {
            lemma_mod_self_0(f);
            lemma_line_point(0, 0, ly1, dot1);
        }
    } else {
        lemma_passes_step(start, b, h);
        if 0 <= l < VISIBLE_LINES {
            assert(0 <= h < f) by (nonlinear_arith)
                requires h == l * 456 + 252 + ex, 0 <= l < 144, 0 <= ex <= 73, f == 70224;
            lemma_small_mod(h as nat, f as nat);
            lemma_line_point(l, 252 + ex, ly1, dot1);
        }
    }
}


/// Reaching `pt` over `x..=y` splits at any `m` in between.
pub proof fn lemma_passes_split(x: int, m: int, y: int, pt: int)
    requires
        x <= m <= y,
    ensures
        passes(x, y, pt) == (passes(x, m, pt) || passes(m, y, pt)),
{
    if passes(x, y, pt) {
        let k = choose|k: int| x < #[trigger] shifted(pt, k) <= y;
        if shifted(pt, k) <= m {
            assert(x < shifted(pt, k) <= m);
        } else {
            assert(m < shifted(pt, k) <= y);
        }
    }
    if passes(x, m, pt) {
        let k = choose|k: int| x < #[trigger] shifted(pt, k) <= m;
        assert(x < shifted(pt, k) <= y);
    }
    if passes(m, y, pt) {
        let k = choose|k: int| m < #[trigger] shifted(pt, k) <= y;
        assert(x < shifted(pt, k) <= y);
    }
}

/// Moving a span by whole frames reaches the same frame positions.
pub proof fn lemma_passes_shift(x: int, y: int, pt: int, q: int)
    ensures
        passes(x - q * FRAME_CYCLES, y - q * FRAME_CYCLES, pt) == passes(x, y, pt),
{
    if passes(x, y, pt) {
        let k = choose|k: int| x < #[trigger] shifted(pt, k) <= y;
        assert(shifted(pt, k - q) == shifted(pt, k) - q * FRAME_CYCLES) by (nonlinear_arith);
        assert(x - q * FRAME_CYCLES < shifted(pt, k - q) <= y - q * FRAME_CYCLES);
    }
    if passes(x - q * FRAME_CYCLES, y - q * FRAME_CYCLES, pt) {
        let k = choose|k: int| x - q * FRAME_CYCLES < #[trigger] shifted(pt, k) <= y - q * FRAME_CYCLES;
        assert(shifted(pt, k + q) == shifted(pt, k) + q * FRAME_CYCLES) by (nonlinear_arith);
        assert(x < shifted(pt, k + q) <= y);
    }
}

/// Within the rest of line `ly` (from position `pos` on that line up to
/// its end), the only H-blank entry reached is line `ly`'s own.
pub proof fn lemma_passes_in_line(ly: int, d: int, y: int, l: int, e: int)
    requires
        0 <= ly < 154,
        0 <= d < LINE_CYCLES,
        y <= (ly + 1) * LINE_CYCLES,
        0 <= l < VISIBLE_LINES,
        0 <= e <= MAX_DRAW_EXTRA,
    ensures
        passes(ly * LINE_CYCLES + d, y, hblank_point(l, e)) == (l == ly && ly * LINE_CYCLES + d < hblank_point(l, e)
            <= y),
{
    let pos = ly * 456 + d;
    let pt = hblank_point(l, e);
    if passes(pos, y, pt) {
        let k = choose|k: int| pos < #[trigger] shifted(pt, k) <= y;
        assert((ly + 1) * 456 <= 70224) by (nonlinear_arith)
            requires ly < 154;
        assert(pos >= 0) by (nonlinear_arith)
            requires pos == ly * 456 + d, ly >= 0, d >= 0;
        assert(pt + 70224 > (ly + 1) * 456) by (nonlinear_arith)
            requires pt == l * 456 + 252 + e, l >= 0, e >= 0, ly < 154;
        assert(pt < 70224) by (nonlinear_arith)
            requires pt == l * 456 + 252 + e, l < 144, e <= 73;
        if k >= 1 {
            assert(shifted(pt, k) >= pt + 70224) by (nonlinear_arith)
                requires k >= 1, shifted(pt, k) == pt + k * 70224;
        } else if k <= -1 {
            assert(shifted(pt, k) <= pt - 70224) by (nonlinear_arith)
                requires k <= -1, shifted(pt, k) == pt + k * 70224;
        }
        assert(k == 0);
        if l < ly {
            assert(pt < ly * 456) by (nonlinear_arith)
                requires pt == l * 456 + 252 + e, l < ly, e <= 73;
        } else if l > ly {
            assert(pt > (ly + 1) * 456) by (nonlinear_arith)
                requires pt == l * 456 + 252 + e, l > ly, e >= 0;
        }
    }
    if l == ly && pos < pt <= y {
        assert(shifted(pt, 0) == pt);
    }
}


/// Drawing does not depend on how a move is split: moving `a` cycles from
/// `p` (reaching `pm`, as `Ppu::advance` leaves it) and then `b` more draws
/// exactly the lines that one move of `a + b` cycles draws.
pub proof fn lemma_drawn_split(p: Ppu, pm: Ppu, a: nat, b: nat, l: int)
    requires
        p.ly < 154,
        p.dot < LINE_CYCLES,
        p.draw_extra <= MAX_DRAW_EXTRA,
        pm.ly < 154,
        pm.dot < LINE_CYCLES,
        pm.oam@ == p.oam@,
        pm.same_regs(p),
        pm.pos() == advance_pos(p.pos(), a as int),
        pm.draw_extra == (if p.dot + a >= LINE_CYCLES { pm.line_extra() } else { p.draw_extra as int }),
        0 <= l < VISIBLE_LINES,
    ensures
        line_drawn(p, p.pos() + a + b, l) == (line_drawn(p, p.pos() + a, l) || line_drawn(pm, pm.pos() + b, l)),
{
    let f = FRAME_CYCLES as int;
    let pos0 = p.pos();
    let m = pos0 + a;
    let start0 = (p.ly + 1) * 456;
    let start_m = (pm.ly + 1) * 456;
    let ex = extra_for(p.oam@, p.lcdc, p.scx, p.wx, p.wy, l);
    lemma_extra_bound(p.oam@, p.lcdc, p.scx, p.wx, p.wy, l);
    let h = hblank_point(l, ex);
    let pmpos = pm.pos();
    assert(pos0 >= 0 && start0 <= f && pmpos >= 0) by (nonlinear_arith)
        requires pos0 == p.ly * 456 + p.dot, p.ly < 154, start0 == (p.ly + 1) * 456, f == 70224,
            pmpos == pm.ly * 456 + pm.dot;
    assert(pos0 < start0);
    if m < start0 {
        lemma_small_mod(m as nat, f as nat);
        lemma_line_point(pm.ly as int, pm.dot as int, p.ly as int, p.dot + a);
        assert(!passes(start0, m, h));
    } else {
        lemma_fundamental_div_mod(m, f);
        let q = m / f;
        assert(pmpos == m - q * f);
        lemma_passes_split(start0, m, m + b, h);
        lemma_passes_shift(m, m + b, h, q);
        lemma_extra_bound(pm.oam@, pm.lcdc, pm.scx, pm.wx, pm.wy, pm.ly as int);
        if pmpos + b <= start_m {
            lemma_passes_in_line(pm.ly as int, pm.dot as int, pmpos + b, l, ex);
            assert(!passes(start_m, pmpos + b, h));
        } else {
            lemma_passes_split(pmpos, start_m, pmpos + b, h);
            lemma_passes_in_line(pm.ly as int, pm.dot as int, start_m, l, ex);
        }
    }
}


/// STAT requests do not depend on how a move is split: moving `a` cycles
/// from `p` (reaching `pm`) and then `b` more raises the STAT interrupt
/// exactly when one move of `a + b` cycles does.
pub proof fn lemma_stat_split(p: Ppu, pm: Ppu, a: nat, b: nat)
    requires
        p.ly < 154,
        p.dot < LINE_CYCLES,
        p.draw_extra <= MAX_DRAW_EXTRA,
        pm.ly < 154,
        pm.dot < LINE_CYCLES,
        pm.oam@ == p.oam@,
        pm.same_regs(p),
        pm.pos() == advance_pos(p.pos(), a as int),
        pm.draw_extra == (if p.dot + a >= LINE_CYCLES { pm.line_extra() } else { p.draw_extra as int }),
    ensures
        stat_fired(p, p.pos() + a + b) == (stat_fired(p, p.pos() + a) || stat_fired(pm, pm.pos() + b)),
{
    let f = FRAME_CYCLES as int;
    let pos0 = p.pos();
    let m = pos0 + a;
    let pmpos = pm.pos();
    assert(0 <= pos0 < f) by (nonlinear_arith)
        requires pos0 == p.ly * 456 + p.dot, p.ly < 154, p.dot < 456, f == 70224;
    lemma_fundamental_div_mod(m, f);
    let q = m / f;
    assert(pmpos == m - q * f);
    assert forall|pt: int| #[trigger] passes(pos0, m + b, pt) == (passes(pos0, m, pt) || passes(pmpos, pmpos + b, pt)) by {
        lemma_passes_split(pos0, m, m + b, pt);
        lemma_passes_shift(m, m + b, pt, q);
    }
    assert forall|l: int| 0 <= l < VISIBLE_LINES implies #[trigger] line_drawn(p, m + b, l) == (line_drawn(p, m, l)
        || line_drawn(pm, pmpos + b, l)) by {
        lemma_drawn_split(p, pm, a, b, l);
    }
    lemma_advance_split(pos0, a, b);
    lemma_div_is_ordered(pos0 + 4560, m + 4560, f);
    lemma_div_is_ordered(pmpos + 4560, pmpos + b + 4560, f);
    let oam_all = exists|l: int| 0 <= l < VISIBLE_LINES && #[trigger] passes(pos0, m + b, l * LINE_CYCLES);
    let oam_a = exists|l: int| 0 <= l < VISIBLE_LINES && #[trigger] passes(pos0, m, l * LINE_CYCLES);
    let oam_b = exists|l: int| 0 <= l < VISIBLE_LINES && #[trigger] passes(pmpos, pmpos + b, l * LINE_CYCLES);
    if oam_all {
        let l = choose|l: int| 0 <= l < VISIBLE_LINES && #[trigger] passes(pos0, m + b, l * LINE_CYCLES);
        assert(passes(pos0, m, l * LINE_CYCLES) || passes(pmpos, pmpos + b, l * LINE_CYCLES));
    }
    if oam_a {
        let l = choose|l: int| 0 <= l < VISIBLE_LINES && #[trigger] passes(pos0, m, l * LINE_CYCLES);
        assert(passes(pos0, m + b, l * LINE_CYCLES));
    }
    if oam_b {
        let l = choose|l: int| 0 <= l < VISIBLE_LINES && #[trigger] passes(pmpos, pmpos + b, l * LINE_CYCLES);
        assert(passes(pos0, m + b, l * LINE_CYCLES));
    }
    let hb_all = exists|l: int| 0 <= l < VISIBLE_LINES && #[trigger] line_drawn(p, m + b, l);
    let hb_a = exists|l: int| 0 <= l < VISIBLE_LINES && #[trigger] line_drawn(p, m, l);
    let hb_b = exists|l: int| 0 <= l < VISIBLE_LINES && #[trigger] line_drawn(pm, pmpos + b, l);
    if hb_all {
        let l = choose|l: int| 0 <= l < VISIBLE_LINES && #[trigger] line_drawn(p, m + b, l);
        assert(line_drawn(p, m, l) || line_drawn(pm, pmpos + b, l));
    }
    if hb_a {
        let l = choose|l: int| 0 <= l < VISIBLE_LINES && #[trigger] line_drawn(p, m, l);
        assert(line_drawn(p, m + b, l));
    }
    if hb_b {
        let l = choose|l: int| 0 <= l < VISIBLE_LINES && #[trigger] line_drawn(pm, pmpos + b, l);
        assert(line_drawn(p, m + b, l));
    }
    assert(oam_all == (oam_a || oam_b));
    assert(hb_all == (hb_a || hb_b));
    assert(passes(pos0, m + b, p.lyc * LINE_CYCLES) == (passes(pos0, m, p.lyc * LINE_CYCLES) || passes(pmpos, pmpos + b, pm.lyc * LINE_CYCLES)));
}

} // verus!
