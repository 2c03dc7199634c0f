use vstd::prelude::*;
use vstd::arithmetic::div_mod::{lemma_fundamental_div_mod, lemma_fundamental_div_mod_converse};

verus! {

// The frame buffer is 64 columns by 32 rows, row-major: pixel `p` sits in
// row `p / 64`, column `p % 64`.

/// Bit `h` of a sprite row, counted from the left (most significant).
pub open spec fn sprite_bit(byte: u8, h: int) -> bool {
    (byte >> ((7 - h) as u8)) & 1 == 1
}

/// The sprite row and column that land on pixel `p` when the sprite's top
/// left corner is at column `vx`, row `vy`; each axis wraps on its own.
pub open spec fn sprite_row(p: int, vy: int) -> int {
    (p / 64 - vy) % 32
}

pub open spec fn sprite_col(p: int, vx: int) -> int {
    (p % 64 - vx) % 64
}

/// Whether a set bit of the sprite of `m` rows at memory `i`, placed at
/// column `vx`, row `vy`, lands on pixel `p`.
pub open spec fn covers(ram: Seq<u8>, i: int, m: int, vx: int, vy: int, p: int) -> bool {
    let n = sprite_row(p, vy);
    let h = sprite_col(p, vx);
    n < m && h < 8 && sprite_bit(ram[i + n], h)
}

/// The frame buffer with the sprite XORed in.
pub open spec fn drawn(vram: Seq<bool>, ram: Seq<u8>, i: int, m: int, vx: int, vy: int) -> Seq<bool> {
    Seq::new(vram.len(), |p: int| vram[p] != covers(ram, i, m, vx, vy, p))
}

/// Whether drawing the sprite turns some lit pixel off.
pub open spec fn collides(vram: Seq<bool>, ram: Seq<u8>, i: int, m: int, vx: int, vy: int) -> bool {
    exists|p: int| 0 <= p < vram.len() && #[trigger] vram[p] && covers(ram, i, m, vx, vy, p)
}

/// The pixel that sprite row `n`, column `h` lands on.
pub open spec fn target(vx: int, vy: int, n: int, h: int) -> int {
    ((vy + n) % 32) * 64 + (vx + h) % 64
}

proof fn lemma_wrap_axis(a: int, n: int, w: int)
    requires
        0 <= a,
        0 <= n < w,
        w == 32 || w == 64,
    ensures
        0 <= (a + n) % w < w,
        ((a + n) % w - a) % w == n,
{
    lemma_fundamental_div_mod(a + n, w);
    let q = (a + n) / w;
    assert((a + n) % w - a == (-q) * w + n) by (nonlinear_arith)
        requires
            a + n == w * q + (a + n) % w;
    lemma_fundamental_div_mod_converse((a + n) % w - a, w, -q, n);
}

proof fn lemma_unwrap_axis(r: int, a: int, w: int)
    requires
        0 <= a,
        0 <= r < w,
        w == 32 || w == 64,
    ensures
        0 <= (r - a) % w < w,
        r == (a + (r - a) % w) % w,
{
    lemma_fundamental_div_mod(r - a, w);
    let q = (r - a) / w;
    let n = (r - a) % w;
    assert(a + n == (-q) * w + r) by (nonlinear_arith)
        requires
            r - a == w * q + n;
    lemma_fundamental_div_mod_converse(a + n, w, -q, r);
}

/// Sprite row `n`, column `h` lands on a pixel of the buffer, and that
/// pixel maps back to row `n`, column `h`.
pub proof fn lemma_target(vx: int, vy: int, n: int, h: int)
    requires
        0 <= vx,
        0 <= vy,
        0 <= n < 32,
        0 <= h < 64,
    ensures
        0 <= target(vx, vy, n, h) < 2048,
        sprite_row(target(vx, vy, n, h), vy) == n,
        sprite_col(target(vx, vy, n, h), vx) == h,
{
    lemma_wrap_axis(vy, n, 32);
    lemma_wrap_axis(vx, h, 64);
    let r = (vy + n) % 32;
    let c = (vx + h) % 64;
    lemma_fundamental_div_mod_converse(r * 64 + c, 64, r, c);
}

/// Every pixel is the target of the sprite row and column that map to it.
pub proof fn lemma_target_unique(p: int, vx: int, vy: int)
    requires
        0 <= p < 2048,
        0 <= vx,
        0 <= vy,
    ensures
        0 <= sprite_row(p, vy) < 32,
        0 <= sprite_col(p, vx) < 64,
        p == target(vx, vy, sprite_row(p, vy), sprite_col(p, vx)),
{
    lemma_fundamental_div_mod(p, 64);
    lemma_unwrap_axis(p / 64, vy, 32);
    lemma_unwrap_axis(p % 64, vx, 64);
}

/// `covers`, restricted to the sprite cells that come before cell `k` in
/// drawing order (row by row, left to right).
pub open spec fn covers_upto(ram: Seq<u8>, i: int, m: int, vx: int, vy: int, p: int, k: int) -> bool {
    covers(ram, i, m, vx, vy, p) && sprite_row(p, vy) * 8 + sprite_col(p, vx) < k
}

/// XORs the sprite of `m` rows at memory `i` into the frame buffer at
/// column `vx`, row `vy`, wrapping each axis on its own. Returns whether a
/// lit pixel was turned off.
pub fn draw_sprite(vram: &mut [bool; 2048], ram: &[u8; 4096], i: usize, m: usize, vx: u8, vy: u8) -> (collided: bool)
    requires
        m < 32,
        i + m <= 4096,
    ensures
        final(vram)@ == drawn(old(vram)@, ram@, i as int, m as int, vx as int, vy as int),
        collided == collides(old(vram)@, ram@, i as int, m as int, vx as int, vy as int),
{
    let ghost before = vram@;
    let ghost gi = i as int;
    let ghost gm = m as int;
    let ghost gx = vx as int;
    let ghost gy = vy as int;
    let mut did_clear = false;
    let mut n: usize = 0;
    while n < m
        invariant
            n <= m < 32,
            i + m <= 4096,
            gi == i && gm == m && gx == vx && gy == vy,
            vram@.len() == 2048,
            before.len() == 2048,
            forall|p: int| 0 <= p < 2048 ==> #[trigger] vram@[p] == (before[p] != covers_upto(ram@, gi, gm, gx, gy, p, n * 8)),
            did_clear == exists|p: int| 0 <= p < 2048 && #[trigger] before[p] && covers_upto(ram@, gi, gm, gx, gy, p, n * 8),
        decreases m - n,
    {
        let spr_byte = ram[i + n];
        let row = (vy as usize + n) % 32;
        let mut h: usize = 0;
        while h < 8
            invariant
                n < m < 32,
                h <= 8,
                i + m <= 4096,
                gi == i && gm == m && gx == vx && gy == vy,
                spr_byte == ram@[i + n],
                row == (gy + n) % 32,
                vram@.len() == 2048,
                before.len() == 2048,
                forall|p: int| 0 <= p < 2048 ==> #[trigger] vram@[p] == (before[p] != covers_upto(ram@, gi, gm, gx, gy, p, n * 8 + h)),
                did_clear == exists|p: int| 0 <= p < 2048 && #[trigger] before[p] && covers_upto(ram@, gi, gm, gx, gy, p, n * 8 + h),
            decreases 8 - h,
        {
            let set = (spr_byte >> (7 - h) as u8) & 1 == 1;
            let col = (vx as usize + h) % 64;
            let p = row * 64 + col;
            let ghost k = n * 8 + h;
            proof {
                lemma_target(gx, gy, n as int, h as int);
                assert(p == target(gx, gy, n as int, h as int));
                assert(covers_upto(ram@, gi, gm, gx, gy, p as int, k + 1) == set);
                assert(!covers_upto(ram@, gi, gm, gx, gy, p as int, k));
                assert forall|q: int| 0 <= q < 2048 && q != p implies
                    covers_upto(ram@, gi, gm, gx, gy, q, k + 1) == covers_upto(ram@, gi, gm, gx, gy, q, k) by {
                    lemma_target_unique(q, gx, gy);
                    if covers_upto(ram@, gi, gm, gx, gy, q, k + 1) && !covers_upto(ram@, gi, gm, gx, gy, q, k) {
                        assert(sprite_row(q, gy) == n && sprite_col(q, gx) == h);
                    }
                }
            }
            let lit = vram[p];
            if lit && set {
                did_clear = true;
            }
            vram[p] = lit != set;
            proof {
                assert(before[p as int] == lit);
                if did_clear {
                    if lit && set {
                        assert(before[p as int] && covers_upto(ram@, gi, gm, gx, gy, p as int, k + 1));
                    } else {
                        let w = choose|q: int| 0 <= q < 2048 && #[trigger] before[q] && covers_upto(ram@, gi, gm, gx, gy, q, k);
                        assert(before[w] && covers_upto(ram@, gi, gm, gx, gy, w, k + 1));
                    }
                } else {
                    assert forall|q: int| 0 <= q < 2048 && #[trigger] before[q] implies
                        !covers_upto(ram@, gi, gm, gx, gy, q, k + 1) by {
                        if q != p {
                            assert(!covers_upto(ram@, gi, gm, gx, gy, q, k));
                        }
                    }
                }
            }
            h += 1;
        }
        n += 1;
    }
    proof {
        assert forall|p: int| 0 <= p < 2048 implies
            covers_upto(ram@, gi, gm, gx, gy, p, gm * 8) == #[trigger] covers(ram@, gi, gm, gx, gy, p) by {
            lemma_target_unique(p, gx, gy);
        }
        assert(vram@ =~= drawn(before, ram@, gi, gm, gx, gy));
        if did_clear {
            let w = choose|q: int| 0 <= q < 2048 && #[trigger] before[q] && covers_upto(ram@, gi, gm, gx, gy, q, gm * 8);
            assert(before[w] && covers(ram@, gi, gm, gx, gy, w));
        }
    }
    did_clear
}

} // verus!
