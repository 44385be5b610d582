//! Sprite drawing: the XOR-blit of an n-row sprite onto the 64x32
//! framebuffer, with toroidal wraparound and collision detection.
//!
//! The blit is specified as a fold over rows and columns
//! ([`blit_sprite`], [`blit_row`]), which the executable draw loops follow
//! step by step.  [`lemma_blit_sprite_pointwise`] characterises the fold
//! pixel by pixel, and [`lemma_draw_twice_restores`] derives from it that
//! drawing the same sprite twice restores the framebuffer (XOR is its own
//! inverse).

use vstd::prelude::*;

verus! {

/// Framebuffer index hit by the sprite bit at (`row`, `col`) when the sprite
/// is anchored at (`vx`, `vy`): columns wrap modulo 64, rows modulo 32.
pub open spec fn pix_idx(vx: u8, vy: u8, row: int, col: int) -> int {
    (vx + col) % 64 + ((vy + row) % 32) * 64
}

/// Bit `col` of a sprite row byte, most significant bit first, as 0 or 1.
pub open spec fn sbit(b: u8, col: int) -> u8 {
    (b >> ((7 - col) as u8)) & 1
}

/// One sprite row XORed into the framebuffer, bit by bit, for the first
/// `cols` columns.  The second component accumulates the collision flag:
/// it becomes true when an incoming 1 bit lands on a pixel that is 1.
pub open spec fn blit_row(
    fb: Seq<u8>,
    hit: bool,
    vx: u8,
    vy: u8,
    row: int,
    b: u8,
    cols: int,
) -> (Seq<u8>, bool)
    decreases cols,
{
    if cols <= 0 {
        (fb, hit)
    } else {
        let prev = blit_row(fb, hit, vx, vy, row, b, cols - 1);
        let idx = pix_idx(vx, vy, row, cols - 1);
        let bit = sbit(b, cols - 1);
        (
            prev.0.update(idx, prev.0[idx] ^ bit),
            prev.1 || (prev.0[idx] == 1 && bit == 1),
        )
    }
}

/// The first `rows` rows of the sprite at `mem[base..]` XORed into the
/// framebuffer, with the accumulated collision flag.
pub open spec fn blit_sprite(
    fb: Seq<u8>,
    mem: Seq<u8>,
    base: int,
    vx: u8,
    vy: u8,
    rows: int,
) -> (Seq<u8>, bool)
    decreases rows,
{
    if rows <= 0 {
        (fb, false)
    } else {
        let prev = blit_sprite(fb, mem, base, vx, vy, rows - 1);
        blit_row(prev.0, prev.1, vx, vy, rows - 1, mem[base + rows - 1], 8)
    }
}

/// Whether framebuffer index `idx` is touched by one of the first `cols`
/// bits of sprite row `row`.
pub open spec fn in_row_span(vx: u8, vy: u8, row: int, cols: int, idx: int) -> bool {
    exists|c: int| 0 <= c < cols && idx == #[trigger] pix_idx(vx, vy, row, c)
}

/// Whether framebuffer index `idx` is touched by one of the first `rows`
/// rows of the sprite.
pub open spec fn in_sprite_span(vx: u8, vy: u8, rows: int, idx: int) -> bool {
    exists|r: int| 0 <= r < rows && #[trigger] in_row_span(vx, vy, r, 8, idx)
}

/// A sprite bit is 0 or 1.
pub proof fn lemma_sbit_bounds(b: u8, col: int)
    ensures
        sbit(b, col) == 0 || sbit(b, col) == 1,
{
    let sh = (7 - col) as u8;
    assert((b >> sh) & 1 == 0 || (b >> sh) & 1 == 1) by (bit_vector);
}

/// Every target index lies inside the 64x32 framebuffer.
pub proof fn lemma_pix_idx_bounds(vx: u8, vy: u8, row: int, col: int)
    requires
        0 <= row,
        0 <= col,
    ensures
        0 <= pix_idx(vx, vy, row, col) < 2048,
{
    assert(0 <= (vx + col) % 64 < 64);
    assert(0 <= (vy + row) % 32 < 32);
}

/// Distinct (row, col) pairs of one sprite hit distinct pixels, because the
/// at most 8 columns are distinct modulo 64 and the at most 32 rows are
/// distinct modulo 32.
pub proof fn lemma_pix_idx_injective(vx: u8, vy: u8, r1: int, c1: int, r2: int, c2: int)
    requires
        0 <= r1 < 32,
        0 <= r2 < 32,
        0 <= c1 < 8,
        0 <= c2 < 8,
        pix_idx(vx, vy, r1, c1) == pix_idx(vx, vy, r2, c2),
    ensures
        r1 == r2,
        c1 == c2,
{
    let a1 = (vx + c1) % 64;
    let a2 = (vx + c2) % 64;
    let b1 = (vy + r1) % 32;
    let b2 = (vy + r2) % 32;
    assert(0 <= a1 < 64 && 0 <= a2 < 64 && 0 <= b1 < 32 && 0 <= b2 < 32);
    assert(a1 + b1 * 64 == a2 + b2 * 64);
    assert(b1 == b2) by (nonlinear_arith)
        requires
            0 <= a1 < 64 && 0 <= a2 < 64 && a1 + b1 * 64 == a2 + b2 * 64,
    ;
    assert(a1 == a2);
    lemma_mod_window_injective(vy as int, r1, r2, 32);
    lemma_mod_window_injective(vx as int, c1, c2, 64);
}

/// Pixel-by-pixel description of one blitted row: each of the first `cols`
/// bits XORs its target pixel, every other pixel is untouched, and the
/// collision flag is raised exactly when a 1 bit met a pixel that was 1.
pub proof fn lemma_blit_row_pointwise(
    fb: Seq<u8>,
    hit: bool,
    vx: u8,
    vy: u8,
    row: int,
    b: u8,
    cols: int,
)
    requires
        fb.len() == 2048,
        0 <= row < 32,
        0 <= cols <= 8,
    ensures
        ({
            let res = blit_row(fb, hit, vx, vy, row, b, cols);
            &&& res.0.len() == 2048
            &&& (forall|c: int|
                0 <= c < cols ==> res.0[#[trigger] pix_idx(vx, vy, row, c)] == fb[pix_idx(
                    vx,
                    vy,
                    row,
                    c,
                )] ^ sbit(b, c))
            &&& (forall|idx: int|
                0 <= idx < 2048 && !in_row_span(vx, vy, row, cols, idx) ==> res.0[idx] == fb[idx])
            &&& res.1 == (hit || (exists|c: int|
                0 <= c < cols && fb[#[trigger] pix_idx(vx, vy, row, c)] == 1 && sbit(b, c) == 1))
        }),
    decreases cols,
{
    if cols > 0 {
        lemma_blit_row_pointwise(fb, hit, vx, vy, row, b, cols - 1);
        let prev = blit_row(fb, hit, vx, vy, row, b, cols - 1);
        let res = blit_row(fb, hit, vx, vy, row, b, cols);
        let idx0 = pix_idx(vx, vy, row, cols - 1);
        let bit = sbit(b, cols - 1);
        lemma_pix_idx_bounds(vx, vy, row, cols - 1);
        // The newest bit's pixel was untouched by the earlier bits.
        assert(!in_row_span(vx, vy, row, cols - 1, idx0)) by {
            if in_row_span(vx, vy, row, cols - 1, idx0) {
                let c = choose|c: int|
                    0 <= c < cols - 1 && idx0 == #[trigger] pix_idx(vx, vy, row, c);
                lemma_pix_idx_injective(vx, vy, row, c, row, cols - 1);
            }
        }
        assert(prev.0[idx0] == fb[idx0]);
        assert forall|c: int| 0 <= c < cols implies res.0[#[trigger] pix_idx(vx, vy, row, c)]
            == fb[pix_idx(vx, vy, row, c)] ^ sbit(b, c) by {
            lemma_pix_idx_bounds(vx, vy, row, c);
            if c < cols - 1 {
                if pix_idx(vx, vy, row, c) == idx0 {
                    lemma_pix_idx_injective(vx, vy, row, c, row, cols - 1);
                }
                assert(pix_idx(vx, vy, row, c) != idx0);
            }
        }
        assert forall|idx: int|
            0 <= idx < 2048 && !in_row_span(vx, vy, row, cols, idx) implies res.0[idx]
            == fb[idx] by {
            assert(!in_row_span(vx, vy, row, cols - 1, idx));
            assert(idx != idx0);
        }
        assert(res.1 == (hit || (exists|c: int|
            0 <= c < cols && fb[#[trigger] pix_idx(vx, vy, row, c)] == 1 && sbit(b, c) == 1)))
            by {
            if prev.0[idx0] == 1 && bit == 1 {
                assert(fb[pix_idx(vx, vy, row, cols - 1)] == 1 && sbit(b, cols - 1) == 1);
                assert(exists|c: int|
                    0 <= c < cols && fb[#[trigger] pix_idx(vx, vy, row, c)] == 1 && sbit(b, c)
                        == 1);
            }
            if exists|c: int|
                0 <= c < cols && fb[#[trigger] pix_idx(vx, vy, row, c)] == 1 && sbit(b, c) == 1 {
                let c = choose|c: int|
                    0 <= c < cols && fb[#[trigger] pix_idx(vx, vy, row, c)] == 1 && sbit(b, c)
                        == 1;
                if c < cols - 1 {
                    assert(exists|c: int|
                        0 <= c < cols - 1 && fb[#[trigger] pix_idx(vx, vy, row, c)] == 1 && sbit(
                            b,
                            c,
                        ) == 1);
                    assert(prev.1);
                } else {
                    assert(prev.0[idx0] == 1 && bit == 1);
                }
            }
        }
    }
}

/// Pixel-by-pixel description of a whole blitted sprite: every sprite bit
/// XORs its own pixel exactly once, every other pixel is untouched, and the
/// collision flag is raised exactly when some 1 bit met a pixel that was 1
/// before the draw.
pub proof fn lemma_blit_sprite_pointwise(
    fb: Seq<u8>,
    mem: Seq<u8>,
    base: int,
    vx: u8,
    vy: u8,
    rows: int,
)
    requires
        fb.len() == 2048,
        0 <= rows <= 32,
    ensures
        ({
            let res = blit_sprite(fb, mem, base, vx, vy, rows);
            &&& res.0.len() == 2048
            &&& (forall|r: int, c: int|
                0 <= r < rows && 0 <= c < 8 ==> res.0[#[trigger] pix_idx(vx, vy, r, c)] == fb[
                    pix_idx(vx, vy, r, c)] ^ sbit(mem[base + r], c))
            &&& (forall|idx: int|
                0 <= idx < 2048 && !in_sprite_span(vx, vy, rows, idx) ==> res.0[idx] == fb[idx])
            &&& res.1 == (exists|r: int, c: int|
                0 <= r < rows && 0 <= c < 8 && fb[#[trigger] pix_idx(vx, vy, r, c)] == 1 && sbit(
                    mem[base + r],
                    c,
                ) == 1)
        }),
    decreases rows,
{
    if rows > 0 {
        lemma_blit_sprite_pointwise(fb, mem, base, vx, vy, rows - 1);
        let prev = blit_sprite(fb, mem, base, vx, vy, rows - 1);
        let res = blit_sprite(fb, mem, base, vx, vy, rows);
        let b = mem[base + rows - 1];
        lemma_blit_row_pointwise(prev.0, prev.1, vx, vy, rows - 1, b, 8);
        // The pixels of the newest row were untouched by the earlier rows.
        assert forall|c: int| 0 <= c < 8 implies prev.0[#[trigger] pix_idx(vx, vy, rows - 1, c)]
            == fb[pix_idx(vx, vy, rows - 1, c)] by {
            lemma_pix_idx_bounds(vx, vy, rows - 1, c);
            assert(!in_sprite_span(vx, vy, rows - 1, pix_idx(vx, vy, rows - 1, c))) by {
                if in_sprite_span(vx, vy, rows - 1, pix_idx(vx, vy, rows - 1, c)) {
                    let r2 = choose|r2: int|
                        0 <= r2 < rows - 1 && #[trigger] in_row_span(
                            vx,
                            vy,
                            r2,
                            8,
                            pix_idx(vx, vy, rows - 1, c),
                        );
                    let c2 = choose|c2: int|
                        0 <= c2 < 8 && pix_idx(vx, vy, rows - 1, c) == #[trigger] pix_idx(
                            vx,
                            vy,
                            r2,
                            c2,
                        );
                    lemma_pix_idx_injective(vx, vy, r2, c2, rows - 1, c);
                }
            }
        }
        // Pixel values of the earlier rows survive the newest row.
        assert forall|r: int, c: int| 0 <= r < rows && 0 <= c < 8 implies res.0[#[trigger] pix_idx(
            vx,
            vy,
            r,
            c,
        )] == fb[pix_idx(vx, vy, r, c)] ^ sbit(mem[base + r], c) by {
            lemma_pix_idx_bounds(vx, vy, r, c);
            if r < rows - 1 {
                assert(!in_row_span(vx, vy, rows - 1, 8, pix_idx(vx, vy, r, c))) by {
                    if in_row_span(vx, vy, rows - 1, 8, pix_idx(vx, vy, r, c)) {
                        let c2 = choose|c2: int|
                            0 <= c2 < 8 && pix_idx(vx, vy, r, c) == #[trigger] pix_idx(
                                vx,
                                vy,
                                rows - 1,
                                c2,
                            );
                        lemma_pix_idx_injective(vx, vy, rows - 1, c2, r, c);
                    }
                }
            }
        }
        // Pixels outside the sprite are untouched by either part.
        assert forall|idx: int|
            0 <= idx < 2048 && !in_sprite_span(vx, vy, rows, idx) implies res.0[idx]
            == fb[idx] by {
            assert(!in_sprite_span(vx, vy, rows - 1, idx));
            assert(!in_row_span(vx, vy, rows - 1, 8, idx));
        }
        // The collision flag accumulated over all rows, read on the original
        // framebuffer.
        assert(res.1 == (exists|r: int, c: int|
            0 <= r < rows && 0 <= c < 8 && fb[#[trigger] pix_idx(vx, vy, r, c)] == 1 && sbit(
                mem[base + r],
                c,
            ) == 1)) by {
            if res.1 {
                if prev.1 {
                    let (r, c) = choose|r: int, c: int|
                        0 <= r < rows - 1 && 0 <= c < 8 && fb[#[trigger] pix_idx(vx, vy, r, c)]
                            == 1 && sbit(mem[base + r], c) == 1;
                    assert(0 <= r < rows && 0 <= c < 8 && fb[pix_idx(vx, vy, r, c)] == 1 && sbit(
                        mem[base + r],
                        c,
                    ) == 1);
                } else {
                    let c = choose|c: int|
                        0 <= c < 8 && prev.0[#[trigger] pix_idx(vx, vy, rows - 1, c)] == 1 && sbit(
                            b,
                            c,
                        ) == 1;
                    assert(fb[pix_idx(vx, vy, rows - 1, c)] == 1 && sbit(mem[base + rows - 1], c)
                        == 1);
                }
            }
            if exists|r: int, c: int|
                0 <= r < rows && 0 <= c < 8 && fb[#[trigger] pix_idx(vx, vy, r, c)] == 1 && sbit(
                    mem[base + r],
                    c,
                ) == 1 {
                let (r, c) = choose|r: int, c: int|
                    0 <= r < rows && 0 <= c < 8 && fb[#[trigger] pix_idx(vx, vy, r, c)] == 1
                        && sbit(mem[base + r], c) == 1;
                if r < rows - 1 {
                    assert(prev.1);
                } else {
                    assert(prev.0[pix_idx(vx, vy, rows - 1, c)] == 1 && sbit(b, c) == 1);
                }
            }
        }
    }
}

/// Drawing the same sprite twice at the same coordinates restores the prior
/// framebuffer contents exactly, because XOR is its own inverse and each
/// sprite bit touches its pixel exactly once.  The second draw's collision
/// flag is raised exactly where a 1 bit of the sprite lands on a pixel that
/// the first draw turned on, that is, one that was 0 before.
pub proof fn lemma_draw_twice_restores(
    fb: Seq<u8>,
    mem: Seq<u8>,
    base: int,
    vx: u8,
    vy: u8,
    rows: int,
)
    requires
        fb.len() == 2048,
        0 <= rows <= 32,
    ensures
        ({
            let first = blit_sprite(fb, mem, base, vx, vy, rows);
            let second = blit_sprite(first.0, mem, base, vx, vy, rows);
            &&& second.0 == fb
            &&& second.1 == (exists|r: int, c: int|
                0 <= r < rows && 0 <= c < 8 && fb[#[trigger] pix_idx(vx, vy, r, c)] == 0 && sbit(
                    mem[base + r],
                    c,
                ) == 1)
        }),
{
    let first = blit_sprite(fb, mem, base, vx, vy, rows);
    let second = blit_sprite(first.0, mem, base, vx, vy, rows);
    lemma_blit_sprite_pointwise(fb, mem, base, vx, vy, rows);
    lemma_blit_sprite_pointwise(first.0, mem, base, vx, vy, rows);
    assert forall|r: int, c: int| 0 <= r < rows && 0 <= c < 8 implies second.0[#[trigger] pix_idx(
        vx,
        vy,
        r,
        c,
    )] == fb[pix_idx(vx, vy, r, c)] by {
        lemma_pix_idx_bounds(vx, vy, r, c);
        let a = fb[pix_idx(vx, vy, r, c)];
        let s = sbit(mem[base + r], c);
        assert((a ^ s) ^ s == a) by (bit_vector);
    }
    assert(second.0 =~= fb) by {
        assert forall|idx: int| 0 <= idx < 2048 implies second.0[idx] == fb[idx] by {
            if in_sprite_span(vx, vy, rows, idx) {
                let r = choose|r: int|
                    0 <= r < rows && #[trigger] in_row_span(vx, vy, r, 8, idx);
                let c = choose|c: int| 0 <= c < 8 && idx == #[trigger] pix_idx(vx, vy, r, c);
                assert(second.0[pix_idx(vx, vy, r, c)] == fb[pix_idx(vx, vy, r, c)]);
            }
        }
    }
    assert forall|r: int, c: int| 0 <= r < rows && 0 <= c < 8 implies (first.0[#[trigger] pix_idx(
        vx,
        vy,
        r,
        c,
    )] == 1 && sbit(mem[base + r], c) == 1) == (fb[pix_idx(vx, vy, r, c)] == 0 && sbit(
        mem[base + r],
        c,
    ) == 1) by {
        lemma_pix_idx_bounds(vx, vy, r, c);
        let a = fb[pix_idx(vx, vy, r, c)];
        let s = sbit(mem[base + r], c);
        assert(first.0[pix_idx(vx, vy, r, c)] == a ^ s);
        assert(s == 1 ==> ((a ^ s == 1) <==> a == 0)) by (bit_vector);
    }
    assert(second.1 == (exists|r: int, c: int|
        0 <= r < rows && 0 <= c < 8 && fb[#[trigger] pix_idx(vx, vy, r, c)] == 0 && sbit(
            mem[base + r],
            c,
        ) == 1)) by {
        if second.1 {
            let (r, c) = choose|r: int, c: int|
                0 <= r < rows && 0 <= c < 8 && first.0[#[trigger] pix_idx(vx, vy, r, c)] == 1
                    && sbit(mem[base + r], c) == 1;
            assert(fb[pix_idx(vx, vy, r, c)] == 0 && sbit(mem[base + r], c) == 1);
        }
        if exists|r: int, c: int|
            0 <= r < rows && 0 <= c < 8 && fb[#[trigger] pix_idx(vx, vy, r, c)] == 0 && sbit(
                mem[base + r],
                c,
            ) == 1 {
            let (r, c) = choose|r: int, c: int|
                0 <= r < rows && 0 <= c < 8 && fb[#[trigger] pix_idx(vx, vy, r, c)] == 0 && sbit(
                    mem[base + r],
                    c,
                ) == 1;
            assert(first.0[pix_idx(vx, vy, r, c)] == 1 && sbit(mem[base + r], c) == 1);
        }
    }
}

/// Within a window of fewer than `d` consecutive offsets from a common base,
/// the remainder modulo `d` determines the offset.
proof fn lemma_mod_window_injective(base: int, o1: int, o2: int, d: int)
    requires
        0 <= o1 < d,
        0 <= o2 < d,
        0 < d,
        (base + o1) % d == (base + o2) % d,
    ensures
        o1 == o2,
{
    let q1 = (base + o1) / d;
    let q2 = (base + o2) / d;
    vstd::arithmetic::div_mod::lemma_fundamental_div_mod(base + o1, d);
    vstd::arithmetic::div_mod::lemma_fundamental_div_mod(base + o2, d);
    assert(o1 - o2 == d * q1 - d * q2);
    assert(o1 == o2) by (nonlinear_arith)
        requires
            o1 - o2 == d * q1 - d * q2 && 0 <= o1 < d && 0 <= o2 < d && 0 < d,
    ;
}

} // verus!
