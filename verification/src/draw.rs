//! Software pixel painting on a BGRA buffer: blended plots, filled discs and
//! rectangles, and the 3×5 panel font.

use vstd::prelude::*;
use vstd::arithmetic::div_mod::{lemma_fundamental_div_mod_converse_div, lemma_fundamental_div_mod_converse_mod};
use crate::text::upper_char;

verus! {

/// Source-over channel blend used by [`plot`].
pub open spec fn blend(s: u8, d: u8, da: int, oa: int, out_a: int) -> u8 {
    ((s * da + d * (255 - da) / 255 * oa / 255) / out_a) as u8
}

/// Blended alpha: `a + sat(dst_a - a·dst_a/255)`.
pub open spec fn out_alpha(da: int, oa: int) -> int {
    da + (if oa >= da * oa / 255 { oa - da * oa / 255 } else { 0 })
}

/// The buffer after blending color (r, g, b, a) onto pixel (x, y) of a
/// `w`×`h` BGRA image; points off the image and a fully clear result change nothing.
pub open spec fn plot_spec(buf: Seq<u8>, w: int, h: int, x: int, y: int, r: u8, g: u8, b: u8, a: u8) -> Seq<u8> {
    if x < 0 || y < 0 || x >= w || y >= h {
        buf
    } else {
        let i = (y * w + x) * 4;
        let da = a as int;
        let oa = buf[i + 3] as int;
        let out_a = out_alpha(da, oa);
        if out_a == 0 {
            buf
        } else {
            buf.update(i, blend(b, buf[i], da, oa, out_a)).update(
                i + 1,
                blend(g, buf[i + 1], da, oa, out_a),
            ).update(i + 2, blend(r, buf[i + 2], da, oa, out_a)).update(i + 3, out_a as u8)
        }
    }
}

pub open spec fn fits(buf: Seq<u8>, w: u16, h: u16) -> bool {
    buf.len() >= (w as int) * (h as int) * 4
}

proof fn lemma_pixel_index(w: int, h: int, x: int, y: int)
    requires
        0 <= x < w,
        0 <= y < h,
    ensures
        (y * w + x) * 4 + 3 < w * h * 4,
        0 <= y * w + x,
{
    assert(y * w + x < w * h) by (nonlinear_arith)
        requires
            0 <= x < w,
            0 <= y < h,
    ;
    assert(0 <= y * w) by (nonlinear_arith)
        requires
            0 <= y,
            0 <= w,
    ;
}

/// Blend one pixel (BGRA byte order).
pub fn plot(buf: &mut [u8], w: u16, h: u16, x: i32, y: i32, r: u8, g: u8, b: u8, a: u8)
    requires
        fits(old(buf)@, w, h),
    ensures
        final(buf)@ == plot_spec(old(buf)@, w as int, h as int, x as int, y as int, r, g, b, a),
{
    if x < 0 || y < 0 || x >= w as i32 || y >= h as i32 {
        return;
    }
    proof {
        lemma_pixel_index(w as int, h as int, x as int, y as int);
    }
    let n = buf.len();
    assert(n as int == buf@.len());
    assert((y as int) * (w as int) + (x as int) < n) by (nonlinear_arith)
        requires
            0 <= x < w,
            0 <= y < h,
            n >= (w as int) * (h as int) * 4,
    ;
    let i: usize = ((y as usize) * (w as usize) + (x as usize)) * 4;
    let da: u32 = a as u32;
    let oa: u32 = buf[i + 3] as u32;
    assert(da * oa <= 255 * 255) by (nonlinear_arith)
        requires
            da <= 255,
            oa <= 255,
    ;
    let m: u32 = da * oa / 255;
    let out_a: u32 = da + oa.saturating_sub(m);
    if out_a == 0 {
        return;
    }
    assert(da * oa <= 255 * 255) by (nonlinear_arith)
        requires
            da <= 255,
            oa <= 255,
    ;
    let b0 = buf[i];
    let g0 = buf[i + 1];
    let r0 = buf[i + 2];
    let nb = blend_channel(b, b0, da, oa, out_a);
    let ng = blend_channel(g, g0, da, oa, out_a);
    let nr = blend_channel(r, r0, da, oa, out_a);
    buf[i] = nb;
    buf[i + 1] = ng;
    buf[i + 2] = nr;
    buf[i + 3] = #[verifier::truncate] (out_a as u8);
}

fn blend_channel(s: u8, d: u8, da: u32, oa: u32, out_a: u32) -> (v: u8)
    requires
        da <= 255,
        oa <= 255,
        out_a >= 1,
    ensures
        v == blend(s, d, da as int, oa as int, out_a as int),
{
    assert((s as u32) * da <= 255 * 255) by (nonlinear_arith)
        requires
            s <= 255,
            da <= 255,
    ;
    assert((d as u32) * (255 - da) <= 255 * 255) by (nonlinear_arith)
        requires
            d <= 255,
            da <= 255,
    ;
    let t: u32 = (d as u32) * (255 - da) / 255;
    assert(t * oa <= 255 * 255) by (nonlinear_arith)
        requires
            t <= 255,
            oa <= 255,
    ;
    let v: u32 = ((s as u32) * da + t * oa / 255) / out_a;
    #[verifier::truncate] (v as u8)
}

/// `plot` applied to the first `k` cells of a `cols`-wide grid of points
/// starting at (x0, y0), row by row; `disc` keeps only cells with
/// `dx² + dy² <= rad²` measured from the grid centre (x0 + rad, y0 + rad).
pub open spec fn grid_fold(
    buf: Seq<u8>,
    w: int,
    h: int,
    x0: int,
    y0: int,
    cols: int,
    k: nat,
    disc: bool,
    rad: int,
    r: u8,
    g: u8,
    b: u8,
    a: u8,
) -> Seq<u8>
    decreases k,
{
    if k == 0 {
        buf
    } else {
        let prev = grid_fold(buf, w, h, x0, y0, cols, (k - 1) as nat, disc, rad, r, g, b, a);
        let cx = (k - 1) % cols;
        let cy = (k - 1) / cols;
        let dx = cx - rad;
        let dy = cy - rad;
        if !disc || dx * dx + dy * dy <= rad * rad {
            plot_spec(prev, w, h, x0 + cx, y0 + cy, r, g, b, a)
        } else {
            prev
        }
    }
}

proof fn lemma_plot_len(buf: Seq<u8>, w: int, h: int, x: int, y: int, r: u8, g: u8, b: u8, a: u8)
    requires
        buf.len() >= w * h * 4,
        w >= 0,
        h >= 0,
    ensures
        plot_spec(buf, w, h, x, y, r, g, b, a).len() == buf.len(),
{
    if !(x < 0 || y < 0 || x >= w || y >= h) {
        lemma_pixel_index(w, h, x, y);
    }
}

proof fn lemma_grid_len(
    buf: Seq<u8>,
    w: int,
    h: int,
    x0: int,
    y0: int,
    cols: int,
    k: nat,
    disc: bool,
    rad: int,
    r: u8,
    g: u8,
    b: u8,
    a: u8,
)
    requires
        buf.len() >= w * h * 4,
        w >= 0,
        h >= 0,
    ensures
        grid_fold(buf, w, h, x0, y0, cols, k, disc, rad, r, g, b, a).len() == buf.len(),
    decreases k,
{
    if k > 0 {
        let kk = (k - 1) as nat;
        lemma_grid_len(buf, w, h, x0, y0, cols, kk, disc, rad, r, g, b, a);
        let prev = grid_fold(buf, w, h, x0, y0, cols, kk, disc, rad, r, g, b, a);
        lemma_plot_len(prev, w, h, x0 + (kk as int) % cols, y0 + (kk as int) / cols, r, g, b, a);
    }
}

pub(crate) proof fn lemma_cell(k: int, cols: int, row: int, col: int)
    requires
        cols > 0,
        0 <= col < cols,
        k == row * cols + col,
    ensures
        k % cols == col,
        k / cols == row,
{
    assert(k == row * cols + col);
    lemma_fundamental_div_mod_converse_mod(k, cols, row, col);
    lemma_fundamental_div_mod_converse_div(k, cols, row, col);
}

/// Fill the `rw`×`rh` rectangle at (x, y), row by row.
pub fn fill_rect(buf: &mut [u8], w: u16, h: u16, x: i32, y: i32, rw: i32, rh: i32, r: u8, g: u8, b: u8, a: u8)
    requires
        fits(old(buf)@, w, h),
        x + rw <= i32::MAX,
        y + rh <= i32::MAX,
    ensures
        rw <= 0 || rh <= 0 ==> final(buf)@ == old(buf)@,
        rw > 0 && rh > 0 ==> final(buf)@ == grid_fold(
            old(buf)@,
            w as int,
            h as int,
            x as int,
            y as int,
            rw as int,
            (rw * rh) as nat,
            false,
            0,
            r,
            g,
            b,
            a,
        ),
{
    if rw <= 0 || rh <= 0 {
        return;
    }
    let ghost start = buf@;
    let mut yy: i32 = y;
    assert((yy - y) * rw == 0);
    while yy < y + rh
        invariant
            y <= yy <= y + rh,
            rw > 0,
            rh > 0,
            x + rw <= i32::MAX,
            y + rh <= i32::MAX,
            fits(start, w, h),
            buf@ == grid_fold(start, w as int, h as int, x as int, y as int, rw as int, ((yy - y) * rw) as nat, false, 0, r, g, b, a),
        decreases y + rh - yy,
    {
        let mut xx: i32 = x;
        while xx < x + rw
            invariant
                y <= yy < y + rh,
                x <= xx <= x + rw,
                rw > 0,
                x + rw <= i32::MAX,
                y + rh <= i32::MAX,
                fits(start, w, h),
                buf@ == grid_fold(start, w as int, h as int, x as int, y as int, rw as int, ((yy - y) * rw + (xx - x)) as nat, false, 0, r, g, b, a),
            decreases x + rw - xx,
        {
            proof {
                let k = (yy - y) * rw + (xx - x);
                assert(k >= 0) by (nonlinear_arith)
                    requires
                        yy >= y,
                        rw > 0,
                        xx >= x,
                        k == (yy - y) * rw + (xx - x),
                ;
                lemma_cell(k, rw as int, (yy - y) as int, (xx - x) as int);
                lemma_grid_len(start, w as int, h as int, x as int, y as int, rw as int, k as nat, false, 0, r, g, b, a);
            }
            plot(buf, w, h, xx, yy, r, g, b, a);
            xx = xx + 1;
        }
        proof {
            assert((yy - y) * rw + rw == (yy + 1 - y) * rw) by (nonlinear_arith);
        }
        yy = yy + 1;
    }
    assert((yy - y) * rw == rw * rh) by (nonlinear_arith)
        requires
            yy == y + rh,
    ;
}


/// The buffer after [`stamp`]: a single plot for `rad <= 0`, else the filled
/// disc of radius `rad` around (x, y), row by row from the top-left.
pub open spec fn stamp_spec(buf: Seq<u8>, w: int, h: int, x: int, y: int, rad: int, r: u8, g: u8, b: u8, a: u8) -> Seq<u8> {
    if rad <= 0 {
        plot_spec(buf, w, h, x, y, r, g, b, a)
    } else {
        grid_fold(buf, w, h, x - rad, y - rad, 2 * rad + 1, ((2 * rad + 1) * (2 * rad + 1)) as nat, true, rad, r, g, b, a)
    }
}

/// Filled disc (all integer offsets with dx² + dy² <= rad²).
pub fn stamp(buf: &mut [u8], w: u16, h: u16, x: i32, y: i32, rad: i32, r: u8, g: u8, b: u8, a: u8)
    requires
        fits(old(buf)@, w, h),
        2 * rad * rad <= i32::MAX,
        i32::MIN <= x - rad,
        x + rad <= i32::MAX,
        i32::MIN <= y - rad,
        y + rad <= i32::MAX,
    ensures
        final(buf)@ == stamp_spec(old(buf)@, w as int, h as int, x as int, y as int, rad as int, r, g, b, a),
{
    if rad <= 0 {
        plot(buf, w, h, x, y, r, g, b, a);
        return;
    }
    assert(rad <= 46341) by (nonlinear_arith)
        requires
            2 * rad * rad <= i32::MAX,
            rad > 0,
    ;
    assert(rad * rad <= i32::MAX) by (nonlinear_arith)
        requires
            2 * rad * rad <= i32::MAX,
            rad > 0,
    ;
    let r2 = rad * rad;
    let ghost start = buf@;
    let ghost cols: int = 2 * rad + 1;
    let mut dy: i32 = -rad;
    assert((dy + rad) * cols == 0) by (nonlinear_arith)
        requires
            dy + rad == 0,
    ;
    while dy <= rad
        invariant
            -rad <= dy <= rad + 1,
            0 < rad <= 46341,
            r2 == rad * rad,
            2 * rad * rad <= i32::MAX,
            cols == 2 * rad + 1,
            i32::MIN <= x - rad,
            x + rad <= i32::MAX,
            i32::MIN <= y - rad,
            y + rad <= i32::MAX,
            fits(start, w, h),
            buf@ == grid_fold(start, w as int, h as int, x - rad, y - rad, cols, ((dy + rad) * cols) as nat, true, rad as int, r, g, b, a),
        decreases rad + 1 - dy,
    {
        let mut dx: i32 = -rad;
        while dx <= rad
            invariant
                -rad <= dy <= rad,
                -rad <= dx <= rad + 1,
                0 < rad <= 46341,
                r2 == rad * rad,
                2 * rad * rad <= i32::MAX,
                cols == 2 * rad + 1,
                i32::MIN <= x - rad,
                x + rad <= i32::MAX,
                i32::MIN <= y - rad,
                y + rad <= i32::MAX,
                fits(start, w, h),
                buf@ == grid_fold(start, w as int, h as int, x - rad, y - rad, cols, ((dy + rad) * cols + (dx + rad)) as nat, true, rad as int, r, g, b, a),
            decreases rad + 1 - dx,
        {
            assert(0 <= dx * dx <= rad * rad && 0 <= dy * dy <= rad * rad && dx * dx + dy * dy <= 2 * rad * rad) by (nonlinear_arith)
                requires
                    -rad <= dx <= rad,
                    -rad <= dy <= rad,
            ;
            proof {
                let k = (dy + rad) * cols + (dx + rad);
                assert(k >= 0) by (nonlinear_arith)
                    requires
                        dy + rad >= 0,
                        cols > 0,
                        dx + rad >= 0,
                        k == (dy + rad) * cols + (dx + rad),
                ;
                lemma_cell(k, cols, (dy + rad) as int, (dx + rad) as int);
                lemma_grid_len(start, w as int, h as int, x - rad, y - rad, cols, k as nat, true, rad as int, r, g, b, a);
            }
            if dx * dx + dy * dy <= r2 {
                plot(buf, w, h, x + dx, y + dy, r, g, b, a);
            }
            dx = dx + 1;
        }
        proof {
            assert((dy + rad) * cols + cols == (dy + 1 + rad) * cols) by (nonlinear_arith);
        }
        dy = dy + 1;
    }
}


/// Rows of the 3×5 panel glyph for `c` (bit 2 = left column); unknown characters draw a box.
pub open spec fn glyph_rows(c: char) -> Seq<u8> {
    match c {
        'A' => seq![0b010, 0b101, 0b111, 0b101, 0b101],
        'B' => seq![0b110, 0b101, 0b110, 0b101, 0b110],
        'C' => seq![0b111, 0b100, 0b100, 0b100, 0b111],
        'D' => seq![0b110, 0b101, 0b101, 0b101, 0b110],
        'E' => seq![0b111, 0b100, 0b111, 0b100, 0b111],
        'F' => seq![0b111, 0b100, 0b111, 0b100, 0b100],
        'G' => seq![0b111, 0b100, 0b101, 0b101, 0b111],
        'H' => seq![0b101, 0b101, 0b111, 0b101, 0b101],
        'I' => seq![0b111, 0b010, 0b010, 0b010, 0b111],
        'J' => seq![0b001, 0b001, 0b001, 0b101, 0b111],
        'K' => seq![0b101, 0b101, 0b110, 0b101, 0b101],
        'L' => seq![0b100, 0b100, 0b100, 0b100, 0b111],
        'M' => seq![0b101, 0b111, 0b111, 0b101, 0b101],
        'N' => seq![0b101, 0b111, 0b111, 0b101, 0b101],
        'O' => seq![0b111, 0b101, 0b101, 0b101, 0b111],
        'P' => seq![0b111, 0b101, 0b111, 0b100, 0b100],
        'Q' => seq![0b111, 0b101, 0b101, 0b111, 0b001],
        'R' => seq![0b110, 0b101, 0b110, 0b101, 0b101],
        'S' => seq![0b111, 0b100, 0b111, 0b001, 0b111],
        'T' => seq![0b111, 0b010, 0b010, 0b010, 0b010],
        'U' => seq![0b101, 0b101, 0b101, 0b101, 0b111],
        'V' => seq![0b101, 0b101, 0b101, 0b101, 0b010],
        'W' => seq![0b101, 0b101, 0b111, 0b111, 0b101],
        'X' => seq![0b101, 0b101, 0b010, 0b101, 0b101],
        'Y' => seq![0b101, 0b101, 0b010, 0b010, 0b010],
        'Z' => seq![0b111, 0b001, 0b010, 0b100, 0b111],
        '0' => seq![0b111, 0b101, 0b101, 0b101, 0b111],
        '1' => seq![0b010, 0b110, 0b010, 0b010, 0b111],
        '2' => seq![0b111, 0b001, 0b111, 0b100, 0b111],
        '3' => seq![0b111, 0b001, 0b111, 0b001, 0b111],
        '4' => seq![0b101, 0b101, 0b111, 0b001, 0b001],
        '5' => seq![0b111, 0b100, 0b111, 0b001, 0b111],
        '6' => seq![0b111, 0b100, 0b111, 0b101, 0b111],
        '7' => seq![0b111, 0b001, 0b001, 0b001, 0b001],
        '8' => seq![0b111, 0b101, 0b111, 0b101, 0b111],
        '9' => seq![0b111, 0b101, 0b111, 0b001, 0b111],
        '.' => seq![0b000, 0b000, 0b000, 0b000, 0b010],
        '/' => seq![0b001, 0b001, 0b010, 0b100, 0b100],
        '-' => seq![0b000, 0b000, 0b111, 0b000, 0b000],
        '+' => seq![0b000, 0b010, 0b111, 0b010, 0b000],
        '?' => seq![0b111, 0b001, 0b011, 0b000, 0b010],
        ' ' => seq![0b000, 0b000, 0b000, 0b000, 0b000],
        _ => seq![0b111, 0b101, 0b101, 0b101, 0b111],
    }
}

/// 3×5 caps + digits for the settings panel.
pub fn glyph(c: char) -> (g: [u8; 5])
    ensures
        g@ == glyph_rows(c),
{
    match c {
        'A' => [0b010, 0b101, 0b111, 0b101, 0b101],
        'B' => [0b110, 0b101, 0b110, 0b101, 0b110],
        'C' => [0b111, 0b100, 0b100, 0b100, 0b111],
        'D' => [0b110, 0b101, 0b101, 0b101, 0b110],
        'E' => [0b111, 0b100, 0b111, 0b100, 0b111],
        'F' => [0b111, 0b100, 0b111, 0b100, 0b100],
        'G' => [0b111, 0b100, 0b101, 0b101, 0b111],
        'H' => [0b101, 0b101, 0b111, 0b101, 0b101],
        'I' => [0b111, 0b010, 0b010, 0b010, 0b111],
        'J' => [0b001, 0b001, 0b001, 0b101, 0b111],
        'K' => [0b101, 0b101, 0b110, 0b101, 0b101],
        'L' => [0b100, 0b100, 0b100, 0b100, 0b111],
        'M' => [0b101, 0b111, 0b111, 0b101, 0b101],
        'N' => [0b101, 0b111, 0b111, 0b101, 0b101],
        'O' => [0b111, 0b101, 0b101, 0b101, 0b111],
        'P' => [0b111, 0b101, 0b111, 0b100, 0b100],
        'Q' => [0b111, 0b101, 0b101, 0b111, 0b001],
        'R' => [0b110, 0b101, 0b110, 0b101, 0b101],
        'S' => [0b111, 0b100, 0b111, 0b001, 0b111],
        'T' => [0b111, 0b010, 0b010, 0b010, 0b010],
        'U' => [0b101, 0b101, 0b101, 0b101, 0b111],
        'V' => [0b101, 0b101, 0b101, 0b101, 0b010],
        'W' => [0b101, 0b101, 0b111, 0b111, 0b101],
        'X' => [0b101, 0b101, 0b010, 0b101, 0b101],
        'Y' => [0b101, 0b101, 0b010, 0b010, 0b010],
        'Z' => [0b111, 0b001, 0b010, 0b100, 0b111],
        '0' => [0b111, 0b101, 0b101, 0b101, 0b111],
        '1' => [0b010, 0b110, 0b010, 0b010, 0b111],
        '2' => [0b111, 0b001, 0b111, 0b100, 0b111],
        '3' => [0b111, 0b001, 0b111, 0b001, 0b111],
        '4' => [0b101, 0b101, 0b111, 0b001, 0b001],
        '5' => [0b111, 0b100, 0b111, 0b001, 0b111],
        '6' => [0b111, 0b100, 0b111, 0b101, 0b111],
        '7' => [0b111, 0b001, 0b001, 0b001, 0b001],
        '8' => [0b111, 0b101, 0b111, 0b101, 0b111],
        '9' => [0b111, 0b101, 0b111, 0b001, 0b111],
        '.' => [0b000, 0b000, 0b000, 0b000, 0b010],
        '/' => [0b001, 0b001, 0b010, 0b100, 0b100],
        '-' => [0b000, 0b000, 0b111, 0b000, 0b000],
        '+' => [0b000, 0b010, 0b111, 0b010, 0b000],
        '?' => [0b111, 0b001, 0b011, 0b000, 0b010],
        ' ' => [0b000, 0b000, 0b000, 0b000, 0b000],
        _ => [0b111, 0b101, 0b101, 0b101, 0b111],
    }
}

/// Whether column `col` (0 = left) of a glyph row is lit.
pub open spec fn lit(bits: u8, col: int) -> bool {
    (bits as int / (if col == 0 { 4int } else if col == 1 { 2int } else { 1int })) % 2 == 1
}

/// `fill_rect` as a buffer transformation.
pub open spec fn rect_spec(buf: Seq<u8>, w: int, h: int, x: int, y: int, rw: int, rh: int, r: u8, g: u8, b: u8, a: u8) -> Seq<u8> {
    if rw <= 0 || rh <= 0 {
        buf
    } else {
        grid_fold(buf, w, h, x, y, rw, (rw * rh) as nat, false, 0, r, g, b, a)
    }
}

/// The first `k` of a glyph's 15 cells (row by row), each lit cell a `scale`² square.
pub open spec fn glyph_fold(buf: Seq<u8>, w: int, h: int, gx: int, gy: int, rows: Seq<u8>, scale: int, k: nat, r: u8, g: u8, b: u8, a: u8) -> Seq<u8>
    decreases k,
{
    if k == 0 {
        buf
    } else {
        let prev = glyph_fold(buf, w, h, gx, gy, rows, scale, (k - 1) as nat, r, g, b, a);
        let row = (k - 1) / 3;
        let col = (k - 1) % 3;
        if lit(rows[row], col) {
            rect_spec(prev, w, h, gx + col * scale, gy + row * scale, scale, scale, r, g, b, a)
        } else {
            prev
        }
    }
}

/// The first `n` characters of a text line, each glyph `4·scale` right of the previous.
pub open spec fn text_fold(buf: Seq<u8>, w: int, h: int, x: int, y: int, cs: Seq<char>, scale: int, n: nat, r: u8, g: u8, b: u8, a: u8) -> Seq<u8>
    decreases n,
{
    if n == 0 {
        buf
    } else {
        glyph_fold(
            text_fold(buf, w, h, x, y, cs, scale, (n - 1) as nat, r, g, b, a),
            w,
            h,
            x + 4 * scale * (n - 1),
            y,
            glyph_rows(upper_char(cs[n - 1])),
            scale,
            15,
            r,
            g,
            b,
            a,
        )
    }
}

pub open spec fn in_i32(v: int) -> bool {
    i32::MIN <= v <= i32::MAX
}

/// Every coordinate `text` computes stays in `i32` (the extremes of each
/// linear expression are checked).
pub open spec fn text_fits(x: int, y: int, scale: int, n: int) -> bool {
    &&& in_i32(4 * scale)
    &&& in_i32(x + 4 * scale * n)
    &&& n > 0 ==> in_i32(x + 4 * scale * (n - 1) + 2 * scale)
    &&& n > 0 ==> x + scale <= i32::MAX && x + 4 * scale * (n - 1) + 3 * scale <= i32::MAX
    &&& in_i32(y + 4 * scale)
    &&& y + scale <= i32::MAX
    &&& y + 5 * scale <= i32::MAX
}

proof fn lemma_text_coords(x: int, y: int, s: int, n: int, i: int, col: int, row: int)
    requires
        in_i32(x),
        in_i32(y),
        text_fits(x, y, s, n),
        0 <= i < n,
        0 <= col < 3,
        0 <= row < 5,
    ensures
        in_i32(x + 4 * s * i),
        in_i32(x + 4 * s * (i + 1)),
        x + 4 * s * i + 4 * s == x + 4 * s * (i + 1),
        in_i32(col * s),
        in_i32(row * s),
        in_i32(x + 4 * s * i + col * s),
        x + 4 * s * i + col * s + s <= i32::MAX,
        in_i32(y + row * s),
        y + row * s + s <= i32::MAX,
{
    assert(4 * s * i + 4 * s == 4 * s * (i + 1)) by (nonlinear_arith);
    if s >= 0 {
        assert(0 <= 4 * s * i <= 4 * s * (n - 1)) by (nonlinear_arith)
            requires s >= 0, 0 <= i < n;
        assert(0 <= 4 * s * (i + 1) <= 4 * s * n) by (nonlinear_arith)
            requires s >= 0, 0 <= i < n;
        assert(0 <= col * s <= 2 * s) by (nonlinear_arith)
            requires s >= 0, 0 <= col < 3;
        assert(0 <= row * s <= 4 * s) by (nonlinear_arith)
            requires s >= 0, 0 <= row < 5;
    } else {
        assert(4 * s * (n - 1) <= 4 * s * i <= 0) by (nonlinear_arith)
            requires s < 0, 0 <= i < n;
        assert(4 * s * n <= 4 * s * (i + 1) <= 0) by (nonlinear_arith)
            requires s < 0, 0 <= i < n;
        assert(2 * s <= col * s <= 0) by (nonlinear_arith)
            requires s < 0, 0 <= col < 3;
        assert(4 * s <= row * s <= 0) by (nonlinear_arith)
            requires s < 0, 0 <= row < 5;
    }
}

proof fn lemma_text_fold_len(buf: Seq<u8>, w: int, h: int, x: int, y: int, cs: Seq<char>, s: int, n: nat, r: u8, g: u8, b: u8, a: u8)
    requires
        buf.len() >= w * h * 4,
        w >= 0,
        h >= 0,
    ensures
        text_fold(buf, w, h, x, y, cs, s, n, r, g, b, a).len() == buf.len(),
    decreases n,
{
    if n > 0 {
        lemma_text_fold_len(buf, w, h, x, y, cs, s, (n - 1) as nat, r, g, b, a);
        let prev = text_fold(buf, w, h, x, y, cs, s, (n - 1) as nat, r, g, b, a);
        lemma_glyph_fold_len(prev, w, h, x + 4 * s * (n - 1), y, glyph_rows(upper_char(cs[n - 1])), s, 15, r, g, b, a);
    }
}

proof fn lemma_glyph_fold_len(buf: Seq<u8>, w: int, h: int, gx: int, gy: int, rows: Seq<u8>, s: int, k: nat, r: u8, g: u8, b: u8, a: u8)
    requires
        buf.len() >= w * h * 4,
        w >= 0,
        h >= 0,
    ensures
        glyph_fold(buf, w, h, gx, gy, rows, s, k, r, g, b, a).len() == buf.len(),
    decreases k,
{
    if k > 0 {
        let kk = (k - 1) as nat;
        lemma_glyph_fold_len(buf, w, h, gx, gy, rows, s, kk, r, g, b, a);
        let prev = glyph_fold(buf, w, h, gx, gy, rows, s, kk, r, g, b, a);
        let row = (kk as int) / 3;
        let col = (kk as int) % 3;
        if s > 0 {
            lemma_grid_len(prev, w, h, gx + col * s, gy + row * s, s, (s * s) as nat, false, 0, r, g, b, a);
        }
    }
}

fn lit_bit(bits: u8, col: i32) -> (b: bool)
    requires
        0 <= col < 3,
    ensures
        b == lit(bits, col as int),
{
    if col == 0 {
        assert((bits & 4u8 != 0) == ((bits / 4) % 2 == 1)) by (bit_vector);
        bits & 4u8 != 0
    } else if col == 1 {
        assert((bits & 2u8 != 0) == ((bits / 2) % 2 == 1)) by (bit_vector);
        bits & 2u8 != 0
    } else {
        assert((bits & 1u8 != 0) == (bits % 2 == 1)) by (bit_vector);
        bits & 1u8 != 0
    }
}

/// Paint `s` in the 3×5 font, `scale` pixels per font cell, 4 cells per character.
pub fn text(buf: &mut [u8], w: u16, h: u16, x: i32, y: i32, s: &str, scale: i32, r: u8, g: u8, b: u8, a: u8)
    requires
        fits(old(buf)@, w, h),
        text_fits(x as int, y as int, scale as int, s@.len() as int),
    ensures
        final(buf)@ == text_fold(old(buf)@, w as int, h as int, x as int, y as int, s@, scale as int, s@.len(), r, g, b, a),
{
    let cs = crate::text::chars_of(s);
    let n = cs.len();
    let ghost start = buf@;
    let mut cx: i32 = x;
    let mut i: usize = 0;
    while i < n
        invariant
            n == cs@.len(),
            cs@ == s@,
            i <= n,
            fits(start, w, h),
            text_fits(x as int, y as int, scale as int, n as int),
            cx == x + 4 * scale * i,
            buf@ == text_fold(start, w as int, h as int, x as int, y as int, cs@, scale as int, i as nat, r, g, b, a),
        decreases n - i,
    {
        let rows = glyph(crate::text::upper_ascii(cs[i]));
        let ghost mid = buf@;
        proof {
            lemma_text_fold_len(start, w as int, h as int, x as int, y as int, cs@, scale as int, i as nat, r, g, b, a);
        }
        let mut row: i32 = 0;
        while row < 5
            invariant
                0 <= row <= 5,
                i < n,
                fits(mid, w, h),
                text_fits(x as int, y as int, scale as int, n as int),
                cx == x + 4 * scale * i,
                rows@ == glyph_rows(upper_char(cs@[i as int])),
                buf@ == glyph_fold(mid, w as int, h as int, cx as int, y as int, rows@, scale as int, (row * 3) as nat, r, g, b, a),
            decreases 5 - row,
        {
            let mut col: i32 = 0;
            while col < 3
                invariant
                    0 <= row < 5,
                    0 <= col <= 3,
                    i < n,
                    fits(mid, w, h),
                    text_fits(x as int, y as int, scale as int, n as int),
                    cx == x + 4 * scale * i,
                    rows@ == glyph_rows(upper_char(cs@[i as int])),
                    buf@ == glyph_fold(mid, w as int, h as int, cx as int, y as int, rows@, scale as int, (row * 3 + col) as nat, r, g, b, a),
                decreases 3 - col,
            {
                proof {
                    lemma_text_coords(x as int, y as int, scale as int, n as int, i as int, col as int, row as int);
                    lemma_cell(row * 3 + col, 3, row as int, col as int);
                    lemma_glyph_fold_len(mid, w as int, h as int, cx as int, y as int, rows@, scale as int, (row * 3 + col) as nat, r, g, b, a);
                }
                let bits = rows[row as usize];
                if lit_bit(bits, col) {
                    fill_rect(buf, w, h, cx + col * scale, y + row * scale, scale, scale, r, g, b, a);
                }
                col = col + 1;
            }
            row = row + 1;
        }
        proof {
            lemma_text_coords(x as int, y as int, scale as int, n as int, i as int, 0, 0);
        }
        cx = cx + 4 * scale;
        i = i + 1;
        proof {
            assert(4 * scale * (i - 1) + 4 * scale == 4 * scale * i) by (nonlinear_arith);
        }
    }
}

} // verus!
