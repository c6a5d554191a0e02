//! DXT1/DXT3/DXT5 block-texture decompression.
//!
//! Each compressed format stores row-major 4x4 texel blocks.  A block holds a
//! two-endpoint RGB565 color palette expanded to four entries plus a 2-bit
//! index per texel; DXT3 adds an explicit 4-bit alpha per texel and DXT5 an
//! interpolated 8-value alpha ramp with 3-bit indices.  The decoders below
//! write RGBA output (one byte per channel) and touch only the valid
//! sub-rectangle of edge blocks when the image dimensions are not multiples
//! of four.
//!
//! The spec functions in this module state the decoded value of every texel
//! exactly; the `ensures` of the three decoders pin each output byte to them.

use vstd::prelude::*;

use crate::binary::{le_u16, le_u32, le_u64};

verus! {

/// Number of 4x4 block columns covering `width` texels.
pub open spec fn blocks_x(width: int) -> int {
    (width + 3) / 4
}

/// Number of 4x4 block rows covering `height` texels.
pub open spec fn blocks_y(height: int) -> int {
    (height + 3) / 4
}

/// The red channel of a packed RGBA texel.
pub open spec fn chan_r(p: u32) -> u8 {
    ((p >> 16) & 0xFF) as u8
}

/// The green channel of a packed RGBA texel.
pub open spec fn chan_g(p: u32) -> u8 {
    ((p >> 8) & 0xFF) as u8
}

/// The blue channel of a packed RGBA texel.
pub open spec fn chan_b(p: u32) -> u8 {
    (p & 0xFF) as u8
}

/// The alpha channel of a packed RGBA texel.
pub open spec fn chan_a(p: u32) -> u8 {
    ((p >> 24) & 0xFF) as u8
}

/// The four output bytes of texel `(tx, ty)` hold the channels of `p`.
pub open spec fn texel_ok(out: Seq<u8>, width: int, tx: int, ty: int, p: u32) -> bool {
    let base = 4 * (ty * width + tx);
    &&& out[base] == chan_r(p)
    &&& out[base + 1] == chan_g(p)
    &&& out[base + 2] == chan_b(p)
    &&& out[base + 3] == chan_a(p)
}

/// The red component of an RGB565 value, widened to 8 bits.
pub open spec fn spec_565_r(c: u32) -> u32 {
    ((c & 0xF800) >> 8) | (((c & 0xF800) >> 8) >> 5)
}

/// The green component of an RGB565 value, widened to 8 bits.
pub open spec fn spec_565_g(c: u32) -> u32 {
    ((c & 0x07E0) >> 3) | (((c & 0x07E0) >> 3) >> 6)
}

/// The blue component of an RGB565 value, widened to 8 bits.
pub open spec fn spec_565_b(c: u32) -> u32 {
    ((c & 0x001F) << 3) | (((c & 0x001F) << 3) >> 5)
}

/// One channel of the first interpolated palette entry: a 2:1 blend when the
/// first endpoint dominates, otherwise the midpoint.
pub open spec fn spec_c2(c0: u32, c1: u32, color0: u32, color1: u32) -> u32 {
    if color0 > color1 {
        ((2 * c0 + c1) / 3) as u32
    } else {
        ((c0 + c1) / 2) as u32
    }
}

/// One channel of the second interpolated palette entry: a 1:2 blend.
pub open spec fn spec_c3(c0: u32, c1: u32) -> u32 {
    ((c0 + 2 * c1) / 3) as u32
}

/// Packs four channels into one texel word.
pub open spec fn spec_pack_rgba(r: u32, g: u32, b: u32, a: u32) -> u32 {
    (r << 16) | (g << 8) | b | (a << 24)
}

/// Palette entry `j` (0..4) of the color block at `off`, with constant
/// alpha `alpha`.
pub open spec fn palette_color(s: Seq<u8>, off: int, j: int, alpha: u32) -> u32 {
    let c0 = le_u16(s, off) as u32;
    let c1 = le_u16(s, off + 2) as u32;
    if j == 0 {
        spec_pack_rgba(spec_565_r(c0), spec_565_g(c0), spec_565_b(c0), alpha)
    } else if j == 1 {
        spec_pack_rgba(spec_565_r(c1), spec_565_g(c1), spec_565_b(c1), alpha)
    } else if j == 2 {
        spec_pack_rgba(
            spec_c2(spec_565_r(c0), spec_565_r(c1), c0, c1),
            spec_c2(spec_565_g(c0), spec_565_g(c1), c0, c1),
            spec_c2(spec_565_b(c0), spec_565_b(c1), c0, c1),
            alpha,
        )
    } else {
        spec_pack_rgba(
            spec_c3(spec_565_r(c0), spec_565_r(c1)),
            spec_c3(spec_565_g(c0), spec_565_g(c1)),
            spec_c3(spec_565_b(c0), spec_565_b(c1)),
            alpha,
        )
    }
}

/// Texel `i` (0..16, row-major) of the DXT1 block at `off`: a palette color
/// selected by a 2-bit index, alpha opaque.
pub open spec fn dxt1_texel(s: Seq<u8>, off: int, i: int) -> u32 {
    let code = le_u32(s, off + 4);
    palette_color(s, off, ((code >> ((2 * i) as u32)) & 0x3) as int, 255)
}

/// The explicit 4-bit alpha of texel `i` in the DXT3 block at `off`,
/// widened to 8 bits.
pub open spec fn dxt3_alpha(s: Seq<u8>, off: int, i: int) -> u32 {
    ((((le_u16(s, off + 2 * (i / 4)) as u32) >> ((4 * (i % 4)) as u32)) & 0xF) * 0x11) as u32
}

/// Texel `i` of the DXT3 block at `off`: palette color plus explicit alpha.
pub open spec fn dxt3_texel(s: Seq<u8>, off: int, i: int) -> u32 {
    let code = le_u32(s, off + 12);
    let color = palette_color(s, off + 8, ((code >> ((2 * i) as u32)) & 0x3) as int, 0);
    color | (dxt3_alpha(s, off, i) << 24)
}

/// Entry `j` (0..8) of the interpolated DXT5 alpha ramp of the block at `off`.
pub open spec fn dxt5_alpha(s: Seq<u8>, off: int, j: int) -> u32 {
    let a0 = s[off] as u32;
    let a1 = s[off + 1] as u32;
    if j == 0 {
        a0
    } else if j == 1 {
        a1
    } else if a0 > a1 {
        if j == 2 {
            ((a0 * 6 + a1) / 7) as u32
        } else if j == 3 {
            ((a0 * 5 + a1 * 2) / 7) as u32
        } else if j == 4 {
            ((a0 * 4 + a1 * 3) / 7) as u32
        } else if j == 5 {
            ((a0 * 3 + a1 * 4) / 7) as u32
        } else if j == 6 {
            ((a0 * 2 + a1 * 5) / 7) as u32
        } else {
            ((a0 + a1 * 6) / 7) as u32
        }
    } else {
        if j == 2 {
            ((a0 * 4 + a1) / 5) as u32
        } else if j == 3 {
            ((a0 * 3 + a1 * 2) / 5) as u32
        } else if j == 4 {
            ((a0 * 2 + a1 * 3) / 5) as u32
        } else if j == 5 {
            ((a0 + a1 * 4) / 5) as u32
        } else if j == 6 {
            0
        } else {
            255
        }
    }
}

/// Texel `i` of the DXT5 block at `off`: palette color plus an alpha-ramp
/// entry selected by a 3-bit index.
pub open spec fn dxt5_texel(s: Seq<u8>, off: int, i: int) -> u32 {
    let acode = le_u64(s, off);
    let ccode = le_u32(s, off + 12);
    let color = palette_color(s, off + 8, ((ccode >> ((2 * i) as u32)) & 0x3) as int, 0);
    let aval = dxt5_alpha(s, off, ((acode >> ((3 * i) as u64)) & 0x7) as int);
    color | (aval << 24)
}

/// The byte offset of the block addressed by texel `(tx, ty)`.
pub open spec fn block_off(width: int, tx: int, ty: int, bsize: int) -> int {
    bsize * ((ty / 4) * blocks_x(width) + tx / 4)
}

/// The local (row-major) index of texel `(tx, ty)` within its block.
pub open spec fn local_idx(tx: int, ty: int) -> int {
    4 * (ty % 4) + tx % 4
}

/// The decoded value of texel `(tx, ty)` of a DXT1 image.
pub open spec fn dxt1_image_texel(s: Seq<u8>, width: int, tx: int, ty: int) -> u32 {
    dxt1_texel(s, block_off(width, tx, ty, 8), local_idx(tx, ty))
}

/// The decoded value of texel `(tx, ty)` of a DXT3 image.
pub open spec fn dxt3_image_texel(s: Seq<u8>, width: int, tx: int, ty: int) -> u32 {
    dxt3_texel(s, block_off(width, tx, ty, 16), local_idx(tx, ty))
}

/// The decoded value of texel `(tx, ty)` of a DXT5 image.
pub open spec fn dxt5_image_texel(s: Seq<u8>, width: int, tx: int, ty: int) -> u32 {
    dxt5_texel(s, block_off(width, tx, ty, 16), local_idx(tx, ty))
}

/// The decoded texel of whichever format `fmt` names (1, 3 or 5); the
/// shared block-walk lemmas below are stated once over this dispatcher.
pub open spec fn image_texel(fmt: int, s: Seq<u8>, width: int, tx: int, ty: int) -> u32 {
    if fmt == 1 {
        dxt1_image_texel(s, width, tx, ty)
    } else if fmt == 3 {
        dxt3_image_texel(s, width, tx, ty)
    } else {
        dxt5_image_texel(s, width, tx, ty)
    }
}

/// The input is long enough to hold every block of a `width` x `height`
/// image at `bsize` bytes per block.
pub open spec fn blocks_fit(s: Seq<u8>, width: int, height: int, bsize: int) -> bool {
    s.len() >= bsize * blocks_x(width) * blocks_y(height)
}

/// Texel `(tx, ty)` has been decoded once the block walk has reached block
/// column `bx` of block row `by` and local texel `i` within that block.
pub open spec fn done_before(bx: int, by: int, i: int, tx: int, ty: int) -> bool {
    ||| ty < 4 * by
    ||| (ty / 4 == by && tx < 4 * bx)
    ||| (ty / 4 == by && tx / 4 == bx && local_idx(tx, ty) < i)
}

proof fn lemma_masks()
    by (bit_vector)
    ensures
        forall|x: u32| #[trigger] (x & 0x3) <= 3,
        forall|x: u64| #[trigger] (x & 0x7) <= 7,
        forall|x: u32| #[trigger] (x & 0xF) <= 15,
{
}

proof fn lemma_565_bounds()
    by (bit_vector)
    ensures
        forall|c: u32| #[trigger] spec_565_r(c) <= 255,
        forall|c: u32| #[trigger] spec_565_g(c) <= 255,
        forall|c: u32| #[trigger] spec_565_b(c) <= 255,
{
}

fn unpack_565(color: u32) -> (r: (u32, u32, u32))
    ensures
        r.0 == spec_565_r(color),
        r.1 == spec_565_g(color),
        r.2 == spec_565_b(color),
        r.0 <= 255,
        r.1 <= 255,
        r.2 <= 255,
{
    proof {
        lemma_565_bounds();
    }
    let mut r = (color & 0xF800) >> 8;
    let mut g = (color & 0x07E0) >> 3;
    let mut b = (color & 0x001F) << 3;
    r = r | (r >> 5);
    g = g | (g >> 6);
    b = b | (b >> 5);
    (r, g, b)
}

fn pack_rgba(r: u32, g: u32, b: u32, a: u32) -> (p: u32)
    ensures
        p == spec_pack_rgba(r, g, b, a),
{
    (r << 16) | (g << 8) | b | (a << 24)
}

fn unpack_rgba(color: u32) -> (r: (u32, u32, u32, u32))
    ensures
        r.0 == chan_r(color) as u32,
        r.1 == chan_g(color) as u32,
        r.2 == chan_b(color) as u32,
        r.3 == chan_a(color) as u32,
{
    proof {
        assert((color >> 16) & 0xFF <= 255 && (color >> 8) & 0xFF <= 255 && color & 0xFF <= 255
            && (color >> 24) & 0xFF <= 255) by (bit_vector);
    }
    let b = color & 0xFF;
    let g = (color >> 8) & 0xFF;
    let r = (color >> 16) & 0xFF;
    let a = (color >> 24) & 0xFF;
    (r, g, b, a)
}

fn c2(c0: u32, c1: u32, color0: u32, color1: u32) -> (r: u32)
    requires
        c0 <= 255,
        c1 <= 255,
    ensures
        r == spec_c2(c0, c1, color0, color1),
        r <= 255,
{
    if color0 > color1 {
        return (2 * c0 + c1) / 3;
    }
    (c0 + c1) / 2
}

fn c3(c0: u32, c1: u32) -> (r: u32)
    requires
        c0 <= 255,
        c1 <= 255,
    ensures
        r == spec_c3(c0, c1),
        r <= 255,
{
    (c0 + 2 * c1) / 3
}

/// A zero-filled byte vector of length `n`.
fn zero_vec(n: usize) -> (v: Vec<u8>)
    ensures
        v@.len() == n,
{
    let mut v: Vec<u8> = Vec::new();
    let mut i: usize = 0;
    while i < n
        invariant
            i <= n,
            v@.len() == i,
        decreases n - i,
    {
        v.push(0);
        i = i + 1;
    }
    v
}

/// Reads the two RGB565 endpoints at `off` and expands the four-entry
/// palette, all entries carrying the constant `alpha`.
fn read_palette(input: &Vec<u8>, off: usize, alpha: u32) -> (p: [u32; 4])
    requires
        off + 4 <= input@.len(),
    ensures
        forall|j: int| 0 <= j < 4 ==> p@[j] == palette_color(input@, off as int, j, alpha),
{
    // Bind the length so its usize bound is in scope for index arithmetic.
    let _len = input.len();
    let c0 = ((input[off] as u16) | ((input[off + 1] as u16) << 8u16)) as u32;
    let c1 = ((input[off + 2] as u16) | ((input[off + 3] as u16) << 8u16)) as u32;
    let (r0, g0, b0) = unpack_565(c0);
    let (r1, g1, b1) = unpack_565(c1);
    let p: [u32; 4] = [
        pack_rgba(r0, g0, b0, alpha),
        pack_rgba(r1, g1, b1, alpha),
        pack_rgba(c2(r0, r1, c0, c1), c2(g0, g1, c0, c1), c2(b0, b1, c0, c1), alpha),
        pack_rgba(c3(r0, r1), c3(g0, g1), c3(b0, b1), alpha),
    ];
    p
}

/// Every output byte of texel `(tx, ty)` lies inside the allocation.
proof fn lemma_texel_base(width: int, height: int, tx: int, ty: int)
    requires
        0 <= tx < width,
        0 <= ty < height,
    ensures
        4 * (ty * width + tx) + 4 <= 4 * width * height,
        0 <= 4 * (ty * width + tx),
{
    assert(4 * (ty * width + tx) + 4 <= 4 * width * height && 0 <= 4 * (ty * width + tx))
        by (nonlinear_arith)
        requires
            0 <= tx < width,
            0 <= ty < height,
    ;
}

/// Writes the four channel bytes of texel `(tx, ty)`, leaving every other
/// texel of the image untouched.
fn write_texel(out: &mut Vec<u8>, width: usize, tx: usize, ty: usize, p: u32)
    requires
        tx < width,
        4 * (ty * width + tx) + 4 <= old(out)@.len(),
    ensures
        final(out)@.len() == old(out)@.len(),
        texel_ok(final(out)@, width as int, tx as int, ty as int, p),
        forall|tx2: int, ty2: int, p2: u32|
            0 <= tx2 < width && 0 <= ty2 && (tx2 != tx || ty2 != ty) && 4 * (ty2 * width + tx2) + 4
                <= old(out)@.len() && #[trigger] texel_ok(old(out)@, width as int, tx2, ty2, p2)
                ==> texel_ok(final(out)@, width as int, tx2, ty2, p2),
{
    let l = out.len();
    let base = 4 * (ty * width + tx);
    let (r, g, b, a) = unpack_rgba(p);
    out[base] = r as u8;
    out[base + 1] = g as u8;
    out[base + 2] = b as u8;
    out[base + 3] = a as u8;
    proof {
        assert forall|tx2: int, ty2: int, p2: u32|
            0 <= tx2 < width && 0 <= ty2 && (tx2 != tx || ty2 != ty) && 4 * (ty2 * width + tx2) + 4
                <= old(out)@.len() && #[trigger] texel_ok(
                old(out)@,
                width as int,
                tx2,
                ty2,
                p2,
            ) implies texel_ok(final(out)@, width as int, tx2, ty2, p2) by {
            let b1 = 4 * ((ty as int) * width + tx);
            let b2 = 4 * (ty2 * width + tx2);
            if ty2 == ty {
                assert(b2 + 4 <= b1 || b1 + 4 <= b2);
            } else if ty2 < ty {
                assert(4 * (ty2 * width + tx2) + 4 <= 4 * ((ty as int) * width + tx))
                    by (nonlinear_arith)
                    requires
                        ty2 + 1 <= ty as int,
                        0 <= tx2 < width,
                        0 <= tx,
                ;
                assert(b2 + 4 <= b1);
            } else {
                assert(4 * ((ty as int) * width + tx) + 4 <= 4 * (ty2 * width + tx2))
                    by (nonlinear_arith)
                    requires
                        (ty as int) + 1 <= ty2,
                        0 <= tx2,
                        tx < width,
                        0 <= (ty as int),
                ;
                assert(b1 + 4 <= b2);
            }
        }
    }
}

/// Each block's bytes lie inside an input that holds all blocks.
proof fn lemma_block_in_range(width: int, height: int, bx: int, by: int, bsize: int)
    requires
        0 <= bx < blocks_x(width),
        0 <= by < blocks_y(height),
        bsize >= 0,
    ensures
        bsize * (by * blocks_x(width) + bx) + bsize <= bsize * blocks_x(width) * blocks_y(height),
        0 <= by * blocks_x(width) + bx,
{
    let bcx = blocks_x(width);
    let bcy = blocks_y(height);
    assert(by * bcx + bx + 1 <= bcx * bcy && 0 <= by * bcx + bx) by (nonlinear_arith)
        requires
            0 <= bx < bcx,
            0 <= by < bcy,
    ;
    assert(bsize * (by * bcx + bx) + bsize <= bsize * (bcx * bcy)) by (nonlinear_arith)
        requires
            by * bcx + bx + 1 <= bcx * bcy,
            bsize >= 0,
    ;
    assert(bsize * (bcx * bcy) == bsize * bcx * bcy) by (nonlinear_arith);
}

/// The texel the block walk is about to write addresses the current block,
/// at the current local index.
proof fn lemma_texel_block(width: int, bx: int, by: int, i: int, bsize: int)
    requires
        0 <= bx,
        0 <= by,
        0 <= i < 16,
    ensures
        block_off(width, 4 * bx + (i % 4), 4 * by + (i / 4), bsize) == bsize * (by * blocks_x(
            width,
        ) + bx),
        local_idx(4 * bx + (i % 4), 4 * by + (i / 4)) == i,
        (4 * bx + (i % 4)) / 4 == bx,
        (4 * by + (i / 4)) / 4 == by,
        (4 * bx + (i % 4)) % 4 == i % 4,
        (4 * by + (i / 4)) % 4 == i / 4,
{
    let tx = 4 * bx + (i % 4);
    let ty = 4 * by + (i / 4);
    assert(tx / 4 == bx && tx % 4 == i % 4) by (nonlinear_arith)
        requires
            tx == 4 * bx + (i % 4),
            0 <= i % 4 < 4,
            0 <= bx,
    ;
    assert(ty / 4 == by && ty % 4 == i / 4) by (nonlinear_arith)
        requires
            ty == 4 * by + (i / 4),
            0 <= i / 4 < 4,
            0 <= by,
    ;
    assert(i == 4 * (i / 4) + i % 4);
}

/// One step of the block walk extends the set of decoded texels by exactly
/// the local index it just visited.
proof fn lemma_step(
    width: int,
    height: int,
    bx: int,
    by: int,
    i0: int,
    out_old: Seq<u8>,
    out_new: Seq<u8>,
    fmt: int,
    s: Seq<u8>,
)
    requires
        0 <= bx,
        0 <= by,
        0 <= i0 < 16,
        out_old.len() == 4 * width * height,
        out_new.len() == 4 * width * height,
        ({
            let tx0 = 4 * bx + (i0 % 4);
            let ty0 = 4 * by + (i0 / 4);
            &&& ((tx0 < width && ty0 < height) ==> texel_ok(out_new, width, tx0, ty0, image_texel(fmt, s, width, tx0, ty0)))
            &&& ((tx0 < width && ty0 < height) ==> (forall|tx2: int, ty2: int, p2: u32|
                0 <= tx2 < width && 0 <= ty2 && (tx2 != tx0 || ty2 != ty0) && 4 * (ty2 * width
                    + tx2) + 4 <= out_old.len() && #[trigger] texel_ok(out_old, width, tx2, ty2, p2)
                    ==> texel_ok(out_new, width, tx2, ty2, p2)))
            &&& (!(tx0 < width && ty0 < height) ==> out_new == out_old)
        }),
        forall|tx: int, ty: int|
            0 <= tx < width && 0 <= ty < height && done_before(bx, by, i0, tx, ty)
                ==> #[trigger] texel_ok(out_old, width, tx, ty, image_texel(fmt, s, width, tx, ty)),
    ensures
        forall|tx: int, ty: int|
            0 <= tx < width && 0 <= ty < height && done_before(bx, by, i0 + 1, tx, ty)
                ==> #[trigger] texel_ok(out_new, width, tx, ty, image_texel(fmt, s, width, tx, ty)),
{
    let tx0 = 4 * bx + (i0 % 4);
    let ty0 = 4 * by + (i0 / 4);
    lemma_texel_block(width, bx, by, i0, 8);
    assert forall|tx: int, ty: int|
        0 <= tx < width && 0 <= ty < height && done_before(bx, by, i0 + 1, tx, ty) implies
        #[trigger] texel_ok(out_new, width, tx, ty, image_texel(fmt, s, width, tx, ty)) by {
        lemma_texel_base(width, height, tx, ty);
        if ty / 4 == by && tx / 4 == bx && local_idx(tx, ty) == i0 {
            assert(tx == 4 * (tx / 4) + tx % 4);
            assert(ty == 4 * (ty / 4) + ty % 4);
            assert(4 * (ty % 4) + tx % 4 == 4 * (i0 / 4) + i0 % 4);
            assert(ty % 4 == i0 / 4 && tx % 4 == i0 % 4);
            assert(tx == tx0 && ty == ty0);
        } else {
            assert(done_before(bx, by, i0, tx, ty));
            assert(texel_ok(out_old, width, tx, ty, image_texel(fmt, s, width, tx, ty)));
            if tx0 < width && ty0 < height {
                if tx == tx0 && ty == ty0 {
                    assert(tx == 4 * (tx / 4) + tx % 4);
                    assert(ty == 4 * (ty / 4) + ty % 4);
                    assert(tx / 4 == bx && ty / 4 == by && tx % 4 == i0 % 4 && ty % 4 == i0 / 4);
                    assert(local_idx(tx, ty) == i0);
                    assert(!done_before(bx, by, i0, tx, ty));
                    assert(false);
                }
            }
        }
    }
}

/// Finishing a block extends the decoded set to the whole block column.
proof fn lemma_block_done(
    width: int,
    height: int,
    bx: int,
    by: int,
    out: Seq<u8>,
    fmt: int,
    s: Seq<u8>,
)
    requires
        0 <= bx,
        0 <= by,
        forall|tx: int, ty: int|
            0 <= tx < width && 0 <= ty < height && done_before(bx, by, 16, tx, ty)
                ==> #[trigger] texel_ok(out, width, tx, ty, image_texel(fmt, s, width, tx, ty)),
    ensures
        forall|tx: int, ty: int|
            0 <= tx < width && 0 <= ty < height && done_before(bx + 1, by, 0, tx, ty)
                ==> #[trigger] texel_ok(out, width, tx, ty, image_texel(fmt, s, width, tx, ty)),
{
    assert forall|tx: int, ty: int|
        0 <= tx < width && 0 <= ty < height && done_before(bx + 1, by, 0, tx, ty) implies
        #[trigger] texel_ok(out, width, tx, ty, image_texel(fmt, s, width, tx, ty)) by {
        if !done_before(bx, by, 0, tx, ty) && !(ty < 4 * by) {
            assert(ty / 4 == by && 4 * bx <= tx < 4 * (bx + 1));
            assert(tx / 4 == bx) by (nonlinear_arith)
                requires
                    4 * bx <= tx < 4 * (bx + 1),
                    0 <= bx,
            ;
            assert(0 <= tx % 4 < 4 && 0 <= ty % 4 < 4);
            assert(local_idx(tx, ty) < 16);
            assert(done_before(bx, by, 16, tx, ty));
        }
    }
}

/// Finishing a block row extends the decoded set to every texel row above
/// the next block row.
proof fn lemma_row_done(
    width: int,
    height: int,
    by: int,
    out: Seq<u8>,
    fmt: int,
    s: Seq<u8>,
)
    requires
        0 <= by,
        forall|tx: int, ty: int|
            0 <= tx < width && 0 <= ty < height && done_before(blocks_x(width), by, 0, tx, ty)
                ==> #[trigger] texel_ok(out, width, tx, ty, image_texel(fmt, s, width, tx, ty)),
    ensures
        forall|tx: int, ty: int|
            0 <= tx < width && 0 <= ty < height && done_before(0, by + 1, 0, tx, ty)
                ==> #[trigger] texel_ok(out, width, tx, ty, image_texel(fmt, s, width, tx, ty)),
{
    assert forall|tx: int, ty: int|
        0 <= tx < width && 0 <= ty < height && done_before(0, by + 1, 0, tx, ty) implies
        #[trigger] texel_ok(out, width, tx, ty, image_texel(fmt, s, width, tx, ty)) by {
        if !(ty < 4 * by) {
            assert(4 * by <= ty < 4 * (by + 1));
            assert(ty / 4 == by) by (nonlinear_arith)
                requires
                    4 * by <= ty < 4 * (by + 1),
                    0 <= by,
            ;
            assert(tx < width <= 4 * blocks_x(width));
            assert(done_before(blocks_x(width), by, 0, tx, ty));
        }
    }
}

/// After the last block row, every texel of the image is decoded.
proof fn lemma_all_done(width: int, height: int, out: Seq<u8>, fmt: int, s: Seq<u8>)
    requires
        forall|tx: int, ty: int|
            0 <= tx < width && 0 <= ty < height && done_before(0, blocks_y(height), 0, tx, ty)
                ==> #[trigger] texel_ok(out, width, tx, ty, image_texel(fmt, s, width, tx, ty)),
    ensures
        forall|tx: int, ty: int|
            0 <= tx < width && 0 <= ty < height ==> #[trigger] texel_ok(
                out,
                width,
                tx,
                ty,
                image_texel(fmt, s, width, tx, ty),
            ),
{
    assert forall|tx: int, ty: int| 0 <= tx < width && 0 <= ty < height implies #[trigger]
        texel_ok(out, width, tx, ty, image_texel(fmt, s, width, tx, ty)) by {
        assert(ty < height <= 4 * blocks_y(height));
        assert(done_before(0, blocks_y(height), 0, tx, ty));
    }
}

/// Decompresses a DXT1 image: 8-byte blocks of a 4-color palette with 2-bit
/// texel indices; alpha is opaque everywhere.
pub fn decode_dxt1(input: Vec<u8>, width: usize, height: usize) -> (out: Vec<u8>)
    requires
        width <= 0xFFFF,
        height <= 0xFFFF,
        4 * width * height <= usize::MAX,
        blocks_fit(input@, width as int, height as int, 8),
    ensures
        out@.len() == 4 * width * height,
        forall|tx: int, ty: int|
            0 <= tx < width && 0 <= ty < height ==> #[trigger] texel_ok(
                out@,
                width as int,
                tx,
                ty,
                dxt1_image_texel(input@, width as int, tx, ty),
            ),
{
    let bcx = (width + 3) / 4;
    let bcy = (height + 3) / 4;
    let ilen = input.len();
    let mut out = zero_vec(4 * width * height);
    let mut by: usize = 0;
    while by < bcy
        invariant
            width <= 0xFFFF,
            height <= 0xFFFF,
            4 * width * height <= usize::MAX,
            blocks_fit(input@, width as int, height as int, 8),
            bcx == blocks_x(width as int),
            bcy == blocks_y(height as int),
            bcx <= 0x4000,
            bcy <= 0x4000,
            ilen == input@.len(),
            by <= bcy,
            out@.len() == 4 * width * height,
            forall|tx: int, ty: int|
                0 <= tx < width && 0 <= ty < height && done_before(0, by as int, 0, tx, ty)
                    ==> #[trigger] texel_ok(out@, width as int, tx, ty, image_texel(1, input@, width as int, tx, ty)),
        decreases bcy - by,
    {
        let mut bx: usize = 0;
        while bx < bcx
            invariant
                width <= 0xFFFF,
                height <= 0xFFFF,
                4 * width * height <= usize::MAX,
                blocks_fit(input@, width as int, height as int, 8),
                bcx == blocks_x(width as int),
                bcy == blocks_y(height as int),
                bcx <= 0x4000,
                bcy <= 0x4000,
                ilen == input@.len(),
                by < bcy,
                bx <= bcx,
                out@.len() == 4 * width * height,
                    forall|tx: int, ty: int|
                    0 <= tx < width && 0 <= ty < height && done_before(bx as int, by as int, 0, tx, ty)
                        ==> #[trigger] texel_ok(out@, width as int, tx, ty, image_texel(1, input@, width as int, tx, ty)),
            decreases bcx - bx,
        {
            proof {
                lemma_block_in_range(width as int, height as int, bx as int, by as int, 8);
                assert(by * bcx + bx < 0x10000000) by (nonlinear_arith)
                    requires
                        by < bcy,
                        bx < bcx,
                        bcx <= 0x4000,
                        bcy <= 0x4000,
                ;
            }
            let off = 8 * (by * bcx + bx);
            let palette = read_palette(&input, off, 255);
            let code = (input[off + 4] as u32) | ((input[off + 5] as u32) << 8u32) | ((input[off
                + 6] as u32) << 16u32) | ((input[off + 7] as u32) << 24u32);
            let mut i: usize = 0;
            while i < 16
                invariant
                    width <= 0xFFFF,
                    height <= 0xFFFF,
                    4 * width * height <= usize::MAX,
                    bcx == blocks_x(width as int),
                    by < bcy,
                    bx < bcx,
                    by < 0x4000,
                    bx < 0x4000,
                    i <= 16,
                    off == 8 * (by * bcx + bx),
                    off + 8 <= input@.len(),
                    code == le_u32(input@, off + 4),
                    forall|j: int|
                        0 <= j < 4 ==> palette@[j] == palette_color(input@, off as int, j, 255),
                    out@.len() == 4 * width * height,
                            forall|tx: int, ty: int|
                        0 <= tx < width && 0 <= ty < height && done_before(
                            bx as int,
                            by as int,
                            i as int,
                            tx,
                            ty,
                        ) ==> #[trigger] texel_ok(out@, width as int, tx, ty, image_texel(1, input@, width as int, tx, ty)),
                decreases 16 - i,
            {
                proof {
                    lemma_masks();
                }
                let idx = ((code >> ((2 * i) as u32)) & 0x3) as usize;
                let p = palette[idx];
                let tx = bx * 4 + (i % 4);
                let ty = by * 4 + (i / 4);
                let ghost out_pre = out@;
                if tx < width && ty < height {
                    proof {
                        lemma_texel_block(width as int, bx as int, by as int, i as int, 8);
                        lemma_texel_base(width as int, height as int, tx as int, ty as int);
                        assert(idx < 4);
                        assert(p == palette_color(input@, off as int, idx as int, 255));
                        assert(block_off(width as int, tx as int, ty as int, 8) == off as int);
                        assert(local_idx(tx as int, ty as int) == i as int);
                        let ghost c = le_u32(input@, off + 4);
                        assert(code == c);
                        assert((2 * i) as u32 == (2 * (i as int)) as u32);
                        assert(code >> ((2 * i) as u32) == c >> ((2 * (i as int)) as u32));
                        assert(idx as int == ((c >> ((2 * (i as int)) as u32)) & 0x3) as int);
                        assert(p == image_texel(1, input@, width as int, tx as int, ty as int));
                    }
                    write_texel(&mut out, width, tx, ty, p);
                }
                proof {
                    lemma_step(
                        width as int,
                        height as int,
                        bx as int,
                        by as int,
                        i as int,
                        out_pre,
                        out@,
                        1,
                        input@,
                    );
                }
                i = i + 1;
            }
            proof {
                lemma_block_done(width as int, height as int, bx as int, by as int, out@, 1, input@);
            }
            bx = bx + 1;
        }
        proof {
            lemma_row_done(width as int, height as int, by as int, out@, 1, input@);
        }
        by = by + 1;
    }
    proof {
        lemma_all_done(width as int, height as int, out@, 1, input@);
        assert forall|tx: int, ty: int| 0 <= tx < width && 0 <= ty < height implies #[trigger]
            texel_ok(
            out@,
            width as int,
            tx,
            ty,
            dxt1_image_texel(input@, width as int, tx, ty),
        ) by {
            assert(texel_ok(
                out@,
                width as int,
                tx,
                ty,
                image_texel(1, input@, width as int, tx, ty),
            ));
        }
    }
    out
}

/// Decompresses a DXT3 image: 16-byte blocks holding an explicit 4-bit alpha
/// per texel followed by a DXT1-style color block (non-premultiplied).
pub fn decode_dxt3(input: Vec<u8>, width: usize, height: usize) -> (out: Vec<u8>)
    requires
        width <= 0xFFFF,
        height <= 0xFFFF,
        4 * width * height <= usize::MAX,
        blocks_fit(input@, width as int, height as int, 16),
    ensures
        out@.len() == 4 * width * height,
        forall|tx: int, ty: int|
            0 <= tx < width && 0 <= ty < height ==> #[trigger] texel_ok(
                out@,
                width as int,
                tx,
                ty,
                dxt3_image_texel(input@, width as int, tx, ty),
            ),
{
    let bcx = (width + 3) / 4;
    let bcy = (height + 3) / 4;
    let ilen = input.len();
    let mut out = zero_vec(4 * width * height);
    let mut by: usize = 0;
    while by < bcy
        invariant
            width <= 0xFFFF,
            height <= 0xFFFF,
            4 * width * height <= usize::MAX,
            blocks_fit(input@, width as int, height as int, 16),
            bcx == blocks_x(width as int),
            bcy == blocks_y(height as int),
            bcx <= 0x4000,
            bcy <= 0x4000,
            ilen == input@.len(),
            by <= bcy,
            out@.len() == 4 * width * height,
            forall|tx: int, ty: int|
                0 <= tx < width && 0 <= ty < height && done_before(0, by as int, 0, tx, ty)
                    ==> #[trigger] texel_ok(out@, width as int, tx, ty, image_texel(3, input@, width as int, tx, ty)),
        decreases bcy - by,
    {
        let mut bx: usize = 0;
        while bx < bcx
            invariant
                width <= 0xFFFF,
                height <= 0xFFFF,
                4 * width * height <= usize::MAX,
                blocks_fit(input@, width as int, height as int, 16),
                bcx == blocks_x(width as int),
                bcy == blocks_y(height as int),
                bcx <= 0x4000,
                bcy <= 0x4000,
                ilen == input@.len(),
                by < bcy,
                bx <= bcx,
                out@.len() == 4 * width * height,
                forall|tx: int, ty: int|
                    0 <= tx < width && 0 <= ty < height && done_before(bx as int, by as int, 0, tx, ty)
                        ==> #[trigger] texel_ok(out@, width as int, tx, ty, image_texel(3, input@, width as int, tx, ty)),
            decreases bcx - bx,
        {
            proof {
                lemma_block_in_range(width as int, height as int, bx as int, by as int, 16);
                assert(by * bcx + bx < 0x10000000) by (nonlinear_arith)
                    requires
                        by < bcy,
                        bx < bcx,
                        bcx <= 0x4000,
                        bcy <= 0x4000,
                ;
            }
            let off = 16 * (by * bcx + bx);
            let palette = read_palette(&input, off + 8, 0);
            let code = (input[off + 12] as u32) | ((input[off + 13] as u32) << 8u32) | ((input[off
                + 14] as u32) << 16u32) | ((input[off + 15] as u32) << 24u32);
            let mut i: usize = 0;
            while i < 16
                invariant
                    width <= 0xFFFF,
                    height <= 0xFFFF,
                    4 * width * height <= usize::MAX,
                    bcx == blocks_x(width as int),
                    by < bcy,
                    bx < bcx,
                    by < 0x4000,
                    bx < 0x4000,
                    i <= 16,
                    off == 16 * (by * bcx + bx),
                    off + 16 <= input@.len(),
                    code == le_u32(input@, off + 12),
                    forall|j: int|
                        0 <= j < 4 ==> palette@[j] == palette_color(input@, off + 8, j, 0),
                    out@.len() == 4 * width * height,
                    forall|tx: int, ty: int|
                        0 <= tx < width && 0 <= ty < height && done_before(
                            bx as int,
                            by as int,
                            i as int,
                            tx,
                            ty,
                        ) ==> #[trigger] texel_ok(
                            out@,
                            width as int,
                            tx,
                            ty,
                            image_texel(3, input@, width as int, tx, ty),
                        ),
                decreases 16 - i,
            {
                proof {
                    lemma_masks();
                }
                let idx = ((code >> ((2 * i) as u32)) & 0x3) as usize;
                let a16 = ((input[off + 2 * (i / 4)] as u16) | ((input[off + 2 * (i / 4) + 1]
                    as u16) << 8u16)) as u32;
                let aval = ((a16 >> ((4 * (i % 4)) as u32)) & 0xF) * 0x11;
                let p = palette[idx] | (aval << 24u32);
                let tx = bx * 4 + (i % 4);
                let ty = by * 4 + (i / 4);
                let ghost out_pre = out@;
                if tx < width && ty < height {
                    proof {
                        lemma_texel_block(width as int, bx as int, by as int, i as int, 16);
                        lemma_texel_base(width as int, height as int, tx as int, ty as int);
                        assert(idx < 4);
                        assert(a16 == le_u16(input@, off + 2 * ((i as int) / 4)) as u32);
                        assert(aval == dxt3_alpha(input@, off as int, i as int));
                        assert(p == image_texel(3, input@, width as int, tx as int, ty as int));
                    }
                    write_texel(&mut out, width, tx, ty, p);
                }
                proof {
                    lemma_step(
                        width as int,
                        height as int,
                        bx as int,
                        by as int,
                        i as int,
                        out_pre,
                        out@,
                        3,
                        input@,
                    );
                }
                i = i + 1;
            }
            proof {
                lemma_block_done(width as int, height as int, bx as int, by as int, out@, 3, input@);
            }
            bx = bx + 1;
        }
        proof {
            lemma_row_done(width as int, height as int, by as int, out@, 3, input@);
        }
        by = by + 1;
    }
    proof {
        lemma_all_done(width as int, height as int, out@, 3, input@);
        assert forall|tx: int, ty: int| 0 <= tx < width && 0 <= ty < height implies #[trigger]
            texel_ok(
            out@,
            width as int,
            tx,
            ty,
            dxt3_image_texel(input@, width as int, tx, ty),
        ) by {
            assert(texel_ok(
                out@,
                width as int,
                tx,
                ty,
                image_texel(3, input@, width as int, tx, ty),
            ));
        }
    }
    out
}


/// Reads the two alpha endpoints at `off` and expands the eight-entry
/// interpolated alpha ramp.
fn read_alpha_ramp(input: &Vec<u8>, off: usize) -> (av: [u32; 8])
    requires
        off + 2 <= input@.len(),
    ensures
        forall|j: int| 0 <= j < 8 ==> av@[j] == dxt5_alpha(input@, off as int, j),
        forall|j: int| 0 <= j < 8 ==> av@[j] <= 255,
{
    // Bind the length so its usize bound is in scope for index arithmetic.
    let _len = input.len();
    let a0 = input[off] as u32;
    let a1 = input[off + 1] as u32;
    let av: [u32; 8] = if a0 > a1 {
        [
            a0,
            a1,
            (a0 * 6 + a1) / 7,
            (a0 * 5 + a1 * 2) / 7,
            (a0 * 4 + a1 * 3) / 7,
            (a0 * 3 + a1 * 4) / 7,
            (a0 * 2 + a1 * 5) / 7,
            (a0 + a1 * 6) / 7,
        ]
    } else {
        [
            a0,
            a1,
            (a0 * 4 + a1) / 5,
            (a0 * 3 + a1 * 2) / 5,
            (a0 * 2 + a1 * 3) / 5,
            (a0 + a1 * 4) / 5,
            0,
            255,
        ]
    };
    av
}


/// Decompresses a DXT5 image: 16-byte blocks holding an interpolated
/// eight-entry alpha ramp with 3-bit texel indices followed by a DXT1-style
/// color block.
pub fn decode_dxt5(input: Vec<u8>, width: usize, height: usize) -> (out: Vec<u8>)
    requires
        width <= 0xFFFF,
        height <= 0xFFFF,
        4 * width * height <= usize::MAX,
        blocks_fit(input@, width as int, height as int, 16),
    ensures
        out@.len() == 4 * width * height,
        forall|tx: int, ty: int|
            0 <= tx < width && 0 <= ty < height ==> #[trigger] texel_ok(
                out@,
                width as int,
                tx,
                ty,
                dxt5_image_texel(input@, width as int, tx, ty),
            ),
{
    let bcx = (width + 3) / 4;
    let bcy = (height + 3) / 4;
    let ilen = input.len();
    let mut out = zero_vec(4 * width * height);
    let mut by: usize = 0;
    while by < bcy
        invariant
            width <= 0xFFFF,
            height <= 0xFFFF,
            4 * width * height <= usize::MAX,
            blocks_fit(input@, width as int, height as int, 16),
            bcx == blocks_x(width as int),
            bcy == blocks_y(height as int),
            bcx <= 0x4000,
            bcy <= 0x4000,
            ilen == input@.len(),
            by <= bcy,
            out@.len() == 4 * width * height,
            forall|tx: int, ty: int|
                0 <= tx < width && 0 <= ty < height && done_before(0, by as int, 0, tx, ty)
                    ==> #[trigger] texel_ok(out@, width as int, tx, ty, image_texel(5, input@, width as int, tx, ty)),
        decreases bcy - by,
    {
        let mut bx: usize = 0;
        while bx < bcx
            invariant
                width <= 0xFFFF,
                height <= 0xFFFF,
                4 * width * height <= usize::MAX,
                blocks_fit(input@, width as int, height as int, 16),
                bcx == blocks_x(width as int),
                bcy == blocks_y(height as int),
                bcx <= 0x4000,
                bcy <= 0x4000,
                ilen == input@.len(),
                by < bcy,
                bx <= bcx,
                out@.len() == 4 * width * height,
                forall|tx: int, ty: int|
                    0 <= tx < width && 0 <= ty < height && done_before(bx as int, by as int, 0, tx, ty)
                        ==> #[trigger] texel_ok(out@, width as int, tx, ty, image_texel(5, input@, width as int, tx, ty)),
            decreases bcx - bx,
        {
            proof {
                lemma_block_in_range(width as int, height as int, bx as int, by as int, 16);
                assert(by * bcx + bx < 0x10000000) by (nonlinear_arith)
                    requires
                        by < bcy,
                        bx < bcx,
                        bcx <= 0x4000,
                        bcy <= 0x4000,
                ;
            }
            let off = 16 * (by * bcx + bx);
            let av = read_alpha_ramp(&input, off);
            let acode = (input[off] as u64) | ((input[off + 1] as u64) << 8u64) | ((input[off + 2]
                as u64) << 16u64) | ((input[off + 3] as u64) << 24u64) | ((input[off + 4] as u64)
                << 32u64) | ((input[off + 5] as u64) << 40u64) | ((input[off + 6] as u64)
                << 48u64) | ((input[off + 7] as u64) << 56u64);
            let palette = read_palette(&input, off + 8, 0);
            let code = (input[off + 12] as u32) | ((input[off + 13] as u32) << 8u32) | ((input[off
                + 14] as u32) << 16u32) | ((input[off + 15] as u32) << 24u32);
            let mut i: usize = 0;
            while i < 16
                invariant
                    width <= 0xFFFF,
                    height <= 0xFFFF,
                    4 * width * height <= usize::MAX,
                    bcx == blocks_x(width as int),
                    by < bcy,
                    bx < bcx,
                    by < 0x4000,
                    bx < 0x4000,
                    i <= 16,
                    off == 16 * (by * bcx + bx),
                    off + 16 <= input@.len(),
                    acode == le_u64(input@, off as int),
                    code == le_u32(input@, off + 12),
                    forall|j: int|
                        0 <= j < 4 ==> palette@[j] == palette_color(input@, off + 8, j, 0),
                    forall|j: int| 0 <= j < 8 ==> av@[j] == dxt5_alpha(input@, off as int, j),
                    out@.len() == 4 * width * height,
                    forall|tx: int, ty: int|
                        0 <= tx < width && 0 <= ty < height && done_before(
                            bx as int,
                            by as int,
                            i as int,
                            tx,
                            ty,
                        ) ==> #[trigger] texel_ok(
                            out@,
                            width as int,
                            tx,
                            ty,
                            image_texel(5, input@, width as int, tx, ty),
                        ),
                decreases 16 - i,
            {
                proof {
                    lemma_masks();
                }
                let idx = ((code >> ((2 * i) as u32)) & 0x3) as usize;
                let aidx = ((acode >> ((3 * i) as u64)) & 0x7) as usize;
                let p = palette[idx] | (av[aidx] << 24u32);
                let tx = bx * 4 + (i % 4);
                let ty = by * 4 + (i / 4);
                let ghost out_pre = out@;
                if tx < width && ty < height {
                    proof {
                        lemma_texel_block(width as int, bx as int, by as int, i as int, 16);
                        lemma_texel_base(width as int, height as int, tx as int, ty as int);
                        assert(idx < 4);
                        assert(aidx < 8);
                        assert(av@[aidx as int] == dxt5_alpha(input@, off as int, ((acode >> ((3
                            * (i as int)) as u64)) & 0x7) as int));
                        assert(p == image_texel(5, input@, width as int, tx as int, ty as int));
                    }
                    write_texel(&mut out, width, tx, ty, p);
                }
                proof {
                    lemma_step(
                        width as int,
                        height as int,
                        bx as int,
                        by as int,
                        i as int,
                        out_pre,
                        out@,
                        5,
                        input@,
                    );
                }
                i = i + 1;
            }
            proof {
                lemma_block_done(width as int, height as int, bx as int, by as int, out@, 5, input@);
            }
            bx = bx + 1;
        }
        proof {
            lemma_row_done(width as int, height as int, by as int, out@, 5, input@);
        }
        by = by + 1;
    }
    proof {
        lemma_all_done(width as int, height as int, out@, 5, input@);
        assert forall|tx: int, ty: int| 0 <= tx < width && 0 <= ty < height implies #[trigger]
            texel_ok(
            out@,
            width as int,
            tx,
            ty,
            dxt5_image_texel(input@, width as int, tx, ty),
        ) by {
            assert(texel_ok(
                out@,
                width as int,
                tx,
                ty,
                image_texel(5, input@, width as int, tx, ty),
            ));
        }
    }
    out
}


} // verus!
