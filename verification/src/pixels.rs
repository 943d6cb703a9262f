//! Pixel buffers: handing a finished frame to the window surface.
use vstd::prelude::*;

verus! {

/// One opaque pixel in the surface's `0xAARRGGBB` layout.
pub open spec fn spec_xrgb(r: u8, g: u8, b: u8) -> u32 {
    ((r as u32) << 16u32) | ((g as u32) << 8u32) | (b as u32) | (0xffu32 << 24u32)
}

/// The first `n` pixels of an RGBA buffer in the surface layout (alpha
/// forced to opaque).
pub open spec fn xrgb_pixels(rgba: Seq<u8>, n: nat) -> Seq<u32>
    decreases n,
{
    if n == 0 {
        Seq::empty()
    } else {
        let p = (n - 1) as nat;
        xrgb_pixels(rgba, p).push(spec_xrgb(rgba[4 * p as int], rgba[4 * p as int + 1], rgba[4 * p as int + 2]))
    }
}

/// Copies a frame (RGBA bytes, as the renderer's pixmap stores them) into
/// the window surface, one `u32` per pixel.
pub fn blit_to_softbuffer(rgba: &[u8], out: &mut [u32])
    requires
        rgba@.len() == old(out)@.len() * 4,
    ensures
        final(out)@ == xrgb_pixels(rgba@, old(out)@.len()),
{
    let n = out.len();
    let len = rgba.len();
    let mut i: usize = 0;
    while i < n
        invariant
            n == out@.len(),
            len == rgba@.len(),
            len == n * 4,
            i <= n,
            out@.subrange(0, i as int) == xrgb_pixels(rgba@, i as nat),
        decreases n - i,
    {
        let r = rgba[4 * i] as u32;
        let g = rgba[4 * i + 1] as u32;
        let b = rgba[4 * i + 2] as u32;
        let ghost before = out@;
        out[i] = (r << 16) | (g << 8) | b | (0xff << 24);
        proof {
            assert(out@.subrange(0, i as int) =~= before.subrange(0, i as int));
        }
        i = i + 1;
        assert(out@.subrange(0, i as int) =~= xrgb_pixels(rgba@, i as nat));
    }
    assert(out@.subrange(0, n as int) =~= out@);
}


/// One channel of an opaque destination pixel covered by a source pixel
/// with alpha `a`: `(a·s + (255 − a)·d) / 255`.
pub open spec fn blend_channel(s: u8, d: u8, a: u8) -> u8 {
    ((a as nat * s as nat + (255 - a as nat) * d as nat) / 255) as u8
}

fn blend_u8(s: u8, d: u8, a: u8) -> (r: u8)
    ensures
        r == blend_channel(s, d, a),
{
    let inv: u32 = 255 - a as u32;
    assert(a as u32 * s as u32 <= 255 * 255) by (nonlinear_arith)
        requires a <= 255, s <= 255;
    assert(inv * d as u32 <= 255 * 255) by (nonlinear_arith)
        requires inv <= 255, d <= 255;
    let v: u32 = a as u32 * s as u32 + inv * d as u32;
    assert(v / 255 <= 255) by (nonlinear_arith)
        requires v == a as u32 * s as u32 + inv * d as u32, inv == 255 - a, a <= 255, s <= 255, d <= 255;
    (v / 255) as u8
}

/// The geometry of a blit: a `w`×`h` source placed at `(x, y)` on a
/// `pw`×`ph` destination.
pub struct BlitRect {
    pub pw: u32,
    pub ph: u32,
    pub x: u32,
    pub y: u32,
    pub w: u32,
    pub h: u32,
}

/// The source pixel that lands on destination pixel `q`, if any.
pub open spec fn source_of(g: BlitRect, q: int) -> Option<int> {
    let x = q % (g.pw as int);
    let y = q / (g.pw as int);
    if g.x <= x < g.x + g.w && g.y <= y < g.y + g.h {
        Some((y - g.y) * (g.w as int) + (x - g.x))
    } else {
        None
    }
}

/// Byte `c` of destination pixel `q` after source pixel `s` is drawn over
/// it: transparent source pixels leave it, nearly opaque ones (alpha 254
/// or 255) replace it, others are blended; the result is opaque.
pub open spec fn blitted_byte(old: Seq<u8>, src: Seq<u8>, q: int, s: int, c: int) -> u8 {
    let a = src[4 * s + 3];
    if a == 0 {
        old[4 * q + c]
    } else if c == 3 {
        255
    } else if a >= 254 {
        src[4 * s + c]
    } else {
        blend_channel(src[4 * s + c], old[4 * q + c], a)
    }
}

/// Byte `c` of destination pixel `q` once the source pixels before `k`
/// (row-major) have been drawn.
pub open spec fn blit_byte_after(g: BlitRect, old: Seq<u8>, src: Seq<u8>, k: int, q: int, c: int) -> u8 {
    match source_of(g, q) {
        Some(s) => if s < k { blitted_byte(old, src, q, s, c) } else { old[4 * q + c] },
        None => old[4 * q + c],
    }
}

/// Destination byte `i`, viewed as pixel and channel (a trigger helper).
pub open spec fn pixel_byte(s: Seq<u8>, q: int, c: int) -> u8 {
    s[4 * q + c]
}

proof fn lemma_source_unique(g: BlitRect, q: int, k: int)
    requires
        g.pw > 0,
        g.w > 0,
        0 <= q,
        source_of(g, q) == Some(k),
    ensures
        q % (g.pw as int) == g.x + k % (g.w as int),
        q / (g.pw as int) == g.y + k / (g.w as int),
        q == (q / (g.pw as int)) * (g.pw as int) + q % (g.pw as int),
{
    let x = q % (g.pw as int);
    let y = q / (g.pw as int);
    vstd::arithmetic::div_mod::lemma_fundamental_div_mod_converse(k, g.w as int, y - g.y, x - g.x);
    vstd::arithmetic::div_mod::lemma_fundamental_div_mod(q, g.pw as int);
    assert(q == (q / (g.pw as int)) * (g.pw as int) + q % (g.pw as int)) by (nonlinear_arith)
        requires q == (g.pw as int) * (q / (g.pw as int)) + q % (g.pw as int);
}

proof fn lemma_pixel_source(g: BlitRect, px: int, py: int, k: int)
    requires
        g.pw > 0,
        g.w > 0,
        0 <= px < g.pw,
        0 <= py,
        px == g.x + k % (g.w as int),
        py == g.y + k / (g.w as int),
        0 <= k < (g.w as int) * (g.h as int),
    ensures
        source_of(g, py * (g.pw as int) + px) == Some(k),
{
    let q = py * (g.pw as int) + px;
    vstd::arithmetic::div_mod::lemma_fundamental_div_mod_converse(q, g.pw as int, py, px);
    vstd::arithmetic::div_mod::lemma_fundamental_div_mod(k, g.w as int);
    vstd::arithmetic::div_mod::lemma_mod_pos_bound(k, g.w as int);
    assert(k / (g.w as int) < g.h) by (nonlinear_arith)
        requires 0 <= k < (g.w as int) * (g.h as int), g.w > 0, k == (g.w as int) * (k / (g.w as int)) + k % (g.w as int), 0 <= k % (g.w as int);
    assert(k / (g.w as int) >= 0) by (nonlinear_arith)
        requires 0 <= k, g.w > 0;
    assert(k == (k / (g.w as int)) * (g.w as int) + k % (g.w as int)) by (nonlinear_arith)
        requires k == (g.w as int) * (k / (g.w as int)) + k % (g.w as int);
}

/// Draws the straight-RGBA `src` (`g.w`×`g.h`, already at its final size)
/// over the opaque RGBA frame `dst` (`g.pw`×`g.ph`) at `(g.x, g.y)`;
/// source pixels that fall outside the frame are dropped.
pub fn blit_rgba(dst: &mut [u8], g: &BlitRect, src: &[u8])
    requires
        g.pw > 0,
        old(dst)@.len() == (g.pw as int) * (g.ph as int) * 4,
        (g.pw as int) * (g.ph as int) <= u32::MAX,
        src@.len() == (g.w as int) * (g.h as int) * 4,
        g.x + g.w <= u32::MAX,
        g.y + g.h <= u32::MAX,
    ensures
        final(dst)@.len() == old(dst)@.len(),
        forall|q: int, c: int| 0 <= q < (g.pw as int) * (g.ph as int) && 0 <= c < 4 ==>
            #[trigger] pixel_byte(final(dst)@, q, c) == blit_byte_after(*g, old(dst)@, src@, (g.w as int) * (g.h as int), q, c),
{
    let ghost old_dst = dst@;
    let n_dst: u64 = g.pw as u64 * g.ph as u64;
    assert(g.w as int * g.h as int <= u32::MAX * u32::MAX) by (nonlinear_arith)
        requires g.w <= u32::MAX, g.h <= u32::MAX;
    let n_src: u64 = g.w as u64 * g.h as u64;
    let dlen = dst.len();
    let slen = src.len();
    let mut k: u64 = 0;
    if g.w == 0 {
        assert forall|q: int, c: int| 0 <= q < (g.pw as int) * (g.ph as int) && 0 <= c < 4 implies
            #[trigger] pixel_byte(dst@, q, c) == blit_byte_after(*g, old_dst, src@, (g.w as int) * (g.h as int), q, c) by {
        }
        return;
    }
    while k < n_src
        invariant
            g.pw > 0,
            g.w > 0,
            n_dst == (g.pw as int) * (g.ph as int),
            n_src == (g.w as int) * (g.h as int),
            dlen == dst@.len(),
            slen == src@.len(),
            dst@.len() == old_dst.len(),
            old_dst.len() == n_dst * 4,
            n_dst <= u32::MAX,
            src@.len() == n_src * 4,
            g.x + g.w <= u32::MAX,
            g.y + g.h <= u32::MAX,
            k <= n_src,
            forall|q: int, c: int| 0 <= q < n_dst && 0 <= c < 4 ==>
                #[trigger] pixel_byte(dst@, q, c) == blit_byte_after(*g, old_dst, src@, k as int, q, c),
        decreases n_src - k,
    {
        let row: u64 = k / (g.w as u64);
        let col: u64 = k % (g.w as u64);
        proof {
            vstd::arithmetic::div_mod::lemma_fundamental_div_mod(k as int, g.w as int);
            assert(row < g.h) by (nonlinear_arith)
                requires k < (g.w as int) * (g.h as int), g.w > 0, k == (g.w as int) * row + col, 0 <= col;
        }
        let si: usize = (4 * k) as usize;
        let a = src[si + 3];
        let px: u64 = g.x as u64 + col;
        let py: u64 = g.y as u64 + row;
        let ghost before = dst@;
        if a != 0 && px < g.pw as u64 && py < g.ph as u64 {
            proof {
                lemma_pixel_source(*g, px as int, py as int, k as int);
                assert(py * g.pw + px < n_dst) by (nonlinear_arith)
                    requires py < g.ph, px < g.pw, n_dst == (g.pw as int) * (g.ph as int);
            }
            let q0: usize = (py * g.pw as u64 + px) as usize;
            let di: usize = 4 * q0;
            if a >= 254 {
                dst[di] = src[si];
                dst[di + 1] = src[si + 1];
                dst[di + 2] = src[si + 2];
                dst[di + 3] = 255;
            } else {
                let r = blend_u8(src[si], dst[di], a);
                let gg = blend_u8(src[si + 1], dst[di + 1], a);
                let b = blend_u8(src[si + 2], dst[di + 2], a);
                dst[di] = r;
                dst[di + 1] = gg;
                dst[di + 2] = b;
                dst[di + 3] = 255;
            }
            proof {
                assert forall|q: int, c: int| 0 <= q < n_dst && 0 <= c < 4 implies
                    #[trigger] pixel_byte(dst@, q, c) == blit_byte_after(*g, old_dst, src@, k + 1, q, c) by {
                    if q == q0 {
                        assert(pixel_byte(before, q, c) == old_dst[4 * q + c]);
                    } else {
                        assert(pixel_byte(dst@, q, c) == pixel_byte(before, q, c));
                        if source_of(*g, q) == Some(k as int) {
                            lemma_source_unique(*g, q, k as int);
                        }
                    }
                }
            }
        } else {
            proof {
                assert forall|q: int, c: int| 0 <= q < n_dst && 0 <= c < 4 implies
                    #[trigger] pixel_byte(dst@, q, c) == blit_byte_after(*g, old_dst, src@, k + 1, q, c) by {
                    assert(pixel_byte(dst@, q, c) == blit_byte_after(*g, old_dst, src@, k as int, q, c));
                    if source_of(*g, q) == Some(k as int) {
                        lemma_source_unique(*g, q, k as int);
                        vstd::arithmetic::div_mod::lemma_mod_pos_bound(q, g.pw as int);
                        assert(q / (g.pw as int) < g.ph) by (nonlinear_arith)
                            requires 0 <= q < (g.pw as int) * (g.ph as int), g.pw > 0, q == (q / (g.pw as int)) * (g.pw as int) + q % (g.pw as int), 0 <= q % (g.pw as int);
                    }
                }
            }
        }
        k = k + 1;
    }
}

} // verus!
