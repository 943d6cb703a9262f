//! Icon pixel handling: choosing an X11 `_NET_WM_ICON` variant, GDI icon
//! masks, Core Graphics un-premultiplication.
use vstd::prelude::*;
use crate::types::AppIcon;

verus! {

/// The icon edge length that the list prefers.
pub const ICON_TARGET: u32 = 32;

pub open spec fn abs_diff(a: int, b: int) -> nat {
    if a >= b { (a - b) as nat } else { (b - a) as nat }
}

/// How far a `w`×`h` icon is from the preferred 32×32.
pub open spec fn icon_size_diff(w: u32, h: u32) -> nat {
    abs_diff(w as int, ICON_TARGET as int) + abs_diff(h as int, ICON_TARGET as int)
}

/// Number of pixels of the `_NET_WM_ICON` entry that starts at `off`.
pub open spec fn entry_pixels(data: Seq<u32>, off: int) -> nat {
    (data[off] as nat) * (data[off + 1] as nat)
}

/// Whether a well-formed entry (width, height, then width×height pixels)
/// starts at `off`: both sizes are non-zero and all its pixels are present.
pub open spec fn entry_fits(data: Seq<u32>, off: int) -> bool {
    &&& 0 <= off
    &&& off + 1 < data.len()
    &&& data[off] != 0
    &&& data[off + 1] != 0
    &&& off + 2 + entry_pixels(data, off) <= data.len()
}

/// Walks the entries from `off` on, keeping the first entry with the
/// smallest size difference; `best` is `(start, pixel_count, diff)` of the
/// best entry seen before `off`. The walk stops at the first entry that
/// does not fit.
spec fn best_entry_from(data: Seq<u32>, off: int, best: Option<(int, nat, nat)>) -> Option<(int, nat, nat)>
    decreases data.len() - off,
{
    if entry_fits(data, off) {
        let px = entry_pixels(data, off);
        let diff = icon_size_diff(data[off], data[off + 1]);
        let next_best = match best {
            Some(b) => if diff < b.2 { Some((off, px, diff)) } else { best },
            None => Some((off, px, diff)),
        };
        best_entry_from(data, off + 2 + px, next_best)
    } else {
        best
    }
}

/// One `0xAARRGGBB` pixel as `[r, g, b, a]`.
pub open spec fn argb_to_rgba(p: u32) -> Seq<u8> {
    seq![
        ((p >> 16u32) & 0xffu32) as u8,
        ((p >> 8u32) & 0xffu32) as u8,
        (p & 0xffu32) as u8,
        ((p >> 24u32) & 0xffu32) as u8,
    ]
}

/// A run of `0xAARRGGBB` pixels as RGBA bytes.
pub open spec fn argb_pixels_to_rgba(pixels: Seq<u32>) -> Seq<u8>
    decreases pixels.len(),
{
    if pixels.len() == 0 {
        Seq::empty()
    } else {
        argb_pixels_to_rgba(pixels.drop_last()) + argb_to_rgba(pixels.last())
    }
}

/// How far the entry that starts at `off` is from 32×32.
pub open spec fn entry_diff(data: Seq<u32>, off: int) -> nat {
    icon_size_diff(data[off], data[off + 1])
}

/// The start offsets of the well-formed entries from `off` on, in order,
/// up to the first one that does not fit.
pub open spec fn entry_starts(data: Seq<u32>, off: int) -> Seq<int>
    decreases data.len() - off,
{
    if entry_fits(data, off) {
        seq![off] + entry_starts(data, off + 2 + entry_pixels(data, off))
    } else {
        Seq::empty()
    }
}

/// `o` starts the entry closest to 32×32, and no entry before it is as
/// close.
pub open spec fn is_first_closest(data: Seq<u32>, o: int) -> bool {
    let starts = entry_starts(data, 0);
    &&& starts.contains(o)
    &&& forall|p: int| #[trigger] starts.contains(p) ==> entry_diff(data, o) <= entry_diff(data, p)
    &&& forall|p: int| #[trigger] starts.contains(p) && p < o ==> entry_diff(data, o) < entry_diff(data, p)
}

/// The icon that `_NET_WM_ICON` data yields: `(width, height, rgba)` of the
/// first entry closest to 32×32, or none when no entry is well formed.
pub open spec fn spec_icon_from_net_wm_icon(data: Seq<u32>) -> Option<(u32, u32, Seq<u8>)> {
    if entry_starts(data, 0).len() == 0 {
        None
    } else {
        let o = choose|o: int| is_first_closest(data, o);
        Some((data[o], data[o + 1], argb_pixels_to_rgba(data.subrange(o + 2, o + 2 + entry_pixels(data, o)))))
    }
}

proof fn lemma_entry_starts_after(data: Seq<u32>, off: int)
    requires
        0 <= off,
    ensures
        forall|p: int| #[trigger] entry_starts(data, off).contains(p) ==> off <= p && entry_fits(data, p),
    decreases data.len() - off,
{
    if entry_fits(data, off) {
        let next = off + 2 + entry_pixels(data, off);
        lemma_entry_starts_after(data, next);
        assert forall|p: int| #[trigger] entry_starts(data, off).contains(p) implies off <= p && entry_fits(data, p) by {
            let k = choose|k: int| 0 <= k < entry_starts(data, off).len() && entry_starts(data, off)[k] == p;
            if k > 0 {
                assert(entry_starts(data, next)[k - 1] == p);
                assert(entry_starts(data, next).contains(p));
            }
        }
    }
}

/// The walk of `best_entry_from` finds the first closest entry among
/// those from `off` on, unless the entry `best` seen before is at least as
/// close as all of them.
proof fn lemma_best_entry(data: Seq<u32>, off: int, best: Option<(int, nat, nat)>)
    requires
        0 <= off,
        best matches Some(b) ==> entry_fits(data, b.0) && b.1 == entry_pixels(data, b.0)
            && b.2 == entry_diff(data, b.0) && b.0 < off,
    ensures
        ({
            let r = best_entry_from(data, off, best);
            let starts = entry_starts(data, off);
            &&& (r is None) == (best is None && starts.len() == 0)
            &&& r matches Some(x) ==> entry_fits(data, x.0) && x.1 == entry_pixels(data, x.0) && x.2 == entry_diff(data, x.0)
            &&& r matches Some(x) ==> (r == best || starts.contains(x.0))
            &&& r matches Some(x) ==> forall|p: int| #[trigger] starts.contains(p) ==> x.2 <= entry_diff(data, p)
            &&& r matches Some(x) ==> forall|p: int| #[trigger] starts.contains(p) && p < x.0 ==> x.2 < entry_diff(data, p)
            &&& r != best ==> (best matches Some(b) ==> (r matches Some(x) && x.2 < b.2))
        }),
    decreases data.len() - off,
{
    lemma_entry_starts_after(data, off);
    if entry_fits(data, off) {
        let px = entry_pixels(data, off);
        let d = entry_diff(data, off);
        let next = off + 2 + px;
        let nb = match best {
            Some(b) => if d < b.2 { Some((off, px, d)) } else { best },
            None => Some((off, px, d)),
        };
        lemma_best_entry(data, next, nb);
        lemma_entry_starts_after(data, next);
        let starts = entry_starts(data, off);
        let rest = entry_starts(data, next);
        assert(starts == seq![off] + rest);
        assert forall|p: int| #[trigger] starts.contains(p) implies p == off || rest.contains(p) by {
            let k = choose|k: int| 0 <= k < starts.len() && starts[k] == p;
            if k > 0 {
                assert(rest[k - 1] == p);
            }
        }
        assert forall|p: int| #[trigger] rest.contains(p) implies starts.contains(p) by {
            let k = choose|k: int| 0 <= k < rest.len() && rest[k] == p;
            assert(starts[k + 1] == p);
        }
        assert(starts[0] == off);
        assert(starts.contains(off));
    }
}

/// The walk over all entries finds the first entry closest to 32×32.
proof fn lemma_walk_is_first_closest(data: Seq<u32>)
    ensures
        best_entry_from(data, 0, None) is None <==> entry_starts(data, 0).len() == 0,
        best_entry_from(data, 0, None) matches Some(x) ==> {
            &&& is_first_closest(data, x.0)
            &&& x.1 == entry_pixels(data, x.0)
            &&& (choose|o: int| is_first_closest(data, o)) == x.0
        },
{
    lemma_best_entry(data, 0, None);
    if let Some(x) = best_entry_from(data, 0, None) {
        assert(is_first_closest(data, x.0));
        let o = choose|o: int| is_first_closest(data, o);
        assert(is_first_closest(data, o));
        let starts = entry_starts(data, 0);
        if o < x.0 {
            assert(starts.contains(o));
        } else if x.0 < o {
            assert(starts.contains(x.0));
        }
    }
}

fn abs_diff_u32(a: u32, b: u32) -> (r: u32)
    ensures
        r == abs_diff(a as int, b as int),
{
    if a >= b { a - b } else { b - a }
}

/// Builds the window icon from the 32-bit items of the window's
/// `_NET_WM_ICON` property (a list of entries: width, height, then
/// width×height `0xAARRGGBB` pixels). Picks the entry closest to 32×32.
pub fn extract_icon_by_window(data: &Vec<u32>) -> (r: Option<AppIcon>)
    ensures
        match spec_icon_from_net_wm_icon(data@) {
            Some(t) => r matches Some(icon) && icon.width == t.0 && icon.height == t.1 && icon.rgba@ == t.2,
            None => r is None,
        },
{
    let len = data.len();
    if len < 2 {
        return None;
    }
    let mut best: Option<(usize, usize, u64)> = None;
    let mut off: usize = 0;
    let ghost gbest: Option<(int, nat, nat)> = None;
    while off < len - 1
        invariant
            len == data@.len(),
            len >= 2,
            off <= len,
            best_entry_from(data@, 0, None) == best_entry_from(data@, off as int, gbest),
            gbest matches Some(b) ==> entry_fits(data@, b.0) && b.1 == entry_pixels(data@, b.0),
            match best {
                Some(b) => gbest == Some((b.0 as int, b.1 as nat, b.2 as nat)),
                None => gbest is None,
            },
        ensures
            off <= len,
            !entry_fits(data@, off as int),
            best_entry_from(data@, 0, None) == gbest,
            gbest matches Some(b) ==> entry_fits(data@, b.0) && b.1 == entry_pixels(data@, b.0),
            match best {
                Some(b) => gbest == Some((b.0 as int, b.1 as nat, b.2 as nat)),
                None => gbest is None,
            },
        decreases len - off,
    {
        let w = data[off];
        let h = data[off + 1];
        assert((w as u64) * (h as u64) <= 0xffff_ffffu64 * 0xffff_ffffu64) by (nonlinear_arith);
        let px: u64 = (w as u64) * (h as u64);
        if w == 0 || h == 0 || px > (len - off - 2) as u64 {
            proof {
                assert(!entry_fits(data@, off as int));
            }
            break;
        }
        let px = px as usize;
        let diff: u64 = abs_diff_u32(w, ICON_TARGET) as u64 + abs_diff_u32(h, ICON_TARGET) as u64;
        let replace = match best {
            Some(b) => diff < b.2,
            None => true,
        };
        proof {
            assert(entry_fits(data@, off as int));
            assert(px == entry_pixels(data@, off as int));
        }
        if replace {
            best = Some((off, px, diff));
            proof { gbest = Some((off as int, px as nat, diff as nat)); }
        }
        off = off + 2 + px;
    }
    assert(best_entry_from(data@, off as int, gbest) == gbest);
    proof {
        lemma_walk_is_first_closest(data@);
    }
    match best {
        None => None,
        Some((start, pixel_count, _)) => {
            let w = data[start];
            let h = data[start + 1];
            let pixels_start = start + 2;
            let mut rgba: Vec<u8> = Vec::new();
            let mut i: usize = 0;
            while i < pixel_count
                invariant
                    len == data@.len(),
                    pixels_start + pixel_count <= data@.len(),
                    i <= pixel_count,
                    rgba@ == argb_pixels_to_rgba(data@.subrange(pixels_start as int, pixels_start + i)),
                decreases pixel_count - i,
            {
                let idx = pixels_start + i;
                let p = data[idx];
                rgba.push(((p >> 16u32) & 0xffu32) as u8);
                rgba.push(((p >> 8u32) & 0xffu32) as u8);
                rgba.push((p & 0xffu32) as u8);
                rgba.push(((p >> 24u32) & 0xffu32) as u8);
                proof {
                    let s = data@.subrange(pixels_start as int, pixels_start + i + 1);
                    assert(s.drop_last() =~= data@.subrange(pixels_start as int, pixels_start + i));
                    assert(s.last() == p);
                }
                i = i + 1;
            }
            Some(AppIcon { rgba, width: w, height: h })
        }
    }
}


/// Largest edge of a Win32 icon that is converted.
pub const MAX_GDI_ICON_EDGE: u32 = 256;

/// Whether a GDI icon bitmap of `w`×`h` is converted (non-empty, at most
/// 256 on each side).
pub fn gdi_icon_size_ok(w: u32, h: u32) -> (r: bool)
    ensures
        r == (w != 0 && h != 0 && w <= MAX_GDI_ICON_EDGE && h <= MAX_GDI_ICON_EDGE),
{
    !(w == 0 || h == 0 || w > MAX_GDI_ICON_EDGE || h > MAX_GDI_ICON_EDGE)
}

/// Bytes per row of a 1-bit-per-pixel DIB `w` pixels wide (rows padded to
/// 32 bits).
pub open spec fn spec_mask_row_stride(w: nat) -> nat {
    ((w + 31) / 32) * 4
}

pub fn mask_row_stride(w: u32) -> (r: u32)
    requires
        w <= MAX_GDI_ICON_EDGE,
    ensures
        r == spec_mask_row_stride(w as nat),
{
    ((w + 31) / 32) * 4
}

/// Whether the AND mask marks pixel `(x, y)` transparent (most significant
/// bit first within each byte).
pub open spec fn mask_bit(mask: Seq<u8>, stride: nat, x: nat, y: nat) -> bool {
    (mask[(y * stride + x / 8) as int] & (1u8 << ((7 - x % 8) as u8))) != 0
}

/// Pixel `p` of a GDI icon: BGRA becomes RGBA, and the alpha is cleared
/// where the (non-empty) AND mask marks the pixel transparent.
pub open spec fn gdi_icon_pixel(bgra: Seq<u8>, mask: Seq<u8>, w: nat, has_mask: bool, p: nat) -> Seq<u8> {
    let alpha = if has_mask && mask_bit(mask, spec_mask_row_stride(w), p % w, p / w) {
        0u8
    } else {
        bgra[4 * p as int + 3]
    };
    seq![bgra[4 * p as int + 2], bgra[4 * p as int + 1], bgra[4 * p as int], alpha]
}

/// The first `n` pixels of a GDI icon, converted.
pub open spec fn gdi_icon_pixels(bgra: Seq<u8>, mask: Seq<u8>, w: nat, has_mask: bool, n: nat) -> Seq<u8>
    decreases n,
{
    if n == 0 {
        Seq::empty()
    } else {
        gdi_icon_pixels(bgra, mask, w, has_mask, (n - 1) as nat) + gdi_icon_pixel(bgra, mask, w, has_mask, (n - 1) as nat)
    }
}

/// Whether any byte of the mask is set.
pub open spec fn any_nonzero(mask: Seq<u8>) -> bool {
    exists|i: int| 0 <= i < mask.len() && mask[i] != 0
}

proof fn lemma_mask_index(w: nat, h: nat, p: nat)
    requires
        0 < w,
        p < w * h,
    ensures
        p / w < h,
        (p / w) * spec_mask_row_stride(w) + (p % w) / 8 < spec_mask_row_stride(w) * h,
        w <= 256 && h <= 256 ==> spec_mask_row_stride(w) * h <= 36 * 256,
{
    let y = p / w;
    let x = p % w;
    let s = spec_mask_row_stride(w);
    vstd::arithmetic::div_mod::lemma_fundamental_div_mod(p as int, w as int);
    vstd::arithmetic::div_mod::lemma_mod_pos_bound(p as int, w as int);
    assert(p == w * y + x && x < w);
    assert(y < h) by (nonlinear_arith)
        requires p == w * y + x, p < w * h, 0 <= x, 0 < w;
    assert(x / 8 < s) by (nonlinear_arith)
        requires x < w, s == ((w + 31) / 32) * 4;
    assert(y * s + x / 8 < s * h) by (nonlinear_arith)
        requires y < h, x / 8 < s, 0 <= y;
    if w <= 256 && h <= 256 {
        assert(s <= 36);
        assert(s * h <= 36 * 256) by (nonlinear_arith)
            requires s <= 36, h <= 256;
    }
}

/// Turns the pixels that `GetDIBits` produced for a GDI icon (32-bit BGRA,
/// top-down, `w`×`h`) into straight RGBA, applying the 1-bit AND mask
/// when any of its bits is set.
pub fn gdi_icon_to_rgba(bgra: &Vec<u8>, mask: &Vec<u8>, w: u32, h: u32) -> (r: Vec<u8>)
    requires
        0 < w <= MAX_GDI_ICON_EDGE,
        0 < h <= MAX_GDI_ICON_EDGE,
        bgra@.len() == (w as nat) * (h as nat) * 4,
        mask@.len() == spec_mask_row_stride(w as nat) * (h as nat),
    ensures
        r@ == gdi_icon_pixels(bgra@, mask@, w as nat, any_nonzero(mask@), (w as nat) * (h as nat)),
{
    let mut has_mask = false;
    let mut i: usize = 0;
    while i < mask.len()
        invariant
            i <= mask@.len(),
            has_mask == exists|j: int| 0 <= j < i && mask@[j] != 0,
        decreases mask@.len() - i,
    {
        if mask[i] != 0 {
            has_mask = true;
        }
        i = i + 1;
    }
    let stride = mask_row_stride(w);
    assert((w as nat) * (h as nat) <= 256 * 256) by (nonlinear_arith)
        requires w <= 256, h <= 256;
    let n: usize = (w as usize) * (h as usize);
    let mut out: Vec<u8> = Vec::new();
    let mut p: usize = 0;
    while p < n
        invariant
            0 < w <= MAX_GDI_ICON_EDGE,
            0 < h <= MAX_GDI_ICON_EDGE,
            n == (w as nat) * (h as nat),
            n <= 256 * 256,
            bgra@.len() == n * 4,
            stride == spec_mask_row_stride(w as nat),
            mask@.len() == stride * (h as nat),
            has_mask == any_nonzero(mask@),
            p <= n,
            out@ == gdi_icon_pixels(bgra@, mask@, w as nat, has_mask, p as nat),
        decreases n - p,
    {
        let x: usize = p % (w as usize);
        let y: usize = p / (w as usize);
        proof {
            lemma_mask_index(w as nat, h as nat, p as nat);
        }
        let base = 4 * p;
        let mut alpha = bgra[base + 3];
        if has_mask {
            let byte_idx = y * (stride as usize) + x / 8;
            let bit: u8 = 1u8 << ((7 - x % 8) as u8);
            if mask[byte_idx] & bit != 0 {
                alpha = 0;
            }
        }
        out.push(bgra[base + 2]);
        out.push(bgra[base + 1]);
        out.push(bgra[base]);
        out.push(alpha);
        p = p + 1;
    }
    out
}

/// Largest edge of a Core Graphics image that is converted.
pub const MAX_CG_IMAGE_EDGE: usize = 4096;
/// Edge of the square that larger icons are scaled down to.
pub const CG_ICON_TARGET: usize = 64;

/// The size that an `src_w`×`src_h` icon image is drawn at: none for an
/// empty or oversized image, 64×64 when either edge exceeds 64, else its
/// own size.
pub fn cg_icon_target_size(src_w: usize, src_h: usize) -> (r: Option<(usize, usize)>)
    ensures
        r == (if src_w == 0 || src_h == 0 || src_w > MAX_CG_IMAGE_EDGE || src_h > MAX_CG_IMAGE_EDGE {
            None
        } else if src_w > CG_ICON_TARGET || src_h > CG_ICON_TARGET {
            Some((CG_ICON_TARGET, CG_ICON_TARGET))
        } else {
            Some((src_w, src_h))
        }),
{
    if src_w == 0 || src_h == 0 {
        return None;
    }
    if src_w > MAX_CG_IMAGE_EDGE || src_h > MAX_CG_IMAGE_EDGE {
        return None;
    }
    if src_w > CG_ICON_TARGET || src_h > CG_ICON_TARGET {
        Some((CG_ICON_TARGET, CG_ICON_TARGET))
    } else {
        Some((src_w, src_h))
    }
}

/// One colour channel of a premultiplied pixel with alpha `a`, made
/// straight: `min(255, c * 255 / a)` for a partly transparent pixel,
/// unchanged for a fully transparent or opaque one.
pub open spec fn unpremultiply_channel(c: u8, a: u8) -> u8 {
    if 0 < a < 255 {
        let v = (c as nat * 255) / (a as nat);
        if v > 255 { 255u8 } else { v as u8 }
    } else {
        c
    }
}

/// The first `n` pixels of a premultiplied RGBA buffer, made straight.
pub open spec fn unpremultiplied(rgba: Seq<u8>, n: nat) -> Seq<u8>
    decreases n,
{
    if n == 0 {
        Seq::empty()
    } else {
        let p = (n - 1) as nat;
        let a = rgba[4 * p as int + 3];
        unpremultiplied(rgba, p) + seq![
            unpremultiply_channel(rgba[4 * p as int], a),
            unpremultiply_channel(rgba[4 * p as int + 1], a),
            unpremultiply_channel(rgba[4 * p as int + 2], a),
            a,
        ]
    }
}

fn unpremultiply_u8(c: u8, a: u8) -> (r: u8)
    ensures
        r == unpremultiply_channel(c, a),
{
    if a > 0 && a < 255 {
        let v: u16 = (c as u16 * 255) / (a as u16);
        if v > 255 { 255 } else { v as u8 }
    } else {
        c
    }
}

/// Turns the premultiplied RGBA that Core Graphics drew into straight RGBA.
pub fn unpremultiply_rgba(rgba: &Vec<u8>) -> (r: Vec<u8>)
    requires
        rgba@.len() % 4 == 0,
    ensures
        r@ == unpremultiplied(rgba@, rgba@.len() / 4),
{
    let len = rgba.len();
    let n = len / 4;
    let mut out: Vec<u8> = Vec::new();
    let mut p: usize = 0;
    while p < n
        invariant
            len == rgba@.len(),
            n == rgba@.len() / 4,
            rgba@.len() % 4 == 0,
            p <= n,
            out@ == unpremultiplied(rgba@, p as nat),
        decreases n - p,
    {
        assert(4 * p + 3 < rgba@.len()) by (nonlinear_arith)
            requires p < n, n == rgba@.len() / 4, rgba@.len() % 4 == 0;
        let a = rgba[4 * p + 3];
        out.push(unpremultiply_u8(rgba[4 * p], a));
        out.push(unpremultiply_u8(rgba[4 * p + 1], a));
        out.push(unpremultiply_u8(rgba[4 * p + 2], a));
        out.push(a);
        p = p + 1;
    }
    out
}

/// On this platform executables carry no icon that can be read from their
/// path: always none (window icons come from `extract_icon_by_window`).
pub fn extract_exe_icon(exe_path: &str) -> (r: Option<AppIcon>)
    ensures
        r is None,
{
    None
}

} // verus!
