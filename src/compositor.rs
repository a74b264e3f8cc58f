//! Compositing of captured windows into one preview canvas, and hit-testing
//! of the canvas's click regions.
use vstd::prelude::*;
use crate::capture::{CaptureResult, WindowThumbnail};
use vstd::arithmetic::div_mod::{
    lemma_div_is_ordered,
    lemma_div_multiples_vanish,
    lemma_fundamental_div_mod_converse_div,
    lemma_fundamental_div_mod_converse_mod,
};

verus! {

/// Index arithmetic of a packed image of `w` pixels per row, four bytes per
/// pixel: byte `c` of pixel `(x, y)` stands at `(y * w + x) * 4 + c`, and the
/// index gives the three back.
pub proof fn lemma_pixel_index(x: int, y: int, c: int, w: int)
    requires
        0 <= x < w,
        0 <= y,
        0 <= c < 4,
    ensures
        ((y * w + x) * 4 + c) / 4 == y * w + x,
        ((y * w + x) * 4 + c) % 4 == c,
        (y * w + x) % w == x,
        (y * w + x) / w == y,
{
    let q = y * w + x;
    lemma_fundamental_div_mod_converse_div(q * 4 + c, 4, q, c);
    lemma_fundamental_div_mod_converse_mod(q * 4 + c, 4, q, c);
    lemma_fundamental_div_mod_converse_div(q, w, y, x);
    lemma_fundamental_div_mod_converse_mod(q, w, y, x);
}

/// A nearest-neighbour source index `i * s / d`, for `i < d`, stays within
/// `0..=s`.
proof fn lemma_nearest_index(i: int, s: int, d: int)
    requires
        0 <= i < d,
        0 <= s,
    ensures
        0 <= i * s / d <= s,
{
    assert(0 <= i * s <= d * s) by (nonlinear_arith)
        requires
            0 <= i < d,
            0 <= s,
    ;
    lemma_div_is_ordered(i * s, d * s, d);
    lemma_div_is_ordered(0, i * s, d);
    lemma_div_multiples_vanish(s, d);
}

/// Byte `c` of destination pixel `(dx, dy)` when an image of `sw` by `sh`
/// pixels, rows `ss` bytes apart, is resized to `dw` by `dh` by nearest
/// neighbour: the source pixel `(dx * sw / dw, dy * sh / dh)`, or zero where
/// that pixel lies beyond the source buffer.
pub open spec fn sample_byte(
    src: Seq<u8>,
    sw: int,
    sh: int,
    ss: int,
    dw: int,
    dh: int,
    dx: int,
    dy: int,
    c: int,
) -> u8 {
    let sx = dx * sw / dw;
    let sy = dy * sh / dh;
    let off = sy * ss + sx * 4;
    if off + 4 <= src.len() {
        src[off + c]
    } else {
        0
    }
}

/// Byte `j` of the packed nearest-neighbour resize described by `sample_byte`.
pub open spec fn downscaled_byte(
    src: Seq<u8>,
    sw: int,
    sh: int,
    ss: int,
    dw: int,
    dh: int,
    j: int,
) -> u8 {
    sample_byte(src, sw, sh, ss, dw, dh, (j / 4) % dw, (j / 4) / dw, j % 4)
}

/// Nearest-neighbour resize of 32-bit pixels to `dst_w` by `dst_h`, packed
/// with rows of `dst_w * 4` bytes. Returns the pixels and their row stride.
pub fn downscale_nearest(
    src: &[u8],
    src_w: u32,
    src_h: u32,
    src_stride: u32,
    dst_w: u32,
    dst_h: u32,
) -> (r: (Vec<u8>, usize))
    requires
        dst_w as int * dst_h as int * 4 <= usize::MAX,
        dst_w as int * 4 <= usize::MAX,
    ensures
        r.1 == dst_w as int * 4,
        r.0@.len() == dst_w as int * dst_h as int * 4,
        forall|j: int|
            0 <= j < r.0@.len() ==> r.0@[j] == downscaled_byte(
                src@,
                src_w as int,
                src_h as int,
                src_stride as int,
                dst_w as int,
                dst_h as int,
                j,
            ),
{
    let dst_stride = dst_w as usize * 4;
    let mut dst: Vec<u8> = Vec::new();
    let ghost sw = src_w as int;
    let ghost sh = src_h as int;
    let ghost ss = src_stride as int;
    let ghost dw = dst_w as int;
    let ghost dh = dst_h as int;
    let mut dy: u32 = 0;
    while dy < dst_h
        invariant
            dy <= dst_h,
            sw == src_w as int && sh == src_h as int && ss == src_stride as int,
            dw == dst_w as int && dh == dst_h as int,
            dw * dh * 4 <= usize::MAX,
            dst@.len() == dy as int * dw * 4,
            forall|j: int|
                0 <= j < dst@.len() ==> dst@[j] == downscaled_byte(src@, sw, sh, ss, dw, dh, j),
        decreases dst_h - dy,
    {
        proof {
            lemma_nearest_index(dy as int, sh, dh);
            assert(dy as int * sh <= u64::MAX) by (nonlinear_arith)
                requires
                    dy <= u32::MAX,
                    sh <= u32::MAX,
            ;
        }
        let sy: u128 = dy as u128 * src_h as u128 / dst_h as u128;
        let mut dx: u32 = 0;
        while dx < dst_w
            invariant
                dy < dst_h,
                dx <= dst_w,
                sw == src_w as int && sh == src_h as int && ss == src_stride as int,
                dw == dst_w as int && dh == dst_h as int,
                dw * dh * 4 <= usize::MAX,
                sy as int == dy as int * sh / dh,
                sy <= sh,
                dst@.len() == (dy as int * dw + dx as int) * 4,
                forall|j: int|
                    0 <= j < dst@.len() ==> dst@[j] == downscaled_byte(
                        src@,
                        sw,
                        sh,
                        ss,
                        dw,
                        dh,
                        j,
                    ),
            decreases dst_w - dx,
        {
            proof {
                lemma_nearest_index(dx as int, sw, dw);
                assert(dx as int * sw <= u64::MAX) by (nonlinear_arith)
                    requires
                        dx <= u32::MAX,
                        sw <= u32::MAX,
                ;
                assert(sy as int * ss <= u64::MAX) by (nonlinear_arith)
                    requires
                        sy <= u32::MAX,
                        ss <= u32::MAX,
                ;
            }
            let sx: u128 = dx as u128 * src_w as u128 / dst_w as u128;
            let src_off: u128 = sy * src_stride as u128 + sx * 4;
            let ghost base = dst@.len() as int;
            proof {
                assert(dy as int * dw + dx as int + 1 <= dh * dw) by (nonlinear_arith)
                    requires
                        dy < dh,
                        dx < dw,
                ;
                assert((dy as int * dw + dx as int) * 4 + 4 <= dw * dh * 4) by (nonlinear_arith)
                    requires
                        dy as int * dw + dx as int + 1 <= dh * dw,
                ;
                assert forall|c: int| 0 <= c < 4 implies downscaled_byte(
                    src@,
                    sw,
                    sh,
                    ss,
                    dw,
                    dh,
                    base + c,
                ) == sample_byte(src@, sw, sh, ss, dw, dh, dx as int, dy as int, c) by {
                    lemma_pixel_index(dx as int, dy as int, c, dw);
                }
            }
            let ghost before = dst@;
            let px: [u8; 4] = if src_off + 4 <= src.len() as u128 {
                let o = src_off as usize;
                [src[o], src[o + 1], src[o + 2], src[o + 3]]
            } else {
                [0, 0, 0, 0]
            };
            assert forall|c: int| 0 <= c < 4 implies px@[c] == sample_byte(
                src@,
                sw,
                sh,
                ss,
                dw,
                dh,
                dx as int,
                dy as int,
                c,
            ) by {}
            dst.push(px[0]);
            dst.push(px[1]);
            dst.push(px[2]);
            dst.push(px[3]);
            assert(dst@ =~= before + px@);
            dx = dx + 1;
        }
        assert((dy as int * dw + dw) * 4 == (dy as int + 1) * dw * 4) by (nonlinear_arith);
        dy = dy + 1;
    }
    assert(dst@.len() == dw * dh * 4) by (nonlinear_arith)
        requires
            dst@.len() == dh * dw * 4,
    ;
    (dst, dst_stride)
}

/// A clickable rectangle of the canvas, in canvas pixels, and the window that
/// a click there focuses.
pub struct ClickRegion {
    pub x: u32,
    pub y: u32,
    pub w: u32,
    pub h: u32,
    pub address: String,
}

/// A finished preview: packed 32-bit pixels, `stride` bytes per row, and one
/// click region per captured window, in the order of the windows.
pub struct Composite {
    pub pixels: Vec<u8>,
    pub width: u32,
    pub height: u32,
    pub stride: usize,
    pub regions: Vec<ClickRegion>,
}

/// `v * num / den` rounded to the nearest integer (halves up), and at least one.
pub open spec fn scaled_extent(v: int, num: int, den: int) -> int {
    let r = (2 * v * num + den) / (2 * den);
    if r < 1 {
        1
    } else {
        r
    }
}

/// `v * num / den` truncated toward zero.
pub open spec fn scaled_offset(v: int, num: int, den: int) -> int {
    if v >= 0 {
        v * num / den
    } else {
        -((-v) * num / den)
    }
}

/// The canvas height for a canvas `cw` wide: the monitor's aspect ratio kept,
/// and at least one.
pub open spec fn canvas_height(monitor_height: int, cw: int, mw: int) -> int {
    let h = monitor_height * cw / mw;
    if h < 1 {
        1
    } else {
        h
    }
}

pub open spec fn clamp_to(v: int, hi: int) -> int {
    if v < 0 {
        0
    } else if v > hi {
        hi
    } else {
        v
    }
}

/// Scaled width of a window on a canvas `cw` wide for a monitor `mw` wide.
pub open spec fn dest_w(t: WindowThumbnail, cw: int, mw: int) -> int {
    scaled_extent(t.win_width as int, cw, mw)
}

pub open spec fn dest_h(t: WindowThumbnail, cw: int, mw: int) -> int {
    scaled_extent(t.win_height as int, cw, mw)
}

/// Scaled position of a window's top-left corner on the canvas.
pub open spec fn dest_x(t: WindowThumbnail, cw: int, mw: int) -> int {
    scaled_offset(t.x as int, cw, mw)
}

pub open spec fn dest_y(t: WindowThumbnail, cw: int, mw: int) -> int {
    scaled_offset(t.y as int, cw, mw)
}

/// The window's scaled rectangle clipped to a canvas of `cw` by `ch`:
/// columns `region_x0..region_x1`, rows `region_y0..region_y1`.
pub open spec fn region_x0(t: WindowThumbnail, cw: int, mw: int) -> int {
    clamp_to(dest_x(t, cw, mw), cw)
}

pub open spec fn region_x1(t: WindowThumbnail, cw: int, mw: int) -> int {
    clamp_to(dest_x(t, cw, mw) + dest_w(t, cw, mw), cw)
}

pub open spec fn region_y0(t: WindowThumbnail, cw: int, mw: int, ch: int) -> int {
    clamp_to(dest_y(t, cw, mw), ch)
}

pub open spec fn region_y1(t: WindowThumbnail, cw: int, mw: int, ch: int) -> int {
    clamp_to(dest_y(t, cw, mw) + dest_h(t, cw, mw), ch)
}

pub open spec fn covers(t: WindowThumbnail, cw: int, mw: int, ch: int, px: int, py: int) -> bool {
    region_x0(t, cw, mw) <= px < region_x1(t, cw, mw) && region_y0(t, cw, mw, ch) <= py
        < region_y1(t, cw, mw, ch)
}

/// Byte `c` of canvas pixel `(px, py)` once the first `n` windows are drawn in
/// order: the topmost window that covers the pixel gives its colour bytes from
/// its resized image, and an opaque alpha; where none covers it, zero.
pub open spec fn composite_byte(
    ts: Seq<WindowThumbnail>,
    n: int,
    cw: int,
    mw: int,
    ch: int,
    px: int,
    py: int,
    c: int,
) -> u8
    decreases n,
{
    if n <= 0 {
        0
    } else if covers(ts[n - 1], cw, mw, ch, px, py) {
        if c == 3 {
            255
        } else {
            let t = ts[n - 1];
            sample_byte(
                t.data@,
                t.width as int,
                t.height as int,
                t.stride as int,
                dest_w(t, cw, mw),
                dest_h(t, cw, mw),
                px - dest_x(t, cw, mw),
                py - dest_y(t, cw, mw),
                c,
            )
        }
    } else {
        composite_byte(ts, n - 1, cw, mw, ch, px, py, c)
    }
}

/// Whether a window's resized image can be held in memory.
pub open spec fn thumbnail_fits(t: WindowThumbnail, cw: int, mw: int) -> bool {
    &&& dest_w(t, cw, mw) <= u32::MAX
    &&& dest_h(t, cw, mw) <= u32::MAX
    &&& dest_w(t, cw, mw) * dest_h(t, cw, mw) * 4 <= usize::MAX
    &&& dest_w(t, cw, mw) * 4 <= usize::MAX
}

/// Whether `r` can be composited onto a canvas `cw` wide: its monitor has a
/// width, and the canvas and every resized window can be held in memory.
pub open spec fn composable(r: CaptureResult, cw: int) -> bool {
    let mw = r.monitor_width as int;
    &&& mw > 0
    &&& canvas_height(r.monitor_height as int, cw, mw) <= u32::MAX
    &&& cw * canvas_height(r.monitor_height as int, cw, mw) * 4 <= usize::MAX
    &&& forall|k: int|
        0 <= k < r.thumbnails@.len() ==> thumbnail_fits(#[trigger] r.thumbnails@[k], cw, mw)
}

/// The click region recorded for window `t`: its clipped scaled rectangle.
pub open spec fn region_matches(g: ClickRegion, t: WindowThumbnail, cw: int, mw: int, ch: int) -> bool {
    &&& g.x == region_x0(t, cw, mw)
    &&& g.y == region_y0(t, cw, mw, ch)
    &&& g.w == region_x1(t, cw, mw) - region_x0(t, cw, mw)
    &&& g.h == region_y1(t, cw, mw, ch) - region_y0(t, cw, mw, ch)
    &&& g.address@ == t.address@
}

/// `out` is the composite of `r` on a canvas `cw` wide.
pub open spec fn composite_of(out: Composite, r: CaptureResult, cw: int) -> bool {
    let mw = r.monitor_width as int;
    let ch = canvas_height(r.monitor_height as int, cw, mw);
    let ts = r.thumbnails@;
    &&& out.width == cw
    &&& out.height == ch
    &&& out.stride == cw * 4
    &&& out.pixels@.len() == cw * ch * 4
    &&& forall|j: int|
        0 <= j < out.pixels@.len() ==> #[trigger] out.pixels@[j] == composite_byte(
            ts,
            ts.len() as int,
            cw,
            mw,
            ch,
            (j / 4) % cw,
            (j / 4) / cw,
            j % 4,
        )
    &&& out.regions@.len() == ts.len()
    &&& forall|k: int|
        0 <= k < ts.len() ==> region_matches(#[trigger] out.regions@[k], ts[k], cw, mw, ch)
}

fn scale_extent(v: i32, num: u32, den: u32) -> (r: u128)
    requires
        den > 0,
    ensures
        r == scaled_extent(v as int, num as int, den as int),
{
    if v <= 0 {
        assert(2 * v * num + den < 2 * den) by (nonlinear_arith)
            requires
                v <= 0,
                num >= 0,
                den > 0,
        ;
        assert((2 * v * num + den) / (2 * den) < 1) by (nonlinear_arith)
            requires
                2 * v * num + den < 2 * den,
                den > 0,
        ;
        return 1;
    }
    assert(2 * v * num <= 2 * 0x8000_0000 * 0x1_0000_0000) by (nonlinear_arith)
        requires
            0 < v <= 0x8000_0000,
            0 <= num <= 0x1_0000_0000,
    ;
    let q = (2 * (v as u128) * (num as u128) + den as u128) / (2 * den as u128);
    if q < 1 {
        1
    } else {
        q
    }
}

fn scale_offset(v: i32, num: u32, den: u32) -> (r: i128)
    requires
        den > 0,
    ensures
        r == scaled_offset(v as int, num as int, den as int),
        -0x8000_0000 * 0x1_0000_0000 <= r <= 0x8000_0000 * 0x1_0000_0000,
{
    let a: u128 = if v >= 0 {
        v as u128
    } else {
        (-(v as i128)) as u128
    };
    assert(a * num <= 0x8000_0000 * 0x1_0000_0000) by (nonlinear_arith)
        requires
            0 <= a <= 0x8000_0000,
            0 <= num <= 0x1_0000_0000,
    ;
    let q = a * num as u128 / den as u128;
    assert(q <= a * num) by (nonlinear_arith)
        requires
            q == (a * num) as int / (den as int),
            den > 0,
            a * num >= 0,
    ;
    if v >= 0 {
        q as i128
    } else {
        -(q as i128)
    }
}

fn clamp_u32(v: i128, hi: u32) -> (r: u32)
    ensures
        r == clamp_to(v as int, hi as int),
{
    if v < 0 {
        0
    } else if v > hi as i128 {
        hi
    } else {
        v as u32
    }
}

/// Where a window lands on the canvas, as computed for drawing.
struct Placement {
    x: i128,
    y: i128,
    w: u32,
    h: u32,
    x0: u32,
    x1: u32,
    y0: u32,
    y1: u32,
}

spec fn placement_of(p: Placement, t: WindowThumbnail, cw: int, mw: int, ch: int) -> bool {
    &&& p.x == dest_x(t, cw, mw)
    &&& p.y == dest_y(t, cw, mw)
    &&& p.w == dest_w(t, cw, mw)
    &&& p.h == dest_h(t, cw, mw)
    &&& p.x0 == region_x0(t, cw, mw)
    &&& p.x1 == region_x1(t, cw, mw)
    &&& p.y0 == region_y0(t, cw, mw, ch)
    &&& p.y1 == region_y1(t, cw, mw, ch)
}

/// `img` is window `t` resized to its scaled size.
spec fn resized_image_of(img: Seq<u8>, t: WindowThumbnail, cw: int, mw: int) -> bool {
    let w = dest_w(t, cw, mw);
    let h = dest_h(t, cw, mw);
    &&& img.len() == w * h * 4
    &&& forall|j: int|
        0 <= j < img.len() ==> #[trigger] img[j] == downscaled_byte(
            t.data@,
            t.width as int,
            t.height as int,
            t.stride as int,
            w,
            h,
            j,
        )
}

/// The four bytes of canvas pixel `(px, py)`.
fn canvas_pixel(
    result: &CaptureResult,
    cw: u32,
    ch: u32,
    places: &Vec<Placement>,
    images: &Vec<Vec<u8>>,
    px: u32,
    py: u32,
) -> (r: [u8; 4])
    requires
        result.monitor_width > 0,
        px < cw,
        py < ch,
        places@.len() == result.thumbnails@.len(),
        images@.len() == result.thumbnails@.len(),
        forall|k: int|
            0 <= k < places@.len() ==> placement_of(
                #[trigger] places@[k],
                result.thumbnails@[k],
                cw as int,
                result.monitor_width as int,
                ch as int,
            ),
        forall|k: int|
            0 <= k < images@.len() ==> resized_image_of(
                #[trigger] images@[k]@,
                result.thumbnails@[k],
                cw as int,
                result.monitor_width as int,
            ),
        forall|k: int|
            0 <= k < result.thumbnails@.len() ==> thumbnail_fits(
                #[trigger] result.thumbnails@[k],
                cw as int,
                result.monitor_width as int,
            ),
    ensures
        forall|c: int|
            0 <= c < 4 ==> r@[c] == composite_byte(
                result.thumbnails@,
                result.thumbnails@.len() as int,
                cw as int,
                result.monitor_width as int,
                ch as int,
                px as int,
                py as int,
                c,
            ),
{
    let ghost ts = result.thumbnails@;
    let ghost n = ts.len() as int;
    let ghost mw = result.monitor_width as int;
    let mut k = places.len();
    while k > 0
        invariant
            k <= n,
            n == ts.len(),
            ts == result.thumbnails@,
            mw == result.monitor_width as int,
            places@.len() == n,
            images@.len() == n,
            forall|j: int|
                0 <= j < n ==> placement_of(#[trigger] places@[j], ts[j], cw as int, mw, ch as int),
            forall|j: int|
                0 <= j < n ==> resized_image_of(#[trigger] images@[j]@, ts[j], cw as int, mw),
            forall|j: int| 0 <= j < n ==> thumbnail_fits(#[trigger] ts[j], cw as int, mw),
            forall|c: int|
                0 <= c < 4 ==> composite_byte(ts, n, cw as int, mw, ch as int, px as int, py as int, c)
                    == composite_byte(ts, k as int, cw as int, mw, ch as int, px as int, py as int, c),
        decreases k,
    {
        let p = &places[k - 1];
        let ghost t = ts[k - 1];
        assert(placement_of(*p, t, cw as int, mw, ch as int));
        if p.x0 <= px && px < p.x1 && p.y0 <= py && py < p.y1 {
            let col = (px as i128 - p.x) as usize;
            let row = (py as i128 - p.y) as usize;
            assert(thumbnail_fits(t, cw as int, mw));
            assert(row * p.w + col + 1 <= p.w * p.h) by (nonlinear_arith)
                requires
                    row < p.h,
                    col < p.w,
            ;
            assert((row * p.w + col) * 4 + 4 <= p.w * p.h * 4) by (nonlinear_arith)
                requires
                    row * p.w + col + 1 <= p.w * p.h,
            ;
            let i = (row * p.w as usize + col) * 4;
            let img = &images[k - 1];
            assert(resized_image_of(img@, t, cw as int, mw));
            proof {
                assert forall|c: int| 0 <= c < 3 implies img@[i + c] == sample_byte(
                    t.data@,
                    t.width as int,
                    t.height as int,
                    t.stride as int,
                    p.w as int,
                    p.h as int,
                    col as int,
                    row as int,
                    c,
                ) by {
                    lemma_pixel_index(col as int, row as int, c, p.w as int);
                }
            }
            return [img[i], img[i + 1], img[i + 2], 255];
        }
        k = k - 1;
    }
    [0, 0, 0, 0]
}

/// Composites the windows of `result` onto a canvas `canvas_width` pixels
/// wide that keeps the monitor's aspect ratio, and records where each window
/// landed. Windows are drawn in order, so a later one covers an earlier one.
/// `None` when the monitor has no width or the images would not fit in
/// memory.
pub fn composite(result: &CaptureResult, canvas_width: u32) -> (r: Option<Composite>)
    ensures
        r.is_some() == composable(*result, canvas_width as int),
        r matches Some(out) ==> composite_of(out, *result, canvas_width as int),
{
    if result.monitor_width == 0 {
        return None;
    }
    let cw = canvas_width;
    let mw = result.monitor_width;
    let ghost ts = result.thumbnails@;
    let ghost n = ts.len() as int;
    assert(result.monitor_height as int * cw <= u64::MAX) by (nonlinear_arith)
        requires
            result.monitor_height <= u32::MAX,
            cw <= u32::MAX,
    ;
    let h = result.monitor_height as u128 * cw as u128 / mw as u128;
    let ch128: u128 = if h < 1 {
        1
    } else {
        h
    };
    if ch128 > u32::MAX as u128 {
        return None;
    }
    let ch = ch128 as u32;
    assert(cw as int * ch as int * 4 <= u32::MAX * u32::MAX * 4) by (nonlinear_arith)
        requires
            cw <= u32::MAX,
            ch <= u32::MAX,
    ;
    if cw as u128 * ch as u128 * 4 > usize::MAX as u128 {
        return None;
    }
    let mut places: Vec<Placement> = Vec::new();
    let mut images: Vec<Vec<u8>> = Vec::new();
    let mut regions: Vec<ClickRegion> = Vec::new();
    let mut k: usize = 0;
    while k < result.thumbnails.len()
        invariant
            cw == canvas_width,
            k <= n,
            n == ts.len(),
            ts == result.thumbnails@,
            mw == result.monitor_width,
            mw > 0,
            ch == canvas_height(result.monitor_height as int, cw as int, mw as int),
            places@.len() == k,
            images@.len() == k,
            regions@.len() == k,
            forall|j: int|
                0 <= j < k ==> placement_of(
                    #[trigger] places@[j],
                    ts[j],
                    cw as int,
                    mw as int,
                    ch as int,
                ),
            forall|j: int|
                0 <= j < k ==> resized_image_of(#[trigger] images@[j]@, ts[j], cw as int, mw as int),
            forall|j: int| 0 <= j < k ==> thumbnail_fits(#[trigger] ts[j], cw as int, mw as int),
            forall|j: int|
                0 <= j < k ==> region_matches(
                    #[trigger] regions@[j],
                    ts[j],
                    cw as int,
                    mw as int,
                    ch as int,
                ),
        decreases n - k,
    {
        let t = &result.thumbnails[k];
        let w = scale_extent(t.win_width, cw, mw);
        let h = scale_extent(t.win_height, cw, mw);
        if w > u32::MAX as u128 || h > u32::MAX as u128 {
            assert(!composable(*result, cw as int)) by {
                assert(!thumbnail_fits(result.thumbnails@[k as int], cw as int, mw as int));
            }
            return None;
        }
        assert(w * h * 4 <= u32::MAX * u32::MAX * 4) by (nonlinear_arith)
            requires
                w <= u32::MAX,
                h <= u32::MAX,
        ;
        if w * h * 4 > usize::MAX as u128 || w * 4 > usize::MAX as u128 {
            assert(!composable(*result, cw as int)) by {
                assert(!thumbnail_fits(result.thumbnails@[k as int], cw as int, mw as int));
            }
            return None;
        }
        let x = scale_offset(t.x, cw, mw);
        let y = scale_offset(t.y, cw, mw);
        let x0 = clamp_u32(x, cw);
        let x1 = clamp_u32(x + w as i128, cw);
        let y0 = clamp_u32(y, ch);
        let y1 = clamp_u32(y + h as i128, ch);
        let (img, _) = downscale_nearest(
            t.data.as_slice(),
            t.width,
            t.height,
            t.stride,
            w as u32,
            h as u32,
        );
        places.push(Placement { x, y, w: w as u32, h: h as u32, x0, x1, y0, y1 });
        images.push(img);
        regions.push(
            ClickRegion { x: x0, y: y0, w: x1 - x0, h: y1 - y0, address: t.address.clone() },
        );
        k = k + 1;
    }
    let mut pixels: Vec<u8> = Vec::new();
    let mut py: u32 = 0;
    while py < ch
        invariant
            py <= ch,
            n == ts.len(),
            ts == result.thumbnails@,
            mw == result.monitor_width,
            mw > 0,
            cw as int * ch as int * 4 <= usize::MAX,
            places@.len() == n,
            images@.len() == n,
            forall|j: int|
                0 <= j < n ==> placement_of(
                    #[trigger] places@[j],
                    ts[j],
                    cw as int,
                    mw as int,
                    ch as int,
                ),
            forall|j: int|
                0 <= j < n ==> resized_image_of(#[trigger] images@[j]@, ts[j], cw as int, mw as int),
            forall|j: int| 0 <= j < n ==> thumbnail_fits(#[trigger] ts[j], cw as int, mw as int),
            pixels@.len() == py as int * cw as int * 4,
            forall|j: int|
                0 <= j < pixels@.len() ==> #[trigger] pixels@[j] == composite_byte(
                    ts,
                    n,
                    cw as int,
                    mw as int,
                    ch as int,
                    (j / 4) % (cw as int),
                    (j / 4) / (cw as int),
                    j % 4,
                ),
        decreases ch - py,
    {
        let mut px: u32 = 0;
        while px < cw
            invariant
                py < ch,
                px <= cw,
                n == ts.len(),
                ts == result.thumbnails@,
                mw == result.monitor_width,
                mw > 0,
                cw as int * ch as int * 4 <= usize::MAX,
                places@.len() == n,
                images@.len() == n,
                forall|j: int|
                    0 <= j < n ==> placement_of(
                        #[trigger] places@[j],
                        ts[j],
                        cw as int,
                        mw as int,
                        ch as int,
                    ),
                forall|j: int|
                    0 <= j < n ==> resized_image_of(
                        #[trigger] images@[j]@,
                        ts[j],
                        cw as int,
                        mw as int,
                    ),
                forall|j: int| 0 <= j < n ==> thumbnail_fits(#[trigger] ts[j], cw as int, mw as int),
                pixels@.len() == (py as int * cw as int + px as int) * 4,
                forall|j: int|
                    0 <= j < pixels@.len() ==> #[trigger] pixels@[j] == composite_byte(
                        ts,
                        n,
                        cw as int,
                        mw as int,
                        ch as int,
                        (j / 4) % (cw as int),
                        (j / 4) / (cw as int),
                        j % 4,
                    ),
            decreases cw - px,
        {
            proof {
                assert(py as int * cw as int + px as int + 1 <= ch as int * cw as int)
                    by (nonlinear_arith)
                    requires
                        py < ch,
                        px < cw,
                ;
            }
            let bytes = canvas_pixel(result, cw, ch, &places, &images, px, py);
            let ghost before = pixels@;
            let ghost base = before.len() as int;
            pixels.push(bytes[0]);
            pixels.push(bytes[1]);
            pixels.push(bytes[2]);
            pixels.push(bytes[3]);
            assert(pixels@ =~= before + bytes@);
            proof {
                assert forall|c: int| 0 <= c < 4 implies #[trigger] pixels@[base + c]
                    == composite_byte(
                    ts,
                    n,
                    cw as int,
                    mw as int,
                    ch as int,
                    ((base + c) / 4) % (cw as int),
                    ((base + c) / 4) / (cw as int),
                    (base + c) % 4,
                ) by {
                    lemma_pixel_index(px as int, py as int, c, cw as int);
                    assert(pixels@[base + c] == bytes@[c]);
                }
                assert forall|j: int| 0 <= j < pixels@.len() implies #[trigger] pixels@[j]
                    == composite_byte(
                    ts,
                    n,
                    cw as int,
                    mw as int,
                    ch as int,
                    (j / 4) % (cw as int),
                    (j / 4) / (cw as int),
                    j % 4,
                ) by {
                    if j < base {
                        assert(pixels@[j] == before[j]);
                    } else {
                        let c = j - base;
                        assert(pixels@[base + c] == composite_byte(
                            ts,
                            n,
                            cw as int,
                            mw as int,
                            ch as int,
                            ((base + c) / 4) % (cw as int),
                            ((base + c) / 4) / (cw as int),
                            (base + c) % 4,
                        ));
                    }
                }
            }
            px = px + 1;
        }
        assert((py as int * cw as int + cw as int) * 4 == (py as int + 1) * cw as int * 4)
            by (nonlinear_arith);
        py = py + 1;
    }
    proof {
        assert(pixels@.len() == cw as int * ch as int * 4) by (nonlinear_arith)
            requires
                pixels@.len() == ch as int * cw as int * 4,
        ;
        assert(cw as int * 4 <= cw as int * ch as int * 4) by (nonlinear_arith)
            requires
                ch >= 1,
        ;
        assert forall|j: int| 0 <= j < n implies region_matches(
            #[trigger] regions@[j],
            ts[j],
            cw as int,
            mw as int,
            ch as int,
        ) by {}
    }
    Some(Composite { pixels, width: cw, height: ch, stride: cw as usize * 4, regions })
}

/// Every canvas pixel that some window covers is fully opaque, whatever the
/// window's own alpha; a pixel that no window covers stays zero in all four
/// bytes.
pub proof fn lemma_composite_alpha(
    ts: Seq<WindowThumbnail>,
    n: int,
    cw: int,
    mw: int,
    ch: int,
    px: int,
    py: int,
)
    requires
        0 <= n <= ts.len(),
    ensures
        (exists|k: int| 0 <= k < n && covers(#[trigger] ts[k], cw, mw, ch, px, py))
            ==> composite_byte(ts, n, cw, mw, ch, px, py, 3) == 255,
        (forall|k: int| 0 <= k < n ==> !covers(#[trigger] ts[k], cw, mw, ch, px, py))
            ==> forall|c: int| composite_byte(ts, n, cw, mw, ch, px, py, c) == 0,
    decreases n,
{
    if n > 0 {
        lemma_composite_alpha(ts, n - 1, cw, mw, ch, px, py);
        if exists|k: int| 0 <= k < n && covers(#[trigger] ts[k], cw, mw, ch, px, py) {
            let k = choose|k: int| 0 <= k < n && covers(#[trigger] ts[k], cw, mw, ch, px, py);
            if !covers(ts[n - 1], cw, mw, ch, px, py) {
                assert(k < n - 1);
            }
        }
        if forall|k: int| 0 <= k < n ==> !covers(#[trigger] ts[k], cw, mw, ch, px, py) {
            assert(!covers(ts[n - 1], cw, mw, ch, px, py));
            assert forall|c: int| composite_byte(ts, n, cw, mw, ch, px, py, c) == 0 by {
                assert(composite_byte(ts, n, cw, mw, ch, px, py, c) == composite_byte(
                    ts,
                    n - 1,
                    cw,
                    mw,
                    ch,
                    px,
                    py,
                    c,
                ));
            }
        }
    }
}

pub open spec fn region_contains(g: ClickRegion, x: int, y: int) -> bool {
    g.x <= x < g.x + g.w && g.y <= y < g.y + g.h
}

/// The region that a click at canvas point `(x, y)` lands on: the first that
/// contains it. A click at a fractional point belongs to the pixel whose
/// corner is at the point's floor.
pub fn hit_test(regions: &Vec<ClickRegion>, x: i64, y: i64) -> (r: Option<usize>)
    ensures
        r matches Some(i) ==> i < regions@.len() && region_contains(regions@[i as int], x as int, y as int)
            && forall|j: int| 0 <= j < i ==> !region_contains(#[trigger] regions@[j], x as int, y as int),
        r is None ==> forall|j: int|
            0 <= j < regions@.len() ==> !region_contains(#[trigger] regions@[j], x as int, y as int),
{
    let mut i: usize = 0;
    while i < regions.len()
        invariant
            i <= regions@.len(),
            forall|j: int| 0 <= j < i ==> !region_contains(#[trigger] regions@[j], x as int, y as int),
        decreases regions@.len() - i,
    {
        let g = &regions[i];
        if g.x as i64 <= x && x < g.x as i64 + g.w as i64 && g.y as i64 <= y && y < g.y as i64
            + g.h as i64 {
            return Some(i);
        }
        i = i + 1;
    }
    None
}

} // verus!
