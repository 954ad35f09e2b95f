//! Screenshot post-processing: nearest-neighbour downscale to a size budget,
//! colour-order swap, lossy encoding, a small history of recent encodings,
//! and the base64 text handed to the backend.

use vstd::prelude::*;
use std::collections::VecDeque;
use base64::Engine;
use crate::config::Config;

verus! {

/// Encodings kept in the history, at most.
pub const RING_BUFFER_SIZE: usize = 5;

/// The size of a `width` x `height` image fitted to a `max_w` x `max_h`
/// budget with one scale factor, the larger of the two ratios. The result
/// is `(new_w, new_h, num, den)`: the scale factor is `num / den`.
pub open spec fn fit_spec(width: int, height: int, max_w: int, max_h: int) -> (int, int, int, int) {
    if width <= max_w && height <= max_h {
        (width, height, 1, 1)
    } else if max_w == 0 || max_h == 0 {
        (0, 0, 1, 1)
    } else if width * max_h >= height * max_w {
        (max_w, height * max_w / width, width, max_w)
    } else {
        (width * max_h / height, max_h, height, max_h)
    }
}

/// Byte `k` of the downscaled image: the matching colour byte of the source
/// pixel that the target pixel samples, or zero when that lies outside the
/// source bytes.
pub open spec fn down_byte(px: Seq<u8>, width: int, num: int, den: int, new_w: int, k: int) -> u8 {
    let p = k / 3;
    let c = k % 3;
    let sx = (p % new_w) * num / den;
    let sy = (p / new_w) * num / den;
    let src = (sy * width + sx) * 3;
    if src + 2 < px.len() {
        px[src + c]
    } else {
        0
    }
}

pub open spec fn downscaled(px: Seq<u8>, width: int, num: int, den: int, new_w: int, new_h: int) -> Seq<u8> {
    Seq::new((new_w * new_h * 3) as nat, |k: int| down_byte(px, width, num, den, new_w, k))
}

/// The image after `downscale_if_needed`.
pub open spec fn downscale_spec(width: int, height: int, px: Seq<u8>, max_w: int, max_h: int) -> (int, int, Seq<u8>) {
    let f = fit_spec(width, height, max_w, max_h);
    if width <= max_w && height <= max_h {
        (width, height, px)
    } else {
        (f.0, f.1, downscaled(px, width, f.2, f.3, f.0, f.1))
    }
}

/// Within budget the image is left as it is. Otherwise both new sides fit
/// the budget, the side that needed the larger reduction meets it exactly,
/// and the other is scaled by the same factor, rounded down.
pub proof fn lemma_fit_within_budget(width: int, height: int, max_w: int, max_h: int)
    requires
        width >= 0,
        height >= 0,
        max_w >= 0,
        max_h >= 0,
    ensures
        width <= max_w && height <= max_h ==> fit_spec(width, height, max_w, max_h).0 == width
            && fit_spec(width, height, max_w, max_h).1 == height,
        0 <= fit_spec(width, height, max_w, max_h).0 <= max_w || (width <= max_w && height <= max_h),
        0 <= fit_spec(width, height, max_w, max_h).1 <= max_h || (width <= max_w && height <= max_h),
        !(width <= max_w && height <= max_h) && max_w > 0 && max_h > 0 ==> {
            let f = fit_spec(width, height, max_w, max_h);
            &&& f.2 > 0 && f.3 > 0
            &&& f.0 == width * f.3 / f.2
            &&& f.1 == height * f.3 / f.2
            &&& (f.0 == max_w || f.1 == max_h)
        },
{
    if !(width <= max_w && height <= max_h) && max_w > 0 && max_h > 0 {
        if width * max_h >= height * max_w {
            assert(width > max_w) by (nonlinear_arith)
                requires
                    width * max_h >= height * max_w,
                    width > max_w || height > max_h,
                    max_w > 0,
                    max_h > 0,
                    height >= 0,
            ;
            assert(width * max_w / width == max_w) by (nonlinear_arith)
                requires
                    width > 0,
            ;
            assert(height * max_w / width <= max_h) by (nonlinear_arith)
                requires
                    width > 0,
                    height >= 0,
                    max_w > 0,
                    width * max_h >= height * max_w,
            ;
            assert(height * max_w / width >= 0) by (nonlinear_arith)
                requires
                    width > 0,
                    height >= 0,
                    max_w > 0,
            ;
        } else {
            assert(height > max_h) by (nonlinear_arith)
                requires
                    width * max_h < height * max_w,
                    width > max_w || height > max_h,
                    max_w > 0,
                    max_h > 0,
                    width >= 0,
            ;
            assert(height * max_h / height == max_h) by (nonlinear_arith)
                requires
                    height > 0,
            ;
            assert(width * max_h / height <= max_w) by (nonlinear_arith)
                requires
                    height > 0,
                    width >= 0,
                    max_h > 0,
                    width * max_h < height * max_w,
            ;
            assert(width * max_h / height >= 0) by (nonlinear_arith)
                requires
                    height > 0,
                    width >= 0,
                    max_h > 0,
            ;
        }
    }
}

/// The new size and scale factor of an image for a budget.
pub fn fit_to_budget(width: u32, height: u32, max_w: u32, max_h: u32) -> (r: (u32, u32, u64, u64))
    ensures
        r.0 as int == fit_spec(width as int, height as int, max_w as int, max_h as int).0,
        r.1 as int == fit_spec(width as int, height as int, max_w as int, max_h as int).1,
        r.2 as int == fit_spec(width as int, height as int, max_w as int, max_h as int).2,
        r.3 as int == fit_spec(width as int, height as int, max_w as int, max_h as int).3,
        r.2 >= 1,
        r.3 >= 1,
        r.2 <= u32::MAX,
        r.0 <= width || (width <= max_w && height <= max_h),
        r.1 <= height || (width <= max_w && height <= max_h),
{
    if width <= max_w && height <= max_h {
        return (width, height, 1, 1);
    }
    if max_w == 0 || max_h == 0 {
        return (0, 0, 1, 1);
    }
    proof {
        lemma_fit_within_budget(width as int, height as int, max_w as int, max_h as int);
    }
    let w = width as u64;
    let h = height as u64;
    let mw = max_w as u64;
    let mh = max_h as u64;
    assert(w * mh <= 0xFFFF_FFFF * 0xFFFF_FFFF && h * mw <= 0xFFFF_FFFF * 0xFFFF_FFFF
        && h * mh <= 0xFFFF_FFFF * 0xFFFF_FFFF && w * mw <= 0xFFFF_FFFF * 0xFFFF_FFFF) by (nonlinear_arith)
        requires
            w <= 0xFFFF_FFFF,
            h <= 0xFFFF_FFFF,
            mw <= 0xFFFF_FFFF,
            mh <= 0xFFFF_FFFF,
    ;
    if w * mh >= h * mw {
        assert(w > mw) by (nonlinear_arith)
            requires
                w * mh >= h * mw,
                w > mw || h > mh,
                mw > 0,
                mh > 0,
        ;
        assert((h * mw) as int / w as int <= h) by (nonlinear_arith)
            requires
                w > mw,
                mw > 0,
        ;
        (max_w, (h * mw / w) as u32, w, mw)
    } else {
        assert(h > mh) by (nonlinear_arith)
            requires
                w * mh < h * mw,
                w > mw || h > mh,
                mw > 0,
                mh > 0,
        ;
        assert((w * mh) as int / h as int <= w) by (nonlinear_arith)
            requires
                h > mh,
                mh > 0,
        ;
        (((w * mh) / h) as u32, max_h, h, mh)
    }
}

/// Fits an image of `width` x `height` pixels, three bytes each, to the
/// budget: left as it is when both sides fit, else resampled by nearest
/// neighbour with one scale factor.
pub fn downscale_if_needed(width: u32, height: u32, pixels: Vec<u8>, max_width: u32, max_height: u32) -> (r: (u32, u32, Vec<u8>))
    requires
        width as int * height as int * 3 <= usize::MAX,
    ensures
        r.0 as int == downscale_spec(width as int, height as int, pixels@, max_width as int, max_height as int).0,
        r.1 as int == downscale_spec(width as int, height as int, pixels@, max_width as int, max_height as int).1,
        r.2@ == downscale_spec(width as int, height as int, pixels@, max_width as int, max_height as int).2,
{
    if width <= max_width && height <= max_height {
        return (width, height, pixels);
    }
    let (nw, nh, num, den) = fit_to_budget(width, height, max_width, max_height);
    assert(nw as int * nh as int * 3 <= width as int * height as int * 3) by (nonlinear_arith)
        requires
            nw <= width,
            nh <= height,
    ;
    let total: usize = nw as usize * nh as usize * 3;
    assert(nw >= 1 || total == 0) by (nonlinear_arith)
        requires
            total == nw * nh * 3,
    ;
    let mut out: Vec<u8> = Vec::new();
    let mut k: usize = 0;
    while k < total
        invariant
            k <= total,
            total == nw * nh * 3,
            nw >= 1 || total == 0,
            num >= 1,
            den >= 1,
            num <= u32::MAX,
            out@.len() == k,
            forall|j: int| 0 <= j < k ==> out@[j] == down_byte(pixels@, width as int, num as int, den as int, nw as int, j),
        decreases total - k,
    {
        assert(nw >= 1) by (nonlinear_arith)
            requires
                k < total,
                total == nw * nh * 3,
        ;
        let p = (k / 3) as u64;
        let c = k % 3;
        let px = p % nw as u64;
        let py = p / nw as u64;
        assert(p < nw * nh) by (nonlinear_arith)
            requires
                k < total,
                total == nw * nh * 3,
                p == k / 3,
        ;
        assert(py < nh) by (nonlinear_arith)
            requires
                p < nw * nh,
                nw >= 1,
                py as int == p as int / nw as int,
        ;
        assert(px * num <= 0xFFFF_FFFF_FFFF_FFFF && py * num <= 0xFFFF_FFFF_FFFF_FFFF) by (nonlinear_arith)
            requires
                px < nw,
                nw <= 0xFFFF_FFFF,
                py < nh,
                nh <= 0xFFFF_FFFF,
                num <= 0xFFFF_FFFF,
        ;
        let sx = px * num / den;
        let sy = py * num / den;
        assert(sy as int * width as int + sx as int <= 0xFFFF_FFFF_FFFF_FFFF * 0x1_0000_0000) by (nonlinear_arith)
            requires
                sy <= 0xFFFF_FFFF_FFFF_FFFF,
                sx <= 0xFFFF_FFFF_FFFF_FFFF,
                width <= 0xFFFF_FFFF,
        ;
        let src: u128 = (sy as u128 * width as u128 + sx as u128) * 3;
        let b = if src + 2 < pixels.len() as u128 {
            pixels[(src as usize) + c]
        } else {
            0
        };
        out.push(b);
        k = k + 1;
    }
    assert(out@ =~= downscaled(pixels@, width as int, num as int, den as int, nw as int, nh as int));
    (nw, nh, out)
}

/// Byte `k` of an image with the first and third byte of each pixel swapped.
pub open spec fn swapped_byte(px: Seq<u8>, k: int) -> u8 {
    let c = k % 3;
    px[k - c + (2 - c)]
}

pub open spec fn swap_spec(px: Seq<u8>) -> Seq<u8> {
    Seq::new(px.len(), |k: int| swapped_byte(px, k))
}

/// Swaps the first and third byte of every three-byte pixel (blue-green-red
/// to red-green-blue and back).
pub fn swap_red_blue(pixels: &Vec<u8>) -> (r: Vec<u8>)
    requires
        pixels@.len() % 3 == 0,
    ensures
        r@ == swap_spec(pixels@),
{
    let n = pixels.len();
    let mut out: Vec<u8> = Vec::new();
    let mut k: usize = 0;
    while k < n
        invariant
            n == pixels@.len(),
            n % 3 == 0,
            k <= n,
            out@.len() == k,
            forall|j: int| 0 <= j < k ==> out@[j] == swapped_byte(pixels@, j),
        decreases n - k,
    {
        let c = k % 3;
        assert(k - c + 2 < n) by {
            assert(k - c + 3 <= n);
        }
        out.push(pixels[k - c + (2 - c)]);
        k = k + 1;
    }
    assert(out@ =~= swap_spec(pixels@));
    out
}

/// Relies on `jpeg_encoder::Encoder::encode` with `ColorType::Rgb`: the
/// encoding depends on the pixels, the size and the quality alone.
pub uninterp spec fn jpeg_of(rgb: Seq<u8>, width: u16, height: u16, quality: u8) -> Seq<u8>;

/// Relies on `jpeg_encoder::Encoder::new` and `Encoder::encode` (RGB, into a
/// `Vec<u8>`): the result is the encoding. The call fails exactly when the
/// data are shorter than `width * height * 3` bytes or a side is zero;
/// writing into a `Vec<u8>` cannot fail and no application segment is added.
#[verifier::external_body]
fn encode_jpeg(rgb: &Vec<u8>, width: u16, height: u16, quality: u8) -> (r: Option<Vec<u8>>)
    ensures
        r matches Some(v) ==> v@ == jpeg_of(rgb@, width, height, quality),
        r is Some <==> (rgb@.len() >= width as int * height as int * 3 && width > 0 && height > 0),
{
    let mut output = Vec::new();
    let encoder = jpeg_encoder::Encoder::new(&mut output, quality);
    match encoder.encode(rgb, width, height, jpeg_encoder::ColorType::Rgb) {
        Ok(()) => Some(output),
        Err(_) => None,
    }
}

/// The character of a six-bit value in the standard base64 alphabet.
pub open spec fn b64_char(v: int) -> char {
    if v < 26 {
        ((v + 65) as u8) as char
    } else if v < 52 {
        ((v + 71) as u8) as char
    } else if v < 62 {
        ((v - 4) as u8) as char
    } else if v == 62 {
        '+'
    } else {
        '/'
    }
}

/// Standard base64 with padding: every three bytes become four characters;
/// a final one or two bytes become four characters ending in `==` or `=`.
pub open spec fn base64_of(data: Seq<u8>) -> Seq<char>
    decreases data.len(),
{
    if data.len() == 0 {
        Seq::<char>::empty()
    } else if data.len() == 1 {
        seq![b64_char((data[0] as int) / 4), b64_char(((data[0] as int) % 4) * 16), '=', '=']
    } else if data.len() == 2 {
        seq![
            b64_char((data[0] as int) / 4),
            b64_char(((data[0] as int) % 4) * 16 + (data[1] as int) / 16),
            b64_char(((data[1] as int) % 16) * 4),
            '=',
        ]
    } else {
        seq![
            b64_char((data[0] as int) / 4),
            b64_char(((data[0] as int) % 4) * 16 + (data[1] as int) / 16),
            b64_char(((data[1] as int) % 16) * 4 + (data[2] as int) / 64),
            b64_char((data[2] as int) % 64),
        ] + base64_of(data.skip(3))
    }
}

/// Relies on `base64::engine::general_purpose::STANDARD.encode`: the
/// standard alphabet with padding.
#[verifier::external_body]
fn base64_encode(data: &Vec<u8>) -> (r: String)
    ensures
        r@ == base64_of(data@),
{
    base64::engine::general_purpose::STANDARD.encode(data)
}

/// The most recent encodings, oldest first, at most `RING_BUFFER_SIZE`.
pub struct ScreenshotBuffer {
    pub frames: VecDeque<Vec<u8>>,
}

pub open spec fn frames_view(frames: Seq<Vec<u8>>) -> Seq<Seq<u8>> {
    frames.map_values(|f: Vec<u8>| f@)
}

/// The history after storing `data`: appended at the end, the oldest entry
/// dropped when the history was full.
pub open spec fn after_store(h: Seq<Seq<u8>>, data: Seq<u8>) -> Seq<Seq<u8>> {
    if h.len() >= RING_BUFFER_SIZE {
        h.drop_first().push(data)
    } else {
        h.push(data)
    }
}

impl ScreenshotBuffer {
    pub open spec fn wf(&self) -> bool {
        self.frames@.len() <= RING_BUFFER_SIZE
    }

    pub open spec fn history(&self) -> Seq<Seq<u8>> {
        frames_view(self.frames@)
    }
}

/// An empty history.
pub fn init_screenshot_buffer() -> (r: ScreenshotBuffer)
    ensures
        r.wf(),
        r.history().len() == 0,
{
    ScreenshotBuffer { frames: VecDeque::with_capacity(RING_BUFFER_SIZE) }
}

/// Appends an encoding to the history, evicting the oldest when full.
pub fn store_in_buffer(buffer: &mut ScreenshotBuffer, data: Vec<u8>)
    requires
        old(buffer).wf(),
    ensures
        final(buffer).wf(),
        final(buffer).history() == after_store(old(buffer).history(), data@),
{
    let ghost h = old(buffer).history();
    if buffer.frames.len() >= RING_BUFFER_SIZE {
        buffer.frames.pop_front();
    }
    buffer.frames.push_back(data);
    assert(buffer.history() =~= after_store(h, data@));
}

/// The history never holds more than `RING_BUFFER_SIZE` encodings, and a
/// store keeps the newest ones in arrival order.
pub proof fn lemma_store_bounded(h: Seq<Seq<u8>>, data: Seq<u8>)
    requires
        h.len() <= RING_BUFFER_SIZE,
    ensures
        after_store(h, data).len() <= RING_BUFFER_SIZE,
        after_store(h, data).last() == data,
        h.len() < RING_BUFFER_SIZE ==> after_store(h, data).drop_last() == h,
        h.len() == RING_BUFFER_SIZE ==> after_store(h, data).drop_last() == h.drop_first(),
{
    assert(h.push(data).drop_last() =~= h);
    if h.len() > 0 {
        assert(h.drop_first().push(data).drop_last() =~= h.drop_first());
    }
}

/// What encoding an image yields: the downscaled pixels, colour-swapped and
/// encoded at `quality`; `None` when the pixel bytes are not whole pixels,
/// a side is zero or too long for the codec, or the bytes do not cover the
/// image.
pub open spec fn encoding_of(width: int, height: int, px: Seq<u8>, config: Config) -> Option<Seq<u8>> {
    let d = downscale_spec(width, height, px, config.screenshot_max_width as int, config.screenshot_max_height as int);
    if d.2.len() % 3 != 0 || d.0 > u16::MAX || d.1 > u16::MAX || d.0 == 0 || d.1 == 0 || d.2.len() < d.0 * d.1 * 3 {
        None
    } else {
        Some(jpeg_of(swap_spec(d.2), d.0 as u16, d.1 as u16, config.screenshot_quality))
    }
}

/// Downscales raw three-byte pixels to the configured budget, encodes them,
/// stores the encoding in the history and returns it as base64. `None`
/// when any stage fails; the history is then unchanged.
pub fn encode_raw_to_base64(config: &Config, width: u32, height: u32, pixels: Vec<u8>, buffer: &mut ScreenshotBuffer) -> (r: Option<String>)
    requires
        old(buffer).wf(),
    ensures
        final(buffer).wf(),
        r is None ==> final(buffer).history() == old(buffer).history(),
        width as int * height as int * 3 <= usize::MAX ==> (encoding_of(width as int, height as int, pixels@, *config) is None
            ==> r is None),
        width as int * height as int * 3 <= usize::MAX ==> (encoding_of(width as int, height as int, pixels@, *config) matches Some(e)
            ==> (r matches Some(t) && t@ == base64_of(e) && final(buffer).history() == after_store(old(buffer).history(), e))),
        r matches Some(t) ==> (width as int * height as int * 3 <= usize::MAX && (encoding_of(
            width as int,
            height as int,
            pixels@,
            *config,
        ) matches Some(e) && t@ == base64_of(e) && final(buffer).history() == after_store(
            old(buffer).history(),
            e,
        ))),
{
    assert(width as int * height as int <= 0xFFFF_FFFF * 0xFFFF_FFFF) by (nonlinear_arith)
        requires
            width <= 0xFFFF_FFFF,
            height <= 0xFFFF_FFFF,
    ;
    if width as u128 * height as u128 * 3 > usize::MAX as u128 {
        return None;
    }
    let (w, h, px) = downscale_if_needed(width, height, pixels, config.screenshot_max_width, config.screenshot_max_height);
    if px.len() % 3 != 0 || w > 65535 || h > 65535 {
        return None;
    }
    let rgb = swap_red_blue(&px);
    let jpeg = match encode_jpeg(&rgb, w as u16, h as u16, config.screenshot_quality) {
        Some(j) => j,
        None => return None,
    };
    let text = base64_encode(&jpeg);
    store_in_buffer(buffer, jpeg);
    Some(text)
}

/// A screenshot for the backend from a captured frame `(width, height,
/// pixels)`: `None` when screenshots are off or nothing was captured,
/// else the base64 encoding of the frame.
pub fn capture_screenshot(config: &Config, frame: Option<(u32, u32, Vec<u8>)>, buffer: &mut ScreenshotBuffer) -> (r: Option<String>)
    requires
        old(buffer).wf(),
    ensures
        final(buffer).wf(),
        !config.enable_screenshot ==> (r is None && final(buffer).history() == old(buffer).history()),
        frame is None ==> (r is None && final(buffer).history() == old(buffer).history()),
        r is None ==> final(buffer).history() == old(buffer).history(),
        config.enable_screenshot ==> (frame matches Some(f) ==> (f.0 as int * f.1 as int * 3 <= usize::MAX ==> (encoding_of(f.0 as int, f.1 as int, f.2@, *config) matches Some(e)
            ==> (r matches Some(t) && t@ == base64_of(e) && final(buffer).history() == after_store(old(buffer).history(), e))))),
        r matches Some(t) ==> (frame matches Some(f) && (encoding_of(f.0 as int, f.1 as int, f.2@, *config) matches Some(e)
            && t@ == base64_of(e) && final(buffer).history() == after_store(old(buffer).history(), e))),
{
    if !config.enable_screenshot {
        return None;
    }
    match frame {
        Some((w, h, px)) => encode_raw_to_base64(config, w, h, px, buffer),
        None => None,
    }
}

} // verus!
