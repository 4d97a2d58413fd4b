//! Per-image optimization: what a file is turned into, how it is scaled to
//! the dimension limits, and the encoders that work on bytes in memory.
//!
//! Reading and writing files, running gifsicle, and the encoders whose
//! settings are floating-point numbers (WebP, AVIF, palette quantization)
//! are the caller's part.

use vstd::prelude::*;
use crate::formats::{ImageFormat, OutputFormatSetting};
use crate::payloads::{code_only, ErrorPayload};
use crate::paths::{path_eq, path_extension, same_path};

verus! {

/// How an image was scaled down to fit the dimension limits.
#[derive(Debug, Clone, Copy, PartialEq, Eq, Structural)]
pub struct DimensionChange {
    pub from_width: u32,
    pub from_height: u32,
    pub to_width: u32,
    pub to_height: u32,
}

/// `n * to / from`, rounded half up, and at least 1.
pub open spec fn scaled(n: nat, to: nat, from: nat) -> nat {
    let q = (2 * (n * to) + from) / (2 * from);
    if q == 0 { 1 } else { q }
}

/// Whether the width binds: it exceeds its bound, and scaling to it leaves the
/// height within its bound (or the height has none).
pub open spec fn width_binds(w: nat, h: nat, max_w: Option<u32>, max_h: Option<u32>) -> bool {
    match max_w {
        None => false,
        Some(mw) => match max_h {
            None => true,
            Some(mh) => mw * h <= mh * w,
        },
    }
}

/// The size an image of `w`×`h` is scaled to under the limits: none where it
/// already fits; else the tighter bound is met exactly (at least 1) and the
/// other side scaled in proportion, rounded half up.
pub open spec fn spec_fit(w: nat, h: nat, max_w: Option<u32>, max_h: Option<u32>) -> Option<(nat, nat)> {
    let fits_w = match max_w { None => true, Some(mw) => w <= mw };
    let fits_h = match max_h { None => true, Some(mh) => h <= mh };
    if fits_w && fits_h {
        None
    } else if width_binds(w, h, max_w, max_h) {
        let mw = if max_w.unwrap() == 0 { 1nat } else { max_w.unwrap() as nat };
        Some((mw, scaled(h, mw, w)))
    } else {
        let mh = if max_h.unwrap() == 0 { 1nat } else { max_h.unwrap() as nat };
        Some((scaled(w, mh, h), mh))
    }
}

proof fn lemma_product_of_u32(a: nat, b: nat)
    requires
        a <= 0xffff_ffff,
        b <= 0xffff_ffff,
    ensures
        a * b <= 0xffff_fffe_0000_0001,
{
    assert(a * b <= 0xffff_ffff * 0xffff_ffff) by (nonlinear_arith)
        requires
            a <= 0xffff_ffff,
            b <= 0xffff_ffff,
    ;
}

proof fn lemma_scaled_bound(n: nat, to: nat, from: nat)
    requires
        from > 0,
        1 <= to <= from,
        n >= 1,
    ensures
        1 <= scaled(n, to, from) <= n,
{
    assert((2 * (n * to) + from) / (2 * from) <= n) by (nonlinear_arith)
        requires
            from > 0,
            to <= from,
            n >= 1,
    {
        assert(2 * (n * to) + from < 2 * from * (n + 1));
    }
}

/// How far apart two numbers are.
pub open spec fn distance(a: int, b: int) -> int {
    if a >= b { a - b } else { b - a }
}

/// `scaled(n, to, from)` is `n * to / from` to the nearest whole number:
/// within half a unit of it, or 1 where that would round to 0.
proof fn lemma_scaled_rounds(n: nat, to: nat, from: nat)
    requires
        from > 0,
    ensures
        2 * distance((scaled(n, to, from) * from) as int, (n * to) as int) <= from
            || (scaled(n, to, from) == 1 && 2 * (n * to) < from),
{
    let x = 2 * (n * to) + from;
    let d = 2 * from;
    let q = x / d;
    let r = x % d;
    vstd::arithmetic::div_mod::lemma_fundamental_div_mod(x as int, d as int);
    vstd::arithmetic::div_mod::lemma_mod_bound(x as int, d as int);
    assert(x == d * q + r);
    if q == 0 {
        assert(x < d);
    } else {
        assert(2 * (q * from) == d * q) by (nonlinear_arith)
            requires
                d == 2 * from,
        ;
        assert(2 * (q * from) - 2 * (n * to) == from - r);
    }
}

/// Scaling keeps the aspect ratio up to rounding: the new size is the old
/// one scaled by a single factor, to within half a pixel on the side that was
/// not set by a bound (or is 1 pixel where it would round to nothing).
pub proof fn lemma_fit_keeps_aspect(w: nat, h: nat, max_w: Option<u32>, max_h: Option<u32>)
    requires
        w > 0,
        h > 0,
    ensures
        match spec_fit(w, h, max_w, max_h) {
            None => true,
            Some((tw, th)) => 2 * distance((th * w) as int, (h * tw) as int) <= w
                || 2 * distance((tw * h) as int, (w * th) as int) <= h
                || (th == 1 && 2 * (h * tw) < w) || (tw == 1 && 2 * (w * th) < h),
        },
{
    match spec_fit(w, h, max_w, max_h) {
        None => {},
        Some((tw, th)) => {
            if width_binds(w, h, max_w, max_h) && !((match max_w { None => true, Some(mw) => w <= mw }) && (
            match max_h { None => true, Some(mh) => h <= mh })) {
                lemma_scaled_rounds(h, tw, w);
            } else {
                lemma_scaled_rounds(w, th, h);
            }
        },
    }
}

/// Scaling to the limits never enlarges an image, never leaves a side at 0,
/// and, where every given bound is positive, lands within every bound.
pub proof fn lemma_fit_within_limits(w: nat, h: nat, max_w: Option<u32>, max_h: Option<u32>)
    requires
        w > 0,
        h > 0,
        max_w.is_none() || max_w.unwrap() > 0,
        max_h.is_none() || max_h.unwrap() > 0,
    ensures
        match spec_fit(w, h, max_w, max_h) {
            None => (max_w.is_none() || w <= max_w.unwrap()) && (max_h.is_none() || h <= max_h.unwrap()),
            Some((tw, th)) => 1 <= tw <= w && 1 <= th <= h
                && (max_w.is_none() || tw <= max_w.unwrap())
                && (max_h.is_none() || th <= max_h.unwrap()),
        },
{
    let fits_w = match max_w { None => true, Some(mw) => w <= mw };
    let fits_h = match max_h { None => true, Some(mh) => h <= mh };
    if fits_w && fits_h {
    } else if width_binds(w, h, max_w, max_h) {
        let mw = max_w.unwrap() as nat;
        if max_h.is_some() && fits_w {
            let mh = max_h.unwrap() as nat;
            assert(mw * h >= w * h) by (nonlinear_arith)
                requires mw >= w;
            assert(mh * w < h * w) by (nonlinear_arith)
                requires mh < h, w > 0;
        }
        assert(mw < w);
        lemma_scaled_bound(h, mw, w);
        if max_h.is_some() {
            let mh = max_h.unwrap() as nat;
            assert((2 * (h * mw) + w) / (2 * w) <= mh) by (nonlinear_arith)
                requires
                    mw * h <= mh * w,
                    w > 0,
            {
                assert(2 * (h * mw) + w < 2 * w * (mh + 1));
            }
        }
    } else {
        let mh = max_h.unwrap() as nat;
        if max_w.is_some() && fits_h {
            let mw = max_w.unwrap() as nat;
            assert(mh * w >= h * w) by (nonlinear_arith)
                requires mh >= h;
            assert(mw > w) by (nonlinear_arith)
                requires mw * h > mh * w, mh * w >= h * w, h > 0;
        }
        assert(mh < h);
        lemma_scaled_bound(w, mh, h);
        if max_w.is_some() {
            let mw = max_w.unwrap() as nat;
            assert((2 * (w * mh) + h) / (2 * h) <= mw) by (nonlinear_arith)
                requires
                    mw * h > mh * w,
                    h > 0,
            {
                assert(2 * (w * mh) + h < 2 * h * (mw + 1));
            }
        }
    }
}

/// `n * to / from` rounded half up, at least 1, for `to <= from`.
fn scale_side(n: u32, to: u32, from: u32) -> (r: u32)
    requires
        from > 0,
        1 <= to <= from,
        n >= 1,
    ensures
        r == scaled(n as nat, to as nat, from as nat),
        1 <= r <= n,
{
    proof { lemma_scaled_bound(n as nat, to as nat, from as nat); }
    proof { lemma_product_of_u32(n as nat, to as nat); }
    let a: u128 = (n as u128) * (to as u128);
    let num: u128 = 2 * a + from as u128;
    let den: u128 = 2 * from as u128;
    let q = num / den;
    if q == 0 { 1 } else { q as u32 }
}

/// How an image of `width`×`height` is scaled under the limits, if at all.
pub fn fit_dimensions(width: u32, height: u32, limits: Option<(Option<u32>, Option<u32>)>) -> (r: Option<DimensionChange>)
    requires
        width > 0,
        height > 0,
    ensures
        match limits {
            None => r.is_none(),
            Some((mw, mh)) => match spec_fit(width as nat, height as nat, mw, mh) {
                None => r.is_none(),
                Some((tw, th)) => r == Some(DimensionChange {
                    from_width: width,
                    from_height: height,
                    to_width: tw as u32,
                    to_height: th as u32,
                }) && tw <= width && th <= height,
            },
        },
{
    let (max_w, max_h) = match limits {
        None => return None,
        Some(l) => l,
    };
    let fits_w = match max_w { None => true, Some(mw) => width <= mw };
    let fits_h = match max_h { None => true, Some(mh) => height <= mh };
    if fits_w && fits_h {
        return None;
    }
    proof {
        if max_w.is_some() && max_h.is_some() {
            lemma_product_of_u32(max_w.unwrap() as nat, height as nat);
            lemma_product_of_u32(max_h.unwrap() as nat, width as nat);
        }
    }
    let binds = match max_w {
        None => false,
        Some(mw) => match max_h {
            None => true,
            Some(mh) => (mw as u64) * (height as u64) <= (mh as u64) * (width as u64),
        },
    };
    proof {
        if max_w.is_some() && max_h.is_some() {
            let mw = max_w.unwrap();
            let mh = max_h.unwrap();
            assert((mw as u64) * (height as u64) == mw * height) by (nonlinear_arith);
            assert((mh as u64) * (width as u64) == mh * width) by (nonlinear_arith);
        }
    }
    if binds {
        let mw = max_w.unwrap();
        let to_w = if mw == 0 { 1 } else { mw };
        proof {
            if max_h.is_some() && fits_w {
                let mh = max_h.unwrap();
                assert(mw * height >= width * height) by (nonlinear_arith)
                    requires mw >= width;
                assert(mh * width < height * width) by (nonlinear_arith)
                    requires mh < height, width > 0;
            }
        }
        let to_h = scale_side(height, to_w, width);
        Some(DimensionChange { from_width: width, from_height: height, to_width: to_w, to_height: to_h })
    } else {
        let mh = max_h.unwrap();
        let to_h = if mh == 0 { 1 } else { mh };
        proof {
            if max_w.is_some() && fits_h {
                let mw = max_w.unwrap();
                assert(mw * height > mh * width);
                assert(mh * width >= height * width) by (nonlinear_arith)
                    requires mh >= height;
                assert(mw * height > height * width);
                assert(mw > width) by (nonlinear_arith)
                    requires mw * height > height * width, height > 0;
            }
        }
        let to_w = scale_side(width, to_h, height);
        Some(DimensionChange { from_width: width, from_height: height, to_width: to_w, to_height: to_h })
    }
}

/// The format an image is written in: GIF and SVG keep theirs; the others
/// take the target format where the settings name one.
pub open spec fn spec_encoder_for(source: ImageFormat, setting: OutputFormatSetting) -> ImageFormat {
    if source == ImageFormat::Gif || source == ImageFormat::Svg {
        source
    } else {
        match setting.spec_target_format() {
            Some(target) => target,
            None => source,
        }
    }
}

pub fn encoder_for(source: ImageFormat, setting: OutputFormatSetting) -> (r: ImageFormat)
    ensures
        r == spec_encoder_for(source, setting),
{
    if source == ImageFormat::Gif || source == ImageFormat::Svg {
        return source;
    }
    match setting.target_format() {
        Some(target) => target,
        None => source,
    }
}

/// Formats whose files are checked for animation before they are optimized.
pub open spec fn spec_checks_animation(format: ImageFormat) -> bool {
    format == ImageFormat::Png || format == ImageFormat::Webp || format == ImageFormat::Avif
        || format == ImageFormat::Heic
}

pub fn checks_animation(format: ImageFormat) -> (r: bool)
    ensures
        r == spec_checks_animation(format),
{
    format == ImageFormat::Png || format == ImageFormat::Webp || format == ImageFormat::Avif
        || format == ImageFormat::Heic
}

/// Formats that dimension limits apply to: all but GIF and SVG.
pub open spec fn spec_resizes(format: ImageFormat) -> bool {
    format != ImageFormat::Gif && format != ImageFormat::Svg
}

/// How one file is optimized.
pub struct OptimizationPlan {
    /// The format of the source, by its extension.
    pub source: ImageFormat,
    /// The format written.
    pub encoder: ImageFormat,
    /// Whether the source is checked for animation first.
    pub check_animation: bool,
    /// Whether the source is copied aside first, because the output replaces it.
    pub copy_source_first: bool,
    /// Whether dimension limits apply.
    pub resizes: bool,
}

/// Plans the optimization of `input` into `output`. A source whose extension
/// names no supported format is refused.
pub fn plan_optimization(
    input: &str,
    output: &str,
    output_format: OutputFormatSetting,
) -> (r: Result<OptimizationPlan, ErrorPayload>)
    ensures
        match ImageFormat::spec_from_path(input@) {
            None => r matches Err(e) && e@ == code_only("unsupportedFormat"@),
            Some(source) => r matches Ok(plan) && plan.source == source
                && plan.encoder == spec_encoder_for(source, output_format)
                && plan.check_animation == spec_checks_animation(source)
                && plan.copy_source_first == path_eq(input@, output@)
                && plan.resizes == spec_resizes(source),
        },
{
    let source = match ImageFormat::from_path(input) {
        Some(f) => f,
        None => return Err(ErrorPayload::unsupported_format()),
    };
    Ok(OptimizationPlan {
        source,
        encoder: encoder_for(source, output_format),
        check_animation: checks_animation(source),
        copy_source_first: same_path(input, output),
        resizes: source != ImageFormat::Gif && source != ImageFormat::Svg,
    })
}

/// The gifsicle executable a GIF needs; without one the GIF cannot be
/// optimized.
pub fn require_gifsicle(gifsicle: Option<String>) -> (r: Result<String, ErrorPayload>)
    ensures
        match gifsicle {
            Some(g) => r matches Ok(p) && p@ == g@,
            None => r matches Err(e) && e@ == code_only("gifOptimizerUnavailable"@),
        },
{
    match gifsicle {
        Some(g) => Ok(g),
        None => Err(ErrorPayload::gif_optimizer_unavailable()),
    }
}

/// The arguments gifsicle runs with: write `output`, read `input`, optimize
/// at level 3, interlace.
pub fn gifsicle_args(input: &str, output: &str) -> (r: Vec<String>)
    ensures
        r@.len() == 5,
        r@[0]@ == "-o"@,
        r@[1]@ == output@,
        r@[2]@ == input@,
        r@[3]@ == "-O3"@,
        r@[4]@ == "-i"@,
{
    let mut args: Vec<String> = Vec::new();
    args.push("-o".to_owned());
    args.push(output.to_owned());
    args.push(input.to_owned());
    args.push("-O3".to_owned());
    args.push("-i".to_owned());
    args
}

/// Decoded pixels: `width`×`height`, four bytes (red, green, blue, alpha)
/// each, row by row.
pub struct Raster {
    pub width: u32,
    pub height: u32,
    pub pixels: Vec<u8>,
}

impl Raster {
    pub open spec fn wf(&self) -> bool {
        self.pixels@.len() == 4 * self.width * self.height
    }
}

/// Whether the image crate decodes `data` as the format that a file
/// extension names, and the width and height of the image it decodes (read
/// from the file's header).
pub uninterp spec fn decoded_dimensions(data: Seq<u8>, extension: Seq<char>) -> Option<(u32, u32)>;

/// `image::ImageFormat::from_extension`, then
/// `image::load_from_memory_with_format` and `DynamicImage::to_rgba8`, the
/// buffer handed out as its raw bytes: what `image::open` does for a file
/// with that extension. An extension that names no format is an error.
/// Claimed: whether decoding succeeds, and the size decoded, are the named
/// value `decoded_dimensions` of the bytes and the extension; a decoded
/// image's buffer holds four bytes per pixel. Which pixels come out is not
/// claimed: some decoders pick their code paths by the processor's features.
#[verifier::external_body]
fn decode_rgba(data: &[u8], extension: &str) -> (r: Result<Raster, String>)
    ensures
        match r {
            Ok(img) => img.wf() && decoded_dimensions(data@, extension@) == Some((img.width, img.height)),
            Err(_) => decoded_dimensions(data@, extension@).is_none(),
        },
{
    let format = image::ImageFormat::from_extension(extension)
        .ok_or_else(|| "the image format could not be determined".to_string())?;
    match image::load_from_memory_with_format(data, format) {
        Ok(img) => {
            let rgba = img.to_rgba8();
            Ok(Raster { width: rgba.width(), height: rgba.height(), pixels: rgba.into_raw() })
        },
        Err(error) => Err(error.to_string()),
    }
}

/// The filters `image::imageops::resize` offers.
#[derive(Clone, Copy, Debug, PartialEq, Eq, Structural)]
pub enum ResizeFilter {
    Nearest,
    Triangle,
    CatmullRom,
    Gaussian,
    Lanczos3,
}

/// The filter images are scaled with.
pub const RESIZE_FILTER: ResizeFilter = ResizeFilter::Lanczos3;

/// `image::imageops::resize` with the given filter.
/// Claimed: the result has the asked size and four bytes per pixel.
#[verifier::external_body]
fn resize_rgba(img: &Raster, width: u32, height: u32, filter: ResizeFilter) -> (r: Raster)
    requires
        img.wf(),
    ensures
        r.width == width,
        r.height == height,
        r.wf(),
{
    let buffer = image::RgbaImage::from_raw(img.width, img.height, img.pixels.clone())
        .expect("buffer of four bytes per pixel");
    let filter = match filter {
        ResizeFilter::Nearest => image::imageops::FilterType::Nearest,
        ResizeFilter::Triangle => image::imageops::FilterType::Triangle,
        ResizeFilter::CatmullRom => image::imageops::FilterType::CatmullRom,
        ResizeFilter::Gaussian => image::imageops::FilterType::Gaussian,
        ResizeFilter::Lanczos3 => image::imageops::FilterType::Lanczos3,
    };
    let resized = image::imageops::resize(&buffer, width, height, filter);
    Raster { width, height, pixels: resized.into_raw() }
}

/// How a decoded image of `w`×`h` is scaled under the limits: not at all
/// where a side is 0, there are no limits, or it already fits.
pub open spec fn spec_prepared_change(w: u32, h: u32, limits: Option<(Option<u32>, Option<u32>)>) -> Option<DimensionChange> {
    if w == 0 || h == 0 {
        None
    } else {
        match limits {
            None => None,
            Some((mw, mh)) => match spec_fit(w as nat, h as nat, mw, mh) {
                None => None,
                Some((tw, th)) => Some(DimensionChange {
                    from_width: w,
                    from_height: h,
                    to_width: tw as u32,
                    to_height: th as u32,
                }),
            },
        }
    }
}

/// Decodes an image, read as the format its file extension names, and
/// scales it to the limits where it exceeds them. It fails exactly where the
/// image does not decode.
pub fn prepare_raster(data: &[u8], extension: &str, limits: Option<(Option<u32>, Option<u32>)>) -> (r: Result<(Raster, Option<DimensionChange>), String>)
    ensures
        match decoded_dimensions(data@, extension@) {
            None => r.is_err(),
            Some((w, h)) => r matches Ok((img, change)) && change == spec_prepared_change(w, h, limits)
                && match change {
                    Some(c) => img.width == c.to_width && img.height == c.to_height,
                    None => img.width == w && img.height == h,
                },
        },
        match r {
            Ok((img, change)) => img.wf() && match change {
                Some(c) => img.width == c.to_width && img.height == c.to_height && limits.is_some()
                    && spec_fit(c.from_width as nat, c.from_height as nat, limits.unwrap().0, limits.unwrap().1)
                        == Some((c.to_width as nat, c.to_height as nat)),
                None => true,
            },
            Err(_) => true,
        },
{
    let img = decode_rgba(data, extension)?;
    if img.width == 0 || img.height == 0 {
        return Ok((img, None));
    }
    match fit_dimensions(img.width, img.height, limits) {
        None => Ok((img, None)),
        Some(change) => {
            let scaled = resize_rgba(&img, change.to_width, change.to_height, RESIZE_FILTER);
            Ok((scaled, Some(change)))
        },
    }
}

/// The red, green and blue bytes of RGBA pixels, alpha dropped.
pub open spec fn rgb_of(pixels: Seq<u8>) -> Seq<u8> {
    Seq::new((pixels.len() / 4 * 3) as nat, |i: int| pixels[4 * (i / 3) + i % 3])
}

/// The red, green and blue bytes of RGBA pixels, alpha dropped.
pub fn rgba_to_rgb(pixels: &Vec<u8>) -> (r: Vec<u8>)
    requires
        pixels@.len() % 4 == 0,
    ensures
        r@ == rgb_of(pixels@),
        r@.len() == pixels@.len() / 4 * 3,
        forall|p: int, c: int| 0 <= p < pixels@.len() / 4 && 0 <= c < 3
            ==> #[trigger] r@[3 * p + c] == pixels@[4 * p + c],
{
    let n = pixels.len() / 4;
    assert(4 * n <= pixels@.len());
    let mut out: Vec<u8> = Vec::new();
    let mut p: usize = 0;
    while p < n
        invariant
            n == pixels@.len() / 4,
            4 * n <= pixels.len(),
            p <= n,
            out@.len() == 3 * p,
            forall|q: int, c: int| 0 <= q < p && 0 <= c < 3 ==> #[trigger] out@[3 * q + c] == pixels@[4 * q + c],
        decreases n - p,
    {
        assert(4 * p + 3 < pixels.len());
        out.push(pixels[4 * p]);
        out.push(pixels[4 * p + 1]);
        out.push(pixels[4 * p + 2]);
        proof {
            assert forall|q: int, c: int| 0 <= q < p + 1 && 0 <= c < 3 implies #[trigger] out@[3 * q + c]
                == pixels@[4 * q + c] by {
                if q < p {
                } else {
                    assert(3 * q + c == 3 * p + c);
                }
            }
        }
        p = p + 1;
    }
    assert forall|i: int| 0 <= i < out@.len() implies out@[i] == rgb_of(pixels@)[i] by {
        let q = i / 3;
        let c = i % 3;
        assert(i == 3 * q + c);
        assert(0 <= q < n);
        assert(out@[3 * q + c] == pixels@[4 * q + c]);
    }
    assert(out@ =~= rgb_of(pixels@));
    out
}

/// Whether SVG files with a document type declaration are accepted.
pub const SVG_ALLOW_DOCTYPE: bool = true;

/// The JPEG quality the encoder runs at.
pub const JPEG_QUALITY: u8 = 85;

/// How much the JPEG encoder subsamples colour: not at all (4:4:4), half
/// horizontally (4:2:2), half each way (4:2:0), half vertically (4:4:0).
#[derive(Clone, Copy, Debug, PartialEq, Eq, Structural)]
pub enum ChromaSubsampling {
    Full,
    HalfHorizontal,
    Quarter,
    HalfVertical,
}

/// The colour subsampling JPEGs are written with.
pub const JPEG_SUBSAMPLING: ChromaSubsampling = ChromaSubsampling::Quarter;

/// Whether JPEGs are written with progressive scans.
pub const JPEG_PROGRESSIVE: bool = true;

/// Whether zenjpeg encodes `rgb` as a `width`×`height` JPEG with the
/// settings (the configuration is valid, the size is accepted, and the
/// buffer holds the whole image).
pub uninterp spec fn jpeg_encodes(
    width: u32,
    height: u32,
    rgb: Seq<u8>,
    quality: u8,
    subsampling: ChromaSubsampling,
    progressive: bool,
) -> bool;

/// zenjpeg: `EncoderConfig::ycbcr` at the quality and subsampling,
/// `progressive` as given, `encode_from_bytes` for packed RGB, `push_packed`,
/// `finish`.
/// Claimed: whether encoding succeeds is the named value `jpeg_encodes` of
/// the arguments. Which bytes come out is not claimed: the encoder picks its
/// code paths by the processor's features.
#[verifier::external_body]
fn encode_jpeg_rgb(
    width: u32,
    height: u32,
    rgb: &[u8],
    quality: u8,
    subsampling: ChromaSubsampling,
    progressive: bool,
) -> (r: Result<Vec<u8>, String>)
    ensures
        r.is_ok() == jpeg_encodes(width, height, rgb@, quality, subsampling, progressive),
{
    let subsampling = match subsampling {
        ChromaSubsampling::Full => zenjpeg::encoder::ChromaSubsampling::None,
        ChromaSubsampling::HalfHorizontal => zenjpeg::encoder::ChromaSubsampling::HalfHorizontal,
        ChromaSubsampling::Quarter => zenjpeg::encoder::ChromaSubsampling::Quarter,
        ChromaSubsampling::HalfVertical => zenjpeg::encoder::ChromaSubsampling::HalfVertical,
    };
    let config = zenjpeg::encoder::EncoderConfig::ycbcr(quality, subsampling).progressive(progressive);
    let mut encoder = config
        .encode_from_bytes(width, height, zenjpeg::encoder::PixelLayout::Rgb8Srgb)
        .map_err(|error| error.to_string())?;
    encoder.push_packed(rgb, zenjpeg::encoder::Unstoppable).map_err(|error| error.to_string())?;
    encoder.finish().map_err(|error| error.to_string())
}

/// Whether the JPEG encoder, with this library's settings, accepts RGB
/// bytes for a `width`×`height` image.
pub open spec fn jpeg_accepts(width: u32, height: u32, rgb: Seq<u8>) -> bool {
    jpeg_encodes(width, height, rgb, JPEG_QUALITY, JPEG_SUBSAMPLING, JPEG_PROGRESSIVE)
}

/// Encodes pixels as a JPEG with this library's settings, alpha dropped; it succeeds
/// exactly where the encoder accepts the image.
pub fn encode_jpeg(img: &Raster) -> (r: Result<Vec<u8>, String>)
    requires
        img.wf(),
    ensures
        r.is_ok() == jpeg_accepts(img.width, img.height, rgb_of(img.pixels@)),
{
    proof {
        let k = img.width * img.height;
        assert(4 * img.width * img.height == 4 * k) by (nonlinear_arith)
            requires
                k == img.width * img.height,
        ;
        assert((4 * k) % 4 == 0);
    }
    let rgb = rgba_to_rgb(&img.pixels);
    encode_jpeg_rgb(img.width, img.height, rgb.as_slice(), JPEG_QUALITY, JPEG_SUBSAMPLING, JPEG_PROGRESSIVE)
}

/// The colour type byte of a PNG's header, as `png::Decoder::read_info`
/// reads it from `data`.
pub uninterp spec fn png_color_type_code(data: Seq<u8>) -> Option<u8>;

/// `png::Decoder::new` over the bytes, then `read_info`; the colour type of
/// the header as its PNG code.
/// Claimed: the result is the named value `png_color_type_code` of the bytes,
/// none where the header cannot be read.
#[verifier::external_body]
fn png_color_type(data: &[u8]) -> (r: Result<u8, String>)
    ensures
        match r {
            Ok(code) => png_color_type_code(data@) == Some(code),
            Err(_) => png_color_type_code(data@).is_none(),
        },
{
    let decoder = png::Decoder::new(std::io::Cursor::new(data));
    match decoder.read_info() {
        Ok(reader) => Ok(reader.info().color_type as u8),
        Err(error) => Err(error.to_string()),
    }
}

/// Whether a PNG stores palette indices (colour type 3); such images are
/// re-quantized rather than only recompressed.
pub fn png_uses_palette(data: &[u8]) -> (r: Result<bool, String>)
    ensures
        match png_color_type_code(data@) {
            Some(code) => r == Ok::<bool, String>(code == 3),
            None => r.is_err(),
        },
{
    let code = png_color_type(data)?;
    Ok(code == 3)
}

/// What the png crate writes for `width`×`height` RGBA pixels (8 bits per
/// sample, default compression), none where it refuses them.
pub uninterp spec fn png_encoded(width: u32, height: u32, pixels: Seq<u8>) -> Option<Seq<u8>>;

/// `png::Encoder::new` into a buffer, colour type RGBA, 8-bit depth,
/// `write_header`, `write_image_data`.
/// Claimed: the result is the named value `png_encoded` of the arguments.
#[verifier::external_body]
fn encode_png_rgba(width: u32, height: u32, pixels: &[u8]) -> (r: Result<Vec<u8>, String>)
    ensures
        match r {
            Ok(out) => png_encoded(width, height, pixels@) == Some(out@),
            Err(_) => png_encoded(width, height, pixels@).is_none(),
        },
{
    let mut buffer = Vec::new();
    {
        let mut encoder = png::Encoder::new(&mut buffer, width, height);
        encoder.set_color(png::ColorType::Rgba);
        encoder.set_depth(png::BitDepth::Eight);
        let mut writer = encoder.write_header().map_err(|error| error.to_string())?;
        writer.write_image_data(pixels).map_err(|error| error.to_string())?;
    }
    Ok(buffer)
}

/// What the png crate writes for a `width`×`height` palette image: 8-bit
/// indices into `palette` (RGB triples), with `transparency` giving each
/// palette entry's alpha; none where it refuses them.
pub uninterp spec fn png_indexed_encoded(
    width: u32,
    height: u32,
    palette: Seq<u8>,
    transparency: Seq<u8>,
    indices: Seq<u8>,
) -> Option<Seq<u8>>;

/// `png::Encoder::new` into a buffer, colour type indexed, 8-bit depth,
/// `set_palette`, `set_trns`, `write_header`, `write_image_data`.
/// Claimed: the result is the named value `png_indexed_encoded` of the
/// arguments.
#[verifier::external_body]
fn encode_png_indexed(
    width: u32,
    height: u32,
    palette: &[u8],
    transparency: &[u8],
    indices: &[u8],
) -> (r: Result<Vec<u8>, String>)
    ensures
        match r {
            Ok(out) => png_indexed_encoded(width, height, palette@, transparency@, indices@) == Some(out@),
            Err(_) => png_indexed_encoded(width, height, palette@, transparency@, indices@).is_none(),
        },
{
    let mut buffer = Vec::new();
    {
        let mut encoder = png::Encoder::new(&mut buffer, width, height);
        encoder.set_color(png::ColorType::Indexed);
        encoder.set_depth(png::BitDepth::Eight);
        encoder.set_palette(palette.to_vec());
        encoder.set_trns(transparency.to_vec());
        let mut writer = encoder.write_header().map_err(|error| error.to_string())?;
        writer.write_image_data(indices).map_err(|error| error.to_string())?;
    }
    Ok(buffer)
}

/// Which chunks oxipng strips: none, or those safe to drop.
#[derive(Clone, Copy, Debug, PartialEq, Eq, Structural)]
pub enum ChunkStripping {
    Keep,
    Safe,
}

/// How oxipng recompresses: which reductions it may make, which chunks it
/// strips, and whether it evaluates filters fast.
#[derive(Clone, Copy, Debug, PartialEq, Eq, Structural)]
pub struct PngRecompressOptions {
    pub bit_depth_reduction: bool,
    pub color_type_reduction: bool,
    pub palette_reduction: bool,
    pub grayscale_reduction: bool,
    pub scale_16: bool,
    pub strip: ChunkStripping,
    pub fast_evaluation: bool,
}

/// The recompression this library runs: lossless, without reductions, the
/// safe chunks stripped, with fast evaluation.
pub open spec fn spec_png_recompress_options() -> PngRecompressOptions {
    PngRecompressOptions {
        bit_depth_reduction: false,
        color_type_reduction: false,
        palette_reduction: false,
        grayscale_reduction: false,
        scale_16: false,
        strip: ChunkStripping::Safe,
        fast_evaluation: true,
    }
}

pub fn png_recompress_options() -> (r: PngRecompressOptions)
    ensures
        r == spec_png_recompress_options(),
{
    PngRecompressOptions {
        bit_depth_reduction: false,
        color_type_reduction: false,
        palette_reduction: false,
        grayscale_reduction: false,
        scale_16: false,
        strip: ChunkStripping::Safe,
        fast_evaluation: true,
    }
}

/// What `oxipng::optimize_from_memory` returns for `data` with the options
/// (other options at oxipng's defaults, so no time limit).
pub uninterp spec fn oxipng_output(data: Seq<u8>, options: PngRecompressOptions) -> Option<Seq<u8>>;

/// `oxipng::optimize_from_memory` with the given options, the others at
/// their defaults.
/// Claimed: the result is the named value `oxipng_output` of the bytes and
/// options; and, as oxipng hands back its input where it found nothing
/// smaller, the result is never longer than the input.
#[verifier::external_body]
fn recompress_png_raw(data: &[u8], options: PngRecompressOptions) -> (r: Result<Vec<u8>, String>)
    ensures
        match r {
            Ok(out) => oxipng_output(data@, options) == Some(out@) && out@.len() <= data@.len(),
            Err(_) => oxipng_output(data@, options).is_none(),
        },
{
    let strip = match options.strip {
        ChunkStripping::Keep => oxipng::StripChunks::None,
        ChunkStripping::Safe => oxipng::StripChunks::Safe,
    };
    let options = oxipng::Options {
        bit_depth_reduction: options.bit_depth_reduction,
        color_type_reduction: options.color_type_reduction,
        palette_reduction: options.palette_reduction,
        grayscale_reduction: options.grayscale_reduction,
        scale_16: options.scale_16,
        strip,
        fast_evaluation: options.fast_evaluation,
        ..Default::default()
    };
    oxipng::optimize_from_memory(data, &options).map_err(|error| error.to_string())
}

/// What this library's recompression gives for a PNG.
pub open spec fn recompressed(data: Seq<u8>) -> Option<Seq<u8>> {
    oxipng_output(data, spec_png_recompress_options())
}

/// Recompresses a PNG losslessly; the result is never larger than the input.
pub fn recompress_png(data: &[u8]) -> (r: Result<Vec<u8>, String>)
    ensures
        match r {
            Ok(out) => recompressed(data@) == Some(out@) && out@.len() <= data@.len(),
            Err(_) => recompressed(data@).is_none(),
        },
{
    recompress_png_raw(data, png_recompress_options())
}

/// What optimizing a file comes to: the bytes to write, or the format the
/// caller encodes with its own encoders (and the limits that apply).
pub enum Encoding {
    Bytes { data: Vec<u8>, resized: Option<DimensionChange> },
    Delegate { format: ImageFormat, limits: Option<(Option<u32>, Option<u32>)> },
}

/// The width a decoded image of `w`×`h` has once scaled to the limits.
pub open spec fn scaled_width(w: u32, h: u32, limits: Option<(Option<u32>, Option<u32>)>) -> u32 {
    match spec_prepared_change(w, h, limits) {
        Some(c) => c.to_width,
        None => w,
    }
}

/// The height a decoded image of `w`×`h` has once scaled to the limits.
pub open spec fn scaled_height(w: u32, h: u32, limits: Option<(Option<u32>, Option<u32>)>) -> u32 {
    match spec_prepared_change(w, h, limits) {
        Some(c) => c.to_height,
        None => h,
    }
}

/// The encoder accepts some image of `w`×`h` pixels.
pub open spec fn jpeg_accepts_some(w: u32, h: u32) -> bool {
    exists|px: Seq<u8>| px.len() == 4 * w * h && #[trigger] jpeg_accepts(w, h, rgb_of(px))
}

/// The encoder refuses some image of `w`×`h` pixels.
pub open spec fn jpeg_refuses_some(w: u32, h: u32) -> bool {
    exists|px: Seq<u8>| px.len() == 4 * w * h && !#[trigger] jpeg_accepts(w, h, rgb_of(px))
}

/// Writes a quantized image as a palette PNG and recompresses it; it fails
/// where the png crate or oxipng refuses.
pub fn write_palette_png(
    width: u32,
    height: u32,
    palette: &[u8],
    transparency: &[u8],
    indices: &[u8],
) -> (r: Result<Vec<u8>, String>)
    ensures
        match png_indexed_encoded(width, height, palette@, transparency@, indices@) {
            None => r.is_err(),
            Some(encoded) => match recompressed(encoded) {
                None => r.is_err(),
                Some(out) => r matches Ok(bytes) && bytes@ == out,
            },
        },
{
    let encoded = encode_png_indexed(width, height, palette, transparency, indices)?;
    recompress_png(encoded.as_slice())
}

/// What this library writes as PNG for `w`×`h` RGBA pixels: the png crate's
/// encoding, recompressed by oxipng; none where either refuses.
pub open spec fn png_written(w: u32, h: u32, pixels: Seq<u8>) -> Option<Seq<u8>> {
    match png_encoded(w, h, pixels) {
        Some(encoded) => recompressed(encoded),
        None => None,
    }
}

/// Some image of `w`×`h` pixels is written as the PNG bytes `out`.
pub open spec fn png_writes_some(w: u32, h: u32, out: Seq<u8>) -> bool {
    exists|px: Seq<u8>| px.len() == 4 * w * h && #[trigger] png_written(w, h, px) == Some(out)
}

/// Some image of `w`×`h` pixels cannot be written as PNG.
pub open spec fn png_fails_some(w: u32, h: u32) -> bool {
    exists|px: Seq<u8>| px.len() == 4 * w * h && #[trigger] png_written(w, h, px).is_none()
}

/// The extension of an input path (empty where it has none).
pub open spec fn input_extension(input: Seq<char>) -> Seq<char> {
    match path_extension(input) {
        Some(e) => e,
        None => Seq::empty(),
    }
}

/// An error of the encoders, reported as an I/O error with its message.
pub open spec fn is_io_error(e: ErrorPayload) -> bool {
    e@.code == "io"@ && e@.count.is_none() && e@.max.is_none() && e@.detail.is_some()
}

fn io_error(message: String) -> (r: ErrorPayload)
    ensures
        is_io_error(r),
        r@.detail == Some(message@),
{
    ErrorPayload::io(message.as_str())
}

/// Optimizes the file at `input`, whose bytes are `data`, for `output`.
/// Unknown formats and animated images are refused; HEIC needs ImageIO,
/// which is missing here. JPEG output is encoded here, from the decoded
/// image scaled to the limits; SVG is optimized here as text; a true-colour
/// PNG kept as PNG and not limited is recompressed here, and other PNG output
/// (converted, or scaled) is encoded from the decoded image scaled to the
/// limits; palette PNGs, WebP, AVIF and GIF are handed back to be encoded by
/// the caller. Dimension limits never apply to GIF and SVG.
pub fn optimize_image_file(
    input: &str,
    output: &str,
    data: &[u8],
    limits: Option<(Option<u32>, Option<u32>)>,
    output_format: OutputFormatSetting,
) -> (r: Result<Encoding, ErrorPayload>)
    ensures
        match ImageFormat::spec_from_path(input@) {
            None => r matches Err(e) && e@ == code_only("unsupportedFormat"@),
            Some(source) => {
                let enc = spec_encoder_for(source, output_format);
                let lim = if spec_resizes(source) { limits } else { None };
                if spec_checks_animation(source) && crate::animation::spec_contents_animated(source, data@) {
                    r matches Err(e) && e@ == code_only("animatedNotSupported"@)
                } else if source == ImageFormat::Heic {
                    r matches Err(e) && e@ == code_only("heicUnsupportedPlatform"@)
                } else if enc == ImageFormat::Jpeg {
                    match decoded_dimensions(data@, input_extension(input@)) {
                        None => r matches Err(e) && is_io_error(e),
                        Some((w, h)) => match r {
                            Ok(Encoding::Bytes { resized, .. }) => resized == spec_prepared_change(w, h, lim)
                                && jpeg_accepts_some(scaled_width(w, h, lim), scaled_height(w, h, lim)),
                            Ok(Encoding::Delegate { .. }) => false,
                            Err(e) => is_io_error(e)
                                && jpeg_refuses_some(scaled_width(w, h, lim), scaled_height(w, h, lim)),
                        },
                    }
                } else if enc == ImageFormat::Svg {
                    match crate::svg::utf8_text(data@) {
                        None => r matches Err(e) && is_io_error(e),
                        Some(_) => match r {
                            Ok(Encoding::Bytes { resized, .. }) => resized.is_none(),
                            Ok(Encoding::Delegate { .. }) => false,
                            Err(e) => is_io_error(e),
                        },
                    }
                } else if enc == ImageFormat::Png && source == ImageFormat::Png && lim.is_none() {
                    match png_color_type_code(data@) {
                        None => r matches Err(e) && is_io_error(e),
                        Some(3) => r matches Ok(Encoding::Delegate { format, limits }) && format
                            == ImageFormat::Png && limits.is_none(),
                        Some(_) => match recompressed(data@) {
                            None => r matches Err(e) && is_io_error(e),
                            Some(out) => r matches Ok(Encoding::Bytes { data: bytes, resized })
                                && bytes@ == out && resized.is_none(),
                        },
                    }
                } else if enc == ImageFormat::Png && !(source == ImageFormat::Png && png_color_type_code(data@)
                    == Some(3u8)) {
                    match decoded_dimensions(data@, input_extension(input@)) {
                        None => r matches Err(e) && is_io_error(e),
                        Some((w, h)) => match r {
                            Ok(Encoding::Bytes { data: bytes, resized }) => resized == spec_prepared_change(w, h, lim)
                                && png_writes_some(scaled_width(w, h, lim), scaled_height(w, h, lim), bytes@),
                            Ok(Encoding::Delegate { .. }) => false,
                            Err(e) => is_io_error(e)
                                && png_fails_some(scaled_width(w, h, lim), scaled_height(w, h, lim)),
                        },
                    }
                } else {
                    r matches Ok(Encoding::Delegate { format, limits: l }) && format == enc && l == lim
                }
            },
        },
{
    let plan = plan_optimization(input, output, output_format)?;
    if plan.check_animation {
        crate::animation::ensure_not_animated(input, plan.source, data)?;
    }
    let lim = if plan.resizes { limits } else { None };
    let ext = match crate::paths::extension(input) {
        Some(e) => e,
        None => String::new(),
    };
    assert(ext@ == input_extension(input@));
    if plan.source == ImageFormat::Heic {
        if plan.encoder == ImageFormat::Heic {
            crate::heic::optimize_heic(input, output)?;
        } else {
            crate::heic::decode_heic(input)?;
        }
        return Err(ErrorPayload::heic_unsupported_platform());
    }
    if plan.encoder == ImageFormat::Jpeg {
        let (img, resized) = match prepare_raster(data, ext.as_str(), lim) {
            Ok(prepared) => prepared,
            Err(message) => return Err(io_error(message)),
        };
        let ghost px = img.pixels@;
        let ghost (w0, h0) = decoded_dimensions(data@, input_extension(input@)).unwrap();
        let ghost tw0 = scaled_width(w0, h0, lim);
        let ghost th0 = scaled_height(w0, h0, lim);
        assert(img.width == tw0 && img.height == th0 && px.len() == 4 * tw0 * th0);
        let bytes = match encode_jpeg(&img) {
            Ok(b) => b,
            Err(message) => {
                assert(!jpeg_accepts(tw0, th0, rgb_of(px)));
                assert(jpeg_refuses_some(tw0, th0));
                return Err(io_error(message));
            },
        };
        assert(jpeg_accepts(tw0, th0, rgb_of(px)));
        assert(jpeg_accepts_some(tw0, th0));
        return Ok(Encoding::Bytes { data: bytes, resized });
    }
    if plan.encoder == ImageFormat::Svg {
        let text = match crate::svg::text_of(data) {
            Some(t) => t,
            None => return Err(io_error("stream did not contain valid UTF-8".to_owned())),
        };
        return match crate::svg::optimize_svg_text(text, SVG_ALLOW_DOCTYPE) {
            Ok(optimized) => Ok(Encoding::Bytes { data: optimized.as_str().as_bytes_vec(), resized: None }),
            Err(message) => Err(io_error(message)),
        };
    }
    if plan.encoder == ImageFormat::Png && plan.source == ImageFormat::Png && lim.is_none() {
        let palette = match png_uses_palette(data) {
            Ok(p) => p,
            Err(message) => return Err(io_error(message)),
        };
        if palette {
            return Ok(Encoding::Delegate { format: ImageFormat::Png, limits: None });
        }
        return match recompress_png(data) {
            Ok(bytes) => Ok(Encoding::Bytes { data: bytes, resized: None }),
            Err(message) => Err(io_error(message)),
        };
    }
    if plan.encoder == ImageFormat::Png {
        let palette = plan.source == ImageFormat::Png && match png_color_type(data) {
            Ok(code) => code == 3,
            Err(_) => false,
        };
        if !palette {
            let (img, resized) = match prepare_raster(data, ext.as_str(), lim) {
                Ok(prepared) => prepared,
                Err(message) => return Err(io_error(message)),
            };
            let ghost px = img.pixels@;
            let ghost (w0, h0) = decoded_dimensions(data@, input_extension(input@)).unwrap();
            let ghost tw0 = scaled_width(w0, h0, lim);
            let ghost th0 = scaled_height(w0, h0, lim);
            assert(img.width == tw0 && img.height == th0 && px.len() == 4 * tw0 * th0);
            let encoded = match encode_png_rgba(img.width, img.height, img.pixels.as_slice()) {
                Ok(bytes) => bytes,
                Err(message) => {
                    assert(png_written(tw0, th0, px).is_none());
                    assert(png_fails_some(tw0, th0));
                    return Err(io_error(message));
                },
            };
            return match recompress_png(encoded.as_slice()) {
                Ok(bytes) => {
                    assert(png_written(tw0, th0, px) == Some(bytes@));
                    assert(png_writes_some(tw0, th0, bytes@));
                    Ok(Encoding::Bytes { data: bytes, resized })
                },
                Err(message) => {
                    assert(png_written(tw0, th0, px).is_none());
                    assert(png_fails_some(tw0, th0));
                    Err(io_error(message))
                },
            };
        }
    }
    Ok(Encoding::Delegate { format: plan.encoder, limits: lim })
}

} // verus!
