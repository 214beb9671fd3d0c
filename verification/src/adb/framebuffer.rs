//! Framebuffer captures: format detection and conversion to PNG.
use crate::text::{decimal, decimal_chars, from_chars, to_chars};
use image::{ColorType, ExtendedColorType, ImageFormat};
use vstd::prelude::*;

verus! {

/// Why a framebuffer could not be turned into a PNG.
#[derive(Debug, Clone, PartialEq, Eq)]
pub enum FramebufferError {
    /// Fewer bytes than pixels, and neither a PNG nor a JPEG.
    CompressedOrUnsupported { data_len: usize, pixel_count: u64 },
    /// Fewer than two bytes per pixel.
    TooSmallForRaw { data_len: usize, pixel_count: u64 },
    /// No pixel layout fits the data.
    UnsupportedBytesPerPixel { bytes_per_pixel: u32 },
    /// Encoding the raw pixels as PNG failed; the message says why.
    Codec(String),
    /// Re-encoding JPEG data as PNG failed; the message says why.
    Jpeg(String),
}

/// The message of `e` as the USB backend words it.
pub open spec fn usb_error_text(e: FramebufferError) -> Seq<char> {
    match e {
        FramebufferError::CompressedOrUnsupported { data_len, pixel_count } =>
            "Data appears to be compressed or in unsupported format: "@ + decimal(data_len as nat)
                + " bytes for "@ + decimal(pixel_count as nat) + " pixels"@,
        FramebufferError::TooSmallForRaw { data_len, pixel_count } => "Data too small for raw format: "@
            + decimal(data_len as nat) + " bytes for "@ + decimal(pixel_count as nat)
            + " pixels (minimum "@ + decimal(2 * pixel_count as nat) + " for RGB565)"@,
        FramebufferError::UnsupportedBytesPerPixel { bytes_per_pixel } =>
            "Unsupported framebuffer format: "@ + decimal(bytes_per_pixel as nat)
                + " bytes per pixel"@,
        FramebufferError::Codec(m) => m@,
        FramebufferError::Jpeg(m) => m@,
    }
}

/// The message of `e` as the server backend words it. For data that is
/// neither raw nor an image, that backend goes on with the ratio of bytes to
/// pixels, a floating-point figure that is not part of this text.
pub open spec fn server_error_text(e: FramebufferError) -> Seq<char> {
    match e {
        FramebufferError::CompressedOrUnsupported { data_len, pixel_count } =>
            "Framebuffer data appears to be compressed or in unsupported format: "@ + decimal(
                data_len as nat,
            ) + " bytes for "@ + decimal(pixel_count as nat) + " pixels"@,
        FramebufferError::TooSmallForRaw { data_len, pixel_count } =>
            "Framebuffer data too small for raw format: "@ + decimal(data_len as nat)
                + " bytes for "@ + decimal(pixel_count as nat) + " pixels (minimum "@ + decimal(
                2 * pixel_count as nat,
            ) + " bytes for RGB565)"@,
        _ => usb_error_text(e),
    }
}

/// Appends the characters of `s` to `v`.
fn push_text(v: &mut Vec<char>, s: &str)
    ensures
        final(v)@ == old(v)@ + s@,
{
    let mut cs = to_chars(s);
    v.append(&mut cs);
}

/// Appends the decimal digits of `n` to `v`.
fn push_decimal(v: &mut Vec<char>, n: u128)
    ensures
        final(v)@ == old(v)@ + decimal(n as nat),
{
    let mut cs = decimal_chars(n);
    v.append(&mut cs);
}

impl FramebufferError {
    /// The message of the error, as the USB backend words it.
    pub fn message(&self) -> (r: String)
        ensures
            r@ == usb_error_text(*self),
    {
        let mut v: Vec<char> = Vec::new();
        match self {
            FramebufferError::CompressedOrUnsupported { data_len, pixel_count } => {
                push_text(&mut v, "Data appears to be compressed or in unsupported format: ");
                push_decimal(&mut v, *data_len as u128);
                push_text(&mut v, " bytes for ");
                push_decimal(&mut v, *pixel_count as u128);
                push_text(&mut v, " pixels");
            },
            FramebufferError::TooSmallForRaw { data_len, pixel_count } => {
                push_text(&mut v, "Data too small for raw format: ");
                push_decimal(&mut v, *data_len as u128);
                push_text(&mut v, " bytes for ");
                push_decimal(&mut v, *pixel_count as u128);
                push_text(&mut v, " pixels (minimum ");
                push_decimal(&mut v, 2 * (*pixel_count as u128));
                push_text(&mut v, " for RGB565)");
            },
            FramebufferError::UnsupportedBytesPerPixel { bytes_per_pixel } => {
                push_text(&mut v, "Unsupported framebuffer format: ");
                push_decimal(&mut v, *bytes_per_pixel as u128);
                push_text(&mut v, " bytes per pixel");
            },
            FramebufferError::Codec(m) => {
                return m.clone();
            },
            FramebufferError::Jpeg(m) => {
                return m.clone();
            },
        }
        from_chars(&v)
    }

    /// The message of the error, as the server backend words it (without
    /// the floating-point ratio that backend adds for unconvertible data).
    pub fn server_message(&self) -> (r: String)
        ensures
            r@ == server_error_text(*self),
    {
        let mut v: Vec<char> = Vec::new();
        match self {
            FramebufferError::CompressedOrUnsupported { data_len, pixel_count } => {
                push_text(
                    &mut v,
                    "Framebuffer data appears to be compressed or in unsupported format: ",
                );
                push_decimal(&mut v, *data_len as u128);
                push_text(&mut v, " bytes for ");
                push_decimal(&mut v, *pixel_count as u128);
                push_text(&mut v, " pixels");
            },
            FramebufferError::TooSmallForRaw { data_len, pixel_count } => {
                push_text(&mut v, "Framebuffer data too small for raw format: ");
                push_decimal(&mut v, *data_len as u128);
                push_text(&mut v, " bytes for ");
                push_decimal(&mut v, *pixel_count as u128);
                push_text(&mut v, " pixels (minimum ");
                push_decimal(&mut v, 2 * (*pixel_count as u128));
                push_text(&mut v, " bytes for RGB565)");
            },
            _ => {
                return self.message();
            },
        }
        from_chars(&v)
    }
}

/// How a framebuffer is to be converted.
#[derive(Debug, Clone, PartialEq, Eq)]
pub enum FramePlan {
    /// The data already is a PNG.
    AlreadyPng,
    /// The data is a JPEG, to be re-encoded.
    Jpeg,
    /// Raw pixels, `bytes_per_pixel` each, starting at byte `offset`.
    Raw { offset: usize, bytes_per_pixel: u32 },
    /// The data cannot be converted.
    Fail(FramebufferError),
}

pub open spec fn pixel_count(sx: u32, sy: u32) -> int {
    sx as int * sy as int
}

/// The PNG signature `\x89PNG\r\n\x1a\n`.
pub open spec fn png_magic() -> Seq<u8> {
    seq![0x89u8, 0x50u8, 0x4Eu8, 0x47u8, 0x0Du8, 0x0Au8, 0x1Au8, 0x0Au8]
}

pub open spec fn starts_png(d: Seq<u8>) -> bool {
    d.len() >= 8 && d.take(8) == png_magic()
}

/// The JPEG start-of-image marker `FF D8`.
pub open spec fn starts_jpeg(d: Seq<u8>) -> bool {
    d.len() >= 2 && d[0] == 0xFFu8 && d[1] == 0xD8u8
}

/// What data shorter than one byte per pixel is: a PNG or JPEG, or
/// nothing that can be converted.
pub open spec fn short_data_plan(d: Seq<u8>, pc: int) -> FramePlan {
    if starts_png(d) {
        FramePlan::AlreadyPng
    } else if starts_jpeg(d) {
        FramePlan::Jpeg
    } else {
        FramePlan::Fail(
            FramebufferError::CompressedOrUnsupported {
                data_len: d.len() as usize,
                pixel_count: pc as u64,
            },
        )
    }
}

/// The plan of the USB backend: short data is a PNG or a JPEG; raw data
/// must hold four bytes (RGBA) per pixel, read from the start.
pub open spec fn usb_plan(d: Seq<u8>, sx: u32, sy: u32) -> FramePlan {
    let pc = pixel_count(sx, sy);
    if d.len() < pc {
        short_data_plan(d, pc)
    } else if d.len() < 2 * pc {
        FramePlan::Fail(
            FramebufferError::TooSmallForRaw { data_len: d.len() as usize, pixel_count: pc as u64 },
        )
    } else if d.len() > 0 && d.len() >= 4 * pc {
        FramePlan::Raw { offset: 0, bytes_per_pixel: 4 }
    } else {
        FramePlan::Fail(FramebufferError::UnsupportedBytesPerPixel { bytes_per_pixel: 0 })
    }
}

/// The plan of the server backend: short data is a PNG or a JPEG; raw data
/// holds four (RGBA), three (RGB) or two (RGB565) bytes per pixel, the most
/// that fit, and its pixels are the last bytes of the data.
pub open spec fn server_plan(d: Seq<u8>, sx: u32, sy: u32) -> FramePlan {
    let pc = pixel_count(sx, sy);
    if d.len() < pc {
        short_data_plan(d, pc)
    } else if d.len() < 2 * pc {
        FramePlan::Fail(
            FramebufferError::TooSmallForRaw { data_len: d.len() as usize, pixel_count: pc as u64 },
        )
    } else if d.len() >= 4 * pc {
        FramePlan::Raw { offset: (d.len() - 4 * pc) as usize, bytes_per_pixel: 4 }
    } else if d.len() >= 3 * pc {
        FramePlan::Raw { offset: (d.len() - 3 * pc) as usize, bytes_per_pixel: 3 }
    } else {
        FramePlan::Raw { offset: (d.len() - 2 * pc) as usize, bytes_per_pixel: 2 }
    }
}

/// The number of pixels of a `sx` by `sy` screen.
pub fn pixel_count_of(sx: u32, sy: u32) -> (r: u64)
    ensures
        r == pixel_count(sx, sy),
{
    assert(sx as int * sy as int <= u64::MAX) by (nonlinear_arith)
        requires
            sx <= u32::MAX,
            sy <= u32::MAX,
    ;
    sx as u64 * sy as u64
}

fn is_png(d: &[u8]) -> (r: bool)
    ensures
        r == starts_png(d@),
{
    if d.len() < 8 {
        return false;
    }
    let r = d[0] == 0x89 && d[1] == 0x50 && d[2] == 0x4E && d[3] == 0x47 && d[4] == 0x0D && d[5]
        == 0x0A && d[6] == 0x1A && d[7] == 0x0A;
    assert(r == (d@.take(8) =~= png_magic()));
    r
}

fn is_jpeg(d: &[u8]) -> (r: bool)
    ensures
        r == starts_jpeg(d@),
{
    d.len() >= 2 && d[0] == 0xFF && d[1] == 0xD8
}

fn short_plan(d: &[u8], pc: u64) -> (r: FramePlan)
    ensures
        r == short_data_plan(d@, pc as int),
{
    if is_png(d) {
        FramePlan::AlreadyPng
    } else if is_jpeg(d) {
        FramePlan::Jpeg
    } else {
        FramePlan::Fail(
            FramebufferError::CompressedOrUnsupported { data_len: d.len(), pixel_count: pc },
        )
    }
}

/// Decides how the USB backend converts `d` for a `sx` by `sy` screen.
pub fn plan_usb(d: &[u8], sx: u32, sy: u32) -> (r: FramePlan)
    ensures
        r == usb_plan(d@, sx, sy),
{
    let pc: u64 = pixel_count_of(sx, sy);
    let len = d.len() as u128;
    if len < pc as u128 {
        short_plan(d, pc)
    } else if len < 2 * (pc as u128) {
        FramePlan::Fail(FramebufferError::TooSmallForRaw { data_len: d.len(), pixel_count: pc })
    } else if len > 0 && len >= 4 * (pc as u128) {
        FramePlan::Raw { offset: 0, bytes_per_pixel: 4 }
    } else {
        FramePlan::Fail(FramebufferError::UnsupportedBytesPerPixel { bytes_per_pixel: 0 })
    }
}

/// Decides how the server backend converts `d` for a `sx` by `sy` screen.
pub fn plan_server(d: &[u8], sx: u32, sy: u32) -> (r: FramePlan)
    ensures
        r == server_plan(d@, sx, sy),
{
    let pc: u64 = pixel_count_of(sx, sy);
    let len = d.len() as u128;
    let p = pc as u128;
    if len < p {
        short_plan(d, pc)
    } else if len < 2 * p {
        FramePlan::Fail(FramebufferError::TooSmallForRaw { data_len: d.len(), pixel_count: pc })
    } else if len >= 4 * p {
        FramePlan::Raw { offset: (len - 4 * p) as usize, bytes_per_pixel: 4 }
    } else if len >= 3 * p {
        FramePlan::Raw { offset: (len - 3 * p) as usize, bytes_per_pixel: 3 }
    } else {
        FramePlan::Raw { offset: (len - 2 * p) as usize, bytes_per_pixel: 2 }
    }
}

/// Guesses the bytes per pixel of raw data of `data_len` bytes for a
/// `width` by `height` screen: the first of 4, 3 and 2 for which the data
/// holds that many bytes per pixel and less than 1024 bytes more.
pub open spec fn bytes_per_pixel_guess(width: u32, height: u32, data_len: usize) -> Option<u32> {
    let pc = pixel_count(width, height);
    if data_len < pc {
        None
    } else if 4 * pc <= data_len < 4 * pc + 1024 {
        Some(4)
    } else if 3 * pc <= data_len < 3 * pc + 1024 {
        Some(3)
    } else if 2 * pc <= data_len < 2 * pc + 1024 {
        Some(2)
    } else {
        None
    }
}

pub fn detect_bytes_per_pixel(width: u32, height: u32, data_len: usize) -> (r: Option<u32>)
    ensures
        r == bytes_per_pixel_guess(width, height, data_len),
{
    let pc = pixel_count_of(width, height) as u128;
    let len = data_len as u128;
    if len < pc {
        return None;
    }
    if 4 * pc <= len && len < 4 * pc + 1024 {
        Some(4)
    } else if 3 * pc <= len && len < 3 * pc + 1024 {
        Some(3)
    } else if 2 * pc <= len && len < 2 * pc + 1024 {
        Some(2)
    } else {
        None
    }
}

// ------------------------------------------------------------------
// RGB565
// ------------------------------------------------------------------

/// A 5-bit channel widened to 8 bits, its top bits repeated below.
pub open spec fn expand5(v: u8) -> u8 {
    ((v << 3u8) | (v >> 2u8)) as u8
}

/// A 6-bit channel widened to 8 bits, its top bits repeated below.
pub open spec fn expand6(v: u8) -> u8 {
    ((v << 2u8) | (v >> 4u8)) as u8
}

/// The little-endian 16-bit pixel in bytes `lo`, `hi`.
pub open spec fn pixel565(lo: u8, hi: u8) -> u16 {
    (lo as u16 | ((hi as u16) << 8u16)) as u16
}

pub open spec fn red565(p: u16) -> u8 {
    ((p >> 11u16) & 0x1Fu16) as u8
}

pub open spec fn green565(p: u16) -> u8 {
    ((p >> 5u16) & 0x3Fu16) as u8
}

pub open spec fn blue565(p: u16) -> u8 {
    (p & 0x1Fu16) as u8
}

/// Channel `ch` (0 red, 1 green, 2 blue) of the 8-bit form of `p`.
pub open spec fn channel_of(p: u16, ch: int) -> u8 {
    if ch == 0 {
        expand5(red565(p))
    } else if ch == 1 {
        expand6(green565(p))
    } else {
        expand5(blue565(p))
    }
}

/// RGB565 pixels (two bytes each, little-endian) as 8-bit RGB.
pub open spec fn rgb565_to_rgb_spec(d: Seq<u8>) -> Seq<u8> {
    Seq::new(
        ((d.len() / 2) * 3) as nat,
        |i: int| channel_of(pixel565(d[2 * (i / 3)], d[2 * (i / 3) + 1]), i % 3),
    )
}

/// Converts RGB565 pixels to 8-bit RGB (a trailing odd byte is ignored).
pub fn rgb565_to_rgb(d: &[u8]) -> (r: Vec<u8>)
    requires
        d.len() / 2 * 3 <= usize::MAX,
    ensures
        r@ == rgb565_to_rgb_spec(d@),
{
    let n = d.len() / 2;
    let mut out: Vec<u8> = Vec::new();
    let mut i: usize = 0;
    while i < n
        invariant
            n == d.len() / 2,
            i <= n,
            n * 3 <= usize::MAX,
            out@ =~= rgb565_to_rgb_spec(d@).take(3 * i),
        decreases n - i,
    {
        let lo = d[2 * i];
        let hi = d[2 * i + 1];
        let p: u16 = (lo as u16) | ((hi as u16) << 8u16);
        let r5: u8 = ((p >> 11u16) & 0x1F) as u8;
        let g6: u8 = ((p >> 5u16) & 0x3F) as u8;
        let b5: u8 = (p & 0x1F) as u8;
        assert(r5 < 32 && b5 < 32 && g6 < 64) by (bit_vector)
            requires
                r5 == ((p >> 11u16) & 0x1Fu16) as u8,
                g6 == ((p >> 5u16) & 0x3Fu16) as u8,
                b5 == (p & 0x1Fu16) as u8,
        ;
        let rr: u8 = (r5 << 3u8) | (r5 >> 2u8);
        let gg: u8 = (g6 << 2u8) | (g6 >> 4u8);
        let bb: u8 = (b5 << 3u8) | (b5 >> 2u8);
        let ghost spec = rgb565_to_rgb_spec(d@);
        proof {
            assert(p == pixel565(lo, hi));
            assert(spec[3 * i] == rr);
            assert(spec[3 * i + 1] == gg);
            assert(spec[3 * i + 2] == bb);
        }
        out.push(rr);
        out.push(gg);
        out.push(bb);
        assert(out@ =~= spec.take(3 * (i + 1)));
        i += 1;
    }
    out
}

/// Full intensity stays full and zero stays zero when a channel is widened.
pub proof fn law_rgb565_extremes()
    ensures
        expand5(0) == 0,
        expand5(31) == 255,
        expand6(0) == 0,
        expand6(63) == 255,
{
    assert(((0u8 << 3u8) | (0u8 >> 2u8)) as u8 == 0) by (bit_vector);
    assert(((31u8 << 3u8) | (31u8 >> 2u8)) as u8 == 255) by (bit_vector);
    assert(((0u8 << 2u8) | (0u8 >> 4u8)) as u8 == 0) by (bit_vector);
    assert(((63u8 << 2u8) | (63u8 >> 4u8)) as u8 == 255) by (bit_vector);
}

/// Widening keeps the order of intensities.
pub proof fn law_rgb565_monotone(a: u8, b: u8)
    requires
        a <= b,
        b < 64,
    ensures
        b < 32 ==> expand5(a) <= expand5(b),
        expand6(a) <= expand6(b),
{
    assert(a <= b && b < 32 ==> ((a << 3u8) | (a >> 2u8)) as u8 <= ((b << 3u8) | (b >> 2u8)) as u8)
        by (bit_vector);
    assert(a <= b && b < 64 ==> ((a << 2u8) | (a >> 4u8)) as u8 <= ((b << 2u8) | (b >> 4u8)) as u8)
        by (bit_vector);
}

// ------------------------------------------------------------------
// Encoding
// ------------------------------------------------------------------

/// How the pixels handed to the PNG encoder are laid out.
#[derive(Debug, Clone, Copy, PartialEq, Eq, Structural)]
pub enum PixelLayout {
    /// One 8-bit grey channel per pixel.
    L8,
    /// An 8-bit grey and an 8-bit alpha channel per pixel.
    La8,
    /// Three 8-bit channels per pixel.
    Rgb8,
    /// Four 8-bit channels per pixel.
    Rgba8,
}

pub open spec fn channels_of(layout: PixelLayout) -> int {
    match layout {
        PixelLayout::L8 => 1,
        PixelLayout::La8 => 2,
        PixelLayout::Rgb8 => 3,
        PixelLayout::Rgba8 => 4,
    }
}

fn channels_exec(layout: PixelLayout) -> (r: u8)
    ensures
        r == channels_of(layout),
{
    match layout {
        PixelLayout::L8 => 1,
        PixelLayout::La8 => 2,
        PixelLayout::Rgb8 => 3,
        PixelLayout::Rgba8 => 4,
    }
}

/// The layout of pixels with `channels` channels (3 or 4).
pub open spec fn layout_of(channels: u8) -> PixelLayout {
    if channels == 4 {
        PixelLayout::Rgba8
    } else {
        PixelLayout::Rgb8
    }
}

fn layout_for(channels: u8) -> (r: PixelLayout)
    ensures
        r == layout_of(channels),
{
    if channels == 4 {
        PixelLayout::Rgba8
    } else {
        PixelLayout::Rgb8
    }
}

/// The name of what the `image` crate's `PngEncoder` makes of `width` by
/// `height` pixels laid out as `layout`: the PNG bytes, or the message of
/// the encoder's error.
pub uninterp spec fn png_encoding(pixels: Seq<u8>, width: u32, height: u32, layout: PixelLayout) -> Result<
    Seq<u8>,
    Seq<char>,
>;

/// `image::ImageEncoder::write_image` of a `PngEncoder` into a fresh
/// buffer, for 8-bit grey, grey-alpha, RGB or RGBA pixels (the encoder
/// asserts that the buffer holds exactly that many bytes). Claims that the
/// outcome, bytes or error message, is `png_encoding` of the arguments.
#[verifier::external_body]
fn encode_png(pixels: &[u8], width: u32, height: u32, layout: PixelLayout) -> (r: Result<Vec<u8>, String>)
    requires
        pixels.len() == width as int * height as int * channels_of(layout),
    ensures
        match r {
            Ok(png) => png_encoding(pixels@, width, height, layout) == Ok::<Seq<u8>, Seq<char>>(png@),
            Err(e) => png_encoding(pixels@, width, height, layout) == Err::<Seq<u8>, Seq<char>>(e@),
        },
{
    let color = match layout {
        PixelLayout::L8 => ExtendedColorType::L8,
        PixelLayout::La8 => ExtendedColorType::La8,
        PixelLayout::Rgb8 => ExtendedColorType::Rgb8,
        PixelLayout::Rgba8 => ExtendedColorType::Rgba8,
    };
    let mut out: Vec<u8> = Vec::new();
    let encoder = image::codecs::png::PngEncoder::new(&mut out);
    match image::ImageEncoder::write_image(encoder, pixels, width, height, color) {
        Ok(()) => Ok(out),
        Err(e) => Err(e.to_string()),
    }
}

/// A decoded image as plain values.
pub struct DecodedImage {
    pub width: u32,
    pub height: u32,
    pub layout: PixelLayout,
    /// The pixel bytes, row by row.
    pub pixels: Vec<u8>,
}

/// The name of what `image::load_from_memory_with_format` makes of JPEG
/// data: width, height, layout and pixel bytes, or the message of the
/// decoder's error.
pub uninterp spec fn jpeg_decoding(data: Seq<u8>) -> Result<(u32, u32, PixelLayout, Seq<u8>), Seq<char>>;

/// `image::load_from_memory_with_format` for JPEG data, the image read as
/// its size, colour layout and bytes (`DynamicImage::as_bytes`). The JPEG
/// decoder yields grey, grey-alpha, RGB or RGBA 8-bit images only; any other
/// colour type is passed on as an error. Claims that the outcome is
/// `jpeg_decoding` of the data.
#[verifier::external_body]
fn decode_jpeg(data: &[u8]) -> (r: Result<DecodedImage, String>)
    ensures
        match r {
            Ok(d) => jpeg_decoding(data@) == Ok::<(u32, u32, PixelLayout, Seq<u8>), Seq<char>>(
                (d.width, d.height, d.layout, d.pixels@),
            ),
            Err(e) => jpeg_decoding(data@) == Err::<(u32, u32, PixelLayout, Seq<u8>), Seq<char>>(e@),
        },
{
    let img = match image::load_from_memory_with_format(data, ImageFormat::Jpeg) {
        Ok(img) => img,
        Err(e) => return Err(e.to_string()),
    };
    let layout = match img.color() {
        ColorType::L8 => PixelLayout::L8,
        ColorType::La8 => PixelLayout::La8,
        ColorType::Rgb8 => PixelLayout::Rgb8,
        ColorType::Rgba8 => PixelLayout::Rgba8,
        other => return Err(format!("Unsupported JPEG color type {:?}", other)),
    };
    Ok(DecodedImage { width: img.width(), height: img.height(), layout, pixels: img.as_bytes().to_vec() })
}

/// `o` with `p` put before its error message.
pub open spec fn prefixed(p: Seq<char>, o: Result<Seq<u8>, Seq<char>>) -> Result<Seq<u8>, Seq<char>> {
    match o {
        Ok(b) => Ok(b),
        Err(e) => Err(p + e),
    }
}

pub open spec fn rgba_encode_prefix() -> Seq<char> {
    "Failed to encode RGBA PNG: "@
}

pub open spec fn rgb_encode_prefix() -> Seq<char> {
    "Failed to encode RGB PNG: "@
}

pub open spec fn rgb565_encode_prefix() -> Seq<char> {
    "Failed to encode RGB565 PNG: "@
}

pub open spec fn jpeg_decode_prefix() -> Seq<char> {
    "Failed to decode JPEG: "@
}

pub open spec fn jpeg_encode_prefix() -> Seq<char> {
    "Failed to encode JPEG as PNG: "@
}

/// The error for a decoded image whose bytes do not fit its size.
pub open spec fn size_mismatch_error() -> Seq<char> {
    "decoded size does not match its pixel data"@
}

/// What re-encoding JPEG data as PNG gives: the PNG of the decoded image in
/// its own layout, or the error message of the decoder or the encoder after
/// the step that failed.
pub open spec fn jpeg_png(data: Seq<u8>) -> Result<Seq<u8>, Seq<char>> {
    match jpeg_decoding(data) {
        Err(e) => Err(jpeg_decode_prefix() + e),
        Ok((w, h, l, px)) => if px.len() == w as int * h as int * channels_of(l) {
            prefixed(jpeg_encode_prefix(), png_encoding(px, w, h, l))
        } else {
            Err(jpeg_decode_prefix() + size_mismatch_error())
        },
    }
}

/// `r` is the outcome `o` of encoding raw pixels, its error as a codec error.
pub open spec fn codec_outcome(r: Result<Vec<u8>, FramebufferError>, o: Result<Seq<u8>, Seq<char>>) -> bool {
    match r {
        Ok(p) => o == Ok::<Seq<u8>, Seq<char>>(p@),
        Err(FramebufferError::Codec(m)) => o == Err::<Seq<u8>, Seq<char>>(m@),
        Err(_) => false,
    }
}

/// `r` is the outcome `o` of re-encoding a JPEG, its error as a JPEG error.
pub open spec fn jpeg_outcome(r: Result<Vec<u8>, FramebufferError>, o: Result<Seq<u8>, Seq<char>>) -> bool {
    match r {
        Ok(p) => o == Ok::<Seq<u8>, Seq<char>>(p@),
        Err(FramebufferError::Jpeg(m)) => o == Err::<Seq<u8>, Seq<char>>(m@),
        Err(_) => false,
    }
}

/// `prefix` followed by `e`.
fn prefix_message(prefix: &str, e: String) -> (r: String)
    ensures
        r@ == prefix@ + e@,
{
    crate::text::concat(prefix, e.as_str())
}

/// Re-encodes a JPEG as PNG: the decoded image is written in its own
/// colour layout.
pub fn jpeg_to_png(data: &[u8]) -> (r: Result<Vec<u8>, FramebufferError>)
    ensures
        jpeg_outcome(r, jpeg_png(data@)),
{
    match decode_jpeg(data) {
        Ok(img) => {
            let pc = pixel_count_of(img.width, img.height);
            let ch = channels_exec(img.layout);
            assert(pc as int * ch as int <= u128::MAX) by (nonlinear_arith)
                requires
                    pc <= u64::MAX,
                    ch <= 4,
            ;
            let n = pc as u128 * ch as u128;
            if img.pixels.len() as u128 != n {
                return Err(
                    FramebufferError::Jpeg(
                        crate::text::concat(
                            "Failed to decode JPEG: ",
                            "decoded size does not match its pixel data",
                        ),
                    ),
                );
            }
            match encode_png(&img.pixels, img.width, img.height, img.layout) {
                Ok(png) => Ok(png),
                Err(e) => Err(FramebufferError::Jpeg(prefix_message("Failed to encode JPEG as PNG: ", e))),
            }
        },
        Err(e) => Err(FramebufferError::Jpeg(prefix_message("Failed to decode JPEG: ", e))),
    }
}

fn encode_raw(d: &[u8], offset: usize, sx: u32, sy: u32, channels: u8, prefix: &str) -> (r: Result<
    Vec<u8>,
    FramebufferError,
>)
    requires
        channels == 3 || channels == 4,
        offset + pixel_count(sx, sy) * channels <= d.len(),
    ensures
        codec_outcome(
            r,
            prefixed(
                prefix@,
                png_encoding(
                    d@.subrange(offset as int, offset + pixel_count(sx, sy) * channels),
                    sx,
                    sy,
                    layout_of(channels),
                ),
            ),
        ),
{
    let n = (pixel_count_of(sx, sy) as u128 * channels as u128) as usize;
    let pixels = &d[offset..offset + n];
    assert(pixels@ =~= d@.subrange(offset as int, offset + n));
    match encode_png(pixels, sx, sy, layout_for(channels)) {
        Ok(png) => Ok(png),
        Err(e) => Err(FramebufferError::Codec(prefix_message(prefix, e))),
    }
}

/// Turns a USB framebuffer capture into PNG bytes: PNG data is returned as
/// it is, JPEG data is re-encoded, raw data must be RGBA from its first
/// byte; any other data is refused with the reason.
pub fn framebuffer_to_png_usb(data: Vec<u8>, screen_x: u32, screen_y: u32) -> (r: Result<
    Vec<u8>,
    FramebufferError,
>)
    ensures
        usb_plan(data@, screen_x, screen_y) == FramePlan::AlreadyPng ==> r == Ok::<
            Vec<u8>,
            FramebufferError,
        >(data),
        usb_plan(data@, screen_x, screen_y) matches FramePlan::Fail(e) ==> r == Err::<
            Vec<u8>,
            FramebufferError,
        >(e),
        usb_plan(data@, screen_x, screen_y) is Raw ==> codec_outcome(
            r,
            prefixed(
                rgba_encode_prefix(),
                png_encoding(
                    data@.subrange(0, pixel_count(screen_x, screen_y) * 4),
                    screen_x,
                    screen_y,
                    PixelLayout::Rgba8,
                ),
            ),
        ),
        usb_plan(data@, screen_x, screen_y) is Jpeg ==> jpeg_outcome(r, jpeg_png(data@)),
{
    match plan_usb(&data, screen_x, screen_y) {
        FramePlan::AlreadyPng => Ok(data),
        FramePlan::Jpeg => jpeg_to_png(&data),
        FramePlan::Raw { offset, bytes_per_pixel } => {
            encode_raw(&data, offset, screen_x, screen_y, 4, "Failed to encode RGBA PNG: ")
        },
        FramePlan::Fail(e) => Err(e),
    }
}

/// The error for RGB565 data whose RGB widening would not fit in memory.
pub open spec fn rgb565_too_large_error() -> Seq<char> {
    "RGB565 image too large to convert"@
}

/// What the server backend makes of raw pixels: RGBA and RGB are encoded
/// as they are, RGB565 is first widened to RGB.
pub open spec fn server_png(d: Seq<u8>, offset: int, bpp: u32, sx: u32, sy: u32) -> Result<
    Seq<u8>,
    Seq<char>,
> {
    let pc = pixel_count(sx, sy);
    if bpp == 4 {
        prefixed(
            rgba_encode_prefix(),
            png_encoding(d.subrange(offset, offset + 4 * pc), sx, sy, PixelLayout::Rgba8),
        )
    } else if bpp == 3 {
        prefixed(
            rgb_encode_prefix(),
            png_encoding(d.subrange(offset, offset + 3 * pc), sx, sy, PixelLayout::Rgb8),
        )
    } else if pc * 3 > usize::MAX {
        Err(rgb565_too_large_error())
    } else {
        prefixed(
            rgb565_encode_prefix(),
            png_encoding(
                rgb565_to_rgb_spec(d.subrange(offset, offset + 2 * pc)),
                sx,
                sy,
                PixelLayout::Rgb8,
            ),
        )
    }
}

/// Turns a server framebuffer capture into PNG bytes: PNG data is returned
/// as it is, JPEG data is re-encoded, raw data is read as RGBA, RGB or
/// RGB565 from its last bytes; any other data is refused with the reason.
pub fn framebuffer_to_png_server(data: Vec<u8>, screen_x: u32, screen_y: u32) -> (r: Result<
    Vec<u8>,
    FramebufferError,
>)
    ensures
        server_plan(data@, screen_x, screen_y) == FramePlan::AlreadyPng ==> r == Ok::<
            Vec<u8>,
            FramebufferError,
        >(data),
        server_plan(data@, screen_x, screen_y) matches FramePlan::Fail(e) ==> r == Err::<
            Vec<u8>,
            FramebufferError,
        >(e),
        server_plan(data@, screen_x, screen_y) matches FramePlan::Raw { offset, bytes_per_pixel } ==> codec_outcome(
            r,
            server_png(data@, offset as int, bytes_per_pixel, screen_x, screen_y),
        ),
        server_plan(data@, screen_x, screen_y) is Jpeg ==> jpeg_outcome(r, jpeg_png(data@)),
{
    match plan_server(&data, screen_x, screen_y) {
        FramePlan::AlreadyPng => Ok(data),
        FramePlan::Jpeg => jpeg_to_png(&data),
        FramePlan::Raw { offset, bytes_per_pixel } => {
            if bytes_per_pixel == 4 {
                encode_raw(&data, offset, screen_x, screen_y, 4, "Failed to encode RGBA PNG: ")
            } else if bytes_per_pixel == 3 {
                encode_raw(&data, offset, screen_x, screen_y, 3, "Failed to encode RGB PNG: ")
            } else {
                let pc = pixel_count_of(screen_x, screen_y);
                let len = data.len();
                assert(offset + 2 * pc == len);
                let n = (pc as u128 * 2) as usize;
                assert(n == 2 * pc);
                let raw = &data[offset..offset + n];
                assert(raw@ =~= data@.subrange(offset as int, offset + n));
                if pc as u128 * 3 > usize::MAX as u128 {
                    return Err(
                        FramebufferError::Codec(
                            crate::text::from_chars(
                                &crate::text::to_chars("RGB565 image too large to convert"),
                            ),
                        ),
                    );
                }
                let rgb = rgb565_to_rgb(raw);
                assert(rgb@.len() == pixel_count(screen_x, screen_y) * 3);
                match encode_png(&rgb, screen_x, screen_y, PixelLayout::Rgb8) {
                    Ok(png) => Ok(png),
                    Err(e) => Err(
                        FramebufferError::Codec(prefix_message("Failed to encode RGB565 PNG: ", e)),
                    ),
                }
            }
        },
        FramePlan::Fail(e) => Err(e),
    }
}

} // verus!
