//! Decoding: what a request asks for, how a worker handles it, the LIFO queue
//! of pending requests, and the pixel work done in the library itself. Files
//! are read by the caller; decoding from bytes goes through the `image` crate.
use std::io::Cursor;
use vstd::prelude::*;

use image::codecs::gif::GifDecoder;
use image::codecs::webp::WebPDecoder;
use image::{DynamicImage, Frame, Frames, ImageError, ImageFormat};

use crate::dir::ZipSource;
use crate::state::DecodedFrame;
use crate::text::{
    path_with_extension, with_extension,
    ascii_lower_seq, chars_equal, chars_of, ends_with, ends_with_ascii_ci, extension_of, lowercase,
    path_extension, to_lowercase,
};

verus! {

/// A request to decode one image.
#[derive(Debug)]
pub struct DecodeRequest {
    pub path: String,
    pub is_thumbnail: bool,
    pub generation: u64,
    pub zip_source: Option<ZipSource>,
    pub thumb_size: u32,
}

/// RGBA8 pixels, row-major, four bytes per pixel.
pub struct DecodedImage {
    pub rgba: Vec<u8>,
    pub width: u32,
    pub height: u32,
}

impl DecodedImage {
    /// The buffer holds exactly `width * height` pixels.
    pub open spec fn wf(&self) -> bool {
        self.rgba@.len() == 4 * (self.width as int) * (self.height as int)
    }
}

/// The frames of an animation and how long each is shown, in milliseconds.
pub struct AnimatedResult {
    pub frames: Vec<DecodedFrame>,
    pub delays: Vec<u64>,
}

/// What a worker hands back for a request.
pub struct DecodeResult {
    pub path: String,
    pub is_thumbnail: bool,
    pub generation: u64,
    pub data: Option<DecodedImage>,
    pub animated: Option<AnimatedResult>,
}

// ---------------------------------------------------------------------------
// The request queue
// ---------------------------------------------------------------------------

/// The requests of `s` whose generation is at least `generation`, in order.
pub open spec fn current_requests(s: Seq<DecodeRequest>, generation: u64) -> Seq<DecodeRequest>
    decreases s.len(),
{
    if s.len() == 0 {
        Seq::empty()
    } else {
        let prev = current_requests(s.drop_last(), generation);
        if s.last().generation >= generation {
            prev.push(s.last())
        } else {
            prev
        }
    }
}

/// Last in, first out: the most recent request (the image the user is looking
/// at) is decoded first.
pub struct WorkQueue {
    pub stack: Vec<DecodeRequest>,
}

impl WorkQueue {
    /// An empty queue.
    pub fn new() -> (r: Self)
        ensures
            r.stack@.len() == 0,
    {
        WorkQueue { stack: Vec::new() }
    }

    /// Add a request on top.
    pub fn push(&mut self, req: DecodeRequest)
        ensures
            final(self).stack@ == old(self).stack@.push(req),
    {
        self.stack.push(req);
    }

    /// Take the newest request, if there is one. A blocking worker waits and
    /// tries again when this gives `None`.
    pub fn pop(&mut self) -> (r: Option<DecodeRequest>)
        ensures
            old(self).stack@.len() == 0 ==> r is None && final(self).stack@.len() == 0,
            old(self).stack@.len() > 0 ==> r == Some(old(self).stack@.last())
                && final(self).stack@ == old(self).stack@.drop_last(),
    {
        self.stack.pop()
    }

    /// Drop every request older than `generation`, keeping the others in order.
    pub fn drain_stale(&mut self, generation: u64)
        ensures
            final(self).stack@ == current_requests(old(self).stack@, generation),
    {
        let mut old_stack: Vec<DecodeRequest> = Vec::new();
        std::mem::swap(&mut old_stack, &mut self.stack);
        let ghost all = old_stack@;
        let mut kept: Vec<DecodeRequest> = Vec::new();
        for r in it: old_stack.into_iter()
            invariant
                it.seq() == all,
                kept@ == current_requests(all.take(it.index() as int), generation),
        {
            let ghost i = it.index();
            assert(all.take(i + 1).drop_last() =~= all.take(i as int));
            if r.generation >= generation {
                kept.push(r);
            }
        }
        assert(all.take(all.len() as int) =~= all);
        self.stack = kept;
    }
}

// ---------------------------------------------------------------------------
// File kinds
// ---------------------------------------------------------------------------

/// The extension of `path`, lower-cased as `to_ascii_lowercase` does.
pub open spec fn ascii_ext(path: Seq<char>) -> Option<Seq<char>> {
    match path_extension(path) {
        Some(e) => Some(ascii_lower_seq(e)),
        None => None,
    }
}

/// The extension of `path`, lower-cased as `to_ascii_lowercase` does.
pub fn lower_ext(path: &str) -> (r: Option<Vec<char>>)
    ensures
        match r {
            Some(e) => ascii_ext(path@) == Some(e@),
            None => ascii_ext(path@) is None,
        },
{
    match extension_of(path) {
        Some(e) => {
            let cs = chars_of(e.as_str());
            let mut low: Vec<char> = Vec::new();
            let mut k: usize = 0;
            while k < cs.len()
                invariant
                    0 <= k <= cs@.len(),
                    low@ == ascii_lower_seq(cs@.take(k as int)),
                decreases cs@.len() - k,
            {
                low.push(crate::text::to_ascii_lower(cs[k]));
                assert(ascii_lower_seq(cs@.take(k + 1)) =~= ascii_lower_seq(cs@.take(k as int)).push(
                    crate::text::ascii_lower(cs@[k as int]),
                ));
                k = k + 1;
            }
            assert(cs@.take(cs@.len() as int) =~= cs@);
            Some(low)
        },
        None => None,
    }
}

/// Is the path a JPEG, by its extension "jpg" or "jpeg" in any ASCII case?
pub fn is_jpeg(path: &str) -> (r: bool)
    ensures
        r == (ascii_ext(path@) == Some("jpg"@) || ascii_ext(path@) == Some("jpeg"@)),
{
    match lower_ext(path) {
        Some(low) => chars_equal(&low, "jpg") || chars_equal(&low, "jpeg"),
        None => false,
    }
}

/// Does a zip member name end in ".jpg" or ".jpeg", in any ASCII case?
pub fn is_jpeg_name(name: &str) -> (r: bool)
    ensures
        r == (ends_with(ascii_lower_seq(name@), ".jpg"@) || ends_with(
            ascii_lower_seq(name@),
            ".jpeg"@,
        )),
{
    let cs = chars_of(name);
    ends_with_ascii_ci(&cs, ".jpg") || ends_with_ascii_ci(&cs, ".jpeg")
}

/// Which animated decoder a request tries first.
#[derive(Debug, Clone, Copy, PartialEq, Eq, Structural)]
pub enum AnimatedKind {
    Gif,
    WebP,
}

/// Which decoder a request ends with.
#[derive(Debug, Clone, Copy, PartialEq, Eq, Structural)]
pub enum StaticKind {
    /// Bytes read from a zip archive.
    Zip,
    Svg,
    Pdf,
    Raw,
    /// Everything else: the `image` crate, or the JPEG decoder first for JPEGs.
    Image,
}

/// How a worker handles a request.
#[derive(Debug, Clone, Copy, PartialEq, Eq, Structural)]
pub enum DecodePlan {
    /// The request is older than the current generation: drop it unread.
    Skip,
    /// Try `first` (when set); if it gives nothing, use the static decoder.
    Decode { first: Option<AnimatedKind>, then: StaticKind },
}

pub open spec fn is_raw_ext(e: Seq<char>) -> bool {
    e == "cr2"@ || e == "cr3"@ || e == "nef"@ || e == "arw"@ || e == "orf"@ || e == "rw2"@
        || e == "dng"@ || e == "raf"@ || e == "pef"@ || e == "srw"@
}

/// The extension of `path` lower-cased with `to_lowercase`; a path without
/// one counts as having the empty extension.
pub open spec fn lowered_ext(path: Seq<char>) -> Seq<char> {
    match path_extension(path) {
        Some(e) => lowercase(e),
        None => lowercase(Seq::empty()),
    }
}

/// See `lowered_ext`.
pub fn lowered_extension(path: &str) -> (r: Vec<char>)
    ensures
        r@ == lowered_ext(path@),
{
    let ext = match extension_of(path) {
        Some(e) => to_lowercase(e.as_str()),
        None => to_lowercase(""),
    };
    proof {
        if path_extension(path@) is None {
            reveal_strlit("");
            assert(""@ =~= Seq::<char>::empty());
        }
    }
    chars_of(ext.as_str())
}

/// The plan for a request, given the pipeline's current generation. The
/// extension is lower-cased (missing extensions count as empty).
pub open spec fn plan_spec(
    path: Seq<char>,
    is_thumbnail: bool,
    from_zip: bool,
    generation: u64,
    current: u64,
) -> DecodePlan {
    if generation < current {
        DecodePlan::Skip
    } else {
        let ext = lowered_ext(path);
        let first = if !is_thumbnail && !from_zip {
            if ext == "gif"@ {
                Some(AnimatedKind::Gif)
            } else if ext == "webp"@ {
                Some(AnimatedKind::WebP)
            } else {
                None
            }
        } else {
            None
        };
        let then = if from_zip {
            StaticKind::Zip
        } else if ext == "svg"@ || ext == "svgz"@ {
            StaticKind::Svg
        } else if ext == "pdf"@ {
            StaticKind::Pdf
        } else if is_raw_ext(ext) {
            StaticKind::Raw
        } else {
            StaticKind::Image
        };
        DecodePlan::Decode { first, then }
    }
}

/// Decide how a worker handles `req` when the pipeline is at generation `current`.
pub fn plan_decode(req: &DecodeRequest, current: u64) -> (r: DecodePlan)
    ensures
        r == plan_spec(req.path@, req.is_thumbnail, req.zip_source is Some, req.generation, current),
{
    if req.generation < current {
        return DecodePlan::Skip;
    }
    let e = lowered_extension(req.path.as_str());
    let from_zip = req.zip_source.is_some();
    let first = if !req.is_thumbnail && !from_zip {
        if chars_equal(&e, "gif") {
            Some(AnimatedKind::Gif)
        } else if chars_equal(&e, "webp") {
            Some(AnimatedKind::WebP)
        } else {
            None
        }
    } else {
        None
    };
    let then = if from_zip {
        StaticKind::Zip
    } else if chars_equal(&e, "svg") || chars_equal(&e, "svgz") {
        StaticKind::Svg
    } else if chars_equal(&e, "pdf") {
        StaticKind::Pdf
    } else if chars_equal(&e, "cr2") || chars_equal(&e, "cr3") || chars_equal(&e, "nef")
        || chars_equal(&e, "arw") || chars_equal(&e, "orf") || chars_equal(&e, "rw2")
        || chars_equal(&e, "dng") || chars_equal(&e, "raf") || chars_equal(&e, "pef")
        || chars_equal(&e, "srw") {
        StaticKind::Raw
    } else {
        StaticKind::Image
    };
    DecodePlan::Decode { first, then }
}

// ---------------------------------------------------------------------------
// Pixels
// ---------------------------------------------------------------------------

/// One channel of a premultiplied pixel divided back by its alpha, rounded to
/// nearest and capped at 255.
pub open spec fn unpremultiply_channel(c: u8, a: u8) -> u8 {
    let v = ((c as int) * 255 + (a as int) / 2) / (a as int);
    if v > 255 {
        255
    } else {
        v as u8
    }
}

/// The straight-alpha RGBA pixel for the premultiplied pixel `p` (4 bytes).
pub open spec fn unpremultiplied_pixel(p: Seq<u8>) -> Seq<u8> {
    if p[3] == 0 {
        seq![0u8, 0u8, 0u8, 0u8]
    } else {
        seq![
            unpremultiply_channel(p[0], p[3]),
            unpremultiply_channel(p[1], p[3]),
            unpremultiply_channel(p[2], p[3]),
            p[3],
        ]
    }
}

fn unpremultiply_exec(c: u8, a: u8) -> (r: u8)
    requires
        a > 0,
    ensures
        r == unpremultiply_channel(c, a),
{
    let v: u32 = ((c as u32) * 255 + (a as u32) / 2) / (a as u32);
    if v > 255 {
        255
    } else {
        v as u8
    }
}

/// Convert premultiplied RGBA to straight RGBA, four bytes at a time; a
/// trailing partial pixel is dropped. Fully transparent pixels become zero.
pub fn unpremultiply_alpha(data: &[u8]) -> (r: Vec<u8>)
    ensures
        r@.len() == 4 * (data@.len() / 4),
        forall|i: int|
            0 <= i < data@.len() / 4 ==> r@.subrange(4 * i, 4 * i + 4) == unpremultiplied_pixel(
                #[trigger] data@.subrange(4 * i, 4 * i + 4),
            ),
{
    let dl: usize = data.len();
    let n: usize = dl / 4;
    assert(4 * n <= data@.len()) by (nonlinear_arith)
        requires
            n == data@.len() / 4,
    ;
    let mut out: Vec<u8> = Vec::new();
    let mut i: usize = 0;
    while i < n
        invariant
            0 <= i <= n,
            n == data@.len() / 4,
            dl == data@.len(),
            4 * n <= data@.len(),
            out@.len() == 4 * i,
            forall|k: int|
                0 <= k < i ==> out@.subrange(4 * k, 4 * k + 4) == unpremultiplied_pixel(
                    #[trigger] data@.subrange(4 * k, 4 * k + 4),
                ),
        decreases n - i,
    {
        let base: usize = 4 * i;
        let a: u8 = data[base + 3];
        let ghost before = out@;
        let ghost px = data@.subrange(4 * i as int, 4 * i + 4);
        if a == 0 {
            out.push(0);
            out.push(0);
            out.push(0);
            out.push(0);
        } else {
            let r = unpremultiply_exec(data[base], a);
            let g = unpremultiply_exec(data[base + 1], a);
            let b = unpremultiply_exec(data[base + 2], a);
            out.push(r);
            out.push(g);
            out.push(b);
            out.push(a);
        }
        assert(out@.subrange(4 * i as int, 4 * i + 4) =~= unpremultiplied_pixel(px));
        assert forall|k: int| 0 <= k < i + 1 implies out@.subrange(4 * k, 4 * k + 4)
            == unpremultiplied_pixel(#[trigger] data@.subrange(4 * k, 4 * k + 4)) by {
            if k < i {
                assert(out@.subrange(4 * k, 4 * k + 4) =~= before.subrange(4 * k, 4 * k + 4));
            }
        }
        i = i + 1;
    }
    out
}

/// How long an animation frame is shown: its delay in milliseconds, with a
/// zero denominator or a zero delay meaning 100 ms.
pub open spec fn frame_delay_spec(numer: u32, denom: u32) -> u64 {
    let ms: int = if denom == 0 { 100 } else { numer as int / denom as int };
    if ms == 0 {
        100
    } else {
        ms as u64
    }
}

/// The display time of a frame whose delay is `numer / denom` milliseconds.
pub fn frame_delay_ms(numer: u32, denom: u32) -> (r: u64)
    ensures
        r == frame_delay_spec(numer, denom),
{
    let ms: u32 = if denom == 0 { 100 } else { numer / denom };
    let ms: u32 = if ms == 0 { 100 } else { ms };
    ms as u64
}

// ---------------------------------------------------------------------------
// The image crate
// ---------------------------------------------------------------------------

#[verifier::external_type_specification]
#[verifier::external_body]
pub struct ExDynamicImage(DynamicImage);

#[verifier::external_type_specification]
#[verifier::external_body]
pub struct ExImageFormat(ImageFormat);

#[verifier::external_type_specification]
#[verifier::external_body]
pub struct ExFrame(Frame);

#[verifier::external_type_specification]
#[verifier::external_body]
pub struct ExImageError(ImageError);

#[verifier::external_type_specification]
#[verifier::external_body]
#[verifier::reject_recursive_types(T)]
pub struct ExCursor<T>(Cursor<T>);

#[verifier::external_type_specification]
#[verifier::external_body]
pub struct ExFrames<'a>(Frames<'a>);

/// How an image held by the library was made: decoded from bytes in the
/// format an extension names (or in the format guessed from the bytes), and
/// maybe shrunk to fit a square.
pub enum ImageSource {
    Decoded(Seq<u8>, Option<Seq<char>>),
    Shrunk(Seq<u8>, Option<Seq<char>>, u32),
}

/// An image decoded by the `image` crate, with how it was made.
pub struct Picture {
    image: DynamicImage,
    source: Ghost<ImageSource>,
}

/// An image format the `image` crate knows, with the extension that named it.
pub struct Format {
    format: ImageFormat,
    ext: Ghost<Seq<char>>,
}

/// Whether `ImageFormat::from_extension` knows the extension.
pub uninterp spec fn known_extension(ext: Seq<char>) -> bool;

/// Whether `image::load_from_memory_with_format` decodes the bytes in the
/// format the extension names.
pub uninterp spec fn loads_as(bytes: Seq<u8>, ext: Seq<char>) -> bool;

/// Whether `image::load_from_memory` decodes the bytes (guessing the format).
pub uninterp spec fn loads_guessing(bytes: Seq<u8>) -> bool;

/// The RGBA8 buffer, width and height `DynamicImage::to_rgba8` gives for the
/// image made as `src` says.
pub uninterp spec fn rgba_of(src: ImageSource) -> (Seq<u8>, u32, u32);

/// Calls `image::ImageFormat::from_extension`: the format the extension
/// names, when the crate knows one.
#[verifier::external_body]
fn format_from_extension(ext: &str) -> (r: Option<Format>)
    ensures
        r is Some <==> known_extension(ext@),
        r matches Some(f) ==> f.ext@ == ext@,
{
    match ImageFormat::from_extension(ext) {
        Some(format) => Some(Format { format, ext: Ghost(ext@) }),
        None => None,
    }
}

/// Calls `image::load_from_memory_with_format`; an error gives `None`.
#[verifier::external_body]
fn load_with_format(bytes: &[u8], format: &Format) -> (r: Option<Picture>)
    ensures
        r is Some <==> loads_as(bytes@, format.ext@),
        r matches Some(p) ==> p.source@ == ImageSource::Decoded(bytes@, Some(format.ext@)),
{
    match image::load_from_memory_with_format(bytes, format.format) {
        Ok(image) => Some(Picture { image, source: Ghost(ImageSource::Decoded(bytes@, Some(format.ext@))) }),
        Err(_) => None,
    }
}

/// Calls `image::load_from_memory`, which guesses the format from the bytes;
/// an error gives `None`.
#[verifier::external_body]
fn load_guessing(bytes: &[u8]) -> (r: Option<Picture>)
    ensures
        r is Some <==> loads_guessing(bytes@),
        r matches Some(p) ==> p.source@ == ImageSource::Decoded(bytes@, None),
{
    match image::load_from_memory(bytes) {
        Ok(image) => Some(Picture { image, source: Ghost(ImageSource::Decoded(bytes@, None)) }),
        Err(_) => None,
    }
}

/// Calls `DynamicImage::thumbnail` with a square box of `size`: the image
/// scaled down to fit it, aspect ratio kept.
#[verifier::external_body]
fn thumbnail(p: &Picture, size: u32) -> (r: Picture)
    requires
        p.source@ is Decoded,
    ensures
        r.source@ == match p.source@ {
            ImageSource::Decoded(b, e) => ImageSource::Shrunk(b, e, size),
            ImageSource::Shrunk(b, e, _) => ImageSource::Shrunk(b, e, size),
        },
{
    let source = Ghost(match p.source@ {
        ImageSource::Decoded(b, e) => ImageSource::Shrunk(b, e, size),
        ImageSource::Shrunk(b, e, _) => ImageSource::Shrunk(b, e, size),
    });
    Picture { image: p.image.thumbnail(size, size), source }
}

/// Calls `DynamicImage::to_rgba8` and takes the buffer apart. An
/// `ImageBuffer` never holds fewer bytes than its width times height times
/// its four channels.
#[verifier::external_body]
fn to_rgba8(p: &Picture) -> (r: (Vec<u8>, u32, u32))
    ensures
        (r.0@, r.1, r.2) == rgba_of(p.source@),
        r.0@.len() >= 4 * (r.1 as int) * (r.2 as int),
{
    let buf = p.image.to_rgba8();
    let (w, h) = buf.dimensions();
    (buf.into_raw(), w, h)
}

/// `w * h` pixels: the first `4 * w * h` bytes of an RGBA buffer.
pub open spec fn exact(rgba: Seq<u8>, w: u32, h: u32) -> (Seq<u8>, u32, u32) {
    (rgba.take(4 * (w as int) * (h as int)), w, h)
}

pub open spec fn image_view(img: DecodedImage) -> (Seq<u8>, u32, u32) {
    (img.rgba@, img.width, img.height)
}

/// The pixels of the image made as `src` says.
pub open spec fn pixels_of(src: ImageSource) -> (Seq<u8>, u32, u32) {
    let (rgba, w, h) = rgba_of(src);
    exact(rgba, w, h)
}

/// The buffer cut to exactly `w * h` pixels.
fn exact_pixels(mut rgba: Vec<u8>, w: u32, h: u32) -> (r: DecodedImage)
    requires
        rgba@.len() >= 4 * (w as int) * (h as int),
    ensures
        r.wf(),
        image_view(r) == exact(rgba@, w, h),
{
    assert((w as int) * (h as int) <= 0xffff_ffff_ffff_ffff_ffff_ffff) by (nonlinear_arith)
        requires
            w <= 0xffff_ffff,
            h <= 0xffff_ffff,
    ;
    let wh: u128 = (w as u128) * (h as u128);
    let need: u128 = 4 * wh;
    assert(need as int == 4 * (w as int) * (h as int)) by (nonlinear_arith)
        requires
            need == 4 * wh,
            wh as int == (w as int) * (h as int),
    ;
    assert(need <= rgba@.len());
    rgba.truncate(need as usize);
    DecodedImage { rgba, width: w, height: h }
}

/// The image made as `decoded` says, shrunk when a thumbnail is asked for.
pub open spec fn made(decoded: ImageSource, is_thumbnail: bool, thumb_size: u32) -> ImageSource {
    if is_thumbnail {
        match decoded {
            ImageSource::Decoded(b, e) => ImageSource::Shrunk(b, e, thumb_size),
            ImageSource::Shrunk(b, e, _) => ImageSource::Shrunk(b, e, thumb_size),
        }
    } else {
        decoded
    }
}

/// Shrink to a thumbnail when asked, and return the RGBA pixels.
fn finish(p: Picture, is_thumbnail: bool, thumb_size: u32) -> (r: DecodedImage)
    requires
        p.source@ is Decoded,
    ensures
        r.wf(),
        image_view(r) == pixels_of(made(p.source@, is_thumbnail, thumb_size)),
{
    let p = if is_thumbnail {
        thumbnail(&p, thumb_size)
    } else {
        p
    };
    let (rgba, w, h) = to_rgba8(&p);
    exact_pixels(rgba, w, h)
}

/// What decoding a file's bytes by its extension gives (see `decode_generic`).
pub open spec fn generic_result(path: Seq<char>, bytes: Seq<u8>, is_thumbnail: bool, thumb_size: u32) -> Option<(Seq<u8>, u32, u32)> {
    match path_extension(path) {
        Some(e) => if known_extension(e) && loads_as(bytes, e) {
            Some(pixels_of(made(ImageSource::Decoded(bytes, Some(e)), is_thumbnail, thumb_size)))
        } else {
            None
        },
        None => None,
    }
}

/// What decoding bytes in the format guessed from them gives.
pub open spec fn guessed_result(bytes: Seq<u8>, is_thumbnail: bool, thumb_size: u32) -> Option<(Seq<u8>, u32, u32)> {
    if loads_guessing(bytes) {
        Some(pixels_of(made(ImageSource::Decoded(bytes, None), is_thumbnail, thumb_size)))
    } else {
        None
    }
}

pub open spec fn opt_image(r: Option<DecodedImage>) -> Option<(Seq<u8>, u32, u32)> {
    match r {
        Some(img) => Some(image_view(img)),
        None => None,
    }
}

/// Decode a file's bytes in the format its extension names (as opening the
/// file with the `image` crate does), shrunk to a thumbnail when asked. An
/// unknown or missing extension gives `None`.
pub fn decode_generic(path: &str, bytes: &[u8], is_thumbnail: bool, thumb_size: u32) -> (r: Option<DecodedImage>)
    ensures
        opt_image(r) == generic_result(path@, bytes@, is_thumbnail, thumb_size),
        r matches Some(img) ==> img.wf(),
{
    let format = match extension_of(path) {
        Some(e) => match format_from_extension(e.as_str()) {
            Some(f) => f,
            None => return None,
        },
        None => return None,
    };
    match load_with_format(bytes, &format) {
        Some(p) => Some(finish(p, is_thumbnail, thumb_size)),
        None => None,
    }
}

/// Decode bytes in the format guessed from them, shrunk to a thumbnail when asked.
pub fn decode_bytes(bytes: &[u8], is_thumbnail: bool, thumb_size: u32) -> (r: Option<DecodedImage>)
    ensures
        opt_image(r) == guessed_result(bytes@, is_thumbnail, thumb_size),
        r matches Some(img) ==> img.wf(),
{
    match load_guessing(bytes) {
        Some(p) => Some(finish(p, is_thumbnail, thumb_size)),
        None => None,
    }
}

/// Decode a file: for a JPEG the result of the dedicated JPEG decoder, when
/// it gave one, else the `image` crate on the file's bytes by its extension.
pub fn decode_image(
    path: &str,
    bytes: &[u8],
    jpeg: Option<DecodedImage>,
    is_thumbnail: bool,
    thumb_size: u32,
) -> (r: Option<DecodedImage>)
    requires
        jpeg matches Some(j) ==> j.wf(),
    ensures
        opt_image(r) == if is_jpeg_spec(path@) && jpeg is Some {
            opt_image(jpeg)
        } else {
            generic_result(path@, bytes@, is_thumbnail, thumb_size)
        },
        r matches Some(img) ==> img.wf(),
{
    if is_jpeg(path) {
        match jpeg {
            Some(img) => return Some(img),
            None => {},
        }
    }
    decode_generic(path, bytes, is_thumbnail, thumb_size)
}

pub open spec fn is_jpeg_spec(path: Seq<char>) -> bool {
    ascii_ext(path) == Some("jpg"@) || ascii_ext(path) == Some("jpeg"@)
}

/// Decode a member read from a zip archive: for a JPEG name the result of the
/// JPEG decoder, when it gave one, else the `image` crate guessing the format.
pub fn decode_from_zip(
    zip_source: &ZipSource,
    bytes: &[u8],
    jpeg: Option<DecodedImage>,
    is_thumbnail: bool,
    thumb_size: u32,
) -> (r: Option<DecodedImage>)
    requires
        jpeg matches Some(j) ==> j.wf(),
    ensures
        opt_image(r) == if (ends_with(ascii_lower_seq(zip_source.entry_name@), ".jpg"@) || ends_with(
            ascii_lower_seq(zip_source.entry_name@),
            ".jpeg"@,
        )) && jpeg is Some {
            opt_image(jpeg)
        } else {
            guessed_result(bytes@, is_thumbnail, thumb_size)
        },
        r matches Some(img) ==> img.wf(),
{
    if is_jpeg_name(zip_source.entry_name.as_str()) {
        match jpeg {
            Some(img) => return Some(img),
            None => {},
        }
    }
    decode_bytes(bytes, is_thumbnail, thumb_size)
}

// ---------------------------------------------------------------------------
// Animations
// ---------------------------------------------------------------------------

/// The frames of an animation being read: its kind, its bytes, and how many
/// frames were taken so far.
pub struct FrameReader {
    frames: Frames<'static>,
    kind: Ghost<AnimatedKind>,
    bytes: Ghost<Seq<u8>>,
    taken: Ghost<nat>,
}

/// One frame taken from an animation, with where it comes from.
pub struct AnimFrame {
    frame: Frame,
    kind: Ghost<AnimatedKind>,
    bytes: Ghost<Seq<u8>>,
    index: Ghost<nat>,
}

/// Whether `GifDecoder::new` (for a GIF) or `WebPDecoder::new` (for a WebP)
/// accepts the bytes.
pub uninterp spec fn decoder_opens(kind: AnimatedKind, bytes: Seq<u8>) -> bool;

/// What `WebPDecoder::has_animation` says of the bytes.
pub uninterp spec fn webp_animated(bytes: Seq<u8>) -> bool;

/// What the `k`-th call of `Iterator::next` on the frames of the animation
/// gives: `None` at the end, `Some(false)` for a frame that failed to decode,
/// `Some(true)` for a frame.
pub uninterp spec fn frame_outcome(kind: AnimatedKind, bytes: Seq<u8>, k: nat) -> Option<bool>;

/// The delay of frame `k`, as `Frame::delay` and `Delay::numer_denom_ms` give it.
pub uninterp spec fn frame_delay_of(kind: AnimatedKind, bytes: Seq<u8>, k: nat) -> (u32, u32);

/// The RGBA8 buffer, width and height `Frame::into_buffer` gives for frame `k`.
pub uninterp spec fn frame_rgba_of(kind: AnimatedKind, bytes: Seq<u8>, k: nat) -> (Seq<u8>, u32, u32);

/// Calls `GifDecoder::new` on the bytes and `AnimationDecoder::into_frames`
/// on the decoder (the decoder type cannot appear in verified signatures, so
/// both calls stand here); a decoder error gives `None`.
#[verifier::external_body]
fn gif_frames(bytes: Vec<u8>) -> (r: Option<FrameReader>)
    ensures
        r is Some <==> decoder_opens(AnimatedKind::Gif, bytes@),
        r matches Some(f) ==> f.kind@ == AnimatedKind::Gif && f.bytes@ == bytes@ && f.taken@ == 0,
{
    let b = Ghost(bytes@);
    match GifDecoder::new(Cursor::new(bytes)) {
        Ok(dec) => Some(FrameReader { frames: image::AnimationDecoder::into_frames(dec), kind: Ghost(AnimatedKind::Gif), bytes: b, taken: Ghost(0) }),
        Err(_) => None,
    }
}

/// Calls `WebPDecoder::new` on the bytes, then `WebPDecoder::has_animation`
/// and `AnimationDecoder::into_frames` on the decoder (the decoder type
/// cannot appear in verified signatures); a decoder error gives `None`.
#[verifier::external_body]
fn webp_frames(bytes: Vec<u8>) -> (r: Option<(bool, FrameReader)>)
    ensures
        r is Some <==> decoder_opens(AnimatedKind::WebP, bytes@),
        r matches Some((a, f)) ==> a == webp_animated(bytes@) && f.kind@ == AnimatedKind::WebP && f.bytes@
            == bytes@ && f.taken@ == 0,
{
    let b = Ghost(bytes@);
    match WebPDecoder::new(Cursor::new(bytes)) {
        Ok(dec) => {
            let animated = dec.has_animation();
            Some((animated, FrameReader { frames: image::AnimationDecoder::into_frames(dec), kind: Ghost(AnimatedKind::WebP), bytes: b, taken: Ghost(0) }))
        },
        Err(_) => None,
    }
}

/// Calls `Iterator::next` on the frames: `None` at the end, `Some(None)` for
/// a frame that failed to decode.
#[verifier::external_body]
fn next_frame(frames: &mut FrameReader) -> (r: Option<Option<AnimFrame>>)
    ensures
        final(frames).kind@ == old(frames).kind@,
        final(frames).bytes@ == old(frames).bytes@,
        final(frames).taken@ == old(frames).taken@ + 1,
        match r {
            None => frame_outcome(old(frames).kind@, old(frames).bytes@, old(frames).taken@) is None,
            Some(None) => frame_outcome(old(frames).kind@, old(frames).bytes@, old(frames).taken@) == Some(false),
            Some(Some(f)) => frame_outcome(old(frames).kind@, old(frames).bytes@, old(frames).taken@) == Some(true)
                && f.kind@ == old(frames).kind@ && f.bytes@ == old(frames).bytes@ && f.index@ == old(frames).taken@,
        },
{
    let (kind, bytes, index) = (Ghost(frames.kind@), Ghost(frames.bytes@), Ghost(frames.taken@));
    frames.taken = Ghost(frames.taken@ + 1);
    match frames.frames.next() {
        Some(Ok(frame)) => Some(Some(AnimFrame { frame, kind, bytes, index })),
        Some(Err(_)) => Some(None),
        None => None,
    }
}

/// Calls `Frame::delay` and `Delay::numer_denom_ms`.
#[verifier::external_body]
fn frame_delay(f: &AnimFrame) -> (r: (u32, u32))
    ensures
        r == frame_delay_of(f.kind@, f.bytes@, f.index@),
{
    f.frame.delay().numer_denom_ms()
}

/// Calls `Frame::into_buffer` and takes the RGBA buffer apart.
#[verifier::external_body]
fn frame_pixels(f: AnimFrame) -> (r: (Vec<u8>, u32, u32))
    ensures
        (r.0@, r.1, r.2) == frame_rgba_of(f.kind@, f.bytes@, f.index@),
        r.0@.len() >= 4 * (r.1 as int) * (r.2 as int),
{
    let buf = f.frame.into_buffer();
    let (w, h) = buf.dimensions();
    (buf.into_raw(), w, h)
}

pub open spec fn frame_view(f: DecodedFrame) -> (Seq<u8>, u32, u32) {
    (f.rgba@, f.width, f.height)
}

/// The first `n` frames of an animation all decode, and are `frames` with
/// display times `delays`.
pub open spec fn frames_read(kind: AnimatedKind, bytes: Seq<u8>, n: nat, frames: Seq<DecodedFrame>, delays: Seq<u64>) -> bool {
    &&& frames.len() == n
    &&& delays.len() == n
    &&& forall|k: nat| k < n ==> #[trigger] frame_outcome(kind, bytes, k) == Some(true)
    &&& forall|k: int| 0 <= k < n ==> frame_view(#[trigger] frames[k]) == {
        let (rgba, w, h) = frame_rgba_of(kind, bytes, k as nat);
        (rgba, w, h)
    }
    &&& forall|k: int| 0 <= k < n ==> #[trigger] delays[k] == {
        let (numer, denom) = frame_delay_of(kind, bytes, k as nat);
        frame_delay_spec(numer, denom)
    }
}

/// The animation's frames were read to their end (or to the largest count
/// a vector holds); `None` means a frame failed to decode, or there was none.
pub open spec fn animation_read(kind: AnimatedKind, bytes: Seq<u8>, r: Option<AnimatedResult>) -> bool {
    match r {
        Some(a) => a.frames@.len() > 0 && frames_read(kind, bytes, a.frames@.len(), a.frames@, a.delays@)
            && (frame_outcome(kind, bytes, a.frames@.len()) is None || a.frames@.len() == usize::MAX),
        None => exists|n: nat| {
            &&& forall|k: nat| k < n ==> #[trigger] frame_outcome(kind, bytes, k) == Some(true)
            &&& (frame_outcome(kind, bytes, n) == Some(false) || (n == 0 && frame_outcome(kind, bytes, n) is None))
        },
    }
}

/// Collect the frames of an animation with their display times. Any frame
/// that fails to decode, or no frame at all, gives `None`.
fn collect_frames(reader: FrameReader) -> (r: Option<AnimatedResult>)
    requires
        reader.taken@ == 0,
    ensures
        animation_read(reader.kind@, reader.bytes@, r),
        r matches Some(a) ==> a.frames@.len() > 0 && a.frames@.len() == a.delays@.len() && forall|k: int|
            0 <= k < a.delays@.len() ==> #[trigger] a.delays@[k] > 0,
{
    let ghost kind = reader.kind@;
    let ghost bytes = reader.bytes@;
    let mut frames = reader;
    let mut out: Vec<DecodedFrame> = Vec::new();
    let mut delays: Vec<u64> = Vec::new();
    while out.len() < usize::MAX
        invariant_except_break
            frames.taken@ == out@.len(),
        invariant
            kind == reader.kind@,
            bytes == reader.bytes@,
            frames.kind@ == kind,
            frames.bytes@ == bytes,
            frames_read(kind, bytes, out@.len(), out@, delays@),
            forall|k: int| 0 <= k < delays@.len() ==> #[trigger] delays@[k] > 0,
        ensures
            frames_read(kind, bytes, out@.len(), out@, delays@),
            forall|k: int| 0 <= k < delays@.len() ==> #[trigger] delays@[k] > 0,
            frame_outcome(kind, bytes, out@.len()) is None || out@.len() == usize::MAX,
        decreases usize::MAX - out@.len(),
    {
        let ghost n = out@.len();
        let frame = match next_frame(&mut frames) {
            None => break,
            Some(None) => {
                proof {
                    assert(forall|k: nat| k < n ==> #[trigger] frame_outcome(kind, bytes, k) == Some(true));
                    assert(frame_outcome(kind, bytes, n) == Some(false));
                    assert(exists|m: nat| {
                        &&& forall|k: nat| k < m ==> #[trigger] frame_outcome(kind, bytes, k) == Some(true)
                        &&& (frame_outcome(kind, bytes, m) == Some(false) || (m == 0 && frame_outcome(kind, bytes, m) is None))
                    }) by {
                        assert(frame_outcome(kind, bytes, n) == Some(false));
                    }
                }
                return None;
            },
            Some(Some(f)) => f,
        };
        let (numer, denom) = frame_delay(&frame);
        let d = frame_delay_ms(numer, denom);
        delays.push(d);
        let (rgba, width, height) = frame_pixels(frame);
        out.push(DecodedFrame { rgba, width, height });
        proof {
            assert forall|k: int| 0 <= k < n + 1 implies frame_view(#[trigger] out@[k]) == {
                let (rgba, w, h) = frame_rgba_of(kind, bytes, k as nat);
                (rgba, w, h)
            } by {}
        }
    }
    if out.len() == 0 {
        proof {
            let z: nat = 0;
            assert(forall|k: nat| k < z ==> #[trigger] frame_outcome(kind, bytes, k) == Some(true));
            assert(frame_outcome(kind, bytes, z) is None);
        }
        return None;
    }
    Some(AnimatedResult { frames: out, delays })
}

/// All frames of an animated GIF (see `animation_read`), or `None` when it
/// cannot be decoded.
pub fn decode_animated_gif(bytes: Vec<u8>) -> (r: Option<AnimatedResult>)
    ensures
        decoder_opens(AnimatedKind::Gif, bytes@) ==> animation_read(AnimatedKind::Gif, bytes@, r),
        !decoder_opens(AnimatedKind::Gif, bytes@) ==> r is None,
        r matches Some(a) ==> a.frames@.len() > 0 && a.frames@.len() == a.delays@.len(),
{
    let ghost b = bytes@;
    match gif_frames(bytes) {
        Some(frames) => collect_frames(frames),
        None => None,
    }
}

/// All frames of an animated WebP (see `animation_read`); `None` when the
/// file is not animated or cannot be decoded.
pub fn decode_animated_webp(bytes: Vec<u8>) -> (r: Option<AnimatedResult>)
    ensures
        decoder_opens(AnimatedKind::WebP, bytes@) && webp_animated(bytes@) ==> animation_read(
            AnimatedKind::WebP,
            bytes@,
            r,
        ),
        !(decoder_opens(AnimatedKind::WebP, bytes@) && webp_animated(bytes@)) ==> r is None,
        r matches Some(a) ==> a.frames@.len() > 0 && a.frames@.len() == a.delays@.len(),
{
    let (animated, frames) = match webp_frames(bytes) {
        Some(p) => p,
        None => return None,
    };
    if !animated {
        return None;
    }
    collect_frames(frames)
}

// ---------------------------------------------------------------------------
// External decoders
// ---------------------------------------------------------------------------

/// The resolution, in dots per inch, at which the first page of a PDF is
/// rendered: low for thumbnails.
pub fn pdf_dpi(is_thumbnail: bool) -> (r: u32)
    ensures
        r == if is_thumbnail { 36u32 } else { 150u32 },
{
    if is_thumbnail {
        36
    } else {
        150
    }
}

/// The options of the RAW converters: extract the embedded thumbnail as TIFF
/// for a thumbnail, else convert to TIFF with the camera's white balance.
pub open spec fn raw_args(is_thumbnail: bool) -> Seq<Seq<char>> {
    if is_thumbnail {
        seq!["-e"@, "-T"@]
    } else {
        seq!["-T"@, "-w"@]
    }
}

/// See `raw_args`.
pub fn raw_tool_args(is_thumbnail: bool) -> (r: Vec<&'static str>)
    ensures
        r@.map_values(|a: &str| a@) == raw_args(is_thumbnail),
{
    let mut v: Vec<&'static str> = Vec::new();
    if is_thumbnail {
        v.push("-e");
        v.push("-T");
    } else {
        v.push("-T");
        v.push("-w");
    }
    assert(v@.map_values(|a: &str| a@) =~= raw_args(is_thumbnail));
    v
}

/// The file a RAW converter writes next to `path`: for a thumbnail the
/// extracted ".thumb.jpg" when it exists (`thumb_exists`), else the ".tiff".
pub open spec fn raw_output(path: Seq<char>, is_thumbnail: bool, thumb_exists: bool) -> Seq<char> {
    if is_thumbnail && thumb_exists {
        path_with_extension(path, "thumb.jpg"@)
    } else {
        path_with_extension(path, "tiff"@)
    }
}

/// The embedded-thumbnail file a RAW converter writes next to `path`.
pub fn raw_thumb_path(path: &str) -> (r: String)
    ensures
        r@ == path_with_extension(path@, "thumb.jpg"@),
{
    proof {
        reveal_strlit("thumb.jpg");
    }
    with_extension(path, "thumb.jpg")
}

/// See `raw_output`.
pub fn raw_output_path(path: &str, is_thumbnail: bool, thumb_exists: bool) -> (r: String)
    ensures
        r@ == raw_output(path@, is_thumbnail, thumb_exists),
{
    proof {
        reveal_strlit("thumb.jpg");
        reveal_strlit("tiff");
    }
    if is_thumbnail && thumb_exists {
        with_extension(path, "thumb.jpg")
    } else {
        with_extension(path, "tiff")
    }
}

// ---------------------------------------------------------------------------
// Rotating an image file
// ---------------------------------------------------------------------------

/// An image turned a quarter: the bytes it was decoded from, the extension
/// naming their format, and whether it was turned clockwise.
pub struct Turned {
    image: DynamicImage,
    source: Ghost<(Seq<u8>, Seq<char>, bool)>,
}

/// What `DynamicImage::write_to` writes for the image decoded from `bytes`
/// in the format `ext` names and turned a quarter (clockwise when
/// `clockwise`), encoded in that same format; `None` when encoding fails.
pub uninterp spec fn encodes_rotated(bytes: Seq<u8>, ext: Seq<char>, clockwise: bool) -> Option<Seq<u8>>;

/// Calls `DynamicImage::rotate90`: the image turned a quarter clockwise.
#[verifier::external_body]
fn rotate90(p: &Picture) -> (r: Turned)
    requires
        p.source@ matches ImageSource::Decoded(_, Some(_)),
    ensures
        r.source@ == (p.source@->Decoded_0, p.source@->Decoded_1->0, true),
{
    let source = Ghost((p.source@->Decoded_0, p.source@->Decoded_1->0, true));
    Turned { image: p.image.rotate90(), source }
}

/// Calls `DynamicImage::rotate270`: the image turned a quarter counter-clockwise.
#[verifier::external_body]
fn rotate270(p: &Picture) -> (r: Turned)
    requires
        p.source@ matches ImageSource::Decoded(_, Some(_)),
    ensures
        r.source@ == (p.source@->Decoded_0, p.source@->Decoded_1->0, false),
{
    let source = Ghost((p.source@->Decoded_0, p.source@->Decoded_1->0, false));
    Turned { image: p.image.rotate270(), source }
}

/// Calls `DynamicImage::write_to` on an in-memory buffer, in the format the
/// turned image was decoded from; an error gives `None`.
#[verifier::external_body]
fn write_turned(t: &Turned, format: &Format) -> (r: Option<Vec<u8>>)
    requires
        format.ext@ == t.source@.1,
    ensures
        r is Some <==> encodes_rotated(t.source@.0, t.source@.1, t.source@.2) is Some,
        r matches Some(out) ==> Some(out@) == encodes_rotated(t.source@.0, t.source@.1, t.source@.2),
{
    let mut out = Cursor::new(Vec::new());
    match t.image.write_to(&mut out, format.format) {
        Ok(()) => Some(out.into_inner()),
        Err(_) => None,
    }
}

/// Why an image file could not be turned.
#[derive(Debug, Clone, Copy, PartialEq, Eq, Structural)]
pub enum RotateError {
    /// Its extension names no format the `image` crate knows, or its bytes
    /// do not decode in that format.
    Open,
    /// The turned image could not be encoded in that format.
    Save,
}

/// What turning the image file `path` with content `bytes` a quarter gives:
/// the file decoded in the format its extension names (as opening it with the
/// `image` crate does), turned clockwise or counter-clockwise, and encoded
/// again in the same format (as saving it under the same name does).
pub open spec fn rotation_result(path: Seq<char>, bytes: Seq<u8>, clockwise: bool) -> Result<Seq<u8>, RotateError> {
    match path_extension(path) {
        Some(e) => if known_extension(e) && loads_as(bytes, e) {
            match encodes_rotated(bytes, e, clockwise) {
                Some(out) => Ok(out),
                None => Err(RotateError::Save),
            }
        } else {
            Err(RotateError::Open)
        },
        None => Err(RotateError::Open),
    }
}

/// The new content of the image file `path`, whose content is `bytes`,
/// turned a quarter clockwise or counter-clockwise; see `rotation_result`.
pub fn rotated_bytes(path: &str, bytes: &[u8], clockwise: bool) -> (r: Result<Vec<u8>, RotateError>)
    ensures
        match r {
            Ok(out) => rotation_result(path@, bytes@, clockwise) == Ok::<Seq<u8>, RotateError>(out@),
            Err(e) => rotation_result(path@, bytes@, clockwise) == Err::<Seq<u8>, RotateError>(e),
        },
{
    let format = match extension_of(path) {
        Some(e) => match format_from_extension(e.as_str()) {
            Some(f) => f,
            None => return Err(RotateError::Open),
        },
        None => return Err(RotateError::Open),
    };
    let picture = match load_with_format(bytes, &format) {
        Some(p) => p,
        None => return Err(RotateError::Open),
    };
    let turned = if clockwise {
        rotate90(&picture)
    } else {
        rotate270(&picture)
    };
    match write_turned(&turned, &format) {
        Some(out) => Ok(out),
        None => Err(RotateError::Save),
    }
}

/// A camera RAW file on disk, one the listing shows (its extension, in any
/// case, is cr2, cr3, nef, arw, orf, rw2, dng, raf, pef or srw), is decoded
/// through the RAW converter, with no animated decoder tried first, for a
/// thumbnail as for the full image; and only such files are. Requests of an
/// earlier generation are skipped.
pub proof fn law_camera_raw_goes_to_converter(path: Seq<char>, is_thumbnail: bool, generation: u64, current: u64)
    ensures
        generation < current ==> plan_spec(path, is_thumbnail, false, generation, current) == DecodePlan::Skip,
        ({
            let e = lowered_ext(path);
            let raw = e == "cr2"@ || e == "cr3"@ || e == "nef"@ || e == "arw"@ || e == "orf"@ || e == "rw2"@
                || e == "dng"@ || e == "raf"@ || e == "pef"@ || e == "srw"@;
            generation >= current ==> {
                &&& raw ==> plan_spec(path, is_thumbnail, false, generation, current)
                    == (DecodePlan::Decode { first: None, then: StaticKind::Raw })
                &&& plan_spec(path, is_thumbnail, false, generation, current) matches DecodePlan::Decode {
                    then: StaticKind::Raw,
                    ..
                } ==> raw
            }
        }),
{
    reveal_strlit("cr2");
    reveal_strlit("cr3");
    reveal_strlit("nef");
    reveal_strlit("arw");
    reveal_strlit("orf");
    reveal_strlit("rw2");
    reveal_strlit("dng");
    reveal_strlit("raf");
    reveal_strlit("pef");
    reveal_strlit("srw");
    reveal_strlit("gif");
    reveal_strlit("webp");
    reveal_strlit("svg");
    reveal_strlit("svgz");
    reveal_strlit("pdf");
    let e = lowered_ext(path);
    if e == "cr2"@ || e == "cr3"@ || e == "nef"@ || e == "arw"@ || e == "orf"@ || e == "rw2"@ || e == "dng"@
        || e == "raf"@ || e == "pef"@ || e == "srw"@ {
        // Three letters, none starting like "gif", "svg" or "pdf".
        assert(e.len() == 3 && e[0] != 'g' && !(e[0] == 's' && e[1] == 'v') && !(e[0] == 'p' && e[1] == 'd'));
        assert(e != "gif"@ && e != "svg"@ && e != "pdf"@) by {
            assert("gif"@[0] == 'g' && "svg"@[0] == 's' && "svg"@[1] == 'v' && "pdf"@[0] == 'p' && "pdf"@[1] == 'd');
        }
        assert(e != "webp"@ && e != "svgz"@) by {
            assert("webp"@.len() == 4 && "svgz"@.len() == 4);
        }
    }
}

/// How a current request is decoded by its lower-cased extension: one read
/// from a zip archive always from the archive's bytes, with no animated
/// decoder first; a full-size GIF or WebP file tries the animated decoder of
/// its kind first (a thumbnail never does); SVG (svg, svgz) and PDF files go
/// to their own decoders; camera RAW files (see `law_camera_raw_goes_to_converter`) to
/// the RAW converter; anything else to the `image` crate.
pub proof fn law_decode_plan_by_extension(path: Seq<char>, is_thumbnail: bool, generation: u64, current: u64)
    requires
        generation >= current,
    ensures
        plan_spec(path, is_thumbnail, true, generation, current)
            == (DecodePlan::Decode { first: None, then: StaticKind::Zip }),
        ({
            let e = lowered_ext(path);
            let p = plan_spec(path, is_thumbnail, false, generation, current);
            &&& p is Decode
            &&& p->first == if !is_thumbnail && e == "gif"@ {
                Some(AnimatedKind::Gif)
            } else if !is_thumbnail && e == "webp"@ {
                Some(AnimatedKind::WebP)
            } else {
                None
            }
            &&& (e == "svg"@ || e == "svgz"@) ==> p->then == StaticKind::Svg
            &&& e == "pdf"@ ==> p->then == StaticKind::Pdf
            &&& !(e == "svg"@ || e == "svgz"@ || e == "pdf"@ || e == "cr2"@ || e == "cr3"@ || e == "nef"@
                || e == "arw"@ || e == "orf"@ || e == "rw2"@ || e == "dng"@ || e == "raf"@ || e == "pef"@
                || e == "srw"@) ==> p->then == StaticKind::Image
        }),
{
    reveal_strlit("gif");
    reveal_strlit("webp");
    reveal_strlit("svg");
    reveal_strlit("svgz");
    reveal_strlit("pdf");
    assert("webp"@ != "gif"@) by { assert("webp"@.len() != "gif"@.len()); }
    assert("pdf"@ != "svg"@) by { assert("pdf"@[0] != "svg"@[0]); }
    assert("pdf"@ != "svgz"@) by { assert("pdf"@.len() != "svgz"@.len()); }
}

/// Last in, first out: a request pushed on the queue is the next one
/// taken, and taking it leaves the queue as it was before.
pub proof fn law_queue_lifo(s: Seq<DecodeRequest>, r: DecodeRequest)
    ensures
        s.push(r).len() > 0,
        s.push(r).last() == r,
        s.push(r).drop_last() == s,
{
    assert(s.push(r).drop_last() =~= s);
}

/// Dropping stale requests keeps exactly the requests of the current
/// generation or later, in their order: everything kept is current, and
/// every current request is kept.
pub proof fn law_drain_keeps_current(s: Seq<DecodeRequest>, generation: u64)
    ensures
        forall|k: int| 0 <= k < current_requests(s, generation).len() ==>
            (#[trigger] current_requests(s, generation)[k]).generation >= generation
            && s.contains(current_requests(s, generation)[k]),
        forall|k: int| 0 <= k < s.len() && (#[trigger] s[k]).generation >= generation ==>
            current_requests(s, generation).contains(s[k]),
        current_requests(s, generation).len() <= s.len(),
    decreases s.len(),
{
    if s.len() > 0 {
        let t = s.drop_last();
        law_drain_keeps_current(t, generation);
        let c = current_requests(s, generation);
        let ct = current_requests(t, generation);
        assert forall|k: int| 0 <= k < c.len() implies (#[trigger] c[k]).generation >= generation
            && s.contains(c[k]) by {
            if k < ct.len() {
                assert(c[k] == ct[k]);
                let j = choose|j: int| 0 <= j < t.len() && t[j] == ct[k];
                assert(s[j] == t[j]);
            } else {
                assert(c[k] == s.last());
                assert(s[s.len() - 1] == s.last());
            }
        }
        assert forall|k: int| 0 <= k < s.len() && (#[trigger] s[k]).generation >= generation implies c.contains(s[k]) by {
            if k < s.len() - 1 {
                assert(t[k] == s[k]);
                assert(ct.contains(t[k]));
                let j = choose|j: int| 0 <= j < ct.len() && ct[j] == t[k];
                assert(c[j] == ct[j]);
            } else {
                assert(c[c.len() - 1] == s.last());
            }
        }
    }
}

/// A fully opaque pixel is the same premultiplied or not.
pub proof fn law_opaque_pixel_unchanged(p: Seq<u8>)
    requires
        p.len() == 4,
        p[3] == 255,
    ensures
        unpremultiplied_pixel(p) == p,
{
    assert forall|c: u8| unpremultiply_channel(c, 255) == c by {
        assert(((c as int) * 255 + 127) / 255 == c as int) by (nonlinear_arith);
    }
    assert(unpremultiplied_pixel(p) =~= p);
}

} // verus!
