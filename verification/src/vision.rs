//! Normalizing inbound images to baseline JPEG.

use vstd::prelude::*;

verus! {

/// The longest edge of a normalized image. Smaller images are never enlarged.
pub const MAX_LONG_EDGE: u32 = 2048;

/// The JPEG quality of a normalized image.
pub const JPEG_QUALITY: u8 = 85;

/// The prefix of the data URI of a JPEG.
pub const DATA_URI_PREFIX: &'static str = "data:image/jpeg;base64,";

/// `image::ImageError`, carried through as the cause of a failure.
#[verifier::external_type_specification]
#[verifier::external_body]
pub struct ExImageError(image::ImageError);

/// The kind of an inbound attachment.
#[derive(Debug, Clone, Copy, PartialEq, Eq, Structural)]
pub enum MediaKind {
    /// A plain image.
    Image,
    /// A static sticker, typically with transparency.
    Sticker,
    /// A video; not supported.
    Video,
    /// An animated sticker; not supported.
    Animated,
}

impl MediaKind {
    /// Whether attachments of this kind are normalized.
    pub open spec fn supported(self) -> bool {
        self == MediaKind::Image || self == MediaKind::Sticker
    }
}

/// Images and static stickers are normalized; videos and animations are not.
pub proof fn law_supported_kinds()
    ensures
        MediaKind::Image.supported(),
        MediaKind::Sticker.supported(),
        !MediaKind::Video.supported(),
        !MediaKind::Animated.supported(),
{
}

/// The media type of a normalized image.
#[derive(Debug, Clone, Copy, PartialEq, Eq, Structural)]
pub enum ImageMediaType {
    /// Baseline JPEG.
    Jpeg,
}

/// A normalized image with its final dimensions.
#[derive(Debug, Clone)]
pub struct NormalizedImage {
    pub jpeg_bytes: Vec<u8>,
    pub width: u32,
    pub height: u32,
    pub media_type: ImageMediaType,
}

/// Errors of the normalization.
#[derive(Debug)]
pub enum VisionError {
    /// The kind is not supported; the bytes were not looked at.
    Unsupported { kind: MediaKind },
    /// The bytes are no image, or an image without pixels.
    Decode(image::ImageError),
    /// The image could not be encoded.
    Encode(image::ImageError),
}

/// A decoded image: four bytes per pixel, row by row.
#[derive(Debug, Clone, PartialEq, Eq)]
pub struct Raster {
    pub width: u32,
    pub height: u32,
    pub rgba: Vec<u8>,
}

/// The width and the height of the image that the bytes hold, where they hold one.
pub uninterp spec fn image_size(bytes: Seq<u8>) -> Option<(nat, nat)>;

/// The RGBA bytes of the image that the bytes hold.
pub uninterp spec fn image_pixels(bytes: Seq<u8>) -> Seq<u8>;

/// The RGBA bytes of the upper image over the lower one, both of the given size.
pub uninterp spec fn overlaid(
    width: nat,
    height: nat,
    lower: Seq<u8>,
    upper: Seq<u8>,
) -> Seq<u8>;

/// The RGB bytes of an image resampled to another size with the triangle filter.
pub uninterp spec fn resampled(
    width: nat,
    height: nat,
    rgb: Seq<u8>,
    new_width: nat,
    new_height: nat,
) -> Seq<u8>;

/// The baseline JPEG of RGB bytes.
pub uninterp spec fn jpeg(width: nat, height: nat, rgb: Seq<u8>, quality: u8) -> Seq<u8>;

/// The standard base64 text of bytes, with padding.
pub uninterp spec fn base64_text(bytes: Seq<u8>) -> Seq<char>;

/// `image::guess_format`, `image::load_from_memory_with_format` and
/// `DynamicImage::into_rgba8`. Whether the bytes decode, to which size and to which
/// pixels, depends on the bytes alone: the vector paths of the JPEG decoder use the same
/// integer arithmetic as its scalar path. An RGBA buffer holds four bytes per pixel.
#[verifier::external_body]
fn decode(bytes: &[u8]) -> (r: Result<Raster, image::ImageError>)
    ensures
        r is Ok <==> image_size(bytes@) is Some,
        r matches Ok(raster) ==> image_size(bytes@) == Some(
            (raster.width as nat, raster.height as nat),
        ),
        r matches Ok(raster) ==> raster.rgba@ == image_pixels(bytes@),
        r matches Ok(raster) ==> raster.rgba@.len() == 4 * raster.width * raster.height,
{
    let format = image::guess_format(bytes)?;
    let rgba = image::load_from_memory_with_format(bytes, format)?.into_rgba8();
    Ok(Raster { width: rgba.width(), height: rgba.height(), rgba: rgba.into_raw() })
}

/// `image::imageops::overlay` at the origin. A fully transparent upper pixel leaves
/// the lower pixel, a fully opaque one replaces it.
#[verifier::external_body]
fn overlay(width: u32, height: u32, lower: Vec<u8>, upper: Vec<u8>) -> (r: Vec<u8>)
    requires
        lower@.len() == 4 * width * height,
        upper@.len() == 4 * width * height,
    ensures
        r@ == overlaid(width as nat, height as nat, lower@, upper@),
        r@.len() == 4 * width * height,
        forall|p: int|
            #![trigger r@[4 * p]]
            0 <= p < width * height && upper@[4 * p + 3] == 0 ==> same_pixel(r@, lower@, p),
        forall|p: int|
            #![trigger r@[4 * p]]
            0 <= p < width * height && upper@[4 * p + 3] == 255 ==> same_pixel(r@, upper@, p),
{
    let mut bottom = image::RgbaImage::from_raw(width, height, lower).unwrap();
    let top = image::RgbaImage::from_raw(width, height, upper).unwrap();
    image::imageops::overlay(&mut bottom, &top, 0, 0);
    bottom.into_raw()
}

/// `image::imageops::resize` with the triangle filter.
#[verifier::external_body]
fn resize(width: u32, height: u32, rgb: Vec<u8>, new_width: u32, new_height: u32) -> (r: Vec<u8>)
    requires
        rgb@.len() == 3 * width * height,
        0 < width,
        0 < height,
        0 < new_width <= MAX_LONG_EDGE,
        0 < new_height <= MAX_LONG_EDGE,
    ensures
        r@ == resampled(
            width as nat,
            height as nat,
            rgb@,
            new_width as nat,
            new_height as nat,
        ),
        r@.len() == 3 * new_width * new_height,
{
    let image = image::RgbImage::from_raw(width, height, rgb).unwrap();
    let filter = image::imageops::FilterType::Triangle;
    image::imageops::resize(&image, new_width, new_height, filter).into_raw()
}

/// Whether a JPEG can have these dimensions.
pub open spec fn encodable(width: nat, height: nat) -> bool {
    1 <= width <= 65_535 && 1 <= height <= 65_535
}

/// Whether neither edge is over the cap.
pub open spec fn within_cap(width: nat, height: nat) -> bool {
    width <= MAX_LONG_EDGE && height <= MAX_LONG_EDGE
}

/// `image::codecs::jpeg::JpegEncoder::encode_image` into a buffer. It fails only for
/// an edge that is zero or does not fit in 16 bits. A JPEG of the quality in use, within
/// the cap, decodes to its own size.
#[verifier::external_body]
fn encode(width: u32, height: u32, rgb: Vec<u8>, quality: u8) -> (r: Result<
    Vec<u8>,
    image::ImageError,
>)
    requires
        rgb@.len() == 3 * width * height,
    ensures
        r is Ok <==> encodable(width as nat, height as nat),
        r matches Ok(bytes) ==> bytes@ == jpeg(width as nat, height as nat, rgb@, quality),
        r matches Ok(bytes) ==> quality == JPEG_QUALITY && within_cap(
            width as nat,
            height as nat,
        ) ==> image_size(bytes@) == Some((width as nat, height as nat)),
{
    let image = image::RgbImage::from_raw(width, height, rgb).unwrap();
    let mut bytes = Vec::new();
    image::codecs::jpeg::JpegEncoder::new_with_quality(&mut bytes, quality).encode_image(&image)?;
    Ok(bytes)
}

/// The error of an image without pixels.
#[verifier::external_body]
fn dimension_mismatch() -> (r: image::ImageError) {
    let kind = image::error::ParameterErrorKind::DimensionMismatch;
    image::ImageError::Parameter(image::error::ParameterError::from_kind(kind))
}

/// `base64::Engine::encode` with the standard padded alphabet.
#[verifier::external_body]
fn base64_standard(bytes: &[u8]) -> (r: String)
    ensures
        r@ == base64_text(bytes@),
{
    base64::Engine::encode(&base64::engine::general_purpose::STANDARD, bytes)
}

/// Whether both RGBA buffers hold the same pixel at `p`.
pub open spec fn same_pixel(a: Seq<u8>, b: Seq<u8>, p: int) -> bool {
    &&& a[4 * p] == b[4 * p]
    &&& a[4 * p + 1] == b[4 * p + 1]
    &&& a[4 * p + 2] == b[4 * p + 2]
    &&& a[4 * p + 3] == b[4 * p + 3]
}

/// Whether the RGB bytes show an RGBA image over white: each fully transparent pixel is
/// white, each fully opaque one is as it was.
pub open spec fn shown_over_white(rgb: Seq<u8>, rgba: Seq<u8>, pixels: int) -> bool {
    &&& forall|p: int|
        #![trigger rgb[3 * p]]
        0 <= p < pixels && rgba[4 * p + 3] == 0 ==> rgb[3 * p] == 255 && rgb[3 * p + 1] == 255
            && rgb[3 * p + 2] == 255
    &&& forall|p: int|
        #![trigger rgb[3 * p]]
        0 <= p < pixels && rgba[4 * p + 3] == 255 ==> rgb[3 * p] == rgba[4 * p] && rgb[3 * p + 1]
            == rgba[4 * p + 1] && rgb[3 * p + 2] == rgba[4 * p + 2]
}

/// The longer of two edges.
pub open spec fn long_edge(width: int, height: int) -> int {
    if width >= height {
        width
    } else {
        height
    }
}

/// An edge scaled so that the long edge has `MAX_LONG_EDGE` pixels; at least one.
pub open spec fn scaled_edge(edge: int, long: int) -> int {
    let scaled = edge * MAX_LONG_EDGE / long;
    if scaled < 1 {
        1
    } else {
        scaled
    }
}

/// The final dimensions of an image: scaled down where its long edge is too long.
pub open spec fn final_dimensions(width: int, height: int) -> (int, int) {
    let long = long_edge(width, height);
    if long > MAX_LONG_EDGE {
        (scaled_edge(width, long), scaled_edge(height, long))
    } else {
        (width, height)
    }
}

fn scale(edge: u32, long: u32) -> (r: u32)
    requires
        MAX_LONG_EDGE < long,
        edge <= long,
    ensures
        r == scaled_edge(edge as int, long as int),
        1 <= r <= MAX_LONG_EDGE,
{
    assert(edge * MAX_LONG_EDGE <= long * MAX_LONG_EDGE) by (nonlinear_arith)
        requires
            edge <= long,
    ;
    let scaled: u64 = (edge as u64) * (MAX_LONG_EDGE as u64) / (long as u64);
    proof {
        lemma_quotient_bound(edge * MAX_LONG_EDGE, long as int, MAX_LONG_EDGE as int);
    }
    if scaled < 1 {
        1
    } else {
        scaled as u32
    }
}

proof fn lemma_quotient_bound(a: int, b: int, c: int)
    by (nonlinear_arith)
    requires
        b > 0,
        0 <= a <= b * c,
    ensures
        0 <= a / b <= c,
{
}

/// The dimensions with the long edge exactly `MAX_LONG_EDGE` and the aspect kept.
pub fn scaled_dimensions(width: u32, height: u32) -> (r: (u32, u32))
    requires
        long_edge(width as int, height as int) > MAX_LONG_EDGE,
    ensures
        (r.0 as int, r.1 as int) == final_dimensions(width as int, height as int),
        1 <= r.0 <= MAX_LONG_EDGE,
        1 <= r.1 <= MAX_LONG_EDGE,
{
    let long: u32 = if width >= height {
        width
    } else {
        height
    };
    (scale(width, long), scale(height, long))
}

/// An image that is too long ends up with its long edge at exactly the cap, and no
/// image ends up with an edge over the cap, without pixels, or larger than it was.
pub proof fn law_final_dimensions(width: int, height: int)
    requires
        width > 0,
        height > 0,
    ensures
        ({
            let (w, h) = final_dimensions(width, height);
            &&& long_edge(width, height) > MAX_LONG_EDGE ==> long_edge(w, h) == MAX_LONG_EDGE
            &&& long_edge(width, height) <= MAX_LONG_EDGE ==> (w, h) == (width, height)
            &&& 1 <= w <= MAX_LONG_EDGE && 1 <= h <= MAX_LONG_EDGE
            &&& w <= width && h <= height
        }),
{
    let long = long_edge(width, height);
    if long > MAX_LONG_EDGE {
        assert(long * MAX_LONG_EDGE / long == MAX_LONG_EDGE) by (nonlinear_arith)
            requires
                long > 0,
        ;
        lemma_edge_bounds(width, long);
        lemma_edge_bounds(height, long);
    }
}

proof fn lemma_edge_bounds(edge: int, long: int)
    requires
        0 < edge <= long,
        long > MAX_LONG_EDGE,
    ensures
        1 <= scaled_edge(edge, long) <= MAX_LONG_EDGE,
        scaled_edge(edge, long) <= edge,
{
    assert(0 <= edge * MAX_LONG_EDGE <= long * MAX_LONG_EDGE) by (nonlinear_arith)
        requires
            0 < edge <= long,
    ;
    lemma_quotient_bound(edge * MAX_LONG_EDGE, long, MAX_LONG_EDGE as int);
    assert(edge * MAX_LONG_EDGE <= long * edge) by (nonlinear_arith)
        requires
            0 < edge,
            long > MAX_LONG_EDGE,
    ;
    lemma_quotient_bound(edge * MAX_LONG_EDGE, long, edge);
}

/// The final dimensions in numbers: within 2048 pixels an image keeps its own. Over them
/// its long edge gets 2048, and its other edge the largest whole number of pixels that
/// keeps it within the aspect, or one.
pub proof fn law_aspect_is_kept(width: int, height: int)
    requires
        width > 0,
        height > 0,
    ensures
        ({
            let (w, h) = final_dimensions(width, height);
            &&& width <= 2048 && height <= 2048 ==> w == width && h == height
            &&& width >= height && width > 2048 ==> w == 2048 && (h * width <= height * 2048 < (h
                + 1) * width || h == 1 && height * 2048 < width)
            &&& height >= width && height > 2048 ==> h == 2048 && (w * height <= width * 2048 < (w
                + 1) * height || w == 1 && width * 2048 < height)
        }),
{
    law_final_dimensions(width, height);
    let long = long_edge(width, height);
    if long > 2048 {
        lemma_scaled_edge(width, long);
        lemma_scaled_edge(height, long);
        assert(long * 2048 / long == 2048) by (nonlinear_arith)
            requires
                long > 0,
        ;
    }
}

proof fn lemma_scaled_edge(edge: int, long: int)
    requires
        0 < edge <= long,
    ensures
        ({
            let scaled = scaled_edge(edge, long);
            scaled * long <= edge * 2048 < (scaled + 1) * long || scaled == 1 && edge * 2048 < long
        }),
{
    let q = edge * 2048 / long;
    assert(q * long <= edge * 2048 < (q + 1) * long) by (nonlinear_arith)
        requires
            q == edge * 2048 / long,
            long > 0,
    ;
    if q < 1 {
        assert((q + 1) * long <= long) by (nonlinear_arith)
            requires
                q < 1,
                long > 0,
        ;
    }
}

/// A canvas of opaque white pixels.
pub open spec fn white_canvas(pixels: nat) -> Seq<u8> {
    Seq::new(4 * pixels, |i: int| 255u8)
}

/// The RGB bytes of RGBA bytes: the alpha of each pixel left out.
pub open spec fn without_alpha(rgba: Seq<u8>) -> Seq<u8> {
    Seq::new((rgba.len() / 4) * 3, |i: int| rgba[i / 3 * 4 + i % 3])
}

/// The RGB bytes of an image over white.
pub open spec fn flattened(width: nat, height: nat, rgba: Seq<u8>) -> Seq<u8> {
    without_alpha(overlaid(width, height, white_canvas(width * height), rgba))
}

fn drop_alpha(rgba: Vec<u8>) -> (r: Vec<u8>)
    requires
        rgba@.len() % 4 == 0,
    ensures
        r@ == without_alpha(rgba@),
        r@.len() == rgba@.len() / 4 * 3,
{
    let mut out: Vec<u8> = Vec::new();
    let mut at: usize = 0;
    while at < rgba.len()
        invariant
            at <= rgba@.len(),
            at % 4 == 0,
            rgba@.len() % 4 == 0,
            out@.len() == at / 4 * 3,
            forall|i: int| 0 <= i < out@.len() ==> #[trigger] out@[i] == rgba@[i / 3 * 4 + i % 3],
        decreases rgba@.len() - at,
    {
        let ghost before = out@;
        assert(at + 4 <= rgba@.len());
        out.push(rgba[at]);
        out.push(rgba[at + 1]);
        out.push(rgba[at + 2]);
        assert forall|i: int| 0 <= i < out@.len() implies #[trigger] out@[i] == rgba@[i / 3 * 4 + i
            % 3] by {
            let n = before.len() as int;
            if i < n {
                assert(out@[i] == before[i]);
            } else {
                assert(n == at / 4 * 3);
                assert(i / 3 == at / 4 && i % 3 == i - n);
            }
        }
        at += 4;
    }
    assert(out@ =~= without_alpha(rgba@));
    out
}

proof fn lemma_shown_over_white(
    rgb: Seq<u8>,
    composed: Seq<u8>,
    canvas: Seq<u8>,
    upper: Seq<u8>,
    pixels: int,
)
    requires
        pixels >= 0,
        composed.len() == 4 * pixels,
        rgb == without_alpha(composed),
        canvas == white_canvas(pixels as nat),
        forall|p: int|
            #![trigger composed[4 * p]]
            0 <= p < pixels && upper[4 * p + 3] == 0 ==> same_pixel(composed, canvas, p),
        forall|p: int|
            #![trigger composed[4 * p]]
            0 <= p < pixels && upper[4 * p + 3] == 255 ==> same_pixel(composed, upper, p),
    ensures
        shown_over_white(rgb, upper, pixels),
{
    assert forall|p: int|
        #![trigger rgb[3 * p]]
        0 <= p < pixels && upper[4 * p + 3] == 0 implies rgb[3 * p] == 255 && rgb[3 * p + 1] == 255
        && rgb[3 * p + 2] == 255 by {
        lemma_pixel_without_alpha(composed, p);
        assert(composed[4 * p] == canvas[4 * p]);
    }
    assert forall|p: int|
        #![trigger rgb[3 * p]]
        0 <= p < pixels && upper[4 * p + 3] == 255 implies rgb[3 * p] == upper[4 * p] && rgb[3 * p
        + 1] == upper[4 * p + 1] && rgb[3 * p + 2] == upper[4 * p + 2] by {
        lemma_pixel_without_alpha(composed, p);
        assert(composed[4 * p] == upper[4 * p]);
    }
}

proof fn lemma_pixel_without_alpha(rgba: Seq<u8>, p: int)
    requires
        0 <= p < rgba.len() / 4,
    ensures
        without_alpha(rgba)[3 * p] == rgba[4 * p],
        without_alpha(rgba)[3 * p + 1] == rgba[4 * p + 1],
        without_alpha(rgba)[3 * p + 2] == rgba[4 * p + 2],
{
    assert(3 * p / 3 == p && 3 * p % 3 == 0);
    assert((3 * p + 1) / 3 == p && (3 * p + 1) % 3 == 1);
    assert((3 * p + 2) / 3 == p && (3 * p + 2) % 3 == 2);
}

/// The RGB bytes of a decoded image over an opaque white canvas. Transparent pixels
/// become white, opaque pixels stay.
pub fn flatten(raster: Raster) -> (r: Vec<u8>)
    requires
        raster.rgba@.len() == 4 * raster.width * raster.height,
    ensures
        r@ == flattened(raster.width as nat, raster.height as nat, raster.rgba@),
        r@.len() == 3 * raster.width * raster.height,
        shown_over_white(r@, raster.rgba@, raster.width * raster.height),
{
    let ghost pixels: int = raster.width * raster.height;
    let ghost upper = raster.rgba@;
    assert(pixels >= 0) by (nonlinear_arith)
        requires
            pixels == raster.width * raster.height,
    ;
    assert(4 * raster.width * raster.height == 4 * pixels) by (nonlinear_arith)
        requires
            pixels == raster.width * raster.height,
    ;
    assert(3 * raster.width * raster.height == 3 * pixels) by (nonlinear_arith)
        requires
            pixels == raster.width * raster.height,
    ;
    let length: usize = raster.rgba.len();
    let mut canvas: Vec<u8> = Vec::new();
    while canvas.len() < length
        invariant
            canvas@.len() <= length,
            forall|i: int| 0 <= i < canvas@.len() ==> #[trigger] canvas@[i] == 255,
        decreases length - canvas@.len(),
    {
        canvas.push(255);
    }
    assert(canvas@ =~= white_canvas(pixels as nat));
    let Raster { width, height, rgba } = raster;
    let over = overlay(width, height, canvas, rgba);
    let ghost composed = over@;
    let r = drop_alpha(over);
    proof {
        lemma_shown_over_white(r@, composed, canvas@, upper, pixels);
    }
    assert(shown_over_white(r@, upper, pixels));
    r
}

/// The RGB bytes of a flattened image in its final dimensions.
pub open spec fn fitted(width: nat, height: nat, rgb: Seq<u8>) -> Seq<u8> {
    let (w, h) = final_dimensions(width as int, height as int);
    if long_edge(width as int, height as int) > MAX_LONG_EDGE {
        resampled(width, height, rgb, w as nat, h as nat)
    } else {
        rgb
    }
}

/// Whether the image is the normalized form of a decoded one: the JPEG of its pixels over
/// white, in the final dimensions, which are also those the JPEG decodes to.
pub open spec fn is_normalized(
    image: NormalizedImage,
    width: nat,
    height: nat,
    rgba: Seq<u8>,
) -> bool {
    &&& (image.width as int, image.height as int) == final_dimensions(width as int, height as int)
    &&& image.jpeg_bytes@ == jpeg(
        image.width as nat,
        image.height as nat,
        fitted(width, height, flattened(width, height, rgba)),
        JPEG_QUALITY,
    )
    &&& image.media_type == ImageMediaType::Jpeg
    &&& image_size(image.jpeg_bytes@) == Some((image.width as nat, image.height as nat))
    &&& shown_over_white(flattened(width, height, rgba), rgba, (width * height) as int)
}

/// Each pixel of a flattened image is that of the image over a canvas of the image's own
/// size whose bytes are all 255: its first three bytes, in order.
pub proof fn law_flattened_pixels(width: nat, height: nat, rgba: Seq<u8>)
    ensures
        ({
            let over = overlaid(
                width,
                height,
                Seq::new(4 * (width * height), |i: int| 255u8),
                rgba,
            );
            let flat = flattened(width, height, rgba);
            &&& flat.len() == over.len() / 4 * 3
            &&& forall|p: int, c: int|
                #![trigger flat[3 * p + c]]
                0 <= p < over.len() / 4 && 0 <= c < 3 ==> flat[3 * p + c] == over[4 * p + c]
        }),
{
    let over = overlaid(width, height, Seq::new(4 * (width * height), |i: int| 255u8), rgba);
    let flat = flattened(width, height, rgba);
    assert(white_canvas(width * height) =~= Seq::new(4 * (width * height), |i: int| 255u8));
    assert forall|p: int, c: int|
        #![trigger flat[3 * p + c]]
        0 <= p < over.len() / 4 && 0 <= c < 3 implies flat[3 * p + c] == over[4 * p + c] by {
        assert((3 * p + c) / 3 == p && (3 * p + c) % 3 == c);
    }
}

/// Fitting an image leaves its pixels where neither edge is over 2048, and resamples them
/// otherwise, from the image's own width and height to the final ones.
pub proof fn law_fitted_pixels(width: nat, height: nat, rgb: Seq<u8>)
    ensures
        width <= 2048 && height <= 2048 ==> fitted(width, height, rgb) == rgb,
        width > 2048 || height > 2048 ==> ({
            let (w, h) = final_dimensions(width as int, height as int);
            fitted(width, height, rgb) == resampled(width, height, rgb, w as nat, h as nat)
        }),
{
}

/// What the bytes of a normalized image are: the JPEG, at quality 85, of the image over
/// white, resampled in its own orientation where an edge is over 2048.
pub proof fn law_normalized_bytes(
    image: NormalizedImage,
    width: nat,
    height: nat,
    rgba: Seq<u8>,
)
    requires
        is_normalized(image, width, height, rgba),
        width > 0,
        height > 0,
    ensures
        ({
            let flat = flattened(width, height, rgba);
            let (w, h) = (image.width as nat, image.height as nat);
            &&& width <= 2048 && height <= 2048 ==> w == width && h == height
                && image.jpeg_bytes@ == jpeg(width, height, flat, 85)
            &&& width > 2048 || height > 2048 ==> image.jpeg_bytes@ == jpeg(
                w,
                h,
                resampled(width, height, flat, w, h),
                85,
            )
            &&& image_size(image.jpeg_bytes@) == Some((w, h))
            &&& width >= height ==> w >= h
            &&& height >= width ==> h >= w
            &&& width >= height && width > 2048 ==> w == 2048
            &&& height >= width && height > 2048 ==> h == 2048
        }),
{
    law_final_dimensions(width as int, height as int);
    law_aspect_is_kept(width as int, height as int);
}

/// Transparent pixels of an image over white are white and opaque ones are their own.
pub proof fn law_shown_pixels(rgb: Seq<u8>, rgba: Seq<u8>, pixels: int, p: int)
    requires
        shown_over_white(rgb, rgba, pixels),
        0 <= p < pixels,
    ensures
        rgba[4 * p + 3] == 0 ==> rgb[3 * p] == 255 && rgb[3 * p + 1] == 255 && rgb[3 * p + 2]
            == 255,
        rgba[4 * p + 3] == 255 ==> rgb[3 * p] == rgba[4 * p] && rgb[3 * p + 1] == rgba[4 * p + 1]
            && rgb[3 * p + 2] == rgba[4 * p + 2],
{
    let first = rgb[3 * p];
}

/// Normalizes a decoded image. An image without pixels is an error.
pub fn normalize_raster(raster: Raster) -> (r: Result<NormalizedImage, VisionError>)
    requires
        raster.rgba@.len() == 4 * raster.width * raster.height,
    ensures
        match r {
            Ok(image) => raster.width > 0 && raster.height > 0 && is_normalized(
                image,
                raster.width as nat,
                raster.height as nat,
                raster.rgba@,
            ),
            Err(error) => (raster.width == 0 || raster.height == 0) && error is Decode,
        },
        r matches Ok(image) ==> ({
            let (width, height) = (raster.width as nat, raster.height as nat);
            let (w, h) = (image.width as nat, image.height as nat);
            let flat = flattened(width, height, raster.rgba@);
            if width <= 2048 && height <= 2048 {
                w == width && h == height && image.jpeg_bytes@ == jpeg(width, height, flat, 85)
            } else {
                image.jpeg_bytes@ == jpeg(w, h, resampled(width, height, flat, w, h), 85)
            }
        }),
{
    if raster.width == 0 || raster.height == 0 {
        return Err(VisionError::Decode(dimension_mismatch()));
    }
    let width: u32 = raster.width;
    let height: u32 = raster.height;
    proof {
        law_final_dimensions(width as int, height as int);
    }
    let rgb = flatten(raster);
    let long: u32 = if width >= height {
        width
    } else {
        height
    };
    let (final_width, final_height, pixels) = if long > MAX_LONG_EDGE {
        let (w, h) = scaled_dimensions(width, height);
        let resized = resize(width, height, rgb, w, h);
        (w, h, resized)
    } else {
        (width, height, rgb)
    };
    match encode(final_width, final_height, pixels, JPEG_QUALITY) {
        Ok(jpeg_bytes) => Ok(
            NormalizedImage {
                jpeg_bytes,
                width: final_width,
                height: final_height,
                media_type: ImageMediaType::Jpeg,
            },
        ),
        Err(error) => Err(VisionError::Encode(error)),
    }
}

/// Normalizes image or sticker bytes to a baseline JPEG: over white, the long edge at
/// most `MAX_LONG_EDGE`. A kind that is not supported is refused before the bytes are
/// looked at.
pub fn normalize_image(bytes: &[u8], kind: MediaKind) -> (r: Result<NormalizedImage, VisionError>)
    ensures
        match r {
            Ok(image) => kind.supported() && (image_size(bytes@) matches Some(size) && size.0 > 0
                && size.1 > 0 && is_normalized(image, size.0, size.1, image_pixels(bytes@))),
            Err(VisionError::Unsupported { kind: refused }) => !kind.supported() && refused == kind,
            Err(VisionError::Decode(_)) => kind.supported() && (image_size(bytes@) matches Some(
                size,
            ) ==> size.0 == 0 || size.1 == 0),
            Err(VisionError::Encode(_)) => false,
        },
        r matches Ok(image) ==> (image_size(bytes@) matches Some(size) && ({
            let (width, height) = size;
            let (w, h) = (image.width as nat, image.height as nat);
            let flat = flattened(width, height, image_pixels(bytes@));
            if width <= 2048 && height <= 2048 {
                w == width && h == height && image.jpeg_bytes@ == jpeg(width, height, flat, 85)
            } else {
                image.jpeg_bytes@ == jpeg(w, h, resampled(width, height, flat, w, h), 85)
            }
        })),
{
    match kind {
        MediaKind::Image | MediaKind::Sticker => {},
        MediaKind::Video | MediaKind::Animated => {
            return Err(VisionError::Unsupported { kind });
        },
    }
    match decode(bytes) {
        Ok(raster) => normalize_raster(raster),
        Err(error) => Err(VisionError::Decode(error)),
    }
}

/// The data URI of JPEG bytes.
pub fn to_base64_data_uri(jpeg_bytes: &[u8]) -> (r: String)
    ensures
        r@ == DATA_URI_PREFIX@ + base64_text(jpeg_bytes@),
{
    let body = base64_standard(jpeg_bytes);
    DATA_URI_PREFIX.to_owned().concat(body.as_str())
}

} // verus!
