//! Composing the finished document: the canvas, its background and the logo layer.

use crate::background_works::{DominantColor, Score};
use crate::raster::{RasterImage, Rgb};
use crate::text::{decimal_text, fixed2_text, push_decimal, push_fixed2};
use crate::vectorize::{image_vectorize_to_svg, is_paths_markup};
use vstd::prelude::*;
use vstd::utf8::encode_utf8;

verus! {

/// The greatest size of a vector layer, in whole kilobytes, that is not accepted.
pub const MAX_VECTOR_LOGO_SIZE: usize = 100;

/// The number of bytes in a kilobyte.
pub const KILOBYTE: usize = 1024;

/// The preset of the lossless PNG compression.
pub const PNG_OPTIMIZE: u8 = 4;

/// The side of the square canvas.
pub const WIDTH_HEIGHT: u64 = 300;

/// The share of the canvas, in percent, that the logo's longer side takes.
pub const LOGO_SCALE_PERCENT: u64 = 65;

/// A non-negative fraction.
#[derive(Clone, Copy, Debug, PartialEq, Eq, Structural)]
pub struct Ratio {
    pub numerator: u64,
    pub denominator: u64,
}

impl Ratio {
    /// Whether the fraction has a value.
    pub open spec fn wf(self) -> bool {
        self.denominator > 0
    }

    /// The fraction in hundredths, rounded to the nearest; a fraction half way between
    /// two hundredths goes to the even one.
    pub open spec fn hundredths_of(self) -> nat {
        let whole = 100 * self.numerator / (self.denominator as int);
        let rest = 100 * self.numerator % (self.denominator as int);
        if 2 * rest > self.denominator || (2 * rest == self.denominator && whole % 2 == 1) {
            (whole + 1) as nat
        } else {
            whole as nat
        }
    }

    /// The fraction in hundredths, rounded to the nearest, halves to the even; `None`
    /// where that does not fit 64 bits.
    pub fn hundredths(&self) -> (h: Option<u64>)
        requires
            self.wf(),
        ensures
            h is Some <==> self.hundredths_of() <= u64::MAX,
            h is Some ==> h->0 == self.hundredths_of(),
    {
        let scaled: u128 = 100u128 * (self.numerator as u128);
        let bottom: u128 = self.denominator as u128;
        let whole: u128 = scaled / bottom;
        let rest: u128 = scaled % bottom;
        let up = 2 * rest > bottom || (2 * rest == bottom && whole % 2 == 1);
        assert(whole <= scaled) by (nonlinear_arith)
            requires
                whole == scaled / bottom,
                bottom >= 1,
        ;
        let h: u128 = if up {
            whole + 1
        } else {
            whole
        };
        if h <= u64::MAX as u128 {
            Some(h as u64)
        } else {
            None
        }
    }
}

/// Where the logo layer stands on the canvas: it is scaled, then moved.
#[derive(Clone, Copy, Debug, PartialEq, Eq, Structural)]
pub struct LogoTransform {
    pub scale: Ratio,
    pub offset_x: Ratio,
    pub offset_y: Ratio,
}

/// The greater of two numbers.
pub open spec fn longer_side(width: int, height: int) -> int {
    if width >= height {
        width
    } else {
        height
    }
}

impl LogoTransform {
    /// The placement of a `width` by `height` box: scaled so that its longer side takes
    /// `LOGO_SCALE_PERCENT` of the canvas, and centred.
    pub open spec fn shrink_to_center(width: int, height: int) -> LogoTransform {
        let side = longer_side(width, height);
        LogoTransform {
            scale: Ratio {
                numerator: (2 * WIDTH_HEIGHT * LOGO_SCALE_PERCENT) as u64,
                denominator: (200 * side) as u64,
            },
            offset_x: Ratio {
                numerator: (WIDTH_HEIGHT * (100 * side - LOGO_SCALE_PERCENT * width)) as u64,
                denominator: (200 * side) as u64,
            },
            offset_y: Ratio {
                numerator: (WIDTH_HEIGHT * (100 * side - LOGO_SCALE_PERCENT * height)) as u64,
                denominator: (200 * side) as u64,
            },
        }
    }

    /// The placement that changes nothing.
    pub open spec fn identity() -> LogoTransform {
        LogoTransform {
            scale: Ratio { numerator: 1, denominator: 1 },
            offset_x: Ratio { numerator: 0, denominator: 1 },
            offset_y: Ratio { numerator: 0, denominator: 1 },
        }
    }

    /// Whether the three fractions have values.
    pub open spec fn wf(self) -> bool {
        self.scale.wf() && self.offset_x.wf() && self.offset_y.wf()
    }

    /// The placement of a box of the given size, shrunk and centred.
    pub fn for_box(width: u32, height: u32) -> (t: LogoTransform)
        requires
            width > 0,
            height > 0,
        ensures
            t == LogoTransform::shrink_to_center(width as int, height as int),
            t.wf(),
    {
        let side: u64 = if width >= height {
            width as u64
        } else {
            height as u64
        };
        let w = width as u64;
        let h = height as u64;
        assert(LOGO_SCALE_PERCENT * w <= 65 * side && LOGO_SCALE_PERCENT * h <= 65 * side);
        assert(WIDTH_HEIGHT * (100 * side - LOGO_SCALE_PERCENT * w) <= 300 * 100 * 0xffff_ffff)
            by (nonlinear_arith)
            requires
                WIDTH_HEIGHT == 300,
                0 <= 100 * side - LOGO_SCALE_PERCENT * w <= 100 * 0xffff_ffff,
        ;
        assert(WIDTH_HEIGHT * (100 * side - LOGO_SCALE_PERCENT * h) <= 300 * 100 * 0xffff_ffff)
            by (nonlinear_arith)
            requires
                WIDTH_HEIGHT == 300,
                0 <= 100 * side - LOGO_SCALE_PERCENT * h <= 100 * 0xffff_ffff,
        ;
        LogoTransform {
            scale: Ratio {
                numerator: 2 * WIDTH_HEIGHT * LOGO_SCALE_PERCENT,
                denominator: 200 * side,
            },
            offset_x: Ratio {
                numerator: WIDTH_HEIGHT * (100 * side - LOGO_SCALE_PERCENT * w),
                denominator: 200 * side,
            },
            offset_y: Ratio {
                numerator: WIDTH_HEIGHT * (100 * side - LOGO_SCALE_PERCENT * h),
                denominator: 200 * side,
            },
        }
    }

    /// The placement of a traced raster: its own box, shrunk and centred.
    pub fn calculate_transform(image: &RasterImage) -> (t: LogoTransform)
        requires
            image@.width > 0,
            image@.height > 0,
        ensures
            t == LogoTransform::shrink_to_center(image@.width as int, image@.height as int),
            t.wf(),
    {
        LogoTransform::for_box(image.width(), image.height())
    }

    /// The placement of an embedded raster that was keyed: its own box, shrunk and
    /// centred, as that of a traced raster.
    pub fn calculate_png_transform(image: &RasterImage) -> (t: LogoTransform)
        requires
            image@.width > 0,
            image@.height > 0,
        ensures
            t == LogoTransform::shrink_to_center(image@.width as int, image@.height as int),
            t.wf(),
    {
        LogoTransform::for_box(image.width(), image.height())
    }

    /// The placement of an embedded raster that was not keyed: it fills the canvas.
    pub fn full_size() -> (t: LogoTransform)
        ensures
            t == LogoTransform::identity(),
            t.wf(),
    {
        LogoTransform {
            scale: Ratio { numerator: 1, denominator: 1 },
            offset_x: Ratio { numerator: 0, denominator: 1 },
            offset_y: Ratio { numerator: 0, denominator: 1 },
        }
    }
}

/// A box that is shrunk and centred stands in the middle of the canvas: on each axis,
/// twice the offset and the scaled side make up the side of the canvas. Its longer side
/// takes `LOGO_SCALE_PERCENT` of the canvas, and the scale is positive.
pub proof fn lemma_shrink_to_center(width: int, height: int)
    requires
        0 < width <= u32::MAX,
        0 < height <= u32::MAX,
    ensures
        ({
            let t = LogoTransform::shrink_to_center(width, height);
            &&& t.wf()
            &&& t.scale.numerator > 0
            &&& t.offset_x.denominator == t.scale.denominator
            &&& t.offset_y.denominator == t.scale.denominator
            &&& 2 * t.offset_x.numerator + width * t.scale.numerator == WIDTH_HEIGHT
                * t.scale.denominator
            &&& 2 * t.offset_y.numerator + height * t.scale.numerator == WIDTH_HEIGHT
                * t.scale.denominator
            &&& 100 * (longer_side(width, height) * t.scale.numerator) == LOGO_SCALE_PERCENT
                * (WIDTH_HEIGHT * t.scale.denominator)
        }),
{
    let side = longer_side(width, height);
    let t = LogoTransform::shrink_to_center(width, height);
    assert(WIDTH_HEIGHT == 300 && LOGO_SCALE_PERCENT == 65);
    assert(0 <= 300 * (100 * side - 65 * width) <= u64::MAX);
    assert(0 <= 300 * (100 * side - 65 * height) <= u64::MAX);
    assert(t.scale.numerator == 39000);
    assert(t.scale.denominator == 200 * side);
    assert(t.offset_x.numerator == 300 * (100 * side - 65 * width));
    assert(t.offset_y.numerator == 300 * (100 * side - 65 * height));
    assert(100 * (side * 39000) == 65 * (300 * (200 * side)));
}

/// Why a raster could not be embedded.
#[derive(Clone, Copy, Debug, PartialEq, Eq, Structural)]
pub enum ComposeError {
    /// The raster could not be written as PNG; a raster without pixels never can.
    Encode,
    /// The lossless compression of the PNG failed.
    Optimize,
}

impl ComposeError {
    /// The error in words.
    pub fn message(&self) -> (text: String)
        ensures
            text@ == match *self {
                ComposeError::Encode => "the raster cannot be written as PNG"@,
                ComposeError::Optimize => "the PNG cannot be compressed"@,
            },
    {
        match self {
            ComposeError::Encode => String::from_str("the raster cannot be written as PNG"),
            ComposeError::Optimize => String::from_str("the PNG cannot be compressed"),
        }
    }
}

/// The error type of the `image` crate.
#[verifier::external_type_specification]
#[verifier::external_body]
pub struct ExImageError(image::ImageError);

/// The error type of the `oxipng` crate.
#[verifier::external_type_specification]
#[verifier::external_body]
pub struct ExPngError(oxipng::PngError);

/// The PNG file that the `image` crate writes for RGBA pixels of the given size; `None`
/// where it reports an error.
pub uninterp spec fn png_encoding(width: nat, height: nat, pixels: Seq<u8>) -> Option<Seq<u8>>;

/// The PNG file that `oxipng` makes of a PNG file at a preset; `None` where it reports an
/// error.
pub uninterp spec fn png_optimized(png: Seq<u8>, preset: u8) -> Option<Seq<u8>>;

/// The character that stands for a number under 64 in base64: the upper-case letters,
/// the lower-case letters, the digits, `+` and `/`.
pub open spec fn base64_char(n: int) -> char {
    if n < 26 {
        ((0x41 + n) as u8) as char
    } else if n < 52 {
        ((0x47 + n) as u8) as char
    } else if n < 62 {
        ((n - 4) as u8) as char
    } else if n == 62 {
        '+'
    } else {
        '/'
    }
}

/// The standard base64 text, with padding, of a sequence of bytes: every three bytes
/// are 24 bits that four characters stand for, six bits each; one or two bytes that are
/// left over are filled up with zero bits, and `=` stands for each byte that is missing.
pub open spec fn base64_of(data: Seq<u8>) -> Seq<char>
    decreases data.len(),
{
    if data.len() == 0 {
        Seq::empty()
    } else if data.len() == 1 {
        seq![base64_char((data[0] / 4) as int), base64_char(data[0] % 4 * 16), '=', '=']
    } else if data.len() == 2 {
        seq![
            base64_char((data[0] / 4) as int),
            base64_char(data[0] % 4 * 16 + data[1] / 16),
            base64_char(data[1] % 16 * 4),
            '=',
        ]
    } else {
        seq![
            base64_char((data[0] / 4) as int),
            base64_char(data[0] % 4 * 16 + data[1] / 16),
            base64_char(data[1] % 16 * 4 + data[2] / 64),
            base64_char((data[2] % 64) as int),
        ] + base64_of(data.skip(3))
    }
}

/// Writes RGBA pixels as a PNG file in memory, with `DynamicImage::write_to` of the
/// `image` crate.
#[verifier::external_body]
fn encode_png(pixels: Vec<u8>, width: u32, height: u32) -> (written: Result<
    Vec<u8>,
    image::ImageError,
>)
    requires
        width > 0,
        height > 0,
        pixels@.len() == 4 * width * height,
    ensures
        match written {
            Ok(png) => png_encoding(width as nat, height as nat, pixels@) == Some(png@),
            Err(_) => png_encoding(width as nat, height as nat, pixels@) is None,
        },
{
    let buffer = image::RgbaImage::from_raw(width, height, pixels).unwrap();
    let mut png = Vec::new();
    let mut cursor = std::io::Cursor::new(&mut png);
    image::DynamicImage::ImageRgba8(buffer).write_to(&mut cursor, image::ImageFormat::Png)?;
    Ok(png)
}

/// Compresses a PNG file without loss, with `oxipng::optimize_from_memory` and the
/// options of a preset.
#[verifier::external_body]
fn optimize_png(png: &Vec<u8>, preset: u8) -> (optimized: Result<Vec<u8>, oxipng::PngError>)
    ensures
        match optimized {
            Ok(smaller) => png_optimized(png@, preset) == Some(smaller@),
            Err(_) => png_optimized(png@, preset) is None,
        },
{
    oxipng::optimize_from_memory(png, &oxipng::Options::from_preset(preset))
}

/// Writes bytes as base64 text with `Engine::encode` of the `base64` crate and its
/// standard engine: the alphabet of RFC 4648, with padding.
#[verifier::external_body]
fn base64_text(data: &Vec<u8>) -> (text: String)
    ensures
        text@ == base64_of(data@),
{
    base64::Engine::encode(&base64::engine::general_purpose::STANDARD, data)
}

/// The base64 text of a raster's PNG file: compressed without loss when `optimize` is
/// set. A raster without pixels has no PNG file.
pub open spec fn embedded_png(
    width: nat,
    height: nat,
    pixels: Seq<u8>,
    optimize: bool,
) -> Result<Seq<char>, ComposeError> {
    if width == 0 || height == 0 {
        Err(ComposeError::Encode)
    } else {
        match png_encoding(width, height, pixels) {
            None => Err(ComposeError::Encode),
            Some(png) => if optimize {
                match png_optimized(png, PNG_OPTIMIZE) {
                    None => Err(ComposeError::Optimize),
                    Some(smaller) => Ok(base64_of(smaller)),
                }
            } else {
                Ok(base64_of(png))
            },
        }
    }
}

/// Writes a raster as the base64 text of its PNG file.
pub fn make_png_base64(image: &RasterImage, optimize: bool) -> (made: Result<String, ComposeError>)
    ensures
        match made {
            Ok(text) => embedded_png(image@.width, image@.height, image@.to_bytes(), optimize) == Ok::<
                Seq<char>,
                ComposeError,
            >(text@),
            Err(e) => embedded_png(image@.width, image@.height, image@.to_bytes(), optimize) == Err::<
                Seq<char>,
                ComposeError,
            >(e),
        },
{
    let width = image.width();
    let height = image.height();
    if width == 0 || height == 0 {
        return Err(ComposeError::Encode);
    }
    let pixels = image.as_raw().clone();
    let png = match encode_png(pixels, width, height) {
        Ok(png) => png,
        Err(_) => {
            return Err(ComposeError::Encode);
        },
    };
    if optimize {
        match optimize_png(&png, PNG_OPTIMIZE) {
            Ok(smaller) => Ok(base64_text(&smaller)),
            Err(_) => Err(ComposeError::Optimize),
        }
    } else {
        Ok(base64_text(&png))
    }
}

/// The logo layer of a document: traced paths, or the raster itself.
#[derive(Debug)]
pub enum LogoLayer {
    /// The markup of filled paths.
    Vector(String),
    /// The base64 text of a PNG file.
    Raster(String),
}

/// The content of a logo layer.
pub enum LayerView {
    Vector(Seq<char>),
    Raster(Seq<char>),
}

impl View for LogoLayer {
    type V = LayerView;

    open spec fn view(&self) -> LayerView {
        match self {
            LogoLayer::Vector(paths) => LayerView::Vector(paths@),
            LogoLayer::Raster(blob) => LayerView::Raster(blob@),
        }
    }
}

/// Whether traced markup is taken for the logo layer: its size in whole kilobytes is
/// under `MAX_VECTOR_LOGO_SIZE`, and the background was found with confidence.
pub open spec fn vector_accepted(markup: Seq<char>, score: Score) -> bool {
    encode_utf8(markup).len() / (KILOBYTE as nat) < MAX_VECTOR_LOGO_SIZE
        && score.is_confident_spec()
}

/// The logo layer for a trace, or none, and the embedded raster.
pub open spec fn chosen_layer(traced: Option<Seq<char>>, blob: Seq<char>, score: Score)
    -> LayerView {
    match traced {
        Some(markup) => if vector_accepted(markup, score) {
            LayerView::Vector(markup)
        } else {
            LayerView::Raster(blob)
        },
        None => LayerView::Raster(blob),
    }
}

/// The placement of a logo layer over a `width` by `height` raster: the raster's box
/// shrunk and centred, but for an embedded raster whose background was found with less
/// than half the pixels, which was not keyed and fills the canvas as it is.
pub open spec fn chosen_transform(layer: LayerView, score: Score, width: int, height: int)
    -> LogoTransform {
    match layer {
        LayerView::Vector(_) => LogoTransform::shrink_to_center(width, height),
        LayerView::Raster(_) => if score.is_doubtful_spec() {
            LogoTransform::identity()
        } else {
            LogoTransform::shrink_to_center(width, height)
        },
    }
}

/// What a trace's outcome holds for the choice of the layer.
pub open spec fn trace_outcome(traced: Result<String, String>) -> Option<Seq<char>> {
    match traced {
        Ok(markup) => Some(markup@),
        Err(_) => None,
    }
}

/// Chooses the logo layer: the trace where it is accepted, else the embedded raster.
pub fn choose_layer(traced: Result<String, String>, blob: String, score: &Score) -> (layer:
    LogoLayer)
    ensures
        layer@ == chosen_layer(trace_outcome(traced), blob@, *score),
{
    match traced {
        Ok(markup) => {
            if markup.as_str().as_bytes().len() / KILOBYTE < MAX_VECTOR_LOGO_SIZE
                && score.is_confident() {
                LogoLayer::Vector(markup)
            } else {
                LogoLayer::Raster(blob)
            }
        },
        Err(_) => LogoLayer::Raster(blob),
    }
}

/// Chooses the placement of a logo layer over a raster of the given size.
pub fn choose_transform(layer: &LogoLayer, score: &Score, width: u32, height: u32) -> (t:
    LogoTransform)
    requires
        width > 0,
        height > 0,
    ensures
        t == chosen_transform(layer@, *score, width as int, height as int),
        t.wf(),
{
    match layer {
        LogoLayer::Vector(_) => LogoTransform::for_box(width, height),
        LogoLayer::Raster(_) => {
            if score.is_doubtful() {
                LogoTransform::full_size()
            } else {
                LogoTransform::for_box(width, height)
            }
        },
    }
}

/// The `transform` attribute of a placement, in hundredths.
pub open spec fn transform_text(t: LogoTransform) -> Seq<char> {
    "translate("@ + fixed2_text(t.offset_x.hundredths_of()) + ", "@ + fixed2_text(
        t.offset_y.hundredths_of(),
    ) + ") scale("@ + fixed2_text(t.scale.hundredths_of()) + ")"@
}

/// The markup of a logo layer at a placement.
pub open spec fn layer_text(layer: LayerView, t: LogoTransform) -> Seq<char> {
    match layer {
        LayerView::Vector(paths) => "<!-- Curved SVG  -->\n<g transform=\""@ + transform_text(t)
            + "\">\n            "@ + paths + "\n</g>"@,
        LayerView::Raster(blob) => "<!-- PNG RGBA as Base64 -->\n<g transform=\""@
            + transform_text(t)
            + "\">\n    <image width=\"100%\" height=\"100%\" id=\"logo_image\"\n                        preserveAspectRatio=\"xMidYMid meet\"\n                        xlink:href=\"data:image/png;base64,"@
            + blob + "\"/>\n</g>"@,
    }
}

/// The whole document: the canvas, a title that carries the job's number, the
/// background rectangle and the logo layer.
pub open spec fn document_text(job_id: u32, fill: Rgb, layer: LayerView, t: LogoTransform) -> Seq<
    char,
> {
    "<?xml version=\"1.0\" encoding=\"UTF-8\"?>\n<svg width=\""@ + decimal_text(
        WIDTH_HEIGHT as nat,
    ) + "\" height=\""@ + decimal_text(WIDTH_HEIGHT as nat)
        + "\" xmlns=\"http://www.w3.org/2000/svg\" xmlns:xlink=\"http://www.w3.org/1999/xlink\">\n    <title>"@
        + decimal_text(job_id as nat)
        + "</title>\n    <!-- Background -->\n    <rect width=\"100%\" height=\"100%\" id=\"Задник\" fill=\"rgb("@
        + decimal_text(fill.red as nat) + ","@ + decimal_text(fill.green as nat) + ","@
        + decimal_text(fill.blue as nat) + ")\"/>\n    <!-- Logo -->\n    "@ + layer_text(layer, t)
        + "\n</svg>"@
}

/// Appends the `transform` attribute of a placement.
fn push_transform(out: &mut String, t: &LogoTransform)
    requires
        t.wf(),
        t.scale.hundredths_of() <= u64::MAX,
        t.offset_x.hundredths_of() <= u64::MAX,
        t.offset_y.hundredths_of() <= u64::MAX,
    ensures
        final(out)@ == old(out)@ + transform_text(*t),
{
    let ghost start = out@;
    let scale = t.scale.hundredths().unwrap();
    let offset_x = t.offset_x.hundredths().unwrap();
    let offset_y = t.offset_y.hundredths().unwrap();
    out.append("translate(");
    push_fixed2(out, offset_x);
    out.append(", ");
    push_fixed2(out, offset_y);
    out.append(") scale(");
    push_fixed2(out, scale);
    out.append(")");
    assert(out@ =~= start + transform_text(*t));
}

/// Appends the markup of a logo layer at a placement.
fn push_layer(out: &mut String, layer: &LogoLayer, t: &LogoTransform)
    requires
        t.wf(),
        t.scale.hundredths_of() <= u64::MAX,
        t.offset_x.hundredths_of() <= u64::MAX,
        t.offset_y.hundredths_of() <= u64::MAX,
    ensures
        final(out)@ == old(out)@ + layer_text(layer@, *t),
{
    let ghost start = out@;
    match layer {
        LogoLayer::Vector(paths) => {
            out.append("<!-- Curved SVG  -->\n<g transform=\"");
            push_transform(out, t);
            out.append("\">\n            ");
            out.append(paths.as_str());
            out.append("\n</g>");
        },
        LogoLayer::Raster(blob) => {
            out.append("<!-- PNG RGBA as Base64 -->\n<g transform=\"");
            push_transform(out, t);
            out.append(
                "\">\n    <image width=\"100%\" height=\"100%\" id=\"logo_image\"\n                        preserveAspectRatio=\"xMidYMid meet\"\n                        xlink:href=\"data:image/png;base64,",
            );
            out.append(blob.as_str());
            out.append("\"/>\n</g>");
        },
    }
    assert(out@ =~= start + layer_text(layer@, *t));
}

/// Writes the whole document.
pub fn render_document(job_id: u32, fill: Rgb, layer: &LogoLayer, t: &LogoTransform) -> (doc:
    String)
    requires
        t.wf(),
        t.scale.hundredths_of() <= u64::MAX,
        t.offset_x.hundredths_of() <= u64::MAX,
        t.offset_y.hundredths_of() <= u64::MAX,
    ensures
        doc@ == document_text(job_id, fill, layer@, *t),
{
    let mut doc = String::from_str("<?xml version=\"1.0\" encoding=\"UTF-8\"?>\n<svg width=\"");
    push_decimal(&mut doc, WIDTH_HEIGHT);
    doc.append("\" height=\"");
    push_decimal(&mut doc, WIDTH_HEIGHT);
    doc.append(
        "\" xmlns=\"http://www.w3.org/2000/svg\" xmlns:xlink=\"http://www.w3.org/1999/xlink\">\n    <title>",
    );
    push_decimal(&mut doc, job_id as u64);
    doc.append(
        "</title>\n    <!-- Background -->\n    <rect width=\"100%\" height=\"100%\" id=\"Задник\" fill=\"rgb(",
    );
    push_decimal(&mut doc, fill.red as u64);
    doc.append(",");
    push_decimal(&mut doc, fill.green as u64);
    doc.append(",");
    push_decimal(&mut doc, fill.blue as u64);
    doc.append(")\"/>\n    <!-- Logo -->\n    ");
    push_layer(&mut doc, layer, t);
    doc.append("\n</svg>");
    assert(doc@ =~= document_text(job_id, fill, layer@, *t));
    doc
}

/// The hundredths of a placement that was chosen for a raster fit 64 bits.
pub proof fn lemma_chosen_transform_fits(layer: LayerView, score: Score, width: int, height: int)
    requires
        0 < width <= u32::MAX,
        0 < height <= u32::MAX,
    ensures
        ({
            let t = chosen_transform(layer, score, width, height);
            &&& t.wf()
            &&& t.scale.hundredths_of() <= 19501
            &&& t.offset_x.hundredths_of() <= 15001
            &&& t.offset_y.hundredths_of() <= 15001
        }),
{
    assert(WIDTH_HEIGHT == 300 && LOGO_SCALE_PERCENT == 65);
    lemma_shrink_hundredths(width, height);
}

proof fn lemma_shrink_hundredths(width: int, height: int)
    requires
        0 < width <= u32::MAX,
        0 < height <= u32::MAX,
    ensures
        ({
            let t = LogoTransform::shrink_to_center(width, height);
            &&& t.wf()
            &&& t.scale.hundredths_of() <= 19501
            &&& t.offset_x.hundredths_of() <= 15001
            &&& t.offset_y.hundredths_of() <= 15001
        }),
{
    let side = longer_side(width, height);
    let t = LogoTransform::shrink_to_center(width, height);
    lemma_shrink_to_center(width, height);
    assert(WIDTH_HEIGHT == 300 && LOGO_SCALE_PERCENT == 65);
    let den = 200 * side;
    assert(t.scale.denominator == den);
    assert(t.scale.numerator == 39000);
    assert(t.offset_x.numerator == 300 * (100 * side - 65 * width));
    assert(t.offset_y.numerator == 300 * (100 * side - 65 * height));
    assert(100int * 39000 / den <= 19500) by (nonlinear_arith)
        requires
            den >= 200,
    ;
    assert(100 * (300 * (100 * side - 65 * width)) / den <= 15000) by (nonlinear_arith)
        requires
            den == 200 * side,
            side >= 1,
            0 < width <= side,
    ;
    assert(100 * (300 * (100 * side - 65 * height)) / den <= 15000) by (nonlinear_arith)
        requires
            den == 200 * side,
            side >= 1,
            0 < height <= side,
    ;
}

/// The document for a raster of the given size, a trace of it or none, and its embedded
/// PNG file.
pub open spec fn composed_text(
    job_id: u32,
    background: DominantColor,
    width: int,
    height: int,
    traced: Option<Seq<char>>,
    blob: Seq<char>,
) -> Seq<char> {
    let layer = chosen_layer(traced, blob, background.score);
    document_text(
        job_id,
        background.color,
        layer,
        chosen_transform(layer, background.score, width, height),
    )
}

/// Composes the document from what tracing and embedding gave.
pub fn compose_document(
    job_id: u32,
    background: &DominantColor,
    width: u32,
    height: u32,
    traced: Result<String, String>,
    blob: String,
) -> (doc: String)
    requires
        width > 0,
        height > 0,
    ensures
        doc@ == composed_text(
            job_id,
            *background,
            width as int,
            height as int,
            trace_outcome(traced),
            blob@,
        ),
{
    let layer = choose_layer(traced, blob, &background.score);
    let transform = choose_transform(&layer, &background.score, width, height);
    proof {
        lemma_chosen_transform_fits(layer@, background.score, width as int, height as int);
    }
    render_document(job_id, background.color, &layer, &transform)
}

/// A composed logo: the document, and which layer it holds.
#[derive(Debug)]
pub struct Composition {
    pub document: String,
    /// Whether the logo layer is the trace; else it is the embedded raster.
    pub vector: bool,
}

/// The document that embeds a raster of the given size.
pub open spec fn raster_document(
    job_id: u32,
    background: DominantColor,
    width: int,
    height: int,
    blob: Seq<char>,
) -> Seq<char> {
    document_text(
        job_id,
        background.color,
        LayerView::Raster(blob),
        chosen_transform(LayerView::Raster(blob), background.score, width, height),
    )
}

/// The document that holds the trace of a raster of the given size.
pub open spec fn vector_document(
    job_id: u32,
    background: DominantColor,
    width: int,
    height: int,
    markup: Seq<char>,
) -> Seq<char> {
    document_text(
        job_id,
        background.color,
        LayerView::Vector(markup),
        LogoTransform::shrink_to_center(width, height),
    )
}

/// Whether `doc` holds some trace that is taken for the logo layer: the markup of at
/// least one path, under the size ceiling, with a background found with confidence.
pub open spec fn is_vector_document(
    doc: Seq<char>,
    job_id: u32,
    background: DominantColor,
    width: int,
    height: int,
) -> bool {
    exists|markup: Seq<char>|
        {
            &&& is_paths_markup(markup)
            &&& vector_accepted(markup, background.score)
            &&& #[trigger] vector_document(job_id, background, width, height, markup) == doc
        }
}

/// Whether `made` is the composition for a raster of the given size and its embedded PNG
/// file: the document that embeds the raster, which no trace enters; or, with the vector
/// layer, a document that holds a trace that is taken.
pub open spec fn is_composition(
    made: Composition,
    job_id: u32,
    background: DominantColor,
    width: int,
    height: int,
    blob: Seq<char>,
) -> bool {
    if made.vector {
        is_vector_document(made.document@, job_id, background, width, height)
    } else {
        made.document@ == raster_document(job_id, background, width, height, blob)
    }
}

/// Whether `doc` is the document for a raster of the given size and its embedded PNG
/// file: the one that embeds the raster, or one that holds a trace that is taken.
pub open spec fn is_composed_document(
    doc: Seq<char>,
    job_id: u32,
    background: DominantColor,
    width: int,
    height: int,
    blob: Seq<char>,
) -> bool {
    doc == raster_document(job_id, background, width, height, blob) || is_vector_document(
        doc,
        job_id,
        background,
        width,
        height,
    )
}

/// Whether a trace, or none, is taken for the logo layer.
pub fn is_vector_chosen(traced: &Result<String, String>, score: &Score) -> (vector: bool)
    ensures
        vector == (chosen_layer(trace_outcome(*traced), Seq::empty(), *score) is Vector),
        forall|blob: Seq<char>|
            vector == (#[trigger] chosen_layer(trace_outcome(*traced), blob, *score) is Vector),
{
    match traced {
        Ok(markup) => markup.as_str().as_bytes().len() / KILOBYTE < MAX_VECTOR_LOGO_SIZE
            && score.is_confident(),
        Err(_) => false,
    }
}

/// Composes a finished logo: the raster is embedded as PNG, traced, and the layer that
/// the rules choose is laid on a canvas filled with the background colour. A raster that
/// cannot be traced is embedded; one that cannot be embedded gives the error. Without
/// confidence in the background, and for a raster that shows nothing, the raster is
/// embedded whatever the tracer does, so that the document is a function of what is
/// given.
pub fn compose_logo(
    image: &RasterImage,
    job_id: u32,
    background_color: &DominantColor,
    optimize: bool,
) -> (made: Result<Composition, ComposeError>)
    ensures
        embedded_png(image@.width, image@.height, image@.to_bytes(), optimize) is Err ==> made
            is Err && made->Err_0 == embedded_png(
            image@.width,
            image@.height,
            image@.to_bytes(),
            optimize,
        )->Err_0,
        embedded_png(image@.width, image@.height, image@.to_bytes(), optimize) is Ok ==> made is Ok
            && is_composition(
            made->Ok_0,
            job_id,
            *background_color,
            image@.width as int,
            image@.height as int,
            embedded_png(image@.width, image@.height, image@.to_bytes(), optimize)->Ok_0,
        ),
        made is Ok && !background_color.score.is_confident_spec() ==> !made->Ok_0.vector,
        made is Ok && !image@.has_opaque() ==> !made->Ok_0.vector,
{
    let blob = match make_png_base64(image, optimize) {
        Ok(blob) => blob,
        Err(e) => {
            return Err(e);
        },
    };
    let traced = image_vectorize_to_svg(image);
    let vector = is_vector_chosen(&traced, &background_color.score);
    let ghost outcome = trace_outcome(traced);
    let ghost text = blob@;
    let document = compose_document(
        job_id,
        background_color,
        image.width(),
        image.height(),
        traced,
        blob,
    );
    let made = Composition { document, vector };
    proof {
        assert(vector == (chosen_layer(outcome, text, background_color.score) is Vector));
        if vector {
            let markup = outcome->0;
            assert(is_paths_markup(markup));
            assert(vector_document(
                job_id,
                *background_color,
                image@.width as int,
                image@.height as int,
                markup,
            ) == made.document@);
        }
    }
    Ok(made)
}

/// Composes the document of a finished logo, as `compose_logo` does.
pub fn save_ready_logo(
    image: &RasterImage,
    job_id: u32,
    background_color: &DominantColor,
    optimize: bool,
) -> (saved: Result<String, ComposeError>)
    ensures
        embedded_png(image@.width, image@.height, image@.to_bytes(), optimize) is Err ==> saved
            == Err::<String, ComposeError>(
            embedded_png(image@.width, image@.height, image@.to_bytes(), optimize)->Err_0,
        ),
        embedded_png(image@.width, image@.height, image@.to_bytes(), optimize) is Ok ==> saved is Ok
            && is_composed_document(
            saved->Ok_0@,
            job_id,
            *background_color,
            image@.width as int,
            image@.height as int,
            embedded_png(image@.width, image@.height, image@.to_bytes(), optimize)->Ok_0,
        ),
        saved is Ok && (!background_color.score.is_confident_spec() || !image@.has_opaque())
            ==> saved->Ok_0@ == raster_document(
            job_id,
            *background_color,
            image@.width as int,
            image@.height as int,
            embedded_png(image@.width, image@.height, image@.to_bytes(), optimize)->Ok_0,
        ),
{
    match compose_logo(image, job_id, background_color, optimize) {
        Ok(made) => Ok(made.document),
        Err(e) => Err(e),
    }
}

/// A trace at or over the size ceiling never enters a document: whatever the score, the
/// layer that is chosen is the embedded raster.
pub proof fn lemma_oversized_trace_is_embedded(markup: Seq<char>, blob: Seq<char>, score: Score)
    requires
        encode_utf8(markup).len() / (KILOBYTE as nat) >= MAX_VECTOR_LOGO_SIZE,
    ensures
        chosen_layer(Some(markup), blob, score) == LayerView::Raster(blob),
{
}

/// Without confidence in the background, no trace enters a document: what is composed
/// is the document that embeds the raster, whatever the trace.
pub proof fn lemma_doubt_fixes_the_document(
    job_id: u32,
    background: DominantColor,
    width: int,
    height: int,
    traced: Option<Seq<char>>,
    blob: Seq<char>,
)
    requires
        !background.score.is_confident_spec(),
    ensures
        composed_text(job_id, background, width, height, traced, blob) == raster_document(
            job_id,
            background,
            width,
            height,
            blob,
        ),
{
}

} // verus!

