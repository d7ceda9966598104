//! Tracing a raster into filled vector paths.

use crate::background_works::has_visible_pixel;
use crate::raster::RasterImage;
use vstd::prelude::*;

verus! {

/// Whether colours are traced, or black and white.
#[derive(Clone, Copy, Debug, PartialEq, Eq, Structural)]
pub enum TraceColors {
    Color,
    Binary,
}

/// How the layers of a trace lie on each other.
#[derive(Clone, Copy, Debug, PartialEq, Eq, Structural)]
pub enum TraceLayers {
    /// Each shape lies on those below it.
    Stacked,
    /// Each shape is cut out of those around it.
    Cutout,
}

/// How the outline of a shape is drawn.
#[derive(Clone, Copy, Debug, PartialEq, Eq, Structural)]
pub enum PathMode {
    /// Along the edges of the pixels.
    Pixel,
    /// As a polygon.
    Polygon,
    /// As smooth curves.
    Spline,
}

/// What the tracer is tuned with. The values are fixed for every image: a trace that
/// behaves alike on all inputs matters more than the best trace of one.
#[derive(Clone, Copy, Debug, PartialEq, Eq, Structural)]
pub struct TracingSettings {
    /// Whether colours are traced, or black and white.
    pub colors: TraceColors,
    /// How the layers of a trace lie on each other.
    pub layers: TraceLayers,
    /// How the outline of a shape is drawn.
    pub mode: PathMode,
    /// Patches of fewer than this many pixels a side are dropped.
    pub filter_speckle: usize,
    /// The number of significant bits of each colour channel.
    pub color_precision: i32,
    /// The colour difference between two layers.
    pub layer_difference: i32,
    /// The smallest angle, in degrees, that counts as a corner.
    pub corner_threshold: i32,
    /// The longest segment, in pixels, that is not subdivided.
    pub length_threshold: u8,
    /// The greatest number of smoothing rounds.
    pub max_iterations: usize,
    /// The smallest angle, in degrees, at which a spline is spliced.
    pub splice_threshold: i32,
    /// The number of decimal places of path coordinates.
    pub path_precision: u32,
}

impl TracingSettings {
    /// The settings that logos are traced with.
    pub open spec fn standard_spec() -> TracingSettings {
        TracingSettings {
            colors: TraceColors::Color,
            layers: TraceLayers::Stacked,
            mode: PathMode::Spline,
            filter_speckle: 16,
            color_precision: 5,
            layer_difference: 16,
            corner_threshold: 60,
            length_threshold: 4,
            max_iterations: 10,
            splice_threshold: 45,
            path_precision: 4,
        }
    }

    /// The settings that logos are traced with.
    pub fn standard() -> (settings: TracingSettings)
        ensures
            settings == TracingSettings::standard_spec(),
            settings.wf(),
    {
        TracingSettings {
            colors: TraceColors::Color,
            layers: TraceLayers::Stacked,
            mode: PathMode::Spline,
            filter_speckle: 16,
            color_precision: 5,
            layer_difference: 16,
            corner_threshold: 60,
            length_threshold: 4,
            max_iterations: 10,
            splice_threshold: 45,
            path_precision: 4,
        }
    }

    /// Whether the library traces with the settings: stacked colour layers drawn as
    /// smooth curves, a speckle area that fits a machine word, a colour precision of one
    /// to eight bits a channel, a layer difference that is a colour distance, at least
    /// one round of smoothing, and a number of decimal places that a number can be
    /// written with.
    pub open spec fn wf(self) -> bool {
        &&& self.colors == TraceColors::Color
        &&& self.layers == TraceLayers::Stacked
        &&& self.mode == PathMode::Spline
        &&& self.filter_speckle <= 0xffff
        &&& 1 <= self.color_precision <= 8
        &&& 0 <= self.layer_difference <= 255
        &&& self.max_iterations >= 1
        &&& self.path_precision <= 0xffff
    }

    /// Whether the library traces with the settings.
    pub fn is_valid(&self) -> (valid: bool)
        ensures
            valid == self.wf(),
    {
        let standard = match (self.colors, self.layers, self.mode) {
            (TraceColors::Color, TraceLayers::Stacked, PathMode::Spline) => true,
            _ => false,
        };
        standard && self.filter_speckle <= 0xffff && 1 <= self.color_precision
            && self.color_precision <= 8 && 0 <= self.layer_difference && self.layer_difference
            <= 255 && self.max_iterations >= 1 && self.path_precision <= 0xffff
    }
}

/// One filled path of a trace, as the pieces of its markup.
#[derive(Debug)]
pub struct TracedPath {
    /// The path data, relative to the path's first point.
    pub outline: String,
    /// The fill colour.
    pub fill: String,
    /// The horizontal place of the path's first point.
    pub shift_x: String,
    /// The vertical place of the path's first point.
    pub shift_y: String,
}

/// The markup of one path.
pub open spec fn path_markup(
    outline: Seq<char>,
    fill: Seq<char>,
    shift_x: Seq<char>,
    shift_y: Seq<char>,
) -> Seq<char> {
    "<path d=\""@ + outline + "\" fill=\""@ + fill + "\" transform=\"translate("@ + shift_x + ","@
        + shift_y + ")\"/>"@
}

/// The markup of a sequence of paths, one after the other.
pub open spec fn paths_markup(paths: Seq<TracedPath>) -> Seq<char>
    decreases paths.len(),
{
    if paths.len() == 0 {
        Seq::empty()
    } else {
        paths_markup(paths.drop_last()) + path_markup(
            paths.last().outline@,
            paths.last().fill@,
            paths.last().shift_x@,
            paths.last().shift_y@,
        )
    }
}

/// Whether a text is the markup of some sequence of at least one path.
pub open spec fn is_paths_markup(text: Seq<char>) -> bool {
    exists|paths: Seq<TracedPath>| paths.len() > 0 && text == paths_markup(paths)
}

/// The trace that the tracer hands back.
#[verifier::external_type_specification]
#[verifier::external_body]
pub struct ExSvgFile(vtracer::SvgFile);

/// The tracer's choice between colours and black and white.
#[verifier::external_type_specification]
#[verifier::external_body]
pub struct ExColorMode(vtracer::ColorMode);

/// The tracer's choice of how layers lie on each other.
#[verifier::external_type_specification]
#[verifier::external_body]
pub struct ExHierarchical(vtracer::Hierarchical);

/// The tracer's choice of how outlines are drawn.
#[verifier::external_type_specification]
#[verifier::external_body]
pub struct ExPathSimplifyMode(visioncortex::PathSimplifyMode);

/// Writes the choice of colours as a `vtracer::ColorMode`.
#[verifier::external_body]
fn tracer_colors(colors: TraceColors) -> vtracer::ColorMode {
    match colors {
        TraceColors::Color => vtracer::ColorMode::Color,
        TraceColors::Binary => vtracer::ColorMode::Binary,
    }
}

/// Writes the choice of layers as a `vtracer::Hierarchical`.
#[verifier::external_body]
fn tracer_layers(layers: TraceLayers) -> vtracer::Hierarchical {
    match layers {
        TraceLayers::Stacked => vtracer::Hierarchical::Stacked,
        TraceLayers::Cutout => vtracer::Hierarchical::Cutout,
    }
}

/// Writes the choice of outlines as a `visioncortex::PathSimplifyMode`.
#[verifier::external_body]
fn tracer_mode(mode: PathMode) -> visioncortex::PathSimplifyMode {
    match mode {
        PathMode::Pixel => visioncortex::PathSimplifyMode::None,
        PathMode::Polygon => visioncortex::PathSimplifyMode::Polygon,
        PathMode::Spline => visioncortex::PathSimplifyMode::Spline,
    }
}

/// Traces RGBA pixels with `vtracer::convert`. The tracer may choose a key colour at
/// random, so nothing is said of the trace.
#[verifier::external_body]
fn trace_pixels(
    pixels: Vec<u8>,
    width: usize,
    height: usize,
    settings: &TracingSettings,
    color_mode: vtracer::ColorMode,
    hierarchical: vtracer::Hierarchical,
    mode: visioncortex::PathSimplifyMode,
) -> (traced: Result<vtracer::SvgFile, String>)
    requires
        width > 0,
        height > 0,
        pixels@.len() == 4 * width * height,
        settings.wf(),
{
    let config = vtracer::Config {
        color_mode,
        hierarchical,
        filter_speckle: settings.filter_speckle,
        color_precision: settings.color_precision,
        layer_difference: settings.layer_difference,
        mode,
        corner_threshold: settings.corner_threshold,
        length_threshold: settings.length_threshold.into(),
        max_iterations: settings.max_iterations,
        splice_threshold: settings.splice_threshold,
        path_precision: Some(settings.path_precision),
    };
    vtracer::convert(vtracer::ColorImage { pixels, width, height }, config)
}

/// Hands out each path of a trace as the pieces of its markup: the path data and the
/// place of its first point from `CompoundPath::to_svg_string` of `visioncortex`, which
/// writes each coordinate with `precision` decimal places, and the fill from
/// `Color::to_hex_string`.
#[verifier::external_body]
fn traced_paths(traced: &vtracer::SvgFile, precision: u32) -> (paths: Vec<TracedPath>)
    requires
        precision <= 0xffff,
{
    let piece = |p: &vtracer::SvgPath| {
        let start = visioncortex::PointF64::default();
        let (outline, at) = p.path.to_svg_string(true, start, Some(precision));
        let fill = p.color.to_hex_string();
        TracedPath { outline, fill, shift_x: format!("{}", at.x), shift_y: format!("{}", at.y) }
    };
    traced.paths.iter().map(piece).collect()
}

/// Appends the markup of one path.
fn push_path(out: &mut String, path: &TracedPath)
    ensures
        final(out)@ == old(out)@ + path_markup(
            path.outline@,
            path.fill@,
            path.shift_x@,
            path.shift_y@,
        ),
{
    let ghost start = out@;
    out.append("<path d=\"");
    out.append(path.outline.as_str());
    out.append("\" fill=\"");
    out.append(path.fill.as_str());
    out.append("\" transform=\"translate(");
    out.append(path.shift_x.as_str());
    out.append(",");
    out.append(path.shift_y.as_str());
    out.append(")\"/>");
    assert(out@ =~= start + path_markup(
        path.outline@,
        path.fill@,
        path.shift_x@,
        path.shift_y@,
    ));
}

/// Writes traced paths as markup, one `path` element after the other.
pub fn paths_to_svg(paths: &Vec<TracedPath>) -> (text: String)
    ensures
        text@ == paths_markup(paths@),
        paths@.len() > 0 ==> is_paths_markup(text@),
{
    let mut text = String::new();
    let mut i: usize = 0;
    while i < paths.len()
        invariant
            i <= paths@.len(),
            text@ == paths_markup(paths@.take(i as int)),
        decreases paths@.len() - i,
    {
        proof {
            assert(paths@.take(i + 1).drop_last() =~= paths@.take(i as int));
            assert(paths@.take(i + 1).last() == paths@[i as int]);
        }
        push_path(&mut text, &paths[i]);
        i = i + 1;
    }
    assert(paths@.take(paths@.len() as int) =~= paths@);
    text
}

/// Writes a trace as markup: the markup of its paths, or the failure text for a trace
/// without a path.
pub fn trace_to_svg(paths: &Vec<TracedPath>) -> (traced: Result<String, String>)
    ensures
        paths@.len() == 0 ==> traced is Err && traced->Err_0@ == trace_failure_text(),
        paths@.len() > 0 ==> traced is Ok && traced->Ok_0@ == paths_markup(paths@)
            && is_paths_markup(traced->Ok_0@),
{
    if paths.len() == 0 {
        Err(String::from_str("cannot trace the image into vector paths"))
    } else {
        Ok(paths_to_svg(paths))
    }
}

/// What is said when a raster cannot be traced.
pub open spec fn trace_failure_text() -> Seq<char> {
    "cannot trace the image into vector paths"@
}

/// Traces a raster with the given settings and writes the paths as markup. A raster
/// that shows nothing, or settings that the library does not trace with, give the
/// failure text; so does a raster that the tracer gives up on, or in which it finds no
/// path.
pub fn vectorize_with(image: &RasterImage, settings: &TracingSettings) -> (traced: Result<
    String,
    String,
>)
    ensures
        traced is Ok ==> is_paths_markup(traced->Ok_0@) && image@.has_opaque() && settings.wf(),
        traced is Err ==> traced->Err_0@ == trace_failure_text(),
{
    let width = image.width();
    let height = image.height();
    if width == 0 || height == 0 || !settings.is_valid() || !has_visible_pixel(image) {
        return Err(String::from_str("cannot trace the image into vector paths"));
    }
    assert(image@.pixel_count() > 0) by (nonlinear_arith)
        requires
            image@.pixel_count() == image@.width * image@.height,
            image@.width > 0,
            image@.height > 0,
    ;
    let pixels = image.as_raw().clone();
    let color_mode = tracer_colors(settings.colors);
    let hierarchical = tracer_layers(settings.layers);
    let mode = tracer_mode(settings.mode);
    match trace_pixels(
        pixels,
        width as usize,
        height as usize,
        settings,
        color_mode,
        hierarchical,
        mode,
    ) {
        Ok(traced) => {
            let paths = traced_paths(&traced, settings.path_precision);
            trace_to_svg(&paths)
        },
        Err(_) => Err(String::from_str("cannot trace the image into vector paths")),
    }
}

/// Traces a raster with the standard settings and writes the paths as markup.
pub fn image_vectorize_to_svg(image: &RasterImage) -> (traced: Result<String, String>)
    ensures
        traced is Ok ==> is_paths_markup(traced->Ok_0@) && image@.has_opaque(),
        traced is Err ==> traced->Err_0@ == trace_failure_text(),
{
    let settings = TracingSettings::standard();
    vectorize_with(image, &settings)
}

} // verus!
