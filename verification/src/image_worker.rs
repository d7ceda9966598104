//! The work on one logo, from the bytes of its two images to its document, and the
//! outcome of a batch of such jobs.

use crate::background_works::{
    is_analysis_of, is_dominant_of_sample, sampling_fits, trim_transparent_border, AnalysisError, DominantColor,
    TOLERANCE,
};
use crate::job_loaders::{last_dot, LogoJob};
use crate::raster::{lemma_raster_ext, raster_of_bytes, RasterImage, RasterView, Rgb};
use crate::svg_saver::{compose_logo, embedded_png, is_composition, ComposeError, Composition};
use crate::text::{chars_of, decimal_text, part_to_string, push_decimal};
use vstd::prelude::*;

verus! {

/// The brightness above which a background counts as white.
pub const WHITE_COLOR: u8 = 250;

/// The neutral gray that stands in for a white background.
pub open spec fn gray_background_color() -> Rgb {
    Rgb { red: 238, green: 237, blue: 241 }
}

/// The number of jobs that run at one time.
pub const PROCESS_CONCURRENCY: usize = 16;

/// The width of the frame, in pixels, that is cut off a downloaded image.
pub const BORDER_SIZE: u32 = 1;

/// The side above which a downloaded image needs no upscaling.
pub const BIG_SIZE: u32 = 900;

/// The extensions that are tried, in this order, for an image file named without one.
pub open spec fn extension_text(index: int) -> Seq<char> {
    if index == 0 {
        "png"@
    } else if index == 1 {
        "jpg"@
    } else if index == 2 {
        "jpeg"@
    } else if index == 3 {
        "gif"@
    } else if index == 4 {
        "webp"@
    } else if index == 5 {
        "bmp"@
    } else {
        "ico"@
    }
}

/// The number of extensions that are tried.
pub const EXTENSION_COUNT: usize = 7;

/// The extension that is tried at place `index`.
pub fn image_extension(index: usize) -> (extension: &'static str)
    requires
        index < EXTENSION_COUNT,
    ensures
        extension@ == extension_text(index as int),
{
    if index == 0 {
        "png"
    } else if index == 1 {
        "jpg"
    } else if index == 2 {
        "jpeg"
    } else if index == 3 {
        "gif"
    } else if index == 4 {
        "webp"
    } else if index == 5 {
        "bmp"
    } else {
        "ico"
    }
}

/// The file names that are tried for an image named `base`: `base`, a dot and each
/// extension, in order.
pub fn candidate_names(base: &str) -> (names: Vec<String>)
    ensures
        names@.len() == EXTENSION_COUNT,
        forall|i: int|
            0 <= i < EXTENSION_COUNT ==> (#[trigger] names@[i])@ == base@ + "."@ + extension_text(
                i,
            ),
{
    let mut names: Vec<String> = Vec::new();
    let mut index: usize = 0;
    while index < EXTENSION_COUNT
        invariant
            index <= EXTENSION_COUNT,
            names@.len() == index,
            forall|i: int|
                0 <= i < index ==> (#[trigger] names@[i])@ == base@ + "."@ + extension_text(i),
        decreases EXTENSION_COUNT - index,
    {
        let mut name = String::from_str(base);
        name.append(".");
        name.append(image_extension(index));
        names.push(name);
        index = index + 1;
    }
    names
}

/// Where the name of the file begins in a path: after the last slash.
pub open spec fn file_name_start(path: Seq<char>) -> int
    decreases path.len(),
{
    if path.len() == 0 {
        0
    } else if path.last() == '/' {
        path.len() as int
    } else {
        file_name_start(path.drop_last())
    }
}

/// A path without the extension of its file name, if that has one.
pub open spec fn image_base_of(path: Seq<char>) -> Seq<char> {
    let start = file_name_start(path);
    match last_dot(path.subrange(start, path.len() as int)) {
        Some(dot) => path.subrange(0, start + dot),
        None => path,
    }
}

/// Takes the extension off the file name of a path, if it has one: the name under
/// which an image is looked for with each extension in turn.
pub fn image_base(path: &str) -> (base: String)
    ensures
        base@ == image_base_of(path@),
{
    let chars = chars_of(path);
    let length = chars.len();
    let mut start: usize = length;
    assert(chars@.take(length as int) =~= chars@);
    while start > 0 && chars[start - 1] != '/'
        invariant
            start <= length,
            length == chars@.len(),
            chars@ == path@,
            file_name_start(chars@) == file_name_start(chars@.take(start as int)),
        decreases start,
    {
        proof {
            assert(chars@.take(start as int).drop_last() =~= chars@.take(start - 1));
            assert(chars@.take(start as int).last() == chars@[start - 1]);
        }
        start = start - 1;
    }
    proof {
        if start > 0 {
            assert(chars@.take(start as int).last() == chars@[start - 1]);
        }
        assert(file_name_start(chars@) == start);
    }
    let ghost name = chars@.subrange(start as int, length as int);
    let mut end: usize = length;
    assert(name.take(length - start) =~= name);
    while end - start > 1
        invariant
            start <= length,
            start <= end <= length,
            length == chars@.len(),
            chars@ == path@,
            file_name_start(path@) == start,
            name == chars@.subrange(start as int, length as int),
            last_dot(name) == last_dot(name.take(end - start)),
        decreases end,
    {
        proof {
            assert(name.take(end - start).drop_last() =~= name.take(end - start - 1));
            assert(name.take(end - start).last() == chars@[end - 1]);
        }
        if chars[end - 1] == '.' {
            return part_to_string(path, &chars, 0, end - 1);
        }
        end = end - 1;
    }
    String::from_str(path)
}

/// Which file holds an image.
#[derive(Clone, Copy, Debug, PartialEq, Eq, Structural)]
pub enum ImageFile {
    /// The file with the name as it was given.
    AsNamed,
    /// The file with the extension at this place added to the name.
    WithExtension(usize),
}

/// Whether `index` is the first place at which a file exists.
pub open spec fn is_first_existing(exists: Seq<bool>, index: int) -> bool {
    &&& 0 <= index < exists.len()
    &&& exists[index]
    &&& forall|j: int| 0 <= j < index ==> !exists[j]
}

/// Picks the file of an image: the file as named where it exists, else the first
/// candidate that exists; `None` where no file exists.
pub fn pick_image_file(named_exists: bool, candidates_exist: &Vec<bool>) -> (picked: Option<
    ImageFile,
>)
    ensures
        named_exists ==> picked == Some(ImageFile::AsNamed),
        !named_exists ==> match picked {
            Some(ImageFile::WithExtension(index)) => is_first_existing(
                candidates_exist@,
                index as int,
            ),
            Some(ImageFile::AsNamed) => false,
            None => forall|j: int| 0 <= j < candidates_exist@.len() ==> !candidates_exist@[j],
        },
{
    if named_exists {
        return Some(ImageFile::AsNamed);
    }
    let mut index: usize = 0;
    while index < candidates_exist.len()
        invariant
            !named_exists,
            index <= candidates_exist@.len(),
            forall|j: int| 0 <= j < index ==> !candidates_exist@[j],
        decreases candidates_exist@.len() - index,
    {
        if candidates_exist[index] {
            return Some(ImageFile::WithExtension(index));
        }
        index = index + 1;
    }
    None
}

/// How the pixels of a decoded image were stored.
#[derive(Clone, Copy, Debug, PartialEq, Eq, Structural)]
pub enum PixelFormat {
    Luma8,
    LumaA8,
    Rgb8,
    Rgba8,
    Luma16,
    LumaA16,
    Rgb16,
    Rgba16,
    Rgb32F,
    Rgba32F,
    Other,
}

/// Whether an image of this format brings its own transparency: the three RGBA formats.
pub open spec fn has_alpha_spec(format: PixelFormat) -> bool {
    format == PixelFormat::Rgba8 || format == PixelFormat::Rgba16 || format == PixelFormat::Rgba32F
}

/// Whether an image of this format brings its own transparency.
pub fn has_alpha_channel(format: PixelFormat) -> (alpha: bool)
    ensures
        alpha == has_alpha_spec(format),
{
    match format {
        PixelFormat::Rgba8 | PixelFormat::Rgba16 | PixelFormat::Rgba32F => true,
        _ => false,
    }
}

/// A decoded image: its pixels as RGBA, and the format they were stored in.
pub struct LoadedImage {
    pub format: PixelFormat,
    pub raster: RasterImage,
}

/// What decoding the bytes of an image file with the `image` crate gives: the number of
/// channels and of bytes of a stored pixel, the width, the height, and the pixels as
/// 8-bit RGBA, row by row; `None` where the bytes cannot be decoded.
pub uninterp spec fn decoded_image(bytes: Seq<u8>) -> Option<(u8, u8, u32, u32, Seq<u8>)>;

/// Decodes the bytes of an image file with `image::ImageReader`, which tells the file
/// format by the first bytes, and hands out the decoded image as plain values: the
/// channels and bytes of a pixel from `DynamicImage::color`, the size and the pixels
/// from `DynamicImage::to_rgba8`.
#[verifier::external_body]
fn decode_image(bytes: &Vec<u8>) -> (decoded: Result<
    (u8, u8, u32, u32, Vec<u8>),
    image::ImageError,
>)
    ensures
        match decoded {
            Ok(found) => decoded_image(bytes@) == Some(
                (found.0, found.1, found.2, found.3, found.4@),
            ),
            Err(_) => decoded_image(bytes@) is None,
        },
{
    let reader = image::ImageReader::new(std::io::Cursor::new(bytes));
    let picture = reader.with_guessed_format()?.decode()?;
    let color = picture.color();
    let pixels = picture.to_rgba8();
    let (width, height) = (pixels.width(), pixels.height());
    Ok((color.channel_count(), color.bytes_per_pixel(), width, height, pixels.into_raw()))
}

/// The format of pixels that are stored with the given number of channels and of bytes.
pub open spec fn format_of(channels: u8, bytes: u8) -> PixelFormat {
    if channels == 1 && bytes == 1 {
        PixelFormat::Luma8
    } else if channels == 2 && bytes == 2 {
        PixelFormat::LumaA8
    } else if channels == 3 && bytes == 3 {
        PixelFormat::Rgb8
    } else if channels == 4 && bytes == 4 {
        PixelFormat::Rgba8
    } else if channels == 1 && bytes == 2 {
        PixelFormat::Luma16
    } else if channels == 2 && bytes == 4 {
        PixelFormat::LumaA16
    } else if channels == 3 && bytes == 6 {
        PixelFormat::Rgb16
    } else if channels == 4 && bytes == 8 {
        PixelFormat::Rgba16
    } else if channels == 3 && bytes == 12 {
        PixelFormat::Rgb32F
    } else if channels == 4 && bytes == 16 {
        PixelFormat::Rgba32F
    } else {
        PixelFormat::Other
    }
}

/// The format of pixels that are stored with the given number of channels and of bytes.
pub fn pixel_format(channels: u8, bytes: u8) -> (format: PixelFormat)
    ensures
        format == format_of(channels, bytes),
{
    if channels == 1 && bytes == 1 {
        PixelFormat::Luma8
    } else if channels == 2 && bytes == 2 {
        PixelFormat::LumaA8
    } else if channels == 3 && bytes == 3 {
        PixelFormat::Rgb8
    } else if channels == 4 && bytes == 4 {
        PixelFormat::Rgba8
    } else if channels == 1 && bytes == 2 {
        PixelFormat::Luma16
    } else if channels == 2 && bytes == 4 {
        PixelFormat::LumaA16
    } else if channels == 3 && bytes == 6 {
        PixelFormat::Rgb16
    } else if channels == 4 && bytes == 8 {
        PixelFormat::Rgba16
    } else if channels == 3 && bytes == 12 {
        PixelFormat::Rgb32F
    } else if channels == 4 && bytes == 16 {
        PixelFormat::Rgba32F
    } else {
        PixelFormat::Other
    }
}

/// The image that the bytes of a file hold: the format of its stored pixels and its
/// raster; `None` where the bytes cannot be decoded, or the pixels do not fill the size.
pub open spec fn loaded_image(bytes: Seq<u8>) -> Option<(PixelFormat, RasterView)> {
    match decoded_image(bytes) {
        None => None,
        Some((channels, depth, width, height, pixels)) => if pixels.len() == 4 * (width as nat)
            * (height as nat) {
            Some((format_of(channels, depth), raster_of_bytes(width as nat, height as nat, pixels)))
        } else {
            None
        },
    }
}

/// Why a job failed.
#[derive(Clone, Copy, Debug, PartialEq, Eq, Structural)]
pub enum JobCause {
    /// No file of the image exists under any name that is tried.
    NotFound,
    /// The bytes of an image cannot be decoded.
    Decode,
    /// The image has no dominant colour.
    Analysis(AnalysisError),
    /// The finished raster cannot be embedded.
    Compose(ComposeError),
    /// The document cannot be written.
    Write,
}

/// The failure of one job.
#[derive(Clone, Copy, Debug, PartialEq, Eq, Structural)]
pub struct JobError {
    /// The number of the logo whose job failed.
    pub id: u32,
    pub cause: JobCause,
}

/// The words for the cause of a failure.
pub open spec fn cause_text(cause: JobCause) -> Seq<char> {
    match cause {
        JobCause::NotFound => "image file not found"@,
        JobCause::Decode => "image cannot be decoded"@,
        JobCause::Analysis(AnalysisError::Empty) => "the raster has no pixels"@,
        JobCause::Analysis(AnalysisError::NoClusters) => "no clusters found"@,
        JobCause::Analysis(AnalysisError::TooLarge) => "the raster is too large to sample"@,
        JobCause::Compose(ComposeError::Encode) => "the raster cannot be written as PNG"@,
        JobCause::Compose(ComposeError::Optimize) => "the PNG cannot be compressed"@,
        JobCause::Write => "document cannot be written"@,
    }
}

impl JobError {
    /// The failure in words: the number of the logo, then the cause.
    pub fn message(&self) -> (text: String)
        ensures
            text@ == "logo "@ + decimal_text(self.id as nat) + ": "@ + cause_text(self.cause),
    {
        let mut text = String::from_str("logo ");
        push_decimal(&mut text, self.id as u64);
        text.append(": ");
        match self.cause {
            JobCause::NotFound => text.append("image file not found"),
            JobCause::Decode => text.append("image cannot be decoded"),
            JobCause::Analysis(e) => {
                let words = e.message();
                text.append(words.as_str());
            },
            JobCause::Compose(e) => {
                let words = e.message();
                text.append(words.as_str());
            },
            JobCause::Write => text.append("document cannot be written"),
        }
        assert(text@ =~= "logo "@ + decimal_text(self.id as nat) + ": "@ + cause_text(self.cause));
        text
    }
}

/// Decodes the bytes of an image file into RGBA pixels.
pub fn load_image(bytes: &Vec<u8>) -> (loaded: Result<LoadedImage, JobCause>)
    ensures
        match loaded_image(bytes@) {
            None => loaded == Err::<LoadedImage, JobCause>(JobCause::Decode),
            Some((format, raster)) => loaded is Ok && loaded->Ok_0.format == format
                && loaded->Ok_0.raster@ == raster,
        },
{
    let (channels, depth, width, height, pixels) = match decode_image(bytes) {
        Ok(found) => found,
        Err(_) => {
            return Err(JobCause::Decode);
        },
    };
    let format = pixel_format(channels, depth);
    match RasterImage::from_raw(width, height, pixels) {
        Some(raster) => Ok(LoadedImage { format, raster }),
        None => Err(JobCause::Decode),
    }
}

/// The background that a canvas is filled with: the neutral gray in place of a
/// background brighter than `WHITE_COLOR`, else the background as it was found. Score
/// and cluster count stay.
pub open spec fn canvas_background(background: DominantColor) -> DominantColor {
    if background.average > WHITE_COLOR {
        DominantColor { color: gray_background_color(), ..background }
    } else {
        background
    }
}

/// Chooses the background that a canvas is filled with.
pub fn choose_background(background: DominantColor) -> (chosen: DominantColor)
    ensures
        chosen == canvas_background(background),
{
    if background.average > WHITE_COLOR {
        DominantColor {
            color: Rgb { red: 238, green: 237, blue: 241 },
            score: background.score,
            average: background.average,
            k: background.k,
        }
    } else {
        background
    }
}

/// The raster that is composed: with the background keyed out and the border trimmed
/// where the background was found with confidence, else unchanged.
pub open spec fn finished_raster(background: DominantColor, raster: RasterView) -> RasterView {
    if background.score.is_confident_spec() {
        raster.keyed(background.color, TOLERANCE).trimmed()
    } else {
        raster
    }
}

/// Keys the background out of a raster and trims it, where the background was found
/// with confidence.
pub fn key_and_trim(background: &DominantColor, raster: RasterImage) -> (finished: RasterImage)
    ensures
        finished@ == finished_raster(*background, raster@),
{
    if background.score.is_confident() {
        let mut keyed = raster;
        background.remove_image_background(&mut keyed);
        trim_transparent_border(&keyed)
    } else {
        raster
    }
}

/// Finds the background of a logo from its small image: the dominant colour of an image
/// without transparency of its own, white for one that has it.
pub fn find_background(small: &LoadedImage) -> (found: Result<DominantColor, AnalysisError>)
    ensures
        has_alpha_spec(small.format) ==> found == Ok::<DominantColor, AnalysisError>(
            DominantColor::white_spec(),
        ),
        !has_alpha_spec(small.format) ==> is_analysis_of(
            found,
            small.raster@.width as int,
            small.raster@.height as int,
        ) && (found is Ok ==> is_dominant_of_sample(found->Ok_0, small.raster@)),
{
    if has_alpha_channel(small.format) {
        Ok(DominantColor::white())
    } else {
        DominantColor::from_rgb_image(&small.raster)
    }
}

/// What is made of one logo, and what is worth telling of it.
#[derive(Debug)]
pub struct LogoReport {
    /// The document.
    pub document: String,
    /// The background as it was found: colour, score and cluster count.
    pub background: DominantColor,
    /// Whether the logo layer is the trace; else it is the embedded raster.
    pub vector: bool,
}

/// The raster of a logo that is composed: the large raster as it is where the image
/// brought its own transparency, else keyed and trimmed where the background was found
/// with confidence.
pub open spec fn composed_raster(background: DominantColor, big: RasterView, own_alpha: bool)
    -> RasterView {
    if own_alpha {
        big
    } else {
        finished_raster(background, big)
    }
}

/// Whether `done` is how finishing logo `id` ends for the given background and large
/// raster: with the failure to embed the composed raster where it cannot be embedded;
/// else with a report that holds the background as it was found and a composition of
/// the composed raster on the canvas's background.
pub open spec fn is_finished(
    done: Result<LogoReport, JobError>,
    id: u32,
    background: DominantColor,
    big: RasterView,
    own_alpha: bool,
) -> bool {
    let raster = composed_raster(background, big, own_alpha);
    match embedded_png(raster.width, raster.height, raster.to_bytes(), true) {
        Err(e) => done == Err::<LogoReport, JobError>(
            JobError { id, cause: JobCause::Compose(e) },
        ),
        Ok(blob) => done is Ok && done->Ok_0.background == background && is_composition(
            Composition { document: done->Ok_0.document, vector: done->Ok_0.vector },
            id,
            canvas_background(background),
            raster.width as int,
            raster.height as int,
            blob,
        ),
    }
}

/// Finishes a logo whose background is known: the large raster is keyed and trimmed
/// where the image has no transparency of its own and the background was found with
/// confidence, and composed on a canvas. It fails if and only if the raster cannot be
/// embedded.
pub fn finish_logo(id: u32, background: DominantColor, big: RasterImage, own_alpha: bool) -> (done:
    Result<LogoReport, JobError>)
    ensures
        is_finished(done, id, background, big@, own_alpha),
{
    let raster = if own_alpha {
        big
    } else {
        key_and_trim(&background, big)
    };
    let fill = choose_background(background);
    match compose_logo(&raster, id, &fill, true) {
        Ok(made) => {
            let ghost whole = made;
            let report = LogoReport { document: made.document, background, vector: made.vector };
            assert(Composition { document: report.document, vector: report.vector } == whole);
            Ok(report)
        },
        Err(e) => Err(JobError { id, cause: JobCause::Compose(e) }),
    }
}

/// Why a raster of the given size has no dominant colour, if it has none.
pub open spec fn analysis_error(width: int, height: int) -> Option<AnalysisError> {
    if width == 0 || height == 0 {
        Some(AnalysisError::Empty)
    } else if !sampling_fits(width, height) {
        Some(AnalysisError::TooLarge)
    } else {
        None
    }
}

/// Whether `background` can be the background of a logo whose small image has the given
/// format and raster: white where the image brings its own transparency, else what the
/// analysis of the raster owes.
pub open spec fn is_background_of(
    background: DominantColor,
    format: PixelFormat,
    small: RasterView,
) -> bool {
    if has_alpha_spec(format) {
        background == DominantColor::white_spec()
    } else {
        is_analysis_of(
            Ok::<DominantColor, AnalysisError>(background),
            small.width as int,
            small.height as int,
        ) && is_dominant_of_sample(background, small)
    }
}

/// Whether `done` is how the work on logo `id` ends for the bytes of its small and its
/// large image: with the failure to decode where either cannot be decoded; else with the
/// failure of the analysis where the small image has no transparency of its own and no
/// dominant colour; else as finishing the large raster ends for some background of the
/// small image.
pub open spec fn is_processed(
    done: Result<LogoReport, JobError>,
    id: u32,
    small_bytes: Seq<u8>,
    big_bytes: Seq<u8>,
) -> bool {
    match (loaded_image(small_bytes), loaded_image(big_bytes)) {
        (Some((format, small)), Some((_, big))) => if !has_alpha_spec(format) && analysis_error(
            small.width as int,
            small.height as int,
        ) is Some {
            done == Err::<LogoReport, JobError>(
                JobError {
                    id,
                    cause: JobCause::Analysis(
                        analysis_error(small.width as int, small.height as int)->0,
                    ),
                },
            )
        } else {
            exists|background: DominantColor|
                is_background_of(background, format, small) && #[trigger] is_finished(
                    done,
                    id,
                    background,
                    big,
                    has_alpha_spec(format),
                )
        },
        _ => done == Err::<LogoReport, JobError>(JobError { id, cause: JobCause::Decode }),
    }
}

/// Does the whole work on one logo: decodes the small and the large image, finds the
/// background in the small one, and finishes the large one. The failure of a step is
/// the failure of this job, with the logo's number.
pub fn process_single_logo(logo: &LogoJob, small_bytes: &Vec<u8>, big_bytes: &Vec<u8>) -> (done:
    Result<LogoReport, JobError>)
    ensures
        is_processed(done, logo.id, small_bytes@, big_bytes@),
{
    let id = logo.id;
    let small = match load_image(small_bytes) {
        Ok(small) => small,
        Err(cause) => {
            return Err(JobError { id, cause });
        },
    };
    let big = match load_image(big_bytes) {
        Ok(big) => big,
        Err(cause) => {
            return Err(JobError { id, cause });
        },
    };
    let own_alpha = has_alpha_channel(small.format);
    let background = match find_background(&small) {
        Ok(background) => background,
        Err(e) => {
            return Err(JobError { id, cause: JobCause::Analysis(e) });
        },
    };
    let ghost large = big.raster@;
    let done = finish_logo(id, background, big.raster, own_alpha);
    proof {
        assert(is_background_of(background, small.format, small.raster@));
        assert(is_finished(done, id, background, large, own_alpha));
    }
    done
}

/// Where a downloaded image goes once its frame is cut off.
#[derive(Clone, Copy, Debug, PartialEq, Eq, Structural)]
pub enum BorderTarget {
    /// To the images that are upscaled next.
    Crop,
    /// Straight to the upscaled images: it is large enough as it is.
    Upscale,
}

/// Where an image of the given size goes: straight to the upscaled images when a side
/// exceeds `BIG_SIZE`.
pub fn border_target(width: u32, height: u32) -> (target: BorderTarget)
    ensures
        target == if width > BIG_SIZE || height > BIG_SIZE {
            BorderTarget::Upscale
        } else {
            BorderTarget::Crop
        },
{
    if width > BIG_SIZE || height > BIG_SIZE {
        BorderTarget::Upscale
    } else {
        BorderTarget::Crop
    }
}

/// Cuts a frame of `BORDER_SIZE` pixels off an image. An image with a side under two
/// pixels has no inside: `None`.
pub fn remove_border(image: &RasterImage) -> (inner: Option<RasterImage>)
    ensures
        match inner {
            Some(out) => image@.width >= 2 && image@.height >= 2 && out@ == image@.crop(
                1,
                1,
                image@.width - 2,
                image@.height - 2,
            ),
            None => image@.width < 2 || image@.height < 2,
        },
{
    let width = image.width();
    let height = image.height();
    if width < BORDER_SIZE + 1 || height < BORDER_SIZE + 1 {
        return None;
    }
    if width == 2 || height == 2 {
        assert(4 * ((width - 2) as nat) * ((height - 2) as nat) == 0) by (nonlinear_arith)
            requires
                width == 2 || height == 2,
        ;
        let empty = RasterImage::from_raw(width - 2, height - 2, Vec::new());
        let out = empty.unwrap();
        proof {
            let target = image@.crop(1, 1, image@.width - 2, image@.height - 2);
            out.lemma_view();
            assert(target.wf());
            lemma_raster_ext(out@, target);
        }
        Some(out)
    } else {
        Some(image.crop(BORDER_SIZE, BORDER_SIZE, width - 2, height - 2))
    }
}

/// The factor by which the upscaler enlarges.
pub const UPSCALE_FACTOR: u64 = 4;

/// The quality, in percent, at which the upscaler writes.
pub const UPSCALE_COMPRESSION: u64 = 100;

/// The arguments of the upscaler, in order: input and output folder, the models'
/// folder and the model's name, then the fixed scale, format and compression.
pub open spec fn upscale_arguments_of(
    input: Seq<char>,
    output: Seq<char>,
    models: Seq<char>,
    model: Seq<char>,
) -> Seq<Seq<char>> {
    seq![
        "-i"@,
        input,
        "-o"@,
        output,
        "-m"@,
        models,
        "-n"@,
        model,
        "-s"@,
        decimal_text(UPSCALE_FACTOR as nat),
        "-f"@,
        "png"@,
        "-v"@,
        "-c"@,
        decimal_text(UPSCALE_COMPRESSION as nat),
    ]
}

/// The texts of a vector of strings.
pub open spec fn texts_of(strings: Seq<String>) -> Seq<Seq<char>> {
    strings.map_values(|s: String| s@)
}

/// The arguments that the upscaler is started with.
pub fn upscale_arguments(input: &str, output: &str, models: &str, model: &str) -> (arguments:
    Vec<String>)
    ensures
        texts_of(arguments@) == upscale_arguments_of(input@, output@, models@, model@),
{
    let mut arguments: Vec<String> = Vec::new();
    arguments.push(String::from_str("-i"));
    arguments.push(String::from_str(input));
    arguments.push(String::from_str("-o"));
    arguments.push(String::from_str(output));
    arguments.push(String::from_str("-m"));
    arguments.push(String::from_str(models));
    arguments.push(String::from_str("-n"));
    arguments.push(String::from_str(model));
    arguments.push(String::from_str("-s"));
    arguments.push(crate::text::decimal(UPSCALE_FACTOR));
    arguments.push(String::from_str("-f"));
    arguments.push(String::from_str("png"));
    arguments.push(String::from_str("-v"));
    arguments.push(String::from_str("-c"));
    arguments.push(crate::text::decimal(UPSCALE_COMPRESSION));
    assert(texts_of(arguments@) =~= upscale_arguments_of(input@, output@, models@, model@));
    arguments
}

/// The first failure among the outcomes of jobs, in the order given; `None` when every
/// job succeeded.
pub open spec fn first_failure_of(outcomes: Seq<Result<(), JobError>>) -> Option<JobError>
    decreases outcomes.len(),
{
    if outcomes.len() == 0 {
        None
    } else {
        match first_failure_of(outcomes.drop_last()) {
            Some(e) => Some(e),
            None => match outcomes.last() {
                Err(e) => Some(e),
                Ok(_) => None,
            },
        }
    }
}

/// The first failure is the failure of the earliest job that failed.
pub proof fn lemma_first_failure(outcomes: Seq<Result<(), JobError>>)
    ensures
        match first_failure_of(outcomes) {
            None => forall|i: int| 0 <= i < outcomes.len() ==> outcomes[i] is Ok,
            Some(e) => exists|i: int|
                {
                    &&& 0 <= i < outcomes.len()
                    &&& #[trigger] outcomes[i] == Err::<(), JobError>(e)
                    &&& forall|j: int| 0 <= j < i ==> outcomes[j] is Ok
                },
        },
    decreases outcomes.len(),
{
    if outcomes.len() > 0 {
        let front = outcomes.drop_last();
        lemma_first_failure(front);
        match first_failure_of(front) {
            Some(e) => {
                let i = choose|i: int|
                    {
                        &&& 0 <= i < front.len()
                        &&& #[trigger] front[i] == Err::<(), JobError>(e)
                        &&& forall|j: int| 0 <= j < i ==> front[j] is Ok
                    };
                assert(outcomes[i] == Err::<(), JobError>(e));
                assert forall|j: int| 0 <= j < i implies outcomes[j] is Ok by {
                    assert(front[j] is Ok);
                }
            },
            None => {
                assert forall|j: int| 0 <= j < front.len() implies outcomes[j] is Ok by {
                    assert(front[j] is Ok);
                }
                match outcomes.last() {
                    Err(e) => {
                        assert(outcomes[outcomes.len() - 1] == Err::<(), JobError>(e));
                    },
                    Ok(_) => {},
                }
            },
        }
    }
}

/// The outcome of a batch: success when every job succeeded, else the first failure.
/// Every outcome is looked at; a failure stops nothing.
pub fn first_failure(outcomes: &Vec<Result<(), JobError>>) -> (batch: Result<(), JobError>)
    ensures
        batch == match first_failure_of(outcomes@) {
            Some(e) => Err::<(), JobError>(e),
            None => Ok::<(), JobError>(()),
        },
{
    let mut failure: Option<JobError> = None;
    let mut index: usize = 0;
    while index < outcomes.len()
        invariant
            index <= outcomes@.len(),
            failure == first_failure_of(outcomes@.take(index as int)),
        decreases outcomes@.len() - index,
    {
        proof {
            assert(outcomes@.take(index + 1).drop_last() =~= outcomes@.take(index as int));
            assert(outcomes@.take(index + 1).last() == outcomes@[index as int]);
        }
        if failure.is_none() {
            match &outcomes[index] {
                Err(e) => {
                    failure = Some(*e);
                },
                Ok(_) => {},
            }
        }
        index = index + 1;
    }
    assert(outcomes@.take(outcomes@.len() as int) =~= outcomes@);
    match failure {
        Some(e) => Err(e),
        None => Ok(()),
    }
}

/// The progress of a batch: how many jobs have ended, and the first failure so far.
pub struct BatchProgress {
    completed: usize,
    failure: Option<JobError>,
    outcomes: Ghost<Seq<Result<(), JobError>>>,
}

impl View for BatchProgress {
    type V = Seq<Result<(), JobError>>;

    /// The outcomes of the jobs that have ended, in the order in which they ended.
    closed spec fn view(&self) -> Seq<Result<(), JobError>> {
        self.outcomes@
    }
}

impl BatchProgress {
    #[verifier::type_invariant]
    spec fn counts_outcomes(self) -> bool {
        &&& self.completed == self.outcomes@.len()
        &&& self.failure == first_failure_of(self.outcomes@)
    }

    /// The progress of a batch of which no job has ended.
    pub fn new() -> (progress: BatchProgress)
        ensures
            progress@.len() == 0,
    {
        BatchProgress { completed: 0, failure: None, outcomes: Ghost(Seq::empty()) }
    }

    /// The number of jobs that have ended, in success or failure.
    pub fn completed(&self) -> (n: usize)
        ensures
            n == self@.len(),
    {
        proof {
            use_type_invariant(self);
        }
        self.completed
    }

    /// Takes note of the end of one job. The count grows by one whatever the outcome.
    pub fn record(&mut self, outcome: Result<(), JobError>)
        requires
            old(self)@.len() < usize::MAX,
        ensures
            final(self)@ == old(self)@.push(outcome),
    {
        proof {
            use_type_invariant(&*self);
            assert(self.outcomes@.push(outcome).drop_last() =~= self.outcomes@);
        }
        let failure = match self.failure {
            Some(e) => Some(e),
            None => match outcome {
                Err(e) => Some(e),
                Ok(_) => None,
            },
        };
        *self = BatchProgress {
            completed: self.completed + 1,
            failure,
            outcomes: Ghost(self.outcomes@.push(outcome)),
        };
    }

    /// The outcome of the batch so far: the first failure, or success.
    pub fn finish(&self) -> (batch: Result<(), JobError>)
        ensures
            batch == match first_failure_of(self@) {
                Some(e) => Err::<(), JobError>(e),
                None => Ok::<(), JobError>(()),
            },
    {
        proof {
            use_type_invariant(self);
        }
        match self.failure {
            Some(e) => Err(e),
            None => Ok(()),
        }
    }
}

} // verus!

