use base64::Engine;
use logo_loader::background_works::{DominantColor, Score};
use logo_loader::raster::{RasterImage, Rgb};
use logo_loader::svg_saver::{
    choose_layer, choose_transform, compose_document, compose_logo, is_vector_chosen,
    make_png_base64, render_document, save_ready_logo, ComposeError, LogoLayer, LogoTransform, Ratio, KILOBYTE,
    LOGO_SCALE_PERCENT, MAX_VECTOR_LOGO_SIZE, PNG_OPTIMIZE, WIDTH_HEIGHT,
};
use logo_loader::vectorize::{
    image_vectorize_to_svg, paths_to_svg, trace_to_svg, vectorize_with, PathMode, TraceColors,
    TraceLayers, TracedPath, TracingSettings,
};

fn filled(width: u32, height: u32, pixel: [u8; 4]) -> RasterImage {
    let mut data = Vec::new();
    for _ in 0..(width as usize * height as usize) {
        data.extend_from_slice(&pixel);
    }
    RasterImage::from_raw(width, height, data).unwrap()
}

fn with_square(size: u32, from: u32, to: u32, back: [u8; 4], front: [u8; 4]) -> RasterImage {
    let mut data = Vec::new();
    for y in 0..size {
        for x in 0..size {
            let inside = from <= x && x < to && from <= y && y < to;
            data.extend_from_slice(if inside { &front } else { &back });
        }
    }
    RasterImage::from_raw(size, size, data).unwrap()
}

fn background(color: [u8; 3], members: u64, total: u64) -> DominantColor {
    DominantColor {
        color: Rgb { red: color[0], green: color[1], blue: color[2] },
        score: Score { members, total },
        average: 0,
        k: 3,
    }
}

fn ratio(numerator: u64, denominator: u64) -> Ratio {
    Ratio { numerator, denominator }
}

const HEAD: &str = "<?xml version=\"1.0\" encoding=\"UTF-8\"?>\n<svg width=\"300\" height=\"300\" xmlns=\"http://www.w3.org/2000/svg\" xmlns:xlink=\"http://www.w3.org/1999/xlink\">\n";

#[test]
fn settings_have_their_documented_values() {
    assert_eq!(MAX_VECTOR_LOGO_SIZE, 100);
    assert_eq!(KILOBYTE, 1024);
    assert_eq!(PNG_OPTIMIZE, 4);
    assert_eq!(WIDTH_HEIGHT, 300);
    assert_eq!(LOGO_SCALE_PERCENT, 65);
    let tracing = TracingSettings::standard();
    assert_eq!(tracing.colors, TraceColors::Color);
    assert_eq!(tracing.layers, TraceLayers::Stacked);
    assert_eq!(tracing.mode, PathMode::Spline);
    assert_eq!(tracing.filter_speckle, 16);
    assert_eq!(tracing.color_precision, 5);
    assert_eq!(tracing.layer_difference, 16);
    assert_eq!(tracing.corner_threshold, 60);
    assert_eq!(tracing.length_threshold, 4);
    assert_eq!(tracing.max_iterations, 10);
    assert_eq!(tracing.splice_threshold, 45);
    assert_eq!(tracing.path_precision, 4);
    assert!(tracing.is_valid());
}

#[test]
fn ratio_rounds_to_the_nearest_hundredth_and_halves_to_the_even() {
    assert_eq!(ratio(1, 1).hundredths(), Some(100));
    assert_eq!(ratio(0, 7).hundredths(), Some(0));
    assert_eq!(ratio(1, 3).hundredths(), Some(33));
    assert_eq!(ratio(2, 3).hundredths(), Some(67));
    assert_eq!(ratio(1, 8).hundredths(), Some(12));
    assert_eq!(ratio(3, 8).hundredths(), Some(38));
    assert_eq!(ratio(39, 40).hundredths(), Some(98));
    assert_eq!(ratio(1, 200).hundredths(), Some(0));
    assert_eq!(ratio(3, 200).hundredths(), Some(2));
    assert_eq!(ratio(1, 199).hundredths(), Some(1));
    assert_eq!(ratio(1, 201).hundredths(), Some(0));
    assert_eq!(ratio(u64::MAX, 1).hundredths(), None);
    assert_eq!(ratio(u64::MAX, 100).hundredths(), Some(u64::MAX));
    for (n, d) in [(1u64, 8u64), (3, 8), (65, 8), (195, 24), (125625, 1000), (7, 3), (0, 5)] {
        let text = format!("{:.2}", n as f64 / d as f64).replace('.', "");
        assert_eq!(ratio(n, d).hundredths(), text.parse::<u64>().ok(), "{n}/{d}");
    }
}

#[test]
fn transform_of_a_half_way_scale_goes_to_the_even_hundredth() {
    let t = LogoTransform::for_box(24, 24);
    assert_eq!(t.scale.hundredths(), Some(812));
    assert_eq!(format!("{:.2}", (300.0f64 / 24.0) * 0.65), "8.12");
}

#[test]
fn transform_of_a_square_box_is_centred() {
    let t = LogoTransform::for_box(20, 20);
    assert_eq!(t.scale.hundredths(), Some(975));
    assert_eq!(t.offset_x.hundredths(), Some(5250));
    assert_eq!(t.offset_y.hundredths(), Some(5250));
    assert_eq!(2 * t.offset_x.numerator + 20 * t.scale.numerator, 300 * t.scale.denominator);
}

#[test]
fn transform_of_a_wide_box_centres_the_shorter_side_too() {
    let t = LogoTransform::for_box(400, 100);
    assert_eq!(t.scale, ratio(39000, 80000));
    assert_eq!(t.scale.hundredths(), Some(49));
    assert_eq!(t.offset_x.hundredths(), Some(5250));
    assert_eq!(t.offset_y.hundredths(), Some(12562));
    assert_eq!(2 * t.offset_y.numerator + 100 * t.scale.numerator, 300 * t.scale.denominator);
    let tall = LogoTransform::for_box(100, 400);
    assert_eq!(tall.offset_x, t.offset_y);
    assert_eq!(tall.offset_y, t.offset_x);
}

#[test]
fn transform_of_a_traced_raster_is_that_of_its_box() {
    let image = filled(600, 200, [0, 0, 0, 255]);
    assert_eq!(LogoTransform::calculate_transform(&image), LogoTransform::for_box(600, 200));
    assert_eq!(LogoTransform::for_box(600, 200).scale.hundredths(), Some(32));
}

#[test]
fn transform_of_an_embedded_raster() {
    let image = filled(300, 150, [0, 0, 0, 255]);
    let keyed = LogoTransform::calculate_png_transform(&image);
    assert_eq!(keyed, LogoTransform::for_box(300, 150));
    assert_eq!(keyed.scale.hundredths(), Some(65));
    assert_eq!(keyed.offset_x.hundredths(), Some(5250));
    assert_eq!(keyed.offset_y.hundredths(), Some(10125));
    let small = filled(10, 10, [0, 0, 0, 255]);
    assert_eq!(LogoTransform::calculate_png_transform(&small).scale.hundredths(), Some(1950));
    let whole = LogoTransform::full_size();
    assert_eq!(whole.scale.hundredths(), Some(100));
    assert_eq!(whole.offset_x.hundredths(), Some(0));
    assert_eq!(whole.offset_y.hundredths(), Some(0));
}

#[test]
fn paths_are_written_one_after_the_other() {
    let paths = vec![
        TracedPath {
            outline: "M0 0 L1 1 Z".to_string(),
            fill: "#FF0000".to_string(),
            shift_x: "3".to_string(),
            shift_y: "4.5".to_string(),
        },
        TracedPath {
            outline: "M2 2 Z".to_string(),
            fill: "#000000".to_string(),
            shift_x: "0".to_string(),
            shift_y: "0".to_string(),
        },
    ];
    assert_eq!(
        paths_to_svg(&paths),
        "<path d=\"M0 0 L1 1 Z\" fill=\"#FF0000\" transform=\"translate(3,4.5)\"/><path d=\"M2 2 Z\" fill=\"#000000\" transform=\"translate(0,0)\"/>"
    );
    assert_eq!(paths_to_svg(&vec![]), "");
}

#[test]
fn tracing_a_square_gives_paths() {
    let image = with_square(40, 10, 30, [255, 0, 0, 255], [0, 0, 0, 255]);
    let traced = image_vectorize_to_svg(&image).unwrap();
    assert!(traced.starts_with("<path d=\""));
    assert!(traced.ends_with(")\"/>"));
    assert!(traced.contains("fill=\"#000000\""));
    assert!(traced.contains("transform=\"translate("));
    assert!(traced.len() < 100 * 1024);
}

#[test]
fn tracing_nothing_fails() {
    let empty = RasterImage::from_raw(0, 0, vec![]).unwrap();
    assert_eq!(
        image_vectorize_to_svg(&empty),
        Err("cannot trace the image into vector paths".to_string())
    );
    let image = filled(4, 4, [1, 2, 3, 255]);
    let standard = TracingSettings::standard();
    let refused = [
        TracingSettings { color_precision: 9, ..standard },
        TracingSettings { color_precision: 0, ..standard },
        TracingSettings { color_precision: -1, ..standard },
        TracingSettings { max_iterations: 0, ..standard },
        TracingSettings { path_precision: 0x1_0000, ..standard },
        TracingSettings { path_precision: 70000, ..standard },
        TracingSettings { filter_speckle: 0x1_0000, ..standard },
        TracingSettings { layer_difference: 256, ..standard },
        TracingSettings { colors: TraceColors::Binary, ..standard },
        TracingSettings { layers: TraceLayers::Cutout, ..standard },
        TracingSettings { mode: PathMode::Polygon, ..standard },
        TracingSettings { mode: PathMode::Pixel, ..standard },
    ];
    for settings in refused {
        assert!(!settings.is_valid());
        assert_eq!(
            vectorize_with(&image, &settings),
            Err("cannot trace the image into vector paths".to_string())
        );
    }
    for settings in [
        TracingSettings { color_precision: 1, max_iterations: 1, ..standard },
        TracingSettings { color_precision: 8, filter_speckle: 0, ..standard },
        TracingSettings { path_precision: 0, ..standard },
        TracingSettings { path_precision: 0xffff, ..standard },
    ] {
        assert!(settings.is_valid());
        let square = with_square(16, 4, 12, [255, 255, 255, 255], [0, 0, 0, 255]);
        assert!(vectorize_with(&square, &settings).unwrap().starts_with("<path d=\""));
    }
}

#[test]
fn embedded_raster_is_a_png_file_in_base64() {
    let image = with_square(8, 2, 6, [255, 255, 255, 0], [10, 20, 30, 255]);
    for optimize in [false, true] {
        let text = make_png_base64(&image, optimize).unwrap();
        assert!(text.starts_with("iVBORw0KGgo"));
        let bytes = base64::engine::general_purpose::STANDARD.decode(&text).unwrap();
        assert_eq!(&bytes[..8], &[0x89, b'P', b'N', b'G', 0x0d, 0x0a, 0x1a, 0x0a]);
        let decoded = image::load_from_memory(&bytes).unwrap().to_rgba8();
        assert_eq!((decoded.width(), decoded.height()), (8, 8));
        for (ours, theirs) in image.as_raw().chunks(4).zip(decoded.as_raw().chunks(4)) {
            assert_eq!(ours[3], theirs[3]);
            if ours[3] != 0 {
                assert_eq!(ours, theirs);
            }
        }
    }
}

#[test]
fn compression_does_not_grow_the_embedded_raster() {
    let image = with_square(64, 8, 40, [200, 10, 10, 255], [10, 20, 30, 255]);
    let plain = make_png_base64(&image, false).unwrap();
    let small = make_png_base64(&image, true).unwrap();
    assert!(small.len() < plain.len());
    assert_eq!(make_png_base64(&image, true).unwrap(), small);
    let bytes = base64::engine::general_purpose::STANDARD.decode(&small).unwrap();
    let decoded = image::load_from_memory(&bytes).unwrap().to_rgba8();
    assert_eq!(decoded.as_raw(), image.as_raw());
}

#[test]
fn base64_follows_the_standard_alphabet_with_padding() {
    let pixel = RasterImage::from_raw(1, 1, vec![1, 2, 3, 4]).unwrap();
    let text = make_png_base64(&pixel, false).unwrap();
    assert_eq!(text.len() % 4, 0);
    assert!(text.chars().all(|c| c.is_ascii_alphanumeric() || c == '+' || c == '/' || c == '='));
    let bytes = base64::engine::general_purpose::STANDARD.decode(&text).unwrap();
    assert_eq!(text.len(), (bytes.len() + 2) / 3 * 4);
}

#[test]
fn raster_without_pixels_cannot_be_embedded() {
    let empty = RasterImage::from_raw(0, 3, vec![]).unwrap();
    assert_eq!(make_png_base64(&empty, true), Err(ComposeError::Encode));
    assert_eq!(make_png_base64(&empty, false), Err(ComposeError::Encode));
    let found = background([1, 2, 3], 3, 4);
    assert_eq!(save_ready_logo(&empty, 1, &found, true), Err(ComposeError::Encode));
    assert_eq!(ComposeError::Encode.message(), "the raster cannot be written as PNG");
    assert_eq!(ComposeError::Optimize.message(), "the PNG cannot be compressed");
}

#[test]
fn layer_is_the_trace_when_small_and_confident() {
    let confident = Score { members: 3, total: 4 };
    let layer = choose_layer(Ok("<path/>".to_string()), "QUJD".to_string(), &confident);
    assert!(matches!(layer, LogoLayer::Vector(ref paths) if paths == "<path/>"));
    let most = "a".repeat(100 * 1024 - 1);
    let layer = choose_layer(Ok(most.clone()), "QUJD".to_string(), &confident);
    assert!(matches!(layer, LogoLayer::Vector(ref paths) if paths == &most));
}

#[test]
fn layer_is_the_raster_when_the_trace_is_too_large() {
    let confident = Score { members: 3, total: 4 };
    let large = "a".repeat(100 * 1024);
    let layer = choose_layer(Ok(large), "QUJD".to_string(), &confident);
    assert!(matches!(layer, LogoLayer::Raster(ref blob) if blob == "QUJD"));
    let wide = "\u{44f}".repeat(50 * 1024);
    let layer = choose_layer(Ok(wide), "QUJD".to_string(), &confident);
    assert!(matches!(layer, LogoLayer::Raster(_)));
}

#[test]
fn layer_is_the_raster_without_confidence_or_trace() {
    let half = Score { members: 2, total: 4 };
    let layer = choose_layer(Ok("<path/>".to_string()), "QUJD".to_string(), &half);
    assert!(matches!(layer, LogoLayer::Raster(ref blob) if blob == "QUJD"));
    let confident = Score { members: 3, total: 4 };
    let layer = choose_layer(Err("no".to_string()), "QUJD".to_string(), &confident);
    assert!(matches!(layer, LogoLayer::Raster(ref blob) if blob == "QUJD"));
}

#[test]
fn transform_follows_the_layer_and_the_score() {
    let confident = Score { members: 3, total: 4 };
    let half = Score { members: 2, total: 4 };
    let doubtful = Score { members: 1, total: 4 };
    let vector = LogoLayer::Vector(String::new());
    let raster = LogoLayer::Raster(String::new());
    assert_eq!(choose_transform(&vector, &confident, 20, 10), LogoTransform::for_box(20, 10));
    assert_eq!(choose_transform(&raster, &confident, 20, 10), LogoTransform::for_box(20, 10));
    assert_eq!(choose_transform(&raster, &half, 20, 10), LogoTransform::for_box(20, 10));
    assert_eq!(choose_transform(&raster, &doubtful, 20, 10), LogoTransform::full_size());
}

#[test]
fn vector_document_is_written_in_full() {
    let layer = LogoLayer::Vector("<path d=\"M0 0 Z\" fill=\"#000000\" transform=\"translate(0,0)\"/>".to_string());
    let t = LogoTransform::for_box(20, 20);
    let doc = render_document(4217, Rgb { red: 255, green: 0, blue: 7 }, &layer, &t);
    let expected = format!(
        "{HEAD}    <title>4217</title>\n    <!-- Background -->\n    <rect width=\"100%\" height=\"100%\" id=\"Задник\" fill=\"rgb(255,0,7)\"/>\n    <!-- Logo -->\n    <!-- Curved SVG  -->\n<g transform=\"translate(52.50, 52.50) scale(9.75)\">\n            <path d=\"M0 0 Z\" fill=\"#000000\" transform=\"translate(0,0)\"/>\n</g>\n</svg>"
    );
    assert_eq!(doc, expected);
}

#[test]
fn raster_document_is_written_in_full() {
    let layer = LogoLayer::Raster("QUJD".to_string());
    let doc = render_document(
        0,
        Rgb { red: 238, green: 237, blue: 241 },
        &layer,
        &LogoTransform::full_size(),
    );
    let expected = format!(
        "{HEAD}    <title>0</title>\n    <!-- Background -->\n    <rect width=\"100%\" height=\"100%\" id=\"Задник\" fill=\"rgb(238,237,241)\"/>\n    <!-- Logo -->\n    <!-- PNG RGBA as Base64 -->\n<g transform=\"translate(0.00, 0.00) scale(1.00)\">\n    <image width=\"100%\" height=\"100%\" id=\"logo_image\"\n                        preserveAspectRatio=\"xMidYMid meet\"\n                        xlink:href=\"data:image/png;base64,QUJD\"/>\n</g>\n</svg>"
    );
    assert_eq!(doc, expected);
}

#[test]
fn oversized_trace_gives_the_raster_document() {
    let found = background([10, 20, 30], 9, 10);
    let large = "<path d=\"M0 0 Z\"/>".repeat(6000);
    assert!(large.len() / 1024 >= 100);
    let doc = compose_document(9, &found, 500, 400, Ok(large), "QUJD".to_string());
    assert!(doc.contains("xlink:href=\"data:image/png;base64,QUJD\""));
    assert!(!doc.contains("<path"));
    assert!(doc.contains("<g transform=\"translate(52.50, 72.00) scale(0.39)\">"));
    assert!(doc.contains("<title>9</title>"));
}

#[test]
fn small_trace_gives_the_vector_document() {
    let found = background([10, 20, 30], 9, 10);
    let doc = compose_document(9, &found, 500, 400, Ok("<path/>".to_string()), "QUJD".to_string());
    assert!(!doc.contains("base64"));
    assert!(doc.contains("<g transform=\"translate(52.50, 72.00) scale(0.39)\">\n            <path/>\n</g>"));
    assert!(doc.contains("fill=\"rgb(10,20,30)\""));
}

#[test]
fn doubtful_background_gives_the_raster_at_full_size() {
    let found = background([10, 20, 30], 2, 10);
    let doc = compose_document(9, &found, 50, 40, Ok("<path/>".to_string()), "QUJD".to_string());
    assert!(doc.contains("xlink:href=\"data:image/png;base64,QUJD\""));
    assert!(doc.contains("<g transform=\"translate(0.00, 0.00) scale(1.00)\">"));
}

#[test]
fn composing_is_repeatable() {
    let image = with_square(40, 10, 30, [255, 0, 0, 0], [0, 0, 0, 255]);
    let found = background([255, 0, 0], 3, 4);
    let first = save_ready_logo(&image, 12, &found, true).unwrap();
    let second = save_ready_logo(&image, 12, &found, true).unwrap();
    assert_eq!(first, second);
    assert!(first.starts_with(HEAD));
    assert!(first.ends_with("\n</svg>"));
    assert!(first.contains("<title>12</title>"));
    assert!(first.contains("fill=\"rgb(255,0,0)\""));
}

#[test]
fn sentinel_composes_without_failure() {
    let mut image = filled(100, 100, [255, 255, 255, 255]);
    image.key_out(Rgb { red: 255, green: 255, blue: 255 }, 30);
    let sentinel = logo_loader::background_works::trim_transparent_border(&image);
    assert_eq!((sentinel.width(), sentinel.height()), (1, 1));
    let doubtful = background([255, 255, 255], 1, 4);
    let doc = save_ready_logo(&sentinel, 3, &doubtful, true).unwrap();
    assert!(doc.starts_with(HEAD));
    assert!(doc.contains("xlink:href=\"data:image/png;base64,iVBORw0KGgo"));
    assert!(doc.contains("<g transform=\"translate(0.00, 0.00) scale(1.00)\">"));
    assert!(!doc.contains("<path"));
    assert_eq!(
        image_vectorize_to_svg(&sentinel),
        Err("cannot trace the image into vector paths".to_string())
    );
    let confident = background([255, 255, 255], 4, 4);
    let made = compose_logo(&sentinel, 3, &confident, true).unwrap();
    assert!(!made.vector);
    let doc = made.document;
    assert!(doc.starts_with(HEAD));
    assert!(doc.ends_with("\n</svg>"));
    assert!(doc.contains("<title>3</title>"));
    assert!(doc.contains("xlink:href=\"data:image/png;base64,iVBORw0KGgo"));
    assert!(!doc.contains("<path"));
    assert!(doc.contains("<g transform=\"translate(52.50, 52.50) scale(195.00)\">"));
}

#[test]
fn composition_tells_its_layer() {
    let image = with_square(40, 10, 30, [255, 0, 0, 0], [0, 0, 0, 255]);
    let made = compose_logo(&image, 12, &background([255, 0, 0], 3, 4), true).unwrap();
    assert!(made.vector);
    assert!(made.document.contains("<!-- Curved SVG  -->"));
    assert_eq!(made.document, save_ready_logo(&image, 12, &background([255, 0, 0], 3, 4), true).unwrap());
    let made = compose_logo(&image, 12, &background([255, 0, 0], 1, 4), true).unwrap();
    assert!(!made.vector);
    assert!(made.document.contains("<!-- PNG RGBA as Base64 -->"));
    let confident = Score { members: 3, total: 4 };
    assert!(is_vector_chosen(&Ok("<path/>".to_string()), &confident));
    assert!(!is_vector_chosen(&Ok("a".repeat(100 * 1024)), &confident));
    assert!(!is_vector_chosen(&Err("no".to_string()), &confident));
    assert!(!is_vector_chosen(&Ok("<path/>".to_string()), &Score { members: 1, total: 2 }));
}

#[test]
fn raster_that_shows_nothing_is_embedded_not_traced() {
    let clear = filled(30, 20, [255, 0, 255, 0]);
    assert_eq!(
        image_vectorize_to_svg(&clear),
        Err("cannot trace the image into vector paths".to_string())
    );
    let made = compose_logo(&clear, 8, &background([1, 2, 3], 4, 4), true).unwrap();
    assert!(!made.vector);
    assert!(made.document.contains("<g transform=\"translate(52.50, 85.00) scale(6.50)\">"));
    assert!(made.document.contains("xlink:href=\"data:image/png;base64,"));
}

#[test]
fn trace_without_a_path_is_a_failure() {
    assert_eq!(trace_to_svg(&vec![]), Err("cannot trace the image into vector paths".to_string()));
    let one = vec![TracedPath {
        outline: "M0 0 Z".to_string(),
        fill: "#0A0B0C".to_string(),
        shift_x: "1".to_string(),
        shift_y: "2".to_string(),
    }];
    assert_eq!(
        trace_to_svg(&one),
        Ok("<path d=\"M0 0 Z\" fill=\"#0A0B0C\" transform=\"translate(1,2)\"/>".to_string())
    );
}

#[test]
fn path_precision_sets_the_decimal_places() {
    let image = with_square(32, 5, 27, [255, 255, 255, 255], [200, 0, 0, 255]);
    let standard = TracingSettings::standard();
    let whole = vectorize_with(&image, &TracingSettings { path_precision: 0, ..standard }).unwrap();
    let fine = vectorize_with(&image, &TracingSettings { path_precision: 4, ..standard }).unwrap();
    assert!(!whole.contains('.'));
    assert!(fine.len() >= whole.len());
}
