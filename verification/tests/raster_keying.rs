use logo_loader::background_works::{
    has_visible_pixel, trim_transparent_border, DominantColor, Score, TOLERANCE,
};
use logo_loader::raster::{channel_within, RasterImage, Rgb, Rgba};

fn filled(width: u32, height: u32, pixel: [u8; 4]) -> RasterImage {
    let mut data = Vec::new();
    for _ in 0..(width as usize * height as usize) {
        data.extend_from_slice(&pixel);
    }
    RasterImage::from_raw(width, height, data).unwrap()
}

fn with_square(size: u32, from: u32, to: u32, back: [u8; 4], front: [u8; 4]) -> RasterImage {
    let mut data = Vec::new();
    for y in 0..size {
        for x in 0..size {
            let inside = from <= x && x < to && from <= y && y < to;
            data.extend_from_slice(if inside { &front } else { &back });
        }
    }
    RasterImage::from_raw(size, size, data).unwrap()
}

#[test]
fn from_raw_asks_for_four_bytes_a_pixel() {
    assert!(RasterImage::from_raw(2, 2, vec![0; 16]).is_some());
    assert!(RasterImage::from_raw(2, 2, vec![0; 15]).is_none());
    assert!(RasterImage::from_raw(2, 2, vec![0; 17]).is_none());
    assert!(RasterImage::from_raw(0, 5, vec![]).is_some());
    assert!(RasterImage::from_raw(0, 5, vec![1, 2, 3, 4]).is_none());
}

#[test]
fn pixels_are_stored_row_by_row() {
    let data: Vec<u8> = (0..24).collect();
    let image = RasterImage::from_raw(3, 2, data.clone()).unwrap();
    assert_eq!(image.width(), 3);
    assert_eq!(image.height(), 2);
    assert_eq!(image.pixel_count(), 6);
    assert_eq!(image.as_raw(), &data);
    assert_eq!(image.get_pixel(0, 0), Rgba { red: 0, green: 1, blue: 2, alpha: 3 });
    assert_eq!(image.get_pixel(2, 0), Rgba { red: 8, green: 9, blue: 10, alpha: 11 });
    assert_eq!(image.get_pixel(1, 1), Rgba { red: 16, green: 17, blue: 18, alpha: 19 });
    assert_eq!(image.pixel(5), Rgba { red: 20, green: 21, blue: 22, alpha: 23 });
}

#[test]
fn rgb_bytes_drop_alpha() {
    let data: Vec<u8> = (0..16).collect();
    let image = RasterImage::from_raw(2, 2, data).unwrap();
    assert_eq!(image.rgb_bytes(), vec![0, 1, 2, 4, 5, 6, 8, 9, 10, 12, 13, 14]);
}

#[test]
fn crop_copies_the_rectangle() {
    let data: Vec<u8> = (0..48).collect();
    let image = RasterImage::from_raw(4, 3, data).unwrap();
    let part = image.crop(1, 1, 2, 2);
    assert_eq!((part.width(), part.height()), (2, 2));
    assert_eq!(
        part.as_raw(),
        &vec![20, 21, 22, 23, 24, 25, 26, 27, 36, 37, 38, 39, 40, 41, 42, 43]
    );
    let whole = image.crop(0, 0, 3, 2);
    assert_eq!(whole.as_raw(), image.as_raw());
}

#[test]
fn transparent_pixel_is_one_clear_pixel() {
    let pixel = RasterImage::transparent_pixel();
    assert_eq!((pixel.width(), pixel.height()), (1, 1));
    assert_eq!(pixel.as_raw(), &vec![0, 0, 0, 0]);
}

#[test]
fn channel_within_is_a_distance_test() {
    assert!(channel_within(100, 130, 30));
    assert!(!channel_within(99, 130, 30));
    assert!(channel_within(160, 130, 30));
    assert!(!channel_within(161, 130, 30));
    assert!(channel_within(0, 10, 30));
    assert!(channel_within(255, 250, 30));
    assert!(channel_within(7, 7, 0));
    assert!(!channel_within(8, 7, 0));
    assert!(channel_within(0, 255, 255));
}

#[test]
fn tolerance_zero_keys_exact_matches_only() {
    let data = vec![
        10, 20, 30, 255, 10, 20, 31, 255, 11, 20, 30, 7, 10, 20, 30, 0,
    ];
    let mut image = RasterImage::from_raw(2, 2, data).unwrap();
    image.key_out(Rgb { red: 10, green: 20, blue: 30 }, 0);
    assert_eq!(
        image.as_raw(),
        &vec![10, 20, 30, 0, 10, 20, 31, 255, 11, 20, 30, 255, 10, 20, 30, 0]
    );
}

#[test]
fn tolerance_255_keys_every_pixel() {
    let data = vec![0, 0, 0, 255, 255, 255, 255, 255, 1, 200, 77, 9, 90, 90, 90, 128];
    let mut image = RasterImage::from_raw(4, 1, data).unwrap();
    image.key_out(Rgb { red: 0, green: 255, blue: 128 }, 255);
    assert_eq!(
        image.as_raw(),
        &vec![0, 0, 0, 0, 255, 255, 255, 0, 1, 200, 77, 0, 90, 90, 90, 0]
    );
}

#[test]
fn tolerance_is_per_channel_and_inclusive() {
    let data = vec![
        130, 100, 100, 255, 131, 100, 100, 255, 70, 70, 70, 255, 100, 100, 69, 255,
    ];
    let mut image = RasterImage::from_raw(4, 1, data).unwrap();
    image.key_out(Rgb { red: 100, green: 100, blue: 100 }, 30);
    let alphas: Vec<u8> = image.as_raw().chunks(4).map(|p| p[3]).collect();
    assert_eq!(alphas, vec![0, 255, 0, 255]);
}

#[test]
fn dominant_colour_keys_with_the_standard_tolerance() {
    assert_eq!(TOLERANCE, 30);
    let background = DominantColor {
        color: Rgb { red: 200, green: 200, blue: 200 },
        score: Score { members: 3, total: 4 },
        average: 200,
        k: 3,
    };
    let mut image =
        RasterImage::from_raw(2, 1, vec![230, 170, 200, 255, 231, 200, 200, 255]).unwrap();
    background.remove_image_background(&mut image);
    assert_eq!(image.as_raw(), &vec![230, 170, 200, 0, 231, 200, 200, 255]);
}

#[test]
fn white_raster_keys_out_and_trims_to_sentinel() {
    let mut image = filled(100, 100, [255, 255, 255, 255]);
    image.key_out(Rgb { red: 255, green: 255, blue: 255 }, 30);
    assert!(image.as_raw().chunks(4).all(|p| p[3] == 0));
    let trimmed = trim_transparent_border(&image);
    assert_eq!((trimmed.width(), trimmed.height()), (1, 1));
    assert_eq!(trimmed.as_raw(), &vec![0, 0, 0, 0]);
}

#[test]
fn trim_crops_to_the_visible_pixels() {
    let image = with_square(40, 10, 30, [255, 0, 0, 0], [0, 0, 0, 255]);
    let trimmed = trim_transparent_border(&image);
    assert_eq!((trimmed.width(), trimmed.height()), (20, 20));
    assert!(trimmed.as_raw().chunks(4).all(|p| p == [0, 0, 0, 255]));
}

#[test]
fn trim_keeps_what_lies_between_visible_pixels() {
    let mut data = vec![0u8; 5 * 4 * 4];
    let mut put = |x: usize, y: usize, value: u8| {
        let at = (y * 5 + x) * 4;
        data[at] = value;
        data[at + 3] = 1;
    };
    put(1, 0, 11);
    put(3, 2, 33);
    let image = RasterImage::from_raw(5, 4, data).unwrap();
    let trimmed = trim_transparent_border(&image);
    assert_eq!((trimmed.width(), trimmed.height()), (3, 3));
    assert_eq!(trimmed.get_pixel(0, 0), Rgba { red: 11, green: 0, blue: 0, alpha: 1 });
    assert_eq!(trimmed.get_pixel(2, 2), Rgba { red: 33, green: 0, blue: 0, alpha: 1 });
    assert_eq!(trimmed.get_pixel(1, 1), Rgba { red: 0, green: 0, blue: 0, alpha: 0 });
}

#[test]
fn trim_twice_is_trim_once() {
    let image = with_square(40, 7, 19, [9, 9, 9, 0], [1, 2, 3, 200]);
    let once = trim_transparent_border(&image);
    let twice = trim_transparent_border(&once);
    assert_eq!((once.width(), once.height()), (twice.width(), twice.height()));
    assert_eq!(once.as_raw(), twice.as_raw());
    let clear = filled(6, 3, [5, 5, 5, 0]);
    let once = trim_transparent_border(&clear);
    let twice = trim_transparent_border(&once);
    assert_eq!(once.as_raw(), twice.as_raw());
    assert_eq!((twice.width(), twice.height()), (1, 1));
}

#[test]
fn trim_of_an_opaque_raster_changes_nothing() {
    let image = filled(3, 2, [1, 2, 3, 255]);
    let trimmed = trim_transparent_border(&image);
    assert_eq!((trimmed.width(), trimmed.height()), (3, 2));
    assert_eq!(trimmed.as_raw(), image.as_raw());
}

#[test]
fn trim_of_a_raster_without_pixels_is_the_sentinel() {
    let image = RasterImage::from_raw(0, 0, vec![]).unwrap();
    let trimmed = trim_transparent_border(&image);
    assert_eq!((trimmed.width(), trimmed.height()), (1, 1));
    assert_eq!(trimmed.as_raw(), &vec![0, 0, 0, 0]);
    let image = RasterImage::from_raw(0, 7, vec![]).unwrap();
    let trimmed = trim_transparent_border(&image);
    assert_eq!((trimmed.width(), trimmed.height()), (1, 1));
}

#[test]
fn visible_pixels_are_found() {
    assert!(!has_visible_pixel(&filled(4, 3, [9, 9, 9, 0])));
    assert!(has_visible_pixel(&filled(4, 3, [9, 9, 9, 1])));
    assert!(has_visible_pixel(&with_square(9, 8, 9, [0, 0, 0, 0], [0, 0, 0, 255])));
    assert!(!has_visible_pixel(&RasterImage::from_raw(0, 0, vec![]).unwrap()));
    assert!(!has_visible_pixel(&RasterImage::transparent_pixel()));
}
