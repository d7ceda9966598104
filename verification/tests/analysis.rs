use logo_loader::background_works::{
    analysis_size, brightness, cluster_count, dominant_from_clusters, AnalysisError,
    DominantColor, Score,
};
use logo_loader::raster::{RasterImage, Rgb};

fn filled(width: u32, height: u32, pixel: [u8; 4]) -> RasterImage {
    let mut data = Vec::new();
    for _ in 0..(width as usize * height as usize) {
        data.extend_from_slice(&pixel);
    }
    RasterImage::from_raw(width, height, data).unwrap()
}

fn with_square(size: u32, from: u32, to: u32, back: [u8; 4], front: [u8; 4]) -> RasterImage {
    let mut data = Vec::new();
    for y in 0..size {
        for x in 0..size {
            let inside = from <= x && x < to && from <= y && y < to;
            data.extend_from_slice(if inside { &front } else { &back });
        }
    }
    RasterImage::from_raw(size, size, data).unwrap()
}

fn near(a: u8, b: u8) -> bool {
    (a as i32 - b as i32).abs() <= 1
}

#[test]
fn cluster_count_grows_with_the_pixels() {
    assert_eq!(cluster_count(0), 3);
    assert_eq!(cluster_count(4999), 3);
    assert_eq!(cluster_count(5000), 4);
    assert_eq!(cluster_count(9999), 4);
    assert_eq!(cluster_count(10000), 5);
    assert_eq!(cluster_count(24999), 7);
    assert_eq!(cluster_count(25000), 8);
    assert_eq!(cluster_count(90000), 8);
    assert_eq!(cluster_count(usize::MAX), 8);
}

#[test]
fn analysis_size_caps_the_longer_side() {
    assert_eq!(analysis_size(300, 300), (300, 300));
    assert_eq!(analysis_size(40, 40), (40, 40));
    assert_eq!(analysis_size(600, 300), (300, 150));
    assert_eq!(analysis_size(301, 300), (300, 299));
    assert_eq!(analysis_size(300, 301), (299, 300));
    assert_eq!(analysis_size(1000, 1), (300, 1));
    assert_eq!(analysis_size(1, 1000), (1, 300));
    assert_eq!(analysis_size(301, 1000), (90, 300));
    assert_eq!(analysis_size(1200, 900), (300, 225));
    assert_eq!(analysis_size(u32::MAX, u32::MAX), (300, 300));
    assert_eq!(analysis_size(u32::MAX, 1), (300, 1));
    assert_eq!(analysis_size(0, 0), (0, 0));
}

#[test]
fn brightness_is_the_rounded_mean() {
    assert_eq!(brightness(Rgb { red: 0, green: 0, blue: 0 }), 0);
    assert_eq!(brightness(Rgb { red: 255, green: 255, blue: 255 }), 255);
    assert_eq!(brightness(Rgb { red: 0, green: 0, blue: 1 }), 0);
    assert_eq!(brightness(Rgb { red: 0, green: 1, blue: 1 }), 1);
    assert_eq!(brightness(Rgb { red: 255, green: 255, blue: 254 }), 255);
    assert_eq!(brightness(Rgb { red: 255, green: 254, blue: 254 }), 254);
    assert_eq!(brightness(Rgb { red: 238, green: 237, blue: 241 }), 239);
    assert_eq!(brightness(Rgb { red: 250, green: 250, blue: 251 }), 250);
}

#[test]
fn score_compares_exactly() {
    let half = Score { members: 5, total: 10 };
    assert!(!half.is_confident());
    assert!(!half.is_doubtful());
    assert_eq!(half.percent(), 50);
    let more = Score { members: 6, total: 11 };
    assert!(more.is_confident());
    assert!(!more.is_doubtful());
    assert_eq!(more.percent(), 54);
    let less = Score { members: 5, total: 11 };
    assert!(!less.is_confident());
    assert!(less.is_doubtful());
    assert_eq!(less.percent(), 45);
    assert!(more.exceeds(1, 2));
    assert!(!more.exceeds(6, 11));
    assert!(more.exceeds(5, 11));
    let whole = Score { members: u64::MAX, total: u64::MAX };
    assert!(whole.is_confident());
    assert_eq!(whole.percent(), 100);
    assert!(whole.exceeds(u64::MAX - 1, u64::MAX));
    let nothing = Score { members: 0, total: 0 };
    assert!(!nothing.is_confident());
    assert!(!nothing.is_doubtful());
    assert_eq!(nothing.percent(), 0);
    assert_eq!(Score { members: 29, total: 100 }.percent(), 29);
}

#[test]
fn dominant_cluster_is_the_most_populous() {
    let centroids = vec![
        Rgb { red: 1, green: 1, blue: 1 },
        Rgb { red: 200, green: 100, blue: 0 },
        Rgb { red: 9, green: 9, blue: 9 },
    ];
    let indices = vec![1, 0, 1, 2, 1, 1, 0];
    let found = dominant_from_clusters(&centroids, &indices, 5).unwrap();
    assert_eq!(
        found,
        DominantColor {
            color: Rgb { red: 200, green: 100, blue: 0 },
            score: Score { members: 4, total: 7 },
            average: 100,
            k: 5,
        }
    );
}

#[test]
fn dominant_cluster_tie_goes_to_the_earlier() {
    let centroids = vec![
        Rgb { red: 10, green: 10, blue: 10 },
        Rgb { red: 20, green: 20, blue: 20 },
        Rgb { red: 30, green: 30, blue: 30 },
    ];
    let found = dominant_from_clusters(&centroids, &vec![2, 1, 1, 2, 0], 3).unwrap();
    assert_eq!(found.color, Rgb { red: 20, green: 20, blue: 20 });
    assert_eq!(found.score, Score { members: 2, total: 5 });
}

#[test]
fn dominant_cluster_ignores_assignments_to_no_cluster() {
    let centroids = vec![Rgb { red: 10, green: 10, blue: 10 }];
    let found = dominant_from_clusters(&centroids, &vec![7, 7, 0, 7], 3).unwrap();
    assert_eq!(found.score, Score { members: 1, total: 4 });
}

#[test]
fn single_cluster_has_the_full_score() {
    let centroids = vec![
        Rgb { red: 10, green: 10, blue: 10 },
        Rgb { red: 77, green: 88, blue: 99 },
    ];
    let found = dominant_from_clusters(&centroids, &vec![1; 12], 3).unwrap();
    assert_eq!(found.color, Rgb { red: 77, green: 88, blue: 99 });
    assert_eq!(found.score, Score { members: 12, total: 12 });
    assert_eq!(found.average, 88);
}

#[test]
fn dominant_cluster_errors() {
    let centroids = vec![Rgb { red: 10, green: 10, blue: 10 }];
    assert_eq!(dominant_from_clusters(&centroids, &vec![], 3), Err(AnalysisError::Empty));
    assert_eq!(dominant_from_clusters(&vec![], &vec![0, 0], 3), Err(AnalysisError::NoClusters));
    assert_eq!(dominant_from_clusters(&vec![], &vec![], 3), Err(AnalysisError::Empty));
    assert_eq!(AnalysisError::Empty.message(), "the raster has no pixels");
    assert_eq!(AnalysisError::NoClusters.message(), "no clusters found");
    assert_eq!(AnalysisError::TooLarge.message(), "the raster is too large to sample");
}

#[test]
fn white_background_has_no_clusters() {
    let white = DominantColor::white();
    assert_eq!(white.color, Rgb { red: 255, green: 255, blue: 255 });
    assert_eq!(white.score, Score { members: 1, total: 1 });
    assert_eq!(white.average, 255);
    assert_eq!(white.k, 0);
}

#[test]
fn raster_without_pixels_has_no_dominant_colour() {
    let image = RasterImage::from_raw(0, 0, vec![]).unwrap();
    assert_eq!(DominantColor::from_rgb_image(&image), Err(AnalysisError::Empty));
    let image = RasterImage::from_raw(5, 0, vec![]).unwrap();
    assert_eq!(DominantColor::from_rgb_image(&image), Err(AnalysisError::Empty));
}

#[test]
fn uniform_raster_gives_its_colour_with_full_score() {
    for (size, k) in [(10u32, 3usize), (80, 4), (200, 8)] {
        let image = filled(size, size, [40, 120, 200, 255]);
        let found = DominantColor::from_rgb_image(&image).unwrap();
        assert!(near(found.color.red, 40), "red {}", found.color.red);
        assert!(near(found.color.green, 120), "green {}", found.color.green);
        assert!(near(found.color.blue, 200), "blue {}", found.color.blue);
        assert_eq!(found.score.members, found.score.total);
        assert!(found.score.exceeds(999, 1000));
        assert_eq!(found.score.total, (size * size) as u64);
        assert_eq!(found.k, k);
        assert_eq!(found.average, brightness(found.color));
    }
}

#[test]
fn red_background_dominates_a_black_square() {
    let image = with_square(40, 10, 30, [255, 0, 0, 255], [0, 0, 0, 255]);
    let found = DominantColor::from_rgb_image(&image).unwrap();
    assert!(found.score.is_confident());
    assert_eq!(found.score, Score { members: 1200, total: 1600 });
    assert!(near(found.color.red, 255) && near(found.color.green, 0) && near(found.color.blue, 0));
    assert_eq!(found.k, 3);
    assert_eq!(found.score.percent(), 75);
}

#[test]
fn large_raster_is_sampled_down_before_clustering() {
    let image = filled(640, 320, [10, 200, 30, 255]);
    let found = DominantColor::from_rgb_image(&image).unwrap();
    assert_eq!(found.score.total, 300 * 150);
    assert_eq!(found.score.members, 300 * 150);
    assert_eq!(found.k, 8);
    assert!(near(found.color.green, 200));
}

#[test]
fn analysis_is_repeatable() {
    let image = with_square(60, 5, 50, [250, 250, 250, 255], [30, 60, 90, 255]);
    let first = DominantColor::from_rgb_image(&image).unwrap();
    let second = DominantColor::from_rgb_image(&image).unwrap();
    assert_eq!(first, second);
    assert!(first.score.members >= 1);
    assert!(first.score.members * first.k as u64 >= first.score.total);
}
