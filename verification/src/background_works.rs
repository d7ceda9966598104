//! Finding a logo's background colour, keying it out and trimming what is left.

use crate::raster::{
    lemma_crop_wf, lemma_raster_ext, within_tolerance, RasterImage, RasterView, Rgb, Rgba,
};
use vstd::prelude::*;

verus! {

/// The pixel of the 1 by 1 raster that stands for "nothing visible".
pub open spec fn clear_pixel() -> Rgba {
    Rgba { red: 0, green: 0, blue: 0, alpha: 0 }
}

impl RasterView {
    /// Whether `(x, y)` is a pixel of the raster that is not fully transparent.
    pub open spec fn opaque_at(self, x: int, y: int) -> bool {
        self.contains(x, y) && self.at(x, y).alpha != 0
    }

    /// Whether any pixel is not fully transparent.
    pub open spec fn has_opaque(self) -> bool {
        exists|x: int, y: int| self.opaque_at(x, y)
    }

    /// Whether columns `left..=right` and rows `top..=bottom` form the smallest rectangle
    /// that holds every pixel that is not fully transparent.
    pub open spec fn is_bounding_box(self, left: int, top: int, right: int, bottom: int) -> bool {
        &&& 0 <= left <= right < self.width
        &&& 0 <= top <= bottom < self.height
        &&& forall|x: int, y: int| #[trigger]
            self.opaque_at(x, y) ==> left <= x <= right && top <= y <= bottom
        &&& exists|y: int| self.opaque_at(left, y)
        &&& exists|y: int| self.opaque_at(right, y)
        &&& exists|x: int| self.opaque_at(x, top)
        &&& exists|x: int| self.opaque_at(x, bottom)
    }

    /// The raster cropped to the bounding box of its visible pixels, or the 1 by 1
    /// transparent raster when nothing is visible.
    pub open spec fn trimmed(self) -> RasterView {
        if self.has_opaque() {
            let (left, top, right, bottom) = choose|left: int, top: int, right: int, bottom: int|
                self.is_bounding_box(left, top, right, bottom);
            self.crop(left, top, right, bottom)
        } else {
            RasterView::filled(1, 1, clear_pixel())
        }
    }
}

/// A raster has at most one bounding box.
pub proof fn lemma_bounding_box_unique(
    v: RasterView,
    l1: int,
    t1: int,
    r1: int,
    b1: int,
    l2: int,
    t2: int,
    r2: int,
    b2: int,
)
    requires
        v.is_bounding_box(l1, t1, r1, b1),
        v.is_bounding_box(l2, t2, r2, b2),
    ensures
        l1 == l2,
        t1 == t2,
        r1 == r2,
        b1 == b2,
{
    let y1 = choose|y: int| v.opaque_at(l1, y);
    let y2 = choose|y: int| v.opaque_at(l2, y);
    assert(v.opaque_at(l1, y1) && v.opaque_at(l2, y2));
    let y3 = choose|y: int| v.opaque_at(r1, y);
    let y4 = choose|y: int| v.opaque_at(r2, y);
    assert(v.opaque_at(r1, y3) && v.opaque_at(r2, y4));
    let x1 = choose|x: int| v.opaque_at(x, t1);
    let x2 = choose|x: int| v.opaque_at(x, t2);
    assert(v.opaque_at(x1, t1) && v.opaque_at(x2, t2));
    let x3 = choose|x: int| v.opaque_at(x, b1);
    let x4 = choose|x: int| v.opaque_at(x, b2);
    assert(v.opaque_at(x3, b1) && v.opaque_at(x4, b2));
}

/// Trimming a raster with a bounding box crops it to that box.
pub proof fn lemma_trimmed_is_crop(v: RasterView, left: int, top: int, right: int, bottom: int)
    requires
        v.is_bounding_box(left, top, right, bottom),
    ensures
        v.has_opaque(),
        v.trimmed() == v.crop(left, top, right, bottom),
{
    let y = choose|y: int| v.opaque_at(left, y);
    assert(v.opaque_at(left, y));
    let (l, t, r, b) = choose|l: int, t: int, r: int, b: int| v.is_bounding_box(l, t, r, b);
    lemma_bounding_box_unique(v, left, top, right, bottom, l, t, r, b);
}

/// Trimming never leaves an empty raster, and never grows one that shows something.
pub proof fn lemma_trimmed_size(v: RasterView)
    ensures
        v.trimmed().wf(),
        v.trimmed().width >= 1,
        v.trimmed().height >= 1,
        v.has_opaque() ==> v.trimmed().width <= v.width && v.trimmed().height <= v.height,
{
    if v.has_opaque() {
        let (x, y) = choose|x: int, y: int| v.opaque_at(x, y);
        lemma_bounding_box_exists(v);
        let (l, t, r, b) = choose|l: int, t: int, r: int, b: int| v.is_bounding_box(l, t, r, b);
        lemma_crop_wf(v, l, t, r, b);
    } else {
        assert(RasterView::filled(1, 1, clear_pixel()).wf());
    }
}

/// The least column at or after `from` that holds a visible pixel, `v.width` when none does.
spec fn first_column(v: RasterView, from: int) -> int
    decreases v.width - from,
{
    if from >= v.width {
        v.width as int
    } else if exists|y: int| v.opaque_at(from, y) {
        from
    } else {
        first_column(v, from + 1)
    }
}

/// The greatest column at or before `from` that holds a visible pixel, `-1` when none does.
spec fn last_column(v: RasterView, from: int) -> int
    decreases from + 1,
{
    if from < 0 {
        -1
    } else if exists|y: int| v.opaque_at(from, y) {
        from
    } else {
        last_column(v, from - 1)
    }
}

/// The least row at or after `from` that holds a visible pixel, `v.height` when none does.
spec fn first_row(v: RasterView, from: int) -> int
    decreases v.height - from,
{
    if from >= v.height {
        v.height as int
    } else if exists|x: int| v.opaque_at(x, from) {
        from
    } else {
        first_row(v, from + 1)
    }
}

/// The greatest row at or before `from` that holds a visible pixel, `-1` when none does.
spec fn last_row(v: RasterView, from: int) -> int
    decreases from + 1,
{
    if from < 0 {
        -1
    } else if exists|x: int| v.opaque_at(x, from) {
        from
    } else {
        last_row(v, from - 1)
    }
}

proof fn lemma_first_column(v: RasterView, from: int, x: int, y: int)
    requires
        0 <= from <= x,
        v.opaque_at(x, y),
    ensures
        from <= first_column(v, from) <= x,
        exists|yy: int| v.opaque_at(first_column(v, from), yy),
        forall|xx: int, yy: int| from <= xx && #[trigger] v.opaque_at(xx, yy) ==> first_column(v, from) <= xx,
    decreases x - from,
{
    if exists|yy: int| v.opaque_at(from, yy) {
    } else {
        assert(from < x) by {
            if from == x {
                assert(v.opaque_at(from, y));
            }
        }
        lemma_first_column(v, from + 1, x, y);
        assert forall|xx: int, yy: int| from <= xx && #[trigger] v.opaque_at(xx, yy) implies first_column(v, from) <= xx by {
            if xx == from {
                assert(v.opaque_at(from, yy));
            }
        }
    }
}

proof fn lemma_last_column(v: RasterView, from: int, x: int, y: int)
    requires
        x <= from < v.width,
        v.opaque_at(x, y),
    ensures
        x <= last_column(v, from) <= from,
        exists|yy: int| v.opaque_at(last_column(v, from), yy),
        forall|xx: int, yy: int| xx <= from && #[trigger] v.opaque_at(xx, yy) ==> xx <= last_column(v, from),
    decreases from - x,
{
    if exists|yy: int| v.opaque_at(from, yy) {
    } else {
        assert(x < from) by {
            if from == x {
                assert(v.opaque_at(from, y));
            }
        }
        lemma_last_column(v, from - 1, x, y);
        assert forall|xx: int, yy: int| xx <= from && #[trigger] v.opaque_at(xx, yy) implies xx <= last_column(v, from) by {
            if xx == from {
                assert(v.opaque_at(from, yy));
            }
        }
    }
}

proof fn lemma_first_row(v: RasterView, from: int, x: int, y: int)
    requires
        0 <= from <= y,
        v.opaque_at(x, y),
    ensures
        from <= first_row(v, from) <= y,
        exists|xx: int| v.opaque_at(xx, first_row(v, from)),
        forall|xx: int, yy: int| from <= yy && #[trigger] v.opaque_at(xx, yy) ==> first_row(v, from) <= yy,
    decreases y - from,
{
    if exists|xx: int| v.opaque_at(xx, from) {
    } else {
        assert(from < y) by {
            if from == y {
                assert(v.opaque_at(x, from));
            }
        }
        lemma_first_row(v, from + 1, x, y);
        assert forall|xx: int, yy: int| from <= yy && #[trigger] v.opaque_at(xx, yy) implies first_row(v, from) <= yy by {
            if yy == from {
                assert(v.opaque_at(xx, from));
            }
        }
    }
}

proof fn lemma_last_row(v: RasterView, from: int, x: int, y: int)
    requires
        y <= from < v.height,
        v.opaque_at(x, y),
    ensures
        y <= last_row(v, from) <= from,
        exists|xx: int| v.opaque_at(xx, last_row(v, from)),
        forall|xx: int, yy: int| yy <= from && #[trigger] v.opaque_at(xx, yy) ==> yy <= last_row(v, from),
    decreases from - y,
{
    if exists|xx: int| v.opaque_at(xx, from) {
    } else {
        assert(y < from) by {
            if from == y {
                assert(v.opaque_at(x, from));
            }
        }
        lemma_last_row(v, from - 1, x, y);
        assert forall|xx: int, yy: int| yy <= from && #[trigger] v.opaque_at(xx, yy) implies yy <= last_row(v, from) by {
            if yy == from {
                assert(v.opaque_at(xx, from));
            }
        }
    }
}

/// A raster that shows anything has a bounding box.
pub proof fn lemma_bounding_box_exists(v: RasterView)
    requires
        v.has_opaque(),
    ensures
        exists|l: int, t: int, r: int, b: int| v.is_bounding_box(l, t, r, b),
{
    let (x, y) = choose|x: int, y: int| v.opaque_at(x, y);
    lemma_first_column(v, 0, x, y);
    lemma_last_column(v, v.width - 1, x, y);
    lemma_first_row(v, 0, x, y);
    lemma_last_row(v, v.height - 1, x, y);
    let l = first_column(v, 0);
    let r = last_column(v, v.width - 1);
    let t = first_row(v, 0);
    let b = last_row(v, v.height - 1);
    assert(v.is_bounding_box(l, t, r, b));
}

/// Trimming twice gives what trimming once gives.
pub proof fn lemma_trim_idempotent(v: RasterView)
    requires
        v.wf(),
    ensures
        v.trimmed().trimmed() == v.trimmed(),
{
    if v.has_opaque() {
        lemma_bounding_box_exists(v);
        let (l, t, r, b) = choose|l: int, t: int, r: int, b: int| v.is_bounding_box(l, t, r, b);
        let c = v.crop(l, t, r, b);
        lemma_crop_wf(v, l, t, r, b);
        let yl = choose|y: int| v.opaque_at(l, y);
        let yr = choose|y: int| v.opaque_at(r, y);
        let xt = choose|x: int| v.opaque_at(x, t);
        let xb = choose|x: int| v.opaque_at(x, b);
        assert(v.opaque_at(l, yl) && v.opaque_at(r, yr) && v.opaque_at(xt, t) && v.opaque_at(xb, b));
        assert(c.opaque_at(0, yl - t));
        assert(c.opaque_at(r - l, yr - t));
        assert(c.opaque_at(xt - l, 0));
        assert(c.opaque_at(xb - l, b - t));
        assert(c.is_bounding_box(0, 0, r - l, b - t));
        lemma_trimmed_is_crop(c, 0, 0, r - l, b - t);
        lemma_crop_wf(c, 0, 0, r - l, b - t);
        lemma_raster_ext(c.crop(0, 0, r - l, b - t), c);
    } else {
        let s = RasterView::filled(1, 1, clear_pixel());
        assert(!s.has_opaque()) by {
            assert forall|x: int, y: int| !s.opaque_at(x, y) by {}
        }
    }
}

/// Keying a raster of which every pixel is within the tolerance of the reference leaves
/// nothing visible, and trimming what is left gives the 1 by 1 transparent raster.
pub proof fn lemma_keyed_to_nothing(v: RasterView, reference: Rgb, tolerance: u8)
    requires
        v.wf(),
        forall|x: int, y: int| #[trigger]
            v.contains(x, y) ==> within_tolerance(v.at(x, y), reference, tolerance),
    ensures
        !v.keyed(reference, tolerance).has_opaque(),
        v.keyed(reference, tolerance).trimmed() == RasterView::filled(1, 1, clear_pixel()),
{
    let k = v.keyed(reference, tolerance);
    assert forall|x: int, y: int| !k.opaque_at(x, y) by {
        if k.contains(x, y) {
            assert(v.contains(x, y));
        }
    }
}

/// Whether a raster shows anything: whether any pixel is not fully transparent.
pub fn has_visible_pixel(image: &RasterImage) -> (visible: bool)
    ensures
        visible == image@.has_opaque(),
{
    let width = image.width();
    let height = image.height();
    let ghost v = image@;
    let mut y: u32 = 0;
    while y < height
        invariant
            v == image@,
            width == v.width,
            height == v.height,
            y <= height,
            forall|xx: int, yy: int| yy < y ==> !#[trigger] v.opaque_at(xx, yy),
        decreases height - y,
    {
        let mut x: u32 = 0;
        while x < width
            invariant
                v == image@,
                width == v.width,
                height == v.height,
                y < height,
                x <= width,
                forall|xx: int, yy: int|
                    (yy < y || (yy == y && xx < x)) ==> !#[trigger] v.opaque_at(xx, yy),
            decreases width - x,
        {
            if image.get_pixel(x, y).alpha != 0 {
                assert(v.opaque_at(x as int, y as int));
                return true;
            }
            x = x + 1;
        }
        y = y + 1;
    }
    assert(!v.has_opaque()) by {
        assert forall|xx: int, yy: int| !v.opaque_at(xx, yy) by {}
    }
    false
}

/// Crops a raster to the bounding box of the pixels that are not fully transparent.
/// A raster that shows nothing becomes the 1 by 1 transparent raster.
pub fn trim_transparent_border(image: &RasterImage) -> (out: RasterImage)
    ensures
        out@ == image@.trimmed(),
        !image@.has_opaque() ==> out@ == RasterView::filled(1, 1, clear_pixel()),
        out@.width >= 1,
        out@.height >= 1,
{
    let width = image.width();
    let height = image.height();
    let ghost v = image@;
    let mut found = false;
    let mut min_x: u32 = width;
    let mut max_x: u32 = 0;
    let mut min_y: u32 = height;
    let mut max_y: u32 = 0;
    let ghost mut at_left: int = 0;
    let ghost mut at_right: int = 0;
    let ghost mut at_top: int = 0;
    let ghost mut at_bottom: int = 0;
    let mut y: u32 = 0;
    while y < height
        invariant
            v == image@,
            width == v.width,
            height == v.height,
            y <= height,
            !found ==> forall|xx: int, yy: int| yy < y ==> !#[trigger] v.opaque_at(xx, yy),
            found ==> min_x <= max_x < width && min_y <= max_y < height,
            found ==> forall|xx: int, yy: int|
                yy < y && #[trigger] v.opaque_at(xx, yy) ==> min_x <= xx <= max_x && min_y <= yy
                    <= max_y,
            found ==> v.opaque_at(min_x as int, at_left) && v.opaque_at(max_x as int, at_right)
                && v.opaque_at(at_top, min_y as int) && v.opaque_at(at_bottom, max_y as int),
        decreases height - y,
    {
        let mut x: u32 = 0;
        while x < width
            invariant
                v == image@,
                width == v.width,
                height == v.height,
                y < height,
                x <= width,
                !found ==> forall|xx: int, yy: int|
                    (yy < y || (yy == y && xx < x)) ==> !#[trigger] v.opaque_at(xx, yy),
                found ==> min_x <= max_x < width && min_y <= max_y < height,
                found ==> forall|xx: int, yy: int|
                    (yy < y || (yy == y && xx < x)) && #[trigger] v.opaque_at(xx, yy) ==> min_x
                        <= xx <= max_x && min_y <= yy <= max_y,
                found ==> v.opaque_at(min_x as int, at_left) && v.opaque_at(
                    max_x as int,
                    at_right,
                ) && v.opaque_at(at_top, min_y as int) && v.opaque_at(at_bottom, max_y as int),
            decreases width - x,
        {
            let pixel = image.get_pixel(x, y);
            if pixel.alpha != 0 {
                assert(v.opaque_at(x as int, y as int));
                if !found || x < min_x {
                    min_x = x;
                    proof {
                        at_left = y as int;
                    }
                }
                if !found || x > max_x {
                    max_x = x;
                    proof {
                        at_right = y as int;
                    }
                }
                if !found || y < min_y {
                    min_y = y;
                    proof {
                        at_top = x as int;
                    }
                }
                if !found || y > max_y {
                    max_y = y;
                    proof {
                        at_bottom = x as int;
                    }
                }
                found = true;
            }
            x = x + 1;
        }
        y = y + 1;
    }
    proof {
        lemma_trimmed_size(v);
    }
    if !found {
        proof {
            assert(!v.has_opaque()) by {
                assert forall|xx: int, yy: int| !v.opaque_at(xx, yy) by {}
            }
        }
        RasterImage::transparent_pixel()
    } else {
        proof {
            assert(v.is_bounding_box(min_x as int, min_y as int, max_x as int, max_y as int));
            lemma_trimmed_is_crop(v, min_x as int, min_y as int, max_x as int, max_y as int);
        }
        image.crop(min_x, min_y, max_x, max_y)
    }
}

/// The longest side, in pixels, of the raster that is clustered.
pub const MAX_SIDE: u32 = 300;

/// The number of clusters for the smallest rasters.
pub const BASE_CLUSTERS: usize = 3;

/// The number of pixels for which one more cluster is used.
pub const PIXELS_PER_CLUSTER: usize = 5000;

/// The greatest number of clusters.
pub const MAX_CLUSTERS: usize = 8;

/// The greatest number of rounds of the clustering.
pub const MAX_ITERATIONS: usize = 100;

/// The movement of the centroids, in L*a*b* units, below which the clustering stops.
pub const CONVERGENCE: u8 = 1;

/// The seed of the clustering's random choices.
pub const CLUSTER_SEED: u64 = 0;

/// The tolerance per channel with which the dominant colour is keyed out.
pub const TOLERANCE: u8 = 30;

/// The size at which a `width` by `height` raster is clustered: unchanged when no side
/// exceeds `MAX_SIDE`, else scaled so that the longer side is `MAX_SIDE` and the shorter
/// keeps the proportion, rounded down but at least 1.
pub open spec fn analysis_size_of(width: int, height: int) -> (int, int) {
    if width <= MAX_SIDE && height <= MAX_SIDE {
        (width, height)
    } else if width >= height {
        (MAX_SIDE as int, if height * MAX_SIDE / width >= 1 {
            height * MAX_SIDE / width
        } else {
            1
        })
    } else {
        (if width * MAX_SIDE / height >= 1 {
            width * MAX_SIDE / height
        } else {
            1
        }, MAX_SIDE as int)
    }
}

/// The size at which a raster of the given size is clustered.
pub fn analysis_size(width: u32, height: u32) -> (size: (u32, u32))
    ensures
        (size.0 as int, size.1 as int) == analysis_size_of(width as int, height as int),
        size.0 <= width || width == 0,
        size.1 <= height || height == 0,
        size.0 <= MAX_SIDE || size.0 == width,
        width > 0 && height > 0 ==> 1 <= size.0 <= MAX_SIDE && 1 <= size.1 <= MAX_SIDE,
{
    if width <= MAX_SIDE && height <= MAX_SIDE {
        (width, height)
    } else if width >= height {
        assert(height * MAX_SIDE <= 0xffff_ffff * 300) by (nonlinear_arith)
            requires
                height <= 0xffff_ffff,
                MAX_SIDE == 300,
        ;
        let scaled: u64 = (height as u64) * (MAX_SIDE as u64) / (width as u64);
        assert(scaled <= MAX_SIDE && scaled <= height) by (nonlinear_arith)
            requires
                scaled == (height as int) * 300 / (width as int),
                0 <= height <= width,
                width > 300,
        ;
        (MAX_SIDE, if scaled >= 1 {
            scaled as u32
        } else {
            1
        })
    } else {
        assert(width * MAX_SIDE <= 0xffff_ffff * 300) by (nonlinear_arith)
            requires
                width <= 0xffff_ffff,
                MAX_SIDE == 300,
        ;
        let scaled: u64 = (width as u64) * (MAX_SIDE as u64) / (height as u64);
        assert(scaled <= MAX_SIDE && scaled <= width) by (nonlinear_arith)
            requires
                scaled == (width as int) * 300 / (height as int),
                0 <= width < height,
                height > 300,
        ;
        (if scaled >= 1 {
            scaled as u32
        } else {
            1
        }, MAX_SIDE)
    }
}

/// The number of clusters for a raster of `pixels` pixels: `BASE_CLUSTERS`, and one more
/// for every `PIXELS_PER_CLUSTER` pixels, up to `MAX_CLUSTERS`.
pub open spec fn cluster_count_of(pixels: int) -> int {
    if BASE_CLUSTERS + pixels / (PIXELS_PER_CLUSTER as int) <= MAX_CLUSTERS {
        BASE_CLUSTERS + pixels / (PIXELS_PER_CLUSTER as int)
    } else {
        MAX_CLUSTERS as int
    }
}

/// The number of clusters for a raster of `pixels` pixels.
pub fn cluster_count(pixels: usize) -> (k: usize)
    ensures
        k == cluster_count_of(pixels as int),
        BASE_CLUSTERS <= k <= MAX_CLUSTERS,
{
    let extra = pixels / PIXELS_PER_CLUSTER;
    if extra <= MAX_CLUSTERS - BASE_CLUSTERS {
        BASE_CLUSTERS + extra
    } else {
        MAX_CLUSTERS
    }
}

/// The brightness of a colour: the mean of its three channels, rounded to the nearest
/// integer.
pub open spec fn brightness_of(color: Rgb) -> int {
    (color.red + color.green + color.blue + 1) / 3
}

/// The brightness of a colour.
pub fn brightness(color: Rgb) -> (b: u8)
    ensures
        b == brightness_of(color),
        3 * b - 1 <= color.red + color.green + color.blue <= 3 * b + 1,
{
    let sum: u16 = color.red as u16 + color.green as u16 + color.blue as u16;
    ((sum + 1) / 3) as u8
}

/// The share of a raster's pixels that one cluster holds, kept as an exact fraction.
#[derive(Clone, Copy, Debug, PartialEq, Eq, Structural)]
pub struct Score {
    pub members: u64,
    pub total: u64,
}

impl Score {
    /// Whether the share is greater than `numerator / denominator`.
    pub open spec fn exceeds_spec(self, numerator: u64, denominator: u64) -> bool {
        self.members * denominator > numerator * self.total
    }

    /// Whether the share is greater than `numerator / denominator`.
    pub fn exceeds(&self, numerator: u64, denominator: u64) -> (above: bool)
        ensures
            above == self.exceeds_spec(numerator, denominator),
    {
        assert(self.members * denominator <= 0xffff_ffff_ffff_ffff * 0xffff_ffff_ffff_ffff)
            by (nonlinear_arith)
            requires
                self.members <= 0xffff_ffff_ffff_ffff,
                denominator <= 0xffff_ffff_ffff_ffff,
        ;
        assert(numerator * self.total <= 0xffff_ffff_ffff_ffff * 0xffff_ffff_ffff_ffff)
            by (nonlinear_arith)
            requires
                self.total <= 0xffff_ffff_ffff_ffff,
                numerator <= 0xffff_ffff_ffff_ffff,
        ;
        (self.members as u128) * (denominator as u128) > (numerator as u128) * (self.total as u128)
    }

    /// Whether the share is more than half: the confidence that keying asks for.
    pub open spec fn is_confident_spec(self) -> bool {
        2 * self.members > self.total
    }

    /// Whether the share is more than half.
    pub fn is_confident(&self) -> (confident: bool)
        ensures
            confident == self.is_confident_spec(),
    {
        self.members as u128 * 2 > self.total as u128
    }

    /// Whether the share is less than half.
    pub open spec fn is_doubtful_spec(self) -> bool {
        2 * self.members < self.total
    }

    /// Whether the share is less than half.
    pub fn is_doubtful(&self) -> (doubtful: bool)
        ensures
            doubtful == self.is_doubtful_spec(),
    {
        (self.members as u128 * 2) < self.total as u128
    }

    /// The share in whole percent, rounded down: 0 for a share of nothing, 100 for a
    /// share that is no proper part.
    pub open spec fn percent_of(self) -> int {
        if self.total == 0 {
            0
        } else if self.members >= self.total {
            100
        } else {
            self.members * 100 / (self.total as int)
        }
    }

    /// The share in whole percent, rounded down.
    pub fn percent(&self) -> (p: u8)
        ensures
            p == self.percent_of(),
            p <= 100,
    {
        if self.total == 0 {
            0
        } else if self.members >= self.total {
            100
        } else {
            let scaled: u128 = self.members as u128 * 100;
            let p: u128 = scaled / (self.total as u128);
            assert(p < 100) by (nonlinear_arith)
                requires
                    p == scaled / (self.total as u128),
                    scaled == self.members * 100,
                    self.members < self.total,
            ;
            p as u8
        }
    }
}

/// Why a raster has no dominant colour.
#[derive(Clone, Copy, Debug, PartialEq, Eq, Structural)]
pub enum AnalysisError {
    /// The raster has no pixels.
    Empty,
    /// The clustering found no cluster.
    NoClusters,
    /// The raster is too wide or too tall for the sampling buffers of this machine.
    TooLarge,
}

impl AnalysisError {
    /// The error in words.
    pub fn message(&self) -> (text: String)
        ensures
            text@ == match *self {
                AnalysisError::Empty => "the raster has no pixels"@,
                AnalysisError::NoClusters => "no clusters found"@,
                AnalysisError::TooLarge => "the raster is too large to sample"@,
            },
    {
        match self {
            AnalysisError::Empty => String::from_str("the raster has no pixels"),
            AnalysisError::NoClusters => String::from_str("no clusters found"),
            AnalysisError::TooLarge => String::from_str("the raster is too large to sample"),
        }
    }
}

/// The most populous colour cluster of a raster.
#[derive(Clone, Copy, Debug, PartialEq, Eq, Structural)]
pub struct DominantColor {
    /// The colour of the cluster's centroid.
    pub color: Rgb,
    /// The share of the clustered pixels that the cluster holds.
    pub score: Score,
    /// The brightness of `color`.
    pub average: u8,
    /// The number of clusters that was asked for.
    pub k: usize,
}

/// How many of the assigned pixels belong to `cluster`.
pub open spec fn members_of(indices: Seq<u8>, cluster: int) -> nat
    decreases indices.len(),
{
    if indices.len() == 0 {
        0
    } else {
        members_of(indices.drop_last(), cluster) + if indices.last() == cluster {
            1nat
        } else {
            0nat
        }
    }
}

/// Whether `best` is the dominant one of `clusters` clusters: no cluster has more
/// members, and every cluster before it has fewer.
pub open spec fn is_dominant(indices: Seq<u8>, clusters: int, best: int) -> bool {
    &&& 0 <= best < clusters
    &&& forall|c: int| 0 <= c < clusters ==> members_of(indices, c) <= members_of(indices, best)
    &&& forall|c: int| 0 <= c < best ==> members_of(indices, c) < members_of(indices, best)
}

/// The dominant one of `clusters` clusters.
pub open spec fn dominant_cluster(indices: Seq<u8>, clusters: int) -> int {
    choose|best: int| is_dominant(indices, clusters, best)
}

/// At most one cluster is dominant.
pub proof fn lemma_dominant_unique(indices: Seq<u8>, clusters: int, a: int, b: int)
    requires
        is_dominant(indices, clusters, a),
        is_dominant(indices, clusters, b),
    ensures
        a == b,
{
    if a < b {
        assert(members_of(indices, a) < members_of(indices, b));
        assert(members_of(indices, b) <= members_of(indices, a));
    }
    if b < a {
        assert(members_of(indices, b) < members_of(indices, a));
        assert(members_of(indices, a) <= members_of(indices, b));
    }
}

/// A cluster holds no more members than there are pixels.
pub proof fn lemma_members_bound(indices: Seq<u8>, cluster: int)
    ensures
        members_of(indices, cluster) <= indices.len(),
    decreases indices.len(),
{
    if indices.len() > 0 {
        lemma_members_bound(indices.drop_last(), cluster);
    }
}

/// When every pixel is assigned to one cluster, that cluster holds all of them and every
/// other cluster none.
pub proof fn lemma_single_cluster(indices: Seq<u8>, only: int, cluster: int)
    requires
        forall|i: int| 0 <= i < indices.len() ==> indices[i] == only,
    ensures
        members_of(indices, cluster) == if cluster == only {
            indices.len()
        } else {
            0
        },
    decreases indices.len(),
{
    if indices.len() > 0 {
        lemma_single_cluster(indices.drop_last(), only, cluster);
    }
}

/// When every pixel is assigned to one cluster, that cluster is the dominant one and its
/// share is the whole: a raster of one colour, clustered so, has the full score.
pub proof fn lemma_single_cluster_dominates(indices: Seq<u8>, clusters: int, only: int)
    requires
        indices.len() > 0,
        0 <= only < clusters,
        forall|i: int| 0 <= i < indices.len() ==> indices[i] == only,
    ensures
        dominant_cluster(indices, clusters) == only,
        members_of(indices, only) == indices.len(),
{
    assert forall|c: int| 0 <= c < clusters implies members_of(indices, c) <= members_of(
        indices,
        only,
    ) by {
        lemma_single_cluster(indices, only, c);
        lemma_single_cluster(indices, only, only);
    }
    assert forall|c: int| 0 <= c < only implies members_of(indices, c) < members_of(
        indices,
        only,
    ) by {
        lemma_single_cluster(indices, only, c);
        lemma_single_cluster(indices, only, only);
    }
    lemma_single_cluster(indices, only, only);
    assert(is_dominant(indices, clusters, only));
    lemma_dominant_unique(indices, clusters, only, dominant_cluster(indices, clusters));
}

/// The members of the first `clusters` clusters, taken together.
pub open spec fn members_below(indices: Seq<u8>, clusters: int) -> nat
    decreases clusters,
{
    if clusters <= 0 {
        0
    } else {
        members_below(indices, clusters - 1) + members_of(indices, clusters - 1)
    }
}

proof fn lemma_members_below_step(indices: Seq<u8>, clusters: int)
    requires
        indices.len() > 0,
        0 <= clusters,
    ensures
        members_below(indices, clusters) == members_below(indices.drop_last(), clusters) + if
            indices.last() < clusters {
            1nat
        } else {
            0nat
        },
    decreases clusters,
{
    if clusters > 0 {
        lemma_members_below_step(indices, clusters - 1);
    }
}

/// When every pixel is assigned to one of the clusters, the clusters' members are all
/// the pixels.
pub proof fn lemma_members_cover(indices: Seq<u8>, clusters: int)
    requires
        0 <= clusters,
        forall|i: int| 0 <= i < indices.len() ==> indices[i] < clusters,
    ensures
        members_below(indices, clusters) == indices.len(),
    decreases indices.len(),
{
    if indices.len() == 0 {
        lemma_members_below_empty(indices, clusters);
    } else {
        lemma_members_cover(indices.drop_last(), clusters);
        lemma_members_below_step(indices, clusters);
    }
}

proof fn lemma_members_below_empty(indices: Seq<u8>, clusters: int)
    requires
        indices.len() == 0,
    ensures
        members_below(indices, clusters) == 0,
    decreases clusters,
{
    if clusters > 0 {
        lemma_members_below_empty(indices, clusters - 1);
    }
}

proof fn lemma_members_below_bound(indices: Seq<u8>, clusters: int, most: nat)
    requires
        0 <= clusters,
        forall|c: int| 0 <= c < clusters ==> members_of(indices, c) <= most,
    ensures
        members_below(indices, clusters) <= clusters * most,
    decreases clusters,
{
    if clusters > 0 {
        lemma_members_below_bound(indices, clusters - 1, most);
        assert((clusters - 1) * most + most == clusters * most) by (nonlinear_arith);
    }
}

/// The dominant cluster holds at least its even share: when every pixel is assigned to
/// one of `clusters` clusters, the dominant one holds at least one pixel in `clusters`.
pub proof fn lemma_dominant_share(indices: Seq<u8>, clusters: int, best: int)
    requires
        is_dominant(indices, clusters, best),
        forall|i: int| 0 <= i < indices.len() ==> indices[i] < clusters,
    ensures
        members_of(indices, best) * clusters >= indices.len(),
        indices.len() > 0 ==> members_of(indices, best) >= 1,
{
    lemma_members_cover(indices, clusters);
    lemma_members_below_bound(indices, clusters, members_of(indices, best));
    let most = members_of(indices, best);
    assert(clusters * most == most * clusters) by (nonlinear_arith);
    if indices.len() > 0 && most == 0 {
        assert(clusters * most == 0) by (nonlinear_arith)
            requires
                most == 0,
        ;
    }
}

/// The dominant colour of a clustering: the colour of the dominant cluster, its share
/// of the pixels, the brightness of the colour, and the cluster count that was asked
/// for.
pub open spec fn dominant_of(centroids: Seq<Rgb>, indices: Seq<u8>, k: usize) -> DominantColor {
    let best = dominant_cluster(indices, centroids.len() as int);
    DominantColor {
        color: centroids[best],
        score: Score { members: members_of(indices, best) as u64, total: indices.len() as u64 },
        average: brightness_of(centroids[best]) as u8,
        k,
    }
}

/// Picks the dominant cluster of a clustering: `centroids` holds the colour of each
/// cluster and `indices` the cluster of each pixel. The members of each cluster are
/// counted here, as whole numbers: `Sort::sort_indexed_colors` of `kmeans_colors` hands
/// the shares out as floating-point numbers, the darkest cluster first. Ties go to the
/// earlier cluster here; an unstable sort of those shares may settle them otherwise.
pub fn dominant_from_clusters(centroids: &Vec<Rgb>, indices: &Vec<u8>, k: usize) -> (found: Result<
    DominantColor,
    AnalysisError,
>)
    ensures
        indices@.len() == 0 ==> found == Err::<DominantColor, AnalysisError>(AnalysisError::Empty),
        indices@.len() > 0 && centroids@.len() == 0 ==> found == Err::<
            DominantColor,
            AnalysisError,
        >(AnalysisError::NoClusters),
        indices@.len() > 0 && centroids@.len() > 0 ==> found is Ok && ({
            let best = dominant_cluster(indices@, centroids@.len() as int);
            let d = found->Ok_0;
            &&& is_dominant(indices@, centroids@.len() as int, best)
            &&& d.color == centroids@[best]
            &&& d.score.members == members_of(indices@, best)
            &&& d.score.total == indices@.len()
            &&& d.average == brightness_of(d.color)
            &&& d.k == k
            &&& d == dominant_of(centroids@, indices@, k)
        }),
{
    if indices.len() == 0 {
        return Err(AnalysisError::Empty);
    }
    if centroids.len() == 0 {
        return Err(AnalysisError::NoClusters);
    }
    let clusters = centroids.len();
    let mut counts: Vec<usize> = Vec::new();
    let mut c: usize = 0;
    while c < clusters
        invariant
            c <= clusters,
            counts@.len() == c,
            forall|j: int| 0 <= j < c ==> counts@[j] == 0,
        decreases clusters - c,
    {
        counts.push(0);
        c = c + 1;
    }
    let mut i: usize = 0;
    while i < indices.len()
        invariant
            i <= indices@.len(),
            counts@.len() == clusters,
            forall|j: int|
                0 <= j < clusters ==> counts@[j] == members_of(indices@.take(i as int), j),
        decreases indices@.len() - i,
    {
        let cluster = indices[i] as usize;
        proof {
            assert(indices@.take(i + 1).drop_last() =~= indices@.take(i as int));
            assert(indices@.take(i + 1).last() == indices@[i as int]);
            if cluster < clusters {
                lemma_members_bound(indices@.take(i + 1), cluster as int);
            }
        }
        if cluster < clusters {
            counts.set(cluster, counts[cluster] + 1);
        }
        i = i + 1;
    }
    assert(indices@.take(indices@.len() as int) =~= indices@);
    let mut best: usize = 0;
    let mut c: usize = 1;
    while c < clusters
        invariant
            1 <= c <= clusters,
            counts@.len() == clusters,
            is_dominant(indices@, c as int, best as int),
            forall|j: int| 0 <= j < clusters ==> counts@[j] == members_of(indices@, j),
        decreases clusters - c,
    {
        if counts[c] > counts[best] {
            best = c;
        }
        c = c + 1;
    }
    proof {
        lemma_dominant_unique(
            indices@,
            clusters as int,
            best as int,
            dominant_cluster(indices@, clusters as int),
        );
    }
    let color = centroids[best];
    Ok(
        DominantColor {
            color,
            score: Score { members: counts[best] as u64, total: indices.len() as u64 },
            average: brightness(color),
            k,
        },
    )
}

/// What `image::imageops::resize` with the triangle filter makes of a `width` by
/// `height` raster of packed RGB bytes at a new size.
pub uninterp spec fn resampled_rgb(
    rgb: Seq<u8>,
    width: u32,
    height: u32,
    new_width: u32,
    new_height: u32,
) -> Seq<u8>;

/// Resamples a raster of packed RGB bytes to a new size with `image::imageops::resize`
/// and its triangle filter. The result holds three bytes for each pixel of the new size.
#[verifier::external_body]
fn resize_rgb(rgb: Vec<u8>, width: u32, height: u32, new_width: u32, new_height: u32) -> (out: Vec<
    u8,
>)
    requires
        width > 0,
        height > 0,
        new_width > 0,
        new_height > 0,
        rgb@.len() == 3 * width * height,
        16 * width * new_height <= isize::MAX,
        16 * new_width * new_height <= isize::MAX,
    ensures
        out@ == resampled_rgb(rgb@, width, height, new_width, new_height),
        out@.len() == 3 * new_width * new_height,
{
    let source = image::RgbImage::from_raw(width, height, rgb).unwrap();
    let filter = image::imageops::FilterType::Triangle;
    image::imageops::resize(&source, new_width, new_height, filter).into_raw()
}

/// Whether packed RGB bytes hold one colour only: every byte equals the byte of its
/// channel in the first pixel.
pub open spec fn is_uniform_rgb(rgb: Seq<u8>) -> bool {
    forall|i: int| 0 <= i < rgb.len() ==> #[trigger] rgb[i] == rgb[i % 3]
}

/// Whether `centroids` and `indices` can be a clustering of packed RGB bytes into at most
/// `k` clusters: there are between one and `k` centroids, every pixel is assigned to one
/// of them, and pixels of one colour have one centroid.
pub open spec fn is_clustering_of(
    centroids: Seq<Rgb>,
    indices: Seq<u8>,
    rgb: Seq<u8>,
    k: int,
) -> bool {
    &&& 1 <= centroids.len() <= k
    &&& 3 * indices.len() == rgb.len()
    &&& forall|i: int| 0 <= i < indices.len() ==> indices[i] < centroids.len()
    &&& is_uniform_rgb(rgb) ==> centroids.len() == 1
}

/// Clusters packed sRGB pixels in CIE L*a*b* space: `palette` converts every pixel to
/// L*a*b* and every centroid back to sRGB, `kmeans_colors::get_kmeans` finds the
/// clusters. There are between one and `k` centroids, and every pixel is assigned to one
/// of them. Pixels of one colour give one centroid: the seeding stops when no pixel is
/// away from the centroids it has. The clustering has no name, though its seed is fixed:
/// the conversion to L*a*b* takes a cube root, whose precision std leaves open from
/// one platform and one call to the next, so that the same pixels need not give the
/// same clusters everywhere.
#[verifier::external_body]
fn cluster_pixels(rgb: &Vec<u8>, k: usize, max_iterations: usize, convergence: u8, seed: u64) -> (found:
    (Vec<Rgb>, Vec<u8>))
    requires
        rgb@.len() > 0,
        rgb@.len() % 3 == 0,
        rgb@.len() <= 3 * MAX_SIDE * MAX_SIDE,
        1 <= k <= 256,
    ensures
        is_clustering_of(found.0@, found.1@, rgb@, k as int),
{
    let pixels: &[palette::Srgb<u8>] = palette::cast::from_component_slice(rgb);
    let lab: Vec<palette::Lab> =
        pixels.iter().map(|p| palette::IntoColor::into_color(p.into_linear())).collect();
    let found = kmeans_colors::get_kmeans(k, max_iterations, convergence.into(), false, &lab, seed);
    let to_rgb = |c: &palette::Lab| {
        let color: palette::Srgb<u8> = palette::Srgb::from_linear(palette::IntoColor::into_color(*c));
        Rgb { red: color.red, green: color.green, blue: color.blue }
    };
    (found.centroids.iter().map(to_rgb).collect(), found.indices)
}

/// Whether the buffers that resampling a `width` by `height` raster takes fit this
/// machine's address space. True of every raster that needs no resampling.
pub open spec fn sampling_fits(width: int, height: int) -> bool {
    analysis_size_of(width, height) == (width, height) || 16 * width * analysis_size_of(
        width,
        height,
    ).1 <= isize::MAX
}

impl RasterView {
    /// Whether every pixel has the colour of the first, whatever its alpha.
    pub open spec fn is_uniform(self) -> bool {
        forall|x: int, y: int| #[trigger]
            self.contains(x, y) ==> self.at(x, y).red == self.at(0, 0).red && self.at(
                x,
                y,
            ).green == self.at(0, 0).green && self.at(x, y).blue == self.at(0, 0).blue
    }

    /// Whether the raster is clustered as it is, without being sampled down.
    pub open spec fn is_small(self) -> bool {
        self.width <= MAX_SIDE && self.height <= MAX_SIDE
    }
}

/// The colour bytes of a raster of one colour hold one colour only.
proof fn lemma_uniform_rgb(v: RasterView, rgb: Seq<u8>)
    requires
        v.wf(),
        v.is_uniform(),
        rgb.len() == 3 * v.pixel_count(),
        forall|i: int, c: int|
            0 <= i < v.pixel_count() && 0 <= c < 3 ==> #[trigger] rgb[3 * i + c] == v.to_bytes()[4
                * i + c],
    ensures
        is_uniform_rgb(rgb),
{
    let w = v.width as int;
    assert(4 * v.width * v.height == 4 * (v.width * v.height)) by (nonlinear_arith);
    assert forall|k: int| 0 <= k < rgb.len() implies #[trigger] rgb[k] == rgb[k % 3] by {
        let i = k / 3;
        let c = k % 3;
        assert(0 <= i < v.pixel_count());
        assert(w > 0) by (nonlinear_arith)
            requires
                0 <= i < v.width * v.height,
                w == v.width,
        ;
        let y = i / w;
        let x = i % w;
        vstd::arithmetic::div_mod::lemma_fundamental_div_mod(i, w);
        assert(0 <= y < v.height) by (nonlinear_arith)
            requires
                i == w * y + x,
                0 <= x < w,
                0 <= i < w * v.height,
        ;
        assert(v.contains(x, y));
        assert(v.contains(0, 0));
        assert(rgb[3 * i + c] == v.to_bytes()[4 * i + c]);
        assert((4 * i + c) / 4 == i && (4 * i + c) % 4 == c);
        assert(rgb[3 * 0 + c] == v.to_bytes()[4 * 0 + c]);
        assert(0int / w == 0 && 0int % w == 0) by (nonlinear_arith)
            requires
                w > 0,
        ;
    }
}

/// What holds of the analysis of a `width` by `height` raster, whatever the clustering
/// finds: a raster without pixels has no dominant colour, nor has one whose sampling
/// buffers do not fit; of any other, the cluster count follows the number of sampled
/// pixels, the score is a share of them that is at least one pixel and at least one in
/// the cluster count, and the brightness is that of the colour.
pub open spec fn is_analysis_of(
    found: Result<DominantColor, AnalysisError>,
    width: int,
    height: int,
) -> bool {
    if width == 0 || height == 0 {
        found == Err::<DominantColor, AnalysisError>(AnalysisError::Empty)
    } else if !sampling_fits(width, height) {
        found == Err::<DominantColor, AnalysisError>(AnalysisError::TooLarge)
    } else {
        found is Ok && ({
            let d = found->Ok_0;
            let size = analysis_size_of(width, height);
            &&& d.k == cluster_count_of(size.0 * size.1)
            &&& d.score.total == size.0 * size.1
            &&& 1 <= d.score.members <= d.score.total
            &&& d.score.members * d.k >= d.score.total
            &&& d.average == brightness_of(d.color)
        })
    }
}

/// The packed RGB bytes of a raster that are clustered: those of the raster itself, or
/// of the raster resampled to its size of analysis.
pub open spec fn analysis_sample(v: RasterView) -> Seq<u8> {
    let size = analysis_size_of(v.width as int, v.height as int);
    if size == (v.width as int, v.height as int) {
        v.to_rgb()
    } else {
        resampled_rgb(v.to_rgb(), v.width as u32, v.height as u32, size.0 as u32, size.1 as u32)
    }
}

/// Whether `found` is the dominant colour of some clustering of the sample of a raster,
/// into the number of clusters that the size of the sample asks for.
pub open spec fn is_dominant_of_sample(found: DominantColor, v: RasterView) -> bool {
    let size = analysis_size_of(v.width as int, v.height as int);
    let k = cluster_count_of(size.0 * size.1);
    exists|centroids: Seq<Rgb>, indices: Seq<u8>|
        is_clustering_of(centroids, indices, analysis_sample(v), k) && found == #[trigger] dominant_of(
            centroids,
            indices,
            k as usize,
        )
}

impl DominantColor {
    /// Opaque white, as the background of an image that brings its own transparency:
    /// no clusters were asked for.
    pub open spec fn white_spec() -> DominantColor {
        DominantColor {
            color: Rgb { red: 255, green: 255, blue: 255 },
            score: Score { members: 1, total: 1 },
            average: 255,
            k: 0,
        }
    }

    /// Opaque white, as the background of an image that brings its own transparency.
    pub fn white() -> (d: DominantColor)
        ensures
            d == DominantColor::white_spec(),
    {
        DominantColor {
            color: Rgb { red: 255, green: 255, blue: 255 },
            score: Score { members: 1, total: 1 },
            average: 255,
            k: 0,
        }
    }

    /// Keys this colour out of `image` with the tolerance `TOLERANCE`.
    pub fn remove_image_background(&self, image: &mut RasterImage)
        ensures
            final(image)@ == old(image)@.keyed(self.color, TOLERANCE),
    {
        image.key_out(self.color, TOLERANCE);
    }

    /// Finds the dominant colour of a raster, whatever its alpha: the raster is sampled
    /// down to at most `MAX_SIDE` pixels a side and its colours are clustered. What is
    /// found is the dominant colour of some clustering of that sample. The dominant
    /// cluster is never empty and holds at least its even share of the clustered pixels.
    pub fn from_rgb_image(image: &RasterImage) -> (found: Result<DominantColor, AnalysisError>)
        ensures
            is_analysis_of(found, image@.width as int, image@.height as int),
            found is Ok ==> is_dominant_of_sample(found->Ok_0, image@),
            found is Ok && image@.is_uniform() && image@.is_small() ==> found->Ok_0.score.members
                == found->Ok_0.score.total,
    {
        let width = image.width();
        let height = image.height();
        if width == 0 || height == 0 {
            assert(image@.pixel_count() == 0) by (nonlinear_arith)
                requires
                    image@.pixel_count() == image@.width * image@.height,
                    image@.width == 0 || image@.height == 0,
            ;
            return Err(AnalysisError::Empty);
        }
        assert(image@.pixel_count() > 0) by (nonlinear_arith)
            requires
                image@.pixel_count() == image@.width * image@.height,
                image@.width > 0,
                image@.height > 0,
        ;
        let (new_width, new_height) = analysis_size(width, height);
        assert(new_width * new_height <= MAX_SIDE * MAX_SIDE && new_width * new_height >= 1)
            by (nonlinear_arith)
            requires
                1 <= new_width <= MAX_SIDE,
                1 <= new_height <= MAX_SIDE,
        ;
        let rgb = image.rgb_bytes();
        assert(3 * new_width * new_height == 3 * (new_width * new_height)) by (nonlinear_arith);
        let sample = if new_width == width && new_height == height {
            rgb
        } else {
            assert(width * new_height <= 0xffff_ffff * 300) by (nonlinear_arith)
                requires
                    width <= 0xffff_ffff,
                    new_height <= 300,
            ;
            let columns: u64 = (width as u64) * (new_height as u64);
            assert(16 * width * new_height == 16 * columns) by (nonlinear_arith)
                requires
                    columns == width * new_height,
            ;
            if 16 * columns > isize::MAX as u64 {
                return Err(AnalysisError::TooLarge);
            }
            assert(16 * new_width * new_height <= isize::MAX) by (nonlinear_arith)
                requires
                    new_width <= width,
                    0 <= new_height,
                    16 * width * new_height <= isize::MAX,
            ;
            assert(3 * width * height == 3 * (image@.width * image@.height)) by (nonlinear_arith)
                requires
                    width == image@.width,
                    height == image@.height,
            ;
            resize_rgb(rgb, width, height, new_width, new_height)
        };
        let pixels: usize = (new_width as usize) * (new_height as usize);
        let k = cluster_count(pixels);
        let (centroids, indices) = cluster_pixels(
            &sample,
            k,
            MAX_ITERATIONS,
            CONVERGENCE,
            CLUSTER_SEED,
        );
        let ranked = dominant_from_clusters(&centroids, &indices, k);
        proof {
            let size = analysis_size_of(image@.width as int, image@.height as int);
            let count = cluster_count_of(size.0 * size.1);
            assert(size.0 == new_width && size.1 == new_height);
            assert(count == k && count as usize == k);
            assert(sample@ == analysis_sample(image@));
            assert(is_clustering_of(centroids@, indices@, analysis_sample(image@), count));
            assert(ranked->Ok_0 == dominant_of(centroids@, indices@, count as usize));
            if image@.is_uniform() && image@.is_small() {
                image.lemma_view();
                lemma_uniform_rgb(image@, sample@);
                lemma_single_cluster_dominates(indices@, 1, 0);
            }
            let best = dominant_cluster(indices@, centroids@.len() as int);
            lemma_dominant_share(indices@, centroids@.len() as int, best);
            lemma_members_bound(indices@, best);
            let members = members_of(indices@, best);
            assert(members * k >= members * centroids@.len()) by (nonlinear_arith)
                requires
                    centroids@.len() <= k,
                    members >= 0,
            ;
        }
        ranked
    }
}

} // verus!



