//! Rasters of 8-bit RGBA pixels and the colours they hold.

use vstd::prelude::*;

verus! {

/// An opaque colour with three 8-bit channels.
#[derive(Clone, Copy, Debug, PartialEq, Eq, Structural)]
pub struct Rgb {
    pub red: u8,
    pub green: u8,
    pub blue: u8,
}

/// One pixel: colour channels and alpha (0 is fully transparent, 255 fully opaque).
#[derive(Clone, Copy, Debug, PartialEq, Eq, Structural)]
pub struct Rgba {
    pub red: u8,
    pub green: u8,
    pub blue: u8,
    pub alpha: u8,
}

/// The mathematical content of a raster: its size and its rows of pixels, top to bottom.
pub struct RasterView {
    pub width: nat,
    pub height: nat,
    pub rows: Seq<Seq<Rgba>>,
}

impl RasterView {
    /// Every row exists and has the raster's width.
    pub open spec fn wf(self) -> bool {
        &&& self.rows.len() == self.height
        &&& forall|y: int| 0 <= y < self.height ==> (#[trigger] self.rows[y]).len() == self.width
    }

    /// Whether `(x, y)` names a pixel of the raster.
    pub open spec fn contains(self, x: int, y: int) -> bool {
        0 <= x < self.width && 0 <= y < self.height
    }

    /// The pixel in column `x` of row `y`.
    pub open spec fn at(self, x: int, y: int) -> Rgba
        recommends
            self.contains(x, y),
    {
        self.rows[y][x]
    }

    /// The number of pixels.
    pub open spec fn pixel_count(self) -> nat {
        self.width * self.height
    }

    /// A raster of the given size in which every pixel is `pixel`.
    pub open spec fn filled(width: nat, height: nat, pixel: Rgba) -> RasterView {
        RasterView {
            width,
            height,
            rows: Seq::new(height, |y: int| Seq::new(width, |x: int| pixel)),
        }
    }

    /// The rectangle of `self` that spans columns `left..=right` and rows `top..=bottom`.
    pub open spec fn crop(self, left: int, top: int, right: int, bottom: int) -> RasterView
        recommends
            0 <= left <= right < self.width,
            0 <= top <= bottom < self.height,
    {
        RasterView {
            width: (right - left + 1) as nat,
            height: (bottom - top + 1) as nat,
            rows: Seq::new(
                (bottom - top + 1) as nat,
                |y: int| Seq::new((right - left + 1) as nat, |x: int| self.rows[y + top][x + left]),
            ),
        }
    }
}

/// The distance between two values of one channel.
pub open spec fn channel_distance(a: u8, b: u8) -> int {
    if a >= b {
        a - b
    } else {
        b - a
    }
}

/// Whether a pixel's colour is within `tolerance` of `reference` on every channel.
pub open spec fn within_tolerance(p: Rgba, reference: Rgb, tolerance: u8) -> bool {
    &&& channel_distance(p.red, reference.red) <= tolerance
    &&& channel_distance(p.green, reference.green) <= tolerance
    &&& channel_distance(p.blue, reference.blue) <= tolerance
}

/// A pixel after keying: transparent when within tolerance of the reference, opaque otherwise.
pub open spec fn keyed_pixel(p: Rgba, reference: Rgb, tolerance: u8) -> Rgba {
    Rgba {
        red: p.red,
        green: p.green,
        blue: p.blue,
        alpha: if within_tolerance(p, reference, tolerance) {
            0u8
        } else {
            255u8
        },
    }
}

impl RasterView {
    /// The raster after keying out `reference` with `tolerance`.
    pub open spec fn keyed(self, reference: Rgb, tolerance: u8) -> RasterView {
        RasterView {
            width: self.width,
            height: self.height,
            rows: Seq::new(
                self.height,
                |y: int|
                    Seq::new(
                        self.width,
                        |x: int| keyed_pixel(self.rows[y][x], reference, tolerance),
                    ),
            ),
        }
    }
}

/// Whether one channel value lies within `tolerance` of the reference value.
pub fn channel_within(value: u8, reference: u8, tolerance: u8) -> (inside: bool)
    ensures
        inside == (channel_distance(value, reference) <= tolerance),
{
    let low = reference.saturating_sub(tolerance);
    let high = reference.saturating_add(tolerance);
    low <= value && value <= high
}

/// The pixel that four consecutive bytes of a row-major RGBA buffer encode.
pub open spec fn pixel_of_bytes(data: Seq<u8>, index: int) -> Rgba {
    Rgba {
        red: data[4 * index],
        green: data[4 * index + 1],
        blue: data[4 * index + 2],
        alpha: data[4 * index + 3],
    }
}

/// The raster that a row-major RGBA buffer of `4 * width * height` bytes encodes.
pub open spec fn raster_of_bytes(width: nat, height: nat, data: Seq<u8>) -> RasterView {
    RasterView {
        width,
        height,
        rows: Seq::new(
            height,
            |y: int| Seq::new(width, |x: int| pixel_of_bytes(data, y * width + x)),
        ),
    }
}

/// `y * width + x` is a valid pixel index for every pixel of a `width` by `height` raster.
pub proof fn lemma_pixel_index(width: nat, height: nat, x: int, y: int)
    requires
        0 <= x < width,
        0 <= y < height,
    ensures
        0 <= y * width + x < width * height,
        y * width + x + 1 <= width * height,
{
    assert(y * width <= (height - 1) * width) by (nonlinear_arith)
        requires
            0 <= y <= height - 1,
            0 <= width,
    ;
    assert((height - 1) * width == height * width - width) by (nonlinear_arith);
    assert(height * width == width * height) by (nonlinear_arith);
    assert(0 <= y * width) by (nonlinear_arith)
        requires
            0 <= y,
            0 <= width,
    ;
}

/// Row-major order: an earlier pixel has a smaller index.
pub proof fn lemma_pixel_order(width: nat, x1: int, y1: int, x2: int, y2: int)
    requires
        0 <= x1 < width,
        0 <= x2 <= width,
        0 <= y1,
        0 <= y2,
        y1 < y2 || (y1 == y2 && x1 < x2),
    ensures
        0 <= y1 * width + x1 < y2 * width + x2,
{
    assert(0 <= y1 * width) by (nonlinear_arith)
        requires
            0 <= y1,
            0 <= width,
    ;
    if y1 < y2 {
        assert((y1 + 1) * width <= y2 * width) by (nonlinear_arith)
            requires
                y1 + 1 <= y2,
                0 <= width,
        ;
        assert((y1 + 1) * width == y1 * width + width) by (nonlinear_arith);
    }
}

/// A cropped raster is well formed.
pub proof fn lemma_crop_wf(v: RasterView, left: int, top: int, right: int, bottom: int)
    requires
        left <= right,
        top <= bottom,
    ensures
        v.crop(left, top, right, bottom).wf(),
        v.crop(left, top, right, bottom).width == right - left + 1,
        v.crop(left, top, right, bottom).height == bottom - top + 1,
{
}

/// Two well-formed rasters of one size that agree on every pixel are equal.
pub proof fn lemma_raster_ext(a: RasterView, b: RasterView)
    requires
        a.wf(),
        b.wf(),
        a.width == b.width,
        a.height == b.height,
        forall|x: int, y: int| a.contains(x, y) ==> a.at(x, y) == b.at(x, y),
    ensures
        a == b,
{
    assert forall|y: int| 0 <= y < a.height implies a.rows[y] == b.rows[y] by {
        assert forall|x: int| 0 <= x < a.width implies a.rows[y][x] == b.rows[y][x] by {
            assert(a.contains(x, y));
            assert(a.at(x, y) == b.at(x, y));
        }
        assert(a.rows[y] =~= b.rows[y]);
    }
    assert(a.rows =~= b.rows);
}

/// One channel of a pixel: 0 is red, 1 green, 2 blue, and 3 alpha.
pub open spec fn channel_of(p: Rgba, channel: int) -> u8 {
    if channel == 0 {
        p.red
    } else if channel == 1 {
        p.green
    } else if channel == 2 {
        p.blue
    } else {
        p.alpha
    }
}

impl RasterView {
    /// The pixels as bytes: four per pixel, row by row.
    pub open spec fn to_bytes(self) -> Seq<u8> {
        Seq::new(
            4 * self.width * self.height,
            |i: int|
                channel_of(
                    self.rows[(i / 4) / (self.width as int)][(i / 4) % (self.width as int)],
                    i % 4,
                ),
        )
    }
}

impl RasterView {
    /// The colours of the pixels as bytes: three per pixel, row by row.
    pub open spec fn to_rgb(self) -> Seq<u8> {
        Seq::new(3 * self.width * self.height, |i: int| self.to_bytes()[4 * (i / 3) + i % 3])
    }
}

/// Decoding a buffer and writing the raster out again gives the buffer.
pub proof fn lemma_bytes_of_raster(width: nat, height: nat, data: Seq<u8>)
    requires
        data.len() == 4 * width * height,
    ensures
        raster_of_bytes(width, height, data).to_bytes() == data,
{
    let v = raster_of_bytes(width, height, data);
    let w = width as int;
    assert(4 * width * height == 4 * (width * height)) by (nonlinear_arith);
    assert forall|i: int| 0 <= i < data.len() implies v.to_bytes()[i] == data[i] by {
        let p = i / 4;
        let c = i % 4;
        assert(0 <= p < width * height);
        assert(w > 0) by (nonlinear_arith)
            requires
                0 <= p < width * height,
                w == width,
        ;
        let y = p / w;
        let x = p % w;
        vstd::arithmetic::div_mod::lemma_fundamental_div_mod(p, w);
        assert(w * y == y * w) by (nonlinear_arith);
        assert(0 <= x < w);
        assert(0 <= y < height) by (nonlinear_arith)
            requires
                p == w * y + x,
                0 <= x < w,
                0 <= p < w * height,
        ;
        assert(v.rows[y][x] == pixel_of_bytes(data, y * width + x));
    }
    assert(v.to_bytes() =~= data);
}

/// A rectangular grid of RGBA pixels, stored row by row.
pub struct RasterImage {
    width: u32,
    height: u32,
    data: Vec<u8>,
}

impl View for RasterImage {
    type V = RasterView;

    closed spec fn view(&self) -> RasterView {
        raster_of_bytes(self.width as nat, self.height as nat, self.data@)
    }
}

impl RasterImage {
    #[verifier::type_invariant]
    spec fn buffer_matches_size(self) -> bool {
        self.data@.len() == 4 * (self.width as nat) * (self.height as nat)
    }

    /// The view is well formed, and its sides fit 32 bits.
    pub proof fn lemma_view(&self)
        ensures
            self@.wf(),
            self@.width <= u32::MAX,
            self@.height <= u32::MAX,
    {
    }

    /// Builds a raster from a row-major RGBA buffer; `None` when the buffer's
    /// length is not `4 * width * height`.
    pub fn from_raw(width: u32, height: u32, data: Vec<u8>) -> (out: Option<RasterImage>)
        ensures
            out is Some <==> data@.len() == 4 * (width as nat) * (height as nat),
            out is Some ==> out->0@ == raster_of_bytes(width as nat, height as nat, data@)
                && out->0@.to_bytes() == data@,
    {
        assert((width as nat) * (height as nat) <= 0xffff_ffff * 0xffff_ffff) by (nonlinear_arith)
            requires
                width <= 0xffff_ffff,
                height <= 0xffff_ffff,
        ;
        let pixels: u64 = (width as u64) * (height as u64);
        let expected: u128 = 4u128 * (pixels as u128);
        assert(expected == 4 * (width as nat) * (height as nat)) by (nonlinear_arith)
            requires
                expected == 4 * pixels,
                pixels == (width as nat) * (height as nat),
        ;
        if data.len() as u128 == expected {
            proof {
                lemma_bytes_of_raster(width as nat, height as nat, data@);
            }
            Some(RasterImage { width, height, data })
        } else {
            None
        }
    }

    /// The number of columns.
    pub fn width(&self) -> (w: u32)
        ensures
            w == self@.width,
    {
        self.width
    }

    /// The number of rows.
    pub fn height(&self) -> (h: u32)
        ensures
            h == self@.height,
    {
        self.height
    }

    /// The row-major RGBA bytes of the raster.
    pub fn as_raw(&self) -> (data: &Vec<u8>)
        ensures
            data@ == self@.to_bytes(),
            data@.len() == 4 * self@.width * self@.height,
    {
        proof {
            use_type_invariant(self);
            lemma_bytes_of_raster(self.width as nat, self.height as nat, self.data@);
        }
        &self.data
    }
}

impl RasterImage {
    /// The 1 by 1 raster whose only pixel is transparent black.
    pub fn transparent_pixel() -> (out: RasterImage)
        ensures
            out@ == RasterView::filled(1, 1, Rgba { red: 0, green: 0, blue: 0, alpha: 0 }),
    {
        let mut data: Vec<u8> = Vec::new();
        data.push(0);
        data.push(0);
        data.push(0);
        data.push(0);
        let out = RasterImage { width: 1, height: 1, data };
        proof {
            lemma_raster_ext(
                out@,
                RasterView::filled(1, 1, Rgba { red: 0, green: 0, blue: 0, alpha: 0 }),
            );
        }
        out
    }

    /// The number of pixels.
    pub fn pixel_count(&self) -> (n: usize)
        ensures
            n == self@.pixel_count(),
            4 * n == self@.to_bytes().len(),
    {
        proof {
            use_type_invariant(self);
            lemma_bytes_of_raster(self.width as nat, self.height as nat, self.data@);
            assert(4 * (self.width as nat) * (self.height as nat) == 4 * ((self.width as nat) * (
            self.height as nat))) by (nonlinear_arith);
        }
        self.data.len() / 4
    }

    /// The pixel with row-major index `index`.
    pub fn pixel(&self, index: usize) -> (p: Rgba)
        requires
            index < self@.pixel_count(),
        ensures
            p == pixel_of_bytes(self@.to_bytes(), index as int),
    {
        proof {
            use_type_invariant(self);
            lemma_bytes_of_raster(self.width as nat, self.height as nat, self.data@);
            assert(4 * (self.width as nat) * (self.height as nat) == 4 * ((self.width as nat) * (
            self.height as nat))) by (nonlinear_arith);
        }
        let total: usize = self.data.len();
        let base: usize = 4 * index;
        Rgba {
            red: self.data[base],
            green: self.data[base + 1],
            blue: self.data[base + 2],
            alpha: self.data[base + 3],
        }
    }

    /// The pixel in column `x` of row `y`.
    pub fn get_pixel(&self, x: u32, y: u32) -> (p: Rgba)
        requires
            self@.contains(x as int, y as int),
        ensures
            p == self@.at(x as int, y as int),
    {
        proof {
            use_type_invariant(self);
            lemma_pixel_index(self.width as nat, self.height as nat, x as int, y as int);
            assert(4 * (self.width as nat) * (self.height as nat) == 4 * ((self.width as nat) * (
            self.height as nat))) by (nonlinear_arith);
            assert(0 <= (y as int) * (self.width as int)) by (nonlinear_arith);
        }
        proof {
            lemma_bytes_of_raster(self.width as nat, self.height as nat, self.data@);
        }
        let total: usize = self.data.len();
        let index: usize = (y as usize) * (self.width as usize) + (x as usize);
        self.pixel(index)
    }

    /// Keys out a colour: every pixel within `tolerance` of `reference` on each channel
    /// becomes fully transparent, every other pixel fully opaque; colours stay.
    pub fn key_out(&mut self, reference: Rgb, tolerance: u8)
        ensures
            final(self)@ == old(self)@.keyed(reference, tolerance),
    {
        let mut taken = RasterImage { width: 0, height: 0, data: Vec::new() };
        std::mem::swap(self, &mut taken);
        proof {
            use_type_invariant(&taken);
        }
        let ghost before = taken@;
        let RasterImage { width, height, mut data } = taken;
        let ghost untouched = data@;
        proof {
            assert(4 * (width as nat) * (height as nat) == 4 * ((width as nat) * (height as nat)))
                by (nonlinear_arith);
        }
        let count: usize = data.len() / 4;
        let mut index: usize = 0;
        while index < count
            invariant
                index <= count,
                data@.len() == untouched.len(),
                untouched.len() == 4 * count,
                untouched.len() <= usize::MAX,
                forall|i: int|
                    0 <= i < index ==> #[trigger] pixel_of_bytes(data@, i) == keyed_pixel(
                        pixel_of_bytes(untouched, i),
                        reference,
                        tolerance,
                    ),
                forall|j: int| 4 * index <= j < data@.len() ==> data@[j] == untouched[j],
            decreases count - index,
        {
            let base: usize = 4 * index;
            let ghost previous = data@;
            let inside = channel_within(data[base], reference.red, tolerance) && channel_within(
                data[base + 1],
                reference.green,
                tolerance,
            ) && channel_within(data[base + 2], reference.blue, tolerance);
            data.set(base + 3, if inside { 0 } else { 255 });
            proof {
                assert forall|i: int| 0 <= i < index + 1 implies #[trigger] pixel_of_bytes(
                    data@,
                    i,
                ) == keyed_pixel(pixel_of_bytes(untouched, i), reference, tolerance) by {
                    if i < index {
                        assert(pixel_of_bytes(data@, i) == pixel_of_bytes(previous, i));
                    }
                }
            }
            index = index + 1;
        }
        *self = RasterImage { width, height, data };
        proof {
            let target = before.keyed(reference, tolerance);
            assert forall|x: int, y: int| self@.contains(x, y) implies self@.at(x, y) == target.at(
                x,
                y,
            ) by {
                lemma_pixel_index(width as nat, height as nat, x, y);
                assert(pixel_of_bytes(data@, y * (width as nat) + x) == keyed_pixel(
                    pixel_of_bytes(untouched, y * (width as nat) + x),
                    reference,
                    tolerance,
                ));
            }
            lemma_raster_ext(self@, target);
        }
    }

    /// The colour channels of every pixel, three bytes per pixel, row by row.
    pub fn rgb_bytes(&self) -> (out: Vec<u8>)
        ensures
            out@ == self@.to_rgb(),
            out@.len() == 3 * self@.pixel_count(),
            forall|i: int, c: int|
                0 <= i < self@.pixel_count() && 0 <= c < 3 ==> #[trigger] out@[3 * i + c]
                    == self@.to_bytes()[4 * i + c],
    {
        proof {
            use_type_invariant(self);
            lemma_bytes_of_raster(self.width as nat, self.height as nat, self.data@);
        }
        let count = self.pixel_count();
        let total = self.data.len();
        let mut out: Vec<u8> = Vec::new();
        let mut index: usize = 0;
        while index < count
            invariant
                index <= count,
                count == self@.pixel_count(),
                4 * count == self.data@.len(),
                total == self.data@.len(),
                out@.len() == 3 * index,
                forall|i: int, c: int|
                    0 <= i < index && 0 <= c < 3 ==> #[trigger] out@[3 * i + c] == self.data@[4
                        * i + c],
            decreases count - index,
        {
            let base: usize = 4 * index;
            out.push(self.data[base]);
            out.push(self.data[base + 1]);
            out.push(self.data[base + 2]);
            index = index + 1;
        }
        proof {
            assert(3 * self@.width * self@.height == 3 * (self@.width * self@.height))
                by (nonlinear_arith);
            assert forall|k: int| 0 <= k < out@.len() implies out@[k] == self@.to_rgb()[k] by {
                assert(out@[3 * (k / 3) + k % 3] == self.data@[4 * (k / 3) + k % 3]);
            }
            assert(out@ =~= self@.to_rgb());
        }
        out
    }

    /// Copies the rectangle that spans columns `left..=right` and rows `top..=bottom`.
    pub fn crop(&self, left: u32, top: u32, right: u32, bottom: u32) -> (out: RasterImage)
        requires
            left <= right < self@.width,
            top <= bottom < self@.height,
        ensures
            out@ == self@.crop(left as int, top as int, right as int, bottom as int),
    {
        proof {
            use_type_invariant(self);
        }
        let total: usize = self.data.len();
        let new_width: u32 = right - left + 1;
        let new_height: u32 = bottom - top + 1;
        let ghost w = self.width as nat;
        let ghost nw = new_width as nat;
        let mut data: Vec<u8> = Vec::new();
        let mut y: u32 = 0;
        while y < new_height
            invariant
                y <= new_height,
                new_width == right - left + 1,
                new_height == bottom - top + 1,
                left <= right < self.width,
                top <= bottom < self.height,
                w == self.width,
                nw == new_width,
                self.data@.len() == 4 * (self.width as nat) * (self.height as nat),
                self.data@.len() <= usize::MAX,
                data@.len() == 4 * (y * nw),
                forall|xx: int, yy: int|
                    0 <= xx < nw && 0 <= yy < y ==> #[trigger] pixel_of_bytes(data@, yy * nw + xx)
                        == pixel_of_bytes(self.data@, (yy + top) * w + (xx + left)),
            decreases new_height - y,
        {
            let mut x: u32 = 0;
            while x < new_width
                invariant
                    x <= new_width,
                    y < new_height,
                    new_width == right - left + 1,
                    new_height == bottom - top + 1,
                    left <= right < self.width,
                    top <= bottom < self.height,
                    w == self.width,
                    nw == new_width,
                    self.data@.len() == 4 * (self.width as nat) * (self.height as nat),
                    self.data@.len() <= usize::MAX,
                    data@.len() == 4 * (y * nw + x),
                    forall|xx: int, yy: int|
                        0 <= xx < nw && 0 <= yy && (yy < y || (yy == y && xx < x))
                            ==> #[trigger] pixel_of_bytes(data@, yy * nw + xx) == pixel_of_bytes(
                            self.data@,
                            (yy + top) * w + (xx + left),
                        ),
                decreases new_width - x,
            {
                let ghost before = data@;
                proof {
                    lemma_pixel_index(
                        w,
                        self.height as nat,
                        (x + left) as int,
                        (y + top) as int,
                    );
                    assert(4 * w * (self.height as nat) == 4 * (w * (self.height as nat)))
                        by (nonlinear_arith);
                    assert(0 <= (y + top) * w) by (nonlinear_arith)
                        requires
                            0 <= y + top,
                            0 <= w,
                    ;
                }
                let source: usize = ((y + top) as usize) * (self.width as usize) + ((x
                    + left) as usize);
                let base: usize = 4 * source;
                data.push(self.data[base]);
                data.push(self.data[base + 1]);
                data.push(self.data[base + 2]);
                data.push(self.data[base + 3]);
                proof {
                    assert forall|xx: int, yy: int|
                        0 <= xx < nw && 0 <= yy && (yy < y || (yy == y && xx < x + 1))
                        implies #[trigger] pixel_of_bytes(data@, yy * nw + xx) == pixel_of_bytes(
                        self.data@,
                        (yy + top) * w + (xx + left),
                    ) by {
                        if yy == y && xx == x {
                        } else {
                            lemma_pixel_order(nw, xx, yy, x as int, y as int);
                            assert(pixel_of_bytes(data@, yy * nw + xx) == pixel_of_bytes(
                                before,
                                yy * nw + xx,
                            ));
                        }
                    }
                }
                x = x + 1;
            }
            proof {
                assert(y * nw + nw == (y + 1) * nw) by (nonlinear_arith);
            }
            y = y + 1;
        }
        proof {
            assert(4 * (new_height * nw) == 4 * nw * (new_height as nat)) by (nonlinear_arith);
        }
        let out = RasterImage { width: new_width, height: new_height, data };
        proof {
            let target = self@.crop(left as int, top as int, right as int, bottom as int);
            lemma_crop_wf(self@, left as int, top as int, right as int, bottom as int);
            assert forall|xx: int, yy: int| out@.contains(xx, yy) implies out@.at(xx, yy)
                == target.at(xx, yy) by {
                assert(pixel_of_bytes(data@, yy * nw + xx) == pixel_of_bytes(
                    self.data@,
                    (yy + top) * w + (xx + left),
                ));
            }
            lemma_raster_ext(out@, target);
        }
        out
    }
}

/// Keying with tolerance 0 makes exactly the pixels of the reference colour transparent.
pub proof fn lemma_key_exact(v: RasterView, reference: Rgb, x: int, y: int)
    requires
        v.contains(x, y),
    ensures
        v.keyed(reference, 0).at(x, y).alpha == 0 <==> (v.at(x, y).red == reference.red && v.at(
            x,
            y,
        ).green == reference.green && v.at(x, y).blue == reference.blue),
        v.keyed(reference, 0).at(x, y).alpha != 0 ==> v.keyed(reference, 0).at(x, y).alpha == 255,
{
}

/// Keying with tolerance 255 makes every pixel transparent.
pub proof fn lemma_key_everything(v: RasterView, reference: Rgb, x: int, y: int)
    requires
        v.contains(x, y),
    ensures
        v.keyed(reference, 255).at(x, y).alpha == 0,
{
}

/// Keying changes neither the size of a raster nor the colour of any pixel, and leaves
/// every pixel either fully transparent or fully opaque.
pub proof fn lemma_key_keeps_colours(v: RasterView, reference: Rgb, tolerance: u8, x: int, y: int)
    requires
        v.contains(x, y),
    ensures
        v.keyed(reference, tolerance).width == v.width,
        v.keyed(reference, tolerance).height == v.height,
        v.keyed(reference, tolerance).at(x, y).red == v.at(x, y).red,
        v.keyed(reference, tolerance).at(x, y).green == v.at(x, y).green,
        v.keyed(reference, tolerance).at(x, y).blue == v.at(x, y).blue,
        v.keyed(reference, tolerance).at(x, y).alpha == 0 || v.keyed(reference, tolerance).at(
            x,
            y,
        ).alpha == 255,
{
}

} // verus!
