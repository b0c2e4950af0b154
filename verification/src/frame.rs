//! Pixel buffers and the image operations they go through.
use image::{DynamicImage, ImageBuffer};
use vstd::prelude::*;

verus! {

/// An image of 8-bit RGB pixels, row by row.
pub struct RgbFrame {
    pub width: u32,
    pub height: u32,
    pub data: Vec<u8>,
}

/// The two readings of one source image that the conversion works from.
pub struct Planes {
    pub width: u32,
    pub height: u32,
    /// One 8-bit luma value for each pixel, row by row.
    pub luma: Vec<u8>,
    /// Three 8-bit colour values for each pixel, row by row.
    pub rgb: Vec<u8>,
}

/// The horizontal and vertical gradient of each pixel, row by row.
pub struct Gradients {
    pub gx: Vec<i16>,
    pub gy: Vec<i16>,
}

impl RgbFrame {
    /// The buffer holds three values for each pixel.
    pub open spec fn wf(self) -> bool {
        self.data@.len() == self.width * self.height * 3
    }
}

impl Planes {
    /// Both buffers cover the whole image, and are no longer than a buffer can be.
    pub open spec fn wf(self) -> bool {
        &&& self.width * self.height * 3 <= isize::MAX
        &&& self.luma@.len() == self.width * self.height
        &&& self.rgb@.len() == self.width * self.height * 3
    }
}

/// `v` moved to the nearest value of `0..size`.
pub open spec fn clamp_to(v: int, size: int) -> int {
    if v >= size {
        size - 1
    } else if v < 0 {
        0
    } else {
        v
    }
}

/// The luma value at a position, the border values continued outside the image.
pub open spec fn luma_at(luma: Seq<u8>, width: int, height: int, x: int, y: int) -> int {
    luma[clamp_to(y, height) * width + clamp_to(x, width)] as int
}

/// The horizontal Sobel response at a position.
pub open spec fn sobel_x(luma: Seq<u8>, width: int, height: int, x: int, y: int) -> int {
    (luma_at(luma, width, height, x + 1, y - 1) - luma_at(luma, width, height, x - 1, y - 1))
        + 2 * (luma_at(luma, width, height, x + 1, y) - luma_at(luma, width, height, x - 1, y))
        + (luma_at(luma, width, height, x + 1, y + 1) - luma_at(luma, width, height, x - 1, y + 1))
}

/// The vertical Sobel response at a position.
pub open spec fn sobel_y(luma: Seq<u8>, width: int, height: int, x: int, y: int) -> int {
    (luma_at(luma, width, height, x - 1, y + 1) - luma_at(luma, width, height, x - 1, y - 1))
        + 2 * (luma_at(luma, width, height, x, y + 1) - luma_at(luma, width, height, x, y - 1))
        + (luma_at(luma, width, height, x + 1, y + 1) - luma_at(luma, width, height, x + 1, y - 1))
}

/// `imageproc::gradients::horizontal_sobel`: the correlation of the image with
/// the rows (-1, 0, 1), (-2, 0, 2), (-1, 0, 1), the image padded by continuing
/// its border values. No response leaves the range of `i16`.
#[verifier::external_body]
fn horizontal_sobel(width: u32, height: u32, luma: &Vec<u8>) -> (r: Vec<i16>)
    requires
        luma@.len() == width * height,
        width * height * 2 <= isize::MAX,
    ensures
        r@.len() == width * height,
        forall|x: int, y: int|
            #![trigger sobel_x(luma@, width as int, height as int, x, y)]
            0 <= x < width && 0 <= y < height ==> r@[y * width + x] == sobel_x(
                luma@,
                width as int,
                height as int,
                x,
                y,
            ),
{
    let image = image::GrayImage::from_raw(width, height, luma.clone()).unwrap();
    imageproc::gradients::horizontal_sobel(&image).into_raw()
}

/// `imageproc::gradients::vertical_sobel`: the correlation of the image with
/// the rows (-1, -2, -1), (0, 0, 0), (1, 2, 1), the image padded by continuing
/// its border values. No response leaves the range of `i16`.
#[verifier::external_body]
fn vertical_sobel(width: u32, height: u32, luma: &Vec<u8>) -> (r: Vec<i16>)
    requires
        luma@.len() == width * height,
        width * height * 2 <= isize::MAX,
    ensures
        r@.len() == width * height,
        forall|x: int, y: int|
            #![trigger sobel_y(luma@, width as int, height as int, x, y)]
            0 <= x < width && 0 <= y < height ==> r@[y * width + x] == sobel_y(
                luma@,
                width as int,
                height as int,
                x,
                y,
            ),
{
    let image = image::GrayImage::from_raw(width, height, luma.clone()).unwrap();
    imageproc::gradients::vertical_sobel(&image).into_raw()
}

impl Gradients {
    /// These are the Sobel gradients of a luma image.
    pub open spec fn of(self, luma: Seq<u8>, width: int, height: int) -> bool {
        &&& self.gx@.len() == width * height
        &&& self.gy@.len() == width * height
        &&& forall|x: int, y: int|
            #![trigger sobel_x(luma, width, height, x, y)]
            0 <= x < width && 0 <= y < height ==> self.gx@[y * width + x] == sobel_x(
                luma,
                width,
                height,
                x,
                y,
            )
        &&& forall|x: int, y: int|
            #![trigger sobel_y(luma, width, height, x, y)]
            0 <= x < width && 0 <= y < height ==> self.gy@[y * width + x] == sobel_y(
                luma,
                width,
                height,
                x,
                y,
            )
    }
}

/// The Sobel gradients of a luma image.
pub fn gradients(width: u32, height: u32, luma: &Vec<u8>) -> (r: Gradients)
    requires
        luma@.len() == width * height,
        width * height * 2 <= isize::MAX,
    ensures
        r.of(luma@, width as int, height as int),
{
    Gradients {
        gx: horizontal_sobel(width, height, luma),
        gy: vertical_sobel(width, height, luma),
    }
}

/// What the samples of a pixel stand for.
#[derive(Clone, Copy, Debug, PartialEq, Eq, Structural)]
pub enum Layout {
    Luma,
    LumaAlpha,
    Rgb,
    Rgba,
}

/// The samples of an image, pixel by pixel.
pub enum Samples {
    Bits8(Vec<u8>),
    Bits16(Vec<u16>),
}

/// An image as it was read from a file.
pub struct SourceImage {
    pub width: u32,
    pub height: u32,
    pub layout: Layout,
    pub samples: Samples,
}

impl Layout {
    /// How many samples a pixel has.
    pub open spec fn channels(self) -> int {
        match self {
            Layout::Luma => 1,
            Layout::LumaAlpha => 2,
            Layout::Rgb => 3,
            Layout::Rgba => 4,
        }
    }

    /// Whether pixels have a colour.
    pub open spec fn coloured(self) -> bool {
        self is Rgb || self is Rgba
    }

    /// Which sample of an image gives colour value `c` of pixel `p`.
    pub open spec fn sample(self, p: int, c: int) -> int {
        p * self.channels() + (if self.coloured() {
            c
        } else {
            0
        })
    }
}

/// Where an image has no rows, the length of a row can be computed all the same.
pub open spec fn row_fits(width: u32, height: u32, channels: int) -> bool {
    height == 0 ==> width * channels <= usize::MAX
}

/// The 8-bit value nearest to a 16-bit value.
pub open spec fn narrowed(v: int) -> int {
    (v + 128) / 257
}

/// Whether `l` is the luma of a colour: the weighted sum of its values, up to six tenths
/// of a step. The values have `scale` steps for each step of `l`.
pub open spec fn is_luma(l: int, scale: int, r: int, g: int, b: int) -> bool {
    let weighted = 2126 * r + 7152 * g + 722 * b;
    -6000 * scale <= 10000 * scale * l - weighted <= 6000 * scale
}

impl SourceImage {
    pub open spec fn wf(self) -> bool {
        match self.samples {
            Samples::Bits8(v) => v@.len() == self.width * self.height * self.layout.channels(),
            Samples::Bits16(v) => v@.len() == self.width * self.height * self.layout.channels(),
        }
    }

    /// The buffers of the image and of its colours are no longer than a buffer can be.
    pub open spec fn fits(self) -> bool {
        &&& self.width * self.height * 3 <= isize::MAX
        &&& row_fits(self.width, self.height, self.layout.channels())
        &&& row_fits(self.width, self.height, 3)
    }

    /// Sample `i`, as 8 bits.
    pub open spec fn sample8(self, i: int) -> int {
        match self.samples {
            Samples::Bits8(v) => v@[i] as int,
            Samples::Bits16(v) => narrowed(v@[i] as int),
        }
    }

    /// Whether `l` is the luma of pixel `p`.
    pub open spec fn luma_of(self, p: int, l: int) -> bool {
        if self.layout.coloured() {
            let i = self.layout.sample(p, 0);
            match self.samples {
                Samples::Bits8(v) => is_luma(
                    l,
                    1,
                    v@[i] as int,
                    v@[i + 1] as int,
                    v@[i + 2] as int,
                ),
                Samples::Bits16(v) => is_luma(
                    l,
                    257,
                    v@[i] as int,
                    v@[i + 1] as int,
                    v@[i + 2] as int,
                ),
            }
        } else {
            l == self.sample8(self.layout.sample(p, 0))
        }
    }
}

/// Whether pixel `p` of two images has the same samples.
pub open spec fn same_pixel(a: SourceImage, b: SourceImage, p: int) -> bool {
    let n = a.layout.channels();
    &&& a.layout == b.layout
    &&& match (a.samples, b.samples) {
        (Samples::Bits8(u), Samples::Bits8(v)) => forall|c: int|
            0 <= c < n ==> u@[#[trigger] (p * n + c)] == v@[p * n + c],
        (Samples::Bits16(u), Samples::Bits16(v)) => forall|c: int|
            0 <= c < n ==> u@[#[trigger] (p * n + c)] == v@[p * n + c],
        _ => false,
    }
}

/// `image::DynamicImage::to_luma8`, of 8-bit samples: the luma samples where the image has
/// them; else each pixel's colour values added up with the luma weights of sRGB, which the
/// outside code derives and adds in floating point and rounds. Which neighbouring value a
/// sum close to the middle is rounded to is not said: it may differ between machines.
#[verifier::external_body]
fn luma_from_8(width: u32, height: u32, layout: Layout, samples: &Vec<u8>) -> (r: Vec<u8>)
    requires
        samples@.len() == width * height * layout.channels(),
        row_fits(width, height, layout.channels()),
    ensures
        r@.len() == width * height,
        forall|p: int|
            #![trigger r@[p]]
            0 <= p < width * height ==> if layout.coloured() {
                is_luma(
                    r@[p] as int,
                    1,
                    samples@[layout.sample(p, 0)] as int,
                    samples@[layout.sample(p, 1)] as int,
                    samples@[layout.sample(p, 2)] as int,
                )
            } else {
                r@[p] == samples@[layout.sample(p, 0)]
            },
{
    let (w, h, v) = (width, height, samples.clone());
    let image = match layout {
        Layout::Luma => ImageBuffer::from_raw(w, h, v).map(DynamicImage::ImageLuma8),
        Layout::LumaAlpha => ImageBuffer::from_raw(w, h, v).map(DynamicImage::ImageLumaA8),
        Layout::Rgb => ImageBuffer::from_raw(w, h, v).map(DynamicImage::ImageRgb8),
        Layout::Rgba => ImageBuffer::from_raw(w, h, v).map(DynamicImage::ImageRgba8),
    };
    image.unwrap().to_luma8().into_raw()
}

/// `image::DynamicImage::to_luma8`, of 16-bit samples: as of 8-bit samples, the luma
/// samples narrowed to 8 bits.
#[verifier::external_body]
fn luma_from_16(width: u32, height: u32, layout: Layout, samples: &Vec<u16>) -> (r: Vec<u8>)
    requires
        samples@.len() == width * height * layout.channels(),
        row_fits(width, height, layout.channels()),
    ensures
        r@.len() == width * height,
        forall|p: int|
            #![trigger r@[p]]
            0 <= p < width * height ==> if layout.coloured() {
                is_luma(
                    r@[p] as int,
                    257,
                    samples@[layout.sample(p, 0)] as int,
                    samples@[layout.sample(p, 1)] as int,
                    samples@[layout.sample(p, 2)] as int,
                )
            } else {
                r@[p] == narrowed(samples@[layout.sample(p, 0)] as int)
            },
{
    let (w, h, v) = (width, height, samples.clone());
    let image = match layout {
        Layout::Luma => ImageBuffer::from_raw(w, h, v).map(DynamicImage::ImageLuma16),
        Layout::LumaAlpha => ImageBuffer::from_raw(w, h, v).map(DynamicImage::ImageLumaA16),
        Layout::Rgb => ImageBuffer::from_raw(w, h, v).map(DynamicImage::ImageRgb16),
        Layout::Rgba => ImageBuffer::from_raw(w, h, v).map(DynamicImage::ImageRgba16),
    };
    image.unwrap().to_luma8().into_raw()
}

/// `image::DynamicImage::into_rgb8`, of 8-bit samples: the colour values as they are,
/// without alpha; a luma sample stands for all three.
#[verifier::external_body]
fn rgb_from_8(width: u32, height: u32, layout: Layout, samples: &Vec<u8>) -> (r: Vec<u8>)
    requires
        samples@.len() == width * height * layout.channels(),
        row_fits(width, height, layout.channels()),
        row_fits(width, height, 3),
        width * height * 3 <= isize::MAX,
    ensures
        r@.len() == width * height * 3,
        forall|p: int, c: int|
            #![trigger layout.sample(p, c)]
            0 <= p < width * height && 0 <= c < 3 ==> r@[3 * p + c] == samples@[layout.sample(
                p,
                c,
            )],
{
    let (w, h, v) = (width, height, samples.clone());
    let image = match layout {
        Layout::Luma => ImageBuffer::from_raw(w, h, v).map(DynamicImage::ImageLuma8),
        Layout::LumaAlpha => ImageBuffer::from_raw(w, h, v).map(DynamicImage::ImageLumaA8),
        Layout::Rgb => ImageBuffer::from_raw(w, h, v).map(DynamicImage::ImageRgb8),
        Layout::Rgba => ImageBuffer::from_raw(w, h, v).map(DynamicImage::ImageRgba8),
    };
    image.unwrap().into_rgb8().into_raw()
}

/// `image::DynamicImage::into_rgb8`, of 16-bit samples: as of 8-bit samples, each value
/// narrowed to 8 bits.
#[verifier::external_body]
fn rgb_from_16(width: u32, height: u32, layout: Layout, samples: &Vec<u16>) -> (r: Vec<u8>)
    requires
        samples@.len() == width * height * layout.channels(),
        row_fits(width, height, layout.channels()),
        row_fits(width, height, 3),
        width * height * 3 <= isize::MAX,
    ensures
        r@.len() == width * height * 3,
        forall|p: int, c: int|
            #![trigger layout.sample(p, c)]
            0 <= p < width * height && 0 <= c < 3 ==> r@[3 * p + c] == narrowed(
                samples@[layout.sample(p, c)] as int,
            ),
{
    let (w, h, v) = (width, height, samples.clone());
    let image = match layout {
        Layout::Luma => ImageBuffer::from_raw(w, h, v).map(DynamicImage::ImageLuma16),
        Layout::LumaAlpha => ImageBuffer::from_raw(w, h, v).map(DynamicImage::ImageLumaA16),
        Layout::Rgb => ImageBuffer::from_raw(w, h, v).map(DynamicImage::ImageRgb16),
        Layout::Rgba => ImageBuffer::from_raw(w, h, v).map(DynamicImage::ImageRgba16),
    };
    image.unwrap().into_rgb8().into_raw()
}

impl Planes {
    /// These are the luma and the colours of an image.
    pub open spec fn of(self, image: SourceImage) -> bool {
        &&& self.wf()
        &&& self.width == image.width
        &&& self.height == image.height
        &&& forall|p: int|
            0 <= p < image.width * image.height ==> image.luma_of(p, #[trigger] self.luma@[p] as int)
        &&& forall|p: int, c: int|
            #![trigger image.layout.sample(p, c)]
            0 <= p < image.width * image.height && 0 <= c < 3 ==> self.rgb@[3 * p + c]
                == image.sample8(image.layout.sample(p, c))
    }
}

/// Reads the luma and the colours of an image.
pub fn read_planes(image: &SourceImage) -> (r: Planes)
    requires
        image.wf(),
        image.fits(),
    ensures
        r.of(*image),
{
    let (width, height, layout) = (image.width, image.height, image.layout);
    match &image.samples {
        Samples::Bits8(v) => Planes {
            width,
            height,
            luma: luma_from_8(width, height, layout, v),
            rgb: rgb_from_8(width, height, layout, v),
        },
        Samples::Bits16(v) => Planes {
            width,
            height,
            luma: luma_from_16(width, height, layout, v),
            rgb: rgb_from_16(width, height, layout, v),
        },
    }
}

/// A pixel of a coloured image whose three 8-bit values are equal has that value as its
/// luma.
pub proof fn law_grey_keeps_its_value(image: SourceImage, planes: Planes, p: int, v: u8)
    requires
        image.wf(),
        planes.of(image),
        0 <= p < image.width * image.height,
        image.layout.coloured(),
        image.samples is Bits8,
        forall|c: int|
            0 <= c < 3 ==> image.sample8(#[trigger] image.layout.sample(p, c)) == v as int,
    ensures
        planes.luma@[p] == v,
        forall|c: int| 0 <= c < 3 ==> #[trigger] planes.rgb@[3 * p + c] == v,
{
    let i = image.layout.sample(p, 0);
    assert(image.sample8(i) == v as int);
    assert(image.sample8(image.layout.sample(p, 1)) == v as int);
    assert(image.sample8(image.layout.sample(p, 2)) == v as int);
    let l = planes.luma@[p] as int;
    assert(image.luma_of(p, l));
    assert(is_luma(l, 1, v as int, v as int, v as int));
    assert(10000 * 1 * l == 10000 * l) by (nonlinear_arith);
    assert forall|c: int| 0 <= c < 3 implies #[trigger] planes.rgb@[3 * p + c] == v by {
        assert(image.sample8(image.layout.sample(p, c)) == v as int);
    }
}

/// Whether `cropped` is the upper left part of `frame`, as large as asked for as far as
/// the frame goes.
pub open spec fn is_crop(cropped: RgbFrame, frame: RgbFrame, width: u32, height: u32) -> bool {
    &&& cropped.wf()
    &&& cropped.width == if width < frame.width {
        width
    } else {
        frame.width
    }
    &&& cropped.height == if height < frame.height {
        height
    } else {
        frame.height
    }
    &&& forall|x: int, y: int, c: int|
        #![trigger cropped.at(x, y, c)]
        0 <= x < cropped.width && 0 <= y < cropped.height && 0 <= c < 3 ==> cropped.at(x, y, c)
            == frame.at(x, y, c)
}

impl RgbFrame {
    /// Colour value `c` of the pixel at a position.
    pub open spec fn at(self, x: int, y: int, c: int) -> u8 {
        self.data@[(y * self.width + x) * 3 + c]
    }

    /// The upper left part of the frame, which goes no further than the frame does:
    /// `image::imageops::crop_imm`.
    #[verifier::external_body]
    pub(crate) fn crop(self, width: u32, height: u32) -> (r: RgbFrame)
        requires
            self.wf(),
            row_fits(self.width, self.height, 3),
        ensures
            is_crop(r, self, width, height),
    {
        let image = image::RgbImage::from_raw(self.width, self.height, self.data).unwrap();
        let part = image::imageops::crop_imm(&image, 0, 0, width, height).to_image();
        RgbFrame { width: part.width(), height: part.height(), data: part.into_raw() }
    }
}

/// Whether `m` is the length of a gradient, rounded to the nearest integer and at most 255.
pub open spec fn is_magnitude(gx: int, gy: int, m: int) -> bool {
    let s = gx * gx + gy * gy;
    &&& 0 <= m <= 255
    &&& m > 0 ==> (2 * m - 1) * (2 * m - 1) < 4 * s
    &&& m < 255 ==> 4 * s < (2 * m + 1) * (2 * m + 1)
}

/// The length of a gradient, rounded to the nearest integer and at most 255.
pub fn magnitude(gx: i16, gy: i16) -> (r: u8)
    ensures
        is_magnitude(gx as int, gy as int, r as int),
{
    let (x, y) = (gx as i64, gy as i64);
    assert(0 <= x * x <= 32768 * 32768 && 0 <= y * y <= 32768 * 32768) by (nonlinear_arith)
        requires
            -32768 <= x <= 32768,
            -32768 <= y <= 32768,
    ;
    let s: i64 = x * x + y * y;
    let mut m: i64 = 0;
    while m < 255 && 4 * s > (2 * m + 1) * (2 * m + 1)
        invariant
            0 <= m <= 255,
            s == gx * gx + gy * gy,
            0 <= s <= 2 * 32768 * 32768,
            m > 0 ==> (2 * m - 1) * (2 * m - 1) < 4 * s,
            (2 * m + 1) * (2 * m + 1) <= 511 * 511,
        decreases 255 - m,
    {
        m = m + 1;
        assert((2 * m + 1) * (2 * m + 1) <= 511 * 511) by (nonlinear_arith)
            requires
                0 <= m <= 255,
        ;
    }
    assert((2 * m + 1) * (2 * m + 1) == 4 * (m * m + m) + 1) by (nonlinear_arith);
    m as u8
}

impl Gradients {
    /// The length of each gradient, rounded to the nearest integer and at most 255.
    pub fn magnitudes(&self) -> (r: Vec<u8>)
        requires
            self.gx@.len() == self.gy@.len(),
        ensures
            r@.len() == self.gx@.len(),
            forall|i: int|
                0 <= i < r@.len() ==> is_magnitude(
                    self.gx@[i] as int,
                    self.gy@[i] as int,
                    #[trigger] r@[i] as int,
                ),
    {
        let mut out: Vec<u8> = Vec::new();
        let mut i: usize = 0;
        while i < self.gx.len()
            invariant
                self.gx@.len() == self.gy@.len(),
                i == out@.len(),
                i <= self.gx@.len(),
                forall|k: int|
                    0 <= k < i ==> is_magnitude(
                        self.gx@[k] as int,
                        self.gy@[k] as int,
                        #[trigger] out@[k] as int,
                    ),
            decreases self.gx@.len() - i,
        {
            out.push(magnitude(self.gx[i], self.gy[i]));
            i = i + 1;
        }
        out
    }
}

/// A Sobel response lies between -1020 and 1020, and is 0 where the image is flat.
pub proof fn law_sobel_range(luma: Seq<u8>, width: int, height: int, x: int, y: int, flat: u8)
    requires
        luma.len() == width * height,
        0 <= x < width,
        0 <= y < height,
    ensures
        -1020 <= sobel_x(luma, width, height, x, y) <= 1020,
        -1020 <= sobel_y(luma, width, height, x, y) <= 1020,
        (forall|i: int| 0 <= i < luma.len() ==> #[trigger] luma[i] == flat) ==> sobel_x(
            luma,
            width,
            height,
            x,
            y,
        ) == 0 && sobel_y(luma, width, height, x, y) == 0,
{
    assert forall|u: int, v: int|
        #![trigger luma_at(luma, width, height, u, v)]
        0 <= clamp_to(v, height) * width + clamp_to(u, width) < luma.len() && 0 <= luma_at(
            luma,
            width,
            height,
            u,
            v,
        ) <= 255 by {
        let (cu, cv) = (clamp_to(u, width), clamp_to(v, height));
        assert(0 <= cv * width + cu < width * height) by (nonlinear_arith)
            requires
                0 <= cu < width,
                0 <= cv < height,
        ;
        let value: u8 = luma[cv * width + cu];
        assert(0 <= value <= 255);
    }
}

} // verus!
