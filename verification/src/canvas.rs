//! In-memory images: tightly packed RGB and RGBA pixel grids.

use vstd::pervasive::VecAdditionalExecFns;
use vstd::prelude::*;

use crate::pixel::blend_channel_spec;
use crate::pixel::blend_linear;
use crate::units::{MAX_DIMENSION, UNIT};

verus! {

/// A width x height grid of RGB pixels, three bytes per pixel in row-major
/// order.
#[verifier::ext_equal]
pub struct Canvas {
    pub width: u32,
    pub height: u32,
    pub data: Vec<u8>,
}

/// A width x height grid of RGBA pixels, four bytes per pixel in row-major
/// order.
#[verifier::ext_equal]
pub struct RgbaCanvas {
    pub width: u32,
    pub height: u32,
    pub data: Vec<u8>,
}

/// The spec-level view of a canvas: the same grid with the byte store as a
/// mathematical sequence.
pub struct CanvasModel {
    pub width: u32,
    pub height: u32,
    pub data: Seq<u8>,
}

impl CanvasModel {
    /// Number of pixels in the grid.
    pub open spec fn pixel_count(self) -> int {
        self.width * self.height
    }

    /// The byte store holds exactly three bytes per pixel and the
    /// dimensions are within the accepted range.
    pub open spec fn well_formed(self) -> bool {
        self.width <= MAX_DIMENSION && self.height <= MAX_DIMENSION && self.data.len() == 3
            * self.pixel_count()
    }

    /// Channel `c` of the pixel at `(x, y)`.
    pub open spec fn channel_spec(self, x: int, y: int, c: int) -> u8 {
        self.data[3 * (y * self.width + x) + c]
    }
}

impl Canvas {
    /// The spec-level view of the canvas.
    pub open spec fn model(self) -> CanvasModel {
        CanvasModel { width: self.width, height: self.height, data: self.data@ }
    }

    /// Number of pixels in the grid.
    pub open spec fn pixel_count(self) -> int {
        self.width * self.height
    }

    /// The byte store holds exactly three bytes per pixel and the
    /// dimensions are within the accepted range.
    pub open spec fn well_formed(self) -> bool {
        self.width <= MAX_DIMENSION && self.height <= MAX_DIMENSION && self.data@.len() == 3
            * self.pixel_count()
    }

    /// Channel `c` of the pixel at `(x, y)`.
    pub open spec fn channel_spec(self, x: int, y: int, c: int) -> u8 {
        self.data@[3 * (y * self.width + x) + c]
    }

    /// A canvas of the given size filled with one color.
    pub fn from_pixel(width: u32, height: u32, color: [u8; 3]) -> (r: Canvas)
        requires
            width <= MAX_DIMENSION,
            height <= MAX_DIMENSION,
        ensures
            r.well_formed(),
            r.width == width,
            r.height == height,
            forall|x: int, y: int, c: int|
                0 <= x < width && 0 <= y < height && 0 <= c < 3 ==> r.channel_spec(x, y, c)
                    == color@[c],
    {
        proof {
            assert(0 <= (width as int) * (height as int) <= (MAX_DIMENSION as int) * (
            MAX_DIMENSION as int)) by (nonlinear_arith)
                requires
                    0 <= width <= MAX_DIMENSION,
                    0 <= height <= MAX_DIMENSION,
            ;
        }
        let pixels: usize = (width as usize) * (height as usize);
        let total: usize = 3 * pixels;
        let mut data: Vec<u8> = Vec::new();
        let mut i: usize = 0;
        while i < total
            invariant
                total == 3 * ((width as int) * (height as int)),
                total <= 3 * ((MAX_DIMENSION as int) * (MAX_DIMENSION as int)),
                0 <= i <= total,
                data@.len() == i,
                forall|j: int| 0 <= j < i ==> data@[j] == color@[j % 3],
            decreases total - i,
        {
            data.push(color[i % 3]);
            i = i + 1;
        }
        let r = Canvas { width, height, data };
        proof {
            assert forall|x: int, y: int, c: int|
                0 <= x < width && 0 <= y < height && 0 <= c < 3 implies r.channel_spec(x, y, c)
                == color@[c] by {
                lemma_pixel_index_bound(width as int, height as int, x, y);
                let idx = 3 * (y * width + x) + c;
                assert(idx % 3 == c) by (nonlinear_arith)
                    requires
                        0 <= c < 3,
                        idx == 3 * (y * (width as int) + x) + c,
                        y * (width as int) + x >= 0,
                ;
            }
        }
        r
    }

    /// A black canvas of the given size.
    pub fn new(width: u32, height: u32) -> (r: Canvas)
        requires
            width <= MAX_DIMENSION,
            height <= MAX_DIMENSION,
        ensures
            r.well_formed(),
            r.width == width,
            r.height == height,
            forall|x: int, y: int, c: int|
                0 <= x < width && 0 <= y < height && 0 <= c < 3 ==> r.channel_spec(x, y, c) == 0,
    {
        Canvas::from_pixel(width, height, [0u8, 0u8, 0u8])
    }

    /// A canvas over an existing byte store; rejects a store whose length
    /// does not match the dimensions, and dimensions beyond the accepted
    /// range.
    pub fn from_raw(width: u32, height: u32, data: Vec<u8>) -> (r: Option<Canvas>)
        ensures
            ({
                if (Canvas { width, height, data }).well_formed() {
                    r matches Option::Some(c) && c == (Canvas { width, height, data })
                } else {
                    r is None
                }
            }),
    {
        if width > MAX_DIMENSION || height > MAX_DIMENSION {
            return None;
        }
        proof {
            assert(0 <= (width as int) * (height as int) <= (MAX_DIMENSION as int) * (
            MAX_DIMENSION as int)) by (nonlinear_arith)
                requires
                    0 <= width <= MAX_DIMENSION,
                    0 <= height <= MAX_DIMENSION,
            ;
        }
        let expected: u64 = 3 * ((width as u64) * (height as u64));
        if (data.len() as u64) != expected {
            return None;
        }
        Some(Canvas { width, height, data })
    }

    /// The raw byte store.
    pub fn as_raw(&self) -> (r: &Vec<u8>)
        ensures
            r@ == self.data@,
    {
        &self.data
    }

    /// Width and height in pixels.
    pub fn dimensions(&self) -> (r: (u32, u32))
        ensures
            r.0 == self.width,
            r.1 == self.height,
    {
        (self.width, self.height)
    }

    /// The pixel at `(x, y)`.
    pub fn get_pixel(&self, x: u32, y: u32) -> (r: [u8; 3])
        requires
            self.well_formed(),
            x < self.width,
            y < self.height,
        ensures
            forall|c: int| 0 <= c < 3 ==> r@[c] == self.channel_spec(x as int, y as int, c),
    {
        proof {
            lemma_pixel_index_bound(self.width as int, self.height as int, x as int, y as int);
        }
        let idx: usize = 3 * ((y as usize) * (self.width as usize) + (x as usize));
        [self.data[idx], self.data[idx + 1], self.data[idx + 2]]
    }

    /// Overwrite the pixel at `(x, y)`; every other byte is untouched.
    pub fn put_pixel(&mut self, x: u32, y: u32, pixel: [u8; 3])
        requires
            old(self).well_formed(),
            x < old(self).width,
            y < old(self).height,
        ensures
            final(self).width == old(self).width,
            final(self).height == old(self).height,
            final(self).well_formed(),
            final(self).data@ == old(self).data@.update(
                3 * (y * old(self).width + x),
                pixel@[0],
            ).update(3 * (y * old(self).width + x) + 1, pixel@[1]).update(
                3 * (y * old(self).width + x) + 2,
                pixel@[2],
            ),
    {
        proof {
            lemma_pixel_index_bound(self.width as int, self.height as int, x as int, y as int);
        }
        let idx: usize = 3 * ((y as usize) * (self.width as usize) + (x as usize));
        self.data.set(idx, pixel[0]);
        self.data.set(idx + 1, pixel[1]);
        self.data.set(idx + 2, pixel[2]);
    }
}

/// The byte index of a pixel's last channel lies inside the store, which
/// itself fits a 32-bit machine word.
pub proof fn lemma_pixel_index_bound(w: int, h: int, x: int, y: int)
    requires
        0 <= x < w <= MAX_DIMENSION as int,
        0 <= y < h <= MAX_DIMENSION as int,
    ensures
        0 <= 3 * (y * w + x),
        3 * (y * w + x) + 2 < 3 * (w * h),
        3 * (w * h) <= 0x3000_0000,
{
    assert(0 <= 3 * (y * w + x) && 3 * (y * w + x) + 2 < 3 * (w * h) && 3 * (w * h)
        <= 0x3000_0000) by (nonlinear_arith)
        requires
            0 <= x < w <= MAX_DIMENSION as int,
            0 <= y < h <= MAX_DIMENSION as int,
            MAX_DIMENSION == 16383,
    ;
}

impl RgbaCanvas {
    /// Number of pixels in the grid.
    pub open spec fn pixel_count(self) -> int {
        self.width * self.height
    }

    /// The byte store holds exactly four bytes per pixel and the dimensions
    /// are within the accepted range.
    pub open spec fn well_formed(self) -> bool {
        self.width <= MAX_DIMENSION && self.height <= MAX_DIMENSION && self.data@.len() == 4
            * self.pixel_count()
    }

    /// A canvas over an existing byte store; rejects a store whose length
    /// does not match the dimensions.
    pub fn from_raw(width: u32, height: u32, data: Vec<u8>) -> (r: Option<RgbaCanvas>)
        ensures
            ({
                if (RgbaCanvas { width, height, data }).well_formed() {
                    r matches Option::Some(c) && c == (RgbaCanvas { width, height, data })
                } else {
                    r is None
                }
            }),
    {
        if width > MAX_DIMENSION || height > MAX_DIMENSION {
            return None;
        }
        proof {
            assert(0 <= (width as int) * (height as int) <= (MAX_DIMENSION as int) * (
            MAX_DIMENSION as int)) by (nonlinear_arith)
                requires
                    0 <= width <= MAX_DIMENSION,
                    0 <= height <= MAX_DIMENSION,
            ;
        }
        let expected: u64 = 4 * ((width as u64) * (height as u64));
        if (data.len() as u64) != expected {
            return None;
        }
        Some(RgbaCanvas { width, height, data })
    }

    /// The raw byte store.
    pub fn as_raw(&self) -> (r: &Vec<u8>)
        ensures
            r@ == self.data@,
    {
        &self.data
    }

    /// Width and height in pixels.
    pub fn dimensions(&self) -> (r: (u32, u32))
        ensures
            r.0 == self.width,
            r.1 == self.height,
    {
        (self.width, self.height)
    }
}

/// Wrap a raw byte buffer as an RGBA image.
pub fn convert_buffer_data_to_rgba_image(data: Vec<u8>, width: u32, height: u32) -> (r: RgbaCanvas)
    requires
        width <= MAX_DIMENSION,
        height <= MAX_DIMENSION,
        data@.len() == 4 * ((width as int) * (height as int)),
    ensures
        r == (RgbaCanvas { width, height, data }),
        r.well_formed(),
{
    RgbaCanvas { width, height, data }
}

/// Wrap a raw byte buffer as an RGB image.
pub fn convert_buffer_data_to_rgb_image(data: Vec<u8>, width: u32, height: u32) -> (r: Canvas)
    requires
        width <= MAX_DIMENSION,
        height <= MAX_DIMENSION,
        data@.len() == 3 * ((width as int) * (height as int)),
    ensures
        r == (Canvas { width, height, data }),
        r.well_formed(),
{
    Canvas { width, height, data }
}

/// Channel `c` of pixel `i` of a packed RGB byte store.
pub open spec fn rgb_channel_at(data: Seq<u8>, i: int, c: int) -> u8 {
    data[3 * i + c]
}

/// Channel `c` of pixel `i` of a packed RGBA byte store.
pub open spec fn rgba_channel_at(data: Seq<u8>, i: int, c: int) -> u8 {
    data[4 * i + c]
}

/// Drop the alpha channel of every pixel.
pub fn convert_rgba8_image_to_rgb8(input: &RgbaCanvas) -> (r: Canvas)
    requires
        input.well_formed(),
    ensures
        r.well_formed(),
        r.width == input.width,
        r.height == input.height,
        forall|i: int, c: int|
            0 <= i < input.pixel_count() && 0 <= c < 3 ==> #[trigger] rgb_channel_at(r.data@, i, c)
                == rgba_channel_at(input.data@, i, c),
{
    let len = input.data.len();
    let pixels: usize = len / 4;
    proof {
        assert(pixels == input.pixel_count()) by {
            assert(4 * input.pixel_count() / 4 == input.pixel_count()) by (nonlinear_arith);
        }
    }
    let mut data: Vec<u8> = Vec::new();
    let mut i: usize = 0;
    while i < pixels
        invariant
            input.well_formed(),
            pixels == input.pixel_count(),
            len == input.data@.len(),
            len == 4 * pixels,
            0 <= i <= pixels,
            data@.len() == 3 * i,
            forall|j: int, c: int|
                0 <= j < i && 0 <= c < 3 ==> #[trigger] rgb_channel_at(data@, j, c)
                    == rgba_channel_at(input.data@, j, c),
        decreases pixels - i,
    {
        let ghost prev = data@;
        data.push(input.data[4 * i]);
        data.push(input.data[4 * i + 1]);
        data.push(input.data[4 * i + 2]);
        i = i + 1;
        proof {
            assert forall|j: int, c: int| 0 <= j < i && 0 <= c < 3 implies #[trigger] rgb_channel_at(
                data@,
                j,
                c,
            ) == rgba_channel_at(input.data@, j, c) by {
                if j < i - 1 {
                    assert(3 * j + c < prev.len());
                    assert(data@[3 * j + c] == prev[3 * j + c]);
                    assert(rgb_channel_at(prev, j, c) == rgba_channel_at(input.data@, j, c));
                } else {
                    assert(3 * j + c == prev.len() + c);
                    assert(data@[prev.len() as int + c] == input.data@[4 * j + c]);
                }
            }
        }
    }
    Canvas { width: input.width, height: input.height, data }
}

/// Add an opaque alpha channel to every pixel.
pub fn convert_rgb8_image_to_rgba8(input: &Canvas) -> (r: RgbaCanvas)
    requires
        input.well_formed(),
    ensures
        r.well_formed(),
        r.width == input.width,
        r.height == input.height,
        forall|i: int, c: int|
            0 <= i < input.pixel_count() && 0 <= c < 3 ==> #[trigger] rgba_channel_at(r.data@, i, c)
                == rgb_channel_at(input.data@, i, c),
        forall|i: int|
            0 <= i < input.pixel_count() ==> #[trigger] rgba_channel_at(r.data@, i, 3) == 255,
{
    let len = input.data.len();
    let pixels: usize = len / 3;
    proof {
        assert(pixels == input.pixel_count()) by {
            assert(3 * input.pixel_count() / 3 == input.pixel_count()) by (nonlinear_arith);
        }
    }
    let mut data: Vec<u8> = Vec::new();
    let mut i: usize = 0;
    while i < pixels
        invariant
            input.well_formed(),
            pixels == input.pixel_count(),
            len == input.data@.len(),
            len == 3 * pixels,
            0 <= i <= pixels,
            data@.len() == 4 * i,
            forall|j: int, c: int|
                0 <= j < i && 0 <= c < 3 ==> #[trigger] rgba_channel_at(data@, j, c)
                    == rgb_channel_at(input.data@, j, c),
            forall|j: int| 0 <= j < i ==> #[trigger] rgba_channel_at(data@, j, 3) == 255,
        decreases pixels - i,
    {
        let ghost prev = data@;
        data.push(input.data[3 * i]);
        data.push(input.data[3 * i + 1]);
        data.push(input.data[3 * i + 2]);
        data.push(255u8);
        i = i + 1;
        proof {
            assert forall|j: int, c: int|
                0 <= j < i && 0 <= c < 3 implies #[trigger] rgba_channel_at(data@, j, c)
                == rgb_channel_at(input.data@, j, c) by {
                if j < i - 1 {
                    assert(4 * j + c < prev.len());
                    assert(data@[4 * j + c] == prev[4 * j + c]);
                    assert(rgba_channel_at(prev, j, c) == rgb_channel_at(input.data@, j, c));
                } else {
                    assert(4 * j + c == prev.len() + c);
                    assert(data@[prev.len() as int + c] == input.data@[3 * j + c]);
                }
            }
            assert forall|j: int| 0 <= j < i implies #[trigger] rgba_channel_at(data@, j, 3)
                == 255 by {
                if j < i - 1 {
                    assert(4 * j + 3 < prev.len());
                    assert(data@[4 * j + 3] == prev[4 * j + 3]);
                    assert(rgba_channel_at(prev, j, 3) == 255);
                } else {
                    assert(4 * j + 3 == prev.len() + 3);
                    assert(data@[prev.len() as int + 3] == 255);
                }
            }
        }
    }
    RgbaCanvas { width: input.width, height: input.height, data }
}

/// One channel of the color read at a fractional position (in millionths of
/// a pixel), bilinearly interpolated from the four surrounding pixels.
pub open spec fn interpolated_channel_spec(img: Canvas, x: int, y: int, c: int) -> u8 {
    let max_x = (img.width - 1) * (UNIT as int);
    let max_y = (img.height - 1) * (UNIT as int);
    let xx = if x < 0 {
        0
    } else if x > max_x {
        max_x
    } else {
        x
    };
    let yy = if y < 0 {
        0
    } else if y > max_y {
        max_y
    } else {
        y
    };
    let xf = xx % (UNIT as int);
    let yf = yy % (UNIT as int);
    let x1 = xx / (UNIT as int);
    let y1 = yy / (UNIT as int);
    let x2 = if xf == 0 {
        x1
    } else {
        x1 + 1
    };
    let y2 = if yf == 0 {
        y1
    } else {
        y1 + 1
    };
    let top = blend_channel_spec(img.channel_spec(x1, y1, c), img.channel_spec(x2, y1, c), xf);
    let bottom = blend_channel_spec(img.channel_spec(x1, y2, c), img.channel_spec(x2, y2, c), xf);
    blend_channel_spec(top, bottom, yf)
}

/// The color at a fractional position (in millionths of a pixel), clamped
/// to the canvas and bilinearly interpolated between the four nearest
/// pixels.
pub fn get_pixel_interpolated(image: &Canvas, x: i64, y: i64) -> (r: [u8; 3])
    requires
        image.well_formed(),
        image.width > 0,
        image.height > 0,
    ensures
        forall|c: int|
            0 <= c < 3 ==> r@[c] == interpolated_channel_spec(*image, x as int, y as int, c),
{
    let max_x: i64 = ((image.width - 1) as i64) * UNIT;
    let max_y: i64 = ((image.height - 1) as i64) * UNIT;
    let xx: i64 = if x < 0 {
        0
    } else if x > max_x {
        max_x
    } else {
        x
    };
    let yy: i64 = if y < 0 {
        0
    } else if y > max_y {
        max_y
    } else {
        y
    };
    let xf: i64 = xx % UNIT;
    let yf: i64 = yy % UNIT;
    let x1: u32 = (xx / UNIT) as u32;
    let y1: u32 = (yy / UNIT) as u32;
    proof {
        assert(0 <= (xx as int) / (UNIT as int) <= (image.width - 1) as int && (xf != 0 ==> (
        xx as int) / (UNIT as int) < (image.width - 1) as int)) by (nonlinear_arith)
            requires
                0 <= xx as int <= ((image.width - 1) as int) * (UNIT as int),
                xf as int == (xx as int) % (UNIT as int),
                UNIT == 1_000_000,
        ;
        assert(0 <= (yy as int) / (UNIT as int) <= (image.height - 1) as int && (yf != 0 ==> (
        yy as int) / (UNIT as int) < (image.height - 1) as int)) by (nonlinear_arith)
            requires
                0 <= yy as int <= ((image.height - 1) as int) * (UNIT as int),
                yf as int == (yy as int) % (UNIT as int),
                UNIT == 1_000_000,
        ;
    }
    let x2: u32 = if xf == 0 {
        x1
    } else {
        x1 + 1
    };
    let y2: u32 = if yf == 0 {
        y1
    } else {
        y1 + 1
    };
    let color_tl = image.get_pixel(x1, y1);
    let color_tr = image.get_pixel(x2, y1);
    let color_bl = image.get_pixel(x1, y2);
    let color_br = image.get_pixel(x2, y2);
    let color_t = blend_linear(&color_tl, &color_tr, xf);
    let color_b = blend_linear(&color_bl, &color_br, xf);
    blend_linear(&color_t, &color_b, yf)
}

/// What resampling an RGB byte store onto a new size produces; the result
/// depends only on the source bytes and the four dimensions.
pub uninterp spec fn resample_spec(data: Seq<u8>, sw: u32, sh: u32, dw: u32, dh: u32) -> Seq<u8>;

/// Relies on image::imageops::resize with the Catmull-Rom filter: a pure
/// resampling of the source pixels whose output holds exactly three bytes
/// per destination pixel.
#[verifier::external_body]
pub fn resize(image: &Canvas, width: u32, height: u32) -> (r: Canvas)
    requires
        image.well_formed(),
        width <= MAX_DIMENSION,
        height <= MAX_DIMENSION,
    ensures
        r.width == width,
        r.height == height,
        r.data@ == resample_spec(image.data@, image.width, image.height, width, height),
        r.data@.len() == 3 * ((width as int) * (height as int)),
        r.well_formed(),
{
    let buffer = image::ImageBuffer::<image::Rgb<u8>, Vec<u8>>::from_raw(
        image.width,
        image.height,
        image.data.clone(),
    ).expect("image buffer from canvas");
    let out = image::imageops::resize(
        &buffer,
        width,
        height,
        image::imageops::FilterType::CatmullRom,
    );
    Canvas { width, height, data: out.into_raw() }
}

} // verus!
