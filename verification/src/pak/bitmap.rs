//! Bitmaps as stored in a `.pak` file.
use vstd::prelude::*;

verus! {

/// Describes the channels of a `Bitmap`.
#[derive(Clone, Copy, Debug, PartialEq, Eq, Structural, Hash)]
pub enum BitmapFormat {
    /// Red channel only.
    R,
    /// Red and green channels.
    Rg,
    /// Red, green and blue channels.
    Rgb,
    /// Red, green, blue and alpha channels.
    Rgba,
}

/// The number of bytes of one pixel of the given format.
pub open spec fn format_byte_len(fmt: BitmapFormat) -> nat {
    match fmt {
        BitmapFormat::R => 1,
        BitmapFormat::Rg => 2,
        BitmapFormat::Rgb => 3,
        BitmapFormat::Rgba => 4,
    }
}

impl BitmapFormat {
    /// Returns the number of bytes each pixel advances the bitmap stream.
    pub fn byte_len(self) -> (r: usize)
        ensures
            r == format_byte_len(self),
    {
        match self {
            BitmapFormat::R => 1,
            BitmapFormat::Rg => 2,
            BitmapFormat::Rgb => 3,
            BitmapFormat::Rgba => 4,
        }
    }
}

/// Describes the color space of a `Bitmap`.
#[derive(Clone, Copy, Debug, PartialEq, Eq, Structural, Hash)]
pub enum BitmapColor {
    /// Linear color.
    Linear,
    /// Standard RGB color.
    Srgb,
}

/// The abstract content of a bitmap.
pub struct BitmapBufView {
    /// The color space.
    pub color: BitmapColor,
    /// The channel format.
    pub fmt: BitmapFormat,
    /// The pixel data, row by row, tightly packed.
    pub pixels: Seq<u8>,
    /// The width in pixels.
    pub width: u32,
}

/// Holds a `Bitmap` in a `.pak` file. For data transport only.
pub struct BitmapBuf {
    color: BitmapColor,
    fmt: BitmapFormat,
    pixels: Vec<u8>,
    width: u32,
}

/// The height of a bitmap whose pixel data is `len` bytes long: the length, cut to 32 bits,
/// divided by the width and then by the bytes of one pixel.
pub open spec fn bitmap_height(len: nat, width: u32, fmt: BitmapFormat) -> u32
    recommends
        width > 0,
{
    (((len % 0x1_0000_0000) / (width as nat)) / format_byte_len(fmt)) as u32
}

impl View for BitmapBuf {
    type V = BitmapBufView;

    closed spec fn view(&self) -> BitmapBufView {
        BitmapBufView { color: self.color, fmt: self.fmt, pixels: self.pixels@, width: self.width }
    }
}

impl BitmapBuf {
    /// A bitmap of the given color space and format, `width` pixels wide, whose pixel data is
    /// tightly packed (no additional stride).
    pub fn new(color: BitmapColor, fmt: BitmapFormat, width: u32, pixels: Vec<u8>) -> (r: Self)
        ensures
            r@.color == color,
            r@.fmt == fmt,
            r@.width == width,
            r@.pixels == pixels@,
    {
        BitmapBuf { color, fmt, pixels, width }
    }

    /// The color space of this bitmap.
    pub fn color(&self) -> (r: BitmapColor)
        ensures
            r == self@.color,
    {
        self.color
    }

    /// Gets the dimensions, in pixels, of this bitmap.
    pub fn extent(&self) -> (r: (u32, u32))
        requires
            self@.width > 0,
        ensures
            r == (self@.width, bitmap_height(self@.pixels.len(), self@.width, self@.fmt)),
    {
        (self.width(), self.height())
    }

    /// Gets a description of the number of channels contained in this bitmap.
    pub fn format(&self) -> (r: BitmapFormat)
        ensures
            r == self@.fmt,
    {
        self.fmt
    }

    /// The height in pixels, derived from the length of the pixel data.
    pub fn height(&self) -> (r: u32)
        requires
            self@.width > 0,
        ensures
            r == bitmap_height(self@.pixels.len(), self@.width, self@.fmt),
    {
        let len = (self.pixels.len() as u64 % 0x1_0000_0000u64) as u32;
        let byte_height = len / self.width;
        match self.fmt {
            BitmapFormat::R => byte_height,
            BitmapFormat::Rg => byte_height / 2,
            BitmapFormat::Rgb => byte_height / 3,
            BitmapFormat::Rgba => {
                assert(byte_height >> 2u32 == byte_height / 4) by (bit_vector);
                byte_height >> 2u32
            },
        }
    }

    /// The bytes of the pixel at column `x` of row `y`.
    pub fn pixel(&self, x: u32, y: u32) -> (r: &[u8])
        requires
            self@.width * format_byte_len(self@.fmt) <= usize::MAX,
            y * (self@.width * format_byte_len(self@.fmt)) + x * format_byte_len(self@.fmt)
                + format_byte_len(self@.fmt) <= self@.pixels.len(),
        ensures
            ({
                let n = format_byte_len(self@.fmt) as int;
                let offset = y * (self@.width * n) + x * n;
                r@ == self@.pixels.subrange(offset, offset + n)
            }),
    {
        let n = self.fmt.byte_len();
        let stride = self.stride();
        proof {
            assert(y * stride >= 0) by (nonlinear_arith)
                requires y >= 0, stride >= 0;
            assert(x * n >= 0) by (nonlinear_arith)
                requires x >= 0, n >= 0;
        }
        let len = self.pixels.len();
        proof {
            assert((y as int) * (stride as int) + (x as int) * (n as int) + (n as int) <= len as int);
        }
        let offset = y as usize * stride + x as usize * n;
        &self.pixels.as_slice()[offset..offset + n]
    }

    /// The pixel data.
    pub fn pixels(&self) -> (r: &[u8])
        ensures
            r@ == self@.pixels,
    {
        self.pixels.as_slice()
    }

    /// The pixel data converted, pixel by pixel, to four bytes per pixel: the leading channels
    /// common to both formats are copied and the rest are zero. A trailing partial pixel counts
    /// as a pixel; it must hold the channels that are copied.
    pub fn pixels_as_format(&self, dst_fmt: BitmapFormat) -> (r: Vec<u8>)
        requires
            ({
                let n = format_byte_len(self@.fmt);
                let m = format_byte_len(dst_fmt);
                self@.pixels.len() % n == 0 || self@.pixels.len() % n >= if n < m { n } else { m }
            }),
        ensures
            ({
                let n = format_byte_len(self@.fmt) as int;
                let m = format_byte_len(dst_fmt) as int;
                let count = (self@.pixels.len() + n - 1) / n;
                &&& r@.len() == 4 * count
                &&& forall|p: int, c: int|
                    0 <= p < count && 0 <= c < 4 ==> #[trigger] r@[4 * p + c] == if c < n && c < m {
                        self@.pixels[p * n + c]
                    } else {
                        0u8
                    }
            }),
    {
        let n = self.fmt.byte_len();
        let m = dst_fmt.byte_len();
        let stride = if n < m { n } else { m };
        let len = self.pixels.len();
        let whole = len / n;
        let count = if len % n == 0 { whole } else { whole + 1 };
        proof {
            assert(whole * n + len % n == len) by (nonlinear_arith)
                requires whole == len / n, n >= 1;
            assert(count as int == (len + n - 1) / (n as int)) by (nonlinear_arith)
                requires
                    whole == len / n,
                    n >= 1,
                    count as int == if len % n == 0 { whole as int } else { whole + 1 },
                    whole * n + len % n == len,
            ;
        }
        let mut r: Vec<u8> = Vec::new();
        let mut p: usize = 0;
        while p < count
            invariant
                n == format_byte_len(self@.fmt),
                m == format_byte_len(dst_fmt),
                1 <= n <= 4,
                stride == if n < m { n } else { m },
                whole == len / n,
                whole * n + len % n == len,
                count as int == if len % n == 0 { whole as int } else { whole + 1 },
                len % n == 0 || len % n >= stride,
                len == self@.pixels.len(),
                p <= count,
                r@.len() == 4 * p,
                forall|q: int, c: int|
                    0 <= q < p && 0 <= c < 4 ==> #[trigger] r@[4 * q + c] == if c < n && c < m {
                        self@.pixels[q * n + c]
                    } else {
                        0u8
                    },
            decreases count - p,
        {
            proof {
                if p < whole {
                    assert(p * n + n <= whole * n) by (nonlinear_arith)
                        requires p < whole, n >= 1;
                } else {
                    assert(p * n == whole * n);
                }
            }
            let base = p * n;
            let ghost r0 = r@;
            let mut c: usize = 0;
            while c < 4
                invariant
                    n == format_byte_len(self@.fmt),
                    m == format_byte_len(dst_fmt),
                    stride == if n < m { n } else { m },
                    base == p * n,
                    base + stride <= self@.pixels.len(),
                    len == self@.pixels.len(),
                    c <= 4,
                    r@.len() == 4 * p + c,
                    forall|k: int| 0 <= k < 4 * p ==> #[trigger] r@[k] == r0[k],
                    forall|k: int|
                        0 <= k < c ==> #[trigger] r@[4 * p + k] == if k < n && k < m {
                            self@.pixels[p * n + k]
                        } else {
                            0u8
                        },
                decreases 4 - c,
            {
                if c < stride {
                    r.push(self.pixels[base + c]);
                } else {
                    r.push(0u8);
                }
                c = c + 1;
            }
            proof {
                assert forall|q: int, c: int| 0 <= q < p + 1 && 0 <= c < 4 implies #[trigger] r@[4 * q + c]
                    == if c < n && c < m { self@.pixels[q * n + c] } else { 0u8 } by {
                    if q < p {
                        assert(4 * q + c < 4 * p);
                        assert(r@[4 * q + c] == r0[4 * q + c]);
                    }
                }
            }
            p = p + 1;
        }
        r
    }

    /// Bytes per row of pixels (there is no padding).
    pub fn stride(&self) -> (r: usize)
        requires
            self@.width * format_byte_len(self@.fmt) <= usize::MAX,
        ensures
            r == self@.width * format_byte_len(self@.fmt),
    {
        self.width as usize * self.fmt.byte_len()
    }

    /// The width in pixels.
    pub fn width(&self) -> (r: u32)
        ensures
            r == self@.width,
    {
        self.width
    }
}

} // verus!
