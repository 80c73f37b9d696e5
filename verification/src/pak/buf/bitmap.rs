//! Descriptions of regular images, and the conversion of their pixels.
use vstd::prelude::*;
use crate::pak::bitmap::{BitmapBuf, BitmapColor, BitmapFormat, format_byte_len};

verus! {

/// Holds a description of `.jpeg` and other regular images.
#[derive(Clone, Debug, PartialEq, Eq, Hash)]
pub struct Bitmap {
    color: Option<BitmapColor>,
    format: Option<BitmapFormat>,
    resize: Option<u32>,
    src: String,
}

/// The abstract description of a bitmap asset.
pub struct BitmapView {
    /// The color space, if given.
    pub color: Option<BitmapColor>,
    /// The channel format, if given.
    pub format: Option<BitmapFormat>,
    /// The size of the longer side to resize to, if given.
    pub resize: Option<u32>,
    /// The image file source path.
    pub src: Seq<char>,
}

impl View for Bitmap {
    type V = BitmapView;

    closed spec fn view(&self) -> BitmapView {
        BitmapView { color: self.color, format: self.format, resize: self.resize, src: self.src@ }
    }
}

impl Bitmap {
    /// Constructs a new bitmap description with the given image file source.
    pub fn new(src: String) -> (r: Self)
        ensures
            r@ == (BitmapView { color: None, format: None, resize: None, src: src@ }),
    {
        Bitmap { color: None, format: None, resize: None, src }
    }

    /// A bitmap description with every setting given.
    pub fn from_parts(
        color: Option<BitmapColor>,
        format: Option<BitmapFormat>,
        resize: Option<u32>,
        src: String,
    ) -> (r: Self)
        ensures
            r@ == (BitmapView { color, format, resize, src: src@ }),
    {
        Bitmap { color, format, resize, src }
    }

    /// The same description with the given color space.
    pub fn with_color(self, color: BitmapColor) -> (r: Self)
        ensures
            r@ == (BitmapView { color: Some(color), ..self@ }),
    {
        Bitmap { color: Some(color), ..self }
    }

    /// The same description with the given channel format.
    pub fn with_format(self, format: BitmapFormat) -> (r: Self)
        ensures
            r@ == (BitmapView { format: Some(format), ..self@ }),
    {
        Bitmap { format: Some(format), ..self }
    }

    /// The color space: sRGB unless given.
    pub fn color(&self) -> (r: BitmapColor)
        ensures
            r == match self@.color {
                Some(c) => c,
                None => BitmapColor::Srgb,
            },
    {
        match self.color {
            Some(c) => c,
            None => BitmapColor::Srgb,
        }
    }

    /// Specific pixel channels used: red, green, blue and alpha unless given.
    pub fn format(&self) -> (r: BitmapFormat)
        ensures
            r == match self@.format {
                Some(f) => f,
                None => BitmapFormat::Rgba,
            },
    {
        match self.format {
            Some(f) => f,
            None => BitmapFormat::Rgba,
        }
    }

    /// The size of the longer side to resize to, if given.
    pub fn resize(&self) -> (r: Option<u32>)
        ensures
            r == self@.resize,
    {
        self.resize
    }

    /// The image file source.
    pub fn src(&self) -> (r: &str)
        ensures
            r@ == self@.src,
    {
        self.src.as_str()
    }

    /// Pixels of one red channel, bottom row first, from four channel pixels given top row
    /// first.
    pub fn pixels_r(width: u32, height: u32, rgba: &[u8]) -> (r: Vec<u8>)
        requires
            rgba@.len() == width * height * 4,
        ensures
            flipped_pixels(r@, rgba@, width as int, height as int, 1),
    {
        flip_rows(width, height, rgba, BitmapFormat::R)
    }

    /// Pixels of red and green channels, bottom row first, from four channel pixels given top
    /// row first.
    pub fn pixels_rg(width: u32, height: u32, rgba: &[u8]) -> (r: Vec<u8>)
        requires
            rgba@.len() == width * height * 4,
        ensures
            flipped_pixels(r@, rgba@, width as int, height as int, 2),
    {
        flip_rows(width, height, rgba, BitmapFormat::Rg)
    }

    /// Pixels of red, green and blue channels, bottom row first, from four channel pixels given
    /// top row first.
    pub fn pixels_rgb(width: u32, height: u32, rgba: &[u8]) -> (r: Vec<u8>)
        requires
            rgba@.len() == width * height * 4,
        ensures
            flipped_pixels(r@, rgba@, width as int, height as int, 3),
    {
        flip_rows(width, height, rgba, BitmapFormat::Rgb)
    }

    /// Four channel pixels, bottom row first, from four channel pixels given top row first.
    pub fn pixels_rgba(width: u32, height: u32, rgba: &[u8]) -> (r: Vec<u8>)
        requires
            rgba@.len() == width * height * 4,
        ensures
            flipped_pixels(r@, rgba@, width as int, height as int, 4),
    {
        flip_rows(width, height, rgba, BitmapFormat::Rgba)
    }
}

/// `dst` holds the first `n` channels of each pixel of the `width` by `height` four channel
/// image `rgba`, with the rows in reverse order.
pub open spec fn flipped_pixels(dst: Seq<u8>, rgba: Seq<u8>, width: int, height: int, n: int) -> bool {
    &&& dst.len() == width * height * n
    &&& forall|y: int, x: int, c: int|
        0 <= y < height && 0 <= x < width && 0 <= c < n ==> #[trigger] dst[(y * width + x) * n + c]
            == rgba[((height - 1 - y) * width + x) * 4 + c]
}

/// The pixels of the first `limit` positions, row by row, are in place.
spec fn flipped_upto(dst: Seq<u8>, rgba: Seq<u8>, width: int, height: int, n: int, limit: int) -> bool {
    forall|y: int, x: int, c: int|
        0 <= y < height && 0 <= x < width && 0 <= c < n && y * width + x < limit
            ==> #[trigger] dst[(y * width + x) * n + c] == rgba[((height - 1 - y) * width + x) * 4 + c]
}

/// Index arithmetic of a pixel grid.
proof fn lemma_grid(y: int, x: int, w: int, h: int, n: int)
    requires
        0 <= y < h,
        0 <= x < w,
        1 <= n,
    ensures
        (y * w + x) * n + n <= w * h * n,
        ((h - 1 - y) * w + x) * 4 + 4 <= w * h * 4,
        0 <= (y * w + x) * n,
        0 <= ((h - 1 - y) * w + x) * 4,
        (y * w + x + 1) * n == (y * w + x) * n + n,
{
    assert(y * w + x + 1 <= w * h) by (nonlinear_arith)
        requires 0 <= y < h, 0 <= x < w;
    assert((y * w + x) * n + n <= w * h * n) by (nonlinear_arith)
        requires y * w + x + 1 <= w * h, 1 <= n;
    assert((h - 1 - y) * w + x + 1 <= w * h) by (nonlinear_arith)
        requires 0 <= y < h, 0 <= x < w;
    assert(((h - 1 - y) * w + x) * 4 + 4 <= w * h * 4) by (nonlinear_arith)
        requires (h - 1 - y) * w + x + 1 <= w * h;
    assert(0 <= (y * w + x) * n) by (nonlinear_arith)
        requires 0 <= y, 0 <= x, 0 <= w, 1 <= n;
    assert(0 <= ((h - 1 - y) * w + x) * 4) by (nonlinear_arith)
        requires 0 <= h - 1 - y, 0 <= x, 0 <= w;
    assert((y * w + x + 1) * n == (y * w + x) * n + n) by (nonlinear_arith);
}

/// Distinct positions of a row-by-row grid hold distinct channel indexes, earlier positions
/// lower ones.
proof fn lemma_grid_order(y1: int, x1: int, c1: int, y2: int, x2: int, w: int, n: int)
    requires
        0 <= y1,
        0 <= x1 < w,
        0 <= c1 < n,
        0 <= y2,
        0 <= x2 < w,
        y1 * w + x1 < y2 * w + x2,
    ensures
        (y1 * w + x1) * n + c1 < (y2 * w + x2) * n,
{
    assert((y1 * w + x1) * n + c1 < (y2 * w + x2) * n) by (nonlinear_arith)
        requires y1 * w + x1 + 1 <= y2 * w + x2, 0 <= c1 < n;
}

/// A position of a row-by-row grid determines its row and column.
proof fn lemma_grid_unique(y1: int, x1: int, y2: int, x2: int, w: int)
    requires
        0 <= y1,
        0 <= x1 < w,
        0 <= y2,
        0 <= x2 < w,
        y1 * w + x1 == y2 * w + x2,
    ensures
        y1 == y2,
        x1 == x2,
{
    if y1 < y2 {
        assert(y1 * w + x1 < y2 * w + x2) by (nonlinear_arith)
            requires y1 + 1 <= y2, 0 <= x1 < w, 0 <= x2;
    } else if y1 > y2 {
        assert(y2 * w + x2 < y1 * w + x1) by (nonlinear_arith)
            requires y2 + 1 <= y1, 0 <= x2 < w, 0 <= x1;
    }
}

/// Copies the first channels of each pixel of a four channel image, taking the rows from the
/// last to the first.
fn flip_rows(width: u32, height: u32, rgba: &[u8], fmt: BitmapFormat) -> (r: Vec<u8>)
    requires
        rgba@.len() == width * height * 4,
    ensures
        flipped_pixels(r@, rgba@, width as int, height as int, format_byte_len(fmt) as int),
{
    let n = fmt.byte_len();
    let w = width as usize;
    let h = height as usize;
    let len = rgba.len();
    let mut r: Vec<u8> = Vec::new();
    let mut y: usize = 0;
    while y < h
        invariant
            n == format_byte_len(fmt),
            1 <= n <= 4,
            w == width,
            h == height,
            len == rgba@.len(),
            len == w * h * 4,
            y <= h,
            r@.len() == y * w * n,
            flipped_upto(r@, rgba@, w as int, h as int, n as int, y * w),
        decreases h - y,
    {
        let mut x: usize = 0;
        while x < w
            invariant
                n == format_byte_len(fmt),
                1 <= n <= 4,
                w == width,
                h == height,
                len == rgba@.len(),
                len == w * h * 4,
                y < h,
                x <= w,
                r@.len() == (y * w + x) * n,
                flipped_upto(r@, rgba@, w as int, h as int, n as int, y * w + x),
            decreases w - x,
        {
            proof {
                lemma_grid(y as int, x as int, w as int, h as int, n as int);
            }
            let src = ((h - 1 - y) * w + x) * 4;
            let ghost r0 = r@;
            let mut c: usize = 0;
            while c < n
                invariant
                    n == format_byte_len(fmt),
                    1 <= n <= 4,
                    w == width,
                    h == height,
                    len == rgba@.len(),
                    y < h,
                    x < w,
                    src == ((h - 1 - y) * w + x) * 4,
                    src + 4 <= len,
                    c <= n,
                    r@.len() == (y * w + x) * n + c,
                    forall|k: int| 0 <= k < r0.len() ==> #[trigger] r@[k] == r0[k],
                    r0.len() == (y * w + x) * n,
                    forall|k: int| 0 <= k < c ==> #[trigger] r@[r0.len() + k] == rgba@[src + k],
                decreases n - c,
            {
                r.push(rgba[src + c]);
                c = c + 1;
            }
            proof {
                let wi = w as int;
                let hi = h as int;
                let ni = n as int;
                assert forall|yy: int, xx: int, cc: int|
                    0 <= yy < hi && 0 <= xx < wi && 0 <= cc < ni && yy * wi + xx < y * wi + x + 1
                    implies #[trigger] r@[(yy * wi + xx) * ni + cc] == rgba@[((hi - 1 - yy) * wi + xx) * 4 + cc] by {
                    if yy * wi + xx < y * wi + x {
                        lemma_grid_order(yy, xx, cc, y as int, x as int, wi, ni);
                        assert(r@[(yy * wi + xx) * ni + cc] == r0[(yy * wi + xx) * ni + cc]);
                    } else {
                        lemma_grid_unique(yy, xx, y as int, x as int, wi);
                        assert(r@[r0.len() + cc] == rgba@[src + cc]);
                    }
                }
                assert((y * w + x + 1) * n == (y * w + x) * n + n);
            }
            x = x + 1;
        }
        proof {
            assert((y + 1) * w == y * w + w) by (nonlinear_arith);
            assert(((y + 1) * w) * n == (y * w + w) * n) by (nonlinear_arith)
                requires (y + 1) * w == y * w + w;
        }
        y = y + 1;
    }
    proof {
        let wi = w as int;
        let hi = h as int;
        let ni = n as int;
        assert forall|yy: int, xx: int, cc: int|
            0 <= yy < hi && 0 <= xx < wi && 0 <= cc < ni implies #[trigger] r@[(yy * wi + xx) * ni + cc]
            == rgba@[((hi - 1 - yy) * wi + xx) * 4 + cc] by {
            lemma_grid(yy, xx, wi, hi, ni);
            assert(yy * wi + xx < hi * wi) by (nonlinear_arith)
                requires 0 <= yy < hi, 0 <= xx < wi;
        }
        assert(h * w * n == w * h * n) by (nonlinear_arith);
    }
    r
}

/// The extent of an image resized so that its longer side is `resize` pixels: the other side is
/// scaled in proportion, rounding down.
pub fn resize_extent(width: u32, height: u32, resize: u32) -> (r: (u32, u32))
    requires
        width > height ==> resize * height <= u32::MAX,
        width <= height ==> height > 0 && resize * width <= u32::MAX,
    ensures
        r == if width > height {
            (resize, ((resize as int) * (height as int) / (width as int)) as u32)
        } else {
            (((resize as int) * (width as int) / (height as int)) as u32, resize)
        },
{
    if width > height {
        (resize, resize * height / width)
    } else {
        (resize * width / height, resize)
    }
}

/// Resizing uses nearest filtering for a single pixel image and Catmull-Rom filtering
/// otherwise; this tells whether it is the nearest filter.
pub fn resize_is_nearest(width: u32, height: u32) -> (r: bool)
    ensures
        r == (width == 1 && height == 1),
{
    width == 1 && height == 1
}

/// Whether every pixel of four channel data is fully opaque.
pub open spec fn all_opaque(rgba: Seq<u8>) -> bool {
    forall|p: int| 0 <= p < rgba.len() / 4 ==> #[trigger] rgba[4 * p + 3] == 255u8
}

/// The format a four channel image is stored in when none is given: alpha is discarded when
/// every pixel is fully opaque.
pub fn rgba_format(rgba: &[u8]) -> (r: BitmapFormat)
    ensures
        r == if all_opaque(rgba@) {
            BitmapFormat::Rgb
        } else {
            BitmapFormat::Rgba
        },
{
    let len = rgba.len();
    let count = len / 4;
    let mut p: usize = 0;
    while p < count
        invariant
            len == rgba@.len(),
            count == rgba@.len() / 4,
            p <= count,
            forall|q: int| 0 <= q < p ==> #[trigger] rgba@[4 * q + 3] == 255u8,
        decreases count - p,
    {
        if rgba[4 * p + 3] != 255 {
            return BitmapFormat::Rgba;
        }
        p = p + 1;
    }
    BitmapFormat::Rgb
}


// ---- Image files -----------------------------------------------------------------------------

/// What the image decoder makes of the bytes of an image file whose extension is `hint` (which
/// picks the file format), brought to eight bit RGBA pixels given top row first: the width, the
/// height and the pixels; `None` where the extension names no format or it reads no image.
pub uninterp spec fn decoded_rgba(bytes: Seq<u8>, hint: Seq<char>) -> Option<(u32, u32, Seq<u8>)>;

/// The kind of pixels the image decoder makes of the bytes of an image file whose extension is
/// `hint`; `None` where it reads no image.
pub uninterp spec fn decoded_kind(bytes: Seq<u8>, hint: Seq<char>) -> Option<DecodedKind>;

/// What decoding an image file (as `decoded_rgba` does) and then filling a `to_width` by
/// `to_height` image from it, in the decoded pixel type, gives as eight bit RGBA pixels: the
/// image scaled, keeping its aspect ratio, to the least size that covers the new size, then
/// cropped to it around its centre; the filter is nearest or Catmull-Rom.
pub uninterp spec fn filled_decoded_rgba(
    bytes: Seq<u8>,
    hint: Seq<char>,
    to_width: u32,
    to_height: u32,
    nearest: bool,
) -> Seq<u8>;

/// What filling a `to_width` by `to_height` image from an eight bit single channel image gives,
/// as `filled_decoded_rgba` describes, with the Catmull-Rom filter.
pub uninterp spec fn filled_gray(
    width: u32,
    height: u32,
    pixels: Seq<u8>,
    to_width: u32,
    to_height: u32,
) -> Seq<u8>;

/// The kind of pixels an image file decodes to.
#[derive(Clone, Copy, Debug, PartialEq, Eq, Structural)]
pub enum DecodedKind {
    /// One eight bit channel.
    Luma8,
    /// Three eight bit channels.
    Rgb8,
    /// Four eight bit channels.
    Rgba8,
    /// Any other layout.
    Other,
}

/// Decodes the contents of an image file as `image::open` does with a file: the format comes
/// from the extension (`image::ImageFormat::from_extension`), then
/// `image::load_from_memory_with_format` decodes, and `DynamicImage::to_rgba8` brings the image
/// to eight bit RGBA pixels. Claimed: the result is the named one of the arguments, and an image
/// has four bytes for each of its pixels.
#[verifier::external_body]
fn decode_rgba(bytes: &[u8], hint: &str) -> (r: Option<(u32, u32, Vec<u8>)>)
    ensures
        match r {
            Some((w, h, px)) => decoded_rgba(bytes@, hint@) == Some((w, h, px@)) && px@.len() == w * h * 4,
            None => decoded_rgba(bytes@, hint@) is None,
        },
{
    let format = image::ImageFormat::from_extension(hint)?;
    let image = image::load_from_memory_with_format(bytes, format).ok()?.to_rgba8();
    Some((image.width(), image.height(), image.into_raw()))
}

/// Decodes the contents of an image file as `decode_rgba` does, and tells the variant of the
/// decoded `DynamicImage`. Claimed: the result is the named one of the arguments.
#[verifier::external_body]
fn decode_kind(bytes: &[u8], hint: &str) -> (r: Option<DecodedKind>)
    ensures
        r == decoded_kind(bytes@, hint@),
{
    let format = image::ImageFormat::from_extension(hint)?;
    match image::load_from_memory_with_format(bytes, format).ok()? {
        image::DynamicImage::ImageLuma8(_) => Some(DecodedKind::Luma8),
        image::DynamicImage::ImageRgb8(_) => Some(DecodedKind::Rgb8),
        image::DynamicImage::ImageRgba8(_) => Some(DecodedKind::Rgba8),
        _ => Some(DecodedKind::Other),
    }
}

/// Decodes the contents of an image file as `decode_rgba` does, resizes the decoded image with
/// `DynamicImage::resize_to_fill` in its own pixel type, with the nearest or the Catmull-Rom
/// filter, and brings it to eight bit RGBA pixels. Claimed: the result is the named one of the
/// arguments and has four bytes for each pixel of the new size. The bounds kept by `requires`
/// keep the intermediate size that `resize_to_fill` computes within 32 bits, so that the crop
/// yields exactly the new size.
#[verifier::external_body]
fn decode_fill_rgba(bytes: &[u8], hint: &str, to_width: u32, to_height: u32, nearest: bool) -> (r: Vec<u8>)
    requires
        decoded_rgba(bytes@, hint@) matches Some((width, height, _)) && {
            &&& width > 0
            &&& height > 0
            &&& width * to_height <= u32::MAX * height
            &&& height * to_width <= u32::MAX * width
        },
    ensures
        r@ == filled_decoded_rgba(bytes@, hint@, to_width, to_height, nearest),
        r@.len() == to_width * to_height * 4,
{
    let filter = if nearest { image::imageops::FilterType::Nearest } else { image::imageops::FilterType::CatmullRom };
    let format = image::ImageFormat::from_extension(hint).unwrap();
    let image = image::load_from_memory_with_format(bytes, format).unwrap();
    image.resize_to_fill(to_width, to_height, filter).to_rgba8().into_raw()
}

/// Resizes an eight bit single channel image with `DynamicImage::resize_to_fill` and the
/// Catmull-Rom filter. Claimed: the result is the named one of the arguments and has one byte
/// for each pixel of the new size, under the same bounds as `decode_fill_rgba`.
#[verifier::external_body]
fn fill_gray(width: u32, height: u32, pixels: Vec<u8>, to_width: u32, to_height: u32) -> (r: Vec<u8>)
    requires
        width > 0,
        height > 0,
        pixels@.len() == width * height,
        width * to_height <= u32::MAX * height,
        height * to_width <= u32::MAX * width,
    ensures
        r@ == filled_gray(width, height, pixels@, to_width, to_height),
        r@.len() == to_width * to_height,
{
    let image = image::GrayImage::from_raw(width, height, pixels).unwrap();
    image::DynamicImage::ImageLuma8(image)
        .resize_to_fill(to_width, to_height, image::imageops::FilterType::CatmullRom)
        .to_luma8()
        .into_raw()
}

/// Whether an image of the given size can be resized so its longer side is `resize`: it has
/// pixels, and the new size fits in 32 bits.
pub open spec fn resize_fits(width: u32, height: u32, resize: u32) -> bool {
    &&& width > 0
    &&& height > 0
    &&& width > height ==> resize * height <= u32::MAX
    &&& width <= height ==> resize * width <= u32::MAX
}

/// The size an image is resized to so its longer side is `resize`.
pub open spec fn resized_extent(width: u32, height: u32, resize: u32) -> (u32, u32) {
    if width > height {
        (resize, ((resize as int) * (height as int) / (width as int)) as u32)
    } else {
        (((resize as int) * (width as int) / (height as int)) as u32, resize)
    }
}

/// The RGBA image read from the bytes of an image file with the extension `hint`, resized when
/// asked: `None` where the bytes hold no image, or the image cannot be resized as asked.
pub open spec fn read_rgba(bytes: Seq<u8>, hint: Seq<char>, resize: Option<u32>) -> Option<(u32, u32, Seq<u8>)> {
    match decoded_rgba(bytes, hint) {
        None => None,
        Some((w, h, px)) => match resize {
            None => Some((w, h, px)),
            Some(size) => if resize_fits(w, h, size) {
                let (tw, th) = resized_extent(w, h, size);
                Some((tw, th, filled_decoded_rgba(bytes, hint, tw, th, w == 1 && h == 1)))
            } else {
                None
            },
        },
    }
}

/// The resized size of an image stays within what filling it needs.
proof fn lemma_resized_extent_fills(width: u32, height: u32, resize: u32)
    requires
        resize_fits(width, height, resize),
    ensures
        ({
            let (tw, th) = resized_extent(width, height, resize);
            &&& width * th <= u32::MAX * height
            &&& height * tw <= u32::MAX * width
        }),
{
    let w = width as int;
    let h = height as int;
    let s = resize as int;
    if width > height {
        let th = s * h / w;
        assert(w * (s * h / w) <= s * h) by (nonlinear_arith)
            requires w > 0, s >= 0, h >= 0;
        assert(s * h <= u32::MAX * h) by (nonlinear_arith)
            requires s <= u32::MAX, h >= 0;
        assert(h * s <= u32::MAX * w) by (nonlinear_arith)
            requires h * s <= u32::MAX, w >= 1;
        assert(s * h / w <= u32::MAX) by (nonlinear_arith)
            requires w > 0, s * h <= u32::MAX, h >= 0, s >= 0;
    } else {
        assert(h * (s * w / h) <= s * w) by (nonlinear_arith)
            requires h > 0, s >= 0, w >= 0;
        assert(s * w <= u32::MAX * w) by (nonlinear_arith)
            requires s <= u32::MAX, w >= 0;
        assert(w * s <= u32::MAX * h) by (nonlinear_arith)
            requires w * s <= u32::MAX, h >= 1;
        assert(s * w / h <= u32::MAX) by (nonlinear_arith)
            requires h > 0, s * w <= u32::MAX, w >= 0, s >= 0;
    }
}

impl Bitmap {
    /// Reads the pixels of an image file, given by its bytes and its extension `hint`, resized
    /// so its longer side is `resize` when that is given, and returns them in the given format,
    /// bottom row first, with the image's width. `None` where the bytes hold no image, or it
    /// cannot be resized as asked (it has no pixels, or the new size would not fit in 32 bits).
    pub fn read_pixels(bytes: &[u8], hint: &str, fmt: BitmapFormat, resize: Option<u32>) -> (r: Option<(u32, Vec<u8>)>)
        ensures
            match read_rgba(bytes@, hint@, resize) {
                None => r is None,
                Some((w, h, px)) => r matches Some((width, pixels)) && width == w
                    && flipped_pixels(pixels@, px, w as int, h as int, format_byte_len(fmt) as int),
            },
    {
        let (width, height, rgba) = match decode_rgba(bytes, hint) {
            Some(image) => image,
            None => return None,
        };
        let (width, height, rgba) = match resize {
            None => (width, height, rgba),
            Some(size) => {
                if width == 0 || height == 0 {
                    return None;
                }
                if width > height {
                    if size.checked_mul(height).is_none() {
                        return None;
                    }
                } else if size.checked_mul(width).is_none() {
                    return None;
                }
                let (to_width, to_height) = resize_extent(width, height, size);
                proof {
                    lemma_resized_extent_fills(width, height, size);
                }
                let nearest = resize_is_nearest(width, height);
                (to_width, to_height, decode_fill_rgba(bytes, hint, to_width, to_height, nearest))
            },
        };
        let pixels = match fmt {
            BitmapFormat::R => Bitmap::pixels_r(width, height, rgba.as_slice()),
            BitmapFormat::Rg => Bitmap::pixels_rg(width, height, rgba.as_slice()),
            BitmapFormat::Rgb => Bitmap::pixels_rgb(width, height, rgba.as_slice()),
            BitmapFormat::Rgba => Bitmap::pixels_rgba(width, height, rgba.as_slice()),
        };
        Some((width, pixels))
    }
}

impl Bitmap {
    /// The bitmap this description names, from the bytes of its image file and the file's
    /// extension `hint`: its pixels read as `read_pixels` reads them, in its format, with its
    /// color space. `None` where `read_pixels` gives none.
    pub fn as_bitmap_buf(&self, bytes: &[u8], hint: &str) -> (r: Option<BitmapBuf>)
        ensures
            match read_rgba(bytes@, hint@, self@.resize) {
                None => r is None,
                Some((w, h, px)) => r matches Some(b) && {
                    let fmt = match self@.format { Some(f) => f, None => BitmapFormat::Rgba };
                    &&& b@.color == match self@.color { Some(c) => c, None => BitmapColor::Srgb }
                    &&& b@.fmt == fmt
                    &&& b@.width == w
                    &&& flipped_pixels(b@.pixels, px, w as int, h as int, format_byte_len(fmt) as int)
                },
            },
    {
        let fmt = self.format();
        match Bitmap::read_pixels(bytes, hint, fmt, self.resize()) {
            Some((width, pixels)) => Some(BitmapBuf::new(self.color(), fmt, width, pixels)),
            None => None,
        }
    }
}

/// The format an image file is stored in when its description gives none: the decoded pixel
/// layout, with alpha dropped where every pixel is opaque; `None` for other layouts.
pub open spec fn guessed_format(bytes: Seq<u8>, hint: Seq<char>) -> Option<BitmapFormat> {
    match decoded_kind(bytes, hint) {
        Some(DecodedKind::Luma8) => Some(BitmapFormat::R),
        Some(DecodedKind::Rgb8) => Some(BitmapFormat::Rgb),
        Some(DecodedKind::Rgba8) => match decoded_rgba(bytes, hint) {
            Some((_, _, px)) => Some(if all_opaque(px) { BitmapFormat::Rgb } else { BitmapFormat::Rgba }),
            None => None,
        },
        _ => None,
    }
}

/// Guesses the format of an image file, given by its bytes and its extension `hint`, from the
/// layout of its decoded pixels: one channel is `R`, three are `Rgb`, and four are `Rgb` where
/// every pixel is opaque and `Rgba` otherwise; other layouts, and bytes that hold no image, give
/// `None`.
pub fn guess_format(bytes: &[u8], hint: &str) -> (r: Option<BitmapFormat>)
    ensures
        r == guessed_format(bytes@, hint@),
{
    match decode_kind(bytes, hint) {
        Some(DecodedKind::Luma8) => Some(BitmapFormat::R),
        Some(DecodedKind::Rgb8) => Some(BitmapFormat::Rgb),
        Some(DecodedKind::Rgba8) => match decode_rgba(bytes, hint) {
            Some((_, _, px)) => Some(rgba_format(px.as_slice())),
            None => None,
        },
        _ => None,
    }
}

/// The single channel pixels of a bitmap brought to the given size: unchanged where the bitmap
/// has that size already, filled to it otherwise.
pub open spec fn gray_at_size(width: u32, height: u32, pixels: Seq<u8>, to_width: u32, to_height: u32) -> Seq<u8> {
    if width == to_width && height == to_height {
        pixels
    } else {
        filled_gray(width, height, pixels, to_width, to_height)
    }
}

/// Brings the pixels of a bitmap, read as a single channel image, to the given size, resizing
/// them (to fill, with the Catmull-Rom filter) only where the size differs. The image is the
/// first `width * height` bytes of the pixels, which may hold more (as those of a bitmap of
/// several channels do).
pub fn gray_pixels(width: u32, height: u32, pixels: &[u8], to_width: u32, to_height: u32) -> (r: Vec<u8>)
    requires
        pixels@.len() >= width * height,
        width != to_width || height != to_height ==> {
            &&& width > 0
            &&& height > 0
            &&& width * to_height <= u32::MAX * height
            &&& height * to_width <= u32::MAX * width
        },
    ensures
        r@ == gray_at_size(width, height, pixels@.take(width * height), to_width, to_height),
        r@.len() == to_width * to_height,
{
    let len = pixels.len();
    proof {
        assert((width as usize) * (height as usize) == width * height) by (nonlinear_arith)
            requires width * height <= len, len <= usize::MAX;
    }
    let n = (width as usize) * (height as usize);
    let mut copy: Vec<u8> = Vec::new();
    let mut i: usize = 0;
    while i < n
        invariant
            n == width * height,
            n <= pixels@.len(),
            i <= n,
            copy@ == pixels@.take(i as int),
        decreases n - i,
    {
        copy.push(pixels[i]);
        proof {
            assert(pixels@.take(i + 1) == pixels@.take(i as int).push(pixels@[i as int]));
        }
        i = i + 1;
    }
    if width == to_width && height == to_height {
        copy
    } else {
        fill_gray(width, height, copy, to_width, to_height)
    }
}

} // verus!
