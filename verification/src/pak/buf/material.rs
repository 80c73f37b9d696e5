//! Descriptions of materials, and the bitmaps baked from them.
use vstd::prelude::*;
use vstd::string::{is_ascii, StrSliceExecFns};
use super::bitmap::{gray_at_size, gray_pixels, Bitmap};
use super::{hex_color_parses, hex_color_value, hex_pair_value, hex_scalar_pair, is_hex_color_len,
    parse_hex_color, parse_hex_scalar};
use crate::pak::bitmap::{bitmap_height, format_byte_len, BitmapBuf, BitmapBufView, BitmapColor, BitmapFormat};

verus! {

/// Whether the text starts with `#`.
pub open spec fn starts_with_hash(s: Seq<char>) -> bool {
    s.len() > 0 && s[0] == '#'
}

/// Whether the text starts with `#`.
fn has_hash(s: &str) -> (r: bool)
    ensures
        r == starts_with_hash(s@),
{
    s.unicode_len() > 0 && s.get_char(0) == '#'
}

/// A reference to a `Bitmap` asset, `Bitmap` asset file, three or four channel image source
/// file, or single four channel color.
#[derive(Clone, Debug, PartialEq, Eq, Hash)]
pub enum ColorRef {
    /// A `Bitmap` asset specified inline.
    Asset(Bitmap),
    /// A `Bitmap` asset file or image source file.
    Path(String),
    /// A single four channel color.
    Value([u8; 4]),
}

impl ColorRef {
    /// Opaque white.
    pub fn white() -> (r: Self)
        ensures
            r matches ColorRef::Value(v) && v@ == seq![255u8, 255u8, 255u8, 255u8],
    {
        let r = ColorRef::Value([255u8; 4]);
        proof {
            if let ColorRef::Value(v) = r {
                assert(v@ =~= seq![255u8, 255u8, 255u8, 255u8]);
            }
        }
        r
    }

    /// Reads a color reference written as text: a `#` followed by hexadecimal digits in one of
    /// the forms `#rgb`, `#rgba`, `#rrggbb` or `#rrggbbaa` is a color value; any other text is a
    /// path.
    pub fn from_text(s: &str) -> (r: Self)
        requires
            starts_with_hash(s@) && is_hex_color_len(s.len() as nat) ==> is_ascii(s) && hex_color_parses(s@),
        ensures
            match r {
                ColorRef::Value(v) => starts_with_hash(s@) && is_hex_color_len(s.len() as nat) && v@
                    == hex_color_value(s@),
                ColorRef::Path(p) => p@ == s@ && !(starts_with_hash(s@) && is_hex_color_len(s.len() as nat)),
                ColorRef::Asset(_) => false,
            },
    {
        if has_hash(s) {
            if let Some(val) = parse_hex_color(s) {
                return ColorRef::Value(val);
            }
        }
        ColorRef::Path(s.to_owned())
    }
}

impl Default for ColorRef {
    fn default() -> (r: Self)
        ensures
            r matches ColorRef::Value(v) && v@ == seq![255u8, 255u8, 255u8, 255u8],
    {
        ColorRef::white()
    }
}

/// A reference to a bitmap asset, bitmap asset file, or three channel image source file.
#[derive(Clone, Debug, PartialEq, Eq, Hash)]
pub enum NormalRef {
    /// A `Bitmap` asset specified inline.
    Asset(Bitmap),
    /// A `Bitmap` asset file or three channel image source file.
    Path(String),
}

impl NormalRef {
    /// Reads a normal map reference written as text: a path.
    pub fn from_text(s: &str) -> (r: Self)
        ensures
            r matches NormalRef::Path(p) && p@ == s@,
    {
        NormalRef::Path(s.to_owned())
    }
}

/// Reference to a `Bitmap` asset, `Bitmap` asset file, single channel image source file, or a
/// single value.
#[derive(Clone, Debug, PartialEq, Eq, Hash)]
pub enum ScalarRef {
    /// A `Bitmap` asset specified inline.
    Asset(Bitmap),
    /// A `Bitmap` asset file or single channel image source file.
    Path(String),
    /// A single value.
    Value(u8),
}

impl ScalarRef {
    /// Reads a scalar reference written as text: `#v` or `#vv` in hexadecimal is a value; any
    /// other text is a path.
    pub fn from_text(s: &str) -> (r: Self)
        requires
            starts_with_hash(s@) && (s.len() == 2 || s.len() == 3) ==> is_ascii(s) && hex_pair_value(
                hex_scalar_pair(s@).0,
                hex_scalar_pair(s@).1,
            ) is Some,
        ensures
            match r {
                ScalarRef::Value(v) => starts_with_hash(s@) && (s.len() == 2 || s.len() == 3) && Some(v)
                    == hex_pair_value(hex_scalar_pair(s@).0, hex_scalar_pair(s@).1),
                ScalarRef::Path(p) => p@ == s@ && !(starts_with_hash(s@) && (s.len() == 2 || s.len() == 3)),
                ScalarRef::Asset(_) => false,
            },
    {
        if has_hash(s) {
            if let Some(val) = parse_hex_scalar(s) {
                return ScalarRef::Value(val);
            }
        }
        ScalarRef::Path(s.to_owned())
    }
}

/// Holds a description of data used for model rendering.
#[derive(Clone, Debug, PartialEq, Eq, Hash)]
pub struct Material {
    /// A `Bitmap` asset, `Bitmap` asset file, three or four channel image source file, or single
    /// four channel color.
    pub color: ColorRef,
    /// A `Bitmap` asset, `Bitmap` asset file, single channel image source file, or a single
    /// value for displacement.
    pub displacement: Option<ScalarRef>,
    /// Whether or not the model will be rendered with back faces also enabled.
    pub double_sided: Option<bool>,
    /// A `Bitmap` asset, `Bitmap` asset file, single channel image source file, or a single
    /// normalized value.
    pub metal: Option<ScalarRef>,
    /// A bitmap asset, bitmap asset file, or a three channel image.
    pub normal: Option<NormalRef>,
    /// A `Bitmap` asset, `Bitmap` asset file, single channel image source file, or a single
    /// normalized value.
    pub rough: Option<ScalarRef>,
}

impl Material {
    /// A material whose color is the given source file, with every other setting absent.
    pub fn new(src: String) -> (r: Self)
        ensures
            r.color matches ColorRef::Path(p) && p@ == src@,
            r.displacement is None,
            r.double_sided is None,
            r.metal is None,
            r.normal is None,
            r.rough is None,
    {
        Material {
            color: ColorRef::Path(src),
            displacement: None,
            double_sided: None,
            metal: None,
            normal: None,
            rough: None,
        }
    }
}

impl Default for Material {
    fn default() -> (r: Self)
        ensures
            r.color matches ColorRef::Value(v) && v@ == seq![255u8, 255u8, 255u8, 255u8],
            r.displacement is None,
            r.double_sided is None,
            r.metal is None,
            r.normal is None,
            r.rough is None,
    {
        Material {
            color: ColorRef::white(),
            displacement: None,
            double_sided: None,
            metal: None,
            normal: None,
            rough: None,
        }
    }
}

/// The single pixel bitmap of a color value.
pub fn color_value_bitmap(val: [u8; 4]) -> (r: BitmapBuf)
    ensures
        r@ == (BitmapBufView { color: BitmapColor::Linear, fmt: BitmapFormat::Rgba, pixels: val@, width: 1 }),
{
    let mut pixels: Vec<u8> = Vec::new();
    pixels.push(val[0]);
    pixels.push(val[1]);
    pixels.push(val[2]);
    pixels.push(val[3]);
    proof {
        assert(pixels@ =~= val@);
    }
    BitmapBuf::new(BitmapColor::Linear, BitmapFormat::Rgba, 1, pixels)
}

/// The single pixel normal map used when a material gives none: straight up.
pub fn default_normal_bitmap() -> (r: BitmapBuf)
    ensures
        r@ == (BitmapBufView {
            color: BitmapColor::Linear,
            fmt: BitmapFormat::Rgb,
            pixels: seq![128u8, 128u8, 255u8],
            width: 1,
        }),
{
    let mut pixels: Vec<u8> = Vec::new();
    pixels.push(128);
    pixels.push(128);
    pixels.push(255);
    proof {
        assert(pixels@ =~= seq![128u8, 128u8, 255u8]);
    }
    BitmapBuf::new(BitmapColor::Linear, BitmapFormat::Rgb, 1, pixels)
}

/// The single pixel bitmap of a scalar value; a material that gives no value uses 128.
pub fn scalar_value_bitmap(val: Option<u8>) -> (r: BitmapBuf)
    ensures
        r@ == (BitmapBufView {
            color: BitmapColor::Linear,
            fmt: BitmapFormat::R,
            pixels: seq![match val { Some(v) => v, None => 128u8 }],
            width: 1,
        }),
{
    let v = match val {
        Some(v) => v,
        None => 128,
    };
    let mut pixels: Vec<u8> = Vec::new();
    pixels.push(v);
    proof {
        assert(pixels@ =~= seq![v]);
    }
    BitmapBuf::new(BitmapColor::Linear, BitmapFormat::R, 1, pixels)
}

/// The extent of the parameters bitmap: the largest width and the largest height of the metal,
/// roughness and displacement images.
pub fn params_extent(metal: (u32, u32), rough: (u32, u32), displacement: (u32, u32)) -> (r: (u32, u32))
    ensures
        r.0 >= metal.0 && r.0 >= rough.0 && r.0 >= displacement.0,
        r.0 == metal.0 || r.0 == rough.0 || r.0 == displacement.0,
        r.1 >= metal.1 && r.1 >= rough.1 && r.1 >= displacement.1,
        r.1 == metal.1 || r.1 == rough.1 || r.1 == displacement.1,
{
    let w = if rough.0 > displacement.0 { rough.0 } else { displacement.0 };
    let w = if metal.0 > w { metal.0 } else { w };
    let h = if rough.1 > displacement.1 { rough.1 } else { displacement.1 };
    let h = if metal.1 > h { metal.1 } else { h };
    (w, h)
}

/// The number of bytes of each pixel of a parameters bitmap: three with a displacement, two
/// without.
pub open spec fn params_stride(has_displacement: bool) -> int {
    if has_displacement { 3 } else { 2 }
}

/// The parameters bitmap of a material: for each pixel, row by row, its metalness, its
/// roughness and, when given, its displacement.
pub fn pack_params(
    width: u32,
    height: u32,
    metal: &[u8],
    rough: &[u8],
    displacement: Option<&[u8]>,
) -> (r: BitmapBuf)
    requires
        metal@.len() == width * height,
        rough@.len() == width * height,
        displacement matches Some(d) ==> d@.len() == width * height,
    ensures
        ({
            let k = params_stride(displacement is Some);
            &&& r@.color == BitmapColor::Linear
            &&& r@.fmt == if displacement is Some { BitmapFormat::Rgb } else { BitmapFormat::Rg }
            &&& r@.width == width
            &&& r@.pixels.len() == width * height * k
            &&& forall|p: int|
                0 <= p < width * height ==> {
                    &&& r@.pixels[p * k] == #[trigger] metal@[p]
                    &&& r@.pixels[p * k + 1] == rough@[p]
                    &&& displacement matches Some(d) ==> r@.pixels[p * k + 2] == d@[p]
                }
        }),
{
    let count = metal.len();
    let k: usize = if displacement.is_some() { 3 } else { 2 };
    let mut params: Vec<u8> = Vec::new();
    let mut p: usize = 0;
    while p < count
        invariant
            count == metal@.len(),
            count == width * height,
            rough@.len() == count,
            displacement matches Some(d) ==> d@.len() == count,
            k == if displacement is Some { 3usize } else { 2usize },
            p <= count,
            params@.len() == p * k,
            forall|q: int|
                0 <= q < p ==> {
                    &&& #[trigger] params@[q * k] == metal@[q]
                    &&& params@[q * k + 1] == rough@[q]
                    &&& displacement matches Some(d) ==> params@[q * k + 2] == d@[q]
                },
        decreases count - p,
    {
        let ghost old_params = params@;
        params.push(metal[p]);
        params.push(rough[p]);
        match displacement {
            Some(d) => {
                params.push(d[p]);
            },
            None => {},
        }
        proof {
            assert((p + 1) * k == p * k + k) by (nonlinear_arith);
            assert forall|q: int| 0 <= q < p + 1 implies {
                &&& #[trigger] params@[q * k] == metal@[q]
                &&& params@[q * k + 1] == rough@[q]
                &&& displacement matches Some(d) ==> params@[q * k + 2] == d@[q]
            } by {
                if q < p {
                    assert(q * k + k <= p * k) by (nonlinear_arith)
                        requires q + 1 <= p, k >= 2;
                    assert(params@[q * k] == old_params[q * k]);
                    assert(params@[q * k + 1] == old_params[q * k + 1]);
                    if displacement is Some {
                        assert(params@[q * k + 2] == old_params[q * k + 2]);
                    }
                }
            }
        }
        p = p + 1;
    }
    let fmt = if displacement.is_some() { BitmapFormat::Rgb } else { BitmapFormat::Rg };
    let r = BitmapBuf::new(BitmapColor::Linear, fmt, width, params);
    proof {
        assert(params_stride(displacement is Some) == k);
        assert forall|q: int| 0 <= q < width * height implies {
            &&& r@.pixels[q * params_stride(displacement is Some)] == #[trigger] metal@[q]
            &&& r@.pixels[q * params_stride(displacement is Some) + 1] == rough@[q]
            &&& displacement matches Some(d) ==> r@.pixels[q * params_stride(displacement is Some) + 2] == d@[q]
        } by {
            assert(params@[q * k] == metal@[q]);
        }
    }
    r
}


/// The width and height of a bitmap.
pub open spec fn bitmap_extent(b: BitmapBufView) -> (u32, u32) {
    (b.width, bitmap_height(b.pixels.len(), b.width, b.fmt))
}

/// The size of the parameters bitmap of a material: the largest width and the largest height of
/// its metalness, roughness and displacement bitmaps.
pub open spec fn params_size(metal: BitmapBufView, rough: BitmapBufView, displacement: BitmapBufView) -> (u32, u32) {
    let (mw, mh) = bitmap_extent(metal);
    let (rw, rh) = bitmap_extent(rough);
    let (dw, dh) = bitmap_extent(displacement);
    let w = if rw > dw { rw } else { dw };
    let h = if rh > dh { rh } else { dh };
    (if mw > w { mw } else { w }, if mh > h { mh } else { h })
}

/// The single channel image of a bitmap (its first width times height bytes), brought to the
/// given size.
pub open spec fn gray_of(b: BitmapBufView, width: u32, height: u32) -> Seq<u8> {
    let (bw, bh) = bitmap_extent(b);
    gray_at_size(bw, bh, b.pixels.take(bw * bh), width, height)
}

/// Whether a bitmap can be brought to the given size: it has it already, or it has pixels and
/// the size its resizing goes through fits in 32 bits.
pub open spec fn resizes_to(b: BitmapBufView, width: u32, height: u32) -> bool {
    let (bw, bh) = bitmap_extent(b);
    (bw != width || bh != height) ==> {
        &&& bw > 0
        &&& bh > 0
        &&& bw * height <= u32::MAX * bh
        &&& bh * width <= u32::MAX * bw
    }
}

/// A bitmap holds at least as many bytes as its width times its height.
proof fn lemma_bitmap_holds_extent(b: BitmapBufView)
    requires
        b.width > 0,
    ensures
        b.pixels.len() >= bitmap_extent(b).0 * bitmap_extent(b).1,
{
    let len = b.pixels.len();
    let w = b.width as nat;
    let k = format_byte_len(b.fmt);
    let m = len % 0x1_0000_0000;
    assert(m <= len) by (nonlinear_arith)
        requires m == len % 0x1_0000_0000;
    let h = (m / w) / k;
    assert(w * h <= m) by (nonlinear_arith)
        requires w > 0, k >= 1, h == (m / w) / k;
    assert(h < 0x1_0000_0000) by (nonlinear_arith)
        requires w > 0, k >= 1, h == (m / w) / k, m < 0x1_0000_0000;
}

/// The single channel image of a bitmap, computed.
fn gray_image(b: &BitmapBuf, width: u32, height: u32) -> (r: Vec<u8>)
    requires
        b@.width > 0,
        resizes_to(b@, width, height),
    ensures
        r@ == gray_of(b@, width, height),
        r@.len() == width * height,
{
    let (bw, bh) = b.extent();
    proof {
        lemma_bitmap_holds_extent(b@);
    }
    gray_pixels(bw, bh, b.pixels(), width, height)
}

/// The parameters bitmap of a material from its metalness, roughness and displacement bitmaps,
/// each read as a single channel image: all are brought to the largest of their sizes (resized
/// to fill, with the Catmull-Rom filter, where they differ from it), and their pixels are packed
/// as `pack_params` packs them, the displacement only where the material gives one. Where it
/// gives none, the displacement bitmap is the default one, which still takes part in the size.
pub fn material_params(
    metal: &BitmapBuf,
    rough: &BitmapBuf,
    displacement: &BitmapBuf,
    has_displacement: bool,
) -> (r: BitmapBuf)
    requires
        metal@.width > 0,
        rough@.width > 0,
        displacement@.width > 0,
        resizes_to(metal@, params_size(metal@, rough@, displacement@).0, params_size(metal@, rough@, displacement@).1),
        resizes_to(rough@, params_size(metal@, rough@, displacement@).0, params_size(metal@, rough@, displacement@).1),
        resizes_to(displacement@, params_size(metal@, rough@, displacement@).0, params_size(metal@, rough@, displacement@).1),
    ensures
        ({
            let (w, h) = params_size(metal@, rough@, displacement@);
            let k = params_stride(has_displacement);
            let m = gray_of(metal@, w, h);
            let ro = gray_of(rough@, w, h);
            let d = gray_of(displacement@, w, h);
            &&& r@.color == BitmapColor::Linear
            &&& r@.fmt == if has_displacement { BitmapFormat::Rgb } else { BitmapFormat::Rg }
            &&& r@.width == w
            &&& r@.pixels.len() == w * h * k
            &&& forall|p: int|
                0 <= p < w * h ==> {
                    &&& r@.pixels[p * k] == #[trigger] m[p]
                    &&& r@.pixels[p * k + 1] == ro[p]
                    &&& has_displacement ==> r@.pixels[p * k + 2] == d[p]
                }
        }),
{
    let (width, height) = params_extent(metal.extent(), rough.extent(), displacement.extent());
    proof {
        assert((width, height) == params_size(metal@, rough@, displacement@));
    }
    let m = gray_image(metal, width, height);
    let ro = gray_image(rough, width, height);
    let d = gray_image(displacement, width, height);
    let ghost gm = gray_of(metal@, width, height);
    let r = if has_displacement {
        pack_params(width, height, m.as_slice(), ro.as_slice(), Some(d.as_slice()))
    } else {
        pack_params(width, height, m.as_slice(), ro.as_slice(), None)
    };
    proof {
        let k = params_stride(has_displacement);
        assert forall|p: int| 0 <= p < width * height implies {
            &&& r@.pixels[p * k] == #[trigger] gm[p]
            &&& r@.pixels[p * k + 1] == ro@[p]
            &&& has_displacement ==> r@.pixels[p * k + 2] == d@[p]
        } by {
            assert(m@[p] == gm[p]);
        }
    }
    r
}

} // verus!
