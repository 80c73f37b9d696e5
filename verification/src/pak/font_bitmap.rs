//! Fonts whose pages are kept as separate bitmaps.
use vstd::prelude::*;
use super::bitmap::BitmapBuf;

verus! {

/// A font definition together with its page bitmaps.
pub struct FontBitmap {
    def: Vec<u8>,
    pages: Vec<BitmapBuf>,
}

impl FontBitmap {
    /// The definition bytes.
    pub closed spec fn def_bytes(&self) -> Seq<u8> {
        self.def@
    }

    /// The page bitmaps.
    pub closed spec fn page_bitmaps(&self) -> Seq<BitmapBuf> {
        self.pages@
    }

    /// A font of the given definition bytes and pages.
    pub fn new(def: Vec<u8>, pages: Vec<BitmapBuf>) -> (r: Self)
        ensures
            r.def_bytes() == def@,
            r.page_bitmaps() == pages@,
    {
        FontBitmap { def, pages }
    }

    /// The definition bytes.
    pub fn def(&self) -> (r: &[u8])
        ensures
            r@ == self.def_bytes(),
    {
        self.def.as_slice()
    }

    /// The page bitmaps.
    pub fn pages(&self) -> (r: &[BitmapBuf])
        ensures
            r@ == self.page_bitmaps(),
    {
        self.pages.as_slice()
    }
}

} // verus!
