//! Bitmapped fonts as stored in a `.pak` file.
use vstd::prelude::*;
use super::bitmap::BitmapBuf;

verus! {

/// Holds a `BitmapFont` in a `.pak` file. For data transport only.
pub struct BitmapFont {
    def: String,
    page: BitmapBuf,
}

impl BitmapFont {
    /// The `.fnt` definition text.
    pub closed spec fn font_def(&self) -> Seq<char> {
        self.def@
    }

    /// The page bitmap.
    pub closed spec fn font_page(&self) -> BitmapBuf {
        self.page
    }

    /// A font of the given `.fnt` definition text and page bitmap.
    pub fn new(def: String, page: BitmapBuf) -> (r: Self)
        ensures
            r.font_def() == def@,
            r.font_page() == page,
    {
        BitmapFont { def, page }
    }

    /// Gets the main `.fnt` file in its text form.
    pub fn def(&self) -> (r: &str)
        ensures
            r@ == self.font_def(),
    {
        self.def.as_str()
    }

    /// Gets the single page bitmap of this font.
    ///
    /// If a font specifies multiple pages, they are stacked in the Y+ direction and so form one
    /// tall "page".
    pub fn page(&self) -> (r: &BitmapBuf)
        ensures
            *r == self.font_page(),
    {
        &self.page
    }
}

} // verus!
