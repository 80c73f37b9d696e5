//! Generic files, and the pages of bitmapped fonts.
use vstd::prelude::*;
use crate::pak::bitmap::{BitmapBuf, BitmapBufView, BitmapColor, BitmapFormat};
use crate::text::{chars_of, string_of};

verus! {

/// Holds a description of any generic file.
pub struct Blob {
    src: String,
}

impl Blob {
    /// A description of the file at the given path.
    pub fn new(src: String) -> (r: Self)
        ensures
            r.src_spec() == src@,
    {
        Blob { src }
    }

    /// The file source path.
    pub closed spec fn src_spec(&self) -> Seq<char> {
        self.src@
    }

    /// The file source path.
    pub fn src(&self) -> (r: &str)
        ensures
            r@ == self.src_spec(),
    {
        self.src.as_str()
    }
}

/// The two channels a font page pixel keeps: full red, else full green, else neither.
pub open spec fn font_pixel(r: u8, g: u8) -> (u8, u8) {
    if r == 0xff {
        (0xff, 0x00)
    } else if g == 0xff {
        (0x00, 0xff)
    } else {
        (0x00, 0x00)
    }
}

/// Converts the three channel pixels of a font page `width` pixels wide: each pixel keeps a full
/// red channel, else a full green channel, and its blue channel is cleared. Only whole rows are
/// converted.
pub fn font_page_pixels(width: u32, pixels: &[u8]) -> (r: Vec<u8>)
    requires
        width > 0,
    ensures
        ({
            let count = (pixels@.len() as int) / 3 / (width as int) * width;
            &&& r@.len() == 3 * count
            &&& forall|i: int|
                0 <= i < count ==> {
                    let (a, b) = font_pixel(pixels@[3 * i], pixels@[3 * i + 1]);
                    &&& #[trigger] r@[3 * i] == a
                    &&& r@[3 * i + 1] == b
                    &&& r@[3 * i + 2] == 0
                }
        }),
{
    let rows = pixels.len() / 3 / (width as usize);
    let w = width as usize;
    proof {
        assert(rows * w <= pixels@.len() / 3) by (nonlinear_arith)
            requires rows == (pixels@.len() as int) / 3 / (w as int), w > 0;
    }
    let count = rows * w;
    let len = pixels.len();
    let mut r: Vec<u8> = Vec::new();
    let mut i: usize = 0;
    while i < count
        invariant
            count == (pixels@.len() as int) / 3 / (width as int) * width,
            count <= pixels@.len() / 3,
            len == pixels@.len(),
            i <= count,
            r@.len() == 3 * i,
            forall|k: int|
                0 <= k < i ==> {
                    let (a, b) = font_pixel(pixels@[3 * k], pixels@[3 * k + 1]);
                    &&& #[trigger] r@[3 * k] == a
                    &&& r@[3 * k + 1] == b
                    &&& r@[3 * k + 2] == 0
                },
        decreases count - i,
    {
        let ghost r0 = r@;
        let red = pixels[3 * i];
        let green = pixels[3 * i + 1];
        if red == 0xff {
            r.push(0xff);
            r.push(0x00);
        } else if green == 0xff {
            r.push(0x00);
            r.push(0xff);
        } else {
            r.push(0x00);
            r.push(0x00);
        }
        r.push(0x00);
        proof {
            assert forall|k: int| 0 <= k < i + 1 implies {
                let (a, b) = font_pixel(pixels@[3 * k], pixels@[3 * k + 1]);
                &&& #[trigger] r@[3 * k] == a
                &&& r@[3 * k + 1] == b
                &&& r@[3 * k + 2] == 0
            } by {
                if k < i {
                    assert(r@[3 * k] == r0[3 * k]);
                    assert(r@[3 * k + 1] == r0[3 * k + 1]);
                    assert(r@[3 * k + 2] == r0[3 * k + 2]);
                }
            }
        }
        i = i + 1;
    }
    r
}

/// The height of a font page of the given width and length of three channel pixel data, as the
/// 32-bit page arithmetic computes it.
pub open spec fn font_page_height(page: (u32, usize)) -> u32 {
    ((page.1 as u32) / 3 / page.0) as u32
}

/// The extent shared by all pages of a font, each given by its width and the length of its
/// three channel pixel data: `None` where there is no page, or where a page differs in size from
/// the first (the format says that all have the same size).
pub fn font_page_extent(pages: &[(u32, usize)]) -> (r: Option<(u32, u32)>)
    requires
        forall|i: int| 0 <= i < pages@.len() ==> #[trigger] pages@[i].0 > 0,
    ensures
        match r {
            Some(extent) => {
                &&& pages@.len() > 0
                &&& extent == (pages@[0].0, font_page_height(pages@[0]))
                &&& forall|i: int|
                    0 <= i < pages@.len() ==> #[trigger] pages@[i].0 == pages@[0].0 && font_page_height(pages@[i])
                        == font_page_height(pages@[0])
            },
            None => pages@.len() == 0 || exists|i: int|
                0 <= i < pages@.len() && (#[trigger] pages@[i].0 != pages@[0].0 || font_page_height(pages@[i])
                    != font_page_height(pages@[0])),
        },
{
    if pages.len() == 0 {
        return None;
    }
    let (width, len) = pages[0];
    let height = (len as u32) / 3 / width;
    let mut i: usize = 1;
    while i < pages.len()
        invariant
            1 <= i <= pages@.len(),
            forall|k: int| 0 <= k < pages@.len() ==> #[trigger] pages@[k].0 > 0,
            width == pages@[0].0,
            height == font_page_height(pages@[0]),
            forall|k: int|
                0 <= k < i ==> #[trigger] pages@[k].0 == width && font_page_height(pages@[k]) == height,
        decreases pages@.len() - i,
    {
        let (w, l) = pages[i];
        if w != width || (l as u32) / 3 / w != height {
            return None;
        }
        i = i + 1;
    }
    Some((width, height))
}

/// The single bitmap of a font whose pages, of the given width, are stacked one below the
/// other.
pub fn stack_font_pages(width: u32, pages: Vec<Vec<u8>>) -> (r: BitmapBuf)
    ensures
        r@ == (BitmapBufView {
            color: BitmapColor::Linear,
            fmt: BitmapFormat::Rgb,
            pixels: pages@.map_values(|p: Vec<u8>| p@).flatten(),
            width,
        }),
{
    let ghost views = pages@.map_values(|p: Vec<u8>| p@);
    let mut rest = pages;
    let n = rest.len();
    let mut pixels: Vec<u8> = Vec::new();
    let mut i: usize = 0;
    assert(views.take(0) == Seq::<Seq<u8>>::empty());
    while i < n
        invariant
            n == rest@.len() == views.len(),
            views == pages@.map_values(|p: Vec<u8>| p@),
            forall|k: int| i <= k < n ==> #[trigger] rest@[k]@ == views[k],
            i <= n,
            pixels@ == views.take(i as int).flatten(),
        decreases n - i,
    {
        let mut page: Vec<u8> = Vec::new();
        std::mem::swap(&mut page, &mut rest[i]);
        proof {
            assert(views.take(i + 1) == views.take(i as int).push(views[i as int]));
            views.take(i as int).lemma_flatten_push(views[i as int]);
        }
        pixels.append(&mut page);
        i = i + 1;
    }
    assert(views.take(n as int) == views);
    BitmapBuf::new(BitmapColor::Linear, BitmapFormat::Rgb, width, pixels)
}


// ---- Font definitions ------------------------------------------------------------------------

/// The names of the page bitmaps that the BMFont parser reads from a font definition text;
/// `None` where the parser returns an error.
pub uninterp spec fn bmfont_pages(def: Seq<char>) -> Option<Seq<Seq<char>>>;

/// The text of each string.
pub open spec fn string_texts(v: Seq<String>) -> Seq<Seq<char>> {
    v.map_values(|s: String| s@)
}

/// Whether the character is white space, as `char::is_whitespace` counts it (the Unicode
/// `White_Space` property).
pub open spec fn is_white_space(c: char) -> bool {
    ||| '\u{9}' <= c && c <= '\u{d}'
    ||| c == ' '
    ||| c == '\u{85}'
    ||| c == '\u{a0}'
    ||| c == '\u{1680}'
    ||| '\u{2000}' <= c && c <= '\u{200a}'
    ||| c == '\u{2028}'
    ||| c == '\u{2029}'
    ||| c == '\u{202f}'
    ||| c == '\u{205f}'
    ||| c == '\u{3000}'
}

/// The pieces of a text between line feeds, the last one included even when empty.
pub open spec fn line_pieces(s: Seq<char>) -> Seq<Seq<char>>
    decreases s.len(),
{
    if s.len() == 0 {
        seq![seq![]]
    } else {
        let prev = line_pieces(s.drop_last());
        if s.last() == '\n' {
            prev.push(seq![])
        } else {
            prev.update(prev.len() - 1, prev.last().push(s.last()))
        }
    }
}

/// The lines of a text, as `str::lines` splits it, up to a carriage return before a line feed
/// (which changes neither what a line starts with nor where its first word ends).
pub open spec fn text_lines(s: Seq<char>) -> Seq<Seq<char>> {
    let p = line_pieces(s);
    if p.last().len() == 0 { p.drop_last() } else { p }
}

/// Whether the line starts with the word.
pub open spec fn starts_with_word(line: Seq<char>, w: Seq<char>) -> bool {
    line.len() >= w.len() && line.take(w.len() as int) == w
}

/// Whether the first white-space separated word of a line that starts with `w` is `w` itself.
pub open spec fn first_word_is(line: Seq<char>, w: Seq<char>) -> bool {
    line.len() == w.len() || is_white_space(line[w.len() as int])
}

/// The first line from `j` on that starts with `w`; the number of lines where none does.
pub open spec fn first_line_from(lines: Seq<Seq<char>>, j: int, w: Seq<char>) -> int
    decreases lines.len() - j,
{
    if j < 0 || j >= lines.len() {
        lines.len() as int
    } else if starts_with_word(lines[j], w) {
        j
    } else {
        first_line_from(lines, j + 1, w)
    }
}

/// The end of the run of lines from `j` on that start with `w`.
pub open spec fn run_end(lines: Seq<Seq<char>>, j: int, w: Seq<char>) -> int
    decreases lines.len() - j,
{
    if j < 0 || j >= lines.len() {
        if j < 0 { 0 } else { j }
    } else if starts_with_word(lines[j], w) {
        run_end(lines, j + 1, w)
    } else {
        j
    }
}

/// Whether every line from `a` up to before `b` has `w` as its first word.
pub open spec fn words_are(lines: Seq<Seq<char>>, a: int, b: int, w: Seq<char>) -> bool {
    forall|j: int| a <= j < b ==> first_word_is(#[trigger] lines[j], w)
}

/// Whether the BMFont parser reads the definition without panicking: where the definition has
/// the `info` and `common` lines and a run of `page` lines, a line follows that run (the parser
/// takes it unchecked), and the lines of the `page`, `char` and `kerning` runs have those words
/// as their first words (the parser asserts it).
pub open spec fn bmfont_parses_safely(def: Seq<char>) -> bool {
    let lines = text_lines(def);
    let ps = first_line_from(lines, 2, "page"@);
    let pe = run_end(lines, ps, "page"@);
    let ce = run_end(lines, pe + 1, "char"@);
    let ke = run_end(lines, ce + 1, "kerning"@);
    (lines.len() >= 2 && starts_with_word(lines[0], "info"@) && starts_with_word(lines[1], "common"@)
        && ps < lines.len()) ==> {
        &&& pe < lines.len()
        &&& words_are(lines, ps, pe, "page"@)
        &&& words_are(lines, pe + 1, ce, "char"@)
        &&& ce < lines.len() ==> words_are(lines, ce + 1, ke, "kerning"@)
    }
}

/// Parses a bitmapped font definition with `bmfont::BMFont::new` and lists the file names of
/// its pages (`BMFont::pages`). Claimed: the result is the named one of the definition. The
/// parser panics on some definitions; `requires` leaves those out.
#[verifier::external_body]
fn parse_bmfont_pages(def: &str) -> (r: Option<Vec<String>>)
    requires
        bmfont_parses_safely(def@),
    ensures
        match r {
            Some(v) => bmfont_pages(def@) == Some(string_texts(v@)),
            None => bmfont_pages(def@) is None,
        },
{
    let font = bmfont::BMFont::new(std::io::Cursor::new(def.as_bytes()), bmfont::OrdinateOrientation::TopToBottom).ok()?;
    Some(font.pages().map(|page| page.to_string()).collect())
}

/// Whether the character is white space, computed.
fn white_space(c: char) -> (r: bool)
    ensures
        r == is_white_space(c),
{
    ('\u{9}' <= c && c <= '\u{d}') || c == ' ' || c == '\u{85}' || c == '\u{a0}' || c == '\u{1680}'
        || ('\u{2000}' <= c && c <= '\u{200a}') || c == '\u{2028}' || c == '\u{2029}' || c == '\u{202f}'
        || c == '\u{205f}' || c == '\u{3000}'
}

/// The lines of a text, computed.
fn lines_of(s: &Vec<char>) -> (r: Vec<Vec<char>>)
    ensures
        r@.map_values(|l: Vec<char>| l@) == text_lines(s@),
{
    let mut pieces: Vec<Vec<char>> = Vec::new();
    let mut cur: Vec<char> = Vec::new();
    let mut i: usize = 0;
    proof {
        assert(s@.take(0) =~= Seq::<char>::empty());
        assert(line_pieces(Seq::<char>::empty()) =~= seq![Seq::<char>::empty()]);
    }
    while i < s.len()
        invariant
            i <= s@.len(),
            pieces@.map_values(|l: Vec<char>| l@).push(cur@) == line_pieces(s@.take(i as int)),
        decreases s@.len() - i,
    {
        let c = s[i];
        let ghost before = pieces@.map_values(|l: Vec<char>| l@).push(cur@);
        proof {
            assert(s@.take(i + 1).drop_last() == s@.take(i as int));
            assert(s@.take(i + 1).last() == c);
        }
        if c == '\n' {
            let mut done: Vec<char> = Vec::new();
            std::mem::swap(&mut done, &mut cur);
            let ghost pb = pieces@;
            pieces.push(done);
            proof {
                assert(pieces@.map_values(|l: Vec<char>| l@) =~= pb.map_values(|l: Vec<char>| l@).push(done@));
                assert(pieces@.map_values(|l: Vec<char>| l@).push(cur@) =~= before.push(seq![]));
            }
        } else {
            let ghost cb = cur@;
            cur.push(c);
            proof {
                assert(pieces@.map_values(|l: Vec<char>| l@).push(cur@) =~= before.update(
                    before.len() - 1,
                    before.last().push(c),
                ));
            }
        }
        i = i + 1;
    }
    proof {
        assert(s@.take(s@.len() as int) == s@);
    }
    if cur.len() > 0 {
        let ghost pb = pieces@;
        pieces.push(cur);
        proof {
            assert(pieces@.map_values(|l: Vec<char>| l@) =~= pb.map_values(|l: Vec<char>| l@).push(cur@));
        }
    } else {
        proof {
            let p = line_pieces(s@);
            assert(p.drop_last() =~= pieces@.map_values(|l: Vec<char>| l@));
        }
    }
    pieces
}

/// Whether the line starts with the word, computed.
fn line_starts_with(line: &Vec<char>, w: &Vec<char>) -> (r: bool)
    ensures
        r == starts_with_word(line@, w@),
{
    if line.len() < w.len() {
        return false;
    }
    let mut i: usize = 0;
    while i < w.len()
        invariant
            w@.len() <= line@.len(),
            i <= w@.len(),
            forall|j: int| 0 <= j < i ==> line@[j] == w@[j],
        decreases w@.len() - i,
    {
        if line[i] != w[i] {
            proof {
                assert(line@.take(w@.len() as int)[i as int] != w@[i as int]);
            }
            return false;
        }
        i = i + 1;
    }
    proof {
        assert(line@.take(w@.len() as int) =~= w@);
    }
    true
}

/// The first line from `j` on that starts with `w`, computed.
fn find_first_line(lines: &Vec<Vec<char>>, j: usize, w: &Vec<char>) -> (r: usize)
    requires
        j <= lines@.len(),
    ensures
        r == first_line_from(lines@.map_values(|l: Vec<char>| l@), j as int, w@),
{
    let ghost ls = lines@.map_values(|l: Vec<char>| l@);
    let mut k = j;
    while k < lines.len()
        invariant
            j <= k <= lines@.len(),
            ls == lines@.map_values(|l: Vec<char>| l@),
            first_line_from(ls, j as int, w@) == first_line_from(ls, k as int, w@),
        decreases lines@.len() - k,
    {
        proof {
            assert(ls[k as int] == lines@[k as int]@);
        }
        if line_starts_with(&lines[k], w) {
            return k;
        }
        k = k + 1;
    }
    k
}

/// The end of the run of lines from `j` on that start with `w`, computed.
fn find_run_end(lines: &Vec<Vec<char>>, j: usize, w: &Vec<char>) -> (r: usize)
    requires
        j <= lines@.len(),
    ensures
        r == run_end(lines@.map_values(|l: Vec<char>| l@), j as int, w@),
        j <= r <= lines@.len(),
{
    let ghost ls = lines@.map_values(|l: Vec<char>| l@);
    let mut k = j;
    while k < lines.len()
        invariant
            j <= k <= lines@.len(),
            ls == lines@.map_values(|l: Vec<char>| l@),
            run_end(ls, j as int, w@) == run_end(ls, k as int, w@),
        decreases lines@.len() - k,
    {
        proof {
            assert(ls[k as int] == lines@[k as int]@);
        }
        if !line_starts_with(&lines[k], w) {
            return k;
        }
        k = k + 1;
    }
    k
}

/// Whether every line from `a` up to before `b`, each starting with `w`, has `w` as its first
/// word, computed.
fn check_words(lines: &Vec<Vec<char>>, a: usize, b: usize, w: &Vec<char>) -> (r: bool)
    requires
        a <= b <= lines@.len(),
        forall|j: int| a <= j < b ==> starts_with_word(#[trigger] lines@[j]@, w@),
    ensures
        r == words_are(lines@.map_values(|l: Vec<char>| l@), a as int, b as int, w@),
{
    let ghost ls = lines@.map_values(|l: Vec<char>| l@);
    let mut k = a;
    while k < b
        invariant
            a <= k <= b <= lines@.len(),
            ls == lines@.map_values(|l: Vec<char>| l@),
            forall|j: int| a <= j < b ==> starts_with_word(#[trigger] lines@[j]@, w@),
            words_are(ls, a as int, k as int, w@),
        decreases b - k,
    {
        let line = &lines[k];
        proof {
            assert(ls[k as int] == line@);
            assert(starts_with_word(lines@[k as int]@, w@));
        }
        let ok = line.len() == w.len() || white_space(line[w.len()]);
        if !ok {
            proof {
                assert(!first_word_is(ls[k as int], w@));
            }
            return false;
        }
        k = k + 1;
    }
    true
}

/// The run of lines from `j` to its end all start with `w`.
proof fn lemma_run_starts(lines: Seq<Seq<char>>, j: int, w: Seq<char>)
    requires
        0 <= j,
    ensures
        j <= run_end(lines, j, w) <= lines.len() || (j > lines.len() && run_end(lines, j, w) == j),
        forall|k: int| j <= k < run_end(lines, j, w) ==> starts_with_word(#[trigger] lines[k], w),
    decreases lines.len() - j,
{
    if j < lines.len() && starts_with_word(lines[j], w) {
        lemma_run_starts(lines, j + 1, w);
    }
}

/// Whether the BMFont parser reads the definition without panicking, computed.
fn parses_safely(def: &str) -> (r: bool)
    ensures
        r == bmfont_parses_safely(def@),
{
    let lines = lines_of(&chars_of(def));
    let ghost ls = lines@.map_values(|l: Vec<char>| l@);
    let n = lines.len();
    if n < 2 {
        return true;
    }
    let info = chars_of("info");
    let common = chars_of("common");
    let page = chars_of("page");
    let chr = chars_of("char");
    let kerning = chars_of("kerning");
    proof {
        assert(ls[0] == lines@[0]@);
        assert(ls[1] == lines@[1]@);
    }
    if !line_starts_with(&lines[0], &info) || !line_starts_with(&lines[1], &common) {
        return true;
    }
    let ps = find_first_line(&lines, 2, &page);
    proof {
        assert(ps <= n) by {
            lemma_first_line_bounded(ls, 2, "page"@);
        }
    }
    if ps >= n {
        return true;
    }
    let pe = find_run_end(&lines, ps, &page);
    if pe >= n {
        return false;
    }
    proof {
        lemma_run_starts(ls, ps as int, "page"@);
        lemma_run_starts(ls, pe + 1, "char"@);
        assert forall|j: int| ps <= j < pe implies starts_with_word(#[trigger] lines@[j]@, page@) by {
            assert(ls[j] == lines@[j]@);
        }
    }
    let ce = find_run_end(&lines, pe + 1, &chr);
    proof {
        assert forall|j: int| pe + 1 <= j < ce implies starts_with_word(#[trigger] lines@[j]@, chr@) by {
            assert(ls[j] == lines@[j]@);
        }
    }
    if !check_words(&lines, ps, pe, &page) || !check_words(&lines, pe + 1, ce, &chr) {
        return false;
    }
    if ce < n {
        let ke = find_run_end(&lines, ce + 1, &kerning);
        proof {
            lemma_run_starts(ls, ce + 1, "kerning"@);
            assert forall|j: int| ce + 1 <= j < ke implies starts_with_word(#[trigger] lines@[j]@, kerning@) by {
                assert(ls[j] == lines@[j]@);
            }
        }
        check_words(&lines, ce + 1, ke, &kerning)
    } else {
        true
    }
}

/// The first line from `j` on is at most the number of lines.
proof fn lemma_first_line_bounded(lines: Seq<Seq<char>>, j: int, w: Seq<char>)
    requires
        0 <= j,
    ensures
        first_line_from(lines, j, w) <= lines.len(),
        first_line_from(lines, j, w) < lines.len() ==> j <= first_line_from(lines, j, w),
    decreases lines.len() - j,
{
    if j < lines.len() && !starts_with_word(lines[j], w) {
        lemma_first_line_bounded(lines, j + 1, w);
    }
}

/// Lists the file names of the pages of a bitmapped font definition, as the BMFont parser reads
/// them. `None` where the parser would panic on the definition (see `bmfont_parses_safely`) or
/// returns an error; baking such a font fails.
pub fn font_page_names(def: &str) -> (r: Option<Vec<String>>)
    ensures
        match r {
            Some(v) => bmfont_parses_safely(def@) && bmfont_pages(def@) == Some(string_texts(v@)),
            None => !bmfont_parses_safely(def@) || bmfont_pages(def@) is None,
        },
{
    if parses_safely(def) {
        parse_bmfont_pages(def)
    } else {
        None
    }
}

} // verus!
