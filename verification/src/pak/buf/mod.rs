//! Contains the functions and types used to bake assets into `.pak` files.
//!
//! Assets are regular art such as `.glb`, `.jpeg` and `.ttf` files.
use vstd::prelude::*;
use vstd::string::{is_ascii, StrSliceExecFns, StringSliceAdditionalSpecFns};
use crate::text::{string_of, chars_of};

pub mod bitmap;
pub mod blob;
pub mod content;
pub mod data;
pub mod material;
pub mod model;
pub mod scene;
pub mod writer;

verus! {

// ---- Paths -----------------------------------------------------------------------------------

/// The extension of a file name: the part after its last `.`, unless the name has no `.` or its
/// only `.` is its first character.
pub open spec fn name_extension(name: Seq<char>) -> Option<Seq<char>> {
    if exists|i: int| 0 < i < name.len() && name[i] == '.' && forall|j: int|
        i < j < name.len() ==> name[j] != '.' {
        let i = choose|i: int|
            0 < i < name.len() && name[i] == '.' && forall|j: int| i < j < name.len() ==> name[j] != '.';
        Some(name.skip(i + 1))
    } else {
        None
    }
}

/// The characters `toml`.
pub open spec fn toml_chars() -> Seq<char> {
    seq!['t', 'o', 'm', 'l']
}

/// Whether a path, given by its components, names a file with the `.toml` extension.
pub open spec fn path_is_toml(path: Seq<Seq<char>>) -> bool {
    path.len() > 0 && name_extension(path.last()) == Some(toml_chars())
}

/// The components joined with `/`.
pub open spec fn join_components(parts: Seq<Seq<char>>) -> Seq<char>
    decreases parts.len(),
{
    if parts.len() == 0 {
        seq![]
    } else if parts.len() == 1 {
        parts[0]
    } else {
        join_components(parts.drop_last()) + seq!['/'] + parts.last()
    }
}

/// The key of a file: its path relative to the directory when the directory contains it
/// (otherwise the whole path), joined with `/`, without a `.toml` extension.
pub open spec fn spec_file_key(dir: Seq<Seq<char>>, path: Seq<Seq<char>>) -> Seq<char> {
    let rest = if dir.len() <= path.len() && path.take(dir.len() as int) == dir {
        path.skip(dir.len() as int)
    } else {
        path
    };
    let joined = join_components(rest);
    if path_is_toml(rest) {
        joined.take(joined.len() - 5)
    } else {
        joined
    }
}

/// The views of a slice of strings.
pub open spec fn string_views(v: Seq<String>) -> Seq<Seq<char>> {
    v.map_values(|s: String| s@)
}

/// Whether the file name ends in the `.toml` extension.
fn name_is_toml(name: &str) -> (r: bool)
    ensures
        r == (name_extension(name@) == Some(toml_chars())),
{
    let chars = chars_of(name);
    let n = chars.len();
    let mut i = n;
    while i > 0 && chars[i - 1] != '.'
        invariant
            i <= n,
            n == chars@.len(),
            forall|j: int| i <= j < n ==> #[trigger] chars@[j] != '.',
        decreases i,
    {
        i = i - 1;
    }
    // The last `.` is at index `i - 1`, when `i > 0`.
    if i <= 1 {
        proof {
            if exists|k: int| 0 < k < name@.len() && name@[k] == '.' && forall|j: int|
                k < j < name@.len() ==> name@[j] != '.' {
                let k = choose|k: int|
                    0 < k < name@.len() && name@[k] == '.' && forall|j: int| k < j < name@.len() ==> name@[j] != '.';
                assert(chars@[k] == '.');
            }
        }
        return false;
    }
    proof {
        let k = i - 1;
        assert(chars@[k as int] == '.');
        assert forall|k2: int|
            0 < k2 < name@.len() && name@[k2] == '.' && (forall|j: int| k2 < j < name@.len() ==> name@[j] != '.')
            implies k2 == k by {
            if k2 < k {
                assert(name@[k as int] == '.');
            } else if k2 > k {
                assert(chars@[k2] != '.');
            }
        }
    }
    let len = n - i;
    if len != 4 {
        proof {
            assert(name@.skip(i as int).len() != 4);
        }
        return false;
    }
    let r = chars[i] == 't' && chars[i + 1] == 'o' && chars[i + 2] == 'm' && chars[i + 3] == 'l';
    proof {
        if r {
            assert(name@.skip(i as int) =~= toml_chars());
        } else {
            assert(name@.skip(i as int) != toml_chars()) by {
                if name@.skip(i as int) == toml_chars() {
                    assert(name@.skip(i as int)[0] == 't');
                    assert(name@.skip(i as int)[1] == 'o');
                    assert(name@.skip(i as int)[2] == 'm');
                    assert(name@.skip(i as int)[3] == 'l');
                }
            }
        }
    }
    r
}

/// The kind of an asset file found by a content group, which decides how it is baked.
#[derive(Clone, Copy, Debug, PartialEq, Eq, Structural)]
pub enum AssetFileKind {
    /// A glTF model (`.glb`, `.gltf`).
    Model,
    /// A regular image (`.jpg`, `.png` and the like).
    Bitmap,
    /// An asset description (`.toml`).
    Toml,
    /// Any other file, baked as it is.
    Blob,
}

/// The character in lower case, where it is an ASCII upper case letter.
pub open spec fn lower_char(c: char) -> char {
    if 'A' <= c && c <= 'Z' {
        ((c as int) + 32) as char
    } else {
        c
    }
}

/// The characters with ASCII upper case letters in lower case.
pub open spec fn lower_chars(s: Seq<char>) -> Seq<char> {
    s.map_values(|c: char| lower_char(c))
}

/// Whether the extension, in lower case, is one of the image file extensions.
pub open spec fn is_image_extension(e: Seq<char>) -> bool {
    ||| e == "jpg"@
    ||| e == "jpeg"@
    ||| e == "png"@
    ||| e == "bmp"@
    ||| e == "tga"@
    ||| e == "dds"@
    ||| e == "webp"@
    ||| e == "gif"@
    ||| e == "ico"@
    ||| e == "tiff"@
}

/// The kind of a file with the given extension; the extension is compared without regard to
/// the case of ASCII letters.
pub open spec fn extension_kind(ext: Seq<char>) -> AssetFileKind {
    let e = lower_chars(ext);
    if e == "glb"@ || e == "gltf"@ {
        AssetFileKind::Model
    } else if is_image_extension(e) {
        AssetFileKind::Bitmap
    } else if e == "toml"@ {
        AssetFileKind::Toml
    } else {
        AssetFileKind::Blob
    }
}

/// The kind of a file, given by the components of its path: a file without an extension is a
/// blob.
pub open spec fn path_kind(path: Seq<Seq<char>>) -> AssetFileKind {
    if path.len() == 0 {
        AssetFileKind::Blob
    } else {
        match name_extension(path.last()) {
            Some(e) => extension_kind(e),
            None => AssetFileKind::Blob,
        }
    }
}

/// How a file is baked by its extension, in any ASCII case: each of the image extensions
/// `jpg`, `jpeg`, `png`, `bmp`, `tga`, `dds`, `webp`, `gif`, `ico` and `tiff` makes an image,
/// `glb` and `gltf` make a model, and `toml` makes an asset description.
pub proof fn lemma_extension_kinds(ext: Seq<char>)
    ensures
        lower_chars(ext) == seq!['j', 'p', 'g'] ==> extension_kind(ext) == AssetFileKind::Bitmap,
        lower_chars(ext) == seq!['j', 'p', 'e', 'g'] ==> extension_kind(ext) == AssetFileKind::Bitmap,
        lower_chars(ext) == seq!['p', 'n', 'g'] ==> extension_kind(ext) == AssetFileKind::Bitmap,
        lower_chars(ext) == seq!['b', 'm', 'p'] ==> extension_kind(ext) == AssetFileKind::Bitmap,
        lower_chars(ext) == seq!['t', 'g', 'a'] ==> extension_kind(ext) == AssetFileKind::Bitmap,
        lower_chars(ext) == seq!['d', 'd', 's'] ==> extension_kind(ext) == AssetFileKind::Bitmap,
        lower_chars(ext) == seq!['w', 'e', 'b', 'p'] ==> extension_kind(ext) == AssetFileKind::Bitmap,
        lower_chars(ext) == seq!['g', 'i', 'f'] ==> extension_kind(ext) == AssetFileKind::Bitmap,
        lower_chars(ext) == seq!['i', 'c', 'o'] ==> extension_kind(ext) == AssetFileKind::Bitmap,
        lower_chars(ext) == seq!['t', 'i', 'f', 'f'] ==> extension_kind(ext) == AssetFileKind::Bitmap,
        lower_chars(ext) == seq!['g', 'l', 'b'] ==> extension_kind(ext) == AssetFileKind::Model,
        lower_chars(ext) == seq!['g', 'l', 't', 'f'] ==> extension_kind(ext) == AssetFileKind::Model,
        lower_chars(ext) == seq!['t', 'o', 'm', 'l'] ==> extension_kind(ext) == AssetFileKind::Toml,
{
    reveal_strlit("jpg");
    reveal_strlit("jpeg");
    reveal_strlit("png");
    reveal_strlit("bmp");
    reveal_strlit("tga");
    reveal_strlit("dds");
    reveal_strlit("webp");
    reveal_strlit("gif");
    reveal_strlit("ico");
    reveal_strlit("tiff");
    reveal_strlit("glb");
    reveal_strlit("gltf");
    reveal_strlit("toml");
    let e = lower_chars(ext);
    assert(seq!['j', 'p', 'g'] =~= "jpg"@);
    assert(seq!['j', 'p', 'e', 'g'] =~= "jpeg"@);
    assert(seq!['p', 'n', 'g'] =~= "png"@);
    assert(seq!['b', 'm', 'p'] =~= "bmp"@);
    assert(seq!['t', 'g', 'a'] =~= "tga"@);
    assert(seq!['d', 'd', 's'] =~= "dds"@);
    assert(seq!['w', 'e', 'b', 'p'] =~= "webp"@);
    assert(seq!['g', 'i', 'f'] =~= "gif"@);
    assert(seq!['i', 'c', 'o'] =~= "ico"@);
    assert(seq!['t', 'i', 'f', 'f'] =~= "tiff"@);
    assert(seq!['g', 'l', 'b'] =~= "glb"@);
    assert(seq!['g', 'l', 't', 'f'] =~= "gltf"@);
    assert(seq!['t', 'o', 'm', 'l'] =~= "toml"@);
}

/// The extension of a file name, computed.
fn extension_chars(name: &str) -> (r: Option<Vec<char>>)
    ensures
        match r {
            Some(e) => name_extension(name@) == Some(e@),
            None => name_extension(name@) is None,
        },
{
    let chars = chars_of(name);
    let n = chars.len();
    let mut i = n;
    while i > 0 && chars[i - 1] != '.'
        invariant
            i <= n,
            n == chars@.len(),
            forall|j: int| i <= j < n ==> #[trigger] chars@[j] != '.',
        decreases i,
    {
        i = i - 1;
    }
    if i <= 1 {
        proof {
            if exists|k: int| 0 < k < name@.len() && name@[k] == '.' && forall|j: int|
                k < j < name@.len() ==> name@[j] != '.' {
                let k = choose|k: int|
                    0 < k < name@.len() && name@[k] == '.' && forall|j: int| k < j < name@.len() ==> name@[j] != '.';
                assert(chars@[k] == '.');
            }
        }
        return None;
    }
    proof {
        let k = i - 1;
        assert(chars@[k as int] == '.');
        assert forall|k2: int|
            0 < k2 < name@.len() && name@[k2] == '.' && (forall|j: int| k2 < j < name@.len() ==> name@[j] != '.')
            implies k2 == k by {
            if k2 < k {
                assert(name@[k as int] == '.');
            } else if k2 > k {
                assert(chars@[k2] != '.');
            }
        }
    }
    let mut e: Vec<char> = Vec::new();
    let mut j = i;
    while j < n
        invariant
            i <= j <= n,
            n == chars@.len(),
            e@ == chars@.subrange(i as int, j as int),
        decreases n - j,
    {
        e.push(chars[j]);
        proof {
            assert(chars@.subrange(i as int, j + 1) == chars@.subrange(i as int, j as int).push(chars@[j as int]));
        }
        j = j + 1;
    }
    proof {
        assert(e@ == name@.skip(i as int));
    }
    Some(e)
}

/// The characters with ASCII upper case letters in lower case, computed.
fn lower_case(s: &Vec<char>) -> (r: Vec<char>)
    ensures
        r@ == lower_chars(s@),
{
    let mut r: Vec<char> = Vec::new();
    let mut i: usize = 0;
    while i < s.len()
        invariant
            i <= s@.len(),
            r@ == lower_chars(s@.take(i as int)),
        decreases s@.len() - i,
    {
        let c = s[i];
        let l = if 'A' <= c && c <= 'Z' {
            let code = c as u8;
            (code + 32) as char
        } else {
            c
        };
        r.push(l);
        proof {
            assert(s@.take(i + 1) == s@.take(i as int).push(c));
            assert(lower_chars(s@.take(i + 1)) =~= lower_chars(s@.take(i as int)).push(lower_char(c)));
        }
        i = i + 1;
    }
    proof {
        assert(s@.take(s@.len() as int) == s@);
    }
    r
}

/// Whether the characters spell the given text.
fn spells(chars: &Vec<char>, text: &str) -> (r: bool)
    ensures
        r == (chars@ == text@),
{
    let t = chars_of(text);
    if chars.len() != t.len() {
        return false;
    }
    let mut i: usize = 0;
    while i < t.len()
        invariant
            i <= t@.len(),
            t@ == text@,
            chars@.len() == t@.len(),
            forall|j: int| 0 <= j < i ==> chars@[j] == t@[j],
        decreases t@.len() - i,
    {
        if chars[i] != t[i] {
            proof {
                assert(chars@[i as int] != t@[i as int]);
            }
            return false;
        }
        i = i + 1;
    }
    proof {
        assert(chars@ =~= t@);
    }
    true
}

/// The kind of a file with the given extension, computed.
fn kind_of_extension(ext: &Vec<char>) -> (r: AssetFileKind)
    ensures
        r == extension_kind(ext@),
{
    let e = lower_case(ext);
    if spells(&e, "glb") || spells(&e, "gltf") {
        AssetFileKind::Model
    } else if spells(&e, "jpg") || spells(&e, "jpeg") || spells(&e, "png") || spells(&e, "bmp")
        || spells(&e, "tga") || spells(&e, "dds") || spells(&e, "webp") || spells(&e, "gif")
        || spells(&e, "ico") || spells(&e, "tiff") {
        AssetFileKind::Bitmap
    } else if spells(&e, "toml") {
        AssetFileKind::Toml
    } else {
        AssetFileKind::Blob
    }
}

/// Decides how a file found by a content group is baked, by the extension of its name (the last
/// of its path's components), without regard to the case of ASCII letters: a model, an image, an
/// asset description, or any other file, which includes a file without an extension.
pub fn asset_file_kind(path: &[String]) -> (r: AssetFileKind)
    ensures
        r == path_kind(string_views(path@)),
{
    if path.len() == 0 {
        return AssetFileKind::Blob;
    }
    match extension_chars(path[path.len() - 1].as_str()) {
        Some(ext) => kind_of_extension(&ext),
        None => AssetFileKind::Blob,
    }
}

/// Returns `true` when the path, given by its components, has the `.toml` file extension.
pub fn is_toml(path: &[String]) -> (r: bool)
    ensures
        r == path_is_toml(string_views(path@)),
{
    if path.len() == 0 {
        return false;
    }
    name_is_toml(path[path.len() - 1].as_str())
}

/// Returns the parent directory of the path, given by its components; the root has no
/// components and is its own parent.
pub fn parent(path: &[String]) -> (r: Vec<String>)
    ensures
        r@ == if path@.len() == 0 { path@ } else { path@.drop_last() },
{
    let mut r: Vec<String> = Vec::new();
    if path.len() == 0 {
        return r;
    }
    let mut i: usize = 0;
    while i < path.len() - 1
        invariant
            path@.len() > 0,
            i <= path@.len() - 1,
            r@ == path@.take(i as int),
        decreases path@.len() - 1 - i,
    {
        r.push(path[i].clone());
        proof {
            assert(path@.take(i as int + 1) == path@.take(i as int).push(path@[i as int]));
        }
        i = i + 1;
    }
    r
}

/// Given some parent directory and a file, both given by their components, returns the portion
/// of the file's path after the directory, joined with `/` and without a `.toml` extension.
pub fn file_key(dir: &[String], path: &[String]) -> (r: String)
    ensures
        r@ == spec_file_key(string_views(dir@), string_views(path@)),
{
    let ghost dv = string_views(dir@);
    let ghost pv = string_views(path@);
    // Is the directory a prefix of the path?
    let mut prefix = dir.len() <= path.len();
    let mut i: usize = 0;
    while prefix && i < dir.len()
        invariant
            prefix ==> dir@.len() <= path@.len(),
            i <= dir@.len(),
            prefix ==> forall|j: int| 0 <= j < i ==> #[trigger] dir@[j]@ == path@[j]@,
            !prefix ==> !(dv.len() <= pv.len() && pv.take(dv.len() as int) == dv),
            dv == string_views(dir@),
            pv == string_views(path@),
        decreases dir@.len() - i,
    {
        if dir[i] != path[i] {
            proof {
                if dv.len() <= pv.len() && pv.take(dv.len() as int) == dv {
                    assert(pv.take(dv.len() as int)[i as int] == dv[i as int]);
                }
            }
            prefix = false;
        }
        i = i + 1;
    }
    let start = if prefix { dir.len() } else { 0 };
    proof {
        if prefix {
            assert(pv.take(dv.len() as int) =~= dv);
        }
    }
    let ghost rest = if dv.len() <= pv.len() && pv.take(dv.len() as int) == dv {
        pv.skip(dv.len() as int)
    } else {
        pv
    };
    proof {
        assert(rest =~= pv.skip(start as int));
    }
    // Join the remaining components.
    let mut key: Vec<char> = Vec::new();
    let mut k: usize = start;
    while k < path.len()
        invariant
            start <= k <= path@.len(),
            rest == pv.skip(start as int),
            pv == string_views(path@),
            key@ == join_components(pv.subrange(start as int, k as int)),
        decreases path@.len() - k,
    {
        let part = chars_of(path[k].as_str());
        let ghost before = key@;
        if k > start {
            key.push('/');
        }
        let mut c: usize = 0;
        let ghost mid = key@;
        while c < part.len()
            invariant
                c <= part@.len(),
                key@ == mid + part@.take(c as int),
            decreases part@.len() - c,
        {
            key.push(part[c]);
            proof {
                assert(part@.take(c as int + 1) == part@.take(c as int).push(part@[c as int]));
            }
            c = c + 1;
        }
        proof {
            assert(part@.take(part@.len() as int) == part@);
            let s = pv.subrange(start as int, k as int + 1);
            assert(s.drop_last() == pv.subrange(start as int, k as int));
            assert(s.last() == path@[k as int]@);
            if k > start {
                assert(key@ == join_components(s.drop_last()) + seq!['/'] + s.last());
            } else {
                assert(s.len() == 1);
                assert(key@ =~= s[0]);
            }
        }
        k = k + 1;
    }
    proof {
        assert(pv.subrange(start as int, path@.len() as int) == rest);
    }
    let toml = if start < path.len() { name_is_toml(path[path.len() - 1].as_str()) } else { false };
    proof {
        if rest.len() > 0 {
            assert(rest.last() == path@[path@.len() - 1]@);
        }
    }
    if toml {
        proof {
            lemma_join_ends_with_last(rest);
            lemma_toml_name_len(rest.last());
        }
        let n = key.len();
        key.truncate(n - 5);
    }
    string_of(key.as_slice())
}

/// A joined path ends with its last component.
proof fn lemma_join_ends_with_last(parts: Seq<Seq<char>>)
    requires
        parts.len() > 0,
    ensures
        join_components(parts).len() >= parts.last().len(),
{
}

/// A name with the `.toml` extension has more than five characters.
proof fn lemma_toml_name_len(name: Seq<char>)
    requires
        name_extension(name) == Some(toml_chars()),
    ensures
        name.len() >= 6,
{
    let i = choose|i: int|
        0 < i < name.len() && name[i] == '.' && forall|j: int| i < j < name.len() ==> name[j] != '.';
    assert(name.skip(i + 1).len() == 4);
}

// ---- Hexadecimal values ----------------------------------------------------------------------

/// The value of a hexadecimal digit.
pub open spec fn hex_digit_value(c: char) -> Option<u8> {
    if '0' <= c && c <= '9' {
        Some((c as u32 - '0' as u32) as u8)
    } else if 'a' <= c && c <= 'f' {
        Some((c as u32 - 'a' as u32 + 10) as u8)
    } else if 'A' <= c && c <= 'F' {
        Some((c as u32 - 'A' as u32 + 10) as u8)
    } else {
        None
    }
}

/// The value of a two character hexadecimal number, which may be written as a `+` sign followed
/// by one digit.
pub open spec fn hex_pair_value(hi: char, lo: char) -> Option<u8> {
    if hi == '+' {
        hex_digit_value(lo)
    } else {
        match (hex_digit_value(hi), hex_digit_value(lo)) {
            (Some(a), Some(b)) => Some((16 * a + b) as u8),
            _ => None,
        }
    }
}

/// The digit pairs of a hexadecimal color string of four, five, seven or nine characters: red,
/// green, blue and, for five and nine characters, alpha. In the short forms each digit is
/// doubled.
pub open spec fn hex_color_pairs(s: Seq<char>) -> Seq<(char, char)> {
    if s.len() == 4 || s.len() == 5 {
        let rgb = seq![(s[1], s[1]), (s[2], s[2]), (s[3], s[3])];
        if s.len() == 5 {
            rgb.push((s[4], s[4]))
        } else {
            rgb
        }
    } else if s.len() == 7 || s.len() == 9 {
        let rgb = seq![(s[1], s[2]), (s[3], s[4]), (s[5], s[6])];
        if s.len() == 9 {
            rgb.push((s[7], s[8]))
        } else {
            rgb
        }
    } else {
        seq![]
    }
}

/// The channels of a hexadecimal color made of digits: `#rrggbb` and `#rrggbbaa` give each
/// channel as a two digit number, `#rgb` and `#rgba` give each as its digit doubled (17 times the
/// digit); the forms without alpha are opaque (alpha 255).
pub proof fn lemma_hex_color_channels(s: Seq<char>)
    requires
        s.len() > 0,
        s[0] == '#',
        forall|i: int| 1 <= i < s.len() ==> #[trigger] hex_digit_value(s[i]) is Some,
    ensures
        ({
            let d = |i: int| hex_digit_value(s[i]).unwrap() as int;
            &&& s.len() == 7 ==> hex_color_value(s) == seq![
                (16 * d(1) + d(2)) as u8, (16 * d(3) + d(4)) as u8, (16 * d(5) + d(6)) as u8, 255u8]
            &&& s.len() == 9 ==> hex_color_value(s) == seq![
                (16 * d(1) + d(2)) as u8, (16 * d(3) + d(4)) as u8, (16 * d(5) + d(6)) as u8,
                (16 * d(7) + d(8)) as u8]
            &&& s.len() == 4 ==> hex_color_value(s) == seq![
                (17 * d(1)) as u8, (17 * d(2)) as u8, (17 * d(3)) as u8, 255u8]
            &&& s.len() == 5 ==> hex_color_value(s) == seq![
                (17 * d(1)) as u8, (17 * d(2)) as u8, (17 * d(3)) as u8, (17 * d(4)) as u8]
        }),
{
    if s.len() == 4 || s.len() == 5 || s.len() == 7 || s.len() == 9 {
        assert(hex_digit_value(s[1]) is Some);
        assert(hex_digit_value(s[2]) is Some);
        assert(hex_digit_value(s[3]) is Some);
        if s.len() >= 5 {
            assert(hex_digit_value(s[4]) is Some);
        }
        if s.len() >= 7 {
            assert(hex_digit_value(s[5]) is Some);
            assert(hex_digit_value(s[6]) is Some);
        }
        if s.len() == 9 {
            assert(hex_digit_value(s[7]) is Some);
            assert(hex_digit_value(s[8]) is Some);
        }
        assert(forall|c: char| #[trigger] hex_digit_value(c) is Some ==> hex_digit_value(c).unwrap() < 16);
    }
}

/// Whether the string has the length of a hexadecimal color.
pub open spec fn is_hex_color_len(len: nat) -> bool {
    len == 4 || len == 5 || len == 7 || len == 9
}

/// Whether every digit pair of a hexadecimal color string has a value.
pub open spec fn hex_color_parses(s: Seq<char>) -> bool {
    forall|k: int|
        0 <= k < hex_color_pairs(s).len() ==> (#[trigger] hex_pair_value(
            hex_color_pairs(s)[k].0,
            hex_color_pairs(s)[k].1,
        )) is Some
}

/// The channel values of a hexadecimal color string; alpha is 255 when the string gives none.
pub open spec fn hex_color_value(s: Seq<char>) -> Seq<u8> {
    let p = hex_color_pairs(s);
    let v = |k: int| hex_pair_value(p[k].0, p[k].1).unwrap();
    if p.len() == 4 {
        seq![v(0), v(1), v(2), v(3)]
    } else {
        seq![v(0), v(1), v(2), 255u8]
    }
}

/// The value of a hexadecimal digit.
fn hex_digit(c: char) -> (r: Option<u8>)
    ensures
        r == hex_digit_value(c),
{
    if '0' <= c && c <= '9' {
        Some((c as u32 - '0' as u32) as u8)
    } else if 'a' <= c && c <= 'f' {
        Some((c as u32 - 'a' as u32 + 10) as u8)
    } else if 'A' <= c && c <= 'F' {
        Some((c as u32 - 'A' as u32 + 10) as u8)
    } else {
        None
    }
}

/// The value of a two character hexadecimal number.
fn hex_pair(hi: char, lo: char) -> (r: Option<u8>)
    ensures
        r == hex_pair_value(hi, lo),
{
    if hi == '+' {
        hex_digit(lo)
    } else {
        match (hex_digit(hi), hex_digit(lo)) {
            (Some(a), Some(b)) => Some(16 * a + b),
            _ => None,
        }
    }
}

/// The characters of an ASCII string number as many as its bytes.
proof fn lemma_ascii_len(s: &str)
    requires
        is_ascii(s),
    ensures
        s@.len() == s.spec_bytes().len(),
{
    vstd::string::is_ascii_spec_bytes(s);
}

/// Parses a color written as `#rgb`, `#rgba`, `#rrggbb` or `#rrggbbaa` into red, green, blue and
/// alpha values; alpha is 255 when not given. Strings of other lengths give `None`.
pub fn parse_hex_color(val: &str) -> (r: Option<[u8; 4]>)
    requires
        is_hex_color_len(val.len() as nat) ==> is_ascii(val) && hex_color_parses(val@),
    ensures
        match r {
            Some(a) => is_hex_color_len(val.len() as nat) && a@ == hex_color_value(val@),
            None => !is_hex_color_len(val.len() as nat),
        },
{
    let len = val.len();
    if !(len == 4 || len == 5 || len == 7 || len == 9) {
        return None;
    }
    let n = val.unicode_len();
    proof {
        lemma_ascii_len(val);
        assert(n == len);
    }
    let ghost p = hex_color_pairs(val@);
    let mut red: u8 = 255;
    let mut green: u8 = 255;
    let mut blue: u8 = 255;
    let mut alpha: u8 = 255;
    if len == 4 || len == 5 {
        let c1 = val.get_char(1);
        let c2 = val.get_char(2);
        let c3 = val.get_char(3);
        proof {
            assert(p[0] == (c1, c1) && p[1] == (c2, c2) && p[2] == (c3, c3));
            assert(hex_pair_value(p[0].0, p[0].1) is Some);
            assert(hex_pair_value(p[1].0, p[1].1) is Some);
            assert(hex_pair_value(p[2].0, p[2].1) is Some);
        }
        red = (hex_pair(c1, c1).unwrap());
        green = (hex_pair(c2, c2).unwrap());
        blue = (hex_pair(c3, c3).unwrap());
    } else {
        let c1 = val.get_char(1);
        let c2 = val.get_char(2);
        let c3 = val.get_char(3);
        let c4 = val.get_char(4);
        let c5 = val.get_char(5);
        let c6 = val.get_char(6);
        proof {
            assert(p[0] == (c1, c2) && p[1] == (c3, c4) && p[2] == (c5, c6));
            assert(hex_pair_value(p[0].0, p[0].1) is Some);
            assert(hex_pair_value(p[1].0, p[1].1) is Some);
            assert(hex_pair_value(p[2].0, p[2].1) is Some);
        }
        red = (hex_pair(c1, c2).unwrap());
        green = (hex_pair(c3, c4).unwrap());
        blue = (hex_pair(c5, c6).unwrap());
    }
    if len == 5 {
        let c4 = val.get_char(4);
        proof {
            assert(p[3] == (c4, c4));
            assert(hex_pair_value(p[3].0, p[3].1) is Some);
        }
        alpha = (hex_pair(c4, c4).unwrap());
    } else if len == 9 {
        let c7 = val.get_char(7);
        let c8 = val.get_char(8);
        proof {
            assert(p[3] == (c7, c8));
            assert(hex_pair_value(p[3].0, p[3].1) is Some);
        }
        alpha = (hex_pair(c7, c8).unwrap());
    }
    let res: [u8; 4] = [red, green, blue, alpha];
    proof {
        assert(res@ =~= hex_color_value(val@));
    }
    Some(res)
}

/// The digit pair of a hexadecimal scalar string of two (`#v`, the digit doubled) or three
/// (`#vv`) characters.
pub open spec fn hex_scalar_pair(s: Seq<char>) -> (char, char) {
    if s.len() == 2 {
        (s[1], s[1])
    } else {
        (s[1], s[2])
    }
}

/// Parses a scalar written as `#v` or `#vv`. Strings of other lengths give `None`.
pub fn parse_hex_scalar(val: &str) -> (r: Option<u8>)
    requires
        (val.len() == 2 || val.len() == 3) ==> is_ascii(val)
            && hex_pair_value(hex_scalar_pair(val@).0, hex_scalar_pair(val@).1) is Some,
    ensures
        match r {
            Some(v) => (val.len() == 2 || val.len() == 3) && Some(v)
                == hex_pair_value(hex_scalar_pair(val@).0, hex_scalar_pair(val@).1),
            None => !(val.len() == 2 || val.len() == 3),
        },
{
    let len = val.len();
    if len == 2 || len == 3 {
        let n = val.unicode_len();
        proof {
            lemma_ascii_len(val);
            assert(n == len);
        }
    }
    if len == 2 {
        let c = val.get_char(1);
        hex_pair(c, c)
    } else if len == 3 {
        let hi = val.get_char(1);
        let lo = val.get_char(2);
        hex_pair(hi, lo)
    } else {
        None
    }
}

} // verus!
