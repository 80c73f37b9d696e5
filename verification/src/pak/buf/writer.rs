//! Collects assets into the contents of a `.pak` file.
use vstd::prelude::*;
use super::data::{Data, DataRef, DataView, Id, id_of};
use crate::pak::MaterialInfo;
use crate::pak::bitmap::BitmapBuf;
use crate::pak::bitmap_font::BitmapFont;
use crate::pak::compression::{buffer_fits, write_through, written_through, Compression};
use core::ops::Range;
use crate::pak::{
    AnimationId, BitmapFontId, BitmapId, BlobId, MaterialId, ModelId, SceneId,
};

verus! {

/// The identifiers after optionally storing `id` under `key`, and the keys after it.
pub open spec fn keyed(v: DataView, key: Option<Seq<char>>, id: Id) -> DataView {
    match key {
        Some(k) => DataView {
            ids: v.ids.insert(k, id),
            keys: if v.ids.contains_key(k) { v.keys } else { v.keys.push(k) },
            ..v
        },
        None => v,
    }
}

/// The view of an optional key.
pub open spec fn key_view(key: Option<String>) -> Option<Seq<char>> {
    match key {
        Some(k) => Some(k@),
        None => None,
    }
}

/// The key is absent or not yet used.
pub open spec fn key_free(v: DataView, key: Option<String>) -> bool {
    match key {
        Some(k) => !v.ids.contains_key(k@),
        None => true,
    }
}

/// Collects assets, each under an optional key, into the contents of a `.pak` file.
pub struct Writer {
    compression: Option<Compression>,
    data: Data,
}

impl Writer {
    /// The compression to use when writing.
    pub closed spec fn compression_spec(&self) -> Option<Compression> {
        self.compression
    }

    /// The contents collected so far.
    pub closed spec fn contents(&self) -> DataView {
        self.data@
    }

    /// A writer with no contents and no compression.
    pub fn new() -> (r: Self)
        ensures
            r.compression_spec() is None,
            r.contents().ids == Map::<Seq<char>, Id>::empty(),
            r.contents().keys.len() == 0,
            r.contents().materials.len() == 0,
            r.contents().anims.len() == 0,
            r.contents().bitmap_fonts.len() == 0,
            r.contents().bitmaps.len() == 0,
            r.contents().blobs.len() == 0,
            r.contents().models.len() == 0,
            r.contents().scenes.len() == 0,
    {
        Writer { compression: None, data: Data::new() }
    }

    /// Stores the key, when given, for the identifier.
    fn insert_key(&mut self, key: Option<String>, id: Id)
        ensures
            final(self).compression_spec() == old(self).compression_spec(),
            final(self).contents() == keyed(old(self).contents(), key_view(key), id),
    {
        match key {
            Some(k) => self.data.insert_id(k, id),
            None => {},
        }
    }

    /// An animation, in serialized form: stores it and, when a key is given, makes it available under that key. Returns
    /// its identifier, the number of anims stored before it.
    pub fn push_animation(&mut self, buf: Vec<u8>, key: Option<String>) -> (r: AnimationId)
        requires
            key_free(old(self).contents(), key),
        ensures
            r.0 == old(self).contents().anims.len(),
            final(self).compression_spec() == old(self).compression_spec(),
            final(self).contents() == keyed(
                DataView { anims: old(self).contents().anims.push(DataRef::Data(buf)), ..old(self).contents() },
                key_view(key),
                Id::Animation(r),
            ),
    {
        let id = AnimationId(self.data.anims().len());
        self.data.push_anim(DataRef::Data(buf));
        self.insert_key(key, Id::Animation(id));
        id
    }

    /// A bitmap font: stores it and, when a key is given, makes it available under that key. Returns
    /// its identifier, the number of bitmap_fonts stored before it.
    pub fn push_bitmap_font(&mut self, buf: BitmapFont, key: Option<String>) -> (r: BitmapFontId)
        requires
            key_free(old(self).contents(), key),
        ensures
            r.0 == old(self).contents().bitmap_fonts.len(),
            final(self).compression_spec() == old(self).compression_spec(),
            final(self).contents() == keyed(
                DataView { bitmap_fonts: old(self).contents().bitmap_fonts.push(DataRef::Data(buf)), ..old(self).contents() },
                key_view(key),
                Id::BitmapFont(r),
            ),
    {
        let id = BitmapFontId(self.data.bitmap_fonts().len());
        self.data.push_bitmap_font(DataRef::Data(buf));
        self.insert_key(key, Id::BitmapFont(id));
        id
    }

    /// A bitmap: stores it and, when a key is given, makes it available under that key. Returns
    /// its identifier, the number of bitmaps stored before it.
    pub fn push_bitmap(&mut self, buf: BitmapBuf, key: Option<String>) -> (r: BitmapId)
        requires
            key_free(old(self).contents(), key),
        ensures
            r.0 == old(self).contents().bitmaps.len(),
            final(self).compression_spec() == old(self).compression_spec(),
            final(self).contents() == keyed(
                DataView { bitmaps: old(self).contents().bitmaps.push(DataRef::Data(buf)), ..old(self).contents() },
                key_view(key),
                Id::Bitmap(r),
            ),
    {
        let id = BitmapId(self.data.bitmaps().len());
        self.data.push_bitmap(DataRef::Data(buf));
        self.insert_key(key, Id::Bitmap(id));
        id
    }

    /// A blob: stores it and, when a key is given, makes it available under that key. Returns
    /// its identifier, the number of blobs stored before it.
    pub fn push_blob(&mut self, buf: Vec<u8>, key: Option<String>) -> (r: BlobId)
        requires
            key_free(old(self).contents(), key),
        ensures
            r.0 == old(self).contents().blobs.len(),
            final(self).compression_spec() == old(self).compression_spec(),
            final(self).contents() == keyed(
                DataView { blobs: old(self).contents().blobs.push(DataRef::Data(buf)), ..old(self).contents() },
                key_view(key),
                Id::Blob(r),
            ),
    {
        let id = BlobId(self.data.blobs().len());
        self.data.push_blob(DataRef::Data(buf));
        self.insert_key(key, Id::Blob(id));
        id
    }

    /// A material: stores it and, when a key is given, makes it available under that key. Returns
    /// its identifier, the number of materials stored before it.
    pub fn push_material(&mut self, info: MaterialInfo, key: Option<String>) -> (r: MaterialId)
        requires
            key_free(old(self).contents(), key),
        ensures
            r.0 == old(self).contents().materials.len(),
            final(self).compression_spec() == old(self).compression_spec(),
            final(self).contents() == keyed(
                DataView { materials: old(self).contents().materials.push(info), ..old(self).contents() },
                key_view(key),
                Id::Material(r),
            ),
    {
        let id = MaterialId(self.data.materials().len());
        self.data.push_material(info);
        self.insert_key(key, Id::Material(id));
        id
    }

    /// A model, in serialized form: stores it and, when a key is given, makes it available under that key. Returns
    /// its identifier, the number of models stored before it.
    pub fn push_model(&mut self, buf: Vec<u8>, key: Option<String>) -> (r: ModelId)
        requires
            key_free(old(self).contents(), key),
        ensures
            r.0 == old(self).contents().models.len(),
            final(self).compression_spec() == old(self).compression_spec(),
            final(self).contents() == keyed(
                DataView { models: old(self).contents().models.push(DataRef::Data(buf)), ..old(self).contents() },
                key_view(key),
                Id::Model(r),
            ),
    {
        let id = ModelId(self.data.models().len());
        self.data.push_model(DataRef::Data(buf));
        self.insert_key(key, Id::Model(id));
        id
    }

    /// A scene, in serialized form: stores it under the key. Returns its identifier, the number
    /// of scenes stored before it.
    pub fn push_scene(&mut self, buf: Vec<u8>, key: String) -> (r: SceneId)
        requires
            !old(self).contents().ids.contains_key(key@),
        ensures
            r.0 == old(self).contents().scenes.len(),
            final(self).compression_spec() == old(self).compression_spec(),
            final(self).contents() == keyed(
                DataView { scenes: old(self).contents().scenes.push(DataRef::Data(buf)), ..old(self).contents() },
                Some(key@),
                Id::Scene(r),
            ),
    {
        let id = SceneId(self.data.scenes().len());
        self.data.push_scene(DataRef::Data(buf));
        self.insert_key(Some(key), Id::Scene(id));
        id
    }

    /// Sets the compression to use when writing.
    pub fn with_compression(&mut self, compression: Compression) -> (r: &mut Self)
        ensures
            r.compression_spec() == Some(compression),
            r.contents() == old(self).contents(),
            *final(self) == *final(r),
    {
        self.compression = Some(compression);
        self
    }

    /// Sets, or clears, the compression to use when writing.
    pub fn with_compression_is(&mut self, compression: Option<Compression>) -> (r: &mut Self)
        ensures
            r.compression_spec() == compression,
            r.contents() == old(self).contents(),
            *final(self) == *final(r),
    {
        self.compression = compression;
        self
    }

    /// The compression to use when writing.
    pub fn compression(&self) -> (r: Option<Compression>)
        ensures
            r == self.compression_spec(),
    {
        self.compression
    }

    /// The contents collected so far.
    pub fn data(&self) -> (r: &Data)
        ensures
            r@ == self.contents(),
    {
        &self.data
    }
}

/// The byte ranges of chunks laid out one after the other from the position `start`, and their
/// bytes: `None` where the end position does not fit in 64 bits. Positions are kept in 32 bits,
/// as the file format stores them; they are truncated there.
pub open spec fn laid_out(start: u64, chunks: Seq<Seq<u8>>, r: Option<(Vec<u8>, Vec<Range<u32>>)>) -> bool {
    match r {
        Some((bytes, refs)) => {
            &&& start + chunks.flatten().len() <= u64::MAX
            &&& bytes@ == chunks.flatten()
            &&& refs@.len() == chunks.len()
            &&& forall|k: int|
                0 <= k < refs@.len() ==> {
                    &&& #[trigger] refs@[k].start == (start + chunks.take(k).flatten().len()) as u32
                    &&& refs@[k].end == (start + chunks.take(k + 1).flatten().len()) as u32
                }
        },
        None => start + chunks.flatten().len() > u64::MAX,
    }
}

/// The flattened length of a prefix grows with the prefix.
proof fn lemma_prefix_len_grows(chunks: Seq<Seq<u8>>, j: int, k: int)
    requires
        0 <= j <= k <= chunks.len(),
    ensures
        chunks.take(j).flatten().len() <= chunks.take(k).flatten().len(),
    decreases k - j,
{
    if j < k {
        lemma_prefix_len_grows(chunks, j, k - 1);
        assert(chunks.take(k) == chunks.take(k - 1).push(chunks[k - 1]));
        chunks.take(k - 1).lemma_flatten_push(chunks[k - 1]);
    }
}

/// The bytes of each buffer.
pub open spec fn views_of(chunks: Seq<Vec<u8>>) -> Seq<Seq<u8>> {
    chunks.map_values(|c: Vec<u8>| c@)
}

/// Lays chunks out one after the other from the position `start` of a `.pak` file, and gives
/// back their bytes and the byte range of each.
pub fn lay_out_refs(start: u64, chunks: Vec<Vec<u8>>) -> (r: Option<(Vec<u8>, Vec<Range<u32>>)>)
    ensures
        laid_out(start, views_of(chunks@), r),
{
    let ghost cs = views_of(chunks@);
    let mut rest = chunks;
    let mut bytes: Vec<u8> = Vec::new();
    let mut refs: Vec<Range<u32>> = Vec::new();
    let mut pos: u64 = start;
    let mut i: usize = 0;
    let n = rest.len();
    assert(cs.take(0) == Seq::<Seq<u8>>::empty());
    while i < n
        invariant
            cs == views_of(chunks@),
            n == rest@.len() == cs.len(),
            forall|k: int| i <= k < n ==> #[trigger] rest@[k]@ == cs[k],
            i <= n,
            pos == start + cs.take(i as int).flatten().len(),
            bytes@ == cs.take(i as int).flatten(),
            refs@.len() == i,
            forall|k: int|
                0 <= k < i ==> {
                    &&& #[trigger] refs@[k].start == (start + cs.take(k).flatten().len()) as u32
                    &&& refs@[k].end == (start + cs.take(k + 1).flatten().len()) as u32
                },
        decreases n - i,
    {
        let mut chunk: Vec<u8> = Vec::new();
        std::mem::swap(&mut chunk, &mut rest[i]);
        assert(chunk@ == cs[i as int]);
        proof {
            assert(cs.take(i + 1) == cs.take(i as int).push(cs[i as int]));
            cs.take(i as int).lemma_flatten_push(cs[i as int]);
        }
        let len = chunk.len() as u64;
        if len > u64::MAX - pos {
            proof {
                assert(cs.take(i + 1).flatten().len() == cs.take(i as int).flatten().len() + len);
                lemma_prefix_len_grows(cs, i + 1, n as int);
                assert(cs.take(n as int) == cs);
                assert(start + cs.flatten().len() > u64::MAX);
            }
            return None;
        }
        let end = pos + len;
        refs.push(Range { start: pos as u32, end: end as u32 });
        bytes.append(&mut chunk);
        pos = end;
        i = i + 1;
    }
    assert(cs.take(n as int) == cs);
    let r = Some((bytes, refs));
    assert(laid_out(start, cs, r));
    r
}

/// Every item can be written through the compression.
pub open spec fn all_written(c: Option<Compression>, items: Seq<Vec<u8>>) -> bool {
    forall|k: int| 0 <= k < items.len() ==> #[trigger] written_through(c, items[k]@) is Some
}

/// The items as written through the compression.
pub open spec fn written_chunks(c: Option<Compression>, items: Seq<Vec<u8>>) -> Seq<Seq<u8>> {
    items.map_values(|v: Vec<u8>| written_through(c, v@).unwrap())
}

/// Writes the items through the compression one after the other, as they are laid out in a
/// `.pak` file from the position `start`, and gives back the bytes and the byte range of each
/// item. Fails where an item cannot be written through the compression.
pub fn write_refs(compression: Option<Compression>, start: u64, items: &Vec<Vec<u8>>) -> (r: Option<(Vec<u8>, Vec<Range<u32>>)>)
    requires
        buffer_fits(compression),
    ensures
        all_written(compression, items@) ==> laid_out(start, written_chunks(compression, items@), r),
        !all_written(compression, items@) ==> r is None,
{
    let mut chunks: Vec<Vec<u8>> = Vec::new();
    let mut i: usize = 0;
    while i < items.len()
        invariant
            buffer_fits(compression),
            i <= items@.len(),
            chunks@.len() == i,
            forall|k: int| 0 <= k < i ==> #[trigger] written_through(compression, items@[k]@) == Some(chunks@[k]@),
        decreases items@.len() - i,
    {
        match write_through(compression, items[i].as_slice()) {
            Some(chunk) => chunks.push(chunk),
            None => return None,
        }
        i = i + 1;
    }
    proof {
        assert(views_of(chunks@) == written_chunks(compression, items@));
    }
    lay_out_refs(start, chunks)
}

/// Laid out chunks follow one another: each byte range ends where the next begins, and the
/// bytes in the range of a chunk are that chunk, where positions have not been truncated.
pub proof fn lemma_laid_out_ranges(start: u64, chunks: Seq<Seq<u8>>, bytes: Vec<u8>, refs: Vec<Range<u32>>, k: int)
    requires
        laid_out(start, chunks, Some((bytes, refs))),
        0 <= k < chunks.len(),
    ensures
        k + 1 < chunks.len() ==> refs@[k].end == refs@[k + 1].start,
        bytes@.subrange(
            chunks.take(k).flatten().len() as int,
            (chunks.take(k).flatten().len() + chunks[k].len()) as int,
        ) == chunks[k],
        start + chunks.flatten().len() <= u32::MAX ==> refs@[k].start == start + chunks.take(k).flatten().len()
            && refs@[k].end == refs@[k].start + chunks[k].len(),
{
    let before = chunks.take(k);
    let after = chunks.skip(k + 1);
    assert(refs@[k].start == (start + chunks.take(k).flatten().len()) as u32);
    if k + 1 < chunks.len() {
        assert(refs@[k + 1].start == (start + chunks.take(k + 1).flatten().len()) as u32);
    }
    assert(chunks.take(k + 1) == before.push(chunks[k]));
    before.lemma_flatten_push(chunks[k]);
    assert(chunks == chunks.take(k + 1) + after);
    vstd::seq_lib::lemma_flatten_concat(chunks.take(k + 1), after);
    assert(bytes@ == before.flatten() + chunks[k] + after.flatten());
    assert(bytes@.subrange(before.flatten().len() as int, (before.flatten().len() + chunks[k].len()) as int) =~= chunks[k]);
    lemma_prefix_len_grows(chunks, k + 1, chunks.len() as int);
    assert(chunks.take(chunks.len() as int) == chunks);
}

/// Once an asset is stored under a key, that key resolves to the asset's identifier, and every
/// other key resolves as it did before.
pub proof fn lemma_keyed_lookup(v: DataView, key: Seq<char>, id: Id, other: Seq<char>)
    requires
        !v.ids.contains_key(key),
    ensures
        id_of(keyed(v, Some(key), id), key) == Some(id),
        other != key ==> id_of(keyed(v, Some(key), id), other) == id_of(v, other),
        keyed(v, Some(key), id).keys == v.keys.push(key),
{
}

} // verus!
