//! The index of a `.pak` file: keys, identifiers and the place of each stored asset.
use vstd::prelude::*;
use vstd::hash_map::StringHashMap;
use core::ops::Range;
use crate::pak::MaterialInfo;
use crate::pak::bitmap::BitmapBuf;
use crate::pak::bitmap_font::BitmapFont;
use crate::pak::{
    AnimationId, BitmapFontId, BitmapId, BlobId, MaterialId, ModelId, SceneId,
};

verus! {

/// The identifier of an asset of any kind.
#[derive(Clone, Copy, Debug, PartialEq, Eq, Structural, Hash)]
pub enum Id {
    /// An `AnimationId`.
    Animation(AnimationId),
    /// An `BitmapId`.
    Bitmap(BitmapId),
    /// An `BitmapFontId`.
    BitmapFont(BitmapFontId),
    /// An `BlobId`.
    Blob(BlobId),
    /// An `MaterialId`.
    Material(MaterialId),
    /// An `ModelId`.
    Model(ModelId),
    /// An `SceneId`.
    Scene(SceneId),
}

impl Id {
    /// The `AnimationId` held by this identifier, if it is one.
    pub fn as_animation(&self) -> (r: Option<AnimationId>)
        ensures
            r == match *self {
                Id::Animation(id) => Some(id),
                _ => None,
            },
    {
        match self {
            Id::Animation(id) => Some(*id),
            _ => None,
        }
    }

    /// The `BitmapId` held by this identifier, if it is one.
    pub fn as_bitmap(&self) -> (r: Option<BitmapId>)
        ensures
            r == match *self {
                Id::Bitmap(id) => Some(id),
                _ => None,
            },
    {
        match self {
            Id::Bitmap(id) => Some(*id),
            _ => None,
        }
    }

    /// The `BitmapFontId` held by this identifier, if it is one.
    pub fn as_bitmap_font(&self) -> (r: Option<BitmapFontId>)
        ensures
            r == match *self {
                Id::BitmapFont(id) => Some(id),
                _ => None,
            },
    {
        match self {
            Id::BitmapFont(id) => Some(*id),
            _ => None,
        }
    }

    /// The `BlobId` held by this identifier, if it is one.
    pub fn as_blob(&self) -> (r: Option<BlobId>)
        ensures
            r == match *self {
                Id::Blob(id) => Some(id),
                _ => None,
            },
    {
        match self {
            Id::Blob(id) => Some(*id),
            _ => None,
        }
    }

    /// The `MaterialId` held by this identifier, if it is one.
    pub fn as_material(&self) -> (r: Option<MaterialId>)
        ensures
            r == match *self {
                Id::Material(id) => Some(id),
                _ => None,
            },
    {
        match self {
            Id::Material(id) => Some(*id),
            _ => None,
        }
    }

    /// The `ModelId` held by this identifier, if it is one.
    pub fn as_model(&self) -> (r: Option<ModelId>)
        ensures
            r == match *self {
                Id::Model(id) => Some(id),
                _ => None,
            },
    {
        match self {
            Id::Model(id) => Some(*id),
            _ => None,
        }
    }

    /// The `SceneId` held by this identifier, if it is one.
    pub fn as_scene(&self) -> (r: Option<SceneId>)
        ensures
            r == match *self {
                Id::Scene(id) => Some(id),
                _ => None,
            },
    {
        match self {
            Id::Scene(id) => Some(*id),
            _ => None,
        }
    }
}

/// A value held inline, or the byte range of a `.pak` file where it is stored.
pub enum DataRef<T> {
    /// The value itself.
    Data(T),
    /// The byte range where the value is stored.
    Ref(Range<u32>),
}

impl<T> DataRef<T> {
    /// The value, when it is held inline.
    pub fn as_data(&self) -> (r: Option<&T>)
        ensures
            match *self {
                DataRef::Data(t) => r == Some(&t),
                DataRef::Ref(_) => r is None,
            },
    {
        match self {
            DataRef::Data(t) => Some(t),
            DataRef::Ref(_) => None,
        }
    }

    /// Whether the value is held inline.
    pub fn is_data(&self) -> (r: bool)
        ensures
            r == (*self is Data),
    {
        match self {
            DataRef::Data(_) => true,
            DataRef::Ref(_) => false,
        }
    }

    /// The position and length of the stored value, when it is stored in the file.
    pub fn pos_len(&self) -> (r: Option<(u64, usize)>)
        requires
            *self is Ref ==> self->Ref_0.start <= self->Ref_0.end,
        ensures
            match *self {
                DataRef::Ref(range) => r == Some(
                    (range.start as u64, (range.end - range.start) as usize),
                ),
                DataRef::Data(_) => r is None,
            },
    {
        match self {
            DataRef::Ref(range) => Some((range.start as u64, (range.end - range.start) as usize)),
            DataRef::Data(_) => None,
        }
    }
}

/// The views of a sequence of strings.
pub open spec fn key_views(keys: Seq<String>) -> Seq<Seq<char>> {
    keys.map_values(|s: String| s@)
}

/// Keys mapped to asset identifiers, with the keys kept in the order they were first inserted.
pub struct KeyIndex {
    ids: StringHashMap<Id>,
    keys: Vec<String>,
}

impl KeyIndex {
    #[verifier::type_invariant]
    closed spec fn inv(&self) -> bool {
        &&& key_views(self.keys@).no_duplicates()
        &&& forall|k: Seq<char>| self.ids@.contains_key(k) <==> key_views(self.keys@).contains(k)
    }

    /// The identifiers by key.
    pub closed spec fn map(&self) -> Map<Seq<char>, Id> {
        self.ids@
    }

    /// The keys, in the order they were first inserted.
    pub closed spec fn key_list(&self) -> Seq<Seq<char>> {
        key_views(self.keys@)
    }

    /// An empty index.
    pub fn new() -> (r: Self)
        ensures
            r.map() == Map::<Seq<char>, Id>::empty(),
            r.key_list() == Seq::<Seq<char>>::empty(),
    {
        let r = KeyIndex { ids: StringHashMap::new(), keys: Vec::new() };
        proof {
            assert(key_views(r.keys@) =~= Seq::<Seq<char>>::empty());
        }
        r
    }

    /// Maps the key to the identifier, replacing any identifier it had.
    pub fn insert(&mut self, key: String, id: Id)
        ensures
            final(self).map() == old(self).map().insert(key@, id),
            final(self).key_list() == if old(self).map().contains_key(key@) {
                old(self).key_list()
            } else {
                old(self).key_list().push(key@)
            },
    {
        proof {
            use_type_invariant(&*self);
        }
        let mut this = KeyIndex { ids: StringHashMap::new(), keys: Vec::new() };
        proof {
            assert(key_views(this.keys@) =~= Seq::<Seq<char>>::empty());
        }
        core::mem::swap(&mut this, self);
        proof {
            use_type_invariant(&this);
        }
        let KeyIndex { mut ids, mut keys } = this;
        let ghost kv0 = key_views(keys@);
        if !ids.contains_key(key.as_str()) {
            keys.push(key.clone());
            proof {
                assert(key_views(keys@) =~= kv0.push(key@));
                assert forall|i: int, j: int|
                    0 <= i < key_views(keys@).len() && 0 <= j < key_views(keys@).len() && i != j implies key_views(
                    keys@,
                )[i] != key_views(keys@)[j] by {
                    if i == kv0.len() {
                        assert(!kv0.contains(key@));
                    } else if j == kv0.len() {
                        assert(!kv0.contains(key@));
                        assert(kv0[i] == key_views(keys@)[i]);
                    }
                }
            }
        }
        ids.insert(key, id);
        proof {
            assert forall|k: Seq<char>| ids@.contains_key(k) <==> key_views(keys@).contains(k) by {
                if k == key@ {
                    if kv0.contains(k) {
                        let i = choose|i: int| 0 <= i < kv0.len() && kv0[i] == k;
                        assert(key_views(keys@).len() >= kv0.len());
                        assert(key_views(keys@)[i] == k);
                    } else {
                        assert(key_views(keys@)[key_views(keys@).len() - 1] == k);
                    }
                }
                if key_views(keys@).contains(k) && !kv0.contains(k) {
                    let i = choose|i: int| 0 <= i < key_views(keys@).len() && key_views(keys@)[i] == k;
                    if i < kv0.len() {
                        assert(kv0[i] == k);
                    }
                }
                if kv0.contains(k) {
                    let i = choose|i: int| 0 <= i < kv0.len() && kv0[i] == k;
                    assert(key_views(keys@).len() >= kv0.len());
                    assert(key_views(keys@)[i] == k);
                }
            }
        }
        *self = KeyIndex { ids, keys };
    }

    /// The identifier of the key, if it has one.
    pub fn get(&self, key: &str) -> (r: Option<Id>)
        ensures
            r == if self.map().contains_key(key@) {
                Some(self.map()[key@])
            } else {
                None
            },
    {
        match self.ids.get(key) {
            Some(id) => Some(*id),
            None => None,
        }
    }

    /// The keys, in the order they were first inserted.
    pub fn keys(&self) -> (r: &[String])
        ensures
            key_views(r@) == self.key_list(),
            self.key_list().no_duplicates(),
            forall|k: Seq<char>| self.map().contains_key(k) <==> self.key_list().contains(k),
    {
        proof {
            use_type_invariant(self);
        }
        self.keys.as_slice()
    }
}

/// The contents of a `.pak` file: keys and identifiers, materials, and the assets of each kind,
/// held inline or as the place where each is stored.
///
/// Animations, models and scenes are held in their serialized form.
pub struct Data {
    ids: KeyIndex,
    materials: Vec<MaterialInfo>,
    anims: Vec<DataRef<Vec<u8>>>,
    bitmap_fonts: Vec<DataRef<BitmapFont>>,
    bitmaps: Vec<DataRef<BitmapBuf>>,
    blobs: Vec<DataRef<Vec<u8>>>,
    models: Vec<DataRef<Vec<u8>>>,
    scenes: Vec<DataRef<Vec<u8>>>,
}

/// The abstract contents of a `.pak` file.
pub struct DataView {
    /// The identifiers by key.
    pub ids: Map<Seq<char>, Id>,
    /// The keys, in the order they were first inserted.
    pub keys: Seq<Seq<char>>,
    /// The materials, by identifier.
    pub materials: Seq<MaterialInfo>,
    /// The serialized animations, by identifier.
    pub anims: Seq<DataRef<Vec<u8>>>,
    /// The bitmap fonts, by identifier.
    pub bitmap_fonts: Seq<DataRef<BitmapFont>>,
    /// The bitmaps, by identifier.
    pub bitmaps: Seq<DataRef<BitmapBuf>>,
    /// The blobs, by identifier.
    pub blobs: Seq<DataRef<Vec<u8>>>,
    /// The serialized models, by identifier.
    pub models: Seq<DataRef<Vec<u8>>>,
    /// The serialized scenes, by identifier.
    pub scenes: Seq<DataRef<Vec<u8>>>,
}

impl View for Data {
    type V = DataView;

    closed spec fn view(&self) -> DataView {
        DataView {
            ids: self.ids.map(),
            keys: self.ids.key_list(),
            materials: self.materials@,
            anims: self.anims@,
            bitmap_fonts: self.bitmap_fonts@,
            bitmaps: self.bitmaps@,
            blobs: self.blobs@,
            models: self.models@,
            scenes: self.scenes@,
        }
    }
}

/// The identifier stored under the key, if any.
pub open spec fn id_of(v: DataView, key: Seq<char>) -> Option<Id> {
    if v.ids.contains_key(key) {
        Some(v.ids[key])
    } else {
        None
    }
}

/// The place of a stored asset, as the position and length of its bytes; `None` for an asset
/// held inline.
pub open spec fn place_of<T>(r: DataRef<T>) -> Option<(u64, usize)> {
    match r {
        DataRef::Ref(range) => Some((range.start as u64, (range.end - range.start) as usize)),
        DataRef::Data(_) => None,
    }
}

/// A stored asset's byte range does not end before it starts.
pub open spec fn ref_ok<T>(r: DataRef<T>) -> bool {
    r is Ref ==> r->Ref_0.start <= r->Ref_0.end
}

impl Data {
    /// Empty contents.
    pub fn new() -> (r: Self)
        ensures
            r@.ids == Map::<Seq<char>, Id>::empty(),
            r@.keys == Seq::<Seq<char>>::empty(),
            r@.materials == Seq::<MaterialInfo>::empty(),
            r@.anims.len() == 0,
            r@.bitmap_fonts.len() == 0,
            r@.bitmaps.len() == 0,
            r@.blobs.len() == 0,
            r@.models.len() == 0,
            r@.scenes.len() == 0,
    {
        Data {
            ids: KeyIndex::new(),
            materials: Vec::new(),
            anims: Vec::new(),
            bitmap_fonts: Vec::new(),
            bitmaps: Vec::new(),
            blobs: Vec::new(),
            models: Vec::new(),
            scenes: Vec::new(),
        }
    }

    /// Contents made of the given materials and assets, with no keys yet.
    pub fn with_contents(
        materials: Vec<MaterialInfo>,
        anims: Vec<DataRef<Vec<u8>>>,
        bitmap_fonts: Vec<DataRef<BitmapFont>>,
        bitmaps: Vec<DataRef<BitmapBuf>>,
        blobs: Vec<DataRef<Vec<u8>>>,
        models: Vec<DataRef<Vec<u8>>>,
        scenes: Vec<DataRef<Vec<u8>>>,
    ) -> (r: Self)
        ensures
            r@.ids == Map::<Seq<char>, Id>::empty(),
            r@.keys == Seq::<Seq<char>>::empty(),
            r@.materials == materials@,
            r@.anims == anims@,
            r@.bitmap_fonts == bitmap_fonts@,
            r@.bitmaps == bitmaps@,
            r@.blobs == blobs@,
            r@.models == models@,
            r@.scenes == scenes@,
    {
        Data { ids: KeyIndex::new(), materials, anims, bitmap_fonts, bitmaps, blobs, models, scenes }
    }

    /// Maps the key to the identifier, replacing any identifier it had.
    pub fn insert_id(&mut self, key: String, id: Id)
        ensures
            final(self)@ == (DataView {
                ids: old(self)@.ids.insert(key@, id),
                keys: if old(self)@.ids.contains_key(key@) {
                    old(self)@.keys
                } else {
                    old(self)@.keys.push(key@)
                },
                ..old(self)@
            }),
    {
        self.ids.insert(key, id);
    }

    /// The identifier stored under the key, if any.
    pub fn id(&self, key: &str) -> (r: Option<Id>)
        ensures
            r == id_of(self@, key@),
    {
        self.ids.get(key)
    }

    /// The keys, in the order they were first inserted.
    pub fn keys(&self) -> (r: &[String])
        ensures
            key_views(r@) == self@.keys,
            self@.keys.no_duplicates(),
            forall|k: Seq<char>| self@.ids.contains_key(k) <==> self@.keys.contains(k),
    {
        self.ids.keys()
    }

    /// Gets the `AnimationId` corresponding to the given key, if one exists.
    pub fn animation_id(&self, key: &str) -> (r: Option<AnimationId>)
        ensures
            r == match id_of(self@, key@) {
                Some(Id::Animation(id)) => Some(id),
                _ => None,
            },
    {
        match self.id(key) {
            Some(id) => id.as_animation(),
            None => None,
        }
    }

    /// Gets the `BitmapFontId` corresponding to the given key, if one exists.
    pub fn bitmap_font_id(&self, key: &str) -> (r: Option<BitmapFontId>)
        ensures
            r == match id_of(self@, key@) {
                Some(Id::BitmapFont(id)) => Some(id),
                _ => None,
            },
    {
        match self.id(key) {
            Some(id) => id.as_bitmap_font(),
            None => None,
        }
    }

    /// Gets the `BitmapId` corresponding to the given key, if one exists.
    pub fn bitmap_id(&self, key: &str) -> (r: Option<BitmapId>)
        ensures
            r == match id_of(self@, key@) {
                Some(Id::Bitmap(id)) => Some(id),
                _ => None,
            },
    {
        match self.id(key) {
            Some(id) => id.as_bitmap(),
            None => None,
        }
    }

    /// Gets the `BlobId` corresponding to the given key, if one exists.
    pub fn blob_id(&self, key: &str) -> (r: Option<BlobId>)
        ensures
            r == match id_of(self@, key@) {
                Some(Id::Blob(id)) => Some(id),
                _ => None,
            },
    {
        match self.id(key) {
            Some(id) => id.as_blob(),
            None => None,
        }
    }

    /// Gets the `MaterialId` corresponding to the given key, if one exists.
    pub fn material_id(&self, key: &str) -> (r: Option<MaterialId>)
        ensures
            r == match id_of(self@, key@) {
                Some(Id::Material(id)) => Some(id),
                _ => None,
            },
    {
        match self.id(key) {
            Some(id) => id.as_material(),
            None => None,
        }
    }

    /// Gets the `ModelId` corresponding to the given key, if one exists.
    pub fn model_id(&self, key: &str) -> (r: Option<ModelId>)
        ensures
            r == match id_of(self@, key@) {
                Some(Id::Model(id)) => Some(id),
                _ => None,
            },
    {
        match self.id(key) {
            Some(id) => id.as_model(),
            None => None,
        }
    }

    /// Gets the `SceneId` corresponding to the given key, if one exists.
    pub fn scene_id(&self, key: &str) -> (r: Option<SceneId>)
        ensures
            r == match id_of(self@, key@) {
                Some(Id::Scene(id)) => Some(id),
                _ => None,
            },
    {
        match self.id(key) {
            Some(id) => id.as_scene(),
            None => None,
        }
    }

    /// Gets the material for the given identifier, if one exists.
    pub fn read_material(&self, id: MaterialId) -> (r: Option<MaterialInfo>)
        ensures
            r == if (id.0 as int) < self@.materials.len() {
                Some(self@.materials[id.0 as int])
            } else {
                None
            },
    {
        let idx = id.0 as usize;
        if idx < self.materials.len() {
            Some(self.materials[idx])
        } else {
            None
        }
    }

    /// The place of the animation with the given identifier.
    pub fn animation_pos_len(&self, id: AnimationId) -> (r: Option<(u64, usize)>)
        requires
            (id.0 as int) < self@.anims.len(),
            ref_ok(self@.anims[id.0 as int]),
        ensures
            r == place_of(self@.anims[id.0 as int]),
    {
        self.anims[id.0 as usize].pos_len()
    }

    /// The place of the bitmap font with the given identifier.
    pub fn bitmap_font_pos_len(&self, id: BitmapFontId) -> (r: Option<(u64, usize)>)
        requires
            (id.0 as int) < self@.bitmap_fonts.len(),
            ref_ok(self@.bitmap_fonts[id.0 as int]),
        ensures
            r == place_of(self@.bitmap_fonts[id.0 as int]),
    {
        self.bitmap_fonts[id.0 as usize].pos_len()
    }

    /// The place of the bitmap with the given identifier.
    pub fn bitmap_pos_len(&self, id: BitmapId) -> (r: Option<(u64, usize)>)
        requires
            (id.0 as int) < self@.bitmaps.len(),
            ref_ok(self@.bitmaps[id.0 as int]),
        ensures
            r == place_of(self@.bitmaps[id.0 as int]),
    {
        self.bitmaps[id.0 as usize].pos_len()
    }

    /// The place of the blob with the given identifier.
    pub fn blob_pos_len(&self, id: BlobId) -> (r: Option<(u64, usize)>)
        requires
            (id.0 as int) < self@.blobs.len(),
            ref_ok(self@.blobs[id.0 as int]),
        ensures
            r == place_of(self@.blobs[id.0 as int]),
    {
        self.blobs[id.0 as usize].pos_len()
    }

    /// The place of the model with the given identifier.
    pub fn model_pos_len(&self, id: ModelId) -> (r: Option<(u64, usize)>)
        requires
            (id.0 as int) < self@.models.len(),
            ref_ok(self@.models[id.0 as int]),
        ensures
            r == place_of(self@.models[id.0 as int]),
    {
        self.models[id.0 as usize].pos_len()
    }

    /// The place of the scene with the given identifier.
    pub fn scene_pos_len(&self, id: SceneId) -> (r: Option<(u64, usize)>)
        requires
            (id.0 as int) < self@.scenes.len(),
            ref_ok(self@.scenes[id.0 as int]),
        ensures
            r == place_of(self@.scenes[id.0 as int]),
    {
        self.scenes[id.0 as usize].pos_len()
    }

    /// The materials, by identifier.
    pub fn materials(&self) -> (r: &[MaterialInfo])
        ensures
            r@ == self@.materials,
    {
        self.materials.as_slice()
    }

    /// The serialized animations, by identifier.
    pub fn anims(&self) -> (r: &[DataRef<Vec<u8>>])
        ensures
            r@ == self@.anims,
    {
        self.anims.as_slice()
    }

    /// The bitmap fonts, by identifier.
    pub fn bitmap_fonts(&self) -> (r: &[DataRef<BitmapFont>])
        ensures
            r@ == self@.bitmap_fonts,
    {
        self.bitmap_fonts.as_slice()
    }

    /// The bitmaps, by identifier.
    pub fn bitmaps(&self) -> (r: &[DataRef<BitmapBuf>])
        ensures
            r@ == self@.bitmaps,
    {
        self.bitmaps.as_slice()
    }

    /// The blobs, by identifier.
    pub fn blobs(&self) -> (r: &[DataRef<Vec<u8>>])
        ensures
            r@ == self@.blobs,
    {
        self.blobs.as_slice()
    }

    /// The serialized models, by identifier.
    pub fn models(&self) -> (r: &[DataRef<Vec<u8>>])
        ensures
            r@ == self@.models,
    {
        self.models.as_slice()
    }

    /// The serialized scenes, by identifier.
    pub fn scenes(&self) -> (r: &[DataRef<Vec<u8>>])
        ensures
            r@ == self@.scenes,
    {
        self.scenes.as_slice()
    }

    /// Appends an animation.
    pub(crate) fn push_anim(&mut self, item: DataRef<Vec<u8>>)
        ensures
            final(self)@ == (DataView { anims: old(self)@.anims.push(item), ..old(self)@ }),
    {
        self.anims.push(item);
    }

    /// Appends a bitmap font.
    pub(crate) fn push_bitmap_font(&mut self, item: DataRef<BitmapFont>)
        ensures
            final(self)@ == (DataView { bitmap_fonts: old(self)@.bitmap_fonts.push(item), ..old(self)@ }),
    {
        self.bitmap_fonts.push(item);
    }

    /// Appends a bitmap.
    pub(crate) fn push_bitmap(&mut self, item: DataRef<BitmapBuf>)
        ensures
            final(self)@ == (DataView { bitmaps: old(self)@.bitmaps.push(item), ..old(self)@ }),
    {
        self.bitmaps.push(item);
    }

    /// Appends a blob.
    pub(crate) fn push_blob(&mut self, item: DataRef<Vec<u8>>)
        ensures
            final(self)@ == (DataView { blobs: old(self)@.blobs.push(item), ..old(self)@ }),
    {
        self.blobs.push(item);
    }

    /// Appends a material.
    pub(crate) fn push_material(&mut self, item: MaterialInfo)
        ensures
            final(self)@ == (DataView { materials: old(self)@.materials.push(item), ..old(self)@ }),
    {
        self.materials.push(item);
    }

    /// Appends a model.
    pub(crate) fn push_model(&mut self, item: DataRef<Vec<u8>>)
        ensures
            final(self)@ == (DataView { models: old(self)@.models.push(item), ..old(self)@ }),
    {
        self.models.push(item);
    }

    /// Appends a scene.
    pub(crate) fn push_scene(&mut self, item: DataRef<Vec<u8>>)
        ensures
            final(self)@ == (DataView { scenes: old(self)@.scenes.push(item), ..old(self)@ }),
    {
        self.scenes.push(item);
    }
}

} // verus!
