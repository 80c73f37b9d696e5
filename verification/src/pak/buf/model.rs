//! Descriptions of the meshes of 3D models.
use vstd::prelude::*;
use crate::text::chars_of;

verus! {

/// Whether the character has the Unicode `White_Space` property.
pub open spec fn is_white_space(c: char) -> bool {
    ('\u{9}' <= c && c <= '\u{d}') || c == ' ' || c == '\u{85}' || c == '\u{a0}' || c == '\u{1680}'
        || ('\u{2000}' <= c && c <= '\u{200a}') || c == '\u{2028}' || c == '\u{2029}' || c
        == '\u{202f}' || c == '\u{205f}' || c == '\u{3000}'
}

/// Whether the character has the Unicode `White_Space` property.
fn white_space(c: char) -> (r: bool)
    ensures
        r == is_white_space(c),
{
    ('\u{9}' <= c && c <= '\u{d}') || c == ' ' || c == '\u{85}' || c == '\u{a0}' || c == '\u{1680}'
        || ('\u{2000}' <= c && c <= '\u{200a}') || c == '\u{2028}' || c == '\u{2029}' || c
        == '\u{202f}' || c == '\u{205f}' || c == '\u{3000}'
}

/// Whether the text is empty once surrounding white space is trimmed.
pub open spec fn is_blank(s: Seq<char>) -> bool {
    forall|i: int| 0 <= i < s.len() ==> is_white_space(#[trigger] s[i])
}

/// Holds a description of individual meshes within a `.glb` or `.gltf` 3D model.
pub struct MeshRef {
    name: String,
    rename: Option<String>,
}

impl MeshRef {
    /// A mesh description of the given name and optional new name.
    pub fn new(name: String, rename: Option<String>) -> (r: Self)
        ensures
            r.name_spec() == name@,
            r.rename_spec() == match rename {
                Some(s) => Some(s@),
                None => None,
            },
    {
        MeshRef { name, rename }
    }

    /// The artist-provided name.
    pub closed spec fn name_spec(&self) -> Seq<char> {
        self.name@
    }

    /// The new name as written.
    pub closed spec fn rename_spec(&self) -> Option<Seq<char>> {
        match self.rename {
            Some(s) => Some(s@),
            None => None,
        }
    }

    /// The artist-provided name of a mesh within the model.
    pub fn name(&self) -> (r: &str)
        ensures
            r@ == self.name_spec(),
    {
        self.name.as_str()
    }

    /// Allows the artist-provided name to be different when referenced by a program; a new name
    /// made only of white space counts as none.
    pub fn rename(&self) -> (r: Option<&str>)
        ensures
            match self.rename_spec() {
                Some(s) => if is_blank(s) {
                    r is None
                } else {
                    r matches Some(t) && t@ == s
                },
                None => r is None,
            },
    {
        match &self.rename {
            Some(s) => {
                let chars = chars_of(s.as_str());
                let mut i: usize = 0;
                while i < chars.len()
                    invariant
                        chars@ == s@,
                        self.rename_spec() == Some(s@),
                        i <= chars@.len(),
                        forall|j: int| 0 <= j < i ==> is_white_space(#[trigger] chars@[j]),
                    decreases chars@.len() - i,
                {
                    if !white_space(chars[i]) {
                        proof {
                            assert(!is_white_space(s@[i as int]));
                        }
                        return Some(s.as_str());
                    }
                    i = i + 1;
                }
                proof {
                    assert(is_blank(s@));
                }
                None
            },
            None => None,
        }
    }
}

/// The indices after the first three of a triangle fan, as the list conversion writes them:
/// each following pair of indices is preceded by a zero index.
pub open spec fn fan_tail(t: Seq<u32>) -> Seq<u32>
    decreases t.len(),
{
    if t.len() == 0 {
        seq![]
    } else if t.len() == 1 {
        seq![0u32, t[0]]
    } else {
        seq![0u32, t[0], t[1]] + fan_tail(t.skip(2))
    }
}

/// The indices of a triangle fan converted to a list: the first three indices, then each
/// following pair preceded by a zero index.
pub open spec fn fan_to_list(s: Seq<u32>) -> Seq<u32> {
    if s.len() <= 3 {
        s
    } else {
        s.take(3) + fan_tail(s.skip(3))
    }
}

/// Converting a sequence of an even length and then a following one converts the whole.
proof fn lemma_fan_tail_append(a: Seq<u32>, b: Seq<u32>)
    requires
        a.len() % 2 == 0,
    ensures
        fan_tail(a + b) == fan_tail(a) + fan_tail(b),
    decreases a.len(),
{
    if a.len() == 0 {
        assert(a + b == b);
    } else {
        let rest = a.skip(2);
        assert((a + b).skip(2) == rest + b);
        lemma_fan_tail_append(rest, b);
        assert(fan_tail(a + b) == seq![0u32, a[0], a[1]] + fan_tail(rest + b));
    }
}

/// Converts the indices of a triangle fan into a triangle list in place, inserting a zero index
/// before each pair of indices after the first three.
pub fn convert_triangle_fan_to_list(indices: &mut Vec<u32>)
    ensures
        final(indices)@ == fan_to_list(old(indices)@),
{
    let n = indices.len();
    if n <= 3 {
        return;
    }
    let ghost s = indices@;
    let mut out: Vec<u32> = Vec::new();
    out.push(indices[0]);
    out.push(indices[1]);
    out.push(indices[2]);
    assert(out@ == s.take(3));
    assert(s.subrange(3, 3) == Seq::<u32>::empty());
    let mut k: usize = 3;
    while k < n
        invariant
            n == s.len() == indices@.len(),
            s == indices@,
            s == old(indices)@,
            n > 3,
            3 <= k <= n,
            (k - 3) % 2 == 0,
            out@ == s.take(3) + fan_tail(s.subrange(3, k as int)),
        decreases n - k,
    {
        let ghost before = s.subrange(3, k as int);
        out.push(0);
        out.push(indices[k]);
        if k + 1 < n {
            out.push(indices[k + 1]);
            proof {
                let pair = s.subrange(k as int, k + 2);
                assert(s.subrange(3, k + 2) == before + pair);
                lemma_fan_tail_append(before, pair);
                assert(pair.skip(2) == Seq::<u32>::empty());
                assert(pair[0] == s[k as int]);
                assert(pair[1] == s[k + 1]);
                assert(fan_tail(pair.skip(2)) == Seq::<u32>::empty());
                assert(fan_tail(pair) == seq![0u32, pair[0], pair[1]] + fan_tail(pair.skip(2)));
                assert(fan_tail(pair) =~= seq![0u32, s[k as int], s[k + 1]]);
            }
            k = k + 2;
        } else {
            proof {
                let last = s.subrange(k as int, k + 1);
                assert(s.subrange(3, k + 1) == before + last);
                lemma_fan_tail_append(before, last);
                assert(last[0] == s[k as int]);
                assert(fan_tail(last) == seq![0u32, s[k as int]]);
            }
            k = k + 1;
            proof {
                assert(s.subrange(3, k as int) == s.skip(3));
            }
            *indices = out;
            return;
        }
    }
    assert(s.subrange(3, n as int) == s.skip(3));
    *indices = out;
}

/// The bytes of the triangle indices of meshlets, meshlet by meshlet, each triangle's three
/// indices in order.
pub open spec fn meshlet_bytes(meshlets: Seq<([[u8; 3]; 126], u32)>) -> Seq<u8>
    decreases meshlets.len(),
{
    if meshlets.len() == 0 {
        seq![]
    } else {
        meshlet_bytes(meshlets.drop_last()) + meshlets.last().0@.map_values(|t: [u8; 3]| t@).flatten()
    }
}

/// Appends the triangle indices of each meshlet, as bytes, to the index buffer.
pub fn append_meshlets(index_buf: &mut Vec<u8>, meshlets: &[([[u8; 3]; 126], u32)])
    ensures
        final(index_buf)@ == old(index_buf)@ + meshlet_bytes(meshlets@),
{
    let ghost start = index_buf@;
    let mut m: usize = 0;
    while m < meshlets.len()
        invariant
            m <= meshlets@.len(),
            index_buf@ == start + meshlet_bytes(meshlets@.take(m as int)),
        decreases meshlets@.len() - m,
    {
        let triangles = &meshlets[m].0;
        let ghost tris = triangles@.map_values(|t: [u8; 3]| t@);
        let ghost before = index_buf@;
        let mut t: usize = 0;
        assert(tris.take(0) == Seq::<Seq<u8>>::empty());
        while t < 126
            invariant
                *triangles == meshlets@[m as int].0,
                tris == triangles@.map_values(|t: [u8; 3]| t@),
                triangles@.len() == 126,
                t <= 126,
                index_buf@ == before + tris.take(t as int).flatten(),
            decreases 126 - t,
        {
            let tri = triangles[t];
            index_buf.push(tri[0]);
            index_buf.push(tri[1]);
            index_buf.push(tri[2]);
            proof {
                assert(tris.take(t + 1) == tris.take(t as int).push(tris[t as int]));
                tris.take(t as int).lemma_flatten_push(tris[t as int]);
                assert(tris[t as int] == tri@);
                assert(tri@ == seq![tri[0], tri[1], tri[2]]);
            }
            t = t + 1;
        }
        proof {
            assert(tris.take(126) == tris);
            assert(meshlets@.take(m + 1).drop_last() == meshlets@.take(m as int));
            assert(meshlets@.take(m + 1).last() == meshlets@[m as int]);
        }
        m = m + 1;
    }
    assert(meshlets@.take(meshlets@.len() as int) == meshlets@);
}

} // verus!
