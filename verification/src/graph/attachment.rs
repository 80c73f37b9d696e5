//! The color and depth/stencil attachments of render passes.
use vstd::prelude::*;
use super::node::NodeIndex;

verus! {

/// The index of a color attachment.
pub type AttachmentIndex = u32;

/// An image attached to a render pass: its aspects, its format (the raw value of a Vulkan
/// format), its sample count and its node.
#[derive(Clone, Copy, Debug, PartialEq, Eq, Structural)]
pub struct Attachment {
    /// The image aspects, as Vulkan aspect flag bits.
    pub aspect_mask: u32,
    /// The raw value of the image format.
    pub fmt: i32,
    /// The number of samples per pixel.
    pub sample_count: u32,
    /// The node of the attached image.
    pub target: NodeIndex,
}

/// Two attachments are identical when their formats and sample counts match.
pub open spec fn identical(lhs: Attachment, rhs: Attachment) -> bool {
    lhs.fmt == rhs.fmt && lhs.sample_count == rhs.sample_count
}

/// Two optional attachments are compatible when either is absent or they are identical.
pub open spec fn compatible(lhs: Option<Attachment>, rhs: Option<Attachment>) -> bool {
    match (lhs, rhs) {
        (Some(l), Some(r)) => identical(l, r),
        _ => true,
    }
}

impl Attachment {
    /// Two attachment references are compatible if they have matching format and sample count,
    /// or either is unused.
    pub fn are_compatible(lhs: Option<Self>, rhs: Option<Self>) -> (r: bool)
        ensures
            r == compatible(lhs, rhs),
    {
        match (lhs, rhs) {
            (Some(l), Some(r)) => Self::are_identical(l, r),
            _ => true,
        }
    }

    /// Two attachments are identical when their formats and sample counts match.
    pub fn are_identical(lhs: Self, rhs: Self) -> (r: bool)
        ensures
            r == identical(lhs, rhs),
    {
        lhs.fmt == rhs.fmt && lhs.sample_count == rhs.sample_count
    }
}

/// The color aspect bit of an image aspect mask.
pub const ASPECT_COLOR: u32 = 0x1;

/// The depth aspect bit of an image aspect mask.
pub const ASPECT_DEPTH: u32 = 0x2;

/// The stencil aspect bit of an image aspect mask.
pub const ASPECT_STENCIL: u32 = 0x4;

/// The raw value of the undefined image layout.
pub const LAYOUT_UNDEFINED: i32 = 0;

/// The raw value of the general image layout.
pub const LAYOUT_GENERAL: i32 = 1;

/// The raw value of the color attachment optimal image layout.
pub const LAYOUT_COLOR_ATTACHMENT_OPTIMAL: i32 = 2;

/// The raw value of the depth/stencil attachment optimal image layout.
pub const LAYOUT_DEPTH_STENCIL_ATTACHMENT_OPTIMAL: i32 = 3;

/// The raw value of the depth/stencil read-only optimal image layout.
pub const LAYOUT_DEPTH_STENCIL_READ_ONLY_OPTIMAL: i32 = 4;

/// The raw value of the depth attachment optimal image layout.
pub const LAYOUT_DEPTH_ATTACHMENT_OPTIMAL: i32 = 1000241000;

/// The raw value of the depth read-only optimal image layout.
pub const LAYOUT_DEPTH_READ_ONLY_OPTIMAL: i32 = 1000241001;

/// The raw value of the stencil attachment optimal image layout.
pub const LAYOUT_STENCIL_ATTACHMENT_OPTIMAL: i32 = 1000241002;

/// The raw value of the stencil read-only optimal image layout.
pub const LAYOUT_STENCIL_READ_ONLY_OPTIMAL: i32 = 1000241003;

/// Whether the aspect mask holds every bit of `bits`.
pub open spec fn has_aspects(aspect_mask: u32, bits: u32) -> bool {
    aspect_mask & bits == bits
}

/// The layout of an attachment with the given aspects: color before depth and stencil
/// together, before depth alone, before stencil alone. A random access attachment may be
/// written, so it is in an attachment layout, or the general layout when it is also a subpass
/// input; otherwise it is in a read-only layout. A color attachment is in the general layout
/// when it is a subpass input, and in the color attachment layout otherwise.
pub open spec fn layout_of(aspect_mask: u32, is_random_access: bool, is_input: bool) -> i32 {
    if has_aspects(aspect_mask, ASPECT_COLOR) {
        if is_input { LAYOUT_GENERAL } else { LAYOUT_COLOR_ATTACHMENT_OPTIMAL }
    } else if has_aspects(aspect_mask, ASPECT_DEPTH | ASPECT_STENCIL) {
        if !is_random_access {
            LAYOUT_DEPTH_STENCIL_READ_ONLY_OPTIMAL
        } else if is_input {
            LAYOUT_GENERAL
        } else {
            LAYOUT_DEPTH_STENCIL_ATTACHMENT_OPTIMAL
        }
    } else if has_aspects(aspect_mask, ASPECT_DEPTH) {
        if !is_random_access {
            LAYOUT_DEPTH_READ_ONLY_OPTIMAL
        } else if is_input {
            LAYOUT_GENERAL
        } else {
            LAYOUT_DEPTH_ATTACHMENT_OPTIMAL
        }
    } else if has_aspects(aspect_mask, ASPECT_STENCIL) {
        if !is_random_access {
            LAYOUT_STENCIL_READ_ONLY_OPTIMAL
        } else if is_input {
            LAYOUT_GENERAL
        } else {
            LAYOUT_STENCIL_ATTACHMENT_OPTIMAL
        }
    } else {
        LAYOUT_UNDEFINED
    }
}

/// The raw image layout an attachment with the given aspects is used in.
pub fn attachment_layout(aspect_mask: u32, is_random_access: bool, is_input: bool) -> (r: i32)
    ensures
        r == layout_of(aspect_mask, is_random_access, is_input),
{
    if aspect_mask & ASPECT_COLOR == ASPECT_COLOR {
        if is_input {
            LAYOUT_GENERAL
        } else {
            LAYOUT_COLOR_ATTACHMENT_OPTIMAL
        }
    } else if aspect_mask & (ASPECT_DEPTH | ASPECT_STENCIL) == ASPECT_DEPTH | ASPECT_STENCIL {
        if is_random_access {
            if is_input {
                LAYOUT_GENERAL
            } else {
                LAYOUT_DEPTH_STENCIL_ATTACHMENT_OPTIMAL
            }
        } else {
            LAYOUT_DEPTH_STENCIL_READ_ONLY_OPTIMAL
        }
    } else if aspect_mask & ASPECT_DEPTH == ASPECT_DEPTH {
        if is_random_access {
            if is_input {
                LAYOUT_GENERAL
            } else {
                LAYOUT_DEPTH_ATTACHMENT_OPTIMAL
            }
        } else {
            LAYOUT_DEPTH_READ_ONLY_OPTIMAL
        }
    } else if aspect_mask & ASPECT_STENCIL == ASPECT_STENCIL {
        if is_random_access {
            if is_input {
                LAYOUT_GENERAL
            } else {
                LAYOUT_STENCIL_ATTACHMENT_OPTIMAL
            }
        } else {
            LAYOUT_STENCIL_READ_ONLY_OPTIMAL
        }
    } else {
        LAYOUT_UNDEFINED
    }
}

/// The abstract content of an attachment map.
pub struct AttachmentMapView {
    /// The color attachment slots, by attachment index.
    pub colors: Seq<Option<Attachment>>,
    /// The depth/stencil attachment.
    pub depth_stencil: Option<Attachment>,
}

/// Whether the optional attachment targets the node.
pub open spec fn targets_node(att: Option<Attachment>, node: NodeIndex) -> bool {
    match att {
        Some(a) => a.target == node,
        None => false,
    }
}

/// The targets of the attached color slots, in slot order.
pub open spec fn color_targets(colors: Seq<Option<Attachment>>) -> Seq<NodeIndex>
    decreases colors.len(),
{
    if colors.len() == 0 {
        seq![]
    } else {
        let prev = color_targets(colors.drop_last());
        match colors.last() {
            Some(a) => prev.push(a.target),
            None => prev,
        }
    }
}

/// The distinct values of a sequence, in order of first occurrence.
pub open spec fn first_occurrences(s: Seq<NodeIndex>) -> Seq<NodeIndex>
    decreases s.len(),
{
    if s.len() == 0 {
        seq![]
    } else {
        let prev = first_occurrences(s.drop_last());
        if prev.contains(s.last()) {
            prev
        } else {
            prev.push(s.last())
        }
    }
}

/// The targets of all attachments: colors in slot order, then depth/stencil.
pub open spec fn all_targets(v: AttachmentMapView) -> Seq<NodeIndex> {
    match v.depth_stencil {
        Some(a) => color_targets(v.colors).push(a.target),
        None => color_targets(v.colors),
    }
}

/// The color attachments and depth/stencil attachment of a render pass.
pub struct AttachmentMap {
    colors: Vec<Option<Attachment>>,
    depth_stencil: Option<Attachment>,
}

impl View for AttachmentMap {
    type V = AttachmentMapView;

    closed spec fn view(&self) -> AttachmentMapView {
        AttachmentMapView { colors: self.colors@, depth_stencil: self.depth_stencil }
    }
}

impl Default for AttachmentMap {
    fn default() -> (r: Self)
        ensures
            r@.colors.len() == 0,
            r@.depth_stencil is None,
    {
        AttachmentMap { colors: Vec::new(), depth_stencil: None }
    }
}

impl AttachmentMap {
    /// Color slots are indexed by 32-bit attachment indices.
    #[verifier::type_invariant]
    closed spec fn inv(&self) -> bool {
        self.colors@.len() <= 0x1_0000_0000
    }

    /// Whether the color attachments of the two maps are compatible slot by slot; slots beyond
    /// the shorter map are unused and so compatible.
    pub fn are_compatible(&self, other: &Self) -> (r: bool)
        ensures
            r == forall|i: int|
                0 <= i < self@.colors.len() && 0 <= i < other@.colors.len() ==> compatible(
                    #[trigger] self@.colors[i],
                    other@.colors[i],
                ),
    {
        let n = if self.colors.len() < other.colors.len() { self.colors.len() } else { other.colors.len() };
        let mut i: usize = 0;
        while i < n
            invariant
                n <= self@.colors.len(),
                n <= other@.colors.len(),
                n == self@.colors.len() || n == other@.colors.len(),
                i <= n,
                forall|j: int| 0 <= j < i ==> compatible(#[trigger] self@.colors[j], other@.colors[j]),
            decreases n - i,
        {
            if !Attachment::are_compatible(self.colors[i], other.colors[i]) {
                return false;
            }
            i = i + 1;
        }
        true
    }

    /// The color attachment in the given slot, if any.
    pub fn color(&self, attachment_idx: AttachmentIndex) -> (r: Option<Attachment>)
        ensures
            r == if (attachment_idx as int) < self@.colors.len() {
                self@.colors[attachment_idx as int]
            } else {
                None
            },
    {
        let idx = attachment_idx as usize;
        if idx < self.colors.len() {
            self.colors[idx]
        } else {
            None
        }
    }

    /// The attached color slots with their indexes, in slot order.
    pub fn colors(&self) -> (r: Vec<(AttachmentIndex, Attachment)>)
        ensures
            forall|k: int|
                0 <= k < r@.len() ==> ((#[trigger] r@[k]).0 as int) < self@.colors.len() && self@.colors[r@[k].0 as int]
                    == Some(r@[k].1),
            forall|i: int|
                0 <= i < self@.colors.len() && #[trigger] self@.colors[i] is Some ==> exists|k: int|
                    0 <= k < r@.len() && r@[k].0 == i,
            forall|a: int, b: int| 0 <= a < b < r@.len() ==> #[trigger] r@[a].0 < #[trigger] r@[b].0,
    {
        proof {
            use_type_invariant(self);
        }
        let mut r: Vec<(AttachmentIndex, Attachment)> = Vec::new();
        let mut i: usize = 0;
        while i < self.colors.len()
            invariant
                self@.colors.len() <= 0x1_0000_0000,
                i <= self@.colors.len(),
                forall|k: int|
                    0 <= k < r@.len() ==> ((#[trigger] r@[k]).0 as int) < i && self@.colors[r@[k].0 as int] == Some(
                        r@[k].1,
                    ),
                forall|j: int|
                    0 <= j < i && #[trigger] self@.colors[j] is Some ==> exists|k: int|
                        0 <= k < r@.len() && r@[k].0 == j,
                forall|a: int, b: int| 0 <= a < b < r@.len() ==> #[trigger] r@[a].0 < #[trigger] r@[b].0,
            decreases self@.colors.len() - i,
        {
            if let Some(attachment) = self.colors[i] {
                let ghost r0 = r@;
                let idx = i as AttachmentIndex;
                assert(idx as int == i);
                r.push((idx, attachment));
                proof {
                    assert forall|k: int| 0 <= k < r@.len() implies ((#[trigger] r@[k]).0 as int) < i + 1 && self@.colors[r@[k].0 as int] == Some(
                        r@[k].1,
                    ) by {
                        if k < r0.len() {
                            assert(r@[k] == r0[k]);
                        } else {
                            assert(r@[k] == (idx, attachment));
                        }
                    }
                    assert forall|a: int, b: int| 0 <= a < b < r@.len() implies #[trigger] r@[a].0 < #[trigger] r@[b].0 by {
                        assert(r@[a] == r0[a]);
                        if b < r0.len() {
                            assert(r@[b] == r0[b]);
                        } else {
                            assert(r@[b] == (idx, attachment));
                        }
                    }
                    assert forall|j: int| 0 <= j < i + 1 && #[trigger] self@.colors[j] is Some implies exists|k: int|
                        0 <= k < r@.len() && r@[k].0 == j by {
                        if j < i {
                            let k = choose|k: int| 0 <= k < r0.len() && r0[k].0 == j;
                            assert(r@[k] == r0[k]);
                        } else {
                            assert(r@[r@.len() - 1].0 == j);
                        }
                    }
                }
            }
            i = i + 1;
        }
        r
    }

    /// Whether a color slot exists at the given index, attached or not.
    pub fn contains_color(&self, attachment_idx: AttachmentIndex) -> (r: bool)
        ensures
            r == ((attachment_idx as int) < self@.colors.len()),
    {
        (attachment_idx as usize) < self.colors.len()
    }

    /// Whether any attachment targets the given node.
    pub fn contains_image(&self, node_idx: NodeIndex) -> (r: bool)
        ensures
            r == (targets_node(self@.depth_stencil, node_idx) || exists|i: int|
                0 <= i < self@.colors.len() && targets_node(#[trigger] self@.colors[i], node_idx)),
    {
        if let Some(attachment) = self.depth_stencil {
            if attachment.target == node_idx {
                return true;
            }
        }
        let mut i: usize = 0;
        while i < self.colors.len()
            invariant
                i <= self@.colors.len(),
                !targets_node(self@.depth_stencil, node_idx),
                forall|j: int| 0 <= j < i ==> !targets_node(#[trigger] self@.colors[j], node_idx),
            decreases self@.colors.len() - i,
        {
            if let Some(attachment) = self.colors[i] {
                if attachment.target == node_idx {
                    proof {
                        assert(targets_node(self@.colors[i as int], node_idx));
                    }
                    return true;
                }
            }
            i = i + 1;
        }
        false
    }

    /// The depth/stencil attachment, if any.
    pub fn depth_stencil(&self) -> (r: Option<Attachment>)
        ensures
            r == self@.depth_stencil,
    {
        self.depth_stencil
    }

    /// Attaches an image to the given color slot, adding unused slots as needed. Returns true if
    /// the slot was unused or held an identical attachment.
    pub fn insert_color(
        &mut self,
        attachment_idx: AttachmentIndex,
        aspect_mask: u32,
        fmt: i32,
        sample_count: u32,
        target: NodeIndex,
    ) -> (r: bool)
        requires
            attachment_idx < usize::MAX,
        ensures
            ({
                let next = Attachment { aspect_mask, fmt, sample_count, target };
                let i = attachment_idx as int;
                let prev = if i < old(self)@.colors.len() { old(self)@.colors[i] } else { None };
                &&& final(self)@.depth_stencil == old(self)@.depth_stencil
                &&& final(self)@.colors.len() == if i < old(self)@.colors.len() {
                    old(self)@.colors.len() as int
                } else {
                    i + 1
                }
                &&& final(self)@.colors[i] == Some(next)
                &&& forall|j: int|
                    0 <= j < final(self)@.colors.len() && j != i ==> #[trigger] final(self)@.colors[j]
                        == if j < old(self)@.colors.len() { old(self)@.colors[j] } else { None }
                &&& r == match prev {
                    Some(p) => identical(p, next),
                    None => true,
                }
            }),
    {
        proof {
            use_type_invariant(&*self);
        }
        let count = attachment_idx as usize + 1;
        let ghost c0 = self.colors@;
        let mut colors: Vec<Option<Attachment>> = Vec::new();
        core::mem::swap(&mut colors, &mut self.colors);
        while colors.len() < count
            invariant
                count == attachment_idx + 1,
                c0.len() <= colors@.len(),
                c0.len() < count ==> colors@.len() <= count,
                c0.len() >= count ==> colors@.len() == c0.len(),
                forall|j: int| 0 <= j < colors@.len() ==> #[trigger] colors@[j] == if j < c0.len() {
                    c0[j]
                } else {
                    None
                },
            decreases count - colors@.len(),
        {
            colors.push(None);
        }
        let next = Attachment { aspect_mask, fmt, sample_count, target };
        let idx = attachment_idx as usize;
        let prev = colors[idx];
        colors.set(idx, Some(next));
        self.colors = colors;
        match prev {
            Some(p) => Attachment::are_identical(p, next),
            None => true,
        }
    }

    /// The distinct targets of the attachments: colors in slot order, then depth/stencil, each
    /// listed once.
    pub fn images(&self) -> (r: Vec<NodeIndex>)
        ensures
            r@ == first_occurrences(all_targets(self@)),
    {
        let mut targets: Vec<NodeIndex> = Vec::new();
        let mut i: usize = 0;
        while i < self.colors.len()
            invariant
                i <= self@.colors.len(),
                targets@ == color_targets(self@.colors.take(i as int)),
            decreases self@.colors.len() - i,
        {
            proof {
                assert(self@.colors.take(i as int + 1).drop_last() == self@.colors.take(i as int));
                assert(self@.colors.take(i as int + 1).last() == self@.colors[i as int]);
            }
            if let Some(attachment) = self.colors[i] {
                targets.push(attachment.target);
            }
            i = i + 1;
        }
        proof {
            assert(self@.colors.take(self@.colors.len() as int) == self@.colors);
        }
        if let Some(attachment) = self.depth_stencil {
            targets.push(attachment.target);
        }
        let mut r: Vec<NodeIndex> = Vec::new();
        let mut k: usize = 0;
        while k < targets.len()
            invariant
                k <= targets@.len(),
                r@ == first_occurrences(targets@.take(k as int)),
            decreases targets@.len() - k,
        {
            proof {
                assert(targets@.take(k as int + 1).drop_last() == targets@.take(k as int));
                assert(targets@.take(k as int + 1).last() == targets@[k as int]);
            }
            let t = targets[k];
            let mut seen = false;
            let mut j: usize = 0;
            while j < r.len()
                invariant
                    j <= r@.len(),
                    seen == exists|m: int| 0 <= m < j && r@[m] == t,
                decreases r@.len() - j,
            {
                if r[j] == t {
                    seen = true;
                }
                j = j + 1;
            }
            if !seen {
                r.push(t);
            }
            k = k + 1;
        }
        proof {
            assert(targets@.take(targets@.len() as int) == targets@);
        }
        r
    }

    /// Attaches an image as the depth/stencil attachment. Returns true if there was none or the
    /// previous one was identical.
    pub fn set_depth_stencil(&mut self, aspect_mask: u32, fmt: i32, sample_count: u32, target: NodeIndex) -> (r: bool)
        ensures
            final(self)@.colors == old(self)@.colors,
            final(self)@.depth_stencil == Some(Attachment { aspect_mask, fmt, sample_count, target }),
            r == match old(self)@.depth_stencil {
                Some(p) => identical(p, Attachment { aspect_mask, fmt, sample_count, target }),
                None => true,
            },
    {
        proof {
            use_type_invariant(&*self);
        }
        let next = Attachment { aspect_mask, fmt, sample_count, target };
        let prev = self.depth_stencil;
        self.depth_stencil = Some(next);
        match prev {
            Some(p) => Attachment::are_identical(p, next),
            None => true,
        }
    }
}

} // verus!
