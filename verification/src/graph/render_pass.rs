//! The attachments of a render pass, described from the executions of its pass.
use vstd::prelude::*;
use super::attachment::{
    attachment_layout, has_aspects, layout_of, Attachment, AttachmentIndex, ASPECT_COLOR, ASPECT_DEPTH,
    ASPECT_STENCIL,
    LAYOUT_COLOR_ATTACHMENT_OPTIMAL, LAYOUT_DEPTH_ATTACHMENT_OPTIMAL, LAYOUT_DEPTH_READ_ONLY_OPTIMAL,
    LAYOUT_DEPTH_STENCIL_ATTACHMENT_OPTIMAL, LAYOUT_DEPTH_STENCIL_READ_ONLY_OPTIMAL,
    LAYOUT_STENCIL_ATTACHMENT_OPTIMAL, LAYOUT_STENCIL_READ_ONLY_OPTIMAL, LAYOUT_UNDEFINED,
};
use super::merge::{entry_of, find_entry, first_some, or_else, ExecAttachments};

verus! {

/// What a render pass does with an attachment's contents as it begins.
#[derive(Clone, Copy, Debug, PartialEq, Eq, Structural)]
pub enum LoadOp {
    /// The contents are kept.
    Load,
    /// The contents are cleared.
    Clear,
    /// The contents are not needed.
    DontCare,
}

/// What a render pass does with an attachment's contents as it ends.
#[derive(Clone, Copy, Debug, PartialEq, Eq, Structural)]
pub enum StoreOp {
    /// The contents are kept.
    Store,
    /// The contents are not needed.
    DontCare,
}

/// The description of one attachment of a render pass.
#[derive(Clone, Copy, Debug, PartialEq, Eq, Structural)]
pub struct AttachmentDesc {
    /// The image description (format and sample count) last given for the attachment.
    pub attachment: Option<Attachment>,
    /// What happens to color or depth contents as the render pass begins.
    pub load_op: LoadOp,
    /// What happens to stencil contents as the render pass begins.
    pub stencil_load_op: LoadOp,
    /// What happens to color or depth contents as the render pass ends.
    pub store_op: StoreOp,
    /// What happens to stencil contents as the render pass ends.
    pub stencil_store_op: StoreOp,
    /// The raw image layout as the render pass begins.
    pub initial_layout: i32,
    /// The raw image layout as the render pass ends.
    pub final_layout: i32,
}

/// How the last execution that ends a color attachment ends it.
#[derive(Clone, Copy, Debug, PartialEq, Eq, Structural)]
pub enum ColorEnd {
    /// It is the destination of a resolve.
    Resolved(Attachment),
    /// It is stored.
    Stored(Attachment),
}

// ---- Counting attachments --------------------------------------------------------------------

/// One more than the largest index of the entries; zero without entries.
pub open spec fn entries_bound(entries: Seq<(AttachmentIndex, Attachment)>) -> nat
    decreases entries.len(),
{
    if entries.len() == 0 {
        0
    } else {
        let rest = entries_bound(entries.drop_last());
        let b = (entries.last().0 + 1) as nat;
        if b > rest { b } else { rest }
    }
}

/// The larger of two numbers.
pub open spec fn max_nat(a: nat, b: nat) -> nat {
    if a > b { a } else { b }
}

/// The number of color attachments an execution uses: one more than the largest index it
/// attaches, clears, loads, resolves to or stores.
pub open spec fn exec_color_count(e: ExecAttachments) -> nat {
    max_nat(
        entries_bound(e.color_attachments@),
        max_nat(
            entries_bound(e.color_clears@),
            max_nat(
                entries_bound(e.color_loads@),
                max_nat(entries_bound(e.color_resolves@), entries_bound(e.color_stores@)),
            ),
        ),
    )
}

/// The number of depth/stencil attachments an execution uses: one where it attaches, clears,
/// loads or stores one, and one more where it resolves one.
pub open spec fn exec_depth_count(e: ExecAttachments) -> nat {
    (if e.depth_stencil_attachment is Some || e.depth_stencil_clear is Some || e.depth_stencil_load is Some
        || e.depth_stencil_store is Some { 1nat } else { 0nat })
        + (if e.depth_stencil_resolve is Some { 1nat } else { 0nat })
}

/// The number of color attachments of a render pass: the most any execution uses.
pub open spec fn color_count(execs: Seq<ExecAttachments>) -> nat
    decreases execs.len(),
{
    if execs.len() == 0 {
        0
    } else {
        max_nat(color_count(execs.drop_last()), exec_color_count(execs.last()))
    }
}

/// The number of depth/stencil attachments of a render pass: the most any execution uses.
pub open spec fn depth_count(execs: Seq<ExecAttachments>) -> nat
    decreases execs.len(),
{
    if execs.len() == 0 {
        0
    } else {
        max_nat(depth_count(execs.drop_last()), exec_depth_count(execs.last()))
    }
}

/// Every index of the entries has a successor in 32 bits.
pub open spec fn entries_fit(entries: Seq<(AttachmentIndex, Attachment)>) -> bool {
    forall|j: int| 0 <= j < entries.len() ==> (#[trigger] entries[j]).0 < u32::MAX
}

/// Every color attachment index of the execution has a successor in 32 bits.
pub open spec fn exec_fits(e: ExecAttachments) -> bool {
    &&& entries_fit(e.color_attachments@)
    &&& entries_fit(e.color_clears@)
    &&& entries_fit(e.color_loads@)
    &&& entries_fit(e.color_resolves@)
    &&& entries_fit(e.color_stores@)
}

// ---- Where attachments begin and end ---------------------------------------------------------

/// How the first execution from `from` on that clears or loads the color attachment at `idx`
/// begins it: a clear comes before a load within one execution.
pub open spec fn first_color_load(execs: Seq<ExecAttachments>, from: int, idx: AttachmentIndex) -> Option<(LoadOp, Attachment)>
    decreases execs.len() - from,
{
    if from < 0 || from >= execs.len() {
        None
    } else {
        match entry_of(execs[from].color_clears@, idx) {
            Some(a) => Some((LoadOp::Clear, a)),
            None => match entry_of(execs[from].color_loads@, idx) {
                Some(a) => Some((LoadOp::Load, a)),
                None => first_color_load(execs, from + 1, idx),
            },
        }
    }
}

/// How the last execution before `upto` that resolves to or stores the color attachment at
/// `idx` ends it: a resolve comes before a store within one execution.
pub open spec fn last_color_store(execs: Seq<ExecAttachments>, upto: int, idx: AttachmentIndex) -> Option<ColorEnd>
    decreases upto,
{
    if upto <= 0 || upto > execs.len() {
        None
    } else {
        match entry_of(execs[upto - 1].color_resolves@, idx) {
            Some(a) => Some(ColorEnd::Resolved(a)),
            None => match entry_of(execs[upto - 1].color_stores@, idx) {
                Some(a) => Some(ColorEnd::Stored(a)),
                None => last_color_store(execs, upto - 1, idx),
            },
        }
    }
}

/// How the depth/stencil attachment begins: decided by the first execution from `from` on that
/// clears, loads or stores it; a clear comes before a load, and a store leaves it as it is.
pub open spec fn first_depth_load(execs: Seq<ExecAttachments>, from: int) -> Option<(LoadOp, Attachment)>
    decreases execs.len() - from,
{
    if from < 0 || from >= execs.len() {
        None
    } else {
        let e = execs[from];
        match e.depth_stencil_clear {
            Some(a) => Some((LoadOp::Clear, a)),
            None => match e.depth_stencil_load {
                Some(a) => Some((LoadOp::Load, a)),
                None => if e.depth_stencil_store is Some {
                    None
                } else {
                    first_depth_load(execs, from + 1)
                },
            },
        }
    }
}

/// The last execution before `upto` that stores the depth/stencil attachment, with what it stores.
pub open spec fn last_depth_store(execs: Seq<ExecAttachments>, upto: int) -> Option<(int, Attachment)>
    decreases upto,
{
    if upto <= 0 || upto > execs.len() {
        None
    } else {
        match execs[upto - 1].depth_stencil_store {
            Some(a) => Some((upto - 1, a)),
            None => last_depth_store(execs, upto - 1),
        }
    }
}

/// The last execution before `upto` that resolves the depth/stencil attachment, with the
/// destination.
pub open spec fn last_depth_resolve(execs: Seq<ExecAttachments>, upto: int) -> Option<(int, Attachment)>
    decreases upto,
{
    if upto <= 0 || upto > execs.len() {
        None
    } else {
        match execs[upto - 1].depth_stencil_resolve {
            Some(a) => Some((upto - 1, a)),
            None => last_depth_resolve(execs, upto - 1),
        }
    }
}

// ---- Describing attachments ------------------------------------------------------------------

/// An attachment nothing has been said of yet.
pub open spec fn unset_desc() -> AttachmentDesc {
    AttachmentDesc {
        attachment: None,
        load_op: LoadOp::DontCare,
        stencil_load_op: LoadOp::DontCare,
        store_op: StoreOp::DontCare,
        stencil_store_op: StoreOp::DontCare,
        initial_layout: LAYOUT_UNDEFINED,
        final_layout: LAYOUT_UNDEFINED,
    }
}

/// A color attachment as it begins.
pub open spec fn loaded_color(d: AttachmentDesc, load: Option<(LoadOp, Attachment)>) -> AttachmentDesc {
    match load {
        None => d,
        Some((op, a)) => AttachmentDesc {
            attachment: Some(a),
            load_op: op,
            initial_layout: LAYOUT_COLOR_ATTACHMENT_OPTIMAL,
            ..d
        },
    }
}

/// A color attachment as it ends.
pub open spec fn stored_color(d: AttachmentDesc, end: Option<ColorEnd>) -> AttachmentDesc {
    match end {
        None => d,
        Some(ColorEnd::Resolved(a)) => AttachmentDesc {
            attachment: Some(a),
            final_layout: LAYOUT_COLOR_ATTACHMENT_OPTIMAL,
            ..d
        },
        Some(ColorEnd::Stored(a)) => AttachmentDesc {
            attachment: Some(a),
            store_op: StoreOp::Store,
            final_layout: LAYOUT_COLOR_ATTACHMENT_OPTIMAL,
            ..d
        },
    }
}

/// A depth/stencil attachment as it begins: the operation applies to the aspects it has, depth
/// and stencil together before depth alone before stencil alone, and the layout follows them.
pub open spec fn loaded_depth(d: AttachmentDesc, load: Option<(LoadOp, Attachment)>) -> AttachmentDesc {
    match load {
        None => d,
        Some((op, a)) => {
            let clear = op == LoadOp::Clear;
            if has_aspects(a.aspect_mask, ASPECT_DEPTH | ASPECT_STENCIL) {
                AttachmentDesc {
                    attachment: Some(a),
                    load_op: op,
                    stencil_load_op: op,
                    initial_layout: if clear {
                        LAYOUT_DEPTH_STENCIL_ATTACHMENT_OPTIMAL
                    } else {
                        LAYOUT_DEPTH_STENCIL_READ_ONLY_OPTIMAL
                    },
                    ..d
                }
            } else if has_aspects(a.aspect_mask, ASPECT_DEPTH) {
                AttachmentDesc {
                    attachment: Some(a),
                    load_op: op,
                    initial_layout: if clear { LAYOUT_DEPTH_ATTACHMENT_OPTIMAL } else { LAYOUT_DEPTH_READ_ONLY_OPTIMAL },
                    ..d
                }
            } else {
                AttachmentDesc {
                    attachment: Some(a),
                    stencil_load_op: op,
                    initial_layout: if clear {
                        LAYOUT_STENCIL_ATTACHMENT_OPTIMAL
                    } else {
                        LAYOUT_STENCIL_READ_ONLY_OPTIMAL
                    },
                    ..d
                }
            }
        },
    }
}

/// The attachment layout of depth/stencil aspects.
pub open spec fn depth_layout(aspect_mask: u32) -> i32 {
    if has_aspects(aspect_mask, ASPECT_DEPTH | ASPECT_STENCIL) {
        LAYOUT_DEPTH_STENCIL_ATTACHMENT_OPTIMAL
    } else if has_aspects(aspect_mask, ASPECT_DEPTH) {
        LAYOUT_DEPTH_ATTACHMENT_OPTIMAL
    } else {
        LAYOUT_STENCIL_ATTACHMENT_OPTIMAL
    }
}

/// A depth/stencil attachment stored as it ends: the store applies to the aspects it has.
pub open spec fn stored_depth(d: AttachmentDesc, a: Attachment) -> AttachmentDesc {
    let depth = has_aspects(a.aspect_mask, ASPECT_DEPTH | ASPECT_STENCIL) || has_aspects(a.aspect_mask, ASPECT_DEPTH);
    let stencil = has_aspects(a.aspect_mask, ASPECT_DEPTH | ASPECT_STENCIL) || !has_aspects(a.aspect_mask, ASPECT_DEPTH);
    AttachmentDesc {
        attachment: Some(a),
        store_op: if depth { StoreOp::Store } else { d.store_op },
        stencil_store_op: if stencil { StoreOp::Store } else { d.stencil_store_op },
        final_layout: depth_layout(a.aspect_mask),
        ..d
    }
}

/// A depth/stencil attachment which is the destination of a resolve as it ends.
pub open spec fn resolved_depth(d: AttachmentDesc, a: Attachment) -> AttachmentDesc {
    AttachmentDesc { attachment: Some(a), final_layout: depth_layout(a.aspect_mask), ..d }
}

/// An attachment whose contents are not loaded begins in the layout it ends in; otherwise one
/// whose contents are not stored ends in the layout it begins in.
pub open spec fn settled(d: AttachmentDesc) -> AttachmentDesc {
    if d.load_op == LoadOp::DontCare {
        AttachmentDesc { initial_layout: d.final_layout, ..d }
    } else if d.store_op == StoreOp::DontCare && d.stencil_store_op == StoreOp::DontCare {
        AttachmentDesc { final_layout: d.initial_layout, ..d }
    } else {
        d
    }
}

/// The description of the color attachment at `idx`.
pub open spec fn color_desc(execs: Seq<ExecAttachments>, idx: AttachmentIndex) -> AttachmentDesc {
    settled(stored_color(
        loaded_color(unset_desc(), first_color_load(execs, 0, idx)),
        last_color_store(execs, execs.len() as int, idx),
    ))
}

/// The description of the depth/stencil attachment, which follows the color attachments. Where
/// the render pass has a single depth/stencil attachment, a resolve ends it too: the store and
/// the resolve apply in the order of the last executions that make them, a resolve last where
/// one execution makes both.
pub open spec fn depth_desc(execs: Seq<ExecAttachments>) -> AttachmentDesc {
    let d = loaded_depth(unset_desc(), first_depth_load(execs, 0));
    let store = last_depth_store(execs, execs.len() as int);
    let resolve = last_depth_resolve(execs, execs.len() as int);
    settled(
        if depth_count(execs) >= 2 || resolve is None {
            match store {
                Some((_, a)) => stored_depth(d, a),
                None => d,
            }
        } else {
            let (kr, ra) = resolve.unwrap();
            match store {
                None => resolved_depth(d, ra),
                Some((ks, sa)) => if kr <= ks {
                    resolved_depth(stored_depth(d, sa), ra)
                } else {
                    stored_depth(resolved_depth(d, ra), sa)
                },
            }
        },
    )
}

/// The description of the depth/stencil resolve destination, which is the last attachment
/// where the render pass has two depth/stencil attachments.
pub open spec fn depth_resolve_desc(execs: Seq<ExecAttachments>) -> AttachmentDesc {
    settled(match last_depth_resolve(execs, execs.len() as int) {
        Some((_, a)) => resolved_depth(unset_desc(), a),
        None => unset_desc(),
    })
}


/// A depth/stencil load or clear applies to the aspects of what is loaded or cleared: with both
/// depth and stencil, the depth and the stencil operations are both that operation; with depth
/// alone, only the depth one is and the stencil one stays as it was; with stencil alone, only the
/// stencil one is. Likewise a store stores the aspects it has.
pub proof fn lemma_depth_operations_follow_aspects(d: AttachmentDesc, op: LoadOp, a: Attachment)
    ensures
        a.aspect_mask & (ASPECT_DEPTH | ASPECT_STENCIL) == (ASPECT_DEPTH | ASPECT_STENCIL) ==> {
            &&& loaded_depth(d, Some((op, a))).load_op == op
            &&& loaded_depth(d, Some((op, a))).stencil_load_op == op
            &&& stored_depth(d, a).store_op == StoreOp::Store
            &&& stored_depth(d, a).stencil_store_op == StoreOp::Store
        },
        a.aspect_mask & (ASPECT_DEPTH | ASPECT_STENCIL) == ASPECT_DEPTH ==> {
            &&& loaded_depth(d, Some((op, a))).load_op == op
            &&& loaded_depth(d, Some((op, a))).stencil_load_op == d.stencil_load_op
            &&& stored_depth(d, a).store_op == StoreOp::Store
            &&& stored_depth(d, a).stencil_store_op == d.stencil_store_op
        },
        a.aspect_mask & (ASPECT_DEPTH | ASPECT_STENCIL) == ASPECT_STENCIL ==> {
            &&& loaded_depth(d, Some((op, a))).load_op == d.load_op
            &&& loaded_depth(d, Some((op, a))).stencil_load_op == op
            &&& stored_depth(d, a).store_op == d.store_op
            &&& stored_depth(d, a).stencil_store_op == StoreOp::Store
        },
        loaded_depth(d, Some((op, a))).attachment == Some(a),
        loaded_depth(d, None) == d,
{
    let m = a.aspect_mask;
    assert(m & (ASPECT_DEPTH | ASPECT_STENCIL) == (ASPECT_DEPTH | ASPECT_STENCIL) ==> m & (ASPECT_DEPTH
        | ASPECT_STENCIL) == (ASPECT_DEPTH | ASPECT_STENCIL)) by (bit_vector);
    assert(m & (ASPECT_DEPTH | ASPECT_STENCIL) == ASPECT_DEPTH ==> m & ASPECT_DEPTH == ASPECT_DEPTH
        && m & (ASPECT_DEPTH | ASPECT_STENCIL) != (ASPECT_DEPTH | ASPECT_STENCIL)) by (bit_vector);
    assert(m & (ASPECT_DEPTH | ASPECT_STENCIL) == ASPECT_STENCIL ==> m & ASPECT_DEPTH != ASPECT_DEPTH
        && m & (ASPECT_DEPTH | ASPECT_STENCIL) != (ASPECT_DEPTH | ASPECT_STENCIL)) by (bit_vector);
}

/// The depth/stencil attachment of a render pass begins as the first execution that clears or
/// loads it: where that clears or loads depth and stencil together, the description's depth and
/// stencil load operations are both that operation, whatever later executions store or resolve.
pub proof fn lemma_depth_attachment_begins_with_first_load(execs: Seq<ExecAttachments>, op: LoadOp, a: Attachment)
    requires
        first_depth_load(execs, 0) == Some((op, a)),
        a.aspect_mask & (ASPECT_DEPTH | ASPECT_STENCIL) == (ASPECT_DEPTH | ASPECT_STENCIL),
    ensures
        depth_desc(execs).load_op == op,
        depth_desc(execs).stencil_load_op == op,
{
    lemma_depth_operations_follow_aspects(unset_desc(), op, a);
}

/// Where the first execution clears depth and stencil together, the render pass clears both;
/// where it loads them (and clears nothing), it loads both.
pub proof fn lemma_first_execution_clears_or_loads_depth(execs: Seq<ExecAttachments>, a: Attachment)
    requires
        execs.len() > 0,
        a.aspect_mask & (ASPECT_DEPTH | ASPECT_STENCIL) == (ASPECT_DEPTH | ASPECT_STENCIL),
    ensures
        execs[0].depth_stencil_clear == Some(a) ==> depth_desc(execs).load_op == LoadOp::Clear
            && depth_desc(execs).stencil_load_op == LoadOp::Clear,
        execs[0].depth_stencil_clear is None && execs[0].depth_stencil_load == Some(a) ==> depth_desc(execs).load_op
            == LoadOp::Load && depth_desc(execs).stencil_load_op == LoadOp::Load,
{
    if execs[0].depth_stencil_clear == Some(a) {
        lemma_depth_attachment_begins_with_first_load(execs, LoadOp::Clear, a);
    } else if execs[0].depth_stencil_clear is None && execs[0].depth_stencil_load == Some(a) {
        lemma_depth_attachment_begins_with_first_load(execs, LoadOp::Load, a);
    }
}

/// A color attachment cleared by the first execution begins cleared, and one the first
/// execution loads (without clearing it) begins loaded; either way in the color attachment
/// layout.
pub proof fn lemma_first_execution_clears_or_loads_color(execs: Seq<ExecAttachments>, idx: AttachmentIndex)
    requires
        execs.len() > 0,
    ensures
        entry_of(execs[0].color_clears@, idx) is Some ==> color_desc(execs, idx).load_op == LoadOp::Clear
            && color_desc(execs, idx).initial_layout == LAYOUT_COLOR_ATTACHMENT_OPTIMAL,
        entry_of(execs[0].color_clears@, idx) is None && entry_of(execs[0].color_loads@, idx) is Some
            ==> color_desc(execs, idx).load_op == LoadOp::Load
            && color_desc(execs, idx).initial_layout == LAYOUT_COLOR_ATTACHMENT_OPTIMAL,
{
}

/// A color attachment the last execution stores (without resolving to it) ends stored, in the
/// color attachment layout; one the last execution resolves to ends in that layout without
/// being stored, unless an earlier execution's store is the last one.
pub proof fn lemma_last_execution_stores_color(execs: Seq<ExecAttachments>, idx: AttachmentIndex)
    requires
        execs.len() > 0,
    ensures
        entry_of(execs.last().color_resolves@, idx) is None && entry_of(execs.last().color_stores@, idx) is Some
            ==> color_desc(execs, idx).store_op == StoreOp::Store
            && color_desc(execs, idx).final_layout == LAYOUT_COLOR_ATTACHMENT_OPTIMAL,
        entry_of(execs.last().color_resolves@, idx) is Some ==> color_desc(execs, idx).store_op == StoreOp::DontCare
            && color_desc(execs, idx).final_layout == LAYOUT_COLOR_ATTACHMENT_OPTIMAL,
{
    assert(execs[execs.len() - 1] == execs.last());
}

// ---- Computing the descriptions --------------------------------------------------------------

/// One more than the largest index of the entries, computed.
fn bound_of(entries: &Vec<(AttachmentIndex, Attachment)>) -> (r: u32)
    requires
        entries_fit(entries@),
    ensures
        r == entries_bound(entries@),
{
    let mut r: u32 = 0;
    let mut i: usize = 0;
    while i < entries.len()
        invariant
            entries_fit(entries@),
            i <= entries@.len(),
            r == entries_bound(entries@.take(i as int)),
        decreases entries@.len() - i,
    {
        proof {
            assert(entries@.take(i + 1).drop_last() == entries@.take(i as int));
            assert(entries@[i as int].0 < u32::MAX);
        }
        let b = entries[i].0 + 1;
        if b > r {
            r = b;
        }
        i = i + 1;
    }
    proof {
        assert(entries@.take(entries@.len() as int) == entries@);
    }
    r
}

/// The larger of two counts.
fn max_u32(a: u32, b: u32) -> (r: u32)
    ensures
        r == max_nat(a as nat, b as nat),
{
    if a > b { a } else { b }
}

/// The number of color attachments an execution uses, computed.
fn exec_color_count_of(e: &ExecAttachments) -> (r: u32)
    requires
        exec_fits(*e),
    ensures
        r == exec_color_count(*e),
{
    let a = bound_of(&e.color_attachments);
    let c = bound_of(&e.color_clears);
    let l = bound_of(&e.color_loads);
    let v = bound_of(&e.color_resolves);
    let s = bound_of(&e.color_stores);
    max_u32(a, max_u32(c, max_u32(l, max_u32(v, s))))
}

/// The number of depth/stencil attachments an execution uses, computed.
fn exec_depth_count_of(e: &ExecAttachments) -> (r: u32)
    ensures
        r == exec_depth_count(*e),
{
    let has = e.depth_stencil_attachment.is_some() || e.depth_stencil_clear.is_some()
        || e.depth_stencil_load.is_some() || e.depth_stencil_store.is_some();
    let a: u32 = if has { 1 } else { 0 };
    let b: u32 = if e.depth_stencil_resolve.is_some() { 1 } else { 0 };
    a + b
}

/// The numbers of color and depth/stencil attachments of a render pass, computed.
fn counts_of(execs: &Vec<ExecAttachments>) -> (r: (u32, u32))
    requires
        forall|k: int| 0 <= k < execs@.len() ==> exec_fits(#[trigger] execs@[k]),
    ensures
        r.0 == color_count(execs@),
        r.1 == depth_count(execs@),
        r.1 <= 2,
{
    let mut colors: u32 = 0;
    let mut depths: u32 = 0;
    let mut k: usize = 0;
    while k < execs.len()
        invariant
            forall|j: int| 0 <= j < execs@.len() ==> exec_fits(#[trigger] execs@[j]),
            k <= execs@.len(),
            colors == color_count(execs@.take(k as int)),
            depths == depth_count(execs@.take(k as int)),
            depths <= 2,
        decreases execs@.len() - k,
    {
        proof {
            assert(execs@.take(k + 1).drop_last() == execs@.take(k as int));
            assert(execs@.take(k + 1).last() == execs@[k as int]);
        }
        colors = max_u32(colors, exec_color_count_of(&execs[k]));
        depths = max_u32(depths, exec_depth_count_of(&execs[k]));
        k = k + 1;
    }
    proof {
        assert(execs@.take(execs@.len() as int) == execs@);
    }
    (colors, depths)
}

/// How the color attachment at `idx` begins, computed.
fn find_color_load(execs: &Vec<ExecAttachments>, idx: AttachmentIndex) -> (r: Option<(LoadOp, Attachment)>)
    ensures
        r == first_color_load(execs@, 0, idx),
{
    let mut k: usize = 0;
    while k < execs.len()
        invariant
            k <= execs@.len(),
            first_color_load(execs@, 0, idx) == first_color_load(execs@, k as int, idx),
        decreases execs@.len() - k,
    {
        if let Some(a) = find_entry(&execs[k].color_clears, idx) {
            return Some((LoadOp::Clear, a));
        }
        if let Some(a) = find_entry(&execs[k].color_loads, idx) {
            return Some((LoadOp::Load, a));
        }
        k = k + 1;
    }
    None
}

/// How the color attachment at `idx` ends, computed.
fn find_color_end(execs: &Vec<ExecAttachments>, idx: AttachmentIndex) -> (r: Option<ColorEnd>)
    ensures
        r == last_color_store(execs@, execs@.len() as int, idx),
{
    let mut k: usize = execs.len();
    while k > 0
        invariant
            k <= execs@.len(),
            last_color_store(execs@, execs@.len() as int, idx) == last_color_store(execs@, k as int, idx),
        decreases k,
    {
        if let Some(a) = find_entry(&execs[k - 1].color_resolves, idx) {
            return Some(ColorEnd::Resolved(a));
        }
        if let Some(a) = find_entry(&execs[k - 1].color_stores, idx) {
            return Some(ColorEnd::Stored(a));
        }
        k = k - 1;
    }
    None
}

/// How the depth/stencil attachment begins, computed.
fn find_depth_load(execs: &Vec<ExecAttachments>) -> (r: Option<(LoadOp, Attachment)>)
    ensures
        r == first_depth_load(execs@, 0),
{
    let mut k: usize = 0;
    while k < execs.len()
        invariant
            k <= execs@.len(),
            first_depth_load(execs@, 0) == first_depth_load(execs@, k as int),
        decreases execs@.len() - k,
    {
        let e = &execs[k];
        if let Some(a) = e.depth_stencil_clear {
            return Some((LoadOp::Clear, a));
        }
        if let Some(a) = e.depth_stencil_load {
            return Some((LoadOp::Load, a));
        }
        if e.depth_stencil_store.is_some() {
            return None;
        }
        k = k + 1;
    }
    None
}

/// The last store of the depth/stencil attachment, computed.
fn find_depth_store(execs: &Vec<ExecAttachments>) -> (r: Option<(usize, Attachment)>)
    ensures
        match r {
            Some((k, a)) => last_depth_store(execs@, execs@.len() as int) == Some((k as int, a)),
            None => last_depth_store(execs@, execs@.len() as int) is None,
        },
{
    let mut k: usize = execs.len();
    while k > 0
        invariant
            k <= execs@.len(),
            last_depth_store(execs@, execs@.len() as int) == last_depth_store(execs@, k as int),
        decreases k,
    {
        if let Some(a) = execs[k - 1].depth_stencil_store {
            return Some((k - 1, a));
        }
        k = k - 1;
    }
    None
}

/// The last resolve of the depth/stencil attachment, computed.
fn find_depth_resolve(execs: &Vec<ExecAttachments>) -> (r: Option<(usize, Attachment)>)
    ensures
        match r {
            Some((k, a)) => last_depth_resolve(execs@, execs@.len() as int) == Some((k as int, a)),
            None => last_depth_resolve(execs@, execs@.len() as int) is None,
        },
{
    let mut k: usize = execs.len();
    while k > 0
        invariant
            k <= execs@.len(),
            last_depth_resolve(execs@, execs@.len() as int) == last_depth_resolve(execs@, k as int),
        decreases k,
    {
        if let Some(a) = execs[k - 1].depth_stencil_resolve {
            return Some((k - 1, a));
        }
        k = k - 1;
    }
    None
}

/// An attachment nothing has been said of yet, made.
fn make_unset() -> (r: AttachmentDesc)
    ensures
        r == unset_desc(),
{
    AttachmentDesc {
        attachment: None,
        load_op: LoadOp::DontCare,
        stencil_load_op: LoadOp::DontCare,
        store_op: StoreOp::DontCare,
        stencil_store_op: StoreOp::DontCare,
        initial_layout: LAYOUT_UNDEFINED,
        final_layout: LAYOUT_UNDEFINED,
    }
}

/// A color attachment as it begins, made.
fn load_color(d: AttachmentDesc, load: Option<(LoadOp, Attachment)>) -> (r: AttachmentDesc)
    ensures
        r == loaded_color(d, load),
{
    match load {
        None => d,
        Some((op, a)) => AttachmentDesc {
            attachment: Some(a),
            load_op: op,
            initial_layout: LAYOUT_COLOR_ATTACHMENT_OPTIMAL,
            ..d
        },
    }
}

/// A color attachment as it ends, made.
fn store_color(d: AttachmentDesc, end: Option<ColorEnd>) -> (r: AttachmentDesc)
    ensures
        r == stored_color(d, end),
{
    match end {
        None => d,
        Some(ColorEnd::Resolved(a)) => AttachmentDesc {
            attachment: Some(a),
            final_layout: LAYOUT_COLOR_ATTACHMENT_OPTIMAL,
            ..d
        },
        Some(ColorEnd::Stored(a)) => AttachmentDesc {
            attachment: Some(a),
            store_op: StoreOp::Store,
            final_layout: LAYOUT_COLOR_ATTACHMENT_OPTIMAL,
            ..d
        },
    }
}

/// Whether the aspect mask holds every bit of `bits`, computed.
fn aspects(aspect_mask: u32, bits: u32) -> (r: bool)
    ensures
        r == has_aspects(aspect_mask, bits),
{
    aspect_mask & bits == bits
}

/// A depth/stencil attachment as it begins, made.
fn load_depth(d: AttachmentDesc, load: Option<(LoadOp, Attachment)>) -> (r: AttachmentDesc)
    ensures
        r == loaded_depth(d, load),
{
    match load {
        None => d,
        Some((op, a)) => {
            let clear = op == LoadOp::Clear;
            if aspects(a.aspect_mask, ASPECT_DEPTH | ASPECT_STENCIL) {
                AttachmentDesc {
                    attachment: Some(a),
                    load_op: op,
                    stencil_load_op: op,
                    initial_layout: if clear {
                        LAYOUT_DEPTH_STENCIL_ATTACHMENT_OPTIMAL
                    } else {
                        LAYOUT_DEPTH_STENCIL_READ_ONLY_OPTIMAL
                    },
                    ..d
                }
            } else if aspects(a.aspect_mask, ASPECT_DEPTH) {
                AttachmentDesc {
                    attachment: Some(a),
                    load_op: op,
                    initial_layout: if clear { LAYOUT_DEPTH_ATTACHMENT_OPTIMAL } else { LAYOUT_DEPTH_READ_ONLY_OPTIMAL },
                    ..d
                }
            } else {
                AttachmentDesc {
                    attachment: Some(a),
                    stencil_load_op: op,
                    initial_layout: if clear {
                        LAYOUT_STENCIL_ATTACHMENT_OPTIMAL
                    } else {
                        LAYOUT_STENCIL_READ_ONLY_OPTIMAL
                    },
                    ..d
                }
            }
        },
    }
}

/// The attachment layout of depth/stencil aspects, computed.
fn depth_layout_of(aspect_mask: u32) -> (r: i32)
    ensures
        r == depth_layout(aspect_mask),
{
    if aspects(aspect_mask, ASPECT_DEPTH | ASPECT_STENCIL) {
        LAYOUT_DEPTH_STENCIL_ATTACHMENT_OPTIMAL
    } else if aspects(aspect_mask, ASPECT_DEPTH) {
        LAYOUT_DEPTH_ATTACHMENT_OPTIMAL
    } else {
        LAYOUT_STENCIL_ATTACHMENT_OPTIMAL
    }
}

/// A depth/stencil attachment stored as it ends, made.
fn store_depth(d: AttachmentDesc, a: Attachment) -> (r: AttachmentDesc)
    ensures
        r == stored_depth(d, a),
{
    let both = aspects(a.aspect_mask, ASPECT_DEPTH | ASPECT_STENCIL);
    let depth_only = aspects(a.aspect_mask, ASPECT_DEPTH);
    let depth = both || depth_only;
    let stencil = both || !depth_only;
    AttachmentDesc {
        attachment: Some(a),
        store_op: if depth { StoreOp::Store } else { d.store_op },
        stencil_store_op: if stencil { StoreOp::Store } else { d.stencil_store_op },
        final_layout: depth_layout_of(a.aspect_mask),
        ..d
    }
}

/// A depth/stencil attachment which is the destination of a resolve as it ends, made.
fn resolve_depth(d: AttachmentDesc, a: Attachment) -> (r: AttachmentDesc)
    ensures
        r == resolved_depth(d, a),
{
    AttachmentDesc { attachment: Some(a), final_layout: depth_layout_of(a.aspect_mask), ..d }
}

/// The layouts of an attachment settled, made.
fn settle(d: AttachmentDesc) -> (r: AttachmentDesc)
    ensures
        r == settled(d),
{
    if d.load_op == LoadOp::DontCare {
        AttachmentDesc { initial_layout: d.final_layout, ..d }
    } else if d.store_op == StoreOp::DontCare && d.stencil_store_op == StoreOp::DontCare {
        AttachmentDesc { final_layout: d.initial_layout, ..d }
    } else {
        d
    }
}

/// Describes the attachments of the render pass of a pass from its executions: first one for
/// each color attachment index any execution uses, then one for the depth/stencil attachment
/// where an execution attaches, clears, loads or stores one, then one for the depth/stencil
/// resolve destination where an execution also resolves one.
///
/// An attachment begins as the first execution that clears or loads it begins it (a clear
/// before a load within one execution), and ends as the last execution that resolves to or
/// stores it ends it (a resolve before a store within one execution); an attachment that is not
/// loaded begins in the layout it ends in, and one that is loaded but not stored ends in the
/// layout it begins in.
pub fn render_pass_attachments(execs: &Vec<ExecAttachments>) -> (r: Vec<AttachmentDesc>)
    requires
        forall|k: int| 0 <= k < execs@.len() ==> exec_fits(#[trigger] execs@[k]),
    ensures
        r@.len() == color_count(execs@) + depth_count(execs@),
        forall|i: int| 0 <= i < color_count(execs@) ==> #[trigger] r@[i] == color_desc(execs@, i as AttachmentIndex),
        depth_count(execs@) >= 1 ==> r@[color_count(execs@) as int] == depth_desc(execs@),
        depth_count(execs@) == 2 ==> r@[color_count(execs@) + 1int] == depth_resolve_desc(execs@),
{
    let (colors, depths) = counts_of(execs);
    let mut r: Vec<AttachmentDesc> = Vec::new();
    let mut i: u32 = 0;
    while i < colors
        invariant
            colors == color_count(execs@),
            i <= colors,
            r@.len() == i,
            forall|j: int| 0 <= j < i ==> #[trigger] r@[j] == color_desc(execs@, j as AttachmentIndex),
        decreases colors - i,
    {
        let d = load_color(make_unset(), find_color_load(execs, i));
        let d = settle(store_color(d, find_color_end(execs, i)));
        r.push(d);
        i = i + 1;
    }
    if depths >= 1 {
        let d = load_depth(make_unset(), find_depth_load(execs));
        let store = find_depth_store(execs);
        let resolve = find_depth_resolve(execs);
        let d = if depths >= 2 || resolve.is_none() {
            match store {
                Some((_, a)) => store_depth(d, a),
                None => d,
            }
        } else {
            let (kr, ra) = resolve.unwrap();
            match store {
                None => resolve_depth(d, ra),
                Some((ks, sa)) => if kr <= ks {
                    resolve_depth(store_depth(d, sa), ra)
                } else {
                    store_depth(resolve_depth(d, ra), sa)
                },
            }
        };
        r.push(settle(d));
    }
    if depths >= 2 {
        let d = match find_depth_resolve(execs) {
            Some((_, a)) => resolve_depth(make_unset(), a),
            None => make_unset(),
        };
        r.push(settle(d));
    }
    r
}


// ---- Subpasses -------------------------------------------------------------------------------

/// The raw Vulkan value that marks an attachment reference as unused.
pub const ATTACHMENT_UNUSED: u32 = 0xffff_ffff;

/// A reference from a subpass to an attachment of its render pass.
#[derive(Clone, Copy, Debug, PartialEq, Eq, Structural)]
pub struct AttachmentRef {
    /// The index of the attachment in the render pass, or `ATTACHMENT_UNUSED`.
    pub attachment: u32,
    /// The aspects referenced.
    pub aspect_mask: u32,
    /// The raw image layout during the subpass.
    pub layout: i32,
}

/// What a subpass takes from its execution besides the attachments: the pipeline's subpass
/// inputs and how the execution resolves.
pub struct SubpassExec {
    /// The color attachment indexes the graphic pipeline reads as subpass inputs, in order.
    pub input_attachments: Vec<AttachmentIndex>,
    /// Each color resolve as its destination index and its source index.
    pub resolve_sources: Vec<(AttachmentIndex, AttachmentIndex)>,
    /// The depth/stencil resolve as its destination index and the raw depth and stencil resolve
    /// modes.
    pub depth_stencil_resolve: Option<(AttachmentIndex, i32, i32)>,
    /// The correlated multiview mask.
    pub correlated_view_mask: u32,
}

/// The description of one subpass of a render pass.
pub struct SubpassDesc {
    /// The subpass inputs, in the order of the pipeline's.
    pub input_attachments: Vec<AttachmentRef>,
    /// One reference for each color attachment index of the render pass.
    pub color_attachments: Vec<AttachmentRef>,
    /// One resolve reference for each color attachment index of the render pass, by source.
    pub color_resolve_attachments: Vec<AttachmentRef>,
    /// The depth/stencil attachment, where the execution uses one.
    pub depth_stencil_attachment: Option<AttachmentRef>,
    /// The depth/stencil resolve destination with the raw depth and stencil resolve modes.
    pub depth_stencil_resolve_attachment: Option<(AttachmentRef, i32, i32)>,
    /// The attachments this subpass keeps for a later subpass which reads them as inputs.
    pub preserve_attachments: Vec<AttachmentIndex>,
    /// The multiview mask.
    pub view_mask: u32,
    /// The correlated multiview mask.
    pub correlated_view_mask: u32,
}

/// The view of a subpass description.
pub struct SubpassView {
    /// The subpass inputs.
    pub input_attachments: Seq<AttachmentRef>,
    /// The color attachment references.
    pub color_attachments: Seq<AttachmentRef>,
    /// The color resolve references.
    pub color_resolve_attachments: Seq<AttachmentRef>,
    /// The depth/stencil attachment reference.
    pub depth_stencil_attachment: Option<AttachmentRef>,
    /// The depth/stencil resolve reference and modes.
    pub depth_stencil_resolve_attachment: Option<(AttachmentRef, i32, i32)>,
    /// The preserved attachments.
    pub preserve_attachments: Seq<AttachmentIndex>,
    /// The multiview mask.
    pub view_mask: u32,
    /// The correlated multiview mask.
    pub correlated_view_mask: u32,
}

impl View for SubpassDesc {
    type V = SubpassView;

    open spec fn view(&self) -> SubpassView {
        SubpassView {
            input_attachments: self.input_attachments@,
            color_attachments: self.color_attachments@,
            color_resolve_attachments: self.color_resolve_attachments@,
            depth_stencil_attachment: self.depth_stencil_attachment,
            depth_stencil_resolve_attachment: self.depth_stencil_resolve_attachment,
            preserve_attachments: self.preserve_attachments@,
            view_mask: self.view_mask,
            correlated_view_mask: self.correlated_view_mask,
        }
    }
}

/// The attachment a subpass input refers to: attached, else loaded, else stored.
pub open spec fn input_source(e: ExecAttachments, idx: AttachmentIndex) -> Option<Attachment> {
    or_else(entry_of(e.color_attachments@, idx), or_else(entry_of(e.color_loads@, idx), entry_of(e.color_stores@, idx)))
}

/// The reference of a subpass input: random access where the execution stores it.
pub open spec fn input_ref(e: ExecAttachments, idx: AttachmentIndex) -> AttachmentRef {
    let a = input_source(e, idx).unwrap();
    AttachmentRef {
        attachment: idx,
        aspect_mask: a.aspect_mask,
        layout: layout_of(a.aspect_mask, entry_of(e.color_stores@, idx) is Some, true),
    }
}

/// Whether the execution attaches, clears, loads or stores the color attachment at `idx`.
pub open spec fn uses_color(e: ExecAttachments, idx: AttachmentIndex) -> bool {
    ||| entry_of(e.color_attachments@, idx) is Some
    ||| entry_of(e.color_clears@, idx) is Some
    ||| entry_of(e.color_loads@, idx) is Some
    ||| entry_of(e.color_stores@, idx) is Some
}

/// The color reference at `idx`: unused unless the execution uses the attachment, and in the
/// general layout where it is also a subpass input.
pub open spec fn color_ref(e: ExecAttachments, inputs: Seq<AttachmentIndex>, idx: AttachmentIndex) -> AttachmentRef {
    AttachmentRef {
        attachment: if uses_color(e, idx) { idx } else { ATTACHMENT_UNUSED },
        aspect_mask: ASPECT_COLOR,
        layout: layout_of(ASPECT_COLOR, true, inputs.contains(idx)),
    }
}

/// The destination of the last color resolve from the source index `src`.
pub open spec fn last_resolve_from(sources: Seq<(AttachmentIndex, AttachmentIndex)>, src: AttachmentIndex) -> Option<AttachmentIndex>
    decreases sources.len(),
{
    if sources.len() == 0 {
        None
    } else if sources.last().1 == src {
        Some(sources.last().0)
    } else {
        last_resolve_from(sources.drop_last(), src)
    }
}

/// The resolve reference of the color attachment at source index `src`: unused where nothing
/// resolves from it.
pub open spec fn resolve_ref(e: ExecAttachments, sub: SubpassExecView, src: AttachmentIndex) -> AttachmentRef {
    match last_resolve_from(sub.resolve_sources, src) {
        None => AttachmentRef { attachment: ATTACHMENT_UNUSED, aspect_mask: 0, layout: LAYOUT_UNDEFINED },
        Some(dst) => {
            let a = entry_of(e.color_resolves@, dst).unwrap();
            AttachmentRef {
                attachment: dst,
                aspect_mask: a.aspect_mask,
                layout: layout_of(a.aspect_mask, true, sub.input_attachments.contains(dst)),
            }
        },
    }
}

/// The view of what a subpass takes from its execution.
pub struct SubpassExecView {
    /// The subpass inputs.
    pub input_attachments: Seq<AttachmentIndex>,
    /// The color resolves as destination and source.
    pub resolve_sources: Seq<(AttachmentIndex, AttachmentIndex)>,
    /// The depth/stencil resolve.
    pub depth_stencil_resolve: Option<(AttachmentIndex, i32, i32)>,
    /// The correlated multiview mask.
    pub correlated_view_mask: u32,
}

impl View for SubpassExec {
    type V = SubpassExecView;

    open spec fn view(&self) -> SubpassExecView {
        SubpassExecView {
            input_attachments: self.input_attachments@,
            resolve_sources: self.resolve_sources@,
            depth_stencil_resolve: self.depth_stencil_resolve,
            correlated_view_mask: self.correlated_view_mask,
        }
    }
}

/// The depth/stencil reference: attached, else loaded, else stored, else cleared; random
/// access where the execution clears, loads or stores it.
pub open spec fn depth_ref(e: ExecAttachments, colors: nat) -> Option<AttachmentRef> {
    let ds = or_else(e.depth_stencil_attachment, or_else(e.depth_stencil_load, or_else(e.depth_stencil_store, e.depth_stencil_clear)));
    match ds {
        None => None,
        Some(a) => Some(AttachmentRef {
            attachment: colors as u32,
            aspect_mask: a.aspect_mask,
            layout: layout_of(
                a.aspect_mask,
                e.depth_stencil_clear is Some || e.depth_stencil_load is Some || e.depth_stencil_store is Some,
                false,
            ),
        }),
    }
}

/// The depth/stencil resolve reference: the attachment after the destination index.
pub open spec fn depth_resolve_ref(e: ExecAttachments, sub: SubpassExecView) -> Option<(AttachmentRef, i32, i32)> {
    match sub.depth_stencil_resolve {
        None => None,
        Some((dst, depth_mode, stencil_mode)) => {
            let a = e.depth_stencil_resolve.unwrap();
            Some((
                AttachmentRef {
                    attachment: (dst + 1) as u32,
                    aspect_mask: a.aspect_mask,
                    layout: layout_of(a.aspect_mask, true, false),
                },
                depth_mode,
                stencil_mode,
            ))
        },
    }
}

/// Whether no execution from `lo` up to before `hi` stores the color attachment at `idx`.
pub open spec fn not_stored_between(execs: Seq<ExecAttachments>, lo: int, hi: int, idx: AttachmentIndex) -> bool {
    forall|q: int| lo <= q < hi ==> entry_of(#[trigger] execs[q].color_stores@, idx) is None
}

/// The inputs of execution `e` which subpass `p` preserves: those which no execution from `p`
/// up to before the one just ahead of `e` stores, where `p` is before that one.
pub open spec fn preserved_inputs(execs: Seq<ExecAttachments>, inputs: Seq<AttachmentIndex>, p: int, e: int) -> Seq<AttachmentIndex>
    decreases inputs.len(),
{
    if inputs.len() == 0 || !(p < e - 1) {
        seq![]
    } else {
        let rest = preserved_inputs(execs, inputs.drop_last(), p, e);
        if not_stored_between(execs, p, e - 1, inputs.last()) { rest.push(inputs.last()) } else { rest }
    }
}

/// The attachments subpass `p` preserves for the executions from `e` on, in their order.
pub open spec fn preserved_from(execs: Seq<ExecAttachments>, subs: Seq<SubpassExecView>, p: int, e: int) -> Seq<AttachmentIndex>
    decreases execs.len() - e,
{
    if e < 0 || e >= execs.len() {
        seq![]
    } else {
        preserved_inputs(execs, subs[e].input_attachments, p, e) + preserved_from(execs, subs, p, e + 1)
    }
}

/// The description of subpass `k`.
pub open spec fn subpass_view(execs: Seq<ExecAttachments>, subs: Seq<SubpassExecView>, k: int) -> SubpassView {
    let e = execs[k];
    let sub = subs[k];
    let colors = color_count(execs);
    SubpassView {
        input_attachments: sub.input_attachments.map_values(|idx: AttachmentIndex| input_ref(e, idx)),
        color_attachments: Seq::new(colors, |j: int| color_ref(e, sub.input_attachments, j as AttachmentIndex)),
        color_resolve_attachments: Seq::new(colors, |j: int| resolve_ref(e, sub, j as AttachmentIndex)),
        depth_stencil_attachment: depth_ref(e, colors),
        depth_stencil_resolve_attachment: depth_resolve_ref(e, sub),
        preserve_attachments: preserved_from(execs, subs, k, k + 1),
        view_mask: e.view_mask,
        correlated_view_mask: sub.correlated_view_mask,
    }
}

/// What the subpasses of a render pass need of its executions: one for each, every subpass
/// input attached, loaded or stored and not cleared, no subpass input in the first, every resolve
/// from a color attachment index of the render pass to an index the execution resolves to, and
/// a depth/stencil resolve exactly where the execution resolves one.
pub open spec fn subpasses_wf(execs: Seq<ExecAttachments>, subs: Seq<SubpassExecView>) -> bool {
    &&& subs.len() == execs.len()
    &&& forall|k: int| 0 <= k < execs.len() ==> exec_fits(#[trigger] execs[k])
    &&& subs.len() > 0 ==> subs[0].input_attachments.len() == 0
    &&& forall|k: int, i: int| 0 <= k < execs.len() && 0 <= i < subs[k].input_attachments.len() ==> {
        &&& input_source(execs[k], #[trigger] subs[k].input_attachments[i]) is Some
        &&& entry_of(execs[k].color_clears@, subs[k].input_attachments[i]) is None
    }
    &&& forall|k: int, i: int| 0 <= k < execs.len() && 0 <= i < subs[k].resolve_sources.len() ==> {
        &&& (#[trigger] subs[k].resolve_sources[i]).1 < color_count(execs)
        &&& entry_of(execs[k].color_resolves@, subs[k].resolve_sources[i].0) is Some
    }
    &&& forall|k: int| 0 <= k < execs.len() ==> {
        &&& (#[trigger] subs[k].depth_stencil_resolve is Some) == (execs[k].depth_stencil_resolve is Some)
        &&& subs[k].depth_stencil_resolve matches Some((dst, _, _)) ==> dst < u32::MAX
    }
}


/// The views of what the subpasses take from their executions.
pub open spec fn sub_views(subs: Seq<SubpassExec>) -> Seq<SubpassExecView> {
    subs.map_values(|s: SubpassExec| s@)
}

/// Whether the index is among the indexes, computed.
fn contains_index(v: &Vec<AttachmentIndex>, idx: AttachmentIndex) -> (r: bool)
    ensures
        r == v@.contains(idx),
{
    let mut i: usize = 0;
    while i < v.len()
        invariant
            i <= v@.len(),
            forall|j: int| 0 <= j < i ==> v@[j] != idx,
        decreases v@.len() - i,
    {
        if v[i] == idx {
            proof {
                assert(v@[i as int] == idx);
            }
            return true;
        }
        i = i + 1;
    }
    false
}

/// The reference of a subpass input, made.
fn make_input_ref(e: &ExecAttachments, idx: AttachmentIndex) -> (r: AttachmentRef)
    requires
        input_source(*e, idx) is Some,
    ensures
        r == input_ref(*e, idx),
{
    let src = first_some(
        find_entry(&e.color_attachments, idx),
        first_some(find_entry(&e.color_loads, idx), find_entry(&e.color_stores, idx)),
    );
    let a = src.unwrap();
    let stored = find_entry(&e.color_stores, idx).is_some();
    AttachmentRef { attachment: idx, aspect_mask: a.aspect_mask, layout: attachment_layout(a.aspect_mask, stored, true) }
}

/// The color reference at `idx`, made.
fn make_color_ref(e: &ExecAttachments, inputs: &Vec<AttachmentIndex>, idx: AttachmentIndex) -> (r: AttachmentRef)
    ensures
        r == color_ref(*e, inputs@, idx),
{
    let used = find_entry(&e.color_attachments, idx).is_some() || find_entry(&e.color_clears, idx).is_some()
        || find_entry(&e.color_loads, idx).is_some() || find_entry(&e.color_stores, idx).is_some();
    AttachmentRef {
        attachment: if used { idx } else { ATTACHMENT_UNUSED },
        aspect_mask: ASPECT_COLOR,
        layout: attachment_layout(ASPECT_COLOR, true, contains_index(inputs, idx)),
    }
}

/// The destination of the last color resolve from `src`, computed.
fn find_resolve_from(sources: &Vec<(AttachmentIndex, AttachmentIndex)>, src: AttachmentIndex) -> (r: Option<AttachmentIndex>)
    ensures
        r == last_resolve_from(sources@, src),
{
    let mut k: usize = sources.len();
    proof {
        assert(sources@.take(k as int) == sources@);
    }
    while k > 0
        invariant
            k <= sources@.len(),
            last_resolve_from(sources@, src) == last_resolve_from(sources@.take(k as int), src),
        decreases k,
    {
        proof {
            assert(sources@.take(k as int).drop_last() == sources@.take(k - 1));
            assert(sources@.take(k as int).last() == sources@[k - 1]);
        }
        if sources[k - 1].1 == src {
            return Some(sources[k - 1].0);
        }
        k = k - 1;
    }
    proof {
        assert(sources@.take(0).len() == 0);
    }
    None
}

/// The resolve reference at source index `src`, made.
fn make_resolve_ref(e: &ExecAttachments, sub: &SubpassExec, src: AttachmentIndex) -> (r: AttachmentRef)
    requires
        forall|i: int| 0 <= i < sub.resolve_sources@.len()
            ==> entry_of(e.color_resolves@, (#[trigger] sub.resolve_sources@[i]).0) is Some,
    ensures
        r == resolve_ref(*e, sub@, src),
{
    match find_resolve_from(&sub.resolve_sources, src) {
        None => AttachmentRef { attachment: ATTACHMENT_UNUSED, aspect_mask: 0, layout: LAYOUT_UNDEFINED },
        Some(dst) => {
            proof {
                lemma_last_resolve_from_is_listed(sub.resolve_sources@, src);
            }
            let a = find_entry(&e.color_resolves, dst).unwrap();
            AttachmentRef {
                attachment: dst,
                aspect_mask: a.aspect_mask,
                layout: attachment_layout(a.aspect_mask, true, contains_index(&sub.input_attachments, dst)),
            }
        },
    }
}

/// The destination of the last resolve from a source is one of the listed destinations.
proof fn lemma_last_resolve_from_is_listed(sources: Seq<(AttachmentIndex, AttachmentIndex)>, src: AttachmentIndex)
    ensures
        last_resolve_from(sources, src) matches Some(dst) ==> exists|i: int| 0 <= i < sources.len() && (#[trigger] sources[i]).0 == dst,
    decreases sources.len(),
{
    if sources.len() > 0 && sources.last().1 != src {
        lemma_last_resolve_from_is_listed(sources.drop_last(), src);
        if last_resolve_from(sources, src) is Some {
            let dst = last_resolve_from(sources, src).unwrap();
            let i = choose|i: int| 0 <= i < sources.drop_last().len() && (#[trigger] sources.drop_last()[i]).0 == dst;
            assert(sources[i] == sources.drop_last()[i]);
        }
    } else if sources.len() > 0 {
        assert(sources[sources.len() - 1] == sources.last());
    }
}

/// The depth/stencil reference, made.
fn make_depth_ref(e: &ExecAttachments, colors: u32) -> (r: Option<AttachmentRef>)
    ensures
        r == depth_ref(*e, colors as nat),
{
    let ds = first_some(
        e.depth_stencil_attachment,
        first_some(e.depth_stencil_load, first_some(e.depth_stencil_store, e.depth_stencil_clear)),
    );
    match ds {
        None => None,
        Some(a) => {
            let random = e.depth_stencil_clear.is_some() || e.depth_stencil_load.is_some()
                || e.depth_stencil_store.is_some();
            Some(AttachmentRef {
                attachment: colors,
                aspect_mask: a.aspect_mask,
                layout: attachment_layout(a.aspect_mask, random, false),
            })
        },
    }
}

/// The depth/stencil resolve reference, made.
fn make_depth_resolve_ref(e: &ExecAttachments, sub: &SubpassExec) -> (r: Option<(AttachmentRef, i32, i32)>)
    requires
        (sub.depth_stencil_resolve is Some) == (e.depth_stencil_resolve is Some),
        sub.depth_stencil_resolve matches Some((dst, _, _)) ==> dst < u32::MAX,
    ensures
        r == depth_resolve_ref(*e, sub@),
{
    match sub.depth_stencil_resolve {
        None => None,
        Some((dst, depth_mode, stencil_mode)) => {
            let a = e.depth_stencil_resolve.unwrap();
            Some((
                AttachmentRef {
                    attachment: dst + 1,
                    aspect_mask: a.aspect_mask,
                    layout: attachment_layout(a.aspect_mask, true, false),
                },
                depth_mode,
                stencil_mode,
            ))
        },
    }
}

/// Whether no execution from `lo` up to before `hi` stores the color attachment at `idx`,
/// computed.
fn none_stores(execs: &Vec<ExecAttachments>, lo: usize, hi: usize, idx: AttachmentIndex) -> (r: bool)
    requires
        lo <= hi <= execs@.len(),
    ensures
        r == not_stored_between(execs@, lo as int, hi as int, idx),
{
    let mut q = lo;
    while q < hi
        invariant
            lo <= q <= hi <= execs@.len(),
            not_stored_between(execs@, lo as int, q as int, idx),
        decreases hi - q,
    {
        if find_entry(&execs[q].color_stores, idx).is_some() {
            return false;
        }
        q = q + 1;
    }
    true
}

/// The inputs of execution `e` which subpass `p` preserves, computed.
fn make_preserved_inputs(execs: &Vec<ExecAttachments>, inputs: &Vec<AttachmentIndex>, p: usize, e: usize) -> (r: Vec<AttachmentIndex>)
    requires
        p < e < execs@.len(),
    ensures
        r@ == preserved_inputs(execs@, inputs@, p as int, e as int),
{
    let mut r: Vec<AttachmentIndex> = Vec::new();
    if p + 1 >= e {
        proof {
            assert(preserved_inputs(execs@, inputs@, p as int, e as int) == Seq::<AttachmentIndex>::empty());
        }
        return r;
    }
    let mut i: usize = 0;
    while i < inputs.len()
        invariant
            p + 1 < e < execs@.len(),
            i <= inputs@.len(),
            r@ == preserved_inputs(execs@, inputs@.take(i as int), p as int, e as int),
        decreases inputs@.len() - i,
    {
        proof {
            assert(inputs@.take(i + 1).drop_last() == inputs@.take(i as int));
            assert(inputs@.take(i + 1).last() == inputs@[i as int]);
        }
        if none_stores(execs, p, e - 1, inputs[i]) {
            r.push(inputs[i]);
        }
        i = i + 1;
    }
    proof {
        assert(inputs@.take(inputs@.len() as int) == inputs@);
    }
    r
}

/// The attachments subpass `p` preserves, computed.
fn make_preserved(execs: &Vec<ExecAttachments>, subs: &Vec<SubpassExec>, p: usize) -> (r: Vec<AttachmentIndex>)
    requires
        subs@.len() == execs@.len(),
        p < execs@.len(),
    ensures
        r@ == preserved_from(execs@, sub_views(subs@), p as int, p + 1),
{
    let ghost views = sub_views(subs@);
    let mut r: Vec<AttachmentIndex> = Vec::new();
    let n = execs.len();
    let mut e = p + 1;
    while e < execs.len()
        invariant
            subs@.len() == execs@.len(),
            views == sub_views(subs@),
            p < e <= execs@.len(),
            r@ + preserved_from(execs@, views, p as int, e as int) == preserved_from(execs@, views, p as int, p + 1),
        decreases execs@.len() - e,
    {
        let part = make_preserved_inputs(execs, &subs[e].input_attachments, p, e);
        proof {
            assert(views[e as int] == subs@[e as int]@);
            let rest = preserved_from(execs@, views, p as int, e + 1);
            assert(preserved_from(execs@, views, p as int, e as int) == part@ + rest);
            assert(r@ + part@ + rest =~= r@ + (part@ + rest));
        }
        let mut part = part;
        r.append(&mut part);
        e = e + 1;
    }
    proof {
        assert(preserved_from(execs@, views, p as int, e as int) == Seq::<AttachmentIndex>::empty());
        assert(r@ + Seq::<AttachmentIndex>::empty() =~= r@);
    }
    r
}

/// Describes the subpasses of the render pass of a pass, one for each execution, from the
/// executions and what each subpass takes from its execution's pipeline and resolves.
///
/// Each subpass refers to its subpass inputs; to every color attachment index of the render
/// pass, unused where its execution does not attach, clear, load or store it; to the resolve
/// destination of every color attachment index it resolves from; to the depth/stencil
/// attachment, which follows the color attachments, where its execution uses one; to the
/// depth/stencil resolve destination; and it preserves, for each later subpass but the next,
/// the inputs of that subpass which no execution from it up to the one before that subpass
/// stores.
pub fn render_pass_subpasses(execs: &Vec<ExecAttachments>, subs: &Vec<SubpassExec>) -> (r: Vec<SubpassDesc>)
    requires
        subpasses_wf(execs@, sub_views(subs@)),
    ensures
        r@.len() == execs@.len(),
        forall|k: int| 0 <= k < execs@.len() ==> (#[trigger] r@[k])@ == subpass_view(execs@, sub_views(subs@), k),
{
    let ghost views = sub_views(subs@);
    let (colors, _) = counts_of(execs);
    let mut r: Vec<SubpassDesc> = Vec::new();
    let mut k: usize = 0;
    while k < execs.len()
        invariant
            views == sub_views(subs@),
            subpasses_wf(execs@, views),
            colors == color_count(execs@),
            k <= execs@.len(),
            r@.len() == k,
            forall|j: int| 0 <= j < k ==> (#[trigger] r@[j])@ == subpass_view(execs@, views, j),
        decreases execs@.len() - k,
    {
        let e = &execs[k];
        let sub = &subs[k];
        proof {
            assert(views[k as int] == sub@);
        }
        // Subpass inputs.
        let mut inputs: Vec<AttachmentRef> = Vec::new();
        let mut i: usize = 0;
        while i < sub.input_attachments.len()
            invariant
                views == sub_views(subs@),
                subpasses_wf(execs@, views),
                k < execs@.len(),
                *e == execs@[k as int],
                *sub == subs@[k as int],
                views[k as int] == sub@,
                i <= sub.input_attachments@.len(),
                inputs@ == sub.input_attachments@.take(i as int).map_values(|idx: AttachmentIndex| input_ref(*e, idx)),
            decreases sub.input_attachments@.len() - i,
        {
            proof {
                assert(sub.input_attachments@[i as int] == views[k as int].input_attachments[i as int]);
            }
            inputs.push(make_input_ref(e, sub.input_attachments[i]));
            proof {
                assert(sub.input_attachments@.take(i + 1) == sub.input_attachments@.take(i as int).push(sub.input_attachments@[i as int]));
            }
            i = i + 1;
        }
        proof {
            assert(sub.input_attachments@.take(sub.input_attachments@.len() as int) == sub.input_attachments@);
        }
        // Color attachments and their resolves.
        let mut color_refs: Vec<AttachmentRef> = Vec::new();
        let mut resolve_refs: Vec<AttachmentRef> = Vec::new();
        let mut j: u32 = 0;
        while j < colors
            invariant
                views == sub_views(subs@),
                subpasses_wf(execs@, views),
                k < execs@.len(),
                *e == execs@[k as int],
                *sub == subs@[k as int],
                views[k as int] == sub@,
                j <= colors,
                color_refs@ == Seq::new(j as nat, |x: int| color_ref(*e, sub.input_attachments@, x as AttachmentIndex)),
                resolve_refs@ == Seq::new(j as nat, |x: int| resolve_ref(*e, sub@, x as AttachmentIndex)),
            decreases colors - j,
        {
            color_refs.push(make_color_ref(e, &sub.input_attachments, j));
            proof {
                assert forall|i: int| 0 <= i < sub.resolve_sources@.len()
                    implies entry_of(e.color_resolves@, (#[trigger] sub.resolve_sources@[i]).0) is Some by {
                    assert(sub.resolve_sources@[i] == views[k as int].resolve_sources[i]);
                }
            }
            resolve_refs.push(make_resolve_ref(e, sub, j));
            proof {
                assert(color_refs@ =~= Seq::new((j + 1) as nat, |x: int| color_ref(*e, sub.input_attachments@, x as AttachmentIndex)));
                assert(resolve_refs@ =~= Seq::new((j + 1) as nat, |x: int| resolve_ref(*e, sub@, x as AttachmentIndex)));
            }
            j = j + 1;
        }
        let depth = make_depth_ref(e, colors);
        let depth_resolve = make_depth_resolve_ref(e, sub);
        let preserve = make_preserved(execs, subs, k);
        let desc = SubpassDesc {
            input_attachments: inputs,
            color_attachments: color_refs,
            color_resolve_attachments: resolve_refs,
            depth_stencil_attachment: depth,
            depth_stencil_resolve_attachment: depth_resolve,
            preserve_attachments: preserve,
            view_mask: e.view_mask,
            correlated_view_mask: sub.correlated_view_mask,
        };
        proof {
            assert(desc@ == subpass_view(execs@, views, k as int));
        }
        r.push(desc);
        k = k + 1;
    }
    r
}


/// The description of a render pass: its attachments and its subpasses.
pub struct RenderPassModel {
    /// The attachments, color ones first.
    pub attachments: Vec<AttachmentDesc>,
    /// One subpass for each execution.
    pub subpasses: Vec<SubpassDesc>,
}

/// Describes the render pass of a pass from its executions: its attachments, as
/// `render_pass_attachments` gives them, and its subpasses, as `render_pass_subpasses` gives
/// them.
pub fn render_pass_info(execs: &Vec<ExecAttachments>, subs: &Vec<SubpassExec>) -> (r: RenderPassModel)
    requires
        subpasses_wf(execs@, sub_views(subs@)),
    ensures
        r.attachments@.len() == color_count(execs@) + depth_count(execs@),
        forall|i: int| 0 <= i < color_count(execs@) ==> #[trigger] r.attachments@[i] == color_desc(execs@, i as AttachmentIndex),
        depth_count(execs@) >= 1 ==> r.attachments@[color_count(execs@) as int] == depth_desc(execs@),
        depth_count(execs@) == 2 ==> r.attachments@[color_count(execs@) + 1int] == depth_resolve_desc(execs@),
        r.subpasses@.len() == execs@.len(),
        forall|k: int| 0 <= k < execs@.len() ==> (#[trigger] r.subpasses@[k])@ == subpass_view(execs@, sub_views(subs@), k),
{
    let attachments = render_pass_attachments(execs);
    let subpasses = render_pass_subpasses(execs, subs);
    RenderPassModel { attachments, subpasses }
}

} // verus!
