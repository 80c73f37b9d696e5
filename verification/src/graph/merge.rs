//! Merging scheduled passes which can share one render pass.
use vstd::prelude::*;
use super::attachment::{compatible, Attachment, AttachmentIndex};
use crate::text::{chars_of, string_of};

verus! {

/// The state of a graphic pipeline that decides whether two passes can share a render pass.
#[derive(Clone, Copy, Debug, PartialEq, Eq, Structural)]
pub struct GraphicMode {
    /// Identifies the blend mode: equal blend modes have equal keys.
    pub blend: u64,
    /// The raw value of the cull mode flags.
    pub cull_mode: u32,
    /// The raw value of the front face winding.
    pub front_face: i32,
    /// The raw value of the polygon mode.
    pub polygon_mode: i32,
    /// The number of samples per pixel.
    pub samples: u32,
    /// Whether the pipeline reads subpass input attachments.
    pub has_input_attachments: bool,
}

/// The attachments of one execution of a pass, each color attachment with its index.
pub struct ExecAttachments {
    /// The multiview mask of the execution.
    pub view_mask: u32,
    /// Color attachments which are attached.
    pub color_attachments: Vec<(AttachmentIndex, Attachment)>,
    /// Color attachments which are loaded.
    pub color_loads: Vec<(AttachmentIndex, Attachment)>,
    /// Color attachments which are stored.
    pub color_stores: Vec<(AttachmentIndex, Attachment)>,
    /// Color attachments which are cleared.
    pub color_clears: Vec<(AttachmentIndex, Attachment)>,
    /// Color attachments which are resolved.
    pub color_resolves: Vec<(AttachmentIndex, Attachment)>,
    /// The depth/stencil attachment which is attached.
    pub depth_stencil_attachment: Option<Attachment>,
    /// The depth/stencil attachment which is loaded.
    pub depth_stencil_load: Option<Attachment>,
    /// The depth/stencil attachment which is stored.
    pub depth_stencil_store: Option<Attachment>,
    /// The depth/stencil attachment which is resolved.
    pub depth_stencil_resolve: Option<Attachment>,
    /// The depth/stencil attachment which is cleared.
    pub depth_stencil_clear: Option<Attachment>,
}

/// What the merging of passes reads of a pass: the graphic pipeline of its first execution,
/// if that execution is graphic, and the attachments of all its executions.
pub struct MergePass {
    /// The graphic pipeline of the first execution, if it has one.
    pub pipeline: Option<GraphicMode>,
    /// The executions of the pass, in order.
    pub execs: Vec<ExecAttachments>,
}

/// A pass with a graphic pipeline has a first execution.
pub open spec fn merge_pass_wf(p: MergePass) -> bool {
    p.pipeline is Some ==> p.execs@.len() > 0
}

/// The attachment of the first entry with the index.
pub open spec fn entry_of(entries: Seq<(AttachmentIndex, Attachment)>, idx: AttachmentIndex) -> Option<Attachment>
    decreases entries.len(),
{
    if entries.len() == 0 {
        None
    } else if entries[0].0 == idx {
        Some(entries[0].1)
    } else {
        entry_of(entries.drop_first(), idx)
    }
}

/// The first of two optional attachments which is present.
pub open spec fn or_else(a: Option<Attachment>, b: Option<Attachment>) -> Option<Attachment> {
    if a is Some {
        a
    } else {
        b
    }
}

/// The color attachment of an execution at the index: attached, else loaded, else stored, else
/// cleared, else resolved.
pub open spec fn color_at(e: ExecAttachments, idx: AttachmentIndex) -> Option<Attachment> {
    or_else(
        entry_of(e.color_attachments@, idx),
        or_else(
            entry_of(e.color_loads@, idx),
            or_else(
                entry_of(e.color_stores@, idx),
                or_else(entry_of(e.color_clears@, idx), entry_of(e.color_resolves@, idx)),
            ),
        ),
    )
}

/// Every color attachment entry of an execution.
pub open spec fn color_entries(e: ExecAttachments) -> Seq<(AttachmentIndex, Attachment)> {
    e.color_attachments@ + e.color_loads@ + e.color_stores@ + e.color_clears@ + e.color_resolves@
}

/// The depth/stencil attachment of an execution: attached, else loaded, else stored, else
/// resolved, else cleared.
pub open spec fn depth_stencil_of(e: ExecAttachments) -> Option<Attachment> {
    or_else(
        e.depth_stencil_attachment,
        or_else(
            e.depth_stencil_load,
            or_else(e.depth_stencil_store, or_else(e.depth_stencil_resolve, e.depth_stencil_clear)),
        ),
    )
}

/// Whether an execution of an earlier pass can share a render pass with the first execution
/// of a later one: both or neither are multiview, and their color and depth/stencil
/// attachments are compatible.
pub open spec fn exec_compatible(l: ExecAttachments, r: ExecAttachments) -> bool {
    &&& (l.view_mask != 0) == (r.view_mask != 0)
    &&& forall|k: int|
        0 <= k < color_entries(l).len() ==> #[trigger] compatible(
            Some(color_entries(l)[k].1),
            color_at(r, color_entries(l)[k].0),
        )
    &&& compatible(depth_stencil_of(l), depth_stencil_of(r))
}

/// Whether two graphic pipelines rasterize alike.
pub open spec fn same_raster(l: GraphicMode, r: GraphicMode) -> bool {
    &&& l.blend == r.blend
    &&& l.cull_mode == r.cull_mode
    &&& l.front_face == r.front_face
    &&& l.polygon_mode == r.polygon_mode
    &&& l.samples == r.samples
}

/// Whether the later pass `rhs` may be merged into the earlier pass `lhs`: both are graphic and
/// rasterize alike, every execution of `lhs` is compatible with the first execution of `rhs`,
/// and merging keeps something on tile (a color attachment of `lhs`, a depth/stencil attachment
/// of both, or a subpass input of `rhs`).
pub open spec fn may_merge(lhs: MergePass, rhs: MergePass) -> bool {
    match (lhs.pipeline, rhs.pipeline) {
        (Some(lp), Some(rp)) => {
            let first = rhs.execs@[0];
            &&& same_raster(lp, rp)
            &&& forall|i: int| 0 <= i < lhs.execs@.len() ==> #[trigger] exec_compatible(lhs.execs@[i], first)
            &&& {
                ||| exists|i: int|
                    0 <= i < lhs.execs@.len() && #[trigger] color_entries(lhs.execs@[i]).len() > 0
                ||| exists|i: int|
                    0 <= i < lhs.execs@.len() && #[trigger] depth_stencil_of(lhs.execs@[i]) is Some
                        && depth_stencil_of(first) is Some
                ||| rp.has_input_attachments
            }
        },
        _ => false,
    }
}

/// The attachment of the first entry with the index.
pub(crate) fn find_entry(entries: &Vec<(AttachmentIndex, Attachment)>, idx: AttachmentIndex) -> (r: Option<Attachment>)
    ensures
        r == entry_of(entries@, idx),
{
    let mut i: usize = 0;
    assert(entries@.skip(0) == entries@);
    while i < entries.len()
        invariant
            i <= entries@.len(),
            entry_of(entries@, idx) == entry_of(entries@.skip(i as int), idx),
        decreases entries@.len() - i,
    {
        let ghost rest = entries@.skip(i as int);
        assert(rest[0] == entries@[i as int]);
        if entries[i].0 == idx {
            return Some(entries[i].1);
        }
        assert(rest.drop_first() == entries@.skip(i + 1));
        i = i + 1;
    }
    assert(entries@.skip(i as int).len() == 0);
    None
}

/// The first of two optional attachments which is present.
pub(crate) fn first_some(a: Option<Attachment>, b: Option<Attachment>) -> (r: Option<Attachment>)
    ensures
        r == or_else(a, b),
{
    if a.is_some() {
        a
    } else {
        b
    }
}

/// The color attachment of the execution at the index.
fn color_attachment_at(e: &ExecAttachments, idx: AttachmentIndex) -> (r: Option<Attachment>)
    ensures
        r == color_at(*e, idx),
{
    let resolve = find_entry(&e.color_resolves, idx);
    let clear = first_some(find_entry(&e.color_clears, idx), resolve);
    let store = first_some(find_entry(&e.color_stores, idx), clear);
    let load = first_some(find_entry(&e.color_loads, idx), store);
    first_some(find_entry(&e.color_attachments, idx), load)
}

/// The depth/stencil attachment of the execution.
fn depth_stencil_attachment_of(e: &ExecAttachments) -> (r: Option<Attachment>)
    ensures
        r == depth_stencil_of(*e),
{
    let clear = first_some(e.depth_stencil_resolve, e.depth_stencil_clear);
    let store = first_some(e.depth_stencil_store, clear);
    let load = first_some(e.depth_stencil_load, store);
    first_some(e.depth_stencil_attachment, load)
}

/// Whether every entry is compatible with the color attachment of `r` at its index.
fn entries_compatible(entries: &Vec<(AttachmentIndex, Attachment)>, r: &ExecAttachments) -> (ok: bool)
    ensures
        ok == forall|k: int|
            0 <= k < entries@.len() ==> #[trigger] compatible(
                Some(entries@[k].1),
                color_at(*r, entries@[k].0),
            ),
{
    let mut i: usize = 0;
    while i < entries.len()
        invariant
            i <= entries@.len(),
            forall|k: int|
                0 <= k < i ==> #[trigger] compatible(Some(entries@[k].1), color_at(*r, entries@[k].0)),
        decreases entries@.len() - i,
    {
        let (idx, att) = entries[i];
        let other = color_attachment_at(r, idx);
        if !Attachment::are_compatible(Some(att), other) {
            return false;
        }
        i = i + 1;
    }
    true
}

/// Whether an execution of an earlier pass is compatible with the first execution of a later
/// one.
fn exec_is_compatible(l: &ExecAttachments, r: &ExecAttachments) -> (ok: bool)
    ensures
        ok == exec_compatible(*l, *r),
{
    let ghost all = color_entries(*l);
    let ghost a = l.color_attachments@;
    let ghost b = l.color_loads@;
    let ghost c = l.color_stores@;
    let ghost d = l.color_clears@;
    let ghost e = l.color_resolves@;
    assert(all == a + b + c + d + e);
    let ghost f = |s: Seq<(AttachmentIndex, Attachment)>|
        forall|k: int| 0 <= k < s.len() ==> #[trigger] compatible(Some(s[k].1), color_at(*r, s[k].0));
    let ok = (l.view_mask != 0) == (r.view_mask != 0) && entries_compatible(&l.color_attachments, r)
        && entries_compatible(&l.color_loads, r) && entries_compatible(&l.color_stores, r)
        && entries_compatible(&l.color_clears, r) && entries_compatible(&l.color_resolves, r)
        && Attachment::are_compatible(depth_stencil_attachment_of(l), depth_stencil_attachment_of(r));
    proof {
        if f(a) && f(b) && f(c) && f(d) && f(e) {
            assert forall|k: int| 0 <= k < all.len() implies #[trigger] compatible(
                Some(all[k].1),
                color_at(*r, all[k].0),
            ) by {
                if k < a.len() {
                    assert(all[k] == a[k]);
                } else if k < a.len() + b.len() {
                    assert(all[k] == b[k - a.len()]);
                } else if k < a.len() + b.len() + c.len() {
                    assert(all[k] == c[k - a.len() - b.len()]);
                } else if k < a.len() + b.len() + c.len() + d.len() {
                    assert(all[k] == d[k - a.len() - b.len() - c.len()]);
                } else {
                    assert(all[k] == e[k - a.len() - b.len() - c.len() - d.len()]);
                }
            }
        }
        if (l.view_mask != 0) == (r.view_mask != 0) && f(all) {
            assert forall|k: int| 0 <= k < a.len() implies #[trigger] compatible(Some(a[k].1), color_at(*r, a[k].0)) by {
                assert(all[k] == a[k]);
            }
            assert forall|k: int| 0 <= k < b.len() implies #[trigger] compatible(Some(b[k].1), color_at(*r, b[k].0)) by {
                assert(all[a.len() + k] == b[k]);
            }
            assert forall|k: int| 0 <= k < c.len() implies #[trigger] compatible(Some(c[k].1), color_at(*r, c[k].0)) by {
                assert(all[a.len() + b.len() + k] == c[k]);
            }
            assert forall|k: int| 0 <= k < d.len() implies #[trigger] compatible(Some(d[k].1), color_at(*r, d[k].0)) by {
                assert(all[a.len() + b.len() + c.len() + k] == d[k]);
            }
            assert forall|k: int| 0 <= k < e.len() implies #[trigger] compatible(Some(e[k].1), color_at(*r, e[k].0)) by {
                assert(all[a.len() + b.len() + c.len() + d.len() + k] == e[k]);
            }
        }
    }
    ok
}

/// Whether the execution has any color attachment entry.
fn has_color_entries(e: &ExecAttachments) -> (r: bool)
    ensures
        r == (color_entries(*e).len() > 0),
{
    e.color_attachments.len() > 0 || e.color_loads.len() > 0 || e.color_stores.len() > 0
        || e.color_clears.len() > 0 || e.color_resolves.len() > 0
}

/// Decides whether the later pass `rhs` may be merged into the earlier pass `lhs`, so that both
/// share one render pass.
pub fn allow_merge_passes(lhs: &MergePass, rhs: &MergePass) -> (r: bool)
    requires
        merge_pass_wf(*lhs),
        merge_pass_wf(*rhs),
    ensures
        r == may_merge(*lhs, *rhs),
{
    let lp = match lhs.pipeline {
        Some(p) => p,
        None => return false,
    };
    let rp = match rhs.pipeline {
        Some(p) => p,
        None => return false,
    };
    if lp.blend != rp.blend || lp.cull_mode != rp.cull_mode || lp.front_face != rp.front_face
        || lp.polygon_mode != rp.polygon_mode || lp.samples != rp.samples {
        return false;
    }
    let first = &rhs.execs[0];
    let rhs_depth_stencil = depth_stencil_attachment_of(first);
    let mut common_color = false;
    let mut common_depth = false;
    let mut i: usize = lhs.execs.len();
    while i > 0
        invariant
            i <= lhs.execs@.len(),
            *first == rhs.execs@[0],
            rhs_depth_stencil == depth_stencil_of(*first),
            forall|j: int| i <= j < lhs.execs@.len() ==> #[trigger] exec_compatible(lhs.execs@[j], *first),
            common_color == exists|j: int|
                i <= j < lhs.execs@.len() && #[trigger] color_entries(lhs.execs@[j]).len() > 0,
            common_depth == exists|j: int|
                i <= j < lhs.execs@.len() && #[trigger] depth_stencil_of(lhs.execs@[j]) is Some
                    && depth_stencil_of(*first) is Some,
        decreases i,
    {
        i = i - 1;
        let e = &lhs.execs[i];
        if !exec_is_compatible(e, first) {
            return false;
        }
        if has_color_entries(e) {
            common_color = true;
        }
        if depth_stencil_attachment_of(e).is_some() && rhs_depth_stencil.is_some() {
            common_depth = true;
        }
        proof {
            if color_entries(*e).len() > 0 {
                assert(color_entries(lhs.execs@[i as int]).len() > 0);
            }
            if depth_stencil_of(*e) is Some && depth_stencil_of(*first) is Some {
                assert(depth_stencil_of(lhs.execs@[i as int]) is Some);
            }
        }
    }
    common_color || common_depth || rp.has_input_attachments
}

/// Only graphic passes whose pipelines rasterize alike may share a render pass: where a pass may
/// be merged into another, both have graphic pipelines, and their blend modes, cull modes, front
/// faces, polygon modes and sample counts are the same. Each one that differs rules the merge
/// out.
pub proof fn lemma_merge_needs_same_rasterization(lhs: MergePass, rhs: MergePass)
    ensures
        may_merge(lhs, rhs) ==> {
            &&& lhs.pipeline is Some
            &&& rhs.pipeline is Some
            &&& lhs.pipeline.unwrap().blend == rhs.pipeline.unwrap().blend
            &&& lhs.pipeline.unwrap().cull_mode == rhs.pipeline.unwrap().cull_mode
            &&& lhs.pipeline.unwrap().front_face == rhs.pipeline.unwrap().front_face
            &&& lhs.pipeline.unwrap().polygon_mode == rhs.pipeline.unwrap().polygon_mode
            &&& lhs.pipeline.unwrap().samples == rhs.pipeline.unwrap().samples
        },
        lhs.pipeline is None || rhs.pipeline is None ==> !may_merge(lhs, rhs),
{
}

/// Groups consecutive scheduled passes which may be merged into the first pass of their group.
///
/// Each group starts with a pass and takes every following scheduled pass for as long as each
/// may be merged into that first pass.
pub fn merge_scheduled_passes(schedule: &Vec<usize>, passes: &Vec<MergePass>) -> (r: Vec<Vec<usize>>)
    requires
        forall|k: int| 0 <= k < schedule@.len() ==> #[trigger] schedule@[k] < passes@.len(),
        forall|p: int| 0 <= p < passes@.len() ==> merge_pass_wf(#[trigger] passes@[p]),
    ensures
        r@.map_values(|g: Vec<usize>| g@).flatten() == schedule@,
        forall|g: int| 0 <= g < r@.len() ==> #[trigger] r@[g]@.len() > 0,
        forall|g: int, k: int|
            0 <= g < r@.len() && 1 <= k < r@[g]@.len() ==> may_merge(
                passes@[r@[g]@[0] as int],
                passes@[#[trigger] r@[g]@[k] as int],
            ),
        forall|g: int|
            0 <= g < r@.len() - 1 ==> !may_merge(
                passes@[r@[g]@[0] as int],
                passes@[#[trigger] r@[g + 1]@[0] as int],
            ),
{
    let mut r: Vec<Vec<usize>> = Vec::new();
    let mut idx: usize = 0;
    while idx < schedule.len()
        invariant
            forall|k: int| 0 <= k < schedule@.len() ==> #[trigger] schedule@[k] < passes@.len(),
            forall|p: int| 0 <= p < passes@.len() ==> merge_pass_wf(#[trigger] passes@[p]),
            idx <= schedule@.len(),
            r@.map_values(|g: Vec<usize>| g@).flatten() == schedule@.take(idx as int),
            forall|g: int| 0 <= g < r@.len() ==> #[trigger] r@[g]@.len() > 0,
            forall|g: int, k: int|
                0 <= g < r@.len() && 1 <= k < r@[g]@.len() ==> may_merge(
                    passes@[r@[g]@[0] as int],
                    passes@[#[trigger] r@[g]@[k] as int],
                ),
            forall|g: int|
                0 <= g < r@.len() - 1 ==> !may_merge(
                    passes@[r@[g]@[0] as int],
                    passes@[#[trigger] r@[g + 1]@[0] as int],
                ),
            r@.len() > 0 && idx < schedule@.len() ==> !may_merge(
                passes@[r@[r@.len() - 1]@[0] as int],
                passes@[schedule@[idx as int] as int],
            ),
        decreases schedule@.len() - idx,
    {
        let first = schedule[idx];
        let mut group: Vec<usize> = Vec::new();
        group.push(first);
        let mut end = idx + 1;
        while end < schedule.len()
            invariant
                forall|k: int| 0 <= k < schedule@.len() ==> #[trigger] schedule@[k] < passes@.len(),
                forall|p: int| 0 <= p < passes@.len() ==> merge_pass_wf(#[trigger] passes@[p]),
                idx < end <= schedule@.len(),
                first == schedule@[idx as int],
                group@ == schedule@.subrange(idx as int, end as int),
                forall|k: int| 1 <= k < group@.len() ==> may_merge(passes@[first as int], passes@[#[trigger] group@[k] as int]),
            ensures
                idx < end <= schedule@.len(),
                group@ == schedule@.subrange(idx as int, end as int),
                forall|k: int| 1 <= k < group@.len() ==> may_merge(passes@[first as int], passes@[#[trigger] group@[k] as int]),
                end < schedule@.len() ==> !may_merge(passes@[first as int], passes@[schedule@[end as int] as int]),
            decreases schedule@.len() - end,
        {
            let other = schedule[end];
            if !allow_merge_passes(&passes[first], &passes[other]) {
                break;
            }
            group.push(other);
            end = end + 1;
        }
        let ghost rb = r@;
        let ghost gv = group@;
        r.push(group);
        proof {
            let f = |g: Vec<usize>| g@;
            assert(r@.map_values(f) == rb.map_values(f).push(gv));
            rb.map_values(f).lemma_flatten_push(gv);
            assert(schedule@.take(end as int) == schedule@.take(idx as int) + schedule@.subrange(idx as int, end as int));
            assert forall|g: int| 0 <= g < r@.len() - 1 implies !may_merge(
                passes@[r@[g]@[0] as int],
                passes@[#[trigger] r@[g + 1]@[0] as int],
            ) by {
                if g == r@.len() - 2 {
                    assert(r@[g + 1]@[0] == schedule@[idx as int]);
                }
            }
            assert forall|g: int, k: int| 0 <= g < r@.len() && 1 <= k < r@[g]@.len() implies may_merge(
                passes@[r@[g]@[0] as int],
                passes@[#[trigger] r@[g]@[k] as int],
            ) by {
                if g == r@.len() - 1 {
                    assert(r@[g]@ == gv);
                }
            }
        }
        idx = end;
    }
    proof {
        assert(schedule@.take(schedule@.len() as int) == schedule@);
    }
    r
}

/// A pass of a render graph: its name and its executions.
pub struct NamedPass<E> {
    /// The name of the pass.
    pub name: String,
    /// The executions of the pass, in order.
    pub execs: Vec<E>,
}

/// The names of the passes.
pub open spec fn pass_names<E>(passes: Seq<NamedPass<E>>) -> Seq<Seq<char>> {
    passes.map_values(|p: NamedPass<E>| p.name@)
}

/// The text of each name.
pub open spec fn name_views(names: Seq<String>) -> Seq<Seq<char>> {
    names.map_values(|s: String| s@)
}

/// The name of a merged group: the names of its passes joined by `" + "`.
pub open spec fn joined_name(names: Seq<Seq<char>>, group: Seq<usize>) -> Seq<char>
    decreases group.len(),
{
    if group.len() <= 1 {
        if group.len() == 1 { names[group[0] as int] } else { seq![] }
    } else {
        joined_name(names, group.drop_last()) + seq![' ', '+', ' '] + names[group.last() as int]
    }
}

/// The executions of a merged group: those of its passes, one pass after the other.
pub open spec fn joined_execs<E>(passes: Seq<NamedPass<E>>, group: Seq<usize>) -> Seq<E>
    decreases group.len(),
{
    if group.len() == 0 {
        seq![]
    } else {
        joined_execs(passes, group.drop_last()) + passes[group.last() as int].execs@
    }
}

/// The passes below `n` that the schedule leaves out, in order.
pub open spec fn unscheduled_passes(n: int, schedule: Seq<usize>) -> Seq<usize>
    decreases n,
{
    if n <= 0 {
        seq![]
    } else if schedule.contains((n - 1) as usize) {
        unscheduled_passes(n - 1, schedule)
    } else {
        unscheduled_passes(n - 1, schedule).push((n - 1) as usize)
    }
}

/// The passes below `n` that the schedule leaves out are listed, and only they.
pub proof fn lemma_unscheduled_passes(n: int, schedule: Seq<usize>)
    requires
        0 <= n <= usize::MAX,
    ensures
        forall|k: int| 0 <= k < unscheduled_passes(n, schedule).len() ==> (#[trigger] unscheduled_passes(n, schedule)[k] as int) < n
            && !schedule.contains(unscheduled_passes(n, schedule)[k]),
        forall|x: int| 0 <= x < n && !schedule.contains(x as usize) ==> #[trigger] unscheduled_passes(n, schedule).contains(x as usize),
    decreases n,
{
    if n > 0 {
        lemma_unscheduled_passes(n - 1, schedule);
        let prev = unscheduled_passes(n - 1, schedule);
        let cur = unscheduled_passes(n, schedule);
        if !schedule.contains((n - 1) as usize) {
            assert(cur == prev.push((n - 1) as usize));
            assert forall|x: int| 0 <= x < n && !schedule.contains(x as usize) implies #[trigger] cur.contains(x as usize) by {
                if x == n - 1 {
                    assert(cur[cur.len() - 1] == x as usize);
                } else {
                    assert(prev.contains(x as usize));
                    let k = choose|k: int| 0 <= k < prev.len() && prev[k] == x as usize;
                    assert(cur[k] == x as usize);
                }
            }
            assert forall|k: int| 0 <= k < cur.len() implies (#[trigger] cur[k] as int) < n && !schedule.contains(cur[k]) by {
                if k < prev.len() {
                    assert(cur[k] == prev[k]);
                }
            }
        } else {
            assert(cur == prev);
            assert forall|x: int| 0 <= x < n && !schedule.contains(x as usize) implies #[trigger] cur.contains(x as usize) by {
                assert(x != n - 1);
                assert(prev.contains(x as usize));
            }
        }
    }
}

/// The name of a group, computed.
fn group_name(names: &Vec<String>, group: &Vec<usize>) -> (r: String)
    requires
        group@.len() > 0,
        forall|k: int| 0 <= k < group@.len() ==> (#[trigger] group@[k] as int) < names@.len(),
    ensures
        r@ == joined_name(name_views(names@), group@),
{
    let mut chars: Vec<char> = Vec::new();
    let mut k: usize = 0;
    while k < group.len()
        invariant
            group@.len() > 0,
            forall|j: int| 0 <= j < group@.len() ==> (#[trigger] group@[j] as int) < names@.len(),
            k <= group@.len(),
            chars@ == joined_name(name_views(names@), group@.take(k as int)),
        decreases group@.len() - k,
    {
        let ghost before = chars@;
        if k > 0 {
            chars.push(' ');
            chars.push('+');
            chars.push(' ');
        }
        let part = chars_of(names[group[k]].as_str());
        let mut c: usize = 0;
        let ghost mid = chars@;
        while c < part.len()
            invariant
                c <= part@.len(),
                chars@ == mid + part@.take(c as int),
            decreases part@.len() - c,
        {
            chars.push(part[c]);
            proof {
                assert(part@.take(c as int + 1) == part@.take(c as int).push(part@[c as int]));
            }
            c = c + 1;
        }
        proof {
            assert(part@.take(part@.len() as int) == part@);
            let g = group@.take(k + 1);
            assert(g.drop_last() == group@.take(k as int));
            assert(g.last() == group@[k as int]);
            if k > 0 {
                assert(chars@ == before + seq![' ', '+', ' '] + names@[group@[k as int] as int]@);
                assert(name_views(names@)[group@[k as int] as int] == names@[group@[k as int] as int]@);
            } else {
                assert(name_views(names@)[group@[0] as int] == names@[group@[0] as int]@);
                assert(chars@ =~= names@[group@[0] as int]@);
            }
        }
        k = k + 1;
    }
    proof {
        assert(group@.take(group@.len() as int) == group@);
    }
    string_of(chars.as_slice())
}

/// The scheduled passes of the groups, one group after the other.
pub open spec fn group_passes(groups: Seq<Vec<usize>>) -> Seq<usize> {
    groups.map_values(|g: Vec<usize>| g@).flatten()
}

/// Rearranges the passes of a graph once scheduled passes are merged into groups (as
/// `merge_scheduled_passes` makes them): each group becomes one pass, named by the names of its
/// passes joined by `" + "` and holding their executions one pass after the other. The merged
/// passes come first, in the order of the groups, followed by the passes which no group holds,
/// in their order. The schedule becomes the indexes of the merged passes.
pub fn merge_graph_passes<E>(passes: Vec<NamedPass<E>>, groups: &Vec<Vec<usize>>) -> (r: (Vec<NamedPass<E>>, Vec<usize>))
    requires
        forall|g: int| 0 <= g < groups@.len() ==> #[trigger] groups@[g]@.len() > 0,
        group_passes(groups@).no_duplicates(),
        forall|k: int| 0 <= k < group_passes(groups@).len() ==> (#[trigger] group_passes(groups@)[k] as int) < passes@.len(),
    ensures
        ({
            let rest = unscheduled_passes(passes@.len() as int, group_passes(groups@));
            &&& r.1@ == Seq::new(groups@.len(), |i: int| i as usize)
            &&& r.0@.len() == groups@.len() + rest.len()
            &&& forall|g: int| 0 <= g < groups@.len() ==> {
                &&& (#[trigger] r.0@[g]).name@ == joined_name(pass_names(passes@), groups@[g]@)
                &&& r.0@[g].execs@ == joined_execs(passes@, groups@[g]@)
            }
            &&& forall|k: int| 0 <= k < rest.len() ==> #[trigger] r.0@[groups@.len() + k] == passes@[rest[k] as int]
        }),
{
    let ghost orig = passes@;
    let ghost flat = group_passes(groups@);
    let n = passes.len();
    // The names of the passes.
    let mut names: Vec<String> = Vec::new();
    let mut i: usize = 0;
    while i < n
        invariant
            n == passes@.len(),
            orig == passes@,
            i <= n,
            names@.len() == i,
            forall|k: int| 0 <= k < i ==> #[trigger] names@[k]@ == orig[k].name@,
        decreases n - i,
    {
        names.push(passes[i].name.clone());
        i = i + 1;
    }
    proof {
        assert(name_views(names@) =~= pass_names(orig));
    }
    // Every pass in a slot of its own.
    let mut rest = passes;
    let mut slots: Vec<Option<NamedPass<E>>> = Vec::new();
    while rest.len() > 0
        invariant
            n == orig.len(),
            slots@.len() + rest@.len() == n,
            rest@ == orig.skip(slots@.len() as int),
            forall|k: int| 0 <= k < slots@.len() ==> #[trigger] slots@[k] == Some(orig[k]),
        decreases rest@.len(),
    {
        let ghost before = rest@;
        let pass = rest.remove(0);
        assert(pass == orig[slots@.len() as int]);
        slots.push(Some(pass));
        assert(rest@ == orig.skip(slots@.len() as int));
    }
    // The merged passes.
    let mut out: Vec<NamedPass<E>> = Vec::new();
    let mut schedule: Vec<usize> = Vec::new();
    let mut g: usize = 0;
    let ghost mut done: Seq<usize> = seq![];
    proof {
        assert(groups@.take(0).map_values(|x: Vec<usize>| x@) =~= Seq::<Seq<usize>>::empty());
    }
    while g < groups.len()
        invariant
            n == orig.len() == slots@.len(),
            names@.len() == n,
            name_views(names@) == pass_names(orig),
            flat == group_passes(groups@),
            flat.no_duplicates(),
            forall|k: int| 0 <= k < flat.len() ==> (#[trigger] flat[k] as int) < n,
            forall|h: int| 0 <= h < groups@.len() ==> #[trigger] groups@[h]@.len() > 0,
            g <= groups@.len(),
            done == groups@.take(g as int).map_values(|x: Vec<usize>| x@).flatten(),
            forall|k: int| 0 <= k < n ==> #[trigger] slots@[k] == if done.contains(k as usize) {
                None
            } else {
                Some(orig[k])
            },
            out@.len() == g,
            schedule@ == Seq::new(g as nat, |x: int| x as usize),
            forall|h: int| 0 <= h < g ==> {
                &&& (#[trigger] out@[h]).name@ == joined_name(pass_names(orig), groups@[h]@)
                &&& out@[h].execs@ == joined_execs(orig, groups@[h]@)
            },
        decreases groups@.len() - g,
    {
        let group = &groups[g];
        let ghost gv = group@;
        proof {
            let f = |x: Vec<usize>| x@;
            let all = groups@.map_values(f);
            assert(all.take(g as int) == groups@.take(g as int).map_values(f));
            assert(all == all.take(g as int) + all.skip(g as int));
            vstd::seq_lib::lemma_flatten_concat(all.take(g as int), all.skip(g as int));
            let later = all.skip(g as int);
            assert(later == seq![gv] + later.skip(1));
            vstd::seq_lib::lemma_flatten_concat(seq![gv], later.skip(1));
            assert(seq![gv].flatten() == gv) by {
                seq![gv].lemma_flatten_one_element();
            }
            assert(flat == done + gv + later.skip(1).flatten());
            assert forall|k: int| 0 <= k < gv.len() implies (#[trigger] gv[k] as int) < names@.len() by {
                assert(flat[done.len() + k] == gv[k]);
            }
        }
        let name = group_name(&names, group);
        let mut execs: Vec<E> = Vec::new();
        let mut j: usize = 0;
        let ghost done0 = done;
        while j < group.len()
            invariant
                n == orig.len() == slots@.len(),
                *group == groups@[g as int],
                gv == group@,
                flat.no_duplicates(),
                forall|k: int| 0 <= k < flat.len() ==> (#[trigger] flat[k] as int) < n,
                exists|tail: Seq<usize>| flat == done0 + gv + tail,
                j <= gv.len(),
                done == done0 + gv.take(j as int),
                forall|k: int| 0 <= k < n ==> #[trigger] slots@[k] == if done.contains(k as usize) {
                    None
                } else {
                    Some(orig[k])
                },
                execs@ == joined_execs(orig, gv.take(j as int)),
            decreases gv.len() - j,
        {
            let idx = group[j];
            let ghost tail = choose|tail: Seq<usize>| flat == done0 + gv + tail;
            proof {
                let pos = done0.len() + j;
                assert(flat[pos] == idx);
                assert(idx < n);
                if done.contains(idx) {
                    let m = choose|m: int| 0 <= m < done.len() && done[m] == idx;
                    assert(flat[m] == done[m]);
                    assert(m != pos);
                }
            }
            let ghost sb = slots@;
            let ghost db = done;
            let mut slot: Option<NamedPass<E>> = None;
            std::mem::swap(&mut slot, &mut slots[idx]);
            assert(slots@ == sb.update(idx as int, None));
            let mut pass = match slot {
                Some(pass) => pass,
                None => {
                    proof {
                        assert(false);
                    }
                    NamedPass { name: String::new(), execs: Vec::new() }
                },
            };
            let ghost eb = execs@;
            execs.append(&mut pass.execs);
            proof {
                let t = gv.take(j + 1);
                assert(t.drop_last() == gv.take(j as int));
                assert(t.last() == idx);
                assert(execs@ == joined_execs(orig, t));
                done = done + seq![idx];
                assert(done0 + gv.take(j + 1) == done0 + gv.take(j as int) + seq![idx]);
                assert forall|k: int| 0 <= k < n implies #[trigger] slots@[k] == if done.contains(k as usize) {
                    None
                } else {
                    Some(orig[k])
                } by {
                    let prev = done.drop_last();
                    assert(prev == db);
                    if k == idx as int {
                        assert(done[done.len() - 1] == idx);
                    } else {
                        if done.contains(k as usize) {
                            let m = choose|m: int| 0 <= m < done.len() && done[m] == k as usize;
                            assert(prev[m] == k as usize);
                        }
                        if prev.contains(k as usize) {
                            let m = choose|m: int| 0 <= m < prev.len() && prev[m] == k as usize;
                            assert(done[m] == k as usize);
                        }
                    }
                }
            }
            j = j + 1;
        }
        proof {
            assert(gv.take(gv.len() as int) == gv);
            let f = |x: Vec<usize>| x@;
            assert(groups@.take(g + 1).map_values(f) == groups@.take(g as int).map_values(f).push(gv));
            groups@.take(g as int).map_values(f).lemma_flatten_push(gv);
        }
        out.push(NamedPass { name, execs });
        schedule.push(g);
        proof {
            assert(schedule@ =~= Seq::new((g + 1) as nat, |x: int| x as usize));
        }
        g = g + 1;
    }
    proof {
        assert(groups@.take(groups@.len() as int) == groups@);
        assert(done == flat);
    }
    // The passes which no group holds, in order.
    let mut k: usize = 0;
    while k < n
        invariant
            n == orig.len() == slots@.len(),
            n <= usize::MAX,
            k <= n,
            forall|x: int| k <= x < n ==> #[trigger] slots@[x] == if flat.contains(x as usize) {
                None
            } else {
                Some(orig[x])
            },
            out@.len() == groups@.len() + unscheduled_passes(k as int, flat).len(),
            forall|h: int| 0 <= h < groups@.len() ==> {
                &&& (#[trigger] out@[h]).name@ == joined_name(pass_names(orig), groups@[h]@)
                &&& out@[h].execs@ == joined_execs(orig, groups@[h]@)
            },
            forall|m: int| 0 <= m < unscheduled_passes(k as int, flat).len() ==> #[trigger] out@[groups@.len() + m]
                == orig[unscheduled_passes(k as int, flat)[m] as int],
        decreases n - k,
    {
        let ghost sb = slots@;
        let mut slot: Option<NamedPass<E>> = None;
        std::mem::swap(&mut slot, &mut slots[k]);
        assert(slots@ == sb.update(k as int, None));
        let ghost ob = out@;
        match slot {
            Some(pass) => {
                out.push(pass);
                proof {
                    assert(!flat.contains(k as usize));
                    assert(unscheduled_passes(k + 1, flat) == unscheduled_passes(k as int, flat).push(k as usize));
                    assert forall|h: int| 0 <= h < groups@.len() implies {
                        &&& (#[trigger] out@[h]).name@ == joined_name(pass_names(orig), groups@[h]@)
                        &&& out@[h].execs@ == joined_execs(orig, groups@[h]@)
                    } by {
                        assert(out@[h] == ob[h]);
                    }
                    assert forall|m: int| 0 <= m < unscheduled_passes(k + 1, flat).len() implies #[trigger] out@[groups@.len() + m]
                        == orig[unscheduled_passes(k + 1, flat)[m] as int] by {
                        if m < unscheduled_passes(k as int, flat).len() {
                            assert(out@[groups@.len() + m] == ob[groups@.len() + m]);
                        }
                    }
                }
            },
            None => {
                proof {
                    assert(flat.contains(k as usize));
                    assert(unscheduled_passes(k + 1, flat) == unscheduled_passes(k as int, flat));
                }
            },
        }
        k = k + 1;
    }
    (out, schedule)
}


/// The scheduled passes below `n`, the last first.
pub open spec fn scheduled_desc(n: int, schedule: Seq<usize>) -> Seq<usize>
    decreases n,
{
    if n <= 0 {
        seq![]
    } else if schedule.contains((n - 1) as usize) {
        seq![(n - 1) as usize] + scheduled_desc(n - 1, schedule)
    } else {
        scheduled_desc(n - 1, schedule)
    }
}

/// The passes at the given indexes, in the order of the indexes.
pub open spec fn passes_at<P>(passes: Seq<P>, indexes: Seq<usize>) -> Seq<P> {
    indexes.map_values(|k: usize| passes[k as int])
}

/// Taking the recorded passes out of a graph loses none and makes none: each pass below `n` is
/// either kept or handed back, so together they are as many as the graph held.
pub proof fn lemma_recorded_and_kept_partition(n: int, schedule: Seq<usize>)
    requires
        0 <= n,
    ensures
        unscheduled_passes(n, schedule).len() + scheduled_desc(n, schedule).len() == n,
    decreases n,
{
    if n > 0 {
        lemma_recorded_and_kept_partition(n - 1, schedule);
    }
}

/// Takes the recorded passes out of a graph once they are recorded: the passes which the
/// schedule does not name stay, in their order, for later resolves; the scheduled ones are
/// handed back, the last first, to be kept alive until the work that uses them is done.
pub fn remove_recorded_passes<P>(passes: Vec<P>, schedule: &Vec<usize>) -> (r: (Vec<P>, Vec<P>))
    requires
        schedule@.no_duplicates(),
        forall|k: int| 0 <= k < schedule@.len() ==> (#[trigger] schedule@[k] as int) < passes@.len(),
    ensures
        r.0@ == passes_at(passes@, unscheduled_passes(passes@.len() as int, schedule@)),
        r.1@ == passes_at(passes@, scheduled_desc(passes@.len() as int, schedule@)),
{
    let ghost orig = passes@;
    let n = passes.len();
    let mut rest = passes;
    let mut kept: Vec<P> = Vec::new();
    let mut recorded: Vec<P> = Vec::new();
    let mut k: usize = 0;
    while k < n
        invariant
            n == orig.len(),
            k <= n,
            rest@ == orig.skip(k as int),
            kept@ == passes_at(orig, unscheduled_passes(k as int, schedule@)),
            recorded@ == passes_at(orig, scheduled_desc(k as int, schedule@)),
        decreases n - k,
    {
        let pass = rest.remove(0);
        assert(pass == orig[k as int]);
        let mut scheduled = false;
        let mut j: usize = 0;
        while j < schedule.len()
            invariant
                j <= schedule@.len(),
                scheduled == exists|i: int| 0 <= i < j && schedule@[i] == k,
            decreases schedule@.len() - j,
        {
            if schedule[j] == k {
                scheduled = true;
            }
            j = j + 1;
        }
        assert(scheduled == schedule@.contains(k));
        if scheduled {
            recorded.insert(0, pass);
            proof {
                assert(scheduled_desc(k + 1, schedule@) == seq![k] + scheduled_desc(k as int, schedule@));
                assert(recorded@ =~= passes_at(orig, scheduled_desc(k + 1, schedule@)));
                assert(unscheduled_passes(k + 1, schedule@) == unscheduled_passes(k as int, schedule@));
            }
        } else {
            kept.push(pass);
            proof {
                assert(unscheduled_passes(k + 1, schedule@) == unscheduled_passes(k as int, schedule@).push(k));
                assert(kept@ =~= passes_at(orig, unscheduled_passes(k + 1, schedule@)));
                assert(scheduled_desc(k + 1, schedule@) == scheduled_desc(k as int, schedule@));
            }
        }
        assert(rest@ =~= orig.skip(k + 1));
        k = k + 1;
    }
    (kept, recorded)
}

} // verus!
