use screen_13::graph::attachment::{
    attachment_layout, Attachment, AttachmentMap, ASPECT_COLOR, ASPECT_DEPTH, ASPECT_STENCIL,
    LAYOUT_COLOR_ATTACHMENT_OPTIMAL, LAYOUT_DEPTH_ATTACHMENT_OPTIMAL, LAYOUT_DEPTH_READ_ONLY_OPTIMAL,
    LAYOUT_DEPTH_STENCIL_ATTACHMENT_OPTIMAL, LAYOUT_DEPTH_STENCIL_READ_ONLY_OPTIMAL, LAYOUT_GENERAL,
    LAYOUT_STENCIL_ATTACHMENT_OPTIMAL, LAYOUT_STENCIL_READ_ONLY_OPTIMAL, LAYOUT_UNDEFINED,
};
use screen_13::graph::merge::{
    allow_merge_passes, merge_graph_passes, merge_scheduled_passes, remove_recorded_passes, ExecAttachments, GraphicMode,
    MergePass, NamedPass,
};
use screen_13::graph::node::{
    AnyAccelerationStructureNode, AnyBufferNode, AnyImageNode, BufferLeaseNode, BufferNode,
    ImageLeaseNode, ImageNode, Node, SwapchainImageNode,
};
use screen_13::graph::descriptor_pool::{
    descriptor_image_layout, descriptor_pool_size, DESCRIPTOR_COMBINED_IMAGE_SAMPLER,
    DESCRIPTOR_SAMPLED_IMAGE, DESCRIPTOR_STORAGE_IMAGE, DESCRIPTOR_UNIFORM_BUFFER,
    LAYOUT_SHADER_READ_ONLY_OPTIMAL,
};
use screen_13::graph::pass_ref::Descriptor;
use screen_13::graph::render_pass::{
    render_pass_attachments, render_pass_info, render_pass_subpasses, AttachmentDesc, AttachmentRef,
    LoadOp, StoreOp, SubpassExec, ATTACHMENT_UNUSED,
};
use screen_13::graph::schedule::{
    first_node_access_pass_index, reorder_scheduled_passes, schedule_node_passes, AccessCache,
};

fn attachment(fmt: i32, sample_count: u32, target: usize) -> Attachment {
    Attachment { aspect_mask: 1, fmt, sample_count, target }
}

#[test]
fn attachments_compare_by_format_and_samples() {
    let a = attachment(37, 1, 0);
    let b = attachment(37, 1, 5);
    let c = attachment(44, 1, 0);
    let d = attachment(37, 4, 0);
    assert!(Attachment::are_identical(a, b));
    assert!(!Attachment::are_identical(a, c));
    assert!(!Attachment::are_identical(a, d));
    assert!(Attachment::are_compatible(Some(a), Some(b)));
    assert!(!Attachment::are_compatible(Some(a), Some(c)));
    assert!(Attachment::are_compatible(None, Some(c)));
    assert!(Attachment::are_compatible(Some(a), None));
}

#[test]
fn attachment_map_slots() {
    let mut map = AttachmentMap::default();
    assert!(!map.contains_color(0));
    assert!(map.insert_color(2, 1, 37, 1, 7));
    assert!(map.contains_color(0));
    assert!(map.contains_color(2));
    assert!(!map.contains_color(3));
    assert_eq!(map.color(0), None);
    assert_eq!(map.color(2), Some(Attachment { aspect_mask: 1, fmt: 37, sample_count: 1, target: 7 }));
    assert_eq!(map.color(9), None);
    // Replacing with an identical attachment succeeds, a different format does not.
    assert!(map.insert_color(2, 1, 37, 1, 8));
    assert!(!map.insert_color(2, 1, 44, 1, 8));
    assert_eq!(map.colors(), vec![(2, Attachment { aspect_mask: 1, fmt: 44, sample_count: 1, target: 8 })]);
    assert!(map.set_depth_stencil(6, 126, 1, 3));
    assert!(!map.set_depth_stencil(6, 130, 1, 3));
    assert_eq!(map.depth_stencil(), Some(Attachment { aspect_mask: 6, fmt: 130, sample_count: 1, target: 3 }));
    assert!(map.contains_image(3));
    assert!(map.contains_image(8));
    assert!(!map.contains_image(7));
}

#[test]
fn attachment_map_images_are_distinct() {
    let mut map = AttachmentMap::default();
    map.insert_color(0, 1, 37, 1, 4);
    map.insert_color(1, 1, 37, 1, 2);
    map.insert_color(3, 1, 37, 1, 4);
    map.set_depth_stencil(6, 126, 1, 2);
    assert_eq!(map.images(), vec![4, 2]);
    map.set_depth_stencil(6, 126, 1, 9);
    assert_eq!(map.images(), vec![4, 2, 9]);
}

#[test]
fn attachment_maps_compatibility() {
    let mut lhs = AttachmentMap::default();
    let mut rhs = AttachmentMap::default();
    lhs.insert_color(0, 1, 37, 1, 0);
    rhs.insert_color(0, 1, 37, 1, 1);
    rhs.insert_color(1, 1, 44, 1, 1);
    assert!(lhs.are_compatible(&rhs));
    lhs.insert_color(1, 1, 50, 1, 0);
    assert!(!lhs.are_compatible(&rhs));
}

#[test]
fn nodes_keep_their_index() {
    assert_eq!(BufferNode::new(3).index(), 3);
    assert_eq!(ImageLeaseNode::new(9).index(), 9);
    assert_eq!(SwapchainImageNode::new(1).index(), 1);
    assert_eq!(AnyBufferNode::from(BufferLeaseNode::new(4)).index(), 4);
    assert_eq!(AnyImageNode::from(ImageNode::new(6)).index(), 6);
    let accel = screen_13::graph::node::AccelerationStructureNode::new(2);
    assert_eq!(AnyAccelerationStructureNode::from(accel).index(), 2);
}

#[test]
fn descriptors_give_set_binding_and_offset() {
    assert_eq!(Descriptor::from(5).into_tuple(), (0, 5, 0));
    assert_eq!(Descriptor::from((2, 3)).into_tuple(), (2, 3, 0));
    assert_eq!(Descriptor::from((2, 3, [7])).into_tuple(), (2, 3, 7));
    assert_eq!(Descriptor::ArrayBinding(4, 1, 2).set(), 4);
    assert_eq!(Descriptor::Binding(6, 1).set(), 6);
}

/// Four passes: 0 writes node 0; 1 reads node 0 and writes node 1; 2 writes node 2; 3 reads
/// node 1.
fn sample_passes() -> Vec<Vec<(usize, bool, bool)>> {
    vec![
        vec![(0, false, true)],
        vec![(0, true, false), (1, false, true)],
        vec![(2, false, true)],
        vec![(1, true, false)],
    ]
}

#[test]
fn access_cache_records_writes_and_reads() {
    let passes = sample_passes();
    let mut cache = AccessCache::new();
    cache.update(&passes, 3, 4);
    assert_eq!(cache.dependent_nodes(1), vec![0]);
    assert_eq!(cache.dependent_nodes(3), vec![1]);
    assert!(cache.dependent_nodes(2).is_empty());
    // Only the passes which write a node depend on it; readers are left out.
    assert_eq!(cache.dependent_passes(0, 4), vec![0]);
    assert_eq!(cache.dependent_passes(1, 4), vec![1]);
    assert_eq!(cache.dependent_passes(1, 1), Vec::<usize>::new());
    assert_eq!(cache.interdependent_passes(3, 4), vec![1]);
    assert_eq!(cache.interdependent_passes(1, 4), vec![0]);
}

#[test]
fn dependent_passes_are_writers_newest_first() {
    // Passes 0 and 2 write node 0, pass 1 only reads it, pass 3 reads and writes it.
    let passes = vec![
        vec![(0, false, true)],
        vec![(0, true, false)],
        vec![(0, false, true)],
        vec![(0, true, true)],
    ];
    let mut cache = AccessCache::new();
    cache.update(&passes, 1, 4);
    assert_eq!(cache.dependent_passes(0, 4), vec![3, 2, 0]);
    assert_eq!(cache.dependent_passes(0, 2), vec![0]);
}

#[test]
fn scheduling_a_node_pulls_in_its_dependencies() {
    let passes = sample_passes();
    let mut cache = AccessCache::new();
    cache.update(&passes, 3, 4);
    assert_eq!(schedule_node_passes(&cache, 1, 4), vec![0, 1]);
    assert_eq!(schedule_node_passes(&cache, 2, 4), vec![2]);
    assert_eq!(schedule_node_passes(&cache, 0, 4), vec![0]);
    assert_eq!(schedule_node_passes(&cache, 1, 2), vec![0, 1]);
}

#[test]
fn scheduling_leaves_out_unrelated_readers() {
    // Pass 0 writes node 0; pass 1 reads only node 1.
    let passes = vec![vec![(0, false, true)], vec![(1, true, false)]];
    let mut cache = AccessCache::new();
    cache.update(&passes, 2, 2);
    assert_eq!(schedule_node_passes(&cache, 0, 2), vec![0]);
}

#[test]
fn reorder_keeps_short_schedules() {
    let passes = sample_passes();
    let mut cache = AccessCache::new();
    cache.update(&passes, 3, 4);
    let mut schedule = vec![1, 0];
    reorder_scheduled_passes(&cache, &mut schedule, 4);
    assert_eq!(schedule, vec![1, 0]);
}

#[test]
fn reorder_is_a_permutation() {
    let passes = sample_passes();
    let mut cache = AccessCache::new();
    cache.update(&passes, 3, 4);
    let mut schedule = vec![0, 1, 2, 3];
    reorder_scheduled_passes(&cache, &mut schedule, 4);
    let mut sorted = schedule.clone();
    sorted.sort();
    assert_eq!(sorted, vec![0, 1, 2, 3]);
}

#[test]
fn first_access_of_a_node() {
    let passes = sample_passes();
    assert_eq!(first_node_access_pass_index(&passes, 1), Some(1));
    assert_eq!(first_node_access_pass_index(&passes, 2), Some(2));
    assert_eq!(first_node_access_pass_index(&passes, 5), None);
}

fn mode() -> GraphicMode {
    GraphicMode {
        blend: 1,
        cull_mode: 0,
        front_face: 0,
        polygon_mode: 0,
        samples: 1,
        has_input_attachments: false,
    }
}

fn exec(colors: Vec<(u32, Attachment)>, depth: Option<Attachment>) -> ExecAttachments {
    ExecAttachments {
        view_mask: 0,
        color_attachments: colors,
        color_loads: vec![],
        color_stores: vec![],
        color_clears: vec![],
        color_resolves: vec![],
        depth_stencil_attachment: depth,
        depth_stencil_load: None,
        depth_stencil_store: None,
        depth_stencil_resolve: None,
        depth_stencil_clear: None,
    }
}

fn graphic(colors: Vec<(u32, Attachment)>) -> MergePass {
    MergePass { pipeline: Some(mode()), execs: vec![exec(colors, None)] }
}

#[test]
fn passes_sharing_a_color_attachment_merge() {
    let lhs = graphic(vec![(0, attachment(37, 1, 0))]);
    let rhs = graphic(vec![(0, attachment(37, 1, 1))]);
    assert!(allow_merge_passes(&lhs, &rhs));
}

#[test]
fn incompatible_or_non_graphic_passes_do_not_merge() {
    let lhs = graphic(vec![(0, attachment(37, 1, 0))]);
    let other_format = graphic(vec![(0, attachment(44, 1, 1))]);
    assert!(!allow_merge_passes(&lhs, &other_format));
    let compute = MergePass { pipeline: None, execs: vec![exec(vec![], None)] };
    assert!(!allow_merge_passes(&lhs, &compute));
    assert!(!allow_merge_passes(&compute, &lhs));
    let mut blended = graphic(vec![(0, attachment(37, 1, 1))]);
    blended.pipeline = Some(GraphicMode { blend: 2, ..mode() });
    assert!(!allow_merge_passes(&lhs, &blended));
    let mut multiview = graphic(vec![(0, attachment(37, 1, 1))]);
    multiview.execs[0].view_mask = 3;
    assert!(!allow_merge_passes(&lhs, &multiview));
}

#[test]
fn merging_needs_something_on_tile() {
    let lhs = graphic(vec![]);
    let rhs = graphic(vec![]);
    assert!(!allow_merge_passes(&lhs, &rhs));
    let with_input = MergePass {
        pipeline: Some(GraphicMode { has_input_attachments: true, ..mode() }),
        execs: vec![exec(vec![], None)],
    };
    assert!(allow_merge_passes(&lhs, &with_input));
    let depth_lhs = MergePass { pipeline: Some(mode()), execs: vec![exec(vec![], Some(attachment(126, 1, 0)))] };
    let depth_rhs = MergePass { pipeline: Some(mode()), execs: vec![exec(vec![], Some(attachment(126, 1, 5)))] };
    assert!(allow_merge_passes(&depth_lhs, &depth_rhs));
    let other_depth = MergePass { pipeline: Some(mode()), execs: vec![exec(vec![], Some(attachment(130, 1, 5)))] };
    assert!(!allow_merge_passes(&depth_lhs, &other_depth));
}

#[test]
fn color_lookup_falls_back_to_loads() {
    let lhs = graphic(vec![(1, attachment(37, 1, 0))]);
    let mut rhs = graphic(vec![]);
    rhs.execs[0].color_loads = vec![(1, attachment(44, 1, 1))];
    assert!(!allow_merge_passes(&lhs, &rhs));
    rhs.execs[0].color_loads = vec![(1, attachment(37, 1, 1))];
    assert!(allow_merge_passes(&lhs, &rhs));
}

#[test]
fn scheduled_passes_merge_into_groups() {
    let passes = vec![
        graphic(vec![(0, attachment(37, 1, 0))]),
        graphic(vec![(0, attachment(37, 1, 0))]),
        MergePass { pipeline: None, execs: vec![exec(vec![], None)] },
        graphic(vec![(0, attachment(37, 1, 0))]),
        graphic(vec![(0, attachment(44, 1, 0))]),
    ];
    assert_eq!(merge_scheduled_passes(&vec![0, 1, 2, 3, 4], &passes), vec![vec![0, 1], vec![2], vec![3], vec![4]]);
    assert_eq!(merge_scheduled_passes(&vec![3, 0, 1], &passes), vec![vec![3, 0, 1]]);
    assert!(merge_scheduled_passes(&vec![], &passes).is_empty());
}

#[test]
fn attachment_layouts_follow_aspects() {
    assert_eq!(attachment_layout(ASPECT_COLOR, false, false), LAYOUT_COLOR_ATTACHMENT_OPTIMAL);
    assert_eq!(attachment_layout(ASPECT_COLOR, false, true), LAYOUT_GENERAL);
    assert_eq!(attachment_layout(ASPECT_COLOR | ASPECT_DEPTH, true, false), LAYOUT_COLOR_ATTACHMENT_OPTIMAL);
    let depth_stencil = ASPECT_DEPTH | ASPECT_STENCIL;
    assert_eq!(attachment_layout(depth_stencil, true, false), LAYOUT_DEPTH_STENCIL_ATTACHMENT_OPTIMAL);
    assert_eq!(attachment_layout(depth_stencil, true, true), LAYOUT_GENERAL);
    assert_eq!(attachment_layout(depth_stencil, false, true), LAYOUT_DEPTH_STENCIL_READ_ONLY_OPTIMAL);
    assert_eq!(attachment_layout(ASPECT_DEPTH, true, false), LAYOUT_DEPTH_ATTACHMENT_OPTIMAL);
    assert_eq!(attachment_layout(ASPECT_DEPTH, false, false), LAYOUT_DEPTH_READ_ONLY_OPTIMAL);
    assert_eq!(attachment_layout(ASPECT_STENCIL, true, false), LAYOUT_STENCIL_ATTACHMENT_OPTIMAL);
    assert_eq!(attachment_layout(ASPECT_STENCIL, false, true), LAYOUT_STENCIL_READ_ONLY_OPTIMAL);
    assert_eq!(attachment_layout(0, true, true), LAYOUT_UNDEFINED);
    assert_eq!(LAYOUT_DEPTH_ATTACHMENT_OPTIMAL, 1000241000);
}

#[test]
fn reorder_moves_a_pass_whose_work_is_placed_forward() {
    // 0 writes node 0; 1 reads node 0; 2 writes node 0; 3 writes node 1.
    let passes = vec![
        vec![(0, false, true)],
        vec![(0, true, false)],
        vec![(0, false, true)],
        vec![(1, false, true)],
    ];
    let mut cache = AccessCache::new();
    cache.update(&passes, 2, 4);
    assert_eq!(cache.interdependent_passes(1, 4), vec![2, 0]);
    let mut schedule = vec![2, 0, 3, 1];
    reorder_scheduled_passes(&cache, &mut schedule, 4);
    assert_eq!(schedule, vec![2, 1, 3, 0]);
}

fn named(name: &str, execs: Vec<u32>) -> NamedPass<u32> {
    NamedPass { name: name.to_string(), execs }
}

#[test]
fn merged_groups_become_passes_and_lead_the_graph() {
    let passes = vec![
        named("a", vec![1]),
        named("b", vec![2, 3]),
        named("c", vec![4]),
        named("d", vec![5]),
        named("e", vec![6]),
    ];
    let groups = vec![vec![1, 3], vec![4]];
    let (merged, schedule) = merge_graph_passes(passes, &groups);
    assert_eq!(schedule, vec![0, 1]);
    let names: Vec<&str> = merged.iter().map(|p| p.name.as_str()).collect();
    assert_eq!(names, vec!["b + d", "e", "a", "c"]);
    assert_eq!(merged[0].execs, vec![2, 3, 5]);
    assert_eq!(merged[1].execs, vec![6]);
    assert_eq!(merged[2].execs, vec![1]);
    assert_eq!(merged[3].execs, vec![4]);
}

#[test]
fn merging_three_passes_joins_every_name() {
    let passes = vec![named("x", vec![1]), named("y", vec![2]), named("z", vec![3])];
    let (merged, schedule) = merge_graph_passes(passes, &vec![vec![0, 1, 2]]);
    assert_eq!(schedule, vec![0]);
    assert_eq!(merged.len(), 1);
    assert_eq!(merged[0].name, "x + y + z");
    assert_eq!(merged[0].execs, vec![1, 2, 3]);
}

#[test]
fn recorded_passes_leave_the_graph() {
    let passes = vec!["a", "b", "c", "d", "e"];
    let (kept, recorded) = remove_recorded_passes(passes, &vec![3, 0, 2]);
    assert_eq!(kept, vec!["b", "e"]);
    assert_eq!(recorded, vec!["d", "c", "a"]);
    assert_eq!(kept.len() + recorded.len(), 5);
}

fn with_aspects(aspect_mask: u32, fmt: i32) -> Attachment {
    Attachment { aspect_mask, fmt, sample_count: 1, target: 0 }
}

#[test]
fn render_pass_attachments_begin_with_the_first_and_end_with_the_last_execution() {
    let a = with_aspects(ASPECT_COLOR, 37);
    let b = with_aspects(ASPECT_COLOR, 44);
    let mut first = exec(vec![], None);
    first.color_loads = vec![(1, a)];
    first.color_clears = vec![(1, b)];
    let mut second = exec(vec![], None);
    second.color_loads = vec![(0, a)];
    second.color_stores = vec![(0, a)];
    let mut third = exec(vec![], None);
    third.color_stores = vec![(1, b)];
    third.color_resolves = vec![(1, a)];
    let descs = render_pass_attachments(&vec![first, second, third]);
    assert_eq!(descs.len(), 2);
    assert_eq!(
        descs[0],
        AttachmentDesc {
            attachment: Some(a),
            load_op: LoadOp::Load,
            stencil_load_op: LoadOp::DontCare,
            store_op: StoreOp::Store,
            stencil_store_op: StoreOp::DontCare,
            initial_layout: LAYOUT_COLOR_ATTACHMENT_OPTIMAL,
            final_layout: LAYOUT_COLOR_ATTACHMENT_OPTIMAL,
        }
    );
    // Cleared first; resolved to last, which ends it without storing it.
    assert_eq!(
        descs[1],
        AttachmentDesc {
            attachment: Some(a),
            load_op: LoadOp::Clear,
            stencil_load_op: LoadOp::DontCare,
            store_op: StoreOp::DontCare,
            stencil_store_op: StoreOp::DontCare,
            initial_layout: LAYOUT_COLOR_ATTACHMENT_OPTIMAL,
            final_layout: LAYOUT_COLOR_ATTACHMENT_OPTIMAL,
        }
    );
}

#[test]
fn render_pass_depth_attachments_follow_their_aspects() {
    let depth = with_aspects(ASPECT_DEPTH, 126);
    let both = with_aspects(ASPECT_DEPTH | ASPECT_STENCIL, 129);
    let mut first = exec(vec![(0, with_aspects(ASPECT_COLOR, 37))], None);
    first.depth_stencil_clear = Some(depth);
    let mut second = exec(vec![], None);
    second.depth_stencil_store = Some(depth);
    second.depth_stencil_resolve = Some(both);
    let descs = render_pass_attachments(&vec![first, second]);
    assert_eq!(descs.len(), 3);
    // A color attachment never loaded begins as it ends.
    assert_eq!(descs[0].load_op, LoadOp::DontCare);
    assert_eq!(descs[0].initial_layout, LAYOUT_UNDEFINED);
    assert_eq!(
        descs[1],
        AttachmentDesc {
            attachment: Some(depth),
            load_op: LoadOp::Clear,
            stencil_load_op: LoadOp::DontCare,
            store_op: StoreOp::Store,
            stencil_store_op: StoreOp::DontCare,
            initial_layout: LAYOUT_DEPTH_ATTACHMENT_OPTIMAL,
            final_layout: LAYOUT_DEPTH_ATTACHMENT_OPTIMAL,
        }
    );
    assert_eq!(
        descs[2],
        AttachmentDesc {
            attachment: Some(both),
            load_op: LoadOp::DontCare,
            stencil_load_op: LoadOp::DontCare,
            store_op: StoreOp::DontCare,
            stencil_store_op: StoreOp::DontCare,
            initial_layout: LAYOUT_DEPTH_STENCIL_ATTACHMENT_OPTIMAL,
            final_layout: LAYOUT_DEPTH_STENCIL_ATTACHMENT_OPTIMAL,
        }
    );
}

#[test]
fn a_loaded_depth_attachment_that_is_not_stored_keeps_its_layout() {
    let mut only = exec(vec![], None);
    only.depth_stencil_load = Some(with_aspects(ASPECT_STENCIL, 127));
    let descs = render_pass_attachments(&vec![only]);
    assert_eq!(descs.len(), 1);
    assert_eq!(descs[0].stencil_load_op, LoadOp::Load);
    assert_eq!(descs[0].load_op, LoadOp::DontCare);
    // The color and depth load operation decides: it was not loaded, so it begins as it ends.
    assert_eq!(descs[0].initial_layout, LAYOUT_UNDEFINED);
}

#[test]
fn descriptor_pools_round_counts_up() {
    let sizes = vec![(DESCRIPTOR_UNIFORM_BUFFER, 3), (DESCRIPTOR_COMBINED_IMAGE_SAMPLER, 40), (DESCRIPTOR_UNIFORM_BUFFER, 2)];
    let size = descriptor_pool_size(2, &vec![0, 2, 1], &sizes).unwrap();
    assert_eq!(size.max_sets, 6);
    assert_eq!(size.uniform_buffer_count, 32);
    assert_eq!(size.combined_image_sampler_count, 64);
    assert_eq!(size.sampler_count, 0);
    assert_eq!(size.storage_image_count, 0);
}

#[test]
fn passes_without_descriptors_lease_no_pool() {
    assert_eq!(descriptor_pool_size(3, &vec![], &vec![]), None);
}

fn plain_subpass(inputs: Vec<u32>) -> SubpassExec {
    SubpassExec {
        input_attachments: inputs,
        resolve_sources: vec![],
        depth_stencil_resolve: None,
        correlated_view_mask: 0,
    }
}

#[test]
fn subpasses_refer_to_every_color_index_and_preserve_later_inputs() {
    let color = with_aspects(ASPECT_COLOR, 37);
    let mut first = exec(vec![(0, color)], None);
    first.color_stores = vec![(1, color)];
    let second = exec(vec![(0, color)], None);
    let third = exec(vec![(0, color)], None);
    let mut fourth = exec(vec![(1, color)], Some(with_aspects(ASPECT_DEPTH, 126)));
    fourth.depth_stencil_load = Some(with_aspects(ASPECT_DEPTH, 126));
    let execs = vec![first, second, third, fourth];
    let subs = vec![plain_subpass(vec![]), plain_subpass(vec![]), plain_subpass(vec![]), plain_subpass(vec![1])];
    let subpasses = render_pass_subpasses(&execs, &subs);
    assert_eq!(subpasses.len(), 4);
    // Index 1 is stored by the first execution only, so the second (and not the third, just
    // ahead of the reader) preserves it.
    assert_eq!(subpasses[0].preserve_attachments, Vec::<u32>::new());
    assert_eq!(subpasses[1].preserve_attachments, vec![1]);
    assert_eq!(subpasses[2].preserve_attachments, Vec::<u32>::new());
    assert_eq!(
        subpasses[1].color_attachments,
        vec![
            AttachmentRef { attachment: 0, aspect_mask: ASPECT_COLOR, layout: LAYOUT_COLOR_ATTACHMENT_OPTIMAL },
            AttachmentRef { attachment: ATTACHMENT_UNUSED, aspect_mask: ASPECT_COLOR, layout: LAYOUT_COLOR_ATTACHMENT_OPTIMAL },
        ]
    );
    assert_eq!(
        subpasses[3].input_attachments,
        vec![AttachmentRef { attachment: 1, aspect_mask: ASPECT_COLOR, layout: LAYOUT_GENERAL }]
    );
    assert_eq!(subpasses[3].color_attachments[1].layout, LAYOUT_GENERAL);
    assert_eq!(
        subpasses[3].depth_stencil_attachment,
        Some(AttachmentRef { attachment: 2, aspect_mask: ASPECT_DEPTH, layout: LAYOUT_DEPTH_ATTACHMENT_OPTIMAL })
    );
    assert_eq!(subpasses[0].depth_stencil_attachment, None);
}

#[test]
fn subpasses_refer_to_resolve_destinations_by_source() {
    let color = with_aspects(ASPECT_COLOR, 37);
    let mut only = exec(vec![(0, color)], None);
    only.color_resolves = vec![(1, color)];
    only.depth_stencil_resolve = Some(with_aspects(ASPECT_DEPTH | ASPECT_STENCIL, 129));
    let sub = SubpassExec {
        input_attachments: vec![],
        resolve_sources: vec![(1, 0)],
        depth_stencil_resolve: Some((2, 1, 1)),
        correlated_view_mask: 3,
    };
    let info = render_pass_info(&vec![only], &vec![sub]);
    assert_eq!(info.attachments.len(), 3);
    let subpass = &info.subpasses[0];
    assert_eq!(
        subpass.color_resolve_attachments,
        vec![
            AttachmentRef { attachment: 1, aspect_mask: ASPECT_COLOR, layout: LAYOUT_COLOR_ATTACHMENT_OPTIMAL },
            AttachmentRef { attachment: ATTACHMENT_UNUSED, aspect_mask: 0, layout: LAYOUT_UNDEFINED },
        ]
    );
    assert_eq!(
        subpass.depth_stencil_resolve_attachment,
        Some((
            AttachmentRef {
                attachment: 3,
                aspect_mask: ASPECT_DEPTH | ASPECT_STENCIL,
                layout: LAYOUT_DEPTH_STENCIL_ATTACHMENT_OPTIMAL,
            },
            1,
            1
        ))
    );
    assert_eq!(subpass.correlated_view_mask, 3);
}
#[test]
fn image_descriptors_use_read_only_or_general_layouts() {
    assert_eq!(descriptor_image_layout(DESCRIPTOR_STORAGE_IMAGE, ASPECT_COLOR), LAYOUT_GENERAL);
    assert_eq!(descriptor_image_layout(DESCRIPTOR_SAMPLED_IMAGE, ASPECT_COLOR), LAYOUT_SHADER_READ_ONLY_OPTIMAL);
    assert_eq!(
        descriptor_image_layout(DESCRIPTOR_COMBINED_IMAGE_SAMPLER, ASPECT_DEPTH | ASPECT_STENCIL),
        LAYOUT_DEPTH_STENCIL_READ_ONLY_OPTIMAL
    );
    assert_eq!(descriptor_image_layout(DESCRIPTOR_SAMPLED_IMAGE, ASPECT_DEPTH), LAYOUT_DEPTH_READ_ONLY_OPTIMAL);
    assert_eq!(descriptor_image_layout(DESCRIPTOR_SAMPLED_IMAGE, ASPECT_STENCIL), LAYOUT_STENCIL_READ_ONLY_OPTIMAL);
}

#[test]
fn scheduling_resolves_a_node_through_the_first_pass_that_meets_it() {
    // Node 0 is written by passes 6 (which reads node 1) and 3 (which reads node 2); node 1 is
    // written by pass 5, which reads node 2; node 2 is written by passes 4 and 2. Node 2 is met
    // through pass 3 first, so pass 4 is left out.
    let passes = vec![
        vec![],
        vec![],
        vec![(2, false, true)],
        vec![(2, true, false), (0, false, true)],
        vec![(2, false, true)],
        vec![(2, true, false), (1, false, true)],
        vec![(1, true, false), (0, false, true)],
    ];
    let mut cache = AccessCache::new();
    cache.update(&passes, 3, 7);
    assert_eq!(schedule_node_passes(&cache, 0, 7), vec![2, 3, 5, 6]);
}
