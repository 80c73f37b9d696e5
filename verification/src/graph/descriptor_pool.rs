//! The size of the descriptor pool a pass leases for its descriptor sets, and the layouts in
//! which descriptors refer to images.
use vstd::prelude::*;
use super::attachment::{
    has_aspects, ASPECT_DEPTH, ASPECT_STENCIL, LAYOUT_DEPTH_READ_ONLY_OPTIMAL,
    LAYOUT_DEPTH_STENCIL_READ_ONLY_OPTIMAL, LAYOUT_GENERAL, LAYOUT_STENCIL_READ_ONLY_OPTIMAL,
};

verus! {

/// The raw Vulkan value of the sampler descriptor type.
pub const DESCRIPTOR_SAMPLER: i32 = 0;
/// The raw Vulkan value of the combined image sampler descriptor type.
pub const DESCRIPTOR_COMBINED_IMAGE_SAMPLER: i32 = 1;
/// The raw Vulkan value of the sampled image descriptor type.
pub const DESCRIPTOR_SAMPLED_IMAGE: i32 = 2;
/// The raw Vulkan value of the storage image descriptor type.
pub const DESCRIPTOR_STORAGE_IMAGE: i32 = 3;
/// The raw Vulkan value of the uniform texel buffer descriptor type.
pub const DESCRIPTOR_UNIFORM_TEXEL_BUFFER: i32 = 4;
/// The raw Vulkan value of the storage texel buffer descriptor type.
pub const DESCRIPTOR_STORAGE_TEXEL_BUFFER: i32 = 5;
/// The raw Vulkan value of the uniform buffer descriptor type.
pub const DESCRIPTOR_UNIFORM_BUFFER: i32 = 6;
/// The raw Vulkan value of the storage buffer descriptor type.
pub const DESCRIPTOR_STORAGE_BUFFER: i32 = 7;
/// The raw Vulkan value of the dynamic uniform buffer descriptor type.
pub const DESCRIPTOR_UNIFORM_BUFFER_DYNAMIC: i32 = 8;
/// The raw Vulkan value of the dynamic storage buffer descriptor type.
pub const DESCRIPTOR_STORAGE_BUFFER_DYNAMIC: i32 = 9;
/// The raw Vulkan value of the input attachment descriptor type.
pub const DESCRIPTOR_INPUT_ATTACHMENT: i32 = 10;
/// The raw Vulkan value of the acceleration structure descriptor type.
pub const DESCRIPTOR_ACCELERATION_STRUCTURE: i32 = 1000150000;

/// Whether descriptor pools hold descriptors of the raw type.
pub open spec fn is_pooled_type(ty: i32) -> bool {
    ||| ty == DESCRIPTOR_SAMPLER
    ||| ty == DESCRIPTOR_COMBINED_IMAGE_SAMPLER
    ||| ty == DESCRIPTOR_SAMPLED_IMAGE
    ||| ty == DESCRIPTOR_STORAGE_IMAGE
    ||| ty == DESCRIPTOR_UNIFORM_TEXEL_BUFFER
    ||| ty == DESCRIPTOR_STORAGE_TEXEL_BUFFER
    ||| ty == DESCRIPTOR_UNIFORM_BUFFER
    ||| ty == DESCRIPTOR_STORAGE_BUFFER
    ||| ty == DESCRIPTOR_UNIFORM_BUFFER_DYNAMIC
    ||| ty == DESCRIPTOR_STORAGE_BUFFER_DYNAMIC
    ||| ty == DESCRIPTOR_INPUT_ATTACHMENT
    ||| ty == DESCRIPTOR_ACCELERATION_STRUCTURE
}

/// The size of a descriptor pool: how many sets it holds, and how many descriptors of each type.
#[derive(Clone, Copy, Debug, PartialEq, Eq, Structural)]
pub struct DescriptorPoolSize {
    /// The number of descriptor sets.
    pub max_sets: u32,
    /// Acceleration structure descriptors.
    pub acceleration_structure_count: u32,
    /// Combined image sampler descriptors.
    pub combined_image_sampler_count: u32,
    /// Input attachment descriptors.
    pub input_attachment_count: u32,
    /// Sampled image descriptors.
    pub sampled_image_count: u32,
    /// Sampler descriptors.
    pub sampler_count: u32,
    /// Storage buffer descriptors.
    pub storage_buffer_count: u32,
    /// Dynamic storage buffer descriptors.
    pub storage_buffer_dynamic_count: u32,
    /// Storage image descriptors.
    pub storage_image_count: u32,
    /// Storage texel buffer descriptors.
    pub storage_texel_buffer_count: u32,
    /// Uniform buffer descriptors.
    pub uniform_buffer_count: u32,
    /// Dynamic uniform buffer descriptors.
    pub uniform_buffer_dynamic_count: u32,
    /// Uniform texel buffer descriptors.
    pub uniform_texel_buffer_count: u32,
}

/// The number of descriptors of the type over all pool sizes.
pub open spec fn type_total(sizes: Seq<(i32, u32)>, ty: i32) -> nat
    decreases sizes.len(),
{
    if sizes.len() == 0 {
        0
    } else {
        type_total(sizes.drop_last(), ty) + if sizes.last().0 == ty { sizes.last().1 as nat } else { 0nat }
    }
}

/// The number rounded up to a multiple of 32.
pub open spec fn round_up_32(n: nat) -> nat {
    ((n + 31) / 32 * 32) as nat
}

/// The largest descriptor set index; zero where there are none.
pub open spec fn max_set(sets: Seq<u32>) -> nat
    decreases sets.len(),
{
    if sets.len() == 0 {
        0
    } else {
        let rest = max_set(sets.drop_last());
        if sets.last() > rest { sets.last() as nat } else { rest }
    }
}

/// The number of descriptors of the type, computed.
fn total_of(sizes: &Vec<(i32, u32)>, ty: i32) -> (r: u32)
    requires
        type_total(sizes@, ty) <= u32::MAX,
    ensures
        r == type_total(sizes@, ty),
{
    let mut r: u32 = 0;
    let mut i: usize = 0;
    while i < sizes.len()
        invariant
            type_total(sizes@, ty) <= u32::MAX,
            i <= sizes@.len(),
            r == type_total(sizes@.take(i as int), ty),
        decreases sizes@.len() - i,
    {
        proof {
            assert(sizes@.take(i + 1).drop_last() == sizes@.take(i as int));
            lemma_type_total_prefix(sizes@, ty, i + 1);
        }
        if sizes[i].0 == ty {
            r = r + sizes[i].1;
        }
        i = i + 1;
    }
    proof {
        assert(sizes@.take(sizes@.len() as int) == sizes@);
    }
    r
}

/// The total of a prefix is at most the whole total.
proof fn lemma_type_total_prefix(sizes: Seq<(i32, u32)>, ty: i32, k: int)
    requires
        0 <= k <= sizes.len(),
    ensures
        type_total(sizes.take(k), ty) <= type_total(sizes, ty),
    decreases sizes.len() - k,
{
    if k < sizes.len() {
        lemma_type_total_prefix(sizes, ty, k + 1);
        assert(sizes.take(k + 1).drop_last() == sizes.take(k));
    } else {
        assert(sizes.take(k) == sizes);
    }
}

/// The number rounded up to a multiple of 32, computed.
fn round_up(n: u32) -> (r: u32)
    requires
        n + 31 <= u32::MAX,
    ensures
        r == round_up_32(n as nat),
{
    (n + 31) / 32 * 32
}

/// Sizes the descriptor pool of a pass: it holds one set for each descriptor set index up to
/// the largest that the bindings use, for each execution, and, of each descriptor type, the
/// total count that the pipelines' pool sizes ask for, rounded up to a multiple of 32. A pass
/// whose pool sizes ask for no descriptor needs no pool.
///
/// `sets` holds the descriptor set index of every binding of every execution; `sizes` holds the
/// descriptor type and count of every pool size of every pipeline.
pub fn descriptor_pool_size(exec_count: u32, sets: &Vec<u32>, sizes: &Vec<(i32, u32)>) -> (r: Option<DescriptorPoolSize>)
    requires
        max_set(sets@) < u32::MAX,
        exec_count * (max_set(sets@) + 1) <= u32::MAX,
        forall|j: int| 0 <= j < sizes@.len() ==> is_pooled_type(#[trigger] sizes@[j].0) && sizes@[j].1 > 0,
        forall|ty: i32| #[trigger] type_total(sizes@, ty) + 31 <= u32::MAX,
    ensures
        match r {
            None => sizes@.len() == 0,
            Some(p) => {
                &&& sizes@.len() > 0
                &&& p.max_sets == exec_count * (max_set(sets@) + 1)
                &&& p.acceleration_structure_count == round_up_32(type_total(sizes@, DESCRIPTOR_ACCELERATION_STRUCTURE))
                &&& p.combined_image_sampler_count == round_up_32(type_total(sizes@, DESCRIPTOR_COMBINED_IMAGE_SAMPLER))
                &&& p.input_attachment_count == round_up_32(type_total(sizes@, DESCRIPTOR_INPUT_ATTACHMENT))
                &&& p.sampled_image_count == round_up_32(type_total(sizes@, DESCRIPTOR_SAMPLED_IMAGE))
                &&& p.sampler_count == round_up_32(type_total(sizes@, DESCRIPTOR_SAMPLER))
                &&& p.storage_buffer_count == round_up_32(type_total(sizes@, DESCRIPTOR_STORAGE_BUFFER))
                &&& p.storage_buffer_dynamic_count == round_up_32(type_total(sizes@, DESCRIPTOR_STORAGE_BUFFER_DYNAMIC))
                &&& p.storage_image_count == round_up_32(type_total(sizes@, DESCRIPTOR_STORAGE_IMAGE))
                &&& p.storage_texel_buffer_count == round_up_32(type_total(sizes@, DESCRIPTOR_STORAGE_TEXEL_BUFFER))
                &&& p.uniform_buffer_count == round_up_32(type_total(sizes@, DESCRIPTOR_UNIFORM_BUFFER))
                &&& p.uniform_buffer_dynamic_count == round_up_32(type_total(sizes@, DESCRIPTOR_UNIFORM_BUFFER_DYNAMIC))
                &&& p.uniform_texel_buffer_count == round_up_32(type_total(sizes@, DESCRIPTOR_UNIFORM_TEXEL_BUFFER))
            },
        },
{
    // The largest set index.
    let mut top: u32 = 0;
    let mut i: usize = 0;
    while i < sets.len()
        invariant
            i <= sets@.len(),
            top == max_set(sets@.take(i as int)),
        decreases sets@.len() - i,
    {
        proof {
            assert(sets@.take(i + 1).drop_last() == sets@.take(i as int));
        }
        if sets[i] > top {
            top = sets[i];
        }
        i = i + 1;
    }
    proof {
        assert(sets@.take(sets@.len() as int) == sets@);
    }
    // A command-only pipeline needs no descriptors.
    if sizes.len() == 0 {
        return None;
    }
    let max_sets = exec_count * (top + 1);
    Some(DescriptorPoolSize {
        max_sets,
        acceleration_structure_count: round_up(total_of(sizes, DESCRIPTOR_ACCELERATION_STRUCTURE)),
        combined_image_sampler_count: round_up(total_of(sizes, DESCRIPTOR_COMBINED_IMAGE_SAMPLER)),
        input_attachment_count: round_up(total_of(sizes, DESCRIPTOR_INPUT_ATTACHMENT)),
        sampled_image_count: round_up(total_of(sizes, DESCRIPTOR_SAMPLED_IMAGE)),
        sampler_count: round_up(total_of(sizes, DESCRIPTOR_SAMPLER)),
        storage_buffer_count: round_up(total_of(sizes, DESCRIPTOR_STORAGE_BUFFER)),
        storage_buffer_dynamic_count: round_up(total_of(sizes, DESCRIPTOR_STORAGE_BUFFER_DYNAMIC)),
        storage_image_count: round_up(total_of(sizes, DESCRIPTOR_STORAGE_IMAGE)),
        storage_texel_buffer_count: round_up(total_of(sizes, DESCRIPTOR_STORAGE_TEXEL_BUFFER)),
        uniform_buffer_count: round_up(total_of(sizes, DESCRIPTOR_UNIFORM_BUFFER)),
        uniform_buffer_dynamic_count: round_up(total_of(sizes, DESCRIPTOR_UNIFORM_BUFFER_DYNAMIC)),
        uniform_texel_buffer_count: round_up(total_of(sizes, DESCRIPTOR_UNIFORM_TEXEL_BUFFER)),
    })
}


/// The raw Vulkan value of the shader read-only image layout.
pub const LAYOUT_SHADER_READ_ONLY_OPTIMAL: i32 = 5;

/// Whether a descriptor of the raw type refers to an image through an image view.
pub open spec fn is_image_descriptor(ty: i32) -> bool {
    ty == DESCRIPTOR_COMBINED_IMAGE_SAMPLER || ty == DESCRIPTOR_SAMPLED_IMAGE || ty == DESCRIPTOR_STORAGE_IMAGE
}

/// The layout in which a descriptor refers to an image view with the given aspects: a storage
/// image is in the general layout; a sampled one is in the read-only layout of its aspects,
/// depth and stencil together before depth alone before stencil alone, and in the shader
/// read-only layout otherwise.
pub open spec fn image_descriptor_layout(ty: i32, aspect_mask: u32) -> i32 {
    if ty == DESCRIPTOR_STORAGE_IMAGE {
        LAYOUT_GENERAL
    } else if has_aspects(aspect_mask, ASPECT_DEPTH | ASPECT_STENCIL) {
        LAYOUT_DEPTH_STENCIL_READ_ONLY_OPTIMAL
    } else if has_aspects(aspect_mask, ASPECT_DEPTH) {
        LAYOUT_DEPTH_READ_ONLY_OPTIMAL
    } else if has_aspects(aspect_mask, ASPECT_STENCIL) {
        LAYOUT_STENCIL_READ_ONLY_OPTIMAL
    } else {
        LAYOUT_SHADER_READ_ONLY_OPTIMAL
    }
}

/// Chooses the raw layout in which a descriptor of the raw type refers to an image view with the
/// given aspects.
pub fn descriptor_image_layout(ty: i32, aspect_mask: u32) -> (r: i32)
    requires
        is_image_descriptor(ty),
    ensures
        r == image_descriptor_layout(ty, aspect_mask),
{
    if ty == DESCRIPTOR_STORAGE_IMAGE {
        LAYOUT_GENERAL
    } else if aspect_mask & (ASPECT_DEPTH | ASPECT_STENCIL) == ASPECT_DEPTH | ASPECT_STENCIL {
        LAYOUT_DEPTH_STENCIL_READ_ONLY_OPTIMAL
    } else if aspect_mask & ASPECT_DEPTH == ASPECT_DEPTH {
        LAYOUT_DEPTH_READ_ONLY_OPTIMAL
    } else if aspect_mask & ASPECT_STENCIL == ASPECT_STENCIL {
        LAYOUT_STENCIL_READ_ONLY_OPTIMAL
    } else {
        LAYOUT_SHADER_READ_ONLY_OPTIMAL
    }
}


/// A sampled image and a combined image sampler refer to an image in the same layout, which is
/// never the general layout: a read-only layout, the shader read-only layout for an image with
/// neither depth nor stencil aspects. Only a storage image is in the general layout, whatever
/// its aspects.
pub proof fn lemma_image_descriptor_layouts(aspect_mask: u32)
    ensures
        image_descriptor_layout(DESCRIPTOR_COMBINED_IMAGE_SAMPLER, aspect_mask)
            == image_descriptor_layout(DESCRIPTOR_SAMPLED_IMAGE, aspect_mask),
        image_descriptor_layout(DESCRIPTOR_SAMPLED_IMAGE, aspect_mask) != LAYOUT_GENERAL,
        image_descriptor_layout(DESCRIPTOR_COMBINED_IMAGE_SAMPLER, aspect_mask) != LAYOUT_GENERAL,
        image_descriptor_layout(DESCRIPTOR_STORAGE_IMAGE, aspect_mask) == LAYOUT_GENERAL,
        aspect_mask & (ASPECT_DEPTH | ASPECT_STENCIL) == 0 ==> {
            &&& image_descriptor_layout(DESCRIPTOR_SAMPLED_IMAGE, aspect_mask) == LAYOUT_SHADER_READ_ONLY_OPTIMAL
            &&& image_descriptor_layout(DESCRIPTOR_COMBINED_IMAGE_SAMPLER, aspect_mask)
                == LAYOUT_SHADER_READ_ONLY_OPTIMAL
        },
        aspect_mask & (ASPECT_DEPTH | ASPECT_STENCIL) == (ASPECT_DEPTH | ASPECT_STENCIL) ==>
            image_descriptor_layout(DESCRIPTOR_SAMPLED_IMAGE, aspect_mask) == LAYOUT_DEPTH_STENCIL_READ_ONLY_OPTIMAL,
        aspect_mask & (ASPECT_DEPTH | ASPECT_STENCIL) == ASPECT_DEPTH ==>
            image_descriptor_layout(DESCRIPTOR_SAMPLED_IMAGE, aspect_mask) == LAYOUT_DEPTH_READ_ONLY_OPTIMAL,
        aspect_mask & (ASPECT_DEPTH | ASPECT_STENCIL) == ASPECT_STENCIL ==>
            image_descriptor_layout(DESCRIPTOR_SAMPLED_IMAGE, aspect_mask) == LAYOUT_STENCIL_READ_ONLY_OPTIMAL,
{
    let m = aspect_mask;
    assert(m & (ASPECT_DEPTH | ASPECT_STENCIL) == 0 ==> m & ASPECT_DEPTH != ASPECT_DEPTH && m & ASPECT_STENCIL
        != ASPECT_STENCIL && m & (ASPECT_DEPTH | ASPECT_STENCIL) != (ASPECT_DEPTH | ASPECT_STENCIL)) by (bit_vector);
    assert(m & (ASPECT_DEPTH | ASPECT_STENCIL) == ASPECT_DEPTH ==> m & ASPECT_DEPTH == ASPECT_DEPTH
        && m & (ASPECT_DEPTH | ASPECT_STENCIL) != (ASPECT_DEPTH | ASPECT_STENCIL)) by (bit_vector);
    assert(m & (ASPECT_DEPTH | ASPECT_STENCIL) == ASPECT_STENCIL ==> m & ASPECT_STENCIL == ASPECT_STENCIL
        && m & ASPECT_DEPTH != ASPECT_DEPTH && m & (ASPECT_DEPTH | ASPECT_STENCIL) != (ASPECT_DEPTH | ASPECT_STENCIL))
        by (bit_vector);
}


/// Counts are rounded up to the next multiple of 32: the rounded count is a multiple of 32, no
/// smaller than the count, and less than 32 above it.
pub proof fn lemma_round_up_32(n: nat)
    ensures
        round_up_32(n) % 32 == 0,
        n <= round_up_32(n) < n + 32,
{
    assert(((n + 31) / 32 * 32) % 32 == 0) by (nonlinear_arith);
    assert(n <= (n + 31) / 32 * 32 < n + 32) by (nonlinear_arith);
}

} // verus!
