//! Descriptor bindings of pipeline passes.
use vstd::prelude::*;

verus! {

/// The index of a binding within a descriptor set.
pub type BindingIndex = u32;

/// The offset of an element within an array binding.
pub type BindingOffset = u32;

/// The index of a descriptor set.
pub type DescriptorSetIndex = u32;

/// Describes the descriptor binding of a shader resource.
#[derive(Clone, Copy, Debug, PartialEq, Eq, Structural, Hash, PartialOrd, Ord)]
pub enum Descriptor {
    /// An array binding which includes an `offset` argument for the bound element.
    ArrayBinding(DescriptorSetIndex, BindingIndex, BindingOffset),
    /// A single binding.
    Binding(DescriptorSetIndex, BindingIndex),
}

impl Descriptor {
    /// The descriptor set, binding and element offset; a single binding has offset zero.
    pub fn into_tuple(self) -> (r: (DescriptorSetIndex, BindingIndex, BindingOffset))
        ensures
            r == match self {
                Descriptor::ArrayBinding(s, b, o) => (s, b, o),
                Descriptor::Binding(s, b) => (s, b, 0u32),
            },
    {
        match self {
            Descriptor::ArrayBinding(descriptor_set_idx, binding_idx, binding_offset) => (
                descriptor_set_idx,
                binding_idx,
                binding_offset,
            ),
            Descriptor::Binding(descriptor_set_idx, binding_idx) => (descriptor_set_idx, binding_idx, 0),
        }
    }

    /// The descriptor set.
    pub fn set(self) -> (r: DescriptorSetIndex)
        ensures
            r == match self {
                Descriptor::ArrayBinding(s, _, _) => s,
                Descriptor::Binding(s, _) => s,
            },
    {
        let (res, _, _) = self.into_tuple();
        res
    }
}

impl From<BindingIndex> for Descriptor {
    fn from(val: BindingIndex) -> (r: Self) {
        Descriptor::Binding(0, val)
    }
}

impl vstd::std_specs::convert::FromSpecImpl<BindingIndex> for Descriptor {
    open spec fn obeys_from_spec() -> bool {
        true
    }

    open spec fn from_spec(val: BindingIndex) -> Self {
        Descriptor::Binding(0, val)
    }
}

impl From<(DescriptorSetIndex, BindingIndex)> for Descriptor {
    fn from(tuple: (DescriptorSetIndex, BindingIndex)) -> (r: Self) {
        Descriptor::Binding(tuple.0, tuple.1)
    }
}

impl vstd::std_specs::convert::FromSpecImpl<(DescriptorSetIndex, BindingIndex)> for Descriptor {
    open spec fn obeys_from_spec() -> bool {
        true
    }

    open spec fn from_spec(tuple: (DescriptorSetIndex, BindingIndex)) -> Self {
        Descriptor::Binding(tuple.0, tuple.1)
    }
}

impl From<(DescriptorSetIndex, BindingIndex, [BindingOffset; 1])> for Descriptor {
    fn from(tuple: (DescriptorSetIndex, BindingIndex, [BindingOffset; 1])) -> (r: Self) {
        Descriptor::ArrayBinding(tuple.0, tuple.1, tuple.2[0])
    }
}

impl vstd::std_specs::convert::FromSpecImpl<(DescriptorSetIndex, BindingIndex, [BindingOffset; 1])> for Descriptor {
    open spec fn obeys_from_spec() -> bool {
        true
    }

    open spec fn from_spec(tuple: (DescriptorSetIndex, BindingIndex, [BindingOffset; 1])) -> Self {
        Descriptor::ArrayBinding(tuple.0, tuple.1, tuple.2@[0])
    }
}

} // verus!
