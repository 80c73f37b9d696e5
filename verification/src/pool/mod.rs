//! Capacity settings of resource pools.
use vstd::prelude::*;

verus! {

/// Links a resource request to what a pool hands out for it.
pub trait Contract {
    /// What the pool hands out.
    type Term;
}

/// The maximum size of a single bucket of resource instances, unless set otherwise.
pub const DEFAULT_RESOURCE_CAPACITY: usize = 16;

/// Information used to create a resource pool: the maximum size of a single bucket of each kind
/// of resource.
#[derive(Clone, Copy, Debug, PartialEq, Eq, Structural)]
pub struct PoolInfo {
    /// The maximum size of a single bucket of acceleration structure resource instances.
    pub accel_struct_capacity: usize,
    /// The maximum size of a single bucket of buffer resource instances.
    pub buffer_capacity: usize,
    /// The maximum size of a single bucket of image resource instances.
    pub image_capacity: usize,
}

impl PoolInfo {
    /// Constructs a new `PoolInfo` with the given acceleration structure, buffer and image
    /// resource capacity for any single bucket.
    pub fn with_capacity(resource_capacity: usize) -> (r: Self)
        ensures
            r == (PoolInfo {
                accel_struct_capacity: resource_capacity,
                buffer_capacity: resource_capacity,
                image_capacity: resource_capacity,
            }),
    {
        PoolInfo {
            accel_struct_capacity: resource_capacity,
            buffer_capacity: resource_capacity,
            image_capacity: resource_capacity,
        }
    }
}

impl Default for PoolInfo {
    fn default() -> (r: Self)
        ensures
            r == (PoolInfo { accel_struct_capacity: 16, buffer_capacity: 16, image_capacity: 16 }),
    {
        PoolInfoBuilder::default().build()
    }
}

impl From<usize> for PoolInfo {
    fn from(value: usize) -> (r: Self) {
        PoolInfo::with_capacity(value)
    }
}

impl vstd::std_specs::convert::FromSpecImpl<usize> for PoolInfo {
    open spec fn obeys_from_spec() -> bool {
        true
    }

    open spec fn from_spec(value: usize) -> Self {
        PoolInfo { accel_struct_capacity: value, buffer_capacity: value, image_capacity: value }
    }
}

/// Builds a `PoolInfo`; every capacity left unset takes the default.
#[derive(Clone, Copy, Debug, PartialEq, Eq, Structural)]
pub struct PoolInfoBuilder {
    /// The acceleration structure capacity, if set.
    pub accel_struct_capacity: Option<usize>,
    /// The buffer capacity, if set.
    pub buffer_capacity: Option<usize>,
    /// The image capacity, if set.
    pub image_capacity: Option<usize>,
}

/// The value if set, otherwise the default capacity.
pub open spec fn capacity_or_default(value: Option<usize>) -> usize {
    match value {
        Some(v) => v,
        None => 16,
    }
}

impl Default for PoolInfoBuilder {
    fn default() -> (r: Self)
        ensures
            r == (PoolInfoBuilder { accel_struct_capacity: None, buffer_capacity: None, image_capacity: None }),
    {
        PoolInfoBuilder { accel_struct_capacity: None, buffer_capacity: None, image_capacity: None }
    }
}

impl PoolInfoBuilder {
    /// Sets the acceleration structure capacity.
    pub fn accel_struct_capacity(self, value: usize) -> (r: Self)
        ensures
            r == (PoolInfoBuilder { accel_struct_capacity: Some(value), ..self }),
    {
        PoolInfoBuilder { accel_struct_capacity: Some(value), ..self }
    }

    /// Sets the buffer capacity.
    pub fn buffer_capacity(self, value: usize) -> (r: Self)
        ensures
            r == (PoolInfoBuilder { buffer_capacity: Some(value), ..self }),
    {
        PoolInfoBuilder { buffer_capacity: Some(value), ..self }
    }

    /// Sets the image capacity.
    pub fn image_capacity(self, value: usize) -> (r: Self)
        ensures
            r == (PoolInfoBuilder { image_capacity: Some(value), ..self }),
    {
        PoolInfoBuilder { image_capacity: Some(value), ..self }
    }

    /// Builds a new `PoolInfo`.
    pub fn build(self) -> (r: PoolInfo)
        ensures
            r == (PoolInfo {
                accel_struct_capacity: capacity_or_default(self.accel_struct_capacity),
                buffer_capacity: capacity_or_default(self.buffer_capacity),
                image_capacity: capacity_or_default(self.image_capacity),
            }),
    {
        PoolInfo {
            accel_struct_capacity: match self.accel_struct_capacity {
                Some(v) => v,
                None => DEFAULT_RESOURCE_CAPACITY,
            },
            buffer_capacity: match self.buffer_capacity {
                Some(v) => v,
                None => DEFAULT_RESOURCE_CAPACITY,
            },
            image_capacity: match self.image_capacity {
                Some(v) => v,
                None => DEFAULT_RESOURCE_CAPACITY,
            },
        }
    }
}

impl From<PoolInfoBuilder> for PoolInfo {
    fn from(info: PoolInfoBuilder) -> (r: Self) {
        info.build()
    }
}

impl vstd::std_specs::convert::FromSpecImpl<PoolInfoBuilder> for PoolInfo {
    open spec fn obeys_from_spec() -> bool {
        true
    }

    open spec fn from_spec(info: PoolInfoBuilder) -> Self {
        PoolInfo {
            accel_struct_capacity: capacity_or_default(info.accel_struct_capacity),
            buffer_capacity: capacity_or_default(info.buffer_capacity),
            image_capacity: capacity_or_default(info.image_capacity),
        }
    }
}

} // verus!
