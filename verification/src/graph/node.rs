//! Resources bound to a render graph, known by their node index.
use vstd::prelude::*;

verus! {

/// The index of a bound resource within its render graph.
pub type NodeIndex = usize;

/// A resource which has been bound to a render graph.
pub trait Node: Copy {
    /// The node index of this bound resource.
    spec fn node_index(&self) -> NodeIndex;

    /// The internal node index of this bound resource.
    fn index(self) -> (r: NodeIndex)
        ensures
            r == self.node_index(),
    ;
}

/// A bound resource node.
#[derive(Clone, Copy, Debug, PartialEq, Eq, Structural)]
pub struct AccelerationStructureNode {
    idx: NodeIndex,
}

impl AccelerationStructureNode {
    /// The node with the given index.
    pub fn new(idx: NodeIndex) -> (r: Self)
        ensures
            r.node_index() == idx,
    {
        AccelerationStructureNode { idx }
    }
}

impl Node for AccelerationStructureNode {
    closed spec fn node_index(&self) -> NodeIndex {
        self.idx
    }

    fn index(self) -> (r: NodeIndex) {
        self.idx
    }
}

/// A bound resource node.
#[derive(Clone, Copy, Debug, PartialEq, Eq, Structural)]
pub struct AccelerationStructureLeaseNode {
    idx: NodeIndex,
}

impl AccelerationStructureLeaseNode {
    /// The node with the given index.
    pub fn new(idx: NodeIndex) -> (r: Self)
        ensures
            r.node_index() == idx,
    {
        AccelerationStructureLeaseNode { idx }
    }
}

impl Node for AccelerationStructureLeaseNode {
    closed spec fn node_index(&self) -> NodeIndex {
        self.idx
    }

    fn index(self) -> (r: NodeIndex) {
        self.idx
    }
}

/// A bound resource node.
#[derive(Clone, Copy, Debug, PartialEq, Eq, Structural)]
pub struct BufferNode {
    idx: NodeIndex,
}

impl BufferNode {
    /// The node with the given index.
    pub fn new(idx: NodeIndex) -> (r: Self)
        ensures
            r.node_index() == idx,
    {
        BufferNode { idx }
    }
}

impl Node for BufferNode {
    closed spec fn node_index(&self) -> NodeIndex {
        self.idx
    }

    fn index(self) -> (r: NodeIndex) {
        self.idx
    }
}

/// A bound resource node.
#[derive(Clone, Copy, Debug, PartialEq, Eq, Structural)]
pub struct BufferLeaseNode {
    idx: NodeIndex,
}

impl BufferLeaseNode {
    /// The node with the given index.
    pub fn new(idx: NodeIndex) -> (r: Self)
        ensures
            r.node_index() == idx,
    {
        BufferLeaseNode { idx }
    }
}

impl Node for BufferLeaseNode {
    closed spec fn node_index(&self) -> NodeIndex {
        self.idx
    }

    fn index(self) -> (r: NodeIndex) {
        self.idx
    }
}

/// A bound resource node.
#[derive(Clone, Copy, Debug, PartialEq, Eq, Structural)]
pub struct ImageNode {
    idx: NodeIndex,
}

impl ImageNode {
    /// The node with the given index.
    pub fn new(idx: NodeIndex) -> (r: Self)
        ensures
            r.node_index() == idx,
    {
        ImageNode { idx }
    }
}

impl Node for ImageNode {
    closed spec fn node_index(&self) -> NodeIndex {
        self.idx
    }

    fn index(self) -> (r: NodeIndex) {
        self.idx
    }
}

/// A bound resource node.
#[derive(Clone, Copy, Debug, PartialEq, Eq, Structural)]
pub struct ImageLeaseNode {
    idx: NodeIndex,
}

impl ImageLeaseNode {
    /// The node with the given index.
    pub fn new(idx: NodeIndex) -> (r: Self)
        ensures
            r.node_index() == idx,
    {
        ImageLeaseNode { idx }
    }
}

impl Node for ImageLeaseNode {
    closed spec fn node_index(&self) -> NodeIndex {
        self.idx
    }

    fn index(self) -> (r: NodeIndex) {
        self.idx
    }
}

/// A bound resource node.
#[derive(Clone, Copy, Debug, PartialEq, Eq, Structural)]
pub struct SwapchainImageNode {
    idx: NodeIndex,
}

impl SwapchainImageNode {
    /// The node with the given index.
    pub fn new(idx: NodeIndex) -> (r: Self)
        ensures
            r.node_index() == idx,
    {
        SwapchainImageNode { idx }
    }
}

impl Node for SwapchainImageNode {
    closed spec fn node_index(&self) -> NodeIndex {
        self.idx
    }

    fn index(self) -> (r: NodeIndex) {
        self.idx
    }
}

/// Specifies either an owned acceleration structure or an acceleration structure leased from a pool.
#[derive(Clone, Copy, Debug, PartialEq, Eq, Structural)]
pub enum AnyAccelerationStructureNode {
    /// An owned acceleration structure.
    AccelerationStructure(AccelerationStructureNode),
    /// An acceleration structure leased from a pool.
    AccelerationStructureLease(AccelerationStructureLeaseNode),
}

impl Node for AnyAccelerationStructureNode {
    open spec fn node_index(&self) -> NodeIndex {
        match *self {
            AnyAccelerationStructureNode::AccelerationStructure(node) => node.node_index(),
            AnyAccelerationStructureNode::AccelerationStructureLease(node) => node.node_index(),
        }
    }

    fn index(self) -> (r: NodeIndex) {
        match self {
            AnyAccelerationStructureNode::AccelerationStructure(node) => node.index(),
            AnyAccelerationStructureNode::AccelerationStructureLease(node) => node.index(),
        }
    }
}

impl From<AccelerationStructureNode> for AnyAccelerationStructureNode {
    fn from(node: AccelerationStructureNode) -> (r: Self) {
        AnyAccelerationStructureNode::AccelerationStructure(node)
    }
}

impl vstd::std_specs::convert::FromSpecImpl<AccelerationStructureNode> for AnyAccelerationStructureNode {
    open spec fn obeys_from_spec() -> bool {
        true
    }

    open spec fn from_spec(node: AccelerationStructureNode) -> Self {
        AnyAccelerationStructureNode::AccelerationStructure(node)
    }
}

impl From<AccelerationStructureLeaseNode> for AnyAccelerationStructureNode {
    fn from(node: AccelerationStructureLeaseNode) -> (r: Self) {
        AnyAccelerationStructureNode::AccelerationStructureLease(node)
    }
}

impl vstd::std_specs::convert::FromSpecImpl<AccelerationStructureLeaseNode> for AnyAccelerationStructureNode {
    open spec fn obeys_from_spec() -> bool {
        true
    }

    open spec fn from_spec(node: AccelerationStructureLeaseNode) -> Self {
        AnyAccelerationStructureNode::AccelerationStructureLease(node)
    }
}

/// Specifies either an owned buffer or a buffer leased from a pool.
#[derive(Clone, Copy, Debug, PartialEq, Eq, Structural)]
pub enum AnyBufferNode {
    /// An owned buffer.
    Buffer(BufferNode),
    /// A buffer leased from a pool.
    BufferLease(BufferLeaseNode),
}

impl Node for AnyBufferNode {
    open spec fn node_index(&self) -> NodeIndex {
        match *self {
            AnyBufferNode::Buffer(node) => node.node_index(),
            AnyBufferNode::BufferLease(node) => node.node_index(),
        }
    }

    fn index(self) -> (r: NodeIndex) {
        match self {
            AnyBufferNode::Buffer(node) => node.index(),
            AnyBufferNode::BufferLease(node) => node.index(),
        }
    }
}

impl From<BufferNode> for AnyBufferNode {
    fn from(node: BufferNode) -> (r: Self) {
        AnyBufferNode::Buffer(node)
    }
}

impl vstd::std_specs::convert::FromSpecImpl<BufferNode> for AnyBufferNode {
    open spec fn obeys_from_spec() -> bool {
        true
    }

    open spec fn from_spec(node: BufferNode) -> Self {
        AnyBufferNode::Buffer(node)
    }
}

impl From<BufferLeaseNode> for AnyBufferNode {
    fn from(node: BufferLeaseNode) -> (r: Self) {
        AnyBufferNode::BufferLease(node)
    }
}

impl vstd::std_specs::convert::FromSpecImpl<BufferLeaseNode> for AnyBufferNode {
    open spec fn obeys_from_spec() -> bool {
        true
    }

    open spec fn from_spec(node: BufferLeaseNode) -> Self {
        AnyBufferNode::BufferLease(node)
    }
}

/// Specifies either an owned image or an image leased from a pool.
///
/// The image may also be a special swapchain type of image.
#[derive(Clone, Copy, Debug, PartialEq, Eq, Structural)]
pub enum AnyImageNode {
    /// An owned image.
    Image(ImageNode),
    /// An image leased from a pool.
    ImageLease(ImageLeaseNode),
    /// A special swapchain image.
    SwapchainImage(SwapchainImageNode),
}

impl Node for AnyImageNode {
    open spec fn node_index(&self) -> NodeIndex {
        match *self {
            AnyImageNode::Image(node) => node.node_index(),
            AnyImageNode::ImageLease(node) => node.node_index(),
            AnyImageNode::SwapchainImage(node) => node.node_index(),
        }
    }

    fn index(self) -> (r: NodeIndex) {
        match self {
            AnyImageNode::Image(node) => node.index(),
            AnyImageNode::ImageLease(node) => node.index(),
            AnyImageNode::SwapchainImage(node) => node.index(),
        }
    }
}

impl From<ImageNode> for AnyImageNode {
    fn from(node: ImageNode) -> (r: Self) {
        AnyImageNode::Image(node)
    }
}

impl vstd::std_specs::convert::FromSpecImpl<ImageNode> for AnyImageNode {
    open spec fn obeys_from_spec() -> bool {
        true
    }

    open spec fn from_spec(node: ImageNode) -> Self {
        AnyImageNode::Image(node)
    }
}

impl From<ImageLeaseNode> for AnyImageNode {
    fn from(node: ImageLeaseNode) -> (r: Self) {
        AnyImageNode::ImageLease(node)
    }
}

impl vstd::std_specs::convert::FromSpecImpl<ImageLeaseNode> for AnyImageNode {
    open spec fn obeys_from_spec() -> bool {
        true
    }

    open spec fn from_spec(node: ImageLeaseNode) -> Self {
        AnyImageNode::ImageLease(node)
    }
}

impl From<SwapchainImageNode> for AnyImageNode {
    fn from(node: SwapchainImageNode) -> (r: Self) {
        AnyImageNode::SwapchainImage(node)
    }
}

impl vstd::std_specs::convert::FromSpecImpl<SwapchainImageNode> for AnyImageNode {
    open spec fn obeys_from_spec() -> bool {
        true
    }

    open spec fn from_spec(node: SwapchainImageNode) -> Self {
        AnyImageNode::SwapchainImage(node)
    }
}

} // verus!
