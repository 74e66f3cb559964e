use vstd::prelude::*;

verus! {

/// Identifier of a value that flows through a tensor graph.
#[derive(Debug, Clone, Copy, PartialEq, Eq, Structural, Hash)]
pub struct ValueId(pub u32);

/// Identifier of an operation node of a tensor graph.
#[derive(Debug, Clone, Copy, PartialEq, Eq, Structural, Hash)]
pub struct NodeId(pub u32);

/// Element type of a tensor.
#[derive(Debug, Clone, Copy, PartialEq, Eq, Structural)]
pub enum DType {
    F32,
}

/// Element type and shape of a tensor; `[2, 3]` is a 2×3 matrix, stored row-major.
#[derive(Debug, Clone)]
pub struct TensorDesc {
    pub dtype: DType,
    pub shape: Vec<usize>,
}

/// A property of a node in a node graph: the node, and the property's key.
#[derive(Debug, Clone, PartialEq, Eq, Hash)]
pub struct PropertyId {
    pub node_id: usize,
    pub key: String,
}

impl PropertyId {
    pub fn new(node_id: usize, key: &str) -> (r: PropertyId)
        ensures
            r.node_id == node_id,
            r.key@ == key@,
    {
        PropertyId { node_id, key: key.to_owned() }
    }
}

/// The backend that runs tensor graphs on the CPU.
#[derive(Debug)]
pub struct CpuBackend;

impl CpuBackend {
    pub fn new() -> (r: CpuBackend)
        ensures
            r == CpuBackend,
    {
        CpuBackend
    }
}

} // verus!
