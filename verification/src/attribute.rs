//! Names of vertex attributes, and index data of either width.

use vstd::prelude::*;

verus! {

/// The name of a vertex attribute.
#[derive(Clone, Copy, Debug, Default, PartialEq, Eq)]
pub struct AttributeId(pub &'static str);

/// Name of the attribute that holds positions.
pub const POSITION: &'static str = "POSITION";

/// Name of the attribute that holds normals.
pub const NORMAL: &'static str = "NORMAL";

/// Name of the attribute that holds the first set of texture coordinates.
pub const TEX_COORDS_0: &'static str = "TEX_COORDS_0";

impl AttributeId {
    /// The attribute that holds positions.
    pub fn position() -> (id: Self)
        ensures
            id == AttributeId(POSITION),
    {
        AttributeId(POSITION)
    }

    /// The attribute that holds normals.
    pub fn normal() -> (id: Self)
        ensures
            id == AttributeId(NORMAL),
    {
        AttributeId(NORMAL)
    }

    /// The attribute that holds the first set of texture coordinates.
    pub fn tex_coords_0() -> (id: Self)
        ensures
            id == AttributeId(TEX_COORDS_0),
    {
        AttributeId(TEX_COORDS_0)
    }
}

/// The index array of a mesh, 16 or 32 bits to an index.
#[derive(Clone, Debug, PartialEq, Eq)]
pub enum IndexData {
    U16(Vec<u16>),
    U32(Vec<u32>),
}

impl IndexData {
    /// The indices, each widened to 32 bits.
    pub open spec fn view(&self) -> Seq<u32> {
        match self {
            IndexData::U16(indices) => Seq::new(indices@.len(), |k: int| indices@[k] as u32),
            IndexData::U32(indices) => indices@,
        }
    }

    /// Number of indices.
    pub fn len(&self) -> (count: usize)
        ensures
            count == self@.len(),
    {
        match self {
            IndexData::U16(indices) => indices.len(),
            IndexData::U32(indices) => indices.len(),
        }
    }

    /// The indices as 32-bit indices, in order.
    pub fn to_u32(&self) -> (indices: Vec<u32>)
        ensures
            indices@ == self@,
    {
        match self {
            IndexData::U16(narrow) => {
                let mut indices: Vec<u32> = Vec::with_capacity(narrow.len());
                let mut k: usize = 0;
                while k < narrow.len()
                    invariant
                        k <= narrow@.len(),
                        indices@.len() == k,
                        forall|j: int| 0 <= j < k ==> indices@[j] == narrow@[j] as u32,
                    decreases narrow@.len() - k,
                {
                    indices.push(narrow[k] as u32);
                    k += 1;
                }
                indices
            },
            IndexData::U32(wide) => {
                let mut indices: Vec<u32> = Vec::with_capacity(wide.len());
                let mut k: usize = 0;
                while k < wide.len()
                    invariant
                        k <= wide@.len(),
                        indices@.len() == k,
                        forall|j: int| 0 <= j < k ==> indices@[j] == wide@[j],
                    decreases wide@.len() - k,
                {
                    indices.push(wide[k]);
                    k += 1;
                }
                indices
            },
        }
    }
}

} // verus!
