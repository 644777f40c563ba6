//! The flat node and primitive records that the traversal shader reads.

use crate::bits::{difference, point_difference};
use crate::hierarchy::{nodes_in_range, BuiltNode};
use crate::triangle::{all_buildable, is_buildable, Triangle};
use vstd::prelude::*;

verus! {

/// Number of 16-byte slots that one primitive takes in the primitive
/// buffer: a node's `primitive_base_index` counts in these slots, from the
/// first primitive of its entry. Whoever traverses the nodes divides or
/// strides by this one number.
pub const PRIMITIVE_INDEX_SCALE: u32 = 3;

/// Bias of the exponent byte that the builder stores.
pub const EXPONENT_BIAS: u8 = 127;

/// A quantized eight-wide node.
///
/// The box of child `i` on axis `a` reaches from
/// `base_corner[a] + child_min[a][i] * 2^exponents[a]` to
/// `base_corner[a] + child_max[a][i] * 2^exponents[a]`. `child_base_index`
/// counts nodes, and `primitive_base_index` slots of
/// [`PRIMITIVE_INDEX_SCALE`] to a primitive, from the start of the entry
/// that owns the node: the entry's offsets are to be added.
#[derive(Clone, Copy, Debug, PartialEq, Eq)]
pub struct BVHNode {
    pub base_corner: [u32; 3],
    pub exponents: [i8; 3],
    pub internal_mask: u32,
    pub child_base_index: u32,
    pub primitive_base_index: u32,
    pub child_metadata: [u8; 8],
    pub child_min: [[u8; 8]; 3],
    pub child_max: [[u8; 8]; 3],
}

/// A triangle prepared for intersection: one corner and the two edges that
/// leave it, with the place that the triangle had in the mesh.
///
/// `edge_1` runs from the first corner to the third and `edge_2` from the
/// first to the second, for every primitive.
#[derive(Clone, Copy, Debug, PartialEq, Eq)]
pub struct BVHPrimitive {
    pub edge_1: [u32; 3],
    pub padding_0: u32,
    pub edge_2: [u32; 3],
    pub padding_1: u32,
    pub vertex_0: [u32; 3],
    pub original_primitive_index: u32,
}

/// The signed exponent that a biased exponent byte stands for, wrapped into
/// eight bits.
pub open spec fn exponent_of(biased: u8) -> i8 {
    if biased == 255 {
        -128i8
    } else {
        (biased - EXPONENT_BIAS) as i8
    }
}

/// The node record for a node of the builder.
pub open spec fn encoded_node(node: BuiltNode) -> BVHNode {
    BVHNode {
        base_corner: node.p,
        exponents: [exponent_of(node.e[0]), exponent_of(node.e[1]), exponent_of(node.e[2])],
        internal_mask: node.imask as u32,
        child_base_index: node.child_base_idx,
        primitive_base_index: (PRIMITIVE_INDEX_SCALE * node.primitive_base_idx) as u32,
        child_metadata: node.child_meta,
        child_min: [node.child_min_x, node.child_min_y, node.child_min_z],
        child_max: [node.child_max_x, node.child_max_y, node.child_max_z],
    }
}

/// The node records for the nodes of the builder, in the builder's order.
pub open spec fn encoded_nodes(nodes: Seq<BuiltNode>) -> Seq<BVHNode> {
    Seq::new(nodes.len(), |i: int| encoded_node(nodes[i]))
}

/// The primitive record of `triangle`, which had place `index` in the mesh.
pub open spec fn encoded_primitive(triangle: Triangle, index: u32) -> BVHPrimitive {
    let edge_1 = point_difference(triangle.v2@, triangle.v0@);
    let edge_2 = point_difference(triangle.v1@, triangle.v0@);
    BVHPrimitive {
        edge_1: [edge_1[0], edge_1[1], edge_1[2]],
        padding_0: 0,
        edge_2: [edge_2[0], edge_2[1], edge_2[2]],
        padding_1: 0,
        vertex_0: triangle.v0,
        original_primitive_index: index,
    }
}

/// The primitive records of `triangles` in the order that `indices` gives.
pub open spec fn encoded_primitives(triangles: Seq<Triangle>, indices: Seq<u32>) -> Seq<
    BVHPrimitive,
> {
    Seq::new(indices.len(), |k: int| encoded_primitive(triangles[indices[k] as int], indices[k]))
}

/// The places in the mesh that the records of `primitives` name, in order.
pub open spec fn original_indices(primitives: Seq<BVHPrimitive>) -> Seq<u32> {
    Seq::new(primitives.len(), |k: int| primitives[k].original_primitive_index)
}

/// The records encoded for an order name the places of that order: where
/// the order names every triangle once, so do the records, and there is one
/// record for each triangle.
pub proof fn lemma_encoded_primitives_keep_order(triangles: Seq<Triangle>, indices: Seq<u32>)
    ensures
        encoded_primitives(triangles, indices).len() == indices.len(),
        original_indices(encoded_primitives(triangles, indices)) == indices,
{
}

fn exponent(biased: u8) -> (signed: i8)
    ensures
        signed == exponent_of(biased),
{
    if biased == 255 {
        -128i8
    } else {
        (biased as i16 - EXPONENT_BIAS as i16) as i8
    }
}

fn encode_node(node: &BuiltNode) -> (record: BVHNode)
    requires
        PRIMITIVE_INDEX_SCALE * node.primitive_base_idx <= u32::MAX,
    ensures
        record == encoded_node(*node),
{
    BVHNode {
        base_corner: node.p,
        exponents: [exponent(node.e[0]), exponent(node.e[1]), exponent(node.e[2])],
        internal_mask: node.imask as u32,
        child_base_index: node.child_base_idx,
        primitive_base_index: PRIMITIVE_INDEX_SCALE * node.primitive_base_idx,
        child_metadata: node.child_meta,
        child_min: [node.child_min_x, node.child_min_y, node.child_min_z],
        child_max: [node.child_max_x, node.child_max_y, node.child_max_z],
    }
}

fn encode_primitive(triangle: &Triangle, index: u32) -> (record: BVHPrimitive)
    requires
        is_buildable(*triangle),
    ensures
        record == encoded_primitive(*triangle, index),
{
    let edge_1 = difference(&triangle.v2, &triangle.v0);
    let edge_2 = difference(&triangle.v1, &triangle.v0);
    let record = BVHPrimitive {
        edge_1,
        padding_0: 0,
        edge_2,
        padding_1: 0,
        vertex_0: triangle.v0,
        original_primitive_index: index,
    };
    proof {
        let wanted = encoded_primitive(*triangle, index);
        assert(record.edge_1 =~= wanted.edge_1);
        assert(record.edge_2 =~= wanted.edge_2);
    }
    record
}

/// Encodes the nodes of a hierarchy that describes `count` triangles.
pub(crate) fn encode_nodes(nodes: &Vec<BuiltNode>, count: usize) -> (records: Vec<BVHNode>)
    requires
        PRIMITIVE_INDEX_SCALE * count <= u32::MAX,
        nodes_in_range(nodes@, count as nat),
    ensures
        records@ == encoded_nodes(nodes@),
{
    let mut records: Vec<BVHNode> = Vec::with_capacity(nodes.len());
    let mut i: usize = 0;
    while i < nodes.len()
        invariant
            i <= nodes@.len(),
            PRIMITIVE_INDEX_SCALE * count <= u32::MAX,
            nodes_in_range(nodes@, count as nat),
            records@.len() == i,
            forall|j: int| 0 <= j < i ==> records@[j] == encoded_node(nodes@[j]),
        decreases nodes@.len() - i,
    {
        records.push(encode_node(&nodes[i]));
        i += 1;
    }
    records
}

/// Encodes the primitives of `triangles` in the order that `indices` gives.
pub(crate) fn encode_primitives(triangles: &Vec<Triangle>, indices: &Vec<u32>) -> (records: Vec<
    BVHPrimitive,
>)
    requires
        all_buildable(triangles@),
        forall|k: int| 0 <= k < indices@.len() ==> (#[trigger] indices@[k]) < triangles@.len(),
    ensures
        records@ == encoded_primitives(triangles@, indices@),
{
    let mut records: Vec<BVHPrimitive> = Vec::with_capacity(indices.len());
    let mut k: usize = 0;
    while k < indices.len()
        invariant
            k <= indices@.len(),
            all_buildable(triangles@),
            forall|j: int| 0 <= j < indices@.len() ==> (#[trigger] indices@[j]) < triangles@.len(),
            records@.len() == k,
            forall|j: int|
                0 <= j < k ==> records@[j] == encoded_primitive(
                    triangles@[indices@[j] as int],
                    indices@[j],
                ),
        decreases indices@.len() - k,
    {
        let index = indices[k];
        records.push(encode_primitive(&triangles[index as usize], index));
        k += 1;
    }
    records
}

} // verus!
