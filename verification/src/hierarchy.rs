//! The hierarchy as the builder returns it, and the checks that decide
//! whether it describes the triangles it was built from.

use vstd::prelude::*;

verus! {

/// A node of the compressed eight-wide hierarchy, field for field as the
/// builder lays it out.
#[derive(Clone, Copy, Debug, PartialEq, Eq)]
pub struct BuiltNode {
    /// Least corner of the node's box.
    pub p: [u32; 3],
    /// Biased exponent of the grid on which the children's boxes are stored,
    /// one for each axis.
    pub e: [u8; 3],
    /// Bit `i` is set where child `i` is an inner node.
    pub imask: u8,
    /// Index of the first child node.
    pub child_base_idx: u32,
    /// Index of the first primitive, in the builder's order.
    pub primitive_base_idx: u32,
    /// One byte of meta data for each child.
    pub child_meta: [u8; 8],
    pub child_min_x: [u8; 8],
    pub child_max_x: [u8; 8],
    pub child_min_y: [u8; 8],
    pub child_max_y: [u8; 8],
    pub child_min_z: [u8; 8],
    pub child_max_z: [u8; 8],
}

/// What a build returns: the nodes, and the order in which it wants the
/// triangles, each named by its place in the input.
#[derive(Debug)]
pub struct BuiltHierarchy {
    pub nodes: Vec<BuiltNode>,
    pub primitive_indices: Vec<u32>,
}

/// True when `indices` names each of `0 .. count` exactly once.
pub open spec fn is_permutation(indices: Seq<u32>, count: nat) -> bool {
    &&& indices.len() == count
    &&& forall|k: int| 0 <= k < indices.len() ==> (#[trigger] indices[k]) < count
    &&& forall|j: int, k: int|
        0 <= j < k < indices.len() ==> (#[trigger] indices[j]) != (#[trigger] indices[k])
    &&& forall|t: int| 0 <= t < count ==> #[trigger] is_named(indices, t)
}

/// True when some entry of `indices` is `t`.
pub open spec fn is_named(indices: Seq<u32>, t: int) -> bool {
    exists|k: int| #[trigger] names(indices, k, t)
}

/// True when entry `k` of `indices` is `t`.
pub open spec fn names(indices: Seq<u32>, k: int, t: int) -> bool {
    0 <= k < indices.len() && indices[k] == t
}

/// True when no node starts its children or its primitives beyond the end
/// of the hierarchy.
pub open spec fn nodes_in_range(nodes: Seq<BuiltNode>, count: nat) -> bool {
    forall|i: int|
        0 <= i < nodes.len() ==> (#[trigger] nodes[i]).primitive_base_idx <= count
            && nodes[i].child_base_idx <= nodes.len()
}

/// True when a hierarchy describes `count` triangles: it has a root, its
/// order names every triangle exactly once, and its nodes stay in range.
pub open spec fn describes(nodes: Seq<BuiltNode>, indices: Seq<u32>, count: nat) -> bool {
    &&& nodes.len() > 0
    &&& is_permutation(indices, count)
    &&& nodes_in_range(nodes, count)
}

/// Tells whether `indices` names each of `0 .. count` exactly once.
pub fn check_permutation(indices: &Vec<u32>, count: usize) -> (valid: bool)
    ensures
        valid == is_permutation(indices@, count as nat),
{
    if indices.len() != count {
        return false;
    }
    let mut seen: Vec<bool> = Vec::with_capacity(count);
    let mut t: usize = 0;
    while t < count
        invariant
            t <= count,
            seen@.len() == t,
            forall|s: int| 0 <= s < t ==> !(#[trigger] seen@[s]),
        decreases count - t,
    {
        seen.push(false);
        t += 1;
    }
    let mut k: usize = 0;
    while k < count
        invariant
            k <= count,
            count == indices@.len(),
            seen@.len() == count,
            forall|j: int| 0 <= j < k ==> (#[trigger] indices@[j]) < count,
            forall|i: int, j: int|
                0 <= i < j < k ==> (#[trigger] indices@[i]) != (#[trigger] indices@[j]),
            forall|j: int| 0 <= j < k ==> seen@[(#[trigger] indices@[j]) as int],
            forall|s: int|
                0 <= s < count && (#[trigger] seen@[s]) ==> is_named(
                    indices@.subrange(0, k as int),
                    s,
                ),
        decreases count - k,
    {
        let target = indices[k] as usize;
        if target >= count {
            return false;
        }
        if seen[target] {
            proof {
                let j = choose|j: int| #[trigger]
                    names(indices@.subrange(0, k as int), j, target as int);
                assert(indices@[j] == indices@[k as int]);
            }
            return false;
        }
        proof {
            assert forall|i: int| 0 <= i < k implies (#[trigger] indices@[i]) != indices@[k as int] by {
                if indices@[i] == indices@[k as int] {
                    assert(seen@[indices@[i] as int]);
                }
            }
        }
        let ghost before = seen@;
        seen.set(target, true);
        proof {
            let longer = indices@.subrange(0, k + 1);
            assert forall|s: int| 0 <= s < count && (#[trigger] seen@[s]) implies is_named(
                longer,
                s,
            ) by {
                if s == target {
                    assert(names(longer, k as int, s));
                } else {
                    assert(before[s]);
                    let j = choose|j: int| #[trigger]
                        names(indices@.subrange(0, k as int), j, s);
                    assert(names(longer, j, s));
                }
            }
        }
        k += 1;
    }
    assert(indices@.subrange(0, count as int) =~= indices@);
    let mut s: usize = 0;
    while s < count
        invariant
            s <= count,
            count == indices@.len(),
            seen@.len() == count,
            forall|r: int| 0 <= r < count && (#[trigger] seen@[r]) ==> is_named(indices@, r),
            forall|j: int| 0 <= j < count ==> seen@[(#[trigger] indices@[j]) as int],
            forall|r: int| 0 <= r < s ==> #[trigger] is_named(indices@, r),
        decreases count - s,
    {
        if !seen[s] {
            proof {
                if is_named(indices@, s as int) {
                    let j = choose|j: int| #[trigger] names(indices@, j, s as int);
                    assert(seen@[indices@[j] as int]);
                }
            }
            return false;
        }
        s += 1;
    }
    true
}

/// Tells whether no node starts its children or its primitives beyond the
/// end of the hierarchy.
pub fn check_nodes_in_range(nodes: &Vec<BuiltNode>, count: usize) -> (valid: bool)
    ensures
        valid == nodes_in_range(nodes@, count as nat),
{
    let mut i: usize = 0;
    while i < nodes.len()
        invariant
            i <= nodes@.len(),
            forall|j: int|
                0 <= j < i ==> (#[trigger] nodes@[j]).primitive_base_idx <= count
                    && nodes@[j].child_base_idx <= nodes@.len(),
        decreases nodes@.len() - i,
    {
        let node = &nodes[i];
        if node.primitive_base_idx as usize > count || node.child_base_idx as usize
            > nodes.len() {
            return false;
        }
        i += 1;
    }
    true
}

impl BuiltHierarchy {
    /// Tells whether the hierarchy describes `count` triangles.
    pub fn check(&self, count: usize) -> (valid: bool)
        ensures
            valid == describes(self.nodes@, self.primitive_indices@, count as nat),
    {
        self.nodes.len() > 0 && check_permutation(&self.primitive_indices, count)
            && check_nodes_in_range(&self.nodes, count)
    }
}

} // verus!
