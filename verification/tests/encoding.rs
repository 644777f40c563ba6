use albedo_rtx::bits::{check_finite, check_matrix_finite, check_point_finite};
use albedo_rtx::hierarchy::{check_nodes_in_range, check_permutation};
use albedo_rtx::mesh::Vertex;
use albedo_rtx::{
    BLASArray, BLASEntryDescriptor, BVHNode, BVHPrimitive, BuiltHierarchy, BuiltNode, Error,
};

fn vertex(x: f32, y: f32, z: f32) -> Vertex {
    Vertex { position: [x.to_bits(), y.to_bits(), z.to_bits(), 0], normal: [0; 4] }
}

fn two_triangles() -> Vec<Vertex> {
    vec![
        vertex(0.0, 0.0, 0.0),
        vertex(1.0, 0.0, 0.0),
        vertex(0.0, 1.0, 0.0),
        vertex(4.0, 4.0, 4.0),
        vertex(6.0, 4.5, 4.0),
        vertex(4.0, 8.0, 1.0),
    ]
}

fn node() -> BuiltNode {
    BuiltNode {
        p: [0.5f32.to_bits(), 0, 0],
        e: [120, 127, 0],
        imask: 0b1000_0001,
        child_base_idx: 1,
        primitive_base_idx: 2,
        child_meta: [1, 2, 3, 4, 5, 6, 7, 8],
        child_min_x: [1; 8],
        child_max_x: [2; 8],
        child_min_y: [3; 8],
        child_max_y: [4; 8],
        child_min_z: [5; 8],
        child_max_z: [6; 8],
    }
}

#[test]
fn hierarchy_is_encoded_field_for_field() {
    let mut second = node();
    second.e = [255, 128, 126];
    second.primitive_base_idx = 0;
    second.child_base_idx = 2;
    let built = BuiltHierarchy { nodes: vec![node(), second], primitive_indices: vec![1, 0] };
    let mut blas = BLASArray::new();
    assert_eq!(blas.append_built(two_triangles(), &built), Ok(0));
    assert_eq!(blas.entries, vec![BLASEntryDescriptor { node: 0, primitive: 0, vertex: 0 }]);
    assert_eq!(blas.vertices, two_triangles());
    assert_eq!(
        blas.nodes,
        vec![
            BVHNode {
                base_corner: [0.5f32.to_bits(), 0, 0],
                exponents: [-7, 0, -127],
                internal_mask: 0b1000_0001,
                child_base_index: 1,
                primitive_base_index: 6,
                child_metadata: [1, 2, 3, 4, 5, 6, 7, 8],
                child_min: [[1; 8], [3; 8], [5; 8]],
                child_max: [[2; 8], [4; 8], [6; 8]],
            },
            BVHNode {
                base_corner: [0.5f32.to_bits(), 0, 0],
                exponents: [-128, 1, -1],
                internal_mask: 0b1000_0001,
                child_base_index: 2,
                primitive_base_index: 0,
                child_metadata: [1, 2, 3, 4, 5, 6, 7, 8],
                child_min: [[1; 8], [3; 8], [5; 8]],
                child_max: [[2; 8], [4; 8], [6; 8]],
            },
        ]
    );
    let bits = |x: f32, y: f32, z: f32| [x.to_bits(), y.to_bits(), z.to_bits()];
    assert_eq!(
        blas.primitives,
        vec![
            BVHPrimitive {
                edge_1: bits(0.0, 4.0, -3.0),
                padding_0: 0,
                edge_2: bits(2.0, 0.5, 0.0),
                padding_1: 0,
                vertex_0: bits(4.0, 4.0, 4.0),
                original_primitive_index: 1,
            },
            BVHPrimitive {
                edge_1: bits(0.0, 1.0, 0.0),
                padding_0: 0,
                edge_2: bits(1.0, 0.0, 0.0),
                padding_1: 0,
                vertex_0: bits(0.0, 0.0, 0.0),
                original_primitive_index: 0,
            },
        ]
    );
}

#[test]
fn second_mesh_starts_where_the_first_ends() {
    let built = BuiltHierarchy { nodes: vec![node(), node(), node()], primitive_indices: vec![0, 1] };
    let mut blas = BLASArray::new();
    assert_eq!(blas.append_built(two_triangles(), &built), Ok(0));
    let built = BuiltHierarchy { nodes: vec![node()], primitive_indices: vec![1, 0] };
    assert_eq!(blas.append_built(two_triangles(), &built), Ok(1));
    assert_eq!(blas.entries[1], BLASEntryDescriptor { node: 3, primitive: 2, vertex: 6 });
    assert_eq!(blas.nodes.len(), 4);
    assert_eq!(blas.primitives.len(), 4);
    assert_eq!(blas.vertices.len(), 12);
    assert_eq!(blas.primitives[2].original_primitive_index, 1);
    assert_eq!(blas.nodes[3].primitive_base_index, 6);
}

fn refused(vertices: Vec<Vertex>, built: BuiltHierarchy, error: Error) {
    let mut blas = BLASArray::new();
    let good = BuiltHierarchy { nodes: vec![node()], primitive_indices: vec![0, 1] };
    blas.append_built(two_triangles(), &good).unwrap();
    assert_eq!(blas.append_built(vertices, &built), Err(error));
    assert_eq!(blas.entries.len(), 1);
    assert_eq!(blas.nodes.len(), 1);
    assert_eq!(blas.primitives.len(), 2);
    assert_eq!(blas.vertices, two_triangles());
}

#[test]
fn hierarchy_that_does_not_describe_the_run_is_a_build_failure() {
    let nodes = || vec![node()];
    for indices in [vec![], vec![0], vec![0, 0], vec![1, 1], vec![0, 2], vec![0, 1, 1], vec![0, 1, 2]] {
        refused(
            two_triangles(),
            BuiltHierarchy { nodes: nodes(), primitive_indices: indices },
            Error::BuildFailure,
        );
    }
    refused(
        two_triangles(),
        BuiltHierarchy { nodes: vec![], primitive_indices: vec![0, 1] },
        Error::BuildFailure,
    );
    let mut far = node();
    far.primitive_base_idx = 3;
    refused(
        two_triangles(),
        BuiltHierarchy { nodes: vec![node(), far], primitive_indices: vec![0, 1] },
        Error::BuildFailure,
    );
    let mut far = node();
    far.child_base_idx = 3;
    refused(
        two_triangles(),
        BuiltHierarchy { nodes: vec![far, node()], primitive_indices: vec![0, 1] },
        Error::BuildFailure,
    );
}

#[test]
fn run_is_looked_at_before_the_hierarchy() {
    let good = || BuiltHierarchy { nodes: vec![node()], primitive_indices: vec![0, 1] };
    let mut short = two_triangles();
    short.pop();
    refused(short, good(), Error::MalformedMesh);
    refused(vec![], good(), Error::BuildFailure);
    let mut broken = two_triangles();
    broken[4].position[1] = f32::NAN.to_bits();
    refused(broken, good(), Error::BuildFailure);
    let mut broken = two_triangles();
    broken[0].position[2] = f32::NEG_INFINITY.to_bits();
    refused(broken, good(), Error::BuildFailure);
    // the fourth word carries a texture coordinate and is not a coordinate
    let mut fine = two_triangles();
    fine[0].position[3] = f32::NAN.to_bits();
    fine[0].normal = [f32::NAN.to_bits(); 4];
    let mut blas = BLASArray::new();
    assert_eq!(blas.append_built(fine, &good()), Ok(0));
}

#[test]
fn permutations_are_told_apart() {
    assert!(check_permutation(&vec![], 0));
    assert!(check_permutation(&vec![0], 1));
    assert!(check_permutation(&vec![2, 0, 3, 1], 4));
    assert!(!check_permutation(&vec![], 1));
    assert!(!check_permutation(&vec![0], 0));
    assert!(!check_permutation(&vec![1], 1));
    assert!(!check_permutation(&vec![2, 0, 2, 1], 4));
    assert!(!check_permutation(&vec![2, 0, 4, 1], 4));
    assert!(!check_permutation(&vec![0, 1, 2], 4));
    assert!(!check_permutation(&vec![0, 1, 2, 3, 3], 4));
    assert!(!check_permutation(&vec![u32::MAX, 0], 2));
}

#[test]
fn nodes_must_start_inside_the_hierarchy() {
    let mut at_end = node();
    at_end.child_base_idx = 2;
    at_end.primitive_base_idx = 5;
    assert!(check_nodes_in_range(&vec![node(), at_end], 5));
    assert!(!check_nodes_in_range(&vec![node(), at_end], 4));
    assert!(!check_nodes_in_range(&vec![at_end], 5));
    assert!(check_nodes_in_range(&vec![], 0));
}

#[test]
fn patterns_are_classified() {
    for number in [0.0f32, -0.0, 1.0, -1.0, f32::MAX, f32::MIN, f32::MIN_POSITIVE, 1.0e-45] {
        assert!(check_finite(number.to_bits()));
    }
    for other in [f32::INFINITY, f32::NEG_INFINITY, f32::NAN, -f32::NAN] {
        assert!(!check_finite(other.to_bits()));
    }
    assert!(check_finite(0x7f7f_ffff));
    assert!(!check_finite(0x7f80_0000));
    assert!(!check_finite(0x7fc0_0001));
    assert!(!check_finite(0xff80_0000));
    assert!(check_point_finite(&[0, 0x3f80_0000, 0x7f7f_ffff]));
    assert!(check_point_finite(&[0x8000_0000, 0xff7f_ffff, 1]));
    assert!(!check_point_finite(&[0x7fc0_0000, 0, 0]));
    assert!(!check_point_finite(&[0, 0x7f80_0000, 0]));
    assert!(!check_point_finite(&[0, 0, 0xff80_0000]));
    let mut matrix = [1.0f32.to_bits(); 16];
    assert!(check_matrix_finite(&matrix));
    matrix[15] = f32::INFINITY.to_bits();
    assert!(!check_matrix_finite(&matrix));
    matrix[15] = f32::MAX.to_bits();
    matrix[0] = f32::NAN.to_bits();
    assert!(!check_matrix_finite(&matrix));
}
