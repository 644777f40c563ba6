use albedo_rtx::triangle::{check_buildable, extract_triangles};
use albedo_rtx::{
    BLASArray, BuiltHierarchy, BuiltNode, Error, MeshDescriptor, StridedSlice, Triangle,
};

fn corner(patterns: [u32; 3]) -> glam::Vec3A {
    glam::Vec3A::from_array(patterns.map(f32::from_bits))
}

/// Runs the builder over `triangles`.
fn build_hierarchy(triangles: &[Triangle]) -> BuiltHierarchy {
    let corners: Vec<obvhs::triangle::Triangle> = triangles
        .iter()
        .map(|triangle| obvhs::triangle::Triangle {
            v0: corner(triangle.v0),
            v1: corner(triangle.v1),
            v2: corner(triangle.v2),
        })
        .collect();
    let bvh = obvhs::cwbvh::builder::build_cwbvh_from_tris(
        &corners,
        obvhs::BvhBuildParams::medium_build(),
        &mut std::time::Duration::default(),
    );
    BuiltHierarchy {
        nodes: bvh
            .nodes
            .iter()
            .map(|node| BuiltNode {
                p: node.p.to_array().map(f32::to_bits),
                e: node.e,
                imask: node.imask,
                child_base_idx: node.child_base_idx,
                primitive_base_idx: node.primitive_base_idx,
                child_meta: node.child_meta,
                child_min_x: node.child_min_x,
                child_max_x: node.child_max_x,
                child_min_y: node.child_min_y,
                child_max_y: node.child_max_y,
                child_min_z: node.child_min_z,
                child_max_z: node.child_max_z,
            })
            .collect(),
        primitive_indices: bvh.primitive_indices,
    }
}

/// Builds the hierarchy of `mesh` where one can be built, and adds the mesh.
fn add_mesh(blas: &mut BLASArray, mesh: MeshDescriptor) -> Result<u32, Error> {
    let built = match extract_triangles(&mesh) {
        Ok(triangles) if check_buildable(&triangles) => build_hierarchy(&triangles),
        _ => BuiltHierarchy { nodes: vec![], primitive_indices: vec![] },
    };
    blas.add_bvh(mesh, &built)
}

fn words(values: &[f32]) -> Vec<u32> {
    values.iter().map(|value| value.to_bits()).collect()
}

fn build(positions: &[f32]) -> BLASArray {
    let positions = words(positions);
    let mesh = MeshDescriptor {
        positions: StridedSlice::packed(&positions, 3).unwrap(),
        normals: None,
        texcoords0: None,
    };
    let mut blas = BLASArray::new();
    let count = positions.len() / 9;
    match add_mesh(&mut blas, mesh) {
        Ok(index) => {
            assert_eq!(index, 0);
            assert_eq!(blas.primitives.len(), count);
            assert_eq!(blas.vertices.len(), 3 * count);
            assert!(!blas.nodes.is_empty());
            let mut places: Vec<u32> =
                blas.primitives.iter().map(|primitive| primitive.original_primitive_index).collect();
            places.sort();
            assert!(places.iter().enumerate().all(|(place, &named)| place as u32 == named));
        }
        Err(_) => {
            assert!(blas.entries.is_empty());
            assert!(blas.nodes.is_empty());
            assert!(blas.primitives.is_empty());
            assert!(blas.vertices.is_empty());
        }
    }
    blas
}

/// A small generator of numbers that needs no outside crate.
struct Sequence(u64);

impl Sequence {
    fn next(&mut self) -> u64 {
        self.0 = self.0.wrapping_mul(6364136223846793005).wrapping_add(1442695040888963407);
        self.0 >> 33
    }

    fn unit(&mut self) -> f32 {
        (self.next() % 10_000) as f32 / 10_000.0
    }
}

#[test]
fn triangles_without_area_build() {
    build(&[1.0, 2.0, 3.0, 1.0, 2.0, 3.0, 1.0, 2.0, 3.0]);
    build(&[0.0; 9]);
    build(&[0.0, 0.0, 0.0, 1.0, 1.0, 1.0, 2.0, 2.0, 2.0]);
    build(&[-0.0, 0.0, -0.0, 0.0, -0.0, 0.0, -0.0, -0.0, -0.0]);
}

#[test]
fn very_small_and_very_large_triangles_build() {
    let tiny = f32::from_bits(1);
    let small = 1.0e-30f32;
    let large = 1.0e12f32;
    build(&[tiny, 0.0, 0.0, 0.0, tiny, 0.0, 0.0, 0.0, tiny]);
    build(&[small, 0.0, 0.0, 0.0, small, 0.0, 0.0, 0.0, small]);
    build(&[large, -large, large, -large, large, -large, large, large, large]);
    build(&[
        tiny, 0.0, 0.0, 0.0, tiny, 0.0, 0.0, 0.0, tiny, //
        large, -large, large, -large, large, -large, large, large, large, //
        small, small, small, -small, small, -small, 1.0, 2.0, 3.0,
    ]);
}

#[test]
fn scattered_triangles_build() {
    let mut sequence = Sequence(7);
    for round in 0..40 {
        let count = 1 + (sequence.next() % 300) as usize;
        let spread = [1.0e-6f32, 1.0, 1.0e3, 1.0e9][round % 4];
        let mut positions = Vec::with_capacity(9 * count);
        for _ in 0..count {
            let centre = [sequence.unit() * spread, sequence.unit() * spread, sequence.unit() * spread];
            let size = sequence.unit() * spread * 0.1;
            for _ in 0..3 {
                for axis in 0..3 {
                    positions.push(centre[axis] + (sequence.unit() - 0.5) * size);
                }
            }
        }
        build(&positions);
    }
}

#[test]
fn a_larger_mesh_builds() {
    let mut sequence = Sequence(99);
    let count = 20_000;
    let mut positions = Vec::with_capacity(9 * count);
    for _ in 0..count {
        let centre = [sequence.unit() * 100.0, sequence.unit() * 100.0, sequence.unit() * 100.0];
        for _ in 0..3 {
            for axis in 0..3 {
                positions.push(centre[axis] + sequence.unit());
            }
        }
    }
    let blas = build(&positions);
    assert_eq!(blas.entries.len(), 1);
}
