//! Triangles read off a vertex run, as input to the hierarchy builder.

use crate::bits::{all_finite, check_point_finite};
use crate::error::Error;
use crate::mesh::{IndexedMeshDescriptor, MeshDescriptor, Vertex};
use vstd::prelude::*;

verus! {

/// Three points in space, each of three coordinates.
#[derive(Clone, Copy, Debug, PartialEq, Eq)]
pub struct Triangle {
    pub v0: [u32; 3],
    pub v1: [u32; 3],
    pub v2: [u32; 3],
}

/// The point at which `vertex` lies: the first three words of its position.
pub open spec fn point_of(vertex: Vertex) -> [u32; 3] {
    [vertex.position[0], vertex.position[1], vertex.position[2]]
}

/// Triangle `index` of a vertex run: its vertices `3 * index`,
/// `3 * index + 1` and `3 * index + 2`.
pub open spec fn triangle_at(vertices: Seq<Vertex>, index: int) -> Triangle {
    Triangle {
        v0: point_of(vertices[3 * index]),
        v1: point_of(vertices[3 * index + 1]),
        v2: point_of(vertices[3 * index + 2]),
    }
}

/// The triangles of a vertex run, every three consecutive vertices making one.
pub open spec fn triangles_of(vertices: Seq<Vertex>) -> Seq<Triangle> {
    Seq::new(vertices.len() / 3, |index: int| triangle_at(vertices, index))
}

/// True when a hierarchy can be built over `triangle`: each coordinate is a
/// number.
pub open spec fn is_buildable(triangle: Triangle) -> bool {
    &&& all_finite(triangle.v0@)
    &&& all_finite(triangle.v1@)
    &&& all_finite(triangle.v2@)
}

/// True when there is at least one triangle and a hierarchy can be built
/// over each of them.
pub open spec fn all_buildable(triangles: Seq<Triangle>) -> bool {
    &&& triangles.len() > 0
    &&& forall|i: int| 0 <= i < triangles.len() ==> is_buildable(#[trigger] triangles[i])
}

fn point(vertex: &Vertex) -> (point: [u32; 3])
    ensures
        point == point_of(*vertex),
{
    [vertex.position[0], vertex.position[1], vertex.position[2]]
}

/// Reads the triangles off a vertex run.
///
/// A run whose length is not a multiple of three is a `MalformedMesh`.
pub fn triangles_from_vertices(vertices: &Vec<Vertex>) -> (triangles: Result<
    Vec<Triangle>,
    Error,
>)
    ensures
        vertices@.len() % 3 != 0 ==> triangles == Err::<Vec<Triangle>, Error>(
            Error::MalformedMesh,
        ),
        vertices@.len() % 3 == 0 ==> triangles is Ok && triangles->Ok_0@ == triangles_of(
            vertices@,
        ),
{
    let length = vertices.len();
    if length % 3 != 0 {
        return Err(Error::MalformedMesh);
    }
    let count: usize = length / 3;
    let mut triangles: Vec<Triangle> = Vec::with_capacity(count);
    let mut i: usize = 0;
    while i < count
        invariant
            i <= count,
            count == length / 3,
            length == vertices@.len(),
            length % 3 == 0,
            triangles@.len() == i,
            forall|j: int| 0 <= j < i ==> triangles@[j] == triangle_at(vertices@, j),
        decreases count - i,
    {
        let first: usize = 3 * i;
        triangles.push(
            Triangle {
                v0: point(&vertices[first]),
                v1: point(&vertices[first + 1]),
                v2: point(&vertices[first + 2]),
            },
        );
        i += 1;
    }
    Ok(triangles)
}

/// Extracts the triangles of a mesh read without an index array: triangle
/// `i` is made of positions `3 * i`, `3 * i + 1` and `3 * i + 2`.
///
/// Fails as [`MeshDescriptor::pack_vertices`] does.
pub fn extract_triangles(mesh: &MeshDescriptor) -> (triangles: Result<Vec<Triangle>, Error>)
    ensures
        match mesh.error() {
            Some(error) => triangles == Err::<Vec<Triangle>, Error>(error),
            None => triangles is Ok && triangles->Ok_0@ == triangles_of(mesh.vertices()),
        },
{
    match mesh.pack_vertices() {
        Ok(vertices) => triangles_from_vertices(&vertices),
        Err(error) => Err(error),
    }
}

/// Extracts the triangles of a mesh read through its index array: triangle
/// `i` is made of the positions named by indices `3 * i`, `3 * i + 1` and
/// `3 * i + 2`.
///
/// Fails as [`IndexedMeshDescriptor::pack_vertices`] does.
pub fn extract_triangles_indexed(mesh: &IndexedMeshDescriptor) -> (triangles: Result<
    Vec<Triangle>,
    Error,
>)
    ensures
        match mesh.error() {
            Some(error) => triangles == Err::<Vec<Triangle>, Error>(error),
            None => triangles is Ok && triangles->Ok_0@ == triangles_of(mesh.vertices()),
        },
{
    match mesh.pack_vertices() {
        Ok(vertices) => triangles_from_vertices(&vertices),
        Err(error) => Err(error),
    }
}

/// Without an index array, the corners of triangle `index` are the first
/// three words of positions `3 * index`, `3 * index + 1` and `3 * index + 2`.
pub proof fn lemma_triangle_corners(mesh: MeshDescriptor, index: int, component: int)
    requires
        mesh.error() is None,
        0 <= index < mesh.positions@.len() / 3,
        0 <= component < 3,
    ensures
        triangles_of(mesh.vertices()).len() == mesh.positions@.len() / 3,
        triangles_of(mesh.vertices())[index].v0[component] == mesh.positions@[3
            * index][component],
        triangles_of(mesh.vertices())[index].v1[component] == mesh.positions@[3 * index
            + 1][component],
        triangles_of(mesh.vertices())[index].v2[component] == mesh.positions@[3 * index
            + 2][component],
{
}

/// With an index array, the corners of triangle `index` are the first three
/// words of the positions that indices `3 * index`, `3 * index + 1` and
/// `3 * index + 2` name.
pub proof fn lemma_indexed_triangle_corners(
    mesh: IndexedMeshDescriptor,
    index: int,
    component: int,
)
    requires
        mesh.error() is None,
        0 <= index < mesh.indices@.len() / 3,
        0 <= component < 3,
    ensures
        triangles_of(mesh.vertices()).len() == mesh.indices@.len() / 3,
        triangles_of(mesh.vertices())[index].v0[component] == mesh.mesh.positions@[mesh.indices@[3
            * index] as int][component],
        triangles_of(mesh.vertices())[index].v1[component] == mesh.mesh.positions@[mesh.indices@[3
            * index + 1] as int][component],
        triangles_of(mesh.vertices())[index].v2[component] == mesh.mesh.positions@[mesh.indices@[3
            * index + 2] as int][component],
{
}

/// Tells whether a hierarchy can be built over `triangles`: there is at
/// least one, and every coordinate is a number.
pub fn check_buildable(triangles: &Vec<Triangle>) -> (buildable: bool)
    ensures
        buildable == all_buildable(triangles@),
{
    if triangles.len() == 0 {
        return false;
    }
    let mut i: usize = 0;
    while i < triangles.len()
        invariant
            i <= triangles@.len(),
            forall|j: int| 0 <= j < i ==> is_buildable(#[trigger] triangles@[j]),
        decreases triangles@.len() - i,
    {
        let triangle = &triangles[i];
        if !(check_point_finite(&triangle.v0) && check_point_finite(&triangle.v1)
            && check_point_finite(&triangle.v2)) {
            return false;
        }
        i += 1;
    }
    true
}

} // verus!
