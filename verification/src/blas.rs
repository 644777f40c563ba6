//! The shared buffers of every hierarchy built so far, and the table of
//! instances that place them.

use crate::bits::{all_finite, check_matrix_finite};
use crate::encode::{
    encode_nodes, encode_primitives, encoded_nodes, encoded_primitives, lemma_encoded_primitives_keep_order,
    original_indices, BVHNode, BVHPrimitive,
};
use crate::error::Error;
use crate::hierarchy::{describes, is_permutation, BuiltHierarchy, BuiltNode};
use crate::mesh::{IndexedMeshDescriptor, MeshDescriptor, Vertex};
use crate::triangle::{
    all_buildable, check_buildable, triangles_from_vertices, triangles_of, Triangle,
};
use vstd::prelude::*;

verus! {

/// Where the hierarchy of one mesh starts in the node, primitive and vertex
/// buffers.
#[derive(Clone, Copy, Debug, Default, PartialEq, Eq)]
pub struct BLASEntryDescriptor {
    pub node: u32,
    pub primitive: u32,
    pub vertex: u32,
}

/// A placed copy of one hierarchy: its transform both ways, column by
/// column, its material, and the offsets of the entry that it refers to.
#[derive(Clone, Copy, Debug, PartialEq, Eq)]
pub struct Instance {
    pub model_to_world: [u32; 16],
    pub world_to_model: [u32; 16],
    pub material_index: u32,
    pub node_offset: u32,
    pub vertex_offset: u32,
    pub primitive_offset: u32,
}

/// The hierarchies of any number of meshes in shared flat buffers.
///
/// The buffers only grow: each mesh appends its nodes, primitives and
/// vertices and gets an entry that records where they start; each instance
/// names one entry.
#[derive(Debug)]
pub struct BLASArray {
    /// One entry for each mesh, in the order in which the meshes were added.
    pub entries: Vec<BLASEntryDescriptor>,
    /// The nodes of every hierarchy.
    pub nodes: Vec<BVHNode>,
    /// The primitives of every hierarchy, in the builder's order.
    pub primitives: Vec<BVHPrimitive>,
    /// The vertex run of every mesh.
    pub vertices: Vec<Vertex>,
    /// The instances, in the order in which they were added.
    pub instances: Vec<Instance>,
}

/// The contents of a [`BLASArray`].
pub struct Buffers {
    pub entries: Seq<BLASEntryDescriptor>,
    pub nodes: Seq<BVHNode>,
    pub primitives: Seq<BVHPrimitive>,
    pub vertices: Seq<Vertex>,
    pub instances: Seq<Instance>,
}

impl Buffers {
    /// The buffers with nothing in them.
    pub open spec fn empty() -> Buffers {
        Buffers {
            entries: Seq::empty(),
            nodes: Seq::empty(),
            primitives: Seq::empty(),
            vertices: Seq::empty(),
            instances: Seq::empty(),
        }
    }

    /// The entry that a mesh added now would get.
    pub open spec fn next_entry(self) -> BLASEntryDescriptor {
        BLASEntryDescriptor {
            node: self.nodes.len() as u32,
            primitive: self.primitives.len() as u32,
            vertex: self.vertices.len() as u32,
        }
    }

    /// True when one more entry, `vertices` more vertices and a third as
    /// many primitives can still be addressed by 32-bit offsets.
    pub open spec fn has_room_for_mesh(self, vertices: nat) -> bool {
        &&& self.entries.len() < u32::MAX
        &&& self.vertices.len() + vertices <= u32::MAX
        &&& self.primitives.len() + vertices / 3 <= u32::MAX
    }

    /// True when `nodes` more nodes can still be addressed by 32-bit offsets.
    pub open spec fn has_room_for_nodes(self, nodes: nat) -> bool {
        self.nodes.len() + nodes <= u32::MAX
    }

    /// The buffers after a mesh with the given records has been appended.
    pub open spec fn with_mesh(
        self,
        vertices: Seq<Vertex>,
        nodes: Seq<BVHNode>,
        primitives: Seq<BVHPrimitive>,
    ) -> Buffers {
        Buffers {
            entries: self.entries.push(self.next_entry()),
            nodes: self.nodes + nodes,
            primitives: self.primitives + primitives,
            vertices: self.vertices + vertices,
            instances: self.instances,
        }
    }

    /// Why no hierarchy over the triangles of a vertex run can be appended,
    /// whatever the hierarchy, if none can.
    pub open spec fn run_error(self, vertices: Seq<Vertex>) -> Option<Error> {
        if vertices.len() % 3 != 0 {
            Some(Error::MalformedMesh)
        } else if !all_buildable(triangles_of(vertices)) {
            Some(Error::BuildFailure)
        } else if !self.has_room_for_mesh(vertices.len()) {
            Some(Error::CapacityExceeded)
        } else {
            None
        }
    }

    /// Why a hierarchy built for a vertex run cannot be appended, if it
    /// cannot.
    pub open spec fn append_error(
        self,
        vertices: Seq<Vertex>,
        nodes: Seq<BuiltNode>,
        indices: Seq<u32>,
    ) -> Option<Error> {
        if self.run_error(vertices) is Some {
            self.run_error(vertices)
        } else if !describes(nodes, indices, vertices.len() / 3) {
            Some(Error::BuildFailure)
        } else if !self.has_room_for_nodes(nodes.len()) {
            Some(Error::CapacityExceeded)
        } else {
            None
        }
    }

    /// The buffers after the hierarchy built for a vertex run has been
    /// appended, or the buffers as they are where it cannot be.
    pub open spec fn appended(
        self,
        vertices: Seq<Vertex>,
        nodes: Seq<BuiltNode>,
        indices: Seq<u32>,
    ) -> Buffers {
        if self.append_error(vertices, nodes, indices) is Some {
            self
        } else {
            self.with_mesh(
                vertices,
                encoded_nodes(nodes),
                encoded_primitives(triangles_of(vertices), indices),
            )
        }
    }

    /// What appending the hierarchy built for a vertex run returns: the
    /// index of the new entry, or the reason for which there is none.
    pub open spec fn append_result(
        self,
        vertices: Seq<Vertex>,
        nodes: Seq<BuiltNode>,
        indices: Seq<u32>,
    ) -> Result<u32, Error> {
        match self.append_error(vertices, nodes, indices) {
            Some(error) => Err(error),
            None => Ok(self.entries.len() as u32),
        }
    }

    /// Why an instance cannot be added, if it cannot.
    pub open spec fn instance_error(
        self,
        entry_index: u32,
        model_to_world: [u32; 16],
        world_to_model: Option<[u32; 16]>,
    ) -> Option<Error> {
        if entry_index >= self.entries.len() {
            Some(Error::IndexOutOfRange)
        } else if !all_finite(model_to_world@) || !(world_to_model matches Some(inverse)
            && all_finite(inverse@)) {
            Some(Error::InvalidTransform)
        } else {
            None
        }
    }

    /// The instance that places entry `entry_index` with the given transform
    /// and material.
    pub open spec fn instance(
        self,
        entry_index: u32,
        model_to_world: [u32; 16],
        world_to_model: [u32; 16],
        material: u32,
    ) -> Instance {
        let entry = self.entries[entry_index as int];
        Instance {
            model_to_world,
            world_to_model,
            material_index: material,
            node_offset: entry.node,
            vertex_offset: entry.vertex,
            primitive_offset: entry.primitive,
        }
    }

    /// The buffers after an instance has been added, or the buffers as they
    /// are where it cannot be.
    pub open spec fn with_instance(
        self,
        entry_index: u32,
        model_to_world: [u32; 16],
        world_to_model: Option<[u32; 16]>,
        material: u32,
    ) -> Buffers {
        if self.instance_error(entry_index, model_to_world, world_to_model) is Some {
            self
        } else {
            Buffers {
                instances: self.instances.push(
                    self.instance(entry_index, model_to_world, world_to_model->Some_0, material),
                ),
                ..self
            }
        }
    }
}

impl Buffers {
    /// True when `after` is `self` with one more mesh, whose entry is entry
    /// `index` and whose vertex run is `vertices`: the run follows the
    /// vertices, one primitive for each triangle follows the primitives and
    /// together they name each triangle of the run once, at least one node
    /// follows the nodes, and what was there stays.
    pub open spec fn gained(self, vertices: Seq<Vertex>, index: u32, after: Buffers) -> bool {
        &&& index == self.entries.len()
        &&& after.entries == self.entries.push(self.next_entry())
        &&& after.vertices == self.vertices + vertices
        &&& after.primitives.len() == self.primitives.len() + vertices.len() / 3
        &&& after.primitives.take(self.primitives.len() as int) == self.primitives
        &&& is_permutation(
            original_indices(after.primitives.skip(self.primitives.len() as int)),
            vertices.len() / 3,
        )
        &&& after.nodes.len() > self.nodes.len()
        &&& after.nodes.take(self.nodes.len() as int) == self.nodes
        &&& after.instances == self.instances
    }

    /// Whatever hierarchy is appended to a run, the buffers gain the run as
    /// [`Buffers::gained`] says, or stay as they are.
    pub proof fn lemma_appended_gains(
        self,
        vertices: Seq<Vertex>,
        nodes: Seq<BuiltNode>,
        indices: Seq<u32>,
    )
        ensures
            self.append_result(vertices, nodes, indices) matches Ok(index) ==> self.gained(
                vertices,
                index,
                self.appended(vertices, nodes, indices),
            ),
            self.append_result(vertices, nodes, indices) is Err ==> self.appended(
                vertices,
                nodes,
                indices,
            ) == self,
    {
        if self.append_error(vertices, nodes, indices) is None {
            let after = self.appended(vertices, nodes, indices);
            lemma_append_adds_each_triangle_once(self, vertices, nodes, indices);
            assert(after.primitives.take(self.primitives.len() as int) =~= self.primitives);
            assert(after.nodes.take(self.nodes.len() as int) =~= self.nodes);
        }
    }

    /// True when `added` and `after` are what placing an instance can give:
    /// a failure that the arguments decide with the buffers unchanged, or
    /// else what adding the instance with some inverse, or with none, gives.
    pub open spec fn places(
        self,
        entry_index: u32,
        model_to_world: [u32; 16],
        material: u32,
        added: Result<(), Error>,
        after: Buffers,
    ) -> bool {
        if entry_index >= self.entries.len() {
            added == Err::<(), Error>(Error::IndexOutOfRange) && after == self
        } else if !all_finite(model_to_world@) {
            added == Err::<(), Error>(Error::InvalidTransform) && after == self
        } else {
            exists|world_to_model: Option<[u32; 16]>|
                added == #[trigger] self.instance_result(
                    entry_index,
                    model_to_world,
                    world_to_model,
                ) && after == self.with_instance(
                    entry_index,
                    model_to_world,
                    world_to_model,
                    material,
                )
        }
    }

    /// True when `after` is `self` with one more instance, which places
    /// entry `entry_index` by `model_to_world` with an inverse whose entries
    /// are numbers, and nothing else has changed.
    pub open spec fn placed(
        self,
        entry_index: u32,
        model_to_world: [u32; 16],
        material: u32,
        after: Buffers,
    ) -> bool {
        &&& entry_index < self.entries.len()
        &&& after.instances.len() == self.instances.len() + 1
        &&& after.instances.drop_last() == self.instances
        &&& all_finite(after.instances.last().world_to_model@)
        &&& after.instances.last() == self.instance(
            entry_index,
            model_to_world,
            after.instances.last().world_to_model,
            material,
        )
        &&& after.entries == self.entries
        &&& after.nodes == self.nodes
        &&& after.primitives == self.primitives
        &&& after.vertices == self.vertices
    }

    /// What adding an instance returns.
    pub open spec fn instance_result(
        self,
        entry_index: u32,
        model_to_world: [u32; 16],
        world_to_model: Option<[u32; 16]>,
    ) -> Result<(), Error> {
        match self.instance_error(entry_index, model_to_world, world_to_model) {
            Some(error) => Err(error),
            None => Ok(()),
        }
    }
}

impl View for BLASArray {
    type V = Buffers;

    open spec fn view(&self) -> Buffers {
        Buffers {
            entries: self.entries@,
            nodes: self.nodes@,
            primitives: self.primitives@,
            vertices: self.vertices@,
            instances: self.instances@,
        }
    }
}

/// Inverts a transform with `glam::Mat4::try_inverse`.
///
/// Trusted: where `glam` returns a matrix, each of its entries is a number;
/// it returns none where the inverse would hold an infinity or a NaN. The
/// sixteen entries are read and written column by column, each
/// reinterpreted from and to its bit pattern by `bytemuck::cast`.
#[verifier::external_body]
fn invert(matrix: &[u32; 16]) -> (inverse: Option<[u32; 16]>)
    ensures
        inverse matches Some(entries) ==> all_finite(entries@),
{
    match glam::Mat4::from_cols_array(&bytemuck::cast(*matrix)).try_inverse() {
        Some(inverse) => Some(bytemuck::cast(inverse.to_cols_array())),
        None => None,
    }
}

impl BLASArray {
    /// The buffers with nothing in them.
    pub fn new() -> (array: Self)
        ensures
            array@ == Buffers::empty(),
            array@.consistent(),
    {
        BLASArray {
            entries: Vec::new(),
            nodes: Vec::new(),
            primitives: Vec::new(),
            vertices: Vec::new(),
            instances: Vec::new(),
        }
    }

    fn check_run(&self, vertices: &Vec<Vertex>) -> (checked: Result<
        Vec<Triangle>,
        Error,
    >)
        ensures
            match self@.run_error(vertices@) {
                Some(error) => checked == Err::<Vec<Triangle>, Error>(error),
                None => checked is Ok && checked->Ok_0@ == triangles_of(vertices@),
            },
    {
        let triangles = match triangles_from_vertices(vertices) {
            Ok(triangles) => triangles,
            Err(error) => {
                return Err(error);
            },
        };
        if !check_buildable(&triangles) {
            return Err(Error::BuildFailure);
        }
        let limit = u32::MAX as usize;
        if self.entries.len() >= limit || vertices.len() > limit || self.vertices.len() > limit
            - vertices.len() || self.primitives.len() > limit || triangles.len() > limit
            - self.primitives.len() {
            return Err(Error::CapacityExceeded);
        }
        Ok(triangles)
    }

    /// Appends the hierarchy that was built over the triangles of a vertex
    /// run: records an entry at the current ends of the buffers, then
    /// appends the run, the encoded nodes and the encoded primitives.
    ///
    /// Fails, and leaves every buffer as it was, with `MalformedMesh` where
    /// the run is not made of whole triangles, with `BuildFailure` where it
    /// has no triangle, holds a coordinate that is not a number, or is not
    /// described by `built`, and with `CapacityExceeded` where a buffer
    /// would outgrow 32-bit offsets.
    pub fn append_built(&mut self, vertices: Vec<Vertex>, built: &BuiltHierarchy) -> (added:
        Result<u32, Error>)
        ensures
            added == old(self)@.append_result(
                vertices@,
                built.nodes@,
                built.primitive_indices@,
            ),
            final(self)@ == old(self)@.appended(vertices@, built.nodes@, built.primitive_indices@),
            added matches Ok(index) ==> old(self)@.gained(vertices@, index, final(self)@),
            added is Err ==> final(self)@ == old(self)@,
            old(self)@.consistent() ==> final(self)@.consistent(),
    {
        proof {
            old(self)@.lemma_appended_gains(vertices@, built.nodes@, built.primitive_indices@);
            if old(self)@.consistent() {
                lemma_append_keeps_consistency(
                    old(self)@,
                    vertices@,
                    built.nodes@,
                    built.primitive_indices@,
                );
            }
        }
        let triangles = match self.check_run(&vertices) {
            Ok(triangles) => triangles,
            Err(error) => {
                return Err(error);
            },
        };
        if !built.check(triangles.len()) {
            return Err(Error::BuildFailure);
        }
        let limit = u32::MAX as usize;
        if self.nodes.len() > limit || built.nodes.len() > limit - self.nodes.len() {
            return Err(Error::CapacityExceeded);
        }
        let mut nodes = encode_nodes(&built.nodes, triangles.len());
        let mut primitives = encode_primitives(&triangles, &built.primitive_indices);
        let mut vertices = vertices;
        let index = self.entries.len() as u32;
        self.entries.push(
            BLASEntryDescriptor {
                node: self.nodes.len() as u32,
                primitive: self.primitives.len() as u32,
                vertex: self.vertices.len() as u32,
            },
        );
        self.nodes.append(&mut nodes);
        self.primitives.append(&mut primitives);
        self.vertices.append(&mut vertices);
        Ok(index)
    }

    /// Appends a mesh read without an index array, with the hierarchy that
    /// was built over its triangles: the mesh's vertex run, the encoded
    /// nodes and the encoded primitives follow what the buffers hold. Returns
    /// the index of the entry that records where they start.
    ///
    /// Fails, and leaves every buffer as it was, with what
    /// [`MeshDescriptor::error`] gives for the mesh, and else as
    /// [`BLASArray::append_built`] does for its vertex run.
    pub fn add_bvh(&mut self, mesh: MeshDescriptor, built: &BuiltHierarchy) -> (added: Result<
        u32,
        Error,
    >)
        ensures
            match mesh.error() {
                Some(error) => added == Err::<u32, Error>(error) && final(self)@ == old(self)@,
                None => added == old(self)@.append_result(
                    mesh.vertices(),
                    built.nodes@,
                    built.primitive_indices@,
                ) && final(self)@ == old(self)@.appended(
                    mesh.vertices(),
                    built.nodes@,
                    built.primitive_indices@,
                ),
            },
            added matches Ok(index) ==> old(self)@.gained(mesh.vertices(), index, final(self)@),
            added is Err ==> final(self)@ == old(self)@,
            old(self)@.consistent() ==> final(self)@.consistent(),
    {
        match mesh.pack_vertices() {
            Ok(vertices) => self.append_built(vertices, built),
            Err(error) => Err(error),
        }
    }

    /// Appends a mesh read through its index array, with the hierarchy that
    /// was built over its triangles: a vertex run that holds one vertex for
    /// each index, and so needs no index array, the encoded nodes and the
    /// encoded primitives follow what the buffers hold. Returns the index of
    /// the entry that records where they start.
    ///
    /// Fails, and leaves every buffer as it was, with what
    /// [`IndexedMeshDescriptor::error`] gives for the mesh, and else as
    /// [`BLASArray::append_built`] does for its vertex run.
    pub fn add_bvh_indexed(&mut self, desc: IndexedMeshDescriptor, built: &BuiltHierarchy) -> (added:
        Result<u32, Error>)
        ensures
            match desc.error() {
                Some(error) => added == Err::<u32, Error>(error) && final(self)@ == old(self)@,
                None => added == old(self)@.append_result(
                    desc.vertices(),
                    built.nodes@,
                    built.primitive_indices@,
                ) && final(self)@ == old(self)@.appended(
                    desc.vertices(),
                    built.nodes@,
                    built.primitive_indices@,
                ),
            },
            added matches Ok(index) ==> old(self)@.gained(desc.vertices(), index, final(self)@),
            added is Err ==> final(self)@ == old(self)@,
            old(self)@.consistent() ==> final(self)@.consistent(),
    {
        match desc.pack_vertices() {
            Ok(vertices) => self.append_built(vertices, built),
            Err(error) => Err(error),
        }
    }

    /// Adds an instance of entry `entry_index` whose transform and inverse
    /// are both given, the inverse as `None` where there is none.
    ///
    /// Fails, and leaves the instances as they were, with `IndexOutOfRange`
    /// where there is no such entry, and else with `InvalidTransform` where
    /// there is no inverse or an entry of either matrix is not a number.
    pub fn push_instance(
        &mut self,
        entry_index: u32,
        model_to_world: [u32; 16],
        world_to_model: Option<[u32; 16]>,
        material: u32,
    ) -> (added: Result<(), Error>)
        ensures
            added == old(self)@.instance_result(entry_index, model_to_world, world_to_model),
            final(self)@ == old(self)@.with_instance(
                entry_index,
                model_to_world,
                world_to_model,
                material,
            ),
            old(self)@.consistent() ==> final(self)@.consistent(),
    {
        proof {
            if old(self)@.consistent() {
                lemma_instance_keeps_consistency(
                    old(self)@,
                    entry_index,
                    model_to_world,
                    world_to_model,
                    material,
                );
            }
        }
        if entry_index as usize >= self.entries.len() {
            return Err(Error::IndexOutOfRange);
        }
        let inverse = match world_to_model {
            Some(inverse) => inverse,
            None => {
                return Err(Error::InvalidTransform);
            },
        };
        if !check_matrix_finite(&model_to_world) || !check_matrix_finite(&inverse) {
            return Err(Error::InvalidTransform);
        }
        let entry = self.entries[entry_index as usize];
        self.instances.push(
            Instance {
                model_to_world,
                world_to_model: inverse,
                material_index: material,
                node_offset: entry.node,
                vertex_offset: entry.vertex,
                primitive_offset: entry.primitive,
            },
        );
        Ok(())
    }

    /// Adds an instance of entry `entry_index`, placed by `model_to_world`,
    /// a matrix given column by column.
    ///
    /// Fails, and leaves the instances as they were, with `IndexOutOfRange`
    /// where there is no such entry, and else with `InvalidTransform` where
    /// an entry of the matrix is not a number or the matrix has no inverse
    /// whose entries are all numbers.
    pub fn add_instance(&mut self, entry_index: u32, model_to_world: [u32; 16], material: u32) -> (added:
        Result<(), Error>)
        ensures
            old(self)@.places(entry_index, model_to_world, material, added, final(self)@),
            added is Ok ==> old(self)@.placed(entry_index, model_to_world, material, final(self)@),
            added is Err ==> final(self)@ == old(self)@,
            old(self)@.consistent() ==> final(self)@.consistent(),
    {
        if entry_index as usize >= self.entries.len() {
            return Err(Error::IndexOutOfRange);
        }
        if !check_matrix_finite(&model_to_world) {
            return Err(Error::InvalidTransform);
        }
        let world_to_model = invert(&model_to_world);
        let added = self.push_instance(entry_index, model_to_world, world_to_model, material);
        proof {
            if added is Ok {
                assert(self@.instances.drop_last() =~= old(self)@.instances);
            }
        }
        added
    }
}

/// One mesh as it reaches the buffers: its vertex run, and the hierarchy
/// that was built for it.
pub struct BuiltMesh {
    pub vertices: Seq<Vertex>,
    pub nodes: Seq<BuiltNode>,
    pub indices: Seq<u32>,
}

/// The buffers after `meshes` have been appended, in order, to empty buffers.
pub open spec fn after_meshes(meshes: Seq<BuiltMesh>) -> Buffers
    decreases meshes.len(),
{
    if meshes.len() == 0 {
        Buffers::empty()
    } else {
        let mesh = meshes.last();
        after_meshes(meshes.drop_last()).appended(mesh.vertices, mesh.nodes, mesh.indices)
    }
}

/// True when each of `meshes` could be appended in its turn.
pub open spec fn all_appended(meshes: Seq<BuiltMesh>) -> bool
    decreases meshes.len(),
{
    meshes.len() > 0 ==> {
        let mesh = meshes.last();
        &&& all_appended(meshes.drop_last())
        &&& after_meshes(meshes.drop_last()).append_error(
            mesh.vertices,
            mesh.nodes,
            mesh.indices,
        ) is None
    }
}

/// Number of vertices in the first `count` of `meshes`.
pub open spec fn vertices_before(meshes: Seq<BuiltMesh>, count: int) -> int
    decreases count,
{
    if count <= 0 {
        0
    } else {
        vertices_before(meshes, count - 1) + meshes[count - 1].vertices.len()
    }
}

/// Number of triangles in the first `count` of `meshes`.
pub open spec fn triangles_before(meshes: Seq<BuiltMesh>, count: int) -> int
    decreases count,
{
    if count <= 0 {
        0
    } else {
        triangles_before(meshes, count - 1) + meshes[count - 1].vertices.len() / 3
    }
}

/// Number of nodes in the first `count` of `meshes`.
pub open spec fn nodes_before(meshes: Seq<BuiltMesh>, count: int) -> int
    decreases count,
{
    if count <= 0 {
        0
    } else {
        nodes_before(meshes, count - 1) + meshes[count - 1].nodes.len()
    }
}

proof fn lemma_counts_ignore_later_meshes(meshes: Seq<BuiltMesh>, count: int)
    requires
        0 <= count < meshes.len(),
    ensures
        vertices_before(meshes.drop_last(), count) == vertices_before(meshes, count),
        triangles_before(meshes.drop_last(), count) == triangles_before(meshes, count),
        nodes_before(meshes.drop_last(), count) == nodes_before(meshes, count),
    decreases count,
{
    if count > 0 {
        lemma_counts_ignore_later_meshes(meshes, count - 1);
    }
}

/// After any number of meshes have been appended to empty buffers, each
/// buffer holds what the meshes brought, one after the other: there is one
/// entry for each mesh, and the entry of mesh `i` records, for each buffer,
/// how much the meshes before it brought.
pub proof fn lemma_entries_record_running_totals(meshes: Seq<BuiltMesh>, i: int)
    requires
        all_appended(meshes),
        0 <= i < meshes.len(),
    ensures
        after_meshes(meshes).entries.len() == meshes.len(),
        after_meshes(meshes).vertices.len() == vertices_before(meshes, meshes.len() as int),
        after_meshes(meshes).primitives.len() == triangles_before(meshes, meshes.len() as int),
        after_meshes(meshes).nodes.len() == nodes_before(meshes, meshes.len() as int),
        after_meshes(meshes).vertices.len() <= u32::MAX,
        after_meshes(meshes).primitives.len() <= u32::MAX,
        after_meshes(meshes).nodes.len() <= u32::MAX,
        after_meshes(meshes).entries[i].vertex == vertices_before(meshes, i),
        after_meshes(meshes).entries[i].primitive == triangles_before(meshes, i),
        after_meshes(meshes).entries[i].node == nodes_before(meshes, i),
    decreases meshes.len(),
{
    let earlier = meshes.drop_last();
    let last = meshes.len() - 1;
    if earlier.len() > 0 {
        lemma_entries_record_running_totals(earlier, 0);
        if i < last {
            lemma_entries_record_running_totals(earlier, i);
        }
    }
    lemma_counts_ignore_later_meshes(meshes, last);
    if i < last {
        lemma_counts_ignore_later_meshes(meshes, i);
    }
}

/// The offsets of later entries are larger: every mesh brings at least one
/// node, one primitive and three vertices.
pub proof fn lemma_offsets_increase(meshes: Seq<BuiltMesh>, i: int, j: int)
    requires
        all_appended(meshes),
        0 <= i < j < meshes.len(),
    ensures
        after_meshes(meshes).entries[i].node < after_meshes(meshes).entries[j].node,
        after_meshes(meshes).entries[i].primitive < after_meshes(meshes).entries[j].primitive,
        after_meshes(meshes).entries[i].vertex < after_meshes(meshes).entries[j].vertex,
{
    lemma_entries_record_running_totals(meshes, i);
    lemma_entries_record_running_totals(meshes, j);
    lemma_totals_grow(meshes, i, j);
}

proof fn lemma_each_was_appended(meshes: Seq<BuiltMesh>, k: int)
    requires
        all_appended(meshes),
        0 <= k < meshes.len(),
    ensures
        after_meshes(meshes.take(k)).append_error(
            meshes[k].vertices,
            meshes[k].nodes,
            meshes[k].indices,
        ) is None,
    decreases meshes.len(),
{
    if k < meshes.len() - 1 {
        lemma_each_was_appended(meshes.drop_last(), k);
        assert(meshes.drop_last().take(k) =~= meshes.take(k));
    } else {
        assert(meshes.take(k) =~= meshes.drop_last());
    }
}

proof fn lemma_totals_grow(meshes: Seq<BuiltMesh>, i: int, j: int)
    requires
        all_appended(meshes),
        0 <= i < j <= meshes.len(),
    ensures
        nodes_before(meshes, i) < nodes_before(meshes, j),
        triangles_before(meshes, i) < triangles_before(meshes, j),
        vertices_before(meshes, i) < vertices_before(meshes, j),
    decreases j - i,
{
    lemma_each_was_appended(meshes, j - 1);
    assert(triangles_of(meshes[j - 1].vertices).len() > 0);
    if i < j - 1 {
        lemma_totals_grow(meshes, i, j - 1);
    }
}

/// A mesh that is appended brings one primitive for each of its triangles,
/// and the places that the new primitives name are those of its triangles,
/// each exactly once.
pub proof fn lemma_append_adds_each_triangle_once(
    buffers: Buffers,
    vertices: Seq<Vertex>,
    nodes: Seq<BuiltNode>,
    indices: Seq<u32>,
)
    requires
        buffers.append_error(vertices, nodes, indices) is None,
    ensures
        buffers.appended(vertices, nodes, indices).primitives.len() == buffers.primitives.len()
            + vertices.len() / 3,
        is_permutation(
            original_indices(
                buffers.appended(vertices, nodes, indices).primitives.skip(
                    buffers.primitives.len() as int,
                ),
            ),
            vertices.len() / 3,
        ),
{
    let after = buffers.appended(vertices, nodes, indices);
    let encoded = encoded_primitives(triangles_of(vertices), indices);
    lemma_encoded_primitives_keep_order(triangles_of(vertices), indices);
    assert(after.primitives.skip(buffers.primitives.len() as int) =~= encoded);
}

/// What a mesh brings does not depend on what the buffers hold: the same run
/// with the same hierarchy brings the same nodes, primitives and vertices
/// wherever it is appended, so that a mesh appended twice is there twice,
/// record for record.
pub proof fn lemma_append_brings_the_same_records(
    first: Buffers,
    second: Buffers,
    vertices: Seq<Vertex>,
    nodes: Seq<BuiltNode>,
    indices: Seq<u32>,
)
    requires
        first.append_error(vertices, nodes, indices) is None,
        second.append_error(vertices, nodes, indices) is None,
    ensures
        first.appended(vertices, nodes, indices).nodes.skip(first.nodes.len() as int)
            == second.appended(vertices, nodes, indices).nodes.skip(second.nodes.len() as int),
        first.appended(vertices, nodes, indices).primitives.skip(first.primitives.len() as int)
            == second.appended(vertices, nodes, indices).primitives.skip(
            second.primitives.len() as int,
        ),
        first.appended(vertices, nodes, indices).vertices.skip(first.vertices.len() as int)
            == second.appended(vertices, nodes, indices).vertices.skip(
            second.vertices.len() as int,
        ),
{
    let encoded = encoded_nodes(nodes);
    let records = encoded_primitives(triangles_of(vertices), indices);
    assert(first.appended(vertices, nodes, indices).nodes.skip(first.nodes.len() as int)
        =~= encoded);
    assert(second.appended(vertices, nodes, indices).nodes.skip(second.nodes.len() as int)
        =~= encoded);
    assert(first.appended(vertices, nodes, indices).primitives.skip(
        first.primitives.len() as int,
    ) =~= records);
    assert(second.appended(vertices, nodes, indices).primitives.skip(
        second.primitives.len() as int,
    ) =~= records);
    assert(first.appended(vertices, nodes, indices).vertices.skip(first.vertices.len() as int)
        =~= vertices);
    assert(second.appended(vertices, nodes, indices).vertices.skip(second.vertices.len() as int)
        =~= vertices);
}

/// A mesh that is appended leaves what the buffers held where it was, and
/// its vertex run follows, vertex for vertex.
pub proof fn lemma_append_keeps_earlier_contents(
    buffers: Buffers,
    vertices: Seq<Vertex>,
    nodes: Seq<BuiltNode>,
    indices: Seq<u32>,
    k: int,
)
    requires
        buffers.append_error(vertices, nodes, indices) is None,
    ensures
        0 <= k < buffers.vertices.len() ==> buffers.appended(vertices, nodes, indices).vertices[k]
            == buffers.vertices[k],
        0 <= k < buffers.nodes.len() ==> buffers.appended(vertices, nodes, indices).nodes[k]
            == buffers.nodes[k],
        0 <= k < buffers.primitives.len() ==> buffers.appended(
            vertices,
            nodes,
            indices,
        ).primitives[k] == buffers.primitives[k],
        0 <= k < buffers.entries.len() ==> buffers.appended(vertices, nodes, indices).entries[k]
            == buffers.entries[k],
        0 <= k < vertices.len() ==> buffers.appended(
            vertices,
            nodes,
            indices,
        ).vertices[buffers.vertices.len() + k] == vertices[k],
        buffers.appended(vertices, nodes, indices).instances == buffers.instances,
{
}

impl Buffers {
    /// True when instance `instance` copies the offsets of entry `entry`.
    pub open spec fn refers_to(self, instance: int, entry: int) -> bool {
        &&& 0 <= entry < self.entries.len()
        &&& self.instances[instance].node_offset == self.entries[entry].node
        &&& self.instances[instance].vertex_offset == self.entries[entry].vertex
        &&& self.instances[instance].primitive_offset == self.entries[entry].primitive
    }

    /// True when the buffers belong together: every offset can be addressed
    /// in 32 bits, the buffers are empty until there is an entry, the first
    /// entry starts at zero, every entry starts before the end of each
    /// buffer and before the entry after it, and every instance copies the
    /// offsets of some entry.
    pub open spec fn consistent(self) -> bool {
        &&& self.nodes.len() <= u32::MAX
        &&& self.primitives.len() <= u32::MAX
        &&& self.vertices.len() <= u32::MAX
        &&& self.entries.len() == 0 ==> self.nodes.len() == 0 && self.primitives.len() == 0
            && self.vertices.len() == 0
        &&& self.entries.len() > 0 ==> self.entries[0] == (BLASEntryDescriptor {
            node: 0,
            primitive: 0,
            vertex: 0,
        })
        &&& forall|i: int|
            0 <= i < self.entries.len() ==> (#[trigger] self.entries[i]).node < self.nodes.len()
                && self.entries[i].primitive < self.primitives.len() && self.entries[i].vertex
                < self.vertices.len()
        &&& forall|i: int, j: int|
            0 <= i < j < self.entries.len() ==> (#[trigger] self.entries[i]).node < (
            #[trigger] self.entries[j]).node && self.entries[i].primitive
                < self.entries[j].primitive && self.entries[i].vertex < self.entries[j].vertex
        &&& forall|k: int| 0 <= k < self.instances.len() ==> #[trigger] self.is_placed(k)
    }

    /// True when instance `instance` copies the offsets of some entry.
    pub open spec fn is_placed(self, instance: int) -> bool {
        exists|entry: int| #[trigger] self.refers_to(instance, entry)
    }
}

/// Empty buffers belong together.
pub proof fn lemma_empty_is_consistent()
    ensures
        Buffers::empty().consistent(),
{
}

/// Buffers that belong together still do after a mesh has been appended,
/// or refused.
pub proof fn lemma_append_keeps_consistency(
    buffers: Buffers,
    vertices: Seq<Vertex>,
    nodes: Seq<BuiltNode>,
    indices: Seq<u32>,
)
    requires
        buffers.consistent(),
    ensures
        buffers.appended(vertices, nodes, indices).consistent(),
{
    let after = buffers.appended(vertices, nodes, indices);
    if buffers.append_error(vertices, nodes, indices) is None {
        let last = buffers.entries.len() as int;
        assert(triangles_of(vertices).len() > 0);
        assert forall|i: int| 0 <= i < after.entries.len() implies (#[trigger] after.entries[i]).node
            < after.nodes.len() && after.entries[i].primitive < after.primitives.len()
            && after.entries[i].vertex < after.vertices.len() by {
            if i < last {
                assert(after.entries[i] == buffers.entries[i]);
            }
        }
        assert forall|i: int, j: int| 0 <= i < j < after.entries.len() implies (
        #[trigger] after.entries[i]).node < (#[trigger] after.entries[j]).node
            && after.entries[i].primitive < after.entries[j].primitive && after.entries[i].vertex
            < after.entries[j].vertex by {
            assert(after.entries[i] == buffers.entries[i]);
            if j < last {
                assert(after.entries[j] == buffers.entries[j]);
            }
        }
        assert forall|k: int| 0 <= k < after.instances.len() implies #[trigger] after.is_placed(
            k,
        ) by {
            assert(buffers.is_placed(k));
            let entry = choose|entry: int| #[trigger] buffers.refers_to(k, entry);
            assert(after.refers_to(k, entry));
        }
    }
}

/// Buffers that belong together still do after an instance has been added,
/// or refused.
pub proof fn lemma_instance_keeps_consistency(
    buffers: Buffers,
    entry_index: u32,
    model_to_world: [u32; 16],
    world_to_model: Option<[u32; 16]>,
    material: u32,
)
    requires
        buffers.consistent(),
    ensures
        buffers.with_instance(entry_index, model_to_world, world_to_model, material).consistent(),
{
    let after = buffers.with_instance(entry_index, model_to_world, world_to_model, material);
    if buffers.instance_error(entry_index, model_to_world, world_to_model) is None {
        assert forall|k: int| 0 <= k < after.instances.len() implies #[trigger] after.is_placed(
            k,
        ) by {
            if k < buffers.instances.len() {
                assert(buffers.is_placed(k));
                let entry = choose|entry: int| #[trigger] buffers.refers_to(k, entry);
                assert(after.refers_to(k, entry));
            } else {
                assert(after.refers_to(k, entry_index as int));
            }
        }
    }
}

} // verus!
