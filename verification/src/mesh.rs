//! Read-only views over caller-owned mesh attributes.

use crate::error::Error;
use vstd::prelude::*;

verus! {

/// The elements that a view of `count` elements, `width` words each, sees in
/// `data` when it starts at word `offset` and advances by `stride` words.
pub open spec fn strided_elements(
    data: Seq<u32>,
    offset: nat,
    stride: nat,
    width: nat,
    count: nat,
) -> Seq<Seq<u32>> {
    Seq::new(
        count,
        |i: int| data.subrange(offset + i * stride, offset + i * stride + width),
    )
}

/// True when `count` elements laid out as in [`strided_elements`] lie
/// inside `length` words.
pub open spec fn extent_fits(
    length: nat,
    offset: nat,
    stride: nat,
    width: nat,
    count: nat,
) -> bool {
    count > 0 ==> offset + (count - 1) * stride + width <= length
}

/// A bounds-checked view over `count` elements of `width` words, one every
/// `stride` words of a borrowed buffer.
///
/// The view never reaches outside the buffer: that is established once, when
/// the view is made, and every access relies on it.
#[derive(Clone, Copy, Debug)]
pub struct StridedSlice<'a> {
    data: &'a [u32],
    offset: usize,
    stride: usize,
    width: usize,
    count: usize,
}

proof fn lemma_element_in_bounds(
    length: int,
    offset: int,
    stride: int,
    width: int,
    count: int,
    index: int,
)
    requires
        0 <= offset,
        0 <= stride,
        0 <= width,
        count > 0 ==> offset + (count - 1) * stride + width <= length,
        0 <= index < count,
    ensures
        0 <= index * stride <= (count - 1) * stride,
        offset + index * stride + width <= length,
{
    assert(0 <= index * stride <= (count - 1) * stride) by (nonlinear_arith)
        requires
            0 <= index <= count - 1,
            stride >= 0,
    ;
}

impl<'a> StridedSlice<'a> {
    #[verifier::type_invariant]
    spec fn well_formed(self) -> bool {
        &&& 0 < self.width <= self.stride
        &&& extent_fits(
            self.data@.len(),
            self.offset as nat,
            self.stride as nat,
            self.width as nat,
            self.count as nat,
        )
    }

    /// The elements of the view, each a sequence of `width` words.
    pub closed spec fn view(&self) -> Seq<Seq<u32>> {
        strided_elements(
            self.data@,
            self.offset as nat,
            self.stride as nat,
            self.width as nat,
            self.count as nat,
        )
    }

    /// Number of words in each element.
    pub closed spec fn spec_width(&self) -> nat {
        self.width as nat
    }

    /// What [`StridedSlice::get`] returns for `index` and `component`.
    pub open spec fn spec_get(&self, index: int, component: int) -> Result<u32, Error> {
        if index >= self@.len() {
            Err(Error::IndexOutOfRange)
        } else if component >= self.spec_width() {
            Err(Error::FormatMismatch)
        } else {
            Ok(self@[index][component])
        }
    }

    /// Makes a view of `count` elements of `width` words over `data`, the
    /// first at word `offset`, each next one `stride` words further.
    ///
    /// An element wider than the stride, or of no word at all, is a
    /// `FormatMismatch`; elements that would not all lie inside `data` are
    /// a `MalformedMesh`.
    pub fn new(
        data: &'a [u32],
        offset: usize,
        stride: usize,
        width: usize,
        count: usize,
    ) -> (made: Result<Self, Error>)
        ensures
            width == 0 || width > stride ==> made == Err::<Self, Error>(Error::FormatMismatch),
            0 < width <= stride && !extent_fits(
                data@.len(),
                offset as nat,
                stride as nat,
                width as nat,
                count as nat,
            ) ==> made == Err::<Self, Error>(Error::MalformedMesh),
            0 < width <= stride && extent_fits(
                data@.len(),
                offset as nat,
                stride as nat,
                width as nat,
                count as nat,
            ) ==> made is Ok && made->Ok_0@ == strided_elements(
                data@,
                offset as nat,
                stride as nat,
                width as nat,
                count as nat,
            ) && made->Ok_0.spec_width() == width,
    {
        if width == 0 || width > stride {
            return Err(Error::FormatMismatch);
        }
        if count > 0 {
            let length = data.len();
            if width > length || offset > length - width {
                return Err(Error::MalformedMesh);
            }
            let last_start: usize = (length - width - offset) / stride;
            assert(count - 1 <= last_start <==> (count - 1) * stride <= length - width - offset)
                by (nonlinear_arith)
                requires
                    stride > 0,
                    count >= 1,
                    length - width - offset >= 0,
                    last_start == (length - width - offset) / (stride as int),
            ;
            if count - 1 > last_start {
                return Err(Error::MalformedMesh);
            }
        }
        Ok(StridedSlice { data, offset, stride, width, count })
    }

    /// Makes a view over elements of `width` words that follow one another
    /// without gaps and fill `data`.
    ///
    /// A width of zero is a `FormatMismatch`; a buffer that does not hold a
    /// whole number of elements is a `MalformedMesh`.
    pub fn packed(data: &'a [u32], width: usize) -> (made: Result<Self, Error>)
        ensures
            width == 0 ==> made == Err::<Self, Error>(Error::FormatMismatch),
            width > 0 && data@.len() % (width as nat) != 0 ==> made == Err::<Self, Error>(
                Error::MalformedMesh,
            ),
            width > 0 && data@.len() % (width as nat) == 0 ==> made is Ok && made->Ok_0@
                == strided_elements(
                data@,
                0,
                width as nat,
                width as nat,
                data@.len() / (width as nat),
            ) && made->Ok_0.spec_width() == width,
    {
        if width == 0 {
            return Err(Error::FormatMismatch);
        }
        let length = data.len();
        if length % width != 0 {
            return Err(Error::MalformedMesh);
        }
        let count: usize = length / width;
        assert(count > 0 ==> (count - 1) * width + width <= length) by (nonlinear_arith)
            requires
                width > 0,
                length >= 0,
                count == length / width,
        ;
        Ok(StridedSlice { data, offset: 0, stride: width, width, count })
    }

    /// Number of elements.
    pub fn len(&self) -> (count: usize)
        ensures
            count == self@.len(),
    {
        self.count
    }

    /// Number of words in each element.
    pub fn width(&self) -> (width: usize)
        ensures
            width == self.spec_width(),
    {
        self.width
    }

    /// Word `component` of element `index`.
    ///
    /// An index beyond the last element is an `IndexOutOfRange`; a component
    /// beyond the element's width is a `FormatMismatch`.
    pub fn get(&self, index: usize, component: usize) -> (word: Result<u32, Error>)
        ensures
            word == self.spec_get(index as int, component as int),
    {
        if index >= self.count {
            Err(Error::IndexOutOfRange)
        } else if component >= self.width {
            Err(Error::FormatMismatch)
        } else {
            Ok(self.word(index, component))
        }
    }

    /// Word `component` of element `index`, for a caller that knows both to
    /// be in range.
    pub(crate) fn word(&self, index: usize, component: usize) -> (word: u32)
        requires
            index < self@.len(),
            component < self.spec_width(),
        ensures
            word == self@[index as int][component as int],
    {
        let length = self.data.len();
        proof {
            use_type_invariant(self);
            lemma_element_in_bounds(
                length as int,
                self.offset as int,
                self.stride as int,
                self.width as int,
                self.count as int,
                index as int,
            );
        }
        self.data[self.offset + index * self.stride + component]
    }
}

/// A vertex of the shared vertex buffer: two rows of four words.
///
/// The fourth word of `position` carries the first texture coordinate and
/// the fourth word of `normal` the second, where the mesh has texture
/// coordinates; both are zero where it has none.
#[derive(Clone, Copy, Debug, PartialEq, Eq)]
pub struct Vertex {
    pub position: [u32; 4],
    pub normal: [u32; 4],
}

/// The attributes of a mesh: positions of three or four words, and, where
/// the mesh has them, normals of three words and texture coordinates of two.
#[derive(Clone, Copy, Debug)]
pub struct MeshDescriptor<'a> {
    pub positions: StridedSlice<'a>,
    pub normals: Option<StridedSlice<'a>>,
    pub texcoords0: Option<StridedSlice<'a>>,
}

/// A mesh whose vertices are named by an index array, three indices to a
/// triangle.
#[derive(Clone, Copy, Debug)]
pub struct IndexedMeshDescriptor<'a> {
    pub mesh: MeshDescriptor<'a>,
    pub indices: &'a [u32],
}

impl<'a> MeshDescriptor<'a> {
    /// True when every attribute is wide enough for what is read of it.
    pub open spec fn format_fits(&self) -> bool {
        &&& self.positions.spec_width() >= 3
        &&& (self.normals matches Some(normals) ==> normals.spec_width() >= 3)
        &&& (self.texcoords0 matches Some(texcoords) ==> texcoords.spec_width() >= 2)
    }

    /// Number of elements that every attribute present can supply.
    pub open spec fn common_len(&self) -> nat {
        let positions = self.positions@.len();
        let normals = match self.normals {
            Some(normals) => normals@.len(),
            None => positions,
        };
        let texcoords = match self.texcoords0 {
            Some(texcoords) => texcoords@.len(),
            None => positions,
        };
        if positions <= normals && positions <= texcoords {
            positions
        } else if normals <= texcoords {
            normals
        } else {
            texcoords
        }
    }

    /// The vertex packed from element `source` of each attribute.
    pub open spec fn vertex(&self, source: int) -> Vertex {
        let position = self.positions@[source];
        let u = match self.texcoords0 {
            Some(texcoords) => texcoords@[source][0],
            None => 0u32,
        };
        let v = match self.texcoords0 {
            Some(texcoords) => texcoords@[source][1],
            None => 0u32,
        };
        Vertex {
            position: [position[0], position[1], position[2], u],
            normal: match self.normals {
                Some(normals) => [
                    normals@[source][0],
                    normals@[source][1],
                    normals@[source][2],
                    v,
                ],
                None => [0u32, 0u32, 0u32, v],
            },
        }
    }

    /// Why the mesh cannot be read without an index array, if it cannot.
    pub open spec fn error(&self) -> Option<Error> {
        if !self.format_fits() {
            Some(Error::FormatMismatch)
        } else if self.positions@.len() % 3 != 0 || self.common_len() < self.positions@.len() {
            Some(Error::MalformedMesh)
        } else {
            None
        }
    }

    /// The vertex run of the mesh read without an index array: one vertex for
    /// each position, in order.
    pub open spec fn vertices(&self) -> Seq<Vertex> {
        Seq::new(self.positions@.len(), |k: int| self.vertex(k))
    }

    fn check_format(&self) -> (fits: bool)
        ensures
            fits == self.format_fits(),
    {
        let normals_fit = match self.normals {
            Some(normals) => normals.width() >= 3,
            None => true,
        };
        let texcoords_fit = match self.texcoords0 {
            Some(texcoords) => texcoords.width() >= 2,
            None => true,
        };
        self.positions.width() >= 3 && normals_fit && texcoords_fit
    }

    fn shortest(&self) -> (count: usize)
        ensures
            count == self.common_len(),
    {
        let positions = self.positions.len();
        let normals = match self.normals {
            Some(normals) => normals.len(),
            None => positions,
        };
        let texcoords = match self.texcoords0 {
            Some(texcoords) => texcoords.len(),
            None => positions,
        };
        if positions <= normals && positions <= texcoords {
            positions
        } else if normals <= texcoords {
            normals
        } else {
            texcoords
        }
    }

    fn pack(&self, source: usize) -> (vertex: Vertex)
        requires
            self.format_fits(),
            source < self.common_len(),
        ensures
            vertex == self.vertex(source as int),
    {
        let (u, v) = match self.texcoords0 {
            Some(texcoords) => (texcoords.word(source, 0), texcoords.word(source, 1)),
            None => (0u32, 0u32),
        };
        let normal = match self.normals {
            Some(normals) => [
                normals.word(source, 0),
                normals.word(source, 1),
                normals.word(source, 2),
                v,
            ],
            None => [0u32, 0u32, 0u32, v],
        };
        Vertex {
            position: [
                self.positions.word(source, 0),
                self.positions.word(source, 1),
                self.positions.word(source, 2),
                u,
            ],
            normal,
        }
    }

    /// Packs the mesh into its vertex run, one vertex for each position.
    ///
    /// Fails with `FormatMismatch` where an attribute is too narrow, and
    /// with `MalformedMesh` where the number of positions is not a multiple
    /// of three or an attribute has fewer elements than there are positions.
    pub fn pack_vertices(&self) -> (packed: Result<Vec<Vertex>, Error>)
        ensures
            match self.error() {
                Some(error) => packed == Err::<Vec<Vertex>, Error>(error),
                None => packed is Ok && packed->Ok_0@ == self.vertices(),
            },
    {
        if !self.check_format() {
            return Err(Error::FormatMismatch);
        }
        let count = self.positions.len();
        if count % 3 != 0 || self.shortest() < count {
            return Err(Error::MalformedMesh);
        }
        let mut vertices: Vec<Vertex> = Vec::with_capacity(count);
        let mut k: usize = 0;
        while k < count
            invariant
                k <= count,
                count == self.positions@.len(),
                count <= self.common_len(),
                self.format_fits(),
                vertices@.len() == k,
                forall|j: int| 0 <= j < k ==> vertices@[j] == self.vertex(j),
            decreases count - k,
        {
            vertices.push(self.pack(k));
            k += 1;
        }
        Ok(vertices)
    }
}

impl<'a> IndexedMeshDescriptor<'a> {
    /// True when every index names an element that each attribute present
    /// can supply.
    pub open spec fn indices_in_range(&self) -> bool {
        forall|k: int|
            0 <= k < self.indices@.len() ==> (#[trigger] self.indices@[k]) < self.mesh.common_len()
    }

    /// Why the mesh cannot be read through its index array, if it cannot.
    pub open spec fn error(&self) -> Option<Error> {
        if !self.mesh.format_fits() {
            Some(Error::FormatMismatch)
        } else if self.indices@.len() % 3 != 0 || !self.indices_in_range() {
            Some(Error::MalformedMesh)
        } else {
            None
        }
    }

    /// The vertex run of the mesh read through its index array: one vertex
    /// for each index, in order, copied from the element that the index names.
    pub open spec fn vertices(&self) -> Seq<Vertex> {
        Seq::new(self.indices@.len(), |k: int| self.mesh.vertex(self.indices@[k] as int))
    }

    /// Packs the mesh into its vertex run, one vertex for each index, so
    /// that the run needs no index array.
    ///
    /// Fails with `FormatMismatch` where an attribute is too narrow, and
    /// with `MalformedMesh` where the number of indices is not a multiple of
    /// three or an index names an element that an attribute does not have.
    pub fn pack_vertices(&self) -> (packed: Result<Vec<Vertex>, Error>)
        ensures
            match self.error() {
                Some(error) => packed == Err::<Vec<Vertex>, Error>(error),
                None => packed is Ok && packed->Ok_0@ == self.vertices(),
            },
    {
        if !self.mesh.check_format() {
            return Err(Error::FormatMismatch);
        }
        let count = self.indices.len();
        if count % 3 != 0 {
            return Err(Error::MalformedMesh);
        }
        let limit = self.mesh.shortest();
        let mut vertices: Vec<Vertex> = Vec::with_capacity(count);
        let mut k: usize = 0;
        while k < count
            invariant
                k <= count,
                count == self.indices@.len(),
                limit == self.mesh.common_len(),
                self.mesh.format_fits(),
                vertices@.len() == k,
                forall|j: int| 0 <= j < k ==> (#[trigger] self.indices@[j]) < limit,
                forall|j: int|
                    0 <= j < k ==> vertices@[j] == self.mesh.vertex(self.indices@[j] as int),
            decreases count - k,
        {
            let index = self.indices[k];
            if index as usize >= limit {
                return Err(Error::MalformedMesh);
            }
            vertices.push(self.mesh.pack(index as usize));
            k += 1;
        }
        Ok(vertices)
    }
}

/// Where a mesh has texture coordinates, vertex `k` of its run carries the
/// first coordinate of element `k` in the fourth word of its position and
/// the second in the fourth word of its normal; where it has none, both
/// words are zero. The first three words are its position and its normal.
pub proof fn lemma_texcoords_are_packed(mesh: MeshDescriptor, k: int)
    requires
        mesh.error() is None,
        0 <= k < mesh.positions@.len(),
    ensures
        mesh.vertices().len() == mesh.positions@.len(),
        mesh.texcoords0 matches Some(texcoords) ==> mesh.vertices()[k].position[3]
            == texcoords@[k][0] && mesh.vertices()[k].normal[3] == texcoords@[k][1],
        mesh.texcoords0 is None ==> mesh.vertices()[k].position[3] == 0
            && mesh.vertices()[k].normal[3] == 0,
        forall|c: int|
            0 <= c < 3 ==> mesh.vertices()[k].position[c] == (#[trigger] mesh.positions@[k][c]),
        mesh.normals matches Some(normals) ==> forall|c: int|
            0 <= c < 3 ==> mesh.vertices()[k].normal[c] == (#[trigger] normals@[k][c]),
        mesh.normals is None ==> forall|c: int|
            0 <= c < 3 ==> (#[trigger] mesh.vertices()[k].normal[c]) == 0,
{
}

/// Through an index array, vertex `k` of the run is packed from the element
/// that index `k` names, as [`lemma_texcoords_are_packed`] says of element
/// `k` without one.
pub proof fn lemma_indexed_texcoords_are_packed(mesh: IndexedMeshDescriptor, k: int)
    requires
        mesh.error() is None,
        0 <= k < mesh.indices@.len(),
    ensures
        mesh.vertices().len() == mesh.indices@.len(),
        mesh.mesh.texcoords0 matches Some(texcoords) ==> mesh.vertices()[k].position[3]
            == texcoords@[mesh.indices@[k] as int][0] && mesh.vertices()[k].normal[3]
            == texcoords@[mesh.indices@[k] as int][1],
        mesh.mesh.texcoords0 is None ==> mesh.vertices()[k].position[3] == 0
            && mesh.vertices()[k].normal[3] == 0,
        forall|c: int|
            0 <= c < 3 ==> mesh.vertices()[k].position[c] == (
            #[trigger] mesh.mesh.positions@[mesh.indices@[k] as int][c]),
{
}

} // verus!
