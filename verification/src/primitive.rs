//! Staging storage for vertex attributes, interleaved or one buffer to an
//! attribute, with byte-level access to each attribute.

use crate::attribute::{AttributeId, IndexData};
use crate::error::Error;
use vstd::prelude::*;

verus! {

/// What the components of a vertex format are.
#[derive(Clone, Copy, Debug, PartialEq, Eq, Hash, Structural)]
pub enum ComponentClass {
    /// Floating-point numbers of any width.
    Float,
    /// Unsigned integers, normalized or not.
    Unsigned,
    /// Anything else.
    Other,
}

/// What the storage reads of a vertex format: the bytes that one element
/// takes, and the class of its components.
#[derive(Clone, Copy, Debug, PartialEq, Eq)]
pub struct AttributeFormat {
    pub size: usize,
    pub class: ComponentClass,
}

/// An attribute of a primitive: its name and its format.
#[derive(Clone, Copy, Debug, PartialEq, Eq)]
pub struct AttributeDescriptor {
    pub id: AttributeId,
    pub format: AttributeFormat,
}

impl AttributeDescriptor {
    /// The attribute named `id`, in `format`.
    pub fn new(id: AttributeId, format: AttributeFormat) -> (descriptor: Self)
        ensures
            descriptor == (AttributeDescriptor { id, format }),
    {
        AttributeDescriptor { id, format }
    }

    /// The positions, in `format`.
    pub fn position(format: AttributeFormat) -> (descriptor: Self)
        ensures
            descriptor == (AttributeDescriptor {
                id: AttributeId(crate::attribute::POSITION),
                format,
            }),
    {
        AttributeDescriptor { id: AttributeId::position(), format }
    }

    /// The normals, in `format`.
    pub fn normal(format: AttributeFormat) -> (descriptor: Self)
        ensures
            descriptor == (AttributeDescriptor { id: AttributeId(crate::attribute::NORMAL), format }),
    {
        AttributeDescriptor { id: AttributeId::normal(), format }
    }

    /// The first set of texture coordinates, in `format`.
    pub fn tex_coords_0(format: AttributeFormat) -> (descriptor: Self)
        ensures
            descriptor == (AttributeDescriptor {
                id: AttributeId(crate::attribute::TEX_COORDS_0),
                format,
            }),
    {
        AttributeDescriptor { id: AttributeId::tex_coords_0(), format }
    }
}

/// The byte at which attribute `element` starts within an interleaved
/// vertex: the sizes of the attributes before it, added up.
pub open spec fn offset_of(formats: Seq<AttributeFormat>, element: int) -> nat
    decreases element,
{
    if element <= 0 {
        0
    } else {
        offset_of(formats, element - 1) + formats[element - 1].size as nat
    }
}

/// The bytes that one interleaved vertex takes: the sizes of all its
/// attributes, added up.
pub open spec fn stride_of(formats: Seq<AttributeFormat>) -> nat {
    offset_of(formats, formats.len() as int)
}

/// Offsets grow with the attribute: each attribute lies wholly before every
/// later one.
pub proof fn lemma_offsets_grow(formats: Seq<AttributeFormat>, first: int, second: int)
    requires
        0 <= first <= second <= formats.len(),
    ensures
        offset_of(formats, first) <= offset_of(formats, second),
        first < second ==> offset_of(formats, first) + formats[first].size <= offset_of(
            formats,
            second,
        ),
    decreases second - first,
{
    if first < second {
        lemma_offsets_grow(formats, first, second - 1);
    }
}

/// The bytes that one interleaved vertex of these formats takes, or `None`
/// where that does not fit in a `usize`.
fn checked_stride(formats: &Vec<AttributeFormat>) -> (stride: Option<usize>)
    ensures
        stride_of(formats@) <= usize::MAX ==> stride == Some(stride_of(formats@) as usize),
        stride_of(formats@) > usize::MAX ==> stride is None,
{
    let mut stride: usize = 0;
    let mut i: usize = 0;
    while i < formats.len()
        invariant
            i <= formats@.len(),
            stride == offset_of(formats@, i as int),
        decreases formats@.len() - i,
    {
        let size = formats[i].size;
        if size > usize::MAX - stride {
            proof {
                lemma_offsets_grow(formats@, i + 1, formats@.len() as int);
            }
            return None;
        }
        stride += size;
        i += 1;
    }
    Some(stride)
}

/// The bytes that one interleaved vertex of these formats takes.
fn compute_stride(formats: &Vec<AttributeFormat>) -> (stride: usize)
    requires
        stride_of(formats@) <= usize::MAX,
    ensures
        stride == stride_of(formats@),
{
    byte_offset_for(formats, formats.len())
}

/// The byte at which attribute `element` starts within an interleaved
/// vertex of these formats.
fn byte_offset_for(formats: &Vec<AttributeFormat>, element: usize) -> (byte_offset: usize)
    requires
        element <= formats@.len(),
        stride_of(formats@) <= usize::MAX,
    ensures
        byte_offset == offset_of(formats@, element as int),
{
    let mut byte_offset: usize = 0;
    let mut i: usize = 0;
    while i < element
        invariant
            i <= element <= formats@.len(),
            stride_of(formats@) <= usize::MAX,
            byte_offset == offset_of(formats@, i as int),
        decreases element - i,
    {
        proof {
            lemma_offsets_grow(formats@, i + 1, formats@.len() as int);
        }
        byte_offset += formats[i].size;
        i += 1;
    }
    byte_offset
}

/// Tells whether two attributes have the same name.
pub fn same_attribute(first: &AttributeId, second: &AttributeId) -> (same: bool)
    ensures
        same == (first.0@ == second.0@),
{
    let first_name = first.0.to_owned();
    let second_name = second.0.to_owned();
    first_name == second_name
}

/// The buffers of a primitive: one for each attribute, or one in which the
/// attributes of each vertex follow one another.
enum AttributeData {
    SoA(Vec<Vec<u8>>),
    Interleaved(Vec<u8>),
}

/// Vertex attributes staged for upload, with the index array if there is one.
pub struct Primitive {
    data: AttributeData,
    attribute_formats: Vec<AttributeFormat>,
    attribute_ids: Vec<AttributeId>,
    index_data: Option<IndexData>,
}

/// One attribute of a primitive: the buffer that holds it, borrowed, and
/// where its elements lie in that buffer.
///
/// Element `i` takes the `size` bytes at `byte_offset + stride * i`.
pub struct AttributeSlice<'a> {
    pub data: &'a mut Vec<u8>,
    pub byte_offset: usize,
    pub byte_end: usize,
    pub stride: usize,
    pub size: usize,
}

/// The formats of `descriptors`, in order.
pub open spec fn formats_of(descriptors: Seq<AttributeDescriptor>) -> Seq<AttributeFormat> {
    Seq::new(descriptors.len(), |i: int| descriptors[i].format)
}

/// The names of `descriptors`, in order.
pub open spec fn ids_of(descriptors: Seq<AttributeDescriptor>) -> Seq<AttributeId> {
    Seq::new(descriptors.len(), |i: int| descriptors[i].id)
}

/// True when one element of `stride` bytes, and `count` of them, fit in
/// memory.
pub open spec fn fits(count: u64, stride: nat) -> bool {
    stride <= usize::MAX && count * stride <= isize::MAX
}

/// `count` bytes, all zero.
pub open spec fn zeros(count: nat) -> Seq<u8> {
    Seq::new(count, |i: int| 0u8)
}

fn split(descriptors: &[AttributeDescriptor]) -> (parts: (Vec<AttributeFormat>, Vec<AttributeId>))
    ensures
        parts.0@ == formats_of(descriptors@),
        parts.1@ == ids_of(descriptors@),
{
    let mut formats: Vec<AttributeFormat> = Vec::with_capacity(descriptors.len());
    let mut ids: Vec<AttributeId> = Vec::with_capacity(descriptors.len());
    let mut i: usize = 0;
    while i < descriptors.len()
        invariant
            i <= descriptors@.len(),
            formats@.len() == i,
            ids@.len() == i,
            forall|j: int| 0 <= j < i ==> formats@[j] == descriptors@[j].format,
            forall|j: int| 0 <= j < i ==> ids@[j] == descriptors@[j].id,
        decreases descriptors@.len() - i,
    {
        formats.push(descriptors[i].format);
        ids.push(descriptors[i].id);
        i += 1;
    }
    (formats, ids)
}

fn zeroed(count: usize) -> (bytes: Vec<u8>)
    ensures
        bytes@ == zeros(count as nat),
{
    let mut bytes: Vec<u8> = Vec::new();
    let mut i: usize = 0;
    while i < count
        invariant
            i <= count,
            bytes@.len() == i,
            forall|j: int| 0 <= j < i ==> bytes@[j] == 0u8,
        decreases count - i,
    {
        bytes.push(0u8);
        i += 1;
    }
    bytes
}

impl Primitive {
    /// The formats of the attributes, in order.
    pub closed spec fn formats(&self) -> Seq<AttributeFormat> {
        self.attribute_formats@
    }

    /// The names of the attributes, in order.
    pub closed spec fn ids(&self) -> Seq<AttributeId> {
        self.attribute_ids@
    }

    /// True when the attributes share one buffer.
    pub closed spec fn is_interleaved(&self) -> bool {
        self.data is Interleaved
    }

    /// The buffer that holds attribute `attribute`: its own, or the one that
    /// all attributes share.
    pub closed spec fn buffer(&self, attribute: int) -> Seq<u8> {
        match self.data {
            AttributeData::SoA(buffers) => buffers@[attribute]@,
            AttributeData::Interleaved(buffer) => buffer@,
        }
    }

    /// The index array, each index widened to 32 bits, if there is one.
    pub closed spec fn indices(&self) -> Option<Seq<u32>> {
        match self.index_data {
            Some(indices) => Some(indices@),
            None => None,
        }
    }

    /// True when the primitive is consistent: each attribute has a name and
    /// a format, a buffer to itself unless all share one, and one vertex of
    /// all attributes fits in memory.
    pub closed spec fn wf(&self) -> bool {
        &&& self.attribute_ids@.len() == self.attribute_formats@.len()
        &&& stride_of(self.attribute_formats@) <= usize::MAX
        &&& (self.data matches AttributeData::SoA(buffers) ==> buffers@.len()
            == self.attribute_formats@.len())
    }

    /// A primitive of `count` vertices whose attributes share one buffer,
    /// every byte zero.
    ///
    /// Fails with `CapacityExceeded` where one vertex, or the buffer, would
    /// not fit in memory.
    pub fn interleaved_with_count(count: u64, descriptors: &[AttributeDescriptor]) -> (made:
        Result<Self, Error>)
        ensures
            !fits(count, stride_of(formats_of(descriptors@))) ==> made is Err && made->Err_0
                == Error::CapacityExceeded,
            fits(count, stride_of(formats_of(descriptors@))) ==> made is Ok && {
                let primitive = made->Ok_0;
                &&& primitive.wf()
                &&& primitive.is_interleaved()
                &&& primitive.formats() == formats_of(descriptors@)
                &&& primitive.ids() == ids_of(descriptors@)
                &&& primitive.indices() is None
                &&& forall|attribute: int|
                    primitive.buffer(attribute) == zeros(
                        (count * stride_of(formats_of(descriptors@))) as nat,
                    )
            },
    {
        let (attribute_formats, attribute_ids) = split(descriptors);
        let stride = match checked_stride(&attribute_formats) {
            Some(stride) => stride,
            None => {
                return Err(Error::CapacityExceeded);
            },
        };
        assert(count * stride <= 0xffff_ffff_ffff_ffff * 0xffff_ffff_ffff_ffff)
            by (nonlinear_arith)
            requires
                0 <= count <= 0xffff_ffff_ffff_ffff,
                0 <= stride <= 0xffff_ffff_ffff_ffff,
        ;
        let byte_count: u128 = count as u128 * stride as u128;
        if byte_count > isize::MAX as u128 {
            return Err(Error::CapacityExceeded);
        }
        Ok(
            Primitive {
                data: AttributeData::Interleaved(zeroed(byte_count as usize)),
                attribute_formats,
                attribute_ids,
                index_data: None,
            },
        )
    }

    /// A primitive for `count` vertices in which each attribute has a
    /// buffer to itself. The buffers hold no vertex yet.
    ///
    /// Fails with `CapacityExceeded` where one vertex, or `count` of them,
    /// would not fit in memory.
    pub fn soa_with_count(count: u64, descriptors: &[AttributeDescriptor]) -> (made: Result<
        Self,
        Error,
    >)
        ensures
            !fits(count, stride_of(formats_of(descriptors@))) ==> made is Err && made->Err_0
                == Error::CapacityExceeded,
            fits(count, stride_of(formats_of(descriptors@))) ==> made is Ok && {
                let primitive = made->Ok_0;
                &&& primitive.wf()
                &&& !primitive.is_interleaved()
                &&& primitive.formats() == formats_of(descriptors@)
                &&& primitive.ids() == ids_of(descriptors@)
                &&& primitive.indices() is None
                &&& forall|attribute: int|
                    0 <= attribute < descriptors@.len() ==> #[trigger] primitive.buffer(attribute)
                        == Seq::<u8>::empty()
            },
    {
        let (attribute_formats, attribute_ids) = split(descriptors);
        let stride = match checked_stride(&attribute_formats) {
            Some(stride) => stride,
            None => {
                return Err(Error::CapacityExceeded);
            },
        };
        assert(count * stride <= 0xffff_ffff_ffff_ffff * 0xffff_ffff_ffff_ffff)
            by (nonlinear_arith)
            requires
                0 <= count <= 0xffff_ffff_ffff_ffff,
                0 <= stride <= 0xffff_ffff_ffff_ffff,
        ;
        if count as u128 * stride as u128 > isize::MAX as u128 {
            return Err(Error::CapacityExceeded);
        }
        let mut buffers: Vec<Vec<u8>> = Vec::with_capacity(attribute_formats.len());
        let mut i: usize = 0;
        while i < attribute_formats.len()
            invariant
                i <= attribute_formats@.len(),
                buffers@.len() == i,
                forall|j: int| 0 <= j < i ==> (#[trigger] buffers@[j])@ == Seq::<u8>::empty(),
            decreases attribute_formats@.len() - i,
        {
            buffers.push(Vec::new());
            i += 1;
        }
        Ok(
            Primitive {
                data: AttributeData::SoA(buffers),
                attribute_formats,
                attribute_ids,
                index_data: None,
            },
        )
    }

    /// The place of the first attribute that has the name of `id`, if there
    /// is one.
    pub fn attribute_index(&self, id: AttributeId) -> (found: Option<usize>)
        ensures
            match found {
                Some(place) => place < self.ids().len() && self.ids()[place as int].0@ == id.0@
                    && forall|j: int| 0 <= j < place ==> (#[trigger] self.ids()[j]).0@ != id.0@,
                None => forall|j: int|
                    0 <= j < self.ids().len() ==> (#[trigger] self.ids()[j]).0@ != id.0@,
            },
    {
        let mut i: usize = 0;
        while i < self.attribute_ids.len()
            invariant
                i <= self.attribute_ids@.len(),
                forall|j: int| 0 <= j < i ==> (#[trigger] self.attribute_ids@[j]).0@ != id.0@,
            decreases self.attribute_ids@.len() - i,
        {
            if same_attribute(&self.attribute_ids[i], &id) {
                return Some(i);
            }
            i += 1;
        }
        None
    }

    /// The format of attribute `index`, or `IndexOutOfRange` where there is
    /// no such attribute.
    pub fn attribute_format(&self, index: usize) -> (format: Result<AttributeFormat, Error>)
        ensures
            index < self.formats().len() ==> format == Ok::<AttributeFormat, Error>(
                self.formats()[index as int],
            ),
            index >= self.formats().len() ==> format == Err::<AttributeFormat, Error>(
                Error::IndexOutOfRange,
            ),
    {
        if index < self.attribute_formats.len() {
            Ok(self.attribute_formats[index])
        } else {
            Err(Error::IndexOutOfRange)
        }
    }

    /// Number of attributes.
    pub fn attribute_count(&self) -> (count: usize)
        ensures
            count == self.formats().len(),
    {
        self.attribute_formats.len()
    }

    /// Gives the primitive an index array.
    pub fn set_indices(&mut self, data: IndexData)
        ensures
            final(self).indices() == Some(data@),
            final(self).same_attributes(*old(self)),
            final(self).wf() == old(self).wf(),
    {
        self.index_data = Some(data);
    }

    /// Gives the primitive an index array of 16-bit indices.
    pub fn set_indices_u16(&mut self, data: Vec<u16>)
        ensures
            final(self).indices() == Some(IndexData::U16(data)@),
            final(self).same_attributes(*old(self)),
            final(self).wf() == old(self).wf(),
    {
        self.index_data = Some(IndexData::U16(data));
    }

    /// Gives the primitive an index array of 32-bit indices.
    pub fn set_indices_u32(&mut self, data: Vec<u32>)
        ensures
            final(self).indices() == Some(data@),
            final(self).same_attributes(*old(self)),
            final(self).wf() == old(self).wf(),
    {
        self.index_data = Some(IndexData::U32(data));
    }

    /// True when `self` has the attributes of `other`, in the same buffers
    /// with the same contents.
    pub closed spec fn same_attributes(&self, other: Primitive) -> bool {
        &&& self.attribute_formats == other.attribute_formats
        &&& self.attribute_ids == other.attribute_ids
        &&& self.data == other.data
    }

    /// The index array, if the primitive has one.
    pub fn index_data(&self) -> (data: &Option<IndexData>)
        ensures
            match *data {
                Some(indices) => self.indices() == Some(indices@),
                None => self.indices() is None,
            },
    {
        &self.index_data
    }

    /// The buffer that all attributes share, if they share one.
    pub fn interleaved_data(&self) -> (data: Option<&Vec<u8>>)
        ensures
            match data {
                Some(buffer) => self.is_interleaved() && forall|attribute: int|
                    self.buffer(attribute) == buffer@,
                None => !self.is_interleaved(),
            },
    {
        match &self.data {
            AttributeData::Interleaved(buffer) => Some(buffer),
            AttributeData::SoA(_) => None,
        }
    }

    /// Number of vertices that the first buffer holds.
    ///
    /// Fails with `FormatMismatch` where that cannot be told: a vertex of
    /// the shared buffer takes no byte, or there is no first attribute or
    /// its elements take no byte.
    pub fn count(&self) -> (count: Result<usize, Error>)
        requires
            self.wf(),
        ensures
            count == self.spec_count(),
    {
        match &self.data {
            AttributeData::Interleaved(buffer) => {
                let stride = compute_stride(&self.attribute_formats);
                if stride == 0 {
                    Err(Error::FormatMismatch)
                } else {
                    Ok(buffer.len() / stride)
                }
            },
            AttributeData::SoA(buffers) => {
                if self.attribute_formats.len() == 0 || self.attribute_formats[0].size == 0 {
                    Err(Error::FormatMismatch)
                } else {
                    Ok(buffers[0].len() / self.attribute_formats[0].size)
                }
            },
        }
    }

    /// What [`Primitive::count`] returns.
    pub open spec fn spec_count(&self) -> Result<usize, Error> {
        if self.is_interleaved() {
            if stride_of(self.formats()) == 0 {
                Err(Error::FormatMismatch)
            } else {
                Ok((self.buffer(0).len() / stride_of(self.formats())) as usize)
            }
        } else if self.formats().len() == 0 || self.formats()[0].size == 0 {
            Err(Error::FormatMismatch)
        } else {
            Ok((self.buffer(0).len() / (self.formats()[0].size as nat)) as usize)
        }
    }
}

impl Primitive {
    /// Why attribute `attribute` cannot be read or written in elements of
    /// `size` bytes, if it cannot.
    pub open spec fn attribute_error(&self, attribute: usize, size: usize) -> Option<Error> {
        if attribute >= self.formats().len() {
            Some(Error::IndexOutOfRange)
        } else if size == 0 || size > self.formats()[attribute as int].size {
            Some(Error::FormatMismatch)
        } else {
            None
        }
    }

    /// Why attribute `attribute` cannot be read or written in elements of
    /// `size` bytes whose components are of `class`, if it cannot.
    pub open spec fn typed_attribute_error(
        &self,
        attribute: usize,
        class: ComponentClass,
        size: usize,
    ) -> Option<Error> {
        if attribute >= self.formats().len() {
            Some(Error::IndexOutOfRange)
        } else if self.formats()[attribute as int].class != class {
            Some(Error::FormatMismatch)
        } else {
            self.attribute_error(attribute, size)
        }
    }

    /// True when `slice` is attribute `attribute` of `self`, read in
    /// elements of `size` bytes.
    pub open spec fn lends(&self, attribute: usize, size: usize, slice: AttributeSlice) -> bool {
        &&& slice.data@ == self.buffer(attribute as int)
        &&& slice.byte_end == self.buffer(attribute as int).len()
        &&& slice.size == size
        &&& slice.stride == if self.is_interleaved() {
            stride_of(self.formats())
        } else {
            self.formats()[attribute as int].size as nat
        }
        &&& slice.byte_offset == if self.is_interleaved() {
            offset_of(self.formats(), attribute as int)
        } else {
            0
        }
    }

    /// True when `self` is `before` but for the buffer of attribute
    /// `attribute`, which now holds `bytes`.
    pub open spec fn differs_in(&self, before: Primitive, attribute: usize, bytes: Seq<u8>) -> bool {
        &&& self.wf()
        &&& self.formats() == before.formats()
        &&& self.ids() == before.ids()
        &&& self.indices() == before.indices()
        &&& self.is_interleaved() == before.is_interleaved()
        &&& self.buffer(attribute as int) == bytes
        &&& forall|other: int|
            0 <= other < self.formats().len() && other != attribute && !self.is_interleaved()
                ==> #[trigger] self.buffer(other) == before.buffer(other)
    }

    /// Lends attribute `attribute` for reading and writing in elements of
    /// `size` bytes.
    ///
    /// Fails with `IndexOutOfRange` where there is no such attribute, and
    /// with `FormatMismatch` where `size` is zero or more than an element of
    /// the attribute takes.
    pub fn attribute<'a>(&'a mut self, attribute: usize, size: usize) -> (lent: Result<
        AttributeSlice<'a>,
        Error,
    >)
        requires
            old(self).wf(),
        ensures
            match old(self).attribute_error(attribute, size) {
                Some(error) => lent is Err && lent->Err_0 == error && final(self).differs_in(
                    *old(self),
                    attribute,
                    old(self).buffer(attribute as int),
                ),
                None => lent is Ok && old(self).lends(attribute, size, lent->Ok_0)
                    && final(self).differs_in(*old(self), attribute, final(lent->Ok_0.data)@),
            },
    {
        if attribute >= self.attribute_formats.len() {
            return Err(Error::IndexOutOfRange);
        }
        let byte_size = self.attribute_formats[attribute].size;
        if size == 0 || size > byte_size {
            return Err(Error::FormatMismatch);
        }
        let stride = compute_stride(&self.attribute_formats);
        let byte_offset = byte_offset_for(&self.attribute_formats, attribute);
        match &mut self.data {
            AttributeData::Interleaved(buffer) => {
                let byte_end = buffer.len();
                Ok(AttributeSlice { data: buffer, byte_offset, byte_end, stride, size })
            },
            AttributeData::SoA(buffers) => {
                let byte_end = buffers[attribute].len();
                Ok(
                    AttributeSlice {
                        data: &mut buffers[attribute],
                        byte_offset: 0,
                        byte_end,
                        stride: byte_size,
                        size,
                    },
                )
            },
        }
    }
}

impl Primitive {
    /// Lends attribute `attribute` as [`Primitive::attribute`] does, once
    /// its components are known to be of `class`.
    ///
    /// Fails with `IndexOutOfRange` where there is no such attribute, and
    /// with `FormatMismatch` where its components are of another class,
    /// `size` is zero, or `size` is more than an element of the attribute
    /// takes.
    pub fn typed_attribute<'a>(
        &'a mut self,
        attribute: usize,
        class: ComponentClass,
        size: usize,
    ) -> (lent: Result<AttributeSlice<'a>, Error>)
        requires
            old(self).wf(),
        ensures
            match old(self).typed_attribute_error(attribute, class, size) {
                Some(error) => lent is Err && lent->Err_0 == error && final(self).differs_in(
                    *old(self),
                    attribute,
                    old(self).buffer(attribute as int),
                ),
                None => lent is Ok && old(self).lends(attribute, size, lent->Ok_0)
                    && final(self).differs_in(*old(self), attribute, final(lent->Ok_0.data)@),
            },
    {
        if attribute >= self.attribute_formats.len() {
            return Err(Error::IndexOutOfRange);
        }
        if self.attribute_formats[attribute].class != class {
            return Err(Error::FormatMismatch);
        }
        self.attribute(attribute, size)
    }
}

/// The place in the buffer at which element `index` of a slice starts.
pub open spec fn element_start(byte_offset: usize, stride: usize, index: int) -> int {
    byte_offset + stride * index
}

/// The buffer after the first `count` elements of a slice, and the first
/// `bytes` bytes of the next, have been overwritten by those of `elements`,
/// `element_size` bytes each.
pub open spec fn partly_overwritten(
    before: Seq<u8>,
    elements: Seq<u8>,
    element_size: usize,
    byte_offset: usize,
    stride: usize,
    count: int,
    bytes: int,
) -> Seq<u8> {
    Seq::new(
        before.len(),
        |place: int|
            {
                let element = (place - byte_offset) / (stride as int);
                let within = (place - byte_offset) % (stride as int);
                if place >= byte_offset && within < element_size && (element < count || (element
                    == count && within < bytes)) {
                    elements[element * element_size + within]
                } else {
                    before[place]
                }
            },
    )
}

/// The buffer after the first `count` elements of a slice have been
/// overwritten by those of `elements`, `element_size` bytes each: byte `w`
/// of element `i` lies at `byte_offset + stride * i + w`.
pub open spec fn overwritten(
    before: Seq<u8>,
    elements: Seq<u8>,
    element_size: usize,
    byte_offset: usize,
    stride: usize,
    count: int,
) -> Seq<u8> {
    partly_overwritten(before, elements, element_size, byte_offset, stride, count, 0)
}

proof fn lemma_place_of(byte_offset: int, stride: int, element: int, within: int)
    requires
        0 <= element,
        0 <= within < stride,
    ensures
        (stride * element + within) / stride == element,
        (stride * element + within) % stride == within,
{
    assert(stride * element == element * stride) by (nonlinear_arith);
    vstd::arithmetic::div_mod::lemma_fundamental_div_mod_converse(
        stride * element + within,
        stride,
        element,
        within,
    );
}

proof fn lemma_one_more_byte(
    before: Seq<u8>,
    elements: Seq<u8>,
    element_size: usize,
    byte_offset: usize,
    stride: usize,
    count: int,
    bytes: int,
)
    requires
        0 < element_size <= stride,
        0 <= count,
        0 <= bytes < element_size,
        byte_offset + stride * count + bytes < before.len(),
    ensures
        partly_overwritten(before, elements, element_size, byte_offset, stride, count, bytes).update(
            byte_offset + stride * count + bytes,
            elements[count * element_size + bytes],
        ) == partly_overwritten(
            before,
            elements,
            element_size,
            byte_offset,
            stride,
            count,
            bytes + 1,
        ),
{
    let place = byte_offset + stride * count + bytes;
    let earlier = partly_overwritten(
        before,
        elements,
        element_size,
        byte_offset,
        stride,
        count,
        bytes,
    );
    let later = partly_overwritten(
        before,
        elements,
        element_size,
        byte_offset,
        stride,
        count,
        bytes + 1,
    );
    assert(0 <= stride * count) by (nonlinear_arith)
        requires
            0 <= count,
            0 < stride,
    ;
    lemma_place_of(byte_offset as int, stride as int, count, bytes);
    assert forall|other: int| 0 <= other < before.len() implies earlier.update(
        place,
        elements[count * element_size + bytes],
    )[other] == later[other] by {
        if other != place && other >= byte_offset {
            vstd::arithmetic::div_mod::lemma_fundamental_div_mod(
                other - byte_offset,
                stride as int,
            );
        }
    }
}

proof fn lemma_whole_element(
    before: Seq<u8>,
    elements: Seq<u8>,
    element_size: usize,
    byte_offset: usize,
    stride: usize,
    count: int,
)
    requires
        0 < element_size <= stride,
        0 <= count,
    ensures
        partly_overwritten(
            before,
            elements,
            element_size,
            byte_offset,
            stride,
            count,
            element_size as int,
        ) == partly_overwritten(before, elements, element_size, byte_offset, stride, count + 1, 0),
{
    assert(partly_overwritten(
        before,
        elements,
        element_size,
        byte_offset,
        stride,
        count,
        element_size as int,
    ) =~= partly_overwritten(before, elements, element_size, byte_offset, stride, count + 1, 0));
}

proof fn lemma_nothing_written(
    before: Seq<u8>,
    elements: Seq<u8>,
    element_size: usize,
    byte_offset: usize,
    stride: usize,
)
    requires
        0 < stride,
    ensures
        partly_overwritten(before, elements, element_size, byte_offset, stride, 0, 0) == before,
{
    assert forall|place: int| 0 <= place < before.len() implies partly_overwritten(
        before,
        elements,
        element_size,
        byte_offset,
        stride,
        0,
        0,
    )[place] == before[place] by {
        if place >= byte_offset {
            vstd::arithmetic::div_mod::lemma_fundamental_div_mod(
                place - byte_offset,
                stride as int,
            );
            assert((place - byte_offset) / (stride as int) >= 0) by (nonlinear_arith)
                requires
                    place - byte_offset >= 0,
                    stride > 0,
            ;
        }
    }
    assert(partly_overwritten(before, elements, element_size, byte_offset, stride, 0, 0)
        =~= before);
}

impl<'a> AttributeSlice<'a> {
    /// The bytes of the buffer.
    pub open spec fn bytes(&self) -> Seq<u8> {
        self.data@
    }

    /// Number of elements that the buffer has room for.
    pub open spec fn spec_len(&self) -> nat {
        self.bytes().len() / (self.stride as nat)
    }

    /// Number of elements that the buffer has room for.
    pub fn len(&self) -> (count: usize)
        requires
            self.stride > 0,
        ensures
            count == self.spec_len(),
    {
        self.data.len() / self.stride
    }

    /// True when element `index` starts before the end of the slice and
    /// lies wholly in the buffer.
    pub open spec fn holds(&self, index: usize) -> bool {
        &&& element_start(self.byte_offset, self.stride, index as int) < self.byte_end
        &&& element_start(self.byte_offset, self.stride, index as int) + self.size
            <= self.bytes().len()
    }

    /// The bytes of element `index`.
    ///
    /// Fails with `IndexOutOfRange` where the element starts at or beyond
    /// the end of the slice, or does not lie wholly in the buffer.
    pub fn get(&self, index: usize) -> (element: Result<Vec<u8>, Error>)
        ensures
            self.holds(index) ==> element is Ok && element->Ok_0@ == self.element(index as int),
            !self.holds(index) ==> element is Err && element->Err_0 == Error::IndexOutOfRange,
    {
        assert(self.stride * index <= 0xffff_ffff_ffff_ffff * 0xffff_ffff_ffff_ffff)
            by (nonlinear_arith)
            requires
                0 <= self.stride <= 0xffff_ffff_ffff_ffff,
                0 <= index <= 0xffff_ffff_ffff_ffff,
        ;
        let start: u128 = self.byte_offset as u128 + self.stride as u128 * index as u128;
        let length = self.data.len();
        if start >= self.byte_end as u128 || start + self.size as u128 > length as u128 {
            return Err(Error::IndexOutOfRange);
        }
        let start = start as usize;
        let mut element: Vec<u8> = Vec::with_capacity(self.size);
        let mut k: usize = 0;
        while k < self.size
            invariant
                k <= self.size,
                start + self.size <= length == self.data@.len(),
                element@.len() == k,
                forall|j: int| 0 <= j < k ==> element@[j] == self.data@[start + j],
            decreases self.size - k,
        {
            element.push(self.data[start + k]);
            k += 1;
        }
        Ok(element)
    }

    /// The bytes of element `index`.
    pub open spec fn element(&self, index: int) -> Seq<u8> {
        self.bytes().subrange(
            element_start(self.byte_offset, self.stride, index),
            element_start(self.byte_offset, self.stride, index) + self.size,
        )
    }

    /// True when each of the elements that the buffer has room for can be
    /// read.
    pub open spec fn holds_all(&self) -> bool {
        forall|index: int| 0 <= index < self.spec_len() ==> #[trigger] self.holds(index as usize)
    }

    /// The elements, in order, as many as the buffer has room for.
    ///
    /// Fails with `IndexOutOfRange` where one of them cannot be read.
    pub fn to_vec(&self) -> (elements: Result<Vec<Vec<u8>>, Error>)
        requires
            self.stride > 0,
        ensures
            self.holds_all() ==> elements is Ok && elements->Ok_0@.len() == self.spec_len()
                && forall|index: int|
                0 <= index < self.spec_len() ==> (#[trigger] elements->Ok_0@[index])@
                    == self.element(index),
            !self.holds_all() ==> elements is Err && elements->Err_0 == Error::IndexOutOfRange,
    {
        let count = self.len();
        let mut elements: Vec<Vec<u8>> = Vec::new();
        let mut index: usize = 0;
        while index < count
            invariant
                index <= count == self.spec_len(),
                elements@.len() == index,
                forall|i: int| 0 <= i < index ==> #[trigger] self.holds(i as usize),
                forall|i: int| 0 <= i < index ==> (#[trigger] elements@[i])@ == self.element(i),
            decreases count - index,
        {
            match self.get(index) {
                Ok(element) => {
                    elements.push(element);
                },
                Err(error) => {
                    assert(!self.holds((index as int) as usize));
                    return Err(error);
                },
            }
            index += 1;
        }
        Ok(elements)
    }

    /// Why `elements`, taken as elements of `element_size` bytes, cannot be
    /// written to the slice, if they cannot.
    pub open spec fn set_error(&self, elements: Seq<u8>, element_size: usize) -> Option<Error> {
        if element_size == 0 || element_size > self.size || element_size > self.stride
            || elements.len() % (element_size as nat) != 0 {
            Some(Error::FormatMismatch)
        } else if elements.len() / (element_size as nat) > self.spec_len() || (elements.len() > 0
            && element_start(
            self.byte_offset,
            self.stride,
            elements.len() / (element_size as nat) - 1,
        ) + element_size > self.bytes().len()) {
            Some(Error::IndexOutOfRange)
        } else {
            None
        }
    }

    /// Overwrites the first elements of the slice by `elements`, taken as
    /// elements of `element_size` bytes: byte `w` of element `i` goes to
    /// `byte_offset + stride * i + w`, and every other byte stays.
    ///
    /// Fails, and writes nothing, with `FormatMismatch` where
    /// `element_size` is zero, more than `size` or more than `stride`, or
    /// `elements` is not a whole number of elements; and with
    /// `IndexOutOfRange` where there are more elements than the buffer has
    /// room for, or the last would not lie wholly in the buffer.
    pub fn set(&mut self, elements: &[u8], element_size: usize) -> (written: Result<(), Error>)
        ensures
            final(self).byte_offset == old(self).byte_offset,
            final(self).byte_end == old(self).byte_end,
            final(self).stride == old(self).stride,
            final(self).size == old(self).size,
            *final(final(self).data) == *final(old(self).data),
            match old(self).set_error(elements@, element_size) {
                Some(error) => written == Err::<(), Error>(error) && final(self).bytes() == old(
                    self,
                ).bytes(),
                None => written is Ok && final(self).bytes() == overwritten(
                    old(self).bytes(),
                    elements@,
                    element_size,
                    old(self).byte_offset,
                    old(self).stride,
                    elements@.len() as int / element_size as int,
                ),
            },
    {
        if element_size == 0 || element_size > self.size || element_size > self.stride
            || elements.len() % element_size != 0 {
            return Err(Error::FormatMismatch);
        }
        let total = elements.len();
        let count: usize = total / element_size;
        let length = self.data.len();
        proof {
            assert(total == element_size * count && (total > 0 <==> count > 0))
                by (nonlinear_arith)
                requires
                    element_size > 0,
                    count == total / element_size,
                    total % element_size == 0,
            ;
        }
        if count > length / self.stride {
            return Err(Error::IndexOutOfRange);
        }
        assert(self.stride * count <= 0xffff_ffff_ffff_ffff * 0xffff_ffff_ffff_ffff)
            by (nonlinear_arith)
            requires
                0 <= self.stride <= 0xffff_ffff_ffff_ffff,
                0 <= count <= 0xffff_ffff_ffff_ffff,
        ;
        if count > 0 {
            assert(0 <= self.stride * (count - 1) <= self.stride * count) by (nonlinear_arith)
                requires
                    0 < self.stride,
                    1 <= count,
            ;
            let last: u128 = self.byte_offset as u128 + self.stride as u128 * (count - 1) as u128;
            if last + element_size as u128 > length as u128 {
                return Err(Error::IndexOutOfRange);
            }
        }
        let byte_offset = self.byte_offset;
        let stride = self.stride;
        let ghost before = self.data@;
        proof {
            lemma_nothing_written(before, elements@, element_size, byte_offset, stride);
        }
        let mut i: usize = 0;
        while i < count
            invariant
                i <= count,
                0 < element_size <= stride,
                total == elements@.len() == element_size * count,
                length == before.len(),
                count > 0 ==> byte_offset + stride * (count - 1) + element_size <= length,
                self.data@ == partly_overwritten(
                    before,
                    elements@,
                    element_size,
                    byte_offset,
                    stride,
                    i as int,
                    0,
                ),
                self.byte_offset == old(self).byte_offset,
                self.byte_end == old(self).byte_end,
                self.stride == old(self).stride,
                self.size == old(self).size,
                *final(self.data) == *final(old(self).data),
            decreases count - i,
        {
            proof {
                assert(0 <= stride * i <= stride * (count - 1) && element_size * i + element_size
                    <= element_size * count) by (nonlinear_arith)
                    requires
                        0 <= i <= count - 1,
                        0 < element_size <= stride,
                ;
            }
            let target: usize = byte_offset + stride * i;
            let source: usize = element_size * i;
            let mut k: usize = 0;
            while k < element_size
                invariant
                    k <= element_size,
                    i < count,
                    0 < element_size <= stride,
                    target == byte_offset + stride * i,
                    source == element_size * i,
                    source + element_size <= total == elements@.len(),
                    target + element_size <= length == before.len(),
                    self.data@ == partly_overwritten(
                        before,
                        elements@,
                        element_size,
                        byte_offset,
                        stride,
                        i as int,
                        k as int,
                    ),
                    self.byte_offset == old(self).byte_offset,
                    self.byte_end == old(self).byte_end,
                    self.stride == old(self).stride,
                    self.size == old(self).size,
                    *final(self.data) == *final(old(self).data),
                decreases element_size - k,
            {
                proof {
                    lemma_one_more_byte(
                        before,
                        elements@,
                        element_size,
                        byte_offset,
                        stride,
                        i as int,
                        k as int,
                    );
                    assert(i * element_size == element_size * i) by (nonlinear_arith);
                }
                self.data.set(target + k, elements[source + k]);
                k += 1;
            }
            proof {
                lemma_whole_element(
                    before,
                    elements@,
                    element_size,
                    byte_offset,
                    stride,
                    i as int,
                );
            }
            i += 1;
        }
        Ok(())
    }
}

} // verus!
