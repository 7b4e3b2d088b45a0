//! Pure, type-level description of a vertex element's data layout: stride,
//! per-attribute offset and format, and step mode. Nothing here touches a
//! device; a layout is a plain value that buffer wrappers carry alongside
//! their device buffer so that pipeline input descriptions can be built from
//! it.

use vstd::prelude::*;

verus! {

/// How often the consuming pipeline advances through a buffer's elements:
/// once per vertex, or once per drawn instance.
#[derive(Clone, Copy, Debug, PartialEq, Eq, Structural)]
pub enum StepMode {
    Vertex,
    Instance,
}

/// The shape of a single attribute inside a vertex element: a packed group
/// of one to four 32-bit floats.
#[derive(Clone, Copy, Debug, PartialEq, Eq, Structural)]
pub enum VertexFormat {
    Float32,
    Float32x2,
    Float32x3,
    Float32x4,
}

impl VertexFormat {
    /// Byte size of one value of this format.
    pub open spec fn spec_size(self) -> int {
        match self {
            VertexFormat::Float32 => 4,
            VertexFormat::Float32x2 => 8,
            VertexFormat::Float32x3 => 12,
            VertexFormat::Float32x4 => 16,
        }
    }

    pub fn size(&self) -> (r: u64)
        ensures
            r == self.spec_size(),
    {
        match self {
            VertexFormat::Float32 => 4,
            VertexFormat::Float32x2 => 8,
            VertexFormat::Float32x3 => 12,
            VertexFormat::Float32x4 => 16,
        }
    }
}

/// One attribute of a vertex element: where it sits inside the element and
/// which shader input slot it feeds.
#[derive(Clone, Copy, Debug, PartialEq, Eq, Structural)]
pub struct VertexAttribute {
    pub format: VertexFormat,
    pub offset: u64,
    pub shader_location: u32,
}

/// A complete element layout: the byte stride between consecutive elements,
/// the step mode, and the attributes inside one element.
#[derive(Debug)]
pub struct VertexLayout {
    pub array_stride: u64,
    pub step_mode: StepMode,
    pub attributes: Vec<VertexAttribute>,
}

/// Total byte size of a sequence of formats laid out back to back.
pub open spec fn packed_size(formats: Seq<VertexFormat>) -> int
    decreases formats.len(),
{
    if formats.len() == 0 {
        0
    } else {
        packed_size(formats.drop_last()) + formats.last().spec_size()
    }
}

/// The packed size is a multiple of 4, and between 4 and 16 bytes per
/// format.
pub proof fn lemma_packed_size_bounds(formats: Seq<VertexFormat>)
    ensures
        packed_size(formats) % 4 == 0,
        packed_size(formats) >= 4 * formats.len(),
        packed_size(formats) <= 16 * formats.len(),
    decreases formats.len(),
{
    if formats.len() > 0 {
        lemma_packed_size_bounds(formats.drop_last());
    }
}

/// Laying out a prefix never takes more bytes than laying out the whole.
pub proof fn lemma_packed_size_prefix(formats: Seq<VertexFormat>, i: int)
    requires
        0 <= i <= formats.len(),
    ensures
        packed_size(formats.take(i)) <= packed_size(formats),
    decreases formats.len() - i,
{
    if i < formats.len() {
        lemma_packed_size_prefix(formats, i + 1);
        assert(formats.take(i + 1).drop_last() =~= formats.take(i));
        assert(packed_size(formats.take(i)) <= packed_size(formats.take(i + 1))) by {
            assert(formats.take(i + 1).last().spec_size() >= 4);
        }
    } else {
        assert(formats.take(i) =~= formats);
    }
}

impl VertexLayout {
    /// A layout is well formed when its stride is positive, 4-byte aligned
    /// (buffer copies operate on 4-byte units), and every attribute lies
    /// entirely inside the stride.
    pub open spec fn wf(self) -> bool {
        &&& 0 < self.array_stride
        &&& self.array_stride % 4 == 0
        &&& forall|i: int|
            0 <= i < self.attributes@.len() ==> (#[trigger] self.attributes@[i]).offset
                + self.attributes@[i].format.spec_size() <= self.array_stride
    }

    /// Build the layout of an element whose attributes are packed back to
    /// back with no padding: attribute `i` sits at the sum of the sizes of
    /// the attributes before it, and the stride is the total size. Shader
    /// locations are assigned consecutively starting at
    /// `first_shader_location`.
    pub fn packed(formats: &Vec<VertexFormat>, first_shader_location: u32, step_mode: StepMode) -> (r:
        VertexLayout)
        requires
            0 < formats@.len(),
            first_shader_location + formats@.len() <= u32::MAX,
        ensures
            r.wf(),
            r.step_mode == step_mode,
            r.array_stride == packed_size(formats@),
            r.attributes@.len() == formats@.len(),
            forall|i: int|
                0 <= i < formats@.len() ==> {
                    &&& (#[trigger] r.attributes@[i]).format == formats@[i]
                    &&& r.attributes@[i].offset == packed_size(formats@.take(i))
                    &&& r.attributes@[i].shader_location == first_shader_location + i
                },
    {
        proof {
            lemma_packed_size_bounds(formats@);
        }
        let mut attributes: Vec<VertexAttribute> = Vec::new();
        let mut offset: u64 = 0;
        let mut i: usize = 0;
        while i < formats.len()
            invariant
                0 <= i <= formats@.len(),
                packed_size(formats@) <= u64::MAX,
                first_shader_location + formats@.len() <= u32::MAX,
                offset == packed_size(formats@.take(i as int)),
                attributes@.len() == i,
                forall|j: int|
                    0 <= j < i ==> {
                        &&& (#[trigger] attributes@[j]).format == formats@[j]
                        &&& attributes@[j].offset == packed_size(formats@.take(j))
                        &&& attributes@[j].shader_location == first_shader_location + j
                    },
            decreases formats@.len() - i,
        {
            let f = formats[i];
            proof {
                assert(formats@.take(i + 1).drop_last() =~= formats@.take(i as int));
                assert(formats@.take(i + 1).last() == formats@[i as int]);
                lemma_packed_size_prefix(formats@, i + 1);
                lemma_packed_size_bounds(formats@.take(i as int));
            }
            attributes.push(
                VertexAttribute {
                    format: f,
                    offset,
                    shader_location: first_shader_location + (i as u32),
                },
            );
            offset = offset + f.size();
            i = i + 1;
        }
        proof {
            assert(formats@.take(i as int) =~= formats@);
            lemma_packed_size_bounds(formats@);
            assert forall|j: int| 0 <= j < formats@.len() implies (#[trigger] attributes@[j]).offset
                + attributes@[j].format.spec_size() <= offset by {
                assert(formats@.take(j + 1).drop_last() =~= formats@.take(j));
                assert(formats@.take(j + 1).last() == formats@[j]);
                lemma_packed_size_prefix(formats@, j + 1);
            }
        }
        VertexLayout { array_stride: offset, step_mode, attributes }
    }

    /// An exact copy of this layout, field for field.
    pub fn duplicate(&self) -> (r: VertexLayout)
        ensures
            r.array_stride == self.array_stride,
            r.step_mode == self.step_mode,
            r.attributes@ == self.attributes@,
    {
        let mut attributes: Vec<VertexAttribute> = Vec::new();
        let mut i: usize = 0;
        while i < self.attributes.len()
            invariant
                0 <= i <= self.attributes@.len(),
                attributes@.len() == i,
                forall|j: int| 0 <= j < i ==> attributes@[j] == self.attributes@[j],
            decreases self.attributes@.len() - i,
        {
            attributes.push(self.attributes[i]);
            i = i + 1;
        }
        proof {
            assert(attributes@ =~= self.attributes@);
        }
        VertexLayout { array_stride: self.array_stride, step_mode: self.step_mode, attributes }
    }
}

} // verus!
