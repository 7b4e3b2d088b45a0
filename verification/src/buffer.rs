//! The typed buffer family: wrappers that own a device buffer (or two) while
//! keeping the element layout as a plain value, so that pipeline input
//! descriptions can be built without erasing the data into a bytes-only
//! buffer. Element contents arrive as raw bytes whose length is a whole
//! number of elements; converting concrete element structs to bytes is the
//! caller's side of the contract.

use vstd::arithmetic::div_mod::lemma_fundamental_div_mod;
use vstd::arithmetic::mul::{lemma_mul_inequality, lemma_mul_is_associative};
use vstd::prelude::*;

use crate::gpu::{
    buffer_data, buffer_len, buffer_usage, create_buffer_init, queue_write_buffer, spec_init_size,
    usage_bits, usage_index, usage_vertex, usage_vertex_copy_dst, usages_from_bits, view_belt,
    view_bytes, view_dst, view_dst_offset, view_encoder, view_write, COPY_DST_BIT, INDEX_BIT,
    UNIFORM_BIT, VERTEX_BIT,
};
use crate::layout::VertexLayout;

verus! {

/// A write into an instance buffer was rejected.
#[derive(Clone, Copy, Debug, PartialEq, Eq, Structural)]
pub enum BufferWriteError {
    /// The element index was not below the buffer's capacity.
    IndexOutOfRange,
}

/// The usage mask a buffer is created with, described in the data model's
/// own terms: how the buffer may be bound, and whether it can be a copy
/// destination for later rewrites.
#[derive(Clone, Copy, Debug, PartialEq, Eq, Structural)]
pub struct BufferUsage {
    pub vertex: bool,
    pub index: bool,
    pub uniform: bool,
    pub copy_dst: bool,
}

impl BufferUsage {
    /// The mask's bits, as the device layer defines them.
    pub open spec fn spec_bits(self) -> u32 {
        (((if self.vertex {
            VERTEX_BIT as int
        } else {
            0
        }) + (if self.index {
            INDEX_BIT as int
        } else {
            0
        }) + (if self.uniform {
            UNIFORM_BIT as int
        } else {
            0
        }) + (if self.copy_dst {
            COPY_DST_BIT as int
        } else {
            0
        })) as u32)
    }

    pub fn bits(&self) -> (r: u32)
        ensures
            r == self.spec_bits(),
    {
        let mut r: u32 = 0;
        if self.vertex {
            r = r + 32;
        }
        if self.index {
            r = r + 16;
        }
        if self.uniform {
            r = r + 64;
        }
        if self.copy_dst {
            r = r + 8;
        }
        r
    }
}

/// If `d` divides `b`, it divides any multiple of `b`.
proof fn lemma_mul_keeps_divisor(a: int, b: int, d: int)
    requires
        0 < d,
        b % d == 0,
        0 <= a,
    ensures
        (a * b) % d == 0,
{
    let m = b / d;
    lemma_fundamental_div_mod(b, d);
    assert(b == d * m);
    assert(a * (d * m) == d * (a * m)) by {
        lemma_mul_is_associative(a, d, m);
        lemma_mul_is_associative(d, a, m);
        assert(a * d == d * a);
    }
    assert((d * (a * m)) % d == 0) by {
        vstd::arithmetic::div_mod::lemma_mod_multiples_basic(a * m, d);
        assert(d * (a * m) == (a * m) * d);
    }
}

/// A byte count that is a whole number of 4-byte-aligned elements needs no
/// padding when a buffer is sized for it.
proof fn lemma_whole_elements_aligned(len: int, stride: int)
    requires
        0 < stride,
        stride % 4 == 0,
        len % stride == 0,
        0 <= len,
    ensures
        spec_init_size(len) == len,
        (len / stride) * stride == len,
{
    let k = len / stride;
    lemma_fundamental_div_mod(len, stride);
    assert(len == stride * k);
    assert(k >= 0) by {
        if k < 0 {
            lemma_mul_inequality(k, -1, stride);
        }
    }
    lemma_mul_keeps_divisor(k, stride, 4);
    assert(k * stride == stride * k);
}

/// Something that can describe the layout of the vertex data it holds, for
/// building a pipeline's vertex input description.
pub trait VertexTypedBuffer {
    /// The layout this buffer's elements follow.
    spec fn spec_layout(&self) -> VertexLayout;

    /// The layout descriptor, a pure function of the element type the buffer
    /// was created for; it does not depend on the buffer's contents.
    fn descriptor(&self) -> (r: &VertexLayout)
        ensures
            *r == self.spec_layout(),
    ;
}

/// A vertex buffer: one device buffer holding `len` elements of the carried
/// layout.
pub struct VertexBuffer {
    pub len: u32,
    pub buffer: wgpu::Buffer,
    pub layout: VertexLayout,
}

impl VertexBuffer {
    /// The buffer's byte size is exactly element count times element size.
    pub open spec fn wf(self) -> bool {
        &&& self.layout.wf()
        &&& buffer_len(self.buffer) == self.len * self.layout.array_stride
    }

    /// Allocate a device buffer with the requested usage mask (which must
    /// name at least one use; the device rejects an empty mask),
    /// initialized with exactly `data`, which must be a whole number of
    /// elements of `layout`. Empty input is permitted and produces a
    /// zero-size buffer; some GPU backends reject binding such a buffer,
    /// so callers wanting a nonempty buffer must pass nonempty data.
    pub fn from_vertices(
        device: &wgpu::Device,
        layout: VertexLayout,
        data: &[u8],
        usage: BufferUsage,
        label: Option<&str>,
    ) -> (r: VertexBuffer)
        requires
            layout.wf(),
            (data@.len() as int) % (layout.array_stride as int) == 0,
            (data@.len() as int) / (layout.array_stride as int) <= u32::MAX,
            usage.spec_bits() != 0,
        ensures
            r.wf(),
            r.layout == layout,
            r.len == (data@.len() as int) / (layout.array_stride as int),
            buffer_len(r.buffer) == data@.len(),
            buffer_data(r.buffer) == data@,
            usage_bits(buffer_usage(r.buffer)) == usage.spec_bits(),
    {
        proof {
            lemma_whole_elements_aligned(data@.len() as int, layout.array_stride as int);
        }
        let count: u64 = (data.len() as u64) / layout.array_stride;
        let buffer = create_buffer_init(device, data, usages_from_bits(usage.bits()), label);
        VertexBuffer { len: count as u32, buffer, layout }
    }
}

impl VertexTypedBuffer for VertexBuffer {
    open spec fn spec_layout(&self) -> VertexLayout {
        self.layout
    }

    fn descriptor(&self) -> (r: &VertexLayout) {
        &self.layout
    }
}

/// Little-endian byte image of a sequence of 16-bit indices.
pub open spec fn le_index_bytes(s: Seq<u16>) -> Seq<u8> {
    Seq::new(
        2 * s.len(),
        |i: int|
            if i % 2 == 0 {
                (s[i / 2] % 256) as u8
            } else {
                (s[i / 2] / 256) as u8
            },
    )
}

/// Serialize 16-bit index entries in the little-endian order that index
/// buffers use.
pub fn index_bytes(indexes: &[u16]) -> (r: Vec<u8>)
    ensures
        r@ == le_index_bytes(indexes@),
{
    let mut r: Vec<u8> = Vec::new();
    let mut i: usize = 0;
    while i < indexes.len()
        invariant
            0 <= i <= indexes@.len(),
            r@.len() == 2 * i,
            forall|j: int| 0 <= j < 2 * i ==> r@[j] == le_index_bytes(indexes@)[j],
        decreases indexes@.len() - i,
    {
        let x = indexes[i];
        r.push((x % 256) as u8);
        r.push((x / 256) as u8);
        i = i + 1;
    }
    proof {
        assert(r@ =~= le_index_bytes(indexes@));
    }
    r
}

/// An indexed vertex buffer: a vertex buffer plus a buffer of 16-bit index
/// entries. Index values are not validated against the vertex count; that
/// remains the caller's contract, exactly as documented.
pub struct IndexedVertexBuffer {
    pub num_indices: u32,
    pub vertices: wgpu::Buffer,
    pub indices: wgpu::Buffer,
    pub layout: VertexLayout,
}

impl IndexedVertexBuffer {
    /// The index buffer holds at least `num_indices` 16-bit entries; the
    /// two buffers carry vertex and index usage.
    pub open spec fn wf(self) -> bool {
        &&& self.layout.wf()
        &&& 2 * self.num_indices <= buffer_len(self.indices)
        &&& usage_bits(buffer_usage(self.vertices)) == VERTEX_BIT
        &&& usage_bits(buffer_usage(self.indices)) == INDEX_BIT
    }

    /// Allocate both buffers in one call: the vertex buffer holding exactly
    /// `data` and the index buffer holding the entries of `indexes` in
    /// little-endian order (padded to the 4-byte copy alignment when the
    /// entry count is odd).
    pub fn from_vertices_indexes(
        device: &wgpu::Device,
        layout: VertexLayout,
        data: &[u8],
        indexes: &[u16],
        vertices_label: Option<&str>,
        indexes_label: Option<&str>,
    ) -> (r: IndexedVertexBuffer)
        requires
            layout.wf(),
            (data@.len() as int) % (layout.array_stride as int) == 0,
            (data@.len() as int) / (layout.array_stride as int) <= u32::MAX,
            indexes@.len() <= u32::MAX,
        ensures
            r.wf(),
            r.layout == layout,
            r.num_indices == indexes@.len(),
            buffer_len(r.vertices) == data@.len(),
            buffer_len(r.indices) == spec_init_size(2 * (indexes@.len() as int)),
            buffer_data(r.vertices) == data@,
            buffer_data(r.indices) == le_index_bytes(indexes@),
    {
        let n: usize = data.len();
        proof {
            lemma_whole_elements_aligned(data@.len() as int, layout.array_stride as int);
            assert(n <= usize::MAX);
        }
        let vertices = create_buffer_init(device, data, usage_vertex(), vertices_label);
        let ib = index_bytes(indexes);
        let indices = create_buffer_init(device, ib.as_slice(), usage_index(), indexes_label);
        IndexedVertexBuffer { num_indices: indexes.len() as u32, vertices, indices, layout }
    }
}

impl VertexTypedBuffer for IndexedVertexBuffer {
    open spec fn spec_layout(&self) -> VertexLayout {
        self.layout
    }

    fn descriptor(&self) -> (r: &VertexLayout) {
        &self.layout
    }
}

/// A per-instance attribute buffer with a fixed capacity of elements; single
/// elements can be overwritten later, either directly through the queue or
/// through a staged mapped view. The `contents` field is the model of the
/// buffer's device bytes as the documented write paths leave them: set to
/// the initial data at creation and updated by exactly the slot each
/// overwrite targets.
pub struct InstanceVertexBuffer {
    pub len: u32,
    pub buffer: wgpu::Buffer,
    pub layout: VertexLayout,
    pub contents: Ghost<Seq<u8>>,
}

impl InstanceVertexBuffer {
    /// The buffer's byte size is exactly capacity times element size, its
    /// usage mask is vertex plus copy-destination so its elements can be
    /// rewritten after creation, and the contents model covers exactly the
    /// buffer's bytes.
    pub open spec fn wf(self) -> bool {
        &&& self.layout.wf()
        &&& buffer_len(self.buffer) == self.len * self.layout.array_stride
        &&& usage_bits(buffer_usage(self.buffer)) == VERTEX_BIT + COPY_DST_BIT
        &&& self.contents@.len() == self.len * self.layout.array_stride
    }

    /// The layout descriptor, a pure function of the element type the buffer
    /// was created for.
    pub fn descriptor(&self) -> (r: &VertexLayout)
        ensures
            *r == self.layout,
    {
        &self.layout
    }

    /// Allocate a buffer holding exactly `data` (a whole number of
    /// elements), with copy-destination usage enabled so that instances can
    /// be rewritten later.
    pub fn from_instances(
        device: &wgpu::Device,
        layout: VertexLayout,
        data: &[u8],
        label: Option<&str>,
    ) -> (r: InstanceVertexBuffer)
        requires
            layout.wf(),
            (data@.len() as int) % (layout.array_stride as int) == 0,
            (data@.len() as int) / (layout.array_stride as int) <= u32::MAX,
        ensures
            r.wf(),
            r.layout == layout,
            r.len == (data@.len() as int) / (layout.array_stride as int),
            buffer_len(r.buffer) == data@.len(),
            buffer_data(r.buffer) == data@,
            r.contents@ == data@,
    {
        proof {
            lemma_whole_elements_aligned(data@.len() as int, layout.array_stride as int);
        }
        let count: u64 = (data.len() as u64) / layout.array_stride;
        let buffer = create_buffer_init(device, data, usage_vertex_copy_dst(), label);
        InstanceVertexBuffer { len: count as u32, buffer, layout, contents: Ghost(data@) }
    }

    /// Overwrite the element at `index` with `instance` through an immediate
    /// queue write of exactly one element's bytes at byte offset
    /// `index * stride`: the contents model gets exactly the slot
    /// `[index * stride, (index + 1) * stride)` replaced by `instance`'s
    /// bytes, and every byte outside it is left as it was. An index at or
    /// beyond the capacity is a programming error, excluded for verified
    /// callers; an unverified caller passing one is refused, with nothing
    /// written or changed.
    pub fn copy_instance(
        &mut self,
        queue: &wgpu::Queue,
        instance: &[u8],
        index: u64,
    ) -> (r: Result<(), BufferWriteError>)
        requires
            old(self).wf(),
            instance@.len() == old(self).layout.array_stride,
            index < old(self).len,
        ensures
            final(self).wf(),
            final(self).len == old(self).len,
            final(self).layout == old(self).layout,
            final(self).buffer == old(self).buffer,
            r is Ok <==> index < old(self).len,
            r is Ok ==> final(self).contents@ == old(self).contents@.take(
                index * old(self).layout.array_stride,
            ).add(instance@).add(
                old(self).contents@.skip((index + 1) * old(self).layout.array_stride),
            ),
            r is Err ==> *final(self) == *old(self),
    {
        if index >= self.len as u64 {
            return Err(BufferWriteError::IndexOutOfRange);
        }
        proof {
            let s = self.layout.array_stride as int;
            let i = index as int;
            let l = self.len as int;
            lemma_mul_keeps_divisor(i, s, 4);
            assert(0 <= i * s && i * s + s <= l * s && (i + 1) * s == i * s + s)
                by (nonlinear_arith)
                requires
                    i + 1 <= l,
                    0 <= s,
                    0 <= i,
            ;
        }
        let offset: u64 = index * self.layout.array_stride;
        queue_write_buffer(queue, &self.buffer, offset, instance);
        let ghost stride = self.layout.array_stride as int;
        self.contents = Ghost(
            self.contents@.take(index * stride).add(instance@).add(
                self.contents@.skip(index * stride + stride),
            ),
        );
        Ok(())
    }

    /// Overwrite the element at `index` inside a caller-supplied mapped
    /// staging view covering this buffer's elements from its start. Exactly
    /// one element's bytes are replaced, at byte offset `index * stride`;
    /// every byte outside that element is left as it was. An index at or
    /// beyond the capacity is a programming error, excluded for verified
    /// callers; an unverified caller passing one is refused, with the view
    /// unchanged.
    ///
    /// The view arithmetic uses byte-sized `usize` indices, not the wide
    /// GPU address type: on narrow-address platforms this caps the
    /// addressable staging region, which is why the write's end is
    /// required to fit a `usize` here.
    pub fn copy_instance_into_view(
        &self,
        view: &mut wgpu::BufferViewMut,
        instance: &[u8],
        index: usize,
    ) -> (r: Result<(), BufferWriteError>)
        requires
            self.wf(),
            instance@.len() == self.layout.array_stride,
            index < self.len,
            (index + 1) * self.layout.array_stride <= usize::MAX,
            (index + 1) * self.layout.array_stride <= view_bytes(*old(view)).len(),
        ensures
            r is Ok <==> index < self.len,
            r is Ok ==> view_bytes(*final(view)) == view_bytes(*old(view)).take(
                index * self.layout.array_stride,
            ).add(instance@).add(
                view_bytes(*old(view)).skip((index + 1) * self.layout.array_stride),
            ),
            r is Err ==> view_bytes(*final(view)) == view_bytes(*old(view)),
            view_belt(*final(view)) == view_belt(*old(view)),
            view_dst(*final(view)) == view_dst(*old(view)),
            view_dst_offset(*final(view)) == view_dst_offset(*old(view)),
            view_encoder(*final(view)) == view_encoder(*old(view)),
    {
        if (index as u64) >= self.len as u64 {
            return Err(BufferWriteError::IndexOutOfRange);
        }
        proof {
            let s = self.layout.array_stride as int;
            let i = index as int;
            assert(0 <= i * s && (i + 1) * s == i * s + s) by (nonlinear_arith)
                requires
                    0 <= s,
                    0 <= i,
            ;
        }
        let stride: usize = self.layout.array_stride as usize;
        let offset: usize = index * stride;
        view_write(view, offset, instance);
        Ok(())
    }
}

} // verus!
