//! The boundary to the graphics device abstraction. Every item here is
//! trusted: a declaration of an opaque device type, or a thin wrapper around
//! one call into the device library, with a contract stating what that
//! library's source and documentation promise. All logic that can be checked
//! lives outside this module and is verified against these contracts.

use vstd::prelude::*;
use wgpu::util::DeviceExt;

verus! {

#[verifier::external_type_specification]
#[verifier::external_body]
pub struct ExDevice(wgpu::Device);

#[verifier::external_type_specification]
#[verifier::external_body]
pub struct ExQueue(wgpu::Queue);

#[verifier::external_type_specification]
#[verifier::external_body]
pub struct ExBuffer(wgpu::Buffer);

#[verifier::external_type_specification]
#[verifier::external_body]
pub struct ExCommandEncoder(wgpu::CommandEncoder);

#[verifier::external_type_specification]
#[verifier::external_body]
pub struct ExBufferUsages(wgpu::BufferUsages);

#[verifier::external_type_specification]
#[verifier::external_body]
pub struct ExBufferViewMut(wgpu::BufferViewMut);

#[verifier::external_type_specification]
#[verifier::external_body]
pub struct ExStagingBelt(wgpu::util::StagingBelt);

/// The byte size a device buffer was created with. `wgpu::Buffer::size` is
/// documented to always return exactly this value.
pub uninterp spec fn buffer_len(b: wgpu::Buffer) -> u64;

/// The usage mask a device buffer was created with. `wgpu::Buffer::usage` is
/// documented to always return exactly this value.
pub uninterp spec fn buffer_usage(b: wgpu::Buffer) -> wgpu::BufferUsages;

/// The bits of a usage mask, as `wgpu::BufferUsages` defines them.
pub uninterp spec fn usage_bits(u: wgpu::BufferUsages) -> u32;

/// Bit of `wgpu::BufferUsages::COPY_DST`.
pub const COPY_DST_BIT: u32 = 8;

/// Bit of `wgpu::BufferUsages::INDEX`.
pub const INDEX_BIT: u32 = 16;

/// Bit of `wgpu::BufferUsages::VERTEX`.
pub const VERTEX_BIT: u32 = 32;

/// Bit of `wgpu::BufferUsages::UNIFORM`.
pub const UNIFORM_BIT: u32 = 64;

/// The contents a device buffer was initialized with at creation. wgpu's
/// `create_buffer_init` copies the given bytes into the new buffer before
/// returning it; any padding tail beyond them is zero.
pub uninterp spec fn buffer_data(b: wgpu::Buffer) -> Seq<u8>;

/// The bytes a CPU-writable mapped view holds for upload. A view is a fixed
/// byte region; writes through the view replace parts of this sequence.
pub uninterp spec fn view_bytes(v: wgpu::BufferViewMut) -> Seq<u8>;

/// The identity of the staging belt a mapped view was allocated from. Only
/// a view carrying a belt's identity can release that belt's view count.
pub uninterp spec fn view_belt(v: wgpu::BufferViewMut) -> int;

/// The destination buffer of the staged copy this view fills.
pub uninterp spec fn view_dst(v: wgpu::BufferViewMut) -> wgpu::Buffer;

/// The destination byte offset of the staged copy this view fills.
pub uninterp spec fn view_dst_offset(v: wgpu::BufferViewMut) -> u64;

/// The identity of the command encoder the view's copy was recorded into,
/// fixed for the encoder's whole lifetime.
pub uninterp spec fn view_encoder(v: wgpu::BufferViewMut) -> int;

/// A command encoder's identity, fixed for its whole lifetime.
pub uninterp spec fn encoder_id(e: wgpu::CommandEncoder) -> int;

/// A staging belt's identity, fixed for its whole lifetime.
pub uninterp spec fn belt_id(b: wgpu::util::StagingBelt) -> int;

/// How many CPU-writable views a belt has handed out that have not been
/// given back. The belt's buffers cannot be unmapped while any is alive.
pub uninterp spec fn belt_views(b: wgpu::util::StagingBelt) -> nat;

/// How many staging slices the belt has allocated in its currently open
/// write batch (since the last `finish`).
pub uninterp spec fn belt_staged(b: wgpu::util::StagingBelt) -> nat;

/// How many closed staging chunks the belt holds that have not been
/// reclaimed yet (`finish` closes chunks; `recall` reclaims them all).
pub uninterp spec fn belt_closed(b: wgpu::util::StagingBelt) -> nat;

/// One staged buffer copy carried by a command encoder: its destination
/// buffer, destination byte offset, and the bytes its staging slice held
/// when the slice's view was given back — the bytes the copy moves when
/// the encoder's commands are submitted, since a finalized slice cannot be
/// written again before its belt is recalled.
pub struct RecordedCopy {
    pub dst: wgpu::Buffer,
    pub dst_offset: u64,
    pub bytes: Seq<u8>,
}

/// The staged copies a command encoder carries whose bytes are already
/// fixed, in the order their staging slices were given back. A copy whose
/// view is still out is not yet carried: its bytes are still being
/// written.
pub uninterp spec fn encoder_copies(e: wgpu::CommandEncoder) -> Seq<RecordedCopy>;

/// The byte size `create_buffer_init` gives a buffer holding `n` content
/// bytes: zero stays zero, anything else is rounded up to the 4-byte copy
/// alignment.
pub open spec fn spec_init_size(n: int) -> int {
    if n == 0 {
        0
    } else if n % 4 == 0 {
        n
    } else {
        n + 4 - n % 4
    }
}

/// Relies on wgpu's `DeviceExt::create_buffer_init`: it creates a buffer
/// initialized with `contents` whose size is the contents' length rounded up
/// to `COPY_BUFFER_ALIGNMENT` (4), or zero for empty contents. wgpu rejects
/// an empty usage mask on every device, so the mask must have some bit set.
#[verifier::external_body]
pub(crate) fn create_buffer_init(
    device: &wgpu::Device,
    contents: &[u8],
    usage: wgpu::BufferUsages,
    label: Option<&str>,
) -> (r: wgpu::Buffer)
    requires
        spec_init_size(contents@.len() as int) <= u64::MAX,
        usage_bits(usage) != 0,
    ensures
        buffer_len(r) == spec_init_size(contents@.len() as int),
        buffer_usage(r) == usage,
        buffer_data(r) == contents@,
{
    device.create_buffer_init(
        &wgpu::util::BufferInitDescriptor { label, contents, usage },
    )
}

/// Relies on `wgpu::BufferUsages::VERTEX` (bit 5): usage mask of a vertex
/// buffer.
#[verifier::external_body]
pub(crate) fn usage_vertex() -> (r: wgpu::BufferUsages)
    ensures
        usage_bits(r) == VERTEX_BIT,
{
    wgpu::BufferUsages::VERTEX
}

/// Relies on `wgpu::BufferUsages::INDEX` (bit 4): usage mask of an index
/// buffer.
#[verifier::external_body]
pub(crate) fn usage_index() -> (r: wgpu::BufferUsages)
    ensures
        usage_bits(r) == INDEX_BIT,
{
    wgpu::BufferUsages::INDEX
}

/// Relies on `wgpu::BufferUsages`: vertex buffer (bit 5) that is also a copy
/// destination (bit 3), so staged writes can overwrite it later.
#[verifier::external_body]
pub(crate) fn usage_vertex_copy_dst() -> (r: wgpu::BufferUsages)
    ensures
        usage_bits(r) == VERTEX_BIT + COPY_DST_BIT,
{
    wgpu::BufferUsages::VERTEX | wgpu::BufferUsages::COPY_DST
}

/// Relies on `wgpu::BufferUsages`: uniform buffer (bit 6) that is also a
/// copy destination (bit 3), so later partial updates are possible.
#[verifier::external_body]
pub(crate) fn usage_uniform_copy_dst() -> (r: wgpu::BufferUsages)
    ensures
        usage_bits(r) == UNIFORM_BIT + COPY_DST_BIT,
{
    wgpu::BufferUsages::UNIFORM | wgpu::BufferUsages::COPY_DST
}

/// Relies on `wgpu::BufferUsages::from_bits_truncate`: builds the mask with
/// exactly the given bits. The precondition admits exactly the sums of the
/// copy-destination (8), index (16), vertex (32) and uniform (64) bits, all
/// of which are defined flags, so none is truncated away. Combining the
/// index bit with other uses needs a device capability that downlevel
/// GL-class devices lack; such device-capability failures are the
/// surrounding application's fatal-environment class, outside this
/// subsystem.
#[verifier::external_body]
pub(crate) fn usages_from_bits(bits: u32) -> (r: wgpu::BufferUsages)
    requires
        bits % 8 == 0,
        bits <= 120,
    ensures
        usage_bits(r) == bits,
{
    wgpu::BufferUsages::from_bits_truncate(bits)
}

/// Relies on `wgpu::Queue::write_buffer`: copies `data` into `buffer` at
/// `offset` on the next queue submission. wgpu requires the write to be
/// fully in bounds, 4-byte aligned in offset and size, and aimed at a
/// buffer whose usage mask has the copy-destination bit set.
#[verifier::external_body]
pub(crate) fn queue_write_buffer(
    queue: &wgpu::Queue,
    buffer: &wgpu::Buffer,
    offset: u64,
    data: &[u8],
)
    requires
        offset % 4 == 0,
        data@.len() % 4 == 0,
        offset + data@.len() <= buffer_len(*buffer),
        (usage_bits(buffer_usage(*buffer)) / COPY_DST_BIT) % 2 == 1,
{
    queue.write_buffer(buffer, offset, data)
}

/// Relies on `wgpu::util::StagingBelt::new`: a fresh belt allocating staging
/// memory in chunks of `chunk_size` bytes. It starts with no views out, an
/// empty open batch, and no closed chunks awaiting reclaim.
#[verifier::external_body]
pub(crate) fn belt_new(device: &wgpu::Device, chunk_size: u64) -> (r: wgpu::util::StagingBelt)
    ensures
        belt_views(r) == 0,
        belt_staged(r) == 0,
        belt_closed(r) == 0,
{
    wgpu::util::StagingBelt::new(device.clone(), chunk_size)
}

/// Relies on `wgpu::util::StagingBelt::write_buffer`: allocates one staging
/// slice of exactly `size` bytes in the belt's open batch, records a copy of
/// that slice into `target` at `offset` into `encoder`, and returns the
/// CPU-writable view of the slice. wgpu panics unless `offset` and `size`
/// are multiples of 4 and `size` is nonzero; the copy must be in bounds of
/// `target`. The returned view must be given back (dropped) before the
/// belt's batch is finished.
#[verifier::external_body]
pub(crate) fn belt_write_buffer(
    belt: &mut wgpu::util::StagingBelt,
    encoder: &mut wgpu::CommandEncoder,
    target: &wgpu::Buffer,
    offset: u64,
    size: u64,
) -> (r: wgpu::BufferViewMut)
    requires
        0 < size,
        size % 4 == 0,
        offset % 4 == 0,
        offset + size <= buffer_len(*target),
    ensures
        view_bytes(r).len() == size,
        view_belt(r) == belt_id(*old(belt)),
        view_dst(r) == *target,
        view_dst_offset(r) == offset,
        view_encoder(r) == encoder_id(*old(encoder)),
        belt_id(*final(belt)) == belt_id(*old(belt)),
        belt_views(*final(belt)) == belt_views(*old(belt)) + 1,
        belt_staged(*final(belt)) == belt_staged(*old(belt)) + 1,
        belt_closed(*final(belt)) == belt_closed(*old(belt)),
        encoder_id(*final(encoder)) == encoder_id(*old(encoder)),
        encoder_copies(*final(encoder)) == encoder_copies(*old(encoder)),
{
    belt.write_buffer(encoder, target, offset, core::num::NonZeroU64::new(size).unwrap())
}

/// Relies on `wgpu::BufferViewMut::slice` and `WriteOnly::copy_from_slice`:
/// writes `data` into the view at byte offset `offset`, leaving every other
/// byte of the view as it was.
#[verifier::external_body]
pub(crate) fn view_write(view: &mut wgpu::BufferViewMut, offset: usize, data: &[u8])
    requires
        offset + data@.len() <= view_bytes(*old(view)).len(),
    ensures
        view_bytes(*final(view)) == view_bytes(*old(view)).take(offset as int).add(data@).add(
            view_bytes(*old(view)).skip(offset + data@.len()),
        ),
        view_belt(*final(view)) == view_belt(*old(view)),
        view_dst(*final(view)) == view_dst(*old(view)),
        view_dst_offset(*final(view)) == view_dst_offset(*old(view)),
        view_encoder(*final(view)) == view_encoder(*old(view)),
{
    view.slice(offset..offset + data.len()).copy_from_slice(data)
}

/// Relies on wgpu's `Drop` for `BufferViewMut`: dropping the view releases
/// its claim on the belt's mapped chunk, so the chunk can be unmapped
/// again, and fixes the staging slice's bytes — nothing can write the
/// slice afterwards, so the copy recorded for it now carries exactly the
/// view's bytes. The view must have come from this belt, and the copy was
/// recorded into this encoder.
#[verifier::external_body]
pub(crate) fn belt_drop_view(
    belt: &mut wgpu::util::StagingBelt,
    encoder: &mut wgpu::CommandEncoder,
    view: wgpu::BufferViewMut,
)
    requires
        view_belt(view) == belt_id(*old(belt)),
        view_encoder(view) == encoder_id(*old(encoder)),
        belt_views(*old(belt)) >= 1,
    ensures
        belt_id(*final(belt)) == belt_id(*old(belt)),
        belt_views(*final(belt)) == belt_views(*old(belt)) - 1,
        belt_staged(*final(belt)) == belt_staged(*old(belt)),
        belt_closed(*final(belt)) == belt_closed(*old(belt)),
        encoder_id(*final(encoder)) == encoder_id(*old(encoder)),
        encoder_copies(*final(encoder)) == encoder_copies(*old(encoder)).push(
            RecordedCopy {
                dst: view_dst(view),
                dst_offset: view_dst_offset(view),
                bytes: view_bytes(view),
            },
        ),
{
    let _ = view;
    let _ = belt;
    let _ = encoder;
}

/// Relies on `wgpu::util::StagingBelt::finish`: closes the belt's current
/// write batch, emptying it, so its recorded copies become part of the next
/// submission. `Buffer::unmap`, which `finish` performs on each open chunk,
/// panics while a view of the chunk is alive, so no view of this belt may
/// still be out.
#[verifier::external_body]
pub(crate) fn belt_finish(belt: &mut wgpu::util::StagingBelt)
    requires
        belt_views(*old(belt)) == 0,
    ensures
        belt_id(*final(belt)) == belt_id(*old(belt)),
        belt_views(*final(belt)) == 0,
        belt_staged(*final(belt)) == 0,
{
    belt.finish()
}

/// Relies on `wgpu::util::StagingBelt::recall`: schedules every closed
/// chunk of the belt to be reclaimed once the GPU is done with it, leaving
/// none awaiting reclaim; never blocks, and additional calls are documented
/// to be harmless. The open batch is untouched.
#[verifier::external_body]
pub(crate) fn belt_recall(belt: &mut wgpu::util::StagingBelt)
    ensures
        belt_id(*final(belt)) == belt_id(*old(belt)),
        belt_views(*final(belt)) == belt_views(*old(belt)),
        belt_staged(*final(belt)) == belt_staged(*old(belt)),
        belt_closed(*final(belt)) == 0,
{
    belt.recall()
}

/// Relies on `wgpu::Device::poll` with `PollType::Poll`: checks once for
/// completed GPU work and delivers pending mapping callbacks without
/// blocking.
#[verifier::external_body]
pub(crate) fn device_poll(device: &wgpu::Device) {
    let _ = device.poll(wgpu::PollType::Poll);
}

/// Relies on `wgpu::Device::clone`: device handles are reference-counted
/// handles to one device.
#[verifier::external_body]
pub(crate) fn device_clone(device: &wgpu::Device) -> wgpu::Device {
    device.clone()
}

/// Relies on `str`'s `PartialEq`: string slices compare equal exactly when
/// their characters do.
#[verifier::external_body]
pub(crate) fn str_eq(a: &str, b: &str) -> (r: bool)
    ensures
        r == (a@ == b@),
{
    a == b
}

} // verus!
