//! The uniform-conversion contract: a domain value declares that it can be
//! encoded as a fixed-layout payload, and a uniform-usage device buffer is
//! allocated pre-initialized with that payload's bytes. The layout must be
//! fixed and unambiguous, with no implicit padding, because the consuming
//! shader reads the bytes positionally with no type information.

use vstd::prelude::*;

use crate::gpu::{
    buffer_data, buffer_len, buffer_usage, create_buffer_init, spec_init_size, usage_bits,
    usage_uniform_copy_dst, COPY_DST_BIT, UNIFORM_BIT,
};

verus! {

/// Allocate a uniform-usage device buffer pre-initialized with `payload`,
/// with copy-destination usage enabled so that later partial updates are
/// possible. The buffer's byte size is the payload's length, rounded up to
/// the 4-byte copy alignment when that length is odd.
pub fn uniform_to_buffer(device: &wgpu::Device, payload: &[u8], label: Option<&str>) -> (r:
    wgpu::Buffer)
    requires
        spec_init_size(payload@.len() as int) <= u64::MAX,
    ensures
        buffer_len(r) == spec_init_size(payload@.len() as int),
        buffer_data(r) == payload@,
        usage_bits(buffer_usage(r)) == UNIFORM_BIT + COPY_DST_BIT,
{
    create_buffer_init(device, payload, usage_uniform_copy_dst(), label)
}

/// A value that is itself a fixed-layout uniform payload: its raw bytes are
/// what the shader reads.
pub trait OldUniform {
    /// The payload's bytes, exactly as the consuming shader will read them.
    spec fn payload(&self) -> Seq<u8>;

    /// Produce the payload's bytes.
    fn payload_bytes(&self) -> (r: Vec<u8>)
        ensures
            r@ == self.payload(),
    ;

    /// Allocate a uniform-usage, copy-destination buffer initialized with
    /// this value's payload.
    fn into_buffer(&self, device: &wgpu::Device, label: Option<&str>) -> (r: wgpu::Buffer)
        requires
            spec_init_size(self.payload().len() as int) <= u64::MAX,
        ensures
            buffer_len(r) == spec_init_size(self.payload().len() as int),
            buffer_data(r) == self.payload(),
            usage_bits(buffer_usage(r)) == UNIFORM_BIT + COPY_DST_BIT,
    {
        let b = self.payload_bytes();
        uniform_to_buffer(device, b.as_slice(), label)
    }
}

/// A domain value that converts into a fixed-layout uniform payload before
/// upload.
pub trait Uniformable {
    /// The payload type this value converts into.
    type Uniform: OldUniform;

    /// The bytes this value's uniform conversion yields.
    spec fn uniform_payload(&self) -> Seq<u8>;

    /// Convert this value into its uniform payload. The conversion is pure:
    /// it reads the value and produces the payload, nothing else.
    fn into_uniform(&self) -> (r: Self::Uniform)
        ensures
            r.payload() == self.uniform_payload(),
    ;

    /// Allocate a uniform-usage, copy-destination buffer initialized with
    /// this value's converted payload.
    fn into_buffer(&self, device: &wgpu::Device, label: Option<&str>) -> (r: wgpu::Buffer)
        requires
            spec_init_size(self.uniform_payload().len() as int) <= u64::MAX,
        ensures
            buffer_len(r) == spec_init_size(self.uniform_payload().len() as int),
            buffer_data(r) == self.uniform_payload(),
            usage_bits(buffer_usage(r)) == UNIFORM_BIT + COPY_DST_BIT,
    {
        let u = self.into_uniform();
        let b = u.payload_bytes();
        uniform_to_buffer(device, b.as_slice(), label)
    }
}

/// A uniform payload given directly as raw bytes, for callers that have
/// already assembled a fixed layout themselves.
pub struct RawUniform {
    pub bytes: Vec<u8>,
}

impl RawUniform {
    /// A byte-for-byte copy of the payload.
    fn copied_bytes(&self) -> (r: Vec<u8>)
        ensures
            r@ == self.bytes@,
    {
        let mut r: Vec<u8> = Vec::new();
        let mut i: usize = 0;
        while i < self.bytes.len()
            invariant
                0 <= i <= self.bytes@.len(),
                r@ == self.bytes@.take(i as int),
            decreases self.bytes@.len() - i,
        {
            r.push(self.bytes[i]);
            proof {
                assert(r@ =~= self.bytes@.take(i + 1));
            }
            i = i + 1;
        }
        proof {
            assert(r@ =~= self.bytes@);
        }
        r
    }
}

impl OldUniform for RawUniform {
    open spec fn payload(&self) -> Seq<u8> {
        self.bytes@
    }

    fn payload_bytes(&self) -> (r: Vec<u8>) {
        self.copied_bytes()
    }
}

impl Uniformable for RawUniform {
    type Uniform = RawUniform;

    open spec fn uniform_payload(&self) -> Seq<u8> {
        self.bytes@
    }

    fn into_uniform(&self) -> (r: RawUniform) {
        RawUniform { bytes: self.copied_bytes() }
    }
}

} // verus!
