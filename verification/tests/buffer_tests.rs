use gpu_staging::buffer::{
    index_bytes, BufferUsage, BufferWriteError, IndexedVertexBuffer, InstanceVertexBuffer,
    VertexBuffer, VertexTypedBuffer,
};
use gpu_staging::layout::{StepMode, VertexFormat, VertexLayout};
use gpu_staging::staging::StagingFactory;

fn noop_device() -> (wgpu::Device, wgpu::Queue) {
    let mut desc = wgpu::InstanceDescriptor::new_without_display_handle();
    desc.backends = wgpu::Backends::NOOP;
    desc.backend_options.noop.enable = true;
    let instance = wgpu::Instance::new(desc);
    let adapter = futures::executor::block_on(
        instance.request_adapter(&wgpu::RequestAdapterOptions::default()),
    )
    .expect("noop adapter");
    futures::executor::block_on(adapter.request_device(&wgpu::DeviceDescriptor::default()))
        .expect("noop device")
}

fn read_buffer(device: &wgpu::Device, queue: &wgpu::Queue, buffer: &wgpu::Buffer, size: u64) -> Vec<u8> {
    let readback = device.create_buffer(&wgpu::BufferDescriptor {
        label: None,
        size,
        usage: wgpu::BufferUsages::MAP_READ | wgpu::BufferUsages::COPY_DST,
        mapped_at_creation: false,
    });
    let mut encoder =
        device.create_command_encoder(&wgpu::CommandEncoderDescriptor { label: None });
    encoder.copy_buffer_to_buffer(buffer, 0, &readback, 0, size);
    queue.submit([encoder.finish()]);
    let (tx, rx) = std::sync::mpsc::channel();
    readback.map_async(wgpu::MapMode::Read, .., move |res| {
        tx.send(res).unwrap();
    });
    device
        .poll(wgpu::PollType::wait_indefinitely())
        .expect("poll");
    rx.recv().expect("map callback").expect("map result");
    let data = readback.get_mapped_range(..).expect("mapped range").to_vec();
    readback.unmap();
    data
}

fn vertex_usage() -> BufferUsage {
    BufferUsage {
        vertex: true,
        index: false,
        uniform: false,
        copy_dst: false,
    }
}

fn vertex_layout() -> VertexLayout {
    // One position (3 floats) and one texture coordinate (2 floats): 20 bytes.
    let formats = vec![VertexFormat::Float32x3, VertexFormat::Float32x2];
    VertexLayout::packed(&formats, 0, StepMode::Vertex)
}

#[test]
fn vertex_buffer_size_is_count_times_stride() {
    let (device, _queue) = noop_device();
    let layout = vertex_layout();
    let data = vec![7u8; 60];
    let vb = VertexBuffer::from_vertices(&device, layout, &data, vertex_usage(), Some("verts"));
    assert_eq!(vb.len, 3);
    assert_eq!(vb.buffer.size(), 60);
    assert_eq!(vb.descriptor().array_stride, 20);
}

#[test]
fn vertex_buffer_empty_input_gives_zero_size_buffer() {
    let (device, _queue) = noop_device();
    let layout = vertex_layout();
    let data: Vec<u8> = Vec::new();
    let vb = VertexBuffer::from_vertices(&device, layout, &data, vertex_usage(), None);
    assert_eq!(vb.len, 0);
    assert_eq!(vb.buffer.size(), 0);
}

#[test]
fn indexed_buffer_sizes_and_padding() {
    let (device, _queue) = noop_device();
    let layout = vertex_layout();
    let data = vec![0u8; 80];
    let idx: Vec<u16> = vec![0, 1, 2, 2, 1, 3];
    let ib = IndexedVertexBuffer::from_vertices_indexes(
        &device,
        layout,
        &data,
        &idx,
        Some("v"),
        Some("i"),
    );
    assert_eq!(ib.num_indices, 6);
    assert_eq!(ib.vertices.size(), 80);
    assert_eq!(ib.indices.size(), 12);

    let layout2 = vertex_layout();
    let odd: Vec<u16> = vec![0, 1, 2];
    let ib2 = IndexedVertexBuffer::from_vertices_indexes(&device, layout2, &data, &odd, None, None);
    assert_eq!(ib2.num_indices, 3);
    // Six index bytes are padded up to the 4-byte copy alignment.
    assert_eq!(ib2.indices.size(), 8);
}

#[test]
fn index_bytes_little_endian() {
    let idx: Vec<u16> = vec![0x0102, 0xa0b0, 7];
    let bytes = index_bytes(&idx);
    assert_eq!(bytes, vec![0x02, 0x01, 0xb0, 0xa0, 7, 0]);
}

fn instance_layout() -> VertexLayout {
    let formats = vec![VertexFormat::Float32x4];
    VertexLayout::packed(&formats, 5, StepMode::Instance)
}

#[test]
fn instance_buffer_size_is_capacity_times_stride() {
    let (device, _queue) = noop_device();
    let layout = instance_layout();
    let data = vec![0u8; 128];
    let ib = InstanceVertexBuffer::from_instances(&device, layout, &data, None);
    assert_eq!(ib.len, 8);
    assert_eq!(ib.buffer.size(), 128);
    assert_eq!(ib.descriptor().array_stride, 16);
}

#[test]
fn overwrite_single_out_of_range_fails() {
    let (device, queue) = noop_device();
    let layout = instance_layout();
    let data = vec![0u8; 128];
    let mut ib = InstanceVertexBuffer::from_instances(&device, layout, &data, None);
    assert_eq!(ib.len, 8);
    let element = vec![9u8; 16];
    let r = ib.copy_instance(&queue, &element, 8);
    assert_eq!(r, Err(BufferWriteError::IndexOutOfRange));
    let r2 = ib.copy_instance(&queue, &element, 7);
    assert!(r2.is_ok());
}

#[test]
fn overwrite_single_into_view_readback() {
    let (device, queue) = noop_device();
    let layout = instance_layout();
    let data = vec![0u8; 64];
    let ib = InstanceVertexBuffer::from_instances(&device, layout, &data, None);
    assert_eq!(ib.len, 4);

    // A separate target that can be copied out again for the readback.
    let target = device.create_buffer(&wgpu::BufferDescriptor {
        label: None,
        size: 64,
        usage: wgpu::BufferUsages::COPY_DST | wgpu::BufferUsages::COPY_SRC,
        mapped_at_creation: false,
    });

    let mut factory = StagingFactory::new(&device);
    factory.create_stager(String::from("instances"), 256).unwrap();
    let mut stager = factory.fetch_stager("instances").unwrap();
    let mut encoder =
        device.create_command_encoder(&wgpu::CommandEncoderDescriptor { label: None });

    let mut view = stager
        .create_staging_area(&mut encoder, &target, 0, 64)
        .unwrap();
    assert_eq!(view.len(), 64);
    let element: Vec<u8> = (200u8..216).collect();
    ib.copy_instance_into_view(&mut view, &element, 2).unwrap();
    let out_of_range = ib.copy_instance_into_view(&mut view, &element, 4);
    assert_eq!(out_of_range, Err(BufferWriteError::IndexOutOfRange));
    stager.release_area(&mut encoder, view);

    factory.return_stager(stager).unwrap();
    factory.submit_all().unwrap();
    queue.submit([encoder.finish()]);
    factory.recall_all().unwrap();

    let out = read_buffer(&device, &queue, &target, 64);
    let mut expected = vec![0u8; 64];
    expected[32..48].copy_from_slice(&element);
    assert_eq!(out, expected);
}

#[test]
fn index_bytes_boundary_values() {
    let idx: Vec<u16> = vec![0xffff, 0, 0x00ff, 0xff00];
    let bytes = index_bytes(&idx);
    assert_eq!(bytes, vec![0xff, 0xff, 0, 0, 0xff, 0, 0, 0xff]);
}

#[test]
fn requested_usage_mask_is_applied() {
    let (device, _queue) = noop_device();
    let layout = vertex_layout();
    let data = vec![0u8; 40];
    let usage = BufferUsage {
        vertex: true,
        index: false,
        uniform: false,
        copy_dst: true,
    };
    let vb = VertexBuffer::from_vertices(&device, layout, &data, usage, None);
    assert_eq!(
        vb.buffer.usage(),
        wgpu::BufferUsages::VERTEX | wgpu::BufferUsages::COPY_DST
    );

    let layout2 = vertex_layout();
    let vb2 = VertexBuffer::from_vertices(&device, layout2, &data, vertex_usage(), None);
    assert_eq!(vb2.buffer.usage(), wgpu::BufferUsages::VERTEX);
}
