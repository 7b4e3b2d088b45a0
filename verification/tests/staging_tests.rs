use gpu_staging::staging::{StagingError, StagingFactory};

fn noop_device() -> (wgpu::Device, wgpu::Queue) {
    let mut desc = wgpu::InstanceDescriptor::new_without_display_handle();
    desc.backends = wgpu::Backends::NOOP;
    desc.backend_options.noop.enable = true;
    let instance = wgpu::Instance::new(desc);
    let adapter = futures::executor::block_on(
        instance.request_adapter(&wgpu::RequestAdapterOptions::default()),
    )
    .expect("noop adapter");
    futures::executor::block_on(adapter.request_device(&wgpu::DeviceDescriptor::default()))
        .expect("noop device")
}

fn read_buffer(device: &wgpu::Device, queue: &wgpu::Queue, buffer: &wgpu::Buffer, size: u64) -> Vec<u8> {
    let readback = device.create_buffer(&wgpu::BufferDescriptor {
        label: None,
        size,
        usage: wgpu::BufferUsages::MAP_READ | wgpu::BufferUsages::COPY_DST,
        mapped_at_creation: false,
    });
    let mut encoder =
        device.create_command_encoder(&wgpu::CommandEncoderDescriptor { label: None });
    encoder.copy_buffer_to_buffer(buffer, 0, &readback, 0, size);
    queue.submit([encoder.finish()]);
    let (tx, rx) = std::sync::mpsc::channel();
    readback.map_async(wgpu::MapMode::Read, .., move |res| {
        tx.send(res).unwrap();
    });
    device
        .poll(wgpu::PollType::wait_indefinitely())
        .expect("poll");
    rx.recv().expect("map callback").expect("map result");
    let data = readback.get_mapped_range(..).expect("mapped range").to_vec();
    readback.unmap();
    data
}

fn copyable_target(device: &wgpu::Device, size: u64) -> wgpu::Buffer {
    device.create_buffer(&wgpu::BufferDescriptor {
        label: None,
        size,
        usage: wgpu::BufferUsages::COPY_DST | wgpu::BufferUsages::COPY_SRC,
        mapped_at_creation: false,
    })
}

#[test]
fn register_same_name_twice_fails() {
    let (device, _queue) = noop_device();
    let mut factory = StagingFactory::new(&device);
    assert!(factory.create_stager(String::from("belt"), 64).is_ok());
    let again = factory.create_stager(String::from("belt"), 128);
    assert_eq!(again, Err(StagingError::DuplicateBelt));
    // The registry is unchanged: the belt registered first is still usable.
    let stager = factory.fetch_stager("belt").unwrap();
    factory.return_stager(stager).unwrap();
}

#[test]
fn fetch_unregistered_name_fails() {
    let (device, _queue) = noop_device();
    let mut factory = StagingFactory::new(&device);
    factory.create_stager(String::from("belt"), 64).unwrap();
    let missing = factory.fetch_stager("other");
    assert!(matches!(missing, Err(StagingError::UnknownBelt)));
}

#[test]
fn fetch_leased_belt_fails_without_blocking() {
    let (device, _queue) = noop_device();
    let mut factory = StagingFactory::new(&device);
    factory.create_stager(String::from("belt"), 64).unwrap();
    let stager = factory.fetch_stager("belt").unwrap();
    assert_eq!(stager.name(), "belt");
    let second = factory.fetch_stager("belt");
    assert!(matches!(second, Err(StagingError::BeltAlreadyLeased)));
    factory.return_stager(stager).unwrap();
    // Released, the belt can be fetched again.
    let third = factory.fetch_stager("belt").unwrap();
    factory.return_stager(third).unwrap();
}

#[test]
fn return_to_wrong_factory_fails() {
    let (device, _queue) = noop_device();
    let mut factory1 = StagingFactory::new(&device);
    let mut factory2 = StagingFactory::new(&device);
    factory1.create_stager(String::from("a"), 64).unwrap();
    factory2.create_stager(String::from("a"), 64).unwrap();
    let stager = factory1.fetch_stager("a").unwrap();
    // Factory 2 knows the name but its belt is not out on lease.
    let r = factory2.return_stager(stager);
    assert_eq!(r, Err(StagingError::BeltNotLeased));

    let stager1 = factory1.fetch_stager("a");
    // Factory 1's belt is still leased (the stager went to the wrong
    // factory and was consumed there).
    assert!(matches!(stager1, Err(StagingError::BeltAlreadyLeased)));

    let mut other = StagingFactory::new(&device);
    let orphan = factory2.fetch_stager("a").unwrap();
    let r2 = other.return_stager(orphan);
    assert_eq!(r2, Err(StagingError::UnknownBelt));
}

#[test]
fn submit_and_recall_with_idle_belts_succeed() {
    let (device, queue) = noop_device();
    let mut factory = StagingFactory::new(&device);
    factory.create_stager(String::from("one"), 64).unwrap();
    factory.create_stager(String::from("two"), 128).unwrap();
    // No belt staged anything this frame; submit and recall must both
    // succeed and leave the belts usable.
    factory.submit_all().unwrap();
    queue.submit([]);
    factory.recall_all().unwrap();
    let s = factory.fetch_stager("one").unwrap();
    factory.return_stager(s).unwrap();
    let s = factory.fetch_stager("two").unwrap();
    factory.return_stager(s).unwrap();
}

#[test]
fn submit_with_outstanding_lease_fails() {
    let (device, _queue) = noop_device();
    let mut factory = StagingFactory::new(&device);
    factory.create_stager(String::from("belt"), 64).unwrap();
    let stager = factory.fetch_stager("belt").unwrap();
    assert_eq!(factory.submit_all(), Err(StagingError::BeltStillLeased));
    assert_eq!(factory.recall_all(), Err(StagingError::BeltStillLeased));
    factory.return_stager(stager).unwrap();
    factory.submit_all().unwrap();
    factory.recall_all().unwrap();
}

#[test]
fn zero_size_writes_are_refused() {
    let (device, _queue) = noop_device();
    let target = copyable_target(&device, 64);
    let mut factory = StagingFactory::new(&device);
    factory.create_stager(String::from("belt"), 64).unwrap();
    let mut stager = factory.fetch_stager("belt").unwrap();
    let mut encoder =
        device.create_command_encoder(&wgpu::CommandEncoderDescriptor { label: None });
    let empty: Vec<u8> = Vec::new();
    let w = stager.write_buffer(&mut encoder, &target, 0, &empty);
    assert_eq!(w, Err(StagingError::ZeroSizeWrite));
    let area = stager.create_staging_area(&mut encoder, &target, 0, 0);
    assert!(matches!(area, Err(StagingError::ZeroSizeWrite)));
    factory.return_stager(stager).unwrap();
}

#[test]
fn frame_scenario_write_submit_recall_fetch_again() {
    let (device, queue) = noop_device();
    let mut factory = StagingFactory::new(&device);
    factory.create_stager(String::from("b"), 64).unwrap();

    let target = copyable_target(&device, 64);
    let mut stager = factory.fetch_stager("b").unwrap();
    let mut encoder =
        device.create_command_encoder(&wgpu::CommandEncoderDescriptor { label: None });
    stager
        .write_buffer(&mut encoder, &target, 0, &[1, 2, 3, 4])
        .unwrap();
    factory.return_stager(stager).unwrap();

    factory.submit_all().unwrap();
    queue.submit([encoder.finish()]);
    factory.recall_all().unwrap();

    // The staged bytes arrived in the target.
    let out = read_buffer(&device, &queue, &target, 64);
    let mut expected = vec![0u8; 64];
    expected[..4].copy_from_slice(&[1, 2, 3, 4]);
    assert_eq!(out, expected);

    // Next frame, the same belt can be fetched again.
    let next = factory.fetch_stager("b").unwrap();
    factory.return_stager(next).unwrap();
}

#[test]
fn staged_write_at_offset_lands_at_offset() {
    let (device, queue) = noop_device();
    let mut factory = StagingFactory::new(&device);
    factory.create_stager(String::from("b"), 32).unwrap();

    let target = copyable_target(&device, 32);
    let mut stager = factory.fetch_stager("b").unwrap();
    let mut encoder =
        device.create_command_encoder(&wgpu::CommandEncoderDescriptor { label: None });
    stager
        .write_buffer(&mut encoder, &target, 8, &[9, 9, 9, 9, 7, 7, 7, 7])
        .unwrap();
    factory.return_stager(stager).unwrap();
    factory.submit_all().unwrap();
    queue.submit([encoder.finish()]);
    factory.recall_all().unwrap();

    let out = read_buffer(&device, &queue, &target, 32);
    let mut expected = vec![0u8; 32];
    expected[8..16].copy_from_slice(&[9, 9, 9, 9, 7, 7, 7, 7]);
    assert_eq!(out, expected);
}

#[test]
fn two_different_belts_can_be_leased_at_once() {
    let (device, queue) = noop_device();
    let mut factory = StagingFactory::new(&device);
    factory.create_stager(String::from("camera"), 64).unwrap();
    factory.create_stager(String::from("instances"), 512).unwrap();

    let target_a = copyable_target(&device, 64);
    let target_b = copyable_target(&device, 64);
    let mut encoder =
        device.create_command_encoder(&wgpu::CommandEncoderDescriptor { label: None });

    // Both belts are out on lease at the same time, each writing to its own
    // target, exactly as one frame of scene code does.
    let mut stager_a = factory.fetch_stager("camera").unwrap();
    let mut stager_b = factory.fetch_stager("instances").unwrap();
    stager_a
        .write_buffer(&mut encoder, &target_a, 0, &[10, 11, 12, 13])
        .unwrap();
    stager_b
        .write_buffer(&mut encoder, &target_b, 4, &[20, 21, 22, 23])
        .unwrap();
    factory.return_stager(stager_a).unwrap();
    factory.return_stager(stager_b).unwrap();

    factory.submit_all().unwrap();
    queue.submit([encoder.finish()]);
    factory.recall_all().unwrap();

    let out_a = read_buffer(&device, &queue, &target_a, 64);
    assert_eq!(&out_a[..4], &[10, 11, 12, 13]);
    let out_b = read_buffer(&device, &queue, &target_b, 64);
    assert_eq!(&out_b[..8], &[0, 0, 0, 0, 20, 21, 22, 23]);
}
