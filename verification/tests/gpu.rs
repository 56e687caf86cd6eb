use xiangqi_rim::gpu::{Adapter, Backend, Batch, Buffer, Device, Dispatchable, Gym, Kernel, Platform, Sample, Sampleable, Status};

fn host() -> Device {
    Device::new(Backend::Cpu, None, false)
}

#[test]
fn test_batch_push_pull_and_operations() {
    let mut device = host();
    let mut batch = Batch::allocate(&mut device, 10).unwrap();
    assert!(batch.empty());
    assert!(!batch.full());
    assert_eq!(batch.capacity(), 10);
    assert_eq!(batch.count(), 0);
    let mut sample = Sample::new();
    sample.store(150);
    assert!(batch.push(&sample).is_ok());
    assert_eq!(batch.count(), 1);
    assert!(!batch.empty());
    let read = batch.pull(0).unwrap();
    assert_eq!(read.score(), 150);
    batch.clear();
    assert!(batch.empty());
    assert_eq!(batch.count(), 0);
}

#[test]
fn test_batch_write_back_operations() {
    let mut device = host();
    let mut batch = Batch::allocate(&mut device, 10).unwrap();
    let mut sample = Sample::new();
    sample.store(100);
    batch.push(&sample).unwrap();
    assert_eq!(batch.pull(0).unwrap().score(), 100);
    let mut updated = batch.pull(0).unwrap();
    updated.store(500);
    assert!(batch.write(0, &updated).is_ok());
    let read = batch.pull(0).unwrap();
    assert_eq!(read.score(), 500);
}

#[test]
fn test_allocate_capacity_power_of_two() {
    let buffer = Buffer::allocate(1, false, false).unwrap();
    assert_eq!(buffer.capacity(), 64);
    let buffer = Buffer::allocate(63, false, false).unwrap();
    assert_eq!(buffer.capacity(), 64);
    let buffer = Buffer::allocate(64, false, false).unwrap();
    assert_eq!(buffer.capacity(), 64);
    let buffer = Buffer::allocate(65, false, false).unwrap();
    assert_eq!(buffer.capacity(), 128);
    let buffer = Buffer::allocate(100, false, false).unwrap();
    assert_eq!(buffer.capacity(), 128);
    assert!(matches!(Buffer::allocate(0, false, false), Err(Status::Fault)));
    assert!(matches!(Buffer::allocate(usize::MAX, false, false), Err(Status::Fault)));
}

#[test]
fn test_pull_payload_reading_before_cas() {
    let mut buffer = Buffer::allocate(128, false, false).unwrap();
    let payload = [42u8; 32];
    assert!(buffer.push(&payload).is_ok());
    let mut target = [0u8; 32];
    assert!(buffer.pull(&mut target).is_ok());
    assert_eq!(target, payload);
}

#[test]
fn acceleration() {
    let mut gym = Gym::new(host(), host()).unwrap();
    assert!(gym.active());
    assert_eq!(gym.depth(), 12);
    let sample = Sample::new();
    assert!(gym.submit(&sample).is_ok());
    assert_eq!(gym.batch().count(), 1);
    let processed = gym.process().unwrap();
    assert_eq!(processed, 1);
    assert_eq!(gym.count(), 1);
    let position = [14u8; 90];
    let score = gym.evaluate(&position).unwrap();
    assert_eq!(score, 0);
}

#[test]
fn test_kernel_dispatch_and_execute_flow() {
    let mut kernel = Kernel::init(100, 420, 256, false).unwrap();
    assert_eq!(kernel.status(), Status::Ready);
    assert!(kernel.ready());
    let buffer = Buffer::allocate(65536, true, false).unwrap();
    assert!(kernel.dispatch(&buffer, 50).is_ok());
    assert_eq!(kernel.batch(), 50);
    let flushed = kernel.flush(&buffer).unwrap();
    assert_eq!(flushed, 50);
    assert_eq!(kernel.batch(), 0);
}

#[test]
fn test_sample_encoding_and_operations() {
    let mut sample = Sample::new();
    assert_eq!(sample.score(), 0);
    assert!(sample.valid());
    let grid = [1u8; 90];
    let res = sample.encode(&grid, 0);
    assert_eq!(res, Status::Ready);
    assert_eq!(sample.side(), 0);
    sample.store(350);
    assert_eq!(sample.score(), 350);
    sample.clear();
    assert_eq!(sample.score(), 0);
}

#[test]
fn test_status_helpers() {
    let status = Status::Ready;
    assert!(status.ok());
    assert!(status.valid());
    assert!(status.done());
    assert!(!status.busy());
    assert_eq!(status.code(), 0);
    assert_eq!(status.name(), "Ready");
    let status = Status::Active;
    assert!(status.ok());
    assert!(status.valid());
    assert!(status.busy());
    assert!(!status.done());
    assert_eq!(status.code(), 1);
    assert_eq!(status.name(), "Active");
}

#[test]
fn backend_decisions_from_adapter_facts() {
    let metal = Adapter { platform: Platform::Metal, software: false };
    let vulkan = Adapter { platform: Platform::Vulkan, software: false };
    let gl = Adapter { platform: Platform::Gl, software: false };
    let soft = Adapter { platform: Platform::Vulkan, software: true };
    assert_eq!(Backend::decide(true, Some(metal)), Backend::Cuda);
    assert_eq!(Backend::decide(false, None), Backend::Cpu);
    assert_eq!(Backend::decide(false, Some(soft)), Backend::Cpu);
    assert_eq!(Backend::decide(false, Some(metal)), Backend::Metal);
    assert_eq!(Backend::decide(false, Some(vulkan)), Backend::Opencl);
    assert_eq!(Backend::decide(false, Some(gl)), Backend::Wgpu);
    assert_eq!(Backend::settle(true, None), Backend::Opencl);
    assert_eq!(Backend::settle(false, Some(soft)), Backend::Cpu);
    assert_eq!(Backend::settle(true, Some(soft)), Backend::Opencl);
    assert_eq!(Backend::settle(true, Some(metal)), Backend::Metal);
    assert_eq!(Backend::settle(false, Some(gl)), Backend::Wgpu);
}
