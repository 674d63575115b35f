use zero_copy_model_runner::backend::mock::{MockDeviceBackend, MockHub, MockReply, MockRequest};
use zero_copy_model_runner::backend::Errno;
use zero_copy_model_runner::engine::pilot::PilotEngine;
use zero_copy_model_runner::memory::{
    DmaBufHandle, GpuBufferObject, MemoryBridge, MemoryError, NpuBufferObject, SharedBuffer,
    SyncDirection,
};

/// An address as the operating system hands them out: the start of a page.
const PAGE: usize = 0x7f00_0000_1000;

fn mapped() -> Option<Result<usize, String>> {
    Some(Ok(PAGE))
}

/// A buffer of the GPU, exported as descriptor 11, and its import into the NPU.
fn shared_between(
    gpu: &mut MockDeviceBackend,
    npu: &mut MockDeviceBackend,
    hub: &mut MockHub,
    size: usize,
) -> (GpuBufferObject, DmaBufHandle, NpuBufferObject) {
    let gpu_bo = MemoryBridge::allocate_gem_bo(gpu, hub, size, 4096, Ok(10)).unwrap();
    let dmabuf = gpu_bo.export_prime_fd(gpu, hub, Ok(11)).unwrap();
    let npu_dmabuf = dmabuf.try_clone(Ok(12)).unwrap();
    let npu_bo =
        MemoryBridge::import_dma_buf(npu, hub, &npu_dmabuf, true, Ok(size as u64), Ok(13)).unwrap();
    (gpu_bo, dmabuf, npu_bo)
}

#[test]
fn test_r1_gem_allocation_and_export() {
    let handle = DmaBufHandle::from_raw_fd_unchecked(3, 65536);
    assert!(handle.as_raw_fd() >= 0);
    assert_eq!(handle.size(), 65536);
}

#[test]
fn test_r1_amdx_import_and_handle() {
    let mut hub = MockHub::new();
    let mut gpu = MockDeviceBackend::new_gpu();
    let mut npu = MockDeviceBackend::new_npu();
    let (_, dmabuf, npu_bo) = shared_between(&mut gpu, &mut npu, &mut hub, 16384);
    assert!(dmabuf.as_raw_fd() >= 0);
    assert!(npu_bo.handle() > 0);
}

#[test]
fn test_r1_64byte_cache_line_alignment() {
    let handle = DmaBufHandle::from_raw_fd_unchecked(3, 32768);
    let shared = SharedBuffer::new(handle, mapped()).unwrap();
    assert_eq!(shared.len(), 32768);
    assert!(!shared.is_empty());
    assert_eq!(shared.as_ptr().unwrap() % 64, 0);
}

#[test]
fn test_r1_cpu_sync_brackets() {
    let mut hub = MockHub::new();
    let mut gpu = MockDeviceBackend::new_gpu();
    let start_read = DmaBufHandle::begin_request(SyncDirection::Read).flags;
    let end_write = DmaBufHandle::end_request(SyncDirection::Write).flags;
    assert_eq!(start_read, 1);
    assert_eq!(end_write, 6);
    for flags in [start_read, end_write] {
        assert_eq!(gpu.ioctl(&mut hub, &MockRequest::DmaBufSync { flags }), Ok(MockReply::Done));
    }
    let mut handle = DmaBufHandle::from_raw_fd_unchecked(3, 4096);
    handle.begin_cpu_access(Ok(()), Ok(())).unwrap();
    assert!(handle.in_sync_session);
    handle.end_cpu_access(Ok(()), Ok(())).unwrap();
    assert!(!handle.in_sync_session);
}

#[test]
fn test_r1_raii_teardown_and_leak_free() {
    for _ in 0..10 {
        let handle = DmaBufHandle::from_raw_fd_unchecked(3, 4096);
        let shared = SharedBuffer::new(handle, mapped()).unwrap();
        assert_eq!(shared.len(), 4096);
        assert!(shared.handle().must_close(true));
        assert!(!shared.handle().must_close(false));
    }
}

#[test]
fn test_r4_syncobj_fd_export_import() {
    let mut hub = MockHub::new();
    let mut gpu = MockDeviceBackend::new_gpu();
    let handle1 = match gpu.ioctl(&mut hub, &MockRequest::SyncobjCreate { flags: 0 }) {
        Ok(MockReply::Handle(h)) => h,
        other => panic!("unexpected reply {:?}", other),
    };
    assert!(handle1 > 0);
    let export = MockRequest::SyncobjHandleToFd { handle: handle1, eventfd: Ok(20) };
    assert_eq!(gpu.ioctl(&mut hub, &export), Ok(MockReply::Fd(20)));
    let handle2 = match gpu.ioctl(&mut hub, &MockRequest::SyncobjFdToHandle { fd: 20 }) {
        Ok(MockReply::Handle(h)) => h,
        other => panic!("unexpected reply {:?}", other),
    };
    assert!(handle2 > 0);
    for handle in [handle1, handle2] {
        assert!(gpu.ioctl(&mut hub, &MockRequest::SyncobjDestroy { handle }).is_ok());
        let export = MockRequest::SyncobjHandleToFd { handle, eventfd: Ok(21) };
        assert_eq!(gpu.ioctl(&mut hub, &export), Err(Errno::ENOENT));
    }
}

#[test]
fn test_r5_mock_memfd_backed_buffer() {
    let handle = DmaBufHandle::from_raw_fd_unchecked(3, 8192);
    assert!(handle.as_raw_fd() >= 0);
    let shared = SharedBuffer::new(handle, mapped()).unwrap();
    assert_eq!(shared.len(), 8192);
}

#[test]
fn test_r1_boundary_zero_length_buffer() {
    let handle = DmaBufHandle::from_raw_fd_unchecked(3, 0);
    assert_eq!(handle.size(), 0);
    let buffer = SharedBuffer::new(handle, None).unwrap();
    assert_eq!(buffer.len(), 0);
    assert!(buffer.is_empty());
}

#[test]
fn test_r1_boundary_unaligned_mmap_alignment_enforcement() {
    let handle = DmaBufHandle::from_raw_fd_unchecked(3, 4096);
    let buffer = SharedBuffer::new(handle, mapped()).unwrap();
    assert_eq!(buffer.len(), 4096);
    let handle = DmaBufHandle::from_raw_fd_unchecked(3, 4096);
    match SharedBuffer::new(handle, Some(Ok(PAGE + 8))) {
        Err(MemoryError::AlignmentError { required: 64, actual: 8 }) => {}
        other => panic!("Expected AlignmentError, got {:?}", other),
    }
}

#[test]
fn test_r1_boundary_invalid_fd_rejection() {
    let pipe = DmaBufHandle::from_raw_fd_unchecked(5, 4096);
    match SharedBuffer::new(pipe, Some(Err("No such device (os error 19)".to_string()))) {
        Err(MemoryError::MmapError(text)) => assert_eq!(text, "No such device (os error 19)"),
        Err(other) => panic!("Expected MmapError, got {:?}", other),
        Ok(_) => panic!("Expected mmap failure on pipe FD"),
    }
}

#[test]
fn test_r1_boundary_concurrent_cpu_access_guard() {
    let handle = DmaBufHandle::from_raw_fd_unchecked(3, 8192);
    let buffer = SharedBuffer::new(handle, None).unwrap();
    match buffer.cpu_address() {
        Err(MemoryError::InvalidState(msg)) => assert!(msg.contains("not mapped")),
        Err(other) => panic!("Expected InvalidState, got {:?}", other),
        Ok(_) => panic!("Expected failure on unmapped CPU read"),
    }
}

#[test]
fn test_adversarial_unmapped_pointer_safety() {
    let mut hub = MockHub::new();
    let mut gpu = MockDeviceBackend::new_gpu();
    let (_, mut unmapped) =
        MemoryBridge::allocate_shared(&mut gpu, &mut hub, 64 * 1024, Ok(10), Ok(11), None).unwrap();
    assert!(unmapped.as_ptr().is_none());
    assert!(unmapped.as_mut_ptr().is_none());
    match unmapped.cpu_address() {
        Err(MemoryError::InvalidState(msg)) => assert!(msg.contains("not mapped")),
        other => panic!("Expected InvalidState error, got {:?}", other),
    }
}

#[test]
fn test_adversarial_edge_lifecycle_drop_gpu_while_npu_alive() {
    let mut hub = MockHub::new();
    let mut gpu = MockDeviceBackend::new_gpu();
    let mut npu = MockDeviceBackend::new_npu();
    let size = 64 * 1024;
    let (gpu_bo, dmabuf, npu_bo) = shared_between(&mut gpu, &mut npu, &mut hub, size);
    let mut shared = SharedBuffer::new(dmabuf, mapped()).unwrap();

    let close = MockRequest::GemClose { handle: gpu_bo.handle() };
    assert_eq!(gpu.ioctl(&mut hub, &close), Ok(MockReply::Closed(Some(10))));

    assert!(npu_bo.handle() > 0);
    assert_eq!(npu_bo.size(), size);
    let info = npu.ioctl(&mut hub, &MockRequest::GetBoInfo { handle: npu_bo.handle() });
    assert!(matches!(info, Ok(MockReply::BoInfo { .. })));
    assert_eq!(shared.cpu_address().unwrap(), PAGE);
    assert_eq!(shared.as_mut_ptr(), Some(PAGE));
    let close = MockRequest::GemClose { handle: npu_bo.handle() };
    assert_eq!(npu.ioctl(&mut hub, &close), Ok(MockReply::Closed(Some(13))));
}

#[test]
fn test_adversarial_edge_lifecycle_drop_npu_while_gpu_alive() {
    let mut hub = MockHub::new();
    let mut gpu = MockDeviceBackend::new_gpu();
    let mut npu = MockDeviceBackend::new_npu();
    let size = 64 * 1024;
    let (gpu_bo, dmabuf, npu_bo) = shared_between(&mut gpu, &mut npu, &mut hub, size);
    let shared = SharedBuffer::new(dmabuf, mapped()).unwrap();

    let close = MockRequest::GemClose { handle: npu_bo.handle() };
    assert_eq!(npu.ioctl(&mut hub, &close), Ok(MockReply::Closed(Some(13))));

    assert!(gpu_bo.handle() > 0);
    assert_eq!(gpu_bo.size(), size);
    assert_eq!(shared.cpu_address().unwrap(), PAGE);
    let again = gpu_bo.export_prime_fd(&mut gpu, &mut hub, Ok(14)).unwrap();
    assert_eq!((again.as_raw_fd(), again.size()), (14, size));
    let close = MockRequest::GemClose { handle: gpu_bo.handle() };
    assert_eq!(gpu.ioctl(&mut hub, &close), Ok(MockReply::Closed(Some(10))));
}

#[test]
fn test_adversarial_try_clone_multi_generation_tree() {
    let mut hub = MockHub::new();
    let mut gpu = MockDeviceBackend::new_gpu();
    let size = 64 * 1024;
    let gpu_bo = MemoryBridge::allocate_gem_bo(&mut gpu, &mut hub, size, 4096, Ok(10)).unwrap();
    let mut cur = gpu_bo.export_prime_fd(&mut gpu, &mut hub, Ok(11)).unwrap();
    let mut clones = Vec::new();
    for i in 0..10 {
        let child = cur.try_clone(Ok(12 + i)).unwrap();
        assert_ne!(cur.as_raw_fd(), child.as_raw_fd());
        assert_eq!(child.size(), size);
        clones.push(cur);
        cur = child;
    }
    clones.push(cur);
    assert_eq!(clones.len(), 11);
    clones.drain(0..5);
    assert_eq!(clones.len(), 6);
    let view_a = SharedBuffer::new(clones.remove(0), mapped()).unwrap();
    let view_b = SharedBuffer::new(clones.pop().unwrap(), mapped()).unwrap();
    assert_eq!(view_a.handle().as_raw_fd(), 16);
    assert_eq!(view_b.handle().as_raw_fd(), 21);
    assert_eq!(view_a.len(), view_b.len());
    match view_a.handle().try_clone(Err(24)) {
        Err(MemoryError::IoError(24)) => {}
        other => panic!("Expected IoError, got {:?}", other),
    }
}

#[test]
fn closed_descriptors_are_not_synchronised() {
    let mut handle = DmaBufHandle::from_raw_fd_unchecked(3, 4096);
    handle.begin_cpu_access(Err(Errno::ENOTTY), Ok(())).unwrap();
    assert!(handle.in_sync_session);
    match handle.end_cpu_access(Err(Errno::ENOTTY), Err(Errno::EBADF)) {
        Err(MemoryError::IoctlError(Errno::EBADF)) => {}
        other => panic!("Expected IoctlError, got {:?}", other),
    }
    assert!(handle.in_sync_session);
    match handle.end_cpu_access(Err(Errno::EINVAL), Ok(())) {
        Err(MemoryError::IoctlError(Errno::EINVAL)) => {}
        other => panic!("Expected IoctlError, got {:?}", other),
    }
}

#[test]
fn test_pilot_ewma_and_lookahead_prefetch() {
    let (alpha, lambda, floor, tau_high, tau_low) = (0.10f32, 0.80f32, 0.01f32, 0.15f32, 0.05f32);
    let mut engine = PilotEngine::new();
    let num_experts = 4;
    engine.register_layer(0, num_experts);
    engine.register_layer(1, num_experts);

    let prior = 0.25f32;
    let mut short = [[prior; 4]; 2];
    let mut composite = [[prior; 4]; 2];
    for _ in 0..10 {
        for layer in 0..2 {
            let active = [layer + 1];
            for e in 0..num_experts {
                let seen = if active.contains(&e) { 1.0 } else { 0.0 };
                short[layer][e] = (1.0 - alpha) * short[layer][e] + alpha * seen;
                composite[layer][e] = (lambda * short[layer][e] + (1.0 - lambda) * prior).max(floor);
            }
            let high: Vec<bool> = composite[layer].iter().map(|c| *c >= tau_high).collect();
            let low: Vec<bool> = composite[layer].iter().map(|c| *c <= tau_low).collect();
            let prev: &[usize] = &[1];
            let prev = if layer == 1 { Some(prev) } else { None };
            engine.on_layer_routed(layer, &active, prev, &high, &low);
        }
    }

    let tracker_0 = engine.layer_trackers.get(&0).unwrap();
    assert!(composite[0][1] > 0.15);
    assert!(tracker_0.is_hot_resident[1]);
    let tracker_1 = engine.layer_trackers.get(&1).unwrap();
    assert_eq!(tracker_1.transition_row(1).unwrap(), &[0, 0, 10, 0]);

    let targets = engine.predict_prefetch_targets(0, &[vec![2]]);
    assert!(
        targets.iter().any(|&(layer, exp)| layer == 1 && exp == 2) || tracker_0.is_hot_resident[1]
    );
}

#[test]
fn failed_sharing_leaves_no_buffer_behind() {
    let mut hub = MockHub::new();
    let mut gpu = MockDeviceBackend::new_gpu();
    let kept = MemoryBridge::allocate_gem_bo(&mut gpu, &mut hub, 64, 64, Ok(9)).unwrap();
    let no_export =
        MemoryBridge::allocate_shared(&mut gpu, &mut hub, 64, Ok(10), Err(Errno::EBADF), mapped());
    assert!(matches!(no_export, Err(MemoryError::IoctlError(Errno::EBADF))));
    let no_mapping = MemoryBridge::allocate_shared(
        &mut gpu,
        &mut hub,
        64,
        Ok(11),
        Ok(12),
        Some(Err("Cannot allocate memory (os error 12)".to_string())),
    );
    assert!(matches!(no_mapping, Err(MemoryError::MmapError(_))));
    assert_eq!(gpu.gem_buffers.len(), 1);
    assert!(gpu.gem_buffers.contains_key(&kept.handle()));
    let (bo, _) =
        MemoryBridge::allocate_shared(&mut gpu, &mut hub, 64, Ok(13), Ok(14), mapped()).unwrap();
    assert_eq!(bo.handle(), kept.handle() + 3);
    assert_eq!(gpu.gem_buffers.len(), 2);
}
