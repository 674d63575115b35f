use zero_copy_model_runner::backend::mock::{
    request_kind, MockDeviceBackend, MockHub, MockReply, MockRequest, MockSyncobjState, RequestKind,
    WaitStep,
};
use zero_copy_model_runner::backend::{DeviceType, Errno};
use zero_copy_model_runner::memory::{
    DmaBufHandle, GpuBufferObject, MemoryBridge, MemoryError, NpuBufferObject, SharedBuffer,
    StrixHaloConfig, StrixHaloMemoryOptimizer, SyncDirection,
};
use zero_copy_model_runner::uapi::{
    amdxdna_drm_create_bo, amdxdna_drm_exec_cmd, amdxdna_drm_get_bo_info, dma_buf_sync,
    drm_amdgpu_gem_create_in, drm_gem_close, drm_prime_handle, drm_syncobj_create,
    drm_syncobj_handle, drm_syncobj_timeline_array, drm_syncobj_timeline_wait, drm_syncobj_transfer,
    _ioc, _iow, _iowr, DMA_BUF_IOCTL_SYNC_NUM, DRM_IOCTL_AMDGPU_GEM_CREATE_NUM,
    DRM_IOCTL_AMDXDNA_CREATE_BO_NUM, DRM_IOCTL_AMDXDNA_GET_BO_INFO_NUM, DRM_IOCTL_BASE,
    DRM_IOCTL_GEM_CLOSE_NUM, DRM_IOCTL_PRIME_FD_TO_HANDLE_NUM, DRM_IOCTL_PRIME_HANDLE_TO_FD_NUM,
    DRM_IOCTL_SYNCOBJ_CREATE_NUM, DRM_IOCTL_SYNCOBJ_FD_TO_HANDLE_NUM,
    DRM_IOCTL_SYNCOBJ_HANDLE_TO_FD_NUM, DRM_IOCTL_SYNCOBJ_TIMELINE_SIGNAL_NUM,
    DRM_IOCTL_SYNCOBJ_TIMELINE_WAIT_NUM,
};

#[test]
fn test_uapi_struct_sizes() {
    assert_eq!(core::mem::size_of::<drm_syncobj_handle>(), 24);
    assert_eq!(core::mem::size_of::<drm_syncobj_timeline_wait>(), 48);
    assert_eq!(core::mem::size_of::<drm_syncobj_timeline_array>(), 24);
    assert_eq!(core::mem::size_of::<drm_syncobj_transfer>(), 32);
    assert_eq!(core::mem::size_of::<drm_amdgpu_gem_create_in>(), 32);
    assert_eq!(core::mem::size_of::<drm_gem_close>(), 8);
    assert_eq!(core::mem::size_of::<drm_prime_handle>(), 12);
    assert_eq!(core::mem::size_of::<amdxdna_drm_get_bo_info>(), 48);
    assert_eq!(core::mem::size_of::<amdxdna_drm_create_bo>(), 32);

    assert_eq!(drm_syncobj_handle::default().to_bytes().len(), 24);
    assert_eq!(drm_syncobj_timeline_wait::default().to_bytes().len(), 48);
    assert_eq!(drm_syncobj_timeline_array::default().to_bytes().len(), 24);
    assert_eq!(drm_syncobj_transfer::default().to_bytes().len(), 32);
    assert_eq!(drm_amdgpu_gem_create_in::default().to_bytes().len(), 32);
    assert_eq!(drm_gem_close::default().to_bytes().len(), 8);
    assert_eq!(drm_prime_handle::default().to_bytes().len(), 12);
    assert_eq!(amdxdna_drm_get_bo_info::default().to_bytes().len(), 48);
    assert_eq!(amdxdna_drm_create_bo::default().to_bytes().len(), 32);
    assert_eq!(amdxdna_drm_exec_cmd::default().to_bytes().len(), 56);
}

/// Where the bytes that differ from the default image begin.
fn first_difference(a: &[u8], b: &[u8]) -> usize {
    let mut i = 0;
    while a[i] == b[i] {
        i += 1;
    }
    i
}

#[test]
fn test_uapi_field_offsets() {
    let zero = drm_syncobj_handle::default();
    let marked = drm_syncobj_handle { point: u64::MAX, ..zero };
    assert_eq!(first_difference(&marked.to_bytes(), &zero.to_bytes()), 16);
    let zero = drm_syncobj_timeline_wait::default();
    let marked = drm_syncobj_timeline_wait { deadline_nsec: u64::MAX, ..zero };
    assert_eq!(first_difference(&marked.to_bytes(), &zero.to_bytes()), 40);
    let zero = amdxdna_drm_get_bo_info::default();
    let marked = amdxdna_drm_get_bo_info { xdna_addr: u64::MAX, ..zero };
    assert_eq!(first_difference(&marked.to_bytes(), &zero.to_bytes()), 40);
}

#[test]
fn test_uapi_ioctl_numbers() {
    assert_eq!(DRM_IOCTL_AMDGPU_GEM_CREATE_NUM, 0xc0206440);
    assert_eq!(DRM_IOCTL_GEM_CLOSE_NUM, 0x40086409);
    assert_eq!(DRM_IOCTL_PRIME_HANDLE_TO_FD_NUM, 0xc00c642d);
    assert_eq!(DRM_IOCTL_PRIME_FD_TO_HANDLE_NUM, 0xc00c642e);
    assert_eq!(DRM_IOCTL_SYNCOBJ_HANDLE_TO_FD_NUM, 0xc01864c1);
    assert_eq!(DRM_IOCTL_SYNCOBJ_FD_TO_HANDLE_NUM, 0xc01864c2);
    assert_eq!(DRM_IOCTL_SYNCOBJ_TIMELINE_WAIT_NUM, 0xc03064ca);
    assert_eq!(DRM_IOCTL_SYNCOBJ_TIMELINE_SIGNAL_NUM, 0xc01864cd);
    assert_eq!(DRM_IOCTL_AMDXDNA_CREATE_BO_NUM, 0xc0206443);
    assert_eq!(DRM_IOCTL_AMDXDNA_GET_BO_INFO_NUM, 0xc0306444);
    assert_eq!(DMA_BUF_IOCTL_SYNC_NUM, 0x40086200);
}

#[test]
fn request_numbers_are_made_of_their_parts() {
    assert_eq!(_iowr(DRM_IOCTL_BASE, 0xBF, 8), DRM_IOCTL_SYNCOBJ_CREATE_NUM);
    assert_eq!(_iow(DRM_IOCTL_BASE, 0x09, 8), DRM_IOCTL_GEM_CLOSE_NUM);
    assert_eq!(_ioc(0, 1, 2, 3), 0x0003_0102);
    assert_eq!(_ioc(3, 0, 0, 0x1_0000), (3 << 30) | (1 << 32));
}

#[test]
fn arguments_are_read_back() {
    let p = drm_prime_handle { handle: 7, flags: 0x80002, fd: -1 };
    let b = p.to_bytes();
    assert_eq!(&b[8..12], &[255, 255, 255, 255]);
    assert_eq!(drm_prime_handle::from_bytes(&b), p);
    let c = drm_syncobj_create { handle: 1, flags: 2 };
    assert_eq!(drm_syncobj_create::from_bytes(&c.to_bytes()), c);
    let w = drm_syncobj_timeline_wait { timeout_nsec: -2, ..drm_syncobj_timeline_wait::default() };
    assert_eq!(&w.to_bytes()[16..24], &(-2i64).to_le_bytes());
}

fn create_request(size: u64, alignment: u64, domains: u64) -> MockRequest {
    MockRequest::GemCreate {
        args: drm_amdgpu_gem_create_in { bo_size: size, alignment, domains, domain_flags: 0 },
        memfd: Ok(10),
    }
}

#[test]
fn buffer_requests_are_checked() {
    let mut hub = MockHub::new();
    let mut gpu = MockDeviceBackend::new_gpu();
    assert_eq!(gpu.ioctl(&mut hub, &create_request(0, 0, 2)), Err(Errno::EINVAL));
    assert_eq!(gpu.ioctl(&mut hub, &create_request(100, 0, 2)), Err(Errno::EINVAL));
    assert_eq!(gpu.ioctl(&mut hub, &create_request(128, 32, 2)), Err(Errno::EINVAL));
    assert_eq!(gpu.ioctl(&mut hub, &create_request(128, 64, 4)), Err(Errno::EINVAL));
    assert_eq!(gpu.ioctl(&mut hub, &create_request(128, 0, 6)), Ok(MockReply::Handle(1)));
    assert_eq!(gpu.ioctl(&mut hub, &create_request(128, 64, 2)), Ok(MockReply::Handle(2)));
    let failed = MockRequest::GemCreate {
        args: drm_amdgpu_gem_create_in { bo_size: 64, alignment: 0, domains: 2, domain_flags: 0 },
        memfd: Err(Errno::Other(12)),
    };
    assert_eq!(gpu.ioctl(&mut hub, &failed), Err(Errno::Other(12)));
    assert_eq!(
        gpu.ioctl(&mut hub, &MockRequest::GemClose { handle: 1 }),
        Ok(MockReply::Closed(Some(10)))
    );
    assert_eq!(gpu.ioctl(&mut hub, &MockRequest::GemClose { handle: 1 }), Ok(MockReply::Closed(None)));
    assert_eq!(
        gpu.ioctl(&mut hub, &MockRequest::PrimeHandleToFd { handle: 1, dup: Ok(11) }),
        Err(Errno::ENOENT)
    );
    assert_eq!(gpu.device_type(), DeviceType::Gpu);
    assert!(gpu.is_mock());
}

#[test]
fn buffers_and_fences_cross_devices() {
    let mut hub = MockHub::new();
    let mut gpu = MockDeviceBackend::new_gpu();
    let mut npu = MockDeviceBackend::new_npu();
    assert_eq!(npu.device_type(), DeviceType::Npu);
    gpu.ioctl(&mut hub, &create_request(640, 64, 2)).unwrap();
    assert_eq!(
        gpu.ioctl(&mut hub, &MockRequest::PrimeHandleToFd { handle: 1, dup: Ok(40) }),
        Ok(MockReply::Fd(40))
    );
    let import = MockRequest::PrimeFdToHandle { fd: 40, is_open: true, end: Ok(5), dup: Ok(41) };
    assert_eq!(npu.ioctl(&mut hub, &import), Ok(MockReply::Handle(1)));
    assert_eq!(npu.gem_buffers.get(&1).unwrap().size, 640);
    let foreign = MockRequest::PrimeFdToHandle { fd: 50, is_open: true, end: Ok(99), dup: Ok(51) };
    assert_eq!(npu.ioctl(&mut hub, &foreign), Ok(MockReply::Handle(2)));
    assert_eq!(npu.gem_buffers.get(&2).unwrap().size, 99);
    let closed = MockRequest::PrimeFdToHandle { fd: 60, is_open: false, end: Ok(0), dup: Ok(1) };
    assert_eq!(npu.ioctl(&mut hub, &closed), Err(Errno::EBADF));
    let odd = MockRequest::PrimeFdToHandle { fd: 60, is_open: true, end: Err(Errno::Other(29)), dup: Ok(1) };
    assert_eq!(npu.ioctl(&mut hub, &odd), Err(Errno::Other(29)));

    assert_eq!(gpu.ioctl(&mut hub, &MockRequest::SyncobjCreate { flags: 1 }), Ok(MockReply::Handle(1)));
    assert_eq!(
        gpu.ioctl(&mut hub, &MockRequest::SyncobjHandleToFd { handle: 1, eventfd: Ok(70) }),
        Ok(MockReply::Fd(70))
    );
    assert_eq!(npu.ioctl(&mut hub, &MockRequest::SyncobjFdToHandle { fd: 70 }), Ok(MockReply::Handle(1)));
    assert_eq!(npu.ioctl(&mut hub, &MockRequest::SyncobjFdToHandle { fd: 71 }), Err(Errno::ENOENT));
    npu.ioctl(&mut hub, &MockRequest::TimelineSignal { handles: vec![1], points: vec![9] }).unwrap();
    let wait = |n: u64| MockRequest::TimelineWait { handles: vec![1], points: vec![n], timeout_nsec: 0 };
    assert_eq!(gpu.ioctl(&mut hub, &wait(9)), Ok(MockReply::Done));
    assert_eq!(gpu.ioctl(&mut hub, &wait(10)), Err(Errno::ETIMEDOUT));
}

#[test]
fn fences_only_rise() {
    let mut hub = MockHub::new();
    let mut gpu = MockDeviceBackend::new_gpu();
    gpu.ioctl(&mut hub, &MockRequest::SyncobjCreate { flags: 0 }).unwrap();
    gpu.ioctl(&mut hub, &MockRequest::SyncobjCreate { flags: 0 }).unwrap();
    let mixed = MockRequest::TimelineSignal { handles: vec![1, 9, 2], points: vec![5, 6, 7] };
    assert_eq!(gpu.ioctl(&mut hub, &mixed), Err(Errno::ENOENT));
    assert_eq!(hub.fences[0].current_point(), 5);
    assert_eq!(hub.fences[1].current_point(), 0);
    gpu.ioctl(&mut hub, &MockRequest::TimelineSignal { handles: vec![1], points: vec![3] }).unwrap();
    assert_eq!(hub.fences[0].current_point(), 5);
    let transfer = MockRequest::SyncobjTransfer { src_handle: 1, dst_handle: 2 };
    assert_eq!(gpu.ioctl(&mut hub, &transfer), Ok(MockReply::Done));
    assert_eq!(hub.fences[1].current_point(), 5);
    let missing = MockRequest::SyncobjTransfer { src_handle: 8, dst_handle: 2 };
    assert_eq!(gpu.ioctl(&mut hub, &missing), Err(Errno::ENOENT));
    let blocked = MockRequest::TimelineWait { handles: vec![1, 2], points: vec![5, 6], timeout_nsec: 10 };
    assert_eq!(gpu.ioctl(&mut hub, &blocked), Ok(MockReply::Blocked { fence: 1, point: 6 }));
}

#[test]
fn waiting_goes_by_the_clock() {
    let mut f = MockSyncobjState::new(3);
    assert_eq!(f.wait(3, 0, 0), WaitStep::Reached);
    assert_eq!(f.wait(4, 0, 0), WaitStep::TimedOut);
    assert_eq!(f.wait(4, -1, 1000), WaitStep::Sleep);
    assert_eq!(f.wait(4, 100, 40), WaitStep::SleepFor(60));
    assert_eq!(f.wait(4, 100, 100), WaitStep::TimedOut);
    assert!(f.signal(4));
    assert!(!f.signal(2));
    assert_eq!(f.current_point(), 4);
}

#[test]
fn other_requests_are_served() {
    let mut hub = MockHub::new();
    let mut npu = MockDeviceBackend::new_npu();
    assert_eq!(npu.ioctl(&mut hub, &MockRequest::CreateBo { va_tbl: None }), Ok(MockReply::Handle(1)));
    assert_eq!(
        npu.ioctl(&mut hub, &MockRequest::CreateBo { va_tbl: Some((3, 0)) }),
        Ok(MockReply::Handle(2))
    );
    assert_eq!(
        npu.ioctl(&mut hub, &MockRequest::CreateBo { va_tbl: Some((3, 1)) }),
        Err(Errno::EINVAL)
    );
    assert_eq!(
        npu.ioctl(&mut hub, &MockRequest::GetBoInfo { handle: 2 }),
        Ok(MockReply::BoInfo { map_offset: 0x100200000, vaddr: 0, xdna_addr: 0x200200000 })
    );
    assert_eq!(npu.ioctl(&mut hub, &MockRequest::GetBoInfo { handle: 0 }), Err(Errno::EINVAL));
    assert_eq!(npu.ioctl(&mut hub, &MockRequest::DmaBufSync { flags: 7 }), Ok(MockReply::Done));
    assert_eq!(npu.ioctl(&mut hub, &MockRequest::DmaBufSync { flags: 8 }), Err(Errno::EINVAL));
    assert_eq!(request_kind(DMA_BUF_IOCTL_SYNC_NUM, true), Ok(RequestKind::DmaBufSync));
    assert_eq!(request_kind(DRM_IOCTL_AMDXDNA_CREATE_BO_NUM, true), Ok(RequestKind::CreateBo));
    assert_eq!(request_kind(DMA_BUF_IOCTL_SYNC_NUM, false), Err(Errno::EFAULT));
    assert_eq!(request_kind(12345, true), Err(Errno::ENOTTY));
}

#[test]
fn test_mock_gem_allocation_and_prime_export() {
    let mut hub = MockHub::new();
    let mut mock_gpu = MockDeviceBackend::new_gpu();
    let size = 64 * 1024;

    let gpu_bo = MemoryBridge::allocate_gem_bo(&mut mock_gpu, &mut hub, size, 64, Ok(3))
        .expect("Failed to allocate mock GEM BO");
    assert!(gpu_bo.handle() > 0);
    assert_eq!(gpu_bo.size(), size);

    let mut dmabuf = gpu_bo
        .export_prime_fd(&mut mock_gpu, &mut hub, Ok(4))
        .expect("Failed to export PRIME FD");
    assert!(dmabuf.as_raw_fd() >= 0);
    assert_eq!(dmabuf.size(), size);

    let cloned_handle = dmabuf.try_clone(Ok(5)).expect("Failed to clone DmaBufHandle");
    assert!(cloned_handle.as_raw_fd() >= 0);
    assert_ne!(dmabuf.as_raw_fd(), cloned_handle.as_raw_fd());
    assert_eq!(cloned_handle.size(), size);

    let begin = DmaBufHandle::begin_request(SyncDirection::ReadWrite);
    assert_eq!(begin, dma_buf_sync { flags: 3 });
    dmabuf.begin_cpu_access(Err(Errno::ENOTTY), Ok(())).expect("begin_cpu_access failed");
    assert!(dmabuf.in_sync_session);
    let end = DmaBufHandle::end_request(SyncDirection::ReadWrite);
    assert_eq!(end, dma_buf_sync { flags: 7 });
    dmabuf.end_cpu_access(Err(Errno::ENOTTY), Ok(())).expect("end_cpu_access failed");
    assert!(!dmabuf.in_sync_session);
}

#[test]
fn test_mock_npu_import() {
    let mut hub = MockHub::new();
    let mut mock_gpu = MockDeviceBackend::new_gpu();
    let mut mock_npu = MockDeviceBackend::new_npu();
    let size = 128 * 1024;

    let gpu_bo = MemoryBridge::allocate_gem_bo(&mut mock_gpu, &mut hub, size, 4096, Ok(3)).unwrap();
    let dmabuf = MemoryBridge::export_dma_buf(&gpu_bo, &mut mock_gpu, &mut hub, Ok(4)).unwrap();
    let npu_bo = MemoryBridge::import_dma_buf(&mut mock_npu, &mut hub, &dmabuf, true, Ok(0), Ok(5))
        .expect("Failed to import dma-buf to mock NPU");
    assert!(npu_bo.handle() > 0);
    assert_eq!(npu_bo.size(), size);
    assert!(npu_bo.xdna_addr() > 0);
    assert_eq!(npu_bo.xdna_addr(), 0x2_0010_0000);
}

#[test]
fn test_shared_buffer_mmap_and_64byte_alignment() {
    let mut hub = MockHub::new();
    let mut mock_gpu = MockDeviceBackend::new_gpu();
    let size = 64 * 1024;
    let (_gpu_bo, shared) =
        MemoryBridge::allocate_shared(&mut mock_gpu, &mut hub, size, Ok(3), Ok(4), Some(Ok(0x7000)))
            .expect("Failed to allocate shared buffer");
    assert_eq!(shared.len(), size);
    assert!(!shared.is_empty());
    let raw_ptr = shared.as_ptr().expect("Buffer should be CPU-mapped");
    assert_eq!(raw_ptr % 64, 0);
    assert_eq!(shared.cpu_address().unwrap(), 0x7000);
    assert_eq!(shared.handle().size(), size);
    match MemoryBridge::allocate_shared(&mut mock_gpu, &mut hub, size, Ok(3), Ok(4), Some(Ok(0x7001))) {
        Err(MemoryError::AlignmentError { required: 64, actual: 1 }) => {}
        other => panic!("Expected AlignmentError, got {:?}", other),
    }
}

#[test]
fn test_unmapped_shared_buffer_returns_invalid_state() {
    let mut hub = MockHub::new();
    let mut mock_gpu = MockDeviceBackend::new_gpu();
    let (_gpu_bo, unmapped) =
        MemoryBridge::allocate_shared(&mut mock_gpu, &mut hub, 4096, Ok(3), Ok(4), None)
            .expect("Failed to allocate unmapped buffer");
    assert!(unmapped.as_ptr().is_none());
    match unmapped.cpu_address() {
        Err(MemoryError::InvalidState(msg)) => assert!(msg.contains("not mapped")),
        other => panic!("Expected InvalidState error, got {:?}", other),
    }
}

#[test]
fn test_misaligned_allocation_rejected() {
    let mut hub = MockHub::new();
    let mut mock_gpu = MockDeviceBackend::new_gpu();
    let misaligned_size = 63;
    let res = MemoryBridge::allocate_gem_bo(&mut mock_gpu, &mut hub, misaligned_size, 64, Ok(3));
    match res {
        Err(MemoryError::AlignmentError { required: 64, .. }) => {}
        other => panic!("Expected AlignmentError for size 63, got {:?}", other),
    }
}

#[test]
fn test_adversarial_boundary_conditions() {
    let mut hub = MockHub::new();
    let mut mock_gpu = MockDeviceBackend::new_gpu();

    let res_zero = MemoryBridge::allocate_gem_bo(&mut mock_gpu, &mut hub, 0, 64, Ok(3));
    assert!(res_zero.is_err());

    for &bad_size in &[1usize, 63, 65, 127, 4095] {
        let res = MemoryBridge::allocate_gem_bo(&mut mock_gpu, &mut hub, bad_size, 64, Ok(3));
        match res {
            Err(MemoryError::AlignmentError { required: 64, .. }) => {}
            other => panic!("Expected AlignmentError for size {}, got {:?}", bad_size, other),
        }
    }

    let res_align = MemoryBridge::allocate_gem_bo(&mut mock_gpu, &mut hub, 128, 63, Ok(3));
    match res_align {
        Err(MemoryError::AlignmentError { required: 64, .. }) => {}
        other => panic!("Expected AlignmentError for alignment 63, got {:?}", other),
    }

    let mut mock_npu = MockDeviceBackend::new_npu();
    let bad_dmabuf = DmaBufHandle::from_raw_fd_unchecked(-1, 4096);
    let import_res =
        MemoryBridge::import_dma_buf(&mut mock_npu, &mut hub, &bad_dmabuf, false, Ok(0), Ok(5));
    assert!(matches!(import_res, Err(MemoryError::IoctlError(Errno::EBADF))));

    let clone_res = bad_dmabuf.try_clone(Err(9));
    assert!(matches!(clone_res, Err(MemoryError::IoError(9))));
    assert!(!bad_dmabuf.must_close(true));
}

#[test]
fn bridge_answers_are_checked() {
    assert!(matches!(
        MemoryBridge::accept_gem(Ok(0), 64),
        Err(MemoryError::AllocationFailed(_))
    ));
    assert!(matches!(
        MemoryBridge::accept_gem(Err(Errno::EINVAL), 64),
        Err(MemoryError::IoctlError(Errno::EINVAL))
    ));
    assert_eq!(MemoryBridge::accept_gem(Ok(5), 64).unwrap(), GpuBufferObject::new(5, 64));
    assert!(matches!(
        MemoryBridge::accept_import(Ok(0), Ok(1), 64),
        Err(MemoryError::AllocationFailed(_))
    ));
    assert_eq!(
        MemoryBridge::accept_import(Ok(5), Err(Errno::ENOTTY), 64).unwrap(),
        NpuBufferObject::new(5, 64, 0)
    );
    let bo = GpuBufferObject::new(7, 64);
    assert_eq!(bo.export_request(), drm_prime_handle { handle: 7, flags: 0x80002, fd: -1 });
    assert!(matches!(bo.accept_export(Ok(-1)), Err(MemoryError::AllocationFailed(_))));
    assert_eq!(bo.close_request(), drm_gem_close { handle: 7, pad: 0 });
    assert_eq!(NpuBufferObject::new(8, 1, 2).close_request(), drm_gem_close { handle: 8, pad: 0 });
    let q = MemoryBridge::gem_request(128, 0).unwrap();
    assert_eq!((q.bo_size, q.alignment, q.domains, q.domain_flags), (128, 64, 2, 0x2081));
    match SharedBuffer::new(DmaBufHandle::from_raw_fd_unchecked(1, 2), Some(Err("no".to_string()))) {
        Err(MemoryError::MmapError(s)) => assert_eq!(s, "no"),
        other => panic!("Expected MmapError, got {:?}", other),
    }
    let mut h = DmaBufHandle::from_raw_fd_unchecked(1, 2);
    assert!(matches!(
        h.begin_cpu_access(Err(Errno::EBADF), Ok(())),
        Err(MemoryError::IoctlError(Errno::EBADF))
    ));
    assert!(matches!(
        h.begin_cpu_access(Err(Errno::ENOTTY), Err(Errno::EBADF)),
        Err(MemoryError::IoctlError(Errno::EBADF))
    ));
    assert!(!h.in_sync_session);
    assert_eq!(SyncDirection::Read.to_flags(), 1);
    assert_eq!(SyncDirection::Write.to_flags(), 2);
}

#[test]
fn test_strix_halo_optimizer_creation() {
    let optimizer = StrixHaloMemoryOptimizer::new(StrixHaloConfig::default(), None);
    assert!(optimizer.optimal_stride() >= 128);
}

#[test]
fn test_advise_hugepages_null_or_small_safe() {
    let optimizer = StrixHaloMemoryOptimizer::new(StrixHaloConfig::default(), None);
    assert!(!optimizer.advise_hugepages(true, 1024));
    assert!(!optimizer.advise_hugepages(false, 1024));
    assert!(optimizer.advise_hugepages(false, 2 * 1024 * 1024));
}

#[test]
fn wide_buses_are_found_by_their_threads() {
    let few = "processor : 0\n".repeat(31);
    let many = "processor : 0\n".repeat(32);
    assert!(!StrixHaloMemoryOptimizer::detect_256bit_uma(Some(&few)));
    assert!(StrixHaloMemoryOptimizer::detect_256bit_uma(Some(&many)));
    let o = StrixHaloMemoryOptimizer::new(StrixHaloConfig::default(), Some(&many));
    assert!(o.is_256bit_bus());
    assert_eq!(o.optimal_stride(), 256);
}
