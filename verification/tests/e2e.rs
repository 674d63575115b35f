use zero_copy_model_runner::backend::mock::{
    MockDeviceBackend, MockHub, MockReply, MockRequest, MockSyncobjState, WaitStep,
};
use zero_copy_model_runner::doctor::{run_diagnostics, SystemProbe};
use zero_copy_model_runner::engine::oracle::EOS_TOKEN_ID;
use zero_copy_model_runner::engine::xrt_decode::{DecodeStepRequest, XrtDecodeEngine};
use zero_copy_model_runner::engine::EngineError;
use zero_copy_model_runner::uapi::{
    dma_buf_sync, drm_amdgpu_gem_create_in, drm_prime_handle, drm_syncobj_handle,
    drm_syncobj_timeline_wait, DMA_BUF_SYNC_END, DMA_BUF_SYNC_READ, DMA_BUF_SYNC_RW,
    DMA_BUF_SYNC_START, DMA_BUF_SYNC_WRITE,
};

/// A timeline that refuses to be signalled backwards, and a clock that runs out at once.
struct MockTimelineSyncobj {
    state: MockSyncobjState,
}

impl MockTimelineSyncobj {
    fn new(initial_point: u64) -> MockTimelineSyncobj {
        MockTimelineSyncobj { state: MockSyncobjState::new(initial_point) }
    }

    fn signal(&mut self, point: u64) -> Result<(), String> {
        if point < self.state.current_point() {
            return Err(format!("Non-monotonic signal point: requested {}", point));
        }
        self.state.signal(point);
        Ok(())
    }

    fn wait(&self, point: u64, timeout_nsec: i64) -> Result<(), String> {
        match self.state.wait(point, timeout_nsec, timeout_nsec as u64) {
            WaitStep::Reached => Ok(()),
            _ => Err(format!("Mock timeline fence timeout waiting for point {}", point)),
        }
    }

    fn current_point(&self) -> u64 {
        self.state.current_point()
    }
}

struct MockDeviceHarness {
    device: MockDeviceBackend,
    hub: MockHub,
}

impl MockDeviceHarness {
    fn new() -> MockDeviceHarness {
        MockDeviceHarness { device: MockDeviceBackend::new_gpu(), hub: MockHub::new() }
    }

    fn create_syncobj(&mut self) -> u32 {
        match self.device.ioctl(&mut self.hub, &MockRequest::SyncobjCreate { flags: 0 }) {
            Ok(MockReply::Handle(h)) => h,
            other => panic!("unexpected reply {:?}", other),
        }
    }

    fn destroy_syncobj(&mut self, handle: u32) -> Result<(), String> {
        if !self.device.syncobjs.contains_key(&handle) {
            return Err(format!("Invalid mock syncobj handle {}", handle));
        }
        self.device
            .ioctl(&mut self.hub, &MockRequest::SyncobjDestroy { handle })
            .map(|_| ())
            .map_err(|e| format!("{:?}", e))
    }

    fn timeline_signal(&mut self, handle: u32, point: u64) -> Result<(), String> {
        let request = MockRequest::TimelineSignal { handles: vec![handle], points: vec![point] };
        self.device.ioctl(&mut self.hub, &request).map(|_| ()).map_err(|e| format!("{:?}", e))
    }

    fn timeline_wait(&mut self, handle: u32, point: u64, timeout_nsec: i64) -> Result<(), String> {
        let request =
            MockRequest::TimelineWait { handles: vec![handle], points: vec![point], timeout_nsec };
        match self.device.ioctl(&mut self.hub, &request) {
            Ok(MockReply::Blocked { fence, point }) => {
                let state = self.hub.fences[fence];
                match state.wait(point, timeout_nsec, timeout_nsec as u64) {
                    WaitStep::Reached => Ok(()),
                    _ => Err("timeout".to_string()),
                }
            }
            Ok(_) => Ok(()),
            Err(e) => Err(format!("{:?}", e)),
        }
    }

    fn validate_sync_flags(flags: u64) -> Result<(), String> {
        let dir = flags & DMA_BUF_SYNC_RW;
        if dir != DMA_BUF_SYNC_READ && dir != DMA_BUF_SYNC_WRITE && dir != DMA_BUF_SYNC_RW {
            return Err(format!("Invalid sync direction flags: 0x{:x}", flags));
        }
        let mut harness = MockDeviceHarness::new();
        harness
            .device
            .ioctl(&mut harness.hub, &MockRequest::DmaBufSync { flags })
            .map(|_| ())
            .map_err(|e| format!("{:?}", e))
    }
}

const MILLISECOND: i64 = 1_000_000;

fn request(token: u32, index: usize, temperature: f32) -> DecodeStepRequest {
    DecodeStepRequest { input_token_id: token, sequence_index: index, temperature: temperature.to_bits() }
}

fn attached(size: usize) -> (XrtDecodeEngine, Vec<u8>) {
    let mut engine = XrtDecodeEngine::new();
    engine.initialize("model.xclbin", Ok(true)).expect("Init");
    engine.attach_kv_cache(size, Ok(())).expect("Attach");
    (engine, vec![0u8; size])
}

#[test]
fn test_r3_decode_engine_initialization() {
    let mut engine = XrtDecodeEngine::new();
    engine.initialize("strix_point_llama3.xclbin", Ok(true)).expect("Init failed");
    assert_eq!(engine.active_tiles(), 32);
    assert!(engine.peak_npu_tops() >= 50);
}

#[test]
fn test_r3_decode_attach_kv_cache() {
    let mut engine = XrtDecodeEngine::new();
    engine.initialize("model.xclbin", Ok(true)).expect("Init failed");
    engine.attach_kv_cache(32768, Ok(())).expect("Failed to attach KV cache");
}

#[test]
fn test_r3_decode_single_step_dispatch() {
    let (mut engine, mut kv) = attached(32768);
    let result = engine
        .dispatch_decode_step(&request(9607, 6, 0.0), "0", 1, &mut kv, None)
        .expect("Decode step failed");
    assert_eq!(result.output_token_id, 374);
    assert!(!result.is_eos);
    assert_eq!(result.step_fence_point, 1);
    assert_eq!(engine.current_step(), 1);
}

#[test]
fn test_r3_decode_in_place_kv_append() {
    let (mut engine, mut kv) = attached(32768);
    let mut current_token = 9607;
    for step in 0..3 {
        let res = engine
            .dispatch_decode_step(&request(current_token, 6 + step, 0.0), "0", (step + 1) as u64, &mut kv, None)
            .expect("Step failed");
        current_token = res.output_token_id;
    }
    assert_eq!(engine.current_step(), 3);
}

#[test]
fn test_r3_decode_eos_detection() {
    let (mut engine, mut kv) = attached(32768);
    let res = engine
        .dispatch_decode_step(&request(13, 15, 0.0), "0", 10, &mut kv, None)
        .expect("Decode step");
    assert!(res.is_eos, "Expected EOS token flag");
    assert_eq!(res.output_token_id, EOS_TOKEN_ID);
}

#[test]
fn test_r3_boundary_decode_without_kv_attach() {
    let mut engine = XrtDecodeEngine::new();
    engine.initialize("model.xclbin", Ok(true)).expect("Init");
    let result = engine.dispatch_decode_step(&request(1, 0, 0.0), "0", 1, &mut [], None);
    match result {
        Err(EngineError::InvalidArgument(msg)) => assert!(msg.contains("No KV cache attached")),
        other => panic!("Expected InvalidArgument, got {:?}", other),
    }
}

#[test]
fn test_r3_boundary_sequence_index_overflow() {
    let (mut engine, mut kv) = attached(4096);
    let result = engine.dispatch_decode_step(&request(1, 8192, 0.0), "0", 1, &mut kv, None);
    match result {
        Err(EngineError::InvalidArgument(msg)) => assert!(msg.contains("exceeds maximum context")),
        other => panic!("Expected InvalidArgument, got {:?}", other),
    }
}

#[test]
fn test_r3_boundary_negative_temperature() {
    let (mut engine, mut kv) = attached(4096);
    let result = engine.dispatch_decode_step(&request(1, 0, -1.5), "-1.5", 1, &mut kv, None);
    match result {
        Err(EngineError::InvalidArgument(msg)) => {
            assert!(msg.contains("negative"));
            assert_eq!(msg, "Temperature -1.5 cannot be negative");
        }
        other => panic!("Expected InvalidArgument, got {:?}", other),
    }
}

#[test]
fn test_r3_boundary_uninitialized_decode_engine() {
    let mut engine = XrtDecodeEngine::new();
    let result = engine.dispatch_decode_step(&request(1, 0, 0.0), "0", 1, &mut [], None);
    match result {
        Err(EngineError::InitFailed(msg)) => assert!(msg.contains("not initialized")),
        other => panic!("Expected InitFailed, got {:?}", other),
    }
}

#[test]
fn test_r3_boundary_zero_capacity_kv_cache() {
    let mut engine = XrtDecodeEngine::new();
    engine.initialize("model.xclbin", Ok(true)).expect("Init");
    match engine.attach_kv_cache(0, Ok(())) {
        Err(EngineError::InvalidArgument(msg)) => assert!(msg.contains("size cannot be 0")),
        other => panic!("Expected InvalidArgument, got {:?}", other),
    }
}

#[test]
fn test_r4_syncobj_create_and_destroy() {
    let mut mock = MockDeviceHarness::new();
    let handle = mock.create_syncobj();
    assert!(handle > 0);
    mock.destroy_syncobj(handle).expect("Destroy mock syncobj");
}

#[test]
fn test_r4_timeline_fence_wait_signaled() {
    let mut timeline = MockTimelineSyncobj::new(0);
    timeline.signal(5).expect("Signal 5");
    timeline.wait(5, 50 * MILLISECOND).expect("Wait 5 should succeed");
}

#[test]
fn test_r4_cross_device_fence_handoff() {
    let mut timeline = MockTimelineSyncobj::new(0);
    timeline.signal(1).expect("Prefill signal");
    assert_eq!(timeline.current_point(), 1);
    timeline.wait(1, 50 * MILLISECOND).expect("Decode wait");
    timeline.signal(2).expect("Decode step 1 signal");
    assert_eq!(timeline.current_point(), 2);
}

#[test]
fn test_r4_monotonic_timeline_progression() {
    let mut timeline = MockTimelineSyncobj::new(0);
    timeline.signal(10).expect("Signal 10");
    timeline.signal(20).expect("Signal 20");
    timeline.signal(30).expect("Signal 30");
    assert_eq!(timeline.current_point(), 30);
    timeline.wait(10, 10 * MILLISECOND).expect("Wait 10");
    timeline.wait(20, 10 * MILLISECOND).expect("Wait 20");
    timeline.wait(30, 10 * MILLISECOND).expect("Wait 30");
}

#[test]
fn test_r4_boundary_fence_timeout_expired() {
    let timeline = MockTimelineSyncobj::new(0);
    let res = timeline.wait(10, 10 * MILLISECOND);
    assert!(res.is_err(), "Expected timeout error on unsignaled point");
    assert_eq!(
        timeline.state.wait(10, 10 * MILLISECOND, 9_999_999),
        WaitStep::SleepFor(1),
        "Wait must block for at least requested timeout"
    );
}

#[test]
fn test_r4_boundary_non_monotonic_timeline_signal() {
    let mut timeline = MockTimelineSyncobj::new(10);
    let res = timeline.signal(5);
    assert!(res.is_err(), "Non-monotonic timeline point must return error");
    assert_eq!(timeline.current_point(), 10);
}

#[test]
fn test_r4_boundary_invalid_syncobj_handle() {
    let mut mock = MockDeviceHarness::new();
    let res_signal = mock.timeline_signal(99999, 1);
    assert!(res_signal.is_err(), "Expected error for invalid handle");
    let res_destroy = mock.destroy_syncobj(99999);
    assert!(res_destroy.is_err(), "Expected error destroying invalid handle");
}

#[test]
fn test_r4_boundary_timeline_wait_zero_timeout() {
    let timeline = MockTimelineSyncobj::new(0);
    let res = timeline.wait(1, 0);
    assert!(res.is_err(), "Zero timeout wait on unsignaled point must fail");
}

#[test]
fn test_r4_boundary_wait_with_wait_all_unsignaled() {
    let mut timeline = MockTimelineSyncobj::new(0);
    timeline.signal(1).expect("Signal 1");
    let res = timeline.wait(2, 5 * MILLISECOND);
    assert!(res.is_err(), "Waiting for future point must fail");
}

#[test]
fn test_r5_auto_fallback_detection() {
    let status = run_diagnostics(&SystemProbe {
        cpu_info: String::new(),
        has_render_node: true,
        has_kfd: false,
        has_accel: false,
        has_rocm: false,
        groups: String::new(),
    });
    println!(
        "Silicon probe status: amdgpu={}, amdxdna={}, full_silicon={}",
        status[1].status,
        status[3].status,
        status[1].status && status[3].status
    );
    assert!(status[1].status);
    assert_eq!(status[3].details, "Not found (Fallback to UAPI Mock)");
}

#[test]
fn test_r5_mock_uapi_ioctl_validation() {
    assert_eq!(std::mem::size_of::<drm_amdgpu_gem_create_in>(), 32);
    assert_eq!(std::mem::size_of::<drm_prime_handle>(), 12);
    assert_eq!(std::mem::size_of::<drm_syncobj_handle>(), 24);
    assert_eq!(std::mem::size_of::<drm_syncobj_timeline_wait>(), 48);
    assert_eq!(std::mem::size_of::<dma_buf_sync>(), 8);
}

#[test]
fn test_r5_mock_timeline_fence_state_machine() {
    let mut mock = MockDeviceHarness::new();
    let handle = mock.create_syncobj();
    mock.timeline_signal(handle, 10).expect("Signal 10");
    mock.timeline_wait(handle, 10, 50 * MILLISECOND).expect("Wait 10");
    let res = mock.timeline_wait(handle, 20, 10 * MILLISECOND);
    assert!(res.is_err(), "Expected timeout on unsignaled point");
    mock.destroy_syncobj(handle).expect("Destroy");
}

#[test]
fn test_r5_mock_dma_buf_sync_validation() {
    assert!(MockDeviceHarness::validate_sync_flags(DMA_BUF_SYNC_START | DMA_BUF_SYNC_READ).is_ok());
    assert!(MockDeviceHarness::validate_sync_flags(DMA_BUF_SYNC_END | DMA_BUF_SYNC_WRITE).is_ok());
    assert!(MockDeviceHarness::validate_sync_flags(DMA_BUF_SYNC_START | DMA_BUF_SYNC_RW).is_ok());

    assert!(MockDeviceHarness::validate_sync_flags(0).is_err());
    assert!(MockDeviceHarness::validate_sync_flags(0x1000).is_err());
    assert!(MockDeviceHarness::validate_sync_flags(DMA_BUF_SYNC_START | 0x8).is_err());
    assert!(MockDeviceHarness::validate_sync_flags(DMA_BUF_SYNC_READ | 0x8).is_err());
}

#[test]
fn test_r5_boundary_mock_corrupted_sync_flags() {
    let res = MockDeviceHarness::validate_sync_flags(0x8000_0000);
    assert!(res.is_err());
    let res2 = MockDeviceHarness::validate_sync_flags(0);
    assert!(res2.is_err());
}

#[test]
fn test_r5_boundary_mock_double_destroy_syncobj() {
    let mut mock = MockDeviceHarness::new();
    let handle = mock.create_syncobj();
    assert!(mock.destroy_syncobj(handle).is_ok());
    assert!(mock.destroy_syncobj(handle).is_err());
}

#[test]
fn test_r5_boundary_mock_invalid_timeline_query() {
    let mut mock = MockDeviceHarness::new();
    let res = mock.timeline_wait(8888, 1, 5 * MILLISECOND);
    assert!(res.is_err());
}

#[test]
fn test_t4_speculative_drafting_pipeline() {
    let engine = XrtDecodeEngine::new_with_backend(true);
    let candidate_tokens = engine.draft_tokens(4).expect("Draft candidate tokens");
    assert_eq!(candidate_tokens.len(), 4);
    let accepted_tokens =
        engine.verify_tokens(&candidate_tokens, 32768).expect("Verify candidate tokens");
    assert!(accepted_tokens > 0, "Expected at least 1 candidate token accepted");
    assert!(accepted_tokens <= candidate_tokens.len());
}

#[test]
fn test_t4_dynamic_sliding_window_kv_pruning() {
    let buffer_size = 65536;
    let (mut decode, mut kv) = attached(buffer_size);
    let current_index = 400;
    let window_size = 256;
    let pruned_start_offset = current_index - window_size;
    for b in kv[..pruned_start_offset * 128].iter_mut() {
        *b = 0;
    }
    let step_res = decode
        .dispatch_decode_step(&request(374, 401, 0.0), "0", 1, &mut kv, None)
        .expect("Step decode post-pruning");
    assert!(step_res.output_token_id > 0);
}
