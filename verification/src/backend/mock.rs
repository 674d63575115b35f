//! Emulated accelerator: the state behind the kernel interface, without a kernel.
//!
//! Buffers and fences are kept as plain numbers. File descriptors are made by the caller, who
//! hands in what the operating system said to the request for one.

use std::collections::HashMap;

use vstd::prelude::*;

use crate::backend::{DeviceType, Errno};
use crate::uapi::{
    drm_amdgpu_gem_create_in, AMDGPU_GEM_CREATE_COHERENT, AMDGPU_GEM_CREATE_CPU_ACCESS_REQUIRED,
    AMDGPU_GEM_DOMAIN_GTT, DMA_BUF_IOCTL_SYNC_NUM, DMA_BUF_SYNC_VALID_FLAGS_MASK,
    DRM_IOCTL_AMDGPU_GEM_CREATE_NUM, DRM_IOCTL_AMDXDNA_CREATE_BO_NUM,
    DRM_IOCTL_AMDXDNA_GET_BO_INFO_NUM, DRM_IOCTL_GEM_CLOSE_NUM, DRM_IOCTL_PRIME_FD_TO_HANDLE_NUM,
    DRM_IOCTL_PRIME_HANDLE_TO_FD_NUM, DRM_IOCTL_SYNCOBJ_CREATE_NUM, DRM_IOCTL_SYNCOBJ_DESTROY_NUM,
    DRM_IOCTL_SYNCOBJ_FD_TO_HANDLE_NUM, DRM_IOCTL_SYNCOBJ_HANDLE_TO_FD_NUM,
    DRM_IOCTL_SYNCOBJ_TIMELINE_SIGNAL_NUM, DRM_IOCTL_SYNCOBJ_TIMELINE_WAIT_NUM,
    DRM_IOCTL_SYNCOBJ_TRANSFER_NUM,
};

verus! {

broadcast use vstd::std_specs::hash::group_hash_axioms;

// ---------------------------------------------------------------------------
// Fences
// ---------------------------------------------------------------------------

/// Timeline fence: the highest point that was signalled.
#[derive(Debug, Clone, Copy, PartialEq, Eq, Structural)]
pub struct MockSyncobjState {
    pub timeline: u64,
}

/// What a waiter does next.
#[derive(Debug, Clone, Copy, PartialEq, Eq, Structural)]
pub enum WaitStep {
    /// The point was reached.
    Reached,
    /// The time is up.
    TimedOut,
    /// Sleep until the next signal.
    Sleep,
    /// Sleep until the next signal, at most so many nanoseconds.
    SleepFor(u64),
}

/// The greater of two points.
pub open spec fn later(a: u64, b: u64) -> u64 {
    if a >= b {
        a
    } else {
        b
    }
}

/// What a waiter does next, by the timeline, the point it waits for, its timeout in nanoseconds
/// (none where it is negative) and the time it has waited.
pub open spec fn wait_step(timeline: u64, point: u64, timeout: i64, elapsed: u64) -> WaitStep {
    if timeline >= point {
        WaitStep::Reached
    } else if timeout < 0 {
        WaitStep::Sleep
    } else if elapsed >= timeout {
        WaitStep::TimedOut
    } else {
        WaitStep::SleepFor((timeout - elapsed) as u64)
    }
}

impl MockSyncobjState {
    /// A fence at the given point.
    pub fn new(initial_point: u64) -> (r: MockSyncobjState)
        ensures
            r.timeline == initial_point,
    {
        MockSyncobjState { timeline: initial_point }
    }

    /// The highest point that was signalled.
    pub fn current_point(&self) -> (r: u64)
        ensures
            r == self.timeline,
    {
        self.timeline
    }

    /// Signals a point. A point below the highest changes nothing. True where waiters have to
    /// be woken.
    pub fn signal(&mut self, point: u64) -> (r: bool)
        ensures
            final(self).timeline == later(old(self).timeline, point),
            r == (point > old(self).timeline),
    {
        if point > self.timeline {
            self.timeline = point;
            true
        } else {
            false
        }
    }

    /// What a waiter for a point does next.
    pub fn wait(&self, point: u64, timeout_nsec: i64, elapsed_nsec: u64) -> (r: WaitStep)
        ensures
            r == wait_step(self.timeline, point, timeout_nsec, elapsed_nsec),
    {
        if self.timeline >= point {
            WaitStep::Reached
        } else if timeout_nsec < 0 {
            WaitStep::Sleep
        } else if elapsed_nsec >= timeout_nsec as u64 {
            WaitStep::TimedOut
        } else {
            WaitStep::SleepFor(timeout_nsec as u64 - elapsed_nsec)
        }
    }
}

// ---------------------------------------------------------------------------
// Devices
// ---------------------------------------------------------------------------

/// A buffer of the emulated device.
#[derive(Debug, Clone, Copy, PartialEq, Eq, Structural)]
pub struct MockGemBuffer {
    /// Descriptor of the memory that backs the buffer.
    pub memfd: i32,
    pub size: u64,
    pub alignment: u64,
    pub domains: u64,
    pub domain_flags: u64,
}

/// What emulated devices share: fences, and the descriptors under which fences and buffers were
/// exported.
#[derive(Debug)]
pub struct MockHub {
    /// All fences, by number.
    pub fences: Vec<MockSyncobjState>,
    /// The fence of an exported descriptor.
    pub fence_fds: HashMap<i32, usize>,
    /// The buffer size of an exported descriptor.
    pub dmabuf_fds: HashMap<i32, u64>,
}

/// Emulated accelerator.
#[derive(Debug)]
pub struct MockDeviceBackend {
    pub dev_type: DeviceType,
    pub next_gem_handle: u32,
    pub next_syncobj_handle: u32,
    pub gem_buffers: HashMap<u32, MockGemBuffer>,
    /// The fence of a handle.
    pub syncobjs: HashMap<u32, usize>,
}

/// A request to the device, with what the operating system said to the calls it takes.
#[derive(Debug)]
pub enum MockRequest {
    /// `memfd`: the memory made for the buffer.
    GemCreate { args: drm_amdgpu_gem_create_in, memfd: Result<i32, Errno> },
    GemClose { handle: u32 },
    /// `dup`: a duplicate of the buffer's descriptor.
    PrimeHandleToFd { handle: u32, dup: Result<i32, Errno> },
    /// `is_open`: whether the descriptor is one; `end`: where its contents end; `dup`: a
    /// duplicate of it.
    PrimeFdToHandle { fd: i32, is_open: bool, end: Result<u64, Errno>, dup: Result<i32, Errno> },
    /// `va_tbl`: the table that the argument points to, as its descriptor and entry count.
    CreateBo { va_tbl: Option<(i32, u32)> },
    GetBoInfo { handle: u32 },
    SyncobjCreate { flags: u32 },
    SyncobjDestroy { handle: u32 },
    /// `eventfd`: a descriptor made for the export.
    SyncobjHandleToFd { handle: u32, eventfd: Result<i32, Errno> },
    SyncobjFdToHandle { fd: i32 },
    TimelineSignal { handles: Vec<u32>, points: Vec<u64> },
    TimelineWait { handles: Vec<u32>, points: Vec<u64>, timeout_nsec: i64 },
    SyncobjTransfer { src_handle: u32, dst_handle: u32 },
    DmaBufSync { flags: u64 },
}

/// What the device replies.
#[derive(Debug, Clone, Copy, PartialEq, Eq, Structural)]
pub enum MockReply {
    Done,
    /// A new handle.
    Handle(u32),
    /// A new descriptor.
    Fd(i32),
    /// The memory of a closed buffer, which is to be closed too.
    Closed(Option<i32>),
    /// The addresses of a buffer.
    BoInfo { map_offset: u64, vaddr: u64, xdna_addr: u64 },
    /// The number of a fence that has to reach a point first.
    Blocked { fence: usize, point: u64 },
}

/// The request that a number stands for.
#[derive(Debug, Clone, Copy, PartialEq, Eq, Structural)]
pub enum RequestKind {
    GemCreate,
    GemClose,
    PrimeHandleToFd,
    PrimeFdToHandle,
    CreateBo,
    GetBoInfo,
    SyncobjCreate,
    SyncobjDestroy,
    SyncobjHandleToFd,
    SyncobjFdToHandle,
    TimelineSignal,
    TimelineWait,
    SyncobjTransfer,
    DmaBufSync,
}

/// The request that a number stands for.
pub open spec fn kind_of(request: u64) -> Option<RequestKind> {
    if request == DRM_IOCTL_AMDGPU_GEM_CREATE_NUM {
        Some(RequestKind::GemCreate)
    } else if request == DRM_IOCTL_GEM_CLOSE_NUM {
        Some(RequestKind::GemClose)
    } else if request == DRM_IOCTL_PRIME_HANDLE_TO_FD_NUM {
        Some(RequestKind::PrimeHandleToFd)
    } else if request == DRM_IOCTL_PRIME_FD_TO_HANDLE_NUM {
        Some(RequestKind::PrimeFdToHandle)
    } else if request == DRM_IOCTL_AMDXDNA_CREATE_BO_NUM {
        Some(RequestKind::CreateBo)
    } else if request == DRM_IOCTL_AMDXDNA_GET_BO_INFO_NUM {
        Some(RequestKind::GetBoInfo)
    } else if request == DRM_IOCTL_SYNCOBJ_CREATE_NUM {
        Some(RequestKind::SyncobjCreate)
    } else if request == DRM_IOCTL_SYNCOBJ_DESTROY_NUM {
        Some(RequestKind::SyncobjDestroy)
    } else if request == DRM_IOCTL_SYNCOBJ_HANDLE_TO_FD_NUM {
        Some(RequestKind::SyncobjHandleToFd)
    } else if request == DRM_IOCTL_SYNCOBJ_FD_TO_HANDLE_NUM {
        Some(RequestKind::SyncobjFdToHandle)
    } else if request == DRM_IOCTL_SYNCOBJ_TIMELINE_SIGNAL_NUM {
        Some(RequestKind::TimelineSignal)
    } else if request == DRM_IOCTL_SYNCOBJ_TIMELINE_WAIT_NUM {
        Some(RequestKind::TimelineWait)
    } else if request == DRM_IOCTL_SYNCOBJ_TRANSFER_NUM {
        Some(RequestKind::SyncobjTransfer)
    } else if request == DMA_BUF_IOCTL_SYNC_NUM {
        Some(RequestKind::DmaBufSync)
    } else {
        None
    }
}

/// The request that a number stands for. No argument at all is a fault; a number that stands
/// for nothing is not a request.
pub fn request_kind(request: u64, has_argument: bool) -> (r: Result<RequestKind, Errno>)
    ensures
        match r {
            Ok(k) => has_argument && kind_of(request) == Some(k),
            Err(e) => if has_argument {
                kind_of(request) is None && e == Errno::ENOTTY
            } else {
                e == Errno::EFAULT
            },
        },
{
    if !has_argument {
        return Err(Errno::EFAULT);
    }
    if request == DRM_IOCTL_AMDGPU_GEM_CREATE_NUM {
        Ok(RequestKind::GemCreate)
    } else if request == DRM_IOCTL_GEM_CLOSE_NUM {
        Ok(RequestKind::GemClose)
    } else if request == DRM_IOCTL_PRIME_HANDLE_TO_FD_NUM {
        Ok(RequestKind::PrimeHandleToFd)
    } else if request == DRM_IOCTL_PRIME_FD_TO_HANDLE_NUM {
        Ok(RequestKind::PrimeFdToHandle)
    } else if request == DRM_IOCTL_AMDXDNA_CREATE_BO_NUM {
        Ok(RequestKind::CreateBo)
    } else if request == DRM_IOCTL_AMDXDNA_GET_BO_INFO_NUM {
        Ok(RequestKind::GetBoInfo)
    } else if request == DRM_IOCTL_SYNCOBJ_CREATE_NUM {
        Ok(RequestKind::SyncobjCreate)
    } else if request == DRM_IOCTL_SYNCOBJ_DESTROY_NUM {
        Ok(RequestKind::SyncobjDestroy)
    } else if request == DRM_IOCTL_SYNCOBJ_HANDLE_TO_FD_NUM {
        Ok(RequestKind::SyncobjHandleToFd)
    } else if request == DRM_IOCTL_SYNCOBJ_FD_TO_HANDLE_NUM {
        Ok(RequestKind::SyncobjFdToHandle)
    } else if request == DRM_IOCTL_SYNCOBJ_TIMELINE_SIGNAL_NUM {
        Ok(RequestKind::TimelineSignal)
    } else if request == DRM_IOCTL_SYNCOBJ_TIMELINE_WAIT_NUM {
        Ok(RequestKind::TimelineWait)
    } else if request == DRM_IOCTL_SYNCOBJ_TRANSFER_NUM {
        Ok(RequestKind::SyncobjTransfer)
    } else if request == DMA_BUF_IOCTL_SYNC_NUM {
        Ok(RequestKind::DmaBufSync)
    } else {
        Err(Errno::ENOTTY)
    }
}

// ---------------------------------------------------------------------------
// State as mathematical values
// ---------------------------------------------------------------------------

/// State of an emulated device.
pub struct Device {
    pub dev_type: DeviceType,
    pub next_gem: u32,
    pub next_syncobj: u32,
    pub buffers: Map<u32, MockGemBuffer>,
    pub syncobjs: Map<u32, usize>,
}

/// State that emulated devices share.
pub struct Hub {
    pub points: Seq<u64>,
    pub fence_fds: Map<i32, usize>,
    pub dmabuf_fds: Map<i32, u64>,
}

impl View for MockDeviceBackend {
    type V = Device;

    open spec fn view(&self) -> Device {
        Device {
            dev_type: self.dev_type,
            next_gem: self.next_gem_handle,
            next_syncobj: self.next_syncobj_handle,
            buffers: self.gem_buffers@,
            syncobjs: self.syncobjs@,
        }
    }
}

impl View for MockHub {
    type V = Hub;

    open spec fn view(&self) -> Hub {
        Hub {
            points: self.fences@.map_values(|s: MockSyncobjState| s.timeline),
            fence_fds: self.fence_fds@,
            dmabuf_fds: self.dmabuf_fds@,
        }
    }
}

/// Every handle and every exported descriptor of a fence leads to a fence.
pub open spec fn consistent(d: Device, h: Hub) -> bool {
    &&& forall|k: u32| d.syncobjs.contains_key(k) ==> #[trigger] d.syncobjs[k] < h.points.len()
    &&& forall|k: i32| h.fence_fds.contains_key(k) ==> #[trigger] h.fence_fds[k] < h.points.len()
}

/// What a request comes to: the device and the hub after it, and the reply.
pub struct Step {
    pub device: Device,
    pub hub: Hub,
    pub reply: Result<MockReply, Errno>,
}

/// The handle after `h`.
pub open spec fn next_handle(h: u32) -> u32 {
    if h == u32::MAX {
        0
    } else {
        (h + 1) as u32
    }
}

/// A request for a buffer is in order: a size that is a positive multiple of 64, an alignment
/// that is a multiple of 64 where one is given, and memory that devices can share.
pub open spec fn gem_request_ok(a: drm_amdgpu_gem_create_in) -> bool {
    a.bo_size != 0 && a.bo_size % 64 == 0 && a.alignment % 64 == 0 && (a.domains
        & AMDGPU_GEM_DOMAIN_GTT) != 0
}

/// The reply to a request that changes nothing.
pub open spec fn unchanged(d: Device, h: Hub, reply: Result<MockReply, Errno>) -> Step {
    Step { device: d, hub: h, reply }
}

/// Adds a buffer under the next handle.
pub open spec fn add_buffer(d: Device, h: Hub, b: MockGemBuffer) -> Step {
    Step {
        device: Device {
            next_gem: next_handle(d.next_gem),
            buffers: d.buffers.insert(d.next_gem, b),
            ..d
        },
        hub: h,
        reply: Ok(MockReply::Handle(d.next_gem)),
    }
}

/// Adds a handle for a fence.
pub open spec fn add_syncobj(d: Device, h: Hub, fence: usize) -> Step {
    Step {
        device: Device {
            next_syncobj: next_handle(d.next_syncobj),
            syncobjs: d.syncobjs.insert(d.next_syncobj, fence),
            ..d
        },
        hub: h,
        reply: Ok(MockReply::Handle(d.next_syncobj)),
    }
}

/// Signals a point of one fence.
pub open spec fn signal_fence(points: Seq<u64>, fence: int, point: u64) -> Seq<u64> {
    points.update(fence, later(points[fence], point))
}

/// Signals the points of handles in turn, up to the first handle that there is not.
pub open spec fn signal_all(
    d: Device,
    points: Seq<u64>,
    handles: Seq<u32>,
    targets: Seq<u64>,
    n: nat,
) -> Seq<u64>
    decreases n,
{
    if n == 0 {
        points
    } else {
        let before = signal_all(d, points, handles, targets, (n - 1) as nat);
        if d.syncobjs.contains_key(handles[n - 1]) && all_known(d, handles, (n - 1) as nat) {
            signal_fence(before, d.syncobjs[handles[n - 1]] as int, targets[n - 1])
        } else {
            before
        }
    }
}

/// The first `n` handles all lead to fences.
pub open spec fn all_known(d: Device, handles: Seq<u32>, n: nat) -> bool {
    forall|i: int| 0 <= i < n ==> d.syncobjs.contains_key(#[trigger] handles[i])
}

/// What waiting comes to: blocked by the first of the fences from `i` on that has not reached
/// its point, unless the wait has no time.
pub open spec fn wait_reply(
    d: Device,
    h: Hub,
    handles: Seq<u32>,
    targets: Seq<u64>,
    timeout: i64,
    i: nat,
) -> Result<MockReply, Errno>
    decreases handles.len() - i,
{
    if i >= handles.len() {
        Ok(MockReply::Done)
    } else {
        let fence = d.syncobjs[handles[i as int]];
        if h.points[fence as int] >= targets[i as int] {
            wait_reply(d, h, handles, targets, timeout, i + 1)
        } else if timeout == 0 {
            Err(Errno::ETIMEDOUT)
        } else {
            Ok(MockReply::Blocked { fence, point: targets[i as int] })
        }
    }
}

/// A table of addresses names a descriptor and entries too.
pub open spec fn is_ambiguous(va_tbl: Option<(i32, u32)>) -> bool {
    match va_tbl {
        Some((fd, entries)) => fd != 0 && entries != 0,
        None => false,
    }
}

/// What a request comes to.
pub open spec fn step(d: Device, h: Hub, request: MockRequest) -> Step {
    match request {
        MockRequest::GemCreate { args, memfd } => if !gem_request_ok(args) {
            unchanged(d, h, Err(Errno::EINVAL))
        } else {
            match memfd {
                Err(e) => unchanged(d, h, Err(e)),
                Ok(fd) => add_buffer(
                    d,
                    h,
                    MockGemBuffer {
                        memfd: fd,
                        size: args.bo_size,
                        alignment: args.alignment,
                        domains: args.domains,
                        domain_flags: args.domain_flags,
                    },
                ),
            }
        },
        MockRequest::GemClose { handle } => Step {
            device: Device { buffers: d.buffers.remove(handle), ..d },
            hub: h,
            reply: Ok(
                MockReply::Closed(
                    if d.buffers.contains_key(handle) {
                        Some(d.buffers[handle].memfd)
                    } else {
                        None
                    },
                ),
            ),
        },
        MockRequest::PrimeHandleToFd { handle, dup } => if !d.buffers.contains_key(handle) {
            unchanged(d, h, Err(Errno::ENOENT))
        } else {
            match dup {
                Err(e) => unchanged(d, h, Err(e)),
                Ok(fd) => Step {
                    device: d,
                    hub: Hub {
                        dmabuf_fds: h.dmabuf_fds.insert(fd, d.buffers[handle].size),
                        ..h
                    },
                    reply: Ok(MockReply::Fd(fd)),
                },
            }
        },
        MockRequest::PrimeFdToHandle { fd, is_open, end, dup } => if !is_open {
            unchanged(d, h, Err(Errno::EBADF))
        } else if !h.dmabuf_fds.contains_key(fd) && end is Err {
            unchanged(d, h, Err(end->Err_0))
        } else {
            match dup {
                Err(e) => unchanged(d, h, Err(e)),
                Ok(memfd) => add_buffer(
                    d,
                    h,
                    MockGemBuffer {
                        memfd,
                        size: if h.dmabuf_fds.contains_key(fd) {
                            h.dmabuf_fds[fd]
                        } else {
                            end->Ok_0
                        },
                        alignment: 64,
                        domains: AMDGPU_GEM_DOMAIN_GTT,
                        domain_flags: AMDGPU_GEM_CREATE_CPU_ACCESS_REQUIRED
                            | AMDGPU_GEM_CREATE_COHERENT,
                    },
                ),
            }
        },
        MockRequest::CreateBo { va_tbl } => if is_ambiguous(va_tbl) {
            unchanged(d, h, Err(Errno::EINVAL))
        } else {
            Step {
                device: Device { next_gem: next_handle(d.next_gem), ..d },
                hub: h,
                reply: Ok(MockReply::Handle(d.next_gem)),
            }
        },
        MockRequest::GetBoInfo { handle } => if handle == 0 {
            unchanged(d, h, Err(Errno::EINVAL))
        } else {
            unchanged(
                d,
                h,
                Ok(
                    MockReply::BoInfo {
                        map_offset: (0x1_0000_0000 + handle * 0x10_0000) as u64,
                        vaddr: 0,
                        xdna_addr: (0x2_0000_0000 + handle * 0x10_0000) as u64,
                    },
                ),
            )
        },
        MockRequest::SyncobjCreate { flags } => add_syncobj(
            d,
            Hub {
                points: h.points.push(
                    if flags % 2 == 1 {
                        1
                    } else {
                        0
                    },
                ),
                ..h
            },
            h.points.len() as usize,
        ),
        MockRequest::SyncobjDestroy { handle } => Step {
            device: Device { syncobjs: d.syncobjs.remove(handle), ..d },
            hub: h,
            reply: Ok(MockReply::Done),
        },
        MockRequest::SyncobjHandleToFd { handle, eventfd } => if !d.syncobjs.contains_key(handle) {
            unchanged(d, h, Err(Errno::ENOENT))
        } else {
            match eventfd {
                Err(e) => unchanged(d, h, Err(e)),
                Ok(fd) => Step {
                    device: d,
                    hub: Hub { fence_fds: h.fence_fds.insert(fd, d.syncobjs[handle]), ..h },
                    reply: Ok(MockReply::Fd(fd)),
                },
            }
        },
        MockRequest::SyncobjFdToHandle { fd } => if h.fence_fds.contains_key(fd) {
            add_syncobj(d, h, h.fence_fds[fd])
        } else {
            unchanged(d, h, Err(Errno::ENOENT))
        },
        MockRequest::TimelineSignal { handles, points } => Step {
            device: d,
            hub: Hub {
                points: signal_all(d, h.points, handles@, points@, handles@.len()),
                ..h
            },
            reply: if all_known(d, handles@, handles@.len()) {
                Ok(MockReply::Done)
            } else {
                Err(Errno::ENOENT)
            },
        },
        MockRequest::TimelineWait { handles, points, timeout_nsec } => unchanged(
            d,
            h,
            if all_known(d, handles@, handles@.len()) {
                wait_reply(d, h, handles@, points@, timeout_nsec, 0)
            } else {
                Err(Errno::ENOENT)
            },
        ),
        MockRequest::SyncobjTransfer { src_handle, dst_handle } => if d.syncobjs.contains_key(
            src_handle,
        ) && d.syncobjs.contains_key(dst_handle) {
            Step {
                device: d,
                hub: Hub {
                    points: signal_fence(
                        h.points,
                        d.syncobjs[dst_handle] as int,
                        h.points[d.syncobjs[src_handle] as int],
                    ),
                    ..h
                },
                reply: Ok(MockReply::Done),
            }
        } else {
            unchanged(d, h, Err(Errno::ENOENT))
        },
        MockRequest::DmaBufSync { flags } => unchanged(
            d,
            h,
            if (flags & !DMA_BUF_SYNC_VALID_FLAGS_MASK) != 0 {
                Err(Errno::EINVAL)
            } else {
                Ok(MockReply::Done)
            },
        ),
    }
}

/// A request names as many points as handles.
pub open spec fn request_ok(request: MockRequest) -> bool {
    match request {
        MockRequest::TimelineSignal { handles, points } => handles@.len() == points@.len(),
        MockRequest::TimelineWait { handles, points, .. } => handles@.len() == points@.len(),
        _ => true,
    }
}

// ---------------------------------------------------------------------------
// Execution
// ---------------------------------------------------------------------------

impl MockHub {
    /// A hub without fences and exports.
    pub fn new() -> (r: MockHub)
        ensures
            r@.points == Seq::<u64>::empty(),
            r@.fence_fds == Map::<i32, usize>::empty(),
            r@.dmabuf_fds == Map::<i32, u64>::empty(),
    {
        let hub = MockHub {
            fences: Vec::new(),
            fence_fds: HashMap::new(),
            dmabuf_fds: HashMap::new(),
        };
        assert(hub@.points =~= Seq::<u64>::empty());
        hub
    }

    /// Signals a point of one fence.
    fn signal(&mut self, fence: usize, point: u64)
        requires
            fence < old(self).fences@.len(),
        ensures
            final(self)@.points == signal_fence(old(self)@.points, fence as int, point),
            final(self)@.fence_fds == old(self)@.fence_fds,
            final(self)@.dmabuf_fds == old(self)@.dmabuf_fds,
    {
        let mut state: MockSyncobjState = self.fences[fence];
        let _woken = state.signal(point);
        let ghost before = self@.points;
        self.fences.set(fence, state);
        assert(self@.points =~= signal_fence(before, fence as int, point));
    }
}

/// The handle after `h`.
fn handle_after(h: u32) -> (r: u32)
    ensures
        r == next_handle(h),
{
    if h == u32::MAX {
        0
    } else {
        h + 1
    }
}

/// Whether a request for a buffer is in order.
pub fn check_gem_request(a: &drm_amdgpu_gem_create_in) -> (r: Result<(), Errno>)
    ensures
        r == if gem_request_ok(*a) {
            Ok::<(), Errno>(())
        } else {
            Err(Errno::EINVAL)
        },
{
    if a.bo_size == 0 || a.bo_size % 64 != 0 {
        return Err(Errno::EINVAL);
    }
    if a.alignment != 0 && a.alignment % 64 != 0 {
        return Err(Errno::EINVAL);
    }
    if (a.domains & AMDGPU_GEM_DOMAIN_GTT) == 0 {
        return Err(Errno::EINVAL);
    }
    Ok(())
}

impl MockDeviceBackend {
    /// An emulated device of the given kind, without buffers and fences.
    pub fn new(dev_type: DeviceType) -> (r: MockDeviceBackend)
        ensures
            r@ == new_device(dev_type),
    {
        MockDeviceBackend {
            dev_type,
            next_gem_handle: 1,
            next_syncobj_handle: 1,
            gem_buffers: HashMap::new(),
            syncobjs: HashMap::new(),
        }
    }

    /// An emulated GPU.
    pub fn new_gpu() -> (r: MockDeviceBackend)
        ensures
            r@ == new_device(DeviceType::Gpu),
    {
        Self::new(DeviceType::Gpu)
    }

    /// An emulated NPU.
    pub fn new_npu() -> (r: MockDeviceBackend)
        ensures
            r@ == new_device(DeviceType::Npu),
    {
        Self::new(DeviceType::Npu)
    }

    /// An emulated device is no hardware.
    pub fn is_mock(&self) -> (r: bool)
        ensures
            r,
    {
        true
    }

    /// The kind of the device.
    pub fn device_type(&self) -> (r: DeviceType)
        ensures
            r == self@.dev_type,
    {
        self.dev_type
    }

    fn fence_of(&self, handle: u32) -> (r: Option<usize>)
        ensures
            r == (if self@.syncobjs.contains_key(handle) {
                Some(self@.syncobjs[handle])
            } else {
                None
            }),
    {
        match self.syncobjs.get(&handle) {
            Some(f) => Some(*f),
            None => None,
        }
    }

    fn insert_buffer(&mut self, b: MockGemBuffer) -> (r: u32)
        ensures
            r == old(self)@.next_gem,
            final(self)@ == (Device {
                next_gem: next_handle(old(self)@.next_gem),
                buffers: old(self)@.buffers.insert(r, b),
                ..old(self)@
            }),
    {
        let handle: u32 = self.next_gem_handle;
        self.next_gem_handle = handle_after(handle);
        self.gem_buffers.insert(handle, b);
        handle
    }

    fn insert_syncobj(&mut self, fence: usize) -> (r: u32)
        ensures
            r == old(self)@.next_syncobj,
            final(self)@ == (Device {
                next_syncobj: next_handle(old(self)@.next_syncobj),
                syncobjs: old(self)@.syncobjs.insert(r, fence),
                ..old(self)@
            }),
    {
        let handle: u32 = self.next_syncobj_handle;
        self.next_syncobj_handle = handle_after(handle);
        self.syncobjs.insert(handle, fence);
        handle
    }

    /// Signals points of fences in turn, up to the first handle that there is not.
    fn signal_points(&self, hub: &mut MockHub, handles: &[u32], points: &[u64]) -> (r: Result<
        MockReply,
        Errno,
    >)
        requires
            consistent(self@, old(hub)@),
            handles@.len() == points@.len(),
        ensures
            final(hub)@ == (Hub {
                points: signal_all(
                    self@,
                    old(hub)@.points,
                    handles@,
                    points@,
                    handles@.len(),
                ),
                ..old(hub)@
            }),
            r == if all_known(self@, handles@, handles@.len()) {
                Ok::<MockReply, Errno>(MockReply::Done)
            } else {
                Err(Errno::ENOENT)
            },
    {
        let mut i: usize = 0;
        while i < handles.len()
            invariant
                i <= handles@.len(),
                handles@.len() == points@.len(),
                consistent(self@, old(hub)@),
                all_known(self@, handles@, i as nat),
                hub@.points == signal_all(
                    self@,
                    old(hub)@.points,
                    handles@,
                    points@,
                    i as nat,
                ),
                hub@.points.len() == old(hub)@.points.len(),
                hub@.fence_fds == old(hub)@.fence_fds,
                hub@.dmabuf_fds == old(hub)@.dmabuf_fds,
            decreases handles@.len() - i,
        {
            match self.fence_of(handles[i]) {
                Some(f) => {
                    hub.signal(f, points[i]);
                },
                None => {
                    proof {
                        lemma_signal_stops(
                            self@,
                            old(hub)@.points,
                            handles@,
                            points@,
                            i as nat,
                            handles@.len(),
                        );
                    }
                    return Err(Errno::ENOENT);
                },
            }
            i = i + 1;
        }
        Ok(MockReply::Done)
    }

    /// Whether fences have reached their points, or which of them blocks.
    fn check_points(&self, hub: &MockHub, handles: &[u32], points: &[u64], timeout_nsec: i64) -> (r:
        Result<MockReply, Errno>)
        requires
            consistent(self@, hub@),
            handles@.len() == points@.len(),
        ensures
            r == if all_known(self@, handles@, handles@.len()) {
                wait_reply(self@, hub@, handles@, points@, timeout_nsec, 0)
            } else {
                Err(Errno::ENOENT)
            },
    {
        let mut fences: Vec<usize> = Vec::new();
        let mut i: usize = 0;
        while i < handles.len()
            invariant
                i <= handles@.len(),
                fences@.len() == i,
                all_known(self@, handles@, i as nat),
                forall|k: int| 0 <= k < i ==> #[trigger] fences@[k] == self@.syncobjs[handles@[k]],
            decreases handles@.len() - i,
        {
            match self.fence_of(handles[i]) {
                Some(f) => {
                    fences.push(f);
                },
                None => {
                    return Err(Errno::ENOENT);
                },
            }
            i = i + 1;
        }
        let mut k: usize = 0;
        while k < fences.len()
            invariant
                k <= fences@.len(),
                fences@.len() == handles@.len(),
                handles@.len() == points@.len(),
                consistent(self@, hub@),
                all_known(self@, handles@, handles@.len()),
                forall|j: int|
                    0 <= j < fences@.len() ==> #[trigger] fences@[j] == self@.syncobjs[handles@[j]],
                wait_reply(self@, hub@, handles@, points@, timeout_nsec, k as nat) == wait_reply(
                    self@,
                    hub@,
                    handles@,
                    points@,
                    timeout_nsec,
                    0,
                ),
            decreases fences@.len() - k,
        {
            let f: usize = fences[k];
            assert(self@.syncobjs.contains_key(handles@[k as int]));
            assert(f < hub@.points.len());
            let state: MockSyncobjState = hub.fences[f];
            assert(hub@.points[f as int] == state.timeline);
            match state.wait(points[k], timeout_nsec, 0) {
                WaitStep::Reached => {},
                WaitStep::TimedOut => {
                    return Err(Errno::ETIMEDOUT);
                },
                _ => {
                    return Ok(MockReply::Blocked { fence: f, point: points[k] });
                },
            }
            k = k + 1;
        }
        Ok(MockReply::Done)
    }

    /// Serves a request.
    pub fn ioctl(&mut self, hub: &mut MockHub, request: &MockRequest) -> (r: Result<
        MockReply,
        Errno,
    >)
        requires
            consistent(old(self)@, old(hub)@),
            request_ok(*request),
        ensures
            final(self)@ == step(old(self)@, old(hub)@, *request).device,
            final(hub)@ == step(old(self)@, old(hub)@, *request).hub,
            r == step(old(self)@, old(hub)@, *request).reply,
            consistent(final(self)@, final(hub)@),
    {
        proof {
            law_requests_keep_handles_valid(self@, hub@, *request);
            assert(hub.fences@.len() == hub.fences.len());
        }
        match request {
            MockRequest::GemCreate { args, memfd } => {
                match check_gem_request(args) {
                    Err(e) => Err(e),
                    Ok(_) => match memfd {
                        Err(e) => Err(*e),
                        Ok(fd) => {
                            let handle: u32 = self.insert_buffer(
                                MockGemBuffer {
                                    memfd: *fd,
                                    size: args.bo_size,
                                    alignment: args.alignment,
                                    domains: args.domains,
                                    domain_flags: args.domain_flags,
                                },
                            );
                            Ok(MockReply::Handle(handle))
                        },
                    },
                }
            },
            MockRequest::GemClose { handle } => {
                match self.gem_buffers.remove(handle) {
                    Some(b) => Ok(MockReply::Closed(Some(b.memfd))),
                    None => Ok(MockReply::Closed(None)),
                }
            },
            MockRequest::PrimeHandleToFd { handle, dup } => {
                match self.gem_buffers.get(handle) {
                    None => Err(Errno::ENOENT),
                    Some(b) => match dup {
                        Err(e) => Err(*e),
                        Ok(fd) => {
                            hub.dmabuf_fds.insert(*fd, b.size);
                            Ok(MockReply::Fd(*fd))
                        },
                    },
                }
            },
            MockRequest::PrimeFdToHandle { fd, is_open, end, dup } => {
                if !*is_open {
                    return Err(Errno::EBADF);
                }
                let size: u64 = match hub.dmabuf_fds.get(fd) {
                    Some(s) => *s,
                    None => match end {
                        Ok(n) => *n,
                        Err(e) => {
                            return Err(*e);
                        },
                    },
                };
                match dup {
                    Err(e) => Err(*e),
                    Ok(memfd) => {
                        let handle: u32 = self.insert_buffer(
                            MockGemBuffer {
                                memfd: *memfd,
                                size,
                                alignment: 64,
                                domains: AMDGPU_GEM_DOMAIN_GTT,
                                domain_flags: AMDGPU_GEM_CREATE_CPU_ACCESS_REQUIRED
                                    | AMDGPU_GEM_CREATE_COHERENT,
                            },
                        );
                        Ok(MockReply::Handle(handle))
                    },
                }
            },
            MockRequest::CreateBo { va_tbl } => {
                match va_tbl {
                    Some((fd, entries)) => {
                        if *fd != 0 && *entries != 0 {
                            return Err(Errno::EINVAL);
                        }
                    },
                    None => {},
                }
                let handle: u32 = self.next_gem_handle;
                self.next_gem_handle = handle_after(handle);
                Ok(MockReply::Handle(handle))
            },
            MockRequest::GetBoInfo { handle } => {
                if *handle == 0 {
                    return Err(Errno::EINVAL);
                }
                let slot: u64 = *handle as u64 * 0x10_0000;
                Ok(
                    MockReply::BoInfo {
                        map_offset: 0x1_0000_0000 + slot,
                        vaddr: 0,
                        xdna_addr: 0x2_0000_0000 + slot,
                    },
                )
            },
            MockRequest::SyncobjCreate { flags } => {
                let point: u64 = if *flags % 2 == 1 {
                    1
                } else {
                    0
                };
                let fence: usize = hub.fences.len();
                let ghost before = hub@;
                hub.fences.push(MockSyncobjState::new(point));
                assert(hub@.points =~= before.points.push(point));
                let handle: u32 = self.insert_syncobj(fence);
                Ok(MockReply::Handle(handle))
            },
            MockRequest::SyncobjDestroy { handle } => {
                let _gone = self.syncobjs.remove(handle);
                Ok(MockReply::Done)
            },
            MockRequest::SyncobjHandleToFd { handle, eventfd } => {
                match self.fence_of(*handle) {
                    None => Err(Errno::ENOENT),
                    Some(f) => match eventfd {
                        Err(e) => Err(*e),
                        Ok(fd) => {
                            hub.fence_fds.insert(*fd, f);
                            Ok(MockReply::Fd(*fd))
                        },
                    },
                }
            },
            MockRequest::SyncobjFdToHandle { fd } => {
                match hub.fence_fds.get(fd) {
                    None => Err(Errno::ENOENT),
                    Some(f) => {
                        let handle: u32 = self.insert_syncobj(*f);
                        Ok(MockReply::Handle(handle))
                    },
                }
            },
            MockRequest::TimelineSignal { handles, points } => self.signal_points(
                hub,
                handles.as_slice(),
                points.as_slice(),
            ),
            MockRequest::TimelineWait { handles, points, timeout_nsec } => self.check_points(
                hub,
                handles.as_slice(),
                points.as_slice(),
                *timeout_nsec,
            ),
            MockRequest::SyncobjTransfer { src_handle, dst_handle } => {
                match (self.fence_of(*src_handle), self.fence_of(*dst_handle)) {
                    (Some(src), Some(dst)) => {
                        let point: u64 = hub.fences[src].current_point();
                        hub.signal(dst, point);
                        Ok(MockReply::Done)
                    },
                    _ => Err(Errno::ENOENT),
                }
            },
            MockRequest::DmaBufSync { flags } => {
                if (*flags & !DMA_BUF_SYNC_VALID_FLAGS_MASK) != 0 {
                    Err(Errno::EINVAL)
                } else {
                    Ok(MockReply::Done)
                }
            },
        }
    }
}

/// A device without buffers and fences.
pub open spec fn new_device(dev_type: DeviceType) -> Device {
    Device {
        dev_type,
        next_gem: 1,
        next_syncobj: 1,
        buffers: Map::empty(),
        syncobjs: Map::empty(),
    }
}

/// Nothing is signalled behind the first handle that there is not.
proof fn lemma_signal_stops(
    d: Device,
    points: Seq<u64>,
    handles: Seq<u32>,
    targets: Seq<u64>,
    i: nat,
    n: nat,
)
    requires
        i < n <= handles.len(),
        !d.syncobjs.contains_key(handles[i as int]),
    ensures
        signal_all(d, points, handles, targets, n) == signal_all(d, points, handles, targets, i),
        !all_known(d, handles, n),
    decreases n - i,
{
    if n - 1 > i {
        lemma_signal_stops(d, points, handles, targets, i, (n - 1) as nat);
    }
}

proof fn lemma_signal_all_len(
    d: Device,
    points: Seq<u64>,
    handles: Seq<u32>,
    targets: Seq<u64>,
    n: nat,
)
    requires
        forall|k: u32| d.syncobjs.contains_key(k) ==> #[trigger] d.syncobjs[k] < points.len(),
    ensures
        signal_all(d, points, handles, targets, n).len() == points.len(),
    decreases n,
{
    if n > 0 {
        lemma_signal_all_len(d, points, handles, targets, (n - 1) as nat);
    }
}

/// A request keeps handles and descriptors leading to fences.
pub proof fn law_requests_keep_handles_valid(d: Device, h: Hub, request: MockRequest)
    requires
        consistent(d, h),
        h.points.len() <= usize::MAX,
    ensures
        consistent(step(d, h, request).device, step(d, h, request).hub),
{
    match request {
        MockRequest::TimelineSignal { handles, points } => {
            lemma_signal_all_len(d, h.points, handles@, points@, handles@.len());
        },
        _ => {},
    }
}

// ---------------------------------------------------------------------------
// Laws
// ---------------------------------------------------------------------------

/// Signalling raises fences or leaves them, and brings each to its point.
proof fn lemma_signal_all_raises(
    d: Device,
    points: Seq<u64>,
    handles: Seq<u32>,
    targets: Seq<u64>,
    n: nat,
)
    requires
        forall|k: u32| d.syncobjs.contains_key(k) ==> #[trigger] d.syncobjs[k] < points.len(),
        n <= handles.len(),
    ensures
        signal_all(d, points, handles, targets, n).len() == points.len(),
        forall|f: int|
            0 <= f < points.len() ==> #[trigger] signal_all(d, points, handles, targets, n)[f]
                >= points[f],
        all_known(d, handles, n) ==> forall|i: int|
            0 <= i < n ==> signal_all(
                d,
                points,
                handles,
                targets,
                n,
            )[d.syncobjs[#[trigger] handles[i]] as int] >= targets[i],
    decreases n,
{
    lemma_signal_all_len(d, points, handles, targets, n);
    if n > 0 {
        lemma_signal_all_raises(d, points, handles, targets, (n - 1) as nat);
        let before = signal_all(d, points, handles, targets, (n - 1) as nat);
        let after = signal_all(d, points, handles, targets, n);
        assert forall|f: int| 0 <= f < points.len() implies #[trigger] after[f] >= points[f] by {
            assert(before[f] >= points[f]);
        }
        if all_known(d, handles, n) {
            assert(all_known(d, handles, (n - 1) as nat));
            assert(d.syncobjs.contains_key(handles[n - 1]));
            assert forall|i: int| 0 <= i < n implies after[d.syncobjs[#[trigger] handles[i]] as int]
                >= targets[i] by {
                assert(d.syncobjs.contains_key(handles[i]));
                let f = d.syncobjs[handles[i]] as int;
                if i < n - 1 {
                    assert(before[f] >= targets[i]);
                }
            }
        }
    }
}

/// A fence never goes back, whatever is requested, and none disappears.
pub proof fn law_fences_never_go_back(d: Device, h: Hub, request: MockRequest, f: int)
    requires
        consistent(d, h),
        0 <= f < h.points.len(),
    ensures
        f < step(d, h, request).hub.points.len(),
        step(d, h, request).hub.points[f] >= h.points[f],
{
    match request {
        MockRequest::TimelineSignal { handles, points } => {
            lemma_signal_all_raises(d, h.points, handles@, points@, handles@.len());
        },
        _ => {},
    }
}

proof fn lemma_wait_all_reached(
    d: Device,
    h: Hub,
    handles: Seq<u32>,
    targets: Seq<u64>,
    timeout: i64,
    i: nat,
)
    requires
        handles.len() == targets.len(),
        i <= handles.len(),
        forall|k: int|
            0 <= k < handles.len() ==> h.points[d.syncobjs[#[trigger] handles[k]] as int]
                >= targets[k],
    ensures
        wait_reply(d, h, handles, targets, timeout, i) == Ok::<MockReply, Errno>(MockReply::Done),
    decreases handles.len() - i,
{
    if i < handles.len() {
        assert(h.points[d.syncobjs[handles[i as int]] as int] >= targets[i as int]);
        lemma_wait_all_reached(d, h, handles, targets, timeout, i + 1);
    }
}

/// A wait for points that were just signalled is over at once, whatever its timeout.
pub proof fn law_signalled_points_are_reached(
    d: Device,
    h: Hub,
    handles: Vec<u32>,
    points: Vec<u64>,
    timeout_nsec: i64,
)
    requires
        consistent(d, h),
        handles@.len() == points@.len(),
        all_known(d, handles@, handles@.len()),
    ensures
        ({
            let signalled = step(d, h, MockRequest::TimelineSignal { handles, points });
            &&& signalled.reply == Ok::<MockReply, Errno>(MockReply::Done)
            &&& step(
                signalled.device,
                signalled.hub,
                MockRequest::TimelineWait { handles, points, timeout_nsec },
            ).reply == Ok::<MockReply, Errno>(MockReply::Done)
        }),
{
    let signalled = step(d, h, MockRequest::TimelineSignal { handles, points });
    lemma_signal_all_raises(d, h.points, handles@, points@, handles@.len());
    lemma_wait_all_reached(d, signalled.hub, handles@, points@, timeout_nsec, 0);
}

/// Handles are handed out in order: those in use are below the next one, which is not zero.
pub open spec fn handles_in_order(d: Device) -> bool {
    &&& d.next_gem > 0
    &&& d.next_syncobj > 0
    &&& forall|k: u32| #[trigger] d.buffers.contains_key(k) ==> 0 < k < d.next_gem
    &&& forall|k: u32| #[trigger] d.syncobjs.contains_key(k) ==> 0 < k < d.next_syncobj
}

/// As long as handles do not run out, none is handed out twice, and none is zero.
pub proof fn law_handles_are_fresh(d: Device, h: Hub, request: MockRequest)
    requires
        handles_in_order(d),
        d.next_gem < u32::MAX,
        d.next_syncobj < u32::MAX,
    ensures
        handles_in_order(step(d, h, request).device),
        request is SyncobjCreate || request is SyncobjFdToHandle ==> match step(
            d,
            h,
            request,
        ).reply {
            Ok(MockReply::Handle(k)) => k != 0 && !d.syncobjs.contains_key(k),
            _ => true,
        },
        request is GemCreate || request is PrimeFdToHandle || request is CreateBo ==> match step(
            d,
            h,
            request,
        ).reply {
            Ok(MockReply::Handle(k)) => k != 0 && !d.buffers.contains_key(k),
            _ => true,
        },
{
}

/// A buffer that one device exports is imported by another with the same size.
pub proof fn law_exported_buffer_is_imported(
    gpu: Device,
    npu: Device,
    h: Hub,
    handle: u32,
    fd: i32,
    end: Result<u64, Errno>,
    memfd: i32,
)
    requires
        gpu.buffers.contains_key(handle),
    ensures
        ({
            let exported = step(gpu, h, MockRequest::PrimeHandleToFd { handle, dup: Ok(fd) });
            let imported = step(
                npu,
                exported.hub,
                MockRequest::PrimeFdToHandle { fd, is_open: true, end, dup: Ok(memfd) },
            );
            &&& exported.reply == Ok::<MockReply, Errno>(MockReply::Fd(fd))
            &&& imported.reply == Ok::<MockReply, Errno>(MockReply::Handle(npu.next_gem))
            &&& imported.device.buffers[npu.next_gem].size == gpu.buffers[handle].size
        }),
{
}

/// A fence that one device exports is the same fence on the device that imports it: what is
/// signalled on one is reached on the other.
pub proof fn law_exported_fence_is_shared(
    gpu: Device,
    npu: Device,
    h: Hub,
    handle: u32,
    fd: i32,
    point: u64,
    handles: Vec<u32>,
    points: Vec<u64>,
)
    requires
        consistent(gpu, h),
        consistent(npu, h),
        gpu.syncobjs.contains_key(handle),
        handles@ == seq![npu.next_syncobj],
        points@ == seq![point],
    ensures
        ({
            let exported = step(gpu, h, MockRequest::SyncobjHandleToFd { handle, eventfd: Ok(fd) });
            let imported = step(npu, exported.hub, MockRequest::SyncobjFdToHandle { fd });
            let signalled = step(
                imported.device,
                imported.hub,
                MockRequest::TimelineSignal { handles, points },
            );
            &&& imported.reply == Ok::<MockReply, Errno>(MockReply::Handle(npu.next_syncobj))
            &&& signalled.reply == Ok::<MockReply, Errno>(MockReply::Done)
            &&& signalled.hub.points[gpu.syncobjs[handle] as int] >= point
        }),
{
    let exported = step(gpu, h, MockRequest::SyncobjHandleToFd { handle, eventfd: Ok(fd) });
    let imported = step(npu, exported.hub, MockRequest::SyncobjFdToHandle { fd });
    assert(handles@[0] == npu.next_syncobj);
    assert(imported.device.syncobjs[npu.next_syncobj] == gpu.syncobjs[handle]);
    lemma_signal_all_raises(imported.device, imported.hub.points, handles@, points@, 1);
}

} // verus!
