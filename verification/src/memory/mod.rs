//! Shared memory between accelerators, through DMA-BUF and DRM GEM buffers.
//!
//! What goes to a device and what is made of its answer is decided here. A request is served
//! either by the emulated device or, outside this library, by a kernel driver.

use vstd::prelude::*;
use vstd::string::*;

use crate::backend::mock::{
    consistent, next_handle, step, Device, Hub, MockDeviceBackend, MockGemBuffer, MockHub,
    MockReply, MockRequest,
};
use crate::backend::Errno;
use crate::uapi::{
    dma_buf_sync, drm_amdgpu_gem_create_in, drm_gem_close, drm_prime_handle,
    AMDGPU_GEM_CREATE_COHERENT, AMDGPU_GEM_CREATE_CPU_ACCESS_REQUIRED,
    AMDGPU_GEM_CREATE_EXPLICIT_SYNC, AMDGPU_GEM_DOMAIN_GTT, DMA_BUF_SYNC_END, DMA_BUF_SYNC_READ,
    DMA_BUF_SYNC_RW, DMA_BUF_SYNC_START, DMA_BUF_SYNC_VALID_FLAGS_MASK, DMA_BUF_SYNC_WRITE,
    DRM_CLOEXEC, DRM_RDWR,
};

pub mod strix_halo_tuning;

pub use strix_halo_tuning::{StrixHaloConfig, StrixHaloMemoryOptimizer};

verus! {

/// Why memory is not shared.
#[derive(Debug)]
pub enum MemoryError {
    /// A device refused a request.
    IoctlError(Errno),
    /// A call on a file descriptor failed, with this error number.
    IoError(i32),
    MmapError(String),
    AlignmentError { required: usize, actual: usize },
    AllocationFailed(String),
    InvalidState(String),
}

/// A [`MemoryError`] as mathematical values.
pub enum MemoryFault {
    Ioctl(Errno),
    Io(i32),
    Mmap(Seq<char>),
    Alignment { required: usize, actual: usize },
    AllocationFailed(Seq<char>),
    InvalidState(Seq<char>),
}

impl View for MemoryError {
    type V = MemoryFault;

    open spec fn view(&self) -> MemoryFault {
        match *self {
            MemoryError::IoctlError(e) => MemoryFault::Ioctl(e),
            MemoryError::IoError(n) => MemoryFault::Io(n),
            MemoryError::MmapError(s) => MemoryFault::Mmap(s@),
            MemoryError::AlignmentError { required, actual } => MemoryFault::Alignment {
                required,
                actual,
            },
            MemoryError::AllocationFailed(s) => MemoryFault::AllocationFailed(s@),
            MemoryError::InvalidState(s) => MemoryFault::InvalidState(s@),
        }
    }
}

// ---------------------------------------------------------------------------
// CPU access brackets
// ---------------------------------------------------------------------------

/// Direction of a CPU access to shared memory.
#[derive(Debug, Clone, Copy, PartialEq, Eq, Structural)]
pub enum SyncDirection {
    Read,
    Write,
    ReadWrite,
}

/// The flags of a direction.
pub open spec fn direction_flags(d: SyncDirection) -> u64 {
    match d {
        SyncDirection::Read => DMA_BUF_SYNC_READ,
        SyncDirection::Write => DMA_BUF_SYNC_WRITE,
        SyncDirection::ReadWrite => DMA_BUF_SYNC_RW,
    }
}

impl SyncDirection {
    /// The flags of the direction.
    pub fn to_flags(self) -> (r: u64)
        ensures
            r == direction_flags(self),
    {
        match self {
            SyncDirection::Read => DMA_BUF_SYNC_READ,
            SyncDirection::Write => DMA_BUF_SYNC_WRITE,
            SyncDirection::ReadWrite => DMA_BUF_SYNC_RW,
        }
    }
}

/// A shared buffer, by its file descriptor.
#[derive(Debug, PartialEq, Eq, Structural)]
pub struct DmaBufHandle {
    pub raw_fd: i32,
    pub size_bytes: usize,
    pub in_sync_session: bool,
}

/// What a bracket comes to: `sync` is the answer to the request, `open` that to a query whether
/// the descriptor is one. A descriptor that knows no such request is accepted where it is open.
pub open spec fn bracket_fault(sync: Result<(), Errno>, open: Result<(), Errno>) -> Option<
    MemoryFault,
> {
    match sync {
        Ok(_) => None,
        Err(Errno::ENOTTY) => match open {
            Ok(_) => None,
            Err(e) => Some(MemoryFault::Ioctl(e)),
        },
        Err(e) => Some(MemoryFault::Ioctl(e)),
    }
}

fn check_bracket(sync: Result<(), Errno>, open: Result<(), Errno>) -> (r: Result<(), MemoryError>)
    ensures
        match r {
            Ok(_) => bracket_fault(sync, open) is None,
            Err(e) => bracket_fault(sync, open) == Some(e@),
        },
{
    match sync {
        Ok(_) => Ok(()),
        Err(Errno::ENOTTY) => match open {
            Ok(_) => Ok(()),
            Err(e) => Err(MemoryError::IoctlError(e)),
        },
        Err(e) => Err(MemoryError::IoctlError(e)),
    }
}

impl DmaBufHandle {
    /// A buffer of so many bytes under a descriptor that is handed over.
    pub fn from_raw_fd_unchecked(raw_fd: i32, size_bytes: usize) -> (r: DmaBufHandle)
        ensures
            r == (DmaBufHandle { raw_fd, size_bytes, in_sync_session: false }),
    {
        DmaBufHandle { raw_fd, size_bytes, in_sync_session: false }
    }

    /// Size of the buffer in bytes.
    pub fn size(&self) -> (r: usize)
        ensures
            r == self.size_bytes,
    {
        self.size_bytes
    }

    /// The descriptor.
    pub fn as_raw_fd(&self) -> (r: i32)
        ensures
            r == self.raw_fd,
    {
        self.raw_fd
    }

    /// The same buffer under a duplicate of its descriptor: `dup` is the duplicate, or the error
    /// number of the attempt.
    pub fn try_clone(&self, dup: Result<i32, i32>) -> (r: Result<DmaBufHandle, MemoryError>)
        ensures
            match dup {
                Ok(fd) => r is Ok && r->Ok_0 == (DmaBufHandle {
                    raw_fd: fd,
                    size_bytes: self.size_bytes,
                    in_sync_session: false,
                }),
                Err(n) => r is Err && r->Err_0@ == MemoryFault::Io(n),
            },
    {
        match dup {
            Ok(fd) => Ok(Self::from_raw_fd_unchecked(fd, self.size_bytes)),
            Err(n) => Err(MemoryError::IoError(n)),
        }
    }

    /// The request that opens a CPU access bracket.
    pub fn begin_request(direction: SyncDirection) -> (r: dma_buf_sync)
        ensures
            r.flags == DMA_BUF_SYNC_START | direction_flags(direction),
    {
        dma_buf_sync { flags: DMA_BUF_SYNC_START | direction.to_flags() }
    }

    /// The request that closes a CPU access bracket.
    pub fn end_request(direction: SyncDirection) -> (r: dma_buf_sync)
        ensures
            r.flags == DMA_BUF_SYNC_END | direction_flags(direction),
    {
        dma_buf_sync { flags: DMA_BUF_SYNC_END | direction.to_flags() }
    }

    /// Opens a CPU access bracket, by the answers to its request and to a query whether the
    /// descriptor is open.
    pub fn begin_cpu_access(&mut self, sync: Result<(), Errno>, open: Result<(), Errno>) -> (r:
        Result<(), MemoryError>)
        ensures
            match r {
                Ok(_) => bracket_fault(sync, open) is None && *final(self) == (DmaBufHandle {
                    in_sync_session: true,
                    ..*old(self)
                }),
                Err(e) => bracket_fault(sync, open) == Some(e@) && *final(self) == *old(self),
            },
    {
        match check_bracket(sync, open) {
            Ok(_) => {
                self.in_sync_session = true;
                Ok(())
            },
            Err(e) => Err(e),
        }
    }

    /// Closes a CPU access bracket, by the answers to its request and to a query whether the
    /// descriptor is open.
    pub fn end_cpu_access(&mut self, sync: Result<(), Errno>, open: Result<(), Errno>) -> (r:
        Result<(), MemoryError>)
        ensures
            match r {
                Ok(_) => bracket_fault(sync, open) is None && *final(self) == (DmaBufHandle {
                    in_sync_session: false,
                    ..*old(self)
                }),
                Err(e) => bracket_fault(sync, open) == Some(e@) && *final(self) == *old(self),
            },
    {
        match check_bracket(sync, open) {
            Ok(_) => {
                self.in_sync_session = false;
                Ok(())
            },
            Err(e) => Err(e),
        }
    }

    /// Whether a descriptor is to be closed with its buffer.
    pub fn must_close(&self, is_open: bool) -> (r: bool)
        ensures
            r == (self.raw_fd >= 0 && is_open),
    {
        self.raw_fd >= 0 && is_open
    }
}

// ---------------------------------------------------------------------------
// Mapped buffers
// ---------------------------------------------------------------------------

/// A shared buffer that may be mapped into the address space of the process.
#[derive(Debug, PartialEq, Eq, Structural)]
pub struct SharedBuffer {
    pub handle: DmaBufHandle,
    /// Address of the mapping.
    pub mapped_at: Option<usize>,
    pub size: usize,
}

/// Why a mapping is not accepted, if it is not.
pub open spec fn mapping_fault(mapping: Option<Result<usize, String>>) -> Option<MemoryFault> {
    match mapping {
        None => None,
        Some(Err(s)) => Some(MemoryFault::Mmap(s@)),
        Some(Ok(addr)) => if addr % 64 != 0 {
            Some(MemoryFault::Alignment { required: 64, actual: addr % 64 })
        } else {
            None
        },
    }
}

/// The address of an accepted mapping.
pub open spec fn mapping_address(mapping: Option<Result<usize, String>>) -> Option<usize> {
    match mapping {
        Some(Ok(addr)) => if addr == 0 {
            None
        } else {
            Some(addr)
        },
        _ => None,
    }
}

impl SharedBuffer {
    /// A shared buffer. `mapping` is what came of mapping it, where that was tried: its address,
    /// which has to be 64-byte aligned, or what the operating system said.
    pub fn new(handle: DmaBufHandle, mapping: Option<Result<usize, String>>) -> (r: Result<
        SharedBuffer,
        MemoryError,
    >)
        ensures
            match r {
                Ok(b) => mapping_fault(mapping) is None && b == (SharedBuffer {
                    handle,
                    mapped_at: mapping_address(mapping),
                    size: handle.size_bytes,
                }),
                Err(e) => mapping_fault(mapping) == Some(e@),
            },
    {
        let size: usize = handle.size();
        let mapped_at: Option<usize> = match mapping {
            None => None,
            Some(Err(s)) => {
                return Err(MemoryError::MmapError(s));
            },
            Some(Ok(addr)) => {
                if addr % 64 != 0 {
                    return Err(MemoryError::AlignmentError { required: 64, actual: addr % 64 });
                }
                if addr == 0 {
                    None
                } else {
                    Some(addr)
                }
            },
        };
        Ok(SharedBuffer { handle, mapped_at, size })
    }

    /// The buffer.
    pub fn handle(&self) -> (r: &DmaBufHandle)
        ensures
            *r == self.handle,
    {
        &self.handle
    }

    /// Size of the buffer in bytes.
    pub fn len(&self) -> (r: usize)
        ensures
            r == self.size,
    {
        self.size
    }

    /// Whether the buffer has no bytes.
    pub fn is_empty(&self) -> (r: bool)
        ensures
            r == (self.size == 0),
    {
        self.size == 0
    }

    /// The address of the mapping, if there is one.
    pub fn as_ptr(&self) -> (r: Option<usize>)
        ensures
            r == self.mapped_at,
    {
        self.mapped_at
    }

    /// The address of the mapped buffer, for writing.
    pub fn as_mut_ptr(&mut self) -> (r: Option<usize>)
        ensures
            r == old(self).mapped_at,
            *final(self) == *old(self),
    {
        self.mapped_at
    }

    /// The address at which the CPU finds the buffer; an error where it is not mapped.
    pub fn cpu_address(&self) -> (r: Result<usize, MemoryError>)
        ensures
            match r {
                Ok(a) => self.mapped_at == Some(a),
                Err(e) => self.mapped_at is None && e@ == MemoryFault::InvalidState(
                    "Buffer is not mapped to CPU address space"@,
                ),
            },
    {
        match self.mapped_at {
            Some(a) => Ok(a),
            None => Err(
                MemoryError::InvalidState("Buffer is not mapped to CPU address space".to_owned()),
            ),
        }
    }
}

// ---------------------------------------------------------------------------
// Buffer objects
// ---------------------------------------------------------------------------

/// A buffer of the GPU, by its handle.
#[derive(Debug, PartialEq, Eq, Structural)]
pub struct GpuBufferObject {
    pub handle: u32,
    pub size_bytes: usize,
}

/// What is said of an export that gave no descriptor.
pub open spec fn negative_fd_text() -> Seq<char> {
    "PRIME export returned negative file descriptor"@
}

impl GpuBufferObject {
    /// The buffer with a handle.
    pub fn new(handle: u32, size_bytes: usize) -> (r: GpuBufferObject)
        ensures
            r == (GpuBufferObject { handle, size_bytes }),
    {
        GpuBufferObject { handle, size_bytes }
    }

    /// The handle.
    pub fn handle(&self) -> (r: u32)
        ensures
            r == self.handle,
    {
        self.handle
    }

    /// Size of the buffer in bytes.
    pub fn size(&self) -> (r: usize)
        ensures
            r == self.size_bytes,
    {
        self.size_bytes
    }

    /// The request that exports the buffer.
    pub fn export_request(&self) -> (r: drm_prime_handle)
        ensures
            r == (drm_prime_handle {
                handle: self.handle,
                flags: DRM_CLOEXEC | DRM_RDWR,
                fd: (-1) as i32,
            }),
    {
        drm_prime_handle { handle: self.handle, flags: DRM_CLOEXEC | DRM_RDWR, fd: -1 }
    }

    /// The exported buffer, by the answer to the request.
    pub fn accept_export(&self, answer: Result<i32, Errno>) -> (r: Result<
        DmaBufHandle,
        MemoryError,
    >)
        ensures
            match answer {
                Err(e) => r is Err && r->Err_0@ == MemoryFault::Ioctl(e),
                Ok(fd) => if fd < 0 {
                    r is Err && r->Err_0@ == MemoryFault::AllocationFailed(negative_fd_text())
                } else {
                    r is Ok && r->Ok_0 == (DmaBufHandle {
                        raw_fd: fd,
                        size_bytes: self.size_bytes,
                        in_sync_session: false,
                    })
                },
            },
    {
        match answer {
            Err(e) => Err(MemoryError::IoctlError(e)),
            Ok(fd) => {
                if fd < 0 {
                    return Err(
                        MemoryError::AllocationFailed(
                            "PRIME export returned negative file descriptor".to_owned(),
                        ),
                    );
                }
                Ok(DmaBufHandle::from_raw_fd_unchecked(fd, self.size_bytes))
            },
        }
    }

    /// Exports the buffer from an emulated device. `dup` is the duplicate of its descriptor.
    pub fn export_prime_fd(
        &self,
        device: &mut MockDeviceBackend,
        hub: &mut MockHub,
        dup: Result<i32, Errno>,
    ) -> (r: Result<DmaBufHandle, MemoryError>)
        requires
            consistent(old(device)@, old(hub)@),
        ensures
            final(device)@ == old(device)@,
            consistent(final(device)@, final(hub)@),
            ({
                let s = step(
                    old(device)@,
                    old(hub)@,
                    MockRequest::PrimeHandleToFd { handle: self.handle, dup },
                );
                &&& final(hub)@ == s.hub
                &&& match s.reply {
                    Ok(MockReply::Fd(fd)) => if fd < 0 {
                        r is Err && r->Err_0@ == MemoryFault::AllocationFailed(negative_fd_text())
                    } else {
                        r is Ok && r->Ok_0 == (DmaBufHandle {
                            raw_fd: fd,
                            size_bytes: self.size_bytes,
                            in_sync_session: false,
                        })
                    },
                    Err(e) => r is Err && r->Err_0@ == MemoryFault::Ioctl(e),
                    _ => true,
                }
            }),
    {
        let request = MockRequest::PrimeHandleToFd { handle: self.handle, dup };
        let answer: Result<i32, Errno> = match device.ioctl(hub, &request) {
            Ok(MockReply::Fd(fd)) => Ok(fd),
            Ok(_) => Ok(-1),
            Err(e) => Err(e),
        };
        self.accept_export(answer)
    }

    /// The request that closes the buffer.
    pub fn close_request(&self) -> (r: drm_gem_close)
        ensures
            r == (drm_gem_close { handle: self.handle, pad: 0 }),
    {
        drm_gem_close { handle: self.handle, pad: 0 }
    }
}

/// A buffer of the NPU, by its handle.
#[derive(Debug, PartialEq, Eq, Structural)]
pub struct NpuBufferObject {
    pub handle: u32,
    pub size_bytes: usize,
    pub xdna_addr: u64,
}

impl NpuBufferObject {
    /// The buffer with a handle and an address.
    pub fn new(handle: u32, size_bytes: usize, xdna_addr: u64) -> (r: NpuBufferObject)
        ensures
            r == (NpuBufferObject { handle, size_bytes, xdna_addr }),
    {
        NpuBufferObject { handle, size_bytes, xdna_addr }
    }

    /// The handle.
    pub fn handle(&self) -> (r: u32)
        ensures
            r == self.handle,
    {
        self.handle
    }

    /// Size of the buffer in bytes.
    pub fn size(&self) -> (r: usize)
        ensures
            r == self.size_bytes,
    {
        self.size_bytes
    }

    /// The address at which the NPU finds the buffer.
    pub fn xdna_addr(&self) -> (r: u64)
        ensures
            r == self.xdna_addr,
    {
        self.xdna_addr
    }

    /// The request that closes the buffer.
    pub fn close_request(&self) -> (r: drm_gem_close)
        ensures
            r == (drm_gem_close { handle: self.handle, pad: 0 }),
    {
        drm_gem_close { handle: self.handle, pad: 0 }
    }
}

// ---------------------------------------------------------------------------
// The bridge
// ---------------------------------------------------------------------------

/// Allocation of memory on the GPU, and its way to the NPU.
pub struct MemoryBridge;

/// The alignment that is asked for: 64 bytes where none is given.
pub open spec fn effective_alignment(alignment: usize) -> usize {
    if alignment == 0 {
        64
    } else {
        alignment
    }
}

/// Why an allocation is not asked for, if it is not.
pub open spec fn allocation_fault(size: usize, alignment: usize) -> Option<MemoryFault> {
    if size == 0 {
        Some(MemoryFault::AllocationFailed("Cannot allocate 0 bytes"@))
    } else if size % 64 != 0 {
        Some(MemoryFault::Alignment { required: 64, actual: size % 64 })
    } else if effective_alignment(alignment) % 64 != 0 {
        Some(MemoryFault::Alignment { required: 64, actual: effective_alignment(alignment) % 64 })
    } else {
        None
    }
}

/// The request for a buffer that both accelerators and the CPU can use.
pub open spec fn shared_request(size: usize, alignment: usize) -> drm_amdgpu_gem_create_in {
    drm_amdgpu_gem_create_in {
        bo_size: size as u64,
        alignment: effective_alignment(alignment) as u64,
        domains: AMDGPU_GEM_DOMAIN_GTT,
        domain_flags: AMDGPU_GEM_CREATE_CPU_ACCESS_REQUIRED | AMDGPU_GEM_CREATE_COHERENT
            | AMDGPU_GEM_CREATE_EXPLICIT_SYNC,
    }
}

/// A buffer is the one that an answer stands for.
pub open spec fn allocated(
    r: Result<GpuBufferObject, MemoryError>,
    answer: Result<u32, Errno>,
    size: usize,
) -> bool {
    match answer {
        Err(e) => r is Err && r->Err_0@ == MemoryFault::Ioctl(e),
        Ok(handle) => if handle == 0 {
            r is Err && r->Err_0@ == MemoryFault::AllocationFailed("Kernel returned GEM handle 0"@)
        } else {
            r is Ok && r->Ok_0 == (GpuBufferObject { handle, size_bytes: size })
        },
    }
}

/// A buffer is the one that the answers to an import and a query for its address stand for.
pub open spec fn imported(
    r: Result<NpuBufferObject, MemoryError>,
    answer: Result<u32, Errno>,
    info: Result<u64, Errno>,
    size: usize,
) -> bool {
    match answer {
        Err(e) => r is Err && r->Err_0@ == MemoryFault::Ioctl(e),
        Ok(handle) => if handle == 0 {
            r is Err && r->Err_0@ == MemoryFault::AllocationFailed(
                "NPU PRIME import returned handle 0"@,
            )
        } else {
            r is Ok && r->Ok_0 == (NpuBufferObject {
                handle,
                size_bytes: size,
                xdna_addr: match info {
                    Ok(a) => a,
                    Err(_) => 0,
                },
            })
        },
    }
}

/// The new handle in a reply.
pub open spec fn reply_handle(reply: Result<MockReply, Errno>) -> Result<u32, Errno> {
    match reply {
        Ok(MockReply::Handle(h)) => Ok(h),
        Ok(_) => Ok(0),
        Err(e) => Err(e),
    }
}

fn take_handle(reply: Result<MockReply, Errno>) -> (r: Result<u32, Errno>)
    ensures
        r == reply_handle(reply),
{
    match reply {
        Ok(MockReply::Handle(h)) => Ok(h),
        Ok(_) => Ok(0),
        Err(e) => Err(e),
    }
}

impl MemoryBridge {
    /// The request for a buffer. Sizes are positive multiples of 64, alignments multiples of 64.
    pub fn gem_request(size_bytes: usize, alignment: usize) -> (r: Result<
        drm_amdgpu_gem_create_in,
        MemoryError,
    >)
        ensures
            match r {
                Ok(q) => allocation_fault(size_bytes, alignment) is None && q == shared_request(
                    size_bytes,
                    alignment,
                ),
                Err(e) => allocation_fault(size_bytes, alignment) == Some(e@),
            },
    {
        if size_bytes == 0 {
            return Err(MemoryError::AllocationFailed("Cannot allocate 0 bytes".to_owned()));
        }
        if size_bytes % 64 != 0 {
            return Err(MemoryError::AlignmentError { required: 64, actual: size_bytes % 64 });
        }
        let align: usize = if alignment == 0 {
            64
        } else {
            alignment
        };
        if align % 64 != 0 {
            return Err(MemoryError::AlignmentError { required: 64, actual: align % 64 });
        }
        Ok(
            drm_amdgpu_gem_create_in {
                bo_size: size_bytes as u64,
                alignment: align as u64,
                domains: AMDGPU_GEM_DOMAIN_GTT,
                domain_flags: AMDGPU_GEM_CREATE_CPU_ACCESS_REQUIRED | AMDGPU_GEM_CREATE_COHERENT
                    | AMDGPU_GEM_CREATE_EXPLICIT_SYNC,
            },
        )
    }

    /// The buffer that the answer to a request stands for.
    pub fn accept_gem(answer: Result<u32, Errno>, size_bytes: usize) -> (r: Result<
        GpuBufferObject,
        MemoryError,
    >)
        ensures
            allocated(r, answer, size_bytes),
    {
        match answer {
            Err(e) => Err(MemoryError::IoctlError(e)),
            Ok(handle) => {
                if handle == 0 {
                    return Err(
                        MemoryError::AllocationFailed("Kernel returned GEM handle 0".to_owned()),
                    );
                }
                Ok(GpuBufferObject::new(handle, size_bytes))
            },
        }
    }

    /// Allocates a buffer on an emulated device. `memfd` is the memory made for it.
    pub fn allocate_gem_bo(
        device: &mut MockDeviceBackend,
        hub: &mut MockHub,
        size_bytes: usize,
        alignment: usize,
        memfd: Result<i32, Errno>,
    ) -> (r: Result<GpuBufferObject, MemoryError>)
        requires
            consistent(old(device)@, old(hub)@),
        ensures
            consistent(final(device)@, final(hub)@),
            match allocation_fault(size_bytes, alignment) {
                Some(f) => {
                    &&& r is Err
                    &&& r->Err_0@ == f
                    &&& final(device)@ == old(device)@
                    &&& final(hub)@ == old(hub)@
                },
                None => {
                    let s = step(
                        old(device)@,
                        old(hub)@,
                        MockRequest::GemCreate {
                            args: shared_request(size_bytes, alignment),
                            memfd,
                        },
                    );
                    &&& final(device)@ == s.device
                    &&& final(hub)@ == s.hub
                    &&& allocated(r, reply_handle(s.reply), size_bytes)
                },
            },
    {
        match Self::gem_request(size_bytes, alignment) {
            Err(e) => Err(e),
            Ok(args) => {
                let request = MockRequest::GemCreate { args, memfd };
                let answer = take_handle(device.ioctl(hub, &request));
                Self::accept_gem(answer, size_bytes)
            },
        }
    }

    /// The request that imports a shared buffer.
    pub fn import_request(dmabuf: &DmaBufHandle) -> (r: drm_prime_handle)
        ensures
            r == (drm_prime_handle { handle: 0, flags: 0, fd: dmabuf.raw_fd }),
    {
        drm_prime_handle { handle: 0, flags: 0, fd: dmabuf.as_raw_fd() }
    }

    /// The buffer that the answers to an import and to a query for its address stand for. A
    /// buffer whose address is not told is taken to be at address zero.
    pub fn accept_import(
        answer: Result<u32, Errno>,
        info: Result<u64, Errno>,
        size_bytes: usize,
    ) -> (r: Result<NpuBufferObject, MemoryError>)
        ensures
            imported(r, answer, info, size_bytes),
    {
        match answer {
            Err(e) => Err(MemoryError::IoctlError(e)),
            Ok(handle) => {
                if handle == 0 {
                    return Err(
                        MemoryError::AllocationFailed(
                            "NPU PRIME import returned handle 0".to_owned(),
                        ),
                    );
                }
                let xdna_addr: u64 = match info {
                    Ok(a) => a,
                    Err(_) => 0,
                };
                Ok(NpuBufferObject::new(handle, size_bytes, xdna_addr))
            },
        }
    }

    /// Imports a shared buffer into an emulated device. `is_open`, `end` and `dup` are what the
    /// operating system says of the descriptor.
    pub fn import_dma_buf(
        device: &mut MockDeviceBackend,
        hub: &mut MockHub,
        dmabuf: &DmaBufHandle,
        is_open: bool,
        end: Result<u64, Errno>,
        dup: Result<i32, Errno>,
    ) -> (r: Result<NpuBufferObject, MemoryError>)
        requires
            consistent(old(device)@, old(hub)@),
        ensures
            consistent(final(device)@, final(hub)@),
            ({
                let s = step(
                    old(device)@,
                    old(hub)@,
                    MockRequest::PrimeFdToHandle { fd: dmabuf.raw_fd, is_open, end, dup },
                );
                let answer = reply_handle(s.reply);
                &&& final(device)@ == s.device
                &&& final(hub)@ == s.hub
                &&& imported(
                    r,
                    answer,
                    match answer {
                        Ok(h) => Ok(npu_address(h)),
                        Err(e) => Err(e),
                    },
                    dmabuf.size_bytes,
                )
            }),
    {
        let request = MockRequest::PrimeFdToHandle { fd: dmabuf.as_raw_fd(), is_open, end, dup };
        let answer = take_handle(device.ioctl(hub, &request));
        let info: Result<u64, Errno> = match answer {
            Err(e) => Err(e),
            Ok(handle) => {
                let query = MockRequest::GetBoInfo { handle };
                match device.ioctl(hub, &query) {
                    Ok(MockReply::BoInfo { xdna_addr, .. }) => Ok(xdna_addr),
                    Ok(_) => Ok(0),
                    Err(e) => Err(e),
                }
            },
        };
        Self::accept_import(answer, info, dmabuf.size())
    }

    /// Exports a buffer from an emulated device.
    pub fn export_dma_buf(
        bo: &GpuBufferObject,
        device: &mut MockDeviceBackend,
        hub: &mut MockHub,
        dup: Result<i32, Errno>,
    ) -> (r: Result<DmaBufHandle, MemoryError>)
        requires
            consistent(old(device)@, old(hub)@),
        ensures
            final(device)@ == old(device)@,
            consistent(final(device)@, final(hub)@),
            final(hub)@ == step(
                old(device)@,
                old(hub)@,
                MockRequest::PrimeHandleToFd { handle: bo.handle, dup },
            ).hub,
            match (old(device)@.buffers.contains_key(bo.handle), dup) {
                (false, _) => r is Err && r->Err_0@ == MemoryFault::Ioctl(Errno::ENOENT),
                (true, Err(e)) => r is Err && r->Err_0@ == MemoryFault::Ioctl(e),
                (true, Ok(fd)) => if fd < 0 {
                    r is Err && r->Err_0@ == MemoryFault::AllocationFailed(negative_fd_text())
                } else {
                    r is Ok && r->Ok_0 == (DmaBufHandle {
                        raw_fd: fd,
                        size_bytes: bo.size_bytes,
                        in_sync_session: false,
                    })
                },
            },
    {
        bo.export_prime_fd(device, hub, dup)
    }

    /// Closes a buffer of an emulated device.
    fn close_gem_bo(device: &mut MockDeviceBackend, hub: &mut MockHub, bo: &GpuBufferObject)
        requires
            consistent(old(device)@, old(hub)@),
        ensures
            consistent(final(device)@, final(hub)@),
            final(hub)@ == old(hub)@,
            final(device)@ == (Device {
                buffers: old(device)@.buffers.remove(bo.handle),
                ..old(device)@
            }),
    {
        let _ = device.ioctl(hub, &MockRequest::GemClose { handle: bo.handle });
    }

    /// Allocates a page-aligned buffer on an emulated device, exports it and maps it: `memfd`,
    /// `dup` and `mapping` are what the operating system says at each step. A buffer that cannot
    /// be exported or mapped is closed again.
    pub fn allocate_shared(
        device: &mut MockDeviceBackend,
        hub: &mut MockHub,
        size_bytes: usize,
        memfd: Result<i32, Errno>,
        dup: Result<i32, Errno>,
        mapping: Option<Result<usize, String>>,
    ) -> (r: Result<(GpuBufferObject, SharedBuffer), MemoryError>)
        requires
            consistent(old(device)@, old(hub)@),
            0 < old(device)@.next_gem,
        ensures
            consistent(final(device)@, final(hub)@),
            match r {
                Ok((bo, shared)) => {
                    &&& shared_fault(size_bytes, memfd, dup, mapping) is None
                    &&& bo == (GpuBufferObject { handle: old(device)@.next_gem, size_bytes })
                    &&& final(device)@ == with_shared(old(device)@, size_bytes, memfd->Ok_0)
                    &&& final(hub)@ == with_export(old(hub)@, dup->Ok_0, size_bytes)
                    &&& shared == (SharedBuffer {
                        handle: DmaBufHandle {
                            raw_fd: dup->Ok_0,
                            size_bytes,
                            in_sync_session: false,
                        },
                        mapped_at: mapping_address(mapping),
                        size: size_bytes,
                    })
                },
                Err(e) => {
                    &&& shared_fault(size_bytes, memfd, dup, mapping) == Some(e@)
                    &&& !old(device)@.buffers.contains_key(old(device)@.next_gem)
                        ==> final(device)@.buffers == old(device)@.buffers
                    &&& if allocation_fault(size_bytes, 4096) is Some || memfd is Err {
                        final(device)@ == old(device)@ && final(hub)@ == old(hub)@
                    } else {
                        &&& final(device)@ == (Device {
                            buffers: old(device)@.buffers.remove(old(device)@.next_gem),
                            ..with_shared(old(device)@, size_bytes, memfd->Ok_0)
                        })
                        &&& final(hub)@ == match dup {
                            Ok(fd) => with_export(old(hub)@, fd, size_bytes),
                            Err(_) => old(hub)@,
                        }
                    }
                },
            },
    {
        proof {
            assert(AMDGPU_GEM_DOMAIN_GTT & AMDGPU_GEM_DOMAIN_GTT == 2u64) by (bit_vector)
                requires
                    AMDGPU_GEM_DOMAIN_GTT == 2u64,
            ;
        }
        match Self::allocate_gem_bo(device, hub, size_bytes, 4096, memfd) {
            Err(e) => Err(e),
            Ok(bo) => {
                let shared: Result<SharedBuffer, MemoryError> = match bo.export_prime_fd(
                    device,
                    hub,
                    dup,
                ) {
                    Err(e) => Err(e),
                    Ok(dmabuf) => SharedBuffer::new(dmabuf, mapping),
                };
                match shared {
                    Ok(buffer) => Ok((bo, buffer)),
                    Err(e) => {
                        Self::close_gem_bo(device, hub, &bo);
                        assert(device@.buffers =~= old(device)@.buffers.remove(bo.handle));
                        Err(e)
                    },
                }
            },
        }
    }
}

/// An emulated device with one more buffer, made for sharing.
pub open spec fn with_shared(d: Device, size: usize, memfd: i32) -> Device {
    let request = shared_request(size, 4096);
    Device {
        next_gem: next_handle(d.next_gem),
        buffers: d.buffers.insert(
            d.next_gem,
            MockGemBuffer {
                memfd,
                size: request.bo_size,
                alignment: request.alignment,
                domains: request.domains,
                domain_flags: request.domain_flags,
            },
        ),
        ..d
    }
}

/// A hub that knows of one more export.
pub open spec fn with_export(h: Hub, fd: i32, size: usize) -> Hub {
    Hub { dmabuf_fds: h.dmabuf_fds.insert(fd, size as u64), ..h }
}

/// The first step of a shared allocation that fails, if one does.
pub open spec fn shared_fault(
    size: usize,
    memfd: Result<i32, Errno>,
    dup: Result<i32, Errno>,
    mapping: Option<Result<usize, String>>,
) -> Option<MemoryFault> {
    if allocation_fault(size, 4096) is Some {
        allocation_fault(size, 4096)
    } else {
        match (memfd, dup) {
            (Err(e), _) => Some(MemoryFault::Ioctl(e)),
            (_, Err(e)) => Some(MemoryFault::Ioctl(e)),
            (_, Ok(fd)) => if fd < 0 {
                Some(MemoryFault::AllocationFailed(negative_fd_text()))
            } else {
                mapping_fault(mapping)
            },
        }
    }
}

/// The address at which the emulated NPU finds a buffer.
pub open spec fn npu_address(handle: u32) -> u64 {
    (0x2_0000_0000 + handle * 0x10_0000) as u64
}

// ---------------------------------------------------------------------------
// Laws
// ---------------------------------------------------------------------------

/// A request that the bridge makes is never refused for its size, alignment or domain.
pub proof fn law_bridge_requests_are_in_order(size: usize, alignment: usize)
    requires
        allocation_fault(size, alignment) is None,
    ensures
        crate::backend::mock::gem_request_ok(shared_request(size, alignment)),
{
    assert(AMDGPU_GEM_DOMAIN_GTT & AMDGPU_GEM_DOMAIN_GTT == 2u64) by (bit_vector)
        requires
            AMDGPU_GEM_DOMAIN_GTT == 2u64,
    ;
}

/// The flags of every bracket request are valid, and tell its two ends apart.
pub proof fn law_bracket_flags_are_valid(d: SyncDirection)
    ensures
        (DMA_BUF_SYNC_START | direction_flags(d)) & !DMA_BUF_SYNC_VALID_FLAGS_MASK == 0,
        (DMA_BUF_SYNC_END | direction_flags(d)) & !DMA_BUF_SYNC_VALID_FLAGS_MASK == 0,
        DMA_BUF_SYNC_START | direction_flags(d) == direction_flags(d),
        DMA_BUF_SYNC_END | direction_flags(d) == direction_flags(d) + DMA_BUF_SYNC_END,
{
    let f = direction_flags(d);
    assert((0u64 | f) & !7u64 == 0 && (4u64 | f) & !7u64 == 0 && 0u64 | f == f && 4u64 | f == f
        + 4) by (bit_vector)
        requires
            f == 1 || f == 2 || f == 3,
    ;
}

} // verus!
