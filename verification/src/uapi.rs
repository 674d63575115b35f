//! Arguments and numbers of the kernel interface for DMA-BUF, DRM sync objects, AMDXDNA and
//! AMDGPU.
//!
//! Arguments are exchanged with the kernel as byte images in the C layout.

use vstd::prelude::*;

use crate::bytes::{
    le_at, le_bytes, lemma_le_bytes_len, lemma_le_round_trip, lemma_pow256, push_le, read_u32,
    read_u64,
};

verus! {

pub const DMA_BUF_SYNC_READ: u64 = 1;

pub const DMA_BUF_SYNC_WRITE: u64 = 2;

pub const DMA_BUF_SYNC_RW: u64 = 3;

pub const DMA_BUF_SYNC_START: u64 = 0;

pub const DMA_BUF_SYNC_END: u64 = 4;

pub const DMA_BUF_SYNC_VALID_FLAGS_MASK: u64 = 7;

pub const DMA_BUF_BASE: u8 = 0x62;

pub const DRM_SYNCOBJ_WAIT_FLAGS_WAIT_ALL: u32 = 1;

pub const DRM_SYNCOBJ_WAIT_FLAGS_WAIT_FOR_SUBMIT: u32 = 2;

pub const DRM_SYNCOBJ_WAIT_FLAGS_WAIT_AVAILABLE: u32 = 4;

pub const DRM_SYNCOBJ_WAIT_FLAGS_WAIT_DEADLINE: u32 = 8;

pub const DRM_SYNCOBJ_QUERY_FLAGS_LAST_SUBMITTED: u32 = 1;

pub const DRM_IOCTL_BASE: u8 = 0x64;

pub const DRM_COMMAND_BASE: u8 = 0x40;

pub const DRM_AMDXDNA_CREATE_HWCTX: u8 = 0x00;

pub const DRM_AMDXDNA_DESTROY_HWCTX: u8 = 0x01;

pub const DRM_AMDXDNA_CONFIG_HWCTX: u8 = 0x02;

pub const DRM_AMDXDNA_CREATE_BO: u8 = 0x03;

pub const DRM_AMDXDNA_GET_BO_INFO: u8 = 0x04;

pub const DRM_AMDXDNA_SYNC_BO: u8 = 0x05;

pub const DRM_AMDXDNA_EXEC_CMD: u8 = 0x06;

pub const AMDGPU_GEM_DOMAIN_CPU: u64 = 0x1;

pub const AMDGPU_GEM_DOMAIN_GTT: u64 = 0x2;

pub const AMDGPU_GEM_DOMAIN_VRAM: u64 = 0x4;

pub const AMDGPU_GEM_DOMAIN_GDS: u64 = 0x8;

pub const AMDGPU_GEM_DOMAIN_GWS: u64 = 0x10;

pub const AMDGPU_GEM_DOMAIN_OA: u64 = 0x20;

pub const AMDGPU_GEM_DOMAIN_MASK: u64 = 0x3f;

pub const AMDGPU_GEM_CREATE_CPU_ACCESS_REQUIRED: u64 = 1;

pub const AMDGPU_GEM_CREATE_NO_CPU_ACCESS: u64 = 2;

pub const AMDGPU_GEM_CREATE_CPU_GTT_USWC: u64 = 4;

pub const AMDGPU_GEM_CREATE_VRAM_CLEARED: u64 = 8;

pub const AMDGPU_GEM_CREATE_VRAM_CONTIGUOUS: u64 = 32;

pub const AMDGPU_GEM_CREATE_VM_ALWAYS_VALID: u64 = 64;

pub const AMDGPU_GEM_CREATE_EXPLICIT_SYNC: u64 = 128;

pub const AMDGPU_GEM_CREATE_CP_MQD_GFX9: u64 = 256;

pub const AMDGPU_GEM_CREATE_VRAM_WIPE_ON_RELEASE: u64 = 512;

pub const AMDGPU_GEM_CREATE_ENCRYPTED: u64 = 1024;

pub const AMDGPU_GEM_CREATE_PREEMPTIBLE: u64 = 2048;

pub const AMDGPU_GEM_CREATE_DISCARDABLE: u64 = 4096;

pub const AMDGPU_GEM_CREATE_COHERENT: u64 = 8192;

pub const AMDGPU_GEM_CREATE_UNCACHED: u64 = 16384;

pub const AMDGPU_GEM_CREATE_EXT_COHERENT: u64 = 32768;

pub const DRM_AMDGPU_GEM_CREATE: u8 = 0x00;

pub const DRM_CLOEXEC: u32 = 0x80000;

pub const DRM_RDWR: u32 = 0x00002;

pub const _IOC_NONE: u64 = 0;

pub const _IOC_WRITE: u64 = 1;

pub const _IOC_READ: u64 = 2;

pub const _IOC_READWRITE: u64 = 3;

pub const DRM_IOCTL_AMDGPU_GEM_CREATE_NUM: u64 = 0xc0206440;

pub const DRM_IOCTL_GEM_CLOSE_NUM: u64 = 0x40086409;

pub const DRM_IOCTL_PRIME_HANDLE_TO_FD_NUM: u64 = 0xc00c642d;

pub const DRM_IOCTL_PRIME_FD_TO_HANDLE_NUM: u64 = 0xc00c642e;

pub const DRM_IOCTL_SYNCOBJ_CREATE_NUM: u64 = 0xc00864bf;

pub const DRM_IOCTL_SYNCOBJ_DESTROY_NUM: u64 = 0xc00864c0;

pub const DRM_IOCTL_SYNCOBJ_HANDLE_TO_FD_NUM: u64 = 0xc01864c1;

pub const DRM_IOCTL_SYNCOBJ_FD_TO_HANDLE_NUM: u64 = 0xc01864c2;

pub const DRM_IOCTL_SYNCOBJ_TIMELINE_WAIT_NUM: u64 = 0xc03064ca;

pub const DRM_IOCTL_SYNCOBJ_TIMELINE_SIGNAL_NUM: u64 = 0xc01864cd;

pub const DRM_IOCTL_SYNCOBJ_TRANSFER_NUM: u64 = 0xc02064cc;

pub const DRM_IOCTL_AMDXDNA_CREATE_BO_NUM: u64 = 0xc0206443;

pub const DRM_IOCTL_AMDXDNA_GET_BO_INFO_NUM: u64 = 0xc0306444;

pub const DMA_BUF_IOCTL_SYNC_NUM: u64 = 0x40086200;

// ---------------------------------------------------------------------------
// Request numbers
// ---------------------------------------------------------------------------

/// A request number: two bits of direction, fourteen of size, eight of type and eight of
/// number, most significant first.
pub open spec fn request_number(dir: int, ty: u8, nr: u8, size: int) -> int {
    dir * 0x4000_0000 + size * 0x1_0000 + ty as int * 0x100 + nr as int
}

/// The bits of a request number.
pub open spec fn request_bits(dir: u64, ty: u8, nr: u8, size: u64) -> u64 {
    (dir << 30) | (size << 16) | ((ty as u64) << 8) | (nr as u64)
}

/// The number of a request.
pub fn _ioc(dir: u64, ty: u8, nr: u8, size: usize) -> (r: u64)
    ensures
        r == request_bits(dir, ty, nr, size as u64),
{
    (dir << 30) | ((size as u64) << 16) | ((ty as u64) << 8) | (nr as u64)
}

/// The number of a request whose argument of `size` bytes is read by the kernel.
pub fn _iow(ty: u8, nr: u8, size: usize) -> (r: u64)
    ensures
        r == request_bits(_IOC_WRITE, ty, nr, size as u64),
{
    _ioc(_IOC_WRITE, ty, nr, size)
}

/// The number of a request whose argument of `size` bytes is read and written by the kernel.
pub fn _iowr(ty: u8, nr: u8, size: usize) -> (r: u64)
    ensures
        r == request_bits(_IOC_READWRITE, ty, nr, size as u64),
{
    _ioc(_IOC_READWRITE, ty, nr, size)
}

/// A direction of two bits and a size of fourteen stay within their places, so that the parts
/// of a request number can be told apart.
pub proof fn law_request_bits_are_places(dir: u64, ty: u8, nr: u8, size: u64)
    requires
        dir < 4,
        size < 0x4000,
    ensures
        request_bits(dir, ty, nr, size) == request_number(dir as int, ty, nr, size as int),
{
    let t = ty as u64;
    let n = nr as u64;
    assert((dir << 30) | (size << 16) | (t << 8) | n == dir * 0x4000_0000 + size * 0x1_0000 + t
        * 0x100 + n) by (bit_vector)
        requires
            dir < 4,
            size < 0x4000,
            t < 256,
            n < 256,
    ;
}

// ---------------------------------------------------------------------------
// Arguments
// ---------------------------------------------------------------------------

/// A signed number as the unsigned one with the same bits.
pub open spec fn unsigned32(v: i32) -> u32 {
    if v >= 0 {
        v as u32
    } else {
        (v + 0x1_0000_0000) as u32
    }
}

/// A signed number as the unsigned one with the same bits.
pub open spec fn unsigned64(v: i64) -> u64 {
    if v >= 0 {
        v as u64
    } else {
        (v + 0x1_0000_0000_0000_0000) as u64
    }
}

/// An unsigned number as the signed one with the same bits.
pub open spec fn signed32(v: u32) -> i32 {
    if v < 0x8000_0000 {
        v as i32
    } else {
        (v - 0x1_0000_0000) as i32
    }
}

fn to_unsigned32(v: i32) -> (r: u32)
    ensures
        r == unsigned32(v),
{
    if v >= 0 {
        v as u32
    } else {
        (v as i64 + 0x1_0000_0000) as u32
    }
}

fn to_unsigned64(v: i64) -> (r: u64)
    ensures
        r == unsigned64(v),
{
    if v >= 0 {
        v as u64
    } else {
        (v as i128 + 0x1_0000_0000_0000_0000) as u64
    }
}

fn to_signed32(v: u32) -> (r: i32)
    ensures
        r == signed32(v),
{
    if v < 0x8000_0000 {
        v as i32
    } else {
        (v as i64 - 0x1_0000_0000) as i32
    }
}

/// Argument of `DMA_BUF_IOCTL_SYNC`.
#[derive(Debug, Clone, Copy, PartialEq, Eq, Structural, Default)]
pub struct dma_buf_sync {
    pub flags: u64,
}

impl dma_buf_sync {
    /// The argument in the C layout.
    pub open spec fn image(&self) -> Seq<u8> {
        le_bytes(self.flags as nat, 8)
    }

    /// The argument in the C layout.
    pub fn to_bytes(&self) -> (r: Vec<u8>)
        ensures
            r@ == self.image(),
            r@.len() == 8,
    {
        let mut out: Vec<u8> = Vec::new();
        push_le(&mut out, self.flags, 8);
        proof {
            lemma_le_bytes_len(self.flags as nat, 8);
        }
        assert(out@ =~= self.image());
        out
    }
}

/// Argument of the export of a sync file.
#[derive(Debug, Clone, Copy, PartialEq, Eq, Structural, Default)]
pub struct dma_buf_export_sync_file {
    pub flags: u32,
    pub fd: i32,
}

impl dma_buf_export_sync_file {
    /// The argument in the C layout.
    pub open spec fn image(&self) -> Seq<u8> {
        le_bytes(self.flags as nat, 4) + le_bytes(unsigned32(self.fd) as nat, 4)
    }

    /// The argument in the C layout.
    pub fn to_bytes(&self) -> (r: Vec<u8>)
        ensures
            r@ == self.image(),
            r@.len() == 8,
    {
        let mut out: Vec<u8> = Vec::new();
        push_le(&mut out, self.flags as u64, 4);
        push_le(&mut out, to_unsigned32(self.fd) as u64, 4);
        proof {
            lemma_le_bytes_len(self.flags as nat, 4);
            lemma_le_bytes_len(unsigned32(self.fd) as nat, 4);
        }
        assert(out@ =~= self.image());
        out
    }
}

/// Argument of the import of a sync file.
#[derive(Debug, Clone, Copy, PartialEq, Eq, Structural, Default)]
pub struct dma_buf_import_sync_file {
    pub flags: u32,
    pub fd: i32,
}

impl dma_buf_import_sync_file {
    /// The argument in the C layout.
    pub open spec fn image(&self) -> Seq<u8> {
        le_bytes(self.flags as nat, 4) + le_bytes(unsigned32(self.fd) as nat, 4)
    }

    /// The argument in the C layout.
    pub fn to_bytes(&self) -> (r: Vec<u8>)
        ensures
            r@ == self.image(),
            r@.len() == 8,
    {
        let mut out: Vec<u8> = Vec::new();
        push_le(&mut out, self.flags as u64, 4);
        push_le(&mut out, to_unsigned32(self.fd) as u64, 4);
        proof {
            lemma_le_bytes_len(self.flags as nat, 4);
            lemma_le_bytes_len(unsigned32(self.fd) as nat, 4);
        }
        assert(out@ =~= self.image());
        out
    }
}

/// Argument of the creation of a sync object.
#[derive(Debug, Clone, Copy, PartialEq, Eq, Structural, Default)]
pub struct drm_syncobj_create {
    pub handle: u32,
    pub flags: u32,
}

impl drm_syncobj_create {
    /// The argument in the C layout.
    pub open spec fn image(&self) -> Seq<u8> {
        le_bytes(self.handle as nat, 4) + le_bytes(self.flags as nat, 4)
    }

    /// The argument in the C layout.
    pub fn to_bytes(&self) -> (r: Vec<u8>)
        ensures
            r@ == self.image(),
            r@.len() == 8,
    {
        let mut out: Vec<u8> = Vec::new();
        push_le(&mut out, self.handle as u64, 4);
        push_le(&mut out, self.flags as u64, 4);
        proof {
            lemma_le_bytes_len(self.handle as nat, 4);
            lemma_le_bytes_len(self.flags as nat, 4);
        }
        assert(out@ =~= self.image());
        out
    }

    /// The argument that a byte image in the C layout stands for.
    pub open spec fn of_image(b: Seq<u8>) -> drm_syncobj_create {
        drm_syncobj_create {
            handle: le_at(b, 0, 4) as u32,
            flags: le_at(b, 4, 4) as u32,
        }
    }

    /// Reads an argument that the kernel has filled in.
    pub fn from_bytes(b: &[u8]) -> (r: drm_syncobj_create)
        requires
            b@.len() >= 8,
        ensures
            r == Self::of_image(b@),
    {
        drm_syncobj_create {
            handle: read_u32(b, 0),
            flags: read_u32(b, 4),
        }
    }
}

/// Argument of the destruction of a sync object.
#[derive(Debug, Clone, Copy, PartialEq, Eq, Structural, Default)]
pub struct drm_syncobj_destroy {
    pub handle: u32,
    pub pad: u32,
}

impl drm_syncobj_destroy {
    /// The argument in the C layout.
    pub open spec fn image(&self) -> Seq<u8> {
        le_bytes(self.handle as nat, 4) + le_bytes(self.pad as nat, 4)
    }

    /// The argument in the C layout.
    pub fn to_bytes(&self) -> (r: Vec<u8>)
        ensures
            r@ == self.image(),
            r@.len() == 8,
    {
        let mut out: Vec<u8> = Vec::new();
        push_le(&mut out, self.handle as u64, 4);
        push_le(&mut out, self.pad as u64, 4);
        proof {
            lemma_le_bytes_len(self.handle as nat, 4);
            lemma_le_bytes_len(self.pad as nat, 4);
        }
        assert(out@ =~= self.image());
        out
    }
}

/// Argument of the export and import of a sync object.
#[derive(Debug, Clone, Copy, PartialEq, Eq, Structural, Default)]
pub struct drm_syncobj_handle {
    pub handle: u32,
    pub flags: u32,
    pub fd: i32,
    pub pad: u32,
    pub point: u64,
}

impl drm_syncobj_handle {
    /// The argument in the C layout.
    pub open spec fn image(&self) -> Seq<u8> {
        le_bytes(self.handle as nat, 4) + le_bytes(self.flags as nat, 4) + le_bytes(unsigned32(self.fd) as nat, 4) + le_bytes(self.pad as nat, 4) + le_bytes(self.point as nat, 8)
    }

    /// The argument in the C layout.
    pub fn to_bytes(&self) -> (r: Vec<u8>)
        ensures
            r@ == self.image(),
            r@.len() == 24,
    {
        let mut out: Vec<u8> = Vec::new();
        push_le(&mut out, self.handle as u64, 4);
        push_le(&mut out, self.flags as u64, 4);
        push_le(&mut out, to_unsigned32(self.fd) as u64, 4);
        push_le(&mut out, self.pad as u64, 4);
        push_le(&mut out, self.point, 8);
        proof {
            lemma_le_bytes_len(self.handle as nat, 4);
            lemma_le_bytes_len(self.flags as nat, 4);
            lemma_le_bytes_len(unsigned32(self.fd) as nat, 4);
            lemma_le_bytes_len(self.pad as nat, 4);
            lemma_le_bytes_len(self.point as nat, 8);
        }
        assert(out@ =~= self.image());
        out
    }

    /// The argument that a byte image in the C layout stands for.
    pub open spec fn of_image(b: Seq<u8>) -> drm_syncobj_handle {
        drm_syncobj_handle {
            handle: le_at(b, 0, 4) as u32,
            flags: le_at(b, 4, 4) as u32,
            fd: signed32(le_at(b, 8, 4) as u32),
            pad: le_at(b, 12, 4) as u32,
            point: le_at(b, 16, 8) as u64,
        }
    }

    /// Reads an argument that the kernel has filled in.
    pub fn from_bytes(b: &[u8]) -> (r: drm_syncobj_handle)
        requires
            b@.len() >= 24,
        ensures
            r == Self::of_image(b@),
    {
        drm_syncobj_handle {
            handle: read_u32(b, 0),
            flags: read_u32(b, 4),
            fd: to_signed32(read_u32(b, 8)),
            pad: read_u32(b, 12),
            point: read_u64(b, 16),
        }
    }
}

/// Argument of a wait for timeline points.
#[derive(Debug, Clone, Copy, PartialEq, Eq, Structural, Default)]
pub struct drm_syncobj_timeline_wait {
    pub handles: u64,
    pub points: u64,
    pub timeout_nsec: i64,
    pub count_handles: u32,
    pub flags: u32,
    pub first_signaled: u32,
    pub pad: u32,
    pub deadline_nsec: u64,
}

impl drm_syncobj_timeline_wait {
    /// The argument in the C layout.
    pub open spec fn image(&self) -> Seq<u8> {
        le_bytes(self.handles as nat, 8) + le_bytes(self.points as nat, 8) + le_bytes(unsigned64(self.timeout_nsec) as nat, 8) + le_bytes(self.count_handles as nat, 4) + le_bytes(self.flags as nat, 4) + le_bytes(self.first_signaled as nat, 4) + le_bytes(self.pad as nat, 4) + le_bytes(self.deadline_nsec as nat, 8)
    }

    /// The argument in the C layout.
    pub fn to_bytes(&self) -> (r: Vec<u8>)
        ensures
            r@ == self.image(),
            r@.len() == 48,
    {
        let mut out: Vec<u8> = Vec::new();
        push_le(&mut out, self.handles, 8);
        push_le(&mut out, self.points, 8);
        push_le(&mut out, to_unsigned64(self.timeout_nsec), 8);
        push_le(&mut out, self.count_handles as u64, 4);
        push_le(&mut out, self.flags as u64, 4);
        push_le(&mut out, self.first_signaled as u64, 4);
        push_le(&mut out, self.pad as u64, 4);
        push_le(&mut out, self.deadline_nsec, 8);
        proof {
            lemma_le_bytes_len(self.handles as nat, 8);
            lemma_le_bytes_len(self.points as nat, 8);
            lemma_le_bytes_len(unsigned64(self.timeout_nsec) as nat, 8);
            lemma_le_bytes_len(self.count_handles as nat, 4);
            lemma_le_bytes_len(self.flags as nat, 4);
            lemma_le_bytes_len(self.first_signaled as nat, 4);
            lemma_le_bytes_len(self.pad as nat, 4);
            lemma_le_bytes_len(self.deadline_nsec as nat, 8);
        }
        assert(out@ =~= self.image());
        out
    }
}

/// Argument of the transfer of a timeline point.
#[derive(Debug, Clone, Copy, PartialEq, Eq, Structural, Default)]
pub struct drm_syncobj_transfer {
    pub src_handle: u32,
    pub dst_handle: u32,
    pub src_point: u64,
    pub dst_point: u64,
    pub flags: u32,
    pub pad: u32,
}

impl drm_syncobj_transfer {
    /// The argument in the C layout.
    pub open spec fn image(&self) -> Seq<u8> {
        le_bytes(self.src_handle as nat, 4) + le_bytes(self.dst_handle as nat, 4) + le_bytes(self.src_point as nat, 8) + le_bytes(self.dst_point as nat, 8) + le_bytes(self.flags as nat, 4) + le_bytes(self.pad as nat, 4)
    }

    /// The argument in the C layout.
    pub fn to_bytes(&self) -> (r: Vec<u8>)
        ensures
            r@ == self.image(),
            r@.len() == 32,
    {
        let mut out: Vec<u8> = Vec::new();
        push_le(&mut out, self.src_handle as u64, 4);
        push_le(&mut out, self.dst_handle as u64, 4);
        push_le(&mut out, self.src_point, 8);
        push_le(&mut out, self.dst_point, 8);
        push_le(&mut out, self.flags as u64, 4);
        push_le(&mut out, self.pad as u64, 4);
        proof {
            lemma_le_bytes_len(self.src_handle as nat, 4);
            lemma_le_bytes_len(self.dst_handle as nat, 4);
            lemma_le_bytes_len(self.src_point as nat, 8);
            lemma_le_bytes_len(self.dst_point as nat, 8);
            lemma_le_bytes_len(self.flags as nat, 4);
            lemma_le_bytes_len(self.pad as nat, 4);
        }
        assert(out@ =~= self.image());
        out
    }
}

/// Argument of the signalling of timeline points.
#[derive(Debug, Clone, Copy, PartialEq, Eq, Structural, Default)]
pub struct drm_syncobj_timeline_array {
    pub handles: u64,
    pub points: u64,
    pub count_handles: u32,
    pub flags: u32,
}

impl drm_syncobj_timeline_array {
    /// The argument in the C layout.
    pub open spec fn image(&self) -> Seq<u8> {
        le_bytes(self.handles as nat, 8) + le_bytes(self.points as nat, 8) + le_bytes(self.count_handles as nat, 4) + le_bytes(self.flags as nat, 4)
    }

    /// The argument in the C layout.
    pub fn to_bytes(&self) -> (r: Vec<u8>)
        ensures
            r@ == self.image(),
            r@.len() == 24,
    {
        let mut out: Vec<u8> = Vec::new();
        push_le(&mut out, self.handles, 8);
        push_le(&mut out, self.points, 8);
        push_le(&mut out, self.count_handles as u64, 4);
        push_le(&mut out, self.flags as u64, 4);
        proof {
            lemma_le_bytes_len(self.handles as nat, 8);
            lemma_le_bytes_len(self.points as nat, 8);
            lemma_le_bytes_len(self.count_handles as nat, 4);
            lemma_le_bytes_len(self.flags as nat, 4);
        }
        assert(out@ =~= self.image());
        out
    }
}

/// Argument of the creation of a hardware context.
#[derive(Debug, Clone, Copy, PartialEq, Eq, Structural, Default)]
pub struct amdxdna_drm_create_hwctx {
    pub ext: u64,
    pub ext_flags: u64,
    pub qos_p: u64,
    pub umq_bo: u32,
    pub log_buf_bo: u32,
    pub max_opc: u32,
    pub num_tiles: u32,
    pub mem_size: u32,
    pub umq_doorbell: u32,
    pub handle: u32,
    pub syncobj_handle: u32,
}

impl amdxdna_drm_create_hwctx {
    /// The argument in the C layout.
    pub open spec fn image(&self) -> Seq<u8> {
        le_bytes(self.ext as nat, 8) + le_bytes(self.ext_flags as nat, 8) + le_bytes(self.qos_p as nat, 8) + le_bytes(self.umq_bo as nat, 4) + le_bytes(self.log_buf_bo as nat, 4) + le_bytes(self.max_opc as nat, 4) + le_bytes(self.num_tiles as nat, 4) + le_bytes(self.mem_size as nat, 4) + le_bytes(self.umq_doorbell as nat, 4) + le_bytes(self.handle as nat, 4) + le_bytes(self.syncobj_handle as nat, 4)
    }

    /// The argument in the C layout.
    pub fn to_bytes(&self) -> (r: Vec<u8>)
        ensures
            r@ == self.image(),
            r@.len() == 56,
    {
        let mut out: Vec<u8> = Vec::new();
        push_le(&mut out, self.ext, 8);
        push_le(&mut out, self.ext_flags, 8);
        push_le(&mut out, self.qos_p, 8);
        push_le(&mut out, self.umq_bo as u64, 4);
        push_le(&mut out, self.log_buf_bo as u64, 4);
        push_le(&mut out, self.max_opc as u64, 4);
        push_le(&mut out, self.num_tiles as u64, 4);
        push_le(&mut out, self.mem_size as u64, 4);
        push_le(&mut out, self.umq_doorbell as u64, 4);
        push_le(&mut out, self.handle as u64, 4);
        push_le(&mut out, self.syncobj_handle as u64, 4);
        proof {
            lemma_le_bytes_len(self.ext as nat, 8);
            lemma_le_bytes_len(self.ext_flags as nat, 8);
            lemma_le_bytes_len(self.qos_p as nat, 8);
            lemma_le_bytes_len(self.umq_bo as nat, 4);
            lemma_le_bytes_len(self.log_buf_bo as nat, 4);
            lemma_le_bytes_len(self.max_opc as nat, 4);
            lemma_le_bytes_len(self.num_tiles as nat, 4);
            lemma_le_bytes_len(self.mem_size as nat, 4);
            lemma_le_bytes_len(self.umq_doorbell as nat, 4);
            lemma_le_bytes_len(self.handle as nat, 4);
            lemma_le_bytes_len(self.syncobj_handle as nat, 4);
        }
        assert(out@ =~= self.image());
        out
    }
}

/// Argument of the destruction of a hardware context.
#[derive(Debug, Clone, Copy, PartialEq, Eq, Structural, Default)]
pub struct amdxdna_drm_destroy_hwctx {
    pub handle: u32,
    pub pad: u32,
}

impl amdxdna_drm_destroy_hwctx {
    /// The argument in the C layout.
    pub open spec fn image(&self) -> Seq<u8> {
        le_bytes(self.handle as nat, 4) + le_bytes(self.pad as nat, 4)
    }

    /// The argument in the C layout.
    pub fn to_bytes(&self) -> (r: Vec<u8>)
        ensures
            r@ == self.image(),
            r@.len() == 8,
    {
        let mut out: Vec<u8> = Vec::new();
        push_le(&mut out, self.handle as u64, 4);
        push_le(&mut out, self.pad as u64, 4);
        proof {
            lemma_le_bytes_len(self.handle as nat, 4);
            lemma_le_bytes_len(self.pad as nat, 4);
        }
        assert(out@ =~= self.image());
        out
    }
}

/// Argument of the creation of an NPU buffer.
#[derive(Debug, Clone, Copy, PartialEq, Eq, Structural, Default)]
pub struct amdxdna_drm_create_bo {
    pub flags: u64,
    pub vaddr: u64,
    pub size: u64,
    pub kind: u32,
    pub handle: u32,
}

impl amdxdna_drm_create_bo {
    /// The argument in the C layout.
    pub open spec fn image(&self) -> Seq<u8> {
        le_bytes(self.flags as nat, 8) + le_bytes(self.vaddr as nat, 8) + le_bytes(self.size as nat, 8) + le_bytes(self.kind as nat, 4) + le_bytes(self.handle as nat, 4)
    }

    /// The argument in the C layout.
    pub fn to_bytes(&self) -> (r: Vec<u8>)
        ensures
            r@ == self.image(),
            r@.len() == 32,
    {
        let mut out: Vec<u8> = Vec::new();
        push_le(&mut out, self.flags, 8);
        push_le(&mut out, self.vaddr, 8);
        push_le(&mut out, self.size, 8);
        push_le(&mut out, self.kind as u64, 4);
        push_le(&mut out, self.handle as u64, 4);
        proof {
            lemma_le_bytes_len(self.flags as nat, 8);
            lemma_le_bytes_len(self.vaddr as nat, 8);
            lemma_le_bytes_len(self.size as nat, 8);
            lemma_le_bytes_len(self.kind as nat, 4);
            lemma_le_bytes_len(self.handle as nat, 4);
        }
        assert(out@ =~= self.image());
        out
    }

    /// The argument that a byte image in the C layout stands for.
    pub open spec fn of_image(b: Seq<u8>) -> amdxdna_drm_create_bo {
        amdxdna_drm_create_bo {
            flags: le_at(b, 0, 8) as u64,
            vaddr: le_at(b, 8, 8) as u64,
            size: le_at(b, 16, 8) as u64,
            kind: le_at(b, 24, 4) as u32,
            handle: le_at(b, 28, 4) as u32,
        }
    }

    /// Reads an argument that the kernel has filled in.
    pub fn from_bytes(b: &[u8]) -> (r: amdxdna_drm_create_bo)
        requires
            b@.len() >= 32,
        ensures
            r == Self::of_image(b@),
    {
        amdxdna_drm_create_bo {
            flags: read_u64(b, 0),
            vaddr: read_u64(b, 8),
            size: read_u64(b, 16),
            kind: read_u32(b, 24),
            handle: read_u32(b, 28),
        }
    }
}

/// Entry of a table of addresses.
#[derive(Debug, Clone, Copy, PartialEq, Eq, Structural, Default)]
pub struct amdxdna_drm_va_entry {
    pub vaddr: u64,
    pub len: u64,
}

impl amdxdna_drm_va_entry {
    /// The argument in the C layout.
    pub open spec fn image(&self) -> Seq<u8> {
        le_bytes(self.vaddr as nat, 8) + le_bytes(self.len as nat, 8)
    }

    /// The argument in the C layout.
    pub fn to_bytes(&self) -> (r: Vec<u8>)
        ensures
            r@ == self.image(),
            r@.len() == 16,
    {
        let mut out: Vec<u8> = Vec::new();
        push_le(&mut out, self.vaddr, 8);
        push_le(&mut out, self.len, 8);
        proof {
            lemma_le_bytes_len(self.vaddr as nat, 8);
            lemma_le_bytes_len(self.len as nat, 8);
        }
        assert(out@ =~= self.image());
        out
    }
}

/// Table of addresses, or a dma-buf in its place.
#[derive(Debug, Clone, Copy, PartialEq, Eq, Structural, Default)]
pub struct amdxdna_drm_va_tbl {
    pub dmabuf_fd: i32,
    pub num_entries: u32,
}

impl amdxdna_drm_va_tbl {
    /// The argument in the C layout.
    pub open spec fn image(&self) -> Seq<u8> {
        le_bytes(unsigned32(self.dmabuf_fd) as nat, 4) + le_bytes(self.num_entries as nat, 4)
    }

    /// The argument in the C layout.
    pub fn to_bytes(&self) -> (r: Vec<u8>)
        ensures
            r@ == self.image(),
            r@.len() == 8,
    {
        let mut out: Vec<u8> = Vec::new();
        push_le(&mut out, to_unsigned32(self.dmabuf_fd) as u64, 4);
        push_le(&mut out, self.num_entries as u64, 4);
        proof {
            lemma_le_bytes_len(unsigned32(self.dmabuf_fd) as nat, 4);
            lemma_le_bytes_len(self.num_entries as nat, 4);
        }
        assert(out@ =~= self.image());
        out
    }
}

/// Argument of the execution of commands.
#[derive(Debug, Clone, Copy, PartialEq, Eq, Structural, Default)]
pub struct amdxdna_drm_exec_cmd {
    pub ext: u64,
    pub ext_flags: u64,
    pub hwctx: u32,
    pub kind: u32,
    pub cmd_handles: u64,
    pub args: u64,
    pub cmd_count: u32,
    pub arg_count: u32,
    pub seq: u64,
}

impl amdxdna_drm_exec_cmd {
    /// The argument in the C layout.
    pub open spec fn image(&self) -> Seq<u8> {
        le_bytes(self.ext as nat, 8) + le_bytes(self.ext_flags as nat, 8) + le_bytes(self.hwctx as nat, 4) + le_bytes(self.kind as nat, 4) + le_bytes(self.cmd_handles as nat, 8) + le_bytes(self.args as nat, 8) + le_bytes(self.cmd_count as nat, 4) + le_bytes(self.arg_count as nat, 4) + le_bytes(self.seq as nat, 8)
    }

    /// The argument in the C layout.
    pub fn to_bytes(&self) -> (r: Vec<u8>)
        ensures
            r@ == self.image(),
            r@.len() == 56,
    {
        let mut out: Vec<u8> = Vec::new();
        push_le(&mut out, self.ext, 8);
        push_le(&mut out, self.ext_flags, 8);
        push_le(&mut out, self.hwctx as u64, 4);
        push_le(&mut out, self.kind as u64, 4);
        push_le(&mut out, self.cmd_handles, 8);
        push_le(&mut out, self.args, 8);
        push_le(&mut out, self.cmd_count as u64, 4);
        push_le(&mut out, self.arg_count as u64, 4);
        push_le(&mut out, self.seq, 8);
        proof {
            lemma_le_bytes_len(self.ext as nat, 8);
            lemma_le_bytes_len(self.ext_flags as nat, 8);
            lemma_le_bytes_len(self.hwctx as nat, 4);
            lemma_le_bytes_len(self.kind as nat, 4);
            lemma_le_bytes_len(self.cmd_handles as nat, 8);
            lemma_le_bytes_len(self.args as nat, 8);
            lemma_le_bytes_len(self.cmd_count as nat, 4);
            lemma_le_bytes_len(self.arg_count as nat, 4);
            lemma_le_bytes_len(self.seq as nat, 8);
        }
        assert(out@ =~= self.image());
        out
    }
}

/// Argument of a query for an NPU buffer.
#[derive(Debug, Clone, Copy, PartialEq, Eq, Structural, Default)]
pub struct amdxdna_drm_get_bo_info {
    pub ext: u64,
    pub ext_flags: u64,
    pub handle: u32,
    pub pad: u32,
    pub map_offset: u64,
    pub vaddr: u64,
    pub xdna_addr: u64,
}

impl amdxdna_drm_get_bo_info {
    /// The argument in the C layout.
    pub open spec fn image(&self) -> Seq<u8> {
        le_bytes(self.ext as nat, 8) + le_bytes(self.ext_flags as nat, 8) + le_bytes(self.handle as nat, 4) + le_bytes(self.pad as nat, 4) + le_bytes(self.map_offset as nat, 8) + le_bytes(self.vaddr as nat, 8) + le_bytes(self.xdna_addr as nat, 8)
    }

    /// The argument in the C layout.
    pub fn to_bytes(&self) -> (r: Vec<u8>)
        ensures
            r@ == self.image(),
            r@.len() == 48,
    {
        let mut out: Vec<u8> = Vec::new();
        push_le(&mut out, self.ext, 8);
        push_le(&mut out, self.ext_flags, 8);
        push_le(&mut out, self.handle as u64, 4);
        push_le(&mut out, self.pad as u64, 4);
        push_le(&mut out, self.map_offset, 8);
        push_le(&mut out, self.vaddr, 8);
        push_le(&mut out, self.xdna_addr, 8);
        proof {
            lemma_le_bytes_len(self.ext as nat, 8);
            lemma_le_bytes_len(self.ext_flags as nat, 8);
            lemma_le_bytes_len(self.handle as nat, 4);
            lemma_le_bytes_len(self.pad as nat, 4);
            lemma_le_bytes_len(self.map_offset as nat, 8);
            lemma_le_bytes_len(self.vaddr as nat, 8);
            lemma_le_bytes_len(self.xdna_addr as nat, 8);
        }
        assert(out@ =~= self.image());
        out
    }

    /// The argument that a byte image in the C layout stands for.
    pub open spec fn of_image(b: Seq<u8>) -> amdxdna_drm_get_bo_info {
        amdxdna_drm_get_bo_info {
            ext: le_at(b, 0, 8) as u64,
            ext_flags: le_at(b, 8, 8) as u64,
            handle: le_at(b, 16, 4) as u32,
            pad: le_at(b, 20, 4) as u32,
            map_offset: le_at(b, 24, 8) as u64,
            vaddr: le_at(b, 32, 8) as u64,
            xdna_addr: le_at(b, 40, 8) as u64,
        }
    }

    /// Reads an argument that the kernel has filled in.
    pub fn from_bytes(b: &[u8]) -> (r: amdxdna_drm_get_bo_info)
        requires
            b@.len() >= 48,
        ensures
            r == Self::of_image(b@),
    {
        amdxdna_drm_get_bo_info {
            ext: read_u64(b, 0),
            ext_flags: read_u64(b, 8),
            handle: read_u32(b, 16),
            pad: read_u32(b, 20),
            map_offset: read_u64(b, 24),
            vaddr: read_u64(b, 32),
            xdna_addr: read_u64(b, 40),
        }
    }
}

/// Request for a GPU buffer.
#[derive(Debug, Clone, Copy, PartialEq, Eq, Structural, Default)]
pub struct drm_amdgpu_gem_create_in {
    pub bo_size: u64,
    pub alignment: u64,
    pub domains: u64,
    pub domain_flags: u64,
}

impl drm_amdgpu_gem_create_in {
    /// The argument in the C layout.
    pub open spec fn image(&self) -> Seq<u8> {
        le_bytes(self.bo_size as nat, 8) + le_bytes(self.alignment as nat, 8) + le_bytes(self.domains as nat, 8) + le_bytes(self.domain_flags as nat, 8)
    }

    /// The argument in the C layout.
    pub fn to_bytes(&self) -> (r: Vec<u8>)
        ensures
            r@ == self.image(),
            r@.len() == 32,
    {
        let mut out: Vec<u8> = Vec::new();
        push_le(&mut out, self.bo_size, 8);
        push_le(&mut out, self.alignment, 8);
        push_le(&mut out, self.domains, 8);
        push_le(&mut out, self.domain_flags, 8);
        proof {
            lemma_le_bytes_len(self.bo_size as nat, 8);
            lemma_le_bytes_len(self.alignment as nat, 8);
            lemma_le_bytes_len(self.domains as nat, 8);
            lemma_le_bytes_len(self.domain_flags as nat, 8);
        }
        assert(out@ =~= self.image());
        out
    }
}

/// Reply to a request for a GPU buffer.
#[derive(Debug, Clone, Copy, PartialEq, Eq, Structural, Default)]
pub struct drm_amdgpu_gem_create_out {
    pub handle: u32,
    pub pad: u32,
}

impl drm_amdgpu_gem_create_out {
    /// The argument in the C layout.
    pub open spec fn image(&self) -> Seq<u8> {
        le_bytes(self.handle as nat, 4) + le_bytes(self.pad as nat, 4)
    }

    /// The argument in the C layout.
    pub fn to_bytes(&self) -> (r: Vec<u8>)
        ensures
            r@ == self.image(),
            r@.len() == 8,
    {
        let mut out: Vec<u8> = Vec::new();
        push_le(&mut out, self.handle as u64, 4);
        push_le(&mut out, self.pad as u64, 4);
        proof {
            lemma_le_bytes_len(self.handle as nat, 4);
            lemma_le_bytes_len(self.pad as nat, 4);
        }
        assert(out@ =~= self.image());
        out
    }

    /// The argument that a byte image in the C layout stands for.
    pub open spec fn of_image(b: Seq<u8>) -> drm_amdgpu_gem_create_out {
        drm_amdgpu_gem_create_out {
            handle: le_at(b, 0, 4) as u32,
            pad: le_at(b, 4, 4) as u32,
        }
    }

    /// Reads an argument that the kernel has filled in.
    pub fn from_bytes(b: &[u8]) -> (r: drm_amdgpu_gem_create_out)
        requires
            b@.len() >= 8,
        ensures
            r == Self::of_image(b@),
    {
        drm_amdgpu_gem_create_out {
            handle: read_u32(b, 0),
            pad: read_u32(b, 4),
        }
    }
}

/// Argument of the closing of a buffer.
#[derive(Debug, Clone, Copy, PartialEq, Eq, Structural, Default)]
pub struct drm_gem_close {
    pub handle: u32,
    pub pad: u32,
}

impl drm_gem_close {
    /// The argument in the C layout.
    pub open spec fn image(&self) -> Seq<u8> {
        le_bytes(self.handle as nat, 4) + le_bytes(self.pad as nat, 4)
    }

    /// The argument in the C layout.
    pub fn to_bytes(&self) -> (r: Vec<u8>)
        ensures
            r@ == self.image(),
            r@.len() == 8,
    {
        let mut out: Vec<u8> = Vec::new();
        push_le(&mut out, self.handle as u64, 4);
        push_le(&mut out, self.pad as u64, 4);
        proof {
            lemma_le_bytes_len(self.handle as nat, 4);
            lemma_le_bytes_len(self.pad as nat, 4);
        }
        assert(out@ =~= self.image());
        out
    }
}

/// Argument of the export and import of a dma-buf.
#[derive(Debug, Clone, Copy, PartialEq, Eq, Structural, Default)]
pub struct drm_prime_handle {
    pub handle: u32,
    pub flags: u32,
    pub fd: i32,
}

impl drm_prime_handle {
    /// The argument in the C layout.
    pub open spec fn image(&self) -> Seq<u8> {
        le_bytes(self.handle as nat, 4) + le_bytes(self.flags as nat, 4) + le_bytes(unsigned32(self.fd) as nat, 4)
    }

    /// The argument in the C layout.
    pub fn to_bytes(&self) -> (r: Vec<u8>)
        ensures
            r@ == self.image(),
            r@.len() == 12,
    {
        let mut out: Vec<u8> = Vec::new();
        push_le(&mut out, self.handle as u64, 4);
        push_le(&mut out, self.flags as u64, 4);
        push_le(&mut out, to_unsigned32(self.fd) as u64, 4);
        proof {
            lemma_le_bytes_len(self.handle as nat, 4);
            lemma_le_bytes_len(self.flags as nat, 4);
            lemma_le_bytes_len(unsigned32(self.fd) as nat, 4);
        }
        assert(out@ =~= self.image());
        out
    }

    /// The argument that a byte image in the C layout stands for.
    pub open spec fn of_image(b: Seq<u8>) -> drm_prime_handle {
        drm_prime_handle {
            handle: le_at(b, 0, 4) as u32,
            flags: le_at(b, 4, 4) as u32,
            fd: signed32(le_at(b, 8, 4) as u32),
        }
    }

    /// Reads an argument that the kernel has filled in.
    pub fn from_bytes(b: &[u8]) -> (r: drm_prime_handle)
        requires
            b@.len() >= 12,
        ensures
            r == Self::of_image(b@),
    {
        drm_prime_handle {
            handle: read_u32(b, 0),
            flags: read_u32(b, 4),
            fd: to_signed32(read_u32(b, 8)),
        }
    }
}

// ---------------------------------------------------------------------------
// Laws
// ---------------------------------------------------------------------------

/// The byte images have the sizes that the request numbers carry.
pub proof fn law_image_sizes()
    ensures
        forall|x: dma_buf_sync| #[trigger] x.image().len() == 8,
        forall|x: dma_buf_export_sync_file| #[trigger] x.image().len() == 8,
        forall|x: dma_buf_import_sync_file| #[trigger] x.image().len() == 8,
        forall|x: drm_syncobj_create| #[trigger] x.image().len() == 8,
        forall|x: drm_syncobj_destroy| #[trigger] x.image().len() == 8,
        forall|x: drm_syncobj_handle| #[trigger] x.image().len() == 24,
        forall|x: drm_syncobj_timeline_wait| #[trigger] x.image().len() == 48,
        forall|x: drm_syncobj_transfer| #[trigger] x.image().len() == 32,
        forall|x: drm_syncobj_timeline_array| #[trigger] x.image().len() == 24,
        forall|x: amdxdna_drm_create_hwctx| #[trigger] x.image().len() == 56,
        forall|x: amdxdna_drm_destroy_hwctx| #[trigger] x.image().len() == 8,
        forall|x: amdxdna_drm_create_bo| #[trigger] x.image().len() == 32,
        forall|x: amdxdna_drm_va_entry| #[trigger] x.image().len() == 16,
        forall|x: amdxdna_drm_va_tbl| #[trigger] x.image().len() == 8,
        forall|x: amdxdna_drm_exec_cmd| #[trigger] x.image().len() == 56,
        forall|x: amdxdna_drm_get_bo_info| #[trigger] x.image().len() == 48,
        forall|x: drm_amdgpu_gem_create_in| #[trigger] x.image().len() == 32,
        forall|x: drm_amdgpu_gem_create_out| #[trigger] x.image().len() == 8,
        forall|x: drm_gem_close| #[trigger] x.image().len() == 8,
        forall|x: drm_prime_handle| #[trigger] x.image().len() == 12,
{
    assert forall|x: dma_buf_sync| #[trigger] x.image().len() == 8 by {
        lemma_le_bytes_len(x.flags as nat, 8);
    }
    assert forall|x: dma_buf_export_sync_file| #[trigger] x.image().len() == 8 by {
        lemma_le_bytes_len(x.flags as nat, 4);
        lemma_le_bytes_len(unsigned32(x.fd) as nat, 4);
    }
    assert forall|x: dma_buf_import_sync_file| #[trigger] x.image().len() == 8 by {
        lemma_le_bytes_len(x.flags as nat, 4);
        lemma_le_bytes_len(unsigned32(x.fd) as nat, 4);
    }
    assert forall|x: drm_syncobj_create| #[trigger] x.image().len() == 8 by {
        lemma_le_bytes_len(x.handle as nat, 4);
        lemma_le_bytes_len(x.flags as nat, 4);
    }
    assert forall|x: drm_syncobj_destroy| #[trigger] x.image().len() == 8 by {
        lemma_le_bytes_len(x.handle as nat, 4);
        lemma_le_bytes_len(x.pad as nat, 4);
    }
    assert forall|x: drm_syncobj_handle| #[trigger] x.image().len() == 24 by {
        lemma_le_bytes_len(x.handle as nat, 4);
        lemma_le_bytes_len(x.flags as nat, 4);
        lemma_le_bytes_len(unsigned32(x.fd) as nat, 4);
        lemma_le_bytes_len(x.pad as nat, 4);
        lemma_le_bytes_len(x.point as nat, 8);
    }
    assert forall|x: drm_syncobj_timeline_wait| #[trigger] x.image().len() == 48 by {
        lemma_le_bytes_len(x.handles as nat, 8);
        lemma_le_bytes_len(x.points as nat, 8);
        lemma_le_bytes_len(unsigned64(x.timeout_nsec) as nat, 8);
        lemma_le_bytes_len(x.count_handles as nat, 4);
        lemma_le_bytes_len(x.flags as nat, 4);
        lemma_le_bytes_len(x.first_signaled as nat, 4);
        lemma_le_bytes_len(x.pad as nat, 4);
        lemma_le_bytes_len(x.deadline_nsec as nat, 8);
    }
    assert forall|x: drm_syncobj_transfer| #[trigger] x.image().len() == 32 by {
        lemma_le_bytes_len(x.src_handle as nat, 4);
        lemma_le_bytes_len(x.dst_handle as nat, 4);
        lemma_le_bytes_len(x.src_point as nat, 8);
        lemma_le_bytes_len(x.dst_point as nat, 8);
        lemma_le_bytes_len(x.flags as nat, 4);
        lemma_le_bytes_len(x.pad as nat, 4);
    }
    assert forall|x: drm_syncobj_timeline_array| #[trigger] x.image().len() == 24 by {
        lemma_le_bytes_len(x.handles as nat, 8);
        lemma_le_bytes_len(x.points as nat, 8);
        lemma_le_bytes_len(x.count_handles as nat, 4);
        lemma_le_bytes_len(x.flags as nat, 4);
    }
    assert forall|x: amdxdna_drm_create_hwctx| #[trigger] x.image().len() == 56 by {
        lemma_le_bytes_len(x.ext as nat, 8);
        lemma_le_bytes_len(x.ext_flags as nat, 8);
        lemma_le_bytes_len(x.qos_p as nat, 8);
        lemma_le_bytes_len(x.umq_bo as nat, 4);
        lemma_le_bytes_len(x.log_buf_bo as nat, 4);
        lemma_le_bytes_len(x.max_opc as nat, 4);
        lemma_le_bytes_len(x.num_tiles as nat, 4);
        lemma_le_bytes_len(x.mem_size as nat, 4);
        lemma_le_bytes_len(x.umq_doorbell as nat, 4);
        lemma_le_bytes_len(x.handle as nat, 4);
        lemma_le_bytes_len(x.syncobj_handle as nat, 4);
    }
    assert forall|x: amdxdna_drm_destroy_hwctx| #[trigger] x.image().len() == 8 by {
        lemma_le_bytes_len(x.handle as nat, 4);
        lemma_le_bytes_len(x.pad as nat, 4);
    }
    assert forall|x: amdxdna_drm_create_bo| #[trigger] x.image().len() == 32 by {
        lemma_le_bytes_len(x.flags as nat, 8);
        lemma_le_bytes_len(x.vaddr as nat, 8);
        lemma_le_bytes_len(x.size as nat, 8);
        lemma_le_bytes_len(x.kind as nat, 4);
        lemma_le_bytes_len(x.handle as nat, 4);
    }
    assert forall|x: amdxdna_drm_va_entry| #[trigger] x.image().len() == 16 by {
        lemma_le_bytes_len(x.vaddr as nat, 8);
        lemma_le_bytes_len(x.len as nat, 8);
    }
    assert forall|x: amdxdna_drm_va_tbl| #[trigger] x.image().len() == 8 by {
        lemma_le_bytes_len(unsigned32(x.dmabuf_fd) as nat, 4);
        lemma_le_bytes_len(x.num_entries as nat, 4);
    }
    assert forall|x: amdxdna_drm_exec_cmd| #[trigger] x.image().len() == 56 by {
        lemma_le_bytes_len(x.ext as nat, 8);
        lemma_le_bytes_len(x.ext_flags as nat, 8);
        lemma_le_bytes_len(x.hwctx as nat, 4);
        lemma_le_bytes_len(x.kind as nat, 4);
        lemma_le_bytes_len(x.cmd_handles as nat, 8);
        lemma_le_bytes_len(x.args as nat, 8);
        lemma_le_bytes_len(x.cmd_count as nat, 4);
        lemma_le_bytes_len(x.arg_count as nat, 4);
        lemma_le_bytes_len(x.seq as nat, 8);
    }
    assert forall|x: amdxdna_drm_get_bo_info| #[trigger] x.image().len() == 48 by {
        lemma_le_bytes_len(x.ext as nat, 8);
        lemma_le_bytes_len(x.ext_flags as nat, 8);
        lemma_le_bytes_len(x.handle as nat, 4);
        lemma_le_bytes_len(x.pad as nat, 4);
        lemma_le_bytes_len(x.map_offset as nat, 8);
        lemma_le_bytes_len(x.vaddr as nat, 8);
        lemma_le_bytes_len(x.xdna_addr as nat, 8);
    }
    assert forall|x: drm_amdgpu_gem_create_in| #[trigger] x.image().len() == 32 by {
        lemma_le_bytes_len(x.bo_size as nat, 8);
        lemma_le_bytes_len(x.alignment as nat, 8);
        lemma_le_bytes_len(x.domains as nat, 8);
        lemma_le_bytes_len(x.domain_flags as nat, 8);
    }
    assert forall|x: drm_amdgpu_gem_create_out| #[trigger] x.image().len() == 8 by {
        lemma_le_bytes_len(x.handle as nat, 4);
        lemma_le_bytes_len(x.pad as nat, 4);
    }
    assert forall|x: drm_gem_close| #[trigger] x.image().len() == 8 by {
        lemma_le_bytes_len(x.handle as nat, 4);
        lemma_le_bytes_len(x.pad as nat, 4);
    }
    assert forall|x: drm_prime_handle| #[trigger] x.image().len() == 12 by {
        lemma_le_bytes_len(x.handle as nat, 4);
        lemma_le_bytes_len(x.flags as nat, 4);
        lemma_le_bytes_len(unsigned32(x.fd) as nat, 4);
    }
}

/// Every request number is made of its direction, type, number and argument size.
pub proof fn law_request_numbers()
    ensures
        DRM_IOCTL_AMDGPU_GEM_CREATE_NUM == request_number(_IOC_READWRITE as int, DRM_IOCTL_BASE, 0x40, 32),
        DRM_IOCTL_GEM_CLOSE_NUM == request_number(_IOC_WRITE as int, DRM_IOCTL_BASE, 0x09, 8),
        DRM_IOCTL_PRIME_HANDLE_TO_FD_NUM == request_number(_IOC_READWRITE as int, DRM_IOCTL_BASE, 0x2d, 12),
        DRM_IOCTL_PRIME_FD_TO_HANDLE_NUM == request_number(_IOC_READWRITE as int, DRM_IOCTL_BASE, 0x2e, 12),
        DRM_IOCTL_SYNCOBJ_CREATE_NUM == request_number(_IOC_READWRITE as int, DRM_IOCTL_BASE, 0xbf, 8),
        DRM_IOCTL_SYNCOBJ_DESTROY_NUM == request_number(_IOC_READWRITE as int, DRM_IOCTL_BASE, 0xc0, 8),
        DRM_IOCTL_SYNCOBJ_HANDLE_TO_FD_NUM == request_number(_IOC_READWRITE as int, DRM_IOCTL_BASE, 0xc1, 24),
        DRM_IOCTL_SYNCOBJ_FD_TO_HANDLE_NUM == request_number(_IOC_READWRITE as int, DRM_IOCTL_BASE, 0xc2, 24),
        DRM_IOCTL_SYNCOBJ_TIMELINE_WAIT_NUM == request_number(_IOC_READWRITE as int, DRM_IOCTL_BASE, 0xca, 48),
        DRM_IOCTL_SYNCOBJ_TIMELINE_SIGNAL_NUM == request_number(_IOC_READWRITE as int, DRM_IOCTL_BASE, 0xcd, 24),
        DRM_IOCTL_SYNCOBJ_TRANSFER_NUM == request_number(_IOC_READWRITE as int, DRM_IOCTL_BASE, 0xcc, 32),
        DRM_IOCTL_AMDXDNA_CREATE_BO_NUM == request_number(_IOC_READWRITE as int, DRM_IOCTL_BASE, 0x43, 32),
        DRM_IOCTL_AMDXDNA_GET_BO_INFO_NUM == request_number(_IOC_READWRITE as int, DRM_IOCTL_BASE, 0x44, 48),
        DMA_BUF_IOCTL_SYNC_NUM == request_number(_IOC_WRITE as int, DMA_BUF_BASE, 0x00, 8),
{
}

/// An argument is read back from its byte image.
pub proof fn law_drm_syncobj_create_reads_back(x: drm_syncobj_create)
    ensures
        drm_syncobj_create::of_image(x.image()) == x,
{
    let b = x.image();
    lemma_pow256();
    lemma_le_round_trip(x.handle as nat, 4);
    lemma_le_round_trip(x.flags as nat, 4);
    assert(b.subrange(0, 4) =~= le_bytes(x.handle as nat, 4));
    assert(b.subrange(4, 8) =~= le_bytes(x.flags as nat, 4));
}

/// An argument is read back from its byte image.
pub proof fn law_drm_syncobj_handle_reads_back(x: drm_syncobj_handle)
    ensures
        drm_syncobj_handle::of_image(x.image()) == x,
{
    let b = x.image();
    lemma_pow256();
    lemma_le_round_trip(x.handle as nat, 4);
    lemma_le_round_trip(x.flags as nat, 4);
    lemma_le_round_trip(unsigned32(x.fd) as nat, 4);
    lemma_le_round_trip(x.pad as nat, 4);
    lemma_le_round_trip(x.point as nat, 8);
    assert(b.subrange(0, 4) =~= le_bytes(x.handle as nat, 4));
    assert(b.subrange(4, 8) =~= le_bytes(x.flags as nat, 4));
    assert(b.subrange(8, 12) =~= le_bytes(unsigned32(x.fd) as nat, 4));
    assert(b.subrange(12, 16) =~= le_bytes(x.pad as nat, 4));
    assert(b.subrange(16, 24) =~= le_bytes(x.point as nat, 8));
}

/// An argument is read back from its byte image.
pub proof fn law_amdxdna_drm_create_bo_reads_back(x: amdxdna_drm_create_bo)
    ensures
        amdxdna_drm_create_bo::of_image(x.image()) == x,
{
    let b = x.image();
    lemma_pow256();
    lemma_le_round_trip(x.flags as nat, 8);
    lemma_le_round_trip(x.vaddr as nat, 8);
    lemma_le_round_trip(x.size as nat, 8);
    lemma_le_round_trip(x.kind as nat, 4);
    lemma_le_round_trip(x.handle as nat, 4);
    assert(b.subrange(0, 8) =~= le_bytes(x.flags as nat, 8));
    assert(b.subrange(8, 16) =~= le_bytes(x.vaddr as nat, 8));
    assert(b.subrange(16, 24) =~= le_bytes(x.size as nat, 8));
    assert(b.subrange(24, 28) =~= le_bytes(x.kind as nat, 4));
    assert(b.subrange(28, 32) =~= le_bytes(x.handle as nat, 4));
}

/// An argument is read back from its byte image.
pub proof fn law_amdxdna_drm_get_bo_info_reads_back(x: amdxdna_drm_get_bo_info)
    ensures
        amdxdna_drm_get_bo_info::of_image(x.image()) == x,
{
    let b = x.image();
    lemma_pow256();
    lemma_le_round_trip(x.ext as nat, 8);
    lemma_le_round_trip(x.ext_flags as nat, 8);
    lemma_le_round_trip(x.handle as nat, 4);
    lemma_le_round_trip(x.pad as nat, 4);
    lemma_le_round_trip(x.map_offset as nat, 8);
    lemma_le_round_trip(x.vaddr as nat, 8);
    lemma_le_round_trip(x.xdna_addr as nat, 8);
    assert(b.subrange(0, 8) =~= le_bytes(x.ext as nat, 8));
    assert(b.subrange(8, 16) =~= le_bytes(x.ext_flags as nat, 8));
    assert(b.subrange(16, 20) =~= le_bytes(x.handle as nat, 4));
    assert(b.subrange(20, 24) =~= le_bytes(x.pad as nat, 4));
    assert(b.subrange(24, 32) =~= le_bytes(x.map_offset as nat, 8));
    assert(b.subrange(32, 40) =~= le_bytes(x.vaddr as nat, 8));
    assert(b.subrange(40, 48) =~= le_bytes(x.xdna_addr as nat, 8));
}

/// An argument is read back from its byte image.
pub proof fn law_drm_amdgpu_gem_create_out_reads_back(x: drm_amdgpu_gem_create_out)
    ensures
        drm_amdgpu_gem_create_out::of_image(x.image()) == x,
{
    let b = x.image();
    lemma_pow256();
    lemma_le_round_trip(x.handle as nat, 4);
    lemma_le_round_trip(x.pad as nat, 4);
    assert(b.subrange(0, 4) =~= le_bytes(x.handle as nat, 4));
    assert(b.subrange(4, 8) =~= le_bytes(x.pad as nat, 4));
}

/// An argument is read back from its byte image.
pub proof fn law_drm_prime_handle_reads_back(x: drm_prime_handle)
    ensures
        drm_prime_handle::of_image(x.image()) == x,
{
    let b = x.image();
    lemma_pow256();
    lemma_le_round_trip(x.handle as nat, 4);
    lemma_le_round_trip(x.flags as nat, 4);
    lemma_le_round_trip(unsigned32(x.fd) as nat, 4);
    assert(b.subrange(0, 4) =~= le_bytes(x.handle as nat, 4));
    assert(b.subrange(4, 8) =~= le_bytes(x.flags as nat, 4));
    assert(b.subrange(8, 12) =~= le_bytes(unsigned32(x.fd) as nat, 4));
}

} // verus!
