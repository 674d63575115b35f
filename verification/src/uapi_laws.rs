//! What holds of the arguments of the kernel interface: where each field lies.

use vstd::prelude::*;

use crate::bytes::{le_at, le_bytes, lemma_le_bytes_len, lemma_le_round_trip, lemma_pow256, pow256};
use crate::uapi::{
    dma_buf_sync, dma_buf_export_sync_file, dma_buf_import_sync_file, drm_syncobj_create,
    drm_syncobj_destroy, drm_syncobj_handle, drm_syncobj_timeline_wait, drm_syncobj_transfer,
    drm_syncobj_timeline_array, amdxdna_drm_create_hwctx, amdxdna_drm_destroy_hwctx,
    amdxdna_drm_create_bo, amdxdna_drm_va_entry, amdxdna_drm_va_tbl, amdxdna_drm_exec_cmd,
    amdxdna_drm_get_bo_info, drm_amdgpu_gem_create_in, drm_amdgpu_gem_create_out, drm_gem_close,
    drm_prime_handle,
};

verus! {

proof fn lemma_next(p: Seq<u8>, n: nat, k: nat)
    requires
        n < pow256(k),
    ensures
        (p + le_bytes(n, k)).len() == p.len() + k,
        le_at(p + le_bytes(n, k), p.len() as int, k as int) == n,
        forall|at: int, j: int|
            0 <= at && 0 <= j && at + j <= p.len() ==> #[trigger] le_at(p + le_bytes(n, k), at, j)
                == le_at(p, at, j),
{
    let x = le_bytes(n, k);
    let all = p + x;
    lemma_le_bytes_len(n, k);
    lemma_le_round_trip(n, k);
    assert(all.subrange(p.len() as int, (p.len() + k) as int) =~= x);
    assert forall|at: int, j: int|
        0 <= at && 0 <= j && at + j <= p.len() implies #[trigger] le_at(all, at, j) == le_at(
        p,
        at,
        j,
    ) by {
        assert(all.subrange(at, at + j) =~= p.subrange(at, at + j));
    }
}

proof fn lemma_first(n: nat, k: nat)
    requires
        n < pow256(k),
    ensures
        le_bytes(n, k).len() == k,
        le_at(le_bytes(n, k), 0, k as int) == n,
{
    lemma_le_bytes_len(n, k);
    lemma_le_round_trip(n, k);
    assert(le_bytes(n, k).subrange(0, k as int) =~= le_bytes(n, k));
}

/// A signed number as it is stored in 32 bits.
pub open spec fn stored32(v: i32) -> nat {
    if v < 0 {
        (v + 0x1_0000_0000) as nat
    } else {
        v as nat
    }
}

/// A signed number as it is stored in 64 bits.
pub open spec fn stored64(v: i64) -> nat {
    if v < 0 {
        (v + 0x1_0000_0000_0000_0000) as nat
    } else {
        v as nat
    }
}

/// Where the fields of `dma_buf_sync` lie.
pub proof fn law_dma_buf_sync_fields(x: dma_buf_sync)
    ensures
        x.image().len() == 8,
        le_at(x.image(), 0, 8) == x.flags as nat,
{
    lemma_pow256();
    let p0 = le_bytes(x.flags as nat, 8);
    lemma_first(x.flags as nat, 8);
    assert(x.image() == p0);
}

/// Where the fields of `dma_buf_export_sync_file` lie.
pub proof fn law_dma_buf_export_sync_file_fields(x: dma_buf_export_sync_file)
    ensures
        x.image().len() == 8,
        le_at(x.image(), 0, 4) == x.flags as nat,
        le_at(x.image(), 4, 4) == stored32(x.fd),
{
    lemma_pow256();
    let p0 = le_bytes(x.flags as nat, 4);
    lemma_first(x.flags as nat, 4);
    lemma_next(p0, stored32(x.fd), 4);
    let p1 = p0 + le_bytes(stored32(x.fd), 4);
    assert(x.image() == p1);
}

/// Where the fields of `dma_buf_import_sync_file` lie.
pub proof fn law_dma_buf_import_sync_file_fields(x: dma_buf_import_sync_file)
    ensures
        x.image().len() == 8,
        le_at(x.image(), 0, 4) == x.flags as nat,
        le_at(x.image(), 4, 4) == stored32(x.fd),
{
    lemma_pow256();
    let p0 = le_bytes(x.flags as nat, 4);
    lemma_first(x.flags as nat, 4);
    lemma_next(p0, stored32(x.fd), 4);
    let p1 = p0 + le_bytes(stored32(x.fd), 4);
    assert(x.image() == p1);
}

/// Where the fields of `drm_syncobj_create` lie.
pub proof fn law_drm_syncobj_create_fields(x: drm_syncobj_create)
    ensures
        x.image().len() == 8,
        le_at(x.image(), 0, 4) == x.handle as nat,
        le_at(x.image(), 4, 4) == x.flags as nat,
{
    lemma_pow256();
    let p0 = le_bytes(x.handle as nat, 4);
    lemma_first(x.handle as nat, 4);
    lemma_next(p0, x.flags as nat, 4);
    let p1 = p0 + le_bytes(x.flags as nat, 4);
    assert(x.image() == p1);
}

/// Where the fields of `drm_syncobj_destroy` lie.
pub proof fn law_drm_syncobj_destroy_fields(x: drm_syncobj_destroy)
    ensures
        x.image().len() == 8,
        le_at(x.image(), 0, 4) == x.handle as nat,
        le_at(x.image(), 4, 4) == x.pad as nat,
{
    lemma_pow256();
    let p0 = le_bytes(x.handle as nat, 4);
    lemma_first(x.handle as nat, 4);
    lemma_next(p0, x.pad as nat, 4);
    let p1 = p0 + le_bytes(x.pad as nat, 4);
    assert(x.image() == p1);
}

/// Where the fields of `drm_syncobj_handle` lie.
pub proof fn law_drm_syncobj_handle_fields(x: drm_syncobj_handle)
    ensures
        x.image().len() == 24,
        le_at(x.image(), 0, 4) == x.handle as nat,
        le_at(x.image(), 4, 4) == x.flags as nat,
        le_at(x.image(), 8, 4) == stored32(x.fd),
        le_at(x.image(), 12, 4) == x.pad as nat,
        le_at(x.image(), 16, 8) == x.point as nat,
{
    lemma_pow256();
    let p0 = le_bytes(x.handle as nat, 4);
    lemma_first(x.handle as nat, 4);
    lemma_next(p0, x.flags as nat, 4);
    let p1 = p0 + le_bytes(x.flags as nat, 4);
    lemma_next(p1, stored32(x.fd), 4);
    let p2 = p1 + le_bytes(stored32(x.fd), 4);
    lemma_next(p2, x.pad as nat, 4);
    let p3 = p2 + le_bytes(x.pad as nat, 4);
    lemma_next(p3, x.point as nat, 8);
    let p4 = p3 + le_bytes(x.point as nat, 8);
    assert(x.image() == p4);
}

/// Where the fields of `drm_syncobj_timeline_wait` lie.
pub proof fn law_drm_syncobj_timeline_wait_fields(x: drm_syncobj_timeline_wait)
    ensures
        x.image().len() == 48,
        le_at(x.image(), 0, 8) == x.handles as nat,
        le_at(x.image(), 8, 8) == x.points as nat,
        le_at(x.image(), 16, 8) == stored64(x.timeout_nsec),
        le_at(x.image(), 24, 4) == x.count_handles as nat,
        le_at(x.image(), 28, 4) == x.flags as nat,
        le_at(x.image(), 32, 4) == x.first_signaled as nat,
        le_at(x.image(), 36, 4) == x.pad as nat,
        le_at(x.image(), 40, 8) == x.deadline_nsec as nat,
{
    lemma_pow256();
    let p0 = le_bytes(x.handles as nat, 8);
    lemma_first(x.handles as nat, 8);
    lemma_next(p0, x.points as nat, 8);
    let p1 = p0 + le_bytes(x.points as nat, 8);
    lemma_next(p1, stored64(x.timeout_nsec), 8);
    let p2 = p1 + le_bytes(stored64(x.timeout_nsec), 8);
    lemma_next(p2, x.count_handles as nat, 4);
    let p3 = p2 + le_bytes(x.count_handles as nat, 4);
    lemma_next(p3, x.flags as nat, 4);
    let p4 = p3 + le_bytes(x.flags as nat, 4);
    lemma_next(p4, x.first_signaled as nat, 4);
    let p5 = p4 + le_bytes(x.first_signaled as nat, 4);
    lemma_next(p5, x.pad as nat, 4);
    let p6 = p5 + le_bytes(x.pad as nat, 4);
    lemma_next(p6, x.deadline_nsec as nat, 8);
    let p7 = p6 + le_bytes(x.deadline_nsec as nat, 8);
    assert(x.image() == p7);
}

/// Where the fields of `drm_syncobj_transfer` lie.
pub proof fn law_drm_syncobj_transfer_fields(x: drm_syncobj_transfer)
    ensures
        x.image().len() == 32,
        le_at(x.image(), 0, 4) == x.src_handle as nat,
        le_at(x.image(), 4, 4) == x.dst_handle as nat,
        le_at(x.image(), 8, 8) == x.src_point as nat,
        le_at(x.image(), 16, 8) == x.dst_point as nat,
        le_at(x.image(), 24, 4) == x.flags as nat,
        le_at(x.image(), 28, 4) == x.pad as nat,
{
    lemma_pow256();
    let p0 = le_bytes(x.src_handle as nat, 4);
    lemma_first(x.src_handle as nat, 4);
    lemma_next(p0, x.dst_handle as nat, 4);
    let p1 = p0 + le_bytes(x.dst_handle as nat, 4);
    lemma_next(p1, x.src_point as nat, 8);
    let p2 = p1 + le_bytes(x.src_point as nat, 8);
    lemma_next(p2, x.dst_point as nat, 8);
    let p3 = p2 + le_bytes(x.dst_point as nat, 8);
    lemma_next(p3, x.flags as nat, 4);
    let p4 = p3 + le_bytes(x.flags as nat, 4);
    lemma_next(p4, x.pad as nat, 4);
    let p5 = p4 + le_bytes(x.pad as nat, 4);
    assert(x.image() == p5);
}

/// Where the fields of `drm_syncobj_timeline_array` lie.
pub proof fn law_drm_syncobj_timeline_array_fields(x: drm_syncobj_timeline_array)
    ensures
        x.image().len() == 24,
        le_at(x.image(), 0, 8) == x.handles as nat,
        le_at(x.image(), 8, 8) == x.points as nat,
        le_at(x.image(), 16, 4) == x.count_handles as nat,
        le_at(x.image(), 20, 4) == x.flags as nat,
{
    lemma_pow256();
    let p0 = le_bytes(x.handles as nat, 8);
    lemma_first(x.handles as nat, 8);
    lemma_next(p0, x.points as nat, 8);
    let p1 = p0 + le_bytes(x.points as nat, 8);
    lemma_next(p1, x.count_handles as nat, 4);
    let p2 = p1 + le_bytes(x.count_handles as nat, 4);
    lemma_next(p2, x.flags as nat, 4);
    let p3 = p2 + le_bytes(x.flags as nat, 4);
    assert(x.image() == p3);
}

/// Where the fields of `amdxdna_drm_create_hwctx` lie.
pub proof fn law_amdxdna_drm_create_hwctx_fields(x: amdxdna_drm_create_hwctx)
    ensures
        x.image().len() == 56,
        le_at(x.image(), 0, 8) == x.ext as nat,
        le_at(x.image(), 8, 8) == x.ext_flags as nat,
        le_at(x.image(), 16, 8) == x.qos_p as nat,
        le_at(x.image(), 24, 4) == x.umq_bo as nat,
        le_at(x.image(), 28, 4) == x.log_buf_bo as nat,
        le_at(x.image(), 32, 4) == x.max_opc as nat,
        le_at(x.image(), 36, 4) == x.num_tiles as nat,
        le_at(x.image(), 40, 4) == x.mem_size as nat,
        le_at(x.image(), 44, 4) == x.umq_doorbell as nat,
        le_at(x.image(), 48, 4) == x.handle as nat,
        le_at(x.image(), 52, 4) == x.syncobj_handle as nat,
{
    lemma_pow256();
    let p0 = le_bytes(x.ext as nat, 8);
    lemma_first(x.ext as nat, 8);
    lemma_next(p0, x.ext_flags as nat, 8);
    let p1 = p0 + le_bytes(x.ext_flags as nat, 8);
    lemma_next(p1, x.qos_p as nat, 8);
    let p2 = p1 + le_bytes(x.qos_p as nat, 8);
    lemma_next(p2, x.umq_bo as nat, 4);
    let p3 = p2 + le_bytes(x.umq_bo as nat, 4);
    lemma_next(p3, x.log_buf_bo as nat, 4);
    let p4 = p3 + le_bytes(x.log_buf_bo as nat, 4);
    lemma_next(p4, x.max_opc as nat, 4);
    let p5 = p4 + le_bytes(x.max_opc as nat, 4);
    lemma_next(p5, x.num_tiles as nat, 4);
    let p6 = p5 + le_bytes(x.num_tiles as nat, 4);
    lemma_next(p6, x.mem_size as nat, 4);
    let p7 = p6 + le_bytes(x.mem_size as nat, 4);
    lemma_next(p7, x.umq_doorbell as nat, 4);
    let p8 = p7 + le_bytes(x.umq_doorbell as nat, 4);
    lemma_next(p8, x.handle as nat, 4);
    let p9 = p8 + le_bytes(x.handle as nat, 4);
    lemma_next(p9, x.syncobj_handle as nat, 4);
    let p10 = p9 + le_bytes(x.syncobj_handle as nat, 4);
    assert(x.image() == p10);
}

/// Where the fields of `amdxdna_drm_destroy_hwctx` lie.
pub proof fn law_amdxdna_drm_destroy_hwctx_fields(x: amdxdna_drm_destroy_hwctx)
    ensures
        x.image().len() == 8,
        le_at(x.image(), 0, 4) == x.handle as nat,
        le_at(x.image(), 4, 4) == x.pad as nat,
{
    lemma_pow256();
    let p0 = le_bytes(x.handle as nat, 4);
    lemma_first(x.handle as nat, 4);
    lemma_next(p0, x.pad as nat, 4);
    let p1 = p0 + le_bytes(x.pad as nat, 4);
    assert(x.image() == p1);
}

/// Where the fields of `amdxdna_drm_create_bo` lie.
pub proof fn law_amdxdna_drm_create_bo_fields(x: amdxdna_drm_create_bo)
    ensures
        x.image().len() == 32,
        le_at(x.image(), 0, 8) == x.flags as nat,
        le_at(x.image(), 8, 8) == x.vaddr as nat,
        le_at(x.image(), 16, 8) == x.size as nat,
        le_at(x.image(), 24, 4) == x.kind as nat,
        le_at(x.image(), 28, 4) == x.handle as nat,
{
    lemma_pow256();
    let p0 = le_bytes(x.flags as nat, 8);
    lemma_first(x.flags as nat, 8);
    lemma_next(p0, x.vaddr as nat, 8);
    let p1 = p0 + le_bytes(x.vaddr as nat, 8);
    lemma_next(p1, x.size as nat, 8);
    let p2 = p1 + le_bytes(x.size as nat, 8);
    lemma_next(p2, x.kind as nat, 4);
    let p3 = p2 + le_bytes(x.kind as nat, 4);
    lemma_next(p3, x.handle as nat, 4);
    let p4 = p3 + le_bytes(x.handle as nat, 4);
    assert(x.image() == p4);
}

/// Where the fields of `amdxdna_drm_va_entry` lie.
pub proof fn law_amdxdna_drm_va_entry_fields(x: amdxdna_drm_va_entry)
    ensures
        x.image().len() == 16,
        le_at(x.image(), 0, 8) == x.vaddr as nat,
        le_at(x.image(), 8, 8) == x.len as nat,
{
    lemma_pow256();
    let p0 = le_bytes(x.vaddr as nat, 8);
    lemma_first(x.vaddr as nat, 8);
    lemma_next(p0, x.len as nat, 8);
    let p1 = p0 + le_bytes(x.len as nat, 8);
    assert(x.image() == p1);
}

/// Where the fields of `amdxdna_drm_va_tbl` lie.
pub proof fn law_amdxdna_drm_va_tbl_fields(x: amdxdna_drm_va_tbl)
    ensures
        x.image().len() == 8,
        le_at(x.image(), 0, 4) == stored32(x.dmabuf_fd),
        le_at(x.image(), 4, 4) == x.num_entries as nat,
{
    lemma_pow256();
    let p0 = le_bytes(stored32(x.dmabuf_fd), 4);
    lemma_first(stored32(x.dmabuf_fd), 4);
    lemma_next(p0, x.num_entries as nat, 4);
    let p1 = p0 + le_bytes(x.num_entries as nat, 4);
    assert(x.image() == p1);
}

/// Where the fields of `amdxdna_drm_exec_cmd` lie.
pub proof fn law_amdxdna_drm_exec_cmd_fields(x: amdxdna_drm_exec_cmd)
    ensures
        x.image().len() == 56,
        le_at(x.image(), 0, 8) == x.ext as nat,
        le_at(x.image(), 8, 8) == x.ext_flags as nat,
        le_at(x.image(), 16, 4) == x.hwctx as nat,
        le_at(x.image(), 20, 4) == x.kind as nat,
        le_at(x.image(), 24, 8) == x.cmd_handles as nat,
        le_at(x.image(), 32, 8) == x.args as nat,
        le_at(x.image(), 40, 4) == x.cmd_count as nat,
        le_at(x.image(), 44, 4) == x.arg_count as nat,
        le_at(x.image(), 48, 8) == x.seq as nat,
{
    lemma_pow256();
    let p0 = le_bytes(x.ext as nat, 8);
    lemma_first(x.ext as nat, 8);
    lemma_next(p0, x.ext_flags as nat, 8);
    let p1 = p0 + le_bytes(x.ext_flags as nat, 8);
    lemma_next(p1, x.hwctx as nat, 4);
    let p2 = p1 + le_bytes(x.hwctx as nat, 4);
    lemma_next(p2, x.kind as nat, 4);
    let p3 = p2 + le_bytes(x.kind as nat, 4);
    lemma_next(p3, x.cmd_handles as nat, 8);
    let p4 = p3 + le_bytes(x.cmd_handles as nat, 8);
    lemma_next(p4, x.args as nat, 8);
    let p5 = p4 + le_bytes(x.args as nat, 8);
    lemma_next(p5, x.cmd_count as nat, 4);
    let p6 = p5 + le_bytes(x.cmd_count as nat, 4);
    lemma_next(p6, x.arg_count as nat, 4);
    let p7 = p6 + le_bytes(x.arg_count as nat, 4);
    lemma_next(p7, x.seq as nat, 8);
    let p8 = p7 + le_bytes(x.seq as nat, 8);
    assert(x.image() == p8);
}

/// Where the fields of `amdxdna_drm_get_bo_info` lie.
pub proof fn law_amdxdna_drm_get_bo_info_fields(x: amdxdna_drm_get_bo_info)
    ensures
        x.image().len() == 48,
        le_at(x.image(), 0, 8) == x.ext as nat,
        le_at(x.image(), 8, 8) == x.ext_flags as nat,
        le_at(x.image(), 16, 4) == x.handle as nat,
        le_at(x.image(), 20, 4) == x.pad as nat,
        le_at(x.image(), 24, 8) == x.map_offset as nat,
        le_at(x.image(), 32, 8) == x.vaddr as nat,
        le_at(x.image(), 40, 8) == x.xdna_addr as nat,
{
    lemma_pow256();
    let p0 = le_bytes(x.ext as nat, 8);
    lemma_first(x.ext as nat, 8);
    lemma_next(p0, x.ext_flags as nat, 8);
    let p1 = p0 + le_bytes(x.ext_flags as nat, 8);
    lemma_next(p1, x.handle as nat, 4);
    let p2 = p1 + le_bytes(x.handle as nat, 4);
    lemma_next(p2, x.pad as nat, 4);
    let p3 = p2 + le_bytes(x.pad as nat, 4);
    lemma_next(p3, x.map_offset as nat, 8);
    let p4 = p3 + le_bytes(x.map_offset as nat, 8);
    lemma_next(p4, x.vaddr as nat, 8);
    let p5 = p4 + le_bytes(x.vaddr as nat, 8);
    lemma_next(p5, x.xdna_addr as nat, 8);
    let p6 = p5 + le_bytes(x.xdna_addr as nat, 8);
    assert(x.image() == p6);
}

/// Where the fields of `drm_amdgpu_gem_create_in` lie.
pub proof fn law_drm_amdgpu_gem_create_in_fields(x: drm_amdgpu_gem_create_in)
    ensures
        x.image().len() == 32,
        le_at(x.image(), 0, 8) == x.bo_size as nat,
        le_at(x.image(), 8, 8) == x.alignment as nat,
        le_at(x.image(), 16, 8) == x.domains as nat,
        le_at(x.image(), 24, 8) == x.domain_flags as nat,
{
    lemma_pow256();
    let p0 = le_bytes(x.bo_size as nat, 8);
    lemma_first(x.bo_size as nat, 8);
    lemma_next(p0, x.alignment as nat, 8);
    let p1 = p0 + le_bytes(x.alignment as nat, 8);
    lemma_next(p1, x.domains as nat, 8);
    let p2 = p1 + le_bytes(x.domains as nat, 8);
    lemma_next(p2, x.domain_flags as nat, 8);
    let p3 = p2 + le_bytes(x.domain_flags as nat, 8);
    assert(x.image() == p3);
}

/// Where the fields of `drm_amdgpu_gem_create_out` lie.
pub proof fn law_drm_amdgpu_gem_create_out_fields(x: drm_amdgpu_gem_create_out)
    ensures
        x.image().len() == 8,
        le_at(x.image(), 0, 4) == x.handle as nat,
        le_at(x.image(), 4, 4) == x.pad as nat,
{
    lemma_pow256();
    let p0 = le_bytes(x.handle as nat, 4);
    lemma_first(x.handle as nat, 4);
    lemma_next(p0, x.pad as nat, 4);
    let p1 = p0 + le_bytes(x.pad as nat, 4);
    assert(x.image() == p1);
}

/// Where the fields of `drm_gem_close` lie.
pub proof fn law_drm_gem_close_fields(x: drm_gem_close)
    ensures
        x.image().len() == 8,
        le_at(x.image(), 0, 4) == x.handle as nat,
        le_at(x.image(), 4, 4) == x.pad as nat,
{
    lemma_pow256();
    let p0 = le_bytes(x.handle as nat, 4);
    lemma_first(x.handle as nat, 4);
    lemma_next(p0, x.pad as nat, 4);
    let p1 = p0 + le_bytes(x.pad as nat, 4);
    assert(x.image() == p1);
}

/// Where the fields of `drm_prime_handle` lie.
pub proof fn law_drm_prime_handle_fields(x: drm_prime_handle)
    ensures
        x.image().len() == 12,
        le_at(x.image(), 0, 4) == x.handle as nat,
        le_at(x.image(), 4, 4) == x.flags as nat,
        le_at(x.image(), 8, 4) == stored32(x.fd),
{
    lemma_pow256();
    let p0 = le_bytes(x.handle as nat, 4);
    lemma_first(x.handle as nat, 4);
    lemma_next(p0, x.flags as nat, 4);
    let p1 = p0 + le_bytes(x.flags as nat, 4);
    lemma_next(p1, stored32(x.fd), 4);
    let p2 = p1 + le_bytes(stored32(x.fd), 4);
    assert(x.image() == p2);
}

} // verus!
