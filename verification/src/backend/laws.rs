//! What holds of emulated devices and of the memory that they share.

use vstd::prelude::*;
use vstd::string::*;

use crate::backend::mock::{
    all_known, consistent, gem_request_ok, kind_of, next_handle, signal_all, step, wait_reply,
    wait_step, Device, Hub, MockGemBuffer, MockReply, MockRequest, RequestKind, WaitStep,
};
use crate::backend::Errno;
use crate::memory::{
    allocation_fault, bracket_fault, direction_flags, mapping_address, mapping_fault, npu_address,
    shared_fault, shared_request, with_export, with_shared, MemoryFault, SyncDirection,
};
use crate::uapi::drm_amdgpu_gem_create_in;

verus! {

// ---------------------------------------------------------------------------
// Requests
// ---------------------------------------------------------------------------

/// Each request has one number, and no other number stands for it.
pub proof fn law_numbers_stand_for_requests(n: u64)
    ensures
        kind_of(n) == Some(RequestKind::GemCreate) <==> n == 0xc0206440,
        kind_of(n) == Some(RequestKind::GemClose) <==> n == 0x40086409,
        kind_of(n) == Some(RequestKind::PrimeHandleToFd) <==> n == 0xc00c642d,
        kind_of(n) == Some(RequestKind::PrimeFdToHandle) <==> n == 0xc00c642e,
        kind_of(n) == Some(RequestKind::CreateBo) <==> n == 0xc0206443,
        kind_of(n) == Some(RequestKind::GetBoInfo) <==> n == 0xc0306444,
        kind_of(n) == Some(RequestKind::SyncobjCreate) <==> n == 0xc00864bf,
        kind_of(n) == Some(RequestKind::SyncobjDestroy) <==> n == 0xc00864c0,
        kind_of(n) == Some(RequestKind::SyncobjHandleToFd) <==> n == 0xc01864c1,
        kind_of(n) == Some(RequestKind::SyncobjFdToHandle) <==> n == 0xc01864c2,
        kind_of(n) == Some(RequestKind::TimelineWait) <==> n == 0xc03064ca,
        kind_of(n) == Some(RequestKind::TimelineSignal) <==> n == 0xc01864cd,
        kind_of(n) == Some(RequestKind::SyncobjTransfer) <==> n == 0xc02064cc,
        kind_of(n) == Some(RequestKind::DmaBufSync) <==> n == 0x40086200,
{
}

// ---------------------------------------------------------------------------
// Buffers
// ---------------------------------------------------------------------------

/// A buffer that was asked for in order is there under its handle, as it was asked for, and all
/// others stay; the next handle is another one.
pub proof fn law_created_buffer_is_there(
    d: Device,
    h: Hub,
    args: drm_amdgpu_gem_create_in,
    fd: i32,
    other: u32,
)
    requires
        gem_request_ok(args),
        other != d.next_gem,
    ensures
        ({
            let s = step(d, h, MockRequest::GemCreate { args, memfd: Ok(fd) });
            let b = s.device.buffers[d.next_gem];
            &&& s.reply == Ok::<MockReply, Errno>(MockReply::Handle(d.next_gem))
            &&& s.device.buffers.contains_key(d.next_gem)
            &&& b.memfd == fd
            &&& b.size == args.bo_size
            &&& b.alignment == args.alignment
            &&& b.domains == args.domains
            &&& b.domain_flags == args.domain_flags
            &&& s.device.buffers.contains_key(other) == d.buffers.contains_key(other)
            &&& d.buffers.contains_key(other) ==> s.device.buffers[other] == d.buffers[other]
            &&& s.device.next_gem == (d.next_gem + 1) % 0x1_0000_0000
            &&& s.device.syncobjs == d.syncobjs
            &&& s.hub == h
        }),
{
}

/// A buffer is refused exactly where its size is no positive multiple of 64, its alignment is no
/// multiple of 64, or it is not to lie in shared memory; nothing changes then.
pub proof fn law_bad_buffers_are_refused(
    d: Device,
    h: Hub,
    args: drm_amdgpu_gem_create_in,
    memfd: Result<i32, Errno>,
)
    ensures
        ({
            let s = step(d, h, MockRequest::GemCreate { args, memfd });
            let bad = args.bo_size == 0 || args.bo_size % 64 != 0 || args.alignment % 64 != 0 || (
            args.domains / 2) % 2 == 0;
            &&& bad ==> s.reply == Err::<MockReply, Errno>(Errno::EINVAL)
            &&& !bad && memfd is Err ==> s.reply == Err::<MockReply, Errno>(memfd->Err_0)
            &&& !bad && memfd is Ok ==> s.reply is Ok
            &&& s.reply is Err ==> s.device == d && s.hub == h
        }),
{
    let x = args.domains;
    assert((x & 2u64) != 0 <==> (x / 2u64) % 2u64 == 1) by (bit_vector);
}

/// A closed buffer is gone: its memory is handed back once, it cannot be exported any more, and
/// all others stay.
pub proof fn law_closed_buffer_is_gone(
    d: Device,
    h: Hub,
    handle: u32,
    dup: Result<i32, Errno>,
    other: u32,
)
    requires
        other != handle,
    ensures
        ({
            let s = step(d, h, MockRequest::GemClose { handle });
            let again = step(s.device, s.hub, MockRequest::GemClose { handle });
            let export = step(s.device, s.hub, MockRequest::PrimeHandleToFd { handle, dup });
            &&& d.buffers.contains_key(handle) ==> s.reply == Ok::<MockReply, Errno>(
                MockReply::Closed(Some(d.buffers[handle].memfd)),
            )
            &&& again.reply == Ok::<MockReply, Errno>(MockReply::Closed(None))
            &&& export.reply == Err::<MockReply, Errno>(Errno::ENOENT)
            &&& s.device.buffers.contains_key(other) == d.buffers.contains_key(other)
            &&& d.buffers.contains_key(other) ==> s.device.buffers[other] == d.buffers[other]
            &&& s.hub == h
        }),
{
}

/// A descriptor that is not open is not imported; one that no device exported is taken with the
/// size of its contents, and what is imported lies in shared memory, for the CPU too.
pub proof fn law_foreign_descriptors_are_imported(
    d: Device,
    h: Hub,
    fd: i32,
    end: u64,
    memfd: i32,
    dup: Result<i32, Errno>,
    why: Errno,
)
    requires
        !h.dmabuf_fds.contains_key(fd),
    ensures
        step(
            d,
            h,
            MockRequest::PrimeFdToHandle { fd, is_open: false, end: Ok(end), dup },
        ).reply == Err::<MockReply, Errno>(Errno::EBADF),
        step(d, h, MockRequest::PrimeFdToHandle { fd, is_open: true, end: Err(why), dup }).reply
            == Err::<MockReply, Errno>(why),
        ({
            let s = step(
                d,
                h,
                MockRequest::PrimeFdToHandle { fd, is_open: true, end: Ok(end), dup: Ok(memfd) },
            );
            &&& s.reply == Ok::<MockReply, Errno>(MockReply::Handle(d.next_gem))
            &&& s.device.buffers[d.next_gem] == (MockGemBuffer {
                memfd,
                size: end,
                alignment: 64,
                domains: 2,
                domain_flags: 8193,
            })
        }),
{
    assert(1u64 | 8192u64 == 8193u64) by (bit_vector);
}

/// Buffers of the NPU lie a megabyte apart, four gigabytes above where they are mapped; zero is no
/// buffer.
pub proof fn law_buffers_lie_apart(d: Device, h: Hub, a: u32, b: u32)
    requires
        0 < a < b,
    ensures
        match (
            step(d, h, MockRequest::GetBoInfo { handle: a }).reply,
            step(d, h, MockRequest::GetBoInfo { handle: b }).reply,
        ) {
            (
                Ok(MockReply::BoInfo { map_offset: m, vaddr: v, xdna_addr: x }),
                Ok(MockReply::BoInfo { map_offset: m2, vaddr: v2, xdna_addr: x2 }),
            ) => {
                &&& m2 - m == (b - a) * 1048576
                &&& x2 - x == (b - a) * 1048576
                &&& x - m == 0x1_0000_0000
                &&& m == 0x1_0000_0000 + a * 1048576
                &&& v == 0
                &&& v2 == 0
                &&& npu_address(a) == x
                &&& npu_address(b) == x2
            },
            _ => false,
        },
        step(d, h, MockRequest::GetBoInfo { handle: 0 }).reply == Err::<MockReply, Errno>(
            Errno::EINVAL,
        ),
{
}

/// A table that names both a descriptor and entries is refused; any other gets the next handle.
pub proof fn law_tables_name_one_thing(d: Device, h: Hub, fd: i32, entries: u32)
    ensures
        ({
            let s = step(d, h, MockRequest::CreateBo { va_tbl: Some((fd, entries)) });
            &&& fd != 0 && entries != 0 ==> s.reply == Err::<MockReply, Errno>(Errno::EINVAL)
            &&& fd == 0 || entries == 0 ==> s.reply == Ok::<MockReply, Errno>(
                MockReply::Handle(d.next_gem),
            )
            &&& s.reply is Ok ==> s.device.next_gem == (d.next_gem + 1) % 0x1_0000_0000
            &&& s.device.buffers == d.buffers
        }),
        step(d, h, MockRequest::CreateBo { va_tbl: None }).reply == Ok::<MockReply, Errno>(
            MockReply::Handle(d.next_gem),
        ),
        next_handle(d.next_gem) == (d.next_gem + 1) % 0x1_0000_0000,
{
}

/// A bracket is accepted where it has no flag beyond the lowest three.
pub proof fn law_bracket_flags(d: Device, h: Hub, flags: u64)
    ensures
        step(d, h, MockRequest::DmaBufSync { flags }).reply == if flags < 8 {
            Ok::<MockReply, Errno>(MockReply::Done)
        } else {
            Err::<MockReply, Errno>(Errno::EINVAL)
        },
        direction_flags(SyncDirection::Read) == 1,
        direction_flags(SyncDirection::Write) == 2,
        direction_flags(SyncDirection::ReadWrite) == 3,
{
    assert((flags & !7u64) == 0 <==> flags < 8) by (bit_vector);
}

// ---------------------------------------------------------------------------
// Fences
// ---------------------------------------------------------------------------

/// A new fence is at the start, or at its first point where the lowest flag is set; it is a fence
/// of its own.
pub proof fn law_new_fences_are_at_the_start(d: Device, h: Hub, flags: u32)
    requires
        h.points.len() <= usize::MAX,
    ensures
        ({
            let s = step(d, h, MockRequest::SyncobjCreate { flags });
            &&& s.reply == Ok::<MockReply, Errno>(MockReply::Handle(d.next_syncobj))
            &&& s.device.syncobjs.contains_key(d.next_syncobj)
            &&& s.device.syncobjs[d.next_syncobj] == h.points.len()
            &&& s.hub.points.len() == h.points.len() + 1
            &&& s.hub.points[h.points.len() as int] == flags % 2
            &&& s.hub.points.take(h.points.len() as int) == h.points
            &&& s.device.next_syncobj == (d.next_syncobj + 1) % 0x1_0000_0000
        }),
{
    let s = step(d, h, MockRequest::SyncobjCreate { flags });
    assert(s.hub.points.take(h.points.len() as int) =~= h.points);
}

/// The points that are signalled of one fence.
pub open spec fn highest(
    d: Device,
    start: u64,
    handles: Seq<u32>,
    targets: Seq<u64>,
    fence: int,
) -> u64
    decreases handles.len(),
{
    if handles.len() == 0 || targets.len() == 0 {
        start
    } else {
        let rest = highest(d, start, handles.drop_last(), targets.drop_last(), fence);
        if d.syncobjs[handles.last()] == fence && targets.last() > rest {
            targets.last()
        } else {
            rest
        }
    }
}

proof fn lemma_signal(
    d: Device,
    points: Seq<u64>,
    handles: Seq<u32>,
    targets: Seq<u64>,
    n: nat,
    f: int,
)
    requires
        forall|k: u32| d.syncobjs.contains_key(k) ==> #[trigger] d.syncobjs[k] < points.len(),
        handles.len() == targets.len(),
        n <= handles.len(),
        all_known(d, handles, n),
        0 <= f < points.len(),
    ensures
        signal_all(d, points, handles, targets, n).len() == points.len(),
        signal_all(d, points, handles, targets, n)[f] == highest(
            d,
            points[f],
            handles.take(n as int),
            targets.take(n as int),
            f,
        ),
    decreases n,
{
    if n > 0 {
        assert(d.syncobjs.contains_key(handles[n - 1]));
        assert(all_known(d, handles, (n - 1) as nat));
        lemma_signal(d, points, handles, targets, (n - 1) as nat, f);
        assert(handles.take(n as int).drop_last() =~= handles.take(n - 1));
        assert(targets.take(n as int).drop_last() =~= targets.take(n - 1));
        assert(handles.take(n as int).last() == handles[n - 1]);
        assert(targets.take(n as int).last() == targets[n - 1]);
    }
}

/// A fence that is signalled is at the highest of its points, and all of them count; one that is
/// not signalled stays.
pub proof fn law_fences_reach_their_highest_point(
    d: Device,
    h: Hub,
    handles: Vec<u32>,
    points: Vec<u64>,
    f: int,
)
    requires
        consistent(d, h),
        handles@.len() == points@.len(),
        all_known(d, handles@, handles@.len()),
        0 <= f < h.points.len(),
    ensures
        step(d, h, MockRequest::TimelineSignal { handles, points }).hub.points[f] == highest(
            d,
            h.points[f],
            handles@,
            points@,
            f,
        ),
        step(d, h, MockRequest::TimelineSignal { handles, points }).device == d,
{
    lemma_signal(d, h.points, handles@, points@, handles@.len(), f);
    assert(handles@.take(handles@.len() as int) =~= handles@);
    assert(points@.take(points@.len() as int) =~= points@);
}

/// A request that names a fence that there is not is refused.
pub proof fn law_unknown_fences_are_refused(
    d: Device,
    h: Hub,
    handles: Vec<u32>,
    points: Vec<u64>,
    timeout_nsec: i64,
    k: int,
    other: u32,
    fd: i32,
)
    requires
        0 <= k < handles@.len(),
        !d.syncobjs.contains_key(handles@[k]),
        !h.fence_fds.contains_key(fd),
    ensures
        step(d, h, MockRequest::TimelineSignal { handles, points }).reply == Err::<
            MockReply,
            Errno,
        >(Errno::ENOENT),
        step(d, h, MockRequest::TimelineWait { handles, points, timeout_nsec }).reply == Err::<
            MockReply,
            Errno,
        >(Errno::ENOENT),
        step(
            d,
            h,
            MockRequest::SyncobjTransfer { src_handle: handles@[k], dst_handle: other },
        ).reply == Err::<MockReply, Errno>(Errno::ENOENT),
        step(
            d,
            h,
            MockRequest::SyncobjTransfer { src_handle: other, dst_handle: handles@[k] },
        ).reply == Err::<MockReply, Errno>(Errno::ENOENT),
        step(d, h, MockRequest::SyncobjHandleToFd { handle: handles@[k], eventfd: Ok(fd) }).reply
            == Err::<MockReply, Errno>(Errno::ENOENT),
        step(d, h, MockRequest::SyncobjFdToHandle { fd }).reply == Err::<MockReply, Errno>(
            Errno::ENOENT,
        ),
{
}

proof fn lemma_wait(
    d: Device,
    h: Hub,
    handles: Seq<u32>,
    targets: Seq<u64>,
    timeout: i64,
    i: nat,
    k: nat,
)
    requires
        i <= k < handles.len(),
        forall|j: int|
            i <= j < k ==> h.points[d.syncobjs[#[trigger] handles[j]] as int] >= targets[j],
        h.points[d.syncobjs[handles[k as int]] as int] < targets[k as int],
    ensures
        wait_reply(d, h, handles, targets, timeout, i) == if timeout == 0 {
            Err::<MockReply, Errno>(Errno::ETIMEDOUT)
        } else {
            Ok::<MockReply, Errno>(
                MockReply::Blocked {
                    fence: d.syncobjs[handles[k as int]],
                    point: targets[k as int],
                },
            )
        },
    decreases k - i,
{
    if i < k {
        assert(h.points[d.syncobjs[handles[i as int]] as int] >= targets[i as int]);
        lemma_wait(d, h, handles, targets, timeout, i + 1, k);
    }
}

/// A wait is for the first fence that has not reached its point; without time it fails at once.
pub proof fn law_waits_are_for_the_first_missing_point(
    d: Device,
    h: Hub,
    handles: Vec<u32>,
    points: Vec<u64>,
    timeout_nsec: i64,
    k: nat,
)
    requires
        all_known(d, handles@, handles@.len()),
        k < handles@.len(),
        forall|j: int|
            0 <= j < k ==> h.points[d.syncobjs[#[trigger] handles@[j]] as int] >= points@[j],
        h.points[d.syncobjs[handles@[k as int]] as int] < points@[k as int],
    ensures
        ({
            let s = step(d, h, MockRequest::TimelineWait { handles, points, timeout_nsec });
            &&& timeout_nsec == 0 ==> s.reply == Err::<MockReply, Errno>(Errno::ETIMEDOUT)
            &&& timeout_nsec != 0 ==> s.reply == Ok::<MockReply, Errno>(
                MockReply::Blocked {
                    fence: d.syncobjs[handles@[k as int]],
                    point: points@[k as int],
                },
            )
            &&& s.device == d
            &&& s.hub == h
        }),
{
    lemma_wait(d, h, handles@, points@, timeout_nsec, 0, k);
}

/// A waiter goes on once the point is reached, sleeps without a limit where it has none, and else
/// for what is left of its time.
pub proof fn law_waiters_wait_their_time(timeline: u64, point: u64, timeout: i64, elapsed: u64)
    ensures
        wait_step(timeline, point, timeout, elapsed) is Reached <==> timeline >= point,
        wait_step(timeline, point, timeout, elapsed) is Sleep <==> timeline < point && timeout < 0,
        wait_step(timeline, point, timeout, elapsed) is TimedOut <==> timeline < point && 0
            <= timeout <= elapsed,
        match wait_step(timeline, point, timeout, elapsed) {
            WaitStep::SleepFor(left) => elapsed + left == timeout && left > 0,
            _ => true,
        },
{
}

/// A transfer brings one fence to where another one is, unless it is further on already; the
/// other one stays, and so do all.
pub proof fn law_transfers_bring_fences_on(d: Device, h: Hub, src: u32, dst: u32, f: int)
    requires
        consistent(d, h),
        d.syncobjs.contains_key(src),
        d.syncobjs.contains_key(dst),
        0 <= f < h.points.len(),
    ensures
        ({
            let s = step(d, h, MockRequest::SyncobjTransfer { src_handle: src, dst_handle: dst });
            let from = h.points[d.syncobjs[src] as int];
            &&& s.reply == Ok::<MockReply, Errno>(MockReply::Done)
            &&& s.hub.points.len() == h.points.len()
            &&& f == d.syncobjs[dst] && from > h.points[f] ==> s.hub.points[f] == from
            &&& f == d.syncobjs[dst] && from <= h.points[f] ==> s.hub.points[f] == h.points[f]
            &&& f != d.syncobjs[dst] ==> s.hub.points[f] == h.points[f]
        }),
{
}

/// A handle that was destroyed leads nowhere; its fence stays for the other handles.
pub proof fn law_destroyed_handles_lead_nowhere(d: Device, h: Hub, handle: u32, other: u32)
    requires
        other != handle,
    ensures
        ({
            let s = step(d, h, MockRequest::SyncobjDestroy { handle });
            &&& s.reply == Ok::<MockReply, Errno>(MockReply::Done)
            &&& !s.device.syncobjs.contains_key(handle)
            &&& s.device.syncobjs.contains_key(other) == d.syncobjs.contains_key(other)
            &&& d.syncobjs.contains_key(other) ==> s.device.syncobjs[other] == d.syncobjs[other]
            &&& s.hub == h
            &&& s.device.buffers == d.buffers
        }),
{
}

// ---------------------------------------------------------------------------
// Shared memory
// ---------------------------------------------------------------------------

/// Memory is asked for exactly where its size is a positive multiple of 64 and its alignment a
/// multiple of 64, zero included; it is to lie where both accelerators reach it, coherent and for
/// the CPU too.
pub proof fn law_what_memory_is_asked_for(size: usize, alignment: usize)
    ensures
        allocation_fault(size, alignment) is None <==> size > 0 && size % 64 == 0 && alignment % 64
            == 0,
        size == 0 ==> allocation_fault(size, alignment) == Some(
            MemoryFault::AllocationFailed("Cannot allocate 0 bytes"@),
        ),
        size > 0 && size % 64 != 0 ==> allocation_fault(size, alignment) == Some(
            MemoryFault::Alignment { required: 64, actual: size % 64 },
        ),
        size > 0 && size % 64 == 0 && alignment % 64 != 0 ==> allocation_fault(size, alignment)
            == Some(MemoryFault::Alignment { required: 64, actual: alignment % 64 }),
        shared_request(size, alignment).bo_size == size,
        alignment > 0 ==> shared_request(size, alignment).alignment == alignment,
        shared_request(size, 0).alignment == 64,
        shared_request(size, alignment).domains == 2,
        shared_request(size, alignment).domain_flags == 8321,
{
    assert(1u64 | 8192u64 | 128u64 == 8321u64) by (bit_vector);
    vstd::layout::unsigned_int_max_values();
}

/// A mapping is accepted exactly where it was made at a multiple of 64; at zero it is none.
pub proof fn law_which_mappings_are_accepted(addr: usize, why: String)
    ensures
        mapping_fault(None) is None,
        mapping_address(None) is None,
        mapping_fault(Some(Err(why))) == Some(MemoryFault::Mmap(why@)),
        mapping_fault(Some(Ok(addr))) is None <==> addr % 64 == 0,
        addr % 64 != 0 ==> mapping_fault(Some(Ok(addr))) == Some(
            MemoryFault::Alignment { required: 64, actual: addr % 64 },
        ),
        addr != 0 ==> mapping_address(Some(Ok(addr))) == Some(addr),
        mapping_address(Some(Ok(0usize))) is None,
{
}

/// A shared allocation fails with the first step that fails, and only then.
pub proof fn law_first_failure_counts(
    size: usize,
    memfd: Result<i32, Errno>,
    dup: Result<i32, Errno>,
    mapping: Option<Result<usize, String>>,
)
    ensures
        shared_fault(size, memfd, dup, mapping) is None <==> size > 0 && size % 64 == 0 && memfd
            is Ok && dup is Ok && dup->Ok_0 >= 0 && mapping_fault(mapping) is None,
        size > 0 && size % 64 == 0 && memfd is Err ==> shared_fault(size, memfd, dup, mapping)
            == Some(MemoryFault::Ioctl(memfd->Err_0)),
        size > 0 && size % 64 == 0 && memfd is Ok && dup is Err ==> shared_fault(
            size,
            memfd,
            dup,
            mapping,
        ) == Some(MemoryFault::Ioctl(dup->Err_0)),
{
    law_what_memory_is_asked_for(size, 4096);
}

/// A shared allocation is what the device makes of its requests: a buffer under the next handle
/// with whole pages, and an export of the same size.
pub proof fn law_sharing_is_creating_and_exporting(d: Device, h: Hub, size: usize, memfd: i32, fd: i32)
    requires
        size > 0,
        size % 64 == 0,
    ensures
        ({
            let made = step(
                d,
                h,
                MockRequest::GemCreate {
                    args: drm_amdgpu_gem_create_in {
                        bo_size: size as u64,
                        alignment: 4096,
                        domains: 2,
                        domain_flags: 8321,
                    },
                    memfd: Ok(memfd),
                },
            );
            let exported = step(
                made.device,
                made.hub,
                MockRequest::PrimeHandleToFd { handle: d.next_gem, dup: Ok(fd) },
            );
            &&& made.device == with_shared(d, size, memfd)
            &&& exported.device == with_shared(d, size, memfd)
            &&& exported.hub == with_export(h, fd, size)
            &&& exported.hub.dmabuf_fds[fd] == size
            &&& exported.reply == Ok::<MockReply, Errno>(MockReply::Fd(fd))
        }),
{
    law_what_memory_is_asked_for(size, 4096);
    assert(2u64 & 2u64 == 2u64) by (bit_vector);
    vstd::layout::unsigned_int_max_values();
}

/// A bracket fails with what the device says, but for a descriptor that knows no brackets: that
/// is accepted where it is open.
pub proof fn law_when_brackets_fail(e: Errno, open: Result<(), Errno>)
    ensures
        bracket_fault(Ok(()), open) is None,
        e != Errno::ENOTTY ==> bracket_fault(Err(e), open) == Some(MemoryFault::Ioctl(e)),
        bracket_fault(Err(Errno::ENOTTY), Ok(())) is None,
        bracket_fault(Err(Errno::ENOTTY), Err(e)) == Some(MemoryFault::Ioctl(e)),
{
}

} // verus!
