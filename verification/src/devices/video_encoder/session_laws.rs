//! What opening and closing sessions does, and mapping their buffers into the guest.
use vstd::prelude::*;

use super::backend::{BackendCall, CodecCall, VideoEncoderBackendSession};
use super::buffers::freed;
use super::device::DeviceView;
use super::format_laws::{least_rate, most_rate};
use super::lifecycle::{
    all_buffers, buffer_mapped, closed, first_at, first_mapping, is_at, mapping_answered, opened,
    opened_with, unmapped, unmapped_with,
};
use super::queue::{Backing, Buffer};
use super::ranges::{fits_are_nearest, fitted_is_in_range, is_nearest};
use super::session::{Drain, SessionView, VideoEncoderSession};
use crate::device::VirtioMediaDeviceSession;
use crate::errno::{EINVAL, ENODEV};
use crate::host::{MapperCall, PoolCall};
use crate::mmap::{mapped, registered, MmapMapping, MmapRange, Retired};
use crate::protocol::VIRTIO_MEDIA_MMAP_FLAG_RW;
use crate::v4l2::Rect;

verus! {

/// A buffer of a session is mapped to be written to exactly where the guest asks for that, and it
/// is the one at the offset the guest names. What the guest gets is where the mapper put it, and
/// the buffer's length.
pub proof fn mappings_are_as_asked<GM, H, S, K>(
    d: DeviceView<GM, H, S, K>,
    s: SessionView<GM, H>,
    flags: u32,
    offset: u32,
    d2: DeviceView<GM, H, S, K>,
    r: Result<(u64, u64), i32>,
)
    requires
        buffer_mapped(d, s, flags, offset, d2, r),
    ensures
        d2 == (DeviceView { mapper: d2.mapper, mappings: d2.mappings, ..d }),
        d2.mapper == d.mapper || d2.mapper.len() == d.mapper.len() + 1,
        d2.mapper == d.mapper ==> d2 == d && r == Err::<(u64, u64), i32>(EINVAL),
        d2.mapper.len() == d.mapper.len() + 1 ==> {
            let call = d2.mapper.last();
            &&& call is Add
            &&& call->rw <==> flags & VIRTIO_MEDIA_MMAP_FLAG_RW != 0
            &&& flags == 1 ==> call->rw
            &&& flags == 0 ==> !call->rw
            &&& call->Add_offset == offset
            &&& exists|i: int|
                0 <= i < s.input.buffers.len() + s.output.buffers.len() && (
                #[trigger] all_buffers(s)[i]).backing == (Backing::<GM, H>::Host {
                    buffer: call->Add_buffer,
                    offset,
                })
            &&& call->at matches Ok(addr) ==> r == Ok::<(u64, u64), i32>(
                (addr, call->Add_buffer.len),
            ) && d2.mappings == d.mappings.push(MmapMapping { addr, offset })
            &&& call->at is Err ==> r == Err::<(u64, u64), i32>(EINVAL) && d2.mappings
                == d.mappings
        },
        (exists|i: int|
            0 <= i < s.input.buffers.len() + s.output.buffers.len() && is_at(
                #[trigger] all_buffers(s)[i],
                offset,
            )) && registered(d.ranges, offset) ==> d2.mapper.len() == d.mapper.len() + 1,
{
    assert((flags % 2 == 1) <==> (flags & 1u32 != 0)) by (bit_vector);
    let all = all_buffers(s);
    if exists|i: int| 0 <= i < all.len() && is_at(#[trigger] all[i], offset) {
        let n = choose|i: int| 0 <= i < all.len() && is_at(#[trigger] all[i], offset);
        let i = first_of(all, offset, n);
        assert(first_at(all, offset, i));
        if registered(d.ranges, offset) {
            let rw = flags % 2 == 1;
            let at = choose|at: Result<u64, i32>| #[trigger]
                mapping_answered(d, all[i].backing->buffer, offset, rw, at, d2, r);
            assert(all_buffers(s)[i].backing == (Backing::<GM, H>::Host {
                buffer: d2.mapper.last()->Add_buffer,
                offset,
            }));
        }
    }
}

/// The first buffer at an offset.
proof fn first_of<GM, H>(all: Seq<Buffer<GM, H>>, offset: u32, n: int) -> (i: int)
    requires
        0 <= n < all.len(),
        is_at(all[n], offset),
    ensures
        first_at(all, offset, i),
    decreases n,
{
    if exists|j: int| 0 <= j < n && is_at(#[trigger] all[j], offset) {
        let j = choose|j: int| 0 <= j < n && is_at(#[trigger] all[j], offset);
        first_of(all, offset, j)
    } else {
        n
    }
}

/// Unmapping asks the mapper to remove what the guest sees at the address it names, and that
/// mapping alone goes; `EINVAL` where there is none, and where the mapper refuses. A freed buffer
/// that was held for the guest is then given back, unless the guest still maps it.
pub proof fn unmapping_removes_what_is_there<GM, H, S, K>(
    d: DeviceView<GM, H, S, K>,
    addr: u64,
    d2: DeviceView<GM, H, S, K>,
    r: Result<(), i32>,
)
    requires
        unmapped(d, addr, d2, r),
    ensures
        (forall|i: int| 0 <= i < d.mappings.len() ==> (#[trigger] d.mappings[i]).addr != addr)
            ==> d2.mapper == d.mapper && d2.mappings == d.mappings && r == Err::<(), i32>(EINVAL),
        (exists|i: int| 0 <= i < d.mappings.len() && (#[trigger] d.mappings[i]).addr == addr) ==> {
            &&& d2.mapper.len() == d.mapper.len() + 1
            &&& d2.mapper.last() is Remove
            &&& d2.mapper.last()->shm_offset == addr
            &&& r is Ok <==> d2.mapper.last()->done is Ok
            &&& r is Err ==> r == Err::<(), i32>(EINVAL) && d2.mappings == d.mappings
            &&& r is Ok ==> d2.mappings.len() == d.mappings.len() - 1 && exists|i: int|
                first_mapping(d.mappings, addr, i) && d2.mappings == #[trigger] d.mappings.remove(i)
        },
        d2.active_session == d.active_session && d2.events == d.events,
        forall|k: int|
            0 <= k < d.retired.len() && !mapped(d2.mappings, (#[trigger] d.retired[k]).offset)
                ==> d2.pool.contains(PoolCall::Release { buffer: d.retired[k].buffer })
                && !registered(d2.ranges, d.retired[k].offset),
        forall|k: int|
            0 <= k < d.retired.len() && mapped(d2.mappings, (#[trigger] d.retired[k]).offset)
                ==> d2.retired.contains(d.retired[k]),
        forall|k: int|
            0 <= k < d2.retired.len() ==> mapped(d2.mappings, (#[trigger] d2.retired[k]).offset),
{
    unmapping_reaps(d, addr, d2, r);
    if exists|i: int| 0 <= i < d.mappings.len() && (#[trigger] d.mappings[i]).addr == addr {
        let n = choose|i: int| 0 <= i < d.mappings.len() && (#[trigger] d.mappings[i]).addr == addr;
        let i = first_mapping_of(d.mappings, addr, n);
        assert(first_mapping(d.mappings, addr, i));
        let j = choose|j: int| first_mapping(d.mappings, addr, j);
        let done = choose|done: Result<(), i32>| #[trigger]
            unmapped_with(d, addr, j, done, d2) && r == (match done {
                Ok(_) => Ok(()),
                Err(_) => Err(EINVAL),
            });
        assert(first_mapping(d.mappings, addr, j));
        if done is Ok {
            assert(d2.mappings == d.mappings.remove(j));
        }
    } else {
        assert(!exists|i: int| first_mapping(d.mappings, addr, i)) by {
            if exists|i: int| first_mapping(d.mappings, addr, i) {
                let i = choose|i: int| first_mapping(d.mappings, addr, i);
                assert(d.mappings[i].addr == addr);
            }
        }
    }
}

/// Unmapping gives back what the guest no longer maps.
proof fn unmapping_reaps<GM, H, S, K>(
    d: DeviceView<GM, H, S, K>,
    addr: u64,
    d2: DeviceView<GM, H, S, K>,
    r: Result<(), i32>,
)
    requires
        unmapped(d, addr, d2, r),
    ensures
        forall|k: int|
            0 <= k < d.retired.len() && !mapped(d2.mappings, (#[trigger] d.retired[k]).offset)
                ==> d2.pool.contains(PoolCall::Release { buffer: d.retired[k].buffer })
                && !registered(d2.ranges, d.retired[k].offset),
        forall|k: int|
            0 <= k < d.retired.len() && mapped(d2.mappings, (#[trigger] d.retired[k]).offset)
                ==> d2.retired.contains(d.retired[k]),
        forall|k: int|
            0 <= k < d2.retired.len() ==> mapped(d2.mappings, (#[trigger] d2.retired[k]).offset),
{
    let d1 = if exists|i: int| first_mapping(d.mappings, addr, i) {
        let i = choose|i: int| first_mapping(d.mappings, addr, i);
        let done = choose|done: Result<(), i32>| #[trigger]
            unmapped_with(d, addr, i, done, d2) && r == (match done {
                Ok(_) => Ok(()),
                Err(_) => Err(EINVAL),
            });
        DeviceView {
            mapper: d.mapper.push(MapperCall::Remove { shm_offset: addr, done }),
            mappings: if done is Ok {
                d.mappings.remove(i)
            } else {
                d.mappings
            },
            ..d
        }
    } else {
        d
    };
    assert(d2 == super::lifecycle::reaped(d1));
    assert forall|k: int|
        0 <= k < d.retired.len() && !mapped(
            d2.mappings,
            (#[trigger] d.retired[k]).offset,
        ) implies d2.pool.contains(PoolCall::Release { buffer: d.retired[k].buffer })
        && !registered(d2.ranges, d.retired[k].offset) by {
        crate::mmap::unmapped_buffers_are_given_back(d.retired, d2.mappings, d.ranges, k);
        let go = crate::mmap::let_go(d.retired, d2.mappings);
        let x = PoolCall::Release { buffer: d.retired[k].buffer };
        let j = choose|j: int| 0 <= j < go.len() && go[j] == x;
        assert(d2.pool[d.pool.len() + j] == x);
    }
    what_is_mapped_stays(d.retired, d2.mappings);
}

/// Of the retired buffers those stay held that the guest maps.
proof fn what_is_mapped_stays<H>(held: Seq<Retired<H>>, mappings: Seq<MmapMapping>)
    ensures
        forall|k: int|
            0 <= k < held.len() && mapped(mappings, (#[trigger] held[k]).offset)
                ==> crate::mmap::still_held(held, mappings).contains(held[k]),
        forall|k: int|
            0 <= k < crate::mmap::still_held(held, mappings).len() ==> mapped(
                mappings,
                (#[trigger] crate::mmap::still_held(held, mappings)[k]).offset,
            ),
    decreases held.len(),
{
    if held.len() > 0 {
        let rest = held.drop_last();
        what_is_mapped_stays(rest, mappings);
        let all = crate::mmap::still_held(held, mappings);
        let before = crate::mmap::still_held(rest, mappings);
        assert forall|k: int|
            0 <= k < held.len() && mapped(
                mappings,
                (#[trigger] held[k]).offset,
            ) implies all.contains(held[k]) by {
            if k < rest.len() {
                assert(rest[k] == held[k]);
                let j = choose|j: int| 0 <= j < before.len() && before[j] == held[k];
                assert(all[j] == held[k]);
            } else {
                assert(all[all.len() - 1] == held[k]);
            }
        }
    }
}

/// The oldest mapping at an address.
proof fn first_mapping_of(mappings: Seq<MmapMapping>, addr: u64, n: int) -> (i: int)
    requires
        0 <= n < mappings.len(),
        mappings[n].addr == addr,
    ensures
        first_mapping(mappings, addr, i),
    decreases n,
{
    if exists|j: int| 0 <= j < n && (#[trigger] mappings[j]).addr == addr {
        let j = choose|j: int| 0 <= j < n && (#[trigger] mappings[j]).addr == addr;
        first_mapping_of(mappings, addr, j)
    } else {
        n
    }
}

/// A new session has the first codec, the size nearest to 640 by 480 that it has, all of it
/// visible, and thirty frames per second or the nearest rate; every control at its default, no
/// buffers, and nothing streams. The backend is asked for the wake-up and then for its part.
pub proof fn new_sessions_start_afresh<GM, H, S, K>(
    d: DeviceView<GM, H, S, K>,
    id: u32,
    d2: DeviceView<GM, H, S, K>,
    r: Result<VideoEncoderSession<GM, H, S>, i32>,
)
    requires
        opened(d, id, d2, r),
    ensures
        d.caps.formats.len() == 0 ==> d2 == d && r is Err && r->Err_0 == ENODEV,
        d2 == (DeviceView { backend: d2.backend, ..d }),
        r is Ok ==> d.caps.formats.len() > 0 && {
            let s = (r->Ok_0)@;
            let f = d.caps.formats[0];
            let n = d.backend.len() as int;
            let slow = least_rate(f.frame_rate.min);
            let fast = most_rate(f.frame_rate.min, f.frame_rate.max);
            &&& s.id == id
            &&& s.coded_format == f.fourcc
            &&& is_nearest(f.width, 640, s.coded_size.0 as int)
            &&& is_nearest(f.height, 480, s.coded_size.1 as int)
            &&& s.crop == (Rect {
                left: 0,
                top: 0,
                width: s.coded_size.0,
                height: s.coded_size.1,
            })
            &&& s.timeperframe.0 == 1
            &&& s.timeperframe.1 == (if 30 < slow {
                slow
            } else if 30 > fast {
                fast
            } else {
                30
            })
            &&& s.ctrl_values.len() == d.controls.len()
            &&& forall|k: int|
                0 <= k < d.controls.len() ==> #[trigger] s.ctrl_values[k]
                    == d.controls[k].ty@.bounds().default
            &&& s.input.buffers.len() == 0 && s.output.buffers.len() == 0
            &&& !s.state.output_streaming && !s.state.capture_streaming
            &&& !s.codec_started && !s.dead && !s.eos_subscribed
            &&& s.drain == Drain::Idle
            &&& s.sequence == 0
            &&& s.bitstream_size is None
            &&& s.colorspace.colorspace == 3 && s.colorspace.ycbcr_enc == 0
                && s.colorspace.quantization == 0 && s.colorspace.xfer_func == 0
            &&& s.codec.len() == 0
            &&& d2.backend.len() == n + 2
            &&& d2.backend[n] matches BackendCall::NewSink { wake } && wake is Ok && s.wake == (
            wake->Ok_0).1
            &&& d2.backend[n + 1] is NewSession && d2.backend[n + 1]->id == id
        },
{
    if d.caps.formats.len() > 0 {
        let (wake, answer) = choose|wake: Result<(K, i32), i32>, answer: Result<S, i32>| #[trigger]
            opened_with(d, id, wake, answer, d2, r);
        let f = d.caps.formats[0];
        fits_are_nearest(f.width, 640);
        fits_are_nearest(f.height, 480);
        fitted_is_in_range(f.width, 640);
        fitted_is_in_range(f.height, 480);
    }
}

/// Whether a buffer that is freed is given back to the allocator and its offset free again, or held
/// at its offset where the guest maps it.
pub open spec fn is_given_back<GM, H, S, K>(
    d: DeviceView<GM, H, S, K>,
    d2: DeviceView<GM, H, S, K>,
    b: Buffer<GM, H>,
) -> bool {
    b.backing matches Backing::Host { buffer, offset } ==> if mapped(d.mappings, offset) {
        d2.retired.contains(Retired { offset, buffer }) && (registered(d.ranges, offset)
            ==> registered(d2.ranges, offset))
    } else {
        d2.pool.contains(PoolCall::Release { buffer }) && !registered(d2.ranges, offset)
    }
}

/// Whether the offsets in use are some of those of before, and all of those that none of the
/// buffers has or that the guest maps.
pub open spec fn keeps_other_offsets<GM, H, S, K>(
    d: DeviceView<GM, H, S, K>,
    d2: DeviceView<GM, H, S, K>,
    buffers: Seq<Buffer<GM, H>>,
) -> bool {
    &&& forall|r: MmapRange| #[trigger] d2.ranges.contains(r) ==> d.ranges.contains(r)
    &&& forall|r: MmapRange| #[trigger]
        d.ranges.contains(r) && (mapped(d.mappings, r.offset) || forall|k: int|
            0 <= k < buffers.len() ==> !is_at(#[trigger] buffers[k], r.offset))
            ==> d2.ranges.contains(r)
}

/// Freeing buffers gives every one of them back, or holds it.
pub proof fn freeing_gives_each_back<GM, H, S, K>(
    d: DeviceView<GM, H, S, K>,
    buffers: Seq<Buffer<GM, H>>,
)
    ensures
        freed(d, buffers).mappings == d.mappings,
        crate::host::continued(d.pool, freed(d, buffers).pool),
        crate::host::continued(d.retired, freed(d, buffers).retired),
        freed(d, buffers).pool.len() + freed(d, buffers).retired.len() <= d.pool.len()
            + d.retired.len() + buffers.len(),
        forall|k: int|
            0 <= k < buffers.len() ==> is_given_back(d, freed(d, buffers), #[trigger] buffers[k]),
        keeps_other_offsets(d, freed(d, buffers), buffers),
    decreases buffers.len(),
{
    if buffers.len() > 0 {
        let rest = buffers.drop_last();
        let e = freed(d, rest);
        let f = freed(d, buffers);
        freeing_gives_each_back(d, rest);
        assert forall|r: MmapRange| #[trigger]
            d.ranges.contains(r) && (mapped(d.mappings, r.offset) || forall|k: int|
                0 <= k < buffers.len() ==> !is_at(
                    #[trigger] buffers[k],
                    r.offset,
                )) implies f.ranges.contains(r) by {
            if !mapped(d.mappings, r.offset) {
                assert forall|k: int| 0 <= k < rest.len() implies !is_at(
                    #[trigger] rest[k],
                    r.offset,
                ) by {
                    assert(rest[k] == buffers[k]);
                }
                assert(!is_at(buffers[buffers.len() - 1], r.offset));
            }
            assert(e.ranges.contains(r));
        }
        assert forall|r: MmapRange| #[trigger] f.ranges.contains(r) implies e.ranges.contains(
            r,
        ) by {}
        assert forall|offset: u32|
            mapped(d.mappings, offset) && #[trigger] registered(d.ranges,
                offset) implies registered(
            f.ranges,
            offset,
        ) by {
            let r = choose|r: MmapRange| #[trigger]
                d.ranges.contains(r) && r.offset == offset;
            assert(f.ranges.contains(r));
        }
        assert forall|x: PoolCall<H>| #[trigger] e.pool.contains(x) implies f.pool.contains(x) by {
            let j = choose|j: int| 0 <= j < e.pool.len() && e.pool[j] == x;
            assert(f.pool[j] == x);
        }
        assert forall|x: Retired<H>| #[trigger] e.retired.contains(x) implies f.retired.contains(
            x,
        ) by {
            let j = choose|j: int| 0 <= j < e.retired.len() && e.retired[j] == x;
            assert(f.retired[j] == x);
        }
        assert forall|k: int| 0 <= k < buffers.len() implies is_given_back(
            d,
            f,
            #[trigger] buffers[k],
        ) by {
            if k < rest.len() {
                assert(is_given_back(d, e, rest[k]));
            } else {
                match buffers[k].backing {
                    Backing::Host { buffer, offset } => if mapped(d.mappings, offset) {
                        assert(f.retired[f.retired.len() - 1] == (Retired { offset, buffer }));
                    } else {
                        assert(f.pool[f.pool.len() - 1] == (PoolCall::Release { buffer }));
                    },
                    Backing::Guest(_) => {},
                }
            }
        }
    }
}

/// A closed session's codec was stopped and its part given back to the backend, every host buffer
/// it had goes back to the allocator or is held while the guest maps it, and the device is free for
/// another session if it was the one with buffers.
pub proof fn closed_sessions_leave_nothing<GM, H, S, K>(
    d: DeviceView<GM, H, S, K>,
    s: SessionView<GM, H>,
    session: S,
)
    ensures
        ({
            let d2 = closed(d, s, session);
            &&& d2.backend == d.backend.push(
                BackendCall::CloseSession { session, codec: s.codec.push(CodecCall::Stop) },
            )
            &&& forall|k: int|
                0 <= k < s.input.buffers.len() ==> is_given_back(
                    d,
                    d2,
                    #[trigger] s.input.buffers[k],
                )
            &&& forall|k: int|
                0 <= k < s.output.buffers.len() ==> is_given_back(
                    d,
                    d2,
                    #[trigger] s.output.buffers[k],
                )
            &&& d2.pool.len() + d2.retired.len() <= d.pool.len() + d.retired.len()
                + s.input.buffers.len() + s.output.buffers.len()
            &&& keeps_other_offsets(d, d2, s.input.buffers + s.output.buffers)
            &&& d.active_session == Some(s.id) ==> d2.active_session is None
            &&& d.active_session != Some(s.id) ==> d2.active_session == d.active_session
            &&& d2.mappings == d.mappings && d2.events == d.events && d2.mapper == d.mapper
        }),
{
    let d1 = DeviceView {
        active_session: if d.active_session == Some(s.id) {
            None
        } else {
            d.active_session
        },
        ..d
    };
    let e = freed(d1, s.input.buffers);
    let f = freed(e, s.output.buffers);
    freeing_gives_each_back(d1, s.input.buffers);
    freeing_gives_each_back(e, s.output.buffers);
    super::buffers::freeing_leaves_the_rest(d1, s.input.buffers);
    super::buffers::freeing_leaves_the_rest(e, s.output.buffers);
    assert forall|x: PoolCall<H>| #[trigger] e.pool.contains(x) implies f.pool.contains(x) by {
        let j = choose|j: int| 0 <= j < e.pool.len() && e.pool[j] == x;
        assert(f.pool[j] == x);
    }
    assert forall|x: Retired<H>| #[trigger] e.retired.contains(x) implies f.retired.contains(x) by {
        let j = choose|j: int| 0 <= j < e.retired.len() && e.retired[j] == x;
        assert(f.retired[j] == x);
    }
    let d2 = closed(d, s, session);
    let all = s.input.buffers + s.output.buffers;
    assert forall|offset: u32|
        mapped(d.mappings, offset) && #[trigger] registered(d.ranges, offset) implies registered(
        e.ranges,
        offset,
    ) && registered(f.ranges, offset) by {
        let r = choose|r: MmapRange| #[trigger] d.ranges.contains(r) && r.offset == offset;
        assert(d1.ranges.contains(r));
        assert(e.ranges.contains(r) && f.ranges.contains(r));
    }
    assert forall|r: MmapRange| #[trigger]
        d.ranges.contains(r) && (mapped(d.mappings, r.offset) || forall|k: int|
            0 <= k < all.len() ==> !is_at(#[trigger] all[k], r.offset)) implies d2.ranges.contains(
        r,
    ) by {
        if !mapped(d.mappings, r.offset) {
            assert forall|k: int| 0 <= k < s.input.buffers.len() implies !is_at(
                #[trigger] s.input.buffers[k],
                r.offset,
            ) by {
                assert(all[k] == s.input.buffers[k]);
            }
            assert forall|k: int| 0 <= k < s.output.buffers.len() implies !is_at(
                #[trigger] s.output.buffers[k],
                r.offset,
            ) by {
                assert(all[s.input.buffers.len() + k] == s.output.buffers[k]);
            }
        }
        assert(d1.ranges.contains(r));
        assert(e.ranges.contains(r));
    }
    assert forall|k: int| 0 <= k < s.input.buffers.len() implies is_given_back(
        d,
        d2,
        #[trigger] s.input.buffers[k],
    ) by {
        assert(is_given_back(d1, e, s.input.buffers[k]));
    }
    assert forall|k: int| 0 <= k < s.output.buffers.len() implies is_given_back(
        d,
        d2,
        #[trigger] s.output.buffers[k],
    ) by {
        assert(is_given_back(e, f, s.output.buffers[k]));
    }
}

/// A session is polled by what the backend made to wake its worker with.
pub proof fn sessions_are_polled_by_their_wake_up<GM, H, S: VideoEncoderBackendSession>(
    session: VideoEncoderSession<GM, H, S>,
    fd: Option<i32>,
)
    requires
        session.polls(fd),
    ensures
        fd == Some(session@.wake),
{
}

} // verus!
