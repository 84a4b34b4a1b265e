//! Feeding a session's codec and taking back what it reports.
use vstd::prelude::*;

use super::backend::{CodecCall, EncoderEvent, FrameKind, VideoEncoderBackend};
use super::device::{
    ended_is_wf, loaned_is_wf, one_more_loaned, returning_forgets_loans, DeviceView, EncoderSession,
    VideoEncoder,
};
use super::queue::{
    all_returned_is_wf, loan_returned_is_wf, nothing_lent_without_a_codec,
    queued_buffers_are_addressed, recalled_is_wf, Buffer, QueueView,
};
use super::ranges::min;
use super::session::{Drain, SessionView};
use crate::errno::{EIO, ENODEV};
use crate::host::{
    VirtioMediaBufferAllocator, VirtioMediaEventQueue, VirtioMediaGuestMemoryMapper,
    VirtioMediaHostMemoryMapper,
};
use crate::protocol::{SessionEventData, V4l2Event};
use crate::v4l2::{
    QueueDirection, QueueType, Timeval, V4l2Buffer, FLAG_BFRAME, FLAG_KEYFRAME, FLAG_LAST,
    FLAG_PFRAME, FLAG_TIMESTAMP_COPY,
};

verus! {

/// What lending every waiting buffer does. Nothing, while the codec is not to be fed. Otherwise
/// the buffers are lent in order, bitstream buffers first; the first one the codec refuses ends
/// the session.
pub open spec fn feeds<GM, H, S, K>(
    d: DeviceView<GM, H, S, K>,
    s: SessionView<GM, H>,
    d2: DeviceView<GM, H, S, K>,
    s2: SessionView<GM, H>,
    r: Result<(), i32>,
) -> bool {
    if !s.feeding() {
        r is Ok && d2 == d && s2 == s
    } else {
        match r {
            Ok(_) => d2 == d && s2 == s.all_loaned(),
            Err(e) => e == EIO && refused_a_loan(d, s, d2, s2),
        }
    }
}

/// The session ended because the codec refused loan number `k`, having taken those before it.
pub open spec fn refused_loan<GM, H>(s: SessionView<GM, H>, k: int, errno: i32) -> SessionView<
    GM,
    H,
> {
    SessionView { codec: (s.codec + s.loans(k)).push(s.loan(k, Err(errno))), ..s }.ended()
}

/// The session ended because the codec refused one of the waiting buffers.
pub open spec fn refused_a_loan<GM, H, S, K>(
    d: DeviceView<GM, H, S, K>,
    s: SessionView<GM, H>,
    d2: DeviceView<GM, H, S, K>,
    s2: SessionView<GM, H>,
) -> bool {
    &&& exists|k: int, errno: i32|
        0 <= k < s.waiting() && s2 == #[trigger] refused_loan(s, k, errno)
    &&& d2 == d.sending(V4l2Event::Error { session_id: s.id, errno: ENODEV })
}

/// The end-of-stream event.
pub const V4L2_EVENT_EOS: u32 = 2;

/// The flags of a filled `CAPTURE` buffer: its timestamp is copied, its kind if it holds anything
/// but headers, and whether it is the last of a drain.
pub open spec fn flags_of(kind: FrameKind, bytesused: u32, is_last: bool) -> u32 {
    let k = if bytesused > 0 {
        match kind {
            FrameKind::Headers => 0,
            FrameKind::Key => FLAG_KEYFRAME,
            FrameKind::Inter => FLAG_PFRAME,
            FrameKind::Bidirectional => FLAG_BFRAME,
        }
    } else {
        0
    };
    let l = if is_last {
        FLAG_LAST
    } else {
        0
    };
    FLAG_TIMESTAMP_COPY | k | l
}

/// The flags of a filled `CAPTURE` buffer.
fn frame_flags(kind: FrameKind, bytesused: u32, is_last: bool) -> (r: u32)
    ensures
        r == flags_of(kind, bytesused, is_last),
{
    let k: u32 = if bytesused > 0 {
        match kind {
            FrameKind::Headers => 0,
            FrameKind::Key => FLAG_KEYFRAME,
            FrameKind::Inter => FLAG_PFRAME,
            FrameKind::Bidirectional => FLAG_BFRAME,
        }
    } else {
        0
    };
    let l: u32 = if is_last {
        FLAG_LAST
    } else {
        0
    };
    FLAG_TIMESTAMP_COPY | k | l
}

/// A `CAPTURE` buffer the codec filled, back with the guest. No more bytes are reported than it
/// holds.
pub open spec fn encoded<GM, H>(
    b: Buffer<GM, H>,
    bytesused: u32,
    timestamp: Timeval,
    kind: FrameKind,
    is_last: bool,
    sequence: u32,
) -> Buffer<GM, H> {
    let v = b.returned().v4l2_buffer.with_first_bytesused(min(bytesused as int, b.room()) as u32);
    Buffer {
        v4l2_buffer: V4l2Buffer {
            timestamp,
            flags: flags_of(kind, bytesused, is_last),
            sequence,
            ..v
        },
        ..b.returned()
    }
}

/// What one codec event does. A report about a buffer the codec does not hold does nothing.
pub open spec fn handled<GM, H, S, K>(
    d: DeviceView<GM, H, S, K>,
    s: SessionView<GM, H>,
    event: EncoderEvent,
) -> (DeviceView<GM, H, S, K>, SessionView<GM, H>) {
    match event {
        EncoderEvent::InputBufferDone(index) => {
            let i = index as int;
            if i < s.input.buffers.len() && s.input.buffers[i].lent {
                let b = s.input.buffers[i].returned();
                (
                    d.sending(
                        V4l2Event::DequeueBuffer { session_id: s.id, buffer: b.v4l2_buffer },
                    ),
                    SessionView { input: s.input.loan_returned(i, b), ..s },
                )
            } else {
                (d, s)
            }
        },
        EncoderEvent::FrameEncoded { index, bytesused, timestamp, kind, is_last } => {
            let i = index as int;
            if i < s.output.buffers.len() && s.output.buffers[i].lent {
                let b = encoded(
                    s.output.buffers[i],
                    bytesused,
                    timestamp,
                    kind,
                    is_last,
                    s.sequence,
                );
                let d1 = d.sending(
                    V4l2Event::DequeueBuffer { session_id: s.id, buffer: b.v4l2_buffer },
                );
                (
                    if is_last && s.eos_subscribed {
                        d1.sending(
                            V4l2Event::Event {
                                session_id: s.id,
                                event: SessionEventData {
                                    type_: V4L2_EVENT_EOS,
                                    id: 0,
                                    ctrl: None,
                                },
                            },
                        )
                    } else {
                        d1
                    },
                    SessionView {
                        output: s.output.loan_returned(i, b),
                        sequence: if s.sequence == u32::MAX {
                            0
                        } else {
                            (s.sequence + 1) as u32
                        },
                        drain: if is_last {
                            Drain::Done
                        } else {
                            s.drain
                        },
                        ..s
                    },
                )
            } else {
                (d, s)
            }
        },
        EncoderEvent::Error(_) => if s.dead {
            (d, s)
        } else {
            (d.sending(V4l2Event::Error { session_id: s.id, errno: ENODEV }), s.ended())
        },
    }
}

/// What a list of codec events does, oldest first, as long as the session lives.
pub open spec fn all_handled<GM, H, S, K>(
    d: DeviceView<GM, H, S, K>,
    s: SessionView<GM, H>,
    events: Seq<EncoderEvent>,
) -> (DeviceView<GM, H, S, K>, SessionView<GM, H>)
    decreases events.len(),
{
    if events.len() == 0 || s.dead {
        (d, s)
    } else {
        let (d1, s1) = handled(d, s, events[0]);
        all_handled(d1, s1, events.skip(1))
    }
}

/// What collecting the given events does.
pub open spec fn processed<GM, H, S, K>(
    d: DeviceView<GM, H, S, K>,
    s: SessionView<GM, H>,
    events: Seq<EncoderEvent>,
) -> (DeviceView<GM, H, S, K>, SessionView<GM, H>) {
    all_handled(
        d,
        SessionView { codec: s.codec.push(CodecCall::TakeEvents { events }), ..s },
        events,
    )
}

/// What the raw frames reported done among a list of events do.
pub open spec fn inputs_done<GM, H, S, K>(
    d: DeviceView<GM, H, S, K>,
    s: SessionView<GM, H>,
    events: Seq<EncoderEvent>,
) -> (DeviceView<GM, H, S, K>, SessionView<GM, H>)
    decreases events.len(),
{
    if events.len() == 0 {
        (d, s)
    } else {
        let (d1, s1) = if events[0] is InputBufferDone {
            handled(d, s, events[0])
        } else {
            (d, s)
        };
        inputs_done(d1, s1, events.skip(1))
    }
}

/// What stopping the codec does when it last reported `events`.
pub open spec fn stopped<GM, H, S, K>(
    d: DeviceView<GM, H, S, K>,
    s: SessionView<GM, H>,
    events: Seq<EncoderEvent>,
) -> (DeviceView<GM, H, S, K>, SessionView<GM, H>) {
    let (d1, s1) = inputs_done(d, s.torn_down(events), events);
    (d1, SessionView { input: s1.input.all_recalled(), ..s1 })
}

impl<GM, H> SessionView<GM, H> {
    /// The session with its codec joined, its last events taken, and every bitstream buffer back
    /// with the guest.
    pub open spec fn torn_down(self, events: Seq<EncoderEvent>) -> SessionView<GM, H> {
        SessionView {
            codec: self.codec.push(CodecCall::Stop).push(CodecCall::TakeEvents { events }),
            codec_started: false,
            output: self.output.all_returned(),
            ..self
        }
    }
}

/// A lent buffer returned to the guest is consistent, and so is its queue.
proof fn returned_buffer_is_wf<GM, H>(q: QueueView<GM, H>, queue: QueueType, i: int)
    requires
        q.wf(queue),
        0 <= i < q.buffers.len(),
        q.buffers[i].lent,
    ensures
        q.loan_returned(i, q.buffers[i].returned()).wf(queue),
        q.lending.contains(i as usize),
{
    assert(q.buffers[i].wf(i, queue, q.memory->0));
    assert(q.buffers[i as usize as int].lent);
    loan_returned_is_wf(q, queue, i, q.buffers[i].returned());
}

/// A filled buffer returned to the guest is consistent, and so is its queue.
proof fn encoded_buffer_is_wf<GM, H>(
    q: QueueView<GM, H>,
    queue: QueueType,
    i: int,
    bytesused: u32,
    timestamp: Timeval,
    kind: FrameKind,
    is_last: bool,
    sequence: u32,
)
    requires
        q.wf(queue),
        queue.multiplanar(),
        0 <= i < q.buffers.len(),
        q.buffers[i].lent,
    ensures
        q.loan_returned(
            i,
            encoded(q.buffers[i], bytesused, timestamp, kind, is_last, sequence),
        ).wf(queue),
{
    assert(q.buffers[i].wf(i, queue, q.memory->0));
    loan_returned_is_wf(
        q,
        queue,
        i,
        encoded(q.buffers[i], bytesused, timestamp, kind, is_last, sequence),
    );
}

/// What collecting what a codec produced does: nothing once the session is over.
pub open spec fn events_processed<GM, H, S, K>(
    d: DeviceView<GM, H, S, K>,
    s: SessionView<GM, H>,
    d2: DeviceView<GM, H, S, K>,
    s2: SessionView<GM, H>,
) -> bool {
    if s.dead {
        d2 == d && s2 == s
    } else {
        exists|events: Seq<EncoderEvent>| (d2, s2) == #[trigger] processed(d, s, events)
    }
}

impl<B, Q, M, HM, A> VideoEncoder<B, Q, M, HM, A> where
    B: VideoEncoderBackend,
    Q: VirtioMediaEventQueue,
    M: VirtioMediaGuestMemoryMapper,
    A: VirtioMediaBufferAllocator,
    HM: VirtioMediaHostMemoryMapper<Handle = A::Handle>,
 {
    /// Lends every pending buffer of both queues, if the codec runs and no finished drain holds
    /// them back. `EIO` when the codec refuses one, which ends the session.
    pub(crate) fn feed_pending(&mut self, session: &mut EncoderSession<B, M, A>) -> (r: Result<
        (),
        i32,
    >)
        requires
            old(self).wf(),
            old(session)@.wf(),
            old(session).backend.faithful(),
        ensures
            final(self).continues(old(self)),
            final(session).continues(old(session)),
            feeds(old(self)@, old(session)@, final(self)@, final(session)@, r),
            final(self).wf(),
            final(session)@.wf(),
            final(session).backend.faithful(),
    {
        let ghost o = session@;
        let ghost outs = o.output.pending;
        let ghost ins = o.input.pending;
        if !session.codec_started || !session.running() || session.drain == Drain::Done {
            return Ok(());
        }
        proof {
            queued_buffers_are_addressed(o.output, QueueType::VideoCaptureMplane);
            queued_buffers_are_addressed(o.input, QueueType::VideoOutputMplane);
            assert(o.output.first_loaned(0) =~= o.output);
            assert(o.loans(0) =~= Seq::<CodecCall>::empty());
        }
        let ghost mut k: int = 0;
        while session.output.pending.len() > 0
            invariant
                self.wf(),
                session.backend.faithful(),
                session.continues(old(session)),
                self.continues(old(self)),
                self@ == old(self)@,
                o == old(session)@,
                o.wf(),
                o.feeding(),
                !o.dead,
                outs == o.output.pending,
                o.output.addressed(),
                0 <= k <= outs.len(),
                session@ == (SessionView {
                    codec: o.codec + o.loans(k),
                    output: o.output.first_loaned(k),
                    ..o
                }),
            decreases outs.len() - k,
        {
            proof {
                one_more_loaned(o.output, k);
            }
            let index: usize = match session.output.pending.pop_front() {
                Some(i) => i,
                None => 0,
            };
            assert(index == outs[k]);
            assert(o.output.buffers[outs[k] as int].queued);
            let ghost before = session@;
            let r = Self::lend_output(session, index);
            assert(before.bitstream_buffer(index) == o.bitstream_buffer(index));
            proof {
                assert(o.loan(k, r) == CodecCall::UseAsCapture {
                    frame: before.bitstream_buffer(index),
                    answer: r,
                });
                if let Ok(u) = r {
                    assert(u == ());
                    assert(o.loans(k + 1) =~= o.loans(k).push(o.loan(k, Ok(()))));
                    assert(session@.codec =~= o.codec + o.loans(k + 1));
                    assert(session@.output =~= o.output.first_loaned(k + 1));
                }
            }
            if let Err(e) = r {
                proof {
                    returning_forgets_loans(o.output, k, session@.output);
                    assert(session@.codec =~= (o.codec + o.loans(k)).push(o.loan(k, Err(e))));
                    ended_is_wf(o);
                }
                self.end_session(session);
                assert(session@ == refused_loan(o, k, e));
                return Err(EIO);
            }
            proof {
                k = k + 1;
            }
        }
        assert(k == outs.len());
        assert(o.input.first_loaned(0) =~= o.input);
        let ghost mut j: int = 0;
        while session.input.pending.len() > 0
            invariant
                self.wf(),
                session.backend.faithful(),
                session.continues(old(session)),
                self.continues(old(self)),
                self@ == old(self)@,
                o == old(session)@,
                o.wf(),
                o.feeding(),
                !o.dead,
                outs == o.output.pending,
                ins == o.input.pending,
                o.input.addressed(),
                0 <= j <= ins.len(),
                session@ == (SessionView {
                    codec: o.codec + o.loans(outs.len() + j),
                    output: o.output.first_loaned(outs.len() as int),
                    input: o.input.first_loaned(j),
                    ..o
                }),
            decreases ins.len() - j,
        {
            proof {
                one_more_loaned(o.input, j);
            }
            let index: usize = match session.input.pending.pop_front() {
                Some(i) => i,
                None => 0,
            };
            assert(index == ins[j]);
            assert(o.input.buffers[ins[j] as int].queued);
            let ghost before = session@;
            let ghost n: int = outs.len() + j;
            let r = Self::lend_input(session, index);
            assert(before.raw_frame(index) == o.raw_frame(index));
            proof {
                assert(o.loan(n, r) == CodecCall::Encode {
                    buffer: before.raw_frame(index),
                    answer: r,
                });
                if let Ok(u) = r {
                    assert(u == ());
                    assert(o.loans(n + 1) =~= o.loans(n).push(o.loan(n, Ok(()))));
                    assert(session@.codec =~= o.codec + o.loans(n + 1));
                    assert(session@.input =~= o.input.first_loaned(j + 1));
                }
            }
            if let Err(e) = r {
                proof {
                    returning_forgets_loans(o.input, j, session@.input);
                    returning_forgets_loans(o.output, outs.len() as int, session@.output);
                    assert(session@.codec =~= (o.codec + o.loans(n)).push(o.loan(n, Err(e))));
                    ended_is_wf(o);
                }
                self.end_session(session);
                assert(session@ == refused_loan(o, n, e));
                return Err(EIO);
            }
            proof {
                j = j + 1;
            }
        }
        proof {
            assert(j == ins.len());
            loaned_is_wf(o.input, QueueType::VideoOutputMplane);
            loaned_is_wf(o.output, QueueType::VideoCaptureMplane);
            assert(session@ == o.all_loaned());
        }
        Ok(())
    }

    /// Tells the guest that a buffer is done. Only once its guest mapping is gone: what the codec
    /// wrote is in the guest's memory by then.
    fn tell_done(&mut self, session_id: u32, buffer: &Buffer<M::GuestMemoryMapping, A::Handle>)
        requires
            buffer.is_back(),
        ensures
            final(self).continues(old(self)),
            final(self)@ == old(self)@.sending(
                V4l2Event::DequeueBuffer { session_id, buffer: buffer.v4l2_buffer },
            ),
            old(self).wf() ==> final(self).wf(),
    {
        self.evt_queue.send_event(
            V4l2Event::DequeueBuffer { session_id, buffer: buffer.v4l2_buffer },
        );
    }

    /// One codec event: turns it into V4L2 events and buffer state.
    pub fn handle_event(&mut self, session: &mut EncoderSession<B, M, A>, event: &EncoderEvent)
        requires
            old(session)@.queues_wf(),
        ensures
            final(self).continues(old(self)),
            final(session).continues(old(session)),
            (final(self)@, final(session)@) == handled(old(self)@, old(session)@, *event),
            old(self).wf() ==> final(self).wf(),
            final(session)@.queues_wf(),
            old(session)@.wf() ==> final(session)@.wf(),
            old(session).backend.faithful() ==> final(session).backend.faithful(),
    {
        let ghost o = session@;
        match event {
            EncoderEvent::InputBufferDone(index) => {
                let i: usize = *index as usize;
                if i >= session.input.buffers.len() || !session.input.buffers[i].lent {
                    return;
                }
                proof {
                    returned_buffer_is_wf(o.input, QueueType::VideoOutputMplane, i as int);
                    assert(o.input.buffers[i as usize as int].lent);
                }
                session.input.end_loan(i, event, QueueDirection::Output);
                session.input.buffers[i].unqueue();
                assert(session@.input =~= o.input.loan_returned(
                    i as int,
                    o.input.buffers[i as int].returned(),
                ));
                self.tell_done(session.id, &session.input.buffers[i]);
            },
            EncoderEvent::FrameEncoded { index, bytesused, timestamp, kind, is_last } => {
                let i: usize = *index as usize;
                if i >= session.output.buffers.len() || !session.output.buffers[i].lent {
                    return;
                }
                let seq: u32 = session.sequence;
                let capacity: u32 = session.output.buffers[i].capacity();
                proof {
                    returned_buffer_is_wf(o.output, QueueType::VideoCaptureMplane, i as int);
                    encoded_buffer_is_wf(
                        o.output,
                        QueueType::VideoCaptureMplane,
                        i as int,
                        *bytesused,
                        *timestamp,
                        *kind,
                        *is_last,
                        seq,
                    );
                    assert(o.output.buffers[i as usize as int].lent);
                }
                session.output.end_loan(i, event, QueueDirection::Capture);
                session.output.buffers[i].unqueue();
                let mut v: V4l2Buffer = session.output.buffers[i].v4l2_buffer;
                v.set_first_bytesused(
                    if *bytesused <= capacity {
                        *bytesused
                    } else {
                        capacity
                    },
                );
                v.timestamp = *timestamp;
                v.flags = frame_flags(*kind, *bytesused, *is_last);
                v.sequence = seq;
                session.output.buffers[i].v4l2_buffer = v;
                session.sequence = session.sequence.wrapping_add(1);
                assert(session@.output =~= o.output.loan_returned(
                    i as int,
                    encoded(
                        o.output.buffers[i as int],
                        *bytesused,
                        *timestamp,
                        *kind,
                        *is_last,
                        seq,
                    ),
                ));
                self.tell_done(session.id, &session.output.buffers[i]);
                if *is_last {
                    session.drain = Drain::Done;
                    if session.eos_subscribed {
                        self.evt_queue.send_event(
                            V4l2Event::Event {
                                session_id: session.id,
                                event: SessionEventData {
                                    type_: V4L2_EVENT_EOS,
                                    id: 0,
                                    ctrl: None,
                                },
                            },
                        );
                    }
                }
            },
            EncoderEvent::Error(_) => {
                proof {
                    all_returned_is_wf(o.input, QueueType::VideoOutputMplane);
                    all_returned_is_wf(o.output, QueueType::VideoCaptureMplane);
                }
                self.end_session(session);
            },
        }
    }

    /// Collects what the codec has produced. Nothing more is collected once the session is over.
    pub fn process_events(&mut self, session: &mut EncoderSession<B, M, A>) -> (r: Result<(), i32>)
        requires
            old(self).serves(old(session)),
        ensures
            final(self).serves(final(session)),
            final(self).continues(old(self)),
            final(session).continues(old(session)),
            old(self)@.keeps_others(final(self)@, old(session)@.id),
            final(session)@.id == old(session)@.id,
            r is Ok,
            events_processed(old(self)@, old(session)@, final(self)@, final(session)@),
    {
        if session.dead {
            return Ok(());
        }
        let ghost d0 = self@;
        let ghost s0 = session@;
        let events: Vec<EncoderEvent> = session.backend.take_events();
        let ghost s1 = session@;
        assert(s1 == SessionView {
            codec: s0.codec.push(CodecCall::TakeEvents { events: events@ }),
            ..s0
        });
        assert(events@.skip(0) == events@);
        let mut i: usize = 0;
        while i < events.len() && !session.dead
            invariant
                i <= events@.len(),
                self.serves(session),
                self.continues(old(self)),
                session.continues(old(session)),
                d0.keeps_others(self@, s0.id),
                session@.id == s0.id,
                all_handled(d0, s1, events@) == all_handled(
                    self@,
                    session@,
                    events@.skip(i as int),
                ),
            decreases events@.len() - i,
        {
            assert(events@.skip(i as int)[0] == events@[i as int]);
            assert(events@.skip(i as int).skip(1) == events@.skip(i + 1));
            self.handle_event(session, &events[i]);
            i = i + 1;
        }
        assert((self@, session@) == processed(d0, s0, events@));
        Ok(())
    }

    /// Tears the codec down: joins it, returns the raw frames it finished to the guest, queues
    /// the ones it did not get to again, so that the next start encodes them, and returns every
    /// bitstream buffer.
    pub(crate) fn stop_codec(&mut self, session: &mut EncoderSession<B, M, A>)
        requires
            old(self).serves(old(session)),
        ensures
            final(self).serves(final(session)),
            final(self).continues(old(self)),
            final(session).continues(old(session)),
            old(self)@.keeps_others(final(self)@, old(session)@.id),
            final(session)@.id == old(session)@.id,
            !final(session)@.codec_started,
            final(session)@.output == old(session)@.output.all_returned(),
            if old(session)@.codec_started {
                exists|events: Seq<EncoderEvent>|
                    (final(self)@, final(session)@) == #[trigger] stopped(
                        old(self)@,
                        old(session)@,
                        events,
                    )
            } else {
                final(self)@ == old(self)@ && final(session)@ == SessionView {
                    output: old(session)@.output.all_returned(),
                    ..old(session)@
                }
            },
    {
        let ghost d0 = self@;
        let ghost s0 = session@;
        proof {
            all_returned_is_wf(s0.output, QueueType::VideoCaptureMplane);
        }
        if !session.codec_started {
            proof {
                nothing_lent_without_a_codec(s0.output);
            }
            session.output.unqueue_all(&session.backend, QueueDirection::Capture);
            return;
        }
        session.backend.stop();
        session.codec_started = false;
        session.output.unqueue_all(&session.backend, QueueDirection::Capture);
        let events: Vec<EncoderEvent> = session.backend.take_events();
        let ghost s1 = session@;
        assert(s1 =~= s0.torn_down(events@));
        assert(events@.skip(0) == events@);
        let mut i: usize = 0;
        while i < events.len()
            invariant
                i <= events@.len(),
                self.wf(),
                session.backend.faithful(),
                self.continues(old(self)),
                session.continues(old(session)),
                session@.queues_wf(),
                session@.colorspace.wf(),
                !session@.codec_started,
                !session@.dead,
                session@.output == s1.output,
                d0.fits(s0),
                s1 == s0.torn_down(events@),
                self@ == (DeviceView { events: self@.events, ..d0 }),
                session@ == (SessionView { input: session@.input, ..s1 }),
                session@.input.buffers.len() == s0.input.buffers.len(),
                inputs_done(d0, s1, events@) == inputs_done(
                    self@,
                    session@,
                    events@.skip(i as int),
                ),
            decreases events@.len() - i,
        {
            assert(events@.skip(i as int)[0] == events@[i as int]);
            assert(events@.skip(i as int).skip(1) == events@.skip(i + 1));
            match &events[i] {
                EncoderEvent::InputBufferDone(_) => {
                    self.handle_event(session, &events[i]);
                },
                _ => {},
            }
            i = i + 1;
        }
        let ghost s2 = session@;
        session.input.recall_all(&session.backend, QueueDirection::Output);
        proof {
            recalled_is_wf(s2.input, QueueType::VideoOutputMplane);
            assert((self@, session@) == stopped(d0, s0, events@));
        }
    }
}

} // verus!
