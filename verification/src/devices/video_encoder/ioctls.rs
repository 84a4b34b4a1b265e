//! Serving every ioctl of an encoder, from the guest's bytes to the answer's.
use vstd::prelude::*;

use super::backend::VideoEncoderBackend;
use super::buffer_ioctls::{
    buffer_told, created, prepared, queued, requested, scatter_lists,
};
use super::control_ioctls::{
    answered_set, control_answer, control_set, control_told, ext_control_told, item_told, read,
    set_controls, subscribed, unsubscribed, ExtCtrlOp,
};
use super::device::{DeviceView, EncoderSession, VideoEncoder};
use super::format_ioctls::{
    format_listed, format_told, intervals_listed, parm_set, parm_told, selection_set,
    selection_told, set_format, sizes_listed, tried_format,
};
use super::session::SessionView;
use super::stream_ioctls::{commanded, normalized, stream_on, stream_stopped};
use crate::bytes::ChainReader;
use crate::errno::ENOTTY;
use crate::host::{
    VirtioMediaBufferAllocator, VirtioMediaEventQueue, VirtioMediaGuestMemoryMapper,
    VirtioMediaHostMemoryMapper,
};
use crate::ioctl::codes::V4l2Ioctl;
use crate::ioctl::handler::{
    answers, dispatched, ext_ctrls_response, virtio_media_dispatch_ioctl, VirtioMediaIoctlHandler,
};
use crate::ioctl::reply::{put_reply, IoctlReply};
use crate::ioctl::requests::{decoded, Decoded, IoctlRequest};
use crate::ioctl::types::{ExtControl, ExtControls};

verus! {

/// What an encoder answers to a request, and what the request does to it and its session. What it
/// does not offer is `ENOTTY`.
pub open spec fn encoder_answers<GM, H, S, K>(
    d: DeviceView<GM, H, S, K>,
    s: SessionView<GM, H>,
    request: IoctlRequest,
    d2: DeviceView<GM, H, S, K>,
    s2: SessionView<GM, H>,
    reply: IoctlReply,
) -> bool {
    let kept = d2 == d && s2 == s;
    answers(request, reply) && match request {
        IoctlRequest::EnumFmt { queue, index } => kept && format_listed(
            d.caps,
            queue,
            index,
            reply.fmtdesc(),
        ),
        IoctlRequest::GFmt { queue } => kept && format_told(s, queue, reply.format()),
        IoctlRequest::SFmt { queue, format } => d2 == d && set_format(
            d,
            s,
            queue,
            format,
            s2,
            reply.format(),
        ),
        IoctlRequest::ReqBufs { queue, memory, count } => requested(
            d,
            s,
            queue,
            memory,
            count,
            d2,
            s2,
            reply.requestbuffers(),
        ),
        IoctlRequest::QueryBuf { queue, index, .. } => kept && reply.buffer() == buffer_told(
            s,
            queue,
            index,
        ),
        IoctlRequest::QBuf { input } => queued(
            d,
            s,
            input.buffer,
            scatter_lists(input.guest_regions@),
            input.payload,
            d2,
            s2,
            reply.buffer(),
        ),
        IoctlRequest::StreamOn { queue } => stream_on(d, s, queue, d2, s2, reply.done()),
        IoctlRequest::StreamOff { queue } => stream_stopped(d, s, queue, d2, s2, reply.done()),
        IoctlRequest::GParm { queue } => kept && reply.parm() == parm_told(s, queue),
        IoctlRequest::SParm { parm } => d2 == d && (s2, reply.parm()) == parm_set(d, s, parm),
        IoctlRequest::GCtrl { id } => kept && reply.control() == control_answer(
            id,
            read(d, s, id, false),
        ),
        IoctlRequest::SCtrl { id, value } => d2 == d && control_set(
            d,
            s,
            id,
            value,
            s2,
            reply.control(),
        ),
        IoctlRequest::QueryCtrl { id, flags } => kept && control_told(
            d.controls,
            id,
            flags,
            reply.queryctrl(),
        ),
        IoctlRequest::QueryMenu { id, index } => kept && item_told(
            d.controls,
            id,
            index,
            reply.querymenu(),
        ),
        IoctlRequest::TryFmt { queue, format } => kept && tried_format(
            d,
            s,
            queue,
            format,
            reply.format(),
        ),
        IoctlRequest::EnumFrameSizes { index, pixel_format } => {
            kept && reply.frmsize() == sizes_listed(d, s, index, pixel_format)
        },
        IoctlRequest::EnumFrameIntervals { index, pixel_format, width, height } => {
            kept && reply.frmival() == intervals_listed(d, s, index, pixel_format, width, height)
        },
        IoctlRequest::EncoderCmd { cmd } => commanded(d, s, cmd, d2, s2, reply.encoder_cmd()),
        IoctlRequest::TryEncoderCmd { cmd } => kept && reply.encoder_cmd() == normalized(cmd),
        IoctlRequest::SubscribeEvent { event, flags } => (d2, s2, reply.done()) == subscribed(
            d,
            s,
            event,
            flags,
        ),
        IoctlRequest::UnsubscribeEvent { event } => d2 == d && (s2, reply.done()) == unsubscribed(
            s,
            event,
        ),
        IoctlRequest::CreateBufs { count, queue, memory, format } => created(
            d,
            s,
            count,
            queue,
            memory,
            format,
            d2,
            s2,
            reply.create_buffers(),
        ),
        IoctlRequest::PrepareBuf { input } => d2 == d && prepared(
            s,
            input.buffer,
            input.payload,
            s2,
            reply.buffer(),
        ),
        IoctlRequest::GSelection { sel_type, sel_target, .. } => {
            kept && reply.rect() == selection_told(s, sel_type, sel_target)
        },
        IoctlRequest::SSelection { sel_type, sel_target, sel_rect, .. } => {
            d2 == d && (s2, reply.rect()) == selection_set(d, s, sel_type, sel_target, sel_rect)
        },
        IoctlRequest::QueryExtCtrl { id, flags } => kept && ext_control_told(
            d.controls,
            id,
            flags,
            reply.query_ext_ctrl(),
        ),
        IoctlRequest::GExtCtrls { which, input } => kept && answered_set(
            d,
            s,
            ExtCtrlOp::Read,
            which,
            input.ctrls,
            input.ctrl_array@,
            reply.header(),
            reply.controls(),
            reply.done(),
        ),
        IoctlRequest::TryExtCtrls { which, input } => kept && answered_set(
            d,
            s,
            ExtCtrlOp::Check,
            which,
            input.ctrls,
            input.ctrl_array@,
            reply.header(),
            reply.controls(),
            reply.done(),
        ),
        IoctlRequest::SExtCtrls { which, input } => d2 == d && set_controls(
            d,
            s,
            which,
            input.ctrls,
            input.ctrl_array@,
            s2,
            reply.header(),
            reply.controls(),
            reply.done(),
        ),
        _ => kept && reply == (IoctlReply::Refused { errno: ENOTTY }),
    }
}

/// What serving an ioctl does, from the guest's bytes to the answer's.
pub open spec fn encoder_serves<GM, H, S, K>(
    d: DeviceView<GM, H, S, K>,
    s: SessionView<GM, H>,
    ioctl: V4l2Ioctl,
    input: Seq<u8>,
    before: Seq<u8>,
    request: Decoded,
    reply: IoctlReply,
    d2: DeviceView<GM, H, S, K>,
    s2: SessionView<GM, H>,
    after: Seq<u8>,
) -> bool {
    &&& decoded(ioctl, input, request)
    &&& match request {
        Ok(q) => encoder_answers(d, s, q, d2, s2, reply),
        Err(refusal) => d2 == d && s2 == s && reply == refusal,
    }
    &&& after == put_reply(before, reply)
}

/// Dispatching an ioctl to an encoder serves it.
proof fn dispatching_serves<B, Q, M, HM, A>(
    encoder: VideoEncoder<B, Q, M, HM, A>,
    session: EncoderSession<B, M, A>,
    ioctl: V4l2Ioctl,
    input: Seq<u8>,
    before: Seq<u8>,
    request: Decoded,
    reply: IoctlReply,
    after: VideoEncoder<B, Q, M, HM, A>,
    session2: EncoderSession<B, M, A>,
    written: Seq<u8>,
) where
    B: VideoEncoderBackend,
    Q: VirtioMediaEventQueue,
    M: VirtioMediaGuestMemoryMapper,
    A: VirtioMediaBufferAllocator,
    HM: VirtioMediaHostMemoryMapper<Handle = A::Handle>,

    requires
        dispatched(
            encoder,
            session,
            ioctl,
            input,
            before,
            request,
            reply,
            after,
            session2,
            written,
        ),
    ensures
        encoder_serves(
            encoder@,
            session@,
            ioctl,
            input,
            before,
            request,
            reply,
            after@,
            session2@,
            written,
        ),
        encoder@.keeps_others(after@, session@.id),
        session2@.id == session@.id,
        after.continues(&encoder),
        session2.continues(&session),
{
}

impl<B, Q, M, HM, A> VideoEncoder<B, Q, M, HM, A> where
    B: VideoEncoderBackend,
    Q: VirtioMediaEventQueue,
    M: VirtioMediaGuestMemoryMapper,
    A: VirtioMediaBufferAllocator,
    HM: VirtioMediaHostMemoryMapper<Handle = A::Handle>,
 {
    /// Serves the format requests.
    fn run_formats(
        &mut self,
        session: &mut EncoderSession<B, M, A>,
        request: IoctlRequest,
    ) -> (reply:
        IoctlReply)
        requires
            old(self).serves(old(session)),
            request is EnumFmt
                || request is GFmt
                || request is SFmt
                || request is TryFmt
                || request is EnumFrameSizes
                || request is EnumFrameIntervals,
        ensures
            final(self).serves(final(session)),
            final(self).continues(old(self)),
            final(session).continues(old(session)),
            old(self)@.keeps_others(final(self)@, old(session)@.id),
            final(session)@.id == old(session)@.id,
            encoder_answers(
                old(self)@,
                old(session)@,
                request,
                final(self)@,
                final(session)@,
                reply,
            ),
    {
        match request {
            IoctlRequest::EnumFmt { queue, index } => match self.enum_fmt(session, queue, index) {
                Ok(desc) => IoctlReply::FmtDesc { desc },
                Err(errno) => IoctlReply::Refused { errno },
            },
            IoctlRequest::GFmt { queue } => match self.g_fmt(session, queue) {
                Ok(format) => IoctlReply::Format { format },
                Err(errno) => IoctlReply::Refused { errno },
            },
            IoctlRequest::SFmt { queue, format } => match self.s_fmt(session, queue, format) {
                Ok(format) => IoctlReply::Format { format },
                Err(errno) => IoctlReply::Refused { errno },
            },
            IoctlRequest::TryFmt { queue, format } => match self.try_fmt(session, queue, format) {
                Ok(format) => IoctlReply::Format { format },
                Err(errno) => IoctlReply::Refused { errno },
            },
            IoctlRequest::EnumFrameSizes { index, pixel_format } => match self.enum_framesizes(
                session,
                index,
                pixel_format,
            ) {
                Ok(size) => IoctlReply::FrmSize { size },
                Err(errno) => IoctlReply::Refused { errno },
            },
            IoctlRequest::EnumFrameIntervals { index, pixel_format, width, height } => {
                match self.enum_frameintervals(
                    session,
                    index,
                    pixel_format,
                    width,
                    height,
                ) {
                    Ok(interval) => IoctlReply::FrmIval { interval },
                    Err(errno) => IoctlReply::Refused { errno },
                }
            },
            _ => IoctlReply::Refused { errno: ENOTTY },
        }
    }

    /// Serves the selection and stream parameter requests.
    fn run_selections(
        &mut self,
        session: &mut EncoderSession<B, M, A>,
        request: IoctlRequest,
    ) -> (reply:
        IoctlReply)
        requires
            old(self).serves(old(session)),
            request is GParm
                || request is SParm
                || request is GSelection
                || request is SSelection,
        ensures
            final(self).serves(final(session)),
            final(self).continues(old(self)),
            final(session).continues(old(session)),
            old(self)@.keeps_others(final(self)@, old(session)@.id),
            final(session)@.id == old(session)@.id,
            encoder_answers(
                old(self)@,
                old(session)@,
                request,
                final(self)@,
                final(session)@,
                reply,
            ),
    {
        match request {
            IoctlRequest::GParm { queue } => match self.g_parm(session, queue) {
                Ok(parm) => IoctlReply::Parm { parm },
                Err(errno) => IoctlReply::Refused { errno },
            },
            IoctlRequest::SParm { parm } => match self.s_parm(session, parm) {
                Ok(parm) => IoctlReply::Parm { parm },
                Err(errno) => IoctlReply::Refused { errno },
            },
            IoctlRequest::GSelection { sel_type, sel_target, raw } => match self.g_selection(
                session,
                sel_type,
                sel_target,
            ) {
                Ok(rect) => IoctlReply::Selection { raw, rect },
                Err(errno) => IoctlReply::Refused { errno },
            },
            IoctlRequest::SSelection { sel_type, sel_target, sel_rect, sel_flags, raw } => {
                match self.s_selection(
                    session,
                    sel_type,
                    sel_target,
                    sel_rect,
                    sel_flags,
                ) {
                    Ok(rect) => IoctlReply::Selection { raw, rect },
                    Err(errno) => IoctlReply::Refused { errno },
                }
            },
            _ => IoctlReply::Refused { errno: ENOTTY },
        }
    }

    /// Serves the buffer requests.
    fn run_buffers(
        &mut self,
        session: &mut EncoderSession<B, M, A>,
        request: IoctlRequest,
    ) -> (reply:
        IoctlReply)
        requires
            old(self).serves(old(session)),
            request is ReqBufs
                || request is QueryBuf
                || request is QBuf
                || request is CreateBufs
                || request is PrepareBuf,
        ensures
            final(self).serves(final(session)),
            final(self).continues(old(self)),
            final(session).continues(old(session)),
            old(self)@.keeps_others(final(self)@, old(session)@.id),
            final(session)@.id == old(session)@.id,
            encoder_answers(
                old(self)@,
                old(session)@,
                request,
                final(self)@,
                final(session)@,
                reply,
            ),
    {
        match request {
            IoctlRequest::ReqBufs { queue, memory, count } => match self.reqbufs(
                session,
                queue,
                memory,
                count,
            ) {
                Ok(answer) => IoctlReply::RequestBuffers { answer },
                Err(errno) => IoctlReply::Refused { errno },
            },
            IoctlRequest::QueryBuf { queue, index, planes } => match self.querybuf(
                session,
                queue,
                index,
            ) {
                Ok(buffer) => IoctlReply::Buffer { buffer, planes },
                Err(errno) => IoctlReply::Refused { errno },
            },
            IoctlRequest::QBuf { input } => {
                let planes: u32 = input.buffer.num_planes() as u32;
                match self.qbuf(session, input.buffer, input.guest_regions, input.payload) {
                    Ok(buffer) => IoctlReply::Buffer { buffer, planes },
                    Err(errno) => IoctlReply::Refused { errno },
                }
            },
            IoctlRequest::CreateBufs { count, queue, memory, format } => match self.create_bufs(
                session,
                count,
                queue,
                memory,
                format,
            ) {
                Ok(answer) => IoctlReply::CreateBuffers { answer },
                Err(errno) => IoctlReply::Refused { errno },
            },
            IoctlRequest::PrepareBuf { input } => {
                let planes: u32 = input.buffer.num_planes() as u32;
                match self.prepare_buf(session, input.buffer, input.guest_regions, input.payload) {
                    Ok(buffer) => IoctlReply::Buffer { buffer, planes },
                    Err(errno) => IoctlReply::Refused { errno },
                }
            },
            _ => IoctlReply::Refused { errno: ENOTTY },
        }
    }

    /// Serves the streaming and event requests.
    fn run_streams(
        &mut self,
        session: &mut EncoderSession<B, M, A>,
        request: IoctlRequest,
    ) -> (reply:
        IoctlReply)
        requires
            old(self).serves(old(session)),
            request is StreamOn
                || request is StreamOff
                || request is EncoderCmd
                || request is TryEncoderCmd
                || request is SubscribeEvent
                || request is UnsubscribeEvent,
        ensures
            final(self).serves(final(session)),
            final(self).continues(old(self)),
            final(session).continues(old(session)),
            old(self)@.keeps_others(final(self)@, old(session)@.id),
            final(session)@.id == old(session)@.id,
            encoder_answers(
                old(self)@,
                old(session)@,
                request,
                final(self)@,
                final(session)@,
                reply,
            ),
    {
        match request {
            IoctlRequest::StreamOn { queue } => match self.streamon(session, queue) {
                Ok(done) => {
                    assert(done == ());
                    IoctlReply::Done
                },
                Err(errno) => IoctlReply::Refused { errno },
            },
            IoctlRequest::StreamOff { queue } => match self.streamoff(session, queue) {
                Ok(done) => {
                    assert(done == ());
                    IoctlReply::Done
                },
                Err(errno) => IoctlReply::Refused { errno },
            },
            IoctlRequest::EncoderCmd { cmd } => match self.encoder_cmd(session, cmd) {
                Ok(cmd) => IoctlReply::EncoderCmd { cmd },
                Err(errno) => IoctlReply::Refused { errno },
            },
            IoctlRequest::TryEncoderCmd { cmd } => match self.try_encoder_cmd(session, cmd) {
                Ok(cmd) => IoctlReply::EncoderCmd { cmd },
                Err(errno) => IoctlReply::Refused { errno },
            },
            IoctlRequest::SubscribeEvent { event, flags } => match self.subscribe_event(
                session,
                event,
                flags,
            ) {
                Ok(done) => {
                    assert(done == ());
                    IoctlReply::Done
                },
                Err(errno) => IoctlReply::Refused { errno },
            },
            IoctlRequest::UnsubscribeEvent { event } => match self.unsubscribe_event(
                session,
                event,
            ) {
                Ok(done) => {
                    assert(done == ());
                    IoctlReply::Done
                },
                Err(errno) => IoctlReply::Refused { errno },
            },
            _ => IoctlReply::Refused { errno: ENOTTY },
        }
    }

    /// Serves the control requests.
    fn run_controls(
        &mut self,
        session: &mut EncoderSession<B, M, A>,
        request: IoctlRequest,
    ) -> (reply:
        IoctlReply)
        requires
            old(self).serves(old(session)),
            request is GCtrl
                || request is SCtrl
                || request is QueryCtrl
                || request is QueryMenu
                || request is QueryExtCtrl,
        ensures
            final(self).serves(final(session)),
            final(self).continues(old(self)),
            final(session).continues(old(session)),
            old(self)@.keeps_others(final(self)@, old(session)@.id),
            final(session)@.id == old(session)@.id,
            encoder_answers(
                old(self)@,
                old(session)@,
                request,
                final(self)@,
                final(session)@,
                reply,
            ),
    {
        match request {
            IoctlRequest::GCtrl { id } => match self.g_ctrl(session, id) {
                Ok(ctrl) => IoctlReply::Control { ctrl },
                Err(errno) => IoctlReply::Refused { errno },
            },
            IoctlRequest::SCtrl { id, value } => match self.s_ctrl(session, id, value) {
                Ok(ctrl) => IoctlReply::Control { ctrl },
                Err(errno) => IoctlReply::Refused { errno },
            },
            IoctlRequest::QueryCtrl { id, flags } => match self.queryctrl(session, id, flags) {
                Ok(ctrl) => IoctlReply::QueryCtrl { ctrl },
                Err(errno) => IoctlReply::Refused { errno },
            },
            IoctlRequest::QueryMenu { id, index } => match self.querymenu(session, id, index) {
                Ok(item) => IoctlReply::QueryMenu { item },
                Err(errno) => IoctlReply::Refused { errno },
            },
            IoctlRequest::QueryExtCtrl { id, flags } => match self.query_ext_ctrl(
                session,
                id,
                flags,
            ) {
                Ok(ctrl) => IoctlReply::QueryExtCtrl { ctrl },
                Err(errno) => IoctlReply::Refused { errno },
            },
            _ => IoctlReply::Refused { errno: ENOTTY },
        }
    }

    /// Serves the requests on sets of controls.
    fn run_control_sets(
        &mut self,
        session: &mut EncoderSession<B, M, A>,
        request: IoctlRequest,
    ) -> (reply:
        IoctlReply)
        requires
            old(self).serves(old(session)),
            request is GExtCtrls
                || request is SExtCtrls
                || request is TryExtCtrls,
        ensures
            final(self).serves(final(session)),
            final(self).continues(old(self)),
            final(session).continues(old(session)),
            old(self)@.keeps_others(final(self)@, old(session)@.id),
            final(session)@.id == old(session)@.id,
            encoder_answers(
                old(self)@,
                old(session)@,
                request,
                final(self)@,
                final(session)@,
                reply,
            ),
    {
        match request {
            IoctlRequest::GExtCtrls { which, input } => {
                let mut ctrls: ExtControls = input.ctrls;
                let mut ctrl_array: Vec<ExtControl> = input.ctrl_array;
                let result = self.g_ext_ctrls(
                    session,
                    which,
                    &mut ctrls,
                    &mut ctrl_array,
                    input.user_regions,
                );
                proof {
                    if let Ok(done) = result {
                        assert(done == ());
                    }
                }
                ext_ctrls_response(ctrls, ctrl_array, result)
            },
            IoctlRequest::SExtCtrls { which, input } => {
                let mut ctrls: ExtControls = input.ctrls;
                let mut ctrl_array: Vec<ExtControl> = input.ctrl_array;
                let result = self.s_ext_ctrls(
                    session,
                    which,
                    &mut ctrls,
                    &mut ctrl_array,
                    input.user_regions,
                );
                proof {
                    if let Ok(done) = result {
                        assert(done == ());
                    }
                }
                ext_ctrls_response(ctrls, ctrl_array, result)
            },
            IoctlRequest::TryExtCtrls { which, input } => {
                let mut ctrls: ExtControls = input.ctrls;
                let mut ctrl_array: Vec<ExtControl> = input.ctrl_array;
                let result = self.try_ext_ctrls(
                    session,
                    which,
                    &mut ctrls,
                    &mut ctrl_array,
                    input.user_regions,
                );
                proof {
                    if let Ok(done) = result {
                        assert(done == ());
                    }
                }
                ext_ctrls_response(ctrls, ctrl_array, result)
            },
            _ => IoctlReply::Refused { errno: ENOTTY },
        }
    }

    /// Serves a request.
    pub fn run(&mut self, session: &mut EncoderSession<B, M, A>, request: IoctlRequest) -> (reply:
        IoctlReply)
        requires
            old(self).serves(old(session)),
        ensures
            final(self).serves(final(session)),
            final(self).continues(old(self)),
            final(session).continues(old(session)),
            old(self)@.keeps_others(final(self)@, old(session)@.id),
            final(session)@.id == old(session)@.id,
            encoder_answers(
                old(self)@,
                old(session)@,
                request,
                final(self)@,
                final(session)@,
                reply,
            ),
    {
        match request {
            IoctlRequest::EnumFmt { .. }
            | IoctlRequest::GFmt { .. }
            | IoctlRequest::SFmt { .. }
            | IoctlRequest::TryFmt { .. }
            | IoctlRequest::EnumFrameSizes { .. }
            | IoctlRequest::EnumFrameIntervals { .. } => self.run_formats(session, request),
            IoctlRequest::GParm { .. }
            | IoctlRequest::SParm { .. }
            | IoctlRequest::GSelection { .. }
            | IoctlRequest::SSelection { .. } => self.run_selections(session, request),
            IoctlRequest::ReqBufs { .. }
            | IoctlRequest::QueryBuf { .. }
            | IoctlRequest::QBuf { .. }
            | IoctlRequest::CreateBufs { .. }
            | IoctlRequest::PrepareBuf { .. } => self.run_buffers(session, request),
            IoctlRequest::StreamOn { .. }
            | IoctlRequest::StreamOff { .. }
            | IoctlRequest::EncoderCmd { .. }
            | IoctlRequest::TryEncoderCmd { .. }
            | IoctlRequest::SubscribeEvent { .. }
            | IoctlRequest::UnsubscribeEvent { .. } => self.run_streams(session, request),
            IoctlRequest::GCtrl { .. }
            | IoctlRequest::SCtrl { .. }
            | IoctlRequest::QueryCtrl { .. }
            | IoctlRequest::QueryMenu { .. }
            | IoctlRequest::QueryExtCtrl { .. } => self.run_controls(session, request),
            IoctlRequest::GExtCtrls { .. }
            | IoctlRequest::SExtCtrls { .. }
            | IoctlRequest::TryExtCtrls { .. } => self.run_control_sets(session, request),
            _ => IoctlReply::Refused { errno: ENOTTY },
        }
    }

    /// Serves an ioctl: reads and checks what the guest sent, and writes the answer.
    pub fn do_ioctl(
        &mut self,
        session: &mut EncoderSession<B, M, A>,
        ioctl: V4l2Ioctl,
        reader: &mut ChainReader,
        writer: &mut Vec<u8>,
    )
        requires
            old(self).serves(old(session)),
            old(reader).wf(),
        ensures
            final(self).serves(final(session)),
            final(self).continues(old(self)),
            final(session).continues(old(session)),
            old(self)@.keeps_others(final(self)@, old(session)@.id),
            final(session)@.id == old(session)@.id,
            final(reader).wf(),
            exists|request: Decoded, reply: IoctlReply| #[trigger]
                encoder_serves(
                    old(self)@,
                    old(session)@,
                    ioctl,
                    old(reader).rest(),
                    old(writer)@,
                    request,
                    reply,
                    final(self)@,
                    final(session)@,
                    final(writer)@,
                ),
    {
        let ghost input = reader.rest();
        let ghost before = writer@;
        let ghost h = *self;
        let ghost t = *session;
        virtio_media_dispatch_ioctl(self, session, ioctl, reader, writer);
        proof {
            let (request, reply) = choose|request: Decoded, reply: IoctlReply| #[trigger]
                dispatched(
                    h,
                    t,
                    ioctl,
                    input,
                    before,
                    request,
                    reply,
                    *self,
                    *session,
                    writer@,
                );
            dispatching_serves(
                h,
                t,
                ioctl,
                input,
                before,
                request,
                reply,
                *self,
                *session,
                writer@,
            );
        }
    }
}

impl<B, Q, M, HM, A> VirtioMediaIoctlHandler for VideoEncoder<B, Q, M, HM, A> where
    B: VideoEncoderBackend,
    Q: VirtioMediaEventQueue,
    M: VirtioMediaGuestMemoryMapper,
    A: VirtioMediaBufferAllocator,
    HM: VirtioMediaHostMemoryMapper<Handle = A::Handle>,
 {
    type Session = EncoderSession<B, M, A>;

    open spec fn serves(&self, session: &EncoderSession<B, M, A>) -> bool {
        self.wf() && self@.fits(session@) && session.backend.faithful()
    }

    open spec fn apart(a: &EncoderSession<B, M, A>, b: &EncoderSession<B, M, A>) -> bool {
        a@.id != b@.id
    }

    open spec fn does(
        &self,
        session: &EncoderSession<B, M, A>,
        request: IoctlRequest,
        after: &Self,
        session2: &EncoderSession<B, M, A>,
        reply: IoctlReply,
    ) -> bool {
        &&& encoder_answers(self@, session@, request, after@, session2@, reply)
        &&& self@.keeps_others(after@, session@.id)
        &&& session2@.id == session@.id
        &&& after.continues(self)
        &&& session2.continues(session)
    }

    fn serve(&mut self, session: &mut EncoderSession<B, M, A>, request: IoctlRequest) -> (reply:
        IoctlReply) {
        self.run(session, request)
    }
}

} // verus!
