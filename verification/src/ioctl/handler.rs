//! The trait devices implement to serve ioctls, and the dispatcher that reads, hands on and answers
//! them.
use vstd::prelude::*;

use super::codes::V4l2Ioctl;
use super::reply::{put_reply, write_reply, IoctlReply};
use super::requests::{decode, decoded, Decoded, IoctlRequest};
use super::types::{ExtControl, ExtControls, IoctlResult};
use crate::bytes::ChainReader;
use crate::errno::ENOTTY;

verus! {

/// Implements the ioctls a device supports.
///
/// [`IoctlRequest`] has a variant for each ioctl. A device just serves the ones it supports, and
/// leaves the others to [`not_supported`], which answers `ENOTTY`. All reading and checking of what
/// the guest sent is done by [`virtio_media_dispatch_ioctl`].
pub trait VirtioMediaIoctlHandler: Sized {
    type Session;

    /// Whether the device can serve a session: both are consistent, and fit each other.
    open spec fn serves(&self, session: &Self::Session) -> bool {
        true
    }

    /// Whether two sessions are different ones.
    open spec fn apart(a: &Self::Session, b: &Self::Session) -> bool {
        true
    }

    /// What serving a request does, and what it answers. Of a device that supports nothing this is
    /// [`unsupported`], with nothing changed.
    spec fn does(
        &self,
        session: &Self::Session,
        request: IoctlRequest,
        after: &Self,
        session2: &Self::Session,
        reply: IoctlReply,
    ) -> bool;

    /// Serves a request. Every other session is served as before.
    fn serve(&mut self, session: &mut Self::Session, request: IoctlRequest) -> (reply: IoctlReply)
        requires
            old(self).serves(old(session)),
        ensures
            final(self).serves(final(session)),
            forall|t: Self::Session| #[trigger]
                old(self).serves(&t) && Self::apart(&t, old(session)) ==> final(self).serves(&t)
                    && Self::apart(&t, final(session)),
            answers(request, reply),
            old(self).does(old(session), request, final(self), final(session), reply),
    ;
}

/// Whether an answer is of the kind a request is owed: what the ioctl tells, or an errno. A refused
/// set of controls goes back with its errno; whatever else a request carries that the answer
/// repeats is repeated as it was.
pub open spec fn answers(request: IoctlRequest, reply: IoctlReply) -> bool {
    match request {
        IoctlRequest::GExtCtrls { .. } | IoctlRequest::SExtCtrls { .. }
        | IoctlRequest::TryExtCtrls { .. } => reply is Controls || reply is RefusedControls,
        _ => reply is Refused || match request {
            IoctlRequest::EnumFmt { .. } => reply is FmtDesc,
            IoctlRequest::GFmt { .. } => reply is Format,
            IoctlRequest::SFmt { .. } => reply is Format,
            IoctlRequest::ReqBufs { .. } => reply is RequestBuffers,
            IoctlRequest::QueryBuf { planes, .. } => reply matches IoctlReply::Buffer {
                planes: p,
                ..
            } && p == planes,
            IoctlRequest::QBuf { input } => reply matches IoctlReply::Buffer { planes: p, .. } && p
                == input.buffer.plane_count(),
            IoctlRequest::StreamOn { .. } => reply is Done,
            IoctlRequest::StreamOff { .. } => reply is Done,
            IoctlRequest::GParm { .. } => reply is Parm,
            IoctlRequest::SParm { .. } => reply is Parm,
            IoctlRequest::GStd => reply is Std,
            IoctlRequest::SStd { .. } => reply is Done,
            IoctlRequest::EnumStd { .. } => reply is Standard,
            IoctlRequest::EnumInput { .. } => reply is Input,
            IoctlRequest::GCtrl { .. } => reply is Control,
            IoctlRequest::SCtrl { .. } => reply is Control,
            IoctlRequest::GTuner { .. } => reply is Tuner,
            IoctlRequest::STuner { .. } => reply is Done,
            IoctlRequest::GAudio => reply is Audio,
            IoctlRequest::SAudio { .. } => reply is Done,
            IoctlRequest::QueryCtrl { .. } => reply is QueryCtrl,
            IoctlRequest::QueryMenu { .. } => reply is QueryMenu,
            IoctlRequest::GInput => reply is Number,
            IoctlRequest::SInput { .. } => reply is Number,
            IoctlRequest::GOutput => reply is Number,
            IoctlRequest::SOutput { .. } => reply is Number,
            IoctlRequest::EnumOutput { .. } => reply is Output,
            IoctlRequest::GAudOut => reply is Audio,
            IoctlRequest::SAudOut { .. } => reply is Done,
            IoctlRequest::GModulator { .. } => reply is Modulator,
            IoctlRequest::SModulator { .. } => reply is Done,
            IoctlRequest::GFrequency { .. } => reply is Frequency,
            IoctlRequest::SFrequency { .. } => reply is Done,
            IoctlRequest::QueryStd => reply is Std,
            IoctlRequest::TryFmt { .. } => reply is Format,
            IoctlRequest::EnumAudio { .. } => reply is Audio,
            IoctlRequest::EnumAudOut { .. } => reply is Audio,
            IoctlRequest::EnumFrameSizes { .. } => reply is FrmSize,
            IoctlRequest::EnumFrameIntervals { .. } => reply is FrmIval,
            IoctlRequest::GEncIndex => reply is EncIdx,
            IoctlRequest::EncoderCmd { .. } => reply is EncoderCmd,
            IoctlRequest::TryEncoderCmd { .. } => reply is EncoderCmd,
            IoctlRequest::SDvTimings { .. } => reply is DvTimings,
            IoctlRequest::GDvTimings => reply is DvTimings,
            IoctlRequest::SubscribeEvent { .. } => reply is Done,
            IoctlRequest::UnsubscribeEvent { .. } => reply is Done,
            IoctlRequest::CreateBufs { .. } => reply is CreateBuffers,
            IoctlRequest::PrepareBuf { input } => reply matches IoctlReply::Buffer {
                planes: p,
                ..
            } && p == input.buffer.plane_count(),
            IoctlRequest::GSelection { raw, .. } => reply matches IoctlReply::Selection {
                raw: q,
                ..
            } && q == raw,
            IoctlRequest::SSelection { raw, .. } => reply matches IoctlReply::Selection {
                raw: q,
                ..
            } && q == raw,
            IoctlRequest::DecoderCmd { .. } => reply is DecoderCmd,
            IoctlRequest::TryDecoderCmd { .. } => reply is DecoderCmd,
            IoctlRequest::EnumDvTimings { raw, .. } => reply matches IoctlReply::EnumDvTimings {
                raw: q,
                ..
            } && q == raw,
            IoctlRequest::QueryDvTimings => reply is DvTimings,
            IoctlRequest::DvTimingsCap => reply is DvTimingsCap,
            IoctlRequest::EnumFreqBands { .. } => reply is FrequencyBand,
            IoctlRequest::QueryExtCtrl { .. } => reply is QueryExtCtrl,
            _ => false,
        },
    }
}

/// Whether an answer to a request is that the device does not support it. A set of controls goes
/// back as it was.
pub open spec fn unsupported(request: IoctlRequest, reply: IoctlReply) -> bool {
    match request {
        IoctlRequest::GExtCtrls { input, .. } | IoctlRequest::SExtCtrls { input, .. }
        | IoctlRequest::TryExtCtrls { input, .. } => told_set(
            reply,
            input.ctrls,
            input.ctrl_array@,
            Err(ENOTTY),
        ),
        _ => reply == (IoctlReply::Refused { errno: ENOTTY }),
    }
}

/// Whether an answer tells a set of controls, and whether it was done.
pub open spec fn told_set(
    reply: IoctlReply,
    ctrls: ExtControls,
    ctrl_array: Seq<ExtControl>,
    r: IoctlResult<()>,
) -> bool {
    reply.header() == ctrls && reply.controls() == ctrl_array && reply.done() == r
}

/// The answer to an ioctl on a set of controls, success or failure.
///
/// The header and the array go back on both paths: the header carries the index of the control
/// that caused an error, and it is only ever set on a failure.
pub fn ext_ctrls_response(
    ctrls: ExtControls,
    ctrl_array: Vec<ExtControl>,
    result: IoctlResult<()>,
) -> (r: IoctlReply)
    ensures
        r == (match result {
            Ok(_) => IoctlReply::Controls { ctrls, ctrl_array },
            Err(errno) => IoctlReply::RefusedControls { errno, ctrls, ctrl_array },
        }),
{
    match result {
        Ok(_) => IoctlReply::Controls { ctrls, ctrl_array },
        Err(errno) => IoctlReply::RefusedControls { errno, ctrls, ctrl_array },
    }
}

/// The answer to a request that a device does not support.
pub fn not_supported(request: IoctlRequest) -> (reply: IoctlReply)
    ensures
        answers(request, reply),
        unsupported(request, reply),
{
    match request {
        IoctlRequest::GExtCtrls { input, .. }
        | IoctlRequest::SExtCtrls { input, .. }
        | IoctlRequest::TryExtCtrls { input, .. } => ext_ctrls_response(
            input.ctrls,
            input.ctrl_array,
            Err(ENOTTY),
        ),
        _ => IoctlReply::Refused { errno: ENOTTY },
    }
}

/// What dispatching an ioctl does: the request the guest's bytes hold is served, once, and the
/// answer is written; bytes that hold none are refused, and nothing happens.
pub open spec fn dispatched<H: VirtioMediaIoctlHandler>(
    handler: H,
    session: H::Session,
    ioctl: V4l2Ioctl,
    input: Seq<u8>,
    before: Seq<u8>,
    request: Decoded,
    reply: IoctlReply,
    after: H,
    session2: H::Session,
    written: Seq<u8>,
) -> bool {
    &&& decoded(ioctl, input, request)
    &&& match request {
        Ok(q) => answers(q, reply) && handler.does(&session, q, &after, &session2, reply),
        Err(refusal) => reply == refusal && after == handler && session2 == session,
    }
    &&& written == put_reply(before, reply)
}

/// Serves an ioctl: reads and checks its parameters, has the handler serve the request, and writes
/// what it answers or why it failed for the driver.
pub fn virtio_media_dispatch_ioctl<H: VirtioMediaIoctlHandler>(
    handler: &mut H,
    session: &mut H::Session,
    ioctl: V4l2Ioctl,
    reader: &mut ChainReader,
    writer: &mut Vec<u8>,
)
    requires
        old(handler).serves(old(session)),
        old(reader).wf(),
    ensures
        final(handler).serves(final(session)),
        forall|t: H::Session| #[trigger]
            old(handler).serves(&t) && H::apart(&t, old(session)) ==> final(handler).serves(&t)
                && H::apart(&t, final(session)),
        final(reader).wf(),
        exists|request: Decoded, reply: IoctlReply| #[trigger]
            dispatched(
                *old(handler),
                *old(session),
                ioctl,
                old(reader).rest(),
                old(writer)@,
                request,
                reply,
                *final(handler),
                *final(session),
                final(writer)@,
            ),
{
    let ghost before = *handler;
    let ghost asker = *session;
    let ghost input = reader.rest();
    let ghost out = writer@;
    let request = decode(ioctl, reader);
    let ghost asked = request;
    let reply = match request {
        Ok(request) => handler.serve(session, request),
        Err(refusal) => refusal,
    };
    write_reply(writer, &reply);
    assert(dispatched(
        before,
        asker,
        ioctl,
        input,
        out,
        asked,
        reply,
        *handler,
        *session,
        writer@,
    ));
}

} // verus!
