//! What is asked with a structure is what its fields say: each is read where it is told, so that a
//! structure a device told, sent back, asks for what it says.
use vstd::prelude::*;

use super::codes::V4l2Ioctl;
use super::layout::{
    control_fields, created_buffers_fields, encoder_command_fields, format_description_fields,
    format_fields, frame_interval_fields, frame_size_fields, number_fields,
    requested_buffers_fields, selection_fields, standard_fields, stream_parameter_fields,
};
use super::read::fields_of_a_part;
use super::reply::{put_reply, IoctlReply};
use super::requests::{decoded, Decoded, IoctlRequest};
use super::types::{
    Control, CreateBuffers, EncoderCmd, EventType, FmtDesc, FrmIvalEnum, FrmSizeEnum,
    RequestBuffers,
};
use crate::bytes::{le32, le64};
use crate::errno::{EINVAL, ENOTTY};
use crate::formats::{
    FormatBody, PixFormatMplane, SelectionTarget, SelectionType, StreamParm, V4l2Format,
};
use crate::v4l2::{MemoryType, QueueType, Rect};

verus! {

/// The structure of an answer, as a guest sends it back.
pub open spec fn sent(reply: IoctlReply) -> Seq<u8> {
    put_reply(Seq::empty(), reply).skip(8)
}

/// The fields of what is sent back are those that were told, without the header.
proof fn sent_fields(all: Seq<u8>)
    requires
        all.len() >= 8,
    ensures
        all.skip(8).len() == all.len() - 8,
        forall|k: int| 0 <= k && k + 12 <= all.len() ==> #[trigger] le32(all.skip(8), k) == le32(
            all,
            8 + k,
        ),
        forall|k: int| 0 <= k && k + 16 <= all.len() ==> #[trigger] le64(all.skip(8), k) == le64(
            all,
            8 + k,
        ),
        forall|k: int| 0 <= k && k + 8 < all.len() ==> #[trigger] all.skip(8)[k] == all[8 + k],
{
    let part = all.skip(8);
    assert(part =~= all.subrange(8, 8 + part.len() as int));
    fields_of_a_part(all, 8, part);
}

/// The number of a queue of an encoder.
pub open spec fn queue_number(queue: QueueType) -> u32 {
    if queue == QueueType::VideoOutputMplane {
        10
    } else {
        9
    }
}

/// Whether a queue is one of an encoder's.
pub open spec fn is_encoders(queue: QueueType) -> bool {
    queue == QueueType::VideoOutputMplane || queue == QueueType::VideoCaptureMplane
}

/// A control that was told is set to the value told.
#[verifier::spinoff_prover]
pub proof fn controls_are_set_as_sent(ctrl: Control, r: Decoded)
    requires
        decoded(V4l2Ioctl::VIDIOC_S_CTRL, sent(IoctlReply::Control { ctrl }), r),
    ensures
        r is Ok && r->Ok_0 == (IoctlRequest::SCtrl { id: ctrl.id, value: ctrl.value }),
{
    let all = put_reply(Seq::empty(), IoctlReply::Control { ctrl });
    control_fields(Seq::empty(), ctrl);
    sent_fields(all);
}

/// A control that was told is read by its id.
#[verifier::spinoff_prover]
pub proof fn controls_are_read_as_sent(ctrl: Control, r: Decoded)
    requires
        decoded(V4l2Ioctl::VIDIOC_G_CTRL, sent(IoctlReply::Control { ctrl }), r),
    ensures
        r is Ok && r->Ok_0 == (IoctlRequest::GCtrl { id: ctrl.id }),
{
    let all = put_reply(Seq::empty(), IoctlReply::Control { ctrl });
    control_fields(Seq::empty(), ctrl);
    sent_fields(all);
}

/// An input, or an output, that was told is the one set.
#[verifier::spinoff_prover]
pub proof fn numbers_are_set_as_sent(value: i32, r: Decoded)
    requires
        decoded(V4l2Ioctl::VIDIOC_S_INPUT, sent(IoctlReply::Number { value }), r),
    ensures
        r is Ok && r->Ok_0 == (IoctlRequest::SInput { input: value }),
{
    let all = put_reply(Seq::empty(), IoctlReply::Number { value });
    number_fields(Seq::empty(), value);
    sent_fields(all);
}

/// An output that was told is the one set.
#[verifier::spinoff_prover]
pub proof fn outputs_are_set_as_sent(value: i32, r: Decoded)
    requires
        decoded(V4l2Ioctl::VIDIOC_S_OUTPUT, sent(IoctlReply::Number { value }), r),
    ensures
        r is Ok && r->Ok_0 == (IoctlRequest::SOutput { output: value }),
{
    let all = put_reply(Seq::empty(), IoctlReply::Number { value });
    number_fields(Seq::empty(), value);
    sent_fields(all);
}

/// Video standards that were told are those set.
#[verifier::spinoff_prover]
pub proof fn standards_are_set_as_sent(standards: u64, r: Decoded)
    requires
        decoded(V4l2Ioctl::VIDIOC_S_STD, sent(IoctlReply::Std { std: standards }), r),
    ensures
        r is Ok && r->Ok_0 == (IoctlRequest::SStd { std: standards }),
{
    let all = put_reply(Seq::empty(), IoctlReply::Std { std: standards });
    standard_fields(Seq::empty(), standards);
    sent_fields(all);
}

/// Stream parameters that were told are those set.
#[verifier::spinoff_prover]
pub proof fn parameters_are_set_as_sent(parm: StreamParm, r: Decoded)
    requires
        decoded(V4l2Ioctl::VIDIOC_S_PARM, sent(IoctlReply::Parm { parm }), r),
    ensures
        r is Ok && r->Ok_0 == (IoctlRequest::SParm { parm: StreamParm { buffers: 0, ..parm } }),
{
    let all = put_reply(Seq::empty(), IoctlReply::Parm { parm });
    stream_parameter_fields(Seq::empty(), parm);
    sent_fields(all);
}

/// An encoder command that was told is the one given.
#[verifier::spinoff_prover]
pub proof fn commands_are_given_as_sent(cmd: EncoderCmd, r: Decoded)
    requires
        decoded(V4l2Ioctl::VIDIOC_ENCODER_CMD, sent(IoctlReply::EncoderCmd { cmd }), r),
    ensures
        r is Ok && r->Ok_0 == (IoctlRequest::EncoderCmd { cmd }),
{
    let all = put_reply(Seq::empty(), IoctlReply::EncoderCmd { cmd });
    encoder_command_fields(Seq::empty(), cmd);
    sent_fields(all);
}

/// An encoder command that was told is the one tried.
#[verifier::spinoff_prover]
pub proof fn commands_are_tried_as_sent(cmd: EncoderCmd, r: Decoded)
    requires
        decoded(V4l2Ioctl::VIDIOC_TRY_ENCODER_CMD, sent(IoctlReply::EncoderCmd { cmd }), r),
    ensures
        r is Ok && r->Ok_0 == (IoctlRequest::TryEncoderCmd { cmd }),
{
    let all = put_reply(Seq::empty(), IoctlReply::EncoderCmd { cmd });
    encoder_command_fields(Seq::empty(), cmd);
    sent_fields(all);
}

/// A format that was listed is listed again by its queue and index.
#[verifier::spinoff_prover]
pub proof fn listed_formats_are_asked_as_sent(desc: FmtDesc, queue: QueueType, r: Decoded)
    requires
        is_encoders(queue),
        desc.type_ == queue_number(queue),
        decoded(V4l2Ioctl::VIDIOC_ENUM_FMT, sent(IoctlReply::FmtDesc { desc }), r),
    ensures
        r is Ok && r->Ok_0 == (IoctlRequest::EnumFmt { queue, index: desc.index }),
{
    let all = put_reply(Seq::empty(), IoctlReply::FmtDesc { desc });
    format_description_fields(Seq::empty(), desc);
    sent_fields(all);
}

/// Buffers are requested of the queue, of the memory type and in the number told.
#[verifier::spinoff_prover]
pub proof fn buffers_are_requested_as_sent(answer: RequestBuffers, queue: QueueType,
    memory: MemoryType, r: Decoded)
    requires
        is_encoders(queue),
        answer.type_ == queue_number(queue),
        memory == MemoryType::Mmap && answer.memory == 1 || memory == MemoryType::UserPtr
            && answer.memory == 2,
        decoded(V4l2Ioctl::VIDIOC_REQBUFS, sent(IoctlReply::RequestBuffers { answer }), r),
    ensures
        r is Ok && r->Ok_0 == (IoctlRequest::ReqBufs { queue, memory, count: answer.count }),
{
    let all = put_reply(Seq::empty(), IoctlReply::RequestBuffers { answer });
    requested_buffers_fields(Seq::empty(), answer);
    sent_fields(all);
}

/// Frame sizes that were told are asked for by pixel format and index.
#[verifier::spinoff_prover]
pub proof fn frame_sizes_are_asked_as_sent(size: FrmSizeEnum, r: Decoded)
    requires
        decoded(V4l2Ioctl::VIDIOC_ENUM_FRAMESIZES, sent(IoctlReply::FrmSize { size }), r),
    ensures
        r is Ok && r->Ok_0 == (IoctlRequest::EnumFrameSizes {
            index: size.index,
            pixel_format: size.pixel_format,
        }),
{
    let all = put_reply(Seq::empty(), IoctlReply::FrmSize { size });
    frame_size_fields(Seq::empty(), size);
    sent_fields(all);
}

/// Frame intervals that were told are asked for by pixel format, size and index.
#[verifier::spinoff_prover]
pub proof fn frame_intervals_are_asked_as_sent(interval: FrmIvalEnum, r: Decoded)
    requires
        decoded(V4l2Ioctl::VIDIOC_ENUM_FRAMEINTERVALS, sent(IoctlReply::FrmIval { interval }), r),
    ensures
        r is Ok && r->Ok_0 == (IoctlRequest::EnumFrameIntervals {
            index: interval.index,
            pixel_format: interval.pixel_format,
            width: interval.width,
            height: interval.height,
        }),
{
    let all = put_reply(Seq::empty(), IoctlReply::FrmIval { interval });
    frame_interval_fields(Seq::empty(), interval);
    sent_fields(all);
}

/// A rectangle that was told is the one set.
#[verifier::spinoff_prover]
pub proof fn selections_are_set_as_sent(raw: [u8; 64], rect: Rect, r: Decoded)
    requires
        decoded(V4l2Ioctl::VIDIOC_S_SELECTION, sent(IoctlReply::Selection { raw, rect }), r),
    ensures
        le32(raw@, 0) == 2 && le32(raw@, 4) == 0 && le32(raw@, 8) == 0 ==> r is Ok
            && r->Ok_0 is SSelection && r->Ok_0->SSelection_sel_type == SelectionType::Output
            && r->Ok_0->SSelection_sel_target == SelectionTarget::Crop && r->Ok_0->sel_rect == rect,
{
    let all = put_reply(Seq::empty(), IoctlReply::Selection { raw, rect });
    selection_fields(Seq::empty(), raw, rect);
    sent_fields(all);
    let b = sent(IoctlReply::Selection { raw, rect });
    let head = raw@.subrange(0, 12);
    assert(all.subrange(8, 20) == head);
    fields_of_a_part(raw@, 0, head);
    fields_of_a_part(all, 8, head);
    assert(le32(b, 0) == le32(all, 8) && le32(b, 4) == le32(all, 12) && le32(b, 8) == le32(all,
        16));
    assert(le32(head, 0) == le32(all, 8) && le32(head, 4) == le32(all, 12));
    assert(le32(head, 8) == le32(all, 16));
    assert(le32(head, 0) == le32(raw@, 0) && le32(head, 4) == le32(raw@, 4));
    assert(le32(head, 8) == le32(raw@, 8));
    assert(0 <= le32(b, 20) <= 0xffff_ffff && 0 <= le32(b, 24) <= 0xffff_ffff);
}

/// A format that was told is the one set or tried, on the queue it is of.
#[verifier::spinoff_prover]
pub proof fn formats_are_set_as_sent(
    format: V4l2Format,
    p: PixFormatMplane,
    queue: QueueType,
    setting: bool,
    r: Decoded,
)
    requires
        format.fmt == FormatBody::PixMp(p),
        is_encoders(queue),
        format.type_ == queue_number(queue),
        decoded(
            if setting {
                V4l2Ioctl::VIDIOC_S_FMT
            } else {
                V4l2Ioctl::VIDIOC_TRY_FMT
            },
            sent(IoctlReply::Format { format }),
            r,
        ),
    ensures
        r is Ok,
        setting ==> r->Ok_0 is SFmt,
        !setting ==> r->Ok_0 is TryFmt,
        ({
            let (to, f) = if setting {
                (r->Ok_0->SFmt_queue, r->Ok_0->SFmt_format)
            } else {
                (r->Ok_0->TryFmt_queue, r->Ok_0->TryFmt_format)
            };
            &&& to == queue
            &&& f.type_ == format.type_
            &&& f.fmt is PixMp
            &&& ({
                let q = f.fmt->PixMp_0;
                &&& q.width == p.width && q.height == p.height
                &&& q.pixelformat == p.pixelformat && q.field == p.field
                &&& q.colorspace == p.colorspace
                &&& q.plane0 == p.plane0
                &&& q.num_planes == p.num_planes && q.flags == p.flags
                &&& q.ycbcr_enc == p.ycbcr_enc && q.quantization == p.quantization
                &&& q.xfer_func == p.xfer_func
            })
        }),
{
    let all = put_reply(Seq::empty(), IoctlReply::Format { format });
    format_fields(Seq::empty(), format, p);
    sent_fields(all);
}

/// Buffers are created in the number, of the memory type and for the format told.
#[verifier::spinoff_prover]
pub proof fn buffers_are_created_as_sent(
    answer: CreateBuffers,
    p: PixFormatMplane,
    queue: QueueType,
    memory: MemoryType,
    r: Decoded,
)
    requires
        answer.format.fmt == FormatBody::PixMp(p),
        is_encoders(queue),
        answer.format.type_ == queue_number(queue),
        memory == MemoryType::Mmap && answer.memory == 1 || memory == MemoryType::UserPtr
            && answer.memory == 2,
        decoded(V4l2Ioctl::VIDIOC_CREATE_BUFS, sent(IoctlReply::CreateBuffers { answer }), r),
    ensures
        r is Ok && r->Ok_0 is CreateBufs,
        ({
            let q = r->Ok_0;
            &&& q->CreateBufs_count == answer.count
            &&& q->CreateBufs_queue == queue
            &&& q->CreateBufs_memory == memory
            &&& q->CreateBufs_format.fmt is PixMp
            &&& q->CreateBufs_format.fmt->PixMp_0.width == p.width
            &&& q->CreateBufs_format.fmt->PixMp_0.height == p.height
            &&& q->CreateBufs_format.fmt->PixMp_0.pixelformat == p.pixelformat
            &&& q->CreateBufs_format.fmt->PixMp_0.plane0 == p.plane0
            &&& q->CreateBufs_format.fmt->PixMp_0.num_planes == p.num_planes
        }),
{
    let all = put_reply(Seq::empty(), IoctlReply::CreateBuffers { answer });
    created_buffers_fields(Seq::empty(), answer, p);
    sent_fields(all);
}

/// A control is asked about by its id, in the first word. The two highest bits of that word are not
/// of the id: they ask for the next control, and for compound ones.
pub proof fn controls_are_asked_about_by_id(b: Seq<u8>, extended: bool, r: Decoded)
    requires
        b.len() >= 232,
        decoded(
            if extended {
                V4l2Ioctl::VIDIOC_QUERY_EXT_CTRL
            } else {
                V4l2Ioctl::VIDIOC_QUERYCTRL
            },
            b,
            r,
        ),
    ensures
        r is Ok,
        extended ==> r->Ok_0 is QueryExtCtrl,
        !extended ==> r->Ok_0 is QueryCtrl,
        ({
            let (id, flags) = if extended {
                (r->Ok_0->QueryExtCtrl_id, r->Ok_0->QueryExtCtrl_flags)
            } else {
                (r->Ok_0->QueryCtrl_id, r->Ok_0->QueryCtrl_flags)
            };
            let word = le32(b, 0);
            &&& word < 0x1000_0000 ==> id == word && !flags.next && !flags.compound
            &&& 0x8000_0000 <= word < 0x9000_0000 ==> id == word - 0x8000_0000 && flags.next
                && !flags.compound
            &&& 0x4000_0000 <= word < 0x5000_0000 ==> id == word - 0x4000_0000 && !flags.next
                && flags.compound
            &&& 0xc000_0000 <= word < 0xd000_0000 ==> id == word - 0xc000_0000 && flags.next
                && flags.compound
        }),
{
}

/// A menu item is asked about by its control, in the first word, and its index, in the second.
pub proof fn menu_items_are_asked_about_by_index(b: Seq<u8>, r: Decoded)
    requires
        b.len() >= 44,
        decoded(V4l2Ioctl::VIDIOC_QUERYMENU, b, r),
    ensures
        r is Ok && r->Ok_0 is QueryMenu,
        r->Ok_0->QueryMenu_id == le32(b, 0),
        r->Ok_0->QueryMenu_index == le32(b, 4),
{
}

/// A queue is named by its number, which is the first word where nothing else is asked: starting
/// and stopping it, and asking for its format and its parameters.
pub proof fn queues_are_named_first(ioctl: V4l2Ioctl, b: Seq<u8>, queue: QueueType, r: Decoded)
    requires
        b.len() >= 208,
        is_encoders(queue),
        le32(b, 0) == queue_number(queue),
        decoded(ioctl, b, r),
    ensures
        ioctl == V4l2Ioctl::VIDIOC_STREAMON ==> r is Ok && r->Ok_0 == (IoctlRequest::StreamOn {
            queue,
        }),
        ioctl == V4l2Ioctl::VIDIOC_STREAMOFF ==> r is Ok && r->Ok_0 == (IoctlRequest::StreamOff {
            queue,
        }),
        ioctl == V4l2Ioctl::VIDIOC_G_FMT ==> r is Ok && r->Ok_0 == (IoctlRequest::GFmt { queue }),
        ioctl == V4l2Ioctl::VIDIOC_G_PARM ==> r is Ok && r->Ok_0 == (IoctlRequest::GParm { queue }),
{
}

/// A queue that does not exist is refused wherever one is named first.
pub proof fn unknown_queues_are_refused(ioctl: V4l2Ioctl, b: Seq<u8>, r: Decoded)
    requires
        ioctl == V4l2Ioctl::VIDIOC_STREAMON || ioctl == V4l2Ioctl::VIDIOC_STREAMOFF || ioctl
            == V4l2Ioctl::VIDIOC_G_FMT || ioctl == V4l2Ioctl::VIDIOC_S_FMT || ioctl
            == V4l2Ioctl::VIDIOC_TRY_FMT || ioctl == V4l2Ioctl::VIDIOC_G_PARM,
        b.len() < 4 || le32(b, 0) == 0 || le32(b, 0) > 14,
        decoded(ioctl, b, r),
    ensures
        r matches Err(reply) && reply == (IoctlReply::Refused { errno: EINVAL }),
{
}

/// A buffer is asked about by its index, then its queue; the guest has room for as many planes as
/// its length says.
pub proof fn buffers_are_asked_about_by_index(b: Seq<u8>, queue: QueueType, r: Decoded)
    requires
        b.len() >= 88,
        is_encoders(queue),
        le32(b, 4) == queue_number(queue),
        decoded(V4l2Ioctl::VIDIOC_QUERYBUF, b, r),
    ensures
        r is Ok && r->Ok_0 is QueryBuf,
        r->Ok_0->QueryBuf_queue == queue,
        r->Ok_0->QueryBuf_index == le32(b, 0),
        r->Ok_0->planes == le32(b, 72),
{
}

/// The rectangle asked for is named by its type and target.
pub proof fn selections_are_asked_for_by_target(b: Seq<u8>, r: Decoded)
    requires
        b.len() >= 64,
        decoded(V4l2Ioctl::VIDIOC_G_SELECTION, b, r),
    ensures
        le32(b, 0) == 2 && le32(b, 4) <= 2 ==> r is Ok && r->Ok_0 is GSelection
            && r->Ok_0->GSelection_sel_type == SelectionType::Output,
        le32(b, 0) == 2 && le32(b, 4) == 0 ==> r->Ok_0->GSelection_sel_target
            == SelectionTarget::Crop,
        le32(b, 0) == 2 && le32(b, 4) == 1 ==> r->Ok_0->GSelection_sel_target
            == SelectionTarget::CropDefault,
        le32(b, 0) == 2 && le32(b, 4) == 2 ==> r->Ok_0->GSelection_sel_target
            == SelectionTarget::CropBounds,
        le32(b, 0) == 1 && le32(b, 4) <= 2 ==> r is Ok && r->Ok_0 is GSelection
            && r->Ok_0->GSelection_sel_type == SelectionType::Capture,
        le32(b, 0) == 0 || le32(b, 0) > 2 ==> r is Err,
        r is Ok && r->Ok_0 is GSelection ==> r->Ok_0->GSelection_raw@ == b.subrange(0, 64),
{
    assert(b.take(64) =~= b.subrange(0, 64));
}

/// An event is subscribed to by its number, and a control's by that of the control too; the lowest
/// bit of the flags asks for its state at once, the next one for the subscriber's own changes.
pub proof fn events_are_subscribed_to_by_number(b: Seq<u8>, r: Decoded)
    requires
        b.len() >= 32,
        decoded(V4l2Ioctl::VIDIOC_SUBSCRIBE_EVENT, b, r),
    ensures
        1 <= le32(b, 0) <= 6 && le32(b, 8) <= 3 ==> r is Ok && r->Ok_0 is SubscribeEvent,
        le32(b, 0) == 0 || le32(b, 0) > 6 || le32(b, 8) > 3 ==> r is Err,
        r is Ok ==> {
            let (event, flags) = (r->Ok_0->SubscribeEvent_event, r->Ok_0->SubscribeEvent_flags);
            &&& le32(b, 0) == 2 <==> event == EventType::Eos
            &&& le32(b, 0) == 3 <==> event is Ctrl
            &&& event matches EventType::Ctrl(id) ==> id == le32(b, 4)
            &&& flags.send_initial <==> le32(b, 8) == 1 || le32(b, 8) == 3
            &&& flags.allow_feedback <==> le32(b, 8) == 2 || le32(b, 8) == 3
        },
{
}

/// A subscription is given up by the same words.
pub proof fn events_are_unsubscribed_from_by_number(b: Seq<u8>, r: Decoded)
    requires
        b.len() >= 32,
        decoded(V4l2Ioctl::VIDIOC_UNSUBSCRIBE_EVENT, b, r),
    ensures
        r is Ok && r->Ok_0 is UnsubscribeEvent,
        r->Ok_0->UnsubscribeEvent_event.type_ == le32(b, 0),
        r->Ok_0->UnsubscribeEvent_event.id == le32(b, 4),
        r->Ok_0->UnsubscribeEvent_event.flags == le32(b, 8),
{
}

/// Bytes of the structure that an ioctl carries.
pub open spec fn structure_bytes(ioctl: V4l2Ioctl) -> int {
    match ioctl {
        V4l2Ioctl::VIDIOC_ENUM_FMT => 64,
        V4l2Ioctl::VIDIOC_G_FMT => 208,
        V4l2Ioctl::VIDIOC_S_FMT => 208,
        V4l2Ioctl::VIDIOC_TRY_FMT => 208,
        V4l2Ioctl::VIDIOC_REQBUFS => 20,
        V4l2Ioctl::VIDIOC_QUERYBUF => 88,
        V4l2Ioctl::VIDIOC_QBUF => 88,
        V4l2Ioctl::VIDIOC_PREPARE_BUF => 88,
        V4l2Ioctl::VIDIOC_STREAMON => 4,
        V4l2Ioctl::VIDIOC_STREAMOFF => 4,
        V4l2Ioctl::VIDIOC_G_PARM => 204,
        V4l2Ioctl::VIDIOC_S_PARM => 204,
        V4l2Ioctl::VIDIOC_G_CTRL => 8,
        V4l2Ioctl::VIDIOC_S_CTRL => 8,
        V4l2Ioctl::VIDIOC_QUERYCTRL => 68,
        V4l2Ioctl::VIDIOC_QUERYMENU => 44,
        V4l2Ioctl::VIDIOC_G_EXT_CTRLS => 32,
        V4l2Ioctl::VIDIOC_S_EXT_CTRLS => 32,
        V4l2Ioctl::VIDIOC_TRY_EXT_CTRLS => 32,
        V4l2Ioctl::VIDIOC_ENUM_FRAMESIZES => 44,
        V4l2Ioctl::VIDIOC_ENUM_FRAMEINTERVALS => 52,
        V4l2Ioctl::VIDIOC_ENCODER_CMD => 40,
        V4l2Ioctl::VIDIOC_TRY_ENCODER_CMD => 40,
        V4l2Ioctl::VIDIOC_SUBSCRIBE_EVENT => 32,
        V4l2Ioctl::VIDIOC_UNSUBSCRIBE_EVENT => 32,
        V4l2Ioctl::VIDIOC_CREATE_BUFS => 256,
        V4l2Ioctl::VIDIOC_G_SELECTION => 64,
        V4l2Ioctl::VIDIOC_S_SELECTION => 64,
        V4l2Ioctl::VIDIOC_QUERY_EXT_CTRL => 232,
        V4l2Ioctl::VIDIOC_S_STD => 8,
        V4l2Ioctl::VIDIOC_ENUMSTD => 72,
        V4l2Ioctl::VIDIOC_ENUMINPUT => 80,
        V4l2Ioctl::VIDIOC_G_TUNER => 84,
        V4l2Ioctl::VIDIOC_S_TUNER => 84,
        V4l2Ioctl::VIDIOC_S_AUDIO => 52,
        V4l2Ioctl::VIDIOC_S_INPUT => 4,
        V4l2Ioctl::VIDIOC_S_OUTPUT => 4,
        V4l2Ioctl::VIDIOC_ENUMOUTPUT => 72,
        V4l2Ioctl::VIDIOC_S_AUDOUT => 52,
        V4l2Ioctl::VIDIOC_G_MODULATOR => 68,
        V4l2Ioctl::VIDIOC_S_MODULATOR => 68,
        V4l2Ioctl::VIDIOC_G_FREQUENCY => 44,
        V4l2Ioctl::VIDIOC_S_FREQUENCY => 44,
        V4l2Ioctl::VIDIOC_ENUMAUDIO => 52,
        V4l2Ioctl::VIDIOC_ENUMAUDOUT => 52,
        V4l2Ioctl::VIDIOC_S_DV_TIMINGS => 132,
        V4l2Ioctl::VIDIOC_G_DV_TIMINGS => 132,
        V4l2Ioctl::VIDIOC_DECODER_CMD => 72,
        V4l2Ioctl::VIDIOC_TRY_DECODER_CMD => 72,
        V4l2Ioctl::VIDIOC_ENUM_DV_TIMINGS => 148,
        V4l2Ioctl::VIDIOC_DV_TIMINGS_CAP => 144,
        V4l2Ioctl::VIDIOC_ENUM_FREQ_BANDS => 64,
        _ => 0,
    }
}

/// A structure that is not all there is `EINVAL`.
#[verifier::spinoff_prover]
pub proof fn short_structures_are_refused(ioctl: V4l2Ioctl, b: Seq<u8>, r: Decoded)
    requires
        b.len() < structure_bytes(ioctl),
        decoded(ioctl, b, r),
    ensures
        r matches Err(reply) && reply == (IoctlReply::Refused { errno: EINVAL }),
{
}

/// What a driver does itself, or no device here can offer, is `ENOTTY` whatever is sent with it.
#[verifier::spinoff_prover]
pub proof fn what_is_not_offered_is_enotty(ioctl: V4l2Ioctl, b: Seq<u8>, r: Decoded)
    requires
        ioctl == V4l2Ioctl::VIDIOC_QUERYCAP || ioctl == V4l2Ioctl::VIDIOC_DQBUF || ioctl
            == V4l2Ioctl::VIDIOC_DQEVENT || ioctl == V4l2Ioctl::VIDIOC_EXPBUF || ioctl
            == V4l2Ioctl::VIDIOC_G_FBUF || ioctl == V4l2Ioctl::VIDIOC_S_FBUF || ioctl
            == V4l2Ioctl::VIDIOC_OVERLAY || ioctl == V4l2Ioctl::VIDIOC_G_EDID || ioctl
            == V4l2Ioctl::VIDIOC_S_EDID || ioctl == V4l2Ioctl::VIDIOC_CROPCAP || ioctl
            == V4l2Ioctl::VIDIOC_G_CROP || ioctl == V4l2Ioctl::VIDIOC_S_CROP || ioctl
            == V4l2Ioctl::VIDIOC_G_JPEGCOMP || ioctl == V4l2Ioctl::VIDIOC_S_JPEGCOMP || ioctl
            == V4l2Ioctl::VIDIOC_G_PRIORITY || ioctl == V4l2Ioctl::VIDIOC_S_PRIORITY || ioctl
            == V4l2Ioctl::VIDIOC_G_SLICED_VBI_CAP || ioctl == V4l2Ioctl::VIDIOC_LOG_STATUS,
        decoded(ioctl, b, r),
    ensures
        r matches Err(reply) && reply == (IoctlReply::Refused { errno: ENOTTY }),
{
}

/// What is asked about by an index alone has it in the first word.
#[verifier::spinoff_prover]
pub proof fn indexes_come_first(ioctl: V4l2Ioctl, b: Seq<u8>, r: Decoded)
    requires
        b.len() >= 256,
        decoded(ioctl, b, r),
    ensures
        ({
            let n = le32(b, 0);
            let q = r->Ok_0;
            &&& ioctl == V4l2Ioctl::VIDIOC_ENUMSTD ==> r is Ok && q is EnumStd && q->EnumStd_index
                == n
            &&& ioctl == V4l2Ioctl::VIDIOC_ENUMINPUT ==> r is Ok && q is EnumInput
                && q->EnumInput_index == n
            &&& ioctl == V4l2Ioctl::VIDIOC_ENUMOUTPUT ==> r is Ok && q is EnumOutput
                && q->EnumOutput_index == n
            &&& ioctl == V4l2Ioctl::VIDIOC_G_TUNER ==> r is Ok && q is GTuner
                && q->GTuner_index == n
            &&& ioctl == V4l2Ioctl::VIDIOC_S_TUNER && le32(b, 56) <= 4 ==> r is Ok && q is STuner
                && q->STuner_index == n
            &&& ioctl == V4l2Ioctl::VIDIOC_S_AUDIO ==> r is Ok && q is SAudio
                && q->SAudio_index == n
            &&& ioctl == V4l2Ioctl::VIDIOC_S_AUDOUT ==> r is Ok && q is SAudOut && q->SAudOut_index
                == n
            &&& ioctl == V4l2Ioctl::VIDIOC_ENUMAUDIO ==> r is Ok && q is EnumAudio
                && q->EnumAudio_index == n
            &&& ioctl == V4l2Ioctl::VIDIOC_ENUMAUDOUT ==> r is Ok && q is EnumAudOut
                && q->EnumAudOut_index == n
            &&& ioctl == V4l2Ioctl::VIDIOC_G_MODULATOR ==> r is Ok && q is GModulator
                && q->GModulator_index == n
            &&& ioctl == V4l2Ioctl::VIDIOC_S_MODULATOR && le32(b, 48) <= 31 ==> r is Ok
                && q is SModulator && q->SModulator_index == n && q->SModulator_flags.0 == le32(
                b,
                48,
            )
            &&& ioctl == V4l2Ioctl::VIDIOC_G_FREQUENCY ==> r is Ok && q is GFrequency
                && q->GFrequency_tuner == n
            &&& ioctl == V4l2Ioctl::VIDIOC_S_FREQUENCY && 1 <= le32(b, 4) <= 5 ==> r is Ok
                && q is SFrequency && q->SFrequency_tuner == n && q->frequency == le32(b, 8)
            &&& ioctl == V4l2Ioctl::VIDIOC_ENUM_FREQ_BANDS && 1 <= le32(b, 4) <= 5 ==> r is Ok
                && q is EnumFreqBands && q->EnumFreqBands_tuner == n && q->EnumFreqBands_index
                == le32(b, 8)
            &&& ioctl == V4l2Ioctl::VIDIOC_ENUM_DV_TIMINGS ==> r is Ok && q is EnumDvTimings
                && q->EnumDvTimings_index == n
        }),
{
}

} // verus!
