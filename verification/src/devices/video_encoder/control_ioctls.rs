//! Enumerating, reading and setting controls, and the events a session subscribes to.
use vstd::prelude::*;

use super::backend::{CodecCall, VideoEncoderBackend};
use super::control_table::{
    control_index, controls_are_well_formed, ctrl_name, ctrl_text, has_id, next_index, place,
    sorted, CtrlDef,
};
use super::controls::{
    class_of, ctrl_class, CtrlType, CtrlView, V4L2_CID_MPEG_VIDEO_BITRATE,
    V4L2_CID_MPEG_VIDEO_FORCE_KEY_FRAME,
};
use super::device::{DeviceView, EncoderSession, VideoEncoder};
use super::ranges::max;
use super::session::SessionView;
use crate::errno::{EACCES, EBUSY, EINVAL, ENODEV};
use crate::host::{
    VirtioMediaBufferAllocator, VirtioMediaEventQueue, VirtioMediaGuestMemoryMapper,
    VirtioMediaHostMemoryMapper,
};
use crate::ioctl::types::{
    copy_name, event_of, name_field, Control, CtrlWhich, EventSubscription, EventType, ExtControl,
    ExtControls, QueryCtrl, QueryCtrlFlags, QueryExtCtrl, QueryMenu, SubscribeEventFlags, EVENT_ALL,
    EVENT_CTRL, EVENT_CTRL_CH_VALUE,
};
use crate::protocol::{CtrlEvent, SessionEventData, SgEntry, V4l2Event};

verus! {

/// Whether entry `i` of a table is the one an id with query flags names: the exact one, or with
/// `next` the first with a greater id. `compound` alone names nothing: there are no compound
/// controls.
pub open spec fn names(table: Seq<CtrlDef>, id: u32, flags: QueryCtrlFlags, i: int) -> bool {
    if flags.next {
        table[i].id > id && forall|j: int| 0 <= j < i ==> (#[trigger] table[j]).id <= id
    } else {
        !flags.compound && table[i].id == id
    }
}

/// Walking a table with `next` visits every control, in order: after one comes the entry behind
/// it.
pub proof fn next_walks_the_table(table: Seq<CtrlDef>, i: int, j: int, compound: bool)
    requires
        sorted(table),
        0 <= i < table.len(),
        0 <= j < table.len(),
    ensures
        names(table, table[i].id, QueryCtrlFlags { next: true, compound }, j) <==> j == i + 1,
{
    if j == i + 1 {
        assert forall|k: int| 0 <= k < j implies (#[trigger] table[k]).id <= table[i].id by {
            if k < i {
                assert(table[k].id < table[i].id);
            }
        }
    } else if j > i + 1 {
        assert(table[i + 1].id > table[i].id);
    } else if j < i {
        assert(table[j].id < table[i].id);
    }
}

/// Whether an answer describes a control.
pub open spec fn describes(q: QueryCtrl, def: CtrlDef) -> bool {
    let b = def.ty@.bounds();
    &&& q.id == def.id
    &&& q.type_ == def.ty@.v4l2_type()
    &&& q.name@ == name_field(ctrl_text(def.id))
    &&& q.minimum == b.minimum
    &&& q.maximum == b.maximum
    &&& q.step == b.step
    &&& q.default_value == b.default
    &&& q.flags == def.ty@.flags()
}

/// Whether an extended answer describes a control.
pub open spec fn describes_ext(q: QueryExtCtrl, def: CtrlDef) -> bool {
    let b = def.ty@.bounds();
    &&& q.id == def.id
    &&& q.type_ == def.ty@.v4l2_type()
    &&& q.name@ == name_field(ctrl_text(def.id))
    &&& q.minimum == b.minimum
    &&& q.maximum == b.maximum
    &&& q.step == b.step
    &&& q.default_value == b.default
    &&& q.flags == def.ty@.flags()
    &&& q.elem_size == 4
    &&& q.elems == 1
    &&& q.nr_of_dims == 0
    &&& q.dims == (0u32, 0u32, 0u32, 0u32)
}

/// What reading a control answers: its value or its default, `EINVAL` for a class, `EACCES` for a
/// button.
pub open spec fn read<GM, H, S, K>(
    d: DeviceView<GM, H, S, K>,
    s: SessionView<GM, H>,
    id: u32,
    defaults: bool,
) -> Result<i32, i32> {
    if !has_id(d.controls, id) {
        Err(EINVAL)
    } else {
        let i = place(d.controls, id);
        match d.controls[i].ty@ {
            CtrlView::Class => Err(EINVAL),
            CtrlView::Button => Err(EACCES),
            ty => if defaults {
                Ok(ty.bounds().default)
            } else {
                Ok(s.ctrl_values[i])
            },
        }
    }
}

/// Whether a control may change while the codec runs.
pub open spec fn changes_live(id: u32) -> bool {
    id == V4L2_CID_MPEG_VIDEO_BITRATE || id == V4L2_CID_MPEG_VIDEO_FORCE_KEY_FRAME
}

/// What a value set on a control becomes, or why it is refused: `EACCES` for a read-only control,
/// the type's own rule otherwise. When it is to be applied, a running codec takes only the
/// controls that change live; another value for any other is `EBUSY`.
pub open spec fn checked<GM, H, S, K>(
    d: DeviceView<GM, H, S, K>,
    s: SessionView<GM, H>,
    id: u32,
    value: int,
    applying: bool,
) -> Result<i32, i32> {
    if !has_id(d.controls, id) {
        Err(EINVAL)
    } else {
        let i = place(d.controls, id);
        let ty = d.controls[i].ty@;
        if ty is Class {
            Err(EINVAL)
        } else if ty.read_only() {
            Err(EACCES)
        } else {
            match ty.validated(value) {
                Err(e) => Err(e),
                Ok(v) => if applying && s.codec_started && !(ty is Button) && s.ctrl_values[i] != v
                    && !changes_live(id) {
                    Err(EBUSY)
                } else {
                    Ok(v)
                },
            }
        }
    }
}

/// Whether applying a value asks something of the codec.
pub open spec fn asks_codec<GM, H, S, K>(
    d: DeviceView<GM, H, S, K>,
    s: SessionView<GM, H>,
    id: u32,
    value: i32,
) -> bool {
    let i = place(d.controls, id);
    s.codec_started && (d.controls[i].ty@ is Button || (s.ctrl_values[i] != value && id
        == V4L2_CID_MPEG_VIDEO_BITRATE))
}

/// What applying a checked value does: it is stored, a running codec is told of a new bitrate,
/// and a button asks it for a keyframe. `answer` is the codec's, where it is asked; a refusal
/// stores nothing. A dead session answers `ENODEV`.
pub open spec fn applied<GM, H, S, K>(
    d: DeviceView<GM, H, S, K>,
    s: SessionView<GM, H>,
    id: u32,
    value: i32,
    answer: Result<(), i32>,
) -> (SessionView<GM, H>, Result<i32, i32>) {
    let i = place(d.controls, id);
    let button = d.controls[i].ty@ is Button;
    if !has_id(d.controls, id) {
        (s, Err(EINVAL))
    } else if s.dead {
        (s, Err(ENODEV))
    } else {
        let t = if !asks_codec(d, s, id, value) {
            s
        } else if button {
            SessionView { codec: s.codec.push(CodecCall::ForceKeyframe { answer }), ..s }
        } else {
            SessionView {
                codec: s.codec.push(
                    CodecCall::SetBitrate { bitrate: max(value as int, 0) as u32, answer },
                ),
                ..s
            }
        };
        if asks_codec(d, s, id, value) && answer is Err {
            (t, Err(answer->Err_0))
        } else if button {
            (t, Ok(value))
        } else {
            (SessionView { ctrl_values: t.ctrl_values.update(i, value), ..t }, Ok(value))
        }
    }
}

/// What `QUERYCTRL` answers.
pub open spec fn control_told(
    table: Seq<CtrlDef>,
    id: u32,
    flags: QueryCtrlFlags,
    r: Result<QueryCtrl, i32>,
) -> bool {
    match r {
        Ok(q) => exists|i: int|
            0 <= i < table.len() && #[trigger] names(table, id, flags, i) && describes(q, table[i]),
        Err(e) => e == EINVAL && forall|i: int|
            0 <= i < table.len() ==> !#[trigger] names(table, id, flags, i),
    }
}

/// What `QUERY_EXT_CTRL` answers.
pub open spec fn ext_control_told(
    table: Seq<CtrlDef>,
    id: u32,
    flags: QueryCtrlFlags,
    r: Result<QueryExtCtrl, i32>,
) -> bool {
    match r {
        Ok(q) => exists|i: int|
            0 <= i < table.len() && #[trigger] names(table, id, flags, i) && describes_ext(
                q,
                table[i],
            ),
        Err(e) => e == EINVAL && forall|i: int|
            0 <= i < table.len() ==> !#[trigger] names(table, id, flags, i),
    }
}

/// What `QUERYMENU` answers: the name of an item of a menu control.
pub open spec fn item_told(
    table: Seq<CtrlDef>,
    id: u32,
    index: u32,
    r: Result<QueryMenu, i32>,
) -> bool {
    let ty = table[place(table, id)].ty@;
    let known = has_id(table, id) && index <= i32::MAX && ty is Menu && ty->items.contains(
        index as i32,
    );
    match r {
        Ok(q) => {
            &&& known
            &&& q.id == id
            &&& q.index == index
            &&& q.name@ == name_field(ty->menu.text(index as int))
        },
        Err(e) => e == EINVAL && !known,
    }
}

/// A control's value as an answer.
pub open spec fn control_answer(id: u32, r: Result<i32, i32>) -> Result<Control, i32> {
    match r {
        Ok(value) => Ok(Control { id, value }),
        Err(e) => Err(e),
    }
}

/// What `S_CTRL` does.
pub open spec fn control_set<GM, H, S, K>(
    d: DeviceView<GM, H, S, K>,
    s: SessionView<GM, H>,
    id: u32,
    value: i32,
    s2: SessionView<GM, H>,
    r: Result<Control, i32>,
) -> bool {
    match checked(d, s, id, value as int, true) {
        Err(e) => s2 == s && r == Err::<Control, i32>(e),
        Ok(v) => exists|answer: Result<(), i32>|
            {
                let (t, done) = #[trigger] applied(d, s, id, v, answer);
                s2 == t && r == control_answer(id, done)
            },
    }
}

/// Which extended controls ioctl is served.
#[derive(Clone, Copy, Debug, PartialEq, Eq, Structural)]
pub enum ExtCtrlOp {
    /// `G_EXT_CTRLS`.
    Read,
    /// `S_EXT_CTRLS`.
    Write,
    /// `TRY_EXT_CTRLS`.
    Check,
}

/// Whether an ioctl serves the values a set of controls is about: the current ones or those of a
/// class, and the defaults where they are read.
pub open spec fn which_served(op: ExtCtrlOp, which: CtrlWhich) -> bool {
    match which {
        CtrlWhich::Current | CtrlWhich::Class(_) => true,
        CtrlWhich::Default => op == ExtCtrlOp::Read,
        CtrlWhich::Request(_) => false,
    }
}

/// What one control of a set answers or becomes, or why the set is refused.
pub open spec fn checked_one<GM, H, S, K>(
    d: DeviceView<GM, H, S, K>,
    s: SessionView<GM, H>,
    op: ExtCtrlOp,
    which: CtrlWhich,
    c: ExtControl,
) -> Result<i32, i32> {
    if which is Class && class_of(c.id as int) != which->Class_0 {
        Err(EINVAL)
    } else {
        match op {
            ExtCtrlOp::Read => read(d, s, c.id, which is Default),
            ExtCtrlOp::Check => checked(d, s, c.id, c.plain(), false),
            ExtCtrlOp::Write => checked(d, s, c.id, c.plain(), true),
        }
    }
}

/// What checking a set of controls answers: every value, or the errno and the place of the first
/// control that is refused -- where only `TRY` tells the place, and the others answer the count.
pub open spec fn checked_set<GM, H, S, K>(
    d: DeviceView<GM, H, S, K>,
    s: SessionView<GM, H>,
    op: ExtCtrlOp,
    which: CtrlWhich,
    ctrls: Seq<ExtControl>,
    r: Result<Seq<i32>, (i32, u32)>,
) -> bool {
    let count = ctrls.len() as u32;
    if !which_served(op, which) {
        r == Err::<Seq<i32>, (i32, u32)>((EINVAL, count))
    } else {
        match r {
            Ok(values) => values.len() == ctrls.len() && forall|i: int|
                0 <= i < ctrls.len() ==> checked_one(d, s, op, which, ctrls[i]) == Ok::<i32, i32>(
                    #[trigger] values[i],
                ),
            Err((e, idx)) => exists|i: int|
                {
                    &&& 0 <= i < ctrls.len()
                    &&& #[trigger] checked_one(d, s, op, which, ctrls[i]) == Err::<i32, i32>(e)
                    &&& forall|j: int|
                        0 <= j < i ==> #[trigger] checked_one(d, s, op, which, ctrls[j]) is Ok
                    &&& idx == if op == ExtCtrlOp::Check {
                        i as u32
                    } else {
                        count
                    }
                },
        }
    }
}

/// A set of controls with its values written in.
pub open spec fn written(ctrls: Seq<ExtControl>, values: Seq<i32>) -> Seq<ExtControl> {
    Seq::new(ctrls.len(), |i: int| ctrls[i].with_plain(values[i] as int))
}

/// What reading or trying a set of controls does to it, `header` being what stands before it.
pub open spec fn answered_set<GM, H, S, K>(
    d: DeviceView<GM, H, S, K>,
    s: SessionView<GM, H>,
    op: ExtCtrlOp,
    which: CtrlWhich,
    header: ExtControls,
    ctrls: Seq<ExtControl>,
    header2: ExtControls,
    ctrls2: Seq<ExtControl>,
    r: Result<(), i32>,
) -> bool {
    match r {
        Ok(_) => header2 == (ExtControls { error_idx: 0, ..header }) && exists|values: Seq<i32>|
            #[trigger] checked_set(d, s, op, which, ctrls, Ok(values)) && ctrls2 == written(
                ctrls,
                values,
            ),
        Err(e) => ctrls2 == ctrls && header2 == (ExtControls {
            error_idx: header2.error_idx,
            ..header
        }) && checked_set(d, s, op, which, ctrls, Err((e, header2.error_idx))),
    }
}

/// What applying the first values of a set does, in order, up to the first that is refused;
/// `answers` are the codec's, one for each control tried.
pub open spec fn applied_set<GM, H, S, K>(
    d: DeviceView<GM, H, S, K>,
    s: SessionView<GM, H>,
    ctrls: Seq<ExtControl>,
    values: Seq<i32>,
    answers: Seq<Result<(), i32>>,
) -> (SessionView<GM, H>, Option<i32>)
    decreases answers.len(),
{
    if answers.len() == 0 {
        (s, None)
    } else {
        let (t, stop) = applied_set(d, s, ctrls, values, answers.drop_last());
        if stop is Some {
            (t, stop)
        } else {
            let k = answers.len() - 1;
            let (u, r) = applied(d, t, ctrls[k].id, values[k], answers[k]);
            (
                u,
                match r {
                    Ok(_) => None,
                    Err(e) => Some(e),
                },
            )
        }
    }
}

/// What setting a set of controls does: every control is checked before any is applied.
pub open spec fn set_controls<GM, H, S, K>(
    d: DeviceView<GM, H, S, K>,
    s: SessionView<GM, H>,
    which: CtrlWhich,
    header: ExtControls,
    ctrls: Seq<ExtControl>,
    s2: SessionView<GM, H>,
    header2: ExtControls,
    ctrls2: Seq<ExtControl>,
    r: Result<(), i32>,
) -> bool {
    (r is Err && s2 == s && answered_set(
        d,
        s,
        ExtCtrlOp::Write,
        which,
        header,
        ctrls,
        header2,
        ctrls2,
        r,
    )) || exists|values: Seq<i32>, answers: Seq<Result<(), i32>>| #[trigger]
        set_applied(
            d,
            s,
            which,
            header,
            ctrls,
            values,
            answers,
            s2,
            header2,
            ctrls2,
            r,
        )
}

/// What applying a set of controls whose check gave `values` does.
pub open spec fn set_applied<GM, H, S, K>(
    d: DeviceView<GM, H, S, K>,
    s: SessionView<GM, H>,
    which: CtrlWhich,
    header: ExtControls,
    ctrls: Seq<ExtControl>,
    values: Seq<i32>,
    answers: Seq<Result<(), i32>>,
    s2: SessionView<GM, H>,
    header2: ExtControls,
    ctrls2: Seq<ExtControl>,
    r: Result<(), i32>,
) -> bool {
    &&& checked_set(d, s, ExtCtrlOp::Write, which, ctrls, Ok(values))
    &&& answers.len() <= ctrls.len()
    &&& match r {
        Ok(_) => {
            &&& answers.len() == ctrls.len()
            &&& applied_set(d, s, ctrls, values, answers) == (s2, None::<i32>)
            &&& ctrls2 == written(ctrls, values)
            &&& header2 == (ExtControls { error_idx: 0, ..header })
        },
        Err(e) => {
            &&& applied_set(d, s, ctrls, values, answers) == (s2, Some(e))
            &&& ctrls2 == ctrls
            &&& header2 == (ExtControls { error_idx: ctrls.len() as u32, ..header })
        },
    }
}

/// A set of controls one of which is refused changes nothing: no value, and nothing is asked of
/// the codec.
pub proof fn a_refused_set_changes_nothing<GM, H, S, K>(
    d: DeviceView<GM, H, S, K>,
    s: SessionView<GM, H>,
    which: CtrlWhich,
    header: ExtControls,
    ctrls: Seq<ExtControl>,
    i: int,
    s2: SessionView<GM, H>,
    header2: ExtControls,
    ctrls2: Seq<ExtControl>,
    r: Result<(), i32>,
)
    requires
        set_controls(d, s, which, header, ctrls, s2, header2, ctrls2, r),
        0 <= i < ctrls.len(),
        checked_one(d, s, ExtCtrlOp::Write, which, ctrls[i]) is Err,
    ensures
        r is Err,
        s2 == s,
        ctrls2 == ctrls,
{
    if !(r is Err && s2 == s) {
        let (values, answers) = choose|values: Seq<i32>, answers: Seq<Result<(), i32>>| #[trigger]
            set_applied(
                d,
                s,
                which,
                header,
                ctrls,
                values,
                answers,
                s2,
                header2,
                ctrls2,
                r,
            );
        assert(checked_set(d, s, ExtCtrlOp::Write, which, ctrls, Ok(values)));
        if which_served(ExtCtrlOp::Write, which) {
            assert(
                checked_one(d, s, ExtCtrlOp::Write, which, ctrls[i]) == Ok::<i32, i32>(values[i])
            );
        }
    }
}

/// What is read of a control after a value was set on it is what the set answered.
pub proof fn a_set_value_is_read_back<GM, H, S, K>(
    d: DeviceView<GM, H, S, K>,
    s: SessionView<GM, H>,
    id: u32,
    value: i32,
    answer: Result<(), i32>,
)
    requires
        d.fits(s),
        sorted(d.controls),
        checked(d, s, id, value as int, true) is Ok,
        applied(d, s, id, checked(d, s, id, value as int, true)->Ok_0, answer).1 is Ok,
    ensures
        ({
            let v = checked(d, s, id, value as int, true)->Ok_0;
            let (s2, r) = applied(d, s, id, v, answer);
            r == Ok::<i32, i32>(v) && (read(d, s2, id, false) == r || read(d, s2, id, false)
                == Err::<i32, i32>(EACCES))
        }),
        !(d.controls[place(d.controls, id)].ty@ is Button) ==> read(
            d,
            applied(d, s, id, checked(d, s, id, value as int, true)->Ok_0, answer).0,
            id,
            false,
        ) is Ok,
{
    let i = place(d.controls, id);
    assert(0 <= i < d.controls.len() && d.controls[i].id == id);
}

/// The event that tells a control's current state.
pub open spec fn ctrl_event_of<GM, H, S, K>(
    d: DeviceView<GM, H, S, K>,
    s: SessionView<GM, H>,
    i: int,
) -> SessionEventData {
    let ty = d.controls[i].ty@;
    let b = ty.bounds();
    SessionEventData {
        type_: EVENT_CTRL,
        id: d.controls[i].id,
        ctrl: Some(
            CtrlEvent {
                changes: EVENT_CTRL_CH_VALUE,
                type_: ty.v4l2_type(),
                value: if ty is Class || ty is Button {
                    0
                } else {
                    s.ctrl_values[i]
                },
                flags: ty.flags(),
                minimum: b.minimum,
                maximum: b.maximum,
                step: b.step,
                default_value: b.default,
            },
        ),
    }
}

/// What subscribing to an event does. A control's current state is sent at once if it is asked
/// for; nothing is sent later, because no other session can change it.
pub open spec fn subscribed<GM, H, S, K>(
    d: DeviceView<GM, H, S, K>,
    s: SessionView<GM, H>,
    event: EventType,
    flags: SubscribeEventFlags,
) -> (DeviceView<GM, H, S, K>, SessionView<GM, H>, Result<(), i32>) {
    match event {
        EventType::Eos => (d, SessionView { eos_subscribed: true, ..s }, Ok(())),
        EventType::Ctrl(id) => if has_id(d.controls, id) {
            let i = place(d.controls, id);
            if flags.send_initial && !(d.controls[i].ty@ is Class) {
                let event = V4l2Event::Event { session_id: s.id, event: ctrl_event_of(d, s, i) };
                (d.sending(event), s, Ok(()))
            } else {
                (d, s, Ok(()))
            }
        } else {
            (d, s, Err(EINVAL))
        },
        _ => (d, s, Err(EINVAL)),
    }
}

/// What giving up a subscription does.
pub open spec fn unsubscribed<GM, H>(s: SessionView<GM, H>, event: EventSubscription) -> (
    SessionView<GM, H>,
    Result<(), i32>,
) {
    if event.type_ == EVENT_ALL || event_of(event) == Some(EventType::Eos) {
        (SessionView { eos_subscribed: false, ..s }, Ok(()))
    } else if event_of(event) is Some && event_of(event)->0 is Ctrl {
        (s, Ok(()))
    } else {
        (s, Err(EINVAL))
    }
}

impl<B, Q, M, HM, A> VideoEncoder<B, Q, M, HM, A> where
    B: VideoEncoderBackend,
    Q: VirtioMediaEventQueue,
    M: VirtioMediaGuestMemoryMapper,
    A: VirtioMediaBufferAllocator,
    HM: VirtioMediaHostMemoryMapper<Handle = A::Handle>,
 {
    /// The place of the control an id with query flags names.
    fn query_control(&self, id: u32, flags: QueryCtrlFlags) -> (r: Result<usize, i32>)
        requires
            sorted(self.controls@),
        ensures
            match r {
                Ok(i) => i < self@.controls.len() && names(self@.controls, id, flags, i as int),
                Err(e) => e == EINVAL && forall|i: int|
                    0 <= i < self@.controls.len() ==> !#[trigger] names(
                        self@.controls,
                        id,
                        flags,
                        i,
                    ),
            },
    {
        if flags.next {
            match next_index(&self.controls, id) {
                Some(i) => Ok(i),
                None => {
                    assert forall|i: int| 0 <= i < self@.controls.len() implies !#[trigger] names(
                        self@.controls,
                        id,
                        flags,
                        i,
                    ) by {
                        assert(self.controls@[i].id <= id);
                    }
                    Err(EINVAL)
                },
            }
        } else if flags.compound {
            Err(EINVAL)
        } else {
            match control_index(&self.controls, id) {
                Some(i) => Ok(i),
                None => Err(EINVAL),
            }
        }
    }

    /// What reading a control answers.
    fn read_control(&self, session: &EncoderSession<B, M, A>, id: u32, defaults: bool) -> (r:
        Result<i32, i32>)
        requires
            self.serves(session),
        ensures
            r == read(self@, session@, id, defaults),
    {
        match control_index(&self.controls, id) {
            Some(i) => match &self.controls[i].ty {
                CtrlType::Class => Err(EINVAL),
                CtrlType::Button => Err(EACCES),
                ty => if defaults {
                    Ok(ty.bounds().default)
                } else {
                    Ok(session.ctrl_values[i])
                },
            },
            None => Err(EINVAL),
        }
    }

    /// What a value set on a control becomes, or why it is refused.
    fn check_control(
        &self,
        session: &EncoderSession<B, M, A>,
        id: u32,
        value: i32,
        applying: bool,
    ) -> (r: Result<i32, i32>)
        requires
            self.serves(session),
        ensures
            r == checked(self@, session@, id, value as int, applying),
    {
        let i: usize = match control_index(&self.controls, id) {
            Some(i) => i,
            None => {
                return Err(EINVAL);
            },
        };
        let ty = &self.controls[i].ty;
        // A class marker is not a value at all before its read-only flag would refuse it.
        if matches!(ty, CtrlType::Class) {
            return Err(EINVAL);
        }
        if ty.read_only() {
            return Err(EACCES);
        }
        let v: i32 = match ty.validate(value) {
            Ok(v) => v,
            Err(e) => {
                return Err(e);
            },
        };
        let button: bool = matches!(ty, CtrlType::Button);
        let live: bool = id == V4L2_CID_MPEG_VIDEO_BITRATE || id
            == V4L2_CID_MPEG_VIDEO_FORCE_KEY_FRAME;
        if applying && session.codec_started && !button && session.ctrl_values[i] != v && !live {
            return Err(EBUSY);
        }
        Ok(v)
    }

    /// Applies a value that was checked.
    fn apply_control(&self, session: &mut EncoderSession<B, M, A>, id: u32, value: i32) -> (r:
        Result<i32, i32>)
        requires
            self.serves(old(session)),
        ensures
            final(session).continues(old(session)),
            self.serves(final(session)),
            exists|answer: Result<(), i32>|
                (final(session)@, r) == #[trigger] applied(
                    self@,
                    old(session)@,
                    id,
                    value,
                    answer,
                ),
    {
        let ghost s = session@;
        let i: usize = match control_index(&self.controls, id) {
            Some(i) => i,
            None => {
                assert((session@, Err::<i32, i32>(EINVAL)) == applied(self@, s, id, value, Ok(())));
                return Err(EINVAL);
            },
        };
        if session.dead {
            assert((session@, Err::<i32, i32>(ENODEV)) == applied(self@, s, id, value, Ok(())));
            return Err(ENODEV);
        }
        let button: bool = matches!(self.controls[i].ty, CtrlType::Button);
        let answer: Result<(), i32> = if !session.codec_started {
            Ok(())
        } else if button {
            session.backend.force_keyframe()
        } else if session.ctrl_values[i] != value && id == V4L2_CID_MPEG_VIDEO_BITRATE {
            let bitrate: u32 = if value >= 0 {
                value as u32
            } else {
                0
            };
            session.backend.set_bitrate(bitrate)
        } else {
            Ok(())
        };
        if let Err(e) = answer {
            assert((session@, Err::<i32, i32>(e)) == applied(self@, s, id, value, answer));
            return Err(e);
        }
        if !button {
            session.ctrl_values.set(i, value);
        }
        assert((session@, Ok::<i32, i32>(value)) == applied(self@, s, id, value, answer));
        Ok(value)
    }

    /// What every control of a set answers or becomes, or the errno and error index refusing it.
    fn check_ext_ctrls(
        &self,
        session: &EncoderSession<B, M, A>,
        op: ExtCtrlOp,
        which: CtrlWhich,
        ctrls: &Vec<ExtControl>,
    ) -> (r: Result<Vec<i32>, (i32, u32)>)
        requires
            self.serves(session),
        ensures
            match r {
                Ok(values) => checked_set(self@, session@, op, which, ctrls@, Ok(values@)),
                Err(e) => checked_set(self@, session@, op, which, ctrls@, Err(e)),
            },
    {
        let count: u32 = ctrls.len() as u32;
        let defaults: bool = matches!(which, CtrlWhich::Default);
        let class: Option<u32> = match which {
            CtrlWhich::Current => None,
            CtrlWhich::Class(c) => Some(c),
            CtrlWhich::Default => {
                if op != ExtCtrlOp::Read {
                    return Err((EINVAL, count));
                }
                None
            },
            CtrlWhich::Request(_) => {
                return Err((EINVAL, count));
            },
        };
        let mut values: Vec<i32> = Vec::new();
        let mut i: usize = 0;
        while i < ctrls.len()
            invariant
                self.serves(session),
                i <= ctrls@.len(),
                which_served(op, which),
                count == ctrls@.len() as u32,
                defaults == (which is Default),
                class == (if which is Class {
                    Some(which->Class_0)
                } else {
                    None
                }),
                values@.len() == i,
                forall|j: int|
                    0 <= j < i ==> checked_one(self@, session@, op, which, ctrls@[j]) == Ok::<
                        i32,
                        i32,
                    >(#[trigger] values@[j]),
            decreases ctrls@.len() - i,
        {
            let c: ExtControl = ctrls[i];
            let same_class: bool = match class {
                Some(k) => ctrl_class(c.id) == k,
                None => true,
            };
            let one: Result<i32, i32> = if !same_class {
                Err(EINVAL)
            } else {
                match op {
                    ExtCtrlOp::Read => self.read_control(session, c.id, defaults),
                    ExtCtrlOp::Check => self.check_control(session, c.id, c.value(), false),
                    ExtCtrlOp::Write => self.check_control(session, c.id, c.value(), true),
                }
            };
            assert(one == checked_one(self@, session@, op, which, ctrls@[i as int]));
            match one {
                Ok(v) => {
                    values.push(v);
                },
                Err(e) => {
                    let idx: u32 = if op == ExtCtrlOp::Check {
                        i as u32
                    } else {
                        count
                    };
                    assert forall|j: int| 0 <= j < i implies #[trigger] checked_one(
                        self@,
                        session@,
                        op,
                        which,
                        ctrls@[j],
                    ) is Ok by {
                        assert(checked_one(self@, session@, op, which, ctrls@[j]) == Ok::<
                            i32,
                            i32,
                        >(values@[j]));
                    }
                    return Err((e, idx));
                },
            }
            i = i + 1;
        }
        Ok(values)
    }

    /// Writes the values into a set of controls, its error index cleared.
    fn write_back_ext_ctrls(
        header: &mut ExtControls,
        ctrls: &mut Vec<ExtControl>,
        values: &Vec<i32>,
    )
        requires
            old(ctrls)@.len() == values@.len(),
        ensures
            *final(header) == (ExtControls { error_idx: 0, ..*old(header) }),
            final(ctrls)@ == written(old(ctrls)@, values@),
    {
        let mut i: usize = 0;
        let ghost before = ctrls@;
        while i < ctrls.len()
            invariant
                i <= ctrls@.len(),
                ctrls@.len() == before.len() == values@.len(),
                forall|j: int|
                    0 <= j < i ==> #[trigger] ctrls@[j] == before[j].with_plain(values@[j] as int),
                forall|j: int| i <= j < before.len() ==> #[trigger] ctrls@[j] == before[j],
            decreases ctrls@.len() - i,
        {
            let mut c: ExtControl = ctrls[i];
            c.set_value(values[i]);
            ctrls.set(i, c);
            i = i + 1;
        }
        assert(ctrls@ =~= written(before, values@));
        header.error_idx = 0;
    }

    /// The event that tells a control's current state.
    fn ctrl_event(&self, session: &EncoderSession<B, M, A>, index: usize) -> (r: SessionEventData)
        requires
            self.serves(session),
            index < self@.controls.len(),
        ensures
            r == ctrl_event_of(self@, session@, index as int),
    {
        let def = &self.controls[index];
        let b = def.ty.bounds();
        let value: i32 = match def.ty {
            CtrlType::Class | CtrlType::Button => 0,
            _ => session.ctrl_values[index],
        };
        SessionEventData {
            type_: EVENT_CTRL,
            id: def.id,
            ctrl: Some(
                CtrlEvent {
                    changes: EVENT_CTRL_CH_VALUE,
                    type_: def.ty.v4l2_type(),
                    value,
                    flags: def.ty.flags(),
                    minimum: b.minimum,
                    maximum: b.maximum,
                    step: b.step,
                    default_value: b.default,
                },
            ),
        }
    }

    /// Subscribes to an event. An encoder has no source-change event.
    pub fn subscribe_event(
        &mut self,
        session: &mut EncoderSession<B, M, A>,
        event: EventType,
        flags: SubscribeEventFlags,
    ) -> (r: Result<(), i32>)
        requires
            old(self).serves(old(session)),
        ensures
            final(self).serves(final(session)),
            final(self).continues(old(self)),
            final(session).continues(old(session)),
            old(self)@.keeps_others(final(self)@, old(session)@.id),
            final(session)@.id == old(session)@.id,
            (final(self)@, final(session)@, r) == subscribed(
                old(self)@,
                old(session)@,
                event,
                flags,
            ),
    {
        match event {
            EventType::Eos => {
                session.eos_subscribed = true;
                Ok(())
            },
            EventType::Ctrl(id) => match control_index(&self.controls, id) {
                Some(i) => {
                    let class: bool = matches!(self.controls[i].ty, CtrlType::Class);
                    if flags.send_initial && !class {
                        let event: SessionEventData = self.ctrl_event(session, i);
                        self.evt_queue.send_event(
                            V4l2Event::Event { session_id: session.id, event },
                        );
                    }
                    Ok(())
                },
                None => Err(EINVAL),
            },
            _ => Err(EINVAL),
        }
    }

    /// Gives up a subscription.
    pub fn unsubscribe_event(
        &mut self,
        session: &mut EncoderSession<B, M, A>,
        event: EventSubscription,
    ) -> (r: Result<(), i32>)
        requires
            old(self).serves(old(session)),
        ensures
            final(self).serves(final(session)),
            final(session).continues(old(session)),
            old(self)@.keeps_others(final(self)@, old(session)@.id),
            final(session)@.id == old(session)@.id,
            *final(self) == *old(self),
            (final(session)@, r) == unsubscribed(old(session)@, event),
    {
        if event.type_ == EVENT_ALL {
            session.eos_subscribed = false;
            return Ok(());
        }
        match EventType::of(&event) {
            Some(EventType::Eos) => {
                session.eos_subscribed = false;
                Ok(())
            },
            Some(EventType::Ctrl(_)) => Ok(()),
            _ => Err(EINVAL),
        }
    }

    /// Describes a control.
    pub fn queryctrl(
        &mut self,
        session: &EncoderSession<B, M, A>,
        id: u32,
        flags: QueryCtrlFlags,
    ) -> (r: Result<QueryCtrl, i32>)
        requires
            old(self).serves(session),
        ensures
            *final(self) == *old(self),
            control_told(old(self)@.controls, id, flags, r),
    {
        let i: usize = match self.query_control(id, flags) {
            Ok(i) => i,
            Err(e) => {
                return Err(e);
            },
        };
        let def = &self.controls[i];
        let b = def.ty.bounds();
        Ok(
            QueryCtrl {
                id: def.id,
                type_: def.ty.v4l2_type(),
                name: copy_name(ctrl_name(def.id)),
                minimum: b.minimum,
                maximum: b.maximum,
                step: b.step,
                default_value: b.default,
                flags: def.ty.flags(),
            },
        )
    }

    /// Describes a control in the extended form.
    pub fn query_ext_ctrl(
        &mut self,
        session: &EncoderSession<B, M, A>,
        id: u32,
        flags: QueryCtrlFlags,
    ) -> (r: Result<QueryExtCtrl, i32>)
        requires
            old(self).serves(session),
        ensures
            *final(self) == *old(self),
            ext_control_told(old(self)@.controls, id, flags, r),
    {
        let i: usize = match self.query_control(id, flags) {
            Ok(i) => i,
            Err(e) => {
                return Err(e);
            },
        };
        let def = &self.controls[i];
        let b = def.ty.bounds();
        Ok(
            QueryExtCtrl {
                id: def.id,
                type_: def.ty.v4l2_type(),
                name: copy_name(ctrl_name(def.id)),
                minimum: b.minimum as i64,
                maximum: b.maximum as i64,
                step: b.step as u64,
                default_value: b.default as i64,
                flags: def.ty.flags(),
                elem_size: 4,
                elems: 1,
                nr_of_dims: 0,
                dims: (0, 0, 0, 0),
            },
        )
    }

    /// Names an item of a menu control.
    pub fn querymenu(&mut self, session: &EncoderSession<B, M, A>, id: u32, index: u32) -> (r:
        Result<QueryMenu, i32>)
        requires
            old(self).serves(session),
        ensures
            *final(self) == *old(self),
            item_told(old(self)@.controls, id, index, r),
    {
        let i: usize = match control_index(&self.controls, id) {
            Some(i) => i,
            None => {
                return Err(EINVAL);
            },
        };
        if index > i32::MAX as u32 {
            return Err(EINVAL);
        }
        proof {
            controls_are_well_formed(self.caps@, self.controls@[i as int].id);
        }
        match self.controls[i].ty.menu_name(index as i32) {
            Some(name) => Ok(QueryMenu { id, index, name: copy_name(name) }),
            None => Err(EINVAL),
        }
    }

    /// Reads a control.
    pub fn g_ctrl(&mut self, session: &EncoderSession<B, M, A>, id: u32) -> (r: Result<
        Control,
        i32,
    >)
        requires
            old(self).serves(session),
        ensures
            *final(self) == *old(self),
            r == control_answer(id, read(old(self)@, session@, id, false)),
    {
        match self.read_control(session, id, false) {
            Ok(value) => Ok(Control { id, value }),
            Err(e) => Err(e),
        }
    }

    /// Sets a control.
    pub fn s_ctrl(&mut self, session: &mut EncoderSession<B, M, A>, id: u32, value: i32) -> (r:
        Result<Control, i32>)
        requires
            old(self).serves(old(session)),
        ensures
            final(self).serves(final(session)),
            final(session).continues(old(session)),
            old(self)@.keeps_others(final(self)@, old(session)@.id),
            final(session)@.id == old(session)@.id,
            *final(self) == *old(self),
            control_set(old(self)@, old(session)@, id, value, final(session)@, r),
    {
        match self.check_control(session, id, value, true) {
            Ok(v) => match self.apply_control(session, id, v) {
                Ok(value) => Ok(Control { id, value }),
                Err(e) => Err(e),
            },
            Err(e) => Err(e),
        }
    }

    /// Reads a set of controls.
    pub fn g_ext_ctrls(
        &mut self,
        session: &EncoderSession<B, M, A>,
        which: CtrlWhich,
        ctrls: &mut ExtControls,
        ctrl_array: &mut Vec<ExtControl>,
        _user_regions: Vec<Vec<SgEntry>>,
    ) -> (r: Result<(), i32>)
        requires
            old(self).serves(session),
        ensures
            *final(self) == *old(self),
            answered_set(
                old(self)@,
                session@,
                ExtCtrlOp::Read,
                which,
                *old(ctrls),
                old(ctrl_array)@,
                *final(ctrls),
                final(ctrl_array)@,
                r,
            ),
    {
        match self.check_ext_ctrls(session, ExtCtrlOp::Read, which, ctrl_array) {
            Ok(values) => {
                Self::write_back_ext_ctrls(ctrls, ctrl_array, &values);
                Ok(())
            },
            Err((errno, error_idx)) => {
                ctrls.error_idx = error_idx;
                Err(errno)
            },
        }
    }

    /// Sets a set of controls; every control is checked before any is applied.
    pub fn s_ext_ctrls(
        &mut self,
        session: &mut EncoderSession<B, M, A>,
        which: CtrlWhich,
        ctrls: &mut ExtControls,
        ctrl_array: &mut Vec<ExtControl>,
        _user_regions: Vec<Vec<SgEntry>>,
    ) -> (r: Result<(), i32>)
        requires
            old(self).serves(old(session)),
        ensures
            final(self).serves(final(session)),
            final(session).continues(old(session)),
            old(self)@.keeps_others(final(self)@, old(session)@.id),
            final(session)@.id == old(session)@.id,
            *final(self) == *old(self),
            set_controls(
                old(self)@,
                old(session)@,
                which,
                *old(ctrls),
                old(ctrl_array)@,
                final(session)@,
                *final(ctrls),
                final(ctrl_array)@,
                r,
            ),
    {
        let values: Vec<i32> = match self.check_ext_ctrls(
            session,
            ExtCtrlOp::Write,
            which,
            ctrl_array,
        ) {
            Ok(values) => values,
            Err((errno, error_idx)) => {
                ctrls.error_idx = error_idx;
                return Err(errno);
            },
        };
        let ghost d = self@;
        let ghost s = session@;
        let ghost header = *ctrls;
        let ghost set = ctrl_array@;
        let ghost mut answers: Seq<Result<(), i32>> = Seq::empty();
        let mut i: usize = 0;
        while i < ctrl_array.len()
            invariant
                self.serves(session),
                session.continues(old(session)),
                *self == *old(self),
                self@ == d,
                i <= ctrl_array@.len(),
                ctrl_array@ == set,
                set == old(ctrl_array)@,
                *ctrls == header,
                header == *old(ctrls),
                s == old(session)@,
                session@.id == s.id,
                values@.len() == set.len(),
                checked_set(d, s, ExtCtrlOp::Write, which, set, Ok(values@)),
                answers.len() == i,
                applied_set(d, s, set, values@, answers) == (session@, None::<i32>),
            decreases ctrl_array@.len() - i,
        {
            let ghost before = session@;
            let r = self.apply_control(session, ctrl_array[i].id, values[i]);
            proof {
                let answer = choose|answer: Result<(), i32>|
                    (session@, r) == #[trigger] applied(
                        d,
                        before,
                        set[i as int].id,
                        values@[i as int],
                        answer,
                    );
                let tried = answers;
                answers = answers.push(answer);
                assert(answers.drop_last() == tried);
            }
            if let Err(e) = r {
                ctrls.error_idx = ctrl_array.len() as u32;
                assert(set_applied(
                    d,
                    s,
                    which,
                    header,
                    set,
                    values@,
                    answers,
                    session@,
                    *ctrls,
                    set,
                    Err(e),
                ));
                return Err(e);
            }
            i = i + 1;
        }
        Self::write_back_ext_ctrls(ctrls, ctrl_array, &values);
        assert(set_applied(
            d,
            s,
            which,
            header,
            set,
            values@,
            answers,
            session@,
            *ctrls,
            ctrl_array@,
            Ok(()),
        ));
        Ok(())
    }

    /// Checks a set of controls without setting any.
    pub fn try_ext_ctrls(
        &mut self,
        session: &EncoderSession<B, M, A>,
        which: CtrlWhich,
        ctrls: &mut ExtControls,
        ctrl_array: &mut Vec<ExtControl>,
        _user_regions: Vec<Vec<SgEntry>>,
    ) -> (r: Result<(), i32>)
        requires
            old(self).serves(session),
        ensures
            *final(self) == *old(self),
            answered_set(
                old(self)@,
                session@,
                ExtCtrlOp::Check,
                which,
                *old(ctrls),
                old(ctrl_array)@,
                *final(ctrls),
                final(ctrl_array)@,
                r,
            ),
    {
        match self.check_ext_ctrls(session, ExtCtrlOp::Check, which, ctrl_array) {
            Ok(values) => {
                Self::write_back_ext_ctrls(ctrls, ctrl_array, &values);
                Ok(())
            },
            Err((errno, error_idx)) => {
                ctrls.error_idx = error_idx;
                Err(errno)
            },
        }
    }
}

} // verus!
