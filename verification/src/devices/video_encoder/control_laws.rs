//! What controls are told as, and what becomes of the values they are set to.
use vstd::prelude::*;

use super::control_ioctls::{applied, checked, names};
use super::control_table::{has_id, place, place_is_unique, sorted, CtrlDef};
use super::controls::CtrlView;
use super::device::DeviceView;
use super::ioctls::encoder_answers;
use super::lifecycle::fresh_session;
use super::session::SessionView;
use crate::errno::{EACCES, EBUSY, EINVAL, ENODEV, ERANGE};
use crate::ioctl::reply::IoctlReply;
use crate::ioctl::requests::IoctlRequest;
use crate::ioctl::types::{
    Control, EventSubscription, EventType, QueryCtrlFlags, SubscribeEventFlags,
};

verus! {

/// Whether entry `k` of a table is a control.
pub open spec fn is_entry(table: Seq<CtrlDef>, id: u32, k: int) -> bool {
    0 <= k < table.len() && table[k].id == id
}

/// The one place of an entry.
proof fn entries_have_one_place(table: Seq<CtrlDef>, id: u32, k: int)
    requires
        sorted(table),
        is_entry(table, id, k),
    ensures
        has_id(table, id),
        place(table, id) == k,
{
    place_is_unique(table, k);
}

/// Reading a control gives the value the session has for it; a class has none, and a button is not
/// read.
pub proof fn controls_are_read_as_they_are<GM, H, S, K>(
    d: DeviceView<GM, H, S, K>,
    s: SessionView<GM, H>,
    id: u32,
    k: int,
    d2: DeviceView<GM, H, S, K>,
    s2: SessionView<GM, H>,
    reply: IoctlReply,
)
    requires
        sorted(d.controls),
        is_entry(d.controls, id, k),
        encoder_answers(d, s, IoctlRequest::GCtrl { id }, d2, s2, reply),
    ensures
        s2 == s && d2 == d,
        d.controls[k].ty@ is Class ==> reply == (IoctlReply::Refused { errno: EINVAL }),
        d.controls[k].ty@ is Button ==> reply == (IoctlReply::Refused { errno: EACCES }),
        !(d.controls[k].ty@ is Class) && !(d.controls[k].ty@ is Button) ==> reply == (
        IoctlReply::Control { ctrl: Control { id, value: s.ctrl_values[k] } }),
{
    entries_have_one_place(d.controls, id, k);
}

/// A control that is not there is neither read nor set.
pub proof fn unknown_controls_are_refused<GM, H, S, K>(
    d: DeviceView<GM, H, S, K>,
    s: SessionView<GM, H>,
    id: u32,
    value: i32,
    reading: bool,
    d2: DeviceView<GM, H, S, K>,
    s2: SessionView<GM, H>,
    reply: IoctlReply,
)
    requires
        forall|k: int| 0 <= k < d.controls.len() ==> (#[trigger] d.controls[k]).id != id,
        encoder_answers(
            d,
            s,
            if reading {
                IoctlRequest::GCtrl { id }
            } else {
                IoctlRequest::SCtrl { id, value }
            },
            d2,
            s2,
            reply,
        ),
    ensures
        reply == (IoctlReply::Refused { errno: EINVAL }),
        s2 == s && d2 == d,
{
    assert(!has_id(d.controls, id));
}

/// Whether a number is what a value becomes on a control: the nearest of an integer's range, one or
/// zero of a boolean, the item itself of a menu.
pub open spec fn becomes(ty: CtrlView, value: int, got: int) -> bool {
    match ty {
        CtrlView::Integer { range, .. } => range.min <= range.max ==> {
            &&& range.min <= got <= range.max
            &&& range.min <= value <= range.max ==> got == value
            &&& value < range.min ==> got == range.min
            &&& value > range.max ==> got == range.max
        },
        CtrlView::Boolean { .. } => (got == 1 && value != 0) || (got == 0 && value == 0),
        CtrlView::Menu { items, .. } => got == value && items.contains(got as i32),
        CtrlView::Button => got == 0,
        CtrlView::Class => false,
    }
}

/// A value is set as it becomes on the control, and read so from then on; nothing else changes.
/// What no control takes is refused: a read-only one takes nothing, a menu only its items.
pub proof fn controls_are_set_as_they_take<GM, H, S, K>(
    d: DeviceView<GM, H, S, K>,
    s: SessionView<GM, H>,
    id: u32,
    value: i32,
    k: int,
    d2: DeviceView<GM, H, S, K>,
    s2: SessionView<GM, H>,
    reply: IoctlReply,
)
    requires
        d.fits(s),
        sorted(d.controls),
        is_entry(d.controls, id, k),
        !s.codec_started,
        encoder_answers(d, s, IoctlRequest::SCtrl { id, value }, d2, s2, reply),
    ensures
        d2 == d,
        reply is Control || reply is Refused,
        reply is Refused ==> s2 == s,
        reply matches IoctlReply::Control { ctrl } ==> {
            &&& ctrl.id == id
            &&& becomes(d.controls[k].ty@, value as int, ctrl.value as int)
            &&& s2 == (SessionView {
                ctrl_values: if d.controls[k].ty@ is Button {
                    s.ctrl_values
                } else {
                    s.ctrl_values.update(k, ctrl.value)
                },
                ..s
            })
        },
        ({
            let ty = d.controls[k].ty@;
            let refused = |errno: i32| reply == (IoctlReply::Refused { errno });
            &&& ty is Class ==> refused(EINVAL)
            &&& ty matches CtrlView::Integer { range, read_only } ==> {
                &&& read_only ==> refused(EACCES)
                &&& !read_only && !s.dead ==> reply is Control
                &&& !read_only && s.dead ==> refused(ENODEV)
            }
            &&& (ty is Boolean || ty is Button) && !s.dead ==> reply is Control
            &&& (ty is Boolean || ty is Button) && s.dead ==> refused(ENODEV)
            &&& ty matches CtrlView::Menu { items, .. } ==> {
                &&& items.contains(value) && items.len() > 0 && items[0] <= value <= items.last()
                    && !s.dead ==> reply is Control
                &&& items.len() > 0 && (value < items[0] || value > items.last())
                    ==> refused(ERANGE)
                &&& items.len() > 0 && items[0] <= value <= items.last() && !items.contains(value)
                    ==> refused(EINVAL)
            }
        }),
{
    entries_have_one_place(d.controls, id, k);
    let c = checked(d, s, id, value as int, true);
    if c is Ok {
        let r = reply.control();
        let answer = choose|answer: Result<(), i32>|
            {
                let (t, done) = #[trigger] applied(d, s, id, c->Ok_0, answer);
                s2 == t && r == super::control_ioctls::control_answer(id, done)
            };
    }
}

/// While the codec runs only the bitrate and the key frame button do something: the codec is told
/// the new bitrate, or asked for a key frame, and a refusal of it is the answer and stores nothing.
/// Another value for any other control is refused; the value it has is not.
pub proof fn a_running_codec_is_told<GM, H, S, K>(
    d: DeviceView<GM, H, S, K>,
    s: SessionView<GM, H>,
    id: u32,
    value: i32,
    k: int,
    d2: DeviceView<GM, H, S, K>,
    s2: SessionView<GM, H>,
    reply: IoctlReply,
)
    requires
        d.fits(s),
        !s.dead,
        sorted(d.controls),
        is_entry(d.controls, id, k),
        s.codec_started,
        encoder_answers(d, s, IoctlRequest::SCtrl { id, value }, d2, s2, reply),
    ensures
        d2 == d,
        ({
            let ty = d.controls[k].ty@;
            let n = s.codec.len() as int;
            &&& ty matches CtrlView::Integer { range, read_only } ==> {
                &&& !read_only && range.min <= value <= range.max && value == s.ctrl_values[k]
                    ==> reply == (IoctlReply::Control { ctrl: Control { id, value } }) && s2.codec
                    == s.codec
                &&& !read_only && range.min <= value <= range.max && value != s.ctrl_values[k] && id
                    != 0x99_09cf && id != 0x99_09e5 ==> reply == (IoctlReply::Refused {
                    errno: EBUSY,
                }) && s2 == s
                &&& !read_only && 0 <= range.min <= value <= range.max && value != s.ctrl_values[k]
                    && id == 0x99_09cf ==> {
                    &&& s2.codec.len() == n + 1
                    &&& s2.codec[n] is SetBitrate
                    &&& s2.codec[n]->bitrate == value
                    &&& s2.codec[n]->SetBitrate_answer is Ok ==> reply == (IoctlReply::Control {
                        ctrl: Control { id, value },
                    }) && s2 == (SessionView {
                        codec: s2.codec,
                        ctrl_values: s.ctrl_values.update(k, value),
                        ..s
                    })
                    &&& s2.codec[n]->SetBitrate_answer matches Err(e) ==> reply == (
                    IoctlReply::Refused { errno: e }) && s2 == (SessionView {
                        codec: s2.codec,
                        ..s
                    })
                }
            }
            &&& ty matches CtrlView::Menu { items, .. } ==> (items.contains(value)
                && items.len() > 0
                && items[0] <= value <= items.last() && value != s.ctrl_values[k] && id != 0x99_09cf
                && id != 0x99_09e5 ==> reply == (IoctlReply::Refused { errno: EBUSY }) && s2 == s)
            &&& ty is Button ==> {
                &&& s2.codec.len() == n + 1
                &&& s2.codec[n] is ForceKeyframe
                &&& s2 == (SessionView { codec: s2.codec, ..s })
                &&& s2.codec[n]->ForceKeyframe_answer is Ok ==> reply is Control
                &&& s2.codec[n]->ForceKeyframe_answer matches Err(e) ==> reply == (
                IoctlReply::Refused { errno: e })
            }
        }),
{
    entries_have_one_place(d.controls, id, k);
    let c = checked(d, s, id, value as int, true);
    if c is Ok {
        let r = reply.control();
        let answer = choose|answer: Result<(), i32>|
            {
                let (t, done) = #[trigger] applied(d, s, id, c->Ok_0, answer);
                s2 == t && r == super::control_ioctls::control_answer(id, done)
            };
    }
    assert(reply is Control || reply is Refused);
}

/// Whether numbers are the kind, bounds and flags of a control.
pub open spec fn says(
    ty: CtrlView,
    type_: u32,
    minimum: int,
    maximum: int,
    default_value: int,
    flags: u32,
) -> bool {
    match ty {
        CtrlView::Class => type_ == 6 && flags == 0x44,
        CtrlView::Integer { range, read_only } => {
            &&& type_ == 1
            &&& minimum == range.min && maximum == range.max && default_value == range.default
            &&& flags == (if read_only {
                4u32
            } else {
                0u32
            })
        },
        CtrlView::Menu { items, default, .. } => {
            &&& type_ == 3 && flags == 0 && default_value == default
            &&& items.len() > 0 ==> minimum == items[0] && maximum == items.last()
        },
        CtrlView::Boolean { on } => {
            &&& type_ == 2 && flags == 0 && minimum == 0 && maximum == 1
            &&& default_value == 1 <==> on
            &&& default_value == 0 <==> !on
        },
        CtrlView::Button => type_ == 4 && flags == 0x240,
    }
}

/// A control is described by its kind, its bounds, its default and what can be done with it; asked
/// for the next one, the one with the least greater id is. There is none behind the last.
pub proof fn controls_are_described_as_they_are<GM, H, S, K>(
    d: DeviceView<GM, H, S, K>,
    s: SessionView<GM, H>,
    id: u32,
    flags: QueryCtrlFlags,
    d2: DeviceView<GM, H, S, K>,
    s2: SessionView<GM, H>,
    reply: IoctlReply,
    k: int,
)
    requires
        sorted(d.controls),
        encoder_answers(d, s, IoctlRequest::QueryCtrl { id, flags }, d2, s2, reply),
        0 <= k < d.controls.len(),
    ensures
        s2 == s && d2 == d,
        reply is QueryCtrl || reply == (IoctlReply::Refused { errno: EINVAL }),
        !flags.next && !flags.compound && d.controls[k].id == id ==> reply is QueryCtrl
            && reply->QueryCtrl_ctrl.id == id && says(
            d.controls[k].ty@,
            reply->QueryCtrl_ctrl.type_,
            reply->QueryCtrl_ctrl.minimum as int,
            reply->QueryCtrl_ctrl.maximum as int,
            reply->QueryCtrl_ctrl.default_value as int,
            reply->QueryCtrl_ctrl.flags,
        ),
        !flags.next && reply is QueryCtrl ==> reply->QueryCtrl_ctrl.id == id,
        reply is QueryCtrl && reply->QueryCtrl_ctrl.id == d.controls[k].id
            ==> reply->QueryCtrl_ctrl.step == (if d.controls[k].ty@ is Class
            || d.controls[k].ty@ is Button {
            0int
        } else {
            1int
        }),
        flags.next && d.controls[k].id > id ==> reply is QueryCtrl && id < reply->QueryCtrl_ctrl.id
            <= d.controls[k].id,
        flags.next && reply is QueryCtrl && reply->QueryCtrl_ctrl.id == d.controls[k].id ==> says(
            d.controls[k].ty@,
            reply->QueryCtrl_ctrl.type_,
            reply->QueryCtrl_ctrl.minimum as int,
            reply->QueryCtrl_ctrl.maximum as int,
            reply->QueryCtrl_ctrl.default_value as int,
            reply->QueryCtrl_ctrl.flags,
        ),
{
    let table = d.controls;
    if reply is QueryCtrl {
        let q = reply->QueryCtrl_ctrl;
        let i = choose|i: int|
            0 <= i < table.len() && #[trigger] names(table, id, flags, i)
                && super::control_ioctls::describes(q, table[i]);
        if q.id == table[k].id && i != k {
            place_is_unique(table, i);
            place_is_unique(table, k);
        }
        if flags.next && table[k].id > id && i > k {
            assert(table[k].id <= id);
        }
        if flags.next && table[k].id > id && i < k {
            assert(table[i].id < table[k].id);
        }
    } else if flags.next && table[k].id > id {
        let i = least_after(table, id, k);
        assert(names(table, id, flags, i));
    } else if !flags.next && !flags.compound && table[k].id == id {
        assert(names(table, id, flags, k));
    }
}

/// The first entry with a greater id.
proof fn least_after(table: Seq<CtrlDef>, id: u32, k: int) -> (i: int)
    requires
        0 <= k < table.len(),
        table[k].id > id,
    ensures
        0 <= i <= k,
        table[i].id > id,
        forall|j: int| 0 <= j < i ==> (#[trigger] table[j]).id <= id,
    decreases k,
{
    if exists|j: int| 0 <= j < k && (#[trigger] table[j]).id > id {
        let j = choose|j: int| 0 <= j < k && (#[trigger] table[j]).id > id;
        least_after(table, id, j)
    } else {
        k
    }
}

/// What is told of a control at length is what is told of it in short: it is found by the same id
/// and flags, and its kind, bounds, default and flags are the same numbers. A control is one value
/// of four bytes.
pub proof fn long_descriptions_agree<GM, H, S, K>(
    d: DeviceView<GM, H, S, K>,
    s: SessionView<GM, H>,
    id: u32,
    flags: QueryCtrlFlags,
    d2: DeviceView<GM, H, S, K>,
    s2: SessionView<GM, H>,
    short: IoctlReply,
    long: IoctlReply,
)
    requires
        sorted(d.controls),
        encoder_answers(d, s, IoctlRequest::QueryCtrl { id, flags }, d2, s2, short),
        encoder_answers(d, s, IoctlRequest::QueryExtCtrl { id, flags }, d2, s2, long),
    ensures
        short is QueryCtrl <==> long is QueryExtCtrl,
        short is QueryCtrl ==> {
            let (a, b) = (short->QueryCtrl_ctrl, long->QueryExtCtrl_ctrl);
            &&& a.id == b.id && a.type_ == b.type_ && a.name@ == b.name@
            &&& a.minimum == b.minimum && a.maximum == b.maximum
            &&& a.step == b.step && a.default_value == b.default_value && a.flags == b.flags
            &&& b.elem_size == 4 && b.elems == 1 && b.nr_of_dims == 0
        },
        long is QueryExtCtrl || long == (IoctlReply::Refused { errno: EINVAL }),
{
    let table = d.controls;
    if short is QueryCtrl {
        let i = choose|i: int|
            0 <= i < table.len() && #[trigger] names(table, id, flags, i)
                && super::control_ioctls::describes(short->QueryCtrl_ctrl, table[i]);
        assert(names(table, id, flags, i));
    }
    if long is QueryExtCtrl {
        let i = choose|i: int|
            0 <= i < table.len() && #[trigger] names(table, id, flags, i)
                && super::control_ioctls::describes_ext(long->QueryExtCtrl_ctrl, table[i]);
        assert(names(table, id, flags, i));
    }
    if short is QueryCtrl && long is QueryExtCtrl {
        let i = choose|i: int|
            0 <= i < table.len() && #[trigger] names(table, id, flags, i)
                && super::control_ioctls::describes(short->QueryCtrl_ctrl, table[i]);
        let j = choose|j: int|
            0 <= j < table.len() && #[trigger] names(table, id, flags, j)
                && super::control_ioctls::describes_ext(long->QueryExtCtrl_ctrl, table[j]);
        if i < j {
            assert(table[i].id < table[j].id);
        } else if j < i {
            assert(table[j].id < table[i].id);
        }
    }
}

/// The default told of a control is the value a new session has for it.
pub proof fn new_sessions_have_the_told_defaults<GM, H, S, K>(
    d: DeviceView<GM, H, S, K>,
    s: SessionView<GM, H>,
    k: int,
    d2: DeviceView<GM, H, S, K>,
    s2: SessionView<GM, H>,
    reply: IoctlReply,
    fresh: u32,
    wake: i32,
)
    requires
        sorted(d.controls),
        0 <= k < d.controls.len(),
        encoder_answers(
            d,
            s,
            IoctlRequest::QueryCtrl {
                id: d.controls[k].id,
                flags: QueryCtrlFlags { next: false, compound: false },
            },
            d2,
            s2,
            reply,
        ),
    ensures
        reply is QueryCtrl,
        fresh_session::<GM, H, S, K>(d, fresh, wake).ctrl_values[k]
            == reply->QueryCtrl_ctrl.default_value,
{
    let table = d.controls;
    let flags = QueryCtrlFlags { next: false, compound: false };
    assert(names(table, table[k].id, flags, k));
    if reply is QueryCtrl {
        let i = choose|i: int|
            0 <= i < table.len() && #[trigger] names(table, table[k].id, flags, i)
                && super::control_ioctls::describes(reply->QueryCtrl_ctrl, table[i]);
        place_is_unique(table, i);
        place_is_unique(table, k);
    }
}

/// A menu has just its items.
pub proof fn menus_have_their_items<GM, H, S, K>(
    d: DeviceView<GM, H, S, K>,
    s: SessionView<GM, H>,
    id: u32,
    index: u32,
    k: int,
    d2: DeviceView<GM, H, S, K>,
    s2: SessionView<GM, H>,
    reply: IoctlReply,
)
    requires
        sorted(d.controls),
        is_entry(d.controls, id, k),
        encoder_answers(d, s, IoctlRequest::QueryMenu { id, index }, d2, s2, reply),
    ensures
        s2 == s && d2 == d,
        reply is QueryMenu || reply == (IoctlReply::Refused { errno: EINVAL }),
        reply is QueryMenu <==> d.controls[k].ty@ is Menu && index <= i32::MAX
            && d.controls[k].ty@->items.contains(index as i32),
        reply matches IoctlReply::QueryMenu { item } ==> item.id == id && item.index == index,
{
    entries_have_one_place(d.controls, id, k);
}

/// The end of the stream is told once it is subscribed to, and no longer once that is given up; a
/// control's state is sent at once if it is asked for, and is what it is. No other event exists.
pub proof fn subscriptions_are_as_asked<GM, H, S, K>(
    d: DeviceView<GM, H, S, K>,
    s: SessionView<GM, H>,
    event: EventType,
    flags: SubscribeEventFlags,
    d2: DeviceView<GM, H, S, K>,
    s2: SessionView<GM, H>,
    reply: IoctlReply,
)
    requires
        sorted(d.controls),
        encoder_answers(d, s, IoctlRequest::SubscribeEvent { event, flags }, d2, s2, reply),
    ensures
        event == EventType::Eos ==> reply is Done && s2 == (SessionView {
            eos_subscribed: true,
            ..s
        }) && d2 == d,
        event matches EventType::Ctrl(id) ==> {
            &&& s2 == s
            &&& (forall|k: int| 0 <= k < d.controls.len() ==> (#[trigger] d.controls[k]).id != id)
                ==> reply == (IoctlReply::Refused { errno: EINVAL }) && d2 == d
            &&& forall|k: int|
                is_entry(d.controls, id, k) ==> {
                    let ty = (#[trigger] d.controls[k]).ty@;
                    let n = d.events.len() as int;
                    &&& reply is Done
                    &&& !flags.send_initial || ty is Class ==> d2 == d
                    &&& flags.send_initial && !(ty is Class) ==> {
                        &&& d2 == (DeviceView { events: d2.events, ..d })
                        &&& d2.events.len() == n + 1
                        &&& d2.events[n] is Event
                        &&& d2.events[n]->Event_session_id == s.id
                        &&& d2.events[n]->event.type_ == 3
                        &&& d2.events[n]->event.id == id
                        &&& d2.events[n]->event.ctrl is Some
                        &&& ({
                            let c = d2.events[n]->event.ctrl->0;
                            &&& c.changes == 1
                            &&& !(ty is Button) ==> c.value == s.ctrl_values[k] && c.step == 1
                            &&& ty is Button ==> c.value == 0 && c.step == 0
                            &&& says(
                                ty,
                                c.type_,
                                c.minimum as int,
                                c.maximum as int,
                                c.default_value as int,
                                c.flags,
                            )
                        })
                    }
                }
        },
        event != EventType::Eos && !(event is Ctrl) ==> reply == (IoctlReply::Refused {
            errno: EINVAL,
        }) && s2 == s && d2 == d,
{
    if let EventType::Ctrl(id) = event {
        assert forall|k: int| is_entry(d.controls, id, k) implies has_id(d.controls, id) && place(
            d.controls,
            id,
        ) == k by {
            entries_have_one_place(d.controls, id, k);
        }
        if has_id(d.controls, id) {
            let k = place(d.controls, id);
            assert(is_entry(d.controls, id, k));
        }
    }
    assert(reply is Done || reply is Refused);
}

/// Giving up the end of the stream, or everything, gives it up.
pub proof fn subscriptions_are_given_up<GM, H, S, K>(
    d: DeviceView<GM, H, S, K>,
    s: SessionView<GM, H>,
    event: EventSubscription,
    d2: DeviceView<GM, H, S, K>,
    s2: SessionView<GM, H>,
    reply: IoctlReply,
)
    requires
        encoder_answers(d, s, IoctlRequest::UnsubscribeEvent { event }, d2, s2, reply),
    ensures
        d2 == d,
        event.type_ == 0 || event.type_ == 2 ==> reply is Done && s2 == (SessionView {
            eos_subscribed: false,
            ..s
        }),
        event.type_ == 3 ==> reply is Done && s2 == s,
        event.type_ != 0 && event.type_ != 2 && event.type_ != 3 ==> reply == (IoctlReply::Refused {
            errno: EINVAL,
        }) && s2 == s,
{
    assert(reply is Done || reply is Refused);
}

} // verus!
