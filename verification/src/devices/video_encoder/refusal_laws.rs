//! Which sets of controls are refused, with which errno, and which control is to blame.
use vstd::prelude::*;

use super::backend::CodecCall;
use super::control_ioctls::{
    applied, applied_set, checked_one, checked_set, set_applied, which_served, ExtCtrlOp,
};
use super::control_laws::is_entry;
use super::control_table::{has_id, place, place_is_unique, sorted};
use super::controls::CtrlView;
use super::device::DeviceView;
use super::ioctls::encoder_answers;
use super::session::SessionView;
use crate::errno::{EACCES, EBUSY, EINVAL, ENODEV, ERANGE};
use crate::ioctl::read::GuestControls;
use crate::ioctl::reply::IoctlReply;
use crate::ioctl::requests::IoctlRequest;
use crate::ioctl::types::{Control, CtrlWhich, ExtControl};

verus! {

/// Whether a kind of control refuses to be read, with an errno: a class has no value, and a button
/// is not read.
pub open spec fn refuses_reading(ty: CtrlView, errno: i32) -> bool {
    match ty {
        CtrlView::Class => errno == EINVAL,
        CtrlView::Button => errno == EACCES,
        _ => false,
    }
}

/// Whether a kind of control refuses a value, with an errno: a class has none, a read-only control
/// takes none, and a menu takes its items, where a value between them is another errno than one
/// beyond them.
pub open spec fn refuses_value(ty: CtrlView, value: int, errno: i32) -> bool {
    match ty {
        CtrlView::Class => errno == EINVAL,
        CtrlView::Integer { read_only, .. } => read_only && errno == EACCES,
        CtrlView::Menu { items, .. } => if items.len() == 0 {
            errno == EINVAL && value == 0 || errno == ERANGE && value != 0
        } else if value < items[0] || value > items.last() {
            errno == ERANGE
        } else {
            !items.contains(value as i32) && errno == EINVAL
        },
        CtrlView::Boolean { .. } | CtrlView::Button => false,
    }
}

/// Whether another value than a control has is refused while the codec runs: only the bitrate
/// changes then, and a button has no value.
pub open spec fn is_frozen<GM, H>(s: SessionView<GM, H>, ty: CtrlView, c: ExtControl, k: int)
    -> bool {
    let value = c.plain();
    s.codec_started && c.id != 0x99_09cf && c.id != 0x99_09e5 && match ty {
        CtrlView::Integer { range, .. } => s.ctrl_values[k] != (if value < range.min || range.max
            < range.min {
            range.min as int
        } else if value > range.max {
            range.max as int
        } else {
            value
        }),
        CtrlView::Menu { .. } => s.ctrl_values[k] != value,
        CtrlView::Boolean { .. } => s.ctrl_values[k] != (if value == 0 {
            0int
        } else {
            1int
        }),
        CtrlView::Button | CtrlView::Class => false,
    }
}

/// What is done with a set of controls.
pub enum Doing {
    Reading,
    Trying,
    Setting,
}

/// Whether a control of a set is refused, with an errno: one of another class than the set is
/// about, one that is not there, and what its kind refuses.
pub open spec fn refused_with<GM, H, S, K>(
    d: DeviceView<GM, H, S, K>,
    s: SessionView<GM, H>,
    doing: Doing,
    which: CtrlWhich,
    c: ExtControl,
    errno: i32,
) -> bool {
    let class = c.id % 0x1000_0000 - c.id % 0x1_0000;
    if which is Class && which->Class_0 != class {
        errno == EINVAL
    } else {
        ||| errno == EINVAL && forall|k: int| !#[trigger] is_entry(d.controls, c.id, k)
        ||| exists|k: int| #[trigger]
            is_entry(d.controls, c.id, k) && kind_refuses(d, s, doing, c, k, errno)
    }
}

/// Whether entry `k` of the table refuses what is done with a control.
pub open spec fn kind_refuses<GM, H, S, K>(
    d: DeviceView<GM, H, S, K>,
    s: SessionView<GM, H>,
    doing: Doing,
    c: ExtControl,
    k: int,
    errno: i32,
) -> bool {
    let ty = d.controls[k].ty@;
    match doing {
        Doing::Reading => refuses_reading(ty, errno),
        Doing::Trying => refuses_value(ty, c.plain(), errno),
        Doing::Setting => refuses_value(ty, c.plain(), errno) || (errno == EBUSY && is_frozen(
            s,
            ty,
            c,
            k,
        ) && forall|e: i32| !#[trigger] refuses_value(ty, c.plain(), e)),
    }
}

/// Whether a control of a set is refused.
pub open spec fn is_refused<GM, H, S, K>(
    d: DeviceView<GM, H, S, K>,
    s: SessionView<GM, H>,
    doing: Doing,
    which: CtrlWhich,
    c: ExtControl,
) -> bool {
    exists|errno: i32| #[trigger] refused_with(d, s, doing, which, c, errno)
}

/// What is done with a set, as the operation on it.
spec fn operation(doing: Doing) -> ExtCtrlOp {
    match doing {
        Doing::Reading => ExtCtrlOp::Read,
        Doing::Trying => ExtCtrlOp::Check,
        Doing::Setting => ExtCtrlOp::Write,
    }
}

/// A control is refused where its check fails, with the errno of that.
proof fn checks_fail_where_refused<GM, H, S, K>(
    d: DeviceView<GM, H, S, K>,
    s: SessionView<GM, H>,
    doing: Doing,
    which: CtrlWhich,
    c: ExtControl,
)
    requires
        sorted(d.controls),
    ensures
        forall|errno: i32| #[trigger]
            refused_with(d, s, doing, which, c, errno) <==> checked_one(
                d,
                s,
                operation(doing),
                which,
                c,
            ) == Err::<i32, i32>(errno),
        is_refused(d, s, doing, which, c) <==> checked_one(
            d,
            s,
            operation(doing),
            which,
            c,
        ) is Err,
{
    let r = checked_one(d, s, operation(doing), which, c);
    let class = c.id % 0x1000_0000 - c.id % 0x1_0000;
    assert(class == super::controls::class_of(c.id as int));
    assert forall|errno: i32| #[trigger] refused_with(d, s, doing, which, c, errno) <==> r == Err::<
        i32,
        i32,
    >(errno) by {
        if which is Class && which->Class_0 != class {
        } else if has_id(d.controls, c.id) {
            let k = place(d.controls, c.id);
            assert(is_entry(d.controls, c.id, k));
            assert forall|j: int| #[trigger] is_entry(d.controls, c.id, j) implies j == k by {
                place_is_unique(d.controls, j);
            }
            let ty = d.controls[k].ty@;
            assert(-0x8000_0000 <= c.plain() <= 0x7fff_ffff);
            if !(doing is Reading) && ty.validated(c.plain()) is Err {
                assert(refuses_value(ty, c.plain(), ty.validated(c.plain())->Err_0));
            }
            if ty is Integer && ty.read_only() {
                assert(refuses_value(ty, c.plain(), EACCES));
            }
        } else {
            assert(forall|k: int| !#[trigger] is_entry(d.controls, c.id, k));
        }
    }
    if r is Err {
        assert(refused_with(d, s, doing, which, c, r->Err_0));
    }
}

/// A set of controls is read, or tried, exactly where none of its controls is refused, and of what
/// it is about values are served: never those of a request, and the defaults only to be read. The
/// errno is that of the first control that is refused. Who tries is told which one that is; who
/// reads is told the count, which is none of them.
pub proof fn sets_are_refused_for_a_control<GM, H, S, K>(
    d: DeviceView<GM, H, S, K>,
    s: SessionView<GM, H>,
    which: CtrlWhich,
    input: GuestControls,
    trying: bool,
    d2: DeviceView<GM, H, S, K>,
    s2: SessionView<GM, H>,
    reply: IoctlReply,
)
    requires
        sorted(d.controls),
        encoder_answers(
            d,
            s,
            if trying {
                IoctlRequest::TryExtCtrls { which, input }
            } else {
                IoctlRequest::GExtCtrls { which, input }
            },
            d2,
            s2,
            reply,
        ),
    ensures
        ({
            let sent = input.ctrl_array@;
            let doing = if trying {
                Doing::Trying
            } else {
                Doing::Reading
            };
            let served = !(which is Request) && !(trying && which is Default);
            &&& reply is Controls <==> served && forall|i: int|
                0 <= i < sent.len() ==> !is_refused(d, s, doing, which, #[trigger] sent[i])
            &&& !served ==> reply is RefusedControls && reply->RefusedControls_errno == EINVAL
                && reply->RefusedControls_ctrls.error_idx == sent.len() as u32
            &&& served && reply is RefusedControls ==> exists|i: int|
                {
                    &&& 0 <= i < sent.len()
                    &&& refused_with(
                        d,
                        s,
                        doing,
                        which,
                        #[trigger] sent[i],
                        reply->RefusedControls_errno,
                    )
                    &&& forall|j: int|
                        0 <= j < i ==> !is_refused(d, s, doing, which, #[trigger] sent[j])
                    &&& reply->RefusedControls_ctrls.error_idx == (if trying {
                        i as u32
                    } else {
                        sent.len() as u32
                    })
                }
        }),
        s2 == s && d2 == d,
{
    let sent = input.ctrl_array@;
    let doing = if trying {
        Doing::Trying
    } else {
        Doing::Reading
    };
    let op = operation(doing);
    assert forall|i: int| 0 <= i < sent.len() implies (is_refused(
        d,
        s,
        doing,
        which,
        #[trigger] sent[i],
    ) <==> checked_one(d, s, op, which, sent[i]) is Err) by {
        checks_fail_where_refused(d, s, doing, which, sent[i]);
    }
    assert(which_served(op, which) == (!(which is Request) && !(trying && which is Default)));
    if reply is Controls {
        let values = choose|values: Seq<i32>| #[trigger]
            checked_set(d, s, op, which, sent, Ok(values)) && reply.controls()
                == super::control_ioctls::written(sent, values);
        assert forall|i: int| 0 <= i < sent.len() implies !is_refused(
            d,
            s,
            doing,
            which,
            #[trigger] sent[i],
        ) by {
            assert(checked_one(d, s, op, which, sent[i]) == Ok::<i32, i32>(values[i]));
        }
    } else if which_served(op, which) {
        let e = reply->RefusedControls_errno;
        let i = choose|i: int|
            {
                &&& 0 <= i < sent.len()
                &&& #[trigger] checked_one(d, s, op, which, sent[i]) == Err::<i32, i32>(e)
                &&& forall|j: int|
                    0 <= j < i ==> #[trigger] checked_one(d, s, op, which, sent[j]) is Ok
                &&& reply->RefusedControls_ctrls.error_idx == if op == ExtCtrlOp::Check {
                    i as u32
                } else {
                    sent.len() as u32
                }
            };
        checks_fail_where_refused(d, s, doing, which, sent[i]);
        assert(is_refused(d, s, doing, which, sent[i]));
        assert forall|j: int| 0 <= j < i implies !is_refused(
            d,
            s,
            doing,
            which,
            #[trigger] sent[j],
        ) by {
            assert(checked_one(d, s, op, which, sent[j]) is Ok);
        }
    }
}

/// Whether the codec was asked to change a running stream, and refused with an errno.
pub open spec fn is_declined(call: CodecCall, errno: i32) -> bool {
    match call {
        CodecCall::SetBitrate { answer, .. } => answer == Err::<(), i32>(errno),
        CodecCall::ForceKeyframe { answer } => answer == Err::<(), i32>(errno),
        _ => false,
    }
}

/// A set is applied up to the value the codec declines; none is to a dead session.
proof fn applying_stops_where_declined<GM, H, S, K>(
    d: DeviceView<GM, H, S, K>,
    s: SessionView<GM, H>,
    ctrls: Seq<ExtControl>,
    values: Seq<i32>,
    answers: Seq<Result<(), i32>>,
)
    requires
        answers.len() <= ctrls.len(),
        forall|i: int| 0 <= i < ctrls.len() ==> has_id(d.controls, (#[trigger] ctrls[i]).id),
    ensures
        ({
            let (t, stop) = applied_set(d, s, ctrls, values, answers);
            &&& t.dead == s.dead && t.codec_started == s.codec_started
            &&& t.codec.len() >= s.codec.len()
            &&& s.dead ==> t == s && (answers.len() > 0 ==> stop == Some(ENODEV))
            &&& !s.dead && stop is Some ==> s.codec_started && t.codec.len() > s.codec.len()
                && is_declined(t.codec.last(), stop->0)
        }),
    decreases answers.len(),
{
    if answers.len() > 0 {
        applying_stops_where_declined(d, s, ctrls, values, answers.drop_last());
        assert(has_id(d.controls, ctrls[answers.len() - 1].id));
    }
}

/// A set of controls is set exactly where none of them is refused, and the codec declines none: one
/// that is refused leaves every value as it was. A dead session takes no value. The errno is that
/// of the first control refused, or the codec's.
pub proof fn sets_are_not_set_for_a_control<GM, H, S, K>(
    d: DeviceView<GM, H, S, K>,
    s: SessionView<GM, H>,
    which: CtrlWhich,
    input: GuestControls,
    d2: DeviceView<GM, H, S, K>,
    s2: SessionView<GM, H>,
    reply: IoctlReply,
)
    requires
        sorted(d.controls),
        encoder_answers(d, s, IoctlRequest::SExtCtrls { which, input }, d2, s2, reply),
    ensures
        ({
            let sent = input.ctrl_array@;
            let served = which == CtrlWhich::Current || which is Class;
            let taken = forall|i: int|
                0 <= i < sent.len() ==> !is_refused(
                    d,
                    s,
                    Doing::Setting,
                    which,
                    #[trigger] sent[i],
                );
            &&& reply is Controls || reply is RefusedControls
            &&& !served ==> reply is RefusedControls && reply->RefusedControls_errno == EINVAL
                && s2 == s
            &&& served && !taken ==> reply is RefusedControls && s2 == s && exists|i: int|
                {
                    &&& 0 <= i < sent.len()
                    &&& refused_with(
                        d,
                        s,
                        Doing::Setting,
                        which,
                        #[trigger] sent[i],
                        reply->RefusedControls_errno,
                    )
                    &&& forall|j: int|
                        0 <= j < i ==> !is_refused(
                            d,
                            s,
                            Doing::Setting,
                            which,
                            #[trigger] sent[j],
                        )
                }
            &&& served && taken && s.dead && sent.len() > 0 ==> reply is RefusedControls
                && reply->RefusedControls_errno == ENODEV && s2 == s
            &&& served && taken && !s.dead && !s.codec_started ==> reply is Controls
            &&& served && taken && !s.dead && s.codec_started && reply is RefusedControls
                ==> s2.codec.len() > s.codec.len() && is_declined(
                s2.codec.last(),
                reply->RefusedControls_errno,
            )
            &&& sent.len() == 0 && served ==> reply is Controls && s2 == s
        }),
        reply matches IoctlReply::RefusedControls { ctrls, .. } ==> ctrls.error_idx
            == input.ctrl_array@.len() as u32,
        d2 == d,
{
    let sent = input.ctrl_array@;
    let doing = Doing::Setting;
    let op = ExtCtrlOp::Write;
    let r = reply.done();
    assert forall|i: int| 0 <= i < sent.len() implies (is_refused(
        d,
        s,
        doing,
        which,
        #[trigger] sent[i],
    ) <==> checked_one(d, s, op, which, sent[i]) is Err) by {
        checks_fail_where_refused(d, s, doing, which, sent[i]);
    }
    assert(reply is Controls || reply is RefusedControls);
    if exists|values: Seq<i32>, answers: Seq<Result<(), i32>>| #[trigger]
        set_applied(
            d,
            s,
            which,
            input.ctrls,
            sent,
            values,
            answers,
            s2,
            reply.header(),
            reply.controls(),
            r,
        ) {
        let (values, answers) = choose|values: Seq<i32>, answers: Seq<Result<(), i32>>| #[trigger]
            set_applied(
                d,
                s,
                which,
                input.ctrls,
                sent,
                values,
                answers,
                s2,
                reply.header(),
                reply.controls(),
                r,
            );
        assert forall|i: int| 0 <= i < sent.len() implies !is_refused(
            d,
            s,
            doing,
            which,
            #[trigger] sent[i],
        ) && has_id(d.controls, sent[i].id) by {
            assert(checked_one(d, s, op, which, sent[i]) == Ok::<i32, i32>(values[i]));
        }
        applying_stops_where_declined(d, s, sent, values, answers);
    } else if which_served(op, which) {
        let e = reply->RefusedControls_errno;
        let i = choose|i: int|
            {
                &&& 0 <= i < sent.len()
                &&& #[trigger] checked_one(d, s, op, which, sent[i]) == Err::<i32, i32>(e)
                &&& forall|j: int|
                    0 <= j < i ==> #[trigger] checked_one(d, s, op, which, sent[j]) is Ok
            };
        checks_fail_where_refused(d, s, doing, which, sent[i]);
        assert(is_refused(d, s, doing, which, sent[i]));
        assert forall|j: int| 0 <= j < i implies !is_refused(
            d,
            s,
            doing,
            which,
            #[trigger] sent[j],
        ) by {
            assert(checked_one(d, s, op, which, sent[j]) is Ok);
        }
    }
}

/// Setting a set of one control is setting that control: the session and the codec are left as
/// they could be by that, with the same answer.
pub proof fn a_set_of_one_is_the_control<GM, H, S, K>(
    d: DeviceView<GM, H, S, K>,
    s: SessionView<GM, H>,
    input: GuestControls,
    d2: DeviceView<GM, H, S, K>,
    s2: SessionView<GM, H>,
    reply: IoctlReply,
)
    requires
        input.ctrl_array@.len() == 1,
        encoder_answers(
            d,
            s,
            IoctlRequest::SExtCtrls { which: CtrlWhich::Current, input },
            d2,
            s2,
            reply,
        ),
    ensures
        reply is Controls ==> reply->Controls_ctrl_array@.len() == 1 && encoder_answers(
            d,
            s,
            IoctlRequest::SCtrl {
                id: input.ctrl_array@[0].id,
                value: input.ctrl_array@[0].plain() as i32,
            },
            d2,
            s2,
            IoctlReply::Control {
                ctrl: Control {
                    id: input.ctrl_array@[0].id,
                    value: reply->Controls_ctrl_array@[0].plain() as i32,
                },
            },
        ),
        reply is RefusedControls ==> encoder_answers(
            d,
            s,
            IoctlRequest::SCtrl {
                id: input.ctrl_array@[0].id,
                value: input.ctrl_array@[0].plain() as i32,
            },
            d2,
            s2,
            IoctlReply::Refused { errno: reply->RefusedControls_errno },
        ),
{
    let sent = input.ctrl_array@;
    let which = CtrlWhich::Current;
    let op = ExtCtrlOp::Write;
    let r = reply.done();
    let c = sent[0];
    assert(-0x8000_0000 <= c.plain() <= 0x7fff_ffff);
    if exists|values: Seq<i32>, answers: Seq<Result<(), i32>>| #[trigger]
        set_applied(
            d,
            s,
            which,
            input.ctrls,
            sent,
            values,
            answers,
            s2,
            reply.header(),
            reply.controls(),
            r,
        ) {
        let (values, answers) = choose|values: Seq<i32>, answers: Seq<Result<(), i32>>| #[trigger]
            set_applied(
                d,
                s,
                which,
                input.ctrls,
                sent,
                values,
                answers,
                s2,
                reply.header(),
                reply.controls(),
                r,
            );
        assert(checked_one(d, s, op, which, sent[0]) == Ok::<i32, i32>(values[0]));
        reveal_with_fuel(applied_set, 3);
        assert(answers.len() == 1);
        assert(answers.drop_last().len() == 0);
        let (t, done) = applied(d, s, c.id, values[0], answers[0]);
        assert(s2 == t);
        if reply is Controls {
            let v = values[0];
            let got = reply.controls()[0];
            assert(got == c.with_plain(v as int));
            assert(got.plain() == v);
        }
    } else {
        let i = choose|i: int|
            0 <= i < sent.len() && #[trigger] checked_one(d, s, op, which, sent[i]) == Err::<
                i32,
                i32,
            >(reply->RefusedControls_errno);
        assert(i == 0);
    }
}

} // verus!
