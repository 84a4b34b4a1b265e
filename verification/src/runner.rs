//! Running a device: its sessions, and the commands of the guest driver.
use std::collections::HashMap;
use vstd::prelude::*;

use crate::bytes::{le32, le64, push_u32, push_u64, read_u32, read_u64, ChainReader};
use crate::device::{VirtioMediaDevice, VirtioMediaDeviceSession};
use crate::errno::{EINVAL, ENOTTY};
use crate::host::continued;
use crate::ioctl::codes::V4l2Ioctl;
use crate::ioctl::laws::{after_put32, after_put64};
use crate::ioctl::read::fields_of_a_part;
use crate::ioctl::reply::{put32, put64, put_header, put_signed, write_header};

verus! {

/// Opens a session.
pub const VIRTIO_MEDIA_CMD_OPEN: u32 = 1;

/// Closes a session.
pub const VIRTIO_MEDIA_CMD_CLOSE: u32 = 2;

/// Performs an ioctl on a session.
pub const VIRTIO_MEDIA_CMD_IOCTL: u32 = 3;

/// Maps a buffer of a session into the guest.
pub const VIRTIO_MEDIA_CMD_MMAP: u32 = 4;

/// Unmaps a buffer from the guest.
pub const VIRTIO_MEDIA_CMD_MUNMAP: u32 = 5;

/// Waits for session events.
pub trait SessionPoller {
    /// What adding a session gives and does to the poller. It holds of anything where an
    /// implementation does not say.
    open spec fn adds(
        &self,
        fd: i32,
        session_id: u32,
        r: Result<(), i32>,
        after: &Self,
    ) -> bool {
        true
    }

    /// What removing a session does to the poller. It holds of anything where an implementation
    /// does not say.
    open spec fn removes(&self, fd: i32, after: &Self) -> bool {
        true
    }

    /// Adds the session `session_id`, whose descriptor is `fd`.
    fn add_session(&mut self, fd: i32, session_id: u32) -> (r: Result<(), i32>)
        ensures
            old(self).adds(fd, session_id, r, final(self)),
    ;

    /// Removes the session whose descriptor is `fd`.
    fn remove_session(&mut self, fd: i32)
        ensures
            old(self).removes(fd, final(self)),
    ;
}

/// A call made to a session poller, with its answer.
pub enum PollCall {
    Add { fd: i32, session_id: u32, answer: Result<(), i32> },
    Remove { fd: i32 },
}

impl PollCall {
    /// Whether a poller makes this answer to the call, and is left like this by it.
    pub open spec fn takes<P: SessionPoller>(self, poller: P, after: P) -> bool {
        match self {
            PollCall::Add { fd, session_id, answer } => poller.adds(
                fd,
                session_id,
                answer,
                &after,
            ),
            PollCall::Remove { fd } => poller.removes(fd, &after),
        }
    }
}

/// The port to the session poller. It keeps a record of its calls as the ports of
/// [`crate::host`] do.
pub struct PollPort<P> {
    pub poller: P,
    /// Every call, oldest first.
    pub calls: Ghost<Seq<PollCall>>,
    /// The poller before each call, and as it is now.
    pub path: Ghost<Seq<P>>,
}

impl<P: SessionPoller> PollPort<P> {
    /// A port over a poller nothing has been asked of.
    pub fn new(poller: P) -> (r: Self)
        ensures
            r.calls@ == Seq::<PollCall>::empty(),
            r.poller == poller,
            r.path@ == seq![poller],
            r.faithful(),
    {
        let ghost path = seq![poller];
        PollPort { poller, calls: Ghost(Seq::empty()), path: Ghost(path) }
    }

    /// Whether each call on record was made to the poller, one after the other, and no other was.
    pub open spec fn faithful(&self) -> bool {
        &&& self.path@.len() == self.calls@.len() + 1
        &&& self.path@.last() == self.poller
        &&& forall|k: int|
            0 <= k < self.calls@.len() ==> (#[trigger] self.calls@[k]).takes(
                self.path@[k],
                self.path@[k + 1],
            )
    }

    /// Adds a session.
    pub fn add_session(&mut self, fd: i32, session_id: u32) -> (r: Result<(), i32>)
        ensures
            final(self).calls@ == old(self).calls@.push(
                PollCall::Add { fd, session_id, answer: r },
            ),
            old(self).poller.adds(fd, session_id, r, &final(self).poller),
            final(self).path@ == old(self).path@.push(final(self).poller),
            old(self).faithful() ==> final(self).faithful(),
    {
        let r = self.poller.add_session(fd, session_id);
        self.calls = Ghost(self.calls@.push(PollCall::Add { fd, session_id, answer: r }));
        self.path = Ghost(self.path@.push(self.poller));
        r
    }

    /// Removes a session.
    pub fn remove_session(&mut self, fd: i32)
        ensures
            final(self).calls@ == old(self).calls@.push(PollCall::Remove { fd }),
            old(self).poller.removes(fd, &final(self).poller),
            final(self).path@ == old(self).path@.push(final(self).poller),
            old(self).faithful() ==> final(self).faithful(),
    {
        self.poller.remove_session(fd);
        self.calls = Ghost(self.calls@.push(PollCall::Remove { fd }));
        self.path = Ghost(self.path@.push(self.poller));
    }
}

/// A call that opens, polls or closes a session, with its answer.
pub enum SessionCall<S> {
    /// The device was asked for a session.
    Open { id: u32, answer: Result<S, i32> },
    /// The poller was called.
    Poll { call: PollCall },
    /// The device was given a session to close.
    Close { session: S },
}

/// The calls of the poller among those that open, poll and close sessions.
pub open spec fn polls_of<S>(calls: Seq<SessionCall<S>>) -> Seq<PollCall>
    decreases calls.len(),
{
    if calls.len() == 0 {
        Seq::empty()
    } else {
        let before = polls_of(calls.drop_last());
        match calls.last() {
            SessionCall::Poll { call } => before.push(call),
            _ => before,
        }
    }
}

/// One more call adds itself to those of the poller if it is one.
proof fn one_more_call<S>(calls: Seq<SessionCall<S>>, next: SessionCall<S>)
    ensures
        polls_of(calls.push(next)) == (match next {
            SessionCall::Poll { call } => polls_of(calls).push(call),
            _ => polls_of(calls),
        }),
{
    assert(calls.push(next).drop_last() == calls);
}

/// A device with its sessions.
pub struct VirtioMediaDeviceRunner<D: VirtioMediaDevice, P: SessionPoller> {
    pub device: D,
    pub poller: PollPort<P>,
    pub sessions: HashMap<u32, D::Session>,
    /// The id of the next session.
    pub session_id_counter: u32,
    /// Every call that opened, polled or closed a session, of the device and of the poller, oldest
    /// first.
    pub calls: Ghost<Seq<SessionCall<D::Session>>>,
}

/// A runner as a mathematical value.
pub struct RunnerView<D, S> {
    pub device: D,
    /// Every call that opened, polled or closed a session, oldest first.
    pub calls: Seq<SessionCall<S>>,
    pub sessions: Map<u32, S>,
    pub next: u32,
}

impl<D: VirtioMediaDevice, P: SessionPoller> View for VirtioMediaDeviceRunner<D, P> {
    type V = RunnerView<D, D::Session>;

    open spec fn view(&self) -> RunnerView<D, D::Session> {
        RunnerView {
            device: self.device,
            calls: self.calls@,
            sessions: self.sessions@,
            next: self.session_id_counter,
        }
    }
}

/// Whether every session is known by the id it was opened with, ids are not reused, and the device
/// can serve them all.
pub open spec fn runs<D: VirtioMediaDevice>(v: RunnerView<D, D::Session>) -> bool {
    &&& v.device.ready()
    &&& forall|id: u32| #[trigger]
        v.sessions.contains_key(id) ==> id < v.next && D::id_of(&v.sessions[id]) == id
            && v.device.can_serve(&v.sessions[id])
}

/// What answering with the id of a new session writes.
pub open spec fn put_open(out: Seq<u8>, id: u32) -> Seq<u8> {
    put32(put32(put_header(out, 0), id), 0)
}

/// What answering with a guest mapping writes.
pub open spec fn put_mmap(out: Seq<u8>, addr: u64, len: u64) -> Seq<u8> {
    put64(put64(put_header(out, 0), addr), len)
}

/// What opening a session does: it is known by the next id, and polled if it has a descriptor.
pub open spec fn session_opened<D: VirtioMediaDevice>(
    v: RunnerView<D, D::Session>,
    out: Seq<u8>,
    device: D,
    answer: Result<D::Session, i32>,
    fd: Option<i32>,
    added: Result<(), i32>,
    v2: RunnerView<D, D::Session>,
    out2: Seq<u8>,
) -> bool {
    let opened = v.calls.push(SessionCall::Open { id: v.next, answer });
    &&& v.device.opens(v.next, &device, answer)
    &&& match answer {
        Err(e) => v2 == (RunnerView { device, calls: opened, ..v }) && out2 == put_header(out, e),
        Ok(session) => {
            let call = PollCall::Add { fd: fd->0, session_id: v.next, answer: added };
            let polled = opened.push(SessionCall::Poll { call });
            &&& session.polls(fd)
            &&& if fd is Some && added is Err {
                &&& device.closes(&session, &v2.device)
                &&& v2 == (RunnerView {
                    device: v2.device,
                    calls: polled.push(SessionCall::Close { session }),
                    ..v
                })
                &&& out2 == put_header(out, added->Err_0)
            } else {
                &&& v2 == (RunnerView {
                    device,
                    calls: if fd is Some {
                        polled
                    } else {
                        opened
                    },
                    sessions: v.sessions.insert(v.next, session),
                    next: (v.next + 1) as u32,
                })
                &&& out2 == put_open(out, v.next)
            }
        },
    }
}

/// What closing a session does: its descriptor, if it has one, is no longer polled by the time the
/// device closes it. A session that does not exist is none to close. Nothing is answered.
pub open spec fn session_closed<D: VirtioMediaDevice>(
    v: RunnerView<D, D::Session>,
    id: u32,
    fd: Option<i32>,
    v2: RunnerView<D, D::Session>,
) -> bool {
    if v.sessions.contains_key(id) {
        let session = v.sessions[id];
        let unpolled = if fd is Some {
            v.calls.push(SessionCall::Poll { call: PollCall::Remove { fd: fd->0 } })
        } else {
            v.calls
        };
        &&& session.polls(fd)
        &&& v.device.closes(&session, &v2.device)
        &&& v2 == (RunnerView {
            device: v2.device,
            calls: unpolled.push(SessionCall::Close { session }),
            sessions: v.sessions.remove(id),
            ..v
        })
    } else {
        v2 == v
    }
}

/// What an ioctl on a session does: `EINVAL` where there is no such session, `ENOTTY` where there
/// is no such ioctl.
pub open spec fn ioctl_performed<D: VirtioMediaDevice>(
    v: RunnerView<D, D::Session>,
    id: u32,
    code: u32,
    input: Seq<u8>,
    out: Seq<u8>,
    session: D::Session,
    v2: RunnerView<D, D::Session>,
    out2: Seq<u8>,
) -> bool {
    if !v.sessions.contains_key(id) {
        v2 == v && out2 == put_header(out, EINVAL)
    } else {
        match V4l2Ioctl::of(code) {
            None => v2 == v && out2 == put_header(out, ENOTTY),
            Some(ioctl) => {
                &&& v.device.performs(
                    &v.sessions[id],
                    ioctl,
                    input,
                    out,
                    &v2.device,
                    &session,
                    out2,
                )
                &&& v2 == (RunnerView {
                    device: v2.device,
                    sessions: v.sessions.insert(id, session),
                    ..v
                })
            },
        }
    }
}

/// What mapping a buffer of a session does.
pub open spec fn buffer_mapped<D: VirtioMediaDevice>(
    v: RunnerView<D, D::Session>,
    id: u32,
    flags: u32,
    offset: u32,
    out: Seq<u8>,
    session: D::Session,
    answer: Result<(u64, u64), i32>,
    v2: RunnerView<D, D::Session>,
    out2: Seq<u8>,
) -> bool {
    if !v.sessions.contains_key(id) {
        v2 == v && out2 == put_header(out, EINVAL)
    } else {
        &&& v.device.maps(&v.sessions[id], flags, offset, &v2.device, &session, answer)
        &&& v2 == (RunnerView {
            device: v2.device,
            sessions: v.sessions.insert(id, session),
            ..v
        })
        &&& out2 == match answer {
            Ok((addr, len)) => put_mmap(out, addr, len),
            Err(e) => put_header(out, e),
        }
    }
}

/// What unmapping a buffer does.
pub open spec fn buffer_unmapped<D: VirtioMediaDevice>(
    v: RunnerView<D, D::Session>,
    addr: u64,
    out: Seq<u8>,
    answer: Result<(), i32>,
    v2: RunnerView<D, D::Session>,
    out2: Seq<u8>,
) -> bool {
    &&& v.device.unmaps(addr, &v2.device, answer)
    &&& v2 == (RunnerView { device: v2.device, ..v })
    &&& out2 == put_header(
        out,
        match answer {
            Ok(_) => 0,
            Err(e) => e,
        },
    )
}

/// Whether a command is the one that opens a session.
pub open spec fn opens_a_session(input: Seq<u8>) -> bool {
    input.len() >= 8 && le32(input, 0) == VIRTIO_MEDIA_CMD_OPEN
}

/// What a command does. One that is cut short is `EINVAL`, one that does not exist `ENOTTY`.
pub open spec fn command_handled<D: VirtioMediaDevice>(
    v: RunnerView<D, D::Session>,
    input: Seq<u8>,
    out: Seq<u8>,
    v2: RunnerView<D, D::Session>,
    out2: Seq<u8>,
) -> bool {
    let cut_short = v2 == v && out2 == put_header(out, EINVAL);
    let cmd = le32(input, 0);
    let body = input.skip(8);
    if input.len() < 8 {
        cut_short
    } else if opens_a_session(input) {
        exists|
            device: D,
            answer: Result<D::Session, i32>,
            fd: Option<i32>,
            added: Result<(), i32>,
        | #[trigger]
            session_opened(v, out, device, answer, fd, added, v2, out2)
    } else if cmd == VIRTIO_MEDIA_CMD_CLOSE {
        if body.len() < 8 {
            cut_short
        } else {
            out2 == out && exists|fd: Option<i32>| #[trigger]
                session_closed(v, le32(body, 0) as u32, fd, v2)
        }
    } else if cmd == VIRTIO_MEDIA_CMD_IOCTL {
        if body.len() < 8 {
            cut_short
        } else {
            exists|session: D::Session| #[trigger]
                ioctl_performed(
                    v,
                    le32(body, 0) as u32,
                    le32(body, 4) as u32,
                    body.skip(8),
                    out,
                    session,
                    v2,
                    out2,
                )
        }
    } else if cmd == VIRTIO_MEDIA_CMD_MMAP {
        if body.len() < 12 {
            cut_short
        } else {
            exists|session: D::Session, answer: Result<(u64, u64), i32>| #[trigger]
                buffer_mapped(
                    v,
                    le32(body, 0) as u32,
                    le32(body, 4) as u32,
                    le32(body, 8) as u32,
                    out,
                    session,
                    answer,
                    v2,
                    out2,
                )
        }
    } else if cmd == VIRTIO_MEDIA_CMD_MUNMAP {
        if body.len() < 8 {
            cut_short
        } else {
            exists|answer: Result<(), i32>| #[trigger]
                buffer_unmapped(v, le64(body, 0) as u64, out, answer, v2, out2)
        }
    } else {
        v2 == v && out2 == put_header(out, ENOTTY)
    }
}

/// The id of a new session is no other session's, and is not given out again: the ids of later
/// sessions are greater.
pub proof fn session_ids_are_not_reused<D: VirtioMediaDevice>(
    v: RunnerView<D, D::Session>,
    input: Seq<u8>,
    out: Seq<u8>,
    v2: RunnerView<D, D::Session>,
    out2: Seq<u8>,
)
    requires
        runs(v),
        opens_a_session(input) ==> v.next < u32::MAX,
        command_handled(v, input, out, v2, out2),
    ensures
        v.next <= v2.next,
        forall|id: u32| #[trigger]
            v2.sessions.contains_key(id) && !v.sessions.contains_key(id) ==> id == v.next && v.next
                < v2.next,
{
}

/// A command that names a session leaves every other session as it was, and a closed session is
/// gone.
pub proof fn a_command_concerns_one_session<D: VirtioMediaDevice>(
    v: RunnerView<D, D::Session>,
    input: Seq<u8>,
    out: Seq<u8>,
    v2: RunnerView<D, D::Session>,
    out2: Seq<u8>,
)
    requires
        runs(v),
        input.len() >= 16,
        VIRTIO_MEDIA_CMD_CLOSE <= le32(input, 0) <= VIRTIO_MEDIA_CMD_MMAP,
        command_handled(v, input, out, v2, out2),
    ensures
        forall|id: u32|
            id != le32(input, 8) ==> (#[trigger] v2.sessions.contains_key(id)
                <==> v.sessions.contains_key(id)) && v2.sessions[id] == v.sessions[id],
        le32(input, 0) == VIRTIO_MEDIA_CMD_CLOSE ==> !v2.sessions.contains_key(
            le32(input, 8) as u32,
        ),
{
    let body = input.skip(8);
    assert(le32(body, 0) == le32(input, 8));
    assert(0 <= le32(body, 0) <= u32::MAX);
}

/// Whether a session is not polled when it is closed: it has no descriptor, or the call just before
/// took its descriptor from the poller, or the poller had refused it.
pub open spec fn closed_unpolled<S: VirtioMediaDeviceSession>(
    calls: Seq<SessionCall<S>>,
    k: int,
    session: S,
) -> bool {
    ||| session.polls(None)
    ||| k > 0 && match calls[k - 1] {
        SessionCall::Poll { call: PollCall::Remove { fd } } => session.polls(Some(fd)),
        SessionCall::Poll { call: PollCall::Add { fd, answer: Err(_), .. } } => session.polls(
            Some(fd),
        ),
        _ => false,
    }
}

/// Whether no session is polled when it is closed.
pub open spec fn orderly<S: VirtioMediaDeviceSession>(calls: Seq<SessionCall<S>>) -> bool {
    forall|k: int|
        0 <= k < calls.len() ==> match #[trigger] calls[k] {
            SessionCall::Close { session } => closed_unpolled(calls, k, session),
            _ => true,
        }
}

/// The device is never given a session to close whose descriptor is still polled: no command does
/// it, and nothing has at the start.
pub proof fn closed_sessions_are_not_polled<D: VirtioMediaDevice>(
    v: RunnerView<D, D::Session>,
    input: Seq<u8>,
    out: Seq<u8>,
    v2: RunnerView<D, D::Session>,
    out2: Seq<u8>,
)
    requires
        orderly(v.calls),
        command_handled(v, input, out, v2, out2),
    ensures
        orderly(v2.calls),
        orderly(Seq::<SessionCall<D::Session>>::empty()),
{
    let n = v.calls.len() as int;
    assert(continued(v.calls, v2.calls));
    assert forall|k: int| 0 <= k < v2.calls.len() implies match #[trigger] v2.calls[k] {
        SessionCall::Close { session } => closed_unpolled(v2.calls, k, session),
        _ => true,
    } by {
        if k < n {
            assert(v2.calls[k] == v.calls[k]);
            if k > 0 {
                assert(v2.calls[k - 1] == v.calls[k - 1]);
            }
        }
    }
}

/// The answer to a new session is success and its id, in the word behind the header.
pub proof fn new_sessions_are_answered_with_their_id(out: Seq<u8>, id: u32)
    ensures
        ({
            let r = put_open(out, id);
            let at = out.len() as int;
            &&& r.len() == at + 16
            &&& le32(r, at) == 0
            &&& le32(r, at + 8) == id
        }),
{
    let a = put32(out, 0);
    let h = put_header(out, 0);
    after_put32(out, 0);
    assert(put_signed(out, 0) == a);
    after_put32(a, 0);
    after_put32(h, id);
    after_put32(put32(h, id), 0);
}

/// The answer to a mapping is success, the address the guest sees it at and its length, as 64-bit
/// numbers behind the header.
pub proof fn mappings_are_answered_with_their_place(out: Seq<u8>, addr: u64, len: u64)
    ensures
        ({
            let r = put_mmap(out, addr, len);
            let at = out.len() as int;
            &&& r.len() == at + 24
            &&& le32(r, at) == 0
            &&& le64(r, at + 8) == addr
            &&& le64(r, at + 16) == len
        }),
{
    let a = put32(out, 0);
    let h = put_header(out, 0);
    after_put32(out, 0);
    assert(put_signed(out, 0) == a);
    after_put32(a, 0);
    after_put64(h, addr);
    after_put64(put64(h, addr), len);
}

/// A command is named by its first word. The session it is for is named behind the header; an ioctl
/// by the word behind that, with its structure; a mapping by its flags and the offset; and what is
/// unmapped by its address.
pub proof fn commands_are_read_as_sent<D: VirtioMediaDevice>(
    v: RunnerView<D, D::Session>,
    input: Seq<u8>,
    out: Seq<u8>,
    v2: RunnerView<D, D::Session>,
    out2: Seq<u8>,
)
    requires
        input.len() >= 20,
        command_handled(v, input, out, v2, out2),
    ensures
        le32(input, 0) == 1 ==> exists|device: D, answer: Result<D::Session, i32>|
            #![trigger v.device.opens(v.next, &device, answer)]
            v.device.opens(v.next, &device, answer) && match answer {
                Err(e) => v2.sessions == v.sessions && out2 == put_header(out, e),
                Ok(session) => v2.sessions == v.sessions || (v2.sessions == v.sessions.insert(
                    v.next,
                    session,
                ) && v2.next == (v.next + 1) as u32 && out2 == put_open(out, v.next)),
            },
        le32(input, 0) == 2 ==> {
            let id = le32(input, 8) as u32;
            &&& out2 == out
            &&& v.sessions.contains_key(id) ==> v.device.closes(&v.sessions[id], &v2.device)
                && v2.sessions == v.sessions.remove(id)
            &&& !v.sessions.contains_key(id) ==> v2 == v
        },
        le32(input, 0) == 3 ==> {
            let id = le32(input, 8) as u32;
            let known = crate::ioctl::codes::V4l2Ioctl::of(le32(input, 12) as u32);
            &&& !v.sessions.contains_key(id) ==> v2 == v && out2 == put_header(out, EINVAL)
            &&& v.sessions.contains_key(id) && known is None ==> v2 == v && out2 == put_header(
                out,
                ENOTTY,
            )
            &&& v.sessions.contains_key(id) && known is Some ==> v.device.performs(
                &v.sessions[id],
                known->0,
                input.skip(16),
                out,
                &v2.device,
                &v2.sessions[id],
                out2,
            )
        },
        le32(input, 0) == 4 ==> {
            let id = le32(input, 8) as u32;
            &&& !v.sessions.contains_key(id) ==> v2 == v && out2 == put_header(out, EINVAL)
            &&& v.sessions.contains_key(id) ==> exists|answer: Result<(u64, u64), i32>| #[trigger]
                v.device.maps(
                    &v.sessions[id],
                    le32(input, 12) as u32,
                    le32(input, 16) as u32,
                    &v2.device,
                    &v2.sessions[id],
                    answer,
                ) && out2 == (match answer {
                    Ok((addr, len)) => put_mmap(out, addr, len),
                    Err(e) => put_header(out, e),
                })
        },
        le32(input, 0) == 5 ==> exists|answer: Result<(), i32>| #[trigger]
            v.device.unmaps(le64(input, 8) as u64, &v2.device, answer) && out2 == put_header(
                out,
                match answer {
                    Ok(_) => 0,
                    Err(e) => e,
                },
            ),
        le32(input, 0) == 0 || le32(input, 0) > 5 ==> v2 == v && out2 == put_header(out, ENOTTY),
{
    let body = input.skip(8);
    assert(body =~= input.subrange(8, 8 + body.len() as int));
    fields_of_a_part(input, 8, body);
    assert(le32(body, 0) == le32(input, 8) && le32(body, 4) == le32(input, 12));
    assert(le32(body, 8) == le32(input, 16));
    assert(le64(body, 0) == le64(input, 8));
    assert(body.skip(8) =~= input.skip(16));
    assert(0 <= le32(input, 8) <= u32::MAX && 0 <= le32(input, 12) <= u32::MAX);
    if le32(input, 0) == 1 {
        let (device, answer, fd, added) = choose|
            device: D,
            answer: Result<D::Session, i32>,
            fd: Option<i32>,
            added: Result<(), i32>,
        | #[trigger]
            session_opened(v, out, device, answer, fd, added, v2, out2);
        assert(v.device.opens(v.next, &device, answer));
    } else if le32(input, 0) == 2 {
        let fd = choose|fd: Option<i32>| #[trigger]
            session_closed(v, le32(body, 0) as u32, fd, v2);
    } else if le32(input, 0) == 3 {
        let session = choose|session: D::Session| #[trigger]
            ioctl_performed(
                v,
                le32(body, 0) as u32,
                le32(body, 4) as u32,
                body.skip(8),
                out,
                session,
                v2,
                out2,
            );
    } else if le32(input, 0) == 4 {
        let (session, answer) = choose|session: D::Session, answer: Result<(u64, u64), i32>|
            #[trigger]
            buffer_mapped(
                v,
                le32(body, 0) as u32,
                le32(body, 4) as u32,
                le32(body, 8) as u32,
                out,
                session,
                answer,
                v2,
                out2,
            );
        let id = le32(input, 8) as u32;
        if v.sessions.contains_key(id) {
            assert(v2.sessions[id] == session);
        }
    } else if le32(input, 0) == 5 {
        let answer = choose|answer: Result<(), i32>| #[trigger]
            buffer_unmapped(v, le64(body, 0) as u64, out, answer, v2, out2);
        assert(v.device.unmaps(le64(input, 8) as u64, &v2.device, answer));
    }
}

/// A session that has a descriptor is polled by it, under its own id, from the moment it is there;
/// one that cannot be polled is closed again and is the poller's errno, and its id is still free.
pub proof fn new_sessions_are_polled<D: VirtioMediaDevice>(
    v: RunnerView<D, D::Session>,
    input: Seq<u8>,
    out: Seq<u8>,
    v2: RunnerView<D, D::Session>,
    out2: Seq<u8>,
)
    requires
        input.len() >= 8,
        le32(input, 0) == 1,
        command_handled(v, input, out, v2, out2),
    ensures
        ({
            let n = v.calls.len() as int;
            &&& v2.calls.len() > n
            &&& v2.calls[n] is Open
            &&& v2.calls[n]->Open_id == v.next
            &&& v2.calls[n]->Open_answer is Err ==> v2.calls.len() == n + 1 && v2.sessions
                == v.sessions && v2.next == v.next
            &&& v2.calls[n]->Open_answer matches Ok(session) ==> {
                ||| session.polls(None) && v2.calls.len() == n + 1 && v2.sessions
                    == v.sessions.insert(v.next, session) && v2.next == (v.next + 1) as u32
                ||| v2.calls.len() > n + 1 && v2.calls[n + 1] is Poll && match v2.calls[n
                    + 1]->call {
                    PollCall::Add { fd, session_id, answer: Ok(_) } => session.polls(Some(fd))
                        && session_id == v.next && v2.calls.len() == n + 2 && v2.sessions
                        == v.sessions.insert(v.next, session) && v2.next == (v.next + 1) as u32,
                    PollCall::Add { fd, session_id, answer: Err(e) } => session.polls(Some(fd))
                        && session_id == v.next && v2.calls.len() == n + 3 && v2.calls[n + 2] == (
                    SessionCall::Close { session }) && v2.sessions == v.sessions && v2.next
                        == v.next && out2 == put_header(out, e),
                    _ => false,
                }
            }
        }),
{
    let (device, answer, fd, added) = choose|
        device: D,
        answer: Result<D::Session, i32>,
        fd: Option<i32>,
        added: Result<(), i32>,
    | #[trigger]
        session_opened(v, out, device, answer, fd, added, v2, out2);
    assert(added is Ok ==> added->Ok_0 == ());
}

/// A command that is cut short is `EINVAL`, and nothing happens.
pub proof fn short_commands_are_refused<D: VirtioMediaDevice>(
    v: RunnerView<D, D::Session>,
    input: Seq<u8>,
    out: Seq<u8>,
    v2: RunnerView<D, D::Session>,
    out2: Seq<u8>,
)
    requires
        input.len() < 8 || (2 <= le32(input, 0) <= 5 && input.len() < 16) || (le32(input, 0) == 4
            && input.len() < 20),
        command_handled(v, input, out, v2, out2),
    ensures
        v2 == v,
        out2 == put_header(out, EINVAL),
{
}

impl<D: VirtioMediaDevice, P: SessionPoller> VirtioMediaDeviceRunner<D, P> {
    /// Whether the sessions are in order, and the poller was asked for just what is on record.
    pub open spec fn wf(&self) -> bool {
        &&& runs(self@)
        &&& self.poller.faithful()
        &&& polls_of(self.calls@) == self.poller.calls@
    }

    /// A device without sessions.
    pub fn new(device: D, poller: P) -> (r: Self)
        requires
            device.ready(),
        ensures
            r.wf(),
            r@.device == device,
            r@.sessions == Map::<u32, D::Session>::empty(),
            r@.calls == Seq::<SessionCall<D::Session>>::empty(),
            r@.next == 0,
    {
        broadcast use vstd::std_specs::hash::group_hash_axioms;

        VirtioMediaDeviceRunner {
            device,
            poller: PollPort::new(poller),
            sessions: HashMap::new(),
            session_id_counter: 0,
            calls: Ghost(Seq::empty()),
        }
    }

    /// The device.
    pub fn into_device(self) -> (r: D)
        ensures
            r == self.device,
    {
        self.device
    }

    /// Asks the device for a session.
    fn open_session(&mut self, id: u32) -> (r: Result<D::Session, i32>)
        requires
            old(self).device.ready(),
            old(self).poller.faithful(),
            polls_of(old(self).calls@) == old(self).poller.calls@,
        ensures
            final(self).device.ready(),
            old(self).device.opens(id, &final(self).device, r),
            r matches Ok(s) ==> final(self).device.can_serve(&s) && D::id_of(&s) == id,
            forall|t: D::Session| #[trigger]
                old(self).device.can_serve(&t) && D::id_of(&t) != id
                    ==> final(self).device.can_serve(&t),
            final(self).calls@ == old(self).calls@.push(SessionCall::Open { id, answer: r }),
            final(self).poller.faithful(),
            polls_of(final(self).calls@) == final(self).poller.calls@,
            continued(old(self).poller.path@, final(self).poller.path@),
            final(self).sessions == old(self).sessions,
            final(self).session_id_counter == old(self).session_id_counter,
    {
        let r = self.device.new_session(id);
        proof {
            one_more_call(self.calls@, SessionCall::Open { id, answer: r });
        }
        self.calls = Ghost(self.calls@.push(SessionCall::Open { id, answer: r }));
        r
    }

    /// Has the poller wait for a session.
    fn poll_session(&mut self, fd: i32, session_id: u32) -> (r: Result<(), i32>)
        requires
            old(self).poller.faithful(),
            polls_of(old(self).calls@) == old(self).poller.calls@,
        ensures
            final(self).device == old(self).device,
            final(self).calls@ == old(self).calls@.push(
                SessionCall::Poll { call: PollCall::Add { fd, session_id, answer: r } },
            ),
            final(self).poller.faithful(),
            polls_of(final(self).calls@) == final(self).poller.calls@,
            continued(old(self).poller.path@, final(self).poller.path@),
            final(self).sessions == old(self).sessions,
            final(self).session_id_counter == old(self).session_id_counter,
    {
        let r = self.poller.add_session(fd, session_id);
        let ghost call = SessionCall::<D::Session>::Poll {
            call: PollCall::Add { fd, session_id, answer: r },
        };
        proof {
            one_more_call(self.calls@, call);
        }
        self.calls = Ghost(self.calls@.push(call));
        r
    }

    /// Has the poller wait for a session no longer.
    fn unpoll_session(&mut self, fd: i32)
        requires
            old(self).poller.faithful(),
            polls_of(old(self).calls@) == old(self).poller.calls@,
        ensures
            final(self).device == old(self).device,
            final(self).calls@ == old(self).calls@.push(
                SessionCall::Poll { call: PollCall::Remove { fd } },
            ),
            final(self).poller.faithful(),
            polls_of(final(self).calls@) == final(self).poller.calls@,
            continued(old(self).poller.path@, final(self).poller.path@),
            final(self).sessions == old(self).sessions,
            final(self).session_id_counter == old(self).session_id_counter,
    {
        self.poller.remove_session(fd);
        let ghost call = SessionCall::<D::Session>::Poll { call: PollCall::Remove { fd } };
        proof {
            one_more_call(self.calls@, call);
        }
        self.calls = Ghost(self.calls@.push(call));
    }

    /// Gives the device a session to close.
    fn close_session(&mut self, session: D::Session)
        requires
            old(self).device.ready(),
            old(self).device.can_serve(&session),
            old(self).poller.faithful(),
            polls_of(old(self).calls@) == old(self).poller.calls@,
        ensures
            final(self).device.ready(),
            old(self).device.closes(&session, &final(self).device),
            forall|t: D::Session| #[trigger]
                old(self).device.can_serve(&t) && D::id_of(&t) != D::id_of(&session)
                    ==> final(self).device.can_serve(&t),
            final(self).calls@ == old(self).calls@.push(SessionCall::Close { session }),
            final(self).poller.faithful(),
            polls_of(final(self).calls@) == final(self).poller.calls@,
            continued(old(self).poller.path@, final(self).poller.path@),
            final(self).sessions == old(self).sessions,
            final(self).session_id_counter == old(self).session_id_counter,
    {
        let ghost call = SessionCall::Close { session };
        self.device.close_session(session);
        proof {
            one_more_call(self.calls@, call);
        }
        self.calls = Ghost(self.calls@.push(call));
    }

    fn open(&mut self, writer: &mut Vec<u8>)
        requires
            old(self).wf(),
            old(self)@.next < u32::MAX,
        ensures
            final(self).wf(),
            continued(old(self).poller.path@, final(self).poller.path@),
            exists|
                device: D,
                answer: Result<D::Session, i32>,
                fd: Option<i32>,
                added: Result<(), i32>,
            | #[trigger]
                session_opened(
                    old(self)@,
                    old(writer)@,
                    device,
                    answer,
                    fd,
                    added,
                    final(self)@,
                    final(writer)@,
                ),
    {
        broadcast use vstd::std_specs::hash::group_hash_axioms;

        let ghost v = self@;
        let ghost out = writer@;
        let id: u32 = self.session_id_counter;
        let answer = self.open_session(id);
        let ghost given = answer;
        let ghost device = self.device;
        match answer {
            Err(e) => {
                write_header(writer, e);
                assert(session_opened(v, out, device, given, None, Ok(()), self@, writer@));
            },
            Ok(session) => {
                let fd: Option<i32> = session.poll_fd();
                let added: Result<(), i32> = match fd {
                    Some(fd) => self.poll_session(fd, id),
                    None => Ok(()),
                };
                match added {
                    Err(e) => {
                        self.close_session(session);
                        write_header(writer, e);
                    },
                    Ok(_) => {
                        self.sessions.insert(id, session);
                        self.session_id_counter = id + 1;
                        write_header(writer, 0);
                        push_u32(writer, id);
                        push_u32(writer, 0);
                    },
                }
                assert(session_opened(v, out, device, given, fd, added, self@, writer@));
            },
        }
    }

    fn close(&mut self, id: u32)
        requires
            old(self).wf(),
        ensures
            final(self).wf(),
            continued(old(self).poller.path@, final(self).poller.path@),
            exists|fd: Option<i32>| #[trigger]
                session_closed(old(self)@, id, fd, final(self)@),
    {
        broadcast use vstd::std_specs::hash::group_hash_axioms;

        let ghost v = self@;
        match self.sessions.remove(&id) {
            Some(session) => {
                assert(v.sessions.contains_key(id) && session == v.sessions[id]);
                let fd: Option<i32> = session.poll_fd();
                if let Some(fd) = fd {
                    self.unpoll_session(fd);
                }
                self.close_session(session);
                assert(session_closed(v, id, fd, self@));
            },
            None => {
                assert(self@.sessions =~= v.sessions);
                assert(session_closed(v, id, None, self@));
            },
        }
    }

    fn ioctl(&mut self, id: u32, code: u32, reader: &mut ChainReader, writer: &mut Vec<u8>)
        requires
            old(self).wf(),
            old(reader).wf(),
        ensures
            final(self).wf(),
            continued(old(self).poller.path@, final(self).poller.path@),
            exists|session: D::Session| #[trigger]
                ioctl_performed(
                    old(self)@,
                    id,
                    code,
                    old(reader).rest(),
                    old(writer)@,
                    session,
                    final(self)@,
                    final(writer)@,
                ),
    {
        broadcast use vstd::std_specs::hash::group_hash_axioms;

        let ghost v = self@;
        let ghost out = writer@;
        let ghost input = reader.rest();
        match self.sessions.remove(&id) {
            Some(session) => {
                assert(v.sessions.contains_key(id) && session == v.sessions[id]);
                let mut session = session;
                match V4l2Ioctl::n(code) {
                    Some(ioctl) => {
                        self.device.do_ioctl(&mut session, ioctl, reader, writer);
                        let ghost after = session;
                        self.sessions.insert(id, session);
                        assert(self@.sessions =~= v.sessions.insert(id, after));
                        assert(ioctl_performed(v, id, code, input, out, after, self@, writer@));
                    },
                    None => {
                        let ghost after = session;
                        self.sessions.insert(id, session);
                        write_header(writer, ENOTTY);
                        assert(self@.sessions =~= v.sessions);
                        assert(ioctl_performed(v, id, code, input, out, after, self@, writer@));
                    },
                }
            },
            None => {
                write_header(writer, EINVAL);
                assert(self@.sessions =~= v.sessions);
                assert(ioctl_performed(
                    v,
                    id,
                    code,
                    input,
                    out,
                    v.sessions[id],
                    self@,
                    writer@,
                ));
            },
        }
    }

    fn mmap(&mut self, id: u32, flags: u32, offset: u32, writer: &mut Vec<u8>)
        requires
            old(self).wf(),
        ensures
            final(self).wf(),
            continued(old(self).poller.path@, final(self).poller.path@),
            exists|session: D::Session, answer: Result<(u64, u64), i32>| #[trigger]
                buffer_mapped(
                    old(self)@,
                    id,
                    flags,
                    offset,
                    old(writer)@,
                    session,
                    answer,
                    final(self)@,
                    final(writer)@,
                ),
    {
        broadcast use vstd::std_specs::hash::group_hash_axioms;

        let ghost v = self@;
        let ghost out = writer@;
        match self.sessions.remove(&id) {
            Some(session) => {
                assert(v.sessions.contains_key(id) && session == v.sessions[id]);
                let mut session = session;
                let answer = self.device.do_mmap(&mut session, flags, offset);
                let ghost after = session;
                self.sessions.insert(id, session);
                match answer {
                    Ok((addr, len)) => {
                        write_header(writer, 0);
                        push_u64(writer, addr);
                        push_u64(writer, len);
                    },
                    Err(e) => write_header(writer, e),
                }
                assert(self@.sessions =~= v.sessions.insert(id, after));
                assert(buffer_mapped(v, id, flags, offset, out, after, answer, self@, writer@));
            },
            None => {
                write_header(writer, EINVAL);
                assert(self@.sessions =~= v.sessions);
                assert(buffer_mapped(
                    v,
                    id,
                    flags,
                    offset,
                    out,
                    v.sessions[id],
                    Err(EINVAL),
                    self@,
                    writer@,
                ));
            },
        }
    }

    /// Handles one command of the guest driver.
    ///
    /// `reader` and `writer` are the device-readable and device-writable sections of the
    /// descriptor chain that holds the command. All errors are for the guest. Session ids are not
    /// recycled: no more sessions can be opened than there are ids.
    pub fn handle_command(&mut self, reader: &mut ChainReader, writer: &mut Vec<u8>)
        requires
            old(self).wf(),
            old(reader).wf(),
            opens_a_session(old(reader).rest()) ==> old(self)@.next < u32::MAX,
        ensures
            final(self).wf(),
            continued(old(self).poller.path@, final(self).poller.path@),
            command_handled(
                old(self)@,
                old(reader).rest(),
                old(writer)@,
                final(self)@,
                final(writer)@,
            ),
    {
        let ghost input = reader.rest();
        let ghost body = input.skip(8);
        let header: &[u8] = match reader.take(8) {
            Some(header) => header,
            None => {
                write_header(writer, EINVAL);
                return;
            },
        };
        proof {
            assert(header@ =~= input.subrange(0, 8));
            fields_of_a_part(input, 0, header@);
        }
        let cmd: u32 = read_u32(header, 0);
        if cmd == VIRTIO_MEDIA_CMD_OPEN {
            self.open(writer);
        } else if cmd == VIRTIO_MEDIA_CMD_CLOSE {
            match reader.take(8) {
                Some(b) => {
                    proof {
                        assert(b@ =~= body.subrange(0, 8));
                        fields_of_a_part(body, 0, b@);
                    }
                    let id: u32 = read_u32(b, 0);
                    assert(id == le32(body, 0) as u32);
                    self.close(id);
                },
                None => write_header(writer, EINVAL),
            }
        } else if cmd == VIRTIO_MEDIA_CMD_IOCTL {
            match reader.take(8) {
                Some(b) => {
                    proof {
                        assert(b@ =~= body.subrange(0, 8));
                        fields_of_a_part(body, 0, b@);
                    }
                    let id: u32 = read_u32(b, 0);
                    let code: u32 = read_u32(b, 4);
                    assert(id == le32(body, 0) as u32);
                    assert(code == le32(body, 4) as u32);
                    self.ioctl(id, code, reader, writer);
                },
                None => write_header(writer, EINVAL),
            }
        } else if cmd == VIRTIO_MEDIA_CMD_MMAP {
            match reader.take(12) {
                Some(b) => {
                    proof {
                        assert(b@ =~= body.subrange(0, 12));
                        fields_of_a_part(body, 0, b@);
                    }
                    let id: u32 = read_u32(b, 0);
                    let flags: u32 = read_u32(b, 4);
                    let offset: u32 = read_u32(b, 8);
                    assert(id == le32(body, 0) as u32);
                    assert(flags == le32(body, 4) as u32);
                    assert(offset == le32(body, 8) as u32);
                    self.mmap(id, flags, offset, writer);
                },
                None => write_header(writer, EINVAL),
            }
        } else if cmd == VIRTIO_MEDIA_CMD_MUNMAP {
            match reader.take(8) {
                Some(b) => {
                    let ghost v = self@;
                    let ghost out = writer@;
                    proof {
                        assert(b@ =~= body.subrange(0, 8));
                        fields_of_a_part(body, 0, b@);
                    }
                    let addr: u64 = read_u64(b, 0);
                    assert(addr == le64(body, 0) as u64);
                    let answer = self.device.do_munmap(addr);
                    match answer {
                        Ok(_) => write_header(writer, 0),
                        Err(e) => write_header(writer, e),
                    }
                    assert(buffer_unmapped(v, addr, out, answer, self@, writer@));
                },
                None => write_header(writer, EINVAL),
            }
        } else {
            write_header(writer, ENOTTY);
        }
    }
}

} // verus!
