//! What a virtio-media device is, as the code that runs it sees it.
use vstd::prelude::*;

use crate::bytes::ChainReader;
use crate::ioctl::codes::V4l2Ioctl;

verus! {

/// A session of a device.
pub trait VirtioMediaDeviceSession {
    /// Whether the descriptor to listen to is the given one.
    open spec fn polls(&self, fd: Option<i32>) -> bool {
        true
    }

    /// The descriptor to listen to in order to know when a session event has occurred: it is
    /// readable while the device's `process_events` should be called. A session without one need
    /// not be polled.
    fn poll_fd(&self) -> (r: Option<i32>)
        ensures
            self.polls(r),
    ;
}

/// A virtio-media device.
///
/// The spec functions say what an implementation does; those with a body hold of anything where it
/// does not say. A session carries the id it was opened with. What is done for one session leaves
/// every other one it serves as it was.
pub trait VirtioMediaDevice {
    type Session: VirtioMediaDeviceSession;

    /// Whether the device is consistent.
    open spec fn ready(&self) -> bool {
        true
    }

    /// Whether the device can serve a session.
    open spec fn can_serve(&self, session: &Self::Session) -> bool {
        true
    }

    /// The id a session was opened with.
    spec fn id_of(session: &Self::Session) -> u32;

    /// What opening a session does.
    open spec fn opens(&self, id: u32, after: &Self, r: Result<Self::Session, i32>) -> bool {
        true
    }

    /// What closing a session does.
    open spec fn closes(&self, session: &Self::Session, after: &Self) -> bool {
        true
    }

    /// What an ioctl does: `input` is what the guest sent with it, and `out` becomes `out2`.
    open spec fn performs(
        &self,
        session: &Self::Session,
        ioctl: V4l2Ioctl,
        input: Seq<u8>,
        out: Seq<u8>,
        after: &Self,
        session2: &Self::Session,
        out2: Seq<u8>,
    ) -> bool {
        true
    }

    /// What mapping a buffer does.
    open spec fn maps(
        &self,
        session: &Self::Session,
        flags: u32,
        offset: u32,
        after: &Self,
        session2: &Self::Session,
        r: Result<(u64, u64), i32>,
    ) -> bool {
        true
    }

    /// What unmapping a buffer does.
    open spec fn unmaps(&self, addr: u64, after: &Self, r: Result<(), i32>) -> bool {
        true
    }

    /// What processing a session's events does.
    open spec fn processes(
        &self,
        session: &Self::Session,
        after: &Self,
        session2: &Self::Session,
        r: Result<(), i32>,
    ) -> bool {
        true
    }

    /// Opens a session whose id is `session_id`, or the errno for the guest.
    fn new_session(&mut self, session_id: u32) -> (r: Result<Self::Session, i32>)
        requires
            old(self).ready(),
        ensures
            final(self).ready(),
            old(self).opens(session_id, final(self), r),
            r matches Ok(s) ==> final(self).can_serve(&s) && Self::id_of(&s) == session_id,
            forall|t: Self::Session| #[trigger]
                old(self).can_serve(&t) && Self::id_of(&t) != session_id ==>
                    final(self).can_serve(&t),
    ;

    /// Closes a session.
    fn close_session(&mut self, session: Self::Session)
        requires
            old(self).ready(),
            old(self).can_serve(&session),
        ensures
            final(self).ready(),
            old(self).closes(&session, final(self)),
            forall|t: Self::Session| #[trigger]
                old(self).can_serve(&t) && Self::id_of(&t) != Self::id_of(&session) ==>
                    final(self).can_serve(&t),
    ;

    /// Performs an ioctl and writes the response. The recommended implementation is
    /// [`crate::ioctl::handler::virtio_media_dispatch_ioctl`] on an implementation of
    /// [`crate::ioctl::handler::VirtioMediaIoctlHandler`].
    fn do_ioctl(
        &mut self,
        session: &mut Self::Session,
        ioctl: V4l2Ioctl,
        reader: &mut ChainReader,
        writer: &mut Vec<u8>,
    )
        requires
            old(self).ready(),
            old(self).can_serve(old(session)),
            old(reader).wf(),
        ensures
            final(self).ready(),
            final(self).can_serve(final(session)),
            Self::id_of(final(session)) == Self::id_of(old(session)),
            old(self).performs(
                old(session),
                ioctl,
                old(reader).rest(),
                old(writer)@,
                final(self),
                final(session),
                final(writer)@,
            ),
            forall|t: Self::Session| #[trigger]
                old(self).can_serve(&t) && Self::id_of(&t) != Self::id_of(old(session)) ==>
                    final(self).can_serve(&t),
    ;

    /// Maps the buffer at `offset` into the guest: the address the guest sees it at and its
    /// length, or the errno for the guest.
    fn do_mmap(&mut self, session: &mut Self::Session, flags: u32, offset: u32) -> (r: Result<
        (u64, u64),
        i32,
    >)
        requires
            old(self).ready(),
            old(self).can_serve(old(session)),
        ensures
            final(self).ready(),
            final(self).can_serve(final(session)),
            Self::id_of(final(session)) == Self::id_of(old(session)),
            old(self).maps(old(session), flags, offset, final(self), final(session), r),
            forall|t: Self::Session| #[trigger]
                old(self).can_serve(&t) && Self::id_of(&t) != Self::id_of(old(session)) ==>
                    final(self).can_serve(&t),
    ;

    /// Unmaps what the guest sees at an address, or the errno for the guest.
    fn do_munmap(&mut self, guest_addr: u64) -> (r: Result<(), i32>)
        requires
            old(self).ready(),
        ensures
            final(self).ready(),
            old(self).unmaps(guest_addr, final(self), r),
            forall|t: Self::Session| #[trigger]
                old(self).can_serve(&t) ==> final(self).can_serve(&t),
    ;

    /// Processes the events of a session whose descriptor is readable.
    fn process_events(&mut self, session: &mut Self::Session) -> (r: Result<(), i32>)
        requires
            old(self).ready(),
            old(self).can_serve(old(session)),
        ensures
            final(self).ready(),
            final(self).can_serve(final(session)),
            Self::id_of(final(session)) == Self::id_of(old(session)),
            old(self).processes(old(session), final(self), final(session), r),
            forall|t: Self::Session| #[trigger]
                old(self).can_serve(&t) && Self::id_of(&t) != Self::id_of(old(session)) ==>
                    final(self).can_serve(&t),
    ;
}

} // verus!
