//! The encoder as a virtio-media device.
use vstd::prelude::*;

use super::backend::{VideoEncoderBackend, VideoEncoderBackendSession};
use super::codec::events_processed;
use super::device::{EncoderSession, VideoEncoder};
use super::ioctls::encoder_serves;
use super::lifecycle::{buffer_mapped, closed, opened, unmapped};
use super::session::VideoEncoderSession;
use crate::bytes::ChainReader;
use crate::device::{VirtioMediaDevice, VirtioMediaDeviceSession};
use crate::host::{
    VirtioMediaBufferAllocator, VirtioMediaEventQueue, VirtioMediaGuestMemoryMapper,
    VirtioMediaHostMemoryMapper,
};
use crate::ioctl::codes::V4l2Ioctl;
use crate::ioctl::reply::IoctlReply;
use crate::ioctl::requests::Decoded;

verus! {

impl<GM, H, S: VideoEncoderBackendSession> VirtioMediaDeviceSession for VideoEncoderSession<
    GM,
    H,
    S,
> {
    open spec fn polls(&self, fd: Option<i32>) -> bool {
        fd == Some(self.wake)
    }

    fn poll_fd(&self) -> Option<i32> {
        Some(self.wake)
    }
}

impl<B, Q, M, HM, A> VirtioMediaDevice for VideoEncoder<B, Q, M, HM, A> where
    B: VideoEncoderBackend,
    Q: VirtioMediaEventQueue,
    M: VirtioMediaGuestMemoryMapper,
    A: VirtioMediaBufferAllocator,
    HM: VirtioMediaHostMemoryMapper<Handle = A::Handle>,
 {
    type Session = EncoderSession<B, M, A>;

    open spec fn ready(&self) -> bool {
        self.wf()
    }

    open spec fn can_serve(&self, session: &EncoderSession<B, M, A>) -> bool {
        self.wf() && self@.fits(session@) && session.backend.faithful()
    }

    open spec fn id_of(session: &EncoderSession<B, M, A>) -> u32 {
        session@.id
    }

    open spec fn opens(&self, id: u32, after: &Self, r: Result<EncoderSession<B, M, A>, i32>)
        -> bool {
        opened(self@, id, after@, r) && after.continues(self)
    }

    open spec fn closes(&self, session: &EncoderSession<B, M, A>, after: &Self) -> bool {
        &&& exists|s: B::Session|
            session.backend.session.stopping(&s) && after@ == #[trigger] closed(
                self@,
                session@,
                s,
            )
        &&& after.continues(self)
    }

    open spec fn performs(
        &self,
        session: &EncoderSession<B, M, A>,
        ioctl: V4l2Ioctl,
        input: Seq<u8>,
        out: Seq<u8>,
        after: &Self,
        session2: &EncoderSession<B, M, A>,
        out2: Seq<u8>,
    ) -> bool {
        &&& exists|request: Decoded, reply: IoctlReply| #[trigger]
            encoder_serves(
                self@,
                session@,
                ioctl,
                input,
                out,
                request,
                reply,
                after@,
                session2@,
                out2,
            )
        &&& after.continues(self)
        &&& session2.continues(session)
    }

    open spec fn maps(
        &self,
        session: &EncoderSession<B, M, A>,
        flags: u32,
        offset: u32,
        after: &Self,
        session2: &EncoderSession<B, M, A>,
        r: Result<(u64, u64), i32>,
    ) -> bool {
        &&& session2@ == session@
        &&& buffer_mapped(self@, session@, flags, offset, after@, r)
        &&& after.continues(self)
        &&& session2.continues(session)
    }

    open spec fn unmaps(&self, addr: u64, after: &Self, r: Result<(), i32>) -> bool {
        unmapped(self@, addr, after@, r) && after.continues(self)
    }

    open spec fn processes(
        &self,
        session: &EncoderSession<B, M, A>,
        after: &Self,
        session2: &EncoderSession<B, M, A>,
        r: Result<(), i32>,
    ) -> bool {
        &&& r is Ok
        &&& events_processed(self@, session@, after@, session2@)
        &&& after.continues(self)
        &&& session2.continues(session)
    }

    fn new_session(&mut self, session_id: u32) -> Result<EncoderSession<B, M, A>, i32> {
        VideoEncoder::new_session(self, session_id)
    }

    fn close_session(&mut self, session: EncoderSession<B, M, A>) {
        VideoEncoder::close_session(self, session)
    }

    fn do_ioctl(
        &mut self,
        session: &mut EncoderSession<B, M, A>,
        ioctl: V4l2Ioctl,
        reader: &mut ChainReader,
        writer: &mut Vec<u8>,
    ) {
        VideoEncoder::do_ioctl(self, session, ioctl, reader, writer)
    }

    fn do_mmap(&mut self, session: &mut EncoderSession<B, M, A>, flags: u32, offset: u32) -> Result<
        (u64, u64),
        i32,
    > {
        VideoEncoder::do_mmap(self, session, flags, offset)
    }

    fn do_munmap(&mut self, guest_addr: u64) -> Result<(), i32> {
        VideoEncoder::do_munmap(self, guest_addr)
    }

    fn process_events(&mut self, session: &mut EncoderSession<B, M, A>) -> Result<(), i32> {
        VideoEncoder::process_events(self, session)
    }
}

} // verus!
