//! Commands of the guest driver, on a device that records what is asked of it.
use std::cell::RefCell;
use std::rc::Rc;

use virtio_media::bytes::ChainReader;
use virtio_media::device::{VirtioMediaDevice, VirtioMediaDeviceSession};
use virtio_media::ioctl::codes::V4l2Ioctl;
use virtio_media::runner::{SessionPoller, VirtioMediaDeviceRunner};

#[derive(Clone, Debug, PartialEq)]
enum Call {
    New(u32),
    Close(u32),
    Ioctl(u32, V4l2Ioctl, Vec<u8>),
    Mmap(u32, u32, u32),
    Munmap(u64),
    Poll(i32, u32),
    Unpoll(i32),
}

type Calls = Rc<RefCell<Vec<Call>>>;

struct Session {
    id: u32,
    fd: Option<i32>,
    ioctls: u32,
}

impl VirtioMediaDeviceSession for Session {
    fn poll_fd(&self) -> Option<i32> {
        self.fd
    }
}

struct Device {
    calls: Calls,
    fail: Option<i32>,
    polled: bool,
}

impl VirtioMediaDevice for Device {
    type Session = Session;

    fn id_of(session: &Session) -> u32 {
        session.id
    }

    fn new_session(&mut self, session_id: u32) -> Result<Session, i32> {
        self.calls.borrow_mut().push(Call::New(session_id));
        match self.fail {
            Some(e) => Err(e),
            None => Ok(Session {
                id: session_id,
                fd: self.polled.then_some(100 + session_id as i32),
                ioctls: 0,
            }),
        }
    }

    fn close_session(&mut self, session: Session) {
        self.calls.borrow_mut().push(Call::Close(session.id));
    }

    fn do_ioctl(
        &mut self,
        session: &mut Session,
        ioctl: V4l2Ioctl,
        reader: &mut ChainReader,
        writer: &mut Vec<u8>,
    ) {
        session.ioctls += 1;
        self.calls.borrow_mut().push(Call::Ioctl(
            session.id,
            ioctl,
            reader.bytes[reader.pos..].to_vec(),
        ));
        writer.push(session.ioctls as u8);
    }

    fn do_mmap(
        &mut self,
        session: &mut Session,
        flags: u32,
        offset: u32,
    ) -> Result<(u64, u64), i32> {
        self.calls
            .borrow_mut()
            .push(Call::Mmap(session.id, flags, offset));
        match self.fail {
            Some(e) => Err(e),
            None => Ok((0x1_0000_0000, 0x2000)),
        }
    }

    fn do_munmap(&mut self, guest_addr: u64) -> Result<(), i32> {
        self.calls.borrow_mut().push(Call::Munmap(guest_addr));
        match self.fail {
            Some(e) => Err(e),
            None => Ok(()),
        }
    }

    fn process_events(&mut self, _: &mut Session) -> Result<(), i32> {
        Ok(())
    }
}

struct Poller {
    calls: Calls,
    fail: Rc<RefCell<Option<i32>>>,
}

impl SessionPoller for Poller {
    fn add_session(&mut self, fd: i32, session_id: u32) -> Result<(), i32> {
        self.calls.borrow_mut().push(Call::Poll(fd, session_id));
        match *self.fail.borrow() {
            Some(e) => Err(e),
            None => Ok(()),
        }
    }

    fn remove_session(&mut self, fd: i32) {
        self.calls.borrow_mut().push(Call::Unpoll(fd));
    }
}

struct Rig {
    runner: VirtioMediaDeviceRunner<Device, Poller>,
    calls: Calls,
    fail_poll: Rc<RefCell<Option<i32>>>,
}

fn rig(polled: bool) -> Rig {
    let calls = Calls::default();
    let fail_poll = Rc::new(RefCell::new(None));
    Rig {
        runner: VirtioMediaDeviceRunner::new(
            Device {
                calls: calls.clone(),
                fail: None,
                polled,
            },
            Poller {
                calls: calls.clone(),
                fail: fail_poll.clone(),
            },
        ),
        calls,
        fail_poll,
    }
}

fn command(words: &[u32]) -> Vec<u8> {
    let mut out = Vec::new();
    for (i, w) in words.iter().enumerate() {
        out.extend_from_slice(&w.to_le_bytes());
        if i == 0 {
            out.extend_from_slice(&[0; 4]);
        }
    }
    out
}

impl Rig {
    fn send(&mut self, bytes: &[u8]) -> Vec<u8> {
        let mut out = Vec::new();
        self.runner
            .handle_command(&mut ChainReader::new(bytes), &mut out);
        out
    }

    fn took(&mut self) -> Vec<Call> {
        std::mem::take(&mut *self.calls.borrow_mut())
    }
}

fn status(errno: i32) -> Vec<u8> {
    let mut out = errno.to_le_bytes().to_vec();
    out.extend_from_slice(&[0; 4]);
    out
}

fn opened(id: u32) -> Vec<u8> {
    let mut out = status(0);
    out.extend_from_slice(&id.to_le_bytes());
    out.extend_from_slice(&[0; 4]);
    out
}

#[test]
fn sessions_are_opened_and_closed() {
    let mut r = rig(true);
    assert_eq!(r.send(&command(&[1])), opened(0));
    assert_eq!(r.send(&command(&[1])), opened(1));
    assert_eq!(
        r.took(),
        vec![
            Call::New(0),
            Call::Poll(100, 0),
            Call::New(1),
            Call::Poll(101, 1)
        ]
    );
    // Closing is not answered, and a session that is not there is none to close.
    assert_eq!(r.send(&command(&[2, 0, 0])), vec![]);
    assert_eq!(r.took(), vec![Call::Unpoll(100), Call::Close(0)]);
    assert_eq!(r.send(&command(&[2, 0, 0])), vec![]);
    assert_eq!(r.took(), vec![]);
    // Ids are not reused.
    assert_eq!(r.send(&command(&[1])), opened(2));
    assert_eq!(r.runner.sessions.len(), 2);
    assert!(!r.runner.into_device().calls.borrow().is_empty());
}

#[test]
fn a_session_without_a_descriptor_is_not_polled() {
    let mut r = rig(false);
    assert_eq!(r.send(&command(&[1])), opened(0));
    assert_eq!(r.send(&command(&[2, 0, 0])), vec![]);
    assert_eq!(r.took(), vec![Call::New(0), Call::Close(0)]);
}

#[test]
fn a_session_that_cannot_be_polled_is_closed_again() {
    let mut r = rig(true);
    *r.fail_poll.borrow_mut() = Some(libc::EPERM);
    assert_eq!(r.send(&command(&[1])), status(libc::EPERM));
    assert_eq!(
        r.took(),
        vec![Call::New(0), Call::Poll(100, 0), Call::Close(0)]
    );
    assert!(r.runner.sessions.is_empty());
    // The id was not used up.
    *r.fail_poll.borrow_mut() = None;
    assert_eq!(r.send(&command(&[1])), opened(0));
}

#[test]
fn a_session_the_device_refuses_is_the_devices_errno() {
    let mut r = rig(true);
    r.runner.device.fail = Some(libc::EBUSY);
    assert_eq!(r.send(&command(&[1])), status(libc::EBUSY));
    assert_eq!(r.took(), vec![Call::New(0)]);
    assert!(r.runner.sessions.is_empty());
}

#[test]
fn ioctls_reach_their_session() {
    let mut r = rig(false);
    r.send(&command(&[1]));
    r.send(&command(&[1]));
    r.took();
    // The session keeps what the device did to it.
    assert_eq!(r.send(&command(&[3, 1, 18, 0xabcd])), vec![1]);
    assert_eq!(r.send(&command(&[3, 1, 18])), vec![2]);
    assert_eq!(r.send(&command(&[3, 0, 19])), vec![1]);
    assert_eq!(
        r.took(),
        vec![
            Call::Ioctl(1, V4l2Ioctl::VIDIOC_STREAMON, vec![0xcd, 0xab, 0, 0]),
            Call::Ioctl(1, V4l2Ioctl::VIDIOC_STREAMON, vec![]),
            Call::Ioctl(0, V4l2Ioctl::VIDIOC_STREAMOFF, vec![]),
        ]
    );
    // No such session, no such ioctl; the session is looked at first.
    assert_eq!(r.send(&command(&[3, 7, 18])), status(libc::EINVAL));
    assert_eq!(r.send(&command(&[3, 1, 1])), status(libc::ENOTTY));
    assert_eq!(r.send(&command(&[3, 7, 1])), status(libc::EINVAL));
    assert_eq!(r.took(), vec![]);
    assert_eq!(r.runner.sessions.len(), 2);
}

#[test]
fn buffers_are_mapped_and_unmapped() {
    let mut r = rig(false);
    r.send(&command(&[1]));
    r.took();
    let mut mapped = status(0);
    mapped.extend_from_slice(&0x1_0000_0000u64.to_le_bytes());
    mapped.extend_from_slice(&0x2000u64.to_le_bytes());
    assert_eq!(r.send(&command(&[4, 0, 1, 0x3000])), mapped);
    assert_eq!(r.send(&command(&[4, 9, 1, 0x3000])), status(libc::EINVAL));
    assert_eq!(r.send(&command(&[5, 0x1000, 2])), status(0));
    r.runner.device.fail = Some(libc::ENOENT);
    assert_eq!(r.send(&command(&[4, 0, 0, 1])), status(libc::ENOENT));
    assert_eq!(r.send(&command(&[5, 3, 0])), status(libc::ENOENT));
    assert_eq!(
        r.took(),
        vec![
            Call::Mmap(0, 1, 0x3000),
            Call::Munmap(0x2_0000_1000),
            Call::Mmap(0, 0, 1),
            Call::Munmap(3),
        ]
    );
}

#[test]
fn commands_cut_short_and_unknown_ones_do_nothing() {
    let mut r = rig(true);
    r.send(&command(&[1]));
    r.took();
    for (words, len) in [
        (vec![1], 7),
        (vec![2, 0, 0], 15),
        (vec![3, 0, 18], 15),
        (vec![4, 0, 1, 0], 19),
        (vec![5, 0, 0], 15),
        (vec![], 0),
    ] {
        assert_eq!(r.send(&command(&words)[..len]), status(libc::EINVAL));
    }
    for cmd in [0, 6, u32::MAX] {
        assert_eq!(r.send(&command(&[cmd, 0, 0, 0])), status(libc::ENOTTY));
    }
    assert_eq!(r.took(), vec![]);
    assert_eq!(r.runner.sessions.len(), 1);
}
