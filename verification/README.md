# virtio_media

Host-side helpers to write virtio-media devices, and a stateful V4L2 memory-to-memory video encoder,
written in Verus: the public functions of the library have contracts, and the contracts are proved.

## Layout

- `src/` is the library.
  - `runner` serves the commands of the guest driver and keeps the sessions; `device` is what it
    needs of a device.
  - `ioctl` reads what a guest sends with an ioctl, has a handler serve it, and writes the answer.
  - `host`, `mmap` and `memfd` are what a VMM provides: events, guest memory, host-owned buffers and
    the offsets the guest knows them by.
  - `devices::video_encoder` is the encoder: formats, controls, queues, and a codec that runs
    elsewhere.
- `app/` is the library on a Linux host: descriptors, mappings, eventfds and descriptor chains.
- `tests/` runs the library, with a codec, a guest and a VMM made up for the purpose.

## How contracts are stated

A contract speaks of mathematical views (`SessionView`, `DeviceView`, `QueueView`, `RunnerView`). A
VMM and a codec may answer anything: each is reached through a port that keeps a ghost record of
what it was asked and what it answered, and a contract says which calls an operation adds to the
record and what it does for every answer. Each trait says by a relation what a call gives and does
to the object it is made on. A port is faithful when the calls on record, and no others, took its
object from what it was to what it is; every operation keeps the ports of the device, its sessions
and the runner so. What holds across operations is stated as public proof functions, next to what
they are about:

- `devices::video_encoder::laws`: formats, drains, and starting and stopping the codec
- `devices::video_encoder::loans`: every buffer the codec has is marked as lent, and what is lent
  stays as it is until the codec reports it or is made to let go; what takes buffers back requires
  that the codec let go before
- `devices::video_encoder::frames`: every raw frame lent is a whole one
- `devices::video_encoder::places`: an offset names one buffer
- `devices::video_encoder::endings`: a session dies once
- `devices::video_encoder::parameters`: what a codec was started with stays while it runs
- `runner`: ids are not reused, and no session is polled when it is closed
- `ioctl::laws`: what is written reads back, and what a dispatched ioctl is answered
