//! The rules of the default buffer allocator: a fresh, sealed memfd for every buffer, mapped
//! read-write on the host for its whole length.
use vstd::prelude::*;

use crate::errno::{EINVAL, ENOMEM};
use crate::host::HostBuffer;

verus! {

/// Why a memfd could not be made; the numbers are the system's.
#[derive(Clone, Copy, Debug, PartialEq, Eq, Structural)]
pub enum NewMemFdBufferError {
    ZeroSize,
    FailedToCreate(i32),
    FailedToSetSize(i32),
    FailedToSeal(i32),
}

/// Why a memfd could not be mapped.
#[derive(Clone, Copy, Debug, PartialEq, Eq, Structural)]
pub enum MemFdMmapError {
    /// No address space has that many bytes.
    BufferTooLarge(u64),
    Mmap(i32),
}

/// The size a memfd for `size` bytes has: it cannot be zero.
pub open spec fn size_made(size: u64) -> Result<u64, NewMemFdBufferError> {
    if size == 0 {
        Err(NewMemFdBufferError::ZeroSize)
    } else {
        Ok(size)
    }
}

/// The length a memfd of `size` bytes is mapped with: the whole of it, where that many bytes have
/// an address.
pub open spec fn length_mapped(size: u64) -> Result<usize, MemFdMmapError> {
    if size > usize::MAX {
        Err(MemFdMmapError::BufferTooLarge(size))
    } else {
        Ok(size as usize)
    }
}

/// The size a memfd is made with: it cannot be zero.
pub fn memfd_size(size: u64) -> (r: Result<u64, NewMemFdBufferError>)
    ensures
        r == size_made(size),
{
    if size == 0 {
        Err(NewMemFdBufferError::ZeroSize)
    } else {
        Ok(size)
    }
}

/// The length a memfd of `size` bytes is mapped with.
pub fn mapping_len(size: u64) -> (r: Result<usize, MemFdMmapError>)
    ensures
        r == length_mapped(size),
{
    if size > usize::MAX as u64 {
        Err(MemFdMmapError::BufferTooLarge(size))
    } else {
        Ok(size as usize)
    }
}

/// Where a memfd is mapped on the host.
#[derive(Debug, PartialEq, Eq)]
pub struct MemFdMapping {
    pub addr: usize,
    pub len: usize,
}

impl MemFdMapping {
    /// Whether this maps a memfd that was made for `size` bytes.
    pub open spec fn maps(&self, size: u64) -> bool {
        size_made(size) matches Ok(made) && length_mapped(made) == Ok::<usize, MemFdMmapError>(
            self.len,
        )
    }

    /// How many bytes are mapped.
    pub fn size(&self) -> (r: usize)
        ensures
            r == self.len,
    {
        self.len
    }
}

/// A mapping of a memfd covers the whole of what the memfd was made for, which is some bytes.
pub proof fn mappings_cover_their_buffer(m: MemFdMapping, size: u64)
    requires
        m.maps(size),
    ensures
        size > 0,
        m.len == size,
{
}

/// Why a buffer could not be allocated: its memfd, or the host mapping of it.
#[derive(Clone, Copy, Debug, PartialEq, Eq, Structural)]
pub enum MemFdFailure {
    Create(NewMemFdBufferError),
    HostMapping(i32),
}

/// The errno a failed allocation is answered with: `EINVAL` for a buffer of no bytes, `ENOMEM`
/// where no memfd is to be had, and what the mapping failed with.
pub open spec fn failure_errno(e: MemFdFailure) -> i32 {
    match e {
        MemFdFailure::Create(NewMemFdBufferError::ZeroSize) => EINVAL,
        MemFdFailure::Create(_) => ENOMEM,
        MemFdFailure::HostMapping(errno) => errno,
    }
}

/// A buffer of no bytes is `EINVAL`, one for which the system has no memfd `ENOMEM`, and one that
/// cannot be mapped what the mapping failed with: no failure is told as success.
pub proof fn failures_are_told_apart(e: MemFdFailure)
    ensures
        e == MemFdFailure::Create(NewMemFdBufferError::ZeroSize) ==> failure_errno(e) == 22,
        e is Create && e != MemFdFailure::Create(NewMemFdBufferError::ZeroSize) ==> failure_errno(e)
            == 12,
        e matches MemFdFailure::HostMapping(errno) ==> failure_errno(e) == errno,
{
}

/// Every size but zero is made as it is, and mapped whole where so many bytes have an address.
pub proof fn sizes_are_made_and_mapped_whole(size: u64)
    ensures
        size == 0 <==> size_made(size) is Err,
        size > 0 ==> size_made(size) == Ok::<u64, NewMemFdBufferError>(size),
        size <= usize::MAX <==> length_mapped(size) is Ok,
        length_mapped(size) matches Ok(n) ==> n == size,
        length_mapped(size) matches Err(e) ==> e == MemFdMmapError::BufferTooLarge(size),
{
}

/// Whether handing out a buffer that was made, or not, leaves so many live and answers so.
pub open spec fn handed_out<H>(
    live: int,
    made: Result<HostBuffer<H>, MemFdFailure>,
    live2: int,
    r: Result<HostBuffer<H>, i32>,
) -> bool {
    match made {
        Ok(buffer) => r == Ok::<HostBuffer<H>, i32>(buffer) && live2 == live + 1,
        Err(e) => r == Err::<HostBuffer<H>, i32>(failure_errno(e)) && live2 == live,
    }
}

/// How many buffers are live when one of them is taken back.
pub open spec fn taken_back(live: int) -> int {
    if live > 0 {
        live - 1
    } else {
        0
    }
}

/// Taking back what was handed out leaves as many live as before, and what was not made counts for
/// nothing; a buffer is handed out as it was made.
pub proof fn taking_back_undoes_handing_out<H>(
    live: int,
    made: Result<HostBuffer<H>, MemFdFailure>,
    live2: int,
    r: Result<HostBuffer<H>, i32>,
)
    requires
        live >= 0,
        handed_out(live, made, live2, r),
    ensures
        r is Ok <==> made is Ok,
        r matches Ok(b) ==> b == made->Ok_0 && live2 > live && taken_back(live2) == live,
        r is Err ==> live2 == live,
        taken_back(0) == 0,
        live > 0 ==> taken_back(live) < live,
{
}

/// The default buffer allocator's books.
#[derive(Debug, PartialEq, Eq)]
pub struct MemFdAllocator {
    /// Buffers handed out and not yet released.
    pub live: usize,
}

impl MemFdAllocator {
    /// Nothing is handed out.
    pub fn new() -> (r: Self)
        ensures
            r.live == 0,
    {
        MemFdAllocator { live: 0 }
    }

    /// Number of buffers currently allocated and not released.
    pub fn live_buffers(&self) -> (r: usize)
        ensures
            r == self.live,
    {
        self.live
    }

    /// Hands out a buffer that was made, or answers why it was not.
    pub fn hand_out<H>(&mut self, made: Result<HostBuffer<H>, MemFdFailure>) -> (r: Result<
        HostBuffer<H>,
        i32,
    >)
        requires
            made is Ok ==> old(self).live < usize::MAX,
        ensures
            handed_out(old(self).live as int, made, final(self).live as int, r),
    {
        match made {
            Ok(buffer) => {
                self.live = self.live + 1;
                Ok(buffer)
            },
            Err(e) => Err(
                match e {
                    MemFdFailure::Create(NewMemFdBufferError::ZeroSize) => EINVAL,
                    MemFdFailure::Create(_) => ENOMEM,
                    MemFdFailure::HostMapping(errno) => errno,
                },
            ),
        }
    }

    /// Takes a buffer back; the buffer is the caller's to undo.
    pub fn take_back<H>(&mut self, buffer: HostBuffer<H>) -> (r: HostBuffer<H>)
        ensures
            r == buffer,
            final(self).live == taken_back(old(self).live as int),
    {
        if self.live > 0 {
            self.live = self.live - 1;
        }
        buffer
    }
}

impl Default for MemFdAllocator {
    fn default() -> (r: Self)
        ensures
            r.live == 0,
    {
        MemFdAllocator::new()
    }
}

} // verus!
