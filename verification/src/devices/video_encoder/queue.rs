//! The buffers of a queue and who holds each of them: the guest, the device or the codec.
use std::collections::VecDeque;
use vstd::prelude::*;

use super::backend::{let_go, reports, CodecCall, CodecPort, EncoderEvent};
use super::controls::MAX_BUFFERS;
use super::ranges::min;
use crate::host::{GuestMapping, HostBuffer};
use crate::v4l2::{MemoryType, QueueDirection, QueueType, V4l2Buffer};

verus! {

/// Flags that say the device holds a buffer: `QUEUED` and `PREPARED`.
pub const FLAGS_HELD: u32 = 0x402;

/// Where a buffer's bytes live.
pub enum Backing<GM, H> {
    /// Host-owned, from the allocator; mappable by the guest at `offset`.
    Host { buffer: HostBuffer<H>, offset: u32 },
    /// Guest-owned; mapped from the guest's scatter list while the buffer is queued.
    Guest(Option<GuestMapping<GM>>),
}

/// One buffer of a queue.
pub struct Buffer<GM, H> {
    pub v4l2_buffer: V4l2Buffer,
    pub backing: Backing<GM, H>,
    /// Queued by the guest and not yet returned.
    pub queued: bool,
    /// Lent to the codec.
    pub lent: bool,
    /// Bytes this buffer was created for.
    pub size: u32,
    /// `(bytesused, length)` `PREPARE_BUF` accepted for this buffer, while it is prepared.
    pub prepared: Option<(u32, u32)>,
}

impl<GM, H> Buffer<GM, H> {
    /// Bytes the buffer can hold: the host buffer's length, or the length the guest declared held
    /// to what its mapping covers.
    pub open spec fn room(self) -> int {
        match self.backing {
            Backing::Host { buffer, .. } => min(buffer.len as int, u32::MAX as int),
            Backing::Guest(Some(m)) => min(
                self.v4l2_buffer.first_length() as int,
                min(m.len as int, u32::MAX as int),
            ),
            Backing::Guest(None) => self.v4l2_buffer.first_length() as int,
        }
    }

    /// The host address of the buffer's bytes, while it has one.
    pub open spec fn address(self) -> Option<usize> {
        match self.backing {
            Backing::Host { buffer, .. } => Some(buffer.ptr),
            Backing::Guest(Some(m)) => Some(m.addr),
            Backing::Guest(None) => None,
        }
    }

    /// The buffer back with the guest: nothing mapped, queued, lent or prepared.
    pub open spec fn returned(self) -> Buffer<GM, H> {
        Buffer {
            v4l2_buffer: self.v4l2_buffer.without_flags(FLAGS_HELD),
            backing: match self.backing {
                Backing::Host { .. } => self.backing,
                Backing::Guest(_) => Backing::Guest(None),
            },
            queued: false,
            lent: false,
            prepared: None,
            ..self
        }
    }

    /// Whether the buffer is back with the guest: nothing is mapped, queued or lent.
    pub open spec fn is_back(self) -> bool {
        !self.queued && !self.lent && (self.backing matches Backing::Guest(m) ==> m is None)
    }

    /// The buffer with the codec.
    pub open spec fn loaned(self) -> Buffer<GM, H> {
        Buffer { lent: true, ..self }
    }

    /// The buffer taken back from the codec, still queued.
    pub open spec fn recalled(self) -> Buffer<GM, H> {
        Buffer { lent: false, ..self }
    }

    /// Whether the buffer is consistent as number `i` of a queue.
    pub open spec fn wf(self, i: int, queue: QueueType, memory: MemoryType) -> bool {
        &&& self.v4l2_buffer.index == i
        &&& self.v4l2_buffer.queue == queue
        &&& self.v4l2_buffer.memory == memory
        &&& 1 <= self.v4l2_buffer.length <= 8
        &&& self.lent ==> self.queued
        &&& self.prepared is Some ==> !self.queued
        &&& match self.backing {
            Backing::Host { .. } => memory == MemoryType::Mmap,
            Backing::Guest(m) => memory == MemoryType::UserPtr && (m is Some <==> self.queued),
        }
    }

    /// Bytes the buffer can hold.
    pub fn capacity(&self) -> (r: u32)
        ensures
            r == self.room(),
    {
        match &self.backing {
            Backing::Host { buffer, .. } => if buffer.len <= u32::MAX as u64 {
                buffer.len as u32
            } else {
                u32::MAX
            },
            Backing::Guest(mapping) => {
                let declared: u32 = self.v4l2_buffer.first_plane_length();
                match mapping {
                    Some(m) => if m.len < declared as usize {
                        m.len as u32
                    } else {
                        declared
                    },
                    None => declared,
                }
            },
        }
    }

    /// The host address of the buffer's bytes, while it has one.
    pub fn data_ptr(&self) -> (r: Option<usize>)
        ensures
            r == self.address(),
    {
        match &self.backing {
            Backing::Host { buffer, .. } => Some(buffer.as_ptr()),
            Backing::Guest(Some(m)) => Some(m.addr),
            Backing::Guest(None) => None,
        }
    }

    /// Returns the buffer to the guest, releasing any guest mapping. Only after the codec that
    /// may have been lent it has stopped touching it.
    pub fn unqueue(&mut self)
        requires
            !old(self).lent,
        ensures
            *final(self) == old(self).returned(),
    {
        let guest: bool = matches!(self.backing, Backing::Guest(_));
        if guest {
            self.backing = Backing::Guest(None);
        }
        self.queued = false;
        self.prepared = None;
        self.v4l2_buffer.clear_flags(FLAGS_HELD);
    }
}

/// One of the two queues.
pub struct Queue<GM, H> {
    /// Memory type the buffers were allocated with; `None` while there are none.
    pub memory: Option<MemoryType>,
    pub buffers: Vec<Buffer<GM, H>>,
    /// Buffers queued but not with the codec, in queueing order.
    pub pending: VecDeque<usize>,
    /// Buffers with the codec, in the order they were lent.
    pub lending: Vec<usize>,
}

/// A queue as a mathematical value.
#[verifier::ext_equal]
pub struct QueueView<GM, H> {
    pub memory: Option<MemoryType>,
    pub buffers: Seq<Buffer<GM, H>>,
    pub pending: Seq<usize>,
    pub lending: Seq<usize>,
}

impl<GM, H> View for Queue<GM, H> {
    type V = QueueView<GM, H>;

    open spec fn view(&self) -> QueueView<GM, H> {
        QueueView {
            memory: self.memory,
            buffers: self.buffers@,
            pending: self.pending@,
            lending: self.lending@,
        }
    }
}

/// Whether no buffer of a queue is with the codec.
pub open spec fn none_lent<GM, H>(q: QueueView<GM, H>) -> bool {
    forall|i: int| 0 <= i < q.buffers.len() ==> !(#[trigger] q.buffers[i]).lent
}

/// Whether the buffers of a queue may be taken back: the codec has none of them, or was made to let
/// go of them.
pub open spec fn may_take_back<GM, H>(
    q: QueueView<GM, H>,
    calls: Seq<CodecCall>,
    direction: QueueDirection,
) -> bool {
    none_lent(q) || let_go(calls, direction)
}

/// The queue of buffers the two queues start as.
pub open spec fn empty_queue<GM, H>() -> QueueView<GM, H> {
    QueueView {
        memory: None,
        buffers: Seq::empty(),
        pending: Seq::empty(),
        lending: Seq::empty(),
    }
}

impl<GM, H> QueueView<GM, H> {
    /// Every buffer is consistent, and each queued buffer is in exactly one of the two lists:
    /// pending, or lent.
    pub open spec fn wf(self, queue: QueueType) -> bool {
        &&& self.buffers.len() <= MAX_BUFFERS
        &&& self.memory is Some <==> self.buffers.len() > 0
        &&& self.memory matches Some(m) ==> forall|i: int|
            0 <= i < self.buffers.len() ==> (#[trigger] self.buffers[i]).wf(i, queue, m)
        &&& self.lists_wf()
    }

    /// Each queued buffer is in exactly one of the two lists, once.
    pub open spec fn lists_wf(self) -> bool {
        &&& self.pending.no_duplicates()
        &&& self.lending.no_duplicates()
        &&& forall|k: int|
            0 <= k < self.pending.len() ==> (#[trigger] self.pending[k]) < self.buffers.len()
                && self.buffers[self.pending[k] as int].queued
                && !self.buffers[self.pending[k] as int].lent
        &&& forall|k: int|
            0 <= k < self.lending.len() ==> (#[trigger] self.lending[k]) < self.buffers.len()
                && self.buffers[self.lending[k] as int].lent
        &&& forall|i: usize|
            i < self.buffers.len() && (#[trigger] self.buffers[i as int]).lent
                ==> self.lending.contains(i)
        &&& forall|i: usize|
            i < self.buffers.len() && (#[trigger] self.buffers[i as int]).queued
                && !self.buffers[i as int].lent ==> self.pending.contains(i)
    }

    /// Whether a buffer's bytes are at a known address while the device or the codec holds it.
    pub open spec fn addressed(self) -> bool {
        forall|i: int|
            0 <= i < self.buffers.len() && (#[trigger] self.buffers[i]).queued
                ==> self.buffers[i].address() is Some
    }

    /// Every buffer back with the guest.
    pub open spec fn all_returned(self) -> QueueView<GM, H> {
        QueueView {
            memory: self.memory,
            buffers: self.buffers.map_values(|b: Buffer<GM, H>| b.returned()),
            pending: Seq::empty(),
            lending: Seq::empty(),
        }
    }

    /// The first `k` pending buffers with the codec.
    pub open spec fn first_loaned(self, k: int) -> QueueView<GM, H> {
        QueueView {
            memory: self.memory,
            buffers: Seq::new(
                self.buffers.len(),
                |i: int|
                    if self.pending.take(k).contains(i as usize) {
                        self.buffers[i].loaned()
                    } else {
                        self.buffers[i]
                    },
            ),
            pending: self.pending.skip(k),
            lending: self.lending + self.pending.take(k),
        }
    }

    /// Every lent buffer taken back and pending again, behind those that wait, by index.
    pub open spec fn all_recalled(self) -> QueueView<GM, H> {
        QueueView {
            memory: self.memory,
            buffers: self.buffers.map_values(|b: Buffer<GM, H>| b.recalled()),
            pending: self.pending + lent_below(self.buffers, self.buffers.len() as int),
            lending: Seq::empty(),
        }
    }

    /// Every lent buffer taken back and pending again, in front of those that wait, in the order
    /// they were lent.
    pub open spec fn all_reclaimed(self) -> QueueView<GM, H> {
        QueueView {
            memory: self.memory,
            buffers: self.buffers.map_values(|b: Buffer<GM, H>| b.recalled()),
            pending: self.lending + self.pending,
            lending: Seq::empty(),
        }
    }

    /// One buffer changed to another state.
    pub open spec fn with_buffer(self, i: int, b: Buffer<GM, H>) -> QueueView<GM, H> {
        QueueView { buffers: self.buffers.update(i, b), ..self }
    }

    /// A lent buffer back with the guest.
    pub open spec fn loan_returned(self, i: int, b: Buffer<GM, H>) -> QueueView<GM, H> {
        QueueView {
            buffers: self.buffers.update(i, b),
            lending: self.lending.remove(self.lending.index_of(i as usize)),
            ..self
        }
    }
}

/// The lent buffers below `n`, ascending.
pub open spec fn lent_below<GM, H>(buffers: Seq<Buffer<GM, H>>, n: int) -> Seq<usize>
    decreases n,
{
    if n <= 0 {
        Seq::empty()
    } else if buffers[n - 1].lent {
        lent_below(buffers, n - 1).push((n - 1) as usize)
    } else {
        lent_below(buffers, n - 1)
    }
}

/// The lent buffers below `n` are listed once each.
proof fn lent_below_lists_the_lent<GM, H>(buffers: Seq<Buffer<GM, H>>, n: int)
    requires
        0 <= n <= buffers.len() <= 32,
    ensures
        forall|k: int|
            0 <= k < lent_below(buffers, n).len() ==> #[trigger] lent_below(buffers, n)[k] < n
                && buffers[lent_below(buffers, n)[k] as int].lent,
        forall|i: usize|
            i < n && #[trigger] buffers[i as int].lent ==> lent_below(buffers, n).contains(i),
        lent_below(buffers, n).no_duplicates(),
    decreases n,
{
    if n > 0 {
        lent_below_lists_the_lent(buffers, n - 1);
        let p = lent_below(buffers, n - 1);
        let s = lent_below(buffers, n);
        assert forall|i: usize| i < n && #[trigger] buffers[i as int].lent implies s.contains(
            i,
        ) by {
            if i < n - 1 {
                let k = choose|k: int| 0 <= k < p.len() && p[k] == i;
                assert(s[k] == i);
            } else {
                assert(s[s.len() - 1] == i);
            }
        }
    }
}

/// Taking every lent buffer back keeps a queue consistent.
pub proof fn recalled_is_wf<GM, H>(q: QueueView<GM, H>, queue: QueueType)
    requires
        q.wf(queue),
    ensures
        q.all_recalled().wf(queue),
{
    let r = q.all_recalled();
    let l = lent_below(q.buffers, q.buffers.len() as int);
    lent_below_lists_the_lent(q.buffers, q.buffers.len() as int);
    pending_again_is_wf(q, r, queue);
    assert(r.pending.no_duplicates()) by {
        assert forall|a: int, c: int|
            0 <= a < c < r.pending.len() implies r.pending[a] != r.pending[c] by {
            if c < q.pending.len() {
                assert(q.pending[a] != q.pending[c]);
            } else if a >= q.pending.len() {
                assert(l[a - q.pending.len()] != l[c - q.pending.len()]);
            } else {
                assert(!q.buffers[q.pending[a] as int].lent);
                assert(q.buffers[l[c - q.pending.len()] as int].lent);
            }
        }
    }
    assert forall|k: int| 0 <= k < r.pending.len() implies (#[trigger] r.pending[k])
        < r.buffers.len() && r.buffers[r.pending[k] as int].queued
        && !r.buffers[r.pending[k] as int].lent by {
        if k < q.pending.len() {
            assert(r.pending[k] == q.pending[k]);
        } else {
            let x = l[k - q.pending.len()];
            assert(r.pending[k] == x);
            assert(q.buffers[x as int].wf(x as int, queue, q.memory->0));
        }
    }
    assert forall|i: usize|
        i < r.buffers.len() && (#[trigger] r.buffers[i as int]).queued
            && !r.buffers[i as int].lent implies r.pending.contains(i) by {
        if q.buffers[i as int].lent {
            let k = choose|k: int| 0 <= k < l.len() && l[k] == i;
            assert(r.pending[q.pending.len() + k] == i);
        } else {
            let k = choose|k: int| 0 <= k < q.pending.len() && q.pending[k] == i;
            assert(r.pending[k] == i);
        }
    }
}

/// Taking every lent buffer back in front of the waiting ones keeps a queue consistent.
pub proof fn reclaimed_is_wf<GM, H>(q: QueueView<GM, H>, queue: QueueType)
    requires
        q.wf(queue),
    ensures
        q.all_reclaimed().wf(queue),
{
    let r = q.all_reclaimed();
    let l = q.lending;
    pending_again_is_wf(q, r, queue);
    assert(r.pending.no_duplicates()) by {
        assert forall|a: int, c: int|
            0 <= a < c < r.pending.len() implies r.pending[a] != r.pending[c] by {
            if c < l.len() {
                assert(l[a] != l[c]);
            } else if a >= l.len() {
                assert(q.pending[a - l.len()] != q.pending[c - l.len()]);
            } else {
                assert(q.buffers[l[a] as int].lent);
                assert(!q.buffers[q.pending[c - l.len()] as int].lent);
            }
        }
    }
    assert forall|k: int| 0 <= k < r.pending.len() implies (#[trigger] r.pending[k])
        < r.buffers.len() && r.buffers[r.pending[k] as int].queued
        && !r.buffers[r.pending[k] as int].lent by {
        if k < l.len() {
            let x = l[k];
            assert(r.pending[k] == x);
            assert(q.buffers[x as int].wf(x as int, queue, q.memory->0));
        } else {
            assert(r.pending[k] == q.pending[k - l.len()]);
        }
    }
    assert forall|i: usize|
        i < r.buffers.len() && (#[trigger] r.buffers[i as int]).queued
            && !r.buffers[i as int].lent implies r.pending.contains(i) by {
        if q.buffers[i as int].lent {
            let k = choose|k: int| 0 <= k < l.len() && l[k] == i;
            assert(r.pending[k] == i);
        } else {
            let k = choose|k: int| 0 <= k < q.pending.len() && q.pending[k] == i;
            assert(r.pending[l.len() + k] == i);
        }
    }
}

/// Buffers taken back from the codec are consistent.
proof fn pending_again_is_wf<GM, H>(q: QueueView<GM, H>, r: QueueView<GM, H>, queue: QueueType)
    requires
        q.wf(queue),
        r.memory == q.memory,
        r.buffers == q.buffers.map_values(|b: Buffer<GM, H>| b.recalled()),
    ensures
        r.memory matches Some(m) ==> forall|i: int|
            0 <= i < r.buffers.len() ==> (#[trigger] r.buffers[i]).wf(i, queue, m),
{
    if let Some(m) = q.memory {
        assert forall|i: int| 0 <= i < r.buffers.len() implies (#[trigger] r.buffers[i]).wf(
            i,
            queue,
            m,
        ) by {
            assert(q.buffers[i].wf(i, queue, m));
        }
    }
}

/// A queued buffer of a consistent queue has an address.
pub proof fn queued_buffers_are_addressed<GM, H>(q: QueueView<GM, H>, queue: QueueType)
    requires
        q.wf(queue),
    ensures
        q.addressed(),
{
    assert forall|i: int|
        0 <= i < q.buffers.len() && (#[trigger] q.buffers[i]).queued implies q.buffers[i].address()
        is Some by {
        assert(q.buffers[i].wf(i, queue, q.memory->0));
    }
}

/// A buffer the codec holds is one the guest has queued.
pub proof fn lent_buffers_are_queued<GM, H>(q: QueueView<GM, H>, queue: QueueType, i: int)
    requires
        q.wf(queue),
        0 <= i < q.buffers.len(),
        q.buffers[i].lent,
    ensures
        q.buffers[i].queued,
        q.lending.contains(i as usize),
        !q.pending.contains(i as usize),
{
    assert(q.buffers[i].wf(i, queue, q.memory->0));
    assert(q.buffers[i as usize as int].lent);
}

/// Returning every buffer keeps a queue consistent.
pub proof fn all_returned_is_wf<GM, H>(q: QueueView<GM, H>, queue: QueueType)
    requires
        q.wf(queue),
    ensures
        q.all_returned().wf(queue),
{
    let r = q.all_returned();
    if let Some(m) = q.memory {
        assert forall|i: int| 0 <= i < r.buffers.len() implies (#[trigger] r.buffers[i]).wf(
            i,
            queue,
            m,
        ) by {
            assert(q.buffers[i].wf(i, queue, m));
        }
    }
}

/// A lent buffer returned to the guest leaves the queue consistent.
pub proof fn loan_returned_is_wf<GM, H>(
    q: QueueView<GM, H>,
    queue: QueueType,
    i: int,
    b: Buffer<GM, H>,
)
    requires
        q.wf(queue),
        0 <= i < q.buffers.len(),
        q.buffers[i].lent,
        q.memory matches Some(m) && b.wf(i, queue, m),
        !b.queued,
        !b.lent,
    ensures
        q.loan_returned(i, b).wf(queue),
{
    let r = q.loan_returned(i, b);
    let p = q.lending.index_of(i as usize);
    assert(q.buffers[i as usize as int].lent);
    assert(q.lending.contains(i as usize));
    assert(0 <= p < q.lending.len() && q.lending[p] == i as usize);
    let m = q.memory->0;
    assert forall|j: int| 0 <= j < r.buffers.len() implies (#[trigger] r.buffers[j]).wf(
        j,
        queue,
        m,
    ) by {
        assert(q.buffers[j].wf(j, queue, m));
    }
    assert forall|k: int| 0 <= k < r.pending.len() implies (#[trigger] r.pending[k])
        < r.buffers.len() && r.buffers[r.pending[k] as int].queued
        && !r.buffers[r.pending[k] as int].lent by {
        assert(q.buffers[q.pending[k] as int].queued && !q.buffers[q.pending[k] as int].lent);
    }
    assert forall|k: int| 0 <= k < r.lending.len() implies (#[trigger] r.lending[k])
        < r.buffers.len() && r.buffers[r.lending[k] as int].lent by {
        let k0 = if k < p {
            k
        } else {
            k + 1
        };
        assert(r.lending[k] == q.lending[k0]);
        assert(q.lending[k0] != q.lending[p]);
    }
    assert(r.lending.no_duplicates()) by {
        assert forall|a: int, c: int|
            0 <= a < c < r.lending.len() implies r.lending[a] != r.lending[c] by {
            let a0 = if a < p {
                a
            } else {
                a + 1
            };
            let c0 = if c < p {
                c
            } else {
                c + 1
            };
            assert(q.lending[a0] != q.lending[c0]);
        }
    }
    assert forall|j: usize|
        j < r.buffers.len() && (#[trigger] r.buffers[j as int]).lent implies r.lending.contains(
        j,
    ) by {
        assert(q.buffers[j as int].lent);
        let k = choose|k: int| 0 <= k < q.lending.len() && q.lending[k] == j;
        if k < p {
            assert(r.lending[k] == j);
        } else {
            assert(r.lending[k - 1] == j);
        }
    }
    assert forall|j: usize|
        j < r.buffers.len() && (#[trigger] r.buffers[j as int]).queued
            && !r.buffers[j as int].lent implies r.pending.contains(j) by {
        assert(q.buffers[j as int].queued && !q.buffers[j as int].lent);
    }
}

/// Where nothing is listed as lent, no buffer is.
pub proof fn nothing_lent_without_a_codec<GM, H>(q: QueueView<GM, H>)
    requires
        q.lists_wf(),
        q.buffers.len() <= MAX_BUFFERS,
    ensures
        q.lending.len() == 0 ==> none_lent(q),
{
    if q.lending.len() == 0 {
        assert forall|i: int| 0 <= i < q.buffers.len() implies !(#[trigger] q.buffers[i]).lent by {
            if q.buffers[i].lent {
                assert(q.buffers[i as usize as int].lent);
                assert(q.lending.contains(i as usize));
            }
        }
    }
}

impl<GM, H> Queue<GM, H> {
    /// Takes a buffer back from the codec, which reported to be done with it.
    #[allow(unused_variables)]
    pub(crate) fn end_loan(
        &mut self,
        index: usize,
        event: &EncoderEvent,
        direction: QueueDirection,
    )
        requires
            reports(*event, direction, index as int),
            index < old(self)@.buffers.len(),
            old(self)@.lending.no_duplicates(),
            old(self)@.lending.contains(index),
        ensures
            final(self)@ == (QueueView {
                buffers: old(self)@.buffers.update(
                    index as int,
                    old(self)@.buffers[index as int].recalled(),
                ),
                lending: old(self)@.lending.remove(old(self)@.lending.index_of(index)),
                ..old(self)@
            }),
    {
        let ghost l = self.lending@;
        let mut k: usize = 0;
        while k < self.lending.len()
            invariant
                self@ == old(self)@,
                index < self.buffers@.len(),
                l == self.lending@,
                l.no_duplicates(),
                l.contains(index),
                k <= l.len(),
                forall|j: int| 0 <= j < k ==> l[j] != index,
            decreases l.len() - k,
        {
            if self.lending[k] == index {
                assert(l.index_of(index) == k);
                self.lending.remove(k);
                self.buffers[index].lent = false;
                return;
            }
            k = k + 1;
        }
        assert(false);
    }

    /// A queue without buffers.
    pub fn new() -> (r: Self)
        ensures
            r@ == empty_queue::<GM, H>(),
            forall|queue: QueueType| #[trigger] r@.wf(queue),
    {
        Queue { memory: None, buffers: Vec::new(), pending: VecDeque::new(), lending: Vec::new() }
    }

    /// Takes every lent buffer back, pending again behind those that wait.
    #[allow(unused_variables)]
    pub fn recall_all<S>(&mut self, codec: &CodecPort<S>, direction: QueueDirection)
        requires
            may_take_back(old(self)@, codec.calls@, direction),
        ensures
            final(self)@ == old(self)@.all_recalled(),
    {
        let ghost q = self@;
        self.lending.clear();
        let mut i: usize = 0;
        while i < self.buffers.len()
            invariant
                q == old(self)@,
                self.memory == q.memory,
                self.lending@ == Seq::<usize>::empty(),
                i <= self.buffers@.len() == q.buffers.len(),
                self.pending@ == q.pending + lent_below(q.buffers, i as int),
                forall|j: int|
                    0 <= j < i ==> #[trigger] self.buffers@[j] == q.buffers[j].recalled(),
                forall|j: int|
                    i <= j < q.buffers.len() ==> #[trigger] self.buffers@[j] == q.buffers[j],
            decreases self.buffers@.len() - i,
        {
            if self.buffers[i].lent {
                self.buffers[i].lent = false;
                self.pending.push_back(i);
            }
            i = i + 1;
        }
        assert(self.buffers@ =~= q.buffers.map_values(|b: Buffer<GM, H>| b.recalled()));
    }

    /// Takes every lent buffer back, pending again in front of those that wait.
    #[allow(unused_variables)]
    pub(crate) fn reclaim_all<S>(&mut self, codec: &CodecPort<S>, direction: QueueDirection)
        requires
            may_take_back(old(self)@, codec.calls@, direction),
            old(self)@.lists_wf(),
        ensures
            final(self)@ == old(self)@.all_reclaimed(),
    {
        let ghost q = self@;
        let mut n: usize = self.lending.len();
        assert(q.lending.skip(q.lending.len() as int) + q.pending =~= q.pending);
        while n > 0
            invariant
                q == old(self)@,
                q.lists_wf(),
                self.memory == q.memory,
                self.buffers@ == q.buffers,
                self.lending@ == q.lending,
                n <= q.lending.len(),
                self.pending@ == q.lending.skip(n as int) + q.pending,
            decreases n,
        {
            n = n - 1;
            self.pending.push_front(self.lending[n]);
            assert(self.pending@ =~= q.lending.skip(n as int) + q.pending);
        }
        assert(self.pending@ =~= q.lending + q.pending);
        self.lending.clear();
        let mut i: usize = 0;
        while i < self.buffers.len()
            invariant
                self.memory == q.memory,
                self.lending@ == Seq::<usize>::empty(),
                self.pending@ == q.lending + q.pending,
                i <= self.buffers@.len() == q.buffers.len(),
                forall|j: int|
                    0 <= j < i ==> #[trigger] self.buffers@[j] == q.buffers[j].recalled(),
                forall|j: int|
                    i <= j < q.buffers.len() ==> #[trigger] self.buffers@[j] == q.buffers[j],
            decreases self.buffers@.len() - i,
        {
            self.buffers[i].lent = false;
            i = i + 1;
        }
        assert(self.buffers@ =~= q.buffers.map_values(|b: Buffer<GM, H>| b.recalled()));
    }

    /// Returns every buffer to the guest.
    #[allow(unused_variables)]
    pub fn unqueue_all<S>(&mut self, codec: &CodecPort<S>, direction: QueueDirection)
        requires
            may_take_back(old(self)@, codec.calls@, direction),
        ensures
            final(self)@ == old(self)@.all_returned(),
    {
        self.pending.clear();
        self.lending.clear();
        let ghost before = self.buffers@;
        let mut i: usize = 0;
        while i < self.buffers.len()
            invariant
                self.memory == old(self).memory,
                self.pending@ == Seq::<usize>::empty(),
                self.lending@ == Seq::<usize>::empty(),
                before == old(self).buffers@,
                i <= self.buffers@.len() == before.len(),
                forall|j: int| 0 <= j < i ==> #[trigger] self.buffers@[j] == before[j].returned(),
                forall|j: int| i <= j < before.len() ==> #[trigger] self.buffers@[j] == before[j],
            decreases self.buffers@.len() - i,
        {
            self.buffers[i].lent = false;
            self.buffers[i].unqueue();
            i = i + 1;
        }
        assert(self.buffers@ == before.map_values(|b: Buffer<GM, H>| b.returned()));
    }
}

} // verus!
