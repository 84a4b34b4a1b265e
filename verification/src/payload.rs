//! Which plane slots of a queued buffer describe a payload the buffer can hold.
use vstd::prelude::*;

use crate::v4l2::{MemoryType, QueueDirection};

verus! {

/// Which slots of the plane array a guest sent describe a payload -- `bytesused` and
/// `data_offset` -- that the buffer can actually hold.
///
/// They are the two fields of a queued buffer a guest can make nonsensical without making the
/// buffer itself unusable, and the reader cannot decide what that means: it does not know how
/// many planes the queue's format has, and V4L2 does not treat the pair the same way everywhere.
/// So the reader zeroes the slots it could not represent, records them here, and the device
/// applies its own queue's rule.
#[derive(Clone, Copy, Debug, PartialEq, Eq, Structural)]
pub struct PayloadValidity(pub u8);

/// Whether bit `i` of a mask is set.
pub open spec fn bit(mask: u8, i: int) -> bool {
    mask & (1u8 << (i as u8)) != 0
}

impl PayloadValidity {
    /// Every slot describes a payload the buffer can hold -- nothing was sanitised.
    pub fn all() -> (r: PayloadValidity)
        ensures
            r == PayloadValidity(0xff),
            forall|i: int| 0 <= i < 8 ==> #[trigger] r.valid(i),
    {
        proof {
            assert forall|i: int| 0 <= i < 8 implies #[trigger] PayloadValidity(0xff).valid(i) by {
                all_slots_start_valid(i);
            }
        }
        PayloadValidity(0xff)
    }

    /// Whether slot `i` was taken as sent.
    pub open spec fn valid(self, i: int) -> bool {
        0 <= i < 8 && bit(self.0, i)
    }

    /// Whether the first `n` slots were all taken as sent.
    pub open spec fn all_valid(self, n: int) -> bool {
        forall|i: int| 0 <= i < n ==> #[trigger] self.valid(i)
    }

    /// The same, with the payload of `plane` marked as zeroed by the reader.
    pub fn without(self, plane: usize) -> (r: PayloadValidity)
        ensures
            forall|i: int| #[trigger] r.valid(i) <==> self.valid(i) && i != plane,
            plane >= 8 ==> r == self,
    {
        if plane >= 8 {
            self
        } else {
            let p: u8 = plane as u8;
            let m: u8 = self.0;
            let r: u8 = m & !(1u8 << p);
            assert forall|i: int| #[trigger] (PayloadValidity(r)).valid(i) <==> self.valid(i) && i
                != plane by {
                if 0 <= i < 8 {
                    let k = i as u8;
                    assert((m & !(1u8 << p)) & (1u8 << k) != 0 <==> m & (1u8 << k) != 0 && k != p)
                        by (bit_vector)
                        requires
                            p < 8,
                            k < 8,
                    ;
                }
            }
            PayloadValidity(r)
        }
    }

    /// Whether the guest's payload description for `plane` was taken as sent.
    pub fn plane_is_valid(self, plane: usize) -> (r: bool)
        ensures
            r == self.valid(plane as int),
    {
        plane < 8 && self.0 & (1u8 << (plane as u8)) != 0
    }

    /// Whether the first `num_planes` slots -- the ones a format with `num_planes` planes
    /// actually uses -- were all taken as sent. A count larger than a plane array is never
    /// valid.
    pub fn planes_are_valid(self, num_planes: usize) -> (r: bool)
        ensures
            r == self.all_valid(num_planes as int),
            num_planes > 8 ==> !r,
    {
        let mut i: usize = 0;
        while i < num_planes
            invariant
                i <= num_planes,
                self.all_valid(i as int),
            decreases num_planes - i,
        {
            if !self.plane_is_valid(i) {
                return false;
            }
            i = i + 1;
        }
        proof {
            if num_planes > 8 {
                assert(self.valid(8));
            }
        }
        true
    }

    /// Whether a queue may take this payload description: a capture queue of `MMAP` buffers takes
    /// any, because the device reports the payload; every other queue wants the planes of its
    /// format valid.
    pub open spec fn accepted(self, direction: QueueDirection, memory: MemoryType, n: int) -> bool {
        (direction == QueueDirection::Capture && memory == MemoryType::Mmap) || self.all_valid(n)
    }

    /// Whether a queue of `num_planes` planes, in `direction` and `memory` mode, may take this
    /// payload description.
    pub fn is_accepted_by(
        self,
        direction: QueueDirection,
        memory: MemoryType,
        num_planes: usize,
    ) -> (r: bool)
        ensures
            r == self.accepted(direction, memory, num_planes as int),
    {
        match (direction, memory) {
            (QueueDirection::Capture, MemoryType::Mmap) => true,
            _ => self.planes_are_valid(num_planes),
        }
    }
}

/// Every slot of the full set is valid.
pub proof fn all_slots_start_valid(i: int)
    requires
        0 <= i < 8,
    ensures
        PayloadValidity(0xff).valid(i),
{
    let k = i as u8;
    assert(0xffu8 & (1u8 << k) != 0) by (bit_vector)
        requires
            k < 8,
    ;
}

/// A slot is the bit of its number: the mask of one bit has that slot valid and no other, and each
/// of two masks taken together has what either has.
pub proof fn slots_are_bits(m: u8, i: u8, j: u8)
    requires
        i < 8,
        j < 8,
    ensures
        PayloadValidity(1u8 << i).valid(j as int) <==> i == j,
        PayloadValidity(m | 1u8 << i).valid(j as int) <==> PayloadValidity(m).valid(j as int) || i
            == j,
        !PayloadValidity(0).valid(j as int),
        PayloadValidity(1).valid(0),
        PayloadValidity(0x80).valid(7),
{
    assert((1u8 << i) & (1u8 << j) != 0 <==> i == j) by (bit_vector)
        requires
            i < 8,
            j < 8,
    ;
    assert((m | 1u8 << i) & (1u8 << j) != 0 <==> m & (1u8 << j) != 0 || i == j) by (bit_vector)
        requires
            i < 8,
            j < 8,
    ;
    assert(0u8 & (1u8 << j) == 0 && 1u8 & (1u8 << 0u8) != 0 && 0x80u8 & (1u8 << 7u8) != 0)
        by (bit_vector);
}

/// A queue takes a payload where none of the slots it uses was zeroed, whatever the others say; the
/// host's own buffers on a capture queue are taken always, and nothing else is.
pub proof fn only_used_slots_matter(
    p: PayloadValidity,
    direction: QueueDirection,
    memory: MemoryType,
    n: int,
    i: int,
)
    requires
        0 <= i < n,
    ensures
        direction == QueueDirection::Capture && memory == MemoryType::Mmap ==> p.accepted(
            direction,
            memory,
            n,
        ),
        direction == QueueDirection::Output || memory != MemoryType::Mmap ==> {
            &&& !p.valid(i) ==> !p.accepted(direction, memory, n)
            &&& p.accepted(direction, memory, n) <==> p.accepted(direction, memory, n - 1)
                && p.valid(n - 1)
            &&& p.accepted(direction, memory, 0)
        },
{
    if p.all_valid(n - 1) && p.valid(n - 1) {
        assert forall|k: int| 0 <= k < n implies #[trigger] p.valid(k) by {
            if k < n - 1 {
                assert(p.valid(k));
            }
        }
    }
    if p.all_valid(n) {
        assert(p.valid(n - 1));
        assert(p.valid(i));
    }
}

} // verus!
