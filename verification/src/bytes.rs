//! Little-endian fields in byte sequences, and the reader over a command's bytes.
use vstd::prelude::*;

verus! {

/// The 32-bit little-endian number at `at`.
pub open spec fn le32(b: Seq<u8>, at: int) -> int {
    b[at] + 0x100 * b[at + 1] + 0x1_0000 * b[at + 2] + 0x100_0000 * b[at + 3]
}

/// The 64-bit little-endian number at `at`.
pub open spec fn le64(b: Seq<u8>, at: int) -> int {
    le32(b, at) + 0x1_0000_0000 * le32(b, at + 4)
}

/// A 32-bit number read as two's complement.
pub open spec fn signed32(v: int) -> int {
    if v < 0x8000_0000 {
        v
    } else {
        v - 0x1_0000_0000
    }
}

/// A 64-bit number read as two's complement.
pub open spec fn signed64(v: int) -> int {
    if v < 0x8000_0000_0000_0000 {
        v
    } else {
        v - 0x1_0000_0000_0000_0000
    }
}

/// A signed 32-bit number as the unsigned number with the same bits.
pub open spec fn unsigned32(v: int) -> int {
    if v < 0 {
        v + 0x1_0000_0000
    } else {
        v
    }
}

/// A signed 64-bit number as the unsigned number with the same bits.
pub open spec fn unsigned64(v: int) -> int {
    if v < 0 {
        v + 0x1_0000_0000_0000_0000
    } else {
        v
    }
}

/// The four little-endian bytes of a 32-bit number.
pub open spec fn bytes32(v: int) -> Seq<u8> {
    seq![
        (v % 0x100) as u8,
        (v / 0x100 % 0x100) as u8,
        (v / 0x1_0000 % 0x100) as u8,
        (v / 0x100_0000 % 0x100) as u8,
    ]
}

/// The eight little-endian bytes of a 64-bit number.
pub open spec fn bytes64(v: int) -> Seq<u8> {
    bytes32(v % 0x1_0000_0000) + bytes32(v / 0x1_0000_0000)
}

/// `n` zero bytes.
pub open spec fn zeros(n: nat) -> Seq<u8> {
    Seq::new(n, |i: int| 0u8)
}

/// Writing a 32-bit number and reading it back gives the number.
pub proof fn le32_of_bytes32(v: u32)
    ensures
        le32(bytes32(v as int), 0) == v,
        bytes32(v as int).len() == 4,
{
}

/// Writing a 64-bit number and reading it back gives the number.
pub proof fn le64_of_bytes64(v: u64)
    ensures
        le64(bytes64(v as int), 0) == v,
        bytes64(v as int).len() == 8,
{
    let lo = (v % 0x1_0000_0000) as u32;
    let hi = (v / 0x1_0000_0000) as u32;
    let b = bytes64(v as int);
    let l = bytes32(lo as int);
    let h = bytes32(hi as int);
    le32_of_bytes32(lo);
    le32_of_bytes32(hi);
    assert(b == l + h);
    assert(b[0] == l[0] && b[1] == l[1] && b[2] == l[2] && b[3] == l[3]);
    assert(b[4] == h[0] && b[5] == h[1] && b[6] == h[2] && b[7] == h[3]);
    assert(le32(b, 0) == le32(l, 0));
    assert(le32(b, 4) == le32(h, 0));
}

/// A 32-bit field.
pub fn read_u32(b: &[u8], at: usize) -> (v: u32)
    requires
        at + 4 <= b@.len(),
    ensures
        v == le32(b@, at as int),
{
    b[at] as u32 + 0x100 * (b[at + 1] as u32) + 0x1_0000 * (b[at + 2] as u32) + 0x100_0000 * (
    b[at + 3] as u32)
}

/// A signed 32-bit field.
pub fn read_i32(b: &[u8], at: usize) -> (v: i32)
    requires
        at + 4 <= b@.len(),
    ensures
        v == signed32(le32(b@, at as int)),
{
    to_signed32(read_u32(b, at))
}

/// A 64-bit field.
pub fn read_u64(b: &[u8], at: usize) -> (v: u64)
    requires
        at + 8 <= b@.len(),
    ensures
        v == le64(b@, at as int),
{
    assert(at + 8 <= b.len());
    read_u32(b, at) as u64 + 0x1_0000_0000 * (read_u32(b, at + 4) as u64)
}

/// A signed 64-bit field.
pub fn read_i64(b: &[u8], at: usize) -> (v: i64)
    requires
        at + 8 <= b@.len(),
    ensures
        v == signed64(le64(b@, at as int)),
{
    let v: u64 = read_u64(b, at);
    if v < 0x8000_0000_0000_0000 {
        v as i64
    } else {
        (v - 0x8000_0000_0000_0000) as i64 + i64::MIN
    }
}

/// The number with the same bits, signed.
pub fn to_signed32(v: u32) -> (r: i32)
    ensures
        r == signed32(v as int),
{
    if v < 0x8000_0000 {
        v as i32
    } else {
        (v - 0x8000_0000) as i32 + i32::MIN
    }
}

/// The number with the same bits, unsigned.
pub fn to_unsigned32(v: i32) -> (r: u32)
    ensures
        r == unsigned32(v as int),
{
    if v < 0 {
        (v as i64 + 0x1_0000_0000) as u32
    } else {
        v as u32
    }
}

/// The number with the same bits, unsigned.
pub fn to_unsigned64(v: i64) -> (r: u64)
    ensures
        r == unsigned64(v as int),
{
    if v < 0 {
        (v as i128 + 0x1_0000_0000_0000_0000) as u64
    } else {
        v as u64
    }
}

/// Appends a 32-bit field.
pub fn push_u32(out: &mut Vec<u8>, v: u32)
    ensures
        final(out)@ == old(out)@ + bytes32(v as int),
{
    out.push((v % 0x100) as u8);
    out.push((v / 0x100 % 0x100) as u8);
    out.push((v / 0x1_0000 % 0x100) as u8);
    out.push((v / 0x100_0000 % 0x100) as u8);
}

/// Appends a signed 32-bit field.
pub fn push_i32(out: &mut Vec<u8>, v: i32)
    ensures
        final(out)@ == old(out)@ + bytes32(unsigned32(v as int)),
{
    push_u32(out, to_unsigned32(v));
}

/// Appends a 64-bit field.
pub fn push_u64(out: &mut Vec<u8>, v: u64)
    ensures
        final(out)@ == old(out)@ + bytes64(v as int),
{
    push_u32(out, (v % 0x1_0000_0000) as u32);
    push_u32(out, (v / 0x1_0000_0000) as u32);
}

/// Appends `n` zero bytes.
pub fn push_zeros(out: &mut Vec<u8>, n: usize)
    ensures
        final(out)@ == old(out)@ + zeros(n as nat),
{
    let mut i: usize = 0;
    while i < n
        invariant
            i <= n,
            out@ == old(out)@ + zeros(i as nat),
        decreases n - i,
    {
        out.push(0);
        i = i + 1;
    }
}

/// Appends a slice.
pub fn push_slice(out: &mut Vec<u8>, b: &[u8])
    ensures
        final(out)@ == old(out)@ + b@,
{
    let mut i: usize = 0;
    while i < b.len()
        invariant
            i <= b@.len(),
            out@ == old(out)@ + b@.take(i as int),
        decreases b@.len() - i,
    {
        out.push(b[i]);
        i = i + 1;
    }
    assert(b@.take(b@.len() as int) == b@);
}

/// The bytes of a slice, as an array.
pub fn to_array<const N: usize>(b: &[u8]) -> (r: [u8; N])
    requires
        b@.len() == N,
    ensures
        r@ == b@,
{
    let mut r: [u8; N] = [0u8; N];
    let mut i: usize = 0;
    while i < N
        invariant
            i <= N,
            b@.len() == N,
            r@.len() == N,
            forall|j: int| 0 <= j < i ==> r@[j] == b@[j],
        decreases N - i,
    {
        r[i] = b[i];
        i = i + 1;
    }
    assert(r@ =~= b@);
    r
}

/// The device-readable bytes of a descriptor chain, taken from the front.
pub struct ChainReader<'a> {
    /// All of them.
    pub bytes: &'a [u8],
    /// How many have been taken.
    pub pos: usize,
}

impl<'a> ChainReader<'a> {
    /// The position is inside the bytes.
    pub open spec fn wf(&self) -> bool {
        self.pos <= self.bytes@.len()
    }

    /// What is left to take.
    pub open spec fn rest(&self) -> Seq<u8> {
        self.bytes@.skip(self.pos as int)
    }

    /// A reader at the first of `bytes`.
    pub fn new(bytes: &'a [u8]) -> (r: Self)
        ensures
            r.wf(),
            r.rest() == bytes@,
    {
        ChainReader { bytes, pos: 0 }
    }

    /// Takes the next `n` bytes, or nothing if fewer are left.
    pub fn take(&mut self, n: usize) -> (r: Option<&'a [u8]>)
        requires
            old(self).wf(),
        ensures
            final(self).wf(),
            r is Some <==> n <= old(self).rest().len(),
            r matches Some(b) ==> b@ == old(self).rest().take(n as int) && final(self).rest()
                == old(self).rest().skip(n as int),
            r is None ==> *final(self) == *old(self),
    {
        if n <= self.bytes.len() - self.pos {
            let b: &'a [u8] = vstd::slice::slice_subrange(self.bytes, self.pos, self.pos + n);
            assert(b@ == old(self).rest().take(n as int));
            self.pos = self.pos + n;
            assert(self.rest() == old(self).rest().skip(n as int));
            Some(b)
        } else {
            None
        }
    }
}

/// A number is written with its least byte first: the first byte counts ones, and the last counts
/// most.
pub proof fn numbers_begin_with_their_least_byte(b: Seq<u8>, at: int, v: u32)
    requires
        0 <= at,
        at + 8 <= b.len(),
    ensures
        le32(b, at) % 0x100 == b[at],
        le32(b, at) / 0x100 % 0x100 == b[at + 1],
        le32(b, at) / 0x1_0000 % 0x100 == b[at + 2],
        le32(b, at) / 0x100_0000 == b[at + 3],
        le64(b, at) % 0x1_0000_0000 == le32(b, at),
        le64(b, at) / 0x1_0000_0000 == le32(b, at + 4),
        bytes32(v as int).len() == 4,
        bytes32(v as int)[0] == v % 0x100,
        bytes32(v as int)[3] == v / 0x100_0000,
{
}

/// A signed number and the unsigned one it stands for differ by what the sign counts, and stand for
/// each other.
pub proof fn signs_are_twos_complement(v: i32, w: u32)
    ensures
        unsigned32(v as int) == v || unsigned32(v as int) == v + 0x1_0000_0000,
        0 <= unsigned32(v as int) <= 0xffff_ffff,
        signed32(unsigned32(v as int)) == v,
        signed32(w as int) == w || signed32(w as int) == w - 0x1_0000_0000,
        -0x8000_0000 <= signed32(w as int) <= 0x7fff_ffff,
        unsigned32(signed32(w as int)) == w,
{
}

} // verus!
