use vstd::prelude::*;

verus! {

/// Why a message or one of its parts could not be decoded.
#[derive(Clone, Copy, Debug, PartialEq, Eq, Structural)]
pub enum ErrorKind {
    /// The input ends before a field that the layout requires.
    Truncated,
    /// A fixed tag or protocol signature does not match.
    Tag,
    /// The self-describing structure size differs from the command's constant.
    StructureSize { expected: u16, found: u16 },
    /// A discriminant, command code or flag bit that the protocol does not define.
    UnknownValue,
    /// The server-to-redirector flag disagrees with the expected direction.
    Direction,
    /// A field holds a value that the protocol forbids (a zero count, a non-empty
    /// flag set where it must be empty).
    Constraint,
    /// A variable field claims to start inside the fixed region or inside another buffer.
    Offset { minimum: u64, declared: u64 },
    /// A UTF-16LE text field has an odd length or an invalid code unit sequence.
    Text,
    /// Bytes follow a message that must fill its frame.
    TrailingBytes,
}

/// The little-endian 16-bit value of the two bytes at `i`.
pub open spec fn le16(b: Seq<u8>, i: int) -> u16 {
    (b[i] as int + b[i + 1] as int * 0x100) as u16
}

/// The little-endian 32-bit value of the four bytes at `i`.
pub open spec fn le32(b: Seq<u8>, i: int) -> u32 {
    (le16(b, i) as int + le16(b, i + 2) as int * 0x1_0000) as u32
}

/// The little-endian 64-bit value of the eight bytes at `i`.
pub open spec fn le64(b: Seq<u8>, i: int) -> u64 {
    (le32(b, i) as int + le32(b, i + 4) as int * 0x1_0000_0000) as u64
}

/// The big-endian 24-bit value of the three bytes at `i`.
pub open spec fn be24(b: Seq<u8>, i: int) -> u32 {
    (b[i] as int * 0x1_0000 + b[i + 1] as int * 0x100 + b[i + 2] as int) as u32
}

pub fn read_u8(b: &[u8], i: usize) -> (r: u8)
    requires
        i < b@.len(),
    ensures
        r == b@[i as int],
{
    b[i]
}

pub fn read_u16(b: &[u8], i: usize) -> (r: u16)
    requires
        i + 2 <= b@.len(),
    ensures
        r == le16(b@, i as int),
{
    b[i] as u16 + (b[i + 1] as u16) * 0x100
}

pub fn read_u32(b: &[u8], i: usize) -> (r: u32)
    requires
        i + 4 <= b@.len(),
    ensures
        r == le32(b@, i as int),
{
    assert(b@.len() == b.len());
    let lo = read_u16(b, i);
    let hi = read_u16(b, i + 2);
    lo as u32 + (hi as u32) * 0x1_0000
}

pub fn read_u64(b: &[u8], i: usize) -> (r: u64)
    requires
        i + 8 <= b@.len(),
    ensures
        r == le64(b@, i as int),
{
    assert(b@.len() == b.len());
    let lo = read_u32(b, i);
    let hi = read_u32(b, i + 4);
    lo as u64 + (hi as u64) * 0x1_0000_0000
}

pub fn read_be_u24(b: &[u8], i: usize) -> (r: u32)
    requires
        i + 3 <= b@.len(),
    ensures
        r == be24(b@, i as int),
{
    (b[i] as u32) * 0x1_0000 + (b[i + 1] as u32) * 0x100 + b[i + 2] as u32
}

/// The bytes `b[start..end]`, borrowed from `b`.
pub fn subslice<'a>(b: &'a [u8], start: usize, end: usize) -> (r: &'a [u8])
    requires
        start <= end <= b@.len(),
    ensures
        r@ == b@.subrange(start as int, end as int),
{
    vstd::slice::slice_subrange(b, start, end)
}

/// Copies sixteen bytes starting at `i` into an array.
pub fn read_array16(b: &[u8], i: usize) -> (r: [u8; 16])
    requires
        i + 16 <= b@.len(),
    ensures
        r@ == b@.subrange(i as int, i + 16),
{
    let mut r = [0u8; 16];
    let mut k: usize = 0;
    while k < 16
        invariant
            i + 16 <= b@.len(),
            b@.len() == b.len(),
            k <= 16,
            r@.len() == 16,
            forall|j: int| 0 <= j < k ==> r@[j] == b@[i + j],
        decreases 16 - k,
    {
        r[k] = b[i + k];
        k = k + 1;
    }
    assert(r@ =~= b@.subrange(i as int, i + 16));
    r
}

/// Copies eight bytes starting at `i` into an array.
pub fn read_array8(b: &[u8], i: usize) -> (r: [u8; 8])
    requires
        i + 8 <= b@.len(),
    ensures
        r@ == b@.subrange(i as int, i + 8),
{
    let mut r = [0u8; 8];
    let mut k: usize = 0;
    while k < 8
        invariant
            i + 8 <= b@.len(),
            b@.len() == b.len(),
            k <= 8,
            r@.len() == 8,
            forall|j: int| 0 <= j < k ==> r@[j] == b@[i + j],
        decreases 8 - k,
    {
        r[k] = b[i + k];
        k = k + 1;
    }
    assert(r@ =~= b@.subrange(i as int, i + 8));
    r
}

} // verus!
