use vstd::prelude::*;

use crate::wire::{le16, le32, read_array8, read_u16, read_u32, subslice, ErrorKind};

verus! {

pub const SIG_SIZE: usize = 8;

/// The size of the legacy header that precedes the negotiate body.
pub const HEADER_SIZE: usize = 32;

/// The legacy header's first flag byte.
#[derive(Clone, Copy, Debug, PartialEq, Eq, Structural)]
pub struct Flags {
    pub bits: u8,
}

impl Flags {
    pub const LOCK_AND_READ_OK: u8 = 0x01;

    pub const BUF_AVAIL: u8 = 0x02;

    pub const CASE_INSENSITIVE: u8 = 0x08;

    pub const CANONICALIZED_PATHS: u8 = 0x10;

    pub const OPLOCK: u8 = 0x20;

    pub const OPBATCH: u8 = 0x40;

    pub const REPLY: u8 = 0x80;

    /// The bit that no flag defines.
    pub const UNDEFINED: u8 = 0x04;
}

/// The legacy header's second, 16-bit flag set.
#[derive(Clone, Copy, Debug, PartialEq, Eq, Structural)]
pub struct Flags2 {
    pub bits: u16,
}

impl Flags2 {
    pub const LONG_NAMES: u16 = 0x01;

    pub const EAS: u16 = 0x02;

    pub const SMB_SECURITY_SIGNATURE: u16 = 0x04;

    pub const COMPRESSED: u16 = 0x08;

    pub const SMB_SECURITY_SIGNATURE_REQUIRED: u16 = 0x10;

    pub const IS_LONG_NAME: u16 = 0x40;

    pub const REPARSE_PATH: u16 = 0x400;

    pub const EXTENDED_SECURITY: u16 = 0x800;

    pub const DFS: u16 = 0x1000;

    pub const PAGING_IO: u16 = 0x2000;

    pub const NT_STATUS: u16 = 0x4000;

    pub const UNICODE: u16 = 0x8000;

    /// The bits that no flag defines.
    pub const UNDEFINED: u16 = 0x03A0;
}

/// The 8-byte legacy security signature.
#[derive(Clone, Copy, Debug, PartialEq, Eq)]
pub struct Signature {
    pub data: [u8; SIG_SIZE],
}

impl View for Signature {
    type V = Seq<u8>;

    open spec fn view(&self) -> Seq<u8> {
        self.data@
    }
}

impl Signature {
    pub fn empty() -> (r: Signature)
        ensures
            r@ == Seq::new(8, |i: int| 0u8),
    {
        let r = Signature { data: [0u8; SIG_SIZE] };
        assert(r@ =~= Seq::new(8, |i: int| 0u8));
        r
    }
}

/// How far up the protocol versions a legacy negotiate request reaches.
#[derive(Clone, Copy, Debug, PartialEq, Eq, Structural)]
pub enum DialectLevel {
    NotSupported,
    Smb2,
    Smb2Plus,
}

/// The legacy negotiate header.
#[derive(Debug)]
pub struct Header {
    pub status: u32,
    pub flags: Flags,
    pub flags2: Flags2,
    pub tid: u16,
    pub pid: u32,
    pub uid: u16,
    pub mid: u16,
    pub signature: Signature,
}

pub ghost struct HeaderView {
    pub status: u32,
    pub flags: u8,
    pub flags2: u16,
    pub tid: u16,
    pub pid: u32,
    pub uid: u16,
    pub mid: u16,
    pub signature: Seq<u8>,
}

impl View for Header {
    type V = HeaderView;

    open spec fn view(&self) -> HeaderView {
        HeaderView {
            status: self.status,
            flags: self.flags.bits,
            flags2: self.flags2.bits,
            tid: self.tid,
            pid: self.pid,
            uid: self.uid,
            mid: self.mid,
            signature: self.signature@,
        }
    }
}

/// A legacy negotiate request: its header and the highest dialect level it offers.
#[derive(Debug)]
pub struct NegotiateRequest {
    pub header: Header,
    pub level: DialectLevel,
}

/// The process id from its high and low halves.
pub open spec fn spec_merge_pid(high: u16, low: u16) -> u32 {
    (high as int * 0x1_0000 + low as int) as u32
}

fn merge_pid(high: u16, low: u16) -> (r: u32)
    ensures
        r == spec_merge_pid(high, low),
{
    (high as u32) * 0x1_0000 + low as u32
}

/// The legacy negotiate header at the start of `b`, which takes 32 bytes; or the first
/// violation, checked in this order: length, protocol signature and negotiate command,
/// undefined bits of either flag set, a request marked as a reply.
pub open spec fn spec_parse_header(b: Seq<u8>) -> Result<HeaderView, ErrorKind> {
    if b.len() < HEADER_SIZE {
        Err(ErrorKind::Truncated)
    } else if !(b[0] == 0xFF && b[1] == 0x53 && b[2] == 0x4D && b[3] == 0x42 && b[4] == 0x72) {
        Err(ErrorKind::Tag)
    } else if b[9] & Flags::UNDEFINED != 0 {
        Err(ErrorKind::UnknownValue)
    } else if b[9] & Flags::REPLY != 0 {
        Err(ErrorKind::Direction)
    } else if le16(b, 10) & Flags2::UNDEFINED != 0 {
        Err(ErrorKind::UnknownValue)
    } else {
        Ok(
            HeaderView {
                status: le32(b, 5),
                flags: b[9],
                flags2: le16(b, 10),
                tid: le16(b, 24),
                pid: spec_merge_pid(le16(b, 12), le16(b, 26)),
                uid: le16(b, 28),
                mid: le16(b, 30),
                signature: b.subrange(14, 22),
            },
        )
    }
}

pub fn parse_header(input: &[u8]) -> (r: Result<Header, ErrorKind>)
    ensures
        match r {
            Ok(h) => spec_parse_header(input@) == Ok::<HeaderView, ErrorKind>(h@),
            Err(e) => spec_parse_header(input@) == Err::<HeaderView, ErrorKind>(e),
        },
{
    let b = input;
    if b.len() < HEADER_SIZE {
        return Err(ErrorKind::Truncated);
    }
    if !(b[0] == 0xFF && b[1] == 0x53 && b[2] == 0x4D && b[3] == 0x42 && b[4] == 0x72) {
        return Err(ErrorKind::Tag);
    }
    let flags = b[9];
    if flags & Flags::UNDEFINED != 0 {
        return Err(ErrorKind::UnknownValue);
    }
    if flags & Flags::REPLY != 0 {
        return Err(ErrorKind::Direction);
    }
    let flags2 = read_u16(b, 10);
    if flags2 & Flags2::UNDEFINED != 0 {
        return Err(ErrorKind::UnknownValue);
    }
    Ok(Header {
        status: read_u32(b, 5),
        flags: Flags { bits: flags },
        flags2: Flags2 { bits: flags2 },
        tid: read_u16(b, 24),
        pid: merge_pid(read_u16(b, 12), read_u16(b, 26)),
        uid: read_u16(b, 28),
        mid: read_u16(b, 30),
        signature: Signature { data: read_array8(b, 14) },
    })
}

/// The dialect string that names SMB 2.0.2 alone.
pub open spec fn smb2_002() -> Seq<u8> {
    seq![0x53u8, 0x4D, 0x42, 0x20, 0x32, 0x2E, 0x30, 0x30, 0x32]
}

/// The dialect string that names SMB 2.0.2 and every later dialect.
pub open spec fn smb2_wildcard() -> Seq<u8> {
    seq![0x53u8, 0x4D, 0x42, 0x20, 0x32, 0x2E, 0x3F, 0x3F, 0x3F]
}

pub open spec fn spec_level_of(s: Seq<u8>) -> DialectLevel {
    if s == smb2_002() {
        DialectLevel::Smb2
    } else if s == smb2_wildcard() {
        DialectLevel::Smb2Plus
    } else {
        DialectLevel::NotSupported
    }
}

/// The position of a level in the order `NotSupported < Smb2 < Smb2Plus`.
pub open spec fn rank(l: DialectLevel) -> int {
    match l {
        DialectLevel::NotSupported => 0,
        DialectLevel::Smb2 => 1,
        DialectLevel::Smb2Plus => 2,
    }
}

pub open spec fn spec_max_level(a: DialectLevel, b: DialectLevel) -> DialectLevel {
    if rank(a) >= rank(b) {
        a
    } else {
        b
    }
}

impl DialectLevel {
    /// The level that one dialect string offers.
    pub fn from_bytes(s: &[u8]) -> (r: DialectLevel)
        ensures
            r == spec_level_of(s@),
    {
        if s.len() != 9 || s[0] != 0x53 || s[1] != 0x4D || s[2] != 0x42 || s[3] != 0x20
            || s[4] != 0x32 || s[5] != 0x2E {
            proof {
                if s@.len() == 9 {
                    assert(smb2_002()[0] == 0x53 && smb2_002()[1] == 0x4D && smb2_002()[2] == 0x42);
                    assert(smb2_002()[3] == 0x20 && smb2_002()[4] == 0x32 && smb2_002()[5] == 0x2E);
                    assert(smb2_wildcard()[0] == 0x53 && smb2_wildcard()[1] == 0x4D);
                    assert(smb2_wildcard()[2] == 0x42 && smb2_wildcard()[3] == 0x20);
                    assert(smb2_wildcard()[4] == 0x32 && smb2_wildcard()[5] == 0x2E);
                }
            }
            return DialectLevel::NotSupported;
        }
        if s[6] == 0x30 && s[7] == 0x30 && s[8] == 0x32 {
            assert(s@ =~= smb2_002());
            DialectLevel::Smb2
        } else if s[6] == 0x3F && s[7] == 0x3F && s[8] == 0x3F {
            assert(s@ =~= smb2_wildcard());
            DialectLevel::Smb2Plus
        } else {
            assert(s@ != smb2_002() && s@ != smb2_wildcard()) by {
                assert(smb2_002()[6] == 0x30 && smb2_002()[7] == 0x30 && smb2_002()[8] == 0x32);
                assert(smb2_wildcard()[6] == 0x3F && smb2_wildcard()[7] == 0x3F);
                assert(smb2_wildcard()[8] == 0x3F);
            }
            DialectLevel::NotSupported
        }
    }
}

fn max_level(a: DialectLevel, b: DialectLevel) -> (r: DialectLevel)
    ensures
        r == spec_max_level(a, b),
{
    match (a, b) {
        (DialectLevel::Smb2Plus, _) => a,
        (DialectLevel::Smb2, DialectLevel::Smb2Plus) => b,
        (DialectLevel::Smb2, _) => a,
        (DialectLevel::NotSupported, DialectLevel::NotSupported) => a,
        (DialectLevel::NotSupported, _) => b,
    }
}

fn fold_dialect(accu: DialectLevel, add: &[u8]) -> (r: DialectLevel)
    ensures
        r == spec_max_level(accu, spec_level_of(add@)),
{
    max_level(accu, DialectLevel::from_bytes(add))
}

/// The first index at or after `i` that holds a NUL byte, or the length of `b`.
pub open spec fn nul_index(b: Seq<u8>, i: int) -> int
    decreases b.len() - i,
{
    if i >= b.len() {
        b.len() as int
    } else if b[i] == 0 {
        i
    } else {
        nul_index(b, i + 1)
    }
}

/// The dialect entry at `i`: a 0x02 marker, a non-empty string, a NUL terminator.
/// Returns the string and where the next entry starts.
pub open spec fn spec_entry(b: Seq<u8>, i: int) -> Option<(Seq<u8>, int)> {
    if 0 <= i < b.len() && b[i] == 0x02 {
        let j = nul_index(b, i + 1);
        if j > i + 1 && j < b.len() {
            Some((b.subrange(i + 1, j), j + 1))
        } else {
            None
        }
    } else {
        None
    }
}

/// The highest level among the entries from `i` on, up to the first byte that does not
/// start an entry.
pub open spec fn spec_fold_levels(b: Seq<u8>, i: int) -> DialectLevel
    decreases b.len() - i,
{
    match spec_entry(b, i) {
        None => DialectLevel::NotSupported,
        Some((s, next)) => if next > i {
            spec_max_level(spec_level_of(s), spec_fold_levels(b, next))
        } else {
            DialectLevel::NotSupported
        },
    }
}

/// The level of a dialect run: at least one entry, folded to the highest level.
pub open spec fn spec_parse_dialects(b: Seq<u8>) -> Result<DialectLevel, ErrorKind> {
    if spec_entry(b, 0) is None {
        Err(ErrorKind::Tag)
    } else {
        Ok(spec_fold_levels(b, 0))
    }
}

proof fn lemma_nul_index_bounds(b: Seq<u8>, i: int)
    requires
        0 <= i,
    ensures
        i <= nul_index(b, i) || (i > b.len() && nul_index(b, i) == b.len()),
        nul_index(b, i) <= b.len() || i > b.len(),
        forall|k: int| i <= k < nul_index(b, i) ==> b[k] != 0,
        nul_index(b, i) < b.len() ==> b[nul_index(b, i)] == 0,
    decreases b.len() - i,
{
    if i < b.len() && b[i] != 0 {
        lemma_nul_index_bounds(b, i + 1);
    }
}

fn find_nul(b: &[u8], i: usize) -> (r: usize)
    requires
        i <= b@.len(),
    ensures
        r == nul_index(b@, i as int),
{
    let mut k = i;
    while k < b.len() && b[k] != 0
        invariant
            i <= k <= b@.len(),
            nul_index(b@, k as int) == nul_index(b@, i as int),
        decreases b@.len() - k,
    {
        k = k + 1;
    }
    k
}

fn parse_entry<'a>(b: &'a [u8], i: usize) -> (r: Option<(&'a [u8], usize)>)
    requires
        i <= b@.len(),
    ensures
        match r {
            Some((s, next)) => spec_entry(b@, i as int) == Some((s@, next as int)),
            None => spec_entry(b@, i as int) is None,
        },
{
    if i < b.len() && b[i] == 0x02 {
        let j = find_nul(b, i + 1);
        if j > i + 1 && j < b.len() {
            return Some((subslice(b, i + 1, j), j + 1));
        }
    }
    None
}

/// Folds the dialect run `input` into the highest level it offers.
pub fn parse_dialects(input: &[u8]) -> (r: Result<DialectLevel, ErrorKind>)
    ensures
        match r {
            Ok(l) => spec_parse_dialects(input@) == Ok::<DialectLevel, ErrorKind>(l),
            Err(e) => spec_parse_dialects(input@) == Err::<DialectLevel, ErrorKind>(e),
        },
{
    match parse_entry(input, 0) {
        None => return Err(ErrorKind::Tag),
        Some(_) => {},
    }
    let ghost total = spec_fold_levels(input@, 0);
    let mut accu = DialectLevel::NotSupported;
    let mut i: usize = 0;
    loop
        invariant
            i <= input@.len(),
            spec_entry(input@, 0) is Some,
            total == spec_fold_levels(input@, 0),
            total == spec_max_level(accu, spec_fold_levels(input@, i as int)),
        decreases input@.len() - i,
    {
        match parse_entry(input, i) {
            None => {
                assert(spec_fold_levels(input@, i as int) == DialectLevel::NotSupported);
                return Ok(accu);
            },
            Some((s, next)) => {
                accu = fold_dialect(accu, s);
                i = next;
            },
        }
    }
}

/// The legacy negotiate request at the start of `b` and the number of bytes it takes;
/// or the first violation: in the header, then a word count other than zero, a byte
/// count past the input, a dialect run without a single entry.
pub open spec fn spec_parse_negotiate(b: Seq<u8>) -> Result<(HeaderView, DialectLevel, int), ErrorKind> {
    match spec_parse_header(b) {
        Err(e) => Err(e),
        Ok(h) => if b.len() < HEADER_SIZE + 3 {
            Err(ErrorKind::Truncated)
        } else if b[HEADER_SIZE as int] != 0 {
            Err(ErrorKind::Tag)
        } else if HEADER_SIZE + 3 + le16(b, HEADER_SIZE + 1) > b.len() {
            Err(ErrorKind::Truncated)
        } else {
            let end = HEADER_SIZE + 3 + le16(b, HEADER_SIZE + 1);
            match spec_parse_dialects(b.subrange(HEADER_SIZE + 3, end)) {
                Err(e) => Err(e),
                Ok(level) => Ok((h, level, end)),
            }
        },
    }
}

/// Decodes a legacy negotiate request.
pub fn parse_negotiate<'a>(input: &'a [u8]) -> (r: Result<(&'a [u8], NegotiateRequest), ErrorKind>)
    ensures
        match r {
            Ok((rest, req)) => match spec_parse_negotiate(input@) {
                Ok((h, level, end)) => {
                    &&& req.header@ == h
                    &&& req.level == level
                    &&& rest@ == input@.subrange(end, input@.len() as int)
                },
                Err(_) => false,
            },
            Err(e) => spec_parse_negotiate(input@) == Err::<
                (HeaderView, DialectLevel, int),
                ErrorKind,
            >(e),
        },
{
    let header = parse_header(input)?;
    if input.len() < HEADER_SIZE + 3 {
        return Err(ErrorKind::Truncated);
    }
    if input[HEADER_SIZE] != 0 {
        return Err(ErrorKind::Tag);
    }
    let count = read_u16(input, HEADER_SIZE + 1) as usize;
    if input.len() - (HEADER_SIZE + 3) < count {
        return Err(ErrorKind::Truncated);
    }
    let end = HEADER_SIZE + 3 + count;
    let level = parse_dialects(subslice(input, HEADER_SIZE + 3, end))?;
    Ok((subslice(input, end, input.len()), NegotiateRequest { header, level }))
}

} // verus!
