use vstd::prelude::*;

use crate::header::STRUCTURE_SIZE;
use crate::wire::{le16, le32, read_u16, read_u32, subslice, ErrorKind};
use crate::{ClientGuid, Dialect};

verus! {

pub const REQUEST_STRUCTURE_SIZE: u16 = 36;

/// The security-mode bit that says signing is enabled.
pub const SIGNING_ENABLED: u16 = 0x01;

/// The security-mode bit that says signing is required.
pub const SIGNING_REQUIRED: u16 = 0x02;

/// The context type of preauth-integrity capabilities.
pub const PREAUTH_INTEGRITY_CAPABILITIES: u16 = 0x01;

/// The context type of encryption capabilities.
pub const ENCRYPTION_CAPABILITIES: u16 = 0x02;

/// The capability bits a client announces.
#[derive(Clone, Copy, Debug, PartialEq, Eq, Structural)]
pub struct Capabilities {
    pub bits: u8,
}

impl Capabilities {
    pub const DFS: u8 = 0x01;

    pub const LEASING: u8 = 0x02;

    pub const LARGE_MTU: u8 = 0x04;

    pub const MULTI_CHANNEL: u8 = 0x08;

    pub const PERSISTENT_HANDLES: u8 = 0x10;

    pub const DIRECTORY_LEASING: u8 = 0x20;

    pub const ENCRYPTION: u8 = 0x40;

    /// The capability set with the given bits, if every one of them is defined.
    pub fn from_bits(bits: u8) -> (r: Option<Capabilities>)
        ensures
            match r {
                Some(c) => c.bits == bits && bits & 0x80u8 == 0,
                None => bits & 0x80u8 != 0,
            },
    {
        if bits & 0x80u8 == 0 {
            Some(Capabilities { bits })
        } else {
            None
        }
    }
}

#[derive(Clone, Copy, Debug, PartialEq, Eq, Structural)]
pub enum HashAlgorithm {
    Sha512,
}

#[derive(Clone, Copy, Debug, PartialEq, Eq, Structural)]
pub enum Cipher {
    Aes128Ccm,
    Aes128Gcm,
}

impl HashAlgorithm {
    pub open spec fn spec_from_code(v: u16) -> Option<HashAlgorithm> {
        if v == 1 {
            Some(HashAlgorithm::Sha512)
        } else {
            None
        }
    }
}

impl Cipher {
    pub open spec fn spec_from_code(v: u16) -> Option<Cipher> {
        if v == 1 {
            Some(Cipher::Aes128Ccm)
        } else if v == 2 {
            Some(Cipher::Aes128Gcm)
        } else {
            None
        }
    }
}

/// The hash algorithms and salt of a preauth-integrity context.
#[derive(Debug)]
pub struct PreauthIntegrityCapabilities<'a> {
    pub hash_algorithms: Vec<HashAlgorithm>,
    pub salt: &'a [u8],
}

/// One negotiate context.
#[derive(Debug)]
pub enum Context<'a> {
    PreauthIntegrityCapabilities(PreauthIntegrityCapabilities<'a>),
    EncryptionCapabilities(Vec<Cipher>),
    Unknown(&'a [u8]),
}

pub ghost enum ContextView {
    PreauthIntegrityCapabilities { hash_algorithms: Seq<HashAlgorithm>, salt: Seq<u8> },
    EncryptionCapabilities(Seq<Cipher>),
    Unknown(Seq<u8>),
}

impl<'a> View for Context<'a> {
    type V = ContextView;

    open spec fn view(&self) -> ContextView {
        match self {
            Context::PreauthIntegrityCapabilities(p) => ContextView::PreauthIntegrityCapabilities {
                hash_algorithms: p.hash_algorithms@,
                salt: p.salt@,
            },
            Context::EncryptionCapabilities(c) => ContextView::EncryptionCapabilities(c@),
            Context::Unknown(b) => ContextView::Unknown(b@),
        }
    }
}

/// The views of a list of contexts.
pub open spec fn contexts_view(v: Seq<Context>) -> Seq<ContextView> {
    v.map_values(|c: Context| c@)
}

/// A negotiate request.
#[derive(Debug)]
pub struct Request<'a> {
    pub signing_enabled: bool,
    pub signing_required: bool,
    pub capabilities: Capabilities,
    pub client_guid: ClientGuid,
    pub dialects: Vec<Dialect>,
    pub negotiate_contexts: Vec<Context<'a>>,
}

pub ghost struct RequestView {
    pub signing_enabled: bool,
    pub signing_required: bool,
    pub capabilities: u8,
    pub client_guid: Seq<u8>,
    pub dialects: Seq<Dialect>,
    pub negotiate_contexts: Seq<ContextView>,
}

impl<'a> View for Request<'a> {
    type V = RequestView;

    open spec fn view(&self) -> RequestView {
        RequestView {
            signing_enabled: self.signing_enabled,
            signing_required: self.signing_required,
            capabilities: self.capabilities.bits,
            client_guid: self.client_guid@,
            dialects: self.dialects@,
            negotiate_contexts: contexts_view(self.negotiate_contexts@),
        }
    }
}

/// The `n` little-endian 16-bit values that start at `start`.
pub open spec fn spec_u16_list(b: Seq<u8>, start: int, n: int) -> Seq<u16> {
    Seq::new(n as nat, |i: int| le16(b, start + 2 * i))
}

pub open spec fn spec_dialects(codes: Seq<u16>) -> Option<Seq<Dialect>> {
    if forall|i: int| 0 <= i < codes.len() ==> (#[trigger] Dialect::spec_from_code(codes[i])) is Some {
        Some(codes.map_values(|c: u16| Dialect::spec_from_code(c)->Some_0))
    } else {
        None
    }
}

pub open spec fn spec_hash_algorithms(codes: Seq<u16>) -> Option<Seq<HashAlgorithm>> {
    if forall|i: int|
        0 <= i < codes.len() ==> (#[trigger] HashAlgorithm::spec_from_code(codes[i])) is Some {
        Some(codes.map_values(|c: u16| HashAlgorithm::spec_from_code(c)->Some_0))
    } else {
        None
    }
}

pub open spec fn spec_ciphers(codes: Seq<u16>) -> Option<Seq<Cipher>> {
    if forall|i: int| 0 <= i < codes.len() ==> (#[trigger] Cipher::spec_from_code(codes[i])) is Some {
        Some(codes.map_values(|c: u16| Cipher::spec_from_code(c)->Some_0))
    } else {
        None
    }
}

fn read_u16_list(b: &[u8], start: usize, n: usize) -> (r: Vec<u16>)
    requires
        start + 2 * n <= b@.len(),
    ensures
        r@ == spec_u16_list(b@, start as int, n as int),
{
    let mut r: Vec<u16> = Vec::with_capacity(n);
    let mut k: usize = 0;
    while k < n
        invariant
            start + 2 * n <= b@.len(),
            b@.len() == b.len(),
            k <= n,
            r@.len() == k,
            forall|j: int| 0 <= j < k ==> r@[j] == le16(b@, start + 2 * j),
        decreases n - k,
    {
        r.push(read_u16(b, start + 2 * k));
        k = k + 1;
    }
    assert(r@ =~= spec_u16_list(b@, start as int, n as int));
    r
}

fn dialects_from_codes(codes: &Vec<u16>) -> (r: Option<Vec<Dialect>>)
    ensures
        match r {
            Some(v) => spec_dialects(codes@) == Some(v@),
            None => spec_dialects(codes@) == None::<Seq<Dialect>>,
        },
{
    let mut v: Vec<Dialect> = Vec::with_capacity(codes.len());
    let mut k: usize = 0;
    while k < codes.len()
        invariant
            k <= codes@.len(),
            v@.len() == k,
            forall|j: int| 0 <= j < k ==> Dialect::spec_from_code(codes@[j]) == Some(v@[j]),
        decreases codes@.len() - k,
    {
        match Dialect::from_code(codes[k]) {
            Some(d) => v.push(d),
            None => return None,
        }
        k = k + 1;
    }
    assert(v@ =~= codes@.map_values(|c: u16| Dialect::spec_from_code(c)->Some_0));
    Some(v)
}

fn hash_algorithms_from_codes(codes: &Vec<u16>) -> (r: Option<Vec<HashAlgorithm>>)
    ensures
        match r {
            Some(v) => spec_hash_algorithms(codes@) == Some(v@),
            None => spec_hash_algorithms(codes@) == None::<Seq<HashAlgorithm>>,
        },
{
    let mut v: Vec<HashAlgorithm> = Vec::with_capacity(codes.len());
    let mut k: usize = 0;
    while k < codes.len()
        invariant
            k <= codes@.len(),
            v@.len() == k,
            forall|j: int| 0 <= j < k ==> HashAlgorithm::spec_from_code(codes@[j]) == Some(v@[j]),
        decreases codes@.len() - k,
    {
        if codes[k] == 1 {
            v.push(HashAlgorithm::Sha512);
        } else {
            assert(HashAlgorithm::spec_from_code(codes@[k as int]) is None);
            return None;
        }
        k = k + 1;
    }
    assert(v@ =~= codes@.map_values(|c: u16| HashAlgorithm::spec_from_code(c)->Some_0));
    Some(v)
}

fn ciphers_from_codes(codes: &Vec<u16>) -> (r: Option<Vec<Cipher>>)
    ensures
        match r {
            Some(v) => spec_ciphers(codes@) == Some(v@),
            None => spec_ciphers(codes@) == None::<Seq<Cipher>>,
        },
{
    let mut v: Vec<Cipher> = Vec::with_capacity(codes.len());
    let mut k: usize = 0;
    while k < codes.len()
        invariant
            k <= codes@.len(),
            v@.len() == k,
            forall|j: int| 0 <= j < k ==> Cipher::spec_from_code(codes@[j]) == Some(v@[j]),
        decreases codes@.len() - k,
    {
        if codes[k] == 1 {
            v.push(Cipher::Aes128Ccm);
        } else if codes[k] == 2 {
            v.push(Cipher::Aes128Gcm);
        } else {
            assert(Cipher::spec_from_code(codes@[k as int]) is None);
            return None;
        }
        k = k + 1;
    }
    assert(v@ =~= codes@.map_values(|c: u16| Cipher::spec_from_code(c)->Some_0));
    Some(v)
}

/// The context of type `ctype` whose body is `b`. A preauth-integrity body holds a
/// 2-byte algorithm count, a 2-byte salt length, the algorithm list, and the salt, which
/// takes the rest of the body; an encryption body holds a 2-byte count and the cipher
/// list; any other type is kept as raw bytes. An unknown algorithm or cipher fails.
pub open spec fn spec_context(b: Seq<u8>, ctype: u16) -> Result<ContextView, ErrorKind> {
    if ctype == PREAUTH_INTEGRITY_CAPABILITIES {
        if b.len() < 4 || 4 + 2 * le16(b, 0) > b.len() {
            Err(ErrorKind::Truncated)
        } else {
            match spec_hash_algorithms(spec_u16_list(b, 4, le16(b, 0) as int)) {
                None => Err(ErrorKind::UnknownValue),
                Some(algorithms) => Ok(
                    ContextView::PreauthIntegrityCapabilities {
                        hash_algorithms: algorithms,
                        salt: b.subrange(4 + 2 * le16(b, 0), b.len() as int),
                    },
                ),
            }
        }
    } else if ctype == ENCRYPTION_CAPABILITIES {
        if b.len() < 2 || 2 + 2 * le16(b, 0) > b.len() {
            Err(ErrorKind::Truncated)
        } else {
            match spec_ciphers(spec_u16_list(b, 2, le16(b, 0) as int)) {
                None => Err(ErrorKind::UnknownValue),
                Some(ciphers) => Ok(ContextView::EncryptionCapabilities(ciphers)),
            }
        }
    } else {
        Ok(ContextView::Unknown(b))
    }
}

impl<'a> Context<'a> {
    /// Decodes the body of a context of type `ctype`.
    pub fn new(data: &'a [u8], ctype: u16) -> (r: Result<Context<'a>, ErrorKind>)
        ensures
            match r {
                Ok(c) => spec_context(data@, ctype) == Ok::<ContextView, ErrorKind>(c@),
                Err(e) => spec_context(data@, ctype) == Err::<ContextView, ErrorKind>(e),
            },
    {
        assert(data@.len() == data.len());
        if ctype == PREAUTH_INTEGRITY_CAPABILITIES {
            if data.len() < 4 {
                return Err(ErrorKind::Truncated);
            }
            let count = read_u16(data, 0) as usize;
            if 4 + 2 * count > data.len() {
                return Err(ErrorKind::Truncated);
            }
            let codes = read_u16_list(data, 4, count);
            match hash_algorithms_from_codes(&codes) {
                None => Err(ErrorKind::UnknownValue),
                Some(hash_algorithms) => Ok(
                    Context::PreauthIntegrityCapabilities(
                        PreauthIntegrityCapabilities {
                            hash_algorithms,
                            salt: subslice(data, 4 + 2 * count, data.len()),
                        },
                    ),
                ),
            }
        } else if ctype == ENCRYPTION_CAPABILITIES {
            if data.len() < 2 {
                return Err(ErrorKind::Truncated);
            }
            let count = read_u16(data, 0) as usize;
            if 2 + 2 * count > data.len() {
                return Err(ErrorKind::Truncated);
            }
            let codes = read_u16_list(data, 2, count);
            match ciphers_from_codes(&codes) {
                None => Err(ErrorKind::UnknownValue),
                Some(ciphers) => Ok(Context::EncryptionCapabilities(ciphers)),
            }
        } else {
            Ok(Context::Unknown(data))
        }
    }
}

/// The padding that brings the message offset `offset` to the next multiple of eight.
pub open spec fn ctx_padding(offset: int) -> int {
    (8 - offset % 8) % 8
}

/// Where the context record that follows body index `p` starts: at the next body index
/// whose message offset is a multiple of eight.
pub open spec fn record_start(p: int) -> int {
    p + ctx_padding(STRUCTURE_SIZE + p)
}

/// The context record whose padding starts at body index `p`, and the body index just
/// past its data: 2-byte type, 2-byte length, 4 reserved bytes, then that many bytes.
pub open spec fn spec_record(b: Seq<u8>, p: int) -> Result<(ContextView, int), ErrorKind> {
    let s = record_start(p);
    if s + 8 > b.len() {
        Err(ErrorKind::Truncated)
    } else if s + 8 + le16(b, s + 2) > b.len() {
        Err(ErrorKind::Truncated)
    } else {
        let end = s + 8 + le16(b, s + 2);
        match spec_context(b.subrange(s + 8, end), le16(b, s)) {
            Ok(c) => Ok((c, end)),
            Err(e) => Err(e),
        }
    }
}

/// `r` with the contexts `pre` put in front of its list.
pub open spec fn prepend(pre: Seq<ContextView>, r: Result<(Seq<ContextView>, int), ErrorKind>) -> Result<
    (Seq<ContextView>, int),
    ErrorKind,
> {
    match r {
        Ok((cs, end)) => Ok((pre + cs, end)),
        Err(e) => Err(e),
    }
}

/// The `n` context records that follow body index `p`, and the body index just past
/// the last one.
pub open spec fn spec_contexts(b: Seq<u8>, p: int, n: nat) -> Result<(Seq<ContextView>, int), ErrorKind>
    decreases n,
{
    if n == 0 {
        Ok((Seq::empty(), p))
    } else {
        match spec_record(b, p) {
            Ok((c, next)) => prepend(seq![c], spec_contexts(b, next, (n - 1) as nat)),
            Err(e) => Err(e),
        }
    }
}

/// Decodes one context record that follows body index `pos`, padding included.
pub fn parse_negotiate_context<'a>(input: &'a [u8], pos: usize) -> (r: Result<
    (Context<'a>, usize),
    ErrorKind,
>)
    requires
        pos <= input@.len(),
    ensures
        match r {
            Ok((c, next)) => spec_record(input@, pos as int) == Ok::<(ContextView, int), ErrorKind>(
                (c@, next as int),
            ),
            Err(e) => spec_record(input@, pos as int) == Err::<(ContextView, int), ErrorKind>(e),
        },
{
    assert(input@.len() == input.len());
    let padding = (8 - pos % 8) % 8;
    assert(ctx_padding(STRUCTURE_SIZE + pos) == padding);
    if input.len() - pos < padding + 8 {
        return Err(ErrorKind::Truncated);
    }
    let s = pos + padding;
    let context_type = read_u16(input, s);
    let data_length = read_u16(input, s + 2) as usize;
    if input.len() - (s + 8) < data_length {
        return Err(ErrorKind::Truncated);
    }
    let end = s + 8 + data_length;
    let c = Context::new(subslice(input, s + 8, end), context_type)?;
    Ok((c, end))
}

/// The bytes that the headers and declared data lengths of `n` records take, the first
/// record following body index `p`.
pub open spec fn declared_bytes(b: Seq<u8>, p: int, n: nat) -> int
    decreases n,
{
    if n == 0 {
        0
    } else {
        let s = record_start(p);
        8 + le16(b, s + 2) + declared_bytes(b, s + 8 + le16(b, s + 2), (n - 1) as nat)
    }
}

/// The alignment padding in front of each of `n` records, the first record following
/// body index `p`.
pub open spec fn padding_bytes(b: Seq<u8>, p: int, n: nat) -> int
    decreases n,
{
    if n == 0 {
        0
    } else {
        let s = record_start(p);
        ctx_padding(STRUCTURE_SIZE + p) + padding_bytes(b, s + 8 + le16(b, s + 2), (n - 1) as nat)
    }
}

/// Decoding `n` context records yields `n` contexts and takes exactly the records'
/// headers and declared lengths plus at most seven bytes of alignment padding per
/// record, within the body.
pub proof fn lemma_context_consumption(b: Seq<u8>, p: int, n: nat)
    requires
        0 <= p <= b.len(),
        spec_contexts(b, p, n) is Ok,
    ensures
        match spec_contexts(b, p, n) {
            Ok((cs, end)) => {
                &&& cs.len() == n
                &&& end == p + declared_bytes(b, p, n) + padding_bytes(b, p, n)
                &&& 0 <= padding_bytes(b, p, n) <= 7 * n
                &&& p <= end <= b.len()
            },
            Err(_) => false,
        },
    decreases n,
{
    if n > 0 {
        let s = record_start(p);
        let next = s + 8 + le16(b, s + 2);
        let pad = ctx_padding(STRUCTURE_SIZE + p);
        assert(0 <= pad <= 7);
        assert(s == p + pad);
        let (c, next2) = spec_record(b, p)->Ok_0;
        assert(next2 == next);
        assert(spec_contexts(b, p, n) == prepend(seq![c], spec_contexts(b, next, (n - 1) as nat)));
        lemma_context_consumption(b, next, (n - 1) as nat);
    }
}

proof fn lemma_prepend_assoc(a: Seq<ContextView>, c: ContextView, r: Result<(Seq<ContextView>, int), ErrorKind>)
    ensures
        prepend(a, prepend(seq![c], r)) == prepend(a.push(c), r),
{
    match r {
        Ok((cs, end)) => {
            assert(a + (seq![c] + cs) =~= a.push(c) + cs);
        },
        Err(e) => {},
    }
}

/// Decodes `count` context records, the first one at or after body index `pos`.
pub fn parse_negotiate_contexts<'a>(input: &'a [u8], pos: usize, count: u16) -> (r: Result<
    (Vec<Context<'a>>, usize),
    ErrorKind,
>)
    requires
        pos <= input@.len(),
    ensures
        match r {
            Ok((cs, end)) => spec_contexts(input@, pos as int, count as nat) == Ok::<
                (Seq<ContextView>, int),
                ErrorKind,
            >((contexts_view(cs@), end as int)),
            Err(e) => spec_contexts(input@, pos as int, count as nat) == Err::<
                (Seq<ContextView>, int),
                ErrorKind,
            >(e),
        },
{
    let mut contexts: Vec<Context<'a>> = Vec::new();
    let mut p: usize = pos;
    let mut k: u16 = 0;
    while k < count
        invariant
            k <= count,
            p <= input@.len(),
            spec_contexts(input@, pos as int, count as nat) == prepend(
                contexts_view(contexts@),
                spec_contexts(input@, p as int, (count - k) as nat),
            ),
        decreases count - k,
    {
        match parse_negotiate_context(input, p) {
            Ok((c, next)) => {
                proof {
                    lemma_prepend_assoc(
                        contexts_view(contexts@),
                        c@,
                        spec_contexts(input@, next as int, (count - k - 1) as nat),
                    );
                    assert(contexts_view(contexts@.push(c)) =~= contexts_view(contexts@).push(c@));
                }
                contexts.push(c);
                p = next;
            },
            Err(e) => {
                return Err(e);
            },
        }
        k = k + 1;
    }
    assert(contexts_view(contexts@) + Seq::empty() =~= contexts_view(contexts@));
    Ok((contexts, p))
}

/// Whether the dialect list offers 3.1.1, which brings a negotiate context list.
pub open spec fn offers_contexts(dialects: Seq<Dialect>) -> bool {
    dialects.contains(Dialect::Smb3_1_1)
}

pub open spec fn spec_request_view(b: Seq<u8>, dialects: Seq<Dialect>, contexts: Seq<ContextView>) -> RequestView {
    RequestView {
        signing_enabled: le16(b, 4) & SIGNING_ENABLED != 0,
        signing_required: le16(b, 4) & SIGNING_REQUIRED != 0,
        capabilities: le32(b, 8) as u8,
        client_guid: b.subrange(12, 28),
        dialects,
        negotiate_contexts: contexts,
    }
}

/// The negotiate request at the start of the body `b` and the number of bytes it
/// takes; or the first violation, checked in this order: length of the fixed region,
/// structure size, a zero dialect count, undefined capability bits, the dialect list's
/// length and its values, and, where 3.1.1 is offered, a context offset that points back
/// into what was already read, a context offset past the body, and the contexts.
pub open spec fn spec_parse(b: Seq<u8>) -> Result<(RequestView, int), ErrorKind> {
    if b.len() < REQUEST_STRUCTURE_SIZE {
        Err(ErrorKind::Truncated)
    } else if le16(b, 0) != REQUEST_STRUCTURE_SIZE {
        Err(ErrorKind::StructureSize { expected: REQUEST_STRUCTURE_SIZE, found: le16(b, 0) })
    } else if le16(b, 2) == 0 {
        Err(ErrorKind::Constraint)
    } else if (le32(b, 8) as u8) & 0x80u8 != 0 {
        Err(ErrorKind::UnknownValue)
    } else {
        let n = le16(b, 2) as int;
        let list_end = REQUEST_STRUCTURE_SIZE + 2 * n;
        if list_end > b.len() {
            Err(ErrorKind::Truncated)
        } else {
            match spec_dialects(spec_u16_list(b, REQUEST_STRUCTURE_SIZE as int, n)) {
                None => Err(ErrorKind::UnknownValue),
                Some(dialects) => {
                    if !offers_contexts(dialects) {
                        Ok((spec_request_view(b, dialects, Seq::empty()), list_end))
                    } else {
                        let current = STRUCTURE_SIZE + list_end;
                        let offset = le32(b, 28) as int;
                        if offset < current {
                            Err(
                                ErrorKind::Offset {
                                    minimum: current as u64,
                                    declared: offset as u64,
                                },
                            )
                        } else if offset - STRUCTURE_SIZE > b.len() {
                            Err(ErrorKind::Truncated)
                        } else {
                            match spec_contexts(b, offset - STRUCTURE_SIZE, le16(b, 32) as nat) {
                                Ok((contexts, end)) => Ok(
                                    (spec_request_view(b, dialects, contexts), end),
                                ),
                                Err(e) => Err(e),
                            }
                        }
                    }
                },
            }
        }
    }
}

/// Where 3.1.1 is offered, a context offset that points back into the fixed region or
/// the dialect list always makes the request fail.
pub proof fn lemma_offset_in_fixed_region_fails(b: Seq<u8>)
    requires
        b.len() >= REQUEST_STRUCTURE_SIZE + 2 * le16(b, 2),
        spec_dialects(spec_u16_list(b, REQUEST_STRUCTURE_SIZE as int, le16(b, 2) as int)) matches Some(
            ds,
        ) && offers_contexts(ds),
        le32(b, 28) < STRUCTURE_SIZE + REQUEST_STRUCTURE_SIZE + 2 * le16(b, 2),
    ensures
        spec_parse(b) is Err,
{
}

fn contains_smb3_1_1(dialects: &Vec<Dialect>) -> (r: bool)
    ensures
        r == offers_contexts(dialects@),
{
    let mut k: usize = 0;
    while k < dialects.len()
        invariant
            k <= dialects@.len(),
            forall|j: int| 0 <= j < k ==> dialects@[j] != Dialect::Smb3_1_1,
        decreases dialects@.len() - k,
    {
        if dialects[k] == Dialect::Smb3_1_1 {
            assert(dialects@[k as int] == Dialect::Smb3_1_1);
            return true;
        }
        k = k + 1;
    }
    false
}

/// Decodes a negotiate request body.
pub fn parse<'a>(data: &'a [u8]) -> (r: Result<(&'a [u8], Request<'a>), ErrorKind>)
    ensures
        match r {
            Ok((rest, req)) => match spec_parse(data@) {
                Ok((v, n)) => req@ == v && rest@ == data@.subrange(n, data@.len() as int),
                Err(_) => false,
            },
            Err(e) => spec_parse(data@) == Err::<(RequestView, int), ErrorKind>(e),
        },
{
    assert(data@.len() == data.len());
    if data.len() < 36 {
        return Err(ErrorKind::Truncated);
    }
    let size = read_u16(data, 0);
    if size != REQUEST_STRUCTURE_SIZE {
        return Err(ErrorKind::StructureSize { expected: REQUEST_STRUCTURE_SIZE, found: size });
    }
    let dialect_count = read_u16(data, 2);
    if dialect_count == 0 {
        return Err(ErrorKind::Constraint);
    }
    let security_mode = read_u16(data, 4);
    let capabilities = match Capabilities::from_bits(#[verifier::truncate] (read_u32(data, 8) as u8)) {
        Some(c) => c,
        None => return Err(ErrorKind::UnknownValue),
    };
    let client_guid = ClientGuid::from_slice(subslice(data, 12, 28));
    let context_offset = read_u32(data, 28);
    let context_count = read_u16(data, 32);
    let list_end = 36 + 2 * dialect_count as usize;
    if list_end > data.len() {
        return Err(ErrorKind::Truncated);
    }
    let codes = read_u16_list(data, 36, dialect_count as usize);
    let dialects = match dialects_from_codes(&codes) {
        Some(d) => d,
        None => return Err(ErrorKind::UnknownValue),
    };
    let (negotiate_contexts, end) = if contains_smb3_1_1(&dialects) {
        let current = STRUCTURE_SIZE as u64 + list_end as u64;
        if (context_offset as u64) < current {
            return Err(
                ErrorKind::Offset { minimum: current, declared: context_offset as u64 },
            );
        }
        let start = context_offset as u64 - STRUCTURE_SIZE as u64;
        if start > data.len() as u64 {
            return Err(ErrorKind::Truncated);
        }
        let (contexts, end) = parse_negotiate_contexts(data, start as usize, context_count)?;
        proof {
            lemma_context_consumption(data@, start as int, context_count as nat);
        }
        (contexts, end)
    } else {
        (Vec::new(), list_end)
    };
    let req = Request {
        signing_enabled: security_mode & SIGNING_ENABLED != 0,
        signing_required: security_mode & SIGNING_REQUIRED != 0,
        capabilities,
        client_guid,
        dialects,
        negotiate_contexts,
    };
    proof {
        if !offers_contexts(dialects@) {
            assert(contexts_view(Seq::<Context>::empty()) =~= Seq::<ContextView>::empty());
        }
    }
    Ok((subslice(data, end, data.len()), req))
}

} // verus!
