use vstd::prelude::*;

use crate::ntstatus::NTStatus;
use crate::wire::{le16, le32, le64, ErrorKind};
use crate::{spec_has_channel_sequence, spec_has_credit_charge, Dialect};

verus! {

/// The header's self-described size, which is also where the body starts.
pub const STRUCTURE_SIZE: u16 = 64;

pub const SIG_SIZE: usize = 16;

/// The header was sent by the server.
pub const SERVER_TO_REDIR: u32 = 0x1;

/// The header addresses the message by an async id rather than a tree id.
pub const ASYNC_COMMAND: u32 = 0x2;

pub const RELATED_OPERATIONS: u32 = 0x4;

pub const SIGNED: u32 = 0x8;

pub const PRIORITY_MASK: u32 = 0x70;

pub const DFS_OPERATIONS: u32 = 0x1000_0000;

pub const REPLAY_OPERATION: u32 = 0x2000_0000;

/// Every bit that no header flag defines.
pub const UNDEFINED_FLAGS: u32 = 0xCFFF_FF80;

/// The nineteen SMB2 commands.
#[derive(Clone, Copy, Debug, PartialEq, Eq, Structural)]
pub enum Command {
    Negotiate,
    SessionSetup,
    Logoff,
    TreeConnect,
    TreeDisconnect,
    Create,
    Close,
    Flush,
    Read,
    Write,
    Lock,
    Ioctl,
    Cancel,
    Echo,
    QueryDirectory,
    ChangeNotify,
    QueryInfo,
    SetInfo,
    OplockBreak,
}

impl Command {
    pub open spec fn spec_from_code(v: u16) -> Option<Command> {
        if v == 0x00 {
            Some(Command::Negotiate)
        } else if v == 0x01 {
            Some(Command::SessionSetup)
        } else if v == 0x02 {
            Some(Command::Logoff)
        } else if v == 0x03 {
            Some(Command::TreeConnect)
        } else if v == 0x04 {
            Some(Command::TreeDisconnect)
        } else if v == 0x05 {
            Some(Command::Create)
        } else if v == 0x06 {
            Some(Command::Close)
        } else if v == 0x07 {
            Some(Command::Flush)
        } else if v == 0x08 {
            Some(Command::Read)
        } else if v == 0x09 {
            Some(Command::Write)
        } else if v == 0x0A {
            Some(Command::Lock)
        } else if v == 0x0B {
            Some(Command::Ioctl)
        } else if v == 0x0C {
            Some(Command::Cancel)
        } else if v == 0x0D {
            Some(Command::Echo)
        } else if v == 0x0E {
            Some(Command::QueryDirectory)
        } else if v == 0x0F {
            Some(Command::ChangeNotify)
        } else if v == 0x10 {
            Some(Command::QueryInfo)
        } else if v == 0x11 {
            Some(Command::SetInfo)
        } else if v == 0x12 {
            Some(Command::OplockBreak)
        } else {
            None
        }
    }

    /// The command with code `v`, if there is one.
    pub fn from_code(v: u16) -> (r: Option<Command>)
        ensures
            r == Command::spec_from_code(v),
    {
        match v {
            0x00 => Some(Command::Negotiate),
            0x01 => Some(Command::SessionSetup),
            0x02 => Some(Command::Logoff),
            0x03 => Some(Command::TreeConnect),
            0x04 => Some(Command::TreeDisconnect),
            0x05 => Some(Command::Create),
            0x06 => Some(Command::Close),
            0x07 => Some(Command::Flush),
            0x08 => Some(Command::Read),
            0x09 => Some(Command::Write),
            0x0A => Some(Command::Lock),
            0x0B => Some(Command::Ioctl),
            0x0C => Some(Command::Cancel),
            0x0D => Some(Command::Echo),
            0x0E => Some(Command::QueryDirectory),
            0x0F => Some(Command::ChangeNotify),
            0x10 => Some(Command::QueryInfo),
            0x11 => Some(Command::SetInfo),
            0x12 => Some(Command::OplockBreak),
            _ => None,
        }
    }
}

/// The header flags, a set of the bits above.
#[derive(Clone, Copy, Debug, PartialEq, Eq, Structural)]
pub struct Flags {
    pub bits: u32,
}

impl Flags {
    /// The flag set with the given bits, if every one of them is defined.
    pub fn from_bits(bits: u32) -> (r: Option<Flags>)
        ensures
            match r {
                Some(f) => f.bits == bits && bits & UNDEFINED_FLAGS == 0,
                None => bits & UNDEFINED_FLAGS != 0,
            },
    {
        if bits & UNDEFINED_FLAGS == 0 {
            Some(Flags { bits })
        } else {
            None
        }
    }

    pub fn empty() -> (r: Flags)
        ensures
            r.bits == 0,
    {
        Flags { bits: 0 }
    }

    /// True where every bit of `mask` is set.
    pub fn contains(self, mask: u32) -> (r: bool)
        ensures
            r == (self.bits & mask == mask),
    {
        self.bits & mask == mask
    }

    pub fn is_server_to_redir(self) -> (r: bool)
        ensures
            r == (self.bits & SERVER_TO_REDIR != 0),
    {
        self.bits & SERVER_TO_REDIR != 0
    }

    pub fn is_async(self) -> (r: bool)
        ensures
            r == (self.bits & ASYNC_COMMAND != 0),
    {
        self.bits & ASYNC_COMMAND != 0
    }

    pub fn is_related(self) -> (r: bool)
        ensures
            r == (self.bits & RELATED_OPERATIONS != 0),
    {
        self.bits & RELATED_OPERATIONS != 0
    }

    pub fn is_signed(self) -> (r: bool)
        ensures
            r == (self.bits & SIGNED != 0),
    {
        self.bits & SIGNED != 0
    }

    pub fn is_dfs_operation(self) -> (r: bool)
        ensures
            r == (self.bits & DFS_OPERATIONS != 0),
    {
        self.bits & DFS_OPERATIONS != 0
    }

    pub fn is_replay(self) -> (r: bool)
        ensures
            r == (self.bits & REPLAY_OPERATION != 0),
    {
        self.bits & REPLAY_OPERATION != 0
    }

    /// The priority value held in the priority bits.
    pub fn priority(self) -> (r: u32)
        ensures
            r == (self.bits & PRIORITY_MASK) >> 4u32,
    {
        (self.bits & PRIORITY_MASK) >> 4u32
    }
}

/// How a message is addressed: exactly one of a tree id or an async id.
#[derive(Clone, Copy, Debug, PartialEq, Eq, Structural)]
pub enum SyncType {
    Async { async_id: u64 },
    Sync { tree_id: u32 },
}

/// The 16-byte message signature.
#[derive(Clone, Copy, Debug, PartialEq, Eq)]
pub struct Signature {
    pub data: [u8; SIG_SIZE],
}

impl View for Signature {
    type V = Seq<u8>;

    open spec fn view(&self) -> Seq<u8> {
        self.data@
    }
}

impl Signature {
    /// The all-zero signature of an unsigned message.
    pub fn empty() -> (r: Signature)
        ensures
            r@ == Seq::new(16, |i: int| 0u8),
    {
        let r = Signature { data: [0u8; SIG_SIZE] };
        assert(r@ =~= Seq::new(16, |i: int| 0u8));
        r
    }

    pub fn bytes(&self) -> (r: [u8; SIG_SIZE])
        ensures
            r@ == self@,
    {
        self.data
    }
}

/// A request header.
#[derive(Debug)]
pub struct Request {
    pub credit_charge: Option<u16>,
    pub credit_request: u16,
    pub channel_sequence: Option<u16>,
    pub flags: Flags,
    pub message_id: u64,
    pub sync_type: SyncType,
    pub session_id: u64,
    pub signature: Signature,
}

/// A response header.
#[derive(Debug)]
pub struct Response {
    pub credit_charge: Option<u16>,
    pub credit_response: u16,
    pub status: NTStatus,
    pub flags: Flags,
    pub message_id: u64,
    pub sync_type: SyncType,
    pub session_id: u64,
    pub signature: Signature,
}

/// The decoded fields of either kind of header: a request has no status, a response
/// no channel sequence.
pub ghost struct HeaderView {
    pub credit_charge: Option<u16>,
    pub credit: u16,
    pub channel_sequence: Option<u16>,
    pub status: Option<NTStatus>,
    pub flags: u32,
    pub message_id: u64,
    pub sync_type: SyncType,
    pub session_id: u64,
    pub signature: Seq<u8>,
}

impl View for Request {
    type V = HeaderView;

    open spec fn view(&self) -> HeaderView {
        HeaderView {
            credit_charge: self.credit_charge,
            credit: self.credit_request,
            channel_sequence: self.channel_sequence,
            status: None,
            flags: self.flags.bits,
            message_id: self.message_id,
            sync_type: self.sync_type,
            session_id: self.session_id,
            signature: self.signature@,
        }
    }
}

impl View for Response {
    type V = HeaderView;

    open spec fn view(&self) -> HeaderView {
        HeaderView {
            credit_charge: self.credit_charge,
            credit: self.credit_response,
            channel_sequence: None,
            status: Some(self.status),
            flags: self.flags.bits,
            message_id: self.message_id,
            sync_type: self.sync_type,
            session_id: self.session_id,
            signature: self.signature@,
        }
    }
}

/// A decoded header with the command it names and its body.
pub struct ParseResult<'a, T> {
    pub header: T,
    pub command: Command,
    pub body: &'a [u8],
}

/// The message addressing that the flags select: async iff the async bit is set.
pub open spec fn spec_sync_type(b: Seq<u8>) -> SyncType {
    if le32(b, 16) & ASYNC_COMMAND != 0 {
        SyncType::Async { async_id: le64(b, 32) }
    } else {
        SyncType::Sync { tree_id: le32(b, 36) }
    }
}

/// Where the body that follows the header ends: `next_command` when it points past
/// the header (a link of a compound chain), else the end of the input.
pub open spec fn spec_body_end(b: Seq<u8>) -> int {
    if le32(b, 20) > STRUCTURE_SIZE {
        le32(b, 20) as int
    } else {
        b.len() as int
    }
}

/// The header at the start of `b`, the command it names and where its body ends; or
/// the first violation, checked in this order: length, signature, structure size,
/// command code, undefined flag bits, direction, a chain offset beyond the input.
pub open spec fn spec_header(b: Seq<u8>, d: Dialect, is_response: bool) -> Result<
    (HeaderView, Command, int),
    ErrorKind,
> {
    if b.len() < STRUCTURE_SIZE {
        Err(ErrorKind::Truncated)
    } else if !(b[0] == 0xFE && b[1] == 0x53 && b[2] == 0x4D && b[3] == 0x42) {
        Err(ErrorKind::Tag)
    } else if le16(b, 4) != STRUCTURE_SIZE {
        Err(ErrorKind::StructureSize { expected: STRUCTURE_SIZE, found: le16(b, 4) })
    } else if Command::spec_from_code(le16(b, 12)) is None {
        Err(ErrorKind::UnknownValue)
    } else if le32(b, 16) & UNDEFINED_FLAGS != 0 {
        Err(ErrorKind::UnknownValue)
    } else if (le32(b, 16) & SERVER_TO_REDIR != 0) != is_response {
        Err(ErrorKind::Direction)
    } else if spec_body_end(b) > b.len() {
        Err(ErrorKind::Truncated)
    } else {
        Ok(
            (
                HeaderView {
                    credit_charge: if spec_has_credit_charge(d) {
                        Some(le16(b, 6))
                    } else {
                        None
                    },
                    credit: le16(b, 14),
                    channel_sequence: if spec_has_channel_sequence(d, is_response) {
                        Some(le16(b, 8))
                    } else {
                        None
                    },
                    status: if is_response {
                        Some(NTStatus::spec_from_code(le32(b, 8)))
                    } else {
                        None
                    },
                    flags: le32(b, 16),
                    message_id: le64(b, 24),
                    sync_type: spec_sync_type(b),
                    session_id: le64(b, 40),
                    signature: b.subrange(48, 64),
                },
                Command::spec_from_code(le16(b, 12))->Some_0,
                spec_body_end(b),
            ),
        )
    }
}

/// A decoded header's body ends at or after the header and within the input.
pub proof fn lemma_header_end(b: Seq<u8>, d: Dialect, is_response: bool)
    requires
        spec_header(b, d, is_response) is Ok,
    ensures
        STRUCTURE_SIZE <= spec_header(b, d, is_response)->Ok_0.2 <= b.len(),
{
}

/// Every decoded header is addressed in exactly one way: by an async id exactly when
/// the async flag is set, else by a tree id.
pub proof fn lemma_addressing(b: Seq<u8>, d: Dialect, is_response: bool)
    requires
        spec_header(b, d, is_response) is Ok,
    ensures
        ({
            let h = spec_header(b, d, is_response)->Ok_0.0;
            &&& (h.sync_type is Async) <==> (h.flags & ASYNC_COMMAND != 0)
            &&& (h.sync_type is Sync) <==> (h.flags & ASYNC_COMMAND == 0)
        }),
{
}

/// A `next_command` that points past the end of the input makes the header fail; the
/// body is never cut short to fit.
pub proof fn lemma_next_command_overrun(b: Seq<u8>, d: Dialect, is_response: bool)
    requires
        le32(b, 20) > STRUCTURE_SIZE,
        le32(b, 20) > b.len(),
    ensures
        spec_header(b, d, is_response) is Err,
{
}

/// The signature held in the sixteen bytes of `input`.
pub fn copy_sig(input: &[u8]) -> (r: Signature)
    requires
        input@.len() == SIG_SIZE,
    ensures
        r@ == input@,
{
    let data = crate::wire::read_array16(input, 0);
    assert(input@.subrange(0, 16) =~= input@);
    Signature { data }
}

/// The fields both kinds of header share, as read from the wire.
struct Fields<'a> {
    credit_charge: Option<u16>,
    credit: u16,
    channel_sequence: Option<u16>,
    status: u32,
    flags: Flags,
    message_id: u64,
    sync_type: SyncType,
    session_id: u64,
    signature: Signature,
    command: Command,
    body: &'a [u8],
    rest: &'a [u8],
}

/// What a successful decode of `input` must have produced.
pub open spec fn header_decoded(
    input: Seq<u8>,
    d: Dialect,
    is_response: bool,
    h: HeaderView,
    command: Command,
    body: Seq<u8>,
    rest: Seq<u8>,
) -> bool {
    match spec_header(input, d, is_response) {
        Ok((v, c, end)) => {
            &&& h == v
            &&& command == c
            &&& body == input.subrange(STRUCTURE_SIZE as int, end)
            &&& rest == input.subrange(end, input.len() as int)
        },
        Err(_) => false,
    }
}

fn parse_fields<'a>(input: &'a [u8], d: Dialect, is_response: bool) -> (r: Result<
    Fields<'a>,
    ErrorKind,
>)
    ensures
        match r {
            Ok(f) => match spec_header(input@, d, is_response) {
                Ok((v, c, end)) => {
                    &&& f.credit_charge == v.credit_charge
                    &&& f.credit == v.credit
                    &&& f.channel_sequence == v.channel_sequence
                    &&& is_response ==> v.status == Some(NTStatus::spec_from_code(f.status))
                    &&& f.flags.bits == v.flags
                    &&& f.message_id == v.message_id
                    &&& f.sync_type == v.sync_type
                    &&& f.session_id == v.session_id
                    &&& f.signature@ == v.signature
                    &&& f.command == c
                    &&& f.body@ == input@.subrange(STRUCTURE_SIZE as int, end)
                    &&& f.rest@ == input@.subrange(end, input@.len() as int)
                },
                Err(_) => false,
            },
            Err(e) => spec_header(input@, d, is_response) == Err::<
                (HeaderView, Command, int),
                ErrorKind,
            >(e),
        },
{
    let b = input;
    if b.len() < 64 {
        return Err(ErrorKind::Truncated);
    }
    if !(b[0] == 0xFE && b[1] == 0x53 && b[2] == 0x4D && b[3] == 0x42) {
        return Err(ErrorKind::Tag);
    }
    let size = crate::wire::read_u16(b, 4);
    if size != STRUCTURE_SIZE {
        return Err(ErrorKind::StructureSize { expected: STRUCTURE_SIZE, found: size });
    }
    let credit_charge = crate::wire::read_u16(b, 6);
    let status = crate::wire::read_u32(b, 8);
    let channel_sequence = crate::wire::read_u16(b, 8);
    let command = match Command::from_code(crate::wire::read_u16(b, 12)) {
        Some(c) => c,
        None => return Err(ErrorKind::UnknownValue),
    };
    let credit = crate::wire::read_u16(b, 14);
    let flags = match Flags::from_bits(crate::wire::read_u32(b, 16)) {
        Some(f) => f,
        None => return Err(ErrorKind::UnknownValue),
    };
    if flags.is_server_to_redir() != is_response {
        return Err(ErrorKind::Direction);
    }
    let next_command = crate::wire::read_u32(b, 20);
    let body_end: usize = if next_command > STRUCTURE_SIZE as u32 {
        if next_command as usize > b.len() {
            return Err(ErrorKind::Truncated);
        }
        next_command as usize
    } else {
        b.len()
    };
    let message_id = crate::wire::read_u64(b, 24);
    let sync_type = if flags.is_async() {
        SyncType::Async { async_id: crate::wire::read_u64(b, 32) }
    } else {
        SyncType::Sync { tree_id: crate::wire::read_u32(b, 36) }
    };
    let session_id = crate::wire::read_u64(b, 40);
    let signature = copy_sig(crate::wire::subslice(b, 48, 64));
    Ok(Fields {
        credit_charge: if crate::has_credit_charge(d) {
            Some(credit_charge)
        } else {
            None
        },
        credit,
        channel_sequence: if crate::has_channel_sequence(d, is_response) {
            Some(channel_sequence)
        } else {
            None
        },
        status,
        flags,
        message_id,
        sync_type,
        session_id,
        signature,
        command,
        body: crate::wire::subslice(b, 64, body_end),
        rest: crate::wire::subslice(b, body_end, b.len()),
    })
}

impl Request {
    /// Decodes the request header at the start of `input`, and locates its body and
    /// what follows it.
    pub fn parse<'a>(input: &'a [u8], dialect: Dialect) -> (r: Result<
        (&'a [u8], ParseResult<'a, Request>),
        ErrorKind,
    >)
        ensures
            match r {
                Ok((rest, p)) => header_decoded(
                    input@,
                    dialect,
                    false,
                    p.header@,
                    p.command,
                    p.body@,
                    rest@,
                ),
                Err(e) => spec_header(input@, dialect, false) == Err::<
                    (HeaderView, Command, int),
                    ErrorKind,
                >(e),
            },
    {
        let f = parse_fields(input, dialect, false)?;
        let header = Request {
            credit_charge: f.credit_charge,
            credit_request: f.credit,
            channel_sequence: f.channel_sequence,
            flags: f.flags,
            message_id: f.message_id,
            sync_type: f.sync_type,
            session_id: f.session_id,
            signature: f.signature,
        };
        Ok((f.rest, ParseResult { header, command: f.command, body: f.body }))
    }
}

impl Response {
    /// Decodes the response header at the start of `input`, and locates its body and
    /// what follows it.
    pub fn parse<'a>(input: &'a [u8], dialect: Dialect) -> (r: Result<
        (&'a [u8], ParseResult<'a, Response>),
        ErrorKind,
    >)
        ensures
            match r {
                Ok((rest, p)) => header_decoded(
                    input@,
                    dialect,
                    true,
                    p.header@,
                    p.command,
                    p.body@,
                    rest@,
                ),
                Err(e) => spec_header(input@, dialect, true) == Err::<
                    (HeaderView, Command, int),
                    ErrorKind,
                >(e),
            },
    {
        let f = parse_fields(input, dialect, true)?;
        let header = Response {
            credit_charge: f.credit_charge,
            credit_response: f.credit,
            status: NTStatus::from_code(f.status),
            flags: f.flags,
            message_id: f.message_id,
            sync_type: f.sync_type,
            session_id: f.session_id,
            signature: f.signature,
        };
        Ok((f.rest, ParseResult { header, command: f.command, body: f.body }))
    }
}

} // verus!
