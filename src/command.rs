use vstd::prelude::*;

pub mod close;
pub mod create;
pub mod error;
pub mod flush;
pub mod logoff;
pub mod negotiate;
pub mod session_setup;
pub mod tree_connect;
pub mod tree_disconnect;
pub mod read;
pub mod write;


use crate::header::{Command, STRUCTURE_SIZE};
use crate::ntstatus::NTStatus;
use crate::wire::{le32, ErrorKind};
use crate::{spec_has_channel_type, Dialect};

verus! {

/// The kind of RDMA channel descriptor that a read or write request carries.
#[derive(Clone, Copy, Debug, PartialEq, Eq, Structural)]
pub enum ChannelType {
    NoChannel,
    RdmaV1,
    RdmaV1Invalidate,
}

impl ChannelType {
    pub open spec fn spec_from_code(v: u32) -> Option<ChannelType> {
        if v == 0 {
            Some(ChannelType::NoChannel)
        } else if v == 1 {
            Some(ChannelType::RdmaV1)
        } else if v == 2 {
            Some(ChannelType::RdmaV1Invalidate)
        } else {
            None
        }
    }

    pub fn from_code(v: u32) -> (r: Option<ChannelType>)
        ensures
            r == ChannelType::spec_from_code(v),
    {
        match v {
            0 => Some(ChannelType::NoChannel),
            1 => Some(ChannelType::RdmaV1),
            2 => Some(ChannelType::RdmaV1Invalidate),
            _ => None,
        }
    }
}

/// An RDMA channel descriptor, borrowed from the message it was decoded from.
#[derive(Debug)]
pub enum Channel<'a> {
    NoChannel,
    RdmaV1(&'a [u8]),
    RdmaV1Invalidate(&'a [u8]),
}

pub ghost enum ChannelView {
    NoChannel,
    RdmaV1(Seq<u8>),
    RdmaV1Invalidate(Seq<u8>),
}

impl<'a> View for Channel<'a> {
    type V = ChannelView;

    open spec fn view(&self) -> ChannelView {
        match self {
            Channel::NoChannel => ChannelView::NoChannel,
            Channel::RdmaV1(b) => ChannelView::RdmaV1(b@),
            Channel::RdmaV1Invalidate(b) => ChannelView::RdmaV1Invalidate(b@),
        }
    }
}

/// The channel of type `t` whose descriptor is `buffer`.
pub open spec fn spec_channel(t: ChannelType, buffer: Seq<u8>) -> ChannelView {
    match t {
        ChannelType::NoChannel => ChannelView::NoChannel,
        ChannelType::RdmaV1 => ChannelView::RdmaV1(buffer),
        ChannelType::RdmaV1Invalidate => ChannelView::RdmaV1Invalidate(buffer),
    }
}

/// The channel type held in the four bytes at `i`: decoded from dialect 3.1.1 on (an
/// unknown value is `None` here), and always `ChannelType::NoChannel` before it.
pub open spec fn spec_channel_type(b: Seq<u8>, i: int, d: Dialect) -> Option<ChannelType> {
    if spec_has_channel_type(d) {
        ChannelType::spec_from_code(le32(b, i))
    } else {
        Some(ChannelType::NoChannel)
    }
}

pub fn read_channel_type(b: &[u8], i: usize, d: Dialect) -> (r: Option<ChannelType>)
    requires
        i + 4 <= b@.len(),
    ensures
        r == spec_channel_type(b@, i as int, d),
{
    if crate::has_channel_type(d) {
        ChannelType::from_code(crate::wire::read_u32(b, i))
    } else {
        Some(ChannelType::NoChannel)
    }
}

pub fn create_channel<'a>(buffer: &'a [u8], channel_type: ChannelType) -> (r: Channel<'a>)
    ensures
        r@ == spec_channel(channel_type, buffer@),
{
    match channel_type {
        ChannelType::NoChannel => Channel::NoChannel,
        ChannelType::RdmaV1 => Channel::RdmaV1(buffer),
        ChannelType::RdmaV1Invalidate => Channel::RdmaV1Invalidate(buffer),
    }
}

/// The body span `[start, end)` of a variable field declared at message offset `offset`
/// with `length` bytes; the field may not start before `boundary`, the end of the
/// command's fixed region, nor end past the body `b`.
pub open spec fn spec_variable_field(b: Seq<u8>, offset: u16, length: u16, boundary: u16) -> Result<
    (int, int),
    ErrorKind,
> {
    if offset < boundary {
        Err(ErrorKind::Offset { minimum: boundary as u64, declared: offset as u64 })
    } else if offset - STRUCTURE_SIZE + length > b.len() {
        Err(ErrorKind::Truncated)
    } else {
        Ok((offset - STRUCTURE_SIZE, offset - STRUCTURE_SIZE + length))
    }
}

pub fn variable_field(b: &[u8], offset: u16, length: u16, boundary: u16) -> (r: Result<
    (usize, usize),
    ErrorKind,
>)
    requires
        boundary >= STRUCTURE_SIZE,
    ensures
        match r {
            Ok((start, end)) => spec_variable_field(b@, offset, length, boundary) == Ok::<
                (int, int),
                ErrorKind,
            >((start as int, end as int)),
            Err(e) => spec_variable_field(b@, offset, length, boundary) == Err::<
                (int, int),
                ErrorKind,
            >(e),
        },
{
    if offset < boundary {
        return Err(ErrorKind::Offset { minimum: boundary as u64, declared: offset as u64 });
    }
    let start = (offset - STRUCTURE_SIZE) as usize;
    if start + length as usize > b.len() {
        return Err(ErrorKind::Truncated);
    }
    Ok((start, start + length as usize))
}

/// A decoded request body.
#[derive(Debug)]
pub enum RequestBody<'a> {
    Negotiate(negotiate::Request<'a>),
    SessionSetup(session_setup::Request<'a>),
    Logoff,
    TreeConnect(tree_connect::Request),
    TreeDisconnect,
    Create(create::Request),
    Close(close::Request),
    Flush(flush::Request),
    Read(read::Request<'a>),
    Write(write::Request<'a>),
    NotImplemented { command: Command, body: &'a [u8] },
}

/// A response body: failed operations and commands without a codec keep their bytes.
#[derive(Debug)]
pub enum ResponseBody<'a> {
    Error(error::Response),
    NotImplemented { command: Command, body: &'a [u8] },
}

pub ghost enum RequestBodyView {
    Negotiate(negotiate::RequestView),
    SessionSetup(session_setup::RequestView),
    Logoff,
    TreeConnect(tree_connect::RequestView),
    TreeDisconnect,
    Create(create::RequestView),
    Close(close::RequestView),
    Flush(Seq<u8>),
    Read(read::RequestView),
    Write(write::RequestView),
    NotImplemented { command: Command, body: Seq<u8> },
}

pub ghost enum ResponseBodyView {
    Error(error::Response),
    NotImplemented { command: Command, body: Seq<u8> },
}

impl<'a> View for RequestBody<'a> {
    type V = RequestBodyView;

    open spec fn view(&self) -> RequestBodyView {
        match self {
            RequestBody::Negotiate(r) => RequestBodyView::Negotiate(r@),
            RequestBody::SessionSetup(r) => RequestBodyView::SessionSetup(r@),
            RequestBody::Logoff => RequestBodyView::Logoff,
            RequestBody::TreeConnect(r) => RequestBodyView::TreeConnect(r@),
            RequestBody::TreeDisconnect => RequestBodyView::TreeDisconnect,
            RequestBody::Create(r) => RequestBodyView::Create(r@),
            RequestBody::Close(r) => RequestBodyView::Close(r@),
            RequestBody::Flush(r) => RequestBodyView::Flush(r.file_id@),
            RequestBody::Read(r) => RequestBodyView::Read(r@),
            RequestBody::Write(r) => RequestBodyView::Write(r@),
            RequestBody::NotImplemented { command, body } => RequestBodyView::NotImplemented {
                command: *command,
                body: body@,
            },
        }
    }
}

impl<'a> View for ResponseBody<'a> {
    type V = ResponseBodyView;

    open spec fn view(&self) -> ResponseBodyView {
        match self {
            ResponseBody::Error(r) => ResponseBodyView::Error(*r),
            ResponseBody::NotImplemented { command, body } => ResponseBodyView::NotImplemented {
                command: *command,
                body: body@,
            },
        }
    }
}

/// The value of `r`, without the count of bytes it took.
pub open spec fn value_of<V>(r: Result<(V, int), ErrorKind>) -> Result<V, ErrorKind> {
    match r {
        Ok((v, _)) => Ok(v),
        Err(e) => Err(e),
    }
}

/// The body of a request for `command`: decoded by the command's codec where it has one,
/// else kept as raw bytes.
#[verifier::opaque]
pub open spec fn spec_request_body(b: Seq<u8>, d: crate::Dialect, command: Command) -> Result<
    RequestBodyView,
    ErrorKind,
> {
    match command {
        Command::Negotiate => match value_of(negotiate::spec_parse(b)) {
            Ok(v) => Ok(RequestBodyView::Negotiate(v)),
            Err(e) => Err(e),
        },
        Command::SessionSetup => match value_of(session_setup::spec_parse_request(b, d)) {
            Ok(v) => Ok(RequestBodyView::SessionSetup(v)),
            Err(e) => Err(e),
        },
        Command::Logoff => match logoff::spec_parse_request(b) {
            Ok(_) => Ok(RequestBodyView::Logoff),
            Err(e) => Err(e),
        },
        Command::TreeConnect => match value_of(tree_connect::spec_parse_request(b)) {
            Ok(v) => Ok(RequestBodyView::TreeConnect(v)),
            Err(e) => Err(e),
        },
        Command::TreeDisconnect => match tree_disconnect::spec_parse_request(b) {
            Ok(_) => Ok(RequestBodyView::TreeDisconnect),
            Err(e) => Err(e),
        },
        Command::Create => match value_of(create::spec_parse_request(b)) {
            Ok(v) => Ok(RequestBodyView::Create(v)),
            Err(e) => Err(e),
        },
        Command::Close => match value_of(close::spec_parse_request(b)) {
            Ok(v) => Ok(RequestBodyView::Close(v)),
            Err(e) => Err(e),
        },
        Command::Flush => match value_of(flush::spec_parse_request(b)) {
            Ok(v) => Ok(RequestBodyView::Flush(v)),
            Err(e) => Err(e),
        },
        Command::Read => match value_of(read::spec_parse_request(b, d)) {
            Ok(v) => Ok(RequestBodyView::Read(v)),
            Err(e) => Err(e),
        },
        Command::Write => match value_of(write::spec_parse_request(b, d)) {
            Ok(v) => Ok(RequestBodyView::Write(v)),
            Err(e) => Err(e),
        },
        _ => Ok(RequestBodyView::NotImplemented { command, body: b }),
    }
}

/// The body of a response for `command` with status `status`: the raw bytes where the
/// status is not a success, else the placeholder that carries status and command.
pub open spec fn spec_response_body(b: Seq<u8>, command: Command, status: NTStatus) -> ResponseBodyView {
    if !status.spec_is_success() {
        ResponseBodyView::NotImplemented { command, body: b }
    } else {
        ResponseBodyView::Error(error::Response { status, command })
    }
}

impl<'a> RequestBody<'a> {
    /// Decodes the body of a request for `command`.
    pub fn parse(body: &'a [u8], dialect: crate::Dialect, command: Command) -> (r: Result<
        RequestBody<'a>,
        ErrorKind,
    >)
        ensures
            match r {
                Ok(v) => spec_request_body(body@, dialect, command) == Ok::<
                    RequestBodyView,
                    ErrorKind,
                >(v@),
                Err(e) => spec_request_body(body@, dialect, command) == Err::<
                    RequestBodyView,
                    ErrorKind,
                >(e),
            },
    {
        reveal(spec_request_body);
        let cmd = match command {
            Command::Negotiate => RequestBody::Negotiate(negotiate::parse(body)?.1),
            Command::SessionSetup => RequestBody::SessionSetup(
                session_setup::parse_request(body, dialect)?.1,
            ),
            Command::Logoff => {
                logoff::parse_request(body)?;
                RequestBody::Logoff
            },
            Command::TreeConnect => RequestBody::TreeConnect(tree_connect::parse_request(body)?.1),
            Command::TreeDisconnect => {
                tree_disconnect::parse_request(body)?;
                RequestBody::TreeDisconnect
            },
            Command::Create => RequestBody::Create(create::parse_request(body, dialect)?.1),
            Command::Close => RequestBody::Close(close::parse_request(body)?.1),
            Command::Flush => RequestBody::Flush(flush::parse_request(body)?.1),
            Command::Read => RequestBody::Read(read::parse_request(body, dialect)?.1),
            Command::Write => RequestBody::Write(write::parse_request(body, dialect)?.1),
            _ => RequestBody::NotImplemented { command, body },
        };
        Ok(cmd)
    }
}

impl<'a> ResponseBody<'a> {
    /// The body of a response for `command` with status `status`.
    pub fn parse(body: &'a [u8], command: Command, status: NTStatus) -> (r: ResponseBody<'a>)
        ensures
            r@ == spec_response_body(body@, command, status),
    {
        if !status.is_success() {
            return ResponseBody::NotImplemented { command, body };
        }
        ResponseBody::Error(error::Response { status, command })
    }
}

} // verus!
