use vstd::prelude::*;

pub mod command;
pub mod header;
pub mod ntstatus;
pub mod smb1;
pub mod transport;
pub mod wire;

use crate::command::{
    spec_request_body, spec_response_body, RequestBody, RequestBodyView, ResponseBody,
    ResponseBodyView,
};
use crate::header::{lemma_header_end, spec_body_end, spec_header, HeaderView, STRUCTURE_SIZE};
use crate::transport::{spec_get_payload, FrameError};
use crate::wire::{le16, ErrorKind};

verus! {

/// A negotiated protocol version, ordered by its numeric protocol value.
#[derive(Clone, Copy, Debug, PartialEq, Eq, Structural)]
pub enum Dialect {
    Smb2_0_2,
    Smb2_1_0,
    Smb3_0_0,
    Smb3_0_2,
    Smb3_1_1,
}

impl Dialect {
    pub open spec fn spec_code(self) -> u16 {
        match self {
            Dialect::Smb2_0_2 => 0x0202,
            Dialect::Smb2_1_0 => 0x0210,
            Dialect::Smb3_0_0 => 0x0300,
            Dialect::Smb3_0_2 => 0x0302,
            Dialect::Smb3_1_1 => 0x0311,
        }
    }

    /// The dialect's value on the wire, which is also its protocol order.
    pub fn code(self) -> (r: u16)
        ensures
            r == self.spec_code(),
    {
        match self {
            Dialect::Smb2_0_2 => 0x0202,
            Dialect::Smb2_1_0 => 0x0210,
            Dialect::Smb3_0_0 => 0x0300,
            Dialect::Smb3_0_2 => 0x0302,
            Dialect::Smb3_1_1 => 0x0311,
        }
    }

    pub open spec fn spec_from_code(v: u16) -> Option<Dialect> {
        if v == 0x0202 {
            Some(Dialect::Smb2_0_2)
        } else if v == 0x0210 {
            Some(Dialect::Smb2_1_0)
        } else if v == 0x0300 {
            Some(Dialect::Smb3_0_0)
        } else if v == 0x0302 {
            Some(Dialect::Smb3_0_2)
        } else if v == 0x0311 {
            Some(Dialect::Smb3_1_1)
        } else {
            None
        }
    }

    /// The dialect whose wire value is `v`, if there is one.
    pub fn from_code(v: u16) -> (r: Option<Dialect>)
        ensures
            r == Dialect::spec_from_code(v),
            r matches Some(d) ==> d.spec_code() == v,
    {
        match v {
            0x0202 => Some(Dialect::Smb2_0_2),
            0x0210 => Some(Dialect::Smb2_1_0),
            0x0300 => Some(Dialect::Smb3_0_0),
            0x0302 => Some(Dialect::Smb3_0_2),
            0x0311 => Some(Dialect::Smb3_1_1),
            _ => None,
        }
    }
}

// The dialect-gated fields, in one place.

/// The header carries a credit charge after dialect 2.0.2.
pub open spec fn spec_has_credit_charge(d: Dialect) -> bool {
    d.spec_code() > 0x0202
}

/// A request header carries a channel sequence from dialect 3.0.0 on.
pub open spec fn spec_has_channel_sequence(d: Dialect, is_response: bool) -> bool {
    !is_response && d.spec_code() >= 0x0300
}

/// Read and write requests carry a channel type from dialect 3.1.1 on.
pub open spec fn spec_has_channel_type(d: Dialect) -> bool {
    d.spec_code() >= 0x0311
}

/// From dialect 3.0.0 on, a session-setup request must carry no flags.
pub open spec fn spec_session_flags_must_be_empty(d: Dialect) -> bool {
    d.spec_code() >= 0x0300
}

pub fn has_credit_charge(d: Dialect) -> (r: bool)
    ensures
        r == spec_has_credit_charge(d),
{
    d.code() > 0x0202
}

pub fn has_channel_sequence(d: Dialect, is_response: bool) -> (r: bool)
    ensures
        r == spec_has_channel_sequence(d, is_response),
{
    !is_response && d.code() >= 0x0300
}

pub fn has_channel_type(d: Dialect) -> (r: bool)
    ensures
        r == spec_has_channel_type(d),
{
    d.code() >= 0x0311
}

pub fn session_flags_must_be_empty(d: Dialect) -> (r: bool)
    ensures
        r == spec_session_flags_must_be_empty(d),
{
    d.code() >= 0x0300
}

/// An opaque 16-byte file handle.
#[derive(Clone, Copy, Debug, PartialEq, Eq)]
pub struct FileId {
    pub data: [u8; 16],
}

impl View for FileId {
    type V = Seq<u8>;

    open spec fn view(&self) -> Seq<u8> {
        self.data@
    }
}

impl FileId {
    /// The file id held in the sixteen bytes of `id`.
    pub fn from_slice(id: &[u8]) -> (r: FileId)
        requires
            id@.len() == 16,
        ensures
            r@ == id@,
    {
        let data = wire::read_array16(id, 0);
        assert(id@.subrange(0, 16) =~= id@);
        FileId { data }
    }

    pub fn bytes(&self) -> (r: [u8; 16])
        ensures
            r@ == self@,
    {
        self.data
    }
}

/// The 16-byte GUID that a client announces in its negotiate request.
#[derive(Clone, Copy, Debug, PartialEq, Eq)]
pub struct ClientGuid {
    pub data: [u8; 16],
}

impl View for ClientGuid {
    type V = Seq<u8>;

    open spec fn view(&self) -> Seq<u8> {
        self.data@
    }
}

impl ClientGuid {
    /// The GUID held in the sixteen bytes of `id`.
    pub fn from_slice(id: &[u8]) -> (r: ClientGuid)
        requires
            id@.len() == 16,
        ensures
            r@ == id@,
    {
        let data = wire::read_array16(id, 0);
        assert(id@.subrange(0, 16) =~= id@);
        ClientGuid { data }
    }

    pub fn bytes(&self) -> (r: [u8; 16])
        ensures
            r@ == self@,
    {
        self.data
    }
}

/// The text that a sequence of UTF-16 code units decodes to, or `None` where the
/// sequence holds an unpaired surrogate.
pub uninterp spec fn utf16_text(units: Seq<u16>) -> Option<Seq<char>>;

/// Relies on `String::from_utf16`: it decodes the code units, and fails exactly where
/// they are not valid UTF-16; an empty sequence gives the empty string.
#[verifier::external_body]
fn string_from_utf16(units: &[u16]) -> (r: Option<String>)
    ensures
        match r {
            Some(s) => utf16_text(units@) == Some(s@),
            None => utf16_text(units@) == None::<Seq<char>>,
        },
        match r {
            Some(s) => units@.len() == 0 ==> s@.len() == 0,
            None => units@.len() != 0,
        },
{
    String::from_utf16(units).ok()
}

/// The UTF-16 code units of a little-endian byte sequence.
pub open spec fn utf16_units(b: Seq<u8>) -> Seq<u16> {
    Seq::new(b.len() / 2, |k: int| le16(b, 2 * k))
}

/// The text of a UTF-16LE byte field: none for an odd length or invalid code units.
pub open spec fn spec_utf16le(b: Seq<u8>) -> Option<Seq<char>> {
    if b.len() % 2 != 0 {
        None
    } else {
        utf16_text(utf16_units(b))
    }
}

/// Decodes a UTF-16LE byte field into owned text.
pub fn utf16le_to_string(data: &[u8]) -> (r: Result<String, ErrorKind>)
    ensures
        match r {
            Ok(s) => spec_utf16le(data@) == Some(s@),
            Err(e) => spec_utf16le(data@) == None::<Seq<char>> && e == ErrorKind::Text,
        },
{
    if data.len() % 2 != 0 {
        return Err(ErrorKind::Text);
    }
    let n = data.len() / 2;
    let mut units: Vec<u16> = Vec::with_capacity(n);
    let mut k: usize = 0;
    while k < n
        invariant
            n == data@.len() / 2,
            data@.len() == data.len(),
            k <= n,
            units@.len() == k,
            forall|j: int| 0 <= j < k ==> units@[j] == le16(data@, 2 * j),
        decreases n - k,
    {
        units.push(wire::read_u16(data, 2 * k));
        k = k + 1;
    }
    assert(units@ =~= utf16_units(data@));
    match string_from_utf16(units.as_slice()) {
        Some(s) => Ok(s),
        None => Err(ErrorKind::Text),
    }
}

/// Why a stream position could not be decoded.
#[derive(Clone, Copy, Debug, PartialEq, Eq, Structural)]
pub enum Error {
    /// The stream does not yet hold a whole message; at least this many more bytes are
    /// needed, after which the decode is retried from the same position.
    Incomplete(usize),
    /// The message is malformed: `position` is the byte offset, within the input, of the
    /// record marker or chain link that failed.
    Invalid { position: usize, kind: ErrorKind },
}

/// A decoded request.
#[derive(Debug)]
pub struct Request<'a> {
    pub header: header::Request,
    pub body: RequestBody<'a>,
}

/// A decoded response.
#[derive(Debug)]
pub struct Response<'a> {
    pub header: header::Response,
    pub body: ResponseBody<'a>,
}

impl<'a> View for Request<'a> {
    type V = (HeaderView, RequestBodyView);

    open spec fn view(&self) -> (HeaderView, RequestBodyView) {
        (self.header@, self.body@)
    }
}

impl<'a> View for Response<'a> {
    type V = (HeaderView, ResponseBodyView);

    open spec fn view(&self) -> (HeaderView, ResponseBodyView) {
        (self.header@, self.body@)
    }
}

pub open spec fn requests_view(v: Seq<Request>) -> Seq<(HeaderView, RequestBodyView)> {
    v.map_values(|m: Request| m@)
}

pub open spec fn responses_view(v: Seq<Response>) -> Seq<(HeaderView, ResponseBodyView)> {
    v.map_values(|m: Response| m@)
}

/// `r` with the messages `pre` put in front.
pub open spec fn prepend_messages<T>(pre: Seq<T>, r: Result<Seq<T>, (int, ErrorKind)>) -> Result<
    Seq<T>,
    (int, ErrorKind),
> {
    match r {
        Ok(ms) => Ok(pre + ms),
        Err(e) => Err(e),
    }
}

/// The request at the start of `link` and the number of bytes it takes: its header and
/// the body that the header locates, decoded by the command's codec.
pub open spec fn spec_request_link(link: Seq<u8>, d: Dialect) -> Result<
    ((HeaderView, RequestBodyView), int),
    ErrorKind,
> {
    match spec_header(link, d, false) {
        Err(e) => Err(e),
        Ok((h, command, end)) => match spec_request_body(
            link.subrange(STRUCTURE_SIZE as int, end),
            d,
            command,
        ) {
            Err(e) => Err(e),
            Ok(body) => Ok(((h, body), end)),
        },
    }
}

/// The response at the start of `link` and the number of bytes it takes.
pub open spec fn spec_response_link(link: Seq<u8>, d: Dialect) -> Result<
    ((HeaderView, ResponseBodyView), int),
    ErrorKind,
> {
    match spec_header(link, d, true) {
        Err(e) => Err(e),
        Ok((h, command, end)) => Ok(
            (
                (
                    h,
                    spec_response_body(
                        link.subrange(STRUCTURE_SIZE as int, end),
                        command,
                        h.status->Some_0,
                    ),
                ),
                end,
            ),
        ),
    }
}

/// The requests of the compound chain whose link at byte `pos` of the message `b` is
/// decoded next. The chain goes on for as long as a link's end leaves bytes over; a
/// failure names the failing link's position, and no later link is tried.
pub open spec fn spec_request_chain(b: Seq<u8>, d: Dialect, pos: int) -> Result<
    Seq<(HeaderView, RequestBodyView)>,
    (int, ErrorKind),
>
    decreases b.len() - pos,
{
    match spec_request_link(b.subrange(pos, b.len() as int), d) {
        Err(e) => Err((pos, e)),
        Ok((m, end)) => if end > 0 && pos + end < b.len() {
            prepend_messages(seq![m], spec_request_chain(b, d, pos + end))
        } else {
            Ok(seq![m])
        },
    }
}

/// The responses of the compound chain whose link at byte `pos` of the message `b` is
/// decoded next, as for requests.
pub open spec fn spec_response_chain(b: Seq<u8>, d: Dialect, pos: int) -> Result<
    Seq<(HeaderView, ResponseBodyView)>,
    (int, ErrorKind),
>
    decreases b.len() - pos,
{
    match spec_response_link(b.subrange(pos, b.len() as int), d) {
        Err(e) => Err((pos, e)),
        Ok((m, end)) => if end > 0 && pos + end < b.len() {
            prepend_messages(seq![m], spec_response_chain(b, d, pos + end))
        } else {
            Ok(seq![m])
        },
    }
}

/// Decodes the request at the start of `link`; returns what follows it.
pub fn parse_request_link<'a>(link: &'a [u8], dialect: Dialect) -> (r: Result<
    (&'a [u8], Request<'a>),
    ErrorKind,
>)
    ensures
        match r {
            Ok((rest, m)) => match spec_request_link(link@, dialect) {
                Ok((v, end)) => {
                    &&& m@ == v
                    &&& STRUCTURE_SIZE <= end <= link@.len()
                    &&& rest@ == link@.subrange(end, link@.len() as int)
                },
                Err(_) => false,
            },
            Err(e) => spec_request_link(link@, dialect) == Err::<
                ((HeaderView, RequestBodyView), int),
                ErrorKind,
            >(e),
        },
{
    let (rest, p) = header::Request::parse(link, dialect)?;
    proof {
        lemma_header_end(link@, dialect, false);
    }
    let body = RequestBody::parse(p.body, dialect, p.command)?;
    Ok((rest, Request { header: p.header, body }))
}

/// Decodes the response at the start of `link`; returns what follows it.
pub fn parse_response_link<'a>(link: &'a [u8], dialect: Dialect) -> (r: Result<
    (&'a [u8], Response<'a>),
    ErrorKind,
>)
    ensures
        match r {
            Ok((rest, m)) => match spec_response_link(link@, dialect) {
                Ok((v, end)) => {
                    &&& m@ == v
                    &&& STRUCTURE_SIZE <= end <= link@.len()
                    &&& rest@ == link@.subrange(end, link@.len() as int)
                },
                Err(_) => false,
            },
            Err(e) => spec_response_link(link@, dialect) == Err::<
                ((HeaderView, ResponseBodyView), int),
                ErrorKind,
            >(e),
        },
{
    let (rest, p) = header::Response::parse(link, dialect)?;
    proof {
        lemma_header_end(link@, dialect, true);
    }
    let body = ResponseBody::parse(p.body, p.command, p.header.status);
    Ok((rest, Response { header: p.header, body }))
}

/// Decodes the compound chain of requests that fills the message `input`.
pub fn parse_request_chain<'a>(input: &'a [u8], dialect: Dialect) -> (r: Result<
    Vec<Request<'a>>,
    (usize, ErrorKind),
>)
    ensures
        match r {
            Ok(v) => spec_request_chain(input@, dialect, 0) == Ok::<
                Seq<(HeaderView, RequestBodyView)>,
                (int, ErrorKind),
            >(requests_view(v@)),
            Err((position, kind)) => spec_request_chain(input@, dialect, 0) == Err::<
                Seq<(HeaderView, RequestBodyView)>,
                (int, ErrorKind),
            >((position as int, kind)) && position <= input@.len(),
        },
{
    assert(input@.len() == input.len());
    let mut result: Vec<Request<'a>> = Vec::new();
    let mut cur = input;
    let mut pos: usize = 0;
    assert(input@.subrange(0, input@.len() as int) =~= input@);
    loop
        invariant
            pos <= input@.len(),
            input@.len() == input.len(),
            cur@ == input@.subrange(pos as int, input@.len() as int),
            spec_request_chain(input@, dialect, 0) == prepend_messages(
                requests_view(result@),
                spec_request_chain(input@, dialect, pos as int),
            ),
        decreases input@.len() - pos,
    {
        let (rest, m) = match parse_request_link(cur, dialect) {
            Ok(x) => x,
            Err(kind) => return Err((pos, kind)),
        };
        let ghost before = requests_view(result@);
        let ghost end = spec_request_link(cur@, dialect)->Ok_0.1;
        result.push(m);
        proof {
            assert(requests_view(result@) =~= before.push(m@));
        }
        if rest.len() == 0 {
            proof {
                assert(before + seq![m@] =~= before.push(m@));
            }
            return Ok(result);
        }
        proof {
            match spec_request_chain(input@, dialect, pos + end) {
                Ok(ms) => {
                    assert(before + (seq![m@] + ms) =~= before.push(m@) + ms);
                },
                Err(_) => {},
            }
        }
        pos = input.len() - rest.len();
        cur = rest;
    }
}

/// Decodes the compound chain of responses that fills the message `input`.
pub fn parse_response_chain<'a>(input: &'a [u8], dialect: Dialect) -> (r: Result<
    Vec<Response<'a>>,
    (usize, ErrorKind),
>)
    ensures
        match r {
            Ok(v) => spec_response_chain(input@, dialect, 0) == Ok::<
                Seq<(HeaderView, ResponseBodyView)>,
                (int, ErrorKind),
            >(responses_view(v@)),
            Err((position, kind)) => spec_response_chain(input@, dialect, 0) == Err::<
                Seq<(HeaderView, ResponseBodyView)>,
                (int, ErrorKind),
            >((position as int, kind)) && position <= input@.len(),
        },
{
    assert(input@.len() == input.len());
    let mut result: Vec<Response<'a>> = Vec::new();
    let mut cur = input;
    let mut pos: usize = 0;
    assert(input@.subrange(0, input@.len() as int) =~= input@);
    loop
        invariant
            pos <= input@.len(),
            input@.len() == input.len(),
            cur@ == input@.subrange(pos as int, input@.len() as int),
            spec_response_chain(input@, dialect, 0) == prepend_messages(
                responses_view(result@),
                spec_response_chain(input@, dialect, pos as int),
            ),
        decreases input@.len() - pos,
    {
        let (rest, m) = match parse_response_link(cur, dialect) {
            Ok(x) => x,
            Err(kind) => return Err((pos, kind)),
        };
        let ghost before = responses_view(result@);
        let ghost end = spec_response_link(cur@, dialect)->Ok_0.1;
        result.push(m);
        proof {
            assert(responses_view(result@) =~= before.push(m@));
        }
        if rest.len() == 0 {
            proof {
                assert(before + seq![m@] =~= before.push(m@));
            }
            return Ok(result);
        }
        proof {
            match spec_response_chain(input@, dialect, pos + end) {
                Ok(ms) => {
                    assert(before + (seq![m@] + ms) =~= before.push(m@) + ms);
                },
                Err(_) => {},
            }
        }
        pos = input.len() - rest.len();
        cur = rest;
    }
}

/// The requests framed at the start of the stream `b`, and where the stream goes on
/// after them; or why there are none.
pub open spec fn spec_parse(b: Seq<u8>, d: Dialect) -> Result<
    (Seq<(HeaderView, RequestBodyView)>, int),
    Error,
> {
    match spec_get_payload(b) {
        Err(FrameError::Incomplete(n)) => Err(Error::Incomplete(n)),
        Err(FrameError::Invalid(kind)) => Err(Error::Invalid { position: 0, kind }),
        Ok(end) => match spec_request_chain(b.subrange(4, end), d, 0) {
            Ok(ms) => Ok((ms, end)),
            Err((p, kind)) => Err(Error::Invalid { position: (4 + p) as usize, kind }),
        },
    }
}

/// The responses framed at the start of the stream `b`, and where the stream goes on
/// after them; or why there are none.
pub open spec fn spec_parse_response(b: Seq<u8>, d: Dialect) -> Result<
    (Seq<(HeaderView, ResponseBodyView)>, int),
    Error,
> {
    match spec_get_payload(b) {
        Err(FrameError::Incomplete(n)) => Err(Error::Incomplete(n)),
        Err(FrameError::Invalid(kind)) => Err(Error::Invalid { position: 0, kind }),
        Ok(end) => match spec_response_chain(b.subrange(4, end), d, 0) {
            Ok(ms) => Ok((ms, end)),
            Err((p, kind)) => Err(Error::Invalid { position: (4 + p) as usize, kind }),
        },
    }
}

/// Decodes the requests of the message framed at the start of `input`: returns what
/// follows the message, and its requests in chain order.
pub fn parse<'a>(input: &'a [u8], dialect: Dialect) -> (r: Result<
    (&'a [u8], Vec<Request<'a>>),
    Error,
>)
    ensures
        match r {
            Ok((rest, v)) => match spec_parse(input@, dialect) {
                Ok((ms, end)) => requests_view(v@) == ms && rest@ == input@.subrange(
                    end,
                    input@.len() as int,
                ),
                Err(_) => false,
            },
            Err(e) => spec_parse(input@, dialect) == Err::<
                (Seq<(HeaderView, RequestBodyView)>, int),
                Error,
            >(e),
        },
{
    match transport::get_payload(input) {
        Err(FrameError::Incomplete(n)) => Err(Error::Incomplete(n)),
        Err(FrameError::Invalid(kind)) => Err(Error::Invalid { position: 0, kind }),
        Ok((rest, payload)) => match parse_request_chain(payload, dialect) {
            Ok(v) => Ok((rest, v)),
            Err((p, kind)) => Err(Error::Invalid { position: 4 + p, kind }),
        },
    }
}

/// Decodes the responses of the message framed at the start of `input`: returns what
/// follows the message, and its responses in chain order.
pub fn parse_response<'a>(input: &'a [u8], dialect: Dialect) -> (r: Result<
    (&'a [u8], Vec<Response<'a>>),
    Error,
>)
    ensures
        match r {
            Ok((rest, v)) => match spec_parse_response(input@, dialect) {
                Ok((ms, end)) => responses_view(v@) == ms && rest@ == input@.subrange(
                    end,
                    input@.len() as int,
                ),
                Err(_) => false,
            },
            Err(e) => spec_parse_response(input@, dialect) == Err::<
                (Seq<(HeaderView, ResponseBodyView)>, int),
                Error,
            >(e),
        },
{
    match transport::get_payload(input) {
        Err(FrameError::Incomplete(n)) => Err(Error::Incomplete(n)),
        Err(FrameError::Invalid(kind)) => Err(Error::Invalid { position: 0, kind }),
        Ok((rest, payload)) => match parse_response_chain(payload, dialect) {
            Ok(v) => Ok((rest, v)),
            Err((p, kind)) => Err(Error::Invalid { position: 4 + p, kind }),
        },
    }
}

/// The legacy negotiate request that fills the message `b`.
pub open spec fn spec_smb1_nego_complete(b: Seq<u8>) -> Result<
    (smb1::HeaderView, smb1::DialectLevel),
    ErrorKind,
> {
    match smb1::spec_parse_negotiate(b) {
        Err(e) => Err(e),
        Ok((h, level, end)) => if end != b.len() {
            Err(ErrorKind::TrailingBytes)
        } else {
            Ok((h, level))
        },
    }
}

/// Decodes a legacy negotiate request that must fill the whole message `input`.
pub fn parse_smb1_nego_request_complete(input: &[u8]) -> (r: Result<smb1::NegotiateRequest, ErrorKind>)
    ensures
        match r {
            Ok(req) => spec_smb1_nego_complete(input@) == Ok::<
                (smb1::HeaderView, smb1::DialectLevel),
                ErrorKind,
            >((req.header@, req.level)),
            Err(e) => spec_smb1_nego_complete(input@) == Err::<
                (smb1::HeaderView, smb1::DialectLevel),
                ErrorKind,
            >(e),
        },
{
    let (rem, out) = smb1::parse_negotiate(input)?;
    if rem.len() != 0 {
        return Err(ErrorKind::TrailingBytes);
    }
    Ok(out)
}

/// The legacy negotiate request framed at the start of the stream `b`, and where the
/// stream goes on after it; or why there is none.
pub open spec fn spec_smb1_nego(b: Seq<u8>) -> Result<
    (smb1::HeaderView, smb1::DialectLevel, int),
    Error,
> {
    match spec_get_payload(b) {
        Err(FrameError::Incomplete(n)) => Err(Error::Incomplete(n)),
        Err(FrameError::Invalid(kind)) => Err(Error::Invalid { position: 0, kind }),
        Ok(end) => match spec_smb1_nego_complete(b.subrange(4, end)) {
            Ok((h, level)) => Ok((h, level, end)),
            Err(kind) => Err(Error::Invalid { position: 4, kind }),
        },
    }
}

/// Decodes the legacy negotiate request framed at the start of `input`, a client's
/// probe for the protocol versions it may use; returns what follows the message.
pub fn parse_smb1_nego_request<'a>(input: &'a [u8]) -> (r: Result<
    (&'a [u8], smb1::NegotiateRequest),
    Error,
>)
    ensures
        match r {
            Ok((rest, req)) => match spec_smb1_nego(input@) {
                Ok((h, level, end)) => {
                    &&& req.header@ == h
                    &&& req.level == level
                    &&& rest@ == input@.subrange(end, input@.len() as int)
                },
                Err(_) => false,
            },
            Err(e) => spec_smb1_nego(input@) == Err::<
                (smb1::HeaderView, smb1::DialectLevel, int),
                Error,
            >(e),
        },
{
    match transport::get_payload(input) {
        Err(FrameError::Incomplete(n)) => Err(Error::Incomplete(n)),
        Err(FrameError::Invalid(kind)) => Err(Error::Invalid { position: 0, kind }),
        Ok((rest, payload)) => match parse_smb1_nego_request_complete(payload) {
            Ok(req) => Ok((rest, req)),
            Err(kind) => Err(Error::Invalid { position: 4, kind }),
        },
    }
}

/// Decoding is a function of the bytes and the dialect: the same bytes decoded twice with
/// the same dialect give structurally identical results.
pub proof fn lemma_decode_idempotent(b1: Seq<u8>, b2: Seq<u8>, d: Dialect)
    requires
        b1 == b2,
    ensures
        spec_parse(b1, d) == spec_parse(b2, d),
        spec_parse_response(b1, d) == spec_parse_response(b2, d),
{
}

/// The sizes of the links of the chain whose link at byte `pos` of `b` comes next, as
/// their headers declare them.
pub open spec fn link_sizes(b: Seq<u8>, pos: int) -> Seq<int>
    decreases b.len() - pos,
{
    let end = spec_body_end(b.subrange(pos, b.len() as int));
    if end > 0 && pos + end < b.len() {
        seq![end] + link_sizes(b, pos + end)
    } else {
        seq![end]
    }
}

pub open spec fn sum(s: Seq<int>) -> int
    decreases s.len(),
{
    if s.len() == 0 {
        0
    } else {
        s[0] + sum(s.drop_first())
    }
}

proof fn lemma_sum_prepend(x: int, s: Seq<int>)
    ensures
        sum(seq![x] + s) == x + sum(s),
{
    assert((seq![x] + s).drop_first() =~= s);
}

/// A request chain that decodes has one message per link, and its links' sizes add up
/// to exactly the bytes from `pos` to the end of the message.
pub proof fn lemma_request_chain_consumes_input(b: Seq<u8>, d: Dialect, pos: int)
    requires
        0 <= pos < b.len(),
        spec_request_chain(b, d, pos) is Ok,
    ensures
        spec_request_chain(b, d, pos)->Ok_0.len() == link_sizes(b, pos).len(),
        sum(link_sizes(b, pos)) == b.len() - pos,
    decreases b.len() - pos,
{
    let link = b.subrange(pos, b.len() as int);
    lemma_header_end(link, d, false);
    let end = spec_body_end(link);
    if end > 0 && pos + end < b.len() {
        lemma_request_chain_consumes_input(b, d, pos + end);
        lemma_sum_prepend(end, link_sizes(b, pos + end));
    } else {
        lemma_sum_prepend(end, Seq::empty());
    }
}

/// A response chain that decodes has one message per link, and its links' sizes add up
/// to exactly the bytes from `pos` to the end of the message.
pub proof fn lemma_response_chain_consumes_input(b: Seq<u8>, d: Dialect, pos: int)
    requires
        0 <= pos < b.len(),
        spec_response_chain(b, d, pos) is Ok,
    ensures
        spec_response_chain(b, d, pos)->Ok_0.len() == link_sizes(b, pos).len(),
        sum(link_sizes(b, pos)) == b.len() - pos,
    decreases b.len() - pos,
{
    let link = b.subrange(pos, b.len() as int);
    lemma_header_end(link, d, true);
    let end = spec_body_end(link);
    if end > 0 && pos + end < b.len() {
        lemma_response_chain_consumes_input(b, d, pos + end);
        lemma_sum_prepend(end, link_sizes(b, pos + end));
    } else {
        lemma_sum_prepend(end, Seq::empty());
    }
}

} // verus!
