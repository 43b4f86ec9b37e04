use vstd::prelude::*;

use super::{create_channel, read_channel_type, spec_channel, spec_channel_type, Channel, ChannelType, ChannelView};
use crate::header::STRUCTURE_SIZE;
use crate::wire::{le16, le32, le64, read_u16, read_u32, read_u64, read_u8, subslice, ErrorKind};
use crate::{Dialect, FileId};

verus! {

pub const REQUEST_STRUCTURE_SIZE: u16 = 49;

/// The least message offset at which a variable field may start.
pub const REQUEST_CONSTANT_SIZE: u16 = STRUCTURE_SIZE + REQUEST_STRUCTURE_SIZE - 1;

/// The flag bit that asks the server not to cache the read.
pub const READ_UNBUFFERED: u8 = 0x01;

/// A read request.
#[derive(Debug)]
pub struct Request<'a> {
    pub padding: u8,
    pub read_unbuffered: bool,
    pub length: u32,
    pub offset: u64,
    pub file_id: FileId,
    pub minimum_count: u32,
    pub remaining_bytes: u32,
    pub channel: Channel<'a>,
}

pub ghost struct RequestView {
    pub padding: u8,
    pub read_unbuffered: bool,
    pub length: u32,
    pub offset: u64,
    pub file_id: Seq<u8>,
    pub minimum_count: u32,
    pub remaining_bytes: u32,
    pub channel: ChannelView,
}

impl<'a> View for Request<'a> {
    type V = RequestView;

    open spec fn view(&self) -> RequestView {
        RequestView {
            padding: self.padding,
            read_unbuffered: self.read_unbuffered,
            length: self.length,
            offset: self.offset,
            file_id: self.file_id@,
            minimum_count: self.minimum_count,
            remaining_bytes: self.remaining_bytes,
            channel: self.channel@,
        }
    }
}

/// The read request that `b` holds with the channel `channel`.
pub open spec fn spec_request_view(b: Seq<u8>, channel: ChannelView) -> RequestView {
    RequestView {
        padding: b[2],
        read_unbuffered: b[3] & READ_UNBUFFERED != 0,
        length: le32(b, 4),
        offset: le64(b, 8),
        file_id: b.subrange(16, 32),
        minimum_count: le32(b, 32),
        remaining_bytes: le32(b, 40),
        channel,
    }
}

/// The read request at the start of the body `b` and the number of bytes it takes; or
/// the first violation, checked in this order: length of the fixed region, structure
/// size, flags, a zero length, channel type, channel length, channel offset, and a
/// channel that runs past the body.
pub open spec fn spec_parse_request(b: Seq<u8>, d: Dialect) -> Result<(RequestView, int), ErrorKind> {
    let boundary = REQUEST_CONSTANT_SIZE as int;
    if b.len() < 48 {
        Err(ErrorKind::Truncated)
    } else if le16(b, 0) != REQUEST_STRUCTURE_SIZE {
        Err(ErrorKind::StructureSize { expected: REQUEST_STRUCTURE_SIZE, found: le16(b, 0) })
    } else if b[3] & 0xFEu8 != 0 {
        Err(ErrorKind::UnknownValue)
    } else if le32(b, 4) == 0 {
        Err(ErrorKind::Constraint)
    } else {
        match spec_channel_type(b, 36, d) {
            None => Err(ErrorKind::UnknownValue),
            Some(t) => {
                let channel_offset = le16(b, 44) as int;
                let channel_length = le16(b, 46) as int;
                if t == ChannelType::NoChannel {
                    if channel_length != 0 {
                        Err(ErrorKind::Constraint)
                    } else {
                        Ok((spec_request_view(b, ChannelView::NoChannel), 48))
                    }
                } else if channel_length == 0 {
                    Err(ErrorKind::Constraint)
                } else if channel_offset < boundary {
                    Err(
                        ErrorKind::Offset {
                            minimum: boundary as u64,
                            declared: channel_offset as u64,
                        },
                    )
                } else if channel_offset - STRUCTURE_SIZE + channel_length > b.len() {
                    Err(ErrorKind::Truncated)
                } else {
                    let start = channel_offset - STRUCTURE_SIZE;
                    let end = start + channel_length;
                    Ok(
                        (
                            spec_request_view(b, spec_channel(t, b.subrange(start, end))),
                            end,
                        ),
                    )
                }
            },
        }
    }
}

/// Whenever a read request with a channel decodes, the channel buffer starts at or after
/// the fixed region and lies within the body.
pub proof fn lemma_channel_in_bounds(b: Seq<u8>, d: Dialect)
    requires
        spec_parse_request(b, d) is Ok,
        spec_channel_type(b, 36, d) != Some(ChannelType::NoChannel),
    ensures
        le16(b, 44) >= REQUEST_CONSTANT_SIZE,
        le16(b, 44) - STRUCTURE_SIZE + le16(b, 46) <= b.len(),
{
}

/// Where a channel is declared, a channel offset inside the fixed region always makes
/// the request fail.
pub proof fn lemma_offset_in_fixed_region_fails(b: Seq<u8>, d: Dialect)
    requires
        b.len() >= 48,
        spec_channel_type(b, 36, d) != Some(ChannelType::NoChannel),
        le16(b, 44) < REQUEST_CONSTANT_SIZE,
    ensures
        spec_parse_request(b, d) is Err,
{
}

/// Decodes a read request body.
pub fn parse_request<'a>(data: &'a [u8], dialect: Dialect) -> (r: Result<
    (&'a [u8], Request<'a>),
    ErrorKind,
>)
    ensures
        match r {
            Ok((rest, req)) => match spec_parse_request(data@, dialect) {
                Ok((v, n)) => req@ == v && rest@ == data@.subrange(n, data@.len() as int),
                Err(_) => false,
            },
            Err(e) => spec_parse_request(data@, dialect) == Err::<(RequestView, int), ErrorKind>(
                e,
            ),
        },
{
    if data.len() < 48 {
        return Err(ErrorKind::Truncated);
    }
    let size = read_u16(data, 0);
    if size != REQUEST_STRUCTURE_SIZE {
        return Err(ErrorKind::StructureSize { expected: REQUEST_STRUCTURE_SIZE, found: size });
    }
    let padding = read_u8(data, 2);
    let flags = read_u8(data, 3);
    if flags & 0xFEu8 != 0 {
        return Err(ErrorKind::UnknownValue);
    }
    let length = read_u32(data, 4);
    if length == 0 {
        return Err(ErrorKind::Constraint);
    }
    let offset = read_u64(data, 8);
    let file_id = FileId::from_slice(subslice(data, 16, 32));
    let minimum_count = read_u32(data, 32);
    let channel_type = match read_channel_type(data, 36, dialect) {
        Some(t) => t,
        None => return Err(ErrorKind::UnknownValue),
    };
    let remaining_bytes = read_u32(data, 40);
    let channel_offset = read_u16(data, 44);
    let channel_length = read_u16(data, 46);
    let (channel, end) = match channel_type {
        ChannelType::NoChannel => {
            if channel_length != 0 {
                return Err(ErrorKind::Constraint);
            }
            (Channel::NoChannel, 48usize)
        },
        _ => {
            if channel_length == 0 {
                return Err(ErrorKind::Constraint);
            }
            if channel_offset < REQUEST_CONSTANT_SIZE {
                return Err(
                    ErrorKind::Offset {
                        minimum: REQUEST_CONSTANT_SIZE as u64,
                        declared: channel_offset as u64,
                    },
                );
            }
            let start = (channel_offset - STRUCTURE_SIZE) as usize;
            if start + channel_length as usize > data.len() {
                return Err(ErrorKind::Truncated);
            }
            let end = start + channel_length as usize;
            (create_channel(subslice(data, start, end), channel_type), end)
        },
    };
    let req = Request {
        padding,
        read_unbuffered: flags & READ_UNBUFFERED != 0,
        length,
        offset,
        file_id,
        minimum_count,
        remaining_bytes,
        channel,
    };
    Ok((subslice(data, end, data.len()), req))
}

} // verus!
