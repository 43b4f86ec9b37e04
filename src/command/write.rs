use vstd::prelude::*;

use super::{create_channel, read_channel_type, spec_channel, spec_channel_type, Channel, ChannelType, ChannelView};
use crate::header::STRUCTURE_SIZE;
use crate::wire::{le16, le32, le64, read_u16, read_u32, read_u64, read_u8, subslice, ErrorKind};
use crate::{Dialect, FileId};

verus! {

pub const REQUEST_STRUCTURE_SIZE: u16 = 49;

/// The least message offset at which a variable field may start.
pub const REQUEST_CONSTANT_SIZE: u16 = STRUCTURE_SIZE + REQUEST_STRUCTURE_SIZE - 1;

pub const WRITE_THROUGH: u8 = 0x01;

pub const WRITE_UNBUFFERED: u8 = 0x02;

/// A write request.
#[derive(Debug)]
pub struct Request<'a> {
    pub file_id: FileId,
    pub offset: u64,
    pub remaining_bytes: u32,
    pub write_unbuffered: bool,
    pub write_through: bool,
    pub channel: Channel<'a>,
    pub data: &'a [u8],
}

pub ghost struct RequestView {
    pub file_id: Seq<u8>,
    pub offset: u64,
    pub remaining_bytes: u32,
    pub write_unbuffered: bool,
    pub write_through: bool,
    pub channel: ChannelView,
    pub data: Seq<u8>,
}

impl<'a> View for Request<'a> {
    type V = RequestView;

    open spec fn view(&self) -> RequestView {
        RequestView {
            file_id: self.file_id@,
            offset: self.offset,
            remaining_bytes: self.remaining_bytes,
            write_unbuffered: self.write_unbuffered,
            write_through: self.write_through,
            channel: self.channel@,
            data: self.data@,
        }
    }
}

/// A variable buffer as declared: its message offset and its length.
#[derive(Clone, Copy, Debug, PartialEq, Eq, Structural)]
pub struct Buffer {
    pub offset: u16,
    pub length: u32,
}

/// The channel and data buffers, the one with the smaller offset first (the data
/// buffer first where the offsets are equal).
pub open spec fn spec_sort_buffers(channel: Buffer, data: Buffer) -> (Buffer, Buffer) {
    if channel.offset < data.offset {
        (channel, data)
    } else {
        (data, channel)
    }
}

pub fn sort_buffers(channel_offset: u16, channel_length: u16, data_offset: u16, data_length: u32) -> (r: (
    Buffer,
    Buffer,
))
    ensures
        r == spec_sort_buffers(
            Buffer { offset: channel_offset, length: channel_length as u32 },
            Buffer { offset: data_offset, length: data_length },
        ),
        r.0.offset <= r.1.offset,
{
    let channel = Buffer { offset: channel_offset, length: channel_length as u32 };
    let data = Buffer { offset: data_offset, length: data_length };
    if channel_offset < data_offset {
        (channel, data)
    } else {
        (data, channel)
    }
}

/// Where a buffer at message offset `offset` starts in the body.
pub open spec fn body_index(offset: u16) -> int {
    offset - STRUCTURE_SIZE
}

/// The write request that `b` holds, with the given channel and data.
pub open spec fn spec_request_view(b: Seq<u8>, channel: ChannelView, data: Seq<u8>) -> RequestView {
    RequestView {
        file_id: b.subrange(16, 32),
        offset: le64(b, 8),
        remaining_bytes: le32(b, 36),
        write_unbuffered: b[44] & WRITE_UNBUFFERED != 0,
        write_through: b[44] & WRITE_THROUGH != 0,
        channel,
        data,
    }
}

pub open spec fn spec_data_buffer(b: Seq<u8>) -> Buffer {
    Buffer { offset: le16(b, 2), length: le32(b, 4) }
}

pub open spec fn spec_channel_buffer(b: Seq<u8>) -> Buffer {
    Buffer { offset: le16(b, 40), length: le16(b, 42) as u32 }
}

/// The bytes of the body `b` that a declared buffer covers.
pub open spec fn span(b: Seq<u8>, x: Buffer) -> Seq<u8> {
    b.subrange(body_index(x.offset), body_index(x.offset) + x.length)
}

/// The write request at the start of the body `b` and the number of bytes it takes; or
/// the first violation, checked in this order: length of the fixed region, structure
/// size, a zero data length, channel type, flags, channel length, then the buffer
/// bounds. The earlier buffer must start at or after the fixed region, the later one
/// at or after the end of the earlier one, and both must end within the body.
pub open spec fn spec_parse_request(b: Seq<u8>, d: Dialect) -> Result<(RequestView, int), ErrorKind> {
    let boundary = REQUEST_CONSTANT_SIZE as int;
    if b.len() < 48 {
        Err(ErrorKind::Truncated)
    } else if le16(b, 0) != REQUEST_STRUCTURE_SIZE {
        Err(ErrorKind::StructureSize { expected: REQUEST_STRUCTURE_SIZE, found: le16(b, 0) })
    } else if le32(b, 4) == 0 {
        Err(ErrorKind::Constraint)
    } else {
        match spec_channel_type(b, 32, d) {
            None => Err(ErrorKind::UnknownValue),
            Some(t) => {
                let data = spec_data_buffer(b);
                let channel = spec_channel_buffer(b);
                if b[44] & 0xFCu8 != 0 {
                    Err(ErrorKind::UnknownValue)
                } else if t == ChannelType::NoChannel {
                    if channel.length != 0 {
                        Err(ErrorKind::Constraint)
                    } else if data.offset < boundary {
                        Err(
                            ErrorKind::Offset {
                                minimum: boundary as u64,
                                declared: data.offset as u64,
                            },
                        )
                    } else if body_index(data.offset) + data.length > b.len() {
                        Err(ErrorKind::Truncated)
                    } else {
                        Ok(
                            (
                                spec_request_view(b, ChannelView::NoChannel, span(b, data)),
                                body_index(data.offset) + data.length,
                            ),
                        )
                    }
                } else if channel.length == 0 {
                    Err(ErrorKind::Constraint)
                } else {
                    let (first, second) = spec_sort_buffers(channel, data);
                    if first.offset < boundary {
                        Err(
                            ErrorKind::Offset {
                                minimum: boundary as u64,
                                declared: first.offset as u64,
                            },
                        )
                    } else if second.offset < first.offset + first.length {
                        Err(
                            ErrorKind::Offset {
                                minimum: (first.offset + first.length) as u64,
                                declared: second.offset as u64,
                            },
                        )
                    } else if body_index(second.offset) + second.length > b.len() {
                        Err(ErrorKind::Truncated)
                    } else {
                        Ok(
                            (
                                spec_request_view(
                                    b,
                                    spec_channel(t, span(b, channel)),
                                    span(b, data),
                                ),
                                body_index(second.offset) + second.length,
                            ),
                        )
                    }
                }
            },
        }
    }
}

/// Whenever a write request with a channel decodes, its data and channel buffers both
/// start at or after the fixed region, lie within the body, and do not overlap, whichever
/// of the two declared offsets is the smaller.
pub proof fn lemma_buffers_disjoint(b: Seq<u8>, d: Dialect)
    requires
        spec_parse_request(b, d) is Ok,
        spec_channel_type(b, 32, d) != Some(ChannelType::NoChannel),
    ensures
        spec_data_buffer(b).offset >= REQUEST_CONSTANT_SIZE,
        spec_channel_buffer(b).offset >= REQUEST_CONSTANT_SIZE,
        body_index(spec_data_buffer(b).offset) + spec_data_buffer(b).length <= b.len(),
        body_index(spec_channel_buffer(b).offset) + spec_channel_buffer(b).length <= b.len(),
        spec_data_buffer(b).offset + spec_data_buffer(b).length <= spec_channel_buffer(b).offset
            || spec_channel_buffer(b).offset + spec_channel_buffer(b).length
            <= spec_data_buffer(b).offset,
{
}

/// A data offset inside the fixed region always makes the request fail, and so does a
/// channel offset there where a channel is declared.
pub proof fn lemma_offset_in_fixed_region_fails(b: Seq<u8>, d: Dialect)
    requires
        b.len() >= 48,
        spec_data_buffer(b).offset < REQUEST_CONSTANT_SIZE || (spec_channel_type(b, 32, d)
            != Some(ChannelType::NoChannel) && spec_channel_buffer(b).offset
            < REQUEST_CONSTANT_SIZE),
    ensures
        spec_parse_request(b, d) is Err,
{
}

/// Decodes a write request body, locating the data buffer and, where a channel type is
/// given, the channel buffer, in whichever order they stand.
pub fn parse_request<'a>(data: &'a [u8], dialect: Dialect) -> (r: Result<
    (&'a [u8], Request<'a>),
    ErrorKind,
>)
    ensures
        match r {
            Ok((rest, req)) => match spec_parse_request(data@, dialect) {
                Ok((v, n)) => req@ == v && rest@ == data@.subrange(n, data@.len() as int),
                Err(_) => false,
            },
            Err(e) => spec_parse_request(data@, dialect) == Err::<(RequestView, int), ErrorKind>(
                e,
            ),
        },
{
    assert(data@.len() == data.len());
    if data.len() < 48 {
        return Err(ErrorKind::Truncated);
    }
    let size = read_u16(data, 0);
    if size != REQUEST_STRUCTURE_SIZE {
        return Err(ErrorKind::StructureSize { expected: REQUEST_STRUCTURE_SIZE, found: size });
    }
    let data_offset = read_u16(data, 2);
    let data_length = read_u32(data, 4);
    if data_length == 0 {
        return Err(ErrorKind::Constraint);
    }
    let offset = read_u64(data, 8);
    let file_id = FileId::from_slice(subslice(data, 16, 32));
    let channel_type = match read_channel_type(data, 32, dialect) {
        Some(t) => t,
        None => return Err(ErrorKind::UnknownValue),
    };
    let remaining_bytes = read_u32(data, 36);
    let channel_offset = read_u16(data, 40);
    let channel_length = read_u16(data, 42);
    let flags = read_u8(data, 44);
    if flags & 0xFCu8 != 0 {
        return Err(ErrorKind::UnknownValue);
    }
    let len = data.len() as u64;
    let (channel, payload, end) = match channel_type {
        ChannelType::NoChannel => {
            if channel_length != 0 {
                return Err(ErrorKind::Constraint);
            }
            if data_offset < REQUEST_CONSTANT_SIZE {
                return Err(
                    ErrorKind::Offset {
                        minimum: REQUEST_CONSTANT_SIZE as u64,
                        declared: data_offset as u64,
                    },
                );
            }
            let start = (data_offset - STRUCTURE_SIZE) as u64;
            if start + data_length as u64 > len {
                return Err(ErrorKind::Truncated);
            }
            let end = (start + data_length as u64) as usize;
            (Channel::NoChannel, subslice(data, start as usize, end), end)
        },
        _ => {
            if channel_length == 0 {
                return Err(ErrorKind::Constraint);
            }
            let (first, second) = sort_buffers(
                channel_offset,
                channel_length,
                data_offset,
                data_length,
            );
            if first.offset < REQUEST_CONSTANT_SIZE {
                return Err(
                    ErrorKind::Offset {
                        minimum: REQUEST_CONSTANT_SIZE as u64,
                        declared: first.offset as u64,
                    },
                );
            }
            if (second.offset as u64) < first.offset as u64 + first.length as u64 {
                return Err(
                    ErrorKind::Offset {
                        minimum: first.offset as u64 + first.length as u64,
                        declared: second.offset as u64,
                    },
                );
            }
            let second_start = (second.offset - STRUCTURE_SIZE) as u64;
            if second_start + second.length as u64 > len {
                return Err(ErrorKind::Truncated);
            }
            let end = (second_start + second.length as u64) as usize;
            let channel_start = (channel_offset - STRUCTURE_SIZE) as usize;
            let data_start = (data_offset - STRUCTURE_SIZE) as usize;
            let channel_buffer = subslice(
                data,
                channel_start,
                channel_start + channel_length as usize,
            );
            let payload = subslice(data, data_start, data_start + data_length as usize);
            (create_channel(channel_buffer, channel_type), payload, end)
        },
    };
    let req = Request {
        file_id,
        offset,
        remaining_bytes,
        write_unbuffered: flags & WRITE_UNBUFFERED != 0,
        write_through: flags & WRITE_THROUGH != 0,
        channel,
        data: payload,
    };
    Ok((subslice(data, end, data.len()), req))
}

} // verus!
