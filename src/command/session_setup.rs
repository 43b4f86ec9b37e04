use vstd::prelude::*;

use super::{spec_variable_field, variable_field};
use crate::header::STRUCTURE_SIZE;
use crate::wire::{le16, le32, le64, read_u16, read_u32, read_u64, read_u8, subslice, ErrorKind};
use crate::{spec_session_flags_must_be_empty, Dialect};

verus! {

pub const REQUEST_STRUCTURE_SIZE: u16 = 25;

/// The least message offset of the security buffer. The declared structure size is one
/// byte larger than the fixed region, as for every command with a variable field.
pub const REQUEST_CONSTANT_SIZE: u16 = STRUCTURE_SIZE + REQUEST_STRUCTURE_SIZE - 1;

/// The request binds an existing session to a new channel.
pub const BINDING: u8 = 0x01;

/// The one capability bit a session-setup request keeps.
pub const CAP_DFS: u32 = 0x01;

pub const SIGNING_REQUIRED: u8 = 0x02;

/// A session-setup request.
#[derive(Debug)]
pub struct Request<'a> {
    pub flags: u8,
    pub signing_required: bool,
    pub capabilities: u32,
    pub previous_session_id: u64,
    pub security_buffer: &'a [u8],
}

pub ghost struct RequestView {
    pub flags: u8,
    pub signing_required: bool,
    pub capabilities: u32,
    pub previous_session_id: u64,
    pub security_buffer: Seq<u8>,
}

impl<'a> View for Request<'a> {
    type V = RequestView;

    open spec fn view(&self) -> RequestView {
        RequestView {
            flags: self.flags,
            signing_required: self.signing_required,
            capabilities: self.capabilities,
            previous_session_id: self.previous_session_id,
            security_buffer: self.security_buffer@,
        }
    }
}

/// The session-setup request at the start of the body `b` and the number of bytes it
/// takes; or the first violation, checked in this order: length of the fixed region,
/// structure size, undefined flag bits, flags where the dialect forbids them, then the
/// security buffer's offset and length.
pub open spec fn spec_parse_request(b: Seq<u8>, d: Dialect) -> Result<(RequestView, int), ErrorKind> {
    if b.len() < 24 {
        Err(ErrorKind::Truncated)
    } else if le16(b, 0) != REQUEST_STRUCTURE_SIZE {
        Err(ErrorKind::StructureSize { expected: REQUEST_STRUCTURE_SIZE, found: le16(b, 0) })
    } else if b[2] & 0xFEu8 != 0 {
        Err(ErrorKind::UnknownValue)
    } else if spec_session_flags_must_be_empty(d) && b[2] != 0 {
        Err(ErrorKind::Constraint)
    } else {
        match spec_variable_field(b, le16(b, 12), le16(b, 14), REQUEST_CONSTANT_SIZE) {
            Err(e) => Err(e),
            Ok((start, end)) => Ok(
                (
                    RequestView {
                        flags: b[2],
                        signing_required: b[3] & SIGNING_REQUIRED != 0,
                        capabilities: le32(b, 4) & CAP_DFS,
                        previous_session_id: le64(b, 16),
                        security_buffer: b.subrange(start, end),
                    },
                    end,
                ),
            ),
        }
    }
}

/// A security-buffer offset inside the fixed region always makes the request fail.
pub proof fn lemma_offset_in_fixed_region_fails(b: Seq<u8>, d: Dialect)
    requires
        b.len() >= 24,
        le16(b, 12) < REQUEST_CONSTANT_SIZE,
    ensures
        spec_parse_request(b, d) is Err,
{
}

/// Decodes a session-setup request body.
pub fn parse_request<'a>(data: &'a [u8], dialect: Dialect) -> (r: Result<
    (&'a [u8], Request<'a>),
    ErrorKind,
>)
    ensures
        match r {
            Ok((rest, req)) => match spec_parse_request(data@, dialect) {
                Ok((v, n)) => req@ == v && rest@ == data@.subrange(n, data@.len() as int),
                Err(_) => false,
            },
            Err(e) => spec_parse_request(data@, dialect) == Err::<(RequestView, int), ErrorKind>(
                e,
            ),
        },
{
    if data.len() < 24 {
        return Err(ErrorKind::Truncated);
    }
    let size = read_u16(data, 0);
    if size != REQUEST_STRUCTURE_SIZE {
        return Err(ErrorKind::StructureSize { expected: REQUEST_STRUCTURE_SIZE, found: size });
    }
    let flags = read_u8(data, 2);
    if flags & 0xFEu8 != 0 {
        return Err(ErrorKind::UnknownValue);
    }
    if crate::session_flags_must_be_empty(dialect) && flags != 0 {
        return Err(ErrorKind::Constraint);
    }
    let security_mode = read_u8(data, 3);
    let capabilities = read_u32(data, 4) & CAP_DFS;
    let buffer_offset = read_u16(data, 12);
    let buffer_length = read_u16(data, 14);
    let previous_session_id = read_u64(data, 16);
    let (start, end) = variable_field(data, buffer_offset, buffer_length, REQUEST_CONSTANT_SIZE)?;
    let req = Request {
        flags,
        signing_required: security_mode & SIGNING_REQUIRED != 0,
        capabilities,
        previous_session_id,
        security_buffer: subslice(data, start, end),
    };
    Ok((subslice(data, end, data.len()), req))
}

} // verus!
