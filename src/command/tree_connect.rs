use vstd::prelude::*;

use super::{spec_variable_field, variable_field};
use crate::header::STRUCTURE_SIZE;
use crate::wire::{le16, read_u16, subslice, ErrorKind};
use crate::{spec_utf16le, utf16le_to_string};

verus! {

pub const REQUEST_STRUCTURE_SIZE: u16 = 9;

/// The least message offset of the path.
pub const REQUEST_CONSTANT_SIZE: u16 = STRUCTURE_SIZE + REQUEST_STRUCTURE_SIZE - 1;

pub const CLUSTER_RECONNECT: u8 = 0x01;

pub const REDIRECT_TO_OWNER: u8 = 0x02;

pub const EXTENSION_PRESENT: u8 = 0x04;

/// A tree-connect request.
#[derive(Debug)]
pub struct Request {
    pub flags: u8,
    pub path: String,
}

pub ghost struct RequestView {
    pub flags: u8,
    pub path: Seq<char>,
}

impl View for Request {
    type V = RequestView;

    open spec fn view(&self) -> RequestView {
        RequestView { flags: self.flags, path: self.path@ }
    }
}

/// The tree-connect request at the start of the body `b` and the number of bytes it
/// takes; or the first violation, checked in this order: length of the fixed region,
/// structure size, undefined flag bits in the low byte of the flags, the path's offset
/// and length, and the path's text.
pub open spec fn spec_parse_request(b: Seq<u8>) -> Result<(RequestView, int), ErrorKind> {
    if b.len() < 8 {
        Err(ErrorKind::Truncated)
    } else if le16(b, 0) != REQUEST_STRUCTURE_SIZE {
        Err(ErrorKind::StructureSize { expected: REQUEST_STRUCTURE_SIZE, found: le16(b, 0) })
    } else if b[2] & 0xF8u8 != 0 {
        Err(ErrorKind::UnknownValue)
    } else {
        match spec_variable_field(b, le16(b, 4), le16(b, 6), REQUEST_CONSTANT_SIZE) {
            Err(e) => Err(e),
            Ok((start, end)) => match spec_utf16le(b.subrange(start, end)) {
                None => Err(ErrorKind::Text),
                Some(path) => Ok((RequestView { flags: b[2], path }, end)),
            },
        }
    }
}

/// A path offset inside the fixed region always makes the request fail.
pub proof fn lemma_offset_in_fixed_region_fails(b: Seq<u8>)
    requires
        b.len() >= 8,
        le16(b, 4) < REQUEST_CONSTANT_SIZE,
    ensures
        spec_parse_request(b) is Err,
{
}

/// Decodes a tree-connect request body.
pub fn parse_request<'a>(data: &'a [u8]) -> (r: Result<(&'a [u8], Request), ErrorKind>)
    ensures
        match r {
            Ok((rest, req)) => match spec_parse_request(data@) {
                Ok((v, n)) => req@ == v && rest@ == data@.subrange(n, data@.len() as int),
                Err(_) => false,
            },
            Err(e) => spec_parse_request(data@) == Err::<(RequestView, int), ErrorKind>(e),
        },
{
    if data.len() < 8 {
        return Err(ErrorKind::Truncated);
    }
    let size = read_u16(data, 0);
    if size != REQUEST_STRUCTURE_SIZE {
        return Err(ErrorKind::StructureSize { expected: REQUEST_STRUCTURE_SIZE, found: size });
    }
    let flags = data[2];
    if flags & 0xF8u8 != 0 {
        return Err(ErrorKind::UnknownValue);
    }
    let path_offset = read_u16(data, 4);
    let path_length = read_u16(data, 6);
    let (start, end) = variable_field(data, path_offset, path_length, REQUEST_CONSTANT_SIZE)?;
    let path = utf16le_to_string(subslice(data, start, end))?;
    Ok((subslice(data, end, data.len()), Request { flags, path }))
}

} // verus!
