use vstd::prelude::*;

use crate::wire::{le16, read_u16, subslice, ErrorKind};
use crate::FileId;

verus! {

pub const REQUEST_STRUCTURE_SIZE: u16 = 24;

/// The client asks for the file's attributes after the close.
pub const POSTQUERY_ATTRIB: u16 = 0x01;

/// A close request.
#[derive(Debug)]
pub struct Request {
    pub postquery_attrib: bool,
    pub file_id: FileId,
}

pub ghost struct RequestView {
    pub postquery_attrib: bool,
    pub file_id: Seq<u8>,
}

impl View for Request {
    type V = RequestView;

    open spec fn view(&self) -> RequestView {
        RequestView { postquery_attrib: self.postquery_attrib, file_id: self.file_id@ }
    }
}

/// The close request at the start of the body `b`, which takes 24 bytes; or the first
/// violation: a short body, the structure size, undefined flag bits.
pub open spec fn spec_parse_request(b: Seq<u8>) -> Result<(RequestView, int), ErrorKind> {
    if b.len() < 24 {
        Err(ErrorKind::Truncated)
    } else if le16(b, 0) != REQUEST_STRUCTURE_SIZE {
        Err(ErrorKind::StructureSize { expected: REQUEST_STRUCTURE_SIZE, found: le16(b, 0) })
    } else if le16(b, 2) & 0xFFFEu16 != 0 {
        Err(ErrorKind::UnknownValue)
    } else {
        Ok(
            (
                RequestView {
                    postquery_attrib: le16(b, 2) & POSTQUERY_ATTRIB != 0,
                    file_id: b.subrange(8, 24),
                },
                24,
            ),
        )
    }
}

/// Decodes a close request body.
pub fn parse_request<'a>(data: &'a [u8]) -> (r: Result<(&'a [u8], Request), ErrorKind>)
    ensures
        match r {
            Ok((rest, req)) => match spec_parse_request(data@) {
                Ok((v, n)) => req@ == v && rest@ == data@.subrange(n, data@.len() as int),
                Err(_) => false,
            },
            Err(e) => spec_parse_request(data@) == Err::<(RequestView, int), ErrorKind>(e),
        },
{
    if data.len() < 24 {
        return Err(ErrorKind::Truncated);
    }
    let size = read_u16(data, 0);
    if size != REQUEST_STRUCTURE_SIZE {
        return Err(ErrorKind::StructureSize { expected: REQUEST_STRUCTURE_SIZE, found: size });
    }
    let flags = read_u16(data, 2);
    if flags & 0xFFFEu16 != 0 {
        return Err(ErrorKind::UnknownValue);
    }
    let file_id = FileId::from_slice(subslice(data, 8, 24));
    Ok((
        subslice(data, 24, data.len()),
        Request { postquery_attrib: flags & POSTQUERY_ATTRIB != 0, file_id },
    ))
}

} // verus!
