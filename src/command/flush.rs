use vstd::prelude::*;

use crate::wire::{le16, read_u16, subslice, ErrorKind};
use crate::FileId;

verus! {

pub const REQUEST_STRUCTURE_SIZE: u16 = 24;

/// A flush request.
#[derive(Debug)]
pub struct Request {
    pub file_id: FileId,
}

/// The file id of the flush request at the start of the body `b`, which takes 24 bytes;
/// or the first violation: a short body, the structure size.
pub open spec fn spec_parse_request(b: Seq<u8>) -> Result<(Seq<u8>, int), ErrorKind> {
    if b.len() < 24 {
        Err(ErrorKind::Truncated)
    } else if le16(b, 0) != REQUEST_STRUCTURE_SIZE {
        Err(ErrorKind::StructureSize { expected: REQUEST_STRUCTURE_SIZE, found: le16(b, 0) })
    } else {
        Ok((b.subrange(8, 24), 24))
    }
}

/// Decodes a flush request body.
pub fn parse_request<'a>(data: &'a [u8]) -> (r: Result<(&'a [u8], Request), ErrorKind>)
    ensures
        match r {
            Ok((rest, req)) => match spec_parse_request(data@) {
                Ok((id, n)) => req.file_id@ == id && rest@ == data@.subrange(n, data@.len() as int),
                Err(_) => false,
            },
            Err(e) => spec_parse_request(data@) == Err::<(Seq<u8>, int), ErrorKind>(e),
        },
{
    if data.len() < 24 {
        return Err(ErrorKind::Truncated);
    }
    let size = read_u16(data, 0);
    if size != REQUEST_STRUCTURE_SIZE {
        return Err(ErrorKind::StructureSize { expected: REQUEST_STRUCTURE_SIZE, found: size });
    }
    let file_id = FileId::from_slice(subslice(data, 8, 24));
    Ok((subslice(data, 24, data.len()), Request { file_id }))
}

} // verus!
