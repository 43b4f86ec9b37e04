use vstd::prelude::*;

use crate::wire::{le16, read_u16, subslice, ErrorKind};

verus! {

pub const REQUEST_STRUCTURE_SIZE: u16 = 4;

/// The number of bytes a logoff request takes (structure size and two reserved bytes); or
/// the first violation: a short body, the structure size.
pub open spec fn spec_parse_request(b: Seq<u8>) -> Result<int, ErrorKind> {
    if b.len() < 4 {
        Err(ErrorKind::Truncated)
    } else if le16(b, 0) != REQUEST_STRUCTURE_SIZE {
        Err(ErrorKind::StructureSize { expected: REQUEST_STRUCTURE_SIZE, found: le16(b, 0) })
    } else {
        Ok(4)
    }
}

/// Checks a logoff request body, which carries nothing beyond its fixed prefix.
pub fn parse_request<'a>(data: &'a [u8]) -> (r: Result<(&'a [u8], ()), ErrorKind>)
    ensures
        match r {
            Ok((rest, _)) => match spec_parse_request(data@) {
                Ok(n) => rest@ == data@.subrange(n, data@.len() as int),
                Err(_) => false,
            },
            Err(e) => spec_parse_request(data@) == Err::<int, ErrorKind>(e),
        },
{
    if data.len() < 4 {
        return Err(ErrorKind::Truncated);
    }
    let size = read_u16(data, 0);
    if size != REQUEST_STRUCTURE_SIZE {
        return Err(ErrorKind::StructureSize { expected: REQUEST_STRUCTURE_SIZE, found: size });
    }
    Ok((subslice(data, 4, data.len()), ()))
}

} // verus!
