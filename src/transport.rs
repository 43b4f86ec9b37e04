use vstd::prelude::*;

use crate::wire::{be24, read_be_u24, subslice, ErrorKind};

verus! {

/// The size of the record marker in front of each message: one zero byte and a 24-bit
/// big-endian length.
pub const HEADER_LEN: usize = 4;

/// Why a stream position does not yet hold a whole framed message.
#[derive(Clone, Copy, Debug, PartialEq, Eq, Structural)]
pub enum FrameError {
    /// At least this many more bytes are needed; retry with them appended.
    Incomplete(usize),
    /// The record marker's first byte is not zero.
    Invalid(ErrorKind),
}

/// The end of the framed message at the start of `b` (its payload is `b[4..end]`), or
/// why there is none yet.
pub open spec fn spec_get_payload(b: Seq<u8>) -> Result<int, FrameError> {
    if b.len() >= 1 && b[0] != 0 {
        Err(FrameError::Invalid(ErrorKind::Tag))
    } else if b.len() < 4 {
        Err(FrameError::Incomplete((4 - b.len()) as usize))
    } else if b.len() < 4 + be24(b, 1) {
        Err(FrameError::Incomplete((4 + be24(b, 1) - b.len()) as usize))
    } else {
        Ok(4 + be24(b, 1))
    }
}

/// Splits the message framed at the start of `data` from the rest of the stream:
/// returns what follows the message, and the message's bytes.
pub fn get_payload<'a>(data: &'a [u8]) -> (r: Result<(&'a [u8], &'a [u8]), FrameError>)
    ensures
        match r {
            Ok((rest, payload)) => match spec_get_payload(data@) {
                Ok(end) => payload@ == data@.subrange(4, end) && rest@ == data@.subrange(
                    end,
                    data@.len() as int,
                ),
                Err(_) => false,
            },
            Err(e) => spec_get_payload(data@) == Err::<int, FrameError>(e),
        },
{
    assert(data@.len() == data.len());
    if data.len() >= 1 && data[0] != 0 {
        return Err(FrameError::Invalid(ErrorKind::Tag));
    }
    if data.len() < 4 {
        return Err(FrameError::Incomplete(4 - data.len()));
    }
    let length = read_be_u24(data, 1) as usize;
    if data.len() - 4 < length {
        return Err(FrameError::Incomplete(4 + length - data.len()));
    }
    let end = 4 + length;
    Ok((subslice(data, end, data.len()), subslice(data, 4, end)))
}

/// The message length that the record marker at the start of `head` announces, if
/// `head` holds a whole marker.
pub fn extract_message_length(head: &[u8]) -> (r: Option<u32>)
    ensures
        match r {
            Some(l) => head@.len() >= 4 && head@[0] == 0 && l == be24(head@, 1),
            None => head@.len() < 4 || head@[0] != 0,
        },
{
    if head.len() < 4 || head[0] != 0 {
        return None;
    }
    Some(read_be_u24(head, 1))
}

} // verus!
