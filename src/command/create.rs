use vstd::prelude::*;

use super::{spec_variable_field, variable_field};
use crate::header::STRUCTURE_SIZE;
use crate::wire::{le16, le32, read_u16, read_u32, read_u8, subslice, ErrorKind};
use crate::{spec_utf16le, utf16le_to_string, Dialect};

verus! {

pub const REQUEST_STRUCTURE_SIZE: u16 = 57;

/// The least message offset of the name.
pub const REQUEST_CONSTANT_SIZE: u16 = STRUCTURE_SIZE + REQUEST_STRUCTURE_SIZE - 1;

pub const SHARE_READ: u8 = 0x01;

pub const SHARE_WRITE: u8 = 0x02;

pub const SHARE_DELETE: u8 = 0x04;

#[derive(Clone, Copy, Debug, PartialEq, Eq, Structural)]
pub enum OplockLevel {
    No,
    II,
    Exclusive,
    Batch,
    Lease,
}

#[derive(Clone, Copy, Debug, PartialEq, Eq, Structural)]
pub enum ImpersonationLevel {
    Anonymous,
    Identification,
    Impersonation,
    Delegate,
}

#[derive(Clone, Copy, Debug, PartialEq, Eq, Structural)]
pub enum CreateDisposition {
    Supersede,
    Open,
    Create,
    OpenIf,
    Overwrite,
    OverwriteIf,
}

/// What the server did to satisfy a create request.
#[derive(Clone, Copy, Debug, PartialEq, Eq, Structural)]
pub enum CreateAction {
    Superseded,
    Opened,
    Created,
    Overwritten,
}

impl OplockLevel {
    pub open spec fn spec_from_code(v: u8) -> Option<OplockLevel> {
        if v == 0x00 {
            Some(OplockLevel::No)
        } else if v == 0x01 {
            Some(OplockLevel::II)
        } else if v == 0x08 {
            Some(OplockLevel::Exclusive)
        } else if v == 0x09 {
            Some(OplockLevel::Batch)
        } else if v == 0xFF {
            Some(OplockLevel::Lease)
        } else {
            None
        }
    }

    pub fn from_code(v: u8) -> (r: Option<OplockLevel>)
        ensures
            r == OplockLevel::spec_from_code(v),
    {
        match v {
            0x00 => Some(OplockLevel::No),
            0x01 => Some(OplockLevel::II),
            0x08 => Some(OplockLevel::Exclusive),
            0x09 => Some(OplockLevel::Batch),
            0xFF => Some(OplockLevel::Lease),
            _ => None,
        }
    }
}

impl ImpersonationLevel {
    pub open spec fn spec_from_code(v: u32) -> Option<ImpersonationLevel> {
        if v == 0 {
            Some(ImpersonationLevel::Anonymous)
        } else if v == 1 {
            Some(ImpersonationLevel::Identification)
        } else if v == 2 {
            Some(ImpersonationLevel::Impersonation)
        } else if v == 3 {
            Some(ImpersonationLevel::Delegate)
        } else {
            None
        }
    }

    pub fn from_code(v: u32) -> (r: Option<ImpersonationLevel>)
        ensures
            r == ImpersonationLevel::spec_from_code(v),
    {
        match v {
            0 => Some(ImpersonationLevel::Anonymous),
            1 => Some(ImpersonationLevel::Identification),
            2 => Some(ImpersonationLevel::Impersonation),
            3 => Some(ImpersonationLevel::Delegate),
            _ => None,
        }
    }
}

impl CreateDisposition {
    pub open spec fn spec_from_code(v: u32) -> Option<CreateDisposition> {
        if v == 0 {
            Some(CreateDisposition::Supersede)
        } else if v == 1 {
            Some(CreateDisposition::Open)
        } else if v == 2 {
            Some(CreateDisposition::Create)
        } else if v == 3 {
            Some(CreateDisposition::OpenIf)
        } else if v == 4 {
            Some(CreateDisposition::Overwrite)
        } else if v == 5 {
            Some(CreateDisposition::OverwriteIf)
        } else {
            None
        }
    }

    pub fn from_code(v: u32) -> (r: Option<CreateDisposition>)
        ensures
            r == CreateDisposition::spec_from_code(v),
    {
        match v {
            0 => Some(CreateDisposition::Supersede),
            1 => Some(CreateDisposition::Open),
            2 => Some(CreateDisposition::Create),
            3 => Some(CreateDisposition::OpenIf),
            4 => Some(CreateDisposition::Overwrite),
            5 => Some(CreateDisposition::OverwriteIf),
            _ => None,
        }
    }
}

impl CreateAction {
    pub open spec fn spec_from_code(v: u32) -> Option<CreateAction> {
        if v == 0 {
            Some(CreateAction::Superseded)
        } else if v == 1 {
            Some(CreateAction::Opened)
        } else if v == 2 {
            Some(CreateAction::Created)
        } else if v == 3 {
            Some(CreateAction::Overwritten)
        } else {
            None
        }
    }

    pub fn from_code(v: u32) -> (r: Option<CreateAction>)
        ensures
            r == CreateAction::spec_from_code(v),
    {
        match v {
            0 => Some(CreateAction::Superseded),
            1 => Some(CreateAction::Opened),
            2 => Some(CreateAction::Created),
            3 => Some(CreateAction::Overwritten),
            _ => None,
        }
    }
}

/// A create request.
#[derive(Debug)]
pub struct Request {
    pub requested_oplock_level: OplockLevel,
    pub impersonation_level: ImpersonationLevel,
    pub desired_access: u32,
    pub file_attributes: u32,
    pub share_access: u8,
    pub create_disposition: CreateDisposition,
    pub create_options: u32,
    pub name: String,
}

pub ghost struct RequestView {
    pub requested_oplock_level: OplockLevel,
    pub impersonation_level: ImpersonationLevel,
    pub desired_access: u32,
    pub file_attributes: u32,
    pub share_access: u8,
    pub create_disposition: CreateDisposition,
    pub create_options: u32,
    pub name: Seq<char>,
}

impl View for Request {
    type V = RequestView;

    open spec fn view(&self) -> RequestView {
        RequestView {
            requested_oplock_level: self.requested_oplock_level,
            impersonation_level: self.impersonation_level,
            desired_access: self.desired_access,
            file_attributes: self.file_attributes,
            share_access: self.share_access,
            create_disposition: self.create_disposition,
            create_options: self.create_options,
            name: self.name@,
        }
    }
}

/// The create request at the start of the body `b` and the number of bytes it takes; or
/// the first violation, checked in this order: length of the fixed region, structure
/// size, oplock level, impersonation level, undefined share-access bits in the low byte,
/// create disposition, the name's offset and length, and the name's text.
pub open spec fn spec_parse_request(b: Seq<u8>) -> Result<(RequestView, int), ErrorKind> {
    if b.len() < 56 {
        Err(ErrorKind::Truncated)
    } else if le16(b, 0) != REQUEST_STRUCTURE_SIZE {
        Err(ErrorKind::StructureSize { expected: REQUEST_STRUCTURE_SIZE, found: le16(b, 0) })
    } else if OplockLevel::spec_from_code(b[3]) is None {
        Err(ErrorKind::UnknownValue)
    } else if ImpersonationLevel::spec_from_code(le32(b, 4)) is None {
        Err(ErrorKind::UnknownValue)
    } else if b[32] & 0xF8u8 != 0 {
        Err(ErrorKind::UnknownValue)
    } else if CreateDisposition::spec_from_code(le32(b, 36)) is None {
        Err(ErrorKind::UnknownValue)
    } else {
        match spec_variable_field(b, le16(b, 44), le16(b, 46), REQUEST_CONSTANT_SIZE) {
            Err(e) => Err(e),
            Ok((start, end)) => match spec_utf16le(b.subrange(start, end)) {
                None => Err(ErrorKind::Text),
                Some(name) => Ok(
                    (
                        RequestView {
                            requested_oplock_level: OplockLevel::spec_from_code(b[3])->Some_0,
                            impersonation_level: ImpersonationLevel::spec_from_code(
                                le32(b, 4),
                            )->Some_0,
                            desired_access: le32(b, 24),
                            file_attributes: le32(b, 28),
                            share_access: b[32],
                            create_disposition: CreateDisposition::spec_from_code(
                                le32(b, 36),
                            )->Some_0,
                            create_options: le32(b, 40),
                            name,
                        },
                        end,
                    ),
                ),
            },
        }
    }
}

/// A name offset inside the fixed region always makes the request fail.
pub proof fn lemma_offset_in_fixed_region_fails(b: Seq<u8>)
    requires
        b.len() >= 56,
        le16(b, 44) < REQUEST_CONSTANT_SIZE,
    ensures
        spec_parse_request(b) is Err,
{
}

/// Decodes a create request body.
pub fn parse_request<'a>(data: &'a [u8], _dialect: Dialect) -> (r: Result<
    (&'a [u8], Request),
    ErrorKind,
>)
    ensures
        match r {
            Ok((rest, req)) => match spec_parse_request(data@) {
                Ok((v, n)) => req@ == v && rest@ == data@.subrange(n, data@.len() as int),
                Err(_) => false,
            },
            Err(e) => spec_parse_request(data@) == Err::<(RequestView, int), ErrorKind>(e),
        },
{
    if data.len() < 56 {
        return Err(ErrorKind::Truncated);
    }
    let size = read_u16(data, 0);
    if size != REQUEST_STRUCTURE_SIZE {
        return Err(ErrorKind::StructureSize { expected: REQUEST_STRUCTURE_SIZE, found: size });
    }
    let requested_oplock_level = match OplockLevel::from_code(read_u8(data, 3)) {
        Some(l) => l,
        None => return Err(ErrorKind::UnknownValue),
    };
    let impersonation_level = match ImpersonationLevel::from_code(read_u32(data, 4)) {
        Some(l) => l,
        None => return Err(ErrorKind::UnknownValue),
    };
    let desired_access = read_u32(data, 24);
    let file_attributes = read_u32(data, 28);
    let share_access = read_u8(data, 32);
    if share_access & 0xF8u8 != 0 {
        return Err(ErrorKind::UnknownValue);
    }
    let create_disposition = match CreateDisposition::from_code(read_u32(data, 36)) {
        Some(c) => c,
        None => return Err(ErrorKind::UnknownValue),
    };
    let create_options = read_u32(data, 40);
    let name_offset = read_u16(data, 44);
    let name_length = read_u16(data, 46);
    let (start, end) = variable_field(data, name_offset, name_length, REQUEST_CONSTANT_SIZE)?;
    let name = utf16le_to_string(subslice(data, start, end))?;
    let req = Request {
        requested_oplock_level,
        impersonation_level,
        desired_access,
        file_attributes,
        share_access,
        create_disposition,
        create_options,
        name,
    };
    Ok((subslice(data, end, data.len()), req))
}

} // verus!
