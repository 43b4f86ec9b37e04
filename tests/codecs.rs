use smb2_packet::command::write::sort_buffers;
use smb2_packet::command::{close, create, flush, logoff, negotiate, read, session_setup, tree_connect, tree_disconnect};
use smb2_packet::command::{Channel, RequestBody};
use smb2_packet::header::Command;
use smb2_packet::transport::{extract_message_length, get_payload, FrameError};
use smb2_packet::wire::ErrorKind;
use smb2_packet::{utf16le_to_string, Dialect, FileId};

fn put16(v: &mut Vec<u8>, x: u16) {
    v.extend_from_slice(&x.to_le_bytes());
}

fn put32(v: &mut Vec<u8>, x: u32) {
    v.extend_from_slice(&x.to_le_bytes());
}

fn put64(v: &mut Vec<u8>, x: u64) {
    v.extend_from_slice(&x.to_le_bytes());
}

fn utf16(s: &str) -> Vec<u8> {
    s.encode_utf16().flat_map(|u| u.to_le_bytes()).collect()
}

const ID: [u8; 16] = [1, 2, 3, 4, 5, 6, 7, 8, 9, 10, 11, 12, 13, 14, 15, 16];

fn tree_connect_body(offset: u16, path: &[u8]) -> Vec<u8> {
    let mut v = Vec::new();
    put16(&mut v, 9);
    put16(&mut v, 0);
    put16(&mut v, offset);
    put16(&mut v, path.len() as u16);
    v.extend_from_slice(path);
    v
}

fn session_setup_body(flags: u8, offset: u16, buffer: &[u8]) -> Vec<u8> {
    let mut v = Vec::new();
    put16(&mut v, 25);
    v.push(flags);
    v.push(0x02);
    put32(&mut v, 0xFFFF_FFFF);
    put32(&mut v, 0);
    put16(&mut v, offset);
    put16(&mut v, buffer.len() as u16);
    put64(&mut v, 0x55);
    v.extend_from_slice(buffer);
    v
}

fn create_body(oplock: u8, disposition: u32, offset: u16, name: &[u8]) -> Vec<u8> {
    let mut v = Vec::new();
    put16(&mut v, 57);
    v.push(0);
    v.push(oplock);
    put32(&mut v, 2);
    v.extend_from_slice(&[0u8; 16]);
    put32(&mut v, 0x0012_0089);
    put32(&mut v, 0x80);
    put32(&mut v, 0x07);
    put32(&mut v, disposition);
    put32(&mut v, 0x40);
    put16(&mut v, offset);
    put16(&mut v, name.len() as u16);
    put32(&mut v, 0);
    put32(&mut v, 0);
    v.extend_from_slice(name);
    v
}

fn read_body(channel_type: u32, channel_offset: u16, channel: &[u8]) -> Vec<u8> {
    let mut v = Vec::new();
    put16(&mut v, 49);
    v.push(0x50);
    v.push(0x01);
    put32(&mut v, 0x1000);
    put64(&mut v, 0x2000);
    v.extend_from_slice(&ID);
    put32(&mut v, 1);
    put32(&mut v, channel_type);
    put32(&mut v, 0);
    put16(&mut v, channel_offset);
    put16(&mut v, channel.len() as u16);
    while v.len() < (channel_offset as usize).saturating_sub(64) {
        v.push(0);
    }
    v.extend_from_slice(channel);
    v
}

/// A write body whose buffers are laid out at the declared offsets.
fn write_body(
    channel_type: u32,
    data_offset: u16,
    data: &[u8],
    channel_offset: u16,
    channel: &[u8],
) -> Vec<u8> {
    let mut v = Vec::new();
    put16(&mut v, 49);
    put16(&mut v, data_offset);
    put32(&mut v, data.len() as u32);
    put64(&mut v, 0x3000);
    v.extend_from_slice(&ID);
    put32(&mut v, channel_type);
    put32(&mut v, 4);
    put16(&mut v, channel_offset);
    put16(&mut v, channel.len() as u16);
    put32(&mut v, 0x01);
    let mut place = |offset: u16, bytes: &[u8]| {
        let start = offset as usize - 64;
        if v.len() < start + bytes.len() {
            v.resize(start + bytes.len(), 0);
        }
        v[start..start + bytes.len()].copy_from_slice(bytes);
    };
    if data_offset >= 64 {
        place(data_offset, data);
    }
    if !channel.is_empty() && channel_offset >= 64 {
        place(channel_offset, channel);
    }
    v
}

#[test]
fn tree_connect_decodes_utf16_path() {
    let path = utf16("\\\\server\\share");
    let body = tree_connect_body(72, &path);
    let (rest, req) = tree_connect::parse_request(&body).unwrap();
    assert_eq!(req.path, "\\\\server\\share");
    assert_eq!(req.flags, 0);
    assert!(rest.is_empty());
}

#[test]
fn tree_connect_bad_text_fails() {
    let body = tree_connect_body(72, &[0x41, 0x00, 0x42]);
    assert_eq!(tree_connect::parse_request(&body).err(), Some(ErrorKind::Text));
    let body = tree_connect_body(72, &[0x00, 0xD8, 0x41, 0x00]);
    assert_eq!(tree_connect::parse_request(&body).err(), Some(ErrorKind::Text));
}

#[test]
fn utf16_text_field() {
    assert_eq!(utf16le_to_string(&utf16("héllo")).unwrap(), "héllo");
    assert_eq!(utf16le_to_string(&[]).unwrap(), "");
    assert_eq!(utf16le_to_string(&[0x3D, 0xD8, 0x00, 0xDE]).unwrap(), "\u{1F600}");
    assert_eq!(utf16le_to_string(&[0x41]), Err(ErrorKind::Text));
}

#[test]
fn offset_inside_fixed_region_fails_for_every_variable_field() {
    let path = utf16("x");
    assert_eq!(
        tree_connect::parse_request(&tree_connect_body(71, &path)).err(),
        Some(ErrorKind::Offset { minimum: 72, declared: 71 })
    );
    assert_eq!(
        session_setup::parse_request(&session_setup_body(0, 87, &[1, 2]), Dialect::Smb3_0_2).err(),
        Some(ErrorKind::Offset { minimum: 88, declared: 87 })
    );
    assert_eq!(
        create::parse_request(&create_body(0, 1, 119, &path), Dialect::Smb3_0_2).err(),
        Some(ErrorKind::Offset { minimum: 120, declared: 119 })
    );
    assert_eq!(
        read::parse_request(&read_body(1, 111, &[9u8; 16]), Dialect::Smb3_1_1).err(),
        Some(ErrorKind::Offset { minimum: 112, declared: 111 })
    );
    assert_eq!(
        smb2_packet::command::write::parse_request(&write_body(0, 100, &[1, 2, 3], 0, &[]), Dialect::Smb3_0_2).err(),
        Some(ErrorKind::Offset { minimum: 112, declared: 100 })
    );
    assert_eq!(
        smb2_packet::command::write::parse_request(&write_body(1, 120, &[1, 2, 3], 90, &[7; 4]), Dialect::Smb3_1_1).err(),
        Some(ErrorKind::Offset { minimum: 112, declared: 90 })
    );
}

#[test]
fn session_setup_fields() {
    let body = session_setup_body(0, 88, &[0x60, 0x48, 0x06]);
    let (_, req) = session_setup::parse_request(&body, Dialect::Smb3_0_2).unwrap();
    assert_eq!(req.flags, 0);
    assert!(req.signing_required);
    assert_eq!(req.capabilities, 0x01);
    assert_eq!(req.previous_session_id, 0x55);
    assert_eq!(req.security_buffer, &[0x60, 0x48, 0x06]);
    let body = session_setup_body(1, 88, &[1]);
    assert!(session_setup::parse_request(&body, Dialect::Smb2_1_0).is_ok());
    assert_eq!(
        session_setup::parse_request(&body, Dialect::Smb3_0_0).err(),
        Some(ErrorKind::Constraint)
    );
    let body = session_setup_body(2, 88, &[1]);
    assert_eq!(
        session_setup::parse_request(&body, Dialect::Smb2_1_0).err(),
        Some(ErrorKind::UnknownValue)
    );
}

#[test]
fn create_fields() {
    let name = utf16("dir\\file.txt");
    let body = create_body(0x09, 3, 120, &name);
    let (_, req) = create::parse_request(&body, Dialect::Smb3_0_2).unwrap();
    assert_eq!(req.requested_oplock_level, create::OplockLevel::Batch);
    assert_eq!(req.impersonation_level, create::ImpersonationLevel::Impersonation);
    assert_eq!(req.desired_access, 0x0012_0089);
    assert_eq!(req.file_attributes, 0x80);
    assert_eq!(req.share_access, 0x07);
    assert_eq!(req.create_disposition, create::CreateDisposition::OpenIf);
    assert_eq!(req.create_options, 0x40);
    assert_eq!(req.name, "dir\\file.txt");
}

#[test]
fn create_unknown_discriminants_fail() {
    let name = utf16("a");
    assert_eq!(
        create::parse_request(&create_body(0x02, 1, 120, &name), Dialect::Smb3_0_2).err(),
        Some(ErrorKind::UnknownValue)
    );
    assert_eq!(
        create::parse_request(&create_body(0x00, 6, 120, &name), Dialect::Smb3_0_2).err(),
        Some(ErrorKind::UnknownValue)
    );
    assert_eq!(create::CreateAction::from_code(2), Some(create::CreateAction::Created));
    assert_eq!(create::CreateAction::from_code(4), None);
}

#[test]
fn close_flush_logoff_disconnect() {
    let mut body = Vec::new();
    put16(&mut body, 24);
    put16(&mut body, 1);
    put32(&mut body, 0);
    body.extend_from_slice(&ID);
    let (_, req) = close::parse_request(&body).unwrap();
    assert!(req.postquery_attrib);
    assert_eq!(req.file_id, FileId::from_slice(&ID));
    assert_eq!(req.file_id.bytes(), ID);
    body[2] = 2;
    assert_eq!(close::parse_request(&body).err(), Some(ErrorKind::UnknownValue));

    let (rest, req) = flush::parse_request(&body).unwrap();
    assert_eq!(req.file_id.bytes(), ID);
    assert!(rest.is_empty());
    assert_eq!(flush::parse_request(&body[..20]).err(), Some(ErrorKind::Truncated));

    assert!(logoff::parse_request(&[4, 0, 0, 0]).is_ok());
    assert_eq!(
        logoff::parse_request(&[24, 0, 0, 0]).err(),
        Some(ErrorKind::StructureSize { expected: 4, found: 24 })
    );
    assert_eq!(tree_disconnect::parse_request(&[4, 0, 0, 0, 9]).unwrap().0, &[9]);
}

#[test]
fn read_channel_decoded_from_311() {
    let descriptor = [0xABu8; 16];
    let body = read_body(1, 112, &descriptor);
    let (rest, req) = read::parse_request(&body, Dialect::Smb3_1_1).unwrap();
    assert!(rest.is_empty());
    assert_eq!(req.padding, 0x50);
    assert!(req.read_unbuffered);
    assert_eq!(req.length, 0x1000);
    assert_eq!(req.offset, 0x2000);
    assert_eq!(req.minimum_count, 1);
    match req.channel {
        Channel::RdmaV1(b) => assert_eq!(b, &descriptor),
        _ => panic!("expected an RDMA channel"),
    }
    let body = read_body(0, 0, &[]);
    let (_, req) = read::parse_request(&body, Dialect::Smb3_0_2).unwrap();
    assert!(matches!(req.channel, Channel::NoChannel));
    let body = read_body(7, 112, &descriptor);
    assert!(read::parse_request(&body, Dialect::Smb3_0_2).is_err());
    assert_eq!(read::parse_request(&body, Dialect::Smb3_1_1).err(), Some(ErrorKind::UnknownValue));
}

#[test]
fn write_buffers_in_either_order() {
    let data = [1u8, 2, 3, 4, 5];
    let channel = [9u8; 16];
    let body = write_body(2, 112, &data, 120, &channel);
    let (_, req) = smb2_packet::command::write::parse_request(&body, Dialect::Smb3_1_1).unwrap();
    assert_eq!(req.data, &data);
    match req.channel {
        Channel::RdmaV1Invalidate(b) => assert_eq!(b, &channel),
        _ => panic!("expected an RDMA channel"),
    }
    assert!(req.write_through);
    assert!(!req.write_unbuffered);
    assert_eq!(req.remaining_bytes, 4);

    let body = write_body(1, 128, &data, 112, &channel);
    let (rest, req) = smb2_packet::command::write::parse_request(&body, Dialect::Smb3_1_1).unwrap();
    assert!(rest.is_empty());
    assert_eq!(req.data, &data);
    match req.channel {
        Channel::RdmaV1(b) => assert_eq!(b, &channel),
        _ => panic!("expected an RDMA channel"),
    }
}

#[test]
fn overlapping_write_buffers_fail() {
    let data = [1u8, 2, 3, 4, 5];
    let channel = [9u8; 16];
    let body = write_body(1, 112, &data, 115, &channel);
    assert_eq!(
        smb2_packet::command::write::parse_request(&body, Dialect::Smb3_1_1).err(),
        Some(ErrorKind::Offset { minimum: 117, declared: 115 })
    );
    let body = write_body(1, 120, &data, 112, &channel);
    assert_eq!(
        smb2_packet::command::write::parse_request(&body, Dialect::Smb3_1_1).err(),
        Some(ErrorKind::Offset { minimum: 128, declared: 120 })
    );
}

#[test]
fn write_without_channel() {
    let data = [7u8; 10];
    let body = write_body(0, 112, &data, 0, &[]);
    let (_, req) = smb2_packet::command::write::parse_request(&body, Dialect::Smb3_0_2).unwrap();
    assert_eq!(req.data, &data);
    assert!(matches!(req.channel, Channel::NoChannel));
    let mut body = write_body(0, 112, &data, 0, &[]);
    body[42] = 1;
    assert_eq!(smb2_packet::command::write::parse_request(&body, Dialect::Smb3_0_2).err(), Some(ErrorKind::Constraint));
    let body = write_body(0, 112, &[], 0, &[]);
    assert_eq!(smb2_packet::command::write::parse_request(&body, Dialect::Smb3_0_2).err(), Some(ErrorKind::Constraint));
}

#[test]
fn sorted_buffers_ascend() {
    let (a, b) = sort_buffers(200, 4, 112, 10);
    assert_eq!((a.offset, a.length, b.offset, b.length), (112, 10, 200, 4));
    let (a, b) = sort_buffers(112, 4, 200, 10);
    assert_eq!((a.offset, b.offset), (112, 200));
}

#[test]
fn negotiate_errors() {
    let mut body = Vec::new();
    put16(&mut body, 36);
    put16(&mut body, 0);
    body.extend_from_slice(&[0u8; 32]);
    assert_eq!(negotiate::parse(&body).err(), Some(ErrorKind::Constraint));
    body[2] = 1;
    body.extend_from_slice(&[0x99, 0x02]);
    assert_eq!(negotiate::parse(&body).err(), Some(ErrorKind::UnknownValue));
    body[36] = 0x02;
    assert!(negotiate::parse(&body).is_ok());
    assert_eq!(negotiate::parse(&body[..10]).err(), Some(ErrorKind::Truncated));
}

#[test]
fn request_body_dispatch() {
    let body = [4u8, 0, 0, 0];
    assert!(matches!(
        RequestBody::parse(&body, Dialect::Smb3_0_2, Command::Logoff),
        Ok(RequestBody::Logoff)
    ));
    assert!(matches!(
        RequestBody::parse(&body, Dialect::Smb3_0_2, Command::Echo),
        Ok(RequestBody::NotImplemented { command: Command::Echo, .. })
    ));
    assert!(RequestBody::parse(&body, Dialect::Smb3_0_2, Command::Close).is_err());
}

#[test]
fn transport_framing() {
    let stream = [0u8, 0, 0, 3, 7, 8, 9, 1];
    let (rest, payload) = get_payload(&stream).unwrap();
    assert_eq!(payload, &[7, 8, 9]);
    assert_eq!(rest, &[1]);
    assert_eq!(get_payload(&stream[..5]).err(), Some(FrameError::Incomplete(2)));
    assert_eq!(get_payload(&[]).err(), Some(FrameError::Incomplete(4)));
    assert_eq!(get_payload(&[1, 0, 0, 0]).err(), Some(FrameError::Invalid(ErrorKind::Tag)));
    assert_eq!(extract_message_length(&[0, 1, 2, 3]), Some(0x01_0203));
    assert_eq!(extract_message_length(&[0, 1, 2]), None);
    assert_eq!(extract_message_length(&[2, 1, 2, 3]), None);
}

#[test]
fn dialect_order_and_gates() {
    assert!(Dialect::Smb2_0_2.code() < Dialect::Smb2_1_0.code());
    assert!(Dialect::Smb3_0_2.code() < Dialect::Smb3_1_1.code());
    assert_eq!(Dialect::from_code(0x0302), Some(Dialect::Smb3_0_2));
    assert_eq!(Dialect::from_code(0x02FF), None);
    assert!(!smb2_packet::has_credit_charge(Dialect::Smb2_0_2));
    assert!(smb2_packet::has_credit_charge(Dialect::Smb2_1_0));
    assert!(smb2_packet::has_channel_sequence(Dialect::Smb3_0_0, false));
    assert!(!smb2_packet::has_channel_sequence(Dialect::Smb3_0_0, true));
    assert!(!smb2_packet::has_channel_type(Dialect::Smb3_0_2));
    assert!(smb2_packet::has_channel_type(Dialect::Smb3_1_1));
}

#[test]
fn negotiate_contexts_take_declared_lengths_and_padding() {
    let mut body = Vec::new();
    put16(&mut body, 36);
    put16(&mut body, 1);
    put16(&mut body, 0);
    put16(&mut body, 0);
    put32(&mut body, 0);
    body.extend_from_slice(&ID);
    put32(&mut body, 104);
    put16(&mut body, 2);
    put16(&mut body, 0);
    put16(&mut body, 0x0311);
    // Two bytes of padding bring the first record to message offset 104.
    body.extend_from_slice(&[0, 0]);
    put16(&mut body, 0x0100);
    put16(&mut body, 3);
    put32(&mut body, 0);
    body.extend_from_slice(&[1, 2, 3]);
    // The first record ends at message offset 115; five bytes of padding reach 120.
    body.extend_from_slice(&[0; 5]);
    put16(&mut body, 0x0200);
    put16(&mut body, 1);
    put32(&mut body, 0);
    body.push(4);
    body.extend_from_slice(&[0xEE, 0xEF]);
    let (rest, req) = negotiate::parse(&body).unwrap();
    assert_eq!(rest, &[0xEE, 0xEF]);
    assert_eq!(req.negotiate_contexts.len(), 2);
    assert!(!req.signing_enabled);
    match (&req.negotiate_contexts[0], &req.negotiate_contexts[1]) {
        (negotiate::Context::Unknown(a), negotiate::Context::Unknown(b)) => {
            assert_eq!(*a, &[1, 2, 3]);
            assert_eq!(*b, &[4]);
        }
        _ => panic!("both records have unknown types"),
    }
    assert_eq!(negotiate::parse(&body[..body.len() - 3]).err(), Some(ErrorKind::Truncated));
}
