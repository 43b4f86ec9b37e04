use smb2_packet::command::negotiate::{Capabilities, Cipher, Context, HashAlgorithm};
use smb2_packet::command::{RequestBody, ResponseBody};
use smb2_packet::header::{Command, Flags, Signature, SyncType, SERVER_TO_REDIR};
use smb2_packet::ntstatus::NTStatus;
use smb2_packet::wire::ErrorKind;
use smb2_packet::{parse, parse_response, Dialect, Error};

fn put16(v: &mut Vec<u8>, x: u16) {
    v.extend_from_slice(&x.to_le_bytes());
}

fn put32(v: &mut Vec<u8>, x: u32) {
    v.extend_from_slice(&x.to_le_bytes());
}

fn put64(v: &mut Vec<u8>, x: u64) {
    v.extend_from_slice(&x.to_le_bytes());
}

/// A 64-byte header: sync when `async_id` is None, with `tree_id`.
#[allow(clippy::too_many_arguments)]
fn header(
    command: u16,
    status: u32,
    credit: u16,
    flags: u32,
    next: u32,
    message_id: u64,
    tree_id: u32,
    async_id: Option<u64>,
    session_id: u64,
) -> Vec<u8> {
    let mut v = vec![0xFE, b'S', b'M', b'B'];
    put16(&mut v, 64);
    put16(&mut v, 0);
    put32(&mut v, status);
    put16(&mut v, command);
    put16(&mut v, credit);
    put32(&mut v, flags);
    put32(&mut v, next);
    put64(&mut v, message_id);
    match async_id {
        Some(id) => put64(&mut v, id),
        None => {
            put32(&mut v, 0);
            put32(&mut v, tree_id);
        }
    }
    put64(&mut v, session_id);
    v.extend_from_slice(&[0u8; 16]);
    v
}

fn frame(message: &[u8]) -> Vec<u8> {
    let l = message.len() as u32;
    let mut v = vec![0, (l >> 16) as u8, (l >> 8) as u8, l as u8];
    v.extend_from_slice(message);
    v
}

fn negotiate_body(dialects: &[u16], context_offset: u32, contexts: &[(u16, Vec<u8>)]) -> Vec<u8> {
    let mut v = Vec::new();
    put16(&mut v, 36);
    put16(&mut v, dialects.len() as u16);
    put16(&mut v, 0x01);
    put16(&mut v, 0);
    put32(&mut v, 0x77);
    v.extend_from_slice(&GUID);
    put32(&mut v, context_offset);
    put16(&mut v, contexts.len() as u16);
    put16(&mut v, 0);
    for d in dialects {
        put16(&mut v, *d);
    }
    for (t, data) in contexts {
        while (64 + v.len()) % 8 != 0 {
            v.push(0);
        }
        put16(&mut v, *t);
        put16(&mut v, data.len() as u16);
        put32(&mut v, 0);
        v.extend_from_slice(data);
    }
    v
}

const GUID: [u8; 16] = [
    0xa3, 0x09, 0x6f, 0x6d, 0x22, 0xc1, 0x53, 0x79, 0x9d, 0x99, 0x95, 0xf3, 0xb3, 0xd7, 0xb9, 0x65,
];

const SALT: [u8; 32] = [
    0xb0, 0xb8, 0xe4, 0x0b, 0x3b, 0xa8, 0x3e, 0x60, 0x4e, 0xdc, 0xdd, 0x80, 0xa4, 0x3d, 0x23, 0xf7,
    0x9a, 0x5d, 0x11, 0xc0, 0x97, 0xc4, 0x58, 0x8a, 0xfe, 0xa6, 0x91, 0xfa, 0x31, 0xb6, 0x8a, 0x7f,
];

#[test]
fn basic_header1() {
    let mut message = header(0x10, 0, 52, 0, 0, 15, 5, None, 0x0000_0400_0000_0005);
    message.extend_from_slice(&[0x29, 0, 1, 4, 0, 0, 0, 0]);
    let input = frame(&message);
    let (rest, requests) = parse(&input, Dialect::Smb3_0_2).unwrap();
    assert!(rest.is_empty());
    let request = &requests[0];
    let header = &request.header;

    assert_eq!(header.credit_charge, Some(0));
    assert_eq!(header.channel_sequence, Some(0));
    assert_eq!(header.credit_request, 52);
    assert_eq!(header.flags, Flags::empty());
    assert_eq!(header.message_id, 15);
    assert_eq!(header.sync_type, SyncType::Sync { tree_id: 5 });
    assert_eq!(header.session_id, 0x0000_0400_0000_0005);
    assert_eq!(header.signature, Signature::empty());

    match &request.body {
        RequestBody::NotImplemented { command, body } => {
            assert_eq!(*command, Command::QueryInfo);
            assert_eq!(*body, &[0x29, 0, 1, 4, 0, 0, 0, 0][..]);
        }
        _ => panic!("Expected not implemented!"),
    };
}

#[test]
fn header2() {
    let mut message = header(0x08, 0x8000_0005, 2, SERVER_TO_REDIR, 0, 34, 0x0c09_ef82, None, 0x2a16_df11);
    message.extend_from_slice(&[0x11, 0, 0x50, 0]);
    let input = frame(&message);
    let responses = parse_response(&input, Dialect::Smb3_0_2).unwrap().1;
    let response = &responses[0];
    let header = &response.header;

    assert_eq!(header.credit_charge, Some(0));
    assert_eq!(header.credit_response, 2);
    assert_eq!(header.status, NTStatus::BufferOverflow);
    assert_eq!(header.flags, Flags::from_bits(SERVER_TO_REDIR).unwrap());
    assert_eq!(header.message_id, 34);
    assert_eq!(header.sync_type, SyncType::Sync { tree_id: 0x0c09_ef82 });
    assert_eq!(header.session_id, 0x0000_0000_2a16_df11);
    assert_eq!(header.signature, Signature::empty());

    match &response.body {
        ResponseBody::NotImplemented { command, .. } => assert_eq!(*command, Command::Read),
        _ => panic!("Expected not implemented!"),
    };
}

#[test]
fn negotiate_request() {
    let mut message = header(0x00, 0, 31, 0, 0, 0, 0, None, 0);
    message.extend_from_slice(&negotiate_body(&[0x0202, 0x0210, 0x0300, 0x0302], 0, &[]));
    let input = frame(&message);
    let requests = parse(&input, Dialect::Smb2_0_2).unwrap().1;
    let body = match &requests[0].body {
        RequestBody::Negotiate(msg) => msg,
        _ => panic!("Expected not implemented!"),
    };
    let dialects = [Dialect::Smb2_0_2, Dialect::Smb2_1_0, Dialect::Smb3_0_0, Dialect::Smb3_0_2];

    assert!(body.signing_enabled);
    assert!(!body.signing_required);
    assert_eq!(
        body.capabilities.bits,
        Capabilities::DFS
            | Capabilities::LEASING
            | Capabilities::LARGE_MTU
            | Capabilities::PERSISTENT_HANDLES
            | Capabilities::DIRECTORY_LEASING
            | Capabilities::ENCRYPTION
    );
    assert_eq!(body.client_guid.bytes(), GUID);
    assert_eq!(body.dialects, dialects);
    assert_eq!(body.negotiate_contexts.len(), 0);
    assert_eq!(requests[0].header.credit_charge, None);
}

#[test]
fn negotiate_with_context_request() {
    let mut preauth = Vec::new();
    put16(&mut preauth, 1);
    put16(&mut preauth, 32);
    put16(&mut preauth, 1);
    preauth.extend_from_slice(&SALT);
    let mut encryption = Vec::new();
    put16(&mut encryption, 1);
    put16(&mut encryption, 1);
    let contexts = [(1u16, preauth), (2u16, encryption), (3u16, vec![0u8; 8])];
    let mut message = header(0x00, 0, 31, 0, 0, 0, 0, None, 0);
    message.extend_from_slice(&negotiate_body(&[0x0311], 104, &contexts));
    let input = frame(&message);
    let requests = parse(&input, Dialect::Smb3_1_1).unwrap().1;
    let body = match &requests[0].body {
        RequestBody::Negotiate(msg) => msg,
        _ => panic!("Expected not implemented!"),
    };

    assert!(body.signing_enabled);
    assert_eq!(body.capabilities.bits, 0x77);
    assert_eq!(body.client_guid.bytes(), GUID);
    assert_eq!(body.dialects, [Dialect::Smb3_1_1]);
    assert_eq!(body.negotiate_contexts.len(), 3);

    if let Context::PreauthIntegrityCapabilities(x) = &body.negotiate_contexts[0] {
        assert_eq!(x.hash_algorithms, [HashAlgorithm::Sha512]);
        assert_eq!(x.salt, SALT);
    } else {
        panic!("First context is PreauthIntegrityCapabilities")
    };
    if let Context::EncryptionCapabilities(x) = &body.negotiate_contexts[1] {
        assert_eq!(x, &[Cipher::Aes128Ccm]);
    } else {
        panic!("Second context is EncryptionCapabilities")
    };
    if let Context::Unknown(x) = body.negotiate_contexts[2] {
        assert_eq!(x, [0; 8]);
    } else {
        panic!("Third context is Unknown")
    };
}

#[test]
fn negotiate_context_offset_inside_dialects_fails() {
    let mut message = header(0x00, 0, 31, 0, 0, 0, 0, None, 0);
    message.extend_from_slice(&negotiate_body(&[0x0311], 100, &[(3u16, vec![0u8; 8])]));
    let input = frame(&message);
    match parse(&input, Dialect::Smb3_1_1) {
        Err(Error::Invalid { position: 4, kind }) => {
            assert_eq!(kind, ErrorKind::Offset { minimum: 102, declared: 100 })
        }
        other => panic!("unexpected {:?}", other.map(|r| r.1.len())),
    }
}

#[test]
fn async_header_has_async_id() {
    let message = header(0x10, 0, 1, 0x2, 0, 7, 0, Some(0x1122_3344_5566_7788), 9);
    let input = frame(&message);
    let requests = parse(&input, Dialect::Smb3_0_2).unwrap().1;
    assert_eq!(requests[0].header.sync_type, SyncType::Async { async_id: 0x1122_3344_5566_7788 });
    assert!(requests[0].header.flags.is_async());
}

#[test]
fn compound_chain_decodes_every_link() {
    let mut first = header(0x10, 0, 1, 0, 72, 1, 5, None, 9);
    first.extend_from_slice(&[1, 2, 3, 4, 5, 6, 7, 8]);
    let mut second = header(0x04, 0, 1, 0x4, 0, 2, 5, None, 9);
    second.extend_from_slice(&[4, 0, 0, 0]);
    let mut message = first.clone();
    message.extend_from_slice(&second);
    let mut input = frame(&message);
    input.extend_from_slice(&[0xAA, 0xBB]);
    let (rest, requests) = parse(&input, Dialect::Smb2_1_0).unwrap();
    assert_eq!(rest, &[0xAA, 0xBB]);
    assert_eq!(requests.len(), 2);
    assert_eq!(requests[0].header.message_id, 1);
    assert_eq!(requests[0].header.credit_charge, Some(0));
    assert_eq!(requests[0].header.channel_sequence, None);
    match &requests[0].body {
        RequestBody::NotImplemented { body, .. } => assert_eq!(body.len(), 8),
        _ => panic!("first link is pass-through"),
    }
    assert!(matches!(requests[1].body, RequestBody::TreeDisconnect));
    assert!(requests[1].header.flags.is_related());
}

#[test]
fn next_command_past_the_end_fails() {
    let mut message = header(0x10, 0, 1, 0, 200, 1, 5, None, 9);
    message.extend_from_slice(&[0u8; 8]);
    let input = frame(&message);
    assert_eq!(
        parse(&input, Dialect::Smb3_0_2).err(),
        Some(Error::Invalid { position: 4, kind: ErrorKind::Truncated })
    );
}

#[test]
fn later_link_failure_names_its_position() {
    let mut first = header(0x10, 0, 1, 0, 72, 1, 5, None, 9);
    first.extend_from_slice(&[0u8; 8]);
    let mut second = header(0x04, 0, 1, 0, 0, 2, 5, None, 9);
    second.extend_from_slice(&[5, 0, 0, 0]);
    let mut message = first;
    message.extend_from_slice(&second);
    let input = frame(&message);
    assert_eq!(
        parse(&input, Dialect::Smb3_0_2).err(),
        Some(Error::Invalid { position: 76, kind: ErrorKind::StructureSize { expected: 4, found: 5 } })
    );
}

#[test]
fn wrong_direction_fails() {
    let message = header(0x10, 0, 1, SERVER_TO_REDIR, 0, 1, 5, None, 9);
    let input = frame(&message);
    assert_eq!(
        parse(&input, Dialect::Smb3_0_2).err(),
        Some(Error::Invalid { position: 4, kind: ErrorKind::Direction })
    );
    let message = header(0x10, 0, 1, 0, 0, 1, 5, None, 9);
    let input = frame(&message);
    assert_eq!(
        parse_response(&input, Dialect::Smb3_0_2).err(),
        Some(Error::Invalid { position: 4, kind: ErrorKind::Direction })
    );
}

#[test]
fn unknown_command_and_signature_fail() {
    let message = header(0x13, 0, 1, 0, 0, 1, 5, None, 9);
    let input = frame(&message);
    assert_eq!(
        parse(&input, Dialect::Smb3_0_2).err(),
        Some(Error::Invalid { position: 4, kind: ErrorKind::UnknownValue })
    );
    let mut message = header(0x10, 0, 1, 0, 0, 1, 5, None, 9);
    message[0] = 0xFF;
    let input = frame(&message);
    assert_eq!(
        parse(&input, Dialect::Smb3_0_2).err(),
        Some(Error::Invalid { position: 4, kind: ErrorKind::Tag })
    );
}

#[test]
fn successful_response_gets_placeholder() {
    let message = header(0x06, 0, 1, SERVER_TO_REDIR, 0, 3, 5, None, 9);
    let input = frame(&message);
    let responses = parse_response(&input, Dialect::Smb3_0_2).unwrap().1;
    match &responses[0].body {
        ResponseBody::Error(e) => {
            assert_eq!(e.status, NTStatus::Sucess);
            assert_eq!(e.command, Command::Close);
        }
        _ => panic!("a successful response is not decoded further"),
    }
}

#[test]
fn incomplete_frame_asks_for_more() {
    let message = header(0x10, 0, 1, 0, 0, 1, 5, None, 9);
    let input = frame(&message);
    assert_eq!(parse(&input[..2], Dialect::Smb3_0_2).err(), Some(Error::Incomplete(2)));
    assert_eq!(parse(&input[..30], Dialect::Smb3_0_2).err(), Some(Error::Incomplete(38)));
    let mut bad = input.clone();
    bad[0] = 0x85;
    assert_eq!(
        parse(&bad, Dialect::Smb3_0_2).err(),
        Some(Error::Invalid { position: 0, kind: ErrorKind::Tag })
    );
}

#[test]
fn decoding_twice_gives_the_same_result() {
    let mut message = header(0x00, 0, 31, 0, 0, 0, 0, None, 0);
    message.extend_from_slice(&negotiate_body(&[0x0202, 0x0311], 104, &[(3u16, vec![7u8; 5])]));
    let input = frame(&message);
    let a = parse(&input, Dialect::Smb3_1_1);
    let b = parse(&input, Dialect::Smb3_1_1);
    assert_eq!(format!("{:?}", a), format!("{:?}", b));
    assert!(a.is_ok());
}
