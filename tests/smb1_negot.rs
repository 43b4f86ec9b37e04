use smb2_packet::smb1::{DialectLevel, Flags, Flags2, Signature};
use smb2_packet::wire::ErrorKind;
use smb2_packet::{parse_smb1_nego_request, parse_smb1_nego_request_complete, Error};

fn smb1_request(flags2: u16, tid: u16, dialects: &[&str]) -> Vec<u8> {
    let mut m = vec![0xFF, b'S', b'M', b'B', 0x72, 0, 0, 0, 0];
    m.push(Flags::CANONICALIZED_PATHS | Flags::CASE_INSENSITIVE);
    m.extend_from_slice(&flags2.to_le_bytes());
    m.extend_from_slice(&0u16.to_le_bytes());
    m.extend_from_slice(&[0u8; 8]);
    m.extend_from_slice(&[0, 0]);
    m.extend_from_slice(&tid.to_le_bytes());
    m.extend_from_slice(&0xFEFFu16.to_le_bytes());
    m.extend_from_slice(&0u16.to_le_bytes());
    m.extend_from_slice(&0u16.to_le_bytes());
    let mut run = Vec::new();
    for d in dialects {
        run.push(0x02);
        run.extend_from_slice(d.as_bytes());
        run.push(0);
    }
    m.push(0);
    m.extend_from_slice(&(run.len() as u16).to_le_bytes());
    m.extend_from_slice(&run);
    let l = m.len() as u32;
    let mut v = vec![0, (l >> 16) as u8, (l >> 8) as u8, l as u8];
    v.extend_from_slice(&m);
    v
}

#[test]
fn smb1_negot_smb1_negot_req_smb2plus() {
    let flags2 = Flags2::SMB_SECURITY_SIGNATURE_REQUIRED
        | Flags2::LONG_NAMES
        | Flags2::EAS
        | Flags2::EXTENDED_SECURITY
        | Flags2::UNICODE
        | Flags2::IS_LONG_NAME
        | Flags2::EXTENDED_SECURITY
        | Flags2::NT_STATUS;
    let input = smb1_request(flags2, 65535, &["PC NETWORK PROGRAM 1.0", "NT LM 0.12", "SMB 2.002", "SMB 2.???"]);
    let (rest, req) = parse_smb1_nego_request(&input).unwrap();
    assert!(rest.is_empty());
    assert_eq!(req.level, DialectLevel::Smb2Plus);

    let header = &req.header;
    assert_eq!(header.status, 0);
    assert_eq!(header.flags.bits, Flags::CANONICALIZED_PATHS | Flags::CASE_INSENSITIVE);
    assert_eq!(header.flags2.bits, flags2);
    assert_eq!(header.tid, 65535);
    assert_eq!(header.pid, 65279);
    assert_eq!(header.uid, 0);
    assert_eq!(header.mid, 0);
    assert_eq!(header.signature, Signature::empty())
}

#[test]
fn smb1_negot_smb1_negot_req_not_supported() {
    let flags2 = Flags2::LONG_NAMES
        | Flags2::EAS
        | Flags2::EXTENDED_SECURITY
        | Flags2::UNICODE
        | Flags2::IS_LONG_NAME
        | Flags2::EXTENDED_SECURITY
        | Flags2::NT_STATUS;
    let input = smb1_request(flags2, 0, &["PC NETWORK PROGRAM 1.0", "LANMAN1.0", "NT LM 0.12"]);
    let (_, req) = parse_smb1_nego_request(&input).unwrap();
    assert_eq!(req.level, DialectLevel::NotSupported);

    let header = &req.header;
    assert_eq!(header.status, 0);
    assert_eq!(header.flags.bits, Flags::CANONICALIZED_PATHS | Flags::CASE_INSENSITIVE);
    assert_eq!(header.flags2.bits, flags2);
    assert_eq!(header.tid, 0);
    assert_eq!(header.pid, 65279);
    assert_eq!(header.uid, 0);
    assert_eq!(header.mid, 0);
    assert_eq!(header.signature, Signature::empty())
}

#[test]
fn smb2_only_level() {
    let input = smb1_request(0, 0, &["NT LM 0.12", "SMB 2.002"]);
    assert_eq!(parse_smb1_nego_request(&input).unwrap().1.level, DialectLevel::Smb2);
    let input = smb1_request(0, 0, &["SMB 2.???", "SMB 2.002"]);
    assert_eq!(parse_smb1_nego_request(&input).unwrap().1.level, DialectLevel::Smb2Plus);
}

#[test]
fn smb1_malformed() {
    let input = smb1_request(0, 0, &[]);
    assert_eq!(
        parse_smb1_nego_request(&input).err(),
        Some(Error::Invalid { position: 4, kind: ErrorKind::Tag })
    );
    let mut input = smb1_request(0, 0, &["NT LM 0.12"]);
    input[13] = 0x80;
    assert_eq!(
        parse_smb1_nego_request(&input).err(),
        Some(Error::Invalid { position: 4, kind: ErrorKind::Direction })
    );
    let input = smb1_request(0, 0, &["NT LM 0.12"]);
    let mut message = input[4..].to_vec();
    message.push(0xEE);
    assert_eq!(parse_smb1_nego_request_complete(&message).err(), Some(ErrorKind::TrailingBytes));
    assert_eq!(parse_smb1_nego_request(&input[..10]).err(), Some(Error::Incomplete(input.len() - 10)));
}
