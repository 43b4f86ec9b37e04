use smb2_packet::ntstatus::{Facility, NTStatus, Severity};

const ALL: [NTStatus; 14] = [
    NTStatus::Sucess,
    NTStatus::Pending,
    NTStatus::MoreEntries,
    NTStatus::SomeNotMapped,
    NTStatus::NotifyCleanup,
    NTStatus::NotifyEnumDir,
    NTStatus::BufferOverflow,
    NTStatus::NoMoreFiles,
    NTStatus::NoMoreEas,
    NTStatus::InvalidEaName,
    NTStatus::EaListInconsistent,
    NTStatus::InvalidEaFlag,
    NTStatus::StoppedOnSymlink,
    NTStatus::InvalidParameter,
];

fn is_custom(status: NTStatus) -> bool {
    ((status.code() >> 28) & 0x1) == 1
}

fn reserved_field(status: NTStatus) -> u32 {
    (status.code() >> 29) & 0x1
}

#[test]
fn no_custom() {
    for status in ALL.iter() {
        assert!(!is_custom(*status));
    }
}

#[test]
fn all_reserved() {
    for status in ALL.iter() {
        assert!(reserved_field(*status) == 0);
    }
}

#[test]
fn all_severity_exit() {
    for status in ALL.iter() {
        status.facility();
    }
}

#[test]
fn severity_is_top_two_bits() {
    assert_eq!(NTStatus::Sucess.severity(), Severity::Success);
    assert_eq!(NTStatus::Pending.severity(), Severity::Success);
    assert_eq!(NTStatus::BufferOverflow.severity(), Severity::Warning);
    assert_eq!(NTStatus::InvalidParameter.severity(), Severity::Error);
    assert_eq!(NTStatus::Other(0x4000_0000).severity(), Severity::Informational);
}

#[test]
fn success_iff_severity_zero() {
    assert!(NTStatus::Sucess.is_success());
    assert!(NTStatus::NotifyEnumDir.is_success());
    assert!(!NTStatus::NoMoreFiles.is_success());
    assert!(!NTStatus::InvalidParameter.is_success());
    assert!(!NTStatus::Other(0x4000_0001).is_success());
}

#[test]
fn facility_bits_16_to_27() {
    assert_eq!(NTStatus::Sucess.facility(), None);
    assert_eq!(NTStatus::Other(0xC007_0005).facility(), Some(Facility::NtWin32));
    assert_eq!(NTStatus::Other(0x8037_0000).facility(), Some(Facility::MaximumValue));
    assert_eq!(NTStatus::Other(0xC005_0000).facility(), None);
}

#[test]
fn codes_round_trip() {
    for status in ALL.iter() {
        assert_eq!(NTStatus::from_code(status.code()), *status);
    }
    assert_eq!(NTStatus::from_code(0xC000_0022), NTStatus::Other(0xC000_0022));
    assert_eq!(NTStatus::InvalidParameter.code(), 0xC000_000D);
}
