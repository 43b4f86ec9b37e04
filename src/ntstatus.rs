use vstd::prelude::*;

verus! {

/// The two severity bits at the top of a status code.
#[derive(Clone, Copy, Debug, PartialEq, Eq, Structural)]
pub enum Severity {
    Success,
    Informational,
    Warning,
    Error,
}

/// The facility field (bits 16 to 27) of a status code, where it names a known facility.
#[derive(Clone, Copy, Debug, PartialEq, Eq, Structural)]
pub enum Facility {
    Debugger,
    RpcRuntime,
    RpcStubs,
    IoErrorCode,
    NtWin32,
    NtSspi,
    TerminalServer,
    MuiErrorCode,
    UsbErrorCode,
    HidErrorCode,
    ClusterErrorCode,
    AcpiErrorCode,
    SxsErrorCode,
    Transaction,
    Commonlog,
    Video,
    FilterManager,
    Monitor,
    GraphicsKernel,
    DriverFrameWork,
    FveErrorCode,
    FWPErrorCode,
    NdisErrorCode,
    Hypervisor,
    Ipsec,
    MaximumValue,
}

/// A 32-bit NT status code. The codes this library names have variants of their own;
/// any other code is carried as `Other`.
#[derive(Clone, Copy, Debug, PartialEq, Eq, Structural)]
pub enum NTStatus {
    Sucess,
    Pending,
    MoreEntries,
    SomeNotMapped,
    NotifyCleanup,
    NotifyEnumDir,
    BufferOverflow,
    NoMoreFiles,
    NoMoreEas,
    InvalidEaName,
    EaListInconsistent,
    InvalidEaFlag,
    StoppedOnSymlink,
    InvalidParameter,
    Other(u32),
}

/// The severity that the top two bits of `code` denote.
pub open spec fn severity_of(code: u32) -> Severity {
    let s = code >> 30u32;
    if s == 0 {
        Severity::Success
    } else if s == 1 {
        Severity::Informational
    } else if s == 2 {
        Severity::Warning
    } else {
        Severity::Error
    }
}

/// The facility number held in bits 16 to 27 of `code`.
pub open spec fn facility_bits(code: u32) -> u32 {
    (code >> 16u32) & 0xFFFu32
}

impl Facility {
    pub open spec fn spec_from_code(v: u32) -> Option<Facility> {
        if v == 0x001 {
            Some(Facility::Debugger)
        } else if v == 0x002 {
            Some(Facility::RpcRuntime)
        } else if v == 0x003 {
            Some(Facility::RpcStubs)
        } else if v == 0x004 {
            Some(Facility::IoErrorCode)
        } else if v == 0x007 {
            Some(Facility::NtWin32)
        } else if v == 0x009 {
            Some(Facility::NtSspi)
        } else if v == 0x00A {
            Some(Facility::TerminalServer)
        } else if v == 0x00B {
            Some(Facility::MuiErrorCode)
        } else if v == 0x010 {
            Some(Facility::UsbErrorCode)
        } else if v == 0x011 {
            Some(Facility::HidErrorCode)
        } else if v == 0x013 {
            Some(Facility::ClusterErrorCode)
        } else if v == 0x014 {
            Some(Facility::AcpiErrorCode)
        } else if v == 0x015 {
            Some(Facility::SxsErrorCode)
        } else if v == 0x019 {
            Some(Facility::Transaction)
        } else if v == 0x01A {
            Some(Facility::Commonlog)
        } else if v == 0x01B {
            Some(Facility::Video)
        } else if v == 0x01C {
            Some(Facility::FilterManager)
        } else if v == 0x01D {
            Some(Facility::Monitor)
        } else if v == 0x01E {
            Some(Facility::GraphicsKernel)
        } else if v == 0x020 {
            Some(Facility::DriverFrameWork)
        } else if v == 0x021 {
            Some(Facility::FveErrorCode)
        } else if v == 0x022 {
            Some(Facility::FWPErrorCode)
        } else if v == 0x023 {
            Some(Facility::NdisErrorCode)
        } else if v == 0x035 {
            Some(Facility::Hypervisor)
        } else if v == 0x036 {
            Some(Facility::Ipsec)
        } else if v == 0x037 {
            Some(Facility::MaximumValue)
        } else {
            None
        }
    }

    /// The facility with number `v`, if it is one of the named facilities.
    pub fn from_code(v: u32) -> (r: Option<Facility>)
        ensures
            r == Facility::spec_from_code(v),
    {
        match v {
            0x001 => Some(Facility::Debugger),
            0x002 => Some(Facility::RpcRuntime),
            0x003 => Some(Facility::RpcStubs),
            0x004 => Some(Facility::IoErrorCode),
            0x007 => Some(Facility::NtWin32),
            0x009 => Some(Facility::NtSspi),
            0x00A => Some(Facility::TerminalServer),
            0x00B => Some(Facility::MuiErrorCode),
            0x010 => Some(Facility::UsbErrorCode),
            0x011 => Some(Facility::HidErrorCode),
            0x013 => Some(Facility::ClusterErrorCode),
            0x014 => Some(Facility::AcpiErrorCode),
            0x015 => Some(Facility::SxsErrorCode),
            0x019 => Some(Facility::Transaction),
            0x01A => Some(Facility::Commonlog),
            0x01B => Some(Facility::Video),
            0x01C => Some(Facility::FilterManager),
            0x01D => Some(Facility::Monitor),
            0x01E => Some(Facility::GraphicsKernel),
            0x020 => Some(Facility::DriverFrameWork),
            0x021 => Some(Facility::FveErrorCode),
            0x022 => Some(Facility::FWPErrorCode),
            0x023 => Some(Facility::NdisErrorCode),
            0x035 => Some(Facility::Hypervisor),
            0x036 => Some(Facility::Ipsec),
            0x037 => Some(Facility::MaximumValue),
            _ => None,
        }
    }
}

impl NTStatus {
    pub open spec fn spec_code(self) -> u32 {
        match self {
            NTStatus::Sucess => 0x0000_0000,
            NTStatus::Pending => 0x0000_0103,
            NTStatus::MoreEntries => 0x0000_0105,
            NTStatus::SomeNotMapped => 0x0000_0107,
            NTStatus::NotifyCleanup => 0x0000_010B,
            NTStatus::NotifyEnumDir => 0x0000_010C,
            NTStatus::BufferOverflow => 0x8000_0005,
            NTStatus::NoMoreFiles => 0x8000_0006,
            NTStatus::NoMoreEas => 0x8000_0012,
            NTStatus::InvalidEaName => 0x8000_0013,
            NTStatus::EaListInconsistent => 0x8000_0014,
            NTStatus::InvalidEaFlag => 0x8000_0015,
            NTStatus::StoppedOnSymlink => 0x8000_002D,
            NTStatus::InvalidParameter => 0xC000_000D,
            NTStatus::Other(c) => c,
        }
    }

    /// The 32-bit value of this status on the wire.
    pub fn code(self) -> (r: u32)
        ensures
            r == self.spec_code(),
    {
        match self {
            NTStatus::Sucess => 0x0000_0000,
            NTStatus::Pending => 0x0000_0103,
            NTStatus::MoreEntries => 0x0000_0105,
            NTStatus::SomeNotMapped => 0x0000_0107,
            NTStatus::NotifyCleanup => 0x0000_010B,
            NTStatus::NotifyEnumDir => 0x0000_010C,
            NTStatus::BufferOverflow => 0x8000_0005,
            NTStatus::NoMoreFiles => 0x8000_0006,
            NTStatus::NoMoreEas => 0x8000_0012,
            NTStatus::InvalidEaName => 0x8000_0013,
            NTStatus::EaListInconsistent => 0x8000_0014,
            NTStatus::InvalidEaFlag => 0x8000_0015,
            NTStatus::StoppedOnSymlink => 0x8000_002D,
            NTStatus::InvalidParameter => 0xC000_000D,
            NTStatus::Other(c) => c,
        }
    }

    pub open spec fn spec_from_code(v: u32) -> NTStatus {
        if v == 0x0000_0000 {
            NTStatus::Sucess
        } else if v == 0x0000_0103 {
            NTStatus::Pending
        } else if v == 0x0000_0105 {
            NTStatus::MoreEntries
        } else if v == 0x0000_0107 {
            NTStatus::SomeNotMapped
        } else if v == 0x0000_010B {
            NTStatus::NotifyCleanup
        } else if v == 0x0000_010C {
            NTStatus::NotifyEnumDir
        } else if v == 0x8000_0005 {
            NTStatus::BufferOverflow
        } else if v == 0x8000_0006 {
            NTStatus::NoMoreFiles
        } else if v == 0x8000_0012 {
            NTStatus::NoMoreEas
        } else if v == 0x8000_0013 {
            NTStatus::InvalidEaName
        } else if v == 0x8000_0014 {
            NTStatus::EaListInconsistent
        } else if v == 0x8000_0015 {
            NTStatus::InvalidEaFlag
        } else if v == 0x8000_002D {
            NTStatus::StoppedOnSymlink
        } else if v == 0xC000_000D {
            NTStatus::InvalidParameter
        } else {
            NTStatus::Other(v)
        }
    }

    /// The status whose wire value is `v`: a named variant where there is one, else `Other(v)`.
    pub fn from_code(v: u32) -> (r: NTStatus)
        ensures
            r == NTStatus::spec_from_code(v),
            r.spec_code() == v,
    {
        match v {
            0x0000_0000 => NTStatus::Sucess,
            0x0000_0103 => NTStatus::Pending,
            0x0000_0105 => NTStatus::MoreEntries,
            0x0000_0107 => NTStatus::SomeNotMapped,
            0x0000_010B => NTStatus::NotifyCleanup,
            0x0000_010C => NTStatus::NotifyEnumDir,
            0x8000_0005 => NTStatus::BufferOverflow,
            0x8000_0006 => NTStatus::NoMoreFiles,
            0x8000_0012 => NTStatus::NoMoreEas,
            0x8000_0013 => NTStatus::InvalidEaName,
            0x8000_0014 => NTStatus::EaListInconsistent,
            0x8000_0015 => NTStatus::InvalidEaFlag,
            0x8000_002D => NTStatus::StoppedOnSymlink,
            0xC000_000D => NTStatus::InvalidParameter,
            _ => NTStatus::Other(v),
        }
    }

    pub open spec fn spec_is_success(self) -> bool {
        severity_of(self.spec_code()) == Severity::Success
    }

    /// True exactly when the severity bits are zero.
    pub fn is_success(self) -> (r: bool)
        ensures
            r == self.spec_is_success(),
            r == (self.spec_code() >> 30u32 == 0),
    {
        match self.severity() {
            Severity::Success => true,
            _ => false,
        }
    }

    /// The severity held in the top two bits.
    pub fn severity(self) -> (r: Severity)
        ensures
            r == severity_of(self.spec_code()),
    {
        let s = self.code() >> 30u32;
        if s == 0 {
            Severity::Success
        } else if s == 1 {
            Severity::Informational
        } else if s == 2 {
            Severity::Warning
        } else {
            Severity::Error
        }
    }

    /// The facility held in bits 16 to 27, if it is one of the named facilities.
    pub fn facility(self) -> (r: Option<Facility>)
        ensures
            r == Facility::spec_from_code(facility_bits(self.spec_code())),
    {
        Facility::from_code((self.code() >> 16u32) & 0xFFFu32)
    }
}

} // verus!
