//! NT status codes.

use vstd::prelude::*;

verus! {

/// The status codes that the server puts into its responses.
#[derive(Clone, Copy, Debug, PartialEq, Eq, Structural)]
pub enum NtStatus {
    Success,
    InvalidHandle,
    InvalidParameter,
    InvalidDeviceRequest,
    EndOfFile,
    MoreProcessingRequired,
    AccessDenied,
    BufferTooSmall,
    ObjectNameNotFound,
    ObjectNameCollision,
    SharingViolation,
    FileLockConflict,
    LockNotGranted,
    LogonFailure,
    NotSupported,
    NetworkNameDeleted,
    BadNetworkName,
    RequestNotAccepted,
    InternalError,
    InvalidLockRange,
    FileClosed,
    UserSessionDeleted,
    NetworkSessionExpired,
}

impl NtStatus {
    /// The number that stands for the status on the wire.
    pub open spec fn spec_code(self) -> u32 {
        match self {
            NtStatus::Success => 0x0000_0000,
            NtStatus::InvalidHandle => 0xC000_0008,
            NtStatus::InvalidParameter => 0xC000_000D,
            NtStatus::InvalidDeviceRequest => 0xC000_0010,
            NtStatus::EndOfFile => 0xC000_0011,
            NtStatus::MoreProcessingRequired => 0xC000_0016,
            NtStatus::AccessDenied => 0xC000_0022,
            NtStatus::BufferTooSmall => 0xC000_0023,
            NtStatus::ObjectNameNotFound => 0xC000_0034,
            NtStatus::ObjectNameCollision => 0xC000_0035,
            NtStatus::SharingViolation => 0xC000_0043,
            NtStatus::FileLockConflict => 0xC000_0054,
            NtStatus::LockNotGranted => 0xC000_0055,
            NtStatus::LogonFailure => 0xC000_006D,
            NtStatus::NotSupported => 0xC000_00BB,
            NtStatus::NetworkNameDeleted => 0xC000_00C9,
            NtStatus::BadNetworkName => 0xC000_00CC,
            NtStatus::RequestNotAccepted => 0xC000_00D0,
            NtStatus::InternalError => 0xC000_00E5,
            NtStatus::InvalidLockRange => 0xC000_00ED,
            NtStatus::FileClosed => 0xC000_0128,
            NtStatus::UserSessionDeleted => 0xC000_0203,
            NtStatus::NetworkSessionExpired => 0xC000_035C,
        }
    }

    pub fn code(&self) -> (c: u32)
        ensures
            c == self.spec_code(),
    {
        match self {
            NtStatus::Success => 0x0000_0000,
            NtStatus::InvalidHandle => 0xC000_0008,
            NtStatus::InvalidParameter => 0xC000_000D,
            NtStatus::InvalidDeviceRequest => 0xC000_0010,
            NtStatus::EndOfFile => 0xC000_0011,
            NtStatus::MoreProcessingRequired => 0xC000_0016,
            NtStatus::AccessDenied => 0xC000_0022,
            NtStatus::BufferTooSmall => 0xC000_0023,
            NtStatus::ObjectNameNotFound => 0xC000_0034,
            NtStatus::ObjectNameCollision => 0xC000_0035,
            NtStatus::SharingViolation => 0xC000_0043,
            NtStatus::FileLockConflict => 0xC000_0054,
            NtStatus::LockNotGranted => 0xC000_0055,
            NtStatus::LogonFailure => 0xC000_006D,
            NtStatus::NotSupported => 0xC000_00BB,
            NtStatus::NetworkNameDeleted => 0xC000_00C9,
            NtStatus::BadNetworkName => 0xC000_00CC,
            NtStatus::RequestNotAccepted => 0xC000_00D0,
            NtStatus::InternalError => 0xC000_00E5,
            NtStatus::InvalidLockRange => 0xC000_00ED,
            NtStatus::FileClosed => 0xC000_0128,
            NtStatus::UserSessionDeleted => 0xC000_0203,
            NtStatus::NetworkSessionExpired => 0xC000_035C,
        }
    }

    /// The name of the status.
    pub open spec fn spec_name(self) -> Seq<char> {
        match self {
            NtStatus::Success => "Success"@,
            NtStatus::InvalidHandle => "InvalidHandle"@,
            NtStatus::InvalidParameter => "InvalidParameter"@,
            NtStatus::InvalidDeviceRequest => "InvalidDeviceRequest"@,
            NtStatus::EndOfFile => "EndOfFile"@,
            NtStatus::MoreProcessingRequired => "MoreProcessingRequired"@,
            NtStatus::AccessDenied => "AccessDenied"@,
            NtStatus::BufferTooSmall => "BufferTooSmall"@,
            NtStatus::ObjectNameNotFound => "ObjectNameNotFound"@,
            NtStatus::ObjectNameCollision => "ObjectNameCollision"@,
            NtStatus::SharingViolation => "SharingViolation"@,
            NtStatus::FileLockConflict => "FileLockConflict"@,
            NtStatus::LockNotGranted => "LockNotGranted"@,
            NtStatus::LogonFailure => "LogonFailure"@,
            NtStatus::NotSupported => "NotSupported"@,
            NtStatus::NetworkNameDeleted => "NetworkNameDeleted"@,
            NtStatus::BadNetworkName => "BadNetworkName"@,
            NtStatus::RequestNotAccepted => "RequestNotAccepted"@,
            NtStatus::InternalError => "InternalError"@,
            NtStatus::InvalidLockRange => "InvalidLockRange"@,
            NtStatus::FileClosed => "FileClosed"@,
            NtStatus::UserSessionDeleted => "UserSessionDeleted"@,
            NtStatus::NetworkSessionExpired => "NetworkSessionExpired"@,
        }
    }

    pub fn name(&self) -> (name: &'static str)
        ensures
            name@ == self.spec_name(),
    {
        match self {
            NtStatus::Success => "Success",
            NtStatus::InvalidHandle => "InvalidHandle",
            NtStatus::InvalidParameter => "InvalidParameter",
            NtStatus::InvalidDeviceRequest => "InvalidDeviceRequest",
            NtStatus::EndOfFile => "EndOfFile",
            NtStatus::MoreProcessingRequired => "MoreProcessingRequired",
            NtStatus::AccessDenied => "AccessDenied",
            NtStatus::BufferTooSmall => "BufferTooSmall",
            NtStatus::ObjectNameNotFound => "ObjectNameNotFound",
            NtStatus::ObjectNameCollision => "ObjectNameCollision",
            NtStatus::SharingViolation => "SharingViolation",
            NtStatus::FileLockConflict => "FileLockConflict",
            NtStatus::LockNotGranted => "LockNotGranted",
            NtStatus::LogonFailure => "LogonFailure",
            NtStatus::NotSupported => "NotSupported",
            NtStatus::NetworkNameDeleted => "NetworkNameDeleted",
            NtStatus::BadNetworkName => "BadNetworkName",
            NtStatus::RequestNotAccepted => "RequestNotAccepted",
            NtStatus::InternalError => "InternalError",
            NtStatus::InvalidLockRange => "InvalidLockRange",
            NtStatus::FileClosed => "FileClosed",
            NtStatus::UserSessionDeleted => "UserSessionDeleted",
            NtStatus::NetworkSessionExpired => "NetworkSessionExpired",
        }
    }
}

/// Two statuses with the same code are the same status.
pub proof fn law_status_codes_are_distinct(a: NtStatus, b: NtStatus)
    requires
        a.spec_code() == b.spec_code(),
    ensures
        a == b,
{
}

/// A status other than success is an error to every client: its two highest
/// bits are set.
pub proof fn law_failures_are_errors(status: NtStatus)
    ensures
        status == NtStatus::Success <==> status.spec_code() == 0,
        status != NtStatus::Success <==> status.spec_code() >= 0xC000_0000,
{
}

/// The number by which a client knows each status.
pub proof fn law_status_numbers(status: NtStatus)
    ensures
        status.spec_code() == 0xC000_0008 <==> status == NtStatus::InvalidHandle,
        status.spec_code() == 0xC000_000D <==> status == NtStatus::InvalidParameter,
        status.spec_code() == 0xC000_0010 <==> status == NtStatus::InvalidDeviceRequest,
        status.spec_code() == 0xC000_0011 <==> status == NtStatus::EndOfFile,
        status.spec_code() == 0xC000_0016 <==> status == NtStatus::MoreProcessingRequired,
        status.spec_code() == 0xC000_0022 <==> status == NtStatus::AccessDenied,
        status.spec_code() == 0xC000_0023 <==> status == NtStatus::BufferTooSmall,
        status.spec_code() == 0xC000_0034 <==> status == NtStatus::ObjectNameNotFound,
        status.spec_code() == 0xC000_0035 <==> status == NtStatus::ObjectNameCollision,
        status.spec_code() == 0xC000_0043 <==> status == NtStatus::SharingViolation,
        status.spec_code() == 0xC000_0054 <==> status == NtStatus::FileLockConflict,
        status.spec_code() == 0xC000_0055 <==> status == NtStatus::LockNotGranted,
        status.spec_code() == 0xC000_006D <==> status == NtStatus::LogonFailure,
        status.spec_code() == 0xC000_00BB <==> status == NtStatus::NotSupported,
        status.spec_code() == 0xC000_00C9 <==> status == NtStatus::NetworkNameDeleted,
        status.spec_code() == 0xC000_00CC <==> status == NtStatus::BadNetworkName,
        status.spec_code() == 0xC000_00D0 <==> status == NtStatus::RequestNotAccepted,
        status.spec_code() == 0xC000_00E5 <==> status == NtStatus::InternalError,
        status.spec_code() == 0xC000_00ED <==> status == NtStatus::InvalidLockRange,
        status.spec_code() == 0xC000_0128 <==> status == NtStatus::FileClosed,
        status.spec_code() == 0xC000_0203 <==> status == NtStatus::UserSessionDeleted,
        status.spec_code() == 0xC000_035C <==> status == NtStatus::NetworkSessionExpired,
{
}

} // verus!
