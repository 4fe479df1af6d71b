//! Error values shared by the library.
use vstd::prelude::*;

verus! {

/// What went wrong.
#[derive(Debug, Clone, Copy, PartialEq, Eq, Structural)]
pub enum ErrorKind {
    UnsupportedPixelFormat,
    TryFromInt,
    Full,
    NoEnoughMemory,
    XhcNotFound,
    IndexOutOfRange,
    AddressNotAligned,
    FrameAllocationFailed,
    InvalidSlotID,
    InvalidEndpointNumber,
    TransferRingNotSet,
    AlreadyAllocated,
    NotImplemented,
    InvalidDescriptor,
    BufferTooSmall,
    UnknownDevice,
    NoCorrespondingSetupStage,
    TransferFailed,
    InvalidPhase,
    UnknownXHCISpeedID,
    NoWaiter,
    EndpointNotInCharge,
    NoPciMsi,
    InvalidRsdp,
    Deadlock,
    Unknown,
}

/// An error of the library: its kind.
#[derive(Debug, Clone, Copy, PartialEq, Eq, Structural)]
pub struct Error {
    pub kind: ErrorKind,
}

impl Error {
    /// Makes an error of the given kind.
    pub fn new(kind: ErrorKind) -> (r: Error)
        ensures
            r.kind == kind,
    {
        Error { kind }
    }
}

/// The message shown for an error kind: a sentence for a full buffer and an
/// unsupported pixel format, the kind's name otherwise.
pub open spec fn kind_message(kind: ErrorKind) -> &'static str {
    match kind {
        ErrorKind::UnsupportedPixelFormat => "unsupported pixel format",
        ErrorKind::TryFromInt => "TryFromInt",
        ErrorKind::Full => "buffer full",
        ErrorKind::NoEnoughMemory => "NoEnoughMemory",
        ErrorKind::XhcNotFound => "XhcNotFound",
        ErrorKind::IndexOutOfRange => "IndexOutOfRange",
        ErrorKind::AddressNotAligned => "AddressNotAligned",
        ErrorKind::FrameAllocationFailed => "FrameAllocationFailed",
        ErrorKind::InvalidSlotID => "InvalidSlotID",
        ErrorKind::InvalidEndpointNumber => "InvalidEndpointNumber",
        ErrorKind::TransferRingNotSet => "TransferRingNotSet",
        ErrorKind::AlreadyAllocated => "AlreadyAllocated",
        ErrorKind::NotImplemented => "NotImplemented",
        ErrorKind::InvalidDescriptor => "InvalidDescriptor",
        ErrorKind::BufferTooSmall => "BufferTooSmall",
        ErrorKind::UnknownDevice => "UnknownDevice",
        ErrorKind::NoCorrespondingSetupStage => "NoCorrespondingSetupStage",
        ErrorKind::TransferFailed => "TransferFailed",
        ErrorKind::InvalidPhase => "InvalidPhase",
        ErrorKind::UnknownXHCISpeedID => "UnknownXHCISpeedID",
        ErrorKind::NoWaiter => "NoWaiter",
        ErrorKind::EndpointNotInCharge => "EndpointNotInCharge",
        ErrorKind::NoPciMsi => "NoPciMsi",
        ErrorKind::InvalidRsdp => "InvalidRsdp",
        ErrorKind::Deadlock => "Deadlock",
        ErrorKind::Unknown => "Unknown",
    }
}

impl ErrorKind {
    /// The message shown for this kind (see `kind_message`).
    pub fn message(self) -> (r: &'static str)
        ensures
            r@ == kind_message(self)@,
    {
        match self {
            ErrorKind::UnsupportedPixelFormat => "unsupported pixel format",
            ErrorKind::TryFromInt => "TryFromInt",
            ErrorKind::Full => "buffer full",
            ErrorKind::NoEnoughMemory => "NoEnoughMemory",
            ErrorKind::XhcNotFound => "XhcNotFound",
            ErrorKind::IndexOutOfRange => "IndexOutOfRange",
            ErrorKind::AddressNotAligned => "AddressNotAligned",
            ErrorKind::FrameAllocationFailed => "FrameAllocationFailed",
            ErrorKind::InvalidSlotID => "InvalidSlotID",
            ErrorKind::InvalidEndpointNumber => "InvalidEndpointNumber",
            ErrorKind::TransferRingNotSet => "TransferRingNotSet",
            ErrorKind::AlreadyAllocated => "AlreadyAllocated",
            ErrorKind::NotImplemented => "NotImplemented",
            ErrorKind::InvalidDescriptor => "InvalidDescriptor",
            ErrorKind::BufferTooSmall => "BufferTooSmall",
            ErrorKind::UnknownDevice => "UnknownDevice",
            ErrorKind::NoCorrespondingSetupStage => "NoCorrespondingSetupStage",
            ErrorKind::TransferFailed => "TransferFailed",
            ErrorKind::InvalidPhase => "InvalidPhase",
            ErrorKind::UnknownXHCISpeedID => "UnknownXHCISpeedID",
            ErrorKind::NoWaiter => "NoWaiter",
            ErrorKind::EndpointNotInCharge => "EndpointNotInCharge",
            ErrorKind::NoPciMsi => "NoPciMsi",
            ErrorKind::InvalidRsdp => "InvalidRsdp",
            ErrorKind::Deadlock => "Deadlock",
            ErrorKind::Unknown => "Unknown",
        }
    }
}

/// Result type of the library.
pub type Result<T> = core::result::Result<T, Error>;

} // verus!
