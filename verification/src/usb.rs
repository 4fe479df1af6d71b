//! The USB driver's interface: its error codes, and the opaque controller
//! and HID driver objects it hands out.
use vstd::prelude::*;

verus! {

use crate::error::{Error, ErrorKind};

/// An error code returned by the USB driver.
#[derive(Debug, Clone, Copy, PartialEq, Eq, Structural)]
pub struct CxxError(pub i32);

/// An xHCI controller of the driver; only the driver makes one.
pub struct Controller {
    opaque: (),
}

/// The driver's HID mouse driver; only the driver makes one.
pub struct HidMouseDriver {
    opaque: (),
}

/// The driver's HID keyboard driver; only the driver makes one.
pub struct HidKeyboardDriver {
    opaque: (),
}

/// A driver return code as a result: 0 is success, anything else an error
/// with that code.
pub fn convert_res(res: i32) -> (r: Result<(), CxxError>)
    ensures
        res == 0 ==> r == Ok::<(), CxxError>(()),
        res != 0 ==> r == Err::<(), CxxError>(CxxError(res)),
{
    match res {
        0 => Ok(()),
        n => Err(CxxError(n)),
    }
}

/// The error kind of a driver error code.
pub open spec fn spec_cxx_error_kind(code: i32) -> ErrorKind {
    match code {
        1 => ErrorKind::NoEnoughMemory,
        2 => ErrorKind::InvalidSlotID,
        3 => ErrorKind::InvalidEndpointNumber,
        4 => ErrorKind::TransferRingNotSet,
        5 => ErrorKind::AlreadyAllocated,
        6 => ErrorKind::NotImplemented,
        7 => ErrorKind::InvalidDescriptor,
        8 => ErrorKind::BufferTooSmall,
        9 => ErrorKind::UnknownDevice,
        10 => ErrorKind::NoCorrespondingSetupStage,
        11 => ErrorKind::TransferFailed,
        12 => ErrorKind::InvalidPhase,
        13 => ErrorKind::UnknownXHCISpeedID,
        14 => ErrorKind::NoWaiter,
        15 => ErrorKind::EndpointNotInCharge,
        _ => ErrorKind::Unknown,
    }
}

/// The library's error for a driver error code (see
/// `spec_cxx_error_kind`).
pub fn error_from_cxx(err: CxxError) -> (r: Error)
    ensures
        r.kind == spec_cxx_error_kind(err.0),
{
    let kind = match err.0 {
        1 => ErrorKind::NoEnoughMemory,
        2 => ErrorKind::InvalidSlotID,
        3 => ErrorKind::InvalidEndpointNumber,
        4 => ErrorKind::TransferRingNotSet,
        5 => ErrorKind::AlreadyAllocated,
        6 => ErrorKind::NotImplemented,
        7 => ErrorKind::InvalidDescriptor,
        8 => ErrorKind::BufferTooSmall,
        9 => ErrorKind::UnknownDevice,
        10 => ErrorKind::NoCorrespondingSetupStage,
        11 => ErrorKind::TransferFailed,
        12 => ErrorKind::InvalidPhase,
        13 => ErrorKind::UnknownXHCISpeedID,
        14 => ErrorKind::NoWaiter,
        15 => ErrorKind::EndpointNotInCharge,
        _ => ErrorKind::Unknown,
    };
    Error::new(kind)
}

} // verus!
