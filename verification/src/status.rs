//! What the protocol status register says.

use vstd::prelude::*;

use crate::config::BusError;
use crate::io::ProtocolStatus;

verus! {

/// The error that a last error code stands for. Zero, and codes above six, stand
/// for none.
pub open spec fn error_of_code(code: u8) -> Option<BusError> {
    if code == 1 {
        Some(BusError::Stuff)
    } else if code == 2 {
        Some(BusError::Form)
    } else if code == 3 {
        Some(BusError::Acknowledge)
    } else if code == 4 {
        Some(BusError::BitRecessive)
    } else if code == 5 {
        Some(BusError::BitDominant)
    } else if code == 6 {
        Some(BusError::Crc)
    } else {
        None
    }
}

impl ProtocolStatus {
    /// The gravest condition: bus-off, then error passive, then error warning, and
    /// only then the last error.
    pub open spec fn error(self) -> Option<BusError> {
        if self.bo {
            Some(BusError::BusOff)
        } else if self.ep {
            Some(BusError::ErrorPassive)
        } else if self.ew {
            Some(BusError::ErrorWarning)
        } else {
            error_of_code(self.lec)
        }
    }
}

/// Nothing is reported if and only if no condition holds and the last error code
/// names no error; bus-off is reported if and only if the peripheral is bus-off.
pub proof fn law_status(status: ProtocolStatus)
    ensures
        status.error() is None <==> !status.bo && !status.ep && !status.ew && !(1 <= status.lec
            <= 6),
        status.error() == Some(BusError::BusOff) <==> status.bo,
        status.error() == Some(BusError::ErrorPassive) <==> !status.bo && status.ep,
        status.error() == Some(BusError::ErrorWarning) <==> !status.bo && !status.ep && status.ew,
{
}

/// Each protocol error is reported for one last error code and for no other, and
/// only while no graver condition holds.
pub proof fn law_last_error_is_reported_by_its_code(status: ProtocolStatus)
    ensures
        ({
            let calm = !status.bo && !status.ep && !status.ew;
            &&& status.error() == Some(BusError::Stuff) <==> calm && status.lec == 1
            &&& status.error() == Some(BusError::Form) <==> calm && status.lec == 2
            &&& status.error() == Some(BusError::Acknowledge) <==> calm && status.lec == 3
            &&& status.error() == Some(BusError::BitRecessive) <==> calm && status.lec == 4
            &&& status.error() == Some(BusError::BitDominant) <==> calm && status.lec == 5
            &&& status.error() == Some(BusError::Crc) <==> calm && status.lec == 6
        }),
{
}

/// A last error code that names an error is the place of that error in the list
/// stuff, form, acknowledge, recessive bit, dominant bit, check sum.
pub proof fn law_error_codes_number_the_errors(code: u8)
    ensures
        error_of_code(code) is Some <==> 1 <= code <= 6,
        error_of_code(code) == Some(BusError::Stuff) <==> code == 1,
        error_of_code(code) == Some(BusError::Form) <==> code == 2,
        error_of_code(code) == Some(BusError::Acknowledge) <==> code == 3,
        error_of_code(code) == Some(BusError::BitRecessive) <==> code == 4,
        error_of_code(code) == Some(BusError::BitDominant) <==> code == 5,
        error_of_code(code) == Some(BusError::Crc) <==> code == 6,
{
}

/// Different last error codes that name errors name different ones.
pub proof fn law_error_codes_differ(a: u8, b: u8)
    requires
        error_of_code(a) is Some,
        error_of_code(a) == error_of_code(b),
    ensures
        a == b,
{
}

} // verus!
