//! Configuration of the peripheral and the errors it reports.

use vstd::prelude::*;

verus! {

/// Functional clock divider: a few bits more on top of the bitrate prescaler.
#[derive(Clone, Copy, PartialEq, Eq, Debug)]
pub enum ClockDiv {
    /// Do not divide the clock source.
    DivBy1,
    /// Divide the clock source by 2.
    DivBy2,
    /// Divide the clock source by 4.
    DivBy4,
}

/// CAN timing parameters.
///
/// The hardware adds one to each value placed in its registers. The driver
/// takes that into account: the values here are those to be used on the bus.
#[derive(Clone, Copy, PartialEq, Eq, Debug)]
pub struct CanTimings {
    /// Bitrate prescaler, 1 to 512.
    pub brp: u16,
    /// Sync jump width, 1 to 128 and at most `ntseg2`.
    pub sjw: u8,
    /// Segment 1 time, 2 to 256.
    pub ntseg1: u16,
    /// Segment 2 time, 2 to 128.
    pub ntseg2: u8,
}

impl CanTimings {
    /// Each value is in the range that the hardware documents for it.
    pub open spec fn documented(self) -> bool {
        &&& 1 <= self.brp <= 512
        &&& 1 <= self.sjw <= 128
        &&& self.sjw <= self.ntseg2
        &&& 2 <= self.ntseg1 <= 256
        &&& 2 <= self.ntseg2 <= 128
    }

    /// Each register value, one less than the value here, exists.
    pub open spec fn representable(self) -> bool {
        &&& self.brp >= 1
        &&& self.sjw >= 1
        &&& self.ntseg1 == 256 || self.ntseg1 % 256 >= 1
        &&& self.ntseg2 >= 1
    }

    /// Timings of the given values. None is turned down.
    pub fn from_values(brp: u16, sjw: u8, ntseg1: u16, ntseg2: u8) -> (timings: Option<CanTimings>)
        ensures
            timings == Some(CanTimings { brp, sjw, ntseg1, ntseg2 }),
    {
        Some(CanTimings { brp, sjw, ntseg1, ntseg2 })
    }

    /// Whether each register value exists.
    pub fn is_representable(&self) -> (r: bool)
        ensures
            r == self.representable(),
    {
        self.brp >= 1 && self.sjw >= 1 && (self.ntseg1 == 256 || self.ntseg1 % 256 >= 1)
            && self.ntseg2 >= 1
    }
}

/// What happens when the peripheral goes bus-off.
#[derive(Clone, Copy, PartialEq, Eq, Debug, Structural)]
pub enum BusOffHandling {
    /// The peripheral is restarted immediately.
    AutoReInit,
    /// The peripheral is left bus-off. It is up to the user to poll for the
    /// status and to recover.
    ManualReInit,
}

/// CAN configuration.
#[derive(Clone, Copy, PartialEq, Eq, Debug)]
pub struct Config {
    /// Input clock rate.
    pub functional_clock_rate: u32,
    /// Input clock divider.
    pub clock_div: ClockDiv,
    pub bus_off_handling: BusOffHandling,
    /// Timings of standard CAN.
    pub timing: CanTimings,
    pub accept_remote_frames: bool,
    pub accept_extended_ids: bool,
}

/// Why the peripheral could not be initialized.
#[non_exhaustive]
#[derive(Clone, Copy, PartialEq, Eq, Debug)]
pub enum InitializationError {
    /// The clock source is not enabled.
    ClockSourceNotEnabled,
    /// The peripheral did not answer in a reasonable time. Often it has locked up,
    /// and the device needs a reset before it functions again.
    PeripheralTimedOut,
}

/// Error status of the peripheral.
#[non_exhaustive]
#[derive(Clone, Copy, PartialEq, Eq, Debug)]
pub enum BusError {
    /// Enough errors were received that the peripheral is passive and no longer
    /// sends error frames.
    ErrorPassive,
    /// An error counter suggests that something is wrong with the bus, but
    /// messages are still sent and received.
    ErrorWarning,
    /// The peripheral has left the bus after too many transmit errors.
    BusOff,
    /// More than 5 equal bits in sequence where a message may not have them.
    Stuff,
    /// A fixed format part of a received frame has the wrong format.
    Form,
    /// No other node acknowledged a transmitted message.
    Acknowledge,
    /// A recessive level was to be sent, but the bus was dominant.
    BitRecessive,
    /// A dominant level was to be sent, but the bus was recessive. Also set during
    /// bus-off recovery for each sequence of 11 recessive bits.
    BitDominant,
    /// The check sum of a received message was incorrect.
    Crc,
}

/// Why a recovery was not started.
#[non_exhaustive]
#[derive(Clone, Copy, PartialEq, Eq, Debug)]
pub enum RecoveryFailure {
    /// The peripheral does not need to be recovered manually.
    WasAutomatic,
    /// The peripheral was not bus-off.
    WasNotBusOff,
}

/// Timings in the documented ranges can be placed in the registers.
pub proof fn law_documented_timings_are_representable(timing: CanTimings)
    requires
        timing.documented(),
    ensures
        timing.representable(),
{
}

/// Register values, each one less than a timing, exist exactly for timings that are
/// representable. Only the lower eight bits of segment 1 reach its register, and
/// segment 1 is then 256 or not a multiple of it. Prescalers of 1 to 512, jump
/// widths of 1 to 128, first segments of 1 to 256 and second segments of 1 to 128
/// are all representable.
pub proof fn law_representable_timings(timing: CanTimings)
    ensures
        timing.representable() <==> {
            &&& timing.brp != 0
            &&& timing.sjw != 0
            &&& timing.ntseg2 != 0
            &&& timing.ntseg1 % 256 != 0 || timing.ntseg1 == 256
        },
        1 <= timing.brp <= 512 && 1 <= timing.sjw <= 128 && 1 <= timing.ntseg1 <= 256 && 1
            <= timing.ntseg2 <= 128 ==> timing.representable(),
{
}

/// Timings are in the documented ranges exactly if the prescaler is 1 to 512, the
/// jump width 1 to 128 and no more than segment 2, segment 1 is 2 to 256 and segment
/// 2 is 2 to 128.
pub proof fn law_documented_ranges(timing: CanTimings)
    ensures
        timing.documented() <==> {
            &&& 0 < timing.brp < 513
            &&& 0 < timing.sjw < 129
            &&& timing.sjw <= timing.ntseg2
            &&& 1 < timing.ntseg1 < 257
            &&& 1 < timing.ntseg2 < 129
        },
{
}

} // verus!
