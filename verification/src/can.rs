//! The driver.

use vstd::prelude::*;

use crate::config::{BusError, BusOffHandling, Config, InitializationError, RecoveryFailure};
use crate::frame::MCanFrame;
use crate::guarded::GuardedConfig;
use crate::init::Initialize;
use crate::io::{Command, Direction, PinRole, ProtocolStatus, RxFifoStatus, Start};
use crate::msgram::McanMessageRAM;
use crate::pins::{Instance, RxPin, TxPin};
use crate::poweron::{power_on_commands, PowerOn};
use crate::recovery::Recover;
use crate::rx::Receive;
use crate::setup::{setup, setup_commands};
use crate::status::error_of_code;
use crate::tx::Transmit;

verus! {

/// A CAN peripheral that was brought up.
#[derive(Debug)]
pub struct Can {
    config: Config,
}

/// How the pins are connected: receive as input, transmit as output, neither
/// pulled nor inverted.
pub open spec fn pin_commands(rx_function: u8, tx_function: u8) -> Seq<Command> {
    seq![
        Command::ConfigurePin {
            role: PinRole::Rx,
            pf_num: rx_function,
            direction: Direction::Input,
            pulled: false,
            inverted: false,
        },
        Command::ConfigurePin {
            role: PinRole::Tx,
            pf_num: tx_function,
            direction: Direction::Output,
            pulled: false,
            inverted: false,
        },
    ]
}

impl Can {
    /// The driver of a peripheral so configured.
    pub closed spec fn of(config: Config) -> Can {
        Can { config }
    }

    /// How the peripheral was configured.
    pub closed spec fn configuration(self) -> Config {
        self.config
    }

    /// The driver of a peripheral so configured.
    pub(crate) fn assemble(config: Config) -> (can: Can)
        ensures
            can == Can::of(config),
    {
        Can { config }
    }

    /// Starts to bring a peripheral up for blocking use. Of timings that are not
    /// representable nothing is said until the registers are to be written: the
    /// operation cannot go on from there.
    pub fn new_blocking<T: Instance, R: RxPin<T>, X: TxPin<T>>(
        peri: T,
        rx: R,
        tx: X,
        config: Config,
        ram: &McanMessageRAM,
    ) -> (start: Start<Initialize>)
        ensures
            start.commands@ == pin_commands(rx.function(), tx.function()) + power_on_commands(
                config,
            ),
            start.op matches Initialize::PoweringOn { stage, setup, config: kept } && {
                &&& stage == PowerOn::Reset { iter: 0 }
                &&& setup@ == (if config.timing.representable() {
                    setup_commands(config, *ram)
                } else {
                    seq![]
                })
                &&& kept == config
            },
    {
        Can::new_inner(peri, rx, tx, config, ram)
    }

    fn new_inner<T: Instance, R: RxPin<T>, X: TxPin<T>>(
        _peri: T,
        rx: R,
        tx: X,
        config: Config,
        ram: &McanMessageRAM,
    ) -> (start: Start<Initialize>)
        ensures
            start.commands@ == pin_commands(rx.function(), tx.function()) + power_on_commands(
                config,
            ),
            start.op matches Initialize::PoweringOn { stage, setup, config: kept } && {
                &&& stage == PowerOn::Reset { iter: 0 }
                &&& setup@ == (if config.timing.representable() {
                    setup_commands(config, *ram)
                } else {
                    seq![]
                })
                &&& kept == config
            },
    {
        let mut commands = vec![
            Command::ConfigurePin {
                role: PinRole::Rx,
                pf_num: rx.pf_num(),
                direction: Direction::Input,
                pulled: false,
                inverted: false,
            },
            Command::ConfigurePin {
                role: PinRole::Tx,
                pf_num: tx.pf_num(),
                direction: Direction::Output,
                pulled: false,
                inverted: false,
            },
        ];
        let Start { commands: mut powering, op } = Can::reset_poweron(&config);
        commands.append(&mut powering);
        let setup: Vec<Command> = if config.timing.is_representable() {
            setup(&config, ram)
        } else {
            Vec::new()
        };
        Start { commands, op: Initialize::PoweringOn { stage: op, setup, config } }
    }

    /// Starts to reset the peripheral and to power it on.
    pub fn reset_poweron(config: &Config) -> (start: Start<PowerOn>)
        ensures
            start.commands@ == power_on_commands(*config),
            start.op == (PowerOn::Reset { iter: 0 }),
    {
        PowerOn::start(config)
    }

    /// Starts to change write-protected registers by `writes`, which count as done
    /// or as failed by `result`.
    pub fn guarded_config(writes: Vec<Command>, result: Result<(), InitializationError>) -> (start:
        Start<GuardedConfig>)
        ensures
            start.commands@ == seq![Command::ModifyCccrInit { init: true }],
            start.op == (GuardedConfig::Entering { iter: 0, writes, result }),
    {
        GuardedConfig::start(writes, result)
    }

    /// Starts to wait for a frame and to take it out of receive FIFO 0.
    pub fn get_frame(&mut self) -> (op: Receive)
        ensures
            op == Receive::Waiting,
            *final(self) == *old(self),
    {
        Receive::Waiting
    }

    /// Starts to transmit a frame and to wait for its confirmation.
    pub fn send_frame(&mut self, frame: MCanFrame) -> (op: Transmit)
        ensures
            op == (Transmit::Queueing { frame }),
            frame.classic(),
            *final(self) == *old(self),
    {
        proof {
            use_type_invariant(&frame);
        }
        Transmit::Queueing { frame }
    }

    /// Whether receive FIFO 0, whose status is given, holds a frame.
    pub fn has_frame(&self, status: RxFifoStatus) -> (r: bool)
        ensures
            r == status.holds_frame(),
            !r <==> status.f0gi == status.f0pi && !status.f0f,
    {
        status.has_frame()
    }

    /// The error that a last error code stands for.
    pub fn reg_to_error(value: u8) -> (error: Option<BusError>)
        ensures
            error == error_of_code(value),
    {
        match value {
            1 => Some(BusError::Stuff),
            2 => Some(BusError::Form),
            3 => Some(BusError::Acknowledge),
            4 => Some(BusError::BitRecessive),
            5 => Some(BusError::BitDominant),
            6 => Some(BusError::Crc),
            _ => None,
        }
    }

    /// The error that the given protocol status reports.
    pub fn status(&self, status: ProtocolStatus) -> (error: Option<BusError>)
        ensures
            error == status.error(),
            status.bo ==> error == Some(BusError::BusOff),
            !status.bo && status.ep ==> error == Some(BusError::ErrorPassive),
            !status.bo && !status.ep && status.ew ==> error == Some(BusError::ErrorWarning),
            !status.bo && !status.ep && !status.ew ==> {
                &&& error == Some(BusError::Stuff) <==> status.lec == 1
                &&& error == Some(BusError::Form) <==> status.lec == 2
                &&& error == Some(BusError::Acknowledge) <==> status.lec == 3
                &&& error == Some(BusError::BitRecessive) <==> status.lec == 4
                &&& error == Some(BusError::BitDominant) <==> status.lec == 5
                &&& error == Some(BusError::Crc) <==> status.lec == 6
                &&& error is None <==> status.lec == 0 || status.lec > 6
            },
    {
        if status.bo {
            Some(BusError::BusOff)
        } else if status.ep {
            Some(BusError::ErrorPassive)
        } else if status.ew {
            Some(BusError::ErrorWarning)
        } else {
            Can::reg_to_error(status.lec)
        }
    }

    /// Starts to recover from bus-off, if that is done manually.
    pub fn recover(&mut self) -> (op: Result<Recover, RecoveryFailure>)
        ensures
            op == (match old(self).configuration().bus_off_handling {
                BusOffHandling::ManualReInit => Ok(Recover),
                BusOffHandling::AutoReInit => Err::<Recover, RecoveryFailure>(
                    RecoveryFailure::WasAutomatic,
                ),
            }),
            *final(self) == *old(self),
    {
        if self.config.bus_off_handling != BusOffHandling::ManualReInit {
            return Err(RecoveryFailure::WasAutomatic);
        }
        Ok(Recover)
    }
}

/// A driver has the configuration that it was made of.
pub proof fn law_can_keeps_its_configuration(config: Config)
    ensures
        Can::of(config).configuration() == config,
{
}

/// Each pin is connected by its own function number: receive as an input, transmit
/// as an output, neither pulled nor inverted, and nothing else is connected.
pub proof fn law_pins_are_connected(rx_function: u8, tx_function: u8)
    ensures
        pin_commands(rx_function, tx_function).len() == 2,
        pin_commands(rx_function, tx_function)[0] matches Command::ConfigurePin {
            role,
            pf_num,
            direction,
            pulled,
            inverted,
        } && role is Rx && pf_num == rx_function && direction is Input && !pulled && !inverted,
        pin_commands(rx_function, tx_function)[1] matches Command::ConfigurePin {
            role,
            pf_num,
            direction,
            pulled,
            inverted,
        } && role is Tx && pf_num == tx_function && direction is Output && !pulled && !inverted,
{
}

} // verus!
