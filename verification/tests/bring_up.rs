use mspm0_can::can::Can;
use mspm0_can::config::{BusOffHandling, CanTimings, ClockDiv, Config, InitializationError};
use mspm0_can::guarded::{GuardedConfig, INIT_POLLS};
use mspm0_can::io::{
    refused, CanClkSrc, Command, Direction, Next, Operation, PinRole, Query, Reply, SubsysStat,
};
use mspm0_can::msgram::{McanMessageRAM, Regions};
use mspm0_can::pins::{RxPin, TxPin, CANFD0, PA26, PA27};
use mspm0_can::poweron::{PowerOn, STATUS_POLLS};
use mspm0_can::setup::setup;

const RAM: McanMessageRAM = McanMessageRAM {
    sizes: Regions {
        filters: 1,
        extended_filters: 2,
        rxfifo0: 3,
        rxfifo1: 4,
        rxbuffers: 5,
        txevents: 6,
        txfifo: 7,
    },
    offsets: Regions {
        filters: 0x100,
        extended_filters: 0x110,
        rxfifo0: 0x120,
        rxfifo1: 0x130,
        rxbuffers: 0x140,
        txevents: 0x150,
        txfifo: 0x160,
    },
};

fn config() -> Config {
    Config {
        functional_clock_rate: 40_000_000,
        clock_div: ClockDiv::DivBy2,
        bus_off_handling: BusOffHandling::ManualReInit,
        timing: CanTimings::from_values(20, 2, 13, 6).unwrap(),
        accept_remote_frames: true,
        accept_extended_ids: true,
    }
}

fn stat(reset: bool, mem_init_done: bool) -> Reply {
    Reply::SubsysStat(SubsysStat { reset, mem_init_done })
}

fn cccr(init: bool) -> Reply {
    Reply::Cccr { init }
}

/// Hands the replies over and collects the commands. The result, if there is one
/// already, comes with the replies that are left.
fn run<O: Operation>(op: O, replies: &[Reply]) -> (Vec<Command>, Next<O, O::Output>, usize) {
    let mut performed = Vec::new();
    let mut op = op;
    for (i, reply) in replies.iter().enumerate() {
        assert!(op.accepts(reply));
        let transition = op.resume(*reply);
        performed.extend(transition.commands);
        match transition.next {
            Next::Await(next) => op = next,
            Next::Done(result) => return (performed, Next::Done(result), replies.len() - i - 1),
        }
    }
    (performed, Next::Await(op), 0)
}

fn result<O, T>(next: Next<O, T>) -> T {
    match next {
        Next::Done(result) => result,
        Next::Await(_) => panic!("still waiting"),
    }
}

#[test]
fn timings_of_any_values() {
    let timing = CanTimings::from_values(512, 128, 256, 128).unwrap();
    assert_eq!(timing, CanTimings { brp: 512, sjw: 128, ntseg1: 256, ntseg2: 128 });
    assert!(timing.is_representable());
    let zero = CanTimings::from_values(0, 0, 0, 0).unwrap();
    assert_eq!(zero, CanTimings { brp: 0, sjw: 0, ntseg1: 0, ntseg2: 0 });
    assert!(!zero.is_representable());
}

#[test]
fn representable_timings() {
    let good = CanTimings { brp: 1, sjw: 1, ntseg1: 2, ntseg2: 2 };
    assert!(good.is_representable());
    assert!(!CanTimings { brp: 0, ..good }.is_representable());
    assert!(!CanTimings { sjw: 0, ..good }.is_representable());
    assert!(!CanTimings { ntseg1: 0, ..good }.is_representable());
    assert!(!CanTimings { ntseg2: 0, ..good }.is_representable());
    assert!(!CanTimings { ntseg1: 512, ..good }.is_representable());
    assert!(CanTimings { ntseg1: 257, ..good }.is_representable());
}

#[test]
fn pins_of_the_first_instance() {
    assert_eq!(RxPin::<CANFD0>::pf_num(&PA27), 6);
    assert_eq!(TxPin::<CANFD0>::pf_num(&PA26), 6);
}

#[test]
fn setup_writes_every_register() {
    assert_eq!(
        setup(&config(), &RAM),
        vec![
            Command::ModifyCccrFdoe { fdoe: false },
            Command::WriteNbtp { nbrp: 19, ntseg1: 12, ntseg2: 5, nsjw: 1 },
            Command::WriteGfc { anfs: 0, anfe: 0, rrfs: false, rrfe: false },
            Command::WriteSidfc { lss: 1, flssa: 0x100 },
            Command::WriteXidfc { lse: 2, flesa: 0x110 },
            Command::WriteRxf0c { f0om: false, f0wm: 0, f0s: 3, f0sa: 0x120 },
            Command::WriteRxf1c { f1om: false, f1wm: 0, f1s: 4, f1sa: 0x130 },
            Command::WriteRxbc { rbsa: 0x140 },
            Command::WriteRxesc { rbds: 0, f1ds: 0, f0ds: 0 },
            Command::WriteTxefc { efsa: 0x150, efs: 6, efwm: 0 },
            Command::WriteTxbc { tfqm: false, ndtb: 0, tfqs: 7, tbsa: 0x160 },
            Command::WriteTxesc { tbds: 0 },
        ]
    );
}

#[test]
fn largest_timings_fit_their_fields() {
    let timing = CanTimings { brp: 512, sjw: 128, ntseg1: 256, ntseg2: 128 };
    let writes = setup(&Config { timing, ..config() }, &RAM);
    assert_eq!(writes[1], Command::WriteNbtp { nbrp: 511, ntseg1: 255, ntseg2: 127, nsjw: 127 });
}

#[test]
fn filter_follows_config() {
    let cases = [
        (false, false, 0b10, true, true),
        (false, true, 0b00, true, true),
        (true, false, 0b10, false, true),
        (true, true, 0b00, false, false),
    ];
    for (accept_remote_frames, accept_extended_ids, anfe, rrfs, rrfe) in cases {
        let writes = setup(&Config { accept_remote_frames, accept_extended_ids, ..config() }, &RAM);
        assert_eq!(writes[2], Command::WriteGfc { anfs: 0, anfe, rrfs, rrfe });
    }
}

#[test]
fn wide_regions_are_cut_to_their_fields() {
    let ram = McanMessageRAM {
        sizes: Regions { filters: 0x1FF, ..RAM.sizes },
        offsets: Regions { filters: 0x1_2345, ..RAM.offsets },
    };
    assert_eq!(setup(&config(), &ram)[3], Command::WriteSidfc { lss: 0xFF, flssa: 0x2345 });
}

#[test]
fn power_on_starts_with_a_reset() {
    for clock_div in [ClockDiv::DivBy1, ClockDiv::DivBy2, ClockDiv::DivBy4] {
        let start = Can::reset_poweron(&Config { clock_div, ..config() });
        assert_eq!(
            start.commands,
            vec![
                Command::WriteRstctl { resetstkyclr: true, resetassert: true },
                Command::Delay { cycles: 16 },
                Command::WritePwren { enable: false },
                Command::Delay { cycles: 32 },
                Command::WritePwren { enable: true },
                Command::Delay { cycles: 4000 },
                Command::WriteSubsysClken { clk_reqen: true },
                Command::WriteSubsysClkdiv { ratio: clock_div },
                Command::ModifyGenclkcfg { canclksrc: CanClkSrc::Hfclk },
            ]
        );
        assert_eq!(start.op, PowerOn::Reset { iter: 0 });
        assert_eq!(start.op.query(), Query::SubsysStat);
    }
}

#[test]
fn power_on_at_once() {
    let start = PowerOn::start(&config());
    let replies = [stat(false, true), stat(false, true), Reply::Crel(0x3238_0608)];
    let (commands, next, left) = run(start.op, &replies);
    assert!(commands.is_empty());
    assert_eq!(result(next), Ok(()));
    assert_eq!(left, 0);
}

#[test]
fn power_on_after_a_wait() {
    let start = PowerOn::start(&config());
    let replies = [
        stat(true, true),
        stat(true, false),
        stat(false, false),
        stat(true, false),
        stat(true, true),
        Reply::Crel(1),
    ];
    let (commands, next, _) = run(start.op, &replies);
    assert_eq!(commands, vec![Command::Delay { cycles: 1000 }; 3]);
    assert_eq!(result(next), Ok(()));
}

#[test]
fn power_on_without_release() {
    let (_, next, _) = run(PowerOn::Version, &[Reply::Crel(0)]);
    assert_eq!(result(next), Err(InitializationError::PeripheralTimedOut));
    assert_eq!(PowerOn::Version.query(), Query::Crel);
}

#[test]
fn reset_times_out() {
    let start = PowerOn::start(&config());
    let (commands, next, left) = run(start.op, &[stat(true, false); 2000]);
    assert_eq!(commands, vec![Command::Delay { cycles: 1000 }; 1001]);
    assert_eq!(result(next), Err(InitializationError::PeripheralTimedOut));
    assert_eq!(left, 2000 - 1002);
}

#[test]
fn last_poll_of_reset_is_in_time() {
    let mut replies = vec![stat(true, false); STATUS_POLLS as usize];
    replies.push(stat(false, false));
    let (commands, next, _) = run(PowerOn::Reset { iter: 0 }, &replies);
    assert_eq!(commands.len(), 1001);
    assert!(matches!(next, Next::Await(PowerOn::MemInit { iter: 0 })));
}

#[test]
fn mem_init_times_out() {
    let mut replies = vec![stat(false, false)];
    replies.extend([stat(false, false); 1002]);
    let (commands, next, left) = run(PowerOn::Reset { iter: 0 }, &replies);
    assert_eq!(commands.len(), 1001);
    assert_eq!(result(next), Err(InitializationError::PeripheralTimedOut));
    assert_eq!(left, 0);
}

#[test]
fn guarded_writes_are_unlocked_and_locked() {
    let start = Can::guarded_config(vec![Command::WriteTxesc { tbds: 0 }], Ok(()));
    assert_eq!(start.commands, vec![Command::ModifyCccrInit { init: true }]);
    assert_eq!(start.op.query(), Query::Cccr);
    let (commands, next, _) =
        run(start.op, &[cccr(false), cccr(true), cccr(true), cccr(true), cccr(false)]);
    assert_eq!(
        commands,
        vec![
            Command::Delay { cycles: 10 },
            Command::ModifyCccrCce { cce: true },
            Command::WriteTxesc { tbds: 0 },
            Command::ModifyCccrCce { cce: false },
            Command::ModifyCccrInit { init: false },
            Command::Delay { cycles: 10 },
            Command::Delay { cycles: 10 },
        ]
    );
    assert_eq!(result(next), Ok(()));
}

#[test]
fn failed_writes_stay_in_initialization_mode() {
    let error = InitializationError::ClockSourceNotEnabled;
    let start = GuardedConfig::start(vec![Command::WriteTxesc { tbds: 0 }], Err(error));
    let (commands, next, left) = run(start.op, &[cccr(true), cccr(false)]);
    assert_eq!(
        commands,
        vec![Command::ModifyCccrCce { cce: true }, Command::WriteTxesc { tbds: 0 }]
    );
    assert_eq!(result(next), Err(error));
    assert_eq!(left, 1);
}

#[test]
fn entering_initialization_mode_times_out() {
    let start = GuardedConfig::start(vec![Command::WriteTxesc { tbds: 0 }], Ok(()));
    let (commands, next, left) = run(start.op, &[cccr(false); 10_005]);
    assert_eq!(commands, vec![Command::Delay { cycles: 10 }; INIT_POLLS as usize]);
    assert_eq!(result(next), Err(InitializationError::PeripheralTimedOut));
    assert_eq!(left, 10_005 - 10_002);
}

#[test]
fn leaving_initialization_mode_times_out() {
    let (commands, next, left) = run(GuardedConfig::Leaving { iter: 0 }, &[cccr(true); 10_002]);
    assert_eq!(commands.len(), 10_001);
    assert_eq!(result(next), Err(InitializationError::PeripheralTimedOut));
    assert_eq!(left, 0);
}

#[test]
fn peripheral_is_brought_up() {
    let start = Can::new_blocking(CANFD0, PA27, PA26, config(), &RAM);
    assert_eq!(start.commands.len(), 11);
    assert_eq!(
        start.commands[0],
        Command::ConfigurePin {
            role: PinRole::Rx,
            pf_num: 6,
            direction: Direction::Input,
            pulled: false,
            inverted: false,
        }
    );
    assert_eq!(
        start.commands[1],
        Command::ConfigurePin {
            role: PinRole::Tx,
            pf_num: 6,
            direction: Direction::Output,
            pulled: false,
            inverted: false,
        }
    );
    assert_eq!(start.commands[2..], PowerOn::start(&config()).commands[..]);
    let replies = [
        stat(true, false),
        stat(false, false),
        stat(false, true),
        Reply::Crel(1),
        cccr(true),
        cccr(false),
    ];
    let (commands, next, _) = run(start.op, &replies);
    let mut expected = vec![
        Command::Delay { cycles: 1000 },
        Command::ModifyCccrInit { init: true },
        Command::ModifyCccrCce { cce: true },
    ];
    expected.extend(setup(&config(), &RAM));
    expected.push(Command::ModifyCccrCce { cce: false });
    expected.push(Command::ModifyCccrInit { init: false });
    assert_eq!(commands, expected);
    assert!(result(next).is_ok());
}

#[test]
fn peripheral_that_does_not_come_up_is_not_configured() {
    let start = Can::new_blocking(CANFD0, PA27, PA26, config(), &RAM);
    let replies = [stat(false, false), stat(false, true), Reply::Crel(0)];
    let (commands, next, _) = run(start.op, &replies);
    assert!(commands.is_empty());
    assert!(matches!(result(next), Err(InitializationError::PeripheralTimedOut)));
}

#[test]
fn peripheral_that_cannot_be_configured() {
    let start = Can::new_blocking(CANFD0, PA27, PA26, config(), &RAM);
    let mut replies = vec![stat(false, false), stat(false, true), Reply::Crel(1)];
    replies.extend([cccr(false); 10_002]);
    let (commands, next, left) = run(start.op, &replies);
    assert_eq!(commands.len(), 1 + 10_001);
    assert!(matches!(result(next), Err(InitializationError::PeripheralTimedOut)));
    assert_eq!(left, 0);
}

#[test]
fn replies_must_answer_the_query() {
    assert!(!PowerOn::Reset { iter: 0 }.accepts(&Reply::Crel(1)));
    assert!(!PowerOn::MemInit { iter: 0 }.accepts(&cccr(true)));
    assert!(!PowerOn::Version.accepts(&stat(false, false)));
    assert!(!GuardedConfig::Leaving { iter: 0 }.accepts(&Reply::Crel(1)));
    let start = Can::new_blocking(CANFD0, PA27, PA26, config(), &RAM);
    assert!(start.op.accepts(&stat(true, true)));
    assert!(!start.op.accepts(&cccr(true)));
}

#[test]
fn peripheral_with_memory_initialized_from_the_start_comes_up() {
    let mut replies = vec![stat(false, true); 2];
    replies.push(Reply::Crel(0x3238_0608));
    let (commands, next, left) = run(PowerOn::Reset { iter: 0 }, &replies);
    assert!(commands.is_empty());
    assert_eq!(result(next), Ok(()));
    assert_eq!(left, 0);
}

#[test]
fn last_poll_of_mem_init_is_in_time() {
    let mut replies = vec![stat(false, false); STATUS_POLLS as usize];
    replies.push(stat(false, true));
    let (commands, next, _) = run(PowerOn::MemInit { iter: 0 }, &replies);
    assert_eq!(commands, vec![Command::Delay { cycles: 1000 }; 1001]);
    assert!(matches!(next, Next::Await(PowerOn::Version)));
}

#[test]
fn timings_without_register_values_are_refused_when_written() {
    let timing = CanTimings { brp: 0, ..config().timing };
    let bad = Config { timing, ..config() };
    let up = [stat(false, true), stat(false, true), Reply::Crel(1), cccr(false)];
    let start = Can::new_blocking(CANFD0, PA27, PA26, bad, &RAM);
    let (commands, next, _) = run(start.op, &up);
    assert_eq!(
        commands,
        vec![Command::ModifyCccrInit { init: true }, Command::Delay { cycles: 10 }]
    );
    match next {
        Next::Await(op) => {
            assert!(op.accepts(&cccr(false)));
            assert!(!op.accepts(&cccr(true)));
        }
        Next::Done(_) => panic!("too early"),
    }
    let start = Can::new_blocking(CANFD0, PA27, PA26, bad, &RAM);
    let (_, next, _) = run(start.op, &[stat(true, false); 1002]);
    assert!(matches!(result(next), Err(InitializationError::PeripheralTimedOut)));
}

#[test]
fn refused_elements_are_acknowledged() {
    assert_eq!(refused(&Query::RxElement { index: 6 }), vec![Command::WriteRxf0a { f0ai: 6 }]);
    assert_eq!(refused(&Query::TxEvent { index: 2 }), vec![Command::WriteTxefa { efai: 2 }]);
    for query in [Query::SubsysStat, Query::Crel, Query::Cccr, Query::Psr, Query::Rxf0s] {
        assert!(refused(&query).is_empty());
    }
    for query in [Query::Txfqs, Query::Txefs, Query::CurrentMarker] {
        assert!(refused(&query).is_empty());
    }
}

#[test]
fn initialization_fails_at_the_bound_of_a_wait() {
    let start = Can::new_blocking(CANFD0, PA27, PA26, config(), &RAM);
    let mut replies = vec![stat(false, false), stat(false, true), Reply::Crel(1), cccr(true)];
    replies.extend([cccr(true); 10_001]);
    let (_, next, _) = run(start.op, &replies);
    match next {
        Next::Await(op) => {
            let transition = op.resume(cccr(true));
            assert!(transition.commands.is_empty());
            assert!(matches!(
                result(transition.next),
                Err(InitializationError::PeripheralTimedOut)
            ));
        }
        Next::Done(_) => panic!("too early"),
    }
    let start = Can::new_blocking(CANFD0, PA27, PA26, config(), &RAM);
    replies.push(cccr(false));
    let (_, next, left) = run(start.op, &replies);
    assert!(result(next).is_ok());
    assert_eq!(left, 0);
}
