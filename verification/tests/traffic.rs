use mspm0_can::can::Can;
use mspm0_can::config::{
    BusError, BusOffHandling, CanTimings, ClockDiv, Config, RecoveryFailure,
};
use mspm0_can::frame::MCanFrame;
use mspm0_can::id::{Id, StandardId};
use mspm0_can::io::{
    Command, Next, Operation, ProtocolStatus, Query, Reply, RxFifoStatus, SubsysStat,
    TxEventFifoStatus, TxFifoStatus,
};
use mspm0_can::msgram::{
    McanMessageRAM, MsgHeader, Regions, RxBufferElement, RxHeader, TxEvent,
};
use mspm0_can::pins::{CANFD0, PA26, PA27};
use mspm0_can::recovery::Recover;
use mspm0_can::rx::Receive;
use mspm0_can::tx::{Transmit, FIRST_MARKER};

fn driver(bus_off_handling: BusOffHandling) -> Can {
    let config = Config {
        functional_clock_rate: 40_000_000,
        clock_div: ClockDiv::DivBy1,
        bus_off_handling,
        timing: CanTimings { brp: 1, sjw: 1, ntseg1: 2, ntseg2: 2 },
        accept_remote_frames: false,
        accept_extended_ids: false,
    };
    let regions = Regions {
        filters: 0,
        extended_filters: 0,
        rxfifo0: 8,
        rxfifo1: 0,
        rxbuffers: 0,
        txevents: 8,
        txfifo: 8,
    };
    let ram = McanMessageRAM { sizes: regions, offsets: regions };
    let mut op = Can::new_blocking(CANFD0, PA27, PA26, config, &ram).op;
    let ready = Reply::SubsysStat(SubsysStat { reset: false, mem_init_done: true });
    for reply in [ready, ready, Reply::Crel(1), Reply::Cccr { init: true }] {
        op = match op.resume(reply).next {
            Next::Await(next) => next,
            Next::Done(_) => panic!("too early"),
        };
    }
    match op.resume(Reply::Cccr { init: false }).next {
        Next::Done(Ok(can)) => can,
        _ => panic!("not up"),
    }
}

fn frame(raw: u16, data: &[u8]) -> MCanFrame {
    MCanFrame::new(Id::Standard(StandardId::new(raw).unwrap()), data).unwrap()
}

fn rx(f0gi: u8, f0pi: u8, f0f: bool) -> RxFifoStatus {
    RxFifoStatus { f0gi, f0pi, f0f }
}

fn psr(bo: bool, ep: bool, ew: bool, lec: u8) -> ProtocolStatus {
    ProtocolStatus { bo, ep, ew, lec }
}

fn step<O: Operation>(op: O, reply: Reply) -> (Vec<Command>, O) {
    assert!(op.accepts(&reply));
    let transition = op.resume(reply);
    match transition.next {
        Next::Await(next) => (transition.commands, next),
        Next::Done(_) => panic!("too early"),
    }
}

fn finish<O: Operation>(op: O, reply: Reply) -> (Vec<Command>, O::Output) {
    assert!(op.accepts(&reply));
    let transition = op.resume(reply);
    match transition.next {
        Next::Await(_) => panic!("still waiting"),
        Next::Done(result) => (transition.commands, result),
    }
}

#[test]
fn fifo_holds_a_frame() {
    let can = driver(BusOffHandling::AutoReInit);
    assert!(!can.has_frame(rx(3, 3, false)));
    assert!(can.has_frame(rx(3, 4, false)));
    assert!(can.has_frame(rx(4, 3, false)));
    assert!(can.has_frame(rx(3, 3, true)));
}

#[test]
fn frame_is_waited_for_and_acknowledged() {
    let mut can = driver(BusOffHandling::AutoReInit);
    let element = RxBufferElement {
        hdr: MsgHeader { xtd: false, rtr: false, id: 0x123 << 18 },
        rxhdr: RxHeader { dlc: 2 },
        data: [5, 6, 0, 0, 0, 0, 0, 0],
    };
    let mut op = can.get_frame();
    assert_eq!(op.query(), Query::Rxf0s);
    for _ in 0..5 {
        let (commands, next) = step(op, Reply::Rxf0s(rx(6, 6, false)));
        assert_eq!(commands, vec![Command::Delay { cycles: 10 }]);
        assert_eq!(next, Receive::Waiting);
        op = next;
    }
    let (commands, op) = step(op, Reply::Rxf0s(rx(6, 7, false)));
    assert!(commands.is_empty());
    assert_eq!(op.query(), Query::RxElement { index: 6 });
    let (commands, received) = finish(op, Reply::RxElement(element));
    assert_eq!(commands, vec![Command::WriteRxf0a { f0ai: 6 }]);
    assert_eq!(received.id(), frame(0x123, &[]).id());
    assert_eq!(received.payload(), &[5, 6]);
}

#[test]
fn full_fifo_is_read() {
    let (commands, op) = step(Receive::Waiting, Reply::Rxf0s(rx(2, 2, true)));
    assert!(commands.is_empty());
    assert_eq!(op, Receive::Fetching { read_index: 2 });
}

#[test]
fn element_of_no_classic_frame_is_not_accepted() {
    let op = Receive::Fetching { read_index: 0 };
    let element = RxBufferElement {
        hdr: MsgHeader { xtd: false, rtr: false, id: 0 },
        rxhdr: RxHeader { dlc: 9 },
        data: [0; 8],
    };
    assert!(!op.accepts(&Reply::RxElement(element)));
    assert!(!op.accepts(&Reply::Rxf0s(rx(0, 1, false))));
    assert!(!Receive::Waiting.accepts(&Reply::RxElement(element)));
}

#[test]
fn frame_is_queued_and_confirmed() {
    let mut can = driver(BusOffHandling::AutoReInit);
    let sent = frame(0x0AB, &[1, 2, 3]);
    let op = can.send_frame(sent);
    assert_eq!(op, Transmit::Queueing { frame: sent });
    assert_eq!(op.query(), Query::Txfqs);
    let (commands, op) = step(op, Reply::Txfqs(TxFifoStatus { tfqf: true, tfqp: 0 }));
    assert_eq!(commands, vec![Command::Delay { cycles: 10 }]);
    assert_eq!(op, Transmit::Queueing { frame: sent });
    let (commands, op) = step(op, Reply::Txfqs(TxFifoStatus { tfqf: false, tfqp: 5 }));
    assert!(commands.is_empty());
    assert_eq!(op.query(), Query::CurrentMarker);
    let (commands, op) = step(op, Reply::CurrentMarker(41));
    assert_eq!(
        commands,
        vec![
            Command::StoreMarker { marker: 42 },
            Command::SetTxElement { index: 5, element: sent.into_tx_buffer(Some(41)) },
            Command::WriteTxbar { bits: 0x20 },
        ]
    );
    assert_eq!(op.query(), Query::Txefs);
    let empty = TxEventFifoStatus { efgi: 1, efpi: 1, eff: false };
    let (commands, op) = step(op, Reply::Txefs(empty));
    assert_eq!(commands, vec![Command::Delay { cycles: 10 }]);
    let (commands, op) = step(op, Reply::Txefs(TxEventFifoStatus { efpi: 2, ..empty }));
    assert!(commands.is_empty());
    assert_eq!(op.query(), Query::TxEvent { index: 1 });
    assert!(!op.accepts(&Reply::TxEvent(TxEvent { mm: 42 })));
    let (commands, ()) = finish(op, Reply::TxEvent(TxEvent { mm: 41 }));
    assert_eq!(commands, vec![Command::WriteTxefa { efai: 1 }]);
}

#[test]
fn full_fifo_keeps_the_marker() {
    let sent = frame(1, &[]);
    let mut op = Transmit::Queueing { frame: sent };
    for tfqp in 0..100 {
        let (commands, next) = step(op, Reply::Txfqs(TxFifoStatus { tfqf: true, tfqp }));
        assert_eq!(commands, vec![Command::Delay { cycles: 10 }]);
        op = next;
    }
    let (_, op) = step(op, Reply::Txfqs(TxFifoStatus { tfqf: false, tfqp: 7 }));
    assert_eq!(op, Transmit::Marking { frame: sent, write_index: 7 });
}

#[test]
fn last_element_is_requested() {
    let sent = frame(1, &[]);
    let op = Transmit::Queueing { frame: sent };
    assert!(!op.accepts(&Reply::Txfqs(TxFifoStatus { tfqf: false, tfqp: 32 })));
    assert!(op.accepts(&Reply::Txfqs(TxFifoStatus { tfqf: true, tfqp: 32 })));
    let (_, op) = step(op, Reply::Txfqs(TxFifoStatus { tfqf: false, tfqp: 31 }));
    let (commands, _) = step(op, Reply::CurrentMarker(0));
    assert_eq!(commands[2], Command::WriteTxbar { bits: 0x8000_0000 });
    let outside = Transmit::Marking { frame: sent, write_index: 32 };
    assert!(!outside.accepts(&Reply::CurrentMarker(0)));
    assert!(!op.accepts(&Reply::Crel(0)));
}

#[test]
fn full_event_fifo_is_read() {
    let status = TxEventFifoStatus { efgi: 3, efpi: 3, eff: true };
    let (commands, op) = step(Transmit::Confirming { marker: 8 }, Reply::Txefs(status));
    assert!(commands.is_empty());
    assert_eq!(op, Transmit::Fetching { marker: 8, read_index: 3 });
}

#[test]
fn markers_count_frames_and_wrap() {
    let mut can = driver(BusOffHandling::AutoReInit);
    let mut kept = FIRST_MARKER;
    for sends in 0..600u32 {
        let op = can.send_frame(frame(1, &[]));
        let (_, op) = step(op, Reply::Txfqs(TxFifoStatus { tfqf: false, tfqp: 0 }));
        let (commands, op) = step(op, Reply::CurrentMarker(kept));
        let marker = (sends % 256) as u8;
        assert_eq!(op, Transmit::Confirming { marker });
        match commands[1] {
            Command::SetTxElement { element, .. } => {
                assert_eq!(element.txhdr.mm, marker);
                assert!(element.txhdr.efc);
            }
            _ => panic!("no element"),
        }
        match commands[0] {
            Command::StoreMarker { marker } => kept = marker,
            _ => panic!("no marker"),
        }
    }
}

#[test]
fn gravest_condition_is_reported() {
    let can = driver(BusOffHandling::AutoReInit);
    assert_eq!(can.status(psr(true, true, true, 1)), Some(BusError::BusOff));
    assert_eq!(can.status(psr(false, true, true, 1)), Some(BusError::ErrorPassive));
    assert_eq!(can.status(psr(false, false, true, 1)), Some(BusError::ErrorWarning));
    assert_eq!(can.status(psr(false, false, false, 1)), Some(BusError::Stuff));
    assert_eq!(can.status(psr(false, false, false, 0)), None);
}

#[test]
fn last_error_codes() {
    assert_eq!(Can::reg_to_error(0), None);
    assert_eq!(Can::reg_to_error(1), Some(BusError::Stuff));
    assert_eq!(Can::reg_to_error(2), Some(BusError::Form));
    assert_eq!(Can::reg_to_error(3), Some(BusError::Acknowledge));
    assert_eq!(Can::reg_to_error(4), Some(BusError::BitRecessive));
    assert_eq!(Can::reg_to_error(5), Some(BusError::BitDominant));
    assert_eq!(Can::reg_to_error(6), Some(BusError::Crc));
    for code in 7..=255u8 {
        assert_eq!(Can::reg_to_error(code), None);
    }
}

#[test]
fn automatic_recovery_is_not_started_by_hand() {
    let mut can = driver(BusOffHandling::AutoReInit);
    assert_eq!(can.recover(), Err(RecoveryFailure::WasAutomatic));
}

#[test]
fn recovery_is_from_bus_off() {
    let mut can = driver(BusOffHandling::ManualReInit);
    let op = can.recover().unwrap();
    assert_eq!(op.query(), Query::Psr);
    let (commands, result) = finish(op, Reply::Psr(psr(true, true, true, 0)));
    assert_eq!(commands, vec![Command::ModifyCccrInit { init: false }]);
    assert_eq!(result, Ok(()));
    let (commands, result) = finish(Recover, Reply::Psr(psr(false, true, true, 3)));
    assert!(commands.is_empty());
    assert_eq!(result, Err(RecoveryFailure::WasNotBusOff));
    assert!(!Recover.accepts(&Reply::Crel(1)));
}

#[test]
fn reply_has_another_id_and_the_same_payload() {
    let element = RxBufferElement {
        hdr: MsgHeader { xtd: true, rtr: false, id: 0x1234_5678 },
        rxhdr: RxHeader { dlc: 4 },
        data: [9, 8, 7, 6, 0, 0, 0, 0],
    };
    let (_, mut received) = finish(Receive::Fetching { read_index: 0 }, Reply::RxElement(element));
    received.set_id(Id::Standard(StandardId::new(0x0AB).unwrap()));
    let mut can = driver(BusOffHandling::ManualReInit);
    let op = can.send_frame(received);
    let (_, op) = step(op, Reply::Txfqs(TxFifoStatus { tfqf: false, tfqp: 0 }));
    let (commands, _) = step(op, Reply::CurrentMarker(255));
    assert_eq!(commands[0], Command::StoreMarker { marker: 0 });
    match commands[1] {
        Command::SetTxElement { index, element: reply } => {
            assert_eq!(index, 0);
            assert_eq!(reply.hdr, MsgHeader { xtd: false, rtr: false, id: 0x0AB << 18 });
            assert_eq!(reply.txhdr.dlc, 4);
            assert_eq!(reply.txhdr.mm, 255);
            assert_eq!(reply.data, element.data);
        }
        _ => panic!("no element"),
    }
}
