use mspm0_can::frame::MCanFrame;
use mspm0_can::id::{ExtendedId, Id, StandardId};
use mspm0_can::msgram::{MsgHeader, RxBufferElement, RxHeader, TxBufferElement};

fn standard(raw: u16) -> Id {
    Id::Standard(StandardId::new(raw).unwrap())
}

fn extended(raw: u32) -> Id {
    Id::Extended(ExtendedId::new(raw).unwrap())
}

fn arrive(sent: TxBufferElement) -> RxBufferElement {
    RxBufferElement { hdr: sent.hdr, rxhdr: RxHeader { dlc: sent.txhdr.dlc }, data: sent.data }
}

#[test]
fn standard_ids_have_eleven_bits() {
    assert_eq!(StandardId::new(0).unwrap().as_raw(), 0);
    assert_eq!(StandardId::new(0x123).unwrap().as_raw(), 0x123);
    assert_eq!(StandardId::new(0x7FF).unwrap().as_raw(), 0x7FF);
    assert!(StandardId::new(0x800).is_none());
    assert!(StandardId::new(u16::MAX).is_none());
}

#[test]
fn extended_ids_have_twenty_nine_bits() {
    assert_eq!(ExtendedId::new(0).unwrap().as_raw(), 0);
    assert_eq!(ExtendedId::new(0x1FFF_FFFF).unwrap().as_raw(), 0x1FFF_FFFF);
    assert!(ExtendedId::new(0x2000_0000).is_none());
    assert!(ExtendedId::new(u32::MAX).is_none());
}

#[test]
fn ids_agree_with_embedded_can() {
    for raw in [0u16, 1, 0x7FE, 0x7FF, 0x800, 0xFFFF] {
        assert_eq!(
            StandardId::new(raw).map(|id| id.as_raw()),
            embedded_can::StandardId::new(raw).map(|id| id.as_raw())
        );
    }
    for raw in [0u32, 1, 0x1FFF_FFFE, 0x1FFF_FFFF, 0x2000_0000, 0xFFFF_FFFF] {
        assert_eq!(
            ExtendedId::new(raw).map(|id| id.as_raw()),
            embedded_can::ExtendedId::new(raw).map(|id| id.as_raw())
        );
    }
}

#[test]
fn ids_convert_into_either_format() {
    let short = StandardId::new(0x0AB).unwrap();
    let long = ExtendedId::new(0x0AB).unwrap();
    assert_eq!(Id::from(short), Id::Standard(short));
    assert_eq!(Id::from(long), Id::Extended(long));
    assert_ne!(Id::from(short), Id::from(long));
}

#[test]
fn new_frame_holds_its_data() {
    let frame = MCanFrame::new(standard(0x123), &[0x12, 0x34, 7]).unwrap();
    assert_eq!(frame.id(), standard(0x123));
    assert_eq!(frame.dlc(), 3);
    assert_eq!(frame.payload(), &[0x12, 0x34, 7]);
    assert_eq!(frame.data(), &[0x12, 0x34, 7, 0, 0, 0, 0, 0]);
    assert!(!frame.is_extended());
    assert!(!frame.is_remote_frame());
}

#[test]
fn new_frame_takes_at_most_eight_bytes() {
    assert_eq!(MCanFrame::new(standard(1), &[]).unwrap().payload(), &[] as &[u8]);
    assert_eq!(MCanFrame::new(standard(1), &[9; 8]).unwrap().payload(), &[9; 8]);
    assert!(MCanFrame::new(standard(1), &[9; 9]).is_none());
}

#[test]
fn remote_frames_are_not_made() {
    for dlc in 0..=9 {
        assert!(MCanFrame::new_remote(standard(1), dlc).is_none());
        assert!(MCanFrame::new_remote(extended(1), dlc).is_none());
    }
}

#[test]
fn set_id_changes_only_the_id() {
    let mut frame = MCanFrame::new(extended(0x1234_5678), &[1, 2, 3, 4, 5]).unwrap();
    assert!(frame.is_extended());
    frame.set_id(standard(0x0AB));
    assert_eq!(frame.id(), standard(0x0AB));
    assert!(!frame.is_extended());
    assert_eq!(frame.dlc(), 5);
    assert_eq!(frame.payload(), &[1, 2, 3, 4, 5]);
    assert!(!frame.is_remote_frame());
}

#[test]
fn standard_frame_is_encoded() {
    let frame = MCanFrame::new(standard(0x123), &[0xDE, 0xAD]).unwrap();
    let element = frame.into_tx_buffer(Some(0x5A));
    assert_eq!(element.hdr, MsgHeader { xtd: false, rtr: false, id: 0x048C_0000 });
    assert_eq!(element.txhdr.dlc, 2);
    assert_eq!(element.txhdr.mm, 0x5A);
    assert!(element.txhdr.efc);
    assert_eq!(element.data, [0xDE, 0xAD, 0, 0, 0, 0, 0, 0]);
}

#[test]
fn extended_frame_is_encoded() {
    let frame = MCanFrame::new(extended(0x1ABC_DEF0), &[]).unwrap();
    let element = frame.into_tx_buffer(Some(0));
    assert_eq!(element.hdr, MsgHeader { xtd: true, rtr: false, id: 0x1ABC_DEF0 });
    assert_eq!(element.txhdr.mm, 0);
    assert!(element.txhdr.efc);
}

#[test]
fn no_marker_asks_for_no_event() {
    let frame = MCanFrame::new(standard(0x7FF), &[1]).unwrap();
    let element = frame.into_tx_buffer(None);
    assert!(!element.txhdr.efc);
    assert_eq!(element.txhdr.mm, 0);
    assert_eq!(element.hdr.id, 0x1FFC_0000);
}

#[test]
fn received_standard_frame_is_decoded() {
    let element = RxBufferElement {
        hdr: MsgHeader { xtd: false, rtr: true, id: 0x048F_FFFF },
        rxhdr: RxHeader { dlc: 8 },
        data: [1, 2, 3, 4, 5, 6, 7, 8],
    };
    assert!(element.is_valid());
    let frame = element.into();
    assert_eq!(frame.id(), standard(0x123));
    assert_eq!(frame.dlc(), 8);
    assert!(frame.is_remote_frame());
    assert_eq!(frame.data(), &[1, 2, 3, 4, 5, 6, 7, 8]);
}

#[test]
fn received_extended_frame_is_decoded() {
    let element = RxBufferElement {
        hdr: MsgHeader { xtd: true, rtr: false, id: 0x048F_FFFF },
        rxhdr: RxHeader { dlc: 1 },
        data: [1, 2, 3, 4, 5, 6, 7, 8],
    };
    let frame = element.into();
    assert_eq!(frame.id(), extended(0x048F_FFFF));
    assert_eq!(frame.payload(), &[1]);
    assert_eq!(frame.data(), &[1, 2, 3, 4, 5, 6, 7, 8]);
    assert!(!frame.is_remote_frame());
}

#[test]
fn elements_that_hold_no_classic_frame() {
    let good = RxBufferElement {
        hdr: MsgHeader { xtd: true, rtr: false, id: 0x1FFF_FFFF },
        rxhdr: RxHeader { dlc: 8 },
        data: [0; 8],
    };
    assert!(good.is_valid());
    assert!(!RxBufferElement { rxhdr: RxHeader { dlc: 9 }, ..good }.is_valid());
    let wide = MsgHeader { id: 0x2000_0000, ..good.hdr };
    assert!(!RxBufferElement { hdr: wide, ..good }.is_valid());
}

#[test]
fn receive_what_was_sent() {
    for id in [standard(0), standard(0x555), standard(0x7FF), extended(0), extended(0x1FFF_FFFF)] {
        let frame = MCanFrame::new(id, &[3, 1, 4, 1, 5]).unwrap();
        let back = arrive(frame.into_tx_buffer(Some(200))).into();
        assert_eq!(back.id(), frame.id());
        assert_eq!(back.dlc(), frame.dlc());
        assert_eq!(back.data(), frame.data());
        assert_eq!(back.is_remote_frame(), frame.is_remote_frame());
    }
}

#[test]
fn send_what_was_received() {
    let element = RxBufferElement {
        hdr: MsgHeader { xtd: false, rtr: true, id: 0x1554_0000 },
        rxhdr: RxHeader { dlc: 4 },
        data: [8, 7, 6, 5, 4, 3, 2, 1],
    };
    let sent = element.into().into_tx_buffer(None);
    assert_eq!(sent.hdr, element.hdr);
    assert_eq!(sent.txhdr.dlc, 4);
    assert_eq!(sent.data, element.data);
    let noisy = RxBufferElement { hdr: MsgHeader { id: 0x1557_FFFF, ..element.hdr }, ..element };
    assert_eq!(noisy.into().into_tx_buffer(None).hdr, element.hdr);
    let long = RxBufferElement { hdr: MsgHeader { xtd: true, ..noisy.hdr }, ..noisy };
    assert_eq!(long.into().into_tx_buffer(None).hdr, long.hdr);
}

#[test]
fn headers_tell_ids_apart() {
    let short = MCanFrame::new(standard(1), &[]).unwrap().into_tx_buffer(None);
    let long = MCanFrame::new(extended(0x4_0000), &[]).unwrap().into_tx_buffer(None);
    assert_eq!(short.hdr.id, long.hdr.id);
    assert_ne!(short.hdr, long.hdr);
}
