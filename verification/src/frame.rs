//! CAN frames and their form in message RAM.

use vstd::prelude::*;
use vstd::slice::slice_subrange;

use crate::id::{ExtendedId, Id, IdView, StandardId, EXTENDED_ID_MAX};
use crate::msgram::{MsgHeader, RxBufferElement, TxBufferElement, TxHeader, DATA_BYTES};

verus! {

/// A classic CAN frame of at most eight data bytes.
#[derive(Clone, Copy, PartialEq, Eq, Debug)]
pub struct MCanFrame {
    id: Id,
    dlc: usize,
    is_remote: bool,
    data: [u8; 8],
}

/// What a frame holds.
#[verifier::ext_equal]
pub struct FrameView {
    pub id: IdView,
    /// Data length code.
    pub dlc: nat,
    pub is_remote: bool,
    /// All eight bytes, those past the data length code too.
    pub data: Seq<u8>,
}

impl FrameView {
    /// The identifier is one, and the length code fits a classic frame.
    pub open spec fn valid(self) -> bool {
        &&& self.id.valid()
        &&& self.dlc <= DATA_BYTES
        &&& self.data.len() == DATA_BYTES
    }

    /// The bytes that the length code covers.
    pub open spec fn payload(self) -> Seq<u8> {
        self.data.subrange(0, self.dlc as int)
    }
}

impl View for MCanFrame {
    type V = FrameView;

    closed spec fn view(&self) -> FrameView {
        FrameView {
            id: self.id@,
            dlc: self.dlc as nat,
            is_remote: self.is_remote,
            data: self.data@,
        }
    }
}

/// The 29 bits by which message RAM holds an identifier: all of an extended one,
/// and a standard one followed by 18 zeros.
pub open spec fn header_id(id: IdView) -> int {
    match id {
        IdView::Standard(raw) => raw * 0x4_0000,
        IdView::Extended(raw) => raw as int,
    }
}

/// The identifier that 29 bits of message RAM stand for: all of them for an
/// extended one, the upper 11 for a standard one.
pub open spec fn id_of_header(hdr: MsgHeader) -> IdView {
    if hdr.xtd {
        IdView::Extended(hdr.id)
    } else {
        IdView::Standard((hdr.id / 0x4_0000) as u16)
    }
}

impl TxBufferElement {
    /// This element transmits `frame`. With a marker it asks for an event that
    /// carries the marker; without one it asks for none.
    pub open spec fn encodes(self, frame: FrameView, marker: Option<u8>) -> bool {
        &&& self.hdr.xtd == (frame.id is Extended)
        &&& self.hdr.rtr == frame.is_remote
        &&& self.hdr.id == header_id(frame.id)
        &&& self.txhdr.dlc == frame.dlc
        &&& self.txhdr.efc == (marker is Some)
        &&& self.txhdr.mm == (match marker {
            Some(mm) => mm,
            None => 0,
        })
        &&& self.data@ == frame.data
    }
}

impl RxBufferElement {
    /// The element holds a classic frame.
    pub open spec fn valid(self) -> bool {
        &&& self.hdr.valid()
        &&& self.rxhdr.dlc <= DATA_BYTES
    }

    /// What the received frame holds.
    pub open spec fn decodes(self) -> FrameView {
        FrameView {
            id: id_of_header(self.hdr),
            dlc: self.rxhdr.dlc as nat,
            is_remote: self.hdr.rtr,
            data: self.data@,
        }
    }

    /// The received frame.
    pub closed spec fn frame(self) -> MCanFrame {
        MCanFrame {
            id: Id::of(id_of_header(self.hdr)),
            dlc: self.rxhdr.dlc as usize,
            is_remote: self.hdr.rtr,
            data: self.data,
        }
    }

    /// Whether the element holds a classic frame.
    pub fn is_valid(&self) -> (r: bool)
        ensures
            r == self.valid(),
    {
        self.hdr.id <= EXTENDED_ID_MAX && self.rxhdr.dlc as usize <= DATA_BYTES
    }

    /// Takes the frame out of a received element.
    pub fn into(self) -> (frame: MCanFrame)
        requires
            self.valid(),
        ensures
            frame == self.frame(),
            frame@ == self.decodes(),
            frame@.valid(),
            frame@.dlc == self.rxhdr.dlc,
            frame@.is_remote == self.hdr.rtr,
            forall|i: int| 0 <= i < 8 ==> frame@.data[i] == self.data[i],
    {
        let raw: u32 = self.hdr.id;
        let id: Id = if self.hdr.xtd {
            Id::Extended(ExtendedId::new(raw).unwrap())
        } else {
            let shifted: u32 = raw >> 18;
            assert(shifted == raw / 0x4_0000 && shifted <= 0x7FF) by (bit_vector)
                requires
                    shifted == raw >> 18,
                    raw <= 0x1FFF_FFFF,
            ;
            Id::Standard(StandardId::new(shifted as u16).unwrap())
        };
        MCanFrame {
            id,
            dlc: self.rxhdr.dlc as usize,
            is_remote: self.hdr.rtr,
            data: self.data,
        }
    }
}

impl MCanFrame {
    /// Every frame is a classic one.
    #[verifier::type_invariant]
    pub open spec fn classic(self) -> bool {
        self@.valid()
    }

    /// The element that transmits this frame.
    pub closed spec fn tx_buffer(self, marker: Option<u8>) -> TxBufferElement {
        TxBufferElement {
            hdr: MsgHeader {
                xtd: self.id is Extended,
                rtr: self.is_remote,
                id: header_id(self.id@) as u32,
            },
            txhdr: TxHeader {
                dlc: self.dlc as u8,
                mm: match marker {
                    Some(mm) => mm,
                    None => 0,
                },
                efc: marker is Some,
            },
            data: self.data,
        }
    }

    /// Makes a data frame; there is none for more than eight bytes. Bytes past the
    /// given ones are zero.
    pub fn new(id: Id, data: &[u8]) -> (frame: Option<MCanFrame>)
        ensures
            frame is Some <==> data@.len() <= DATA_BYTES,
            frame matches Some(frame) ==> {
                &&& frame@.valid()
                &&& frame@.id == id@
                &&& frame@.dlc == data@.len()
                &&& !frame@.is_remote
                &&& frame@.payload() == data@
                &&& forall|i: int| 0 <= i < data@.len() ==> frame@.data[i] == data@[i]
                &&& forall|i: int| data@.len() <= i < DATA_BYTES ==> frame@.data[i] == 0
            },
    {
        if data.len() > DATA_BYTES {
            return None;
        }
        let mut bytes: [u8; 8] = [0; 8];
        let mut i: usize = 0;
        while i < data.len()
            invariant
                i <= data@.len() <= DATA_BYTES,
                bytes@.len() == DATA_BYTES,
                forall|j: int| 0 <= j < i ==> bytes@[j] == data@[j],
                forall|j: int| i <= j < DATA_BYTES ==> bytes@[j] == 0,
            decreases data@.len() - i,
        {
            bytes[i] = data[i];
            i += 1;
        }
        let frame = MCanFrame { id: id.in_range(), dlc: data.len(), is_remote: false, data: bytes };
        assert(frame@.payload() =~= data@);
        Some(frame)
    }

    /// Makes a remote frame. There is none, whatever the length code.
    pub fn new_remote(_id: Id, _dlc: usize) -> (frame: Option<MCanFrame>)
        ensures
            frame is None,
    {
        None
    }

    /// Whether the identifier is an extended one.
    pub fn is_extended(&self) -> (r: bool)
        ensures
            r == (self@.id is Extended),
    {
        matches!(self.id(), Id::Extended(_))
    }

    /// The identifier.
    pub fn id(&self) -> (id: Id)
        ensures
            id@ == self@.id,
            id@.valid(),
    {
        proof {
            use_type_invariant(self);
        }
        self.id
    }

    /// The data length code.
    pub fn dlc(&self) -> (dlc: usize)
        ensures
            dlc == self@.dlc,
            dlc <= DATA_BYTES,
    {
        proof {
            use_type_invariant(self);
        }
        self.dlc
    }

    /// All eight bytes, whatever the data length code.
    pub fn data(&self) -> (data: &[u8])
        ensures
            data@ == self@.data,
            data@.len() == DATA_BYTES,
    {
        self.data.as_slice()
    }

    /// The bytes that the data length code covers.
    pub fn payload(&self) -> (payload: &[u8])
        ensures
            payload@ == self@.payload(),
            payload@.len() == self@.dlc,
    {
        proof {
            use_type_invariant(self);
        }
        slice_subrange(self.data.as_slice(), 0, self.dlc)
    }

    /// Whether this is a remote frame.
    pub fn is_remote_frame(&self) -> (r: bool)
        ensures
            r == self@.is_remote,
    {
        self.is_remote
    }

    /// Gives the frame another identifier and changes nothing else.
    pub fn set_id(&mut self, id: Id)
        ensures
            final(self)@ == (FrameView { id: id@, ..old(self)@ }),
    {
        proof {
            use_type_invariant(&*self);
        }
        self.id = id.in_range();
    }

    /// The element that transmits this frame.
    pub fn into_tx_buffer(self, marker: Option<u8>) -> (element: TxBufferElement)
        ensures
            element == self.tx_buffer(marker),
            element.encodes(self@, marker),
            element.hdr.valid(),
            element.txhdr.dlc == self@.dlc,
            element.hdr.rtr == self@.is_remote,
            forall|i: int| 0 <= i < 8 ==> element.data[i] == self@.data[i],
    {
        proof {
            use_type_invariant(&self);
        }
        let mut hdr = MsgHeader { xtd: false, rtr: self.is_remote, id: 0 };
        match self.id {
            Id::Extended(id) => {
                hdr.xtd = true;
                hdr.id = id.as_raw();
            },
            Id::Standard(id) => {
                let raw: u32 = id.as_raw() as u32;
                assert(raw << 18 == raw * 0x4_0000 && raw << 18 <= 0x1FFF_FFFF) by (bit_vector)
                    requires
                        raw <= 0x7FF,
                ;
                hdr.xtd = false;
                hdr.id = raw << 18;
            },
        }
        let mut txhdr = TxHeader { dlc: self.dlc as u8, mm: 0, efc: false };
        if let Some(mm) = marker {
            txhdr.mm = mm;
            txhdr.efc = true;
        }
        TxBufferElement { hdr, txhdr, data: self.data }
    }
}

/// What [`RxBufferElement::frame`] holds is what the element decodes to.
pub proof fn law_received_frame(element: RxBufferElement)
    requires
        element.valid(),
    ensures
        element.frame()@ == element.decodes(),
        element.frame()@.valid(),
{
    crate::id::law_id_is_its_view(element.frame().id, id_of_header(element.hdr));
}

/// What [`MCanFrame::tx_buffer`] transmits is the frame.
pub proof fn law_transmitted_element(frame: MCanFrame, marker: Option<u8>)
    requires
        frame.classic(),
    ensures
        frame.tx_buffer(marker).encodes(frame@, marker),
        frame.tx_buffer(marker).hdr.valid(),
{
}

/// Receiving gives back what was sent: an element that arrives with the header,
/// length code and data of a transmitted frame holds that frame.
pub proof fn law_receive_what_was_sent(
    frame: FrameView,
    marker: Option<u8>,
    sent: TxBufferElement,
    received: RxBufferElement,
)
    requires
        frame.valid(),
        sent.encodes(frame, marker),
        received.hdr == sent.hdr,
        received.rxhdr.dlc == sent.txhdr.dlc,
        received.data == sent.data,
    ensures
        received.valid(),
        received.decodes() == frame,
{
}

/// Sending a received frame on leaves its header, length code and data as they
/// were, but for the 18 bits below a standard identifier: they are not part of the
/// frame, and are sent as zeros.
pub proof fn law_send_what_was_received(
    received: RxBufferElement,
    marker: Option<u8>,
    sent: TxBufferElement,
)
    requires
        received.valid(),
        sent.encodes(received.decodes(), marker),
    ensures
        sent.hdr.xtd == received.hdr.xtd,
        sent.hdr.rtr == received.hdr.rtr,
        sent.hdr.id == (if received.hdr.xtd {
            received.hdr.id as int
        } else {
            received.hdr.id - received.hdr.id % 0x4_0000
        }),
        sent.txhdr.dlc == received.rxhdr.dlc,
        sent.data@ == received.data@,
{
}

/// Frames with different identifiers never share a header.
pub proof fn law_headers_tell_ids_apart(
    a: FrameView,
    b: FrameView,
    sent_a: TxBufferElement,
    sent_b: TxBufferElement,
    marker_a: Option<u8>,
    marker_b: Option<u8>,
)
    requires
        a.valid(),
        b.valid(),
        sent_a.encodes(a, marker_a),
        sent_b.encodes(b, marker_b),
        a.id != b.id,
    ensures
        sent_a.hdr != sent_b.hdr,
{
}

/// A frame holds at most eight bytes, under an identifier of 11 or 29 bits.
pub proof fn law_classic_frames(frame: FrameView)
    ensures
        frame.valid() <==> {
            &&& frame.dlc <= 8
            &&& frame.data.len() == 8
            &&& frame.id matches IdView::Standard(raw) ==> raw < 0x800
            &&& frame.id matches IdView::Extended(raw) ==> raw < 0x2000_0000
        },
{
}

/// The payload is as long as the length code says, and each of its bytes stands at
/// its own position.
pub proof fn law_payload_is_the_first_bytes(frame: FrameView, i: int)
    requires
        frame.valid(),
        0 <= i < frame.dlc,
    ensures
        frame.payload().len() == frame.dlc,
        frame.payload()[i] == frame.data[i],
{
}

/// An element is received as a frame exactly if it holds at most eight bytes; its
/// identifier field has 29 bits.
pub proof fn law_receivable_elements(element: RxBufferElement)
    ensures
        element.valid() <==> element.rxhdr.dlc <= 8 && element.hdr.id < 0x2000_0000,
{
}

/// A received frame is its element: the same length code and remote flag, each byte
/// at its position, all 29 bits of an extended identifier, and the upper 11 bits as
/// a standard one, whatever stands below them.
pub proof fn law_element_becomes_frame(element: RxBufferElement, i: int)
    requires
        element.valid(),
        0 <= i < 8,
    ensures
        ({
            let frame = element.frame()@;
            &&& frame == element.decodes()
            &&& frame.dlc == element.rxhdr.dlc
            &&& frame.is_remote == element.hdr.rtr
            &&& frame.data.len() == 8
            &&& frame.data[i] == element.data[i]
            &&& element.hdr.xtd ==> frame.id == IdView::Extended(element.hdr.id)
            &&& !element.hdr.xtd ==> (frame.id matches IdView::Standard(raw) && raw * 0x4_0000
                <= element.hdr.id < (raw + 1) * 0x4_0000)
        }),
{
    law_received_frame(element);
}

/// An element to transmit is its frame: the same length code and remote flag, each
/// byte at its position, an extended identifier as its 29 bits, and a standard one
/// as the upper 11 of them with zeros below. It asks for an event exactly if there
/// is a marker, and carries that marker.
pub proof fn law_frame_becomes_element(frame: MCanFrame, marker: Option<u8>, i: int)
    requires
        frame.classic(),
        0 <= i < 8,
    ensures
        ({
            let element = frame.tx_buffer(marker);
            &&& element.txhdr.dlc == frame@.dlc
            &&& element.hdr.rtr == frame@.is_remote
            &&& element.data[i] == frame@.data[i]
            &&& element.hdr.xtd <==> frame@.id is Extended
            &&& frame@.id matches IdView::Extended(raw) ==> element.hdr.id == raw
            &&& frame@.id matches IdView::Standard(raw) ==> element.hdr.id % 0x4_0000 == 0
                && element.hdr.id / 0x4_0000 == raw
            &&& element.txhdr.efc <==> marker is Some
            &&& marker matches Some(mm) ==> element.txhdr.mm == mm
            &&& marker is None ==> element.txhdr.mm == 0
        }),
{
    law_transmitted_element(frame, marker);
}

/// What encodes a frame has the frame's length code, remote flag and identifier,
/// each of its bytes at its position, and the marker.
pub proof fn law_encoding_keeps_the_frame(
    element: TxBufferElement,
    frame: FrameView,
    marker: Option<u8>,
    i: int,
)
    requires
        frame.valid(),
        element.encodes(frame, marker),
        0 <= i < 8,
    ensures
        element.txhdr.dlc == frame.dlc,
        element.hdr.rtr == frame.is_remote,
        element.data[i] == frame.data[i],
        element.hdr.xtd <==> frame.id is Extended,
        frame.id matches IdView::Extended(raw) ==> element.hdr.id == raw,
        frame.id matches IdView::Standard(raw) ==> element.hdr.id % 0x4_0000 == 0
            && element.hdr.id / 0x4_0000 == raw,
        element.txhdr.efc <==> marker is Some,
        marker matches Some(mm) ==> element.txhdr.mm == mm,
        marker is None ==> element.txhdr.mm == 0,
{
}

} // verus!
