//! What the driver reads from and writes to message RAM, field by field, and
//! how message RAM is divided.

use vstd::prelude::*;

use crate::id::EXTENDED_ID_MAX;

verus! {

/// Number of data bytes in a buffer element.
pub const DATA_BYTES: usize = 8;

/// First word of a buffer element. In an element to transmit, the bits that are not
/// named are zero.
#[derive(Clone, Copy, PartialEq, Eq, Debug)]
pub struct MsgHeader {
    /// The identifier is an extended one.
    pub xtd: bool,
    /// The frame is a remote frame.
    pub rtr: bool,
    /// 29 bits of identifier. A standard identifier stands in the upper 11.
    pub id: u32,
}

impl MsgHeader {
    /// The identifier field holds no more than its 29 bits.
    pub open spec fn valid(self) -> bool {
        self.id <= EXTENDED_ID_MAX
    }
}

/// Second word of a received element.
#[derive(Clone, Copy, PartialEq, Eq, Debug)]
pub struct RxHeader {
    /// Data length code.
    pub dlc: u8,
}

/// Second word of an element to transmit. The bits that are not named are zero.
#[derive(Clone, Copy, PartialEq, Eq, Debug)]
pub struct TxHeader {
    /// Data length code.
    pub dlc: u8,
    /// Message marker, copied into the event that confirms the transmission.
    pub mm: u8,
    /// Event FIFO control: whether an event confirms the transmission.
    pub efc: bool,
}

/// An element of a receive FIFO.
#[derive(Clone, Copy, PartialEq, Eq, Debug)]
pub struct RxBufferElement {
    pub hdr: MsgHeader,
    pub rxhdr: RxHeader,
    pub data: [u8; 8],
}

/// An element of the transmit FIFO.
#[derive(Clone, Copy, PartialEq, Eq, Debug)]
pub struct TxBufferElement {
    pub hdr: MsgHeader,
    pub txhdr: TxHeader,
    pub data: [u8; 8],
}

/// An element of the transmit event FIFO.
#[derive(Clone, Copy, PartialEq, Eq, Debug)]
pub struct TxEvent {
    /// Message marker of the transmitted element.
    pub mm: u8,
}

/// One number for each region of message RAM.
#[derive(Clone, Copy, PartialEq, Eq, Debug)]
pub struct Regions {
    /// Filters for standard identifiers.
    pub filters: usize,
    /// Filters for extended identifiers.
    pub extended_filters: usize,
    pub rxfifo0: usize,
    pub rxfifo1: usize,
    pub rxbuffers: usize,
    pub txevents: usize,
    pub txfifo: usize,
}

/// How message RAM is divided.
#[derive(Clone, Copy, PartialEq, Eq, Debug)]
pub struct McanMessageRAM {
    /// Number of elements in each region.
    pub sizes: Regions,
    /// Where each region starts.
    pub offsets: Regions,
}

} // verus!
