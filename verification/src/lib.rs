//! Blocking driver logic for the MCAN (CAN controller) peripheral of MSPM0
//! microcontrollers.
//!
//! Everything the driver decides is here: how a frame is laid out in message
//! RAM, which registers are written with which values and in which order, how
//! long a register is polled, and what an error register means. The accesses
//! themselves are made by the caller: an operation names the next register to
//! read, is handed what was read, and answers with the commands to perform.

pub mod can;
pub mod config;
pub mod frame;
pub mod guarded;
pub mod id;
pub mod init;
pub mod io;
pub mod msgram;
pub mod pins;
pub mod poweron;
pub mod recovery;
pub mod rx;
pub mod setup;
pub mod status;
pub mod tx;
