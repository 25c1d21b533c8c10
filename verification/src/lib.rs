//! Driver core for an nRF24L01-family 2.4 GHz radio transceiver.
//!
//! The driver speaks the IC's register/command wire protocol over a byte
//! bus plus two GPIO lines (chip-select and chip-enable) and tracks the
//! device's power/mode state machine.  All bus traffic goes through a
//! composable multi-operation transaction primitive.  The hardware side is
//! represented by a simulated bus wired to a register-level model of the
//! transceiver, so every driver operation is specified and proved against
//! the bytes it puts on the wire and the register state they produce.

use vstd::prelude::*;

pub mod bridge;
pub mod builder;
pub mod cmt2300a;
pub mod command;
pub mod device;
pub mod driver;
pub mod error;
pub mod memory;
pub mod mnemonic;
pub mod operation;
pub mod sim;

verus! {

/// Base value of the CONFIG register: CRC enabled, PRIM_RX clear.
pub const MIRF_CONFIG: u8 = (1 << 3) | (0 << 2);

/// Length in bytes of the RX/TX pipe addresses.
pub const MIRF_ADDR_LEN: u8 = 5;

} // verus!
