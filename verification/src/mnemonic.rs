//! Bit positions inside the transceiver's registers.

use vstd::prelude::*;

verus! {

/// CONFIG: primary-RX mode select.
pub const PRIM_RX: u8 = 0;

/// CONFIG: power up.
pub const PWR_UP: u8 = 1;

/// STATUS: maximum retransmit count reached.
pub const MAX_RT: u8 = 4;

/// STATUS: data sent on the TX side.
pub const TX_DS: u8 = 5;

/// STATUS: data ready in the RX FIFO.
pub const RX_DR: u8 = 6;

/// FIFO_STATUS: RX FIFO empty.
pub const RX_EMPTY: u8 = 1;

} // verus!
