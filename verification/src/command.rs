//! SPI command bytes of the transceiver IC.

use vstd::prelude::*;

verus! {

/// Read a register: command is `R_REGISTER | (REGISTER_MASK & addr)`.
pub const R_REGISTER: u8 = 0x00;

/// Write a register: command is `W_REGISTER | (REGISTER_MASK & addr)`.
pub const W_REGISTER: u8 = 0x20;

/// Mask applied to a register address inside a read/write command byte.
pub const REGISTER_MASK: u8 = 0x1F;

/// Read the payload at the head of the RX FIFO.
pub const R_RX_PAYLOAD: u8 = 0x61;

/// Append a payload to the TX FIFO.
pub const W_TX_PAYLOAD: u8 = 0xA0;

/// Discard everything queued in the TX FIFO.
pub const FLUSH_TX: u8 = 0xE1;

/// Discard everything queued in the RX FIFO.
pub const FLUSH_RX: u8 = 0xE2;

} // verus!
