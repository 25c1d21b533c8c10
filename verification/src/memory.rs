//! Register addresses of the transceiver IC.

use vstd::prelude::*;

verus! {

/// Configuration register (power-up, primary-RX, CRC bits).
pub const CONFIG: u8 = 0x00;

/// RF channel register.
pub const RF_CH: u8 = 0x05;

/// Status register (RX-data-ready, TX-done, max-retries bits).
pub const STATUS: u8 = 0x07;

/// RX address of pipe 0 (mirrors the TX address for auto-acknowledge).
pub const RX_ADDR_P0: u8 = 0x0A;

/// RX address of pipe 1 (the receive address proper).
pub const RX_ADDR_P1: u8 = 0x0B;

/// TX address register.
pub const TX_ADDR: u8 = 0x10;

/// Payload width of pipe 0.
pub const RX_PW_P0: u8 = 0x11;

/// Payload width of pipe 1.
pub const RX_PW_P1: u8 = 0x12;

/// FIFO status register (RX-empty bit).
pub const FIFO_STATUS: u8 = 0x17;

/// Number of register addresses the device decodes.
pub const REGISTER_COUNT: u8 = 0x18;

} // verus!
