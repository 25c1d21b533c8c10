//! Builder for the radio driver: collects the mandatory hardware
//! dependencies and the optional radio parameters through chained calls,
//! validates presence of the dependencies, then programs the device.
//!
//! The bus, chip-select, chip-enable and delay source are required;
//! channel, payload size and the two addresses fall back to defaults
//! (channel 1, payload size 32, five zero bytes for each address).

use vstd::prelude::*;

use crate::device::{dev_wf, zeros};
use crate::driver::{zero_vec, Nrf24l01, PowerState, RX_CONFIG};
use crate::error::BuilderError;
use crate::memory;
use crate::sim::{allows, SimPin, SimSpi, SimTimer};

verus! {

/// Collects the driver's dependencies and parameters before `build`
/// validates them and produces a configured `Nrf24l01`.
pub struct Nrf24l01Bulider {
    pub spi: Option<SimSpi>,
    pub csn: Option<SimPin>,
    pub ce: Option<SimPin>,
    pub timer: Option<SimTimer>,
    pub rx_address: Option<Vec<u8>>,
    pub tx_address: Option<Vec<u8>>,
    pub channel: Option<u8>,
    pub payload_size: Option<u8>,
}

/// The channel `build` programs: the caller's, or the default of 1.
pub open spec fn picked_channel(b: Nrf24l01Bulider) -> u8 {
    match b.channel {
        Option::Some(c) => c,
        Option::None => 1u8,
    }
}

/// The payload size `build` programs: the caller's, or the default of 32.
pub open spec fn picked_payload_size(b: Nrf24l01Bulider) -> u8 {
    match b.payload_size {
        Option::Some(p) => p,
        Option::None => 32u8,
    }
}

/// The receive address `build` programs: the caller's, or five zeros.
pub open spec fn picked_rx_address(b: Nrf24l01Bulider) -> Seq<u8> {
    match b.rx_address {
        Option::Some(a) => a@,
        Option::None => zeros(5),
    }
}

/// The transmit address `build` programs: the caller's, or five zeros.
pub open spec fn picked_tx_address(b: Nrf24l01Bulider) -> Seq<u8> {
    match b.tx_address {
        Option::Some(a) => a@,
        Option::None => zeros(5),
    }
}

impl Default for Nrf24l01Bulider {
    /// A builder with nothing supplied yet.
    fn default() -> (r: Self)
        ensures
            r.spi is None,
            r.csn is None,
            r.ce is None,
            r.timer is None,
            r.rx_address is None,
            r.tx_address is None,
            r.channel is None,
            r.payload_size is None,
    {
        Nrf24l01Bulider {
            spi: Option::None,
            csn: Option::None,
            ce: Option::None,
            timer: Option::None,
            rx_address: Option::None,
            tx_address: Option::None,
            channel: Option::None,
            payload_size: Option::None,
        }
    }
}

impl Nrf24l01Bulider {
    /// Validity of what has been supplied so far: a supplied bus carries
    /// a well-formed idle device, and supplied addresses are five bytes.
    pub open spec fn wf(&self) -> bool {
        &&& (self.spi matches Some(s) ==> dev_wf(s.dev@) && s.dev@.pending is Idle)
        &&& (self.rx_address matches Some(a) ==> a@.len() == 5)
        &&& (self.tx_address matches Some(a) ==> a@.len() == 5)
    }

    /// A builder with nothing supplied yet.
    pub fn new() -> (r: Self)
        ensures
            r.spi is None,
            r.csn is None,
            r.ce is None,
            r.timer is None,
            r.rx_address is None,
            r.tx_address is None,
            r.channel is None,
            r.payload_size is None,
    {
        Self::default()
    }

    /// Supply the SPI bus.
    pub fn spi(self, spi: SimSpi) -> (r: Self)
        ensures
            r == (Nrf24l01Bulider { spi: Option::Some(spi), ..self }),
    {
        Nrf24l01Bulider { spi: Option::Some(spi), ..self }
    }

    /// Supply the chip-select line.
    pub fn csn(self, csn: SimPin) -> (r: Self)
        ensures
            r == (Nrf24l01Bulider { csn: Option::Some(csn), ..self }),
    {
        Nrf24l01Bulider { csn: Option::Some(csn), ..self }
    }

    /// Supply the chip-enable line.
    pub fn ce(self, ce: SimPin) -> (r: Self)
        ensures
            r == (Nrf24l01Bulider { ce: Option::Some(ce), ..self }),
    {
        Nrf24l01Bulider { ce: Option::Some(ce), ..self }
    }

    /// Supply the delay source.
    pub fn timer(self, timer: SimTimer) -> (r: Self)
        ensures
            r == (Nrf24l01Bulider { timer: Option::Some(timer), ..self }),
    {
        Nrf24l01Bulider { timer: Option::Some(timer), ..self }
    }

    /// Choose the RF channel.
    pub fn channel(self, channel: u8) -> (r: Self)
        ensures
            r == (Nrf24l01Bulider { channel: Option::Some(channel), ..self }),
    {
        Nrf24l01Bulider { channel: Option::Some(channel), ..self }
    }

    /// Choose the payload size used for both receive pipes.
    pub fn payload_size(self, payload_size: u8) -> (r: Self)
        ensures
            r == (Nrf24l01Bulider { payload_size: Option::Some(payload_size), ..self }),
    {
        Nrf24l01Bulider { payload_size: Option::Some(payload_size), ..self }
    }

    /// Choose the five-byte receive address.
    pub fn rx_address(self, addr: Vec<u8>) -> (r: Self)
        requires
            addr@.len() == 5,
        ensures
            r == (Nrf24l01Bulider { rx_address: Option::Some(addr), ..self }),
    {
        Nrf24l01Bulider { rx_address: Option::Some(addr), ..self }
    }

    /// Choose the five-byte transmit address.
    pub fn tx_address(self, addr: Vec<u8>) -> (r: Self)
        requires
            addr@.len() == 5,
        ensures
            r == (Nrf24l01Bulider { tx_address: Option::Some(addr), ..self }),
    {
        Nrf24l01Bulider { tx_address: Option::Some(addr), ..self }
    }

    /// Validate that the bus, chip-select, chip-enable and delay source
    /// were supplied — checked in that priority order — then program the
    /// addresses and configuration on the device.  Any protocol failure
    /// during that sequence surfaces as `BuilderError::Other`.
    pub fn build(self) -> (r: Result<Nrf24l01, BuilderError>)
        requires
            self.wf(),
        ensures
            (r == Err::<Nrf24l01, BuilderError>(BuilderError::SpiNotSpecified) <==> self.spi
                is None),
            (r == Err::<Nrf24l01, BuilderError>(BuilderError::CsnNotSpecified) <==> self.spi
                is Some && self.csn is None),
            (r == Err::<Nrf24l01, BuilderError>(BuilderError::CeNotSpecified) <==> self.spi
                is Some && self.csn is Some && self.ce is None),
            (r == Err::<Nrf24l01, BuilderError>(BuilderError::TimerNotSpecified) <==> self.spi
                is Some && self.csn is Some && self.ce is Some && self.timer is None),
            (self.spi is Some && self.csn is Some && self.ce is Some && self.timer is Some) ==> ({
                &&& (r is Ok <==> !self.csn.unwrap().broken && !self.ce.unwrap().broken && allows(
                    self.spi.unwrap().budget,
                    23,
                ))
                &&& (r is Err ==> r == Err::<Nrf24l01, BuilderError>(BuilderError::Other))
            }),
            r matches Ok(nrf) ==> ({
                let d1 = nrf.spi.dev@;
                &&& nrf.wf()
                &&& nrf.channel == picked_channel(self)
                &&& nrf.payload_size == picked_payload_size(self)
                &&& nrf.rx_address@ == picked_rx_address(self)
                &&& nrf.tx_address@ == picked_tx_address(self)
                &&& d1.regs[memory::RX_ADDR_P1 as int] == picked_rx_address(self)
                &&& d1.regs[memory::RX_ADDR_P0 as int] == picked_tx_address(self)
                &&& d1.regs[memory::TX_ADDR as int] == picked_tx_address(self)
                &&& d1.regs[memory::RF_CH as int] == seq![picked_channel(self)]
                &&& d1.regs[memory::RX_PW_P0 as int] == seq![picked_payload_size(self)]
                &&& d1.regs[memory::RX_PW_P1 as int] == seq![picked_payload_size(self)]
                &&& d1.regs[memory::CONFIG as int] == seq![RX_CONFIG]
                &&& d1.rx_fifo == Seq::<u8>::empty()
                &&& nrf.power_state == PowerState::ReceiveIdle
                &&& nrf.ce.level == true
                &&& nrf.csn.level == true
            }),
    {
        let spi = match self.spi {
            Option::Some(s) => s,
            Option::None => {
                return Err(BuilderError::SpiNotSpecified);
            },
        };
        let csn = match self.csn {
            Option::Some(p) => p,
            Option::None => {
                return Err(BuilderError::CsnNotSpecified);
            },
        };
        let ce = match self.ce {
            Option::Some(p) => p,
            Option::None => {
                return Err(BuilderError::CeNotSpecified);
            },
        };
        let timer = match self.timer {
            Option::Some(t) => t,
            Option::None => {
                return Err(BuilderError::TimerNotSpecified);
            },
        };
        let channel = match self.channel {
            Option::Some(c) => c,
            Option::None => 1,
        };
        let payload_size = match self.payload_size {
            Option::Some(p) => p,
            Option::None => 32,
        };
        let ghost b0 = spi.budget;
        proof {
            crate::driver::lemma_budget_chain_build(b0);
        }
        let mut nrf = Nrf24l01 {
            spi,
            csn,
            ce,
            timer,
            channel,
            payload_size,
            rx_address: zero_vec(5),
            tx_address: zero_vec(5),
            power_state: PowerState::PoweredDown,
        };
        let raddr = match self.rx_address {
            Option::Some(a) => a,
            Option::None => zero_vec(5),
        };
        match nrf.set_rxaddr(&raddr) {
            Ok(()) => {},
            Err(_) => {
                return Err(BuilderError::Other);
            },
        }
        let taddr = match self.tx_address {
            Option::Some(a) => a,
            Option::None => zero_vec(5),
        };
        match nrf.set_txaddr(&taddr) {
            Ok(()) => {},
            Err(_) => {
                return Err(BuilderError::Other);
            },
        }
        match nrf.config() {
            Ok(()) => {},
            Err(_) => {
                return Err(BuilderError::Other);
            },
        }
        Ok(nrf)
    }
}

} // verus!
