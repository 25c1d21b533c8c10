//! The radio driver proper: validated construction state, the
//! register/command protocol layer, the power/mode state machine, and the
//! SPI transaction arbiter.

use vstd::prelude::*;

use crate::command;
use crate::device::{
    dev_wf, reg_width, spec_end_frame, spliced, zeros, DevModel, Pending,
};
use crate::error::Error;
use crate::memory;
use crate::mnemonic;
use crate::operation::{
    apply_op, delay_total, io_ops, lemma_run_ops_snoc, run_ops, OpModel,
    Operation,
};
use crate::sim::{allows, spend, spend_n, SimPin, SimSpi, SimTimer};
use crate::MIRF_CONFIG;

verus! {

/// CONFIG value while in receive mode: powered up, primary RX.
pub const RX_CONFIG: u8 = MIRF_CONFIG | (1 << mnemonic::PWR_UP) | (1 << mnemonic::PRIM_RX);

/// CONFIG value while in transmit mode: powered up, primary RX clear.
pub const TX_CONFIG: u8 = MIRF_CONFIG | (1 << mnemonic::PWR_UP);

/// STATUS bits that report a finished transmission: TX-done or
/// max-retries.
pub const TX_OVER_MASK: u8 = (1 << mnemonic::TX_DS) | (1 << mnemonic::MAX_RT);

/// How often `send` polls for the completion of a still-running
/// transmission before giving up.
pub const MAX_TX_POLLS: usize = 10;

/// Nanoseconds `send` waits between two completion polls.
pub const TX_POLL_DELAY_NS: u32 = 100000;

/// Power/mode state the driver tracks for the device.
#[derive(Clone, Copy, Debug, PartialEq, Eq, Structural)]
pub enum PowerState {
    PoweredDown,
    ReceiveIdle,
    ReceiveActive,
    TransmitActive,
}

/// The transceiver driver, wired to the simulated bus, chip-select and
/// chip-enable lines, and delay source.
pub struct Nrf24l01 {
    pub spi: SimSpi,
    pub csn: SimPin,
    pub ce: SimPin,
    pub timer: SimTimer,
    pub channel: u8,
    pub payload_size: u8,
    pub rx_address: Vec<u8>,
    pub tx_address: Vec<u8>,
    pub power_state: PowerState,
}

/// The radio parameters of `a` and `b` agree.
pub open spec fn cfg_unchanged(a: Nrf24l01, b: Nrf24l01) -> bool {
    &&& a.channel == b.channel
    &&& a.payload_size == b.payload_size
    &&& a.rx_address@ == b.rx_address@
    &&& a.tx_address@ == b.tx_address@
}

/// A vector of `n` zero bytes.
pub(crate) fn zero_vec(n: usize) -> (v: Vec<u8>)
    ensures
        v@ == zeros(n as nat),
{
    let mut v: Vec<u8> = Vec::new();
    let mut i: usize = 0;
    while i < n
        invariant
            i <= n,
            v@ == zeros(i as nat),
        decreases n - i,
    {
        v.push(0u8);
        assert(v@ =~= zeros(i as nat + 1));
        i = i + 1;
    }
    v
}

/// A fresh vector with the same bytes as `v`.
fn copy_bytes(v: &Vec<u8>) -> (r: Vec<u8>)
    ensures
        r@ == v@,
{
    let mut r: Vec<u8> = Vec::new();
    let mut i: usize = 0;
    while i < v.len()
        invariant
            i <= v.len(),
            r@ == v@.take(i as int),
        decreases v.len() - i,
    {
        r.push(v[i]);
        assert(r@ =~= v@.take(i as int + 1));
        i = i + 1;
    }
    assert(v@.take(v@.len() as int) =~= v@);
    r
}

impl Nrf24l01 {
    /// Well-formedness between operations: the device model has its
    /// register file, its decoder is idle, and the configured addresses
    /// are five bytes long.
    pub open spec fn wf(&self) -> bool {
        &&& dev_wf(self.spi.dev@)
        &&& self.spi.dev@.pending is Idle
        &&& self.rx_address@.len() == 5
        &&& self.tx_address@.len() == 5
    }

    /// Create a driver instance directly, bypassing the builder's
    /// dependency validation.  Raises both GPIO lines; the device is not
    /// configured yet.
    pub fn new(
        spi: SimSpi,
        csn: SimPin,
        ce: SimPin,
        timer: SimTimer,
        channel: u8,
        payload_size: u8,
    ) -> (r: Result<Nrf24l01, Error>)
        requires
            dev_wf(spi.dev@),
            spi.dev@.pending is Idle,
        ensures
            r is Ok <==> !ce.broken && !csn.broken,
            r matches Ok(n) ==> ({
                &&& n.wf()
                &&& n.spi == spi
                &&& n.csn.level == true && n.csn.broken == csn.broken
                &&& n.ce.level == true && n.ce.broken == ce.broken
                &&& n.timer == timer
                &&& n.channel == channel
                &&& n.payload_size == payload_size
                &&& n.rx_address@ == zeros(5)
                &&& n.tx_address@ == zeros(5)
                &&& n.power_state == PowerState::PoweredDown
            }),
            r is Err ==> r == Err::<Nrf24l01, Error>(Error::Gpio),
    {
        let mut nrf = Nrf24l01 {
            spi,
            csn,
            ce,
            timer,
            channel,
            payload_size,
            rx_address: zero_vec(5),
            tx_address: zero_vec(5),
            power_state: PowerState::PoweredDown,
        };
        if nrf.ce.set_high().is_err() {
            return Err(Error::Gpio);
        }
        if nrf.csn.set_high().is_err() {
            return Err(Error::Gpio);
        }
        Ok(nrf)
    }

    /// Execute an ordered batch of operations as one atomic chip-select
    /// bracket: select, run each operation in order, flush the bus, and
    /// deselect on every exit path.  The first failing operation aborts
    /// the rest of the batch; on success the response buffer of each
    /// operation is returned.
    pub fn transaction(&mut self, ops: &Vec<Operation>) -> (r: Result<Vec<Vec<u8>>, Error>)
        requires
            old(self).wf(),
        ensures
            final(self).wf(),
            cfg_unchanged(*old(self), *final(self)),
            final(self).power_state == old(self).power_state,
            final(self).ce == old(self).ce,
            final(self).csn.broken == old(self).csn.broken,
            (forall|j: int| 0 <= j < ops.deep_view().len() ==> !((#[trigger] ops.deep_view()[j]) is Delay))
                ==> final(self).timer == old(self).timer,
            match r {
                Ok(resps) => {
                    &&& !old(self).csn.broken
                    &&& allows(old(self).spi.budget, io_ops(ops.deep_view()) + 1)
                    &&& final(self).spi.dev@ == spec_end_frame(
                        run_ops(old(self).spi.dev@, ops.deep_view()).0,
                    )
                    &&& resps.deep_view() == run_ops(old(self).spi.dev@, ops.deep_view()).1
                    &&& final(self).spi.budget == spend_n(
                        old(self).spi.budget,
                        io_ops(ops.deep_view()) + 1,
                    )
                    &&& final(self).csn.level == true
                    &&& final(self).timer.elapsed_ns == delay_total(
                        old(self).timer.elapsed_ns,
                        ops.deep_view(),
                    )
                },
                Err(e) => {
                    &&& (old(self).csn.broken ==> e is Gpio && *final(self) == *old(self))
                    &&& (!old(self).csn.broken ==> {
                        &&& e is Spi
                        &&& !allows(old(self).spi.budget, io_ops(ops.deep_view()) + 1)
                        &&& final(self).csn.level == true
                        &&& exists|k: int|
                            0 <= k <= ops.deep_view().len() && final(self).spi.dev@
                                == spec_end_frame(
                                run_ops(old(self).spi.dev@, ops.deep_view().take(k)).0,
                            )
                    })
                },
            },
    {
        let ghost om = ops.deep_view();
        let ghost d0 = self.spi.dev@;
        let ghost b0 = self.spi.budget;
        let ghost e0 = self.timer.elapsed_ns;
        let ghost self0 = *self;
        if self.csn.set_low().is_err() {
            return Err(Error::Gpio);
        }
        assert(om.skip(0) =~= om);
        assert(om.take(0) =~= Seq::<OpModel>::empty());
        let mut resps: Vec<Vec<u8>> = Vec::new();
        assert(resps.deep_view() =~= Seq::<Seq<u8>>::empty());
        let mut fail: Option<Error> = None;
        let mut i: usize = 0;
        while i < ops.len() && fail.is_none()
            invariant
                i <= ops.len(),
                om == ops.deep_view(),
                om.len() == ops@.len(),
                dev_wf(self.spi.dev@),
                self.csn.broken == false,
                self.csn.level == false,
                self.ce == self0.ce,
                self.power_state == self0.power_state,
                self.channel == self0.channel,
                self.payload_size == self0.payload_size,
                self.rx_address == self0.rx_address,
                self.tx_address == self0.tx_address,
                (forall|j: int| 0 <= j < om.len() ==> !((#[trigger] om[j]) is Delay))
                    ==> self.timer == self0.timer,
                fail is None ==> {
                    &&& self.spi.dev@ == run_ops(d0, om.take(i as int)).0
                    &&& resps.deep_view() == run_ops(d0, om.take(i as int)).1
                    &&& spend_n(b0, io_ops(om) + 1) == spend_n(
                        self.spi.budget,
                        io_ops(om.skip(i as int)) + 1,
                    )
                    &&& (allows(b0, io_ops(om) + 1) <==> allows(
                        self.spi.budget,
                        io_ops(om.skip(i as int)) + 1,
                    ))
                    &&& delay_total(e0, om) == delay_total(
                        self.timer.elapsed_ns,
                        om.skip(i as int),
                    )
                },
                fail matches Some(e) ==> {
                    &&& e is Spi
                    &&& !allows(b0, io_ops(om) + 1)
                    &&& exists|k: int|
                        0 <= k <= om.len() && self.spi.dev@ == run_ops(d0, om.take(k)).0
                },
            decreases ops.len() - i,
        {
            let ghost dev_before = self.spi.dev@;
            assert(om[i as int] == ops@[i as int]@);
            assert(om.skip(i as int).first() == om[i as int]);
            assert(om.skip(i as int).drop_first() =~= om.skip(i as int + 1));
            proof {
                lemma_run_ops_snoc(d0, om.take(i as int), om[i as int]);
                assert(om.take(i as int).push(om[i as int]) =~= om.take(i as int + 1));
            }
            let ghost resps_before = resps.deep_view();
            match &ops[i] {
                Operation::Read(n) => {
                    let mut buf = zero_vec(*n);
                    match self.spi.read(&mut buf) {
                        Ok(()) => {
                            resps.push(buf);
                            assert(resps.deep_view() =~~= resps_before.push(
                                apply_op(dev_before, om[i as int]).1,
                            ));
                        },
                        Err(()) => {
                            fail = Some(Error::Spi("read error"));
                        },
                    }
                },
                Operation::Write(w) => {
                    match self.spi.write(w) {
                        Ok(()) => {
                            resps.push(Vec::new());
                            assert(resps.deep_view() =~~= resps_before.push(
                                apply_op(dev_before, om[i as int]).1,
                            ));
                        },
                        Err(()) => {
                            fail = Some(Error::Spi("write error"));
                        },
                    }
                },
                Operation::Transfer(w) => {
                    match self.spi.transfer(w) {
                        Ok(input) => {
                            resps.push(input);
                            assert(resps.deep_view() =~~= resps_before.push(
                                apply_op(dev_before, om[i as int]).1,
                            ));
                        },
                        Err(()) => {
                            fail = Some(Error::Spi("transfer error"));
                        },
                    }
                },
                Operation::TransferInPlace(w) => {
                    let mut buf = copy_bytes(w);
                    match self.spi.transfer_in_place(&mut buf) {
                        Ok(()) => {
                            resps.push(buf);
                            assert(resps.deep_view() =~~= resps_before.push(
                                apply_op(dev_before, om[i as int]).1,
                            ));
                        },
                        Err(()) => {
                            fail = Some(Error::Spi("transfer in place error"));
                        },
                    }
                },
                Operation::Delay(t) => {
                    self.timer.delay_ns(*t);
                    resps.push(Vec::new());
                    assert(resps.deep_view() =~~= resps_before.push(
                        apply_op(dev_before, om[i as int]).1,
                    ));
                },
            }
            i = i + 1;
        }
        let ghost bpre = self.spi.budget;
        let flushed = self.spi.flush();
        match fail {
            Some(e) => {
                let set_high_r = self.csn.set_high();
                assert(set_high_r is Ok);
                Err(e)
            },
            None => {
                assert(om.skip(i as int) =~= Seq::<OpModel>::empty());
                assert(om.take(i as int) =~= om);
                match flushed {
                    Err(()) => {
                        let set_high_r = self.csn.set_high();
                        assert(set_high_r is Ok);
                        assert(exists|k: int|
                            0 <= k <= om.len() && self.spi.dev@ == spec_end_frame(
                                run_ops(d0, om.take(k)).0,
                            )) by {
                            assert(self.spi.dev@ == spec_end_frame(
                                run_ops(d0, om.take(om.len() as int)).0,
                            ));
                        }
                        Err(Error::Spi("flush error"))
                    },
                    Ok(()) => {
                        let set_high_r = self.csn.set_high();
                        assert(set_high_r is Ok);
                        proof {
                            assert(io_ops(om.skip(i as int)) == 0);
                            assert(spend_n(spend(bpre), 0) == spend(bpre));
                            assert(spend_n(bpre, 1) == spend(bpre));
                        }
                        Ok(resps)
                    },
                }
            },
        }
    }
    /// One chip-select bracket that sends a write command byte for
    /// register `a` followed by the value bytes.
    fn reg_write_frame(&mut self, a: u8, data: &Vec<u8>) -> (r: Result<(), Error>)
        requires
            old(self).wf(),
            a < memory::REGISTER_COUNT,
        ensures
            final(self).wf(),
            cfg_unchanged(*old(self), *final(self)),
            final(self).power_state == old(self).power_state,
            final(self).ce == old(self).ce,
            final(self).csn.broken == old(self).csn.broken,
            final(self).timer == old(self).timer,
            final(self).spi.dev@.rx_fifo == old(self).spi.dev@.rx_fifo,
            final(self).spi.dev@.tx_fifo == old(self).spi.dev@.tx_fifo,
            r is Ok <==> !old(self).csn.broken && allows(old(self).spi.budget, 3),
            r is Ok ==> ({
                let d0 = old(self).spi.dev@;
                &&& final(self).spi.dev@.regs == d0.regs.update(
                    a as int,
                    spliced(d0.regs[a as int], 0, data@),
                )
                &&& final(self).spi.dev@.log == d0.log + seq![(command::W_REGISTER | a)] + data@
                &&& final(self).spi.budget == spend_n(old(self).spi.budget, 3)
                &&& final(self).csn.level == true
            }),
            r matches Err(e) ==> ({
                &&& (e is Spi || e is Gpio)
                &&& (final(self).spi.dev@.regs == old(self).spi.dev@.regs
                    || final(self).spi.dev@.regs == old(self).spi.dev@.regs.update(
                    a as int,
                    spliced(old(self).spi.dev@.regs[a as int], 0, data@),
                ))
            }),
    {
        let cmd = command::W_REGISTER | a;
        let mut cb: Vec<u8> = Vec::new();
        cb.push(cmd);
        assert(cb@ =~= seq![cmd]);
        let mut ops: Vec<Operation> = Vec::new();
        ops.push(Operation::Write(cb));
        ops.push(Operation::Write(copy_bytes(data)));
        let ghost s = seq![OpModel::Write(seq![cmd]), OpModel::Write(data@)];
        proof {
            assert(ops.deep_view() =~= s);
        }
        let ghost d0 = self.spi.dev@;
        proof {
            reg_frame_facts(d0, a, data@);
        }
        let r = self.transaction(&ops);
        match r {
            Ok(_) => Ok(()),
            Err(e) => {
                proof {
                    if !old(self).csn.broken {
                        let k = choose|k: int|
                            0 <= k <= s.len() && self.spi.dev@ == spec_end_frame(
                                run_ops(d0, s.take(k)).0,
                            );
                        reg_frame_prefixes(d0, a, data@, k);
                    }
                }
                Err(e)
            },
        }
    }

    /// One chip-select bracket that sends a read command byte for
    /// register `a` and reads one byte back.
    fn reg_read_frame(&mut self, a: u8) -> (r: Result<u8, Error>)
        requires
            old(self).wf(),
            a < memory::REGISTER_COUNT,
        ensures
            final(self).wf(),
            cfg_unchanged(*old(self), *final(self)),
            final(self).power_state == old(self).power_state,
            final(self).ce == old(self).ce,
            final(self).csn.broken == old(self).csn.broken,
            final(self).timer == old(self).timer,
            final(self).spi.dev@.regs == old(self).spi.dev@.regs,
            final(self).spi.dev@.rx_fifo == old(self).spi.dev@.rx_fifo,
            final(self).spi.dev@.tx_fifo == old(self).spi.dev@.tx_fifo,
            r is Ok <==> !old(self).csn.broken && allows(old(self).spi.budget, 3),
            r matches Ok(v) ==> ({
                let d0 = old(self).spi.dev@;
                &&& v == crate::device::reg_byte(d0, a as int)
                &&& final(self).spi.dev@.log == d0.log + seq![(command::R_REGISTER | a)]
                &&& final(self).spi.budget == spend_n(old(self).spi.budget, 3)
                &&& final(self).csn.level == true
            }),
            r matches Err(e) ==> (e is Spi || e is Gpio),
    {
        let cmd = command::R_REGISTER | a;
        let mut cb: Vec<u8> = Vec::new();
        cb.push(cmd);
        assert(cb@ =~= seq![cmd]);
        let mut ops: Vec<Operation> = Vec::new();
        ops.push(Operation::Write(cb));
        ops.push(Operation::Read(1));
        let ghost s = seq![OpModel::Write(seq![cmd]), OpModel::Read(1nat)];
        proof {
            assert(ops.deep_view() =~= s);
        }
        let ghost d0 = self.spi.dev@;
        proof {
            read_frame_facts(d0, a);
        }
        let r = self.transaction(&ops);
        match r {
            Ok(resps) => {
                assert(resps.deep_view().len() == 2);
                assert(resps@.len() == 2);
                assert(resps@[1].deep_view().len() == 1);
                let row = &resps[1];
                let v = row[0];
                assert(v == resps.deep_view()[1][0]);
                Ok(v)
            },
            Err(e) => {
                proof {
                    if !old(self).csn.broken {
                        let k = choose|k: int|
                            0 <= k <= s.len() && self.spi.dev@ == spec_end_frame(
                                run_ops(d0, s.take(k)).0,
                            );
                        read_frame_prefixes(d0, a, k);
                    }
                }
                Err(e)
            },
        }
    }

    /// Write the value bytes into the register at the (masked) address.
    /// Used both for multi-byte fields such as addresses and for
    /// single-byte fields.
    pub fn write_register(&mut self, register: u8, value: &Vec<u8>) -> (r: Result<(), Error>)
        requires
            old(self).wf(),
            register & command::REGISTER_MASK < memory::REGISTER_COUNT,
        ensures
            final(self).wf(),
            cfg_unchanged(*old(self), *final(self)),
            final(self).power_state == old(self).power_state,
            final(self).ce == old(self).ce,
            final(self).csn.broken == old(self).csn.broken,
            final(self).timer == old(self).timer,
            final(self).spi.dev@.rx_fifo == old(self).spi.dev@.rx_fifo,
            final(self).spi.dev@.tx_fifo == old(self).spi.dev@.tx_fifo,
            r is Ok <==> !old(self).csn.broken && allows(old(self).spi.budget, 3),
            r is Ok ==> ({
                let a = (register & command::REGISTER_MASK) as int;
                let d0 = old(self).spi.dev@;
                &&& final(self).spi.dev@.regs == d0.regs.update(a, spliced(d0.regs[a], 0, value@))
                &&& final(self).spi.dev@.log == d0.log + seq![
                    (command::W_REGISTER | (register & command::REGISTER_MASK)),
                ] + value@
                &&& final(self).spi.budget == spend_n(old(self).spi.budget, 3)
                &&& final(self).csn.level == true
            }),
            r matches Err(e) ==> ({
                let a = (register & command::REGISTER_MASK) as int;
                let d0 = old(self).spi.dev@;
                &&& e is IOError
                &&& (final(self).spi.dev@.regs == d0.regs || final(self).spi.dev@.regs
                    == d0.regs.update(a, spliced(d0.regs[a], 0, value@)))
            }),
    {
        let a = register & command::REGISTER_MASK;
        match self.reg_write_frame(a, value) {
            Ok(()) => Ok(()),
            Err(e) => Err(
                match e {
                    Error::Spi(s) => Error::IOError(s),
                    _ => Error::IOError("write error"),
                },
            ),
        }
    }

    /// Read one byte back from the register at the (masked) address.
    pub fn read_register(&mut self, register: u8) -> (r: Result<u8, Error>)
        requires
            old(self).wf(),
            register & command::REGISTER_MASK < memory::REGISTER_COUNT,
        ensures
            final(self).wf(),
            cfg_unchanged(*old(self), *final(self)),
            final(self).power_state == old(self).power_state,
            final(self).ce == old(self).ce,
            final(self).csn.broken == old(self).csn.broken,
            final(self).timer == old(self).timer,
            final(self).spi.dev@.regs == old(self).spi.dev@.regs,
            final(self).spi.dev@.rx_fifo == old(self).spi.dev@.rx_fifo,
            final(self).spi.dev@.tx_fifo == old(self).spi.dev@.tx_fifo,
            r is Ok <==> !old(self).csn.broken && allows(old(self).spi.budget, 3),
            r matches Ok(v) ==> ({
                let d0 = old(self).spi.dev@;
                &&& v == crate::device::reg_byte(d0, (register & command::REGISTER_MASK) as int)
                &&& final(self).spi.dev@.log == d0.log + seq![
                    (command::R_REGISTER | (register & command::REGISTER_MASK)),
                ]
                &&& final(self).spi.budget == spend_n(old(self).spi.budget, 3)
                &&& final(self).csn.level == true
            }),
            r matches Err(e) ==> e is IOError,
    {
        let a = register & command::REGISTER_MASK;
        match self.reg_read_frame(a) {
            Ok(v) => Ok(v),
            Err(e) => Err(
                match e {
                    Error::Spi(s) => Error::IOError(s),
                    _ => Error::IOError("read error"),
                },
            ),
        }
    }

    /// Write one byte into a single-byte configuration register.
    fn config_register(&mut self, register: u8, value: u8) -> (r: Result<(), Error>)
        requires
            old(self).wf(),
            register & command::REGISTER_MASK < memory::REGISTER_COUNT,
            reg_width((register & command::REGISTER_MASK) as int) == 1,
        ensures
            final(self).wf(),
            cfg_unchanged(*old(self), *final(self)),
            final(self).power_state == old(self).power_state,
            final(self).ce == old(self).ce,
            final(self).csn.broken == old(self).csn.broken,
            final(self).timer == old(self).timer,
            final(self).spi.dev@.rx_fifo == old(self).spi.dev@.rx_fifo,
            final(self).spi.dev@.tx_fifo == old(self).spi.dev@.tx_fifo,
            r is Ok <==> !old(self).csn.broken && allows(old(self).spi.budget, 3),
            r is Ok ==> ({
                let a = (register & command::REGISTER_MASK) as int;
                let d0 = old(self).spi.dev@;
                &&& final(self).spi.dev@.regs == d0.regs.update(a, seq![value])
                &&& final(self).spi.dev@.log == d0.log + seq![
                    (command::W_REGISTER | (register & command::REGISTER_MASK)),
                    value,
                ]
                &&& final(self).spi.budget == spend_n(old(self).spi.budget, 3)
                &&& final(self).csn.level == true
            }),
            r matches Err(e) ==> ({
                let a = (register & command::REGISTER_MASK) as int;
                let d0 = old(self).spi.dev@;
                &&& e is IOError
                &&& (final(self).spi.dev@.regs == d0.regs || final(self).spi.dev@.regs
                    == d0.regs.update(a, seq![value]))
            }),
    {
        let mut v: Vec<u8> = Vec::new();
        v.push(value);
        assert(v@ =~= seq![value]);
        let ghost a = (register & command::REGISTER_MASK) as int;
        proof {
            assert(spliced(old(self).spi.dev@.regs[a], 0, seq![value]) =~= seq![value]);
            assert(old(self).spi.dev@.log + seq![(command::W_REGISTER | (register
                & command::REGISTER_MASK))] + seq![value] =~= old(self).spi.dev@.log + seq![
                (command::W_REGISTER | (register & command::REGISTER_MASK)),
                value,
            ]);
        }
        self.write_register(register, &v)
    }

    /// Read the STATUS register.
    pub fn get_status(&mut self) -> (r: Result<u8, Error>)
        requires
            old(self).wf(),
        ensures
            final(self).wf(),
            cfg_unchanged(*old(self), *final(self)),
            final(self).power_state == old(self).power_state,
            final(self).ce == old(self).ce,
            final(self).csn.broken == old(self).csn.broken,
            final(self).timer == old(self).timer,
            final(self).spi.dev@.regs == old(self).spi.dev@.regs,
            final(self).spi.dev@.rx_fifo == old(self).spi.dev@.rx_fifo,
            final(self).spi.dev@.tx_fifo == old(self).spi.dev@.tx_fifo,
            r is Ok <==> !old(self).csn.broken && allows(old(self).spi.budget, 3),
            r matches Ok(v) ==> ({
                &&& v == crate::device::reg_byte(old(self).spi.dev@, memory::STATUS as int)
                &&& final(self).spi.dev@.log == old(self).spi.dev@.log + seq![
                    (command::R_REGISTER | memory::STATUS),
                ]
                &&& final(self).spi.budget == spend_n(old(self).spi.budget, 3)
            }),
            r matches Err(e) ==> e is IOError,
    {
        proof {
            assert(memory::STATUS & command::REGISTER_MASK == memory::STATUS) by (bit_vector);
        }
        let response = self.read_register(memory::STATUS)?;
        Ok(response)
    }

    /// Discard everything queued in the device's RX FIFO.
    pub fn flush_rx(&mut self) -> (r: Result<(), Error>)
        requires
            old(self).wf(),
        ensures
            final(self).wf(),
            cfg_unchanged(*old(self), *final(self)),
            final(self).power_state == old(self).power_state,
            final(self).ce == old(self).ce,
            final(self).csn.broken == old(self).csn.broken,
            final(self).timer == old(self).timer,
            final(self).spi.dev@.regs == old(self).spi.dev@.regs,
            final(self).spi.dev@.tx_fifo == old(self).spi.dev@.tx_fifo,
            r is Ok <==> !old(self).csn.broken && allows(old(self).spi.budget, 2),
            r is Ok ==> ({
                &&& final(self).spi.dev@.rx_fifo == Seq::<u8>::empty()
                &&& final(self).spi.dev@.log == old(self).spi.dev@.log + seq![command::FLUSH_RX]
                &&& final(self).spi.budget == spend_n(old(self).spi.budget, 2)
                &&& final(self).csn.level == true
            }),
            r is Err ==> r == Err::<(), Error>(Error::Spi("write err"))
                && (final(self).spi.dev@.rx_fifo == old(self).spi.dev@.rx_fifo
                || final(self).spi.dev@.rx_fifo == Seq::<u8>::empty()),
    {
        let mut cb: Vec<u8> = Vec::new();
        cb.push(command::FLUSH_RX);
        assert(cb@ =~= seq![command::FLUSH_RX]);
        let mut ops: Vec<Operation> = Vec::new();
        ops.push(Operation::Write(cb));
        let ghost s = seq![OpModel::Write(seq![command::FLUSH_RX])];
        proof {
            assert(ops.deep_view() =~= s);
        }
        let ghost d0 = self.spi.dev@;
        proof {
            flush_rx_frame_facts(d0);
        }
        match self.transaction(&ops) {
            Ok(_) => Ok(()),
            Err(e) => {
                proof {
                    if !old(self).csn.broken {
                        let k = choose|k: int|
                            0 <= k <= s.len() && self.spi.dev@ == spec_end_frame(
                                run_ops(d0, s.take(k)).0,
                            );
                        if k == 0 {
                            assert(s.take(0) =~= Seq::<OpModel>::empty());
                            assert(run_ops(d0, s.take(0)).0 == d0);
                        } else {
                            assert(s.take(1) =~= s);
                        }
                    }
                }
                Err(Error::Spi("write err"))
            },
        }
    }

    /// Write the three latched status bits back to clear them, as the
    /// hardware's clear-on-write-one semantics ask.
    pub fn flush_interrupts(&mut self) -> (r: Result<(), Error>)
        requires
            old(self).wf(),
        ensures
            final(self).wf(),
            cfg_unchanged(*old(self), *final(self)),
            final(self).power_state == old(self).power_state,
            final(self).ce == old(self).ce,
            final(self).csn.broken == old(self).csn.broken,
            final(self).timer == old(self).timer,
            final(self).spi.dev@.rx_fifo == old(self).spi.dev@.rx_fifo,
            final(self).spi.dev@.tx_fifo == old(self).spi.dev@.tx_fifo,
            r is Ok <==> !old(self).csn.broken && allows(old(self).spi.budget, 3),
            r is Ok ==> final(self).spi.dev@.regs == old(self).spi.dev@.regs.update(
                memory::STATUS as int,
                seq![((1u8 << mnemonic::RX_DR) | (1u8 << mnemonic::TX_DS) | (1u8
                    << mnemonic::MAX_RT))],
            ),
            r matches Err(e) ==> e is IOError,
    {
        proof {
            assert(memory::STATUS & command::REGISTER_MASK == memory::STATUS) by (bit_vector);
        }
        let mut v: Vec<u8> = Vec::new();
        v.push((1u8 << mnemonic::RX_DR) | (1u8 << mnemonic::TX_DS) | (1u8 << mnemonic::MAX_RT));
        proof {
            assert(v@ =~= seq![((1u8 << mnemonic::RX_DR) | (1u8 << mnemonic::TX_DS) | (1u8
                << mnemonic::MAX_RT))]);
            assert(spliced(old(self).spi.dev@.regs[memory::STATUS as int], 0, v@) =~= v@);
        }
        self.write_register(memory::STATUS, &v)?;
        Ok(())
    }

    /// Program the pipe-1 RX address: the address this radio receives on.
    pub fn set_rxaddr(&mut self, addr: &Vec<u8>) -> (r: Result<(), Error>)
        requires
            old(self).wf(),
            addr@.len() == 5,
        ensures
            final(self).wf(),
            final(self).power_state == old(self).power_state,
            final(self).ce == old(self).ce,
            final(self).csn.broken == old(self).csn.broken,
            final(self).timer == old(self).timer,
            final(self).channel == old(self).channel,
            final(self).payload_size == old(self).payload_size,
            final(self).tx_address@ == old(self).tx_address@,
            final(self).spi.dev@.rx_fifo == old(self).spi.dev@.rx_fifo,
            final(self).spi.dev@.tx_fifo == old(self).spi.dev@.tx_fifo,
            r is Ok <==> !old(self).csn.broken && allows(old(self).spi.budget, 3),
            r is Ok ==> ({
                let d0 = old(self).spi.dev@;
                &&& final(self).spi.dev@.regs == d0.regs.update(memory::RX_ADDR_P1 as int, addr@)
                &&& final(self).rx_address@ == addr@
                &&& final(self).spi.budget == spend_n(old(self).spi.budget, 3)
            }),
            r matches Err(e) ==> ({
                &&& e is IOError
                &&& final(self).rx_address@ == old(self).rx_address@
                &&& (final(self).spi.dev@.regs == old(self).spi.dev@.regs
                    || final(self).spi.dev@.regs == old(self).spi.dev@.regs.update(
                    memory::RX_ADDR_P1 as int,
                    addr@,
                ))
            }),
    {
        proof {
            assert(memory::RX_ADDR_P1 & command::REGISTER_MASK == memory::RX_ADDR_P1)
                by (bit_vector);
            assert(spliced(old(self).spi.dev@.regs[memory::RX_ADDR_P1 as int], 0, addr@) =~= addr@);
        }
        self.write_register(memory::RX_ADDR_P1, addr)?;
        self.rx_address = copy_bytes(addr);
        Ok(())
    }

    /// Program the transmit address: it goes into both the TX-address
    /// register and the pipe-0 RX address, so that the hardware can
    /// receive its own auto-acknowledge packets.
    pub fn set_txaddr(&mut self, addr: &Vec<u8>) -> (r: Result<(), Error>)
        requires
            old(self).wf(),
            addr@.len() == 5,
        ensures
            final(self).wf(),
            final(self).power_state == old(self).power_state,
            final(self).ce == old(self).ce,
            final(self).csn.broken == old(self).csn.broken,
            final(self).timer == old(self).timer,
            final(self).channel == old(self).channel,
            final(self).payload_size == old(self).payload_size,
            final(self).rx_address@ == old(self).rx_address@,
            final(self).spi.dev@.rx_fifo == old(self).spi.dev@.rx_fifo,
            final(self).spi.dev@.tx_fifo == old(self).spi.dev@.tx_fifo,
            r is Ok <==> !old(self).csn.broken && allows(old(self).spi.budget, 6),
            r is Ok ==> ({
                let d0 = old(self).spi.dev@;
                &&& final(self).spi.dev@.regs == d0.regs.update(
                    memory::RX_ADDR_P0 as int,
                    addr@,
                ).update(memory::TX_ADDR as int, addr@)
                &&& final(self).spi.dev@.regs[memory::TX_ADDR as int] == addr@
                &&& final(self).spi.dev@.regs[memory::RX_ADDR_P0 as int] == addr@
                &&& final(self).spi.dev@.regs[memory::RX_ADDR_P1 as int]
                    == d0.regs[memory::RX_ADDR_P1 as int]
                &&& final(self).tx_address@ == addr@
                &&& final(self).spi.budget == spend_n(old(self).spi.budget, 6)
            }),
            r matches Err(e) ==> ({
                let d0 = old(self).spi.dev@;
                &&& e is IOError
                &&& final(self).tx_address@ == old(self).tx_address@
                &&& (final(self).spi.dev@.regs == d0.regs || final(self).spi.dev@.regs
                    == d0.regs.update(memory::RX_ADDR_P0 as int, addr@) || final(self).spi.dev@.regs
                    == d0.regs.update(memory::RX_ADDR_P0 as int, addr@).update(
                    memory::TX_ADDR as int,
                    addr@,
                ))
            }),
    {
        proof {
            assert(memory::RX_ADDR_P0 & command::REGISTER_MASK == memory::RX_ADDR_P0)
                by (bit_vector);
            assert(memory::TX_ADDR & command::REGISTER_MASK == memory::TX_ADDR) by (bit_vector);
            assert(spliced(old(self).spi.dev@.regs[memory::RX_ADDR_P0 as int], 0, addr@) =~= addr@);
            spend_n_adds(old(self).spi.budget, 3, 3);
            allows_spend_n(old(self).spi.budget, 3, 3);
        }
        self.write_register(memory::RX_ADDR_P0, addr)?;
        proof {
            assert(spliced(self.spi.dev@.regs[memory::TX_ADDR as int], 0, addr@) =~= addr@);
        }
        self.write_register(memory::TX_ADDR, addr)?;
        self.tx_address = copy_bytes(addr);
        Ok(())
    }

    /// Put the device in receive mode: CONFIG gets PWR_UP and PRIM_RX.
    /// Coming out of a transmission this lands in `ReceiveActive`; from
    /// power-down it lands in `ReceiveIdle`.  Idempotent in receive mode.
    fn power_up_rx(&mut self) -> (r: Result<(), Error>)
        requires
            old(self).wf(),
        ensures
            final(self).wf(),
            cfg_unchanged(*old(self), *final(self)),
            final(self).ce == old(self).ce,
            final(self).csn.broken == old(self).csn.broken,
            final(self).timer == old(self).timer,
            final(self).spi.dev@.rx_fifo == old(self).spi.dev@.rx_fifo,
            final(self).spi.dev@.tx_fifo == old(self).spi.dev@.tx_fifo,
            r is Ok <==> !old(self).csn.broken && allows(old(self).spi.budget, 3),
            r is Ok ==> ({
                let d0 = old(self).spi.dev@;
                &&& final(self).spi.dev@.regs == d0.regs.update(
                    memory::CONFIG as int,
                    seq![RX_CONFIG],
                )
                &&& final(self).spi.dev@.log == d0.log + seq![
                    (command::W_REGISTER | memory::CONFIG),
                    RX_CONFIG,
                ]
                &&& final(self).spi.budget == spend_n(old(self).spi.budget, 3)
                &&& final(self).csn.level == true
                &&& final(self).power_state == rx_return_state(old(self).power_state)
            }),
            r matches Err(e) ==> ({
                &&& e is IOError
                &&& final(self).power_state == old(self).power_state
                &&& (final(self).spi.dev@.regs == old(self).spi.dev@.regs
                    || final(self).spi.dev@.regs == old(self).spi.dev@.regs.update(
                    memory::CONFIG as int,
                    seq![RX_CONFIG],
                ))
            }),
    {
        proof {
            assert(memory::CONFIG & command::REGISTER_MASK == memory::CONFIG) by (bit_vector);
        }
        self.config_register(memory::CONFIG, RX_CONFIG)?;
        self.power_state = match self.power_state {
            PowerState::TransmitActive => PowerState::ReceiveActive,
            PowerState::PoweredDown => PowerState::ReceiveIdle,
            other => other,
        };
        Ok(())
    }

    /// Put the device in transmit mode: CONFIG gets PWR_UP with PRIM_RX
    /// clear.  A failed configuration write surfaces as `ConfigError`.
    fn power_up_tx(&mut self) -> (r: Result<(), Error>)
        requires
            old(self).wf(),
        ensures
            final(self).wf(),
            cfg_unchanged(*old(self), *final(self)),
            final(self).ce == old(self).ce,
            final(self).csn.broken == old(self).csn.broken,
            final(self).timer == old(self).timer,
            final(self).spi.dev@.rx_fifo == old(self).spi.dev@.rx_fifo,
            final(self).spi.dev@.tx_fifo == old(self).spi.dev@.tx_fifo,
            r is Ok <==> !old(self).csn.broken && allows(old(self).spi.budget, 3),
            r is Ok ==> ({
                let d0 = old(self).spi.dev@;
                &&& final(self).spi.dev@.regs == d0.regs.update(
                    memory::CONFIG as int,
                    seq![TX_CONFIG],
                )
                &&& final(self).spi.dev@.log == d0.log + seq![
                    (command::W_REGISTER | memory::CONFIG),
                    TX_CONFIG,
                ]
                &&& final(self).spi.budget == spend_n(old(self).spi.budget, 3)
                &&& final(self).csn.level == true
                &&& final(self).power_state == PowerState::TransmitActive
            }),
            r is Err ==> ({
                &&& r == Err::<(), Error>(Error::ConfigError)
                &&& final(self).power_state == old(self).power_state
                &&& (final(self).spi.dev@.regs == old(self).spi.dev@.regs
                    || final(self).spi.dev@.regs == old(self).spi.dev@.regs.update(
                    memory::CONFIG as int,
                    seq![TX_CONFIG],
                ))
            }),
    {
        proof {
            assert(memory::CONFIG & command::REGISTER_MASK == memory::CONFIG) by (bit_vector);
        }
        match self.config_register(memory::CONFIG, TX_CONFIG) {
            Ok(()) => {
                self.power_state = PowerState::TransmitActive;
                Ok(())
            },
            Err(_) => Err(Error::ConfigError),
        }
    }

    /// Power the device down: deassert chip-enable, then write CONFIG
    /// back to its base bits.
    pub fn power_down(&mut self) -> (r: Result<(), Error>)
        requires
            old(self).wf(),
        ensures
            final(self).wf(),
            cfg_unchanged(*old(self), *final(self)),
            final(self).ce.broken == old(self).ce.broken,
            final(self).csn.broken == old(self).csn.broken,
            final(self).timer == old(self).timer,
            final(self).spi.dev@.rx_fifo == old(self).spi.dev@.rx_fifo,
            final(self).spi.dev@.tx_fifo == old(self).spi.dev@.tx_fifo,
            r is Ok <==> !old(self).ce.broken && !old(self).csn.broken && allows(
                old(self).spi.budget,
                3,
            ),
            r is Ok ==> ({
                let d0 = old(self).spi.dev@;
                &&& final(self).spi.dev@.regs == d0.regs.update(
                    memory::CONFIG as int,
                    seq![crate::MIRF_CONFIG],
                )
                &&& final(self).ce.level == false
                &&& final(self).csn.level == true
                &&& final(self).spi.budget == spend_n(old(self).spi.budget, 3)
                &&& final(self).power_state == PowerState::PoweredDown
            }),
            r matches Err(e) ==> ({
                &&& (e is Gpio <==> old(self).ce.broken)
                &&& (!old(self).ce.broken ==> e is IOError)
                &&& final(self).power_state == old(self).power_state
            }),
    {
        if self.ce.set_low().is_err() {
            return Err(Error::Gpio);
        }
        proof {
            assert(memory::CONFIG & command::REGISTER_MASK == memory::CONFIG) by (bit_vector);
        }
        self.config_register(memory::CONFIG, crate::MIRF_CONFIG)?;
        self.power_state = PowerState::PoweredDown;
        Ok(())
    }

    /// Program the RF channel and both payload-width registers from the
    /// stored parameters, enter receive mode, flush the RX FIFO, and
    /// assert chip-enable.  On success the driver is in `ReceiveIdle`.
    pub fn config(&mut self) -> (r: Result<(), Error>)
        requires
            old(self).wf(),
        ensures
            final(self).wf(),
            cfg_unchanged(*old(self), *final(self)),
            final(self).ce.broken == old(self).ce.broken,
            final(self).csn.broken == old(self).csn.broken,
            final(self).timer == old(self).timer,
            final(self).spi.dev@.tx_fifo == old(self).spi.dev@.tx_fifo,
            r is Ok <==> !old(self).csn.broken && !old(self).ce.broken && allows(
                old(self).spi.budget,
                14,
            ),
            r is Ok ==> ({
                let d0 = old(self).spi.dev@;
                let d1 = final(self).spi.dev@;
                &&& d1.regs[memory::RF_CH as int] == seq![old(self).channel]
                &&& d1.regs[memory::RX_PW_P0 as int] == seq![old(self).payload_size]
                &&& d1.regs[memory::RX_PW_P1 as int] == seq![old(self).payload_size]
                &&& d1.regs[memory::CONFIG as int] == seq![RX_CONFIG]
                &&& (forall|i: int|
                    0 <= i < d0.regs.len() && i != memory::RF_CH as int && i
                        != memory::RX_PW_P0 as int && i != memory::RX_PW_P1 as int && i
                        != memory::CONFIG as int ==> #[trigger] d1.regs[i] == d0.regs[i])
                &&& d1.rx_fifo == Seq::<u8>::empty()
                &&& final(self).power_state == PowerState::ReceiveIdle
                &&& final(self).ce.level == true
                &&& final(self).csn.level == true
                &&& final(self).spi.budget == spend_n(old(self).spi.budget, 14)
            }),
            r matches Err(e) ==> ({
                &&& (e is IOError || e is Spi || e is Gpio)
                &&& final(self).power_state == old(self).power_state
            }),
    {
        let ghost b0 = self.spi.budget;
        let saved = self.power_state;
        proof {
            allows_spend_n(b0, 3, 11);
            spend_n_adds(b0, 3, 3);
            allows_spend_n(spend_n(b0, 3), 3, 8);
            spend_n_adds(b0, 6, 3);
            allows_spend_n(spend_n(b0, 6), 3, 5);
            spend_n_adds(b0, 9, 3);
            allows_spend_n(spend_n(b0, 9), 3, 2);
            spend_n_adds(b0, 12, 2);
            assert(memory::RF_CH & command::REGISTER_MASK == memory::RF_CH) by (bit_vector);
            assert(memory::RX_PW_P0 & command::REGISTER_MASK == memory::RX_PW_P0) by (bit_vector);
            assert(memory::RX_PW_P1 & command::REGISTER_MASK == memory::RX_PW_P1) by (bit_vector);
        }
        let channel = self.channel;
        let ps = self.payload_size;
        self.config_register(memory::RF_CH, channel)?;
        self.config_register(memory::RX_PW_P0, ps)?;
        self.config_register(memory::RX_PW_P1, ps)?;
        self.power_up_rx()?;
        match self.flush_rx() {
            Ok(()) => {},
            Err(e) => {
                self.power_state = saved;
                return Err(e);
            },
        }
        if self.ce.set_high().is_err() {
            self.power_state = saved;
            return Err(Error::Gpio);
        }
        self.power_state = PowerState::ReceiveIdle;
        Ok(())
    }

    /// Transmit a payload.  A still-running previous transmission is
    /// polled for completion a bounded number of times, with a delay
    /// between polls, before re-arming; if it never completes, a
    /// caller-visible timeout error is returned.  On success the payload
    /// sits in the device's TX FIFO, the device is in transmit mode, and
    /// chip-enable is asserted to start the radio transmission.
    pub fn send(&mut self, data: &Vec<u8>) -> (r: Result<(), Error>)
        requires
            old(self).wf(),
        ensures
            final(self).wf(),
            cfg_unchanged(*old(self), *final(self)),
            final(self).ce.broken == old(self).ce.broken,
            final(self).csn.broken == old(self).csn.broken,
            final(self).spi.dev@.rx_fifo == old(self).spi.dev@.rx_fifo,
            r is Ok <==> ({
                &&& !old(self).csn.broken
                &&& !old(self).ce.broken
                &&& (old(self).power_state != PowerState::TransmitActive || tx_done(
                    old(self).spi.dev@,
                ))
                &&& allows(old(self).spi.budget, send_budget(*old(self)))
            }),
            r is Ok ==> ({
                let d0 = old(self).spi.dev@;
                let d1 = final(self).spi.dev@;
                &&& d1.tx_fifo == data@
                &&& d1.regs == d0.regs.update(memory::CONFIG as int, seq![TX_CONFIG])
                &&& final(self).power_state == PowerState::TransmitActive
                &&& final(self).ce.level == true
                &&& final(self).csn.level == true
                &&& final(self).spi.budget == spend_n(
                    old(self).spi.budget,
                    send_budget(*old(self)),
                )
                &&& (old(self).power_state != PowerState::TransmitActive ==> d1.log == d0.log
                    + seq![(command::R_REGISTER | memory::STATUS)] + seq![
                    (command::W_REGISTER | memory::CONFIG),
                    TX_CONFIG,
                ] + seq![command::FLUSH_TX, command::W_TX_PAYLOAD] + data@)
                &&& (old(self).power_state != PowerState::TransmitActive ==> final(self).timer
                    == old(self).timer)
            }),
            r matches Err(e) ==> ({
                &&& (e is IOError || e is Gpio || e is ConfigError)
                &&& final(self).power_state == old(self).power_state
            }),
    {
        let ghost b0 = self.spi.budget;
        let ghost d0 = self.spi.dev@;
        let saved = self.power_state;
        proof {
            allows_spend_n(b0, 3, 3);
            allows_spend_n(b0, 3, 7);
            allows_spend_n(b0, 3, 10);
            spend_n_adds(b0, 3, 3);
            allows_spend_n(spend_n(b0, 3), 3, 4);
            allows_spend_n(spend_n(b0, 3), 3, 7);
            spend_n_adds(b0, 6, 3);
            allows_spend_n(spend_n(b0, 6), 3, 4);
            spend_n_adds(b0, 6, 4);
            spend_n_adds(b0, 9, 4);
        }
        // Priming read the hardware is known to need before a mode switch.
        let _ = self.get_status()?;
        if self.power_state == PowerState::TransmitActive {
            let mut done = false;
            let mut tries: usize = 0;
            while tries < MAX_TX_POLLS && !done
                invariant
                    old(self).wf(),
                    self.wf(),
                    tries <= MAX_TX_POLLS,
                    saved == old(self).power_state,
                    saved is TransmitActive,
                    self.power_state == saved,
                    cfg_unchanged(*old(self), *self),
                    self.ce == old(self).ce,
                    self.csn.broken == old(self).csn.broken,
                    self.csn.broken == false,
                    self.spi.dev@.regs == old(self).spi.dev@.regs,
                    self.spi.dev@.rx_fifo == old(self).spi.dev@.rx_fifo,
                    self.spi.dev@.tx_fifo == old(self).spi.dev@.tx_fifo,
                    b0 == old(self).spi.budget,
                    allows(b0, 3),
                    done ==> tx_done(old(self).spi.dev@) && self.spi.budget == spend_n(b0, 6)
                        && allows(b0, 6) && self.timer == old(self).timer,
                    !done ==> (tries == 0 || !tx_done(old(self).spi.dev@)),
                    !done && tries == 0 ==> self.spi.budget == spend_n(b0, 3) && self.timer
                        == old(self).timer,
                decreases MAX_TX_POLLS - tries,
            {
                proof {
                    spend_n_adds(b0, 3, 3);
                    allows_spend_n(b0, 3, 3);
                    allows_spend_n(b0, 3, 10);
                    allows_spend_n(spend_n(b0, 3), 3, 7);
                }
                match self.get_status() {
                    Ok(status) => {
                        if status & TX_OVER_MASK != 0 {
                            done = true;
                        } else {
                            self.timer.delay_ns(TX_POLL_DELAY_NS);
                        }
                        tries = tries + 1;
                    },
                    Err(e) => {
                        return Err(e);
                    },
                }
            }
            if !done {
                return Err(Error::IOError("tx wait timeout"));
            }
            self.power_state = PowerState::ReceiveActive;
        }
        if self.ce.set_low().is_err() {
            self.power_state = saved;
            return Err(Error::Gpio);
        }
        match self.power_up_tx() {
            Ok(()) => {},
            Err(e) => {
                self.power_state = saved;
                return Err(e);
            },
        }
        let ghost dpre = self.spi.dev@;
        let mut c1: Vec<u8> = Vec::new();
        c1.push(command::FLUSH_TX);
        assert(c1@ =~= seq![command::FLUSH_TX]);
        let mut c2: Vec<u8> = Vec::new();
        c2.push(command::W_TX_PAYLOAD);
        assert(c2@ =~= seq![command::W_TX_PAYLOAD]);
        let mut ops: Vec<Operation> = Vec::new();
        ops.push(Operation::Write(c1));
        ops.push(Operation::Write(c2));
        ops.push(Operation::Write(copy_bytes(data)));
        let ghost s = seq![
            OpModel::Write(seq![command::FLUSH_TX]),
            OpModel::Write(seq![command::W_TX_PAYLOAD]),
            OpModel::Write(data@),
        ];
        proof {
            assert(ops.deep_view() =~= s);
            send_frame_facts(dpre, data@);
        }
        match self.transaction(&ops) {
            Ok(_) => {},
            Err(e) => {
                proof {
                    if !old(self).csn.broken {
                        let k = choose|k: int|
                            0 <= k <= s.len() && self.spi.dev@ == spec_end_frame(
                                run_ops(dpre, s.take(k)).0,
                            );
                        send_frame_prefixes(dpre, data@, k);
                    }
                }
                self.power_state = saved;
                return Err(
                    match e {
                        Error::Spi(why) => Error::IOError(why),
                        _ => Error::IOError("write error"),
                    },
                );
            },
        }
        if self.ce.set_high().is_err() {
            self.power_state = saved;
            return Err(Error::Gpio);
        }
        proof {
            if old(self).power_state is TransmitActive {
                assert(allows(b0, 3));
                assert(allows(spend_n(b0, 3), 3));
                assert(allows(spend_n(b0, 6), 3));
                assert(allows(spend_n(b0, 9), 4));
                assert(allows(spend_n(b0, 6), 7));
                assert(allows(spend_n(b0, 3), 10));
                assert(allows(b0, 13));
            } else {
                assert(allows(b0, 3));
                assert(allows(spend_n(b0, 3), 3));
                assert(allows(spend_n(b0, 6), 4));
                assert(allows(spend_n(b0, 3), 7));
                assert(allows(b0, 10));
            }
            if old(self).power_state != PowerState::TransmitActive {
                assert(self.spi.dev@.log =~= d0.log + seq![
                    (command::R_REGISTER | memory::STATUS),
                ] + seq![(command::W_REGISTER | memory::CONFIG), TX_CONFIG] + seq![
                    command::FLUSH_TX,
                    command::W_TX_PAYLOAD,
                ] + data@);
            }
        }
        Ok(())
    }

    /// Whether a transmission is still in flight.  Touches the hardware
    /// only while the driver believes it is transmitting; once the device
    /// reports TX-done or max-retries, the driver returns the device to
    /// receive mode and reports false.
    pub fn is_sending(&mut self) -> (r: Result<bool, Error>)
        requires
            old(self).wf(),
        ensures
            final(self).wf(),
            cfg_unchanged(*old(self), *final(self)),
            final(self).ce == old(self).ce,
            final(self).csn.broken == old(self).csn.broken,
            final(self).timer == old(self).timer,
            final(self).spi.dev@.rx_fifo == old(self).spi.dev@.rx_fifo,
            final(self).spi.dev@.tx_fifo == old(self).spi.dev@.tx_fifo,
            old(self).power_state != PowerState::TransmitActive ==> r == Ok::<bool, Error>(false)
                && *final(self) == *old(self),
            old(self).power_state == PowerState::TransmitActive ==> ({
                let d0 = old(self).spi.dev@;
                &&& (r is Ok <==> !old(self).csn.broken && allows(
                    old(self).spi.budget,
                    if tx_done(d0) {
                        6nat
                    } else {
                        3nat
                    },
                ))
                &&& (r matches Ok(v) ==> v == !tx_done(d0))
                &&& (r is Ok && tx_done(d0) ==> final(self).spi.dev@.regs == d0.regs.update(
                    memory::CONFIG as int,
                    seq![RX_CONFIG],
                ) && final(self).power_state == PowerState::ReceiveActive && final(self).spi.budget
                    == spend_n(old(self).spi.budget, 6))
                &&& (r is Ok && !tx_done(d0) ==> final(self).spi.dev@.regs == d0.regs
                    && final(self).power_state == PowerState::TransmitActive
                    && final(self).spi.budget == spend_n(old(self).spi.budget, 3))
                &&& (r matches Err(e) ==> e is IOError
                    && final(self).power_state == old(self).power_state)
            }),
    {
        if self.power_state == PowerState::TransmitActive {
            proof {
                allows_spend_n(old(self).spi.budget, 3, 3);
                spend_n_adds(old(self).spi.budget, 3, 3);
            }
            let status = self.get_status()?;
            if status & TX_OVER_MASK != 0 {
                self.power_up_rx()?;
                return Ok(false);
            }
            return Ok(true);
        }
        Ok(false)
    }

    /// Whether a received payload is waiting: either STATUS reports
    /// RX-data-ready, or the RX FIFO is not reported empty (a buffered
    /// packet whose flag was already cleared by a previous read).
    pub fn data_ready(&mut self) -> (r: Result<bool, Error>)
        requires
            old(self).wf(),
        ensures
            final(self).wf(),
            cfg_unchanged(*old(self), *final(self)),
            final(self).power_state == old(self).power_state,
            final(self).ce == old(self).ce,
            final(self).csn.broken == old(self).csn.broken,
            final(self).timer == old(self).timer,
            final(self).spi.dev@.regs == old(self).spi.dev@.regs,
            final(self).spi.dev@.rx_fifo == old(self).spi.dev@.rx_fifo,
            final(self).spi.dev@.tx_fifo == old(self).spi.dev@.tx_fifo,
            r is Ok <==> !old(self).csn.broken && allows(
                old(self).spi.budget,
                if rx_data_ready(old(self).spi.dev@) {
                    3nat
                } else {
                    6nat
                },
            ),
            r matches Ok(v) ==> v == (rx_data_ready(old(self).spi.dev@) || !rx_reported_empty(
                old(self).spi.dev@,
            )),
            r matches Err(e) ==> e is IOError,
    {
        proof {
            allows_spend_n(old(self).spi.budget, 3, 3);
            spend_n_adds(old(self).spi.budget, 3, 3);
        }
        let status = self.get_status()?;
        if status & (1u8 << mnemonic::RX_DR) != 0 {
            return Ok(true);
        }
        let fifo_empty = self.rx_fifo_empty()?;
        Ok(!fifo_empty)
    }

    /// Whether the device's FIFO-status register reports the RX FIFO
    /// empty.
    fn rx_fifo_empty(&mut self) -> (r: Result<bool, Error>)
        requires
            old(self).wf(),
        ensures
            final(self).wf(),
            cfg_unchanged(*old(self), *final(self)),
            final(self).power_state == old(self).power_state,
            final(self).ce == old(self).ce,
            final(self).csn.broken == old(self).csn.broken,
            final(self).timer == old(self).timer,
            final(self).spi.dev@.regs == old(self).spi.dev@.regs,
            final(self).spi.dev@.rx_fifo == old(self).spi.dev@.rx_fifo,
            final(self).spi.dev@.tx_fifo == old(self).spi.dev@.tx_fifo,
            r is Ok <==> !old(self).csn.broken && allows(old(self).spi.budget, 3),
            r matches Ok(v) ==> v == rx_reported_empty(old(self).spi.dev@)
                && final(self).spi.budget == spend_n(old(self).spi.budget, 3),
            r matches Err(e) ==> e is IOError,
    {
        proof {
            assert(memory::FIFO_STATUS & command::REGISTER_MASK == memory::FIFO_STATUS)
                by (bit_vector);
        }
        let fifo_status = self.read_register(memory::FIFO_STATUS)?;
        if fifo_status & (1u8 << mnemonic::RX_EMPTY) != 0 {
            return Ok(true);
        }
        Ok(false)
    }

    /// Read one payload of `buf.len()` bytes from the RX FIFO into
    /// `buf`, then clear the RX-data-ready status bit.  The caller sizes
    /// `buf` to the configured payload width; a mismatched size is not
    /// validated here.
    pub fn receive(&mut self, buf: &mut Vec<u8>) -> (r: Result<(), Error>)
        requires
            old(self).wf(),
        ensures
            final(self).wf(),
            cfg_unchanged(*old(self), *final(self)),
            final(self).power_state == old(self).power_state,
            final(self).ce == old(self).ce,
            final(self).csn.broken == old(self).csn.broken,
            final(self).timer == old(self).timer,
            final(self).spi.dev@.tx_fifo == old(self).spi.dev@.tx_fifo,
            final(buf).len() == old(buf).len(),
            r is Ok <==> !old(self).csn.broken && allows(old(self).spi.budget, 6),
            r is Ok ==> ({
                let d0 = old(self).spi.dev@;
                let n = old(buf)@.len();
                let k = if n <= d0.rx_fifo.len() {
                    n as int
                } else {
                    d0.rx_fifo.len() as int
                };
                &&& final(buf)@ == d0.rx_fifo.take(k) + zeros((n - k) as nat)
                &&& final(self).spi.dev@.rx_fifo == d0.rx_fifo.skip(k)
                &&& final(self).spi.dev@.regs == d0.regs.update(
                    memory::STATUS as int,
                    seq![(1u8 << mnemonic::RX_DR)],
                )
                &&& final(self).spi.budget == spend_n(old(self).spi.budget, 6)
                &&& final(self).csn.level == true
            }),
            r matches Err(e) ==> ({
                let d0 = old(self).spi.dev@;
                let n = old(buf)@.len();
                let k = if n <= d0.rx_fifo.len() {
                    n as int
                } else {
                    d0.rx_fifo.len() as int
                };
                &&& (e is Spi || e is Gpio || e is IOError)
                &&& (final(self).spi.dev@.rx_fifo == d0.rx_fifo || final(self).spi.dev@.rx_fifo
                    == d0.rx_fifo.skip(k))
                &&& (final(buf)@ == old(buf)@ || final(buf)@ == d0.rx_fifo.take(k) + zeros(
                    (n - k) as nat,
                ))
            }),
    {
        let ghost b0 = self.spi.budget;
        let ghost d0 = self.spi.dev@;
        proof {
            allows_spend_n(b0, 3, 3);
            spend_n_adds(b0, 3, 3);
            assert(memory::STATUS & command::REGISTER_MASK == memory::STATUS) by (bit_vector);
        }
        let n = buf.len();
        let mut cb: Vec<u8> = Vec::new();
        cb.push(command::R_RX_PAYLOAD);
        assert(cb@ =~= seq![command::R_RX_PAYLOAD]);
        let mut ops: Vec<Operation> = Vec::new();
        ops.push(Operation::Write(cb));
        ops.push(Operation::Read(n));
        let ghost s = seq![OpModel::Write(seq![command::R_RX_PAYLOAD]), OpModel::Read(n as nat)];
        proof {
            assert(ops.deep_view() =~= s);
            payload_frame_facts(d0, n as nat);
        }
        let resps = match self.transaction(&ops) {
            Ok(rs) => rs,
            Err(e) => {
                proof {
                    if !old(self).csn.broken {
                        let k = choose|k: int|
                            0 <= k <= s.len() && self.spi.dev@ == spec_end_frame(
                                run_ops(d0, s.take(k)).0,
                            );
                        payload_frame_prefixes(d0, n as nat, k);
                    }
                }
                return Err(e);
            },
        };
        assert(resps.deep_view().len() == 2);
        assert(resps@[1].deep_view().len() == n);
        let filled = copy_bytes(&resps[1]);
        assert(filled@ =~= resps.deep_view()[1]);
        *buf = filled;
        self.config_register(memory::STATUS, 1u8 << mnemonic::RX_DR)?;
        Ok(())
    }

}

/// How many bus operations a successful `send` performs, including the
/// completion poll when a transmission was still in flight.
pub open spec fn send_budget(pre: Nrf24l01) -> nat {
    if pre.power_state is TransmitActive {
        13
    } else {
        10
    }
}

/// The power state the driver reports after a return to receive mode.
pub open spec fn rx_return_state(s: PowerState) -> PowerState {
    match s {
        PowerState::TransmitActive => PowerState::ReceiveActive,
        PowerState::PoweredDown => PowerState::ReceiveIdle,
        other => other,
    }
}

/// Whether the STATUS byte stored in the model reports a finished
/// transmission.
pub open spec fn tx_done(m: DevModel) -> bool {
    crate::device::reg_byte(m, memory::STATUS as int) & TX_OVER_MASK != 0
}

/// Whether the STATUS byte stored in the model has the RX-data-ready bit
/// set.
pub open spec fn rx_data_ready(m: DevModel) -> bool {
    crate::device::reg_byte(m, memory::STATUS as int) & (1u8 << mnemonic::RX_DR) != 0
}

/// Whether the FIFO-status byte stored in the model reports the RX FIFO
/// empty.
pub open spec fn rx_reported_empty(m: DevModel) -> bool {
    crate::device::reg_byte(m, memory::FIFO_STATUS as int) & (1u8 << mnemonic::RX_EMPTY) != 0
}

/// Round-trip law over the register protocol: for every valid register
/// address and byte value, the register file that `write_register`
/// leaves behind for a one-byte write hands exactly that byte back to
/// `read_register`.  `write_register`'s contract ends in the
/// `spliced`-updated register file and `read_register`'s contract
/// returns `reg_byte` of the file it finds, so this connects the two.
pub proof fn lemma_register_round_trip(m: DevModel, register: u8, v: u8)
    requires
        dev_wf(m),
        register & command::REGISTER_MASK < memory::REGISTER_COUNT,
    ensures
        ({
            let a = (register & command::REGISTER_MASK) as int;
            let written = DevModel {
                regs: m.regs.update(a, spliced(m.regs[a], 0, seq![v])),
                ..m
            };
            crate::device::reg_byte(written, a) == v
        }),
{
    let a = (register & command::REGISTER_MASK) as int;
    assert(reg_width(a) >= 1);
    assert(spliced(m.regs[a], 0, seq![v])[0] == v);
}

/// Budget decomposition of the builder's programming sequence: an
/// address write, a double address write, then the configuration run.
pub(crate) proof fn lemma_budget_chain_build(b: Option<u32>)
    ensures
        allows(b, 23) <==> allows(b, 3) && allows(spend_n(b, 3), 6) && allows(spend_n(b, 9), 14),
        spend_n(b, 9) == spend_n(spend_n(b, 3), 6),
{
    allows_spend_n(b, 3, 20);
    allows_spend_n(spend_n(b, 3), 6, 14);
    spend_n_adds(b, 3, 6);
}

/// `spend_n` composes additively.
proof fn spend_n_adds(b: Option<u32>, x: nat, y: nat)
    ensures
        spend_n(b, x + y) == spend_n(spend_n(b, x), y),
    decreases x,
{
    if x > 0 {
        spend_n_adds(spend(b), (x - 1) as nat, y);
    }
}

/// `allows` weakens over fewer operations, relative to `spend_n`.
proof fn allows_spend_n(b: Option<u32>, x: nat, y: nat)
    ensures
        allows(b, x + y) <==> allows(b, x) && allows(spend_n(b, x), y),
    decreases x,
{
    if x > 0 {
        allows_spend_n(spend(b), (x - 1) as nat, y);
    }
}

/// What a flush-RX bracket `[FLUSH_RX]` does to the device model.
proof fn flush_rx_frame_facts(d0: DevModel)
    requires
        dev_wf(d0),
        d0.pending is Idle,
    ensures
        ({
            let s = seq![OpModel::Write(seq![command::FLUSH_RX])];
            let out = spec_end_frame(run_ops(d0, s).0);
            &&& out.regs == d0.regs
            &&& out.rx_fifo == Seq::<u8>::empty()
            &&& out.tx_fifo == d0.tx_fifo
            &&& out.log == d0.log + seq![command::FLUSH_RX]
            &&& out.pending is Idle
            &&& io_ops(s) == 1
        }),
{
    let s = seq![OpModel::Write(seq![command::FLUSH_RX])];
    assert(s.drop_first() =~= Seq::<OpModel>::empty());
    assert(io_ops(Seq::<OpModel>::empty()) == 0);
    assert(seq![command::FLUSH_RX].first() == command::FLUSH_RX);
    assert(seq![command::FLUSH_RX].drop_first() =~= Seq::<u8>::empty());
    assert(command::FLUSH_RX & 0xE0u8 == 0xE0u8) by (bit_vector);
    let m1 = crate::device::spec_push_byte(d0, command::FLUSH_RX);
    assert(m1.rx_fifo == Seq::<u8>::empty());
    assert(m1.regs == d0.regs);
    assert(crate::device::spec_push_bytes(m1, Seq::<u8>::empty()) == m1);
    assert(run_ops(m1, Seq::<OpModel>::empty()).0 == m1);
    assert(run_ops(d0, s).0 == m1);
    assert(d0.log.push(command::FLUSH_RX) =~= d0.log + seq![command::FLUSH_RX]);
}

/// What a transmit bracket `[FLUSH_TX, W_TX_PAYLOAD, payload...]` does to
/// the device model: the TX FIFO holds exactly the payload afterwards.
proof fn send_frame_facts(d0: DevModel, data: Seq<u8>)
    requires
        dev_wf(d0),
        d0.pending is Idle,
    ensures
        ({
            let s = seq![
                OpModel::Write(seq![command::FLUSH_TX]),
                OpModel::Write(seq![command::W_TX_PAYLOAD]),
                OpModel::Write(data),
            ];
            let out = spec_end_frame(run_ops(d0, s).0);
            &&& out.regs == d0.regs
            &&& out.rx_fifo == d0.rx_fifo
            &&& out.tx_fifo == data
            &&& out.log == d0.log + seq![command::FLUSH_TX, command::W_TX_PAYLOAD] + data
            &&& out.pending is Idle
            &&& io_ops(s) == 3
        }),
{
    let s = seq![
        OpModel::Write(seq![command::FLUSH_TX]),
        OpModel::Write(seq![command::W_TX_PAYLOAD]),
        OpModel::Write(data),
    ];
    assert(s.drop_first() =~= seq![OpModel::Write(seq![command::W_TX_PAYLOAD]), OpModel::Write(
        data,
    )]);
    assert(s.drop_first().drop_first() =~= seq![OpModel::Write(data)]);
    assert(seq![OpModel::Write(data)].drop_first() =~= Seq::<OpModel>::empty());
    assert(io_ops(Seq::<OpModel>::empty()) == 0);
    assert(io_ops(seq![OpModel::Write(data)]) == 1);
    assert(io_ops(s.drop_first()) == 2);
    assert(io_ops(s) == 3);
    assert(command::FLUSH_TX & 0xE0u8 == 0xE0u8) by (bit_vector);
    assert(command::W_TX_PAYLOAD & 0xE0u8 == 0xA0u8) by (bit_vector);
    assert(seq![command::FLUSH_TX].first() == command::FLUSH_TX);
    assert(seq![command::FLUSH_TX].drop_first() =~= Seq::<u8>::empty());
    assert(seq![command::W_TX_PAYLOAD].first() == command::W_TX_PAYLOAD);
    assert(seq![command::W_TX_PAYLOAD].drop_first() =~= Seq::<u8>::empty());
    let m1 = crate::device::spec_push_byte(d0, command::FLUSH_TX);
    assert(m1.tx_fifo == Seq::<u8>::empty());
    assert(m1.pending is Idle);
    assert(crate::device::spec_push_bytes(m1, Seq::<u8>::empty()) == m1);
    let m2 = crate::device::spec_push_byte(m1, command::W_TX_PAYLOAD);
    assert(m2.pending is WritePayload);
    assert(m2.regs == d0.regs && m2.rx_fifo == d0.rx_fifo && m2.tx_fifo == Seq::<u8>::empty());
    assert(crate::device::spec_push_bytes(m2, Seq::<u8>::empty()) == m2);
    crate::device::lemma_push_payload(m2, data);
    let m3 = crate::device::spec_push_bytes(m2, data);
    assert(m3.tx_fifo =~= data);
    assert(run_ops(m3, Seq::<OpModel>::empty()).0 == m3);
    assert(run_ops(m2, seq![OpModel::Write(data)]).0 == m3);
    assert(run_ops(m1, s.drop_first()).0 == m3);
    assert(run_ops(d0, s).0 == m3);
    assert(m3.log =~= d0.log + seq![command::FLUSH_TX, command::W_TX_PAYLOAD] + data);
}

/// Device state after each possible failure prefix of a transmit
/// bracket: the registers and the RX FIFO are untouched.
proof fn send_frame_prefixes(d0: DevModel, data: Seq<u8>, k: int)
    requires
        dev_wf(d0),
        d0.pending is Idle,
        0 <= k <= 3,
    ensures
        ({
            let s = seq![
                OpModel::Write(seq![command::FLUSH_TX]),
                OpModel::Write(seq![command::W_TX_PAYLOAD]),
                OpModel::Write(data),
            ];
            let out = spec_end_frame(run_ops(d0, s.take(k)).0);
            &&& out.regs == d0.regs
            &&& out.rx_fifo == d0.rx_fifo
            &&& out.pending is Idle
        }),
{
    let s = seq![
        OpModel::Write(seq![command::FLUSH_TX]),
        OpModel::Write(seq![command::W_TX_PAYLOAD]),
        OpModel::Write(data),
    ];
    assert(command::FLUSH_TX & 0xE0u8 == 0xE0u8) by (bit_vector);
    assert(command::W_TX_PAYLOAD & 0xE0u8 == 0xA0u8) by (bit_vector);
    assert(seq![command::FLUSH_TX].first() == command::FLUSH_TX);
    assert(seq![command::FLUSH_TX].drop_first() =~= Seq::<u8>::empty());
    assert(seq![command::W_TX_PAYLOAD].first() == command::W_TX_PAYLOAD);
    assert(seq![command::W_TX_PAYLOAD].drop_first() =~= Seq::<u8>::empty());
    let m1 = crate::device::spec_push_byte(d0, command::FLUSH_TX);
    assert(crate::device::spec_push_bytes(m1, Seq::<u8>::empty()) == m1);
    let m2 = crate::device::spec_push_byte(m1, command::W_TX_PAYLOAD);
    assert(crate::device::spec_push_bytes(m2, Seq::<u8>::empty()) == m2);
    if k == 0 {
        assert(s.take(0) =~= Seq::<OpModel>::empty());
        assert(run_ops(d0, s.take(0)).0 == d0);
    } else if k == 1 {
        assert(s.take(1) =~= seq![OpModel::Write(seq![command::FLUSH_TX])]);
        assert(seq![OpModel::Write(seq![command::FLUSH_TX])].drop_first() =~= Seq::<
            OpModel,
        >::empty());
        assert(run_ops(m1, Seq::<OpModel>::empty()).0 == m1);
        assert(run_ops(d0, s.take(1)).0 == m1);
    } else if k == 2 {
        assert(s.take(2) =~= seq![OpModel::Write(seq![command::FLUSH_TX]), OpModel::Write(
            seq![command::W_TX_PAYLOAD],
        )]);
        assert(s.take(2).drop_first() =~= seq![OpModel::Write(seq![command::W_TX_PAYLOAD])]);
        assert(seq![OpModel::Write(seq![command::W_TX_PAYLOAD])].drop_first() =~= Seq::<
            OpModel,
        >::empty());
        assert(run_ops(m2, Seq::<OpModel>::empty()).0 == m2);
        assert(run_ops(m1, seq![OpModel::Write(seq![command::W_TX_PAYLOAD])]).0 == m2);
        assert(run_ops(d0, s.take(2)).0 == m2);
    } else {
        assert(s.take(3) =~= s);
        send_frame_facts(d0, data);
    }
}

/// What a payload-read bracket `[R_RX_PAYLOAD, n bytes read]` does to the
/// device model and what bytes it produces.
proof fn payload_frame_facts(d0: DevModel, n: nat)
    requires
        dev_wf(d0),
        d0.pending is Idle,
    ensures
        ({
            let s = seq![OpModel::Write(seq![command::R_RX_PAYLOAD]), OpModel::Read(n)];
            let out = spec_end_frame(run_ops(d0, s).0);
            let k = if n <= d0.rx_fifo.len() {
                n as int
            } else {
                d0.rx_fifo.len() as int
            };
            &&& out.regs == d0.regs
            &&& out.rx_fifo == d0.rx_fifo.skip(k)
            &&& out.tx_fifo == d0.tx_fifo
            &&& out.log == d0.log + seq![command::R_RX_PAYLOAD]
            &&& out.pending is Idle
            &&& io_ops(s) == 2
            &&& run_ops(d0, s).1 == seq![
                Seq::<u8>::empty(),
                d0.rx_fifo.take(k) + zeros((n - k) as nat),
            ]
        }),
{
    let s = seq![OpModel::Write(seq![command::R_RX_PAYLOAD]), OpModel::Read(n)];
    let k = if n <= d0.rx_fifo.len() {
        n as int
    } else {
        d0.rx_fifo.len() as int
    };
    assert(s.drop_first() =~= seq![OpModel::Read(n)]);
    assert(seq![OpModel::Read(n)].drop_first() =~= Seq::<OpModel>::empty());
    assert(io_ops(Seq::<OpModel>::empty()) == 0);
    assert(io_ops(seq![OpModel::Read(n)]) == 1);
    assert(io_ops(s) == 2);
    assert(command::R_RX_PAYLOAD & 0xE0u8 == 0x60u8) by (bit_vector);
    assert(seq![command::R_RX_PAYLOAD].first() == command::R_RX_PAYLOAD);
    assert(seq![command::R_RX_PAYLOAD].drop_first() =~= Seq::<u8>::empty());
    let m1 = crate::device::spec_push_byte(d0, command::R_RX_PAYLOAD);
    assert(m1.pending is ReadPayload);
    assert(m1.regs == d0.regs && m1.rx_fifo == d0.rx_fifo && m1.tx_fifo == d0.tx_fifo);
    assert(crate::device::spec_push_bytes(m1, Seq::<u8>::empty()) == m1);
    crate::device::lemma_pull_payload(m1, n);
    let pulled = crate::device::spec_pull_bytes(m1, n);
    assert(run_ops(pulled.0, Seq::<OpModel>::empty()) == (pulled.0, Seq::<Seq<u8>>::empty()));
    assert(run_ops(m1, seq![OpModel::Read(n)]).0 == pulled.0);
    assert(run_ops(m1, seq![OpModel::Read(n)]).1 == seq![pulled.1] + Seq::<Seq<u8>>::empty());
    assert(run_ops(d0, s).0 == pulled.0);
    assert(run_ops(d0, s).1 == seq![Seq::<u8>::empty()] + run_ops(m1, seq![OpModel::Read(n)]).1);
    assert(d0.log.push(command::R_RX_PAYLOAD) =~= d0.log + seq![command::R_RX_PAYLOAD]);
    assert(run_ops(d0, s).1 =~= seq![Seq::<u8>::empty(), d0.rx_fifo.take(k) + zeros((n - k) as nat)]);
}

/// Device state after each possible failure prefix of a payload-read
/// bracket: the registers and the TX FIFO are untouched, and the RX FIFO
/// is untouched or has the read payload popped.
proof fn payload_frame_prefixes(d0: DevModel, n: nat, k: int)
    requires
        dev_wf(d0),
        d0.pending is Idle,
        0 <= k <= 2,
    ensures
        ({
            let s = seq![OpModel::Write(seq![command::R_RX_PAYLOAD]), OpModel::Read(n)];
            let out = spec_end_frame(run_ops(d0, s.take(k)).0);
            let kk = if n <= d0.rx_fifo.len() {
                n as int
            } else {
                d0.rx_fifo.len() as int
            };
            &&& out.regs == d0.regs
            &&& out.tx_fifo == d0.tx_fifo
            &&& (out.rx_fifo == d0.rx_fifo || out.rx_fifo == d0.rx_fifo.skip(kk))
            &&& out.pending is Idle
        }),
{
    let s = seq![OpModel::Write(seq![command::R_RX_PAYLOAD]), OpModel::Read(n)];
    if k == 0 {
        assert(s.take(0) =~= Seq::<OpModel>::empty());
        assert(run_ops(d0, s.take(0)).0 == d0);
    } else if k == 1 {
        assert(s.take(1) =~= seq![OpModel::Write(seq![command::R_RX_PAYLOAD])]);
        assert(seq![OpModel::Write(seq![command::R_RX_PAYLOAD])].drop_first() =~= Seq::<
            OpModel,
        >::empty());
        assert(seq![command::R_RX_PAYLOAD].first() == command::R_RX_PAYLOAD);
        assert(seq![command::R_RX_PAYLOAD].drop_first() =~= Seq::<u8>::empty());
        assert(command::R_RX_PAYLOAD & 0xE0u8 == 0x60u8) by (bit_vector);
        let m1 = crate::device::spec_push_byte(d0, command::R_RX_PAYLOAD);
        assert(crate::device::spec_push_bytes(m1, Seq::<u8>::empty()) == m1);
        assert(run_ops(m1, Seq::<OpModel>::empty()).0 == m1);
        assert(run_ops(d0, s.take(1)).0 == m1);
    } else {
        assert(s.take(2) =~= s);
        payload_frame_facts(d0, n);
    }
}

/// What a register-write bracket `[W_REGISTER | a, data...]` does to the
/// device model.
proof fn reg_frame_facts(d0: DevModel, a: u8, data: Seq<u8>)
    requires
        dev_wf(d0),
        d0.pending is Idle,
        a < memory::REGISTER_COUNT,
    ensures
        ({
            let s = seq![OpModel::Write(seq![(command::W_REGISTER | a)]), OpModel::Write(data)];
            let out = spec_end_frame(run_ops(d0, s).0);
            &&& out.regs == d0.regs.update(a as int, spliced(d0.regs[a as int], 0, data))
            &&& out.rx_fifo == d0.rx_fifo
            &&& out.tx_fifo == d0.tx_fifo
            &&& out.log == d0.log + seq![(command::W_REGISTER | a)] + data
            &&& out.pending is Idle
            &&& io_ops(s) == 2
            &&& run_ops(d0, s).0.rx_fifo == d0.rx_fifo
            &&& run_ops(d0, s).0.tx_fifo == d0.tx_fifo
        }),
{
    let cmd = command::W_REGISTER | a;
    let s = seq![OpModel::Write(seq![cmd]), OpModel::Write(data)];
    assert(s.first() == OpModel::Write(seq![cmd]));
    assert(s.drop_first() =~= seq![OpModel::Write(data)]);
    assert(seq![OpModel::Write(data)].drop_first() =~= Seq::<OpModel>::empty());
    assert(io_ops(Seq::<OpModel>::empty()) == 0);
    assert(io_ops(seq![OpModel::Write(data)]) == 1);
    assert(io_ops(s) == 2);
    assert(cmd & 0xE0u8 == 0x20u8 && cmd & 0x1Fu8 == a) by (bit_vector)
        requires
            cmd == 0x20u8 | a,
            a < 0x18u8,
    ;
    assert(seq![cmd].first() == cmd);
    assert(seq![cmd].drop_first() =~= Seq::<u8>::empty());
    let m1 = crate::device::spec_push_byte(d0, cmd);
    assert(crate::device::spec_push_bytes(d0, seq![cmd]) == crate::device::spec_push_bytes(
        m1,
        Seq::<u8>::empty(),
    ));
    assert(m1.pending == Pending::WriteReg { addr: a, off: 0 });
    assert(m1.log == d0.log.push(cmd));
    crate::device::lemma_push_byte_wf(d0, cmd);
    crate::device::lemma_push_data(m1, data);
    assert(crate::device::spec_push_bytes(m1, Seq::<u8>::empty()) == m1);
    let m2 = crate::device::spec_push_bytes(m1, data);
    assert(run_ops(m2, Seq::<OpModel>::empty()).0 == m2);
    assert(run_ops(m1, seq![OpModel::Write(data)]).0 == m2);
    assert(run_ops(d0, s).0 == m2);
    assert(m2.regs == m1.regs.update(a as int, spliced(m1.regs[a as int], 0, data)));
    assert(d0.log.push(cmd) + data =~= d0.log + seq![cmd] + data);
}

/// Device state after each possible failure prefix of a register-write
/// bracket: the register file is either untouched or fully updated, and
/// the FIFOs are untouched.
proof fn reg_frame_prefixes(d0: DevModel, a: u8, data: Seq<u8>, k: int)
    requires
        dev_wf(d0),
        d0.pending is Idle,
        a < memory::REGISTER_COUNT,
        0 <= k <= 2,
    ensures
        ({
            let s = seq![OpModel::Write(seq![(command::W_REGISTER | a)]), OpModel::Write(data)];
            let out = spec_end_frame(run_ops(d0, s.take(k)).0);
            &&& (out.regs == d0.regs || out.regs == d0.regs.update(
                a as int,
                spliced(d0.regs[a as int], 0, data),
            ))
            &&& out.rx_fifo == d0.rx_fifo
            &&& out.tx_fifo == d0.tx_fifo
            &&& out.pending is Idle
        }),
{
    let cmd = command::W_REGISTER | a;
    let s = seq![OpModel::Write(seq![cmd]), OpModel::Write(data)];
    if k == 0 {
        assert(s.take(0) =~= Seq::<OpModel>::empty());
        assert(run_ops(d0, s.take(0)).0 == d0);
    } else if k == 1 {
        assert(s.take(1) =~= seq![OpModel::Write(seq![cmd])]);
        assert(seq![OpModel::Write(seq![cmd])].drop_first() =~= Seq::<OpModel>::empty());
        assert(seq![cmd].first() == cmd);
        assert(seq![cmd].drop_first() =~= Seq::<u8>::empty());
        let m1 = crate::device::spec_push_byte(d0, cmd);
        assert(crate::device::spec_push_bytes(d0, seq![cmd])
            == crate::device::spec_push_bytes(m1, Seq::<u8>::empty()));
        assert(cmd & 0xE0u8 == 0x20u8) by (bit_vector)
            requires
                cmd == 0x20u8 | a,
                a < 0x18u8,
        ;
        assert(crate::device::spec_push_bytes(m1, Seq::<u8>::empty()) == m1);
        assert(m1.regs == d0.regs);
        assert(run_ops(m1, Seq::<OpModel>::empty()).0 == m1);
        assert(run_ops(d0, s.take(1)).0 == m1);
    } else {
        assert(s.take(2) =~= s);
        reg_frame_facts(d0, a, data);
    }
}

/// What a register-read bracket `[R_REGISTER | a, one byte read]` does to
/// the device model and what byte it produces.
proof fn read_frame_facts(d0: DevModel, a: u8)
    requires
        dev_wf(d0),
        d0.pending is Idle,
        a < memory::REGISTER_COUNT,
    ensures
        ({
            let s = seq![OpModel::Write(seq![(command::R_REGISTER | a)]), OpModel::Read(1nat)];
            let out = spec_end_frame(run_ops(d0, s).0);
            &&& out.regs == d0.regs
            &&& out.rx_fifo == d0.rx_fifo
            &&& out.tx_fifo == d0.tx_fifo
            &&& out.log == d0.log + seq![(command::R_REGISTER | a)]
            &&& out.pending is Idle
            &&& io_ops(s) == 2
            &&& run_ops(d0, s).1 == seq![Seq::<u8>::empty(), seq![crate::device::reg_byte(d0, a as int)]]
        }),
{
    let cmd = command::R_REGISTER | a;
    let s = seq![OpModel::Write(seq![cmd]), OpModel::Read(1nat)];
    assert(s.first() == OpModel::Write(seq![cmd]));
    assert(s.drop_first() =~= seq![OpModel::Read(1nat)]);
    assert(seq![OpModel::Read(1nat)].drop_first() =~= Seq::<OpModel>::empty());
    assert(io_ops(Seq::<OpModel>::empty()) == 0);
    assert(io_ops(seq![OpModel::Read(1nat)]) == 1);
    assert(io_ops(s) == 2);
    assert(cmd & 0xE0u8 == 0x00u8 && cmd & 0x1Fu8 == a) by (bit_vector)
        requires
            cmd == 0x00u8 | a,
            a < 0x18u8,
    ;
    assert(seq![cmd].first() == cmd);
    assert(seq![cmd].drop_first() =~= Seq::<u8>::empty());
    let m1 = crate::device::spec_push_byte(d0, cmd);
    assert(crate::device::spec_push_bytes(d0, seq![cmd]) == crate::device::spec_push_bytes(
        m1,
        Seq::<u8>::empty(),
    ));
    assert(m1.pending == Pending::ReadReg { addr: a, off: 0 });
    assert(m1.regs == d0.regs);
    assert(m1.log == d0.log.push(cmd));
    assert(crate::device::spec_push_bytes(m1, Seq::<u8>::empty()) == m1);
    let pulled = crate::device::spec_pull_byte(m1);
    assert(crate::device::reg_width(a as int) >= 1);
    assert(pulled.1 == crate::device::reg_byte(d0, a as int));
    assert(crate::device::spec_pull_bytes(pulled.0, 0nat).0 == pulled.0);
    assert(crate::device::spec_pull_bytes(pulled.0, 0nat).1 == Seq::<u8>::empty());
    assert(crate::device::spec_pull_bytes(m1, 1nat).0 == pulled.0);
    assert(crate::device::spec_pull_bytes(m1, 1nat).1 == seq![pulled.1] + Seq::<u8>::empty());
    assert(run_ops(pulled.0, Seq::<OpModel>::empty()) == (pulled.0, Seq::<Seq<u8>>::empty()));
    assert(run_ops(m1, seq![OpModel::Read(1nat)]).0 == pulled.0);
    assert(run_ops(m1, seq![OpModel::Read(1nat)]).1 == seq![seq![pulled.1] + Seq::<u8>::empty()]
        + Seq::<Seq<u8>>::empty());
    assert(run_ops(d0, s).0 == pulled.0);
    assert(run_ops(d0, s).1 == seq![Seq::<u8>::empty()] + run_ops(m1, seq![OpModel::Read(1nat)]).1);
    assert(d0.log.push(cmd) =~= d0.log + seq![cmd]);
    assert(seq![pulled.1] + Seq::<u8>::empty() =~= seq![pulled.1]);
    assert(run_ops(d0, s).1 =~= seq![Seq::<u8>::empty(), seq![crate::device::reg_byte(d0, a as int)]]);
}

/// Device state after each possible failure prefix of a register-read
/// bracket: registers and FIFOs are untouched.
proof fn read_frame_prefixes(d0: DevModel, a: u8, k: int)
    requires
        dev_wf(d0),
        d0.pending is Idle,
        a < memory::REGISTER_COUNT,
        0 <= k <= 2,
    ensures
        ({
            let s = seq![OpModel::Write(seq![(command::R_REGISTER | a)]), OpModel::Read(1nat)];
            let out = spec_end_frame(run_ops(d0, s.take(k)).0);
            &&& out.regs == d0.regs
            &&& out.rx_fifo == d0.rx_fifo
            &&& out.tx_fifo == d0.tx_fifo
            &&& out.pending is Idle
        }),
{
    let cmd = command::R_REGISTER | a;
    let s = seq![OpModel::Write(seq![cmd]), OpModel::Read(1nat)];
    if k == 0 {
        assert(s.take(0) =~= Seq::<OpModel>::empty());
        assert(run_ops(d0, s.take(0)).0 == d0);
    } else if k == 1 {
        assert(s.take(1) =~= seq![OpModel::Write(seq![cmd])]);
        assert(seq![OpModel::Write(seq![cmd])].drop_first() =~= Seq::<OpModel>::empty());
        assert(seq![cmd].first() == cmd);
        assert(seq![cmd].drop_first() =~= Seq::<u8>::empty());
        assert(cmd & 0xE0u8 == 0x00u8) by (bit_vector)
            requires
                cmd == 0x00u8 | a,
                a < 0x18u8,
        ;
        let m1 = crate::device::spec_push_byte(d0, cmd);
        assert(crate::device::spec_push_bytes(d0, seq![cmd])
            == crate::device::spec_push_bytes(m1, Seq::<u8>::empty()));
        assert(crate::device::spec_push_bytes(m1, Seq::<u8>::empty()) == m1);
        assert(m1.regs == d0.regs);
        assert(run_ops(m1, Seq::<OpModel>::empty()).0 == m1);
        assert(run_ops(d0, s.take(1)).0 == m1);
    } else {
        assert(s.take(2) =~= s);
        read_frame_facts(d0, a);
    }
}

} // verus!
