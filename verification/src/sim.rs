//! Simulated hardware: a byte bus wired to the modeled transceiver, two
//! GPIO output pins and a delay source.
//!
//! The bus owns the device model and exposes the four byte-level bus
//! capabilities (read, write, full-duplex transfer, in-place transfer)
//! plus `flush`, which marks the end of a command frame: the transaction
//! arbiter flushes exactly once per chip-select bracket, right before
//! deselecting.  Faults can be injected through an operation budget: with
//! budget `Some(n)`, the first `n` bus operations succeed and every later
//! one fails, which is how tests reach the driver's error paths.

use vstd::prelude::*;

use crate::device::{
    dev_wf, spec_end_frame, spec_pull_bytes, spec_push_bytes, spec_transfer_bytes, Device,
};

verus! {

/// Remaining operation budget after one successful bus operation.
pub open spec fn spend(b: Option<u32>) -> Option<u32> {
    match b {
        Option::None => Option::None,
        Option::Some(n) => Option::Some((n - 1) as u32),
    }
}

/// Remaining operation budget after `n` successful bus operations.
pub open spec fn spend_n(b: Option<u32>, n: nat) -> Option<u32>
    decreases n,
{
    if n == 0 {
        b
    } else {
        spend_n(spend(b), (n - 1) as nat)
    }
}

/// Whether the budget admits `n` more successful bus operations.
pub open spec fn allows(b: Option<u32>, n: nat) -> bool {
    match b {
        Option::None => true,
        Option::Some(k) => k >= n,
    }
}

/// The simulated SPI bus, wired to the modeled transceiver.
pub struct SimSpi {
    pub dev: Device,
    pub budget: Option<u32>,
}

impl SimSpi {
    /// Whether the next bus operation will succeed.
    pub open spec fn can_io(&self) -> bool {
        self.budget != Option::Some(0u32)
    }

    /// A healthy bus on a freshly powered device: no operation ever fails.
    pub fn new() -> (s: SimSpi)
        ensures
            s.dev@ == crate::device::init_model(),
            dev_wf(s.dev@),
            s.budget is None,
    {
        SimSpi { dev: Device::new(), budget: Option::None }
    }

    /// A bus on a freshly powered device whose first `n` operations
    /// succeed and whose later ones fail.
    pub fn with_budget(n: u32) -> (s: SimSpi)
        ensures
            s.dev@ == crate::device::init_model(),
            dev_wf(s.dev@),
            s.budget == Option::Some(n),
    {
        SimSpi { dev: Device::new(), budget: Option::Some(n) }
    }

    /// Queue bytes for the device to hand out as received payload.
    pub fn queue_rx(&mut self, bytes: &Vec<u8>)
        ensures
            final(self).dev@.rx_fifo == old(self).dev@.rx_fifo + bytes@,
            final(self).dev@.regs == old(self).dev@.regs,
            final(self).dev@.tx_fifo == old(self).dev@.tx_fifo,
            final(self).dev@.log == old(self).dev@.log,
            final(self).dev@.pending == old(self).dev@.pending,
            final(self).budget == old(self).budget,
    {
        let ghost fifo0 = self.dev@.rx_fifo;
        let mut i: usize = 0;
        while i < bytes.len()
            invariant
                i <= bytes.len(),
                self.dev@.rx_fifo == fifo0 + bytes@.take(i as int),
                self.dev@.regs == old(self).dev@.regs,
                self.dev@.tx_fifo == old(self).dev@.tx_fifo,
                self.dev@.log == old(self).dev@.log,
                self.dev@.pending == old(self).dev@.pending,
                self.budget == old(self).budget,
            decreases bytes.len() - i,
        {
            self.dev.rx_fifo.push(bytes[i]);
            assert(fifo0 + bytes@.take(i as int + 1) =~= (fifo0 + bytes@.take(i as int)).push(
                bytes@[i as int],
            ));
            i = i + 1;
        }
        assert(bytes@.take(bytes@.len() as int) =~= bytes@);
    }

    /// Consume one unit of budget, or report the injected fault.
    fn charge(&mut self) -> (r: Result<(), ()>)
        ensures
            r is Ok <==> old(self).can_io(),
            r is Ok ==> final(self).budget == spend(old(self).budget),
            r is Err ==> *final(self) == *old(self),
            final(self).dev == old(self).dev,
    {
        match self.budget {
            Option::None => Ok(()),
            Option::Some(n) => {
                if n == 0 {
                    Err(())
                } else {
                    self.budget = Option::Some(n - 1);
                    Ok(())
                }
            },
        }
    }

    /// Write a buffer on the bus.
    pub fn write(&mut self, data: &Vec<u8>) -> (r: Result<(), ()>)
        requires
            dev_wf(old(self).dev@),
        ensures
            r is Ok <==> old(self).can_io(),
            r is Ok ==> final(self).dev@ == spec_push_bytes(old(self).dev@, data@)
                && final(self).budget == spend(old(self).budget),
            r is Err ==> *final(self) == *old(self),
            dev_wf(final(self).dev@),
    {
        let charged = self.charge();
        if charged.is_err() {
            return Err(());
        }
        let ghost d0 = self.dev@;
        assert(data@.skip(0) =~= data@);
        let mut i: usize = 0;
        while i < data.len()
            invariant
                i <= data.len(),
                dev_wf(self.dev@),
                spec_push_bytes(d0, data@) == spec_push_bytes(self.dev@, data@.skip(i as int)),
                self.budget == spend(old(self).budget),
            decreases data.len() - i,
        {
            assert(data@.skip(i as int).first() == data@[i as int]);
            assert(data@.skip(i as int).drop_first() =~= data@.skip(i as int + 1));
            self.dev.push_byte(data[i]);
            i = i + 1;
        }
        assert(data@.skip(data@.len() as int) =~= Seq::<u8>::empty());
        Ok(())
    }

    /// Read `buf.len()` bytes from the bus into `buf`.
    pub fn read(&mut self, buf: &mut Vec<u8>) -> (r: Result<(), ()>)
        requires
            dev_wf(old(self).dev@),
        ensures
            r is Ok <==> old(self).can_io(),
            final(buf).len() == old(buf).len(),
            r is Ok ==> final(self).dev@ == spec_pull_bytes(old(self).dev@, old(buf)@.len()).0
                && final(buf)@ == spec_pull_bytes(old(self).dev@, old(buf)@.len()).1
                && final(self).budget == spend(old(self).budget),
            r is Err ==> *final(self) == *old(self) && final(buf)@ == old(buf)@,
            dev_wf(final(self).dev@),
    {
        let charged = self.charge();
        if charged.is_err() {
            return Err(());
        }
        let ghost d0 = self.dev@;
        let ghost n = buf@.len();
        assert(buf@.take(0) =~= Seq::<u8>::empty());
        assert(Seq::<u8>::empty() + spec_pull_bytes(d0, n).1 =~= spec_pull_bytes(d0, n).1);
        let len = buf.len();
        let mut i: usize = 0;
        while i < len
            invariant
                i <= len,
                len == n,
                buf@.len() == n,
                dev_wf(self.dev@),
                spec_pull_bytes(d0, n).0 == spec_pull_bytes(self.dev@, (n - i) as nat).0,
                spec_pull_bytes(d0, n).1 == buf@.take(i as int) + spec_pull_bytes(
                    self.dev@,
                    (n - i) as nat,
                ).1,
                self.budget == spend(old(self).budget),
            decreases len - i,
        {
            let ghost buf0 = buf@;
            let b = self.dev.pull_byte();
            buf[i] = b;
            assert(buf@.take(i as int) =~= buf0.take(i as int));
            assert(buf@.take(i as int + 1) =~= buf@.take(i as int).push(b));
            assert(buf0.take(i as int) + (seq![b] + spec_pull_bytes(self.dev@, (n - i - 1) as nat).1)
                =~= buf@.take(i as int + 1) + spec_pull_bytes(self.dev@, (n - i - 1) as nat).1);
            i = i + 1;
        }
        assert(spec_pull_bytes(self.dev@, 0).1 =~= Seq::<u8>::empty());
        assert(buf@.take(n as int) =~= buf@);
        Ok(())
    }

    /// Full-duplex transfer: send `out`, return the bytes read alongside.
    pub fn transfer(&mut self, out: &Vec<u8>) -> (r: Result<Vec<u8>, ()>)
        requires
            dev_wf(old(self).dev@),
        ensures
            r is Ok <==> old(self).can_io(),
            r matches Ok(input) ==> final(self).dev@ == spec_transfer_bytes(
                old(self).dev@,
                out@,
            ).0 && input@ == spec_transfer_bytes(old(self).dev@, out@).1 && final(self).budget
                == spend(old(self).budget),
            r is Err ==> *final(self) == *old(self),
            dev_wf(final(self).dev@),
    {
        let charged = self.charge();
        if charged.is_err() {
            return Err(());
        }
        let ghost d0 = self.dev@;
        let mut input: Vec<u8> = Vec::new();
        assert(out@.skip(0) =~= out@);
        assert(input@ + spec_transfer_bytes(d0, out@).1 =~= spec_transfer_bytes(d0, out@).1);
        let mut i: usize = 0;
        while i < out.len()
            invariant
                i <= out.len(),
                input@.len() == i,
                dev_wf(self.dev@),
                spec_transfer_bytes(d0, out@).0 == spec_transfer_bytes(
                    self.dev@,
                    out@.skip(i as int),
                ).0,
                spec_transfer_bytes(d0, out@).1 == input@ + spec_transfer_bytes(
                    self.dev@,
                    out@.skip(i as int),
                ).1,
                self.budget == spend(old(self).budget),
            decreases out.len() - i,
        {
            assert(out@.skip(i as int).first() == out@[i as int]);
            assert(out@.skip(i as int).drop_first() =~= out@.skip(i as int + 1));
            let ghost inp0 = input@;
            let b = self.dev.pull_byte();
            self.dev.push_byte(out[i]);
            input.push(b);
            assert(inp0 + (seq![b] + spec_transfer_bytes(self.dev@, out@.skip(i as int + 1)).1)
                =~= input@ + spec_transfer_bytes(self.dev@, out@.skip(i as int + 1)).1);
            i = i + 1;
        }
        assert(out@.skip(out@.len() as int) =~= Seq::<u8>::empty());
        assert(input@ + Seq::<u8>::empty() =~= input@);
        Ok(input)
    }

    /// In-place transfer: `buf` is sent and replaced by the bytes read.
    pub fn transfer_in_place(&mut self, buf: &mut Vec<u8>) -> (r: Result<(), ()>)
        requires
            dev_wf(old(self).dev@),
        ensures
            r is Ok <==> old(self).can_io(),
            r is Ok ==> final(self).dev@ == spec_transfer_bytes(old(self).dev@, old(buf)@).0
                && final(buf)@ == spec_transfer_bytes(old(self).dev@, old(buf)@).1
                && final(self).budget == spend(old(self).budget),
            r is Err ==> *final(self) == *old(self) && final(buf)@ == old(buf)@,
            dev_wf(final(self).dev@),
    {
        match self.transfer(buf) {
            Ok(input) => {
                *buf = input;
                Ok(())
            },
            Err(()) => Err(()),
        }
    }

    /// Flush the bus: ends the current command frame.  The frame boundary
    /// takes effect even when flush itself reports an injected fault.
    pub fn flush(&mut self) -> (r: Result<(), ()>)
        requires
            dev_wf(old(self).dev@),
        ensures
            r is Ok <==> old(self).can_io(),
            final(self).dev@ == spec_end_frame(old(self).dev@),
            r is Ok ==> final(self).budget == spend(old(self).budget),
            r is Err ==> final(self).budget == old(self).budget,
            dev_wf(final(self).dev@),
    {
        let charged = self.charge();
        self.dev.end_frame();
        match charged {
            Ok(()) => Ok(()),
            Err(()) => Err(()),
        }
    }
}

/// A simulated GPIO output line.  A broken pin fails every toggle and
/// keeps its level.
pub struct SimPin {
    pub level: bool,
    pub broken: bool,
}

impl SimPin {
    /// A healthy output pin, initially driven low.
    pub fn new() -> (p: SimPin)
        ensures
            p.level == false,
            p.broken == false,
    {
        SimPin { level: false, broken: false }
    }

    /// A pin whose every toggle fails.
    pub fn stuck() -> (p: SimPin)
        ensures
            p.level == false,
            p.broken == true,
    {
        SimPin { level: false, broken: true }
    }

    /// Drive the line high.
    pub fn set_high(&mut self) -> (r: Result<(), ()>)
        ensures
            r is Ok <==> !old(self).broken,
            final(self).broken == old(self).broken,
            final(self).level == (if old(self).broken {
                old(self).level
            } else {
                true
            }),
    {
        if self.broken {
            Err(())
        } else {
            self.level = true;
            Ok(())
        }
    }

    /// Drive the line low.
    pub fn set_low(&mut self) -> (r: Result<(), ()>)
        ensures
            r is Ok <==> !old(self).broken,
            final(self).broken == old(self).broken,
            final(self).level == (if old(self).broken {
                old(self).level
            } else {
                false
            }),
    {
        if self.broken {
            Err(())
        } else {
            self.level = false;
            Ok(())
        }
    }
}

/// Saturating sum of a running nanosecond count and one delay.
pub open spec fn sat_add64(a: u64, b: u64) -> u64 {
    if a + b <= u64::MAX {
        (a + b) as u64
    } else {
        u64::MAX
    }
}

/// A simulated delay source that records how long it has been asked to
/// wait in total.
pub struct SimTimer {
    pub elapsed_ns: u64,
}

impl SimTimer {
    /// A fresh timer with no time elapsed.
    pub fn new() -> (t: SimTimer)
        ensures
            t.elapsed_ns == 0,
    {
        SimTimer { elapsed_ns: 0 }
    }

    /// Wait `ns` nanoseconds.
    pub fn delay_ns(&mut self, ns: u32)
        ensures
            final(self).elapsed_ns == sat_add64(old(self).elapsed_ns, ns as u64),
    {
        if self.elapsed_ns <= u64::MAX - ns as u64 {
            self.elapsed_ns = self.elapsed_ns + ns as u64;
        } else {
            self.elapsed_ns = u64::MAX;
        }
    }
}

} // verus!
