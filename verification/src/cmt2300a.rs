//! Driver for a second, simpler transceiver IC on the same boards.
//!
//! Its transmit and receive operations are exactly one chip-select
//! bracket around a plain bus write or read — bus-select, move the
//! bytes, bus-deselect — with no register protocol and no power state
//! machine.  The bus is modeled as a raw byte stream: bytes written are
//! appended to a wire log, bytes read come from a queue that tests can
//! preload, zero-padded once drained.  The select line mirrors the
//! board's infallible push-pull output.

use vstd::prelude::*;

use crate::device::zeros;
use crate::error::Error;
use crate::sim::{spend, SimPin};

verus! {

/// A raw simulated SPI bus: no attached command decoder, just the bytes
/// moved in each direction and an operation budget for fault injection.
pub struct RawSpi {
    pub written: Vec<u8>,
    pub inbound: Vec<u8>,
    pub budget: Option<u32>,
}

impl RawSpi {
    /// Whether the next bus operation will succeed.
    pub open spec fn can_io(&self) -> bool {
        self.budget != Option::Some(0u32)
    }

    /// A healthy bus with nothing queued.
    pub fn new() -> (s: RawSpi)
        ensures
            s.written@ == Seq::<u8>::empty(),
            s.inbound@ == Seq::<u8>::empty(),
            s.budget is None,
    {
        RawSpi { written: Vec::new(), inbound: Vec::new(), budget: Option::None }
    }

    /// A fresh bus whose first `n` operations succeed and whose later
    /// ones fail.
    pub fn with_budget(n: u32) -> (s: RawSpi)
        ensures
            s.written@ == Seq::<u8>::empty(),
            s.inbound@ == Seq::<u8>::empty(),
            s.budget == Option::Some(n),
    {
        RawSpi { written: Vec::new(), inbound: Vec::new(), budget: Option::Some(n) }
    }

    /// Queue bytes for later reads.
    pub fn queue(&mut self, bytes: &Vec<u8>)
        ensures
            final(self).inbound@ == old(self).inbound@ + bytes@,
            final(self).written@ == old(self).written@,
            final(self).budget == old(self).budget,
    {
        let mut i: usize = 0;
        while i < bytes.len()
            invariant
                i <= bytes.len(),
                self.inbound@ == old(self).inbound@ + bytes@.take(i as int),
                self.written@ == old(self).written@,
                self.budget == old(self).budget,
            decreases bytes.len() - i,
        {
            self.inbound.push(bytes[i]);
            assert(old(self).inbound@ + bytes@.take(i as int + 1) =~= (old(self).inbound@
                + bytes@.take(i as int)).push(bytes@[i as int]));
            i = i + 1;
        }
        assert(bytes@.take(bytes@.len() as int) =~= bytes@);
    }

    /// Consume one unit of budget, or report the injected fault.
    fn charge(&mut self) -> (r: Result<(), ()>)
        ensures
            r is Ok <==> old(self).can_io(),
            r is Ok ==> final(self).budget == spend(old(self).budget),
            r is Err ==> *final(self) == *old(self),
            final(self).written == old(self).written,
            final(self).inbound == old(self).inbound,
    {
        match self.budget {
            Option::None => Ok(()),
            Option::Some(n) => {
                if n == 0 {
                    Err(())
                } else {
                    self.budget = Option::Some(n - 1);
                    Ok(())
                }
            },
        }
    }

    /// Put a buffer on the wire.
    pub fn write(&mut self, data: &Vec<u8>) -> (r: Result<(), ()>)
        ensures
            r is Ok <==> old(self).can_io(),
            r is Ok ==> final(self).written@ == old(self).written@ + data@ && final(self).budget
                == spend(old(self).budget),
            r is Err ==> *final(self) == *old(self),
            final(self).inbound == old(self).inbound,
    {
        if self.charge().is_err() {
            return Err(());
        }
        let mut i: usize = 0;
        while i < data.len()
            invariant
                i <= data.len(),
                self.written@ == old(self).written@ + data@.take(i as int),
                self.inbound == old(self).inbound,
                self.budget == spend(old(self).budget),
            decreases data.len() - i,
        {
            self.written.push(data[i]);
            assert(old(self).written@ + data@.take(i as int + 1) =~= (old(self).written@
                + data@.take(i as int)).push(data@[i as int]));
            i = i + 1;
        }
        assert(data@.take(data@.len() as int) =~= data@);
        Ok(())
    }

    /// Fill a buffer from the wire: queued bytes first, zeros once the
    /// queue is drained.
    pub fn read(&mut self, buf: &mut Vec<u8>) -> (r: Result<(), ()>)
        ensures
            final(buf)@.len() == old(buf)@.len(),
            r is Ok <==> old(self).can_io(),
            r is Ok ==> ({
                let n = old(buf)@.len();
                let q = old(self).inbound@;
                let k = if n <= q.len() {
                    n as int
                } else {
                    q.len() as int
                };
                &&& final(buf)@ == q.take(k) + zeros((n - k) as nat)
                &&& final(self).inbound@ == q.skip(k)
                &&& final(self).budget == spend(old(self).budget)
            }),
            r is Err ==> *final(self) == *old(self) && final(buf)@ == old(buf)@,
            final(self).written == old(self).written,
    {
        if self.charge().is_err() {
            return Err(());
        }
        let ghost q = self.inbound@;
        let ghost n = buf@.len();
        let ghost k = if n <= q.len() {
            n as int
        } else {
            q.len() as int
        };
        let len = buf.len();
        let mut i: usize = 0;
        while i < len
            invariant
                i <= len,
                len == n,
                buf@.len() == n,
                q == old(self).inbound@,
                k == (if n <= q.len() {
                    n as int
                } else {
                    q.len() as int
                }),
                self.inbound@ == q.skip(if i as int <= k {
                    i as int
                } else {
                    k
                }),
                forall|t: int| 0 <= t < i as int && t < k ==> buf@[t] == q[t],
                forall|t: int| k <= t < i as int ==> buf@[t] == 0u8,
                self.written == old(self).written,
                self.budget == spend(old(self).budget),
            decreases len - i,
        {
            if self.inbound.len() > 0 {
                let b = self.inbound.remove(0);
                buf[i] = b;
                assert(self.inbound@ =~= q.skip(i as int + 1));
            } else {
                buf[i] = 0;
            }
            i = i + 1;
        }
        assert(buf@ =~= q.take(k) + zeros((n - k) as nat));
        Ok(())
    }
}

/// The simple transceiver: a raw bus plus one select line.
pub struct CMT2300A {
    pub spi: RawSpi,
    pub csb: SimPin,
}

impl CMT2300A {
    /// Wrap a bus and its select line as a driver.
    pub fn new(spi: RawSpi, csb: SimPin) -> (r: Self)
        ensures
            r.spi == spi,
            r.csb == csb,
    {
        Self { spi, csb }
    }

    /// Transmit a buffer: select, write it on the bus, deselect.
    pub fn transmit(&mut self, data: &Vec<u8>) -> (r: Result<(), Error>)
        ensures
            final(self).csb.broken == old(self).csb.broken,
            final(self).spi.inbound == old(self).spi.inbound,
            r is Ok <==> old(self).spi.can_io(),
            r is Ok ==> final(self).spi.written@ == old(self).spi.written@ + data@
                && final(self).csb.level == true,
            r is Err ==> r == Err::<(), Error>(Error::Spi("write error"))
                && final(self).spi.written == old(self).spi.written,
    {
        self.csb.level = false;
        match self.spi.write(data) {
            Ok(()) => {},
            Err(()) => {
                self.csb.level = true;
                return Err(Error::Spi("write error"));
            },
        }
        self.csb.level = true;
        Ok(())
    }

    /// Receive into a buffer: select, fill it from the bus, deselect.
    pub fn recieve(&mut self, buffer: &mut Vec<u8>) -> (r: Result<(), Error>)
        ensures
            final(self).csb.broken == old(self).csb.broken,
            final(self).spi.written == old(self).spi.written,
            final(buffer)@.len() == old(buffer)@.len(),
            r is Ok <==> old(self).spi.can_io(),
            r is Ok ==> ({
                let n = old(buffer)@.len();
                let q = old(self).spi.inbound@;
                let k = if n <= q.len() {
                    n as int
                } else {
                    q.len() as int
                };
                &&& final(buffer)@ == q.take(k) + zeros((n - k) as nat)
                &&& final(self).spi.inbound@ == q.skip(k)
                &&& final(self).csb.level == true
            }),
            r is Err ==> r == Err::<(), Error>(Error::Spi("read error"))
                && final(buffer)@ == old(buffer)@
                && final(self).spi.inbound == old(self).spi.inbound,
    {
        self.csb.level = false;
        match self.spi.read(buffer) {
            Ok(()) => {},
            Err(()) => {
                self.csb.level = true;
                return Err(Error::Spi("read error"));
            },
        }
        self.csb.level = true;
        Ok(())
    }
}

} // verus!
