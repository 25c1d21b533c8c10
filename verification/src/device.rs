//! Register-level model of the transceiver IC.
//!
//! The model is a test double in the spirit of a fake bus that stores
//! register state: every register write is stored as-is and every register
//! read returns the stored bytes, so higher layers can be specified and
//! checked against exact register contents.  A command decoder interprets
//! the byte stream the driver puts on the bus; a command frame ends when
//! the bus is flushed, which the transaction arbiter does exactly once per
//! chip-select bracket, right before deselecting.

use vstd::prelude::*;

use crate::command;
use crate::memory;

verus! {

/// Decoder state: which command, if any, is currently consuming or
/// producing data bytes on the bus.
#[derive(Clone, Copy, Debug, PartialEq, Eq, Structural)]
pub enum Pending {
    Idle,
    WriteReg { addr: u8, off: u8 },
    ReadReg { addr: u8, off: u8 },
    WritePayload,
    ReadPayload,
}

/// Mathematical state of the modeled device.
///
/// `regs` maps each register address to its stored bytes (one byte for
/// most registers, five for the address registers).  `log` records every
/// byte ever written on the bus, in order, so that contracts can pin down
/// the exact wire traffic of an operation.
#[verifier::ext_equal]
pub struct DevModel {
    pub regs: Seq<Seq<u8>>,
    pub rx_fifo: Seq<u8>,
    pub tx_fifo: Seq<u8>,
    pub log: Seq<u8>,
    pub pending: Pending,
}

/// Width in bytes of the register at address `a`.
pub open spec fn reg_width(a: int) -> int {
    if a == memory::RX_ADDR_P0 as int || a == memory::RX_ADDR_P1 as int
        || a == memory::TX_ADDR as int {
        5
    } else {
        1
    }
}

/// Well-formedness of the model: one row per register address, each of its
/// documented width.
pub open spec fn dev_wf(m: DevModel) -> bool {
    &&& m.regs.len() == memory::REGISTER_COUNT as int
    &&& forall|i: int|
        0 <= i < m.regs.len() ==> (#[trigger] m.regs[i]).len() == reg_width(i)
}

/// First byte stored at register address `a`.
pub open spec fn reg_byte(m: DevModel, a: int) -> u8 {
    m.regs[a][0]
}

/// Decode `b` as a fresh command byte (decoder in its idle state).
pub open spec fn decode(m: DevModel, b: u8) -> DevModel {
    if b & 0xE0 == command::W_REGISTER {
        DevModel { pending: Pending::WriteReg { addr: b & command::REGISTER_MASK, off: 0 }, ..m }
    } else if b & 0xE0 == command::R_REGISTER {
        DevModel { pending: Pending::ReadReg { addr: b & command::REGISTER_MASK, off: 0 }, ..m }
    } else if b == command::W_TX_PAYLOAD {
        DevModel { pending: Pending::WritePayload, ..m }
    } else if b == command::R_RX_PAYLOAD {
        DevModel { pending: Pending::ReadPayload, ..m }
    } else if b == command::FLUSH_TX {
        DevModel { tx_fifo: Seq::empty(), pending: Pending::Idle, ..m }
    } else if b == command::FLUSH_RX {
        DevModel { rx_fifo: Seq::empty(), pending: Pending::Idle, ..m }
    } else {
        DevModel { pending: Pending::Idle, ..m }
    }
}

/// One byte written on the bus: either a fresh command or data consumed by
/// the pending command.  Bytes beyond a register's width, and bytes
/// written while a read command is producing data, are ignored.
pub open spec fn spec_push_byte(m: DevModel, b: u8) -> DevModel {
    let stepped = match m.pending {
        Pending::Idle => decode(m, b),
        Pending::WriteReg { addr, off } => {
            if addr < memory::REGISTER_COUNT && (off as int) < reg_width(addr as int) {
                DevModel {
                    regs: m.regs.update(
                        addr as int,
                        m.regs[addr as int].update(off as int, b),
                    ),
                    pending: Pending::WriteReg { addr, off: (off + 1) as u8 },
                    ..m
                }
            } else {
                m
            }
        },
        Pending::WritePayload => DevModel { tx_fifo: m.tx_fifo.push(b), ..m },
        Pending::ReadReg { .. } => m,
        Pending::ReadPayload => m,
    };
    DevModel { log: m.log.push(b), ..stepped }
}

/// One byte read from the bus: register bytes or queued RX payload bytes,
/// zero once the pending command has nothing left to produce.
pub open spec fn spec_pull_byte(m: DevModel) -> (DevModel, u8) {
    match m.pending {
        Pending::ReadReg { addr, off } => {
            if addr < memory::REGISTER_COUNT && (off as int) < reg_width(addr as int) {
                (
                    DevModel { pending: Pending::ReadReg { addr, off: (off + 1) as u8 }, ..m },
                    m.regs[addr as int][off as int],
                )
            } else {
                (m, 0u8)
            }
        },
        Pending::ReadPayload => {
            if m.rx_fifo.len() > 0 {
                (DevModel { rx_fifo: m.rx_fifo.drop_first(), ..m }, m.rx_fifo.first())
            } else {
                (m, 0u8)
            }
        },
        _ => (m, 0u8),
    }
}

/// End of a command frame: the decoder returns to its idle state.
pub open spec fn spec_end_frame(m: DevModel) -> DevModel {
    DevModel { pending: Pending::Idle, ..m }
}

/// A whole buffer written on the bus, byte by byte.
pub open spec fn spec_push_bytes(m: DevModel, bs: Seq<u8>) -> DevModel
    decreases bs.len(),
{
    if bs.len() == 0 {
        m
    } else {
        spec_push_bytes(spec_push_byte(m, bs.first()), bs.drop_first())
    }
}

/// `n` bytes read from the bus, byte by byte.
pub open spec fn spec_pull_bytes(m: DevModel, n: nat) -> (DevModel, Seq<u8>)
    decreases n,
{
    if n == 0 {
        (m, Seq::empty())
    } else {
        let pulled = spec_pull_byte(m);
        let rest = spec_pull_bytes(pulled.0, (n - 1) as nat);
        (rest.0, seq![pulled.1] + rest.1)
    }
}

/// Full-duplex transfer: each response byte is produced from the state
/// before the paired outgoing byte is consumed.
pub open spec fn spec_transfer_bytes(m: DevModel, out: Seq<u8>) -> (DevModel, Seq<u8>)
    decreases out.len(),
{
    if out.len() == 0 {
        (m, Seq::empty())
    } else {
        let pulled = spec_pull_byte(m);
        let m2 = spec_push_byte(pulled.0, out.first());
        let rest = spec_transfer_bytes(m2, out.drop_first());
        (rest.0, seq![pulled.1] + rest.1)
    }
}

/// The model a freshly powered device starts in: all registers zeroed.
pub open spec fn init_model() -> DevModel {
    DevModel {
        regs: Seq::new(memory::REGISTER_COUNT as nat, |i: int| Seq::new(reg_width(i) as nat, |j: int| 0u8)),
        rx_fifo: Seq::empty(),
        tx_fifo: Seq::empty(),
        log: Seq::empty(),
        pending: Pending::Idle,
    }
}

/// A sequence of `n` zero bytes.
pub open spec fn zeros(n: nat) -> Seq<u8> {
    Seq::new(n, |i: int| 0u8)
}

/// `reg` with the bytes at positions `off ..` overwritten by `data`, as a
/// register row looks after a write command stored `data` starting at
/// offset `off`; bytes beyond the register's width are dropped.
pub open spec fn spliced(reg: Seq<u8>, off: int, data: Seq<u8>) -> Seq<u8> {
    Seq::new(reg.len(), |i: int| if off <= i < off + data.len() { data[i - off] } else { reg[i] })
}

pub proof fn lemma_push_byte_wf(m: DevModel, b: u8)
    requires
        dev_wf(m),
    ensures
        dev_wf(spec_push_byte(m, b)),
{
    let m1 = spec_push_byte(m, b);
    assert forall|i: int| 0 <= i < m1.regs.len() implies (#[trigger] m1.regs[i]).len() == reg_width(i) by {
        assert(m.regs[i].len() == reg_width(i));
    }
}

/// Effect of a data buffer arriving while a register write is pending:
/// the bytes land in the addressed register starting at the pending
/// offset, everything else is unchanged, and the bytes are logged.
pub proof fn lemma_push_data(m: DevModel, data: Seq<u8>)
    requires
        dev_wf(m),
        m.pending matches Pending::WriteReg { addr, off } && addr < memory::REGISTER_COUNT
            && off as int <= reg_width(addr as int),
    ensures
        ({
            let addr = m.pending->WriteReg_addr;
            let off = m.pending->WriteReg_off;
            let w = reg_width(addr as int);
            let off2 = if off + data.len() <= w {
                off + data.len()
            } else {
                w
            };
            spec_push_bytes(m, data) == DevModel {
                regs: m.regs.update(addr as int, spliced(m.regs[addr as int], off as int, data)),
                log: m.log + data,
                pending: Pending::WriteReg { addr, off: off2 as u8 },
                ..m
            }
        }),
    decreases data.len(),
{
    let addr = m.pending->WriteReg_addr;
    let off = m.pending->WriteReg_off;
    let w = reg_width(addr as int);
    let row = m.regs[addr as int];
    if data.len() == 0 {
        assert(spliced(row, off as int, data) =~= row);
        assert(m.regs.update(addr as int, row) =~= m.regs);
        assert(m.log + data =~= m.log);
        assert(spec_push_bytes(m, data) =~= DevModel {
            regs: m.regs.update(addr as int, spliced(row, off as int, data)),
            log: m.log + data,
            pending: Pending::WriteReg { addr, off },
            ..m
        });
    } else {
        let b = data.first();
        let rest = data.drop_first();
        let m1 = spec_push_byte(m, b);
        lemma_push_byte_wf(m, b);
        lemma_push_data(m1, rest);
        if (off as int) < w {
            let row1 = row.update(off as int, b);
            assert(m1.regs[addr as int] == row1);
            assert(spliced(row1, off as int + 1, rest) =~= spliced(row, off as int, data));
            assert(m1.regs.update(addr as int, spliced(row1, off as int + 1, rest))
                =~= m.regs.update(addr as int, spliced(row, off as int, data)));
            assert(m1.log + rest =~= m.log + data);
            assert(spec_push_bytes(m, data) =~= DevModel {
                regs: m.regs.update(addr as int, spliced(row, off as int, data)),
                log: m.log + data,
                pending: spec_push_bytes(m1, rest).pending,
                ..m
            });
        } else {
            assert(spliced(row, off as int, rest) =~= spliced(row, off as int, data));
            assert(m1.log + rest =~= m.log + data);
            assert(spec_push_bytes(m, data) =~= DevModel {
                regs: m.regs.update(addr as int, spliced(row, off as int, data)),
                log: m.log + data,
                pending: spec_push_bytes(m1, rest).pending,
                ..m
            });
        }
    }
}

/// Effect of a data buffer arriving while a payload write is pending:
/// every byte is appended to the TX FIFO and logged.
pub proof fn lemma_push_payload(m: DevModel, data: Seq<u8>)
    requires
        m.pending is WritePayload,
    ensures
        spec_push_bytes(m, data) == (DevModel {
            tx_fifo: m.tx_fifo + data,
            log: m.log + data,
            ..m
        }),
    decreases data.len(),
{
    if data.len() == 0 {
        assert(m.tx_fifo + data =~= m.tx_fifo);
        assert(m.log + data =~= m.log);
        assert(spec_push_bytes(m, data) =~= DevModel { tx_fifo: m.tx_fifo + data, log: m.log + data, ..m });
    } else {
        let b = data.first();
        let rest = data.drop_first();
        let m1 = spec_push_byte(m, b);
        lemma_push_payload(m1, rest);
        assert(m1.tx_fifo + rest =~= m.tx_fifo + data);
        assert(m1.log + rest =~= m.log + data);
        assert(spec_push_bytes(m, data) =~= DevModel { tx_fifo: m.tx_fifo + data, log: m.log + data, ..m });
    }
}

/// Effect of reading `n` bytes while a payload read is pending: the head
/// of the RX FIFO comes out, padded with zeros once the FIFO is drained.
pub proof fn lemma_pull_payload(m: DevModel, n: nat)
    requires
        m.pending is ReadPayload,
    ensures
        ({
            let k = if n <= m.rx_fifo.len() {
                n as int
            } else {
                m.rx_fifo.len() as int
            };
            spec_pull_bytes(m, n) == (
                DevModel { rx_fifo: m.rx_fifo.skip(k), ..m },
                m.rx_fifo.take(k) + zeros((n - k) as nat),
            )
        }),
    decreases n,
{
    let k = if n <= m.rx_fifo.len() {
        n as int
    } else {
        m.rx_fifo.len() as int
    };
    if n == 0 {
        assert(m.rx_fifo.skip(0) =~= m.rx_fifo);
        assert(DevModel { rx_fifo: m.rx_fifo.skip(0), ..m } =~= m);
        assert(m.rx_fifo.take(0) + zeros(0) =~= Seq::<u8>::empty());
    } else if m.rx_fifo.len() > 0 {
        let m1 = DevModel { rx_fifo: m.rx_fifo.drop_first(), ..m };
        lemma_pull_payload(m1, (n - 1) as nat);
        let k1 = if n - 1 <= m1.rx_fifo.len() {
            n - 1
        } else {
            m1.rx_fifo.len() as int
        };
        assert(k1 == k - 1);
        assert(m1.rx_fifo.skip(k1) =~= m.rx_fifo.skip(k));
        assert(DevModel { rx_fifo: m1.rx_fifo.skip(k1), ..m1 } =~= DevModel {
            rx_fifo: m.rx_fifo.skip(k),
            ..m
        });
        assert(seq![m.rx_fifo.first()] + (m1.rx_fifo.take(k1) + zeros((n - 1 - k1) as nat))
            =~= m.rx_fifo.take(k) + zeros((n - k) as nat));
    } else {
        let m1 = m;
        lemma_pull_payload(m1, (n - 1) as nat);
        assert(m.rx_fifo.skip(0) =~= m.rx_fifo);
        assert(DevModel { rx_fifo: m.rx_fifo.skip(0), ..m } =~= m);
        assert(seq![0u8] + (m.rx_fifo.take(0) + zeros((n - 1) as nat)) =~= m.rx_fifo.take(0)
            + zeros((n - 0) as nat));
    }
}

/// Exec counterpart of `reg_width`.
pub fn reg_width_exec(a: u8) -> (w: usize)
    ensures
        w as int == reg_width(a as int),
{
    if a == memory::RX_ADDR_P0 || a == memory::RX_ADDR_P1 || a == memory::TX_ADDR {
        5
    } else {
        1
    }
}

/// Executable state of the modeled device; its view is a `DevModel`.
pub struct Device {
    pub regs: Vec<Vec<u8>>,
    pub rx_fifo: Vec<u8>,
    pub tx_fifo: Vec<u8>,
    pub log: Vec<u8>,
    pub pending: Pending,
}

impl View for Device {
    type V = DevModel;

    open spec fn view(&self) -> DevModel {
        DevModel {
            regs: self.regs.deep_view(),
            rx_fifo: self.rx_fifo@,
            tx_fifo: self.tx_fifo@,
            log: self.log@,
            pending: self.pending,
        }
    }
}

impl Device {
    /// A freshly powered device: all registers zeroed, FIFOs empty.
    pub fn new() -> (d: Device)
        ensures
            d@ == init_model(),
            dev_wf(d@),
    {
        let mut regs: Vec<Vec<u8>> = Vec::new();
        let mut a: u8 = 0;
        while a < memory::REGISTER_COUNT
            invariant
                a <= memory::REGISTER_COUNT,
                regs.len() == a as int,
                forall|i: int|
                    0 <= i < a as int ==> (#[trigger] regs.deep_view()[i]) == Seq::new(
                        reg_width(i) as nat,
                        |j: int| 0u8,
                    ),
            decreases memory::REGISTER_COUNT as int - a as int,
        {
            let w = reg_width_exec(a);
            let mut row: Vec<u8> = Vec::new();
            assert(row@ =~= zeros(0));
            let mut j: usize = 0;
            while j < w
                invariant
                    j <= w,
                    row@ == zeros(j as nat),
                decreases w - j,
            {
                row.push(0u8);
                assert(row@ =~= zeros((j + 1) as nat));
                j = j + 1;
            }
            let ghost prev = regs@;
            let ghost prev_dv = regs.deep_view();
            regs.push(row);
            assert forall|i: int|
                0 <= i < a as int + 1 implies (#[trigger] regs.deep_view()[i]) == Seq::new(
                reg_width(i) as nat,
                |j: int| 0u8,
            ) by {
                if i < a as int {
                    assert(regs@[i] == prev[i]);
                    assert(regs.deep_view()[i] == prev[i].deep_view());
                    assert(prev_dv[i] == prev[i].deep_view());
                } else {
                    assert(regs@[i] == row);
                    assert(row.deep_view() =~= Seq::new(reg_width(a as int) as nat, |k: int| 0u8));
                }
            }
            a = a + 1;
        }
        let d = Device {
            regs,
            rx_fifo: Vec::new(),
            tx_fifo: Vec::new(),
            log: Vec::new(),
            pending: Pending::Idle,
        };
        assert(d@.regs =~~= init_model().regs);
        assert(d@ == init_model());
        d
    }

    /// One byte written on the bus.
    pub fn push_byte(&mut self, b: u8)
        requires
            dev_wf(old(self)@),
        ensures
            final(self)@ == spec_push_byte(old(self)@, b),
            dev_wf(final(self)@),
    {
        proof {
            lemma_push_byte_wf(old(self)@, b);
        }
        match self.pending {
            Pending::Idle => {
                if b & 0xE0 == command::W_REGISTER {
                    self.pending = Pending::WriteReg { addr: b & command::REGISTER_MASK, off: 0 };
                } else if b & 0xE0 == command::R_REGISTER {
                    self.pending = Pending::ReadReg { addr: b & command::REGISTER_MASK, off: 0 };
                } else if b == command::W_TX_PAYLOAD {
                    self.pending = Pending::WritePayload;
                } else if b == command::R_RX_PAYLOAD {
                    self.pending = Pending::ReadPayload;
                } else if b == command::FLUSH_TX {
                    self.tx_fifo = Vec::new();
                    self.pending = Pending::Idle;
                } else if b == command::FLUSH_RX {
                    self.rx_fifo = Vec::new();
                    self.pending = Pending::Idle;
                } else {
                    self.pending = Pending::Idle;
                }
            },
            Pending::WriteReg { addr, off } => {
                let w = reg_width_exec(addr);
                if addr < memory::REGISTER_COUNT && (off as usize) < w {
                    self.regs[addr as usize][off as usize] = b;
                    self.pending = Pending::WriteReg { addr, off: off + 1 };
                    assert(self@.regs =~~= old(self)@.regs.update(
                        addr as int,
                        old(self)@.regs[addr as int].update(off as int, b),
                    ));
                }
            },
            Pending::WritePayload => {
                self.tx_fifo.push(b);
            },
            Pending::ReadReg { .. } => {},
            Pending::ReadPayload => {},
        }
        self.log.push(b);
        assert(self@ == spec_push_byte(old(self)@, b));
    }

    /// One byte read from the bus.
    pub fn pull_byte(&mut self) -> (r: u8)
        requires
            dev_wf(old(self)@),
        ensures
            final(self)@ == spec_pull_byte(old(self)@).0,
            r == spec_pull_byte(old(self)@).1,
            dev_wf(final(self)@),
    {
        match self.pending {
            Pending::ReadReg { addr, off } => {
                let w = reg_width_exec(addr);
                if addr < memory::REGISTER_COUNT && (off as usize) < w {
                    assert(self@.regs[addr as int] == self.regs@[addr as int].deep_view());
                    let b = self.regs[addr as usize][off as usize];
                    self.pending = Pending::ReadReg { addr, off: off + 1 };
                    b
                } else {
                    0
                }
            },
            Pending::ReadPayload => {
                if self.rx_fifo.len() > 0 {
                    let b = self.rx_fifo.remove(0);
                    assert(self@.rx_fifo =~= old(self)@.rx_fifo.drop_first());
                    b
                } else {
                    0
                }
            },
            _ => 0,
        }
    }

    /// End of a command frame.
    pub fn end_frame(&mut self)
        requires
            dev_wf(old(self)@),
        ensures
            final(self)@ == spec_end_frame(old(self)@),
            dev_wf(final(self)@),
    {
        self.pending = Pending::Idle;
    }
}

} // verus!
