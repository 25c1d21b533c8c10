//! The unit of work of the SPI transaction arbiter.
//!
//! An ordered sequence of operations is executed as one atomic
//! chip-select bracket.  `run_ops` is the specification of what such a
//! batch does to the device model and which response buffer each
//! operation produces (write and delay operations produce an empty one).

use vstd::prelude::*;

use crate::device::{
    dev_wf, spec_pull_bytes, spec_push_bytes, spec_transfer_bytes, DevModel,
};
use crate::sim::sat_add64;

verus! {

/// One bus operation: read `n` bytes, write a buffer, full-duplex
/// transfer, in-place transfer, or a timed delay in nanoseconds.
#[derive(Debug)]
pub enum Operation {
    Read(usize),
    Write(Vec<u8>),
    Transfer(Vec<u8>),
    TransferInPlace(Vec<u8>),
    Delay(u32),
}

/// Mathematical image of an `Operation`.
pub enum OpModel {
    Read(nat),
    Write(Seq<u8>),
    Transfer(Seq<u8>),
    TransferInPlace(Seq<u8>),
    Delay(u32),
}

impl View for Operation {
    type V = OpModel;

    open spec fn view(&self) -> OpModel {
        match self {
            Operation::Read(n) => OpModel::Read(*n as nat),
            Operation::Write(bs) => OpModel::Write(bs@),
            Operation::Transfer(bs) => OpModel::Transfer(bs@),
            Operation::TransferInPlace(bs) => OpModel::TransferInPlace(bs@),
            Operation::Delay(t) => OpModel::Delay(*t),
        }
    }
}

impl DeepView for Operation {
    type V = OpModel;

    open spec fn deep_view(&self) -> OpModel {
        self@
    }
}

/// Effect of one operation on the device model, with its response bytes.
pub open spec fn apply_op(m: DevModel, op: OpModel) -> (DevModel, Seq<u8>) {
    match op {
        OpModel::Read(n) => spec_pull_bytes(m, n),
        OpModel::Write(bs) => (spec_push_bytes(m, bs), Seq::empty()),
        OpModel::Transfer(bs) => spec_transfer_bytes(m, bs),
        OpModel::TransferInPlace(bs) => spec_transfer_bytes(m, bs),
        OpModel::Delay(_) => (m, Seq::empty()),
    }
}

/// Effect of a whole batch, with the response buffer of each operation.
pub open spec fn run_ops(m: DevModel, ops: Seq<OpModel>) -> (DevModel, Seq<Seq<u8>>)
    decreases ops.len(),
{
    if ops.len() == 0 {
        (m, Seq::empty())
    } else {
        let first = apply_op(m, ops.first());
        let rest = run_ops(first.0, ops.drop_first());
        (rest.0, seq![first.1] + rest.1)
    }
}

/// How many operations of the batch touch the bus (delays do not).
pub open spec fn io_ops(ops: Seq<OpModel>) -> nat
    decreases ops.len(),
{
    if ops.len() == 0 {
        0
    } else {
        (if ops.first() is Delay {
            0nat
        } else {
            1nat
        }) + io_ops(ops.drop_first())
    }
}

/// Total nanoseconds a batch asks the delay source to wait, saturating,
/// starting from a running count.
pub open spec fn delay_total(e: u64, ops: Seq<OpModel>) -> u64
    decreases ops.len(),
{
    if ops.len() == 0 {
        e
    } else {
        let e1 = match ops.first() {
            OpModel::Delay(t) => sat_add64(e, t as u64),
            _ => e,
        };
        delay_total(e1, ops.drop_first())
    }
}

/// Running a batch extended by one operation runs the batch and then the
/// extra operation.
pub proof fn lemma_run_ops_snoc(m: DevModel, ops: Seq<OpModel>, op: OpModel)
    ensures
        run_ops(m, ops.push(op)).0 == apply_op(run_ops(m, ops).0, op).0,
        run_ops(m, ops.push(op)).1 == run_ops(m, ops).1.push(apply_op(run_ops(m, ops).0, op).1),
    decreases ops.len(),
{
    let s = ops.push(op);
    if ops.len() == 0 {
        assert(run_ops(m, ops) == (m, Seq::<Seq<u8>>::empty()));
        assert(s.first() == op);
        assert(s.drop_first() =~= Seq::<OpModel>::empty());
        let fst = apply_op(m, op);
        assert(run_ops(fst.0, s.drop_first()) == (fst.0, Seq::<Seq<u8>>::empty()));
        assert(run_ops(m, s).0 == fst.0);
        assert(run_ops(m, s).1 == seq![fst.1] + Seq::<Seq<u8>>::empty());
        assert(seq![fst.1] + Seq::<Seq<u8>>::empty() =~= Seq::<Seq<u8>>::empty().push(fst.1));
    } else {
        assert(s.first() == ops.first());
        assert(s.drop_first() =~= ops.drop_first().push(op));
        let fst = apply_op(m, ops.first());
        lemma_run_ops_snoc(fst.0, ops.drop_first(), op);
        let tail = run_ops(fst.0, ops.drop_first());
        let y = apply_op(run_ops(m, ops).0, op).1;
        assert(run_ops(m, ops).0 == tail.0);
        assert(run_ops(m, s).0 == run_ops(fst.0, s.drop_first()).0);
        assert(run_ops(m, s).1 == seq![fst.1] + run_ops(fst.0, s.drop_first()).1);
        assert(run_ops(fst.0, s.drop_first()).1 == tail.1.push(y));
        assert(seq![fst.1] + tail.1.push(y) =~= (seq![fst.1] + tail.1).push(y));
        assert(run_ops(m, ops).1 == seq![fst.1] + tail.1);
    }
}

} // verus!
