//! The register-access abstraction: ordered reads and writes of one or more
//! contiguous device registers over some byte transport.
//!
//! Every transport carries a ghost log of the bus transactions it completed,
//! oldest first. The driver's contracts are stated over that log: they pin
//! down which registers each operation reads and writes, in which order, and
//! how each written byte relates to the byte that was read before it.

use vstd::prelude::*;

verus! {

/// One completed bus transaction, as the device sees it.
#[verifier::ext_equal]
pub enum BusOp {
    /// A write of `data[0]` as the start register followed by the values for
    /// the registers from `data[0]` upward (device auto-increment addressing).
    Write { data: Seq<u8> },
    /// A read of `data.len()` registers starting at `start` that returned
    /// the bytes `data`.
    Read { start: u8, data: Seq<u8> },
}

/// The bus operation that writes `value` to the single register `reg`.
pub open spec fn write_op(reg: u8, value: u8) -> BusOp {
    BusOp::Write { data: seq![reg, value] }
}

/// Is `op` a one-byte read of the register `reg`?
pub open spec fn is_register_read(op: BusOp, reg: u8) -> bool {
    op matches BusOp::Read { start, data } && start == reg && data.len() == 1
}

/// The bytes a read operation returned (empty for a write).
pub open spec fn read_data(op: BusOp) -> Seq<u8> {
    match op {
        BusOp::Read { data, .. } => data,
        BusOp::Write { .. } => Seq::empty(),
    }
}

/// Does `l` consist of exactly two operations that read register `reg` and
/// write back the byte that was read, with the bits of `keep` preserved and
/// the bits of `set` forced on? This is the shape of every read-modify-write
/// the driver performs: bits outside the modified field are unaffected.
pub open spec fn is_read_modify_write(l: Seq<BusOp>, reg: u8, keep: u8, set: u8) -> bool {
    &&& l.len() == 2
    &&& is_register_read(l[0], reg)
    &&& l[1] == write_op(reg, (read_data(l[0])[0] & keep) | set)
}

/// `new_log` extends `old_log` by exactly `k` further operations.
pub open spec fn extends_by(old_log: Seq<BusOp>, new_log: Seq<BusOp>, k: int) -> bool {
    &&& new_log.len() == old_log.len() + k
    &&& new_log.subrange(0, old_log.len() as int) == old_log
}

/// The operations that `new_log` appends to `old_log`.
pub open spec fn appended(old_log: Seq<BusOp>, new_log: Seq<BusOp>) -> Seq<BusOp> {
    new_log.subrange(old_log.len() as int, new_log.len() as int)
}

/// A log extends itself by nothing.
pub proof fn lemma_extends_refl(l: Seq<BusOp>)
    ensures
        extends_by(l, l, 0),
        appended(l, l) == Seq::<BusOp>::empty(),
{
    assert(l.subrange(0, l.len() as int) =~= l);
    assert(appended(l, l) =~= Seq::<BusOp>::empty());
}

/// Appending one more operation to an extension extends by one more.
pub proof fn lemma_extends_push(o: Seq<BusOp>, n: Seq<BusOp>, k: int, op: BusOp)
    requires
        extends_by(o, n, k),
        k >= 0,
    ensures
        extends_by(o, n.push(op), k + 1),
        appended(o, n.push(op)) == appended(o, n).push(op),
{
    assert(n.push(op).subrange(0, o.len() as int) =~= o);
    assert(appended(o, n.push(op)) =~= appended(o, n).push(op));
}

/// Two extensions in a row form one extension, appending the concatenation.
pub proof fn lemma_extends_trans(a: Seq<BusOp>, b: Seq<BusOp>, c: Seq<BusOp>, i: int, j: int)
    requires
        extends_by(a, b, i),
        extends_by(b, c, j),
        i >= 0,
        j >= 0,
    ensures
        extends_by(a, c, i + j),
        appended(a, c) == appended(a, b) + appended(b, c),
{
    assert(c.subrange(0, a.len() as int) =~= a);
    assert(appended(a, c) =~= appended(a, b) + appended(b, c));
}

/// Access to the registers of the device.
///
/// The ghost `log` holds the bus transactions that completed successfully,
/// oldest first; a call that fails leaves it unchanged. A transport error is
/// opaque to this layer and is propagated unchanged; nothing is promised
/// about the bytes a read returns, since the device decides them.
pub trait RegisterAccess: Sized {
    type Error;

    /// The successfully completed bus transactions, oldest first. The
    /// default is an empty abstraction, for transports that track nothing;
    /// a transport that wants the driver's contracts to say anything must
    /// provide its own.
    open spec fn log(&self) -> Seq<BusOp> {
        Seq::empty()
    }

    /// Write multiple registers. The first value in `reg_and_values` is the
    /// start register; the device extends it contiguously to the registers
    /// that follow.
    fn write_registers(&mut self, reg_and_values: &[u8]) -> (r: Result<(), Self::Error>)
        ensures
            r is Ok ==> final(self).log() == old(self).log().push(
                BusOp::Write { data: reg_and_values@ },
            ),
            r is Err ==> final(self).log() == old(self).log(),
    ;

    /// Read `count` consecutive registers starting at `start`.
    fn read_registers(&mut self, start: u8, count: usize) -> (r: Result<Vec<u8>, Self::Error>)
        ensures
            r matches Ok(data) ==> data@.len() == count && final(self).log() == old(self).log()
                .push(BusOp::Read { start, data: data@ }),
            r is Err ==> final(self).log() == old(self).log(),
    ;

    /// Write one register, as a two-byte block write.
    fn write_register(&mut self, register: u8, value: u8) -> (r: Result<(), Self::Error>)
        ensures
            r is Ok ==> final(self).log() == old(self).log().push(write_op(register, value)),
            r is Err ==> final(self).log() == old(self).log(),
    {
        let mut data: Vec<u8> = Vec::new();
        data.push(register);
        data.push(value);
        proof {
            assert(data@ =~= seq![register, value]);
        }
        self.write_registers(data.as_slice())
    }

    /// Read one register, as a one-byte block read.
    fn read_register(&mut self, register: u8) -> (r: Result<u8, Self::Error>)
        ensures
            r matches Ok(value) ==> final(self).log() == old(self).log().push(
                BusOp::Read { start: register, data: seq![value] },
            ),
            r is Err ==> final(self).log() == old(self).log(),
    {
        let data = self.read_registers(register, 1)?;
        proof {
            assert(data@ =~= seq![data@[0]]);
        }
        Ok(data[0])
    }
}

} // verus!
