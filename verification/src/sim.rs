//! A simulated register transport: a register file in memory that records
//! every bus transaction it completes. It backs the tests, where it plays
//! the device, and shows that the transport contract can be implemented.

use vstd::prelude::*;

use crate::bus::BusOp;
use crate::bus::RegisterAccess;

verus! {

/// The opaque transport error of the simulated bus.
#[derive(Debug, Clone, Copy, PartialEq, Eq, Structural)]
pub struct SimFault;

/// One completed bus transaction, as the simulated bus records it.
#[derive(Debug)]
pub enum BusRecord {
    /// A completed write: the start register followed by the values written.
    Write(Vec<u8>),
    /// A completed read: the start register, and the bytes returned.
    Read(u8, Vec<u8>),
}

impl View for BusRecord {
    type V = BusOp;

    open spec fn view(&self) -> BusOp {
        match self {
            BusRecord::Write(data) => BusOp::Write { data: data@ },
            BusRecord::Read(start, data) => BusOp::Read { start: *start, data: data@ },
        }
    }
}

/// A simulated device: 256 one-byte registers, a record of completed
/// transactions, and an optional scheduled fault for exercising transport
/// error paths.
pub struct SimBus {
    cells: Vec<u8>,
    trace: Vec<BusRecord>,
    fail_in: Option<usize>,
}

/// Copy a byte slice into a fresh vector.
fn copy_bytes(src: &[u8]) -> (r: Vec<u8>)
    ensures
        r@ == src@,
{
    let mut r: Vec<u8> = Vec::new();
    let mut i: usize = 0;
    while i < src.len()
        invariant
            i <= src@.len(),
            r@ == src@.subrange(0, i as int),
        decreases src@.len() - i,
    {
        r.push(src[i]);
        proof {
            assert(r@ =~= src@.subrange(0, i + 1));
        }
        i += 1;
    }
    proof {
        assert(r@ =~= src@);
    }
    r
}

impl SimBus {
    /// The current contents of the 256 registers.
    pub closed spec fn regs(&self) -> Seq<u8> {
        self.cells@
    }

    /// A fresh simulated device with every register zero and nothing
    /// recorded.
    pub fn new() -> (r: SimBus)
        ensures
            r.log() == Seq::<BusOp>::empty(),
            r.regs() == Seq::new(256, |i: int| 0u8),
    {
        let mut cells: Vec<u8> = Vec::new();
        let mut i: usize = 0;
        while i < 256
            invariant
                i <= 256,
                cells@ == Seq::new(i as nat, |j: int| 0u8),
            decreases 256 - i,
        {
            cells.push(0);
            proof {
                assert(cells@ =~= Seq::new((i + 1) as nat, |j: int| 0u8));
            }
            i += 1;
        }
        let r = SimBus { cells, trace: Vec::new(), fail_in: None };
        proof {
            assert(r.log() =~= Seq::<BusOp>::empty());
        }
        r
    }

    /// Set one register of the simulated device, without recording a bus
    /// transaction; for arranging a device state under test.
    pub fn set_register(&mut self, addr: u8, value: u8)
        requires
            old(self).regs().len() == 256,
        ensures
            final(self).regs() == old(self).regs().update(addr as int, value),
            final(self).log() == old(self).log(),
    {
        self.cells[addr as usize] = value;
    }

    /// Read one register of the simulated device directly, without
    /// recording a bus transaction; for inspecting a device state under
    /// test.
    pub fn get_register(&self, addr: u8) -> (r: u8)
        requires
            self.regs().len() == 256,
        ensures
            r == self.regs()[addr as int],
    {
        self.cells[addr as usize]
    }

    /// Schedule a fault: the operation after the next `countdown`
    /// successfully completed operations fails with `SimFault`.
    pub fn set_failure(&mut self, countdown: usize)
        ensures
            final(self).regs() == old(self).regs(),
            final(self).log() == old(self).log(),
    {
        self.fail_in = Some(countdown);
    }

    /// The completed transactions, oldest first, as recorded values.
    pub fn trace(&self) -> (r: &Vec<BusRecord>)
        ensures
            r@.map_values(|rec: BusRecord| rec@) == self.log(),
    {
        &self.trace
    }

    /// Advance the scheduled fault, and report whether the current
    /// operation is the one that fails.
    fn tick_failure(&mut self) -> (fail: bool)
        ensures
            final(self).regs() == old(self).regs(),
            final(self).log() == old(self).log(),
            final(self).trace == old(self).trace,
            final(self).cells == old(self).cells,
    {
        match self.fail_in {
            Some(0) => {
                self.fail_in = None;
                true
            },
            Some(k) => {
                self.fail_in = Some(k - 1);
                false
            },
            None => false,
        }
    }
}

impl RegisterAccess for SimBus {
    type Error = SimFault;

    closed spec fn log(&self) -> Seq<BusOp> {
        self.trace@.map_values(|rec: BusRecord| rec@)
    }

    fn write_registers(&mut self, reg_and_values: &[u8]) -> (r: Result<(), SimFault>) {
        if self.tick_failure() {
            return Err(SimFault);
        }
        let start: u8 = if reg_and_values.len() > 0 {
            reg_and_values[0]
        } else {
            0
        };
        let mut i: usize = 1;
        while i < reg_and_values.len()
            invariant
                1 <= i,
                self.trace == old(self).trace,
            decreases reg_and_values@.len() - i,
        {
            let idx = (start as usize + ((i - 1) % 256)) % 256;
            if idx < self.cells.len() {
                self.cells[idx] = reg_and_values[i];
            }
            i += 1;
        }
        let bytes = copy_bytes(reg_and_values);
        let ghost t0 = self.trace@;
        let rec = BusRecord::Write(bytes);
        let ghost op = rec@;
        self.trace.push(rec);
        proof {
            assert(self.trace@.map_values(|r: BusRecord| r@) =~= t0.map_values(
                |r: BusRecord| r@,
            ).push(op));
            assert(op == (BusOp::Write { data: reg_and_values@ }));
        }
        Ok(())
    }

    fn read_registers(&mut self, start: u8, count: usize) -> (r: Result<Vec<u8>, SimFault>) {
        if self.tick_failure() {
            return Err(SimFault);
        }
        let mut data: Vec<u8> = Vec::new();
        let mut i: usize = 0;
        while i < count
            invariant
                i <= count,
                data@.len() == i,
                self.trace == old(self).trace,
            decreases count - i,
        {
            let idx = (start as usize + (i % 256)) % 256;
            let value: u8 = if idx < self.cells.len() {
                self.cells[idx]
            } else {
                0
            };
            data.push(value);
            i += 1;
        }
        let bytes = copy_bytes(data.as_slice());
        let ghost t0 = self.trace@;
        let rec = BusRecord::Read(start, bytes);
        let ghost op = rec@;
        self.trace.push(rec);
        proof {
            assert(self.trace@.map_values(|r: BusRecord| r@) =~= t0.map_values(
                |r: BusRecord| r@,
            ).push(op));
            assert(op == (BusOp::Read { start, data: data@ }));
        }
        Ok(data)
    }
}

} // verus!
