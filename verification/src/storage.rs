//! A simple in-memory storage backend.
//!
//! `Storage` keeps the four Modbus regions as plain vectors and implements
//! [`Context`] with bounds-checked, atomic reads and writes. A fresh
//! `Storage` holds 1000 items per region, all zero.

use vstd::prelude::*;

use crate::context::Context;
use crate::context::CtxError;
use crate::context::overlay;

verus! {

/// Items per region in a fresh [`Storage`].
pub const STORAGE_SIZE: usize = 1000;

/// In-memory register and coil storage.
pub struct Storage {
    /// Coils: read-write bits.
    pub coils: Vec<bool>,
    /// Discrete inputs: read-only bits (read-only to the protocol).
    pub discretes: Vec<bool>,
    /// Input registers: read-only words (read-only to the protocol).
    pub inputs: Vec<u16>,
    /// Holding registers: read-write words.
    pub holdings: Vec<u16>,
}

fn zero_bits(n: usize) -> (v: Vec<bool>)
    ensures
        v@.len() == n,
        forall|i: int| 0 <= i < n ==> v@[i] == false,
{
    let mut v: Vec<bool> = Vec::new();
    let mut i: usize = 0;
    while i < n
        invariant
            i <= n,
            v@.len() == i,
            forall|j: int| 0 <= j < i ==> v@[j] == false,
        decreases n - i,
    {
        v.push(false);
        i += 1;
    }
    v
}

fn zero_words(n: usize) -> (v: Vec<u16>)
    ensures
        v@.len() == n,
        forall|i: int| 0 <= i < n ==> v@[i] == 0,
{
    let mut v: Vec<u16> = Vec::new();
    let mut i: usize = 0;
    while i < n
        invariant
            i <= n,
            v@.len() == i,
            forall|j: int| 0 <= j < i ==> v@[j] == 0,
        decreases n - i,
    {
        v.push(0);
        i += 1;
    }
    v
}

impl Storage {
    /// A storage with `STORAGE_SIZE` zeroed items in each region.
    pub fn new() -> (r: Storage)
        ensures
            r.coils@.len() == STORAGE_SIZE,
            r.discretes@.len() == STORAGE_SIZE,
            r.inputs@.len() == STORAGE_SIZE,
            r.holdings@.len() == STORAGE_SIZE,
            forall|i: int| 0 <= i < STORAGE_SIZE ==> r.coils@[i] == false,
            forall|i: int| 0 <= i < STORAGE_SIZE ==> r.discretes@[i] == false,
            forall|i: int| 0 <= i < STORAGE_SIZE ==> r.inputs@[i] == 0,
            forall|i: int| 0 <= i < STORAGE_SIZE ==> r.holdings@[i] == 0,
    {
        Storage {
            coils: zero_bits(STORAGE_SIZE),
            discretes: zero_bits(STORAGE_SIZE),
            inputs: zero_words(STORAGE_SIZE),
            holdings: zero_words(STORAGE_SIZE),
        }
    }
}

fn copy_bits(src: &Vec<bool>, addr: u16, count: u16) -> (r: Result<Vec<bool>, CtxError>)
    ensures
        r is Ok <==> addr as int + count as int <= src@.len(),
        r matches Ok(v) ==> v@ == src@.subrange(addr as int, addr as int + count as int),
{
    let n = src.len();
    if addr as usize <= n && count as usize <= n - addr as usize {
        let mut out: Vec<bool> = Vec::new();
        let mut i: usize = 0;
        while i < count as usize
            invariant
                addr as int + count as int <= src@.len(),
                i <= count as usize,
                out@ == src@.subrange(addr as int, addr as int + i as int),
            decreases count as int - i,
        {
            out.push(src[addr as usize + i]);
            proof {
                assert(out@ =~= src@.subrange(addr as int, addr as int + (i + 1)));
            }
            i += 1;
        }
        Ok(out)
    } else {
        Err(CtxError::IllegalAddress)
    }
}

fn copy_words(src: &Vec<u16>, addr: u16, count: u16) -> (r: Result<Vec<u16>, CtxError>)
    ensures
        r is Ok <==> addr as int + count as int <= src@.len(),
        r matches Ok(v) ==> v@ == src@.subrange(addr as int, addr as int + count as int),
{
    let n = src.len();
    if addr as usize <= n && count as usize <= n - addr as usize {
        let mut out: Vec<u16> = Vec::new();
        let mut i: usize = 0;
        while i < count as usize
            invariant
                addr as int + count as int <= src@.len(),
                i <= count as usize,
                out@ == src@.subrange(addr as int, addr as int + i as int),
            decreases count as int - i,
        {
            out.push(src[addr as usize + i]);
            proof {
                assert(out@ =~= src@.subrange(addr as int, addr as int + (i + 1)));
            }
            i += 1;
        }
        Ok(out)
    } else {
        Err(CtxError::IllegalAddress)
    }
}

impl Context for Storage {
    open spec fn coils(&self) -> Seq<bool> {
        self.coils@
    }

    open spec fn discretes(&self) -> Seq<bool> {
        self.discretes@
    }

    open spec fn inputs(&self) -> Seq<u16> {
        self.inputs@
    }

    open spec fn holdings(&self) -> Seq<u16> {
        self.holdings@
    }

    fn get_coils(&self, addr: u16, count: u16) -> (r: Result<Vec<bool>, CtxError>) {
        copy_bits(&self.coils, addr, count)
    }

    fn get_discretes(&self, addr: u16, count: u16) -> (r: Result<Vec<bool>, CtxError>) {
        copy_bits(&self.discretes, addr, count)
    }

    fn get_inputs(&self, addr: u16, count: u16) -> (r: Result<Vec<u16>, CtxError>) {
        copy_words(&self.inputs, addr, count)
    }

    fn get_holdings(&self, addr: u16, count: u16) -> (r: Result<Vec<u16>, CtxError>) {
        copy_words(&self.holdings, addr, count)
    }

    fn set_coils(&mut self, addr: u16, values: &Vec<bool>) -> (r: Result<(), CtxError>) {
        let n = self.coils.len();
        if addr as usize <= n && values.len() <= n - addr as usize {
            let mut i: usize = 0;
            while i < values.len()
                invariant
                    addr as int + values@.len() <= old(self).coils@.len(),
                    addr as int + values@.len() <= usize::MAX,
                    i <= values@.len(),
                    self.coils@ == overlay(
                        old(self).coils@,
                        addr as int,
                        values@.subrange(0, i as int),
                    ),
                    self.discretes@ == old(self).discretes@,
                    self.inputs@ == old(self).inputs@,
                    self.holdings@ == old(self).holdings@,
                decreases values@.len() - i,
            {
                self.coils.set(addr as usize + i, values[i]);
                proof {
                    assert(self.coils@ =~= overlay(
                        old(self).coils@,
                        addr as int,
                        values@.subrange(0, i + 1),
                    ));
                }
                i += 1;
            }
            proof {
                assert(values@.subrange(0, values@.len() as int) =~= values@);
            }
            Ok(())
        } else {
            Err(CtxError::IllegalAddress)
        }
    }

    fn set_holdings(&mut self, addr: u16, values: &Vec<u16>) -> (r: Result<(), CtxError>) {
        let n = self.holdings.len();
        if addr as usize <= n && values.len() <= n - addr as usize {
            let mut i: usize = 0;
            while i < values.len()
                invariant
                    addr as int + values@.len() <= old(self).holdings@.len(),
                    addr as int + values@.len() <= usize::MAX,
                    i <= values@.len(),
                    self.holdings@ == overlay(
                        old(self).holdings@,
                        addr as int,
                        values@.subrange(0, i as int),
                    ),
                    self.coils@ == old(self).coils@,
                    self.discretes@ == old(self).discretes@,
                    self.inputs@ == old(self).inputs@,
                decreases values@.len() - i,
            {
                self.holdings.set(addr as usize + i, values[i]);
                proof {
                    assert(self.holdings@ =~= overlay(
                        old(self).holdings@,
                        addr as int,
                        values@.subrange(0, i + 1),
                    ));
                }
                i += 1;
            }
            proof {
                assert(values@.subrange(0, values@.len() as int) =~= values@);
            }
            Ok(())
        } else {
            Err(CtxError::IllegalAddress)
        }
    }
}

} // verus!
