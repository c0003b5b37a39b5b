//! The storage interface consumed by the server.
//!
//! A `Context` is an application-defined mapping from (region, address) to
//! value, with four regions: discrete inputs and coils (bits), input and
//! holding registers (16-bit words). The server reads it for read-class
//! requests and mutates it for write-class requests; it reports domain-level
//! faults (an addressed range that does not exist) rather than low-level
//! errors.

use vstd::prelude::*;

verus! {

/// A domain-level fault reported by a storage backend: the addressed range
/// lies outside the region.
#[derive(Clone, Copy, Debug, PartialEq, Eq, Structural)]
pub enum CtxError {
    IllegalAddress,
}

/// `s` with `vals` written over the range starting at `at`; everything
/// outside that range, and the length, are unchanged.
pub open spec fn overlay<T>(s: Seq<T>, at: int, vals: Seq<T>) -> Seq<T> {
    Seq::new(
        s.len(),
        |i: int|
            if at <= i && i < at + vals.len() {
                vals[i - at]
            } else {
                s[i]
            },
    )
}

/// Application-defined register and coil storage.
///
/// Each region is modelled as a sequence; a request for `count` items at
/// `addr` succeeds exactly when `addr + count` does not exceed the region's
/// length. Writes are atomic: a failed write leaves every region unchanged,
/// and a write to one region never touches another.
pub trait Context {
    /// Coils: read-write bits.
    spec fn coils(&self) -> Seq<bool>;

    /// Discrete inputs: read-only bits.
    spec fn discretes(&self) -> Seq<bool>;

    /// Input registers: read-only words.
    spec fn inputs(&self) -> Seq<u16>;

    /// Holding registers: read-write words.
    spec fn holdings(&self) -> Seq<u16>;

    fn get_coils(&self, addr: u16, count: u16) -> (r: Result<Vec<bool>, CtxError>)
        ensures
            r is Ok <==> addr as int + count as int <= self.coils().len(),
            r matches Ok(v) ==> v@ == self.coils().subrange(addr as int, addr as int + count as int),
    ;

    fn get_discretes(&self, addr: u16, count: u16) -> (r: Result<Vec<bool>, CtxError>)
        ensures
            r is Ok <==> addr as int + count as int <= self.discretes().len(),
            r matches Ok(v) ==> v@ == self.discretes().subrange(
                addr as int,
                addr as int + count as int,
            ),
    ;

    fn get_inputs(&self, addr: u16, count: u16) -> (r: Result<Vec<u16>, CtxError>)
        ensures
            r is Ok <==> addr as int + count as int <= self.inputs().len(),
            r matches Ok(v) ==> v@ == self.inputs().subrange(
                addr as int,
                addr as int + count as int,
            ),
    ;

    fn get_holdings(&self, addr: u16, count: u16) -> (r: Result<Vec<u16>, CtxError>)
        ensures
            r is Ok <==> addr as int + count as int <= self.holdings().len(),
            r matches Ok(v) ==> v@ == self.holdings().subrange(
                addr as int,
                addr as int + count as int,
            ),
    ;

    fn set_coils(&mut self, addr: u16, values: &Vec<bool>) -> (r: Result<(), CtxError>)
        ensures
            r is Ok <==> addr as int + values@.len() <= old(self).coils().len(),
            r is Ok ==> final(self).coils() == overlay(old(self).coils(), addr as int, values@),
            r is Err ==> final(self).coils() == old(self).coils(),
            final(self).discretes() == old(self).discretes(),
            final(self).inputs() == old(self).inputs(),
            final(self).holdings() == old(self).holdings(),
    ;

    fn set_holdings(&mut self, addr: u16, values: &Vec<u16>) -> (r: Result<(), CtxError>)
        ensures
            r is Ok <==> addr as int + values@.len() <= old(self).holdings().len(),
            r is Ok ==> final(self).holdings() == overlay(
                old(self).holdings(),
                addr as int,
                values@,
            ),
            r is Err ==> final(self).holdings() == old(self).holdings(),
            final(self).coils() == old(self).coils(),
            final(self).discretes() == old(self).discretes(),
            final(self).inputs() == old(self).inputs(),
    ;
}

} // verus!
