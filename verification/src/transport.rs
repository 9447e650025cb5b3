//! The transport: the raw byte-level channel under the executor, and the
//! model of the calls the executor makes against it.

use vstd::prelude::*;
use crate::errors::TransportError;

verus! {

/// One call issued against the transport, as the executor's contracts speak
/// of it. The trace of a transport is the sequence of every call made so far,
/// successful or not.
pub enum Event {
    /// `set_slave_address(address)` was called; the flag says whether it
    /// succeeded.
    SetAddress(u16, bool),
    /// `read(len)` was called, asking for exactly `len` bytes; `Some(bytes)`
    /// holds the bytes that came back, `None` records a transport failure.
    ReadCall(usize, Option<Seq<u8>>),
    /// `write(payload)` was called; the flag says whether it succeeded.
    WriteCall(Seq<u8>, bool),
}

/// The raw channel to the bus. Three primitives: select the slave the
/// following calls target, read a requested number of bytes, and write a
/// payload. Each call, whatever its outcome, is appended to the transport's
/// trace; the executor's contracts are stated over that trace.
///
/// The engine assumes exclusive ownership of the channel for the duration of
/// a call: no other actor changes the selected address between the
/// executor's own addressing calls.
pub trait Transport: Sized {
    /// The calls made against this transport so far, oldest first.
    spec fn trace(&self) -> Seq<Event>;

    /// Select the slave that subsequent reads and writes target.
    fn set_slave_address(&mut self, address: u16) -> (r: Result<(), TransportError>)
        ensures
            final(self).trace() == old(self).trace().push(
                Event::SetAddress(address, r is Ok),
            ),
    ;

    /// Read exactly `len` bytes from the selected slave. On success the
    /// returned buffer holds `len` bytes; on failure nothing is returned.
    fn read(&mut self, len: usize) -> (r: Result<Vec<u8>, TransportError>)
        ensures
            (r matches Ok(bytes) ==> bytes@.len() == len && final(self).trace()
                == old(self).trace().push(Event::ReadCall(len, Some(bytes@)))),
            (r is Err ==> final(self).trace() == old(self).trace().push(
                Event::ReadCall(len, None),
            )),
    ;

    /// Write `payload` to the selected slave.
    fn write(&mut self, payload: &Vec<u8>) -> (r: Result<(), TransportError>)
        ensures
            final(self).trace() == old(self).trace().push(
                Event::WriteCall(payload@, r is Ok),
            ),
    ;
}

} // verus!
