//! A scripted transport: a verified in-memory [`Transport`] that answers
//! reads from a prepared list of frames and records every call it receives.
//! It stands in for a physical bus in tests and exercises the executor's
//! contracts end to end.

use vstd::prelude::*;
use crate::errors::TransportError;
use crate::transport::{Event, Transport};

verus! {

/// An executable record of one call, mirroring [`Event`] without the ghost
/// payloads, so that ordinary code can inspect what was issued.
#[derive(Debug, PartialEq, Eq)]
pub enum CallRecord {
    SetAddress(u16),
    ReadCall(usize),
    WriteCall(Vec<u8>),
}

/// A transport driven by a script. Each `read` consumes the next prepared
/// frame and succeeds only when that frame has exactly the requested length;
/// a missing or wrong-sized frame is reported as a transport failure.
/// Addressing and writing succeed or fail as the two flags say.
pub struct SimTransport {
    /// The prepared read frames, consumed front to back.
    pub frames: Vec<Vec<u8>>,
    /// The index of the next frame to serve.
    pub cursor: usize,
    /// Whether `set_slave_address` calls succeed.
    pub addressing_ok: bool,
    /// Whether `write` calls succeed.
    pub writing_ok: bool,
    /// Every call received so far, oldest first.
    pub calls: Vec<CallRecord>,
    /// The trace the contracts speak of.
    pub history: Ghost<Seq<Event>>,
}

/// How many of the records are address selections.
pub open spec fn selection_count(records: Seq<CallRecord>) -> nat
    decreases records.len(),
{
    if records.len() == 0 {
        0
    } else {
        selection_count(records.drop_last()) + (if records.last() is SetAddress {
            1nat
        } else {
            0nat
        })
    }
}

/// Copy a byte vector. The result holds exactly the same bytes.
pub fn copy_bytes(source: &Vec<u8>) -> (r: Vec<u8>)
    ensures
        r@ == source@,
{
    let mut r: Vec<u8> = Vec::new();
    let mut i: usize = 0;
    while i < source.len()
        invariant
            i <= source@.len(),
            r@ == source@.subrange(0, i as int),
        decreases source@.len() - i,
    {
        r.push(source[i]);
        proof {
            assert(source@.subrange(0, i + 1 as int) =~= source@.subrange(0, i as int).push(
                source@[i as int],
            ));
        }
        i = i + 1;
    }
    proof {
        assert(r@ =~= source@);
    }
    r
}

impl SimTransport {
    /// A fresh transport whose reads will serve `frames` in order and whose
    /// addressing and writes succeed.
    pub fn new(frames: Vec<Vec<u8>>) -> (t: SimTransport)
        ensures
            t.trace() == Seq::<Event>::empty(),
            t.frames == frames,
            t.cursor == 0,
            t.addressing_ok,
            t.writing_ok,
            t.calls@.len() == 0,
    {
        SimTransport {
            frames,
            cursor: 0,
            addressing_ok: true,
            writing_ok: true,
            calls: Vec::new(),
            history: Ghost(Seq::empty()),
        }
    }

    /// Make every further `set_slave_address` call fail.
    pub fn fail_addressing(&mut self)
        ensures
            *final(self) == (SimTransport { addressing_ok: false, ..*old(self) }),
    {
        self.addressing_ok = false;
    }

    /// Make every further `write` call fail.
    pub fn fail_writing(&mut self)
        ensures
            *final(self) == (SimTransport { writing_ok: false, ..*old(self) }),
    {
        self.writing_ok = false;
    }

    /// How many of the recorded calls selected a slave address.
    pub fn addressing_calls(&self) -> (n: usize)
        ensures
            n == selection_count(self.calls@),
    {
        let mut n: usize = 0;
        let mut i: usize = 0;
        while i < self.calls.len()
            invariant
                i <= self.calls@.len(),
                n <= i,
                n == selection_count(self.calls@.subrange(0, i as int)),
            decreases self.calls@.len() - i,
        {
            proof {
                let here = self.calls@.subrange(0, i + 1 as int);
                assert(here.drop_last() =~= self.calls@.subrange(0, i as int));
                assert(here.last() == self.calls@[i as int]);
            }
            match &self.calls[i] {
                CallRecord::SetAddress(_) => {
                    n = n + 1;
                },
                _ => {},
            }
            i = i + 1;
        }
        proof {
            assert(self.calls@.subrange(0, self.calls@.len() as int) =~= self.calls@);
        }
        n
    }
}

impl Transport for SimTransport {
    open spec fn trace(&self) -> Seq<Event> {
        self.history@
    }

    fn set_slave_address(&mut self, address: u16) -> (r: Result<(), TransportError>) {
        self.calls.push(CallRecord::SetAddress(address));
        if self.addressing_ok {
            self.history = Ghost(self.history@.push(Event::SetAddress(address, true)));
            Ok(())
        } else {
            self.history = Ghost(self.history@.push(Event::SetAddress(address, false)));
            Err(TransportError::Other)
        }
    }

    fn read(&mut self, len: usize) -> (r: Result<Vec<u8>, TransportError>) {
        self.calls.push(CallRecord::ReadCall(len));
        if self.cursor < self.frames.len() {
            let frame = copy_bytes(&self.frames[self.cursor]);
            self.cursor = self.cursor + 1;
            if frame.len() == len {
                self.history = Ghost(self.history@.push(Event::ReadCall(len, Some(frame@))));
                Ok(frame)
            } else {
                self.history = Ghost(self.history@.push(Event::ReadCall(len, None)));
                Err(TransportError::Other)
            }
        } else {
            self.history = Ghost(self.history@.push(Event::ReadCall(len, None)));
            Err(TransportError::Other)
        }
    }

    fn write(&mut self, payload: &Vec<u8>) -> (r: Result<(), TransportError>) {
        self.calls.push(CallRecord::WriteCall(copy_bytes(payload)));
        if self.writing_ok {
            self.history = Ghost(self.history@.push(Event::WriteCall(payload@, true)));
            Ok(())
        } else {
            self.history = Ghost(self.history@.push(Event::WriteCall(payload@, false)));
            Err(TransportError::Other)
        }
    }
}

} // verus!
