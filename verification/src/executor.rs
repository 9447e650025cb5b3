//! The transaction executor: one engine over any [`Transport`], exposed both
//! as the generic framed `transaction` path and as the raw single-operation
//! conveniences.
//!
//! Per-path protocol policy, chosen deliberately: the list path
//! ([`I2c::transaction`], [`I2c::transaction_iter`]) uses the framed-read
//! protocol and the kind-switch addressing discipline; reads are framed and
//! writes are not supported there (they fail with [`Error::Unimplemented`]).
//! Every convenience path ([`I2c::write`], [`I2c::read`], [`I2c::write_read`],
//! [`I2c::write_iter`], [`I2c::write_iter_read`]) is raw and unframed: one
//! addressing step, then the transport calls directly.

use vstd::prelude::*;
use crate::errors::Error;
use crate::ops::{OpKind, Operation};
use crate::protocol::{
    extension, frame_len_fits, framed_read_step, framed_run, raw_read_post, raw_write_post,
    raw_write_read_post, transaction_failed_at, transaction_ok, transaction_post,
};
use crate::transport::{Event, Transport};

verus! {

/// The bus handle: a transport together with the executor that runs
/// transactions over it. It owns the channel for as long as it lives; each
/// call runs to completion or to its first failure before returning.
pub struct I2c<T> {
    /// The raw channel this engine drives.
    pub transport: T,
}

/// The payload of a framed response: bytes `1..` of the frame, with the
/// support flag at byte `0` stripped off.
pub fn frame_payload(frame: &Vec<u8>) -> (payload: Vec<u8>)
    requires
        frame@.len() >= 1,
    ensures
        payload@ == frame@.subrange(1, frame@.len() as int),
{
    let mut payload: Vec<u8> = Vec::new();
    let mut i: usize = 1;
    while i < frame.len()
        invariant
            1 <= i <= frame@.len(),
            payload@ == frame@.subrange(1, i as int),
        decreases frame@.len() - i,
    {
        payload.push(frame[i]);
        proof {
            assert(frame@.subrange(1, i + 1 as int) =~= frame@.subrange(1, i as int).push(
                frame@[i as int],
            ));
        }
        i = i + 1;
    }
    payload
}

/// Internal: the trace `t1` extends `t0` with one successful address
/// selection followed by `done` framed-read calls; package that shape into
/// [`framed_run`] over the extension.
proof fn lemma_run_shape(
    address: u16,
    ops0: Seq<Operation>,
    ops1: Seq<Operation>,
    t0: Seq<Event>,
    t1: Seq<Event>,
    done: int,
)
    requires
        0 <= done <= ops0.len(),
        ops1.len() == ops0.len(),
        t1.len() >= t0.len() + 1 + done,
        t0.push(Event::SetAddress(address, true)).is_prefix_of(t1),
        forall|j: int|
            0 <= j < done ==> framed_read_step(ops0[j], #[trigger] ops1[j], t1[t0.len() + 1 + j]),
        forall|j: int| done <= j < ops0.len() ==> (#[trigger] ops1[j])@ == ops0[j]@,
    ensures
        t0.is_prefix_of(t1),
        extension(t0, t1).len() == t1.len() - t0.len(),
        framed_run(address, ops0, ops1, extension(t0, t1), done),
{
    let base = t0.push(Event::SetAddress(address, true));
    assert(t1.subrange(0, t0.len() as int) =~= t0);
    let ext = extension(t0, t1);
    assert(ext[0] == t1[t0.len() as int]);
    assert(t1[t0.len() as int] == base[t0.len() as int]);
    assert forall|j: int| 0 <= j < done implies framed_read_step(
        ops0[j],
        #[trigger] ops1[j],
        ext[j + 1],
    ) by {
        assert(ext[j + 1] == t1[t0.len() + 1 + j]);
    };
}

/// Internal: as [`lemma_run_shape`], but the trace carries one further call
/// `last` after the `done` framed reads — the call that aborted the run.
proof fn lemma_abort_shape(
    address: u16,
    ops0: Seq<Operation>,
    ops1: Seq<Operation>,
    t0: Seq<Event>,
    snap: Seq<Event>,
    t1: Seq<Event>,
    done: int,
    last: Event,
)
    requires
        0 <= done <= ops0.len(),
        ops1.len() == ops0.len(),
        snap.len() == t0.len() + 1 + done,
        t0.push(Event::SetAddress(address, true)).is_prefix_of(snap),
        forall|j: int|
            0 <= j < done ==> framed_read_step(ops0[j], #[trigger] ops1[j], snap[t0.len() + 1 + j]),
        forall|j: int| done <= j < ops0.len() ==> (#[trigger] ops1[j])@ == ops0[j]@,
        t1 == snap.push(last),
    ensures
        t0.is_prefix_of(t1),
        extension(t0, t1).len() == done + 2,
        extension(t0, t1)[done + 1] == last,
        framed_run(address, ops0, ops1, extension(t0, t1), done),
{
    let base = t0.push(Event::SetAddress(address, true));
    assert(base.is_prefix_of(t1)) by {
        assert(t1.subrange(0, base.len() as int) =~= base);
    };
    assert forall|j: int| 0 <= j < done implies framed_read_step(
        ops0[j],
        #[trigger] ops1[j],
        t1[t0.len() + 1 + j],
    ) by {
        assert(t1[t0.len() + 1 + j] == snap[t0.len() + 1 + j]);
    };
    lemma_run_shape(address, ops0, ops1, t0, t1, done);
    assert(extension(t0, t1)[done + 1] == t1[t0.len() + 1 + done]);
}

impl<T: Transport> I2c<T> {
    /// The trace of the transport under this engine.
    pub open spec fn trace(self) -> Seq<Event> {
        self.transport.trace()
    }

    /// Take ownership of `transport`.
    pub fn new(transport: T) -> (engine: I2c<T>)
        ensures
            engine.transport == transport,
    {
        I2c { transport }
    }

    /// Raw write: select the slave, then transmit `payload` unframed.
    pub fn write(&mut self, address: u8, payload: &Vec<u8>) -> (r: Result<(), Error>)
        ensures
            raw_write_post(
                address as u16,
                payload@,
                old(self).trace(),
                final(self).trace(),
                r,
            ),
    {
        let wide: u16 = address as u16;
        let ghost t0 = self.trace();
        match self.transport.set_slave_address(wide) {
            Ok(()) => {},
            Err(e) => {
                proof {
                    assert(extension(t0, self.trace()) =~= seq![Event::SetAddress(wide, false)]);
                    assert(self.trace().subrange(0, t0.len() as int) =~= t0);
                }
                return Err(Error::Transport(e));
            },
        }
        let outcome = self.transport.write(payload);
        proof {
            assert(extension(t0, self.trace()) =~= seq![
                Event::SetAddress(wide, true),
                Event::WriteCall(payload@, outcome is Ok),
            ]);
            assert(self.trace().subrange(0, t0.len() as int) =~= t0);
        }
        match outcome {
            Ok(()) => Ok(()),
            Err(e) => Err(Error::Transport(e)),
        }
    }

    /// Raw read: select the slave, then read exactly `len` bytes, unframed —
    /// the bytes are returned as the transport delivered them.
    pub fn read(&mut self, address: u8, len: usize) -> (r: Result<Vec<u8>, Error>)
        ensures
            raw_read_post(address as u16, len, old(self).trace(), final(self).trace(), r),
    {
        let wide: u16 = address as u16;
        let ghost t0 = self.trace();
        match self.transport.set_slave_address(wide) {
            Ok(()) => {},
            Err(e) => {
                proof {
                    assert(extension(t0, self.trace()) =~= seq![Event::SetAddress(wide, false)]);
                    assert(self.trace().subrange(0, t0.len() as int) =~= t0);
                }
                return Err(Error::Transport(e));
            },
        }
        match self.transport.read(len) {
            Ok(bytes) => {
                proof {
                    assert(extension(t0, self.trace()) =~= seq![
                        Event::SetAddress(wide, true),
                        Event::ReadCall(len, Some(bytes@)),
                    ]);
                    assert(self.trace().subrange(0, t0.len() as int) =~= t0);
                }
                Ok(bytes)
            },
            Err(e) => {
                proof {
                    assert(extension(t0, self.trace()) =~= seq![
                        Event::SetAddress(wide, true),
                        Event::ReadCall(len, None),
                    ]);
                    assert(self.trace().subrange(0, t0.len() as int) =~= t0);
                }
                Err(Error::Transport(e))
            },
        }
    }

    /// Raw write-then-read: one addressing step, one write, one read, with
    /// no framing and no re-addressing between the two data calls.
    pub fn write_read(&mut self, address: u8, payload: &Vec<u8>, len: usize) -> (r: Result<
        Vec<u8>,
        Error,
    >)
        ensures
            raw_write_read_post(
                address as u16,
                payload@,
                len,
                old(self).trace(),
                final(self).trace(),
                r,
            ),
    {
        let wide: u16 = address as u16;
        let ghost t0 = self.trace();
        match self.transport.set_slave_address(wide) {
            Ok(()) => {},
            Err(e) => {
                proof {
                    assert(extension(t0, self.trace()) =~= seq![Event::SetAddress(wide, false)]);
                    assert(self.trace().subrange(0, t0.len() as int) =~= t0);
                }
                return Err(Error::Transport(e));
            },
        }
        match self.transport.write(payload) {
            Ok(()) => {},
            Err(e) => {
                proof {
                    assert(extension(t0, self.trace()) =~= seq![
                        Event::SetAddress(wide, true),
                        Event::WriteCall(payload@, false),
                    ]);
                    assert(self.trace().subrange(0, t0.len() as int) =~= t0);
                }
                return Err(Error::Transport(e));
            },
        }
        match self.transport.read(len) {
            Ok(bytes) => {
                proof {
                    assert(extension(t0, self.trace()) =~= seq![
                        Event::SetAddress(wide, true),
                        Event::WriteCall(payload@, true),
                        Event::ReadCall(len, Some(bytes@)),
                    ]);
                    assert(self.trace().subrange(0, t0.len() as int) =~= t0);
                }
                Ok(bytes)
            },
            Err(e) => {
                proof {
                    assert(extension(t0, self.trace()) =~= seq![
                        Event::SetAddress(wide, true),
                        Event::WriteCall(payload@, true),
                        Event::ReadCall(len, None),
                    ]);
                    assert(self.trace().subrange(0, t0.len() as int) =~= t0);
                }
                Err(Error::Transport(e))
            },
        }
    }

    /// Materialized form of the iterator-based write: behaves exactly as
    /// [`I2c::write`] on the collected bytes.
    pub fn write_iter(&mut self, address: u8, payload: Vec<u8>) -> (r: Result<(), Error>)
        ensures
            raw_write_post(
                address as u16,
                payload@,
                old(self).trace(),
                final(self).trace(),
                r,
            ),
    {
        self.write(address, &payload)
    }

    /// Materialized form of the iterator-based write-then-read: behaves
    /// exactly as [`I2c::write_read`] on the collected bytes — the raw path,
    /// consistent with the other conveniences.
    pub fn write_iter_read(&mut self, address: u8, payload: Vec<u8>, len: usize) -> (r: Result<
        Vec<u8>,
        Error,
    >)
        ensures
            raw_write_read_post(
                address as u16,
                payload@,
                len,
                old(self).trace(),
                final(self).trace(),
                r,
            ),
    {
        self.write_read(address, &payload, len)
    }

    /// Run `operations` atomically against `address` under the framed
    /// protocol: the slave is selected once up front and re-selected whenever
    /// the operation kind switches; each read asks the transport for
    /// capacity + 1 bytes, demands a support flag of `1` at byte `0`, and
    /// fills the caller's buffer with the frame's payload; writes are not
    /// supported on this path and fail with [`Error::Unimplemented`]. The
    /// first failure aborts the rest of the sequence.
    #[verifier::loop_isolation(false)]
    pub fn transaction(&mut self, address: u8, operations: &mut Vec<Operation>) -> (r: Result<
        (),
        Error,
    >)
        requires
            forall|j: int|
                0 <= j < old(operations)@.len() ==> frame_len_fits(#[trigger] old(operations)@[j]),
        ensures
            transaction_post(
                address as u16,
                old(operations)@,
                final(operations)@,
                old(self).trace(),
                final(self).trace(),
                r,
            ),
    {
        let wide: u16 = address as u16;
        let ghost t0 = self.trace();
        let ghost ops0 = operations@;

        match self.transport.set_slave_address(wide) {
            Ok(()) => {},
            Err(e) => {
                proof {
                    assert(extension(t0, self.trace()) =~= seq![Event::SetAddress(wide, false)]);
                    assert(self.trace().subrange(0, t0.len() as int) =~= t0);
                }
                return Err(Error::Transport(e));
            },
        }

        let ghost base = self.trace();

        let count: usize = operations.len();
        let mut i: usize = 0;
        let mut previous: Option<OpKind> = None;

        while i < count
            invariant
                i <= count,
                operations@.len() == ops0.len(),
                self.trace().len() == base.len() + i,
                base.is_prefix_of(self.trace()),
                forall|j: int|
                    0 <= j < i ==> framed_read_step(
                        ops0[j],
                        #[trigger] operations@[j],
                        self.trace()[base.len() + j],
                    ),
                forall|j: int| i <= j < ops0.len() ==> (#[trigger] operations@[j])@ == ops0[j]@,
                previous == (if i == 0 {
                    Option::<OpKind>::None
                } else {
                    Option::Some(OpKind::Read)
                }),
            decreases count - i,
        {
            let ghost snap = self.trace();
            let current = operations[i].kind();
            proof {
                assert(operations@[i as int]@ == ops0[i as int]@);
            }

            if let Some(prev) = previous {
                if prev != current {
                    // The operation kind switched: re-assert slave selection.
                    match self.transport.set_slave_address(wide) {
                        Ok(()) => {},
                        Err(e) => {
                            proof {
                                lemma_abort_shape(
                                    wide,
                                    ops0,
                                    operations@,
                                    t0,
                                    snap,
                                    self.trace(),
                                    i as int,
                                    Event::SetAddress(wide, false),
                                );
                                assert(transaction_failed_at(
                                    wide,
                                    ops0,
                                    operations@,
                                    extension(t0, self.trace()),
                                    Error::Transport(e),
                                    i as int,
                                ));
                            }
                            return Err(Error::Transport(e));
                        },
                    }
                }
            }

            match current {
                OpKind::Write => {
                    // Framed writes are not supported by this engine; reject
                    // the transaction rather than transmit bytes the protocol
                    // does not define.
                    proof {
                        if i == 0 {
                            lemma_run_shape(wide, ops0, operations@, t0, self.trace(), 0);
                        } else {
                            lemma_abort_shape(
                                wide,
                                ops0,
                                operations@,
                                t0,
                                snap,
                                self.trace(),
                                i as int,
                                Event::SetAddress(wide, true),
                            );
                        }
                        assert(transaction_failed_at(
                            wide,
                            ops0,
                            operations@,
                            extension(t0, self.trace()),
                            Error::Unimplemented,
                            i as int,
                        ));
                    }
                    return Err(Error::Unimplemented);
                },
                OpKind::Read => {},
            }

            let mut cap: usize = 0;
            match &operations[i] {
                Operation::Read(buffer) => {
                    cap = buffer.len();
                },
                Operation::Write(_) => {},
            }
            proof {
                assert(ops0[i as int]@ is Read);
                assert(cap == ops0[i as int]@.data().len());
                assert(frame_len_fits(ops0[i as int]));
            }

            let frame = match self.transport.read(cap + 1) {
                Ok(frame) => frame,
                Err(e) => {
                    proof {
                        lemma_abort_shape(
                            wide,
                            ops0,
                            operations@,
                            t0,
                            snap,
                            self.trace(),
                            i as int,
                            Event::ReadCall((cap + 1) as usize, None),
                        );
                        assert(transaction_failed_at(
                            wide,
                            ops0,
                            operations@,
                            extension(t0, self.trace()),
                            Error::Transport(e),
                            i as int,
                        ));
                    }
                    return Err(Error::Transport(e));
                },
            };

            if frame[0] != 1 {
                // The slave declined this read shape; the caller's buffer is
                // left untouched.
                proof {
                    lemma_abort_shape(
                        wide,
                        ops0,
                        operations@,
                        t0,
                        snap,
                        self.trace(),
                        i as int,
                        Event::ReadCall((cap + 1) as usize, Some(frame@)),
                    );
                    assert(transaction_failed_at(
                        wide,
                        ops0,
                        operations@,
                        extension(t0, self.trace()),
                        Error::FeatureNotSupported,
                        i as int,
                    ));
                }
                return Err(Error::FeatureNotSupported);
            }

            let payload = frame_payload(&frame);
            operations[i] = Operation::Read(payload);
            proof {
                assert(self.trace() == snap.push(
                    Event::ReadCall((cap + 1) as usize, Some(frame@)),
                ));
                assert(base.is_prefix_of(self.trace())) by {
                    assert(self.trace().subrange(0, base.len() as int) =~= base);
                };
                assert(framed_read_step(
                    ops0[i as int],
                    operations@[i as int],
                    self.trace()[base.len() + i as int],
                ));
            }
            previous = Some(OpKind::Read);
            i = i + 1;
        }

        proof {
            lemma_run_shape(wide, ops0, operations@, t0, self.trace(), count as int);
            assert(transaction_ok(wide, ops0, operations@, extension(t0, self.trace())));
        }
        Ok(())
    }

    /// Materialized form of the iterator-based transaction: the same framed
    /// executor over an owned sequence, returning the operations — read
    /// buffers filled — on success.
    pub fn transaction_iter(&mut self, address: u8, operations: Vec<Operation>) -> (r: Result<
        Vec<Operation>,
        Error,
    >)
        requires
            forall|j: int|
                0 <= j < operations@.len() ==> frame_len_fits(#[trigger] operations@[j]),
        ensures
            (r matches Ok(done) ==> transaction_post(
                address as u16,
                operations@,
                done@,
                old(self).trace(),
                final(self).trace(),
                Ok(()),
            )),
            (r matches Err(e) ==> exists|ops1: Seq<Operation>|
                #[trigger] transaction_post(
                    address as u16,
                    operations@,
                    ops1,
                    old(self).trace(),
                    final(self).trace(),
                    Err(e),
                )),
    {
        let ghost ops_in = operations@;
        let mut operations = operations;
        match self.transaction(address, &mut operations) {
            Ok(()) => Ok(operations),
            Err(e) => {
                proof {
                    assert(transaction_post(
                        address as u16,
                        ops_in,
                        operations@,
                        old(self).trace(),
                        self.trace(),
                        Err(e),
                    ));
                }
                Err(e)
            },
        }
    }
}

} // verus!
