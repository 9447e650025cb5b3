//! The operations a transaction is made of.

use vstd::prelude::*;

verus! {

/// One bus operation. A `Read` carries the caller's buffer, whose length is
/// the number of payload bytes requested from the slave; a `Write` carries the
/// payload to transmit. The sequence handed to the executor is processed
/// strictly left to right.
#[derive(Debug, PartialEq, Eq)]
pub enum Operation {
    Read(Vec<u8>),
    Write(Vec<u8>),
}

/// The mathematical model of an [`Operation`]: the same two shapes over `Seq<u8>`.
pub enum OpModel {
    Read(Seq<u8>),
    Write(Seq<u8>),
}

impl View for Operation {
    type V = OpModel;

    open spec fn view(&self) -> OpModel {
        match self {
            Operation::Read(buffer) => OpModel::Read(buffer@),
            Operation::Write(payload) => OpModel::Write(payload@),
        }
    }
}

/// The read-vs-write tag of an operation, used to decide whether the slave
/// address must be re-asserted between consecutive operations.
#[derive(Clone, Copy, Debug, PartialEq, Eq, Structural)]
pub enum OpKind {
    Read,
    Write,
}

impl OpModel {
    /// The tag of this operation.
    pub open spec fn kind(self) -> OpKind {
        match self {
            OpModel::Read(_) => OpKind::Read,
            OpModel::Write(_) => OpKind::Write,
        }
    }

    /// The bytes the operation carries: for a read, the buffer contents; for a
    /// write, the payload.
    pub open spec fn data(self) -> Seq<u8> {
        match self {
            OpModel::Read(buffer) => buffer,
            OpModel::Write(payload) => payload,
        }
    }
}

impl Operation {
    /// The tag of this operation.
    pub fn kind(&self) -> (k: OpKind)
        ensures
            k == self@.kind(),
    {
        match self {
            Operation::Read(_) => OpKind::Read,
            Operation::Write(_) => OpKind::Write,
        }
    }
}

} // verus!
