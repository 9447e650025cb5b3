//! Transaction engine for an I2C bus adapter.
//!
//! Given a slave address and an ordered sequence of read/write operations,
//! the executor runs them against a transport (the raw byte-level channel to
//! the bus), enforcing the protocol's addressing discipline and a
//! length-prefixed read framing convention.

pub mod errors;
pub mod ops;
pub mod transport;
pub mod protocol;
pub mod sim;
pub mod executor;

pub use errors::{Error, ErrorKind, TransportError};
pub use executor::I2c;
pub use ops::{OpKind, Operation};
pub use sim::{CallRecord, SimTransport};
