//! End-to-end tests of the transaction executor over the scripted transport.

use i2c_engine::errors::{Error, ErrorKind, TransportError};
use i2c_engine::executor::{frame_payload, I2c};
use i2c_engine::ops::{OpKind, Operation};
use i2c_engine::sim::{CallRecord, SimTransport};

fn engine_with(frames: Vec<Vec<u8>>) -> I2c<SimTransport> {
    I2c::new(SimTransport::new(frames))
}

#[test]
fn read3_success_fills_buffer() {
    let mut engine = engine_with(vec![vec![1, 0xAA, 0xBB, 0xCC]]);
    let mut ops = vec![Operation::Read(vec![0, 0, 0])];
    let r = engine.transaction(0x50, &mut ops);
    assert_eq!(r, Ok(()));
    assert_eq!(ops, vec![Operation::Read(vec![0xAA, 0xBB, 0xCC])]);
    assert_eq!(
        engine.transport.calls,
        vec![CallRecord::SetAddress(0x50), CallRecord::ReadCall(4)]
    );
}

#[test]
fn read2_flag_zero_fails_buffer_untouched() {
    let mut engine = engine_with(vec![vec![0, 0x00, 0x00]]);
    let mut ops = vec![Operation::Read(vec![9, 9])];
    let r = engine.transaction(0x50, &mut ops);
    assert_eq!(r, Err(Error::FeatureNotSupported));
    assert_eq!(ops, vec![Operation::Read(vec![9, 9])]);
}

#[test]
fn read_flag_two_also_fails() {
    let mut engine = engine_with(vec![vec![2, 0xAA]]);
    let mut ops = vec![Operation::Read(vec![0])];
    let r = engine.transaction(0x50, &mut ops);
    assert_eq!(r, Err(Error::FeatureNotSupported));
    assert_eq!(ops, vec![Operation::Read(vec![0])]);
}

#[test]
fn two_reads_share_one_addressing_call() {
    let mut engine = engine_with(vec![vec![1, 5], vec![1, 6]]);
    let mut ops = vec![Operation::Read(vec![0]), Operation::Read(vec![0])];
    let r = engine.transaction(0x50, &mut ops);
    assert_eq!(r, Ok(()));
    assert_eq!(engine.transport.addressing_calls(), 1);
    assert_eq!(
        engine.transport.calls,
        vec![
            CallRecord::SetAddress(0x50),
            CallRecord::ReadCall(2),
            CallRecord::ReadCall(2),
        ]
    );
    assert_eq!(
        ops,
        vec![Operation::Read(vec![5]), Operation::Read(vec![6])]
    );
}

#[test]
fn kind_switch_readdresses_before_write() {
    let mut engine = engine_with(vec![vec![1, 7]]);
    let mut ops = vec![
        Operation::Read(vec![0]),
        Operation::Write(vec![b'x']),
    ];
    let r = engine.transaction(0x50, &mut ops);
    assert_eq!(r, Err(Error::Unimplemented));
    assert_eq!(engine.transport.addressing_calls(), 2);
    assert_eq!(
        engine.transport.calls,
        vec![
            CallRecord::SetAddress(0x50),
            CallRecord::ReadCall(2),
            CallRecord::SetAddress(0x50),
        ]
    );
    // the finished read keeps its payload; the write payload is untouched
    assert_eq!(
        ops,
        vec![Operation::Read(vec![7]), Operation::Write(vec![b'x'])]
    );
}

#[test]
fn leading_write_rejected_without_readdressing() {
    let mut engine = engine_with(vec![]);
    let mut ops = vec![Operation::Write(vec![1, 2])];
    let r = engine.transaction(0x31, &mut ops);
    assert_eq!(r, Err(Error::Unimplemented));
    assert_eq!(engine.transport.calls, vec![CallRecord::SetAddress(0x31)]);
}

#[test]
fn empty_transaction_selects_address_once() {
    let mut engine = engine_with(vec![]);
    let mut ops: Vec<Operation> = vec![];
    let r = engine.transaction(0x2A, &mut ops);
    assert_eq!(r, Ok(()));
    assert_eq!(engine.transport.calls, vec![CallRecord::SetAddress(0x2A)]);
}

#[test]
fn read_asks_for_capacity_plus_one_bytes() {
    let mut engine = engine_with(vec![vec![1, 1, 2, 3]]);
    let mut ops = vec![Operation::Read(vec![0, 0, 0])];
    let r = engine.transaction(0x11, &mut ops);
    assert_eq!(r, Ok(()));
    assert_eq!(engine.transport.calls[1], CallRecord::ReadCall(4));
}

#[test]
fn transport_failure_aborts_remaining_operations() {
    // only one frame is scripted: the second read fails at the transport
    let mut engine = engine_with(vec![vec![1, 5]]);
    let mut ops = vec![
        Operation::Read(vec![0]),
        Operation::Read(vec![8]),
        Operation::Read(vec![8]),
    ];
    let r = engine.transaction(0x50, &mut ops);
    assert_eq!(r, Err(Error::Transport(TransportError::Other)));
    // the third read was never attempted
    assert_eq!(
        engine.transport.calls,
        vec![
            CallRecord::SetAddress(0x50),
            CallRecord::ReadCall(2),
            CallRecord::ReadCall(2),
        ]
    );
    // the first buffer was filled; the later ones are untouched
    assert_eq!(
        ops,
        vec![
            Operation::Read(vec![5]),
            Operation::Read(vec![8]),
            Operation::Read(vec![8]),
        ]
    );
}

#[test]
fn addressing_failure_aborts_before_any_operation() {
    let mut engine = engine_with(vec![vec![1, 5]]);
    engine.transport.fail_addressing();
    let mut ops = vec![Operation::Read(vec![0])];
    let r = engine.transaction(0x50, &mut ops);
    assert_eq!(r, Err(Error::Transport(TransportError::Other)));
    assert_eq!(engine.transport.calls, vec![CallRecord::SetAddress(0x50)]);
    assert_eq!(ops, vec![Operation::Read(vec![0])]);
}

#[test]
fn wrong_length_frame_is_a_transport_failure() {
    // the scripted frame has three bytes where two were requested
    let mut engine = engine_with(vec![vec![1, 2, 3]]);
    let mut ops = vec![Operation::Read(vec![0])];
    let r = engine.transaction(0x50, &mut ops);
    assert_eq!(r, Err(Error::Transport(TransportError::Other)));
    assert_eq!(ops, vec![Operation::Read(vec![0])]);
}

#[test]
fn raw_write_selects_then_transmits() {
    let mut engine = engine_with(vec![]);
    let r = engine.write(0x21, &vec![1, 2, 3]);
    assert_eq!(r, Ok(()));
    assert_eq!(
        engine.transport.calls,
        vec![
            CallRecord::SetAddress(0x21),
            CallRecord::WriteCall(vec![1, 2, 3]),
        ]
    );
}

#[test]
fn raw_write_failure_propagates() {
    let mut engine = engine_with(vec![]);
    engine.transport.fail_writing();
    let r = engine.write(0x21, &vec![1]);
    assert_eq!(r, Err(Error::Transport(TransportError::Other)));
}

#[test]
fn raw_read_returns_bytes_unframed() {
    // the raw path does not interpret byte 0 as a flag
    let mut engine = engine_with(vec![vec![0xDE, 0xAD]]);
    let r = engine.read(0x42, 2);
    assert_eq!(r, Ok(vec![0xDE, 0xAD]));
    assert_eq!(
        engine.transport.calls,
        vec![CallRecord::SetAddress(0x42), CallRecord::ReadCall(2)]
    );
}

#[test]
fn raw_write_read_shares_one_addressing_call() {
    let mut engine = engine_with(vec![vec![9, 8]]);
    let r = engine.write_read(0x10, &vec![1], 2);
    assert_eq!(r, Ok(vec![9, 8]));
    assert_eq!(engine.transport.addressing_calls(), 1);
    assert_eq!(
        engine.transport.calls,
        vec![
            CallRecord::SetAddress(0x10),
            CallRecord::WriteCall(vec![1]),
            CallRecord::ReadCall(2),
        ]
    );
}

#[test]
fn write_iter_matches_raw_write() {
    let mut engine = engine_with(vec![]);
    let r = engine.write_iter(0x33, vec![4, 5]);
    assert_eq!(r, Ok(()));
    assert_eq!(
        engine.transport.calls,
        vec![CallRecord::SetAddress(0x33), CallRecord::WriteCall(vec![4, 5])]
    );
}

#[test]
fn write_iter_read_matches_raw_write_read() {
    let mut engine = engine_with(vec![vec![7]]);
    let r = engine.write_iter_read(0x34, vec![2], 1);
    assert_eq!(r, Ok(vec![7]));
    assert_eq!(
        engine.transport.calls,
        vec![
            CallRecord::SetAddress(0x34),
            CallRecord::WriteCall(vec![2]),
            CallRecord::ReadCall(1),
        ]
    );
}

#[test]
fn transaction_iter_returns_filled_operations() {
    let mut engine = engine_with(vec![vec![1, 0x55]]);
    let ops = vec![Operation::Read(vec![0])];
    let r = engine.transaction_iter(0x50, ops);
    assert_eq!(r, Ok(vec![Operation::Read(vec![0x55])]));
}

#[test]
fn transaction_iter_propagates_failure() {
    let mut engine = engine_with(vec![vec![0, 0]]);
    let ops = vec![Operation::Read(vec![0])];
    let r = engine.transaction_iter(0x50, ops);
    assert_eq!(r, Err(Error::FeatureNotSupported));
}

#[test]
fn error_kind_classification() {
    assert_eq!(
        Error::Transport(TransportError::InvalidData).kind(),
        ErrorKind::Bus
    );
    assert_eq!(
        Error::Transport(TransportError::WouldBlock).kind(),
        ErrorKind::ArbitrationLoss
    );
    assert_eq!(Error::Transport(TransportError::Other).kind(), ErrorKind::Other);
    assert_eq!(Error::FeatureNotSupported.kind(), ErrorKind::Other);
    assert_eq!(Error::Unimplemented.kind(), ErrorKind::Other);
}

#[test]
fn frame_payload_strips_flag_byte() {
    assert_eq!(frame_payload(&vec![1, 2, 3]), vec![2, 3]);
    assert_eq!(frame_payload(&vec![1]), Vec::<u8>::new());
}

#[test]
fn operation_kinds() {
    assert_eq!(Operation::Read(vec![]).kind(), OpKind::Read);
    assert_eq!(Operation::Write(vec![0]).kind(), OpKind::Write);
}
