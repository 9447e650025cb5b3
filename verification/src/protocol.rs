//! What the executor promises, stated over transport traces.
//!
//! Every public method of the executor extends its transport's trace; the
//! predicates here describe the extension exactly, together with what happens
//! to the caller's operations. `t0` is always the trace before the call, `t1`
//! the trace after it, and the *extension* is `t1` with `t0` cut off the
//! front.

use vstd::prelude::*;
use crate::errors::Error;
use crate::ops::{OpKind, Operation};
use crate::transport::Event;

verus! {

/// The calls a method added to the trace: `t1` minus its prefix `t0`.
pub open spec fn extension(t0: Seq<Event>, t1: Seq<Event>) -> Seq<Event> {
    t1.subrange(t0.len() as int, t1.len() as int)
}

/// A read operation's buffer can grow by the one-byte support flag without
/// overflowing `usize`. The executor requires this of every read it is
/// handed; it is a machine limit, not a protocol rule.
pub open spec fn frame_len_fits(op: Operation) -> bool {
    op@ is Read ==> op@.data().len() < usize::MAX
}

/// Operation `op0` was performed as one framed read, leaving `op1` behind,
/// and `ev` is the transport call that did it: the transport was asked for
/// exactly capacity + 1 bytes, the frame came back with its flag byte equal
/// to `1`, and the caller's buffer was replaced by the frame's payload,
/// bytes `1..=capacity`, unchanged and in order.
pub open spec fn framed_read_step(op0: Operation, op1: Operation, ev: Event) -> bool {
    let cap = op0@.data().len();
    &&& op0@ is Read
    &&& op1@ is Read
    &&& (ev matches Event::ReadCall(len, frames) && len == cap + 1 && (frames matches Some(
        frame,
    ) && frame.len() == cap + 1 && frame[0] == 1 && op1@.data() == frame.subrange(
        1,
        cap as int + 1,
    )))
}

/// The first `done` operations ran to completion as framed reads. The
/// extension `ext` opens with the one successful address selection and then
/// holds exactly one read call per finished operation — consecutive reads
/// share the initial addressing and no selection call stands between them —
/// and every operation from `done` on is untouched.
pub open spec fn framed_run(
    address: u16,
    ops0: Seq<Operation>,
    ops1: Seq<Operation>,
    ext: Seq<Event>,
    done: int,
) -> bool {
    &&& 0 <= done <= ops0.len()
    &&& ops1.len() == ops0.len()
    &&& ext.len() >= done + 1
    &&& ext[0] == Event::SetAddress(address, true)
    &&& (forall|j: int| 0 <= j < done ==> framed_read_step(ops0[j], ops1[j], #[trigger] ext[j + 1]))
    &&& (forall|j: int| done <= j < ops0.len() ==> (#[trigger] ops1[j])@ == ops0[j]@)
}

/// No operation was touched.
pub open spec fn ops_unchanged(ops0: Seq<Operation>, ops1: Seq<Operation>) -> bool {
    &&& ops1.len() == ops0.len()
    &&& (forall|j: int| 0 <= j < ops0.len() ==> (#[trigger] ops1[j])@ == ops0[j]@)
}

/// A transaction that returned success: every operation was a framed read
/// that completed, after exactly one address selection and one transport read
/// per operation — no other call was issued.
pub open spec fn transaction_ok(
    address: u16,
    ops0: Seq<Operation>,
    ops1: Seq<Operation>,
    ext: Seq<Event>,
) -> bool {
    &&& ext.len() == ops0.len() + 1
    &&& framed_run(address, ops0, ops1, ext, ops0.len() as int)
}

/// A transaction that failed at operation `at`, after the first `at`
/// operations completed as framed reads. No operation past `at` was attempted
/// and none of their buffers was touched; the extension ends with the call
/// that failed:
///
/// - a read whose transport call failed — a transport error;
/// - a read whose frame came back with a flag byte other than `1` — the
///   feature-not-supported error, the caller's buffer left untouched;
/// - a write operation: the engine does not support framed writes. The first
///   operation needs no re-addressing, so nothing follows the initial
///   selection; a later write differs in kind from the read before it, so
///   the address is re-asserted first, and that selection call may itself
///   fail with a transport error.
pub open spec fn transaction_failed_at(
    address: u16,
    ops0: Seq<Operation>,
    ops1: Seq<Operation>,
    ext: Seq<Event>,
    e: Error,
    at: int,
) -> bool {
    &&& 0 <= at < ops0.len()
    &&& framed_run(address, ops0, ops1, ext, at)
    &&& (if ops0[at]@ is Read {
        let cap = ops0[at]@.data().len();
        &&& ext.len() == at + 2
        &&& (ext[at + 1] matches Event::ReadCall(len, frames) && len == cap + 1 && (match frames {
            Some(frame) => frame.len() == cap + 1 && frame[0] != 1 && e is FeatureNotSupported,
            None => e is Transport,
        }))
    } else if at == 0 {
        &&& ext.len() == 1
        &&& e is Unimplemented
    } else {
        &&& ext.len() == at + 2
        &&& (ext[at + 1] matches Event::SetAddress(again, ok) && again == address && (if ok {
            e is Unimplemented
        } else {
            e is Transport
        }))
    })
}

/// The whole contract of `transaction`: the trace grew by `ext` and, by
/// outcome, either every operation completed ([`transaction_ok`]) or the run
/// stopped at the first failure ([`transaction_failed_at`]) — except that
/// the very first address selection may already have failed, in which case
/// it is the only call issued and nothing was touched.
pub open spec fn transaction_post(
    address: u16,
    ops0: Seq<Operation>,
    ops1: Seq<Operation>,
    t0: Seq<Event>,
    t1: Seq<Event>,
    r: Result<(), Error>,
) -> bool {
    let ext = extension(t0, t1);
    &&& t0.is_prefix_of(t1)
    &&& (match r {
        Ok(()) => transaction_ok(address, ops0, ops1, ext),
        Err(e) => {
            ||| (ext == seq![Event::SetAddress(address, false)] && e is Transport && ops_unchanged(
                ops0,
                ops1,
            ))
            ||| (exists|at: int|
                #[trigger] transaction_failed_at(address, ops0, ops1, ext, e, at))
        },
    })
}

/// The contract of the raw, unframed `write` convenience: one address
/// selection, then — if it succeeded — one transport write of the payload
/// as given, nothing more. Success exactly when both calls succeeded.
pub open spec fn raw_write_post(
    address: u16,
    payload: Seq<u8>,
    t0: Seq<Event>,
    t1: Seq<Event>,
    r: Result<(), Error>,
) -> bool {
    let ext = extension(t0, t1);
    &&& t0.is_prefix_of(t1)
    &&& (match r {
        Ok(()) => ext == seq![
            Event::SetAddress(address, true),
            Event::WriteCall(payload, true),
        ],
        Err(e) => e is Transport && {
            ||| ext == seq![Event::SetAddress(address, false)]
            ||| ext == seq![Event::SetAddress(address, true), Event::WriteCall(payload, false)]
        },
    })
}

/// The contract of the raw, unframed `read` convenience: one address
/// selection, then — if it succeeded — one transport read of exactly `len`
/// bytes, unframed: the bytes are handed back as they came.
pub open spec fn raw_read_post(
    address: u16,
    len: usize,
    t0: Seq<Event>,
    t1: Seq<Event>,
    r: Result<Vec<u8>, Error>,
) -> bool {
    let ext = extension(t0, t1);
    &&& t0.is_prefix_of(t1)
    &&& (match r {
        Ok(bytes) => bytes@.len() == len && ext == seq![
            Event::SetAddress(address, true),
            Event::ReadCall(len, Some(bytes@)),
        ],
        Err(e) => e is Transport && {
            ||| ext == seq![Event::SetAddress(address, false)]
            ||| ext == seq![Event::SetAddress(address, true), Event::ReadCall(len, None)]
        },
    })
}

/// The contract of the raw `write_read` convenience: one address selection,
/// one write, one read, in that order, stopping at the first failure. The
/// two data calls share the single addressing step — the raw path does not
/// re-assert the address between them.
pub open spec fn raw_write_read_post(
    address: u16,
    payload: Seq<u8>,
    len: usize,
    t0: Seq<Event>,
    t1: Seq<Event>,
    r: Result<Vec<u8>, Error>,
) -> bool {
    let ext = extension(t0, t1);
    &&& t0.is_prefix_of(t1)
    &&& (match r {
        Ok(bytes) => bytes@.len() == len && ext == seq![
            Event::SetAddress(address, true),
            Event::WriteCall(payload, true),
            Event::ReadCall(len, Some(bytes@)),
        ],
        Err(e) => e is Transport && {
            ||| ext == seq![Event::SetAddress(address, false)]
            ||| ext == seq![Event::SetAddress(address, true), Event::WriteCall(payload, false)]
            ||| ext == seq![
                Event::SetAddress(address, true),
                Event::WriteCall(payload, true),
                Event::ReadCall(len, None),
            ]
        },
    })
}

/// How many of the events are address selections.
pub open spec fn addressing_count(events: Seq<Event>) -> nat
    decreases events.len(),
{
    if events.len() == 0 {
        0
    } else {
        addressing_count(events.drop_last()) + (if events.last() is SetAddress {
            1nat
        } else {
            0nat
        })
    }
}

/// Internal: a sequence whose head is an address selection and whose every
/// later event is not one holds exactly one address selection.
proof fn lemma_single_selection_count(events: Seq<Event>)
    requires
        events.len() >= 1,
        events[0] is SetAddress,
        forall|j: int| 1 <= j < events.len() ==> !((#[trigger] events[j]) is SetAddress),
    ensures
        addressing_count(events) == 1,
    decreases events.len(),
{
    if events.len() == 1 {
        assert(addressing_count(events.drop_last()) == 0);
    } else {
        let front = events.drop_last();
        assert(front[0] == events[0]);
        assert forall|j: int| 1 <= j < front.len() implies !((#[trigger] front[j]) is SetAddress) by {
            assert(front[j] == events[j]);
        };
        lemma_single_selection_count(front);
        assert(!(events.last() is SetAddress));
    }
}

/// Law: every transaction issues an address-selection call before anything
/// else — the first call of the extension selects the given address,
/// whatever the outcome.
pub proof fn lemma_selects_address_first(
    address: u16,
    ops0: Seq<Operation>,
    ops1: Seq<Operation>,
    t0: Seq<Event>,
    t1: Seq<Event>,
    r: Result<(), Error>,
)
    requires
        transaction_post(address, ops0, ops1, t0, t1, r),
    ensures
        extension(t0, t1).len() >= 1,
        (extension(t0, t1)[0] matches Event::SetAddress(a, _) && a == address),
{
    let ext = extension(t0, t1);
    match r {
        Ok(()) => {},
        Err(e) => {
            if exists|at: int| transaction_failed_at(address, ops0, ops1, ext, e, at) {
                let at: int = choose|at: int| transaction_failed_at(address, ops0, ops1, ext, e, at);
            } else {
                assert(ext == seq![Event::SetAddress(address, false)]);
                assert(ext[0] == Event::SetAddress(address, false));
            }
        },
    }
}

/// Law: consecutive operations of the same kind share one addressing call.
/// In a successful transaction every operation is a read, and the initial
/// selection is the only one — no re-addressing occurs between adjacent
/// reads.
pub proof fn lemma_same_kind_single_addressing(
    address: u16,
    ops0: Seq<Operation>,
    ops1: Seq<Operation>,
    ext: Seq<Event>,
)
    requires
        transaction_ok(address, ops0, ops1, ext),
    ensures
        addressing_count(ext) == 1,
        ext[0] == Event::SetAddress(address, true),
{
    assert forall|j: int| 1 <= j < ext.len() implies !((#[trigger] ext[j]) is SetAddress) by {
        let k: int = j - 1;
        assert(framed_read_step(ops0[k], ops1[k], ext[k + 1]));
    };
    lemma_single_selection_count(ext);
}

/// Law: when adjacent operations differ in kind, the address is re-asserted
/// between them — a write following a read re-issues the selection call
/// before the write is considered, in addition to the initial selection.
pub proof fn lemma_kind_switch_readdresses(
    address: u16,
    ops0: Seq<Operation>,
    ops1: Seq<Operation>,
    ext: Seq<Event>,
    e: Error,
    at: int,
)
    requires
        transaction_failed_at(address, ops0, ops1, ext, e, at),
        !(ops0[at]@ is Read),
        0 < at,
    ensures
        ext.len() == at + 2,
        (ext[at + 1] matches Event::SetAddress(a, _) && a == address),
        ext[0] == Event::SetAddress(address, true),
        addressing_count(ext) >= 2,
{
    assert(ext[at + 1] is SetAddress);
    lemma_two_selections_counted(ext, at + 1);
}

/// Internal: a sequence whose head is an address selection and that holds a
/// second one at `k` counts at least two.
proof fn lemma_two_selections_counted(events: Seq<Event>, k: int)
    requires
        events[0] is SetAddress,
        0 < k < events.len(),
        events[k] is SetAddress,
    ensures
        addressing_count(events) >= 2,
    decreases events.len(),
{
    let front = events.drop_last();
    if k == events.len() - 1 {
        lemma_at_least_one_selection(front);
    } else {
        assert(front[0] == events[0]);
        assert(front[k] == events[k]);
        lemma_two_selections_counted(front, k);
    }
}

/// Internal: a sequence whose head is an address selection counts at least
/// one.
proof fn lemma_at_least_one_selection(events: Seq<Event>)
    requires
        events.len() >= 1,
        events[0] is SetAddress,
    ensures
        addressing_count(events) >= 1,
    decreases events.len(),
{
    if events.len() > 1 {
        let front = events.drop_last();
        assert(front[0] == events[0]);
        lemma_at_least_one_selection(front);
    }
}

/// Law: a framed read of capacity `n` asks the transport for exactly
/// `n + 1` bytes — the payload plus the one-byte support flag.
pub proof fn lemma_read_requests_one_extra(
    address: u16,
    ops0: Seq<Operation>,
    ops1: Seq<Operation>,
    ext: Seq<Event>,
    done: int,
    j: int,
)
    requires
        framed_run(address, ops0, ops1, ext, done),
        0 <= j < done,
    ensures
        (ext[j + 1] matches Event::ReadCall(len, _) && len == ops0[j]@.data().len() + 1),
{
    assert(framed_read_step(ops0[j], ops1[j], ext[j + 1]));
}

/// Law: when a frame's flag byte is `1`, the caller's buffer receives
/// exactly bytes `1..=n` of the frame, unchanged and in order.
pub proof fn lemma_flag_ok_copies_payload(op0: Operation, op1: Operation, ev: Event)
    requires
        framed_read_step(op0, op1, ev),
    ensures
        (ev matches Event::ReadCall(len, frames) && frames matches Some(frame) && frame.len()
            == op0@.data().len() + 1 && frame[0] == 1 && op1@.data() == frame.subrange(
            1,
            frame.len() as int,
        )),
{
}

/// Law: when a frame's flag byte is not `1`, the transaction fails with the
/// feature-not-supported error and the caller's buffer is left untouched.
pub proof fn lemma_flag_bad_fails_untouched(
    address: u16,
    ops0: Seq<Operation>,
    ops1: Seq<Operation>,
    ext: Seq<Event>,
    e: Error,
    at: int,
)
    requires
        transaction_failed_at(address, ops0, ops1, ext, e, at),
        ops0[at]@ is Read,
        (ext[at + 1] matches Event::ReadCall(len, frames) && frames is Some),
    ensures
        e is FeatureNotSupported,
        ops1[at]@ == ops0[at]@,
        (ext[at + 1] matches Event::ReadCall(len, frames) && frames matches Some(frame)
            && frame[0] != 1),
{
    assert(ops1[at]@ == ops0[at]@);
}

/// Law: a failure at operation `at` aborts the transaction — no transport
/// call is issued for any later operation and no buffer from `at` on is
/// touched.
pub proof fn lemma_failure_aborts(
    address: u16,
    ops0: Seq<Operation>,
    ops1: Seq<Operation>,
    ext: Seq<Event>,
    e: Error,
    at: int,
)
    requires
        transaction_failed_at(address, ops0, ops1, ext, e, at),
    ensures
        ext.len() <= at + 2,
        forall|j: int| at <= j < ops0.len() ==> (#[trigger] ops1[j])@ == ops0[j]@,
{
}

/// Law: the empty transaction issues exactly one call — the address
/// selection — and succeeds exactly when that call succeeds.
pub proof fn lemma_empty_transaction(
    address: u16,
    ops0: Seq<Operation>,
    ops1: Seq<Operation>,
    t0: Seq<Event>,
    t1: Seq<Event>,
    r: Result<(), Error>,
)
    requires
        transaction_post(address, ops0, ops1, t0, t1, r),
        ops0.len() == 0,
    ensures
        extension(t0, t1).len() == 1,
        (r is Ok ==> extension(t0, t1) == seq![Event::SetAddress(address, true)]),
        (r is Err ==> extension(t0, t1) == seq![Event::SetAddress(address, false)]),
{
    let ext = extension(t0, t1);
    match r {
        Ok(()) => {
            assert(ext =~= seq![Event::SetAddress(address, true)]);
        },
        Err(e) => {
            if exists|at: int| transaction_failed_at(address, ops0, ops1, ext, e, at) {
                let at: int = choose|at: int| transaction_failed_at(address, ops0, ops1, ext, e, at);
                assert(false);
            }
            assert(ext == seq![Event::SetAddress(address, false)]);
        },
    }
}

} // verus!
